//! Typed records for the three tables, the table identifiers, and the error
//! taxonomy of the data layer.
//!
//! Monetary amounts are held as fixed-point integers in hundredths of a
//! currency unit, so that every field of a record is a plain value the
//! contracts can speak about directly.

use vstd::prelude::*;

verus! {

/// A row of the `employees` table.
#[derive(Debug, PartialEq)]
pub struct Employee {
    pub id: i64,
    pub name: String,
    pub phone: String,
    pub address: String,
    pub ssn: String,
    pub work_percentage: u8,
    pub cash_percentage: u8,
    pub is_active: bool,
}

/// An employee payload as supplied on creation: every field except the id,
/// which the store assigns.
#[derive(Debug, PartialEq)]
pub struct NewEmployee {
    pub name: String,
    pub phone: String,
    pub address: String,
    pub ssn: String,
    pub work_percentage: u8,
    pub cash_percentage: u8,
    pub is_active: bool,
}

/// A row of the `work` table. Amounts are in hundredths of a currency unit;
/// `tip`, `discount` and `charged` are optional (a database null).
#[derive(Debug, PartialEq)]
pub struct Work {
    pub id: i64,
    pub timestamp: String,
    pub total: i64,
    pub tip: Option<i64>,
    pub discount: Option<i64>,
    pub charged: Option<i64>,
}

/// A work payload as supplied on creation: every field except the id.
#[derive(Debug, PartialEq)]
pub struct NewWork {
    pub timestamp: String,
    pub total: i64,
    pub tip: Option<i64>,
    pub discount: Option<i64>,
    pub charged: Option<i64>,
}

/// A row of the `employee_work` join table: one employee's share of one work
/// record. Amounts are in hundredths of a currency unit; `tip` is optional.
#[derive(Debug, PartialEq)]
pub struct EmployeeWork {
    pub id: i64,
    pub employee_id: i64,
    pub work_id: i64,
    pub amount: i64,
    pub tip: Option<i64>,
}

/// An employee-work payload as supplied on creation: every field except the id.
#[derive(Debug, PartialEq)]
pub struct NewEmployeeWork {
    pub employee_id: i64,
    pub work_id: i64,
    pub amount: i64,
    pub tip: Option<i64>,
}

/// The fixed set of tables. Every operation that needs a table name selects
/// it from this enumeration, never from caller-supplied text.
#[derive(Clone, Copy, Debug, PartialEq, Eq, Structural)]
pub enum Table {
    Employees,
    Work,
    EmployeeWork,
}

/// Why a raw row could not be converted to a typed record: the column at the
/// given index is absent, or holds a value of the wrong type (including a
/// null where a non-null value is required).
#[derive(Clone, Copy, Debug, PartialEq, Eq, Structural)]
pub enum MappingError {
    MissingColumn(usize),
    WrongType(usize),
}

/// The error taxonomy of the data layer.
#[derive(Debug, PartialEq)]
pub enum StoreError {
    /// A schema operation failed; the text says which statement and why.
    Schema(String),
    /// An operation was attempted on a table that does not exist.
    NoSuchTable(Table),
    /// The target row of an update or delete is missing.
    NotFound,
    /// A row could not be converted to a typed record.
    Mapping(MappingError),
    /// The id space of a table is exhausted: no fresh id fits in an `i64`.
    Full,
    /// A database-driver failure, surfaced verbatim.
    Driver(String),
}

impl Clone for Employee {
    fn clone(&self) -> (r: Self)
        ensures
            r == *self,
    {
        Employee {
            id: self.id,
            name: self.name.clone(),
            phone: self.phone.clone(),
            address: self.address.clone(),
            ssn: self.ssn.clone(),
            work_percentage: self.work_percentage,
            cash_percentage: self.cash_percentage,
            is_active: self.is_active,
        }
    }
}

impl Clone for Work {
    fn clone(&self) -> (r: Self)
        ensures
            r == *self,
    {
        Work {
            id: self.id,
            timestamp: self.timestamp.clone(),
            total: self.total,
            tip: self.tip,
            discount: self.discount,
            charged: self.charged,
        }
    }
}

impl Clone for EmployeeWork {
    fn clone(&self) -> (r: Self)
        ensures
            r == *self,
    {
        EmployeeWork {
            id: self.id,
            employee_id: self.employee_id,
            work_id: self.work_id,
            amount: self.amount,
            tip: self.tip,
        }
    }
}

} // verus!
