//! Pure row mappers: from a positional row of raw column values, ordered
//! exactly as the schema declares them, to a typed record.
//!
//! A mapper fails with a [`MappingError`] naming the first offending column:
//! the column is absent, or holds a value of the wrong type, a null where a
//! non-null value is required included. There is no defaulting.

use vstd::prelude::*;
use crate::records::Employee;
use crate::records::Work;
use crate::records::EmployeeWork;
use crate::records::MappingError;

verus! {

/// One raw column value, as the database hands it back. `Other` stands for
/// the storage classes outside this data model (reals, blobs); a mapper
/// treats it as a value of the wrong type.
pub enum ColumnValue {
    Null,
    Int(i64),
    Text(String),
    Other,
}

impl Clone for ColumnValue {
    fn clone(&self) -> (r: Self)
        ensures
            r == *self,
    {
        match self {
            ColumnValue::Null => ColumnValue::Null,
            ColumnValue::Int(v) => ColumnValue::Int(*v),
            ColumnValue::Text(s) => ColumnValue::Text(s.clone()),
            ColumnValue::Other => ColumnValue::Other,
        }
    }
}

/// What `map_to_employees` returns on a given row: the first column that is
/// absent or ill-typed decides the error; otherwise the typed record, with
/// the `is_active` column read as a boolean (zero is false, anything else
/// true) and the percentage columns required to fit in a `u8`.
pub open spec fn employee_row_spec(r: Seq<ColumnValue>) -> Result<Employee, MappingError> {
    if r.len() < 1 {
        Err(MappingError::MissingColumn(0))
    } else if !(r[0] is Int) {
        Err(MappingError::WrongType(0))
    } else if r.len() < 2 {
        Err(MappingError::MissingColumn(1))
    } else if !(r[1] is Text) {
        Err(MappingError::WrongType(1))
    } else if r.len() < 3 {
        Err(MappingError::MissingColumn(2))
    } else if !(r[2] is Text) {
        Err(MappingError::WrongType(2))
    } else if r.len() < 4 {
        Err(MappingError::MissingColumn(3))
    } else if !(r[3] is Text) {
        Err(MappingError::WrongType(3))
    } else if r.len() < 5 {
        Err(MappingError::MissingColumn(4))
    } else if !(r[4] is Text) {
        Err(MappingError::WrongType(4))
    } else if r.len() < 6 {
        Err(MappingError::MissingColumn(5))
    } else if !(r[5] is Int && 0 <= r[5]->Int_0 <= u8::MAX) {
        Err(MappingError::WrongType(5))
    } else if r.len() < 7 {
        Err(MappingError::MissingColumn(6))
    } else if !(r[6] is Int && 0 <= r[6]->Int_0 <= u8::MAX) {
        Err(MappingError::WrongType(6))
    } else if r.len() < 8 {
        Err(MappingError::MissingColumn(7))
    } else if !(r[7] is Int) {
        Err(MappingError::WrongType(7))
    } else {
        Ok(Employee {
            id: r[0]->Int_0,
            name: r[1]->Text_0,
            phone: r[2]->Text_0,
            address: r[3]->Text_0,
            ssn: r[4]->Text_0,
            work_percentage: r[5]->Int_0 as u8,
            cash_percentage: r[6]->Int_0 as u8,
            is_active: r[7]->Int_0 != 0,
        })
    }
}

/// What `map_to_work` returns on a given row: the three trailing amount
/// columns are optional, so a null there becomes `None`.
pub open spec fn work_row_spec(r: Seq<ColumnValue>) -> Result<Work, MappingError> {
    if r.len() < 1 {
        Err(MappingError::MissingColumn(0))
    } else if !(r[0] is Int) {
        Err(MappingError::WrongType(0))
    } else if r.len() < 2 {
        Err(MappingError::MissingColumn(1))
    } else if !(r[1] is Text) {
        Err(MappingError::WrongType(1))
    } else if r.len() < 3 {
        Err(MappingError::MissingColumn(2))
    } else if !(r[2] is Int) {
        Err(MappingError::WrongType(2))
    } else if r.len() < 4 {
        Err(MappingError::MissingColumn(3))
    } else if !(r[3] is Int || r[3] is Null) {
        Err(MappingError::WrongType(3))
    } else if r.len() < 5 {
        Err(MappingError::MissingColumn(4))
    } else if !(r[4] is Int || r[4] is Null) {
        Err(MappingError::WrongType(4))
    } else if r.len() < 6 {
        Err(MappingError::MissingColumn(5))
    } else if !(r[5] is Int || r[5] is Null) {
        Err(MappingError::WrongType(5))
    } else {
        Ok(Work {
            id: r[0]->Int_0,
            timestamp: r[1]->Text_0,
            total: r[2]->Int_0,
            tip: if r[3] is Int { Some(r[3]->Int_0) } else { None },
            discount: if r[4] is Int { Some(r[4]->Int_0) } else { None },
            charged: if r[5] is Int { Some(r[5]->Int_0) } else { None },
        })
    }
}

/// What `map_to_employee_work` returns on a given row: four required integer
/// columns and an optional tip share.
pub open spec fn employee_work_row_spec(r: Seq<ColumnValue>) -> Result<EmployeeWork, MappingError> {
    if r.len() < 1 {
        Err(MappingError::MissingColumn(0))
    } else if !(r[0] is Int) {
        Err(MappingError::WrongType(0))
    } else if r.len() < 2 {
        Err(MappingError::MissingColumn(1))
    } else if !(r[1] is Int) {
        Err(MappingError::WrongType(1))
    } else if r.len() < 3 {
        Err(MappingError::MissingColumn(2))
    } else if !(r[2] is Int) {
        Err(MappingError::WrongType(2))
    } else if r.len() < 4 {
        Err(MappingError::MissingColumn(3))
    } else if !(r[3] is Int) {
        Err(MappingError::WrongType(3))
    } else if r.len() < 5 {
        Err(MappingError::MissingColumn(4))
    } else if !(r[4] is Int || r[4] is Null) {
        Err(MappingError::WrongType(4))
    } else {
        Ok(EmployeeWork {
            id: r[0]->Int_0,
            employee_id: r[1]->Int_0,
            work_id: r[2]->Int_0,
            amount: r[3]->Int_0,
            tip: if r[4] is Int { Some(r[4]->Int_0) } else { None },
        })
    }
}

/// Read the required integer at column `k`.
fn col_int(row: &Vec<ColumnValue>, k: usize) -> (r: Result<i64, MappingError>)
    ensures
        k >= row@.len() ==> r == Err::<i64, MappingError>(MappingError::MissingColumn(k)),
        k < row@.len() && !(row@[k as int] is Int) ==> r == Err::<i64, MappingError>(
            MappingError::WrongType(k),
        ),
        k < row@.len() && row@[k as int] is Int ==> r == Ok::<i64, MappingError>(
            row@[k as int]->Int_0,
        ),
{
    if k >= row.len() {
        Err(MappingError::MissingColumn(k))
    } else {
        match &row[k] {
            ColumnValue::Int(v) => Ok(*v),
            _ => Err(MappingError::WrongType(k)),
        }
    }
}

/// Read the required text at column `k`.
fn col_text(row: &Vec<ColumnValue>, k: usize) -> (r: Result<String, MappingError>)
    ensures
        k >= row@.len() ==> r == Err::<String, MappingError>(MappingError::MissingColumn(k)),
        k < row@.len() && !(row@[k as int] is Text) ==> r == Err::<String, MappingError>(
            MappingError::WrongType(k),
        ),
        k < row@.len() && row@[k as int] is Text ==> r == Ok::<String, MappingError>(
            row@[k as int]->Text_0,
        ),
{
    if k >= row.len() {
        Err(MappingError::MissingColumn(k))
    } else {
        match &row[k] {
            ColumnValue::Text(s) => Ok(s.clone()),
            _ => Err(MappingError::WrongType(k)),
        }
    }
}

/// Read the optional integer at column `k`: a null becomes `None`.
fn col_opt_int(row: &Vec<ColumnValue>, k: usize) -> (r: Result<Option<i64>, MappingError>)
    ensures
        k >= row@.len() ==> r == Err::<Option<i64>, MappingError>(MappingError::MissingColumn(k)),
        k < row@.len() && !(row@[k as int] is Int || row@[k as int] is Null) ==> r == Err::<
            Option<i64>,
            MappingError,
        >(MappingError::WrongType(k)),
        k < row@.len() && row@[k as int] is Int ==> r == Ok::<Option<i64>, MappingError>(
            Some(row@[k as int]->Int_0),
        ),
        k < row@.len() && row@[k as int] is Null ==> r == Ok::<Option<i64>, MappingError>(None),
{
    if k >= row.len() {
        Err(MappingError::MissingColumn(k))
    } else {
        match &row[k] {
            ColumnValue::Int(v) => Ok(Some(*v)),
            ColumnValue::Null => Ok(None),
            _ => Err(MappingError::WrongType(k)),
        }
    }
}

/// Read the integer at column `k`, required to fit in a `u8`.
fn col_u8(row: &Vec<ColumnValue>, k: usize) -> (r: Result<u8, MappingError>)
    ensures
        k >= row@.len() ==> r == Err::<u8, MappingError>(MappingError::MissingColumn(k)),
        k < row@.len() && !(row@[k as int] is Int && 0 <= row@[k as int]->Int_0 <= u8::MAX) ==> r
            == Err::<u8, MappingError>(MappingError::WrongType(k)),
        k < row@.len() && row@[k as int] is Int && 0 <= row@[k as int]->Int_0 <= u8::MAX ==> r
            == Ok::<u8, MappingError>(row@[k as int]->Int_0 as u8),
{
    if k >= row.len() {
        Err(MappingError::MissingColumn(k))
    } else {
        match &row[k] {
            ColumnValue::Int(v) => {
                if 0 <= *v && *v <= 255 {
                    Ok(*v as u8)
                } else {
                    Err(MappingError::WrongType(k))
                }
            },
            _ => Err(MappingError::WrongType(k)),
        }
    }
}

/// Convert one raw `employees` row to its typed record.
pub fn map_to_employees(row: &Vec<ColumnValue>) -> (r: Result<Employee, MappingError>)
    ensures
        r == employee_row_spec(row@),
{
    let id = match col_int(row, 0) {
        Ok(v) => v,
        Err(e) => { return Err(e); },
    };
    let name = match col_text(row, 1) {
        Ok(v) => v,
        Err(e) => { return Err(e); },
    };
    let phone = match col_text(row, 2) {
        Ok(v) => v,
        Err(e) => { return Err(e); },
    };
    let address = match col_text(row, 3) {
        Ok(v) => v,
        Err(e) => { return Err(e); },
    };
    let ssn = match col_text(row, 4) {
        Ok(v) => v,
        Err(e) => { return Err(e); },
    };
    let work_percentage = match col_u8(row, 5) {
        Ok(v) => v,
        Err(e) => { return Err(e); },
    };
    let cash_percentage = match col_u8(row, 6) {
        Ok(v) => v,
        Err(e) => { return Err(e); },
    };
    let is_active_raw = match col_int(row, 7) {
        Ok(v) => v,
        Err(e) => { return Err(e); },
    };
    Ok(Employee {
        id,
        name,
        phone,
        address,
        ssn,
        work_percentage,
        cash_percentage,
        is_active: is_active_raw != 0,
    })
}

/// Convert one raw `work` row to its typed record.
pub fn map_to_work(row: &Vec<ColumnValue>) -> (r: Result<Work, MappingError>)
    ensures
        r == work_row_spec(row@),
{
    let id = match col_int(row, 0) {
        Ok(v) => v,
        Err(e) => { return Err(e); },
    };
    let timestamp = match col_text(row, 1) {
        Ok(v) => v,
        Err(e) => { return Err(e); },
    };
    let total = match col_int(row, 2) {
        Ok(v) => v,
        Err(e) => { return Err(e); },
    };
    let tip = match col_opt_int(row, 3) {
        Ok(v) => v,
        Err(e) => { return Err(e); },
    };
    let discount = match col_opt_int(row, 4) {
        Ok(v) => v,
        Err(e) => { return Err(e); },
    };
    let charged = match col_opt_int(row, 5) {
        Ok(v) => v,
        Err(e) => { return Err(e); },
    };
    Ok(Work { id, timestamp, total, tip, discount, charged })
}

/// Convert one raw `employee_work` row to its typed record.
pub fn map_to_employee_work(row: &Vec<ColumnValue>) -> (r: Result<EmployeeWork, MappingError>)
    ensures
        r == employee_work_row_spec(row@),
{
    let id = match col_int(row, 0) {
        Ok(v) => v,
        Err(e) => { return Err(e); },
    };
    let employee_id = match col_int(row, 1) {
        Ok(v) => v,
        Err(e) => { return Err(e); },
    };
    let work_id = match col_int(row, 2) {
        Ok(v) => v,
        Err(e) => { return Err(e); },
    };
    let amount = match col_int(row, 3) {
        Ok(v) => v,
        Err(e) => { return Err(e); },
    };
    let tip = match col_opt_int(row, 4) {
        Ok(v) => v,
        Err(e) => { return Err(e); },
    };
    Ok(EmployeeWork { id, employee_id, work_id, amount, tip })
}


// ---------------------------------------------------------------------------
// Mapping whole result sets
// ---------------------------------------------------------------------------

/// What mapping a whole employee result set yields: the typed records in row
/// order, or the error of the first row that fails to map.
pub open spec fn employees_rows_spec(rs: Seq<Vec<ColumnValue>>) -> Result<Seq<Employee>, MappingError>
    decreases rs.len(),
{
    if rs.len() == 0 {
        Ok(Seq::<Employee>::empty())
    } else {
        match employees_rows_spec(rs.drop_last()) {
            Err(e) => Err(e),
            Ok(s) => match employee_row_spec(rs.last()@) {
                Err(e) => Err(e),
                Ok(emp) => Ok(s.push(emp)),
            },
        }
    }
}

pub open spec fn work_rows_spec(rs: Seq<Vec<ColumnValue>>) -> Result<Seq<Work>, MappingError>
    decreases rs.len(),
{
    if rs.len() == 0 {
        Ok(Seq::<Work>::empty())
    } else {
        match work_rows_spec(rs.drop_last()) {
            Err(e) => Err(e),
            Ok(s) => match work_row_spec(rs.last()@) {
                Err(e) => Err(e),
                Ok(w) => Ok(s.push(w)),
            },
        }
    }
}

pub open spec fn employee_work_rows_spec(rs: Seq<Vec<ColumnValue>>) -> Result<
    Seq<EmployeeWork>,
    MappingError,
>
    decreases rs.len(),
{
    if rs.len() == 0 {
        Ok(Seq::<EmployeeWork>::empty())
    } else {
        match employee_work_rows_spec(rs.drop_last()) {
            Err(e) => Err(e),
            Ok(s) => match employee_work_row_spec(rs.last()@) {
                Err(e) => Err(e),
                Ok(d) => Ok(s.push(d)),
            },
        }
    }
}

/// Once a prefix fails to map, the whole result set fails with that error.
proof fn lemma_employees_rows_err(rs: Seq<Vec<ColumnValue>>, k: int)
    requires
        0 <= k <= rs.len(),
        employees_rows_spec(rs.take(k)) is Err,
    ensures
        employees_rows_spec(rs) == employees_rows_spec(rs.take(k)),
    decreases rs.len() - k,
{
    if k == rs.len() {
        assert(rs.take(k) =~= rs);
    } else {
        assert(rs.take(k + 1).drop_last() =~= rs.take(k));
        lemma_employees_rows_err(rs, k + 1);
    }
}

proof fn lemma_work_rows_err(rs: Seq<Vec<ColumnValue>>, k: int)
    requires
        0 <= k <= rs.len(),
        work_rows_spec(rs.take(k)) is Err,
    ensures
        work_rows_spec(rs) == work_rows_spec(rs.take(k)),
    decreases rs.len() - k,
{
    if k == rs.len() {
        assert(rs.take(k) =~= rs);
    } else {
        assert(rs.take(k + 1).drop_last() =~= rs.take(k));
        lemma_work_rows_err(rs, k + 1);
    }
}

proof fn lemma_employee_work_rows_err(rs: Seq<Vec<ColumnValue>>, k: int)
    requires
        0 <= k <= rs.len(),
        employee_work_rows_spec(rs.take(k)) is Err,
    ensures
        employee_work_rows_spec(rs) == employee_work_rows_spec(rs.take(k)),
    decreases rs.len() - k,
{
    if k == rs.len() {
        assert(rs.take(k) =~= rs);
    } else {
        assert(rs.take(k + 1).drop_last() =~= rs.take(k));
        lemma_employee_work_rows_err(rs, k + 1);
    }
}

/// Map a whole employee result set, stopping at the first row that fails.
pub fn map_employee_rows(rows: &Vec<Vec<ColumnValue>>) -> (r: Result<Vec<Employee>, MappingError>)
    ensures
        (r matches Ok(v) ==> employees_rows_spec(rows@) == Ok::<Seq<Employee>, MappingError>(v@)),
        (r matches Err(e) ==> employees_rows_spec(rows@) == Err::<Seq<Employee>, MappingError>(e)),
{
    let mut out: Vec<Employee> = Vec::new();
    let mut i: usize = 0;
    proof {
        assert(rows@.take(0) =~= Seq::<Vec<ColumnValue>>::empty());
    }
    while i < rows.len()
        invariant
            i <= rows@.len(),
            employees_rows_spec(rows@.take(i as int)) == Ok::<Seq<Employee>, MappingError>(out@),
        decreases rows@.len() - i,
    {
        proof {
            assert(rows@.take(i as int + 1).drop_last() =~= rows@.take(i as int));
            assert(rows@.take(i as int + 1).last() == rows@[i as int]);
        }
        match map_to_employees(&rows[i]) {
            Ok(e) => {
                out.push(e);
            },
            Err(e) => {
                proof {
                    lemma_employees_rows_err(rows@, i as int + 1);
                }
                return Err(e);
            },
        }
        i = i + 1;
    }
    proof {
        assert(rows@.take(rows@.len() as int) =~= rows@);
    }
    Ok(out)
}

/// Map a whole work result set, stopping at the first row that fails.
pub fn map_work_rows(rows: &Vec<Vec<ColumnValue>>) -> (r: Result<Vec<Work>, MappingError>)
    ensures
        (r matches Ok(v) ==> work_rows_spec(rows@) == Ok::<Seq<Work>, MappingError>(v@)),
        (r matches Err(e) ==> work_rows_spec(rows@) == Err::<Seq<Work>, MappingError>(e)),
{
    let mut out: Vec<Work> = Vec::new();
    let mut i: usize = 0;
    proof {
        assert(rows@.take(0) =~= Seq::<Vec<ColumnValue>>::empty());
    }
    while i < rows.len()
        invariant
            i <= rows@.len(),
            work_rows_spec(rows@.take(i as int)) == Ok::<Seq<Work>, MappingError>(out@),
        decreases rows@.len() - i,
    {
        proof {
            assert(rows@.take(i as int + 1).drop_last() =~= rows@.take(i as int));
            assert(rows@.take(i as int + 1).last() == rows@[i as int]);
        }
        match map_to_work(&rows[i]) {
            Ok(w) => {
                out.push(w);
            },
            Err(e) => {
                proof {
                    lemma_work_rows_err(rows@, i as int + 1);
                }
                return Err(e);
            },
        }
        i = i + 1;
    }
    proof {
        assert(rows@.take(rows@.len() as int) =~= rows@);
    }
    Ok(out)
}

/// Map a whole employee-work result set, stopping at the first row that fails.
pub fn map_employee_work_rows(rows: &Vec<Vec<ColumnValue>>) -> (r: Result<
    Vec<EmployeeWork>,
    MappingError,
>)
    ensures
        (r matches Ok(v) ==> employee_work_rows_spec(rows@) == Ok::<
            Seq<EmployeeWork>,
            MappingError,
        >(v@)),
        (r matches Err(e) ==> employee_work_rows_spec(rows@) == Err::<
            Seq<EmployeeWork>,
            MappingError,
        >(e)),
{
    let mut out: Vec<EmployeeWork> = Vec::new();
    let mut i: usize = 0;
    proof {
        assert(rows@.take(0) =~= Seq::<Vec<ColumnValue>>::empty());
    }
    while i < rows.len()
        invariant
            i <= rows@.len(),
            employee_work_rows_spec(rows@.take(i as int)) == Ok::<
                Seq<EmployeeWork>,
                MappingError,
            >(out@),
        decreases rows@.len() - i,
    {
        proof {
            assert(rows@.take(i as int + 1).drop_last() =~= rows@.take(i as int));
            assert(rows@.take(i as int + 1).last() == rows@[i as int]);
        }
        match map_to_employee_work(&rows[i]) {
            Ok(d) => {
                out.push(d);
            },
            Err(e) => {
                proof {
                    lemma_employee_work_rows_err(rows@, i as int + 1);
                }
                return Err(e);
            },
        }
        i = i + 1;
    }
    proof {
        assert(rows@.take(rows@.len() as int) =~= rows@);
    }
    Ok(out)
}

} // verus!
