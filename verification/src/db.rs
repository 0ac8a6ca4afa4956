//! The SQLite-backed data-access layer.
//!
//! Everything that decides or converts here is verified: which statement runs
//! for which table, how parameters are encoded, how raw rows become typed
//! records, when Not-Found is returned, and how results are filtered. Only
//! the driver calls themselves stand behind trusted wrappers, each a single
//! `rusqlite` call; nothing is promised of what the database holds, so every
//! contract states what holds of the returned values whatever came back.

use vstd::prelude::*;
use crate::records::Employee;
use crate::records::NewEmployee;
use crate::records::Work;
use crate::records::NewWork;
use crate::records::EmployeeWork;
use crate::records::NewEmployeeWork;
use crate::records::Table;
use crate::records::StoreError;
use crate::rows::ColumnValue;
use crate::rows::map_employee_rows;
use crate::rows::map_work_rows;
use crate::rows::map_employee_work_rows;
use crate::store::in_range;
use crate::store::range_filter;
use crate::store::details_filter;
use crate::store::filter_work_by_range;
use crate::store::filter_details_by_ids;
use crate::store::lemma_time_range_exact;
use crate::store::lemma_details_exact;

verus! {

#[verifier::external_type_specification]
#[verifier::external_body]
pub struct ExConnection(rusqlite::Connection);

#[verifier::external_type_specification]
#[verifier::external_body]
pub struct ExStatement<'conn>(rusqlite::Statement<'conn>);

#[verifier::external_type_specification]
#[verifier::external_body]
pub struct ExRow<'stmt>(rusqlite::Row<'stmt>);

#[verifier::external_type_specification]
#[verifier::external_body]
pub struct ExValue(rusqlite::types::Value);

/// Relies on rusqlite's `Connection::open`: opens (creating it if absent)
/// the database file at `path`.
#[verifier::external_body]
fn open_connection(path: &str) -> Result<rusqlite::Connection, String> {
    rusqlite::Connection::open(path).map_err(|e| format!("{e}"))
}

/// Relies on rusqlite's `Connection::open_in_memory`: opens a fresh, private
/// in-memory database.
#[verifier::external_body]
fn open_memory_connection() -> Result<rusqlite::Connection, String> {
    rusqlite::Connection::open_in_memory().map_err(|e| format!("{e}"))
}

/// Relies on rusqlite's `Value` constructors: the driver value carrying the
/// given plain column value (`Other` never occurs among parameters and is
/// sent as a null).
#[verifier::external_body]
fn value_of(c: &ColumnValue) -> rusqlite::types::Value {
    match c {
        ColumnValue::Null => rusqlite::types::Value::Null,
        ColumnValue::Int(v) => rusqlite::types::Value::Integer(*v),
        ColumnValue::Text(s) => rusqlite::types::Value::Text(s.clone()),
        ColumnValue::Other => rusqlite::types::Value::Null,
    }
}

/// Relies on rusqlite's `Connection::execute`: runs one SQL statement with
/// the given parameter values and reports how many rows changed.
#[verifier::external_body]
fn exec_sql(
    conn: &rusqlite::Connection,
    sql: &str,
    vals: &Vec<rusqlite::types::Value>,
) -> Result<usize, String> {
    conn.execute(sql, rusqlite::params_from_iter(vals.iter())).map_err(|e| format!("{e}"))
}

/// Relies on rusqlite's `Connection::prepare`: compiles one SQL statement.
#[verifier::external_body]
fn prepare_stmt<'c>(conn: &'c rusqlite::Connection, sql: &str) -> Result<
    rusqlite::Statement<'c>,
    String,
> {
    conn.prepare(sql).map_err(|e| format!("{e}"))
}

/// Relies on rusqlite's `Row::get`: each column of one result row, read as a
/// plain value.
#[verifier::external_body]
fn read_row(row: &rusqlite::Row<'_>) -> Vec<ColumnValue> {
    let n = row.as_ref().column_count();
    let mut out: Vec<ColumnValue> = Vec::new();
    for i in 0..n {
        out.push(match row.get::<usize, rusqlite::types::Value>(i) {
            Ok(rusqlite::types::Value::Null) => ColumnValue::Null,
            Ok(rusqlite::types::Value::Integer(v)) => ColumnValue::Int(v),
            Ok(rusqlite::types::Value::Text(s)) => ColumnValue::Text(s),
            _ => ColumnValue::Other,
        });
    }
    out
}

/// Relies on rusqlite's `Statement::query` and `Rows::next`: runs the
/// prepared statement with the given parameter values and hands back every
/// result row.
#[verifier::external_body]
fn query_all(
    st: &mut rusqlite::Statement<'_>,
    vals: &Vec<rusqlite::types::Value>,
) -> Result<Vec<Vec<ColumnValue>>, String> {
    let mut rows = match st.query(rusqlite::params_from_iter(vals.iter())) {
        Ok(r) => r,
        Err(e) => return Err(format!("{e}")),
    };
    let mut out: Vec<Vec<ColumnValue>> = Vec::new();
    loop {
        match rows.next() {
            Err(e) => return Err(format!("{e}")),
            Ok(None) => return Ok(out),
            Ok(Some(row)) => out.push(read_row(row)),
        }
    }
}

/// Relies on rusqlite's `Connection::last_insert_rowid`: the rowid the
/// driver assigned to the most recent successful insert on this connection.
#[verifier::external_body]
fn last_rowid(conn: &rusqlite::Connection) -> i64 {
    conn.last_insert_rowid()
}

/// Convert plain parameter values to driver values, in order: one driver
/// value per parameter, so the statement's placeholder count is matched.
fn values_of(params: &Vec<ColumnValue>) -> (out: Vec<rusqlite::types::Value>)
    ensures
        out@.len() == params@.len(),
{
    let mut out: Vec<rusqlite::types::Value> = Vec::new();
    let mut i: usize = 0;
    while i < params.len()
        invariant
            i <= params@.len(),
            out@.len() == i as int,
        decreases params@.len() - i,
    {
        out.push(value_of(&params[i]));
        i = i + 1;
    }
    out
}

/// Run a query and hand back its raw rows.
fn fetch_rows(conn: &rusqlite::Connection, sql: &str, params: &Vec<ColumnValue>) -> Result<
    Vec<Vec<ColumnValue>>,
    String,
> {
    let vals = values_of(params);
    let mut st = match prepare_stmt(conn, sql) {
        Ok(s) => s,
        Err(e) => {
            return Err(e);
        },
    };
    query_all(&mut st, &vals)
}

/// A fetched count result has the expected shape: exactly one row holding
/// exactly one integer column.
pub open spec fn count_shape_ok(rows: Seq<Vec<ColumnValue>>) -> bool {
    rows.len() == 1 && rows[0]@.len() == 1 && rows[0]@[0] is Int
}

/// Interpret the result set of a count query: a well-shaped result `[[c]]`
/// answers whether the count `c` is positive, and any other shape is a
/// driver error.
pub fn interpret_count_rows(rows: &Vec<Vec<ColumnValue>>) -> (r: Result<bool, StoreError>)
    ensures
        r is Ok <==> count_shape_ok(rows@),
        r matches Ok(b) ==> b == (rows@[0]@[0]->Int_0 > 0),
        r matches Err(e) ==> e is Driver,
{
    if rows.len() != 1 {
        return Err(StoreError::Driver("count query returned no row".to_owned()));
    }
    let row = &rows[0];
    if row.len() != 1 {
        return Err(StoreError::Driver("count query returned no column".to_owned()));
    }
    match &row[0] {
        ColumnValue::Int(c) => Ok(*c > 0),
        _ => Err(StoreError::Driver("count query returned a non-integer".to_owned())),
    }
}

/// A connection to the database file holding the three tables.
pub struct Db {
    conn: rusqlite::Connection,
}

impl Db {
    /// Open the database at the given file path.
    pub fn open(path: &str) -> (r: Result<Db, StoreError>)
        ensures
            r matches Err(e) ==> e is Driver,
    {
        match open_connection(path) {
            Ok(c) => Ok(Db { conn: c }),
            Err(e) => Err(StoreError::Driver(e)),
        }
    }

    /// Open a fresh, private in-memory database.
    pub fn open_in_memory() -> (r: Result<Db, StoreError>)
        ensures
            r matches Err(e) ==> e is Driver,
    {
        match open_memory_connection() {
            Ok(c) => Ok(Db { conn: c }),
            Err(e) => Err(StoreError::Driver(e)),
        }
    }

    /// Create the three tables if absent. Each creation is conditional, so
    /// repeated calls succeed without altering existing data; a driver
    /// failure surfaces as a schema error naming the failed statement.
    pub fn database_init(&mut self) -> (r: Result<(), StoreError>)
        ensures
            r matches Err(e) ==> e is Schema,
    {
        let no_params: Vec<ColumnValue> = Vec::new();
        match exec_sql(
            &self.conn,
            "create table if not exists employees (id integer primary key, name text not null, phone text not null, address text, ssn text, work_percentage integer, cash_percentage integer, is_active boolean not null)",
            &values_of(&no_params),
        ) {
            Err(e) => {
                return Err(StoreError::Schema(e));
            },
            Ok(_) => {},
        }
        match exec_sql(
            &self.conn,
            "create table if not exists work (id integer primary key, timestamp text not null, total integer not null, tip integer, discount integer, charged integer)",
            &values_of(&no_params),
        ) {
            Err(e) => {
                return Err(StoreError::Schema(e));
            },
            Ok(_) => {},
        }
        match exec_sql(
            &self.conn,
            "create table if not exists employee_work (id integer primary key, employee_id integer references employees(id), work_id integer references work(id), amount integer not null, tip integer)",
            &values_of(&no_params),
        ) {
            Err(e) => {
                return Err(StoreError::Schema(e));
            },
            Ok(_) => {},
        }
        Ok(())
    }

    /// Drop the three tables, in order, stopping at the first failure; a
    /// second format in a row fails, and tables already dropped stay dropped.
    pub fn database_format(&mut self) -> (r: Result<(), StoreError>)
        ensures
            r matches Err(e) ==> e is Schema,
    {
        let no_params: Vec<ColumnValue> = Vec::new();
        let vals = values_of(&no_params);
        match exec_sql(&self.conn, "drop table employees", &vals) {
            Err(e) => {
                return Err(StoreError::Schema(e));
            },
            Ok(_) => {},
        }
        match exec_sql(&self.conn, "drop table work", &vals) {
            Err(e) => {
                return Err(StoreError::Schema(e));
            },
            Ok(_) => {},
        }
        match exec_sql(&self.conn, "drop table employee_work", &vals) {
            Err(e) => {
                return Err(StoreError::Schema(e));
            },
            Ok(_) => {},
        }
        Ok(())
    }

    /// Whether a row with the given id exists in the given table: the
    /// interpretation of the fetched count, as `interpret_count_rows` pins
    /// it. The table name is selected from the fixed enumeration and the id
    /// is bound as a parameter; no caller-supplied text ever reaches the SQL.
    pub fn check_table_row_exist(&self, table: Table, row_id: i64) -> (r: Result<bool, StoreError>)
        ensures
            r matches Err(e) ==> e is Driver,
    {
        let sql: &str = match table {
            Table::Employees => "SELECT COUNT(*) FROM employees WHERE id = ?1",
            Table::Work => "SELECT COUNT(*) FROM work WHERE id = ?1",
            Table::EmployeeWork => "SELECT COUNT(*) FROM employee_work WHERE id = ?1",
        };
        let mut params: Vec<ColumnValue> = Vec::new();
        params.push(ColumnValue::Int(row_id));
        let rows = match fetch_rows(&self.conn, sql, &params) {
            Ok(rs) => rs,
            Err(e) => {
                return Err(StoreError::Driver(e));
            },
        };
        interpret_count_rows(&rows)
    }

    /// All employee rows, inactive ones included, in storage order.
    pub fn get_all_employees(&self) -> (r: Result<Vec<Employee>, StoreError>)
        ensures
            r matches Err(e) ==> e is Driver || e is Mapping,
    {
        let no_params: Vec<ColumnValue> = Vec::new();
        let rows = match fetch_rows(
            &self.conn,
            "SELECT id, name, phone, address, ssn, work_percentage, cash_percentage, is_active FROM employees",
            &no_params,
        ) {
            Ok(rs) => rs,
            Err(e) => {
                return Err(StoreError::Driver(e));
            },
        };
        match map_employee_rows(&rows) {
            Ok(v) => Ok(v),
            Err(e) => Err(StoreError::Mapping(e)),
        }
    }

    /// Insert a new employee row; on success the returned representation
    /// carries the payload's fields under the id the database assigned.
    pub fn post_new_employee(&mut self, p: &NewEmployee) -> (r: Result<Employee, StoreError>)
        ensures
            (r matches Ok(e) ==> e.name == p.name && e.phone == p.phone && e.address == p.address
                && e.ssn == p.ssn && e.work_percentage == p.work_percentage && e.cash_percentage
                == p.cash_percentage && e.is_active == p.is_active),
            (r matches Err(e) ==> e is Driver),
    {
        let mut params: Vec<ColumnValue> = Vec::new();
        params.push(ColumnValue::Text(p.name.clone()));
        params.push(ColumnValue::Text(p.phone.clone()));
        params.push(ColumnValue::Text(p.address.clone()));
        params.push(ColumnValue::Text(p.ssn.clone()));
        params.push(ColumnValue::Int(p.work_percentage as i64));
        params.push(ColumnValue::Int(p.cash_percentage as i64));
        params.push(ColumnValue::Int(if p.is_active { 1i64 } else { 0i64 }));
        let vals = values_of(&params);
        match exec_sql(
            &self.conn,
            "INSERT INTO employees (name, phone, address, ssn, work_percentage, cash_percentage, is_active) VALUES (?1, ?2, ?3, ?4, ?5, ?6, ?7)",
            &vals,
        ) {
            Err(e) => Err(StoreError::Driver(e)),
            Ok(_) => {
                let id = last_rowid(&self.conn);
                Ok(
                    Employee {
                        id,
                        name: p.name.clone(),
                        phone: p.phone.clone(),
                        address: p.address.clone(),
                        ssn: p.ssn.clone(),
                        work_percentage: p.work_percentage,
                        cash_percentage: p.cash_percentage,
                        is_active: p.is_active,
                    },
                )
            },
        }
    }

    /// Update the employee row whose id the payload names, after checking it
    /// exists: a missing id is Not-Found and nothing is written; on success
    /// the updated representation equals the payload.
    pub fn put_update_employee(&mut self, e: &Employee) -> (r: Result<Employee, StoreError>)
        ensures
            (r matches Ok(u) ==> u == *e),
            (r matches Err(err) ==> err is NotFound || err is Driver),
    {
        let exists = match self.check_table_row_exist(Table::Employees, e.id) {
            Ok(b) => b,
            Err(err) => {
                return Err(err);
            },
        };
        if !exists {
            return Err(StoreError::NotFound);
        }
        let mut params: Vec<ColumnValue> = Vec::new();
        params.push(ColumnValue::Text(e.name.clone()));
        params.push(ColumnValue::Text(e.phone.clone()));
        params.push(ColumnValue::Text(e.address.clone()));
        params.push(ColumnValue::Text(e.ssn.clone()));
        params.push(ColumnValue::Int(e.work_percentage as i64));
        params.push(ColumnValue::Int(e.cash_percentage as i64));
        params.push(ColumnValue::Int(if e.is_active { 1i64 } else { 0i64 }));
        params.push(ColumnValue::Int(e.id));
        let vals = values_of(&params);
        match exec_sql(
            &self.conn,
            "UPDATE employees SET name = ?1, phone = ?2, address = ?3, ssn = ?4, work_percentage = ?5, cash_percentage = ?6, is_active = ?7 WHERE id = ?8",
            &vals,
        ) {
            Err(err) => Err(StoreError::Driver(err)),
            Ok(_) => Ok(e.clone()),
        }
    }

    /// Delete the employee row with the given id. Deleting succeeds even
    /// when no row has the id; a driver failure is surfaced verbatim, and
    /// the HTTP layer reports it with a Not-Found status, as the lookup
    /// error of a missing target.
    pub fn delete_employee(&mut self, id: i64) -> (r: Result<(), StoreError>)
        ensures
            r matches Err(e) ==> e is Driver,
    {
        let mut params: Vec<ColumnValue> = Vec::new();
        params.push(ColumnValue::Int(id));
        let vals = values_of(&params);
        match exec_sql(&self.conn, "DELETE FROM employees WHERE id = ?1", &vals) {
            Err(e) => Err(StoreError::Driver(e)),
            Ok(_) => Ok(()),
        }
    }

    /// All work rows, in storage order, through the work row mapper.
    pub fn get_all_works(&self) -> (r: Result<Vec<Work>, StoreError>)
        ensures
            r matches Err(e) ==> e is Driver || e is Mapping,
    {
        let no_params: Vec<ColumnValue> = Vec::new();
        let rows = match fetch_rows(
            &self.conn,
            "SELECT id, timestamp, total, tip, discount, charged FROM work",
            &no_params,
        ) {
            Ok(rs) => rs,
            Err(e) => {
                return Err(StoreError::Driver(e));
            },
        };
        match map_work_rows(&rows) {
            Ok(v) => Ok(v),
            Err(e) => Err(StoreError::Mapping(e)),
        }
    }

    /// Insert a new work row; on success the returned representation carries
    /// the payload's fields under the id the database assigned.
    pub fn post_new_work(&mut self, p: &NewWork) -> (r: Result<Work, StoreError>)
        ensures
            (r matches Ok(w) ==> w.timestamp == p.timestamp && w.total == p.total && w.tip == p.tip
                && w.discount == p.discount && w.charged == p.charged),
            (r matches Err(e) ==> e is Driver),
    {
        let mut params: Vec<ColumnValue> = Vec::new();
        params.push(ColumnValue::Text(p.timestamp.clone()));
        params.push(ColumnValue::Int(p.total));
        params.push(
            match p.tip {
                Some(t) => ColumnValue::Int(t),
                None => ColumnValue::Null,
            },
        );
        params.push(
            match p.discount {
                Some(d) => ColumnValue::Int(d),
                None => ColumnValue::Null,
            },
        );
        params.push(
            match p.charged {
                Some(c) => ColumnValue::Int(c),
                None => ColumnValue::Null,
            },
        );
        let vals = values_of(&params);
        match exec_sql(
            &self.conn,
            "INSERT INTO work (timestamp, total, tip, discount, charged) VALUES (?1, ?2, ?3, ?4, ?5)",
            &vals,
        ) {
            Err(e) => Err(StoreError::Driver(e)),
            Ok(_) => {
                let id = last_rowid(&self.conn);
                Ok(
                    Work {
                        id,
                        timestamp: p.timestamp.clone(),
                        total: p.total,
                        tip: p.tip,
                        discount: p.discount,
                        charged: p.charged,
                    },
                )
            },
        }
    }

    /// Insert a new employee-work row; on success the returned
    /// representation carries the payload's fields under the assigned id.
    pub fn post_new_employee_work(&mut self, p: &NewEmployeeWork) -> (r: Result<
        EmployeeWork,
        StoreError,
    >)
        ensures
            (r matches Ok(d) ==> d.employee_id == p.employee_id && d.work_id == p.work_id
                && d.amount == p.amount && d.tip == p.tip),
            (r matches Err(e) ==> e is Driver),
    {
        let mut params: Vec<ColumnValue> = Vec::new();
        params.push(ColumnValue::Int(p.employee_id));
        params.push(ColumnValue::Int(p.work_id));
        params.push(ColumnValue::Int(p.amount));
        params.push(
            match p.tip {
                Some(t) => ColumnValue::Int(t),
                None => ColumnValue::Null,
            },
        );
        let vals = values_of(&params);
        match exec_sql(
            &self.conn,
            "INSERT INTO employee_work (employee_id, work_id, amount, tip) VALUES (?1, ?2, ?3, ?4)",
            &vals,
        ) {
            Err(e) => Err(StoreError::Driver(e)),
            Ok(_) => {
                let id = last_rowid(&self.conn);
                Ok(
                    EmployeeWork {
                        id,
                        employee_id: p.employee_id,
                        work_id: p.work_id,
                        amount: p.amount,
                        tip: p.tip,
                    },
                )
            },
        }
    }

    /// The work rows whose timestamp lies lexically between `date_from` and
    /// `date_to`, both inclusive: whatever the storage engine returned, the
    /// result is filtered here, so every returned row's timestamp is in the
    /// range.
    pub fn get_work_time_range(&self, date_from: &str, date_to: &str) -> (r: Result<
        Vec<Work>,
        StoreError,
    >)
        ensures
            (r matches Ok(v) ==> forall|k: int|
                0 <= k < v@.len() ==> in_range((#[trigger] v@[k]).timestamp@, date_from@, date_to@)),
            (r matches Err(e) ==> e is Driver || e is Mapping),
    {
        let mut params: Vec<ColumnValue> = Vec::new();
        params.push(ColumnValue::Text(date_from.to_owned()));
        params.push(ColumnValue::Text(date_to.to_owned()));
        let rows = match fetch_rows(
            &self.conn,
            "SELECT id, timestamp, total, tip, discount, charged FROM work WHERE timestamp BETWEEN ?1 AND ?2",
            &params,
        ) {
            Ok(rs) => rs,
            Err(e) => {
                return Err(StoreError::Driver(e));
            },
        };
        let ws = match map_work_rows(&rows) {
            Ok(v) => v,
            Err(e) => {
                return Err(StoreError::Mapping(e));
            },
        };
        let out = filter_work_by_range(&ws, date_from, date_to);
        proof {
            lemma_time_range_exact(ws@, date_from@, date_to@);
            assert(out@ == range_filter(ws@, date_from@, date_to@));
        }
        Ok(out)
    }

    /// The employee-work rows whose work id is among the given ids: the
    /// membership test is done here over the fetched rows, so every returned
    /// row's work id occurs in `work_ids`.
    pub fn get_detail_from_work_ids(&self, work_ids: &Vec<i64>) -> (r: Result<
        Vec<EmployeeWork>,
        StoreError,
    >)
        ensures
            (r matches Ok(v) ==> forall|k: int|
                0 <= k < v@.len() ==> work_ids@.contains((#[trigger] v@[k]).work_id)),
            (r matches Err(e) ==> e is Driver || e is Mapping),
    {
        let no_params: Vec<ColumnValue> = Vec::new();
        let rows = match fetch_rows(
            &self.conn,
            "SELECT id, employee_id, work_id, amount, tip FROM employee_work",
            &no_params,
        ) {
            Ok(rs) => rs,
            Err(e) => {
                return Err(StoreError::Driver(e));
            },
        };
        let ds = match map_employee_work_rows(&rows) {
            Ok(v) => v,
            Err(e) => {
                return Err(StoreError::Mapping(e));
            },
        };
        let out = filter_details_by_ids(&ds, work_ids);
        proof {
            lemma_details_exact(ds@, work_ids@);
            assert(out@ == details_filter(ds@, work_ids@));
        }
        Ok(out)
    }
}

} // verus!
