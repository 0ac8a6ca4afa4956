//! Payroll-tracking data layer for a small salon business: employees, work
//! records, and the pay split between them, stored in a SQLite database.
//!
//! The crate is organised in four modules:
//! - `records`: the typed records for the three tables and the error taxonomy;
//! - `rows`: pure row mappers from raw database columns to typed records;
//! - `store`: an in-memory reference store giving the exact semantics of every
//!   table operation (schema lifecycle, create/update/delete, range queries);
//! - `db`: the SQLite-backed data-access layer, whose decision logic is
//!   verified against the same semantics and which reaches the database
//!   through a small set of trusted wrappers around `rusqlite`.

pub mod records;
pub mod rows;
pub mod store;
pub mod db;

pub use records::Employee;
pub use records::NewEmployee;
pub use records::Work;
pub use records::NewWork;
pub use records::EmployeeWork;
pub use records::NewEmployeeWork;
pub use records::Table;
pub use records::StoreError;
pub use records::MappingError;
pub use rows::ColumnValue;
pub use store::Store;
pub use db::Db;
