//! Scenario tests for the SQLite-backed data-access layer, each on a fresh
//! in-memory database.

use natural_nails::db::Db;
use natural_nails::records::Employee;
use natural_nails::records::NewEmployee;
use natural_nails::records::NewEmployeeWork;
use natural_nails::records::NewWork;
use natural_nails::records::StoreError;
use natural_nails::records::Table;
use natural_nails::db::interpret_count_rows;
use natural_nails::rows::ColumnValue;

fn fresh_db() -> Db {
    Db::open_in_memory().unwrap()
}

fn ann() -> NewEmployee {
    NewEmployee {
        name: "Ann".to_string(),
        phone: "555".to_string(),
        address: "".to_string(),
        ssn: "".to_string(),
        work_percentage: 50,
        cash_percentage: 50,
        is_active: true,
    }
}

fn carl() -> NewEmployee {
    NewEmployee {
        name: "Carl".to_string(),
        phone: "558".to_string(),
        address: "3 Low Rd".to_string(),
        ssn: "123".to_string(),
        work_percentage: 45,
        cash_percentage: 55,
        is_active: false,
    }
}

fn work_at(ts: &str) -> NewWork {
    NewWork {
        timestamp: ts.to_string(),
        total: 30_00,
        tip: None,
        discount: Some(5_00),
        charged: Some(25_00),
    }
}

#[test]
fn db_initialize_twice_is_idempotent() {
    let mut db = fresh_db();
    assert_eq!(db.database_init(), Ok(()));
    let e = db.post_new_employee(&ann()).unwrap();
    assert_eq!(db.database_init(), Ok(()));
    let all = db.get_all_employees().unwrap();
    assert_eq!(all, vec![e]);
}

#[test]
fn db_format_before_initialize_errors() {
    let mut db = fresh_db();
    let r = db.database_format();
    assert!(matches!(r, Err(StoreError::Schema(_))));
}

#[test]
fn db_format_twice_errors_second_time() {
    let mut db = fresh_db();
    db.database_init().unwrap();
    assert_eq!(db.database_format(), Ok(()));
    assert!(matches!(db.database_format(), Err(StoreError::Schema(_))));
}

#[test]
fn db_post_then_get_returns_record_verbatim() {
    let mut db = fresh_db();
    db.database_init().unwrap();
    let e = db.post_new_employee(&ann()).unwrap();
    assert!(e.id > 0);
    let expected = Employee {
        id: e.id,
        name: "Ann".to_string(),
        phone: "555".to_string(),
        address: "".to_string(),
        ssn: "".to_string(),
        work_percentage: 50,
        cash_percentage: 50,
        is_active: true,
    };
    assert_eq!(e, expected);
    let all = db.get_all_employees().unwrap();
    assert_eq!(all, vec![expected]);
    let e2 = db.post_new_employee(&carl()).unwrap();
    assert_ne!(e.id, e2.id);
    assert_eq!(db.get_all_employees().unwrap().len(), 2);
}

#[test]
fn db_get_all_employees_before_initialize_errors() {
    let db = fresh_db();
    assert!(matches!(
        db.get_all_employees(),
        Err(StoreError::Driver(_))
    ));
}

#[test]
fn db_update_missing_id_is_not_found_and_writes_nothing() {
    let mut db = fresh_db();
    db.database_init().unwrap();
    let e = db.post_new_employee(&ann()).unwrap();
    let before = db.get_all_employees().unwrap();
    let mut missing_target = e.clone();
    missing_target.id = e.id + 100;
    missing_target.name = "Zoe".to_string();
    assert_eq!(
        db.put_update_employee(&missing_target),
        Err(StoreError::NotFound)
    );
    assert_eq!(db.get_all_employees().unwrap(), before);
}

#[test]
fn db_update_existing_id_overwrites_the_row() {
    let mut db = fresh_db();
    db.database_init().unwrap();
    let e = db.post_new_employee(&ann()).unwrap();
    let mut changed = e.clone();
    changed.phone = "778".to_string();
    changed.cash_percentage = 30;
    let r = db.put_update_employee(&changed).unwrap();
    assert_eq!(r, changed);
    assert_eq!(db.get_all_employees().unwrap(), vec![changed]);
}

#[test]
fn db_delete_removes_exactly_that_row() {
    let mut db = fresh_db();
    db.database_init().unwrap();
    let e1 = db.post_new_employee(&ann()).unwrap();
    let e2 = db.post_new_employee(&carl()).unwrap();
    assert_eq!(db.delete_employee(e1.id), Ok(()));
    assert_eq!(db.get_all_employees().unwrap(), vec![e2]);
}

#[test]
fn db_delete_missing_id_still_succeeds() {
    let mut db = fresh_db();
    db.database_init().unwrap();
    let e = db.post_new_employee(&ann()).unwrap();
    assert_eq!(db.delete_employee(e.id + 9), Ok(()));
    assert_eq!(db.get_all_employees().unwrap().len(), 1);
}

#[test]
fn db_check_table_row_exist_reports_presence() {
    let mut db = fresh_db();
    assert!(db.check_table_row_exist(Table::Employees, 1).is_err());
    db.database_init().unwrap();
    assert_eq!(db.check_table_row_exist(Table::Employees, 1), Ok(false));
    let e = db.post_new_employee(&ann()).unwrap();
    assert_eq!(
        db.check_table_row_exist(Table::Employees, e.id),
        Ok(true)
    );
    assert_eq!(db.check_table_row_exist(Table::Work, e.id), Ok(false));
    assert_eq!(
        db.check_table_row_exist(Table::EmployeeWork, 1),
        Ok(false)
    );
}

#[test]
fn db_time_range_returns_exactly_the_middle_row() {
    let mut db = fresh_db();
    db.database_init().unwrap();
    db.post_new_work(&work_at("2023-12-31")).unwrap();
    let middle = db.post_new_work(&work_at("2024-01-15")).unwrap();
    db.post_new_work(&work_at("2024-02-01")).unwrap();
    let hits = db.get_work_time_range("2024-01-01", "2024-01-31").unwrap();
    assert_eq!(hits, vec![middle]);
}

#[test]
fn db_get_all_works_round_trips_optional_amounts() {
    let mut db = fresh_db();
    db.database_init().unwrap();
    let w = db.post_new_work(&work_at("2024-04-04")).unwrap();
    assert!(w.id > 0);
    assert_eq!(w.tip, None);
    assert_eq!(w.discount, Some(5_00));
    let all = db.get_all_works().unwrap();
    assert_eq!(all, vec![w]);
}

#[test]
fn db_detail_from_work_ids_returns_only_matching_rows() {
    let mut db = fresh_db();
    db.database_init().unwrap();
    let e = db.post_new_employee(&ann()).unwrap();
    let w1 = db.post_new_work(&work_at("2024-03-01")).unwrap();
    let w2 = db.post_new_work(&work_at("2024-03-02")).unwrap();
    let d1 = db
        .post_new_employee_work(&NewEmployeeWork {
            employee_id: e.id,
            work_id: w1.id,
            amount: 15_00,
            tip: None,
        })
        .unwrap();
    let d2 = db
        .post_new_employee_work(&NewEmployeeWork {
            employee_id: e.id,
            work_id: w2.id,
            amount: 15_00,
            tip: Some(1_50),
        })
        .unwrap();
    let hits = db.get_detail_from_work_ids(&vec![w1.id]).unwrap();
    assert_eq!(hits, vec![d1.clone()]);
    let both = db.get_detail_from_work_ids(&vec![w1.id, w2.id]).unwrap();
    assert_eq!(both, vec![d1, d2]);
    let none = db.get_detail_from_work_ids(&vec![w2.id + 50]).unwrap();
    assert!(none.is_empty());
}

#[test]
fn db_delete_before_initialize_surfaces_driver_error() {
    let mut db = fresh_db();
    let r = db.delete_employee(1);
    assert!(matches!(r, Err(StoreError::Driver(_))));
}

#[test]
fn interpret_count_rows_decides_by_the_count() {
    assert_eq!(
        interpret_count_rows(&vec![vec![ColumnValue::Int(0)]]),
        Ok(false)
    );
    assert_eq!(
        interpret_count_rows(&vec![vec![ColumnValue::Int(3)]]),
        Ok(true)
    );
    assert!(matches!(
        interpret_count_rows(&Vec::new()),
        Err(StoreError::Driver(_))
    ));
    assert!(matches!(
        interpret_count_rows(&vec![vec![ColumnValue::Text("1".to_string())]]),
        Err(StoreError::Driver(_))
    ));
    assert!(matches!(
        interpret_count_rows(&vec![vec![]]),
        Err(StoreError::Driver(_))
    ));
}
