//! Scenario tests for the in-memory reference store.

use natural_nails::records::NewEmployee;
use natural_nails::records::NewEmployeeWork;
use natural_nails::records::NewWork;
use natural_nails::records::StoreError;
use natural_nails::records::Table;
use natural_nails::store::Store;

fn ann() -> NewEmployee {
    NewEmployee {
        name: "Ann".to_string(),
        phone: "555".to_string(),
        address: "".to_string(),
        ssn: "".to_string(),
        work_percentage: 50,
        cash_percentage: 50,
        is_active: true,
    }
}

fn bob() -> NewEmployee {
    NewEmployee {
        name: "Bob".to_string(),
        phone: "556".to_string(),
        address: "12 High St".to_string(),
        ssn: "987".to_string(),
        work_percentage: 60,
        cash_percentage: 40,
        is_active: false,
    }
}

fn work_at(ts: &str) -> NewWork {
    NewWork {
        timestamp: ts.to_string(),
        total: 12_50,
        tip: Some(2_00),
        discount: None,
        charged: Some(14_50),
    }
}

#[test]
fn initialize_twice_is_idempotent() {
    let mut s = Store::new();
    s.initialize();
    s.create_employee(ann()).unwrap();
    let before = s.list_employees().unwrap();
    s.initialize();
    let after = s.list_employees().unwrap();
    assert_eq!(before, after);
    assert!(s.list_work().unwrap().is_empty());
}

#[test]
fn format_before_initialize_errors() {
    let mut s = Store::new();
    let r = s.format();
    assert_eq!(r, Err(StoreError::NoSuchTable(Table::Employees)));
}

#[test]
fn format_twice_errors_second_time() {
    let mut s = Store::new();
    s.initialize();
    assert_eq!(s.format(), Ok(()));
    assert!(s.format().is_err());
}

#[test]
fn create_then_list_returns_record_with_fresh_id() {
    let mut s = Store::new();
    s.initialize();
    let e1 = s.create_employee(ann()).unwrap();
    assert!(e1.id > 0);
    assert_eq!(e1.name, "Ann");
    assert_eq!(e1.phone, "555");
    assert_eq!(e1.address, "");
    assert_eq!(e1.ssn, "");
    assert_eq!(e1.work_percentage, 50);
    assert_eq!(e1.cash_percentage, 50);
    assert!(e1.is_active);
    let e2 = s.create_employee(bob()).unwrap();
    assert!(e2.id > 0);
    assert_ne!(e1.id, e2.id);
    let all = s.list_employees().unwrap();
    assert_eq!(all.len(), 2);
    assert_eq!(all[0], e1);
    assert_eq!(all[1], e2);
}

#[test]
fn create_before_initialize_errors() {
    let mut s = Store::new();
    let r = s.create_employee(ann());
    assert_eq!(r, Err(StoreError::NoSuchTable(Table::Employees)));
}

#[test]
fn update_missing_id_is_not_found_and_writes_nothing() {
    let mut s = Store::new();
    s.initialize();
    let e = s.create_employee(ann()).unwrap();
    let before = s.list_employees().unwrap();
    let mut missing_target = e.clone();
    missing_target.id = e.id + 41;
    missing_target.name = "Zoe".to_string();
    let r = s.update_employee(&missing_target);
    assert_eq!(r, Err(StoreError::NotFound));
    assert_eq!(s.list_employees().unwrap(), before);
}

#[test]
fn update_existing_id_overwrites_the_row() {
    let mut s = Store::new();
    s.initialize();
    let e = s.create_employee(ann()).unwrap();
    let mut changed = e.clone();
    changed.phone = "777".to_string();
    changed.work_percentage = 70;
    let r = s.update_employee(&changed).unwrap();
    assert_eq!(r, changed);
    let all = s.list_employees().unwrap();
    assert_eq!(all.len(), 1);
    assert_eq!(all[0], changed);
}

#[test]
fn delete_removes_exactly_that_row() {
    let mut s = Store::new();
    s.initialize();
    let e1 = s.create_employee(ann()).unwrap();
    let e2 = s.create_employee(bob()).unwrap();
    assert_eq!(s.delete_employee(e1.id), Ok(()));
    let all = s.list_employees().unwrap();
    assert_eq!(all.len(), 1);
    assert_eq!(all[0], e2);
}

#[test]
fn delete_missing_id_still_succeeds() {
    let mut s = Store::new();
    s.initialize();
    let e = s.create_employee(ann()).unwrap();
    assert_eq!(s.delete_employee(e.id + 7), Ok(()));
    assert_eq!(s.list_employees().unwrap().len(), 1);
}

#[test]
fn time_range_query_returns_exactly_the_middle_row() {
    let mut s = Store::new();
    s.initialize();
    s.create_work(work_at("2023-12-31")).unwrap();
    let middle = s.create_work(work_at("2024-01-15")).unwrap();
    s.create_work(work_at("2024-02-01")).unwrap();
    let hits = s.work_time_range("2024-01-01", "2024-01-31").unwrap();
    assert_eq!(hits.len(), 1);
    assert_eq!(hits[0], middle);
}

#[test]
fn time_range_bounds_are_inclusive() {
    let mut s = Store::new();
    s.initialize();
    let lo = s.create_work(work_at("2024-01-01")).unwrap();
    let hi = s.create_work(work_at("2024-01-31")).unwrap();
    let hits = s.work_time_range("2024-01-01", "2024-01-31").unwrap();
    assert_eq!(hits.len(), 2);
    assert_eq!(hits[0], lo);
    assert_eq!(hits[1], hi);
}

#[test]
fn details_filter_returns_only_matching_work_ids() {
    let mut s = Store::new();
    s.initialize();
    let e = s.create_employee(ann()).unwrap();
    let w1 = s.create_work(work_at("2024-03-01")).unwrap();
    let w2 = s.create_work(work_at("2024-03-02")).unwrap();
    let d1 = s
        .create_employee_work(NewEmployeeWork {
            employee_id: e.id,
            work_id: w1.id,
            amount: 6_25,
            tip: Some(1_00),
        })
        .unwrap();
    let d2 = s
        .create_employee_work(NewEmployeeWork {
            employee_id: e.id,
            work_id: w2.id,
            amount: 6_25,
            tip: None,
        })
        .unwrap();
    let ids = vec![w2.id];
    let hits = s.details_for_work_ids(&ids).unwrap();
    assert_eq!(hits.len(), 1);
    assert_eq!(hits[0], d2);
    let both = s.details_for_work_ids(&vec![w1.id, w2.id]).unwrap();
    assert_eq!(both, vec![d1, d2]);
}

#[test]
fn row_exists_reports_presence_per_table() {
    let mut s = Store::new();
    assert!(s.row_exists(Table::Employees, 1).is_err());
    s.initialize();
    assert_eq!(s.row_exists(Table::Employees, 1), Ok(false));
    let e = s.create_employee(ann()).unwrap();
    assert_eq!(s.row_exists(Table::Employees, e.id), Ok(true));
    assert_eq!(s.row_exists(Table::Work, e.id), Ok(false));
    let w = s.create_work(work_at("2024-05-05")).unwrap();
    assert_eq!(s.row_exists(Table::Work, w.id), Ok(true));
    assert_eq!(s.row_exists(Table::EmployeeWork, 1), Ok(false));
}

#[test]
fn list_before_initialize_errors() {
    let s = Store::new();
    assert_eq!(
        s.list_employees(),
        Err(StoreError::NoSuchTable(Table::Employees))
    );
    assert_eq!(s.list_work(), Err(StoreError::NoSuchTable(Table::Work)));
}
