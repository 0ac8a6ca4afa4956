//! Tests for the pure row mappers and the lexical timestamp order.

use natural_nails::records::MappingError;
use natural_nails::rows::map_to_employee_work;
use natural_nails::rows::map_to_employees;
use natural_nails::rows::map_to_work;
use natural_nails::rows::ColumnValue;
use natural_nails::store::str_le;

fn ann_row() -> Vec<ColumnValue> {
    vec![
        ColumnValue::Int(1),
        ColumnValue::Text("Ann".to_string()),
        ColumnValue::Text("555".to_string()),
        ColumnValue::Text("".to_string()),
        ColumnValue::Text("".to_string()),
        ColumnValue::Int(50),
        ColumnValue::Int(50),
        ColumnValue::Int(1),
    ]
}

#[test]
fn map_employee_row_to_record() {
    let e = map_to_employees(&ann_row()).unwrap();
    assert_eq!(e.id, 1);
    assert_eq!(e.name, "Ann");
    assert_eq!(e.phone, "555");
    assert_eq!(e.address, "");
    assert_eq!(e.ssn, "");
    assert_eq!(e.work_percentage, 50);
    assert_eq!(e.cash_percentage, 50);
    assert!(e.is_active);
}

#[test]
fn map_employee_row_missing_column() {
    let mut row = ann_row();
    row.truncate(6);
    assert_eq!(
        map_to_employees(&row),
        Err(MappingError::MissingColumn(6))
    );
    assert_eq!(
        map_to_employees(&Vec::new()),
        Err(MappingError::MissingColumn(0))
    );
}

#[test]
fn map_employee_row_wrong_type() {
    let mut row = ann_row();
    row[0] = ColumnValue::Text("one".to_string());
    assert_eq!(map_to_employees(&row), Err(MappingError::WrongType(0)));

    let mut row = ann_row();
    row[1] = ColumnValue::Null;
    assert_eq!(map_to_employees(&row), Err(MappingError::WrongType(1)));

    let mut row = ann_row();
    row[5] = ColumnValue::Int(300);
    assert_eq!(map_to_employees(&row), Err(MappingError::WrongType(5)));

    let mut row = ann_row();
    row[7] = ColumnValue::Other;
    assert_eq!(map_to_employees(&row), Err(MappingError::WrongType(7)));
}

#[test]
fn map_work_row_with_optional_nulls() {
    let row = vec![
        ColumnValue::Int(3),
        ColumnValue::Text("2024-01-15".to_string()),
        ColumnValue::Int(30_00),
        ColumnValue::Null,
        ColumnValue::Int(5_00),
        ColumnValue::Null,
    ];
    let w = map_to_work(&row).unwrap();
    assert_eq!(w.id, 3);
    assert_eq!(w.timestamp, "2024-01-15");
    assert_eq!(w.total, 30_00);
    assert_eq!(w.tip, None);
    assert_eq!(w.discount, Some(5_00));
    assert_eq!(w.charged, None);
}

#[test]
fn map_work_row_null_in_required_field_errors() {
    let row = vec![
        ColumnValue::Int(3),
        ColumnValue::Null,
        ColumnValue::Int(30_00),
        ColumnValue::Null,
        ColumnValue::Null,
        ColumnValue::Null,
    ];
    assert_eq!(map_to_work(&row), Err(MappingError::WrongType(1)));
}

#[test]
fn map_employee_work_row() {
    let row = vec![
        ColumnValue::Int(7),
        ColumnValue::Int(1),
        ColumnValue::Int(3),
        ColumnValue::Int(15_00),
        ColumnValue::Null,
    ];
    let d = map_to_employee_work(&row).unwrap();
    assert_eq!(d.id, 7);
    assert_eq!(d.employee_id, 1);
    assert_eq!(d.work_id, 3);
    assert_eq!(d.amount, 15_00);
    assert_eq!(d.tip, None);
    let short = vec![ColumnValue::Int(7)];
    assert_eq!(
        map_to_employee_work(&short),
        Err(MappingError::MissingColumn(1))
    );
}

#[test]
fn lexical_order_on_timestamps() {
    assert!(str_le("2024-01-01", "2024-01-15"));
    assert!(str_le("2024-01-15", "2024-01-31"));
    assert!(!str_le("2024-02-01", "2024-01-31"));
    assert!(str_le("2023-12-31", "2024-01-01"));
    assert!(str_le("2024-01-01", "2024-01-01"));
    assert!(str_le("2024-01", "2024-01-15"));
    assert!(!str_le("2024-01-15", "2024-01"));
    assert!(str_le("", "anything"));
}
