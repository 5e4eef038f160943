use rust_database::column::{Column, ColumnBuilder, DataType};
use rust_database::row::{RowErrors, Value};
use rust_database::schema::Schema;
use rust_database::table::{Table, TableErrors};

fn make_schema() -> Schema {
    Schema::new(vec![
        Column { name: "id".to_string(), data_type: DataType::Integer, constraints: Vec::new() },
        Column { name: "name".to_string(), data_type: DataType::String, constraints: Vec::new() },
    ])
    .unwrap()
}

fn make_table() -> Table {
    Table::new(make_schema())
}

fn row_int_str(id: i64, name: &str) -> Vec<Value> {
    vec![Value::Integer(id), Value::String(name.to_string())]
}

fn assert_row_eq(table: &Table, key: u64, expected: Vec<Value>) {
    let stored_row = table.get_row(key).unwrap();
    assert_eq!(stored_row.values, expected);
}

#[test]
fn add_row_success() {
    let mut table = make_table();

    table.add_row(row_int_str(1, "Alice")).unwrap();

    assert_eq!(table.row_count(), 1);
    assert_row_eq(&table, 0, row_int_str(1, "Alice"));
}

#[test]
fn add_row_type_mismatch() {
    let mut table = make_table();

    let bad_row = vec![
        Value::String("Not an integer".to_string()),
        Value::String("Alice".to_string()),
    ];

    let result = table.add_row(bad_row);
    assert!(result.is_err());
}

#[test]
fn delete_row_success() {
    let mut table = make_table();

    table.add_row(row_int_str(1, "Alice")).unwrap();
    table.add_row(row_int_str(2, "Bob")).unwrap();

    assert_eq!(table.row_count(), 2);

    table.delete_row(0).unwrap();

    assert_eq!(table.row_count(), 1);
    assert!(table.get_row(0).is_none());
    assert!(table.get_row(1).is_some());
}

#[test]
fn edit_row_success() {
    let mut table = make_table();

    table.add_row(row_int_str(1, "Alice")).unwrap();

    let new_row = row_int_str(1, "Bob");
    table.edit_row(0, new_row.clone()).unwrap();

    assert_row_eq(&table, 0, new_row);
}

#[test]
fn edit_row_type_mismatch() {
    let mut table = make_table();

    table.add_row(row_int_str(1, "Alice")).unwrap();

    let invalid_row = vec![
        Value::String("Not an integer".to_string()),
        Value::String("Bob".to_string()),
    ];

    let result = table.edit_row(0, invalid_row);
    assert!(result.is_err());
}

#[test]
fn row_ids_are_never_reused() {
    let mut table = make_table();
    assert_eq!(table.add_row(row_int_str(1, "a")).unwrap(), 0);
    assert_eq!(table.add_row(row_int_str(2, "b")).unwrap(), 1);
    table.delete_row(0).unwrap();
    assert_eq!(table.add_row(row_int_str(3, "c")).unwrap(), 2);
    assert_row_eq(&table, 1, row_int_str(2, "b"));
    assert_eq!(table.next_row_id(), 3);
    let ids: Vec<u64> = table.rows().iter().map(|(id, _)| *id).collect();
    assert_eq!(ids, vec![1, 2]);
}

#[test]
fn missing_row_errors() {
    let mut table = make_table();
    assert!(matches!(table.delete_row(4), Err(TableErrors::RowNotFound(4))));
    assert!(matches!(table.edit_row(4, row_int_str(1, "a")), Err(TableErrors::RowNotFound(4))));
    assert!(table.get_row(4).is_none());
}

#[test]
fn add_row_wrong_count_is_row_error() {
    let mut table = make_table();
    let result = table.add_row(vec![Value::Integer(1)]);
    assert!(matches!(
        result,
        Err(TableErrors::RowConstructionError(RowErrors::WrongValueCount { expected: 2, got: 1 }))
    ));
    assert_eq!(table.row_count(), 0);
}

#[test]
fn edit_keeps_unique_value_seen_by_earlier_row() {
    let schema = Schema::new(vec![ColumnBuilder::new("id", DataType::Integer).unique().build()]).unwrap();
    let mut table = Table::new(schema);
    table.add_row(vec![Value::Integer(1)]).unwrap();
    let result = table.edit_row(0, vec![Value::Integer(1)]);
    assert!(matches!(
        result,
        Err(TableErrors::RowConstructionError(RowErrors::UniqueViolated { .. }))
    ));
    assert_eq!(table.schema().column_count(), 1);
    assert!(table.constraint_state().has_unique_values("id"));
}
