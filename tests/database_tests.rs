use rust_database::column::{Column, DataType};
use rust_database::database::{Database, DatabaseError};
use rust_database::schema::Schema;

fn test_schema() -> Schema {
    Schema::new(vec![
        Column {
            name: "name".into(),
            data_type: DataType::String,
            constraints: Vec::new(),
        },
        Column {
            name: "age".into(),
            data_type: DataType::Integer,
            constraints: Vec::new(),
        },
    ])
    .unwrap()
}

#[test]
fn test_create_table() {
    let mut db = Database::new();
    let result = db.create_table("users".to_string(), test_schema());
    assert!(result.is_ok());
    assert!(db.get_table("users".to_string()).is_ok());
}

#[test]
fn test_update_table_name() {
    let mut db = Database::new();
    db.create_table("name".to_string(), test_schema()).unwrap();
    let result = db.update_table_name("name".to_string(), "new_name".to_string());
    assert!(result.is_ok());
    assert!(db.get_table("new_name".to_string()).is_ok());
    assert!(db.get_table("name".to_string()).is_err());
}

#[test]
fn test_delete_table_successfully() {
    let mut db = Database::new();
    db.create_table("name".to_string(), test_schema()).unwrap();
    let result = db.delete_table("name".to_string());
    assert!(result.is_ok());
    assert!(db.get_table("name".to_string()).is_err());
}

#[test]
fn test_create_table_duplicate_fails() {
    let mut db = Database::new();
    db.create_table("users".to_string(), test_schema()).unwrap();
    let result = db.create_table("users".to_string(), test_schema());
    assert_eq!(result, Err(DatabaseError::DuplicateTableName("users".to_string())));
}

#[test]
fn test_update_table_name_not_found() {
    let mut db = Database::new();
    let result = db.update_table_name("missing".to_string(), "new".to_string());
    assert_eq!(
        result,
        Err(DatabaseError::TableNotFound { name: "missing".to_string() })
    );
}

#[test]
fn test_delete_table_not_found() {
    let mut db = Database::new();
    let result = db.delete_table("nonexistent".to_string());
    assert_eq!(
        result,
        Err(DatabaseError::TableNotFound { name: "nonexistent".to_string() })
    );
}

#[test]
fn rename_onto_existing_name_fails() {
    let mut db = Database::new();
    db.create_table("a".to_string(), test_schema()).unwrap();
    db.create_table("b".to_string(), test_schema()).unwrap();
    let result = db.update_table_name("a".to_string(), "b".to_string());
    assert_eq!(result, Err(DatabaseError::DuplicateTableName("b".to_string())));
    assert!(db.get_table("a".to_string()).is_ok());
}

#[test]
fn get_table_mut_missing_table() {
    let mut db = Database::new();
    let result = db.get_table_mut("ghost".to_string());
    assert!(matches!(result, Err(DatabaseError::TableNotFound { name }) if name == "ghost"));
}
