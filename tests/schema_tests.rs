use rust_database::column::{Column, ColumnBuilder, DataType};
use rust_database::constraint_state::{Constraint, ConstraintKind};
use rust_database::row::Value;
use rust_database::schema::{Schema, SchemaError};

struct SchemaBuilder {
    columns: Vec<Column>,
}

impl SchemaBuilder {
    fn new() -> Self {
        Self { columns: Vec::new() }
    }

    fn add_column(mut self, column: Column) -> Self {
        self.columns.push(column);
        self
    }

    fn build(self) -> Result<Schema, SchemaError> {
        Schema::new(self.columns)
    }
}

#[test]
fn test_duplicate_name() {
    let result = SchemaBuilder::new()
        .add_column(ColumnBuilder::new("id", DataType::Integer).build())
        .add_column(ColumnBuilder::new("id", DataType::String).build())
        .build();

    assert_eq!(result, Err(SchemaError::DuplicateColumnName("id".to_string())));
}

#[test]
fn test_valid_schema() {
    let result = SchemaBuilder::new()
        .add_column(ColumnBuilder::new("id", DataType::Integer).build())
        .add_column(ColumnBuilder::new("name", DataType::String).build())
        .build();

    assert!(result.is_ok());
}

#[test]
fn default_type_checked_before_names() {
    let bad = Column {
        name: "id".to_string(),
        data_type: DataType::Integer,
        constraints: vec![Constraint::WithValue(
            ConstraintKind::Default,
            Value::String("x".to_string()),
        )],
    };
    let result = SchemaBuilder::new()
        .add_column(ColumnBuilder::new("id", DataType::Integer).build())
        .add_column(bad)
        .build();
    assert!(matches!(
        result,
        Err(SchemaError::DefaultValueTypeMismatch { ref column_name }) if column_name == "id"
    ));
}

#[test]
fn null_default_is_accepted() {
    let col = Column {
        name: "c".to_string(),
        data_type: DataType::String,
        constraints: vec![Constraint::WithValue(ConstraintKind::Default, Value::Null)],
    };
    assert!(Schema::new(vec![col]).is_ok());
}

#[test]
fn column_lookup_by_name_and_position() {
    let schema = SchemaBuilder::new()
        .add_column(ColumnBuilder::new("id", DataType::Integer).build())
        .add_column(ColumnBuilder::new("name", DataType::String).build())
        .build()
        .unwrap();
    assert_eq!(schema.get_column_index("name"), Some(1));
    assert_eq!(schema.get_column_index("name"), Some(1));
    assert_eq!(schema.get_column_index("id"), Some(0));
    assert_eq!(schema.get_column_index("age"), None);
    assert_eq!(schema.get_column_by_name("name").unwrap().data_type, DataType::String);
    assert!(schema.get_column_by_name("nope").is_none());
    assert_eq!(schema.get_column_by_index(0).unwrap().name, "id");
    assert!(schema.get_column_by_index(2).is_none());
    assert_eq!(schema.column_count(), 2);
}

#[test]
fn data_type_of_values() {
    assert_eq!(Value::String("a".to_string()).get_data_type(), DataType::String);
    assert_eq!(Value::Integer(1).get_data_type(), DataType::Integer);
    assert_eq!(Value::Null.get_data_type(), DataType::Null);
}
