use rust_database::column::{Column, ColumnBuilder, DataType};
use rust_database::constraint_state::ConstraintState;
use rust_database::row::{Row, RowErrors, Value};
use rust_database::schema::Schema;

fn create_test_schema(columns: Vec<Column>) -> Schema {
    Schema::new(columns).unwrap()
}

#[test]
fn test_apply_default_value_on_null() {
    let column = ColumnBuilder::new("status", DataType::Integer)
        .default(Value::Integer(0))
        .unwrap()
        .build();
    let schema = create_test_schema(vec![column]);
    let mut values = vec![Value::Null];
    let mut constraint_state: ConstraintState = ConstraintState::new(&schema);
    Row::validate_and_apply_constraints(&mut values, &schema, &mut constraint_state).unwrap();

    assert_eq!(values, vec![Value::Integer(0)]);
}

#[test]
fn test_unique_constraint_works_correctly() {
    let column = ColumnBuilder::new("Status", DataType::String).unique().build();
    let schema = create_test_schema(vec![column]);

    let mut values = vec![Value::String("unique1".to_string())];
    let mut constraint_state: ConstraintState = ConstraintState::new(&schema);

    Row::validate_and_apply_constraints(&mut values, &schema, &mut constraint_state).unwrap();

    let result = Row::validate_and_apply_constraints(&mut values, &schema, &mut constraint_state);
    assert!(matches!(
        result,
        Err(RowErrors::UniqueViolated { column, value }) if column == "Status" && value == Value::String("unique1".to_string())
    ));
}

#[test]
fn test_not_null_with_provided_value() {
    let column = ColumnBuilder::new("id", DataType::Integer).not_null().build();
    let schema = create_test_schema(vec![column]);
    let mut values = vec![Value::Integer(123)];

    let mut constraint_state: ConstraintState = ConstraintState::new(&schema);

    Row::validate_and_apply_constraints(&mut values, &schema, &mut constraint_state).unwrap();

    assert_eq!(values, vec![Value::Integer(123)]);
}

#[test]
fn test_not_null_with_null_value_returns_error() {
    let column = ColumnBuilder::new("id", DataType::Integer).not_null().build();
    let schema = create_test_schema(vec![column]);
    let mut values = vec![Value::Null];

    let mut constraint_state = ConstraintState::new(&schema);

    let result = Row::validate_and_apply_constraints(&mut values, &schema, &mut constraint_state);

    assert!(matches!(
        result,
        Err(RowErrors::NotNullViolated { column }) if column == "id"
    ));
}

#[test]
fn test_not_null_is_satisfied_by_default_value() {
    let column = ColumnBuilder::new("status", DataType::String)
        .not_null()
        .default(Value::String("active".to_string()))
        .unwrap()
        .build();
    let schema = create_test_schema(vec![column]);
    let mut values = vec![Value::Null];

    let mut constraint_state = ConstraintState::new(&schema);

    Row::validate_and_apply_constraints(&mut values, &schema, &mut constraint_state).unwrap();

    assert_eq!(values, vec![Value::String("active".to_string())]);
}

#[test]
fn test_nullable_column_accepts_null() {
    let column = ColumnBuilder::new("description", DataType::String).build();
    let schema = create_test_schema(vec![column]);
    let mut values = vec![Value::Null];

    let mut constraint_state = ConstraintState::new(&schema);

    Row::validate_and_apply_constraints(&mut values, &schema, &mut constraint_state).unwrap();

    assert_eq!(values, vec![Value::Null]);
}

#[test]
fn test_row_validator_returns_error_on_type_mismatch() {
    let column = ColumnBuilder::new("name", DataType::String).build();
    let schema = create_test_schema(vec![column]);
    let mut values = vec![Value::Integer(123)];

    let mut constraint_state = ConstraintState::new(&schema);

    let result = Row::validate_and_apply_constraints(&mut values, &schema, &mut constraint_state);

    assert!(matches!(
        result,
        Err(RowErrors::TypeMismatch { column, .. }) if column == "name"
    ));
}

#[test]
fn test_full_row_creation_with_constraints() {
    let schema = create_test_schema(vec![
        ColumnBuilder::new("id", DataType::Integer).not_null().build(),
        ColumnBuilder::new("name", DataType::String).build(),
        ColumnBuilder::new("role", DataType::String)
            .default(Value::String("guest".to_string()))
            .unwrap()
            .build(),
    ]);

    let mut constraint_state = ConstraintState::new(&schema);

    let row = Row::new(
        &schema,
        &mut constraint_state,
        vec![
            Value::Integer(1),
            Value::String("Alice".to_string()),
            Value::Null,
        ],
    )
    .unwrap();

    assert_eq!(
        row,
        Row {
            values: vec![
                Value::Integer(1),
                Value::String("Alice".to_string()),
                Value::String("guest".to_string()),
            ]
        }
    );
}

#[test]
fn test_new_row_fails_with_wrong_value_count() {
    let schema = create_test_schema(vec![
        ColumnBuilder::new("id", DataType::Integer).build(),
        ColumnBuilder::new("name", DataType::String).build(),
    ]);
    let mut constraint_state = ConstraintState::new(&schema);

    let result_too_few = Row::new(&schema, &mut constraint_state, vec![Value::Integer(1)]);
    assert!(matches!(
        result_too_few,
        Err(RowErrors::WrongValueCount { expected: 2, got: 1 })
    ));

    let result_too_many = Row::new(
        &schema,
        &mut constraint_state,
        vec![
            Value::Integer(1),
            Value::String("test".to_string()),
            Value::Null,
        ],
    );
    assert!(matches!(
        result_too_many,
        Err(RowErrors::WrongValueCount { expected: 2, got: 3 })
    ));
}

#[test]
fn test_unique_constraint_allows_multiple_nulls() {
    let column = ColumnBuilder::new("email", DataType::String).unique().build();
    let schema = create_test_schema(vec![column]);
    let mut constraint_state = ConstraintState::new(&schema);

    let result1 = Row::new(&schema, &mut constraint_state, vec![Value::Null]);
    assert!(result1.is_ok());

    let result2 = Row::new(&schema, &mut constraint_state, vec![Value::Null]);

    assert!(result2.is_ok());
}

#[test]
fn test_default_value_is_not_applied_on_provided_value() {
    let column = ColumnBuilder::new("status", DataType::Integer)
        .default(Value::Integer(0))
        .unwrap()
        .build();
    let schema = create_test_schema(vec![column]);
    let mut values = vec![Value::Integer(100)];
    let mut constraint_state = ConstraintState::new(&schema);

    Row::validate_and_apply_constraints(&mut values, &schema, &mut constraint_state).unwrap();

    assert_eq!(values, vec![Value::Integer(100)]);
}

#[test]
fn test_indexed_column_populates_constraint_state() {
    let column = ColumnBuilder::new("user_id", DataType::Integer).index().build();
    let schema = create_test_schema(vec![column]);
    let mut constraint_state = ConstraintState::new(&schema);

    let value_to_insert = Value::Integer(12345);
    let index = constraint_state.index_for("user_id").unwrap();
    assert!(!index.contains(&value_to_insert));

    Row::new(&schema, &mut constraint_state, vec![value_to_insert.clone()]).unwrap();

    let index_after = constraint_state.index_for("user_id").unwrap();
    assert!(index_after.contains(&value_to_insert));
}

#[test]
fn failed_row_leaves_constraint_state_unchanged() {
    let schema = create_test_schema(vec![
        ColumnBuilder::new("id", DataType::Integer).unique().index().build(),
        ColumnBuilder::new("name", DataType::String).not_null().build(),
    ]);
    let mut state = ConstraintState::new(&schema);
    let result = Row::new(&schema, &mut state, vec![Value::Integer(7), Value::Null]);
    assert!(matches!(result, Err(RowErrors::NotNullViolated { column }) if column == "name"));
    assert!(state.index_for("id").unwrap().is_empty());
    let again = Row::new(
        &schema,
        &mut state,
        vec![Value::Integer(7), Value::String("x".to_string())],
    );
    assert!(again.is_ok());
}

#[test]
fn type_mismatch_reports_types_and_value() {
    let schema = create_test_schema(vec![ColumnBuilder::new("age", DataType::Integer).build()]);
    let mut state = ConstraintState::new(&schema);
    let result = Row::new(&schema, &mut state, vec![Value::String("old".to_string())]);
    assert_eq!(
        result,
        Err(RowErrors::TypeMismatch {
            column: "age".to_string(),
            expected: DataType::Integer,
            got: Value::String("old".to_string()),
            got_type: DataType::String,
        })
    );
}

#[test]
fn index_keeps_values_ascending_and_distinct() {
    let schema = create_test_schema(vec![ColumnBuilder::new("k", DataType::String).index().build()]);
    let mut state = ConstraintState::new(&schema);
    for s in ["pear", "apple", "pear", "fig"] {
        Row::new(&schema, &mut state, vec![Value::String(s.to_string())]).unwrap();
    }
    Row::new(&schema, &mut state, vec![Value::Null]).unwrap();
    assert_eq!(
        state.index_for("k").unwrap(),
        &vec![
            Value::Null,
            Value::String("apple".to_string()),
            Value::String("fig".to_string()),
            Value::String("pear".to_string()),
        ]
    );
}

#[test]
fn unique_second_insert_names_value() {
    let schema = create_test_schema(vec![
        ColumnBuilder::new("id", DataType::Integer).unique().build(),
        ColumnBuilder::new("note", DataType::String).build(),
    ]);
    let mut state = ConstraintState::new(&schema);
    Row::new(&schema, &mut state, vec![Value::Integer(5), Value::Null]).unwrap();
    let second = Row::new(
        &schema,
        &mut state,
        vec![Value::Integer(5), Value::String("b".to_string())],
    );
    assert_eq!(
        second,
        Err(RowErrors::UniqueViolated { column: "id".to_string(), value: Value::Integer(5) })
    );
}
