use rust_database::column::{ColumnBuilder, DataType};
use rust_database::database::Database;
use rust_database::executor::{ExecutionError, Executor};
use rust_database::parser::{
    BinaryOperator, Expression, InsertStatement, Literal, SelectColumn, SelectStatement,
    Statements,
};
use rust_database::row::Value;
use rust_database::schema::Schema;

fn create_mock_db() -> Database {
    let schema = Schema::new(vec![
        ColumnBuilder::new("id", DataType::Integer).build(),
        ColumnBuilder::new("name", DataType::String).build(),
        ColumnBuilder::new("age", DataType::Integer).build(),
    ])
    .unwrap();

    let mut db = Database::new();
    db.create_table("users".to_string(), schema).unwrap();
    let table = db.get_table_mut("users".to_string()).unwrap();

    table
        .add_row(vec![
            Value::Integer(1),
            Value::String("Alice".to_string()),
            Value::Integer(30),
        ])
        .unwrap();
    table
        .add_row(vec![
            Value::Integer(2),
            Value::String("Bob".to_string()),
            Value::Integer(25),
        ])
        .unwrap();
    table
        .add_row(vec![
            Value::Integer(3),
            Value::String("Charlie".to_string()),
            Value::Integer(30),
        ])
        .unwrap();
    db
}

fn select(columns: Vec<SelectColumn>, table: &str, where_clause: Option<Expression>) -> Statements {
    Statements::Select(SelectStatement {
        from_table: table.to_string(),
        columns,
        where_clause,
    })
}

fn column_equals(name: &str, lit: Literal) -> Expression {
    Expression::Binary(
        Box::new(Expression::Identifier(name.to_string())),
        BinaryOperator::Equals,
        Box::new(Expression::Literal(lit)),
    )
}

#[test]
fn test_select_all_no_where() {
    let db = create_mock_db();
    let executor = Executor {};
    let ast = Statements::Select(SelectStatement {
        from_table: "users".to_string(),
        columns: vec![SelectColumn::Wildcard],
        where_clause: None,
    });

    let result = executor.execute(&ast, &db).unwrap();
    assert_eq!(result.rows.len(), 3);
}

#[test]
fn test_select_with_integer_where_clause() {
    let db = create_mock_db();
    let executor = Executor {};
    let ast = Statements::Select(SelectStatement {
        from_table: "users".to_string(),
        columns: vec![SelectColumn::Wildcard],
        where_clause: Some(Expression::Binary(
            Box::new(Expression::Identifier("id".to_string())),
            BinaryOperator::Equals,
            Box::new(Expression::Literal(Literal::Integer(2))),
        )),
    });

    let result = executor.execute(&ast, &db).unwrap();

    assert_eq!(result.rows.len(), 1);
    assert_eq!(result.rows[0].values[1], Value::String("Bob".to_string()));
}

#[test]
fn test_select_with_string_where_clause() {
    let db = create_mock_db();
    let executor = Executor {};
    let ast = Statements::Select(SelectStatement {
        from_table: "users".to_string(),
        columns: vec![SelectColumn::Wildcard],
        where_clause: Some(Expression::Binary(
            Box::new(Expression::Identifier("name".to_string())),
            BinaryOperator::Equals,
            Box::new(Expression::Literal(Literal::String("Charlie".to_string()))),
        )),
    });

    let result = executor.execute(&ast, &db).unwrap();

    assert_eq!(result.rows.len(), 1);
    assert_eq!(result.rows[0].values[0], Value::Integer(3));
}

#[test]
fn test_select_with_projection() {
    let db = create_mock_db();
    let executor = Executor {};

    let ast = Statements::Select(SelectStatement {
        from_table: "users".to_string(),
        columns: vec![
            SelectColumn::Identifier("name".to_string()),
            SelectColumn::Identifier("age".to_string()),
        ],
        where_clause: Some(Expression::Binary(
            Box::new(Expression::Identifier("age".to_string())),
            BinaryOperator::Equals,
            Box::new(Expression::Literal(Literal::Integer(30))),
        )),
    });

    let result = executor.execute(&ast, &db).unwrap();

    assert_eq!(result.rows.len(), 2);
    assert_eq!(result.rows[0].values.len(), 2);
    assert_eq!(result.rows[1].values.len(), 2);
    assert_eq!(
        result.rows[0].values,
        vec![Value::String("Alice".to_string()), Value::Integer(30)]
    );
    assert_eq!(
        result.rows[1].values,
        vec![Value::String("Charlie".to_string()), Value::Integer(30)]
    );
}

#[test]
fn select_from_missing_table_fails() {
    let db = create_mock_db();
    let executor = Executor {};
    let ast = select(vec![SelectColumn::Wildcard], "nobody", None);
    let result = executor.execute(&ast, &db);
    assert_eq!(result, Err(ExecutionError::TableNotFound));
}

#[test]
fn select_unknown_projected_column_fails() {
    let db = create_mock_db();
    let executor = Executor {};
    let ast = select(
        vec![
            SelectColumn::Identifier("name".to_string()),
            SelectColumn::Identifier("email".to_string()),
        ],
        "users",
        None,
    );
    let result = executor.execute(&ast, &db);
    assert_eq!(result, Err(ExecutionError::ColumnNotFound("email".to_string())));
}

#[test]
fn select_unknown_where_column_fails() {
    let db = create_mock_db();
    let executor = Executor {};
    let ast = select(
        vec![SelectColumn::Wildcard],
        "users",
        Some(column_equals("height", Literal::Integer(1))),
    );
    let result = executor.execute(&ast, &db);
    assert_eq!(result, Err(ExecutionError::ColumnNotFound("height".to_string())));
}

#[test]
fn select_with_unsupported_operator_fails() {
    let db = create_mock_db();
    let executor = Executor {};
    let ast = select(
        vec![SelectColumn::Wildcard],
        "users",
        Some(Expression::Binary(
            Box::new(Expression::Identifier("age".to_string())),
            BinaryOperator::GreaterThan,
            Box::new(Expression::Literal(Literal::Integer(26))),
        )),
    );
    let result = executor.execute(&ast, &db);
    assert_eq!(result, Err(ExecutionError::InvalidExpression));
}

#[test]
fn select_with_boolean_literal_fails() {
    let db = create_mock_db();
    let executor = Executor {};
    let ast = select(
        vec![SelectColumn::Wildcard],
        "users",
        Some(column_equals("age", Literal::Boolean(true))),
    );
    let result = executor.execute(&ast, &db);
    assert_eq!(result, Err(ExecutionError::InvalidExpression));
}

#[test]
fn select_repeated_column_and_no_match() {
    let db = create_mock_db();
    let executor = Executor {};
    let ast = select(
        vec![
            SelectColumn::Identifier("age".to_string()),
            SelectColumn::Identifier("age".to_string()),
        ],
        "users",
        Some(column_equals("name", Literal::String("Bob".to_string()))),
    );
    let result = executor.execute(&ast, &db).unwrap();
    assert_eq!(result.rows.len(), 1);
    assert_eq!(result.rows[0].values, vec![Value::Integer(25), Value::Integer(25)]);

    let none = select(
        vec![SelectColumn::Wildcard],
        "users",
        Some(column_equals("name", Literal::String("Dora".to_string()))),
    );
    assert_eq!(executor.execute(&none, &db).unwrap().rows.len(), 0);
}

#[test]
fn executing_an_insert_statement_fails() {
    let db = create_mock_db();
    let executor = Executor {};
    let ast = Statements::Insert(InsertStatement {
        table_name: "users".to_string(),
        values: vec![],
        columns: vec![],
    });
    assert_eq!(executor.execute(&ast, &db), Err(ExecutionError::InvalidExpression));
}
