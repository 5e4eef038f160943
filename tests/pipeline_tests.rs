use rust_database::column::{ColumnBuilder, DataType};
use rust_database::database::Database;
use rust_database::executor::{ExecutionError, Executor, QueryResult};
use rust_database::parser::{Parser, SelectColumn, SelectStatement, Statements};
use rust_database::row::Value;
use rust_database::schema::Schema;
use rust_database::tokenizer::{Token, Tokenizer};

fn tokens_of(text: &str) -> Vec<Token> {
    let mut tokenizer = Tokenizer::new(text);
    let mut tokens = Vec::new();
    loop {
        let token = tokenizer.get_next_token().unwrap();
        let done = token == Token::Eof;
        tokens.push(token);
        if done {
            break;
        }
    }
    tokens
}

fn users_db() -> Database {
    let schema = Schema::new(vec![
        ColumnBuilder::new("id", DataType::Integer).unique().not_null().build(),
        ColumnBuilder::new("name", DataType::String).build(),
        ColumnBuilder::new("age", DataType::Integer).build(),
    ])
    .unwrap();
    let mut db = Database::new();
    db.create_table("users".to_string(), schema).unwrap();
    let table = db.get_table_mut("users".to_string()).unwrap();
    for (id, name, age) in [(1, "Alice", 30), (2, "Bob", 25), (3, "Charlie", 30)] {
        table
            .add_row(vec![
                Value::Integer(id),
                Value::String(name.to_string()),
                Value::Integer(age),
            ])
            .unwrap();
    }
    db
}

fn run(text: &str, db: &Database) -> Result<QueryResult, ExecutionError> {
    let mut parser = Parser::new(tokens_of(text));
    let statement = parser.parse_statement().unwrap();
    Executor {}.execute(&statement, db)
}

#[test]
fn select_star_tokens_and_statement() {
    let tokens = tokens_of("SELECT * FROM t;");
    assert_eq!(
        tokens,
        vec![
            Token::Select,
            Token::Asterisk,
            Token::From,
            Token::Identifier("t".to_string()),
            Token::Semicolon,
            Token::Eof,
        ]
    );
    let mut parser = Parser::new(tokens);
    assert_eq!(
        parser.parse_statement().unwrap(),
        Statements::Select(SelectStatement {
            columns: vec![SelectColumn::Wildcard],
            from_table: "t".to_string(),
            where_clause: None,
        })
    );
}

#[test]
fn end_to_end_projection_with_filter() {
    let db = users_db();
    let result = run("SELECT name, age FROM users WHERE age = 30;", &db).unwrap();
    assert_eq!(result.rows.len(), 2);
    assert_eq!(result.rows[0].values.len(), 2);
    assert_eq!(result.rows[1].values.len(), 2);
    assert_eq!(
        result.rows[0].values,
        vec![Value::String("Alice".to_string()), Value::Integer(30)]
    );
    assert_eq!(
        result.rows[1].values,
        vec![Value::String("Charlie".to_string()), Value::Integer(30)]
    );
}

#[test]
fn end_to_end_missing_table_and_column() {
    let db = users_db();
    assert_eq!(run("SELECT * FROM nowhere;", &db), Err(ExecutionError::TableNotFound));
    assert_eq!(
        run("SELECT name, email FROM users;", &db),
        Err(ExecutionError::ColumnNotFound("email".to_string()))
    );
}

#[test]
fn end_to_end_text_filter_and_unique_id() {
    let mut db = users_db();
    let result = run("select id from users where name = 'Bob';", &db).unwrap();
    assert_eq!(result.rows.len(), 1);
    assert_eq!(result.rows[0].values, vec![Value::Integer(2)]);

    let table = db.get_table_mut("users".to_string()).unwrap();
    assert!(table
        .add_row(vec![Value::Integer(2), Value::Null, Value::Null])
        .is_err());
    assert!(table
        .add_row(vec![Value::Null, Value::Null, Value::Null])
        .is_err());
    assert_eq!(table.row_count(), 3);
}
