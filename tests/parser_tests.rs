use rust_database::parser::{
    BinaryOperator, Expression, Literal, Parser, ParserError, SelectColumn, SelectStatement,
    Statements,
};
use rust_database::tokenizer::Token;

#[test]
fn test_with_select() {
    let tokens = vec![
        Token::Select,
        Token::Asterisk,
        Token::From,
        Token::Identifier("table".to_string()),
        Token::Where,
        Token::Identifier("name".to_string()),
        Token::Equals,
        Token::StringLiteral("PHILIP".to_string()),
        Token::Semicolon,
        Token::Eof,
    ];

    let mut parser = Parser::new(tokens);

    let statement = parser.parse_statement().unwrap();

    let expected_statement = Statements::Select(SelectStatement {
        columns: vec![SelectColumn::Wildcard],
        from_table: "table".to_string(),
        where_clause: Some(Expression::Binary(
            Box::new(Expression::Identifier("name".to_string())),
            BinaryOperator::Equals,
            Box::new(Expression::Literal(Literal::String("PHILIP".to_string()))),
        )),
    });

    assert_eq!(statement, expected_statement);
}

#[test]
fn test_select_specific_columns_no_where() {
    let tokens = vec![
        Token::Select,
        Token::Identifier("col1".to_string()),
        Token::Comma,
        Token::Identifier("col2".to_string()),
        Token::From,
        Token::Identifier("my_table".to_string()),
        Token::Semicolon,
        Token::Eof,
    ];

    let mut parser = Parser::new(tokens);
    let statement = parser.parse_statement().unwrap();

    let expected_statement = Statements::Select(SelectStatement {
        columns: vec![
            SelectColumn::Identifier("col1".to_string()),
            SelectColumn::Identifier("col2".to_string()),
        ],
        from_table: "my_table".to_string(),
        where_clause: None,
    });

    assert_eq!(statement, expected_statement);
}

#[test]
fn test_select_with_numeric_where_clause() {
    let tokens = vec![
        Token::Select,
        Token::Asterisk,
        Token::From,
        Token::Identifier("users".to_string()),
        Token::Where,
        Token::Identifier("id".to_string()),
        Token::Equals,
        Token::NumericLiteral("123".to_string()),
        Token::Semicolon,
        Token::Eof,
    ];

    let mut parser = Parser::new(tokens);
    let statement = parser.parse_statement().unwrap();

    let expected_statement = Statements::Select(SelectStatement {
        columns: vec![SelectColumn::Wildcard],
        from_table: "users".to_string(),
        where_clause: Some(Expression::Binary(
            Box::new(Expression::Identifier("id".to_string())),
            BinaryOperator::Equals,
            Box::new(Expression::Literal(Literal::Integer(123))),
        )),
    });

    assert_eq!(statement, expected_statement);
}

#[test]
fn test_insert_statement_error() {
    let tokens = vec![
        Token::Insert,
        Token::Identifier("INTO".to_string()),
        Token::Identifier("my_table".to_string()),
        Token::Identifier("VALUES".to_string()),
        Token::OpenBracket,
        Token::StringLiteral("value1".to_string()),
        Token::Comma,
        Token::NumericLiteral("123".to_string()),
        Token::CloseBracket,
        Token::Semicolon,
        Token::Eof,
    ];

    let mut parser = Parser::new(tokens);
    let error = parser.parse_statement().unwrap_err();

    assert_eq!(error.to_string(), "Unexpected Token 'INSERT' at position '0'");
}

#[test]
fn test_create_table_statement_error() {
    let tokens = vec![
        Token::CreateTable,
        Token::Identifier("new_table".to_string()),
        Token::OpenBracket,
        Token::Identifier("id".to_string()),
        Token::Identifier("INTEGER".to_string()),
        Token::Comma,
        Token::Identifier("name".to_string()),
        Token::Identifier("STRING".to_string()),
        Token::CloseBracket,
        Token::Semicolon,
        Token::Eof,
    ];

    let mut parser = Parser::new(tokens);
    let error = parser.parse_statement().unwrap_err();

    assert_eq!(error.to_string(), "Unexpected Token 'CREATE TABLE' at position '0'");
}

#[test]
fn integer_literal_out_of_range_is_invalid_integer() {
    let tokens = vec![
        Token::Select,
        Token::Asterisk,
        Token::From,
        Token::Identifier("t".to_string()),
        Token::Where,
        Token::Identifier("id".to_string()),
        Token::Equals,
        Token::NumericLiteral("99999999999999999999".to_string()),
        Token::Semicolon,
    ];
    let mut parser = Parser::new(tokens);
    let error = parser.parse_statement().unwrap_err();
    assert_eq!(
        error,
        ParserError::InvalidInteger("99999999999999999999".to_string(), 7)
    );
    assert_eq!(
        error.to_string(),
        "Invalid Integer '99999999999999999999' at position '7'"
    );
}

#[test]
fn missing_semicolon_reports_end_of_input() {
    let tokens = vec![
        Token::Select,
        Token::Asterisk,
        Token::From,
        Token::Identifier("t".to_string()),
    ];
    let mut parser = Parser::new(tokens);
    let error = parser.parse_statement().unwrap_err();
    assert_eq!(error, ParserError::UnexpectedToken("End of input".to_string(), 4));
}

#[test]
fn wrong_token_after_columns_is_named() {
    let tokens = vec![
        Token::Select,
        Token::Identifier("a".to_string()),
        Token::Where,
        Token::Identifier("t".to_string()),
        Token::Semicolon,
    ];
    let mut parser = Parser::new(tokens);
    let error = parser.parse_statement().unwrap_err();
    assert_eq!(
        error,
        ParserError::UnexpectedToken("Expected From, found Where".to_string(), 2)
    );
}

#[test]
fn bad_table_name_and_bad_operator_are_reported() {
    let mut parser = Parser::new(vec![
        Token::Select,
        Token::Asterisk,
        Token::From,
        Token::NumericLiteral("5".to_string()),
        Token::Semicolon,
    ]);
    assert_eq!(
        parser.parse_statement().unwrap_err(),
        ParserError::UnexpectedToken(
            "Expected table name, found NumericLiteral(\"5\")".to_string(),
            3
        )
    );

    let mut parser = Parser::new(vec![
        Token::Select,
        Token::Asterisk,
        Token::From,
        Token::Identifier("t".to_string()),
        Token::Where,
        Token::Identifier("a".to_string()),
        Token::Comma,
        Token::NumericLiteral("5".to_string()),
        Token::Semicolon,
    ]);
    assert_eq!(
        parser.parse_statement().unwrap_err(),
        ParserError::UnexpectedToken("Expected binary operator, found Comma".to_string(), 6)
    );
}

#[test]
fn other_leading_token_is_rejected_by_name() {
    let mut parser = Parser::new(vec![Token::Delete, Token::Eof]);
    assert_eq!(
        parser.parse_statement().unwrap_err(),
        ParserError::UnexpectedToken("Delete".to_string(), 0)
    );
    let mut empty = Parser::new(vec![]);
    assert_eq!(
        empty.parse_statement().unwrap_err(),
        ParserError::UnexpectedToken("End of input".to_string(), 0)
    );
}

#[test]
fn negative_literal_and_comparison_operator_parse() {
    let mut parser = Parser::new(vec![
        Token::Select,
        Token::Identifier("a".to_string()),
        Token::From,
        Token::Identifier("t".to_string()),
        Token::Where,
        Token::Identifier("a".to_string()),
        Token::LessThanOrEquals,
        Token::NumericLiteral("-42".to_string()),
        Token::Semicolon,
    ]);
    let statement = parser.parse_statement().unwrap();
    assert_eq!(
        statement,
        Statements::Select(SelectStatement {
            columns: vec![SelectColumn::Identifier("a".to_string())],
            from_table: "t".to_string(),
            where_clause: Some(Expression::Binary(
                Box::new(Expression::Identifier("a".to_string())),
                BinaryOperator::LessThanOrEquals,
                Box::new(Expression::Literal(Literal::Integer(-42))),
            )),
        })
    );
    assert!(parser.current_token().is_err());
}

#[test]
fn cursor_moves_forward_one_token_at_a_time() {
    let mut parser = Parser::new(vec![Token::Comma, Token::Eof]);
    assert_eq!(parser.current_token().unwrap(), &Token::Comma);
    assert_eq!(parser.consume_token().unwrap(), Token::Comma);
    assert_eq!(parser.consume_token().unwrap(), Token::Eof);
    assert!(parser.consume_token().is_err());
}
