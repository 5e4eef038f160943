//! A small relational query engine: a tokenizer and a recursive-descent parser
//! for a subset of SQL, an executor for SELECT statements, and a row validator
//! that enforces column constraints on every row stored in a table.
pub mod column;
pub mod constraint_state;
pub mod database;
pub mod executor;
pub mod parser;
pub mod row;
pub mod schema;
pub mod table;
pub mod tokenizer;
