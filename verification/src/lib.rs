//! Dialect-extensibility layer of a small SQL parser.
//!
//! A shared tokenizer/parser core is specialized per SQL dialect through the
//! [`dialect::Dialect`] capability trait: a dialect answers lexical questions
//! (which characters may start or continue an identifier, which character
//! opens a quoted identifier) and may intercept statement parsing before the
//! generic grammar runs, claiming keywords the generic grammar does not
//! understand.
//!
//! The one dialect provided here, [`dialect::mysql::MySqlDialect`], claims the
//! `DELETE` keyword and parses a `DELETE` statement with optional `USING`,
//! `WHERE`, `ORDER BY` and `LIMIT` clauses.

pub mod ast;
pub mod dialect;
pub mod keywords;
pub mod parser;
pub mod tokenizer;
