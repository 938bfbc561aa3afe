use sqlparser::ast::Expr;
use sqlparser::ast::Operand;
use sqlparser::ast::Statement;
use sqlparser::dialect::Dialect;
use sqlparser::dialect::mysql::MySqlDialect;
use sqlparser::dialect::parse_top_level;
use sqlparser::keywords::Keyword;
use sqlparser::parser::Parser;
use sqlparser::parser::ParserError;
use sqlparser::tokenizer::tokenize;

fn chars(text: &str) -> Vec<char> {
    text.chars().collect()
}

fn string_of(value: &[char]) -> String {
    value.iter().collect()
}

fn parser_for(sql: &str) -> Parser {
    let dialect = MySqlDialect {};
    let tokens = tokenize(&dialect, &chars(sql)).unwrap();
    Parser::new(tokens)
}

fn ident_text(op: &Operand) -> String {
    match op {
        Operand::Identifier(id) => string_of(&id.value),
        other => panic!("expected an identifier, got {other:?}"),
    }
}

fn number_text(op: &Operand) -> String {
    match op {
        Operand::Number(n) => string_of(n),
        other => panic!("expected a number, got {other:?}"),
    }
}

#[test]
fn delete_with_where_has_exactly_the_written_clauses() {
    let dialect = MySqlDialect {};
    let mut parser = parser_for("DELETE FROM t WHERE x = 1");
    let statement = dialect.parse_statement(&mut parser).unwrap().unwrap();
    match statement {
        Statement::Delete { table_name, using, selection, order_by, limit } => {
            assert_eq!(string_of(&table_name.name.value), "t");
            assert_eq!(table_name.name.quote_style, None);
            assert!(using.is_none());
            match selection.expect("selection must be present") {
                Expr::Equals { left, right } => {
                    assert_eq!(ident_text(&left), "x");
                    assert_eq!(number_text(&right), "1");
                },
                other => panic!("expected an equality predicate, got {other:?}"),
            }
            assert!(order_by.is_none());
            assert!(limit.is_none());
        },
        other => panic!("expected a DELETE statement, got {other:?}"),
    }
    assert_eq!(parser.position(), parser.stream_len());
}

#[test]
fn delete_with_using_order_by_and_limit() {
    let dialect = MySqlDialect {};
    let mut parser = parser_for("DELETE FROM t USING u ORDER BY x LIMIT 10");
    let statement = dialect.parse_statement(&mut parser).unwrap().unwrap();
    match statement {
        Statement::Delete { table_name, using, selection, order_by, limit } => {
            assert_eq!(string_of(&table_name.name.value), "t");
            assert_eq!(string_of(&using.expect("USING must be present").name.value), "u");
            assert!(selection.is_none());
            let order_by = order_by.expect("ORDER BY must be present");
            assert_eq!(order_by.len(), 1);
            match &order_by[0].expr {
                Expr::Operand(op) => assert_eq!(ident_text(op), "x"),
                other => panic!("expected a bare sort key, got {other:?}"),
            }
            assert_eq!(order_by[0].asc, None);
            match limit.expect("LIMIT must be present") {
                Expr::Operand(op) => assert_eq!(number_text(&op), "10"),
                other => panic!("expected a numeric limit, got {other:?}"),
            }
        },
        other => panic!("expected a DELETE statement, got {other:?}"),
    }
}

#[test]
fn delete_without_from_is_a_grammar_error() {
    let dialect = MySqlDialect {};
    let mut parser = parser_for("DELETE t");
    let result = dialect.parse_statement(&mut parser).unwrap();
    assert_eq!(
        result,
        Err(ParserError::ExpectedKeyword { expected: Keyword::FROM, pos: 1 })
    );
}

#[test]
fn delete_limit_comma_shorthand_stops_at_the_comma() {
    // The combined `LIMIT count, offset` shorthand is a documented
    // limitation: the grammar takes the first number as the limit and
    // leaves the comma and the offset unconsumed for the driver to reject.
    let dialect = MySqlDialect {};
    let mut parser = parser_for("DELETE FROM t LIMIT 5, 10");
    let statement = dialect.parse_statement(&mut parser).unwrap().unwrap();
    match statement {
        Statement::Delete { limit, .. } => {
            match limit.expect("LIMIT must be present") {
                Expr::Operand(op) => assert_eq!(number_text(&op), "5"),
                other => panic!("expected a numeric limit, got {other:?}"),
            }
        },
        other => panic!("expected a DELETE statement, got {other:?}"),
    }
    assert_eq!(parser.position(), 5);
    assert_eq!(parser.stream_len(), 7);
}

#[test]
fn delete_limit_all_means_no_bound() {
    let dialect = MySqlDialect {};
    let mut parser = parser_for("DELETE FROM t LIMIT ALL");
    let statement = dialect.parse_statement(&mut parser).unwrap().unwrap();
    match statement {
        Statement::Delete { limit, .. } => assert!(limit.is_none()),
        other => panic!("expected a DELETE statement, got {other:?}"),
    }
    assert_eq!(parser.position(), parser.stream_len());
}

#[test]
fn delete_from_without_table_is_a_grammar_error() {
    let dialect = MySqlDialect {};
    let mut parser = parser_for("DELETE FROM =");
    let result = dialect.parse_statement(&mut parser).unwrap();
    assert_eq!(result, Err(ParserError::ExpectedTableName { pos: 2 }));
}

#[test]
fn delete_where_without_expression_is_a_grammar_error() {
    let dialect = MySqlDialect {};
    let mut parser = parser_for("DELETE FROM t WHERE");
    let result = dialect.parse_statement(&mut parser).unwrap();
    assert_eq!(result, Err(ParserError::ExpectedExpression { pos: 4 }));
}

#[test]
fn delete_limit_without_bound_is_a_grammar_error() {
    let dialect = MySqlDialect {};
    let mut parser = parser_for("DELETE FROM t LIMIT x");
    let result = dialect.parse_statement(&mut parser).unwrap();
    assert_eq!(result, Err(ParserError::ExpectedLimit { pos: 4 }));
}

#[test]
fn order_by_takes_several_keys_with_directions() {
    let dialect = MySqlDialect {};
    let mut parser = parser_for("DELETE FROM t ORDER BY a ASC, b DESC, c");
    let statement = dialect.parse_statement(&mut parser).unwrap().unwrap();
    match statement {
        Statement::Delete { order_by, .. } => {
            let order_by = order_by.expect("ORDER BY must be present");
            assert_eq!(order_by.len(), 3);
            assert_eq!(order_by[0].asc, Some(true));
            assert_eq!(order_by[1].asc, Some(false));
            assert_eq!(order_by[2].asc, None);
            match &order_by[2].expr {
                Expr::Operand(op) => assert_eq!(ident_text(op), "c"),
                other => panic!("expected a bare sort key, got {other:?}"),
            }
        },
        other => panic!("expected a DELETE statement, got {other:?}"),
    }
    assert_eq!(parser.position(), parser.stream_len());
}

#[test]
fn quoted_table_name_reaches_the_statement() {
    let dialect = MySqlDialect {};
    let mut parser = parser_for("DELETE FROM `my table`");
    let statement = dialect.parse_statement(&mut parser).unwrap().unwrap();
    match statement {
        Statement::Delete { table_name, .. } => {
            assert_eq!(string_of(&table_name.name.value), "my table");
            assert_eq!(table_name.name.quote_style, Some('`'));
        },
        other => panic!("expected a DELETE statement, got {other:?}"),
    }
}

#[test]
fn declined_statement_leaves_the_cursor_untouched() {
    let dialect = MySqlDialect {};
    let mut parser = parser_for("SELECT x");
    assert!(dialect.parse_statement(&mut parser).is_none());
    assert_eq!(parser.position(), 0);
}

#[test]
fn decline_then_fallback_equals_generic_parse_alone() {
    let dialect = MySqlDialect {};

    let mut through_interceptor = parser_for("SELECT x = 2");
    let combined = parse_top_level(&dialect, &mut through_interceptor);

    let mut generic_only = parser_for("SELECT x = 2");
    let direct = generic_only.parse_generic_statement();

    assert_eq!(combined, direct);
    assert_eq!(through_interceptor.position(), generic_only.position());

    let statement = combined.unwrap();
    match statement {
        Statement::Select { projection } => {
            match projection {
                Expr::Equals { left, right } => {
                    assert_eq!(ident_text(&left), "x");
                    assert_eq!(number_text(&right), "2");
                },
                other => panic!("expected an equality, got {other:?}"),
            }
        },
        other => panic!("expected a SELECT statement, got {other:?}"),
    }
}

#[test]
fn claimed_statement_goes_to_the_dialect_grammar() {
    let dialect = MySqlDialect {};
    let mut parser = parser_for("DELETE FROM t");
    let statement = parse_top_level(&dialect, &mut parser).unwrap();
    assert!(matches!(statement, Statement::Delete { .. }));
    assert_eq!(parser.position(), parser.stream_len());
}

#[test]
fn statement_no_grammar_recognizes_is_an_error() {
    let dialect = MySqlDialect {};
    let mut parser = parser_for("ORDER x");
    let result = parse_top_level(&dialect, &mut parser);
    assert_eq!(result, Err(ParserError::ExpectedStatement { pos: 0 }));
}
