//! The MySQL dialect: backtick-quoted identifiers, a broad identifier
//! character set, and an interceptor that claims the `DELETE` keyword and
//! parses a `DELETE` statement with optional `USING`, `WHERE`, `ORDER BY`
//! and `LIMIT` clauses.

use vstd::prelude::*;
use crate::ast::ExprModel;
use crate::ast::OrderByExprModel;
use crate::ast::Statement;
use crate::ast::StatementModel;
use crate::ast::TableFactorModel;
use crate::dialect::Dialect;
use crate::keywords::Keyword;
use crate::parser::Parser;
use crate::parser::ParserError;
use crate::parser::result_matches;
use crate::parser::spec_expect_keyword;
use crate::parser::spec_parse_expr;
use crate::parser::spec_parse_limit;
use crate::parser::spec_parse_order_by_list;
use crate::parser::spec_parse_table_factor;
use crate::parser::spec_peek_is_keyword;
use crate::tokenizer::TokenModel;

verus! {

/// The `WHERE` stage of the `DELETE` grammar and everything after it.
pub open spec fn spec_delete_from_where(
    toks: Seq<TokenModel>,
    i: int,
    table_name: TableFactorModel,
    using: Option<TableFactorModel>,
) -> (Result<StatementModel, ParserError>, int) {
    if spec_peek_is_keyword(toks, i, Keyword::WHERE) {
        let (r, j) = spec_parse_expr(toks, i + 1);
        match r {
            Err(e) => (Err(e), j),
            Ok(sel) => spec_delete_from_order_by(toks, j, table_name, using, Some(sel)),
        }
    } else {
        spec_delete_from_order_by(toks, i, table_name, using, None)
    }
}

/// The `ORDER BY` stage of the `DELETE` grammar and everything after it.
pub open spec fn spec_delete_from_order_by(
    toks: Seq<TokenModel>,
    i: int,
    table_name: TableFactorModel,
    using: Option<TableFactorModel>,
    selection: Option<ExprModel>,
) -> (Result<StatementModel, ParserError>, int) {
    if spec_peek_is_keyword(toks, i, Keyword::ORDER) && spec_peek_is_keyword(
        toks,
        i + 1,
        Keyword::BY,
    ) {
        let (r, j) = spec_parse_order_by_list(toks, i + 2);
        match r {
            Err(e) => (Err(e), j),
            Ok(ob) => spec_delete_from_limit(toks, j, table_name, using, selection, Some(ob)),
        }
    } else {
        spec_delete_from_limit(toks, i, table_name, using, selection, None)
    }
}

/// The `LIMIT` stage of the `DELETE` grammar: the last clause, after which
/// the statement is assembled and no further token is consumed.
pub open spec fn spec_delete_from_limit(
    toks: Seq<TokenModel>,
    i: int,
    table_name: TableFactorModel,
    using: Option<TableFactorModel>,
    selection: Option<ExprModel>,
    order_by: Option<Seq<OrderByExprModel>>,
) -> (Result<StatementModel, ParserError>, int) {
    if spec_peek_is_keyword(toks, i, Keyword::LIMIT) {
        let (r, j) = spec_parse_limit(toks, i + 1);
        match r {
            Err(e) => (Err(e), j),
            Ok(limit) => (
                Ok(StatementModel::Delete { table_name, using, selection, order_by, limit }),
                j,
            ),
        }
    } else {
        (
            Ok(StatementModel::Delete { table_name, using, selection, order_by, limit: None }),
            i,
        )
    }
}

/// The dialect-specific `DELETE` grammar, entered only after the `DELETE`
/// keyword has been consumed: mandatory `FROM` and table reference, then
/// optional `USING`, `WHERE`, `ORDER BY` and `LIMIT` clauses, attempted in
/// that fixed order. Each optional field of the statement is present
/// exactly when its introducing keyword is.
pub open spec fn spec_parse_delete(toks: Seq<TokenModel>, i: int) -> (Result<
    StatementModel,
    ParserError,
>, int) {
    let (r0, i0) = spec_expect_keyword(toks, i, Keyword::FROM);
    match r0 {
        Err(e) => (Err(e), i0),
        Ok(done) => {
            let (r1, i1) = spec_parse_table_factor(toks, i0);
            match r1 {
                Err(e) => (Err(e), i1),
                Ok(table_name) => {
                    if spec_peek_is_keyword(toks, i1, Keyword::USING) {
                        let (r2, i2) = spec_parse_table_factor(toks, i1 + 1);
                        match r2 {
                            Err(e) => (Err(e), i2),
                            Ok(u) => spec_delete_from_where(toks, i2, table_name, Some(u)),
                        }
                    } else {
                        spec_delete_from_where(toks, i1, table_name, None)
                    }
                },
            }
        },
    }
}

/// The MySQL dialect: a stateless capability object, constructed once at
/// parser setup and shared read-only for the whole parse.
#[derive(Debug)]
pub struct MySqlDialect {}

impl MySqlDialect {
    /// Parse the dialect-specific `DELETE` statement; the `DELETE` keyword
    /// itself has already been consumed. A missing `FROM`, or a malformed
    /// clause after any recognized keyword, is a hard grammar error.
    pub fn parse_delete(&self, parser: &mut Parser) -> (r: Result<Statement, ParserError>)
        requires
            old(parser).wf(),
        ensures
            final(parser).wf(),
            final(parser)@.tokens == old(parser)@.tokens,
            ({
                let (res, j) = spec_parse_delete(old(parser)@.tokens, old(parser)@.index);
                final(parser)@.index == j && result_matches(r, res)
            }),
    {
        match parser.expect_keyword(Keyword::FROM) {
            Ok(done) => {},
            Err(e) => {
                return Err(e);
            },
        }
        let table_name = match parser.parse_table_factor() {
            Ok(t) => t,
            Err(e) => {
                return Err(e);
            },
        };
        let using = if parser.parse_keyword(Keyword::USING) {
            match parser.parse_table_factor() {
                Ok(t) => Some(t),
                Err(e) => {
                    return Err(e);
                },
            }
        } else {
            None
        };
        let selection = if parser.parse_keyword(Keyword::WHERE) {
            match parser.parse_expr() {
                Ok(x) => Some(x),
                Err(e) => {
                    return Err(e);
                },
            }
        } else {
            None
        };
        let order_by = if parser.parse_keyword_pair(Keyword::ORDER, Keyword::BY) {
            match parser.parse_order_by_list() {
                Ok(v) => Some(v),
                Err(e) => {
                    return Err(e);
                },
            }
        } else {
            None
        };
        let limit = if parser.parse_keyword(Keyword::LIMIT) {
            match parser.parse_limit() {
                Ok(l) => l,
                Err(e) => {
                    return Err(e);
                },
            }
        } else {
            None
        };
        Ok(Statement::Delete { table_name, using, selection, order_by, limit })
    }
}

impl Dialect for MySqlDialect {
    /// Only the backtick opens a quoted identifier.
    open spec fn spec_is_delimited_identifier_start(&self, c: char) -> bool {
        c == '`'
    }

    /// ASCII letters, `_`, the sigils `$` and `@`, and a broad extended
    /// character range may begin a bare identifier; a digit may not, to
    /// keep identifier lexing unambiguous against numeric literals.
    open spec fn spec_is_identifier_start(&self, c: char) -> bool {
        (97 <= c as u32 && c as u32 <= 122)  // 'a' ..= 'z'
         || (65 <= c as u32 && c as u32 <= 90)  // 'A' ..= 'Z'
         || c == '_' || c == '$' || c == '@' || (0x80 <= c as u32 && c as u32 <= 0xffff)
    }

    /// A character continues an identifier when it may start one or is an
    /// ASCII digit.
    open spec fn spec_is_identifier_part(&self, c: char) -> bool {
        self.spec_is_identifier_start(c) || (48 <= c as u32 && c as u32 <= 57)
    }

    /// This dialect claims exactly the statements whose first token is a
    /// word carrying the `DELETE` keyword, and hands them to its own
    /// `DELETE` grammar; it declines everything else.
    open spec fn spec_parse_statement(&self, toks: Seq<TokenModel>, i: int) -> Option<
        (Result<StatementModel, ParserError>, int),
    > {
        if spec_peek_is_keyword(toks, i, Keyword::DELETE) {
            Some(spec_parse_delete(toks, i + 1))
        } else {
            None
        }
    }

    proof fn lemma_identifier_rules(&self) {
    }

    fn is_delimited_identifier_start(&self, c: char) -> (r: bool) {
        c == '`'
    }

    fn is_identifier_start(&self, c: char) -> (r: bool) {
        let u = c as u32;
        (97 <= u && u <= 122) || (65 <= u && u <= 90) || c == '_' || c == '$' || c == '@' || (128
            <= u && u <= 65535)
    }

    fn is_identifier_part(&self, c: char) -> (r: bool) {
        let u = c as u32;
        self.is_identifier_start(c) || (48 <= u && u <= 57)
    }

    fn parse_statement(&self, parser: &mut Parser) -> (r: Option<Result<Statement, ParserError>>) {
        if parser.parse_keyword(Keyword::DELETE) {
            Some(self.parse_delete(parser))
        } else {
            None
        }
    }
}

} // verus!
