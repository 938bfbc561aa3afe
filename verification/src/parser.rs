//! The token-stream cursor and the generic recursive-descent helpers the
//! dialect grammars call: keyword tests, table references, the minimal
//! boolean-expression grammar, `ORDER BY` lists, row limits, and the
//! generic statement grammar a dialect falls back to when it declines.
//!
//! Every helper's contract ties its result and its cursor movement to a
//! spec-level parse function over the token models, so a caller knows
//! exactly which tokens were consumed and what was built from them.

use vstd::prelude::*;
use crate::ast::Expr;
use crate::ast::ExprModel;
use crate::ast::Ident;
use crate::ast::IdentModel;
use crate::ast::Operand;
use crate::ast::OperandModel;
use crate::ast::OrderByExpr;
use crate::ast::OrderByExprModel;
use crate::ast::Statement;
use crate::ast::StatementModel;
use crate::ast::TableFactor;
use crate::ast::TableFactorModel;
use crate::ast::order_by_models;
use crate::keywords::Keyword;
use crate::tokenizer::Token;
use crate::tokenizer::TokenModel;
use crate::tokenizer::token_models;

verus! {

/// A grammar error: a mandatory keyword or required sub-construct was
/// missing or malformed after the grammar had committed to a statement.
/// `pos` is the index of the offending token in the stream (equal to the
/// stream length when the input ended too early).
#[derive(Clone, Copy, Debug, PartialEq, Eq, Structural)]
pub enum ParserError {
    /// The keyword `expected` was required and the token at `pos` is not it.
    ExpectedKeyword { expected: Keyword, pos: usize },
    /// A table reference was required and the token at `pos` starts none.
    ExpectedTableName { pos: usize },
    /// An expression was required and the token at `pos` starts none.
    ExpectedExpression { pos: usize },
    /// A row-limit (a number or `ALL`) was required after `LIMIT`.
    ExpectedLimit { pos: usize },
    /// No grammar of this parser recognizes the statement at `pos`.
    ExpectedStatement { pos: usize },
}

/// The mathematical state of a cursor: the token models and the position.
pub ghost struct ParserModel {
    pub tokens: Seq<TokenModel>,
    pub index: int,
}

/// The cursor over a token stream. `index` is the position of the next
/// token to be consumed; tokens before it have been consumed already.
pub struct Parser {
    tokens: Vec<Token>,
    index: usize,
}

impl View for Parser {
    type V = ParserModel;

    closed spec fn view(&self) -> ParserModel {
        ParserModel { tokens: token_models(self.tokens@), index: self.index as int }
    }
}

/// The token at `i` is a word claiming keyword `kw`.
pub open spec fn spec_peek_is_keyword(toks: Seq<TokenModel>, i: int, kw: Keyword) -> bool {
    0 <= i < toks.len() && (toks[i] matches TokenModel::Word(w) && w.keyword == kw)
}

pub open spec fn spec_peek_is_comma(toks: Seq<TokenModel>, i: int) -> bool {
    0 <= i < toks.len() && toks[i] is Comma
}

pub open spec fn spec_peek_is_equals(toks: Seq<TokenModel>, i: int) -> bool {
    0 <= i < toks.len() && toks[i] is Equals
}

/// What `expect_keyword` returns and where it leaves the cursor.
pub open spec fn spec_expect_keyword(toks: Seq<TokenModel>, i: int, kw: Keyword) -> (Result<
    (),
    ParserError,
>, int) {
    if spec_peek_is_keyword(toks, i, kw) {
        (Ok(()), i + 1)
    } else {
        (Err(ParserError::ExpectedKeyword { expected: kw, pos: i as usize }), i)
    }
}

/// What `parse_table_factor` returns and where it leaves the cursor: any
/// word token names a table; everything else is a grammar error.
pub open spec fn spec_parse_table_factor(toks: Seq<TokenModel>, i: int) -> (Result<
    TableFactorModel,
    ParserError,
>, int) {
    if 0 <= i < toks.len() {
        match toks[i] {
            TokenModel::Word(w) => (
                Ok(
                    TableFactorModel {
                        name: IdentModel { value: w.value, quote_style: w.quote_style },
                    },
                ),
                i + 1,
            ),
            _ => (Err(ParserError::ExpectedTableName { pos: i as usize }), i),
        }
    } else {
        (Err(ParserError::ExpectedTableName { pos: i as usize }), i)
    }
}

/// What parsing one operand (a column reference or a numeric literal)
/// returns and where it leaves the cursor.
pub open spec fn spec_parse_operand(toks: Seq<TokenModel>, i: int) -> (Result<
    OperandModel,
    ParserError,
>, int) {
    if 0 <= i < toks.len() {
        match toks[i] {
            TokenModel::Word(w) => (
                Ok(
                    OperandModel::Identifier(
                        IdentModel { value: w.value, quote_style: w.quote_style },
                    ),
                ),
                i + 1,
            ),
            TokenModel::Number(n) => (Ok(OperandModel::Number(n)), i + 1),
            _ => (Err(ParserError::ExpectedExpression { pos: i as usize }), i),
        }
    } else {
        (Err(ParserError::ExpectedExpression { pos: i as usize }), i)
    }
}

/// What `parse_expr` returns and where it leaves the cursor: an operand,
/// optionally followed by `=` and a second operand.
pub open spec fn spec_parse_expr(toks: Seq<TokenModel>, i: int) -> (Result<
    ExprModel,
    ParserError,
>, int) {
    let (r1, j) = spec_parse_operand(toks, i);
    match r1 {
        Err(e) => (Err(e), j),
        Ok(left) => {
            if spec_peek_is_equals(toks, j) {
                let (r2, k) = spec_parse_operand(toks, j + 1);
                match r2 {
                    Err(e) => (Err(e), k),
                    Ok(right) => (Ok(ExprModel::Equals { left, right }), k),
                }
            } else {
                (Ok(ExprModel::Operand(left)), j)
            }
        },
    }
}

/// What `parse_order_by_expr` returns: an expression with an optional
/// `ASC` or `DESC` direction.
pub open spec fn spec_parse_order_by_expr(toks: Seq<TokenModel>, i: int) -> (Result<
    OrderByExprModel,
    ParserError,
>, int) {
    let (r1, j) = spec_parse_expr(toks, i);
    match r1 {
        Err(e) => (Err(e), j),
        Ok(e) => {
            if spec_peek_is_keyword(toks, j, Keyword::ASC) {
                (Ok(OrderByExprModel { expr: e, asc: Some(true) }), j + 1)
            } else if spec_peek_is_keyword(toks, j, Keyword::DESC) {
                (Ok(OrderByExprModel { expr: e, asc: Some(false) }), j + 1)
            } else {
                (Ok(OrderByExprModel { expr: e, asc: None }), j)
            }
        },
    }
}

pub proof fn lemma_spec_parse_operand_bounds(toks: Seq<TokenModel>, i: int)
    requires
        0 <= i <= toks.len(),
    ensures
        ({
            let (r, j) = spec_parse_operand(toks, i);
            i <= j <= toks.len() && (r is Ok ==> i < j)
        }),
{
}

pub proof fn lemma_spec_parse_expr_bounds(toks: Seq<TokenModel>, i: int)
    requires
        0 <= i <= toks.len(),
    ensures
        ({
            let (r, j) = spec_parse_expr(toks, i);
            i <= j <= toks.len() && (r is Ok ==> i < j)
        }),
{
    lemma_spec_parse_operand_bounds(toks, i);
    let (r1, j) = spec_parse_operand(toks, i);
    if r1 is Ok && spec_peek_is_equals(toks, j) {
        lemma_spec_parse_operand_bounds(toks, j + 1);
    }
}

pub proof fn lemma_spec_parse_order_by_expr_bounds(toks: Seq<TokenModel>, i: int)
    requires
        0 <= i <= toks.len(),
    ensures
        ({
            let (r, j) = spec_parse_order_by_expr(toks, i);
            i <= j <= toks.len() && (r is Ok ==> i < j)
        }),
{
    lemma_spec_parse_expr_bounds(toks, i);
}

/// What `parse_order_by_list` returns: a non-empty, comma-separated list
/// of sort specifications, ending before the first token that does not
/// continue the list.
pub open spec fn spec_parse_order_by_list(toks: Seq<TokenModel>, i: int) -> (Result<
    Seq<OrderByExprModel>,
    ParserError,
>, int)
    decreases toks.len() - i,
    when 0 <= i <= toks.len()
{
    let (r1, j) = spec_parse_order_by_expr(toks, i);
    match r1 {
        Err(e) => (Err(e), j),
        Ok(o) => {
            if spec_peek_is_comma(toks, j) {
                proof {
                    lemma_spec_parse_order_by_expr_bounds(toks, i);
                }
                let (r2, k) = spec_parse_order_by_list(toks, j + 1);
                match r2 {
                    Err(e) => (Err(e), k),
                    Ok(rest) => (Ok(seq![o] + rest), k),
                }
            } else {
                (Ok(seq![o]), j)
            }
        },
    }
}

/// What `parse_limit` returns: `LIMIT ALL` means no bound (`None`), a
/// number is the bound, anything else is a grammar error. The combined
/// `LIMIT count, offset` shorthand is not part of this grammar: the comma
/// is left unconsumed.
pub open spec fn spec_parse_limit(toks: Seq<TokenModel>, i: int) -> (Result<
    Option<ExprModel>,
    ParserError,
>, int) {
    if spec_peek_is_keyword(toks, i, Keyword::ALL) {
        (Ok(None), i + 1)
    } else if 0 <= i < toks.len() && toks[i] is Number {
        match toks[i] {
            TokenModel::Number(n) => (
                Ok(Some(ExprModel::Operand(OperandModel::Number(n)))),
                i + 1,
            ),
            _ => (Err(ParserError::ExpectedLimit { pos: i as usize }), i),
        }
    } else {
        (Err(ParserError::ExpectedLimit { pos: i as usize }), i)
    }
}

/// What the generic statement grammar returns: it understands only
/// `SELECT expression`; everything else is a grammar error.
pub open spec fn spec_parse_generic_statement(toks: Seq<TokenModel>, i: int) -> (Result<
    StatementModel,
    ParserError,
>, int) {
    if spec_peek_is_keyword(toks, i, Keyword::SELECT) {
        let (r, j) = spec_parse_expr(toks, i + 1);
        match r {
            Err(e) => (Err(e), j),
            Ok(e) => (Ok(StatementModel::Select { projection: e }), j),
        }
    } else {
        (Err(ParserError::ExpectedStatement { pos: i as usize }), i)
    }
}

/// `r` is the executable counterpart of the spec-level result `m`.
pub open spec fn result_matches<T: View>(r: Result<T, ParserError>, m: Result<
    T::V,
    ParserError,
>) -> bool {
    match r {
        Ok(t) => m matches Ok(mm) && t@ == mm,
        Err(e) => m matches Err(me) && e == me,
    }
}

pub open spec fn order_by_list_matches(r: Result<Vec<OrderByExpr>, ParserError>, m: Result<
    Seq<OrderByExprModel>,
    ParserError,
>) -> bool {
    match r {
        Ok(v) => m matches Ok(ms) && order_by_models(v@) == ms,
        Err(e) => m matches Err(me) && e == me,
    }
}

pub open spec fn limit_matches(r: Result<Option<Expr>, ParserError>, m: Result<
    Option<ExprModel>,
    ParserError,
>) -> bool {
    match r {
        Ok(Some(e)) => m matches Ok(mo) && mo matches Some(me) && e@ == me,
        Ok(None) => m matches Ok(mo) && mo is None,
        Err(e) => m matches Err(me) && e == me,
    }
}

fn clone_chars(v: &Vec<char>) -> (r: Vec<char>)
    ensures
        r@ == v@,
{
    let mut out: Vec<char> = Vec::new();
    let mut i: usize = 0;
    while i < v.len()
        invariant
            0 <= i <= v@.len(),
            out@ == v@.subrange(0, i as int),
        decreases v@.len() - i,
    {
        out.push(v[i]);
        proof {
            assert(out@ =~= v@.subrange(0, i + 1 as int));
        }
        i = i + 1;
    }
    proof {
        assert(v@.subrange(0, v@.len() as int) =~= v@);
    }
    out
}

impl Parser {
    /// The cursor is inside its stream.
    pub open spec fn wf(&self) -> bool {
        self@.index <= self@.tokens.len() <= usize::MAX
    }

    /// A cursor at the start of `tokens`.
    pub fn new(tokens: Vec<Token>) -> (p: Parser)
        ensures
            p.wf(),
            p@.tokens == token_models(tokens@),
            p@.index == 0,
    {
        proof {
            assert(tokens@.len() == vstd::std_specs::vec::spec_vec_len(&tokens));
        }
        Parser { tokens, index: 0 }
    }

    /// Consume the next token unexamined.
    fn advance(&mut self)
        requires
            old(self).wf(),
            old(self)@.index < old(self)@.tokens.len(),
        ensures
            final(self).wf(),
            final(self)@.tokens == old(self)@.tokens,
            final(self)@.index == old(self)@.index + 1,
    {
        self.index = self.index + 1;
    }

    /// The current position: how many tokens have been consumed.
    pub fn position(&self) -> (i: usize)
        ensures
            i as int == self@.index,
    {
        self.index
    }

    /// How many tokens the stream holds in all.
    pub fn stream_len(&self) -> (n: usize)
        ensures
            n as int == self@.tokens.len(),
    {
        self.tokens.len()
    }

    /// The next token is a word claiming `kw`; the cursor does not move.
    pub fn peek_keyword(&self, kw: Keyword) -> (r: bool)
        ensures
            r == spec_peek_is_keyword(self@.tokens, self@.index, kw),
    {
        self.peek_keyword_at(self.index, kw)
    }

    /// The token at `at` is a word claiming `kw`; the cursor does not move.
    pub fn peek_keyword_at(&self, at: usize, kw: Keyword) -> (r: bool)
        ensures
            r == spec_peek_is_keyword(self@.tokens, at as int, kw),
    {
        if at < self.tokens.len() {
            match &self.tokens[at] {
                Token::Word(w) => w.keyword == kw,
                _ => false,
            }
        } else {
            false
        }
    }

    fn peek_comma(&self) -> (r: bool)
        ensures
            r == spec_peek_is_comma(self@.tokens, self@.index),
    {
        if self.index < self.tokens.len() {
            match &self.tokens[self.index] {
                Token::Comma => true,
                _ => false,
            }
        } else {
            false
        }
    }

    fn peek_equals(&self) -> (r: bool)
        ensures
            r == spec_peek_is_equals(self@.tokens, self@.index),
    {
        if self.index < self.tokens.len() {
            match &self.tokens[self.index] {
                Token::Equals => true,
                _ => false,
            }
        } else {
            false
        }
    }

    /// If the next token claims `kw`, consume it and report `true`; else
    /// leave the cursor where it stands and report `false`.
    pub fn parse_keyword(&mut self, kw: Keyword) -> (r: bool)
        requires
            old(self).wf(),
        ensures
            final(self).wf(),
            final(self)@.tokens == old(self)@.tokens,
            r == spec_peek_is_keyword(old(self)@.tokens, old(self)@.index, kw),
            final(self)@.index == if r {
                old(self)@.index + 1
            } else {
                old(self)@.index
            },
    {
        if self.peek_keyword(kw) {
            self.advance();
            true
        } else {
            false
        }
    }

    /// If the next two tokens claim `first` and `second` in that order,
    /// consume both and report `true`; else leave the cursor where it
    /// stands and report `false`.
    pub fn parse_keyword_pair(&mut self, first: Keyword, second: Keyword) -> (r: bool)
        requires
            old(self).wf(),
        ensures
            final(self).wf(),
            final(self)@.tokens == old(self)@.tokens,
            r == (spec_peek_is_keyword(old(self)@.tokens, old(self)@.index, first)
                && spec_peek_is_keyword(old(self)@.tokens, old(self)@.index + 1, second)),
            final(self)@.index == if r {
                old(self)@.index + 2
            } else {
                old(self)@.index
            },
    {
        if self.peek_keyword(first) && self.peek_keyword_at(self.index + 1, second) {
            self.advance();
            self.advance();
            true
        } else {
            false
        }
    }

    /// Demand the keyword `kw`: consume it, or fail with a grammar error
    /// naming it, leaving the cursor where it stands.
    pub fn expect_keyword(&mut self, kw: Keyword) -> (r: Result<(), ParserError>)
        requires
            old(self).wf(),
        ensures
            final(self).wf(),
            final(self)@.tokens == old(self)@.tokens,
            ({
                let (res, j) = spec_expect_keyword(old(self)@.tokens, old(self)@.index, kw);
                final(self)@.index == j && (match r {
                    Ok(_) => res is Ok,
                    Err(e) => res matches Err(me) && e == me,
                })
            }),
    {
        if self.parse_keyword(kw) {
            Ok(())
        } else {
            Err(ParserError::ExpectedKeyword { expected: kw, pos: self.index })
        }
    }

    /// Parse a table reference: the next token must be a word, which names
    /// the table.
    pub fn parse_table_factor(&mut self) -> (r: Result<TableFactor, ParserError>)
        requires
            old(self).wf(),
        ensures
            final(self).wf(),
            final(self)@.tokens == old(self)@.tokens,
            ({
                let (res, j) = spec_parse_table_factor(old(self)@.tokens, old(self)@.index);
                final(self)@.index == j && result_matches(r, res)
            }),
    {
        if self.index < self.tokens.len() {
            let (is_word, value, quote_style) = match &self.tokens[self.index] {
                Token::Word(w) => (true, clone_chars(&w.value), w.quote_style),
                _ => (false, Vec::new(), None),
            };
            if is_word {
                self.index = self.index + 1;
                Ok(TableFactor { name: Ident { value, quote_style } })
            } else {
                Err(ParserError::ExpectedTableName { pos: self.index })
            }
        } else {
            Err(ParserError::ExpectedTableName { pos: self.index })
        }
    }

    fn parse_operand(&mut self) -> (r: Result<Operand, ParserError>)
        requires
            old(self).wf(),
        ensures
            final(self).wf(),
            final(self)@.tokens == old(self)@.tokens,
            ({
                let (res, j) = spec_parse_operand(old(self)@.tokens, old(self)@.index);
                final(self)@.index == j && result_matches(r, res)
            }),
    {
        if self.index < self.tokens.len() {
            match &self.tokens[self.index] {
                Token::Word(w) => {
                    let id = Ident { value: clone_chars(&w.value), quote_style: w.quote_style };
                    self.index = self.index + 1;
                    Ok(Operand::Identifier(id))
                },
                Token::Number(n) => {
                    let v = clone_chars(n);
                    self.index = self.index + 1;
                    Ok(Operand::Number(v))
                },
                _ => Err(ParserError::ExpectedExpression { pos: self.index }),
            }
        } else {
            Err(ParserError::ExpectedExpression { pos: self.index })
        }
    }

    /// Parse a boolean expression: an operand, optionally compared for
    /// equality with a second operand.
    pub fn parse_expr(&mut self) -> (r: Result<Expr, ParserError>)
        requires
            old(self).wf(),
        ensures
            final(self).wf(),
            final(self)@.tokens == old(self)@.tokens,
            ({
                let (res, j) = spec_parse_expr(old(self)@.tokens, old(self)@.index);
                final(self)@.index == j && result_matches(r, res)
            }),
    {
        let left = match self.parse_operand() {
            Ok(o) => o,
            Err(e) => {
                return Err(e);
            },
        };
        if self.peek_equals() {
            self.advance();
            let right = match self.parse_operand() {
                Ok(o) => o,
                Err(e) => {
                    return Err(e);
                },
            };
            Ok(Expr::Equals { left, right })
        } else {
            Ok(Expr::Operand(left))
        }
    }

    /// Parse one sort specification: an expression with an optional `ASC`
    /// or `DESC` direction.
    pub fn parse_order_by_expr(&mut self) -> (r: Result<OrderByExpr, ParserError>)
        requires
            old(self).wf(),
        ensures
            final(self).wf(),
            final(self)@.tokens == old(self)@.tokens,
            ({
                let (res, j) = spec_parse_order_by_expr(old(self)@.tokens, old(self)@.index);
                final(self)@.index == j && result_matches(r, res)
            }),
    {
        let expr = match self.parse_expr() {
            Ok(e) => e,
            Err(e) => {
                return Err(e);
            },
        };
        let asc = if self.parse_keyword(Keyword::ASC) {
            Some(true)
        } else if self.parse_keyword(Keyword::DESC) {
            Some(false)
        } else {
            None
        };
        Ok(OrderByExpr { expr, asc })
    }

    /// Parse a comma-separated, non-empty list of sort specifications.
    #[verifier::loop_isolation(false)]
    pub fn parse_order_by_list(&mut self) -> (r: Result<Vec<OrderByExpr>, ParserError>)
        requires
            old(self).wf(),
        ensures
            final(self).wf(),
            final(self)@.tokens == old(self)@.tokens,
            ({
                let (res, j) = spec_parse_order_by_list(old(self)@.tokens, old(self)@.index);
                final(self)@.index == j && order_by_list_matches(r, res)
            }),
    {
        let ghost toks = old(self)@.tokens;
        let ghost start = old(self)@.index;
        let mut out: Vec<OrderByExpr> = Vec::new();
        let first = match self.parse_order_by_expr() {
            Ok(o) => o,
            Err(e) => {
                return Err(e);
            },
        };
        out.push(first);
        proof {
            assert(order_by_models(out@) =~= seq![first@]);
        }
        while self.peek_comma()
            invariant
                self.wf(),
                self@.tokens == toks,
                0 <= start <= self@.index <= toks.len(),
                out@.len() > 0,
                ({
                    let (res, j) = spec_parse_order_by_list(toks, start);
                    if spec_peek_is_comma(toks, self@.index) {
                        match spec_parse_order_by_list(toks, self@.index + 1) {
                            (Ok(rest), k) => res == Ok::<Seq<OrderByExprModel>, ParserError>(
                                order_by_models(out@) + rest,
                            ) && j == k,
                            (Err(e), k) => res == Err::<Seq<OrderByExprModel>, ParserError>(e) && j
                                == k,
                        }
                    } else {
                        res == Ok::<Seq<OrderByExprModel>, ParserError>(order_by_models(out@)) && j
                            == self@.index
                    }
                }),
            decreases toks.len() - self@.index,
    {
            let ghost cur = self@.index;
            self.advance();
            proof {
                lemma_spec_parse_order_by_expr_bounds(toks, cur + 1);
            }
            let next = match self.parse_order_by_expr() {
                Ok(o) => o,
                Err(e) => {
                    return Err(e);
                },
            };
            let ghost prevout = out@;
            out.push(next);
            proof {
                let (rl, kl) = spec_parse_order_by_list(toks, cur + 1);
                assert(order_by_models(out@) =~= order_by_models(prevout) + seq![next@]);
                if spec_peek_is_comma(toks, self@.index) {
                    if let (Ok(rest), k3) = spec_parse_order_by_list(toks, self@.index + 1) {
                        assert(order_by_models(prevout) + (seq![next@] + rest) =~= order_by_models(
                            out@,
                        ) + rest);
                    }
                }
            }
        }
        Ok(out)
    }

    /// Parse a row limit, after the `LIMIT` keyword has been consumed:
    /// `ALL` means no bound, a number is the bound.
    pub fn parse_limit(&mut self) -> (r: Result<Option<Expr>, ParserError>)
        requires
            old(self).wf(),
        ensures
            final(self).wf(),
            final(self)@.tokens == old(self)@.tokens,
            ({
                let (res, j) = spec_parse_limit(old(self)@.tokens, old(self)@.index);
                final(self)@.index == j && limit_matches(r, res)
            }),
    {
        if self.parse_keyword(Keyword::ALL) {
            Ok(None)
        } else if self.index < self.tokens.len() {
            match &self.tokens[self.index] {
                Token::Number(n) => {
                    let v = clone_chars(n);
                    self.index = self.index + 1;
                    Ok(Some(Expr::Operand(Operand::Number(v))))
                },
                _ => Err(ParserError::ExpectedLimit { pos: self.index }),
            }
        } else {
            Err(ParserError::ExpectedLimit { pos: self.index })
        }
    }

    /// The generic statement grammar: the statement forms every dialect
    /// shares. This minimal core understands only `SELECT expression`.
    pub fn parse_generic_statement(&mut self) -> (r: Result<Statement, ParserError>)
        requires
            old(self).wf(),
        ensures
            final(self).wf(),
            final(self)@.tokens == old(self)@.tokens,
            ({
                let (res, j) = spec_parse_generic_statement(old(self)@.tokens, old(self)@.index);
                final(self)@.index == j && result_matches(r, res)
            }),
    {
        if self.parse_keyword(Keyword::SELECT) {
            match self.parse_expr() {
                Ok(e) => Ok(Statement::Select { projection: e }),
                Err(e) => Err(e),
            }
        } else {
            Err(ParserError::ExpectedStatement { pos: self.index })
        }
    }
}

} // verus!
