//! The dialect capability contract, and the driver that offers a dialect
//! first refusal on each statement.
//!
//! A dialect is a stateless capability object: it answers the lexical
//! questions the tokenizer asks, and it may intercept statement parsing
//! before the generic grammar runs. Declining is ordinary control flow,
//! not an error: a dialect that declines must leave the cursor exactly
//! where it stood, so the generic grammar sees the very token stream it
//! would have seen had the interceptor never run.

pub mod mysql;

use vstd::prelude::*;
use crate::ast::Statement;
use crate::ast::StatementModel;
use crate::parser::Parser;
use crate::parser::ParserError;
use crate::parser::result_matches;
use crate::parser::spec_parse_generic_statement;
use crate::tokenizer::TokenModel;
use crate::tokenizer::spec_is_ascii_digit;

verus! {

/// The capability set a SQL dialect implements: identifier classification
/// for the tokenizer, and statement interception for the parser.
pub trait Dialect: Sized {
    /// `c` opens a quoted identifier in this dialect.
    spec fn spec_is_delimited_identifier_start(&self, c: char) -> bool;

    /// `c` may begin a bare identifier in this dialect.
    spec fn spec_is_identifier_start(&self, c: char) -> bool;

    /// `c` may continue an already-started bare identifier.
    spec fn spec_is_identifier_part(&self, c: char) -> bool;

    /// What this dialect's interceptor does with the statement starting at
    /// token `i`: `None` when it declines (the token claims no keyword of
    /// this dialect), or `Some((result, j))` when it commits, with the
    /// parse's outcome and the cursor position it ends at.
    spec fn spec_parse_statement(&self, toks: Seq<TokenModel>, i: int) -> Option<
        (Result<StatementModel, ParserError>, int),
    >;

    /// The lexical rules every dialect must keep mutually consistent:
    /// every identifier-start character is also an identifier-part
    /// character (else the tokenizer's scanning loop would break), and an
    /// ASCII digit may continue an identifier but never start one (else
    /// identifier lexing would be ambiguous against numeric literals).
    proof fn lemma_identifier_rules(&self)
        ensures
            forall|c: char| self.spec_is_identifier_start(c) ==> self.spec_is_identifier_part(c),
            forall|c: char|
                spec_is_ascii_digit(c) ==> self.spec_is_identifier_part(c)
                    && !self.spec_is_identifier_start(c),
    ;

    fn is_delimited_identifier_start(&self, c: char) -> (r: bool)
        ensures
            r == self.spec_is_delimited_identifier_start(c),
    ;

    fn is_identifier_start(&self, c: char) -> (r: bool)
        ensures
            r == self.spec_is_identifier_start(c),
    ;

    fn is_identifier_part(&self, c: char) -> (r: bool)
        ensures
            r == self.spec_is_identifier_part(c),
    ;

    /// Offer this dialect the statement the cursor stands at. Either it
    /// declines — returning `None` with the cursor exactly where it stood —
    /// or it commits and parses its own grammar, whose outcome and end
    /// position are pinned by `spec_parse_statement`.
    fn parse_statement(&self, parser: &mut Parser) -> (r: Option<Result<Statement, ParserError>>)
        requires
            old(parser).wf(),
        ensures
            final(parser).wf(),
            final(parser)@.tokens == old(parser)@.tokens,
            ({
                match self.spec_parse_statement(old(parser)@.tokens, old(parser)@.index) {
                    None => r is None && final(parser)@ == old(parser)@,
                    Some((res, j)) => final(parser)@.index == j && (r matches Some(rr)
                        && result_matches(rr, res)),
                }
            }),
    ;
}

/// What parsing one statement under dialect `d` yields: the dialect's own
/// grammar where it claims the statement, the generic grammar where it
/// declines.
pub open spec fn spec_parse_top_level<D: Dialect>(d: &D, toks: Seq<TokenModel>, i: int) -> (Result<
    StatementModel,
    ParserError,
>, int) {
    match d.spec_parse_statement(toks, i) {
        Some(x) => x,
        None => spec_parse_generic_statement(toks, i),
    }
}

/// Parse one statement: offer the dialect first refusal, and fall back to
/// the generic statement grammar when it declines.
pub fn parse_top_level<D: Dialect>(dialect: &D, parser: &mut Parser) -> (r: Result<
    Statement,
    ParserError,
>)
    requires
        old(parser).wf(),
    ensures
        final(parser).wf(),
        final(parser)@.tokens == old(parser)@.tokens,
        ({
            let (res, j) = spec_parse_top_level(dialect, old(parser)@.tokens, old(parser)@.index);
            final(parser)@.index == j && result_matches(r, res)
        }),
{
    match dialect.parse_statement(parser) {
        Some(result) => result,
        None => parser.parse_generic_statement(),
    }
}

/// The decline path is lossless: when a dialect declines a statement, the
/// driver's outcome — result and final cursor position alike — is exactly
/// the outcome of running the generic grammar with no interceptor at all.
pub proof fn lemma_decline_lossless<D: Dialect>(d: &D, toks: Seq<TokenModel>, i: int)
    requires
        d.spec_parse_statement(toks, i) is None,
    ensures
        spec_parse_top_level(d, toks, i) == spec_parse_generic_statement(toks, i),
{
}

} // verus!
