//! Tokens, and the tokenizer that scans a character sequence into them.
//! The tokenizer is parameterized by a dialect: the dialect's capability
//! functions decide which characters may start or continue a bare
//! identifier and which character opens a quoted identifier.

use vstd::prelude::*;
use crate::dialect::Dialect;
use crate::keywords::Keyword;
use crate::keywords::keyword_of;
use crate::keywords::spec_keyword_of;

verus! {

/// A word token: a bare or quoted identifier or keyword. For a bare word,
/// `keyword` records the keyword its spelling denotes (or `NoKeyword`);
/// a quoted word never denotes a keyword.
#[derive(Clone, Debug, PartialEq, Eq)]
pub struct Word {
    pub value: Vec<char>,
    pub quote_style: Option<char>,
    pub keyword: Keyword,
}

pub ghost struct WordModel {
    pub value: Seq<char>,
    pub quote_style: Option<char>,
    pub keyword: Keyword,
}

impl View for Word {
    type V = WordModel;

    open spec fn view(&self) -> WordModel {
        WordModel { value: self.value@, quote_style: self.quote_style, keyword: self.keyword }
    }
}

/// One token of the stream the parser walks.
#[derive(Clone, Debug, PartialEq, Eq)]
pub enum Token {
    Word(Word),
    Number(Vec<char>),
    Comma,
    Equals,
}

pub ghost enum TokenModel {
    Word(WordModel),
    Number(Seq<char>),
    Comma,
    Equals,
}

impl View for Token {
    type V = TokenModel;

    open spec fn view(&self) -> TokenModel {
        match self {
            Token::Word(w) => TokenModel::Word(w@),
            Token::Number(n) => TokenModel::Number(n@),
            Token::Comma => TokenModel::Comma,
            Token::Equals => TokenModel::Equals,
        }
    }
}

/// The models of a token sequence.
pub open spec fn token_models(ts: Seq<Token>) -> Seq<TokenModel> {
    ts.map_values(|t: Token| t@)
}

/// A lexical error. `pos` is the index, in the scanned character sequence,
/// of the character at fault.
#[derive(Clone, Copy, Debug, PartialEq, Eq, Structural)]
pub enum TokenizerError {
    /// A quoted identifier was opened and its closing delimiter never came.
    UnterminatedQuotedIdentifier { pos: usize },
    /// A character no rule of the dialect covers.
    UnexpectedCharacter { pos: usize, ch: char },
}

pub open spec fn spec_is_whitespace(c: char) -> bool {
    c == ' ' || c == '\t' || c == '\n' || c == '\r'
}

pub open spec fn spec_is_ascii_digit(c: char) -> bool {
    48 <= c as u32 && c as u32 <= 57
}

fn is_whitespace(c: char) -> (r: bool)
    ensures
        r == spec_is_whitespace(c),
{
    c == ' ' || c == '\t' || c == '\n' || c == '\r'
}

fn is_ascii_digit(c: char) -> (r: bool)
    ensures
        r == spec_is_ascii_digit(c),
{
    let u = c as u32;
    48 <= u && u <= 57
}

/// The number of consecutive characters of `s`, from index `i` on, that
/// satisfy `pred`.
pub open spec fn prefix_len(s: Seq<char>, i: int, pred: spec_fn(char) -> bool) -> nat
    decreases s.len() - i,
{
    if i < 0 || i >= s.len() {
        0
    } else if pred(s[i]) {
        (1 + prefix_len(s, i + 1, pred)) as nat
    } else {
        0
    }
}

pub proof fn lemma_prefix_len_bound(s: Seq<char>, i: int, pred: spec_fn(char) -> bool)
    requires
        0 <= i <= s.len(),
    ensures
        i + prefix_len(s, i, pred) <= s.len(),
    decreases s.len() - i,
{
    if i < s.len() && pred(s[i]) {
        lemma_prefix_len_bound(s, i + 1, pred);
    }
}

pub proof fn lemma_prefix_len_exact(s: Seq<char>, i: int, j: int, pred: spec_fn(char) -> bool)
    requires
        0 <= i <= j <= s.len(),
        forall|k: int| i <= k < j ==> pred(#[trigger] s[k]),
        j == s.len() || !pred(s[j]),
    ensures
        prefix_len(s, i, pred) == j - i,
    decreases j - i,
{
    if i < j {
        lemma_prefix_len_exact(s, i + 1, j, pred);
    }
}

/// The characters that may continue a bare identifier of dialect `d`.
pub open spec fn part_pred<D: Dialect>(d: &D) -> spec_fn(char) -> bool {
    |c: char| d.spec_is_identifier_part(c)
}

/// The ASCII digits.
pub open spec fn digit_pred() -> spec_fn(char) -> bool {
    |c: char| spec_is_ascii_digit(c)
}

/// Every character but `q`.
pub open spec fn not_char_pred(q: char) -> spec_fn(char) -> bool {
    |c: char| c != q
}

/// The tokens of `s` from index `i` on, under dialect `d`'s lexical rules:
/// whitespace separates and is dropped; a delimited-identifier opener
/// starts a quoted identifier running to the next occurrence of the same
/// delimiter (unterminated is a lexical error); an identifier-start
/// character starts a bare word, which runs through every following
/// identifier-part character and carries the keyword its spelling denotes;
/// a digit starts a number; `,` and `=` stand alone; anything else is a
/// lexical error.
pub open spec fn spec_tokenize_from<D: Dialect>(d: &D, s: Seq<char>, i: int) -> Result<
    Seq<TokenModel>,
    TokenizerError,
>
    decreases s.len() - i,
{
    if i < 0 || i >= s.len() {
        Ok(seq![])
    } else {
        let c = s[i];
        if spec_is_whitespace(c) {
            spec_tokenize_from(d, s, i + 1)
        } else if d.spec_is_delimited_identifier_start(c) {
            let n = prefix_len(s, i + 1, not_char_pred(c)) as int;
            if i + 1 + n >= s.len() {
                Err(TokenizerError::UnterminatedQuotedIdentifier { pos: i as usize })
            } else {
                let w = TokenModel::Word(
                    WordModel {
                        value: s.subrange(i + 1, i + 1 + n),
                        quote_style: Some(c),
                        keyword: Keyword::NoKeyword,
                    },
                );
                match spec_tokenize_from(d, s, i + 2 + n) {
                    Ok(rest) => Ok(seq![w] + rest),
                    Err(e) => Err(e),
                }
            }
        } else if d.spec_is_identifier_start(c) {
            proof {
                lemma_prefix_len_bound(s, i + 1, part_pred(d));
            }
            let j = i + 1 + prefix_len(s, i + 1, part_pred(d));
            let w = TokenModel::Word(
                WordModel {
                    value: s.subrange(i, j),
                    quote_style: None,
                    keyword: spec_keyword_of(s.subrange(i, j)),
                },
            );
            match spec_tokenize_from(d, s, j) {
                Ok(rest) => Ok(seq![w] + rest),
                Err(e) => Err(e),
            }
        } else if spec_is_ascii_digit(c) {
            proof {
                lemma_prefix_len_bound(s, i + 1, digit_pred());
            }
            let j = i + 1 + prefix_len(s, i + 1, digit_pred());
            match spec_tokenize_from(d, s, j) {
                Ok(rest) => Ok(seq![TokenModel::Number(s.subrange(i, j))] + rest),
                Err(e) => Err(e),
            }
        } else if c == ',' {
            match spec_tokenize_from(d, s, i + 1) {
                Ok(rest) => Ok(seq![TokenModel::Comma] + rest),
                Err(e) => Err(e),
            }
        } else if c == '=' {
            match spec_tokenize_from(d, s, i + 1) {
                Ok(rest) => Ok(seq![TokenModel::Equals] + rest),
                Err(e) => Err(e),
            }
        } else {
            Err(TokenizerError::UnexpectedCharacter { pos: i as usize, ch: c })
        }
    }
}

fn scan_while_part<D: Dialect>(d: &D, s: &Vec<char>, start: usize) -> (j: usize)
    requires
        start <= s@.len(),
    ensures
        start <= j <= s@.len(),
        j - start == prefix_len(s@, start as int, part_pred(d)),
{
    let mut j: usize = start;
    while j < s.len() && d.is_identifier_part(s[j])
        invariant
            start <= j <= s@.len(),
            forall|k: int| start <= k < j ==> (part_pred(d))(#[trigger] s@[k]),
        decreases s@.len() - j,
    {
        j = j + 1;
    }
    proof {
        lemma_prefix_len_exact(s@, start as int, j as int, part_pred(d));
    }
    j
}

fn scan_while_digit(s: &Vec<char>, start: usize) -> (j: usize)
    requires
        start <= s@.len(),
    ensures
        start <= j <= s@.len(),
        j - start == prefix_len(s@, start as int, digit_pred()),
{
    let mut j: usize = start;
    while j < s.len() && is_ascii_digit(s[j])
        invariant
            start <= j <= s@.len(),
            forall|k: int| start <= k < j ==> (digit_pred())(#[trigger] s@[k]),
        decreases s@.len() - j,
    {
        j = j + 1;
    }
    proof {
        lemma_prefix_len_exact(s@, start as int, j as int, digit_pred());
    }
    j
}

fn scan_until_char(s: &Vec<char>, start: usize, q: char) -> (j: usize)
    requires
        start <= s@.len(),
    ensures
        start <= j <= s@.len(),
        j - start == prefix_len(s@, start as int, not_char_pred(q)),
        j < s@.len() ==> s@[j as int] == q,
{
    let mut j: usize = start;
    while j < s.len() && s[j] != q
        invariant
            start <= j <= s@.len(),
            forall|k: int| start <= k < j ==> (not_char_pred(q))(#[trigger] s@[k]),
        decreases s@.len() - j,
    {
        j = j + 1;
    }
    proof {
        lemma_prefix_len_exact(s@, start as int, j as int, not_char_pred(q));
    }
    j
}

fn copy_range(s: &Vec<char>, from: usize, to: usize) -> (v: Vec<char>)
    requires
        from <= to <= s@.len(),
    ensures
        v@ == s@.subrange(from as int, to as int),
{
    let mut v: Vec<char> = Vec::new();
    let mut k: usize = from;
    while k < to
        invariant
            from <= k <= to <= s@.len(),
            v@ == s@.subrange(from as int, k as int),
        decreases to - k,
    {
        v.push(s[k]);
        proof {
            assert(v@ =~= s@.subrange(from as int, k as int + 1));
        }
        k = k + 1;
    }
    v
}

proof fn lemma_models_push_assoc(a: Seq<Token>, b: Seq<Token>, t: Token, rest: Seq<TokenModel>)
    requires
        b == a.push(t),
    ensures
        token_models(b) + rest == token_models(a) + (seq![t@] + rest),
{
    assert(token_models(b) =~= token_models(a) + seq![t@]);
    assert((token_models(a) + seq![t@]) + rest =~= token_models(a) + (seq![t@] + rest));
}

fn tokenize_from<D: Dialect>(d: &D, s: &Vec<char>, i: usize, out: &mut Vec<Token>) -> (r: Result<
    (),
    TokenizerError,
>)
    requires
        i <= s@.len(),
    ensures
        ({
            match spec_tokenize_from(d, s@, i as int) {
                Ok(ts) => r is Ok && token_models(final(out)@) == token_models(old(out)@) + ts,
                Err(e) => r matches Err(e2) && e2 == e,
            }
        }),
    decreases s@.len() - i,
{
    if i >= s.len() {
        proof {
            assert(token_models(out@) =~= token_models(out@) + Seq::<TokenModel>::empty());
        }
        return Ok(());
    }
    let c = s[i];
    if is_whitespace(c) {
        tokenize_from(d, s, i + 1, out)
    } else if d.is_delimited_identifier_start(c) {
        let j = scan_until_char(s, i + 1, c);
        if j >= s.len() {
            Err(TokenizerError::UnterminatedQuotedIdentifier { pos: i })
        } else {
            let value = copy_range(s, i + 1, j);
            let ghost out0 = out@;
            let tok = Token::Word(Word { value, quote_style: Some(c), keyword: Keyword::NoKeyword });
            out.push(tok);
            let ghost out1 = out@;
            let r = tokenize_from(d, s, j + 1, out);
            proof {
                if let Ok(rest) = spec_tokenize_from(d, s@, j as int + 1) {
                    lemma_models_push_assoc(out0, out1, tok, rest);
                }
            }
            r
        }
    } else if d.is_identifier_start(c) {
        let j = scan_while_part(d, s, i + 1);
        let value = copy_range(s, i, j);
        let kw = keyword_of(&value);
        let ghost out0 = out@;
        let tok = Token::Word(Word { value, quote_style: None, keyword: kw });
        out.push(tok);
        let ghost out1 = out@;
        let r = tokenize_from(d, s, j, out);
        proof {
            if let Ok(rest) = spec_tokenize_from(d, s@, j as int) {
                lemma_models_push_assoc(out0, out1, tok, rest);
            }
        }
        r
    } else if is_ascii_digit(c) {
        let j = scan_while_digit(s, i + 1);
        let value = copy_range(s, i, j);
        let ghost out0 = out@;
        let tok = Token::Number(value);
        out.push(tok);
        let ghost out1 = out@;
        let r = tokenize_from(d, s, j, out);
        proof {
            if let Ok(rest) = spec_tokenize_from(d, s@, j as int) {
                lemma_models_push_assoc(out0, out1, tok, rest);
            }
        }
        r
    } else if c == ',' {
        let ghost out0 = out@;
        out.push(Token::Comma);
        let ghost out1 = out@;
        let r = tokenize_from(d, s, i + 1, out);
        proof {
            if let Ok(rest) = spec_tokenize_from(d, s@, i as int + 1) {
                lemma_models_push_assoc(out0, out1, Token::Comma, rest);
            }
        }
        r
    } else if c == '=' {
        let ghost out0 = out@;
        out.push(Token::Equals);
        let ghost out1 = out@;
        let r = tokenize_from(d, s, i + 1, out);
        proof {
            if let Ok(rest) = spec_tokenize_from(d, s@, i as int + 1) {
                lemma_models_push_assoc(out0, out1, Token::Equals, rest);
            }
        }
        r
    } else {
        Err(TokenizerError::UnexpectedCharacter { pos: i, ch: c })
    }
}

/// Scan `query` into its token stream under `dialect`'s lexical rules.
/// The result — token for token, error for error — is pinned by
/// `spec_tokenize_from` at position zero.
pub fn tokenize<D: Dialect>(dialect: &D, query: &Vec<char>) -> (r: Result<
    Vec<Token>,
    TokenizerError,
>)
    ensures
        ({
            match spec_tokenize_from(dialect, query@, 0) {
                Ok(ts) => r matches Ok(v) && token_models(v@) == ts,
                Err(e) => r matches Err(e2) && e2 == e,
            }
        }),
{
    let mut out: Vec<Token> = Vec::new();
    let ghost empty = out@;
    match tokenize_from(dialect, query, 0, &mut out) {
        Ok(done) => {
            proof {
                if let Ok(ts) = spec_tokenize_from(dialect, query@, 0) {
                    assert(token_models(empty) + ts =~= ts);
                }
            }
            Ok(out)
        },
        Err(e) => Err(e),
    }
}

} // verus!
