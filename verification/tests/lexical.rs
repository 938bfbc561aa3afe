use sqlparser::dialect::Dialect;
use sqlparser::dialect::mysql::MySqlDialect;
use sqlparser::keywords::Keyword;
use sqlparser::keywords::keyword_of;
use sqlparser::tokenizer::Token;
use sqlparser::tokenizer::TokenizerError;
use sqlparser::tokenizer::tokenize;

fn chars(text: &str) -> Vec<char> {
    text.chars().collect()
}

fn string_of(value: &[char]) -> String {
    value.iter().collect()
}

#[test]
fn identifier_start_accepts_letters_underscore_and_sigils() {
    let dialect = MySqlDialect {};
    for c in ['a', 'z', 'A', 'Z', '_', '$', '@', '\u{0080}', '\u{00e9}', '\u{ffff}'] {
        assert!(dialect.is_identifier_start(c), "expected start: {c:?}");
    }
    for c in ['`', ' ', ',', '=', '-', '\u{10000}'] {
        assert!(!dialect.is_identifier_start(c), "expected not start: {c:?}");
    }
}

#[test]
fn ascii_digits_continue_but_never_start_identifiers() {
    let dialect = MySqlDialect {};
    for d in '0'..='9' {
        assert!(!dialect.is_identifier_start(d), "digit must not start: {d:?}");
        assert!(dialect.is_identifier_part(d), "digit must continue: {d:?}");
    }
}

#[test]
fn every_identifier_start_is_an_identifier_part() {
    let dialect = MySqlDialect {};
    for u in 0..=0x10FFFFu32 {
        if let Some(c) = char::from_u32(u) {
            if dialect.is_identifier_start(c) {
                assert!(dialect.is_identifier_part(c), "inconsistent at {c:?}");
            }
        }
    }
}

#[test]
fn only_backtick_opens_a_delimited_identifier() {
    let dialect = MySqlDialect {};
    assert!(dialect.is_delimited_identifier_start('`'));
    assert!(!dialect.is_delimited_identifier_start('"'));
    assert!(!dialect.is_delimited_identifier_start('\''));
    assert!(!dialect.is_delimited_identifier_start('a'));
}

#[test]
fn keyword_lookup_is_case_insensitive() {
    assert_eq!(keyword_of(&chars("DELETE")), Keyword::DELETE);
    assert_eq!(keyword_of(&chars("delete")), Keyword::DELETE);
    assert_eq!(keyword_of(&chars("DeLeTe")), Keyword::DELETE);
    assert_eq!(keyword_of(&chars("from")), Keyword::FROM);
    assert_eq!(keyword_of(&chars("limit")), Keyword::LIMIT);
    assert_eq!(keyword_of(&chars("deleted")), Keyword::NoKeyword);
    assert_eq!(keyword_of(&chars("tbl")), Keyword::NoKeyword);
    assert_eq!(keyword_of(&chars("")), Keyword::NoKeyword);
}

#[test]
fn backtick_quoted_identifier_is_one_token() {
    let dialect = MySqlDialect {};
    let tokens = tokenize(&dialect, &chars("`my col` x")).unwrap();
    assert_eq!(tokens.len(), 2);
    match &tokens[0] {
        Token::Word(w) => {
            assert_eq!(string_of(&w.value), "my col");
            assert_eq!(w.quote_style, Some('`'));
            assert_eq!(w.keyword, Keyword::NoKeyword);
        },
        other => panic!("expected a word token, got {other:?}"),
    }
    match &tokens[1] {
        Token::Word(w) => {
            assert_eq!(string_of(&w.value), "x");
            assert_eq!(w.quote_style, None);
        },
        other => panic!("expected a word token, got {other:?}"),
    }
}

#[test]
fn tokenizer_tags_keywords_and_keeps_spelling() {
    let dialect = MySqlDialect {};
    let tokens = tokenize(&dialect, &chars("delete FROM t2, 10 =")).unwrap();
    assert_eq!(tokens.len(), 6);
    match &tokens[0] {
        Token::Word(w) => {
            assert_eq!(string_of(&w.value), "delete");
            assert_eq!(w.keyword, Keyword::DELETE);
        },
        other => panic!("expected a word token, got {other:?}"),
    }
    match &tokens[1] {
        Token::Word(w) => assert_eq!(w.keyword, Keyword::FROM),
        other => panic!("expected a word token, got {other:?}"),
    }
    match &tokens[2] {
        Token::Word(w) => {
            assert_eq!(string_of(&w.value), "t2");
            assert_eq!(w.keyword, Keyword::NoKeyword);
        },
        other => panic!("expected a word token, got {other:?}"),
    }
    assert_eq!(tokens[3], Token::Comma);
    match &tokens[4] {
        Token::Number(n) => assert_eq!(string_of(n), "10"),
        other => panic!("expected a number token, got {other:?}"),
    }
    assert_eq!(tokens[5], Token::Equals);
}

#[test]
fn unterminated_quoted_identifier_is_a_lexical_error() {
    let dialect = MySqlDialect {};
    let result = tokenize(&dialect, &chars("`abc"));
    assert_eq!(
        result,
        Err(TokenizerError::UnterminatedQuotedIdentifier { pos: 0 })
    );
}

#[test]
fn uncovered_character_is_a_lexical_error() {
    let dialect = MySqlDialect {};
    let result = tokenize(&dialect, &chars("a ; b"));
    assert_eq!(
        result,
        Err(TokenizerError::UnexpectedCharacter { pos: 2, ch: ';' })
    );
}
