//! Tests for the string utilities: ordering, parsing, sorted sets and the
//! lexer.

use inferxlib::common::Error;
use inferxlib::selector_parse::{IsSpecialSymbol, IsWhitespace, Lexer, Token};
use inferxlib::strutil::{parse_i64, parse_u64, sorted_insert, str_le, str_lt};

#[test]
fn code_point_order() {
    assert!(str_le("", ""));
    assert!(str_le("", "a"));
    assert!(!str_le("a", ""));
    assert!(str_le("abc", "abd"));
    assert!(str_le("abc", "abc"));
    assert!(!str_le("abd", "abc"));
    assert!(str_le("ab", "abc"));
    assert!(str_lt("ab", "abc"));
    assert!(!str_lt("abc", "abc"));
    assert!(str_lt("A", "a"));
}

#[test]
fn parse_u64_matches_std() {
    for s in ["0", "42", "+42", "18446744073709551615", "007"] {
        assert_eq!(parse_u64(s), s.parse::<u64>().ok(), "input {s}");
    }
    for s in ["", "+", "-", "-1", "4x2", " 42", "42 ", "18446744073709551616"] {
        assert_eq!(parse_u64(s), s.parse::<u64>().ok(), "input {s}");
    }
}

#[test]
fn parse_i64_matches_std() {
    for s in [
        "0",
        "-0",
        "42",
        "+42",
        "-42",
        "9223372036854775807",
        "-9223372036854775808",
    ] {
        assert_eq!(parse_i64(s), s.parse::<i64>().ok(), "input {s}");
    }
    for s in ["", "+", "-", "4x2", "9223372036854775808", "-9223372036854775809", "--1"] {
        assert_eq!(parse_i64(s), s.parse::<i64>().ok(), "input {s}");
    }
}

#[test]
fn sorted_insert_keeps_order_and_drops_duplicates() {
    let mut v: Vec<String> = Vec::new();
    for s in ["pear", "apple", "mango", "apple", "banana"] {
        sorted_insert(&mut v, s.to_owned());
    }
    assert_eq!(v, vec!["apple", "banana", "mango", "pear"]);
}

#[test]
fn character_classes() {
    assert!(IsWhitespace(' '));
    assert!(IsWhitespace('\t'));
    assert!(IsWhitespace('\r'));
    assert!(IsWhitespace('\n'));
    assert!(!IsWhitespace('x'));
    for c in ['=', '!', '(', ')', ',', '>', '<'] {
        assert!(IsSpecialSymbol(c));
    }
    assert!(!IsSpecialSymbol('a'));
}

#[test]
fn lexer_produces_the_token_stream() {
    let mut lexer = Lexer { s: "key in ( a, b ) != x".chars().collect(), pos: 0 };
    let expect = [
        (Token::IdentifierToken, "key"),
        (Token::InToken, "in"),
        (Token::OpenParToken, "("),
        (Token::IdentifierToken, "a"),
        (Token::CommaToken, ","),
        (Token::IdentifierToken, "b"),
        (Token::ClosedParToken, ")"),
        (Token::NotEqualsToken, "!="),
        (Token::IdentifierToken, "x"),
        (Token::EndOfStringToken, ""),
    ];
    for (tok, lit) in expect {
        let (t, l) = lexer.Lex();
        assert_eq!(t, tok);
        assert_eq!(l, lit);
    }
}

#[test]
fn lexer_splits_greedily_on_specials() {
    let mut lexer = Lexer { s: "a==b".chars().collect(), pos: 0 };
    assert_eq!(lexer.Lex().0, Token::IdentifierToken);
    assert_eq!(lexer.Lex(), (Token::DoubleEqualsToken, "==".to_owned()));
    assert_eq!(lexer.Lex(), (Token::IdentifierToken, "b".to_owned()));

    let mut lexer2 = Lexer { s: "x!y".chars().collect(), pos: 0 };
    assert_eq!(lexer2.Lex().1, "x");
    assert_eq!(lexer2.Lex(), (Token::DoesNotExistToken, "!".to_owned()));
}

#[test]
fn error_kind_names_the_variant() {
    assert_eq!(Error::CommonError(String::new()).Kind(), "CommonError");
    assert_eq!(Error::NotExist(String::new()).Kind(), "NotExist");
    assert_eq!(Error::Exist(String::new()).Kind(), "Exist");
    assert_eq!(
        Error::SchedulerNoEnoughResource(String::new()).Kind(),
        "SchedulerNoEnoughResource"
    );
}
