use minilang::lexer::{lex_file, LexError};
use minilang::token::TokenKind;

#[test]
fn lex_simple_tokens() {
    let src = "( ) { } ; + - * / % , : -> <= < >= > == != ->";
    // include arrow twice intentionally
    let tokens = lex_file(src).expect("lexing failed");
    // ensure the end-of-stream token is last
    assert_eq!(tokens.last().unwrap().kind, TokenKind::Eof);
    // Check that some known tokens appear in order (spot check)
    let kinds: Vec<_> = tokens.iter().map(|t| &t.kind).collect();
    assert!(kinds.contains(&&TokenKind::LParen));
    assert!(kinds.contains(&&TokenKind::LessEqual));
    assert!(kinds.contains(&&TokenKind::GreaterEqual));
    assert!(kinds.contains(&&TokenKind::EqualEqual));
    assert!(kinds.contains(&&TokenKind::NotEqual));
}

#[test]
fn lex_number_value() {
    let tokens = lex_file("1234567890").expect("lexing failed");
    assert_eq!(tokens.len(), 2);
    assert_eq!(tokens[0].kind, TokenKind::Int(1234567890));
    assert_eq!(tokens[0].span.start, 0);
    assert_eq!(tokens[0].span.end, 10);
    assert_eq!(tokens[1].kind, TokenKind::Eof);
}

#[test]
fn lex_number_max_value() {
    let tokens = lex_file("9223372036854775807").expect("lexing failed");
    assert_eq!(tokens[0].kind, TokenKind::Int(i64::MAX));
}

#[test]
fn lex_invalid_number_errors() {
    let err = lex_file("9223372036854775808").expect_err("expected invalid-number error");
    match err {
        LexError::InvalidNumber { span } => {
            assert_eq!(span.start, 0);
            assert_eq!(span.end, 19);
        }
        _ => panic!("unexpected error variant"),
    }
}

#[test]
fn lex_unexpected_char_errors() {
    let err = lex_file("let @").expect_err("expected unexpected-character error");
    match err {
        LexError::UnexpectedChar { ch, span } => {
            assert_eq!(ch, '@');
            assert_eq!(span.start, 4);
            assert_eq!(span.end, 5);
        }
        _ => panic!("unexpected error variant"),
    }
}

#[test]
fn lex_bare_bang_errors() {
    let err = lex_file("1 ! 2").expect_err("expected unexpected-character error");
    match err {
        LexError::UnexpectedChar { ch, .. } => assert_eq!(ch, '!'),
        _ => panic!("unexpected error variant"),
    }
}

#[test]
fn lex_skips_comments() {
    let tokens = lex_file("1 // first\n2").expect("lexing failed");
    assert_eq!(tokens.len(), 3);
    assert_eq!(tokens[0].kind, TokenKind::Int(1));
    assert_eq!(tokens[1].kind, TokenKind::Int(2));
    assert_eq!(tokens[2].kind, TokenKind::Eof);
}

#[test]
fn lex_keywords_and_identifiers() {
    let tokens = lex_file("letx let Int while_ while").expect("lexing failed");
    assert_eq!(tokens[0].kind, TokenKind::Ident(String::from("letx")));
    assert_eq!(tokens[1].kind, TokenKind::Let);
    assert_eq!(tokens[2].kind, TokenKind::IntType);
    assert_eq!(tokens[3].kind, TokenKind::Ident(String::from("while_")));
    assert_eq!(tokens[4].kind, TokenKind::While);
}
