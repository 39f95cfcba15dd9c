use rlox::error::{LoxError, SyntaxError};
use rlox::keywords::keyword_or_identifier;
use rlox::scanner::Scanner;
use rlox::token::{Object, Token, TokenType};

#[test]
fn token_new_keeps_its_parts() {
    let t = Token::new(
        TokenType::String,
        "\"hi\"".to_string(),
        Some(Object::Str("hi".to_string())),
        3,
        (7, 11),
    );
    assert_eq!(t.ttype, TokenType::String);
    assert_eq!(t.lexeme, "\"hi\"");
    assert_eq!(t.literal, Some(Object::Str("hi".to_string())));
    assert_eq!(t.line, 3);
    assert_eq!(t.span, (7, 11));
}

#[test]
fn token_eof_has_empty_span() {
    let t = Token::eof(5, 42);
    assert_eq!(t.ttype, TokenType::EOF);
    assert_eq!(t.lexeme, "");
    assert_eq!(t.literal, None);
    assert_eq!(t.line, 5);
    assert_eq!(t.span, (42, 42));
}

#[test]
fn syntax_error_new_takes_position_from_token() {
    let t = Token::new(TokenType::Bang, "!".to_string(), None, 2, (4, 5));
    let e = SyntaxError::new(&t, "boom".to_string(), "fix it".to_string());
    assert_eq!(e.line, 2);
    assert_eq!(e.span, (4, 5));
    assert_eq!(e.err_message, "boom");
    assert_eq!(e.help_message, "fix it");
}

#[test]
fn runtime_error_takes_position_from_token() {
    let t = Token::new(TokenType::Plus, "+".to_string(), None, 7, (1, 2));
    let e = LoxError::new_runtime_err(&t, "bad math".to_string(), "check operands".to_string());
    match e {
        LoxError::RuntimeError { line, span, err_message, help_message } => {
            assert_eq!(line, 7);
            assert_eq!(span, (1, 2));
            assert_eq!(err_message, "bad math");
            assert_eq!(help_message, "check operands");
        }
        other => panic!("expected a runtime error, got {:?}", other),
    }
}

#[test]
fn all_sixteen_keywords_are_reserved() {
    let table = [
        ("and", TokenType::And),
        ("class", TokenType::Class),
        ("else", TokenType::Else),
        ("false", TokenType::False),
        ("for", TokenType::For),
        ("fun", TokenType::Fun),
        ("if", TokenType::If),
        ("nil", TokenType::Nil),
        ("or", TokenType::Or),
        ("print", TokenType::Print),
        ("return", TokenType::Return),
        ("super", TokenType::Super),
        ("this", TokenType::This),
        ("true", TokenType::True),
        ("var", TokenType::Var),
        ("while", TokenType::While),
    ];
    for (spelling, expected) in table {
        assert_eq!(keyword_or_identifier(&spelling.to_string()), expected);
    }
}

#[test]
fn near_keywords_are_plain_identifiers() {
    for spelling in ["andy", "classes", "For", "vars", "_if", "nil0", "whil", ""] {
        assert_eq!(
            keyword_or_identifier(&spelling.to_string()),
            TokenType::Identifier
        );
    }
}

#[test]
fn keywords_inside_source_text() {
    let text = "and class else false for fun if nil or print return super this true var while"
        .to_string();
    let mut scanner = Scanner::new(&text);
    let tokens = scanner.scan_tokens().unwrap();
    let expected = vec![
        TokenType::And,
        TokenType::Class,
        TokenType::Else,
        TokenType::False,
        TokenType::For,
        TokenType::Fun,
        TokenType::If,
        TokenType::Nil,
        TokenType::Or,
        TokenType::Print,
        TokenType::Return,
        TokenType::Super,
        TokenType::This,
        TokenType::True,
        TokenType::Var,
        TokenType::While,
        TokenType::EOF,
    ];
    let got: Vec<TokenType> = tokens.iter().map(|t| t.ttype).collect();
    assert_eq!(got, expected);
    // Keywords carry no literal value.
    assert!(tokens.iter().all(|t| t.literal == None));
}

#[test]
fn identifier_run_includes_digits_and_underscores() {
    let text = "a1_b c_2".to_string();
    let mut scanner = Scanner::new(&text);
    let tokens = scanner.scan_tokens().unwrap();
    assert_eq!(tokens[0].ttype, TokenType::Identifier);
    assert_eq!(tokens[0].lexeme, "a1_b");
    assert_eq!(tokens[1].ttype, TokenType::Identifier);
    assert_eq!(tokens[1].lexeme, "c_2");
}
