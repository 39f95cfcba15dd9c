use rlox::error::LoxError;
use rlox::scanner::Scanner;
use rlox::token::{Object, Token, TokenType};

fn scan(source: &str) -> Result<Vec<Token>, LoxError> {
    let text = source.to_string();
    let mut scanner = Scanner::new(&text);
    scanner.scan_tokens()
}

fn scan_ok(source: &str) -> Vec<Token> {
    match scan(source) {
        Ok(tokens) => tokens,
        Err(e) => panic!("expected a token sequence for {:?}, got {:?}", source, e),
    }
}

fn types(tokens: &[Token]) -> Vec<TokenType> {
    tokens.iter().map(|t| t.ttype).collect()
}

fn number_value(token: &Token) -> f64 {
    match &token.literal {
        Some(Object::Num(text)) => text.parse::<f64>().unwrap(),
        other => panic!("expected a number literal, got {:?}", other),
    }
}

#[test]
fn scans_declaration_statement() {
    let tokens = scan_ok("var x = 10;\n");
    assert_eq!(
        types(&tokens),
        vec![
            TokenType::Var,
            TokenType::Identifier,
            TokenType::Assign,
            TokenType::Number,
            TokenType::Semicolon,
            TokenType::EOF,
        ]
    );
    assert_eq!(tokens[0].lexeme, "var");
    assert_eq!(tokens[1].lexeme, "x");
    assert_eq!(tokens[2].lexeme, "=");
    assert_eq!(number_value(&tokens[3]), 10.0);
    assert_eq!(tokens[3].lexeme, "10");
    assert_eq!(tokens[4].lexeme, ";");
}

#[test]
fn comment_line_yields_only_sentinel() {
    let tokens = scan_ok("// comment\n");
    assert_eq!(tokens.len(), 1);
    assert_eq!(tokens[0].ttype, TokenType::EOF);
    assert_eq!(tokens[0].line, 2);
    assert_eq!(tokens[0].span, (11, 11));
}

#[test]
fn string_literal_strips_quotes() {
    let tokens = scan_ok("\"hello\"");
    assert_eq!(tokens.len(), 2);
    assert_eq!(tokens[0].ttype, TokenType::String);
    assert_eq!(tokens[0].lexeme, "\"hello\"");
    assert_eq!(tokens[0].literal, Some(Object::Str("hello".to_string())));
    assert_eq!(tokens[0].span, (0, 7));
    assert_eq!(tokens[1].ttype, TokenType::EOF);
}

#[test]
fn unterminated_string_is_aggregate_error() {
    match scan("\"unterminated") {
        Ok(tokens) => panic!("expected an error, got {:?}", tokens),
        Err(LoxError::SyntaxErrors(errors)) => {
            assert_eq!(errors.len(), 1);
            assert_eq!(errors[0].err_message, "unterminated string");
            assert_eq!(errors[0].help_message, "add a '\"' after the string");
            assert_eq!(errors[0].line, 1);
            assert_eq!(errors[0].span, (0, 13));
        }
        Err(other) => panic!("expected the aggregate error, got {:?}", other),
    }
}

#[test]
fn arithmetic_expression() {
    let tokens = scan_ok("1.5 + 2");
    assert_eq!(
        types(&tokens),
        vec![TokenType::Number, TokenType::Plus, TokenType::Number, TokenType::EOF]
    );
    assert_eq!(number_value(&tokens[0]), 1.5);
    assert_eq!(number_value(&tokens[2]), 2.0);
}

#[test]
fn trailing_dot_is_its_own_token() {
    let tokens = scan_ok("1.");
    assert_eq!(
        types(&tokens),
        vec![TokenType::Number, TokenType::Dot, TokenType::EOF]
    );
    assert_eq!(number_value(&tokens[0]), 1.0);
    assert_eq!(tokens[0].span, (0, 1));
    assert_eq!(tokens[1].span, (1, 2));
}

#[test]
fn bang_equal_is_one_token() {
    let tokens = scan_ok("!=");
    assert_eq!(types(&tokens), vec![TokenType::BangEqual, TokenType::EOF]);
    assert_eq!(tokens[0].lexeme, "!=");
    assert_eq!(tokens[0].span, (0, 2));
}

#[test]
fn lone_bang_at_end_of_input() {
    let tokens = scan_ok("!");
    assert_eq!(types(&tokens), vec![TokenType::Bang, TokenType::EOF]);
    assert_eq!(tokens[0].span, (0, 1));
}

#[test]
fn one_and_two_character_operators() {
    let tokens = scan_ok("= == < <= > >= ! !=");
    assert_eq!(
        types(&tokens),
        vec![
            TokenType::Assign,
            TokenType::Equals,
            TokenType::Less,
            TokenType::LessEqual,
            TokenType::Greater,
            TokenType::GreaterEqual,
            TokenType::Bang,
            TokenType::BangEqual,
            TokenType::EOF,
        ]
    );
}

#[test]
fn single_character_punctuation() {
    let tokens = scan_ok("(){},.-+;*/");
    assert_eq!(
        types(&tokens),
        vec![
            TokenType::LeftParen,
            TokenType::RightParen,
            TokenType::LeftBrace,
            TokenType::RightBrace,
            TokenType::Comma,
            TokenType::Dot,
            TokenType::Minus,
            TokenType::Plus,
            TokenType::Semicolon,
            TokenType::Star,
            TokenType::Slash,
            TokenType::EOF,
        ]
    );
    for (i, t) in tokens.iter().enumerate().take(11) {
        assert_eq!(t.span, (i, i + 1));
        assert_eq!(t.line, 1);
        assert_eq!(t.literal, None);
    }
}

#[test]
fn empty_input_yields_sentinel_alone() {
    let tokens = scan_ok("");
    assert_eq!(tokens.len(), 1);
    assert_eq!(tokens[0].ttype, TokenType::EOF);
    assert_eq!(tokens[0].lexeme, "");
    assert_eq!(tokens[0].literal, None);
    assert_eq!(tokens[0].line, 1);
    assert_eq!(tokens[0].span, (0, 0));
}

#[test]
fn whitespace_is_skipped_without_line_change() {
    let tokens = scan_ok(" \t\r ");
    assert_eq!(tokens.len(), 1);
    assert_eq!(tokens[0].ttype, TokenType::EOF);
    assert_eq!(tokens[0].line, 1);
    assert_eq!(tokens[0].span, (4, 4));
}

#[test]
fn newlines_advance_line_counter() {
    let tokens = scan_ok("\n\nvar\n");
    assert_eq!(types(&tokens), vec![TokenType::Var, TokenType::EOF]);
    assert_eq!(tokens[0].line, 3);
    assert_eq!(tokens[1].line, 4);
}

#[test]
fn comment_without_trailing_newline() {
    let tokens = scan_ok("// runs to end of input");
    assert_eq!(tokens.len(), 1);
    assert_eq!(tokens[0].ttype, TokenType::EOF);
    assert_eq!(tokens[0].line, 1);
}

#[test]
fn comment_does_not_consume_newline() {
    let tokens = scan_ok("a// trailing\nb");
    assert_eq!(
        types(&tokens),
        vec![TokenType::Identifier, TokenType::Identifier, TokenType::EOF]
    );
    assert_eq!(tokens[0].line, 1);
    assert_eq!(tokens[1].line, 2);
}

#[test]
fn slash_alone_is_division() {
    let tokens = scan_ok("a/b");
    assert_eq!(
        types(&tokens),
        vec![TokenType::Identifier, TokenType::Slash, TokenType::Identifier, TokenType::EOF]
    );
}

#[test]
fn string_with_embedded_newline_counts_lines() {
    let tokens = scan_ok("\"a\nb\"");
    assert_eq!(types(&tokens), vec![TokenType::String, TokenType::EOF]);
    assert_eq!(tokens[0].literal, Some(Object::Str("a\nb".to_string())));
    assert_eq!(tokens[0].line, 2);
    assert_eq!(tokens[0].span, (0, 5));
}

#[test]
fn unterminated_string_after_newlines_reports_last_line() {
    match scan("\"a\nb") {
        Ok(tokens) => panic!("expected an error, got {:?}", tokens),
        Err(LoxError::SyntaxErrors(errors)) => {
            assert_eq!(errors.len(), 1);
            assert_eq!(errors[0].err_message, "unterminated string");
            assert_eq!(errors[0].line, 2);
            assert_eq!(errors[0].span, (0, 4));
        }
        Err(other) => panic!("expected the aggregate error, got {:?}", other),
    }
}

#[test]
fn unexpected_character_is_reported() {
    match scan("@") {
        Ok(tokens) => panic!("expected an error, got {:?}", tokens),
        Err(LoxError::SyntaxErrors(errors)) => {
            assert_eq!(errors.len(), 1);
            assert_eq!(errors[0].err_message, "unexpected character");
            assert_eq!(errors[0].help_message, "try removing the character");
            assert_eq!(errors[0].line, 1);
            assert_eq!(errors[0].span, (0, 1));
        }
        Err(other) => panic!("expected the aggregate error, got {:?}", other),
    }
}

#[test]
fn every_error_is_collected_in_order() {
    match scan("@\n#") {
        Ok(tokens) => panic!("expected an error, got {:?}", tokens),
        Err(LoxError::SyntaxErrors(errors)) => {
            assert_eq!(errors.len(), 2);
            assert_eq!(errors[0].span, (0, 1));
            assert_eq!(errors[0].line, 1);
            assert_eq!(errors[1].span, (2, 3));
            assert_eq!(errors[1].line, 2);
        }
        Err(other) => panic!("expected the aggregate error, got {:?}", other),
    }
}

#[test]
fn errors_do_not_stop_the_scan() {
    // A valid token on each side of the offending character: the scan still
    // reaches the end of input and reports the one error.
    match scan("var @ x") {
        Ok(tokens) => panic!("expected an error, got {:?}", tokens),
        Err(LoxError::SyntaxErrors(errors)) => {
            assert_eq!(errors.len(), 1);
            assert_eq!(errors[0].span, (4, 5));
        }
        Err(other) => panic!("expected the aggregate error, got {:?}", other),
    }
}

#[test]
fn number_with_two_dots_splits() {
    let tokens = scan_ok("1.2.3");
    assert_eq!(
        types(&tokens),
        vec![TokenType::Number, TokenType::Dot, TokenType::Number, TokenType::EOF]
    );
    assert_eq!(number_value(&tokens[0]), 1.2);
    assert_eq!(tokens[0].span, (0, 3));
    assert_eq!(tokens[1].span, (3, 4));
    assert_eq!(number_value(&tokens[2]), 3.0);
}

#[test]
fn leading_dot_is_not_part_of_a_number() {
    let tokens = scan_ok(".5");
    assert_eq!(
        types(&tokens),
        vec![TokenType::Dot, TokenType::Number, TokenType::EOF]
    );
    assert_eq!(number_value(&tokens[1]), 5.0);
}

#[test]
fn integer_number_keeps_exact_digits() {
    let tokens = scan_ok("123");
    assert_eq!(types(&tokens), vec![TokenType::Number, TokenType::EOF]);
    assert_eq!(tokens[0].lexeme, "123");
    assert_eq!(tokens[0].literal, Some(Object::Num("123".to_string())));
    assert_eq!(number_value(&tokens[0]), 123.0);
}

#[test]
fn scanning_twice_is_deterministic() {
    let source = "var x = 10; // note\n\"s\" 1.5 @";
    let first = scan(source);
    let second = scan(source);
    assert_eq!(first, second);
    let ok_first = scan_ok("fun f(a, b) { return a + b; }");
    let ok_second = scan_ok("fun f(a, b) { return a + b; }");
    assert_eq!(ok_first, ok_second);
}

#[test]
fn token_spans_partition_the_input() {
    // Tokens plus skipped ranges (one blank, one comment, one newline) cover
    // the whole input without gaps or overlaps.
    let source = "ab cd// e\nf";
    let tokens = scan_ok(source);
    assert_eq!(tokens[0].span, (0, 2));
    assert_eq!(tokens[1].span, (3, 5));
    assert_eq!(tokens[2].span, (10, 11));
    assert_eq!(tokens[3].span, (11, 11));
    assert_eq!(tokens[3].ttype, TokenType::EOF);
}

#[test]
fn sentinel_is_always_last_and_unique() {
    for source in ["", "var x", "// only\n", "\"s\"", "@", "1.5 + 2"] {
        match scan(source) {
            Ok(tokens) => {
                assert!(!tokens.is_empty());
                let eof_count = tokens.iter().filter(|t| t.ttype == TokenType::EOF).count();
                assert_eq!(eof_count, 1);
                assert_eq!(tokens.last().unwrap().ttype, TokenType::EOF);
                let n = source.chars().count();
                assert_eq!(tokens.last().unwrap().span, (n, n));
            }
            Err(LoxError::SyntaxErrors(errors)) => {
                assert!(!errors.is_empty());
            }
            Err(other) => panic!("expected the aggregate error, got {:?}", other),
        }
    }
}
