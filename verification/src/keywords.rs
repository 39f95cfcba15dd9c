//! Keyword table: a static read-only mapping from the sixteen reserved
//! spellings to their token categories, consulted once per identifier-shaped
//! run. Every other identifier-shaped lexeme is a generic identifier.

use vstd::prelude::*;
use vstd::string::StringExecFns;
use crate::token::TokenType;

verus! {

/// The category a reserved spelling maps to, or `None` for any spelling that
/// is not one of the sixteen reserved words.
pub open spec fn keyword_token_type(s: Seq<char>) -> Option<TokenType> {
    if s == "and"@ {
        Some(TokenType::And)
    } else if s == "class"@ {
        Some(TokenType::Class)
    } else if s == "else"@ {
        Some(TokenType::Else)
    } else if s == "false"@ {
        Some(TokenType::False)
    } else if s == "for"@ {
        Some(TokenType::For)
    } else if s == "fun"@ {
        Some(TokenType::Fun)
    } else if s == "if"@ {
        Some(TokenType::If)
    } else if s == "nil"@ {
        Some(TokenType::Nil)
    } else if s == "or"@ {
        Some(TokenType::Or)
    } else if s == "print"@ {
        Some(TokenType::Print)
    } else if s == "return"@ {
        Some(TokenType::Return)
    } else if s == "super"@ {
        Some(TokenType::Super)
    } else if s == "this"@ {
        Some(TokenType::This)
    } else if s == "true"@ {
        Some(TokenType::True)
    } else if s == "var"@ {
        Some(TokenType::Var)
    } else if s == "while"@ {
        Some(TokenType::While)
    } else {
        None
    }
}

/// The category of a fully consumed identifier-shaped lexeme: the matching
/// keyword category if the spelling is reserved, else the generic identifier.
pub open spec fn ident_token_type(s: Seq<char>) -> TokenType {
    match keyword_token_type(s) {
        Some(t) => t,
        None => TokenType::Identifier,
    }
}

/// Consults the keyword table for a fully consumed identifier-shaped lexeme.
pub fn keyword_or_identifier(lexeme: &String) -> (t: TokenType)
    ensures
        t == ident_token_type(lexeme@),
{
    if *lexeme == String::from_str("and") {
        TokenType::And
    } else if *lexeme == String::from_str("class") {
        TokenType::Class
    } else if *lexeme == String::from_str("else") {
        TokenType::Else
    } else if *lexeme == String::from_str("false") {
        TokenType::False
    } else if *lexeme == String::from_str("for") {
        TokenType::For
    } else if *lexeme == String::from_str("fun") {
        TokenType::Fun
    } else if *lexeme == String::from_str("if") {
        TokenType::If
    } else if *lexeme == String::from_str("nil") {
        TokenType::Nil
    } else if *lexeme == String::from_str("or") {
        TokenType::Or
    } else if *lexeme == String::from_str("print") {
        TokenType::Print
    } else if *lexeme == String::from_str("return") {
        TokenType::Return
    } else if *lexeme == String::from_str("super") {
        TokenType::Super
    } else if *lexeme == String::from_str("this") {
        TokenType::This
    } else if *lexeme == String::from_str("true") {
        TokenType::True
    } else if *lexeme == String::from_str("var") {
        TokenType::Var
    } else if *lexeme == String::from_str("while") {
        TokenType::While
    } else {
        TokenType::Identifier
    }
}

} // verus!
