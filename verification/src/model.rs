//! Functional model of the scan: given the source buffer as a `Seq<char>`,
//! these spec functions say exactly which tokens and which lexical errors one
//! pass of the scanner produces, and where every cursor stop lies.
//!
//! The model mirrors the per-character dispatch of the scanner: each
//! [`step`] classifies and consumes one lexical unit (a token, a skipped
//! whitespace run, a skipped comment, a line terminator, or an error), and
//! [`scan_from`] chains steps until the input is exhausted, then appends the
//! end-of-input sentinel.

use vstd::prelude::*;
use crate::error::{
    unexpected_character_help, unexpected_character_message, unterminated_string_help,
    unterminated_string_message, SyntaxErrorModel,
};
use crate::keywords::ident_token_type;
use crate::token::{eof_model, ObjectModel, TokenModel, TokenType};

verus! {

/// An ASCII decimal digit.
pub open spec fn is_digit_char(c: char) -> bool {
    '0' <= c && c <= '9'
}

/// An ASCII letter or underscore: the characters that may begin an
/// identifier-shaped run.
pub open spec fn is_alpha_char(c: char) -> bool {
    ('a' <= c && c <= 'z') || ('A' <= c && c <= 'Z') || c == '_'
}

/// A character that may continue an identifier-shaped run.
pub open spec fn is_alnum_char(c: char) -> bool {
    is_alpha_char(c) || is_digit_char(c)
}

/// First index at or after `i` that does not hold a digit (or the end of the
/// buffer): the maximal digit run starting at `i` is `[i, digits_end)`.
pub open spec fn digits_end(src: Seq<char>, i: int) -> int
    decreases src.len() - i,
{
    if i < src.len() && is_digit_char(src[i]) {
        digits_end(src, i + 1)
    } else {
        i
    }
}

/// First index at or after `i` that does not continue an identifier-shaped
/// run (or the end of the buffer).
pub open spec fn ident_end(src: Seq<char>, i: int) -> int
    decreases src.len() - i,
{
    if i < src.len() && is_alnum_char(src[i]) {
        ident_end(src, i + 1)
    } else {
        i
    }
}

/// First index at or after `i` holding a newline (or the end of the buffer):
/// a line comment reaching `i` is skipped up to but excluding this index.
pub open spec fn comment_end(src: Seq<char>, i: int) -> int
    decreases src.len() - i,
{
    if i < src.len() && src[i] != '\n' {
        comment_end(src, i + 1)
    } else {
        i
    }
}

/// First index at or after `i` holding a closing double quote (or the end of
/// the buffer, in which case the string literal is unterminated).
pub open spec fn string_body_end(src: Seq<char>, i: int) -> int
    decreases src.len() - i,
{
    if i < src.len() && src[i] != '"' {
        string_body_end(src, i + 1)
    } else {
        i
    }
}

/// Number of newline characters in `src[i..j)`.
pub open spec fn newline_count(src: Seq<char>, i: int, j: int) -> int
    decreases j - i,
{
    if i < j {
        (if src[i] == '\n' {
            1int
        } else {
            0int
        }) + newline_count(src, i + 1, j)
    } else {
        0
    }
}

/// Outcome of classifying and consuming one lexical unit at cursor position
/// `[pos, next)`: the cursor and line counter afterwards, plus the emitted
/// token or recorded error, if any.
pub ghost struct Step {
    pub next: int,
    pub line: int,
    pub token: Option<TokenModel>,
    pub error: Option<SyntaxErrorModel>,
}

/// A token with no literal value whose lexeme is `src[a..b)`.
pub open spec fn plain_token(
    src: Seq<char>,
    ttype: TokenType,
    a: int,
    b: int,
    line: int,
) -> TokenModel {
    TokenModel { ttype, lexeme: src.subrange(a, b), literal: None, line, span: (a, b) }
}

/// One single-character token consumed at `pos`.
pub open spec fn single_step(src: Seq<char>, ttype: TokenType, pos: int, line: int) -> Step {
    Step {
        next: pos + 1,
        line,
        token: Some(plain_token(src, ttype, pos, pos + 1, line)),
        error: None,
    }
}

/// An operator at `pos` that takes one character of lookahead: if the next
/// character is `=`, it is consumed and the two-character category is
/// emitted; otherwise only the one-character category.
pub open spec fn operator_step(
    src: Seq<char>,
    pos: int,
    line: int,
    two: TokenType,
    one: TokenType,
) -> Step {
    if pos + 1 < src.len() && src[pos + 1] == '=' {
        Step {
            next: pos + 2,
            line,
            token: Some(plain_token(src, two, pos, pos + 2, line)),
            error: None,
        }
    } else {
        Step {
            next: pos + 1,
            line,
            token: Some(plain_token(src, one, pos, pos + 1, line)),
            error: None,
        }
    }
}

/// A string literal opened by the quote at `pos`: characters are consumed up
/// to the closing quote, each embedded newline advancing the line counter.
/// If the input ends first, an unterminated-string error covering the span
/// scanned so far is recorded and no token is emitted; otherwise the emitted
/// token's literal is the text strictly between the quotes.
pub open spec fn string_step(src: Seq<char>, pos: int, line: int) -> Step {
    let q = string_body_end(src, pos + 1);
    let nl = newline_count(src, pos + 1, q);
    if q >= src.len() {
        Step {
            next: src.len() as int,
            line: line + nl,
            token: None,
            error: Some(
                SyntaxErrorModel {
                    line: line + nl,
                    span: (pos, src.len() as int),
                    err_message: unterminated_string_message(),
                    help_message: unterminated_string_help(),
                },
            ),
        }
    } else {
        Step {
            next: q + 1,
            line: line + nl,
            token: Some(
                TokenModel {
                    ttype: TokenType::String,
                    lexeme: src.subrange(pos, q + 1),
                    literal: Some(ObjectModel::Str(src.subrange(pos + 1, q))),
                    line: line + nl,
                    span: (pos, q + 1),
                },
            ),
            error: None,
        }
    }
}

/// A number literal begun by the digit at `pos`: a maximal digit run,
/// optionally followed by one fractional part (a dot is only consumed when a
/// digit follows it; a trailing dot is left for the next step). The token's
/// literal carries the exact consumed digit run.
pub open spec fn number_step(src: Seq<char>, pos: int, line: int) -> Step {
    let e1 = digits_end(src, pos + 1);
    let end = if e1 < src.len() && src[e1] == '.' && e1 + 1 < src.len() && is_digit_char(
        src[e1 + 1],
    ) {
        digits_end(src, e1 + 1)
    } else {
        e1
    };
    Step {
        next: end,
        line,
        token: Some(
            TokenModel {
                ttype: TokenType::Number,
                lexeme: src.subrange(pos, end),
                literal: Some(ObjectModel::Num(src.subrange(pos, end))),
                line,
                span: (pos, end),
            },
        ),
        error: None,
    }
}

/// An identifier-shaped run begun by the letter or underscore at `pos`,
/// classified through the keyword table once fully consumed.
pub open spec fn ident_step(src: Seq<char>, pos: int, line: int) -> Step {
    let end = ident_end(src, pos + 1);
    Step {
        next: end,
        line,
        token: Some(plain_token(src, ident_token_type(src.subrange(pos, end)), pos, end, line)),
        error: None,
    }
}

/// Classifies and consumes exactly one lexical unit at position `pos`.
pub open spec fn step(src: Seq<char>, pos: int, line: int) -> Step
    recommends
        0 <= pos < src.len(),
{
    let c = src[pos];
    if c == '(' {
        single_step(src, TokenType::LeftParen, pos, line)
    } else if c == ')' {
        single_step(src, TokenType::RightParen, pos, line)
    } else if c == '{' {
        single_step(src, TokenType::LeftBrace, pos, line)
    } else if c == '}' {
        single_step(src, TokenType::RightBrace, pos, line)
    } else if c == ',' {
        single_step(src, TokenType::Comma, pos, line)
    } else if c == '.' {
        single_step(src, TokenType::Dot, pos, line)
    } else if c == '-' {
        single_step(src, TokenType::Minus, pos, line)
    } else if c == '+' {
        single_step(src, TokenType::Plus, pos, line)
    } else if c == ';' {
        single_step(src, TokenType::Semicolon, pos, line)
    } else if c == '*' {
        single_step(src, TokenType::Star, pos, line)
    } else if c == '!' {
        operator_step(src, pos, line, TokenType::BangEqual, TokenType::Bang)
    } else if c == '=' {
        operator_step(src, pos, line, TokenType::Equals, TokenType::Assign)
    } else if c == '<' {
        operator_step(src, pos, line, TokenType::LessEqual, TokenType::Less)
    } else if c == '>' {
        operator_step(src, pos, line, TokenType::GreaterEqual, TokenType::Greater)
    } else if c == '/' {
        if pos + 1 < src.len() && src[pos + 1] == '/' {
            // A comment goes until the end of the line; the newline itself is
            // not consumed and no token is emitted.
            Step { next: comment_end(src, pos + 2), line, token: None, error: None }
        } else {
            single_step(src, TokenType::Slash, pos, line)
        }
    } else if c == ' ' || c == '\r' || c == '\t' {
        Step { next: pos + 1, line, token: None, error: None }
    } else if c == '\n' {
        Step { next: pos + 1, line: line + 1, token: None, error: None }
    } else if c == '"' {
        string_step(src, pos, line)
    } else if is_digit_char(c) {
        number_step(src, pos, line)
    } else if is_alpha_char(c) {
        ident_step(src, pos, line)
    } else {
        Step {
            next: pos + 1,
            line,
            token: None,
            error: Some(
                SyntaxErrorModel {
                    line,
                    span: (pos, pos + 1),
                    err_message: unexpected_character_message(),
                    help_message: unexpected_character_help(),
                },
            ),
        }
    }
}

pub proof fn lemma_digits_end_bounds(src: Seq<char>, i: int)
    requires
        0 <= i <= src.len(),
    ensures
        i <= digits_end(src, i) <= src.len(),
    decreases src.len() - i,
{
    if i < src.len() && is_digit_char(src[i]) {
        lemma_digits_end_bounds(src, i + 1);
    }
}

pub proof fn lemma_ident_end_bounds(src: Seq<char>, i: int)
    requires
        0 <= i <= src.len(),
    ensures
        i <= ident_end(src, i) <= src.len(),
    decreases src.len() - i,
{
    if i < src.len() && is_alnum_char(src[i]) {
        lemma_ident_end_bounds(src, i + 1);
    }
}

pub proof fn lemma_comment_end_bounds(src: Seq<char>, i: int)
    requires
        0 <= i <= src.len(),
    ensures
        i <= comment_end(src, i) <= src.len(),
    decreases src.len() - i,
{
    if i < src.len() && src[i] != '\n' {
        lemma_comment_end_bounds(src, i + 1);
    }
}

pub proof fn lemma_string_body_end_bounds(src: Seq<char>, i: int)
    requires
        0 <= i <= src.len(),
    ensures
        i <= string_body_end(src, i) <= src.len(),
    decreases src.len() - i,
{
    if i < src.len() && src[i] != '"' {
        lemma_string_body_end_bounds(src, i + 1);
    }
}

pub proof fn lemma_newline_count_bounds(src: Seq<char>, i: int, j: int)
    requires
        i <= j,
    ensures
        0 <= newline_count(src, i, j) <= j - i,
    decreases j - i,
{
    if i < j {
        lemma_newline_count_bounds(src, i + 1, j);
    }
}

/// Extending a counted range by one character on the right adds one to the
/// count exactly when that character is a newline.
pub proof fn lemma_newline_count_snoc(src: Seq<char>, i: int, j: int)
    requires
        i <= j,
    ensures
        newline_count(src, i, j + 1) == newline_count(src, i, j) + (if src[j] == '\n' {
            1int
        } else {
            0int
        }),
    decreases j - i,
{
    if i < j {
        lemma_newline_count_snoc(src, i + 1, j);
    } else {
        assert(newline_count(src, j + 1, j + 1) == 0);
        assert(newline_count(src, j, j + 1) == (if src[j] == '\n' {
            1int
        } else {
            0int
        }));
    }
}

/// Every step makes progress: it consumes at least one character and never
/// runs past the end of the buffer.
pub proof fn lemma_step_bounds(src: Seq<char>, pos: int, line: int)
    requires
        0 <= pos < src.len(),
    ensures
        pos < step(src, pos, line).next <= src.len(),
{
    lemma_digits_end_bounds(src, pos + 1);
    lemma_ident_end_bounds(src, pos + 1);
    lemma_string_body_end_bounds(src, pos + 1);
    if pos + 2 <= src.len() {
        lemma_comment_end_bounds(src, pos + 2);
    }
    let c = src[pos];
    if c == '"' {
        let q = string_body_end(src, pos + 1);
        if q < src.len() {
            assert(step(src, pos, line).next == q + 1);
        }
    } else if is_digit_char(c) {
        let e1 = digits_end(src, pos + 1);
        if e1 < src.len() && src[e1] == '.' && e1 + 1 < src.len() && is_digit_char(src[e1 + 1]) {
            lemma_digits_end_bounds(src, e1 + 1);
        }
    }
}

/// Everything one scan produces: the ordered token sequence and the ordered
/// error sequence.
pub ghost struct ScanModel {
    pub tokens: Seq<TokenModel>,
    pub errors: Seq<SyntaxErrorModel>,
}

/// The remainder of a scan that has reached position `pos` with the line
/// counter at `line`: all further tokens and errors, ending with the
/// end-of-input sentinel. The sentinel is appended unconditionally, even when
/// errors occurred.
pub open spec fn scan_from(src: Seq<char>, pos: int, line: int) -> ScanModel
    decreases src.len() - pos,
{
    if !(0 <= pos < src.len()) {
        ScanModel { tokens: seq![eof_model(line, src.len() as int)], errors: Seq::empty() }
    } else {
        proof {
            lemma_step_bounds(src, pos, line);
        }
        let st = step(src, pos, line);
        let rest = scan_from(src, st.next, st.line);
        ScanModel {
            tokens: match st.token {
                Some(t) => seq![t] + rest.tokens,
                None => rest.tokens,
            },
            errors: match st.error {
                Some(e) => seq![e] + rest.errors,
                None => rest.errors,
            },
        }
    }
}

/// The complete outcome of scanning `src` front-to-back: position 0, line 1.
pub open spec fn scan_spec(src: Seq<char>) -> ScanModel {
    scan_from(src, 0, 1)
}

} // verus!
