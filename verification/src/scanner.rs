//! The tokenizer state machine. A `Scanner` owns one complete source text,
//! consumes it front-to-back in a single pass, and returns either the
//! complete ordered token sequence (always ending in the end-of-input
//! sentinel) or an aggregate of every lexical error found — never a mix, and
//! never a first-error-only result.
//!
//! `scan_tokens` is verified to return exactly what the functional model in
//! [`crate::model`] prescribes for the scanner's source text.

use vstd::prelude::*;
use vstd::string::{StrSliceExecFns, StringExecFns};
use crate::error::{LoxError, SyntaxError, SyntaxErrorModel};
use crate::keywords::keyword_or_identifier;
use crate::model::{
    comment_end, digits_end, ident_end, is_alnum_char, is_alpha_char, is_digit_char,
    lemma_newline_count_snoc, lemma_step_bounds, newline_count, number_step, scan_from, scan_spec,
    step, string_body_end, string_step,
};
use crate::token::{eof_model, Object, Token, TokenModel, TokenType};

verus! {

/// The sequence of token models that a sequence of emitted tokens stands for.
pub open spec fn tokens_view(ts: Seq<Token>) -> Seq<TokenModel> {
    ts.map_values(|t: Token| t@)
}

/// The sequence of error models that a sequence of recorded errors stands
/// for.
pub open spec fn errors_view(es: Seq<SyntaxError>) -> Seq<SyntaxErrorModel> {
    es.map_values(|e: SyntaxError| e@)
}

/// The scanner: source buffer, cursor state, and the token list under
/// construction. `start` is the index of the first character of the lexeme
/// currently being scanned and `current` the index of the next unread
/// character; `line` is a 1-based counter advanced on every newline consumed.
pub struct Scanner {
    source: Vec<char>,
    text: String,
    tokens: Vec<Token>,
    start: usize,
    current: usize,
    line: usize,
}

impl Scanner {
    /// The source buffer as a sequence of characters.
    pub closed spec fn src(&self) -> Seq<char> {
        self.source@
    }

    /// Internal well-formedness: the cursor invariant `start <= current <=
    /// length`, the line counter bounded by the characters consumed so far,
    /// and room for the counters to grow.
    pub closed spec fn wf(&self) -> bool {
        &&& self.text@ == self.source@
        &&& self.start <= self.current <= self.source@.len()
        &&& self.source@.len() < usize::MAX
        &&& 1 <= self.line
        &&& self.line <= self.current + 1
    }

    /// A freshly constructed scanner that has not started its scan.
    pub closed spec fn fresh(&self) -> bool {
        &&& self.current == 0
        &&& self.start == 0
        &&& self.line == 1
        &&& self.tokens@.len() == 0
    }

    /// Builds a scanner over one complete source text. The bound on the
    /// text's length only rules out a buffer so large that the 1-based line
    /// counter could not fit in a machine word.
    pub fn new(source: &String) -> (s: Scanner)
        requires
            source@.len() < usize::MAX,
        ensures
            s.wf(),
            s.fresh(),
            s.src() == source@,
    {
        let n = source.as_str().unicode_len();
        let mut chars: Vec<char> = Vec::new();
        let mut i: usize = 0;
        while i < n
            invariant
                i <= n,
                n == source@.len(),
                chars@ == source@.subrange(0, i as int),
            decreases n - i,
        {
            let c = source.as_str().get_char(i);
            chars.push(c);
            i = i + 1;
            proof {
                assert(chars@ =~= source@.subrange(0, i as int));
            }
        }
        proof {
            assert(source@.subrange(0, n as int) =~= source@);
        }
        Scanner {
            source: chars,
            text: source.clone(),
            tokens: Vec::new(),
            start: 0,
            current: 0,
            line: 1,
        }
    }

    /// Whether the whole source buffer has been consumed.
    fn is_at_end(&self) -> (b: bool)
        ensures
            b == (self.current >= self.src().len()),
    {
        self.current >= self.source.len()
    }

    /// The character at the given buffer index.
    fn char_at(&self, index: usize) -> (c: char)
        requires
            index < self.src().len(),
        ensures
            c == self.src()[index as int],
    {
        self.source[index]
    }

    /// Consumes and returns the next unread character.
    fn advance(&mut self) -> (c: char)
        requires
            old(self).wf(),
            old(self).current < old(self).src().len(),
        ensures
            final(self).wf(),
            final(self).source == old(self).source,
            final(self).text == old(self).text,
            final(self).tokens == old(self).tokens,
            final(self).start == old(self).start,
            final(self).line == old(self).line,
            final(self).current == old(self).current + 1,
            c == old(self).src()[old(self).current as int],
    {
        let current_char = self.char_at(self.current);
        self.current = self.current + 1;
        current_char
    }

    /// The next unread character, or the NUL character at end of input;
    /// consumes nothing.
    fn peek(&self) -> (c: char)
        requires
            self.wf(),
        ensures
            c == if self.current < self.src().len() {
                self.src()[self.current as int]
            } else {
                '\0'
            },
    {
        if self.is_at_end() {
            return '\0';
        }
        self.char_at(self.current)
    }

    /// The character after the next unread one, or the NUL character if the
    /// buffer ends before it; consumes nothing.
    fn peek_next(&self) -> (c: char)
        requires
            self.wf(),
        ensures
            c == if self.current + 1 < self.src().len() {
                self.src()[self.current as int + 1]
            } else {
                '\0'
            },
    {
        if self.current + 1 >= self.source.len() {
            '\0'
        } else {
            self.char_at(self.current + 1)
        }
    }

    /// One character of atomic lookahead: consumes the next character only if
    /// it equals `expected`.
    fn is_match(&mut self, expected: char) -> (b: bool)
        requires
            old(self).wf(),
        ensures
            final(self).wf(),
            final(self).source == old(self).source,
            final(self).text == old(self).text,
            final(self).tokens == old(self).tokens,
            final(self).start == old(self).start,
            final(self).line == old(self).line,
            b == (old(self).current < old(self).src().len() && old(self).src()[old(
                self,
            ).current as int] == expected),
            final(self).current == if b {
                old(self).current + 1
            } else {
                old(self).current as int
            },
    {
        if self.is_at_end() || self.char_at(self.current) != expected {
            false
        } else {
            self.current = self.current + 1;
            true
        }
    }

    /// Whether `c` may begin an identifier-shaped run.
    fn is_alpha(&self, c: char) -> (b: bool)
        ensures
            b == is_alpha_char(c),
    {
        (c >= 'a' && c <= 'z') || (c >= 'A' && c <= 'Z') || c == '_'
    }

    /// Whether `c` may continue an identifier-shaped run.
    fn is_alpha_numeric(&self, c: char) -> (b: bool)
        ensures
            b == is_alnum_char(c),
    {
        self.is_alpha(c) || is_digit(c)
    }

    /// Emits a token with no literal value for the current lexeme.
    fn add_token(&mut self, ttype: TokenType)
        requires
            old(self).wf(),
        ensures
            final(self).wf(),
            final(self).source == old(self).source,
            final(self).text == old(self).text,
            final(self).start == old(self).start,
            final(self).current == old(self).current,
            final(self).line == old(self).line,
            tokens_view(final(self).tokens@) == tokens_view(old(self).tokens@).push(
                TokenModel {
                    ttype,
                    lexeme: old(self).src().subrange(
                        old(self).start as int,
                        old(self).current as int,
                    ),
                    literal: None,
                    line: old(self).line as int,
                    span: (old(self).start as int, old(self).current as int),
                },
            ),
    {
        self.add_token_obj(ttype, None);
    }

    /// Emits a token for the current lexeme `[start, current)`, carrying the
    /// given literal value.
    fn add_token_obj(&mut self, ttype: TokenType, literal: Option<Object>)
        requires
            old(self).wf(),
        ensures
            final(self).wf(),
            final(self).source == old(self).source,
            final(self).text == old(self).text,
            final(self).start == old(self).start,
            final(self).current == old(self).current,
            final(self).line == old(self).line,
            tokens_view(final(self).tokens@) == tokens_view(old(self).tokens@).push(
                TokenModel {
                    ttype,
                    lexeme: old(self).src().subrange(
                        old(self).start as int,
                        old(self).current as int,
                    ),
                    literal: match literal {
                        Some(o) => Some(o@),
                        None => None,
                    },
                    line: old(self).line as int,
                    span: (old(self).start as int, old(self).current as int),
                },
            ),
    {
        let lexeme: String = self.text.as_str().substring_char(self.start, self.current).to_owned();
        let t = Token::new(ttype, lexeme, literal, self.line, (self.start, self.current));
        self.tokens.push(t);
        proof {
            assert(tokens_view(self.tokens@) =~= tokens_view(old(self).tokens@).push(t@));
        }
    }
    /// Scans a string literal whose opening quote has just been consumed:
    /// characters are consumed until the closing quote, each embedded newline
    /// advancing the line counter. Reaching end of input first yields an
    /// unterminated-string error and no token.
    #[verifier::loop_isolation(false)]
    fn handle_string(&mut self) -> (r: Result<(), (String, String)>)
        requires
            old(self).wf(),
            old(self).current == old(self).start + 1,
            old(self).start < old(self).src().len(),
            old(self).src()[old(self).start as int] == '"',
        ensures
            final(self).wf(),
            final(self).source == old(self).source,
            final(self).text == old(self).text,
            final(self).start == old(self).start,
            ({
                let st = string_step(old(self).src(), old(self).start as int, old(self).line as int);
                &&& final(self).current as int == st.next
                &&& final(self).line as int == st.line
                &&& match st.token {
                    Some(t) => r is Ok && tokens_view(final(self).tokens@) == tokens_view(
                        old(self).tokens@,
                    ).push(t),
                    None => r matches Err(p) && final(self).tokens == old(self).tokens && p.0@
                        == crate::error::unterminated_string_message() && p.1@
                        == crate::error::unterminated_string_help(),
                }
            }),
    {
        let ghost src = self.src();
        let ghost start0 = old(self).start as int;
        let ghost line0 = old(self).line as int;
        while self.peek() != '"' && !self.is_at_end()
            invariant
                self.wf(),
                self.source == old(self).source,
                self.text == old(self).text,
                self.tokens == old(self).tokens,
                self.start == old(self).start,
                old(self).start + 1 <= self.current <= src.len(),
                string_body_end(src, start0 + 1) == string_body_end(src, self.current as int),
                self.line as int == line0 + newline_count(src, start0 + 1, self.current as int),
            decreases src.len() - self.current,
        {
            proof {
                lemma_newline_count_snoc(src, start0 + 1, self.current as int);
            }
            let c = self.advance();
            if c == '\n' {
                self.line = self.line + 1;
            }
        }

        if self.is_at_end() {
            return Err(
                (
                    String::from_str("unterminated string"),
                    String::from_str("add a '\"' after the string"),
                ),
            );
        }

        // The closing quote.
        self.advance();

        // Trim the surrounding quotes.
        let value: String = self.text.as_str().substring_char(
            self.start + 1,
            self.current - 1,
        ).to_owned();
        self.add_token_obj(TokenType::String, Some(Object::Str(value)));

        Ok(())
    }

    /// Scans a number literal whose first digit has just been consumed: a
    /// maximal digit run, then at most one fractional part. A trailing dot
    /// not followed by a digit is left unconsumed for the next iteration.
    #[verifier::loop_isolation(false)]
    fn handle_number(&mut self)
        requires
            old(self).wf(),
            old(self).current == old(self).start + 1,
            old(self).start < old(self).src().len(),
            is_digit_char(old(self).src()[old(self).start as int]),
        ensures
            final(self).wf(),
            final(self).source == old(self).source,
            final(self).text == old(self).text,
            final(self).start == old(self).start,
            final(self).line == old(self).line,
            ({
                let st = number_step(old(self).src(), old(self).start as int, old(self).line as int);
                &&& final(self).current as int == st.next
                &&& st.token matches Some(t) && tokens_view(final(self).tokens@) == tokens_view(
                    old(self).tokens@,
                ).push(t)
            }),
    {
        let ghost src = self.src();
        let ghost start0 = old(self).start as int;
        while is_digit(self.peek())
            invariant
                self.wf(),
                self.source == old(self).source,
                self.text == old(self).text,
                self.tokens == old(self).tokens,
                self.start == old(self).start,
                self.line == old(self).line,
                old(self).start + 1 <= self.current <= src.len(),
                digits_end(src, start0 + 1) == digits_end(src, self.current as int),
            decreases src.len() - self.current,
        {
            self.advance();
        }
        let ghost e1 = self.current as int;

        // Look for a fractional part: the dot is consumed only when a digit
        // follows it.
        if self.peek() == '.' && is_digit(self.peek_next()) {
            // Consume the dot.
            self.advance();

            while is_digit(self.peek())
                invariant
                    self.wf(),
                    self.source == old(self).source,
                    self.text == old(self).text,
                    self.tokens == old(self).tokens,
                    self.start == old(self).start,
                    self.line == old(self).line,
                    old(self).start + 1 <= self.current <= src.len(),
                    digits_end(src, e1 + 1) == digits_end(src, self.current as int),
                decreases src.len() - self.current,
            {
                self.advance();
            }
        }

        let value: String = self.text.as_str().substring_char(self.start, self.current).to_owned();
        self.add_token_obj(TokenType::Number, Some(Object::Num(value)));
    }

    /// Scans an identifier-shaped run whose first character has just been
    /// consumed, then classifies the lexeme through the keyword table.
    #[verifier::loop_isolation(false)]
    fn handle_identifier(&mut self)
        requires
            old(self).wf(),
            old(self).current == old(self).start + 1,
            old(self).start < old(self).src().len(),
            is_alpha_char(old(self).src()[old(self).start as int]),
        ensures
            final(self).wf(),
            final(self).source == old(self).source,
            final(self).text == old(self).text,
            final(self).start == old(self).start,
            final(self).line == old(self).line,
            ({
                let st = crate::model::ident_step(
                    old(self).src(),
                    old(self).start as int,
                    old(self).line as int,
                );
                &&& final(self).current as int == st.next
                &&& st.token matches Some(t) && tokens_view(final(self).tokens@) == tokens_view(
                    old(self).tokens@,
                ).push(t)
            }),
    {
        let ghost src = self.src();
        let ghost start0 = old(self).start as int;
        while self.is_alpha_numeric(self.peek())
            invariant
                self.wf(),
                self.source == old(self).source,
                self.text == old(self).text,
                self.tokens == old(self).tokens,
                self.start == old(self).start,
                self.line == old(self).line,
                old(self).start + 1 <= self.current <= src.len(),
                ident_end(src, start0 + 1) == ident_end(src, self.current as int),
            decreases src.len() - self.current,
        {
            self.advance();
        }
        let identifier: String = self.text.as_str().substring_char(
            self.start,
            self.current,
        ).to_owned();
        let ttype = keyword_or_identifier(&identifier);
        self.add_token(ttype);
    }

    /// Classifies and consumes exactly one lexical unit at the cursor: a
    /// token, a skipped whitespace run, a skipped comment, a line terminator,
    /// or an unexpected character. The outcome is exactly one [`step`] of the
    /// functional model; a detected problem is handed back as its message and
    /// help text for the caller to record.
    #[verifier::loop_isolation(false)]
    fn scan_token(&mut self) -> (r: Result<(), (String, String)>)
        requires
            old(self).wf(),
            old(self).start == old(self).current,
            old(self).current < old(self).src().len(),
        ensures
            final(self).wf(),
            final(self).source == old(self).source,
            final(self).text == old(self).text,
            final(self).start == old(self).start,
            ({
                let st = step(old(self).src(), old(self).current as int, old(self).line as int);
                &&& final(self).current as int == st.next
                &&& final(self).line as int == st.line
                &&& match st.token {
                    Some(t) => tokens_view(final(self).tokens@) == tokens_view(
                        old(self).tokens@,
                    ).push(t),
                    None => final(self).tokens == old(self).tokens,
                }
                &&& match st.error {
                    Some(e) => r matches Err(p) && p.0@ == e.err_message && p.1@ == e.help_message
                        && e.line == final(self).line as int && e.span == (
                        old(self).start as int,
                        final(self).current as int,
                    ),
                    None => r is Ok,
                }
            }),
    {
        let c = self.advance();

        match c {
            '(' => {
                self.add_token(TokenType::LeftParen);
                Ok(())
            },
            ')' => {
                self.add_token(TokenType::RightParen);
                Ok(())
            },
            '{' => {
                self.add_token(TokenType::LeftBrace);
                Ok(())
            },
            '}' => {
                self.add_token(TokenType::RightBrace);
                Ok(())
            },
            ',' => {
                self.add_token(TokenType::Comma);
                Ok(())
            },
            '.' => {
                self.add_token(TokenType::Dot);
                Ok(())
            },
            '-' => {
                self.add_token(TokenType::Minus);
                Ok(())
            },
            '+' => {
                self.add_token(TokenType::Plus);
                Ok(())
            },
            ';' => {
                self.add_token(TokenType::Semicolon);
                Ok(())
            },
            '*' => {
                self.add_token(TokenType::Star);
                Ok(())
            },
            // One character of lookahead: `!` or `!=`.
            '!' => {
                let ty = if self.is_match('=') {
                    TokenType::BangEqual
                } else {
                    TokenType::Bang
                };
                self.add_token(ty);
                Ok(())
            },
            // One character of lookahead: `=` or `==`.
            '=' => {
                let ty = if self.is_match('=') {
                    TokenType::Equals
                } else {
                    TokenType::Assign
                };
                self.add_token(ty);
                Ok(())
            },
            // One character of lookahead: `<` or `<=`.
            '<' => {
                let ty = if self.is_match('=') {
                    TokenType::LessEqual
                } else {
                    TokenType::Less
                };
                self.add_token(ty);
                Ok(())
            },
            // One character of lookahead: `>` or `>=`.
            '>' => {
                let ty = if self.is_match('=') {
                    TokenType::GreaterEqual
                } else {
                    TokenType::Greater
                };
                self.add_token(ty);
                Ok(())
            },
            // Division, or a line comment.
            '/' => {
                if self.is_match('/') {
                    // A comment goes until the end of the line; the newline
                    // itself is left for the next iteration.
                    while self.peek() != '\n' && !self.is_at_end()
                        invariant
                            self.wf(),
                            self.source == old(self).source,
                            self.text == old(self).text,
                            self.tokens == old(self).tokens,
                            self.start == old(self).start,
                            self.line == old(self).line,
                            old(self).current + 2 <= self.current <= self.src().len(),
                            comment_end(old(self).src(), old(self).current as int + 2)
                                == comment_end(old(self).src(), self.current as int),
                        decreases self.src().len() - self.current,
                    {
                        self.advance();
                    }
                } else {
                    self.add_token(TokenType::Slash);
                }
                Ok(())
            },
            // Whitespace other than newlines is skipped without a token.
            ' ' | '\r' | '\t' => Ok(()),
            '\n' => {
                self.line = self.line + 1;
                Ok(())
            },
            '"' => self.handle_string(),
            _ => {
                if is_digit(c) {
                    self.handle_number();
                    Ok(())
                } else if self.is_alpha(c) {
                    self.handle_identifier();
                    Ok(())
                } else {
                    Err(
                        (
                            String::from_str("unexpected character"),
                            String::from_str("try removing the character"),
                        ),
                    )
                }
            },
        }
    }

    /// Consumes the entire source buffer and returns either the complete
    /// ordered token sequence — always ending in the end-of-input sentinel —
    /// or the aggregate of every lexical error found. The outcome is exactly
    /// the functional model's verdict on the source text: errors were found
    /// if and only if the result is the aggregate error, and scanning always
    /// continued to the end of input either way.
    #[verifier::loop_isolation(false)]
    pub fn scan_tokens(&mut self) -> (r: Result<Vec<Token>, LoxError>)
        requires
            old(self).wf(),
            old(self).fresh(),
        ensures
            ({
                let m = scan_spec(old(self).src());
                match r {
                    Ok(tokens) => m.errors.len() == 0 && tokens_view(tokens@) == m.tokens,
                    Err(e) => m.errors.len() > 0 && (e matches LoxError::SyntaxErrors(es)
                        && errors_view(es@) == m.errors),
                }
            }),
    {
        let ghost src = self.src();
        let mut source_errors: Vec<SyntaxError> = Vec::new();
        proof {
            assert(tokens_view(self.tokens@) =~= Seq::<TokenModel>::empty());
            assert(errors_view(source_errors@) =~= Seq::<SyntaxErrorModel>::empty());
            assert(Seq::<TokenModel>::empty() + scan_from(src, 0, 1).tokens =~= scan_from(
                src,
                0,
                1,
            ).tokens);
            assert(Seq::<SyntaxErrorModel>::empty() + scan_from(src, 0, 1).errors =~= scan_from(
                src,
                0,
                1,
            ).errors);
        }
        while !self.is_at_end()
            invariant
                self.wf(),
                self.src() == src,
                scan_spec(src).tokens == tokens_view(self.tokens@) + scan_from(
                    src,
                    self.current as int,
                    self.line as int,
                ).tokens,
                scan_spec(src).errors == errors_view(source_errors@) + scan_from(
                    src,
                    self.current as int,
                    self.line as int,
                ).errors,
            decreases src.len() - self.current,
        {
            self.start = self.current;
            let ghost pos = self.current as int;
            let ghost ln = self.line as int;
            let ghost toks0 = self.tokens@;
            let ghost errs0 = source_errors@;
            let res = self.scan_token();
            proof {
                lemma_step_bounds(src, pos, ln);
            }
            let ghost st = step(src, pos, ln);
            match res {
                Ok(_) => {},
                Err(p) => {
                    let (err_msg, help_msg) = p;
                    source_errors.push(
                        SyntaxError {
                            line: self.line,
                            span: (self.start, self.current),
                            err_message: err_msg,
                            help_message: help_msg,
                        },
                    );
                    proof {
                        assert(errors_view(source_errors@) =~= errors_view(errs0).push(
                            st.error->Some_0,
                        ));
                    }
                },
            }
            proof {
                match st.token {
                    Some(t) => {
                        assert(tokens_view(toks0).push(t) + scan_from(
                            src,
                            st.next,
                            st.line,
                        ).tokens =~= tokens_view(toks0) + (seq![t] + scan_from(
                            src,
                            st.next,
                            st.line,
                        ).tokens));
                    },
                    None => {},
                }
                match st.error {
                    Some(e) => {
                        assert(errors_view(errs0).push(e) + scan_from(
                            src,
                            st.next,
                            st.line,
                        ).errors =~= errors_view(errs0) + (seq![e] + scan_from(
                            src,
                            st.next,
                            st.line,
                        ).errors));
                    },
                    None => {},
                }
            }
        }

        // The end-of-input sentinel, appended unconditionally.
        let at = self.current;
        let eof_tok = Token::eof(self.line, at);
        let ghost toks0 = self.tokens@;
        self.tokens.push(eof_tok);
        proof {
            assert(tokens_view(self.tokens@) =~= tokens_view(toks0).push(
                eof_model(self.line as int, src.len() as int),
            ));
            assert(scan_from(src, self.current as int, self.line as int).tokens =~= seq![
                eof_model(self.line as int, src.len() as int),
            ]);
            assert(scan_spec(src).tokens =~= tokens_view(self.tokens@));
            assert(scan_spec(src).errors =~= errors_view(source_errors@));
        }

        if source_errors.len() > 0 {
            Err(LoxError::SyntaxErrors(source_errors))
        } else {
            let mut out: Vec<Token> = Vec::new();
            core::mem::swap(&mut out, &mut self.tokens);
            Ok(out)
        }
    }
}

/// Whether `c` is an ASCII decimal digit.
fn is_digit(c: char) -> (b: bool)
    ensures
        b == is_digit_char(c),
{
    c >= '0' && c <= '9'
}

} // verus!
