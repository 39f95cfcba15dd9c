//! General properties of the scan, proved once over the functional model in
//! [`crate::model`]. Because `Scanner::scan_tokens` is verified to return
//! exactly what the model prescribes, each statement here carries over to
//! every run of the executable scanner.

use vstd::prelude::*;
use crate::model::{lemma_step_bounds, scan_from, scan_spec, step};
use crate::token::TokenType;

verus! {

/// The consumed ranges of the scan's steps from position `pos` on: each step
/// — a token, a skipped whitespace character, a skipped comment, a line
/// terminator, or an error — consumes exactly one such half-open range.
pub open spec fn unit_ranges(src: Seq<char>, pos: int, line: int) -> Seq<(int, int)>
    decreases src.len() - pos,
{
    if !(0 <= pos < src.len()) {
        Seq::empty()
    } else {
        proof {
            lemma_step_bounds(src, pos, line);
        }
        let st = step(src, pos, line);
        seq![(pos, st.next)] + unit_ranges(src, st.next, st.line)
    }
}

/// The ranges `rs` exactly partition the half-open interval `[a, b)`: they
/// are adjacent, in order, and leave no gap at either end.
pub open spec fn tiles(rs: Seq<(int, int)>, a: int, b: int) -> bool
    decreases rs.len(),
{
    if rs.len() == 0 {
        a == b
    } else {
        &&& rs[0].0 == a
        &&& rs[0].0 <= rs[0].1
        &&& tiles(rs.subrange(1, rs.len() as int), rs[0].1, b)
    }
}

/// Every step's emitted token or recorded error covers exactly the range the
/// step consumed, and no step emits the end-of-input sentinel category.
proof fn lemma_step_shape(src: Seq<char>, pos: int, line: int)
    requires
        0 <= pos < src.len(),
    ensures
        ({
            let st = step(src, pos, line);
            &&& match st.token {
                Some(t) => t.span == (pos, st.next) && t.ttype != TokenType::EOF,
                None => true,
            }
            &&& match st.error {
                Some(e) => e.span == (pos, st.next),
                None => true,
            }
        }),
{
}

/// Totality/coverage: the consumed ranges of one whole scan exactly
/// partition `[0, length(source))` — no character is skipped twice, none is
/// missed — and the span of every emitted token but the sentinel, and of
/// every recorded error, is one of those ranges.
pub proof fn lemma_scan_totality(src: Seq<char>)
    ensures
        tiles(unit_ranges(src, 0, 1), 0, src.len() as int),
        forall|i: int|
            0 <= i < scan_spec(src).tokens.len() - 1 ==> unit_ranges(src, 0, 1).contains(
                (#[trigger] scan_spec(src).tokens[i]).span,
            ),
        forall|i: int|
            0 <= i < scan_spec(src).errors.len() ==> unit_ranges(src, 0, 1).contains(
                (#[trigger] scan_spec(src).errors[i]).span,
            ),
{
    lemma_units_tile(src, 0, 1);
    lemma_scan_from_covered(src, 0, 1);
}

proof fn lemma_units_tile(src: Seq<char>, pos: int, line: int)
    requires
        0 <= pos <= src.len(),
    ensures
        tiles(unit_ranges(src, pos, line), pos, src.len() as int),
    decreases src.len() - pos,
{
    if pos < src.len() {
        lemma_step_bounds(src, pos, line);
        let st = step(src, pos, line);
        lemma_units_tile(src, st.next, st.line);
        assert(unit_ranges(src, pos, line).subrange(
            1,
            unit_ranges(src, pos, line).len() as int,
        ) =~= unit_ranges(src, st.next, st.line));
    }
}

proof fn lemma_scan_from_covered(src: Seq<char>, pos: int, line: int)
    requires
        0 <= pos <= src.len(),
    ensures
        ({
            let m = scan_from(src, pos, line);
            let us = unit_ranges(src, pos, line);
            &&& forall|i: int|
                0 <= i < m.tokens.len() - 1 ==> us.contains((#[trigger] m.tokens[i]).span)
            &&& forall|i: int| 0 <= i < m.errors.len() ==> us.contains((#[trigger] m.errors[i]).span)
        }),
    decreases src.len() - pos,
{
    lemma_scan_from_structure(src, pos, line);
    if pos < src.len() {
        lemma_step_bounds(src, pos, line);
        lemma_step_shape(src, pos, line);
        let st = step(src, pos, line);
        lemma_scan_from_covered(src, st.next, st.line);
        lemma_scan_from_structure(src, st.next, st.line);
        let m = scan_from(src, pos, line);
        let rest = scan_from(src, st.next, st.line);
        let us = unit_ranges(src, pos, line);
        let rest_us = unit_ranges(src, st.next, st.line);
        assert(us == seq![(pos, st.next)] + rest_us);
        assert(us[0] == (pos, st.next));
        assert forall|r: (int, int)| rest_us.contains(r) implies us.contains(r) by {
            let k = choose|k: int| 0 <= k < rest_us.len() && rest_us[k] == r;
            assert(us[k + 1] == r);
        }
        match st.token {
            Some(t) => {
                assert(m.tokens == seq![t] + rest.tokens);
                assert forall|i: int| 0 <= i < m.tokens.len() - 1 implies us.contains(
                    (#[trigger] m.tokens[i]).span,
                ) by {
                    if i == 0 {
                        assert(m.tokens[0] == t);
                        assert(us.contains((pos, st.next)));
                    } else {
                        assert(m.tokens[i] == rest.tokens[i - 1]);
                        assert(rest_us.contains(rest.tokens[i - 1].span));
                    }
                }
            },
            None => {
                assert(m.tokens == rest.tokens);
            },
        }
        match st.error {
            Some(e) => {
                assert(m.errors == seq![e] + rest.errors);
                assert forall|i: int| 0 <= i < m.errors.len() implies us.contains(
                    (#[trigger] m.errors[i]).span,
                ) by {
                    if i == 0 {
                        assert(m.errors[0] == e);
                        assert(us.contains((pos, st.next)));
                    } else {
                        assert(m.errors[i] == rest.errors[i - 1]);
                        assert(rest_us.contains(rest.errors[i - 1].span));
                    }
                }
            },
            None => {
                assert(m.errors == rest.errors);
            },
        }
    }
}

/// Structure of the remainder of a scan: it always yields at least one
/// token; the last one is the end-of-input sentinel, with an empty span at
/// the end of input, and no other token has the sentinel category; token and
/// error spans lie within `[pos, length(source)]` and are emitted in
/// non-decreasing span order.
pub proof fn lemma_scan_from_structure(src: Seq<char>, pos: int, line: int)
    requires
        0 <= pos <= src.len(),
    ensures
        ({
            let m = scan_from(src, pos, line);
            &&& m.tokens.len() >= 1
            &&& m.tokens.last().ttype == TokenType::EOF
            &&& m.tokens.last().span == (src.len() as int, src.len() as int)
            &&& forall|i: int|
                0 <= i < m.tokens.len() - 1 ==> (#[trigger] m.tokens[i]).ttype != TokenType::EOF
            &&& forall|i: int|
                0 <= i < m.tokens.len() ==> pos <= (#[trigger] m.tokens[i]).span.0
                    <= m.tokens[i].span.1 <= src.len()
            &&& forall|i: int, j: int|
                0 <= i < j < m.tokens.len() ==> (#[trigger] m.tokens[i]).span.1 <= (
                #[trigger] m.tokens[j]).span.0
            &&& forall|i: int|
                0 <= i < m.errors.len() ==> pos <= (#[trigger] m.errors[i]).span.0
                    <= m.errors[i].span.1 <= src.len()
            &&& forall|i: int, j: int|
                0 <= i < j < m.errors.len() ==> (#[trigger] m.errors[i]).span.1 <= (
                #[trigger] m.errors[j]).span.0
        }),
    decreases src.len() - pos,
{
    if pos < src.len() {
        lemma_step_bounds(src, pos, line);
        lemma_step_shape(src, pos, line);
        let st = step(src, pos, line);
        lemma_scan_from_structure(src, st.next, st.line);
        let m = scan_from(src, pos, line);
        let rest = scan_from(src, st.next, st.line);
        match st.token {
            Some(t) => {
                assert(m.tokens == seq![t] + rest.tokens);
                assert(m.tokens.last() == rest.tokens.last());
            },
            None => {
                assert(m.tokens == rest.tokens);
            },
        }
        match st.error {
            Some(e) => {
                assert(m.errors == seq![e] + rest.errors);
            },
            None => {
                assert(m.errors == rest.errors);
            },
        }
    }
}

/// Sentinel invariant: any scan yields at least one token; the last is the
/// end-of-input sentinel with an empty span at `length(source)`; no other
/// token has that category; and token spans are non-decreasing.
pub proof fn lemma_sentinel_invariant(src: Seq<char>)
    ensures
        scan_spec(src).tokens.len() >= 1,
        scan_spec(src).tokens.last().ttype == TokenType::EOF,
        scan_spec(src).tokens.last().span == (src.len() as int, src.len() as int),
        forall|i: int|
            0 <= i < scan_spec(src).tokens.len() - 1 ==> (#[trigger] scan_spec(
                src,
            ).tokens[i]).ttype != TokenType::EOF,
        forall|i: int, j: int|
            0 <= i < j < scan_spec(src).tokens.len() ==> (#[trigger] scan_spec(
                src,
            ).tokens[i]).span.1 <= (#[trigger] scan_spec(src).tokens[j]).span.0,
{
    lemma_scan_from_structure(src, 0, 1);
}

/// Determinism: the outcome of a scan is a function of the source text
/// alone. Together with the contract of `Scanner::scan_tokens` — whose
/// result equals `scan_spec` of its source — scanning the same input twice
/// yields identical token sequences and identical error sequences.
pub proof fn lemma_scan_deterministic(a: Seq<char>, b: Seq<char>)
    requires
        a == b,
    ensures
        scan_spec(a) == scan_spec(b),
{
}

/// Two-character disambiguation: at a `!`, `=`, `<` or `>`, the step emits
/// the two-character category exactly when the very next character is `=`,
/// consuming both; otherwise — in particular at end of input — it emits the
/// one-character category alone. Lookahead is atomic: nothing else is
/// consumed.
pub proof fn lemma_two_char_disambiguation(src: Seq<char>, pos: int, line: int)
    requires
        0 <= pos < src.len(),
        src[pos] == '!' || src[pos] == '=' || src[pos] == '<' || src[pos] == '>',
    ensures
        ({
            let st = step(src, pos, line);
            let two = if src[pos] == '!' {
                TokenType::BangEqual
            } else if src[pos] == '=' {
                TokenType::Equals
            } else if src[pos] == '<' {
                TokenType::LessEqual
            } else {
                TokenType::GreaterEqual
            };
            let one = if src[pos] == '!' {
                TokenType::Bang
            } else if src[pos] == '=' {
                TokenType::Assign
            } else if src[pos] == '<' {
                TokenType::Less
            } else {
                TokenType::Greater
            };
            if pos + 1 < src.len() && src[pos + 1] == '=' {
                st.token == Some(crate::model::plain_token(src, two, pos, pos + 2, line))
                    && st.next == pos + 2
            } else {
                st.token == Some(crate::model::plain_token(src, one, pos, pos + 1, line))
                    && st.next == pos + 1
            }
        }),
{
}

} // verus!
