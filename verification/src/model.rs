//! The mathematical model of a full scan: maximal spans, the token that
//! starts at a given position, and the whole token sequence of an input.
//!
//! Tokens are modelled as `(TokenKind, int)` pairs — a kind and the count of
//! characters spanned — so the executable scanner's output can be stated as
//! one equation against this model.

use vstd::prelude::*;

use crate::classify::classifiable;
use crate::classify::is_alphabetic_char;
use crate::classify::is_digit_char;
use crate::classify::is_whitespace_char;
use crate::classify::punct_kind;
use crate::token::LiteralKind;
use crate::token::Token;
use crate::token::TokenKind;

verus! {

/// Whether `c` may continue an identifier span: alphabetic or ASCII digit.
pub open spec fn ident_continue_char(c: char) -> bool {
    is_alphabetic_char(c) || is_digit_char(c)
}

/// The whitespace span predicate, as a function value.
pub open spec fn whitespace_pred() -> spec_fn(char) -> bool {
    |c: char| is_whitespace_char(c)
}

/// The identifier-continuation span predicate, as a function value.
pub open spec fn ident_pred() -> spec_fn(char) -> bool {
    |c: char| ident_continue_char(c)
}

/// The digit span predicate, as a function value.
pub open spec fn digit_pred() -> spec_fn(char) -> bool {
    |c: char| is_digit_char(c)
}

/// The length of the maximal run of characters satisfying `pred` that starts
/// at position `i` of `s`: maximal munch, as arithmetic.
pub open spec fn span_len(s: Seq<char>, i: int, pred: spec_fn(char) -> bool) -> int
    decreases s.len() - i,
{
    if i < 0 || i >= s.len() || !pred(s[i]) {
        0
    } else {
        1 + span_len(s, i + 1, pred)
    }
}

/// A maximal span is bounded by the input, covers only characters of its
/// class, and ends at the input's end or at the first character outside the
/// class.
pub proof fn lemma_span_len_props(s: Seq<char>, i: int, pred: spec_fn(char) -> bool)
    requires
        0 <= i <= s.len(),
    ensures
        0 <= span_len(s, i, pred) <= s.len() - i,
        forall|k: int| i <= k < i + span_len(s, i, pred) ==> #[trigger] pred(s[k]),
        i + span_len(s, i, pred) == s.len() || !pred(s[i + span_len(s, i, pred)]),
    decreases s.len() - i,
{
    if i < s.len() && pred(s[i]) {
        lemma_span_len_props(s, i + 1, pred);
    }
}

/// A run of `pred`-characters from `i` up to — not including — a stop
/// position `j` is exactly the maximal span at `i`, provided `j` is the
/// input's end or the first failure of `pred`.
pub proof fn lemma_span_len_is(s: Seq<char>, i: int, j: int, pred: spec_fn(char) -> bool)
    requires
        0 <= i <= j <= s.len(),
        forall|k: int| i <= k < j ==> #[trigger] pred(s[k]),
        j == s.len() || !pred(s[j]),
    ensures
        span_len(s, i, pred) == j - i,
    decreases j - i,
{
    if i < j {
        assert(pred(s[i]));
        lemma_span_len_is(s, i + 1, j, pred);
    }
}

/// The token that starts at position `i` of `s`: its kind and length, or
/// `None` when the character at `i` is unclassifiable. Classes are checked in
/// the scanner's precedence order: whitespace, alphabetic, digit,
/// punctuation.
pub open spec fn token_at(s: Seq<char>, i: int) -> Option<(TokenKind, int)> {
    if is_whitespace_char(s[i]) {
        Some((TokenKind::Whitespace, span_len(s, i, whitespace_pred())))
    } else if is_alphabetic_char(s[i]) {
        Some((TokenKind::Ident, span_len(s, i, ident_pred())))
    } else if is_digit_char(s[i]) {
        Some(((TokenKind::Literal { kind: LiteralKind::NumberLiteral }), span_len(s, i, digit_pred())))
    } else {
        match punct_kind(s[i]) {
            Some(k) => Some((k, 1)),
            None => None,
        }
    }
}

/// The full token sequence of `s` from position `i` on: one maximal token
/// after another, closed by the zero-length end-of-input token. Positions
/// outside the input, and unclassifiable characters, yield no further tokens.
pub open spec fn tokens_from(s: Seq<char>, i: int) -> Seq<(TokenKind, int)>
    decreases s.len() - i,
{
    if !(0 <= i <= s.len()) {
        Seq::empty()
    } else if i == s.len() {
        seq![(TokenKind::Eof, 0int)]
    } else {
        match token_at(s, i) {
            Some(t) => {
                if 1 <= t.1 && i + t.1 <= s.len() {
                    seq![t] + tokens_from(s, i + t.1)
                } else {
                    Seq::empty()
                }
            },
            None => Seq::empty(),
        }
    }
}

/// The sum of the lengths in a modelled token sequence.
pub open spec fn total_len(ts: Seq<(TokenKind, int)>) -> int
    decreases ts.len(),
{
    if ts.len() == 0 {
        0
    } else {
        ts[0].1 + total_len(ts.skip(1))
    }
}

/// The kind-and-length pairs of a sequence of scanned tokens.
pub open spec fn token_pairs(ts: Seq<Token>) -> Seq<(TokenKind, int)> {
    ts.map_values(|t: Token| t.pair())
}

/// Whether every character of `s` from position `i` on is classifiable.
pub open spec fn classifiable_from(s: Seq<char>, i: int) -> bool {
    forall|k: int| i <= k < s.len() ==> classifiable(#[trigger] s[k])
}

/// Whether every character of `s` is classifiable: exactly the inputs the
/// scanner accepts in full.
pub open spec fn all_classifiable(s: Seq<char>) -> bool {
    classifiable_from(s, 0)
}

/// At a classifiable position the model always finds a token: at least one
/// character long, within bounds, and covering classifiable characters only.
pub proof fn lemma_token_at_some(s: Seq<char>, i: int)
    requires
        0 <= i < s.len(),
        classifiable(s[i]),
    ensures
        token_at(s, i) is Some,
        1 <= (token_at(s, i)->0).1,
        i + (token_at(s, i)->0).1 <= s.len(),
        forall|k: int| i <= k < i + (token_at(s, i)->0).1 ==> classifiable(#[trigger] s[k]),
{
    if is_whitespace_char(s[i]) {
        lemma_span_len_props(s, i, whitespace_pred());
        assert(whitespace_pred()(s[i]));
        assert forall|k: int| i <= k < i + (token_at(s, i)->0).1 implies classifiable(#[trigger] s[k]) by {
            assert(whitespace_pred()(s[k]));
        }
    } else if is_alphabetic_char(s[i]) {
        lemma_span_len_props(s, i, ident_pred());
        assert(ident_pred()(s[i]));
        assert forall|k: int| i <= k < i + (token_at(s, i)->0).1 implies classifiable(#[trigger] s[k]) by {
            assert(ident_pred()(s[k]));
        }
    } else if is_digit_char(s[i]) {
        lemma_span_len_props(s, i, digit_pred());
        assert(digit_pred()(s[i]));
        assert forall|k: int| i <= k < i + (token_at(s, i)->0).1 implies classifiable(#[trigger] s[k]) by {
            assert(digit_pred()(s[k]));
        }
    } else {
    }
}

/// Appending one token appends its pair.
pub proof fn lemma_token_pairs_push(ts: Seq<Token>, t: Token)
    ensures
        token_pairs(ts.push(t)) == token_pairs(ts).push(t.pair()),
{
    assert(token_pairs(ts.push(t)) =~= token_pairs(ts).push(t.pair()));
}

} // verus!
