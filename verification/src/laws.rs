//! The laws of the scan, proved once and for all over the model in
//! [`crate::model`]: token lengths partition the input, the end-of-input
//! token comes exactly once and last, spans are maximal, and re-scanning a
//! token's own slice classifies it the same way.

use vstd::prelude::*;

use crate::classify::classifiable;
use crate::classify::is_alphabetic_char;
use crate::classify::is_digit_char;
use crate::classify::is_whitespace_char;
use crate::classify::punct_kind;
use crate::model::all_classifiable;
use crate::model::classifiable_from;
use crate::model::digit_pred;
use crate::model::ident_continue_char;
use crate::model::ident_pred;
use crate::model::lemma_span_len_is;
use crate::model::lemma_span_len_props;
use crate::model::lemma_token_at_some;
use crate::model::span_len;
use crate::model::token_at;
use crate::model::tokens_from;
use crate::model::total_len;
use crate::model::whitespace_pred;
use crate::token::TokenKind;

verus! {

/// A punctuation classification is always one of the single-character marks:
/// never whitespace, an identifier, a literal, or the end-of-input kind.
pub proof fn lemma_punct_kind_plain(c: char)
    ensures
        punct_kind(c) is Some ==> {
            let k = punct_kind(c)->0;
            &&& k != TokenKind::Whitespace
            &&& k != TokenKind::Ident
            &&& !(k is Literal)
            &&& k != TokenKind::Eof
        },
{
}

/// Splitting off a sequence's first token splits its total length.
proof fn lemma_total_len_cons(t: (TokenKind, int), rest: Seq<(TokenKind, int)>)
    ensures
        total_len(seq![t] + rest) == t.1 + total_len(rest),
{
    let ts = seq![t] + rest;
    assert(ts[0] == t);
    assert(ts.skip(1) =~= rest);
}

proof fn lemma_coverage_from(s: Seq<char>, i: int)
    requires
        0 <= i <= s.len(),
        classifiable_from(s, i),
    ensures
        total_len(tokens_from(s, i)) == s.len() - i,
    decreases s.len() - i,
{
    if i == s.len() {
        let ts = tokens_from(s, i);
        assert(ts == seq![(TokenKind::Eof, 0int)]);
        assert(ts.skip(1) =~= Seq::<(TokenKind, int)>::empty());
        assert(total_len(ts.skip(1)) == 0);
    } else {
        lemma_token_at_some(s, i);
        let t = token_at(s, i)->0;
        assert(tokens_from(s, i) == seq![t] + tokens_from(s, i + t.1));
        lemma_coverage_from(s, i + t.1);
        lemma_total_len_cons(t, tokens_from(s, i + t.1));
    }
}

/// Coverage: on an input whose characters all classify, the emitted token
/// lengths sum to exactly the input's character count — the tokens partition
/// the input with no gap and no overlap. The closing end-of-input token
/// contributes length zero.
pub proof fn lemma_lengths_cover_input(s: Seq<char>)
    requires
        all_classifiable(s),
    ensures
        total_len(tokens_from(s, 0)) == s.len(),
{
    lemma_coverage_from(s, 0);
}

proof fn lemma_eof_from(s: Seq<char>, i: int)
    requires
        0 <= i <= s.len(),
        classifiable_from(s, i),
    ensures
        tokens_from(s, i).len() >= 1,
        tokens_from(s, i).last() == (TokenKind::Eof, 0int),
        forall|j: int|
            0 <= j < tokens_from(s, i).len() - 1 ==> (#[trigger] tokens_from(s, i)[j]).0
                != TokenKind::Eof && tokens_from(s, i)[j].1 >= 1,
    decreases s.len() - i,
{
    let ts = tokens_from(s, i);
    if i < s.len() {
        lemma_token_at_some(s, i);
        let t = token_at(s, i)->0;
        lemma_eof_from(s, i + t.1);
        let rest = tokens_from(s, i + t.1);
        lemma_punct_kind_plain(s[i]);
        assert(ts.last() == rest.last());
        assert forall|j: int|
            0 <= j < ts.len() - 1 implies (#[trigger] ts[j]).0 != TokenKind::Eof && ts[j].1
            >= 1 by {
            if j == 0 {
                assert(ts[0] == t);
            } else {
                assert(ts[j] == rest[j - 1]);
            }
        }
    }
}

/// Termination: the end-of-input token is emitted exactly once, always last,
/// always with length zero; every other emitted token spans at least one
/// character.
pub proof fn lemma_eof_once_and_last(s: Seq<char>)
    requires
        all_classifiable(s),
    ensures
        tokens_from(s, 0).len() >= 1,
        tokens_from(s, 0).last() == (TokenKind::Eof, 0int),
        forall|j: int|
            0 <= j < tokens_from(s, 0).len() - 1 ==> (#[trigger] tokens_from(s, 0)[j]).0
                != TokenKind::Eof && tokens_from(s, 0)[j].1 >= 1,
{
    lemma_eof_from(s, 0);
}

/// Whether two adjacent token kinds could have been one maximal span: two
/// whitespace runs, two identifiers, an identifier absorbing a following
/// digit run, or two digit runs.
pub open spec fn mergeable_kinds(a: TokenKind, b: TokenKind) -> bool {
    ||| (a == TokenKind::Whitespace && b == TokenKind::Whitespace)
    ||| (a == TokenKind::Ident && (b == TokenKind::Ident || b is Literal))
    ||| (a is Literal && b is Literal)
}

proof fn lemma_munch_from(s: Seq<char>, i: int)
    requires
        0 <= i <= s.len(),
        classifiable_from(s, i),
    ensures
        forall|j: int|
            0 <= j < tokens_from(s, i).len() - 1 ==> !mergeable_kinds(
                (#[trigger] tokens_from(s, i)[j]).0,
                tokens_from(s, i)[j + 1].0,
            ),
    decreases s.len() - i,
{
    let ts = tokens_from(s, i);
    if i < s.len() {
        lemma_token_at_some(s, i);
        let t = token_at(s, i)->0;
        let next = i + t.1;
        lemma_munch_from(s, next);
        let rest = tokens_from(s, next);
        lemma_punct_kind_plain(s[i]);
        if next < s.len() {
            lemma_token_at_some(s, next);
            lemma_punct_kind_plain(s[next]);
            if is_whitespace_char(s[i]) {
                lemma_span_len_props(s, i, whitespace_pred());
                assert(!whitespace_pred()(s[next]));
            } else if is_alphabetic_char(s[i]) {
                lemma_span_len_props(s, i, ident_pred());
                assert(!ident_pred()(s[next]));
            } else if is_digit_char(s[i]) {
                lemma_span_len_props(s, i, digit_pred());
                assert(!digit_pred()(s[next]));
            }
        }
        assert(!mergeable_kinds(t.0, rest[0].0));
        assert forall|j: int|
            0 <= j < ts.len() - 1 implies !mergeable_kinds(
            (#[trigger] ts[j]).0,
            ts[j + 1].0,
        ) by {
            if j == 0 {
                assert(ts[0] == t);
                assert(ts[1] == rest[0]);
            } else {
                assert(ts[j] == rest[j - 1]);
                assert(ts[j + 1] == rest[j]);
            }
        }
    }
}

/// Maximal munch: no two consecutive emitted tokens belong to kinds that one
/// maximal span could have covered — each whitespace, identifier, and digit
/// span runs as far as its class allows before the next token starts.
pub proof fn lemma_maximal_munch(s: Seq<char>)
    requires
        all_classifiable(s),
    ensures
        forall|j: int|
            0 <= j < tokens_from(s, 0).len() - 1 ==> !mergeable_kinds(
                (#[trigger] tokens_from(s, 0)[j]).0,
                tokens_from(s, 0)[j + 1].0,
            ),
{
    lemma_munch_from(s, 0);
}

/// Re-scanning the slice that any single token spans yields exactly that
/// token again, followed by the end-of-input token. This holds at every
/// classifiable position, not only at emitted token boundaries.
pub proof fn lemma_retokenize_span(s: Seq<char>, i: int)
    requires
        0 <= i < s.len(),
        classifiable(s[i]),
    ensures
        ({
            let t = token_at(s, i)->0;
            tokens_from(s.subrange(i, i + t.1), 0) == seq![t, (TokenKind::Eof, 0int)]
        }),
{
    lemma_token_at_some(s, i);
    let t = token_at(s, i)->0;
    let l = t.1;
    let u = s.subrange(i, i + l);
    assert(u[0] == s[i]);
    if is_whitespace_char(s[i]) {
        lemma_span_len_props(s, i, whitespace_pred());
        assert forall|k: int| 0 <= k < l implies whitespace_pred()(u[k]) by {
            assert(whitespace_pred()(s[i + k]));
        }
        lemma_span_len_is(u, 0, l, whitespace_pred());
        assert(token_at(u, 0) == Some(t));
        assert(tokens_from(u, l) == seq![(TokenKind::Eof, 0int)]);
        assert(tokens_from(u, 0) =~= seq![t, (TokenKind::Eof, 0int)]);
    } else if is_alphabetic_char(s[i]) {
        lemma_span_len_props(s, i, ident_pred());
        assert forall|k: int| 0 <= k < l implies ident_pred()(u[k]) by {
            assert(ident_pred()(s[i + k]));
        }
        lemma_span_len_is(u, 0, l, ident_pred());
        assert(token_at(u, 0) == Some(t));
        assert(tokens_from(u, l) == seq![(TokenKind::Eof, 0int)]);
        assert(tokens_from(u, 0) =~= seq![t, (TokenKind::Eof, 0int)]);
    } else if is_digit_char(s[i]) {
        lemma_span_len_props(s, i, digit_pred());
        assert forall|k: int| 0 <= k < l implies digit_pred()(u[k]) by {
            assert(digit_pred()(s[i + k]));
        }
        lemma_span_len_is(u, 0, l, digit_pred());
        assert(token_at(u, 0) == Some(t));
        assert(tokens_from(u, l) == seq![(TokenKind::Eof, 0int)]);
        assert(tokens_from(u, 0) =~= seq![t, (TokenKind::Eof, 0int)]);
    } else {
        assert(token_at(u, 0) == Some(t));
        assert(tokens_from(u, l) == seq![(TokenKind::Eof, 0int)]);
        assert(tokens_from(u, 0) =~= seq![t, (TokenKind::Eof, 0int)]);
    }
}

/// The `j`-th emitted token starts at the position given by summing the
/// lengths before it, and is exactly the model's token at that position.
pub proof fn lemma_token_starts(s: Seq<char>, i: int, j: int)
    requires
        0 <= i <= s.len(),
        classifiable_from(s, i),
        0 <= j < tokens_from(s, i).len() - 1,
    ensures
        ({
            let ts = tokens_from(s, i);
            let p = i + total_len(ts.take(j));
            &&& i <= p < s.len()
            &&& token_at(s, p) == Some(ts[j])
        }),
    decreases j,
{
    let ts = tokens_from(s, i);
    lemma_token_at_some(s, i);
    let t = token_at(s, i)->0;
    let rest = tokens_from(s, i + t.1);
    if j == 0 {
        assert(ts.take(0) =~= Seq::<(TokenKind, int)>::empty());
        assert(ts[0] == t);
    } else {
        lemma_token_starts(s, i + t.1, j - 1);
        assert(ts.take(j) =~= seq![t] + rest.take(j - 1));
        lemma_total_len_cons(t, rest.take(j - 1));
        assert(ts[j] == rest[j - 1]);
    }
}

/// Idempotence of classification: slicing the input along any emitted
/// token's span and re-scanning that slice reproduces the token — the same
/// kind, the same length — followed by the end-of-input token.
pub proof fn lemma_reclassification_idempotent(s: Seq<char>, j: int)
    requires
        all_classifiable(s),
        0 <= j < tokens_from(s, 0).len() - 1,
    ensures
        ({
            let ts = tokens_from(s, 0);
            let p = total_len(ts.take(j));
            tokens_from(s.subrange(p, p + ts[j].1), 0) == seq![ts[j], (TokenKind::Eof, 0int)]
        }),
{
    lemma_token_starts(s, 0, j);
    let ts = tokens_from(s, 0);
    let p = total_len(ts.take(j));
    lemma_retokenize_span(s, p);
}

} // verus!
