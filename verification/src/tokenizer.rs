//! The scanner: a cursor over the decoded character sequence that repeatedly
//! emits the next maximal token until the end-of-input token has been
//! produced.

use vstd::prelude::*;

use crate::classify::char_is_alphabetic;
use crate::classify::char_is_digit;
use crate::classify::char_is_whitespace;
use crate::classify::classifiable;
use crate::classify::is_digit_char;
use crate::classify::is_whitespace_char;
use crate::classify::punct_token;
use crate::model::classifiable_from;
use crate::model::digit_pred;
use crate::model::ident_continue_char;
use crate::model::ident_pred;
use crate::model::lemma_span_len_is;
use crate::model::lemma_token_at_some;
use crate::model::lemma_token_pairs_push;
use crate::model::span_len;
use crate::model::token_at;
use crate::model::token_pairs;
use crate::model::tokens_from;
use crate::model::whitespace_pred;
use crate::token::LiteralKind;
use crate::token::Token;
use crate::token::TokenKind;

verus! {

/// The one lexical error: the character at `position` belongs to no
/// recognized class and to no entry of the punctuation table.
#[derive(Debug, Clone, PartialEq, Eq)]
pub struct UnclassifiableCharacter {
    pub position: usize,
    pub character: char,
}

/// Relies on `str::chars`: the characters of the slice in order, which is
/// exactly the slice's view. A `Vec<char>` takes four bytes per element and
/// std caps every allocation at `isize::MAX` bytes, so the vector's length
/// stays below `usize::MAX`.
#[verifier::external_body]
fn collect_chars(src: &str) -> (r: Vec<char>)
    ensures
        r@ == src@,
        r@.len() < usize::MAX,
{
    src.chars().collect()
}

/// The scanner's whole state: the decoded input and one cursor into it.
pub struct Tokenizer {
    src: Vec<char>,
    position: usize,
}

impl Tokenizer {
    /// The decoded input this scanner walks.
    pub closed spec fn input(self) -> Seq<char> {
        self.src@
    }

    /// The cursor: the next position to be read. It moves one past the
    /// input's end when the end-of-input token is emitted.
    pub closed spec fn pos(self) -> int {
        self.position as int
    }

    /// Well-formed scanners hold an input short enough for the cursor to
    /// step past its end; `new` establishes this for every input it accepts.
    pub open spec fn wf(self) -> bool {
        self.input().len() < usize::MAX
    }

    pub fn new(src: &str) -> (t: Self)
        ensures
            t.wf(),
            t.input() == src@,
            t.pos() == 0,
    {
        let src = collect_chars(src);
        Self { src, position: 0 }
    }

    /// Scan the whole input eagerly: the complete ordered token sequence,
    /// closed by the end-of-input token — or the first unclassifiable
    /// character, with its position.
    pub fn tokenize(&mut self) -> (r: Result<Vec<Token>, UnclassifiableCharacter>)
        requires
            old(self).wf(),
        ensures
            final(self).wf(),
            final(self).input() == old(self).input(),
            match r {
                Ok(tokens) => {
                    &&& classifiable_from(old(self).input(), old(self).pos())
                    &&& token_pairs(tokens@) == tokens_from(old(self).input(), old(self).pos())
                    &&& old(self).pos() <= old(self).input().len() ==> final(self).pos() == old(
                        self,
                    ).input().len() + 1
                    &&& old(self).pos() > old(self).input().len() ==> final(self).pos() == old(
                        self,
                    ).pos()
                },
                Err(e) => {
                    &&& old(self).pos() <= e.position as int
                    &&& (e.position as int) < old(self).input().len()
                    &&& e.character == old(self).input()[e.position as int]
                    &&& !classifiable(old(self).input()[e.position as int])
                    &&& forall|k: int|
                        old(self).pos() <= k < e.position as int ==> classifiable(
                            #[trigger] old(self).input()[k],
                        )
                    &&& final(self).pos() == e.position as int
                },
            },
    {
        let mut tokens: Vec<Token> = Vec::new();
        let ghost s = self.src@;
        let ghost start = self.position as int;
        loop
            invariant
                self.src@ == s,
                s == old(self).input(),
                start == old(self).pos(),
                s.len() < usize::MAX,
                start <= self.position as int,
                self.position as int <= s.len() + 1 || self.position as int == start,
                forall|k: int|
                    start <= k < self.position as int && k < s.len() ==> classifiable(
                        #[trigger] s[k],
                    ),
                self.position as int <= s.len() ==> token_pairs(tokens@) + tokens_from(
                    s,
                    self.position as int,
                ) == tokens_from(s, start),
                self.position as int > s.len() ==> token_pairs(tokens@) == tokens_from(s, start),
            decreases s.len() + 2 - self.position,
        {
            let ghost pos_before = self.position as int;
            let ghost pairs_before = token_pairs(tokens@);
            match self.next_token() {
                Ok(Some(token)) => {
                    proof {
                        lemma_token_pairs_push(tokens@, token);
                        if pos_before == s.len() {
                            assert(tokens_from(s, pos_before) =~= seq![
                                (TokenKind::Eof, 0int),
                            ]);
                            assert(token_pairs(tokens@.push(token)) =~= pairs_before + seq![
                                token.pair(),
                            ]);
                        } else {
                            assert(tokens_from(s, pos_before) == seq![token.pair()] + tokens_from(
                                s,
                                self.position as int,
                            ));
                            assert(token_pairs(tokens@.push(token)) + tokens_from(
                                s,
                                self.position as int,
                            ) =~= pairs_before + tokens_from(s, pos_before));
                        }
                    }
                    tokens.push(token);
                },
                Ok(None) => {
                    return Ok(tokens);
                },
                Err(e) => {
                    return Err(e);
                },
            }
        }
    }

    /// One scanning step: the next maximal token, `Ok(None)` once the cursor
    /// stands past the end, or the unclassifiable character under the cursor.
    fn next_token(&mut self) -> (r: Result<Option<Token>, UnclassifiableCharacter>)
        requires
            old(self).wf(),
        ensures
            final(self).wf(),
            final(self).input() == old(self).input(),
            match r {
                Ok(Some(t)) => {
                    &&& old(self).pos() <= old(self).input().len()
                    &&& old(self).pos() == old(self).input().len() ==> {
                        &&& t.pair() == (TokenKind::Eof, 0int)
                        &&& final(self).pos() == old(self).pos() + 1
                    }
                    &&& old(self).pos() < old(self).input().len() ==> {
                        &&& token_at(old(self).input(), old(self).pos()) == Some(t.pair())
                        &&& 1 <= t.spec_len()
                        &&& final(self).pos() == old(self).pos() + t.spec_len()
                        &&& final(self).pos() <= old(self).input().len()
                        &&& forall|k: int|
                            old(self).pos() <= k < final(self).pos() ==> classifiable(
                                #[trigger] old(self).input()[k],
                            )
                    }
                },
                Ok(None) => {
                    &&& old(self).pos() > old(self).input().len()
                    &&& final(self).pos() == old(self).pos()
                },
                Err(e) => {
                    &&& old(self).pos() < old(self).input().len()
                    &&& e.position as int == old(self).pos()
                    &&& e.character == old(self).input()[old(self).pos()]
                    &&& !classifiable(old(self).input()[old(self).pos()])
                    &&& final(self).pos() == old(self).pos()
                },
            },
    {
        if self.src.len() == self.position {
            self.position = self.position + 1;
            return Ok(Some(Token::new(TokenKind::Eof, 0)));
        }
        if self.position > self.src.len() {
            return Ok(None);
        }

        let start = self.position;
        let c = self.src[self.position];
        let ghost s = self.src@;

        let kind = if char_is_whitespace(c) {
            self.whitespace()
        } else if char_is_alphabetic(c) {
            self.ident()
        } else if char_is_digit(c) {
            self.number()
        } else {
            match punct_token(c) {
                Some(k) => k,
                None => {
                    return Err(
                        UnclassifiableCharacter { position: self.position, character: c },
                    );
                },
            }
        };
        proof {
            lemma_token_at_some(s, start as int);
        }
        self.position = self.position + 1;
        let len = self.position - start;
        Ok(Some(Token::new(kind, len)))
    }

    /// Consume the maximal whitespace run under the cursor, leaving the
    /// cursor on the run's last character.
    fn whitespace(&mut self) -> (kind: TokenKind)
        requires
            old(self).wf(),
            old(self).pos() < old(self).input().len(),
            is_whitespace_char(old(self).input()[old(self).pos()]),
        ensures
            final(self).wf(),
            final(self).input() == old(self).input(),
            kind == TokenKind::Whitespace,
            final(self).pos() == old(self).pos() + span_len(
                old(self).input(),
                old(self).pos(),
                whitespace_pred(),
            ) - 1,
    {
        let ghost s = self.src@;
        let ghost start = self.position as int;
        loop
            invariant
                self.src@ == s,
                0 <= start < s.len(),
                is_whitespace_char(s[start]),
                start <= self.position as int <= s.len(),
                forall|k: int|
                    start <= k < self.position as int ==> is_whitespace_char(#[trigger] s[k]),
            ensures
                self.src@ == s,
                start < self.position as int <= s.len(),
                forall|k: int|
                    start <= k < self.position as int ==> is_whitespace_char(#[trigger] s[k]),
                self.position as int == s.len() || !is_whitespace_char(s[self.position as int]),
            decreases s.len() - self.position,
        {
            if self.position == self.src.len() {
                break;
            }
            if !char_is_whitespace(self.src[self.position]) {
                break;
            }
            self.position = self.position + 1;
        }
        proof {
            assert forall|k: int|
                start <= k < self.position as int implies whitespace_pred()(s[k]) by {
                assert(is_whitespace_char(s[k]));
            }
            lemma_span_len_is(s, start, self.position as int, whitespace_pred());
        }
        self.position = self.position - 1;
        TokenKind::Whitespace
    }

    /// Consume the maximal identifier run under the cursor — alphabetic or
    /// digit characters — leaving the cursor on the run's last character.
    fn ident(&mut self) -> (kind: TokenKind)
        requires
            old(self).wf(),
            old(self).pos() < old(self).input().len(),
            ident_continue_char(old(self).input()[old(self).pos()]),
        ensures
            final(self).wf(),
            final(self).input() == old(self).input(),
            kind == TokenKind::Ident,
            final(self).pos() == old(self).pos() + span_len(
                old(self).input(),
                old(self).pos(),
                ident_pred(),
            ) - 1,
    {
        let ghost s = self.src@;
        let ghost start = self.position as int;
        loop
            invariant
                self.src@ == s,
                0 <= start < s.len(),
                ident_continue_char(s[start]),
                start <= self.position as int <= s.len(),
                forall|k: int|
                    start <= k < self.position as int ==> ident_continue_char(#[trigger] s[k]),
            ensures
                self.src@ == s,
                start < self.position as int <= s.len(),
                forall|k: int|
                    start <= k < self.position as int ==> ident_continue_char(#[trigger] s[k]),
                self.position as int == s.len() || !ident_continue_char(s[self.position as int]),
            decreases s.len() - self.position,
        {
            if self.position == self.src.len() {
                break;
            }
            let c = self.src[self.position];
            if !(char_is_alphabetic(c) || char_is_digit(c)) {
                break;
            }
            self.position = self.position + 1;
        }
        proof {
            assert forall|k: int|
                start <= k < self.position as int implies ident_pred()(s[k]) by {
                assert(ident_continue_char(s[k]));
            }
            lemma_span_len_is(s, start, self.position as int, ident_pred());
        }
        self.position = self.position - 1;
        TokenKind::Ident
    }

    /// Consume the maximal digit run under the cursor, leaving the cursor on
    /// the run's last character.
    fn number(&mut self) -> (kind: TokenKind)
        requires
            old(self).wf(),
            old(self).pos() < old(self).input().len(),
            is_digit_char(old(self).input()[old(self).pos()]),
        ensures
            final(self).wf(),
            final(self).input() == old(self).input(),
            kind == (TokenKind::Literal { kind: LiteralKind::NumberLiteral }),
            final(self).pos() == old(self).pos() + span_len(
                old(self).input(),
                old(self).pos(),
                digit_pred(),
            ) - 1,
    {
        let ghost s = self.src@;
        let ghost start = self.position as int;
        loop
            invariant
                self.src@ == s,
                0 <= start < s.len(),
                is_digit_char(s[start]),
                start <= self.position as int <= s.len(),
                forall|k: int|
                    start <= k < self.position as int ==> is_digit_char(
                        #[trigger] s[k],
                    ),
            ensures
                self.src@ == s,
                start < self.position as int <= s.len(),
                forall|k: int|
                    start <= k < self.position as int ==> is_digit_char(
                        #[trigger] s[k],
                    ),
                self.position as int == s.len() || !is_digit_char(
                    s[self.position as int],
                ),
            decreases s.len() - self.position,
        {
            if self.position == self.src.len() {
                break;
            }
            if !char_is_digit(self.src[self.position]) {
                break;
            }
            self.position = self.position + 1;
        }
        proof {
            assert forall|k: int|
                start <= k < self.position as int implies digit_pred()(s[k]) by {
                assert(is_digit_char(s[k]));
            }
            lemma_span_len_is(s, start, self.position as int, digit_pred());
        }
        self.position = self.position - 1;
        TokenKind::Literal { kind: LiteralKind::NumberLiteral }
    }
}

} // verus!
