//! The token data model: a token is a kind paired with the count of source
//! characters it spans.

use vstd::prelude::*;

verus! {

/// A token is just its kind and its length.
#[derive(Debug, Clone, PartialEq, Eq, Structural)]
pub struct Token {
    kind: TokenKind,
    len: usize,
}

/// The closed set of lexical categories.
#[derive(Debug, Clone, PartialEq, Eq, Structural)]
pub enum TokenKind {
    /// `//` comment; declared for forward compatibility, never produced by the scanner.
    LineComment,
    /// `/* */` comment; declared for forward compatibility, never produced by the scanner.
    BlockComment,
    /// One or more contiguous whitespace characters.
    Whitespace,
    /// An alphabetic character followed by alphabetic-or-digit characters.
    Ident,
    /// A literal; currently only unsuffixed digit runs.
    Literal { kind: LiteralKind },
    /// `;`
    Semi,
    /// `,`
    Comma,
    /// `.`
    Dot,
    /// `(`
    OpenParen,
    /// `)`
    CloseParen,
    /// `{`
    OpenBrace,
    /// `}`
    CloseBrace,
    /// `[`
    OpenBracket,
    /// `]`
    CloseBracket,
    /// `@`
    At,
    /// `#`
    Pound,
    /// `~`
    Tilde,
    /// `?`
    Question,
    /// `:`
    Colon,
    /// `$`
    Dollar,
    /// `=`
    Eq,
    /// `!`
    Bang,
    /// `<`
    LessThan,
    /// `>`
    GreaterThan,
    /// `-`
    Minus,
    /// `&`
    And,
    /// `|`
    Or,
    /// `+`
    Plus,
    /// `*`
    Star,
    /// `/`
    Slash,
    /// `^`
    Caret,
    /// `%`
    Percent,
    /// End of input: emitted exactly once, last, with length zero.
    Eof,
}

/// The sub-kind of a `TokenKind::Literal`.
#[derive(Debug, Clone, PartialEq, Eq, Structural)]
pub enum LiteralKind {
    NumberLiteral,
}

impl Token {
    /// The kind of this token, for use in specifications.
    pub closed spec fn spec_kind(self) -> TokenKind {
        self.kind
    }

    /// The length of this token, for use in specifications.
    pub closed spec fn spec_len(self) -> int {
        self.len as int
    }

    /// The kind and length of this token as one pair.
    pub open spec fn pair(self) -> (TokenKind, int) {
        (self.spec_kind(), self.spec_len())
    }

    pub fn new(kind: TokenKind, len: usize) -> (t: Self)
        ensures
            t.spec_kind() == kind,
            t.spec_len() == len as int,
    {
        Self { kind, len }
    }

    pub fn kind(&self) -> (k: &TokenKind)
        ensures
            *k == self.spec_kind(),
    {
        &self.kind
    }

    pub fn len(&self) -> (l: usize)
        ensures
            l as int == self.spec_len(),
    {
        self.len
    }
}

} // verus!
