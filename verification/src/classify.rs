//! Character classes that drive the scanner's dispatch: whitespace,
//! alphabetic, ASCII digit, and the fixed single-character punctuation table.

use vstd::prelude::*;

use crate::token::TokenKind;

verus! {

/// Whether `c` is a whitespace character: the result of `char::is_whitespace`.
pub uninterp spec fn is_whitespace_char(c: char) -> bool;

/// Whether `c` is an alphabetic character: the result of `char::is_alphabetic`.
pub uninterp spec fn is_alphabetic_char(c: char) -> bool;

/// Relies on `char::is_whitespace`: whether `c` has the Unicode `White_Space`
/// property, a function of the character alone.
#[verifier::external_body]
pub(crate) fn char_is_whitespace(c: char) -> (r: bool)
    ensures
        r == is_whitespace_char(c),
{
    c.is_whitespace()
}

/// Relies on `char::is_alphabetic`: whether `c` is in the Unicode `Alphabetic`
/// class, a function of the character alone.
#[verifier::external_body]
pub(crate) fn char_is_alphabetic(c: char) -> (r: bool)
    ensures
        r == is_alphabetic_char(c),
{
    c.is_alphabetic()
}

/// Whether `c` is an ASCII digit, `'0'` through `'9'`.
pub open spec fn is_digit_char(c: char) -> bool {
    ('0' as u32) <= (c as u32) && (c as u32) <= ('9' as u32)
}

pub(crate) fn char_is_digit(c: char) -> (r: bool)
    ensures
        r == is_digit_char(c),
{
    let u = c as u32;
    ('0' as u32) <= u && u <= ('9' as u32)
}

/// The fixed single-character punctuation table: the token kind a lone `c`
/// classifies as, or `None` when `c` is no punctuation mark.
pub open spec fn punct_kind(c: char) -> Option<TokenKind> {
    if c == ';' {
        Some(TokenKind::Semi)
    } else if c == ',' {
        Some(TokenKind::Comma)
    } else if c == '.' {
        Some(TokenKind::Dot)
    } else if c == '(' {
        Some(TokenKind::OpenParen)
    } else if c == ')' {
        Some(TokenKind::CloseParen)
    } else if c == '{' {
        Some(TokenKind::OpenBrace)
    } else if c == '}' {
        Some(TokenKind::CloseBrace)
    } else if c == '[' {
        Some(TokenKind::OpenBracket)
    } else if c == ']' {
        Some(TokenKind::CloseBracket)
    } else if c == '@' {
        Some(TokenKind::At)
    } else if c == '#' {
        Some(TokenKind::Pound)
    } else if c == '~' {
        Some(TokenKind::Tilde)
    } else if c == '?' {
        Some(TokenKind::Question)
    } else if c == ':' {
        Some(TokenKind::Colon)
    } else if c == '$' {
        Some(TokenKind::Dollar)
    } else if c == '=' {
        Some(TokenKind::Eq)
    } else if c == '!' {
        Some(TokenKind::Bang)
    } else if c == '<' {
        Some(TokenKind::LessThan)
    } else if c == '>' {
        Some(TokenKind::GreaterThan)
    } else if c == '-' {
        Some(TokenKind::Minus)
    } else if c == '&' {
        Some(TokenKind::And)
    } else if c == '|' {
        Some(TokenKind::Or)
    } else if c == '+' {
        Some(TokenKind::Plus)
    } else if c == '*' {
        Some(TokenKind::Star)
    } else if c == '/' {
        Some(TokenKind::Slash)
    } else if c == '^' {
        Some(TokenKind::Caret)
    } else if c == '%' {
        Some(TokenKind::Percent)
    } else {
        None
    }
}

pub(crate) fn punct_token(c: char) -> (r: Option<TokenKind>)
    ensures
        r == punct_kind(c),
{
    match c {
        ';' => Some(TokenKind::Semi),
        ',' => Some(TokenKind::Comma),
        '.' => Some(TokenKind::Dot),
        '(' => Some(TokenKind::OpenParen),
        ')' => Some(TokenKind::CloseParen),
        '{' => Some(TokenKind::OpenBrace),
        '}' => Some(TokenKind::CloseBrace),
        '[' => Some(TokenKind::OpenBracket),
        ']' => Some(TokenKind::CloseBracket),
        '@' => Some(TokenKind::At),
        '#' => Some(TokenKind::Pound),
        '~' => Some(TokenKind::Tilde),
        '?' => Some(TokenKind::Question),
        ':' => Some(TokenKind::Colon),
        '$' => Some(TokenKind::Dollar),
        '=' => Some(TokenKind::Eq),
        '!' => Some(TokenKind::Bang),
        '<' => Some(TokenKind::LessThan),
        '>' => Some(TokenKind::GreaterThan),
        '-' => Some(TokenKind::Minus),
        '&' => Some(TokenKind::And),
        '|' => Some(TokenKind::Or),
        '+' => Some(TokenKind::Plus),
        '*' => Some(TokenKind::Star),
        '/' => Some(TokenKind::Slash),
        '^' => Some(TokenKind::Caret),
        '%' => Some(TokenKind::Percent),
        _ => None,
    }
}

/// Whether `c` falls in some recognized class: whitespace, alphabetic, ASCII
/// digit, or the punctuation table. The scanner fails exactly on characters
/// outside all four.
pub open spec fn classifiable(c: char) -> bool {
    ||| is_whitespace_char(c)
    ||| is_alphabetic_char(c)
    ||| is_digit_char(c)
    ||| punct_kind(c) is Some
}

} // verus!
