use lexer::token::LiteralKind;
use lexer::token::Token;
use lexer::token::TokenKind;
use lexer::tokenizer::Tokenizer;

fn number_token(len: usize) -> Token {
    Token::new(TokenKind::Literal { kind: LiteralKind::NumberLiteral }, len)
}

#[test]
fn simple_tokenizing() {
    let code = "a <- 1 + 1;";
    let mut tokenizer = Tokenizer::new(code);

    let tokens = tokenizer.tokenize().unwrap();

    assert_eq!(
        tokens,
        vec![
            Token::new(TokenKind::Ident, 1),
            Token::new(TokenKind::Whitespace, 1),
            Token::new(TokenKind::LessThan, 1),
            Token::new(TokenKind::Minus, 1),
            Token::new(TokenKind::Whitespace, 1),
            Token::new(
                TokenKind::Literal {
                    kind: LiteralKind::NumberLiteral
                },
                1
            ),
            Token::new(TokenKind::Whitespace, 1),
            Token::new(TokenKind::Plus, 1),
            Token::new(TokenKind::Whitespace, 1),
            Token::new(
                TokenKind::Literal {
                    kind: LiteralKind::NumberLiteral
                },
                1
            ),
            Token::new(TokenKind::Semi, 1),
            Token::new(TokenKind::Eof, 0)
        ]
    );
}

#[test]
fn empty_input_yields_only_eof() {
    let tokens = Tokenizer::new("").tokenize().unwrap();
    assert_eq!(tokens, vec![Token::new(TokenKind::Eof, 0)]);
}

#[test]
fn leading_letter_absorbs_digits() {
    let tokens = Tokenizer::new("abc123").tokenize().unwrap();
    assert_eq!(
        tokens,
        vec![Token::new(TokenKind::Ident, 6), Token::new(TokenKind::Eof, 0)]
    );
}

#[test]
fn digit_run_stops_at_first_letter() {
    let tokens = Tokenizer::new("123abc").tokenize().unwrap();
    assert_eq!(
        tokens,
        vec![
            number_token(3),
            Token::new(TokenKind::Ident, 3),
            Token::new(TokenKind::Eof, 0)
        ]
    );
}

#[test]
fn backtick_is_unclassifiable() {
    let err = Tokenizer::new("`").tokenize().unwrap_err();
    assert_eq!(err.position, 0);
    assert_eq!(err.character, '`');
}

#[test]
fn error_reports_first_unclassifiable_position() {
    let err = Tokenizer::new("ab`cd").tokenize().unwrap_err();
    assert_eq!(err.position, 2);
    assert_eq!(err.character, '`');
}

#[test]
fn error_position_counts_characters_not_bytes() {
    // Two alphabetic characters outside ASCII, then the offending mark.
    let err = Tokenizer::new("\u{3b1}\u{3b2}`").tokenize().unwrap_err();
    assert_eq!(err.position, 2);
    assert_eq!(err.character, '`');
}

#[test]
fn whitespace_run_is_one_token() {
    let tokens = Tokenizer::new(" \t\n\r x").tokenize().unwrap();
    assert_eq!(
        tokens,
        vec![
            Token::new(TokenKind::Whitespace, 5),
            Token::new(TokenKind::Ident, 1),
            Token::new(TokenKind::Eof, 0)
        ]
    );
}

#[test]
fn nonascii_whitespace_joins_the_run() {
    // An ordinary space followed by a no-break space: one whitespace token.
    let tokens = Tokenizer::new(" \u{a0}x").tokenize().unwrap();
    assert_eq!(
        tokens,
        vec![
            Token::new(TokenKind::Whitespace, 2),
            Token::new(TokenKind::Ident, 1),
            Token::new(TokenKind::Eof, 0)
        ]
    );
}

#[test]
fn nonascii_alphabetics_join_identifiers() {
    let tokens = Tokenizer::new("gr\u{fc}n7").tokenize().unwrap();
    assert_eq!(
        tokens,
        vec![Token::new(TokenKind::Ident, 5), Token::new(TokenKind::Eof, 0)]
    );
}

#[test]
fn every_punctuation_mark_classifies() {
    let tokens = Tokenizer::new(";,.(){}[]@#~?:$=!<>-&|+*/^%").tokenize().unwrap();
    let kinds = [
        TokenKind::Semi,
        TokenKind::Comma,
        TokenKind::Dot,
        TokenKind::OpenParen,
        TokenKind::CloseParen,
        TokenKind::OpenBrace,
        TokenKind::CloseBrace,
        TokenKind::OpenBracket,
        TokenKind::CloseBracket,
        TokenKind::At,
        TokenKind::Pound,
        TokenKind::Tilde,
        TokenKind::Question,
        TokenKind::Colon,
        TokenKind::Dollar,
        TokenKind::Eq,
        TokenKind::Bang,
        TokenKind::LessThan,
        TokenKind::GreaterThan,
        TokenKind::Minus,
        TokenKind::And,
        TokenKind::Or,
        TokenKind::Plus,
        TokenKind::Star,
        TokenKind::Slash,
        TokenKind::Caret,
        TokenKind::Percent,
    ];
    assert_eq!(tokens.len(), kinds.len() + 1);
    for (token, kind) in tokens.iter().zip(kinds.iter()) {
        assert_eq!(token.kind(), kind);
        assert_eq!(token.len(), 1);
    }
    assert_eq!(tokens[kinds.len()], Token::new(TokenKind::Eof, 0));
}

#[test]
fn token_accessors_return_what_new_was_given() {
    let token = Token::new(TokenKind::Colon, 1);
    assert_eq!(*token.kind(), TokenKind::Colon);
    assert_eq!(token.len(), 1);
    let token = number_token(17);
    assert_eq!(
        *token.kind(),
        TokenKind::Literal { kind: LiteralKind::NumberLiteral }
    );
    assert_eq!(token.len(), 17);
}

#[test]
fn token_lengths_cover_the_input() {
    let code = "let x = 10 + foo(2);";
    let tokens = Tokenizer::new(code).tokenize().unwrap();
    let total: usize = tokens.iter().map(|t| t.len()).sum();
    assert_eq!(total, code.chars().count());
}

#[test]
fn eof_comes_exactly_once_and_last() {
    let code = "a <- 1 + 1;";
    let tokens = Tokenizer::new(code).tokenize().unwrap();
    let eof_count = tokens
        .iter()
        .filter(|t| *t.kind() == TokenKind::Eof)
        .count();
    assert_eq!(eof_count, 1);
    let last = tokens.last().unwrap();
    assert_eq!(*last.kind(), TokenKind::Eof);
    assert_eq!(last.len(), 0);
}

#[test]
fn consecutive_tokens_never_share_a_mergeable_class() {
    let code = "aa  11 b2b\t334;;x";
    let tokens = Tokenizer::new(code).tokenize().unwrap();
    for pair in tokens.windows(2) {
        let a = pair[0].kind();
        let b = pair[1].kind();
        let both_whitespace = *a == TokenKind::Whitespace && *b == TokenKind::Whitespace;
        let ident_then_continuation = *a == TokenKind::Ident
            && (*b == TokenKind::Ident || matches!(b, TokenKind::Literal { .. }));
        let both_literals =
            matches!(a, TokenKind::Literal { .. }) && matches!(b, TokenKind::Literal { .. });
        assert!(!both_whitespace);
        assert!(!ident_then_continuation);
        assert!(!both_literals);
    }
}

#[test]
fn retokenizing_each_slice_reproduces_its_token() {
    let code = "ab 12;(x)\t9";
    let chars: Vec<char> = code.chars().collect();
    let tokens = Tokenizer::new(code).tokenize().unwrap();
    let mut start = 0usize;
    for token in tokens.iter() {
        if *token.kind() == TokenKind::Eof {
            continue;
        }
        let slice: String = chars[start..start + token.len()].iter().collect();
        let again = Tokenizer::new(&slice).tokenize().unwrap();
        assert_eq!(again.len(), 2);
        assert_eq!(again[0], *token);
        assert_eq!(again[1], Token::new(TokenKind::Eof, 0));
        start += token.len();
    }
}

#[test]
fn second_scan_of_a_finished_tokenizer_is_empty() {
    let mut tokenizer = Tokenizer::new("a");
    let first = tokenizer.tokenize().unwrap();
    assert_eq!(
        first,
        vec![Token::new(TokenKind::Ident, 1), Token::new(TokenKind::Eof, 0)]
    );
    let second = tokenizer.tokenize().unwrap();
    assert_eq!(second, vec![]);
}
