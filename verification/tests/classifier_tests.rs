use lexparse::token::{next_token, handle_string, handle_numeral, handle_identifier, Lexed,
    TokenKind};

fn chars(s: &str) -> Vec<char> {
    s.chars().collect()
}

#[test]
fn next_token_skips_blanks_before_classifying() {
    let src = chars("  \t 42");
    let mut pos = 0usize;
    match next_token(&src, &mut pos) {
        Lexed::Token(t) => {
            assert_eq!(t.kind, TokenKind::Number);
            assert_eq!(t.lexeme, "42");
            assert_eq!(t.literal.as_deref(), Some("42.0"));
        },
        _ => panic!("expected a token"),
    }
    assert_eq!(pos, 6);
}

#[test]
fn next_token_reports_end_of_input() {
    let src = chars("   ");
    let mut pos = 0usize;
    assert!(matches!(next_token(&src, &mut pos), Lexed::EndOfInput));
}

#[test]
fn next_token_signals_newline_without_a_token() {
    let src = chars("\nx");
    let mut pos = 0usize;
    assert!(matches!(next_token(&src, &mut pos), Lexed::Newline));
    assert_eq!(pos, 1);
}

#[test]
fn next_token_takes_the_two_character_operator() {
    let src = chars("==;");
    let mut pos = 0usize;
    match next_token(&src, &mut pos) {
        Lexed::Token(t) => {
            assert_eq!(t.kind, TokenKind::EqualEqual);
            assert_eq!(t.lexeme, "==");
            assert!(t.literal.is_none());
        },
        _ => panic!("expected a token"),
    }
    assert_eq!(pos, 2);
}

#[test]
fn next_token_flags_unknown_characters() {
    let src = chars("#");
    let mut pos = 0usize;
    assert!(matches!(next_token(&src, &mut pos), Lexed::UnexpectedChar('#')));
}

#[test]
fn handle_numeral_scans_digits_and_dots() {
    let src = chars("12.50x");
    let mut pos = 0usize;
    let t = handle_numeral(&src, &mut pos);
    assert_eq!(t.kind, TokenKind::Number);
    assert_eq!(t.lexeme, "12.50");
    assert_eq!(t.literal.as_deref(), Some("12.5"));
    assert_eq!(pos, 5);
}

#[test]
fn handle_identifier_matches_keywords_exactly() {
    let src = chars("while(");
    let mut pos = 0usize;
    let t = handle_identifier(&src, &mut pos);
    assert_eq!(t.kind, TokenKind::While);
    assert_eq!(t.lexeme, "while");
    assert!(t.literal.is_none());
    assert_eq!(pos, 5);

    let src = chars("whilee");
    let mut pos = 0usize;
    let t = handle_identifier(&src, &mut pos);
    assert_eq!(t.kind, TokenKind::Identifier);
    assert_eq!(t.lexeme, "whilee");
}

#[test]
fn handle_string_consumes_through_the_closing_quote() {
    // the cursor starts after the opening quote
    let src = chars("\"abc\" rest");
    let mut pos = 1usize;
    match handle_string(&src, &mut pos) {
        Lexed::Token(t) => {
            assert_eq!(t.kind, TokenKind::Str);
            assert_eq!(t.lexeme, "\"abc\"");
            assert_eq!(t.literal.as_deref(), Some("abc"));
        },
        _ => panic!("expected a token"),
    }
    assert_eq!(pos, 5);
}

#[test]
fn handle_string_signals_when_the_quote_never_closes() {
    let src = chars("\"abc");
    let mut pos = 1usize;
    assert!(matches!(handle_string(&src, &mut pos), Lexed::UnterminatedString));
    assert_eq!(pos, 4);
}
