use lexparse::tokenizer::tokenize;

fn lines_of(src: &str) -> Vec<String> {
    tokenize(src).lines
}

fn rendered_diags(src: &str) -> Vec<String> {
    tokenize(src).diagnostics.iter().map(|d| d.render()).collect()
}

#[test]
fn single_character_punctuation() {
    let cases = [
        ("(", "LEFT_PAREN"),
        (")", "RIGHT_PAREN"),
        ("{", "LEFT_BRACE"),
        ("}", "RIGHT_BRACE"),
        ("*", "STAR"),
        (".", "DOT"),
        (",", "COMMA"),
        ("+", "PLUS"),
        ("-", "MINUS"),
        (";", "SEMICOLON"),
    ];
    for (src, kind) in cases {
        let lines = lines_of(src);
        assert_eq!(lines.len(), 2, "{}", src);
        assert_eq!(lines[0], format!("{} {} null", kind, src));
        assert_eq!(lines[1], "EOF  null");
        assert!(tokenize(src).success());
    }
}

#[test]
fn two_character_operators_bind_greedily() {
    let cases = [("==", "EQUAL_EQUAL"), ("!=", "BANG_EQUAL"), ("<=", "LESS_EQUAL"), (
        ">=",
        "GREATER_EQUAL",
    )];
    for (src, kind) in cases {
        let lines = lines_of(src);
        assert_eq!(lines.len(), 2, "{}", src);
        assert_eq!(lines[0], format!("{} {} null", kind, src));
    }
}

#[test]
fn lone_operator_characters() {
    let cases = [("=", "EQUAL"), ("!", "BANG"), ("<", "LESS"), (">", "GREATER"), ("/", "SLASH")];
    for (src, kind) in cases {
        let lines = lines_of(src);
        assert_eq!(lines.len(), 2, "{}", src);
        assert_eq!(lines[0], format!("{} {} null", kind, src));
    }
}

#[test]
fn comment_contributes_nothing() {
    let lines = lines_of("// anything\n1");
    assert_eq!(lines, vec!["NUMBER 1 1.0".to_string(), "EOF  null".to_string()]);
}

#[test]
fn comment_without_newline_runs_to_end() {
    let lines = lines_of("1 // trailing words");
    assert_eq!(lines, vec!["NUMBER 1 1.0".to_string(), "EOF  null".to_string()]);
}

#[test]
fn whole_numerals_get_a_fractional_zero() {
    assert_eq!(lines_of("1000")[0], "NUMBER 1000 1000.0");
    assert_eq!(lines_of("0")[0], "NUMBER 0 0.0");
}

#[test]
fn fractional_numerals_strip_trailing_zeros() {
    assert_eq!(lines_of("3.1400")[0], "NUMBER 3.1400 3.14");
    assert_eq!(lines_of("2.500")[0], "NUMBER 2.500 2.5");
    assert_eq!(lines_of("2.00")[0], "NUMBER 2.00 2.0");
}

#[test]
fn numeral_scan_is_greedy_over_dots() {
    assert_eq!(lines_of("1.2.3")[0], "NUMBER 1.2.3 1.2.3");
    assert_eq!(lines_of("5.")[0], "NUMBER 5. 5.0");
}

#[test]
fn string_literal_keeps_quotes_in_lexeme() {
    let lines = lines_of("\"hi\"");
    assert_eq!(lines, vec!["STRING \"hi\" hi".to_string(), "EOF  null".to_string()]);
}

#[test]
fn unterminated_string_yields_one_diagnostic() {
    let r = tokenize("\"unterminated");
    assert!(r.lines.iter().all(|l| !l.starts_with("STRING")));
    assert_eq!(r.diagnostics.len(), 1);
    assert_eq!(r.diagnostics[0].render(), "[line 1] Error: Unterminated string.");
    assert!(!r.success());
}

#[test]
fn unexpected_character_is_reported_and_skipped() {
    let r = tokenize("@1");
    assert_eq!(r.lines, vec!["NUMBER 1 1.0".to_string(), "EOF  null".to_string()]);
    assert_eq!(rendered_diags("@1"), vec!["[line 1] Error: Unexpected character: @".to_string()]);
    assert!(!tokenize("@1").success());
}

#[test]
fn diagnostics_carry_the_line_they_began_on() {
    assert_eq!(rendered_diags("\n\n@"), vec!["[line 3] Error: Unexpected character: @".to_string()]);
    let eleven_newlines = "\n\n\n\n\n\n\n\n\n\n\n@";
    assert_eq!(
        rendered_diags(eleven_newlines),
        vec!["[line 12] Error: Unexpected character: @".to_string()],
    );
}

#[test]
fn keywords_are_classified_by_exact_match() {
    let src = "and class else false for fun if nil or print return super this true var while";
    let lines = lines_of(src);
    let kinds = [
        "AND", "CLASS", "ELSE", "FALSE", "FOR", "FUN", "IF", "NIL", "OR", "PRINT", "RETURN",
        "SUPER", "THIS", "TRUE", "VAR", "WHILE",
    ];
    let words = [
        "and", "class", "else", "false", "for", "fun", "if", "nil", "or", "print", "return",
        "super", "this", "true", "var", "while",
    ];
    assert_eq!(lines.len(), 17);
    for i in 0..16 {
        assert_eq!(lines[i], format!("{} {} null", kinds[i], words[i]));
    }
}

#[test]
fn near_keywords_are_identifiers() {
    assert_eq!(lines_of("andy")[0], "IDENTIFIER andy null");
    assert_eq!(lines_of("_var")[0], "IDENTIFIER _var null");
    assert_eq!(lines_of("x1")[0], "IDENTIFIER x1 null");
}

#[test]
fn eof_marker_is_unique_and_last() {
    for src in ["", "1 + 2", "\"a\" b // c\n{}", "@ \"open", "EOF"] {
        let lines = lines_of(src);
        assert_eq!(lines.last().unwrap(), "EOF  null", "{}", src);
        let count = lines.iter().filter(|l| l.as_str() == "EOF  null").count();
        assert_eq!(count, 1, "{}", src);
    }
}

#[test]
fn whitespace_is_skipped_silently() {
    let lines = lines_of(" \t\r 7 ");
    assert_eq!(lines, vec!["NUMBER 7 7.0".to_string(), "EOF  null".to_string()]);
}

#[test]
fn string_may_span_lines_without_advancing_the_counter() {
    let r = tokenize("\"a\nb\"@");
    assert_eq!(r.lines[0], "STRING \"a\nb\" a\nb");
    assert_eq!(r.diagnostics[0].render(), "[line 1] Error: Unexpected character: @");
}
