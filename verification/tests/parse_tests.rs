use lexparse::parser::parse;

fn lines_of(src: &str) -> Vec<String> {
    parse(src).lines
}

fn rendered_diags(src: &str) -> Vec<String> {
    parse(src).diagnostics.iter().map(|d| d.render()).collect()
}

#[test]
fn grouping_binds_tighter_than_factor() {
    assert_eq!(lines_of("(1 + 2) * 3"), vec!["(* (group (+ 1.0 2.0)) 3.0)".to_string()]);
}

#[test]
fn unary_operators_render_prefix() {
    assert_eq!(lines_of("!true"), vec!["(! true)".to_string()]);
    assert_eq!(lines_of("-5"), vec!["(- 5.0)".to_string()]);
}

#[test]
fn unary_operators_nest() {
    assert_eq!(lines_of("!!true"), vec!["(! (! true))".to_string()]);
    assert_eq!(lines_of("--5"), vec!["(- (- 5.0))".to_string()]);
}

#[test]
fn factor_binds_tighter_than_term() {
    assert_eq!(lines_of("1 + 2 * 3"), vec!["(+ 1.0 (* 2.0 3.0))".to_string()]);
    assert_eq!(lines_of("1 * 2 + 3"), vec!["(+ (* 1.0 2.0) 3.0)".to_string()]);
}

#[test]
fn binary_operators_fold_left() {
    assert_eq!(lines_of("1 - 2 - 3"), vec!["(- (- 1.0 2.0) 3.0)".to_string()]);
    assert_eq!(lines_of("8 / 4 / 2"), vec!["(/ (/ 8.0 4.0) 2.0)".to_string()]);
}

#[test]
fn comparison_binds_tighter_than_equality() {
    assert_eq!(lines_of("1 < 2 == true"), vec!["(== (< 1.0 2.0) true)".to_string()]);
    assert_eq!(lines_of("1 >= 2 != nil"), vec!["(!= (>= 1.0 2.0) nil)".to_string()]);
}

#[test]
fn primaries_render_their_canonical_text() {
    assert_eq!(lines_of("\"hi\""), vec!["hi".to_string()]);
    assert_eq!(lines_of("foo"), vec!["foo".to_string()]);
    assert_eq!(lines_of("nil"), vec!["nil".to_string()]);
    assert_eq!(lines_of("false"), vec!["false".to_string()]);
    assert_eq!(lines_of("(nil)"), vec!["(group nil)".to_string()]);
}

#[test]
fn statements_are_parsed_independently() {
    assert_eq!(lines_of("1; 2; 3"), vec!["1.0".to_string(), "2.0".to_string(), "3.0".to_string()]);
}

#[test]
fn unclosed_group_is_reported() {
    let r = parse("(1 + 2");
    assert_eq!(r.lines, Vec::<String>::new());
    assert_eq!(r.diagnostics.len(), 1);
    assert_eq!(r.diagnostics[0].render(), "[line 1] Error: Expect ')' after expression.");
    assert!(!r.success());
}

#[test]
fn unclosed_group_does_not_stop_later_statements() {
    let r = parse("(1; 2");
    assert_eq!(r.lines, vec!["2.0".to_string()]);
    assert_eq!(r.diagnostics.len(), 1);
    assert_eq!(r.diagnostics[0].render(), "[line 1] Error: Expect ')' after expression.");
}

#[test]
fn operator_in_operand_position_is_a_syntax_error() {
    assert_eq!(lines_of("*"), Vec::<String>::new());
    assert_eq!(rendered_diags("*"), vec!["[line 1] Error: Expect expression.".to_string()]);
}

#[test]
fn parser_recovers_at_the_next_terminator() {
    let r = parse("* ; 4");
    assert_eq!(r.lines, vec!["4.0".to_string()]);
    assert_eq!(rendered_diags("* ; 4"), vec!["[line 1] Error: Expect expression.".to_string()]);
}

#[test]
fn lexical_errors_surface_through_parse() {
    let r = parse("@1");
    assert_eq!(r.lines, vec!["1.0".to_string()]);
    assert_eq!(r.diagnostics[0].render(), "[line 1] Error: Unexpected character: @");
    assert!(!r.success());
}

#[test]
fn empty_source_parses_to_nothing() {
    let r = parse("");
    assert_eq!(r.lines, Vec::<String>::new());
    assert!(r.success());
}

#[test]
fn parse_error_lines_follow_the_offending_token() {
    let r = parse("1;\n(2;\n3");
    assert_eq!(r.lines, vec!["1.0".to_string(), "3.0".to_string()]);
    assert_eq!(r.diagnostics.len(), 1);
    assert_eq!(r.diagnostics[0].render(), "[line 2] Error: Expect ')' after expression.");
}

#[test]
fn numeral_literals_render_normalized() {
    assert_eq!(lines_of("2.500 + 1000"), vec!["(+ 2.5 1000.0)".to_string()]);
}
