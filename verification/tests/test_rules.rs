use stylesense::definitions::SupportedLanguageE::LangC;
use stylesense::diagnostics::DiagnosticSeverity;
use stylesense::rules::{analyze_source, evaluate_assignment_spacing, spacing_rules};
use stylesense::tree::get_syntax_tree;

#[test]
fn test_missing_space_both_sides() {
    let source = "a=5";
    let diagnostics = analyze_source(source.as_bytes(), LangC).unwrap();
    assert_eq!(diagnostics.len(), 2);

    let before = &diagnostics[0];
    assert_eq!(before.message, "Missing space before '='");
    assert_eq!(
        (before.start_line, before.start_col, before.end_line, before.end_col),
        (0, 0, 0, 2)
    );
    assert_eq!(before.severity, DiagnosticSeverity::Warning);
    assert_eq!(before.source_tag, "style-engine");

    let after = &diagnostics[1];
    assert_eq!(after.message, "Missing space after '='");
    assert_eq!((after.start_line, after.start_col, after.end_line, after.end_col), (0, 1, 0, 3));
    assert_eq!(after.severity, DiagnosticSeverity::Warning);
    assert_eq!(after.source_tag, "style-engine");
}

#[test]
fn test_well_spaced_assignment_is_clean() {
    let source = "a = 5";
    let diagnostics = analyze_source(source.as_bytes(), LangC).unwrap();
    assert_eq!(diagnostics.len(), 0);
}

#[test]
fn test_comparison_operator_never_flagged() {
    // A tight comparison has no space on either side of its operator, yet the
    // rule matches the `=` token kind, never the surrounding bytes.
    let source = "int check(int a) { return a==5; }";
    let tree = get_syntax_tree(source.as_bytes(), LangC).unwrap();
    let diagnostics = evaluate_assignment_spacing(&tree, source.as_bytes());
    assert_eq!(diagnostics.len(), 0);
}

#[test]
fn test_compound_assignment_never_flagged() {
    let source = "void bump(int a) { a+=5; }";
    let tree = get_syntax_tree(source.as_bytes(), LangC).unwrap();
    let diagnostics = evaluate_assignment_spacing(&tree, source.as_bytes());
    assert_eq!(diagnostics.len(), 0);
}

#[test]
fn test_declaration_initializer_is_checked() {
    let source = "int main() { int a=5; return a; }";
    let diagnostics = analyze_source(source.as_bytes(), LangC).unwrap();
    assert_eq!(diagnostics.len(), 2);
    assert_eq!(diagnostics[0].message, "Missing space before '='");
    assert_eq!(diagnostics[1].message, "Missing space after '='");
}

#[test]
fn test_missing_space_before_only() {
    let source = "int main() { int a= 5; return a; }";
    let diagnostics = analyze_source(source.as_bytes(), LangC).unwrap();
    assert_eq!(diagnostics.len(), 1);
    assert_eq!(diagnostics[0].message, "Missing space before '='");
}

#[test]
fn test_missing_space_after_only() {
    let source = "int main() { int a =5; return a; }";
    let diagnostics = analyze_source(source.as_bytes(), LangC).unwrap();
    assert_eq!(diagnostics.len(), 1);
    assert_eq!(diagnostics[0].message, "Missing space after '='");
}

#[test]
fn test_condition_body_gap_of_zero_is_flagged() {
    let source = "int main() { while(a--){ } return 0; }";
    let diagnostics = analyze_source(source.as_bytes(), LangC).unwrap();
    assert_eq!(diagnostics.len(), 1);
    assert_eq!(diagnostics[0].message, "Missing space between ')' and '{'");
    assert_eq!(diagnostics[0].severity, DiagnosticSeverity::Warning);
    // The diagnostic is anchored at the opening brace.
    let brace_col = source.find("){").unwrap() + 1;
    assert_eq!(diagnostics[0].start_line, 0);
    assert_eq!(diagnostics[0].start_col, brace_col);
    assert_eq!(diagnostics[0].end_col, brace_col + 1);
}

#[test]
fn test_condition_body_gap_of_one_is_clean() {
    let source = "int main() { while (a--) { } return 0; }";
    let diagnostics = analyze_source(source.as_bytes(), LangC).unwrap();
    assert_eq!(diagnostics.len(), 0);
}

#[test]
fn test_every_operator_on_a_line_is_checked() {
    // A substring search would conflate `=` with `==` and find only the
    // first occurrence per line; the AST-based rule flags both assignments.
    let source = "int main() { a=1; b=2; }";
    let diagnostics = analyze_source(source.as_bytes(), LangC).unwrap();
    assert_eq!(diagnostics.len(), 4);
    let first_eq = source.find('=').unwrap();
    let second_eq = source.rfind('=').unwrap();
    assert_eq!(diagnostics[0].start_col, first_eq - 1);
    assert_eq!(diagnostics[1].start_col, first_eq);
    assert_eq!(diagnostics[2].start_col, second_eq - 1);
    assert_eq!(diagnostics[3].start_col, second_eq);
}

#[test]
fn test_operator_last_on_line_has_no_after_check() {
    let source = "int main() { int x =\n5; return x; }";
    let diagnostics = analyze_source(source.as_bytes(), LangC).unwrap();
    assert_eq!(diagnostics.len(), 0);
}

#[test]
fn test_operator_first_on_line_has_no_before_check() {
    let source = "int main() { int x\n=5; return x; }";
    let diagnostics = analyze_source(source.as_bytes(), LangC).unwrap();
    assert_eq!(diagnostics.len(), 1);
    assert_eq!(diagnostics[0].message, "Missing space after '='");
    assert_eq!(diagnostics[0].start_line, 1);
    assert_eq!(diagnostics[0].start_col, 0);
    assert_eq!(diagnostics[0].end_col, 2);
}

#[test]
fn test_diagnostic_columns_are_utf16() {
    // The comment's emoji is four UTF-8 bytes but two UTF-16 code units, so
    // the reported columns fall short of the byte offsets by two.
    let source = "/* 😀 */ a=5";
    let eq_byte = source.bytes().position(|b| b == b'=').unwrap();
    let diagnostics = analyze_source(source.as_bytes(), LangC).unwrap();
    assert_eq!(diagnostics.len(), 2);
    assert_eq!(diagnostics[0].message, "Missing space before '='");
    assert_eq!(diagnostics[0].start_col, eq_byte - 2 - 1);
    assert_eq!(diagnostics[1].message, "Missing space after '='");
    assert_eq!(diagnostics[1].start_col, eq_byte - 2);
}

#[test]
fn test_spacing_rules_are_named() {
    let rules = spacing_rules();
    assert_eq!(rules.len(), 2);
    assert_eq!(rules[0].name, "space_before_equals");
    assert_eq!(rules[1].name, "space_after_equals");
}
