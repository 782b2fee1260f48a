use stylesense::definitions::SupportedLanguageE;
use stylesense::diagnostics::line_col_at;
use stylesense::nodes::get_space_between_condition_and_body;
use stylesense::tree::{get_syntax_tree, SyntaxNode, SyntaxTree};

#[test]
fn test_builder_produces_real_tree() {
    let source = "int main() { return 0; }";
    let tree = get_syntax_tree(source.as_bytes(), SupportedLanguageE::LangC).unwrap();
    // The grammar's start symbol sits in the root slot, and the program has
    // structure below it.
    assert_eq!(tree.nodes[0].kind, "translation_unit");
    assert!(tree.node_count() > 1);
    assert_eq!(tree.nodes[0].subtree_end, tree.node_count());
    assert_eq!(tree.source_len, source.len());
}

#[test]
fn test_builder_accepts_both_languages() {
    let source = "int x = 1;";
    assert!(get_syntax_tree(source.as_bytes(), SupportedLanguageE::LangC).is_ok());
    assert!(get_syntax_tree(source.as_bytes(), SupportedLanguageE::LangCPP).is_ok());
}

#[test]
fn test_builder_tolerates_malformed_input() {
    // Malformed input is not an error: analysis proceeds over a best-effort
    // tree with designated error nodes.
    let source = "while (a--) {";
    let tree = get_syntax_tree(source.as_bytes(), SupportedLanguageE::LangC).unwrap();
    assert!(tree.node_count() > 0);
}

#[test]
fn test_gap_on_bare_while_fragments() {
    let spaced = "while (a--) {";
    let tree = get_syntax_tree(spaced.as_bytes(), SupportedLanguageE::LangC).unwrap();
    let whiles = stylesense::nodes::retrieve_while_statements(&tree, tree.root_id());
    assert_eq!(whiles.len(), 1);
    assert_eq!(
        get_space_between_condition_and_body(&tree, whiles[0], spaced.as_bytes()),
        Some(1)
    );

    let jammed = "while(a--){";
    let tree = get_syntax_tree(jammed.as_bytes(), SupportedLanguageE::LangC).unwrap();
    let whiles = stylesense::nodes::retrieve_while_statements(&tree, tree.root_id());
    assert_eq!(whiles.len(), 1);
    assert_eq!(
        get_space_between_condition_and_body(&tree, whiles[0], jammed.as_bytes()),
        Some(0)
    );
}

#[test]
fn test_gap_on_single_statement_body_is_none() {
    let source = "int main() { while (a--) x(); return 0; }";
    let tree = get_syntax_tree(source.as_bytes(), SupportedLanguageE::LangC).unwrap();
    let whiles = stylesense::nodes::retrieve_while_statements(&tree, tree.root_id());
    assert_eq!(whiles.len(), 1);
    assert_eq!(get_space_between_condition_and_body(&tree, whiles[0], source.as_bytes()), None);
}

fn leaf(kind: &str, start: usize, end: usize, slot: usize) -> SyntaxNode {
    SyntaxNode {
        kind: kind.to_string(),
        start_byte: start,
        end_byte: end,
        subtree_end: slot + 1,
        children: Vec::new(),
    }
}

#[test]
fn test_gap_counts_only_space_bytes() {
    // while (a--)\t {   — one tab and one space between `)` and `{`.
    let source = b"while (a--)\t {}".to_vec();
    let tree = SyntaxTree {
        nodes: vec![
            SyntaxNode {
                kind: "while_statement".to_string(),
                start_byte: 0,
                end_byte: 15,
                subtree_end: 3,
                children: vec![1, 2],
            },
            leaf("parenthesized_expression", 6, 11, 1),
            leaf("compound_statement", 13, 15, 2),
        ],
        source_len: source.len(),
    };
    assert_eq!(get_space_between_condition_and_body(&tree, 0, &source), Some(1));
}

#[test]
fn test_gap_without_compound_body_is_none() {
    let source = b"while (a--) x;".to_vec();
    let tree = SyntaxTree {
        nodes: vec![
            SyntaxNode {
                kind: "while_statement".to_string(),
                start_byte: 0,
                end_byte: 14,
                subtree_end: 2,
                children: vec![1],
            },
            leaf("parenthesized_expression", 6, 11, 1),
        ],
        source_len: source.len(),
    };
    assert_eq!(get_space_between_condition_and_body(&tree, 0, &source), None);
}

#[test]
fn test_line_col_mapping() {
    let source = b"ab\ncde\n\nf";
    assert_eq!(line_col_at(source, 0), (0, 0));
    assert_eq!(line_col_at(source, 1), (0, 1));
    assert_eq!(line_col_at(source, 3), (1, 0));
    assert_eq!(line_col_at(source, 6), (1, 3));
    assert_eq!(line_col_at(source, 7), (2, 0));
    assert_eq!(line_col_at(source, 8), (3, 0));
    assert_eq!(line_col_at(source, 9), (3, 1));
}

#[test]
fn test_columns_count_utf16_code_units() {
    // 'é' is two UTF-8 bytes but one UTF-16 unit; '😀' is four UTF-8 bytes
    // and two UTF-16 units (a surrogate pair).
    let source = "aé😀b\nc".as_bytes();
    assert_eq!(line_col_at(source, 1), (0, 1)); // after 'a'
    assert_eq!(line_col_at(source, 3), (0, 2)); // after 'é'
    assert_eq!(line_col_at(source, 7), (0, 4)); // after '😀'
    assert_eq!(line_col_at(source, 8), (0, 5)); // after 'b'
    assert_eq!(line_col_at(source, 9), (1, 0)); // start of the next line
}

#[test]
fn test_language_identifiers() {
    assert_eq!(
        SupportedLanguageE::from_language_id("c"),
        Some(SupportedLanguageE::LangC)
    );
    assert_eq!(
        SupportedLanguageE::from_language_id("cpp"),
        Some(SupportedLanguageE::LangCPP)
    );
    assert_eq!(SupportedLanguageE::from_language_id("rust"), None);
    assert_eq!(SupportedLanguageE::from_language_id(""), None);
}

#[test]
fn test_file_extensions() {
    assert_eq!(
        SupportedLanguageE::from_file_extension("cpp"),
        Some(SupportedLanguageE::LangCPP)
    );
    assert_eq!(
        SupportedLanguageE::from_file_extension("cxx"),
        Some(SupportedLanguageE::LangCPP)
    );
    assert_eq!(
        SupportedLanguageE::from_file_extension("cc"),
        Some(SupportedLanguageE::LangCPP)
    );
    assert_eq!(
        SupportedLanguageE::from_file_extension("c"),
        Some(SupportedLanguageE::LangC)
    );
    assert_eq!(
        SupportedLanguageE::from_file_extension("h"),
        Some(SupportedLanguageE::LangC)
    );
    assert_eq!(SupportedLanguageE::from_file_extension("py"), None);
}

#[test]
fn test_expression_queries() {
    let source = "int f(int a, int b, int c) { int x = a + b; int y = !c; x = 5; return x; }";
    let tree = get_syntax_tree(source.as_bytes(), SupportedLanguageE::LangC).unwrap();
    let root = tree.root_id();
    assert_eq!(stylesense::nodes::retrieve_binary_expressions(&tree, root).len(), 1);
    assert_eq!(stylesense::nodes::retrieve_unary_expressions(&tree, root).len(), 1);
    assert_eq!(stylesense::nodes::retrieve_assignment_expressions(&tree, root).len(), 1);
}

#[test]
fn test_query_returns_source_ordered_nodes() {
    let source = "int a; int b; int c;";
    let tree = get_syntax_tree(source.as_bytes(), SupportedLanguageE::LangC).unwrap();
    let declarations = stylesense::nodes::retrieve_variables(&tree, tree.root_id());
    assert_eq!(declarations.len(), 3);
    for window in declarations.windows(2) {
        assert!(window[0] < window[1]);
        assert!(tree.nodes[window[0]].start_byte <= tree.nodes[window[1]].start_byte);
    }
    assert_eq!(tree.nodes[declarations[0]].start_byte, 0);
    assert_eq!(tree.nodes[declarations[1]].start_byte, 7);
    assert_eq!(tree.nodes[declarations[2]].start_byte, 14);
}
