//! The style rule evaluator.
//!
//! Each rule is a pure function from a syntax tree and the source bytes it
//! was built from to a sequence of diagnostics in source order. The
//! spacing-around-assignment rule is AST-based: it starts from the operator
//! *token* of an assignment or of a declaration's initializer, never from a
//! raw substring search, so a comparison `==` or a compound `+=` can never
//! trigger it. The condition/body rule is derived purely from the
//! condition-to-body gap metric.

use vstd::prelude::*;

use crate::definitions::SupportedLanguageE;
use crate::diagnostics::{
    col_of, diags_view, lemma_line_start_bounds, lemma_utf16_len_bounds, line_of, line_start_of,
    utf16_len, DiagInfo, Diagnostic, DiagnosticSeverity,
};
use crate::nodes::{last_child_of_kind, last_child_with_kind, spec_space_between};
use crate::tree::{get_syntax_tree, node_wf, parsed_nodes, SyntaxNode, SyntaxTree, TreeBuildError};

verus! {

/// A named style rule, as presented to clients.
pub struct StyleRule {
    pub name: &'static str,
    pub description: &'static str,
}

/// The two checks the spacing-around-assignment rule performs.
pub fn spacing_rules() -> (r: Vec<StyleRule>)
    ensures
        r@.len() == 2,
        r@[0].name@ == "space_before_equals"@,
        r@[1].name@ == "space_after_equals"@,
{
    let mut rules: Vec<StyleRule> = Vec::new();
    rules.push(
        StyleRule {
            name: "space_before_equals",
            description: "Require space before equals sign",
        },
    );
    rules.push(
        StyleRule { name: "space_after_equals", description: "Require space after equals sign" },
    );
    rules
}

/// Whether slot `i` holds a node the assignment-spacing rule inspects: an
/// assignment expression, or a declarator with an initializer.
pub open spec fn is_assignment_like(nodes: Seq<SyntaxNode>, i: int) -> bool {
    nodes[i].kind@ == "assignment_expression"@ || nodes[i].kind@ == "init_declarator"@
}

/// The operator at byte `s` has a non-space, non-tab byte immediately before
/// it on the same line.
pub open spec fn missing_space_before(src: Seq<u8>, s: int) -> bool {
    col_of(src, s) > 0 && src[s - 1] != 32u8 && src[s - 1] != 9u8
}

/// The operator ending at byte `e` has a non-space, non-tab byte immediately
/// after it on the same line (a newline or carriage return ends the line).
pub open spec fn missing_space_after(src: Seq<u8>, e: int) -> bool {
    e < src.len() && src[e] != 10u8 && src[e] != 13u8 && src[e] != 32u8 && src[e] != 9u8
}

/// The diagnostic for a missing space before the operator at byte `s`: it
/// spans the character immediately before the operator through the operator's
/// first character.
pub open spec fn before_diag(src: Seq<u8>, s: int) -> DiagInfo {
    DiagInfo {
        start_line: line_of(src, s),
        start_col: col_of(src, s) - 1,
        end_line: line_of(src, s),
        end_col: col_of(src, s) + 1,
        severity: DiagnosticSeverity::Warning,
        source_tag: "style-engine"@,
        message: "Missing space before '='"@,
    }
}

/// The diagnostic for a missing space after the operator at byte `s`: it
/// spans the operator through the character immediately after it.
pub open spec fn after_diag(src: Seq<u8>, s: int) -> DiagInfo {
    DiagInfo {
        start_line: line_of(src, s),
        start_col: col_of(src, s),
        end_line: line_of(src, s),
        end_col: col_of(src, s) + 2,
        severity: DiagnosticSeverity::Warning,
        source_tag: "style-engine"@,
        message: "Missing space after '='"@,
    }
}

/// What the spacing rule emits for one operator token spanning `[s, e)`.
pub open spec fn op_diags(src: Seq<u8>, s: int, e: int) -> Seq<DiagInfo> {
    let before = if missing_space_before(src, s) {
        seq![before_diag(src, s)]
    } else {
        Seq::<DiagInfo>::empty()
    };
    let after = if missing_space_after(src, e) {
        seq![after_diag(src, s)]
    } else {
        Seq::<DiagInfo>::empty()
    };
    before + after
}

/// What the spacing rule emits for the node in slot `i`: nothing unless the
/// node is assignment-like and has a direct child token of kind `=`.
pub open spec fn node_spacing_diags(nodes: Seq<SyntaxNode>, i: int, src: Seq<u8>) -> Seq<DiagInfo> {
    if is_assignment_like(nodes, i) {
        match last_child_of_kind(nodes, nodes[i].children@, "="@) {
            Some(op) => op_diags(
                src,
                nodes[op as int].start_byte as int,
                nodes[op as int].end_byte as int,
            ),
            None => Seq::empty(),
        }
    } else {
        Seq::empty()
    }
}

/// What the spacing rule emits for the slots before `upto`, in slot order.
pub open spec fn spacing_diags_upto(nodes: Seq<SyntaxNode>, src: Seq<u8>, upto: int) -> Seq<
    DiagInfo,
>
    decreases upto,
{
    if upto <= 0 {
        Seq::empty()
    } else {
        spacing_diags_upto(nodes, src, upto - 1) + node_spacing_diags(nodes, upto - 1, src)
    }
}

/// Everything the spacing-around-assignment rule emits for one tree.
pub open spec fn spacing_diags(nodes: Seq<SyntaxNode>, src: Seq<u8>) -> Seq<DiagInfo> {
    spacing_diags_upto(nodes, src, nodes.len() as int)
}

/// Whether slot `i` holds a control statement the condition/body rule
/// inspects.
pub open spec fn is_conditional_kind(nodes: Seq<SyntaxNode>, i: int) -> bool {
    nodes[i].kind@ == "if_statement"@ || nodes[i].kind@ == "while_statement"@ || nodes[i].kind@
        == "for_statement"@
}

/// The diagnostic for a condition and body jammed together, anchored at the
/// opening brace at byte `p`.
pub open spec fn gap_diag(src: Seq<u8>, p: int) -> DiagInfo {
    DiagInfo {
        start_line: line_of(src, p),
        start_col: col_of(src, p),
        end_line: line_of(src, p),
        end_col: col_of(src, p) + 1,
        severity: DiagnosticSeverity::Warning,
        source_tag: "style-engine"@,
        message: "Missing space between ')' and '{'"@,
    }
}

/// What the condition/body rule emits for the node in slot `i`: one
/// diagnostic exactly when the condition-to-body gap of a control statement
/// is zero.
pub open spec fn node_gap_diags(nodes: Seq<SyntaxNode>, i: int, src: Seq<u8>) -> Seq<DiagInfo> {
    if is_conditional_kind(nodes, i) {
        match (
            spec_space_between(nodes, i, src),
            last_child_of_kind(nodes, nodes[i].children@, "compound_statement"@),
        ) {
            (Some(gap), Some(body)) => if gap == 0 {
                seq![gap_diag(src, nodes[body as int].start_byte as int)]
            } else {
                Seq::empty()
            },
            _ => Seq::empty(),
        }
    } else {
        Seq::empty()
    }
}

/// What the condition/body rule emits for the slots before `upto`.
pub open spec fn gap_diags_upto(nodes: Seq<SyntaxNode>, src: Seq<u8>, upto: int) -> Seq<DiagInfo>
    decreases upto,
{
    if upto <= 0 {
        Seq::empty()
    } else {
        gap_diags_upto(nodes, src, upto - 1) + node_gap_diags(nodes, upto - 1, src)
    }
}

/// Everything the condition/body spacing rule emits for one tree.
pub open spec fn gap_diags(nodes: Seq<SyntaxNode>, src: Seq<u8>) -> Seq<DiagInfo> {
    gap_diags_upto(nodes, src, nodes.len() as int)
}

/// Everything one analysis pass emits: each rule's own output stays in source
/// order, the rules' outputs stand one after the other.
pub open spec fn all_style_diags(nodes: Seq<SyntaxNode>, src: Seq<u8>) -> Seq<DiagInfo> {
    spacing_diags(nodes, src) + gap_diags(nodes, src)
}

/// Evaluates the spacing-around-assignment rule over the whole tree.
pub fn evaluate_assignment_spacing(tree: &SyntaxTree, source: &[u8]) -> (r: Vec<Diagnostic>)
    requires
        tree.wf(),
        source@.len() == tree.source_len,
        2 * tree.source_len + 2 <= usize::MAX as int,
    ensures
        diags_view(r@) == spacing_diags(tree.nodes@, source@),
{
    let assignment_kind: String = "assignment_expression".to_owned();
    let init_kind: String = "init_declarator".to_owned();
    let total = tree.nodes.len();
    let mut result: Vec<Diagnostic> = Vec::new();
    let mut i: usize = 0;
    while i < total
        invariant
            tree.wf(),
            source@.len() == tree.source_len,
            2 * tree.source_len + 2 <= usize::MAX as int,
            total == tree.nodes@.len(),
            0 <= i <= total,
            assignment_kind@ == "assignment_expression"@,
            init_kind@ == "init_declarator"@,
            diags_view(result@) == spacing_diags_upto(tree.nodes@, source@, i as int),
        decreases total - i,
    {
        let ghost previous = result@;
        if tree.nodes[i].kind == assignment_kind || tree.nodes[i].kind == init_kind {
            match last_child_with_kind(tree, i, "=") {
                Some(op) => {
                    proof {
                        assert(node_wf(tree.nodes@, tree.source_len as int, op as int));
                    }
                    let op_start = tree.nodes[op].start_byte;
                    let op_end = tree.nodes[op].end_byte;
                    let (line, col) = crate::diagnostics::line_col_at(source, op_start);
                    proof {
                        lemma_line_start_bounds(source@, op_start as int);
                        lemma_utf16_len_bounds(
                            source@,
                            line_start_of(source@, op_start as int),
                            op_start as int,
                        );
                        // A positive column means the line starts strictly
                        // before the operator, so a byte precedes it.
                        if line_start_of(source@, op_start as int) >= op_start as int {
                            assert(utf16_len(
                                source@,
                                line_start_of(source@, op_start as int),
                                op_start as int,
                            ) == 0);
                        }
                    }
                    if col > 0 && source[op_start - 1] != 32u8 && source[op_start - 1] != 9u8 {
                        result.push(
                            Diagnostic {
                                start_line: line,
                                start_col: col - 1,
                                end_line: line,
                                end_col: col + 1,
                                severity: DiagnosticSeverity::Warning,
                                source_tag: "style-engine".to_owned(),
                                message: "Missing space before '='".to_owned(),
                            },
                        );
                        proof {
                            assert(result@.last()@ =~= before_diag(source@, op_start as int));
                        }
                    }
                    if op_end < source.len() && source[op_end] != 10u8 && source[op_end] != 13u8
                        && source[op_end] != 32u8 && source[op_end] != 9u8 {
                        result.push(
                            Diagnostic {
                                start_line: line,
                                start_col: col,
                                end_line: line,
                                end_col: col + 2,
                                severity: DiagnosticSeverity::Warning,
                                source_tag: "style-engine".to_owned(),
                                message: "Missing space after '='".to_owned(),
                            },
                        );
                        proof {
                            assert(result@.last()@ =~= after_diag(source@, op_start as int));
                        }
                    }
                    proof {
                        assert(diags_view(result@) =~= diags_view(previous) + op_diags(
                            source@,
                            tree.nodes@[op as int].start_byte as int,
                            tree.nodes@[op as int].end_byte as int,
                        ));
                    }
                },
                None => {},
            }
        }
        proof {
            assert(diags_view(result@) =~= spacing_diags_upto(tree.nodes@, source@, i + 1));
        }
        i = i + 1;
    }
    result
}

/// Evaluates the condition/body spacing rule over the whole tree.
pub fn evaluate_condition_body_spacing(tree: &SyntaxTree, source: &[u8]) -> (r: Vec<Diagnostic>)
    requires
        tree.wf(),
        source@.len() == tree.source_len,
        2 * tree.source_len + 2 <= usize::MAX as int,
    ensures
        diags_view(r@) == gap_diags(tree.nodes@, source@),
{
    let if_kind: String = "if_statement".to_owned();
    let while_kind: String = "while_statement".to_owned();
    let for_kind: String = "for_statement".to_owned();
    let total = tree.nodes.len();
    let mut result: Vec<Diagnostic> = Vec::new();
    let mut i: usize = 0;
    while i < total
        invariant
            tree.wf(),
            source@.len() == tree.source_len,
            2 * tree.source_len + 2 <= usize::MAX as int,
            total == tree.nodes@.len(),
            0 <= i <= total,
            if_kind@ == "if_statement"@,
            while_kind@ == "while_statement"@,
            for_kind@ == "for_statement"@,
            diags_view(result@) == gap_diags_upto(tree.nodes@, source@, i as int),
        decreases total - i,
    {
        if tree.nodes[i].kind == if_kind || tree.nodes[i].kind == while_kind || tree.nodes[i].kind
            == for_kind {
            let gap = crate::nodes::get_space_between_condition_and_body(tree, i, source);
            let body = last_child_with_kind(tree, i, "compound_statement");
            match (gap, body) {
                (Some(gap_width), Some(body_slot)) => {
                    if gap_width == 0 {
                        proof {
                            assert(node_wf(tree.nodes@, tree.source_len as int, body_slot as int));
                        }
                        let brace_at = tree.nodes[body_slot].start_byte;
                        let (line, col) = crate::diagnostics::line_col_at(source, brace_at);
                        proof {
                            lemma_line_start_bounds(source@, brace_at as int);
                            lemma_utf16_len_bounds(
                                source@,
                                line_start_of(source@, brace_at as int),
                                brace_at as int,
                            );
                        }
                        result.push(
                            Diagnostic {
                                start_line: line,
                                start_col: col,
                                end_line: line,
                                end_col: col + 1,
                                severity: DiagnosticSeverity::Warning,
                                source_tag: "style-engine".to_owned(),
                                message: "Missing space between ')' and '{'".to_owned(),
                            },
                        );
                        proof {
                            assert(result@.last()@ =~= gap_diag(source@, brace_at as int));
                        }
                    }
                },
                _ => {},
            }
        }
        proof {
            assert(diags_view(result@) =~= gap_diags_upto(tree.nodes@, source@, i + 1));
        }
        i = i + 1;
    }
    result
}

/// One analysis pass: the union of all rule outputs for one tree.
pub fn evaluate_all_rules(tree: &SyntaxTree, source: &[u8]) -> (r: Vec<Diagnostic>)
    requires
        tree.wf(),
        source@.len() == tree.source_len,
        2 * tree.source_len + 2 <= usize::MAX as int,
    ensures
        diags_view(r@) == all_style_diags(tree.nodes@, source@),
{
    let mut result = evaluate_assignment_spacing(tree, source);
    let mut gaps = evaluate_condition_body_spacing(tree, source);
    let ghost before_append = result@;
    let ghost gap_part = gaps@;
    result.append(&mut gaps);
    proof {
        assert(diags_view(result@) =~= diags_view(before_append) + diags_view(gap_part));
    }
    result
}

/// Whether `d` is a diagnostic the spacing rule owes to the operator token of
/// one of the first `upto` nodes: some assignment-like node has a direct
/// child token whose kind is exactly the one-character `=`, and `d` reports a
/// missing space immediately before or after that token.
pub open spec fn spacing_diag_justified(
    nodes: Seq<SyntaxNode>,
    src: Seq<u8>,
    upto: int,
    d: DiagInfo,
) -> bool {
    exists|i: int|
        0 <= i < upto && #[trigger] is_assignment_like(nodes, i) && last_child_of_kind(
            nodes,
            nodes[i].children@,
            "="@,
        ) is Some && {
            let op = last_child_of_kind(nodes, nodes[i].children@, "="@)->Some_0;
            nodes[op as int].kind@ == "="@ && (d == before_diag(
                src,
                nodes[op as int].start_byte as int,
            ) || d == after_diag(src, nodes[op as int].start_byte as int))
        }
}

/// The spacing rule matches the single-character assignment token precisely,
/// by its node kind: every diagnostic it emits is owed to a direct child
/// token of kind `=` of an assignment-like node. The kind tag of a
/// comparison operator is the two-character `==` — a different tag — so a
/// comparison never produces a spacing diagnostic, regardless of the
/// whitespace around it; the same holds of compound assignments such as `+=`.
pub proof fn lemma_spacing_rule_only_from_assignment_operator(
    nodes: Seq<SyntaxNode>,
    src: Seq<u8>,
    upto: int,
)
    ensures
        forall|d: DiagInfo| #[trigger]
            spacing_diags_upto(nodes, src, upto).contains(d) ==> spacing_diag_justified(
                nodes,
                src,
                upto,
                d,
            ),
        "="@ != "=="@,
        "="@ != "+="@,
    decreases upto,
{
    reveal_strlit("=");
    reveal_strlit("==");
    reveal_strlit("+=");
    assert(("="@).len() == 1);
    assert(("=="@).len() == 2);
    assert(("+="@).len() == 2);
    if upto > 0 {
        lemma_spacing_rule_only_from_assignment_operator(nodes, src, upto - 1);
        crate::nodes::lemma_last_child_kind(nodes, nodes[upto - 1].children@, "="@);
        let all = spacing_diags_upto(nodes, src, upto);
        let head = spacing_diags_upto(nodes, src, upto - 1);
        let tail = node_spacing_diags(nodes, upto - 1, src);
        assert forall|d: DiagInfo| #[trigger]
            all.contains(d) implies spacing_diag_justified(nodes, src, upto, d) by {
            let idx = choose|idx: int| 0 <= idx < all.len() && all[idx] == d;
            if idx < head.len() {
                assert(head[idx] == d);
                assert(head.contains(d));
                assert(spacing_diag_justified(nodes, src, upto - 1, d));
                let i = choose|i: int|
                    0 <= i < upto - 1 && #[trigger] is_assignment_like(nodes, i)
                        && last_child_of_kind(nodes, nodes[i].children@, "="@) is Some && {
                        let op = last_child_of_kind(nodes, nodes[i].children@, "="@)->Some_0;
                        nodes[op as int].kind@ == "="@ && (d == before_diag(
                            src,
                            nodes[op as int].start_byte as int,
                        ) || d == after_diag(src, nodes[op as int].start_byte as int))
                    };
                assert(is_assignment_like(nodes, i));
            } else {
                assert(tail[idx - head.len()] == d);
                assert(is_assignment_like(nodes, upto - 1));
                assert(last_child_of_kind(nodes, nodes[upto - 1].children@, "="@) is Some);
            }
        }
    }
}

/// Analyzes one document snapshot: builds the syntax tree of `source` and
/// runs every style rule over it. Malformed input is not an error; only a
/// tree builder failure is.
pub fn analyze_source(source: &[u8], language: SupportedLanguageE) -> (r: Result<
    Vec<Diagnostic>,
    TreeBuildError,
>)
    requires
        source@.len() + 2 <= u32::MAX as int,
        2 * source@.len() + 2 <= usize::MAX as int,
    ensures
        r is Ok,
        r matches Ok(d) ==> diags_view(d@) == all_style_diags(
            parsed_nodes(source@, language),
            source@,
        ),
{
    match get_syntax_tree(source, language) {
        Ok(tree) => Ok(evaluate_all_rules(&tree, source)),
        Err(e) => Err(e),
    }
}

} // verus!
