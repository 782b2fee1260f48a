//! The node query engine: full recursive-descent, pre-order extraction of the
//! nodes of a requested kind, and the condition-to-body gap metric.
//!
//! The arena layout makes pre-order traversal a linear scan: the subtree of
//! the node in slot `n` is exactly the slot range `[n, subtree_end(n))`, so
//! visiting those slots in ascending order is the pre-order walk, and the
//! lemmas below show it yields nodes in source order.

use vstd::prelude::*;

use crate::tree::{arena_wf, node_wf, SyntaxNode, SyntaxTree};

verus! {

/// Whether the node in slot `i` carries the kind tag `kind`.
pub open spec fn kind_matches(nodes: Seq<SyntaxNode>, i: int, kind: Seq<char>) -> bool {
    nodes[i].kind@ == kind
}

/// The slots in `[lo, hi)`, in ascending order, whose nodes carry `kind`.
pub open spec fn matching_nodes_in(
    nodes: Seq<SyntaxNode>,
    lo: int,
    hi: int,
    kind: Seq<char>,
) -> Seq<usize>
    decreases hi - lo,
{
    if lo >= hi {
        Seq::empty()
    } else {
        let rest = matching_nodes_in(nodes, lo + 1, hi, kind);
        if kind_matches(nodes, lo, kind) {
            seq![lo as usize] + rest
        } else {
            rest
        }
    }
}

proof fn lemma_matching_snoc(nodes: Seq<SyntaxNode>, lo: int, hi: int, kind: Seq<char>)
    requires
        0 <= lo <= hi,
    ensures
        matching_nodes_in(nodes, lo, hi + 1, kind) == matching_nodes_in(nodes, lo, hi, kind) + (
        if kind_matches(nodes, hi, kind) {
            seq![hi as usize]
        } else {
            Seq::<usize>::empty()
        }),
    decreases hi - lo,
{
    if lo == hi {
        assert(matching_nodes_in(nodes, lo, hi, kind) =~= Seq::<usize>::empty());
        assert(matching_nodes_in(nodes, lo + 1, hi + 1, kind) =~= Seq::<usize>::empty());
        assert(matching_nodes_in(nodes, lo, hi + 1, kind) =~= matching_nodes_in(nodes, lo, hi, kind)
            + (if kind_matches(nodes, hi, kind) {
            seq![hi as usize]
        } else {
            Seq::<usize>::empty()
        }));
    } else {
        lemma_matching_snoc(nodes, lo + 1, hi, kind);
        assert(matching_nodes_in(nodes, lo, hi + 1, kind) =~= matching_nodes_in(nodes, lo, hi, kind)
            + (if kind_matches(nodes, hi, kind) {
            seq![hi as usize]
        } else {
            Seq::<usize>::empty()
        }));
    }
}

proof fn lemma_matching_props(nodes: Seq<SyntaxNode>, lo: int, hi: int, kind: Seq<char>)
    requires
        0 <= lo <= hi <= usize::MAX as int,
    ensures
        forall|a: int|
            0 <= a < matching_nodes_in(nodes, lo, hi, kind).len() ==> lo <= #[trigger] matching_nodes_in(
                nodes,
                lo,
                hi,
                kind,
            )[a] < hi && kind_matches(nodes, matching_nodes_in(nodes, lo, hi, kind)[a] as int, kind),
        forall|a: int, b: int|
            0 <= a < b < matching_nodes_in(nodes, lo, hi, kind).len()
                ==> #[trigger] matching_nodes_in(nodes, lo, hi, kind)[a]
                < #[trigger] matching_nodes_in(nodes, lo, hi, kind)[b],
    decreases hi - lo,
{
    if lo < hi {
        lemma_matching_props(nodes, lo + 1, hi, kind);
        let m = matching_nodes_in(nodes, lo, hi, kind);
        let rest = matching_nodes_in(nodes, lo + 1, hi, kind);
        assert forall|a: int|
            0 <= a < m.len() implies lo <= #[trigger] m[a] < hi && kind_matches(
            nodes,
            m[a] as int,
            kind,
        ) by {
            if kind_matches(nodes, lo, kind) {
                if a == 0 {
                    assert(m[a] == lo as usize);
                } else {
                    assert(m[a] == rest[a - 1]);
                    assert(lo + 1 <= rest[a - 1] < hi);
                }
            } else {
                assert(m[a] == rest[a]);
                assert(lo + 1 <= rest[a] < hi);
            }
        }
        assert forall|a: int, b: int|
            0 <= a < b < m.len() implies #[trigger] m[a] < #[trigger] m[b] by {
            if kind_matches(nodes, lo, kind) {
                assert(m[b] == rest[b - 1]);
                assert(lo + 1 <= rest[b - 1] < hi);
                if a > 0 {
                    assert(m[a] == rest[a - 1]);
                    assert(rest[a - 1] < rest[b - 1]);
                } else {
                    assert(m[a] == lo as usize);
                }
            } else {
                assert(m[a] == rest[a]);
                assert(m[b] == rest[b]);
                assert(rest[a] < rest[b]);
            }
        }
    }
}

proof fn lemma_matching_complete(nodes: Seq<SyntaxNode>, lo: int, hi: int, kind: Seq<char>)
    requires
        0 <= lo <= hi <= usize::MAX as int,
    ensures
        forall|x: int|
            lo <= x < hi && kind_matches(nodes, x, kind) ==> matching_nodes_in(
                nodes,
                lo,
                hi,
                kind,
            ).contains(x as usize),
    decreases hi - lo,
{
    if lo < hi {
        lemma_matching_complete(nodes, lo + 1, hi, kind);
        let m = matching_nodes_in(nodes, lo, hi, kind);
        let rest = matching_nodes_in(nodes, lo + 1, hi, kind);
        assert forall|x: int|
            lo <= x < hi && kind_matches(nodes, x, kind) implies m.contains(x as usize) by {
            if x == lo {
                assert(m[0] == lo as usize);
            } else {
                assert(rest.contains(x as usize));
                let idx = choose|idx: int| 0 <= idx < rest.len() && rest[idx] == x as usize;
                if kind_matches(nodes, lo, kind) {
                    assert(m[idx + 1] == x as usize);
                } else {
                    assert(m[idx] == x as usize);
                }
            }
        }
    }
}

/// Pre-order slots come in source order: within the subtree of `n`, byte
/// ranges are contained in the range of `n`, and start bytes ascend with the
/// slot number.
pub proof fn lemma_preorder_source_order(nodes: Seq<SyntaxNode>, source_len: int, n: int)
    requires
        arena_wf(nodes, source_len),
        0 <= n < nodes.len(),
    ensures
        forall|i: int|
            n <= i < nodes[n].subtree_end ==> nodes[n].start_byte <= (#[trigger] nodes[i]).start_byte
                && nodes[i].end_byte <= nodes[n].end_byte,
        forall|i: int, j: int|
            n <= i <= j < nodes[n].subtree_end ==> (#[trigger] nodes[i]).start_byte <= (
            #[trigger] nodes[j]).start_byte,
    decreases nodes[n].subtree_end - n, 1int, 0int,
{
    assert(node_wf(nodes, source_len, n));
    let cs = nodes[n].children@;
    if cs.len() > 0 {
        lemma_preorder_children(nodes, source_len, n, 0);
        assert(cs[0] == n + 1);
        assert forall|i: int|
            n <= i < nodes[n].subtree_end implies nodes[n].start_byte <= (
        #[trigger] nodes[i]).start_byte && nodes[i].end_byte <= nodes[n].end_byte by {
            if i > n {
                assert(nodes[cs[0] as int].start_byte <= nodes[i].start_byte);
            }
        }
    }
}

proof fn lemma_preorder_children(nodes: Seq<SyntaxNode>, source_len: int, n: int, k: int)
    requires
        arena_wf(nodes, source_len),
        0 <= n < nodes.len(),
        0 <= k < nodes[n].children@.len(),
    ensures
        forall|i: int|
            nodes[n].children@[k] <= i < nodes[n].subtree_end ==> nodes[nodes[n].children@[k] as int].start_byte
                <= (#[trigger] nodes[i]).start_byte && nodes[i].end_byte <= nodes[n].end_byte,
        forall|i: int, j: int|
            nodes[n].children@[k] <= i <= j < nodes[n].subtree_end ==> (
            #[trigger] nodes[i]).start_byte <= (#[trigger] nodes[j]).start_byte,
    decreases nodes[n].subtree_end - n, 0int, nodes[n].children@.len() - k,
{
    assert(node_wf(nodes, source_len, n));
    let cs = nodes[n].children@;
    let c = cs[k] as int;
    assert(n < c < nodes[n].subtree_end);
    assert(node_wf(nodes, source_len, c));
    if k < cs.len() - 1 {
        assert(nodes[c].subtree_end == cs[k + 1]);
    } else {
        assert(nodes[c].subtree_end == nodes[n].subtree_end);
    }
    lemma_preorder_source_order(nodes, source_len, c);
    if k < cs.len() - 1 {
        let d = cs[k + 1] as int;
        lemma_preorder_children(nodes, source_len, n, k + 1);
        // Everything in the subtree of `c` ends by `end_byte(c)`, which is at
        // most `start_byte(d)`; everything from slot `d` on starts at or after
        // `start_byte(d)`.
        assert(nodes[c].end_byte <= nodes[d].start_byte);
        assert forall|i: int|
            c <= i < nodes[n].subtree_end implies nodes[c].start_byte <= (
        #[trigger] nodes[i]).start_byte && nodes[i].end_byte <= nodes[n].end_byte by {
            if i < nodes[c].subtree_end {
                assert(nodes[c].start_byte <= nodes[i].start_byte);
                assert(nodes[i].end_byte <= nodes[c].end_byte);
            } else {
                assert(nodes[d].start_byte <= nodes[i].start_byte);
                assert(nodes[c].start_byte <= nodes[c].end_byte);
            }
        }
        assert forall|i: int, j: int|
            c <= i <= j < nodes[n].subtree_end implies (#[trigger] nodes[i]).start_byte <= (
        #[trigger] nodes[j]).start_byte by {
            if j < nodes[c].subtree_end {
                // both inside the subtree of `c`
            } else if i >= nodes[c].subtree_end {
                // both at or after `d`
            } else {
                assert(node_wf(nodes, source_len, i));
                assert(nodes[i].start_byte <= nodes[i].end_byte);
                assert(nodes[i].end_byte <= nodes[c].end_byte);
                assert(nodes[d].start_byte <= nodes[j].start_byte);
            }
        }
    } else {
        assert(nodes[c].subtree_end == nodes[n].subtree_end);
    }
}

/// Retrieves every node of the requested kind in the subtree rooted at
/// `node`, by full pre-order descent: a node is tested before its children,
/// children left to right. The result is deterministic, complete, and in
/// strict source order: slots ascend strictly and start bytes never decrease.
pub fn retrieve_nodes_by_kind(tree: &SyntaxTree, node: usize, requested_kind: &str) -> (r: Vec<
    usize,
>)
    requires
        tree.wf(),
        node < tree.nodes@.len(),
    ensures
        r@ == matching_nodes_in(
            tree.nodes@,
            node as int,
            tree.nodes@[node as int].subtree_end as int,
            requested_kind@,
        ),
        forall|a: int|
            0 <= a < r@.len() ==> node <= #[trigger] r@[a] < tree.nodes@[node as int].subtree_end
                && tree.nodes@[r@[a] as int].kind@ == requested_kind@,
        forall|a: int, b: int|
            0 <= a < b < r@.len() ==> #[trigger] r@[a] < #[trigger] r@[b]
                && tree.nodes@[r@[a] as int].start_byte <= tree.nodes@[r@[b] as int].start_byte,
        forall|x: int|
            node <= x < tree.nodes@[node as int].subtree_end && tree.nodes@[x].kind@
                == requested_kind@ ==> r@.contains(x as usize),
{
    proof {
        assert(node_wf(tree.nodes@, tree.source_len as int, node as int));
    }
    let wanted: String = requested_kind.to_owned();
    let end = tree.nodes[node].subtree_end;
    let mut result: Vec<usize> = Vec::new();
    let mut i = node;
    while i < end
        invariant
            tree.wf(),
            node < tree.nodes@.len(),
            node <= i <= end,
            end == tree.nodes@[node as int].subtree_end,
            end <= tree.nodes@.len(),
            wanted@ == requested_kind@,
            result@ == matching_nodes_in(tree.nodes@, node as int, i as int, requested_kind@),
        decreases end - i,
    {
        proof {
            lemma_matching_snoc(tree.nodes@, node as int, i as int, requested_kind@);
        }
        if tree.nodes[i].kind == wanted {
            result.push(i);
        }
        i = i + 1;
    }
    proof {
        lemma_matching_props(
            tree.nodes@,
            node as int,
            tree.nodes@[node as int].subtree_end as int,
            requested_kind@,
        );
        lemma_preorder_source_order(tree.nodes@, tree.source_len as int, node as int);
        lemma_matching_complete(
            tree.nodes@,
            node as int,
            tree.nodes@[node as int].subtree_end as int,
            requested_kind@,
        );
        assert forall|x: int|
            node <= x < tree.nodes@[node as int].subtree_end && tree.nodes@[x].kind@
                == requested_kind@ implies result@.contains(x as usize) by {
            assert(kind_matches(tree.nodes@, x, requested_kind@));
            assert(matching_nodes_in(
                tree.nodes@,
                node as int,
                tree.nodes@[node as int].subtree_end as int,
                requested_kind@,
            ).contains(x as usize));
        }
    }
    result
}

/// The slots of the matching nodes of the subtree at `node`, in source order.
pub open spec fn spec_nodes_of_kind(tree: &SyntaxTree, node: int, kind: Seq<char>) -> Seq<usize> {
    matching_nodes_in(tree.nodes@, node, tree.nodes@[node].subtree_end as int, kind)
}

/// Retrieves the function definitions within the subtree at `node`.
pub fn retrieve_function_definitions(tree: &SyntaxTree, node: usize) -> (r: Vec<usize>)
    requires
        tree.wf(),
        node < tree.nodes@.len(),
    ensures
        r@ == spec_nodes_of_kind(tree, node as int, "function_definition"@),
{
    retrieve_nodes_by_kind(tree, node, "function_definition")
}

/// Retrieves the variable declarations within the subtree at `node`.
pub fn retrieve_variables(tree: &SyntaxTree, node: usize) -> (r: Vec<usize>)
    requires
        tree.wf(),
        node < tree.nodes@.len(),
    ensures
        r@ == spec_nodes_of_kind(tree, node as int, "declaration"@),
{
    retrieve_nodes_by_kind(tree, node, "declaration")
}

/// Retrieves the `if` statements within the subtree at `node`.
pub fn retrieve_if_statements(tree: &SyntaxTree, node: usize) -> (r: Vec<usize>)
    requires
        tree.wf(),
        node < tree.nodes@.len(),
    ensures
        r@ == spec_nodes_of_kind(tree, node as int, "if_statement"@),
{
    retrieve_nodes_by_kind(tree, node, "if_statement")
}

/// Retrieves the `while` statements within the subtree at `node`.
pub fn retrieve_while_statements(tree: &SyntaxTree, node: usize) -> (r: Vec<usize>)
    requires
        tree.wf(),
        node < tree.nodes@.len(),
    ensures
        r@ == spec_nodes_of_kind(tree, node as int, "while_statement"@),
{
    retrieve_nodes_by_kind(tree, node, "while_statement")
}

/// Retrieves the `for` statements within the subtree at `node`.
pub fn retrieve_for_statements(tree: &SyntaxTree, node: usize) -> (r: Vec<usize>)
    requires
        tree.wf(),
        node < tree.nodes@.len(),
    ensures
        r@ == spec_nodes_of_kind(tree, node as int, "for_statement"@),
{
    retrieve_nodes_by_kind(tree, node, "for_statement")
}

/// Retrieves the assignment expressions within the subtree at `node`.
pub fn retrieve_assignment_expressions(tree: &SyntaxTree, node: usize) -> (r: Vec<usize>)
    requires
        tree.wf(),
        node < tree.nodes@.len(),
    ensures
        r@ == spec_nodes_of_kind(tree, node as int, "assignment_expression"@),
{
    retrieve_nodes_by_kind(tree, node, "assignment_expression")
}

/// Retrieves the binary expressions within the subtree at `node`.
pub fn retrieve_binary_expressions(tree: &SyntaxTree, node: usize) -> (r: Vec<usize>)
    requires
        tree.wf(),
        node < tree.nodes@.len(),
    ensures
        r@ == spec_nodes_of_kind(tree, node as int, "binary_expression"@),
{
    retrieve_nodes_by_kind(tree, node, "binary_expression")
}

/// Retrieves the unary expressions within the subtree at `node`.
pub fn retrieve_unary_expressions(tree: &SyntaxTree, node: usize) -> (r: Vec<usize>)
    requires
        tree.wf(),
        node < tree.nodes@.len(),
    ensures
        r@ == spec_nodes_of_kind(tree, node as int, "unary_expression"@),
{
    retrieve_nodes_by_kind(tree, node, "unary_expression")
}

/// Retrieves the `return` statements within the subtree at `node`.
pub fn retrieve_return_statements(tree: &SyntaxTree, node: usize) -> (r: Vec<usize>)
    requires
        tree.wf(),
        node < tree.nodes@.len(),
    ensures
        r@ == spec_nodes_of_kind(tree, node as int, "return_statement"@),
{
    retrieve_nodes_by_kind(tree, node, "return_statement")
}

/// Retrieves the function-call expressions within the subtree at `node`.
pub fn retrieve_function_calls(tree: &SyntaxTree, node: usize) -> (r: Vec<usize>)
    requires
        tree.wf(),
        node < tree.nodes@.len(),
    ensures
        r@ == spec_nodes_of_kind(tree, node as int, "call_expression"@),
{
    retrieve_nodes_by_kind(tree, node, "call_expression")
}

/// Retrieves the struct definitions within the subtree at `node`.
pub fn retrieve_struct_definitions(tree: &SyntaxTree, node: usize) -> (r: Vec<usize>)
    requires
        tree.wf(),
        node < tree.nodes@.len(),
    ensures
        r@ == spec_nodes_of_kind(tree, node as int, "struct_specifier"@),
{
    retrieve_nodes_by_kind(tree, node, "struct_specifier")
}

/// Retrieves the enum definitions within the subtree at `node`.
pub fn retrieve_enum_definitions(tree: &SyntaxTree, node: usize) -> (r: Vec<usize>)
    requires
        tree.wf(),
        node < tree.nodes@.len(),
    ensures
        r@ == spec_nodes_of_kind(tree, node as int, "enum_specifier"@),
{
    retrieve_nodes_by_kind(tree, node, "enum_specifier")
}

/// Retrieves the comments within the subtree at `node`.
pub fn retrieve_comments(tree: &SyntaxTree, node: usize) -> (r: Vec<usize>)
    requires
        tree.wf(),
        node < tree.nodes@.len(),
    ensures
        r@ == spec_nodes_of_kind(tree, node as int, "comment"@),
{
    retrieve_nodes_by_kind(tree, node, "comment")
}

/// Retrieves the preprocessor `#define` directives within the subtree at `node`.
pub fn retrieve_preprocessor_defines(tree: &SyntaxTree, node: usize) -> (r: Vec<usize>)
    requires
        tree.wf(),
        node < tree.nodes@.len(),
    ensures
        r@ == spec_nodes_of_kind(tree, node as int, "preproc_def"@),
{
    retrieve_nodes_by_kind(tree, node, "preproc_def")
}

/// Retrieves the preprocessor `#include` directives within the subtree at `node`.
pub fn retrieve_preprocessor_includes(tree: &SyntaxTree, node: usize) -> (r: Vec<usize>)
    requires
        tree.wf(),
        node < tree.nodes@.len(),
    ensures
        r@ == spec_nodes_of_kind(tree, node as int, "preproc_include"@),
{
    retrieve_nodes_by_kind(tree, node, "preproc_include")
}

/// The last direct child in `cs` whose node carries `kind`, if any.
pub open spec fn last_child_of_kind(
    nodes: Seq<SyntaxNode>,
    cs: Seq<usize>,
    kind: Seq<char>,
) -> Option<usize>
    decreases cs.len(),
{
    if cs.len() == 0 {
        None
    } else if nodes[cs.last() as int].kind@ == kind {
        Some(cs.last())
    } else {
        last_child_of_kind(nodes, cs.drop_last(), kind)
    }
}

/// Whatever `last_child_of_kind` selects does carry the requested kind.
pub proof fn lemma_last_child_kind(nodes: Seq<SyntaxNode>, cs: Seq<usize>, kind: Seq<char>)
    ensures
        last_child_of_kind(nodes, cs, kind) matches Some(c) ==> nodes[c as int].kind@ == kind,
    decreases cs.len(),
{
    if cs.len() > 0 && nodes[cs.last() as int].kind@ != kind {
        lemma_last_child_kind(nodes, cs.drop_last(), kind);
    }
}

/// The number of literal ASCII space bytes in `src[lo..hi)`. Deliberately not
/// a Unicode whitespace classifier: only the single space byte counts.
pub open spec fn count_spaces(src: Seq<u8>, lo: int, hi: int) -> int
    decreases hi - lo,
{
    if lo >= hi {
        0
    } else {
        count_spaces(src, lo, hi - 1) + if src[hi - 1] == 32u8 {
            1int
        } else {
            0int
        }
    }
}

/// The condition-to-body gap of the control statement in slot `n`: the count
/// of space bytes between the end of its parenthesized condition and the
/// start of its compound body, both located among its direct children. No gap
/// exists when either child is missing (for instance a single-statement body)
/// or when the ordering is inverted.
pub open spec fn spec_space_between(nodes: Seq<SyntaxNode>, n: int, src: Seq<u8>) -> Option<usize> {
    let cs = nodes[n].children@;
    let condition = last_child_of_kind(nodes, cs, "parenthesized_expression"@);
    let body = last_child_of_kind(nodes, cs, "compound_statement"@);
    match (condition, body) {
        (Some(c), Some(b)) => {
            let gap_from = nodes[c as int].end_byte as int;
            let gap_to = nodes[b as int].start_byte as int;
            if gap_from <= gap_to {
                Some(count_spaces(src, gap_from, gap_to) as usize)
            } else {
                None
            }
        },
        _ => None,
    }
}

/// Finds the last direct child of `node` carrying `kind`.
pub(crate) fn last_child_with_kind(tree: &SyntaxTree, node: usize, kind: &str) -> (r: Option<
    usize,
>)
    requires
        tree.wf(),
        node < tree.nodes@.len(),
    ensures
        r == last_child_of_kind(tree.nodes@, tree.nodes@[node as int].children@, kind@),
        r matches Some(c) ==> c < tree.nodes@.len(),
{
    proof {
        assert(node_wf(tree.nodes@, tree.source_len as int, node as int));
    }
    let ghost cs = tree.nodes@[node as int].children@;
    let wanted: String = kind.to_owned();
    let child_count = tree.nodes[node].children.len();
    let mut found: Option<usize> = None;
    let mut k: usize = 0;
    while k < child_count
        invariant
            tree.wf(),
            node < tree.nodes@.len(),
            cs == tree.nodes@[node as int].children@,
            child_count == cs.len(),
            0 <= k <= child_count,
            wanted@ == kind@,
            found == last_child_of_kind(tree.nodes@, cs.take(k as int), kind@),
            found matches Some(c) ==> c < tree.nodes@.len(),
        decreases child_count - k,
    {
        proof {
            assert(node_wf(tree.nodes@, tree.source_len as int, node as int));
            assert(cs.take(k + 1).drop_last() =~= cs.take(k as int));
            assert(cs.take(k + 1).last() == cs[k as int]);
        }
        let c = tree.nodes[node].children[k];
        if tree.nodes[c].kind == wanted {
            found = Some(c);
        }
        k = k + 1;
    }
    proof {
        assert(cs.take(child_count as int) =~= cs);
    }
    found
}

/// Retrieves the number of ASCII space characters between the closing
/// parenthesis of a control statement's condition and the opening brace of
/// its compound body, or `None` when the statement has no such pair of direct
/// children in that order.
pub fn get_space_between_condition_and_body(
    tree: &SyntaxTree,
    node: usize,
    source_code: &[u8],
) -> (r: Option<usize>)
    requires
        tree.wf(),
        node < tree.nodes@.len(),
        source_code@.len() == tree.source_len,
    ensures
        r == spec_space_between(tree.nodes@, node as int, source_code@),
{
    let condition = last_child_with_kind(tree, node, "parenthesized_expression");
    let body = last_child_with_kind(tree, node, "compound_statement");
    match (condition, body) {
        (Some(c), Some(b)) => {
            proof {
                assert(node_wf(tree.nodes@, tree.source_len as int, c as int));
                assert(node_wf(tree.nodes@, tree.source_len as int, b as int));
            }
            let gap_from = tree.nodes[c].end_byte;
            let gap_to = tree.nodes[b].start_byte;
            if gap_from <= gap_to {
                let mut count: usize = 0;
                let mut i = gap_from;
                while i < gap_to
                    invariant
                        gap_from <= i <= gap_to,
                        gap_to <= source_code@.len(),
                        count == count_spaces(source_code@, gap_from as int, i as int),
                        count <= i - gap_from,
                    decreases gap_to - i,
                {
                    if source_code[i] == 32u8 {
                        count = count + 1;
                    }
                    i = i + 1;
                }
                Some(count)
            } else {
                None
            }
        },
        _ => None,
    }
}

} // verus!
