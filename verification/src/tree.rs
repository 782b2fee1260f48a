//! The syntax tree model and the builder that produces it.
//!
//! A tree is an arena of nodes in pre-order: the subtree rooted at slot `i`
//! occupies exactly the slots `[i, subtree_end(i))`, a node's children are the
//! consecutive subtrees that fill that range, and every node carries a byte
//! range `[start_byte, end_byte)` into the source snapshot the tree was built
//! from. `arena_wf` pins the layout down; the builder establishes it and every
//! consumer relies on it.

use vstd::prelude::*;

use crate::definitions::SupportedLanguageE;

verus! {

/// One syntactic unit: a kind tag from the grammar's vocabulary, a byte range
/// into the owning tree's source, and the arena slots of its direct children.
/// `subtree_end` is one past the last arena slot of this node's subtree.
pub struct SyntaxNode {
    pub kind: String,
    pub start_byte: usize,
    pub end_byte: usize,
    pub subtree_end: usize,
    pub children: Vec<usize>,
}

/// An immutable tree over a fixed snapshot of source bytes of length
/// `source_len`. It is never edited in place: re-analysis builds a new tree.
pub struct SyntaxTree {
    pub nodes: Vec<SyntaxNode>,
    pub source_len: usize,
}

/// Why the builder failed. Malformed *input* is never a failure: a grammar
/// represents malformed regions with designated error nodes instead. With
/// the two bundled grammars activation cannot fail either — the builder's
/// contract promises success — but the error channel is part of the
/// builder's interface, for grammars that arrive in an incompatible version.
#[derive(Clone, Copy, PartialEq, Eq, Structural, Debug)]
pub enum TreeBuildError {
    /// The grammar capability could not be activated.
    GrammarLoadFailure,
}

/// Local well-formedness of the node in slot `i` of `nodes`:
/// its subtree is a non-empty range ending at `subtree_end`, its byte range
/// lies within the source and within its parent's byte range, and its children
/// are the consecutive subtrees `[i + 1, subtree_end)` in source order.
pub open spec fn node_wf(nodes: Seq<SyntaxNode>, source_len: int, i: int) -> bool {
    let n = nodes[i];
    let cs = n.children@;
    &&& i < n.subtree_end <= nodes.len()
    &&& n.start_byte <= n.end_byte <= source_len
    &&& (cs.len() == 0 ==> n.subtree_end == i + 1)
    &&& (cs.len() > 0 ==> cs[0] == i + 1 && nodes[cs.last() as int].subtree_end == n.subtree_end)
    &&& forall|k: int| 0 <= k < cs.len() ==> i < #[trigger] cs[k] < n.subtree_end
    &&& forall|k: int| 0 <= k < cs.len() - 1
        ==> nodes[#[trigger] cs[k] as int].subtree_end == cs[k + 1]
    &&& forall|k: int| 0 <= k < cs.len()
        ==> n.start_byte <= nodes[#[trigger] cs[k] as int].start_byte
            && nodes[cs[k] as int].end_byte <= n.end_byte
    &&& forall|k: int| 0 <= k < cs.len() - 1
        ==> nodes[#[trigger] cs[k] as int].end_byte <= nodes[cs[k + 1] as int].start_byte
}

/// Well-formedness of a whole arena over a source of `source_len` bytes.
pub open spec fn arena_wf(nodes: Seq<SyntaxNode>, source_len: int) -> bool {
    forall|i: int| 0 <= i < nodes.len() ==> #[trigger] node_wf(nodes, source_len, i)
}

impl SyntaxTree {
    pub open spec fn wf(&self) -> bool {
        arena_wf(self.nodes@, self.source_len as int)
    }

    /// The tree builder puts the root in slot zero.
    pub fn root_id(&self) -> (r: usize)
        ensures
            r == 0,
    {
        0
    }

    pub fn node_count(&self) -> (r: usize)
        ensures
            r == self.nodes@.len(),
    {
        self.nodes.len()
    }
}

/// What the grammar produces for a given source snapshot: parsing is a
/// function of the source bytes and the language alone.
pub uninterp spec fn parsed_nodes(source: Seq<u8>, language: SupportedLanguageE) -> Seq<SyntaxNode>;

#[verifier::external_type_specification]
#[verifier::external_body]
pub struct ExTree(tree_sitter::Tree);

/// Relies on tree_sitter::TreeCursor: `goto_first_child`, `goto_next_sibling`
/// and `goto_parent` walk the tree in pre-order, children in source order;
/// and on tree_sitter::Node: `kind` is the node's grammar kind tag and
/// `start_byte`/`end_byte` its byte range. Appends the whole tree to `arena`
/// in pre-order, with an explicit stack of open slots instead of recursion,
/// so arbitrarily deep trees cannot exhaust the call stack: a slot is closed
/// — its `subtree_end` set — once the cursor has left its subtree.
#[verifier::external_body]
fn flatten_tree(tree: &tree_sitter::Tree, arena: &mut Vec<SyntaxNode>) {
    let (mut cursor, mut open_slots) = (tree.walk(), Vec::<usize>::new());
    loop {
        let (node, index) = (cursor.node(), arena.len());
        if let Some(&parent) = open_slots.last() { arena[parent].children.push(index); }
        arena.push(SyntaxNode { kind: node.kind().to_owned(), start_byte: node.start_byte(), end_byte: node.end_byte(), subtree_end: index + 1, children: Vec::new() });
        open_slots.push(index);
        if cursor.goto_first_child() { continue; }
        loop {
            let closed = open_slots.pop().unwrap();
            arena[closed].subtree_end = arena.len();
            if cursor.goto_next_sibling() { break; }
            if !cursor.goto_parent() { return; }
        }
    }
}

/// Relies on tree_sitter::Parser: `set_language` checks the grammar's ABI
/// version against the linked parser's supported range, and the two bundled
/// grammars fall inside it, so activation succeeds for every value of
/// `language`; `parse` with a language set, no old tree and no progress
/// options always returns a tree, best-effort over any byte input, and is
/// deterministic in the source bytes and the language; the nodes of the
/// returned tree nest properly, in source order, within the source buffer.
/// The arena `flatten_tree` builds from such a tree is therefore
/// well-formed, with the root in slot zero spanning the whole arena. The
/// parser addresses bytes with 32-bit offsets, so longer inputs are left
/// out. The error return stands for a grammar whose version check fails,
/// which the contract rules out for the bundled ones.
#[verifier::external_body]
fn parse_to_nodes(source: &[u8], language: SupportedLanguageE) -> (r: Result<
    Vec<SyntaxNode>,
    TreeBuildError,
>)
    requires
        source@.len() <= u32::MAX as int,
    ensures
        r is Ok,
        r matches Ok(nodes) ==> arena_wf(nodes@, source@.len() as int) && nodes@.len() >= 1
            && nodes@[0].subtree_end == nodes@.len(),
        r matches Ok(nodes) ==> nodes@ == parsed_nodes(source@, language),
{
    let mut parser = tree_sitter::Parser::new();
    if parser.set_language(&language.to_parser_language()).is_err() {
        return Err(TreeBuildError::GrammarLoadFailure);
    }
    let tree = parser.parse(source, None).expect("a parser with its language set yields a tree");
    let mut nodes = Vec::new();
    flatten_tree(&tree, &mut nodes);
    Ok(nodes)
}

/// Builds the syntax tree of `source`. Best-effort: malformed input still
/// yields a tree, with error nodes standing for the malformed regions, never
/// an error — and since both bundled grammars activate, the builder succeeds
/// on every admitted input. The error channel reports a grammar capability
/// that cannot be activated, which here cannot arise.
pub fn get_syntax_tree(source: &[u8], language: SupportedLanguageE) -> (r: Result<
    SyntaxTree,
    TreeBuildError,
>)
    requires
        source@.len() <= u32::MAX as int,
    ensures
        r is Ok,
        r matches Ok(t) ==> t.wf() && t.source_len == source@.len() && t.nodes@.len() >= 1
            && t.nodes@[0].subtree_end == t.nodes@.len() && t.nodes@ == parsed_nodes(
            source@,
            language,
        ),
{
    match parse_to_nodes(source, language) {
        Ok(nodes) => Ok(SyntaxTree { nodes, source_len: source.len() }),
        Err(e) => Err(e),
    }
}

} // verus!
