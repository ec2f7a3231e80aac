use vstd::prelude::*;
use vstd::utf8::{decode_utf8, valid_utf8};

use crate::text::{chars_of, contains_chars, has_infix, str_eq, utf8_str};
use crate::ts::{
    cursor_depth, cursor_field_name, cursor_goto_first_child, cursor_goto_next_sibling,
    cursor_goto_parent, cursor_node, tree_node_count, tree_walk,
};

verus! {

/// A byte range of a source file with its row/column positions
/// (rows and columns are 0-based, columns count bytes).
#[derive(Debug, Clone, Copy, PartialEq, Eq, Structural)]
pub struct TextRange {
    pub start_byte: usize,
    pub end_byte: usize,
    pub start_row: usize,
    pub start_col: usize,
    pub end_row: usize,
    pub end_col: usize,
}

/// Range `i` of `rs` is out of order: it ends before it starts, or starts
/// before the range ahead of it ends.
pub open spec fn range_out_of_order(rs: Seq<TextRange>, i: int) -> bool {
    rs[i].end_byte < rs[i].start_byte || (i > 0 && rs[i].start_byte < rs[i - 1].end_byte)
}

/// The ranges run from earliest to latest without overlapping.
pub open spec fn ranges_in_order(rs: Seq<TextRange>) -> bool {
    forall|i: int| 0 <= i < rs.len() ==> !#[trigger] range_out_of_order(rs, i)
}

/// The count of the ranges and each of their byte offsets fit in the 32
/// bits that tree-sitter keeps them in.
pub open spec fn ranges_fit(rs: Seq<TextRange>) -> bool {
    &&& rs.len() <= u32::MAX
    &&& forall|i: int|
        0 <= i < rs.len() ==> (#[trigger] rs[i]).start_byte <= u32::MAX && rs[i].end_byte <= u32::MAX
}

/// What the parser reports of one node.
#[derive(Debug)]
pub struct NodeFacts {
    pub kind: String,
    pub id: usize,
    pub range: TextRange,
}

/// One node of a syntax tree, held in an arena in pre-order.
#[derive(Debug)]
pub struct SyntaxNode {
    pub kind: String,
    /// The parser's identity for this node; query captures refer to it.
    pub id: usize,
    pub range: TextRange,
    /// Arena index of the parent node.
    pub parent: Option<usize>,
    /// The field of the parent under which this node hangs.
    pub field: Option<String>,
}

/// A syntax tree as an arena of nodes in pre-order.
#[derive(Debug)]
pub struct SyntaxTree {
    pub nodes: Vec<SyntaxNode>,
}

/// One capture of a query match: the capture's index in the query and the
/// identity of the captured node.
#[derive(Debug, Clone, Copy, PartialEq, Eq, Structural)]
pub struct Capture {
    pub index: u32,
    pub node_id: usize,
}

/// One match of a query: the pattern that matched and its captures.
#[derive(Debug)]
pub struct QueryHit {
    pub pattern_index: usize,
    pub captures: Vec<Capture>,
}


/// Every parent comes before its children in the arena.
pub open spec fn arena_wf(ns: Seq<SyntaxNode>) -> bool {
    forall|j: int|
        0 <= j < ns.len() ==> match (#[trigger] ns[j]).parent {
            Some(p) => p < j,
            None => true,
        }
}

impl SyntaxTree {
    /// Every parent comes before its children in the arena.
    pub open spec fn wf(&self) -> bool {
        arena_wf(self.nodes@)
    }
}

/// Takes a snapshot of a parsed tree: every node in pre-order, with its
/// parent and the field under which it hangs.
pub fn snapshot(tree: &tree_sitter::Tree) -> (t: SyntaxTree)
    ensures
        t.wf(),
        t.nodes@.len() >= 1,
        t.nodes@[0].parent is None,
{
    let count = tree_node_count(tree);
    let mut cursor = tree_walk(tree);
    let mut nodes: Vec<SyntaxNode> = Vec::new();
    // stack[d] is the arena index of the ancestor at depth d
    let mut stack: Vec<usize> = Vec::new();
    let mut done = false;
    while nodes.len() < count && !done
        invariant
            (SyntaxTree { nodes }).wf(),
            forall|k: int| 0 <= k < stack@.len() ==> #[trigger] stack@[k] < nodes@.len(),
            count >= 1,
            nodes@.len() == 0 ==> stack@.len() == 0 && !done,
            nodes@.len() > 0 ==> nodes@[0].parent is None,
        decreases count - nodes@.len(),
    {
        let facts = cursor_node(&cursor);
        let field = cursor_field_name(&cursor);
        let depth = cursor_depth(&cursor) as usize;
        if depth < stack.len() {
            stack.truncate(depth);
        }
        let parent = if stack.len() > 0 {
            Some(stack[stack.len() - 1])
        } else {
            None
        };
        let idx = nodes.len();
        let ghost old_nodes = nodes@;
        nodes.push(SyntaxNode { kind: facts.kind, id: facts.id, range: facts.range, parent, field });
        assert forall|j: int| 0 <= j < nodes@.len() implies match (#[trigger] nodes@[j]).parent {
            Some(p) => p < j,
            None => true,
        } by {
            if j < idx {
                assert(nodes@[j] == old_nodes[j]);
            }
        }
        stack.push(idx);
        if !cursor_goto_first_child(&mut cursor) {
            let mut climbing = true;
            let mut steps: usize = 0;
            while climbing && steps < count
                decreases count - steps,
            {
                if cursor_goto_next_sibling(&mut cursor) {
                    climbing = false;
                } else if !cursor_goto_parent(&mut cursor) {
                    climbing = false;
                    done = true;
                }
                steps = steps + 1;
            }
            if climbing {
                done = true;
            }
        }
    }
    SyntaxTree { nodes }
}

// ----------------------------------------------------------------------
// Searching the arena
// ----------------------------------------------------------------------

/// The first index `i` with `from <= i < len` that satisfies `pred`.
pub open spec fn first_from(len: int, pred: spec_fn(int) -> bool, from: int) -> Option<int>
    decreases len - from,
{
    if from < 0 || from >= len {
        None
    } else if pred(from) {
        Some(from)
    } else {
        first_from(len, pred, from + 1)
    }
}

/// The last index `i` with `0 <= i < below` that satisfies `pred`.
pub open spec fn last_below(pred: spec_fn(int) -> bool, below: int) -> Option<int>
    decreases below,
{
    if below <= 0 {
        None
    } else if pred(below - 1) {
        Some(below - 1)
    } else {
        last_below(pred, below - 1)
    }
}

pub proof fn lemma_first_from_range(len: int, pred: spec_fn(int) -> bool, from: int)
    ensures
        first_from(len, pred, from) matches Some(i) ==> from <= i < len && pred(i),
    decreases len - from,
{
    if 0 <= from < len && !pred(from) {
        lemma_first_from_range(len, pred, from + 1);
    }
}

/// Node `c` hangs directly from node `p`.
pub open spec fn is_child_of(ns: Seq<SyntaxNode>, c: int, p: int) -> bool {
    0 <= c < ns.len() && 0 <= p && ns[c].parent == Some(p as usize)
}

/// Some child of `p` is of kind `kind`.
pub open spec fn has_child_kind_spec(ns: Seq<SyntaxNode>, p: int, kind: Seq<char>) -> bool {
    exists|c: int| is_child_of(ns, c, p) && (#[trigger] ns[c]).kind@ == kind
}

/// Some child of `p` has a kind that contains `text`, or has a child of kind
/// `text`.
pub open spec fn children_text_contains_spec(ns: Seq<SyntaxNode>, p: int, text: Seq<char>) -> bool {
    exists|c: int|
        is_child_of(ns, c, p) && (has_infix((#[trigger] ns[c]).kind@, text) || has_child_kind_spec(
            ns,
            c,
            text,
        ))
}

/// Node `n` hangs under the field `field`.
pub open spec fn field_is(n: SyntaxNode, field: Seq<char>) -> bool {
    match n.field {
        Some(f) => f@ == field,
        None => false,
    }
}

/// The first child of `p` under the field `field`.
pub open spec fn field_child_spec(ns: Seq<SyntaxNode>, p: int, field: Seq<char>) -> Option<int> {
    first_from(
        ns.len() as int,
        |c: int| is_child_of(ns, c, p) && field_is(ns[c], field),
        0,
    )
}

/// The sibling right before `j`, if any.
pub open spec fn prev_sibling_spec(ns: Seq<SyntaxNode>, j: int) -> Option<int> {
    match ns[j].parent {
        Some(p) => last_below(|k: int| is_child_of(ns, k, p as int), j),
        None => None,
    }
}

/// The parent of `j`, as an index.
pub open spec fn parent_spec(ns: Seq<SyntaxNode>, j: int) -> Option<int> {
    match ns[j].parent {
        Some(p) => Some(p as int),
        None => None,
    }
}

/// The text that a range covers, when it lies in the source and is valid
/// UTF-8.
pub open spec fn range_text(src: Seq<u8>, r: TextRange) -> Option<Seq<char>> {
    if r.start_byte <= r.end_byte && r.end_byte <= src.len() && valid_utf8(
        src.subrange(r.start_byte as int, r.end_byte as int),
    ) {
        Some(decode_utf8(src.subrange(r.start_byte as int, r.end_byte as int)))
    } else {
        None
    }
}

/// The text of a range, or the empty text where it has none.
pub open spec fn range_text_or_empty(src: Seq<u8>, r: TextRange) -> Seq<char> {
    match range_text(src, r) {
        Some(t) => t,
        None => Seq::empty(),
    }
}

/// The text of a node's range.
pub fn node_text<'a>(source: &'a [u8], n: &SyntaxNode) -> (r: Option<&'a str>)
    ensures
        r is Some <==> range_text(source@, n.range) is Some,
        r matches Some(s) ==> range_text(source@, n.range) == Some(s@),
{
    let r = n.range;
    if r.start_byte <= r.end_byte && r.end_byte <= source.len() {
        let bytes = &source[r.start_byte..r.end_byte];
        assert(bytes@ == source@.subrange(r.start_byte as int, r.end_byte as int));
        utf8_str(bytes)
    } else {
        None
    }
}

/// Whether node `i` is of kind `kind`.
pub fn kind_is(t: &SyntaxTree, i: usize, kind: &str) -> (r: bool)
    requires
        i < t.nodes@.len(),
    ensures
        r == (t.nodes@[i as int].kind@ == kind@),
{
    str_eq(t.nodes[i].kind.as_str(), kind)
}

/// The parent of node `i`.
pub fn parent_of(t: &SyntaxTree, i: usize) -> (r: Option<usize>)
    requires
        t.wf(),
        i < t.nodes@.len(),
    ensures
        r == t.nodes@[i as int].parent,
        r matches Some(p) ==> p < i,
{
    t.nodes[i].parent
}

/// Whether some child of `p` is of kind `kind`.
pub fn has_child_kind(t: &SyntaxTree, p: usize, kind: &str) -> (r: bool)
    ensures
        r == has_child_kind_spec(t.nodes@, p as int, kind@),
{
    let n = t.nodes.len();
    for c in 0..n
        invariant
            n == t.nodes@.len(),
            forall|k: int|
                0 <= k < c ==> !(is_child_of(t.nodes@, k, p as int) && (#[trigger] t.nodes@[k]).kind@
                    == kind@),
    {
        if t.nodes[c].parent == Some(p) && kind_is(t, c, kind) {
            return true;
        }
    }
    false
}

/// Whether some child of `p` has a kind that contains `text`, or has a child
/// of kind `text`.
pub fn children_text_contains(t: &SyntaxTree, p: usize, text: &str) -> (r: bool)
    ensures
        r == children_text_contains_spec(t.nodes@, p as int, text@),
{
    let tv = chars_of(text);
    let n = t.nodes.len();
    for c in 0..n
        invariant
            n == t.nodes@.len(),
            tv@ == text@,
            forall|k: int|
                0 <= k < c ==> !(is_child_of(t.nodes@, k, p as int) && (has_infix(
                    (#[trigger] t.nodes@[k]).kind@,
                    text@,
                ) || has_child_kind_spec(t.nodes@, k, text@))),
    {
        if t.nodes[c].parent == Some(p) {
            let kv = chars_of(t.nodes[c].kind.as_str());
            if contains_chars(kv.as_slice(), tv.as_slice()) || has_child_kind(t, c, text) {
                return true;
            }
        }
    }
    false
}

/// The first child of `p` under the field `field`.
pub fn field_child(t: &SyntaxTree, p: usize, field: &str) -> (r: Option<usize>)
    ensures
        r matches Some(c) ==> field_child_spec(t.nodes@, p as int, field@) == Some(c as int)
            && is_child_of(t.nodes@, c as int, p as int),
        r is None ==> field_child_spec(t.nodes@, p as int, field@) is None,
{
    let ghost pred = |c: int|
        is_child_of(t.nodes@, c, p as int) && field_is(t.nodes@[c], field@);
    let n = t.nodes.len();
    for c in 0..n
        invariant
            n == t.nodes@.len(),
            pred == (|c: int|
                is_child_of(t.nodes@, c, p as int) && field_is(t.nodes@[c], field@)),
            first_from(n as int, pred, 0) == first_from(n as int, pred, c as int),
    {
        let hit = match &t.nodes[c].field {
            Some(f) => t.nodes[c].parent == Some(p) && str_eq(f.as_str(), field),
            None => false,
        };
        if hit {
            assert(pred(c as int));
            return Some(c);
        }
        assert(!pred(c as int));
    }
    None
}

/// The sibling right before node `j`.
pub fn prev_sibling(t: &SyntaxTree, j: usize) -> (r: Option<usize>)
    requires
        j < t.nodes@.len(),
    ensures
        r matches Some(k) ==> prev_sibling_spec(t.nodes@, j as int) == Some(k as int) && k < j,
        r is None ==> prev_sibling_spec(t.nodes@, j as int) is None,
{
    match t.nodes[j].parent {
        None => None,
        Some(p) => {
            let ghost pred = |k: int| is_child_of(t.nodes@, k, p as int);
            assert(prev_sibling_spec(t.nodes@, j as int) == last_below(pred, j as int));
            let mut k = j;
            while k > 0
                invariant
                    k <= j < t.nodes@.len(),
                    pred == (|k: int| is_child_of(t.nodes@, k, p as int)),
                    last_below(pred, j as int) == last_below(pred, k as int),
                    prev_sibling_spec(t.nodes@, j as int) == last_below(pred, j as int),
                decreases k,
            {
                if t.nodes[k - 1].parent == Some(p) {
                    assert(pred(k - 1));
                    return Some(k - 1);
                }
                assert(!pred(k - 1));
                k = k - 1;
            }
            None
        },
    }
}

} // verus!
