use vstd::prelude::*;

use tree_sitter::Language as Grammar;
use tree_sitter::StreamingIterator;

use crate::syntax::{range_out_of_order, ranges_fit, ranges_in_order, Capture, NodeFacts, QueryHit, TextRange};

verus! {

#[verifier::external_type_specification]
#[verifier::external_body]
pub struct ExGrammar(Grammar);

#[verifier::external_type_specification]
#[verifier::external_body]
pub struct ExParser(tree_sitter::Parser);

#[verifier::external_type_specification]
#[verifier::external_body]
pub struct ExTree(tree_sitter::Tree);

#[verifier::external_type_specification]
#[verifier::external_body]
pub struct ExTreeCursor<'a>(tree_sitter::TreeCursor<'a>);

#[verifier::external_type_specification]
#[verifier::external_body]
pub struct ExQuery(tree_sitter::Query);

#[verifier::external_type_specification]
#[verifier::external_body]
pub struct ExQueryError(tree_sitter::QueryError);

#[verifier::external_type_specification]
#[verifier::external_body]
pub struct ExLanguageError(tree_sitter::LanguageError);

/// Wraps `<tree_sitter::Language as Clone>::clone`, which hands back the
/// same grammar pointer (`ts_language_copy` returns its argument): the
/// clone equals the original.
#[verifier::external_body]
pub fn grammar_clone(g: &tree_sitter::Language) -> (r: tree_sitter::Language)
    ensures
        r == *g,
{
    g.clone()
}

/// Wraps `tree_sitter::Parser::new`.
#[verifier::external_body]
pub fn parser_new() -> tree_sitter::Parser {
    tree_sitter::Parser::new()
}

/// Wraps `tree_sitter::Parser::set_language`; whether the grammar's ABI
/// version is accepted is not stated.
#[verifier::external_body]
pub fn parser_set_language(p: &mut tree_sitter::Parser, g: &tree_sitter::Language) -> Result<
    (),
    tree_sitter::LanguageError,
> {
    p.set_language(g)
}

/// Wraps `tree_sitter::Parser::set_included_ranges`; its error carries the
/// index of the first range that is out of order, which is returned here.
/// tree-sitter accepts the ranges exactly when they run from earliest to
/// latest without overlapping (checked on 32-bit offsets, so this is
/// stated where the offsets fit). What the parser keeps is not stated.
#[verifier::external_body]
pub fn parser_set_included_ranges(p: &mut tree_sitter::Parser, ranges: &[TextRange]) -> (r: Result<
    (),
    usize,
>)
    ensures
        r matches Err(i) ==> i < ranges@.len(),
        ranges_fit(ranges@) ==> (r is Ok <==> ranges_in_order(ranges@)),
        ranges_fit(ranges@) ==> (r matches Err(i) ==> range_out_of_order(ranges@, i as int)
            && forall|j: int| 0 <= j < i ==> !#[trigger] range_out_of_order(ranges@, j)),
{
    let rs: Vec<tree_sitter::Range> = ranges.iter().map(|r| tree_sitter::Range {
        start_byte: r.start_byte,
        end_byte: r.end_byte,
        start_point: tree_sitter::Point { row: r.start_row, column: r.start_col },
        end_point: tree_sitter::Point { row: r.end_row, column: r.end_col },
    }).collect();
    p.set_included_ranges(&rs).map_err(|e| e.0)
}

/// A syntax tree together with the bytes it was parsed from; only
/// `parser_parse` makes one.
pub struct ParsedSource<'a> {
    tree: tree_sitter::Tree,
    source: &'a [u8],
}

impl<'a> ParsedSource<'a> {
    /// The bytes the tree was parsed from.
    pub closed spec fn text(&self) -> Seq<u8> {
        self.source@
    }

    /// The tree.
    pub fn tree(&self) -> &tree_sitter::Tree {
        &self.tree
    }
}

/// Wraps `tree_sitter::Parser::parse` on a whole byte buffer, without an
/// old tree, and keeps the buffer with the tree. Nothing is stated of the
/// tree.
#[verifier::external_body]
pub fn parser_parse<'a>(p: &mut tree_sitter::Parser, source: &'a [u8]) -> (r: Option<ParsedSource<'a>>)
    ensures
        r matches Some(pt) ==> pt.text() == source@,
{
    match p.parse(source, None) {
        Some(tree) => Some(ParsedSource { tree, source }),
        None => None,
    }
}

/// Wraps `tree_sitter::Node::descendant_count` on the root node of `t`: the
/// number of nodes of the tree, which counts the root itself, so it is at
/// least one.
#[verifier::external_body]
pub fn tree_node_count(t: &tree_sitter::Tree) -> (r: usize)
    ensures
        r >= 1,
{
    t.root_node().descendant_count()
}

/// Wraps `tree_sitter::Tree::walk`: a cursor on the root node.
#[verifier::external_body]
pub fn tree_walk<'a>(t: &'a tree_sitter::Tree) -> tree_sitter::TreeCursor<'a> {
    t.walk()
}

/// Wraps `tree_sitter::TreeCursor::node`, converting the node to plain
/// values (its kind, id, byte range and positions). Nothing is stated.
#[verifier::external_body]
pub fn cursor_node(c: &tree_sitter::TreeCursor) -> NodeFacts {
    let n = c.node();
    let (s, e) = (n.start_position(), n.end_position());
    NodeFacts {
        kind: n.kind().to_string(),
        id: n.id(),
        range: TextRange {
            start_byte: n.start_byte(),
            end_byte: n.end_byte(),
            start_row: s.row,
            start_col: s.column,
            end_row: e.row,
            end_col: e.column,
        },
    }
}

/// Wraps `tree_sitter::TreeCursor::field_name`.
#[verifier::external_body]
pub fn cursor_field_name(c: &tree_sitter::TreeCursor) -> Option<String> {
    c.field_name().map(|f| f.to_string())
}

/// Wraps `tree_sitter::TreeCursor::depth`.
#[verifier::external_body]
pub fn cursor_depth(c: &tree_sitter::TreeCursor) -> u32 {
    c.depth()
}

/// Wraps `tree_sitter::TreeCursor::goto_first_child`.
#[verifier::external_body]
pub fn cursor_goto_first_child(c: &mut tree_sitter::TreeCursor) -> bool {
    c.goto_first_child()
}

/// Wraps `tree_sitter::TreeCursor::goto_next_sibling`.
#[verifier::external_body]
pub fn cursor_goto_next_sibling(c: &mut tree_sitter::TreeCursor) -> bool {
    c.goto_next_sibling()
}

/// Wraps `tree_sitter::TreeCursor::goto_parent`.
#[verifier::external_body]
pub fn cursor_goto_parent(c: &mut tree_sitter::TreeCursor) -> bool {
    c.goto_parent()
}

/// Wraps `tree_sitter::Query::new`.
#[verifier::external_body]
pub fn query_new(g: &tree_sitter::Language, source: &str) -> Result<
    tree_sitter::Query,
    tree_sitter::QueryError,
> {
    tree_sitter::Query::new(g, source)
}

/// Wraps `tree_sitter::Query::capture_index_for_name`.
#[verifier::external_body]
pub fn query_capture_index(q: &tree_sitter::Query, name: &str) -> Option<u32> {
    q.capture_index_for_name(name)
}

/// Wraps `tree_sitter::Query::property_settings` for every pattern index
/// below `tree_sitter::Query::pattern_count`, converting each `#set!`
/// property to its key and value.
#[verifier::external_body]
pub fn query_pattern_settings(q: &tree_sitter::Query) -> Vec<Vec<(String, Option<String>)>> {
    (0..q.pattern_count()).map(|i| {
        q.property_settings(i).iter().map(|p| (p.key.to_string(), p.value.as_deref().map(
            |v| v.to_string(),
        ))).collect()
    }).collect()
}

/// Wraps `tree_sitter::QueryCursor::matches` on the root of a parsed tree,
/// over the bytes it was parsed from (so that text predicates read inside
/// them), converting each match to its pattern index and its captures
/// (capture index and the captured node's id).
#[verifier::external_body]
pub fn query_matches(q: &tree_sitter::Query, pt: &ParsedSource) -> Vec<QueryHit> {
    let mut cursor = tree_sitter::QueryCursor::new();
    let mut it = cursor.matches(q, pt.tree.root_node(), pt.source);
    let mut hits = Vec::new();
    while let Some(m) = it.next() {
        let captures = m.captures().iter().map(|c| Capture { index: c.index, node_id: c.node.id() });
        hits.push(QueryHit { pattern_index: m.pattern_index, captures: captures.collect() });
    }
    hits
}

} // verus!
