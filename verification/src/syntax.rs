//! The concrete syntax tree of a document, as the Fluent Bit grammar of
//! tree-sitter parses it, and what is taken on trust about the parser.
//!
//! Nothing is assumed of what the parser makes of a text. A tree is modelled
//! by the list of its nodes, each before the nodes below it, and a node by the
//! tree that holds it and its place in that list. The functions below call
//! into `tree_sitter` and state, over that model, what the calls return.

use tree_sitter::{InputEdit, LanguageError, Node, Parser, Tree, TreeCursor};
use vstd::prelude::*;

verus! {

#[verifier::external_type_specification]
#[verifier::external_body]
pub struct ExParser(Parser);

#[verifier::external_type_specification]
#[verifier::external_body]
pub struct ExTree(Tree);

#[verifier::external_type_specification]
#[verifier::external_body]
pub struct ExNode<'tree>(Node<'tree>);

#[verifier::external_type_specification]
#[verifier::external_body]
pub struct ExLanguageError(LanguageError);

#[verifier::external_type_specification]
#[verifier::external_body]
pub struct ExTreeCursor<'cursor>(TreeCursor<'cursor>);

/// A place in a text as the parser counts it: a row, and a column in bytes
/// from the start of the row.
#[derive(Clone, Copy, Debug, PartialEq, Eq, Structural)]
pub struct Point {
    pub row: usize,
    pub column: usize,
}

/// The extent of a node, in bytes and in rows and columns.
#[derive(Clone, Copy, Debug, PartialEq, Eq, Structural)]
pub struct NodeSpan {
    pub start_byte: usize,
    pub end_byte: usize,
    pub start_point: Point,
    pub end_point: Point,
}

/// What a tree must be told of an edit before the text is parsed again: where
/// the replaced range started and ended, and where the replacement ends.
#[derive(Clone, Copy, Debug, PartialEq, Eq, Structural)]
pub struct TreeEdit {
    pub start_byte: usize,
    pub old_end_byte: usize,
    pub new_end_byte: usize,
    pub start_position: Point,
    pub old_end_position: Point,
    pub new_end_position: Point,
}

/// What a tree holds of one of its nodes.
pub struct NodeFacts {
    /// The name of the node's type in the grammar.
    pub kind: Seq<char>,
    /// The extent of the node.
    pub span: NodeSpan,
    /// The place of the node directly above, if there is one.
    pub parent: Option<int>,
    /// For each field name of the node, the place of the first child under it.
    pub fields: Map<Seq<char>, int>,
}

/// The nodes that a tree holds, each before the nodes below it.
pub uninterp spec fn tree_nodes(tree: Tree) -> Seq<NodeFacts>;

/// The nodes of the tree that holds `node`.
pub uninterp spec fn node_nodes(node: Node) -> Seq<NodeFacts>;

/// The place of `node` among the nodes of its tree.
pub uninterp spec fn node_index(node: Node) -> int;

/// The place of the node that `Node::descendant_for_point_range` finds from
/// the root of `tree` for the point at `row` and `column`, or -1 where it
/// finds none.
pub uninterp spec fn tree_descendant_index(tree: Tree, row: int, column: int) -> int;

/// The nodes of the tree that holds the node at which `cursor` stands.
pub uninterp spec fn cursor_nodes(cursor: TreeCursor) -> Seq<NodeFacts>;

/// The place of the node at which `cursor` stands.
pub uninterp spec fn cursor_index(cursor: TreeCursor) -> int;

/// Whether `parser` has the Fluent Bit grammar for its language and is
/// otherwise as `Parser::new` makes a parser.
pub uninterp spec fn parser_ready(parser: Parser) -> bool;

/// The nodes of the tree that a parser with the Fluent Bit grammar makes of
/// `text` from scratch.
pub uninterp spec fn parsed(text: Seq<char>) -> Seq<NodeFacts>;

/// The nodes of the tree that a parser with the Fluent Bit grammar makes of
/// `text` when it is handed the tree `old` for reuse.
pub uninterp spec fn reparsed(old: Tree, text: Seq<char>) -> Seq<NodeFacts>;

/// The tree `tree` once it was told of `edit`.
pub uninterp spec fn edited(tree: Tree, edit: TreeEdit) -> Tree;

/// `Parser::new`: a parser without a language.
#[verifier::external_body]
pub(crate) fn parser_new() -> Parser {
    Parser::new()
}

/// `Parser::set_language` with the Fluent Bit grammar. The grammar is of a
/// version that the parser accepts, and it can be parsed with: the call
/// succeeds, and the parser has the grammar from then on.
#[verifier::external_body]
pub(crate) fn parser_set_fluentbit(parser: &mut Parser) -> (res: Result<(), LanguageError>)
    ensures
        res is Ok,
        parser_ready(*final(parser)),
{
    parser.set_language(&tree_sitter_fluentbit::LANGUAGE.into())
}

/// `Parser::parse`: a tree for `text`, or nothing where the parser gave none.
/// A parser with its grammar gives a tree where it parses from scratch. With
/// `old_tree`, the parser may reuse parts of that tree. The parser keeps its
/// grammar.
#[verifier::external_body]
pub(crate) fn parser_parse(parser: &mut Parser, text: &str, old_tree: Option<&Tree>) -> (tree:
    Option<Tree>)
    ensures
        parser_ready(*final(parser)) == parser_ready(*old(parser)),
        parser_ready(*old(parser)) && old_tree is None ==> tree is Some,
        parser_ready(*old(parser)) ==> (tree matches Some(made) ==> tree_nodes(made) == match old_tree {
            Some(old) => reparsed(*old, text@),
            None => parsed(text@),
        }),
{
    parser.parse(text, old_tree)
}

/// `Tree::edit`: tells the tree of an edit of the text.
#[verifier::external_body]
pub(crate) fn tree_edit(tree: &mut Tree, edit: &TreeEdit)
    ensures
        *final(tree) == edited(*old(tree), *edit),
{
    let (s, o, n) = (edit.start_position, edit.old_end_position, edit.new_end_position);
    tree.edit(&InputEdit {
        start_byte: edit.start_byte,
        old_end_byte: edit.old_end_byte,
        new_end_byte: edit.new_end_byte,
        start_position: tree_sitter::Point::new(s.row, s.column),
        old_end_position: tree_sitter::Point::new(o.row, o.column),
        new_end_position: tree_sitter::Point::new(n.row, n.column),
    })
}

/// `Tree::root_node`: the node that spans the whole tree. It is the first of
/// the nodes that the tree holds.
#[verifier::external_body]
pub(crate) fn tree_root<'t>(tree: &'t Tree) -> (root: Node<'t>)
    ensures
        node_nodes(root) == tree_nodes(*tree),
        node_index(root) == 0,
        node_nodes(root).len() > 0,
{
    tree.root_node()
}

/// `Node::descendant_count`: the number of nodes at and below the node, which
/// for the first node of a tree is the number of nodes that the tree holds.
#[verifier::external_body]
pub(crate) fn node_descendant_count(node: &Node) -> (count: usize)
    ensures
        node_index(*node) == 0 ==> count == node_nodes(*node).len(),
{
    node.descendant_count()
}

/// `Node::walk` on the first node of a tree: a cursor that stands at the node.
#[verifier::external_body]
pub(crate) fn node_walk<'t>(node: &Node<'t>) -> (cursor: TreeCursor<'t>)
    requires
        node_index(*node) == 0,
    ensures
        cursor_nodes(cursor) == node_nodes(*node),
        cursor_index(cursor) == node_index(*node),
{
    node.walk()
}

/// `TreeCursor::goto_descendant` for a cursor made at the first node of a
/// tree: the cursor then stands at the node of the given place.
#[verifier::external_body]
pub(crate) fn cursor_goto_descendant(cursor: &mut TreeCursor, index: usize)
    requires
        index < cursor_nodes(*old(cursor)).len(),
    ensures
        cursor_nodes(*final(cursor)) == cursor_nodes(*old(cursor)),
        cursor_index(*final(cursor)) == index,
{
    cursor.goto_descendant(index)
}

/// `TreeCursor::node`: the node at which the cursor stands.
#[verifier::external_body]
pub(crate) fn cursor_node<'t>(cursor: &TreeCursor<'t>) -> (node: Node<'t>)
    ensures
        node_nodes(node) == cursor_nodes(*cursor),
        node_index(node) == cursor_index(*cursor),
{
    cursor.node()
}

/// `TreeCursor::goto_parent` for a cursor made at the first node of a tree:
/// the cursor moves to the node directly above, which stands before the node
/// that it leaves, and stays where there is none.
#[verifier::external_body]
pub(crate) fn cursor_goto_parent(cursor: &mut TreeCursor) -> (moved: bool)
    ensures
        cursor_nodes(*final(cursor)) == cursor_nodes(*old(cursor)),
        moved <==> cursor_nodes(*old(cursor))[cursor_index(*old(cursor))].parent is Some,
        moved ==> {
            &&& cursor_nodes(*old(cursor))[cursor_index(*old(cursor))].parent == Some(
                cursor_index(*final(cursor)),
            )
            &&& 0 <= cursor_index(*final(cursor)) < cursor_index(*old(cursor))
        },
        !moved ==> cursor_index(*final(cursor)) == cursor_index(*old(cursor)),
{
    cursor.goto_parent()
}

/// `TreeCursor::descendant_index` for a cursor made at the first node of a
/// tree: the place of the node at which the cursor stands.
#[verifier::external_body]
pub(crate) fn cursor_descendant_index(cursor: &TreeCursor) -> (index: usize)
    ensures
        index == cursor_index(*cursor),
{
    cursor.descendant_index()
}

/// `Node::descendant_for_point_range` on the root of the tree, with one point
/// for both ends: the smallest node that spans the point, if there is one. The
/// node belongs to the tree and stands at the place that the call determines.
#[verifier::external_body]
pub(crate) fn tree_descendant_at<'t>(tree: &'t Tree, point: Point) -> (found: Option<Node<'t>>)
    ensures
        found is Some <==> tree_descendant_index(*tree, point.row as int, point.column as int)
            >= 0,
        found matches Some(node) ==> {
            &&& node_nodes(node) == tree_nodes(*tree)
            &&& node_index(node) == tree_descendant_index(
                *tree,
                point.row as int,
                point.column as int,
            )
            &&& 0 <= node_index(node) < node_nodes(node).len()
        },
{
    let at = tree_sitter::Point::new(point.row, point.column);
    tree.root_node().descendant_for_point_range(at, at)
}

/// `Node::kind`: the name of the node's type in the grammar, which is what the
/// tree holds of the node at its place.
#[verifier::external_body]
pub(crate) fn node_kind<'t>(node: &Node<'t>) -> (kind: &'t str)
    ensures
        kind@ == node_nodes(*node)[node_index(*node)].kind,
{
    node.kind()
}

/// `Node::parent`: the node directly above, if there is one. It belongs to the
/// same tree and stands before the node.
#[verifier::external_body]
pub(crate) fn node_parent<'t>(node: &Node<'t>) -> (parent: Option<Node<'t>>)
    ensures
        parent is Some <==> node_nodes(*node)[node_index(*node)].parent is Some,
        parent matches Some(above) ==> {
            &&& node_nodes(above) == node_nodes(*node)
            &&& node_nodes(*node)[node_index(*node)].parent == Some(node_index(above))
            &&& 0 <= node_index(above) < node_index(*node)
        },
{
    node.parent()
}

/// `Node::child_by_field_name`: the first child under the given field name, if
/// there is one. It belongs to the same tree.
#[verifier::external_body]
pub(crate) fn node_child_by_field_name<'t>(node: &Node<'t>, name: &str) -> (child: Option<Node<'t>>)
    ensures
        child is Some <==> node_nodes(*node)[node_index(*node)].fields.dom().contains(name@),
        child matches Some(below) ==> {
            &&& node_nodes(below) == node_nodes(*node)
            &&& node_index(below) == node_nodes(*node)[node_index(*node)].fields[name@]
            &&& 0 <= node_index(below) < node_nodes(below).len()
        },
{
    node.child_by_field_name(name)
}

/// `Node::range`: the extent of the node, copied field by field, which is
/// what the tree holds of the node at its place.
#[verifier::external_body]
pub(crate) fn node_span(node: &Node) -> (span: NodeSpan)
    ensures
        span == node_nodes(*node)[node_index(*node)].span,
{
    let range = node.range();
    NodeSpan {
        start_byte: range.start_byte,
        end_byte: range.end_byte,
        start_point: Point { row: range.start_point.row, column: range.start_point.column },
        end_point: Point { row: range.end_point.row, column: range.end_point.column },
    }
}

} // verus!
