//! Questions about the syntax tree of a document: which section surrounds a
//! point, which key stands at it, and where a comment stands that the grammar
//! does not allow.

use crate::buffer::TextBuffer;
use crate::encoding::PositionEncodingKind;
use crate::position::{column_to_char, is_valid_column, Position, Range};
use crate::section::{section_kind_of, FlbSectionType, SectionKind};
use crate::syntax::{
    cursor_descendant_index, cursor_goto_descendant, cursor_goto_parent, cursor_node,
    cursor_nodes, node_child_by_field_name, node_descendant_count, node_index, node_kind,
    node_nodes, node_parent, node_span, node_walk, tree_descendant_at, tree_descendant_index,
    tree_nodes, tree_root, NodeFacts, NodeSpan, Point,
};
use crate::text::{optional_text, str_eq, uppercase};
use tree_sitter::{Node, Tree};
use vstd::prelude::*;

verus! {

/// What the queries read of one node of the tree.
#[derive(Clone, Debug, PartialEq, Eq)]
pub struct SyntaxNode {
    /// The name of the node's type in the grammar.
    pub kind: String,
    /// The extent of the node.
    pub span: NodeSpan,
    /// The index of the node directly above, in the list that holds the node.
    pub parent: Option<usize>,
}

/// What the queries read of a node on the way from a point up to the root.
#[derive(Clone, Debug, PartialEq, Eq)]
pub struct NodeInfo {
    /// The name of the node's type in the grammar.
    pub kind: String,
    /// The extent of the node.
    pub span: NodeSpan,
    /// For a section with a named header, the name as the document has it.
    pub section_name: Option<String>,
}

/// How grave a diagnostic is.
#[derive(Clone, Copy, Debug, PartialEq, Eq, Structural)]
pub enum DiagnosticSeverity {
    Error,
    Warning,
    Information,
    Hint,
}

/// A finding about a range of the document.
#[derive(Clone, Debug, PartialEq, Eq)]
pub struct Diagnostic {
    pub range: Range,
    pub message: String,
    pub severity: Option<DiagnosticSeverity>,
}

/// The message of the diagnostic for a comment where none may stand.
pub open spec fn comment_message() -> Seq<char> {
    "comment not permitted in this position"@
}

/// The editor position for a point of the parser. Rows and columns that an
/// editor position cannot hold are cut to the largest that it can.
pub open spec fn position_of_point(point: Point) -> Position {
    Position {
        line: if point.row > u32::MAX { u32::MAX } else { point.row as u32 },
        character: if point.column > u32::MAX { u32::MAX } else { point.column as u32 },
    }
}

/// The range of the document that a node covers.
pub open spec fn range_of_span(span: NodeSpan) -> Range {
    Range { start: position_of_point(span.start_point), end: position_of_point(span.end_point) }
}

/// What the tree holds of a listed node: its kind, its span and the place of
/// the node above it.
pub open spec fn node_shape(node: SyntaxNode) -> NodeFacts {
    NodeFacts {
        kind: node.kind@,
        span: node.span,
        parent: match node.parent {
            Some(above) => Some(above as int),
            None => None,
        },
        fields: Map::empty(),
    }
}

/// What the tree holds of each node of a list.
pub open spec fn shapes(nodes: Seq<SyntaxNode>) -> Seq<NodeFacts> {
    Seq::new(nodes.len(), |i: int| node_shape(nodes[i]))
}

/// Whether two lists hold the same nodes by kind, span and the place of the
/// node above.
pub open spec fn same_shapes(a: Seq<NodeFacts>, b: Seq<NodeFacts>) -> bool {
    &&& a.len() == b.len()
    &&& forall|i: int|
        0 <= i < a.len() ==> {
            &&& (#[trigger] a[i]).kind == b[i].kind
            &&& a[i].span == b[i].span
            &&& a[i].parent == b[i].parent
        }
}

/// Whether `nodes` lists the nodes that a tree holds, in their order, each
/// with its kind, its span and the place of the node above it.
pub open spec fn lists(nodes: Seq<SyntaxNode>, held: Seq<NodeFacts>) -> bool {
    same_shapes(shapes(nodes), held)
}

/// Whether node `j` is a comment directly below the error node `i`.
pub open spec fn is_flagged(nodes: Seq<NodeFacts>, i: int, j: int) -> bool {
    &&& 0 <= i < nodes.len()
    &&& 0 <= j < nodes.len()
    &&& nodes[i].kind == "ERROR"@
    &&& nodes[j].kind == "comment"@
    &&& nodes[j].parent == Some(i)
}

/// The ranges of the comments directly below node `i`, among the first `n`
/// nodes, in the order of the list.
pub open spec fn flagged_below(nodes: Seq<NodeFacts>, i: int, n: int) -> Seq<Range>
    decreases n,
{
    if n <= 0 {
        Seq::empty()
    } else if is_flagged(nodes, i, n - 1) {
        flagged_below(nodes, i, n - 1).push(range_of_span(nodes[n - 1].span))
    } else {
        flagged_below(nodes, i, n - 1)
    }
}

/// The ranges that the scan reports for the first `n` nodes of the list: for
/// each error node in turn, the comments directly below it.
pub open spec fn flagged_ranges(nodes: Seq<NodeFacts>, n: int) -> Seq<Range>
    decreases n,
{
    if n <= 0 {
        Seq::empty()
    } else {
        flagged_ranges(nodes, n - 1) + flagged_below(nodes, n - 1, nodes.len() as int)
    }
}

/// Lists of the same shapes flag the same ranges below each node.
proof fn lemma_same_flagged_below(a: Seq<NodeFacts>, b: Seq<NodeFacts>, i: int, n: int)
    requires
        same_shapes(a, b),
        n <= a.len(),
    ensures
        flagged_below(a, i, n) == flagged_below(b, i, n),
    decreases n,
{
    if n > 0 {
        lemma_same_flagged_below(a, b, i, n - 1);
        assert(a[n - 1].kind == b[n - 1].kind);
        if 0 <= i < a.len() {
            assert(a[i].kind == b[i].kind);
        }
    }
}

/// Lists of the same shapes flag the same ranges.
pub proof fn lemma_same_flagged_ranges(a: Seq<NodeFacts>, b: Seq<NodeFacts>, n: int)
    requires
        same_shapes(a, b),
        n <= a.len(),
    ensures
        flagged_ranges(a, n) == flagged_ranges(b, n),
    decreases n,
{
    if n > 0 {
        lemma_same_flagged_ranges(a, b, n - 1);
        lemma_same_flagged_below(a, b, n - 1, a.len() as int);
    }
}

/// Whether `diagnostics` are the findings for the ranges `ranges`, one for
/// each, in order, with the fixed message and no severity.
pub open spec fn reports(diagnostics: Seq<Diagnostic>, ranges: Seq<Range>) -> bool {
    &&& diagnostics.len() == ranges.len()
    &&& forall|k: int|
        0 <= k < diagnostics.len() ==> {
            &&& (#[trigger] diagnostics[k]).range == ranges[k]
            &&& diagnostics[k].message@ == comment_message()
            &&& diagnostics[k].severity is None
        }
}

/// The name of the section that surrounds the first node of `chain`, which
/// lists a node and then the nodes above it, from the nearest to the root.
///
/// Below a section body the section is the node directly above; at a key it is
/// the nearest node above that is a section with a named header. No other node
/// has a surrounding section.
pub open spec fn enclosing_section_name(chain: Seq<NodeInfo>) -> Option<Seq<char>> {
    if chain.len() == 0 {
        None
    } else if chain[0].kind@ == "section_body"@ {
        if chain.len() > 1 && chain[1].section_name is Some {
            Some(chain[1].section_name->0@)
        } else {
            None
        }
    } else if chain[0].kind@ == "key_type"@ {
        first_section_name(chain, 1)
    } else {
        None
    }
}

/// The name of the first node of `chain`, from index `from` on, that is a
/// section with a named header.
pub open spec fn first_section_name(chain: Seq<NodeInfo>, from: int) -> Option<Seq<char>>
    decreases chain.len() - from,
{
    if from < 0 || from >= chain.len() {
        None
    } else if chain[from].section_name is Some {
        Some(chain[from].section_name->0@)
    } else {
        first_section_name(chain, from + 1)
    }
}

/// The kind of the section that surrounds the first node of `chain`.
pub open spec fn enclosing_section_kind(chain: Seq<NodeInfo>) -> Option<SectionKind> {
    match enclosing_section_name(chain) {
        Some(name) => Some(section_kind_of(name, uppercase(name))),
        None => None,
    }
}

/// The value of an optional section kind.
pub open spec fn optional_kind(kind: Option<FlbSectionType>) -> Option<SectionKind> {
    match kind {
        Some(kind) => Some(kind@),
        None => None,
    }
}

/// The text between two byte offsets of `text`, where both fall between
/// characters and the first is not past the second.
#[verifier::opaque]
pub open spec fn byte_range_of(text: Seq<char>, start: int, end: int) -> Option<Seq<char>> {
    if start <= end && is_valid_column(PositionEncodingKind::UTF8, text, start) && is_valid_column(
        PositionEncodingKind::UTF8,
        text,
        end,
    ) {
        Some(
            text.subrange(
                column_to_char(PositionEncodingKind::UTF8, text, start),
                column_to_char(PositionEncodingKind::UTF8, text, end),
            ),
        )
    } else {
        None
    }
}

/// The name in the header of node `i` of `nodes`, as `text` has it: the text
/// of the child under `name` of the child under `header`, where the node is a
/// section and has both.
pub open spec fn section_name_in(nodes: Seq<NodeFacts>, text: Seq<char>, i: int) -> Option<
    Seq<char>,
> {
    if !(0 <= i < nodes.len()) || nodes[i].kind != "section"@ {
        None
    } else if !nodes[i].fields.dom().contains("header"@) {
        None
    } else if !nodes[nodes[i].fields["header"@]].fields.dom().contains("name"@) {
        None
    } else {
        let name = nodes[nodes[nodes[i].fields["header"@]].fields["name"@]];
        byte_range_of(text, name.span.start_byte as int, name.span.end_byte as int)
    }
}

/// The name of the nearest section with a named header among node `i` and
/// the nodes above it.
pub open spec fn nearest_section_name(nodes: Seq<NodeFacts>, text: Seq<char>, i: int) -> Option<
    Seq<char>,
>
    decreases i,
{
    if !(0 <= i < nodes.len()) {
        None
    } else if section_name_in(nodes, text, i) is Some {
        section_name_in(nodes, text, i)
    } else {
        match nodes[i].parent {
            Some(above) => if 0 <= above < i {
                nearest_section_name(nodes, text, above)
            } else {
                None
            },
            None => None,
        }
    }
}

/// The name of the section that surrounds node `found` of `nodes`. Below a
/// section body the section is the node directly above; at a key it is the
/// nearest node above that is a section with a named header. No other node has
/// a surrounding section, and there is none without a node.
pub open spec fn section_name_around(nodes: Seq<NodeFacts>, text: Seq<char>, found: int) -> Option<
    Seq<char>,
> {
    if !(0 <= found < nodes.len()) {
        None
    } else if nodes[found].kind == "section_body"@ {
        match nodes[found].parent {
            Some(above) => section_name_in(nodes, text, above),
            None => None,
        }
    } else if nodes[found].kind == "key_type"@ {
        match nodes[found].parent {
            Some(above) => nearest_section_name(nodes, text, above),
            None => None,
        }
    } else {
        None
    }
}

/// The kind of the section that surrounds node `found` of `nodes`.
pub open spec fn section_kind_around(nodes: Seq<NodeFacts>, text: Seq<char>, found: int) -> Option<
    SectionKind,
> {
    match section_name_around(nodes, text, found) {
        Some(name) => Some(section_kind_of(name, uppercase(name))),
        None => None,
    }
}

/// The key that node `found` of `nodes` is: the text of the node, where it is
/// a key and `text` has its range.
pub open spec fn key_around(nodes: Seq<NodeFacts>, text: Seq<char>, found: int) -> Option<
    Seq<char>,
> {
    if 0 <= found < nodes.len() && nodes[found].kind == "key_type"@ {
        byte_range_of(
            text,
            nodes[found].span.start_byte as int,
            nodes[found].span.end_byte as int,
        )
    } else {
        None
    }
}

/// Whether `info` holds what the queries read of node `i` of `nodes`.
pub open spec fn describes(info: NodeInfo, nodes: Seq<NodeFacts>, text: Seq<char>, i: int) -> bool {
    &&& info.kind@ == nodes[i].kind
    &&& info.span == nodes[i].span
    &&& optional_text(info.section_name) == section_name_in(nodes, text, i)
}

/// The place of the node `k` levels above node `i`, or -1 where there is none.
pub open spec fn ancestor(nodes: Seq<NodeFacts>, i: int, k: nat) -> int
    decreases k,
{
    if k == 0 {
        i
    } else {
        let below = ancestor(nodes, i, (k - 1) as nat);
        if 0 <= below < nodes.len() && nodes[below].parent is Some {
            nodes[below].parent->0
        } else {
            -1
        }
    }
}

/// Whether the first items of `chain` list node `found` of `nodes` and then
/// the nodes above it, one level each, each before the one below it in `nodes`.
pub open spec fn is_chain_start(
    chain: Seq<NodeInfo>,
    nodes: Seq<NodeFacts>,
    text: Seq<char>,
    found: int,
) -> bool {
    forall|k: int|
        0 <= k < chain.len() ==> {
            &&& describes(#[trigger] chain[k], nodes, text, ancestor(nodes, found, k as nat))
            &&& 0 <= ancestor(nodes, found, k as nat) < nodes.len()
            &&& k > 0 ==> ancestor(nodes, found, k as nat) < ancestor(
                nodes,
                found,
                (k - 1) as nat,
            )
        }
}

/// Whether `chain` lists node `found` of `nodes` and then every node above it,
/// from the nearest to the root, each before the one below it in `nodes`.
/// Without a node the list is empty.
pub open spec fn is_chain_of(
    chain: Seq<NodeInfo>,
    nodes: Seq<NodeFacts>,
    text: Seq<char>,
    found: int,
) -> bool {
    if found < 0 {
        chain.len() == 0
    } else {
        &&& chain.len() > 0
        &&& is_chain_start(chain, nodes, text, found)
        &&& ancestor(nodes, found, chain.len()) < 0
    }
}

/// A chain that lists a node and the nodes above it up to some node goes on
/// with the node directly above that one.
proof fn lemma_chain_grows(
    chain: Seq<NodeInfo>,
    info: NodeInfo,
    nodes: Seq<NodeFacts>,
    text: Seq<char>,
    found: int,
    above: int,
)
    requires
        chain.len() >= 1,
        is_chain_start(chain, nodes, text, found),
        nodes[ancestor(nodes, found, (chain.len() - 1) as nat)].parent == Some(above),
        0 <= above < ancestor(nodes, found, (chain.len() - 1) as nat),
        describes(info, nodes, text, above),
    ensures
        is_chain_start(chain.push(info), nodes, text, found),
        ancestor(nodes, found, chain.len()) == above,
{
    let last = ancestor(nodes, found, (chain.len() - 1) as nat);
    assert(describes(chain[chain.len() - 1], nodes, text, last));
    assert(ancestor(nodes, found, chain.len()) == above);
    let longer = chain.push(info);
    assert forall|k: int| 0 <= k < longer.len() implies {
        &&& describes(#[trigger] longer[k], nodes, text, ancestor(nodes, found, k as nat))
        &&& 0 <= ancestor(nodes, found, k as nat) < nodes.len()
        &&& k > 0 ==> ancestor(nodes, found, k as nat) < ancestor(nodes, found, (k - 1) as nat)
    } by {
        if k < chain.len() {
            assert(longer[k] == chain[k]);
        }
    }
}

/// From place `k` of a chain on, the first section name of the chain is the
/// nearest section name from the node that stands there.
proof fn lemma_first_section_name(
    chain: Seq<NodeInfo>,
    nodes: Seq<NodeFacts>,
    text: Seq<char>,
    found: int,
    k: int,
)
    requires
        found >= 0,
        is_chain_of(chain, nodes, text, found),
        0 <= k <= chain.len(),
    ensures
        first_section_name(chain, k) == if k < chain.len() {
            nearest_section_name(nodes, text, ancestor(nodes, found, k as nat))
        } else {
            None
        },
    decreases chain.len() - k,
{
    if k < chain.len() {
        let here = ancestor(nodes, found, k as nat);
        assert(describes(chain[k], nodes, text, here));
        lemma_first_section_name(chain, nodes, text, found, k + 1);
        let next = ancestor(nodes, found, (k + 1) as nat);
        assert(next == if nodes[here].parent is Some {
            nodes[here].parent->0
        } else {
            -1
        });
        if k + 1 < chain.len() {
            assert(describes(chain[k + 1], nodes, text, next));
        }
    }
}

/// The section that the chain of a node gives is the section around the node.
pub proof fn lemma_chain_section(
    chain: Seq<NodeInfo>,
    nodes: Seq<NodeFacts>,
    text: Seq<char>,
    found: int,
)
    requires
        is_chain_of(chain, nodes, text, found),
        found < nodes.len(),
    ensures
        enclosing_section_name(chain) == section_name_around(nodes, text, found),
        enclosing_section_kind(chain) == section_kind_around(nodes, text, found),
{
    if found >= 0 {
        assert(ancestor(nodes, found, 0) == found);
        assert(describes(chain[0], nodes, text, found));
        let above = ancestor(nodes, found, 1);
        assert(above == if nodes[found].parent is Some {
            nodes[found].parent->0
        } else {
            -1
        });
        lemma_first_section_name(chain, nodes, text, found, 1);
        if chain.len() > 1 {
            assert(describes(chain[1], nodes, text, above));
        }
    }
}

/// Computes the editor position for a point of the parser.
pub fn point_to_position(point: Point) -> (position: Position)
    ensures
        position == position_of_point(point),
{
    let line: u32 = if point.row > u32::MAX as usize {
        u32::MAX
    } else {
        point.row as u32
    };
    let character: u32 = if point.column > u32::MAX as usize {
        u32::MAX
    } else {
        point.column as u32
    };
    Position { line, character }
}

/// The name of the section that surrounds the first node of `chain`.
pub fn find_enclosing_section_name(chain: &Vec<NodeInfo>) -> (name: Option<&String>)
    ensures
        name is Some <==> enclosing_section_name(chain@) is Some,
        name matches Some(n) ==> enclosing_section_name(chain@) == Some(n@),
{
    if chain.len() == 0 {
        return None;
    }
    if str_eq(chain[0].kind.as_str(), "section_body") {
        if chain.len() > 1 {
            return chain[1].section_name.as_ref();
        }
        return None;
    }
    if !str_eq(chain[0].kind.as_str(), "key_type") {
        return None;
    }
    let mut i: usize = 1;
    while i < chain.len()
        invariant
            1 <= i,
            chain@.len() > 0,
            chain@[0].kind@ != "section_body"@,
            chain@[0].kind@ == "key_type"@,
            first_section_name(chain@, i as int) == first_section_name(chain@, 1),
        decreases chain.len() - i,
    {
        if chain[i].section_name.is_some() {
            return chain[i].section_name.as_ref();
        }
        i += 1;
    }
    None
}

/// The kind of the section that surrounds the first node of `chain`. A name
/// that is not known gives the kind `Other`, never a failure.
pub fn find_enclosing_section_kind(chain: &Vec<NodeInfo>) -> (kind: Option<FlbSectionType>)
    ensures
        kind is Some <==> enclosing_section_kind(chain@) is Some,
        kind matches Some(k) ==> enclosing_section_kind(chain@) == Some(k@),
{
    match find_enclosing_section_name(chain) {
        Some(name) => Some(FlbSectionType::from_name(name.as_str())),
        None => None,
    }
}

/// Whether the first node of `chain` is a key.
pub fn stands_at_key(chain: &Vec<NodeInfo>) -> (at_key: bool)
    ensures
        at_key == (chain@.len() > 0 && chain@[0].kind@ == "key_type"@),
{
    chain.len() > 0 && str_eq(chain[0].kind.as_str(), "key_type")
}

/// Scans a list of nodes for comments that stand where the grammar allows
/// none: for each error node, in the order of the list, one diagnostic for each
/// comment directly below it. Error nodes without such a comment are passed
/// over.
pub fn scan_diagnostics(nodes: &Vec<SyntaxNode>) -> (diagnostics: Vec<Diagnostic>)
    ensures
        reports(diagnostics@, flagged_ranges(shapes(nodes@), nodes@.len() as int)),
{
    let ghost held = shapes(nodes@);
    let mut diagnostics: Vec<Diagnostic> = Vec::new();
    let mut i: usize = 0;
    while i < nodes.len()
        invariant
            i <= nodes.len(),
            held == shapes(nodes@),
            reports(diagnostics@, flagged_ranges(held, i as int)),
        decreases nodes.len() - i,
    {
        if str_eq(nodes[i].kind.as_str(), "ERROR") {
            let ghost before = diagnostics@;
            let mut j: usize = 0;
            while j < nodes.len()
                invariant
                    i < nodes.len(),
                    j <= nodes.len(),
                    held == shapes(nodes@),
                    held[i as int].kind == "ERROR"@,
                    reports(before, flagged_ranges(held, i as int)),
                    reports(
                        diagnostics@,
                        flagged_ranges(held, i as int) + flagged_below(held, i as int, j as int),
                    ),
                decreases nodes.len() - j,
            {
                let below = match nodes[j].parent {
                    Some(p) => p == i,
                    None => false,
                };
                assert(held[j as int] == node_shape(nodes@[j as int]));
                if below && str_eq(nodes[j].kind.as_str(), "comment") {
                    let span = nodes[j].span;
                    let range = Range {
                        start: point_to_position(span.start_point),
                        end: point_to_position(span.end_point),
                    };
                    diagnostics.push(
                        Diagnostic {
                            range,
                            message: "comment not permitted in this position".to_owned(),
                            severity: None,
                        },
                    );
                    assert(is_flagged(held, i as int, j as int));
                    assert(flagged_ranges(held, i as int) + flagged_below(
                        held,
                        i as int,
                        j as int,
                    ).push(range) =~= (flagged_ranges(held, i as int) + flagged_below(
                        held,
                        i as int,
                        j as int,
                    )).push(range));
                } else {
                    assert(!is_flagged(held, i as int, j as int));
                }
                j += 1;
            }
        } else {
            proof {
                assert(held[i as int] == node_shape(nodes@[i as int]));
                assert(forall|n: int| !is_flagged(held, i as int, n));
                lemma_nothing_below(held, i as int, held.len() as int);
                assert(flagged_ranges(held, i as int) + Seq::<Range>::empty()
                    =~= flagged_ranges(held, i as int));
            }
        }
        i += 1;
    }
    diagnostics
}

/// Below a node that is no error node nothing is flagged.
proof fn lemma_nothing_below(nodes: Seq<NodeFacts>, i: int, n: int)
    requires
        forall|j: int| !is_flagged(nodes, i, j),
    ensures
        flagged_below(nodes, i, n) == Seq::<Range>::empty(),
    decreases n,
{
    if n > 0 {
        lemma_nothing_below(nodes, i, n - 1);
    }
}

/// Whether every node of the list that has a node above it comes after that
/// node, and the first has none above it.
pub open spec fn parents_precede(nodes: Seq<SyntaxNode>) -> bool {
    forall|k: int|
        0 <= k < nodes.len() ==> match (#[trigger] nodes[k]).parent {
            Some(p) => p < k,
            None => true,
        }
}

/// Lists the nodes that a tree holds, each before the nodes below it, and
/// each with its kind, its span and the place of the node above it.
pub fn collect_nodes(tree: &Tree) -> (nodes: Vec<SyntaxNode>)
    ensures
        lists(nodes@, tree_nodes(*tree)),
        parents_precede(nodes@),
        nodes@.len() > 0,
        nodes@[0].parent is None,
{
    let ghost held = tree_nodes(*tree);
    let root = tree_root(tree);
    let count = node_descendant_count(&root);
    let mut cursor = node_walk(&root);
    let mut nodes: Vec<SyntaxNode> = Vec::new();
    let mut i: usize = 0;
    while i < count
        invariant
            i <= count,
            count == held.len(),
            cursor_nodes(cursor) == held,
            nodes@.len() == i,
            parents_precede(nodes@),
            i > 0 ==> nodes@[0].parent is None,
            same_shapes(shapes(nodes@), held.subrange(0, i as int)),
        decreases count - i,
    {
        cursor_goto_descendant(&mut cursor, i);
        let node = cursor_node(&cursor);
        let kind = node_kind(&node).to_owned();
        let span = node_span(&node);
        let parent = if cursor_goto_parent(&mut cursor) {
            Some(cursor_descendant_index(&cursor))
        } else {
            None
        };
        let ghost before = nodes@;
        nodes.push(SyntaxNode { kind, span, parent });
        proof {
            let listed = shapes(nodes@);
            let wanted = held.subrange(0, i + 1);
            assert forall|k: int| 0 <= k < listed.len() implies {
                &&& (#[trigger] listed[k]).kind == wanted[k].kind
                &&& listed[k].span == wanted[k].span
                &&& listed[k].parent == wanted[k].parent
            } by {
                if k < i {
                    assert(nodes@[k] == before[k]);
                    assert(shapes(before)[k].kind == held.subrange(0, i as int)[k].kind);
                }
            }
        }
        i += 1;
    }
    proof {
        assert(held.subrange(0, count as int) =~= held);
    }
    nodes
}

/// The name in the header of `node`, where the node is a section and its
/// header holds a name whose text the buffer can give.
fn section_name_of(node: &Node, buffer: &TextBuffer) -> (name: Option<String>)
    requires
        0 <= node_index(*node) < node_nodes(*node).len(),
    ensures
        optional_text(name) == section_name_in(node_nodes(*node), buffer@, node_index(*node)),
{
    if !str_eq(node_kind(node), "section") {
        return None;
    }
    let header = match node_child_by_field_name(node, "header") {
        Some(header) => header,
        None => {
            return None;
        },
    };
    match node_child_by_field_name(&header, "name") {
        Some(name) => {
            let span = node_span(&name);
            proof {
                reveal(byte_range_of);
            }
            buffer.byte_range_text(span.start_byte, span.end_byte)
        },
        None => None,
    }
}

/// What the queries read of `node`.
fn describe_node(node: &Node, buffer: &TextBuffer) -> (info: NodeInfo)
    requires
        0 <= node_index(*node) < node_nodes(*node).len(),
    ensures
        describes(info, node_nodes(*node), buffer@, node_index(*node)),
{
    NodeInfo {
        kind: node_kind(node).to_owned(),
        span: node_span(node),
        section_name: section_name_of(node, buffer),
    }
}

/// The smallest node of the tree that spans `point`, followed by the nodes
/// above it, from the nearest to the root. The list is empty where no node
/// spans the point.
pub fn node_chain_at(tree: &Tree, buffer: &TextBuffer, point: Point) -> (chain: Vec<NodeInfo>)
    ensures
        is_chain_of(
            chain@,
            tree_nodes(*tree),
            buffer@,
            tree_descendant_index(*tree, point.row as int, point.column as int),
        ),
{
    let ghost nodes = tree_nodes(*tree);
    let ghost found = tree_descendant_index(*tree, point.row as int, point.column as int);
    let mut chain: Vec<NodeInfo> = Vec::new();
    let mut node = match tree_descendant_at(tree, point) {
        Some(node) => node,
        None => {
            return chain;
        },
    };
    chain.push(describe_node(&node, buffer));
    proof {
        assert(ancestor(nodes, found, 0) == found);
    }
    loop
        invariant
            found >= 0,
            found == tree_descendant_index(*tree, point.row as int, point.column as int),
            nodes == tree_nodes(*tree),
            node_nodes(node) == nodes,
            0 <= node_index(node) < nodes.len(),
            chain@.len() >= 1,
            node_index(node) == ancestor(nodes, found, (chain@.len() - 1) as nat),
            is_chain_start(chain@, nodes, buffer@, found),
        decreases node_index(node),
    {
        let ghost held = chain@;
        match node_parent(&node) {
            Some(above) => {
                let info = describe_node(&above, buffer);
                proof {
                    lemma_chain_grows(held, info, nodes, buffer@, found, node_index(above));
                }
                chain.push(info);
                node = above;
            },
            None => {
                proof {
                    assert(ancestor(nodes, found, held.len()) == -1);
                }
                return chain;
            },
        }
    }
}

} // verus!
