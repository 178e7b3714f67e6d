//! An open document: its text and its syntax tree, kept in step as the editor
//! sends changes.

use crate::buffer::{
    lemma_positions_ordered, position_resolves, position_to_char, splice, tree_edit_for,
    TextBuffer,
};
use crate::encoding::PositionEncodingKind;
use crate::lines::line_count;
use crate::position::Range;
use crate::query::{
    byte_range_of, collect_nodes, find_enclosing_section_kind, flagged_ranges, is_chain_of,
    key_around, lemma_chain_section, lemma_same_flagged_ranges, lists, node_chain_at,
    optional_kind, parents_precede, reports, scan_diagnostics, section_kind_around, shapes,
    stands_at_key, Diagnostic, NodeInfo, SyntaxNode,
};
use crate::section::FlbSectionType;
use crate::syntax::{
    edited, parsed, parser_new, parser_parse, parser_ready, parser_set_fluentbit, reparsed,
    tree_descendant_index, tree_edit, tree_nodes, NodeFacts, Point, TreeEdit,
};
use crate::text::{decimal, optional_text, push_decimal, string_push_str};
use tree_sitter::{Parser, Tree};
use vstd::prelude::*;

verus! {

/// Why an operation on a document failed.
#[derive(Clone, Copy, Debug, PartialEq, Eq, Structural)]
pub enum DocumentError {
    /// The position at this line and column names no place in the text.
    PositionOutOfBounds(u32, u32),
    /// The parser could not be set up with the grammar, or gave no tree.
    GrammarLoadFailure,
}

/// A change that the editor reports: new text for a range of the document, or,
/// without a range, for the whole document.
#[derive(Clone, Debug, PartialEq, Eq)]
pub struct ContentChange {
    pub range: Option<Range>,
    pub text: String,
}

/// A document with its parser and its current syntax tree.
pub struct TextDocument {
    buffer: TextBuffer,
    tree: Option<Tree>,
    /// Whether the tree is older than the text: the parser gave no tree for
    /// the text as it stands.
    stale: bool,
    parser: Parser,
}

/// What `change` makes of `text`, where it applies.
pub open spec fn changed_text(
    encoding: PositionEncodingKind,
    text: Seq<char>,
    change: ContentChange,
) -> Seq<char> {
    match change.range {
        None => change.text@,
        Some(range) => splice(
            text,
            position_to_char(encoding, text, range.start),
            position_to_char(encoding, text, range.end),
            change.text@,
        ),
    }
}

/// What applying `change` to `text` returns: the first of the two ends of the
/// range that names no place in the text is reported.
pub open spec fn change_outcome(
    encoding: PositionEncodingKind,
    text: Seq<char>,
    change: ContentChange,
) -> Result<(), DocumentError> {
    match change.range {
        None => Ok(()),
        Some(range) => if !position_resolves(encoding, text, range.start) {
            Err(DocumentError::PositionOutOfBounds(range.start.line, range.start.character))
        } else if !position_resolves(encoding, text, range.end) {
            Err(DocumentError::PositionOutOfBounds(range.end.line, range.end.character))
        } else {
            Ok(())
        },
    }
}

/// Whether the tree of `after` is what parsing leaves once `change` was
/// applied to `before`. After a change of the whole text the tree is the parse
/// of the new text from scratch. After a change of a range the tree that was
/// held is told of the edit and handed to the parser for reuse: the tree is
/// what the parser makes of the new text with it or, where the parser gave
/// none, the told tree itself, marked as stale.
pub open spec fn tree_follows(
    encoding: PositionEncodingKind,
    before: TextDocument,
    after: TextDocument,
    change: ContentChange,
) -> bool {
    match change.range {
        None => !after.stale() && after.syntax() is Some && after.nodes() == parsed(change.text@),
        Some(range) => {
            let told = edited(
                before.syntax()->0,
                tree_edit_for(
                    before.text(),
                    position_to_char(encoding, before.text(), range.start),
                    position_to_char(encoding, before.text(), range.end),
                    change.text@,
                ),
            );
            if after.stale() {
                after.syntax() == Some(told)
            } else {
                after.syntax() is Some && after.nodes() == reparsed(told, after.text())
            }
        },
    }
}

/// Whether `after` is what `change` makes of the document `before`: with its
/// text changed and its tree parsed again where the change is accepted, and
/// `before` itself where it is refused.
pub open spec fn change_follows(
    encoding: PositionEncodingKind,
    before: TextDocument,
    after: TextDocument,
    change: ContentChange,
) -> bool {
    match change_outcome(encoding, before.text(), change) {
        Ok(()) => {
            &&& after.text() == changed_text(encoding, before.text(), change)
            &&& tree_follows(encoding, before, after, change)
        },
        Err(_) => after == before,
    }
}

/// Whether `trail` holds the document before the changes and then the
/// document after each of the first `n` of `changes`: each is what the change
/// makes of the one before it, and past a change that was refused the
/// document stays.
pub open spec fn is_trail(
    encoding: PositionEncodingKind,
    trail: Seq<TextDocument>,
    changes: Seq<ContentChange>,
    n: int,
) -> bool {
    &&& trail.len() == n + 1
    &&& forall|k: int|
        0 <= k < n ==> if changes_outcome(encoding, trail[0].text(), changes, k).1 is Err {
            #[trigger] trail[k + 1] == trail[k]
        } else {
            change_follows(encoding, trail[k], trail[k + 1], changes[k])
        }
}

/// Whether `after` is what the first `n` of `changes` make of the document
/// `before`, applied one after the other up to the first that is refused.
pub open spec fn changes_follow(
    encoding: PositionEncodingKind,
    before: TextDocument,
    after: TextDocument,
    changes: Seq<ContentChange>,
    n: int,
) -> bool {
    exists|trail: Seq<TextDocument>|
        #[trigger] is_trail(encoding, trail, changes, n) && trail[0] == before && trail[n]
            == after
}

/// A document that is changed as a whole to its own text has the tree of a
/// document that is opened on that text.
pub proof fn lemma_full_replace_tree(
    encoding: PositionEncodingKind,
    before: TextDocument,
    after: TextDocument,
    change: ContentChange,
)
    requires
        change.range is None,
        change.text@ == before.text(),
        change_follows(encoding, before, after, change),
    ensures
        after.text() == before.text(),
        after.nodes() == parsed(before.text()),
        !after.stale(),
{
}

/// The text after the first `n` of `changes` were applied to `text` in order,
/// and how that went. The first change that is refused ends it: the changes
/// before it stay applied, those after it are not looked at.
pub open spec fn changes_outcome(
    encoding: PositionEncodingKind,
    text: Seq<char>,
    changes: Seq<ContentChange>,
    n: int,
) -> (Seq<char>, Result<(), DocumentError>)
    decreases n,
{
    if n <= 0 {
        (text, Ok(()))
    } else {
        let (before, res) = changes_outcome(encoding, text, changes, n - 1);
        if res is Err {
            (before, res)
        } else {
            match change_outcome(encoding, before, changes[n - 1]) {
                Ok(()) => (changed_text(encoding, before, changes[n - 1]), Ok(())),
                Err(e) => (before, Err(e)),
            }
        }
    }
}

/// Replacing the whole text by itself is accepted and gives the same text.
pub proof fn lemma_full_replace_idempotent(
    encoding: PositionEncodingKind,
    text: Seq<char>,
    change: ContentChange,
)
    requires
        change.range is None,
        change.text@ == text,
    ensures
        change_outcome(encoding, text, change) is Ok,
        changed_text(encoding, text, change) == text,
        changed_text(encoding, changed_text(encoding, text, change), change) == text,
{
}

/// A change whose range ends on a line that the text does not have is refused
/// with a position that is out of bounds: that of the start where the start
/// names no place either, else that of the end.
pub proof fn lemma_change_past_last_line_refused(
    encoding: PositionEncodingKind,
    text: Seq<char>,
    change: ContentChange,
)
    requires
        change.range matches Some(range) && range.end.line >= line_count(text),
    ensures
        change_outcome(encoding, text, change) is Err,
        change_outcome(encoding, text, change) == Err::<(), DocumentError>(
            DocumentError::PositionOutOfBounds(
                change.range->0.start.line,
                change.range->0.start.character,
            ),
        ) || change_outcome(encoding, text, change) == Err::<(), DocumentError>(
            DocumentError::PositionOutOfBounds(
                change.range->0.end.line,
                change.range->0.end.character,
            ),
        ),
{
}

/// A change that is accepted makes of the text what the plain splice of the
/// replacement into the text makes of it: the text before the range, the
/// replacement, and the text after the range.
pub proof fn lemma_change_is_splice(
    encoding: PositionEncodingKind,
    text: Seq<char>,
    change: ContentChange,
)
    requires
        change.range matches Some(range) && range.start.le(range.end),
        change_outcome(encoding, text, change) is Ok,
    ensures
        ({
            let start = position_to_char(encoding, text, change.range->0.start);
            let end = position_to_char(encoding, text, change.range->0.end);
            &&& 0 <= start <= end <= text.len()
            &&& changed_text(encoding, text, change) == text.subrange(0, start) + change.text@
                + text.subrange(end, text.len() as int)
            &&& changed_text(encoding, text, change).len() == text.len() - (end - start)
                + change.text@.len()
        }),
{
    lemma_positions_ordered(encoding, text, change.range->0.start, change.range->0.end);
}

/// The message that describes an error.
pub open spec fn error_message(error: DocumentError) -> Seq<char> {
    match error {
        DocumentError::PositionOutOfBounds(line, character) => "position "@ + decimal(
            line as nat,
        ) + ":"@ + decimal(character as nat) + " is out of bounds"@,
        DocumentError::GrammarLoadFailure => "the grammar could not be loaded"@,
    }
}

impl DocumentError {
    /// The message that describes the error.
    pub fn message(&self) -> (message: String)
        ensures
            message@ == error_message(*self),
    {
        match self {
            DocumentError::PositionOutOfBounds(line, character) => {
                let mut message = "position ".to_owned();
                push_decimal(&mut message, *line as usize);
                string_push_str(&mut message, ":");
                push_decimal(&mut message, *character as usize);
                string_push_str(&mut message, " is out of bounds");
                message
            },
            DocumentError::GrammarLoadFailure => "the grammar could not be loaded".to_owned(),
        }
    }
}

impl TextDocument {
    /// The text of the document.
    pub closed spec fn text(&self) -> Seq<char> {
        self.buffer@
    }

    /// The syntax tree of the document, if it has one.
    pub closed spec fn syntax(&self) -> Option<Tree> {
        self.tree
    }

    /// Whether the tree is older than the text, because the parser gave no
    /// tree for the text as it stands.
    pub closed spec fn stale(&self) -> bool {
        self.stale
    }

    /// Whether the document is in order: its parser has its grammar, and it
    /// has a tree.
    pub closed spec fn well_formed(&self) -> bool {
        parser_ready(self.parser) && self.tree is Some
    }

    /// Opens a document on `text` and parses it from scratch. The grammar is
    /// one that the parser accepts, so that every text is opened.
    pub fn new(text: &str) -> (res: Result<TextDocument, DocumentError>)
        ensures
            res is Ok,
            res matches Ok(doc) ==> {
                &&& doc.well_formed()
                &&& doc.text() == text@
                &&& doc.syntax() is Some
                &&& doc.nodes() == parsed(text@)
                &&& !doc.stale()
            },
    {
        let mut parser = parser_new();
        match parser_set_fluentbit(&mut parser) {
            Ok(()) => {},
            Err(_) => {
                return Err(DocumentError::GrammarLoadFailure);
            },
        }
        match parser_parse(&mut parser, text, None) {
            Some(tree) => Ok(
                TextDocument {
                    buffer: TextBuffer::from_str(text),
                    tree: Some(tree),
                    stale: false,
                    parser,
                },
            ),
            None => Err(DocumentError::GrammarLoadFailure),
        }
    }

    /// The buffer that holds the text.
    pub fn buffer(&self) -> (buffer: &TextBuffer)
        ensures
            buffer@ == self.text(),
    {
        &self.buffer
    }

    /// Whether the tree is older than the text.
    pub fn is_stale(&self) -> (stale: bool)
        ensures
            stale == self.stale(),
    {
        self.stale
    }

    /// The syntax tree, if there is one.
    pub fn tree(&self) -> (tree: Option<&Tree>)
        ensures
            tree is Some <==> self.syntax() is Some,
            tree matches Some(t) ==> self.syntax() == Some(*t),
    {
        self.tree.as_ref()
    }

    /// Parses the current text again. With `edit`, the tree held so far is first
    /// told of the edit and then handed to the parser for reuse; without, the
    /// text is parsed from scratch. Where the parser gives no tree, the tree
    /// held so far stays and is marked as stale.
    fn reparse(&mut self, edit: Option<TreeEdit>)
        requires
            old(self).well_formed(),
        ensures
            final(self).well_formed(),
            final(self).text() == old(self).text(),
            final(self).syntax() is Some,
            match edit {
                Some(edit) => if final(self).stale() {
                    final(self).syntax() == Some(edited(old(self).syntax()->0, edit))
                } else {
                    final(self).nodes() == reparsed(
                        edited(old(self).syntax()->0, edit),
                        old(self).text(),
                    )
                },
                None => !final(self).stale() && final(self).nodes() == parsed(old(self).text()),
            },
    {
        let text = self.buffer.text();
        let held = self.tree.take();
        match (held, edit) {
            (Some(mut tree), Some(edit)) => {
                tree_edit(&mut tree, &edit);
                match parser_parse(&mut self.parser, text.as_str(), Some(&tree)) {
                    Some(fresh) => {
                        self.tree = Some(fresh);
                        self.stale = false;
                    },
                    None => {
                        self.tree = Some(tree);
                        self.stale = true;
                    },
                }
            },
            (held, _) => {
                match parser_parse(&mut self.parser, text.as_str(), None) {
                    Some(fresh) => {
                        self.tree = Some(fresh);
                        self.stale = false;
                    },
                    None => {
                        self.tree = held;
                        self.stale = true;
                    },
                }
            },
        }
    }

    /// The nodes that the tree holds, each before the nodes below it; none
    /// without a tree.
    pub open spec fn nodes(&self) -> Seq<NodeFacts> {
        match self.syntax() {
            Some(tree) => tree_nodes(tree),
            None => Seq::empty(),
        }
    }

    /// The place, among the nodes of the tree, of the smallest node that spans
    /// `point`, or -1 where there is none.
    pub open spec fn found_at(&self, point: Point) -> int {
        match self.syntax() {
            Some(tree) => tree_descendant_index(tree, point.row as int, point.column as int),
            None => -1,
        }
    }

    /// The smallest node of the tree that spans `point`, followed by the nodes
    /// above it up to the root. The list is empty without a tree, and where no
    /// node spans the point.
    pub fn node_chain_at(&self, point: Point) -> (chain: Vec<NodeInfo>)
        ensures
            is_chain_of(chain@, self.nodes(), self.text(), self.found_at(point)),
    {
        match &self.tree {
            Some(tree) => node_chain_at(tree, &self.buffer, point),
            None => Vec::new(),
        }
    }

    /// The nodes of the tree, each before the nodes below it. The list is empty
    /// without a tree.
    pub fn syntax_nodes(&self) -> (nodes: Vec<SyntaxNode>)
        ensures
            lists(nodes@, self.nodes()),
            parents_precede(nodes@),
            self.syntax() is Some <==> nodes@.len() > 0,
    {
        match &self.tree {
            Some(tree) => collect_nodes(tree),
            None => Vec::new(),
        }
    }

    /// The kind of the section that surrounds `point`, if one does: the
    /// section around the smallest node that spans the point.
    pub fn section_kind_at(&self, point: Point) -> (kind: Option<FlbSectionType>)
        ensures
            optional_kind(kind) == section_kind_around(
                self.nodes(),
                self.text(),
                self.found_at(point),
            ),
    {
        let chain = self.node_chain_at(point);
        proof {
            if self.found_at(point) >= 0 {
                assert(chain@[0] == chain@[0]);
            }
            lemma_chain_section(chain@, self.nodes(), self.text(), self.found_at(point));
        }
        find_enclosing_section_kind(&chain)
    }

    /// The key that stands at `point`: the text of the smallest node that
    /// spans the point, where that node is a key, and nothing for any other
    /// node.
    pub fn key_at(&self, point: Point) -> (key: Option<String>)
        ensures
            optional_text(key) == key_around(self.nodes(), self.text(), self.found_at(point)),
    {
        let chain = self.node_chain_at(point);
        proof {
            reveal(byte_range_of);
            if self.found_at(point) >= 0 {
                assert(chain@[0] == chain@[0]);
            }
        }
        if stands_at_key(&chain) {
            let span = chain[0].span;
            self.buffer.byte_range_text(span.start_byte, span.end_byte)
        } else {
            None
        }
    }

    /// The diagnostics for the comments that stand where the grammar allows
    /// none: for each error node of the tree, in the order of its nodes, one
    /// for each comment directly below it, with the fixed message. Without a
    /// tree there are none to give.
    pub fn diagnostics(&self) -> (found: Option<Vec<Diagnostic>>)
        ensures
            found is Some <==> self.syntax() is Some,
            found matches Some(diagnostics) ==> reports(
                diagnostics@,
                flagged_ranges(self.nodes(), self.nodes().len() as int),
            ),
    {
        match &self.tree {
            Some(tree) => {
                let nodes = collect_nodes(tree);
                let diagnostics = scan_diagnostics(&nodes);
                proof {
                    lemma_same_flagged_ranges(
                        shapes(nodes@),
                        self.nodes(),
                        nodes@.len() as int,
                    );
                }
                let found = Some(diagnostics);
                found
            },
            None => None,
        }
    }

    /// Applies changes to the document one after the other, each to the text
    /// that the changes before it left. The first change that is refused ends
    /// it: the changes before it stay applied.
    pub fn apply_content_changes(
        &mut self,
        changes: &Vec<ContentChange>,
        position_encoding: PositionEncodingKind,
    ) -> (res: Result<(), DocumentError>)
        requires
            old(self).well_formed(),
            forall|i: int|
                0 <= i < changes@.len() ==> ((#[trigger] changes@[i]).range matches Some(range)
                    ==> range.start.le(range.end)),
        ensures
            final(self).well_formed(),
            (final(self).text(), res) == changes_outcome(
                position_encoding,
                old(self).text(),
                changes@,
                changes@.len() as int,
            ),
            final(self).syntax() is Some,
            changes_follow(
                position_encoding,
                *old(self),
                *final(self),
                changes@,
                changes@.len() as int,
            ),
    {
        let ghost mut trail: Seq<TextDocument> = seq![*self];
        let mut i: usize = 0;
        while i < changes.len()
            invariant
                i <= changes@.len(),
                forall|i: int|
                    0 <= i < changes@.len() ==> ((#[trigger] changes@[i]).range matches Some(
                        range,
                    ) ==> range.start.le(range.end)),
                (self.text(), Ok::<(), DocumentError>(())) == changes_outcome(
                    position_encoding,
                    old(self).text(),
                    changes@,
                    i as int,
                ),
                self.well_formed(),
                self.syntax() is Some,
                is_trail(position_encoding, trail, changes@, i as int),
                trail[0] == *old(self),
                trail[i as int] == *self,
            decreases changes@.len() - i,
        {
            let ghost held = trail;
            match self.apply_content_change(&changes[i], position_encoding) {
                Ok(()) => {},
                Err(e) => {
                    proof {
                        let n = changes@.len() as int;
                        let rest = Seq::new((n - i) as nat, |k: int| *self);
                        let whole = held + rest;
                        assert forall|k: int| 0 <= k < n implies if changes_outcome(
                            position_encoding,
                            whole[0].text(),
                            changes@,
                            k,
                        ).1 is Err {
                            #[trigger] whole[k + 1] == whole[k]
                        } else {
                            change_follows(position_encoding, whole[k], whole[k + 1], changes@[k])
                        } by {
                            if k < i {
                                assert(whole[k] == held[k] && whole[k + 1] == held[k + 1]);
                            } else if k > i {
                                lemma_changes_outcome_stays(
                                    position_encoding,
                                    old(self).text(),
                                    changes@,
                                    i + 1,
                                    k,
                                );
                            }
                        }
                        assert(is_trail(position_encoding, whole, changes@, n));
                        lemma_changes_outcome_stays(
                            position_encoding,
                            old(self).text(),
                            changes@,
                            i + 1,
                            n,
                        );
                    }
                    return Err(e);
                },
            }
            proof {
                trail = held.push(*self);
                assert forall|k: int| 0 <= k < i + 1 implies if changes_outcome(
                    position_encoding,
                    trail[0].text(),
                    changes@,
                    k,
                ).1 is Err {
                    #[trigger] trail[k + 1] == trail[k]
                } else {
                    change_follows(position_encoding, trail[k], trail[k + 1], changes@[k])
                } by {
                    if k < i {
                        assert(trail[k] == held[k] && trail[k + 1] == held[k + 1]);
                    } else {
                        lemma_changes_outcome_ok_before(
                            position_encoding,
                            old(self).text(),
                            changes@,
                            i + 1,
                            k,
                        );
                    }
                }
            }
            i += 1;
        }
        proof {
            assert(is_trail(position_encoding, trail, changes@, changes@.len() as int));
        }
        Ok(())
    }

    /// Applies a change to the document.
    ///
    /// Both ends of the range are resolved against the text as it stands before
    /// the change. Where one of them names no place in it, the change is
    /// refused with that position, and text and tree stay as they were. Else
    /// the text of the range is replaced, the tree is told of the edit and the
    /// text is parsed again. A change without a range replaces the whole text,
    /// which is then parsed from scratch.
    pub fn apply_content_change(
        &mut self,
        change: &ContentChange,
        position_encoding: PositionEncodingKind,
    ) -> (res: Result<(), DocumentError>)
        requires
            old(self).well_formed(),
            change.range matches Some(range) ==> range.start.le(range.end),
        ensures
            final(self).well_formed(),
            res == change_outcome(position_encoding, old(self).text(), *change),
            res is Ok ==> final(self).text() == changed_text(
                position_encoding,
                old(self).text(),
                *change,
            ),
            res is Ok ==> tree_follows(position_encoding, *old(self), *final(self), *change),
            res is Err ==> *final(self) == *old(self),
            final(self).syntax() is Some,
    {
        match change.range {
            Some(range) => {
                let start = match self.buffer.resolve_position(range.start, position_encoding) {
                    Some(start) => start,
                    None => {
                        return Err(
                            DocumentError::PositionOutOfBounds(
                                range.start.line,
                                range.start.character,
                            ),
                        );
                    },
                };
                let end = match self.buffer.resolve_position(range.end, position_encoding) {
                    Some(end) => end,
                    None => {
                        return Err(
                            DocumentError::PositionOutOfBounds(
                                range.end.line,
                                range.end.character,
                            ),
                        );
                    },
                };
                proof {
                    lemma_positions_ordered(
                        position_encoding,
                        self.text(),
                        range.start,
                        range.end,
                    );
                }
                let edit = self.buffer.edit(start, end, change.text.as_str());
                self.reparse(Some(edit));
                Ok(())
            },
            None => {
                self.buffer = TextBuffer::from_str(change.text.as_str());
                self.reparse(None);
                Ok(())
            },
        }
    }
}

/// Once a change was refused, the changes after it alter nothing.
proof fn lemma_changes_outcome_stays(
    encoding: PositionEncodingKind,
    text: Seq<char>,
    changes: Seq<ContentChange>,
    failed: int,
    n: int,
)
    requires
        failed <= n,
        changes_outcome(encoding, text, changes, failed).1 is Err,
    ensures
        changes_outcome(encoding, text, changes, n) == changes_outcome(
            encoding,
            text,
            changes,
            failed,
        ),
    decreases n - failed,
{
    if failed < n {
        lemma_changes_outcome_stays(encoding, text, changes, failed, n - 1);
    }
}

/// Where the first `n` changes were all accepted, so were the first `k` of
/// them.
proof fn lemma_changes_outcome_ok_before(
    encoding: PositionEncodingKind,
    text: Seq<char>,
    changes: Seq<ContentChange>,
    n: int,
    k: int,
)
    requires
        k <= n,
        changes_outcome(encoding, text, changes, n).1 is Ok,
    ensures
        changes_outcome(encoding, text, changes, k).1 is Ok,
    decreases n - k,
{
    if k < n {
        lemma_changes_outcome_ok_before(encoding, text, changes, n - 1, k);
    }
}

} // verus!
