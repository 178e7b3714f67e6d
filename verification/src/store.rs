//! The documents that are open, each under the URI by which the editor names it.

use crate::document::{
    change_outcome, changed_text, tree_follows, ContentChange, DocumentError, TextDocument,
};
use crate::encoding::PositionEncodingKind;
use crate::query::{
    flagged_ranges, key_around, optional_kind, reports, section_kind_around, Diagnostic,
};
use crate::section::{FlbSectionType, SectionKind};
use crate::syntax::{parsed, Point};
use crate::text::{optional_text, str_eq};
use vstd::prelude::*;

verus! {

/// Why an operation on the store failed.
#[derive(Clone, Copy, Debug, PartialEq, Eq, Structural)]
pub enum StoreError {
    /// No document is open under the URI.
    UnknownDocument,
    /// The document refused the operation.
    Document(DocumentError),
}

/// A document with the URI under which it is open.
pub struct StoreEntry {
    uri: String,
    document: TextDocument,
}

/// The open documents. No two are open under the same URI.
pub struct DocumentStore {
    entries: Vec<StoreEntry>,
}

/// The index of the last of the first `n` entries that is open under `uri`,
/// or -1.
pub closed spec fn entry_position(entries: Seq<StoreEntry>, uri: Seq<char>, n: int) -> int
    decreases n,
{
    if n <= 0 {
        -1
    } else if entries[n - 1].uri@ == uri {
        n - 1
    } else {
        entry_position(entries, uri, n - 1)
    }
}

/// Whether no two entries are open under the same URI.
pub closed spec fn distinct_uris(entries: Seq<StoreEntry>) -> bool {
    forall|i: int, j: int|
        0 <= i < j < entries.len() ==> (#[trigger] entries[i]).uri@ != (#[trigger] entries[j]).uri@
}

/// The place of a URI among the first `n` entries is below `n`, and the entry
/// there is open under the URI; where there is no place, none of the entries is.
proof fn lemma_entry_position(entries: Seq<StoreEntry>, uri: Seq<char>, n: int)
    requires
        n <= entries.len(),
    ensures
        -1 <= entry_position(entries, uri, n),
        entry_position(entries, uri, n) < n || n <= 0,
        entry_position(entries, uri, n) >= 0 ==> entries[entry_position(entries, uri, n)].uri@
            == uri,
        entry_position(entries, uri, n) < 0 ==> forall|i: int|
            0 <= i < n ==> (#[trigger] entries[i]).uri@ != uri,
        forall|i: int|
            entry_position(entries, uri, n) < i < n ==> (#[trigger] entries[i]).uri@ != uri,
    decreases n,
{
    if n > 0 {
        lemma_entry_position(entries, uri, n - 1);
    }
}

/// Whether each document of the entries is in order.
pub closed spec fn documents_in_order(entries: Seq<StoreEntry>) -> bool {
    forall|i: int| 0 <= i < entries.len() ==> (#[trigger] entries[i]).document.well_formed()
}

impl DocumentStore {
    /// Whether the store is in order: no two documents are open under the
    /// same URI, and each document is in order.
    pub closed spec fn well_formed(&self) -> bool {
        distinct_uris(self.entries@) && documents_in_order(self.entries@)
    }

    /// The document that is open under `uri`, if one is.
    pub closed spec fn document(&self, uri: Seq<char>) -> Option<TextDocument> {
        let at = entry_position(self.entries@, uri, self.entries@.len() as int);
        if at >= 0 {
            Some(self.entries@[at].document)
        } else {
            None
        }
    }

    /// The text of each open document, by the URI under which it is open.
    pub open spec fn contents(&self) -> Map<Seq<char>, Seq<char>> {
        Map::new(
            |uri: Seq<char>| self.document(uri) is Some,
            |uri: Seq<char>| self.document(uri)->0.text(),
        )
    }

    /// Whether the document under `uri` has a syntax tree.
    pub open spec fn has_tree(&self, uri: Seq<char>) -> bool {
        self.document(uri) matches Some(document) && document.syntax() is Some
    }

    /// The kind of the section that surrounds `point` in the document under
    /// `uri`; none without such a document.
    pub open spec fn section_kind_around(&self, uri: Seq<char>, point: Point) -> Option<
        SectionKind,
    > {
        match self.document(uri) {
            Some(document) => section_kind_around(
                document.nodes(),
                document.text(),
                document.found_at(point),
            ),
            None => None,
        }
    }

    /// The key that stands at `point` in the document under `uri`; none
    /// without such a document.
    pub open spec fn key_around(&self, uri: Seq<char>, point: Point) -> Option<Seq<char>> {
        match self.document(uri) {
            Some(document) => key_around(
                document.nodes(),
                document.text(),
                document.found_at(point),
            ),
            None => None,
        }
    }

    /// A store without documents.
    pub fn new() -> (store: DocumentStore)
        ensures
            store.well_formed(),
            forall|uri: Seq<char>| (#[trigger] store.document(uri)) is None,
            store.contents() == Map::<Seq<char>, Seq<char>>::empty(),
    {
        let store = DocumentStore { entries: Vec::new() };
        assert(store.contents() =~= Map::<Seq<char>, Seq<char>>::empty());
        store
    }

    /// The index of the document that is open under `uri`.
    fn find(&self, uri: &str) -> (found: Option<usize>)
        ensures
            match found {
                Some(at) => at < self.entries@.len() && entry_position(
                    self.entries@,
                    uri@,
                    self.entries@.len() as int,
                ) == at && self.entries@[at as int].uri@ == uri@,
                None => entry_position(self.entries@, uri@, self.entries@.len() as int) == -1,
            },
    {
        let mut n = self.entries.len();
        while n > 0
            invariant
                n <= self.entries@.len(),
                entry_position(self.entries@, uri@, n as int) == entry_position(
                    self.entries@,
                    uri@,
                    self.entries@.len() as int,
                ),
            decreases n,
        {
            if str_eq(self.entries[n - 1].uri.as_str(), uri) {
                return Some(n - 1);
            }
            n -= 1;
        }
        None
    }

    /// Opens a document on `source_code` under `uri`, in place of the document
    /// that was open under it, if one was. The document is parsed from
    /// scratch. The documents under other URIs stay as they are.
    pub fn open_file(&mut self, uri: &str, source_code: &str) -> (res: Result<(), StoreError>)
        requires
            old(self).well_formed(),
        ensures
            final(self).well_formed(),
            res is Ok,
            final(self).document(uri@) matches Some(opened) && {
                &&& opened.text() == source_code@
                &&& opened.syntax() is Some
                &&& opened.nodes() == parsed(source_code@)
                &&& !opened.stale()
            },
            forall|other: Seq<char>|
                other != uri@ ==> #[trigger] final(self).document(other) == old(self).document(
                    other,
                ),
            final(self).contents() == old(self).contents().insert(uri@, source_code@),
    {
        let document = match TextDocument::new(source_code) {
            Ok(document) => document,
            Err(e) => {
                return Err(StoreError::Document(e));
            },
        };
        let ghost before = self.entries@;
        let ghost n = before.len() as int;
        match self.find(uri) {
            Some(at) => {
                self.entries[at].document = document;
                proof {
                    assert(self.entries@.len() == before.len());
                    assert(forall|i: int|
                        0 <= i < before.len() ==> (#[trigger] self.entries@[i]).uri
                            == before[i].uri);
                    assert(forall|i: int|
                        0 <= i < before.len() && i != at ==> self.entries@[i] == before[i]);
                    assert(distinct_uris(self.entries@)) by {
                        assert forall|i: int, j: int| 0 <= i < j < self.entries@.len() implies (
                        #[trigger] self.entries@[i]).uri@ != (#[trigger] self.entries@[j]).uri@ by {
                            assert(before[i].uri@ != before[j].uri@);
                        }
                    }
                    assert(documents_in_order(self.entries@)) by {
                        assert forall|i: int| 0 <= i < self.entries@.len() implies (
                        #[trigger] self.entries@[i]).document.well_formed() by {
                            if i != at {
                                assert(before[i].document.well_formed());
                            }
                        }
                    }
                    assert forall|u: Seq<char>|
                        #[trigger] self.document(u) == if u == uri@ {
                            Some(document)
                        } else {
                            old(self).document(u)
                        } by {
                        lemma_entry_position_by_uri(self.entries@, before, u, n);
                        lemma_entry_position(before, u, n);
                    }
                }
            },
            None => {
                self.entries.push(StoreEntry { uri: uri.to_owned(), document });
                proof {
                    lemma_entry_position(before, uri@, n);
                    assert(distinct_uris(self.entries@)) by {
                        assert forall|i: int, j: int| 0 <= i < j < self.entries@.len() implies (
                        #[trigger] self.entries@[i]).uri@ != (#[trigger] self.entries@[j]).uri@ by {
                            assert(self.entries@[i] == before[i]);
                            if j < before.len() {
                                assert(self.entries@[j] == before[j]);
                            }
                        }
                    }
                    assert(documents_in_order(self.entries@)) by {
                        assert forall|i: int| 0 <= i < self.entries@.len() implies (
                        #[trigger] self.entries@[i]).document.well_formed() by {
                            if i < n {
                                assert(self.entries@[i] == before[i]);
                                assert(before[i].document.well_formed());
                            }
                        }
                    }
                    assert forall|u: Seq<char>|
                        #[trigger] self.document(u) == if u == uri@ {
                            Some(document)
                        } else {
                            old(self).document(u)
                        } by {
                        lemma_entry_position_prefix(self.entries@, before, u, n);
                        lemma_entry_position(before, u, n);
                        if u != uri@ && entry_position(before, u, n) >= 0 {
                            assert(self.entries@[entry_position(before, u, n)]
                                == before[entry_position(before, u, n)]);
                        }
                    }
                }
            },
        }
        proof {
            assert(self.contents() =~= old(self).contents().insert(uri@, source_code@));
        }
        Ok(())
    }

    /// Applies a change to the document that is open under `uri`. Without such
    /// a document nothing happens but the failure; a change that the document
    /// refuses leaves the store as it was. The documents under other URIs stay
    /// as they are.
    pub fn update_file(
        &mut self,
        uri: &str,
        change: &ContentChange,
        position_encoding: PositionEncodingKind,
    ) -> (res: Result<(), StoreError>)
        requires
            old(self).well_formed(),
            change.range matches Some(range) ==> range.start.le(range.end),
        ensures
            final(self).well_formed(),
            res == match old(self).document(uri@) {
                None => Err::<(), StoreError>(StoreError::UnknownDocument),
                Some(document) => match change_outcome(
                    position_encoding,
                    document.text(),
                    *change,
                ) {
                    Ok(()) => Ok(()),
                    Err(e) => Err(StoreError::Document(e)),
                },
            },
            res is Ok ==> (final(self).document(uri@) matches Some(changed) && {
                &&& changed.text() == changed_text(
                    position_encoding,
                    old(self).document(uri@)->0.text(),
                    *change,
                )
                &&& changed.syntax() is Some
                &&& tree_follows(
                    position_encoding,
                    old(self).document(uri@)->0,
                    changed,
                    *change,
                )
            }),
            res is Err ==> final(self).document(uri@) == old(self).document(uri@),
            forall|other: Seq<char>|
                other != uri@ ==> #[trigger] final(self).document(other) == old(self).document(
                    other,
                ),
            res is Ok ==> final(self).contents() == old(self).contents().insert(
                uri@,
                changed_text(position_encoding, old(self).contents()[uri@], *change),
            ),
            res is Err ==> final(self).contents() == old(self).contents(),
    {
        let ghost before = self.entries@;
        let ghost n = before.len() as int;
        let at = match self.find(uri) {
            Some(at) => at,
            None => {
                return Err(StoreError::UnknownDocument);
            },
        };
        proof {
            assert(before[at as int].document.well_formed());
        }
        let res = self.entries[at].document.apply_content_change(change, position_encoding);
        proof {
            assert(self.entries@.len() == before.len());
            assert(forall|i: int|
                0 <= i < before.len() ==> (#[trigger] self.entries@[i]).uri == before[i].uri);
            assert(forall|i: int|
                0 <= i < before.len() && i != at ==> self.entries@[i] == before[i]);
            assert(distinct_uris(self.entries@)) by {
                assert forall|i: int, j: int| 0 <= i < j < self.entries@.len() implies (
                #[trigger] self.entries@[i]).uri@ != (#[trigger] self.entries@[j]).uri@ by {
                    assert(before[i].uri@ != before[j].uri@);
                }
            }
            assert(documents_in_order(self.entries@)) by {
                assert forall|i: int| 0 <= i < self.entries@.len() implies (
                #[trigger] self.entries@[i]).document.well_formed() by {
                    if i != at {
                        assert(before[i].document.well_formed());
                    }
                }
            }
            assert forall|u: Seq<char>|
                #[trigger] self.document(u) == if u == uri@ {
                    Some(self.entries@[at as int].document)
                } else {
                    old(self).document(u)
                } by {
                lemma_entry_position_by_uri(self.entries@, before, u, n);
                lemma_entry_position(before, u, n);
            }
            if res is Ok {
                assert(self.contents() =~= old(self).contents().insert(
                    uri@,
                    changed_text(position_encoding, old(self).contents()[uri@], *change),
                ));
            } else {
                assert(self.contents() =~= old(self).contents());
            }
        }
        match res {
            Ok(()) => Ok(()),
            Err(e) => Err(StoreError::Document(e)),
        }
    }

    /// Closes the document that is open under `uri`, if one is. The documents
    /// under other URIs stay as they are.
    pub fn close_file(&mut self, uri: &str)
        requires
            old(self).well_formed(),
        ensures
            final(self).well_formed(),
            final(self).document(uri@) is None,
            forall|other: Seq<char>|
                other != uri@ ==> #[trigger] final(self).document(other) == old(self).document(
                    other,
                ),
            final(self).contents() == old(self).contents().remove(uri@),
    {
        let ghost before = self.entries@;
        let ghost n = before.len() as int;
        match self.find(uri) {
            Some(at) => {
                let _ = self.entries.remove(at);
                proof {
                    let after = self.entries@;
                    assert(after =~= before.remove(at as int));
                    assert(distinct_uris(after)) by {
                        assert forall|i: int, j: int| 0 <= i < j < after.len() implies (
                        #[trigger] after[i]).uri@ != (#[trigger] after[j]).uri@ by {
                            let a = if i < at { i } else { i + 1 };
                            let b = if j < at { j } else { j + 1 };
                            assert(after[i] == before[a] && after[j] == before[b]);
                        }
                    }
                    assert(documents_in_order(after)) by {
                        assert forall|i: int| 0 <= i < after.len() implies (
                        #[trigger] after[i]).document.well_formed() by {
                            let a = if i < at { i } else { i + 1 };
                            assert(after[i] == before[a]);
                            assert(before[a].document.well_formed());
                        }
                    }
                    assert forall|u: Seq<char>|
                        #[trigger] self.document(u) == if u == uri@ {
                            None::<TextDocument>
                        } else {
                            old(self).document(u)
                        } by {
                        lemma_entry_position_removed(before, at as int, u);
                        lemma_entry_position(before, u, n);
                        lemma_entry_position(after, u, n - 1);
                    }
                }
            },
            None => {},
        }
        proof {
            assert(self.contents() =~= old(self).contents().remove(uri@));
        }
    }

    /// The document that is open under `uri`, to read.
    pub fn snapshot(&self, uri: &str) -> (document: Option<&TextDocument>)
        ensures
            match document {
                Some(held) => self.document(uri@) == Some(*held),
                None => self.document(uri@) is None,
            },
    {
        match self.find(uri) {
            Some(at) => Some(&self.entries[at].document),
            None => None,
        }
    }

    /// The kind of the section that surrounds `point` in the document under
    /// `uri`. There is none without such a document.
    pub fn get_section_type_at_point(&self, uri: &str, point: Point) -> (kind: Option<
        FlbSectionType,
    >)
        ensures
            optional_kind(kind) == self.section_kind_around(uri@, point),
    {
        match self.snapshot(uri) {
            Some(document) => document.section_kind_at(point),
            None => None,
        }
    }

    /// The key that stands at `point` in the document under `uri`. There is
    /// none without such a document.
    pub fn get_key_at_point(&self, uri: &str, point: Point) -> (key: Option<String>)
        ensures
            optional_text(key) == self.key_around(uri@, point),
    {
        match self.snapshot(uri) {
            Some(document) => document.key_at(point),
            None => None,
        }
    }

    /// The diagnostics of the document under `uri`: for each error node of its
    /// tree, in the order of the nodes, one for each comment directly below
    /// it, with the fixed message. There are none to give without such a
    /// document or without its tree.
    pub fn get_diagnostics(&self, uri: &str) -> (found: Option<Vec<Diagnostic>>)
        ensures
            found is Some <==> self.has_tree(uri@),
            found matches Some(diagnostics) ==> reports(
                diagnostics@,
                flagged_ranges(
                    self.document(uri@)->0.nodes(),
                    self.document(uri@)->0.nodes().len() as int,
                ),
            ),
    {
        match self.snapshot(uri) {
            Some(document) => document.diagnostics(),
            None => None,
        }
    }
}

/// Entries that differ in their documents only hold each URI at the same place.
proof fn lemma_entry_position_by_uri(
    a: Seq<StoreEntry>,
    b: Seq<StoreEntry>,
    uri: Seq<char>,
    n: int,
)
    requires
        n <= a.len() == b.len(),
        forall|i: int| 0 <= i < a.len() ==> (#[trigger] a[i]).uri == b[i].uri,
    ensures
        entry_position(a, uri, n) == entry_position(b, uri, n),
    decreases n,
{
    if n > 0 {
        lemma_entry_position_by_uri(a, b, uri, n - 1);
    }
}

/// The place of a URI among the first `n` entries of a list is the same in a
/// longer list that starts with those entries.
proof fn lemma_entry_position_prefix(
    longer: Seq<StoreEntry>,
    shorter: Seq<StoreEntry>,
    uri: Seq<char>,
    n: int,
)
    requires
        n <= shorter.len() <= longer.len(),
        forall|i: int| 0 <= i < shorter.len() ==> longer[i] == shorter[i],
    ensures
        entry_position(longer, uri, n) == entry_position(shorter, uri, n),
    decreases n,
{
    if n > 0 {
        lemma_entry_position_prefix(longer, shorter, uri, n - 1);
    }
}

/// Where the places of the URIs are once entry `at` has left a list of
/// distinct URIs.
proof fn lemma_entry_position_removed(before: Seq<StoreEntry>, at: int, uri: Seq<char>)
    requires
        distinct_uris(before),
        0 <= at < before.len(),
    ensures
        entry_position(before.remove(at), uri, before.len() - 1) == if uri == before[at].uri@ {
            -1
        } else if entry_position(before, uri, before.len() as int) > at {
            entry_position(before, uri, before.len() as int) - 1
        } else {
            entry_position(before, uri, before.len() as int)
        },
{
    let after = before.remove(at);
    let n = before.len() as int;
    lemma_entry_position(before, uri, n);
    lemma_entry_position(after, uri, n - 1);
    let p = entry_position(before, uri, n);
    let q = entry_position(after, uri, n - 1);
    assert(forall|i: int| 0 <= i < at ==> after[i] == before[i]);
    assert(forall|i: int| at <= i < n - 1 ==> after[i] == before[i + 1]);
    if q >= 0 {
        let src = if q < at {
            q
        } else {
            q + 1
        };
        assert(before[src].uri@ == uri);
        if p != src {
            if p < src {
                assert(false);
            } else {
                assert(before[p].uri@ == uri);
                assert(false);
            }
        }
    } else {
        if p >= 0 && p != at {
            let dst = if p < at {
                p
            } else {
                p - 1
            };
            assert(after[dst].uri@ == uri);
            assert(false);
        }
    }
}

} // verus!
