use fluent_bit_language_server::document::{ContentChange, DocumentError};
use fluent_bit_language_server::encoding::PositionEncodingKind;
use fluent_bit_language_server::position::{Position, Range};
use fluent_bit_language_server::section::FlbSectionType;
use fluent_bit_language_server::store::{DocumentStore, StoreError};
use fluent_bit_language_server::syntax::Point;

fn change(start: (u32, u32), end: (u32, u32), text: &str) -> ContentChange {
    ContentChange {
        range: Some(Range::new(Position::new(start.0, start.1), Position::new(end.0, end.1))),
        text: text.to_string(),
    }
}

fn text_of(store: &DocumentStore, uri: &str) -> Option<String> {
    store.snapshot(uri).map(|document| document.buffer().text())
}

#[test]
fn documents_are_opened_changed_and_closed() {
    let mut store = DocumentStore::new();
    assert_eq!(text_of(&store, "file:///a.conf"), None);

    assert_eq!(store.open_file("file:///a.conf", "[INPUT]\n    Name  dummy\n"), Ok(()));
    assert_eq!(store.open_file("file:///b.conf", "[OUTPUT]\n    Name  stdout\n"), Ok(()));
    assert_eq!(
        store.update_file(
            "file:///a.conf",
            &change((1, 10), (1, 15), "tail"),
            PositionEncodingKind::UTF16
        ),
        Ok(())
    );
    assert_eq!(text_of(&store, "file:///a.conf"), Some("[INPUT]\n    Name  tail\n".to_string()));
    assert_eq!(
        text_of(&store, "file:///b.conf"),
        Some("[OUTPUT]\n    Name  stdout\n".to_string())
    );

    store.close_file("file:///a.conf");
    assert_eq!(text_of(&store, "file:///a.conf"), None);
    assert_eq!(
        text_of(&store, "file:///b.conf"),
        Some("[OUTPUT]\n    Name  stdout\n".to_string())
    );
    store.close_file("file:///a.conf");
    assert_eq!(text_of(&store, "file:///a.conf"), None);
}

#[test]
fn opening_again_replaces_the_document() {
    let mut store = DocumentStore::new();
    assert_eq!(store.open_file("file:///a.conf", "[INPUT]\n"), Ok(()));
    assert_eq!(store.open_file("file:///a.conf", "[FILTER]\n    Name  grep\n"), Ok(()));
    assert_eq!(text_of(&store, "file:///a.conf"), Some("[FILTER]\n    Name  grep\n".to_string()));
    store.close_file("file:///a.conf");
    assert_eq!(text_of(&store, "file:///a.conf"), None);
}

#[test]
fn change_of_an_unknown_document_fails_without_effect() {
    let mut store = DocumentStore::new();
    assert_eq!(store.open_file("file:///a.conf", "[INPUT]\n"), Ok(()));
    assert_eq!(
        store.update_file(
            "file:///other.conf",
            &change((0, 0), (0, 0), "x"),
            PositionEncodingKind::UTF16
        ),
        Err(StoreError::UnknownDocument)
    );
    assert_eq!(text_of(&store, "file:///a.conf"), Some("[INPUT]\n".to_string()));
    assert_eq!(text_of(&store, "file:///other.conf"), None);
}

#[test]
fn refused_change_leaves_the_document() {
    let mut store = DocumentStore::new();
    assert_eq!(store.open_file("file:///a.conf", "[INPUT]\n"), Ok(()));
    assert_eq!(
        store.update_file(
            "file:///a.conf",
            &change((0, 0), (4, 0), "x"),
            PositionEncodingKind::UTF16
        ),
        Err(StoreError::Document(DocumentError::PositionOutOfBounds(4, 0)))
    );
    assert_eq!(text_of(&store, "file:///a.conf"), Some("[INPUT]\n".to_string()));
}

#[test]
fn queries_go_to_the_document_under_the_uri() {
    let mut store = DocumentStore::new();
    assert_eq!(store.open_file("file:///a.conf", "[INPUT]\n    Name  dummy\n"), Ok(()));
    assert_eq!(store.open_file("file:///b.conf", "[FILTER]  # no\n    Match  *\n"), Ok(()));
    let point = Point { row: 1, column: 4 };
    assert_eq!(
        store.get_section_type_at_point("file:///a.conf", point),
        Some(FlbSectionType::Input)
    );
    assert_eq!(
        store.get_section_type_at_point("file:///b.conf", point),
        Some(FlbSectionType::Filter)
    );
    assert_eq!(store.get_key_at_point("file:///a.conf", point), Some("Name".to_string()));
    assert_eq!(store.get_key_at_point("file:///b.conf", point), Some("Match".to_string()));
    assert_eq!(store.get_diagnostics("file:///a.conf"), Some(vec![]));
    assert_eq!(store.get_diagnostics("file:///b.conf").map(|found| found.len()), Some(1));

    assert_eq!(store.get_section_type_at_point("file:///c.conf", point), None);
    assert_eq!(store.get_key_at_point("file:///c.conf", point), None);
    assert_eq!(store.get_diagnostics("file:///c.conf"), None);
}

#[test]
fn other_documents_keep_their_trees() {
    let mut store = DocumentStore::new();
    assert_eq!(store.open_file("file:///a.conf", "[INPUT]  # no\n    Name  dummy\n"), Ok(()));
    assert_eq!(store.open_file("file:///b.conf", "[OUTPUT]\n    Name  stdout\n"), Ok(()));
    let before = store.snapshot("file:///a.conf").unwrap().syntax_nodes();
    assert_eq!(
        store.update_file(
            "file:///b.conf",
            &change((1, 10), (1, 16), "null"),
            PositionEncodingKind::UTF16
        ),
        Ok(())
    );
    assert_eq!(
        store.update_file(
            "file:///b.conf",
            &change((7, 0), (7, 0), "x"),
            PositionEncodingKind::UTF16
        ),
        Err(StoreError::Document(DocumentError::PositionOutOfBounds(7, 0)))
    );
    store.close_file("file:///b.conf");
    assert_eq!(store.snapshot("file:///a.conf").unwrap().syntax_nodes(), before);
    assert_eq!(store.get_diagnostics("file:///a.conf").map(|found| found.len()), Some(1));
    assert_eq!(store.get_diagnostics("file:///b.conf"), None);
    assert_eq!(
        store.get_diagnostics("file:///a.conf").unwrap()[0].message,
        "comment not permitted in this position"
    );
}
