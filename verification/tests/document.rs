use fluent_bit_language_server::buffer::{BufferError, TextBuffer};
use fluent_bit_language_server::document::{ContentChange, DocumentError, TextDocument};
use fluent_bit_language_server::encoding::PositionEncodingKind;
use fluent_bit_language_server::position::{Position, Range};
use fluent_bit_language_server::query::SyntaxNode;
use fluent_bit_language_server::section::FlbSectionType;
use fluent_bit_language_server::syntax::Point;

fn change(
    start_line: u32,
    start_char: u32,
    end_line: u32,
    end_char: u32,
    text: &str,
) -> ContentChange {
    ContentChange {
        range: Some(Range::new(
            Position::new(start_line, start_char),
            Position::new(end_line, end_char),
        )),
        text: text.to_string(),
    }
}

fn full(text: &str) -> ContentChange {
    ContentChange { range: None, text: text.to_string() }
}

fn text_of(document: &TextDocument) -> String {
    document.buffer().text()
}

fn fresh_nodes(text: &str) -> Vec<SyntaxNode> {
    TextDocument::new(text).unwrap().syntax_nodes()
}

#[test]
fn test_rope_remove_and_insert() {
    let source_code = "let x = 'Hi, ðŸ˜Š';".to_owned();
    let mut rope = TextBuffer::from_str(&source_code);

    assert_eq!(rope.len_chars(), source_code.chars().count());

    assert_eq!(rope.replace(0, source_code.chars().count(), ""), Ok(()));
    assert_eq!(rope.len_chars(), 0);

    assert_eq!(rope.replace(0, 0, &source_code), Ok(()));
    assert_eq!(rope.len_chars(), source_code.chars().count());

    assert_eq!(rope.replace(0, source_code.chars().count() - 1, ""), Ok(()));
    assert_eq!(rope.len_chars(), 1);

    assert_eq!(rope.replace(0, 1, ""), Ok(()));
    assert_eq!(rope.len_chars(), 0);

    rope = TextBuffer::from_str("");

    assert_eq!(rope.line_slice(0), Ok(String::new()));
}

#[test]
fn parser() {
    let source_code = "
    [INPUT]
    KEY1    VALUE1
    ";
    let document = TextDocument::new(source_code).unwrap();
    let nodes = document.syntax_nodes();
    assert_eq!(nodes[0].kind, "config");
    assert_eq!(nodes[0].parent, None);
}

#[test]
fn section_and_key_are_found_before_and_after_an_edit() {
    let mut document = TextDocument::new("[INPUT]\n    Name  dummy\n").unwrap();
    let at_name = Point { row: 1, column: 4 };
    assert_eq!(document.section_kind_at(at_name), Some(FlbSectionType::Input));

    let edit = change(1, 10, 1, 15, "tail");
    assert_eq!(document.apply_content_change(&edit, PositionEncodingKind::UTF16), Ok(()));
    assert_eq!(text_of(&document), "[INPUT]\n    Name  tail\n");

    assert_eq!(document.section_kind_at(at_name), Some(FlbSectionType::Input));
    assert_eq!(document.key_at(at_name), Some("Name".to_string()));
}

#[test]
fn point_in_a_value_has_no_key() {
    let document = TextDocument::new("[INPUT]\n    Name  dummy\n").unwrap();
    assert_eq!(document.key_at(Point { row: 1, column: 12 }), None);
    assert_eq!(document.key_at(Point { row: 0, column: 2 }), None);
}

#[test]
fn section_kind_follows_the_header() {
    let document =
        TextDocument::new("[OUTPUT]\n    Name  stdout\n[service]\n    Flush  1\n").unwrap();
    assert_eq!(
        document.section_kind_at(Point { row: 1, column: 5 }),
        Some(FlbSectionType::Output)
    );
    assert_eq!(
        document.section_kind_at(Point { row: 3, column: 5 }),
        Some(FlbSectionType::Other("service".to_string()))
    );
}

#[test]
fn comment_after_a_header_is_reported_once() {
    let document = TextDocument::new("[INPUT]  # comment\n    Name  tail\n").unwrap();
    let diagnostics = document.diagnostics().unwrap();
    assert_eq!(diagnostics.len(), 1);
    assert_eq!(
        diagnostics[0].range,
        Range::new(Position::new(0, 9), Position::new(0, 18))
    );
    assert_eq!(diagnostics[0].message, "comment not permitted in this position");
    assert_eq!(diagnostics[0].severity, None);
}

#[test]
fn well_formed_document_has_no_diagnostics() {
    let document = TextDocument::new("[INPUT]\n    Name  dummy\n").unwrap();
    assert_eq!(document.diagnostics(), Some(vec![]));
}

#[test]
fn empty_document_has_no_section_and_no_diagnostics() {
    let document = TextDocument::new("").unwrap();
    assert_eq!(document.section_kind_at(Point { row: 0, column: 0 }), None);
    assert_eq!(document.section_kind_at(Point { row: 3, column: 7 }), None);
    assert_eq!(document.key_at(Point { row: 0, column: 0 }), None);
    assert_eq!(document.diagnostics(), Some(vec![]));
}

#[test]
fn full_replace_with_the_same_text_changes_nothing() {
    let text = "[INPUT]\n    Name  dummy\n";
    let mut document = TextDocument::new(text).unwrap();
    let before = document.syntax_nodes();
    assert_eq!(document.apply_content_change(&full(text), PositionEncodingKind::UTF16), Ok(()));
    assert_eq!(text_of(&document), text);
    assert_eq!(document.syntax_nodes(), before);
}

#[test]
fn full_replace_sets_the_whole_text() {
    let mut document = TextDocument::new("[INPUT]\n    Name  dummy\n").unwrap();
    let next = "[FILTER]\n    Name  grep\n";
    assert_eq!(document.apply_content_change(&full(next), PositionEncodingKind::UTF8), Ok(()));
    assert_eq!(text_of(&document), next);
    assert_eq!(document.syntax_nodes(), fresh_nodes(next));
}

#[test]
fn edits_in_document_order_equal_string_splices() {
    let original = "[INPUT]\n    Name  dummy\n    Tag   a.b\n";
    let mut document = TextDocument::new(original).unwrap();
    let mut expected = original.to_string();

    assert_eq!(
        document.apply_content_change(&change(0, 1, 0, 6, "OUTPUT"), PositionEncodingKind::UTF16),
        Ok(())
    );
    expected.replace_range(1..6, "OUTPUT");
    assert_eq!(text_of(&document), expected);

    assert_eq!(
        document.apply_content_change(&change(1, 10, 1, 15, ""), PositionEncodingKind::UTF16),
        Ok(())
    );
    expected.replace_range(19..24, "");
    assert_eq!(text_of(&document), expected);

    assert_eq!(
        document.apply_content_change(&change(2, 4, 2, 4, "# "), PositionEncodingKind::UTF16),
        Ok(())
    );
    expected.replace_range(24..24, "# ");
    assert_eq!(text_of(&document), expected);
    assert_eq!(expected, "[OUTPUT]\n    Name  \n    # Tag   a.b\n");
}

#[test]
fn edit_across_lines_merges_them() {
    let mut document = TextDocument::new("[INPUT]\n    Name  dummy\n    Tag   a\n").unwrap();
    assert_eq!(
        document.apply_content_change(&change(1, 15, 2, 4, " "), PositionEncodingKind::UTF16),
        Ok(())
    );
    assert_eq!(text_of(&document), "[INPUT]\n    Name  dummy Tag   a\n");
}

#[test]
fn columns_are_counted_in_the_given_encoding() {
    let text = "# \u{1F917} caf\u{e9}\n[INPUT]\n";
    let mut utf16 = TextDocument::new(text).unwrap();
    assert_eq!(
        utf16.apply_content_change(&change(0, 2, 0, 4, "x"), PositionEncodingKind::UTF16),
        Ok(())
    );
    assert_eq!(text_of(&utf16), "# x caf\u{e9}\n[INPUT]\n");

    let mut utf8 = TextDocument::new(text).unwrap();
    assert_eq!(
        utf8.apply_content_change(&change(0, 2, 0, 6, "x"), PositionEncodingKind::UTF8),
        Ok(())
    );
    assert_eq!(text_of(&utf8), "# x caf\u{e9}\n[INPUT]\n");

    let mut utf32 = TextDocument::new(text).unwrap();
    assert_eq!(
        utf32.apply_content_change(&change(0, 2, 0, 3, "x"), PositionEncodingKind::UTF32),
        Ok(())
    );
    assert_eq!(text_of(&utf32), "# x caf\u{e9}\n[INPUT]\n");
}

#[test]
fn column_inside_a_character_is_refused() {
    let text = "# \u{1F917}\n";
    let mut document = TextDocument::new(text).unwrap();
    let before = document.syntax_nodes();
    assert_eq!(
        document.apply_content_change(&change(0, 3, 0, 3, "x"), PositionEncodingKind::UTF16),
        Err(DocumentError::PositionOutOfBounds(0, 3))
    );
    assert_eq!(
        document.apply_content_change(&change(0, 2, 0, 4, "x"), PositionEncodingKind::UTF8),
        Err(DocumentError::PositionOutOfBounds(0, 4))
    );
    assert_eq!(text_of(&document), text);
    assert_eq!(document.syntax_nodes(), before);
}

#[test]
fn edit_past_the_last_line_is_refused_and_changes_nothing() {
    let text = "[INPUT]\n    Name  dummy";
    let mut document = TextDocument::new(text).unwrap();
    let before = document.syntax_nodes();
    assert_eq!(
        document.apply_content_change(&change(0, 0, 2, 0, "x"), PositionEncodingKind::UTF16),
        Err(DocumentError::PositionOutOfBounds(2, 0))
    );
    assert_eq!(
        document.apply_content_change(&change(5, 1, 6, 0, "x"), PositionEncodingKind::UTF16),
        Err(DocumentError::PositionOutOfBounds(5, 1))
    );
    assert_eq!(
        document.apply_content_change(&change(1, 0, 1, 16, ""), PositionEncodingKind::UTF32),
        Err(DocumentError::PositionOutOfBounds(1, 16))
    );
    assert_eq!(text_of(&document), text);
    assert_eq!(text_of(&document).as_bytes(), text.as_bytes());
    assert_eq!(document.syntax_nodes(), before);
}

#[test]
fn edits_of_an_empty_document() {
    let mut document = TextDocument::new("").unwrap();
    assert!(document
        .apply_content_change(&change(0, 0, 0, 1, ""), PositionEncodingKind::UTF16)
        .is_err());
    assert!(document
        .apply_content_change(&change(1, 0, 1, 0, ""), PositionEncodingKind::UTF16)
        .is_err());
    assert!(document
        .apply_content_change(&change(0, 0, 0, 0, "\u{1F917}"), PositionEncodingKind::UTF16)
        .is_ok());
    assert_eq!(text_of(&document), "\u{1F917}");
    assert!(document
        .apply_content_change(&change(0, 2, 0, 2, "\r\n"), PositionEncodingKind::UTF16)
        .is_ok());
    assert_eq!(text_of(&document), "\u{1F917}\r\n");
    assert!(document
        .apply_content_change(&change(0, 2, 0, 2, "\n"), PositionEncodingKind::UTF16)
        .is_ok());
    assert_eq!(text_of(&document), "\u{1F917}\n\r\n");
    assert!(document
        .apply_content_change(&change(0, 2, 2, 0, ""), PositionEncodingKind::UTF16)
        .is_ok());
    assert_eq!(text_of(&document), "\u{1F917}");
}

#[test]
fn tree_after_an_edit_equals_a_fresh_parse() {
    let mut document = TextDocument::new("[INPUT]\n    Name  dummy\n").unwrap();
    let steps = [
        change(1, 10, 1, 15, "tail"),
        change(2, 0, 2, 0, "    Path  /var/log/*.log\n"),
        change(0, 7, 0, 7, "  # note"),
        change(0, 7, 0, 15, ""),
        change(2, 0, 3, 0, ""),
        change(2, 0, 2, 0, "[OUTPUT]\n    Name  stdout\n"),
    ];
    for step in steps.iter() {
        assert_eq!(document.apply_content_change(step, PositionEncodingKind::UTF16), Ok(()));
        assert_eq!(document.syntax_nodes(), fresh_nodes(&text_of(&document)));
    }
    assert_eq!(
        text_of(&document),
        "[INPUT]\n    Name  tail\n[OUTPUT]\n    Name  stdout\n"
    );
}

#[test]
fn buffer_conversions_refuse_what_lies_beyond() {
    let buffer = TextBuffer::from_str("ab\ncd");
    assert_eq!(buffer.len_lines(), 2);
    assert_eq!(buffer.line_to_char(1), Ok(3));
    assert_eq!(buffer.line_to_char(2), Ok(5));
    assert_eq!(buffer.line_to_char(3), Err(BufferError::OutOfBounds));
    assert_eq!(buffer.char_to_line(5), Ok(1));
    assert_eq!(buffer.char_to_line(6), Err(BufferError::OutOfBounds));
    assert_eq!(buffer.char_to_byte(6), Err(BufferError::OutOfBounds));
    assert_eq!(buffer.byte_to_line(2), Ok(0));
    assert_eq!(buffer.byte_to_line(3), Ok(1));
    assert_eq!(buffer.byte_to_line(6), Err(BufferError::OutOfBounds));
    assert_eq!(buffer.line_slice(0), Ok("ab\n".to_string()));
    assert_eq!(buffer.line_slice(1), Ok("cd".to_string()));
    assert_eq!(buffer.line_slice(2), Err(BufferError::OutOfBounds));
}

#[test]
fn line_after_a_final_line_break_is_empty() {
    let buffer = TextBuffer::from_str("ab\n");
    assert_eq!(buffer.len_lines(), 2);
    assert_eq!(buffer.line_slice(1), Ok(String::new()));
    assert_eq!(buffer.line_slice(2), Err(BufferError::OutOfBounds));
}

#[test]
fn buffer_replace_refuses_a_range_past_the_end() {
    let mut buffer = TextBuffer::from_str("abc");
    assert_eq!(buffer.replace(1, 4, "x"), Err(BufferError::OutOfBounds));
    assert_eq!(buffer.replace(2, 1, "x"), Err(BufferError::OutOfBounds));
    assert_eq!(buffer.text(), "abc");
    assert_eq!(buffer.replace(1, 3, "xy\u{e9}"), Ok(()));
    assert_eq!(buffer.text(), "axy\u{e9}");
    assert_eq!(buffer.len_bytes(), 5);
    assert_eq!(buffer.char_to_byte(4), Ok(5));
}

#[test]
fn tree_edit_holds_bytes_rows_and_byte_columns() {
    let mut buffer = TextBuffer::from_str("a\u{e9}b\n\u{1F917}cd\nxyz");
    let edit = buffer.apply_edit(5, 7, "Q\nR").unwrap();
    assert_eq!(buffer.text(), "a\u{e9}b\n\u{1F917}Q\nR\nxyz");
    assert_eq!(edit.start_byte, 9);
    assert_eq!(edit.old_end_byte, 11);
    assert_eq!(edit.new_end_byte, 12);
    assert_eq!(edit.start_position, Point { row: 1, column: 4 });
    assert_eq!(edit.old_end_position, Point { row: 1, column: 6 });
    assert_eq!(edit.new_end_position, Point { row: 2, column: 1 });
    assert_eq!(buffer.apply_edit(3, 99, ""), Err(BufferError::OutOfBounds));
}

#[test]
fn byte_range_text_needs_character_boundaries() {
    let buffer = TextBuffer::from_str("a\u{e9}b");
    assert_eq!(buffer.byte_range_text(1, 3), Some("\u{e9}".to_string()));
    assert_eq!(buffer.byte_range_text(0, 4), Some("a\u{e9}b".to_string()));
    assert_eq!(buffer.byte_range_text(1, 2), None);
    assert_eq!(buffer.byte_range_text(3, 1), None);
    assert_eq!(buffer.byte_range_text(0, 5), None);
}

#[test]
fn position_resolves_to_a_character_index() {
    let buffer = TextBuffer::from_str("ab\n\u{1F917}c\n");
    assert_eq!(buffer.resolve_position(Position::new(1, 2), PositionEncodingKind::UTF16), Some(4));
    assert_eq!(buffer.resolve_position(Position::new(1, 4), PositionEncodingKind::UTF8), Some(4));
    assert_eq!(buffer.resolve_position(Position::new(1, 1), PositionEncodingKind::UTF32), Some(4));
    assert_eq!(buffer.resolve_position(Position::new(1, 1), PositionEncodingKind::UTF16), None);
    assert_eq!(buffer.resolve_position(Position::new(2, 0), PositionEncodingKind::UTF16), Some(6));
    assert_eq!(buffer.resolve_position(Position::new(3, 0), PositionEncodingKind::UTF16), None);
    assert_eq!(buffer.resolve_position(Position::new(0, 3), PositionEncodingKind::UTF16), Some(3));
    assert_eq!(buffer.resolve_position(Position::new(0, 4), PositionEncodingKind::UTF16), None);
}

#[test]
fn error_messages_name_the_position() {
    assert_eq!(
        DocumentError::PositionOutOfBounds(3, 14).message(),
        "position 3:14 is out of bounds"
    );
}

#[test]
fn lines_end_at_every_kind_of_break() {
    let buffer = TextBuffer::from_str("a\rb\r\nc\u{85}d\u{2028}e\u{0B}f\u{0C}g\u{2029}");
    assert_eq!(buffer.len_lines(), 8);
    assert_eq!(buffer.line_slice(0), Ok("a\r".to_string()));
    assert_eq!(buffer.line_slice(1), Ok("b\r\n".to_string()));
    assert_eq!(buffer.line_slice(2), Ok("c\u{85}".to_string()));
    assert_eq!(buffer.line_slice(6), Ok("g\u{2029}".to_string()));
    assert_eq!(buffer.line_slice(7), Ok(String::new()));
    assert_eq!(buffer.char_to_line(1), Ok(0));
    assert_eq!(buffer.char_to_line(2), Ok(1));
    assert_eq!(buffer.char_to_line(3), Ok(1));
    assert_eq!(buffer.char_to_line(4), Ok(1));
    assert_eq!(buffer.char_to_line(5), Ok(2));
    assert_eq!(buffer.line_to_char(2), Ok(5));
    assert_eq!(buffer.line_to_char(7), Ok(15));
    assert_eq!(buffer.line_to_char(8), Ok(15));
    assert_eq!(buffer.byte_to_line(4), Ok(1));
    assert_eq!(buffer.byte_to_line(7), Ok(2));
    assert_eq!(buffer.byte_to_line(8), Ok(3));
    assert_eq!(
        buffer.point_of_char(4),
        Ok((Point { row: 0, column: 4 }, 4))
    );
    assert_eq!(
        buffer.point_of_char(5),
        Ok((Point { row: 1, column: 0 }, 5))
    );
    assert_eq!(
        buffer.point_of_char(9),
        Ok((Point { row: 1, column: 7 }, 12))
    );
    assert_eq!(
        buffer.point_of_char(15),
        Ok((Point { row: 1, column: 15 }, 20))
    );
    assert_eq!(buffer.point_of_char(16), Err(BufferError::OutOfBounds));
}

#[test]
fn changes_are_applied_one_after_the_other() {
    let mut document = TextDocument::new("[INPUT]\n    Name  dummy\n").unwrap();
    let changes = vec![
        change(1, 10, 1, 15, "tail"),
        change(1, 14, 1, 14, "\n    Tag   t"),
        change(2, 10, 2, 11, "logs"),
    ];
    assert_eq!(document.apply_content_changes(&changes, PositionEncodingKind::UTF16), Ok(()));
    assert_eq!(text_of(&document), "[INPUT]\n    Name  tail\n    Tag   logs\n");
    assert!(!document.is_stale());

    let failing = vec![
        change(0, 1, 0, 6, "FILTER"),
        change(9, 0, 9, 0, "x"),
        change(0, 0, 0, 0, "never"),
    ];
    assert_eq!(
        document.apply_content_changes(&failing, PositionEncodingKind::UTF16),
        Err(DocumentError::PositionOutOfBounds(9, 0))
    );
    assert_eq!(text_of(&document), "[FILTER]\n    Name  tail\n    Tag   logs\n");
    assert_eq!(document.apply_content_changes(&Vec::new(), PositionEncodingKind::UTF16), Ok(()));
}

#[test]
fn grammar_failure_has_a_message() {
    assert_eq!(DocumentError::GrammarLoadFailure.message(), "the grammar could not be loaded");
    assert_eq!(
        DocumentError::PositionOutOfBounds(0, 4294967295).message(),
        "position 0:4294967295 is out of bounds"
    );
}

fn large_text() -> String {
    let mut text = String::new();
    for i in 0..400 {
        text.push_str(&format!("[INPUT]\n    Name  dummy{}\n    Tag   caf\u{e9}.\u{1F917}.{}\n", i, i));
    }
    text
}

fn line_starts(text: &str) -> Vec<usize> {
    let mut starts = vec![0];
    for (index, c) in text.chars().enumerate() {
        if c == '\n' {
            starts.push(index + 1);
        }
    }
    starts
}

#[test]
fn large_buffer_agrees_with_the_string() {
    let text = large_text();
    let buffer = TextBuffer::from_str(&text);
    let chars: Vec<char> = text.chars().collect();
    let starts = line_starts(&text);
    assert_eq!(buffer.len_chars(), chars.len());
    assert_eq!(buffer.len_bytes(), text.len());
    assert_eq!(buffer.len_lines(), starts.len());
    for (line, start) in starts.iter().enumerate() {
        assert_eq!(buffer.line_to_char(line), Ok(*start));
        let end = if line + 1 < starts.len() { starts[line + 1] } else { chars.len() };
        let expected: String = chars[*start..end].iter().collect();
        assert_eq!(buffer.line_slice(line), Ok(expected));
    }
    let mut byte = 0;
    let mut line = 0;
    for (index, c) in chars.iter().enumerate() {
        if index % 37 == 0 {
            assert_eq!(buffer.char_to_byte(index), Ok(byte));
            assert_eq!(buffer.char_to_line(index), Ok(line));
            assert_eq!(buffer.byte_to_line(byte), Ok(line));
            let span = c.len_utf8();
            assert_eq!(buffer.byte_range_text(byte, byte + span), Some(c.to_string()));
        }
        byte += c.len_utf8();
        if *c == '\n' {
            line += 1;
        }
    }
}

#[test]
fn many_edits_of_a_large_document_equal_string_splices() {
    let mut expected = large_text();
    let mut document = TextDocument::new(&expected).unwrap();
    let mut seed: u64 = 12345;
    let mut next = |bound: usize| -> usize {
        seed = seed.wrapping_mul(6364136223846793005).wrapping_add(1442695040888963407);
        ((seed >> 33) as usize) % bound
    };
    let inserts = ["", "x", "\n", "\u{1F917}", "    Key  v\n", "[FILTER]\n", "\u{e9}\u{e9}"];
    for _ in 0..150 {
        let chars: Vec<char> = expected.chars().collect();
        let starts = line_starts(&expected);
        let from = next(chars.len() + 1);
        let to = (from + next(40)).min(chars.len());
        let position = |at: usize| -> Position {
            let line = match starts.binary_search(&at) {
                Ok(line) => line,
                Err(line) => line - 1,
            };
            let column: usize = chars[starts[line]..at].iter().map(|c| c.len_utf16()).sum();
            Position::new(line as u32, column as u32)
        };
        let text = inserts[next(inserts.len())];
        let edit = ContentChange {
            range: Some(Range::new(position(from), position(to))),
            text: text.to_string(),
        };
        assert_eq!(document.apply_content_change(&edit, PositionEncodingKind::UTF16), Ok(()));
        let head: String = chars[..from].iter().collect();
        let tail: String = chars[to..].iter().collect();
        expected = format!("{}{}{}", head, text, tail);
        assert_eq!(text_of(&document), expected);
    }
    assert_eq!(document.syntax_nodes(), fresh_nodes(&expected));
}

#[test]
fn chain_at_a_point_follows_the_listed_nodes_up_to_the_root() {
    let text = "# note\n[INPUT]\n    Name  dummy\n    Tag   caf\u{e9}\n\n[FILTER]  # no\n    Match  *\n@SET a=b\n";
    let document = TextDocument::new(text).unwrap();
    let nodes = document.syntax_nodes();
    let mut seen = 0;
    for row in 0..9 {
        for column in 0..20 {
            let chain = document.node_chain_at(Point { row, column });
            if chain.is_empty() {
                continue;
            }
            seen += 1;
            let matches = |start: usize| -> bool {
                let mut at = Some(start);
                for info in chain.iter() {
                    match at {
                        Some(index) => {
                            if nodes[index].kind != info.kind || nodes[index].span != info.span {
                                return false;
                            }
                            at = nodes[index].parent;
                        }
                        None => return false,
                    }
                }
                at.is_none()
            };
            assert!((0..nodes.len()).any(matches));
            assert_eq!(chain[chain.len() - 1].kind, "config");
            for info in chain.iter() {
                assert_eq!(info.section_name.is_some(), info.kind == "section");
            }
        }
    }
    assert!(seen > 100);

    let at_key = document.node_chain_at(Point { row: 2, column: 5 });
    let kinds: Vec<&str> = at_key.iter().map(|info| info.kind.as_str()).collect();
    assert_eq!(kinds, vec!["key_type", "entry", "section_body", "section", "config"]);
    assert_eq!(at_key[3].section_name, Some("INPUT".to_string()));
    assert_eq!(at_key[0].span.start_byte, 19);
    assert_eq!(at_key[0].span.end_byte, 23);
}

#[test]
fn rows_for_the_tree_count_line_feeds_alone() {
    let text = "# a\rb\u{2028}c\n[INPUT]\r\n    Name  dummy\r\n";
    let mut buffer = TextBuffer::from_str(text);
    assert_eq!(buffer.len_lines(), 6);
    let edit = buffer.apply_edit(27, 32, "tail").unwrap();
    assert_eq!(buffer.text(), "# a\rb\u{2028}c\n[INPUT]\r\n    Name  tail\r\n");
    assert_eq!(edit.start_position, Point { row: 2, column: 10 });
    assert_eq!(edit.old_end_position, Point { row: 2, column: 15 });
    assert_eq!(edit.new_end_position, Point { row: 2, column: 14 });
    assert_eq!(edit.start_byte, 29);
    assert_eq!(edit.old_end_byte, 34);
    assert_eq!(edit.new_end_byte, 33);

    let mut document = TextDocument::new(text).unwrap();
    let steps = [
        change(4, 10, 4, 15, "tail"),
        change(1, 0, 1, 1, "\r"),
        change(5, 0, 5, 0, "    Tag   t\r\n"),
        change(0, 0, 3, 0, ""),
    ];
    for step in steps.iter() {
        assert_eq!(document.apply_content_change(step, PositionEncodingKind::UTF16), Ok(()));
        assert_eq!(document.syntax_nodes(), fresh_nodes(&text_of(&document)));
    }
    assert_eq!(text_of(&document), "c\n[INPUT]\r\n    Tag   t\r\n    Name  tail\r\n");
    assert_eq!(
        document.section_kind_at(Point { row: 2, column: 5 }),
        Some(FlbSectionType::Input)
    );
    assert_eq!(document.key_at(Point { row: 3, column: 5 }), Some("Name".to_string()));
}

#[test]
fn listed_nodes_follow_the_tree() {
    let document = TextDocument::new("[INPUT]  # no\n    Name  dummy\n").unwrap();
    let nodes = document.syntax_nodes();
    let kinds: Vec<&str> = nodes.iter().map(|node| node.kind.as_str()).collect();
    assert_eq!(
        kinds,
        vec![
            "config",
            "section",
            "section_header",
            "[",
            "section_header_type",
            "]",
            "ERROR",
            "comment",
            "section_body",
            "    ",
            "entry",
            "key_type",
            "value_type",
        ]
    );
    let parents: Vec<Option<usize>> = nodes.iter().map(|node| node.parent).collect();
    assert_eq!(
        parents,
        vec![
            None,
            Some(0),
            Some(1),
            Some(2),
            Some(2),
            Some(2),
            Some(2),
            Some(6),
            Some(1),
            Some(8),
            Some(8),
            Some(10),
            Some(10),
        ]
    );
    assert_eq!(nodes[7].span.start_byte, 9);
    assert_eq!(nodes[7].span.end_byte, 13);
    assert!(!document.is_stale());
}
