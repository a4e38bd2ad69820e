use fluxion_lsp::document::{to_rope_position, Document};
use fluxion_lsp::symbols::Position;

#[test]
fn line_map_of_three_lines() {
    let starts = Document::compute_line_number_map("abc\ndef\nghi");
    assert_eq!(starts, vec![0, 4, 8]);
}

#[test]
fn line_map_of_empty_text_has_line_zero() {
    let starts = Document::compute_line_number_map("");
    assert_eq!(starts, vec![0]);
}

#[test]
fn line_map_trailing_newline_opens_no_line() {
    let starts = Document::compute_line_number_map("a\n");
    assert_eq!(starts, vec![0]);
}

#[test]
fn line_map_of_blank_lines() {
    let starts = Document::compute_line_number_map("\n\n");
    assert_eq!(starts, vec![0, 1]);
}

#[test]
fn line_number_of_offsets() {
    let doc = Document::new("file:///t.py".to_string(), "abc\ndef\n".to_string());
    assert_eq!(doc.get_line_number(0), Some(0));
    assert_eq!(doc.get_line_number(3), Some(0));
    assert_eq!(doc.get_line_number(4), Some(1));
    assert_eq!(doc.get_line_number(7), Some(1));
    // Offsets past the end still land on the last line.
    assert_eq!(doc.get_line_number(100), Some(1));
}

#[test]
fn position_to_offset_round_trip() {
    // For every valid offset, converting to (line, column) and back yields
    // the same offset.
    let text = "ab\ncd\n\nxyz";
    let rope = ropey::Rope::from_str(text);
    let doc = Document::new("file:///t.py".to_string(), text.to_string());
    let starts = doc.line_number_map().clone();
    for o in 0..text.chars().count() {
        let line = doc.get_line_number(o).unwrap();
        let column = o - starts[line];
        let back = to_rope_position(&rope, Position { line, character: column });
        assert_eq!(back, Some(o));
    }
}

#[test]
fn offset_of_position() {
    let rope = ropey::Rope::from_str("ab\ncd");
    assert_eq!(to_rope_position(&rope, Position { line: 0, character: 0 }), Some(0));
    assert_eq!(to_rope_position(&rope, Position { line: 1, character: 0 }), Some(3));
    assert_eq!(to_rope_position(&rope, Position { line: 1, character: 2 }), Some(5));
    assert_eq!(to_rope_position(&rope, Position { line: 2, character: 0 }), None);
    assert_eq!(to_rope_position(&rope, Position { line: 0, character: 99 }), None);
}
