use fluxion_lsp::document::{
    apply_changes, parse_rope_to_ast, Document, DocumentError, Edit,
};
use fluxion_lsp::symbols::{Position, Span, Symbol, SymbolKind, SymbolTable};
use fluxion_lsp::syntax::StmtForm;

fn span(sl: usize, sc: usize, el: usize, ec: usize) -> Span {
    Span {
        start: Position { line: sl, character: sc },
        end: Position { line: el, character: ec },
    }
}

fn ranged_edit(sl: usize, sc: usize, el: usize, ec: usize, text: &str) -> Edit {
    Edit { range: Some(span(sl, sc, el, ec)), text: text.to_string() }
}

fn full_edit(text: &str) -> Edit {
    Edit { range: None, text: text.to_string() }
}

#[test]
fn ranged_edit_replaces_offsets() {
    // Replacing offsets [1, 3) of "abcde" with "XY" gives "aXYde".
    let mut doc = Document::new("file:///t.py".to_string(), "abcde".to_string());
    let r = doc.update(&vec![ranged_edit(0, 1, 0, 3, "XY")]);
    assert!(r.is_ok());
    assert_eq!(doc.text(), "aXYde");
}

#[test]
fn ranged_edit_on_plain_rope() {
    let mut rope = ropey::Rope::from_str("abcde");
    let r = apply_changes(&mut rope, &vec![ranged_edit(0, 1, 0, 3, "XY")]);
    assert!(r.is_ok());
    assert_eq!(rope.to_string(), "aXYde");
}

#[test]
fn edits_in_one_batch_apply_in_order() {
    let mut rope = ropey::Rope::from_str("abc");
    let edits = vec![ranged_edit(0, 0, 0, 1, "X"), ranged_edit(0, 1, 0, 3, "")];
    assert!(apply_changes(&mut rope, &edits).is_ok());
    assert_eq!(rope.to_string(), "X");
}

#[test]
fn full_replace_twice_equals_once() {
    // Applying a full-document replacement twice yields the same document
    // as applying it once: same text, line index and symbol table.
    let t = "def foo():\n    pass\n";
    let mut once = Document::new("file:///t.py".to_string(), "x = 1\n".to_string());
    let mut twice = Document::new("file:///t.py".to_string(), "x = 1\n".to_string());
    assert!(once.update(&vec![full_edit(t)]).is_ok());
    assert!(twice.update(&vec![full_edit(t)]).is_ok());
    assert!(twice.update(&vec![full_edit(t)]).is_ok());
    assert_eq!(once.text(), twice.text());
    assert_eq!(once.line_number_map(), twice.line_number_map());
    assert_eq!(once.symbol_table().len(), twice.symbol_table().len());
    let a = once.symbol_table().get("foo").unwrap();
    let b = twice.symbol_table().get("foo").unwrap();
    assert_eq!(a.name, b.name);
    assert_eq!(a.kind, b.kind);
    assert_eq!(a.span, b.span);
}

#[test]
fn parse_failure_retains_symbols() {
    // An edit that produces unparsable text keeps the old symbol table
    // while the buffer reflects the new text.
    let mut doc = Document::new("file:///t.py".to_string(), "x = 1\n".to_string());
    assert!(doc.symbol_table().contains("x"));
    let before = doc.symbol_table().get("x").unwrap().span;
    let r = doc.update(&vec![full_edit("def (")]);
    assert_eq!(r, Ok(false));
    assert_eq!(doc.text(), "def (");
    assert!(!doc.has_tree());
    assert!(doc.symbol_table().contains("x"));
    assert_eq!(doc.symbol_table().get("x").unwrap().span, before);
}

#[test]
fn parse_failure_on_create_leaves_table_empty() {
    let doc = Document::new("file:///t.py".to_string(), "def (".to_string());
    assert!(doc.symbol_table().is_empty());
    assert!(!doc.has_tree());
}

#[test]
fn malformed_edit_is_rejected_without_mutation() {
    let mut doc = Document::new("file:///t.py".to_string(), "abcde".to_string());
    // Start after end.
    assert_eq!(
        doc.update(&vec![ranged_edit(0, 3, 0, 1, "X")]),
        Err(DocumentError::MalformedEdit)
    );
    // Line outside the index.
    assert_eq!(
        doc.update(&vec![ranged_edit(5, 0, 5, 0, "X")]),
        Err(DocumentError::MalformedEdit)
    );
    // End past the end of the buffer.
    assert_eq!(
        doc.update(&vec![ranged_edit(0, 0, 0, 9, "X")]),
        Err(DocumentError::MalformedEdit)
    );
    assert_eq!(doc.text(), "abcde");
    assert!(doc.symbol_table().is_empty());
}

#[test]
fn symbol_overwrite_keeps_later_assignment() {
    // Two top-level assignments to the same name leave exactly one record,
    // ranged at the later assignment.
    let doc = Document::new("file:///t.py".to_string(), "x = 1\nx = 22\n".to_string());
    assert_eq!(doc.symbol_table().len(), 1);
    let sym = doc.symbol_table().get("x").unwrap();
    assert_eq!(sym.kind, SymbolKind::Variable);
    assert_eq!(sym.span, span(1, 0, 1, 6));
}

#[test]
fn extraction_covers_each_statement_form() {
    let text = "import os\nfrom sys import path\nclass C:\n    pass\ny: int = 5\nfor i in [1]:\n    pass\nz = 3\ndef f():\n    pass\n";
    let doc = Document::new("file:///t.py".to_string(), text.to_string());
    let table = doc.symbol_table();
    assert_eq!(table.get("os").unwrap().kind, SymbolKind::Module);
    assert_eq!(table.get("sys").unwrap().kind, SymbolKind::Module);
    assert_eq!(table.get("C").unwrap().kind, SymbolKind::Class);
    assert_eq!(table.get("y").unwrap().kind, SymbolKind::Variable);
    assert_eq!(table.get("i").unwrap().kind, SymbolKind::Variable);
    assert_eq!(table.get("z").unwrap().kind, SymbolKind::Variable);
    assert_eq!(table.get("f").unwrap().kind, SymbolKind::Function);
    assert_eq!(table.len(), 7);
}

#[test]
fn non_identifier_targets_are_skipped() {
    let doc = Document::new(
        "file:///t.py".to_string(),
        "a, b = 1, 2\nc.d = 3\nprint(4)\n".to_string(),
    );
    assert!(doc.symbol_table().is_empty());
}

#[test]
fn relative_import_uses_unknown_placeholder() {
    let doc = Document::new("file:///t.py".to_string(), "from . import x\n".to_string());
    let sym = doc.symbol_table().get("unknown").unwrap();
    assert_eq!(sym.kind, SymbolKind::Module);
    assert_eq!(doc.symbol_table().len(), 1);
}

#[test]
fn parse_rope_to_ast_reports_forms() {
    let rope = ropey::Rope::from_str("x = 1");
    let stmts = parse_rope_to_ast(&rope).unwrap();
    assert_eq!(stmts.len(), 1);
    assert_eq!(stmts[0].form, StmtForm::Assign);
    assert_eq!(stmts[0].name.as_deref(), Some("x"));
    assert_eq!(stmts[0].start, 0);
    assert_eq!(stmts[0].end, 5);
}

#[test]
fn parse_rope_to_ast_fails_on_bad_syntax() {
    let rope = ropey::Rope::from_str("def (");
    match parse_rope_to_ast(&rope) {
        Err(DocumentError::ParseFailure(msg)) => assert!(!msg.is_empty()),
        other => panic!("expected a parse failure, got {:?}", other),
    }
}

#[test]
fn non_ascii_spans_are_character_offsets() {
    // 'α' and 'β' are two bytes each in UTF-8; the spans reported must
    // count characters, not bytes.
    let doc = Document::new(
        "file:///t.py".to_string(),
        "s = '\u{3b1}\u{3b2}'\nt = 2\n".to_string(),
    );
    let s = doc.symbol_table().get("s").unwrap();
    assert_eq!(s.span, span(0, 0, 0, 8));
    let t = doc.symbol_table().get("t").unwrap();
    assert_eq!(t.span, span(1, 0, 1, 5));
}

#[test]
fn symbol_table_insert_get_contains() {
    let mut table = SymbolTable::new();
    assert!(table.is_empty());
    assert_eq!(table.len(), 0);
    assert!(!table.contains("a"));
    table.insert(Symbol {
        name: "a".to_string(),
        kind: SymbolKind::Function,
        span: span(0, 0, 0, 3),
    });
    table.insert(Symbol {
        name: "b".to_string(),
        kind: SymbolKind::Class,
        span: span(1, 0, 1, 3),
    });
    assert_eq!(table.len(), 2);
    assert!(!table.is_empty());
    assert!(table.contains("a"));
    assert!(!table.contains("z"));
    assert_eq!(table.get("b").unwrap().kind, SymbolKind::Class);
    assert!(table.get("z").is_none());
    // Overwriting keeps one record under the name, with the new data.
    table.insert(Symbol {
        name: "a".to_string(),
        kind: SymbolKind::Variable,
        span: span(2, 0, 2, 5),
    });
    assert_eq!(table.len(), 2);
    let a = table.get("a").unwrap();
    assert_eq!(a.kind, SymbolKind::Variable);
    assert_eq!(a.span, span(2, 0, 2, 5));
    let names: Vec<&str> = table.iter().iter().map(|s| s.name.as_str()).collect();
    assert_eq!(names, vec!["a", "b"]);
}
