use fluxion_lsp::document::{Document, DocumentError, Edit};
use fluxion_lsp::hover::{resolve, HoverOutcome};
use fluxion_lsp::store::DocumentStore;
use fluxion_lsp::symbols::{Position, SymbolKind};

fn pos(line: usize, character: usize) -> Position {
    Position { line, character }
}

#[test]
fn hover_on_function_name() {
    // Hovering inside `foo` resolves to the function symbol spanning
    // lines 0 through 1.
    let doc = Document::new(
        "file:///t.py".to_string(),
        "def foo():\n    pass\n".to_string(),
    );
    match resolve(&doc, pos(0, 4)).unwrap() {
        HoverOutcome::Symbol(sym) => {
            assert_eq!(sym.name, "foo");
            assert_eq!(sym.kind, SymbolKind::Function);
            assert_eq!(sym.span.start, pos(0, 0));
            assert_eq!(sym.span.end, pos(1, 8));
        },
        other => panic!("expected a symbol, got {:?}", other),
    }
}

#[test]
fn hover_inside_function_body() {
    let doc = Document::new(
        "file:///t.py".to_string(),
        "def foo():\n    pass\n".to_string(),
    );
    match resolve(&doc, pos(1, 4)).unwrap() {
        HoverOutcome::Symbol(sym) => assert_eq!(sym.name, "foo"),
        other => panic!("expected a symbol, got {:?}", other),
    }
}

#[test]
fn hover_outside_any_symbol_describes_character() {
    // Line 1 holds only a comment, which produces no symbol: the query
    // falls back to the raw character at the resolved offset.
    let doc = Document::new("file:///t.py".to_string(), "x = 1\n#c\n".to_string());
    match resolve(&doc, pos(1, 0)).unwrap() {
        HoverOutcome::Character { ch, offset, line, column } => {
            assert_eq!(ch, '#');
            assert_eq!(offset, 6);
            assert_eq!(line, 1);
            assert_eq!(column, 0);
        },
        other => panic!("expected a character, got {:?}", other),
    }
}

#[test]
fn hover_at_span_end_column_matches_symbol() {
    // Containment is inclusive at the end column: column 5 of the record
    // spanning columns 0 through 5 still resolves to the symbol.
    let doc = Document::new("file:///t.py".to_string(), "x = 1\n".to_string());
    match resolve(&doc, pos(0, 5)).unwrap() {
        HoverOutcome::Symbol(sym) => {
            assert_eq!(sym.name, "x");
            assert_eq!(sym.kind, SymbolKind::Variable);
        },
        other => panic!("expected a symbol, got {:?}", other),
    }
}

#[test]
fn hover_on_the_literal_matches_the_assignment() {
    let doc = Document::new("file:///t.py".to_string(), "x = 1\n".to_string());
    match resolve(&doc, pos(0, 4)).unwrap() {
        HoverOutcome::Symbol(sym) => assert_eq!(sym.name, "x"),
        other => panic!("expected a symbol, got {:?}", other),
    }
}

#[test]
fn hover_out_of_bounds_positions_fail() {
    let doc = Document::new("file:///t.py".to_string(), "x = 1\n".to_string());
    // Column past the end of the buffer.
    assert!(matches!(resolve(&doc, pos(0, 7)), Err(DocumentError::OutOfBounds)));
    // Line outside the line index.
    assert!(matches!(resolve(&doc, pos(3, 0)), Err(DocumentError::OutOfBounds)));
}

#[test]
fn hover_at_end_of_buffer_without_symbol_fails() {
    // The offset equals the buffer length and no symbol contains it, so
    // there is no character to describe.
    let doc = Document::new("file:///t.py".to_string(), "#c\n".to_string());
    assert!(matches!(resolve(&doc, pos(0, 3)), Err(DocumentError::OutOfBounds)));
}

#[test]
fn hover_on_non_ascii_document() {
    // 'é' is two bytes in UTF-8: both the record's span and the hover
    // containment must be measured in characters.
    let doc = Document::new("file:///t.py".to_string(), "\u{e9} = 1\n".to_string());
    match resolve(&doc, pos(0, 4)).unwrap() {
        HoverOutcome::Symbol(sym) => {
            assert_eq!(sym.name, "\u{e9}");
            assert_eq!(sym.kind, SymbolKind::Variable);
            assert_eq!(sym.span.start, pos(0, 0));
            assert_eq!(sym.span.end, pos(0, 5));
        },
        other => panic!("expected a symbol, got {:?}", other),
    }
}

#[test]
fn store_open_change_hover_close() {
    let mut store = DocumentStore::new();
    let id = "file:///a.py".to_string();
    store.did_open(id.clone(), "x = 1\n".to_string());

    // Hover on the opened document.
    match store.hover(&id, pos(0, 0)).unwrap().unwrap() {
        HoverOutcome::Symbol(sym) => assert_eq!(sym.name, "x"),
        other => panic!("expected a symbol, got {:?}", other),
    }

    // Unknown identities answer with none.
    assert!(store.hover(&"file:///b.py".to_string(), pos(0, 0)).is_none());
    assert!(store
        .did_change(&"file:///b.py".to_string(), &vec![Edit { range: None, text: String::new() }])
        .is_none());

    // A full replacement re-parses and rebuilds the symbols.
    let r = store.did_change(&id, &vec![Edit { range: None, text: "y = 2\n".to_string() }]);
    assert_eq!(r, Some(Ok(true)));
    match store.hover(&id, pos(0, 0)).unwrap().unwrap() {
        HoverOutcome::Symbol(sym) => assert_eq!(sym.name, "y"),
        other => panic!("expected a symbol, got {:?}", other),
    }

    // An update to unparsable text reports the failed parse.
    let r = store.did_change(&id, &vec![Edit { range: None, text: "def (".to_string() }]);
    assert_eq!(r, Some(Ok(false)));

    // A malformed batch is rejected.
    let bad = Edit {
        range: Some(fluxion_lsp::symbols::Span {
            start: pos(0, 3),
            end: pos(0, 1),
        }),
        text: "X".to_string(),
    };
    let r = store.did_change(&id, &vec![bad]);
    assert_eq!(r, Some(Err(DocumentError::MalformedEdit)));

    // Closing removes the entry.
    store.did_close(&id);
    assert!(store.hover(&id, pos(0, 0)).is_none());
}

#[test]
fn reopening_replaces_the_document() {
    let mut store = DocumentStore::new();
    let id = "file:///a.py".to_string();
    store.did_open(id.clone(), "x = 1\n".to_string());
    store.did_open(id.clone(), "y = 2\n".to_string());
    match store.hover(&id, pos(0, 0)).unwrap().unwrap() {
        HoverOutcome::Symbol(sym) => assert_eq!(sym.name, "y"),
        other => panic!("expected a symbol, got {:?}", other),
    }
}
