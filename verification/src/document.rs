//! The document: one open file's text buffer, line index, last parse and
//! symbol table, kept consistent as a unit across edits.
//!
//! On a parse failure the document keeps its previous symbol table (an edit
//! that momentarily produces invalid syntax does not blank out known
//! structure), while the buffer and the line index always reflect the new
//! text; the tree is absent until a later parse succeeds.

use vstd::prelude::*;

use vstd::string::StrSliceExecFns;

use crate::extract::{compute_symbol_table, spec_symbols_of};
use crate::line_index::{
    compute_line_starts, lemma_line_starts_of_wf, line_starts_of, offset_to_line, spec_line_of,
    view_starts,
};
use crate::symbols::{SpanModel, Span, SymbolModel, SymbolTable};
use crate::syntax::{parse_of, parse_text, RawStmt, RawStmtModel};
use crate::text::{
    rope_chars, rope_chars_vec, rope_clone, rope_from_str, rope_insert, rope_remove,
    rope_to_string,
};

verus! {

/// Why a document operation failed.
#[derive(Debug, PartialEq, Eq)]
pub enum DocumentError {
    /// The text does not conform to the grammar; carries the parser's own
    /// message.
    ParseFailure(String),
    /// An edit's replace range starts after its end, or falls outside the
    /// current buffer.
    MalformedEdit,
    /// A queried position falls outside the current buffer.
    OutOfBounds,
}

/// One incremental edit: replaces the span's character range when a span is
/// given, or the whole document when none is.
#[derive(Debug)]
pub struct Edit {
    pub range: Option<Span>,
    pub text: String,
}

#[verifier::ext_equal]
pub ghost struct EditModel {
    pub range: Option<SpanModel>,
    pub text: Seq<char>,
}

impl View for Edit {
    type V = EditModel;

    open spec fn view(&self) -> EditModel {
        EditModel {
            range: match self.range {
                Some(s) => Some(s@),
                None => None,
            },
            text: self.text@,
        }
    }
}

/// The models of an edit batch, in application order.
pub open spec fn edit_models(edits: Seq<Edit>) -> Seq<EditModel> {
    edits.map_values(|e: Edit| e@)
}

/// The text after one edit, or `None` when the edit is malformed: its range
/// names a line outside the current line index, starts after it ends, or
/// reaches past the end of the text. Offsets are resolved against the text
/// as it stands when this edit applies.
pub open spec fn spec_apply_edit(text: Seq<char>, e: EditModel) -> Option<Seq<char>> {
    match e.range {
        None => Some(e.text),
        Some(span) => {
            let starts = line_starts_of(text);
            if span.start.line >= starts.len() || span.end.line >= starts.len() {
                None
            } else {
                let s = starts[span.start.line] + span.start.character;
                let en = starts[span.end.line] + span.end.character;
                if s > en || en > text.len() {
                    None
                } else {
                    Some(text.take(s) + e.text + text.skip(en))
                }
            }
        },
    }
}

/// The text after a whole edit batch, applied in order; `None` as soon as
/// one edit is malformed.
pub open spec fn spec_apply_edits(text: Seq<char>, edits: Seq<EditModel>) -> Option<Seq<char>>
    decreases edits.len(),
{
    if edits.len() == 0 {
        Some(text)
    } else {
        match spec_apply_edit(text, edits[0]) {
            None => None,
            Some(t) => spec_apply_edits(t, edits.drop_first()),
        }
    }
}

/// Applies an edit batch to a rope. Either every edit applies and the rope
/// holds the resulting text, or the batch is rejected as malformed and the
/// rope is left exactly as it was.
pub fn apply_changes(document: &mut ropey::Rope, changes: &Vec<Edit>) -> (r: Result<
    (),
    DocumentError,
>)
    ensures
        match r {
            Ok(_) => spec_apply_edits(rope_chars(*old(document)), edit_models(changes@)) == Some(
                rope_chars(*final(document)),
            ),
            Err(e) => {
                &&& e == DocumentError::MalformedEdit
                &&& *final(document) == *old(document)
                &&& spec_apply_edits(rope_chars(*old(document)), edit_models(changes@)) is None
            },
        },
{
    let ghost orig = rope_chars(*old(document));
    let ghost ms = edit_models(changes@);
    let mut working = rope_clone(document);
    assert(ms.skip(0) =~= ms);
    let n = changes.len();
    let mut i: usize = 0;
    while i < n
        invariant
            n == changes@.len(),
            i <= n,
            ms == edit_models(changes@),
            *document == *old(document),
            orig == rope_chars(*old(document)),
            spec_apply_edits(rope_chars(working), ms.skip(i as int)) == spec_apply_edits(orig, ms),
        decreases n - i,
    {
        let ghost cur = rope_chars(working);
        proof {
            assert(ms.skip(i as int)[0] == ms[i as int]);
            assert(ms[i as int] == changes@[i as int]@);
            assert(ms.skip(i as int).drop_first() =~= ms.skip(i as int + 1));
        }
        let edit = &changes[i];
        match &edit.range {
            None => {
                working = rope_from_str(edit.text.as_str());
            },
            Some(span) => {
                let text_chars = rope_chars_vec(&working);
                let len = text_chars.len();
                let starts = compute_line_starts(&text_chars);
                proof {
                    lemma_line_starts_of_wf(cur);
                }
                if span.start.line >= starts.len() || span.end.line >= starts.len() {
                    return Err(DocumentError::MalformedEdit);
                }
                let s_base = starts[span.start.line];
                let e_base = starts[span.end.line];
                proof {
                    let sm = ms[i as int];
                    let sp = sm.range->0;
                    let gsts = line_starts_of(cur);
                    assert(gsts[sp.start.line] == s_base as int);
                    assert(gsts[sp.end.line] == e_base as int);
                }
                if span.start.character > len - s_base {
                    // The start offset lies past the end of the text, so the
                    // range cannot be well formed whichever end it has.
                    proof {
                        assert(spec_apply_edit(cur, ms[i as int]) is None);
                        assert(ms.skip(i as int).len() > 0);
                        assert(spec_apply_edits(cur, ms.skip(i as int)) is None);
                    }
                    return Err(DocumentError::MalformedEdit);
                }
                let s_off = s_base + span.start.character;
                if span.end.character > len - e_base {
                    proof {
                        assert(spec_apply_edit(cur, ms[i as int]) is None);
                        assert(ms.skip(i as int).len() > 0);
                        assert(spec_apply_edits(cur, ms.skip(i as int)) is None);
                    }
                    return Err(DocumentError::MalformedEdit);
                }
                let e_off = e_base + span.end.character;
                if s_off > e_off {
                    return Err(DocumentError::MalformedEdit);
                }
                rope_remove(&mut working, s_off, e_off);
                let ghost removed = rope_chars(working);
                rope_insert(&mut working, s_off, edit.text.as_str());
                proof {
                    assert(removed.take(s_off as int) =~= cur.take(s_off as int));
                    assert(removed.skip(s_off as int) =~= cur.skip(e_off as int));
                    assert(rope_chars(working) =~= cur.take(s_off as int) + edit.text@ + cur.skip(
                        e_off as int,
                    ));
                }
            },
        }
        proof {
            assert(spec_apply_edit(cur, ms[i as int]) == Some(rope_chars(working)));
        }
        i = i + 1;
    }
    proof {
        assert(ms.skip(n as int) =~= Seq::<EditModel>::empty());
    }
    *document = working;
    Ok(())
}

/// The absolute character offset of a (line, column) position in a text, or
/// `None` when the line is outside the line index or the offset would fall
/// past the end of the text.
pub open spec fn spec_position_offset(text: Seq<char>, line: int, character: int) -> Option<int> {
    let starts = line_starts_of(text);
    if line >= starts.len() {
        None
    } else {
        let off = starts[line] + character;
        if off > text.len() {
            None
        } else {
            Some(off)
        }
    }
}

/// Converts a position to the corresponding character offset in a rope.
pub fn to_rope_position(document: &ropey::Rope, position: crate::symbols::Position) -> (r: Option<
    usize,
>)
    ensures
        match r {
            Some(off) => spec_position_offset(
                rope_chars(*document),
                position.line as int,
                position.character as int,
            ) == Some(off as int),
            None => spec_position_offset(
                rope_chars(*document),
                position.line as int,
                position.character as int,
            ) is None,
        },
{
    let chars = rope_chars_vec(document);
    let len = chars.len();
    let starts = compute_line_starts(&chars);
    proof {
        lemma_line_starts_of_wf(rope_chars(*document));
    }
    if position.line >= starts.len() {
        return None;
    }
    let base = starts[position.line];
    if position.character > len - base {
        return None;
    }
    Some(base + position.character)
}

/// Parses the full text of a rope into top-level statement records, with
/// spans as character offsets.
pub fn parse_rope_to_ast(rope: &ropey::Rope) -> (r: Result<Vec<RawStmt>, DocumentError>)
    ensures
        match r {
            Ok(stmts) => parse_of(rope_chars(*rope)) == Some(
                stmts@.map_values(|s: RawStmt| s@),
            ),
            Err(e) => e is ParseFailure && parse_of(rope_chars(*rope)) is None,
        },
{
    let text = rope_to_string(rope);
    let chars = rope_chars_vec(rope);
    match parse_text(text.as_str(), &chars) {
        Ok(stmts) => Ok(stmts),
        Err(msg) => Err(DocumentError::ParseFailure(msg)),
    }
}

/// A text document and the data derived from it: identity, buffer, last
/// successful parse, line index, and symbol table.
pub struct Document {
    identity: String,
    content: ropey::Rope,
    tree: Option<Vec<RawStmt>>,
    line_starts: Vec<usize>,
    symbols: SymbolTable,
}

#[verifier::ext_equal]
pub ghost struct DocumentModel {
    pub identity: Seq<char>,
    pub text: Seq<char>,
    pub tree: Option<Seq<RawStmtModel>>,
    pub line_starts: Seq<int>,
    pub symbols: Seq<SymbolModel>,
}

impl View for Document {
    type V = DocumentModel;

    closed spec fn view(&self) -> DocumentModel {
        DocumentModel {
            identity: self.identity@,
            text: rope_chars(self.content),
            tree: match self.tree {
                Some(v) => Some(v@.map_values(|s: RawStmt| s@)),
                None => None,
            },
            line_starts: view_starts(self.line_starts@),
            symbols: self.symbols@,
        }
    }
}

/// A document's line index always matches its current text.
pub open spec fn doc_wf(m: DocumentModel) -> bool {
    m.line_starts == line_starts_of(m.text)
}

/// The document a first open constructs: the whole initial text, its line
/// index, its parse, and the symbols extracted from it (an empty table when
/// the text does not parse).
pub open spec fn spec_document_new(identity: Seq<char>, text: Seq<char>) -> DocumentModel {
    DocumentModel {
        identity: identity,
        text: text,
        tree: parse_of(text),
        line_starts: line_starts_of(text),
        symbols: match parse_of(text) {
            Some(stmts) => spec_symbols_of(stmts, line_starts_of(text)),
            None => Seq::empty(),
        },
    }
}

/// The document after an edit batch: the new text with its rebuilt line
/// index and parse; the symbol table is rebuilt when the new text parses and
/// retained unchanged when it does not. `None` when the batch is malformed.
pub open spec fn spec_document_update(m: DocumentModel, edits: Seq<EditModel>) -> Option<
    DocumentModel,
> {
    match spec_apply_edits(m.text, edits) {
        None => None,
        Some(t) => Some(
            DocumentModel {
                identity: m.identity,
                text: t,
                tree: parse_of(t),
                line_starts: line_starts_of(t),
                symbols: match parse_of(t) {
                    Some(stmts) => spec_symbols_of(stmts, line_starts_of(t)),
                    None => m.symbols,
                },
            },
        ),
    }
}

impl Document {
    pub open spec fn wf(&self) -> bool {
        doc_wf(self@)
    }

    /// Creates a document from its identity and entire initial text.
    pub fn new(identity: String, content: String) -> (d: Document)
        ensures
            d@ == spec_document_new(identity@, content@),
            d.wf(),
    {
        let rope = rope_from_str(content.as_str());
        let chars = rope_chars_vec(&rope);
        let line_starts = compute_line_starts(&chars);
        proof {
            lemma_line_starts_of_wf(chars@);
        }
        match parse_text(content.as_str(), &chars) {
            Ok(stmts) => {
                let symbols = compute_symbol_table(&stmts, &line_starts);
                let d = Document {
                    identity,
                    content: rope,
                    tree: Some(stmts),
                    line_starts,
                    symbols,
                };
                proof {
                    assert(d@ =~= spec_document_new(identity@, content@));
                }
                d
            },
            Err(_) => {
                let d = Document {
                    identity,
                    content: rope,
                    tree: None,
                    line_starts,
                    symbols: SymbolTable::new(),
                };
                proof {
                    assert(d@ =~= spec_document_new(identity@, content@));
                }
                d
            },
        }
    }

    /// Applies an edit batch, then rebuilds the line index and re-parses as
    /// one unit. Returns whether the new text parsed; a malformed batch is
    /// rejected with the document left at its last good state.
    pub fn update(&mut self, changes: &Vec<Edit>) -> (r: Result<bool, DocumentError>)
        requires
            old(self).wf(),
        ensures
            final(self).wf(),
            match r {
                Ok(parsed) => {
                    &&& spec_document_update(old(self)@, edit_models(changes@)) == Some(
                        final(self)@,
                    )
                    &&& parsed == (parse_of(final(self)@.text) is Some)
                },
                Err(e) => {
                    &&& e == DocumentError::MalformedEdit
                    &&& final(self)@ == old(self)@
                    &&& spec_document_update(old(self)@, edit_models(changes@)) is None
                },
            },
    {
        match apply_changes(&mut self.content, changes) {
            Err(e) => Err(e),
            Ok(_) => {
                let chars = rope_chars_vec(&self.content);
                self.line_starts = compute_line_starts(&chars);
                proof {
                    lemma_line_starts_of_wf(chars@);
                }
                let text = rope_to_string(&self.content);
                match parse_text(text.as_str(), &chars) {
                    Ok(stmts) => {
                        self.symbols = compute_symbol_table(&stmts, &self.line_starts);
                        self.tree = Some(stmts);
                        proof {
                            assert(Some(self@) =~= spec_document_update(
                                old(self)@,
                                edit_models(changes@),
                            ));
                        }
                        Ok(true)
                    },
                    Err(_) => {
                        self.tree = None;
                        proof {
                            assert(Some(self@) =~= spec_document_update(
                                old(self)@,
                                edit_models(changes@),
                            ));
                        }
                        Ok(false)
                    },
                }
            },
        }
    }

    /// Builds the line index of a text: one starting offset per line.
    pub fn compute_line_number_map(content: &str) -> (starts: Vec<usize>)
        ensures
            view_starts(starts@) == line_starts_of(content@),
    {
        let n = content.unicode_len();
        let mut chars: Vec<char> = Vec::new();
        assert(chars@ =~= content@.take(0));
        let mut i: usize = 0;
        while i < n
            invariant
                n == content@.len(),
                i <= n,
                chars@ == content@.take(i as int),
            decreases n - i,
        {
            chars.push(content.get_char(i));
            assert(chars@ =~= content@.take(i + 1));
            i = i + 1;
        }
        assert(chars@ =~= content@);
        compute_line_starts(&chars)
    }

    /// The line containing the given character offset.
    pub fn get_line_number(&self, offset: usize) -> (r: Option<usize>)
        requires
            self.wf(),
        ensures
            r is Some,
            r->0 as int == spec_line_of(self@.line_starts, offset as int),
    {
        proof {
            lemma_line_starts_of_wf(self@.text);
        }
        Some(offset_to_line(&self.line_starts, offset))
    }

    /// The document's identity key.
    pub fn identity(&self) -> (r: &String)
        ensures
            r@ == self@.identity,
    {
        &self.identity
    }

    /// The document's full current text.
    pub fn text(&self) -> (r: String)
        ensures
            r@ == self@.text,
    {
        rope_to_string(&self.content)
    }

    /// The document's current line index.
    pub fn line_number_map(&self) -> (r: &Vec<usize>)
        ensures
            view_starts(r@) == self@.line_starts,
    {
        &self.line_starts
    }

    /// The document's symbol table.
    pub fn symbol_table(&self) -> (r: &SymbolTable)
        ensures
            r@ == self@.symbols,
    {
        &self.symbols
    }

    /// The number of characters in the buffer.
    pub fn len_chars(&self) -> (r: usize)
        ensures
            r == self@.text.len(),
    {
        crate::text::rope_len_chars(&self.content)
    }

    /// The character at a valid offset.
    pub fn char_at(&self, offset: usize) -> (r: char)
        requires
            offset < self@.text.len(),
        ensures
            r == self@.text[offset as int],
    {
        crate::text::rope_char_at(&self.content, offset)
    }

    /// A document holding the same identity, text, parse, line index and
    /// symbol table.
    pub fn duplicate(&self) -> (d: Document)
        ensures
            d@ == self@,
    {
        let tree = match &self.tree {
            Some(stmts) => {
                let n = stmts.len();
                let mut copies: Vec<RawStmt> = Vec::new();
                let mut i: usize = 0;
                while i < n
                    invariant
                        n == stmts@.len(),
                        i <= n,
                        copies@.len() == i,
                        forall|k: int| 0 <= k < i ==> #[trigger] copies@[k]@ == stmts@[k]@,
                    decreases n - i,
                {
                    copies.push(stmts[i].duplicate());
                    i = i + 1;
                }
                proof {
                    assert(copies@.map_values(|s: RawStmt| s@) =~= stmts@.map_values(
                        |s: RawStmt| s@,
                    ));
                }
                Some(copies)
            },
            None => None,
        };
        let n2 = self.line_starts.len();
        let mut starts: Vec<usize> = Vec::new();
        let mut j: usize = 0;
        while j < n2
            invariant
                n2 == self.line_starts@.len(),
                j <= n2,
                starts@ == self.line_starts@.take(j as int),
            decreases n2 - j,
        {
            starts.push(self.line_starts[j]);
            proof {
                assert(starts@ =~= self.line_starts@.take(j + 1));
            }
            j = j + 1;
        }
        proof {
            assert(starts@ =~= self.line_starts@);
        }
        let d = Document {
            identity: self.identity.clone(),
            content: rope_clone(&self.content),
            tree,
            line_starts: starts,
            symbols: self.symbols.duplicate(),
        };
        proof {
            assert(d@ =~= self@);
        }
        d
    }

    /// Whether the last parse succeeded.
    pub fn has_tree(&self) -> (r: bool)
        ensures
            r == (self@.tree is Some),
    {
        match &self.tree {
            Some(_) => true,
            None => false,
        }
    }
}

/// Law: applying a full-document replacement twice in a row yields the same
/// document (text, line index, tree and symbol table) as applying it once.
pub proof fn lemma_full_replace_idempotent(m: DocumentModel, t: Seq<char>)
    ensures
        ({
            let e = EditModel { range: None, text: t };
            let once = spec_document_update(m, seq![e]);
            &&& once is Some
            &&& spec_document_update(once->0, seq![e]) == once
        }),
{
    let e = EditModel { range: None, text: t };
    let edits = seq![e];
    assert(edits.drop_first() =~= Seq::<EditModel>::empty());
    assert(edits[0] == e);
    assert(spec_apply_edit(m.text, e) == Some(t));
    assert(spec_apply_edits(t, edits.drop_first()) == Some(t));
    assert(spec_apply_edits(m.text, edits) == Some(t));
    let m1 = spec_document_update(m, edits)->0;
    assert(m1.text == t);
    assert(spec_apply_edit(m1.text, e) == Some(t));
    assert(spec_apply_edits(m1.text, edits) == Some(t));
    let m2 = spec_document_update(m1, edits)->0;
    assert(m2 =~= m1);
}

/// Law: an edit batch that produces unparsable text leaves the symbol table
/// unchanged, while the buffer and line index reflect the new text and the
/// tree is absent.
pub proof fn lemma_parse_failure_retention(m: DocumentModel, edits: Seq<EditModel>)
    requires
        spec_apply_edits(m.text, edits) is Some,
        parse_of(spec_apply_edits(m.text, edits)->0) is None,
    ensures
        spec_document_update(m, edits) is Some,
        ({
            let m2 = spec_document_update(m, edits)->0;
            &&& m2.symbols == m.symbols
            &&& m2.text == spec_apply_edits(m.text, edits)->0
            &&& m2.line_starts == line_starts_of(m2.text)
            &&& m2.tree is None
        }),
{
}

} // verus!
