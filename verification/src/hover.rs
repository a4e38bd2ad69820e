//! The hover resolver: maps a cursor position to the symbol whose span
//! contains it, or to a description of the raw character there.
//!
//! The query position is converted to an absolute offset through the
//! document's own line index and back to (line, column), anchoring the
//! comparison to the document's coordinates rather than the caller's, which
//! may be stale. The symbol records are scanned in the table's insertion
//! order, and the first record containing the position wins; that order is
//! this library's documented, deterministic tie-break. A position outside
//! the current buffer fails the query with `OutOfBounds` rather than being
//! clamped.

use vstd::prelude::*;

use crate::document::{Document, DocumentError, DocumentModel};
use crate::line_index::{
    lemma_line_starts_of_wf, lemma_spec_line_of_bounds, offset_to_line, spec_line_of,
};
use crate::symbols::{Position, PositionModel, Symbol, SymbolModel};

verus! {

/// Whether a symbol's span contains the (line, column) position: the line
/// lies strictly between the span's start and end lines, or equals the
/// start line with the column at or after the start column, or equals the
/// end line with the column at or before the end column; a single-line
/// symbol must satisfy both column bounds at once.
pub open spec fn spec_contains_position(s: SymbolModel, line: int, column: int) -> bool {
    if s.span.start.line == s.span.end.line {
        &&& line == s.span.start.line
        &&& s.span.start.character <= column <= s.span.end.character
    } else {
        ||| (line == s.span.start.line && column >= s.span.start.character)
        ||| (line == s.span.end.line && column <= s.span.end.character)
        ||| (s.span.start.line < line < s.span.end.line)
    }
}

/// The first record in table order whose span contains the position.
pub open spec fn spec_first_match(syms: Seq<SymbolModel>, line: int, column: int) -> Option<
    SymbolModel,
>
    decreases syms.len(),
{
    if syms.len() == 0 {
        None
    } else if spec_contains_position(syms[0], line, column) {
        Some(syms[0])
    } else {
        spec_first_match(syms.drop_first(), line, column)
    }
}

/// What a hover query resolves to: a symbol, or the raw character at the
/// resolved offset together with its coordinates.
#[derive(Debug)]
pub enum HoverOutcome {
    Symbol(Symbol),
    Character { ch: char, offset: usize, line: usize, column: usize },
}

pub ghost enum HoverModel {
    Symbol(SymbolModel),
    Character { ch: char, offset: int, line: int, column: int },
}

/// The model of a hover result.
pub open spec fn hover_view(r: Result<HoverOutcome, DocumentError>) -> Result<
    HoverModel,
    DocumentError,
> {
    match r {
        Ok(HoverOutcome::Symbol(s)) => Ok(HoverModel::Symbol(s@)),
        Ok(
            HoverOutcome::Character { ch, offset, line, column },
        ) => Ok(
            HoverModel::Character {
                ch: ch,
                offset: offset as int,
                line: line as int,
                column: column as int,
            },
        ),
        Err(e) => Err(e),
    }
}

/// What resolving a position against a document yields: the position is
/// turned into an offset through the line index and back into the
/// document's own (line, column); the first containing symbol in table
/// order wins, and with no containing symbol the raw character at the
/// offset is described. A position naming a line outside the index, or an
/// offset past the end of the buffer, is out of bounds.
pub open spec fn spec_resolve(m: DocumentModel, pos: PositionModel) -> Result<
    HoverModel,
    DocumentError,
> {
    let starts = m.line_starts;
    if pos.line >= starts.len() {
        Err(DocumentError::OutOfBounds)
    } else {
        let off = starts[pos.line] + pos.character;
        if off > m.text.len() {
            Err(DocumentError::OutOfBounds)
        } else {
            let line = spec_line_of(starts, off);
            let column = off - starts[line];
            match spec_first_match(m.symbols, line, column) {
                Some(s) => Ok(HoverModel::Symbol(s)),
                None => if off < m.text.len() {
                    Ok(
                        HoverModel::Character {
                            ch: m.text[off],
                            offset: off,
                            line: line,
                            column: column,
                        },
                    )
                } else {
                    Err(DocumentError::OutOfBounds)
                },
            }
        }
    }
}

/// Whether the symbol's span contains the position.
pub fn contains_position(sym: &Symbol, line: usize, column: usize) -> (r: bool)
    ensures
        r == spec_contains_position(sym@, line as int, column as int),
{
    let ss = sym.span.start;
    let se = sym.span.end;
    if ss.line == se.line {
        line == ss.line && ss.character <= column && column <= se.character
    } else {
        (line == ss.line && column >= ss.character) || (line == se.line && column
            <= se.character) || (ss.line < line && line < se.line)
    }
}

/// Resolves a hover query against a document.
#[verifier::loop_isolation(false)]
pub fn resolve(doc: &Document, position: Position) -> (r: Result<HoverOutcome, DocumentError>)
    requires
        doc.wf(),
    ensures
        hover_view(r) == spec_resolve(doc@, position@),
{
    proof {
        lemma_line_starts_of_wf(doc@.text);
    }
    let starts = doc.line_number_map();
    if position.line >= starts.len() {
        return Err(DocumentError::OutOfBounds);
    }
    let len = doc.len_chars();
    let base = starts[position.line];
    if position.character > len - base {
        return Err(DocumentError::OutOfBounds);
    }
    let offset = base + position.character;
    let line = offset_to_line(starts, offset);
    proof {
        lemma_spec_line_of_bounds(doc@.line_starts, offset as int);
    }
    let column = offset - starts[line];
    let table = doc.symbol_table();
    let syms = table.iter();
    let ghost models = doc@.symbols;
    assert(models.skip(0) =~= models);
    let k = syms.len();
    let mut idx: usize = 0;
    while idx < k
        invariant
            k == syms@.len(),
            idx <= k,
            models == doc@.symbols,
            models.len() == syms@.len(),
            forall|j: int| 0 <= j < models.len() ==> #[trigger] syms@[j]@ == models[j],
            spec_first_match(models.skip(idx as int), line as int, column as int)
                == spec_first_match(models, line as int, column as int),
        decreases k - idx,
    {
        proof {
            assert(models.skip(idx as int)[0] == models[idx as int]);
            assert(models.skip(idx as int).drop_first() =~= models.skip(idx as int + 1));
        }
        if contains_position(&syms[idx], line, column) {
            return Ok(HoverOutcome::Symbol(syms[idx].duplicate()));
        }
        idx = idx + 1;
    }
    proof {
        assert(models.skip(k as int) =~= Seq::<SymbolModel>::empty());
    }
    if offset < len {
        let ch = doc.char_at(offset);
        Ok(HoverOutcome::Character { ch, offset, line, column })
    } else {
        Err(DocumentError::OutOfBounds)
    }
}

} // verus!
