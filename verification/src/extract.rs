//! The symbol extractor: walks the top-level statement records of a parse
//! and emits at most one symbol record per statement, converting each
//! statement's character-offset span to (line, column) coordinates through
//! the current line index.

use vstd::prelude::*;

use crate::line_index::{
    lemma_spec_line_of_bounds, offset_to_line, spec_line_of, view_starts, wf_line_starts,
};
use crate::symbols::{
    lemma_find_name_props, lemma_find_name_unique, lemma_table_insert_wf, spec_find_name,
    spec_table_insert, table_wf, Position, PositionModel, Span, SpanModel, Symbol, SymbolKind,
    SymbolModel, SymbolTable,
};
use crate::syntax::{RawStmt, RawStmtModel, StmtForm};

verus! {

/// The (line, column) span of the character range `[start, end)` under the
/// given line index.
pub open spec fn spec_span_of(start: int, end: int, starts: Seq<int>) -> SpanModel {
    SpanModel {
        start: PositionModel {
            line: spec_line_of(starts, start),
            character: start - starts[spec_line_of(starts, start)],
        },
        end: PositionModel {
            line: spec_line_of(starts, end),
            character: end - starts[spec_line_of(starts, end)],
        },
    }
}

/// The symbol record a top-level statement produces, if any: functions and
/// classes under their declared name, bare-identifier assignment and loop
/// targets as variables, imports under the first imported module's name, and
/// import-from under its source module's name or the placeholder "unknown".
pub open spec fn spec_symbol_of_stmt(s: RawStmtModel, starts: Seq<int>) -> Option<SymbolModel> {
    match s.form {
        StmtForm::FunctionDef => match s.name {
            Some(n) => Some(
                SymbolModel {
                    name: n,
                    kind: SymbolKind::Function,
                    span: spec_span_of(s.start, s.end, starts),
                },
            ),
            None => None,
        },
        StmtForm::ClassDef => match s.name {
            Some(n) => Some(
                SymbolModel {
                    name: n,
                    kind: SymbolKind::Class,
                    span: spec_span_of(s.start, s.end, starts),
                },
            ),
            None => None,
        },
        StmtForm::Assign | StmtForm::AnnAssign | StmtForm::For => match s.name {
            Some(n) => Some(
                SymbolModel {
                    name: n,
                    kind: SymbolKind::Variable,
                    span: spec_span_of(s.start, s.end, starts),
                },
            ),
            None => None,
        },
        StmtForm::Import => match s.name {
            Some(n) => Some(
                SymbolModel {
                    name: n,
                    kind: SymbolKind::Module,
                    span: spec_span_of(s.start, s.end, starts),
                },
            ),
            None => None,
        },
        StmtForm::ImportFrom => Some(
            SymbolModel {
                name: match s.name {
                    Some(n) => n,
                    None => "unknown"@,
                },
                kind: SymbolKind::Module,
                span: spec_span_of(s.start, s.end, starts),
            },
        ),
        StmtForm::Other => None,
    }
}

/// The model of an extraction result.
pub open spec fn opt_symbol_view(r: Option<Symbol>) -> Option<SymbolModel> {
    match r {
        Some(s) => Some(s@),
        None => None,
    }
}

/// Converts a character-offset span to (line, column) coordinates through
/// the line index.
pub fn span_of_offsets(start: usize, end: usize, starts: &Vec<usize>) -> (r: Span)
    requires
        wf_line_starts(view_starts(starts@)),
    ensures
        r@ == spec_span_of(start as int, end as int, view_starts(starts@)),
{
    let ghost gstarts = view_starts(starts@);
    let start_line = offset_to_line(starts, start);
    let end_line = offset_to_line(starts, end);
    proof {
        lemma_spec_line_of_bounds(gstarts, start as int);
        lemma_spec_line_of_bounds(gstarts, end as int);
    }
    let start_character = start - starts[start_line];
    let end_character = end - starts[end_line];
    Span {
        start: Position { line: start_line, character: start_character },
        end: Position { line: end_line, character: end_character },
    }
}

/// Produces the symbol record of one top-level statement, if any.
pub fn symbol_of_stmt(stmt: &RawStmt, starts: &Vec<usize>) -> (r: Option<Symbol>)
    requires
        wf_line_starts(view_starts(starts@)),
    ensures
        opt_symbol_view(r) == spec_symbol_of_stmt(stmt@, view_starts(starts@)),
{
    let span = span_of_offsets(stmt.start, stmt.end, starts);
    match stmt.form {
        StmtForm::FunctionDef => match &stmt.name {
            Some(n) => Some(Symbol { name: n.clone(), kind: SymbolKind::Function, span }),
            None => None,
        },
        StmtForm::ClassDef => match &stmt.name {
            Some(n) => Some(Symbol { name: n.clone(), kind: SymbolKind::Class, span }),
            None => None,
        },
        StmtForm::Assign | StmtForm::AnnAssign | StmtForm::For => match &stmt.name {
            Some(n) => Some(Symbol { name: n.clone(), kind: SymbolKind::Variable, span }),
            None => None,
        },
        StmtForm::Import => match &stmt.name {
            Some(n) => Some(Symbol { name: n.clone(), kind: SymbolKind::Module, span }),
            None => None,
        },
        StmtForm::ImportFrom => {
            let name = match &stmt.name {
                Some(n) => n.clone(),
                None => "unknown".to_owned(),
            };
            Some(Symbol { name, kind: SymbolKind::Module, span })
        },
        StmtForm::Other => None,
    }
}

/// The symbol table obtained by extracting every statement in order and
/// inserting each record, later records overwriting earlier ones of the
/// same name.
pub open spec fn spec_symbols_of(stmts: Seq<RawStmtModel>, starts: Seq<int>) -> Seq<SymbolModel>
    decreases stmts.len(),
{
    if stmts.len() == 0 {
        Seq::empty()
    } else {
        let prev = spec_symbols_of(stmts.drop_last(), starts);
        match spec_symbol_of_stmt(stmts.last(), starts) {
            Some(s) => spec_table_insert(prev, s),
            None => prev,
        }
    }
}

/// The extracted table never holds two records of the same name.
pub proof fn lemma_symbols_of_wf(stmts: Seq<RawStmtModel>, starts: Seq<int>)
    ensures
        table_wf(spec_symbols_of(stmts, starts)),
    decreases stmts.len(),
{
    if stmts.len() == 0 {
    } else {
        lemma_symbols_of_wf(stmts.drop_last(), starts);
        match spec_symbol_of_stmt(stmts.last(), starts) {
            Some(s) => {
                lemma_table_insert_wf(spec_symbols_of(stmts.drop_last(), starts), s);
            },
            None => {},
        }
    }
}

/// Builds the symbol table of a statement list under the given line index.
pub fn compute_symbol_table(stmts: &Vec<RawStmt>, starts: &Vec<usize>) -> (table: SymbolTable)
    requires
        wf_line_starts(view_starts(starts@)),
    ensures
        table@ == spec_symbols_of(stmts@.map_values(|s: RawStmt| s@), view_starts(starts@)),
{
    let ghost models = stmts@.map_values(|s: RawStmt| s@);
    let ghost gstarts = view_starts(starts@);
    let mut table = SymbolTable::new();
    assert(models.take(0) =~= Seq::<RawStmtModel>::empty());
    let n = stmts.len();
    let mut i: usize = 0;
    while i < n
        invariant
            n == stmts@.len(),
            i <= n,
            models == stmts@.map_values(|s: RawStmt| s@),
            gstarts == view_starts(starts@),
            wf_line_starts(gstarts),
            table@ == spec_symbols_of(models.take(i as int), gstarts),
        decreases n - i,
    {
        let sym = symbol_of_stmt(&stmts[i], starts);
        proof {
            assert(models.take(i + 1).drop_last() =~= models.take(i as int));
            assert(models.take(i + 1).last() == models[i as int]);
        }
        match sym {
            Some(s) => {
                table.insert(s);
            },
            None => {},
        }
        i = i + 1;
    }
    proof {
        assert(models.take(n as int) =~= models);
    }
    table
}

/// Whether a statement's extraction yields a record named `n`.
pub open spec fn yields_name(s: RawStmtModel, starts: Seq<int>, n: Seq<char>) -> bool {
    match spec_symbol_of_stmt(s, starts) {
        Some(sym) => sym.name == n,
        None => false,
    }
}

/// Law: when several top-level statements define the same name, the
/// extracted table holds exactly one record under that name, and it is the
/// record of the last such statement.
pub proof fn lemma_symbol_overwrite(
    stmts: Seq<RawStmtModel>,
    starts: Seq<int>,
    n: Seq<char>,
    j: int,
)
    requires
        0 <= j < stmts.len(),
        yields_name(stmts[j], starts, n),
        forall|k: int| j < k < stmts.len() ==> !yields_name(stmts[k], starts, n),
    ensures
        ({
            let t = spec_symbols_of(stmts, starts);
            let f = spec_find_name(t, n);
            &&& 0 <= f < t.len()
            &&& spec_symbol_of_stmt(stmts[j], starts) == Some(t[f])
            &&& forall|i: int| 0 <= i < t.len() && #[trigger] t[i].name == n ==> i == f
        }),
    decreases stmts.len(),
{
    let t = spec_symbols_of(stmts, starts);
    let prev = spec_symbols_of(stmts.drop_last(), starts);
    lemma_find_name_props(prev, n);
    if j == stmts.len() - 1 {
        let sym = spec_symbol_of_stmt(stmts[j], starts)->0;
        assert(t == spec_table_insert(prev, sym));
        let fp = spec_find_name(prev, n);
        if fp >= 0 {
            assert(t == prev.update(fp, sym));
            lemma_find_name_unique(t, n, fp);
        } else {
            assert(t == prev.push(sym));
            lemma_find_name_unique(t, n, prev.len() as int);
        }
    } else {
        assert(stmts.drop_last()[j] == stmts[j]);
        lemma_symbol_overwrite(stmts.drop_last(), starts, n, j);
        let fp = spec_find_name(prev, n);
        match spec_symbol_of_stmt(stmts.last(), starts) {
            None => {
                assert(t == prev);
            },
            Some(s2) => {
                assert(s2.name != n);
                lemma_find_name_props(prev, s2.name);
                let i2 = spec_find_name(prev, s2.name);
                if i2 >= 0 {
                    assert(t == prev.update(i2, s2));
                    assert(prev[i2].name == s2.name);
                    assert(i2 != fp);
                    assert(t[fp] == prev[fp]);
                    assert(forall|k: int| 0 <= k < fp ==> #[trigger] t[k].name != n);
                    lemma_find_name_unique(t, n, fp);
                } else {
                    assert(t == prev.push(s2));
                    assert(t[fp] == prev[fp]);
                    lemma_find_name_unique(t, n, fp);
                }
            },
        }
    }
    lemma_symbols_of_wf(stmts, starts);
    let f = spec_find_name(t, n);
    assert forall|i: int| 0 <= i < t.len() && #[trigger] t[i].name == n implies i == f by {
        if i < f {
            assert(t[i].name != t[f].name);
        } else if f < i {
            assert(t[f].name != t[i].name);
        }
    }
}

} // verus!
