//! Symbol records and the symbol table: a name-keyed store in which inserting
//! a record under a name that is already present overwrites the prior record,
//! so only the latest definition of each name is retained.
//!
//! The table is backed by a vector scanned in insertion order; that order is
//! the documented, deterministic iteration order used by hover tie-breaking.

use vstd::prelude::*;

verus! {

/// A zero-based (line, column) coordinate pair.
#[derive(Clone, Copy, Debug, PartialEq, Eq, Structural)]
pub struct Position {
    pub line: usize,
    pub character: usize,
}

#[verifier::ext_equal]
pub ghost struct PositionModel {
    pub line: int,
    pub character: int,
}

impl View for Position {
    type V = PositionModel;

    open spec fn view(&self) -> PositionModel {
        PositionModel { line: self.line as int, character: self.character as int }
    }
}

/// An inclusive-start span between two positions.
#[derive(Clone, Copy, Debug, PartialEq, Eq, Structural)]
pub struct Span {
    pub start: Position,
    pub end: Position,
}

#[verifier::ext_equal]
pub ghost struct SpanModel {
    pub start: PositionModel,
    pub end: PositionModel,
}

impl View for Span {
    type V = SpanModel;

    open spec fn view(&self) -> SpanModel {
        SpanModel { start: self.start@, end: self.end@ }
    }
}

/// The structural category of a symbol record.
#[derive(Clone, Copy, Debug, PartialEq, Eq, Structural)]
pub enum SymbolKind {
    Function,
    Class,
    Variable,
    Module,
}

/// A named, kinded, ranged fact extracted from a top-level statement.
#[derive(Debug)]
pub struct Symbol {
    pub name: String,
    pub kind: SymbolKind,
    pub span: Span,
}

#[verifier::ext_equal]
pub ghost struct SymbolModel {
    pub name: Seq<char>,
    pub kind: SymbolKind,
    pub span: SpanModel,
}

impl View for Symbol {
    type V = SymbolModel;

    open spec fn view(&self) -> SymbolModel {
        SymbolModel { name: self.name@, kind: self.kind, span: self.span@ }
    }
}

impl Symbol {
    /// A copy of this record with the same name, kind and span.
    pub fn duplicate(&self) -> (r: Symbol)
        ensures
            r@ == self@,
    {
        Symbol { name: self.name.clone(), kind: self.kind, span: self.span }
    }
}

/// No two records in the table carry the same name.
pub open spec fn table_wf(t: Seq<SymbolModel>) -> bool {
    forall|i: int, j: int| 0 <= i < j < t.len() ==> t[i].name != t[j].name
}

/// The index of the first record named `name`, or -1 when there is none.
pub open spec fn spec_find_name(t: Seq<SymbolModel>, name: Seq<char>) -> int
    decreases t.len(),
{
    if t.len() == 0 {
        -1
    } else if t[0].name == name {
        0
    } else {
        let r = spec_find_name(t.drop_first(), name);
        if r < 0 {
            -1
        } else {
            r + 1
        }
    }
}

/// `spec_find_name` returns -1 exactly when no record matches, and otherwise
/// the first matching index.
pub proof fn lemma_find_name_props(t: Seq<SymbolModel>, name: Seq<char>)
    ensures
        spec_find_name(t, name) == -1 ==> forall|k: int|
            0 <= k < t.len() ==> #[trigger] t[k].name != name,
        spec_find_name(t, name) != -1 ==> {
            let r = spec_find_name(t, name);
            &&& 0 <= r < t.len()
            &&& t[r].name == name
            &&& forall|k: int| 0 <= k < r ==> #[trigger] t[k].name != name
        },
    decreases t.len(),
{
    if t.len() == 0 {
    } else if t[0].name == name {
    } else {
        let rest = t.drop_first();
        lemma_find_name_props(rest, name);
        assert(forall|k: int| 0 <= k < rest.len() ==> #[trigger] rest[k] == t[k + 1]);
        let r0 = spec_find_name(rest, name);
        if r0 == -1 {
            assert(forall|k: int| 1 <= k < t.len() ==> #[trigger] t[k].name == rest[k - 1].name);
        } else {
            assert(forall|k: int| 1 <= k < r0 + 1 ==> #[trigger] t[k].name == rest[k - 1].name);
        }
    }
}

/// Any index that matches `name` and is preceded by no match is the index
/// that `spec_find_name` returns.
pub proof fn lemma_find_name_unique(t: Seq<SymbolModel>, name: Seq<char>, i: int)
    requires
        0 <= i < t.len(),
        t[i].name == name,
        forall|k: int| 0 <= k < i ==> #[trigger] t[k].name != name,
    ensures
        spec_find_name(t, name) == i,
{
    lemma_find_name_props(t, name);
    let r = spec_find_name(t, name);
    if r == -1 {
        assert(t[i].name != name);
    } else {
        if r < i {
            assert(t[r].name != name);
        }
        if i < r {
            assert(t[i].name != name);
        }
    }
}

/// Inserting overwrites the first record of the same name, or appends a new
/// record when the name is not yet present.
pub open spec fn spec_table_insert(t: Seq<SymbolModel>, s: SymbolModel) -> Seq<SymbolModel> {
    let i = spec_find_name(t, s.name);
    if i >= 0 {
        t.update(i, s)
    } else {
        t.push(s)
    }
}

/// Insertion keeps the names unique.
pub proof fn lemma_table_insert_wf(t: Seq<SymbolModel>, s: SymbolModel)
    requires
        table_wf(t),
    ensures
        table_wf(spec_table_insert(t, s)),
{
    lemma_find_name_props(t, s.name);
}

/// A name-keyed store of symbol records; its view is the record sequence in
/// insertion order.
#[derive(Debug)]
pub struct SymbolTable {
    symbols: Vec<Symbol>,
}

impl View for SymbolTable {
    type V = Seq<SymbolModel>;

    closed spec fn view(&self) -> Seq<SymbolModel> {
        self.symbols@.map_values(|s: Symbol| s@)
    }
}

/// Relies on str's PartialEq: two string slices are equal exactly when their
/// character sequences are equal.
#[verifier::external_body]
fn str_eq(a: &str, b: &str) -> (r: bool)
    ensures
        r == (a@ == b@),
{
    a == b
}

impl SymbolTable {
    /// Creates an empty table.
    pub fn new() -> (r: SymbolTable)
        ensures
            r@ == Seq::<SymbolModel>::empty(),
    {
        let r = SymbolTable { symbols: Vec::new() };
        proof {
            assert(r@ =~= Seq::<SymbolModel>::empty());
        }
        r
    }

    /// The index of the first record named `name`, if any.
    fn find_index(&self, name: &str) -> (r: Option<usize>)
        ensures
            match r {
                Some(i) => i < self@.len() && spec_find_name(self@, name@) == i as int,
                None => spec_find_name(self@, name@) == -1,
            },
    {
        let n = self.symbols.len();
        let mut i: usize = 0;
        while i < n
            invariant
                n == self.symbols@.len(),
                self@.len() == self.symbols@.len(),
                i <= n,
                forall|k: int| 0 <= k < i ==> #[trigger] self@[k].name != name@,
                forall|k: int| 0 <= k < self@.len() ==> self@[k] == self.symbols@[k]@,
            decreases n - i,
        {
            if str_eq(self.symbols[i].name.as_str(), name) {
                proof {
                    lemma_find_name_unique(self@, name@, i as int);
                }
                return Some(i);
            }
            i = i + 1;
        }
        proof {
            lemma_find_name_props(self@, name@);
            if spec_find_name(self@, name@) != -1 {
                let r = spec_find_name(self@, name@);
                assert(self@[r].name != name@);
            }
        }
        None
    }

    /// Inserts a record, overwriting any prior record of the same name.
    pub fn insert(&mut self, symbol: Symbol)
        ensures
            final(self)@ == spec_table_insert(old(self)@, symbol@),
    {
        let idx = self.find_index(symbol.name.as_str());
        match idx {
            Some(i) => {
                self.symbols.set(i, symbol);
                proof {
                    assert(final(self)@ =~= spec_table_insert(old(self)@, symbol@));
                }
            },
            None => {
                self.symbols.push(symbol);
                proof {
                    assert(final(self)@ =~= spec_table_insert(old(self)@, symbol@));
                }
            },
        }
    }

    /// The record stored under `name`, if any.
    pub fn get(&self, name: &str) -> (r: Option<&Symbol>)
        ensures
            match r {
                Some(s) => {
                    &&& spec_find_name(self@, name@) >= 0
                    &&& s@ == self@[spec_find_name(self@, name@)]
                },
                None => spec_find_name(self@, name@) == -1,
            },
    {
        match self.find_index(name) {
            Some(i) => Some(&self.symbols[i]),
            None => None,
        }
    }

    /// Whether a record is stored under `name`.
    pub fn contains(&self, name: &str) -> (r: bool)
        ensures
            r == (spec_find_name(self@, name@) >= 0),
    {
        match self.find_index(name) {
            Some(_) => true,
            None => false,
        }
    }

    /// The records in insertion order.
    pub fn iter(&self) -> (r: &Vec<Symbol>)
        ensures
            r@.map_values(|s: Symbol| s@) == self@,
            r@.len() == self@.len(),
            forall|k: int| 0 <= k < r@.len() ==> #[trigger] r@[k]@ == self@[k],
    {
        &self.symbols
    }

    /// The number of records in the table.
    pub fn len(&self) -> (r: usize)
        ensures
            r == self@.len(),
    {
        self.symbols.len()
    }

    /// Whether the table holds no record.
    pub fn is_empty(&self) -> (r: bool)
        ensures
            r == (self@.len() == 0),
    {
        self.symbols.len() == 0
    }

    /// A table holding copies of the same records in the same order.
    pub fn duplicate(&self) -> (t: SymbolTable)
        ensures
            t@ == self@,
    {
        let n = self.symbols.len();
        let mut copies: Vec<Symbol> = Vec::new();
        let mut i: usize = 0;
        while i < n
            invariant
                n == self.symbols@.len(),
                i <= n,
                copies@.len() == i,
                forall|k: int| 0 <= k < i ==> #[trigger] copies@[k]@ == self.symbols@[k]@,
            decreases n - i,
        {
            copies.push(self.symbols[i].duplicate());
            i = i + 1;
        }
        let t = SymbolTable { symbols: copies };
        proof {
            assert(t@ =~= self@);
        }
        t
    }
}

} // verus!
