//! The syntax parser adapter. Parsing is delegated to the outside Python
//! parser as a black box: text in, top-level statement records or a parse
//! failure out. Each top-level statement is reduced to the plain facts the
//! symbol extractor reads: its form, the one name it may define, and its
//! span.
//!
//! The outside parser reports spans as UTF-8 **byte** offsets; the rest of
//! the library measures text in **characters**. The trusted boundary hands
//! out the byte spans exactly as the parser gave them (`parse_bytes_of`),
//! and verified code converts them to character offsets (`parse_of`), so
//! that every span a caller sees is a character span.

use vstd::prelude::*;

use ruff_python_ast::Stmt;

verus! {

/// The form of a top-level statement, as far as symbol extraction cares.
#[derive(Clone, Copy, Debug, PartialEq, Eq, Structural)]
pub enum StmtForm {
    FunctionDef,
    ClassDef,
    Assign,
    AnnAssign,
    For,
    Import,
    ImportFrom,
    Other,
}

/// A top-level statement reduced to plain values.
///
/// `name` is the statement's declared name: the function or class name, the
/// first assignment target or the loop target when that target is a bare
/// identifier (`None` otherwise), the first imported module's name, or the
/// source module of an import-from (`None` when the import is relative and
/// names no module).
///
/// In records handed out by this module's parsing entry point, `start` and
/// `end` are character offsets into the parsed text; only the records named
/// by `parse_bytes_of` at the trusted boundary still carry byte offsets.
#[derive(Debug)]
pub struct RawStmt {
    pub form: StmtForm,
    pub name: Option<String>,
    pub start: usize,
    pub end: usize,
}

#[verifier::ext_equal]
pub ghost struct RawStmtModel {
    pub form: StmtForm,
    pub name: Option<Seq<char>>,
    pub start: int,
    pub end: int,
}

impl View for RawStmt {
    type V = RawStmtModel;

    open spec fn view(&self) -> RawStmtModel {
        RawStmtModel {
            form: self.form,
            name: match self.name {
                Some(n) => Some(n@),
                None => None,
            },
            start: self.start as int,
            end: self.end as int,
        }
    }
}

impl RawStmt {
    /// A copy of this record with the same form, name and span.
    pub fn duplicate(&self) -> (r: RawStmt)
        ensures
            r@ == self@,
    {
        let name = match &self.name {
            Some(n) => Some(n.clone()),
            None => None,
        };
        RawStmt { form: self.form, name, start: self.start, end: self.end }
    }
}

/// What the outside parser yields: statement records whose spans are UTF-8
/// byte offsets into the text. Parsing is a pure function of the full text,
/// so the result is named rather than written out.
pub uninterp spec fn parse_bytes_of(text: Seq<char>) -> Option<Seq<RawStmtModel>>;

/// The number of bytes a character occupies in UTF-8.
pub open spec fn utf8_len(c: char) -> int {
    if (c as u32) < 0x80 {
        1
    } else if (c as u32) < 0x800 {
        2
    } else if (c as u32) < 0x10000 {
        3
    } else {
        4
    }
}

/// The number of characters of `s` that fit within the first `b` bytes of
/// its UTF-8 encoding. On a byte offset lying on a character boundary this
/// is exactly the character offset of that boundary.
pub open spec fn char_of_byte(s: Seq<char>, b: int) -> int
    decreases s.len(),
{
    if b <= 0 || s.len() == 0 {
        0
    } else {
        1 + char_of_byte(s.drop_first(), b - utf8_len(s.first()))
    }
}

/// A statement record with its byte span converted to character offsets
/// into `text`.
pub open spec fn spec_to_char_offsets(m: RawStmtModel, text: Seq<char>) -> RawStmtModel {
    RawStmtModel {
        form: m.form,
        name: m.name,
        start: char_of_byte(text, m.start),
        end: char_of_byte(text, m.end),
    }
}

/// What parsing a text yields once spans are measured in characters: the
/// byte-ranged records of `parse_bytes_of`, each converted through
/// `char_of_byte`.
pub open spec fn parse_of(text: Seq<char>) -> Option<Seq<RawStmtModel>> {
    match parse_bytes_of(text) {
        Some(stmts) => Some(
            stmts.map_values(|m: RawStmtModel| spec_to_char_offsets(m, text)),
        ),
        None => None,
    }
}

#[verifier::external_type_specification]
#[verifier::external_body]
pub struct ExStmt(ruff_python_ast::Stmt);

#[verifier::external_type_specification]
#[verifier::external_body]
pub struct ExExpr(ruff_python_ast::Expr);

/// Relies on ruff_python_parser::parse_module: a full-text parse that is a
/// pure function of the source, returning the module's top-level statements
/// (spans in UTF-8 bytes, as the parser reports them) or its error message
/// when the text does not conform to the grammar.
#[verifier::external_body]
fn parse_top_level(text: &str) -> (r: Result<Vec<RawStmt>, String>)
    ensures
        match r {
            Ok(v) => Some(v@.map_values(|s: RawStmt| s@)) == parse_bytes_of(text@),
            Err(_) => parse_bytes_of(text@) is None,
        },
{
    match ruff_python_parser::parse_module(text) {
        Ok(parsed) => Ok(parsed.into_syntax().body.into_iter().map(|s| raw_of_stmt(&s)).collect()),
        Err(e) => Err(e.to_string()),
    }
}

/// Conversion arm of `parse_top_level`: relies on ruff_text_size::Ranged for
/// the statement's byte span, and packs the plain record.
#[verifier::external_body]
fn raw_of_stmt(s: &ruff_python_ast::Stmt) -> (r: RawStmt)
{
    let range = ruff_text_size::Ranged::range(s);
    RawStmt {
        form: stmt_form(s),
        name: stmt_name(s),
        start: range.start().to_usize(),
        end: range.end().to_usize(),
    }
}

/// Conversion arm of `parse_top_level`: which statement form this is.
#[verifier::external_body]
fn stmt_form(s: &ruff_python_ast::Stmt) -> (r: StmtForm)
{
    match s {
        Stmt::FunctionDef(_) => StmtForm::FunctionDef,
        Stmt::ClassDef(_) => StmtForm::ClassDef,
        Stmt::Assign(_) => StmtForm::Assign,
        Stmt::AnnAssign(_) => StmtForm::AnnAssign,
        Stmt::For(_) => StmtForm::For,
        Stmt::Import(_) => StmtForm::Import,
        Stmt::ImportFrom(_) => StmtForm::ImportFrom,
        _ => StmtForm::Other,
    }
}

/// Conversion arm of `parse_top_level`: the one name the statement declares,
/// read from the fields of its variant.
#[verifier::external_body]
fn stmt_name(s: &ruff_python_ast::Stmt) -> (r: Option<String>)
{
    match s {
        Stmt::FunctionDef(x) => Some(x.name.to_string()),
        Stmt::ClassDef(x) => Some(x.name.to_string()),
        Stmt::Assign(x) => bare_target(x.targets.first()),
        Stmt::AnnAssign(x) => bare_target(Some(&*x.target)),
        Stmt::For(x) => bare_target(Some(&*x.target)),
        Stmt::Import(x) => x.names.first().map(|a| a.name.to_string()),
        Stmt::ImportFrom(x) => x.module.as_ref().map(|m| m.to_string()),
        _ => None,
    }
}

/// Conversion arm of `parse_top_level`: the target's identifier when the
/// target is a bare name expression, `None` for any other target form.
#[verifier::external_body]
fn bare_target(e: Option<&ruff_python_ast::Expr>) -> (r: Option<String>)
{
    match e {
        Some(ruff_python_ast::Expr::Name(n)) => Some(n.id.to_string()),
        _ => None,
    }
}

/// The UTF-8 width of one character.
fn utf8_len_of(c: char) -> (r: usize)
    ensures
        r as int == utf8_len(c),
{
    let u = c as u32;
    if u < 0x80 {
        1
    } else if u < 0x800 {
        2
    } else if u < 0x10000 {
        3
    } else {
        4
    }
}

/// The character offset corresponding to a UTF-8 byte offset into the text.
fn byte_to_char(chars: &Vec<char>, byte: usize) -> (r: usize)
    ensures
        r as int == char_of_byte(chars@, byte as int),
{
    let n = chars.len();
    let mut k: usize = 0;
    let mut rem: usize = byte;
    assert(chars@.skip(0) =~= chars@);
    while k < n && rem > 0
        invariant
            n == chars@.len(),
            k <= n,
            char_of_byte(chars@, byte as int) == k + char_of_byte(chars@.skip(k as int), rem as int),
        decreases n - k,
    {
        let ghost tail = chars@.skip(k as int);
        proof {
            assert(tail.len() > 0);
            assert(tail.first() == chars@[k as int]);
            assert(tail.drop_first() =~= chars@.skip(k as int + 1));
        }
        let l = utf8_len_of(chars[k]);
        proof {
            assert(char_of_byte(tail, rem as int) == 1 + char_of_byte(
                tail.drop_first(),
                rem as int - utf8_len(tail.first()),
            ));
            if (rem as int) < l as int {
                assert(char_of_byte(chars@.skip(k as int + 1), rem as int - l as int) == 0);
                assert(char_of_byte(chars@.skip(k as int + 1), 0) == 0);
            }
        }
        if rem >= l {
            rem = rem - l;
        } else {
            // A byte offset inside a character counts that character whole.
            rem = 0;
        }
        k = k + 1;
    }
    proof {
        if k == n {
            assert(chars@.skip(k as int).len() == 0);
        }
    }
    k
}

/// Parses a text and reduces its top-level statements to records whose
/// spans are character offsets. `chars` is the same text as a character
/// sequence; on failure the parser's error message is handed back.
pub(crate) fn parse_text(text: &str, chars: &Vec<char>) -> (r: Result<Vec<RawStmt>, String>)
    requires
        chars@ == text@,
    ensures
        match r {
            Ok(v) => Some(v@.map_values(|s: RawStmt| s@)) == parse_of(text@),
            Err(_) => parse_of(text@) is None,
        },
{
    match parse_top_level(text) {
        Err(e) => Err(e),
        Ok(byte_stmts) => {
            let ghost byte_models = byte_stmts@.map_values(|s: RawStmt| s@);
            let n = byte_stmts.len();
            let mut out: Vec<RawStmt> = Vec::new();
            let mut i: usize = 0;
            while i < n
                invariant
                    n == byte_stmts@.len(),
                    i <= n,
                    chars@ == text@,
                    byte_models == byte_stmts@.map_values(|s: RawStmt| s@),
                    out@.len() == i,
                    forall|j: int|
                        0 <= j < i ==> #[trigger] out@[j]@ == spec_to_char_offsets(
                            byte_models[j],
                            text@,
                        ),
                decreases n - i,
            {
                let s = &byte_stmts[i];
                let name = match &s.name {
                    Some(nm) => Some(nm.clone()),
                    None => None,
                };
                let start = byte_to_char(chars, s.start);
                let end = byte_to_char(chars, s.end);
                out.push(RawStmt { form: s.form, name, start, end });
                i = i + 1;
            }
            proof {
                assert(out@.map_values(|s: RawStmt| s@) =~= byte_models.map_values(
                    |m: RawStmtModel| spec_to_char_offsets(m, text@),
                ));
            }
            Ok(out)
        },
    }
}

} // verus!
