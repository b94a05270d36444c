//! The module data model and the decoder: value types, function signatures,
//! instructions, sections, and the top-level module decode loop.
//!
//! The binary grammar itself is written down once, as specification
//! functions over `Seq<u8>` (`spec_decode` and the functions it calls);
//! every executable decoding function is proved to return exactly what the
//! grammar says, for every input.

use vstd::prelude::*;
use vstd::utf8::{decode_utf8, valid_utf8};

use crate::cursor::{
    lemma_uleb_advance, read_u8, read_uleb, read_uleb32, read_sleb32, spec_sleb32, spec_uleb,
    spec_uleb32, take_bytes,
};
use crate::error::Error;

verus! {

// ------------------------------------------------------------------
// data model
// ------------------------------------------------------------------

/// A value type tag, as the format's one-byte encodings name them.
#[derive(Clone, Copy, PartialEq, Eq, Debug)]
pub enum Val {
    I32,
    I64,
    F32,
    F64,
    V128,
    FuncRef,
    ExternRef,
}

/// A function signature: parameter types and result types, in order.
#[derive(Clone, PartialEq, Eq, Debug)]
pub struct FuncType {
    pub params: Vec<Val>,
    pub results: Vec<Val>,
}

/// One decoded instruction.  `ConstF64` carries the raw little-endian bits
/// of its immediate; this crate never interprets them as a number.
#[derive(Clone, Copy, PartialEq, Eq, Debug)]
pub enum Instr {
    LocalGet(u32),
    LoadI32(i32),
    I32Add,
    I32Mul,
    Call(u32),
    DivI32U,
    End,
    ConstF64(u64),
}

/// A function: its signature, its declared locals (expanded from run-length
/// groups, parameters not included), and its body.
#[derive(Clone, PartialEq, Eq, Debug)]
pub struct Func {
    pub ty: FuncType,
    pub locals: Vec<Val>,
    pub body: Vec<Instr>,
}

/// A named export referring to a function index.
#[derive(Clone, PartialEq, Eq, Debug)]
pub struct Export {
    pub name: String,
    pub ty: u64,
    pub idx: u64,
}

/// A fully decoded module: functions and exports, in declaration order.
#[derive(PartialEq, Eq, Debug)]
pub struct Module {
    pub funcs: Vec<Func>,
    pub exports: Vec<Export>,
}

// ------------------------------------------------------------------
// mathematical views
// ------------------------------------------------------------------

#[verifier::ext_equal]
pub ghost struct FuncTypeView {
    pub params: Seq<Val>,
    pub results: Seq<Val>,
}

#[verifier::ext_equal]
pub ghost struct FuncView {
    pub ty: FuncTypeView,
    pub locals: Seq<Val>,
    pub body: Seq<Instr>,
}

#[verifier::ext_equal]
pub ghost struct ExportView {
    pub name: Seq<char>,
    pub ty: int,
    pub idx: int,
}

#[verifier::ext_equal]
pub ghost struct ModuleView {
    pub funcs: Seq<FuncView>,
    pub exports: Seq<ExportView>,
}

impl View for FuncType {
    type V = FuncTypeView;

    open spec fn view(&self) -> FuncTypeView {
        FuncTypeView { params: self.params@, results: self.results@ }
    }
}

impl View for Func {
    type V = FuncView;

    open spec fn view(&self) -> FuncView {
        FuncView { ty: self.ty@, locals: self.locals@, body: self.body@ }
    }
}

impl View for Export {
    type V = ExportView;

    open spec fn view(&self) -> ExportView {
        ExportView { name: self.name@, ty: self.ty as int, idx: self.idx as int }
    }
}

impl View for Module {
    type V = ModuleView;

    open spec fn view(&self) -> ModuleView {
        ModuleView { funcs: funcs_view(self.funcs@), exports: exports_view(self.exports@) }
    }
}

pub open spec fn types_view(v: Seq<FuncType>) -> Seq<FuncTypeView> {
    v.map_values(|t: FuncType| t@)
}

pub open spec fn funcs_view(v: Seq<Func>) -> Seq<FuncView> {
    v.map_values(|f: Func| f@)
}

pub open spec fn exports_view(v: Seq<Export>) -> Seq<ExportView> {
    v.map_values(|e: Export| e@)
}

// ------------------------------------------------------------------
// the grammar, one specification function per production
// ------------------------------------------------------------------

/// The value-type tag encodings.
pub open spec fn spec_parse_val(s: Seq<u8>, pos: int) -> Result<(Val, int), Error> {
    if pos < 0 || pos >= s.len() {
        Err(Error::UnexpectedEof)
    } else {
        let b = s[pos];
        if b == 0x7F {
            Ok((Val::I32, pos + 1))
        } else if b == 0x7E {
            Ok((Val::I64, pos + 1))
        } else if b == 0x7D {
            Ok((Val::F32, pos + 1))
        } else if b == 0x7C {
            Ok((Val::F64, pos + 1))
        } else if b == 0x7B {
            Ok((Val::V128, pos + 1))
        } else if b == 0x70 {
            Ok((Val::FuncRef, pos + 1))
        } else if b == 0x6F {
            Ok((Val::ExternRef, pos + 1))
        } else {
            Err(Error::UnknownValueType(b))
        }
    }
}

/// `n` value-type tags in a row, appended to `acc`.
pub open spec fn spec_parse_vals(s: Seq<u8>, pos: int, n: int, acc: Seq<Val>) -> Result<
    (Seq<Val>, int),
    Error,
>
    decreases n,
{
    if n <= 0 {
        Ok((acc, pos))
    } else {
        match spec_parse_val(s, pos) {
            Ok((v, p)) => spec_parse_vals(s, p, n - 1, acc.push(v)),
            Err(e) => Err(e),
        }
    }
}

/// One function type: the `0x60` marker, then parameter and result lists.
pub open spec fn spec_parse_functype(s: Seq<u8>, pos: int) -> Result<(FuncTypeView, int), Error> {
    if pos < 0 || pos >= s.len() {
        Err(Error::UnexpectedEof)
    } else if s[pos] != 0x60 {
        Err(Error::MalformedSection)
    } else {
        match spec_uleb32(s, pos + 1) {
            Ok((np, p1)) => match spec_parse_vals(s, p1, np as int, Seq::empty()) {
                Ok((params, p2)) => match spec_uleb32(s, p2) {
                    Ok((nr, p3)) => match spec_parse_vals(s, p3, nr as int, Seq::empty()) {
                        Ok((results, p4)) => Ok((FuncTypeView { params, results }, p4)),
                        Err(e) => Err(e),
                    },
                    Err(e) => Err(e),
                },
                Err(e) => Err(e),
            },
            Err(e) => Err(e),
        }
    }
}

/// `n` function types in a row, appended to `acc`.
pub open spec fn spec_parse_functypes(s: Seq<u8>, pos: int, n: int, acc: Seq<FuncTypeView>) -> Result<
    (Seq<FuncTypeView>, int),
    Error,
>
    decreases n,
{
    if n <= 0 {
        Ok((acc, pos))
    } else {
        match spec_parse_functype(s, pos) {
            Ok((t, p)) => spec_parse_functypes(s, p, n - 1, acc.push(t)),
            Err(e) => Err(e),
        }
    }
}

/// The type section's payload: its declared byte length, a count, that many
/// function types; the payload must span exactly the declared length.
pub open spec fn spec_type_section(s: Seq<u8>, pos: int) -> Result<(Seq<FuncTypeView>, int), Error> {
    match spec_uleb32(s, pos) {
        Ok((len, p1)) => match spec_uleb32(s, p1) {
            Ok((n, p2)) => match spec_parse_functypes(s, p2, n as int, Seq::empty()) {
                Ok((types, p3)) => if p3 - p1 == len {
                    Ok((types, p3))
                } else {
                    Err(Error::MalformedSection)
                },
                Err(e) => Err(e),
            },
            Err(e) => Err(e),
        },
        Err(e) => Err(e),
    }
}

/// `n` function entries: each a type index into `types`, yielding a function
/// with that signature and no locals or body yet.
pub open spec fn spec_parse_func_entries(
    s: Seq<u8>,
    pos: int,
    types: Seq<FuncTypeView>,
    n: int,
    acc: Seq<FuncView>,
) -> Result<(Seq<FuncView>, int), Error>
    decreases n,
{
    if n <= 0 {
        Ok((acc, pos))
    } else {
        match spec_uleb32(s, pos) {
            Ok((idx, p)) => if idx < types.len() {
                spec_parse_func_entries(
                    s,
                    p,
                    types,
                    n - 1,
                    acc.push(FuncView { ty: types[idx as int], locals: Seq::empty(), body: Seq::empty() }),
                )
            } else {
                Err(Error::UnknownType(idx))
            },
            Err(e) => Err(e),
        }
    }
}

/// The function section's payload.
pub open spec fn spec_function_section(s: Seq<u8>, pos: int, types: Seq<FuncTypeView>) -> Result<
    (Seq<FuncView>, int),
    Error,
> {
    match spec_uleb32(s, pos) {
        Ok((len, p1)) => match spec_uleb32(s, p1) {
            Ok((n, p2)) => match spec_parse_func_entries(s, p2, types, n as int, Seq::empty()) {
                Ok((funcs, p3)) => if p3 - p1 == len {
                    Ok((funcs, p3))
                } else {
                    Err(Error::MalformedSection)
                },
                Err(e) => Err(e),
            },
            Err(e) => Err(e),
        },
        Err(e) => Err(e),
    }
}

/// One export entry: a length-prefixed UTF-8 name, a kind tag, an index.
pub open spec fn spec_parse_export(s: Seq<u8>, pos: int) -> Result<(ExportView, int), Error> {
    match spec_uleb32(s, pos) {
        Ok((nl, p1)) => if p1 + nl > s.len() {
            Err(Error::UnexpectedEof)
        } else {
            let name_bytes = s.subrange(p1, p1 + nl);
            if !valid_utf8(name_bytes) {
                Err(Error::InvalidExportName)
            } else {
                match spec_uleb(s, p1 + nl) {
                    Ok((ty, p2)) => match spec_uleb(s, p2) {
                        Ok((idx, p3)) => Ok(
                            (ExportView { name: decode_utf8(name_bytes), ty, idx }, p3),
                        ),
                        Err(e) => Err(e),
                    },
                    Err(e) => Err(e),
                }
            }
        },
        Err(e) => Err(e),
    }
}

/// `n` export entries in a row, appended to `acc`.
pub open spec fn spec_parse_exports(s: Seq<u8>, pos: int, n: int, acc: Seq<ExportView>) -> Result<
    (Seq<ExportView>, int),
    Error,
>
    decreases n,
{
    if n <= 0 {
        Ok((acc, pos))
    } else {
        match spec_parse_export(s, pos) {
            Ok((e, p)) => spec_parse_exports(s, p, n - 1, acc.push(e)),
            Err(e) => Err(e),
        }
    }
}

/// The export section's payload.
pub open spec fn spec_export_section(s: Seq<u8>, pos: int) -> Result<(Seq<ExportView>, int), Error> {
    match spec_uleb32(s, pos) {
        Ok((len, p1)) => match spec_uleb32(s, p1) {
            Ok((n, p2)) => match spec_parse_exports(s, p2, n as int, Seq::empty()) {
                Ok((exports, p3)) => if p3 - p1 == len {
                    Ok((exports, p3))
                } else {
                    Err(Error::MalformedSection)
                },
                Err(e) => Err(e),
            },
            Err(e) => Err(e),
        },
        Err(e) => Err(e),
    }
}

/// `n` local groups, each a repeat count and a value type, expanded flat.
pub open spec fn spec_parse_locals(s: Seq<u8>, pos: int, n: int, acc: Seq<Val>) -> Result<
    (Seq<Val>, int),
    Error,
>
    decreases n,
{
    if n <= 0 {
        Ok((acc, pos))
    } else {
        match spec_uleb32(s, pos) {
            Ok((cnt, p1)) => match spec_parse_val(s, p1) {
                Ok((v, p2)) => spec_parse_locals(
                    s,
                    p2,
                    n - 1,
                    acc + Seq::new(cnt as nat, |j: int| v),
                ),
                Err(e) => Err(e),
            },
            Err(e) => Err(e),
        }
    }
}

/// The value of 8 little-endian bytes of `s` starting at `pos`.
pub open spec fn spec_le64(s: Seq<u8>, pos: int) -> int {
    s[pos] + s[pos + 1] * 0x100 + s[pos + 2] * 0x1_0000 + s[pos + 3] * 0x100_0000 + s[pos + 4]
        * 0x1_0000_0000 + s[pos + 5] * 0x100_0000_0000 + s[pos + 6] * 0x1_0000_0000_0000 + s[pos
        + 7] * 0x100_0000_0000_0000
}

/// A function body's instructions, decoded from the body's own byte range.
/// An explicit `End` opcode stops decoding; so does running out of bytes.
/// `0x00` is consumed without producing an instruction; any byte that is not
/// an opcode of the subset is refused, never skipped.
pub open spec fn spec_parse_instrs(code: Seq<u8>, pos: int, acc: Seq<Instr>) -> Result<
    (Seq<Instr>, int),
    Error,
>
    decreases code.len() - pos,
    via spec_parse_instrs_dec
{
    if pos < 0 || pos >= code.len() {
        Ok((acc, pos))
    } else {
        let b = code[pos];
        if b == 0x00 {
            spec_parse_instrs(code, pos + 1, acc)
        } else if b == 0x0B {
            Ok((acc.push(Instr::End), pos + 1))
        } else if b == 0x20 {
            match spec_uleb32(code, pos + 1) {
                Ok((n, p)) => spec_parse_instrs(code, p, acc.push(Instr::LocalGet(n))),
                Err(e) => Err(e),
            }
        } else if b == 0x28 {
            match spec_sleb32(code, pos + 1) {
                Ok((off, p)) => spec_parse_instrs(code, p, acc.push(Instr::LoadI32(off))),
                Err(e) => Err(e),
            }
        } else if b == 0x44 {
            if pos + 9 <= code.len() {
                spec_parse_instrs(
                    code,
                    pos + 9,
                    acc.push(Instr::ConstF64(spec_le64(code, pos + 1) as u64)),
                )
            } else {
                Err(Error::UnexpectedEof)
            }
        } else if b == 0x6A {
            spec_parse_instrs(code, pos + 1, acc.push(Instr::I32Add))
        } else if b == 0x6C {
            spec_parse_instrs(code, pos + 1, acc.push(Instr::I32Mul))
        } else if b == 0x10 {
            match spec_uleb32(code, pos + 1) {
                Ok((n, p)) => spec_parse_instrs(code, p, acc.push(Instr::Call(n))),
                Err(e) => Err(e),
            }
        } else if b == 0x80 {
            spec_parse_instrs(code, pos + 1, acc.push(Instr::DivI32U))
        } else {
            Err(Error::UnknownOpcode(b))
        }
    }
}

#[via_fn]
proof fn spec_parse_instrs_dec(code: Seq<u8>, pos: int, acc: Seq<Instr>) {
    if 0 <= pos < code.len() {
        let b = code[pos];
        if b == 0x20 || b == 0x10 {
            lemma_uleb_advance(code, pos + 1);
        } else if b == 0x28 {
            crate::cursor::lemma_sleb_advance(code, pos + 1);
        }
    }
}

/// One code-section body: its byte length, its locals header, then its
/// instructions, decoded from exactly the bytes the length declares.  The
/// section cursor always lands at the body's end, whether or not an `End`
/// opcode came early.
pub open spec fn spec_parse_body(s: Seq<u8>, pos: int) -> Result<((Seq<Val>, Seq<Instr>), int), Error> {
    match spec_uleb32(s, pos) {
        Ok((blen, p1)) => match spec_uleb32(s, p1) {
            Ok((g, p2)) => match spec_parse_locals(s, p2, g as int, Seq::empty()) {
                Ok((locals, p3)) => if p3 - p1 > blen {
                    Err(Error::MalformedSection)
                } else if p1 + blen > s.len() {
                    Err(Error::UnexpectedEof)
                } else {
                    let end = p1 + blen;
                    match spec_parse_instrs(s.subrange(p3, end), 0, Seq::empty()) {
                        Ok((body, _ip)) => Ok(((locals, body), end)),
                        Err(e) => Err(e),
                    }
                },
                Err(e) => Err(e),
            },
            Err(e) => Err(e),
        },
        Err(e) => Err(e),
    }
}

/// The bodies for the functions from index `i` on: each keeps its signature
/// and gains the locals and instructions its body declares.
pub open spec fn spec_parse_bodies(s: Seq<u8>, pos: int, funcs: Seq<FuncView>, i: int) -> Result<
    (Seq<FuncView>, int),
    Error,
>
    decreases funcs.len() - i,
{
    if i < 0 || i >= funcs.len() {
        Ok((funcs, pos))
    } else {
        match spec_parse_body(s, pos) {
            Ok(((locals, body), p)) => spec_parse_bodies(
                s,
                p,
                funcs.update(i, FuncView { ty: funcs[i].ty, locals, body }),
                i + 1,
            ),
            Err(e) => Err(e),
        }
    }
}

/// The code section's payload: its count must equal the number of functions
/// the function section declared.
pub open spec fn spec_code_section(s: Seq<u8>, pos: int, funcs: Seq<FuncView>) -> Result<
    (Seq<FuncView>, int),
    Error,
> {
    match spec_uleb32(s, pos) {
        Ok((len, p1)) => match spec_uleb32(s, p1) {
            Ok((n, p2)) => if n != funcs.len() {
                Err(Error::FunctionCountMismatch)
            } else {
                match spec_parse_bodies(s, p2, funcs, 0) {
                    Ok((funcs2, p3)) => if p3 - p1 == len {
                        Ok((funcs2, p3))
                    } else {
                        Err(Error::MalformedSection)
                    },
                    Err(e) => Err(e),
                }
            },
            Err(e) => Err(e),
        },
        Err(e) => Err(e),
    }
}

// ------------------------------------------------------------------
// position bounds: a successful parse lands between `pos` and `s.len()`
// ------------------------------------------------------------------

pub proof fn lemma_parse_vals_advance(s: Seq<u8>, pos: int, n: int, acc: Seq<Val>)
    requires
        pos <= s.len(),
    ensures
        spec_parse_vals(s, pos, n, acc) matches Ok(r) ==> pos <= r.1 <= s.len(),
    decreases n,
{
    if n > 0 {
        match spec_parse_val(s, pos) {
            Ok((v, p)) => {
                lemma_parse_vals_advance(s, p, n - 1, acc.push(v));
            },
            Err(_) => {},
        }
    }
}

pub proof fn lemma_parse_functype_advance(s: Seq<u8>, pos: int)
    ensures
        spec_parse_functype(s, pos) matches Ok(r) ==> pos <= r.1 <= s.len(),
{
    if 0 <= pos < s.len() && s[pos] == 0x60 {
        lemma_uleb_advance(s, pos + 1);
        match spec_uleb32(s, pos + 1) {
            Ok((np, p1)) => {
                lemma_parse_vals_advance(s, p1, np as int, Seq::empty());
                match spec_parse_vals(s, p1, np as int, Seq::empty()) {
                    Ok((params, p2)) => {
                        lemma_uleb_advance(s, p2);
                        match spec_uleb32(s, p2) {
                            Ok((nr, p3)) => {
                                lemma_parse_vals_advance(s, p3, nr as int, Seq::empty());
                            },
                            Err(_) => {},
                        }
                    },
                    Err(_) => {},
                }
            },
            Err(_) => {},
        }
    }
}

pub proof fn lemma_parse_functypes_advance(s: Seq<u8>, pos: int, n: int, acc: Seq<FuncTypeView>)
    requires
        pos <= s.len(),
    ensures
        spec_parse_functypes(s, pos, n, acc) matches Ok(r) ==> pos <= r.1 <= s.len(),
    decreases n,
{
    if n > 0 {
        lemma_parse_functype_advance(s, pos);
        match spec_parse_functype(s, pos) {
            Ok((t, p)) => {
                lemma_parse_functypes_advance(s, p, n - 1, acc.push(t));
            },
            Err(_) => {},
        }
    }
}

pub proof fn lemma_type_section_advance(s: Seq<u8>, pos: int)
    ensures
        spec_type_section(s, pos) matches Ok(r) ==> pos < r.1 <= s.len(),
{
    lemma_uleb_advance(s, pos);
    match spec_uleb32(s, pos) {
        Ok((len, p1)) => {
            lemma_uleb_advance(s, p1);
            match spec_uleb32(s, p1) {
                Ok((n, p2)) => {
                    lemma_parse_functypes_advance(s, p2, n as int, Seq::empty());
                },
                Err(_) => {},
            }
        },
        Err(_) => {},
    }
}

pub proof fn lemma_parse_func_entries_advance(
    s: Seq<u8>,
    pos: int,
    types: Seq<FuncTypeView>,
    n: int,
    acc: Seq<FuncView>,
)
    requires
        pos <= s.len(),
    ensures
        spec_parse_func_entries(s, pos, types, n, acc) matches Ok(r) ==> pos <= r.1 <= s.len(),
    decreases n,
{
    if n > 0 {
        lemma_uleb_advance(s, pos);
        match spec_uleb32(s, pos) {
            Ok((idx, p)) => if idx < types.len() {
                lemma_parse_func_entries_advance(
                    s,
                    p,
                    types,
                    n - 1,
                    acc.push(
                        FuncView { ty: types[idx as int], locals: Seq::empty(), body: Seq::empty() },
                    ),
                );
            },
            Err(_) => {},
        }
    }
}

pub proof fn lemma_function_section_advance(s: Seq<u8>, pos: int, types: Seq<FuncTypeView>)
    ensures
        spec_function_section(s, pos, types) matches Ok(r) ==> pos < r.1 <= s.len(),
{
    lemma_uleb_advance(s, pos);
    match spec_uleb32(s, pos) {
        Ok((len, p1)) => {
            lemma_uleb_advance(s, p1);
            match spec_uleb32(s, p1) {
                Ok((n, p2)) => {
                    lemma_parse_func_entries_advance(s, p2, types, n as int, Seq::empty());
                },
                Err(_) => {},
            }
        },
        Err(_) => {},
    }
}

pub proof fn lemma_parse_export_advance(s: Seq<u8>, pos: int)
    ensures
        spec_parse_export(s, pos) matches Ok(r) ==> pos < r.1 <= s.len(),
{
    lemma_uleb_advance(s, pos);
    match spec_uleb32(s, pos) {
        Ok((nl, p1)) => if p1 + nl <= s.len() {
            crate::cursor::lemma_uleb_rec_advance(s, p1 + nl, 0, 1, 0);
            match spec_uleb(s, p1 + nl) {
                Ok((ty, p2)) => {
                    crate::cursor::lemma_uleb_rec_advance(s, p2, 0, 1, 0);
                },
                Err(_) => {},
            }
        },
        Err(_) => {},
    }
}

pub proof fn lemma_parse_exports_advance(s: Seq<u8>, pos: int, n: int, acc: Seq<ExportView>)
    requires
        pos <= s.len(),
    ensures
        spec_parse_exports(s, pos, n, acc) matches Ok(r) ==> pos <= r.1 <= s.len(),
    decreases n,
{
    if n > 0 {
        lemma_parse_export_advance(s, pos);
        match spec_parse_export(s, pos) {
            Ok((e, p)) => {
                lemma_parse_exports_advance(s, p, n - 1, acc.push(e));
            },
            Err(_) => {},
        }
    }
}

pub proof fn lemma_export_section_advance(s: Seq<u8>, pos: int)
    ensures
        spec_export_section(s, pos) matches Ok(r) ==> pos < r.1 <= s.len(),
{
    lemma_uleb_advance(s, pos);
    match spec_uleb32(s, pos) {
        Ok((len, p1)) => {
            lemma_uleb_advance(s, p1);
            match spec_uleb32(s, p1) {
                Ok((n, p2)) => {
                    lemma_parse_exports_advance(s, p2, n as int, Seq::empty());
                },
                Err(_) => {},
            }
        },
        Err(_) => {},
    }
}

pub proof fn lemma_parse_body_advance(s: Seq<u8>, pos: int)
    ensures
        spec_parse_body(s, pos) matches Ok(r) ==> pos < r.1 <= s.len(),
{
    lemma_uleb_advance(s, pos);
}

pub proof fn lemma_parse_bodies_advance(s: Seq<u8>, pos: int, funcs: Seq<FuncView>, i: int)
    requires
        pos <= s.len(),
    ensures
        spec_parse_bodies(s, pos, funcs, i) matches Ok(r) ==> pos <= r.1 <= s.len(),
    decreases funcs.len() - i,
{
    if 0 <= i < funcs.len() {
        lemma_parse_body_advance(s, pos);
        match spec_parse_body(s, pos) {
            Ok(((locals, body), p)) => {
                lemma_parse_bodies_advance(
                    s,
                    p,
                    funcs.update(i, FuncView { ty: funcs[i].ty, locals, body }),
                    i + 1,
                );
            },
            Err(_) => {},
        }
    }
}

pub proof fn lemma_code_section_advance(s: Seq<u8>, pos: int, funcs: Seq<FuncView>)
    ensures
        spec_code_section(s, pos, funcs) matches Ok(r) ==> pos < r.1 <= s.len(),
{
    lemma_uleb_advance(s, pos);
    match spec_uleb32(s, pos) {
        Ok((len, p1)) => {
            lemma_uleb_advance(s, p1);
            match spec_uleb32(s, p1) {
                Ok((n, p2)) => if n == funcs.len() {
                    lemma_parse_bodies_advance(s, p2, funcs, 0);
                },
                Err(_) => {},
            }
        },
        Err(_) => {},
    }
}

// ------------------------------------------------------------------
// the module: magic, version, then sections until the stream ends
// ------------------------------------------------------------------

/// Whether one of the four known section ids stands at the front.
pub open spec fn known_section_id(id: u8) -> bool {
    id == 0x01 || id == 0x03 || id == 0x07 || id == 0x0A
}

/// The section stream from `pos` on.  `types` is the type table seen so
/// far; `funcs` and `exports` are the module contents seen so far.  An
/// unknown section id is skipped over its declared length.
pub open spec fn spec_sections(
    s: Seq<u8>,
    pos: int,
    types: Seq<FuncTypeView>,
    funcs: Seq<FuncView>,
    exports: Seq<ExportView>,
) -> Result<ModuleView, Error>
    decreases s.len() - pos,
    via spec_sections_dec
{
    if pos >= s.len() {
        Ok(ModuleView { funcs, exports })
    } else {
        let id = s[pos];
        if id == 0x01 {
            match spec_type_section(s, pos + 1) {
                Ok((t, p)) => spec_sections(s, p, t, funcs, exports),
                Err(e) => Err(e),
            }
        } else if id == 0x03 {
            match spec_function_section(s, pos + 1, types) {
                Ok((f, p)) => spec_sections(s, p, types, f, exports),
                Err(e) => Err(e),
            }
        } else if id == 0x07 {
            match spec_export_section(s, pos + 1) {
                Ok((ex, p)) => spec_sections(s, p, types, funcs, ex),
                Err(e) => Err(e),
            }
        } else if id == 0x0A {
            match spec_code_section(s, pos + 1, funcs) {
                Ok((f, p)) => spec_sections(s, p, types, f, exports),
                Err(e) => Err(e),
            }
        } else {
            match spec_uleb32(s, pos + 1) {
                Ok((l, p)) => if p + l <= s.len() {
                    spec_sections(s, p + l, types, funcs, exports)
                } else {
                    Err(Error::UnexpectedEof)
                },
                Err(e) => Err(e),
            }
        }
    }
}

#[via_fn]
proof fn spec_sections_dec(
    s: Seq<u8>,
    pos: int,
    types: Seq<FuncTypeView>,
    funcs: Seq<FuncView>,
    exports: Seq<ExportView>,
) {
    if pos < s.len() {
        let id = s[pos];
        if id == 0x01 {
            lemma_type_section_advance(s, pos + 1);
        } else if id == 0x03 {
            lemma_function_section_advance(s, pos + 1, types);
        } else if id == 0x07 {
            lemma_export_section_advance(s, pos + 1);
        } else if id == 0x0A {
            lemma_code_section_advance(s, pos + 1, funcs);
        } else {
            lemma_uleb_advance(s, pos + 1);
        }
    }
}

/// The module magic stands at the front.
pub open spec fn has_magic(s: Seq<u8>) -> bool {
    s.len() >= 4 && s[0] == 0x00 && s[1] == 0x61 && s[2] == 0x73 && s[3] == 0x6D
}

/// The supported version stands after the magic.
pub open spec fn has_version(s: Seq<u8>) -> bool {
    s.len() >= 8 && s[4] == 0x01 && s[5] == 0x00 && s[6] == 0x00 && s[7] == 0x00
}

/// What decoding a whole byte stream yields: the magic, the version, then
/// every section in order, or the first failure.
pub open spec fn spec_decode(s: Seq<u8>) -> Result<ModuleView, Error> {
    if s.len() < 4 {
        Err(Error::UnexpectedEof)
    } else if !has_magic(s) {
        Err(Error::BadMagic)
    } else if s.len() < 8 {
        Err(Error::UnexpectedEof)
    } else if !has_version(s) {
        Err(Error::UnsupportedVersion)
    } else {
        spec_sections(s, 8, Seq::empty(), Seq::empty(), Seq::empty())
    }
}

// ------------------------------------------------------------------
// executable decoders, each proved against its production
// ------------------------------------------------------------------

/// Read one value-type tag.
pub fn parse_val(s: &[u8], pos: &mut usize) -> (r: Result<Val, Error>)
    requires
        *old(pos) <= s@.len(),
    ensures
        match r {
            Ok(v) => spec_parse_val(s@, *old(pos) as int) == Ok::<(Val, int), Error>(
                (v, *final(pos) as int),
            ) && *old(pos) < *final(pos) <= s@.len(),
            Err(e) => spec_parse_val(s@, *old(pos) as int) == Err::<(Val, int), Error>(e),
        },
{
    match read_u8(s, pos) {
        Ok(b) => {
            if b == 0x7F {
                Ok(Val::I32)
            } else if b == 0x7E {
                Ok(Val::I64)
            } else if b == 0x7D {
                Ok(Val::F32)
            } else if b == 0x7C {
                Ok(Val::F64)
            } else if b == 0x7B {
                Ok(Val::V128)
            } else if b == 0x70 {
                Ok(Val::FuncRef)
            } else if b == 0x6F {
                Ok(Val::ExternRef)
            } else {
                Err(Error::UnknownValueType(b))
            }
        },
        Err(e) => Err(e),
    }
}

/// Read `n` value-type tags.
#[verifier::loop_isolation(false)]
pub fn parse_vals(s: &[u8], pos: &mut usize, n: u32) -> (r: Result<Vec<Val>, Error>)
    requires
        *old(pos) <= s@.len(),
    ensures
        match r {
            Ok(v) => spec_parse_vals(s@, *old(pos) as int, n as int, Seq::empty())
                == Ok::<(Seq<Val>, int), Error>((v@, *final(pos) as int))
                && *old(pos) <= *final(pos) <= s@.len(),
            Err(e) => spec_parse_vals(s@, *old(pos) as int, n as int, Seq::empty())
                == Err::<(Seq<Val>, int), Error>(e),
        },
{
    let ghost pos0: int = *pos as int;
    let mut p: usize = *pos;
    let mut out: Vec<Val> = Vec::new();
    let mut j: u32 = 0;
    while j < n
        invariant
            0 <= j <= n,
            p <= s@.len(),
            pos0 <= p as int,
            spec_parse_vals(s@, pos0, n as int, Seq::empty()) == spec_parse_vals(
                s@,
                p as int,
                n - j,
                out@,
            ),
        decreases n - j,
    {
        match parse_val(s, &mut p) {
            Ok(v) => {
                out.push(v);
            },
            Err(e) => {
                return Err(e);
            },
        }
        j = j + 1;
    }
    *pos = p;
    Ok(out)
}

/// Read one function type.
pub fn parse_functype(s: &[u8], pos: &mut usize) -> (r: Result<FuncType, Error>)
    requires
        *old(pos) <= s@.len(),
    ensures
        match r {
            Ok(t) => spec_parse_functype(s@, *old(pos) as int) == Ok::<(FuncTypeView, int), Error>(
                (t@, *final(pos) as int),
            ) && *old(pos) < *final(pos) <= s@.len(),
            Err(e) => spec_parse_functype(s@, *old(pos) as int) == Err::<(FuncTypeView, int), Error>(
                e,
            ),
        },
{
    let mut p: usize = *pos;
    let b: u8 = match read_u8(s, &mut p) {
        Ok(b) => b,
        Err(e) => {
            return Err(e);
        },
    };
    if b != 0x60 {
        return Err(Error::MalformedSection);
    }
    let np: u32 = match read_uleb32(s, &mut p) {
        Ok(v) => v,
        Err(e) => {
            return Err(e);
        },
    };
    let params: Vec<Val> = match parse_vals(s, &mut p, np) {
        Ok(v) => v,
        Err(e) => {
            return Err(e);
        },
    };
    let nr: u32 = match read_uleb32(s, &mut p) {
        Ok(v) => v,
        Err(e) => {
            return Err(e);
        },
    };
    let results: Vec<Val> = match parse_vals(s, &mut p, nr) {
        Ok(v) => v,
        Err(e) => {
            return Err(e);
        },
    };
    *pos = p;
    Ok(FuncType { params, results })
}

/// Decode the type section's payload, the cursor standing after its id byte.
#[verifier::loop_isolation(false)]
pub fn parse_type_section(s: &[u8], pos: &mut usize) -> (r: Result<Vec<FuncType>, Error>)
    requires
        *old(pos) <= s@.len(),
    ensures
        match r {
            Ok(v) => spec_type_section(s@, *old(pos) as int) == Ok::<(Seq<FuncTypeView>, int), Error>(
                (types_view(v@), *final(pos) as int),
            ) && *old(pos) < *final(pos) <= s@.len(),
            Err(e) => spec_type_section(s@, *old(pos) as int) == Err::<(Seq<FuncTypeView>, int), Error>(
                e,
            ),
        },
{
    let mut p: usize = *pos;
    let slen: u32 = match read_uleb32(s, &mut p) {
        Ok(v) => v,
        Err(e) => {
            return Err(e);
        },
    };
    let start: usize = p;
    let n: u32 = match read_uleb32(s, &mut p) {
        Ok(v) => v,
        Err(e) => {
            return Err(e);
        },
    };
    let ghost entries_start: int = p as int;
    let mut out: Vec<FuncType> = Vec::new();
    let mut j: u32 = 0;
    proof {
        assert(types_view(out@) =~= Seq::<FuncTypeView>::empty());
    }
    while j < n
        invariant
            0 <= j <= n,
            start <= p <= s@.len(),
            spec_parse_functypes(s@, entries_start, n as int, Seq::empty()) == spec_parse_functypes(
                s@,
                p as int,
                n - j,
                types_view(out@),
            ),
        decreases n - j,
    {
        let ghost prev: Seq<FuncTypeView> = types_view(out@);
        match parse_functype(s, &mut p) {
            Ok(t) => {
                let ghost tv: FuncTypeView = t@;
                out.push(t);
                proof {
                    assert(types_view(out@) =~= prev.push(tv));
                }
            },
            Err(e) => {
                return Err(e);
            },
        }
        j = j + 1;
    }
    if p - start != slen as usize {
        return Err(Error::MalformedSection);
    }
    *pos = p;
    Ok(out)
}

/// Copy a list of value types.
#[verifier::loop_isolation(false)]
pub fn copy_vals(v: &Vec<Val>) -> (r: Vec<Val>)
    ensures
        r@ == v@,
{
    let mut out: Vec<Val> = Vec::new();
    let mut i: usize = 0;
    while i < v.len()
        invariant
            0 <= i <= v@.len(),
            out@ == v@.subrange(0, i as int),
        decreases v@.len() - i,
    {
        out.push(v[i]);
        proof {
            assert(out@ =~= v@.subrange(0, i + 1));
        }
        i = i + 1;
    }
    proof {
        assert(out@ =~= v@);
    }
    out
}

/// Copy a function signature.
pub fn copy_functype(t: &FuncType) -> (r: FuncType)
    ensures
        r@ == t@,
{
    FuncType { params: copy_vals(&t.params), results: copy_vals(&t.results) }
}

/// Decode the function section's payload against the type table seen so far.
#[verifier::loop_isolation(false)]
pub fn parse_function_section(s: &[u8], pos: &mut usize, types: &Vec<FuncType>) -> (r: Result<
    Vec<Func>,
    Error,
>)
    requires
        *old(pos) <= s@.len(),
    ensures
        match r {
            Ok(v) => spec_function_section(s@, *old(pos) as int, types_view(types@))
                == Ok::<(Seq<FuncView>, int), Error>((funcs_view(v@), *final(pos) as int))
                && *old(pos) < *final(pos) <= s@.len(),
            Err(e) => spec_function_section(s@, *old(pos) as int, types_view(types@))
                == Err::<(Seq<FuncView>, int), Error>(e),
        },
{
    let mut p: usize = *pos;
    let slen: u32 = match read_uleb32(s, &mut p) {
        Ok(v) => v,
        Err(e) => {
            return Err(e);
        },
    };
    let start: usize = p;
    let n: u32 = match read_uleb32(s, &mut p) {
        Ok(v) => v,
        Err(e) => {
            return Err(e);
        },
    };
    let ghost entries_start: int = p as int;
    let mut out: Vec<Func> = Vec::new();
    let mut j: u32 = 0;
    proof {
        assert(funcs_view(out@) =~= Seq::<FuncView>::empty());
    }
    while j < n
        invariant
            0 <= j <= n,
            start <= p <= s@.len(),
            spec_parse_func_entries(s@, entries_start, types_view(types@), n as int, Seq::empty())
                == spec_parse_func_entries(
                s@,
                p as int,
                types_view(types@),
                n - j,
                funcs_view(out@),
            ),
        decreases n - j,
    {
        let idx: u32 = match read_uleb32(s, &mut p) {
            Ok(v) => v,
            Err(e) => {
                return Err(e);
            },
        };
        if (idx as usize) >= types.len() {
            return Err(Error::UnknownType(idx));
        }
        let ghost prev: Seq<FuncView> = funcs_view(out@);
        let f = Func {
            ty: copy_functype(&types[idx as usize]),
            locals: Vec::new(),
            body: Vec::new(),
        };
        let ghost fv: FuncView = f@;
        proof {
            assert(types_view(types@)[idx as int] == types@[idx as int]@);
        }
        out.push(f);
        proof {
            assert(funcs_view(out@) =~= prev.push(fv));
        }
        j = j + 1;
    }
    if p - start != slen as usize {
        return Err(Error::MalformedSection);
    }
    *pos = p;
    Ok(out)
}

/// Relies on `String::from_utf8`: it succeeds exactly on the valid UTF-8
/// byte strings and yields that encoding's characters, as vstd's UTF-8
/// specification (`valid_utf8`, `decode_utf8`) states them.
#[verifier::external_body]
fn string_from_utf8(bytes: Vec<u8>) -> (r: Result<String, Error>)
    ensures
        match r {
            Ok(name) => valid_utf8(bytes@) && name@ == decode_utf8(bytes@),
            Err(e) => !valid_utf8(bytes@) && e == Error::InvalidExportName,
        },
{
    match String::from_utf8(bytes) {
        Ok(name) => Ok(name),
        Err(_) => Err(Error::InvalidExportName),
    }
}

/// Read one export entry.
pub fn parse_export(s: &[u8], pos: &mut usize) -> (r: Result<Export, Error>)
    requires
        *old(pos) <= s@.len(),
    ensures
        match r {
            Ok(e) => spec_parse_export(s@, *old(pos) as int) == Ok::<(ExportView, int), Error>(
                (e@, *final(pos) as int),
            ) && *old(pos) < *final(pos) <= s@.len(),
            Err(e) => spec_parse_export(s@, *old(pos) as int) == Err::<(ExportView, int), Error>(e),
        },
{
    let mut p: usize = *pos;
    let nl: u32 = match read_uleb32(s, &mut p) {
        Ok(v) => v,
        Err(e) => {
            return Err(e);
        },
    };
    let name_bytes: Vec<u8> = match take_bytes(s, &mut p, nl as usize) {
        Ok(v) => v,
        Err(e) => {
            return Err(e);
        },
    };
    let name: String = match string_from_utf8(name_bytes) {
        Ok(v) => v,
        Err(e) => {
            return Err(e);
        },
    };
    let ty: u64 = match read_uleb(s, &mut p) {
        Ok(v) => v,
        Err(e) => {
            return Err(e);
        },
    };
    let idx: u64 = match read_uleb(s, &mut p) {
        Ok(v) => v,
        Err(e) => {
            return Err(e);
        },
    };
    *pos = p;
    Ok(Export { name, ty, idx })
}

/// Decode the export section's payload.
#[verifier::loop_isolation(false)]
pub fn parse_export_section(s: &[u8], pos: &mut usize) -> (r: Result<Vec<Export>, Error>)
    requires
        *old(pos) <= s@.len(),
    ensures
        match r {
            Ok(v) => spec_export_section(s@, *old(pos) as int) == Ok::<(Seq<ExportView>, int), Error>(
                (exports_view(v@), *final(pos) as int),
            ) && *old(pos) < *final(pos) <= s@.len(),
            Err(e) => spec_export_section(s@, *old(pos) as int) == Err::<(Seq<ExportView>, int), Error>(
                e,
            ),
        },
{
    let mut p: usize = *pos;
    let slen: u32 = match read_uleb32(s, &mut p) {
        Ok(v) => v,
        Err(e) => {
            return Err(e);
        },
    };
    let start: usize = p;
    let n: u32 = match read_uleb32(s, &mut p) {
        Ok(v) => v,
        Err(e) => {
            return Err(e);
        },
    };
    let ghost entries_start: int = p as int;
    let mut out: Vec<Export> = Vec::new();
    let mut j: u32 = 0;
    proof {
        assert(exports_view(out@) =~= Seq::<ExportView>::empty());
    }
    while j < n
        invariant
            0 <= j <= n,
            start <= p <= s@.len(),
            spec_parse_exports(s@, entries_start, n as int, Seq::empty()) == spec_parse_exports(
                s@,
                p as int,
                n - j,
                exports_view(out@),
            ),
        decreases n - j,
    {
        let ghost prev: Seq<ExportView> = exports_view(out@);
        match parse_export(s, &mut p) {
            Ok(e) => {
                let ghost ev: ExportView = e@;
                out.push(e);
                proof {
                    assert(exports_view(out@) =~= prev.push(ev));
                }
            },
            Err(e) => {
                return Err(e);
            },
        }
        j = j + 1;
    }
    if p - start != slen as usize {
        return Err(Error::MalformedSection);
    }
    *pos = p;
    Ok(out)
}

/// Read `n` local groups, expanding each to its repeated value type.
#[verifier::loop_isolation(false)]
pub fn parse_locals(s: &[u8], pos: &mut usize, n: u32) -> (r: Result<Vec<Val>, Error>)
    requires
        *old(pos) <= s@.len(),
    ensures
        match r {
            Ok(v) => spec_parse_locals(s@, *old(pos) as int, n as int, Seq::empty())
                == Ok::<(Seq<Val>, int), Error>((v@, *final(pos) as int))
                && *old(pos) <= *final(pos) <= s@.len(),
            Err(e) => spec_parse_locals(s@, *old(pos) as int, n as int, Seq::empty())
                == Err::<(Seq<Val>, int), Error>(e),
        },
{
    let ghost pos0: int = *pos as int;
    let mut p: usize = *pos;
    let mut out: Vec<Val> = Vec::new();
    let mut j: u32 = 0;
    while j < n
        invariant
            0 <= j <= n,
            pos0 <= p as int,
            p <= s@.len(),
            spec_parse_locals(s@, pos0, n as int, Seq::empty()) == spec_parse_locals(
                s@,
                p as int,
                n - j,
                out@,
            ),
        decreases n - j,
    {
        let cnt: u32 = match read_uleb32(s, &mut p) {
            Ok(v) => v,
            Err(e) => {
                return Err(e);
            },
        };
        let v: Val = match parse_val(s, &mut p) {
            Ok(v) => v,
            Err(e) => {
                return Err(e);
            },
        };
        let ghost prev: Seq<Val> = out@;
        let mut k: u32 = 0;
        while k < cnt
            invariant
                0 <= k <= cnt,
                out@ == prev + Seq::new(k as nat, |q: int| v),
            decreases cnt - k,
        {
            out.push(v);
            proof {
                assert(out@ =~= prev + Seq::new((k + 1) as nat, |q: int| v));
            }
            k = k + 1;
        }
        j = j + 1;
    }
    *pos = p;
    Ok(out)
}

/// The `u64` carried by 8 little-endian bytes at `at`.
pub fn read_le64(s: &[u8], at: usize) -> (r: u64)
    requires
        at + 8 <= s@.len(),
    ensures
        r as int == spec_le64(s@, at as int),
{
    (s[at] as u64) + (s[at + 1] as u64) * 0x100 + (s[at + 2] as u64) * 0x1_0000 + (s[at + 3] as u64)
        * 0x100_0000 + (s[at + 4] as u64) * 0x1_0000_0000 + (s[at + 5] as u64) * 0x100_0000_0000 + (
    s[at + 6] as u64) * 0x1_0000_0000_0000 + (s[at + 7] as u64) * 0x100_0000_0000_0000
}

/// Decode one body's instruction bytes, already cut to exactly the body's
/// code range.
#[verifier::loop_isolation(false)]
pub fn parse_instructions(code: &[u8]) -> (r: Result<Vec<Instr>, Error>)
    ensures
        match r {
            Ok(v) => spec_parse_instrs(code@, 0, Seq::empty()) matches Ok(pr) && pr.0 == v@,
            Err(e) => spec_parse_instrs(code@, 0, Seq::empty()) == Err::<(Seq<Instr>, int), Error>(
                e,
            ),
        },
{
    let mut p: usize = 0;
    let mut out: Vec<Instr> = Vec::new();
    loop
        invariant
            p <= code@.len(),
            spec_parse_instrs(code@, 0, Seq::empty()) == spec_parse_instrs(code@, p as int, out@),
        decreases code@.len() - p,
    {
        if p == code.len() {
            return Ok(out);
        }
        let b: u8 = code[p];
        if b == 0x00 {
            p = p + 1;
        } else if b == 0x0B {
            out.push(Instr::End);
            return Ok(out);
        } else if b == 0x20 {
            p = p + 1;
            let n: u32 = match read_uleb32(code, &mut p) {
                Ok(v) => v,
                Err(e) => {
                    return Err(e);
                },
            };
            out.push(Instr::LocalGet(n));
        } else if b == 0x28 {
            p = p + 1;
            let off: i32 = match read_sleb32(code, &mut p) {
                Ok(v) => v,
                Err(e) => {
                    return Err(e);
                },
            };
            out.push(Instr::LoadI32(off));
        } else if b == 0x44 {
            if code.len() - (p + 1) < 8 {
                return Err(Error::UnexpectedEof);
            }
            let bits: u64 = read_le64(code, p + 1);
            out.push(Instr::ConstF64(bits));
            p = p + 9;
        } else if b == 0x6A {
            out.push(Instr::I32Add);
            p = p + 1;
        } else if b == 0x6C {
            out.push(Instr::I32Mul);
            p = p + 1;
        } else if b == 0x10 {
            p = p + 1;
            let n: u32 = match read_uleb32(code, &mut p) {
                Ok(v) => v,
                Err(e) => {
                    return Err(e);
                },
            };
            out.push(Instr::Call(n));
        } else if b == 0x80 {
            out.push(Instr::DivI32U);
            p = p + 1;
        } else {
            return Err(Error::UnknownOpcode(b));
        }
    }
}

/// Read one code-section body: locals, then instructions; the cursor lands
/// at the end of the declared body range.
pub fn parse_body(s: &[u8], pos: &mut usize) -> (r: Result<(Vec<Val>, Vec<Instr>), Error>)
    requires
        *old(pos) <= s@.len(),
    ensures
        match r {
            Ok(lb) => spec_parse_body(s@, *old(pos) as int) == Ok::<
                ((Seq<Val>, Seq<Instr>), int),
                Error,
            >(((lb.0@, lb.1@), *final(pos) as int)) && *old(pos) < *final(pos) <= s@.len(),
            Err(e) => spec_parse_body(s@, *old(pos) as int) == Err::<
                ((Seq<Val>, Seq<Instr>), int),
                Error,
            >(e),
        },
{
    let mut p: usize = *pos;
    let blen: u32 = match read_uleb32(s, &mut p) {
        Ok(v) => v,
        Err(e) => {
            return Err(e);
        },
    };
    let start: usize = p;
    let g: u32 = match read_uleb32(s, &mut p) {
        Ok(v) => v,
        Err(e) => {
            return Err(e);
        },
    };
    let locals: Vec<Val> = match parse_locals(s, &mut p, g) {
        Ok(v) => v,
        Err(e) => {
            return Err(e);
        },
    };
    if p - start > blen as usize {
        return Err(Error::MalformedSection);
    }
    if blen as usize > s.len() - start {
        return Err(Error::UnexpectedEof);
    }
    let end: usize = start + blen as usize;
    let code: &[u8] = &s[p..end];
    let body: Vec<Instr> = match parse_instructions(code) {
        Ok(v) => v,
        Err(e) => {
            return Err(e);
        },
    };
    *pos = end;
    Ok((locals, body))
}

/// Decode the code section's payload, filling in the bodies of the already
/// declared functions.
#[verifier::loop_isolation(false)]
pub fn parse_code_section(s: &[u8], pos: &mut usize, funcs: &Vec<Func>) -> (r: Result<
    Vec<Func>,
    Error,
>)
    requires
        *old(pos) <= s@.len(),
    ensures
        match r {
            Ok(v) => spec_code_section(s@, *old(pos) as int, funcs_view(funcs@))
                == Ok::<(Seq<FuncView>, int), Error>((funcs_view(v@), *final(pos) as int))
                && *old(pos) < *final(pos) <= s@.len(),
            Err(e) => spec_code_section(s@, *old(pos) as int, funcs_view(funcs@))
                == Err::<(Seq<FuncView>, int), Error>(e),
        },
{
    let mut p: usize = *pos;
    let slen: u32 = match read_uleb32(s, &mut p) {
        Ok(v) => v,
        Err(e) => {
            return Err(e);
        },
    };
    let start: usize = p;
    let n: u32 = match read_uleb32(s, &mut p) {
        Ok(v) => v,
        Err(e) => {
            return Err(e);
        },
    };
    if n as usize != funcs.len() {
        return Err(Error::FunctionCountMismatch);
    }
    let ghost fv0: Seq<FuncView> = funcs_view(funcs@);
    let ghost entries_start: int = p as int;
    let mut out: Vec<Func> = Vec::new();
    let mut i: usize = 0;
    proof {
        assert(funcs_view(out@) + fv0.skip(0) =~= fv0);
    }
    while i < funcs.len()
        invariant
            0 <= i <= funcs@.len(),
            out@.len() == i,
            start <= p <= s@.len(),
            spec_parse_bodies(s@, entries_start, fv0, 0) == spec_parse_bodies(
                s@,
                p as int,
                funcs_view(out@) + fv0.skip(i as int),
                i as int,
            ),
        decreases funcs@.len() - i,
    {
        let ghost cur: Seq<FuncView> = funcs_view(out@) + fv0.skip(i as int);
        let lb: (Vec<Val>, Vec<Instr>) = match parse_body(s, &mut p) {
            Ok(v) => v,
            Err(e) => {
                return Err(e);
            },
        };
        let f = Func { ty: copy_functype(&funcs[i].ty), locals: lb.0, body: lb.1 };
        let ghost fv: FuncView = f@;
        out.push(f);
        proof {
            assert(cur[i as int] == fv0[i as int]);
            assert(fv == FuncView { ty: fv0[i as int].ty, locals: fv.locals, body: fv.body });
            assert(funcs_view(out@) + fv0.skip(i + 1) =~= cur.update(i as int, fv));
        }
        i = i + 1;
    }
    proof {
        assert(funcs_view(out@) + fv0.skip(i as int) =~= funcs_view(out@));
    }
    if p - start != slen as usize {
        return Err(Error::MalformedSection);
    }
    *pos = p;
    Ok(out)
}

/// Decode a whole module byte stream: magic, version, then sections until
/// the stream is exhausted.  The result is exactly what [`spec_decode`]
/// says, for every input.
#[verifier::loop_isolation(false)]
pub fn decode(bytes: &[u8]) -> (r: Result<Module, Error>)
    ensures
        match r {
            Ok(m) => spec_decode(bytes@) == Ok::<ModuleView, Error>(m@),
            Err(e) => spec_decode(bytes@) == Err::<ModuleView, Error>(e),
        },
{
    if bytes.len() < 4 {
        return Err(Error::UnexpectedEof);
    }
    if !(bytes[0] == 0x00 && bytes[1] == 0x61 && bytes[2] == 0x73 && bytes[3] == 0x6D) {
        return Err(Error::BadMagic);
    }
    if bytes.len() < 8 {
        return Err(Error::UnexpectedEof);
    }
    if !(bytes[4] == 0x01 && bytes[5] == 0x00 && bytes[6] == 0x00 && bytes[7] == 0x00) {
        return Err(Error::UnsupportedVersion);
    }
    let mut p: usize = 8;
    let mut types: Vec<FuncType> = Vec::new();
    let mut funcs: Vec<Func> = Vec::new();
    let mut exports: Vec<Export> = Vec::new();
    proof {
        assert(types_view(types@) =~= Seq::<FuncTypeView>::empty());
        assert(funcs_view(funcs@) =~= Seq::<FuncView>::empty());
        assert(exports_view(exports@) =~= Seq::<ExportView>::empty());
    }
    while p < bytes.len()
        invariant
            8 <= p <= bytes@.len(),
            spec_sections(bytes@, 8, Seq::empty(), Seq::empty(), Seq::empty()) == spec_sections(
                bytes@,
                p as int,
                types_view(types@),
                funcs_view(funcs@),
                exports_view(exports@),
            ),
        decreases bytes@.len() - p,
    {
        let id: u8 = bytes[p];
        p = p + 1;
        if id == 0x01 {
            types = match parse_type_section(bytes, &mut p) {
                Ok(v) => v,
                Err(e) => {
                    return Err(e);
                },
            };
        } else if id == 0x03 {
            funcs = match parse_function_section(bytes, &mut p, &types) {
                Ok(v) => v,
                Err(e) => {
                    return Err(e);
                },
            };
        } else if id == 0x07 {
            exports = match parse_export_section(bytes, &mut p) {
                Ok(v) => v,
                Err(e) => {
                    return Err(e);
                },
            };
        } else if id == 0x0A {
            funcs = match parse_code_section(bytes, &mut p, &funcs) {
                Ok(v) => v,
                Err(e) => {
                    return Err(e);
                },
            };
        } else {
            let l: u32 = match read_uleb32(bytes, &mut p) {
                Ok(v) => v,
                Err(e) => {
                    return Err(e);
                },
            };
            if l as usize > bytes.len() - p {
                return Err(Error::UnexpectedEof);
            }
            p = p + l as usize;
        }
    }
    Ok(Module { funcs, exports })
}

// ------------------------------------------------------------------
// laws of decoding
// ------------------------------------------------------------------

/// A stream that holds the magic, the version, and no sections at all
/// decodes to a module with no functions and no exports.
pub proof fn lemma_decode_empty_module(s: Seq<u8>)
    requires
        s.len() == 8,
        has_magic(s),
        has_version(s),
    ensures
        spec_decode(s) == Ok::<ModuleView, Error>(
            ModuleView { funcs: Seq::empty(), exports: Seq::empty() },
        ),
{
    assert(spec_sections(s, 8, Seq::empty(), Seq::empty(), Seq::empty()) == Ok::<
        ModuleView,
        Error,
    >(ModuleView { funcs: Seq::empty(), exports: Seq::empty() }));
}

/// A stream whose magic or version bytes do not match decodes to a format
/// error and to no module.
pub proof fn lemma_decode_rejects_bad_magic_or_version(s: Seq<u8>)
    requires
        !has_magic(s) || !has_version(s),
    ensures
        spec_decode(s) matches Err(e) && crate::error::is_format_error(e),
{
}

/// A function-section entry whose type index lies outside the type table
/// fails the decode with `UnknownType`, a reference error, whatever comes
/// after it.
pub proof fn lemma_function_entry_unknown_type(
    s: Seq<u8>,
    pos: int,
    types: Seq<FuncTypeView>,
    n: int,
    acc: Seq<FuncView>,
    idx: u32,
    p: int,
)
    requires
        n > 0,
        spec_uleb32(s, pos) == Ok::<(u32, int), Error>((idx, p)),
        idx >= types.len(),
    ensures
        spec_parse_func_entries(s, pos, types, n, acc) == Err::<(Seq<FuncView>, int), Error>(
            Error::UnknownType(idx),
        ),
        crate::error::is_reference_error(Error::UnknownType(idx)),
{
}

/// A section with an unknown id is skipped over its declared length and
/// changes nothing: decoding goes on behind it exactly as it would have
/// started there.
pub proof fn lemma_unknown_section_skipped(
    s: Seq<u8>,
    pos: int,
    types: Seq<FuncTypeView>,
    funcs: Seq<FuncView>,
    exports: Seq<ExportView>,
    l: u32,
    p: int,
)
    requires
        0 <= pos < s.len(),
        !known_section_id(s[pos]),
        spec_uleb32(s, pos + 1) == Ok::<(u32, int), Error>((l, p)),
        p + l <= s.len(),
    ensures
        spec_sections(s, pos, types, funcs, exports) == spec_sections(
            s,
            p + l,
            types,
            funcs,
            exports,
        ),
{
}

} // verus!
