//! Section decoders: the thirteen id-tagged, length-prefixed top-level
//! chunks of a module's binary encoding.
//!
//! Every section decoder validates its single leading id byte, reads a
//! `u32` byte length for the body, requires the body to be fully present,
//! decodes the body, and fails structurally if the body does not exactly
//! exhaust the declared length.

use vstd::prelude::*;
use vstd::slice::slice_subrange;

use crate::error::{DecodeErr, ErrorKind, FailKind, Parsed, Prod, decodes_to, err_matches};
use crate::indices::{
    FuncIdx, GlobalIdx, MemIdx, TableIdx, TypeIdx, funcidx_parser, globalidx_parser,
    memidx_parser, spec_funcidx_parser, spec_globalidx_parser, spec_memidx_parser,
    spec_tableidx_parser, spec_typeidx_parser, tableidx_parser, typeidx_parser,
};
use crate::instr::{Expr, ExprV, expr_parser, spec_expr};
use crate::leb128::{leb128_u32, spec_leb_u32};
use crate::types::{
    FuncType, FuncTypeV, GlobalType, MemType, RefType, TableType, ValType, functype_parser,
    globaltype_parser, memtype_parser, reftype_parser, spec_functype, spec_globaltype,
    spec_memtype, spec_reftype, spec_tabletype, spec_valtype, tabletype_parser, valtype_parser,
};
use crate::values::{
    name_parser, spec_counted_vec, spec_name, spec_vec_of,
    vector_count_parser, vector_parser, spec_vector,
};

verus! {

/// The greatest block nesting depth accepted inside function bodies and
/// initializer expressions; deeper nesting is a structural failure.
pub const MAX_NESTING_DEPTH: u32 = 1000;

/// Section-header outcome at `pos`: the expected id byte, then the `u32`
/// byte length of the section body; a different id byte is a structural
/// failure.
pub open spec fn spec_section_header(s: Seq<u8>, pos: int, id: u8) -> Parsed<u32> {
    if pos >= s.len() {
        Parsed::Incomplete
    } else if s[pos] != id {
        Parsed::Fail { kind: FailKind::Malformed }
    } else {
        spec_leb_u32(s, pos + 1)
    }
}

/// Validates a section's id byte and reads the byte length of its body.
fn section_header(input: &[u8], pos: usize, id: u8, prod: Prod) -> (r: Result<
    (u32, usize),
    DecodeErr,
>)
    requires
        pos <= input@.len(),
    ensures
        ({
            let sp = spec_section_header(input@, pos as int, id);
            match r {
                Ok((size, end)) => {
                    &&& sp == (Parsed::Found { v: size, end: end as int })
                    &&& pos < end <= input@.len()
                },
                Err(e) => err_matches::<u32>(e, sp, prod, pos),
            }
        }),
{
    if pos >= input.len() {
        return Err(DecodeErr::new(ErrorKind::Incomplete, prod, pos));
    }
    if input[pos] != id {
        return Err(DecodeErr::new(ErrorKind::Malformed, prod, pos));
    }
    match leb128_u32(input, pos + 1) {
        Ok(x) => Ok(x),
        Err(e) => Err(e.push(prod, pos)),
    }
}

/// A custom section: an uninterpreted, named payload.
#[derive(Debug, Clone)]
pub struct CustomSection<'a> {
    pub name: &'a str,
    pub data: &'a [u8],
}

/// Spec-level custom section.
#[verifier::ext_equal]
pub struct CustomSectionV {
    pub name: Seq<char>,
    pub data: Seq<u8>,
}

impl<'a> DeepView for CustomSection<'a> {
    type V = CustomSectionV;

    open spec fn deep_view(&self) -> CustomSectionV {
        CustomSectionV { name: self.name@, data: self.data@ }
    }
}

/// Custom-section outcome at `pos`: id 0, then a name, then all remaining
/// declared bytes as an opaque payload.
#[verifier::opaque]
pub open spec fn spec_custom_section(s: Seq<u8>, pos: int) -> Parsed<CustomSectionV> {
    match spec_section_header(s, pos, 0) {
        Parsed::Found { v: size, end: bstart } => if bstart + size > s.len() {
            Parsed::Incomplete
        } else {
            match spec_name(s, bstart) {
                Parsed::Found { v: name, end: nend } => if nend <= bstart + size {
                    Parsed::Found {
                        v: CustomSectionV { name, data: s.subrange(nend, bstart + size) },
                        end: bstart + size,
                    }
                } else {
                    Parsed::Fail { kind: FailKind::Malformed }
                },
                Parsed::Incomplete => Parsed::Incomplete,
                Parsed::Fail { kind } => Parsed::Fail { kind },
            }
        },
        Parsed::Incomplete => Parsed::Incomplete,
        Parsed::Fail { kind } => Parsed::Fail { kind },
    }
}

/// Decodes a custom section: its name, then the rest of the declared bytes
/// as an opaque payload viewed from the input.
pub fn custom_section_parser<'a>(input: &'a [u8], pos: usize) -> (r: Result<
    (CustomSection<'a>, usize),
    DecodeErr,
>)
    requires
        pos <= input@.len(),
    ensures
        decodes_to(r, spec_custom_section(input@, pos as int), Prod::CustomSection, pos),
        r matches Ok((v, end)) ==> pos < end <= input@.len(),
{
    proof {
        reveal(spec_custom_section);
    }
    let (size, bstart) = match section_header(input, pos, 0, Prod::CustomSection) {
        Ok(x) => x,
        Err(e) => {
            return Err(e);
        },
    };
    if input.len() - bstart < size as usize {
        return Err(DecodeErr::new(ErrorKind::Incomplete, Prod::CustomSection, pos));
    }
    let limit = bstart + size as usize;
    let (name, nend) = match name_parser(input, bstart) {
        Ok(x) => x,
        Err(e) => {
            return Err(e.push(Prod::CustomSection, pos));
        },
    };
    if nend > limit {
        return Err(DecodeErr::new(ErrorKind::Malformed, Prod::CustomSection, pos));
    }
    let data = slice_subrange(input, nend, limit);
    proof {
        assert(data.deep_view() =~= data@);
    }
    Ok((CustomSection { name, data }, limit))
}

/// The type section: the module's function types.
#[derive(Debug, Clone)]
pub struct TypeSection {
    pub function_types: Vec<FuncType>,
}

impl DeepView for TypeSection {
    type V = Seq<FuncTypeV>;

    open spec fn deep_view(&self) -> Seq<FuncTypeV> {
        self.function_types.deep_view()
    }
}

/// The element grammar of the type section, as a first-class spec function.
pub open spec fn functype_elem() -> spec_fn(Seq<u8>, int) -> Parsed<FuncTypeV> {
    |s: Seq<u8>, p: int| spec_functype(s, p)
}

/// Type-section outcome at `pos`: id 1, then a counted vector of function
/// types that must exactly exhaust the declared body length.
#[verifier::opaque]
pub open spec fn spec_type_section(s: Seq<u8>, pos: int) -> Parsed<Seq<FuncTypeV>> {
    match spec_section_header(s, pos, 1) {
        Parsed::Found { v: size, end: bstart } => if bstart + size > s.len() {
            Parsed::Incomplete
        } else {
            match spec_counted_vec(s, bstart, functype_elem()) {
                Parsed::Found { v, end: bend } => if bend == bstart + size {
                    Parsed::Found { v, end: bend }
                } else {
                    Parsed::Fail { kind: FailKind::Malformed }
                },
                Parsed::Incomplete => Parsed::Incomplete,
                Parsed::Fail { kind } => Parsed::Fail { kind },
            }
        },
        Parsed::Incomplete => Parsed::Incomplete,
        Parsed::Fail { kind } => Parsed::Fail { kind },
    }
}

/// Decodes the type section: a vector of function types.
pub fn type_section_parser(input: &[u8], pos: usize) -> (r: Result<
    (TypeSection, usize),
    DecodeErr,
>)
    requires
        pos <= input@.len(),
    ensures
        decodes_to(r, spec_type_section(input@, pos as int), Prod::TypeSection, pos),
        r matches Ok((v, end)) ==> pos < end <= input@.len(),
{
    proof {
        reveal(spec_type_section);
    }
    let (size, bstart) = match section_header(input, pos, 1, Prod::TypeSection) {
        Ok(x) => x,
        Err(e) => {
            return Err(e);
        },
    };
    if input.len() - bstart < size as usize {
        return Err(DecodeErr::new(ErrorKind::Incomplete, Prod::TypeSection, pos));
    }
    let limit = bstart + size as usize;
    let (n, start) = match vector_count_parser(input, bstart) {
        Ok(x) => x,
        Err(e) => {
            return Err(e.push(Prod::TypeSection, pos));
        },
    };
    let mut out: Vec<FuncType> = Vec::new();
    let mut cur: usize = start;
    let mut i: u32 = 0;
    proof {
        assert(out.deep_view() =~= Seq::<FuncTypeV>::empty());
    }
    #[verifier::loop_isolation(false)]
    while i < n
        invariant
            0 <= i <= n,
            pos < cur <= input@.len(),
            spec_counted_vec(input@, bstart as int, functype_elem()) == (match spec_vec_of(
                input@,
                cur as int,
                (n - i) as nat,
                functype_elem(),
            ) {
                Parsed::Found { v: rest, end } => Parsed::Found {
                    v: out.deep_view() + rest,
                    end,
                },
                Parsed::Incomplete => Parsed::<Seq<FuncTypeV>>::Incomplete,
                Parsed::Fail { kind } => Parsed::<Seq<FuncTypeV>>::Fail { kind },
            }),
        decreases n - i,
    {
        let ghost pre = out.deep_view();
        match functype_parser(input, cur) {
            Ok((v, end)) => {
                out.push(v);
                proof {
                    assert(out.deep_view() =~= pre.push(v.deep_view()));
                    match spec_vec_of(input@, end as int, (n - i - 1) as nat, functype_elem()) {
                        Parsed::Found { v: r2, end: e2 } => {
                            assert(pre + (seq![v.deep_view()] + r2) =~= pre.push(v.deep_view())
                                + r2);
                        },
                        _ => {},
                    }
                }
                cur = end;
                i = i + 1;
            },
            Err(e) => {
                return Err(e.push(Prod::TypeSection, pos));
            },
        }
    }
    proof {
        assert(out.deep_view() + Seq::<FuncTypeV>::empty() =~= out.deep_view());
    }
    if cur != limit {
        return Err(DecodeErr::new(ErrorKind::Malformed, Prod::TypeSection, pos));
    }
    Ok((TypeSection { function_types: out }, cur))
}


/// One table definition: its table type.
#[derive(Debug, Clone)]
pub struct Table {
    pub table_type: TableType,
}

impl DeepView for Table {
    type V = Table;

    open spec fn deep_view(&self) -> Table {
        *self
    }
}

/// One memory definition: its memory type.
#[derive(Debug, Clone)]
pub struct Mem {
    pub mem_type: MemType,
}

impl DeepView for Mem {
    type V = Mem;

    open spec fn deep_view(&self) -> Mem {
        *self
    }
}


/// The function section: the type index of each function defined in the
/// module.
#[derive(Debug, Clone)]
pub struct FuncSection {
    pub functions: Vec<TypeIdx>,
}

impl DeepView for FuncSection {
    type V = Seq<TypeIdx>;

    open spec fn deep_view(&self) -> Seq<TypeIdx> {
        self.functions.deep_view()
    }
}

/// The element grammar of the function section, as a first-class spec
/// function.
pub open spec fn typeidx_elem() -> spec_fn(Seq<u8>, int) -> Parsed<TypeIdx> {
    |s: Seq<u8>, p: int| spec_typeidx_parser(s, p)
}

/// Function-section outcome at `pos`: id 3, then a counted vector of
/// type indices that must exactly exhaust the declared body length.
#[verifier::opaque]
pub open spec fn spec_func_section(s: Seq<u8>, pos: int) -> Parsed<Seq<TypeIdx>> {
    match spec_section_header(s, pos, 3) {
        Parsed::Found { v: size, end: bstart } => if bstart + size > s.len() {
            Parsed::Incomplete
        } else {
            match spec_counted_vec(s, bstart, typeidx_elem()) {
                Parsed::Found { v, end: bend } => if bend == bstart + size {
                    Parsed::Found { v, end: bend }
                } else {
                    Parsed::Fail { kind: FailKind::Malformed }
                },
                Parsed::Incomplete => Parsed::Incomplete,
                Parsed::Fail { kind } => Parsed::Fail { kind },
            }
        },
        Parsed::Incomplete => Parsed::Incomplete,
        Parsed::Fail { kind } => Parsed::Fail { kind },
    }
}

/// Decodes the function section: a vector of type indices.
pub fn func_section_parser(input: &[u8], pos: usize) -> (r: Result<
    (FuncSection, usize),
    DecodeErr,
>)
    requires
        pos <= input@.len(),
    ensures
        decodes_to(r, spec_func_section(input@, pos as int), Prod::FuncSection, pos),
        r matches Ok((v, end)) ==> pos < end <= input@.len(),
{
    proof {
        reveal(spec_func_section);
    }
    let (size, bstart) = match section_header(input, pos, 3, Prod::FuncSection) {
        Ok(x) => x,
        Err(e) => {
            return Err(e);
        },
    };
    if input.len() - bstart < size as usize {
        return Err(DecodeErr::new(ErrorKind::Incomplete, Prod::FuncSection, pos));
    }
    let limit = bstart + size as usize;
    let (n, start) = match vector_count_parser(input, bstart) {
        Ok(x) => x,
        Err(e) => {
            return Err(e.push(Prod::FuncSection, pos));
        },
    };
    let mut out: Vec<TypeIdx> = Vec::new();
    let mut cur: usize = start;
    let mut i: u32 = 0;
    proof {
        assert(out.deep_view() =~= Seq::<TypeIdx>::empty());
    }
    #[verifier::loop_isolation(false)]
    while i < n
        invariant
            0 <= i <= n,
            pos < cur <= input@.len(),
            spec_counted_vec(input@, bstart as int, typeidx_elem()) == (match spec_vec_of(
                input@,
                cur as int,
                (n - i) as nat,
                typeidx_elem(),
            ) {
                Parsed::Found { v: rest, end } => Parsed::Found {
                    v: out.deep_view() + rest,
                    end,
                },
                Parsed::Incomplete => Parsed::<Seq<TypeIdx>>::Incomplete,
                Parsed::Fail { kind } => Parsed::<Seq<TypeIdx>>::Fail { kind },
            }),
        decreases n - i,
    {
        let ghost pre = out.deep_view();
        match typeidx_parser(input, cur) {
            Ok((v, end)) => {
                out.push(v);
                proof {
                    assert(out.deep_view() =~= pre.push(v));
                    match spec_vec_of(input@, end as int, (n - i - 1) as nat, typeidx_elem()) {
                        Parsed::Found { v: r2, end: e2 } => {
                            assert(pre + (seq![v] + r2) =~= pre.push(v) + r2);
                        },
                        _ => {},
                    }
                }
                cur = end;
                i = i + 1;
            },
            Err(e) => {
                return Err(e.push(Prod::FuncSection, pos));
            },
        }
    }
    proof {
        assert(out.deep_view() + Seq::<TypeIdx>::empty() =~= out.deep_view());
    }
    if cur != limit {
        return Err(DecodeErr::new(ErrorKind::Malformed, Prod::FuncSection, pos));
    }
    Ok((FuncSection { functions: out }, cur))
}


/// The table section: the tables defined in the module.
#[derive(Debug, Clone)]
pub struct TableSection {
    pub tables: Vec<Table>,
}

impl DeepView for TableSection {
    type V = Seq<Table>;

    open spec fn deep_view(&self) -> Seq<Table> {
        self.tables.deep_view()
    }
}

/// The element grammar of the table section, as a first-class spec
/// function.
pub open spec fn table_elem() -> spec_fn(Seq<u8>, int) -> Parsed<Table> {
    |s: Seq<u8>, p: int| match spec_tabletype(s, p) {
        Parsed::Found { v, end } => Parsed::Found { v: Table { table_type: v }, end },
        Parsed::Incomplete => Parsed::Incomplete,
        Parsed::Fail { kind } => Parsed::Fail { kind },
    }
}

/// Table-section outcome at `pos`: id 4, then a counted vector of
/// table types that must exactly exhaust the declared body length.
#[verifier::opaque]
pub open spec fn spec_table_section(s: Seq<u8>, pos: int) -> Parsed<Seq<Table>> {
    match spec_section_header(s, pos, 4) {
        Parsed::Found { v: size, end: bstart } => if bstart + size > s.len() {
            Parsed::Incomplete
        } else {
            match spec_counted_vec(s, bstart, table_elem()) {
                Parsed::Found { v, end: bend } => if bend == bstart + size {
                    Parsed::Found { v, end: bend }
                } else {
                    Parsed::Fail { kind: FailKind::Malformed }
                },
                Parsed::Incomplete => Parsed::Incomplete,
                Parsed::Fail { kind } => Parsed::Fail { kind },
            }
        },
        Parsed::Incomplete => Parsed::Incomplete,
        Parsed::Fail { kind } => Parsed::Fail { kind },
    }
}

/// Decodes the table section: a vector of table types.
pub fn table_section_parser(input: &[u8], pos: usize) -> (r: Result<
    (TableSection, usize),
    DecodeErr,
>)
    requires
        pos <= input@.len(),
    ensures
        decodes_to(r, spec_table_section(input@, pos as int), Prod::TableSection, pos),
        r matches Ok((v, end)) ==> pos < end <= input@.len(),
{
    proof {
        reveal(spec_table_section);
    }
    let (size, bstart) = match section_header(input, pos, 4, Prod::TableSection) {
        Ok(x) => x,
        Err(e) => {
            return Err(e);
        },
    };
    if input.len() - bstart < size as usize {
        return Err(DecodeErr::new(ErrorKind::Incomplete, Prod::TableSection, pos));
    }
    let limit = bstart + size as usize;
    let (n, start) = match vector_count_parser(input, bstart) {
        Ok(x) => x,
        Err(e) => {
            return Err(e.push(Prod::TableSection, pos));
        },
    };
    let mut out: Vec<Table> = Vec::new();
    let mut cur: usize = start;
    let mut i: u32 = 0;
    proof {
        assert(out.deep_view() =~= Seq::<Table>::empty());
    }
    #[verifier::loop_isolation(false)]
    while i < n
        invariant
            0 <= i <= n,
            pos < cur <= input@.len(),
            spec_counted_vec(input@, bstart as int, table_elem()) == (match spec_vec_of(
                input@,
                cur as int,
                (n - i) as nat,
                table_elem(),
            ) {
                Parsed::Found { v: rest, end } => Parsed::Found {
                    v: out.deep_view() + rest,
                    end,
                },
                Parsed::Incomplete => Parsed::<Seq<Table>>::Incomplete,
                Parsed::Fail { kind } => Parsed::<Seq<Table>>::Fail { kind },
            }),
        decreases n - i,
    {
        let ghost pre = out.deep_view();
        match tabletype_parser(input, cur) {
            Ok((v, end)) => {
                out.push(Table { table_type: v });
                proof {
                    assert(out.deep_view() =~= pre.push((Table { table_type: v })));
                    match spec_vec_of(input@, end as int, (n - i - 1) as nat, table_elem()) {
                        Parsed::Found { v: r2, end: e2 } => {
                            assert(pre + (seq![(Table { table_type: v })] + r2) =~= pre.push((Table { table_type: v })) + r2);
                        },
                        _ => {},
                    }
                }
                cur = end;
                i = i + 1;
            },
            Err(e) => {
                return Err(e.push(Prod::TableSection, pos));
            },
        }
    }
    proof {
        assert(out.deep_view() + Seq::<Table>::empty() =~= out.deep_view());
    }
    if cur != limit {
        return Err(DecodeErr::new(ErrorKind::Malformed, Prod::TableSection, pos));
    }
    Ok((TableSection { tables: out }, cur))
}


/// The memory section: the memories defined in the module.
#[derive(Debug, Clone)]
pub struct MemSection {
    pub tables: Vec<Mem>,
}

impl DeepView for MemSection {
    type V = Seq<Mem>;

    open spec fn deep_view(&self) -> Seq<Mem> {
        self.tables.deep_view()
    }
}

/// The element grammar of the memory section, as a first-class spec
/// function.
pub open spec fn mem_elem() -> spec_fn(Seq<u8>, int) -> Parsed<Mem> {
    |s: Seq<u8>, p: int| match spec_memtype(s, p) {
        Parsed::Found { v, end } => Parsed::Found { v: Mem { mem_type: v }, end },
        Parsed::Incomplete => Parsed::Incomplete,
        Parsed::Fail { kind } => Parsed::Fail { kind },
    }
}

/// Memory-section outcome at `pos`: id 5, then a counted vector of
/// memory types that must exactly exhaust the declared body length.
#[verifier::opaque]
pub open spec fn spec_memory_section(s: Seq<u8>, pos: int) -> Parsed<Seq<Mem>> {
    match spec_section_header(s, pos, 5) {
        Parsed::Found { v: size, end: bstart } => if bstart + size > s.len() {
            Parsed::Incomplete
        } else {
            match spec_counted_vec(s, bstart, mem_elem()) {
                Parsed::Found { v, end: bend } => if bend == bstart + size {
                    Parsed::Found { v, end: bend }
                } else {
                    Parsed::Fail { kind: FailKind::Malformed }
                },
                Parsed::Incomplete => Parsed::Incomplete,
                Parsed::Fail { kind } => Parsed::Fail { kind },
            }
        },
        Parsed::Incomplete => Parsed::Incomplete,
        Parsed::Fail { kind } => Parsed::Fail { kind },
    }
}

/// Decodes the memory section: a vector of memory types.
pub fn memory_section_parser(input: &[u8], pos: usize) -> (r: Result<
    (MemSection, usize),
    DecodeErr,
>)
    requires
        pos <= input@.len(),
    ensures
        decodes_to(r, spec_memory_section(input@, pos as int), Prod::MemorySection, pos),
        r matches Ok((v, end)) ==> pos < end <= input@.len(),
{
    proof {
        reveal(spec_memory_section);
    }
    let (size, bstart) = match section_header(input, pos, 5, Prod::MemorySection) {
        Ok(x) => x,
        Err(e) => {
            return Err(e);
        },
    };
    if input.len() - bstart < size as usize {
        return Err(DecodeErr::new(ErrorKind::Incomplete, Prod::MemorySection, pos));
    }
    let limit = bstart + size as usize;
    let (n, start) = match vector_count_parser(input, bstart) {
        Ok(x) => x,
        Err(e) => {
            return Err(e.push(Prod::MemorySection, pos));
        },
    };
    let mut out: Vec<Mem> = Vec::new();
    let mut cur: usize = start;
    let mut i: u32 = 0;
    proof {
        assert(out.deep_view() =~= Seq::<Mem>::empty());
    }
    #[verifier::loop_isolation(false)]
    while i < n
        invariant
            0 <= i <= n,
            pos < cur <= input@.len(),
            spec_counted_vec(input@, bstart as int, mem_elem()) == (match spec_vec_of(
                input@,
                cur as int,
                (n - i) as nat,
                mem_elem(),
            ) {
                Parsed::Found { v: rest, end } => Parsed::Found {
                    v: out.deep_view() + rest,
                    end,
                },
                Parsed::Incomplete => Parsed::<Seq<Mem>>::Incomplete,
                Parsed::Fail { kind } => Parsed::<Seq<Mem>>::Fail { kind },
            }),
        decreases n - i,
    {
        let ghost pre = out.deep_view();
        match memtype_parser(input, cur) {
            Ok((v, end)) => {
                out.push(Mem { mem_type: v });
                proof {
                    assert(out.deep_view() =~= pre.push((Mem { mem_type: v })));
                    match spec_vec_of(input@, end as int, (n - i - 1) as nat, mem_elem()) {
                        Parsed::Found { v: r2, end: e2 } => {
                            assert(pre + (seq![(Mem { mem_type: v })] + r2) =~= pre.push((Mem { mem_type: v })) + r2);
                        },
                        _ => {},
                    }
                }
                cur = end;
                i = i + 1;
            },
            Err(e) => {
                return Err(e.push(Prod::MemorySection, pos));
            },
        }
    }
    proof {
        assert(out.deep_view() + Seq::<Mem>::empty() =~= out.deep_view());
    }
    if cur != limit {
        return Err(DecodeErr::new(ErrorKind::Malformed, Prod::MemorySection, pos));
    }
    Ok((MemSection { tables: out }, cur))
}


/// The start section: the function invoked when the module is instantiated.
#[derive(Debug, Clone)]
pub struct StartSection {
    pub start: FuncIdx,
}

impl DeepView for StartSection {
    type V = StartSection;

    open spec fn deep_view(&self) -> StartSection {
        *self
    }
}

/// Start-section outcome at `pos`: id 8, then a single function index that
/// must exactly exhaust the declared body length.
#[verifier::opaque]
pub open spec fn spec_start_section(s: Seq<u8>, pos: int) -> Parsed<StartSection> {
    match spec_section_header(s, pos, 8) {
        Parsed::Found { v: size, end: bstart } => if bstart + size > s.len() {
            Parsed::Incomplete
        } else {
            match spec_funcidx_parser(s, bstart) {
                Parsed::Found { v, end: bend } => if bend == bstart + size {
                    Parsed::Found { v: StartSection { start: v }, end: bend }
                } else {
                    Parsed::Fail { kind: FailKind::Malformed }
                },
                Parsed::Incomplete => Parsed::Incomplete,
                Parsed::Fail { kind } => Parsed::Fail { kind },
            }
        },
        Parsed::Incomplete => Parsed::Incomplete,
        Parsed::Fail { kind } => Parsed::Fail { kind },
    }
}

/// Decodes the start section: a single function index.
pub fn start_section_parser(input: &[u8], pos: usize) -> (r: Result<
    (StartSection, usize),
    DecodeErr,
>)
    requires
        pos <= input@.len(),
    ensures
        decodes_to(r, spec_start_section(input@, pos as int), Prod::StartSection, pos),
        r matches Ok((v, end)) ==> pos < end <= input@.len(),
{
    proof {
        reveal(spec_start_section);
    }
    let (size, bstart) = match section_header(input, pos, 8, Prod::StartSection) {
        Ok(x) => x,
        Err(e) => {
            return Err(e);
        },
    };
    if input.len() - bstart < size as usize {
        return Err(DecodeErr::new(ErrorKind::Incomplete, Prod::StartSection, pos));
    }
    let limit = bstart + size as usize;
    let (start, bend) = match funcidx_parser(input, bstart) {
        Ok(x) => x,
        Err(e) => {
            return Err(e.push(Prod::StartSection, pos));
        },
    };
    if bend != limit {
        return Err(DecodeErr::new(ErrorKind::Malformed, Prod::StartSection, pos));
    }
    Ok((StartSection { start }, bend))
}

/// The data count section: the number of data segments, ahead of the code
/// section.
#[derive(Debug, Clone)]
pub struct DataCountSection {
    pub count: u32,
}

impl DeepView for DataCountSection {
    type V = DataCountSection;

    open spec fn deep_view(&self) -> DataCountSection {
        *self
    }
}

/// Data-count-section outcome at `pos`: id 12, then a single `u32` that
/// must exactly exhaust the declared body length.
#[verifier::opaque]
pub open spec fn spec_data_count_section(s: Seq<u8>, pos: int) -> Parsed<DataCountSection> {
    match spec_section_header(s, pos, 12) {
        Parsed::Found { v: size, end: bstart } => if bstart + size > s.len() {
            Parsed::Incomplete
        } else {
            match spec_leb_u32(s, bstart) {
                Parsed::Found { v, end: bend } => if bend == bstart + size {
                    Parsed::Found { v: DataCountSection { count: v }, end: bend }
                } else {
                    Parsed::Fail { kind: FailKind::Malformed }
                },
                Parsed::Incomplete => Parsed::Incomplete,
                Parsed::Fail { kind } => Parsed::Fail { kind },
            }
        },
        Parsed::Incomplete => Parsed::Incomplete,
        Parsed::Fail { kind } => Parsed::Fail { kind },
    }
}

/// Decodes the data count section: a single `u32`.
pub fn data_count_section_parser(input: &[u8], pos: usize) -> (r: Result<
    (DataCountSection, usize),
    DecodeErr,
>)
    requires
        pos <= input@.len(),
    ensures
        decodes_to(r, spec_data_count_section(input@, pos as int), Prod::DataCountSection, pos),
        r matches Ok((v, end)) ==> pos < end <= input@.len(),
{
    proof {
        reveal(spec_data_count_section);
    }
    let (size, bstart) = match section_header(input, pos, 12, Prod::DataCountSection) {
        Ok(x) => x,
        Err(e) => {
            return Err(e);
        },
    };
    if input.len() - bstart < size as usize {
        return Err(DecodeErr::new(ErrorKind::Incomplete, Prod::DataCountSection, pos));
    }
    let limit = bstart + size as usize;
    let (count, bend) = match leb128_u32(input, bstart) {
        Ok(x) => x,
        Err(e) => {
            return Err(e.push(Prod::DataCountSection, pos));
        },
    };
    if bend != limit {
        return Err(DecodeErr::new(ErrorKind::Malformed, Prod::DataCountSection, pos));
    }
    Ok((DataCountSection { count }, bend))
}


/// What an import provides: a function of a given type, a table, a memory,
/// or a global.
#[derive(Debug, Clone)]
pub enum ImportDesc {
    Func(TypeIdx),
    Table(TableType),
    Mem(MemType),
    Global(GlobalType),
}

impl DeepView for ImportDesc {
    type V = ImportDesc;

    open spec fn deep_view(&self) -> ImportDesc {
        *self
    }
}

/// One import: the module it comes from, its name there, and what it
/// provides.
#[derive(Debug, Clone)]
pub struct Import<'a> {
    pub mod_name: &'a str,
    pub name: &'a str,
    pub desc: ImportDesc,
}

/// Spec-level import.
#[verifier::ext_equal]
pub struct ImportV {
    pub mod_name: Seq<char>,
    pub name: Seq<char>,
    pub desc: ImportDesc,
}

impl<'a> DeepView for Import<'a> {
    type V = ImportV;

    open spec fn deep_view(&self) -> ImportV {
        ImportV { mod_name: self.mod_name@, name: self.name@, desc: self.desc }
    }
}

/// The import section: everything the module imports.
#[derive(Debug, Clone)]
pub struct ImportSection<'a> {
    pub imports: Vec<Import<'a>>,
}

impl<'a> DeepView for ImportSection<'a> {
    type V = Seq<ImportV>;

    open spec fn deep_view(&self) -> Seq<ImportV> {
        self.imports.deep_view()
    }
}

/// Import-description outcome at `pos`: a tag byte selecting a type index,
/// a table type, a memory type or a global type; an unknown tag is a
/// structural failure.
pub open spec fn spec_import_desc(s: Seq<u8>, pos: int) -> Parsed<ImportDesc> {
    if pos >= s.len() {
        Parsed::Incomplete
    } else if s[pos] == 0x00 {
        match spec_typeidx_parser(s, pos + 1) {
            Parsed::Found { v, end } => Parsed::Found { v: ImportDesc::Func(v), end },
            Parsed::Incomplete => Parsed::Incomplete,
            Parsed::Fail { kind } => Parsed::Fail { kind },
        }
    } else if s[pos] == 0x01 {
        match spec_tabletype(s, pos + 1) {
            Parsed::Found { v, end } => Parsed::Found { v: ImportDesc::Table(v), end },
            Parsed::Incomplete => Parsed::Incomplete,
            Parsed::Fail { kind } => Parsed::Fail { kind },
        }
    } else if s[pos] == 0x02 {
        match spec_memtype(s, pos + 1) {
            Parsed::Found { v, end } => Parsed::Found { v: ImportDesc::Mem(v), end },
            Parsed::Incomplete => Parsed::Incomplete,
            Parsed::Fail { kind } => Parsed::Fail { kind },
        }
    } else if s[pos] == 0x03 {
        match spec_globaltype(s, pos + 1) {
            Parsed::Found { v, end } => Parsed::Found { v: ImportDesc::Global(v), end },
            Parsed::Incomplete => Parsed::Incomplete,
            Parsed::Fail { kind } => Parsed::Fail { kind },
        }
    } else {
        Parsed::Fail { kind: FailKind::Malformed }
    }
}

/// Decodes an import description: a tag byte, then the imported item's
/// type.
fn import_desc_parser(input: &[u8], pos: usize) -> (r: Result<(ImportDesc, usize), DecodeErr>)
    requires
        pos <= input@.len(),
    ensures
        decodes_to(r, spec_import_desc(input@, pos as int), Prod::ImportDesc, pos),
        r matches Ok((v, end)) ==> pos < end <= input@.len(),
{
    if pos >= input.len() {
        return Err(DecodeErr::new(ErrorKind::Incomplete, Prod::ImportDesc, pos));
    }
    let tag = input[pos];
    if tag == 0x00 {
        match typeidx_parser(input, pos + 1) {
            Ok((v, end)) => Ok((ImportDesc::Func(v), end)),
            Err(e) => Err(e.push(Prod::ImportDesc, pos)),
        }
    } else if tag == 0x01 {
        match tabletype_parser(input, pos + 1) {
            Ok((v, end)) => Ok((ImportDesc::Table(v), end)),
            Err(e) => Err(e.push(Prod::ImportDesc, pos)),
        }
    } else if tag == 0x02 {
        match memtype_parser(input, pos + 1) {
            Ok((v, end)) => Ok((ImportDesc::Mem(v), end)),
            Err(e) => Err(e.push(Prod::ImportDesc, pos)),
        }
    } else if tag == 0x03 {
        match globaltype_parser(input, pos + 1) {
            Ok((v, end)) => Ok((ImportDesc::Global(v), end)),
            Err(e) => Err(e.push(Prod::ImportDesc, pos)),
        }
    } else {
        Err(DecodeErr::new(ErrorKind::Malformed, Prod::ImportDesc, pos))
    }
}

/// Import outcome at `pos`: the source module's name, the imported name,
/// then the import description.
pub open spec fn spec_import(s: Seq<u8>, pos: int) -> Parsed<ImportV> {
    match spec_name(s, pos) {
        Parsed::Found { v: mod_name, end: e1 } => match spec_name(s, e1) {
            Parsed::Found { v: name, end: e2 } => match spec_import_desc(s, e2) {
                Parsed::Found { v: desc, end: e3 } => Parsed::Found {
                    v: ImportV { mod_name, name, desc },
                    end: e3,
                },
                Parsed::Incomplete => Parsed::Incomplete,
                Parsed::Fail { kind } => Parsed::Fail { kind },
            },
            Parsed::Incomplete => Parsed::Incomplete,
            Parsed::Fail { kind } => Parsed::Fail { kind },
        },
        Parsed::Incomplete => Parsed::Incomplete,
        Parsed::Fail { kind } => Parsed::Fail { kind },
    }
}

/// Decodes one import: two names, then the import description.
fn import_parser<'a>(input: &'a [u8], pos: usize) -> (r: Result<(Import<'a>, usize), DecodeErr>)
    requires
        pos <= input@.len(),
    ensures
        decodes_to(r, spec_import(input@, pos as int), Prod::Import, pos),
        r matches Ok((v, end)) ==> pos < end <= input@.len(),
{
    let (mod_name, e1) = match name_parser(input, pos) {
        Ok(x) => x,
        Err(e) => {
            return Err(e.push(Prod::Import, pos));
        },
    };
    let (name, e2) = match name_parser(input, e1) {
        Ok(x) => x,
        Err(e) => {
            return Err(e.push(Prod::Import, pos));
        },
    };
    match import_desc_parser(input, e2) {
        Ok((desc, e3)) => Ok((Import { mod_name, name, desc }, e3)),
        Err(e) => Err(e.push(Prod::Import, pos)),
    }
}


/// The element grammar of the import section, as a first-class spec
/// function.
pub open spec fn import_elem() -> spec_fn(Seq<u8>, int) -> Parsed<ImportV> {
    |s: Seq<u8>, p: int| spec_import(s, p)
}

/// Import-section outcome at `pos`: id 2, then a counted vector of
/// imports that must exactly exhaust the declared body length.
#[verifier::opaque]
pub open spec fn spec_import_section(s: Seq<u8>, pos: int) -> Parsed<Seq<ImportV>> {
    match spec_section_header(s, pos, 2) {
        Parsed::Found { v: size, end: bstart } => if bstart + size > s.len() {
            Parsed::Incomplete
        } else {
            match spec_counted_vec(s, bstart, import_elem()) {
                Parsed::Found { v, end: bend } => if bend == bstart + size {
                    Parsed::Found { v, end: bend }
                } else {
                    Parsed::Fail { kind: FailKind::Malformed }
                },
                Parsed::Incomplete => Parsed::Incomplete,
                Parsed::Fail { kind } => Parsed::Fail { kind },
            }
        },
        Parsed::Incomplete => Parsed::Incomplete,
        Parsed::Fail { kind } => Parsed::Fail { kind },
    }
}

/// Decodes the import section: a vector of imports.
pub fn import_section_parser<'a>(input: &'a [u8], pos: usize) -> (r: Result<
    (ImportSection<'a>, usize),
    DecodeErr,
>)
    requires
        pos <= input@.len(),
    ensures
        decodes_to(r, spec_import_section(input@, pos as int), Prod::ImportSection, pos),
        r matches Ok((v, end)) ==> pos < end <= input@.len(),
{
    proof {
        reveal(spec_import_section);
    }
    let (size, bstart) = match section_header(input, pos, 2, Prod::ImportSection) {
        Ok(x) => x,
        Err(e) => {
            return Err(e);
        },
    };
    if input.len() - bstart < size as usize {
        return Err(DecodeErr::new(ErrorKind::Incomplete, Prod::ImportSection, pos));
    }
    let limit = bstart + size as usize;
    let (n, start) = match vector_count_parser(input, bstart) {
        Ok(x) => x,
        Err(e) => {
            return Err(e.push(Prod::ImportSection, pos));
        },
    };
    let mut out: Vec<Import<'a>> = Vec::new();
    let mut cur: usize = start;
    let mut i: u32 = 0;
    proof {
        assert(out.deep_view() =~= Seq::<ImportV>::empty());
    }
    #[verifier::loop_isolation(false)]
    while i < n
        invariant
            0 <= i <= n,
            pos < cur <= input@.len(),
            spec_counted_vec(input@, bstart as int, import_elem()) == (match spec_vec_of(
                input@,
                cur as int,
                (n - i) as nat,
                import_elem(),
            ) {
                Parsed::Found { v: rest, end } => Parsed::Found {
                    v: out.deep_view() + rest,
                    end,
                },
                Parsed::Incomplete => Parsed::<Seq<ImportV>>::Incomplete,
                Parsed::Fail { kind } => Parsed::<Seq<ImportV>>::Fail { kind },
            }),
        decreases n - i,
    {
        let ghost pre = out.deep_view();
        match import_parser(input, cur) {
            Ok((v, end)) => {
                out.push(v);
                proof {
                    assert(out.deep_view() =~= pre.push(v.deep_view()));
                    match spec_vec_of(input@, end as int, (n - i - 1) as nat, import_elem()) {
                        Parsed::Found { v: r2, end: e2 } => {
                            assert(pre + (seq![v.deep_view()] + r2) =~= pre.push(v.deep_view()) + r2);
                        },
                        _ => {},
                    }
                }
                cur = end;
                i = i + 1;
            },
            Err(e) => {
                return Err(e.push(Prod::ImportSection, pos));
            },
        }
    }
    proof {
        assert(out.deep_view() + Seq::<ImportV>::empty() =~= out.deep_view());
    }
    if cur != limit {
        return Err(DecodeErr::new(ErrorKind::Malformed, Prod::ImportSection, pos));
    }
    Ok((ImportSection { imports: out }, cur))
}


/// What an export exposes: a function, table, memory or global, by index.
#[derive(Debug, Clone)]
pub enum ExportDesc {
    Func(FuncIdx),
    Table(TableIdx),
    Mem(MemIdx),
    Global(GlobalIdx),
}

impl DeepView for ExportDesc {
    type V = ExportDesc;

    open spec fn deep_view(&self) -> ExportDesc {
        *self
    }
}

/// One export: its name and what it exposes.
#[derive(Debug, Clone)]
pub struct Export<'a> {
    pub name: &'a str,
    pub desc: ExportDesc,
}

/// Spec-level export.
#[verifier::ext_equal]
pub struct ExportV {
    pub name: Seq<char>,
    pub desc: ExportDesc,
}

impl<'a> DeepView for Export<'a> {
    type V = ExportV;

    open spec fn deep_view(&self) -> ExportV {
        ExportV { name: self.name@, desc: self.desc }
    }
}

/// The export section: everything the module exports.
#[derive(Debug, Clone)]
pub struct ExportSec<'a> {
    pub exports: Vec<Export<'a>>,
}

impl<'a> DeepView for ExportSec<'a> {
    type V = Seq<ExportV>;

    open spec fn deep_view(&self) -> Seq<ExportV> {
        self.exports.deep_view()
    }
}

/// Export-description outcome at `pos`: a tag byte selecting the index
/// space, then the index; an unknown tag is a structural failure.
pub open spec fn spec_export_desc(s: Seq<u8>, pos: int) -> Parsed<ExportDesc> {
    if pos >= s.len() {
        Parsed::Incomplete
    } else if s[pos] == 0x00 {
        match spec_funcidx_parser(s, pos + 1) {
            Parsed::Found { v, end } => Parsed::Found { v: ExportDesc::Func(v), end },
            Parsed::Incomplete => Parsed::Incomplete,
            Parsed::Fail { kind } => Parsed::Fail { kind },
        }
    } else if s[pos] == 0x01 {
        match spec_tableidx_parser(s, pos + 1) {
            Parsed::Found { v, end } => Parsed::Found { v: ExportDesc::Table(v), end },
            Parsed::Incomplete => Parsed::Incomplete,
            Parsed::Fail { kind } => Parsed::Fail { kind },
        }
    } else if s[pos] == 0x02 {
        match spec_memidx_parser(s, pos + 1) {
            Parsed::Found { v, end } => Parsed::Found { v: ExportDesc::Mem(v), end },
            Parsed::Incomplete => Parsed::Incomplete,
            Parsed::Fail { kind } => Parsed::Fail { kind },
        }
    } else if s[pos] == 0x03 {
        match spec_globalidx_parser(s, pos + 1) {
            Parsed::Found { v, end } => Parsed::Found { v: ExportDesc::Global(v), end },
            Parsed::Incomplete => Parsed::Incomplete,
            Parsed::Fail { kind } => Parsed::Fail { kind },
        }
    } else {
        Parsed::Fail { kind: FailKind::Malformed }
    }
}

/// Decodes an export description: a tag byte, then an index in the matching
/// index space.
fn export_desc_parser(input: &[u8], pos: usize) -> (r: Result<(ExportDesc, usize), DecodeErr>)
    requires
        pos <= input@.len(),
    ensures
        decodes_to(r, spec_export_desc(input@, pos as int), Prod::ExportDesc, pos),
        r matches Ok((v, end)) ==> pos < end <= input@.len(),
{
    if pos >= input.len() {
        return Err(DecodeErr::new(ErrorKind::Incomplete, Prod::ExportDesc, pos));
    }
    let tag = input[pos];
    if tag == 0x00 {
        match funcidx_parser(input, pos + 1) {
            Ok((v, end)) => Ok((ExportDesc::Func(v), end)),
            Err(e) => Err(e.push(Prod::ExportDesc, pos)),
        }
    } else if tag == 0x01 {
        match tableidx_parser(input, pos + 1) {
            Ok((v, end)) => Ok((ExportDesc::Table(v), end)),
            Err(e) => Err(e.push(Prod::ExportDesc, pos)),
        }
    } else if tag == 0x02 {
        match memidx_parser(input, pos + 1) {
            Ok((v, end)) => Ok((ExportDesc::Mem(v), end)),
            Err(e) => Err(e.push(Prod::ExportDesc, pos)),
        }
    } else if tag == 0x03 {
        match globalidx_parser(input, pos + 1) {
            Ok((v, end)) => Ok((ExportDesc::Global(v), end)),
            Err(e) => Err(e.push(Prod::ExportDesc, pos)),
        }
    } else {
        Err(DecodeErr::new(ErrorKind::Malformed, Prod::ExportDesc, pos))
    }
}

/// Export outcome at `pos`: the exported name, then the export description.
pub open spec fn spec_export(s: Seq<u8>, pos: int) -> Parsed<ExportV> {
    match spec_name(s, pos) {
        Parsed::Found { v: name, end: e1 } => match spec_export_desc(s, e1) {
            Parsed::Found { v: desc, end: e2 } => Parsed::Found {
                v: ExportV { name, desc },
                end: e2,
            },
            Parsed::Incomplete => Parsed::Incomplete,
            Parsed::Fail { kind } => Parsed::Fail { kind },
        },
        Parsed::Incomplete => Parsed::Incomplete,
        Parsed::Fail { kind } => Parsed::Fail { kind },
    }
}

/// Decodes one export: a name, then the export description.
fn export_parser<'a>(input: &'a [u8], pos: usize) -> (r: Result<(Export<'a>, usize), DecodeErr>)
    requires
        pos <= input@.len(),
    ensures
        decodes_to(r, spec_export(input@, pos as int), Prod::Export, pos),
        r matches Ok((v, end)) ==> pos < end <= input@.len(),
{
    let (name, e1) = match name_parser(input, pos) {
        Ok(x) => x,
        Err(e) => {
            return Err(e.push(Prod::Export, pos));
        },
    };
    match export_desc_parser(input, e1) {
        Ok((desc, e2)) => Ok((Export { name, desc }, e2)),
        Err(e) => Err(e.push(Prod::Export, pos)),
    }
}


/// The element grammar of the export section, as a first-class spec
/// function.
pub open spec fn export_elem() -> spec_fn(Seq<u8>, int) -> Parsed<ExportV> {
    |s: Seq<u8>, p: int| spec_export(s, p)
}

/// Export-section outcome at `pos`: id 7, then a counted vector of
/// exports that must exactly exhaust the declared body length.
#[verifier::opaque]
pub open spec fn spec_export_section(s: Seq<u8>, pos: int) -> Parsed<Seq<ExportV>> {
    match spec_section_header(s, pos, 7) {
        Parsed::Found { v: size, end: bstart } => if bstart + size > s.len() {
            Parsed::Incomplete
        } else {
            match spec_counted_vec(s, bstart, export_elem()) {
                Parsed::Found { v, end: bend } => if bend == bstart + size {
                    Parsed::Found { v, end: bend }
                } else {
                    Parsed::Fail { kind: FailKind::Malformed }
                },
                Parsed::Incomplete => Parsed::Incomplete,
                Parsed::Fail { kind } => Parsed::Fail { kind },
            }
        },
        Parsed::Incomplete => Parsed::Incomplete,
        Parsed::Fail { kind } => Parsed::Fail { kind },
    }
}

/// Decodes the export section: a vector of exports.
pub fn export_section_parser<'a>(input: &'a [u8], pos: usize) -> (r: Result<
    (ExportSec<'a>, usize),
    DecodeErr,
>)
    requires
        pos <= input@.len(),
    ensures
        decodes_to(r, spec_export_section(input@, pos as int), Prod::ExportSection, pos),
        r matches Ok((v, end)) ==> pos < end <= input@.len(),
{
    proof {
        reveal(spec_export_section);
    }
    let (size, bstart) = match section_header(input, pos, 7, Prod::ExportSection) {
        Ok(x) => x,
        Err(e) => {
            return Err(e);
        },
    };
    if input.len() - bstart < size as usize {
        return Err(DecodeErr::new(ErrorKind::Incomplete, Prod::ExportSection, pos));
    }
    let limit = bstart + size as usize;
    let (n, start) = match vector_count_parser(input, bstart) {
        Ok(x) => x,
        Err(e) => {
            return Err(e.push(Prod::ExportSection, pos));
        },
    };
    let mut out: Vec<Export<'a>> = Vec::new();
    let mut cur: usize = start;
    let mut i: u32 = 0;
    proof {
        assert(out.deep_view() =~= Seq::<ExportV>::empty());
    }
    #[verifier::loop_isolation(false)]
    while i < n
        invariant
            0 <= i <= n,
            pos < cur <= input@.len(),
            spec_counted_vec(input@, bstart as int, export_elem()) == (match spec_vec_of(
                input@,
                cur as int,
                (n - i) as nat,
                export_elem(),
            ) {
                Parsed::Found { v: rest, end } => Parsed::Found {
                    v: out.deep_view() + rest,
                    end,
                },
                Parsed::Incomplete => Parsed::<Seq<ExportV>>::Incomplete,
                Parsed::Fail { kind } => Parsed::<Seq<ExportV>>::Fail { kind },
            }),
        decreases n - i,
    {
        let ghost pre = out.deep_view();
        match export_parser(input, cur) {
            Ok((v, end)) => {
                out.push(v);
                proof {
                    assert(out.deep_view() =~= pre.push(v.deep_view()));
                    match spec_vec_of(input@, end as int, (n - i - 1) as nat, export_elem()) {
                        Parsed::Found { v: r2, end: e2 } => {
                            assert(pre + (seq![v.deep_view()] + r2) =~= pre.push(v.deep_view()) + r2);
                        },
                        _ => {},
                    }
                }
                cur = end;
                i = i + 1;
            },
            Err(e) => {
                return Err(e.push(Prod::ExportSection, pos));
            },
        }
    }
    proof {
        assert(out.deep_view() + Seq::<ExportV>::empty() =~= out.deep_view());
    }
    if cur != limit {
        return Err(DecodeErr::new(ErrorKind::Malformed, Prod::ExportSection, pos));
    }
    Ok((ExportSec { exports: out }, cur))
}


/// One global: its type and its constant initializer expression.
#[derive(Debug)]
pub struct Global {
    pub global_type: GlobalType,
    pub expr: Expr,
}

/// Spec-level global.
#[verifier::ext_equal]
pub struct GlobalV {
    pub global_type: GlobalType,
    pub expr: ExprV,
}

impl DeepView for Global {
    type V = GlobalV;

    open spec fn deep_view(&self) -> GlobalV {
        GlobalV { global_type: self.global_type, expr: self.expr.deep_view() }
    }
}

/// The global section: the globals defined in the module.
#[derive(Debug)]
pub struct GlobalSection {
    pub globals: Vec<Global>,
}

impl DeepView for GlobalSection {
    type V = Seq<GlobalV>;

    open spec fn deep_view(&self) -> Seq<GlobalV> {
        self.globals.deep_view()
    }
}

/// Global outcome at `pos`: a global type, then its initializer
/// expression.
pub open spec fn spec_global(s: Seq<u8>, pos: int) -> Parsed<GlobalV> {
    match spec_globaltype(s, pos) {
        Parsed::Found { v: global_type, end: e1 } => match spec_expr(
            s,
            e1,
            MAX_NESTING_DEPTH as nat,
        ) {
            Parsed::Found { v: expr, end: e2 } => Parsed::Found {
                v: GlobalV { global_type, expr },
                end: e2,
            },
            Parsed::Incomplete => Parsed::Incomplete,
            Parsed::Fail { kind } => Parsed::Fail { kind },
        },
        Parsed::Incomplete => Parsed::Incomplete,
        Parsed::Fail { kind } => Parsed::Fail { kind },
    }
}

/// Decodes one global: its type, then its initializer expression.
fn global_parser(input: &[u8], pos: usize) -> (r: Result<(Global, usize), DecodeErr>)
    requires
        pos <= input@.len(),
    ensures
        decodes_to(r, spec_global(input@, pos as int), Prod::Global, pos),
        r matches Ok((v, end)) ==> pos < end <= input@.len(),
{
    let (global_type, e1) = match globaltype_parser(input, pos) {
        Ok(x) => x,
        Err(e) => {
            return Err(e.push(Prod::Global, pos));
        },
    };
    match expr_parser(input, e1, MAX_NESTING_DEPTH) {
        Ok((expr, e2)) => Ok((Global { global_type, expr }, e2)),
        Err(e) => Err(e.push(Prod::Global, pos)),
    }
}


/// The element grammar of the global section, as a first-class spec
/// function.
pub open spec fn global_elem() -> spec_fn(Seq<u8>, int) -> Parsed<GlobalV> {
    |s: Seq<u8>, p: int| spec_global(s, p)
}

/// Global-section outcome at `pos`: id 6, then a counted vector of
/// globals that must exactly exhaust the declared body length.
#[verifier::opaque]
pub open spec fn spec_global_section(s: Seq<u8>, pos: int) -> Parsed<Seq<GlobalV>> {
    match spec_section_header(s, pos, 6) {
        Parsed::Found { v: size, end: bstart } => if bstart + size > s.len() {
            Parsed::Incomplete
        } else {
            match spec_counted_vec(s, bstart, global_elem()) {
                Parsed::Found { v, end: bend } => if bend == bstart + size {
                    Parsed::Found { v, end: bend }
                } else {
                    Parsed::Fail { kind: FailKind::Malformed }
                },
                Parsed::Incomplete => Parsed::Incomplete,
                Parsed::Fail { kind } => Parsed::Fail { kind },
            }
        },
        Parsed::Incomplete => Parsed::Incomplete,
        Parsed::Fail { kind } => Parsed::Fail { kind },
    }
}

/// Decodes the global section: a vector of globals.
pub fn global_section_parser(input: &[u8], pos: usize) -> (r: Result<
    (GlobalSection, usize),
    DecodeErr,
>)
    requires
        pos <= input@.len(),
    ensures
        decodes_to(r, spec_global_section(input@, pos as int), Prod::GlobalSection, pos),
        r matches Ok((v, end)) ==> pos < end <= input@.len(),
{
    proof {
        reveal(spec_global_section);
    }
    let (size, bstart) = match section_header(input, pos, 6, Prod::GlobalSection) {
        Ok(x) => x,
        Err(e) => {
            return Err(e);
        },
    };
    if input.len() - bstart < size as usize {
        return Err(DecodeErr::new(ErrorKind::Incomplete, Prod::GlobalSection, pos));
    }
    let limit = bstart + size as usize;
    let (n, start) = match vector_count_parser(input, bstart) {
        Ok(x) => x,
        Err(e) => {
            return Err(e.push(Prod::GlobalSection, pos));
        },
    };
    let mut out: Vec<Global> = Vec::new();
    let mut cur: usize = start;
    let mut i: u32 = 0;
    proof {
        assert(out.deep_view() =~= Seq::<GlobalV>::empty());
    }
    #[verifier::loop_isolation(false)]
    while i < n
        invariant
            0 <= i <= n,
            pos < cur <= input@.len(),
            spec_counted_vec(input@, bstart as int, global_elem()) == (match spec_vec_of(
                input@,
                cur as int,
                (n - i) as nat,
                global_elem(),
            ) {
                Parsed::Found { v: rest, end } => Parsed::Found {
                    v: out.deep_view() + rest,
                    end,
                },
                Parsed::Incomplete => Parsed::<Seq<GlobalV>>::Incomplete,
                Parsed::Fail { kind } => Parsed::<Seq<GlobalV>>::Fail { kind },
            }),
        decreases n - i,
    {
        let ghost pre = out.deep_view();
        match global_parser(input, cur) {
            Ok((v, end)) => {
                out.push(v);
                proof {
                    assert(out.deep_view() =~= pre.push(v.deep_view()));
                    match spec_vec_of(input@, end as int, (n - i - 1) as nat, global_elem()) {
                        Parsed::Found { v: r2, end: e2 } => {
                            assert(pre + (seq![v.deep_view()] + r2) =~= pre.push(v.deep_view()) + r2);
                        },
                        _ => {},
                    }
                }
                cur = end;
                i = i + 1;
            },
            Err(e) => {
                return Err(e.push(Prod::GlobalSection, pos));
            },
        }
    }
    proof {
        assert(out.deep_view() + Seq::<GlobalV>::empty() =~= out.deep_view());
    }
    if cur != limit {
        return Err(DecodeErr::new(ErrorKind::Malformed, Prod::GlobalSection, pos));
    }
    Ok((GlobalSection { globals: out }, cur))
}


/// The kind of an element segment's contents: the implicit funcref kind,
/// or an explicit reference type.
#[derive(Debug, Clone)]
pub enum ElemKind {
    FuncRef,
    RefType(RefType),
}

impl DeepView for ElemKind {
    type V = ElemKind;

    open spec fn deep_view(&self) -> ElemKind {
        *self
    }
}

/// An element segment's initializer: a list of expressions or a list of
/// function indices.
#[derive(Debug)]
pub enum ElemInit {
    Expr(Vec<Expr>),
    FuncIdx(Vec<FuncIdx>),
}

/// Spec-level element initializer.
#[verifier::ext_equal]
pub enum ElemInitV {
    Expr(Seq<ExprV>),
    FuncIdx(Seq<FuncIdx>),
}

impl DeepView for ElemInit {
    type V = ElemInitV;

    open spec fn deep_view(&self) -> ElemInitV {
        match self {
            ElemInit::Expr(es) => ElemInitV::Expr(es.deep_view()),
            ElemInit::FuncIdx(fs) => ElemInitV::FuncIdx(fs.deep_view()),
        }
    }
}

/// An element segment's addressing mode.
#[derive(Debug)]
pub enum ElemMode {
    Declarative,
    Passive,
    Active { table: TableIdx, offset: Expr },
}

/// Spec-level element mode.
#[verifier::ext_equal]
pub enum ElemModeV {
    Declarative,
    Passive,
    Active { table: TableIdx, offset: ExprV },
}

impl DeepView for ElemMode {
    type V = ElemModeV;

    open spec fn deep_view(&self) -> ElemModeV {
        match self {
            ElemMode::Declarative => ElemModeV::Declarative,
            ElemMode::Passive => ElemModeV::Passive,
            ElemMode::Active { table, offset } => ElemModeV::Active {
                table: *table,
                offset: offset.deep_view(),
            },
        }
    }
}

/// One element segment: its kind, its initializer and its mode.
#[derive(Debug)]
pub struct Elem {
    pub elem_type: ElemKind,
    pub init: ElemInit,
    pub mode: ElemMode,
}

/// Spec-level element segment.
#[verifier::ext_equal]
pub struct ElemV {
    pub elem_type: ElemKind,
    pub init: ElemInitV,
    pub mode: ElemModeV,
}

impl DeepView for Elem {
    type V = ElemV;

    open spec fn deep_view(&self) -> ElemV {
        ElemV {
            elem_type: self.elem_type,
            init: self.init.deep_view(),
            mode: self.mode.deep_view(),
        }
    }
}

/// The element section: the module's element segments.
#[derive(Debug)]
pub struct ElementSection {
    pub elems: Vec<Elem>,
}

impl DeepView for ElementSection {
    type V = Seq<ElemV>;

    open spec fn deep_view(&self) -> Seq<ElemV> {
        self.elems.deep_view()
    }
}

/// The element grammar of a function-index vector, as a first-class spec
/// function.
pub open spec fn funcidx_elem() -> spec_fn(Seq<u8>, int) -> Parsed<FuncIdx> {
    |s: Seq<u8>, p: int| spec_funcidx_parser(s, p)
}

/// The element grammar of an expression vector, as a first-class spec
/// function.
pub open spec fn expr_elem() -> spec_fn(Seq<u8>, int) -> Parsed<ExprV> {
    |s: Seq<u8>, p: int| spec_expr(s, p, MAX_NESTING_DEPTH as nat)
}

/// Element-kind outcome at `pos`: the single byte 0x00, the funcref
/// element kind; any other byte is a structural failure.
pub open spec fn spec_elemkind(s: Seq<u8>, pos: int) -> Parsed<ElemKind> {
    if pos >= s.len() {
        Parsed::Incomplete
    } else if s[pos] == 0x00 {
        Parsed::Found { v: ElemKind::FuncRef, end: pos + 1 }
    } else {
        Parsed::Fail { kind: FailKind::Malformed }
    }
}

/// Decodes an element kind: the byte 0x00, meaning funcref.
fn elemkind_parser(input: &[u8], pos: usize) -> (r: Result<(ElemKind, usize), DecodeErr>)
    requires
        pos <= input@.len(),
    ensures
        decodes_to(r, spec_elemkind(input@, pos as int), Prod::ElemKind, pos),
        r matches Ok((v, end)) ==> pos < end <= input@.len(),
{
    if pos >= input.len() {
        return Err(DecodeErr::new(ErrorKind::Incomplete, Prod::ElemKind, pos));
    }
    if input[pos] == 0x00 {
        Ok((ElemKind::FuncRef, pos + 1))
    } else {
        Err(DecodeErr::new(ErrorKind::Malformed, Prod::ElemKind, pos))
    }
}


/// Decodes a counted vector of function indices; `prod` and `fpos` name the enclosing
/// production for error frames.
fn funcidx_vec_parser(input: &[u8], pos: usize, prod: Prod, fpos: usize) -> (r: Result<
    (Vec<FuncIdx>, usize),
    DecodeErr,
>)
    requires
        pos <= input@.len(),
    ensures
        ({
            let sp = spec_counted_vec(input@, pos as int, funcidx_elem());
            match r {
                Ok((v, end)) => {
                    &&& sp == (Parsed::Found { v: v.deep_view(), end: end as int })
                    &&& pos < end <= input@.len()
                },
                Err(e) => err_matches(e, sp, prod, fpos),
            }
        }),
{
    let (n, start) = match vector_count_parser(input, pos) {
        Ok(x) => x,
        Err(e) => {
            return Err(e.push(prod, fpos));
        },
    };
    let mut out: Vec<FuncIdx> = Vec::new();
    let mut cur: usize = start;
    let mut i: u32 = 0;
    proof {
        assert(out.deep_view() =~= Seq::<FuncIdx>::empty());
    }
    #[verifier::loop_isolation(false)]
    while i < n
        invariant
            0 <= i <= n,
            pos < cur <= input@.len(),
            spec_counted_vec(input@, pos as int, funcidx_elem()) == (match spec_vec_of(
                input@,
                cur as int,
                (n - i) as nat,
                funcidx_elem(),
            ) {
                Parsed::Found { v: rest, end } => Parsed::Found {
                    v: out.deep_view() + rest,
                    end,
                },
                Parsed::Incomplete => Parsed::<Seq<FuncIdx>>::Incomplete,
                Parsed::Fail { kind } => Parsed::<Seq<FuncIdx>>::Fail { kind },
            }),
        decreases n - i,
    {
        let ghost pre = out.deep_view();
        match funcidx_parser(input, cur) {
            Ok((v, end)) => {
                out.push(v);
                proof {
                    assert(out.deep_view() =~= pre.push(v.deep_view()));
                    match spec_vec_of(input@, end as int, (n - i - 1) as nat, funcidx_elem()) {
                        Parsed::Found { v: r2, end: e2 } => {
                            assert(pre + (seq![v.deep_view()] + r2) =~= pre.push(v.deep_view())
                                + r2);
                        },
                        _ => {},
                    }
                }
                cur = end;
                i = i + 1;
            },
            Err(e) => {
                return Err(e.push(prod, fpos));
            },
        }
    }
    proof {
        assert(out.deep_view() + Seq::<FuncIdx>::empty() =~= out.deep_view());
    }
    Ok((out, cur))
}


/// Decodes a counted vector of expressions; `prod` and `fpos` name the enclosing
/// production for error frames.
fn expr_vec_parser(input: &[u8], pos: usize, prod: Prod, fpos: usize) -> (r: Result<
    (Vec<Expr>, usize),
    DecodeErr,
>)
    requires
        pos <= input@.len(),
    ensures
        ({
            let sp = spec_counted_vec(input@, pos as int, expr_elem());
            match r {
                Ok((v, end)) => {
                    &&& sp == (Parsed::Found { v: v.deep_view(), end: end as int })
                    &&& pos < end <= input@.len()
                },
                Err(e) => err_matches(e, sp, prod, fpos),
            }
        }),
{
    let (n, start) = match vector_count_parser(input, pos) {
        Ok(x) => x,
        Err(e) => {
            return Err(e.push(prod, fpos));
        },
    };
    let mut out: Vec<Expr> = Vec::new();
    let mut cur: usize = start;
    let mut i: u32 = 0;
    proof {
        assert(out.deep_view() =~= Seq::<ExprV>::empty());
    }
    #[verifier::loop_isolation(false)]
    while i < n
        invariant
            0 <= i <= n,
            pos < cur <= input@.len(),
            spec_counted_vec(input@, pos as int, expr_elem()) == (match spec_vec_of(
                input@,
                cur as int,
                (n - i) as nat,
                expr_elem(),
            ) {
                Parsed::Found { v: rest, end } => Parsed::Found {
                    v: out.deep_view() + rest,
                    end,
                },
                Parsed::Incomplete => Parsed::<Seq<ExprV>>::Incomplete,
                Parsed::Fail { kind } => Parsed::<Seq<ExprV>>::Fail { kind },
            }),
        decreases n - i,
    {
        let ghost pre = out.deep_view();
        match expr_parser(input, cur, MAX_NESTING_DEPTH) {
            Ok((v, end)) => {
                out.push(v);
                proof {
                    assert(out.deep_view() =~= pre.push(v.deep_view()));
                    match spec_vec_of(input@, end as int, (n - i - 1) as nat, expr_elem()) {
                        Parsed::Found { v: r2, end: e2 } => {
                            assert(pre + (seq![v.deep_view()] + r2) =~= pre.push(v.deep_view())
                                + r2);
                        },
                        _ => {},
                    }
                }
                cur = end;
                i = i + 1;
            },
            Err(e) => {
                return Err(e.push(prod, fpos));
            },
        }
    }
    proof {
        assert(out.deep_view() + Seq::<ExprV>::empty() =~= out.deep_view());
    }
    Ok((out, cur))
}


/// Element-segment outcome at `pos`: an ordered dispatch on the tag bytes
/// 0x00 through 0x07, which vary the mode (active, passive, declarative),
/// the table reference (implicit index 0 or explicit), and the initializer
/// shape (function indices or expressions, with or without an explicit
/// kind tag); any other tag is a structural failure.
pub open spec fn spec_elem(s: Seq<u8>, pos: int) -> Parsed<ElemV> {
    if pos >= s.len() {
        Parsed::Incomplete
    } else {
        let tag = s[pos];
        if tag == 0x00 {
            match spec_expr(s, pos + 1, MAX_NESTING_DEPTH as nat) {
                Parsed::Found { v: offset, end: e1 } => match spec_counted_vec(
                    s,
                    e1,
                    funcidx_elem(),
                ) {
                    Parsed::Found { v: init, end: e2 } => Parsed::Found {
                        v: ElemV {
                            elem_type: ElemKind::FuncRef,
                            init: ElemInitV::FuncIdx(init),
                            mode: ElemModeV::Active { table: TableIdx(0), offset },
                        },
                        end: e2,
                    },
                    Parsed::Incomplete => Parsed::Incomplete,
                    Parsed::Fail { kind } => Parsed::Fail { kind },
                },
                Parsed::Incomplete => Parsed::Incomplete,
                Parsed::Fail { kind } => Parsed::Fail { kind },
            }
        } else if tag == 0x01 {
            match spec_elemkind(s, pos + 1) {
                Parsed::Found { v: kind, end: e1 } => match spec_counted_vec(
                    s,
                    e1,
                    funcidx_elem(),
                ) {
                    Parsed::Found { v: init, end: e2 } => Parsed::Found {
                        v: ElemV {
                            elem_type: kind,
                            init: ElemInitV::FuncIdx(init),
                            mode: ElemModeV::Passive,
                        },
                        end: e2,
                    },
                    Parsed::Incomplete => Parsed::Incomplete,
                    Parsed::Fail { kind } => Parsed::Fail { kind },
                },
                Parsed::Incomplete => Parsed::Incomplete,
                Parsed::Fail { kind } => Parsed::Fail { kind },
            }
        } else if tag == 0x02 {
            match spec_tableidx_parser(s, pos + 1) {
                Parsed::Found { v: table, end: e1 } => match spec_expr(
                    s,
                    e1,
                    MAX_NESTING_DEPTH as nat,
                ) {
                    Parsed::Found { v: offset, end: e2 } => match spec_elemkind(s, e2) {
                        Parsed::Found { v: kind, end: e3 } => match spec_counted_vec(
                            s,
                            e3,
                            funcidx_elem(),
                        ) {
                            Parsed::Found { v: init, end: e4 } => Parsed::Found {
                                v: ElemV {
                                    elem_type: kind,
                                    init: ElemInitV::FuncIdx(init),
                                    mode: ElemModeV::Active { table, offset },
                                },
                                end: e4,
                            },
                            Parsed::Incomplete => Parsed::Incomplete,
                            Parsed::Fail { kind } => Parsed::Fail { kind },
                        },
                        Parsed::Incomplete => Parsed::Incomplete,
                        Parsed::Fail { kind } => Parsed::Fail { kind },
                    },
                    Parsed::Incomplete => Parsed::Incomplete,
                    Parsed::Fail { kind } => Parsed::Fail { kind },
                },
                Parsed::Incomplete => Parsed::Incomplete,
                Parsed::Fail { kind } => Parsed::Fail { kind },
            }
        } else if tag == 0x03 {
            match spec_elemkind(s, pos + 1) {
                Parsed::Found { v: kind, end: e1 } => match spec_counted_vec(
                    s,
                    e1,
                    funcidx_elem(),
                ) {
                    Parsed::Found { v: init, end: e2 } => Parsed::Found {
                        v: ElemV {
                            elem_type: kind,
                            init: ElemInitV::FuncIdx(init),
                            mode: ElemModeV::Declarative,
                        },
                        end: e2,
                    },
                    Parsed::Incomplete => Parsed::Incomplete,
                    Parsed::Fail { kind } => Parsed::Fail { kind },
                },
                Parsed::Incomplete => Parsed::Incomplete,
                Parsed::Fail { kind } => Parsed::Fail { kind },
            }
        } else if tag == 0x04 {
            match spec_expr(s, pos + 1, MAX_NESTING_DEPTH as nat) {
                Parsed::Found { v: offset, end: e1 } => match spec_counted_vec(
                    s,
                    e1,
                    expr_elem(),
                ) {
                    Parsed::Found { v: init, end: e2 } => Parsed::Found {
                        v: ElemV {
                            elem_type: ElemKind::FuncRef,
                            init: ElemInitV::Expr(init),
                            mode: ElemModeV::Active { table: TableIdx(0), offset },
                        },
                        end: e2,
                    },
                    Parsed::Incomplete => Parsed::Incomplete,
                    Parsed::Fail { kind } => Parsed::Fail { kind },
                },
                Parsed::Incomplete => Parsed::Incomplete,
                Parsed::Fail { kind } => Parsed::Fail { kind },
            }
        } else if tag == 0x05 {
            match spec_reftype(s, pos + 1) {
                Parsed::Found { v: rt, end: e1 } => match spec_counted_vec(s, e1, expr_elem()) {
                    Parsed::Found { v: init, end: e2 } => Parsed::Found {
                        v: ElemV {
                            elem_type: ElemKind::RefType(rt),
                            init: ElemInitV::Expr(init),
                            mode: ElemModeV::Passive,
                        },
                        end: e2,
                    },
                    Parsed::Incomplete => Parsed::Incomplete,
                    Parsed::Fail { kind } => Parsed::Fail { kind },
                },
                Parsed::Incomplete => Parsed::Incomplete,
                Parsed::Fail { kind } => Parsed::Fail { kind },
            }
        } else if tag == 0x06 {
            match spec_tableidx_parser(s, pos + 1) {
                Parsed::Found { v: table, end: e1 } => match spec_expr(
                    s,
                    e1,
                    MAX_NESTING_DEPTH as nat,
                ) {
                    Parsed::Found { v: offset, end: e2 } => match spec_reftype(s, e2) {
                        Parsed::Found { v: rt, end: e3 } => match spec_counted_vec(
                            s,
                            e3,
                            expr_elem(),
                        ) {
                            Parsed::Found { v: init, end: e4 } => Parsed::Found {
                                v: ElemV {
                                    elem_type: ElemKind::RefType(rt),
                                    init: ElemInitV::Expr(init),
                                    mode: ElemModeV::Active { table, offset },
                                },
                                end: e4,
                            },
                            Parsed::Incomplete => Parsed::Incomplete,
                            Parsed::Fail { kind } => Parsed::Fail { kind },
                        },
                        Parsed::Incomplete => Parsed::Incomplete,
                        Parsed::Fail { kind } => Parsed::Fail { kind },
                    },
                    Parsed::Incomplete => Parsed::Incomplete,
                    Parsed::Fail { kind } => Parsed::Fail { kind },
                },
                Parsed::Incomplete => Parsed::Incomplete,
                Parsed::Fail { kind } => Parsed::Fail { kind },
            }
        } else if tag == 0x07 {
            match spec_reftype(s, pos + 1) {
                Parsed::Found { v: rt, end: e1 } => match spec_counted_vec(s, e1, expr_elem()) {
                    Parsed::Found { v: init, end: e2 } => Parsed::Found {
                        v: ElemV {
                            elem_type: ElemKind::RefType(rt),
                            init: ElemInitV::Expr(init),
                            mode: ElemModeV::Declarative,
                        },
                        end: e2,
                    },
                    Parsed::Incomplete => Parsed::Incomplete,
                    Parsed::Fail { kind } => Parsed::Fail { kind },
                },
                Parsed::Incomplete => Parsed::Incomplete,
                Parsed::Fail { kind } => Parsed::Fail { kind },
            }
        } else {
            Parsed::Fail { kind: FailKind::Malformed }
        }
    }
}

/// Decodes one element segment by its tag byte.
fn elem_parser(input: &[u8], pos: usize) -> (r: Result<(Elem, usize), DecodeErr>)
    requires
        pos <= input@.len(),
    ensures
        decodes_to(r, spec_elem(input@, pos as int), Prod::Elem, pos),
        r matches Ok((v, end)) ==> pos < end <= input@.len(),
{
    if pos >= input.len() {
        return Err(DecodeErr::new(ErrorKind::Incomplete, Prod::Elem, pos));
    }
    let tag = input[pos];
    if tag == 0x00 {
        let (offset, e1) = match expr_parser(input, pos + 1, MAX_NESTING_DEPTH) {
            Ok(x) => x,
            Err(e) => {
                return Err(e.push(Prod::Elem, pos));
            },
        };
        let (init, e2) = match funcidx_vec_parser(input, e1, Prod::Elem, pos) {
            Ok(x) => x,
            Err(e) => {
                return Err(e);
            },
        };
        Ok((
            Elem {
                elem_type: ElemKind::FuncRef,
                init: ElemInit::FuncIdx(init),
                mode: ElemMode::Active { table: TableIdx(0), offset },
            },
            e2,
        ))
    } else if tag == 0x01 {
        let (kind, e1) = match elemkind_parser(input, pos + 1) {
            Ok(x) => x,
            Err(e) => {
                return Err(e.push(Prod::Elem, pos));
            },
        };
        let (init, e2) = match funcidx_vec_parser(input, e1, Prod::Elem, pos) {
            Ok(x) => x,
            Err(e) => {
                return Err(e);
            },
        };
        Ok((Elem { elem_type: kind, init: ElemInit::FuncIdx(init), mode: ElemMode::Passive }, e2))
    } else if tag == 0x02 {
        let (table, e1) = match tableidx_parser(input, pos + 1) {
            Ok(x) => x,
            Err(e) => {
                return Err(e.push(Prod::Elem, pos));
            },
        };
        let (offset, e2) = match expr_parser(input, e1, MAX_NESTING_DEPTH) {
            Ok(x) => x,
            Err(e) => {
                return Err(e.push(Prod::Elem, pos));
            },
        };
        let (kind, e3) = match elemkind_parser(input, e2) {
            Ok(x) => x,
            Err(e) => {
                return Err(e.push(Prod::Elem, pos));
            },
        };
        let (init, e4) = match funcidx_vec_parser(input, e3, Prod::Elem, pos) {
            Ok(x) => x,
            Err(e) => {
                return Err(e);
            },
        };
        Ok((
            Elem {
                elem_type: kind,
                init: ElemInit::FuncIdx(init),
                mode: ElemMode::Active { table, offset },
            },
            e4,
        ))
    } else if tag == 0x03 {
        let (kind, e1) = match elemkind_parser(input, pos + 1) {
            Ok(x) => x,
            Err(e) => {
                return Err(e.push(Prod::Elem, pos));
            },
        };
        let (init, e2) = match funcidx_vec_parser(input, e1, Prod::Elem, pos) {
            Ok(x) => x,
            Err(e) => {
                return Err(e);
            },
        };
        Ok((
            Elem { elem_type: kind, init: ElemInit::FuncIdx(init), mode: ElemMode::Declarative },
            e2,
        ))
    } else if tag == 0x04 {
        let (offset, e1) = match expr_parser(input, pos + 1, MAX_NESTING_DEPTH) {
            Ok(x) => x,
            Err(e) => {
                return Err(e.push(Prod::Elem, pos));
            },
        };
        let (init, e2) = match expr_vec_parser(input, e1, Prod::Elem, pos) {
            Ok(x) => x,
            Err(e) => {
                return Err(e);
            },
        };
        Ok((
            Elem {
                elem_type: ElemKind::FuncRef,
                init: ElemInit::Expr(init),
                mode: ElemMode::Active { table: TableIdx(0), offset },
            },
            e2,
        ))
    } else if tag == 0x05 {
        let (rt, e1) = match reftype_parser(input, pos + 1) {
            Ok(x) => x,
            Err(e) => {
                return Err(e.push(Prod::Elem, pos));
            },
        };
        let (init, e2) = match expr_vec_parser(input, e1, Prod::Elem, pos) {
            Ok(x) => x,
            Err(e) => {
                return Err(e);
            },
        };
        Ok((
            Elem {
                elem_type: ElemKind::RefType(rt),
                init: ElemInit::Expr(init),
                mode: ElemMode::Passive,
            },
            e2,
        ))
    } else if tag == 0x06 {
        let (table, e1) = match tableidx_parser(input, pos + 1) {
            Ok(x) => x,
            Err(e) => {
                return Err(e.push(Prod::Elem, pos));
            },
        };
        let (offset, e2) = match expr_parser(input, e1, MAX_NESTING_DEPTH) {
            Ok(x) => x,
            Err(e) => {
                return Err(e.push(Prod::Elem, pos));
            },
        };
        let (rt, e3) = match reftype_parser(input, e2) {
            Ok(x) => x,
            Err(e) => {
                return Err(e.push(Prod::Elem, pos));
            },
        };
        let (init, e4) = match expr_vec_parser(input, e3, Prod::Elem, pos) {
            Ok(x) => x,
            Err(e) => {
                return Err(e);
            },
        };
        Ok((
            Elem {
                elem_type: ElemKind::RefType(rt),
                init: ElemInit::Expr(init),
                mode: ElemMode::Active { table, offset },
            },
            e4,
        ))
    } else if tag == 0x07 {
        let (rt, e1) = match reftype_parser(input, pos + 1) {
            Ok(x) => x,
            Err(e) => {
                return Err(e.push(Prod::Elem, pos));
            },
        };
        let (init, e2) = match expr_vec_parser(input, e1, Prod::Elem, pos) {
            Ok(x) => x,
            Err(e) => {
                return Err(e);
            },
        };
        Ok((
            Elem {
                elem_type: ElemKind::RefType(rt),
                init: ElemInit::Expr(init),
                mode: ElemMode::Declarative,
            },
            e2,
        ))
    } else {
        Err(DecodeErr::new(ErrorKind::Malformed, Prod::Elem, pos))
    }
}


/// The element grammar of the element section, as a first-class spec
/// function.
pub open spec fn elem_elem() -> spec_fn(Seq<u8>, int) -> Parsed<ElemV> {
    |s: Seq<u8>, p: int| spec_elem(s, p)
}

/// Element-section outcome at `pos`: id 9, then a counted vector of
/// element segments that must exactly exhaust the declared body length.
#[verifier::opaque]
pub open spec fn spec_element_section(s: Seq<u8>, pos: int) -> Parsed<Seq<ElemV>> {
    match spec_section_header(s, pos, 9) {
        Parsed::Found { v: size, end: bstart } => if bstart + size > s.len() {
            Parsed::Incomplete
        } else {
            match spec_counted_vec(s, bstart, elem_elem()) {
                Parsed::Found { v, end: bend } => if bend == bstart + size {
                    Parsed::Found { v, end: bend }
                } else {
                    Parsed::Fail { kind: FailKind::Malformed }
                },
                Parsed::Incomplete => Parsed::Incomplete,
                Parsed::Fail { kind } => Parsed::Fail { kind },
            }
        },
        Parsed::Incomplete => Parsed::Incomplete,
        Parsed::Fail { kind } => Parsed::Fail { kind },
    }
}

/// Decodes the element section: a vector of element segments.
#[verifier::rlimit(50)]
pub fn element_section_parser(input: &[u8], pos: usize) -> (r: Result<
    (ElementSection, usize),
    DecodeErr,
>)
    requires
        pos <= input@.len(),
    ensures
        decodes_to(r, spec_element_section(input@, pos as int), Prod::ElementSection, pos),
        r matches Ok((v, end)) ==> pos < end <= input@.len(),
{
    proof {
        reveal(spec_element_section);
    }
    let (size, bstart) = match section_header(input, pos, 9, Prod::ElementSection) {
        Ok(x) => x,
        Err(e) => {
            return Err(e);
        },
    };
    if input.len() - bstart < size as usize {
        return Err(DecodeErr::new(ErrorKind::Incomplete, Prod::ElementSection, pos));
    }
    let limit = bstart + size as usize;
    let (n, start) = match vector_count_parser(input, bstart) {
        Ok(x) => x,
        Err(e) => {
            return Err(e.push(Prod::ElementSection, pos));
        },
    };
    let mut out: Vec<Elem> = Vec::new();
    let mut cur: usize = start;
    let mut i: u32 = 0;
    proof {
        assert(out.deep_view() =~= Seq::<ElemV>::empty());
    }
    #[verifier::loop_isolation(false)]
    while i < n
        invariant
            0 <= i <= n,
            pos < cur <= input@.len(),
            spec_counted_vec(input@, bstart as int, elem_elem()) == (match spec_vec_of(
                input@,
                cur as int,
                (n - i) as nat,
                elem_elem(),
            ) {
                Parsed::Found { v: rest, end } => Parsed::Found {
                    v: out.deep_view() + rest,
                    end,
                },
                Parsed::Incomplete => Parsed::<Seq<ElemV>>::Incomplete,
                Parsed::Fail { kind } => Parsed::<Seq<ElemV>>::Fail { kind },
            }),
        decreases n - i,
    {
        let ghost pre = out.deep_view();
        match elem_parser(input, cur) {
            Ok((v, end)) => {
                out.push(v);
                proof {
                    assert(out.deep_view() =~= pre.push(v.deep_view()));
                    match spec_vec_of(input@, end as int, (n - i - 1) as nat, elem_elem()) {
                        Parsed::Found { v: r2, end: e2 } => {
                            assert(pre + (seq![v.deep_view()] + r2) =~= pre.push(v.deep_view()) + r2);
                        },
                        _ => {},
                    }
                }
                cur = end;
                i = i + 1;
            },
            Err(e) => {
                return Err(e.push(Prod::ElementSection, pos));
            },
        }
    }
    proof {
        assert(out.deep_view() + Seq::<ElemV>::empty() =~= out.deep_view());
    }
    if cur != limit {
        return Err(DecodeErr::new(ErrorKind::Malformed, Prod::ElementSection, pos));
    }
    Ok((ElementSection { elems: out }, cur))
}


/// A run of locals in a function body: how many locals of one value type.
#[derive(Debug, Clone, Copy)]
pub struct Locals {
    pub count: u32,
    pub val_type: ValType,
}

impl DeepView for Locals {
    type V = Locals;

    open spec fn deep_view(&self) -> Locals {
        *self
    }
}

/// A function body: its local declarations and its expression.
#[derive(Debug)]
pub struct Func {
    pub locals: Vec<Locals>,
    pub expr: Expr,
}

/// Spec-level function body.
#[verifier::ext_equal]
pub struct FuncV {
    pub locals: Seq<Locals>,
    pub expr: ExprV,
}

impl DeepView for Func {
    type V = FuncV;

    open spec fn deep_view(&self) -> FuncV {
        FuncV { locals: self.locals.deep_view(), expr: self.expr.deep_view() }
    }
}

/// One code entry: its declared byte size and its function body.
#[derive(Debug)]
pub struct Code {
    pub size: u32,
    pub code: Func,
}

/// Spec-level code entry.
#[verifier::ext_equal]
pub struct CodeV {
    pub size: u32,
    pub code: FuncV,
}

impl DeepView for Code {
    type V = CodeV;

    open spec fn deep_view(&self) -> CodeV {
        CodeV { size: self.size, code: self.code.deep_view() }
    }
}

/// The code section: the bodies of the module's functions.
#[derive(Debug)]
pub struct CodeSection {
    pub code: Vec<Code>,
}

impl DeepView for CodeSection {
    type V = Seq<CodeV>;

    open spec fn deep_view(&self) -> Seq<CodeV> {
        self.code.deep_view()
    }
}

/// The element grammar of a locals vector, as a first-class spec function.
pub open spec fn locals_elem() -> spec_fn(Seq<u8>, int) -> Parsed<Locals> {
    |s: Seq<u8>, p: int| spec_locals(s, p)
}

/// Locals outcome at `pos`: a `u32` count, then a value type.
pub open spec fn spec_locals(s: Seq<u8>, pos: int) -> Parsed<Locals> {
    match spec_leb_u32(s, pos) {
        Parsed::Found { v: count, end: e1 } => match spec_valtype(s, e1) {
            Parsed::Found { v: val_type, end: e2 } => Parsed::Found {
                v: Locals { count, val_type },
                end: e2,
            },
            Parsed::Incomplete => Parsed::Incomplete,
            Parsed::Fail { kind } => Parsed::Fail { kind },
        },
        Parsed::Incomplete => Parsed::Incomplete,
        Parsed::Fail { kind } => Parsed::Fail { kind },
    }
}

/// Decodes one run of locals: a count, then a value type.
fn locals_parser(input: &[u8], pos: usize) -> (r: Result<(Locals, usize), DecodeErr>)
    requires
        pos <= input@.len(),
    ensures
        decodes_to(r, spec_locals(input@, pos as int), Prod::Locals, pos),
        r matches Ok((v, end)) ==> pos < end <= input@.len(),
{
    let (count, e1) = match leb128_u32(input, pos) {
        Ok(x) => x,
        Err(e) => {
            return Err(e.push(Prod::Locals, pos));
        },
    };
    match valtype_parser(input, e1) {
        Ok((val_type, e2)) => Ok((Locals { count, val_type }, e2)),
        Err(e) => Err(e.push(Prod::Locals, pos)),
    }
}

/// Function-body outcome at `pos`: a counted vector of locals runs, then
/// the body expression.
pub open spec fn spec_func(s: Seq<u8>, pos: int) -> Parsed<FuncV> {
    match spec_counted_vec(s, pos, locals_elem()) {
        Parsed::Found { v: locals, end: e1 } => match spec_expr(
            s,
            e1,
            MAX_NESTING_DEPTH as nat,
        ) {
            Parsed::Found { v: expr, end: e2 } => Parsed::Found {
                v: FuncV { locals, expr },
                end: e2,
            },
            Parsed::Incomplete => Parsed::Incomplete,
            Parsed::Fail { kind } => Parsed::Fail { kind },
        },
        Parsed::Incomplete => Parsed::Incomplete,
        Parsed::Fail { kind } => Parsed::Fail { kind },
    }
}

/// Decodes one function body: its locals, then its expression.
fn func_parser(input: &[u8], pos: usize) -> (r: Result<(Func, usize), DecodeErr>)
    requires
        pos <= input@.len(),
    ensures
        decodes_to(r, spec_func(input@, pos as int), Prod::FuncBody, pos),
        r matches Ok((v, end)) ==> pos < end <= input@.len(),
{
    let (locals, e1) = match locals_vec_parser(input, pos, Prod::FuncBody, pos) {
        Ok(x) => x,
        Err(e) => {
            return Err(e);
        },
    };
    match expr_parser(input, e1, MAX_NESTING_DEPTH) {
        Ok((expr, e2)) => Ok((Func { locals, expr }, e2)),
        Err(e) => Err(e.push(Prod::FuncBody, pos)),
    }
}

/// Code-entry outcome at `pos`: the entry's declared byte size, then its
/// function body.
pub open spec fn spec_code(s: Seq<u8>, pos: int) -> Parsed<CodeV> {
    match spec_leb_u32(s, pos) {
        Parsed::Found { v: size, end: e1 } => match spec_func(s, e1) {
            Parsed::Found { v: code, end: e2 } => Parsed::Found {
                v: CodeV { size, code },
                end: e2,
            },
            Parsed::Incomplete => Parsed::Incomplete,
            Parsed::Fail { kind } => Parsed::Fail { kind },
        },
        Parsed::Incomplete => Parsed::Incomplete,
        Parsed::Fail { kind } => Parsed::Fail { kind },
    }
}

/// Decodes one code entry: its declared size, then its function body.
fn code_parser(input: &[u8], pos: usize) -> (r: Result<(Code, usize), DecodeErr>)
    requires
        pos <= input@.len(),
    ensures
        decodes_to(r, spec_code(input@, pos as int), Prod::Code, pos),
        r matches Ok((v, end)) ==> pos < end <= input@.len(),
{
    let (size, e1) = match leb128_u32(input, pos) {
        Ok(x) => x,
        Err(e) => {
            return Err(e.push(Prod::Code, pos));
        },
    };
    match func_parser(input, e1) {
        Ok((code, e2)) => Ok((Code { size, code }, e2)),
        Err(e) => Err(e.push(Prod::Code, pos)),
    }
}


/// Decodes a counted vector of locals runs; `prod` and `fpos` name the enclosing
/// production for error frames.
fn locals_vec_parser(input: &[u8], pos: usize, prod: Prod, fpos: usize) -> (r: Result<
    (Vec<Locals>, usize),
    DecodeErr,
>)
    requires
        pos <= input@.len(),
    ensures
        ({
            let sp = spec_counted_vec(input@, pos as int, locals_elem());
            match r {
                Ok((v, end)) => {
                    &&& sp == (Parsed::Found { v: v.deep_view(), end: end as int })
                    &&& pos < end <= input@.len()
                },
                Err(e) => err_matches(e, sp, prod, fpos),
            }
        }),
{
    let (n, start) = match vector_count_parser(input, pos) {
        Ok(x) => x,
        Err(e) => {
            return Err(e.push(prod, fpos));
        },
    };
    let mut out: Vec<Locals> = Vec::new();
    let mut cur: usize = start;
    let mut i: u32 = 0;
    proof {
        assert(out.deep_view() =~= Seq::<Locals>::empty());
    }
    #[verifier::loop_isolation(false)]
    while i < n
        invariant
            0 <= i <= n,
            pos < cur <= input@.len(),
            spec_counted_vec(input@, pos as int, locals_elem()) == (match spec_vec_of(
                input@,
                cur as int,
                (n - i) as nat,
                locals_elem(),
            ) {
                Parsed::Found { v: rest, end } => Parsed::Found {
                    v: out.deep_view() + rest,
                    end,
                },
                Parsed::Incomplete => Parsed::<Seq<Locals>>::Incomplete,
                Parsed::Fail { kind } => Parsed::<Seq<Locals>>::Fail { kind },
            }),
        decreases n - i,
    {
        let ghost pre = out.deep_view();
        match locals_parser(input, cur) {
            Ok((v, end)) => {
                out.push(v);
                proof {
                    assert(out.deep_view() =~= pre.push(v.deep_view()));
                    match spec_vec_of(input@, end as int, (n - i - 1) as nat, locals_elem()) {
                        Parsed::Found { v: r2, end: e2 } => {
                            assert(pre + (seq![v.deep_view()] + r2) =~= pre.push(v.deep_view())
                                + r2);
                        },
                        _ => {},
                    }
                }
                cur = end;
                i = i + 1;
            },
            Err(e) => {
                return Err(e.push(prod, fpos));
            },
        }
    }
    proof {
        assert(out.deep_view() + Seq::<Locals>::empty() =~= out.deep_view());
    }
    Ok((out, cur))
}


/// The element grammar of the code section, as a first-class spec
/// function.
pub open spec fn code_elem() -> spec_fn(Seq<u8>, int) -> Parsed<CodeV> {
    |s: Seq<u8>, p: int| spec_code(s, p)
}

/// Code-section outcome at `pos`: id 10, then a counted vector of
/// code entries that must exactly exhaust the declared body length.
#[verifier::opaque]
pub open spec fn spec_code_section(s: Seq<u8>, pos: int) -> Parsed<Seq<CodeV>> {
    match spec_section_header(s, pos, 10) {
        Parsed::Found { v: size, end: bstart } => if bstart + size > s.len() {
            Parsed::Incomplete
        } else {
            match spec_counted_vec(s, bstart, code_elem()) {
                Parsed::Found { v, end: bend } => if bend == bstart + size {
                    Parsed::Found { v, end: bend }
                } else {
                    Parsed::Fail { kind: FailKind::Malformed }
                },
                Parsed::Incomplete => Parsed::Incomplete,
                Parsed::Fail { kind } => Parsed::Fail { kind },
            }
        },
        Parsed::Incomplete => Parsed::Incomplete,
        Parsed::Fail { kind } => Parsed::Fail { kind },
    }
}

/// Decodes the code section: a vector of code entries.
pub fn code_section_parser(input: &[u8], pos: usize) -> (r: Result<
    (CodeSection, usize),
    DecodeErr,
>)
    requires
        pos <= input@.len(),
    ensures
        decodes_to(r, spec_code_section(input@, pos as int), Prod::CodeSection, pos),
        r matches Ok((v, end)) ==> pos < end <= input@.len(),
{
    proof {
        reveal(spec_code_section);
    }
    let (size, bstart) = match section_header(input, pos, 10, Prod::CodeSection) {
        Ok(x) => x,
        Err(e) => {
            return Err(e);
        },
    };
    if input.len() - bstart < size as usize {
        return Err(DecodeErr::new(ErrorKind::Incomplete, Prod::CodeSection, pos));
    }
    let limit = bstart + size as usize;
    let (n, start) = match vector_count_parser(input, bstart) {
        Ok(x) => x,
        Err(e) => {
            return Err(e.push(Prod::CodeSection, pos));
        },
    };
    let mut out: Vec<Code> = Vec::new();
    let mut cur: usize = start;
    let mut i: u32 = 0;
    proof {
        assert(out.deep_view() =~= Seq::<CodeV>::empty());
    }
    #[verifier::loop_isolation(false)]
    while i < n
        invariant
            0 <= i <= n,
            pos < cur <= input@.len(),
            spec_counted_vec(input@, bstart as int, code_elem()) == (match spec_vec_of(
                input@,
                cur as int,
                (n - i) as nat,
                code_elem(),
            ) {
                Parsed::Found { v: rest, end } => Parsed::Found {
                    v: out.deep_view() + rest,
                    end,
                },
                Parsed::Incomplete => Parsed::<Seq<CodeV>>::Incomplete,
                Parsed::Fail { kind } => Parsed::<Seq<CodeV>>::Fail { kind },
            }),
        decreases n - i,
    {
        let ghost pre = out.deep_view();
        match code_parser(input, cur) {
            Ok((v, end)) => {
                out.push(v);
                proof {
                    assert(out.deep_view() =~= pre.push(v.deep_view()));
                    match spec_vec_of(input@, end as int, (n - i - 1) as nat, code_elem()) {
                        Parsed::Found { v: r2, end: e2 } => {
                            assert(pre + (seq![v.deep_view()] + r2) =~= pre.push(v.deep_view()) + r2);
                        },
                        _ => {},
                    }
                }
                cur = end;
                i = i + 1;
            },
            Err(e) => {
                return Err(e.push(Prod::CodeSection, pos));
            },
        }
    }
    proof {
        assert(out.deep_view() + Seq::<CodeV>::empty() =~= out.deep_view());
    }
    if cur != limit {
        return Err(DecodeErr::new(ErrorKind::Malformed, Prod::CodeSection, pos));
    }
    Ok((CodeSection { code: out }, cur))
}


/// A data segment's addressing mode: passive, or active at an offset in a
/// memory.
#[derive(Debug)]
pub enum DataMode {
    Passive,
    Active { memory: MemIdx, offset: Expr },
}

/// Spec-level data mode.
#[verifier::ext_equal]
pub enum DataModeV {
    Passive,
    Active { memory: MemIdx, offset: ExprV },
}

impl DeepView for DataMode {
    type V = DataModeV;

    open spec fn deep_view(&self) -> DataModeV {
        match self {
            DataMode::Passive => DataModeV::Passive,
            DataMode::Active { memory, offset } => DataModeV::Active {
                memory: *memory,
                offset: offset.deep_view(),
            },
        }
    }
}

/// One data segment: its bytes, viewed from the input, and its mode.
#[derive(Debug)]
pub struct Data<'a> {
    pub init: &'a [u8],
    pub mode: DataMode,
}

/// Spec-level data segment.
#[verifier::ext_equal]
pub struct DataV {
    pub init: Seq<u8>,
    pub mode: DataModeV,
}

impl<'a> DeepView for Data<'a> {
    type V = DataV;

    open spec fn deep_view(&self) -> DataV {
        DataV { init: self.init@, mode: self.mode.deep_view() }
    }
}

/// The data section: the module's data segments.
#[derive(Debug)]
pub struct DataSection<'a> {
    pub data: Vec<Data<'a>>,
}

impl<'a> DeepView for DataSection<'a> {
    type V = Seq<DataV>;

    open spec fn deep_view(&self) -> Seq<DataV> {
        self.data.deep_view()
    }
}

/// Data-segment outcome at `pos`: a tag byte selecting one of three
/// encodings: active in memory 0 with an offset expression, passive, or
/// active in an explicit memory; any other tag is a structural failure.
pub open spec fn spec_data(s: Seq<u8>, pos: int) -> Parsed<DataV> {
    if pos >= s.len() {
        Parsed::Incomplete
    } else {
        let tag = s[pos];
        if tag == 0x00 {
            match spec_expr(s, pos + 1, MAX_NESTING_DEPTH as nat) {
                Parsed::Found { v: offset, end: e1 } => match spec_vector(s, e1) {
                    Parsed::Found { v: init, end: e2 } => Parsed::Found {
                        v: DataV {
                            init,
                            mode: DataModeV::Active { memory: MemIdx(0), offset },
                        },
                        end: e2,
                    },
                    Parsed::Incomplete => Parsed::Incomplete,
                    Parsed::Fail { kind } => Parsed::Fail { kind },
                },
                Parsed::Incomplete => Parsed::Incomplete,
                Parsed::Fail { kind } => Parsed::Fail { kind },
            }
        } else if tag == 0x01 {
            match spec_vector(s, pos + 1) {
                Parsed::Found { v: init, end: e1 } => Parsed::Found {
                    v: DataV { init, mode: DataModeV::Passive },
                    end: e1,
                },
                Parsed::Incomplete => Parsed::Incomplete,
                Parsed::Fail { kind } => Parsed::Fail { kind },
            }
        } else if tag == 0x02 {
            match spec_memidx_parser(s, pos + 1) {
                Parsed::Found { v: memory, end: e1 } => match spec_expr(
                    s,
                    e1,
                    MAX_NESTING_DEPTH as nat,
                ) {
                    Parsed::Found { v: offset, end: e2 } => match spec_vector(s, e2) {
                        Parsed::Found { v: init, end: e3 } => Parsed::Found {
                            v: DataV { init, mode: DataModeV::Active { memory, offset } },
                            end: e3,
                        },
                        Parsed::Incomplete => Parsed::Incomplete,
                        Parsed::Fail { kind } => Parsed::Fail { kind },
                    },
                    Parsed::Incomplete => Parsed::Incomplete,
                    Parsed::Fail { kind } => Parsed::Fail { kind },
                },
                Parsed::Incomplete => Parsed::Incomplete,
                Parsed::Fail { kind } => Parsed::Fail { kind },
            }
        } else {
            Parsed::Fail { kind: FailKind::Malformed }
        }
    }
}

/// Decodes one data segment by its tag byte.
fn data_parser<'a>(input: &'a [u8], pos: usize) -> (r: Result<(Data<'a>, usize), DecodeErr>)
    requires
        pos <= input@.len(),
    ensures
        decodes_to(r, spec_data(input@, pos as int), Prod::Data, pos),
        r matches Ok((v, end)) ==> pos < end <= input@.len(),
{
    if pos >= input.len() {
        return Err(DecodeErr::new(ErrorKind::Incomplete, Prod::Data, pos));
    }
    let tag = input[pos];
    if tag == 0x00 {
        let (offset, e1) = match expr_parser(input, pos + 1, MAX_NESTING_DEPTH) {
            Ok(x) => x,
            Err(e) => {
                return Err(e.push(Prod::Data, pos));
            },
        };
        match vector_parser(input, e1) {
            Ok((init, e2)) => {
                proof {
                    assert(init.deep_view() =~= init@);
                }
                Ok((
                    Data { init, mode: DataMode::Active { memory: MemIdx(0), offset } },
                    e2,
                ))
            },
            Err(e) => Err(e.push(Prod::Data, pos)),
        }
    } else if tag == 0x01 {
        match vector_parser(input, pos + 1) {
            Ok((init, e1)) => {
                proof {
                    assert(init.deep_view() =~= init@);
                }
                Ok((Data { init, mode: DataMode::Passive }, e1))
            },
            Err(e) => Err(e.push(Prod::Data, pos)),
        }
    } else if tag == 0x02 {
        let (memory, e1) = match memidx_parser(input, pos + 1) {
            Ok(x) => x,
            Err(e) => {
                return Err(e.push(Prod::Data, pos));
            },
        };
        let (offset, e2) = match expr_parser(input, e1, MAX_NESTING_DEPTH) {
            Ok(x) => x,
            Err(e) => {
                return Err(e.push(Prod::Data, pos));
            },
        };
        match vector_parser(input, e2) {
            Ok((init, e3)) => {
                proof {
                    assert(init.deep_view() =~= init@);
                }
                Ok((Data { init, mode: DataMode::Active { memory, offset } }, e3))
            },
            Err(e) => Err(e.push(Prod::Data, pos)),
        }
    } else {
        Err(DecodeErr::new(ErrorKind::Malformed, Prod::Data, pos))
    }
}


/// The element grammar of the data section, as a first-class spec
/// function.
pub open spec fn data_elem() -> spec_fn(Seq<u8>, int) -> Parsed<DataV> {
    |s: Seq<u8>, p: int| spec_data(s, p)
}

/// Data-section outcome at `pos`: id 11, then a counted vector of
/// data segments that must exactly exhaust the declared body length.
#[verifier::opaque]
pub open spec fn spec_data_section(s: Seq<u8>, pos: int) -> Parsed<Seq<DataV>> {
    match spec_section_header(s, pos, 11) {
        Parsed::Found { v: size, end: bstart } => if bstart + size > s.len() {
            Parsed::Incomplete
        } else {
            match spec_counted_vec(s, bstart, data_elem()) {
                Parsed::Found { v, end: bend } => if bend == bstart + size {
                    Parsed::Found { v, end: bend }
                } else {
                    Parsed::Fail { kind: FailKind::Malformed }
                },
                Parsed::Incomplete => Parsed::Incomplete,
                Parsed::Fail { kind } => Parsed::Fail { kind },
            }
        },
        Parsed::Incomplete => Parsed::Incomplete,
        Parsed::Fail { kind } => Parsed::Fail { kind },
    }
}

/// Decodes the data section: a vector of data segments.
pub fn data_section_parser<'a>(input: &'a [u8], pos: usize) -> (r: Result<
    (DataSection<'a>, usize),
    DecodeErr,
>)
    requires
        pos <= input@.len(),
    ensures
        decodes_to(r, spec_data_section(input@, pos as int), Prod::DataSection, pos),
        r matches Ok((v, end)) ==> pos < end <= input@.len(),
{
    proof {
        reveal(spec_data_section);
    }
    let (size, bstart) = match section_header(input, pos, 11, Prod::DataSection) {
        Ok(x) => x,
        Err(e) => {
            return Err(e);
        },
    };
    if input.len() - bstart < size as usize {
        return Err(DecodeErr::new(ErrorKind::Incomplete, Prod::DataSection, pos));
    }
    let limit = bstart + size as usize;
    let (n, start) = match vector_count_parser(input, bstart) {
        Ok(x) => x,
        Err(e) => {
            return Err(e.push(Prod::DataSection, pos));
        },
    };
    let mut out: Vec<Data<'a>> = Vec::new();
    let mut cur: usize = start;
    let mut i: u32 = 0;
    proof {
        assert(out.deep_view() =~= Seq::<DataV>::empty());
    }
    #[verifier::loop_isolation(false)]
    while i < n
        invariant
            0 <= i <= n,
            pos < cur <= input@.len(),
            spec_counted_vec(input@, bstart as int, data_elem()) == (match spec_vec_of(
                input@,
                cur as int,
                (n - i) as nat,
                data_elem(),
            ) {
                Parsed::Found { v: rest, end } => Parsed::Found {
                    v: out.deep_view() + rest,
                    end,
                },
                Parsed::Incomplete => Parsed::<Seq<DataV>>::Incomplete,
                Parsed::Fail { kind } => Parsed::<Seq<DataV>>::Fail { kind },
            }),
        decreases n - i,
    {
        let ghost pre = out.deep_view();
        match data_parser(input, cur) {
            Ok((v, end)) => {
                out.push(v);
                proof {
                    assert(out.deep_view() =~= pre.push(v.deep_view()));
                    match spec_vec_of(input@, end as int, (n - i - 1) as nat, data_elem()) {
                        Parsed::Found { v: r2, end: e2 } => {
                            assert(pre + (seq![v.deep_view()] + r2) =~= pre.push(v.deep_view()) + r2);
                        },
                        _ => {},
                    }
                }
                cur = end;
                i = i + 1;
            },
            Err(e) => {
                return Err(e.push(Prod::DataSection, pos));
            },
        }
    }
    proof {
        assert(out.deep_view() + Seq::<DataV>::empty() =~= out.deep_view());
    }
    if cur != limit {
        return Err(DecodeErr::new(ErrorKind::Malformed, Prod::DataSection, pos));
    }
    Ok((DataSection { data: out }, cur))
}

} // verus!
