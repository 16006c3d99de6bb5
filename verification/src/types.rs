//! Type grammar decoders: number, reference and value types, result types,
//! function types, limits, table types, memory types and global types.
//!
//! Number and reference types are single tag bytes with disjoint tag spaces;
//! a value type is whichever of the two matches.  Composite types follow the
//! WebAssembly binary grammar: a function type is the tag byte 0x60 followed
//! by two result types; limits carry a flag byte saying whether a maximum is
//! present; a global type is a value type followed by a mutability byte.

use vstd::prelude::*;

use crate::error::{DecodeErr, ErrorKind, FailKind, Parsed, Prod, decodes_to};
use crate::values::{spec_counted_vec, spec_vec_of, vector_count_parser};

verus! {

/// Number types, each encoded by a single byte.
#[derive(Eq, PartialEq, Structural, Debug, Clone, Copy)]
pub enum NumType {
    I32,
    I64,
    F32,
    F64,
}

impl DeepView for NumType {
    type V = NumType;

    open spec fn deep_view(&self) -> NumType {
        *self
    }
}

/// The number type a tag byte denotes, if any: 0x7F is `I32`, 0x7E is
/// `I64`, 0x7D is `F32` and 0x7C is `F64`.
pub open spec fn numtype_of(b: u8) -> Option<NumType> {
    if b == 0x7F {
        Some(NumType::I32)
    } else if b == 0x7E {
        Some(NumType::I64)
    } else if b == 0x7D {
        Some(NumType::F32)
    } else if b == 0x7C {
        Some(NumType::F64)
    } else {
        None
    }
}

impl NumType {
    /// The number type denoted by a tag byte; any other byte is rejected.
    pub fn try_from(input: u8) -> (r: Result<NumType, &'static str>)
        ensures
            r matches Ok(t) ==> numtype_of(input) == Some(t),
            r is Err <==> numtype_of(input) is None,
    {
        match input {
            0x7F => Ok(NumType::I32),
            0x7E => Ok(NumType::I64),
            0x7D => Ok(NumType::F32),
            0x7C => Ok(NumType::F64),
            _ => Err("Invalid num type"),
        }
    }
}

/// Number-type outcome at `pos`: one tag byte; an unrecognized discriminant
/// is an encoding failure.
pub open spec fn spec_numtype(s: Seq<u8>, pos: int) -> Parsed<NumType> {
    if pos >= s.len() {
        Parsed::Incomplete
    } else {
        match numtype_of(s[pos]) {
            Some(t) => Parsed::Found { v: t, end: pos + 1 },
            None => Parsed::Fail { kind: FailKind::Encoding },
        }
    }
}

/// Decodes a number type from its single tag byte.
pub fn numtype_parser(input: &[u8], pos: usize) -> (r: Result<(NumType, usize), DecodeErr>)
    requires
        pos <= input@.len(),
    ensures
        decodes_to(r, spec_numtype(input@, pos as int), Prod::NumType, pos),
        r matches Ok((v, end)) ==> pos < end <= input@.len(),
{
    if pos >= input.len() {
        return Err(DecodeErr::new(ErrorKind::Incomplete, Prod::NumType, pos));
    }
    match NumType::try_from(input[pos]) {
        Ok(t) => Ok((t, pos + 1)),
        Err(_) => Err(DecodeErr::new(ErrorKind::Encoding, Prod::NumType, pos)),
    }
}

/// Reference types, each encoded by a single byte.
#[derive(Eq, PartialEq, Structural, Debug, Clone, Copy)]
pub enum RefType {
    FuncRef,
    ExternRef,
}

impl DeepView for RefType {
    type V = RefType;

    open spec fn deep_view(&self) -> RefType {
        *self
    }
}

/// The reference type a tag byte denotes, if any: 0x70 is `FuncRef` and
/// 0x6F is `ExternRef`.
pub open spec fn reftype_of(b: u8) -> Option<RefType> {
    if b == 0x70 {
        Some(RefType::FuncRef)
    } else if b == 0x6F {
        Some(RefType::ExternRef)
    } else {
        None
    }
}

impl RefType {
    /// The reference type denoted by a tag byte; any other byte is rejected.
    pub fn try_from(input: u8) -> (r: Result<RefType, &'static str>)
        ensures
            r matches Ok(t) ==> reftype_of(input) == Some(t),
            r is Err <==> reftype_of(input) is None,
    {
        match input {
            0x70 => Ok(RefType::FuncRef),
            0x6F => Ok(RefType::ExternRef),
            _ => Err("Invalid ref type"),
        }
    }
}

/// Reference-type outcome at `pos`: one tag byte; an unrecognized
/// discriminant is an encoding failure.
pub open spec fn spec_reftype(s: Seq<u8>, pos: int) -> Parsed<RefType> {
    if pos >= s.len() {
        Parsed::Incomplete
    } else {
        match reftype_of(s[pos]) {
            Some(t) => Parsed::Found { v: t, end: pos + 1 },
            None => Parsed::Fail { kind: FailKind::Encoding },
        }
    }
}

/// Decodes a reference type from its single tag byte.
pub fn reftype_parser(input: &[u8], pos: usize) -> (r: Result<(RefType, usize), DecodeErr>)
    requires
        pos <= input@.len(),
    ensures
        decodes_to(r, spec_reftype(input@, pos as int), Prod::RefType, pos),
        r matches Ok((v, end)) ==> pos < end <= input@.len(),
{
    if pos >= input.len() {
        return Err(DecodeErr::new(ErrorKind::Incomplete, Prod::RefType, pos));
    }
    match RefType::try_from(input[pos]) {
        Ok(t) => Ok((t, pos + 1)),
        Err(_) => Err(DecodeErr::new(ErrorKind::Encoding, Prod::RefType, pos)),
    }
}

/// Value types: either a number type or a reference type.
#[derive(Eq, PartialEq, Structural, Debug, Clone, Copy)]
pub enum ValType {
    NumType(NumType),
    RefType(RefType),
}

impl DeepView for ValType {
    type V = ValType;

    open spec fn deep_view(&self) -> ValType {
        *self
    }
}

/// The value type a tag byte denotes, if any: the number-type and
/// reference-type tag spaces are disjoint, and whichever matches wins.
pub open spec fn valtype_of(b: u8) -> Option<ValType> {
    match numtype_of(b) {
        Some(t) => Some(ValType::NumType(t)),
        None => match reftype_of(b) {
            Some(t) => Some(ValType::RefType(t)),
            None => None,
        },
    }
}

/// Value-type outcome at `pos`: one tag byte; a byte in neither tag space is
/// a structural failure.
pub open spec fn spec_valtype(s: Seq<u8>, pos: int) -> Parsed<ValType> {
    if pos >= s.len() {
        Parsed::Incomplete
    } else {
        match valtype_of(s[pos]) {
            Some(t) => Parsed::Found { v: t, end: pos + 1 },
            None => Parsed::Fail { kind: FailKind::Malformed },
        }
    }
}

/// Decodes a value type: a number type if the tag byte matches one, else a
/// reference type; any other byte is a structural failure.
pub fn valtype_parser(input: &[u8], pos: usize) -> (r: Result<(ValType, usize), DecodeErr>)
    requires
        pos <= input@.len(),
    ensures
        decodes_to(r, spec_valtype(input@, pos as int), Prod::ValType, pos),
        r matches Ok((v, end)) ==> pos < end <= input@.len(),
{
    if pos >= input.len() {
        return Err(DecodeErr::new(ErrorKind::Incomplete, Prod::ValType, pos));
    }
    match NumType::try_from(input[pos]) {
        Ok(t) => Ok((ValType::NumType(t), pos + 1)),
        Err(_) => match RefType::try_from(input[pos]) {
            Ok(t) => Ok((ValType::RefType(t), pos + 1)),
            Err(_) => Err(DecodeErr::new(ErrorKind::Malformed, Prod::ValType, pos)),
        },
    }
}

/// A result type: the sequence of value types of a block's or function's
/// parameters or results.
pub type ResultType = Vec<ValType>;

/// The element grammar of a result type, as a first-class spec function.
pub open spec fn valtype_elem() -> spec_fn(Seq<u8>, int) -> Parsed<ValType> {
    |s: Seq<u8>, p: int| spec_valtype(s, p)
}

/// Result-type outcome at `pos`: a counted vector of value types.
pub open spec fn spec_resulttype(s: Seq<u8>, pos: int) -> Parsed<Seq<ValType>> {
    spec_counted_vec(s, pos, valtype_elem())
}

/// Decodes a result type: a `u32` count followed by that many value types.
pub fn resulttype_parser(input: &[u8], pos: usize) -> (r: Result<(ResultType, usize), DecodeErr>)
    requires
        pos <= input@.len(),
    ensures
        decodes_to(r, spec_resulttype(input@, pos as int), Prod::ResultType, pos),
        r matches Ok((v, end)) ==> pos < end <= input@.len(),
{
    let (n, start) = match vector_count_parser(input, pos) {
        Ok(x) => x,
        Err(e) => {
            return Err(e.push(Prod::ResultType, pos));
        },
    };
    let mut out: Vec<ValType> = Vec::new();
    let mut cur: usize = start;
    let mut i: u32 = 0;
    proof {
        assert(out.deep_view() =~= Seq::<ValType>::empty());
    }
    #[verifier::loop_isolation(false)]
    while i < n
        invariant
            0 <= i <= n,
            pos < cur <= input@.len(),
            spec_resulttype(input@, pos as int) == (match spec_vec_of(
                input@,
                cur as int,
                (n - i) as nat,
                valtype_elem(),
            ) {
                Parsed::Found { v: rest, end } => Parsed::Found {
                    v: out.deep_view() + rest,
                    end,
                },
                Parsed::Incomplete => Parsed::<Seq<ValType>>::Incomplete,
                Parsed::Fail { kind } => Parsed::<Seq<ValType>>::Fail { kind },
            }),
        decreases n - i,
    {
        let ghost pre = out.deep_view();
        match valtype_parser(input, cur) {
            Ok((v, end)) => {
                out.push(v);
                proof {
                    assert(out.deep_view() =~= pre.push(v));
                    let rest0 = spec_vec_of(input@, end as int, (n - i - 1) as nat, valtype_elem());
                    match rest0 {
                        Parsed::Found { v: r2, end: e2 } => {
                            assert(pre + (seq![v] + r2) =~= pre.push(v) + r2);
                        },
                        _ => {},
                    }
                }
                cur = end;
                i = i + 1;
            },
            Err(e) => {
                return Err(e.push(Prod::ResultType, pos));
            },
        }
    }
    proof {
        assert(out.deep_view() + Seq::<ValType>::empty() =~= out.deep_view());
    }
    Ok((out, cur))
}

/// Function type info: parameter types and result types.
#[derive(Debug, Clone)]
pub struct FuncType {
    pub params: ResultType,
    pub ret: ResultType,
}

/// Spec-level function type: the views of the two result types.
#[verifier::ext_equal]
pub struct FuncTypeV {
    pub params: Seq<ValType>,
    pub ret: Seq<ValType>,
}

impl DeepView for FuncType {
    type V = FuncTypeV;

    open spec fn deep_view(&self) -> FuncTypeV {
        FuncTypeV { params: self.params.deep_view(), ret: self.ret.deep_view() }
    }
}

/// Function-type outcome at `pos`: the tag byte 0x60, then the parameter
/// result type, then the result result type; any other tag is a structural
/// failure.
pub open spec fn spec_functype(s: Seq<u8>, pos: int) -> Parsed<FuncTypeV> {
    if pos >= s.len() {
        Parsed::Incomplete
    } else if s[pos] != 0x60 {
        Parsed::Fail { kind: FailKind::Malformed }
    } else {
        match spec_resulttype(s, pos + 1) {
            Parsed::Found { v: params, end } => match spec_resulttype(s, end) {
                Parsed::Found { v: ret, end: e2 } => Parsed::Found {
                    v: FuncTypeV { params, ret },
                    end: e2,
                },
                Parsed::Incomplete => Parsed::Incomplete,
                Parsed::Fail { kind } => Parsed::Fail { kind },
            },
            Parsed::Incomplete => Parsed::Incomplete,
            Parsed::Fail { kind } => Parsed::Fail { kind },
        }
    }
}

/// Decodes a function type: the byte 0x60 followed by the vectors of
/// parameter and result types.
pub fn functype_parser(input: &[u8], pos: usize) -> (r: Result<(FuncType, usize), DecodeErr>)
    requires
        pos <= input@.len(),
    ensures
        decodes_to(r, spec_functype(input@, pos as int), Prod::FuncType, pos),
        r matches Ok((v, end)) ==> pos < end <= input@.len(),
{
    if pos >= input.len() {
        return Err(DecodeErr::new(ErrorKind::Incomplete, Prod::FuncType, pos));
    }
    if input[pos] != 0x60 {
        return Err(DecodeErr::new(ErrorKind::Malformed, Prod::FuncType, pos));
    }
    let (params, mid) = match resulttype_parser(input, pos + 1) {
        Ok(x) => x,
        Err(e) => {
            return Err(e.push(Prod::FuncType, pos));
        },
    };
    let (ret, end) = match resulttype_parser(input, mid) {
        Ok(x) => x,
        Err(e) => {
            return Err(e.push(Prod::FuncType, pos));
        },
    };
    Ok((FuncType { params, ret }, end))
}

/// Limits with a required minimum and an optional maximum.
#[derive(Debug, Clone)]
pub struct Limits {
    pub min: u32,
    pub max: Option<u32>,
}

impl DeepView for Limits {
    type V = Limits;

    open spec fn deep_view(&self) -> Limits {
        *self
    }
}

/// Limits outcome at `pos`: flag byte 0x00 is a minimum alone, flag byte
/// 0x01 is a minimum and a maximum; any other flag is a structural failure
/// (the shared-memory flags are an extension not covered here).
pub open spec fn spec_limits(s: Seq<u8>, pos: int) -> Parsed<Limits> {
    if pos >= s.len() {
        Parsed::Incomplete
    } else if s[pos] == 0x00 {
        match crate::leb128::spec_leb_u32(s, pos + 1) {
            Parsed::Found { v: min, end } => Parsed::Found {
                v: Limits { min, max: None },
                end,
            },
            Parsed::Incomplete => Parsed::Incomplete,
            Parsed::Fail { kind } => Parsed::Fail { kind },
        }
    } else if s[pos] == 0x01 {
        match crate::leb128::spec_leb_u32(s, pos + 1) {
            Parsed::Found { v: min, end } => match crate::leb128::spec_leb_u32(s, end) {
                Parsed::Found { v: max, end: e2 } => Parsed::Found {
                    v: Limits { min, max: Some(max) },
                    end: e2,
                },
                Parsed::Incomplete => Parsed::Incomplete,
                Parsed::Fail { kind } => Parsed::Fail { kind },
            },
            Parsed::Incomplete => Parsed::Incomplete,
            Parsed::Fail { kind } => Parsed::Fail { kind },
        }
    } else {
        Parsed::Fail { kind: FailKind::Malformed }
    }
}

/// Decodes limits: a flag byte saying whether a maximum follows the minimum.
pub fn limits_parser(input: &[u8], pos: usize) -> (r: Result<(Limits, usize), DecodeErr>)
    requires
        pos <= input@.len(),
    ensures
        decodes_to(r, spec_limits(input@, pos as int), Prod::Limits, pos),
        r matches Ok((v, end)) ==> pos < end <= input@.len(),
{
    if pos >= input.len() {
        return Err(DecodeErr::new(ErrorKind::Incomplete, Prod::Limits, pos));
    }
    let flag = input[pos];
    if flag == 0x00 {
        match crate::leb128::leb128_u32(input, pos + 1) {
            Ok((min, end)) => Ok((Limits { min, max: None }, end)),
            Err(e) => Err(e.push(Prod::Limits, pos)),
        }
    } else if flag == 0x01 {
        let (min, mid) = match crate::leb128::leb128_u32(input, pos + 1) {
            Ok(x) => x,
            Err(e) => {
                return Err(e.push(Prod::Limits, pos));
            },
        };
        match crate::leb128::leb128_u32(input, mid) {
            Ok((max, end)) => Ok((Limits { min, max: Some(max) }, end)),
            Err(e) => Err(e.push(Prod::Limits, pos)),
        }
    } else {
        Err(DecodeErr::new(ErrorKind::Malformed, Prod::Limits, pos))
    }
}

/// A memory type is just its limits.
pub type MemType = Limits;

/// Memory-type outcome at `pos`: an alias for the limits grammar.
pub open spec fn spec_memtype(s: Seq<u8>, pos: int) -> Parsed<Limits> {
    spec_limits(s, pos)
}

/// Decodes a memory type: an alias for the limits decoder.
pub fn memtype_parser(input: &[u8], pos: usize) -> (r: Result<(MemType, usize), DecodeErr>)
    requires
        pos <= input@.len(),
    ensures
        decodes_to(r, spec_memtype(input@, pos as int), Prod::Limits, pos),
        r matches Ok((v, end)) ==> pos < end <= input@.len(),
{
    limits_parser(input, pos)
}

/// Table type info: the element reference type and the size limits.
#[derive(Debug, Clone)]
pub struct TableType {
    pub ref_type: RefType,
    pub limits: Limits,
}

impl DeepView for TableType {
    type V = TableType;

    open spec fn deep_view(&self) -> TableType {
        *self
    }
}

/// Table-type outcome at `pos`: a reference type, then limits.
pub open spec fn spec_tabletype(s: Seq<u8>, pos: int) -> Parsed<TableType> {
    match spec_reftype(s, pos) {
        Parsed::Found { v: ref_type, end } => match spec_limits(s, end) {
            Parsed::Found { v: limits, end: e2 } => Parsed::Found {
                v: TableType { ref_type, limits },
                end: e2,
            },
            Parsed::Incomplete => Parsed::Incomplete,
            Parsed::Fail { kind } => Parsed::Fail { kind },
        },
        Parsed::Incomplete => Parsed::Incomplete,
        Parsed::Fail { kind } => Parsed::Fail { kind },
    }
}

/// Decodes a table type: the element reference type, then the limits.
pub fn tabletype_parser(input: &[u8], pos: usize) -> (r: Result<(TableType, usize), DecodeErr>)
    requires
        pos <= input@.len(),
    ensures
        decodes_to(r, spec_tabletype(input@, pos as int), Prod::TableType, pos),
        r matches Ok((v, end)) ==> pos < end <= input@.len(),
{
    let (ref_type, mid) = match reftype_parser(input, pos) {
        Ok(x) => x,
        Err(e) => {
            return Err(e.push(Prod::TableType, pos));
        },
    };
    match limits_parser(input, mid) {
        Ok((limits, end)) => Ok((TableType { ref_type, limits }, end)),
        Err(e) => Err(e.push(Prod::TableType, pos)),
    }
}

/// Global type info: the value type and whether the global is mutable.
#[derive(Debug, Clone)]
pub struct GlobalType {
    pub value_type: ValType,
    /// Whether the global is mutable rather than constant.
    pub mutable: bool,
}

impl DeepView for GlobalType {
    type V = GlobalType;

    open spec fn deep_view(&self) -> GlobalType {
        *self
    }
}

/// Global-type outcome at `pos`: a value type, then one mutability byte;
/// 0x00 is constant, 0x01 is mutable, and any other byte is a structural
/// failure.
pub open spec fn spec_globaltype(s: Seq<u8>, pos: int) -> Parsed<GlobalType> {
    match spec_valtype(s, pos) {
        Parsed::Found { v: value_type, end } => if end >= s.len() {
            Parsed::Incomplete
        } else if s[end] == 0x00 {
            Parsed::Found { v: GlobalType { value_type, mutable: false }, end: end + 1 }
        } else if s[end] == 0x01 {
            Parsed::Found { v: GlobalType { value_type, mutable: true }, end: end + 1 }
        } else {
            Parsed::Fail { kind: FailKind::Malformed }
        },
        Parsed::Incomplete => Parsed::Incomplete,
        Parsed::Fail { kind } => Parsed::Fail { kind },
    }
}

/// Decodes a global type: a value type, then its mutability byte.
pub fn globaltype_parser(input: &[u8], pos: usize) -> (r: Result<(GlobalType, usize), DecodeErr>)
    requires
        pos <= input@.len(),
    ensures
        decodes_to(r, spec_globaltype(input@, pos as int), Prod::GlobalType, pos),
        r matches Ok((v, end)) ==> pos < end <= input@.len(),
{
    let (value_type, mid) = match valtype_parser(input, pos) {
        Ok(x) => x,
        Err(e) => {
            return Err(e.push(Prod::GlobalType, pos));
        },
    };
    if mid >= input.len() {
        return Err(DecodeErr::new(ErrorKind::Incomplete, Prod::GlobalType, pos));
    }
    let b = input[mid];
    if b == 0x00 {
        Ok((GlobalType { value_type, mutable: false }, mid + 1))
    } else if b == 0x01 {
        Ok((GlobalType { value_type, mutable: true }, mid + 1))
    } else {
        Err(DecodeErr::new(ErrorKind::Malformed, Prod::GlobalType, pos))
    }
}

} // verus!
