//! Index decoders: each class of definition in a module has its own index
//! space, with zero-based indices assigned in order of definition.  A
//! distinct newtype per space keeps indices from being mixed up; every index
//! is an LEB128-encoded `u32`.

use vstd::prelude::*;

use crate::error::{DecodeErr, Parsed, Prod, decodes_to};
use crate::leb128::{leb128_u32, spec_leb_u32};

verus! {

/// Index into the type index space.
#[derive(Eq, PartialEq, Structural, Debug, Clone, Copy)]
pub struct TypeIdx(pub u32);

impl DeepView for TypeIdx {
    type V = TypeIdx;

    open spec fn deep_view(&self) -> TypeIdx {
        *self
    }
}

/// TypeIdx outcome at `pos`: an LEB128 `u32`.
pub open spec fn spec_typeidx_parser(s: Seq<u8>, pos: int) -> Parsed<TypeIdx> {
    match spec_leb_u32(s, pos) {
        Parsed::Found { v, end } => Parsed::Found { v: TypeIdx(v), end },
        Parsed::Incomplete => Parsed::Incomplete,
        Parsed::Fail { kind } => Parsed::Fail { kind },
    }
}

/// Decodes an index into the type index space.
pub fn typeidx_parser(input: &[u8], pos: usize) -> (r: Result<(TypeIdx, usize), DecodeErr>)
    requires
        pos <= input@.len(),
    ensures
        decodes_to(r, spec_typeidx_parser(input@, pos as int), Prod::Index, pos),
        r matches Ok((v, end)) ==> pos < end <= input@.len(),
{
    match leb128_u32(input, pos) {
        Ok((v, end)) => Ok((TypeIdx(v), end)),
        Err(e) => Err(e.push(Prod::Index, pos)),
    }
}

/// Index into the function index space.
#[derive(Eq, PartialEq, Structural, Debug, Clone, Copy)]
pub struct FuncIdx(pub u32);

impl DeepView for FuncIdx {
    type V = FuncIdx;

    open spec fn deep_view(&self) -> FuncIdx {
        *self
    }
}

/// FuncIdx outcome at `pos`: an LEB128 `u32`.
pub open spec fn spec_funcidx_parser(s: Seq<u8>, pos: int) -> Parsed<FuncIdx> {
    match spec_leb_u32(s, pos) {
        Parsed::Found { v, end } => Parsed::Found { v: FuncIdx(v), end },
        Parsed::Incomplete => Parsed::Incomplete,
        Parsed::Fail { kind } => Parsed::Fail { kind },
    }
}

/// Decodes an index into the function index space.
pub fn funcidx_parser(input: &[u8], pos: usize) -> (r: Result<(FuncIdx, usize), DecodeErr>)
    requires
        pos <= input@.len(),
    ensures
        decodes_to(r, spec_funcidx_parser(input@, pos as int), Prod::Index, pos),
        r matches Ok((v, end)) ==> pos < end <= input@.len(),
{
    match leb128_u32(input, pos) {
        Ok((v, end)) => Ok((FuncIdx(v), end)),
        Err(e) => Err(e.push(Prod::Index, pos)),
    }
}

/// Index into the table index space.
#[derive(Eq, PartialEq, Structural, Debug, Clone, Copy)]
pub struct TableIdx(pub u32);

impl DeepView for TableIdx {
    type V = TableIdx;

    open spec fn deep_view(&self) -> TableIdx {
        *self
    }
}

/// TableIdx outcome at `pos`: an LEB128 `u32`.
pub open spec fn spec_tableidx_parser(s: Seq<u8>, pos: int) -> Parsed<TableIdx> {
    match spec_leb_u32(s, pos) {
        Parsed::Found { v, end } => Parsed::Found { v: TableIdx(v), end },
        Parsed::Incomplete => Parsed::Incomplete,
        Parsed::Fail { kind } => Parsed::Fail { kind },
    }
}

/// Decodes an index into the table index space.
pub fn tableidx_parser(input: &[u8], pos: usize) -> (r: Result<(TableIdx, usize), DecodeErr>)
    requires
        pos <= input@.len(),
    ensures
        decodes_to(r, spec_tableidx_parser(input@, pos as int), Prod::Index, pos),
        r matches Ok((v, end)) ==> pos < end <= input@.len(),
{
    match leb128_u32(input, pos) {
        Ok((v, end)) => Ok((TableIdx(v), end)),
        Err(e) => Err(e.push(Prod::Index, pos)),
    }
}

/// Index into the memory index space.
#[derive(Eq, PartialEq, Structural, Debug, Clone, Copy)]
pub struct MemIdx(pub u32);

impl DeepView for MemIdx {
    type V = MemIdx;

    open spec fn deep_view(&self) -> MemIdx {
        *self
    }
}

/// MemIdx outcome at `pos`: an LEB128 `u32`.
pub open spec fn spec_memidx_parser(s: Seq<u8>, pos: int) -> Parsed<MemIdx> {
    match spec_leb_u32(s, pos) {
        Parsed::Found { v, end } => Parsed::Found { v: MemIdx(v), end },
        Parsed::Incomplete => Parsed::Incomplete,
        Parsed::Fail { kind } => Parsed::Fail { kind },
    }
}

/// Decodes an index into the memory index space.
pub fn memidx_parser(input: &[u8], pos: usize) -> (r: Result<(MemIdx, usize), DecodeErr>)
    requires
        pos <= input@.len(),
    ensures
        decodes_to(r, spec_memidx_parser(input@, pos as int), Prod::Index, pos),
        r matches Ok((v, end)) ==> pos < end <= input@.len(),
{
    match leb128_u32(input, pos) {
        Ok((v, end)) => Ok((MemIdx(v), end)),
        Err(e) => Err(e.push(Prod::Index, pos)),
    }
}

/// Index into the global index space.
#[derive(Eq, PartialEq, Structural, Debug, Clone, Copy)]
pub struct GlobalIdx(pub u32);

impl DeepView for GlobalIdx {
    type V = GlobalIdx;

    open spec fn deep_view(&self) -> GlobalIdx {
        *self
    }
}

/// GlobalIdx outcome at `pos`: an LEB128 `u32`.
pub open spec fn spec_globalidx_parser(s: Seq<u8>, pos: int) -> Parsed<GlobalIdx> {
    match spec_leb_u32(s, pos) {
        Parsed::Found { v, end } => Parsed::Found { v: GlobalIdx(v), end },
        Parsed::Incomplete => Parsed::Incomplete,
        Parsed::Fail { kind } => Parsed::Fail { kind },
    }
}

/// Decodes an index into the global index space.
pub fn globalidx_parser(input: &[u8], pos: usize) -> (r: Result<(GlobalIdx, usize), DecodeErr>)
    requires
        pos <= input@.len(),
    ensures
        decodes_to(r, spec_globalidx_parser(input@, pos as int), Prod::Index, pos),
        r matches Ok((v, end)) ==> pos < end <= input@.len(),
{
    match leb128_u32(input, pos) {
        Ok((v, end)) => Ok((GlobalIdx(v), end)),
        Err(e) => Err(e.push(Prod::Index, pos)),
    }
}

/// Index into the element index space.
#[derive(Eq, PartialEq, Structural, Debug, Clone, Copy)]
pub struct ElemIdx(pub u32);

impl DeepView for ElemIdx {
    type V = ElemIdx;

    open spec fn deep_view(&self) -> ElemIdx {
        *self
    }
}

/// ElemIdx outcome at `pos`: an LEB128 `u32`.
pub open spec fn spec_elemidx_parser(s: Seq<u8>, pos: int) -> Parsed<ElemIdx> {
    match spec_leb_u32(s, pos) {
        Parsed::Found { v, end } => Parsed::Found { v: ElemIdx(v), end },
        Parsed::Incomplete => Parsed::Incomplete,
        Parsed::Fail { kind } => Parsed::Fail { kind },
    }
}

/// Decodes an index into the element index space.
pub fn elemidx_parser(input: &[u8], pos: usize) -> (r: Result<(ElemIdx, usize), DecodeErr>)
    requires
        pos <= input@.len(),
    ensures
        decodes_to(r, spec_elemidx_parser(input@, pos as int), Prod::Index, pos),
        r matches Ok((v, end)) ==> pos < end <= input@.len(),
{
    match leb128_u32(input, pos) {
        Ok((v, end)) => Ok((ElemIdx(v), end)),
        Err(e) => Err(e.push(Prod::Index, pos)),
    }
}

/// Index into the data index space.
#[derive(Eq, PartialEq, Structural, Debug, Clone, Copy)]
pub struct DataIdx(pub u32);

impl DeepView for DataIdx {
    type V = DataIdx;

    open spec fn deep_view(&self) -> DataIdx {
        *self
    }
}

/// DataIdx outcome at `pos`: an LEB128 `u32`.
pub open spec fn spec_dataidx_parser(s: Seq<u8>, pos: int) -> Parsed<DataIdx> {
    match spec_leb_u32(s, pos) {
        Parsed::Found { v, end } => Parsed::Found { v: DataIdx(v), end },
        Parsed::Incomplete => Parsed::Incomplete,
        Parsed::Fail { kind } => Parsed::Fail { kind },
    }
}

/// Decodes an index into the data index space.
pub fn dataidx_parser(input: &[u8], pos: usize) -> (r: Result<(DataIdx, usize), DecodeErr>)
    requires
        pos <= input@.len(),
    ensures
        decodes_to(r, spec_dataidx_parser(input@, pos as int), Prod::Index, pos),
        r matches Ok((v, end)) ==> pos < end <= input@.len(),
{
    match leb128_u32(input, pos) {
        Ok((v, end)) => Ok((DataIdx(v), end)),
        Err(e) => Err(e.push(Prod::Index, pos)),
    }
}

/// Index into the local index space.
#[derive(Eq, PartialEq, Structural, Debug, Clone, Copy)]
pub struct LocalIdx(pub u32);

impl DeepView for LocalIdx {
    type V = LocalIdx;

    open spec fn deep_view(&self) -> LocalIdx {
        *self
    }
}

/// LocalIdx outcome at `pos`: an LEB128 `u32`.
pub open spec fn spec_localidx_parser(s: Seq<u8>, pos: int) -> Parsed<LocalIdx> {
    match spec_leb_u32(s, pos) {
        Parsed::Found { v, end } => Parsed::Found { v: LocalIdx(v), end },
        Parsed::Incomplete => Parsed::Incomplete,
        Parsed::Fail { kind } => Parsed::Fail { kind },
    }
}

/// Decodes an index into the local index space.
pub fn localidx_parser(input: &[u8], pos: usize) -> (r: Result<(LocalIdx, usize), DecodeErr>)
    requires
        pos <= input@.len(),
    ensures
        decodes_to(r, spec_localidx_parser(input@, pos as int), Prod::Index, pos),
        r matches Ok((v, end)) ==> pos < end <= input@.len(),
{
    match leb128_u32(input, pos) {
        Ok((v, end)) => Ok((LocalIdx(v), end)),
        Err(e) => Err(e.push(Prod::Index, pos)),
    }
}

/// Index into the label index space.
#[derive(Eq, PartialEq, Structural, Debug, Clone, Copy)]
pub struct LabelIdx(pub u32);

impl DeepView for LabelIdx {
    type V = LabelIdx;

    open spec fn deep_view(&self) -> LabelIdx {
        *self
    }
}

/// LabelIdx outcome at `pos`: an LEB128 `u32`.
pub open spec fn spec_labelidx_parser(s: Seq<u8>, pos: int) -> Parsed<LabelIdx> {
    match spec_leb_u32(s, pos) {
        Parsed::Found { v, end } => Parsed::Found { v: LabelIdx(v), end },
        Parsed::Incomplete => Parsed::Incomplete,
        Parsed::Fail { kind } => Parsed::Fail { kind },
    }
}

/// Decodes an index into the label index space.
pub fn labelidx_parser(input: &[u8], pos: usize) -> (r: Result<(LabelIdx, usize), DecodeErr>)
    requires
        pos <= input@.len(),
    ensures
        decodes_to(r, spec_labelidx_parser(input@, pos as int), Prod::Index, pos),
        r matches Ok((v, end)) ==> pos < end <= input@.len(),
{
    match leb128_u32(input, pos) {
        Ok((v, end)) => Ok((LabelIdx(v), end)),
        Err(e) => Err(e.push(Prod::Index, pos)),
    }
}

} // verus!
