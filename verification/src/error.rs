//! Error model shared by every decoder.
//!
//! A failed decode carries an error kind and an ordered list of context
//! frames, outermost production first.  Each production that delegates to a
//! sub-production prefixes its own frame before re-raising, so the frame list
//! reads as a parse trace from `Module` down to the production that failed.
//!
//! The spec-level counterpart of an executable decoder's outcome is
//! [`Parsed`]; the glue predicate [`decodes_to`] says that an executable
//! result agrees with the spec outcome.

use vstd::prelude::*;

verus! {

/// Grammar production names, used as labels in error frames.
#[derive(Clone, Copy, PartialEq, Eq, Structural, Debug)]
pub enum Prod {
    Module,
    Magic,
    Version,
    CustomSection,
    TypeSection,
    ImportSection,
    FuncSection,
    TableSection,
    MemorySection,
    GlobalSection,
    ExportSection,
    StartSection,
    ElementSection,
    CodeSection,
    DataSection,
    DataCountSection,
    LebU8,
    LebU16,
    LebU32,
    LebU64,
    LebU128,
    LebI8,
    LebI16,
    LebI32,
    LebI64,
    LebI128,
    LebI33,
    Vector,
    Name,
    NumType,
    RefType,
    ValType,
    ResultType,
    FuncType,
    Limits,
    TableType,
    GlobalType,
    BlockType,
    Instr,
    Expr,
    Index,
    Import,
    ImportDesc,
    Export,
    ExportDesc,
    Global,
    Elem,
    ElemKind,
    Locals,
    FuncBody,
    Code,
    Data,
}


impl Prod {
    /// The production's name, for rendering a parse trace.
    pub fn label(&self) -> &'static str {
        match self {
            Prod::Module => "module",
            Prod::Magic => "magic",
            Prod::Version => "version",
            Prod::CustomSection => "custom_section",
            Prod::TypeSection => "type_section",
            Prod::ImportSection => "import_section",
            Prod::FuncSection => "func_section",
            Prod::TableSection => "table_section",
            Prod::MemorySection => "memory_section",
            Prod::GlobalSection => "global_section",
            Prod::ExportSection => "export_section",
            Prod::StartSection => "start_section",
            Prod::ElementSection => "element_section",
            Prod::CodeSection => "code_section",
            Prod::DataSection => "data_section",
            Prod::DataCountSection => "data_count_section",
            Prod::LebU8 => "leb128 u8",
            Prod::LebU16 => "leb128 u16",
            Prod::LebU32 => "leb128 u32",
            Prod::LebU64 => "leb128 u64",
            Prod::LebU128 => "leb128 u128",
            Prod::LebI8 => "leb128 i8",
            Prod::LebI16 => "leb128 i16",
            Prod::LebI32 => "leb128 i32",
            Prod::LebI64 => "leb128 i64",
            Prod::LebI128 => "leb128 i128",
            Prod::LebI33 => "leb128 i33",
            Prod::Vector => "vector",
            Prod::Name => "name",
            Prod::NumType => "numtype",
            Prod::RefType => "reftype",
            Prod::ValType => "valtype",
            Prod::ResultType => "resulttype",
            Prod::FuncType => "functype",
            Prod::Limits => "limits",
            Prod::TableType => "tabletype",
            Prod::GlobalType => "globaltype",
            Prod::BlockType => "blocktype",
            Prod::Instr => "instr",
            Prod::Expr => "expr",
            Prod::Index => "index",
            Prod::Import => "import",
            Prod::ImportDesc => "import_desc",
            Prod::Export => "export",
            Prod::ExportDesc => "export_desc",
            Prod::Global => "global",
            Prod::Elem => "elem",
            Prod::ElemKind => "elemkind",
            Prod::Locals => "locals",
            Prod::FuncBody => "func",
            Prod::Code => "code",
            Prod::Data => "data",
        }
    }
}

/// One context frame: the production that was running and the byte position
/// at which it started.
#[derive(Clone, Copy, PartialEq, Eq, Structural, Debug)]
pub struct Frame {
    pub prod: Prod,
    pub pos: usize,
}

/// How a decode attempt failed.
///
/// `Incomplete` is not fatal: the input ended before the production could be
/// completed, and a caller reading from a stream may retry with more bytes.
/// `Malformed` is a structural failure: a bad tag, opcode or encoding shape,
/// a length that is not exactly consumed, or nesting past the depth limit.
/// `Encoding` is a value-level violation inside a well-shaped production:
/// invalid UTF-8 in a name, or a LEB128 value too large for its target
/// width.
#[derive(Clone, Copy, PartialEq, Eq, Structural, Debug)]
pub enum ErrorKind {
    Incomplete,
    Malformed,
    Encoding,
}

/// A structured decode error: the kind, and the parse trace that led to it,
/// outermost production first.
#[derive(Clone, Debug)]
pub struct DecodeErr {
    pub kind: ErrorKind,
    pub frames: Vec<Frame>,
}

/// The fatal failure kinds, as distinguished by the grammar spec functions.
#[derive(PartialEq, Eq, Structural)]
pub enum FailKind {
    Malformed,
    Encoding,
}

/// Spec-level outcome of running one production of the grammar at a byte
/// position: a value and the position one past its encoding, an incomplete
/// input, or a hard failure.
#[verifier::ext_equal]
pub enum Parsed<T> {
    Found { v: T, end: int },
    Incomplete,
    Fail { kind: FailKind },
}

/// The executable result `r` agrees with the spec outcome `sp` of the
/// production `prod` started at `pos`: on success the value's view and the
/// end position are exactly those of the spec outcome, and on failure the
/// error kind matches the spec outcome and the outermost frame is `prod` at
/// `pos`.
pub open spec fn decodes_to<T: DeepView>(
    r: Result<(T, usize), DecodeErr>,
    sp: Parsed<<T as DeepView>::V>,
    prod: Prod,
    pos: usize,
) -> bool {
    match r {
        Ok((v, end)) => sp == (Parsed::Found { v: v.deep_view(), end: end as int }),
        Err(e) => err_matches(e, sp, prod, pos),
    }
}

/// The error's kind agrees with the (non-`Found`) spec outcome `sp`.
pub open spec fn kind_matches<TV>(e: DecodeErr, sp: Parsed<TV>) -> bool {
    match e.kind {
        ErrorKind::Incomplete => sp is Incomplete,
        ErrorKind::Malformed => sp == (Parsed::<TV>::Fail { kind: FailKind::Malformed }),
        ErrorKind::Encoding => sp == (Parsed::<TV>::Fail { kind: FailKind::Encoding }),
    }
}

/// The error `e` agrees with the (non-`Found`) spec outcome `sp`, and its
/// outermost frame is `prod` at `pos`.
pub open spec fn err_matches<TV>(e: DecodeErr, sp: Parsed<TV>, prod: Prod, pos: usize) -> bool {
    &&& e.frames@.len() >= 1
    &&& e.frames@[0] == (Frame { prod, pos })
    &&& kind_matches(e, sp)
}

impl DecodeErr {
    /// A fresh error of the given kind with a single frame.
    pub fn new(kind: ErrorKind, prod: Prod, pos: usize) -> (r: DecodeErr)
        ensures
            r.kind == kind,
            r.frames@ =~= seq![Frame { prod, pos }],
    {
        let mut frames: Vec<Frame> = Vec::new();
        frames.push(Frame { prod, pos });
        DecodeErr { kind, frames }
    }

    /// Prefix the caller's own frame when re-raising a sub-production's
    /// error; the kind is preserved.
    pub fn push(self, prod: Prod, pos: usize) -> (r: DecodeErr)
        ensures
            r.kind == self.kind,
            r.frames@ =~= self.frames@.insert(0, Frame { prod, pos }),
            r.frames@.len() >= 1,
            r.frames@[0] == (Frame { prod, pos }),
    {
        let mut e = self;
        e.frames.insert(0, Frame { prod, pos });
        e
    }
}

} // verus!
