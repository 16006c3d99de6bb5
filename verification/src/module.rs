//! The module assembler: decodes the fixed 8-byte header, then the twelve
//! non-custom sections in their mandated stream order, each optional and at
//! most once, with custom sections collected permissively between any two
//! of them.  Successful completion requires the input to be fully exhausted;
//! leftover bytes are a hard structural error.
//!
//! The spec decoder is staged: one spec function per ordered section,
//! each consuming a run of custom sections, then its optional section, and
//! delegating the rest of the stream to the next stage.

use vstd::prelude::*;

use crate::error::{DecodeErr, ErrorKind, FailKind, Parsed, Prod, err_matches, kind_matches};
use crate::indices::TypeIdx;
use crate::sections::{
    CodeSection, CodeV, CustomSection, CustomSectionV, DataCountSection, DataSection, DataV,
    ElemV, ElementSection, ExportSec, ExportV, FuncSection, GlobalSection, GlobalV,
    ImportSection, ImportV, Mem, MemSection, StartSection, Table, TableSection, TypeSection,
    code_section_parser, custom_section_parser, data_count_section_parser,
    data_section_parser, element_section_parser, export_section_parser, func_section_parser,
    global_section_parser, import_section_parser, memory_section_parser, spec_code_section,
    spec_custom_section, spec_data_count_section, spec_data_section, spec_element_section,
    spec_export_section, spec_func_section, spec_global_section, spec_import_section,
    spec_memory_section, spec_start_section, spec_table_section, spec_type_section,
    start_section_parser, table_section_parser, type_section_parser,
};
use crate::types::FuncTypeV;

verus! {

/// The decoded module: one optional slot per section kind, each write-once,
/// plus all custom sections in order of appearance.  String and byte
/// payloads are non-owning views into the input buffer.
#[derive(Debug)]
pub struct Module<'a> {
    pub custom_sections: Vec<CustomSection<'a>>,
    pub func_type: Option<TypeSection>,
    pub import: Option<ImportSection<'a>>,
    pub type_idx: Option<FuncSection>,
    pub table: Option<TableSection>,
    pub mem: Option<MemSection>,
    pub global: Option<GlobalSection>,
    pub export: Option<ExportSec<'a>>,
    pub start: Option<StartSection>,
    pub elem: Option<ElementSection>,
    pub m: Option<DataCountSection>,
    pub code: Option<CodeSection>,
    pub data: Option<DataSection<'a>>,
}

/// Spec-level module.
#[verifier::ext_equal]
pub struct ModuleV {
    pub custom_sections: Seq<CustomSectionV>,
    pub func_type: Option<Seq<FuncTypeV>>,
    pub import: Option<Seq<ImportV>>,
    pub type_idx: Option<Seq<TypeIdx>>,
    pub table: Option<Seq<Table>>,
    pub mem: Option<Seq<Mem>>,
    pub global: Option<Seq<GlobalV>>,
    pub export: Option<Seq<ExportV>>,
    pub start: Option<StartSection>,
    pub elem: Option<Seq<ElemV>>,
    pub m: Option<DataCountSection>,
    pub code: Option<Seq<CodeV>>,
    pub data: Option<Seq<DataV>>,
}

impl<'a> DeepView for Module<'a> {
    type V = ModuleV;

    open spec fn deep_view(&self) -> ModuleV {
        ModuleV {
            custom_sections: self.custom_sections.deep_view(),
            func_type: self.func_type.deep_view(),
            import: self.import.deep_view(),
            type_idx: self.type_idx.deep_view(),
            table: self.table.deep_view(),
            mem: self.mem.deep_view(),
            global: self.global.deep_view(),
            export: self.export.deep_view(),
            start: self.start.deep_view(),
            elem: self.elem.deep_view(),
            m: self.m.deep_view(),
            code: self.code.deep_view(),
            data: self.data.deep_view(),
        }
    }
}

/// Outcome of a run of zero or more custom sections at `pos`: it ends at
/// the first position whose byte is not the custom-section id, or at the
/// end of the input.
#[verifier::opaque]
pub open spec fn spec_customs(s: Seq<u8>, pos: int) -> Parsed<Seq<CustomSectionV>>
    decreases s.len() - pos,
{
    if pos >= s.len() || pos < 0 {
        Parsed::Found { v: Seq::empty(), end: pos }
    } else if s[pos] != 0 {
        Parsed::Found { v: Seq::empty(), end: pos }
    } else {
        match spec_custom_section(s, pos) {
            Parsed::Found { v, end } => if pos < end <= s.len() {
                match spec_customs(s, end) {
                    Parsed::Found { v: rest, end: e2 } => Parsed::Found {
                        v: seq![v] + rest,
                        end: e2,
                    },
                    Parsed::Incomplete => Parsed::Incomplete,
                    Parsed::Fail { kind } => Parsed::Fail { kind },
                }
            } else {
                // a custom section always advances within the input; this
                // branch is never taken and makes the recursion measure
                // evident
                Parsed::Fail { kind: FailKind::Malformed }
            },
            Parsed::Incomplete => Parsed::Incomplete,
            Parsed::Fail { kind } => Parsed::Fail { kind },
        }
    }
}

/// Outcome of an optional section with id byte `id` at `pos`: absent when
/// the input is exhausted or the next byte is a different id.
pub open spec fn spec_opt<T>(
    s: Seq<u8>,
    pos: int,
    id: u8,
    sect: spec_fn(Seq<u8>, int) -> Parsed<T>,
) -> Parsed<Option<T>> {
    if pos >= s.len() {
        Parsed::Found { v: None, end: pos }
    } else if s[pos] != id {
        Parsed::Found { v: None, end: pos }
    } else {
        match sect(s, pos) {
            Parsed::Found { v, end } => Parsed::Found { v: Some(v), end },
            Parsed::Incomplete => Parsed::Incomplete,
            Parsed::Fail { kind } => Parsed::Fail { kind },
        }
    }
}

/// The grammar of section id 1, as a first-class spec function.
pub open spec fn type_section_g() -> spec_fn(Seq<u8>, int) -> Parsed<Seq<FuncTypeV>> {
    |s: Seq<u8>, p: int| spec_type_section(s, p)
}

/// The grammar of section id 2, as a first-class spec function.
pub open spec fn import_section_g() -> spec_fn(Seq<u8>, int) -> Parsed<Seq<ImportV>> {
    |s: Seq<u8>, p: int| spec_import_section(s, p)
}

/// The grammar of section id 3, as a first-class spec function.
pub open spec fn func_section_g() -> spec_fn(Seq<u8>, int) -> Parsed<Seq<TypeIdx>> {
    |s: Seq<u8>, p: int| spec_func_section(s, p)
}

/// The grammar of section id 4, as a first-class spec function.
pub open spec fn table_section_g() -> spec_fn(Seq<u8>, int) -> Parsed<Seq<Table>> {
    |s: Seq<u8>, p: int| spec_table_section(s, p)
}

/// The grammar of section id 5, as a first-class spec function.
pub open spec fn memory_section_g() -> spec_fn(Seq<u8>, int) -> Parsed<Seq<Mem>> {
    |s: Seq<u8>, p: int| spec_memory_section(s, p)
}

/// The grammar of section id 6, as a first-class spec function.
pub open spec fn global_section_g() -> spec_fn(Seq<u8>, int) -> Parsed<Seq<GlobalV>> {
    |s: Seq<u8>, p: int| spec_global_section(s, p)
}

/// The grammar of section id 7, as a first-class spec function.
pub open spec fn export_section_g() -> spec_fn(Seq<u8>, int) -> Parsed<Seq<ExportV>> {
    |s: Seq<u8>, p: int| spec_export_section(s, p)
}

/// The grammar of section id 8, as a first-class spec function.
pub open spec fn start_section_g() -> spec_fn(Seq<u8>, int) -> Parsed<StartSection> {
    |s: Seq<u8>, p: int| spec_start_section(s, p)
}

/// The grammar of section id 9, as a first-class spec function.
pub open spec fn element_section_g() -> spec_fn(Seq<u8>, int) -> Parsed<Seq<ElemV>> {
    |s: Seq<u8>, p: int| spec_element_section(s, p)
}

/// The grammar of section id 12, as a first-class spec function.
pub open spec fn data_count_section_g() -> spec_fn(Seq<u8>, int) -> Parsed<DataCountSection> {
    |s: Seq<u8>, p: int| spec_data_count_section(s, p)
}

/// The grammar of section id 10, as a first-class spec function.
pub open spec fn code_section_g() -> spec_fn(Seq<u8>, int) -> Parsed<Seq<CodeV>> {
    |s: Seq<u8>, p: int| spec_code_section(s, p)
}

/// The grammar of section id 11, as a first-class spec function.
pub open spec fn data_section_g() -> spec_fn(Seq<u8>, int) -> Parsed<Seq<DataV>> {
    |s: Seq<u8>, p: int| spec_data_section(s, p)
}

/// The trailing custom sections: the end of the section stream, which must
/// exactly exhaust the input.
#[verifier::opaque]
pub open spec fn spec_stage13(s: Seq<u8>, pos: int) -> Parsed<ModuleV> {
    match spec_customs(s, pos) {
        Parsed::Found { v: cs, end } => if end == s.len() {
            Parsed::Found {
                v: ModuleV {
                    custom_sections: cs,
                    func_type: None,
                    import: None,
                    type_idx: None,
                    table: None,
                    mem: None,
                    global: None,
                    export: None,
                    start: None,
                    elem: None,
                    m: None,
                    code: None,
                    data: None,
                },
                end,
            }
        } else {
            Parsed::Fail { kind: FailKind::Malformed }
        },
        Parsed::Incomplete => Parsed::Incomplete,
        Parsed::Fail { kind } => Parsed::Fail { kind },
    }
}

/// Stage 12 of the section stream: a run of custom sections, an optional
/// section with id 11, then the rest of the stream.
#[verifier::opaque]
pub open spec fn spec_stage12(s: Seq<u8>, pos: int) -> Parsed<ModuleV> {
    match spec_customs(s, pos) {
        Parsed::Found { v: cs, end: e1 } => match spec_opt(s, e1, 11, data_section_g()) {
            Parsed::Found { v: o, end: e2 } => match spec_stage13(s, e2) {
                Parsed::Found { v: mv, end } => Parsed::Found {
                    v: ModuleV {
                        custom_sections: cs + mv.custom_sections,
                        data: o,
                        ..mv
                    },
                    end,
                },
                Parsed::Incomplete => Parsed::Incomplete,
                Parsed::Fail { kind } => Parsed::Fail { kind },
            },
            Parsed::Incomplete => Parsed::Incomplete,
            Parsed::Fail { kind } => Parsed::Fail { kind },
        },
        Parsed::Incomplete => Parsed::Incomplete,
        Parsed::Fail { kind } => Parsed::Fail { kind },
    }
}

/// Stage 11 of the section stream: a run of custom sections, an optional
/// section with id 10, then the rest of the stream.
#[verifier::opaque]
pub open spec fn spec_stage11(s: Seq<u8>, pos: int) -> Parsed<ModuleV> {
    match spec_customs(s, pos) {
        Parsed::Found { v: cs, end: e1 } => match spec_opt(s, e1, 10, code_section_g()) {
            Parsed::Found { v: o, end: e2 } => match spec_stage12(s, e2) {
                Parsed::Found { v: mv, end } => Parsed::Found {
                    v: ModuleV {
                        custom_sections: cs + mv.custom_sections,
                        code: o,
                        ..mv
                    },
                    end,
                },
                Parsed::Incomplete => Parsed::Incomplete,
                Parsed::Fail { kind } => Parsed::Fail { kind },
            },
            Parsed::Incomplete => Parsed::Incomplete,
            Parsed::Fail { kind } => Parsed::Fail { kind },
        },
        Parsed::Incomplete => Parsed::Incomplete,
        Parsed::Fail { kind } => Parsed::Fail { kind },
    }
}

/// Stage 10 of the section stream: a run of custom sections, an optional
/// section with id 12, then the rest of the stream.
#[verifier::opaque]
pub open spec fn spec_stage10(s: Seq<u8>, pos: int) -> Parsed<ModuleV> {
    match spec_customs(s, pos) {
        Parsed::Found { v: cs, end: e1 } => match spec_opt(s, e1, 12, data_count_section_g()) {
            Parsed::Found { v: o, end: e2 } => match spec_stage11(s, e2) {
                Parsed::Found { v: mv, end } => Parsed::Found {
                    v: ModuleV {
                        custom_sections: cs + mv.custom_sections,
                        m: o,
                        ..mv
                    },
                    end,
                },
                Parsed::Incomplete => Parsed::Incomplete,
                Parsed::Fail { kind } => Parsed::Fail { kind },
            },
            Parsed::Incomplete => Parsed::Incomplete,
            Parsed::Fail { kind } => Parsed::Fail { kind },
        },
        Parsed::Incomplete => Parsed::Incomplete,
        Parsed::Fail { kind } => Parsed::Fail { kind },
    }
}

/// Stage 9 of the section stream: a run of custom sections, an optional
/// section with id 9, then the rest of the stream.
#[verifier::opaque]
pub open spec fn spec_stage9(s: Seq<u8>, pos: int) -> Parsed<ModuleV> {
    match spec_customs(s, pos) {
        Parsed::Found { v: cs, end: e1 } => match spec_opt(s, e1, 9, element_section_g()) {
            Parsed::Found { v: o, end: e2 } => match spec_stage10(s, e2) {
                Parsed::Found { v: mv, end } => Parsed::Found {
                    v: ModuleV {
                        custom_sections: cs + mv.custom_sections,
                        elem: o,
                        ..mv
                    },
                    end,
                },
                Parsed::Incomplete => Parsed::Incomplete,
                Parsed::Fail { kind } => Parsed::Fail { kind },
            },
            Parsed::Incomplete => Parsed::Incomplete,
            Parsed::Fail { kind } => Parsed::Fail { kind },
        },
        Parsed::Incomplete => Parsed::Incomplete,
        Parsed::Fail { kind } => Parsed::Fail { kind },
    }
}

/// Stage 8 of the section stream: a run of custom sections, an optional
/// section with id 8, then the rest of the stream.
#[verifier::opaque]
pub open spec fn spec_stage8(s: Seq<u8>, pos: int) -> Parsed<ModuleV> {
    match spec_customs(s, pos) {
        Parsed::Found { v: cs, end: e1 } => match spec_opt(s, e1, 8, start_section_g()) {
            Parsed::Found { v: o, end: e2 } => match spec_stage9(s, e2) {
                Parsed::Found { v: mv, end } => Parsed::Found {
                    v: ModuleV {
                        custom_sections: cs + mv.custom_sections,
                        start: o,
                        ..mv
                    },
                    end,
                },
                Parsed::Incomplete => Parsed::Incomplete,
                Parsed::Fail { kind } => Parsed::Fail { kind },
            },
            Parsed::Incomplete => Parsed::Incomplete,
            Parsed::Fail { kind } => Parsed::Fail { kind },
        },
        Parsed::Incomplete => Parsed::Incomplete,
        Parsed::Fail { kind } => Parsed::Fail { kind },
    }
}

/// Stage 7 of the section stream: a run of custom sections, an optional
/// section with id 7, then the rest of the stream.
#[verifier::opaque]
pub open spec fn spec_stage7(s: Seq<u8>, pos: int) -> Parsed<ModuleV> {
    match spec_customs(s, pos) {
        Parsed::Found { v: cs, end: e1 } => match spec_opt(s, e1, 7, export_section_g()) {
            Parsed::Found { v: o, end: e2 } => match spec_stage8(s, e2) {
                Parsed::Found { v: mv, end } => Parsed::Found {
                    v: ModuleV {
                        custom_sections: cs + mv.custom_sections,
                        export: o,
                        ..mv
                    },
                    end,
                },
                Parsed::Incomplete => Parsed::Incomplete,
                Parsed::Fail { kind } => Parsed::Fail { kind },
            },
            Parsed::Incomplete => Parsed::Incomplete,
            Parsed::Fail { kind } => Parsed::Fail { kind },
        },
        Parsed::Incomplete => Parsed::Incomplete,
        Parsed::Fail { kind } => Parsed::Fail { kind },
    }
}

/// Stage 6 of the section stream: a run of custom sections, an optional
/// section with id 6, then the rest of the stream.
#[verifier::opaque]
pub open spec fn spec_stage6(s: Seq<u8>, pos: int) -> Parsed<ModuleV> {
    match spec_customs(s, pos) {
        Parsed::Found { v: cs, end: e1 } => match spec_opt(s, e1, 6, global_section_g()) {
            Parsed::Found { v: o, end: e2 } => match spec_stage7(s, e2) {
                Parsed::Found { v: mv, end } => Parsed::Found {
                    v: ModuleV {
                        custom_sections: cs + mv.custom_sections,
                        global: o,
                        ..mv
                    },
                    end,
                },
                Parsed::Incomplete => Parsed::Incomplete,
                Parsed::Fail { kind } => Parsed::Fail { kind },
            },
            Parsed::Incomplete => Parsed::Incomplete,
            Parsed::Fail { kind } => Parsed::Fail { kind },
        },
        Parsed::Incomplete => Parsed::Incomplete,
        Parsed::Fail { kind } => Parsed::Fail { kind },
    }
}

/// Stage 5 of the section stream: a run of custom sections, an optional
/// section with id 5, then the rest of the stream.
#[verifier::opaque]
pub open spec fn spec_stage5(s: Seq<u8>, pos: int) -> Parsed<ModuleV> {
    match spec_customs(s, pos) {
        Parsed::Found { v: cs, end: e1 } => match spec_opt(s, e1, 5, memory_section_g()) {
            Parsed::Found { v: o, end: e2 } => match spec_stage6(s, e2) {
                Parsed::Found { v: mv, end } => Parsed::Found {
                    v: ModuleV {
                        custom_sections: cs + mv.custom_sections,
                        mem: o,
                        ..mv
                    },
                    end,
                },
                Parsed::Incomplete => Parsed::Incomplete,
                Parsed::Fail { kind } => Parsed::Fail { kind },
            },
            Parsed::Incomplete => Parsed::Incomplete,
            Parsed::Fail { kind } => Parsed::Fail { kind },
        },
        Parsed::Incomplete => Parsed::Incomplete,
        Parsed::Fail { kind } => Parsed::Fail { kind },
    }
}

/// Stage 4 of the section stream: a run of custom sections, an optional
/// section with id 4, then the rest of the stream.
#[verifier::opaque]
pub open spec fn spec_stage4(s: Seq<u8>, pos: int) -> Parsed<ModuleV> {
    match spec_customs(s, pos) {
        Parsed::Found { v: cs, end: e1 } => match spec_opt(s, e1, 4, table_section_g()) {
            Parsed::Found { v: o, end: e2 } => match spec_stage5(s, e2) {
                Parsed::Found { v: mv, end } => Parsed::Found {
                    v: ModuleV {
                        custom_sections: cs + mv.custom_sections,
                        table: o,
                        ..mv
                    },
                    end,
                },
                Parsed::Incomplete => Parsed::Incomplete,
                Parsed::Fail { kind } => Parsed::Fail { kind },
            },
            Parsed::Incomplete => Parsed::Incomplete,
            Parsed::Fail { kind } => Parsed::Fail { kind },
        },
        Parsed::Incomplete => Parsed::Incomplete,
        Parsed::Fail { kind } => Parsed::Fail { kind },
    }
}

/// Stage 3 of the section stream: a run of custom sections, an optional
/// section with id 3, then the rest of the stream.
#[verifier::opaque]
pub open spec fn spec_stage3(s: Seq<u8>, pos: int) -> Parsed<ModuleV> {
    match spec_customs(s, pos) {
        Parsed::Found { v: cs, end: e1 } => match spec_opt(s, e1, 3, func_section_g()) {
            Parsed::Found { v: o, end: e2 } => match spec_stage4(s, e2) {
                Parsed::Found { v: mv, end } => Parsed::Found {
                    v: ModuleV {
                        custom_sections: cs + mv.custom_sections,
                        type_idx: o,
                        ..mv
                    },
                    end,
                },
                Parsed::Incomplete => Parsed::Incomplete,
                Parsed::Fail { kind } => Parsed::Fail { kind },
            },
            Parsed::Incomplete => Parsed::Incomplete,
            Parsed::Fail { kind } => Parsed::Fail { kind },
        },
        Parsed::Incomplete => Parsed::Incomplete,
        Parsed::Fail { kind } => Parsed::Fail { kind },
    }
}

/// Stage 2 of the section stream: a run of custom sections, an optional
/// section with id 2, then the rest of the stream.
#[verifier::opaque]
pub open spec fn spec_stage2(s: Seq<u8>, pos: int) -> Parsed<ModuleV> {
    match spec_customs(s, pos) {
        Parsed::Found { v: cs, end: e1 } => match spec_opt(s, e1, 2, import_section_g()) {
            Parsed::Found { v: o, end: e2 } => match spec_stage3(s, e2) {
                Parsed::Found { v: mv, end } => Parsed::Found {
                    v: ModuleV {
                        custom_sections: cs + mv.custom_sections,
                        import: o,
                        ..mv
                    },
                    end,
                },
                Parsed::Incomplete => Parsed::Incomplete,
                Parsed::Fail { kind } => Parsed::Fail { kind },
            },
            Parsed::Incomplete => Parsed::Incomplete,
            Parsed::Fail { kind } => Parsed::Fail { kind },
        },
        Parsed::Incomplete => Parsed::Incomplete,
        Parsed::Fail { kind } => Parsed::Fail { kind },
    }
}

/// Stage 1 of the section stream: a run of custom sections, an optional
/// section with id 1, then the rest of the stream.
#[verifier::opaque]
pub open spec fn spec_stage1(s: Seq<u8>, pos: int) -> Parsed<ModuleV> {
    match spec_customs(s, pos) {
        Parsed::Found { v: cs, end: e1 } => match spec_opt(s, e1, 1, type_section_g()) {
            Parsed::Found { v: o, end: e2 } => match spec_stage2(s, e2) {
                Parsed::Found { v: mv, end } => Parsed::Found {
                    v: ModuleV {
                        custom_sections: cs + mv.custom_sections,
                        func_type: o,
                        ..mv
                    },
                    end,
                },
                Parsed::Incomplete => Parsed::Incomplete,
                Parsed::Fail { kind } => Parsed::Fail { kind },
            },
            Parsed::Incomplete => Parsed::Incomplete,
            Parsed::Fail { kind } => Parsed::Fail { kind },
        },
        Parsed::Incomplete => Parsed::Incomplete,
        Parsed::Fail { kind } => Parsed::Fail { kind },
    }
}

/// Module outcome: the magic bytes 0x00 0x61 0x73 0x6D, the version bytes
/// 0x01 0x00 0x00 0x00, then the section stream; any header mismatch is a
/// structural failure.
#[verifier::opaque]
pub open spec fn spec_module(s: Seq<u8>) -> Parsed<ModuleV> {
    if s.len() < 4 {
        Parsed::Incomplete
    } else if !(s[0] == 0x00 && s[1] == 0x61 && s[2] == 0x73 && s[3] == 0x6D) {
        Parsed::Fail { kind: FailKind::Malformed }
    } else if s.len() < 8 {
        Parsed::Incomplete
    } else if !(s[4] == 0x01 && s[5] == 0x00 && s[6] == 0x00 && s[7] == 0x00) {
        Parsed::Fail { kind: FailKind::Malformed }
    } else {
        spec_stage1(s, 8)
    }
}

/// Decodes a run of zero or more custom sections.
fn customs_parser<'a>(input: &'a [u8], pos: usize) -> (r: Result<
    (Vec<CustomSection<'a>>, usize),
    DecodeErr,
>)
    requires
        pos <= input@.len(),
    ensures
        ({
            let sp = spec_customs(input@, pos as int);
            match r {
                Ok((v, end)) => {
                    &&& sp == (Parsed::Found { v: v.deep_view(), end: end as int })
                    &&& pos <= end <= input@.len()
                },
                Err(e) => kind_matches(e, sp) && e.frames@.len() >= 1,
            }
        }),
{
    let mut out: Vec<CustomSection<'a>> = Vec::new();
    let mut cur: usize = pos;
    proof {
        reveal(spec_customs);
        assert(out.deep_view() =~= Seq::<CustomSectionV>::empty());
    }
    #[verifier::loop_isolation(false)]
    loop
        invariant
            pos <= cur <= input@.len(),
            spec_customs(input@, pos as int) == (match spec_customs(input@, cur as int) {
                Parsed::Found { v: rest, end } => Parsed::Found {
                    v: out.deep_view() + rest,
                    end,
                },
                Parsed::Incomplete => Parsed::<Seq<CustomSectionV>>::Incomplete,
                Parsed::Fail { kind } => Parsed::<Seq<CustomSectionV>>::Fail { kind },
            }),
        decreases input@.len() - cur,
    {
        if cur >= input.len() || input[cur] != 0 {
            proof {
                reveal(spec_customs);
                assert(out.deep_view() + Seq::<CustomSectionV>::empty() =~= out.deep_view());
            }
            return Ok((out, cur));
        }
        let ghost pre = out.deep_view();
        match custom_section_parser(input, cur) {
            Ok((v, end)) => {
                out.push(v);
                proof {
                    reveal(spec_customs);
                    assert(out.deep_view() =~= pre.push(v.deep_view()));
                    match spec_customs(input@, end as int) {
                        Parsed::Found { v: r2, end: e2 } => {
                            assert(pre + (seq![v.deep_view()] + r2) =~= pre.push(v.deep_view())
                                + r2);
                        },
                        _ => {},
                    }
                }
                cur = end;
            },
            Err(e) => {
                return Err(e);
            },
        }
    }
}

/// Decodes the end of the section stream: the code and data sections, then
/// any trailing custom sections, which must exhaust the input.
#[verifier::rlimit(100)]
fn stream_tail5_parser<'a>(input: &'a [u8], pos: usize) -> (r: Result<Module<'a>, DecodeErr>)
    requires
        pos <= input@.len(),
    ensures
        ({
            let sp = spec_stage11(input@, pos as int);
            match r {
                Ok(m) => sp == (Parsed::Found { v: m.deep_view(), end: input@.len() as int }),
                Err(e) => kind_matches(e, sp) && e.frames@.len() >= 1,
            }
        }),
{
    proof {
        reveal(spec_stage11);
        reveal(spec_stage12);
        reveal(spec_stage13);
    }
    let mut customs: Vec<CustomSection<'a>> = Vec::new();
    let mut cur: usize = pos;
    let ghost pos11 = cur as int;
    let (mut cs11, e11) = match customs_parser(input, cur) {
        Ok(x) => x,
        Err(e) => {
            return Err(e);
        },
    };
    let ghost gcs11 = cs11.deep_view();
    customs.append(&mut cs11);
    cur = e11;
    let code: Option<CodeSection> = if cur < input.len() && input[cur] == 10 {
        match code_section_parser(input, cur) {
            Ok((v, end)) => {
                cur = end;
                Some(v)
            },
            Err(e) => {
                return Err(e);
            },
        }
    } else {
        None
    };
    proof {
        reveal(spec_stage11);
        assert(spec_stage11(input@, pos11) == (match spec_stage12(input@, cur as int) {
            Parsed::Found { v: mv, end } => Parsed::Found {
                v: ModuleV {
                    custom_sections: gcs11 + mv.custom_sections,
                    code: code.deep_view(),
                    ..mv
                },
                end,
            },
            Parsed::Incomplete => Parsed::<ModuleV>::Incomplete,
            Parsed::Fail { kind } => Parsed::<ModuleV>::Fail { kind },
        }));
    }
    let ghost pos12 = cur as int;
    let (mut cs12, e12) = match customs_parser(input, cur) {
        Ok(x) => x,
        Err(e) => {
            return Err(e);
        },
    };
    let ghost gcs12 = cs12.deep_view();
    customs.append(&mut cs12);
    cur = e12;
    let data: Option<DataSection<'a>> = if cur < input.len() && input[cur] == 11 {
        match data_section_parser(input, cur) {
            Ok((v, end)) => {
                cur = end;
                Some(v)
            },
            Err(e) => {
                return Err(e);
            },
        }
    } else {
        None
    };
    proof {
        reveal(spec_stage12);
        assert(spec_stage12(input@, pos12) == (match spec_stage13(input@, cur as int) {
            Parsed::Found { v: mv, end } => Parsed::Found {
                v: ModuleV {
                    custom_sections: gcs12 + mv.custom_sections,
                    data: data.deep_view(),
                    ..mv
                },
                end,
            },
            Parsed::Incomplete => Parsed::<ModuleV>::Incomplete,
            Parsed::Fail { kind } => Parsed::<ModuleV>::Fail { kind },
        }));
    }
    let ghost pos13 = cur as int;
    let (mut cs13, e13) = match customs_parser(input, cur) {
        Ok(x) => x,
        Err(e) => {
            return Err(e);
        },
    };
    let ghost gcs13 = cs13.deep_view();
    customs.append(&mut cs13);
    cur = e13;
    if cur != input.len() {
        return Err(DecodeErr::new(ErrorKind::Malformed, Prod::Module, 0));
    }
    let m = Module {
        custom_sections: customs,
        func_type: None,
        import: None,
        type_idx: None,
        table: None,
        mem: None,
        global: None,
        export: None,
        start: None,
        elem: None,
        m: None,
        code,
        data,
    };
    proof {
        reveal(spec_stage13);
        let ghost len = input@.len() as int;
        let ghost mv13 = ModuleV {
            custom_sections: gcs13,
            func_type: None,
            import: None,
            type_idx: None,
            table: None,
            mem: None,
            global: None,
            export: None,
            start: None,
            elem: None,
            m: None,
            code: None,
            data: None,
        };
        assert(spec_stage13(input@, pos13) == (Parsed::Found { v: mv13, end: len }));
        let ghost mv12 = ModuleV {
            custom_sections: gcs12 + mv13.custom_sections,
            data: m.data.deep_view(),
            ..mv13
        };
        assert(spec_stage12(input@, pos12) == (Parsed::Found { v: mv12, end: len }));
        let ghost mv11 = ModuleV {
            custom_sections: gcs11 + mv12.custom_sections,
            code: m.code.deep_view(),
            ..mv12
        };
        assert(spec_stage11(input@, pos11) == (Parsed::Found { v: mv11, end: len }));
        assert(m.custom_sections.deep_view() =~= mv11.custom_sections);
        assert(mv11 =~= m.deep_view());
    }
    Ok(m)
}

/// Decodes the element and data-count sections, then the rest of the stream.
#[verifier::rlimit(100)]
fn stream_tail4_parser<'a>(input: &'a [u8], pos: usize) -> (r: Result<Module<'a>, DecodeErr>)
    requires
        pos <= input@.len(),
    ensures
        ({
            let sp = spec_stage9(input@, pos as int);
            match r {
                Ok(m) => sp == (Parsed::Found { v: m.deep_view(), end: input@.len() as int }),
                Err(e) => kind_matches(e, sp) && e.frames@.len() >= 1,
            }
        }),
{
    proof {
        reveal(spec_stage9);
        reveal(spec_stage10);
    }
    let mut customs: Vec<CustomSection<'a>> = Vec::new();
    let mut cur: usize = pos;
    let ghost pos9 = cur as int;
    let (mut cs9, e9) = match customs_parser(input, cur) {
        Ok(x) => x,
        Err(e) => {
            return Err(e);
        },
    };
    let ghost gcs9 = cs9.deep_view();
    customs.append(&mut cs9);
    cur = e9;
    let elem: Option<ElementSection> = if cur < input.len() && input[cur] == 9 {
        match element_section_parser(input, cur) {
            Ok((v, end)) => {
                cur = end;
                Some(v)
            },
            Err(e) => {
                return Err(e);
            },
        }
    } else {
        None
    };
    proof {
        reveal(spec_stage9);
        assert(spec_stage9(input@, pos9) == (match spec_stage10(input@, cur as int) {
            Parsed::Found { v: mv, end } => Parsed::Found {
                v: ModuleV {
                    custom_sections: gcs9 + mv.custom_sections,
                    elem: elem.deep_view(),
                    ..mv
                },
                end,
            },
            Parsed::Incomplete => Parsed::<ModuleV>::Incomplete,
            Parsed::Fail { kind } => Parsed::<ModuleV>::Fail { kind },
        }));
    }
    let ghost pos10 = cur as int;
    let (mut cs10, e10) = match customs_parser(input, cur) {
        Ok(x) => x,
        Err(e) => {
            return Err(e);
        },
    };
    let ghost gcs10 = cs10.deep_view();
    customs.append(&mut cs10);
    cur = e10;
    let m: Option<DataCountSection> = if cur < input.len() && input[cur] == 12 {
        match data_count_section_parser(input, cur) {
            Ok((v, end)) => {
                cur = end;
                Some(v)
            },
            Err(e) => {
                return Err(e);
            },
        }
    } else {
        None
    };
    proof {
        reveal(spec_stage10);
        assert(spec_stage10(input@, pos10) == (match spec_stage11(input@, cur as int) {
            Parsed::Found { v: mv, end } => Parsed::Found {
                v: ModuleV {
                    custom_sections: gcs10 + mv.custom_sections,
                    m: m.deep_view(),
                    ..mv
                },
                end,
            },
            Parsed::Incomplete => Parsed::<ModuleV>::Incomplete,
            Parsed::Fail { kind } => Parsed::<ModuleV>::Fail { kind },
        }));
    }
    let mt = match stream_tail5_parser(input, cur) {
        Ok(x) => x,
        Err(e) => {
            return Err(e);
        },
    };
    let ghost gmt = mt.deep_view();
    let mut cs_tail = mt.custom_sections;
    customs.append(&mut cs_tail);
    let m = Module {
        custom_sections: customs,
        func_type: mt.func_type,
        import: mt.import,
        type_idx: mt.type_idx,
        table: mt.table,
        mem: mt.mem,
        global: mt.global,
        export: mt.export,
        start: mt.start,
        elem,
        m,
        code: mt.code,
        data: mt.data,
    };
    proof {
        let ghost len = input@.len() as int;
        let ghost mv10 = ModuleV {
            custom_sections: gcs10 + gmt.custom_sections,
            m: m.m.deep_view(),
            ..gmt
        };
        assert(spec_stage10(input@, pos10) == (Parsed::Found { v: mv10, end: len }));
        let ghost mv9 = ModuleV {
            custom_sections: gcs9 + mv10.custom_sections,
            elem: m.elem.deep_view(),
            ..mv10
        };
        assert(spec_stage9(input@, pos9) == (Parsed::Found { v: mv9, end: len }));
        assert(m.custom_sections.deep_view() =~= mv9.custom_sections);
        assert(mv9 =~= m.deep_view());
    }
    Ok(m)
}

/// Decodes the export and start sections, then the rest of the stream.
#[verifier::rlimit(100)]
fn stream_tail3_parser<'a>(input: &'a [u8], pos: usize) -> (r: Result<Module<'a>, DecodeErr>)
    requires
        pos <= input@.len(),
    ensures
        ({
            let sp = spec_stage7(input@, pos as int);
            match r {
                Ok(m) => sp == (Parsed::Found { v: m.deep_view(), end: input@.len() as int }),
                Err(e) => kind_matches(e, sp) && e.frames@.len() >= 1,
            }
        }),
{
    proof {
        reveal(spec_stage7);
        reveal(spec_stage8);
    }
    let mut customs: Vec<CustomSection<'a>> = Vec::new();
    let mut cur: usize = pos;
    let ghost pos7 = cur as int;
    let (mut cs7, e7) = match customs_parser(input, cur) {
        Ok(x) => x,
        Err(e) => {
            return Err(e);
        },
    };
    let ghost gcs7 = cs7.deep_view();
    customs.append(&mut cs7);
    cur = e7;
    let export: Option<ExportSec<'a>> = if cur < input.len() && input[cur] == 7 {
        match export_section_parser(input, cur) {
            Ok((v, end)) => {
                cur = end;
                Some(v)
            },
            Err(e) => {
                return Err(e);
            },
        }
    } else {
        None
    };
    proof {
        reveal(spec_stage7);
        assert(spec_stage7(input@, pos7) == (match spec_stage8(input@, cur as int) {
            Parsed::Found { v: mv, end } => Parsed::Found {
                v: ModuleV {
                    custom_sections: gcs7 + mv.custom_sections,
                    export: export.deep_view(),
                    ..mv
                },
                end,
            },
            Parsed::Incomplete => Parsed::<ModuleV>::Incomplete,
            Parsed::Fail { kind } => Parsed::<ModuleV>::Fail { kind },
        }));
    }
    let ghost pos8 = cur as int;
    let (mut cs8, e8) = match customs_parser(input, cur) {
        Ok(x) => x,
        Err(e) => {
            return Err(e);
        },
    };
    let ghost gcs8 = cs8.deep_view();
    customs.append(&mut cs8);
    cur = e8;
    let start: Option<StartSection> = if cur < input.len() && input[cur] == 8 {
        match start_section_parser(input, cur) {
            Ok((v, end)) => {
                cur = end;
                Some(v)
            },
            Err(e) => {
                return Err(e);
            },
        }
    } else {
        None
    };
    proof {
        reveal(spec_stage8);
        assert(spec_stage8(input@, pos8) == (match spec_stage9(input@, cur as int) {
            Parsed::Found { v: mv, end } => Parsed::Found {
                v: ModuleV {
                    custom_sections: gcs8 + mv.custom_sections,
                    start: start.deep_view(),
                    ..mv
                },
                end,
            },
            Parsed::Incomplete => Parsed::<ModuleV>::Incomplete,
            Parsed::Fail { kind } => Parsed::<ModuleV>::Fail { kind },
        }));
    }
    let mt = match stream_tail4_parser(input, cur) {
        Ok(x) => x,
        Err(e) => {
            return Err(e);
        },
    };
    let ghost gmt = mt.deep_view();
    let mut cs_tail = mt.custom_sections;
    customs.append(&mut cs_tail);
    let m = Module {
        custom_sections: customs,
        func_type: mt.func_type,
        import: mt.import,
        type_idx: mt.type_idx,
        table: mt.table,
        mem: mt.mem,
        global: mt.global,
        export,
        start,
        elem: mt.elem,
        m: mt.m,
        code: mt.code,
        data: mt.data,
    };
    proof {
        let ghost len = input@.len() as int;
        let ghost mv8 = ModuleV {
            custom_sections: gcs8 + gmt.custom_sections,
            start: m.start.deep_view(),
            ..gmt
        };
        assert(spec_stage8(input@, pos8) == (Parsed::Found { v: mv8, end: len }));
        let ghost mv7 = ModuleV {
            custom_sections: gcs7 + mv8.custom_sections,
            export: m.export.deep_view(),
            ..mv8
        };
        assert(spec_stage7(input@, pos7) == (Parsed::Found { v: mv7, end: len }));
        assert(m.custom_sections.deep_view() =~= mv7.custom_sections);
        assert(mv7 =~= m.deep_view());
    }
    Ok(m)
}

/// Decodes the memory and global sections, then the rest of the stream.
#[verifier::rlimit(100)]
fn stream_tail2_parser<'a>(input: &'a [u8], pos: usize) -> (r: Result<Module<'a>, DecodeErr>)
    requires
        pos <= input@.len(),
    ensures
        ({
            let sp = spec_stage5(input@, pos as int);
            match r {
                Ok(m) => sp == (Parsed::Found { v: m.deep_view(), end: input@.len() as int }),
                Err(e) => kind_matches(e, sp) && e.frames@.len() >= 1,
            }
        }),
{
    proof {
        reveal(spec_stage5);
        reveal(spec_stage6);
    }
    let mut customs: Vec<CustomSection<'a>> = Vec::new();
    let mut cur: usize = pos;
    let ghost pos5 = cur as int;
    let (mut cs5, e5) = match customs_parser(input, cur) {
        Ok(x) => x,
        Err(e) => {
            return Err(e);
        },
    };
    let ghost gcs5 = cs5.deep_view();
    customs.append(&mut cs5);
    cur = e5;
    let mem: Option<MemSection> = if cur < input.len() && input[cur] == 5 {
        match memory_section_parser(input, cur) {
            Ok((v, end)) => {
                cur = end;
                Some(v)
            },
            Err(e) => {
                return Err(e);
            },
        }
    } else {
        None
    };
    proof {
        reveal(spec_stage5);
        assert(spec_stage5(input@, pos5) == (match spec_stage6(input@, cur as int) {
            Parsed::Found { v: mv, end } => Parsed::Found {
                v: ModuleV {
                    custom_sections: gcs5 + mv.custom_sections,
                    mem: mem.deep_view(),
                    ..mv
                },
                end,
            },
            Parsed::Incomplete => Parsed::<ModuleV>::Incomplete,
            Parsed::Fail { kind } => Parsed::<ModuleV>::Fail { kind },
        }));
    }
    let ghost pos6 = cur as int;
    let (mut cs6, e6) = match customs_parser(input, cur) {
        Ok(x) => x,
        Err(e) => {
            return Err(e);
        },
    };
    let ghost gcs6 = cs6.deep_view();
    customs.append(&mut cs6);
    cur = e6;
    let global: Option<GlobalSection> = if cur < input.len() && input[cur] == 6 {
        match global_section_parser(input, cur) {
            Ok((v, end)) => {
                cur = end;
                Some(v)
            },
            Err(e) => {
                return Err(e);
            },
        }
    } else {
        None
    };
    proof {
        reveal(spec_stage6);
        assert(spec_stage6(input@, pos6) == (match spec_stage7(input@, cur as int) {
            Parsed::Found { v: mv, end } => Parsed::Found {
                v: ModuleV {
                    custom_sections: gcs6 + mv.custom_sections,
                    global: global.deep_view(),
                    ..mv
                },
                end,
            },
            Parsed::Incomplete => Parsed::<ModuleV>::Incomplete,
            Parsed::Fail { kind } => Parsed::<ModuleV>::Fail { kind },
        }));
    }
    let mt = match stream_tail3_parser(input, cur) {
        Ok(x) => x,
        Err(e) => {
            return Err(e);
        },
    };
    let ghost gmt = mt.deep_view();
    let mut cs_tail = mt.custom_sections;
    customs.append(&mut cs_tail);
    let m = Module {
        custom_sections: customs,
        func_type: mt.func_type,
        import: mt.import,
        type_idx: mt.type_idx,
        table: mt.table,
        mem,
        global,
        export: mt.export,
        start: mt.start,
        elem: mt.elem,
        m: mt.m,
        code: mt.code,
        data: mt.data,
    };
    proof {
        let ghost len = input@.len() as int;
        let ghost mv6 = ModuleV {
            custom_sections: gcs6 + gmt.custom_sections,
            global: m.global.deep_view(),
            ..gmt
        };
        assert(spec_stage6(input@, pos6) == (Parsed::Found { v: mv6, end: len }));
        let ghost mv5 = ModuleV {
            custom_sections: gcs5 + mv6.custom_sections,
            mem: m.mem.deep_view(),
            ..mv6
        };
        assert(spec_stage5(input@, pos5) == (Parsed::Found { v: mv5, end: len }));
        assert(m.custom_sections.deep_view() =~= mv5.custom_sections);
        assert(mv5 =~= m.deep_view());
    }
    Ok(m)
}

/// Decodes the function and table sections, then the rest of the stream.
#[verifier::rlimit(100)]
fn stream_tail1_parser<'a>(input: &'a [u8], pos: usize) -> (r: Result<Module<'a>, DecodeErr>)
    requires
        pos <= input@.len(),
    ensures
        ({
            let sp = spec_stage3(input@, pos as int);
            match r {
                Ok(m) => sp == (Parsed::Found { v: m.deep_view(), end: input@.len() as int }),
                Err(e) => kind_matches(e, sp) && e.frames@.len() >= 1,
            }
        }),
{
    proof {
        reveal(spec_stage3);
        reveal(spec_stage4);
    }
    let mut customs: Vec<CustomSection<'a>> = Vec::new();
    let mut cur: usize = pos;
    let ghost pos3 = cur as int;
    let (mut cs3, e3) = match customs_parser(input, cur) {
        Ok(x) => x,
        Err(e) => {
            return Err(e);
        },
    };
    let ghost gcs3 = cs3.deep_view();
    customs.append(&mut cs3);
    cur = e3;
    let type_idx: Option<FuncSection> = if cur < input.len() && input[cur] == 3 {
        match func_section_parser(input, cur) {
            Ok((v, end)) => {
                cur = end;
                Some(v)
            },
            Err(e) => {
                return Err(e);
            },
        }
    } else {
        None
    };
    proof {
        reveal(spec_stage3);
        assert(spec_stage3(input@, pos3) == (match spec_stage4(input@, cur as int) {
            Parsed::Found { v: mv, end } => Parsed::Found {
                v: ModuleV {
                    custom_sections: gcs3 + mv.custom_sections,
                    type_idx: type_idx.deep_view(),
                    ..mv
                },
                end,
            },
            Parsed::Incomplete => Parsed::<ModuleV>::Incomplete,
            Parsed::Fail { kind } => Parsed::<ModuleV>::Fail { kind },
        }));
    }
    let ghost pos4 = cur as int;
    let (mut cs4, e4) = match customs_parser(input, cur) {
        Ok(x) => x,
        Err(e) => {
            return Err(e);
        },
    };
    let ghost gcs4 = cs4.deep_view();
    customs.append(&mut cs4);
    cur = e4;
    let table: Option<TableSection> = if cur < input.len() && input[cur] == 4 {
        match table_section_parser(input, cur) {
            Ok((v, end)) => {
                cur = end;
                Some(v)
            },
            Err(e) => {
                return Err(e);
            },
        }
    } else {
        None
    };
    proof {
        reveal(spec_stage4);
        assert(spec_stage4(input@, pos4) == (match spec_stage5(input@, cur as int) {
            Parsed::Found { v: mv, end } => Parsed::Found {
                v: ModuleV {
                    custom_sections: gcs4 + mv.custom_sections,
                    table: table.deep_view(),
                    ..mv
                },
                end,
            },
            Parsed::Incomplete => Parsed::<ModuleV>::Incomplete,
            Parsed::Fail { kind } => Parsed::<ModuleV>::Fail { kind },
        }));
    }
    let mt = match stream_tail2_parser(input, cur) {
        Ok(x) => x,
        Err(e) => {
            return Err(e);
        },
    };
    let ghost gmt = mt.deep_view();
    let mut cs_tail = mt.custom_sections;
    customs.append(&mut cs_tail);
    let m = Module {
        custom_sections: customs,
        func_type: mt.func_type,
        import: mt.import,
        type_idx,
        table,
        mem: mt.mem,
        global: mt.global,
        export: mt.export,
        start: mt.start,
        elem: mt.elem,
        m: mt.m,
        code: mt.code,
        data: mt.data,
    };
    proof {
        let ghost len = input@.len() as int;
        let ghost mv4 = ModuleV {
            custom_sections: gcs4 + gmt.custom_sections,
            table: m.table.deep_view(),
            ..gmt
        };
        assert(spec_stage4(input@, pos4) == (Parsed::Found { v: mv4, end: len }));
        let ghost mv3 = ModuleV {
            custom_sections: gcs3 + mv4.custom_sections,
            type_idx: m.type_idx.deep_view(),
            ..mv4
        };
        assert(spec_stage3(input@, pos3) == (Parsed::Found { v: mv3, end: len }));
        assert(m.custom_sections.deep_view() =~= mv3.custom_sections);
        assert(mv3 =~= m.deep_view());
    }
    Ok(m)
}

/// Decodes a whole module: the 8-byte header, the ordered optional
/// sections with custom sections collected in between, and nothing left
/// over.
#[verifier::rlimit(100)]
pub fn module_parser<'a>(input: &'a [u8]) -> (r: Result<Module<'a>, DecodeErr>)
    ensures
        ({
            let sp = spec_module(input@);
            match r {
                Ok(m) => sp == (Parsed::Found { v: m.deep_view(), end: input@.len() as int }),
                Err(e) => err_matches(e, sp, Prod::Module, 0),
            }
        }),
{
    proof {
        reveal(spec_module);
        reveal(spec_stage1);
        reveal(spec_stage2);
    }
    if input.len() < 4 {
        return Err(DecodeErr::new(ErrorKind::Incomplete, Prod::Magic, 0).push(Prod::Module, 0));
    }
    if !(input[0] == 0x00 && input[1] == 0x61 && input[2] == 0x73 && input[3] == 0x6D) {
        return Err(DecodeErr::new(ErrorKind::Malformed, Prod::Magic, 0).push(Prod::Module, 0));
    }
    if input.len() < 8 {
        return Err(DecodeErr::new(ErrorKind::Incomplete, Prod::Version, 4).push(Prod::Module, 0));
    }
    if !(input[4] == 0x01 && input[5] == 0x00 && input[6] == 0x00 && input[7] == 0x00) {
        return Err(DecodeErr::new(ErrorKind::Malformed, Prod::Version, 4).push(Prod::Module, 0));
    }
    let mut customs: Vec<CustomSection<'a>> = Vec::new();
    let mut cur: usize = 8;
    let ghost pos1 = cur as int;
    let (mut cs1, e1) = match customs_parser(input, cur) {
        Ok(x) => x,
        Err(e) => {
            return Err(e.push(Prod::Module, 0));
        },
    };
    let ghost gcs1 = cs1.deep_view();
    customs.append(&mut cs1);
    cur = e1;
    let func_type: Option<TypeSection> = if cur < input.len() && input[cur] == 1 {
        match type_section_parser(input, cur) {
            Ok((v, end)) => {
                cur = end;
                Some(v)
            },
            Err(e) => {
                return Err(e.push(Prod::Module, 0));
            },
        }
    } else {
        None
    };
    proof {
        reveal(spec_stage1);
        assert(spec_stage1(input@, pos1) == (match spec_stage2(input@, cur as int) {
            Parsed::Found { v: mv, end } => Parsed::Found {
                v: ModuleV {
                    custom_sections: gcs1 + mv.custom_sections,
                    func_type: func_type.deep_view(),
                    ..mv
                },
                end,
            },
            Parsed::Incomplete => Parsed::<ModuleV>::Incomplete,
            Parsed::Fail { kind } => Parsed::<ModuleV>::Fail { kind },
        }));
    }
    let ghost pos2 = cur as int;
    let (mut cs2, e2) = match customs_parser(input, cur) {
        Ok(x) => x,
        Err(e) => {
            return Err(e.push(Prod::Module, 0));
        },
    };
    let ghost gcs2 = cs2.deep_view();
    customs.append(&mut cs2);
    cur = e2;
    let import: Option<ImportSection<'a>> = if cur < input.len() && input[cur] == 2 {
        match import_section_parser(input, cur) {
            Ok((v, end)) => {
                cur = end;
                Some(v)
            },
            Err(e) => {
                return Err(e.push(Prod::Module, 0));
            },
        }
    } else {
        None
    };
    proof {
        reveal(spec_stage2);
        assert(spec_stage2(input@, pos2) == (match spec_stage3(input@, cur as int) {
            Parsed::Found { v: mv, end } => Parsed::Found {
                v: ModuleV {
                    custom_sections: gcs2 + mv.custom_sections,
                    import: import.deep_view(),
                    ..mv
                },
                end,
            },
            Parsed::Incomplete => Parsed::<ModuleV>::Incomplete,
            Parsed::Fail { kind } => Parsed::<ModuleV>::Fail { kind },
        }));
    }
    let mt = match stream_tail1_parser(input, cur) {
        Ok(x) => x,
        Err(e) => {
            return Err(e.push(Prod::Module, 0));
        },
    };
    let ghost gmt = mt.deep_view();
    let mut cs_tail = mt.custom_sections;
    customs.append(&mut cs_tail);
    let m = Module {
        custom_sections: customs,
        func_type,
        import,
        type_idx: mt.type_idx,
        table: mt.table,
        mem: mt.mem,
        global: mt.global,
        export: mt.export,
        start: mt.start,
        elem: mt.elem,
        m: mt.m,
        code: mt.code,
        data: mt.data,
    };
    proof {
        let ghost len = input@.len() as int;
        let ghost mv2 = ModuleV {
            custom_sections: gcs2 + gmt.custom_sections,
            import: m.import.deep_view(),
            ..gmt
        };
        assert(spec_stage2(input@, pos2) == (Parsed::Found { v: mv2, end: len }));
        let ghost mv1 = ModuleV {
            custom_sections: gcs1 + mv2.custom_sections,
            func_type: m.func_type.deep_view(),
            ..mv2
        };
        assert(spec_stage1(input@, pos1) == (Parsed::Found { v: mv1, end: len }));
        assert(m.custom_sections.deep_view() =~= mv1.custom_sections);
        assert(mv1 =~= m.deep_view());
    }
    Ok(m)
}

/// The decoder has no internal state carried across calls: its outcome is
/// a pure function of the input bytes, so decoding the same input twice
/// yields structurally equal results.
pub proof fn lemma_module_decode_deterministic(s1: Seq<u8>, s2: Seq<u8>)
    requires
        s1 == s2,
    ensures
        spec_module(s1) == spec_module(s2),
{
}

} // verus!
