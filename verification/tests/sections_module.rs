use winter_core::error::{ErrorKind, Prod};
use winter_core::module::module_parser;
use winter_core::sections::{
    DataMode, ElemInit, ElemMode, ImportDesc, code_section_parser, custom_section_parser,
    data_count_section_parser, data_section_parser, element_section_parser, export_section_parser,
    func_section_parser, global_section_parser, import_section_parser, memory_section_parser,
    start_section_parser, table_section_parser, type_section_parser,
};

#[test]
fn it_works() {
    let result = 2 + 2;
    assert_eq!(result, 4);
}

const HEADER: [u8; 8] = [0x00, 0x61, 0x73, 0x6D, 0x01, 0x00, 0x00, 0x00];

#[test]
fn header_alone_is_an_empty_module() {
    let m = module_parser(&HEADER).unwrap();
    assert_eq!(m.custom_sections.len(), 0);
    assert!(m.func_type.is_none());
    assert!(m.import.is_none());
    assert!(m.type_idx.is_none());
    assert!(m.table.is_none());
    assert!(m.mem.is_none());
    assert!(m.global.is_none());
    assert!(m.export.is_none());
    assert!(m.start.is_none());
    assert!(m.elem.is_none());
    assert!(m.m.is_none());
    assert!(m.code.is_none());
    assert!(m.data.is_none());
}

#[test]
fn bad_magic_or_version_is_malformed() {
    let e = module_parser(&[0x00, 0x61, 0x73, 0x6E, 0x01, 0x00, 0x00, 0x00]).unwrap_err();
    assert_eq!(e.kind, ErrorKind::Malformed);
    let e = module_parser(&[0x00, 0x61, 0x73, 0x6D, 0x02, 0x00, 0x00, 0x00]).unwrap_err();
    assert_eq!(e.kind, ErrorKind::Malformed);
    let e = module_parser(&[0x00, 0x61]).unwrap_err();
    assert_eq!(e.kind, ErrorKind::Incomplete);
}

#[test]
fn leftover_bytes_are_a_hard_error() {
    let mut bytes = HEADER.to_vec();
    bytes.push(0x41);
    let e = module_parser(&bytes).unwrap_err();
    assert_eq!(e.kind, ErrorKind::Malformed);
}

#[test]
fn decoding_twice_gives_equal_results() {
    let mut bytes = HEADER.to_vec();
    // a custom section named "AB", a type section with one [] -> [] type,
    // and a function section referring to it
    bytes.extend_from_slice(&[0x00, 0x03, 0x02, 0x41, 0x42]);
    bytes.extend_from_slice(&[0x01, 0x04, 0x01, 0x60, 0x00, 0x00]);
    bytes.extend_from_slice(&[0x03, 0x02, 0x01, 0x00]);
    let m1 = module_parser(&bytes).unwrap();
    let m2 = module_parser(&bytes).unwrap();
    assert_eq!(m1.custom_sections.len(), m2.custom_sections.len());
    assert_eq!(m1.custom_sections[0].name, m2.custom_sections[0].name);
    assert_eq!(m1.custom_sections[0].data, m2.custom_sections[0].data);
    let t1 = m1.func_type.unwrap();
    let t2 = m2.func_type.unwrap();
    assert_eq!(t1.function_types.len(), t2.function_types.len());
    assert_eq!(t1.function_types[0].params, t2.function_types[0].params);
    assert_eq!(t1.function_types[0].ret, t2.function_types[0].ret);
    let f1 = m1.type_idx.unwrap();
    let f2 = m2.type_idx.unwrap();
    assert_eq!(f1.functions, f2.functions);
}

#[test]
fn small_module_with_code() {
    let mut bytes = HEADER.to_vec();
    bytes.extend_from_slice(&[0x01, 0x04, 0x01, 0x60, 0x00, 0x00]);
    bytes.extend_from_slice(&[0x03, 0x02, 0x01, 0x00]);
    bytes.extend_from_slice(&[0x0A, 0x04, 0x01, 0x02, 0x00, 0x0B]);
    let m = module_parser(&bytes).unwrap();
    let code = m.code.unwrap();
    assert_eq!(code.code.len(), 1);
    assert_eq!(code.code[0].size, 2);
    assert_eq!(code.code[0].code.locals.len(), 0);
    assert_eq!(code.code[0].code.expr.instr.len(), 0);
}

#[test]
fn custom_sections_appear_anywhere_and_all_collect() {
    let mut bytes = HEADER.to_vec();
    bytes.extend_from_slice(&[0x00, 0x01, 0x00]);
    bytes.extend_from_slice(&[0x01, 0x04, 0x01, 0x60, 0x00, 0x00]);
    bytes.extend_from_slice(&[0x00, 0x03, 0x02, 0x41, 0x42]);
    let m = module_parser(&bytes).unwrap();
    assert_eq!(m.custom_sections.len(), 2);
    assert_eq!(m.custom_sections[0].name, "");
    assert_eq!(m.custom_sections[1].name, "AB");
    assert!(m.func_type.is_some());
}

#[test]
fn sections_out_of_order_are_rejected() {
    let mut bytes = HEADER.to_vec();
    // function section before type section
    bytes.extend_from_slice(&[0x03, 0x02, 0x01, 0x00]);
    bytes.extend_from_slice(&[0x01, 0x04, 0x01, 0x60, 0x00, 0x00]);
    let e = module_parser(&bytes).unwrap_err();
    assert_eq!(e.kind, ErrorKind::Malformed);
}

#[test]
fn every_section_id_has_a_minimal_valid_and_invalid_form() {
    // id 0: custom with an empty name
    assert!(custom_section_parser(&[0x00, 0x01, 0x00], 0).is_ok());
    assert_eq!(
        custom_section_parser(&[0x01, 0x01, 0x00], 0).unwrap_err().kind,
        ErrorKind::Malformed
    );
    // ids 1..=7 and 9..=11: empty vectors
    assert!(type_section_parser(&[0x01, 0x01, 0x00], 0).is_ok());
    assert_eq!(
        type_section_parser(&[0x02, 0x01, 0x00], 0).unwrap_err().kind,
        ErrorKind::Malformed
    );
    assert!(import_section_parser(&[0x02, 0x01, 0x00], 0).is_ok());
    assert_eq!(
        import_section_parser(&[0x03, 0x01, 0x00], 0).unwrap_err().kind,
        ErrorKind::Malformed
    );
    assert!(func_section_parser(&[0x03, 0x01, 0x00], 0).is_ok());
    assert_eq!(
        func_section_parser(&[0x04, 0x01, 0x00], 0).unwrap_err().kind,
        ErrorKind::Malformed
    );
    assert!(table_section_parser(&[0x04, 0x01, 0x00], 0).is_ok());
    assert_eq!(
        table_section_parser(&[0x05, 0x01, 0x00], 0).unwrap_err().kind,
        ErrorKind::Malformed
    );
    assert!(memory_section_parser(&[0x05, 0x01, 0x00], 0).is_ok());
    assert_eq!(
        memory_section_parser(&[0x06, 0x01, 0x00], 0).unwrap_err().kind,
        ErrorKind::Malformed
    );
    assert!(global_section_parser(&[0x06, 0x01, 0x00], 0).is_ok());
    assert_eq!(
        global_section_parser(&[0x07, 0x01, 0x00], 0).unwrap_err().kind,
        ErrorKind::Malformed
    );
    assert!(export_section_parser(&[0x07, 0x01, 0x00], 0).is_ok());
    assert_eq!(
        export_section_parser(&[0x08, 0x01, 0x00], 0).unwrap_err().kind,
        ErrorKind::Malformed
    );
    // id 8: a single function index
    assert!(start_section_parser(&[0x08, 0x01, 0x00], 0).is_ok());
    assert_eq!(
        start_section_parser(&[0x09, 0x01, 0x00], 0).unwrap_err().kind,
        ErrorKind::Malformed
    );
    assert!(element_section_parser(&[0x09, 0x01, 0x00], 0).is_ok());
    assert_eq!(
        element_section_parser(&[0x0A, 0x01, 0x00], 0).unwrap_err().kind,
        ErrorKind::Malformed
    );
    assert!(code_section_parser(&[0x0A, 0x01, 0x00], 0).is_ok());
    assert_eq!(
        code_section_parser(&[0x0B, 0x01, 0x00], 0).unwrap_err().kind,
        ErrorKind::Malformed
    );
    assert!(data_section_parser(&[0x0B, 0x01, 0x00], 0).is_ok());
    assert_eq!(
        data_section_parser(&[0x0C, 0x01, 0x00], 0).unwrap_err().kind,
        ErrorKind::Malformed
    );
    // id 12: a single count
    assert!(data_count_section_parser(&[0x0C, 0x01, 0x00], 0).is_ok());
    assert_eq!(
        data_count_section_parser(&[0x00, 0x01, 0x00], 0).unwrap_err().kind,
        ErrorKind::Malformed
    );
}

#[test]
fn section_body_must_exactly_exhaust_its_length() {
    // declared size 2 but the empty vector takes 1 byte
    let e = type_section_parser(&[0x01, 0x02, 0x00, 0xAA], 0).unwrap_err();
    assert_eq!(e.kind, ErrorKind::Malformed);
    // declared size larger than the remaining input
    let e = type_section_parser(&[0x01, 0x05, 0x00], 0).unwrap_err();
    assert_eq!(e.kind, ErrorKind::Incomplete);
}

#[test]
fn import_and_export_entries() {
    // import: module "a", name "b", a function of type 0
    let bytes = [0x02, 0x07, 0x01, 0x01, 0x61, 0x01, 0x62, 0x00, 0x00];
    let (s, end) = import_section_parser(&bytes, 0).unwrap();
    assert_eq!(end, bytes.len());
    assert_eq!(s.imports.len(), 1);
    assert_eq!(s.imports[0].mod_name, "a");
    assert_eq!(s.imports[0].name, "b");
    match s.imports[0].desc {
        ImportDesc::Func(t) => assert_eq!(t.0, 0),
        _ => panic!("expected a function import"),
    }
    // export: name "m", a memory with index 0
    let bytes = [0x07, 0x05, 0x01, 0x01, 0x6D, 0x02, 0x00];
    let (s, end) = export_section_parser(&bytes, 0).unwrap();
    assert_eq!(end, bytes.len());
    assert_eq!(s.exports.len(), 1);
    assert_eq!(s.exports[0].name, "m");
}

#[test]
fn global_entry_has_type_and_initializer() {
    // one global: i32, constant, initializer = nop; end
    let bytes = [0x06, 0x05, 0x01, 0x7F, 0x00, 0x01, 0x0B];
    let (s, end) = global_section_parser(&bytes, 0).unwrap();
    assert_eq!(end, bytes.len());
    assert_eq!(s.globals.len(), 1);
    assert!(!s.globals[0].global_type.mutable);
    assert_eq!(s.globals[0].expr.instr.len(), 1);
}

#[test]
fn element_segment_tag_zero() {
    // one active funcref segment in table 0: offset = nop; end, two indices
    let bytes = [0x09, 0x07, 0x01, 0x00, 0x01, 0x0B, 0x02, 0x04, 0x05];
    let (s, end) = element_section_parser(&bytes, 0).unwrap();
    assert_eq!(end, bytes.len());
    assert_eq!(s.elems.len(), 1);
    match &s.elems[0].init {
        ElemInit::FuncIdx(fs) => {
            assert_eq!(fs.len(), 2);
            assert_eq!(fs[0].0, 4);
            assert_eq!(fs[1].0, 5);
        },
        _ => panic!("expected function indices"),
    }
    match &s.elems[0].mode {
        ElemMode::Active { table, offset } => {
            assert_eq!(table.0, 0);
            assert_eq!(offset.instr.len(), 1);
        },
        _ => panic!("expected an active segment"),
    }
}

#[test]
fn element_segment_passive_expr_form() {
    // tag 5: passive, externref, one initializer expression (nop; end)
    let bytes = [0x09, 0x06, 0x01, 0x05, 0x6F, 0x01, 0x01, 0x0B];
    let (s, end) = element_section_parser(&bytes, 0).unwrap();
    assert_eq!(end, bytes.len());
    assert!(matches!(s.elems[0].mode, ElemMode::Passive));
    match &s.elems[0].init {
        ElemInit::Expr(es) => assert_eq!(es.len(), 1),
        _ => panic!("expected expressions"),
    }
    // tag 8 does not exist
    let e = element_section_parser(&[0x09, 0x02, 0x01, 0x08], 0).unwrap_err();
    assert_eq!(e.kind, ErrorKind::Malformed);
}

#[test]
fn data_segment_modes() {
    // passive: two raw bytes
    let bytes = [0x0B, 0x05, 0x01, 0x01, 0x02, 0xAA, 0xBB];
    let (s, end) = data_section_parser(&bytes, 0).unwrap();
    assert_eq!(end, bytes.len());
    assert_eq!(s.data.len(), 1);
    assert_eq!(s.data[0].init, &[0xAA, 0xBB][..]);
    assert!(matches!(s.data[0].mode, DataMode::Passive));
    // active in memory 0: offset = end, no bytes
    let bytes = [0x0B, 0x04, 0x01, 0x00, 0x0B, 0x00];
    let (s, _) = data_section_parser(&bytes, 0).unwrap();
    match &s.data[0].mode {
        DataMode::Active { memory, offset } => {
            assert_eq!(memory.0, 0);
            assert_eq!(offset.instr.len(), 0);
        },
        _ => panic!("expected an active segment"),
    }
    // an unknown mode tag
    let e = data_section_parser(&[0x0B, 0x02, 0x01, 0x03], 0).unwrap_err();
    assert_eq!(e.kind, ErrorKind::Malformed);
}

#[test]
fn code_entry_with_locals() {
    // one entry: size 4, one run of two i32 locals, body = end
    let bytes = [0x0A, 0x06, 0x01, 0x04, 0x01, 0x02, 0x7F, 0x0B];
    let (s, end) = code_section_parser(&bytes, 0).unwrap();
    assert_eq!(end, bytes.len());
    assert_eq!(s.code[0].code.locals.len(), 1);
    assert_eq!(s.code[0].code.locals[0].count, 2);
    assert_eq!(s.code[0].code.expr.instr.len(), 0);
}

#[test]
fn start_and_data_count_values() {
    let (s, _) = start_section_parser(&[0x08, 0x01, 0x2A], 0).unwrap();
    assert_eq!(s.start.0, 42);
    let (s, _) = data_count_section_parser(&[0x0C, 0x01, 0x07], 0).unwrap();
    assert_eq!(s.count, 7);
}

#[test]
fn custom_section_with_payload() {
    let bytes = [0x00, 0x04, 0x01, 0x41, 0xDE, 0xAD];
    let (c, end) = custom_section_parser(&bytes, 0).unwrap();
    assert_eq!(end, bytes.len());
    assert_eq!(c.name, "A");
    assert_eq!(c.data, &[0xDE, 0xAD][..]);
}

#[test]
fn error_frames_read_outermost_first() {
    // a type section whose one function type has a bad value type in its
    // parameter list
    let mut bytes = HEADER.to_vec();
    bytes.extend_from_slice(&[0x01, 0x04, 0x01, 0x60, 0x01, 0x00]);
    let e = module_parser(&bytes).unwrap_err();
    assert_eq!(e.kind, ErrorKind::Malformed);
    let prods: Vec<Prod> = e.frames.iter().map(|f| f.prod).collect();
    assert_eq!(
        prods,
        vec![
            Prod::Module,
            Prod::TypeSection,
            Prod::FuncType,
            Prod::ResultType,
            Prod::ValType,
        ]
    );
    // the innermost frame sits at the offending byte
    assert_eq!(e.frames.last().unwrap().pos, 13);
    // the trace renders outermost first
    assert_eq!(e.frames[0].prod.label(), "module");
    assert_eq!(e.frames.last().unwrap().prod.label(), "valtype");
}

#[test]
fn module_with_every_section_kind() {
    let mut bytes = HEADER.to_vec();
    bytes.extend_from_slice(&[0x01, 0x04, 0x01, 0x60, 0x00, 0x00]);
    bytes.extend_from_slice(&[0x02, 0x07, 0x01, 0x01, 0x61, 0x01, 0x62, 0x00, 0x00]);
    bytes.extend_from_slice(&[0x03, 0x02, 0x01, 0x00]);
    bytes.extend_from_slice(&[0x04, 0x04, 0x01, 0x70, 0x00, 0x00]);
    bytes.extend_from_slice(&[0x05, 0x03, 0x01, 0x00, 0x01]);
    bytes.extend_from_slice(&[0x06, 0x05, 0x01, 0x7F, 0x00, 0x01, 0x0B]);
    bytes.extend_from_slice(&[0x07, 0x05, 0x01, 0x01, 0x6D, 0x02, 0x00]);
    bytes.extend_from_slice(&[0x08, 0x01, 0x00]);
    bytes.extend_from_slice(&[0x09, 0x05, 0x01, 0x00, 0x0B, 0x01, 0x00]);
    bytes.extend_from_slice(&[0x0C, 0x01, 0x01]);
    bytes.extend_from_slice(&[0x0A, 0x04, 0x01, 0x02, 0x00, 0x0B]);
    bytes.extend_from_slice(&[0x0B, 0x04, 0x01, 0x01, 0x01, 0xFF]);
    let m = module_parser(&bytes).unwrap();
    assert_eq!(m.func_type.unwrap().function_types.len(), 1);
    assert_eq!(m.import.unwrap().imports.len(), 1);
    assert_eq!(m.type_idx.unwrap().functions.len(), 1);
    assert_eq!(m.table.unwrap().tables.len(), 1);
    assert_eq!(m.mem.unwrap().tables.len(), 1);
    assert_eq!(m.global.unwrap().globals.len(), 1);
    assert_eq!(m.export.unwrap().exports.len(), 1);
    assert_eq!(m.start.unwrap().start.0, 0);
    assert_eq!(m.elem.unwrap().elems.len(), 1);
    assert_eq!(m.m.unwrap().count, 1);
    assert_eq!(m.code.unwrap().code.len(), 1);
    let data = m.data.unwrap();
    assert_eq!(data.data.len(), 1);
    assert_eq!(data.data[0].init, &[0xFF][..]);
}
