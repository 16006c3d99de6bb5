use winter_core::error::ErrorKind;
use winter_core::instr::{
    BlockType, ControlInstruction, Instr, blocktype_parser, control_instr_parser, expr_parser,
    instr_parser,
};
use winter_core::types::{NumType, ValType};

const DEPTH: u32 = 16;

#[test]
fn block_with_empty_type_and_body() {
    let (i, end) = instr_parser(&[0x02, 0x40, 0x0B], 0, DEPTH).unwrap();
    assert_eq!(end, 3);
    let Instr::Control(c) = i;
    match *c {
        ControlInstruction::Block(bt, body) => {
            assert_eq!(bt, BlockType::Empty);
            assert_eq!(body.len(), 0);
        },
        _ => panic!("expected a block"),
    }
}

#[test]
fn block_without_end_marker() {
    // nothing after the block type: incomplete
    let e = instr_parser(&[0x02, 0x40], 0, DEPTH).unwrap_err();
    assert_eq!(e.kind, ErrorKind::Incomplete);
    // a byte that is neither an instruction nor the end marker follows
    let e = instr_parser(&[0x02, 0x40, 0x3F], 0, DEPTH).unwrap_err();
    assert_eq!(e.kind, ErrorKind::Malformed);
}

#[test]
fn if_with_and_without_else() {
    let (i, end) = instr_parser(&[0x04, 0x40, 0x01, 0x0B], 0, DEPTH).unwrap();
    assert_eq!(end, 4);
    let Instr::Control(c) = i;
    match *c {
        ControlInstruction::If(bt, then_body, else_body) => {
            assert_eq!(bt, BlockType::Empty);
            assert_eq!(then_body.len(), 1);
            assert_eq!(else_body.len(), 0);
        },
        _ => panic!("expected an if"),
    }
    let (i, end) = instr_parser(&[0x04, 0x40, 0x01, 0x05, 0x00, 0x0B], 0, DEPTH).unwrap();
    assert_eq!(end, 6);
    let Instr::Control(c) = i;
    match *c {
        ControlInstruction::If(_, then_body, else_body) => {
            assert_eq!(then_body.len(), 1);
            assert_eq!(else_body.len(), 1);
        },
        _ => panic!("expected an if"),
    }
}

#[test]
fn else_marker_inside_block_is_malformed() {
    let e = instr_parser(&[0x02, 0x40, 0x05, 0x0B], 0, DEPTH).unwrap_err();
    assert_eq!(e.kind, ErrorKind::Malformed);
}

#[test]
fn loop_and_simple_opcodes() {
    let (i, end) = instr_parser(&[0x03, 0x40, 0x00, 0x01, 0x0F, 0x0B], 0, DEPTH).unwrap();
    assert_eq!(end, 6);
    let Instr::Control(c) = i;
    match *c {
        ControlInstruction::Loop(_, body) => assert_eq!(body.len(), 3),
        _ => panic!("expected a loop"),
    }
}

#[test]
fn branches_and_calls() {
    let (i, _) = control_instr_parser(&[0x0C, 0x02], 0, DEPTH).unwrap();
    match i {
        ControlInstruction::Br(l) => assert_eq!(l.0, 2),
        _ => panic!("expected br"),
    }
    let (i, _) = control_instr_parser(&[0x0D, 0x00], 0, DEPTH).unwrap();
    assert!(matches!(i, ControlInstruction::BrIf(_)));
    let (i, end) = control_instr_parser(&[0x0E, 0x02, 0x00, 0x01, 0x03], 0, DEPTH).unwrap();
    assert_eq!(end, 5);
    match i {
        ControlInstruction::BrTable(ls, d) => {
            assert_eq!(ls.len(), 2);
            assert_eq!(ls[0].0, 0);
            assert_eq!(ls[1].0, 1);
            assert_eq!(d.0, 3);
        },
        _ => panic!("expected br_table"),
    }
    let (i, _) = control_instr_parser(&[0x10, 0x07], 0, DEPTH).unwrap();
    match i {
        ControlInstruction::Call(f) => assert_eq!(f.0, 7),
        _ => panic!("expected call"),
    }
    let (i, end) = control_instr_parser(&[0x11, 0x01, 0x00], 0, DEPTH).unwrap();
    assert_eq!(end, 3);
    match i {
        ControlInstruction::CallIndirect(t, tbl) => {
            assert_eq!(t.0, 1);
            assert_eq!(tbl.0, 0);
        },
        _ => panic!("expected call_indirect"),
    }
}

#[test]
fn unknown_opcode_is_malformed() {
    let e = instr_parser(&[0x3F], 0, DEPTH).unwrap_err();
    assert_eq!(e.kind, ErrorKind::Malformed);
}

#[test]
fn blocktype_forms() {
    assert_eq!(blocktype_parser(&[0x40], 0).unwrap(), (BlockType::Empty, 1));
    assert_eq!(
        blocktype_parser(&[0x7F], 0).unwrap(),
        (BlockType::ValType(ValType::NumType(NumType::I32)), 1)
    );
    // a small type index, encoded as a positive signed 33-bit number
    let (bt, end) = blocktype_parser(&[0x05], 0).unwrap();
    assert_eq!(end, 1);
    match bt {
        BlockType::TypeIndex(t) => assert_eq!(t.0, 5),
        _ => panic!("expected a type index"),
    }
    // a negative type index is rejected
    let e = blocktype_parser(&[0x41], 0).unwrap_err();
    assert_eq!(e.kind, ErrorKind::Malformed);
}

#[test]
fn expr_stops_at_end_marker() {
    let (x, end) = expr_parser(&[0x01, 0x00, 0x0B, 0x01], 0, DEPTH).unwrap();
    assert_eq!(end, 3);
    assert_eq!(x.instr.len(), 2);
    let e = expr_parser(&[0x01, 0x05], 0, DEPTH).unwrap_err();
    assert_eq!(e.kind, ErrorKind::Malformed);
}

#[test]
fn nesting_deeper_than_the_budget_fails() {
    // block { block { } } with a budget of one
    let e = instr_parser(&[0x02, 0x40, 0x02, 0x40, 0x0B, 0x0B], 0, 1).unwrap_err();
    assert_eq!(e.kind, ErrorKind::Malformed);
    // the same input with a budget of two decodes
    assert!(instr_parser(&[0x02, 0x40, 0x02, 0x40, 0x0B, 0x0B], 0, 2).is_ok());
}
