//! Instruction and expression decoders.
//!
//! The covered subset is the control-instruction group: unreachable, nop,
//! block, loop, if/else, branches, return, call and call-indirect; the other
//! instruction classes are an extension point.  Nested block, loop and if
//! bodies recurse into the same instruction-sequence decoder under an
//! explicit maximum nesting depth, so recursion depth is never
//! attacker-controlled: exceeding the depth is a structural failure.
//!
//! An expression is an instruction sequence terminated by an explicit end
//! marker (0x0B); an if body may contain one optional else marker (0x05)
//! before its end marker.

use vstd::prelude::*;

use crate::error::{DecodeErr, ErrorKind, FailKind, Parsed, Prod, decodes_to, err_matches};
use crate::indices::{
    FuncIdx, LabelIdx, TableIdx, TypeIdx, funcidx_parser, labelidx_parser, spec_funcidx_parser,
    spec_labelidx_parser, spec_tableidx_parser, spec_typeidx_parser, tableidx_parser,
    typeidx_parser,
};
use crate::leb128::{leb128_i33, lemma_spec_leb_signed_range, spec_leb_i33};
use crate::types::{ValType, spec_valtype, valtype_of, valtype_parser};
use crate::values::{spec_counted_vec, spec_vec_of, vector_count_parser};

verus! {

/// The type of a structured control-flow region: empty, a single value
/// type, or an index into the type section.
#[derive(Eq, PartialEq, Structural, Debug, Clone, Copy)]
pub enum BlockType {
    Empty,
    ValType(ValType),
    TypeIndex(TypeIdx),
}

impl DeepView for BlockType {
    type V = BlockType;

    open spec fn deep_view(&self) -> BlockType {
        *self
    }
}

/// Block-type outcome at `pos`: the byte 0x40 is the empty type; a value
/// type byte is that value type; anything else is a signed 33-bit type
/// index, rejected as a structural failure when negative.
pub open spec fn spec_blocktype(s: Seq<u8>, pos: int) -> Parsed<BlockType> {
    if pos >= s.len() {
        Parsed::Incomplete
    } else if s[pos] == 0x40 {
        Parsed::Found { v: BlockType::Empty, end: pos + 1 }
    } else if valtype_of(s[pos]) is Some {
        match spec_valtype(s, pos) {
            Parsed::Found { v, end } => Parsed::Found { v: BlockType::ValType(v), end },
            Parsed::Incomplete => Parsed::Incomplete,
            Parsed::Fail { kind } => Parsed::Fail { kind },
        }
    } else {
        match spec_leb_i33(s, pos) {
            Parsed::Found { v, end } => if v < 0 {
                Parsed::Fail { kind: FailKind::Malformed }
            } else {
                Parsed::Found { v: BlockType::TypeIndex(TypeIdx(v as u32)), end }
            },
            Parsed::Incomplete => Parsed::Incomplete,
            Parsed::Fail { kind } => Parsed::Fail { kind },
        }
    }
}

/// Decodes a block type: 0x40, a value type, or a non-negative signed
/// 33-bit type index.
pub fn blocktype_parser(input: &[u8], pos: usize) -> (r: Result<(BlockType, usize), DecodeErr>)
    requires
        pos <= input@.len(),
    ensures
        decodes_to(r, spec_blocktype(input@, pos as int), Prod::BlockType, pos),
        r matches Ok((v, end)) ==> pos < end <= input@.len(),
{
    if pos >= input.len() {
        return Err(DecodeErr::new(ErrorKind::Incomplete, Prod::BlockType, pos));
    }
    let b = input[pos];
    if b == 0x40 {
        return Ok((BlockType::Empty, pos + 1));
    }
    if valtype_of_exec(b) {
        return match valtype_parser(input, pos) {
            Ok((v, end)) => Ok((BlockType::ValType(v), end)),
            Err(e) => Err(e.push(Prod::BlockType, pos)),
        };
    }
    match leb128_i33(input, pos) {
        Ok((v, end)) => {
            if v < 0 {
                Err(DecodeErr::new(ErrorKind::Malformed, Prod::BlockType, pos))
            } else {
                proof {
                    let sp = crate::leb128::spec_leb_signed(input@, pos as int, 33);
                    match sp {
                        Parsed::Found { v: v0, end: e0 } => {
                            lemma_spec_leb_signed_range(input@, pos as int, 33, v0, e0);
                            vstd::arithmetic::power2::lemma2_to64();
                            vstd::arithmetic::power2::lemma2_to64_rest();
                        },
                        _ => {},
                    }
                }
                Ok((BlockType::TypeIndex(TypeIdx(v as u32)), end))
            }
        },
        Err(e) => Err(e.push(Prod::BlockType, pos)),
    }
}

/// Whether a byte is a value-type tag; mirrors [`valtype_of`].
fn valtype_of_exec(b: u8) -> (r: bool)
    ensures
        r == valtype_of(b) is Some,
{
    b == 0x7F || b == 0x7E || b == 0x7D || b == 0x7C || b == 0x70 || b == 0x6F
}

/// Instructions of the control group.
#[derive(Debug)]
pub enum ControlInstruction {
    /// Causes an unconditional trap.
    Unreachable,
    /// Does nothing.
    Nop,
    Block(BlockType, Vec<Instr>),
    Loop(BlockType, Vec<Instr>),
    /// A conditional with an optional else branch.
    If(BlockType, Vec<Instr>, Vec<Instr>),
    /// Unconditional branch.
    Br(LabelIdx),
    /// Branch if a condition holds.
    BrIf(LabelIdx),
    /// Indirect branch through a label vector, with a default target.
    BrTable(Vec<LabelIdx>, LabelIdx),
    /// Unconditional branch to the body of the current function.
    Return,
    /// Invokes another function.
    Call(FuncIdx),
    /// Calls a function indirectly through a table, checked against the
    /// function type given by the type index.
    CallIndirect(TypeIdx, TableIdx),
}

/// An instruction: the control group, with a defined extension point for
/// the remaining instruction classes.
#[derive(Debug)]
pub enum Instr {
    Control(Box<ControlInstruction>),
}

/// An expression: an instruction sequence terminated by an explicit end
/// marker; used for function bodies and constant initializers.
#[derive(Debug)]
pub struct Expr {
    pub instr: Vec<Instr>,
}

/// Spec-level control instruction: nested sequences as `Seq`.
#[verifier::ext_equal]
pub enum ControlInstructionV {
    Unreachable,
    Nop,
    Block(BlockType, Seq<InstrV>),
    Loop(BlockType, Seq<InstrV>),
    If(BlockType, Seq<InstrV>, Seq<InstrV>),
    Br(LabelIdx),
    BrIf(LabelIdx),
    BrTable(Seq<LabelIdx>, LabelIdx),
    Return,
    Call(FuncIdx),
    CallIndirect(TypeIdx, TableIdx),
}

/// Spec-level instruction.
#[verifier::ext_equal]
pub enum InstrV {
    Control(ControlInstructionV),
}

/// Spec-level expression.
#[verifier::ext_equal]
pub struct ExprV {
    pub instr: Seq<InstrV>,
}

/// The spec-level view of an instruction.
pub open spec fn instr_view(i: Instr) -> InstrV
    decreases i,
{
    match i {
        Instr::Control(c) => InstrV::Control(ctrl_view(*c)),
    }
}

/// The spec-level view of a control instruction.
pub open spec fn ctrl_view(c: ControlInstruction) -> ControlInstructionV
    decreases c,
{
    match c {
        ControlInstruction::Unreachable => ControlInstructionV::Unreachable,
        ControlInstruction::Nop => ControlInstructionV::Nop,
        ControlInstruction::Block(bt, body) => ControlInstructionV::Block(
            bt,
            instrs_view(body@),
        ),
        ControlInstruction::Loop(bt, body) => ControlInstructionV::Loop(bt, instrs_view(body@)),
        ControlInstruction::If(bt, then_body, else_body) => ControlInstructionV::If(
            bt,
            instrs_view(then_body@),
            instrs_view(else_body@),
        ),
        ControlInstruction::Br(l) => ControlInstructionV::Br(l),
        ControlInstruction::BrIf(l) => ControlInstructionV::BrIf(l),
        ControlInstruction::BrTable(ls, d) => ControlInstructionV::BrTable(ls.deep_view(), d),
        ControlInstruction::Return => ControlInstructionV::Return,
        ControlInstruction::Call(f) => ControlInstructionV::Call(f),
        ControlInstruction::CallIndirect(t, tbl) => ControlInstructionV::CallIndirect(t, tbl),
    }
}

/// The spec-level view of an instruction sequence.
pub open spec fn instrs_view(v: Seq<Instr>) -> Seq<InstrV>
    decreases v,
{
    if v.len() == 0 {
        Seq::empty()
    } else {
        seq![instr_view(v[0])] + instrs_view(v.subrange(1, v.len() as int))
    }
}

impl DeepView for Instr {
    type V = InstrV;

    open spec fn deep_view(&self) -> InstrV {
        instr_view(*self)
    }
}

impl DeepView for ControlInstruction {
    type V = ControlInstructionV;

    open spec fn deep_view(&self) -> ControlInstructionV {
        ctrl_view(*self)
    }
}

impl DeepView for Expr {
    type V = ExprV;

    open spec fn deep_view(&self) -> ExprV {
        ExprV { instr: instrs_view(self.instr@) }
    }
}

/// How an instruction sequence stopped: at an end marker (0x0B) or at an
/// else marker (0x05).
#[derive(Eq, PartialEq, Structural, Debug, Clone, Copy)]
pub enum SeqStop {
    End,
    Else,
}

impl DeepView for SeqStop {
    type V = SeqStop;

    open spec fn deep_view(&self) -> SeqStop {
        *self
    }
}

/// Control-instruction outcome at `pos` under a remaining nesting budget
/// `depth`: an opcode dispatch over the control group.  An unknown opcode
/// is a structural failure; entering a block, loop or if with no budget
/// left is a structural failure.
pub open spec fn spec_control_instr(s: Seq<u8>, pos: int, depth: nat) -> Parsed<
    ControlInstructionV,
>
    decreases depth, s.len() - pos, 0int,
{
    if pos >= s.len() {
        Parsed::Incomplete
    } else {
        let op = s[pos];
        if op == 0x00 {
            Parsed::Found { v: ControlInstructionV::Unreachable, end: pos + 1 }
        } else if op == 0x01 {
            Parsed::Found { v: ControlInstructionV::Nop, end: pos + 1 }
        } else if op == 0x02 || op == 0x03 || op == 0x04 {
            if depth == 0 {
                Parsed::Fail { kind: FailKind::Malformed }
            } else {
                match spec_blocktype(s, pos + 1) {
                    Parsed::Found { v: bt, end: e1 } => spec_block_body(
                        s,
                        op,
                        bt,
                        e1,
                        (depth - 1) as nat,
                    ),
                    Parsed::Incomplete => Parsed::Incomplete,
                    Parsed::Fail { kind } => Parsed::Fail { kind },
                }
            }
        } else if op == 0x0C {
            match spec_labelidx_parser(s, pos + 1) {
                Parsed::Found { v, end } => Parsed::Found {
                    v: ControlInstructionV::Br(v),
                    end,
                },
                Parsed::Incomplete => Parsed::Incomplete,
                Parsed::Fail { kind } => Parsed::Fail { kind },
            }
        } else if op == 0x0D {
            match spec_labelidx_parser(s, pos + 1) {
                Parsed::Found { v, end } => Parsed::Found {
                    v: ControlInstructionV::BrIf(v),
                    end,
                },
                Parsed::Incomplete => Parsed::Incomplete,
                Parsed::Fail { kind } => Parsed::Fail { kind },
            }
        } else if op == 0x0E {
            match spec_counted_vec(s, pos + 1, labelidx_elem()) {
                Parsed::Found { v: ls, end } => match spec_labelidx_parser(s, end) {
                    Parsed::Found { v: d, end: e2 } => Parsed::Found {
                        v: ControlInstructionV::BrTable(ls, d),
                        end: e2,
                    },
                    Parsed::Incomplete => Parsed::Incomplete,
                    Parsed::Fail { kind } => Parsed::Fail { kind },
                },
                Parsed::Incomplete => Parsed::Incomplete,
                Parsed::Fail { kind } => Parsed::Fail { kind },
            }
        } else if op == 0x0F {
            Parsed::Found { v: ControlInstructionV::Return, end: pos + 1 }
        } else if op == 0x10 {
            match spec_funcidx_parser(s, pos + 1) {
                Parsed::Found { v, end } => Parsed::Found {
                    v: ControlInstructionV::Call(v),
                    end,
                },
                Parsed::Incomplete => Parsed::Incomplete,
                Parsed::Fail { kind } => Parsed::Fail { kind },
            }
        } else if op == 0x11 {
            match spec_typeidx_parser(s, pos + 1) {
                Parsed::Found { v: t, end } => match spec_tableidx_parser(s, end) {
                    Parsed::Found { v: tbl, end: e2 } => Parsed::Found {
                        v: ControlInstructionV::CallIndirect(t, tbl),
                        end: e2,
                    },
                    Parsed::Incomplete => Parsed::Incomplete,
                    Parsed::Fail { kind } => Parsed::Fail { kind },
                },
                Parsed::Incomplete => Parsed::Incomplete,
                Parsed::Fail { kind } => Parsed::Fail { kind },
            }
        } else {
            Parsed::Fail { kind: FailKind::Malformed }
        }
    }
}

/// The body of a block, loop or if whose block type ended at `e1`: an
/// instruction sequence, with an optional else part when the opcode is an
/// if.  An else marker inside a block or loop body, or a second else marker
/// inside an if, is a structural failure.
pub open spec fn spec_block_body(s: Seq<u8>, op: u8, bt: BlockType, e1: int, depth: nat) -> Parsed<
    ControlInstructionV,
>
    decreases depth, s.len() - e1, 3int,
{
    match spec_instr_seq(s, e1, depth) {
        Parsed::Found { v: (body, stop), end } => if op == 0x02 {
            if stop is End {
                Parsed::Found { v: ControlInstructionV::Block(bt, body), end }
            } else {
                Parsed::Fail { kind: FailKind::Malformed }
            }
        } else if op == 0x03 {
            if stop is End {
                Parsed::Found { v: ControlInstructionV::Loop(bt, body), end }
            } else {
                Parsed::Fail { kind: FailKind::Malformed }
            }
        } else {
            match stop {
                SeqStop::End => Parsed::Found {
                    v: ControlInstructionV::If(bt, body, Seq::empty()),
                    end,
                },
                SeqStop::Else => if e1 < end <= s.len() {
                    match spec_instr_seq(s, end, depth) {
                        Parsed::Found { v: (else_body, stop2), end: e3 } => if stop2 is End {
                            Parsed::Found {
                                v: ControlInstructionV::If(bt, body, else_body),
                                end: e3,
                            }
                        } else {
                            Parsed::Fail { kind: FailKind::Malformed }
                        },
                        Parsed::Incomplete => Parsed::Incomplete,
                        Parsed::Fail { kind } => Parsed::Fail { kind },
                    }
                } else {
                    // an instruction sequence always ends within the input,
                    // past its start; this branch is never taken and makes
                    // the recursion measure evident
                    Parsed::Fail { kind: FailKind::Malformed }
                },
            }
        },
        Parsed::Incomplete => Parsed::Incomplete,
        Parsed::Fail { kind } => Parsed::Fail { kind },
    }
}

/// Instruction outcome at `pos`: the control group, boxed into the
/// instruction extension point.
pub open spec fn spec_instr(s: Seq<u8>, pos: int, depth: nat) -> Parsed<InstrV>
    decreases depth, s.len() - pos, 1int,
{
    match spec_control_instr(s, pos, depth) {
        Parsed::Found { v, end } => Parsed::Found { v: InstrV::Control(v), end },
        Parsed::Incomplete => Parsed::Incomplete,
        Parsed::Fail { kind } => Parsed::Fail { kind },
    }
}

/// Instruction-sequence outcome at `pos`: instructions up to an end marker
/// (0x0B) or an else marker (0x05), which is consumed; the sequence, how it
/// stopped, and the position after the marker.
pub open spec fn spec_instr_seq(s: Seq<u8>, pos: int, depth: nat) -> Parsed<
    (Seq<InstrV>, SeqStop),
>
    decreases depth, s.len() - pos, 2int,
{
    if pos >= s.len() {
        Parsed::Incomplete
    } else if s[pos] == 0x0B {
        Parsed::Found { v: (Seq::empty(), SeqStop::End), end: pos + 1 }
    } else if s[pos] == 0x05 {
        Parsed::Found { v: (Seq::empty(), SeqStop::Else), end: pos + 1 }
    } else {
        match spec_instr(s, pos, depth) {
            Parsed::Found { v, end } => if pos < end <= s.len() {
                match spec_instr_seq(s, end, depth) {
                    Parsed::Found { v: (rest, stop), end: e2 } => Parsed::Found {
                        v: (seq![v] + rest, stop),
                        end: e2,
                    },
                    Parsed::Incomplete => Parsed::Incomplete,
                    Parsed::Fail { kind } => Parsed::Fail { kind },
                }
            } else {
                // an instruction always advances within the input, so this
                // branch is never taken; it makes the recursion measure
                // evident
                Parsed::Fail { kind: FailKind::Malformed }
            },
            Parsed::Incomplete => Parsed::Incomplete,
            Parsed::Fail { kind } => Parsed::Fail { kind },
        }
    }
}

/// Expression outcome at `pos`: an instruction sequence terminated by an
/// end marker; an else marker at the top level of an expression is a
/// structural failure.
pub open spec fn spec_expr(s: Seq<u8>, pos: int, depth: nat) -> Parsed<ExprV> {
    match spec_instr_seq(s, pos, depth) {
        Parsed::Found { v: (body, stop), end } => if stop is End {
            Parsed::Found { v: ExprV { instr: body }, end }
        } else {
            Parsed::Fail { kind: FailKind::Malformed }
        },
        Parsed::Incomplete => Parsed::Incomplete,
        Parsed::Fail { kind } => Parsed::Fail { kind },
    }
}

/// The element grammar of a label-index vector, as a first-class spec
/// function.
pub open spec fn labelidx_elem() -> spec_fn(Seq<u8>, int) -> Parsed<LabelIdx> {
    |s: Seq<u8>, p: int| spec_labelidx_parser(s, p)
}

/// Pointwise characterization of [`instrs_view`]: same length, views taken
/// element by element.
pub proof fn lemma_instrs_view(v: Seq<Instr>)
    ensures
        instrs_view(v).len() == v.len(),
        forall|j: int| 0 <= j < v.len() ==> #[trigger] instrs_view(v)[j] == instr_view(v[j]),
    decreases v.len(),
{
    if v.len() > 0 {
        lemma_instrs_view(v.subrange(1, v.len() as int));
    }
}

/// Decodes an instruction sequence up to its end or else marker; `prod` and
/// `fpos` name the enclosing production for error frames.
pub fn instr_seq_parser(input: &[u8], pos: usize, depth: u32, prod: Prod, fpos: usize) -> (r:
    Result<((Vec<Instr>, SeqStop), usize), DecodeErr>)
    requires
        pos <= input@.len(),
    ensures
        ({
            let sp = spec_instr_seq(input@, pos as int, depth as nat);
            match r {
                Ok(((v, stop), end)) => {
                    &&& sp == (Parsed::Found {
                        v: (instrs_view(v@), stop),
                        end: end as int,
                    })
                    &&& pos < end <= input@.len()
                },
                Err(e) => err_matches(e, sp, prod, fpos),
            }
        }),
    decreases depth, 2int,
{
    let mut out: Vec<Instr> = Vec::new();
    let mut cur: usize = pos;
    proof {
        assert(instrs_view(out@) =~= Seq::<InstrV>::empty());
    }
    #[verifier::loop_isolation(false)]
    loop
        invariant
            pos <= cur <= input@.len(),
            spec_instr_seq(input@, pos as int, depth as nat) == (match spec_instr_seq(
                input@,
                cur as int,
                depth as nat,
            ) {
                Parsed::Found { v: (rest, stop), end } => Parsed::Found {
                    v: (instrs_view(out@) + rest, stop),
                    end,
                },
                Parsed::Incomplete => Parsed::<(Seq<InstrV>, SeqStop)>::Incomplete,
                Parsed::Fail { kind } => Parsed::<(Seq<InstrV>, SeqStop)>::Fail { kind },
            }),
        decreases input@.len() - cur,
    {
        if cur >= input.len() {
            return Err(DecodeErr::new(ErrorKind::Incomplete, prod, fpos));
        }
        let b = input[cur];
        if b == 0x0B {
            proof {
                assert(instrs_view(out@) + Seq::<InstrV>::empty() =~= instrs_view(out@));
            }
            return Ok(((out, SeqStop::End), cur + 1));
        }
        if b == 0x05 {
            proof {
                assert(instrs_view(out@) + Seq::<InstrV>::empty() =~= instrs_view(out@));
            }
            return Ok(((out, SeqStop::Else), cur + 1));
        }
        let ghost pre = out@;
        match instr_parser(input, cur, depth) {
            Ok((v, end)) => {
                out.push(v);
                proof {
                    lemma_instrs_view(pre);
                    lemma_instrs_view(out@);
                    assert(instrs_view(out@) =~= instrs_view(pre).push(instr_view(v)));
                    match spec_instr_seq(input@, end as int, depth as nat) {
                        Parsed::Found { v: (r2, st2), end: e2 } => {
                            assert(instrs_view(pre) + (seq![instr_view(v)] + r2) =~= instrs_view(
                                out@,
                            ) + r2);
                        },
                        _ => {},
                    }
                }
                cur = end;
            },
            Err(e) => {
                return Err(e.push(prod, fpos));
            },
        }
    }
}

/// Decodes one instruction: the control group behind the instruction
/// extension point.
pub fn instr_parser(input: &[u8], pos: usize, depth: u32) -> (r: Result<
    (Instr, usize),
    DecodeErr,
>)
    requires
        pos <= input@.len(),
    ensures
        decodes_to(r, spec_instr(input@, pos as int, depth as nat), Prod::Instr, pos),
        r matches Ok((v, end)) ==> pos < end <= input@.len(),
    decreases depth, 1int,
{
    match control_instr_parser(input, pos, depth) {
        Ok((c, end)) => Ok((Instr::Control(Box::new(c)), end)),
        Err(e) => Err(e),
    }
}

/// Decodes one control instruction by opcode dispatch; an unknown opcode is
/// a structural failure, as is entering a block, loop or if once the
/// nesting budget `depth` is exhausted.
pub fn control_instr_parser(input: &[u8], pos: usize, depth: u32) -> (r: Result<
    (ControlInstruction, usize),
    DecodeErr,
>)
    requires
        pos <= input@.len(),
    ensures
        decodes_to(r, spec_control_instr(input@, pos as int, depth as nat), Prod::Instr, pos),
        r matches Ok((v, end)) ==> pos < end <= input@.len(),
    decreases depth, 0int,
{
    if pos >= input.len() {
        return Err(DecodeErr::new(ErrorKind::Incomplete, Prod::Instr, pos));
    }
    let op = input[pos];
    if op == 0x00 {
        return Ok((ControlInstruction::Unreachable, pos + 1));
    }
    if op == 0x01 {
        return Ok((ControlInstruction::Nop, pos + 1));
    }
    if op == 0x02 || op == 0x03 || op == 0x04 {
        if depth == 0 {
            return Err(DecodeErr::new(ErrorKind::Malformed, Prod::Instr, pos));
        }
        let (bt, e1) = match blocktype_parser(input, pos + 1) {
            Ok(x) => x,
            Err(e) => {
                return Err(e.push(Prod::Instr, pos));
            },
        };
        let ((body, stop), e2) = match instr_seq_parser(input, e1, depth - 1, Prod::Instr, pos) {
            Ok(x) => x,
            Err(e) => {
                return Err(e);
            },
        };
        if op == 0x02 {
            return match stop {
                SeqStop::End => Ok((ControlInstruction::Block(bt, body), e2)),
                SeqStop::Else => Err(DecodeErr::new(ErrorKind::Malformed, Prod::Instr, pos)),
            };
        }
        if op == 0x03 {
            return match stop {
                SeqStop::End => Ok((ControlInstruction::Loop(bt, body), e2)),
                SeqStop::Else => Err(DecodeErr::new(ErrorKind::Malformed, Prod::Instr, pos)),
            };
        }
        return match stop {
            SeqStop::End => {
                let else_body: Vec<Instr> = Vec::new();
                proof {
                    assert(instrs_view(else_body@) =~= Seq::<InstrV>::empty());
                }
                Ok((ControlInstruction::If(bt, body, else_body), e2))
            },
            SeqStop::Else => {
                let ((else_body, stop2), e3) = match instr_seq_parser(
                    input,
                    e2,
                    depth - 1,
                    Prod::Instr,
                    pos,
                ) {
                    Ok(x) => x,
                    Err(e) => {
                        return Err(e);
                    },
                };
                match stop2 {
                    SeqStop::End => Ok((ControlInstruction::If(bt, body, else_body), e3)),
                    SeqStop::Else => Err(
                        DecodeErr::new(ErrorKind::Malformed, Prod::Instr, pos),
                    ),
                }
            },
        };
    }
    if op == 0x0C {
        return match labelidx_parser(input, pos + 1) {
            Ok((l, end)) => Ok((ControlInstruction::Br(l), end)),
            Err(e) => Err(e.push(Prod::Instr, pos)),
        };
    }
    if op == 0x0D {
        return match labelidx_parser(input, pos + 1) {
            Ok((l, end)) => Ok((ControlInstruction::BrIf(l), end)),
            Err(e) => Err(e.push(Prod::Instr, pos)),
        };
    }
    if op == 0x0E {
        let (n, start) = match vector_count_parser(input, pos + 1) {
            Ok(x) => x,
            Err(e) => {
                return Err(e.push(Prod::Instr, pos));
            },
        };
        let mut ls: Vec<LabelIdx> = Vec::new();
        let mut cur: usize = start;
        let mut i: u32 = 0;
        proof {
            assert(ls.deep_view() =~= Seq::<LabelIdx>::empty());
        }
        #[verifier::loop_isolation(false)]
        while i < n
            invariant
                0 <= i <= n,
                pos < cur <= input@.len(),
                spec_counted_vec(input@, pos + 1, labelidx_elem()) == (match spec_vec_of(
                    input@,
                    cur as int,
                    (n - i) as nat,
                    labelidx_elem(),
                ) {
                    Parsed::Found { v: rest, end } => Parsed::Found {
                        v: ls.deep_view() + rest,
                        end,
                    },
                    Parsed::Incomplete => Parsed::<Seq<LabelIdx>>::Incomplete,
                    Parsed::Fail { kind } => Parsed::<Seq<LabelIdx>>::Fail { kind },
                }),
            decreases n - i,
        {
            let ghost pre = ls.deep_view();
            match labelidx_parser(input, cur) {
                Ok((l, end)) => {
                    ls.push(l);
                    proof {
                        assert(ls.deep_view() =~= pre.push(l));
                        let rest0 = spec_vec_of(
                            input@,
                            end as int,
                            (n - i - 1) as nat,
                            labelidx_elem(),
                        );
                        match rest0 {
                            Parsed::Found { v: r2, end: e2 } => {
                                assert(pre + (seq![l] + r2) =~= pre.push(l) + r2);
                            },
                            _ => {},
                        }
                    }
                    cur = end;
                    i = i + 1;
                },
                Err(e) => {
                    return Err(e.push(Prod::Instr, pos));
                },
            }
        }
        proof {
            assert(ls.deep_view() + Seq::<LabelIdx>::empty() =~= ls.deep_view());
        }
        return match labelidx_parser(input, cur) {
            Ok((d, end)) => Ok((ControlInstruction::BrTable(ls, d), end)),
            Err(e) => Err(e.push(Prod::Instr, pos)),
        };
    }
    if op == 0x0F {
        return Ok((ControlInstruction::Return, pos + 1));
    }
    if op == 0x10 {
        return match funcidx_parser(input, pos + 1) {
            Ok((f, end)) => Ok((ControlInstruction::Call(f), end)),
            Err(e) => Err(e.push(Prod::Instr, pos)),
        };
    }
    if op == 0x11 {
        let (t, mid) = match typeidx_parser(input, pos + 1) {
            Ok(x) => x,
            Err(e) => {
                return Err(e.push(Prod::Instr, pos));
            },
        };
        return match tableidx_parser(input, mid) {
            Ok((tbl, end)) => Ok((ControlInstruction::CallIndirect(t, tbl), end)),
            Err(e) => Err(e.push(Prod::Instr, pos)),
        };
    }
    Err(DecodeErr::new(ErrorKind::Malformed, Prod::Instr, pos))
}

/// Decodes an expression: an instruction sequence terminated by an end
/// marker, used for function bodies and all constant initializers.
pub fn expr_parser(input: &[u8], pos: usize, depth: u32) -> (r: Result<(Expr, usize), DecodeErr>)
    requires
        pos <= input@.len(),
    ensures
        decodes_to(r, spec_expr(input@, pos as int, depth as nat), Prod::Expr, pos),
        r matches Ok((v, end)) ==> pos < end <= input@.len(),
{
    match instr_seq_parser(input, pos, depth, Prod::Expr, pos) {
        Ok(((body, stop), end)) => match stop {
            SeqStop::End => Ok((Expr { instr: body }, end)),
            SeqStop::Else => Err(DecodeErr::new(ErrorKind::Malformed, Prod::Expr, pos)),
        },
        Err(e) => Err(e),
    }
}

} // verus!
