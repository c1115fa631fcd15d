//! The two-word binary form of instructions.
//!
//! The first word holds, little-endian: the opcode; a shape byte whose low five bits
//! say which of the five register slots are in use and whose bit 5 says that the
//! second word is in use; the five register slots; and a tiebreak byte saying whether
//! the second word belongs to the written operand, and which operands are Lisp
//! pointers. The second word holds the one constant an instruction may carry.
//!
//! A value operand takes two adjacent slots: a register read directly sits in the
//! first, a register through which memory is read sits in the second, a constant
//! fills both with register 0, and a fixed address leaves both empty.
use vstd::prelude::*;
use vstd::bytes::*;

use crate::bus::{Address, Native};
use crate::cpu::{
    BinaryOp, Comparison, Condition, Instruction, LValue, MBinaryOp, RValue, RegAndOff, Register,
};

verus! {

#[derive(Debug, PartialEq, Eq, Clone, Copy)]
pub enum EncoderError {
    BadInstruction,
}

#[derive(Debug, PartialEq, Eq, Clone, Copy)]
pub enum DecoderError {
    BadInstruction,
}

// Shape bits: which register slots are in use, and whether the second word is.
pub const P0: u8 = 1;
pub const P1: u8 = 2;
pub const P2: u8 = 4;
pub const P3: u8 = 8;
pub const P4: u8 = 16;
pub const WIDE: u8 = 32;

// Tiebreak bits.
/// The second word is the written operand's.
pub const DST_OFF: u8 = 1;
/// The value operand reads through a Lisp pointer.
pub const RVALUE_LISP: u8 = 4;
/// The written operand writes through a Lisp pointer.
pub const LVALUE_LISP: u8 = 8;

pub open spec fn has_flag(bits: u8, flag: u8) -> bool {
    bits & flag == flag
}

fn contains(bits: u8, flag: u8) -> (r: bool)
    ensures
        r == has_flag(bits, flag),
{
    bits & flag == flag
}

/// How an operand is laid out over a pair of register slots and the second word.
#[derive(Debug, Clone, Copy)]
pub struct OperandFields {
    /// The first slot of the pair.
    pub direct: Option<Register>,
    /// The second slot of the pair.
    pub indirect: Option<Register>,
    /// Whether the operand uses the second word.
    pub wide: bool,
    /// Whether the operand goes through a Lisp pointer.
    pub lisp: bool,
    /// The operand's part of the second word.
    pub off: u64,
}

pub open spec fn off_or_zero(off: Option<Native>) -> u64 {
    match off {
        Some(n) => n.0,
        None => 0,
    }
}

/// The displacement a decoder reads: the second word, where the operand uses it.
pub open spec fn present(wide: bool, off: u64) -> Option<Native> {
    if wide {
        Some(Native(off))
    } else {
        None
    }
}

/// The layout of an operand that is only the second word.
pub open spec fn immediate(n: u64) -> OperandFields {
    OperandFields { direct: None, indirect: None, wide: true, lisp: false, off: n }
}

/// The layout of an instruction without a value operand.
pub open spec fn no_value() -> OperandFields {
    OperandFields { direct: None, indirect: None, wide: false, lisp: false, off: 0 }
}

pub open spec fn rvalue_fields(v: RValue) -> OperandFields {
    match v {
        RValue::Literal(l) => OperandFields {
            direct: Some(Register(0)),
            indirect: Some(Register(0)),
            wide: true,
            lisp: false,
            off: l.0,
        },
        RValue::Absolute(a) => immediate(a.0),
        RValue::Register(ro) => OperandFields {
            direct: Some(ro.op1),
            indirect: None,
            wide: ro.off is Some,
            lisp: false,
            off: off_or_zero(ro.off),
        },
        RValue::Indirect(ro) => OperandFields {
            direct: None,
            indirect: Some(ro.op1),
            wide: ro.off is Some,
            lisp: false,
            off: off_or_zero(ro.off),
        },
        RValue::LPointer(ro) => OperandFields {
            direct: None,
            indirect: Some(ro.op1),
            wide: ro.off is Some,
            lisp: true,
            off: off_or_zero(ro.off),
        },
    }
}

pub open spec fn rvalue_of_fields(
    direct: Option<Register>,
    indirect: Option<Register>,
    wide: bool,
    lisp: bool,
    off: u64,
) -> RValue {
    match direct {
        Some(op1) => match indirect {
            Some(_) => RValue::Literal(Native(off)),
            None => RValue::Register(RegAndOff { op1, off: present(wide, off) }),
        },
        None => match indirect {
            Some(op1) => if lisp {
                RValue::LPointer(RegAndOff { op1, off: present(wide, off) })
            } else {
                RValue::Indirect(RegAndOff { op1, off: present(wide, off) })
            },
            None => RValue::Absolute(Address(off)),
        },
    }
}

pub open spec fn lvalue_fields(v: LValue) -> OperandFields {
    match v {
        LValue::Absolute(a) => immediate(a.0),
        LValue::Register(r) => OperandFields {
            direct: Some(r),
            indirect: None,
            wide: false,
            lisp: false,
            off: 0,
        },
        LValue::Indirect(ro) => OperandFields {
            direct: None,
            indirect: Some(ro.op1),
            wide: ro.off is Some,
            lisp: false,
            off: off_or_zero(ro.off),
        },
        LValue::LPointer(ro) => OperandFields {
            direct: None,
            indirect: Some(ro.op1),
            wide: ro.off is Some,
            lisp: true,
            off: off_or_zero(ro.off),
        },
    }
}

pub open spec fn lvalue_of_fields(
    direct: Option<Register>,
    indirect: Option<Register>,
    wide: bool,
    lisp: bool,
    off: u64,
) -> LValue {
    match direct {
        Some(r) => LValue::Register(r),
        None => match indirect {
            Some(op1) => if lisp {
                LValue::LPointer(RegAndOff { op1, off: present(wide, off) })
            } else {
                LValue::Indirect(RegAndOff { op1, off: present(wide, off) })
            },
            None => LValue::Absolute(Address(off)),
        },
    }
}

impl RValue {
    fn encode(&self) -> (r: OperandFields)
        ensures
            r == rvalue_fields(*self),
    {
        match self {
            Self::Literal(l) => OperandFields {
                direct: Some(Register(0)),
                indirect: Some(Register(0)),
                wide: true,
                lisp: false,
                off: l.0,
            },
            Self::Absolute(a) => OperandFields {
                direct: None,
                indirect: None,
                wide: true,
                lisp: false,
                off: a.0,
            },
            Self::Register(RegAndOff { op1, off }) => OperandFields {
                direct: Some(*op1),
                indirect: None,
                wide: off.is_some(),
                lisp: false,
                off: match off {
                    Some(n) => n.0,
                    None => 0,
                },
            },
            Self::Indirect(RegAndOff { op1, off }) => OperandFields {
                direct: None,
                indirect: Some(*op1),
                wide: off.is_some(),
                lisp: false,
                off: match off {
                    Some(n) => n.0,
                    None => 0,
                },
            },
            Self::LPointer(RegAndOff { op1, off }) => OperandFields {
                direct: None,
                indirect: Some(*op1),
                wide: off.is_some(),
                lisp: true,
                off: match off {
                    Some(n) => n.0,
                    None => 0,
                },
            },
        }
    }

    fn decode(
        direct: Option<Register>,
        indirect: Option<Register>,
        wide: bool,
        lisp: bool,
        off: Native,
    ) -> (r: Self)
        ensures
            r == rvalue_of_fields(direct, indirect, wide, lisp, off.0),
    {
        let with_off = if wide {
            Some(off)
        } else {
            None
        };
        match direct {
            Some(op1) => match indirect {
                Some(_) => RValue::Literal(off),
                None => RValue::Register(RegAndOff { op1, off: with_off }),
            },
            None => match indirect {
                Some(op1) => if lisp {
                    RValue::LPointer(RegAndOff { op1, off: with_off })
                } else {
                    RValue::Indirect(RegAndOff { op1, off: with_off })
                },
                None => RValue::Absolute(Address::from(off)),
            },
        }
    }
}

impl LValue {
    fn encode(&self) -> (r: OperandFields)
        ensures
            r == lvalue_fields(*self),
    {
        match self {
            Self::Absolute(a) => OperandFields {
                direct: None,
                indirect: None,
                wide: true,
                lisp: false,
                off: a.0,
            },
            Self::Register(r) => OperandFields {
                direct: Some(*r),
                indirect: None,
                wide: false,
                lisp: false,
                off: 0,
            },
            Self::Indirect(RegAndOff { op1, off }) => OperandFields {
                direct: None,
                indirect: Some(*op1),
                wide: off.is_some(),
                lisp: false,
                off: match off {
                    Some(n) => n.0,
                    None => 0,
                },
            },
            Self::LPointer(RegAndOff { op1, off }) => OperandFields {
                direct: None,
                indirect: Some(*op1),
                wide: off.is_some(),
                lisp: true,
                off: match off {
                    Some(n) => n.0,
                    None => 0,
                },
            },
        }
    }

    fn decode(
        direct: Option<Register>,
        indirect: Option<Register>,
        wide: bool,
        lisp: bool,
        off: Native,
    ) -> (r: Self)
        ensures
            r == lvalue_of_fields(direct, indirect, wide, lisp, off.0),
    {
        let with_off = if wide {
            Some(off)
        } else {
            None
        };
        match direct {
            Some(r) => LValue::Register(r),
            None => match indirect {
                Some(op1) => if lisp {
                    LValue::LPointer(RegAndOff { op1, off: with_off })
                } else {
                    LValue::Indirect(RegAndOff { op1, off: with_off })
                },
                None => LValue::Absolute(Address::from(off)),
            },
        }
    }
}

#[derive(Debug, PartialEq, Eq, Clone, Copy)]
enum Opcode {
    Halt,
    Nop,
    Jump,
    JumpIf,
    JumpIfNot,
    Int,
    IReturn,
    Mov,
    Mov8,
    AAdd,
    ASub,
    SetTag,
    GetTag,
    SetPayload,
    GetPayload,
    Req,
    Cons,
    Uncons,
    Car,
    Cdr,
    SetCar,
    SetCdr,
    Add,
    Mul,
    Shl,
    Shr,
    IDiv,
    Sub,
    Eq,
    Ne,
    Gt,
    Gte,
    Lt,
    Lte,
    Push,
    Pop,
    MakeClosure,
    Call,
    Return,
    Typep,
    MemCpy,
    DisableInterrupts,
    EnableInterrupts,
}


/// The fields of an encoded instruction, before packing into two words.
#[derive(Debug, Clone, Copy)]
pub struct EncodedFields {
    pub opcode: u8,
    pub p0: Option<Register>,
    pub p1: Option<Register>,
    pub p2: Option<Register>,
    pub p3: Option<Register>,
    pub p4: Option<Register>,
    /// The second word is in use.
    pub wide: bool,
    /// The second word belongs to the written operand.
    pub dst_off: bool,
    /// The value operand reads through a Lisp pointer.
    pub rlisp: bool,
    /// The written operand writes through a Lisp pointer.
    pub llisp: bool,
    pub off: u64,
}

pub open spec fn slot_bit(p: Option<Register>, bit: u8) -> u8 {
    if p is Some {
        bit
    } else {
        0
    }
}

pub open spec fn flag_bit(b: bool, bit: u8) -> u8 {
    if b {
        bit
    } else {
        0
    }
}

pub open spec fn slot_byte(p: Option<Register>) -> u8 {
    match p {
        Some(r) => r.0,
        None => 0,
    }
}

pub open spec fn shape_of(f: EncodedFields) -> u8 {
    slot_bit(f.p0, P0) | slot_bit(f.p1, P1) | slot_bit(f.p2, P2) | slot_bit(f.p3, P3) | slot_bit(
        f.p4,
        P4,
    ) | flag_bit(f.wide, WIDE)
}

pub open spec fn tiebreak_of(f: EncodedFields) -> u8 {
    flag_bit(f.dst_off, DST_OFF) | flag_bit(f.rlisp, RVALUE_LISP) | flag_bit(f.llisp, LVALUE_LISP)
}

/// The bytes of the first word of an encoded instruction.
pub open spec fn first_word_bytes(f: EncodedFields) -> Seq<u8> {
    seq![
        f.opcode,
        shape_of(f),
        slot_byte(f.p0),
        slot_byte(f.p1),
        slot_byte(f.p2),
        slot_byte(f.p3),
        slot_byte(f.p4),
        tiebreak_of(f),
    ]
}

/// The two words of an encoded instruction.
pub open spec fn packed(f: EncodedFields) -> (u64, u64) {
    (spec_u64_from_le_bytes(first_word_bytes(f)), f.off)
}

/// An instruction with the given register slots and at most a value operand, whose
/// registers the caller has placed among the slots.
pub open spec fn fields(
    opcode: u8,
    p0: Option<Register>,
    p1: Option<Register>,
    p2: Option<Register>,
    p3: Option<Register>,
    p4: Option<Register>,
    v: OperandFields,
) -> EncodedFields {
    EncodedFields {
        opcode,
        p0,
        p1,
        p2,
        p3,
        p4,
        wide: v.wide,
        dst_off: false,
        rlisp: v.lisp,
        llisp: false,
        off: v.off,
    }
}

/// An instruction of up to three registers and nothing else.
pub open spec fn registers(
    opcode: u8,
    p0: Option<Register>,
    p1: Option<Register>,
    p2: Option<Register>,
) -> EncodedFields {
    fields(opcode, p0, p1, p2, None, None, no_value())
}

/// Two registers, then a value operand in slots 2 and 3.
pub open spec fn two_then_value(opcode: u8, r0: Register, r1: Register, v: RValue) -> EncodedFields {
    let o = rvalue_fields(v);
    fields(opcode, Some(r0), Some(r1), o.direct, o.indirect, None, o)
}

pub open spec fn binary_opcode(op: BinaryOp) -> u8 {
    match op {
        BinaryOp::Add => 22,
        BinaryOp::Mul => 23,
        BinaryOp::Shl => 24,
        BinaryOp::Shr => 25,
        BinaryOp::Sub => 27,
    }
}

pub open spec fn comparison_opcode(op: Comparison) -> u8 {
    match op {
        Comparison::Eq => 28,
        Comparison::Ne => 29,
        Comparison::Gt => 30,
        Comparison::Gte => 31,
        Comparison::Lt => 32,
        Comparison::Lte => 33,
    }
}

pub open spec fn mbinary_opcode(op: MBinaryOp) -> u8 {
    match op {
        MBinaryOp::Add => 9,
        MBinaryOp::Sub => 10,
    }
}

/// The layout of each instruction; `None` for a move whose two operands both need
/// the second word.
pub open spec fn encoding_of(i: Instruction) -> Option<EncodedFields> {
    match i {
        Instruction::Halt => Some(registers(0, None, None, None)),
        Instruction::Nop => Some(registers(1, None, None, None)),
        Instruction::Return => Some(registers(38, None, None, None)),
        Instruction::IReturn => Some(registers(6, None, None, None)),
        Instruction::EnableInterrupts => Some(registers(42, None, None, None)),
        Instruction::DisableInterrupts => Some(registers(41, None, None, None)),
        Instruction::Pop { dst } => Some(registers(35, Some(dst), None, None)),
        Instruction::Push { src } => Some(registers(34, Some(src), None, None)),
        Instruction::Int(n) => Some(fields(5, None, None, None, None, None, immediate(n))),
        Instruction::Car { dst, src } => Some(registers(18, Some(dst), Some(src), None)),
        Instruction::Cdr { dst, src } => Some(registers(19, Some(dst), Some(src), None)),
        Instruction::SetCar { dst, src } => Some(registers(20, Some(dst), Some(src), None)),
        Instruction::SetCdr { dst, src } => Some(registers(21, Some(dst), Some(src), None)),
        Instruction::GetPayload { dst, src } => Some(registers(14, Some(dst), Some(src), None)),
        Instruction::SetPayload { dst, src } => Some(registers(13, Some(dst), Some(src), None)),
        Instruction::GetTag { dst, src } => Some(registers(12, Some(dst), Some(src), None)),
        Instruction::SetTag { dst, src } => Some(registers(11, Some(dst), Some(src), None)),
        Instruction::MakeClosure { dst, code } => Some(registers(36, Some(dst), Some(code), None)),
        Instruction::Cons { dst, car, cdr } => Some(registers(16, Some(dst), Some(car), Some(cdr))),
        Instruction::Uncons { car, cdr, src } => Some(registers(17, Some(car), Some(cdr), Some(src))),
        Instruction::Req { dst, prototype, size } => Some(
            registers(15, Some(dst), Some(prototype), Some(size)),
        ),
        Instruction::Binary { op, dst, op1, op2 } => Some(two_then_value(binary_opcode(op), dst, op1, op2)),
        Instruction::MBinary { op, dst, op1, op2 } => Some(two_then_value(mbinary_opcode(op), dst, op1, op2)),
        Instruction::Comparison { op, dst, op1, op2 } => Some(
            two_then_value(comparison_opcode(op), dst, op1, op2),
        ),
        Instruction::MemCpy { dst, src, count } => Some(two_then_value(40, dst, src, count)),
        Instruction::Call { target } => {
            let o = rvalue_fields(target);
            Some(fields(37, o.direct, o.indirect, None, None, None, o))
        },
        Instruction::Jump { condition, target } => {
            let o = rvalue_fields(target);
            match condition {
                Condition::Always => Some(fields(2, None, o.direct, o.indirect, None, None, o)),
                Condition::True(c) => Some(fields(3, Some(c), o.direct, o.indirect, None, None, o)),
                Condition::False(c) => Some(fields(4, Some(c), o.direct, o.indirect, None, None, o)),
            }
        },
        Instruction::IDiv { div, rem, op1, op2 } => {
            let o = rvalue_fields(op2);
            Some(fields(26, Some(div), Some(rem), Some(op1), o.direct, o.indirect, o))
        },
        Instruction::Mov { dst, src } => mov_fields(7, dst, src),
        Instruction::Mov8 { dst, src } => mov_fields(8, dst, src),
        Instruction::Typep { dst, src, compare } => Some(
            fields(39, Some(dst), Some(src), None, None, None, immediate(compare.0)),
        ),
    }
}

/// A move: the written operand in slots 0 and 1, the value in slots 2 and 3, and the
/// second word for whichever of them needs it.
pub open spec fn mov_fields(opcode: u8, dst: LValue, src: RValue) -> Option<EncodedFields> {
    let d = lvalue_fields(dst);
    let s = rvalue_fields(src);
    if d.wide && s.wide {
        None
    } else {
        Some(
            EncodedFields {
                opcode,
                p0: d.direct,
                p1: d.indirect,
                p2: s.direct,
                p3: s.indirect,
                p4: None,
                wide: d.wide || s.wide,
                dst_off: d.wide,
                rlisp: s.lisp,
                llisp: d.lisp,
                off: if d.wide {
                    d.off
                } else {
                    s.off
                },
            },
        )
    }
}

/// The register in slot `k` of a first word, if its shape bit is set.
pub open spec fn slot(bytes: Seq<u8>, k: int, bit: u8) -> Option<Register> {
    if has_flag(bytes[1], bit) {
        Some(Register(bytes[2 + k]))
    } else {
        None
    }
}

pub open spec fn required(r: Option<Register>) -> Result<Register, DecoderError> {
    match r {
        Some(x) => Ok(x),
        None => Err(DecoderError::BadInstruction),
    }
}

/// Chains a required register slot into a decode result.
pub open spec fn with_reg(
    r: Option<Register>,
    f: spec_fn(Register) -> Result<Instruction, DecoderError>,
) -> Result<Instruction, DecoderError> {
    match r {
        Some(x) => f(x),
        None => Err(DecoderError::BadInstruction),
    }
}

/// What the two words `lo`, `hi` decode to.
pub open spec fn decoded(lo: u64, hi: u64) -> Result<Instruction, DecoderError> {
    let b = spec_u64_to_le_bytes(lo);
    let r0 = slot(b, 0, P0);
    let r1 = slot(b, 1, P1);
    let r2 = slot(b, 2, P2);
    let r3 = slot(b, 3, P3);
    let r4 = slot(b, 4, P4);
    let wide = has_flag(b[1], WIDE);
    let dst_off = has_flag(b[7], DST_OFF);
    let rlisp = has_flag(b[7], RVALUE_LISP);
    let llisp = has_flag(b[7], LVALUE_LISP);
    let op = b[0];
    if op == 0 {
        Ok(Instruction::Halt)
    } else if op == 1 {
        Ok(Instruction::Nop)
    } else if op == 2 {
        Ok(Instruction::Jump { condition: Condition::Always, target: rvalue_of_fields(r1, r2, wide, rlisp, hi) })
    } else if op == 3 {
        with_reg(r0, |c: Register| Ok(Instruction::Jump { condition: Condition::True(c), target: rvalue_of_fields(r1, r2, wide, rlisp, hi) }))
    } else if op == 4 {
        with_reg(r0, |c: Register| Ok(Instruction::Jump { condition: Condition::False(c), target: rvalue_of_fields(r1, r2, wide, rlisp, hi) }))
    } else if op == 5 {
        Ok(Instruction::Int(hi))
    } else if op == 6 {
        Ok(Instruction::IReturn)
    } else if op == 7 {
        Ok(Instruction::Mov {
            dst: lvalue_of_fields(r0, r1, wide && dst_off, llisp, hi),
            src: rvalue_of_fields(r2, r3, wide && !dst_off, rlisp, hi),
        })
    } else if op == 8 {
        Ok(Instruction::Mov8 {
            dst: lvalue_of_fields(r0, r1, wide && dst_off, llisp, hi),
            src: rvalue_of_fields(r2, r3, wide && !dst_off, rlisp, hi),
        })
    } else if op == 9 || op == 10 {
        with_reg(r0, |d: Register| with_reg(r1, |a: Register| Ok(Instruction::MBinary {
            op: if op == 9 { MBinaryOp::Add } else { MBinaryOp::Sub },
            dst: d,
            op1: a,
            op2: rvalue_of_fields(r2, r3, wide, rlisp, hi),
        })))
    } else if 11 <= op <= 14 || 18 <= op <= 21 || op == 36 {
        with_reg(r0, |d: Register| with_reg(r1, |s: Register| Ok(two_register_instruction(op, d, s))))
    } else if op == 15 || op == 16 || op == 17 {
        with_reg(r0, |a: Register| with_reg(r1, |b: Register| with_reg(r2, |c: Register| Ok(
            if op == 15 {
                Instruction::Req { dst: a, prototype: b, size: c }
            } else if op == 16 {
                Instruction::Cons { dst: a, car: b, cdr: c }
            } else {
                Instruction::Uncons { car: a, cdr: b, src: c }
            },
        ))))
    } else if 22 <= op <= 25 || op == 27 {
        with_reg(r0, |d: Register| with_reg(r1, |a: Register| Ok(Instruction::Binary {
            op: if op == 22 {
                BinaryOp::Add
            } else if op == 23 {
                BinaryOp::Mul
            } else if op == 24 {
                BinaryOp::Shl
            } else if op == 25 {
                BinaryOp::Shr
            } else {
                BinaryOp::Sub
            },
            dst: d,
            op1: a,
            op2: rvalue_of_fields(r2, r3, wide, rlisp, hi),
        })))
    } else if op == 26 {
        with_reg(r0, |d: Register| with_reg(r1, |m: Register| with_reg(r2, |a: Register| Ok(Instruction::IDiv {
            div: d,
            rem: m,
            op1: a,
            op2: rvalue_of_fields(r3, r4, wide, rlisp, hi),
        }))))
    } else if 28 <= op <= 33 {
        with_reg(r0, |d: Register| with_reg(r1, |a: Register| Ok(Instruction::Comparison {
            op: if op == 28 {
                Comparison::Eq
            } else if op == 29 {
                Comparison::Ne
            } else if op == 30 {
                Comparison::Gt
            } else if op == 31 {
                Comparison::Gte
            } else if op == 32 {
                Comparison::Lt
            } else {
                Comparison::Lte
            },
            dst: d,
            op1: a,
            op2: rvalue_of_fields(r2, r3, wide, rlisp, hi),
        })))
    } else if op == 34 {
        with_reg(r0, |s: Register| Ok(Instruction::Push { src: s }))
    } else if op == 35 {
        with_reg(r0, |d: Register| Ok(Instruction::Pop { dst: d }))
    } else if op == 37 {
        Ok(Instruction::Call { target: rvalue_of_fields(r0, r1, wide, rlisp, hi) })
    } else if op == 38 {
        Ok(Instruction::Return)
    } else if op == 39 {
        with_reg(r0, |d: Register| with_reg(r1, |s: Register| Ok(Instruction::Typep {
            dst: d,
            src: s,
            compare: Native(hi),
        })))
    } else if op == 40 {
        with_reg(r0, |d: Register| with_reg(r1, |s: Register| Ok(Instruction::MemCpy {
            dst: d,
            src: s,
            count: rvalue_of_fields(r2, r3, wide, rlisp, hi),
        })))
    } else if op == 41 {
        Ok(Instruction::DisableInterrupts)
    } else if op == 42 {
        Ok(Instruction::EnableInterrupts)
    } else {
        Err(DecoderError::BadInstruction)
    }
}

pub open spec fn two_register_instruction(op: u8, d: Register, s: Register) -> Instruction {
    if op == 11 {
        Instruction::SetTag { dst: d, src: s }
    } else if op == 12 {
        Instruction::GetTag { dst: d, src: s }
    } else if op == 13 {
        Instruction::SetPayload { dst: d, src: s }
    } else if op == 14 {
        Instruction::GetPayload { dst: d, src: s }
    } else if op == 18 {
        Instruction::Car { dst: d, src: s }
    } else if op == 19 {
        Instruction::Cdr { dst: d, src: s }
    } else if op == 20 {
        Instruction::SetCar { dst: d, src: s }
    } else if op == 21 {
        Instruction::SetCdr { dst: d, src: s }
    } else {
        Instruction::MakeClosure { dst: d, code: s }
    }
}


impl Opcode {
    spec fn spec_code(self) -> u8 {
        match self {
            Opcode::Halt => 0,
            Opcode::Nop => 1,
            Opcode::Jump => 2,
            Opcode::JumpIf => 3,
            Opcode::JumpIfNot => 4,
            Opcode::Int => 5,
            Opcode::IReturn => 6,
            Opcode::Mov => 7,
            Opcode::Mov8 => 8,
            Opcode::AAdd => 9,
            Opcode::ASub => 10,
            Opcode::SetTag => 11,
            Opcode::GetTag => 12,
            Opcode::SetPayload => 13,
            Opcode::GetPayload => 14,
            Opcode::Req => 15,
            Opcode::Cons => 16,
            Opcode::Uncons => 17,
            Opcode::Car => 18,
            Opcode::Cdr => 19,
            Opcode::SetCar => 20,
            Opcode::SetCdr => 21,
            Opcode::Add => 22,
            Opcode::Mul => 23,
            Opcode::Shl => 24,
            Opcode::Shr => 25,
            Opcode::IDiv => 26,
            Opcode::Sub => 27,
            Opcode::Eq => 28,
            Opcode::Ne => 29,
            Opcode::Gt => 30,
            Opcode::Gte => 31,
            Opcode::Lt => 32,
            Opcode::Lte => 33,
            Opcode::Push => 34,
            Opcode::Pop => 35,
            Opcode::MakeClosure => 36,
            Opcode::Call => 37,
            Opcode::Return => 38,
            Opcode::Typep => 39,
            Opcode::MemCpy => 40,
            Opcode::DisableInterrupts => 41,
            Opcode::EnableInterrupts => 42,
        }
    }

    #[verifier::when_used_as_spec(spec_code)]
    fn code(self) -> (r: u8)
        ensures
            r == self.spec_code(),
    {
        match self {
            Opcode::Halt => 0,
            Opcode::Nop => 1,
            Opcode::Jump => 2,
            Opcode::JumpIf => 3,
            Opcode::JumpIfNot => 4,
            Opcode::Int => 5,
            Opcode::IReturn => 6,
            Opcode::Mov => 7,
            Opcode::Mov8 => 8,
            Opcode::AAdd => 9,
            Opcode::ASub => 10,
            Opcode::SetTag => 11,
            Opcode::GetTag => 12,
            Opcode::SetPayload => 13,
            Opcode::GetPayload => 14,
            Opcode::Req => 15,
            Opcode::Cons => 16,
            Opcode::Uncons => 17,
            Opcode::Car => 18,
            Opcode::Cdr => 19,
            Opcode::SetCar => 20,
            Opcode::SetCdr => 21,
            Opcode::Add => 22,
            Opcode::Mul => 23,
            Opcode::Shl => 24,
            Opcode::Shr => 25,
            Opcode::IDiv => 26,
            Opcode::Sub => 27,
            Opcode::Eq => 28,
            Opcode::Ne => 29,
            Opcode::Gt => 30,
            Opcode::Gte => 31,
            Opcode::Lt => 32,
            Opcode::Lte => 33,
            Opcode::Push => 34,
            Opcode::Pop => 35,
            Opcode::MakeClosure => 36,
            Opcode::Call => 37,
            Opcode::Return => 38,
            Opcode::Typep => 39,
            Opcode::MemCpy => 40,
            Opcode::DisableInterrupts => 41,
            Opcode::EnableInterrupts => 42,
        }
    }

    fn from_code(byte: u8) -> (r: Option<Opcode>)
        ensures
            match r {
                Some(op) => op.spec_code() == byte,
                None => byte > 42,
            },
    {
        match byte {
            0 => Some(Opcode::Halt),
            1 => Some(Opcode::Nop),
            2 => Some(Opcode::Jump),
            3 => Some(Opcode::JumpIf),
            4 => Some(Opcode::JumpIfNot),
            5 => Some(Opcode::Int),
            6 => Some(Opcode::IReturn),
            7 => Some(Opcode::Mov),
            8 => Some(Opcode::Mov8),
            9 => Some(Opcode::AAdd),
            10 => Some(Opcode::ASub),
            11 => Some(Opcode::SetTag),
            12 => Some(Opcode::GetTag),
            13 => Some(Opcode::SetPayload),
            14 => Some(Opcode::GetPayload),
            15 => Some(Opcode::Req),
            16 => Some(Opcode::Cons),
            17 => Some(Opcode::Uncons),
            18 => Some(Opcode::Car),
            19 => Some(Opcode::Cdr),
            20 => Some(Opcode::SetCar),
            21 => Some(Opcode::SetCdr),
            22 => Some(Opcode::Add),
            23 => Some(Opcode::Mul),
            24 => Some(Opcode::Shl),
            25 => Some(Opcode::Shr),
            26 => Some(Opcode::IDiv),
            27 => Some(Opcode::Sub),
            28 => Some(Opcode::Eq),
            29 => Some(Opcode::Ne),
            30 => Some(Opcode::Gt),
            31 => Some(Opcode::Gte),
            32 => Some(Opcode::Lt),
            33 => Some(Opcode::Lte),
            34 => Some(Opcode::Push),
            35 => Some(Opcode::Pop),
            36 => Some(Opcode::MakeClosure),
            37 => Some(Opcode::Call),
            38 => Some(Opcode::Return),
            39 => Some(Opcode::Typep),
            40 => Some(Opcode::MemCpy),
            41 => Some(Opcode::DisableInterrupts),
            42 => Some(Opcode::EnableInterrupts),
            _ => None,
        }
    }
}

fn slot_bit_exec(p: Option<Register>, bit: u8) -> (r: u8)
    ensures
        r == slot_bit(p, bit),
{
    if p.is_some() {
        bit
    } else {
        0
    }
}

fn flag_bit_exec(b: bool, bit: u8) -> (r: u8)
    ensures
        r == flag_bit(b, bit),
{
    if b {
        bit
    } else {
        0
    }
}

fn slot_byte_exec(p: Option<Register>) -> (r: u8)
    ensures
        r == slot_byte(p),
{
    match p {
        Some(r) => r.0,
        None => 0,
    }
}

fn slot_exec(bytes: &Vec<u8>, k: usize, bit: u8) -> (r: Option<Register>)
    requires
        bytes@.len() == 8,
        k < 5,
    ensures
        r == slot(bytes@, k as int, bit),
{
    if contains(bytes[1], bit) {
        Some(Register(bytes[2 + k]))
    } else {
        None
    }
}

fn required_exec(r: Option<Register>) -> (out: Result<Register, DecoderError>)
    ensures
        out == required(r),
{
    match r {
        Some(x) => Ok(x),
        None => Err(DecoderError::BadInstruction),
    }
}

/// The slots and flags of a first word.
struct Params {
    opcode: Opcode,
    r0: Option<Register>,
    r1: Option<Register>,
    r2: Option<Register>,
    r3: Option<Register>,
    r4: Option<Register>,
    wide: bool,
    dst_off: bool,
    rlisp: bool,
    llisp: bool,
}

impl Instruction {
    fn decode_params(lo: u64) -> (r: Result<Params, DecoderError>)
        ensures
            ({
                let b = spec_u64_to_le_bytes(lo);
                match r {
                    Ok(p) => {
                        &&& p.opcode.spec_code() == b[0]
                        &&& p.r0 == slot(b, 0, P0)
                        &&& p.r1 == slot(b, 1, P1)
                        &&& p.r2 == slot(b, 2, P2)
                        &&& p.r3 == slot(b, 3, P3)
                        &&& p.r4 == slot(b, 4, P4)
                        &&& p.wide == has_flag(b[1], WIDE)
                        &&& p.dst_off == has_flag(b[7], DST_OFF)
                        &&& p.rlisp == has_flag(b[7], RVALUE_LISP)
                        &&& p.llisp == has_flag(b[7], LVALUE_LISP)
                    },
                    Err(e) => b[0] > 42,
                }
            }),
    {
        let bytes = u64_to_le_bytes(lo);
        let opcode = match Opcode::from_code(bytes[0]) {
            Some(op) => op,
            None => return Err(DecoderError::BadInstruction),
        };
        Ok(
            Params {
                opcode,
                r0: slot_exec(&bytes, 0, P0),
                r1: slot_exec(&bytes, 1, P1),
                r2: slot_exec(&bytes, 2, P2),
                r3: slot_exec(&bytes, 3, P3),
                r4: slot_exec(&bytes, 4, P4),
                wide: contains(bytes[1], WIDE),
                dst_off: contains(bytes[7], DST_OFF),
                rlisp: contains(bytes[7], RVALUE_LISP),
                llisp: contains(bytes[7], LVALUE_LISP),
            },
        )
    }

    /// Packs the fields into two words.
    fn pack(f: EncodedFields) -> (r: (u64, u64))
        ensures
            r == packed(f),
    {
        let shape = slot_bit_exec(f.p0, P0) | slot_bit_exec(f.p1, P1) | slot_bit_exec(f.p2, P2)
            | slot_bit_exec(f.p3, P3) | slot_bit_exec(f.p4, P4) | flag_bit_exec(f.wide, WIDE);
        let tiebreak = flag_bit_exec(f.dst_off, DST_OFF) | flag_bit_exec(f.rlisp, RVALUE_LISP)
            | flag_bit_exec(f.llisp, LVALUE_LISP);
        let bytes: Vec<u8> = vec![
            f.opcode,
            shape,
            slot_byte_exec(f.p0),
            slot_byte_exec(f.p1),
            slot_byte_exec(f.p2),
            slot_byte_exec(f.p3),
            slot_byte_exec(f.p4),
            tiebreak,
        ];
        assert(bytes@ =~= first_word_bytes(f));
        (u64_from_le_bytes(bytes.as_slice()), f.off)
    }

    /// Packs an instruction whose slots hold registers and at most one value operand.
    #[allow(clippy::too_many_arguments)]
    fn pack_fields(
        opcode: Opcode,
        p0: Option<Register>,
        p1: Option<Register>,
        p2: Option<Register>,
        p3: Option<Register>,
        p4: Option<Register>,
        v: OperandFields,
    ) -> (r: (u64, u64))
        ensures
            r == packed(fields(opcode.spec_code(), p0, p1, p2, p3, p4, v)),
    {
        Instruction::pack(
            EncodedFields {
                opcode: opcode.code(),
                p0,
                p1,
                p2,
                p3,
                p4,
                wide: v.wide,
                dst_off: false,
                rlisp: v.lisp,
                llisp: false,
                off: v.off,
            },
        )
    }

    fn pack_registers(
        opcode: Opcode,
        p0: Option<Register>,
        p1: Option<Register>,
        p2: Option<Register>,
    ) -> (r: (u64, u64))
        ensures
            r == packed(registers(opcode.spec_code(), p0, p1, p2)),
    {
        let none = OperandFields { direct: None, indirect: None, wide: false, lisp: false, off: 0 };
        Instruction::pack_fields(opcode, p0, p1, p2, None, None, none)
    }

    fn pack_two_then_value(opcode: Opcode, r0: Register, r1: Register, v: &RValue) -> (r: (u64, u64))
        ensures
            r == packed(two_then_value(opcode.spec_code(), r0, r1, *v)),
    {
        let o = v.encode();
        Instruction::pack_fields(opcode, Some(r0), Some(r1), o.direct, o.indirect, None, o)
    }
}

impl Instruction {
    /// Decodes the two words of an instruction.
    pub fn decode(lo: u64, hi: u64) -> (r: Result<Self, DecoderError>)
        ensures
            r == decoded(lo, hi),
    {
        let p = Self::decode_params(lo)?;
        let (r0, r1, r2, r3, r4) = (p.r0, p.r1, p.r2, p.r3, p.r4);
        let (wide, rlisp) = (p.wide, p.rlisp);
        let off = Native(hi);
        match p.opcode {
            Opcode::Nop => Ok(Self::Nop),
            Opcode::Jump => Ok(Self::Jump {
                condition: Condition::Always,
                target: RValue::decode(r1, r2, wide, rlisp, off),
            }),
            Opcode::JumpIf => Ok(Self::Jump {
                condition: Condition::True(required_exec(r0)?),
                target: RValue::decode(r1, r2, wide, rlisp, off),
            }),
            Opcode::JumpIfNot => Ok(Self::Jump {
                condition: Condition::False(required_exec(r0)?),
                target: RValue::decode(r1, r2, wide, rlisp, off),
            }),
            Opcode::Call => Ok(Self::Call { target: RValue::decode(r0, r1, wide, rlisp, off) }),
            Opcode::Return => Ok(Self::Return),
            Opcode::MakeClosure => Ok(Self::MakeClosure {
                dst: required_exec(r0)?,
                code: required_exec(r1)?,
            }),
            Opcode::Eq | Opcode::Ne | Opcode::Gt | Opcode::Gte | Opcode::Lt | Opcode::Lte => {
                let op = match p.opcode {
                    Opcode::Eq => Comparison::Eq,
                    Opcode::Ne => Comparison::Ne,
                    Opcode::Gt => Comparison::Gt,
                    Opcode::Gte => Comparison::Gte,
                    Opcode::Lt => Comparison::Lt,
                    _ => Comparison::Lte,
                };
                let dst = required_exec(r0)?;
                let op1 = required_exec(r1)?;
                Ok(Self::Comparison { op, dst, op1, op2: RValue::decode(r2, r3, wide, rlisp, off) })
            },
            Opcode::Add | Opcode::Sub | Opcode::Mul | Opcode::Shl | Opcode::Shr => {
                let op = match p.opcode {
                    Opcode::Add => BinaryOp::Add,
                    Opcode::Sub => BinaryOp::Sub,
                    Opcode::Mul => BinaryOp::Mul,
                    Opcode::Shl => BinaryOp::Shl,
                    _ => BinaryOp::Shr,
                };
                let dst = required_exec(r0)?;
                let op1 = required_exec(r1)?;
                Ok(Self::Binary { op, dst, op1, op2: RValue::decode(r2, r3, wide, rlisp, off) })
            },
            Opcode::Car => Ok(Self::Car { dst: required_exec(r0)?, src: required_exec(r1)? }),
            Opcode::Cdr => Ok(Self::Cdr { dst: required_exec(r0)?, src: required_exec(r1)? }),
            Opcode::SetCar => Ok(Self::SetCar { dst: required_exec(r0)?, src: required_exec(r1)? }),
            Opcode::SetCdr => Ok(Self::SetCdr { dst: required_exec(r0)?, src: required_exec(r1)? }),
            Opcode::Cons => Ok(Self::Cons {
                dst: required_exec(r0)?,
                car: required_exec(r1)?,
                cdr: required_exec(r2)?,
            }),
            Opcode::Uncons => Ok(Self::Uncons {
                car: required_exec(r0)?,
                cdr: required_exec(r1)?,
                src: required_exec(r2)?,
            }),
            Opcode::IDiv => {
                let div = required_exec(r0)?;
                let rem = required_exec(r1)?;
                let op1 = required_exec(r2)?;
                Ok(Self::IDiv { div, rem, op1, op2: RValue::decode(r3, r4, wide, rlisp, off) })
            },
            Opcode::Pop => Ok(Self::Pop { dst: required_exec(r0)? }),
            Opcode::Push => Ok(Self::Push { src: required_exec(r0)? }),
            Opcode::IReturn => Ok(Self::IReturn),
            Opcode::AAdd | Opcode::ASub => {
                let op = match p.opcode {
                    Opcode::AAdd => MBinaryOp::Add,
                    _ => MBinaryOp::Sub,
                };
                let dst = required_exec(r0)?;
                let op1 = required_exec(r1)?;
                Ok(Instruction::MBinary { op, dst, op1, op2: RValue::decode(r2, r3, wide, rlisp, off) })
            },
            Opcode::GetPayload => Ok(Instruction::GetPayload {
                dst: required_exec(r0)?,
                src: required_exec(r1)?,
            }),
            Opcode::GetTag => Ok(Instruction::GetTag {
                dst: required_exec(r0)?,
                src: required_exec(r1)?,
            }),
            Opcode::Halt => Ok(Instruction::Halt),
            Opcode::Int => Ok(Instruction::Int(hi)),
            Opcode::SetPayload => Ok(Instruction::SetPayload {
                dst: required_exec(r0)?,
                src: required_exec(r1)?,
            }),
            Opcode::SetTag => Ok(Instruction::SetTag {
                dst: required_exec(r0)?,
                src: required_exec(r1)?,
            }),
            Opcode::Mov | Opcode::Mov8 => {
                let dst = LValue::decode(r0, r1, wide && p.dst_off, p.llisp, off);
                let src = RValue::decode(r2, r3, wide && !p.dst_off, rlisp, off);
                match p.opcode {
                    Opcode::Mov => Ok(Instruction::Mov { dst, src }),
                    _ => Ok(Instruction::Mov8 { dst, src }),
                }
            },
            Opcode::Typep => {
                let dst = required_exec(r0)?;
                let src = required_exec(r1)?;
                Ok(Instruction::Typep { dst, src, compare: off })
            },
            Opcode::MemCpy => {
                let dst = required_exec(r0)?;
                let src = required_exec(r1)?;
                Ok(Instruction::MemCpy { dst, src, count: RValue::decode(r2, r3, wide, rlisp, off) })
            },
            Opcode::DisableInterrupts => Ok(Instruction::DisableInterrupts),
            Opcode::EnableInterrupts => Ok(Instruction::EnableInterrupts),
            Opcode::Req => Ok(Instruction::Req {
                dst: required_exec(r0)?,
                prototype: required_exec(r1)?,
                size: required_exec(r2)?,
            }),
        }
    }
}

impl Instruction {
    /// Encodes the instruction as two words; refused for a move whose two operands
    /// both need the second word.
    pub fn encode(&self) -> (r: Result<(u64, u64), EncoderError>)
        ensures
            r == match encoding_of(*self) {
                Some(f) => Ok::<(u64, u64), EncoderError>(packed(f)),
                None => Err(EncoderError::BadInstruction),
            },
    {
        Ok(match self {
            Instruction::Halt | Instruction::Nop | Instruction::EnableInterrupts
            | Instruction::DisableInterrupts | Instruction::IReturn | Instruction::Return => {
                let opcode = match self {
                    Instruction::Halt => Opcode::Halt,
                    Instruction::Nop => Opcode::Nop,
                    Instruction::Return => Opcode::Return,
                    Instruction::IReturn => Opcode::IReturn,
                    Instruction::EnableInterrupts => Opcode::EnableInterrupts,
                    _ => Opcode::DisableInterrupts,
                };
                Instruction::pack_registers(opcode, None, None, None)
            },
            Instruction::Pop { dst } => Instruction::pack_registers(Opcode::Pop, Some(*dst), None, None),
            Instruction::Push { src } => Instruction::pack_registers(Opcode::Push, Some(*src), None, None),
            Instruction::Int(i) => {
                let imm = OperandFields { direct: None, indirect: None, wide: true, lisp: false, off: *i };
                Instruction::pack_fields(Opcode::Int, None, None, None, None, None, imm)
            },
            Instruction::Car { dst, src } | Instruction::Cdr { dst, src }
            | Instruction::GetPayload { dst, src } | Instruction::GetTag { dst, src }
            | Instruction::SetPayload { dst, src } | Instruction::SetTag { dst, src }
            | Instruction::SetCar { dst, src } | Instruction::SetCdr { dst, src } => {
                let opcode = match self {
                    Instruction::Car { .. } => Opcode::Car,
                    Instruction::Cdr { .. } => Opcode::Cdr,
                    Instruction::SetCar { .. } => Opcode::SetCar,
                    Instruction::SetCdr { .. } => Opcode::SetCdr,
                    Instruction::GetPayload { .. } => Opcode::GetPayload,
                    Instruction::SetPayload { .. } => Opcode::SetPayload,
                    Instruction::GetTag { .. } => Opcode::GetTag,
                    _ => Opcode::SetTag,
                };
                Instruction::pack_registers(opcode, Some(*dst), Some(*src), None)
            },
            Instruction::MakeClosure { dst, code } => Instruction::pack_registers(
                Opcode::MakeClosure,
                Some(*dst),
                Some(*code),
                None,
            ),
            Instruction::Binary { op, dst, op1, op2 } => {
                let opcode = match op {
                    BinaryOp::Add => Opcode::Add,
                    BinaryOp::Mul => Opcode::Mul,
                    BinaryOp::Shl => Opcode::Shl,
                    BinaryOp::Shr => Opcode::Shr,
                    BinaryOp::Sub => Opcode::Sub,
                };
                Instruction::pack_two_then_value(opcode, *dst, *op1, op2)
            },
            Instruction::MBinary { op, dst, op1, op2 } => {
                let opcode = match op {
                    MBinaryOp::Add => Opcode::AAdd,
                    MBinaryOp::Sub => Opcode::ASub,
                };
                Instruction::pack_two_then_value(opcode, *dst, *op1, op2)
            },
            Instruction::Comparison { op, dst, op1, op2 } => {
                let opcode = match op {
                    Comparison::Eq => Opcode::Eq,
                    Comparison::Ne => Opcode::Ne,
                    Comparison::Lt => Opcode::Lt,
                    Comparison::Lte => Opcode::Lte,
                    Comparison::Gt => Opcode::Gt,
                    Comparison::Gte => Opcode::Gte,
                };
                Instruction::pack_two_then_value(opcode, *dst, *op1, op2)
            },
            Instruction::MemCpy { dst, src, count } => Instruction::pack_two_then_value(
                Opcode::MemCpy,
                *dst,
                *src,
                count,
            ),
            Instruction::Call { target } => {
                let o = target.encode();
                Instruction::pack_fields(Opcode::Call, o.direct, o.indirect, None, None, None, o)
            },
            Instruction::Jump { condition, target } => {
                let o = target.encode();
                let (opcode, cond) = match condition {
                    Condition::Always => (Opcode::Jump, None),
                    Condition::False(r) => (Opcode::JumpIfNot, Some(*r)),
                    Condition::True(r) => (Opcode::JumpIf, Some(*r)),
                };
                Instruction::pack_fields(opcode, cond, o.direct, o.indirect, None, None, o)
            },
            Instruction::Cons { dst, car, cdr } => Instruction::pack_registers(
                Opcode::Cons,
                Some(*dst),
                Some(*car),
                Some(*cdr),
            ),
            Instruction::Uncons { car, cdr, src } => Instruction::pack_registers(
                Opcode::Uncons,
                Some(*car),
                Some(*cdr),
                Some(*src),
            ),
            Instruction::Req { dst, prototype, size } => Instruction::pack_registers(
                Opcode::Req,
                Some(*dst),
                Some(*prototype),
                Some(*size),
            ),
            Instruction::IDiv { div, rem, op1, op2 } => {
                let o = op2.encode();
                Instruction::pack_fields(
                    Opcode::IDiv,
                    Some(*div),
                    Some(*rem),
                    Some(*op1),
                    o.direct,
                    o.indirect,
                    o,
                )
            },
            Instruction::Mov { dst, src } | Instruction::Mov8 { dst, src } => {
                let opcode = match self {
                    Instruction::Mov { .. } => Opcode::Mov,
                    _ => Opcode::Mov8,
                };
                let d = dst.encode();
                let s = src.encode();
                if d.wide && s.wide {
                    return Err(EncoderError::BadInstruction);
                }
                Instruction::pack(
                    EncodedFields {
                        opcode: opcode.code(),
                        p0: d.direct,
                        p1: d.indirect,
                        p2: s.direct,
                        p3: s.indirect,
                        p4: None,
                        wide: d.wide || s.wide,
                        dst_off: d.wide,
                        rlisp: s.lisp,
                        llisp: d.lisp,
                        off: if d.wide {
                            d.off
                        } else {
                            s.off
                        },
                    },
                )
            },
            Instruction::Typep { dst, src, compare } => {
                let imm = OperandFields {
                    direct: None,
                    indirect: None,
                    wide: true,
                    lisp: false,
                    off: compare.0,
                };
                Instruction::pack_fields(Opcode::Typep, Some(*dst), Some(*src), None, None, None, imm)
            },
        })
    }
}

proof fn lemma_shape_bits(b0: bool, b1: bool, b2: bool, b3: bool, b4: bool, w: bool)
    by (bit_vector)
    ensures
        ({
            let s = (if b0 { 1u8 } else { 0u8 }) | (if b1 { 2u8 } else { 0u8 }) | (if b2 {
                4u8
            } else {
                0u8
            }) | (if b3 { 8u8 } else { 0u8 }) | (if b4 { 16u8 } else { 0u8 }) | (if w {
                32u8
            } else {
                0u8
            });
            &&& (s & 1u8 == 1u8) == b0
            &&& (s & 2u8 == 2u8) == b1
            &&& (s & 4u8 == 4u8) == b2
            &&& (s & 8u8 == 8u8) == b3
            &&& (s & 16u8 == 16u8) == b4
            &&& (s & 32u8 == 32u8) == w
        }),
{
}

proof fn lemma_tiebreak_bits(d: bool, rl: bool, ll: bool)
    by (bit_vector)
    ensures
        ({
            let t = (if d { 1u8 } else { 0u8 }) | (if rl { 4u8 } else { 0u8 }) | (if ll {
                8u8
            } else {
                0u8
            });
            &&& (t & 1u8 == 1u8) == d
            &&& (t & 4u8 == 4u8) == rl
            &&& (t & 8u8 == 8u8) == ll
        }),
{
}

/// An encoded value operand reads back as itself from its slots and flags, with any
/// second word where it uses none.
proof fn lemma_rvalue_round_trip(v: RValue, off: u64)
    requires
        rvalue_fields(v).wide ==> off == rvalue_fields(v).off,
    ensures
        ({
            let o = rvalue_fields(v);
            rvalue_of_fields(o.direct, o.indirect, o.wide, o.lisp, off) == v
        }),
{
}

/// An encoded written operand reads back as itself from its slots and flags, with
/// any second word where it uses none.
proof fn lemma_lvalue_round_trip(v: LValue, off: u64)
    requires
        lvalue_fields(v).wide ==> off == lvalue_fields(v).off,
    ensures
        ({
            let o = lvalue_fields(v);
            lvalue_of_fields(o.direct, o.indirect, o.wide, o.lisp, off) == v
        }),
{
}

/// Decoding what `encode` produced gives back the instruction.
pub proof fn lemma_encode_decode(i: Instruction)
    requires
        encoding_of(i) is Some,
    ensures
        decoded(packed(encoding_of(i).unwrap()).0, packed(encoding_of(i).unwrap()).1) == Ok::<
            Instruction,
            DecoderError,
        >(i),
{
    let f = encoding_of(i).unwrap();
    lemma_auto_spec_u64_to_from_le_bytes();
    assert(first_word_bytes(f).len() == 8);
    let b = spec_u64_to_le_bytes(packed(f).0);
    assert(b == first_word_bytes(f));
    lemma_shape_bits(f.p0 is Some, f.p1 is Some, f.p2 is Some, f.p3 is Some, f.p4 is Some, f.wide);
    lemma_tiebreak_bits(f.dst_off, f.rlisp, f.llisp);
    assert(b[0] == f.opcode);
    assert(slot(b, 0, P0) == f.p0);
    assert(slot(b, 1, P1) == f.p1);
    assert(slot(b, 2, P2) == f.p2);
    assert(slot(b, 3, P3) == f.p3);
    assert(slot(b, 4, P4) == f.p4);
    assert(has_flag(b[1], WIDE) == f.wide);
    assert(has_flag(b[7], DST_OFF) == f.dst_off);
    assert(has_flag(b[7], RVALUE_LISP) == f.rlisp);
    assert(has_flag(b[7], LVALUE_LISP) == f.llisp);
    match i {
        Instruction::Mov { dst, src } | Instruction::Mov8 { dst, src } => {
            lemma_lvalue_round_trip(dst, f.off);
            lemma_rvalue_round_trip(src, f.off);
        },
        Instruction::Binary { op2, .. } | Instruction::MBinary { op2, .. }
        | Instruction::Comparison { op2, .. } | Instruction::IDiv { op2, .. } => {
            lemma_rvalue_round_trip(op2, f.off);
        },
        Instruction::MemCpy { count, .. } => {
            lemma_rvalue_round_trip(count, f.off);
        },
        Instruction::Call { target } | Instruction::Jump { target, .. } => {
            lemma_rvalue_round_trip(target, f.off);
        },
        _ => {},
    }
}

} // verus!
