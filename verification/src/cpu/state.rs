//! What one instruction does to the processor and the bus, as contracts state it.
use vstd::prelude::*;

use crate::bus::{
    bus_read_byte, bus_read_word, bus_write_byte, bus_write_word, lemma_bus_word_roundtrip,
    lemma_bus_word_write_elsewhere, lemma_ram_word_kept, lemma_writes_keep_layout,
    offset_address, offset_address_back, ram_word, MappingState,
};
use crate::cpu::encoding::{decoded, off_or_zero};
use crate::cpu::Register;
use crate::cpu::{
    fixnum_value, tagged, BinaryOp, Comparison, Condition, Instruction, LValue, LispWord,
    MBinaryOp, RValue, RegAndOff, Trap,
};

verus! {

pub const NIL: u8 = 246;
pub const T: u8 = 247;
pub const CONS_FREE: u8 = 248;
pub const CONS_END: u8 = 249;
pub const GEN_FREE: u8 = 250;
pub const GEN_END: u8 = 251;
pub const FP: u8 = 252;
pub const SP: u8 = 253;
pub const PC: u8 = 254;
pub const VBR: u8 = 255;

/// The processor as contracts see it.
pub struct CpuState {
    pub regs: Seq<u64>,
    pub pending_interrupt: Option<u64>,
    pub halted: bool,
    pub interrupts_disabled: bool,
}

/// What the bus holds.
pub type BusState = Seq<MappingState>;

impl CpuState {
    pub open spec fn reg(self, r: u8) -> u64 {
        self.regs[r as int]
    }

    pub open spec fn with_reg(self, r: u8, v: u64) -> CpuState {
        CpuState {
            regs: self.regs.update(r as int, v),
            pending_interrupt: self.pending_interrupt,
            halted: self.halted,
            interrupts_disabled: self.interrupts_disabled,
        }
    }

    pub open spec fn with_halted(self, h: bool) -> CpuState {
        CpuState {
            regs: self.regs,
            pending_interrupt: self.pending_interrupt,
            halted: h,
            interrupts_disabled: self.interrupts_disabled,
        }
    }

    pub open spec fn with_interrupts_disabled(self, d: bool) -> CpuState {
        CpuState {
            regs: self.regs,
            pending_interrupt: self.pending_interrupt,
            halted: self.halted,
            interrupts_disabled: d,
        }
    }

    pub open spec fn with_pending(self, p: Option<u64>) -> CpuState {
        CpuState {
            regs: self.regs,
            pending_interrupt: p,
            halted: self.halted,
            interrupts_disabled: self.interrupts_disabled,
        }
    }
}

pub open spec fn wrapping_add(a: u64, b: u64) -> u64 {
    vstd::wrapping::u64_specs::wrapping_add(a, b)
}

/// The address of the instruction after the current one.
pub open spec fn next_pc(c: CpuState) -> u64 {
    offset_address(c.reg(PC), 16)
}

/// Pushes `v`: SP moves down a word, then `v` is written there.
pub open spec fn push(c: CpuState, m: BusState, v: u64) -> (CpuState, BusState) {
    let sp = offset_address_back(c.reg(SP), 8);
    (c.with_reg(SP, sp), bus_write_word(m, sp, v))
}

/// Pops a word: read at SP, then SP moves up a word.
pub open spec fn pop(c: CpuState, m: BusState) -> (CpuState, u64) {
    (c.with_reg(SP, offset_address(c.reg(SP), 8)), bus_read_word(m, c.reg(SP)))
}

/// A register's raw value plus the displacement.
pub open spec fn offset_raw(c: CpuState, ro: RegAndOff) -> u64 {
    wrapping_add(c.reg(ro.op1.0), off_or_zero(ro.off))
}

/// The fixnum word made from a register's payload plus the displacement's payload.
pub open spec fn offset_lisp(c: CpuState, ro: RegAndOff) -> u64 {
    let base = LispWord(c.reg(ro.op1.0)).spec_payload();
    let off = LispWord(
        match ro.off {
            Some(n) => n.0,
            None => 0,
        },
    ).spec_payload();
    tagged(0, ((base as i64 + off as i64) as i64) as u64)
}

/// The address an `LPointer` operand designates.
pub open spec fn lisp_target(c: CpuState, ro: RegAndOff) -> u64 {
    LispWord(offset_lisp(c, ro)).spec_payload()
}

pub open spec fn read_rval(c: CpuState, m: BusState, rv: RValue) -> u64 {
    match rv {
        RValue::Literal(l) => l.0,
        RValue::Register(r) => offset_raw(c, r),
        RValue::Absolute(a) => bus_read_word(m, a.0),
        RValue::Indirect(r) => bus_read_word(m, offset_raw(c, r)),
        RValue::LPointer(r) => bus_read_word(m, lisp_target(c, r)),
    }
}

pub open spec fn read_rval_byte(c: CpuState, m: BusState, rv: RValue) -> u8 {
    match rv {
        RValue::Literal(l) => l.0 as u8,
        RValue::Register(r) => offset_raw(c, r) as u8,
        RValue::Absolute(a) => bus_read_byte(m, a.0),
        RValue::Indirect(r) => bus_read_byte(m, offset_raw(c, r)),
        RValue::LPointer(r) => bus_read_byte(m, lisp_target(c, r)),
    }
}

/// T or NIL, as the registers that cache them hold them.
pub open spec fn machine_bool(c: CpuState, b: bool) -> u64 {
    if b {
        c.reg(T)
    } else {
        c.reg(NIL)
    }
}

/// The address of entry `n` of the interrupt table.
pub open spec fn vector_address(c: CpuState, n: u64) -> u64 {
    offset_address(c.reg(VBR), vstd::wrapping::i64_specs::wrapping_mul(n as i64, 8))
}

/// Enters interrupt `n`: pushes the interrupt flag, `n` and the return address,
/// disables interrupts and answers the handler's address.
pub open spec fn run_interrupt(c: CpuState, m: BusState, n: u64, return_to: u64) -> (
    CpuState,
    BusState,
    u64,
) {
    let c0 = c.with_pending(None);
    let (c1, m1) = push(c0, m, if c0.interrupts_disabled {
        1
    } else {
        0
    });
    let (c2, m2) = push(c1, m1, n);
    let (c3, m3) = push(c2, m2, return_to);
    let c4 = c3.with_interrupts_disabled(true);
    (c4, m3, bus_read_word(m3, vector_address(c4, n)))
}

pub open spec fn compare(op: Comparison, a: u64, b: u64) -> bool {
    match op {
        Comparison::Eq => a == b,
        Comparison::Ne => a != b,
        Comparison::Gt => a > b,
        Comparison::Gte => a >= b,
        Comparison::Lt => a < b,
        Comparison::Lte => a <= b,
    }
}

/// Fixnum arithmetic wraps around as two's complement; shift amounts are taken modulo 64.
pub open spec fn binary(op: BinaryOp, a: i64, b: i64) -> i64 {
    match op {
        BinaryOp::Add => vstd::wrapping::i64_specs::wrapping_add(a, b),
        BinaryOp::Sub => vstd::wrapping::i64_specs::wrapping_sub(a, b),
        BinaryOp::Mul => vstd::wrapping::i64_specs::wrapping_mul(a, b),
        BinaryOp::Shl => vstd::wrapping::i64_specs::wrapping_shl(a, b as u32),
        BinaryOp::Shr => vstd::wrapping::i64_specs::wrapping_shr(a, b as u32),
    }
}

/// Division rounding toward zero.
pub open spec fn trunc_div(a: int, b: int) -> int {
    let q = abs(a) / abs(b);
    if (a < 0) != (b < 0) {
        -q
    } else {
        q
    }
}

/// The remainder that goes with [`trunc_div`]; it has the sign of `a`.
pub open spec fn trunc_rem(a: int, b: int) -> int {
    let r = abs(a) % abs(b);
    if a < 0 {
        -r
    } else {
        r
    }
}

pub open spec fn abs(a: int) -> int {
    if a < 0 {
        -a
    } else {
        a
    }
}

pub open spec fn fixnum_word(v: i64) -> u64 {
    tagged(0, v as u64)
}

pub open spec fn write_lvalue_word(c: CpuState, m: BusState, dst: LValue, v: u64) -> (
    CpuState,
    BusState,
) {
    match dst {
        LValue::Absolute(a) => (c, bus_write_word(m, a.0, v)),
        LValue::Register(r) => (c.with_reg(r.0, v), m),
        LValue::Indirect(t) => (c, bus_write_word(m, offset_raw(c, t), v)),
        LValue::LPointer(t) => (c, bus_write_word(m, lisp_target(c, t), v)),
    }
}

pub open spec fn write_lvalue_byte(c: CpuState, m: BusState, dst: LValue, v: u8) -> (
    CpuState,
    BusState,
) {
    match dst {
        LValue::Absolute(a) => (c, bus_write_byte(m, a.0, v)),
        LValue::Register(r) => (c.with_reg(r.0, v as u64), m),
        LValue::Indirect(t) => (c, bus_write_byte(m, offset_raw(c, t), v)),
        LValue::LPointer(t) => (c, bus_write_byte(m, lisp_target(c, t), v)),
    }
}

/// The bus after copying bytes `0..n` from `src` to `dst`, one at a time, lowest first.
pub open spec fn copy_bytes(m: BusState, src: u64, dst: u64, n: nat) -> BusState
    decreases n,
{
    if n == 0 {
        m
    } else {
        let before = copy_bytes(m, src, dst, (n - 1) as nat);
        let i = (n - 1) as i64;
        bus_write_byte(
            before,
            offset_address(dst, i),
            bus_read_byte(before, offset_address(src, i)),
        )
    }
}

/// The bus after storing registers `0..n` (numbers taken modulo 256) at consecutive
/// words from `free`.
pub open spec fn store_registers(c: CpuState, m: BusState, free: u64, n: nat) -> BusState
    decreases n,
{
    if n == 0 {
        m
    } else {
        let i = (n - 1) as nat;
        bus_write_word(
            store_registers(c, m, free, i),
            wrapping_add(free, (i * 8) as u64),
            c.reg((i % 256) as u8),
        )
    }
}

/// The fixnum a word holds, or a type error.
pub open spec fn as_fixnum(w: u64) -> Result<i64, Trap> {
    if LispWord(w).spec_tag() == 0 {
        Ok(fixnum_value(w))
    } else {
        Err(Trap::TypeError)
    }
}

/// The cell address held by a cons word, or a type error.
pub open spec fn as_cons(w: u64) -> Result<u64, Trap> {
    if LispWord(w).spec_tag() == 3 {
        Ok(LispWord(w).spec_payload())
    } else {
        Err(Trap::TypeError)
    }
}

/// The instructions whose execution the machine cannot carry out: closures are not
/// implemented, and a division by zero has no result.
pub open spec fn execute_faults(c: CpuState, m: BusState, i: Instruction) -> bool {
    match i {
        Instruction::MakeClosure { .. } => true,
        Instruction::IDiv { op1, op2, .. } => match (as_fixnum(c.reg(op1.0)), as_fixnum(
            read_rval(c, m, op2),
        )) {
            (Ok(_), Ok(b)) => b == 0,
            _ => false,
        },
        _ => false,
    }
}

/// What executing `i` does: the new processor and bus, and either the address of the
/// next instruction or the trap raised. A trap leaves processor and bus as they were.
pub open spec fn execute(c: CpuState, m: BusState, i: Instruction) -> (
    CpuState,
    BusState,
    Result<u64, Trap>,
) {
    let next = next_pc(c);
    match i {
        Instruction::Halt => (c.with_halted(true), m, Ok(next)),
        Instruction::Nop => (c, m, Ok(next)),
        Instruction::Jump { condition, target } => {
            let nil = c.reg(NIL);
            let jump = match condition {
                Condition::Always => true,
                Condition::False(r) => c.reg(r.0) == nil,
                Condition::True(r) => c.reg(r.0) != nil,
            };
            (c, m, Ok(if jump {
                read_rval(c, m, target)
            } else {
                next
            }))
        },
        Instruction::Call { target } => {
            let prev_fp = c.reg(FP);
            let c0 = c.with_reg(FP, c.reg(SP));
            let (c1, m1) = push(c0, m, prev_fp);
            let (c2, m2) = push(c1, m1, next);
            (c2, m2, Ok(read_rval(c2, m2, target)))
        },
        Instruction::Return => {
            let fp = c.reg(FP);
            let return_address = bus_read_word(m, offset_address_back(fp, 16));
            let prev_fp = bus_read_word(m, offset_address_back(fp, 8));
            (c.with_reg(SP, fp).with_reg(FP, prev_fp), m, Ok(return_address))
        },
        Instruction::MakeClosure { .. } => (c, m, Err(Trap::InvalidInstruction)),
        Instruction::Comparison { op, dst, op1, op2 } => {
            let r = compare(op, c.reg(op1.0), read_rval(c, m, op2));
            (c.with_reg(dst.0, machine_bool(c, r)), m, Ok(next))
        },
        Instruction::Binary { op, dst, op1, op2 } => match as_fixnum(c.reg(op1.0)) {
            Err(t) => (c, m, Err(t)),
            Ok(a) => match as_fixnum(read_rval(c, m, op2)) {
                Err(t) => (c, m, Err(t)),
                Ok(b) => (c.with_reg(dst.0, fixnum_word(binary(op, a, b))), m, Ok(next)),
            },
        },
        Instruction::Int(n) => {
            let (c1, m1, target) = run_interrupt(c, m, n, next);
            (c1, m1, Ok(target))
        },
        Instruction::IReturn => {
            let (c1, return_address) = pop(c, m);
            let (c2, _interrupt) = pop(c1, m);
            let (c3, flag) = pop(c2, m);
            (c3.with_interrupts_disabled(flag != 0), m, Ok(return_address))
        },
        Instruction::Car { dst, src } => match as_cons(c.reg(src.0)) {
            Err(t) => (c, m, Err(t)),
            Ok(cell) => (c.with_reg(dst.0, bus_read_word(m, cell)), m, Ok(next)),
        },
        Instruction::Cdr { dst, src } => match as_cons(c.reg(src.0)) {
            Err(t) => (c, m, Err(t)),
            Ok(cell) => (
                c.with_reg(dst.0, bus_read_word(m, offset_address(cell, 8))),
                m,
                Ok(next),
            ),
        },
        Instruction::SetCar { dst, src } => match as_cons(c.reg(dst.0)) {
            Err(t) => (c, m, Err(t)),
            Ok(cell) => (c, bus_write_word(m, cell, c.reg(src.0)), Ok(next)),
        },
        Instruction::SetCdr { dst, src } => match as_cons(c.reg(dst.0)) {
            Err(t) => (c, m, Err(t)),
            Ok(cell) => (c, bus_write_word(m, offset_address(cell, 8), c.reg(src.0)), Ok(next)),
        },
        Instruction::Cons { dst, car, cdr } => {
            let free = c.reg(CONS_FREE);
            if free as int + 16 <= c.reg(CONS_END) {
                let m1 = bus_write_word(m, free, c.reg(car.0));
                let m2 = bus_write_word(m1, offset_address(free, 8), c.reg(cdr.0));
                let c1 = c.with_reg(dst.0, tagged(3, free));
                (c1.with_reg(CONS_FREE, (free + 16) as u64), m2, Ok(next))
            } else {
                let (c1, m1, target) = run_interrupt(c, m, 3, c.reg(PC));
                (c1, m1, Ok(target))
            }
        },
        Instruction::Req { dst, prototype, size } => match as_fixnum(c.reg(size.0)) {
            Err(t) => (c, m, Err(t)),
            Ok(words) => {
                let sizew = words as u64;
                let free = c.reg(GEN_FREE);
                if free as int + sizew as int * 8 <= c.reg(GEN_END) {
                    let m1 = store_registers(c, m, free, sizew as nat);
                    let c1 = c.with_reg(
                        dst.0,
                        tagged(LispWord(c.reg(prototype.0)).spec_tag(), free),
                    );
                    (c1.with_reg(GEN_FREE, (free + sizew * 8) as u64), m1, Ok(next))
                } else {
                    let (c1, m1, target) = run_interrupt(c, m, 3, c.reg(PC));
                    (c1, m1, Ok(target))
                }
            },
        },
        Instruction::Uncons { car, cdr, src } => match as_cons(c.reg(src.0)) {
            Err(t) => (c, m, Err(t)),
            Ok(cell) => {
                let c1 = c.with_reg(car.0, bus_read_word(m, cell));
                (
                    c1.with_reg(cdr.0, bus_read_word(m, offset_address(cell, 8))),
                    m,
                    Ok(next),
                )
            },
        },
        Instruction::IDiv { div, rem, op1, op2 } => match as_fixnum(c.reg(op1.0)) {
            Err(t) => (c, m, Err(t)),
            Ok(a) => match as_fixnum(read_rval(c, m, op2)) {
                Err(t) => (c, m, Err(t)),
                Ok(b) => {
                    let c1 = c.with_reg(div.0, fixnum_word(trunc_div(a as int, b as int) as i64));
                    (
                        c1.with_reg(rem.0, fixnum_word(trunc_rem(a as int, b as int) as i64)),
                        m,
                        Ok(next),
                    )
                },
            },
        },
        Instruction::Pop { dst } => {
            let (c1, v) = pop(c, m);
            (c1.with_reg(dst.0, v), m, Ok(next))
        },
        Instruction::Push { src } => {
            let (c1, m1) = push(c, m, c.reg(src.0));
            (c1, m1, Ok(next))
        },
        Instruction::MBinary { op, dst, op1, op2 } => {
            let a = c.reg(op1.0);
            let b = read_rval(c, m, op2);
            let r = match op {
                MBinaryOp::Add => wrapping_add(a, b),
                MBinaryOp::Sub => vstd::wrapping::u64_specs::wrapping_sub(a, b),
            };
            (c.with_reg(dst.0, r), m, Ok(next))
        },
        Instruction::GetPayload { dst, src } => (
            c.with_reg(dst.0, LispWord(c.reg(src.0)).spec_payload()),
            m,
            Ok(next),
        ),
        Instruction::GetTag { dst, src } => (
            c.with_reg(dst.0, LispWord(c.reg(src.0)).spec_tag() as u64),
            m,
            Ok(next),
        ),
        Instruction::SetPayload { dst, src } => (
            c.with_reg(dst.0, tagged(LispWord(c.reg(dst.0)).spec_tag(), c.reg(src.0))),
            m,
            Ok(next),
        ),
        Instruction::SetTag { dst, src } => (
            c.with_reg(dst.0, tagged(c.reg(src.0) as u8, LispWord(c.reg(dst.0)).spec_payload())),
            m,
            Ok(next),
        ),
        Instruction::Mov8 { dst, src } => {
            let (c1, m1) = write_lvalue_byte(c, m, dst, read_rval_byte(c, m, src));
            (c1, m1, Ok(next))
        },
        Instruction::Mov { dst, src } => {
            let (c1, m1) = write_lvalue_word(c, m, dst, read_rval(c, m, src));
            (c1, m1, Ok(next))
        },
        Instruction::MemCpy { dst, src, count } => match as_fixnum(read_rval(c, m, count)) {
            Err(t) => (c, m, Err(t)),
            Ok(n) => (c, copy_bytes(m, c.reg(src.0), c.reg(dst.0), if (n > 0) {
                n as nat
            } else {
                0
            }), Ok(next)),
        },
        Instruction::Typep { dst, src, compare } => (
            c.with_reg(
                dst.0,
                machine_bool(c, LispWord(c.reg(src.0)).spec_tag() as u64 == compare.0),
            ),
            m,
            Ok(next),
        ),
        Instruction::DisableInterrupts => (c.with_interrupts_disabled(true), m, Ok(next)),
        Instruction::EnableInterrupts => (c.with_interrupts_disabled(false), m, Ok(next)),
    }
}

/// The two words at PC.
pub open spec fn fetched(c: CpuState, m: BusState) -> (u64, u64) {
    (bus_read_word(m, c.reg(PC)), bus_read_word(m, offset_address(c.reg(PC), 8)))
}

/// The processor after a pending interrupt, if any, has been entered.
pub open spec fn after_pending(c: CpuState, m: BusState) -> (CpuState, BusState) {
    match c.pending_interrupt {
        Some(n) => {
            let (c1, m1, target) = run_interrupt(c.with_halted(false), m, n, c.reg(PC));
            (c1.with_reg(PC, target), m1)
        },
        None => (c, m),
    }
}

/// Whether the instruction a step would execute is one the machine cannot carry out.
pub open spec fn step_faults(c: CpuState, m: BusState) -> bool {
    let (c1, m1) = after_pending(c, m);
    if c.pending_interrupt is None && c.halted {
        false
    } else {
        match decoded(fetched(c1, m1).0, fetched(c1, m1).1) {
            Ok(i) => execute_faults(c1, m1, i),
            Err(_) => false,
        }
    }
}


/// Car after SetCar on the same cons reads back the stored value, whatever happened
/// to the other registers in between; the cell's second half keeps its value.
pub proof fn lemma_car_after_set_car(
    c: CpuState,
    m: BusState,
    x: Register,
    v: Register,
    d: Register,
    c2: CpuState,
)
    requires
        as_cons(c.reg(x.0)) matches Ok(cell) && ram_word(m, cell),
        c2.reg(x.0) == c.reg(x.0),
    ensures
        execute(c, m, Instruction::SetCar { dst: x, src: v }).0 == c,
        execute(c, m, Instruction::SetCar { dst: x, src: v }).2 == Ok::<u64, Trap>(next_pc(c)),
        ({
            let m1 = execute(c, m, Instruction::SetCar { dst: x, src: v }).1;
            &&& execute(c2, m1, Instruction::Car { dst: d, src: x }) == (
                c2.with_reg(d.0, c.reg(v.0)),
                m1,
                Ok::<u64, Trap>(next_pc(c2)),
            )
            &&& as_cons(c.reg(x.0))->Ok_0 + 16 <= u64::MAX ==> bus_read_word(
                m1,
                offset_address(as_cons(c.reg(x.0))->Ok_0, 8),
            ) == bus_read_word(m, offset_address(as_cons(c.reg(x.0))->Ok_0, 8))
        }),
{
    let cell = as_cons(c.reg(x.0))->Ok_0;
    lemma_bus_word_roundtrip(m, cell, c.reg(v.0));
    if cell + 16 <= u64::MAX {
        lemma_bus_word_write_elsewhere(m, offset_address(cell, 8), cell, c.reg(v.0));
    }
}

/// Cdr after SetCdr on the same cons reads back the stored value, whatever happened
/// to the other registers in between; the cell's first half keeps its value.
pub proof fn lemma_cdr_after_set_cdr(
    c: CpuState,
    m: BusState,
    x: Register,
    v: Register,
    d: Register,
    c2: CpuState,
)
    requires
        as_cons(c.reg(x.0)) matches Ok(cell) && ram_word(m, offset_address(cell, 8)),
        c2.reg(x.0) == c.reg(x.0),
    ensures
        execute(c, m, Instruction::SetCdr { dst: x, src: v }).0 == c,
        execute(c, m, Instruction::SetCdr { dst: x, src: v }).2 == Ok::<u64, Trap>(next_pc(c)),
        ({
            let m1 = execute(c, m, Instruction::SetCdr { dst: x, src: v }).1;
            &&& execute(c2, m1, Instruction::Cdr { dst: d, src: x }) == (
                c2.with_reg(d.0, c.reg(v.0)),
                m1,
                Ok::<u64, Trap>(next_pc(c2)),
            )
            &&& as_cons(c.reg(x.0))->Ok_0 + 16 <= u64::MAX ==> bus_read_word(
                m1,
                as_cons(c.reg(x.0))->Ok_0,
            ) == bus_read_word(m, as_cons(c.reg(x.0))->Ok_0)
        }),
{
    let cell = as_cons(c.reg(x.0))->Ok_0;
    lemma_bus_word_roundtrip(m, offset_address(cell, 8), c.reg(v.0));
    if cell + 16 <= u64::MAX {
        lemma_bus_word_write_elsewhere(m, cell, offset_address(cell, 8), c.reg(v.0));
    }
}

/// IReturn undoes Int: after Int(n) pushes its three words below SP (all in memory),
/// a handler that leaves SP and those words as it found them returns, through IReturn,
/// to the instruction after the Int, with SP and the interrupt flag as they were.
/// Addresses wrap around, as SP does.
pub proof fn lemma_interrupt_return(c: CpuState, m: BusState, n: u64, c3: CpuState, m3: BusState)
    requires
        c.regs.len() == 256,
        c3.regs.len() == 256,
        ram_word(m, offset_address_back(c.reg(SP), 8)),
        ram_word(m, offset_address_back(c.reg(SP), 16)),
        ram_word(m, offset_address_back(c.reg(SP), 24)),
        c3.reg(SP) == offset_address_back(c.reg(SP), 24),
        bus_read_word(m3, offset_address_back(c.reg(SP), 24)) == bus_read_word(
            execute(c, m, Instruction::Int(n)).1,
            offset_address_back(c.reg(SP), 24),
        ),
        bus_read_word(m3, offset_address_back(c.reg(SP), 16)) == bus_read_word(
            execute(c, m, Instruction::Int(n)).1,
            offset_address_back(c.reg(SP), 16),
        ),
        bus_read_word(m3, offset_address_back(c.reg(SP), 8)) == bus_read_word(
            execute(c, m, Instruction::Int(n)).1,
            offset_address_back(c.reg(SP), 8),
        ),
    ensures
        ({
            let (c1, m1, r) = execute(c, m, Instruction::Int(n));
            &&& c1.reg(SP) == offset_address_back(c.reg(SP), 24)
            &&& c1.interrupts_disabled
            &&& r == Ok::<u64, Trap>(bus_read_word(m1, vector_address(c1, n)))
            &&& bus_read_word(m1, offset_address_back(c.reg(SP), 24)) == next_pc(c)
            &&& bus_read_word(m1, offset_address_back(c.reg(SP), 16)) == n
        }),
        execute(c3, m3, Instruction::IReturn) == (
            c3.with_reg(SP, c.reg(SP)).with_interrupts_disabled(c.interrupts_disabled),
            m3,
            Ok::<u64, Trap>(next_pc(c)),
        ),
{
    let sp = c.reg(SP);
    let a8 = offset_address_back(sp, 8);
    let a16 = offset_address_back(sp, 16);
    let a24 = offset_address_back(sp, 24);
    assert(offset_address_back(a8, 8) == a16);
    assert(offset_address_back(a16, 8) == a24);
    assert(offset_address(a24, 8) == a16);
    assert(offset_address(a16, 8) == a8);
    assert(offset_address(a8, 8) == sp);
    let flag: u64 = if c.interrupts_disabled { 1 } else { 0 };
    let m1 = bus_write_word(m, a8, flag);
    let m2 = bus_write_word(m1, a16, n);
    let m3w = bus_write_word(m2, a24, next_pc(c));
    lemma_writes_keep_layout(m, a8, flag, 0);
    lemma_writes_keep_layout(m1, a16, n, 0);
    lemma_ram_word_kept(m, m1, a16);
    lemma_ram_word_kept(m, m1, a24);
    lemma_ram_word_kept(m1, m2, a24);
    lemma_bus_word_roundtrip(m, a8, flag);
    lemma_bus_word_write_elsewhere(m1, a8, a16, n);
    lemma_bus_word_write_elsewhere(m2, a8, a24, next_pc(c));
    lemma_bus_word_roundtrip(m1, a16, n);
    lemma_bus_word_write_elsewhere(m2, a16, a24, next_pc(c));
    lemma_bus_word_roundtrip(m2, a24, next_pc(c));
    assert(execute(c, m, Instruction::Int(n)).1 == m3w);
    let (ca, ret) = pop(c3, m3);
    let (cb, num) = pop(ca, m3);
    let (cc, f) = pop(cb, m3);
    assert(cc.regs =~= c3.with_reg(SP, sp).regs);
}

/// Return undoes Call: after Call pushes the caller's FP and the return address below
/// SP (both in memory) and makes SP the new FP, a callee that leaves FP and those two
/// words as it found them returns to the instruction after the Call, with SP and FP
/// as they were before it. Addresses wrap around, as SP does.
pub proof fn lemma_call_return(c: CpuState, m: BusState, target: RValue, c3: CpuState, m3: BusState)
    requires
        c.regs.len() == 256,
        c3.regs.len() == 256,
        ram_word(m, offset_address_back(c.reg(SP), 8)),
        ram_word(m, offset_address_back(c.reg(SP), 16)),
        c3.reg(FP) == c.reg(SP),
        bus_read_word(m3, offset_address_back(c.reg(SP), 16)) == bus_read_word(
            execute(c, m, Instruction::Call { target }).1,
            offset_address_back(c.reg(SP), 16),
        ),
        bus_read_word(m3, offset_address_back(c.reg(SP), 8)) == bus_read_word(
            execute(c, m, Instruction::Call { target }).1,
            offset_address_back(c.reg(SP), 8),
        ),
    ensures
        ({
            let (c1, m1, r) = execute(c, m, Instruction::Call { target });
            &&& c1.reg(FP) == c.reg(SP)
            &&& c1.reg(SP) == offset_address_back(c.reg(SP), 16)
            &&& r == Ok::<u64, Trap>(read_rval(c1, m1, target))
            &&& bus_read_word(m1, offset_address_back(c.reg(SP), 8)) == c.reg(FP)
            &&& bus_read_word(m1, offset_address_back(c.reg(SP), 16)) == next_pc(c)
        }),
        execute(c3, m3, Instruction::Return) == (
            c3.with_reg(SP, c.reg(SP)).with_reg(FP, c.reg(FP)),
            m3,
            Ok::<u64, Trap>(next_pc(c)),
        ),
{
    let sp = c.reg(SP);
    let a8 = offset_address_back(sp, 8);
    let a16 = offset_address_back(sp, 16);
    assert(offset_address_back(a8, 8) == a16);
    let m1 = bus_write_word(m, a8, c.reg(FP));
    lemma_writes_keep_layout(m, a8, c.reg(FP), 0);
    lemma_ram_word_kept(m, m1, a16);
    lemma_bus_word_roundtrip(m, a8, c.reg(FP));
    lemma_bus_word_write_elsewhere(m1, a8, a16, next_pc(c));
    lemma_bus_word_roundtrip(m1, a16, next_pc(c));
}

/// Subtracting a fixnum and adding it back gives the first word again.
proof fn lemma_fixnum_sub_add_bits(w1: u64, b: i64)
    by (bit_vector)
    requires
        w1 & 0xffu64 == 0,
    ensures
        ({
            let x = vstd::wrapping::i64_specs::wrapping_sub(fixnum_value(w1), b);
            let w = tagged(0, x as u64);
            &&& w & 0xffu64 == 0
            &&& tagged(0, vstd::wrapping::i64_specs::wrapping_add(fixnum_value(w), b) as u64) == w1
        }),
{
}

/// Adding a fixnum and subtracting it again gives the first word again.
proof fn lemma_fixnum_add_sub_bits(w1: u64, b: i64)
    by (bit_vector)
    requires
        w1 & 0xffu64 == 0,
    ensures
        ({
            let x = vstd::wrapping::i64_specs::wrapping_add(fixnum_value(w1), b);
            let w = tagged(0, x as u64);
            &&& w & 0xffu64 == 0
            &&& tagged(0, vstd::wrapping::i64_specs::wrapping_sub(fixnum_value(w), b) as u64) == w1
        }),
{
}

/// A fixnum word has tag 0.
proof fn lemma_fixnum_word_tag(p: u64)
    by (bit_vector)
    ensures
        ((tagged(0, p) & 0xffu64) as u8) == 0u8,
{
}

/// A wrapped product is the product truncated to the word.
proof fn lemma_fixnum_mul_bits(a: i64, b: i64)
    by (bit_vector)
    ensures
        vstd::wrapping::i64_specs::wrapping_mul(a, b) == (a * b) as i64,
        tagged(0, vstd::wrapping::i64_specs::wrapping_mul(a, b) as u64) & 0xffu64 == 0,
{
}

/// Fixnum arithmetic on a register and a value operand that both hold fixnums: the
/// result is a fixnum in `dst`, and nothing else changes. ADD leaves a fixnum from
/// which subtracting the second operand gives back the first operand's word; SUB
/// leaves one to which adding the second operand gives it back; MUL leaves the
/// product of the two values, truncated to the word.
pub proof fn lemma_fixnum_arithmetic(
    c: CpuState,
    m: BusState,
    op: BinaryOp,
    dst: Register,
    op1: Register,
    op2: RValue,
)
    requires
        c.regs.len() == 256,
        LispWord(c.reg(op1.0)).spec_tag() == 0,
        LispWord(read_rval(c, m, op2)).spec_tag() == 0,
    ensures
        ({
            let a = fixnum_value(c.reg(op1.0));
            let b = fixnum_value(read_rval(c, m, op2));
            let (c1, m1, r) = execute(c, m, Instruction::Binary { op, dst, op1, op2 });
            let w = c1.reg(dst.0);
            &&& r == Ok::<u64, Trap>(next_pc(c))
            &&& m1 == m
            &&& c1 == c.with_reg(dst.0, w)
            &&& LispWord(w).spec_tag() == 0
            &&& op is Add ==> tagged(
                0,
                vstd::wrapping::i64_specs::wrapping_sub(fixnum_value(w), b) as u64,
            ) == c.reg(op1.0)
            &&& op is Sub ==> tagged(
                0,
                vstd::wrapping::i64_specs::wrapping_add(fixnum_value(w), b) as u64,
            ) == c.reg(op1.0)
            &&& op is Mul ==> w == tagged(0, ((a * b) as i64) as u64)
        }),
{
    let w1 = c.reg(op1.0);
    let w2 = read_rval(c, m, op2);
    let b = fixnum_value(w2);
    assert(w1 & 0xffu64 == 0 && w2 & 0xffu64 == 0) by {
        assert(((w1 & 0xffu64) as u8 == 0u8) ==> w1 & 0xffu64 == 0) by (bit_vector);
        assert(((w2 & 0xffu64) as u8 == 0u8) ==> w2 & 0xffu64 == 0) by (bit_vector);
    }
    lemma_fixnum_sub_add_bits(w1, b);
    lemma_fixnum_add_sub_bits(w1, b);
    lemma_fixnum_mul_bits(fixnum_value(w1), b);
    lemma_fixnum_word_tag(binary(op, fixnum_value(w1), b) as u64);
    let (c1, m1, r) = execute(c, m, Instruction::Binary { op, dst, op1, op2 });
    assert(c1.regs =~= c.with_reg(dst.0, c1.reg(dst.0)).regs);
}

/// A comparison leaves T in `dst` when its relation holds between the register and
/// the value operand, compared as unsigned words, and NIL when it does not; nothing
/// else changes, and execution goes on with the next instruction.
pub proof fn lemma_comparison_result(
    c: CpuState,
    m: BusState,
    op: Comparison,
    dst: Register,
    op1: Register,
    op2: RValue,
)
    ensures
        ({
            let a = c.reg(op1.0);
            let b = read_rval(c, m, op2);
            let holds = match op {
                Comparison::Eq => a == b,
                Comparison::Ne => a != b,
                Comparison::Gt => a > b,
                Comparison::Gte => a >= b,
                Comparison::Lt => a < b,
                Comparison::Lte => a <= b,
            };
            execute(c, m, Instruction::Comparison { op, dst, op1, op2 }) == (
                c.with_reg(dst.0, if holds { c.reg(T) } else { c.reg(NIL) }),
                m,
                Ok::<u64, Trap>(next_pc(c)),
            )
        }),
{
}

/// Pop after Push gives back the pushed register's value: Push writes it just below SP
/// (in memory) and moves SP down a word, and a Pop from that SP reads it and moves SP
/// back. Addresses wrap around, as SP does.
pub proof fn lemma_pop_after_push(c: CpuState, m: BusState, src: Register, dst: Register, c2: CpuState)
    requires
        c.regs.len() == 256,
        c2.regs.len() == 256,
        ram_word(m, offset_address_back(c.reg(SP), 8)),
        c2.reg(SP) == offset_address_back(c.reg(SP), 8),
    ensures
        ({
            let (c1, m1, r) = execute(c, m, Instruction::Push { src });
            &&& r == Ok::<u64, Trap>(next_pc(c))
            &&& c1 == c.with_reg(SP, offset_address_back(c.reg(SP), 8))
            &&& execute(c2, m1, Instruction::Pop { dst }) == (
                c2.with_reg(SP, c.reg(SP)).with_reg(dst.0, c.reg(src.0)),
                m1,
                Ok::<u64, Trap>(next_pc(c2)),
            )
        }),
{
    let sp = c.reg(SP);
    assert(offset_address(offset_address_back(sp, 8), 8) == sp);
    lemma_bus_word_roundtrip(m, offset_address_back(sp, 8), c.reg(src.0));
}

/// A word's fixnum lies within 56 signed bits, and a value within 56 signed bits is the
/// fixnum of its fixnum word.
proof fn lemma_fixnum_exact(w: u64, v: i64)
    by (bit_vector)
    ensures
        -0x80_0000_0000_0000i64 <= fixnum_value(w) < 0x80_0000_0000_0000i64,
        -0x80_0000_0000_0000i64 <= v < 0x80_0000_0000_0000i64 ==> fixnum_value(tagged(0, v as u64)) == v,
{
}

/// Truncating division: quotient times divisor plus remainder is the dividend; the
/// remainder is smaller than the divisor and has the dividend's sign; the quotient is
/// no larger than the dividend.
proof fn lemma_trunc_div_rem(a: int, b: int)
    requires
        b != 0,
    ensures
        trunc_div(a, b) * b + trunc_rem(a, b) == a,
        abs(trunc_rem(a, b)) < abs(b),
        trunc_rem(a, b) == 0 || (trunc_rem(a, b) < 0) == (a < 0),
        abs(trunc_div(a, b)) <= abs(a),
{
    let x = abs(a);
    let y = abs(b);
    assert(x == (x / y) * y + x % y && 0 <= x % y < y && 0 <= x / y <= x) by (nonlinear_arith)
        requires
            x >= 0,
            y > 0,
    ;
    assert((-(x / y)) * (-y) == (x / y) * y) by (nonlinear_arith);
    assert((-(x / y)) * y == -((x / y) * y)) by (nonlinear_arith);
    assert((x / y) * (-y) == -((x / y) * y)) by (nonlinear_arith);
}

/// Fixnum division of a register by a value operand, both fixnums with a nonzero
/// divisor, into two different registers: the quotient times the divisor plus the
/// remainder is the dividend, the remainder is smaller than the divisor and has the
/// dividend's sign. (The one quotient that does not fit 56 bits, the least fixnum
/// divided by -1, is left out.)
pub proof fn lemma_fixnum_division(
    c: CpuState,
    m: BusState,
    div: Register,
    rem: Register,
    op1: Register,
    op2: RValue,
)
    requires
        c.regs.len() == 256,
        div != rem,
        LispWord(c.reg(op1.0)).spec_tag() == 0,
        LispWord(read_rval(c, m, op2)).spec_tag() == 0,
        fixnum_value(read_rval(c, m, op2)) != 0,
        !(fixnum_value(c.reg(op1.0)) == -0x80_0000_0000_0000 && fixnum_value(read_rval(c, m, op2)) == -1),
    ensures
        ({
            let a = fixnum_value(c.reg(op1.0)) as int;
            let b = fixnum_value(read_rval(c, m, op2)) as int;
            let (c1, m1, r) = execute(c, m, Instruction::IDiv { div, rem, op1, op2 });
            let q = fixnum_value(c1.reg(div.0)) as int;
            let rr = fixnum_value(c1.reg(rem.0)) as int;
            &&& r == Ok::<u64, Trap>(next_pc(c))
            &&& m1 == m
            &&& q * b + rr == a
            &&& abs(rr) < abs(b)
            &&& rr == 0 || (rr < 0) == (a < 0)
        }),
{
    let a = fixnum_value(c.reg(op1.0));
    let b = fixnum_value(read_rval(c, m, op2));
    lemma_fixnum_exact(c.reg(op1.0), 0);
    lemma_fixnum_exact(read_rval(c, m, op2), 0);
    lemma_trunc_div_rem(a as int, b as int);
    let q = trunc_div(a as int, b as int);
    let rr = trunc_rem(a as int, b as int);
    if a == -0x80_0000_0000_0000 && b != 1 {
        assert(abs(b as int) >= 2);
        assert(abs(q) < 0x80_0000_0000_0000) by (nonlinear_arith)
            requires
                q * b + rr == a,
                abs(rr) < abs(b as int),
                abs(b as int) >= 2,
                a == -0x80_0000_0000_0000,
                rr == 0 || (rr < 0) == (a < 0),
        {
            assert(abs(q * b) == abs(q) * abs(b as int));
        }
    }
    lemma_fixnum_exact(0, q as i64);
    lemma_fixnum_exact(0, rr as i64);
}

/// A jump goes to its target when its condition holds (always; the register is not
/// NIL; the register is NIL) and to the next instruction when it does not, changing
/// nothing else.
pub proof fn lemma_jump_target(c: CpuState, m: BusState, condition: Condition, target: RValue)
    ensures
        ({
            let taken = match condition {
                Condition::Always => true,
                Condition::True(r) => c.reg(r.0) != c.reg(NIL),
                Condition::False(r) => c.reg(r.0) == c.reg(NIL),
            };
            execute(c, m, Instruction::Jump { condition, target }) == (
                c,
                m,
                Ok::<u64, Trap>(if taken { read_rval(c, m, target) } else { next_pc(c) }),
            )
        }),
{
}

/// CAR and CDR of a fresh cons give back what CONS was built from: with room in the
/// cons area (below 2^56, in memory), CONS puts a cons word in `dst`, moves the free
/// pointer on by one cell, and CAR and CDR of that word read the two registers' values
/// as they were.
pub proof fn lemma_car_cdr_of_cons(
    c: CpuState,
    m: BusState,
    dst: Register,
    car: Register,
    cdr: Register,
    c2: CpuState,
    d: Register,
)
    requires
        c.regs.len() == 256,
        dst.0 != CONS_FREE,
        c.reg(CONS_FREE) + 16 <= c.reg(CONS_END),
        c.reg(CONS_FREE) < 0x100_0000_0000_0000,
        ram_word(m, c.reg(CONS_FREE)),
        ram_word(m, (c.reg(CONS_FREE) + 8) as u64),
        c2.reg(dst.0) == execute(c, m, Instruction::Cons { dst, car, cdr }).0.reg(dst.0),
    ensures
        ({
            let free = c.reg(CONS_FREE);
            let (c1, m1, r) = execute(c, m, Instruction::Cons { dst, car, cdr });
            &&& r == Ok::<u64, Trap>(next_pc(c))
            &&& as_cons(c1.reg(dst.0)) == Ok::<u64, Trap>(free)
            &&& c1.reg(CONS_FREE) == free + 16
            &&& execute(c2, m1, Instruction::Car { dst: d, src: dst }) == (
                c2.with_reg(d.0, c.reg(car.0)),
                m1,
                Ok::<u64, Trap>(next_pc(c2)),
            )
            &&& execute(c2, m1, Instruction::Cdr { dst: d, src: dst }) == (
                c2.with_reg(d.0, c.reg(cdr.0)),
                m1,
                Ok::<u64, Trap>(next_pc(c2)),
            )
        }),
{
    let free = c.reg(CONS_FREE);
    let f8 = offset_address(free, 8);
    assert(f8 == (free + 8) as u64);
    crate::cpu::lemma_tag_of_tagged(3, free);
    assert(crate::cpu::low56(free) == free) by (bit_vector)
        requires
            free < 0x100_0000_0000_0000u64,
    ;
    let m1 = bus_write_word(m, free, c.reg(car.0));
    lemma_writes_keep_layout(m, free, c.reg(car.0), 0);
    lemma_ram_word_kept(m, m1, f8);
    lemma_bus_word_roundtrip(m, free, c.reg(car.0));
    lemma_bus_word_write_elsewhere(m1, free, f8, c.reg(cdr.0));
    lemma_bus_word_roundtrip(m1, f8, c.reg(cdr.0));
}

/// Address arithmetic on raw words wraps around: AADD leaves in `dst` a word from which
/// subtracting the value operand gives back the register's word, and ASUB one to which
/// adding it gives the register's word back; nothing else changes.
pub proof fn lemma_address_arithmetic(
    c: CpuState,
    m: BusState,
    op: MBinaryOp,
    dst: Register,
    op1: Register,
    op2: RValue,
)
    requires
        c.regs.len() == 256,
    ensures
        ({
            let a = c.reg(op1.0);
            let b = read_rval(c, m, op2);
            let (c1, m1, r) = execute(c, m, Instruction::MBinary { op, dst, op1, op2 });
            let w = c1.reg(dst.0);
            &&& r == Ok::<u64, Trap>(next_pc(c))
            &&& m1 == m
            &&& c1 == c.with_reg(dst.0, w)
            &&& op is Add ==> (w as int - b as int - a as int) % 0x1_0000_0000_0000_0000 == 0
                && vstd::wrapping::u64_specs::wrapping_sub(w, b) == a
            &&& op is Sub ==> (w as int + b as int - a as int) % 0x1_0000_0000_0000_0000 == 0
                && wrapping_add(w, b) == a
        }),
{
    let (c1, m1, r) = execute(c, m, Instruction::MBinary { op, dst, op1, op2 });
    assert(c1.regs =~= c.with_reg(dst.0, c1.reg(dst.0)).regs);
}

/// A word is its payload above its tag byte.
proof fn lemma_word_parts(w: u64, v: u64)
    by (bit_vector)
    ensures
        (w >> 8u64) * 256 + (((w & 0xffu64) as u8) as u64) == w,
        (w >> 8u64) & 0x00ff_ffff_ffff_ffffu64 == w >> 8u64,
        ((v as u8) as u64) == v % 256,
        v & 0x00ff_ffff_ffff_ffffu64 == v % 0x100_0000_0000_0000,
{
}

/// What the four tag and payload instructions do, one by one.
proof fn lemma_execute_tag_ops(c: CpuState, m: BusState, x: Register, v: Register, d: Register)
    ensures
        execute(c, m, Instruction::GetTag { dst: d, src: x }).0 == c.with_reg(
            d.0,
            LispWord(c.reg(x.0)).spec_tag() as u64,
        ),
        execute(c, m, Instruction::GetPayload { dst: d, src: x }).0 == c.with_reg(
            d.0,
            LispWord(c.reg(x.0)).spec_payload(),
        ),
        execute(c, m, Instruction::SetTag { dst: x, src: v }).0 == c.with_reg(
            x.0,
            tagged(c.reg(v.0) as u8, LispWord(c.reg(x.0)).spec_payload()),
        ),
        execute(c, m, Instruction::SetPayload { dst: x, src: v }).0 == c.with_reg(
            x.0,
            tagged(LispWord(c.reg(x.0)).spec_tag(), c.reg(v.0)),
        ),
{
}

/// Tags and payloads: GETTAG and GETPAYLOAD take a word apart (payload times 256 plus
/// tag is the word, the tag below 256); SETTAG changes only the tag, to the low byte of
/// the source, and SETPAYLOAD only the payload, to the low 56 bits of the source.
pub proof fn lemma_tags_and_payloads(c: CpuState, m: BusState, x: Register, v: Register, d: Register)
    requires
        c.regs.len() == 256,
    ensures
        ({
            let w = c.reg(x.0);
            let t = execute(c, m, Instruction::GetTag { dst: d, src: x }).0.reg(d.0);
            let p = execute(c, m, Instruction::GetPayload { dst: d, src: x }).0.reg(d.0);
            let c1 = execute(c, m, Instruction::SetTag { dst: x, src: v }).0;
            let c2 = execute(c, m, Instruction::SetPayload { dst: x, src: v }).0;
            &&& t < 256
            &&& p * 256 + t == w
            &&& execute(c1, m, Instruction::GetTag { dst: d, src: x }).0.reg(d.0) == c.reg(v.0) % 256
            &&& execute(c1, m, Instruction::GetPayload { dst: d, src: x }).0.reg(d.0) == p
            &&& execute(c2, m, Instruction::GetTag { dst: d, src: x }).0.reg(d.0) == t
            &&& execute(c2, m, Instruction::GetPayload { dst: d, src: x }).0.reg(d.0) == c.reg(v.0)
                % 0x100_0000_0000_0000
        }),
{
    let w = c.reg(x.0);
    let c1 = c.with_reg(x.0, tagged(c.reg(v.0) as u8, LispWord(w).spec_payload()));
    let c2 = c.with_reg(x.0, tagged(LispWord(w).spec_tag(), c.reg(v.0)));
    lemma_execute_tag_ops(c, m, x, v, d);
    lemma_execute_tag_ops(c1, m, x, v, d);
    lemma_execute_tag_ops(c2, m, x, v, d);
    lemma_word_parts(w, c.reg(v.0));
    crate::cpu::lemma_tag_of_tagged(c.reg(v.0) as u8, LispWord(w).spec_payload());
    crate::cpu::lemma_tag_of_tagged(LispWord(w).spec_tag(), c.reg(v.0));
}

/// One step: enter a pending interrupt (waking a halted processor), or do nothing when
/// halted; then fetch, decode and execute the instruction at PC.
///
/// A pending interrupt is entered whether or not interrupts are disabled: the flag is
/// saved by the interrupt and restored by IReturn, but nothing here reads it.
pub open spec fn step(c: CpuState, m: BusState) -> (CpuState, BusState, Result<(), Trap>) {
    if c.pending_interrupt is None && c.halted {
        (c, m, Ok(()))
    } else {
        let (c1, m1) = after_pending(c, m);
        let (lo, hi) = fetched(c1, m1);
        match decoded(lo, hi) {
            Err(_) => (c1, m1, Err(Trap::InvalidInstruction)),
            Ok(i) => {
                let (c2, m2, r) = execute(c1, m1, i);
                match r {
                    Ok(next) => (c2.with_reg(PC, next), m2, Ok(())),
                    Err(t) => (c2, m2, Err(t)),
                }
            },
        }
    }
}

/// A step whose trap, if any, is handed to the trap handler: register 0 gets the
/// trapping PC and then the trap number, and execution continues at the trap vector.
pub open spec fn full_step(c: CpuState, m: BusState) -> (CpuState, BusState) {
    let (c1, m1, r) = step(c, m);
    match r {
        Ok(()) => (c1, m1),
        Err(t) => {
            let c2 = c1.with_reg(0, c1.reg(PC)).with_reg(0, fixnum_word(t.spec_code()));
            (c2.with_reg(PC, bus_read_word(m1, offset_address(c2.reg(VBR), 0))), m1)
        },
    }
}

} // verus!
