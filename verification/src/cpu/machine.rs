use vstd::prelude::*;

use crate::bus::{Address, Bus, Native, Offset};
use crate::cpu::encoding::{decoded, DecoderError};
use crate::cpu::state::{self, BusState, CpuState};
use crate::cpu::{
    BinaryOp, Comparison, Condition, ConsLayout, Instruction, InterruptTableOffset, LValue,
    LispWord, MBinaryOp, MemoryLayout, RValue, RegAndOff, Register, Trap, WordType,
};

verus! {

/// The processor: 256 word registers, a pending interrupt and two flags.
#[derive(Debug)]
pub struct Cpu {
    registers: [u64; 256],
    pending_interrupt: Option<u64>,
    pub halted: bool,
    interrupts_disabled: bool,
}

impl View for Cpu {
    type V = CpuState;

    closed spec fn view(&self) -> CpuState {
        CpuState {
            regs: self.registers@,
            pending_interrupt: self.pending_interrupt,
            halted: self.halted,
            interrupts_disabled: self.interrupts_disabled,
        }
    }
}

impl Default for Cpu {
    fn default() -> (c: Self)
        ensures
            c@.regs == Seq::new(256, |i: int| 0u64),
            c@.pending_interrupt is None,
            !c@.halted,
            !c@.interrupts_disabled,
    {
        let c = Cpu {
            registers: [0u64; 256],
            pending_interrupt: None,
            halted: false,
            interrupts_disabled: false,
        };
        assert(c@.regs =~= Seq::new(256, |i: int| 0u64));
        c
    }
}

} // verus!

verus! {

/// The fixnum a word holds lies within 56 signed bits.
proof fn lemma_fixnum_range(w: u64)
    ensures
        -0x80_0000_0000_0000 <= crate::cpu::fixnum_value(w) < 0x80_0000_0000_0000,
{
    assert(-0x80_0000_0000_0000i64 <= ((w as i64) >> 8i64) && ((w as i64) >> 8i64)
        < 0x80_0000_0000_0000i64) by (bit_vector);
}

/// A payload has 56 bits.
proof fn lemma_payload_bound(x: u64)
    ensures
        x >> 8u64 < 0x100_0000_0000_0000,
{
    assert(x >> 8u64 < 0x100_0000_0000_0000u64) by (bit_vector);
}

/// Quotient and remainder rounding toward zero.
fn fixnum_div(a: i64, b: i64) -> (r: (i64, i64))
    requires
        b != 0,
        -0x80_0000_0000_0000 <= a < 0x80_0000_0000_0000,
        -0x80_0000_0000_0000 <= b < 0x80_0000_0000_0000,
    ensures
        r.0 == state::trunc_div(a as int, b as int),
        r.1 == state::trunc_rem(a as int, b as int),
{
    let ua: u64 = if a < 0 {
        (0 - a) as u64
    } else {
        a as u64
    };
    let ub: u64 = if b < 0 {
        (0 - b) as u64
    } else {
        b as u64
    };
    let q = ua / ub;
    let rr = ua % ub;
    assert(q <= ua) by (nonlinear_arith)
        requires
            ub >= 1,
            q == ua / ub,
    ;
    let div: i64 = if (a < 0) != (b < 0) {
        0 - (q as i64)
    } else {
        q as i64
    };
    let rem: i64 = if a < 0 {
        0 - (rr as i64)
    } else {
        rr as i64
    };
    (div, rem)
}

impl Cpu {
    pub const NIL: u8 = 246;
    pub const T: u8 = 247;
    pub const CONS_FREE: u8 = 248;
    pub const CONS_END: u8 = 249;
    pub const GEN_FREE: u8 = 250;
    pub const GEN_END: u8 = 251;
    pub const FP: u8 = 252;
    pub const SP: u8 = 253;
    pub const PC: u8 = 254;
    pub const VBR: u8 = 255;

    pub const WORD_SIZE: u64 = 8;
    pub const INSTRUCTION_SIZE: u64 = 16;

    /// Records interrupt `number` unless one is already waiting; whether interrupts are
    /// disabled does not matter here or when the next step enters it.
    pub fn interrupt(&mut self, number: u64)
        ensures
            final(self)@ == (if (old(self)@.pending_interrupt is None) {
                old(self)@.with_pending(Some(number))
            } else {
                old(self)@
            }),
    {
        if self.pending_interrupt.is_none() {
            self.pending_interrupt = Some(number);
        }
    }

    /// A processor has 256 registers, in every state.
    pub proof fn lemma_register_count(&self)
        ensures
            self@.regs.len() == 256,
    {
    }

    /// Puts the processor in its power-on state: PC at the reset vector, T and NIL
    /// registers set, interrupts disabled, nothing pending.
    pub fn reset(&mut self)
        ensures
            final(self)@ == (CpuState {
                regs: old(self)@.regs.update(state::PC as int, MemoryLayout::RESET_VECTOR).update(
                    state::T as int,
                    1,
                ).update(state::NIL as int, 0),
                pending_interrupt: None,
                halted: false,
                interrupts_disabled: true,
            }),
    {
        self.set_reg(Register(Cpu::PC), Native(MemoryLayout::RESET_VECTOR));
        self.set_lreg(Register(Cpu::T), LispWord(1));
        self.set_lreg(Register(Cpu::NIL), LispWord(0));
        self.interrupts_disabled = true;
        self.halted = false;
        self.pending_interrupt = None;
    }

    fn lreg(&self, r: Register) -> (w: LispWord)
        ensures
            w.0 == self@.reg(r.0),
    {
        LispWord(self.registers[r.offset()])
    }

    fn set_lreg(&mut self, r: Register, data: LispWord)
        ensures
            final(self)@ == old(self)@.with_reg(r.0, data.0),
    {
        self.registers[r.offset()] = data.0;
    }

    /// The value of register `r`.
    pub fn reg(&self, r: Register) -> (v: Native)
        ensures
            v.0 == self@.reg(r.0),
    {
        Native(self.registers[r.offset()])
    }

    /// Sets register `r` to `data`.
    pub fn set_reg(&mut self, r: Register, data: Native)
        ensures
            final(self)@ == old(self)@.with_reg(r.0, data.0),
    {
        self.registers[r.offset()] = data.0;
    }

    fn fetch(&self, memory: &Bus) -> (r: (Native, Native))
        ensures
            (r.0.0, r.1.0) == state::fetched(self@, memory@),
    {
        let pc = Address::from(self.reg(Register(Cpu::PC)));
        let instruction_low = memory.read_word(pc);
        let instruction_high = memory.read_word(pc.offset_by(Offset(Self::WORD_SIZE as i64)));
        (instruction_low, instruction_high)
    }

    fn read_word(memory: &Bus, address: Address) -> (w: LispWord)
        ensures
            w.0 == crate::bus::bus_read_word(memory@, address.0),
    {
        LispWord::from(memory.read_word(address))
    }

    fn to_machine_bool(&self, val: bool) -> (w: LispWord)
        ensures
            w.0 == state::machine_bool(self@, val),
    {
        if val {
            self.lreg(Register(Cpu::T))
        } else {
            self.lreg(Register(Cpu::NIL))
        }
    }

    fn push(&mut self, memory: &mut Bus, val: Native)
        ensures
            (final(self)@, final(memory)@) == state::push(old(self)@, old(memory)@, val.0),
    {
        let sp = Address::from(self.reg(Register(Cpu::SP))).offset_back(Offset(Self::WORD_SIZE as i64));
        self.set_reg(Register(Cpu::SP), Native::from(sp));
        memory.write_word(Address::from(self.reg(Register(Cpu::SP))), val);
    }

    fn pop(&mut self, memory: &mut Bus) -> (v: Native)
        ensures
            (final(self)@, v.0) == state::pop(old(self)@, old(memory)@),
            final(memory)@ == old(memory)@,
    {
        let res = memory.read_word(Address::from(self.reg(Register(Cpu::SP))));
        let sp = Address::from(self.reg(Register(Cpu::SP))).offset_by(Offset(Self::WORD_SIZE as i64));
        self.set_reg(Register(Cpu::SP), Native::from(sp));
        res
    }

    fn get_offset_raw(&self, ro: RegAndOff) -> (v: Native)
        ensures
            v.0 == state::offset_raw(self@, ro),
    {
        let RegAndOff { op1, off } = ro;
        let extra = match off {
            Some(n) => n,
            None => Native(0),
        };
        Native(self.reg(op1).0.wrapping_add(extra.0))
    }

    fn get_offset_lisp(&self, ro: RegAndOff) -> (w: LispWord)
        ensures
            w.0 == state::offset_lisp(self@, ro),
    {
        let RegAndOff { op1, off } = ro;
        let base = self.lreg(op1).payload();
        let off = match off {
            Some(n) => LispWord::from(n),
            None => LispWord::fixnum(0),
        };
        proof {
            crate::cpu::lemma_tag_of_tagged(0, 0);
            assert(0u64 << 8u64 | 0u64 == 0u64) by (bit_vector);
        }
        let off_payload = off.payload();
        proof {
            lemma_payload_bound(self@.reg(op1.0));
            lemma_payload_bound(off.0);
        }
        LispWord::fixnum(base as i64 + off_payload as i64)
    }

    fn read_rval(&self, bus: &Bus, rval: RValue) -> (v: Native)
        ensures
            v.0 == state::read_rval(self@, bus@, rval),
    {
        match rval {
            RValue::Literal(l) => l,
            RValue::Register(r) => self.get_offset_raw(r),
            RValue::Absolute(adr) => bus.read_word(adr),
            RValue::Indirect(pos) => bus.read_word(Address::from(self.get_offset_raw(pos))),
            RValue::LPointer(r) => bus.read_word(Address(self.get_offset_lisp(r).payload())),
        }
    }

    fn read_rval_byte(&self, bus: &Bus, src: RValue) -> (v: u8)
        ensures
            v == state::read_rval_byte(self@, bus@, src),
    {
        match src {
            RValue::Literal(v) => v.0 as u8,
            RValue::Register(pos) => self.get_offset_raw(pos).0 as u8,
            RValue::Absolute(adr) => bus.read_byte(adr),
            RValue::Indirect(pos) => bus.read_byte(Address::from(self.get_offset_raw(pos))),
            RValue::LPointer(r) => bus.read_byte(Address(self.get_offset_lisp(r).payload())),
        }
    }

    fn run_interrupt(&mut self, memory: &mut Bus, interruption: u64, next_pc: Address) -> (r:
        Result<Address, Trap>)
        ensures
            ({
                let (c, m, target) = state::run_interrupt(
                    old(self)@,
                    old(memory)@,
                    interruption,
                    next_pc.0,
                );
                &&& final(self)@ == c
                &&& final(memory)@ == m
                &&& r == Ok::<Address, Trap>(Address(target))
            }),
    {
        self.pending_interrupt = None;
        self.push(memory, Native(if self.interrupts_disabled { 1 } else { 0 }));
        self.push(memory, Native(interruption));
        self.push(memory, Native(next_pc.0));
        self.interrupts_disabled = true;
        let entry = (interruption as i64).wrapping_mul(Self::WORD_SIZE as i64);
        let location = Address::from(
            memory.read_word(Address::from(self.reg(Register(Cpu::VBR))).offset_by(Offset(entry))),
        );
        Ok(location)
    }

    /// Copies `count` bytes from `src` to `dst`, lowest address first.
    fn copy(memory: &mut Bus, src: Address, dst: Address, count: i64)
        ensures
            final(memory)@ == state::copy_bytes(old(memory)@, src.0, dst.0, if count > 0 {
                count as nat
            } else {
                0
            }),
    {
        let mut i: i64 = 0;
        while i < count
            invariant
                0 <= i,
                count > 0 ==> i <= count,
                count <= 0 ==> i == 0,
                memory@ == state::copy_bytes(old(memory)@, src.0, dst.0, i as nat),
            decreases count - i,
        {
            let value = memory.read_byte(src.offset_by(Offset(i)));
            memory.write_byte(dst.offset_by(Offset(i)), value);
            i = i + 1;
        }
    }

    /// Stores registers `0..count` (numbers taken modulo 256) at consecutive words from `free`.
    fn store_registers(&self, memory: &mut Bus, free: u64, count: u64)
        requires
            free as int + count as int * 8 <= u64::MAX,
        ensures
            final(memory)@ == state::store_registers(self@, old(memory)@, free, count as nat),
    {
        let mut i: u64 = 0;
        while i < count
            invariant
                i <= count,
                free as int + count as int * 8 <= u64::MAX,
                memory@ == state::store_registers(self@, old(memory)@, free, i as nat),
            decreases count - i,
        {
            let value = self.lreg(Register((i % 256) as u8));
            memory.write_word(Address(free.wrapping_add(i * 8)), value.into());
            i = i + 1;
        }
    }

    #[verifier::rlimit(100)]
    #[verifier::spinoff_prover]
    fn execute(&mut self, instruction: Instruction, memory: &mut Bus) -> (r: Result<Address, Trap>)
        requires
            !state::execute_faults(old(self)@, old(memory)@, instruction),
        ensures
            ({
                let (c, m, res) = state::execute(old(self)@, old(memory)@, instruction);
                &&& final(self)@ == c
                &&& final(memory)@ == m
                &&& match r {
                    Ok(a) => res == Ok::<u64, Trap>(a.0),
                    Err(t) => res == Err::<u64, Trap>(t),
                }
            }),
    {
        let next_pc = Address(self.reg(Register(Cpu::PC)).0).offset_by(Offset(Cpu::INSTRUCTION_SIZE as i64));
        match instruction {
            Instruction::Halt => {
                self.halted = true;
            },
            Instruction::Nop => {},
            Instruction::Jump { condition, target } => {
                let nil = self.lreg(Register(Cpu::NIL));
                let should_jump = match condition {
                    Condition::Always => true,
                    Condition::False(r) => self.lreg(r).0 == nil.0,
                    Condition::True(r) => self.lreg(r).0 != nil.0,
                };
                if should_jump {
                    return Ok(Address::from(self.read_rval(memory, target)));
                }
            },
            Instruction::Call { target } => {
                let prev_fp = self.reg(Register(Cpu::FP));
                let sp = self.reg(Register(Cpu::SP));
                self.set_reg(Register(Cpu::FP), sp);
                self.push(memory, prev_fp);
                self.push(memory, Native::from(next_pc));
                return Ok(Address::from(self.read_rval(memory, target)));
            },
            Instruction::Return => {
                let fp = self.reg(Register(Cpu::FP));
                let return_address = memory.read_word(Address::from(fp).offset_back(Offset(16)));
                let prev_fp = memory.read_word(Address::from(fp).offset_back(Offset(8)));
                self.set_reg(Register(Cpu::SP), fp);
                self.set_reg(Register(Cpu::FP), prev_fp);
                return Ok(Address::from(return_address));
            },
            Instruction::MakeClosure { dst: _, code: _ } => {
                return Err(Trap::InvalidInstruction);
            },
            Instruction::Comparison { op, dst, op1, op2 } => {
                let op1_obj = self.reg(op1).0;
                let op2_obj = self.read_rval(memory, op2).0;
                let result = match op {
                    Comparison::Eq => op1_obj == op2_obj,
                    Comparison::Ne => op1_obj != op2_obj,
                    Comparison::Gt => op1_obj > op2_obj,
                    Comparison::Gte => op1_obj >= op2_obj,
                    Comparison::Lt => op1_obj < op2_obj,
                    Comparison::Lte => op1_obj <= op2_obj,
                };
                let b = self.to_machine_bool(result);
                self.set_lreg(dst, b);
            },
            Instruction::Binary { op, dst, op1, op2 } => {
                let op1_obj = self.lreg(op1).as_fixnum()?;
                let op2_obj = LispWord::from(self.read_rval(memory, op2)).as_fixnum()?;
                let result = LispWord::fixnum(
                    match op {
                        BinaryOp::Add => op1_obj.wrapping_add(op2_obj),
                        BinaryOp::Sub => op1_obj.wrapping_sub(op2_obj),
                        BinaryOp::Mul => op1_obj.wrapping_mul(op2_obj),
                        BinaryOp::Shl => op1_obj.wrapping_shl(op2_obj as u32),
                        BinaryOp::Shr => op1_obj.wrapping_shr(op2_obj as u32),
                    },
                );
                self.set_lreg(dst, result);
            },
            Instruction::Int(interruption) => {
                return self.run_interrupt(memory, interruption, next_pc);
            },
            Instruction::IReturn => {
                let return_address = self.pop(memory);
                let _interrupt = self.pop(memory);
                self.interrupts_disabled = self.pop(memory).0 != 0;
                return Ok(Address::from(return_address));
            },
            Instruction::Car { dst, src } => {
                let src_obj = self.lreg(src).ensure(WordType::Cons)?;
                let v = Self::read_word(
                    memory,
                    Address(src_obj.payload()).offset_by(Offset(ConsLayout::CAR_OFFSET)),
                );
                self.set_lreg(dst, v);
            },
            Instruction::Cdr { dst, src } => {
                let src_obj = self.lreg(src).ensure(WordType::Cons)?;
                let v = Self::read_word(
                    memory,
                    Address(src_obj.payload()).offset_by(Offset(ConsLayout::CDR_OFFSET)),
                );
                self.set_lreg(dst, v);
            },
            Instruction::SetCar { dst, src } => {
                let dst_obj = self.lreg(dst).ensure(WordType::Cons)?;
                let val_obj = self.lreg(src);
                memory.write_word(
                    Address(dst_obj.payload()).offset_by(Offset(ConsLayout::CAR_OFFSET)),
                    val_obj.into(),
                );
            },
            Instruction::SetCdr { dst, src } => {
                let dst_obj = self.lreg(dst).ensure(WordType::Cons)?;
                let val_obj = self.lreg(src);
                memory.write_word(
                    Address(dst_obj.payload()).offset_by(Offset(ConsLayout::CDR_OFFSET)),
                    val_obj.into(),
                );
            },
            Instruction::Cons { dst, car, cdr } => {
                let free = self.reg(Register(Self::CONS_FREE));
                if free.0 <= u64::MAX - 16 && free.0 + 16 <= self.reg(Register(Self::CONS_END)).0 {
                    let car_val = self.lreg(car);
                    memory.write_word(
                        Address::from(free).offset_by(Offset(ConsLayout::CAR_OFFSET)),
                        car_val.into(),
                    );
                    let cdr_val = self.lreg(cdr);
                    memory.write_word(
                        Address::from(free).offset_by(Offset(ConsLayout::CDR_OFFSET)),
                        cdr_val.into(),
                    );
                    self.set_lreg(dst, LispWord::cons(free.0));
                    self.set_reg(Register(Self::CONS_FREE), Native(free.0 + 16));
                } else {
                    let pc = Address::from(self.reg(Register(Self::PC)));
                    return self.run_interrupt(memory, 0x03, pc);
                }
            },
            Instruction::Req { dst, prototype, size } => {
                let sizew = self.lreg(size).as_fixnum()? as u64;
                let free = self.reg(Register(Self::GEN_FREE));
                let end = self.reg(Register(Self::GEN_END)).0;
                if sizew <= (u64::MAX - free.0) / 8 && free.0 + sizew * 8 <= end {
                    self.store_registers(memory, free.0, sizew);
                    let prototype = self.lreg(prototype);
                    let result = LispWord::new(prototype.tag(), free.0);
                    self.set_lreg(dst, result);
                    self.set_reg(Register(Self::GEN_FREE), Native(free.0 + sizew * 8));
                } else {
                    let pc = Address::from(self.reg(Register(Self::PC)));
                    return self.run_interrupt(memory, 0x03, pc);
                }
            },
            Instruction::Uncons { car, cdr, src } => {
                let src_obj = self.lreg(src).ensure(WordType::Cons)?;
                let car_val = Self::read_word(
                    memory,
                    Address(src_obj.payload()).offset_by(Offset(ConsLayout::CAR_OFFSET)),
                );
                self.set_lreg(car, car_val);
                let cdr_val = Self::read_word(
                    memory,
                    Address(src_obj.payload()).offset_by(Offset(ConsLayout::CDR_OFFSET)),
                );
                self.set_lreg(cdr, cdr_val);
            },
            Instruction::IDiv { div, rem, op1, op2 } => {
                let w1 = self.lreg(op1);
                let op1_obj = w1.as_fixnum()?;
                let w2 = LispWord::from(self.read_rval(memory, op2));
                let op2_obj = w2.as_fixnum()?;
                proof {
                    lemma_fixnum_range(w1.0);
                    lemma_fixnum_range(w2.0);
                }
                let (q, m) = fixnum_div(op1_obj, op2_obj);
                self.set_lreg(div, LispWord::fixnum(q));
                self.set_lreg(rem, LispWord::fixnum(m));
            },
            Instruction::Pop { dst } => {
                let result = self.pop(memory);
                self.set_reg(dst, result);
            },
            Instruction::Push { src } => {
                let v = self.reg(src);
                self.push(memory, v);
            },
            Instruction::MBinary { op, dst, op1, op2 } => {
                let val1 = self.reg(op1);
                let val2 = self.read_rval(memory, op2);
                let result = match op {
                    MBinaryOp::Add => Native(val1.0.wrapping_add(val2.0)),
                    MBinaryOp::Sub => Native(val1.0.wrapping_sub(val2.0)),
                };
                self.set_reg(dst, result);
            },
            Instruction::GetPayload { dst, src } => {
                let v = Native(self.lreg(src).payload());
                self.set_reg(dst, v);
            },
            Instruction::GetTag { src, dst } => {
                let v = Native(self.lreg(src).tag() as u64);
                self.set_reg(dst, v);
            },
            Instruction::SetPayload { dst, src } => {
                let v = LispWord::new(self.lreg(dst).tag(), self.reg(src).0);
                self.set_lreg(dst, v);
            },
            Instruction::SetTag { src, dst } => {
                let v = LispWord::new(self.reg(src).0 as u8, self.lreg(dst).payload());
                self.set_lreg(dst, v);
            },
            Instruction::Mov8 { dst, src } => {
                let value = self.read_rval_byte(memory, src);
                match dst {
                    LValue::Absolute(a) => memory.write_byte(a, value),
                    LValue::Register(r) => {
                        self.set_reg(r, Native(value as u64));
                    },
                    LValue::Indirect(target) => {
                        let a = Address::from(self.get_offset_raw(target));
                        memory.write_byte(a, value);
                    },
                    LValue::LPointer(target) => {
                        let a = Address(self.get_offset_lisp(target).payload());
                        memory.write_byte(a, value);
                    },
                }
            },
            Instruction::Mov { dst, src } => {
                let value = self.read_rval(memory, src);
                match dst {
                    LValue::Absolute(a) => memory.write_word(a, value),
                    LValue::Register(r) => self.set_lreg(r, LispWord::from(value)),
                    LValue::Indirect(target) => {
                        let a = Address::from(self.get_offset_raw(target));
                        memory.write_word(a, value)
                    },
                    LValue::LPointer(target) => {
                        let a = Address(self.get_offset_lisp(target).payload());
                        memory.write_word(a, value);
                    },
                }
            },
            Instruction::MemCpy { dst, src, count } => {
                let srcadd = Address::from(self.reg(src));
                let dstadd = Address::from(self.reg(dst));
                let count = LispWord::from(self.read_rval(memory, count)).as_fixnum()?;
                Self::copy(memory, srcadd, dstadd, count);
            },
            Instruction::Typep { dst, src, compare } => {
                let src_obj = self.lreg(src);
                let b = self.to_machine_bool(src_obj.tag() as u64 == compare.0);
                self.set_lreg(dst, b);
            },
            Instruction::DisableInterrupts => {
                self.interrupts_disabled = true;
            },
            Instruction::EnableInterrupts => {
                self.interrupts_disabled = false;
            },
        };
        Ok(next_pc)
    }

    /// Whether `instruction` is one the machine cannot carry out here.
    fn faults(&self, instruction: Instruction, memory: &Bus) -> (r: bool)
        ensures
            r == state::execute_faults(self@, memory@, instruction),
    {
        match instruction {
            Instruction::MakeClosure { .. } => true,
            Instruction::IDiv { op1, op2, .. } => {
                match (self.lreg(op1).as_fixnum(), LispWord::from(self.read_rval(memory, op2)).as_fixnum()) {
                    (Ok(_), Ok(b)) => b == 0,
                    _ => false,
                }
            },
            _ => false,
        }
    }

    /// Enters a pending interrupt, waking a halted processor; answers whether there is
    /// an instruction to run.
    fn enter_pending(&mut self, memory: &mut Bus) -> (r: bool)
        ensures
            r == !(old(self)@.pending_interrupt is None && old(self)@.halted),
            (final(self)@, final(memory)@) == state::after_pending(old(self)@, old(memory)@),
    {
        match self.pending_interrupt {
            Some(i) => {
                self.halted = false;
                let pc = Address::from(self.reg(Register(Cpu::PC)));
                let target = match self.run_interrupt(memory, i, pc) {
                    Ok(t) => t,
                    Err(_) => pc,
                };
                self.set_reg(Register(Cpu::PC), Native::from(target));
                true
            },
            None => !self.halted,
        }
    }

    fn fetch_decode(&self, memory: &Bus) -> (r: Result<Instruction, Trap>)
        ensures
            r == match decoded(state::fetched(self@, memory@).0, state::fetched(self@, memory@).1) {
                Ok(i) => Ok::<Instruction, Trap>(i),
                Err(_) => Err(Trap::InvalidInstruction),
            },
    {
        let (lo, hi) = self.fetch(memory);
        match Instruction::decode(lo.0, hi.0) {
            Ok(i) => Ok(i),
            Err(_) => Err(Trap::InvalidInstruction),
        }
    }

    /// Runs one instruction: enters a pending interrupt first (waking a halted
    /// processor); a halted processor with nothing pending does nothing. A pending
    /// interrupt is entered even while interrupts are disabled.
    pub fn step(&mut self, memory: &mut Bus) -> (r: Result<(), Trap>)
        requires
            !state::step_faults(old(self)@, old(memory)@),
        ensures
            (final(self)@, final(memory)@, r) == state::step(old(self)@, old(memory)@),
    {
        if !self.enter_pending(memory) {
            return Ok(());
        }
        let instruction = self.fetch_decode(memory)?;
        let next_pc = self.execute(instruction, memory)?;
        self.set_reg(Register(Cpu::PC), Native::from(next_pc));
        Ok(())
    }

    fn handle_trap(&mut self, memory: &Bus, trap: Trap)
        ensures
            final(self)@ == ({
                let c1 = old(self)@;
                let c2 = c1.with_reg(0, c1.reg(state::PC)).with_reg(0, state::fixnum_word(trap.spec_code()));
                c2.with_reg(state::PC, crate::bus::bus_read_word(memory@, crate::bus::offset_address(c2.reg(state::VBR), 0)))
            }),
    {
        let pc = self.reg(Register(Cpu::PC));
        self.set_reg(Register(0), pc);
        self.set_lreg(Register(0), LispWord::fixnum(trap.code()));
        let vector = Address::from(self.reg(Register(Cpu::VBR))).offset_by(Offset(InterruptTableOffset::TRAP_VECTOR));
        let target = memory.read_word(vector);
        self.set_reg(Register(Cpu::PC), target);
    }

    /// A step whose trap, if any, goes to the trap handler: register 0 receives the
    /// trapping PC and then the trap number, and PC the trap vector's entry.
    pub fn full_step(&mut self, memory: &mut Bus)
        requires
            !state::step_faults(old(self)@, old(memory)@),
        ensures
            (final(self)@, final(memory)@) == state::full_step(old(self)@, old(memory)@),
    {
        match self.step(memory) {
            Ok(()) => {},
            Err(trap) => {
                self.handle_trap(memory, trap);
            },
        };
    }

    /// [`Cpu::full_step`] for any state: when the instruction to run is one the machine
    /// cannot carry out, stops after entering any pending interrupt and answers false.
    pub fn try_full_step(&mut self, memory: &mut Bus) -> (r: bool)
        ensures
            r == !state::step_faults(old(self)@, old(memory)@),
            r ==> (final(self)@, final(memory)@) == state::full_step(old(self)@, old(memory)@),
            !r ==> (final(self)@, final(memory)@) == state::after_pending(old(self)@, old(memory)@),
    {
        if !self.enter_pending(memory) {
            return true;
        }
        match self.fetch_decode(memory) {
            Err(trap) => {
                self.handle_trap(memory, trap);
                true
            },
            Ok(instruction) => {
                if self.faults(instruction, memory) {
                    return false;
                }
                match self.execute(instruction, memory) {
                    Ok(next_pc) => self.set_reg(Register(Cpu::PC), Native::from(next_pc)),
                    Err(trap) => self.handle_trap(memory, trap),
                }
                true
            },
        }
    }
}

} // verus!
