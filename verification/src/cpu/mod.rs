use vstd::prelude::*;

pub mod assembler;
pub mod encoding;
pub mod state;
mod machine;

pub use machine::Cpu;

pub use crate::bus::{Address, Native, Offset};

verus! {

/// Fixed addresses of the address space.
pub struct MemoryLayout;

impl MemoryLayout {
    /// The last address of the address space.
    pub const CPU_END: u64 = 0xffffffffffffffff;
    /// Where execution starts after a reset: the last 32 bytes of the address space.
    pub const RESET_VECTOR: u64 = 0xffffffffffffffe0;
}

/// Offsets into the interrupt table that VBR points at.
pub struct InterruptTableOffset;

impl InterruptTableOffset {
    pub const TRAP_VECTOR: i64 = 0x00;
    pub const END_RESERVED_INTERRUPTS: i64 = 0xf0;
}

/// Offsets of the two halves of a cons cell.
pub struct ConsLayout;

impl ConsLayout {
    pub const CAR_OFFSET: i64 = 0;
    pub const CDR_OFFSET: i64 = 8;
}

/// The tags a Lisp word can carry in its low byte.
#[derive(PartialEq, Eq, Clone, Copy, Debug)]
pub enum WordType {
    Fixnum,
    Symbol,
    Cons,
    Function,
    Macro,
    Character,
    String,
    Vector,
    Float,
    Undefined,
}

impl WordType {
    pub open spec fn spec_code(self) -> u8 {
        match self {
            WordType::Fixnum => 0,
            WordType::Symbol => 2,
            WordType::Cons => 3,
            WordType::Function => 4,
            WordType::Macro => 5,
            WordType::Character => 6,
            WordType::String => 7,
            WordType::Vector => 8,
            WordType::Float => 9,
            WordType::Undefined => 0xff,
        }
    }

    /// The tag byte of this type.
    #[verifier::when_used_as_spec(spec_code)]
    pub fn code(self) -> (r: u8)
        ensures
            r == self.spec_code(),
    {
        match self {
            WordType::Fixnum => 0,
            WordType::Symbol => 2,
            WordType::Cons => 3,
            WordType::Function => 4,
            WordType::Macro => 5,
            WordType::Character => 6,
            WordType::String => 7,
            WordType::Vector => 8,
            WordType::Float => 9,
            WordType::Undefined => 0xff,
        }
    }

    /// The type whose tag byte is `tag`, if any.
    pub fn from_code(tag: u8) -> (r: Option<WordType>)
        ensures
            match r {
                Some(t) => t.spec_code() == tag,
                None => forall|t: WordType| t.spec_code() != tag,
            },
    {
        match tag {
            0 => Some(WordType::Fixnum),
            2 => Some(WordType::Symbol),
            3 => Some(WordType::Cons),
            4 => Some(WordType::Function),
            5 => Some(WordType::Macro),
            6 => Some(WordType::Character),
            7 => Some(WordType::String),
            8 => Some(WordType::Vector),
            9 => Some(WordType::Float),
            0xff => Some(WordType::Undefined),
            _ => None,
        }
    }
}

/// A tagged Lisp word: the payload in the upper 56 bits, the tag in the low byte.
#[derive(PartialEq, Eq, Clone, Copy, Debug)]
pub struct LispWord(pub u64);

/// The word with tag `tag` and payload `payload` (the payload's top 8 bits are lost).
pub open spec fn tagged(tag: u8, payload: u64) -> u64 {
    ((payload << 8u64) | (tag as u64)) as u64
}

/// The low 56 bits of `v`: what a payload keeps of a value.
pub open spec fn low56(v: u64) -> u64 {
    v & 0x00ff_ffff_ffff_ffffu64
}

impl LispWord {
    pub open spec fn spec_tag(&self) -> u8 {
        (self.0 & 0xff) as u8
    }

    pub open spec fn spec_payload(&self) -> u64 {
        self.0 >> 8u64
    }

    pub fn undefined() -> (r: LispWord)
        ensures
            r.0 == tagged(0xff, 0),
    {
        Self::new(WordType::Undefined.code(), 0)
    }

    #[verifier::when_used_as_spec(spec_tag)]
    pub fn tag(&self) -> (r: u8)
        ensures
            r == self.spec_tag(),
    {
        (self.0 & 0xff) as u8
    }

    #[verifier::when_used_as_spec(spec_payload)]
    pub fn payload(&self) -> (r: u64)
        ensures
            r == self.spec_payload(),
    {
        self.0 >> 8
    }

    pub fn new(tag: u8, payload: u64) -> (r: Self)
        ensures
            r.0 == tagged(tag, payload),
    {
        Self((payload << 8) | (tag as u64))
    }

    pub fn symbol(value: u64) -> (r: Self)
        ensures
            r.0 == tagged(2, value),
    {
        Self::new(WordType::Symbol.code(), value)
    }

    pub fn fixnum(value: i64) -> (r: Self)
        ensures
            r.0 == tagged(0, value as u64),
    {
        Self::new(WordType::Fixnum.code(), value as u64)
    }

    pub fn cons(address: u64) -> (r: Self)
        ensures
            r.0 == tagged(3, address),
    {
        Self::new(WordType::Cons.code(), address)
    }

    pub fn char(address: u64) -> (r: Self)
        ensures
            r.0 == tagged(6, address & 0xff),
    {
        Self::new(WordType::Character.code(), address & 0xff)
    }

    pub fn string(address: u64) -> (r: Self)
        ensures
            r.0 == tagged(7, address),
    {
        Self::new(WordType::String.code(), address)
    }

    /// The word itself if it carries the tag of `word_type`, a type error otherwise.
    fn ensure(self, word_type: WordType) -> (r: Result<Self, Trap>)
        ensures
            r == (if self.spec_tag() == word_type.spec_code() {
                Ok::<LispWord, Trap>(self)
            } else {
                Err(Trap::TypeError)
            }),
    {
        if self.tag() == word_type.code() {
            Ok(self)
        } else {
            Err(Trap::TypeError)
        }
    }

    /// The signed integer held by a fixnum word (an arithmetic shift of the whole word).
    fn as_fixnum(self) -> (r: Result<i64, Trap>)
        ensures
            r == (if self.spec_tag() == 0 {
                Ok::<i64, Trap>(fixnum_value(self.0))
            } else {
                Err(Trap::TypeError)
            }),
    {
        self.ensure(WordType::Fixnum)?;
        Ok((self.0 as i64) >> 8)
    }
}

/// The signed value of a fixnum word.
pub open spec fn fixnum_value(w: u64) -> i64 {
    ((w as i64) >> 8i64) as i64
}

/// The tag read back from a built word is the tag it was built with.
pub proof fn lemma_tag_of_tagged(tag: u8, payload: u64)
    ensures
        (LispWord(tagged(tag, payload))).spec_tag() == tag,
        (LispWord(tagged(tag, payload))).spec_payload() == low56(payload),
{
    assert((((payload << 8u64) | (tag as u64)) & 0xff) as u8 == tag) by (bit_vector);
    assert(((payload << 8u64) | (tag as u64)) >> 8u64 == payload & 0x00ff_ffff_ffff_ffffu64)
        by (bit_vector);
}

/// Splitting a word into tag and payload and building it again gives the same word.
pub proof fn lemma_tagged_of_parts(w: LispWord)
    ensures
        tagged(w.spec_tag(), w.spec_payload()) == w.0,
{
    let x = w.0;
    assert((((x >> 8u64) << 8u64) | ((x & 0xff) as u8) as u64) == x) by (bit_vector);
}

impl From<Native> for LispWord {
    fn from(value: Native) -> (r: LispWord) {
        LispWord(value.0)
    }
}

impl vstd::std_specs::convert::FromSpecImpl<Native> for LispWord {
    open spec fn obeys_from_spec() -> bool {
        true
    }

    open spec fn from_spec(v: Native) -> LispWord {
        LispWord(v.0)
    }
}

impl From<LispWord> for Native {
    fn from(value: LispWord) -> (r: Native) {
        Native(value.0)
    }
}

impl vstd::std_specs::convert::FromSpecImpl<LispWord> for Native {
    open spec fn obeys_from_spec() -> bool {
        true
    }

    open spec fn from_spec(v: LispWord) -> Native {
        Native(v.0)
    }
}

/// One of the 256 general purpose registers.
#[derive(PartialEq, Eq, Clone, Copy, Debug)]
pub struct Register(pub u8);

impl Register {
    fn offset(&self) -> (r: usize)
        ensures
            r == self.0,
    {
        self.0 as usize
    }
}

/// A register plus an optional constant displacement.
#[derive(Debug, PartialEq, Eq, Clone, Copy)]
pub struct RegAndOff {
    pub op1: Register,
    pub off: Option<Native>,
}

/// An instruction operand that is read.
#[derive(Debug, PartialEq, Eq, Clone, Copy)]
pub enum RValue {
    /// The constant itself.
    Literal(Native),
    /// The memory word at the Lisp payload of a register plus offset.
    LPointer(RegAndOff),
    /// A register's value plus offset.
    Register(RegAndOff),
    /// The memory word at a fixed address.
    Absolute(Address),
    /// The memory word at a register's value plus offset.
    Indirect(RegAndOff),
}

/// An instruction operand that is written.
#[derive(Debug, PartialEq, Eq, Clone, Copy)]
pub enum LValue {
    Absolute(Address),
    Register(Register),
    Indirect(RegAndOff),
    LPointer(RegAndOff),
}

#[derive(Debug, PartialEq, Eq, Clone, Copy)]
pub enum Condition {
    Always,
    True(Register),
    False(Register),
}

#[derive(Debug, PartialEq, Eq, Clone, Copy)]
pub enum MBinaryOp {
    Add,
    Sub,
}

#[derive(Debug, PartialEq, Eq, Clone, Copy)]
pub enum BinaryOp {
    Add,
    Sub,
    Mul,
    Shl,
    Shr,
}

#[derive(Debug, PartialEq, Eq, Clone, Copy)]
pub enum Comparison {
    Eq,
    Ne,
    Gt,
    Gte,
    Lt,
    Lte,
}

#[derive(Debug, PartialEq, Eq, Clone, Copy)]
pub enum Instruction {
    /// Halts execution
    Halt,
    /// Do nothing.
    Nop,
    Jump { condition: Condition, target: RValue },
    /// Raises interrupt number `n`.
    Int(u64),
    /// Returns from an interrupt handler.
    IReturn,
    Mov { dst: LValue, src: RValue },
    Mov8 { dst: LValue, src: RValue },
    MBinary { op: MBinaryOp, dst: Register, op1: Register, op2: RValue },
    Comparison { op: Comparison, dst: Register, op1: Register, op2: RValue },
    SetTag { dst: Register, src: Register },
    GetTag { dst: Register, src: Register },
    SetPayload { dst: Register, src: Register },
    GetPayload { dst: Register, src: Register },
    EnableInterrupts,
    DisableInterrupts,
    /// Allocates `size` words copied from the first registers.
    Req { dst: Register, prototype: Register, size: Register },
    Cons { dst: Register, car: Register, cdr: Register },
    /// Destructures both parts of a cons.
    Uncons { car: Register, cdr: Register, src: Register },
    Car { dst: Register, src: Register },
    Cdr { dst: Register, src: Register },
    SetCar { dst: Register, src: Register },
    SetCdr { dst: Register, src: Register },
    /// div <- op1 / op2, rem <- op1 % op2
    IDiv { div: Register, rem: Register, op1: Register, op2: RValue },
    Binary { op: BinaryOp, dst: Register, op1: Register, op2: RValue },
    MakeClosure { dst: Register, code: Register },
    Push { src: Register },
    Pop { dst: Register },
    Typep { dst: Register, src: Register, compare: Native },
    /// while (count--) *dst++ = *src++
    MemCpy { dst: Register, src: Register, count: RValue },
    /// Pushes a frame and jumps.
    Call { target: RValue },
    /// Pops a frame.
    Return,
}

/// Why an instruction could not complete.
#[derive(Debug, PartialEq, Eq, Clone, Copy)]
pub enum Trap {
    TypeError,
    InvalidInstruction,
}

impl Trap {
    pub open spec fn spec_code(self) -> i64 {
        match self {
            Trap::TypeError => 0,
            Trap::InvalidInstruction => 1,
        }
    }

    /// The number the trap handler finds in register 0.
    #[verifier::when_used_as_spec(spec_code)]
    pub fn code(self) -> (r: i64)
        ensures
            r == self.spec_code(),
    {
        match self {
            Trap::TypeError => 0,
            Trap::InvalidInstruction => 1,
        }
    }
}

} // verus!
