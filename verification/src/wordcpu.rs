//! A word-addressed Lisp machine: sixteen tagged registers, four address registers,
//! and instructions of two words each.
use vstd::prelude::*;

verus! {

/// Words an instruction takes.
pub const INSTRUCTION_SIZE: u64 = 2;

/// Fixed word addresses of the machine.
pub struct MemoryLayout;

impl MemoryLayout {
    pub const NIL_ROOT: u64 = 0x0000000000000000;
    pub const T_ROOT: u64 = 0x0000000000000001;
    pub const ALLOC_VECTOR: u64 = 0x000000000000fc0;
    pub const ALLOC_CONS_VECTOR: u64 = 0x000000000000fd0;
    pub const RESET_VECTOR: u64 = 0x000000000000fe0;
    pub const TRAP_VECTOR: u64 = 0x000000000000ff0;
    pub const CPU_RESERVED_END: u64 = 0x000000000001000;
}

/// Word offsets within a symbol.
pub struct SymbolLayout;

impl SymbolLayout {
    pub const NAME_OFFSET: u64 = 0;
    pub const PLIST_OFFSET: u64 = 1;
}

/// Word offsets within a string.
pub struct StringLayout;

impl StringLayout {
    pub const LENGTH_OFFSET: u64 = 0;
    pub const DATA_OFFSET: u64 = 1;
}

/// Word offsets within a cons cell.
pub struct ConsLayout;

impl ConsLayout {
    pub const CAR_OFFSET: u64 = 0;
    pub const CDR_OFFSET: u64 = 1;
}

/// The roots whose words live at the bottom of memory.
#[derive(Clone, Copy, Debug, PartialEq, Eq)]
pub enum Root {
    NIL,
    T,
    CONS,
    FIXNUM,
    SYMBOL,
}

impl Root {
    pub open spec fn spec_index(self) -> u64 {
        match self {
            Root::NIL => 0,
            Root::T => 1,
            Root::CONS => 2,
            Root::FIXNUM => 3,
            Root::SYMBOL => 4,
        }
    }

    /// The address of the root's word.
    #[verifier::when_used_as_spec(spec_index)]
    pub fn index(self) -> (r: u64)
        ensures
            r == self.spec_index(),
    {
        match self {
            Root::NIL => 0,
            Root::T => 1,
            Root::CONS => 2,
            Root::FIXNUM => 3,
            Root::SYMBOL => 4,
        }
    }
}

/// The type a word's tag names.
#[derive(PartialEq, Eq, Structural, Clone, Copy, Debug)]
pub enum WordType {
    Undefined,
    Fixnum,
    Symbol,
    Cons,
    Function,
    Closure,
    Character,
    String,
    Vector,
    Float,
}

impl WordType {
    pub open spec fn spec_code(self) -> u8 {
        match self {
            WordType::Undefined => 0,
            WordType::Fixnum => 1,
            WordType::Symbol => 2,
            WordType::Cons => 3,
            WordType::Function => 4,
            WordType::Closure => 5,
            WordType::Character => 6,
            WordType::String => 7,
            WordType::Vector => 8,
            WordType::Float => 9,
        }
    }

    /// The tag number of the type.
    #[verifier::when_used_as_spec(spec_code)]
    pub fn code(self) -> (r: u8)
        ensures
            r == self.spec_code(),
    {
        match self {
            WordType::Undefined => 0,
            WordType::Fixnum => 1,
            WordType::Symbol => 2,
            WordType::Cons => 3,
            WordType::Function => 4,
            WordType::Closure => 5,
            WordType::Character => 6,
            WordType::String => 7,
            WordType::Vector => 8,
            WordType::Float => 9,
        }
    }

    pub open spec fn spec_from_code(c: u8) -> Option<WordType> {
        if c == 0 {
            Some(WordType::Undefined)
        } else if c == 1 {
            Some(WordType::Fixnum)
        } else if c == 2 {
            Some(WordType::Symbol)
        } else if c == 3 {
            Some(WordType::Cons)
        } else if c == 4 {
            Some(WordType::Function)
        } else if c == 5 {
            Some(WordType::Closure)
        } else if c == 6 {
            Some(WordType::Character)
        } else if c == 7 {
            Some(WordType::String)
        } else if c == 8 {
            Some(WordType::Vector)
        } else if c == 9 {
            Some(WordType::Float)
        } else {
            None
        }
    }

    /// The type with tag number `c`, if there is one.
    pub fn from_code(c: u8) -> (r: Option<WordType>)
        ensures
            r == Self::spec_from_code(c),
    {
        match c {
            0 => Some(WordType::Undefined),
            1 => Some(WordType::Fixnum),
            2 => Some(WordType::Symbol),
            3 => Some(WordType::Cons),
            4 => Some(WordType::Function),
            5 => Some(WordType::Closure),
            6 => Some(WordType::Character),
            7 => Some(WordType::String),
            8 => Some(WordType::Vector),
            9 => Some(WordType::Float),
            _ => None,
        }
    }
}

/// The bits a payload keeps: the low 56.
pub const PAYLOAD_MASK: u64 = 0x00ff_ffff_ffff_ffff;

/// A tagged word: a type and a 56-bit payload.
#[derive(PartialEq, Eq, Structural, Clone, Copy, Debug)]
pub struct Word {
    pub tag: WordType,
    pub payload: u64,
}

/// The word of type `tag` with the low 56 bits of `payload`.
pub open spec fn make_word(tag: WordType, payload: u64) -> Word {
    Word { tag, payload: payload & PAYLOAD_MASK }
}

/// The raw bits of a word: the tag in the top byte, the payload below.
pub open spec fn word_bits(w: Word) -> u64 {
    ((w.tag.spec_code() as u64) << 56u64) | w.payload
}

/// The word that raw bits stand for, or the unknown tag.
pub open spec fn word_from_bits(v: u64) -> Result<Word, u8> {
    match WordType::spec_from_code((v >> 56u64) as u8) {
        Some(t) => Ok(Word { tag: t, payload: v & PAYLOAD_MASK }),
        None => Err((v >> 56u64) as u8),
    }
}

impl Word {
    pub open spec fn spec_tag(self) -> WordType {
        self.tag
    }

    pub open spec fn spec_payload(self) -> u64 {
        self.payload
    }

    pub fn undefined() -> (r: Word)
        ensures
            r == make_word(WordType::Undefined, 0),
    {
        assert(0u64 & PAYLOAD_MASK == 0) by (bit_vector);
        Word { tag: WordType::Undefined, payload: 0 }
    }

    pub fn new(tag: WordType, payload: u64) -> (r: Self)
        ensures
            r == make_word(tag, payload),
    {
        Self { tag, payload: payload & 0x00ff_ffff_ffff_ffff }
    }
}

impl TryFrom<u64> for Word {
    type Error = u8;

    fn try_from(value: u64) -> (r: Result<Self, Self::Error>) {
        assert(value >> 56u64 < 256) by (bit_vector);
        let raw_tag = value >> 56;
        let payload = value & PAYLOAD_MASK;
        match WordType::from_code(raw_tag as u8) {
            Some(tag) => Ok(Word { tag, payload }),
            None => Err(raw_tag as u8),
        }
    }
}

impl vstd::std_specs::convert::TryFromSpecImpl<u64> for Word {
    open spec fn obeys_try_from_spec() -> bool {
        true
    }

    open spec fn try_from_spec(v: u64) -> Result<Self, u8> {
        word_from_bits(v)
    }
}

impl From<Word> for u64 {
    fn from(value: Word) -> (r: u64) {
        let tag = value.tag;
        let payload = value.payload;
        ((tag.code() as u64) << 56) | payload
    }
}

impl vstd::std_specs::convert::FromSpecImpl<Word> for u64 {
    open spec fn obeys_from_spec() -> bool {
        true
    }

    open spec fn from_spec(v: Word) -> u64 {
        word_bits(v)
    }
}

/// One of the sixteen tagged registers.
#[derive(PartialEq, Eq, Debug, Clone, Copy)]
pub struct Register(pub usize);

/// One of the four address registers.
#[derive(PartialEq, Eq, Debug, Clone, Copy)]
pub struct AddressRegister(pub usize);

#[derive(Debug, Clone, Copy, PartialEq, Eq)]
pub enum Instruction {
    Halt,
    Nop,
    JumpAdr { target: AddressRegister },
    JumpReg { target: Register },
    JumpImm { target: u64 },
    JumpRel { offset: i64 },
    JumpIfAdr { condition: Register, target: AddressRegister },
    JumpIfReg { condition: Register, target: Register },
    JumpIfImm { condition: Register, target: u64 },
    JumpIfRel { condition: Register, offset: i64 },
    JumpIfNotAdr { condition: Register, target: AddressRegister },
    JumpIfNotReg { condition: Register, target: Register },
    JumpIfNotImm { condition: Register, target: u64 },
    JumpIfNotRel { condition: Register, offset: i64 },
    CallAdr { target: AddressRegister },
    CallReg { target: Register },
    CallImm { target: u64 },
    CallRel { offset: i64 },
    Return,
    MakeClosure { dst: Register, code: AddressRegister },
    Eq { dst: Register, op1: Register, op2: Register },
    Ne { dst: Register, op1: Register, op2: Register },
    Gt { dst: Register, op1: Register, op2: Register },
    Gte { dst: Register, op1: Register, op2: Register },
    Lt { dst: Register, op1: Register, op2: Register },
    Lte { dst: Register, op1: Register, op2: Register },
    Cons { car: Register, cdr: Register },
    Car { dst: Register, src: Register },
    Cdr { dst: Register, src: Register },
    SetCar { dst: Register, val: Register },
    SetCdr { dst: Register, val: Register },
    Uncons { car: Register, cdr: Register, src: Register },
    Add { dst: Register, op1: Register, op2: Register },
    Sub { dst: Register, op1: Register, op2: Register },
    Mul { dst: Register, op1: Register, op2: Register },
    Div { dst: Register, op1: Register, op2: Register },
    IDiv { div: Register, rem: Register, op1: Register, op2: Register },
    LoadPc { dst: AddressRegister },
    PushPc,
    PopR { dst: Register },
    PushR { src: Register },
    PopA { dst: AddressRegister },
    PushA { src: AddressRegister },
    LoadChar { dst: Register, val: u64 },
    LoadFixnum { dst: Register, val: u64 },
    LoadRoot { dst: Register, root: Root },
    LoadAddress { dst: AddressRegister, address: u64 },
    Store { address: AddressRegister, value: Register },
    StoreOffset { base: AddressRegister, offset: i64, value: Register },
    LoadCons { dst: Register, address: AddressRegister },
}

/// Byte `k` of `w`, counting from the least significant.
pub open spec fn byte_of(w: u64, k: u64) -> u64 {
    (w >> (8 * k)) & 0xff
}

pub open spec fn encoded(i: Instruction) -> (u64, u64) {
    match i {
        Instruction::Halt => ((0u64) as u64, 0u64),
        Instruction::Nop => ((1u64) as u64, 0u64),
        Instruction::JumpAdr { target } => ((2u64 | ((((target.0 as u8) + 16u8) as u64) << 8u64)) as u64, 0u64),
        Instruction::JumpReg { target } => ((3u64 | (((target.0 as u8) as u64) << 8u64)) as u64, 0u64),
        Instruction::JumpImm { target } => ((4u64) as u64, target),
        Instruction::JumpRel { offset } => ((5u64) as u64, offset as u64),
        Instruction::JumpIfAdr { target, condition } => ((6u64 | ((((target.0 as u8) + 16u8) as u64) << 8u64) | (((condition.0 as u8) as u64) << 16u64)) as u64, 0u64),
        Instruction::JumpIfReg { target, condition } => ((7u64 | (((target.0 as u8) as u64) << 8u64) | (((condition.0 as u8) as u64) << 16u64)) as u64, 0u64),
        Instruction::JumpIfImm { condition, target } => ((8u64 | (((condition.0 as u8) as u64) << 8u64)) as u64, target),
        Instruction::JumpIfRel { condition, offset } => ((9u64 | (((condition.0 as u8) as u64) << 8u64)) as u64, offset as u64),
        Instruction::JumpIfNotAdr { target, condition } => ((10u64 | ((((target.0 as u8) + 16u8) as u64) << 8u64) | (((condition.0 as u8) as u64) << 16u64)) as u64, 0u64),
        Instruction::JumpIfNotReg { target, condition } => ((11u64 | (((target.0 as u8) as u64) << 8u64) | (((condition.0 as u8) as u64) << 16u64)) as u64, 0u64),
        Instruction::JumpIfNotImm { condition, target } => ((12u64 | (((condition.0 as u8) as u64) << 8u64)) as u64, target),
        Instruction::JumpIfNotRel { condition, offset } => ((13u64 | (((condition.0 as u8) as u64) << 8u64)) as u64, offset as u64),
        Instruction::CallAdr { target } => ((14u64 | ((((target.0 as u8) + 16u8) as u64) << 8u64)) as u64, 0u64),
        Instruction::CallReg { target } => ((15u64 | (((target.0 as u8) as u64) << 8u64)) as u64, 0u64),
        Instruction::CallImm { target } => ((16u64) as u64, target),
        Instruction::CallRel { offset } => ((17u64) as u64, offset as u64),
        Instruction::Return => ((18u64) as u64, 0u64),
        Instruction::MakeClosure { dst, code } => ((19u64 | (((dst.0 as u8) as u64) << 8u64) | ((((code.0 as u8) + 16u8) as u64) << 16u64)) as u64, 0u64),
        Instruction::Eq { dst, op1, op2 } => ((20u64 | (((dst.0 as u8) as u64) << 8u64) | (((op1.0 as u8) as u64) << 16u64) | (((op2.0 as u8) as u64) << 24u64)) as u64, 0u64),
        Instruction::Ne { dst, op1, op2 } => ((21u64 | (((dst.0 as u8) as u64) << 8u64) | (((op1.0 as u8) as u64) << 16u64) | (((op2.0 as u8) as u64) << 24u64)) as u64, 0u64),
        Instruction::Gt { dst, op1, op2 } => ((22u64 | (((dst.0 as u8) as u64) << 8u64) | (((op1.0 as u8) as u64) << 16u64) | (((op2.0 as u8) as u64) << 24u64)) as u64, 0u64),
        Instruction::Gte { dst, op1, op2 } => ((23u64 | (((dst.0 as u8) as u64) << 8u64) | (((op1.0 as u8) as u64) << 16u64) | (((op2.0 as u8) as u64) << 24u64)) as u64, 0u64),
        Instruction::Lt { dst, op1, op2 } => ((24u64 | (((dst.0 as u8) as u64) << 8u64) | (((op1.0 as u8) as u64) << 16u64) | (((op2.0 as u8) as u64) << 24u64)) as u64, 0u64),
        Instruction::Lte { dst, op1, op2 } => ((25u64 | (((dst.0 as u8) as u64) << 8u64) | (((op1.0 as u8) as u64) << 16u64) | (((op2.0 as u8) as u64) << 24u64)) as u64, 0u64),
        Instruction::Cons { car, cdr } => ((26u64 | (((car.0 as u8) as u64) << 8u64) | (((cdr.0 as u8) as u64) << 16u64)) as u64, 0u64),
        Instruction::Car { dst, src } => ((27u64 | (((dst.0 as u8) as u64) << 8u64) | (((src.0 as u8) as u64) << 16u64)) as u64, 0u64),
        Instruction::Cdr { dst, src } => ((28u64 | (((dst.0 as u8) as u64) << 8u64) | (((src.0 as u8) as u64) << 16u64)) as u64, 0u64),
        Instruction::SetCar { dst, val } => ((29u64 | (((dst.0 as u8) as u64) << 8u64) | (((val.0 as u8) as u64) << 16u64)) as u64, 0u64),
        Instruction::SetCdr { dst, val } => ((30u64 | (((dst.0 as u8) as u64) << 8u64) | (((val.0 as u8) as u64) << 16u64)) as u64, 0u64),
        Instruction::Uncons { car, cdr, src } => ((31u64 | (((car.0 as u8) as u64) << 8u64) | (((cdr.0 as u8) as u64) << 16u64) | (((src.0 as u8) as u64) << 24u64)) as u64, 0u64),
        Instruction::Add { dst, op1, op2 } => ((32u64 | (((dst.0 as u8) as u64) << 8u64) | (((op1.0 as u8) as u64) << 16u64) | (((op2.0 as u8) as u64) << 24u64)) as u64, 0u64),
        Instruction::Sub { dst, op1, op2 } => ((33u64 | (((dst.0 as u8) as u64) << 8u64) | (((op1.0 as u8) as u64) << 16u64) | (((op2.0 as u8) as u64) << 24u64)) as u64, 0u64),
        Instruction::Mul { dst, op1, op2 } => ((34u64 | (((dst.0 as u8) as u64) << 8u64) | (((op1.0 as u8) as u64) << 16u64) | (((op2.0 as u8) as u64) << 24u64)) as u64, 0u64),
        Instruction::Div { dst, op1, op2 } => ((35u64 | (((dst.0 as u8) as u64) << 8u64) | (((op1.0 as u8) as u64) << 16u64) | (((op2.0 as u8) as u64) << 24u64)) as u64, 0u64),
        Instruction::IDiv { div, rem, op1, op2 } => ((36u64 | (((div.0 as u8) as u64) << 8u64) | (((rem.0 as u8) as u64) << 16u64) | (((op1.0 as u8) as u64) << 24u64) | (((op2.0 as u8) as u64) << 32u64)) as u64, 0u64),
        Instruction::LoadPc { dst } => ((37u64 | ((((dst.0 as u8) + 16u8) as u64) << 8u64)) as u64, 0u64),
        Instruction::PushPc => ((38u64) as u64, 0u64),
        Instruction::PopR { dst } => ((39u64 | (((dst.0 as u8) as u64) << 8u64)) as u64, 0u64),
        Instruction::PushR { src } => ((40u64 | (((src.0 as u8) as u64) << 8u64)) as u64, 0u64),
        Instruction::PopA { dst } => ((41u64 | ((((dst.0 as u8) + 16u8) as u64) << 8u64)) as u64, 0u64),
        Instruction::PushA { src } => ((42u64 | ((((src.0 as u8) + 16u8) as u64) << 8u64)) as u64, 0u64),
        Instruction::LoadChar { dst, val } => ((43u64 | (((dst.0 as u8) as u64) << 8u64)) as u64, val),
        Instruction::LoadFixnum { dst, val } => ((44u64 | (((dst.0 as u8) as u64) << 8u64)) as u64, val),
        Instruction::LoadRoot { dst, root } => ((45u64 | (((dst.0 as u8) as u64) << 8u64)) as u64, root.spec_index()),
        Instruction::LoadAddress { dst, address } => ((46u64 | ((((dst.0 as u8) + 16u8) as u64) << 8u64)) as u64, address),
        Instruction::Store { address, value } => ((47u64 | ((((address.0 as u8) + 16u8) as u64) << 8u64) | (((value.0 as u8) as u64) << 16u64)) as u64, 0u64),
        Instruction::StoreOffset { base, value, offset } => ((48u64 | ((((base.0 as u8) + 16u8) as u64) << 8u64) | (((value.0 as u8) as u64) << 16u64)) as u64, offset as u64),
        Instruction::LoadCons { dst, address } => ((49u64 | (((dst.0 as u8) as u64) << 8u64) | ((((address.0 as u8) + 16u8) as u64) << 16u64)) as u64, 0u64),
    }
}

/// The instruction two words hold; `None` where an address register field holds a
/// byte below the address registers' range, which the machine cannot take.
pub open spec fn decoded(lo: u64, hi: u64) -> Option<Result<Instruction, Trap>> {
    let op = byte_of(lo, 0);
    if op == 0 {
        Some(Ok(Instruction::Halt))
    } else if op == 1 {
        Some(Ok(Instruction::Nop))
    } else if op == 2 {
        if byte_of(lo, 1) >= 16 {
            Some(Ok(Instruction::JumpAdr { target: AddressRegister((byte_of(lo, 1) - 16) as usize) }))
        } else {
            None
        }
    } else if op == 3 {
        Some(Ok(Instruction::JumpReg { target: Register(byte_of(lo, 1) as usize) }))
    } else if op == 4 {
        Some(Ok(Instruction::JumpImm { target: hi }))
    } else if op == 5 {
        Some(Ok(Instruction::JumpRel { offset: hi as i64 }))
    } else if op == 6 {
        if byte_of(lo, 1) >= 16 {
            Some(Ok(Instruction::JumpIfAdr { target: AddressRegister((byte_of(lo, 1) - 16) as usize), condition: Register(byte_of(lo, 2) as usize) }))
        } else {
            None
        }
    } else if op == 7 {
        Some(Ok(Instruction::JumpIfReg { target: Register(byte_of(lo, 1) as usize), condition: Register(byte_of(lo, 2) as usize) }))
    } else if op == 8 {
        Some(Ok(Instruction::JumpIfImm { condition: Register(byte_of(lo, 1) as usize), target: hi }))
    } else if op == 9 {
        Some(Ok(Instruction::JumpIfRel { condition: Register(byte_of(lo, 1) as usize), offset: hi as i64 }))
    } else if op == 10 {
        if byte_of(lo, 1) >= 16 {
            Some(Ok(Instruction::JumpIfNotAdr { target: AddressRegister((byte_of(lo, 1) - 16) as usize), condition: Register(byte_of(lo, 2) as usize) }))
        } else {
            None
        }
    } else if op == 11 {
        Some(Ok(Instruction::JumpIfNotReg { target: Register(byte_of(lo, 1) as usize), condition: Register(byte_of(lo, 2) as usize) }))
    } else if op == 12 {
        Some(Ok(Instruction::JumpIfNotImm { condition: Register(byte_of(lo, 1) as usize), target: hi }))
    } else if op == 13 {
        Some(Ok(Instruction::JumpIfNotRel { condition: Register(byte_of(lo, 1) as usize), offset: hi as i64 }))
    } else if op == 14 {
        if byte_of(lo, 1) >= 16 {
            Some(Ok(Instruction::CallAdr { target: AddressRegister((byte_of(lo, 1) - 16) as usize) }))
        } else {
            None
        }
    } else if op == 15 {
        Some(Ok(Instruction::CallReg { target: Register(byte_of(lo, 1) as usize) }))
    } else if op == 16 {
        Some(Ok(Instruction::CallImm { target: hi }))
    } else if op == 17 {
        Some(Ok(Instruction::CallRel { offset: hi as i64 }))
    } else if op == 18 {
        Some(Ok(Instruction::Return))
    } else if op == 19 {
        if byte_of(lo, 2) >= 16 {
            Some(Ok(Instruction::MakeClosure { dst: Register(byte_of(lo, 1) as usize), code: AddressRegister((byte_of(lo, 2) - 16) as usize) }))
        } else {
            None
        }
    } else if op == 20 {
        Some(Ok(Instruction::Eq { dst: Register(byte_of(lo, 1) as usize), op1: Register(byte_of(lo, 2) as usize), op2: Register(byte_of(lo, 3) as usize) }))
    } else if op == 21 {
        Some(Ok(Instruction::Ne { dst: Register(byte_of(lo, 1) as usize), op1: Register(byte_of(lo, 2) as usize), op2: Register(byte_of(lo, 3) as usize) }))
    } else if op == 22 {
        Some(Ok(Instruction::Gt { dst: Register(byte_of(lo, 1) as usize), op1: Register(byte_of(lo, 2) as usize), op2: Register(byte_of(lo, 3) as usize) }))
    } else if op == 23 {
        Some(Ok(Instruction::Gte { dst: Register(byte_of(lo, 1) as usize), op1: Register(byte_of(lo, 2) as usize), op2: Register(byte_of(lo, 3) as usize) }))
    } else if op == 24 {
        Some(Ok(Instruction::Lt { dst: Register(byte_of(lo, 1) as usize), op1: Register(byte_of(lo, 2) as usize), op2: Register(byte_of(lo, 3) as usize) }))
    } else if op == 25 {
        Some(Ok(Instruction::Lte { dst: Register(byte_of(lo, 1) as usize), op1: Register(byte_of(lo, 2) as usize), op2: Register(byte_of(lo, 3) as usize) }))
    } else if op == 26 {
        Some(Ok(Instruction::Cons { car: Register(byte_of(lo, 1) as usize), cdr: Register(byte_of(lo, 2) as usize) }))
    } else if op == 27 {
        Some(Ok(Instruction::Car { dst: Register(byte_of(lo, 1) as usize), src: Register(byte_of(lo, 2) as usize) }))
    } else if op == 28 {
        Some(Ok(Instruction::Cdr { dst: Register(byte_of(lo, 1) as usize), src: Register(byte_of(lo, 2) as usize) }))
    } else if op == 29 {
        Some(Ok(Instruction::SetCar { dst: Register(byte_of(lo, 1) as usize), val: Register(byte_of(lo, 2) as usize) }))
    } else if op == 30 {
        Some(Ok(Instruction::SetCdr { dst: Register(byte_of(lo, 1) as usize), val: Register(byte_of(lo, 2) as usize) }))
    } else if op == 31 {
        Some(Ok(Instruction::Uncons { car: Register(byte_of(lo, 1) as usize), cdr: Register(byte_of(lo, 2) as usize), src: Register(byte_of(lo, 3) as usize) }))
    } else if op == 32 {
        Some(Ok(Instruction::Add { dst: Register(byte_of(lo, 1) as usize), op1: Register(byte_of(lo, 2) as usize), op2: Register(byte_of(lo, 3) as usize) }))
    } else if op == 33 {
        Some(Ok(Instruction::Sub { dst: Register(byte_of(lo, 1) as usize), op1: Register(byte_of(lo, 2) as usize), op2: Register(byte_of(lo, 3) as usize) }))
    } else if op == 34 {
        Some(Ok(Instruction::Mul { dst: Register(byte_of(lo, 1) as usize), op1: Register(byte_of(lo, 2) as usize), op2: Register(byte_of(lo, 3) as usize) }))
    } else if op == 35 {
        Some(Ok(Instruction::Div { dst: Register(byte_of(lo, 1) as usize), op1: Register(byte_of(lo, 2) as usize), op2: Register(byte_of(lo, 3) as usize) }))
    } else if op == 36 {
        Some(Ok(Instruction::IDiv { div: Register(byte_of(lo, 1) as usize), rem: Register(byte_of(lo, 2) as usize), op1: Register(byte_of(lo, 3) as usize), op2: Register(byte_of(lo, 4) as usize) }))
    } else if op == 37 {
        if byte_of(lo, 1) >= 16 {
            Some(Ok(Instruction::LoadPc { dst: AddressRegister((byte_of(lo, 1) - 16) as usize) }))
        } else {
            None
        }
    } else if op == 38 {
        Some(Ok(Instruction::PushPc))
    } else if op == 39 {
        Some(Ok(Instruction::PopR { dst: Register(byte_of(lo, 1) as usize) }))
    } else if op == 40 {
        Some(Ok(Instruction::PushR { src: Register(byte_of(lo, 1) as usize) }))
    } else if op == 41 {
        if byte_of(lo, 1) >= 16 {
            Some(Ok(Instruction::PopA { dst: AddressRegister((byte_of(lo, 1) - 16) as usize) }))
        } else {
            None
        }
    } else if op == 42 {
        if byte_of(lo, 1) >= 16 {
            Some(Ok(Instruction::PushA { src: AddressRegister((byte_of(lo, 1) - 16) as usize) }))
        } else {
            None
        }
    } else if op == 43 {
        Some(Ok(Instruction::LoadChar { dst: Register(byte_of(lo, 1) as usize), val: hi }))
    } else if op == 44 {
        Some(Ok(Instruction::LoadFixnum { dst: Register(byte_of(lo, 1) as usize), val: hi }))
    } else if op == 45 {
        if hi == 0 {
            Some(Ok(Instruction::LoadRoot { dst: Register(byte_of(lo, 1) as usize), root: Root::NIL }))
        } else if hi == 1 {
            Some(Ok(Instruction::LoadRoot { dst: Register(byte_of(lo, 1) as usize), root: Root::T }))
        } else {
            Some(Err(Trap::InvalidInstruction))
        }
    } else if op == 46 {
        if byte_of(lo, 1) >= 16 {
            Some(Ok(Instruction::LoadAddress { dst: AddressRegister((byte_of(lo, 1) - 16) as usize), address: hi }))
        } else {
            None
        }
    } else if op == 47 {
        if byte_of(lo, 1) >= 16 {
            Some(Ok(Instruction::Store { address: AddressRegister((byte_of(lo, 1) - 16) as usize), value: Register(byte_of(lo, 2) as usize) }))
        } else {
            None
        }
    } else if op == 48 {
        if byte_of(lo, 1) >= 16 {
            Some(Ok(Instruction::StoreOffset { base: AddressRegister((byte_of(lo, 1) - 16) as usize), value: Register(byte_of(lo, 2) as usize), offset: hi as i64 }))
        } else {
            None
        }
    } else if op == 49 {
        if byte_of(lo, 2) >= 16 {
            Some(Ok(Instruction::LoadCons { dst: Register(byte_of(lo, 1) as usize), address: AddressRegister((byte_of(lo, 2) - 16) as usize) }))
        } else {
            None
        }
    } else {
        Some(Err(Trap::InvalidInstruction))
    }
}

impl Instruction {
    /// Whether every address register field fits its byte.
    pub open spec fn encodable(self) -> bool {
        match self {
            Instruction::JumpAdr { target } => (target.0 as u8) < 240,
            Instruction::JumpIfAdr { target, condition } => (target.0 as u8) < 240,
            Instruction::JumpIfNotAdr { target, condition } => (target.0 as u8) < 240,
            Instruction::CallAdr { target } => (target.0 as u8) < 240,
            Instruction::MakeClosure { dst, code } => (code.0 as u8) < 240,
            Instruction::LoadPc { dst } => (dst.0 as u8) < 240,
            Instruction::PopA { dst } => (dst.0 as u8) < 240,
            Instruction::PushA { src } => (src.0 as u8) < 240,
            Instruction::LoadAddress { dst, address } => (dst.0 as u8) < 240,
            Instruction::Store { address, value } => (address.0 as u8) < 240,
            Instruction::StoreOffset { base, value, offset } => (base.0 as u8) < 240,
            Instruction::LoadCons { dst, address } => (address.0 as u8) < 240,
            _ => true,
        }
    }

    /// The two words of the instruction.
    pub fn encode(&self) -> (r: (u64, u64))
        requires
            self.encodable(),
        ensures
            r == encoded(*self),
    {
        match *self {
            Instruction::Halt => (0u64, 0u64),
            Instruction::Nop => (1u64, 0u64),
            Instruction::JumpAdr { target } => (2u64 | ((((target.0 as u8) + 16u8) as u64) << 8u64), 0u64),
            Instruction::JumpReg { target } => (3u64 | (((target.0 as u8) as u64) << 8u64), 0u64),
            Instruction::JumpImm { target } => (4u64, target),
            Instruction::JumpRel { offset } => (5u64, offset as u64),
            Instruction::JumpIfAdr { target, condition } => (6u64 | ((((target.0 as u8) + 16u8) as u64) << 8u64) | (((condition.0 as u8) as u64) << 16u64), 0u64),
            Instruction::JumpIfReg { target, condition } => (7u64 | (((target.0 as u8) as u64) << 8u64) | (((condition.0 as u8) as u64) << 16u64), 0u64),
            Instruction::JumpIfImm { condition, target } => (8u64 | (((condition.0 as u8) as u64) << 8u64), target),
            Instruction::JumpIfRel { condition, offset } => (9u64 | (((condition.0 as u8) as u64) << 8u64), offset as u64),
            Instruction::JumpIfNotAdr { target, condition } => (10u64 | ((((target.0 as u8) + 16u8) as u64) << 8u64) | (((condition.0 as u8) as u64) << 16u64), 0u64),
            Instruction::JumpIfNotReg { target, condition } => (11u64 | (((target.0 as u8) as u64) << 8u64) | (((condition.0 as u8) as u64) << 16u64), 0u64),
            Instruction::JumpIfNotImm { condition, target } => (12u64 | (((condition.0 as u8) as u64) << 8u64), target),
            Instruction::JumpIfNotRel { condition, offset } => (13u64 | (((condition.0 as u8) as u64) << 8u64), offset as u64),
            Instruction::CallAdr { target } => (14u64 | ((((target.0 as u8) + 16u8) as u64) << 8u64), 0u64),
            Instruction::CallReg { target } => (15u64 | (((target.0 as u8) as u64) << 8u64), 0u64),
            Instruction::CallImm { target } => (16u64, target),
            Instruction::CallRel { offset } => (17u64, offset as u64),
            Instruction::Return => (18u64, 0u64),
            Instruction::MakeClosure { dst, code } => (19u64 | (((dst.0 as u8) as u64) << 8u64) | ((((code.0 as u8) + 16u8) as u64) << 16u64), 0u64),
            Instruction::Eq { dst, op1, op2 } => (20u64 | (((dst.0 as u8) as u64) << 8u64) | (((op1.0 as u8) as u64) << 16u64) | (((op2.0 as u8) as u64) << 24u64), 0u64),
            Instruction::Ne { dst, op1, op2 } => (21u64 | (((dst.0 as u8) as u64) << 8u64) | (((op1.0 as u8) as u64) << 16u64) | (((op2.0 as u8) as u64) << 24u64), 0u64),
            Instruction::Gt { dst, op1, op2 } => (22u64 | (((dst.0 as u8) as u64) << 8u64) | (((op1.0 as u8) as u64) << 16u64) | (((op2.0 as u8) as u64) << 24u64), 0u64),
            Instruction::Gte { dst, op1, op2 } => (23u64 | (((dst.0 as u8) as u64) << 8u64) | (((op1.0 as u8) as u64) << 16u64) | (((op2.0 as u8) as u64) << 24u64), 0u64),
            Instruction::Lt { dst, op1, op2 } => (24u64 | (((dst.0 as u8) as u64) << 8u64) | (((op1.0 as u8) as u64) << 16u64) | (((op2.0 as u8) as u64) << 24u64), 0u64),
            Instruction::Lte { dst, op1, op2 } => (25u64 | (((dst.0 as u8) as u64) << 8u64) | (((op1.0 as u8) as u64) << 16u64) | (((op2.0 as u8) as u64) << 24u64), 0u64),
            Instruction::Cons { car, cdr } => (26u64 | (((car.0 as u8) as u64) << 8u64) | (((cdr.0 as u8) as u64) << 16u64), 0u64),
            Instruction::Car { dst, src } => (27u64 | (((dst.0 as u8) as u64) << 8u64) | (((src.0 as u8) as u64) << 16u64), 0u64),
            Instruction::Cdr { dst, src } => (28u64 | (((dst.0 as u8) as u64) << 8u64) | (((src.0 as u8) as u64) << 16u64), 0u64),
            Instruction::SetCar { dst, val } => (29u64 | (((dst.0 as u8) as u64) << 8u64) | (((val.0 as u8) as u64) << 16u64), 0u64),
            Instruction::SetCdr { dst, val } => (30u64 | (((dst.0 as u8) as u64) << 8u64) | (((val.0 as u8) as u64) << 16u64), 0u64),
            Instruction::Uncons { car, cdr, src } => (31u64 | (((car.0 as u8) as u64) << 8u64) | (((cdr.0 as u8) as u64) << 16u64) | (((src.0 as u8) as u64) << 24u64), 0u64),
            Instruction::Add { dst, op1, op2 } => (32u64 | (((dst.0 as u8) as u64) << 8u64) | (((op1.0 as u8) as u64) << 16u64) | (((op2.0 as u8) as u64) << 24u64), 0u64),
            Instruction::Sub { dst, op1, op2 } => (33u64 | (((dst.0 as u8) as u64) << 8u64) | (((op1.0 as u8) as u64) << 16u64) | (((op2.0 as u8) as u64) << 24u64), 0u64),
            Instruction::Mul { dst, op1, op2 } => (34u64 | (((dst.0 as u8) as u64) << 8u64) | (((op1.0 as u8) as u64) << 16u64) | (((op2.0 as u8) as u64) << 24u64), 0u64),
            Instruction::Div { dst, op1, op2 } => (35u64 | (((dst.0 as u8) as u64) << 8u64) | (((op1.0 as u8) as u64) << 16u64) | (((op2.0 as u8) as u64) << 24u64), 0u64),
            Instruction::IDiv { div, rem, op1, op2 } => (36u64 | (((div.0 as u8) as u64) << 8u64) | (((rem.0 as u8) as u64) << 16u64) | (((op1.0 as u8) as u64) << 24u64) | (((op2.0 as u8) as u64) << 32u64), 0u64),
            Instruction::LoadPc { dst } => (37u64 | ((((dst.0 as u8) + 16u8) as u64) << 8u64), 0u64),
            Instruction::PushPc => (38u64, 0u64),
            Instruction::PopR { dst } => (39u64 | (((dst.0 as u8) as u64) << 8u64), 0u64),
            Instruction::PushR { src } => (40u64 | (((src.0 as u8) as u64) << 8u64), 0u64),
            Instruction::PopA { dst } => (41u64 | ((((dst.0 as u8) + 16u8) as u64) << 8u64), 0u64),
            Instruction::PushA { src } => (42u64 | ((((src.0 as u8) + 16u8) as u64) << 8u64), 0u64),
            Instruction::LoadChar { dst, val } => (43u64 | (((dst.0 as u8) as u64) << 8u64), val),
            Instruction::LoadFixnum { dst, val } => (44u64 | (((dst.0 as u8) as u64) << 8u64), val),
            Instruction::LoadRoot { dst, root } => (45u64 | (((dst.0 as u8) as u64) << 8u64), root.index()),
            Instruction::LoadAddress { dst, address } => (46u64 | ((((dst.0 as u8) + 16u8) as u64) << 8u64), address),
            Instruction::Store { address, value } => (47u64 | ((((address.0 as u8) + 16u8) as u64) << 8u64) | (((value.0 as u8) as u64) << 16u64), 0u64),
            Instruction::StoreOffset { base, value, offset } => (48u64 | ((((base.0 as u8) + 16u8) as u64) << 8u64) | (((value.0 as u8) as u64) << 16u64), offset as u64),
            Instruction::LoadCons { dst, address } => (49u64 | (((dst.0 as u8) as u64) << 8u64) | ((((address.0 as u8) + 16u8) as u64) << 16u64), 0u64),
        }
    }

    /// The instruction in two words.
    fn decode(lo: u64, hi: u64) -> (r: Result<Self, Trap>)
        requires
            decoded(lo, hi) is Some,
        ensures
            decoded(lo, hi) == Some(r),
    {
        let op = lo & 0xff;
        let b1 = (lo >> 8u64) & 0xff;
        let b2 = (lo >> 16u64) & 0xff;
        let b3 = (lo >> 24u64) & 0xff;
        let b4 = (lo >> 32u64) & 0xff;
        assert(lo >> 0u64 == lo) by (bit_vector);
        assert(op == byte_of(lo, 0));
        assert(b1 == byte_of(lo, 1));
        assert(b2 == byte_of(lo, 2));
        assert(b3 == byte_of(lo, 3));
        assert(b4 == byte_of(lo, 4));
        match op {
            0 => Ok(Self::Halt),
            1 => Ok(Self::Nop),
            2 => Ok(Self::JumpAdr { target: AddressRegister((b1 - 16) as usize) }),
            3 => Ok(Self::JumpReg { target: Register(b1 as usize) }),
            4 => Ok(Self::JumpImm { target: hi }),
            5 => Ok(Self::JumpRel { offset: hi as i64 }),
            6 => Ok(Self::JumpIfAdr { target: AddressRegister((b1 - 16) as usize), condition: Register(b2 as usize) }),
            7 => Ok(Self::JumpIfReg { target: Register(b1 as usize), condition: Register(b2 as usize) }),
            8 => Ok(Self::JumpIfImm { condition: Register(b1 as usize), target: hi }),
            9 => Ok(Self::JumpIfRel { condition: Register(b1 as usize), offset: hi as i64 }),
            10 => Ok(Self::JumpIfNotAdr { target: AddressRegister((b1 - 16) as usize), condition: Register(b2 as usize) }),
            11 => Ok(Self::JumpIfNotReg { target: Register(b1 as usize), condition: Register(b2 as usize) }),
            12 => Ok(Self::JumpIfNotImm { condition: Register(b1 as usize), target: hi }),
            13 => Ok(Self::JumpIfNotRel { condition: Register(b1 as usize), offset: hi as i64 }),
            14 => Ok(Self::CallAdr { target: AddressRegister((b1 - 16) as usize) }),
            15 => Ok(Self::CallReg { target: Register(b1 as usize) }),
            16 => Ok(Self::CallImm { target: hi }),
            17 => Ok(Self::CallRel { offset: hi as i64 }),
            18 => Ok(Self::Return),
            19 => Ok(Self::MakeClosure { dst: Register(b1 as usize), code: AddressRegister((b2 - 16) as usize) }),
            20 => Ok(Self::Eq { dst: Register(b1 as usize), op1: Register(b2 as usize), op2: Register(b3 as usize) }),
            21 => Ok(Self::Ne { dst: Register(b1 as usize), op1: Register(b2 as usize), op2: Register(b3 as usize) }),
            22 => Ok(Self::Gt { dst: Register(b1 as usize), op1: Register(b2 as usize), op2: Register(b3 as usize) }),
            23 => Ok(Self::Gte { dst: Register(b1 as usize), op1: Register(b2 as usize), op2: Register(b3 as usize) }),
            24 => Ok(Self::Lt { dst: Register(b1 as usize), op1: Register(b2 as usize), op2: Register(b3 as usize) }),
            25 => Ok(Self::Lte { dst: Register(b1 as usize), op1: Register(b2 as usize), op2: Register(b3 as usize) }),
            26 => Ok(Self::Cons { car: Register(b1 as usize), cdr: Register(b2 as usize) }),
            27 => Ok(Self::Car { dst: Register(b1 as usize), src: Register(b2 as usize) }),
            28 => Ok(Self::Cdr { dst: Register(b1 as usize), src: Register(b2 as usize) }),
            29 => Ok(Self::SetCar { dst: Register(b1 as usize), val: Register(b2 as usize) }),
            30 => Ok(Self::SetCdr { dst: Register(b1 as usize), val: Register(b2 as usize) }),
            31 => Ok(Self::Uncons { car: Register(b1 as usize), cdr: Register(b2 as usize), src: Register(b3 as usize) }),
            32 => Ok(Self::Add { dst: Register(b1 as usize), op1: Register(b2 as usize), op2: Register(b3 as usize) }),
            33 => Ok(Self::Sub { dst: Register(b1 as usize), op1: Register(b2 as usize), op2: Register(b3 as usize) }),
            34 => Ok(Self::Mul { dst: Register(b1 as usize), op1: Register(b2 as usize), op2: Register(b3 as usize) }),
            35 => Ok(Self::Div { dst: Register(b1 as usize), op1: Register(b2 as usize), op2: Register(b3 as usize) }),
            36 => Ok(Self::IDiv { div: Register(b1 as usize), rem: Register(b2 as usize), op1: Register(b3 as usize), op2: Register(b4 as usize) }),
            37 => Ok(Self::LoadPc { dst: AddressRegister((b1 - 16) as usize) }),
            38 => Ok(Self::PushPc),
            39 => Ok(Self::PopR { dst: Register(b1 as usize) }),
            40 => Ok(Self::PushR { src: Register(b1 as usize) }),
            41 => Ok(Self::PopA { dst: AddressRegister((b1 - 16) as usize) }),
            42 => Ok(Self::PushA { src: AddressRegister((b1 - 16) as usize) }),
            43 => Ok(Self::LoadChar { dst: Register(b1 as usize), val: hi }),
            44 => Ok(Self::LoadFixnum { dst: Register(b1 as usize), val: hi }),
            45 => match hi {
                0 => Ok(Self::LoadRoot { dst: Register(b1 as usize), root: Root::NIL }),
                1 => Ok(Self::LoadRoot { dst: Register(b1 as usize), root: Root::T }),
                _ => Err(Trap::InvalidInstruction),
            },
            46 => Ok(Self::LoadAddress { dst: AddressRegister((b1 - 16) as usize), address: hi }),
            47 => Ok(Self::Store { address: AddressRegister((b1 - 16) as usize), value: Register(b2 as usize) }),
            48 => Ok(Self::StoreOffset { base: AddressRegister((b1 - 16) as usize), value: Register(b2 as usize), offset: hi as i64 }),
            49 => Ok(Self::LoadCons { dst: Register(b1 as usize), address: AddressRegister((b2 - 16) as usize) }),
            _ => Err(Trap::InvalidInstruction),
        }
    }
}

/// Why an instruction could not complete.
#[derive(Debug, PartialEq, Eq, Clone, Copy)]
pub enum Trap {
    TypeError,
    InvalidInstruction,
    Unimplemented,
}

impl Trap {
    pub open spec fn spec_code(self) -> u64 {
        match self {
            Trap::TypeError => 0,
            Trap::InvalidInstruction => 1,
            Trap::Unimplemented => 2,
        }
    }

    /// The number the trap handler finds in register 0.
    #[verifier::when_used_as_spec(spec_code)]
    pub fn code(self) -> (r: u64)
        ensures
            r == self.spec_code(),
    {
        match self {
            Trap::TypeError => 0,
            Trap::InvalidInstruction => 1,
            Trap::Unimplemented => 2,
        }
    }
}

/// Word-addressed memory; reads outside it give 0 and writes outside it are dropped.
pub struct WordMemory {
    pub data: Vec<u64>,
}

pub open spec fn mem_read(m: Seq<u64>, a: u64) -> u64 {
    if a < m.len() {
        m[a as int]
    } else {
        0
    }
}

pub open spec fn mem_write(m: Seq<u64>, a: u64, d: u64) -> Seq<u64> {
    if a < m.len() {
        m.update(a as int, d)
    } else {
        m
    }
}

impl WordMemory {
    /// `size` words of zeros.
    pub fn new(size: usize) -> (r: Self)
        ensures
            r.data@ == Seq::new(size as nat, |i: int| 0u64),
    {
        let data = vec![0u64; size];
        WordMemory { data }
    }

    pub fn read_word(&self, addr: u64) -> (r: u64)
        ensures
            r == mem_read(self.data@, addr),
    {
        if addr < self.data.len() as u64 {
            self.data[addr as usize]
        } else {
            0
        }
    }

    pub fn write_word(&mut self, addr: u64, data: u64)
        ensures
            final(self).data@ == mem_write(old(self).data@, addr, data),
    {
        if addr < self.data.len() as u64 {
            self.data.set(addr as usize, data);
        }
    }
}

/// The processor's registers, as contracts see them.
pub struct WordCpuState {
    pub registers: Seq<Word>,
    pub address: Seq<u64>,
    pub pc: u64,
    pub sp: u64,
    pub env: u64,
    pub halted: bool,
}

#[derive(Debug)]
pub struct Cpu {
    /// Tagged registers.
    pub registers: [Word; 16],
    /// Address registers.
    pub address: [u64; 4],
    /// Program counter.
    pub pc: u64,
    /// Stack pointer.
    pub sp: u64,
    /// Environment pointer.
    pub env: u64,
    pub halted: bool,
}

impl View for Cpu {
    type V = WordCpuState;

    open spec fn view(&self) -> WordCpuState {
        WordCpuState {
            registers: self.registers@,
            address: self.address@,
            pc: self.pc,
            sp: self.sp,
            env: self.env,
            halted: self.halted,
        }
    }
}

impl Default for Cpu {
    fn default() -> (c: Self)
        ensures
            c@.registers == Seq::new(16, |i: int| make_word(WordType::Undefined, 0)),
            c@.address == Seq::new(4, |i: int| 0u64),
            c@.pc == 0,
            c@.sp == 0,
            c@.env == 0,
            !c@.halted,
    {
        let c = Cpu {
            registers: [Word::undefined(); 16],
            address: [0; 4],
            pc: 0,
            sp: 0,
            env: 0,
            halted: false,
        };
        assert(c@.registers =~= Seq::new(16, |i: int| make_word(WordType::Undefined, 0)));
        assert(c@.address =~= Seq::new(4, |i: int| 0u64));
        c
    }
}

pub open spec fn reg_ok(r: Register) -> bool {
    r.0 < 16
}

pub open spec fn areg_ok(a: AddressRegister) -> bool {
    a.0 < 4
}

impl WordCpuState {
    pub open spec fn reg(self, r: Register) -> Word {
        self.registers[r.0 as int]
    }

    pub open spec fn areg(self, a: AddressRegister) -> u64 {
        self.address[a.0 as int]
    }

    pub open spec fn with_reg(self, r: Register, w: Word) -> WordCpuState {
        WordCpuState { registers: self.registers.update(r.0 as int, w), ..self }
    }

    pub open spec fn with_areg(self, a: AddressRegister, v: u64) -> WordCpuState {
        WordCpuState { address: self.address.update(a.0 as int, v), ..self }
    }

    pub open spec fn next_pc(self) -> u64 {
        self.pc.wrapping_add(INSTRUCTION_SIZE)
    }

    /// The register's word, if it has type `t`.
    pub open spec fn reg_as(self, r: Register, t: WordType) -> Result<Word, Trap> {
        if self.reg(r).tag == t {
            Ok(self.reg(r))
        } else {
            Err(Trap::TypeError)
        }
    }
}

/// The word at `a`, which must carry a known tag.
pub open spec fn load_word(m: Seq<u64>, a: u64) -> Result<Word, Trap> {
    match word_from_bits(mem_read(m, a)) {
        Ok(w) => Ok(w),
        Err(_) => Err(Trap::TypeError),
    }
}

/// The T root's word for true, the NIL root's for false.
pub open spec fn machine_bool(m: Seq<u64>, b: bool) -> Result<Word, Trap> {
    if b {
        load_word(m, MemoryLayout::T_ROOT)
    } else {
        load_word(m, MemoryLayout::NIL_ROOT)
    }
}

/// Writes `v` at the stack pointer, then moves it up a word.
pub open spec fn pushed(s: WordCpuState, m: Seq<u64>, v: u64) -> (WordCpuState, Seq<u64>) {
    (WordCpuState { sp: s.sp.wrapping_add(1), ..s }, mem_write(m, s.sp, v))
}

/// Moves the stack pointer down a word and reads the word there.
pub open spec fn popped(s: WordCpuState, m: Seq<u64>) -> (WordCpuState, u64) {
    let sp = s.sp.wrapping_sub(1);
    (WordCpuState { sp, ..s }, mem_read(m, sp))
}

/// The comparisons on fixnum payloads.
pub open spec fn fixnum_comparison(i: Instruction, a: u64, b: u64) -> bool {
    match i {
        Instruction::Gt { .. } => a > b,
        Instruction::Gte { .. } => a >= b,
        Instruction::Lt { .. } => a < b,
        _ => a <= b,
    }
}

/// Whether running `i` stays within the registers and divides by a nonzero value.
pub open spec fn executes(s: WordCpuState, m: Seq<u64>, i: Instruction) -> bool {
    match i {
        Instruction::JumpAdr { target } => areg_ok(target),
        Instruction::JumpIfAdr { condition, target } => areg_ok(target) && reg_ok(condition),
        Instruction::JumpIfNotAdr { condition, target } => areg_ok(target) && reg_ok(condition),
        Instruction::Eq { dst, op1, op2 } => reg_ok(op1) && reg_ok(op2) && (machine_bool(m, s.reg(op1) == s.reg(op2))
            is Ok ==> reg_ok(dst)),
        Instruction::Ne { dst, op1, op2 } => reg_ok(op1) && reg_ok(op2) && (machine_bool(m, s.reg(op1) != s.reg(op2))
            is Ok ==> reg_ok(dst)),
        Instruction::Gt { dst, op1, op2 } | Instruction::Gte { dst, op1, op2 } | Instruction::Lt { dst, op1, op2 }
        | Instruction::Lte { dst, op1, op2 } => reg_ok(op1) && (s.reg_as(op1, WordType::Fixnum) is Ok ==> reg_ok(op2)
            && (s.reg_as(op2, WordType::Fixnum) is Ok ==> (machine_bool(
            m,
            fixnum_comparison(i, s.reg(op1).payload, s.reg(op2).payload),
        ) is Ok ==> reg_ok(dst)))),
        Instruction::Cons { car, cdr } => reg_ok(car) && reg_ok(cdr),
        Instruction::Car { dst, src } => reg_ok(src) && (s.reg_as(src, WordType::Cons) is Ok ==> (load_word(
            m,
            s.reg(src).payload.wrapping_add(ConsLayout::CAR_OFFSET),
        ) is Ok ==> reg_ok(dst))),
        Instruction::Cdr { dst, src } => reg_ok(src) && (s.reg_as(src, WordType::Cons) is Ok ==> (load_word(
            m,
            s.reg(src).payload.wrapping_add(ConsLayout::CDR_OFFSET),
        ) is Ok ==> reg_ok(dst))),
        Instruction::SetCar { dst, val } | Instruction::SetCdr { dst, val } => reg_ok(dst) && (s.reg_as(
            dst,
            WordType::Cons,
        ) is Ok ==> reg_ok(val)),
        Instruction::Uncons { car, cdr, src } => reg_ok(src) && (s.reg_as(src, WordType::Cons) is Ok ==> (load_word(
            m,
            s.reg(src).payload.wrapping_add(ConsLayout::CAR_OFFSET),
        ) is Ok ==> reg_ok(car) && (load_word(m, s.reg(src).payload.wrapping_add(ConsLayout::CDR_OFFSET)) is Ok
            ==> reg_ok(cdr)))),
        Instruction::Add { dst, op1, op2 } | Instruction::Sub { dst, op1, op2 } | Instruction::Mul {
            dst,
            op1,
            op2,
        } => reg_ok(op1) && (s.reg_as(op1, WordType::Fixnum) is Ok ==> reg_ok(op2) && (s.reg_as(
            op2,
            WordType::Fixnum,
        ) is Ok ==> reg_ok(dst))),
        Instruction::Div { dst, op1, op2 } => reg_ok(op1) && (s.reg_as(op1, WordType::Fixnum) is Ok ==> reg_ok(op2)
            && (s.reg_as(op2, WordType::Fixnum) is Ok ==> s.reg(op2).payload != 0 && reg_ok(dst))),
        Instruction::IDiv { div, rem, op1, op2 } => reg_ok(op1) && (s.reg_as(op1, WordType::Fixnum) is Ok ==> reg_ok(
            op2,
        ) && (s.reg_as(op2, WordType::Fixnum) is Ok ==> s.reg(op2).payload != 0 && reg_ok(div) && reg_ok(rem))),
        Instruction::LoadPc { dst } => areg_ok(dst),
        Instruction::PopR { dst } => load_word(m, s.sp.wrapping_sub(1)) is Ok ==> reg_ok(dst),
        Instruction::PushR { src } => reg_ok(src),
        Instruction::PopA { dst } => areg_ok(dst),
        Instruction::PushA { src } => areg_ok(src),
        Instruction::LoadChar { dst, .. } => reg_ok(dst),
        Instruction::LoadFixnum { dst, .. } => reg_ok(dst),
        Instruction::LoadRoot { dst, root } => load_word(m, root.spec_index()) is Ok ==> reg_ok(dst),
        Instruction::LoadAddress { dst, .. } => areg_ok(dst),
        Instruction::Store { address, value } => reg_ok(value) && areg_ok(address),
        Instruction::StoreOffset { base, value, .. } => reg_ok(value) && areg_ok(base),
        Instruction::LoadCons { dst, address } => areg_ok(address) && reg_ok(dst),
        _ => true,
    }
}

/// Sets `dst` from `r` and moves on, or stops with `r`'s trap.
pub open spec fn set_and_continue(s: WordCpuState, m: Seq<u64>, dst: Register, r: Result<Word, Trap>) -> (WordCpuState, Seq<u64>, Result<u64, Trap>) {
    match r {
        Ok(w) => (s.with_reg(dst, w), m, Ok(s.next_pc())),
        Err(t) => (s, m, Err(t)),
    }
}

/// Runs `i`: the new registers and memory, and the next program counter or a trap.
pub open spec fn executed(s: WordCpuState, m: Seq<u64>, i: Instruction) -> (WordCpuState, Seq<u64>, Result<u64, Trap>) {
    let next = s.next_pc();
    match i {
        Instruction::Halt => (WordCpuState { halted: true, ..s }, m, Ok(s.pc)),
        Instruction::Nop => (s, m, Ok(next)),
        Instruction::JumpAdr { target } => (s, m, Ok(s.areg(target))),
        Instruction::JumpIfAdr { condition, target } => match load_word(m, MemoryLayout::NIL_ROOT) {
            Err(t) => (s, m, Err(t)),
            Ok(nil) => if s.reg(condition) == nil {
                (s, m, Ok(next))
            } else {
                (s, m, Ok(s.areg(target)))
            },
        },
        Instruction::JumpIfNotAdr { condition, target } => match load_word(m, MemoryLayout::NIL_ROOT) {
            Err(t) => (s, m, Err(t)),
            Ok(nil) => if s.reg(condition) != nil {
                (s, m, Ok(next))
            } else {
                (s, m, Ok(s.areg(target)))
            },
        },
        Instruction::Return => {
            let (s2, v) = popped(s, m);
            (s2, m, Ok(v))
        },
        Instruction::Eq { dst, op1, op2 } => set_and_continue(s, m, dst, machine_bool(m, s.reg(op1) == s.reg(op2))),
        Instruction::Ne { dst, op1, op2 } => set_and_continue(s, m, dst, machine_bool(m, s.reg(op1) != s.reg(op2))),
        Instruction::Gt { dst, op1, op2 } | Instruction::Gte { dst, op1, op2 } | Instruction::Lt { dst, op1, op2 }
        | Instruction::Lte { dst, op1, op2 } => match s.reg_as(op1, WordType::Fixnum) {
            Err(t) => (s, m, Err(t)),
            Ok(a) => match s.reg_as(op2, WordType::Fixnum) {
                Err(t) => (s, m, Err(t)),
                Ok(b) => set_and_continue(s, m, dst, machine_bool(m, fixnum_comparison(i, a.payload, b.payload))),
            },
        },
        Instruction::Cons { car, cdr } => {
            let (s1, m1) = pushed(s, m, next);
            let (s2, m2) = pushed(s1, m1, word_bits(s.reg(cdr)));
            let (s3, m3) = pushed(s2, m2, word_bits(s.reg(car)));
            let (s4, m4) = pushed(s3, m3, 2);
            let (s5, m5) = pushed(s4, m4, WordType::Cons.spec_code() as u64);
            (s5, m5, Ok(mem_read(m5, MemoryLayout::ALLOC_CONS_VECTOR)))
        },
        Instruction::Car { dst, src } => match s.reg_as(src, WordType::Cons) {
            Err(t) => (s, m, Err(t)),
            Ok(c) => set_and_continue(s, m, dst, load_word(m, c.payload.wrapping_add(ConsLayout::CAR_OFFSET))),
        },
        Instruction::Cdr { dst, src } => match s.reg_as(src, WordType::Cons) {
            Err(t) => (s, m, Err(t)),
            Ok(c) => set_and_continue(s, m, dst, load_word(m, c.payload.wrapping_add(ConsLayout::CDR_OFFSET))),
        },
        Instruction::SetCar { dst, val } => match s.reg_as(dst, WordType::Cons) {
            Err(t) => (s, m, Err(t)),
            Ok(c) => (s, mem_write(m, c.payload.wrapping_add(ConsLayout::CAR_OFFSET), word_bits(s.reg(val))), Ok(next)),
        },
        Instruction::SetCdr { dst, val } => match s.reg_as(dst, WordType::Cons) {
            Err(t) => (s, m, Err(t)),
            Ok(c) => (s, mem_write(m, c.payload.wrapping_add(ConsLayout::CDR_OFFSET), word_bits(s.reg(val))), Ok(next)),
        },
        Instruction::Uncons { car, cdr, src } => match s.reg_as(src, WordType::Cons) {
            Err(t) => (s, m, Err(t)),
            Ok(c) => match load_word(m, c.payload.wrapping_add(ConsLayout::CAR_OFFSET)) {
                Err(t) => (s, m, Err(t)),
                Ok(a) => set_and_continue(
                    s.with_reg(car, a),
                    m,
                    cdr,
                    load_word(m, c.payload.wrapping_add(ConsLayout::CDR_OFFSET)),
                ),
            },
        },
        Instruction::Add { dst, op1, op2 } | Instruction::Sub { dst, op1, op2 } | Instruction::Mul { dst, op1, op2 }
        | Instruction::Div { dst, op1, op2 } => match s.reg_as(op1, WordType::Fixnum) {
            Err(t) => (s, m, Err(t)),
            Ok(a) => match s.reg_as(op2, WordType::Fixnum) {
                Err(t) => (s, m, Err(t)),
                Ok(b) => {
                    let v = match i {
                        Instruction::Add { .. } => a.payload.wrapping_add(b.payload),
                        Instruction::Sub { .. } => a.payload.wrapping_sub(b.payload),
                        Instruction::Mul { .. } => a.payload.wrapping_mul(b.payload),
                        _ => a.payload / b.payload,
                    };
                    (s.with_reg(dst, make_word(WordType::Fixnum, v)), m, Ok(next))
                },
            },
        },
        Instruction::IDiv { div, rem, op1, op2 } => match s.reg_as(op1, WordType::Fixnum) {
            Err(t) => (s, m, Err(t)),
            Ok(a) => match s.reg_as(op2, WordType::Fixnum) {
                Err(t) => (s, m, Err(t)),
                Ok(b) => (
                    s.with_reg(div, make_word(WordType::Fixnum, a.payload / b.payload)).with_reg(
                        rem,
                        make_word(WordType::Fixnum, a.payload % b.payload),
                    ),
                    m,
                    Ok(next),
                ),
            },
        },
        Instruction::LoadPc { dst } => (s.with_areg(dst, next), m, Ok(next)),
        Instruction::PushPc => {
            let (s1, m1) = pushed(s, m, next);
            (s1, m1, Ok(next))
        },
        Instruction::PopR { dst } => {
            let s1 = WordCpuState { sp: s.sp.wrapping_sub(1), ..s };
            set_and_continue(s1, m, dst, load_word(m, s1.sp))
        },
        Instruction::PushR { src } => {
            let (s1, m1) = pushed(s, m, word_bits(s.reg(src)));
            (s1, m1, Ok(next))
        },
        Instruction::PopA { dst } => {
            let (s1, v) = popped(s, m);
            (s1.with_areg(dst, v), m, Ok(next))
        },
        Instruction::PushA { src } => {
            let (s1, m1) = pushed(s, m, s.areg(src));
            (s1, m1, Ok(next))
        },
        Instruction::LoadChar { dst, val } => (s.with_reg(dst, make_word(WordType::Character, val)), m, Ok(next)),
        Instruction::LoadFixnum { dst, val } => (s.with_reg(dst, make_word(WordType::Fixnum, val)), m, Ok(next)),
        Instruction::LoadRoot { dst, root } => set_and_continue(s, m, dst, load_word(m, root.spec_index())),
        Instruction::LoadAddress { dst, address } => (s.with_areg(dst, address), m, Ok(next)),
        Instruction::Store { address, value } => (s, mem_write(m, s.areg(address), word_bits(s.reg(value))), Ok(next)),
        Instruction::StoreOffset { base, offset, value } => (
            s,
            mem_write(m, ((s.areg(base) as i64).wrapping_add(offset)) as u64, word_bits(s.reg(value))),
            Ok(next),
        ),
        Instruction::LoadCons { dst, address } => (s.with_reg(dst, make_word(WordType::Cons, s.areg(address))), m, Ok(next)),
        _ => (s, m, Err(Trap::Unimplemented)),
    }
}

/// The two words at the program counter.
pub open spec fn fetched(s: WordCpuState, m: Seq<u64>) -> (u64, u64) {
    (mem_read(m, s.pc), mem_read(m, s.pc.wrapping_add(1)))
}

/// Whether the instruction at the program counter is one the machine can carry out.
pub open spec fn step_runs(s: WordCpuState, m: Seq<u64>) -> bool {
    let (lo, hi) = fetched(s, m);
    match decoded(lo, hi) {
        None => false,
        Some(Err(_)) => true,
        Some(Ok(i)) => executes(s, m, i),
    }
}

/// One instruction: fetched, decoded and run; the program counter moves on unless it
/// traps.
pub open spec fn stepped(s: WordCpuState, m: Seq<u64>) -> (WordCpuState, Seq<u64>, Result<(), Trap>) {
    let (lo, hi) = fetched(s, m);
    match decoded(lo, hi) {
        Some(Ok(i)) => {
            let (s2, m2, r) = executed(s, m, i);
            match r {
                Ok(pc) => (WordCpuState { pc, ..s2 }, m2, Ok(())),
                Err(t) => (s2, m2, Err(t)),
            }
        },
        Some(Err(t)) => (s, m, Err(t)),
        None => (s, m, Err(Trap::InvalidInstruction)),
    }
}

/// A step, with a trap handled: the program counter saved in the first address
/// register, the trap's number as a fixnum in the first register, and execution moved
/// to the trap vector's target.
pub open spec fn full_stepped(s: WordCpuState, m: Seq<u64>) -> (WordCpuState, Seq<u64>) {
    let (s2, m2, r) = stepped(s, m);
    match r {
        Ok(()) => (s2, m2),
        Err(t) => (
            WordCpuState {
                address: s2.address.update(0, s2.pc),
                registers: s2.registers.update(0, make_word(WordType::Fixnum, t.spec_code())),
                pc: mem_read(m2, MemoryLayout::TRAP_VECTOR),
                ..s2
            },
            m2,
        ),
    }
}

impl Cpu {
    /// Starts from the address stored at the reset vector.
    pub fn reset(&mut self, memory: &WordMemory)
        ensures
            final(self)@ == (WordCpuState { pc: mem_read(memory.data@, MemoryLayout::RESET_VECTOR), ..old(self)@ }),
    {
        self.pc = memory.read_word(MemoryLayout::RESET_VECTOR);
    }

    fn fetch(&self, memory: &WordMemory) -> (r: (u64, u64))
        ensures
            r == fetched(self@, memory.data@),
    {
        let instruction_low = memory.read_word(self.pc);
        let instruction_high = memory.read_word(self.pc.wrapping_add(1));
        (instruction_low, instruction_high)
    }

    fn read_word(memory: &WordMemory, address: u64) -> (r: Result<Word, Trap>)
        ensures
            r == load_word(memory.data@, address),
    {
        match Word::try_from(memory.read_word(address)) {
            Ok(w) => Ok(w),
            Err(_) => Err(Trap::TypeError),
        }
    }

    fn read_register_as(&self, r: Register, word_type: WordType) -> (w: Result<Word, Trap>)
        requires
            reg_ok(r),
        ensures
            w == self@.reg_as(r, word_type),
    {
        let src_obj = self.registers[r.0];
        if src_obj.tag != word_type {
            return Err(Trap::TypeError);
        }
        Ok(src_obj)
    }

    fn nil(memory: &WordMemory) -> (r: Result<Word, Trap>)
        ensures
            r == load_word(memory.data@, MemoryLayout::NIL_ROOT),
    {
        Self::read_word(memory, MemoryLayout::NIL_ROOT)
    }

    fn t(memory: &WordMemory) -> (r: Result<Word, Trap>)
        ensures
            r == load_word(memory.data@, MemoryLayout::T_ROOT),
    {
        Self::read_word(memory, MemoryLayout::T_ROOT)
    }

    fn to_machine_bool(memory: &WordMemory, val: bool) -> (r: Result<Word, Trap>)
        ensures
            r == machine_bool(memory.data@, val),
    {
        if val {
            Self::t(memory)
        } else {
            Self::nil(memory)
        }
    }

    fn push(&mut self, memory: &mut WordMemory, val: u64)
        ensures
            (final(self)@, final(memory).data@) == pushed(old(self)@, old(memory).data@, val),
    {
        memory.write_word(self.sp, val);
        self.sp = self.sp.wrapping_add(1);
    }

    fn pop(&mut self, memory: &mut WordMemory) -> (r: u64)
        ensures
            (final(self)@, r) == popped(old(self)@, old(memory).data@),
            final(memory).data@ == old(memory).data@,
    {
        self.sp = self.sp.wrapping_sub(1);
        memory.read_word(self.sp)
    }

    fn pop_word(&mut self, memory: &mut WordMemory) -> (r: Result<Word, Trap>)
        ensures
            final(self)@ == (WordCpuState { sp: old(self)@.sp.wrapping_sub(1), ..old(self)@ }),
            r == load_word(old(memory).data@, final(self)@.sp),
            final(memory).data@ == old(memory).data@,
    {
        self.sp = self.sp.wrapping_sub(1);
        Self::read_word(memory, self.sp)
    }

    fn set(&mut self, r: Register, w: Word)
        requires
            reg_ok(r),
        ensures
            final(self)@ == old(self)@.with_reg(r, w),
    {
        self.registers[r.0] = w;
    }

    fn execute(&mut self, instruction: Instruction, memory: &mut WordMemory) -> (r: Result<u64, Trap>)
        requires
            executes(old(self)@, old(memory).data@, instruction),
        ensures
            (final(self)@, final(memory).data@, r) == executed(old(self)@, old(memory).data@, instruction),
    {
        let next_pc = self.pc.wrapping_add(INSTRUCTION_SIZE);
        match instruction {
            Instruction::Halt => {
                self.halted = true;
                Ok(self.pc)
            },
            Instruction::Nop => Ok(next_pc),
            Instruction::JumpAdr { target } => Ok(self.address[target.0]),
            Instruction::JumpIfAdr { condition, target } => {
                let target_address = self.address[target.0];
                let condition_value = self.registers[condition.0];
                let nil = Self::nil(memory)?;
                if condition_value == nil {
                    Ok(next_pc)
                } else {
                    Ok(target_address)
                }
            },
            Instruction::JumpIfNotAdr { condition, target } => {
                let target_address = self.address[target.0];
                let condition_value = self.registers[condition.0];
                let nil = Self::nil(memory)?;
                if condition_value != nil {
                    Ok(next_pc)
                } else {
                    Ok(target_address)
                }
            },
            Instruction::Return => {
                let return_address = self.pop(memory);
                Ok(return_address)
            },
            Instruction::Eq { dst, op1, op2 } => {
                let op1_obj = self.registers[op1.0];
                let op2_obj = self.registers[op2.0];
                let b = Self::to_machine_bool(memory, op1_obj == op2_obj)?;
                self.set(dst, b);
                Ok(next_pc)
            },
            Instruction::Ne { dst, op1, op2 } => {
                let op1_obj = self.registers[op1.0];
                let op2_obj = self.registers[op2.0];
                let b = Self::to_machine_bool(memory, op1_obj != op2_obj)?;
                self.set(dst, b);
                Ok(next_pc)
            },
            Instruction::Gt { dst, op1, op2 } => {
                let op1_obj = self.read_register_as(op1, WordType::Fixnum)?;
                let op2_obj = self.read_register_as(op2, WordType::Fixnum)?;
                let b = Self::to_machine_bool(memory, op1_obj.payload > op2_obj.payload)?;
                self.set(dst, b);
                Ok(next_pc)
            },
            Instruction::Gte { dst, op1, op2 } => {
                let op1_obj = self.read_register_as(op1, WordType::Fixnum)?;
                let op2_obj = self.read_register_as(op2, WordType::Fixnum)?;
                let b = Self::to_machine_bool(memory, op1_obj.payload >= op2_obj.payload)?;
                self.set(dst, b);
                Ok(next_pc)
            },
            Instruction::Lt { dst, op1, op2 } => {
                let op1_obj = self.read_register_as(op1, WordType::Fixnum)?;
                let op2_obj = self.read_register_as(op2, WordType::Fixnum)?;
                let b = Self::to_machine_bool(memory, op1_obj.payload < op2_obj.payload)?;
                self.set(dst, b);
                Ok(next_pc)
            },
            Instruction::Lte { dst, op1, op2 } => {
                let op1_obj = self.read_register_as(op1, WordType::Fixnum)?;
                let op2_obj = self.read_register_as(op2, WordType::Fixnum)?;
                let b = Self::to_machine_bool(memory, op1_obj.payload <= op2_obj.payload)?;
                self.set(dst, b);
                Ok(next_pc)
            },
            Instruction::Cons { car, cdr } => {
                self.push(memory, next_pc);
                let cdr_bits = u64::from(self.registers[cdr.0]);
                self.push(memory, cdr_bits);
                let car_bits = u64::from(self.registers[car.0]);
                self.push(memory, car_bits);
                self.push(memory, 2);
                self.push(memory, WordType::Cons.code() as u64);
                // The allocation routine at ALLOC_CONS_VECTOR takes the parameters off
                // the stack.
                let location = memory.read_word(MemoryLayout::ALLOC_CONS_VECTOR);
                Ok(location)
            },
            Instruction::Car { dst, src } => {
                let src_obj = self.read_register_as(src, WordType::Cons)?;
                let w = Self::read_word(memory, src_obj.payload.wrapping_add(ConsLayout::CAR_OFFSET))?;
                self.set(dst, w);
                Ok(next_pc)
            },
            Instruction::Cdr { dst, src } => {
                let src_obj = self.read_register_as(src, WordType::Cons)?;
                let w = Self::read_word(memory, src_obj.payload.wrapping_add(ConsLayout::CDR_OFFSET))?;
                self.set(dst, w);
                Ok(next_pc)
            },
            Instruction::SetCar { dst, val } => {
                let dst_obj = self.read_register_as(dst, WordType::Cons)?;
                let val_obj = self.registers[val.0];
                memory.write_word(dst_obj.payload.wrapping_add(ConsLayout::CAR_OFFSET), u64::from(val_obj));
                Ok(next_pc)
            },
            Instruction::SetCdr { dst, val } => {
                let dst_obj = self.read_register_as(dst, WordType::Cons)?;
                let val_obj = self.registers[val.0];
                memory.write_word(dst_obj.payload.wrapping_add(ConsLayout::CDR_OFFSET), u64::from(val_obj));
                Ok(next_pc)
            },
            Instruction::Uncons { car, cdr, src } => {
                let src_obj = self.read_register_as(src, WordType::Cons)?;
                let a = Self::read_word(memory, src_obj.payload.wrapping_add(ConsLayout::CAR_OFFSET))?;
                self.set(car, a);
                let d = Self::read_word(memory, src_obj.payload.wrapping_add(ConsLayout::CDR_OFFSET))?;
                self.set(cdr, d);
                Ok(next_pc)
            },
            Instruction::Add { dst, op1, op2 } => {
                let op1_obj = self.read_register_as(op1, WordType::Fixnum)?;
                let op2_obj = self.read_register_as(op2, WordType::Fixnum)?;
                self.set(dst, Word::new(WordType::Fixnum, op1_obj.payload.wrapping_add(op2_obj.payload)));
                Ok(next_pc)
            },
            Instruction::Sub { dst, op1, op2 } => {
                let op1_obj = self.read_register_as(op1, WordType::Fixnum)?;
                let op2_obj = self.read_register_as(op2, WordType::Fixnum)?;
                self.set(dst, Word::new(WordType::Fixnum, op1_obj.payload.wrapping_sub(op2_obj.payload)));
                Ok(next_pc)
            },
            Instruction::Mul { dst, op1, op2 } => {
                let op1_obj = self.read_register_as(op1, WordType::Fixnum)?;
                let op2_obj = self.read_register_as(op2, WordType::Fixnum)?;
                self.set(dst, Word::new(WordType::Fixnum, op1_obj.payload.wrapping_mul(op2_obj.payload)));
                Ok(next_pc)
            },
            Instruction::Div { dst, op1, op2 } => {
                let op1_obj = self.read_register_as(op1, WordType::Fixnum)?;
                let op2_obj = self.read_register_as(op2, WordType::Fixnum)?;
                self.set(dst, Word::new(WordType::Fixnum, op1_obj.payload / op2_obj.payload));
                Ok(next_pc)
            },
            Instruction::IDiv { div, rem, op1, op2 } => {
                let op1_obj = self.read_register_as(op1, WordType::Fixnum)?;
                let op2_obj = self.read_register_as(op2, WordType::Fixnum)?;
                self.set(div, Word::new(WordType::Fixnum, op1_obj.payload / op2_obj.payload));
                self.set(rem, Word::new(WordType::Fixnum, op1_obj.payload % op2_obj.payload));
                Ok(next_pc)
            },
            Instruction::LoadPc { dst } => {
                self.address[dst.0] = next_pc;
                Ok(next_pc)
            },
            Instruction::PushPc => {
                self.push(memory, next_pc);
                Ok(next_pc)
            },
            Instruction::PopR { dst } => {
                let result = self.pop_word(memory)?;
                self.set(dst, result);
                Ok(next_pc)
            },
            Instruction::PushR { src } => {
                let bits = u64::from(self.registers[src.0]);
                self.push(memory, bits);
                Ok(next_pc)
            },
            Instruction::PopA { dst } => {
                let result = self.pop(memory);
                self.address[dst.0] = result;
                Ok(next_pc)
            },
            Instruction::PushA { src } => {
                let v = self.address[src.0];
                self.push(memory, v);
                Ok(next_pc)
            },
            Instruction::LoadChar { dst, val } => {
                self.set(dst, Word::new(WordType::Character, val));
                Ok(next_pc)
            },
            Instruction::LoadFixnum { dst, val } => {
                self.set(dst, Word::new(WordType::Fixnum, val));
                Ok(next_pc)
            },
            Instruction::LoadRoot { dst, root } => {
                let root_obj = Self::read_word(memory, root.index())?;
                self.set(dst, root_obj);
                Ok(next_pc)
            },
            Instruction::LoadAddress { dst, address } => {
                self.address[dst.0] = address;
                Ok(next_pc)
            },
            Instruction::Store { address, value } => {
                let value_obj = self.registers[value.0];
                memory.write_word(self.address[address.0], u64::from(value_obj));
                Ok(next_pc)
            },
            Instruction::StoreOffset { base, offset, value } => {
                let value_obj = self.registers[value.0];
                memory.write_word((self.address[base.0] as i64).wrapping_add(offset) as u64, u64::from(value_obj));
                Ok(next_pc)
            },
            Instruction::LoadCons { dst, address } => {
                let a = self.address[address.0];
                self.set(dst, Word::new(WordType::Cons, a));
                Ok(next_pc)
            },
            _ => Err(Trap::Unimplemented),
        }
    }

    /// Runs the instruction at the program counter.
    pub fn step(&mut self, memory: &mut WordMemory) -> (r: Result<(), Trap>)
        requires
            step_runs(old(self)@, old(memory).data@),
        ensures
            (final(self)@, final(memory).data@, r) == stepped(old(self)@, old(memory).data@),
    {
        let (lo, hi) = self.fetch(memory);
        let instruction = Instruction::decode(lo, hi)?;
        let next_pc = self.execute(instruction, memory)?;
        self.pc = next_pc;
        Ok(())
    }

    /// Runs the instruction at the program counter and handles a trap.
    pub fn full_step(&mut self, memory: &mut WordMemory)
        requires
            step_runs(old(self)@, old(memory).data@),
        ensures
            (final(self)@, final(memory).data@) == full_stepped(old(self)@, old(memory).data@),
    {
        match self.step(memory) {
            Ok(()) => {},
            Err(trap) => {
                self.address[0] = self.pc;
                self.registers[0] = Word::new(WordType::Fixnum, trap.code());
                self.pc = memory.read_word(MemoryLayout::TRAP_VECTOR);
            },
        };
    }
}


/// An offset survives being carried as a raw word.
proof fn lemma_offset_bits(offset: i64)
    ensures
        (offset as u64) as i64 == offset,
{
    assert((offset as u64) as i64 == offset) by (bit_vector);
}

/// Byte positions of a word made of an opcode and up to four field bytes.
proof fn lemma_instruction_bytes(op: u64, b1: u64, b2: u64, b3: u64, b4: u64)
    requires
        op < 256,
        b1 < 256,
        b2 < 256,
        b3 < 256,
        b4 < 256,
    ensures
        ({
            let w = op | (b1 << 8u64) | (b2 << 16u64) | (b3 << 24u64) | (b4 << 32u64);
            &&& byte_of(w, 0) == op
            &&& byte_of(w, 1) == b1
            &&& byte_of(w, 2) == b2
            &&& byte_of(w, 3) == b3
            &&& byte_of(w, 4) == b4
        }),
        op | (b1 << 8u64) == op | (b1 << 8u64) | (0u64 << 16u64) | (0u64 << 24u64) | (0u64 << 32u64),
        op | (b1 << 8u64) | (b2 << 16u64) == op | (b1 << 8u64) | (b2 << 16u64) | (0u64 << 24u64) | (0u64 << 32u64),
        op | (b1 << 8u64) | (b2 << 16u64) | (b3 << 24u64) == op | (b1 << 8u64) | (b2 << 16u64) | (b3 << 24u64) | (0u64 << 32u64),
        op == op | (0u64 << 8u64) | (0u64 << 16u64) | (0u64 << 24u64) | (0u64 << 32u64),
{
    assert({
        let w = op | (b1 << 8u64) | (b2 << 16u64) | (b3 << 24u64) | (b4 << 32u64);
        &&& (w >> 0u64) & 0xff == op
        &&& (w >> 8u64) & 0xff == b1
        &&& (w >> 16u64) & 0xff == b2
        &&& (w >> 24u64) & 0xff == b3
        &&& (w >> 32u64) & 0xff == b4
    }) by (bit_vector)
        requires
            op < 256,
            b1 < 256,
            b2 < 256,
            b3 < 256,
            b4 < 256,
    ;
    assert(op | (b1 << 8u64) == op | (b1 << 8u64) | (0u64 << 16u64) | (0u64 << 24u64) | (0u64 << 32u64)) by (bit_vector);
    assert(op | (b1 << 8u64) | (b2 << 16u64) == op | (b1 << 8u64) | (b2 << 16u64) | (0u64 << 24u64) | (0u64 << 32u64)) by (bit_vector);
    assert(op | (b1 << 8u64) | (b2 << 16u64) | (b3 << 24u64) == op | (b1 << 8u64) | (b2 << 16u64) | (b3 << 24u64) | (0u64 << 32u64)) by (bit_vector);
    assert(op == op | (0u64 << 8u64) | (0u64 << 16u64) | (0u64 << 24u64) | (0u64 << 32u64)) by (bit_vector);
}

impl Instruction {
    /// Whether the instruction comes back unchanged from its two words: every register
    /// index fits a byte, every address register index fits a byte with room for the
    /// offset of 16, and a root loaded is NIL or T.
    pub open spec fn round_trips(self) -> bool {
        match self {
            Instruction::JumpAdr { target } => target.0 < 240,
            Instruction::JumpReg { target } => target.0 < 256,
            Instruction::JumpIfAdr { target, condition } => target.0 < 240 && condition.0 < 256,
            Instruction::JumpIfReg { target, condition } => target.0 < 256 && condition.0 < 256,
            Instruction::JumpIfImm { condition, target } => condition.0 < 256,
            Instruction::JumpIfRel { condition, offset } => condition.0 < 256,
            Instruction::JumpIfNotAdr { target, condition } => target.0 < 240 && condition.0 < 256,
            Instruction::JumpIfNotReg { target, condition } => target.0 < 256 && condition.0 < 256,
            Instruction::JumpIfNotImm { condition, target } => condition.0 < 256,
            Instruction::JumpIfNotRel { condition, offset } => condition.0 < 256,
            Instruction::CallAdr { target } => target.0 < 240,
            Instruction::CallReg { target } => target.0 < 256,
            Instruction::MakeClosure { dst, code } => dst.0 < 256 && code.0 < 240,
            Instruction::Eq { dst, op1, op2 } => dst.0 < 256 && op1.0 < 256 && op2.0 < 256,
            Instruction::Ne { dst, op1, op2 } => dst.0 < 256 && op1.0 < 256 && op2.0 < 256,
            Instruction::Gt { dst, op1, op2 } => dst.0 < 256 && op1.0 < 256 && op2.0 < 256,
            Instruction::Gte { dst, op1, op2 } => dst.0 < 256 && op1.0 < 256 && op2.0 < 256,
            Instruction::Lt { dst, op1, op2 } => dst.0 < 256 && op1.0 < 256 && op2.0 < 256,
            Instruction::Lte { dst, op1, op2 } => dst.0 < 256 && op1.0 < 256 && op2.0 < 256,
            Instruction::Cons { car, cdr } => car.0 < 256 && cdr.0 < 256,
            Instruction::Car { dst, src } => dst.0 < 256 && src.0 < 256,
            Instruction::Cdr { dst, src } => dst.0 < 256 && src.0 < 256,
            Instruction::SetCar { dst, val } => dst.0 < 256 && val.0 < 256,
            Instruction::SetCdr { dst, val } => dst.0 < 256 && val.0 < 256,
            Instruction::Uncons { car, cdr, src } => car.0 < 256 && cdr.0 < 256 && src.0 < 256,
            Instruction::Add { dst, op1, op2 } => dst.0 < 256 && op1.0 < 256 && op2.0 < 256,
            Instruction::Sub { dst, op1, op2 } => dst.0 < 256 && op1.0 < 256 && op2.0 < 256,
            Instruction::Mul { dst, op1, op2 } => dst.0 < 256 && op1.0 < 256 && op2.0 < 256,
            Instruction::Div { dst, op1, op2 } => dst.0 < 256 && op1.0 < 256 && op2.0 < 256,
            Instruction::IDiv { div, rem, op1, op2 } => div.0 < 256 && rem.0 < 256 && op1.0 < 256 && op2.0 < 256,
            Instruction::LoadPc { dst } => dst.0 < 240,
            Instruction::PopR { dst } => dst.0 < 256,
            Instruction::PushR { src } => src.0 < 256,
            Instruction::PopA { dst } => dst.0 < 240,
            Instruction::PushA { src } => src.0 < 240,
            Instruction::LoadChar { dst, val } => dst.0 < 256,
            Instruction::LoadFixnum { dst, val } => dst.0 < 256,
            Instruction::LoadRoot { dst, root } => dst.0 < 256 && (root == Root::NIL || root == Root::T),
            Instruction::LoadAddress { dst, address } => dst.0 < 240,
            Instruction::Store { address, value } => address.0 < 240 && value.0 < 256,
            Instruction::StoreOffset { base, value, offset } => base.0 < 240 && value.0 < 256,
            Instruction::LoadCons { dst, address } => dst.0 < 256 && address.0 < 240,
            _ => true,
        }
    }
}

/// Payloads subtracted and added back, or added and subtracted again, agree with the
/// first payload in their low 56 bits.
proof fn lemma_payload_sub_add_bits(x: u64, y: u64)
    by (bit_vector)
    ensures
        (x.wrapping_sub(y) & PAYLOAD_MASK).wrapping_add(y) & PAYLOAD_MASK == x & PAYLOAD_MASK,
        (x.wrapping_add(y) & PAYLOAD_MASK).wrapping_sub(y) & PAYLOAD_MASK == x & PAYLOAD_MASK,
        x.wrapping_mul(y) & PAYLOAD_MASK == ((x * y) as u64) & PAYLOAD_MASK,
{
}

/// Word-CPU pops give back what the matching push stored: PushR then PopR restores a
/// register's word (one whose payload fits 56 bits) into the popped register, PushA then
/// PopA an address register's value, and the stack pointer comes back where it was.
pub proof fn lemma_word_push_pop(
    s: WordCpuState,
    m: Seq<u64>,
    src: Register,
    dst: Register,
    asrc: AddressRegister,
    adst: AddressRegister,
    s2: WordCpuState,
)
    requires
        s.sp < m.len(),
        s.reg(src).payload < 0x100_0000_0000_0000,
        s2.sp == s.sp + 1,
    ensures
        ({
            let (s1, m1, r) = executed(s, m, Instruction::PushR { src });
            &&& r == Ok::<u64, Trap>(s.next_pc())
            &&& s1 == (WordCpuState { sp: (s.sp + 1) as u64, ..s })
            &&& executed(s2, m1, Instruction::PopR { dst }) == (
                (WordCpuState { sp: s.sp, ..s2 }).with_reg(dst, s.reg(src)),
                m1,
                Ok::<u64, Trap>(s2.next_pc()),
            )
        }),
        ({
            let (s1, m1, r) = executed(s, m, Instruction::PushA { src: asrc });
            &&& r == Ok::<u64, Trap>(s.next_pc())
            &&& s1 == (WordCpuState { sp: (s.sp + 1) as u64, ..s })
            &&& executed(s2, m1, Instruction::PopA { dst: adst }) == (
                (WordCpuState { sp: s.sp, ..s2 }).with_areg(adst, s.areg(asrc)),
                m1,
                Ok::<u64, Trap>(s2.next_pc()),
            )
        }),
{
    let w = s.reg(src);
    lemma_word_bits_roundtrip(w.tag, w.payload);
    let p = w.payload;
    assert(p & PAYLOAD_MASK == p) by (bit_vector)
        requires
            p < 0x100_0000_0000_0000u64,
    ;
    assert(make_word(w.tag, w.payload) == w);
}

/// Word-CPU CAR after SETCAR, and CDR after SETCDR, on the same cons read back the
/// stored word (one whose payload fits 56 bits); each setter leaves the cell's other
/// half as it was.
pub proof fn lemma_word_car_cdr_after_set(
    s: WordCpuState,
    m: Seq<u64>,
    x: Register,
    v: Register,
    d: Register,
    s2: WordCpuState,
)
    requires
        s.reg(x).tag == WordType::Cons,
        s.reg(x).payload < 0x100_0000_0000_0000,
        s.reg(x).payload + 1 < m.len(),
        s.reg(v).payload < 0x100_0000_0000_0000,
        s2.reg(x) == s.reg(x),
    ensures
        ({
            let cell = s.reg(x).payload;
            let (s1, m1, r) = executed(s, m, Instruction::SetCar { dst: x, val: v });
            &&& s1 == s
            &&& r == Ok::<u64, Trap>(s.next_pc())
            &&& executed(s2, m1, Instruction::Car { dst: d, src: x }) == set_and_continue(
                s2,
                m1,
                d,
                Ok(s.reg(v)),
            )
            &&& mem_read(m1, (cell + 1) as u64) == mem_read(m, (cell + 1) as u64)
        }),
        ({
            let cell = s.reg(x).payload;
            let (s1, m1, r) = executed(s, m, Instruction::SetCdr { dst: x, val: v });
            &&& s1 == s
            &&& r == Ok::<u64, Trap>(s.next_pc())
            &&& executed(s2, m1, Instruction::Cdr { dst: d, src: x }) == set_and_continue(
                s2,
                m1,
                d,
                Ok(s.reg(v)),
            )
            &&& mem_read(m1, cell) == mem_read(m, cell)
        }),
{
    let w = s.reg(v);
    lemma_word_bits_roundtrip(w.tag, w.payload);
    let p = w.payload;
    assert(p & PAYLOAD_MASK == p) by (bit_vector)
        requires
            p < 0x100_0000_0000_0000u64,
    ;
    assert(make_word(w.tag, w.payload) == w);
}

/// A word-CPU conditional jump goes to its address register when its condition holds
/// (the register is not NIL for JumpIfAdr, is NIL for JumpIfNotAdr) and to the next
/// instruction when it does not, changing nothing else.
pub proof fn lemma_word_conditional_jump(
    s: WordCpuState,
    m: Seq<u64>,
    condition: Register,
    target: AddressRegister,
)
    requires
        load_word(m, MemoryLayout::NIL_ROOT) is Ok,
    ensures
        ({
            let nil = load_word(m, MemoryLayout::NIL_ROOT)->Ok_0;
            &&& executed(s, m, Instruction::JumpIfAdr { condition, target }) == (
                s,
                m,
                Ok::<u64, Trap>(if s.reg(condition) != nil { s.areg(target) } else { s.next_pc() }),
            )
            &&& executed(s, m, Instruction::JumpIfNotAdr { condition, target }) == (
                s,
                m,
                Ok::<u64, Trap>(if s.reg(condition) == nil { s.areg(target) } else { s.next_pc() }),
            )
        }),
{
}

/// A word-CPU comparison of two fixnum registers leaves T in `dst` when its relation
/// holds between their payloads and NIL when it does not.
pub proof fn lemma_word_comparison(
    s: WordCpuState,
    m: Seq<u64>,
    i: Instruction,
    dst: Register,
    op1: Register,
    op2: Register,
)
    requires
        i == (Instruction::Gt { dst, op1, op2 }) || i == (Instruction::Gte { dst, op1, op2 })
            || i == (Instruction::Lt { dst, op1, op2 }) || i == (Instruction::Lte { dst, op1, op2 }),
        s.reg(op1).tag == WordType::Fixnum,
        s.reg(op2).tag == WordType::Fixnum,
    ensures
        ({
            let a = s.reg(op1).payload;
            let b = s.reg(op2).payload;
            let holds = if i is Gt {
                a > b
            } else if i is Gte {
                a >= b
            } else if i is Lt {
                a < b
            } else {
                a <= b
            };
            executed(s, m, i) == set_and_continue(s, m, dst, machine_bool(m, holds))
        }),
{
}

/// Word-CPU arithmetic on two fixnum registers: `dst` gets a fixnum, nothing else
/// changes, and execution continues at the next instruction. ADD's payload minus the
/// second payload, and SUB's payload plus the second payload, give back the first
/// payload (in 56 bits); MUL's payload is the product of the payloads in 56 bits.
pub proof fn lemma_word_fixnum_arithmetic(
    s: WordCpuState,
    m: Seq<u64>,
    i: Instruction,
    dst: Register,
    op1: Register,
    op2: Register,
)
    requires
        s.registers.len() == 16,
        reg_ok(dst),
        i == (Instruction::Add { dst, op1, op2 }) || i == (Instruction::Sub { dst, op1, op2 })
            || i == (Instruction::Mul { dst, op1, op2 }),
        s.reg(op1).tag == WordType::Fixnum,
        s.reg(op2).tag == WordType::Fixnum,
    ensures
        ({
            let a = s.reg(op1).payload;
            let b = s.reg(op2).payload;
            let (s1, m1, r) = executed(s, m, i);
            let w = s1.reg(dst);
            &&& r == Ok::<u64, Trap>(s.next_pc())
            &&& m1 == m
            &&& s1 == s.with_reg(dst, w)
            &&& w.tag == WordType::Fixnum
            &&& i is Add ==> w.payload.wrapping_sub(b) & PAYLOAD_MASK == a & PAYLOAD_MASK
            &&& i is Sub ==> w.payload.wrapping_add(b) & PAYLOAD_MASK == a & PAYLOAD_MASK
            &&& i is Mul ==> w.payload == ((a * b) as u64) & PAYLOAD_MASK
        }),
{
    let a = s.reg(op1).payload;
    let b = s.reg(op2).payload;
    lemma_payload_sub_add_bits(a, b);
    let (s1, m1, r) = executed(s, m, i);
    assert(s1.registers =~= s.with_reg(dst, s1.reg(dst)).registers);
}

/// Decoding the two words of an instruction gives the instruction back.
pub proof fn lemma_word_encode_decode(i: Instruction)
    requires
        i.round_trips(),
    ensures
        i.encodable(),
        decoded(encoded(i).0, encoded(i).1) == Some(Ok::<Instruction, Trap>(i)),
{
    match i {
        Instruction::Halt => {
            lemma_instruction_bytes(0u64, 0u64, 0u64, 0u64, 0u64);
            assert(decoded(encoded(i).0, encoded(i).1) == Some(Ok::<Instruction, Trap>(i)));
        },
        Instruction::Nop => {
            lemma_instruction_bytes(1u64, 0u64, 0u64, 0u64, 0u64);
            assert(decoded(encoded(i).0, encoded(i).1) == Some(Ok::<Instruction, Trap>(i)));
        },
        Instruction::JumpAdr { target } => {
            lemma_instruction_bytes(2u64, (((target.0 as u8) + 16u8) as u64), 0u64, 0u64, 0u64);
            assert(decoded(encoded(i).0, encoded(i).1) == Some(Ok::<Instruction, Trap>(i)));
        },
        Instruction::JumpReg { target } => {
            lemma_instruction_bytes(3u64, ((target.0 as u8) as u64), 0u64, 0u64, 0u64);
            assert(decoded(encoded(i).0, encoded(i).1) == Some(Ok::<Instruction, Trap>(i)));
        },
        Instruction::JumpImm { target } => {
            lemma_instruction_bytes(4u64, 0u64, 0u64, 0u64, 0u64);
            assert(decoded(encoded(i).0, encoded(i).1) == Some(Ok::<Instruction, Trap>(i)));
        },
        Instruction::JumpRel { offset } => {
            lemma_instruction_bytes(5u64, 0u64, 0u64, 0u64, 0u64);
            lemma_offset_bits(offset);
            assert(decoded(encoded(i).0, encoded(i).1) == Some(Ok::<Instruction, Trap>(i)));
        },
        Instruction::JumpIfAdr { target, condition } => {
            lemma_instruction_bytes(6u64, (((target.0 as u8) + 16u8) as u64), ((condition.0 as u8) as u64), 0u64, 0u64);
            assert(decoded(encoded(i).0, encoded(i).1) == Some(Ok::<Instruction, Trap>(i)));
        },
        Instruction::JumpIfReg { target, condition } => {
            lemma_instruction_bytes(7u64, ((target.0 as u8) as u64), ((condition.0 as u8) as u64), 0u64, 0u64);
            assert(decoded(encoded(i).0, encoded(i).1) == Some(Ok::<Instruction, Trap>(i)));
        },
        Instruction::JumpIfImm { condition, target } => {
            lemma_instruction_bytes(8u64, ((condition.0 as u8) as u64), 0u64, 0u64, 0u64);
            assert(decoded(encoded(i).0, encoded(i).1) == Some(Ok::<Instruction, Trap>(i)));
        },
        Instruction::JumpIfRel { condition, offset } => {
            lemma_instruction_bytes(9u64, ((condition.0 as u8) as u64), 0u64, 0u64, 0u64);
            lemma_offset_bits(offset);
            assert(decoded(encoded(i).0, encoded(i).1) == Some(Ok::<Instruction, Trap>(i)));
        },
        Instruction::JumpIfNotAdr { target, condition } => {
            lemma_instruction_bytes(10u64, (((target.0 as u8) + 16u8) as u64), ((condition.0 as u8) as u64), 0u64, 0u64);
            assert(decoded(encoded(i).0, encoded(i).1) == Some(Ok::<Instruction, Trap>(i)));
        },
        Instruction::JumpIfNotReg { target, condition } => {
            lemma_instruction_bytes(11u64, ((target.0 as u8) as u64), ((condition.0 as u8) as u64), 0u64, 0u64);
            assert(decoded(encoded(i).0, encoded(i).1) == Some(Ok::<Instruction, Trap>(i)));
        },
        Instruction::JumpIfNotImm { condition, target } => {
            lemma_instruction_bytes(12u64, ((condition.0 as u8) as u64), 0u64, 0u64, 0u64);
            assert(decoded(encoded(i).0, encoded(i).1) == Some(Ok::<Instruction, Trap>(i)));
        },
        Instruction::JumpIfNotRel { condition, offset } => {
            lemma_instruction_bytes(13u64, ((condition.0 as u8) as u64), 0u64, 0u64, 0u64);
            lemma_offset_bits(offset);
            assert(decoded(encoded(i).0, encoded(i).1) == Some(Ok::<Instruction, Trap>(i)));
        },
        Instruction::CallAdr { target } => {
            lemma_instruction_bytes(14u64, (((target.0 as u8) + 16u8) as u64), 0u64, 0u64, 0u64);
            assert(decoded(encoded(i).0, encoded(i).1) == Some(Ok::<Instruction, Trap>(i)));
        },
        Instruction::CallReg { target } => {
            lemma_instruction_bytes(15u64, ((target.0 as u8) as u64), 0u64, 0u64, 0u64);
            assert(decoded(encoded(i).0, encoded(i).1) == Some(Ok::<Instruction, Trap>(i)));
        },
        Instruction::CallImm { target } => {
            lemma_instruction_bytes(16u64, 0u64, 0u64, 0u64, 0u64);
            assert(decoded(encoded(i).0, encoded(i).1) == Some(Ok::<Instruction, Trap>(i)));
        },
        Instruction::CallRel { offset } => {
            lemma_instruction_bytes(17u64, 0u64, 0u64, 0u64, 0u64);
            lemma_offset_bits(offset);
            assert(decoded(encoded(i).0, encoded(i).1) == Some(Ok::<Instruction, Trap>(i)));
        },
        Instruction::Return => {
            lemma_instruction_bytes(18u64, 0u64, 0u64, 0u64, 0u64);
            assert(decoded(encoded(i).0, encoded(i).1) == Some(Ok::<Instruction, Trap>(i)));
        },
        Instruction::MakeClosure { dst, code } => {
            lemma_instruction_bytes(19u64, ((dst.0 as u8) as u64), (((code.0 as u8) + 16u8) as u64), 0u64, 0u64);
            assert(decoded(encoded(i).0, encoded(i).1) == Some(Ok::<Instruction, Trap>(i)));
        },
        Instruction::Eq { dst, op1, op2 } => {
            lemma_instruction_bytes(20u64, ((dst.0 as u8) as u64), ((op1.0 as u8) as u64), ((op2.0 as u8) as u64), 0u64);
            assert(decoded(encoded(i).0, encoded(i).1) == Some(Ok::<Instruction, Trap>(i)));
        },
        Instruction::Ne { dst, op1, op2 } => {
            lemma_instruction_bytes(21u64, ((dst.0 as u8) as u64), ((op1.0 as u8) as u64), ((op2.0 as u8) as u64), 0u64);
            assert(decoded(encoded(i).0, encoded(i).1) == Some(Ok::<Instruction, Trap>(i)));
        },
        Instruction::Gt { dst, op1, op2 } => {
            lemma_instruction_bytes(22u64, ((dst.0 as u8) as u64), ((op1.0 as u8) as u64), ((op2.0 as u8) as u64), 0u64);
            assert(decoded(encoded(i).0, encoded(i).1) == Some(Ok::<Instruction, Trap>(i)));
        },
        Instruction::Gte { dst, op1, op2 } => {
            lemma_instruction_bytes(23u64, ((dst.0 as u8) as u64), ((op1.0 as u8) as u64), ((op2.0 as u8) as u64), 0u64);
            assert(decoded(encoded(i).0, encoded(i).1) == Some(Ok::<Instruction, Trap>(i)));
        },
        Instruction::Lt { dst, op1, op2 } => {
            lemma_instruction_bytes(24u64, ((dst.0 as u8) as u64), ((op1.0 as u8) as u64), ((op2.0 as u8) as u64), 0u64);
            assert(decoded(encoded(i).0, encoded(i).1) == Some(Ok::<Instruction, Trap>(i)));
        },
        Instruction::Lte { dst, op1, op2 } => {
            lemma_instruction_bytes(25u64, ((dst.0 as u8) as u64), ((op1.0 as u8) as u64), ((op2.0 as u8) as u64), 0u64);
            assert(decoded(encoded(i).0, encoded(i).1) == Some(Ok::<Instruction, Trap>(i)));
        },
        Instruction::Cons { car, cdr } => {
            lemma_instruction_bytes(26u64, ((car.0 as u8) as u64), ((cdr.0 as u8) as u64), 0u64, 0u64);
            assert(decoded(encoded(i).0, encoded(i).1) == Some(Ok::<Instruction, Trap>(i)));
        },
        Instruction::Car { dst, src } => {
            lemma_instruction_bytes(27u64, ((dst.0 as u8) as u64), ((src.0 as u8) as u64), 0u64, 0u64);
            assert(decoded(encoded(i).0, encoded(i).1) == Some(Ok::<Instruction, Trap>(i)));
        },
        Instruction::Cdr { dst, src } => {
            lemma_instruction_bytes(28u64, ((dst.0 as u8) as u64), ((src.0 as u8) as u64), 0u64, 0u64);
            assert(decoded(encoded(i).0, encoded(i).1) == Some(Ok::<Instruction, Trap>(i)));
        },
        Instruction::SetCar { dst, val } => {
            lemma_instruction_bytes(29u64, ((dst.0 as u8) as u64), ((val.0 as u8) as u64), 0u64, 0u64);
            assert(decoded(encoded(i).0, encoded(i).1) == Some(Ok::<Instruction, Trap>(i)));
        },
        Instruction::SetCdr { dst, val } => {
            lemma_instruction_bytes(30u64, ((dst.0 as u8) as u64), ((val.0 as u8) as u64), 0u64, 0u64);
            assert(decoded(encoded(i).0, encoded(i).1) == Some(Ok::<Instruction, Trap>(i)));
        },
        Instruction::Uncons { car, cdr, src } => {
            lemma_instruction_bytes(31u64, ((car.0 as u8) as u64), ((cdr.0 as u8) as u64), ((src.0 as u8) as u64), 0u64);
            assert(decoded(encoded(i).0, encoded(i).1) == Some(Ok::<Instruction, Trap>(i)));
        },
        Instruction::Add { dst, op1, op2 } => {
            lemma_instruction_bytes(32u64, ((dst.0 as u8) as u64), ((op1.0 as u8) as u64), ((op2.0 as u8) as u64), 0u64);
            assert(decoded(encoded(i).0, encoded(i).1) == Some(Ok::<Instruction, Trap>(i)));
        },
        Instruction::Sub { dst, op1, op2 } => {
            lemma_instruction_bytes(33u64, ((dst.0 as u8) as u64), ((op1.0 as u8) as u64), ((op2.0 as u8) as u64), 0u64);
            assert(decoded(encoded(i).0, encoded(i).1) == Some(Ok::<Instruction, Trap>(i)));
        },
        Instruction::Mul { dst, op1, op2 } => {
            lemma_instruction_bytes(34u64, ((dst.0 as u8) as u64), ((op1.0 as u8) as u64), ((op2.0 as u8) as u64), 0u64);
            assert(decoded(encoded(i).0, encoded(i).1) == Some(Ok::<Instruction, Trap>(i)));
        },
        Instruction::Div { dst, op1, op2 } => {
            lemma_instruction_bytes(35u64, ((dst.0 as u8) as u64), ((op1.0 as u8) as u64), ((op2.0 as u8) as u64), 0u64);
            assert(decoded(encoded(i).0, encoded(i).1) == Some(Ok::<Instruction, Trap>(i)));
        },
        Instruction::IDiv { div, rem, op1, op2 } => {
            lemma_instruction_bytes(36u64, ((div.0 as u8) as u64), ((rem.0 as u8) as u64), ((op1.0 as u8) as u64), ((op2.0 as u8) as u64));
            assert(decoded(encoded(i).0, encoded(i).1) == Some(Ok::<Instruction, Trap>(i)));
        },
        Instruction::LoadPc { dst } => {
            lemma_instruction_bytes(37u64, (((dst.0 as u8) + 16u8) as u64), 0u64, 0u64, 0u64);
            assert(decoded(encoded(i).0, encoded(i).1) == Some(Ok::<Instruction, Trap>(i)));
        },
        Instruction::PushPc => {
            lemma_instruction_bytes(38u64, 0u64, 0u64, 0u64, 0u64);
            assert(decoded(encoded(i).0, encoded(i).1) == Some(Ok::<Instruction, Trap>(i)));
        },
        Instruction::PopR { dst } => {
            lemma_instruction_bytes(39u64, ((dst.0 as u8) as u64), 0u64, 0u64, 0u64);
            assert(decoded(encoded(i).0, encoded(i).1) == Some(Ok::<Instruction, Trap>(i)));
        },
        Instruction::PushR { src } => {
            lemma_instruction_bytes(40u64, ((src.0 as u8) as u64), 0u64, 0u64, 0u64);
            assert(decoded(encoded(i).0, encoded(i).1) == Some(Ok::<Instruction, Trap>(i)));
        },
        Instruction::PopA { dst } => {
            lemma_instruction_bytes(41u64, (((dst.0 as u8) + 16u8) as u64), 0u64, 0u64, 0u64);
            assert(decoded(encoded(i).0, encoded(i).1) == Some(Ok::<Instruction, Trap>(i)));
        },
        Instruction::PushA { src } => {
            lemma_instruction_bytes(42u64, (((src.0 as u8) + 16u8) as u64), 0u64, 0u64, 0u64);
            assert(decoded(encoded(i).0, encoded(i).1) == Some(Ok::<Instruction, Trap>(i)));
        },
        Instruction::LoadChar { dst, val } => {
            lemma_instruction_bytes(43u64, ((dst.0 as u8) as u64), 0u64, 0u64, 0u64);
            assert(decoded(encoded(i).0, encoded(i).1) == Some(Ok::<Instruction, Trap>(i)));
        },
        Instruction::LoadFixnum { dst, val } => {
            lemma_instruction_bytes(44u64, ((dst.0 as u8) as u64), 0u64, 0u64, 0u64);
            assert(decoded(encoded(i).0, encoded(i).1) == Some(Ok::<Instruction, Trap>(i)));
        },
        Instruction::LoadRoot { dst, root } => {
            lemma_instruction_bytes(45u64, ((dst.0 as u8) as u64), 0u64, 0u64, 0u64);
            assert(decoded(encoded(i).0, encoded(i).1) == Some(Ok::<Instruction, Trap>(i)));
        },
        Instruction::LoadAddress { dst, address } => {
            lemma_instruction_bytes(46u64, (((dst.0 as u8) + 16u8) as u64), 0u64, 0u64, 0u64);
            assert(decoded(encoded(i).0, encoded(i).1) == Some(Ok::<Instruction, Trap>(i)));
        },
        Instruction::Store { address, value } => {
            lemma_instruction_bytes(47u64, (((address.0 as u8) + 16u8) as u64), ((value.0 as u8) as u64), 0u64, 0u64);
            assert(decoded(encoded(i).0, encoded(i).1) == Some(Ok::<Instruction, Trap>(i)));
        },
        Instruction::StoreOffset { base, value, offset } => {
            lemma_instruction_bytes(48u64, (((base.0 as u8) + 16u8) as u64), ((value.0 as u8) as u64), 0u64, 0u64);
            lemma_offset_bits(offset);
            assert(decoded(encoded(i).0, encoded(i).1) == Some(Ok::<Instruction, Trap>(i)));
        },
        Instruction::LoadCons { dst, address } => {
            lemma_instruction_bytes(49u64, ((dst.0 as u8) as u64), (((address.0 as u8) + 16u8) as u64), 0u64, 0u64);
            assert(decoded(encoded(i).0, encoded(i).1) == Some(Ok::<Instruction, Trap>(i)));
        },
    }
}

/// A word's raw bits read back as the same word.
pub proof fn lemma_word_bits_roundtrip(tag: WordType, payload: u64)
    ensures
        word_from_bits(word_bits(make_word(tag, payload))) == Ok::<Word, u8>(make_word(tag, payload)),
{
    let c = tag.spec_code() as u64;
    let p = payload & PAYLOAD_MASK;
    assert(c < 256);
    assert(((c << 56u64) | (payload & 0x00ff_ffff_ffff_ffffu64)) >> 56u64 == c
        && (((c << 56u64) | (payload & 0x00ff_ffff_ffff_ffffu64)) & 0x00ff_ffff_ffff_ffffu64)
        == payload & 0x00ff_ffff_ffff_ffffu64) by (bit_vector)
        requires
            c < 256,
    ;
}

} // verus!
