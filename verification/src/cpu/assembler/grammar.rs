//! The grammar of assembly lines over tokens: what the parser reads, stated as functions
//! from a token sequence and a position to a value and the position after it.
use vstd::prelude::*;

use crate::cpu::assembler::parser::{LValue, Native, RValue, Reference, RegAndOff, UnresolvedInstruction};
use crate::cpu::assembler::tokenizer::AssemblyToken;
use crate::cpu::{BinaryOp, Comparison, Condition, Instruction, MBinaryOp, Register};
use vstd::bytes::spec_u64_to_le_bytes;
use vstd::string::StringSliceAdditionalSpecFns;

verus! {

/// Why a parse failed, as contracts see it.
pub enum ParseFailure<'i> {
    InvalidEscape { c: char, raw: Seq<u8> },
    Expected { expected: Seq<char>, rest: Seq<AssemblyToken<'i>> },
    ExpectedDirective { expected: Seq<char>, found: Option<AssemblyToken<'i>> },
    ExpectedInstruction { expected: Seq<char>, found: Option<AssemblyToken<'i>> },
    UnknownDirective { directive: Seq<u8> },
    UnknownInstruction { instruction: Seq<u8> },
    InvalidInstruction,
}

/// An assembly line as contracts see it: data as a byte sequence.
pub enum LineView<'i> {
    Equ(&'i [u8], usize),
    Org(usize),
    UnresolvedData(Native<'i>),
    ResolvedData(Seq<u8>),
    ResolvedInstruction(Instruction),
    UnresolvedInstruction(UnresolvedInstruction<'i>),
    Label(&'i [u8]),
}

/// A value read from the tokens and the position after it, or why reading failed.
pub type PRes<'i, T> = Result<(T, int), ParseFailure<'i>>;

pub open spec fn tok<'i>(t: Seq<AssemblyToken<'i>>, p: int) -> Option<AssemblyToken<'i>> {
    if 0 <= p < t.len() {
        Some(t[p])
    } else {
        None
    }
}

/// The position after taking the token at `p`, if there is one.
pub open spec fn after<'i>(t: Seq<AssemblyToken<'i>>, p: int) -> int {
    if 0 <= p < t.len() {
        p + 1
    } else {
        p
    }
}

pub open spec fn is_tok<'i>(t: Seq<AssemblyToken<'i>>, p: int, k: AssemblyToken<'i>) -> bool {
    tok(t, p) == Some(k)
}

/// An identifier token spelled `name`.
pub open spec fn is_word<'i>(x: Option<AssemblyToken<'i>>, name: &'static str) -> bool {
    x matches Some(AssemblyToken::Identifier(a)) && a@ == name.spec_bytes()
}

pub open spec fn expected_at<'i>(t: Seq<AssemblyToken<'i>>, p: int, msg: &'static str) -> ParseFailure<'i> {
    ParseFailure::Expected { expected: msg@, rest: t.subrange(p, t.len() as int) }
}

pub open spec fn s_number<'i>(t: Seq<AssemblyToken<'i>>, p: int) -> Option<i64> {
    match tok(t, p) {
        Some(AssemblyToken::Number(n)) => Some(n),
        _ => None,
    }
}

pub open spec fn s_register<'i>(t: Seq<AssemblyToken<'i>>, p: int) -> Option<Register> {
    match tok(t, p) {
        Some(AssemblyToken::Register(r)) => Some(r),
        _ => None,
    }
}

pub open spec fn s_identifier<'i>(t: Seq<AssemblyToken<'i>>, p: int) -> Option<&'i [u8]> {
    match tok(t, p) {
        Some(AssemblyToken::Identifier(n)) => Some(n),
        _ => None,
    }
}

pub open spec fn s_char<'i>(t: Seq<AssemblyToken<'i>>, p: int) -> Option<u8> {
    match tok(t, p) {
        Some(AssemblyToken::Character(c)) => Some(c),
        _ => None,
    }
}

pub open spec fn s_string<'i>(t: Seq<AssemblyToken<'i>>, p: int) -> Option<&'i [u8]> {
    match tok(t, p) {
        Some(AssemblyToken::String(s)) => Some(s),
        _ => None,
    }
}

pub open spec fn is_comment<'i>(t: Seq<AssemblyToken<'i>>, p: int) -> bool {
    tok(t, p) matches Some(AssemblyToken::Comment(_))
}

/// An identifier followed by a colon.
pub open spec fn s_label<'i>(t: Seq<AssemblyToken<'i>>, p: int) -> Option<&'i [u8]> {
    match (tok(t, p), tok(t, p + 1)) {
        (Some(AssemblyToken::Identifier(n)), Some(AssemblyToken::Colon)) => Some(n),
        _ => None,
    }
}

/// The end of a line: the end of the tokens, or a newline (taken).
pub open spec fn s_end<'i>(t: Seq<AssemblyToken<'i>>, p: int) -> Option<int> {
    match tok(t, p) {
        None => Some(p),
        Some(AssemblyToken::Newline) => Some(p + 1),
        _ => None,
    }
}

/// A quote followed by an identifier.
pub open spec fn s_reference<'i>(t: Seq<AssemblyToken<'i>>, p: int) -> Option<Reference<'i>> {
    match (tok(t, p), tok(t, p + 1)) {
        (Some(AssemblyToken::Quote), Some(AssemblyToken::Identifier(n))) => Some(Reference::Unresolved(n)),
        _ => None,
    }
}

/// A number, a character or a reference.
pub open spec fn s_machine_value<'i>(t: Seq<AssemblyToken<'i>>, p: int) -> Option<(Reference<'i>, int)> {
    match tok(t, p) {
        Some(AssemblyToken::Number(n)) => Some((Reference::Resolved(n), p + 1)),
        Some(AssemblyToken::Character(c)) => Some((Reference::Resolved(c as i64), p + 1)),
        Some(AssemblyToken::Quote) => match s_reference(t, p) {
            Some(r) => Some((r, p + 2)),
            None => None,
        },
        _ => None,
    }
}

/// A value encoded as a Lisp word, after an optional `#`.
pub open spec fn s_lisp_value<'i>(t: Seq<AssemblyToken<'i>>, p: int) -> PRes<'i, Native<'i>> {
    let q = if is_tok(t, p, AssemblyToken::Hash) { p + 1 } else { p };
    match tok(t, q) {
        Some(AssemblyToken::Character(c)) => Ok((Native::Char(Reference::Resolved(c as i64)), q + 1)),
        Some(AssemblyToken::OpenBracket) => match s_machine_value(t, q + 1) {
            Some((v, e)) => Ok((Native::Cons(v), e)),
            None => Err(expected_at(t, q + 1, "A value to encode")),
        },
        Some(AssemblyToken::Bang) => match s_machine_value(t, q + 1) {
            Some((v, e)) => Ok((Native::Symbol(v), e)),
            None => Err(expected_at(t, q + 1, "A value to encode")),
        },
        Some(AssemblyToken::Number(n)) => Ok((Native::Fixnum(Reference::Resolved(n)), q + 1)),
        Some(AssemblyToken::Quote) => match s_identifier(t, q + 1) {
            Some(n) => Ok((Native::Fixnum(Reference::Unresolved(n)), q + 2)),
            None => Err(expected_at(t, q + 1, "A reference name")),
        },
        Some(AssemblyToken::Cash) => match s_machine_value(t, q + 1) {
            Some((v, e)) => Ok((Native::String(v), e)),
            None => Err(expected_at(t, q + 1, "A reference name")),
        },
        _ => Err(expected_at(t, q, "A value to convert")),
    }
}

/// Any value: a raw number, reference or character, or a Lisp value after `#`.
pub open spec fn s_any_value<'i>(t: Seq<AssemblyToken<'i>>, p: int) -> PRes<'i, Native<'i>> {
    match tok(t, p) {
        Some(AssemblyToken::Number(n)) => Ok((Native::Raw(Reference::Resolved(n)), p + 1)),
        Some(AssemblyToken::Quote) => match s_reference(t, p) {
            Some(r) => Ok((Native::Raw(r), p + 2)),
            None => Err(expected_at(t, p, "A reference")),
        },
        Some(AssemblyToken::Character(c)) => Ok((Native::Raw(Reference::Resolved(c as i64)), p + 1)),
        Some(AssemblyToken::Hash) => s_lisp_value(t, p),
        _ => Err(expected_at(t, p, "Any value")),
    }
}

/// The directive name `name` (the token is taken whatever it is).
pub open spec fn s_directive_name<'i>(t: Seq<AssemblyToken<'i>>, p: int, name: &'static str) -> PRes<'i, ()> {
    if is_word(tok(t, p), name) {
        Ok(((), p + 1))
    } else {
        Err(ParseFailure::ExpectedDirective { expected: name@, found: tok(t, p) })
    }
}

/// The instruction name `name` (the token is taken whatever it is).
pub open spec fn s_instruction_name<'i>(t: Seq<AssemblyToken<'i>>, p: int, name: &'static str) -> PRes<'i, ()> {
    if is_word(tok(t, p), name) {
        Ok(((), p + 1))
    } else {
        Err(ParseFailure::ExpectedInstruction { expected: name@, found: tok(t, p) })
    }
}

pub open spec fn s_comma<'i>(t: Seq<AssemblyToken<'i>>, p: int) -> PRes<'i, ()> {
    if is_tok(t, p, AssemblyToken::Comma) {
        Ok(((), p + 1))
    } else {
        Err(expected_at(t, p, "operand separator"))
    }
}

/// A register, or the failure `msg`.
pub open spec fn s_reg<'i>(t: Seq<AssemblyToken<'i>>, p: int, msg: &'static str) -> PRes<'i, Register> {
    match s_register(t, p) {
        Some(r) => Ok((r, p + 1)),
        None => Err(expected_at(t, p, msg)),
    }
}

/// A register (or the failure `msg`) and a comma.
pub open spec fn s_reg_comma<'i>(t: Seq<AssemblyToken<'i>>, p: int, msg: &'static str) -> PRes<'i, Register> {
    match s_reg(t, p, msg) {
        Ok((r, q)) => match s_comma(t, q) {
            Ok((_, e)) => Ok((r, e)),
            Err(f) => Err(f),
        },
        Err(f) => Err(f),
    }
}

/// Two registers separated by a comma.
pub open spec fn s_two_regs<'i>(t: Seq<AssemblyToken<'i>>, p: int, m1: &'static str, m2: &'static str) -> PRes<'i, (Register, Register)> {
    match s_reg_comma(t, p, m1) {
        Ok((a, q)) => match s_reg(t, q, m2) {
            Ok((b, e)) => Ok(((a, b), e)),
            Err(f) => Err(f),
        },
        Err(f) => Err(f),
    }
}

/// Three registers separated by commas, each missing one reported as "A register".
pub open spec fn s_three_regs<'i>(t: Seq<AssemblyToken<'i>>, p: int) -> PRes<'i, (Register, Register, Register)> {
    match s_reg_comma(t, p, "A register") {
        Ok((a, q)) => match s_two_regs(t, q, "A register", "A register") {
            Ok(((b, c), e)) => Ok(((a, b, c), e)),
            Err(f) => Err(f),
        },
        Err(f) => Err(f),
    }
}

/// Two registers where the comma is required before a missing first register is
/// reported.
pub open spec fn s_two_regs_comma_first<'i>(t: Seq<AssemblyToken<'i>>, p: int) -> PRes<'i, (Register, Register)> {
    let first = s_register(t, p);
    let q = if first is Some { p + 1 } else { p };
    match s_comma(t, q) {
        Err(f) => Err(f),
        Ok((_, q2)) => match first {
            None => Err(expected_at(t, q2, "A register")),
            Some(a) => match s_reg(t, q2, "A machine register") {
                Ok((b, e)) => Ok(((a, b), e)),
                Err(f) => Err(f),
            },
        },
    }
}

/// A register and an optional `+` offset.
pub open spec fn s_reg_and_off<'i>(t: Seq<AssemblyToken<'i>>, p: int) -> PRes<'i, RegAndOff<'i>> {
    match s_register(t, p) {
        None => Err(expected_at(t, p, "A register")),
        Some(r) => if is_tok(t, p + 1, AssemblyToken::Plus) {
            match s_any_value(t, p + 2) {
                Ok((v, e)) => Ok((RegAndOff { op1: r, off: Some(v) }, e)),
                Err(f) => Err(f),
            }
        } else {
            Ok((RegAndOff { op1: r, off: None }, p + 1))
        },
    }
}

/// `r` followed by a closing bracket.
pub open spec fn s_closed<'i, T>(t: Seq<AssemblyToken<'i>>, r: PRes<'i, T>) -> PRes<'i, T> {
    match r {
        Ok((v, e)) => if is_tok(t, e, AssemblyToken::CloseBracket) {
            Ok((v, e + 1))
        } else {
            Err(expected_at(t, e, "Close bracket"))
        },
        Err(f) => Err(f),
    }
}

/// A destination: a register, `[value]` or `[register + offset]`.
pub open spec fn s_lvalue<'i>(t: Seq<AssemblyToken<'i>>, p: int) -> PRes<'i, LValue<'i>> {
    match s_register(t, p) {
        Some(r) => Ok((LValue::Register(r), p + 1)),
        None => if !is_tok(t, p, AssemblyToken::OpenBracket) {
            Err(expected_at(t, p, "An indirect address"))
        } else if s_register(t, p + 1) is None {
            match s_closed(t, s_any_value(t, p + 1)) {
                Ok((v, e)) => Ok((LValue::Absolute(v), e)),
                Err(f) => Err(f),
            }
        } else {
            match s_closed(t, s_reg_and_off(t, p + 1)) {
                Ok((v, e)) => Ok((LValue::Indirect(v), e)),
                Err(f) => Err(f),
            }
        },
    }
}

/// A source: a value, a register with an optional offset, or either in brackets.
pub open spec fn s_rvalue<'i>(t: Seq<AssemblyToken<'i>>, p: int) -> PRes<'i, RValue<'i>> {
    if !is_tok(t, p, AssemblyToken::OpenBracket) {
        if s_register(t, p) is Some {
            match s_reg_and_off(t, p) {
                Ok((v, e)) => Ok((RValue::Register(v), e)),
                Err(f) => Err(f),
            }
        } else {
            match s_any_value(t, p) {
                Ok((v, e)) => Ok((RValue::Literal(v), e)),
                Err(f) => Err(f),
            }
        }
    } else if s_register(t, p + 1) is None {
        match s_closed(t, s_any_value(t, p + 1)) {
            Ok((v, e)) => Ok((RValue::Absolute(v), e)),
            Err(f) => Err(f),
        }
    } else {
        match s_closed(t, s_reg_and_off(t, p + 1)) {
            Ok((v, e)) => Ok((RValue::Indirect(v), e)),
            Err(f) => Err(f),
        }
    }
}

/// The character that `s` begins with in UTF-8, or U+FFFD where it begins with none.
pub open spec fn leading_char(s: Seq<u8>) -> char {
    if vstd::utf8::valid_first_scalar(s) {
        vstd::utf8::decode_first_scalar(s) as char
    } else {
        '\u{FFFD}'
    }
}

/// The string with its escapes (`\n`, `\r`, `\t`, `\\`, `\"`) replaced; a bad or
/// unfinished escape fails with the character after the backslash (a backslash when
/// nothing follows).
pub open spec fn unescaped(s: Seq<u8>) -> Result<Seq<u8>, char>
    decreases s.len(),
{
    if s.len() == 0 {
        Ok(Seq::empty())
    } else if s[0] != 92 {
        match unescaped(s.subrange(1, s.len() as int)) {
            Ok(r) => Ok(seq![s[0]] + r),
            Err(c) => Err(c),
        }
    } else if s.len() == 1 {
        Err('\\')
    } else {
        let c = s[1];
        let d: u8 = if c == 110 {
            10
        } else if c == 114 {
            13
        } else if c == 116 {
            9
        } else {
            c
        };
        if c == 110 || c == 114 || c == 116 || c == 92 || c == 34 {
            match unescaped(s.subrange(2, s.len() as int)) {
                Ok(r) => Ok(seq![d] + r),
                Err(e) => Err(e),
            }
        } else {
            Err(leading_char(s.subrange(1, s.len() as int)))
        }
    }
}

/// `x` in front of an unescaped text, or the same failure.
pub open spec fn prefixed(x: u8, r: Result<Seq<u8>, char>) -> Result<Seq<u8>, char> {
    match r {
        Ok(v) => Ok(seq![x] + v),
        Err(c) => Err(c),
    }
}

/// What each escape stands for: `\n` is a line feed (10), `\r` a carriage return (13),
/// `\t` a tab (9), `\\` a backslash (92) and `\"` a double quote (34), each followed by
/// the rest of the text unescaped; any byte but a backslash stands for itself; a lone
/// backslash at the end is refused as a backslash.
pub proof fn lemma_unescape_escapes(rest: Seq<u8>, b: u8)
    ensures
        unescaped(seq![92u8, 110u8] + rest) == prefixed(10, unescaped(rest)),
        unescaped(seq![92u8, 114u8] + rest) == prefixed(13, unescaped(rest)),
        unescaped(seq![92u8, 116u8] + rest) == prefixed(9, unescaped(rest)),
        unescaped(seq![92u8, 92u8] + rest) == prefixed(92, unescaped(rest)),
        unescaped(seq![92u8, 34u8] + rest) == prefixed(34, unescaped(rest)),
        b != 92 ==> unescaped(seq![b] + rest) == prefixed(b, unescaped(rest)),
        unescaped(seq![92u8]) == Err::<Seq<u8>, char>('\\'),
{
    assert((seq![92u8, 110u8] + rest).subrange(2, rest.len() + 2int) =~= rest);
    assert((seq![92u8, 114u8] + rest).subrange(2, rest.len() + 2int) =~= rest);
    assert((seq![92u8, 116u8] + rest).subrange(2, rest.len() + 2int) =~= rest);
    assert((seq![92u8, 92u8] + rest).subrange(2, rest.len() + 2int) =~= rest);
    assert((seq![92u8, 34u8] + rest).subrange(2, rest.len() + 2int) =~= rest);
    assert((seq![b] + rest).subrange(1, rest.len() + 1int) =~= rest);
}

/// The bytes a string directive lays down: its length as a fixnum word, then the text.
pub open spec fn string_data(text: Seq<u8>) -> Seq<u8> {
    spec_u64_to_le_bytes(crate::cpu::tagged(0, ((text.len() as i64) as u64))) + text
}

pub open spec fn s_org<'i>(t: Seq<AssemblyToken<'i>>, p: int) -> PRes<'i, LineView<'i>> {
    match s_directive_name(t, p, "org") {
        Err(f) => Err(f),
        Ok((_, q)) => match s_number(t, q) {
            Some(n) => Ok((LineView::Org(n as usize), q + 1)),
            None => Err(expected_at(t, q, "an address")),
        },
    }
}

pub open spec fn s_str<'i>(t: Seq<AssemblyToken<'i>>, p: int) -> PRes<'i, LineView<'i>> {
    match s_directive_name(t, p, "str") {
        Err(f) => Err(f),
        Ok((_, q)) => match s_string(t, q) {
            None => Err(expected_at(t, q, "A string")),
            Some(raw) => match unescaped(raw@) {
                Ok(text) => Ok((LineView::ResolvedData(string_data(text)), q + 1)),
                Err(c) => Err(ParseFailure::InvalidEscape { c, raw: raw@ }),
            },
        },
    }
}

pub open spec fn s_w<'i>(t: Seq<AssemblyToken<'i>>, p: int) -> PRes<'i, LineView<'i>> {
    match s_directive_name(t, p, "w") {
        Err(f) => Err(f),
        Ok((_, q)) => match s_any_value(t, q) {
            Ok((v, e)) => Ok((LineView::UnresolvedData(v), e)),
            Err(f) => Err(f),
        },
    }
}

pub open spec fn s_equ<'i>(t: Seq<AssemblyToken<'i>>, p: int) -> PRes<'i, LineView<'i>> {
    match s_directive_name(t, p, "equ") {
        Err(f) => Err(f),
        Ok((_, q)) => match s_label(t, q) {
            None => Err(expected_at(t, q, "A label to assign.")),
            Some(name) => match s_number(t, q + 2) {
                Some(v) => Ok((LineView::Equ(name, v as usize), q + 3)),
                None => Err(expected_at(t, q + 2, "A literal value")),
            },
        },
    }
}

pub open spec fn lift<'i>(r: PRes<'i, LineView<'i>>) -> PRes<'i, Option<LineView<'i>>> {
    match r {
        Ok((l, e)) => Ok((Some(l), e)),
        Err(f) => Err(f),
    }
}

/// A directive after a dot; nothing when there is no dot or no name after it.
pub open spec fn s_directive_line<'i>(t: Seq<AssemblyToken<'i>>, p: int) -> PRes<'i, Option<LineView<'i>>> {
    if !is_tok(t, p, AssemblyToken::Dot) {
        Ok((None, p))
    } else {
        let q = p + 1;
        match tok(t, q) {
            Some(AssemblyToken::Identifier(d)) => if d@ == "org".spec_bytes() {
                lift(s_org(t, q))
            } else if d@ == "str".spec_bytes() {
                lift(s_str(t, q))
            } else if d@ == "w".spec_bytes() {
                lift(s_w(t, q))
            } else if d@ == "equ".spec_bytes() {
                lift(s_equ(t, q))
            } else {
                Err(ParseFailure::UnknownDirective { directive: d@ })
            },
            _ => Ok((None, q)),
        }
    }
}

pub open spec fn resolved<'i>(i: Instruction, e: int) -> PRes<'i, LineView<'i>> {
    Ok((LineView::ResolvedInstruction(i), e))
}

pub open spec fn unresolved<'i>(i: UnresolvedInstruction<'i>, e: int) -> PRes<'i, LineView<'i>> {
    Ok((LineView::UnresolvedInstruction(i), e))
}

pub open spec fn s_nullary<'i>(t: Seq<AssemblyToken<'i>>, p: int) -> PRes<'i, LineView<'i>> {
    match s_identifier(t, p) {
        None => Err(expected_at(t, p, "An identifier")),
        Some(id) => if id@ == "NOP".spec_bytes() {
            resolved(Instruction::Nop, p + 1)
        } else if id@ == "RETURN".spec_bytes() {
            resolved(Instruction::Return, p + 1)
        } else if id@ == "IRETURN".spec_bytes() {
            resolved(Instruction::IReturn, p + 1)
        } else if id@ == "HALT".spec_bytes() {
            resolved(Instruction::Halt, p + 1)
        } else if id@ == "EI".spec_bytes() {
            resolved(Instruction::EnableInterrupts, p + 1)
        } else if id@ == "DI".spec_bytes() {
            resolved(Instruction::DisableInterrupts, p + 1)
        } else {
            Err(expected_at(t, p + 1, "A nullary op"))
        },
    }
}

pub open spec fn s_interrupt<'i>(t: Seq<AssemblyToken<'i>>, p: int) -> PRes<'i, LineView<'i>> {
    match s_instruction_name(t, p, "INT") {
        Err(f) => Err(f),
        Ok((_, q)) => match s_any_value(t, q) {
            Ok((v, e)) => unresolved(UnresolvedInstruction::Int(v), e),
            Err(f) => Err(f),
        },
    }
}

pub open spec fn s_jump_condition<'i>(t: Seq<AssemblyToken<'i>>, p: int) -> PRes<'i, Condition> {
    let q = after(t, p);
    if is_word(tok(t, p), "JUMP") {
        Ok((Condition::Always, q))
    } else if is_word(tok(t, p), "JUMPIF") {
        match s_reg_comma(t, q, "A register to check") {
            Ok((r, e)) => Ok((Condition::True(r), e)),
            Err(f) => Err(f),
        }
    } else if is_word(tok(t, p), "JUMPIFNOT") {
        match s_reg_comma(t, q, "A register to check") {
            Ok((r, e)) => Ok((Condition::False(r), e)),
            Err(f) => Err(f),
        }
    } else {
        Err(ParseFailure::ExpectedInstruction { expected: "A jump"@, found: tok(t, p) })
    }
}

pub open spec fn s_jump<'i>(t: Seq<AssemblyToken<'i>>, p: int) -> PRes<'i, LineView<'i>> {
    match s_jump_condition(t, p) {
        Err(f) => Err(f),
        Ok((c, q)) => match s_rvalue(t, q) {
            Ok((v, e)) => unresolved(UnresolvedInstruction::Jump { condition: c, target: v }, e),
            Err(f) => Err(f),
        },
    }
}

pub open spec fn s_call<'i>(t: Seq<AssemblyToken<'i>>, p: int) -> PRes<'i, LineView<'i>> {
    match s_instruction_name(t, p, "CALL") {
        Err(f) => Err(f),
        Ok((_, q)) => match s_rvalue(t, q) {
            Ok((v, e)) => unresolved(UnresolvedInstruction::Call { target: v }, e),
            Err(f) => Err(f),
        },
    }
}

pub open spec fn s_push<'i>(t: Seq<AssemblyToken<'i>>, p: int) -> PRes<'i, LineView<'i>> {
    match s_instruction_name(t, p, "PUSH") {
        Err(f) => Err(f),
        Ok((_, q)) => match s_register(t, q) {
            Some(r) => resolved(Instruction::Push { src: r }, q + 1),
            None => Err(expected_at(t, q, "A location to push from")),
        },
    }
}

pub open spec fn s_pop<'i>(t: Seq<AssemblyToken<'i>>, p: int) -> PRes<'i, LineView<'i>> {
    match s_instruction_name(t, p, "POP") {
        Err(f) => Err(f),
        Ok((_, q)) => match s_register(t, q) {
            Some(r) => resolved(Instruction::Pop { dst: r }, q + 1),
            None => Err(expected_at(t, q, "A location to pop to")),
        },
    }
}

/// A destination, a comma and a source.
pub open spec fn s_move_operands<'i>(t: Seq<AssemblyToken<'i>>, p: int) -> PRes<'i, (LValue<'i>, RValue<'i>)> {
    match s_lvalue(t, p) {
        Err(f) => Err(f),
        Ok((d, q)) => match s_comma(t, q) {
            Err(f) => Err(f),
            Ok((_, q2)) => match s_rvalue(t, q2) {
                Ok((s, e)) => Ok(((d, s), e)),
                Err(f) => Err(f),
            },
        },
    }
}

pub open spec fn s_mov<'i>(t: Seq<AssemblyToken<'i>>, p: int) -> PRes<'i, LineView<'i>> {
    match s_instruction_name(t, p, "MOV") {
        Err(f) => Err(f),
        Ok((_, q)) => match s_move_operands(t, q) {
            Ok(((d, s), e)) => unresolved(UnresolvedInstruction::Mov { dst: d, src: s }, e),
            Err(f) => Err(f),
        },
    }
}

pub open spec fn s_mov8<'i>(t: Seq<AssemblyToken<'i>>, p: int) -> PRes<'i, LineView<'i>> {
    match s_instruction_name(t, p, "MOV8") {
        Err(f) => Err(f),
        Ok((_, q)) => match s_move_operands(t, q) {
            Ok(((d, s), e)) => unresolved(UnresolvedInstruction::Mov8 { dst: d, src: s }, e),
            Err(f) => Err(f),
        },
    }
}

/// A register (`msg` when missing), a comma and a source.
pub open spec fn s_reg_then_rvalue<'i>(t: Seq<AssemblyToken<'i>>, p: int, msg: &'static str) -> PRes<'i, (Register, RValue<'i>)> {
    match s_reg_comma(t, p, msg) {
        Err(f) => Err(f),
        Ok((r, q)) => match s_rvalue(t, q) {
            Ok((v, e)) => Ok(((r, v), e)),
            Err(f) => Err(f),
        },
    }
}

pub open spec fn mbinary_op_of<'i>(x: Option<AssemblyToken<'i>>) -> Option<MBinaryOp> {
    if is_word(x, "AADD") {
        Some(MBinaryOp::Add)
    } else if is_word(x, "ASUB") {
        Some(MBinaryOp::Sub)
    } else {
        None
    }
}

pub open spec fn s_mbin<'i>(t: Seq<AssemblyToken<'i>>, p: int) -> PRes<'i, LineView<'i>> {
    let q = after(t, p);
    match s_register(t, q) {
        None => Err(expected_at(t, q, "ADD or SUB")),
        Some(dst) => match s_comma(t, q + 1) {
            Err(f) => Err(f),
            Ok((_, q2)) => match mbinary_op_of(tok(t, p)) {
                None => Err(expected_at(t, q2, "ADD or SUB")),
                Some(op) => match s_reg_then_rvalue(t, q2, "A source") {
                    Ok(((op1, op2), e)) => unresolved(UnresolvedInstruction::MBinary { op, dst, op1, op2 }, e),
                    Err(f) => Err(f),
                },
            },
        },
    }
}

pub open spec fn binary_op_of<'i>(x: Option<AssemblyToken<'i>>) -> Option<BinaryOp> {
    if is_word(x, "ADD") {
        Some(BinaryOp::Add)
    } else if is_word(x, "SUB") {
        Some(BinaryOp::Sub)
    } else if is_word(x, "MUL") {
        Some(BinaryOp::Mul)
    } else if is_word(x, "SHL") {
        Some(BinaryOp::Shl)
    } else if is_word(x, "SHR") {
        Some(BinaryOp::Shr)
    } else {
        None
    }
}

pub open spec fn s_bin<'i>(t: Seq<AssemblyToken<'i>>, p: int) -> PRes<'i, LineView<'i>> {
    match s_reg_comma(t, after(t, p), "A destination register") {
        Err(f) => Err(f),
        Ok((dst, q)) => match binary_op_of(tok(t, p)) {
            None => Err(expected_at(t, q, "A binary op")),
            Some(op) => match s_reg_then_rvalue(t, q, "A source") {
                Ok(((op1, op2), e)) => unresolved(UnresolvedInstruction::Binary { op, dst, op1, op2 }, e),
                Err(f) => Err(f),
            },
        },
    }
}

pub open spec fn comparison_of<'i>(x: Option<AssemblyToken<'i>>) -> Option<Comparison> {
    if is_word(x, "EQ") {
        Some(Comparison::Eq)
    } else if is_word(x, "NE") {
        Some(Comparison::Ne)
    } else if is_word(x, "GT") {
        Some(Comparison::Gt)
    } else if is_word(x, "GTE") {
        Some(Comparison::Gte)
    } else if is_word(x, "LT") {
        Some(Comparison::Lt)
    } else if is_word(x, "LTE") {
        Some(Comparison::Lte)
    } else {
        None
    }
}

pub open spec fn s_comparison<'i>(t: Seq<AssemblyToken<'i>>, p: int) -> PRes<'i, LineView<'i>> {
    match s_reg_comma(t, after(t, p), "A register") {
        Err(f) => Err(f),
        Ok((dst, q)) => match comparison_of(tok(t, p)) {
            None => Err(expected_at(t, q, "A comparison")),
            Some(op) => match s_reg_then_rvalue(t, q, "A source") {
                Ok(((op1, op2), e)) => unresolved(UnresolvedInstruction::MComparison { op, dst, op1, op2 }, e),
                Err(f) => Err(f),
            },
        },
    }
}

pub open spec fn s_div<'i>(t: Seq<AssemblyToken<'i>>, p: int) -> PRes<'i, LineView<'i>> {
    match s_instruction_name(t, p, "DIV") {
        Err(f) => Err(f),
        Ok((_, q)) => match s_reg_comma(t, q, "A destination register") {
            Err(f) => Err(f),
            Ok((div, q2)) => match s_reg_comma(t, q2, "A destination register") {
                Err(f) => Err(f),
                Ok((rem, q3)) => match s_reg_then_rvalue(t, q3, "A source") {
                    Ok(((op1, op2), e)) => unresolved(UnresolvedInstruction::IDiv { div, rem, op1, op2 }, e),
                    Err(f) => Err(f),
                },
            },
        },
    }
}

pub open spec fn s_typep<'i>(t: Seq<AssemblyToken<'i>>, p: int) -> PRes<'i, LineView<'i>> {
    match s_instruction_name(t, p, "TYPEP") {
        Err(f) => Err(f),
        Ok((_, q)) => match s_reg_comma(t, q, "A place to store result") {
            Err(f) => Err(f),
            Ok((dst, q2)) => match s_reg_comma(t, q2, "A source") {
                Err(f) => Err(f),
                Ok((src, q3)) => match s_any_value(t, q3) {
                    Ok((compare, e)) => unresolved(UnresolvedInstruction::Typep { dst, src, compare }, e),
                    Err(f) => Err(f),
                },
            },
        },
    }
}

pub open spec fn s_memcpy<'i>(t: Seq<AssemblyToken<'i>>, p: int) -> PRes<'i, LineView<'i>> {
    match s_instruction_name(t, p, "MEMCPY") {
        Err(f) => Err(f),
        Ok((_, q)) => match s_reg_comma(t, q, "Register for dst") {
            Err(f) => Err(f),
            Ok((dst, q2)) => match s_reg_comma(t, q2, "Register for src") {
                Err(f) => Err(f),
                Ok((src, q3)) => match s_rvalue(t, q3) {
                    Ok((count, e)) => unresolved(UnresolvedInstruction::MemCpy { dst, src, count }, e),
                    Err(f) => Err(f),
                },
            },
        },
    }
}

/// An instruction named `name` whose operands are two registers.
pub open spec fn s_two_reg_instruction<'i>(
    t: Seq<AssemblyToken<'i>>,
    p: int,
    name: &'static str,
    m1: &'static str,
    m2: &'static str,
    make: spec_fn(Register, Register) -> Instruction,
) -> PRes<'i, LineView<'i>> {
    match s_instruction_name(t, p, name) {
        Err(f) => Err(f),
        Ok((_, q)) => match s_two_regs(t, q, m1, m2) {
            Ok(((a, b), e)) => resolved(make(a, b), e),
            Err(f) => Err(f),
        },
    }
}

/// An instruction named `name` whose operands are three registers.
pub open spec fn s_three_reg_instruction<'i>(
    t: Seq<AssemblyToken<'i>>,
    p: int,
    name: &'static str,
    make: spec_fn(Register, Register, Register) -> Instruction,
) -> PRes<'i, LineView<'i>> {
    match s_instruction_name(t, p, name) {
        Err(f) => Err(f),
        Ok((_, q)) => match s_three_regs(t, q) {
            Ok(((a, b, c), e)) => resolved(make(a, b, c), e),
            Err(f) => Err(f),
        },
    }
}

/// An instruction named `name` with two registers, the comma checked before the first.
pub open spec fn s_comma_first_instruction<'i>(
    t: Seq<AssemblyToken<'i>>,
    p: int,
    name: &'static str,
    make: spec_fn(Register, Register) -> Instruction,
) -> PRes<'i, LineView<'i>> {
    match s_instruction_name(t, p, name) {
        Err(f) => Err(f),
        Ok((_, q)) => match s_two_regs_comma_first(t, q) {
            Ok(((a, b), e)) => resolved(make(a, b), e),
            Err(f) => Err(f),
        },
    }
}

pub open spec fn s_settag<'i>(t: Seq<AssemblyToken<'i>>, p: int) -> PRes<'i, LineView<'i>> {
    s_comma_first_instruction(t, p, "SETTAG", |a: Register, b: Register| Instruction::SetTag { dst: a, src: b })
}

pub open spec fn s_makeclosure<'i>(t: Seq<AssemblyToken<'i>>, p: int) -> PRes<'i, LineView<'i>> {
    s_comma_first_instruction(t, p, "MAKECLOSURE", |a: Register, b: Register| Instruction::MakeClosure { dst: a, code: b })
}

pub open spec fn s_gettag<'i>(t: Seq<AssemblyToken<'i>>, p: int) -> PRes<'i, LineView<'i>> {
    s_two_reg_instruction(t, p, "GETTAG", "A machine register", "A register", |a: Register, b: Register| Instruction::GetTag { dst: a, src: b })
}

pub open spec fn s_setpayload<'i>(t: Seq<AssemblyToken<'i>>, p: int) -> PRes<'i, LineView<'i>> {
    s_two_reg_instruction(t, p, "SETPAYLOAD", "A register", "A machine register", |a: Register, b: Register| Instruction::SetPayload { dst: a, src: b })
}

pub open spec fn s_getpayload<'i>(t: Seq<AssemblyToken<'i>>, p: int) -> PRes<'i, LineView<'i>> {
    s_two_reg_instruction(t, p, "GETPAYLOAD", "A machine register", "A register", |a: Register, b: Register| Instruction::GetPayload { dst: a, src: b })
}

pub open spec fn s_car<'i>(t: Seq<AssemblyToken<'i>>, p: int) -> PRes<'i, LineView<'i>> {
    s_two_reg_instruction(t, p, "CAR", "A machine register", "A register", |a: Register, b: Register| Instruction::Car { dst: a, src: b })
}

pub open spec fn s_cdr<'i>(t: Seq<AssemblyToken<'i>>, p: int) -> PRes<'i, LineView<'i>> {
    s_two_reg_instruction(t, p, "CDR", "A machine register", "A register", |a: Register, b: Register| Instruction::Cdr { dst: a, src: b })
}

pub open spec fn s_setcar<'i>(t: Seq<AssemblyToken<'i>>, p: int) -> PRes<'i, LineView<'i>> {
    s_two_reg_instruction(t, p, "SETCAR", "A machine register", "A register", |a: Register, b: Register| Instruction::SetCar { dst: a, src: b })
}

pub open spec fn s_setcdr<'i>(t: Seq<AssemblyToken<'i>>, p: int) -> PRes<'i, LineView<'i>> {
    s_two_reg_instruction(t, p, "SETCDR", "A machine register", "A register", |a: Register, b: Register| Instruction::SetCdr { dst: a, src: b })
}

pub open spec fn s_req<'i>(t: Seq<AssemblyToken<'i>>, p: int) -> PRes<'i, LineView<'i>> {
    s_three_reg_instruction(t, p, "REQ", |a: Register, b: Register, c: Register| Instruction::Req { dst: a, prototype: b, size: c })
}

pub open spec fn s_cons<'i>(t: Seq<AssemblyToken<'i>>, p: int) -> PRes<'i, LineView<'i>> {
    s_three_reg_instruction(t, p, "CONS", |a: Register, b: Register, c: Register| Instruction::Cons { dst: a, car: b, cdr: c })
}

pub open spec fn s_uncons<'i>(t: Seq<AssemblyToken<'i>>, p: int) -> PRes<'i, LineView<'i>> {
    s_three_reg_instruction(t, p, "UNCONS", |a: Register, b: Register, c: Register| Instruction::Uncons { car: a, cdr: b, src: c })
}

/// The instruction at `p`, chosen by its name; nothing when no identifier starts here.
#[verifier::opaque]
pub open spec fn s_instruction_line<'i>(t: Seq<AssemblyToken<'i>>, p: int) -> PRes<'i, Option<LineView<'i>>> {
    match tok(t, p) {
        Some(AssemblyToken::Identifier(id)) => {
            let x = tok(t, p);
            if is_word(x, "NOP") || is_word(x, "HALT") || is_word(x, "RETURN") || is_word(x, "IRETURN")
                || is_word(x, "DI") || is_word(x, "EI") {
                lift(s_nullary(t, p))
            } else if is_word(x, "INT") {
                lift(s_interrupt(t, p))
            } else if is_word(x, "CALL") {
                lift(s_call(t, p))
            } else if is_word(x, "JUMP") || is_word(x, "JUMPIF") || is_word(x, "JUMPIFNOT") {
                lift(s_jump(t, p))
            } else if is_word(x, "PUSH") {
                lift(s_push(t, p))
            } else if is_word(x, "POP") {
                lift(s_pop(t, p))
            } else if is_word(x, "MOV") {
                lift(s_mov(t, p))
            } else if is_word(x, "MOV8") {
                lift(s_mov8(t, p))
            } else if is_word(x, "AADD") || is_word(x, "ASUB") {
                lift(s_mbin(t, p))
            } else if is_word(x, "ADD") || is_word(x, "SUB") || is_word(x, "MUL") || is_word(x, "SHL")
                || is_word(x, "SHR") {
                lift(s_bin(t, p))
            } else if is_word(x, "DIV") {
                lift(s_div(t, p))
            } else if is_word(x, "EQ") || is_word(x, "NE") || is_word(x, "GT") || is_word(x, "GTE")
                || is_word(x, "LT") || is_word(x, "LTE") {
                lift(s_comparison(t, p))
            } else if is_word(x, "SETTAG") {
                lift(s_settag(t, p))
            } else if is_word(x, "GETTAG") {
                lift(s_gettag(t, p))
            } else if is_word(x, "SETPAYLOAD") {
                lift(s_setpayload(t, p))
            } else if is_word(x, "GETPAYLOAD") {
                lift(s_getpayload(t, p))
            } else if is_word(x, "REQ") {
                lift(s_req(t, p))
            } else if is_word(x, "CONS") {
                lift(s_cons(t, p))
            } else if is_word(x, "UNCONS") {
                lift(s_uncons(t, p))
            } else if is_word(x, "CAR") {
                lift(s_car(t, p))
            } else if is_word(x, "CDR") {
                lift(s_cdr(t, p))
            } else if is_word(x, "SETCAR") {
                lift(s_setcar(t, p))
            } else if is_word(x, "SETCDR") {
                lift(s_setcdr(t, p))
            } else if is_word(x, "MAKECLOSURE") {
                lift(s_makeclosure(t, p))
            } else if is_word(x, "TYPEP") {
                lift(s_typep(t, p))
            } else if is_word(x, "MEMCPY") {
                lift(s_memcpy(t, p))
            } else if is_word(x, "COMPARISON") {
                lift(s_comparison(t, p))
            } else {
                Err(ParseFailure::UnknownInstruction { instruction: id@ })
            }
        },
        _ => Ok((None, p)),
    }
}

pub open spec fn opt_seq<'i>(x: Option<LineView<'i>>) -> Seq<LineView<'i>> {
    match x {
        Some(l) => seq![l],
        None => Seq::empty(),
    }
}

/// One line: an optional label, directive and instruction, an optional comment, then
/// the end of the line.
#[verifier::opaque]
pub open spec fn s_line<'i>(t: Seq<AssemblyToken<'i>>, p: int) -> PRes<'i, Seq<LineView<'i>>> {
    let label = s_label(t, p);
    let p1 = if label is Some { p + 2 } else { p };
    match s_directive_line(t, p1) {
        Err(f) => Err(f),
        Ok((dir, p2)) => match s_instruction_line(t, p2) {
            Err(f) => Err(f),
            Ok((ins, p3)) => {
                let p4 = if is_comment(t, p3) { p3 + 1 } else { p3 };
                match s_end(t, p4) {
                    None => Err(expected_at(t, p4, "End of line")),
                    Some(p5) => {
                        let l = match label {
                            Some(n) => seq![LineView::Label(n)],
                            None => Seq::empty(),
                        };
                        Ok((l + opt_seq(dir) + opt_seq(ins), p5))
                    },
                }
            },
        }
    }
}

/// The lines from `p` to the end of the tokens.
pub open spec fn s_lines<'i>(t: Seq<AssemblyToken<'i>>, p: int) -> Result<Seq<LineView<'i>>, ParseFailure<'i>>
    decreases t.len() - p,
{
    if 0 <= p < t.len() {
        match s_line(t, p) {
            Err(f) => Err(f),
            Ok((ls, q)) => if p < q <= t.len() {
                match s_lines(t, q) {
                    Ok(more) => Ok(ls + more),
                    Err(f) => Err(f),
                }
            } else {
                Ok(ls)
            },
        }
    } else {
        Ok(Seq::empty())
    }
}

/// What parsing the whole token sequence gives.
pub open spec fn parsed<'i>(t: Seq<AssemblyToken<'i>>) -> Result<Seq<LineView<'i>>, ParseFailure<'i>> {
    s_lines(t, 0)
}

} // verus!
