//! Turns tokens into assembly lines, following the grammar in [`super::grammar`].
use vstd::prelude::*;

use crate::cpu::assembler::grammar::{
    after, expected_at, is_comment, is_tok, is_word, s_any_value, s_char, s_directive_line,
    s_directive_name, s_end, s_equ, s_identifier, s_instruction_name, s_label, s_lisp_value,
    s_machine_value, s_number, s_org, s_reference, s_register, s_str, s_string, s_w, string_data,
    tok, unescaped, leading_char, LineView, ParseFailure, PRes, s_nullary, s_interrupt, s_jump_condition,
    s_reg_and_off, s_lvalue, s_rvalue, s_jump, s_call, s_push, s_pop, s_mov, s_mov8, s_comma,
    s_mbin, s_settag, s_gettag, s_setpayload, s_getpayload, s_req, s_cons, s_uncons, s_car, s_cdr,
    s_setcar, s_setcdr, s_bin, s_div, s_makeclosure, s_typep, s_memcpy, s_comparison,
    s_instruction_line, s_line, s_lines, parsed, opt_seq,
};
use crate::cpu::assembler::tokenizer::AssemblyToken;
use crate::cpu::{self, BinaryOp, Comparison, Condition, Instruction, LispWord, MBinaryOp, Register};
use vstd::string::StringSliceAdditionalSpecFns;

verus! {

#[derive(Debug, PartialEq, Eq, Clone, Copy)]
pub struct RegAndOff<'input> {
    pub op1: Register,
    pub off: Option<Native<'input>>,
}

#[derive(Debug, PartialEq, Eq, Clone, Copy)]
pub enum RValue<'input> {
    Literal(Native<'input>),
    Absolute(Native<'input>),
    Register(RegAndOff<'input>),
    Indirect(RegAndOff<'input>),
}

#[derive(Debug, PartialEq, Eq, Clone, Copy)]
pub enum LValue<'input> {
    Absolute(Native<'input>),
    Register(Register),
    Indirect(RegAndOff<'input>),
}

/// An instruction whose operands may still name labels.
#[derive(Debug, PartialEq, Eq, Clone, Copy)]
pub enum UnresolvedInstruction<'input> {
    Jump { condition: Condition, target: RValue<'input> },
    Int(Native<'input>),
    Mov { dst: LValue<'input>, src: RValue<'input> },
    Mov8 { dst: LValue<'input>, src: RValue<'input> },
    MBinary { op: MBinaryOp, dst: Register, op1: Register, op2: RValue<'input> },
    IDiv { div: Register, rem: Register, op1: Register, op2: RValue<'input> },
    Binary { op: BinaryOp, dst: Register, op1: Register, op2: RValue<'input> },
    MComparison { op: Comparison, dst: Register, op1: Register, op2: RValue<'input> },
    MemCpy { dst: Register, src: Register, count: RValue<'input> },
    Call { target: RValue<'input> },
    Typep { dst: Register, src: Register, compare: Native<'input> },
}

/// A number, or the name of a label still to be looked up.
#[derive(Debug, PartialEq, Eq, Clone, Copy)]
pub enum Reference<'input> {
    Unresolved(&'input [u8]),
    Resolved(i64),
}

/// A value and how it is to be encoded as a word.
#[derive(Debug, PartialEq, Eq, Clone, Copy)]
pub enum Native<'input> {
    Raw(Reference<'input>),
    Char(Reference<'input>),
    Fixnum(Reference<'input>),
    Cons(Reference<'input>),
    Symbol(Reference<'input>),
    String(Reference<'input>),
}

#[derive(Debug, PartialEq, Eq, Clone)]
pub enum AssemblyLine<'input> {
    Equ(&'input [u8], usize),
    Org(usize),
    UnresolvedData(Native<'input>),
    ResolvedData(Vec<u8>),
    ResolvedInstruction(Instruction),
    UnresolvedInstruction(UnresolvedInstruction<'input>),
    Label(&'input [u8]),
}

impl<'input> View for AssemblyLine<'input> {
    type V = LineView<'input>;

    open spec fn view(&self) -> LineView<'input> {
        match *self {
            AssemblyLine::Equ(n, v) => LineView::Equ(n, v),
            AssemblyLine::Org(p) => LineView::Org(p),
            AssemblyLine::UnresolvedData(d) => LineView::UnresolvedData(d),
            AssemblyLine::ResolvedData(d) => LineView::ResolvedData(d@),
            AssemblyLine::ResolvedInstruction(i) => LineView::ResolvedInstruction(i),
            AssemblyLine::UnresolvedInstruction(i) => LineView::UnresolvedInstruction(i),
            AssemblyLine::Label(n) => LineView::Label(n),
        }
    }
}

#[derive(Debug)]
pub enum ParserError<'input> {
    InvalidEscape { c: char, raw: &'input [u8] },
    Expected { expected: &'static str, rest: Vec<AssemblyToken<'input>> },
    ExpectedDirective { expected: &'static str, found: Option<AssemblyToken<'input>> },
    ExpectedInstruction { expected: &'static str, found: Option<AssemblyToken<'input>> },
    UnknownDirective { directive: &'input [u8] },
    UnknownInstruction { instruction: &'input [u8] },
    InvalidInstruction,
}

impl<'input> View for ParserError<'input> {
    type V = ParseFailure<'input>;

    open spec fn view(&self) -> ParseFailure<'input> {
        match *self {
            ParserError::InvalidEscape { c, raw } => ParseFailure::InvalidEscape { c, raw: raw@ },
            ParserError::Expected { expected, rest } => ParseFailure::Expected {
                expected: expected@,
                rest: rest@,
            },
            ParserError::ExpectedDirective { expected, found } => ParseFailure::ExpectedDirective {
                expected: expected@,
                found,
            },
            ParserError::ExpectedInstruction { expected, found } => ParseFailure::ExpectedInstruction {
                expected: expected@,
                found,
            },
            ParserError::UnknownDirective { directive } => ParseFailure::UnknownDirective {
                directive: directive@,
            },
            ParserError::UnknownInstruction { instruction } => ParseFailure::UnknownInstruction {
                instruction: instruction@,
            },
            ParserError::InvalidInstruction => ParseFailure::InvalidInstruction,
        }
    }
}

/// How many tokens a step that yields `r` takes: one when it found something.
pub open spec fn taken<T>(r: Option<T>) -> int {
    match r {
        Some(_) => 1,
        None => 0,
    }
}

/// What a parse step returned, with the position it left, as the grammar states it.
pub open spec fn outcome<'i, T>(r: Result<T, ParserError<'i>>, pos: usize) -> PRes<'i, T> {
    match r {
        Ok(v) => Ok((v, pos as int)),
        Err(e) => Err(e@),
    }
}

pub open spec fn line_outcome<'i>(r: Result<AssemblyLine<'i>, ParserError<'i>>, pos: usize) -> PRes<'i, LineView<'i>> {
    match r {
        Ok(v) => Ok((v@, pos as int)),
        Err(e) => Err(e@),
    }
}

pub open spec fn opt_line_outcome<'i>(r: Result<Option<AssemblyLine<'i>>, ParserError<'i>>, pos: usize) -> PRes<'i, Option<LineView<'i>>> {
    match r {
        Ok(Some(v)) => Ok((Some(v@), pos as int)),
        Ok(None) => Ok((None, pos as int)),
        Err(e) => Err(e@),
    }
}

pub open spec fn lines_view<'i>(v: Seq<AssemblyLine<'i>>) -> Seq<LineView<'i>> {
    v.map_values(|l: AssemblyLine<'i>| l@)
}

/// Whether the bytes of `a` spell `name`.
fn spells(a: &[u8], name: &'static str) -> (r: bool)
    ensures
        r == (a@ == name.spec_bytes()),
{
    let b = name.as_bytes();
    if a.len() != b.len() {
        return false;
    }
    let mut i: usize = 0;
    while i < a.len()
        invariant
            a@.len() == b@.len(),
            b@ == name.spec_bytes(),
            0 <= i <= a@.len(),
            forall|j: int| 0 <= j < i ==> a@[j] == b@[j],
        decreases a@.len() - i,
    {
        if a[i] != b[i] {
            return false;
        }
        i = i + 1;
    }
    assert(a@ =~= b@);
    true
}

/// Whether `x` is an identifier spelled `name`.
fn is_word_token(x: Option<AssemblyToken>, name: &'static str) -> (r: bool)
    ensures
        r == is_word(x, name),
{
    match x {
        Some(AssemblyToken::Identifier(a)) => spells(a, name),
        _ => false,
    }
}

/// The character whose code is `x`, if it is one: `char::from_u32`, which std documents
/// as giving `None` exactly for surrogates and values above 0x10FFFF.
#[verifier::external_body]
fn char_from_u32(x: u32) -> (r: Option<char>)
    ensures
        r == (if x <= 0x10FFFF && !(0xD800 <= x <= 0xDFFF) {
            Some(x as char)
        } else {
            None
        }),
{
    char::from_u32(x)
}

fn is_continuation(b: u8) -> (r: bool)
    ensures
        r == vstd::utf8::is_continuation_byte(b),
{
    0x80 <= b && b <= 0xbf
}

/// The character that `bytes[at..]` begins with in UTF-8; U+FFFD where it begins with
/// none.
fn char_at(bytes: &[u8], at: usize) -> (c: char)
    requires
        at < bytes@.len(),
    ensures
        c == leading_char(bytes@.subrange(at as int, bytes@.len() as int)),
{
    let ghost s = bytes@.subrange(at as int, bytes@.len() as int);
    let n = bytes.len() - at;
    let b0 = bytes[at];
    assert(s[0] == b0);
    let (cp, width): (u32, usize) = if b0 <= 0x7f {
        ((b0 & 0x7F) as u32, 1)
    } else if 0xc0 <= b0 && b0 <= 0xdf && n >= 2 && is_continuation(bytes[at + 1]) {
        assert(s[1] == bytes[at + 1]);
        let b1 = bytes[at + 1];
        assert((((b0 & 0x1F) as u32) << 6) | ((b1 & 0x3f) as u32) <= 0x7ff) by (bit_vector);
        ((((b0 & 0x1F) as u32) << 6) | ((b1 & 0x3f) as u32), 2)
    } else if 0xe0 <= b0 && b0 <= 0xef && n >= 3 && is_continuation(bytes[at + 1])
        && is_continuation(bytes[at + 2]) {
        assert(s[1] == bytes[at + 1] && s[2] == bytes[at + 2]);
        let b1 = bytes[at + 1];
        let b2 = bytes[at + 2];
        assert((((b0 & 0x0F) as u32) << 12) | (((b1 & 0x3f) as u32) << 6) | ((b2 & 0x3f) as u32)
            <= 0xffff) by (bit_vector);
        ((((b0 & 0x0F) as u32) << 12) | (((b1 & 0x3f) as u32) << 6) | ((b2 & 0x3f) as u32), 3)
    } else if 0xf0 <= b0 && b0 <= 0xf7 && n >= 4 && is_continuation(bytes[at + 1])
        && is_continuation(bytes[at + 2]) && is_continuation(bytes[at + 3]) {
        assert(s[1] == bytes[at + 1] && s[2] == bytes[at + 2] && s[3] == bytes[at + 3]);
        let b1 = bytes[at + 1];
        let b2 = bytes[at + 2];
        let b3 = bytes[at + 3];
        ((((b0 & 0x07) as u32) << 18) | (((b1 & 0x3f) as u32) << 12) | (((b2 & 0x3f) as u32) << 6)
            | ((b3 & 0x3f) as u32), 4)
    } else {
        proof {
            if n >= 2 {
                assert(s[1] == bytes[at + 1]);
            }
            if n >= 3 {
                assert(s[2] == bytes[at + 2]);
            }
            if n >= 4 {
                assert(s[3] == bytes[at + 3]);
            }
        }
        return '\u{FFFD}';
    };
    assert(cp == vstd::utf8::decode_first_codepoint(s));
    assert(width == vstd::utf8::length_of_first_codepoint(s));
    let fits = (width != 2 || 0x80 <= cp) && (width != 3 || 0x800 <= cp) && (width != 4 || (
    0x10000 <= cp && cp <= 0x10ffff)) && !(0xD800 <= cp && cp <= 0xDFFF);
    if !fits {
        return '\u{FFFD}';
    }
    match char_from_u32(cp) {
        Some(c) => c,
        None => '\u{FFFD}',
    }
}

/// Replaces the escapes of a string's text.
fn unescape<'input>(input: &'input [u8]) -> (r: Result<Vec<u8>, ParserError<'input>>)
    ensures
        match r {
            Ok(v) => unescaped(input@) == Ok::<Seq<u8>, char>(v@),
            Err(e) => unescaped(input@) matches Err(c) && e@ == (ParseFailure::InvalidEscape {
                c,
                raw: input@,
            }),
        },
{
    let mut result: Vec<u8> = Vec::new();
    let mut i: usize = 0;
    proof {
        assert(input@.subrange(0, input@.len() as int) =~= input@);
        if let Ok(r) = unescaped(input@) {
            assert(result@ + r =~= r);
        }
    }
    while i < input.len()
        invariant
            0 <= i <= input@.len(),
            unescaped(input@) == match unescaped(input@.subrange(i as int, input@.len() as int)) {
                Ok(rest) => Ok::<Seq<u8>, char>(result@ + rest),
                Err(c) => Err(c),
            },
        decreases input@.len() - i,
    {
        let c = input[i];
        let ghost tail = input@.subrange(i as int, input@.len() as int);
        assert(tail[0] == c);
        if c == 92 {
            if i + 1 >= input.len() {
                assert(tail.len() == 1);
                return Err(ParserError::InvalidEscape { c: '\\', raw: input });
            }
            let e = input[i + 1];
            assert(tail.subrange(2, tail.len() as int) =~= input@.subrange(i + 2, input@.len() as int));
            let d: u8 = if e == 110 {
                10
            } else if e == 114 {
                13
            } else if e == 116 {
                9
            } else if e == 92 || e == 34 {
                e
            } else {
                assert(tail.subrange(1, tail.len() as int) =~= input@.subrange(i + 1, input@.len() as int));
                return Err(ParserError::InvalidEscape { c: char_at(input, i + 1), raw: input });
            };
            proof {
                let more = unescaped(input@.subrange(i + 2, input@.len() as int));
                if let Ok(m) = more {
                    assert(result@.push(d) + m =~= result@ + (seq![d] + m));
                }
            }
            result.push(d);
            i = i + 2;
        } else {
            assert(tail.subrange(1, tail.len() as int) =~= input@.subrange(i + 1, input@.len() as int));
            proof {
                let more = unescaped(input@.subrange(i + 1, input@.len() as int));
                if let Ok(m) = more {
                    assert(result@.push(c) + m =~= result@ + (seq![c] + m));
                }
            }
            result.push(c);
            i = i + 1;
        }
    }
    assert(input@.subrange(i as int, input@.len() as int) =~= Seq::<u8>::empty());
    assert(result@ + Seq::<u8>::empty() =~= result@);
    Ok(result)
}

/// A cursor over the tokens of the source.
struct NParser<'tokens, 'input> {
    tokens: &'tokens [AssemblyToken<'input>],
    position: usize,
}

impl<'tokens, 'input> NParser<'tokens, 'input> {
    spec fn wf(&self) -> bool {
        self.position <= self.tokens@.len()
    }

    /// `next` is what a parse step starting at `self` can leave: the same tokens, and a
    /// position no earlier.
    spec fn moved_to(&self, next: &Self) -> bool {
        &&& next.wf()
        &&& next.tokens == self.tokens
        &&& self.position <= next.position
    }

    spec fn t(&self) -> Seq<AssemblyToken<'input>> {
        self.tokens@
    }

    spec fn p(&self) -> int {
        self.position as int
    }

    /// The tokens from the current position on.
    fn rest(&self) -> (v: Vec<AssemblyToken<'input>>)
        requires
            self.wf(),
        ensures
            v@ == self.tokens@.subrange(self.position as int, self.tokens@.len() as int),
    {
        let mut v: Vec<AssemblyToken<'input>> = Vec::new();
        let mut i = self.position;
        while i < self.tokens.len()
            invariant
                self.position <= i <= self.tokens@.len(),
                v@ == self.tokens@.subrange(self.position as int, i as int),
            decreases self.tokens@.len() - i,
        {
            v.push(self.tokens[i]);
            i = i + 1;
            assert(v@ =~= self.tokens@.subrange(self.position as int, i as int));
        }
        v
    }

    fn expect<T>(&self, value: Option<T>, expected: &'static str) -> (r: Result<T, ParserError<'input>>)
        requires
            self.wf(),
        ensures
            match value {
                Some(v) => r == Ok::<T, ParserError<'input>>(v),
                None => r matches Err(e) && e@ == expected_at(self.t(), self.p(), expected),
            },
    {
        match value {
            Some(v) => Ok(v),
            None => Err(ParserError::Expected { expected, rest: self.rest() }),
        }
    }

    fn peek(&self) -> (r: Option<AssemblyToken<'input>>)
        requires
            self.wf(),
        ensures
            r == tok(self.t(), self.p()),
    {
        if self.position < self.tokens.len() {
            Some(self.tokens[self.position])
        } else {
            None
        }
    }

    fn next(&mut self) -> (r: Option<AssemblyToken<'input>>)
        requires
            old(self).wf(),
        ensures
            old(self).moved_to(final(self)),
            r == tok(old(self).t(), old(self).p()),
            final(self).p() == after(old(self).t(), old(self).p()),
    {
        if self.position < self.tokens.len() {
            let res = Some(self.tokens[self.position]);
            self.position = self.position + 1;
            res
        } else {
            None
        }
    }

    /// Takes the current token when `f` accepts it, handing back what `f` made of it.
    fn consume_if<T, F: FnOnce(&AssemblyToken<'input>) -> Option<T>>(&mut self, f: F) -> (r: Option<T>)
        requires
            old(self).wf(),
            old(self).p() < old(self).t().len() ==> f.requires((&old(self).t()[old(self).p()],)),
        ensures
            old(self).moved_to(final(self)),
            old(self).p() < old(self).t().len() ==> f.ensures((&old(self).t()[old(self).p()],), r),
            old(self).p() >= old(self).t().len() ==> r is None,
            final(self).p() == old(self).p() + taken(r),
    {
        if self.position < self.tokens.len() {
            let value = f(&self.tokens[self.position]);
            if value.is_some() {
                self.position = self.position + 1;
            }
            value
        } else {
            None
        }
    }

    /// Takes a `+`.
    fn try_plus(&mut self) -> (r: Option<()>)
        requires
            old(self).wf(),
        ensures
            old(self).moved_to(final(self)),
            r is Some <==> is_tok(old(self).t(), old(self).p(), AssemblyToken::Plus),
            final(self).p() == old(self).p() + taken(r),
    {
        self.consume_if(
            (|t: &AssemblyToken<'input>| -> (r: Option<()>)
                ensures
                    r is Some <==> *t == AssemblyToken::Plus,
                {
                    match t {
                        AssemblyToken::Plus => Some(()),
                        _ => None,
                    }
                }),
        )
    }

    /// Takes a number.
    fn try_number(&mut self) -> (r: Option<i64>)
        requires
            old(self).wf(),
        ensures
            old(self).moved_to(final(self)),
            r == s_number(old(self).t(), old(self).p()),
            final(self).p() == old(self).p() + taken(r),
    {
        self.consume_if(
            (|t: &AssemblyToken<'input>| -> (r: Option<i64>)
                ensures
                    r == match *t {
                        AssemblyToken::Number(v) => Some(v),
                        _ => None,
                    },
                {
                    match t {
                        AssemblyToken::Number(v) => Some(*v),
                        _ => None,
                    }
                }),
        )
    }

    /// Takes a register.
    fn try_register(&mut self) -> (r: Option<Register>)
        requires
            old(self).wf(),
        ensures
            old(self).moved_to(final(self)),
            r == s_register(old(self).t(), old(self).p()),
            final(self).p() == old(self).p() + taken(r),
    {
        self.consume_if(
            (|t: &AssemblyToken<'input>| -> (r: Option<Register>)
                ensures
                    r == match *t {
                        AssemblyToken::Register(v) => Some(v),
                        _ => None,
                    },
                {
                    match t {
                        AssemblyToken::Register(v) => Some(*v),
                        _ => None,
                    }
                }),
        )
    }

    /// Takes a `[`.
    fn try_open_bracket(&mut self) -> (r: Option<()>)
        requires
            old(self).wf(),
        ensures
            old(self).moved_to(final(self)),
            r is Some <==> is_tok(old(self).t(), old(self).p(), AssemblyToken::OpenBracket),
            final(self).p() == old(self).p() + taken(r),
    {
        self.consume_if(
            (|t: &AssemblyToken<'input>| -> (r: Option<()>)
                ensures
                    r is Some <==> *t == AssemblyToken::OpenBracket,
                {
                    match t {
                        AssemblyToken::OpenBracket => Some(()),
                        _ => None,
                    }
                }),
        )
    }

    /// Takes a `]`.
    fn try_close_bracket(&mut self) -> (r: Option<()>)
        requires
            old(self).wf(),
        ensures
            old(self).moved_to(final(self)),
            r is Some <==> is_tok(old(self).t(), old(self).p(), AssemblyToken::CloseBracket),
            final(self).p() == old(self).p() + taken(r),
    {
        self.consume_if(
            (|t: &AssemblyToken<'input>| -> (r: Option<()>)
                ensures
                    r is Some <==> *t == AssemblyToken::CloseBracket,
                {
                    match t {
                        AssemblyToken::CloseBracket => Some(()),
                        _ => None,
                    }
                }),
        )
    }

    /// Takes a `:`.
    fn try_colon(&mut self) -> (r: Option<()>)
        requires
            old(self).wf(),
        ensures
            old(self).moved_to(final(self)),
            r is Some <==> is_tok(old(self).t(), old(self).p(), AssemblyToken::Colon),
            final(self).p() == old(self).p() + taken(r),
    {
        self.consume_if(
            (|t: &AssemblyToken<'input>| -> (r: Option<()>)
                ensures
                    r is Some <==> *t == AssemblyToken::Colon,
                {
                    match t {
                        AssemblyToken::Colon => Some(()),
                        _ => None,
                    }
                }),
        )
    }

    /// Takes a `'`.
    fn try_quote(&mut self) -> (r: Option<()>)
        requires
            old(self).wf(),
        ensures
            old(self).moved_to(final(self)),
            r is Some <==> is_tok(old(self).t(), old(self).p(), AssemblyToken::Quote),
            final(self).p() == old(self).p() + taken(r),
    {
        self.consume_if(
            (|t: &AssemblyToken<'input>| -> (r: Option<()>)
                ensures
                    r is Some <==> *t == AssemblyToken::Quote,
                {
                    match t {
                        AssemblyToken::Quote => Some(()),
                        _ => None,
                    }
                }),
        )
    }

    /// Takes an identifier.
    fn try_identifier(&mut self) -> (r: Option<&'input [u8]>)
        requires
            old(self).wf(),
        ensures
            old(self).moved_to(final(self)),
            r == s_identifier(old(self).t(), old(self).p()),
            final(self).p() == old(self).p() + taken(r),
    {
        self.consume_if(
            (|t: &AssemblyToken<'input>| -> (r: Option<&'input [u8]>)
                ensures
                    r == match *t {
                        AssemblyToken::Identifier(v) => Some(v),
                        _ => None,
                    },
                {
                    match t {
                        AssemblyToken::Identifier(v) => Some(*v),
                        _ => None,
                    }
                }),
        )
    }

    /// Takes a character literal.
    fn try_char(&mut self) -> (r: Option<u8>)
        requires
            old(self).wf(),
        ensures
            old(self).moved_to(final(self)),
            r == s_char(old(self).t(), old(self).p()),
            final(self).p() == old(self).p() + taken(r),
    {
        self.consume_if(
            (|t: &AssemblyToken<'input>| -> (r: Option<u8>)
                ensures
                    r == match *t {
                        AssemblyToken::Character(v) => Some(v),
                        _ => None,
                    },
                {
                    match t {
                        AssemblyToken::Character(v) => Some(*v),
                        _ => None,
                    }
                }),
        )
    }

    /// Takes a string literal.
    fn try_string(&mut self) -> (r: Option<&'input [u8]>)
        requires
            old(self).wf(),
        ensures
            old(self).moved_to(final(self)),
            r == s_string(old(self).t(), old(self).p()),
            final(self).p() == old(self).p() + taken(r),
    {
        self.consume_if(
            (|t: &AssemblyToken<'input>| -> (r: Option<&'input [u8]>)
                ensures
                    r == match *t {
                        AssemblyToken::String(v) => Some(v),
                        _ => None,
                    },
                {
                    match t {
                        AssemblyToken::String(v) => Some(*v),
                        _ => None,
                    }
                }),
        )
    }

    /// Takes a `,`.
    fn try_comma(&mut self) -> (r: Option<()>)
        requires
            old(self).wf(),
        ensures
            old(self).moved_to(final(self)),
            r is Some <==> is_tok(old(self).t(), old(self).p(), AssemblyToken::Comma),
            final(self).p() == old(self).p() + taken(r),
    {
        self.consume_if(
            (|t: &AssemblyToken<'input>| -> (r: Option<()>)
                ensures
                    r is Some <==> *t == AssemblyToken::Comma,
                {
                    match t {
                        AssemblyToken::Comma => Some(()),
                        _ => None,
                    }
                }),
        )
    }

    /// Takes a `#`.
    fn try_hash(&mut self) -> (r: Option<()>)
        requires
            old(self).wf(),
        ensures
            old(self).moved_to(final(self)),
            r is Some <==> is_tok(old(self).t(), old(self).p(), AssemblyToken::Hash),
            final(self).p() == old(self).p() + taken(r),
    {
        self.consume_if(
            (|t: &AssemblyToken<'input>| -> (r: Option<()>)
                ensures
                    r is Some <==> *t == AssemblyToken::Hash,
                {
                    match t {
                        AssemblyToken::Hash => Some(()),
                        _ => None,
                    }
                }),
        )
    }

    /// Takes a `.`.
    fn try_dot(&mut self) -> (r: Option<()>)
        requires
            old(self).wf(),
        ensures
            old(self).moved_to(final(self)),
            r is Some <==> is_tok(old(self).t(), old(self).p(), AssemblyToken::Dot),
            final(self).p() == old(self).p() + taken(r),
    {
        self.consume_if(
            (|t: &AssemblyToken<'input>| -> (r: Option<()>)
                ensures
                    r is Some <==> *t == AssemblyToken::Dot,
                {
                    match t {
                        AssemblyToken::Dot => Some(()),
                        _ => None,
                    }
                }),
        )
    }

    /// Takes a comment.
    fn try_comment(&mut self) -> (r: Option<()>)
        requires
            old(self).wf(),
        ensures
            old(self).moved_to(final(self)),
            r is Some <==> is_comment(old(self).t(), old(self).p()),
            final(self).p() == old(self).p() + taken(r),
    {
        self.consume_if(
            (|t: &AssemblyToken<'input>| -> (r: Option<()>)
                ensures
                    r is Some <==> *t matches AssemblyToken::Comment(_),
                {
                    match t {
                        AssemblyToken::Comment(_) => Some(()),
                        _ => None,
                    }
                }),
        )
    }
    /// An identifier and a colon; nothing is taken unless both are there.
    fn try_label(&mut self) -> (r: Option<&'input [u8]>)
        requires
            old(self).wf(),
        ensures
            old(self).moved_to(final(self)),
            r == s_label(old(self).t(), old(self).p()),
            final(self).p() == old(self).p() + 2 * taken(r),
    {
        let refr = match self.try_identifier() {
            Some(n) => n,
            None => return None,
        };
        let colon = self.try_colon();
        match colon {
            Some(()) => Some(refr),
            None => {
                self.position = self.position - 1;
                None
            },
        }
    }

    fn try_label_line(&mut self) -> (r: Option<AssemblyLine<'input>>)
        requires
            old(self).wf(),
        ensures
            old(self).moved_to(final(self)),
            r == match s_label(old(self).t(), old(self).p()) {
                Some(n) => Some(AssemblyLine::Label(n)),
                None => None::<AssemblyLine<'input>>,
            },
            final(self).p() == old(self).p() + 2 * taken(r),
    {
        match self.try_label() {
            Some(n) => Some(AssemblyLine::Label(n)),
            None => None,
        }
    }

    /// The end of a line: the end of the tokens, or a newline, which is taken.
    fn try_end(&mut self) -> (r: Option<()>)
        requires
            old(self).wf(),
        ensures
            old(self).moved_to(final(self)),
            match s_end(old(self).t(), old(self).p()) {
                Some(e) => r is Some && final(self).p() == e,
                None => r is None && final(self).p() == old(self).p(),
            },
    {
        let end = self.peek();
        match end {
            None => Some(()),
            Some(AssemblyToken::Newline) => {
                self.next();
                Some(())
            },
            _ => None,
        }
    }

    /// A quote and an identifier; nothing is taken unless both are there.
    fn try_reference(&mut self) -> (r: Option<Reference<'input>>)
        requires
            old(self).wf(),
        ensures
            old(self).moved_to(final(self)),
            r == s_reference(old(self).t(), old(self).p()),
            final(self).p() == old(self).p() + 2 * taken(r),
    {
        if self.try_quote().is_none() {
            return None;
        }
        let name = self.try_identifier();
        match name {
            Some(name) => Some(Reference::Unresolved(name)),
            None => {
                self.position = self.position - 1;
                None
            },
        }
    }

    /// A number, a character or a reference.
    fn try_any_machine_value(&mut self) -> (r: Option<Reference<'input>>)
        requires
            old(self).wf(),
        ensures
            old(self).moved_to(final(self)),
            match s_machine_value(old(self).t(), old(self).p()) {
                Some((v, e)) => r == Some(v) && final(self).p() == e,
                None => r is None && final(self).p() == old(self).p(),
            },
    {
        let next = self.peek();
        match next {
            Some(AssemblyToken::Number(_)) => match self.try_number() {
                Some(n) => Some(Reference::Resolved(n)),
                None => None,
            },
            Some(AssemblyToken::Character(_)) => match self.try_char() {
                Some(c) => Some(Reference::Resolved(c as i64)),
                None => None,
            },
            Some(AssemblyToken::Quote) => self.try_reference(),
            _ => None,
        }
    }

    /// A value to be encoded as a Lisp word, after an optional `#`.
    fn expect_lisp_value(&mut self) -> (r: Result<Native<'input>, ParserError<'input>>)
        requires
            old(self).wf(),
        ensures
            old(self).moved_to(final(self)),
            outcome(r, final(self).position) == s_lisp_value(old(self).t(), old(self).p()),
    {
        self.try_hash();
        let next = self.peek();
        match next {
            Some(AssemblyToken::Character(c)) => {
                self.next();
                Ok(Native::Char(Reference::Resolved(c as i64)))
            },
            Some(AssemblyToken::OpenBracket) => {
                self.next();
                let v = self.try_any_machine_value();
                let v = self.expect(v, "A value to encode")?;
                Ok(Native::Cons(v))
            },
            Some(AssemblyToken::Bang) => {
                self.next();
                let v = self.try_any_machine_value();
                let v = self.expect(v, "A value to encode")?;
                Ok(Native::Symbol(v))
            },
            Some(AssemblyToken::Number(n)) => {
                self.next();
                Ok(Native::Fixnum(Reference::Resolved(n)))
            },
            Some(AssemblyToken::Quote) => {
                self.next();
                let refr = self.try_identifier();
                let refr = self.expect(refr, "A reference name")?;
                Ok(Native::Fixnum(Reference::Unresolved(refr)))
            },
            Some(AssemblyToken::Cash) => {
                self.next();
                let refr = self.try_any_machine_value();
                let refr = self.expect(refr, "A reference name")?;
                Ok(Native::String(refr))
            },
            _ => Err(ParserError::Expected { expected: "A value to convert", rest: self.rest() }),
        }
    }

    /// Any value: a raw number, reference or character, or a Lisp value after `#`.
    fn expect_any_value(&mut self) -> (r: Result<Native<'input>, ParserError<'input>>)
        requires
            old(self).wf(),
        ensures
            old(self).moved_to(final(self)),
            outcome(r, final(self).position) == s_any_value(old(self).t(), old(self).p()),
    {
        let next = self.peek();
        match next {
            Some(AssemblyToken::Number(_)) => {
                let n = self.try_number();
                let n = self.expect(n, "A number")?;
                Ok(Native::Raw(Reference::Resolved(n)))
            },
            Some(AssemblyToken::Quote) => {
                let r = self.try_reference();
                let r = self.expect(r, "A reference")?;
                Ok(Native::Raw(r))
            },
            Some(AssemblyToken::Character(_)) => {
                let r = self.try_char();
                let r = self.expect(r, "A reference")?;
                Ok(Native::Raw(Reference::Resolved(r as i64)))
            },
            Some(AssemblyToken::Hash) => self.expect_lisp_value(),
            _ => Err(ParserError::Expected { expected: "Any value", rest: self.rest() }),
        }
    }

    /// Takes the next token, which must be the directive name `name`.
    fn expect_directive(&mut self, name: &'static str) -> (r: Result<(), ParserError<'input>>)
        requires
            old(self).wf(),
        ensures
            old(self).moved_to(final(self)),
            outcome(r, final(self).position) == s_directive_name(old(self).t(), old(self).p(), name),
    {
        let found = self.next();
        if is_word_token(found, name) {
            Ok(())
        } else {
            Err(ParserError::ExpectedDirective { expected: name, found })
        }
    }

    /// Takes the next token, which must be the instruction name `name`.
    fn expect_identifier(&mut self, name: &'static str) -> (r: Result<(), ParserError<'input>>)
        requires
            old(self).wf(),
        ensures
            old(self).moved_to(final(self)),
            outcome(r, final(self).position) == s_instruction_name(old(self).t(), old(self).p(), name),
    {
        let found = self.next();
        if is_word_token(found, name) {
            Ok(())
        } else {
            Err(ParserError::ExpectedInstruction { expected: name, found })
        }
    }

    fn parse_org(&mut self) -> (r: Result<AssemblyLine<'input>, ParserError<'input>>)
        requires
            old(self).wf(),
        ensures
            old(self).moved_to(final(self)),
            line_outcome(r, final(self).position) == s_org(old(self).t(), old(self).p()),
    {
        self.expect_directive("org")?;
        let position = self.try_number();
        let position = self.expect(position, "an address")?;
        Ok(AssemblyLine::Org(position as usize))
    }

    fn parse_string(&mut self) -> (r: Result<AssemblyLine<'input>, ParserError<'input>>)
        requires
            old(self).wf(),
        ensures
            old(self).moved_to(final(self)),
            line_outcome(r, final(self).position) == s_str(old(self).t(), old(self).p()),
    {
        self.expect_directive("str")?;
        let text = self.try_string();
        let text = self.expect(text, "A string")?;
        let mut unescaped = unescape(text)?;
        let lenblock = LispWord::fixnum(unescaped.len() as i64);
        let mut encoded = vstd::bytes::u64_to_le_bytes(lenblock.0);
        encoded.append(&mut unescaped);
        Ok(AssemblyLine::ResolvedData(encoded))
    }

    fn parse_w(&mut self) -> (r: Result<AssemblyLine<'input>, ParserError<'input>>)
        requires
            old(self).wf(),
        ensures
            old(self).moved_to(final(self)),
            line_outcome(r, final(self).position) == s_w(old(self).t(), old(self).p()),
    {
        self.expect_directive("w")?;
        let contents = self.expect_any_value()?;
        Ok(AssemblyLine::UnresolvedData(contents))
    }

    fn parse_eq(&mut self) -> (r: Result<AssemblyLine<'input>, ParserError<'input>>)
        requires
            old(self).wf(),
        ensures
            old(self).moved_to(final(self)),
            line_outcome(r, final(self).position) == s_equ(old(self).t(), old(self).p()),
    {
        self.expect_directive("equ")?;
        let name = self.try_label();
        let name = self.expect(name, "A label to assign.")?;
        let value = self.try_number();
        let value = self.expect(value, "A literal value")?;
        Ok(AssemblyLine::Equ(name, value as usize))
    }

    /// A directive after a dot.
    fn try_directive_line(&mut self) -> (r: Result<Option<AssemblyLine<'input>>, ParserError<'input>>)
        requires
            old(self).wf(),
        ensures
            old(self).moved_to(final(self)),
            opt_line_outcome(r, final(self).position) == s_directive_line(old(self).t(), old(self).p()),
    {
        let directive_marker = self.try_dot();
        if directive_marker.is_none() {
            return Ok(None);
        }
        let directive = self.peek();
        match directive {
            Some(AssemblyToken::Identifier(d)) => {
                if spells(d, "org") {
                    Ok(Some(self.parse_org()?))
                } else if spells(d, "str") {
                    Ok(Some(self.parse_string()?))
                } else if spells(d, "w") {
                    Ok(Some(self.parse_w()?))
                } else if spells(d, "equ") {
                    Ok(Some(self.parse_eq()?))
                } else {
                    Err(ParserError::UnknownDirective { directive: d })
                }
            },
            _ => Ok(None),
        }
    }
    /// An instruction without operands.
    fn parse_nullary_op(&mut self) -> (r: Result<AssemblyLine<'input>, ParserError<'input>>)
        requires
            old(self).wf(),
        ensures
            old(self).moved_to(final(self)),
            line_outcome(r, final(self).position) == s_nullary(old(self).t(), old(self).p()),
    {
        let identifier = self.try_identifier();
        let identifier = self.expect(identifier, "An identifier")?;
        let instruction = if spells(identifier, "NOP") {
            Instruction::Nop
        } else if spells(identifier, "RETURN") {
            Instruction::Return
        } else if spells(identifier, "IRETURN") {
            Instruction::IReturn
        } else if spells(identifier, "HALT") {
            Instruction::Halt
        } else if spells(identifier, "EI") {
            Instruction::EnableInterrupts
        } else if spells(identifier, "DI") {
            Instruction::DisableInterrupts
        } else {
            return Err(ParserError::Expected { expected: "A nullary op", rest: self.rest() });
        };
        Ok(AssemblyLine::ResolvedInstruction(instruction))
    }

    fn parse_interrupt(&mut self) -> (r: Result<AssemblyLine<'input>, ParserError<'input>>)
        requires
            old(self).wf(),
        ensures
            old(self).moved_to(final(self)),
            line_outcome(r, final(self).position) == s_interrupt(old(self).t(), old(self).p()),
    {
        self.expect_identifier("INT")?;
        let target = self.expect_any_value()?;
        Ok(AssemblyLine::UnresolvedInstruction(UnresolvedInstruction::Int(target)))
    }

    fn expect_jump_condition(&mut self) -> (r: Result<Condition, ParserError<'input>>)
        requires
            old(self).wf(),
        ensures
            old(self).moved_to(final(self)),
            outcome(r, final(self).position) == s_jump_condition(old(self).t(), old(self).p()),
    {
        let condition = self.next();
        if is_word_token(condition, "JUMP") {
            Ok(Condition::Always)
        } else if is_word_token(condition, "JUMPIF") {
            let conditional = self.try_register();
            let conditional = self.expect(conditional, "A register to check")?;
            self.expect_comma()?;
            Ok(Condition::True(conditional))
        } else if is_word_token(condition, "JUMPIFNOT") {
            let conditional = self.try_register();
            let conditional = self.expect(conditional, "A register to check")?;
            self.expect_comma()?;
            Ok(Condition::False(conditional))
        } else {
            Err(ParserError::ExpectedInstruction { expected: "A jump", found: condition })
        }
    }

    /// A register and an optional `+` offset.
    fn expect_r_and_offset(&mut self) -> (r: Result<RegAndOff<'input>, ParserError<'input>>)
        requires
            old(self).wf(),
        ensures
            old(self).moved_to(final(self)),
            outcome(r, final(self).position) == s_reg_and_off(old(self).t(), old(self).p()),
    {
        let mreg = self.try_register();
        let mreg = self.expect(mreg, "A register")?;
        let plus = self.try_plus();
        let extra = if plus.is_some() {
            Some(self.expect_any_value()?)
        } else {
            None
        };
        Ok(RegAndOff { op1: mreg, off: extra })
    }

    fn expect_lvalue(&mut self) -> (r: Result<LValue<'input>, ParserError<'input>>)
        requires
            old(self).wf(),
        ensures
            old(self).moved_to(final(self)),
            outcome(r, final(self).position) == s_lvalue(old(self).t(), old(self).p()),
    {
        let register = self.try_register();
        if let Some(reg) = register {
            return Ok(LValue::Register(reg));
        }
        let indirect = self.try_open_bracket();
        self.expect(indirect, "An indirect address")?;
        let reg = self.try_register();
        Ok(match reg {
            None => {
                let absolute = self.expect_any_value()?;
                let close = self.try_close_bracket();
                self.expect(close, "Close bracket")?;
                LValue::Absolute(absolute)
            },
            Some(_) => {
                self.position = self.position - 1;
                let r = self.expect_r_and_offset()?;
                let close = self.try_close_bracket();
                self.expect(close, "Close bracket")?;
                LValue::Indirect(r)
            },
        })
    }

    fn parse_jump(&mut self) -> (r: Result<AssemblyLine<'input>, ParserError<'input>>)
        requires
            old(self).wf(),
        ensures
            old(self).moved_to(final(self)),
            line_outcome(r, final(self).position) == s_jump(old(self).t(), old(self).p()),
    {
        let condition = self.expect_jump_condition()?;
        let target = self.expect_rvalue()?;
        Ok(AssemblyLine::UnresolvedInstruction(UnresolvedInstruction::Jump { condition, target }))
    }

    fn parse_call(&mut self) -> (r: Result<AssemblyLine<'input>, ParserError<'input>>)
        requires
            old(self).wf(),
        ensures
            old(self).moved_to(final(self)),
            line_outcome(r, final(self).position) == s_call(old(self).t(), old(self).p()),
    {
        self.expect_identifier("CALL")?;
        let target = self.expect_rvalue()?;
        Ok(AssemblyLine::UnresolvedInstruction(UnresolvedInstruction::Call { target }))
    }

    fn parse_push(&mut self) -> (r: Result<AssemblyLine<'input>, ParserError<'input>>)
        requires
            old(self).wf(),
        ensures
            old(self).moved_to(final(self)),
            line_outcome(r, final(self).position) == s_push(old(self).t(), old(self).p()),
    {
        self.expect_identifier("PUSH")?;
        let reg = self.try_register();
        if let Some(r) = reg {
            return Ok(AssemblyLine::ResolvedInstruction(Instruction::Push { src: r }));
        }
        Err(ParserError::Expected { expected: "A location to push from", rest: self.rest() })
    }

    fn parse_pop(&mut self) -> (r: Result<AssemblyLine<'input>, ParserError<'input>>)
        requires
            old(self).wf(),
        ensures
            old(self).moved_to(final(self)),
            line_outcome(r, final(self).position) == s_pop(old(self).t(), old(self).p()),
    {
        self.expect_identifier("POP")?;
        let reg = self.try_register();
        if let Some(r) = reg {
            return Ok(AssemblyLine::ResolvedInstruction(Instruction::Pop { dst: r }));
        }
        Err(ParserError::Expected { expected: "A location to pop to", rest: self.rest() })
    }

    fn expect_rvalue(&mut self) -> (r: Result<RValue<'input>, ParserError<'input>>)
        requires
            old(self).wf(),
        ensures
            old(self).moved_to(final(self)),
            outcome(r, final(self).position) == s_rvalue(old(self).t(), old(self).p()),
    {
        let indirect = self.try_open_bracket();
        if indirect.is_none() {
            let register = self.try_register();
            if register.is_some() {
                self.position = self.position - 1;
                let r = self.expect_r_and_offset()?;
                return Ok(RValue::Register(r));
            }
            let absolute = self.expect_any_value()?;
            return Ok(RValue::Literal(absolute));
        }
        let reg = self.try_register();
        match reg {
            None => {
                let v = self.expect_any_value()?;
                let close = self.try_close_bracket();
                self.expect(close, "Close bracket")?;
                Ok(RValue::Absolute(v))
            },
            Some(_) => {
                self.position = self.position - 1;
                let r = self.expect_r_and_offset()?;
                let close = self.try_close_bracket();
                self.expect(close, "Close bracket")?;
                Ok(RValue::Indirect(r))
            },
        }
    }

    fn parse_mov(&mut self) -> (r: Result<AssemblyLine<'input>, ParserError<'input>>)
        requires
            old(self).wf(),
        ensures
            old(self).moved_to(final(self)),
            line_outcome(r, final(self).position) == s_mov(old(self).t(), old(self).p()),
    {
        self.expect_identifier("MOV")?;
        let dst = self.expect_lvalue()?;
        self.expect_comma()?;
        let src = self.expect_rvalue()?;
        Ok(AssemblyLine::UnresolvedInstruction(UnresolvedInstruction::Mov { dst, src }))
    }

    fn parse_mov8(&mut self) -> (r: Result<AssemblyLine<'input>, ParserError<'input>>)
        requires
            old(self).wf(),
        ensures
            old(self).moved_to(final(self)),
            line_outcome(r, final(self).position) == s_mov8(old(self).t(), old(self).p()),
    {
        self.expect_identifier("MOV8")?;
        let dst = self.expect_lvalue()?;
        self.expect_comma()?;
        let src = self.expect_rvalue()?;
        Ok(AssemblyLine::UnresolvedInstruction(UnresolvedInstruction::Mov8 { dst, src }))
    }

    /// `AADD` or `ASUB`.
    fn parse_mbin(&mut self) -> (r: Result<AssemblyLine<'input>, ParserError<'input>>)
        requires
            old(self).wf(),
        ensures
            old(self).moved_to(final(self)),
            line_outcome(r, final(self).position) == s_mbin(old(self).t(), old(self).p()),
    {
        let instr = self.peek();
        self.next();
        let dst = self.peek();
        match dst {
            Some(AssemblyToken::Register(dst)) => {
                self.next();
                self.expect_comma()?;
                let op = if is_word_token(instr, "AADD") {
                    MBinaryOp::Add
                } else if is_word_token(instr, "ASUB") {
                    MBinaryOp::Sub
                } else {
                    return Err(ParserError::Expected { expected: "ADD or SUB", rest: self.rest() });
                };
                let op1 = self.try_register();
                let op1 = self.expect(op1, "A source")?;
                self.expect_comma()?;
                let op2 = self.expect_rvalue()?;
                Ok(AssemblyLine::UnresolvedInstruction(UnresolvedInstruction::MBinary { op, dst, op1, op2 }))
            },
            _ => Err(ParserError::Expected { expected: "ADD or SUB", rest: self.rest() }),
        }
    }

    fn parse_settag(&mut self) -> (r: Result<AssemblyLine<'input>, ParserError<'input>>)
        requires
            old(self).wf(),
        ensures
            old(self).moved_to(final(self)),
            line_outcome(r, final(self).position) == s_settag(old(self).t(), old(self).p()),
    {
        self.expect_identifier("SETTAG")?;
        let dst = self.try_register();
        self.expect_comma()?;
        let dst = self.expect(dst, "A register")?;
        let src = self.try_register();
        let src = self.expect(src, "A machine register")?;
        Ok(AssemblyLine::ResolvedInstruction(Instruction::SetTag { dst, src }))
    }

    fn parse_gettag(&mut self) -> (r: Result<AssemblyLine<'input>, ParserError<'input>>)
        requires
            old(self).wf(),
        ensures
            old(self).moved_to(final(self)),
            line_outcome(r, final(self).position) == s_gettag(old(self).t(), old(self).p()),
    {
        self.expect_identifier("GETTAG")?;
        let dst = self.try_register();
        let dst = self.expect(dst, "A machine register")?;
        self.expect_comma()?;
        let src = self.try_register();
        let src = self.expect(src, "A register")?;
        Ok(AssemblyLine::ResolvedInstruction(Instruction::GetTag { dst, src }))
    }

    fn parse_setpayload(&mut self) -> (r: Result<AssemblyLine<'input>, ParserError<'input>>)
        requires
            old(self).wf(),
        ensures
            old(self).moved_to(final(self)),
            line_outcome(r, final(self).position) == s_setpayload(old(self).t(), old(self).p()),
    {
        self.expect_identifier("SETPAYLOAD")?;
        let dst = self.try_register();
        let dst = self.expect(dst, "A register")?;
        self.expect_comma()?;
        let src = self.try_register();
        let src = self.expect(src, "A machine register")?;
        Ok(AssemblyLine::ResolvedInstruction(Instruction::SetPayload { dst, src }))
    }

    fn parse_getpayload(&mut self) -> (r: Result<AssemblyLine<'input>, ParserError<'input>>)
        requires
            old(self).wf(),
        ensures
            old(self).moved_to(final(self)),
            line_outcome(r, final(self).position) == s_getpayload(old(self).t(), old(self).p()),
    {
        self.expect_identifier("GETPAYLOAD")?;
        let dst = self.try_register();
        let dst = self.expect(dst, "A machine register")?;
        self.expect_comma()?;
        let src = self.try_register();
        let src = self.expect(src, "A register")?;
        Ok(AssemblyLine::ResolvedInstruction(Instruction::GetPayload { dst, src }))
    }

    fn parse_req(&mut self) -> (r: Result<AssemblyLine<'input>, ParserError<'input>>)
        requires
            old(self).wf(),
        ensures
            old(self).moved_to(final(self)),
            line_outcome(r, final(self).position) == s_req(old(self).t(), old(self).p()),
    {
        self.expect_identifier("REQ")?;
        let dst = self.try_register();
        let dst = self.expect(dst, "A register")?;
        self.expect_comma()?;
        let prototype = self.try_register();
        let prototype = self.expect(prototype, "A register")?;
        self.expect_comma()?;
        let size = self.try_register();
        let size = self.expect(size, "A register")?;
        Ok(AssemblyLine::ResolvedInstruction(Instruction::Req { dst, prototype, size }))
    }

    fn parse_cons(&mut self) -> (r: Result<AssemblyLine<'input>, ParserError<'input>>)
        requires
            old(self).wf(),
        ensures
            old(self).moved_to(final(self)),
            line_outcome(r, final(self).position) == s_cons(old(self).t(), old(self).p()),
    {
        self.expect_identifier("CONS")?;
        let dst = self.try_register();
        let dst = self.expect(dst, "A register")?;
        self.expect_comma()?;
        let car = self.try_register();
        let car = self.expect(car, "A register")?;
        self.expect_comma()?;
        let cdr = self.try_register();
        let cdr = self.expect(cdr, "A register")?;
        Ok(AssemblyLine::ResolvedInstruction(Instruction::Cons { dst, car, cdr }))
    }

    fn parse_uncons(&mut self) -> (r: Result<AssemblyLine<'input>, ParserError<'input>>)
        requires
            old(self).wf(),
        ensures
            old(self).moved_to(final(self)),
            line_outcome(r, final(self).position) == s_uncons(old(self).t(), old(self).p()),
    {
        self.expect_identifier("UNCONS")?;
        let car = self.try_register();
        let car = self.expect(car, "A register")?;
        self.expect_comma()?;
        let cdr = self.try_register();
        let cdr = self.expect(cdr, "A register")?;
        self.expect_comma()?;
        let src = self.try_register();
        let src = self.expect(src, "A register")?;
        Ok(AssemblyLine::ResolvedInstruction(Instruction::Uncons { car, cdr, src }))
    }

    fn parse_car(&mut self) -> (r: Result<AssemblyLine<'input>, ParserError<'input>>)
        requires
            old(self).wf(),
        ensures
            old(self).moved_to(final(self)),
            line_outcome(r, final(self).position) == s_car(old(self).t(), old(self).p()),
    {
        self.expect_identifier("CAR")?;
        let dst = self.try_register();
        let dst = self.expect(dst, "A machine register")?;
        self.expect_comma()?;
        let src = self.try_register();
        let src = self.expect(src, "A register")?;
        Ok(AssemblyLine::ResolvedInstruction(Instruction::Car { dst, src }))
    }

    fn parse_cdr(&mut self) -> (r: Result<AssemblyLine<'input>, ParserError<'input>>)
        requires
            old(self).wf(),
        ensures
            old(self).moved_to(final(self)),
            line_outcome(r, final(self).position) == s_cdr(old(self).t(), old(self).p()),
    {
        self.expect_identifier("CDR")?;
        let dst = self.try_register();
        let dst = self.expect(dst, "A machine register")?;
        self.expect_comma()?;
        let src = self.try_register();
        let src = self.expect(src, "A register")?;
        Ok(AssemblyLine::ResolvedInstruction(Instruction::Cdr { dst, src }))
    }

    fn parse_setcar(&mut self) -> (r: Result<AssemblyLine<'input>, ParserError<'input>>)
        requires
            old(self).wf(),
        ensures
            old(self).moved_to(final(self)),
            line_outcome(r, final(self).position) == s_setcar(old(self).t(), old(self).p()),
    {
        self.expect_identifier("SETCAR")?;
        let dst = self.try_register();
        let dst = self.expect(dst, "A machine register")?;
        self.expect_comma()?;
        let src = self.try_register();
        let src = self.expect(src, "A register")?;
        Ok(AssemblyLine::ResolvedInstruction(Instruction::SetCar { dst, src }))
    }

    fn parse_setcdr(&mut self) -> (r: Result<AssemblyLine<'input>, ParserError<'input>>)
        requires
            old(self).wf(),
        ensures
            old(self).moved_to(final(self)),
            line_outcome(r, final(self).position) == s_setcdr(old(self).t(), old(self).p()),
    {
        self.expect_identifier("SETCDR")?;
        let dst = self.try_register();
        let dst = self.expect(dst, "A machine register")?;
        self.expect_comma()?;
        let src = self.try_register();
        let src = self.expect(src, "A register")?;
        Ok(AssemblyLine::ResolvedInstruction(Instruction::SetCdr { dst, src }))
    }

    /// `ADD`, `SUB`, `MUL`, `SHL` or `SHR`.
    fn parse_bin(&mut self) -> (r: Result<AssemblyLine<'input>, ParserError<'input>>)
        requires
            old(self).wf(),
        ensures
            old(self).moved_to(final(self)),
            line_outcome(r, final(self).position) == s_bin(old(self).t(), old(self).p()),
    {
        let instr = self.peek();
        self.next();
        let dst = self.try_register();
        let dst = self.expect(dst, "A destination register")?;
        self.expect_comma()?;
        let op = if is_word_token(instr, "ADD") {
            BinaryOp::Add
        } else if is_word_token(instr, "SUB") {
            BinaryOp::Sub
        } else if is_word_token(instr, "MUL") {
            BinaryOp::Mul
        } else if is_word_token(instr, "SHL") {
            BinaryOp::Shl
        } else if is_word_token(instr, "SHR") {
            BinaryOp::Shr
        } else {
            return Err(ParserError::Expected { expected: "A binary op", rest: self.rest() });
        };
        let op1 = self.try_register();
        let op1 = self.expect(op1, "A source")?;
        self.expect_comma()?;
        let op2 = self.expect_rvalue()?;
        Ok(AssemblyLine::UnresolvedInstruction(UnresolvedInstruction::Binary { op, dst, op1, op2 }))
    }

    fn parse_div(&mut self) -> (r: Result<AssemblyLine<'input>, ParserError<'input>>)
        requires
            old(self).wf(),
        ensures
            old(self).moved_to(final(self)),
            line_outcome(r, final(self).position) == s_div(old(self).t(), old(self).p()),
    {
        self.expect_identifier("DIV")?;
        let div = self.try_register();
        let div = self.expect(div, "A destination register")?;
        self.expect_comma()?;
        let rem = self.try_register();
        let rem = self.expect(rem, "A destination register")?;
        self.expect_comma()?;
        let op1 = self.try_register();
        let op1 = self.expect(op1, "A source")?;
        self.expect_comma()?;
        let op2 = self.expect_rvalue()?;
        Ok(AssemblyLine::UnresolvedInstruction(UnresolvedInstruction::IDiv { div, rem, op1, op2 }))
    }

    fn parse_makeclosure(&mut self) -> (r: Result<AssemblyLine<'input>, ParserError<'input>>)
        requires
            old(self).wf(),
        ensures
            old(self).moved_to(final(self)),
            line_outcome(r, final(self).position) == s_makeclosure(old(self).t(), old(self).p()),
    {
        self.expect_identifier("MAKECLOSURE")?;
        let dst = self.try_register();
        self.expect_comma()?;
        let dst = self.expect(dst, "A register")?;
        let code = self.try_register();
        let code = self.expect(code, "A machine register")?;
        Ok(AssemblyLine::ResolvedInstruction(Instruction::MakeClosure { dst, code }))
    }

    fn parse_typep(&mut self) -> (r: Result<AssemblyLine<'input>, ParserError<'input>>)
        requires
            old(self).wf(),
        ensures
            old(self).moved_to(final(self)),
            line_outcome(r, final(self).position) == s_typep(old(self).t(), old(self).p()),
    {
        self.expect_identifier("TYPEP")?;
        let dst = self.try_register();
        let dst = self.expect(dst, "A place to store result")?;
        self.expect_comma()?;
        let src = self.try_register();
        let src = self.expect(src, "A source")?;
        self.expect_comma()?;
        let compare = self.expect_any_value()?;
        Ok(AssemblyLine::UnresolvedInstruction(UnresolvedInstruction::Typep { dst, src, compare }))
    }

    fn expect_comma(&mut self) -> (r: Result<(), ParserError<'input>>)
        requires
            old(self).wf(),
        ensures
            old(self).moved_to(final(self)),
            outcome(r, final(self).position) == s_comma(old(self).t(), old(self).p()),
    {
        let comma = self.try_comma();
        self.expect(comma, "operand separator")
    }

    fn parse_memcpy(&mut self) -> (r: Result<AssemblyLine<'input>, ParserError<'input>>)
        requires
            old(self).wf(),
        ensures
            old(self).moved_to(final(self)),
            line_outcome(r, final(self).position) == s_memcpy(old(self).t(), old(self).p()),
    {
        self.expect_identifier("MEMCPY")?;
        let dst = self.try_register();
        let dst = self.expect(dst, "Register for dst")?;
        self.expect_comma()?;
        let src = self.try_register();
        let src = self.expect(src, "Register for src")?;
        self.expect_comma()?;
        let count = self.expect_rvalue()?;
        Ok(AssemblyLine::UnresolvedInstruction(UnresolvedInstruction::MemCpy { dst, src, count }))
    }

    /// `EQ`, `NE`, `GT`, `GTE`, `LT` or `LTE`.
    fn parse_comparison(&mut self) -> (r: Result<AssemblyLine<'input>, ParserError<'input>>)
        requires
            old(self).wf(),
        ensures
            old(self).moved_to(final(self)),
            line_outcome(r, final(self).position) == s_comparison(old(self).t(), old(self).p()),
    {
        let instr = self.peek();
        self.next();
        let dst = self.try_register();
        let dst = self.expect(dst, "A register")?;
        self.expect_comma()?;
        let op = if is_word_token(instr, "EQ") {
            Comparison::Eq
        } else if is_word_token(instr, "NE") {
            Comparison::Ne
        } else if is_word_token(instr, "GT") {
            Comparison::Gt
        } else if is_word_token(instr, "GTE") {
            Comparison::Gte
        } else if is_word_token(instr, "LT") {
            Comparison::Lt
        } else if is_word_token(instr, "LTE") {
            Comparison::Lte
        } else {
            return Err(ParserError::Expected { expected: "A comparison", rest: self.rest() });
        };
        let op1 = self.try_register();
        let op1 = self.expect(op1, "A source")?;
        self.expect_comma()?;
        let op2 = self.expect_rvalue()?;
        Ok(AssemblyLine::UnresolvedInstruction(UnresolvedInstruction::MComparison { op, dst, op1, op2 }))
    }

    /// The instruction at the current position, chosen by its name.
    fn try_instruction_line(&mut self) -> (r: Result<Option<AssemblyLine<'input>>, ParserError<'input>>)
        requires
            old(self).wf(),
        ensures
            old(self).moved_to(final(self)),
            opt_line_outcome(r, final(self).position) == s_instruction_line(old(self).t(), old(self).p()),
    {
        proof {
            reveal(s_instruction_line);
        }
        let instruction = self.peek();
        match instruction {
            Some(AssemblyToken::Identifier(id)) => {
                if is_word_token(instruction, "NOP") || is_word_token(instruction, "HALT") || is_word_token(instruction, "RETURN") || is_word_token(instruction, "IRETURN") || is_word_token(instruction, "DI") || is_word_token(instruction, "EI") {
                    Ok(Some(self.parse_nullary_op()?))
                } else if is_word_token(instruction, "INT") {
                    Ok(Some(self.parse_interrupt()?))
                } else if is_word_token(instruction, "CALL") {
                    Ok(Some(self.parse_call()?))
                } else if is_word_token(instruction, "JUMP") || is_word_token(instruction, "JUMPIF") || is_word_token(instruction, "JUMPIFNOT") {
                    Ok(Some(self.parse_jump()?))
                } else if is_word_token(instruction, "PUSH") {
                    Ok(Some(self.parse_push()?))
                } else if is_word_token(instruction, "POP") {
                    Ok(Some(self.parse_pop()?))
                } else if is_word_token(instruction, "MOV") {
                    Ok(Some(self.parse_mov()?))
                } else if is_word_token(instruction, "MOV8") {
                    Ok(Some(self.parse_mov8()?))
                } else if is_word_token(instruction, "AADD") || is_word_token(instruction, "ASUB") {
                    Ok(Some(self.parse_mbin()?))
                } else if is_word_token(instruction, "ADD") || is_word_token(instruction, "SUB") || is_word_token(instruction, "MUL") || is_word_token(instruction, "SHL") || is_word_token(instruction, "SHR") {
                    Ok(Some(self.parse_bin()?))
                } else if is_word_token(instruction, "DIV") {
                    Ok(Some(self.parse_div()?))
                } else if is_word_token(instruction, "EQ") || is_word_token(instruction, "NE") || is_word_token(instruction, "GT") || is_word_token(instruction, "GTE") || is_word_token(instruction, "LT") || is_word_token(instruction, "LTE") {
                    Ok(Some(self.parse_comparison()?))
                } else if is_word_token(instruction, "SETTAG") {
                    Ok(Some(self.parse_settag()?))
                } else if is_word_token(instruction, "GETTAG") {
                    Ok(Some(self.parse_gettag()?))
                } else if is_word_token(instruction, "SETPAYLOAD") {
                    Ok(Some(self.parse_setpayload()?))
                } else if is_word_token(instruction, "GETPAYLOAD") {
                    Ok(Some(self.parse_getpayload()?))
                } else if is_word_token(instruction, "REQ") {
                    Ok(Some(self.parse_req()?))
                } else if is_word_token(instruction, "CONS") {
                    Ok(Some(self.parse_cons()?))
                } else if is_word_token(instruction, "UNCONS") {
                    Ok(Some(self.parse_uncons()?))
                } else if is_word_token(instruction, "CAR") {
                    Ok(Some(self.parse_car()?))
                } else if is_word_token(instruction, "CDR") {
                    Ok(Some(self.parse_cdr()?))
                } else if is_word_token(instruction, "SETCAR") {
                    Ok(Some(self.parse_setcar()?))
                } else if is_word_token(instruction, "SETCDR") {
                    Ok(Some(self.parse_setcdr()?))
                } else if is_word_token(instruction, "MAKECLOSURE") {
                    Ok(Some(self.parse_makeclosure()?))
                } else if is_word_token(instruction, "TYPEP") {
                    Ok(Some(self.parse_typep()?))
                } else if is_word_token(instruction, "MEMCPY") {
                    Ok(Some(self.parse_memcpy()?))
                } else if is_word_token(instruction, "COMPARISON") {
                    Ok(Some(self.parse_comparison()?))
                } else {
                    Err(ParserError::UnknownInstruction { instruction: id })
                }
            },
            _ => Ok(None),
        }
    }

    /// One line: its label, directive and instruction, in that order.
    fn try_line(&mut self) -> (r: Result<Vec<AssemblyLine<'input>>, ParserError<'input>>)
        requires
            old(self).wf(),
        ensures
            old(self).moved_to(final(self)),
            match r {
                Ok(v) => s_line(old(self).t(), old(self).p()) == Ok::<(Seq<LineView<'input>>, int), ParseFailure<'input>>(
                    (lines_view(v@), final(self).p()),
                ),
                Err(e) => s_line(old(self).t(), old(self).p()) == Err::<(Seq<LineView<'input>>, int), ParseFailure<'input>>(e@),
            },
            r is Ok && old(self).p() < old(self).t().len() ==> old(self).p() < final(self).p(),
    {
        proof {
            reveal(s_line);
        }
        let mut parts: Vec<AssemblyLine<'input>> = Vec::new();
        let label = self.try_label_line();
        let dir = self.try_directive_line()?;
        let instr = self.try_instruction_line()?;
        self.try_comment();
        let eol = self.try_end();
        self.expect(eol, "End of line")?;
        let ghost lv: Seq<LineView<'input>> = match &label {
            Some(l) => seq![l@],
            None => Seq::empty(),
        };
        let ghost dv: Option<LineView<'input>> = match &dir {
            Some(d) => Some(d@),
            None => None,
        };
        let ghost iv: Option<LineView<'input>> = match &instr {
            Some(i) => Some(i@),
            None => None,
        };
        if let Some(label) = label {
            parts.push(label);
        }
        assert(lines_view(parts@) =~= lv);
        if let Some(dir) = dir {
            parts.push(dir);
        }
        assert(lines_view(parts@) =~= lv + opt_seq(dv));
        if let Some(instr) = instr {
            parts.push(instr);
        }
        assert(lines_view(parts@) =~= lv + opt_seq(dv) + opt_seq(iv));
        Ok(parts)
    }

    /// Lines until the tokens run out.
    fn runparse(&mut self) -> (r: Result<Vec<AssemblyLine<'input>>, ParserError<'input>>)
        requires
            old(self).wf(),
        ensures
            match r {
                Ok(v) => s_lines(old(self).t(), old(self).p()) == Ok::<Seq<LineView<'input>>, ParseFailure<'input>>(lines_view(v@)),
                Err(e) => s_lines(old(self).t(), old(self).p()) == Err::<Seq<LineView<'input>>, ParseFailure<'input>>(e@),
            },
    {
        let ghost t = self.t();
        let ghost p0 = self.p();
        let mut lines: Vec<AssemblyLine<'input>> = Vec::new();
        proof {
            if let Ok(more) = s_lines(t, p0) {
                assert(lines_view(lines@) + more =~= more);
            }
        }
        while self.position < self.tokens.len()
            invariant
                self.wf(),
                self.t() == t,
                t == old(self).t(),
                p0 == old(self).p(),
                s_lines(t, p0) == match s_lines(t, self.p()) {
                    Ok(more) => Ok::<Seq<LineView<'input>>, ParseFailure<'input>>(lines_view(lines@) + more),
                    Err(e) => Err(e),
                },
            decreases t.len() - self.p(),
        {
            let ghost before = self.p();
            let mut part = match self.try_line() {
                Ok(v) => v,
                Err(e) => {
                    assert(s_lines(t, before) == Err::<Seq<LineView<'input>>, ParseFailure<'input>>(e@));
                    return Err(e);
                },
            };
            proof {
                if let Ok(more) = s_lines(t, self.p()) {
                    assert(lines_view(lines@ + part@) =~= lines_view(lines@) + lines_view(part@));
                    assert(lines_view(lines@) + lines_view(part@) + more
                        =~= lines_view(lines@) + (lines_view(part@) + more));
                }
            }
            lines.append(&mut part);
        }
        assert(lines_view(lines@) + Seq::<LineView<'input>>::empty() =~= lines_view(lines@));
        Ok(lines)
    }
}

/// Reads assembly lines from tokens, as [`parsed`] states.
pub fn parse<'input>(tokens: &[AssemblyToken<'input>]) -> (r: Result<Vec<AssemblyLine<'input>>, ParserError<'input>>)
    ensures
        match r {
            Ok(v) => parsed(tokens@) == Ok::<Seq<LineView<'input>>, ParseFailure<'input>>(lines_view(v@)),
            Err(e) => parsed(tokens@) == Err::<Seq<LineView<'input>>, ParseFailure<'input>>(e@),
        },
{
    let mut p = NParser { tokens, position: 0 };
    let r = p.runparse()?;
    Ok(r)
}

} // verus!
