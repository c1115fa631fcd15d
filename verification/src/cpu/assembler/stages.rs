//! What each stage of assembly computes: placing lines into sections, replacing label
//! references with values, and laying the encoded bytes down.
use vstd::prelude::*;

use crate::cpu::assembler::grammar::LineView;
use crate::cpu::assembler::parser::{LValue, Native, RValue, Reference, RegAndOff, UnresolvedInstruction};
use crate::cpu::assembler::AssemblerError;
use crate::cpu::encoding::{decoded, encoding_of, lemma_encode_decode, packed, DecoderError};
use crate::bus::word_at;
use crate::cpu::{self, tagged, Instruction};
use vstd::bytes::spec_u64_to_le_bytes;

verus! {

/// The least multiple of `m` that is at least `x`.
pub open spec fn round_up(x: int, m: int) -> int {
    if x % m == 0 {
        x
    } else {
        x + (m - x % m)
    }
}

/// What rounding up gives: a multiple of `m`, at least `x` and less than `x + m`.
pub proof fn lemma_round_up(x: int, m: int)
    requires
        m > 0,
    ensures
        x <= round_up(x, m) < x + m,
        round_up(x, m) % m == 0,
{
    assert(0 <= x % m < m);
    if x % m != 0 {
        assert((x + (m - x % m)) % m == 0) by (nonlinear_arith)
            requires
                m > 0,
                0 < x % m < m,
        {
            assert(x == (x / m) * m + x % m);
            assert(x + (m - x % m) == (x / m + 1) * m);
        }
    }
}

/// A section as contracts see it.
pub struct SectionView<'a> {
    pub base: usize,
    pub size: usize,
    pub lines: Seq<LineView<'a>>,
}

/// Where layout stands after some lines: the next free address, the labels seen, the
/// sections closed so far and the one being filled (with its base).
pub struct LayoutState<'a> {
    pub position: usize,
    pub symbols: Map<Seq<u8>, usize>,
    pub sections: Seq<SectionView<'a>>,
    pub current: Option<Seq<LineView<'a>>>,
    pub base: usize,
}

pub open spec fn initial_layout<'a>() -> LayoutState<'a> {
    LayoutState {
        position: 0,
        symbols: Map::empty(),
        sections: Seq::empty(),
        current: None,
        base: 0,
    }
}

/// Whether a section from `base` to `position` would meet one already closed.
pub open spec fn overlaps<'a>(sections: Seq<SectionView<'a>>, base: usize, position: usize) -> bool {
    exists|k: int|
        0 <= k < sections.len() && !(base > sections[k].base + sections[k].size
            || position < sections[k].base)
}

/// Closes the section being filled, if any: its size is what it spans, rounded up to
/// a word.
pub open spec fn close_section<'a>(st: LayoutState<'a>) -> Result<LayoutState<'a>, AssemblerError<'a>> {
    match st.current {
        None => Ok(st),
        Some(lines) => {
            let size = round_up(st.position - st.base, 8);
            if size > usize::MAX {
                Err(AssemblerError::InvalidState)
            } else if overlaps(st.sections, st.base, st.position) {
                Err(AssemblerError::OverlappingSection(st.base))
            } else {
                Ok(
                    LayoutState {
                        sections: st.sections.push(SectionView { base: st.base, size: size as usize, lines }),
                        current: None,
                        ..st
                    },
                )
            }
        },
    }
}

/// Moves to `position` and adds `line` to the section being filled.
pub open spec fn place<'a>(st: LayoutState<'a>, position: int, line: LineView<'a>) -> Result<LayoutState<'a>, AssemblerError<'a>> {
    if position > usize::MAX {
        Err(AssemblerError::InvalidState)
    } else {
        match st.current {
            Some(lines) => Ok(LayoutState { position: position as usize, current: Some(lines.push(line)), ..st }),
            None => Err(AssemblerError::InvalidState),
        }
    }
}

/// Defines `name` as `value`, once.
pub open spec fn define<'a>(st: LayoutState<'a>, name: &'a [u8], value: usize) -> Result<LayoutState<'a>, AssemblerError<'a>> {
    if st.symbols.contains_key(name@) {
        Err(AssemblerError::DuplicateLabel(name))
    } else {
        Ok(LayoutState { symbols: st.symbols.insert(name@, value), ..st })
    }
}

/// One line's effect on layout: data takes its bytes rounded to a word, an instruction
/// two words at a 16-byte boundary; labels take the current address, `.equ` its
/// value; `.org` closes the current section and opens one at its address.
///
/// The 16-byte boundaries here are absolute addresses, while [`emit_lines`] aligns
/// instructions from the start of their section. The two agree for sections whose
/// base is a multiple of 16; in a section at `.org 8`, a label after one instruction
/// gets 32, while the next instruction is emitted at 24.
pub open spec fn layout_step<'a>(st: LayoutState<'a>, line: LineView<'a>) -> Result<LayoutState<'a>, AssemblerError<'a>> {
    match line {
        LineView::ResolvedData(d) => place(st, round_up(st.position + d.len(), 8), line),
        LineView::UnresolvedData(_) => place(st, st.position + 8, line),
        LineView::ResolvedInstruction(_) => place(st, round_up(st.position as int, 16) + 16, line),
        LineView::UnresolvedInstruction(_) => place(st, round_up(st.position as int, 16) + 16, line),
        LineView::Label(name) => define(st, name, st.position),
        LineView::Equ(name, value) => define(st, name, value),
        LineView::Org(p) => match close_section(st) {
            Err(e) => Err(e),
            Ok(s) => Ok(LayoutState { position: p, base: p, current: Some(Seq::empty()), ..s }),
        },
    }
}

pub open spec fn layout_lines<'a>(st: LayoutState<'a>, lines: Seq<LineView<'a>>) -> Result<LayoutState<'a>, AssemblerError<'a>>
    decreases lines.len(),
{
    if lines.len() == 0 {
        Ok(st)
    } else {
        match layout_step(st, lines[0]) {
            Err(e) => Err(e),
            Ok(s) => layout_lines(s, lines.subrange(1, lines.len() as int)),
        }
    }
}

/// The labels and sections of a program.
pub open spec fn laid_out<'a>(lines: Seq<LineView<'a>>) -> Result<(Map<Seq<u8>, usize>, Seq<SectionView<'a>>), AssemblerError<'a>> {
    match layout_lines(initial_layout(), lines) {
        Err(e) => Err(e),
        Ok(st) => match close_section(st) {
            Err(e) => Err(e),
            Ok(s) => Ok((s.symbols, s.sections)),
        },
    }
}

/// Layout keeps to the word and instruction grid: after data the position is the
/// first multiple of 8 at or past the data's end; after an unresolved data word it is
/// one word on; after an instruction it is 16 past the first multiple of 16 at or past
/// where it stood; labels and `.equ` leave it where it is.
pub proof fn lemma_layout_step_position<'a>(st: LayoutState<'a>, line: LineView<'a>)
    requires
        layout_step(st, line) is Ok,
    ensures
        ({
            let p = layout_step(st, line)->Ok_0.position as int;
            let q = st.position as int;
            &&& line matches LineView::ResolvedData(d) ==> p % 8 == 0 && q + d.len() <= p < q
                + d.len() + 8
            &&& line is UnresolvedData ==> p == q + 8
            &&& (line is ResolvedInstruction || line is UnresolvedInstruction) ==> (p - 16) % 16
                == 0 && q <= p - 16 < q + 16
            &&& (line is Label || line is Equ) ==> p == q
        }),
{
    lemma_round_up(st.position as int, 16);
    if let LineView::ResolvedData(d) = line {
        lemma_round_up(st.position + d.len(), 8);
    }
}

/// Laying out more lines keeps every label already defined, with its value.
proof fn lemma_layout_keeps_symbols<'a>(st: LayoutState<'a>, lines: Seq<LineView<'a>>)
    ensures
        layout_lines(st, lines) matches Ok(f) ==> forall|key: Seq<u8>|
            #[trigger] st.symbols.contains_key(key) ==> f.symbols.contains_key(key)
                && f.symbols[key] == st.symbols[key],
    decreases lines.len(),
{
    if lines.len() > 0 {
        if let Ok(s) = layout_step(st, lines[0]) {
            lemma_layout_keeps_symbols(s, lines.subrange(1, lines.len() as int));
            assert forall|key: Seq<u8>| #[trigger] st.symbols.contains_key(key) implies s.symbols.contains_key(key)
                && s.symbols[key] == st.symbols[key] by {
                if let LineView::Label(name) = lines[0] {
                    assert(!st.symbols.contains_key(name@));
                }
                if let LineView::Equ(name, v) = lines[0] {
                    assert(!st.symbols.contains_key(name@));
                }
            }
        }
    }
}

/// Laying out lines is laying out a prefix of them, then the rest from where it ends.
proof fn lemma_layout_prefix<'a>(st: LayoutState<'a>, lines: Seq<LineView<'a>>, k: int)
    requires
        0 <= k <= lines.len(),
    ensures
        layout_lines(st, lines) matches Ok(f) ==> layout_lines(st, lines.take(k)) matches Ok(mid)
            && layout_lines(mid, lines.skip(k)) == Ok::<LayoutState<'a>, AssemblerError<'a>>(f),
    decreases k,
{
    if k == 0 {
        assert(lines.take(0) =~= Seq::<LineView<'a>>::empty());
        assert(lines.skip(0) =~= lines);
    } else {
        let rest = lines.subrange(1, lines.len() as int);
        if let Ok(s) = layout_step(st, lines[0]) {
            lemma_layout_prefix(s, rest, k - 1);
            assert(lines.take(k)[0] == lines[0]);
            assert(lines.take(k).subrange(1, k) =~= rest.take(k - 1));
            assert(rest.skip(k - 1) =~= lines.skip(k));
        }
    }
}

/// A label stands for the address layout has reached at its line: the position after
/// laying out every line before it.
pub proof fn lemma_label_value<'a>(lines: Seq<LineView<'a>>, k: int)
    requires
        0 <= k < lines.len(),
        lines[k] is Label,
        laid_out(lines) is Ok,
    ensures
        layout_lines(initial_layout(), lines.take(k)) matches Ok(st) && laid_out(lines)->Ok_0.0.contains_key(
            lines[k]->Label_0@,
        ) && laid_out(lines)->Ok_0.0[lines[k]->Label_0@] == st.position,
{
    let f = layout_lines(initial_layout(), lines)->Ok_0;
    lemma_layout_prefix(initial_layout(), lines, k);
    let mid = layout_lines(initial_layout(), lines.take(k))->Ok_0;
    let rest = lines.skip(k);
    assert(rest[0] == lines[k]);
    let s = layout_step(mid, rest[0])->Ok_0;
    let name = lines[k]->Label_0;
    assert(s.symbols.contains_key(name@) && s.symbols[name@] == mid.position);
    lemma_layout_keeps_symbols(s, rest.subrange(1, rest.len() as int));
    assert(f.symbols.contains_key(name@));
}

/// A label right after a data line stands for the first word boundary at or past the
/// data's end, which is where the line after it is laid out.
pub proof fn lemma_label_after_data<'a>(lines: Seq<LineView<'a>>, k: int)
    requires
        1 <= k < lines.len(),
        lines[k] is Label,
        lines[k - 1] is ResolvedData,
        laid_out(lines) is Ok,
    ensures
        layout_lines(initial_layout(), lines.take(k - 1)) matches Ok(before) && ({
            let v = laid_out(lines)->Ok_0.0[lines[k]->Label_0@] as int;
            let end = before.position + lines[k - 1]->ResolvedData_0.len();
            v % 8 == 0 && end <= v < end + 8
        }),
{
    lemma_label_value(lines, k);
    let pre = lines.take(k);
    let at = layout_lines(initial_layout(), pre)->Ok_0;
    lemma_layout_prefix(initial_layout(), pre, k - 1);
    assert(pre.take(k - 1) =~= lines.take(k - 1));
    let before = layout_lines(initial_layout(), lines.take(k - 1))->Ok_0;
    let last = pre.skip(k - 1);
    assert(last.len() == 1 && last[0] == lines[k - 1]);
    assert(last.subrange(1, 1) =~= Seq::<LineView<'a>>::empty());
    assert(layout_lines(before, last) == Ok::<LayoutState<'a>, AssemblerError<'a>>(at));
    assert(layout_step(before, lines[k - 1]) is Ok);
    let s1 = layout_step(before, lines[k - 1])->Ok_0;
    assert(layout_lines(s1, Seq::<LineView<'a>>::empty()) == Ok::<LayoutState<'a>, AssemblerError<'a>>(s1));
    assert(at == s1);
    lemma_layout_step_position(before, lines[k - 1]);
}

/// The value a reference stands for, or the label it names that is not defined.
pub open spec fn reference_value<'a>(r: Reference<'a>, symbols: Map<Seq<u8>, usize>) -> Result<usize, &'a [u8]> {
    match r {
        Reference::Resolved(v) => Ok(v as usize),
        Reference::Unresolved(name) => if symbols.contains_key(name@) {
            Ok(symbols[name@])
        } else {
            Err(name)
        },
    }
}

pub open spec fn native_reference<'a>(n: Native<'a>) -> Reference<'a> {
    match n {
        Native::Raw(r) => r,
        Native::Char(r) => r,
        Native::Fixnum(r) => r,
        Native::Cons(r) => r,
        Native::Symbol(r) => r,
        Native::String(r) => r,
    }
}

/// The word that encodes value `v` the way `n` asks.
pub open spec fn native_word<'a>(n: Native<'a>, v: usize) -> u64 {
    match n {
        Native::Raw(_) => v as u64,
        Native::Char(_) => tagged(6, (v as u64) & 0xff),
        Native::Fixnum(_) => tagged(0, ((v as i64) as u64)),
        Native::Cons(_) => tagged(3, v as u64),
        Native::Symbol(_) => tagged(2, v as u64),
        Native::String(_) => tagged(7, v as u64),
    }
}

pub open spec fn data_value<'a>(n: Native<'a>, symbols: Map<Seq<u8>, usize>) -> Result<cpu::Native, &'a [u8]> {
    match reference_value(native_reference(n), symbols) {
        Ok(v) => Ok(cpu::Native(native_word(n, v))),
        Err(name) => Err(name),
    }
}

pub open spec fn reg_and_off_value<'a>(r: RegAndOff<'a>, symbols: Map<Seq<u8>, usize>) -> Result<cpu::RegAndOff, &'a [u8]> {
    match r.off {
        None => Ok(cpu::RegAndOff { op1: r.op1, off: None }),
        Some(off) => match data_value(off, symbols) {
            Ok(v) => Ok(cpu::RegAndOff { op1: r.op1, off: Some(v) }),
            Err(name) => Err(name),
        },
    }
}

pub open spec fn lvalue_value<'a>(l: LValue<'a>, symbols: Map<Seq<u8>, usize>) -> Result<cpu::LValue, &'a [u8]> {
    match l {
        LValue::Absolute(n) => match data_value(n, symbols) {
            Ok(v) => Ok(cpu::LValue::Absolute(cpu::Address(v.0))),
            Err(name) => Err(name),
        },
        LValue::Indirect(r) => match reg_and_off_value(r, symbols) {
            Ok(v) => Ok(cpu::LValue::Indirect(v)),
            Err(name) => Err(name),
        },
        LValue::Register(r) => Ok(cpu::LValue::Register(r)),
    }
}

pub open spec fn rvalue_value<'a>(r: RValue<'a>, symbols: Map<Seq<u8>, usize>) -> Result<cpu::RValue, &'a [u8]> {
    match r {
        RValue::Literal(n) => match data_value(n, symbols) {
            Ok(v) => Ok(cpu::RValue::Literal(v)),
            Err(name) => Err(name),
        },
        RValue::Register(ro) => match reg_and_off_value(ro, symbols) {
            Ok(v) => Ok(cpu::RValue::Register(v)),
            Err(name) => Err(name),
        },
        RValue::Absolute(n) => match data_value(n, symbols) {
            Ok(v) => Ok(cpu::RValue::Absolute(cpu::Address(v.0))),
            Err(name) => Err(name),
        },
        RValue::Indirect(ro) => match reg_and_off_value(ro, symbols) {
            Ok(v) => Ok(cpu::RValue::Indirect(v)),
            Err(name) => Err(name),
        },
    }
}

/// The instruction with its references replaced by values; operands are resolved in
/// the order they are written, and the first undefined label is reported.
pub open spec fn instruction_value<'a>(u: UnresolvedInstruction<'a>, symbols: Map<Seq<u8>, usize>) -> Result<Instruction, &'a [u8]> {
    match u {
        UnresolvedInstruction::Binary { op, dst, op1, op2 } => match rvalue_value(op2, symbols) {
            Ok(v) => Ok(Instruction::Binary { op, dst, op1, op2: v }),
            Err(name) => Err(name),
        },
        UnresolvedInstruction::Call { target } => match rvalue_value(target, symbols) {
            Ok(v) => Ok(Instruction::Call { target: v }),
            Err(name) => Err(name),
        },
        UnresolvedInstruction::IDiv { div, rem, op1, op2 } => match rvalue_value(op2, symbols) {
            Ok(v) => Ok(Instruction::IDiv { div, rem, op1, op2: v }),
            Err(name) => Err(name),
        },
        UnresolvedInstruction::Int(i) => match data_value(i, symbols) {
            Ok(v) => Ok(Instruction::Int(v.0)),
            Err(name) => Err(name),
        },
        UnresolvedInstruction::Jump { condition, target } => match rvalue_value(target, symbols) {
            Ok(v) => Ok(Instruction::Jump { condition, target: v }),
            Err(name) => Err(name),
        },
        UnresolvedInstruction::MBinary { op, dst, op1, op2 } => match rvalue_value(op2, symbols) {
            Ok(v) => Ok(Instruction::MBinary { op, dst, op1, op2: v }),
            Err(name) => Err(name),
        },
        UnresolvedInstruction::MComparison { op, dst, op1, op2 } => match rvalue_value(op2, symbols) {
            Ok(v) => Ok(Instruction::Comparison { op, dst, op1, op2: v }),
            Err(name) => Err(name),
        },
        UnresolvedInstruction::Mov { dst, src } => match lvalue_value(dst, symbols) {
            Err(name) => Err(name),
            Ok(d) => match rvalue_value(src, symbols) {
                Ok(s) => Ok(Instruction::Mov { dst: d, src: s }),
                Err(name) => Err(name),
            },
        },
        UnresolvedInstruction::Mov8 { dst, src } => match lvalue_value(dst, symbols) {
            Err(name) => Err(name),
            Ok(d) => match rvalue_value(src, symbols) {
                Ok(s) => Ok(Instruction::Mov8 { dst: d, src: s }),
                Err(name) => Err(name),
            },
        },
        UnresolvedInstruction::Typep { dst, src, compare } => match data_value(compare, symbols) {
            Ok(v) => Ok(Instruction::Typep { dst, src, compare: v }),
            Err(name) => Err(name),
        },
        UnresolvedInstruction::MemCpy { dst, src, count } => match rvalue_value(count, symbols) {
            Ok(v) => Ok(Instruction::MemCpy { dst, src, count: v }),
            Err(name) => Err(name),
        },
    }
}

/// A line with its references replaced: data becomes its little-endian bytes, an
/// instruction its resolved form; other lines stay as they are.
pub open spec fn line_value<'a>(l: LineView<'a>, symbols: Map<Seq<u8>, usize>) -> Result<LineView<'a>, &'a [u8]> {
    match l {
        LineView::UnresolvedData(d) => match data_value(d, symbols) {
            Ok(v) => Ok(LineView::ResolvedData(spec_u64_to_le_bytes(v.0))),
            Err(name) => Err(name),
        },
        LineView::UnresolvedInstruction(u) => match instruction_value(u, symbols) {
            Ok(i) => Ok(LineView::ResolvedInstruction(i)),
            Err(name) => Err(name),
        },
        _ => Ok(l),
    }
}

pub open spec fn lines_value<'a>(lines: Seq<LineView<'a>>, symbols: Map<Seq<u8>, usize>) -> Result<Seq<LineView<'a>>, &'a [u8]>
    decreases lines.len(),
{
    if lines.len() == 0 {
        Ok(Seq::empty())
    } else {
        match line_value(lines[0], symbols) {
            Err(name) => Err(name),
            Ok(l) => match lines_value(lines.subrange(1, lines.len() as int), symbols) {
                Ok(rest) => Ok(seq![l] + rest),
                Err(name) => Err(name),
            },
        }
    }
}

/// Every section with its lines resolved, or the first undefined label in order.
pub open spec fn sections_value<'a>(sections: Seq<SectionView<'a>>, symbols: Map<Seq<u8>, usize>) -> Result<Seq<SectionView<'a>>, &'a [u8]>
    decreases sections.len(),
{
    if sections.len() == 0 {
        Ok(Seq::empty())
    } else {
        match lines_value(sections[0].lines, symbols) {
            Err(name) => Err(name),
            Ok(ls) => match sections_value(sections.subrange(1, sections.len() as int), symbols) {
                Ok(rest) => Ok(seq![SectionView { lines: ls, ..sections[0] }] + rest),
                Err(name) => Err(name),
            },
        }
    }
}

/// `buf` with `data` written from `at` on.
pub open spec fn overwrite(buf: Seq<u8>, at: int, data: Seq<u8>) -> Seq<u8> {
    buf.subrange(0, at) + data + buf.subrange(at + data.len(), buf.len() as int)
}

/// The two words an instruction is encoded as; `None` where the format cannot hold it.
#[verifier::opaque]
pub open spec fn instruction_words(i: Instruction) -> Option<(u64, u64)> {
    match encoding_of(i) {
        Some(f) => Some(packed(f)),
        None => None,
    }
}

/// The bytes of a section's lines written into `buf` from `pos` (relative to the
/// section): data at the next free byte, then rounded to a word; instructions as two
/// little-endian words at a 16-byte boundary.
pub open spec fn emit_lines<'a>(lines: Seq<LineView<'a>>, buf: Seq<u8>, pos: int) -> Result<Seq<u8>, AssemblerError<'a>>
    decreases lines.len(),
{
    if lines.len() == 0 {
        Ok(buf)
    } else {
        let rest = lines.subrange(1, lines.len() as int);
        match lines[0] {
            LineView::ResolvedData(d) => if pos + d.len() <= buf.len() {
                emit_lines(rest, overwrite(buf, pos, d), round_up(pos + d.len(), 8))
            } else {
                Err(AssemblerError::InvalidState)
            },
            LineView::ResolvedInstruction(i) => {
                let at = round_up(pos, 16);
                match instruction_words(i) {
                    None => Err(AssemblerError::InvalidInstruction),
                    Some((lo, hi)) => if at + 16 <= buf.len() {
                        emit_lines(
                            rest,
                            overwrite(overwrite(buf, at, spec_u64_to_le_bytes(lo)), at + 8, spec_u64_to_le_bytes(hi)),
                            at + 16,
                        )
                    } else {
                        Err(AssemblerError::InvalidState)
                    },
                }
            },
            LineView::UnresolvedData(_) => Err(AssemblerError::IncompleteResolution),
            LineView::UnresolvedInstruction(_) => Err(AssemblerError::IncompleteResolution),
            _ => emit_lines(rest, buf, pos),
        }
    }
}

/// Emitting lines from `pos` leaves every byte before `pos` as it was, and the
/// buffer's length too.
proof fn lemma_emit_keeps_below<'a>(lines: Seq<LineView<'a>>, buf: Seq<u8>, pos: int)
    requires
        0 <= pos,
    ensures
        emit_lines(lines, buf, pos) matches Ok(out) ==> out.len() == buf.len() && forall|j: int|
            0 <= j < pos && j < buf.len() ==> #[trigger] out[j] == buf[j],
    decreases lines.len(),
{
    if lines.len() > 0 {
        let rest = lines.subrange(1, lines.len() as int);
        match lines[0] {
            LineView::ResolvedData(d) => {
                if pos + d.len() <= buf.len() {
                    lemma_round_up(pos + d.len(), 8);
                    lemma_emit_keeps_below(rest, overwrite(buf, pos, d), round_up(pos + d.len(), 8));
                }
            },
            LineView::ResolvedInstruction(i) => {
                let at = round_up(pos, 16);
                lemma_round_up(pos, 16);
                if let Some((lo, hi)) = instruction_words(i) {
                    if at + 16 <= buf.len() {
                        vstd::bytes::lemma_auto_spec_u64_to_from_le_bytes();
                        lemma_emit_keeps_below(
                            rest,
                            overwrite(overwrite(buf, at, spec_u64_to_le_bytes(lo)), at + 8, spec_u64_to_le_bytes(hi)),
                            at + 16,
                        );
                    }
                }
            },
            _ => {
                lemma_emit_keeps_below(rest, buf, pos);
            },
        }
    }
}

/// What emit lays down for an instruction reads back as that instruction: the two
/// little-endian words at the first 16-byte boundary at or past its position decode
/// to it, whatever the lines after it write.
pub proof fn lemma_emitted_instruction_decodes<'a>(
    i: Instruction,
    rest: Seq<LineView<'a>>,
    buf: Seq<u8>,
    pos: int,
)
    requires
        0 <= pos,
        emit_lines(seq![LineView::ResolvedInstruction(i)] + rest, buf, pos) is Ok,
    ensures
        ({
            let out = emit_lines(seq![LineView::ResolvedInstruction(i)] + rest, buf, pos)->Ok_0;
            let at = round_up(pos, 16);
            decoded(word_at(out, at), word_at(out, at + 8)) == Ok::<Instruction, DecoderError>(i)
        }),
{
    let lines = seq![LineView::ResolvedInstruction(i)] + rest;
    assert(lines[0] == LineView::ResolvedInstruction(i));
    assert(lines.subrange(1, lines.len() as int) =~= rest);
    reveal(instruction_words);
    let f = encoding_of(i).unwrap();
    let (lo, hi) = packed(f);
    lemma_encode_decode(i);
    let at = round_up(pos, 16);
    lemma_round_up(pos, 16);
    vstd::bytes::lemma_auto_spec_u64_to_from_le_bytes();
    let b2 = overwrite(overwrite(buf, at, spec_u64_to_le_bytes(lo)), at + 8, spec_u64_to_le_bytes(hi));
    lemma_emit_keeps_below(rest, b2, at + 16);
    let out = emit_lines(rest, b2, at + 16)->Ok_0;
    assert(out.subrange(at, at + 8) =~= spec_u64_to_le_bytes(lo)) by {
        assert forall|j: int| at <= j < at + 8 implies out[j] == b2[j] by {}
    }
    assert(out.subrange(at + 8, at + 16) =~= spec_u64_to_le_bytes(hi)) by {
        assert forall|j: int| at + 8 <= j < at + 16 implies out[j] == b2[j] by {}
    }
}

/// A section's bytes: its size rounded up to a word, one more word of padding, and
/// its lines written in.
pub open spec fn section_bytes<'a>(s: SectionView<'a>) -> Result<Seq<u8>, AssemblerError<'a>> {
    let len = round_up(s.size as int, 8) + 8;
    if len > usize::MAX {
        Err(AssemblerError::InvalidState)
    } else {
        emit_lines(s.lines, Seq::new(len as nat, |i: int| 0u8), 0)
    }
}

/// An assembled section as contracts see it.
pub struct SectionImage {
    pub base: usize,
    pub data: Seq<u8>,
}

pub open spec fn emitted<'a>(sections: Seq<SectionView<'a>>) -> Result<Seq<SectionImage>, AssemblerError<'a>>
    decreases sections.len(),
{
    if sections.len() == 0 {
        Ok(Seq::empty())
    } else {
        match section_bytes(sections[0]) {
            Err(e) => Err(e),
            Ok(data) => match emitted(sections.subrange(1, sections.len() as int)) {
                Ok(rest) => Ok(seq![SectionImage { base: sections[0].base, data }] + rest),
                Err(e) => Err(e),
            },
        }
    }
}

/// A line that names no label any more.
pub open spec fn is_resolved<'a>(l: LineView<'a>) -> bool {
    !(l is UnresolvedData) && !(l is UnresolvedInstruction)
}

/// Resolving lines leaves none that still names a label.
pub proof fn lemma_lines_value_resolved<'a>(lines: Seq<LineView<'a>>, symbols: Map<Seq<u8>, usize>)
    ensures
        lines_value(lines, symbols) matches Ok(r) ==> r.len() == lines.len() && forall|k: int|
            0 <= k < r.len() ==> is_resolved(#[trigger] r[k]),
    decreases lines.len(),
{
    if lines.len() > 0 {
        lemma_lines_value_resolved(lines.subrange(1, lines.len() as int), symbols);
        if let Ok(r) = lines_value(lines, symbols) {
            let rest = lines_value(lines.subrange(1, lines.len() as int), symbols).unwrap();
            assert forall|k: int| 0 <= k < r.len() implies is_resolved(#[trigger] r[k]) by {
                if k > 0 {
                    assert(r[k] == rest[k - 1]);
                }
            }
        }
    }
}

/// Resolving a layout keeps every section where it was and leaves no line that still
/// names a label.
pub proof fn lemma_sections_value_resolved<'a>(sections: Seq<SectionView<'a>>, symbols: Map<Seq<u8>, usize>)
    ensures
        sections_value(sections, symbols) matches Ok(r) ==> {
            &&& r.len() == sections.len()
            &&& forall|k: int| 0 <= k < r.len() ==> (#[trigger] r[k]).base == sections[k].base
                && r[k].size == sections[k].size && r[k].lines.len() == sections[k].lines.len()
            &&& forall|k: int, j: int| 0 <= k < r.len() && 0 <= j < r[k].lines.len() ==> is_resolved(
                #[trigger] r[k].lines[j],
            )
        },
    decreases sections.len(),
{
    if sections.len() > 0 {
        let tail = sections.subrange(1, sections.len() as int);
        lemma_sections_value_resolved(tail, symbols);
        lemma_lines_value_resolved(sections[0].lines, symbols);
        if let Ok(r) = sections_value(sections, symbols) {
            let rest = sections_value(tail, symbols).unwrap();
            assert forall|k: int| 0 <= k < r.len() implies (#[trigger] r[k]).base == sections[k].base
                && r[k].size == sections[k].size && r[k].lines.len() == sections[k].lines.len() by {
                if k > 0 {
                    assert(r[k] == rest[k - 1]);
                }
            }
            assert forall|k: int, j: int| 0 <= k < r.len() && 0 <= j < r[k].lines.len() implies is_resolved(
                #[trigger] r[k].lines[j],
            ) by {
                if k > 0 {
                    assert(r[k] == rest[k - 1]);
                }
            }
        }
    }
}

/// Writing a section's lines keeps its buffer's length.
pub proof fn lemma_emit_lines_length<'a>(lines: Seq<LineView<'a>>, buf: Seq<u8>, pos: int)
    requires
        0 <= pos,
    ensures
        emit_lines(lines, buf, pos) matches Ok(out) ==> out.len() == buf.len(),
    decreases lines.len(),
{
    if lines.len() > 0 {
        let rest = lines.subrange(1, lines.len() as int);
        match lines[0] {
            LineView::ResolvedData(d) => {
                if pos + d.len() <= buf.len() {
                    lemma_round_up(pos + d.len(), 8);
                    lemma_emit_lines_length(rest, overwrite(buf, pos, d), round_up(pos + d.len(), 8));
                }
            },
            LineView::ResolvedInstruction(i) => {
                let at = round_up(pos, 16);
                lemma_round_up(pos, 16);
                if let Some((lo, hi)) = instruction_words(i) {
                    if at + 16 <= buf.len() {
                        vstd::bytes::lemma_auto_spec_u64_to_from_le_bytes();
                        lemma_emit_lines_length(
                            rest,
                            overwrite(overwrite(buf, at, spec_u64_to_le_bytes(lo)), at + 8, spec_u64_to_le_bytes(hi)),
                            at + 16,
                        );
                    }
                }
            },
            _ => {
                lemma_emit_lines_length(rest, buf, pos);
            },
        }
    }
}

/// Each emitted section starts at its base and holds its size rounded up to a word,
/// plus one word.
pub proof fn lemma_emitted_sections<'a>(sections: Seq<SectionView<'a>>)
    ensures
        emitted(sections) matches Ok(images) ==> {
            &&& images.len() == sections.len()
            &&& forall|k: int| 0 <= k < images.len() ==> (#[trigger] images[k]).base == sections[k].base
                && images[k].data.len() == round_up(sections[k].size as int, 8) + 8
        },
    decreases sections.len(),
{
    if sections.len() > 0 {
        let tail = sections.subrange(1, sections.len() as int);
        lemma_emitted_sections(tail);
        let len = round_up(sections[0].size as int, 8) + 8;
        lemma_round_up(sections[0].size as int, 8);
        lemma_emit_lines_length(sections[0].lines, Seq::new(len as nat, |i: int| 0u8), 0);
        if let Ok(images) = emitted(sections) {
            let rest = emitted(tail).unwrap();
            assert forall|k: int| 0 <= k < images.len() implies (#[trigger] images[k]).base == sections[k].base
                && images[k].data.len() == round_up(sections[k].size as int, 8) + 8 by {
                if k > 0 {
                    assert(images[k] == rest[k - 1]);
                    assert(sections[k] == tail[k - 1]);
                }
            }
        }
    }
}

} // verus!
