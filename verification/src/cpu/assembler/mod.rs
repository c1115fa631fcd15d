use vstd::prelude::*;

pub mod grammar;
pub mod parser;
pub mod stages;
pub mod symbols;
pub mod text;
pub mod tokenizer;

use crate::cpu::assembler::grammar::{parsed, LineView, ParseFailure};
use crate::cpu::assembler::parser::{
    lines_view, parse, AssemblyLine, LValue, Native, ParserError, RValue, Reference, RegAndOff,
    UnresolvedInstruction,
};
use crate::cpu::assembler::stages::{
    instruction_words,
    close_section, data_value, emitted, initial_layout, instruction_value, laid_out, layout_lines,
    layout_step, line_value, lines_value, lvalue_value, overlaps, reference_value,
    reg_and_off_value, round_up, rvalue_value, lemma_round_up, section_bytes, sections_value, emit_lines,
    overwrite, LayoutState, SectionImage, SectionView,
};
use crate::cpu::assembler::symbols::SymbolTable;
use crate::cpu::assembler::tokenizer::{tokenize, tokenized, AssemblyToken, TokenView, TokenizeError};
use crate::cpu::{self, Instruction, LispWord};
use vstd::bytes::spec_u64_to_le_bytes;
use vstd::string::StringSliceAdditionalSpecFns;

verus! {

/// The registers of the calling convention.
pub struct AbiRegisters {}

impl AbiRegisters {
    /// Argument registers: quick arguments for functions.
    pub const A0: u8 = 226;
    pub const A1: u8 = 227;
    pub const A2: u8 = 228;
    pub const A3: u8 = 229;
    pub const A4: u8 = 230;
    pub const A5: u8 = 231;
    pub const A6: u8 = 232;
    pub const A7: u8 = 233;
    /// Argument counter: beyond eight, the rest are on the stack.
    pub const AN: u8 = 234;
    /// Result registers: return values.
    pub const R0: u8 = 235;
    pub const R1: u8 = 236;
    pub const R2: u8 = 237;
    pub const R3: u8 = 238;
    /// Result value counter.
    pub const RN: u8 = 239;
    /// Pointer to the extra value area.
    pub const RX: u8 = 240;
}

#[derive(Debug)]
pub enum AssemblerError<'a> {
    InvalidInstruction,
    TokenizerError(TokenizeError<'a>),
    ParserError(ParserError<'a>),
    UnresolvedReference(&'a [u8]),
    IncompleteResolution,
    InvalidState,
    OverlappingSection(usize),
    DuplicateLabel(&'a [u8]),
}

impl<'a> From<TokenizeError<'a>> for AssemblerError<'a> {
    fn from(value: TokenizeError<'a>) -> (r: Self) {
        AssemblerError::TokenizerError(value)
    }
}

impl<'a> vstd::std_specs::convert::FromSpecImpl<TokenizeError<'a>> for AssemblerError<'a> {
    open spec fn obeys_from_spec() -> bool {
        true
    }

    open spec fn from_spec(v: TokenizeError<'a>) -> AssemblerError<'a> {
        AssemblerError::TokenizerError(v)
    }
}

impl<'a> From<ParserError<'a>> for AssemblerError<'a> {
    fn from(value: ParserError<'a>) -> (r: Self) {
        AssemblerError::ParserError(value)
    }
}

impl<'a> vstd::std_specs::convert::FromSpecImpl<ParserError<'a>> for AssemblerError<'a> {
    open spec fn obeys_from_spec() -> bool {
        true
    }

    open spec fn from_spec(v: ParserError<'a>) -> AssemblerError<'a> {
        AssemblerError::ParserError(v)
    }
}

/// An assembled block of bytes to be placed at `base`.
#[derive(Debug, Clone, PartialEq)]
pub struct Section {
    pub data: Vec<u8>,
    pub base: usize,
}

pub open spec fn section_image(s: Section) -> SectionImage {
    SectionImage { base: s.base, data: s.data@ }
}

/// The lines that go into one section, with where it starts and how many bytes it spans.
pub struct LayoutSection<'a> {
    pub base: usize,
    pub size: usize,
    pub lines: Vec<AssemblyLine<'a>>,
}

pub open spec fn section_view<'a>(s: LayoutSection<'a>) -> SectionView<'a> {
    SectionView { base: s.base, size: s.size, lines: lines_view(s.lines@) }
}

pub open spec fn sections_view<'a>(s: Seq<LayoutSection<'a>>) -> Seq<SectionView<'a>> {
    s.map_values(|x: LayoutSection<'a>| section_view(x))
}

/// A program placed in memory: its labels and its sections.
pub struct Layout<'a> {
    pub symbols: SymbolTable<'a>,
    pub sections: Vec<LayoutSection<'a>>,
}

/// The state of layout as contracts see it.
pub open spec fn layout_state<'a>(
    position: usize,
    symbols: SymbolTable<'a>,
    sections: Seq<LayoutSection<'a>>,
    current: Option<Vec<AssemblyLine<'a>>>,
    base: usize,
) -> LayoutState<'a> {
    LayoutState {
        position,
        symbols: symbols@,
        sections: sections_view(sections),
        current: match current {
            Some(v) => Some(lines_view(v@)),
            None => None,
        },
        base,
    }
}

/// The least multiple of `m` that is at least `x`, when it fits a `usize`.
fn next_multiple(x: usize, m: usize) -> (r: Option<usize>)
    requires
        m > 0,
    ensures
        r == (if round_up(x as int, m as int) <= usize::MAX {
            Some(round_up(x as int, m as int) as usize)
        } else {
            None::<usize>
        }),
{
    let rem = x % m;
    if rem == 0 {
        Some(x)
    } else {
        x.checked_add(m - rem)
    }
}

/// Closes the section being filled: sizes it and checks it against those closed before.
fn close_current<'a>(
    sections: &mut Vec<LayoutSection<'a>>,
    current: Option<Vec<AssemblyLine<'a>>>,
    base: usize,
    position: usize,
) -> (r: Result<(), AssemblerError<'a>>)
    requires
        current is Some ==> base <= position,
    ensures
        ({
            let st = LayoutState {
                position,
                symbols: Map::empty(),
                sections: sections_view(old(sections)@),
                current: match current {
                    Some(v) => Some(lines_view(v@)),
                    None => None,
                },
                base,
            };
            match close_section(st) {
                Ok(s) => r is Ok && sections_view(final(sections)@) == s.sections,
                Err(e) => r == Err::<(), AssemblerError<'a>>(e),
            }
        }),
{
    let lines = match current {
        Some(l) => l,
        None => return Ok(()),
    };
    let size = match next_multiple(position - base, 8) {
        Some(s) => s,
        None => return Err(AssemblerError::InvalidState),
    };
    let mut i: usize = 0;
    while i < sections.len()
        invariant
            0 <= i <= sections@.len(),
            sections@ == old(sections)@,
            size as int == round_up(position - base, 8),
            current is Some,
            forall|k: int|
                0 <= k < i ==> (base > sections@[k].base + sections@[k].size || position
                    < sections@[k].base),
        decreases sections@.len() - i,
    {
        let section = &sections[i];
        if !((base as u128) > (section.base as u128) + (section.size as u128) || position < section.base) {
            proof {
                assert(sections_view(sections@)[i as int] == section_view(sections@[i as int]));
            }
            return Err(AssemblerError::OverlappingSection(base));
        }
        i = i + 1;
    }
    proof {
        assert forall|k: int| 0 <= k < sections@.len() implies !(!(base > sections_view(sections@)[k].base
            + sections_view(sections@)[k].size || position < sections_view(sections@)[k].base)) by {
            assert(sections_view(sections@)[k] == section_view(sections@[k]));
        }
    }
    let ghost lv = lines_view(lines@);
    sections.push(LayoutSection { lines, base, size });
    proof {
        assert(sections_view(final(sections)@) =~= sections_view(old(sections)@).push(
            SectionView { base, size, lines: lv },
        ));
    }
    Ok(())
}

/// Places the lines of a program into sections and collects its labels.
pub fn layout<'a>(lines: Vec<AssemblyLine<'a>>) -> (r: Result<Layout<'a>, AssemblerError<'a>>)
    ensures
        match r {
            Ok(l) => laid_out(lines_view(lines@)) == Ok::<(Map<Seq<u8>, usize>, Seq<SectionView<'a>>), AssemblerError<'a>>(
                (l.symbols@, sections_view(l.sections@)),
            ),
            Err(e) => laid_out(lines_view(lines@)) == Err::<(Map<Seq<u8>, usize>, Seq<SectionView<'a>>), AssemblerError<'a>>(e),
        },
{
    let ghost all = lines_view(lines@);
    let mut pending = lines;
    let mut position: usize = 0;
    let mut symbols = SymbolTable::new();
    let mut sections: Vec<LayoutSection<'a>> = Vec::new();
    let mut current_section_lines: Option<Vec<AssemblyLine<'a>>> = None;
    let mut current_section_base: usize = 0;
    let ghost mut done: int = 0;
    proof {
        assert(sections_view(sections@) =~= Seq::<SectionView<'a>>::empty());
        assert(lines_view(pending@).subrange(0, lines_view(pending@).len() as int) =~= lines_view(pending@));
    }
    while pending.len() > 0
        invariant
            all == lines_view(lines@),
            0 <= done <= all.len(),
            lines_view(pending@) == all.subrange(done, all.len() as int),
            current_section_lines is Some ==> current_section_base <= position,
            layout_lines(initial_layout(), all) == layout_lines(
                layout_state(position, symbols, sections@, current_section_lines, current_section_base),
                lines_view(pending@),
            ),
        decreases pending@.len(),
    {
        let ghost st = layout_state(position, symbols, sections@, current_section_lines, current_section_base);
        let ghost before_lines = lines_view(pending@);
        let line = pending.remove(0);
        proof {
            assert(before_lines[0] == line@);
            assert(before_lines.subrange(1, before_lines.len() as int) =~= lines_view(pending@));
            assert(lines_view(pending@) =~= all.subrange(done + 1, all.len() as int));
            done = done + 1;
        }
        let should_push = match &line {
            AssemblyLine::ResolvedData(d) => {
                proof {
                    lemma_round_up(position + d@.len(), 8);
                }
                let end = match position.checked_add(d.len()) {
                    Some(e) => e,
                    None => {
                        return Err(AssemblerError::InvalidState);
                    },
                };
                position = match next_multiple(end, 8) {
                    Some(p) => p,
                    None => return Err(AssemblerError::InvalidState),
                };
                true
            },
            AssemblyLine::UnresolvedData(_) => {
                position = match position.checked_add(8) {
                    Some(p) => p,
                    None => return Err(AssemblerError::InvalidState),
                };
                true
            },
            AssemblyLine::ResolvedInstruction(_) | AssemblyLine::UnresolvedInstruction(_) => {
                proof {
                    lemma_round_up(position as int, 16);
                }
                let start = match next_multiple(position, 16) {
                    Some(p) => p,
                    None => return Err(AssemblerError::InvalidState),
                };
                position = match start.checked_add(16) {
                    Some(p) => p,
                    None => return Err(AssemblerError::InvalidState),
                };
                true
            },
            AssemblyLine::Label(label) => {
                if symbols.contains_key(label) {
                    return Err(AssemblerError::DuplicateLabel(label));
                }
                symbols.insert(label, position);
                false
            },
            AssemblyLine::Equ(label, value) => {
                if symbols.contains_key(label) {
                    return Err(AssemblerError::DuplicateLabel(label));
                }
                symbols.insert(label, *value);
                false
            },
            AssemblyLine::Org(p) => {
                let current = current_section_lines.take();
                match close_current(&mut sections, current, current_section_base, position) {
                    Ok(()) => {},
                    Err(e) => return Err(e),
                }
                position = *p;
                current_section_base = position;
                current_section_lines = Some(Vec::new());
                proof {
                    assert(lines_view(Seq::<AssemblyLine<'a>>::empty()) =~= Seq::<LineView<'a>>::empty());
                }
                false
            },
        };
        if should_push {
            match current_section_lines {
                Some(ref mut l) => {
                    let ghost lv = line@;
                    let ghost before = l@;
                    l.push(line);
                    proof {
                        assert(lines_view(l@) =~= lines_view(before).push(lv));
                    }
                },
                None => return Err(AssemblerError::InvalidState),
            }
        }
        proof {
            assert(layout_step(st, all[done - 1]) == Ok::<LayoutState<'a>, AssemblerError<'a>>(
                layout_state(position, symbols, sections@, current_section_lines, current_section_base),
            ));
        }
    }
    proof {
        assert(lines_view(pending@) =~= Seq::<LineView<'a>>::empty());
    }
    let current = current_section_lines.take();
    match close_current(&mut sections, current, current_section_base, position) {
        Ok(()) => {},
        Err(e) => return Err(e),
    }
    Ok(Layout { symbols, sections })
}

/// A failed lookup as the assembler reports it.
pub open spec fn resolution<'a, T>(x: Result<T, &'a [u8]>) -> Result<T, AssemblerError<'a>> {
    match x {
        Ok(v) => Ok(v),
        Err(name) => Err(AssemblerError::UnresolvedReference(name)),
    }
}

/// The value a reference stands for.
pub fn resolve_reference<'a>(reference: &Reference<'a>, labels: &SymbolTable<'a>) -> (r: Result<usize, AssemblerError<'a>>)
    ensures
        r == resolution(reference_value(*reference, labels@)),
{
    match reference {
        Reference::Resolved(r) => Ok(*r as usize),
        Reference::Unresolved(r) => match labels.get(r) {
            Some(v) => Ok(v),
            None => Err(AssemblerError::UnresolvedReference(r)),
        },
    }
}

/// The word a value is encoded as.
pub fn resolve_data<'a>(data: &Native<'a>, symbols: &SymbolTable<'a>) -> (r: Result<cpu::Native, AssemblerError<'a>>)
    ensures
        r == resolution(data_value(*data, symbols@)),
{
    Ok(match data {
        Native::Raw(refr) => cpu::Native(resolve_reference(refr, symbols)? as u64),
        Native::Char(refr) => cpu::Native::from(LispWord::char(resolve_reference(refr, symbols)? as u64)),
        Native::Symbol(refr) => cpu::Native::from(LispWord::symbol(resolve_reference(refr, symbols)? as u64)),
        Native::Cons(refr) => cpu::Native::from(LispWord::cons(resolve_reference(refr, symbols)? as u64)),
        Native::Fixnum(refr) => cpu::Native::from(LispWord::fixnum(resolve_reference(refr, symbols)? as i64)),
        Native::String(refr) => cpu::Native::from(LispWord::string(resolve_reference(refr, symbols)? as u64)),
    })
}

pub fn resolve_lvalue<'a>(location: &LValue<'a>, labels: &SymbolTable<'a>) -> (r: Result<cpu::LValue, AssemblerError<'a>>)
    ensures
        r == resolution(lvalue_value(*location, labels@)),
{
    Ok(match location {
        LValue::Absolute(r) => cpu::LValue::Absolute(cpu::Address(resolve_data(r, labels)?.0)),
        LValue::Indirect(r) => cpu::LValue::Indirect(resolve_reg_and_off(r, labels)?),
        LValue::Register(r) => cpu::LValue::Register(*r),
    })
}

pub fn resolve_rvalue<'a>(location: &RValue<'a>, labels: &SymbolTable<'a>) -> (r: Result<cpu::RValue, AssemblerError<'a>>)
    ensures
        r == resolution(rvalue_value(*location, labels@)),
{
    Ok(match location {
        RValue::Literal(l) => cpu::RValue::Literal(resolve_data(l, labels)?),
        RValue::Register(r) => cpu::RValue::Register(resolve_reg_and_off(r, labels)?),
        RValue::Absolute(r) => cpu::RValue::Absolute(cpu::Address::from(resolve_data(r, labels)?)),
        RValue::Indirect(r) => cpu::RValue::Indirect(resolve_reg_and_off(r, labels)?),
    })
}

pub fn resolve_reg_and_off<'a>(rando: &RegAndOff<'a>, labels: &SymbolTable<'a>) -> (r: Result<cpu::RegAndOff, AssemblerError<'a>>)
    ensures
        r == resolution(reg_and_off_value(*rando, labels@)),
{
    let off = match &rando.off {
        Some(off) => Some(resolve_data(off, labels)?),
        None => None,
    };
    Ok(cpu::RegAndOff { op1: rando.op1, off })
}

/// The resolved form of a line that still names labels; `None` for a line that
/// needs nothing.
fn resolve_line<'a>(line: &AssemblyLine<'a>, symbols: &SymbolTable<'a>) -> (r: Result<Option<AssemblyLine<'a>>, AssemblerError<'a>>)
    ensures
        match r {
            Ok(Some(l)) => line_value(line@, symbols@) == Ok::<LineView<'a>, &'a [u8]>(l@),
            Ok(None) => line_value(line@, symbols@) == Ok::<LineView<'a>, &'a [u8]>(line@),
            Err(e) => line_value(line@, symbols@) matches Err(name) && e == AssemblerError::UnresolvedReference(name),
        },
{
    let resolved = match line {
        AssemblyLine::UnresolvedData(d) => {
            return Ok(Some(AssemblyLine::ResolvedData(vstd::bytes::u64_to_le_bytes(resolve_data(d, symbols)?.0))));
        },
        AssemblyLine::UnresolvedInstruction(UnresolvedInstruction::Binary { op, dst, op1, op2 }) => {
            Instruction::Binary { op: *op, dst: *dst, op1: *op1, op2: resolve_rvalue(op2, symbols)? }
        },
        AssemblyLine::UnresolvedInstruction(UnresolvedInstruction::Call { target }) => {
            Instruction::Call { target: resolve_rvalue(target, symbols)? }
        },
        AssemblyLine::UnresolvedInstruction(UnresolvedInstruction::IDiv { div, rem, op1, op2 }) => {
            Instruction::IDiv { div: *div, rem: *rem, op1: *op1, op2: resolve_rvalue(op2, symbols)? }
        },
        AssemblyLine::UnresolvedInstruction(UnresolvedInstruction::Int(i)) => {
            Instruction::Int(resolve_data(i, symbols)?.0)
        },
        AssemblyLine::UnresolvedInstruction(UnresolvedInstruction::Jump { condition, target }) => {
            Instruction::Jump { condition: *condition, target: resolve_rvalue(target, symbols)? }
        },
        AssemblyLine::UnresolvedInstruction(UnresolvedInstruction::MBinary { op, dst, op1, op2 }) => {
            Instruction::MBinary { op: *op, dst: *dst, op1: *op1, op2: resolve_rvalue(op2, symbols)? }
        },
        AssemblyLine::UnresolvedInstruction(UnresolvedInstruction::MComparison { op, dst, op1, op2 }) => {
            Instruction::Comparison { op: *op, dst: *dst, op1: *op1, op2: resolve_rvalue(op2, symbols)? }
        },
        AssemblyLine::UnresolvedInstruction(UnresolvedInstruction::Mov { dst, src }) => {
            Instruction::Mov { dst: resolve_lvalue(dst, symbols)?, src: resolve_rvalue(src, symbols)? }
        },
        AssemblyLine::UnresolvedInstruction(UnresolvedInstruction::Mov8 { dst, src }) => {
            Instruction::Mov8 { dst: resolve_lvalue(dst, symbols)?, src: resolve_rvalue(src, symbols)? }
        },
        AssemblyLine::UnresolvedInstruction(UnresolvedInstruction::Typep { dst, src, compare }) => {
            Instruction::Typep { dst: *dst, src: *src, compare: resolve_data(compare, symbols)? }
        },
        AssemblyLine::UnresolvedInstruction(UnresolvedInstruction::MemCpy { dst, src, count }) => {
            Instruction::MemCpy { dst: *dst, src: *src, count: resolve_rvalue(count, symbols)? }
        },
        _ => return Ok(None),
    };
    Ok(Some(AssemblyLine::ResolvedInstruction(resolved)))
}

/// Replaces every label reference in the layout with the label's value.
pub fn resolve<'a>(layout: &mut Layout<'a>) -> (r: Result<(), AssemblerError<'a>>)
    ensures
        final(layout).symbols@ == old(layout).symbols@,
        match r {
            Ok(()) => sections_value(sections_view(old(layout).sections@), old(layout).symbols@)
                == Ok::<Seq<SectionView<'a>>, &'a [u8]>(sections_view(final(layout).sections@)),
            Err(e) => sections_value(sections_view(old(layout).sections@), old(layout).symbols@) matches Err(name)
                && e == AssemblerError::UnresolvedReference(name),
        },
{
    let ghost all = sections_view(layout.sections@);
    let ghost symbols = layout.symbols@;
    let mut pending: Vec<LayoutSection<'a>> = Vec::new();
    std::mem::swap(&mut pending, &mut layout.sections);
    proof {
        assert(sections_view(layout.sections@) =~= Seq::<SectionView<'a>>::empty());
        if let Ok(rest) = sections_value(all, symbols) {
            assert(Seq::<SectionView<'a>>::empty() + rest =~= rest);
        }
    }
    while pending.len() > 0
        invariant
            all == sections_view(old(layout).sections@),
            symbols == old(layout).symbols@,
            layout.symbols@ == symbols,
            sections_value(all, symbols) == match sections_value(sections_view(pending@), symbols) {
                Ok(rest) => Ok::<Seq<SectionView<'a>>, &'a [u8]>(sections_view(layout.sections@) + rest),
                Err(name) => Err(name),
            },
        decreases pending@.len(),
    {
        let ghost pend = sections_view(pending@);
        let mut section = pending.remove(0);
        proof {
            assert(pend[0] == section_view(section));
            assert(pend.subrange(1, pend.len() as int) =~= sections_view(pending@));
        }
        let ghost sv = section_view(section);
        assert(pend[0] == sv);
        let mut lines: Vec<AssemblyLine<'a>> = Vec::new();
        std::mem::swap(&mut lines, &mut section.lines);
        let mut done: Vec<AssemblyLine<'a>> = Vec::new();
        proof {
            assert(lines_view(done@) =~= Seq::<LineView<'a>>::empty());
            if let Ok(r) = lines_value(sv.lines, symbols) {
                assert(Seq::<LineView<'a>>::empty() + r =~= r);
            }
        }
        while lines.len() > 0
            invariant
                layout.symbols@ == symbols,
                all == sections_view(old(layout).sections@),
                symbols == old(layout).symbols@,
                pend.len() > 0,
                pend[0] == sv,
                pend.subrange(1, pend.len() as int) == sections_view(pending@),
                sections_value(all, symbols) == match sections_value(pend, symbols) {
                    Ok(rest) => Ok::<Seq<SectionView<'a>>, &'a [u8]>(sections_view(layout.sections@) + rest),
                    Err(name) => Err(name),
                },
                section.base == sv.base,
                section.size == sv.size,
                lines_value(sv.lines, symbols) == match lines_value(lines_view(lines@), symbols) {
                    Ok(r) => Ok::<Seq<LineView<'a>>, &'a [u8]>(lines_view(done@) + r),
                    Err(name) => Err(name),
                },
            decreases lines@.len(),
        {
            let ghost lv = lines_view(lines@);
            let line = lines.remove(0);
            proof {
                assert(lv[0] == line@);
                assert(lv.subrange(1, lv.len() as int) =~= lines_view(lines@));
            }
            let replacement = match resolve_line(&line, &layout.symbols) {
                Ok(x) => x,
                Err(e) => return Err(e),
            };
            let ghost before = done@;
            match replacement {
                Some(new_line) => done.push(new_line),
                None => done.push(line),
            }
            proof {
                assert(lines_view(done@) =~= lines_view(before).push(done@.last()@));
                if let Ok(r) = lines_value(lines_view(lines@), symbols) {
                    assert(lines_view(before) + (seq![done@.last()@] + r) =~= lines_view(done@) + r);
                }
            }
        }
        proof {
            assert(lines_view(done@) + Seq::<LineView<'a>>::empty() =~= lines_view(done@));
        }
        let ghost before_sections = layout.sections@;
        section.lines = done;
        layout.sections.push(section);
        proof {
            assert(sections_view(layout.sections@) =~= sections_view(before_sections).push(section_view(section)));
            if let Ok(rest) = sections_value(sections_view(pending@), symbols) {
                assert(sections_view(before_sections) + (seq![section_view(section)] + rest)
                    =~= sections_view(layout.sections@) + rest);
            }
        }
    }
    proof {
        assert(sections_view(pending@) =~= Seq::<SectionView<'a>>::empty());
        assert(sections_view(layout.sections@) + Seq::<SectionView<'a>>::empty() =~= sections_view(layout.sections@));
    }
    Ok(())
}

/// Writes `data` into `buf` from `at` on.
fn write_bytes(buf: &mut Vec<u8>, at: usize, data: &[u8])
    requires
        at + data@.len() <= old(buf)@.len(),
    ensures
        final(buf)@ == overwrite(old(buf)@, at as int, data@),
{
    let n = buf.len();
    let mut k: usize = 0;
    while k < data.len()
        invariant
            at + data@.len() <= buf@.len(),
            buf@.len() == n,
            buf@.len() == old(buf)@.len(),
            0 <= k <= data@.len(),
            forall|x: int| 0 <= x < at ==> buf@[x] == old(buf)@[x],
            forall|x: int| at + data@.len() <= x < buf@.len() ==> buf@[x] == old(buf)@[x],
            forall|x: int| at <= x < at + k ==> buf@[x] == data@[x - at],
            forall|x: int| at + k <= x < at + data@.len() ==> buf@[x] == old(buf)@[x],
        decreases data@.len() - k,
    {
        buf.set(at + k, data[k]);
        k = k + 1;
    }
    assert(buf@ =~= overwrite(old(buf)@, at as int, data@));
}

/// The two words of an instruction, where the format holds it.
fn words_of(ins: &Instruction) -> (r: Option<(u64, u64)>)
    ensures
        r == instruction_words(*ins),
{
    reveal(instruction_words);
    match ins.encode() {
        Ok(w) => Some(w),
        Err(_) => None,
    }
}

/// Lays down the bytes of each section.
#[verifier::spinoff_prover]
#[verifier::rlimit(30)]
pub fn emit<'a>(layout: &Layout<'a>) -> (r: Result<Vec<Section>, AssemblerError<'a>>)
    ensures
        match r {
            Ok(v) => emitted(sections_view(layout.sections@)) == Ok::<Seq<SectionImage>, AssemblerError<'a>>(
                v@.map_values(|s: Section| section_image(s)),
            ),
            Err(e) => emitted(sections_view(layout.sections@)) == Err::<Seq<SectionImage>, AssemblerError<'a>>(e),
        },
{
    let ghost all = sections_view(layout.sections@);
    let mut result_sections: Vec<Section> = Vec::new();
    let mut i: usize = 0;
    proof {
        assert(all.subrange(0, all.len() as int) =~= all);
        if let Ok(rest) = emitted(all) {
            assert(result_sections@.map_values(|s: Section| section_image(s)) + rest =~= rest);
        }
    }
    while i < layout.sections.len()
        invariant
            all == sections_view(layout.sections@),
            0 <= i <= all.len(),
            emitted(all) == match emitted(all.subrange(i as int, all.len() as int)) {
                Ok(rest) => Ok::<Seq<SectionImage>, AssemblerError<'a>>(
                    result_sections@.map_values(|s: Section| section_image(s)) + rest,
                ),
                Err(e) => Err(e),
            },
        decreases all.len() - i,
    {
        let section = &layout.sections[i];
        let ghost sv = section_view(*section);
        let ghost tail = all.subrange(i as int, all.len() as int);
        proof {
            assert(tail[0] == sv);
            assert(tail.subrange(1, tail.len() as int) =~= all.subrange(i + 1, all.len() as int));
            lemma_round_up(section.size as int, 8);
        }
        let len = match next_multiple(section.size, 8) {
            Some(n) => match n.checked_add(8) {
                Some(l) => l,
                None => return Err(AssemblerError::InvalidState),
            },
            None => return Err(AssemblerError::InvalidState),
        };
        let mut result: Vec<u8> = vec![0u8; len];
        let ghost zeros = Seq::new(len as nat, |x: int| 0u8);
        assert(result@ =~= zeros);
        let mut position: usize = 0;
        let mut j: usize = 0;
        let ghost lines = sv.lines;
        proof {
            assert(lines.subrange(0, lines.len() as int) =~= lines);
            assert(section_bytes(sv) == emit_lines(lines, zeros, 0));
        }
        while j < section.lines.len()
            invariant
                all == sections_view(layout.sections@),
                0 <= i < all.len(),
                section == &layout.sections@[i as int],
                sv == section_view(*section),
                lines == sv.lines,
                lines == lines_view(section.lines@),
                0 <= j <= lines.len(),
                result@.len() == len,
                len % 8 == 0,
                position <= len,
                tail == all.subrange(i as int, all.len() as int),
                tail[0] == sv,
                tail.subrange(1, tail.len() as int) == all.subrange(i + 1, all.len() as int),
                section_bytes(sv) == emit_lines(lines, zeros, 0),
                emitted(all) == match emitted(all.subrange(i as int, all.len() as int)) {
                    Ok(rest) => Ok::<Seq<SectionImage>, AssemblerError<'a>>(
                        result_sections@.map_values(|s: Section| section_image(s)) + rest,
                    ),
                    Err(e) => Err(e),
                },
                emit_lines(lines, zeros, 0) == emit_lines(lines.subrange(j as int, lines.len() as int), result@, position as int),
            decreases lines.len() - j,
        {
            let ghost rest = lines.subrange(j as int, lines.len() as int);
            proof {
                assert(rest[0] == section.lines@[j as int]@);
                assert(rest.subrange(1, rest.len() as int) =~= lines.subrange(j + 1, lines.len() as int));
            }
            match &section.lines[j] {
                AssemblyLine::ResolvedData(d) => {
                    if d.len() > len - position {
                        return Err(AssemblerError::InvalidState);
                    }
                    write_bytes(&mut result, position, d.as_slice());
                    proof {
                        lemma_round_up(position + d@.len(), 8);
                        assert(round_up(position + d@.len(), 8) <= len) by {
                            let x = position + d@.len();
                            if round_up(x, 8) > len {
                                assert(round_up(x, 8) % 8 == 0);
                            }
                        }
                    }
                    position = next_multiple(position + d.len(), 8).unwrap();
                },
                AssemblyLine::ResolvedInstruction(ins) => {
                    let (lo, hi) = match words_of(ins) {
                        Some(w) => w,
                        None => return Err(AssemblerError::InvalidInstruction),
                    };
                    let at = match next_multiple(position, 16) {
                        Some(a) => a,
                        None => return Err(AssemblerError::InvalidState),
                    };
                    if at > len || len - at < 16 {
                        return Err(AssemblerError::InvalidState);
                    }
                    let lo_bytes = vstd::bytes::u64_to_le_bytes(lo);
                    write_bytes(&mut result, at, lo_bytes.as_slice());
                    let hi_bytes = vstd::bytes::u64_to_le_bytes(hi);
                    write_bytes(&mut result, at + 8, hi_bytes.as_slice());
                    position = at + 16;
                },
                AssemblyLine::UnresolvedData(_) => {
                    return Err(AssemblerError::IncompleteResolution);
                },
                AssemblyLine::UnresolvedInstruction(_) => {
                    return Err(AssemblerError::IncompleteResolution);
                },
                _ => {},
            }
            j = j + 1;
        }
        proof {
            assert(lines.subrange(j as int, lines.len() as int) =~= Seq::<LineView<'a>>::empty());
        }
        let ghost before = result_sections@;
        result_sections.push(Section { base: section.base, data: result });
        proof {
            assert(result_sections@.map_values(|s: Section| section_image(s))
                =~= before.map_values(|s: Section| section_image(s)).push(section_image(result_sections@.last())));
            if let Ok(more) = emitted(all.subrange(i + 1, all.len() as int)) {
                assert(before.map_values(|s: Section| section_image(s)) + (seq![section_image(result_sections@.last())] + more)
                    =~= result_sections@.map_values(|s: Section| section_image(s)) + more);
            }
        }
        i = i + 1;
    }
    proof {
        assert(all.subrange(i as int, all.len() as int) =~= Seq::<SectionView<'a>>::empty());
        assert(result_sections@.map_values(|s: Section| section_image(s)) + Seq::<SectionImage>::empty()
            =~= result_sections@.map_values(|s: Section| section_image(s)));
    }
    Ok(result_sections)
}

/// What assembling the program that `tokens` spell gives, stage by stage: parsing,
/// layout, resolution of labels, and the bytes of each section.
pub open spec fn program_outcome<'a>(tokens: Seq<AssemblyToken<'a>>, r: Result<Vec<Section>, AssemblerError<'a>>) -> bool {
    match parsed(tokens) {
        Err(f) => r matches Err(AssemblerError::ParserError(e)) && e@ == f,
        Ok(lines) => match laid_out(lines) {
            Err(e) => r == Err::<Vec<Section>, AssemblerError<'a>>(e),
            Ok((symbols, sections)) => match sections_value(sections, symbols) {
                Err(name) => r == Err::<Vec<Section>, AssemblerError<'a>>(AssemblerError::UnresolvedReference(name)),
                Ok(resolved) => match emitted(resolved) {
                    Err(e) => r == Err::<Vec<Section>, AssemblerError<'a>>(e),
                    Ok(images) => r matches Ok(v) && v@.map_values(|s: Section| section_image(s)) == images,
                },
            },
        },
    }
}

/// Assembles a program given as tokens.
pub fn assemble_tokens<'a>(tokens: &[AssemblyToken<'a>]) -> (r: Result<Vec<Section>, AssemblerError<'a>>)
    ensures
        program_outcome(tokens@, r),
{
    let ast = match parse(tokens) {
        Ok(a) => a,
        Err(e) => return Err(AssemblerError::from(e)),
    };
    let mut sections = layout(ast)?;
    resolve(&mut sections)?;
    let source = emit(&sections)?;
    Ok(source)
}

/// What assembling `input` gives: the tokenizer's failure, or what assembling its
/// tokens gives.
pub open spec fn assembles_to<'a>(input: &'a str, r: Result<Vec<Section>, AssemblerError<'a>>) -> bool {
    match tokenized(input.spec_bytes()) {
        Err(k) => r matches Err(AssemblerError::TokenizerError(TokenizeError::UnexpectedInput { remaining }))
            && remaining@ == input.spec_bytes().subrange(k, input.spec_bytes().len() as int),
        Ok(views) => exists|tokens: Seq<AssemblyToken<'a>>|
            tokens.map_values(|t: AssemblyToken<'a>| t@) == views && program_outcome(tokens, r),
    }
}

/// Assembles source text into sections of bytes.
pub fn assemble<'a>(input: &'a str) -> (r: Result<Vec<Section>, AssemblerError<'a>>)
    ensures
        assembles_to(input, r),
{
    let tokens = match tokenize(input) {
        Ok(t) => t,
        Err(e) => return Err(AssemblerError::from(e)),
    };
    assemble_tokens(tokens.as_slice())
}

} // verus!
