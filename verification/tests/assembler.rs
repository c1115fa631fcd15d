use wisp::cpu::assembler::parser::{AssemblyLine, Native, ParserError, Reference};
use wisp::cpu::assembler::symbols::SymbolTable;
use wisp::cpu::assembler::tokenizer::{tokenize, AssemblyToken, TokenizeError};
use wisp::cpu::assembler::{assemble, emit, AssemblerError, Layout, LayoutSection, Section};
use wisp::cpu::{Instruction, LValue, RValue, RegAndOff, Register};

fn instruction_bytes(i: Instruction) -> Vec<u8> {
    let (lo, hi) = i.encode().unwrap();
    let mut v = lo.to_le_bytes().to_vec();
    v.extend(hi.to_le_bytes());
    v
}

#[test]
fn assemble_single_halt() {
    let sections = assemble(".org 0\nHALT\n").unwrap();
    assert_eq!(sections, vec![Section { data: vec![0; 24], base: 0 }]);
}

#[test]
fn assemble_places_instructions_on_16_byte_boundaries() {
    let sections = assemble(".org 64\nNOP\nNOP\n").unwrap();
    let mut expected = instruction_bytes(Instruction::Nop);
    expected.extend(instruction_bytes(Instruction::Nop));
    expected.extend(vec![0; 8]);
    assert_eq!(sections, vec![Section { data: expected, base: 64 }]);
}

#[test]
fn assemble_string_directive_lays_length_then_text() {
    let sections = assemble(".org 0\n.str \"a\\nb\"\n").unwrap();
    let mut expected = vec![0, 3, 0, 0, 0, 0, 0, 0, 97, 10, 98];
    expected.extend(vec![0; 13]);
    assert_eq!(sections, vec![Section { data: expected, base: 0 }]);
}

#[test]
fn assemble_word_directive_encodes_fixnum() {
    let sections = assemble(".org 0\n.w #5\n").unwrap();
    let mut expected = vec![0, 5, 0, 0, 0, 0, 0, 0];
    expected.extend(vec![0; 8]);
    assert_eq!(sections, vec![Section { data: expected, base: 0 }]);
}

#[test]
fn assemble_resolves_labels_to_addresses() {
    let sections = assemble(".org 32\nNOP\nthere:\nINT 'there\n").unwrap();
    let mut expected = instruction_bytes(Instruction::Nop);
    expected.extend(instruction_bytes(Instruction::Int(48)));
    expected.extend(vec![0; 8]);
    assert_eq!(sections, vec![Section { data: expected, base: 32 }]);
}

#[test]
fn assemble_resolves_equates() {
    let sections = assemble(".equ answer: 42\n.org 0\nINT 'answer\n").unwrap();
    let mut expected = instruction_bytes(Instruction::Int(42));
    expected.extend(vec![0; 8]);
    assert_eq!(sections, vec![Section { data: expected, base: 0 }]);
}

#[test]
fn assemble_rejects_duplicate_labels() {
    let r = assemble("here:\nhere:\n");
    assert!(matches!(r, Err(AssemblerError::DuplicateLabel(b"here"))));
}

#[test]
fn assemble_rejects_code_outside_sections() {
    let r = assemble("NOP\n");
    assert!(matches!(r, Err(AssemblerError::InvalidState)));
}

#[test]
fn assemble_rejects_overlapping_sections() {
    let r = assemble(".org 0\nNOP\n.org 8\nNOP\n");
    assert!(matches!(r, Err(AssemblerError::OverlappingSection(8))));
}

#[test]
fn assemble_reports_unknown_labels() {
    let r = assemble(".org 0\nINT 'missing\n");
    assert!(matches!(r, Err(AssemblerError::UnresolvedReference(b"missing"))));
}

#[test]
fn assemble_reports_tokenizer_errors() {
    let r = assemble(".org 0\n@\n");
    match r {
        Err(AssemblerError::TokenizerError(TokenizeError::UnexpectedInput { remaining })) => {
            assert_eq!(remaining, b"@\n")
        }
        _ => panic!("expected a tokenizer error"),
    }
}

#[test]
fn assemble_reports_unknown_instructions() {
    let r = assemble(".org 0\nFROB V1\n");
    assert!(matches!(
        r,
        Err(AssemblerError::ParserError(ParserError::UnknownInstruction { instruction: b"FROB" }))
    ));
}

#[test]
fn assemble_reports_unknown_directives() {
    let r = assemble(".bss 4\n");
    assert!(matches!(
        r,
        Err(AssemblerError::ParserError(ParserError::UnknownDirective { directive: b"bss" }))
    ));
}

#[test]
fn assemble_reports_bad_escapes() {
    let r = assemble(".org 0\n.str \"\\q\"\n");
    assert!(matches!(
        r,
        Err(AssemblerError::ParserError(ParserError::InvalidEscape { c: 'q', raw: b"\\q" }))
    ));
}

#[test]
fn assemble_reports_a_bad_escape_by_its_character() {
    let r = assemble(".org 0\n.str \"a\\é\"\n");
    match r {
        Err(AssemblerError::ParserError(ParserError::InvalidEscape { c, raw })) => {
            assert_eq!(c, 'é');
            assert_eq!(raw, "a\\é".as_bytes());
        },
        other => panic!("unexpected {:?}", other.is_ok()),
    }
}

#[test]
fn assemble_reports_missing_operands() {
    let r = assemble(".org 0\nPUSH\n");
    match r {
        Err(AssemblerError::ParserError(ParserError::Expected { expected, rest })) => {
            assert_eq!(expected, "A location to push from");
            assert_eq!(rest, vec![AssemblyToken::Newline]);
        }
        _ => panic!("expected a parse error"),
    }
}

#[test]
fn assemble_reports_missing_values() {
    let r = assemble(".org 0\nINT\n");
    assert!(matches!(r, Err(AssemblerError::ParserError(ParserError::Expected { expected: "Any value", .. }))));
}

#[test]
fn assemble_reports_unencodable_instructions() {
    let r = assemble(".org 0\nMOV [V1 + 8], 5\n");
    assert!(matches!(r, Err(AssemblerError::InvalidInstruction)));
}

#[test]
fn emit_refuses_unresolved_lines() {
    let layout = Layout {
        symbols: SymbolTable::new(),
        sections: vec![LayoutSection {
            base: 0,
            size: 8,
            lines: vec![AssemblyLine::UnresolvedData(Native::Raw(Reference::Resolved(1)))],
        }],
    };
    assert!(matches!(emit(&layout), Err(AssemblerError::IncompleteResolution)));
}

#[test]
fn emitted_section_is_size_rounded_plus_a_word() {
    let layout = Layout {
        symbols: SymbolTable::new(),
        sections: vec![LayoutSection { base: 5, size: 13, lines: vec![] }],
    };
    let sections = emit(&layout).unwrap();
    assert_eq!(sections, vec![Section { data: vec![0; 24], base: 5 }]);
}

#[test]
fn symbol_table_gives_back_what_was_inserted() {
    let mut t = SymbolTable::new();
    assert!(!t.contains_key(b"x"));
    t.insert(b"x", 7);
    t.insert(b"y", 9);
    assert!(t.contains_key(b"x"));
    assert_eq!(t.get(b"x"), Some(7));
    assert_eq!(t.get(b"y"), Some(9));
    assert_eq!(t.get(b"z"), None);
}

#[test]
fn tokenizer_reads_registers_numbers_and_characters() {
    let tokens = tokenize("MOV V17, 0x10 \\Space \\Newline SP\n").unwrap();
    assert_eq!(
        tokens,
        vec![
            AssemblyToken::Identifier(b"MOV"),
            AssemblyToken::Register(Register(17)),
            AssemblyToken::Comma,
            AssemblyToken::Number(16),
            AssemblyToken::Character(32),
            AssemblyToken::Character(10),
            AssemblyToken::Register(Register(253)),
            AssemblyToken::Newline,
        ]
    );
}

#[test]
fn tokenizer_reads_a_final_register_name_as_an_identifier() {
    let tokens = tokenize("SP").unwrap();
    assert_eq!(tokens, vec![AssemblyToken::Identifier(b"SP")]);
}

#[test]
fn tokenizer_keeps_comments_and_strings() {
    let tokens = tokenize("; note\n\"a\\\"b\"\r\n").unwrap();
    assert_eq!(
        tokens,
        vec![
            AssemblyToken::Comment(b"; note"),
            AssemblyToken::Newline,
            AssemblyToken::String(b"a\\\"b"),
            AssemblyToken::Newline,
        ]
    );
}

#[test]
fn tokenizer_of_blank_input_is_empty() {
    assert_eq!(tokenize("  \n\t").unwrap(), vec![AssemblyToken::Newline]);
    assert_eq!(tokenize("").unwrap(), vec![]);
}

#[test]
fn literal_stored_through_a_register_reads_back() {
    let i = Instruction::Mov {
        dst: LValue::Indirect(RegAndOff { op1: Register(1), off: None }),
        src: RValue::Literal(wisp::bus::Native(5)),
    };
    let (lo, hi) = i.encode().unwrap();
    assert_eq!(lo.to_le_bytes(), [7, 46, 0, 1, 0, 0, 0, 0]);
    assert_eq!(hi, 5);
    assert_eq!(Instruction::decode(lo, hi), Ok(i));
}

#[test]
fn lisp_pointer_destination_reads_back() {
    let i = Instruction::Mov8 {
        dst: LValue::LPointer(RegAndOff { op1: Register(2), off: Some(wisp::bus::Native(8)) }),
        src: RValue::Register(RegAndOff { op1: Register(3), off: None }),
    };
    let (lo, hi) = i.encode().unwrap();
    assert_eq!(lo.to_le_bytes(), [8, 38, 0, 2, 3, 0, 0, 9]);
    assert_eq!(hi, 8);
    assert_eq!(Instruction::decode(lo, hi), Ok(i));
}

#[test]
fn type_test_carries_its_tag_in_the_second_word() {
    let i = Instruction::Typep { dst: Register(1), src: Register(2), compare: wisp::bus::Native(300) };
    assert_eq!(instruction_bytes(i), vec![39, 35, 1, 2, 0, 0, 0, 0, 44, 1, 0, 0, 0, 0, 0, 0]);
}

#[test]
fn label_takes_the_address_reached_at_its_line() {
    let tokens = tokenize(".org 8\nNOP\nx:\nNOP\n").unwrap();
    let lines = wisp::cpu::assembler::parser::parse(&tokens).unwrap();
    let layout = wisp::cpu::assembler::layout(lines).unwrap();
    assert_eq!(layout.symbols.get(b"x"), Some(32));
    let sections = emit(&layout).unwrap();
    let mut expected = instruction_bytes(Instruction::Nop);
    expected.extend(instruction_bytes(Instruction::Nop));
    expected.extend(vec![0; 16]);
    assert_eq!(sections, vec![Section { data: expected, base: 8 }]);
}
