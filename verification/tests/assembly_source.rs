use wisp::cpu;
use wisp::cpu::assembler::parser as assembler;
use wisp::cpu::assembler::tokenizer::tokenize;
use wisp::cpu::assembler::{parser, tokenizer};
use wisp::cpu::Register;

const SOURCE: &str = r#"
        .org 128
            HALT
            NOP
        ; A comment
        ; Two comments in a row
            RETURN ; And an inline one
        loop:
            INT 42
            INT 'loop
            IRETURN
        ; Jump variants
            JUMP 16
            JUMP V1
            JUMP V1 + 16
            JUMP V1
            JUMP 'loop
            JUMPIF V5, 16
            JUMPIF V5, V1
            JUMPIF V5, V1 + 16
            JUMPIF V5, V1
            JUMPIF V5, 'loop
            JUMPIFNOT V5, 16
            JUMPIFNOT V5, V1
            JUMPIFNOT V5, V1 + 16
            JUMPIFNOT V5, V1
            JUMPIFNOT V5, 'loop
            CALL 16
            CALL V1
            CALL V1 + 16
            CALL V1
            CALL 'loop
            ; Stack variants
            PUSH V1
            POP V2
            PUSH V3
            POP V4
            ; Loading & Memory
            MOV V1, #1234
            MOV V3, 0x7FFFFFFF
            MOV V5, V6
            MOV V5, [V6]
            MOV [V6], V7
            MOV V4, V5
            MOV V1, [V2]
            MOV V1, [V2 + 16]
            MOV V1, [64]
            MOV [V2], V3
            MOV [V2 + 8], V3
            MOV [24], V4
            MOV V5, V8
            MOV V9, V6
            MOV [V5], V8
            MOV [V5 + 8], V6
            MOV V5, [V6]
            MOV V5, [V6 + 8]
            MOV8 V3, [V4]
            MOV8 V3, [V4 + 5]
            MOV8 V3, [5]
            MOV8 [V4], V6
            MOV8 [V4 + 5], V6
            MOV8 [5], V6
        ; Register Arithmetic
            ADD V1, V2, V3
            ADD V1, V2, V3 + 4
            ADD V1, V2, 8
            SUB V4, V5, V6
            SUB V4, V5, V6 + 2
            SUB V4, V5, 12
        ; Tag Operations
            SETTAG V2, V1
            GETTAG V3, V2
            SETPAYLOAD V4, V3
            GETPAYLOAD V5, V4
        ; Lisp Destructuring Primitives
            CONS V1, V2, V3
            UNCONS V1, V2, V3
            CAR V4, V5
            CDR V6, V7
            SETCAR V8, V9
            SETCDR V10, V11
        ; Arithmetic (assembler::ThreeRegs layouts using Option types, Word Immediates)
            ADD V1, V2, V3
            ADD V1, V2, V3 + #5
            ADD V1, V2, #10
            SUB V1, V2, V3
            SUB V1, V2, V3 + #5
            SUB V1, V2, #10
            MUL V1, V2, V3
            MUL V1, V2, V3 + #5
            MUL V1, V2, #10
            EQ V1, V2, V3
            EQ V1, V2, V3 + #5
            EQ V1, V2, #10
            NE V1, V2, V3
            NE V1, V2, V3 + #5
            NE V1, V2, #10
            LT V1, V2, V3
            LT V1, V2, V3 + #5
            LT V1, V2, #10
            LTE V1, V2, V3
            LTE V1, V2, V3 + #5
            LTE V1, V2, #10
            GT V1, V2, V3
            GT V1, V2, V3 + #5
            GT V1, V2, #10
            GTE V1, V2, V3
            GTE V1, V2, V3 + #5
            GTE V1, V2, #10
            DIV V9, V2, V3, V4
            DIV V9, V2, V3, V4 + #5
            DIV V9, V2, V3, #5
        ; Advanced Operations
            MAKECLOSURE V5, V6
            MEMCPY V1, V2, 1
            TYPEP V1, V1, 0x03
            GTE V0, V1, V2
        "#;

fn expected_tokens<'a>() -> Vec<tokenizer::AssemblyToken<'a>> {
    vec![
        tokenizer::AssemblyToken::Newline,
        tokenizer::AssemblyToken::Dot,
        tokenizer::AssemblyToken::Identifier(b"org"),
        tokenizer::AssemblyToken::Number(128),
        tokenizer::AssemblyToken::Newline,
        tokenizer::AssemblyToken::Identifier(b"HALT"),
        tokenizer::AssemblyToken::Newline,
        tokenizer::AssemblyToken::Identifier(b"NOP"),
        tokenizer::AssemblyToken::Newline,
        tokenizer::AssemblyToken::Comment(b"; A comment"),
        tokenizer::AssemblyToken::Newline,
        tokenizer::AssemblyToken::Comment(b"; Two comments in a row"),
        tokenizer::AssemblyToken::Newline,
        tokenizer::AssemblyToken::Identifier(b"RETURN"),
        tokenizer::AssemblyToken::Comment(b"; And an inline one"),
        tokenizer::AssemblyToken::Newline,
        tokenizer::AssemblyToken::Identifier(b"loop"),
        tokenizer::AssemblyToken::Colon,
        tokenizer::AssemblyToken::Newline,
        tokenizer::AssemblyToken::Identifier(b"INT"),
        tokenizer::AssemblyToken::Number(42),
        tokenizer::AssemblyToken::Newline,
        tokenizer::AssemblyToken::Identifier(b"INT"),
        tokenizer::AssemblyToken::Quote,
        tokenizer::AssemblyToken::Identifier(b"loop"),
        tokenizer::AssemblyToken::Newline,
        tokenizer::AssemblyToken::Identifier(b"IRETURN"),
        tokenizer::AssemblyToken::Newline,
        tokenizer::AssemblyToken::Comment(b"; Jump variants"),
        tokenizer::AssemblyToken::Newline,
        tokenizer::AssemblyToken::Identifier(b"JUMP"),
        tokenizer::AssemblyToken::Number(16),
        tokenizer::AssemblyToken::Newline,
        tokenizer::AssemblyToken::Identifier(b"JUMP"),
        tokenizer::AssemblyToken::Register(cpu::Register(1)),
        tokenizer::AssemblyToken::Newline,
        tokenizer::AssemblyToken::Identifier(b"JUMP"),
        tokenizer::AssemblyToken::Register(cpu::Register(1)),
        tokenizer::AssemblyToken::Plus,
        tokenizer::AssemblyToken::Number(16),
        tokenizer::AssemblyToken::Newline,
        tokenizer::AssemblyToken::Identifier(b"JUMP"),
        tokenizer::AssemblyToken::Register(Register(1)),
        tokenizer::AssemblyToken::Newline,
        tokenizer::AssemblyToken::Identifier(b"JUMP"),
        tokenizer::AssemblyToken::Quote,
        tokenizer::AssemblyToken::Identifier(b"loop"),
        tokenizer::AssemblyToken::Newline,
        tokenizer::AssemblyToken::Identifier(b"JUMPIF"),
        tokenizer::AssemblyToken::Register(Register(5)),
        tokenizer::AssemblyToken::Comma,
        tokenizer::AssemblyToken::Number(16),
        tokenizer::AssemblyToken::Newline,
        tokenizer::AssemblyToken::Identifier(b"JUMPIF"),
        tokenizer::AssemblyToken::Register(Register(5)),
        tokenizer::AssemblyToken::Comma,
        tokenizer::AssemblyToken::Register(cpu::Register(1)),
        tokenizer::AssemblyToken::Newline,
        tokenizer::AssemblyToken::Identifier(b"JUMPIF"),
        tokenizer::AssemblyToken::Register(Register(5)),
        tokenizer::AssemblyToken::Comma,
        tokenizer::AssemblyToken::Register(cpu::Register(1)),
        tokenizer::AssemblyToken::Plus,
        tokenizer::AssemblyToken::Number(16),
        tokenizer::AssemblyToken::Newline,
        tokenizer::AssemblyToken::Identifier(b"JUMPIF"),
        tokenizer::AssemblyToken::Register(Register(5)),
        tokenizer::AssemblyToken::Comma,
        tokenizer::AssemblyToken::Register(Register(1)),
        tokenizer::AssemblyToken::Newline,
        tokenizer::AssemblyToken::Identifier(b"JUMPIF"),
        tokenizer::AssemblyToken::Register(Register(5)),
        tokenizer::AssemblyToken::Comma,
        tokenizer::AssemblyToken::Quote,
        tokenizer::AssemblyToken::Identifier(b"loop"),
        tokenizer::AssemblyToken::Newline,
        tokenizer::AssemblyToken::Identifier(b"JUMPIFNOT"),
        tokenizer::AssemblyToken::Register(Register(5)),
        tokenizer::AssemblyToken::Comma,
        tokenizer::AssemblyToken::Number(16),
        tokenizer::AssemblyToken::Newline,
        tokenizer::AssemblyToken::Identifier(b"JUMPIFNOT"),
        tokenizer::AssemblyToken::Register(Register(5)),
        tokenizer::AssemblyToken::Comma,
        tokenizer::AssemblyToken::Register(cpu::Register(1)),
        tokenizer::AssemblyToken::Newline,
        tokenizer::AssemblyToken::Identifier(b"JUMPIFNOT"),
        tokenizer::AssemblyToken::Register(Register(5)),
        tokenizer::AssemblyToken::Comma,
        tokenizer::AssemblyToken::Register(cpu::Register(1)),
        tokenizer::AssemblyToken::Plus,
        tokenizer::AssemblyToken::Number(16),
        tokenizer::AssemblyToken::Newline,
        tokenizer::AssemblyToken::Identifier(b"JUMPIFNOT"),
        tokenizer::AssemblyToken::Register(Register(5)),
        tokenizer::AssemblyToken::Comma,
        tokenizer::AssemblyToken::Register(Register(1)),
        tokenizer::AssemblyToken::Newline,
        tokenizer::AssemblyToken::Identifier(b"JUMPIFNOT"),
        tokenizer::AssemblyToken::Register(Register(5)),
        tokenizer::AssemblyToken::Comma,
        tokenizer::AssemblyToken::Quote,
        tokenizer::AssemblyToken::Identifier(b"loop"),
        tokenizer::AssemblyToken::Newline,
        tokenizer::AssemblyToken::Identifier(b"CALL"),
        tokenizer::AssemblyToken::Number(16),
        tokenizer::AssemblyToken::Newline,
        tokenizer::AssemblyToken::Identifier(b"CALL"),
        tokenizer::AssemblyToken::Register(cpu::Register(1)),
        tokenizer::AssemblyToken::Newline,
        tokenizer::AssemblyToken::Identifier(b"CALL"),
        tokenizer::AssemblyToken::Register(cpu::Register(1)),
        tokenizer::AssemblyToken::Plus,
        tokenizer::AssemblyToken::Number(16),
        tokenizer::AssemblyToken::Newline,
        tokenizer::AssemblyToken::Identifier(b"CALL"),
        tokenizer::AssemblyToken::Register(Register(1)),
        tokenizer::AssemblyToken::Newline,
        tokenizer::AssemblyToken::Identifier(b"CALL"),
        tokenizer::AssemblyToken::Quote,
        tokenizer::AssemblyToken::Identifier(b"loop"),
        tokenizer::AssemblyToken::Newline,
        tokenizer::AssemblyToken::Comment(b"; Stack variants"),
        tokenizer::AssemblyToken::Newline,
        tokenizer::AssemblyToken::Identifier(b"PUSH"),
        tokenizer::AssemblyToken::Register(cpu::Register(1)),
        tokenizer::AssemblyToken::Newline,
        tokenizer::AssemblyToken::Identifier(b"POP"),
        tokenizer::AssemblyToken::Register(cpu::Register(2)),
        tokenizer::AssemblyToken::Newline,
        tokenizer::AssemblyToken::Identifier(b"PUSH"),
        tokenizer::AssemblyToken::Register(Register(3)),
        tokenizer::AssemblyToken::Newline,
        tokenizer::AssemblyToken::Identifier(b"POP"),
        tokenizer::AssemblyToken::Register(Register(4)),
        tokenizer::AssemblyToken::Newline,
        tokenizer::AssemblyToken::Comment(b"; Loading & Memory"),
        tokenizer::AssemblyToken::Newline,
        tokenizer::AssemblyToken::Identifier(b"MOV"),
        tokenizer::AssemblyToken::Register(Register(1)),
        tokenizer::AssemblyToken::Comma,
        tokenizer::AssemblyToken::Hash,
        tokenizer::AssemblyToken::Number(1234),
        tokenizer::AssemblyToken::Newline,
        tokenizer::AssemblyToken::Identifier(b"MOV"),
        tokenizer::AssemblyToken::Register(cpu::Register(3)),
        tokenizer::AssemblyToken::Comma,
        tokenizer::AssemblyToken::Number(2147483647),
        tokenizer::AssemblyToken::Newline,
        tokenizer::AssemblyToken::Identifier(b"MOV"),
        tokenizer::AssemblyToken::Register(Register(5)),
        tokenizer::AssemblyToken::Comma,
        tokenizer::AssemblyToken::Register(Register(6)),
        tokenizer::AssemblyToken::Newline,
        tokenizer::AssemblyToken::Identifier(b"MOV"),
        tokenizer::AssemblyToken::Register(Register(5)),
        tokenizer::AssemblyToken::Comma,
        tokenizer::AssemblyToken::OpenBracket,
        tokenizer::AssemblyToken::Register(Register(6)),
        tokenizer::AssemblyToken::CloseBracket,
        tokenizer::AssemblyToken::Newline,
        tokenizer::AssemblyToken::Identifier(b"MOV"),
        tokenizer::AssemblyToken::OpenBracket,
        tokenizer::AssemblyToken::Register(Register(6)),
        tokenizer::AssemblyToken::CloseBracket,
        tokenizer::AssemblyToken::Comma,
        tokenizer::AssemblyToken::Register(Register(7)),
        tokenizer::AssemblyToken::Newline,
        tokenizer::AssemblyToken::Identifier(b"MOV"),
        tokenizer::AssemblyToken::Register(cpu::Register(4)),
        tokenizer::AssemblyToken::Comma,
        tokenizer::AssemblyToken::Register(cpu::Register(5)),
        tokenizer::AssemblyToken::Newline,
        tokenizer::AssemblyToken::Identifier(b"MOV"),
        tokenizer::AssemblyToken::Register(cpu::Register(1)),
        tokenizer::AssemblyToken::Comma,
        tokenizer::AssemblyToken::OpenBracket,
        tokenizer::AssemblyToken::Register(cpu::Register(2)),
        tokenizer::AssemblyToken::CloseBracket,
        tokenizer::AssemblyToken::Newline,
        tokenizer::AssemblyToken::Identifier(b"MOV"),
        tokenizer::AssemblyToken::Register(cpu::Register(1)),
        tokenizer::AssemblyToken::Comma,
        tokenizer::AssemblyToken::OpenBracket,
        tokenizer::AssemblyToken::Register(cpu::Register(2)),
        tokenizer::AssemblyToken::Plus,
        tokenizer::AssemblyToken::Number(16),
        tokenizer::AssemblyToken::CloseBracket,
        tokenizer::AssemblyToken::Newline,
        tokenizer::AssemblyToken::Identifier(b"MOV"),
        tokenizer::AssemblyToken::Register(cpu::Register(1)),
        tokenizer::AssemblyToken::Comma,
        tokenizer::AssemblyToken::OpenBracket,
        tokenizer::AssemblyToken::Number(64),
        tokenizer::AssemblyToken::CloseBracket,
        tokenizer::AssemblyToken::Newline,
        tokenizer::AssemblyToken::Identifier(b"MOV"),
        tokenizer::AssemblyToken::OpenBracket,
        tokenizer::AssemblyToken::Register(cpu::Register(2)),
        tokenizer::AssemblyToken::CloseBracket,
        tokenizer::AssemblyToken::Comma,
        tokenizer::AssemblyToken::Register(cpu::Register(3)),
        tokenizer::AssemblyToken::Newline,
        tokenizer::AssemblyToken::Identifier(b"MOV"),
        tokenizer::AssemblyToken::OpenBracket,
        tokenizer::AssemblyToken::Register(cpu::Register(2)),
        tokenizer::AssemblyToken::Plus,
        tokenizer::AssemblyToken::Number(8),
        tokenizer::AssemblyToken::CloseBracket,
        tokenizer::AssemblyToken::Comma,
        tokenizer::AssemblyToken::Register(cpu::Register(3)),
        tokenizer::AssemblyToken::Newline,
        tokenizer::AssemblyToken::Identifier(b"MOV"),
        tokenizer::AssemblyToken::OpenBracket,
        tokenizer::AssemblyToken::Number(24),
        tokenizer::AssemblyToken::CloseBracket,
        tokenizer::AssemblyToken::Comma,
        tokenizer::AssemblyToken::Register(cpu::Register(4)),
        tokenizer::AssemblyToken::Newline,
        tokenizer::AssemblyToken::Identifier(b"MOV"),
        tokenizer::AssemblyToken::Register(cpu::Register(5)),
        tokenizer::AssemblyToken::Comma,
        tokenizer::AssemblyToken::Register(Register(8)),
        tokenizer::AssemblyToken::Newline,
        tokenizer::AssemblyToken::Identifier(b"MOV"),
        tokenizer::AssemblyToken::Register(Register(9)),
        tokenizer::AssemblyToken::Comma,
        tokenizer::AssemblyToken::Register(cpu::Register(6)),
        tokenizer::AssemblyToken::Newline,
        tokenizer::AssemblyToken::Identifier(b"MOV"),
        tokenizer::AssemblyToken::OpenBracket,
        tokenizer::AssemblyToken::Register(cpu::Register(5)),
        tokenizer::AssemblyToken::CloseBracket,
        tokenizer::AssemblyToken::Comma,
        tokenizer::AssemblyToken::Register(Register(8)),
        tokenizer::AssemblyToken::Newline,
        tokenizer::AssemblyToken::Identifier(b"MOV"),
        tokenizer::AssemblyToken::OpenBracket,
        tokenizer::AssemblyToken::Register(cpu::Register(5)),
        tokenizer::AssemblyToken::Plus,
        tokenizer::AssemblyToken::Number(8),
        tokenizer::AssemblyToken::CloseBracket,
        tokenizer::AssemblyToken::Comma,
        tokenizer::AssemblyToken::Register(Register(6)),
        tokenizer::AssemblyToken::Newline,
        tokenizer::AssemblyToken::Identifier(b"MOV"),
        tokenizer::AssemblyToken::Register(Register(5)),
        tokenizer::AssemblyToken::Comma,
        tokenizer::AssemblyToken::OpenBracket,
        tokenizer::AssemblyToken::Register(cpu::Register(6)),
        tokenizer::AssemblyToken::CloseBracket,
        tokenizer::AssemblyToken::Newline,
        tokenizer::AssemblyToken::Identifier(b"MOV"),
        tokenizer::AssemblyToken::Register(Register(5)),
        tokenizer::AssemblyToken::Comma,
        tokenizer::AssemblyToken::OpenBracket,
        tokenizer::AssemblyToken::Register(cpu::Register(6)),
        tokenizer::AssemblyToken::Plus,
        tokenizer::AssemblyToken::Number(8),
        tokenizer::AssemblyToken::CloseBracket,
        tokenizer::AssemblyToken::Newline,
        tokenizer::AssemblyToken::Identifier(b"MOV8"),
        tokenizer::AssemblyToken::Register(cpu::Register(3)),
        tokenizer::AssemblyToken::Comma,
        tokenizer::AssemblyToken::OpenBracket,
        tokenizer::AssemblyToken::Register(cpu::Register(4)),
        tokenizer::AssemblyToken::CloseBracket,
        tokenizer::AssemblyToken::Newline,
        tokenizer::AssemblyToken::Identifier(b"MOV8"),
        tokenizer::AssemblyToken::Register(cpu::Register(3)),
        tokenizer::AssemblyToken::Comma,
        tokenizer::AssemblyToken::OpenBracket,
        tokenizer::AssemblyToken::Register(cpu::Register(4)),
        tokenizer::AssemblyToken::Plus,
        tokenizer::AssemblyToken::Number(5),
        tokenizer::AssemblyToken::CloseBracket,
        tokenizer::AssemblyToken::Newline,
        tokenizer::AssemblyToken::Identifier(b"MOV8"),
        tokenizer::AssemblyToken::Register(cpu::Register(3)),
        tokenizer::AssemblyToken::Comma,
        tokenizer::AssemblyToken::OpenBracket,
        tokenizer::AssemblyToken::Number(5),
        tokenizer::AssemblyToken::CloseBracket,
        tokenizer::AssemblyToken::Newline,
        tokenizer::AssemblyToken::Identifier(b"MOV8"),
        tokenizer::AssemblyToken::OpenBracket,
        tokenizer::AssemblyToken::Register(cpu::Register(4)),
        tokenizer::AssemblyToken::CloseBracket,
        tokenizer::AssemblyToken::Comma,
        tokenizer::AssemblyToken::Register(cpu::Register(6)),
        tokenizer::AssemblyToken::Newline,
        tokenizer::AssemblyToken::Identifier(b"MOV8"),
        tokenizer::AssemblyToken::OpenBracket,
        tokenizer::AssemblyToken::Register(cpu::Register(4)),
        tokenizer::AssemblyToken::Plus,
        tokenizer::AssemblyToken::Number(5),
        tokenizer::AssemblyToken::CloseBracket,
        tokenizer::AssemblyToken::Comma,
        tokenizer::AssemblyToken::Register(cpu::Register(6)),
        tokenizer::AssemblyToken::Newline,
        tokenizer::AssemblyToken::Identifier(b"MOV8"),
        tokenizer::AssemblyToken::OpenBracket,
        tokenizer::AssemblyToken::Number(5),
        tokenizer::AssemblyToken::CloseBracket,
        tokenizer::AssemblyToken::Comma,
        tokenizer::AssemblyToken::Register(cpu::Register(6)),
        tokenizer::AssemblyToken::Newline,
        tokenizer::AssemblyToken::Comment(b"; Register Arithmetic"),
        tokenizer::AssemblyToken::Newline,
        tokenizer::AssemblyToken::Identifier(b"ADD"),
        tokenizer::AssemblyToken::Register(cpu::Register(1)),
        tokenizer::AssemblyToken::Comma,
        tokenizer::AssemblyToken::Register(cpu::Register(2)),
        tokenizer::AssemblyToken::Comma,
        tokenizer::AssemblyToken::Register(cpu::Register(3)),
        tokenizer::AssemblyToken::Newline,
        tokenizer::AssemblyToken::Identifier(b"ADD"),
        tokenizer::AssemblyToken::Register(cpu::Register(1)),
        tokenizer::AssemblyToken::Comma,
        tokenizer::AssemblyToken::Register(cpu::Register(2)),
        tokenizer::AssemblyToken::Comma,
        tokenizer::AssemblyToken::Register(cpu::Register(3)),
        tokenizer::AssemblyToken::Plus,
        tokenizer::AssemblyToken::Number(4),
        tokenizer::AssemblyToken::Newline,
        tokenizer::AssemblyToken::Identifier(b"ADD"),
        tokenizer::AssemblyToken::Register(cpu::Register(1)),
        tokenizer::AssemblyToken::Comma,
        tokenizer::AssemblyToken::Register(cpu::Register(2)),
        tokenizer::AssemblyToken::Comma,
        tokenizer::AssemblyToken::Number(8),
        tokenizer::AssemblyToken::Newline,
        tokenizer::AssemblyToken::Identifier(b"SUB"),
        tokenizer::AssemblyToken::Register(cpu::Register(4)),
        tokenizer::AssemblyToken::Comma,
        tokenizer::AssemblyToken::Register(cpu::Register(5)),
        tokenizer::AssemblyToken::Comma,
        tokenizer::AssemblyToken::Register(cpu::Register(6)),
        tokenizer::AssemblyToken::Newline,
        tokenizer::AssemblyToken::Identifier(b"SUB"),
        tokenizer::AssemblyToken::Register(cpu::Register(4)),
        tokenizer::AssemblyToken::Comma,
        tokenizer::AssemblyToken::Register(cpu::Register(5)),
        tokenizer::AssemblyToken::Comma,
        tokenizer::AssemblyToken::Register(cpu::Register(6)),
        tokenizer::AssemblyToken::Plus,
        tokenizer::AssemblyToken::Number(2),
        tokenizer::AssemblyToken::Newline,
        tokenizer::AssemblyToken::Identifier(b"SUB"),
        tokenizer::AssemblyToken::Register(cpu::Register(4)),
        tokenizer::AssemblyToken::Comma,
        tokenizer::AssemblyToken::Register(cpu::Register(5)),
        tokenizer::AssemblyToken::Comma,
        tokenizer::AssemblyToken::Number(12),
        tokenizer::AssemblyToken::Newline,
        tokenizer::AssemblyToken::Comment(b"; Tag Operations"),
        tokenizer::AssemblyToken::Newline,
        tokenizer::AssemblyToken::Identifier(b"SETTAG"),
        tokenizer::AssemblyToken::Register(Register(2)),
        tokenizer::AssemblyToken::Comma,
        tokenizer::AssemblyToken::Register(cpu::Register(1)),
        tokenizer::AssemblyToken::Newline,
        tokenizer::AssemblyToken::Identifier(b"GETTAG"),
        tokenizer::AssemblyToken::Register(cpu::Register(3)),
        tokenizer::AssemblyToken::Comma,
        tokenizer::AssemblyToken::Register(Register(2)),
        tokenizer::AssemblyToken::Newline,
        tokenizer::AssemblyToken::Identifier(b"SETPAYLOAD"),
        tokenizer::AssemblyToken::Register(Register(4)),
        tokenizer::AssemblyToken::Comma,
        tokenizer::AssemblyToken::Register(cpu::Register(3)),
        tokenizer::AssemblyToken::Newline,
        tokenizer::AssemblyToken::Identifier(b"GETPAYLOAD"),
        tokenizer::AssemblyToken::Register(cpu::Register(5)),
        tokenizer::AssemblyToken::Comma,
        tokenizer::AssemblyToken::Register(Register(4)),
        tokenizer::AssemblyToken::Newline,
        tokenizer::AssemblyToken::Comment(b"; Lisp Destructuring Primitives"),
        tokenizer::AssemblyToken::Newline,
        tokenizer::AssemblyToken::Identifier(b"CONS"),
        tokenizer::AssemblyToken::Register(Register(1)),
        tokenizer::AssemblyToken::Comma,
        tokenizer::AssemblyToken::Register(Register(2)),
        tokenizer::AssemblyToken::Comma,
        tokenizer::AssemblyToken::Register(Register(3)),
        tokenizer::AssemblyToken::Newline,
        tokenizer::AssemblyToken::Identifier(b"UNCONS"),
        tokenizer::AssemblyToken::Register(Register(1)),
        tokenizer::AssemblyToken::Comma,
        tokenizer::AssemblyToken::Register(Register(2)),
        tokenizer::AssemblyToken::Comma,
        tokenizer::AssemblyToken::Register(Register(3)),
        tokenizer::AssemblyToken::Newline,
        tokenizer::AssemblyToken::Identifier(b"CAR"),
        tokenizer::AssemblyToken::Register(Register(4)),
        tokenizer::AssemblyToken::Comma,
        tokenizer::AssemblyToken::Register(Register(5)),
        tokenizer::AssemblyToken::Newline,
        tokenizer::AssemblyToken::Identifier(b"CDR"),
        tokenizer::AssemblyToken::Register(Register(6)),
        tokenizer::AssemblyToken::Comma,
        tokenizer::AssemblyToken::Register(Register(7)),
        tokenizer::AssemblyToken::Newline,
        tokenizer::AssemblyToken::Identifier(b"SETCAR"),
        tokenizer::AssemblyToken::Register(Register(8)),
        tokenizer::AssemblyToken::Comma,
        tokenizer::AssemblyToken::Register(Register(9)),
        tokenizer::AssemblyToken::Newline,
        tokenizer::AssemblyToken::Identifier(b"SETCDR"),
        tokenizer::AssemblyToken::Register(Register(10)),
        tokenizer::AssemblyToken::Comma,
        tokenizer::AssemblyToken::Register(Register(11)),
        tokenizer::AssemblyToken::Newline,
        tokenizer::AssemblyToken::Comment(
            b"; Arithmetic (assembler::ThreeRegs layouts using Option types, Word Immediates)",
        ),
        tokenizer::AssemblyToken::Newline,
        tokenizer::AssemblyToken::Identifier(b"ADD"),
        tokenizer::AssemblyToken::Register(Register(1)),
        tokenizer::AssemblyToken::Comma,
        tokenizer::AssemblyToken::Register(Register(2)),
        tokenizer::AssemblyToken::Comma,
        tokenizer::AssemblyToken::Register(Register(3)),
        tokenizer::AssemblyToken::Newline,
        tokenizer::AssemblyToken::Identifier(b"ADD"),
        tokenizer::AssemblyToken::Register(Register(1)),
        tokenizer::AssemblyToken::Comma,
        tokenizer::AssemblyToken::Register(Register(2)),
        tokenizer::AssemblyToken::Comma,
        tokenizer::AssemblyToken::Register(Register(3)),
        tokenizer::AssemblyToken::Plus,
        tokenizer::AssemblyToken::Hash,
        tokenizer::AssemblyToken::Number(5),
        tokenizer::AssemblyToken::Newline,
        tokenizer::AssemblyToken::Identifier(b"ADD"),
        tokenizer::AssemblyToken::Register(Register(1)),
        tokenizer::AssemblyToken::Comma,
        tokenizer::AssemblyToken::Register(Register(2)),
        tokenizer::AssemblyToken::Comma,
        tokenizer::AssemblyToken::Hash,
        tokenizer::AssemblyToken::Number(10),
        tokenizer::AssemblyToken::Newline,
        tokenizer::AssemblyToken::Identifier(b"SUB"),
        tokenizer::AssemblyToken::Register(Register(1)),
        tokenizer::AssemblyToken::Comma,
        tokenizer::AssemblyToken::Register(Register(2)),
        tokenizer::AssemblyToken::Comma,
        tokenizer::AssemblyToken::Register(Register(3)),
        tokenizer::AssemblyToken::Newline,
        tokenizer::AssemblyToken::Identifier(b"SUB"),
        tokenizer::AssemblyToken::Register(Register(1)),
        tokenizer::AssemblyToken::Comma,
        tokenizer::AssemblyToken::Register(Register(2)),
        tokenizer::AssemblyToken::Comma,
        tokenizer::AssemblyToken::Register(Register(3)),
        tokenizer::AssemblyToken::Plus,
        tokenizer::AssemblyToken::Hash,
        tokenizer::AssemblyToken::Number(5),
        tokenizer::AssemblyToken::Newline,
        tokenizer::AssemblyToken::Identifier(b"SUB"),
        tokenizer::AssemblyToken::Register(Register(1)),
        tokenizer::AssemblyToken::Comma,
        tokenizer::AssemblyToken::Register(Register(2)),
        tokenizer::AssemblyToken::Comma,
        tokenizer::AssemblyToken::Hash,
        tokenizer::AssemblyToken::Number(10),
        tokenizer::AssemblyToken::Newline,
        tokenizer::AssemblyToken::Identifier(b"MUL"),
        tokenizer::AssemblyToken::Register(Register(1)),
        tokenizer::AssemblyToken::Comma,
        tokenizer::AssemblyToken::Register(Register(2)),
        tokenizer::AssemblyToken::Comma,
        tokenizer::AssemblyToken::Register(Register(3)),
        tokenizer::AssemblyToken::Newline,
        tokenizer::AssemblyToken::Identifier(b"MUL"),
        tokenizer::AssemblyToken::Register(Register(1)),
        tokenizer::AssemblyToken::Comma,
        tokenizer::AssemblyToken::Register(Register(2)),
        tokenizer::AssemblyToken::Comma,
        tokenizer::AssemblyToken::Register(Register(3)),
        tokenizer::AssemblyToken::Plus,
        tokenizer::AssemblyToken::Hash,
        tokenizer::AssemblyToken::Number(5),
        tokenizer::AssemblyToken::Newline,
        tokenizer::AssemblyToken::Identifier(b"MUL"),
        tokenizer::AssemblyToken::Register(Register(1)),
        tokenizer::AssemblyToken::Comma,
        tokenizer::AssemblyToken::Register(Register(2)),
        tokenizer::AssemblyToken::Comma,
        tokenizer::AssemblyToken::Hash,
        tokenizer::AssemblyToken::Number(10),
        tokenizer::AssemblyToken::Newline,
        tokenizer::AssemblyToken::Identifier(b"EQ"),
        tokenizer::AssemblyToken::Register(Register(1)),
        tokenizer::AssemblyToken::Comma,
        tokenizer::AssemblyToken::Register(Register(2)),
        tokenizer::AssemblyToken::Comma,
        tokenizer::AssemblyToken::Register(Register(3)),
        tokenizer::AssemblyToken::Newline,
        tokenizer::AssemblyToken::Identifier(b"EQ"),
        tokenizer::AssemblyToken::Register(Register(1)),
        tokenizer::AssemblyToken::Comma,
        tokenizer::AssemblyToken::Register(Register(2)),
        tokenizer::AssemblyToken::Comma,
        tokenizer::AssemblyToken::Register(Register(3)),
        tokenizer::AssemblyToken::Plus,
        tokenizer::AssemblyToken::Hash,
        tokenizer::AssemblyToken::Number(5),
        tokenizer::AssemblyToken::Newline,
        tokenizer::AssemblyToken::Identifier(b"EQ"),
        tokenizer::AssemblyToken::Register(Register(1)),
        tokenizer::AssemblyToken::Comma,
        tokenizer::AssemblyToken::Register(Register(2)),
        tokenizer::AssemblyToken::Comma,
        tokenizer::AssemblyToken::Hash,
        tokenizer::AssemblyToken::Number(10),
        tokenizer::AssemblyToken::Newline,
        tokenizer::AssemblyToken::Identifier(b"NE"),
        tokenizer::AssemblyToken::Register(Register(1)),
        tokenizer::AssemblyToken::Comma,
        tokenizer::AssemblyToken::Register(Register(2)),
        tokenizer::AssemblyToken::Comma,
        tokenizer::AssemblyToken::Register(Register(3)),
        tokenizer::AssemblyToken::Newline,
        tokenizer::AssemblyToken::Identifier(b"NE"),
        tokenizer::AssemblyToken::Register(Register(1)),
        tokenizer::AssemblyToken::Comma,
        tokenizer::AssemblyToken::Register(Register(2)),
        tokenizer::AssemblyToken::Comma,
        tokenizer::AssemblyToken::Register(Register(3)),
        tokenizer::AssemblyToken::Plus,
        tokenizer::AssemblyToken::Hash,
        tokenizer::AssemblyToken::Number(5),
        tokenizer::AssemblyToken::Newline,
        tokenizer::AssemblyToken::Identifier(b"NE"),
        tokenizer::AssemblyToken::Register(Register(1)),
        tokenizer::AssemblyToken::Comma,
        tokenizer::AssemblyToken::Register(Register(2)),
        tokenizer::AssemblyToken::Comma,
        tokenizer::AssemblyToken::Hash,
        tokenizer::AssemblyToken::Number(10),
        tokenizer::AssemblyToken::Newline,
        tokenizer::AssemblyToken::Identifier(b"LT"),
        tokenizer::AssemblyToken::Register(Register(1)),
        tokenizer::AssemblyToken::Comma,
        tokenizer::AssemblyToken::Register(Register(2)),
        tokenizer::AssemblyToken::Comma,
        tokenizer::AssemblyToken::Register(Register(3)),
        tokenizer::AssemblyToken::Newline,
        tokenizer::AssemblyToken::Identifier(b"LT"),
        tokenizer::AssemblyToken::Register(Register(1)),
        tokenizer::AssemblyToken::Comma,
        tokenizer::AssemblyToken::Register(Register(2)),
        tokenizer::AssemblyToken::Comma,
        tokenizer::AssemblyToken::Register(Register(3)),
        tokenizer::AssemblyToken::Plus,
        tokenizer::AssemblyToken::Hash,
        tokenizer::AssemblyToken::Number(5),
        tokenizer::AssemblyToken::Newline,
        tokenizer::AssemblyToken::Identifier(b"LT"),
        tokenizer::AssemblyToken::Register(Register(1)),
        tokenizer::AssemblyToken::Comma,
        tokenizer::AssemblyToken::Register(Register(2)),
        tokenizer::AssemblyToken::Comma,
        tokenizer::AssemblyToken::Hash,
        tokenizer::AssemblyToken::Number(10),
        tokenizer::AssemblyToken::Newline,
        tokenizer::AssemblyToken::Identifier(b"LTE"),
        tokenizer::AssemblyToken::Register(Register(1)),
        tokenizer::AssemblyToken::Comma,
        tokenizer::AssemblyToken::Register(Register(2)),
        tokenizer::AssemblyToken::Comma,
        tokenizer::AssemblyToken::Register(Register(3)),
        tokenizer::AssemblyToken::Newline,
        tokenizer::AssemblyToken::Identifier(b"LTE"),
        tokenizer::AssemblyToken::Register(Register(1)),
        tokenizer::AssemblyToken::Comma,
        tokenizer::AssemblyToken::Register(Register(2)),
        tokenizer::AssemblyToken::Comma,
        tokenizer::AssemblyToken::Register(Register(3)),
        tokenizer::AssemblyToken::Plus,
        tokenizer::AssemblyToken::Hash,
        tokenizer::AssemblyToken::Number(5),
        tokenizer::AssemblyToken::Newline,
        tokenizer::AssemblyToken::Identifier(b"LTE"),
        tokenizer::AssemblyToken::Register(Register(1)),
        tokenizer::AssemblyToken::Comma,
        tokenizer::AssemblyToken::Register(Register(2)),
        tokenizer::AssemblyToken::Comma,
        tokenizer::AssemblyToken::Hash,
        tokenizer::AssemblyToken::Number(10),
        tokenizer::AssemblyToken::Newline,
        tokenizer::AssemblyToken::Identifier(b"GT"),
        tokenizer::AssemblyToken::Register(Register(1)),
        tokenizer::AssemblyToken::Comma,
        tokenizer::AssemblyToken::Register(Register(2)),
        tokenizer::AssemblyToken::Comma,
        tokenizer::AssemblyToken::Register(Register(3)),
        tokenizer::AssemblyToken::Newline,
        tokenizer::AssemblyToken::Identifier(b"GT"),
        tokenizer::AssemblyToken::Register(Register(1)),
        tokenizer::AssemblyToken::Comma,
        tokenizer::AssemblyToken::Register(Register(2)),
        tokenizer::AssemblyToken::Comma,
        tokenizer::AssemblyToken::Register(Register(3)),
        tokenizer::AssemblyToken::Plus,
        tokenizer::AssemblyToken::Hash,
        tokenizer::AssemblyToken::Number(5),
        tokenizer::AssemblyToken::Newline,
        tokenizer::AssemblyToken::Identifier(b"GT"),
        tokenizer::AssemblyToken::Register(Register(1)),
        tokenizer::AssemblyToken::Comma,
        tokenizer::AssemblyToken::Register(Register(2)),
        tokenizer::AssemblyToken::Comma,
        tokenizer::AssemblyToken::Hash,
        tokenizer::AssemblyToken::Number(10),
        tokenizer::AssemblyToken::Newline,
        tokenizer::AssemblyToken::Identifier(b"GTE"),
        tokenizer::AssemblyToken::Register(Register(1)),
        tokenizer::AssemblyToken::Comma,
        tokenizer::AssemblyToken::Register(Register(2)),
        tokenizer::AssemblyToken::Comma,
        tokenizer::AssemblyToken::Register(Register(3)),
        tokenizer::AssemblyToken::Newline,
        tokenizer::AssemblyToken::Identifier(b"GTE"),
        tokenizer::AssemblyToken::Register(Register(1)),
        tokenizer::AssemblyToken::Comma,
        tokenizer::AssemblyToken::Register(Register(2)),
        tokenizer::AssemblyToken::Comma,
        tokenizer::AssemblyToken::Register(Register(3)),
        tokenizer::AssemblyToken::Plus,
        tokenizer::AssemblyToken::Hash,
        tokenizer::AssemblyToken::Number(5),
        tokenizer::AssemblyToken::Newline,
        tokenizer::AssemblyToken::Identifier(b"GTE"),
        tokenizer::AssemblyToken::Register(Register(1)),
        tokenizer::AssemblyToken::Comma,
        tokenizer::AssemblyToken::Register(Register(2)),
        tokenizer::AssemblyToken::Comma,
        tokenizer::AssemblyToken::Hash,
        tokenizer::AssemblyToken::Number(10),
        tokenizer::AssemblyToken::Newline,
        tokenizer::AssemblyToken::Identifier(b"DIV"),
        tokenizer::AssemblyToken::Register(Register(9)),
        tokenizer::AssemblyToken::Comma,
        tokenizer::AssemblyToken::Register(Register(2)),
        tokenizer::AssemblyToken::Comma,
        tokenizer::AssemblyToken::Register(Register(3)),
        tokenizer::AssemblyToken::Comma,
        tokenizer::AssemblyToken::Register(Register(4)),
        tokenizer::AssemblyToken::Newline,
        tokenizer::AssemblyToken::Identifier(b"DIV"),
        tokenizer::AssemblyToken::Register(Register(9)),
        tokenizer::AssemblyToken::Comma,
        tokenizer::AssemblyToken::Register(Register(2)),
        tokenizer::AssemblyToken::Comma,
        tokenizer::AssemblyToken::Register(Register(3)),
        tokenizer::AssemblyToken::Comma,
        tokenizer::AssemblyToken::Register(Register(4)),
        tokenizer::AssemblyToken::Plus,
        tokenizer::AssemblyToken::Hash,
        tokenizer::AssemblyToken::Number(5),
        tokenizer::AssemblyToken::Newline,
        tokenizer::AssemblyToken::Identifier(b"DIV"),
        tokenizer::AssemblyToken::Register(Register(9)),
        tokenizer::AssemblyToken::Comma,
        tokenizer::AssemblyToken::Register(Register(2)),
        tokenizer::AssemblyToken::Comma,
        tokenizer::AssemblyToken::Register(Register(3)),
        tokenizer::AssemblyToken::Comma,
        tokenizer::AssemblyToken::Hash,
        tokenizer::AssemblyToken::Number(5),
        tokenizer::AssemblyToken::Newline,
        tokenizer::AssemblyToken::Comment(b"; Advanced Operations"),
        tokenizer::AssemblyToken::Newline,
        tokenizer::AssemblyToken::Identifier(b"MAKECLOSURE"),
        tokenizer::AssemblyToken::Register(Register(5)),
        tokenizer::AssemblyToken::Comma,
        tokenizer::AssemblyToken::Register(cpu::Register(6)),
        tokenizer::AssemblyToken::Newline,
        tokenizer::AssemblyToken::Identifier(b"MEMCPY"),
        tokenizer::AssemblyToken::Register(cpu::Register(1)),
        tokenizer::AssemblyToken::Comma,
        tokenizer::AssemblyToken::Register(cpu::Register(2)),
        tokenizer::AssemblyToken::Comma,
        tokenizer::AssemblyToken::Number(1),
        tokenizer::AssemblyToken::Newline,
        tokenizer::AssemblyToken::Identifier(b"TYPEP"),
        tokenizer::AssemblyToken::Register(Register(1)),
        tokenizer::AssemblyToken::Comma,
        tokenizer::AssemblyToken::Register(Register(1)),
        tokenizer::AssemblyToken::Comma,
        tokenizer::AssemblyToken::Number(3),
        tokenizer::AssemblyToken::Newline,
        tokenizer::AssemblyToken::Identifier(b"GTE"),
        tokenizer::AssemblyToken::Register(Register(0)),
        tokenizer::AssemblyToken::Comma,
        tokenizer::AssemblyToken::Register(cpu::Register(1)),
        tokenizer::AssemblyToken::Comma,
        tokenizer::AssemblyToken::Register(cpu::Register(2)),
        tokenizer::AssemblyToken::Newline,
    ]
}
fn expected_lines<'a>() -> Vec<parser::AssemblyLine<'a>> {
    vec![
        parser::AssemblyLine::Org(128),
        parser::AssemblyLine::ResolvedInstruction(cpu::Instruction::Halt),
        parser::AssemblyLine::ResolvedInstruction(cpu::Instruction::Nop),
        parser::AssemblyLine::ResolvedInstruction(cpu::Instruction::Return),
        parser::AssemblyLine::Label(b"loop"),
        parser::AssemblyLine::UnresolvedInstruction(parser::UnresolvedInstruction::Int(
            assembler::Native::Raw(assembler::Reference::Resolved(42)),
        )),
        parser::AssemblyLine::UnresolvedInstruction(parser::UnresolvedInstruction::Int(
            assembler::Native::Raw(assembler::Reference::Unresolved(b"loop")),
        )),
        parser::AssemblyLine::ResolvedInstruction(cpu::Instruction::IReturn),
        parser::AssemblyLine::UnresolvedInstruction(parser::UnresolvedInstruction::Jump {
            condition: cpu::Condition::Always,
            target: assembler::RValue::Literal(assembler::Native::Raw(
                assembler::Reference::Resolved(16),
            )),
        }),
        parser::AssemblyLine::UnresolvedInstruction(parser::UnresolvedInstruction::Jump {
            condition: cpu::Condition::Always,
            target: parser::RValue::Register(parser::RegAndOff {
                op1: Register(1),
                off: None,
            }),
        }),
        parser::AssemblyLine::UnresolvedInstruction(parser::UnresolvedInstruction::Jump {
            condition: cpu::Condition::Always,
            target: parser::RValue::Register(parser::RegAndOff {
                op1: Register(1),
                off: Some(assembler::Native::Raw(assembler::Reference::Resolved(16))),
            }),
        }),
        parser::AssemblyLine::UnresolvedInstruction(parser::UnresolvedInstruction::Jump {
            condition: cpu::Condition::Always,
            target: parser::RValue::Register(parser::RegAndOff {
                op1: Register(1),
                off: None,
            }),
        }),
        parser::AssemblyLine::UnresolvedInstruction(parser::UnresolvedInstruction::Jump {
            condition: cpu::Condition::Always,
            target: assembler::RValue::Literal(assembler::Native::Raw(
                assembler::Reference::Unresolved(b"loop"),
            )),
        }),
        parser::AssemblyLine::UnresolvedInstruction(parser::UnresolvedInstruction::Jump {
            condition: cpu::Condition::True(Register(5)),
            target: assembler::RValue::Literal(assembler::Native::Raw(
                assembler::Reference::Resolved(16),
            )),
        }),
        parser::AssemblyLine::UnresolvedInstruction(parser::UnresolvedInstruction::Jump {
            condition: cpu::Condition::True(Register(5)),
            target: parser::RValue::Register(parser::RegAndOff {
                op1: Register(1),
                off: None,
            }),
        }),
        parser::AssemblyLine::UnresolvedInstruction(parser::UnresolvedInstruction::Jump {
            condition: cpu::Condition::True(Register(5)),
            target: parser::RValue::Register(parser::RegAndOff {
                op1: Register(1),
                off: Some(assembler::Native::Raw(assembler::Reference::Resolved(16))),
            }),
        }),
        parser::AssemblyLine::UnresolvedInstruction(parser::UnresolvedInstruction::Jump {
            condition: cpu::Condition::True(Register(5)),
            target: parser::RValue::Register(parser::RegAndOff {
                op1: Register(1),
                off: None,
            }),
        }),
        parser::AssemblyLine::UnresolvedInstruction(parser::UnresolvedInstruction::Jump {
            condition: cpu::Condition::True(Register(5)),
            target: assembler::RValue::Literal(assembler::Native::Raw(
                assembler::Reference::Unresolved(b"loop"),
            )),
        }),
        parser::AssemblyLine::UnresolvedInstruction(parser::UnresolvedInstruction::Jump {
            condition: cpu::Condition::False(Register(5)),
            target: assembler::RValue::Literal(assembler::Native::Raw(
                assembler::Reference::Resolved(16),
            )),
        }),
        parser::AssemblyLine::UnresolvedInstruction(parser::UnresolvedInstruction::Jump {
            condition: cpu::Condition::False(Register(5)),
            target: parser::RValue::Register(parser::RegAndOff {
                op1: Register(1),
                off: None,
            }),
        }),
        parser::AssemblyLine::UnresolvedInstruction(parser::UnresolvedInstruction::Jump {
            condition: cpu::Condition::False(Register(5)),
            target: parser::RValue::Register(parser::RegAndOff {
                op1: Register(1),
                off: Some(assembler::Native::Raw(assembler::Reference::Resolved(16))),
            }),
        }),
        parser::AssemblyLine::UnresolvedInstruction(parser::UnresolvedInstruction::Jump {
            condition: cpu::Condition::False(Register(5)),
            target: parser::RValue::Register(parser::RegAndOff {
                op1: Register(1),
                off: None,
            }),
        }),
        parser::AssemblyLine::UnresolvedInstruction(parser::UnresolvedInstruction::Jump {
            condition: cpu::Condition::False(Register(5)),
            target: assembler::RValue::Literal(assembler::Native::Raw(
                assembler::Reference::Unresolved(b"loop"),
            )),
        }),
        parser::AssemblyLine::UnresolvedInstruction(parser::UnresolvedInstruction::Call {
            target: assembler::RValue::Literal(assembler::Native::Raw(
                assembler::Reference::Resolved(16),
            )),
        }),
        parser::AssemblyLine::UnresolvedInstruction(parser::UnresolvedInstruction::Call {
            target: parser::RValue::Register(parser::RegAndOff {
                op1: Register(1),
                off: None,
            }),
        }),
        parser::AssemblyLine::UnresolvedInstruction(parser::UnresolvedInstruction::Call {
            target: parser::RValue::Register(parser::RegAndOff {
                op1: Register(1),
                off: Some(assembler::Native::Raw(assembler::Reference::Resolved(16))),
            }),
        }),
        parser::AssemblyLine::UnresolvedInstruction(parser::UnresolvedInstruction::Call {
            target: parser::RValue::Register(parser::RegAndOff {
                op1: Register(1),
                off: None,
            }),
        }),
        parser::AssemblyLine::UnresolvedInstruction(parser::UnresolvedInstruction::Call {
            target: assembler::RValue::Literal(assembler::Native::Raw(
                assembler::Reference::Unresolved(b"loop"),
            )),
        }),
        parser::AssemblyLine::ResolvedInstruction(cpu::Instruction::Push { src: Register(1) }),
        parser::AssemblyLine::ResolvedInstruction(cpu::Instruction::Pop { dst: Register(2) }),
        parser::AssemblyLine::ResolvedInstruction(cpu::Instruction::Push { src: Register(3) }),
        parser::AssemblyLine::ResolvedInstruction(cpu::Instruction::Pop { dst: Register(4) }),
        parser::AssemblyLine::UnresolvedInstruction(parser::UnresolvedInstruction::Mov {
            dst: parser::LValue::Register(Register(1)),
            src: assembler::RValue::Literal(parser::Native::Fixnum(
                assembler::Reference::Resolved(1234),
            )),
        }),
        parser::AssemblyLine::UnresolvedInstruction(parser::UnresolvedInstruction::Mov {
            dst: parser::LValue::Register(Register(3)),
            src: assembler::RValue::Literal(assembler::Native::Raw(
                assembler::Reference::Resolved(2147483647),
            )),
        }),
        parser::AssemblyLine::UnresolvedInstruction(parser::UnresolvedInstruction::Mov {
            dst: parser::LValue::Register(Register(5)),
            src: parser::RValue::Register(parser::RegAndOff {
                op1: Register(6),
                off: None,
            }),
        }),
        parser::AssemblyLine::UnresolvedInstruction(parser::UnresolvedInstruction::Mov {
            dst: parser::LValue::Register(Register(5)),
            src: parser::RValue::Indirect(parser::RegAndOff {
                op1: Register(6),
                off: None,
            }),
        }),
        parser::AssemblyLine::UnresolvedInstruction(parser::UnresolvedInstruction::Mov {
            dst: parser::LValue::Indirect(parser::RegAndOff {
                op1: Register(6),
                off: None,
            }),
            src: parser::RValue::Register(parser::RegAndOff {
                op1: Register(7),
                off: None,
            }),
        }),
        parser::AssemblyLine::UnresolvedInstruction(parser::UnresolvedInstruction::Mov {
            dst: parser::LValue::Register(Register(4)),
            src: parser::RValue::Register(parser::RegAndOff {
                op1: Register(5),
                off: None,
            }),
        }),
        parser::AssemblyLine::UnresolvedInstruction(parser::UnresolvedInstruction::Mov {
            dst: parser::LValue::Register(Register(1)),
            src: parser::RValue::Indirect(parser::RegAndOff {
                op1: Register(2),
                off: None,
            }),
        }),
        parser::AssemblyLine::UnresolvedInstruction(parser::UnresolvedInstruction::Mov {
            dst: parser::LValue::Register(Register(1)),
            src: parser::RValue::Indirect(parser::RegAndOff {
                op1: Register(2),
                off: Some(assembler::Native::Raw(assembler::Reference::Resolved(16))),
            }),
        }),
        parser::AssemblyLine::UnresolvedInstruction(parser::UnresolvedInstruction::Mov {
            dst: parser::LValue::Register(Register(1)),
            src: parser::RValue::Absolute(assembler::Native::Raw(
                assembler::Reference::Resolved(64),
            )),
        }),
        parser::AssemblyLine::UnresolvedInstruction(parser::UnresolvedInstruction::Mov {
            dst: parser::LValue::Indirect(parser::RegAndOff {
                op1: Register(2),
                off: None,
            }),
            src: parser::RValue::Register(parser::RegAndOff {
                op1: Register(3),
                off: None,
            }),
        }),
        parser::AssemblyLine::UnresolvedInstruction(parser::UnresolvedInstruction::Mov {
            dst: parser::LValue::Indirect(parser::RegAndOff {
                op1: Register(2),
                off: Some(assembler::Native::Raw(assembler::Reference::Resolved(8))),
            }),
            src: parser::RValue::Register(parser::RegAndOff {
                op1: Register(3),
                off: None,
            }),
        }),
        parser::AssemblyLine::UnresolvedInstruction(parser::UnresolvedInstruction::Mov {
            dst: parser::LValue::Absolute(assembler::Native::Raw(
                assembler::Reference::Resolved(24),
            )),
            src: parser::RValue::Register(parser::RegAndOff {
                op1: Register(4),
                off: None,
            }),
        }),
        parser::AssemblyLine::UnresolvedInstruction(parser::UnresolvedInstruction::Mov {
            dst: parser::LValue::Register(Register(5)),
            src: parser::RValue::Register(parser::RegAndOff {
                op1: Register(8),
                off: None,
            }),
        }),
        parser::AssemblyLine::UnresolvedInstruction(parser::UnresolvedInstruction::Mov {
            dst: parser::LValue::Register(Register(9)),
            src: parser::RValue::Register(parser::RegAndOff {
                op1: Register(6),
                off: None,
            }),
        }),
        parser::AssemblyLine::UnresolvedInstruction(parser::UnresolvedInstruction::Mov {
            dst: parser::LValue::Indirect(parser::RegAndOff {
                op1: Register(5),
                off: None,
            }),
            src: parser::RValue::Register(parser::RegAndOff {
                op1: Register(8),
                off: None,
            }),
        }),
        parser::AssemblyLine::UnresolvedInstruction(parser::UnresolvedInstruction::Mov {
            dst: parser::LValue::Indirect(parser::RegAndOff {
                op1: Register(5),
                off: Some(assembler::Native::Raw(assembler::Reference::Resolved(8))),
            }),
            src: parser::RValue::Register(parser::RegAndOff {
                op1: Register(6),
                off: None,
            }),
        }),
        parser::AssemblyLine::UnresolvedInstruction(parser::UnresolvedInstruction::Mov {
            dst: parser::LValue::Register(Register(5)),
            src: parser::RValue::Indirect(parser::RegAndOff {
                op1: Register(6),
                off: None,
            }),
        }),
        parser::AssemblyLine::UnresolvedInstruction(parser::UnresolvedInstruction::Mov {
            dst: parser::LValue::Register(Register(5)),
            src: parser::RValue::Indirect(parser::RegAndOff {
                op1: Register(6),
                off: Some(assembler::Native::Raw(assembler::Reference::Resolved(8))),
            }),
        }),
        parser::AssemblyLine::UnresolvedInstruction(parser::UnresolvedInstruction::Mov8 {
            dst: parser::LValue::Register(Register(3)),
            src: parser::RValue::Indirect(parser::RegAndOff {
                op1: Register(4),
                off: None,
            }),
        }),
        parser::AssemblyLine::UnresolvedInstruction(parser::UnresolvedInstruction::Mov8 {
            dst: parser::LValue::Register(Register(3)),
            src: parser::RValue::Indirect(parser::RegAndOff {
                op1: Register(4),
                off: Some(assembler::Native::Raw(assembler::Reference::Resolved(5))),
            }),
        }),
        parser::AssemblyLine::UnresolvedInstruction(parser::UnresolvedInstruction::Mov8 {
            dst: parser::LValue::Register(Register(3)),
            src: parser::RValue::Absolute(assembler::Native::Raw(
                assembler::Reference::Resolved(5),
            )),
        }),
        parser::AssemblyLine::UnresolvedInstruction(parser::UnresolvedInstruction::Mov8 {
            dst: parser::LValue::Indirect(parser::RegAndOff {
                op1: Register(4),
                off: None,
            }),
            src: parser::RValue::Register(parser::RegAndOff {
                op1: Register(6),
                off: None,
            }),
        }),
        parser::AssemblyLine::UnresolvedInstruction(parser::UnresolvedInstruction::Mov8 {
            dst: parser::LValue::Indirect(parser::RegAndOff {
                op1: Register(4),
                off: Some(assembler::Native::Raw(assembler::Reference::Resolved(5))),
            }),
            src: parser::RValue::Register(parser::RegAndOff {
                op1: Register(6),
                off: None,
            }),
        }),
        parser::AssemblyLine::UnresolvedInstruction(parser::UnresolvedInstruction::Mov8 {
            dst: parser::LValue::Absolute(assembler::Native::Raw(
                assembler::Reference::Resolved(5),
            )),
            src: parser::RValue::Register(parser::RegAndOff {
                op1: Register(6),
                off: None,
            }),
        }),
        parser::AssemblyLine::UnresolvedInstruction(parser::UnresolvedInstruction::Binary {
            op: cpu::BinaryOp::Add,
            dst: Register(1),
            op1: Register(2),
            op2: parser::RValue::Register(parser::RegAndOff {
                op1: Register(3),
                off: None,
            }),
        }),
        parser::AssemblyLine::UnresolvedInstruction(parser::UnresolvedInstruction::Binary {
            op: cpu::BinaryOp::Add,
            dst: Register(1),
            op1: Register(2),
            op2: parser::RValue::Register(parser::RegAndOff {
                op1: Register(3),
                off: Some(assembler::Native::Raw(assembler::Reference::Resolved(4))),
            }),
        }),
        parser::AssemblyLine::UnresolvedInstruction(parser::UnresolvedInstruction::Binary {
            op: cpu::BinaryOp::Add,
            dst: Register(1),
            op1: Register(2),
            op2: assembler::RValue::Literal(assembler::Native::Raw(
                assembler::Reference::Resolved(8),
            )),
        }),
        parser::AssemblyLine::UnresolvedInstruction(parser::UnresolvedInstruction::Binary {
            op: cpu::BinaryOp::Sub,
            dst: Register(4),
            op1: Register(5),
            op2: parser::RValue::Register(parser::RegAndOff {
                op1: Register(6),
                off: None,
            }),
        }),
        parser::AssemblyLine::UnresolvedInstruction(parser::UnresolvedInstruction::Binary {
            op: cpu::BinaryOp::Sub,
            dst: Register(4),
            op1: Register(5),
            op2: parser::RValue::Register(parser::RegAndOff {
                op1: Register(6),
                off: Some(assembler::Native::Raw(assembler::Reference::Resolved(2))),
            }),
        }),
        parser::AssemblyLine::UnresolvedInstruction(parser::UnresolvedInstruction::Binary {
            op: cpu::BinaryOp::Sub,
            dst: Register(4),
            op1: Register(5),
            op2: assembler::RValue::Literal(assembler::Native::Raw(
                assembler::Reference::Resolved(12),
            )),
        }),
        parser::AssemblyLine::ResolvedInstruction(cpu::Instruction::SetTag {
            dst: Register(2),
            src: Register(1),
        }),
        parser::AssemblyLine::ResolvedInstruction(cpu::Instruction::GetTag {
            dst: Register(3),
            src: Register(2),
        }),
        parser::AssemblyLine::ResolvedInstruction(cpu::Instruction::SetPayload {
            dst: Register(4),
            src: Register(3),
        }),
        parser::AssemblyLine::ResolvedInstruction(cpu::Instruction::GetPayload {
            dst: Register(5),
            src: Register(4),
        }),
        parser::AssemblyLine::ResolvedInstruction(cpu::Instruction::Cons {
            dst: Register(1),
            car: Register(2),
            cdr: Register(3),
        }),
        parser::AssemblyLine::ResolvedInstruction(cpu::Instruction::Uncons {
            car: Register(1),
            cdr: Register(2),
            src: Register(3),
        }),
        parser::AssemblyLine::ResolvedInstruction(cpu::Instruction::Car {
            dst: Register(4),
            src: Register(5),
        }),
        parser::AssemblyLine::ResolvedInstruction(cpu::Instruction::Cdr {
            dst: Register(6),
            src: Register(7),
        }),
        parser::AssemblyLine::ResolvedInstruction(cpu::Instruction::SetCar {
            dst: Register(8),
            src: Register(9),
        }),
        parser::AssemblyLine::ResolvedInstruction(cpu::Instruction::SetCdr {
            dst: Register(10),
            src: Register(11),
        }),
        parser::AssemblyLine::UnresolvedInstruction(parser::UnresolvedInstruction::Binary {
            op: cpu::BinaryOp::Add,
            dst: Register(1),
            op1: Register(2),
            op2: parser::RValue::Register(parser::RegAndOff {
                op1: Register(3),
                off: None,
            }),
        }),
        parser::AssemblyLine::UnresolvedInstruction(parser::UnresolvedInstruction::Binary {
            op: cpu::BinaryOp::Add,
            dst: Register(1),
            op1: Register(2),
            op2: parser::RValue::Register(parser::RegAndOff {
                op1: Register(3),
                off: Some(assembler::Native::Fixnum(assembler::Reference::Resolved(5))),
            }),
        }),
        parser::AssemblyLine::UnresolvedInstruction(parser::UnresolvedInstruction::Binary {
            op: cpu::BinaryOp::Add,
            dst: Register(1),
            op1: Register(2),
            op2: assembler::RValue::Literal(assembler::Native::Fixnum(
                assembler::Reference::Resolved(10),
            )),
        }),
        parser::AssemblyLine::UnresolvedInstruction(parser::UnresolvedInstruction::Binary {
            op: cpu::BinaryOp::Sub,
            dst: Register(1),
            op1: Register(2),
            op2: parser::RValue::Register(parser::RegAndOff {
                op1: Register(3),
                off: None,
            }),
        }),
        parser::AssemblyLine::UnresolvedInstruction(parser::UnresolvedInstruction::Binary {
            op: cpu::BinaryOp::Sub,
            dst: Register(1),
            op1: Register(2),
            op2: parser::RValue::Register(parser::RegAndOff {
                op1: Register(3),
                off: Some(assembler::Native::Fixnum(assembler::Reference::Resolved(5))),
            }),
        }),
        parser::AssemblyLine::UnresolvedInstruction(parser::UnresolvedInstruction::Binary {
            op: cpu::BinaryOp::Sub,
            dst: Register(1),
            op1: Register(2),
            op2: assembler::RValue::Literal(assembler::Native::Fixnum(
                assembler::Reference::Resolved(10),
            )),
        }),
        parser::AssemblyLine::UnresolvedInstruction(parser::UnresolvedInstruction::Binary {
            op: cpu::BinaryOp::Mul,
            dst: Register(1),
            op1: Register(2),
            op2: parser::RValue::Register(parser::RegAndOff {
                op1: Register(3),
                off: None,
            }),
        }),
        parser::AssemblyLine::UnresolvedInstruction(parser::UnresolvedInstruction::Binary {
            op: cpu::BinaryOp::Mul,
            dst: Register(1),
            op1: Register(2),
            op2: parser::RValue::Register(parser::RegAndOff {
                op1: Register(3),
                off: Some(assembler::Native::Fixnum(assembler::Reference::Resolved(5))),
            }),
        }),
        parser::AssemblyLine::UnresolvedInstruction(parser::UnresolvedInstruction::Binary {
            op: cpu::BinaryOp::Mul,
            dst: Register(1),
            op1: Register(2),
            op2: assembler::RValue::Literal(assembler::Native::Fixnum(
                assembler::Reference::Resolved(10),
            )),
        }),
        parser::AssemblyLine::UnresolvedInstruction(
            parser::UnresolvedInstruction::MComparison {
                op: cpu::Comparison::Eq,
                dst: Register(1),
                op1: Register(2),
                op2: parser::RValue::Register(parser::RegAndOff {
                    op1: Register(3),
                    off: None,
                }),
            },
        ),
        parser::AssemblyLine::UnresolvedInstruction(
            parser::UnresolvedInstruction::MComparison {
                op: cpu::Comparison::Eq,
                dst: Register(1),
                op1: Register(2),
                op2: parser::RValue::Register(parser::RegAndOff {
                    op1: Register(3),
                    off: Some(assembler::Native::Fixnum(assembler::Reference::Resolved(5))),
                }),
            },
        ),
        parser::AssemblyLine::UnresolvedInstruction(
            parser::UnresolvedInstruction::MComparison {
                op: cpu::Comparison::Eq,
                dst: Register(1),
                op1: Register(2),
                op2: assembler::RValue::Literal(assembler::Native::Fixnum(
                    assembler::Reference::Resolved(10),
                )),
            },
        ),
        parser::AssemblyLine::UnresolvedInstruction(
            parser::UnresolvedInstruction::MComparison {
                op: cpu::Comparison::Ne,
                dst: Register(1),
                op1: Register(2),
                op2: parser::RValue::Register(parser::RegAndOff {
                    op1: Register(3),
                    off: None,
                }),
            },
        ),
        parser::AssemblyLine::UnresolvedInstruction(
            parser::UnresolvedInstruction::MComparison {
                op: cpu::Comparison::Ne,
                dst: Register(1),
                op1: Register(2),
                op2: parser::RValue::Register(parser::RegAndOff {
                    op1: Register(3),
                    off: Some(assembler::Native::Fixnum(assembler::Reference::Resolved(5))),
                }),
            },
        ),
        parser::AssemblyLine::UnresolvedInstruction(
            parser::UnresolvedInstruction::MComparison {
                op: cpu::Comparison::Ne,
                dst: Register(1),
                op1: Register(2),
                op2: assembler::RValue::Literal(assembler::Native::Fixnum(
                    assembler::Reference::Resolved(10),
                )),
            },
        ),
        parser::AssemblyLine::UnresolvedInstruction(
            parser::UnresolvedInstruction::MComparison {
                op: cpu::Comparison::Lt,
                dst: Register(1),
                op1: Register(2),
                op2: parser::RValue::Register(parser::RegAndOff {
                    op1: Register(3),
                    off: None,
                }),
            },
        ),
        parser::AssemblyLine::UnresolvedInstruction(
            parser::UnresolvedInstruction::MComparison {
                op: cpu::Comparison::Lt,
                dst: Register(1),
                op1: Register(2),
                op2: parser::RValue::Register(parser::RegAndOff {
                    op1: Register(3),
                    off: Some(assembler::Native::Fixnum(assembler::Reference::Resolved(5))),
                }),
            },
        ),
        parser::AssemblyLine::UnresolvedInstruction(
            parser::UnresolvedInstruction::MComparison {
                op: cpu::Comparison::Lt,
                dst: Register(1),
                op1: Register(2),
                op2: assembler::RValue::Literal(assembler::Native::Fixnum(
                    assembler::Reference::Resolved(10),
                )),
            },
        ),
        parser::AssemblyLine::UnresolvedInstruction(
            parser::UnresolvedInstruction::MComparison {
                op: cpu::Comparison::Lte,
                dst: Register(1),
                op1: Register(2),
                op2: parser::RValue::Register(parser::RegAndOff {
                    op1: Register(3),
                    off: None,
                }),
            },
        ),
        parser::AssemblyLine::UnresolvedInstruction(
            parser::UnresolvedInstruction::MComparison {
                op: cpu::Comparison::Lte,
                dst: Register(1),
                op1: Register(2),
                op2: parser::RValue::Register(parser::RegAndOff {
                    op1: Register(3),
                    off: Some(assembler::Native::Fixnum(assembler::Reference::Resolved(5))),
                }),
            },
        ),
        parser::AssemblyLine::UnresolvedInstruction(
            parser::UnresolvedInstruction::MComparison {
                op: cpu::Comparison::Lte,
                dst: Register(1),
                op1: Register(2),
                op2: assembler::RValue::Literal(assembler::Native::Fixnum(
                    assembler::Reference::Resolved(10),
                )),
            },
        ),
        parser::AssemblyLine::UnresolvedInstruction(
            parser::UnresolvedInstruction::MComparison {
                op: cpu::Comparison::Gt,
                dst: Register(1),
                op1: Register(2),
                op2: parser::RValue::Register(parser::RegAndOff {
                    op1: Register(3),
                    off: None,
                }),
            },
        ),
        parser::AssemblyLine::UnresolvedInstruction(
            parser::UnresolvedInstruction::MComparison {
                op: cpu::Comparison::Gt,
                dst: Register(1),
                op1: Register(2),
                op2: parser::RValue::Register(parser::RegAndOff {
                    op1: Register(3),
                    off: Some(assembler::Native::Fixnum(assembler::Reference::Resolved(5))),
                }),
            },
        ),
        parser::AssemblyLine::UnresolvedInstruction(
            parser::UnresolvedInstruction::MComparison {
                op: cpu::Comparison::Gt,
                dst: Register(1),
                op1: Register(2),
                op2: assembler::RValue::Literal(assembler::Native::Fixnum(
                    assembler::Reference::Resolved(10),
                )),
            },
        ),
        parser::AssemblyLine::UnresolvedInstruction(
            parser::UnresolvedInstruction::MComparison {
                op: cpu::Comparison::Gte,
                dst: Register(1),
                op1: Register(2),
                op2: parser::RValue::Register(parser::RegAndOff {
                    op1: Register(3),
                    off: None,
                }),
            },
        ),
        parser::AssemblyLine::UnresolvedInstruction(
            parser::UnresolvedInstruction::MComparison {
                op: cpu::Comparison::Gte,
                dst: Register(1),
                op1: Register(2),
                op2: parser::RValue::Register(parser::RegAndOff {
                    op1: Register(3),
                    off: Some(assembler::Native::Fixnum(assembler::Reference::Resolved(5))),
                }),
            },
        ),
        parser::AssemblyLine::UnresolvedInstruction(
            parser::UnresolvedInstruction::MComparison {
                op: cpu::Comparison::Gte,
                dst: Register(1),
                op1: Register(2),
                op2: assembler::RValue::Literal(assembler::Native::Fixnum(
                    assembler::Reference::Resolved(10),
                )),
            },
        ),
        parser::AssemblyLine::UnresolvedInstruction(parser::UnresolvedInstruction::IDiv {
            div: Register(9),
            rem: Register(2),
            op1: Register(3),
            op2: parser::RValue::Register(parser::RegAndOff {
                op1: Register(4),
                off: None,
            }),
        }),
        parser::AssemblyLine::UnresolvedInstruction(parser::UnresolvedInstruction::IDiv {
            div: Register(9),
            rem: Register(2),
            op1: Register(3),
            op2: parser::RValue::Register(parser::RegAndOff {
                op1: Register(4),
                off: Some(assembler::Native::Fixnum(assembler::Reference::Resolved(5))),
            }),
        }),
        parser::AssemblyLine::UnresolvedInstruction(parser::UnresolvedInstruction::IDiv {
            div: Register(9),
            rem: Register(2),
            op1: Register(3),
            op2: assembler::RValue::Literal(assembler::Native::Fixnum(
                assembler::Reference::Resolved(5),
            )),
        }),
        parser::AssemblyLine::ResolvedInstruction(cpu::Instruction::MakeClosure {
            dst: Register(5),
            code: Register(6),
        }),
        parser::AssemblyLine::UnresolvedInstruction(parser::UnresolvedInstruction::MemCpy {
            dst: Register(1),
            src: Register(2),
            count: assembler::RValue::Literal(assembler::Native::Raw(
                assembler::Reference::Resolved(1),
            )),
        }),
        parser::AssemblyLine::UnresolvedInstruction(parser::UnresolvedInstruction::Typep {
            dst: Register(1),
            src: Register(1),
            compare: assembler::Native::Raw(assembler::Reference::Resolved(3)),
        }),
        parser::AssemblyLine::UnresolvedInstruction(
            parser::UnresolvedInstruction::MComparison {
                op: cpu::Comparison::Gte,
                dst: Register(0),
                op1: Register(1),
                op2: parser::RValue::Register(parser::RegAndOff {
                    op1: Register(2),
                    off: None,
                }),
            },
        ),
    ]
}
#[test]
fn test_tokenize() {
    let parsed = tokenize(SOURCE).unwrap();
    let expected = expected_tokens();
    for i in 0..parsed.len() {
        assert_eq!(parsed[i], expected[i])
    }
}

#[test]
fn test_parse() {
    let tokens = expected_tokens();
    let ast = parser::parse(&tokens).unwrap();
    let expected = expected_lines();
    for i in 0..ast.len().min(expected.len()) {
        assert_eq!(ast[i], expected[i]);
    }
    assert_eq!(ast, expected);
}

fn expected_resolved<'a>() -> wisp::cpu::assembler::Layout<'a> {
    let tokens = tokenize(SOURCE).unwrap();
    let ast = parser::parse(&tokens).unwrap();
    let mut layout = wisp::cpu::assembler::layout(ast).unwrap();
    wisp::cpu::assembler::resolve(&mut layout).unwrap();
    layout
}

#[test]
fn encode_decode() -> Result<(), String> {
    let resolved = expected_resolved();

    for s in resolved.sections {
        for i in s.lines {
            match i {
                parser::AssemblyLine::ResolvedInstruction(r) => {
                    let (lo, hi) = r.encode().map_err(|_| format!("Error encoding {:?}", r))?;
                    let decoded = cpu::Instruction::decode(lo, hi)
                        .map_err(|e| format!("Error decoding {:?} {:?}", r, e))?;
                    assert_eq!(r, decoded);
                    let (lo, hi) = decoded
                        .encode()
                        .map_err(|_| format!("Error second encoding {:?}", r))?;
                    let decoded = cpu::Instruction::decode(lo, hi)
                        .map_err(|_| format!("Error second decoding {:?}", r))?;
                    assert_eq!(r, decoded);
                }
                _ => {}
            }
        }
    }
    Ok(())
}

#[test]
fn instructions() {
    let tokens = tokenize(SOURCE).unwrap();
    let ast = parser::parse(&tokens).unwrap();
    let mut layout = wisp::cpu::assembler::layout(ast).unwrap();
    wisp::cpu::assembler::resolve(&mut layout).unwrap();
    let r = wisp::cpu::assembler::emit(&layout).unwrap();

    assert_eq!(
        r,
        vec![wisp::cpu::assembler::Section {
            data: vec![
                0, 0, 0, 0, 0, 0, 0, 0, 0, 0, 0, 0, 0, 0, 0, 0, 1, 0, 0, 0, 0, 0, 0, 0, 0, 0,
                0, 0, 0, 0, 0, 0, 38, 0, 0, 0, 0, 0, 0, 0, 0, 0, 0, 0, 0, 0, 0, 0, 5, 32, 0, 0,
                0, 0, 0, 0, 42, 0, 0, 0, 0, 0, 0, 0, 5, 32, 0, 0, 0, 0, 0, 0, 176, 0, 0, 0, 0, 0,
                0, 0, 6, 0, 0, 0, 0, 0, 0, 0, 0, 0, 0, 0, 0, 0, 0, 0, 2, 38, 0, 0, 0, 0, 0, 0,
                16, 0, 0, 0, 0, 0, 0, 0, 2, 2, 0, 1, 0, 0, 0, 0, 0, 0, 0, 0, 0, 0, 0, 0, 2, 34,
                0, 1, 0, 0, 0, 0, 16, 0, 0, 0, 0, 0, 0, 0, 2, 2, 0, 1, 0, 0, 0, 0, 0, 0, 0, 0,
                0, 0, 0, 0, 2, 38, 0, 0, 0, 0, 0, 0, 176, 0, 0, 0, 0, 0, 0, 0, 3, 39, 5, 0, 0, 0,
                0, 0, 16, 0, 0, 0, 0, 0, 0, 0, 3, 3, 5, 1, 0, 0, 0, 0, 0, 0, 0, 0, 0, 0, 0, 0,
                3, 35, 5, 1, 0, 0, 0, 0, 16, 0, 0, 0, 0, 0, 0, 0, 3, 3, 5, 1, 0, 0, 0, 0, 0, 0,
                0, 0, 0, 0, 0, 0, 3, 39, 5, 0, 0, 0, 0, 0, 176, 0, 0, 0, 0, 0, 0, 0, 4, 39, 5, 0,
                0, 0, 0, 0, 16, 0, 0, 0, 0, 0, 0, 0, 4, 3, 5, 1, 0, 0, 0, 0, 0, 0, 0, 0, 0, 0,
                0, 0, 4, 35, 5, 1, 0, 0, 0, 0, 16, 0, 0, 0, 0, 0, 0, 0, 4, 3, 5, 1, 0, 0, 0, 0,
                0, 0, 0, 0, 0, 0, 0, 0, 4, 39, 5, 0, 0, 0, 0, 0, 176, 0, 0, 0, 0, 0, 0, 0, 37, 35,
                0, 0, 0, 0, 0, 0, 16, 0, 0, 0, 0, 0, 0, 0, 37, 1, 1, 0, 0, 0, 0, 0, 0, 0, 0, 0,
                0, 0, 0, 0, 37, 33, 1, 0, 0, 0, 0, 0, 16, 0, 0, 0, 0, 0, 0, 0, 37, 1, 1, 0, 0, 0,
                0, 0, 0, 0, 0, 0, 0, 0, 0, 0, 37, 35, 0, 0, 0, 0, 0, 0, 176, 0, 0, 0, 0, 0, 0, 0,
                34, 1, 1, 0, 0, 0, 0, 0, 0, 0, 0, 0, 0, 0, 0, 0, 35, 1, 2, 0, 0, 0, 0, 0, 0, 0,
                0, 0, 0, 0, 0, 0, 34, 1, 3, 0, 0, 0, 0, 0, 0, 0, 0, 0, 0, 0, 0, 0, 35, 1, 4, 0,
                0, 0, 0, 0, 0, 0, 0, 0, 0, 0, 0, 0, 7, 45, 1, 0, 0, 0, 0, 0, 0, 210, 4, 0, 0, 0,
                0, 0, 7, 45, 3, 0, 0, 0, 0, 0, 255, 255, 255, 127, 0, 0, 0, 0, 7, 5, 5, 0, 6, 0, 0, 0,
                0, 0, 0, 0, 0, 0, 0, 0, 7, 9, 5, 0, 0, 6, 0, 0, 0, 0, 0, 0, 0, 0, 0, 0, 7, 6,
                0, 6, 7, 0, 0, 0, 0, 0, 0, 0, 0, 0, 0, 0, 7, 5, 4, 0, 5, 0, 0, 0, 0, 0, 0, 0,
                0, 0, 0, 0, 7, 9, 1, 0, 0, 2, 0, 0, 0, 0, 0, 0, 0, 0, 0, 0, 7, 41, 1, 0, 0, 2,
                0, 0, 16, 0, 0, 0, 0, 0, 0, 0, 7, 33, 1, 0, 0, 0, 0, 0, 64, 0, 0, 0, 0, 0, 0, 0,
                7, 6, 0, 2, 3, 0, 0, 0, 0, 0, 0, 0, 0, 0, 0, 0, 7, 38, 0, 2, 3, 0, 0, 1, 8, 0,
                0, 0, 0, 0, 0, 0, 7, 36, 0, 0, 4, 0, 0, 1, 24, 0, 0, 0, 0, 0, 0, 0, 7, 5, 5, 0,
                8, 0, 0, 0, 0, 0, 0, 0, 0, 0, 0, 0, 7, 5, 9, 0, 6, 0, 0, 0, 0, 0, 0, 0, 0, 0,
                0, 0, 7, 6, 0, 5, 8, 0, 0, 0, 0, 0, 0, 0, 0, 0, 0, 0, 7, 38, 0, 5, 6, 0, 0, 1,
                8, 0, 0, 0, 0, 0, 0, 0, 7, 9, 5, 0, 0, 6, 0, 0, 0, 0, 0, 0, 0, 0, 0, 0, 7, 41,
                5, 0, 0, 6, 0, 0, 8, 0, 0, 0, 0, 0, 0, 0, 8, 9, 3, 0, 0, 4, 0, 0, 0, 0, 0, 0,
                0, 0, 0, 0, 8, 41, 3, 0, 0, 4, 0, 0, 5, 0, 0, 0, 0, 0, 0, 0, 8, 33, 3, 0, 0, 0,
                0, 0, 5, 0, 0, 0, 0, 0, 0, 0, 8, 6, 0, 4, 6, 0, 0, 0, 0, 0, 0, 0, 0, 0, 0, 0,
                8, 38, 0, 4, 6, 0, 0, 1, 5, 0, 0, 0, 0, 0, 0, 0, 8, 36, 0, 0, 6, 0, 0, 1, 5, 0,
                0, 0, 0, 0, 0, 0, 22, 7, 1, 2, 3, 0, 0, 0, 0, 0, 0, 0, 0, 0, 0, 0, 22, 39, 1, 2,
                3, 0, 0, 0, 4, 0, 0, 0, 0, 0, 0, 0, 22, 47, 1, 2, 0, 0, 0, 0, 8, 0, 0, 0, 0, 0,
                0, 0, 27, 7, 4, 5, 6, 0, 0, 0, 0, 0, 0, 0, 0, 0, 0, 0, 27, 39, 4, 5, 6, 0, 0, 0,
                2, 0, 0, 0, 0, 0, 0, 0, 27, 47, 4, 5, 0, 0, 0, 0, 12, 0, 0, 0, 0, 0, 0, 0, 11, 3,
                2, 1, 0, 0, 0, 0, 0, 0, 0, 0, 0, 0, 0, 0, 12, 3, 3, 2, 0, 0, 0, 0, 0, 0, 0, 0,
                0, 0, 0, 0, 13, 3, 4, 3, 0, 0, 0, 0, 0, 0, 0, 0, 0, 0, 0, 0, 14, 3, 5, 4, 0, 0,
                0, 0, 0, 0, 0, 0, 0, 0, 0, 0, 16, 7, 1, 2, 3, 0, 0, 0, 0, 0, 0, 0, 0, 0, 0, 0,
                17, 7, 1, 2, 3, 0, 0, 0, 0, 0, 0, 0, 0, 0, 0, 0, 18, 3, 4, 5, 0, 0, 0, 0, 0, 0,
                0, 0, 0, 0, 0, 0, 19, 3, 6, 7, 0, 0, 0, 0, 0, 0, 0, 0, 0, 0, 0, 0, 20, 3, 8, 9,
                0, 0, 0, 0, 0, 0, 0, 0, 0, 0, 0, 0, 21, 3, 10, 11, 0, 0, 0, 0, 0, 0, 0, 0, 0, 0,
                0, 0, 22, 7, 1, 2, 3, 0, 0, 0, 0, 0, 0, 0, 0, 0, 0, 0, 22, 39, 1, 2, 3, 0, 0, 0,
                0, 5, 0, 0, 0, 0, 0, 0, 22, 47, 1, 2, 0, 0, 0, 0, 0, 10, 0, 0, 0, 0, 0, 0, 27, 7,
                1, 2, 3, 0, 0, 0, 0, 0, 0, 0, 0, 0, 0, 0, 27, 39, 1, 2, 3, 0, 0, 0, 0, 5, 0, 0,
                0, 0, 0, 0, 27, 47, 1, 2, 0, 0, 0, 0, 0, 10, 0, 0, 0, 0, 0, 0, 23, 7, 1, 2, 3, 0,
                0, 0, 0, 0, 0, 0, 0, 0, 0, 0, 23, 39, 1, 2, 3, 0, 0, 0, 0, 5, 0, 0, 0, 0, 0, 0,
                23, 47, 1, 2, 0, 0, 0, 0, 0, 10, 0, 0, 0, 0, 0, 0, 28, 7, 1, 2, 3, 0, 0, 0, 0, 0,
                0, 0, 0, 0, 0, 0, 28, 39, 1, 2, 3, 0, 0, 0, 0, 5, 0, 0, 0, 0, 0, 0, 28, 47, 1, 2,
                0, 0, 0, 0, 0, 10, 0, 0, 0, 0, 0, 0, 29, 7, 1, 2, 3, 0, 0, 0, 0, 0, 0, 0, 0, 0,
                0, 0, 29, 39, 1, 2, 3, 0, 0, 0, 0, 5, 0, 0, 0, 0, 0, 0, 29, 47, 1, 2, 0, 0, 0, 0,
                0, 10, 0, 0, 0, 0, 0, 0, 32, 7, 1, 2, 3, 0, 0, 0, 0, 0, 0, 0, 0, 0, 0, 0, 32, 39,
                1, 2, 3, 0, 0, 0, 0, 5, 0, 0, 0, 0, 0, 0, 32, 47, 1, 2, 0, 0, 0, 0, 0, 10, 0, 0,
                0, 0, 0, 0, 33, 7, 1, 2, 3, 0, 0, 0, 0, 0, 0, 0, 0, 0, 0, 0, 33, 39, 1, 2, 3, 0,
                0, 0, 0, 5, 0, 0, 0, 0, 0, 0, 33, 47, 1, 2, 0, 0, 0, 0, 0, 10, 0, 0, 0, 0, 0, 0,
                30, 7, 1, 2, 3, 0, 0, 0, 0, 0, 0, 0, 0, 0, 0, 0, 30, 39, 1, 2, 3, 0, 0, 0, 0, 5,
                0, 0, 0, 0, 0, 0, 30, 47, 1, 2, 0, 0, 0, 0, 0, 10, 0, 0, 0, 0, 0, 0, 31, 7, 1, 2,
                3, 0, 0, 0, 0, 0, 0, 0, 0, 0, 0, 0, 31, 39, 1, 2, 3, 0, 0, 0, 0, 5, 0, 0, 0, 0,
                0, 0, 31, 47, 1, 2, 0, 0, 0, 0, 0, 10, 0, 0, 0, 0, 0, 0, 26, 15, 9, 2, 3, 4, 0, 0,
                0, 0, 0, 0, 0, 0, 0, 0, 26, 47, 9, 2, 3, 4, 0, 0, 0, 5, 0, 0, 0, 0, 0, 0, 26, 63,
                9, 2, 3, 0, 0, 0, 0, 5, 0, 0, 0, 0, 0, 0, 36, 3, 5, 6, 0, 0, 0, 0, 0, 0, 0, 0,
                0, 0, 0, 0, 40, 47, 1, 2, 0, 0, 0, 0, 1, 0, 0, 0, 0, 0, 0, 0, 39, 35, 1, 1, 0, 0,
                0, 0, 3, 0, 0, 0, 0, 0, 0, 0, 31, 7, 0, 1, 2, 0, 0, 0, 0, 0, 0, 0, 0, 0, 0, 0,
                0, 0, 0, 0, 0, 0, 0, 0,
            ],
            base: 128
        }]
    );
}
