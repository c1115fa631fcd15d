//! Assembler errors with their names as text, for reports: the same variants and
//! fields as the errors themselves, with each name, comment or string held as a
//! `String` decoded from the source's UTF-8 bytes.
use vstd::prelude::*;

use crate::cpu::assembler::parser::ParserError;
use crate::cpu::assembler::tokenizer::{AssemblyToken, TokenizeError};
use crate::cpu::assembler::AssemblerError;
use crate::cpu::Register;

verus! {

/// The text of source bytes: `String::from_utf8_lossy`, which std documents as giving
/// the string the bytes encode when they are valid UTF-8 (and replacing each invalid
/// sequence with U+FFFD, which is not stated here).
#[verifier::external_body]
fn bytes_text(b: &[u8]) -> (r: String)
    ensures
        vstd::utf8::valid_utf8(b@) ==> r@ == vstd::utf8::decode_utf8(b@),
{
    String::from_utf8_lossy(b).into_owned()
}

/// `s` is the text of the bytes `b`, where they are valid UTF-8.
pub open spec fn text_of(b: Seq<u8>, s: Seq<char>) -> bool {
    vstd::utf8::valid_utf8(b) ==> s == vstd::utf8::decode_utf8(b)
}

/// A token with its text as a `String`.
#[derive(Debug)]
pub enum TokenText {
    Colon,
    Dot,
    Number(i64),
    Register(Register),
    OpenBracket,
    CloseBracket,
    Plus,
    Minus,
    Comment(String),
    Identifier(String),
    Cash,
    Quote,
    String(String),
    Character(u8),
    Hash,
    Newline,
    Comma,
    Bang,
}

/// `x` is `t` with its text decoded.
pub open spec fn token_text_of(t: AssemblyToken, x: TokenText) -> bool {
    match t {
        AssemblyToken::Colon => x is Colon,
        AssemblyToken::Dot => x is Dot,
        AssemblyToken::Number(n) => x == TokenText::Number(n),
        AssemblyToken::Register(r) => x == TokenText::Register(r),
        AssemblyToken::OpenBracket => x is OpenBracket,
        AssemblyToken::CloseBracket => x is CloseBracket,
        AssemblyToken::Plus => x is Plus,
        AssemblyToken::Minus => x is Minus,
        AssemblyToken::Comment(b) => x matches TokenText::Comment(s) && text_of(b@, s@),
        AssemblyToken::Identifier(b) => x matches TokenText::Identifier(s) && text_of(b@, s@),
        AssemblyToken::Cash => x is Cash,
        AssemblyToken::Quote => x is Quote,
        AssemblyToken::String(b) => x matches TokenText::String(s) && text_of(b@, s@),
        AssemblyToken::Character(c) => x == TokenText::Character(c),
        AssemblyToken::Hash => x is Hash,
        AssemblyToken::Newline => x is Newline,
        AssemblyToken::Comma => x is Comma,
        AssemblyToken::Bang => x is Bang,
    }
}

pub fn token_text(t: &AssemblyToken) -> (r: TokenText)
    ensures
        token_text_of(*t, r),
{
    match t {
        AssemblyToken::Colon => TokenText::Colon,
        AssemblyToken::Dot => TokenText::Dot,
        AssemblyToken::Number(n) => TokenText::Number(*n),
        AssemblyToken::Register(r) => TokenText::Register(*r),
        AssemblyToken::OpenBracket => TokenText::OpenBracket,
        AssemblyToken::CloseBracket => TokenText::CloseBracket,
        AssemblyToken::Plus => TokenText::Plus,
        AssemblyToken::Minus => TokenText::Minus,
        AssemblyToken::Comment(b) => TokenText::Comment(bytes_text(b)),
        AssemblyToken::Identifier(b) => TokenText::Identifier(bytes_text(b)),
        AssemblyToken::Cash => TokenText::Cash,
        AssemblyToken::Quote => TokenText::Quote,
        AssemblyToken::String(b) => TokenText::String(bytes_text(b)),
        AssemblyToken::Character(c) => TokenText::Character(*c),
        AssemblyToken::Hash => TokenText::Hash,
        AssemblyToken::Newline => TokenText::Newline,
        AssemblyToken::Comma => TokenText::Comma,
        AssemblyToken::Bang => TokenText::Bang,
    }
}

pub open spec fn opt_token_text_of(t: Option<AssemblyToken>, x: Option<TokenText>) -> bool {
    match t {
        None => x is None,
        Some(a) => x matches Some(b) && token_text_of(a, b),
    }
}

fn opt_token_text(t: &Option<AssemblyToken>) -> (r: Option<TokenText>)
    ensures
        opt_token_text_of(*t, r),
{
    match t {
        None => None,
        Some(a) => Some(token_text(a)),
    }
}

/// A tokenizer error with its text as a `String`.
#[derive(Debug)]
pub enum TokenizeErrorText {
    UnexpectedInput { remaining: String },
}

/// A parser error with its text as `String`s.
#[derive(Debug)]
pub enum ParserErrorText {
    InvalidEscape { c: char, raw: String },
    Expected { expected: &'static str, rest: Vec<TokenText> },
    ExpectedDirective { expected: &'static str, found: Option<TokenText> },
    ExpectedInstruction { expected: &'static str, found: Option<TokenText> },
    UnknownDirective { directive: String },
    UnknownInstruction { instruction: String },
    InvalidInstruction,
}

/// `x` is `e` with its text decoded.
pub open spec fn parser_error_text_of(e: ParserError, x: ParserErrorText) -> bool {
    match e {
        ParserError::InvalidEscape { c, raw } => x matches ParserErrorText::InvalidEscape {
            c: d,
            raw: s,
        } && d == c && text_of(raw@, s@),
        ParserError::Expected { expected, rest } => x matches ParserErrorText::Expected {
            expected: e2,
            rest: r2,
        } && e2 == expected && r2@.len() == rest@.len() && forall|i: int|
            0 <= i < rest@.len() ==> token_text_of(#[trigger] rest@[i], r2@[i]),
        ParserError::ExpectedDirective { expected, found } => x matches ParserErrorText::ExpectedDirective {
            expected: e2,
            found: f2,
        } && e2 == expected && opt_token_text_of(found, f2),
        ParserError::ExpectedInstruction { expected, found } => x matches ParserErrorText::ExpectedInstruction {
            expected: e2,
            found: f2,
        } && e2 == expected && opt_token_text_of(found, f2),
        ParserError::UnknownDirective { directive } => x matches ParserErrorText::UnknownDirective {
            directive: s,
        } && text_of(directive@, s@),
        ParserError::UnknownInstruction { instruction } => x matches ParserErrorText::UnknownInstruction {
            instruction: s,
        } && text_of(instruction@, s@),
        ParserError::InvalidInstruction => x is InvalidInstruction,
    }
}

fn tokens_text(ts: &Vec<AssemblyToken>) -> (r: Vec<TokenText>)
    ensures
        r@.len() == ts@.len(),
        forall|i: int| 0 <= i < ts@.len() ==> token_text_of(#[trigger] ts@[i], r@[i]),
{
    let mut r: Vec<TokenText> = Vec::new();
    let mut i: usize = 0;
    while i < ts.len()
        invariant
            i <= ts@.len(),
            r@.len() == i,
            forall|k: int| 0 <= k < i ==> token_text_of(#[trigger] ts@[k], r@[k]),
        decreases ts@.len() - i,
    {
        r.push(token_text(&ts[i]));
        i = i + 1;
    }
    r
}

pub fn parser_error_text(e: &ParserError) -> (r: ParserErrorText)
    ensures
        parser_error_text_of(*e, r),
{
    match e {
        ParserError::InvalidEscape { c, raw } => ParserErrorText::InvalidEscape {
            c: *c,
            raw: bytes_text(raw),
        },
        ParserError::Expected { expected, rest } => ParserErrorText::Expected {
            expected,
            rest: tokens_text(rest),
        },
        ParserError::ExpectedDirective { expected, found } => ParserErrorText::ExpectedDirective {
            expected,
            found: opt_token_text(found),
        },
        ParserError::ExpectedInstruction { expected, found } => ParserErrorText::ExpectedInstruction {
            expected,
            found: opt_token_text(found),
        },
        ParserError::UnknownDirective { directive } => ParserErrorText::UnknownDirective {
            directive: bytes_text(directive),
        },
        ParserError::UnknownInstruction { instruction } => ParserErrorText::UnknownInstruction {
            instruction: bytes_text(instruction),
        },
        ParserError::InvalidInstruction => ParserErrorText::InvalidInstruction,
    }
}

/// An assembler error with its text as `String`s.
#[derive(Debug)]
pub enum AssemblerErrorText {
    InvalidInstruction,
    TokenizerError(TokenizeErrorText),
    ParserError(ParserErrorText),
    UnresolvedReference(String),
    IncompleteResolution,
    InvalidState,
    OverlappingSection(usize),
    DuplicateLabel(String),
}

/// `x` is `e` with its text decoded.
pub open spec fn assembler_error_text_of(e: AssemblerError, x: AssemblerErrorText) -> bool {
    match e {
        AssemblerError::InvalidInstruction => x is InvalidInstruction,
        AssemblerError::TokenizerError(TokenizeError::UnexpectedInput { remaining }) => x matches AssemblerErrorText::TokenizerError(
            TokenizeErrorText::UnexpectedInput { remaining: s },
        ) && text_of(remaining@, s@),
        AssemblerError::ParserError(p) => x matches AssemblerErrorText::ParserError(q)
            && parser_error_text_of(p, q),
        AssemblerError::UnresolvedReference(b) => x matches AssemblerErrorText::UnresolvedReference(s)
            && text_of(b@, s@),
        AssemblerError::IncompleteResolution => x is IncompleteResolution,
        AssemblerError::InvalidState => x is InvalidState,
        AssemblerError::OverlappingSection(n) => x == AssemblerErrorText::OverlappingSection(n),
        AssemblerError::DuplicateLabel(b) => x matches AssemblerErrorText::DuplicateLabel(s)
            && text_of(b@, s@),
    }
}

pub fn assembler_error_text(e: &AssemblerError) -> (r: AssemblerErrorText)
    ensures
        assembler_error_text_of(*e, r),
{
    match e {
        AssemblerError::InvalidInstruction => AssemblerErrorText::InvalidInstruction,
        AssemblerError::TokenizerError(TokenizeError::UnexpectedInput { remaining }) => AssemblerErrorText::TokenizerError(
            TokenizeErrorText::UnexpectedInput { remaining: bytes_text(remaining) },
        ),
        AssemblerError::ParserError(p) => AssemblerErrorText::ParserError(parser_error_text(p)),
        AssemblerError::UnresolvedReference(b) => AssemblerErrorText::UnresolvedReference(bytes_text(b)),
        AssemblerError::IncompleteResolution => AssemblerErrorText::IncompleteResolution,
        AssemblerError::InvalidState => AssemblerErrorText::InvalidState,
        AssemblerError::OverlappingSection(n) => AssemblerErrorText::OverlappingSection(*n),
        AssemblerError::DuplicateLabel(b) => AssemblerErrorText::DuplicateLabel(bytes_text(b)),
    }
}

} // verus!
