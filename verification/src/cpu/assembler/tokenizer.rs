//! Splits assembly source into tokens.
use vstd::prelude::*;

use crate::cpu::Register;
use vstd::string::StringSliceAdditionalSpecFns;

verus! {

/// One token of assembly source. Text-carrying tokens borrow the source bytes.
#[derive(Clone, Copy, PartialEq, Debug)]
pub enum AssemblyToken<'a> {
    Colon,
    Dot,
    Number(i64),
    Register(Register),
    OpenBracket,
    CloseBracket,
    Plus,
    Minus,
    Comment(&'a [u8]),
    Identifier(&'a [u8]),
    Cash,
    Quote,
    String(&'a [u8]),
    Character(u8),
    Hash,
    Newline,
    Comma,
    Bang,
}

/// A token as contracts see it: text as byte sequences.
pub enum TokenView {
    Colon,
    Dot,
    Number(i64),
    Register(u8),
    OpenBracket,
    CloseBracket,
    Plus,
    Minus,
    Comment(Seq<u8>),
    Identifier(Seq<u8>),
    Cash,
    Quote,
    String(Seq<u8>),
    Character(u8),
    Hash,
    Newline,
    Comma,
    Bang,
}

impl<'a> View for AssemblyToken<'a> {
    type V = TokenView;

    open spec fn view(&self) -> TokenView {
        match *self {
            AssemblyToken::Colon => TokenView::Colon,
            AssemblyToken::Dot => TokenView::Dot,
            AssemblyToken::Number(n) => TokenView::Number(n),
            AssemblyToken::Register(r) => TokenView::Register(r.0),
            AssemblyToken::OpenBracket => TokenView::OpenBracket,
            AssemblyToken::CloseBracket => TokenView::CloseBracket,
            AssemblyToken::Plus => TokenView::Plus,
            AssemblyToken::Minus => TokenView::Minus,
            AssemblyToken::Comment(c) => TokenView::Comment(c@),
            AssemblyToken::Identifier(c) => TokenView::Identifier(c@),
            AssemblyToken::Cash => TokenView::Cash,
            AssemblyToken::Quote => TokenView::Quote,
            AssemblyToken::String(c) => TokenView::String(c@),
            AssemblyToken::Character(c) => TokenView::Character(c),
            AssemblyToken::Hash => TokenView::Hash,
            AssemblyToken::Newline => TokenView::Newline,
            AssemblyToken::Comma => TokenView::Comma,
            AssemblyToken::Bang => TokenView::Bang,
        }
    }
}

/// Tokenizing stopped before the end of the input.
#[derive(Debug)]
pub enum TokenizeError<'a> {
    UnexpectedInput { remaining: &'a [u8] },
}

// ASCII classes.
pub open spec fn is_alpha(c: u8) -> bool {
    (65 <= c <= 90) || (97 <= c <= 122)
}

pub open spec fn is_digit(c: u8) -> bool {
    48 <= c <= 57
}

pub open spec fn is_alphanum(c: u8) -> bool {
    is_alpha(c) || is_digit(c)
}

pub open spec fn is_hex_digit(c: u8) -> bool {
    is_digit(c) || (65 <= c <= 70) || (97 <= c <= 102)
}

pub open spec fn hex_value(c: u8) -> int {
    if is_digit(c) {
        c - 48
    } else if 65 <= c <= 70 {
        c - 55
    } else {
        c - 87
    }
}

/// Spaces and tabs.
pub open spec fn is_space(c: u8) -> bool {
    c == 32 || c == 9
}

/// Spaces, tabs, carriage returns and line feeds.
pub open spec fn is_multispace(c: u8) -> bool {
    is_space(c) || c == 13 || c == 10
}

pub open spec fn space_class() -> spec_fn(u8) -> bool {
    |c: u8| is_space(c)
}

pub open spec fn multispace_class() -> spec_fn(u8) -> bool {
    |c: u8| is_multispace(c)
}

pub open spec fn digit_class() -> spec_fn(u8) -> bool {
    |c: u8| is_digit(c)
}

pub open spec fn hex_digit_class() -> spec_fn(u8) -> bool {
    |c: u8| is_hex_digit(c)
}

/// What may follow the first character of an identifier.
pub open spec fn identifier_class() -> spec_fn(u8) -> bool {
    |c: u8| is_alphanum(c) || c == 45 || c == 95
}

/// Where the run of bytes satisfying `class` that starts at `p` ends.
pub open spec fn run_end(s: Seq<u8>, p: int, class: spec_fn(u8) -> bool) -> int
    decreases s.len() - p,
{
    if 0 <= p < s.len() && class(s[p]) {
        run_end(s, p + 1, class)
    } else {
        p
    }
}

/// The number written by the decimal digits `s[a..b]`.
pub open spec fn decimal_value(s: Seq<u8>, a: int, b: int) -> int
    decreases b - a,
{
    if b <= a {
        0
    } else {
        decimal_value(s, a, b - 1) * 10 + (s[b - 1] - 48)
    }
}

/// The number written by the hexadecimal digits `s[a..b]`.
pub open spec fn hex_number(s: Seq<u8>, a: int, b: int) -> int
    decreases b - a,
{
    if b <= a {
        0
    } else {
        hex_number(s, a, b - 1) * 16 + hex_value(s[b - 1])
    }
}

pub open spec fn has_prefix(s: Seq<u8>, p: int, lit: Seq<u8>) -> bool {
    0 <= p && p + lit.len() <= s.len() && s.subrange(p, p + lit.len()) == lit
}

/// A run of decimal digits at `p` that fits an `i64`: its value and end.
pub open spec fn decimal_at(s: Seq<u8>, p: int) -> Option<(i64, int)> {
    let e = run_end(s, p, digit_class());
    if e > p && decimal_value(s, p, e) <= i64::MAX {
        Some((decimal_value(s, p, e) as i64, e))
    } else {
        None
    }
}

/// `0x` and a run of hexadecimal digits that fits a `u64`, read as an `i64`.
pub open spec fn hex_at(s: Seq<u8>, p: int) -> Option<(i64, int)> {
    if has_prefix(s, p, seq![48u8, 120u8]) {
        let e = run_end(s, p + 2, hex_digit_class());
        if e > p + 2 && hex_number(s, p + 2, e) <= u64::MAX {
            Some(((hex_number(s, p + 2, e) as u64) as i64, e))
        } else {
            None
        }
    } else {
        None
    }
}

pub open spec fn number_at(s: Seq<u8>, p: int) -> Option<(i64, int)> {
    match hex_at(s, p) {
        Some(r) => Some(r),
        None => decimal_at(s, p),
    }
}

/// The decimal digits of `n`, most significant first.
pub open spec fn decimal_digits(n: nat) -> Seq<u8>
    decreases n,
{
    if n < 10 {
        seq![(48 + n) as u8]
    } else {
        decimal_digits(n / 10).push((48 + n % 10) as u8)
    }
}

/// The lower-case hexadecimal digits of `n`, most significant first.
pub open spec fn hex_digits(n: nat) -> Seq<u8>
    decreases n,
{
    if n < 16 {
        seq![(if n < 10 { 48 + n } else { 87 + n }) as u8]
    } else {
        hex_digits(n / 16).push((if n % 16 < 10 { 48 + n % 16 } else { 87 + n % 16 }) as u8)
    }
}

/// The value of digits depends only on those digits.
proof fn lemma_number_values_local(s: Seq<u8>, t: Seq<u8>, a: int, b: int)
    requires
        0 <= a,
        b <= s.len(),
        b <= t.len(),
        forall|j: int| a <= j < b ==> s[j] == t[j],
    ensures
        decimal_value(s, a, b) == decimal_value(t, a, b),
        hex_number(s, a, b) == hex_number(t, a, b),
    decreases b - a,
{
    if b > a {
        lemma_number_values_local(s, t, a, b - 1);
    }
}

/// Reading back the decimal digits of `n` gives `n`; they are all digits.
proof fn lemma_decimal_digits(n: nat)
    ensures
        decimal_value(decimal_digits(n), 0, decimal_digits(n).len() as int) == n,
        decimal_digits(n).len() >= 1,
        forall|j: int| 0 <= j < decimal_digits(n).len() ==> is_digit(#[trigger] decimal_digits(n)[j]),
    decreases n,
{
    if n >= 10 {
        let d = decimal_digits(n / 10);
        lemma_decimal_digits(n / 10);
        let s = d.push((48 + n % 10) as u8);
        lemma_number_values_local(s, d, 0, d.len() as int);
        assert(n == (n / 10) * 10 + n % 10);
        assert(s[d.len() as int] == (48 + n % 10) as u8);
        assert(decimal_value(s, 0, s.len() as int) == decimal_value(s, 0, d.len() as int) * 10 + (s[
            d.len() as int] - 48));
    } else {
        let s = seq![(48 + n) as u8];
        assert(decimal_value(s, 0, 0) == 0);
        assert(decimal_value(s, 0, 1) == decimal_value(s, 0, 0) * 10 + (s[0] - 48));
    }
}

/// Reading back the hexadecimal digits of `n` gives `n`; they are all hex digits.
proof fn lemma_hex_digits(n: nat)
    ensures
        hex_number(hex_digits(n), 0, hex_digits(n).len() as int) == n,
        hex_digits(n).len() >= 1,
        forall|j: int| 0 <= j < hex_digits(n).len() ==> is_hex_digit(#[trigger] hex_digits(n)[j]),
    decreases n,
{
    if n >= 16 {
        let d = hex_digits(n / 16);
        lemma_hex_digits(n / 16);
        let s = d.push((if n % 16 < 10 { 48 + n % 16 } else { 87 + n % 16 }) as u8);
        lemma_number_values_local(s, d, 0, d.len() as int);
        assert(n == (n / 16) * 16 + n % 16);
        assert(hex_value(s[d.len() as int]) == n % 16);
        assert(hex_number(s, 0, s.len() as int) == hex_number(s, 0, d.len() as int) * 16 + hex_value(s[
            d.len() as int]));
    } else {
        let s = seq![(if n < 10 { 48 + n } else { 87 + n }) as u8];
        assert(hex_number(s, 0, 0) == 0);
        assert(hex_value(s[0]) == n);
        assert(hex_number(s, 0, 1) == hex_number(s, 0, 0) * 16 + hex_value(s[0]));
    }
}

/// A run of bytes of a class ends at the first byte outside it.
proof fn lemma_run_end_at(s: Seq<u8>, p: int, e: int, class: spec_fn(u8) -> bool)
    requires
        0 <= p <= e < s.len(),
        forall|j: int| p <= j < e ==> class(#[trigger] s[j]),
        !class(s[e]),
    ensures
        run_end(s, p, class) == e,
    decreases e - p,
{
    if p < e {
        lemma_run_end_at(s, p + 1, e, class);
    }
}

/// Numbers read back as written: the decimal digits of `n`, or `0x` and its
/// hexadecimal digits, followed by a byte that does not continue them, are read as `n`
/// (a hexadecimal number as the `i64` with the same bits), ending after the digits.
pub proof fn lemma_numbers_read_back(n: nat, b: u8, rest: Seq<u8>)
    ensures
        !is_digit(b) && n <= i64::MAX ==> decimal_at(decimal_digits(n) + seq![b] + rest, 0)
            == Some((n as i64, decimal_digits(n).len() as int)),
        !is_hex_digit(b) && n <= u64::MAX ==> hex_at(seq![48u8, 120u8] + hex_digits(n) + seq![b] + rest, 0)
            == Some(((n as u64) as i64, hex_digits(n).len() + 2int)),
{
    lemma_decimal_digits(n);
    lemma_hex_digits(n);
    let d = decimal_digits(n);
    let s = d + seq![b] + rest;
    if !is_digit(b) && n <= i64::MAX {
        assert forall|j: int| 0 <= j < d.len() implies digit_class()(#[trigger] s[j]) by {
            assert(s[j] == d[j]);
        }
        assert(s[d.len() as int] == b);
        lemma_run_end_at(s, 0, d.len() as int, digit_class());
        lemma_number_values_local(s, d, 0, d.len() as int);
    }
    let h = hex_digits(n);
    let t = seq![48u8, 120u8] + h + seq![b] + rest;
    if !is_hex_digit(b) && n <= u64::MAX {
        assert(t.subrange(0, 2) =~= seq![48u8, 120u8]);
        assert forall|j: int| 2 <= j < h.len() + 2 implies hex_digit_class()(#[trigger] t[j]) by {
            assert(t[j] == h[j - 2]);
        }
        assert(t[h.len() + 2int] == b);
        lemma_run_end_at(t, 2, h.len() + 2int, hex_digit_class());
        assert(hex_number(t, 2, h.len() + 2int) == hex_number(h, 0, h.len() as int)) by {
            lemma_hex_shift(t, h, 2, h.len() as int);
        }
    }
}

/// Hex digits read from `t` at an offset are those of `h` from 0.
proof fn lemma_hex_shift(t: Seq<u8>, h: Seq<u8>, off: int, k: int)
    requires
        0 <= off,
        0 <= k <= h.len(),
        off + k <= t.len(),
        forall|j: int| 0 <= j < k ==> t[off + j] == h[j],
    ensures
        hex_number(t, off, off + k) == hex_number(h, 0, k),
    decreases k,
{
    if k > 0 {
        lemma_hex_shift(t, h, off, k - 1);
    }
}

/// The named registers, in the order the tokenizer tries them: the register and the
/// length of its name.
pub open spec fn named_register_at(s: Seq<u8>, p: int) -> Option<(u8, usize)> {
    if has_prefix(s, p, seq![78u8, 73u8, 76u8]) {
        // NIL
        Some((246u8, 3usize))
    } else if has_prefix(s, p, seq![84u8]) {
        // T
        Some((247u8, 1usize))
    } else if has_prefix(s, p, seq![67u8, 79u8, 78u8, 83u8, 95u8, 69u8, 78u8, 68u8]) {
        // CONS_END
        Some((249u8, 8usize))
    } else if has_prefix(s, p, seq![67u8, 79u8, 78u8, 83u8, 95u8, 70u8, 82u8, 69u8, 69u8]) {
        // CONS_FREE
        Some((248u8, 9usize))
    } else if has_prefix(s, p, seq![71u8, 69u8, 78u8, 95u8, 69u8, 78u8, 68u8]) {
        // GEN_END
        Some((251u8, 7usize))
    } else if has_prefix(s, p, seq![71u8, 69u8, 78u8, 95u8, 70u8, 82u8, 69u8, 69u8]) {
        // GEN_FREE
        Some((250u8, 8usize))
    } else if has_prefix(s, p, seq![80u8, 67u8]) {
        // PC
        Some((254u8, 2usize))
    } else if has_prefix(s, p, seq![70u8, 80u8]) {
        // FP
        Some((252u8, 2usize))
    } else if has_prefix(s, p, seq![83u8, 80u8]) {
        // SP
        Some((253u8, 2usize))
    } else if has_prefix(s, p, seq![86u8, 66u8, 82u8]) {
        // VBR
        Some((255u8, 3usize))
    } else if has_prefix(s, p, seq![65u8, 48u8]) {
        // A0
        Some((226u8, 2usize))
    } else if has_prefix(s, p, seq![65u8, 49u8]) {
        // A1
        Some((227u8, 2usize))
    } else if has_prefix(s, p, seq![65u8, 50u8]) {
        // A2
        Some((228u8, 2usize))
    } else if has_prefix(s, p, seq![65u8, 51u8]) {
        // A3
        Some((229u8, 2usize))
    } else if has_prefix(s, p, seq![65u8, 52u8]) {
        // A4
        Some((230u8, 2usize))
    } else if has_prefix(s, p, seq![65u8, 53u8]) {
        // A5
        Some((231u8, 2usize))
    } else if has_prefix(s, p, seq![65u8, 54u8]) {
        // A6
        Some((232u8, 2usize))
    } else if has_prefix(s, p, seq![65u8, 55u8]) {
        // A7
        Some((233u8, 2usize))
    } else if has_prefix(s, p, seq![65u8, 78u8]) {
        // AN
        Some((234u8, 2usize))
    } else if has_prefix(s, p, seq![82u8, 48u8]) {
        // R0
        Some((235u8, 2usize))
    } else if has_prefix(s, p, seq![82u8, 49u8]) {
        // R1
        Some((236u8, 2usize))
    } else if has_prefix(s, p, seq![82u8, 50u8]) {
        // R2
        Some((237u8, 2usize))
    } else if has_prefix(s, p, seq![82u8, 51u8]) {
        // R3
        Some((238u8, 2usize))
    } else if has_prefix(s, p, seq![82u8, 78u8]) {
        // RN
        Some((239u8, 2usize))
    } else if has_prefix(s, p, seq![82u8, 88u8]) {
        // RX
        Some((240u8, 2usize))
    } else {
        None
    }
}


/// The bytes `name`, then `b`, then `rest`.
pub open spec fn named_then(name: Seq<u8>, b: u8, rest: Seq<u8>) -> Seq<u8> {
    name + seq![b] + rest
}

/// A name followed by `b` starts with the name, and has `b` just after it.
proof fn lemma_named_then(name: Seq<u8>, b: u8, rest: Seq<u8>, lit: Seq<u8>)
    ensures
        has_prefix(name + seq![b] + rest, 0, lit) <== (lit == name),
        has_prefix(name + seq![b] + rest, 0, lit) && lit.len() <= name.len() ==> lit == name.subrange(0, lit.len() as int),
        (name + seq![b] + rest)[name.len() as int] == b,
        (name + seq![b] + rest).len() == name.len() + 1 + rest.len(),
{
    let s = name + seq![b] + rest;
    if lit == name {
        assert(s.subrange(0, lit.len() as int) =~= lit);
    }
    if has_prefix(s, 0, lit) && lit.len() <= name.len() {
        assert(lit =~= name.subrange(0, lit.len() as int)) by {
            assert forall|j: int| 0 <= j < lit.len() implies lit[j] == name[j] by {
                assert(s.subrange(0, lit.len() as int)[j] == s[j]);
            }
        }
    }
}

/// A text that differs from `lit` at `j` does not start with `lit`.
proof fn lemma_no_prefix(s: Seq<u8>, lit: Seq<u8>, j: int)
    requires
        0 <= j < lit.len(),
        j < s.len(),
        s[j] != lit[j],
    ensures
        !has_prefix(s, 0, lit),
{
    if has_prefix(s, 0, lit) {
        assert(s.subrange(0, lit.len() as int)[j] == s[j]);
    }
}

/// The name `NIL` is read as its register.
proof fn lemma_name_nil(b: u8, rest: Seq<u8>)
    requires
        !is_alphanum(b),
    ensures
        register_at(seq![78u8, 73u8, 76u8] + seq![b] + rest, 0) == Some((crate::cpu::Cpu::NIL, 3int)),
{
    lemma_named_then(seq![78u8, 73u8, 76u8], b, rest, seq![78u8, 73u8, 76u8]);
}

/// The name `T` is read as its register.
proof fn lemma_name_t(b: u8, rest: Seq<u8>)
    requires
        !is_alphanum(b),
    ensures
        register_at(seq![84u8] + seq![b] + rest, 0) == Some((crate::cpu::Cpu::T, 1int)),
{
    lemma_named_then(seq![84u8], b, rest, seq![84u8]);
    lemma_no_prefix(seq![84u8] + seq![b] + rest, seq![78u8, 73u8, 76u8], 0);
}

/// The name `CONS_END` is read as its register.
proof fn lemma_name_cons_end(b: u8, rest: Seq<u8>)
    requires
        !is_alphanum(b),
    ensures
        register_at(seq![67u8, 79u8, 78u8, 83u8, 95u8, 69u8, 78u8, 68u8] + seq![b] + rest, 0) == Some((crate::cpu::Cpu::CONS_END, 8int)),
{
    lemma_named_then(seq![67u8, 79u8, 78u8, 83u8, 95u8, 69u8, 78u8, 68u8], b, rest, seq![67u8, 79u8, 78u8, 83u8, 95u8, 69u8, 78u8, 68u8]);
    lemma_no_prefix(seq![67u8, 79u8, 78u8, 83u8, 95u8, 69u8, 78u8, 68u8] + seq![b] + rest, seq![78u8, 73u8, 76u8], 0);
    lemma_no_prefix(seq![67u8, 79u8, 78u8, 83u8, 95u8, 69u8, 78u8, 68u8] + seq![b] + rest, seq![84u8], 0);
}

/// The name `CONS_FREE` is read as its register.
proof fn lemma_name_cons_free(b: u8, rest: Seq<u8>)
    requires
        !is_alphanum(b),
    ensures
        register_at(seq![67u8, 79u8, 78u8, 83u8, 95u8, 70u8, 82u8, 69u8, 69u8] + seq![b] + rest, 0) == Some((crate::cpu::Cpu::CONS_FREE, 9int)),
{
    lemma_named_then(seq![67u8, 79u8, 78u8, 83u8, 95u8, 70u8, 82u8, 69u8, 69u8], b, rest, seq![67u8, 79u8, 78u8, 83u8, 95u8, 70u8, 82u8, 69u8, 69u8]);
    lemma_no_prefix(seq![67u8, 79u8, 78u8, 83u8, 95u8, 70u8, 82u8, 69u8, 69u8] + seq![b] + rest, seq![78u8, 73u8, 76u8], 0);
    lemma_no_prefix(seq![67u8, 79u8, 78u8, 83u8, 95u8, 70u8, 82u8, 69u8, 69u8] + seq![b] + rest, seq![84u8], 0);
    lemma_no_prefix(seq![67u8, 79u8, 78u8, 83u8, 95u8, 70u8, 82u8, 69u8, 69u8] + seq![b] + rest, seq![67u8, 79u8, 78u8, 83u8, 95u8, 69u8, 78u8, 68u8], 5);
}

/// The name `GEN_END` is read as its register.
proof fn lemma_name_gen_end(b: u8, rest: Seq<u8>)
    requires
        !is_alphanum(b),
    ensures
        register_at(seq![71u8, 69u8, 78u8, 95u8, 69u8, 78u8, 68u8] + seq![b] + rest, 0) == Some((crate::cpu::Cpu::GEN_END, 7int)),
{
    lemma_named_then(seq![71u8, 69u8, 78u8, 95u8, 69u8, 78u8, 68u8], b, rest, seq![71u8, 69u8, 78u8, 95u8, 69u8, 78u8, 68u8]);
    lemma_no_prefix(seq![71u8, 69u8, 78u8, 95u8, 69u8, 78u8, 68u8] + seq![b] + rest, seq![78u8, 73u8, 76u8], 0);
    lemma_no_prefix(seq![71u8, 69u8, 78u8, 95u8, 69u8, 78u8, 68u8] + seq![b] + rest, seq![84u8], 0);
    lemma_no_prefix(seq![71u8, 69u8, 78u8, 95u8, 69u8, 78u8, 68u8] + seq![b] + rest, seq![67u8, 79u8, 78u8, 83u8, 95u8, 69u8, 78u8, 68u8], 0);
    lemma_no_prefix(seq![71u8, 69u8, 78u8, 95u8, 69u8, 78u8, 68u8] + seq![b] + rest, seq![67u8, 79u8, 78u8, 83u8, 95u8, 70u8, 82u8, 69u8, 69u8], 0);
}

/// The name `GEN_FREE` is read as its register.
proof fn lemma_name_gen_free(b: u8, rest: Seq<u8>)
    requires
        !is_alphanum(b),
    ensures
        register_at(seq![71u8, 69u8, 78u8, 95u8, 70u8, 82u8, 69u8, 69u8] + seq![b] + rest, 0) == Some((crate::cpu::Cpu::GEN_FREE, 8int)),
{
    lemma_named_then(seq![71u8, 69u8, 78u8, 95u8, 70u8, 82u8, 69u8, 69u8], b, rest, seq![71u8, 69u8, 78u8, 95u8, 70u8, 82u8, 69u8, 69u8]);
    lemma_no_prefix(seq![71u8, 69u8, 78u8, 95u8, 70u8, 82u8, 69u8, 69u8] + seq![b] + rest, seq![78u8, 73u8, 76u8], 0);
    lemma_no_prefix(seq![71u8, 69u8, 78u8, 95u8, 70u8, 82u8, 69u8, 69u8] + seq![b] + rest, seq![84u8], 0);
    lemma_no_prefix(seq![71u8, 69u8, 78u8, 95u8, 70u8, 82u8, 69u8, 69u8] + seq![b] + rest, seq![67u8, 79u8, 78u8, 83u8, 95u8, 69u8, 78u8, 68u8], 0);
    lemma_no_prefix(seq![71u8, 69u8, 78u8, 95u8, 70u8, 82u8, 69u8, 69u8] + seq![b] + rest, seq![67u8, 79u8, 78u8, 83u8, 95u8, 70u8, 82u8, 69u8, 69u8], 0);
    lemma_no_prefix(seq![71u8, 69u8, 78u8, 95u8, 70u8, 82u8, 69u8, 69u8] + seq![b] + rest, seq![71u8, 69u8, 78u8, 95u8, 69u8, 78u8, 68u8], 4);
}

/// The name `PC` is read as its register.
proof fn lemma_name_pc(b: u8, rest: Seq<u8>)
    requires
        !is_alphanum(b),
    ensures
        register_at(seq![80u8, 67u8] + seq![b] + rest, 0) == Some((crate::cpu::Cpu::PC, 2int)),
{
    lemma_named_then(seq![80u8, 67u8], b, rest, seq![80u8, 67u8]);
    lemma_no_prefix(seq![80u8, 67u8] + seq![b] + rest, seq![78u8, 73u8, 76u8], 0);
    lemma_no_prefix(seq![80u8, 67u8] + seq![b] + rest, seq![84u8], 0);
    lemma_no_prefix(seq![80u8, 67u8] + seq![b] + rest, seq![67u8, 79u8, 78u8, 83u8, 95u8, 69u8, 78u8, 68u8], 0);
    lemma_no_prefix(seq![80u8, 67u8] + seq![b] + rest, seq![67u8, 79u8, 78u8, 83u8, 95u8, 70u8, 82u8, 69u8, 69u8], 0);
    lemma_no_prefix(seq![80u8, 67u8] + seq![b] + rest, seq![71u8, 69u8, 78u8, 95u8, 69u8, 78u8, 68u8], 0);
    lemma_no_prefix(seq![80u8, 67u8] + seq![b] + rest, seq![71u8, 69u8, 78u8, 95u8, 70u8, 82u8, 69u8, 69u8], 0);
}

/// The name `FP` is read as its register.
proof fn lemma_name_fp(b: u8, rest: Seq<u8>)
    requires
        !is_alphanum(b),
    ensures
        register_at(seq![70u8, 80u8] + seq![b] + rest, 0) == Some((crate::cpu::Cpu::FP, 2int)),
{
    lemma_named_then(seq![70u8, 80u8], b, rest, seq![70u8, 80u8]);
    lemma_no_prefix(seq![70u8, 80u8] + seq![b] + rest, seq![78u8, 73u8, 76u8], 0);
    lemma_no_prefix(seq![70u8, 80u8] + seq![b] + rest, seq![84u8], 0);
    lemma_no_prefix(seq![70u8, 80u8] + seq![b] + rest, seq![67u8, 79u8, 78u8, 83u8, 95u8, 69u8, 78u8, 68u8], 0);
    lemma_no_prefix(seq![70u8, 80u8] + seq![b] + rest, seq![67u8, 79u8, 78u8, 83u8, 95u8, 70u8, 82u8, 69u8, 69u8], 0);
    lemma_no_prefix(seq![70u8, 80u8] + seq![b] + rest, seq![71u8, 69u8, 78u8, 95u8, 69u8, 78u8, 68u8], 0);
    lemma_no_prefix(seq![70u8, 80u8] + seq![b] + rest, seq![71u8, 69u8, 78u8, 95u8, 70u8, 82u8, 69u8, 69u8], 0);
    lemma_no_prefix(seq![70u8, 80u8] + seq![b] + rest, seq![80u8, 67u8], 0);
}

/// The name `SP` is read as its register.
proof fn lemma_name_sp(b: u8, rest: Seq<u8>)
    requires
        !is_alphanum(b),
    ensures
        register_at(seq![83u8, 80u8] + seq![b] + rest, 0) == Some((crate::cpu::Cpu::SP, 2int)),
{
    lemma_named_then(seq![83u8, 80u8], b, rest, seq![83u8, 80u8]);
    lemma_no_prefix(seq![83u8, 80u8] + seq![b] + rest, seq![78u8, 73u8, 76u8], 0);
    lemma_no_prefix(seq![83u8, 80u8] + seq![b] + rest, seq![84u8], 0);
    lemma_no_prefix(seq![83u8, 80u8] + seq![b] + rest, seq![67u8, 79u8, 78u8, 83u8, 95u8, 69u8, 78u8, 68u8], 0);
    lemma_no_prefix(seq![83u8, 80u8] + seq![b] + rest, seq![67u8, 79u8, 78u8, 83u8, 95u8, 70u8, 82u8, 69u8, 69u8], 0);
    lemma_no_prefix(seq![83u8, 80u8] + seq![b] + rest, seq![71u8, 69u8, 78u8, 95u8, 69u8, 78u8, 68u8], 0);
    lemma_no_prefix(seq![83u8, 80u8] + seq![b] + rest, seq![71u8, 69u8, 78u8, 95u8, 70u8, 82u8, 69u8, 69u8], 0);
    lemma_no_prefix(seq![83u8, 80u8] + seq![b] + rest, seq![80u8, 67u8], 0);
    lemma_no_prefix(seq![83u8, 80u8] + seq![b] + rest, seq![70u8, 80u8], 0);
}

/// The name `VBR` is read as its register.
proof fn lemma_name_vbr(b: u8, rest: Seq<u8>)
    requires
        !is_alphanum(b),
    ensures
        register_at(seq![86u8, 66u8, 82u8] + seq![b] + rest, 0) == Some((crate::cpu::Cpu::VBR, 3int)),
{
    lemma_named_then(seq![86u8, 66u8, 82u8], b, rest, seq![86u8, 66u8, 82u8]);
    lemma_no_prefix(seq![86u8, 66u8, 82u8] + seq![b] + rest, seq![78u8, 73u8, 76u8], 0);
    lemma_no_prefix(seq![86u8, 66u8, 82u8] + seq![b] + rest, seq![84u8], 0);
    lemma_no_prefix(seq![86u8, 66u8, 82u8] + seq![b] + rest, seq![67u8, 79u8, 78u8, 83u8, 95u8, 69u8, 78u8, 68u8], 0);
    lemma_no_prefix(seq![86u8, 66u8, 82u8] + seq![b] + rest, seq![67u8, 79u8, 78u8, 83u8, 95u8, 70u8, 82u8, 69u8, 69u8], 0);
    lemma_no_prefix(seq![86u8, 66u8, 82u8] + seq![b] + rest, seq![71u8, 69u8, 78u8, 95u8, 69u8, 78u8, 68u8], 0);
    lemma_no_prefix(seq![86u8, 66u8, 82u8] + seq![b] + rest, seq![71u8, 69u8, 78u8, 95u8, 70u8, 82u8, 69u8, 69u8], 0);
    lemma_no_prefix(seq![86u8, 66u8, 82u8] + seq![b] + rest, seq![80u8, 67u8], 0);
    lemma_no_prefix(seq![86u8, 66u8, 82u8] + seq![b] + rest, seq![70u8, 80u8], 0);
    lemma_no_prefix(seq![86u8, 66u8, 82u8] + seq![b] + rest, seq![83u8, 80u8], 0);
}

/// The name `A0` is read as its register.
proof fn lemma_name_a0(b: u8, rest: Seq<u8>)
    requires
        !is_alphanum(b),
    ensures
        register_at(seq![65u8, 48u8] + seq![b] + rest, 0) == Some((crate::cpu::assembler::AbiRegisters::A0, 2int)),
{
    lemma_named_then(seq![65u8, 48u8], b, rest, seq![65u8, 48u8]);
    lemma_no_prefix(seq![65u8, 48u8] + seq![b] + rest, seq![78u8, 73u8, 76u8], 0);
    lemma_no_prefix(seq![65u8, 48u8] + seq![b] + rest, seq![84u8], 0);
    lemma_no_prefix(seq![65u8, 48u8] + seq![b] + rest, seq![67u8, 79u8, 78u8, 83u8, 95u8, 69u8, 78u8, 68u8], 0);
    lemma_no_prefix(seq![65u8, 48u8] + seq![b] + rest, seq![67u8, 79u8, 78u8, 83u8, 95u8, 70u8, 82u8, 69u8, 69u8], 0);
    lemma_no_prefix(seq![65u8, 48u8] + seq![b] + rest, seq![71u8, 69u8, 78u8, 95u8, 69u8, 78u8, 68u8], 0);
    lemma_no_prefix(seq![65u8, 48u8] + seq![b] + rest, seq![71u8, 69u8, 78u8, 95u8, 70u8, 82u8, 69u8, 69u8], 0);
    lemma_no_prefix(seq![65u8, 48u8] + seq![b] + rest, seq![80u8, 67u8], 0);
    lemma_no_prefix(seq![65u8, 48u8] + seq![b] + rest, seq![70u8, 80u8], 0);
    lemma_no_prefix(seq![65u8, 48u8] + seq![b] + rest, seq![83u8, 80u8], 0);
    lemma_no_prefix(seq![65u8, 48u8] + seq![b] + rest, seq![86u8, 66u8, 82u8], 0);
}

/// The name `A1` is read as its register.
proof fn lemma_name_a1(b: u8, rest: Seq<u8>)
    requires
        !is_alphanum(b),
    ensures
        register_at(seq![65u8, 49u8] + seq![b] + rest, 0) == Some((crate::cpu::assembler::AbiRegisters::A1, 2int)),
{
    lemma_named_then(seq![65u8, 49u8], b, rest, seq![65u8, 49u8]);
    lemma_no_prefix(seq![65u8, 49u8] + seq![b] + rest, seq![78u8, 73u8, 76u8], 0);
    lemma_no_prefix(seq![65u8, 49u8] + seq![b] + rest, seq![84u8], 0);
    lemma_no_prefix(seq![65u8, 49u8] + seq![b] + rest, seq![67u8, 79u8, 78u8, 83u8, 95u8, 69u8, 78u8, 68u8], 0);
    lemma_no_prefix(seq![65u8, 49u8] + seq![b] + rest, seq![67u8, 79u8, 78u8, 83u8, 95u8, 70u8, 82u8, 69u8, 69u8], 0);
    lemma_no_prefix(seq![65u8, 49u8] + seq![b] + rest, seq![71u8, 69u8, 78u8, 95u8, 69u8, 78u8, 68u8], 0);
    lemma_no_prefix(seq![65u8, 49u8] + seq![b] + rest, seq![71u8, 69u8, 78u8, 95u8, 70u8, 82u8, 69u8, 69u8], 0);
    lemma_no_prefix(seq![65u8, 49u8] + seq![b] + rest, seq![80u8, 67u8], 0);
    lemma_no_prefix(seq![65u8, 49u8] + seq![b] + rest, seq![70u8, 80u8], 0);
    lemma_no_prefix(seq![65u8, 49u8] + seq![b] + rest, seq![83u8, 80u8], 0);
    lemma_no_prefix(seq![65u8, 49u8] + seq![b] + rest, seq![86u8, 66u8, 82u8], 0);
    lemma_no_prefix(seq![65u8, 49u8] + seq![b] + rest, seq![65u8, 48u8], 1);
}

/// The name `A2` is read as its register.
proof fn lemma_name_a2(b: u8, rest: Seq<u8>)
    requires
        !is_alphanum(b),
    ensures
        register_at(seq![65u8, 50u8] + seq![b] + rest, 0) == Some((crate::cpu::assembler::AbiRegisters::A2, 2int)),
{
    lemma_named_then(seq![65u8, 50u8], b, rest, seq![65u8, 50u8]);
    lemma_no_prefix(seq![65u8, 50u8] + seq![b] + rest, seq![78u8, 73u8, 76u8], 0);
    lemma_no_prefix(seq![65u8, 50u8] + seq![b] + rest, seq![84u8], 0);
    lemma_no_prefix(seq![65u8, 50u8] + seq![b] + rest, seq![67u8, 79u8, 78u8, 83u8, 95u8, 69u8, 78u8, 68u8], 0);
    lemma_no_prefix(seq![65u8, 50u8] + seq![b] + rest, seq![67u8, 79u8, 78u8, 83u8, 95u8, 70u8, 82u8, 69u8, 69u8], 0);
    lemma_no_prefix(seq![65u8, 50u8] + seq![b] + rest, seq![71u8, 69u8, 78u8, 95u8, 69u8, 78u8, 68u8], 0);
    lemma_no_prefix(seq![65u8, 50u8] + seq![b] + rest, seq![71u8, 69u8, 78u8, 95u8, 70u8, 82u8, 69u8, 69u8], 0);
    lemma_no_prefix(seq![65u8, 50u8] + seq![b] + rest, seq![80u8, 67u8], 0);
    lemma_no_prefix(seq![65u8, 50u8] + seq![b] + rest, seq![70u8, 80u8], 0);
    lemma_no_prefix(seq![65u8, 50u8] + seq![b] + rest, seq![83u8, 80u8], 0);
    lemma_no_prefix(seq![65u8, 50u8] + seq![b] + rest, seq![86u8, 66u8, 82u8], 0);
    lemma_no_prefix(seq![65u8, 50u8] + seq![b] + rest, seq![65u8, 48u8], 1);
    lemma_no_prefix(seq![65u8, 50u8] + seq![b] + rest, seq![65u8, 49u8], 1);
}

/// The name `A3` is read as its register.
proof fn lemma_name_a3(b: u8, rest: Seq<u8>)
    requires
        !is_alphanum(b),
    ensures
        register_at(seq![65u8, 51u8] + seq![b] + rest, 0) == Some((crate::cpu::assembler::AbiRegisters::A3, 2int)),
{
    lemma_named_then(seq![65u8, 51u8], b, rest, seq![65u8, 51u8]);
    lemma_no_prefix(seq![65u8, 51u8] + seq![b] + rest, seq![78u8, 73u8, 76u8], 0);
    lemma_no_prefix(seq![65u8, 51u8] + seq![b] + rest, seq![84u8], 0);
    lemma_no_prefix(seq![65u8, 51u8] + seq![b] + rest, seq![67u8, 79u8, 78u8, 83u8, 95u8, 69u8, 78u8, 68u8], 0);
    lemma_no_prefix(seq![65u8, 51u8] + seq![b] + rest, seq![67u8, 79u8, 78u8, 83u8, 95u8, 70u8, 82u8, 69u8, 69u8], 0);
    lemma_no_prefix(seq![65u8, 51u8] + seq![b] + rest, seq![71u8, 69u8, 78u8, 95u8, 69u8, 78u8, 68u8], 0);
    lemma_no_prefix(seq![65u8, 51u8] + seq![b] + rest, seq![71u8, 69u8, 78u8, 95u8, 70u8, 82u8, 69u8, 69u8], 0);
    lemma_no_prefix(seq![65u8, 51u8] + seq![b] + rest, seq![80u8, 67u8], 0);
    lemma_no_prefix(seq![65u8, 51u8] + seq![b] + rest, seq![70u8, 80u8], 0);
    lemma_no_prefix(seq![65u8, 51u8] + seq![b] + rest, seq![83u8, 80u8], 0);
    lemma_no_prefix(seq![65u8, 51u8] + seq![b] + rest, seq![86u8, 66u8, 82u8], 0);
    lemma_no_prefix(seq![65u8, 51u8] + seq![b] + rest, seq![65u8, 48u8], 1);
    lemma_no_prefix(seq![65u8, 51u8] + seq![b] + rest, seq![65u8, 49u8], 1);
    lemma_no_prefix(seq![65u8, 51u8] + seq![b] + rest, seq![65u8, 50u8], 1);
}

/// The name `A4` is read as its register.
proof fn lemma_name_a4(b: u8, rest: Seq<u8>)
    requires
        !is_alphanum(b),
    ensures
        register_at(seq![65u8, 52u8] + seq![b] + rest, 0) == Some((crate::cpu::assembler::AbiRegisters::A4, 2int)),
{
    lemma_named_then(seq![65u8, 52u8], b, rest, seq![65u8, 52u8]);
    lemma_no_prefix(seq![65u8, 52u8] + seq![b] + rest, seq![78u8, 73u8, 76u8], 0);
    lemma_no_prefix(seq![65u8, 52u8] + seq![b] + rest, seq![84u8], 0);
    lemma_no_prefix(seq![65u8, 52u8] + seq![b] + rest, seq![67u8, 79u8, 78u8, 83u8, 95u8, 69u8, 78u8, 68u8], 0);
    lemma_no_prefix(seq![65u8, 52u8] + seq![b] + rest, seq![67u8, 79u8, 78u8, 83u8, 95u8, 70u8, 82u8, 69u8, 69u8], 0);
    lemma_no_prefix(seq![65u8, 52u8] + seq![b] + rest, seq![71u8, 69u8, 78u8, 95u8, 69u8, 78u8, 68u8], 0);
    lemma_no_prefix(seq![65u8, 52u8] + seq![b] + rest, seq![71u8, 69u8, 78u8, 95u8, 70u8, 82u8, 69u8, 69u8], 0);
    lemma_no_prefix(seq![65u8, 52u8] + seq![b] + rest, seq![80u8, 67u8], 0);
    lemma_no_prefix(seq![65u8, 52u8] + seq![b] + rest, seq![70u8, 80u8], 0);
    lemma_no_prefix(seq![65u8, 52u8] + seq![b] + rest, seq![83u8, 80u8], 0);
    lemma_no_prefix(seq![65u8, 52u8] + seq![b] + rest, seq![86u8, 66u8, 82u8], 0);
    lemma_no_prefix(seq![65u8, 52u8] + seq![b] + rest, seq![65u8, 48u8], 1);
    lemma_no_prefix(seq![65u8, 52u8] + seq![b] + rest, seq![65u8, 49u8], 1);
    lemma_no_prefix(seq![65u8, 52u8] + seq![b] + rest, seq![65u8, 50u8], 1);
    lemma_no_prefix(seq![65u8, 52u8] + seq![b] + rest, seq![65u8, 51u8], 1);
}

/// The name `A5` is read as its register.
proof fn lemma_name_a5(b: u8, rest: Seq<u8>)
    requires
        !is_alphanum(b),
    ensures
        register_at(seq![65u8, 53u8] + seq![b] + rest, 0) == Some((crate::cpu::assembler::AbiRegisters::A5, 2int)),
{
    lemma_named_then(seq![65u8, 53u8], b, rest, seq![65u8, 53u8]);
    lemma_no_prefix(seq![65u8, 53u8] + seq![b] + rest, seq![78u8, 73u8, 76u8], 0);
    lemma_no_prefix(seq![65u8, 53u8] + seq![b] + rest, seq![84u8], 0);
    lemma_no_prefix(seq![65u8, 53u8] + seq![b] + rest, seq![67u8, 79u8, 78u8, 83u8, 95u8, 69u8, 78u8, 68u8], 0);
    lemma_no_prefix(seq![65u8, 53u8] + seq![b] + rest, seq![67u8, 79u8, 78u8, 83u8, 95u8, 70u8, 82u8, 69u8, 69u8], 0);
    lemma_no_prefix(seq![65u8, 53u8] + seq![b] + rest, seq![71u8, 69u8, 78u8, 95u8, 69u8, 78u8, 68u8], 0);
    lemma_no_prefix(seq![65u8, 53u8] + seq![b] + rest, seq![71u8, 69u8, 78u8, 95u8, 70u8, 82u8, 69u8, 69u8], 0);
    lemma_no_prefix(seq![65u8, 53u8] + seq![b] + rest, seq![80u8, 67u8], 0);
    lemma_no_prefix(seq![65u8, 53u8] + seq![b] + rest, seq![70u8, 80u8], 0);
    lemma_no_prefix(seq![65u8, 53u8] + seq![b] + rest, seq![83u8, 80u8], 0);
    lemma_no_prefix(seq![65u8, 53u8] + seq![b] + rest, seq![86u8, 66u8, 82u8], 0);
    lemma_no_prefix(seq![65u8, 53u8] + seq![b] + rest, seq![65u8, 48u8], 1);
    lemma_no_prefix(seq![65u8, 53u8] + seq![b] + rest, seq![65u8, 49u8], 1);
    lemma_no_prefix(seq![65u8, 53u8] + seq![b] + rest, seq![65u8, 50u8], 1);
    lemma_no_prefix(seq![65u8, 53u8] + seq![b] + rest, seq![65u8, 51u8], 1);
    lemma_no_prefix(seq![65u8, 53u8] + seq![b] + rest, seq![65u8, 52u8], 1);
}

/// The name `A6` is read as its register.
proof fn lemma_name_a6(b: u8, rest: Seq<u8>)
    requires
        !is_alphanum(b),
    ensures
        register_at(seq![65u8, 54u8] + seq![b] + rest, 0) == Some((crate::cpu::assembler::AbiRegisters::A6, 2int)),
{
    lemma_named_then(seq![65u8, 54u8], b, rest, seq![65u8, 54u8]);
    lemma_no_prefix(seq![65u8, 54u8] + seq![b] + rest, seq![78u8, 73u8, 76u8], 0);
    lemma_no_prefix(seq![65u8, 54u8] + seq![b] + rest, seq![84u8], 0);
    lemma_no_prefix(seq![65u8, 54u8] + seq![b] + rest, seq![67u8, 79u8, 78u8, 83u8, 95u8, 69u8, 78u8, 68u8], 0);
    lemma_no_prefix(seq![65u8, 54u8] + seq![b] + rest, seq![67u8, 79u8, 78u8, 83u8, 95u8, 70u8, 82u8, 69u8, 69u8], 0);
    lemma_no_prefix(seq![65u8, 54u8] + seq![b] + rest, seq![71u8, 69u8, 78u8, 95u8, 69u8, 78u8, 68u8], 0);
    lemma_no_prefix(seq![65u8, 54u8] + seq![b] + rest, seq![71u8, 69u8, 78u8, 95u8, 70u8, 82u8, 69u8, 69u8], 0);
    lemma_no_prefix(seq![65u8, 54u8] + seq![b] + rest, seq![80u8, 67u8], 0);
    lemma_no_prefix(seq![65u8, 54u8] + seq![b] + rest, seq![70u8, 80u8], 0);
    lemma_no_prefix(seq![65u8, 54u8] + seq![b] + rest, seq![83u8, 80u8], 0);
    lemma_no_prefix(seq![65u8, 54u8] + seq![b] + rest, seq![86u8, 66u8, 82u8], 0);
    lemma_no_prefix(seq![65u8, 54u8] + seq![b] + rest, seq![65u8, 48u8], 1);
    lemma_no_prefix(seq![65u8, 54u8] + seq![b] + rest, seq![65u8, 49u8], 1);
    lemma_no_prefix(seq![65u8, 54u8] + seq![b] + rest, seq![65u8, 50u8], 1);
    lemma_no_prefix(seq![65u8, 54u8] + seq![b] + rest, seq![65u8, 51u8], 1);
    lemma_no_prefix(seq![65u8, 54u8] + seq![b] + rest, seq![65u8, 52u8], 1);
    lemma_no_prefix(seq![65u8, 54u8] + seq![b] + rest, seq![65u8, 53u8], 1);
}

/// The name `A7` is read as its register.
proof fn lemma_name_a7(b: u8, rest: Seq<u8>)
    requires
        !is_alphanum(b),
    ensures
        register_at(seq![65u8, 55u8] + seq![b] + rest, 0) == Some((crate::cpu::assembler::AbiRegisters::A7, 2int)),
{
    lemma_named_then(seq![65u8, 55u8], b, rest, seq![65u8, 55u8]);
    lemma_no_prefix(seq![65u8, 55u8] + seq![b] + rest, seq![78u8, 73u8, 76u8], 0);
    lemma_no_prefix(seq![65u8, 55u8] + seq![b] + rest, seq![84u8], 0);
    lemma_no_prefix(seq![65u8, 55u8] + seq![b] + rest, seq![67u8, 79u8, 78u8, 83u8, 95u8, 69u8, 78u8, 68u8], 0);
    lemma_no_prefix(seq![65u8, 55u8] + seq![b] + rest, seq![67u8, 79u8, 78u8, 83u8, 95u8, 70u8, 82u8, 69u8, 69u8], 0);
    lemma_no_prefix(seq![65u8, 55u8] + seq![b] + rest, seq![71u8, 69u8, 78u8, 95u8, 69u8, 78u8, 68u8], 0);
    lemma_no_prefix(seq![65u8, 55u8] + seq![b] + rest, seq![71u8, 69u8, 78u8, 95u8, 70u8, 82u8, 69u8, 69u8], 0);
    lemma_no_prefix(seq![65u8, 55u8] + seq![b] + rest, seq![80u8, 67u8], 0);
    lemma_no_prefix(seq![65u8, 55u8] + seq![b] + rest, seq![70u8, 80u8], 0);
    lemma_no_prefix(seq![65u8, 55u8] + seq![b] + rest, seq![83u8, 80u8], 0);
    lemma_no_prefix(seq![65u8, 55u8] + seq![b] + rest, seq![86u8, 66u8, 82u8], 0);
    lemma_no_prefix(seq![65u8, 55u8] + seq![b] + rest, seq![65u8, 48u8], 1);
    lemma_no_prefix(seq![65u8, 55u8] + seq![b] + rest, seq![65u8, 49u8], 1);
    lemma_no_prefix(seq![65u8, 55u8] + seq![b] + rest, seq![65u8, 50u8], 1);
    lemma_no_prefix(seq![65u8, 55u8] + seq![b] + rest, seq![65u8, 51u8], 1);
    lemma_no_prefix(seq![65u8, 55u8] + seq![b] + rest, seq![65u8, 52u8], 1);
    lemma_no_prefix(seq![65u8, 55u8] + seq![b] + rest, seq![65u8, 53u8], 1);
    lemma_no_prefix(seq![65u8, 55u8] + seq![b] + rest, seq![65u8, 54u8], 1);
}

/// The name `AN` is read as its register.
proof fn lemma_name_an(b: u8, rest: Seq<u8>)
    requires
        !is_alphanum(b),
    ensures
        register_at(seq![65u8, 78u8] + seq![b] + rest, 0) == Some((crate::cpu::assembler::AbiRegisters::AN, 2int)),
{
    lemma_named_then(seq![65u8, 78u8], b, rest, seq![65u8, 78u8]);
    lemma_no_prefix(seq![65u8, 78u8] + seq![b] + rest, seq![78u8, 73u8, 76u8], 0);
    lemma_no_prefix(seq![65u8, 78u8] + seq![b] + rest, seq![84u8], 0);
    lemma_no_prefix(seq![65u8, 78u8] + seq![b] + rest, seq![67u8, 79u8, 78u8, 83u8, 95u8, 69u8, 78u8, 68u8], 0);
    lemma_no_prefix(seq![65u8, 78u8] + seq![b] + rest, seq![67u8, 79u8, 78u8, 83u8, 95u8, 70u8, 82u8, 69u8, 69u8], 0);
    lemma_no_prefix(seq![65u8, 78u8] + seq![b] + rest, seq![71u8, 69u8, 78u8, 95u8, 69u8, 78u8, 68u8], 0);
    lemma_no_prefix(seq![65u8, 78u8] + seq![b] + rest, seq![71u8, 69u8, 78u8, 95u8, 70u8, 82u8, 69u8, 69u8], 0);
    lemma_no_prefix(seq![65u8, 78u8] + seq![b] + rest, seq![80u8, 67u8], 0);
    lemma_no_prefix(seq![65u8, 78u8] + seq![b] + rest, seq![70u8, 80u8], 0);
    lemma_no_prefix(seq![65u8, 78u8] + seq![b] + rest, seq![83u8, 80u8], 0);
    lemma_no_prefix(seq![65u8, 78u8] + seq![b] + rest, seq![86u8, 66u8, 82u8], 0);
    lemma_no_prefix(seq![65u8, 78u8] + seq![b] + rest, seq![65u8, 48u8], 1);
    lemma_no_prefix(seq![65u8, 78u8] + seq![b] + rest, seq![65u8, 49u8], 1);
    lemma_no_prefix(seq![65u8, 78u8] + seq![b] + rest, seq![65u8, 50u8], 1);
    lemma_no_prefix(seq![65u8, 78u8] + seq![b] + rest, seq![65u8, 51u8], 1);
    lemma_no_prefix(seq![65u8, 78u8] + seq![b] + rest, seq![65u8, 52u8], 1);
    lemma_no_prefix(seq![65u8, 78u8] + seq![b] + rest, seq![65u8, 53u8], 1);
    lemma_no_prefix(seq![65u8, 78u8] + seq![b] + rest, seq![65u8, 54u8], 1);
    lemma_no_prefix(seq![65u8, 78u8] + seq![b] + rest, seq![65u8, 55u8], 1);
}

/// The name `R0` is read as its register.
proof fn lemma_name_r0(b: u8, rest: Seq<u8>)
    requires
        !is_alphanum(b),
    ensures
        register_at(seq![82u8, 48u8] + seq![b] + rest, 0) == Some((crate::cpu::assembler::AbiRegisters::R0, 2int)),
{
    lemma_named_then(seq![82u8, 48u8], b, rest, seq![82u8, 48u8]);
    lemma_no_prefix(seq![82u8, 48u8] + seq![b] + rest, seq![78u8, 73u8, 76u8], 0);
    lemma_no_prefix(seq![82u8, 48u8] + seq![b] + rest, seq![84u8], 0);
    lemma_no_prefix(seq![82u8, 48u8] + seq![b] + rest, seq![67u8, 79u8, 78u8, 83u8, 95u8, 69u8, 78u8, 68u8], 0);
    lemma_no_prefix(seq![82u8, 48u8] + seq![b] + rest, seq![67u8, 79u8, 78u8, 83u8, 95u8, 70u8, 82u8, 69u8, 69u8], 0);
    lemma_no_prefix(seq![82u8, 48u8] + seq![b] + rest, seq![71u8, 69u8, 78u8, 95u8, 69u8, 78u8, 68u8], 0);
    lemma_no_prefix(seq![82u8, 48u8] + seq![b] + rest, seq![71u8, 69u8, 78u8, 95u8, 70u8, 82u8, 69u8, 69u8], 0);
    lemma_no_prefix(seq![82u8, 48u8] + seq![b] + rest, seq![80u8, 67u8], 0);
    lemma_no_prefix(seq![82u8, 48u8] + seq![b] + rest, seq![70u8, 80u8], 0);
    lemma_no_prefix(seq![82u8, 48u8] + seq![b] + rest, seq![83u8, 80u8], 0);
    lemma_no_prefix(seq![82u8, 48u8] + seq![b] + rest, seq![86u8, 66u8, 82u8], 0);
    lemma_no_prefix(seq![82u8, 48u8] + seq![b] + rest, seq![65u8, 48u8], 0);
    lemma_no_prefix(seq![82u8, 48u8] + seq![b] + rest, seq![65u8, 49u8], 0);
    lemma_no_prefix(seq![82u8, 48u8] + seq![b] + rest, seq![65u8, 50u8], 0);
    lemma_no_prefix(seq![82u8, 48u8] + seq![b] + rest, seq![65u8, 51u8], 0);
    lemma_no_prefix(seq![82u8, 48u8] + seq![b] + rest, seq![65u8, 52u8], 0);
    lemma_no_prefix(seq![82u8, 48u8] + seq![b] + rest, seq![65u8, 53u8], 0);
    lemma_no_prefix(seq![82u8, 48u8] + seq![b] + rest, seq![65u8, 54u8], 0);
    lemma_no_prefix(seq![82u8, 48u8] + seq![b] + rest, seq![65u8, 55u8], 0);
    lemma_no_prefix(seq![82u8, 48u8] + seq![b] + rest, seq![65u8, 78u8], 0);
}

/// The name `R1` is read as its register.
proof fn lemma_name_r1(b: u8, rest: Seq<u8>)
    requires
        !is_alphanum(b),
    ensures
        register_at(seq![82u8, 49u8] + seq![b] + rest, 0) == Some((crate::cpu::assembler::AbiRegisters::R1, 2int)),
{
    lemma_named_then(seq![82u8, 49u8], b, rest, seq![82u8, 49u8]);
    lemma_no_prefix(seq![82u8, 49u8] + seq![b] + rest, seq![78u8, 73u8, 76u8], 0);
    lemma_no_prefix(seq![82u8, 49u8] + seq![b] + rest, seq![84u8], 0);
    lemma_no_prefix(seq![82u8, 49u8] + seq![b] + rest, seq![67u8, 79u8, 78u8, 83u8, 95u8, 69u8, 78u8, 68u8], 0);
    lemma_no_prefix(seq![82u8, 49u8] + seq![b] + rest, seq![67u8, 79u8, 78u8, 83u8, 95u8, 70u8, 82u8, 69u8, 69u8], 0);
    lemma_no_prefix(seq![82u8, 49u8] + seq![b] + rest, seq![71u8, 69u8, 78u8, 95u8, 69u8, 78u8, 68u8], 0);
    lemma_no_prefix(seq![82u8, 49u8] + seq![b] + rest, seq![71u8, 69u8, 78u8, 95u8, 70u8, 82u8, 69u8, 69u8], 0);
    lemma_no_prefix(seq![82u8, 49u8] + seq![b] + rest, seq![80u8, 67u8], 0);
    lemma_no_prefix(seq![82u8, 49u8] + seq![b] + rest, seq![70u8, 80u8], 0);
    lemma_no_prefix(seq![82u8, 49u8] + seq![b] + rest, seq![83u8, 80u8], 0);
    lemma_no_prefix(seq![82u8, 49u8] + seq![b] + rest, seq![86u8, 66u8, 82u8], 0);
    lemma_no_prefix(seq![82u8, 49u8] + seq![b] + rest, seq![65u8, 48u8], 0);
    lemma_no_prefix(seq![82u8, 49u8] + seq![b] + rest, seq![65u8, 49u8], 0);
    lemma_no_prefix(seq![82u8, 49u8] + seq![b] + rest, seq![65u8, 50u8], 0);
    lemma_no_prefix(seq![82u8, 49u8] + seq![b] + rest, seq![65u8, 51u8], 0);
    lemma_no_prefix(seq![82u8, 49u8] + seq![b] + rest, seq![65u8, 52u8], 0);
    lemma_no_prefix(seq![82u8, 49u8] + seq![b] + rest, seq![65u8, 53u8], 0);
    lemma_no_prefix(seq![82u8, 49u8] + seq![b] + rest, seq![65u8, 54u8], 0);
    lemma_no_prefix(seq![82u8, 49u8] + seq![b] + rest, seq![65u8, 55u8], 0);
    lemma_no_prefix(seq![82u8, 49u8] + seq![b] + rest, seq![65u8, 78u8], 0);
    lemma_no_prefix(seq![82u8, 49u8] + seq![b] + rest, seq![82u8, 48u8], 1);
}

/// The name `R2` is read as its register.
proof fn lemma_name_r2(b: u8, rest: Seq<u8>)
    requires
        !is_alphanum(b),
    ensures
        register_at(seq![82u8, 50u8] + seq![b] + rest, 0) == Some((crate::cpu::assembler::AbiRegisters::R2, 2int)),
{
    lemma_named_then(seq![82u8, 50u8], b, rest, seq![82u8, 50u8]);
    lemma_no_prefix(seq![82u8, 50u8] + seq![b] + rest, seq![78u8, 73u8, 76u8], 0);
    lemma_no_prefix(seq![82u8, 50u8] + seq![b] + rest, seq![84u8], 0);
    lemma_no_prefix(seq![82u8, 50u8] + seq![b] + rest, seq![67u8, 79u8, 78u8, 83u8, 95u8, 69u8, 78u8, 68u8], 0);
    lemma_no_prefix(seq![82u8, 50u8] + seq![b] + rest, seq![67u8, 79u8, 78u8, 83u8, 95u8, 70u8, 82u8, 69u8, 69u8], 0);
    lemma_no_prefix(seq![82u8, 50u8] + seq![b] + rest, seq![71u8, 69u8, 78u8, 95u8, 69u8, 78u8, 68u8], 0);
    lemma_no_prefix(seq![82u8, 50u8] + seq![b] + rest, seq![71u8, 69u8, 78u8, 95u8, 70u8, 82u8, 69u8, 69u8], 0);
    lemma_no_prefix(seq![82u8, 50u8] + seq![b] + rest, seq![80u8, 67u8], 0);
    lemma_no_prefix(seq![82u8, 50u8] + seq![b] + rest, seq![70u8, 80u8], 0);
    lemma_no_prefix(seq![82u8, 50u8] + seq![b] + rest, seq![83u8, 80u8], 0);
    lemma_no_prefix(seq![82u8, 50u8] + seq![b] + rest, seq![86u8, 66u8, 82u8], 0);
    lemma_no_prefix(seq![82u8, 50u8] + seq![b] + rest, seq![65u8, 48u8], 0);
    lemma_no_prefix(seq![82u8, 50u8] + seq![b] + rest, seq![65u8, 49u8], 0);
    lemma_no_prefix(seq![82u8, 50u8] + seq![b] + rest, seq![65u8, 50u8], 0);
    lemma_no_prefix(seq![82u8, 50u8] + seq![b] + rest, seq![65u8, 51u8], 0);
    lemma_no_prefix(seq![82u8, 50u8] + seq![b] + rest, seq![65u8, 52u8], 0);
    lemma_no_prefix(seq![82u8, 50u8] + seq![b] + rest, seq![65u8, 53u8], 0);
    lemma_no_prefix(seq![82u8, 50u8] + seq![b] + rest, seq![65u8, 54u8], 0);
    lemma_no_prefix(seq![82u8, 50u8] + seq![b] + rest, seq![65u8, 55u8], 0);
    lemma_no_prefix(seq![82u8, 50u8] + seq![b] + rest, seq![65u8, 78u8], 0);
    lemma_no_prefix(seq![82u8, 50u8] + seq![b] + rest, seq![82u8, 48u8], 1);
    lemma_no_prefix(seq![82u8, 50u8] + seq![b] + rest, seq![82u8, 49u8], 1);
}

/// The name `R3` is read as its register.
proof fn lemma_name_r3(b: u8, rest: Seq<u8>)
    requires
        !is_alphanum(b),
    ensures
        register_at(seq![82u8, 51u8] + seq![b] + rest, 0) == Some((crate::cpu::assembler::AbiRegisters::R3, 2int)),
{
    lemma_named_then(seq![82u8, 51u8], b, rest, seq![82u8, 51u8]);
    lemma_no_prefix(seq![82u8, 51u8] + seq![b] + rest, seq![78u8, 73u8, 76u8], 0);
    lemma_no_prefix(seq![82u8, 51u8] + seq![b] + rest, seq![84u8], 0);
    lemma_no_prefix(seq![82u8, 51u8] + seq![b] + rest, seq![67u8, 79u8, 78u8, 83u8, 95u8, 69u8, 78u8, 68u8], 0);
    lemma_no_prefix(seq![82u8, 51u8] + seq![b] + rest, seq![67u8, 79u8, 78u8, 83u8, 95u8, 70u8, 82u8, 69u8, 69u8], 0);
    lemma_no_prefix(seq![82u8, 51u8] + seq![b] + rest, seq![71u8, 69u8, 78u8, 95u8, 69u8, 78u8, 68u8], 0);
    lemma_no_prefix(seq![82u8, 51u8] + seq![b] + rest, seq![71u8, 69u8, 78u8, 95u8, 70u8, 82u8, 69u8, 69u8], 0);
    lemma_no_prefix(seq![82u8, 51u8] + seq![b] + rest, seq![80u8, 67u8], 0);
    lemma_no_prefix(seq![82u8, 51u8] + seq![b] + rest, seq![70u8, 80u8], 0);
    lemma_no_prefix(seq![82u8, 51u8] + seq![b] + rest, seq![83u8, 80u8], 0);
    lemma_no_prefix(seq![82u8, 51u8] + seq![b] + rest, seq![86u8, 66u8, 82u8], 0);
    lemma_no_prefix(seq![82u8, 51u8] + seq![b] + rest, seq![65u8, 48u8], 0);
    lemma_no_prefix(seq![82u8, 51u8] + seq![b] + rest, seq![65u8, 49u8], 0);
    lemma_no_prefix(seq![82u8, 51u8] + seq![b] + rest, seq![65u8, 50u8], 0);
    lemma_no_prefix(seq![82u8, 51u8] + seq![b] + rest, seq![65u8, 51u8], 0);
    lemma_no_prefix(seq![82u8, 51u8] + seq![b] + rest, seq![65u8, 52u8], 0);
    lemma_no_prefix(seq![82u8, 51u8] + seq![b] + rest, seq![65u8, 53u8], 0);
    lemma_no_prefix(seq![82u8, 51u8] + seq![b] + rest, seq![65u8, 54u8], 0);
    lemma_no_prefix(seq![82u8, 51u8] + seq![b] + rest, seq![65u8, 55u8], 0);
    lemma_no_prefix(seq![82u8, 51u8] + seq![b] + rest, seq![65u8, 78u8], 0);
    lemma_no_prefix(seq![82u8, 51u8] + seq![b] + rest, seq![82u8, 48u8], 1);
    lemma_no_prefix(seq![82u8, 51u8] + seq![b] + rest, seq![82u8, 49u8], 1);
    lemma_no_prefix(seq![82u8, 51u8] + seq![b] + rest, seq![82u8, 50u8], 1);
}

/// The name `RN` is read as its register.
proof fn lemma_name_rn(b: u8, rest: Seq<u8>)
    requires
        !is_alphanum(b),
    ensures
        register_at(seq![82u8, 78u8] + seq![b] + rest, 0) == Some((crate::cpu::assembler::AbiRegisters::RN, 2int)),
{
    lemma_named_then(seq![82u8, 78u8], b, rest, seq![82u8, 78u8]);
    lemma_no_prefix(seq![82u8, 78u8] + seq![b] + rest, seq![78u8, 73u8, 76u8], 0);
    lemma_no_prefix(seq![82u8, 78u8] + seq![b] + rest, seq![84u8], 0);
    lemma_no_prefix(seq![82u8, 78u8] + seq![b] + rest, seq![67u8, 79u8, 78u8, 83u8, 95u8, 69u8, 78u8, 68u8], 0);
    lemma_no_prefix(seq![82u8, 78u8] + seq![b] + rest, seq![67u8, 79u8, 78u8, 83u8, 95u8, 70u8, 82u8, 69u8, 69u8], 0);
    lemma_no_prefix(seq![82u8, 78u8] + seq![b] + rest, seq![71u8, 69u8, 78u8, 95u8, 69u8, 78u8, 68u8], 0);
    lemma_no_prefix(seq![82u8, 78u8] + seq![b] + rest, seq![71u8, 69u8, 78u8, 95u8, 70u8, 82u8, 69u8, 69u8], 0);
    lemma_no_prefix(seq![82u8, 78u8] + seq![b] + rest, seq![80u8, 67u8], 0);
    lemma_no_prefix(seq![82u8, 78u8] + seq![b] + rest, seq![70u8, 80u8], 0);
    lemma_no_prefix(seq![82u8, 78u8] + seq![b] + rest, seq![83u8, 80u8], 0);
    lemma_no_prefix(seq![82u8, 78u8] + seq![b] + rest, seq![86u8, 66u8, 82u8], 0);
    lemma_no_prefix(seq![82u8, 78u8] + seq![b] + rest, seq![65u8, 48u8], 0);
    lemma_no_prefix(seq![82u8, 78u8] + seq![b] + rest, seq![65u8, 49u8], 0);
    lemma_no_prefix(seq![82u8, 78u8] + seq![b] + rest, seq![65u8, 50u8], 0);
    lemma_no_prefix(seq![82u8, 78u8] + seq![b] + rest, seq![65u8, 51u8], 0);
    lemma_no_prefix(seq![82u8, 78u8] + seq![b] + rest, seq![65u8, 52u8], 0);
    lemma_no_prefix(seq![82u8, 78u8] + seq![b] + rest, seq![65u8, 53u8], 0);
    lemma_no_prefix(seq![82u8, 78u8] + seq![b] + rest, seq![65u8, 54u8], 0);
    lemma_no_prefix(seq![82u8, 78u8] + seq![b] + rest, seq![65u8, 55u8], 0);
    lemma_no_prefix(seq![82u8, 78u8] + seq![b] + rest, seq![65u8, 78u8], 0);
    lemma_no_prefix(seq![82u8, 78u8] + seq![b] + rest, seq![82u8, 48u8], 1);
    lemma_no_prefix(seq![82u8, 78u8] + seq![b] + rest, seq![82u8, 49u8], 1);
    lemma_no_prefix(seq![82u8, 78u8] + seq![b] + rest, seq![82u8, 50u8], 1);
    lemma_no_prefix(seq![82u8, 78u8] + seq![b] + rest, seq![82u8, 51u8], 1);
}

/// The name `RX` is read as its register.
proof fn lemma_name_rx(b: u8, rest: Seq<u8>)
    requires
        !is_alphanum(b),
    ensures
        register_at(seq![82u8, 88u8] + seq![b] + rest, 0) == Some((crate::cpu::assembler::AbiRegisters::RX, 2int)),
{
    lemma_named_then(seq![82u8, 88u8], b, rest, seq![82u8, 88u8]);
    lemma_no_prefix(seq![82u8, 88u8] + seq![b] + rest, seq![78u8, 73u8, 76u8], 0);
    lemma_no_prefix(seq![82u8, 88u8] + seq![b] + rest, seq![84u8], 0);
    lemma_no_prefix(seq![82u8, 88u8] + seq![b] + rest, seq![67u8, 79u8, 78u8, 83u8, 95u8, 69u8, 78u8, 68u8], 0);
    lemma_no_prefix(seq![82u8, 88u8] + seq![b] + rest, seq![67u8, 79u8, 78u8, 83u8, 95u8, 70u8, 82u8, 69u8, 69u8], 0);
    lemma_no_prefix(seq![82u8, 88u8] + seq![b] + rest, seq![71u8, 69u8, 78u8, 95u8, 69u8, 78u8, 68u8], 0);
    lemma_no_prefix(seq![82u8, 88u8] + seq![b] + rest, seq![71u8, 69u8, 78u8, 95u8, 70u8, 82u8, 69u8, 69u8], 0);
    lemma_no_prefix(seq![82u8, 88u8] + seq![b] + rest, seq![80u8, 67u8], 0);
    lemma_no_prefix(seq![82u8, 88u8] + seq![b] + rest, seq![70u8, 80u8], 0);
    lemma_no_prefix(seq![82u8, 88u8] + seq![b] + rest, seq![83u8, 80u8], 0);
    lemma_no_prefix(seq![82u8, 88u8] + seq![b] + rest, seq![86u8, 66u8, 82u8], 0);
    lemma_no_prefix(seq![82u8, 88u8] + seq![b] + rest, seq![65u8, 48u8], 0);
    lemma_no_prefix(seq![82u8, 88u8] + seq![b] + rest, seq![65u8, 49u8], 0);
    lemma_no_prefix(seq![82u8, 88u8] + seq![b] + rest, seq![65u8, 50u8], 0);
    lemma_no_prefix(seq![82u8, 88u8] + seq![b] + rest, seq![65u8, 51u8], 0);
    lemma_no_prefix(seq![82u8, 88u8] + seq![b] + rest, seq![65u8, 52u8], 0);
    lemma_no_prefix(seq![82u8, 88u8] + seq![b] + rest, seq![65u8, 53u8], 0);
    lemma_no_prefix(seq![82u8, 88u8] + seq![b] + rest, seq![65u8, 54u8], 0);
    lemma_no_prefix(seq![82u8, 88u8] + seq![b] + rest, seq![65u8, 55u8], 0);
    lemma_no_prefix(seq![82u8, 88u8] + seq![b] + rest, seq![65u8, 78u8], 0);
    lemma_no_prefix(seq![82u8, 88u8] + seq![b] + rest, seq![82u8, 48u8], 1);
    lemma_no_prefix(seq![82u8, 88u8] + seq![b] + rest, seq![82u8, 49u8], 1);
    lemma_no_prefix(seq![82u8, 88u8] + seq![b] + rest, seq![82u8, 50u8], 1);
    lemma_no_prefix(seq![82u8, 88u8] + seq![b] + rest, seq![82u8, 51u8], 1);
    lemma_no_prefix(seq![82u8, 88u8] + seq![b] + rest, seq![82u8, 78u8], 1);
}

/// The tokenizer reads each register's name as that register: a name followed by any
/// byte that is not an ASCII letter or digit is the CPU's (or the calling convention's)
/// register of that name.
pub proof fn lemma_register_names(b: u8, rest: Seq<u8>)
    requires
        !is_alphanum(b),
    ensures
        // NIL
        register_at(seq![78u8, 73u8, 76u8] + seq![b] + rest, 0) == Some((crate::cpu::Cpu::NIL, 3int)),
        // T
        register_at(seq![84u8] + seq![b] + rest, 0) == Some((crate::cpu::Cpu::T, 1int)),
        // CONS_END
        register_at(seq![67u8, 79u8, 78u8, 83u8, 95u8, 69u8, 78u8, 68u8] + seq![b] + rest, 0) == Some((crate::cpu::Cpu::CONS_END, 8int)),
        // CONS_FREE
        register_at(seq![67u8, 79u8, 78u8, 83u8, 95u8, 70u8, 82u8, 69u8, 69u8] + seq![b] + rest, 0) == Some((crate::cpu::Cpu::CONS_FREE, 9int)),
        // GEN_END
        register_at(seq![71u8, 69u8, 78u8, 95u8, 69u8, 78u8, 68u8] + seq![b] + rest, 0) == Some((crate::cpu::Cpu::GEN_END, 7int)),
        // GEN_FREE
        register_at(seq![71u8, 69u8, 78u8, 95u8, 70u8, 82u8, 69u8, 69u8] + seq![b] + rest, 0) == Some((crate::cpu::Cpu::GEN_FREE, 8int)),
        // PC
        register_at(seq![80u8, 67u8] + seq![b] + rest, 0) == Some((crate::cpu::Cpu::PC, 2int)),
        // FP
        register_at(seq![70u8, 80u8] + seq![b] + rest, 0) == Some((crate::cpu::Cpu::FP, 2int)),
        // SP
        register_at(seq![83u8, 80u8] + seq![b] + rest, 0) == Some((crate::cpu::Cpu::SP, 2int)),
        // VBR
        register_at(seq![86u8, 66u8, 82u8] + seq![b] + rest, 0) == Some((crate::cpu::Cpu::VBR, 3int)),
        // A0
        register_at(seq![65u8, 48u8] + seq![b] + rest, 0) == Some((crate::cpu::assembler::AbiRegisters::A0, 2int)),
        // A1
        register_at(seq![65u8, 49u8] + seq![b] + rest, 0) == Some((crate::cpu::assembler::AbiRegisters::A1, 2int)),
        // A2
        register_at(seq![65u8, 50u8] + seq![b] + rest, 0) == Some((crate::cpu::assembler::AbiRegisters::A2, 2int)),
        // A3
        register_at(seq![65u8, 51u8] + seq![b] + rest, 0) == Some((crate::cpu::assembler::AbiRegisters::A3, 2int)),
        // A4
        register_at(seq![65u8, 52u8] + seq![b] + rest, 0) == Some((crate::cpu::assembler::AbiRegisters::A4, 2int)),
        // A5
        register_at(seq![65u8, 53u8] + seq![b] + rest, 0) == Some((crate::cpu::assembler::AbiRegisters::A5, 2int)),
        // A6
        register_at(seq![65u8, 54u8] + seq![b] + rest, 0) == Some((crate::cpu::assembler::AbiRegisters::A6, 2int)),
        // A7
        register_at(seq![65u8, 55u8] + seq![b] + rest, 0) == Some((crate::cpu::assembler::AbiRegisters::A7, 2int)),
        // AN
        register_at(seq![65u8, 78u8] + seq![b] + rest, 0) == Some((crate::cpu::assembler::AbiRegisters::AN, 2int)),
        // R0
        register_at(seq![82u8, 48u8] + seq![b] + rest, 0) == Some((crate::cpu::assembler::AbiRegisters::R0, 2int)),
        // R1
        register_at(seq![82u8, 49u8] + seq![b] + rest, 0) == Some((crate::cpu::assembler::AbiRegisters::R1, 2int)),
        // R2
        register_at(seq![82u8, 50u8] + seq![b] + rest, 0) == Some((crate::cpu::assembler::AbiRegisters::R2, 2int)),
        // R3
        register_at(seq![82u8, 51u8] + seq![b] + rest, 0) == Some((crate::cpu::assembler::AbiRegisters::R3, 2int)),
        // RN
        register_at(seq![82u8, 78u8] + seq![b] + rest, 0) == Some((crate::cpu::assembler::AbiRegisters::RN, 2int)),
        // RX
        register_at(seq![82u8, 88u8] + seq![b] + rest, 0) == Some((crate::cpu::assembler::AbiRegisters::RX, 2int)),
{
    lemma_name_nil(b, rest);
    lemma_name_t(b, rest);
    lemma_name_cons_end(b, rest);
    lemma_name_cons_free(b, rest);
    lemma_name_gen_end(b, rest);
    lemma_name_gen_free(b, rest);
    lemma_name_pc(b, rest);
    lemma_name_fp(b, rest);
    lemma_name_sp(b, rest);
    lemma_name_vbr(b, rest);
    lemma_name_a0(b, rest);
    lemma_name_a1(b, rest);
    lemma_name_a2(b, rest);
    lemma_name_a3(b, rest);
    lemma_name_a4(b, rest);
    lemma_name_a5(b, rest);
    lemma_name_a6(b, rest);
    lemma_name_a7(b, rest);
    lemma_name_an(b, rest);
    lemma_name_r0(b, rest);
    lemma_name_r1(b, rest);
    lemma_name_r2(b, rest);
    lemma_name_r3(b, rest);
    lemma_name_rn(b, rest);
    lemma_name_rx(b, rest);
}

/// A register name (`NIL`, `SP`, ..., or `V` and a decimal number, taken modulo 256),
/// when the byte after it exists and is not an ASCII letter or digit.
pub open spec fn register_at(s: Seq<u8>, p: int) -> Option<(u8, int)> {
    let found = match named_register_at(s, p) {
        Some((r, len)) => Some((r, p + len)),
        None => if has_prefix(s, p, seq![86u8]) {
            match decimal_at(s, p + 1) {
                Some((v, e)) => Some((v as u8, e)),
                None => None,
            }
        } else {
            None
        },
    };
    match found {
        Some((r, e)) => if e < s.len() && !is_alphanum(s[e]) {
            Some((r, e))
        } else {
            None
        },
        None => None,
    }
}

/// A letter or `_`, then letters, digits, `-` and `_`.
pub open spec fn identifier_end(s: Seq<u8>, p: int) -> Option<int> {
    if 0 <= p < s.len() && (is_alpha(s[p]) || s[p] == 95) {
        Some(run_end(s, p + 1, identifier_class()))
    } else {
        None
    }
}

/// The first line feed at or after `p`.
pub open spec fn line_feed_at_or_after(s: Seq<u8>, p: int) -> Option<int>
    decreases s.len() - p,
{
    if p < 0 || p >= s.len() {
        None
    } else if s[p] == 10 {
        Some(p)
    } else {
        line_feed_at_or_after(s, p + 1)
    }
}

/// The end of the body of a string starting at `p` (just after its opening quote):
/// the position of the closing quote. A backslash takes the byte after it along.
pub open spec fn string_body_end(s: Seq<u8>, p: int) -> Option<int>
    decreases s.len() - p,
{
    if p < 0 || p >= s.len() {
        None
    } else if s[p] == 34 {
        Some(p)
    } else if s[p] == 92 {
        if p + 1 < s.len() {
            string_body_end(s, p + 2)
        } else {
            None
        }
    } else {
        string_body_end(s, p + 1)
    }
}

/// The bytes one UTF-8 character starting with `lead` takes.
pub open spec fn char_width(lead: u8) -> int {
    if lead < 0x80 {
        1
    } else if lead < 0xe0 {
        2
    } else if lead < 0xf0 {
        3
    } else {
        4
    }
}

/// The low byte of the code point of the character at `p`, and where it ends.
pub open spec fn char_at(s: Seq<u8>, p: int) -> Option<(u8, int)> {
    if 0 <= p < s.len() {
        let w = char_width(s[p]);
        if p + w <= s.len() {
            if w == 1 {
                Some((s[p], p + 1))
            } else {
                Some((((s[p + w - 1] & 0x3f) | ((s[p + w - 2] & 0x03) << 6u8)) as u8, p + w))
            }
        } else {
            None
        }
    } else {
        None
    }
}

/// A character literal: a backslash, then `Space`, `Newline` or any one character.
pub open spec fn char_literal_at(s: Seq<u8>, p: int) -> Option<(u8, int)> {
    if has_prefix(s, p, seq![92u8]) {
        if has_prefix(s, p + 1, seq![83u8, 112u8, 97u8, 99u8, 101u8]) {
            Some((32u8, p + 6))
        } else if has_prefix(s, p + 1, seq![78u8, 101u8, 119u8, 108u8, 105u8, 110u8, 101u8]) {
            Some((10u8, p + 8))
        } else {
            char_at(s, p + 1)
        }
    } else {
        None
    }
}

pub open spec fn single(s: Seq<u8>, p: int, c: u8, t: TokenView) -> Option<(TokenView, int)> {
    if 0 <= p < s.len() && s[p] == c {
        Some((t, p + 1))
    } else {
        None
    }
}

/// The token at `p` (after spaces and tabs), trying each kind in a fixed order, and
/// where it ends.
pub open spec fn token_at(s: Seq<u8>, pos: int) -> Option<(TokenView, int)> {
    let p = run_end(s, pos, space_class());
    if let Some(t) = single(s, p, 58, TokenView::Colon) {
        Some(t)
    } else if let Some(t) = single(s, p, 33, TokenView::Bang) {
        Some(t)
    } else if let Some(t) = single(s, p, 35, TokenView::Hash) {
        Some(t)
    } else if let Some((c, e)) = char_literal_at(s, p) {
        Some((TokenView::Character(c), e))
    } else if has_prefix(s, p, seq![34u8]) && string_body_end(s, p + 1) is Some {
        let e = string_body_end(s, p + 1).unwrap();
        Some((TokenView::String(s.subrange(p + 1, e)), e + 1))
    } else if let Some(t) = single(s, p, 39, TokenView::Quote) {
        Some(t)
    } else if let Some(t) = single(s, p, 46, TokenView::Dot) {
        Some(t)
    } else if let Some((n, e)) = number_at(s, p) {
        Some((TokenView::Number(n), e))
    } else if let Some((r, e)) = register_at(s, p) {
        Some((TokenView::Register(r), e))
    } else if let Some(t) = single(s, p, 91, TokenView::OpenBracket) {
        Some(t)
    } else if let Some(t) = single(s, p, 93, TokenView::CloseBracket) {
        Some(t)
    } else if let Some(t) = single(s, p, 43, TokenView::Plus) {
        Some(t)
    } else if let Some(t) = single(s, p, 45, TokenView::Minus) {
        Some(t)
    } else if has_prefix(s, p, seq![59u8]) && line_feed_at_or_after(s, p + 1) is Some {
        let e = line_feed_at_or_after(s, p + 1).unwrap();
        Some((TokenView::Comment(s.subrange(p, e)), e))
    } else if let Some(e) = identifier_end(s, p) {
        Some((TokenView::Identifier(s.subrange(p, e)), e))
    } else if let Some(t) = single(s, p, 36, TokenView::Cash) {
        Some(t)
    } else if let Some(t) = single(s, p, 44, TokenView::Comma) {
        Some(t)
    } else if let Some(t) = single(s, p, 10, TokenView::Newline) {
        Some(t)
    } else if has_prefix(s, p, seq![13u8, 10u8]) {
        Some((TokenView::Newline, p + 2))
    } else {
        None
    }
}

/// The tokens read one after the other from `p`, and where reading stopped.
pub open spec fn tokens_from(s: Seq<u8>, p: int) -> (Seq<TokenView>, int)
    decreases s.len() - p,
{
    if p < 0 || p > s.len() {
        (Seq::empty(), p)
    } else {
        match token_at(s, p) {
            Some((t, e)) => if p < e <= s.len() {
                let (rest, stop) = tokens_from(s, e);
                (seq![t] + rest, stop)
            } else {
                (Seq::empty(), p)
            },
            None => (Seq::empty(), p),
        }
    }
}

/// All the tokens of `s`, or where the input that no token matches starts.
pub open spec fn tokenized(s: Seq<u8>) -> Result<Seq<TokenView>, int> {
    let (toks, stop) = tokens_from(s, 0);
    let end = run_end(s, stop, multispace_class());
    if end == s.len() {
        Ok(toks)
    } else {
        Err(end)
    }
}

fn starts_with(s: &[u8], p: usize, lit: &[u8]) -> (r: bool)
    requires
        p <= s@.len(),
    ensures
        r == has_prefix(s@, p as int, lit@),
        r ==> p + lit@.len() <= s@.len(),
{
    if lit.len() > s.len() - p {
        return false;
    }
    let mut i: usize = 0;
    while i < lit.len()
        invariant
            p + lit@.len() <= s@.len(),
            s@.len() == s.len(),
            lit@.len() == lit.len(),
            0 <= i <= lit@.len(),
            forall|j: int| 0 <= j < i ==> s@[p + j] == lit@[j],
        decreases lit@.len() - i,
    {
        if s[p + i] != lit[i] {
            assert(s@.subrange(p as int, p + lit@.len())[i as int] != lit@[i as int]);
            return false;
        }
        i = i + 1;
    }
    assert(s@.subrange(p as int, p + lit@.len()) =~= lit@);
    true
}

fn named_register(s: &[u8], p: usize) -> (r: Option<(u8, usize)>)
    requires
        p <= s@.len(),
    ensures
        r == named_register_at(s@, p as int),
        r matches Some((_, len)) ==> p + len <= s@.len(),
{
    let name = [78u8, 73u8, 76u8];
    assert(name@ =~= seq![78u8, 73u8, 76u8]);
    if starts_with(s, p, name.as_slice()) {
        return Some((246, 3));
    }
    let name = [84u8];
    assert(name@ =~= seq![84u8]);
    if starts_with(s, p, name.as_slice()) {
        return Some((247, 1));
    }
    let name = [67u8, 79u8, 78u8, 83u8, 95u8, 69u8, 78u8, 68u8];
    assert(name@ =~= seq![67u8, 79u8, 78u8, 83u8, 95u8, 69u8, 78u8, 68u8]);
    if starts_with(s, p, name.as_slice()) {
        return Some((249, 8));
    }
    let name = [67u8, 79u8, 78u8, 83u8, 95u8, 70u8, 82u8, 69u8, 69u8];
    assert(name@ =~= seq![67u8, 79u8, 78u8, 83u8, 95u8, 70u8, 82u8, 69u8, 69u8]);
    if starts_with(s, p, name.as_slice()) {
        return Some((248, 9));
    }
    let name = [71u8, 69u8, 78u8, 95u8, 69u8, 78u8, 68u8];
    assert(name@ =~= seq![71u8, 69u8, 78u8, 95u8, 69u8, 78u8, 68u8]);
    if starts_with(s, p, name.as_slice()) {
        return Some((251, 7));
    }
    let name = [71u8, 69u8, 78u8, 95u8, 70u8, 82u8, 69u8, 69u8];
    assert(name@ =~= seq![71u8, 69u8, 78u8, 95u8, 70u8, 82u8, 69u8, 69u8]);
    if starts_with(s, p, name.as_slice()) {
        return Some((250, 8));
    }
    let name = [80u8, 67u8];
    assert(name@ =~= seq![80u8, 67u8]);
    if starts_with(s, p, name.as_slice()) {
        return Some((254, 2));
    }
    let name = [70u8, 80u8];
    assert(name@ =~= seq![70u8, 80u8]);
    if starts_with(s, p, name.as_slice()) {
        return Some((252, 2));
    }
    let name = [83u8, 80u8];
    assert(name@ =~= seq![83u8, 80u8]);
    if starts_with(s, p, name.as_slice()) {
        return Some((253, 2));
    }
    let name = [86u8, 66u8, 82u8];
    assert(name@ =~= seq![86u8, 66u8, 82u8]);
    if starts_with(s, p, name.as_slice()) {
        return Some((255, 3));
    }
    let name = [65u8, 48u8];
    assert(name@ =~= seq![65u8, 48u8]);
    if starts_with(s, p, name.as_slice()) {
        return Some((226, 2));
    }
    let name = [65u8, 49u8];
    assert(name@ =~= seq![65u8, 49u8]);
    if starts_with(s, p, name.as_slice()) {
        return Some((227, 2));
    }
    let name = [65u8, 50u8];
    assert(name@ =~= seq![65u8, 50u8]);
    if starts_with(s, p, name.as_slice()) {
        return Some((228, 2));
    }
    let name = [65u8, 51u8];
    assert(name@ =~= seq![65u8, 51u8]);
    if starts_with(s, p, name.as_slice()) {
        return Some((229, 2));
    }
    let name = [65u8, 52u8];
    assert(name@ =~= seq![65u8, 52u8]);
    if starts_with(s, p, name.as_slice()) {
        return Some((230, 2));
    }
    let name = [65u8, 53u8];
    assert(name@ =~= seq![65u8, 53u8]);
    if starts_with(s, p, name.as_slice()) {
        return Some((231, 2));
    }
    let name = [65u8, 54u8];
    assert(name@ =~= seq![65u8, 54u8]);
    if starts_with(s, p, name.as_slice()) {
        return Some((232, 2));
    }
    let name = [65u8, 55u8];
    assert(name@ =~= seq![65u8, 55u8]);
    if starts_with(s, p, name.as_slice()) {
        return Some((233, 2));
    }
    let name = [65u8, 78u8];
    assert(name@ =~= seq![65u8, 78u8]);
    if starts_with(s, p, name.as_slice()) {
        return Some((234, 2));
    }
    let name = [82u8, 48u8];
    assert(name@ =~= seq![82u8, 48u8]);
    if starts_with(s, p, name.as_slice()) {
        return Some((235, 2));
    }
    let name = [82u8, 49u8];
    assert(name@ =~= seq![82u8, 49u8]);
    if starts_with(s, p, name.as_slice()) {
        return Some((236, 2));
    }
    let name = [82u8, 50u8];
    assert(name@ =~= seq![82u8, 50u8]);
    if starts_with(s, p, name.as_slice()) {
        return Some((237, 2));
    }
    let name = [82u8, 51u8];
    assert(name@ =~= seq![82u8, 51u8]);
    if starts_with(s, p, name.as_slice()) {
        return Some((238, 2));
    }
    let name = [82u8, 78u8];
    assert(name@ =~= seq![82u8, 78u8]);
    if starts_with(s, p, name.as_slice()) {
        return Some((239, 2));
    }
    let name = [82u8, 88u8];
    assert(name@ =~= seq![82u8, 88u8]);
    if starts_with(s, p, name.as_slice()) {
        return Some((240, 2));
    }
    None
}



/// What [`run_end`] finds: a run of `class` bytes, ended by the end of input or a byte
/// outside `class`.
pub proof fn lemma_run_end(s: Seq<u8>, p: int, class: spec_fn(u8) -> bool)
    requires
        0 <= p <= s.len(),
    ensures
        p <= run_end(s, p, class) <= s.len(),
        forall|k: int| p <= k < run_end(s, p, class) ==> class(s[k]),
        run_end(s, p, class) < s.len() ==> !class(s[run_end(s, p, class)]),
    decreases s.len() - p,
{
    if p < s.len() && class(s[p]) {
        lemma_run_end(s, p + 1, class);
    }
}

fn spaces_end(s: &[u8], p: usize) -> (r: usize)
    requires
        p <= s@.len(),
    ensures
        r == run_end(s@, p as int, space_class()),
{
    let mut i = p;
    while i < s.len() && (s[i] == 32 || s[i] == 9)
        invariant
            p <= i <= s@.len(),
            run_end(s@, p as int, space_class()) == run_end(s@, i as int, space_class()),
        decreases s@.len() - i,
    {
        i = i + 1;
    }
    i
}

fn multispaces_end(s: &[u8], p: usize) -> (r: usize)
    requires
        p <= s@.len(),
    ensures
        r == run_end(s@, p as int, multispace_class()),
{
    let mut i = p;
    while i < s.len() && (s[i] == 32 || s[i] == 9 || s[i] == 13 || s[i] == 10)
        invariant
            p <= i <= s@.len(),
            run_end(s@, p as int, multispace_class()) == run_end(s@, i as int, multispace_class()),
        decreases s@.len() - i,
    {
        i = i + 1;
    }
    i
}

fn digits_end(s: &[u8], p: usize) -> (r: usize)
    requires
        p <= s@.len(),
    ensures
        r == run_end(s@, p as int, digit_class()),
{
    let mut i = p;
    while i < s.len() && 48 <= s[i] && s[i] <= 57
        invariant
            p <= i <= s@.len(),
            run_end(s@, p as int, digit_class()) == run_end(s@, i as int, digit_class()),
        decreases s@.len() - i,
    {
        i = i + 1;
    }
    i
}

fn is_hex_digit_exec(c: u8) -> (r: bool)
    ensures
        r == is_hex_digit(c),
{
    (48 <= c && c <= 57) || (65 <= c && c <= 70) || (97 <= c && c <= 102)
}

fn hex_digits_end(s: &[u8], p: usize) -> (r: usize)
    requires
        p <= s@.len(),
    ensures
        r == run_end(s@, p as int, hex_digit_class()),
{
    let mut i = p;
    while i < s.len() && is_hex_digit_exec(s[i])
        invariant
            p <= i <= s@.len(),
            run_end(s@, p as int, hex_digit_class()) == run_end(s@, i as int, hex_digit_class()),
        decreases s@.len() - i,
    {
        i = i + 1;
    }
    i
}

fn is_alpha_exec(c: u8) -> (r: bool)
    ensures
        r == is_alpha(c),
{
    (65 <= c && c <= 90) || (97 <= c && c <= 122)
}

fn is_alphanum_exec(c: u8) -> (r: bool)
    ensures
        r == is_alphanum(c),
{
    is_alpha_exec(c) || (48 <= c && c <= 57)
}

fn identifier_rest_end(s: &[u8], p: usize) -> (r: usize)
    requires
        p <= s@.len(),
    ensures
        r == run_end(s@, p as int, identifier_class()),
{
    let mut i = p;
    while i < s.len() && (is_alphanum_exec(s[i]) || s[i] == 45 || s[i] == 95)
        invariant
            p <= i <= s@.len(),
            run_end(s@, p as int, identifier_class()) == run_end(s@, i as int, identifier_class()),
        decreases s@.len() - i,
    {
        i = i + 1;
    }
    i
}

/// A run of decimal digits at `p` that fits an `i64`.
fn decimal(s: &[u8], p: usize) -> (r: Option<(i64, usize)>)
    requires
        p <= s@.len(),
    ensures
        match r {
            Some((v, e)) => decimal_at(s@, p as int) == Some((v, e as int)),
            None => decimal_at(s@, p as int) is None,
        },
{
    let e = digits_end(s, p);
    proof {
        lemma_run_end(s@, p as int, digit_class());
    }
    if e == p {
        return None;
    }
    let mut acc: u64 = 0;
    let mut over = false;
    let mut i = p;
    while i < e
        invariant
            p <= i <= e <= s@.len(),
            forall|k: int| p <= k < e ==> is_digit(s@[k]),
            decimal_value(s@, p as int, i as int) >= 0,
            !over ==> acc == decimal_value(s@, p as int, i as int) && acc <= i64::MAX,
            over ==> decimal_value(s@, p as int, i as int) > i64::MAX,
        decreases e - i,
    {
        let d = (s[i] - 48) as u128;
        if !over {
            let next = (acc as u128) * 10 + d;
            if next > 0x7fff_ffff_ffff_ffff {
                over = true;
            } else {
                acc = next as u64;
            }
        }
        i = i + 1;
    }
    if over {
        None
    } else {
        Some((acc as i64, e))
    }
}

/// `0x` and hexadecimal digits that fit a `u64`.
fn hex(s: &[u8], p: usize) -> (r: Option<(i64, usize)>)
    requires
        p <= s@.len(),
    ensures
        match r {
            Some((v, e)) => hex_at(s@, p as int) == Some((v, e as int)),
            None => hex_at(s@, p as int) is None,
        },
{
    assert(s@.len() == s.len());
    let prefix = [48u8, 120u8];
    assert(prefix@ =~= seq![48u8, 120u8]);
    if !starts_with(s, p, prefix.as_slice()) {
        return None;
    }
    let start = p + 2;
    let e = hex_digits_end(s, start);
    proof {
        lemma_run_end(s@, start as int, hex_digit_class());
    }
    if e == start {
        return None;
    }
    let mut acc: u64 = 0;
    let mut over = false;
    let mut i = start;
    while i < e
        invariant
            start <= i <= e <= s@.len(),
            forall|k: int| start <= k < e ==> is_hex_digit(s@[k]),
            hex_number(s@, start as int, i as int) >= 0,
            !over ==> acc == hex_number(s@, start as int, i as int),
            over ==> hex_number(s@, start as int, i as int) > u64::MAX,
        decreases e - i,
    {
        let c = s[i];
        let h: u128 = if 48 <= c && c <= 57 {
            (c - 48) as u128
        } else if 65 <= c && c <= 70 {
            (c - 55) as u128
        } else {
            (c - 87) as u128
        };
        if !over {
            let next = (acc as u128) * 16 + h;
            if next > 0xffff_ffff_ffff_ffff {
                over = true;
            } else {
                acc = next as u64;
            }
        }
        i = i + 1;
    }
    if over {
        None
    } else {
        Some((acc as i64, e))
    }
}

fn number(s: &[u8], p: usize) -> (r: Option<(i64, usize)>)
    requires
        p <= s@.len(),
    ensures
        match r {
            Some((v, e)) => number_at(s@, p as int) == Some((v, e as int)),
            None => number_at(s@, p as int) is None,
        },
{
    match hex(s, p) {
        Some(r) => Some(r),
        None => decimal(s, p),
    }
}

fn register(s: &[u8], p: usize) -> (r: Option<(Register, usize)>)
    requires
        p <= s@.len(),
    ensures
        match r {
            Some((reg, e)) => register_at(s@, p as int) == Some((reg.0, e as int)),
            None => register_at(s@, p as int) is None,
        },
{
    assert(s@.len() == s.len());
    let found: Option<(u8, usize)> = match named_register(s, p) {
        Some((r, len)) => Some((r, p + len)),
        None => {
            let v = [86u8];
            assert(v@ =~= seq![86u8]);
            if starts_with(s, p, v.as_slice()) {
                match decimal(s, p + 1) {
                    Some((n, e)) => Some((n as u8, e)),
                    None => None,
                }
            } else {
                None
            }
        },
    };
    match found {
        Some((r, e)) => {
            if e < s.len() && !is_alphanum_exec(s[e]) {
                Some((Register(r), e))
            } else {
                None
            }
        },
        None => None,
    }
}

fn identifier(s: &[u8], p: usize) -> (r: Option<usize>)
    requires
        p <= s@.len(),
    ensures
        match r {
            Some(e) => identifier_end(s@, p as int) == Some(e as int),
            None => identifier_end(s@, p as int) is None,
        },
{
    if p < s.len() && (is_alpha_exec(s[p]) || s[p] == 95) {
        Some(identifier_rest_end(s, p + 1))
    } else {
        None
    }
}

fn line_feed(s: &[u8], p: usize) -> (r: Option<usize>)
    requires
        p <= s@.len(),
    ensures
        match r {
            Some(e) => line_feed_at_or_after(s@, p as int) == Some(e as int),
            None => line_feed_at_or_after(s@, p as int) is None,
        },
{
    let mut i = p;
    while i < s.len()
        invariant
            p <= i <= s@.len(),
            line_feed_at_or_after(s@, p as int) == line_feed_at_or_after(s@, i as int),
        decreases s@.len() - i,
    {
        if s[i] == 10 {
            return Some(i);
        }
        i = i + 1;
    }
    None
}

fn string_end(s: &[u8], p: usize) -> (r: Option<usize>)
    requires
        p <= s@.len(),
    ensures
        match r {
            Some(e) => string_body_end(s@, p as int) == Some(e as int),
            None => string_body_end(s@, p as int) is None,
        },
{
    let mut i = p;
    while i < s.len()
        invariant
            p <= i <= s@.len() + 1,
            string_body_end(s@, p as int) == string_body_end(s@, i as int),
        decreases s@.len() + 1 - i,
    {
        if s[i] == 34 {
            return Some(i);
        } else if s[i] == 92 {
            if i + 1 < s.len() {
                i = i + 2;
            } else {
                return None;
            }
        } else {
            i = i + 1;
        }
    }
    None
}

fn char_at_exec(s: &[u8], p: usize) -> (r: Option<(u8, usize)>)
    requires
        p <= s@.len(),
    ensures
        match r {
            Some((c, e)) => char_at(s@, p as int) == Some((c, e as int)),
            None => char_at(s@, p as int) is None,
        },
{
    if p >= s.len() {
        return None;
    }
    let lead = s[p];
    let w: usize = if lead < 0x80 {
        1
    } else if lead < 0xe0 {
        2
    } else if lead < 0xf0 {
        3
    } else {
        4
    };
    if w > s.len() - p {
        return None;
    }
    if w == 1 {
        Some((lead, p + 1))
    } else {
        Some(((s[p + w - 1] & 0x3f) | ((s[p + w - 2] & 0x03) << 6u8), p + w))
    }
}

fn char_literal(s: &[u8], p: usize) -> (r: Option<(u8, usize)>)
    requires
        p <= s@.len(),
    ensures
        match r {
            Some((c, e)) => char_literal_at(s@, p as int) == Some((c, e as int)),
            None => char_literal_at(s@, p as int) is None,
        },
{
    assert(s@.len() == s.len());
    let backslash = [92u8];
    assert(backslash@ =~= seq![92u8]);
    if !starts_with(s, p, backslash.as_slice()) {
        return None;
    }
    let space = [83u8, 112u8, 97u8, 99u8, 101u8];
    assert(space@ =~= seq![83u8, 112u8, 97u8, 99u8, 101u8]);
    let newline = [78u8, 101u8, 119u8, 108u8, 105u8, 110u8, 101u8];
    assert(newline@ =~= seq![78u8, 101u8, 119u8, 108u8, 105u8, 110u8, 101u8]);
    if starts_with(s, p + 1, space.as_slice()) {
        Some((32, p + 6))
    } else if starts_with(s, p + 1, newline.as_slice()) {
        Some((10, p + 8))
    } else {
        char_at_exec(s, p + 1)
    }
}

fn single_token<'a>(s: &'a [u8], p: usize, c: u8, t: AssemblyToken<'a>) -> (r: Option<(AssemblyToken<'a>, usize)>)
    requires
        p <= s@.len(),
    ensures
        match r {
            Some((tok, e)) => single(s@, p as int, c, t@) == Some((tok@, e as int)),
            None => single(s@, p as int, c, t@) is None,
        },
{
    if p < s.len() && s[p] == c {
        Some((t, p + 1))
    } else {
        None
    }
}


/// The token at `pos` (after spaces and tabs) and where it ends.
fn token<'a>(s: &'a [u8], pos: usize) -> (r: Option<(AssemblyToken<'a>, usize)>)
    requires
        pos <= s@.len(),
    ensures
        match r {
            Some((tok, e)) => token_at(s@, pos as int) == Some((tok@, e as int)),
            None => token_at(s@, pos as int) is None,
        },
{
    assert(s@.len() == s.len());
    let p = spaces_end(s, pos);
    proof {
        lemma_run_end(s@, pos as int, space_class());
    }
    if let Some(t) = single_token(s, p, 58, AssemblyToken::Colon) {
        return Some(t);
    }
    if let Some(t) = single_token(s, p, 33, AssemblyToken::Bang) {
        return Some(t);
    }
    if let Some(t) = single_token(s, p, 35, AssemblyToken::Hash) {
        return Some(t);
    }
    if let Some((c, e)) = char_literal(s, p) {
        return Some((AssemblyToken::Character(c), e));
    }
    let quote = [34u8];
    assert(quote@ =~= seq![34u8]);
    if starts_with(s, p, quote.as_slice()) {
        if let Some(e) = string_end(s, p + 1) {
            proof {
                lemma_string_body_end(s@, p + 1);
            }
            return Some((AssemblyToken::String(slice_range(s, p + 1, e)), e + 1));
        }
    }
    if let Some(t) = single_token(s, p, 39, AssemblyToken::Quote) {
        return Some(t);
    }
    if let Some(t) = single_token(s, p, 46, AssemblyToken::Dot) {
        return Some(t);
    }
    if let Some((n, e)) = number(s, p) {
        return Some((AssemblyToken::Number(n), e));
    }
    if let Some((r, e)) = register(s, p) {
        return Some((AssemblyToken::Register(r), e));
    }
    if let Some(t) = single_token(s, p, 91, AssemblyToken::OpenBracket) {
        return Some(t);
    }
    if let Some(t) = single_token(s, p, 93, AssemblyToken::CloseBracket) {
        return Some(t);
    }
    if let Some(t) = single_token(s, p, 43, AssemblyToken::Plus) {
        return Some(t);
    }
    if let Some(t) = single_token(s, p, 45, AssemblyToken::Minus) {
        return Some(t);
    }
    let semicolon = [59u8];
    assert(semicolon@ =~= seq![59u8]);
    if starts_with(s, p, semicolon.as_slice()) {
        if let Some(e) = line_feed(s, p + 1) {
            proof {
                lemma_line_feed(s@, p + 1);
            }
            return Some((AssemblyToken::Comment(slice_range(s, p, e)), e));
        }
    }
    if let Some(e) = identifier(s, p) {
        proof {
            lemma_run_end(s@, p + 1, identifier_class());
        }
        return Some((AssemblyToken::Identifier(slice_range(s, p, e)), e));
    }
    if let Some(t) = single_token(s, p, 36, AssemblyToken::Cash) {
        return Some(t);
    }
    if let Some(t) = single_token(s, p, 44, AssemblyToken::Comma) {
        return Some(t);
    }
    if let Some(t) = single_token(s, p, 10, AssemblyToken::Newline) {
        return Some(t);
    }
    let crlf = [13u8, 10u8];
    assert(crlf@ =~= seq![13u8, 10u8]);
    if starts_with(s, p, crlf.as_slice()) {
        return Some((AssemblyToken::Newline, p + 2));
    }
    None
}

/// Where a closing quote that [`string_body_end`] finds can stand.
proof fn lemma_string_body_end(s: Seq<u8>, p: int)
    requires
        string_body_end(s, p) is Some,
    ensures
        p <= string_body_end(s, p).unwrap() < s.len(),
    decreases s.len() - p,
{
    if p >= 0 && p < s.len() && s[p] != 34 {
        if s[p] == 92 {
            lemma_string_body_end(s, p + 2);
        } else {
            lemma_string_body_end(s, p + 1);
        }
    }
}

/// Where a line feed that [`line_feed_at_or_after`] finds can stand.
proof fn lemma_line_feed(s: Seq<u8>, p: int)
    requires
        line_feed_at_or_after(s, p) is Some,
    ensures
        p <= line_feed_at_or_after(s, p).unwrap() < s.len(),
    decreases s.len() - p,
{
    if p >= 0 && p < s.len() && s[p] != 10 {
        lemma_line_feed(s, p + 1);
    }
}

/// The bytes `s[a..b]`.
fn slice_range<'a>(s: &'a [u8], a: usize, b: usize) -> (r: &'a [u8])
    requires
        a <= b <= s@.len(),
    ensures
        r@ == s@.subrange(a as int, b as int),
{
    let (front, _) = s.split_at(b);
    let (_, back) = front.split_at(a);
    back
}

/// Splits assembly source into tokens; fails with the rest of the input where no
/// token matches.
pub fn tokenize<'a>(input: &'a str) -> (r: Result<Vec<AssemblyToken<'a>>, TokenizeError<'a>>)
    ensures
        match r {
            Ok(tokens) => tokenized(input.spec_bytes()) == Ok::<Seq<TokenView>, int>(
                tokens@.map_values(|t: AssemblyToken<'a>| t@),
            ),
            Err(TokenizeError::UnexpectedInput { remaining }) => exists|k: int|
                tokenized(input.spec_bytes()) == Err::<Seq<TokenView>, int>(k)
                    && remaining@ == input.spec_bytes().subrange(k, input.spec_bytes().len() as int),
        },
{
    tokenize_bytes(input.as_bytes())
}

/// [`tokenize`] on the bytes of the source.
pub fn tokenize_bytes<'a>(s: &'a [u8]) -> (r: Result<Vec<AssemblyToken<'a>>, TokenizeError<'a>>)
    ensures
        match r {
            Ok(tokens) => tokenized(s@) == Ok::<Seq<TokenView>, int>(
                tokens@.map_values(|t: AssemblyToken<'a>| t@),
            ),
            Err(TokenizeError::UnexpectedInput { remaining }) => exists|k: int|
                tokenized(s@) == Err::<Seq<TokenView>, int>(k)
                    && remaining@ == s@.subrange(k, s@.len() as int),
        },
{
    let mut tokens: Vec<AssemblyToken<'a>> = Vec::new();
    let mut p: usize = 0;
    loop
        invariant
            p <= s@.len(),
            tokens_from(s@, 0) == ({
                let (rest, stop) = tokens_from(s@, p as int);
                (tokens@.map_values(|t: AssemblyToken<'a>| t@) + rest, stop)
            }),
        ensures
            p <= s@.len(),
            tokens_from(s@, 0) == ({
                let (rest, stop) = tokens_from(s@, p as int);
                (tokens@.map_values(|t: AssemblyToken<'a>| t@) + rest, stop)
            }),
            tokens_from(s@, p as int) == (Seq::<TokenView>::empty(), p as int),
        decreases s@.len() - p,
    {
        match token(s, p) {
            Some((t, e)) => {
                if p < e && e <= s.len() {
                    proof {
                        let (rest, stop) = tokens_from(s@, e as int);
                        assert(tokens_from(s@, p as int) == (seq![t@] + rest, stop));
                        assert(tokens@.push(t).map_values(|t: AssemblyToken<'a>| t@)
                            =~= tokens@.map_values(|t: AssemblyToken<'a>| t@) + seq![t@]);
                        assert(tokens@.map_values(|t: AssemblyToken<'a>| t@) + seq![t@] + rest
                            =~= tokens@.map_values(|t: AssemblyToken<'a>| t@) + (seq![t@] + rest));
                    }
                    tokens.push(t);
                    p = e;
                } else {
                    break;
                }
            },
            None => {
                break;
            },
        }
    }
    proof {
        assert(tokens@.map_values(|t: AssemblyToken<'a>| t@) + Seq::<TokenView>::empty()
            =~= tokens@.map_values(|t: AssemblyToken<'a>| t@));
        lemma_run_end(s@, p as int, multispace_class());
    }
    let end = multispaces_end(s, p);
    if end == s.len() {
        Ok(tokens)
    } else {
        Err(TokenizeError::UnexpectedInput { remaining: slice_range(s, end, s.len()) })
    }
}

} // verus!
