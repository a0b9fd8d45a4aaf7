//! Runtime numbers.
//!
//! A number value is the bit pattern of an IEEE-754 double-precision value,
//! held as a `u64`. The arithmetic itself is done by the `rustc_apfloat`
//! crate (a port of LLVM's software float implementation), reached through
//! the trusted wrappers below; each operation's result is a function of the
//! operand bit patterns alone, so each is given a name that the contracts
//! of the interpreter speak of.

use rustc_apfloat::Float;
use rustc_apfloat::ieee::Double;
use vstd::prelude::*;

verus! {

/// The bit pattern of the IEEE double sum `a + b` (round to nearest, ties to even).
pub uninterp spec fn dbl_add(a: u64, b: u64) -> u64;

/// The bit pattern of the IEEE double difference `a - b`.
pub uninterp spec fn dbl_sub(a: u64, b: u64) -> u64;

/// The bit pattern of the IEEE double product `a * b`.
pub uninterp spec fn dbl_mul(a: u64, b: u64) -> u64;

/// The bit pattern of the IEEE double quotient `a / b`.
pub uninterp spec fn dbl_div(a: u64, b: u64) -> u64;

/// The bit pattern of the IEEE double negation `-a`.
pub uninterp spec fn dbl_neg(a: u64) -> u64;

/// Whether `a < b` as IEEE doubles (false when either is NaN).
pub uninterp spec fn dbl_lt(a: u64, b: u64) -> bool;

/// Whether `a <= b` as IEEE doubles (false when either is NaN).
pub uninterp spec fn dbl_le(a: u64, b: u64) -> bool;

/// Whether `a == b` as IEEE doubles (false when either is NaN; -0 equals +0).
pub uninterp spec fn dbl_eq(a: u64, b: u64) -> bool;

/// The IEEE double nearest to the decimal numeral written in `s`.
pub uninterp spec fn dbl_of_decimal(s: Seq<char>) -> u64;

/// The IEEE double nearest to the integer `n`.
pub uninterp spec fn dbl_of_int(n: u64) -> u64;

/// The decimal rendering of the IEEE double with bit pattern `a`.
pub uninterp spec fn dbl_render(a: u64) -> Seq<char>;

/// A decimal digit character.
pub open spec fn is_digit_char(c: char) -> bool {
    '0' <= c && c <= '9'
}

/// The shape of a numeric literal's source text: one or more digits, a
/// decimal point, and one or more digits.
pub open spec fn is_number_lexeme(s: Seq<char>) -> bool {
    exists |i: int|
        1 <= i && i + 1 < s.len() && s[i] == '.'
            && (forall |j: int| 0 <= j < i ==> is_digit_char(#[trigger] s[j]))
            && (forall |j: int| i < j < s.len() ==> is_digit_char(#[trigger] s[j]))
}

/// Relies on rustc_apfloat's `Add` for `ieee::Double`: correctly rounded
/// IEEE addition, a function of the operand bit patterns alone.
#[verifier::external_body]
pub fn dbl_add_bits(a: u64, b: u64) -> (r: u64)
    ensures
        r == dbl_add(a, b),
{
    let x = Double::from_bits(a as u128);
    let y = Double::from_bits(b as u128);
    (x + y).value.to_bits() as u64
}

/// Relies on rustc_apfloat's `Sub` for `ieee::Double`: correctly rounded
/// IEEE subtraction, a function of the operand bit patterns alone.
#[verifier::external_body]
pub fn dbl_sub_bits(a: u64, b: u64) -> (r: u64)
    ensures
        r == dbl_sub(a, b),
{
    let x = Double::from_bits(a as u128);
    let y = Double::from_bits(b as u128);
    (x - y).value.to_bits() as u64
}

/// Relies on rustc_apfloat's `Mul` for `ieee::Double`: correctly rounded
/// IEEE multiplication, a function of the operand bit patterns alone.
#[verifier::external_body]
pub fn dbl_mul_bits(a: u64, b: u64) -> (r: u64)
    ensures
        r == dbl_mul(a, b),
{
    let x = Double::from_bits(a as u128);
    let y = Double::from_bits(b as u128);
    (x * y).value.to_bits() as u64
}

/// Relies on rustc_apfloat's `Div` for `ieee::Double`: correctly rounded
/// IEEE division, a function of the operand bit patterns alone.
#[verifier::external_body]
pub fn dbl_div_bits(a: u64, b: u64) -> (r: u64)
    ensures
        r == dbl_div(a, b),
{
    let x = Double::from_bits(a as u128);
    let y = Double::from_bits(b as u128);
    (x / y).value.to_bits() as u64
}

/// Relies on rustc_apfloat's `Neg` for `ieee::Double`: IEEE negation,
/// a function of the operand bit pattern alone.
#[verifier::external_body]
pub fn dbl_neg_bits(a: u64) -> (r: u64)
    ensures
        r == dbl_neg(a),
{
    let x = Double::from_bits(a as u128);
    (-x).to_bits() as u64
}

/// Relies on rustc_apfloat's `PartialOrd` for `ieee::Double`: the IEEE
/// ordering, in which a NaN compares with nothing.
#[verifier::external_body]
pub fn dbl_lt_bits(a: u64, b: u64) -> (r: bool)
    ensures
        r == dbl_lt(a, b),
{
    let x = Double::from_bits(a as u128);
    let y = Double::from_bits(b as u128);
    x < y
}

/// Relies on rustc_apfloat's `PartialOrd` for `ieee::Double`: the IEEE
/// ordering, in which a NaN compares with nothing.
#[verifier::external_body]
pub fn dbl_le_bits(a: u64, b: u64) -> (r: bool)
    ensures
        r == dbl_le(a, b),
{
    let x = Double::from_bits(a as u128);
    let y = Double::from_bits(b as u128);
    x <= y
}

/// Relies on rustc_apfloat's `PartialEq` for `ieee::Double`: IEEE equality,
/// under which NaN equals nothing and -0 equals +0.
#[verifier::external_body]
pub fn dbl_eq_bits(a: u64, b: u64) -> (r: bool)
    ensures
        r == dbl_eq(a, b),
{
    let x = Double::from_bits(a as u128);
    let y = Double::from_bits(b as u128);
    x == y
}

/// Relies on rustc_apfloat's `FromStr` for `ieee::Double`: the correctly
/// rounded value of a decimal numeral, a function of the text alone.
/// A text of the digits-point-digits shape is always accepted.
#[verifier::external_body]
pub fn dbl_parse_bits(s: &str) -> (r: u64)
    requires
        is_number_lexeme(s@),
    ensures
        r == dbl_of_decimal(s@),
{
    match s.parse::<Double>() {
        Result::Ok(d) => d.to_bits() as u64,
        Result::Err(_) => 0,
    }
}

/// Relies on rustc_apfloat's `Float::from_u128`: the correctly rounded
/// IEEE double nearest to an integer, a function of the integer alone.
#[verifier::external_body]
pub fn dbl_of_int_bits(n: u64) -> (r: u64)
    ensures
        r == dbl_of_int(n),
{
    Double::from_u128(n as u128).value.to_bits() as u64
}

/// Relies on rustc_apfloat's `Display` for `ieee::Double`: a decimal
/// rendering of the value, a function of the bit pattern alone.
#[verifier::external_body]
pub fn dbl_render_bits(a: u64) -> (r: String)
    ensures
        r@ == dbl_render(a),
{
    let x = Double::from_bits(a as u128);
    format!("{}", x)
}

/// The digit character for `d < 10`.
pub open spec fn digit_char(d: nat) -> char {
    if d == 0 { '0' }
    else if d == 1 { '1' }
    else if d == 2 { '2' }
    else if d == 3 { '3' }
    else if d == 4 { '4' }
    else if d == 5 { '5' }
    else if d == 6 { '6' }
    else if d == 7 { '7' }
    else if d == 8 { '8' }
    else { '9' }
}

/// The decimal numeral of `n`, most significant digit first.
pub open spec fn dec_seq(n: nat) -> Seq<char>
    decreases n,
{
    if n < 10 {
        seq![digit_char(n)]
    } else {
        dec_seq(n / 10).push(digit_char(n % 10))
    }
}

/// The one-character string for a digit.
fn digit_str(d: usize) -> (r: &'static str)
    requires
        d < 10,
    ensures
        r@ == seq![digit_char(d as nat)],
{
    proof {
        reveal_strlit("0");
        reveal_strlit("1");
        reveal_strlit("2");
        reveal_strlit("3");
        reveal_strlit("4");
        reveal_strlit("5");
        reveal_strlit("6");
        reveal_strlit("7");
        reveal_strlit("8");
        reveal_strlit("9");
    }
    let r = if d == 0 { "0" }
    else if d == 1 { "1" }
    else if d == 2 { "2" }
    else if d == 3 { "3" }
    else if d == 4 { "4" }
    else if d == 5 { "5" }
    else if d == 6 { "6" }
    else if d == 7 { "7" }
    else { "9" };
    let r = if d == 8 { "8" } else { r };
    proof {
        assert(r@ =~= seq![digit_char(d as nat)]);
    }
    r
}

/// Renders `n` as a decimal numeral.
pub fn usize_to_string(n: usize) -> (r: String)
    ensures
        r@ == dec_seq(n as nat),
    decreases n,
{
    if n < 10 {
        let r = String::from_str(digit_str(n));
        proof {
            assert(r@ =~= dec_seq(n as nat));
        }
        r
    } else {
        let mut r = usize_to_string(n / 10);
        r.append(digit_str(n % 10));
        proof {
            assert(r@ =~= dec_seq(n as nat));
        }
        r
    }
}

} // verus!
