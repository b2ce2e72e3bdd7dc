//! The size column: how a byte count is written, and what the written text
//! says when it is read back.

use crate::decimal::{
    decimal_text, decimal_value, digit_char, digit_value, lemma_decimal_round_trip, two_digits,
};
use vstd::prelude::*;
use vstd::string::*;

verus! {

/// How often `bytes` can be divided by 1024 before it falls below 1024: the
/// whole part of its logarithm to the base 1024.
pub open spec fn size_exponent(bytes: nat) -> nat
    decreases bytes,
{
    if bytes < 1024 {
        0
    } else {
        1 + size_exponent(bytes / 1024)
    }
}

/// The number of bytes in one unit: 1024 to the power `exp`.
pub open spec fn unit_size(exp: nat) -> nat
    decreases exp,
{
    if exp == 0 {
        1
    } else {
        1024 * unit_size((exp - 1) as nat)
    }
}

/// The letter of each unit, in the order of the unit table.
pub open spec fn unit_text(exp: nat) -> Seq<char> {
    if exp == 0 {
        "B"@
    } else if exp == 1 {
        "K"@
    } else if exp == 2 {
        "M"@
    } else if exp == 3 {
        "G"@
    } else if exp == 4 {
        "T"@
    } else if exp == 5 {
        "P"@
    } else if exp == 6 {
        "Y"@
    } else {
        "E"@
    }
}

/// The place in the unit table that a byte count is shown in.
pub open spec fn size_unit(bytes: nat) -> nat {
    if size_exponent(bytes) > 7 {
        7
    } else {
        size_exponent(bytes)
    }
}

/// `num / den` rounded to the nearest whole number, a tie to the even one.
pub open spec fn round_half_even(num: nat, den: nat) -> nat {
    let q = num / den;
    let r = num % den;
    if 2 * r > den || (2 * r == den && q % 2 == 1) {
        q + 1
    } else {
        q
    }
}

/// A byte count in hundredths of its unit, rounded.
pub open spec fn size_hundredths(bytes: nat) -> nat {
    round_half_even(100 * bytes, unit_size(size_unit(bytes)))
}

/// A byte count as a listing shows it: the count in its unit with two
/// decimal places (none for plain bytes), a space, the unit's letter and a
/// closing space. Zero is shown as `0.00 B `.
pub open spec fn size_text(bytes: nat) -> Seq<char> {
    if bytes == 0 {
        "0.00 B "@
    } else if size_unit(bytes) == 0 {
        decimal_text(bytes) + " "@ + unit_text(0) + " "@
    } else {
        let h = size_hundredths(bytes);
        decimal_text(h / 100) + "."@ + two_digits(h % 100) + " "@ + unit_text(size_unit(bytes))
            + " "@
    }
}

/// The place of a unit's letter in the unit table.
pub open spec fn unit_index(c: char) -> Option<nat> {
    if c == 'B' {
        Some(0)
    } else if c == 'K' {
        Some(1)
    } else if c == 'M' {
        Some(2)
    } else if c == 'G' {
        Some(3)
    } else if c == 'T' {
        Some(4)
    } else if c == 'P' {
        Some(5)
    } else if c == 'Y' {
        Some(6)
    } else if c == 'E' {
        Some(7)
    } else {
        None
    }
}

/// The hundredths that a decimal number with two decimal places, or with
/// none, amounts to.
pub open spec fn parse_hundredths(s: Seq<char>) -> Option<nat> {
    if s.len() >= 4 && s[s.len() - 3] == '.' {
        match (decimal_value(s.take(s.len() - 3)), decimal_value(s.skip(s.len() - 2))) {
            (Some(whole), Some(part)) => Some(100 * whole + part),
            _ => None,
        }
    } else {
        match decimal_value(s) {
            Some(whole) => Some(100 * whole),
            None => None,
        }
    }
}

/// What a size text says: an amount in hundredths of a unit, and the place
/// of that unit in the unit table. The text is a number, a space, the
/// unit's letter and a space.
pub open spec fn parse_size(text: Seq<char>) -> Option<(nat, nat)> {
    if text.len() < 4 || text[text.len() - 1] != ' ' || text[text.len() - 3] != ' ' {
        None
    } else {
        match (parse_hundredths(text.take(text.len() - 3)), unit_index(text[text.len() - 2])) {
            (Some(hundredths), Some(unit)) => Some((hundredths, unit)),
            _ => None,
        }
    }
}

/// Whether `hundredths` of the unit at place `unit` are `bytes` to within
/// half a hundredth of that unit.
pub open spec fn within_rounding(hundredths: nat, unit: nat, bytes: nat) -> bool {
    let exact = 100 * bytes;
    let shown = hundredths * unit_size(unit);
    2 * (shown - exact) <= unit_size(unit) && 2 * (exact - shown) <= unit_size(unit)
}

/// A written number holds digits only.
proof fn lemma_decimal_text_digits(n: nat)
    ensures
        forall|i: int| 0 <= i < decimal_text(n).len() ==> digit_value(#[trigger] decimal_text(n)[i]) is Some,
    decreases n,
{
    if n >= 10 {
        lemma_decimal_text_digits(n / 10);
    }
}

/// Each unit holds at least one byte.
proof fn lemma_unit_size_positive(exp: nat)
    ensures
        unit_size(exp) >= 1,
    decreases exp,
{
    if exp > 0 {
        lemma_unit_size_positive((exp - 1) as nat);
    }
}

/// Rounding moves a quotient by no more than a half.
proof fn lemma_round_half_even(num: nat, den: nat)
    requires
        den >= 1,
    ensures
        2 * (round_half_even(num, den) * den - num) <= den,
        2 * (num - round_half_even(num, den) * den) <= den,
{
    let q = num / den;
    vstd::arithmetic::div_mod::lemma_fundamental_div_mod(num as int, den as int);
    vstd::arithmetic::div_mod::lemma_mod_bound(num as int, den as int);
    assert((q + 1) * den == den * q + den) by (nonlinear_arith);
    assert(q * den == den * q) by (nonlinear_arith);
}

/// The letter of a unit leads back to its place in the table.
proof fn lemma_unit_text(exp: nat)
    ensures
        unit_text(exp).len() == 1,
        unit_index(unit_text(exp)[0]) == Some(if exp > 7 { 7 } else { exp }),
{
    reveal_strlit("B");
    reveal_strlit("K");
    reveal_strlit("M");
    reveal_strlit("G");
    reveal_strlit("T");
    reveal_strlit("P");
    reveal_strlit("Y");
    reveal_strlit("E");
}

/// Reading a size text gives the byte count back to within the rounding:
/// the text of every byte count parses, its unit is the one that the count
/// was shown in, and its amount differs from the count by no more than
/// half a hundredth of that unit. A count shown in plain bytes comes back
/// exactly.
pub proof fn lemma_size_round_trip(bytes: nat)
    ensures
        parse_size(size_text(bytes)) matches Some((hundredths, unit)) && unit == size_unit(bytes)
            && within_rounding(hundredths, unit, bytes) && (unit == 0 ==> hundredths == 100
            * bytes),
{
    reveal_strlit(" ");
    reveal_strlit(".");
    reveal_strlit("0.00 B ");
    let text = size_text(bytes);
    let unit = size_unit(bytes);
    lemma_unit_text(unit);
    lemma_unit_size_positive(unit);
    if bytes == 0 {
        let number = text.take(text.len() - 3);
        assert(number.skip(2).drop_last() =~= seq!['0']);
    } else if unit == 0 {
        let digits = decimal_text(bytes);
        lemma_decimal_round_trip(bytes);
        lemma_decimal_text_digits(bytes);
        let number = text.take(text.len() - 3);
        assert(number =~= digits);
    } else {
        let h = size_hundredths(bytes);
        let whole = decimal_text(h / 100);
        let part = two_digits(h % 100);
        lemma_decimal_round_trip(h / 100);
        let number = text.take(text.len() - 3);
        assert(number.take(number.len() - 3) =~= whole);
        assert(number.skip(number.len() - 2) =~= part);
        assert(part.drop_last() =~= seq![digit_char((h % 100) / 10)]);
        assert(decimal_value(seq![digit_char((h % 100) / 10)]) == Some((h % 100) / 10));
        lemma_round_half_even(100 * bytes, unit_size(unit));
    }
}

} // verus!
