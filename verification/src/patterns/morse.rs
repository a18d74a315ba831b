//! Morse code patterns.
//!
//! * Dots are represented by `10` (one step on, one off).
//! * Dashes are represented by `110` (two steps on, one off).
//!
//! Each literal below reads left to right in play order, dots and dashes
//! concatenated in the letter's order.

use vstd::prelude::*;

use crate::pattern::is_from_raw;
use crate::pattern::Pattern;

verus! {

/// A single dot: `10`.
pub fn dot() -> (r: Pattern)
    ensures
        is_from_raw(r, 0b10, 2),
{
    Pattern::from_u32(0b10, 2)
}

/// A single dash: `110`.
pub fn dash() -> (r: Pattern)
    ensures
        is_from_raw(r, 0b110, 3),
{
    Pattern::from_u32(0b110, 3)
}

/// `A` (dot dash).
pub fn a() -> (r: Pattern)
    ensures
        is_from_raw(r, 0b10_110, 5),
{
    Pattern::from_u32(0b10_110, 5)
}

/// `B` (dash dot dot dot).
pub fn b() -> (r: Pattern)
    ensures
        is_from_raw(r, 0b110_10_10_10, 9),
{
    Pattern::from_u32(0b110_10_10_10, 9)
}

/// `C` (dash dot dash dot).
pub fn c() -> (r: Pattern)
    ensures
        is_from_raw(r, 0b110_10_110_10, 10),
{
    Pattern::from_u32(0b110_10_110_10, 10)
}

/// `D` (dash dot dot).
pub fn d() -> (r: Pattern)
    ensures
        is_from_raw(r, 0b110_10_10, 7),
{
    Pattern::from_u32(0b110_10_10, 7)
}

/// `E` (dot).
pub fn e() -> (r: Pattern)
    ensures
        is_from_raw(r, 0b10, 2),
{
    Pattern::from_u32(0b10, 2)
}

/// `F` (dot dot dash dot).
pub fn f() -> (r: Pattern)
    ensures
        is_from_raw(r, 0b10_10_110_10, 9),
{
    Pattern::from_u32(0b10_10_110_10, 9)
}

/// `G` (dash dash dot).
pub fn g() -> (r: Pattern)
    ensures
        is_from_raw(r, 0b110_110_10, 8),
{
    Pattern::from_u32(0b110_110_10, 8)
}

/// `H` (dot dot dot dot).
pub fn h() -> (r: Pattern)
    ensures
        is_from_raw(r, 0b10_10_10_10, 8),
{
    Pattern::from_u32(0b10_10_10_10, 8)
}

/// `I` (dot dot).
pub fn i() -> (r: Pattern)
    ensures
        is_from_raw(r, 0b10_10, 4),
{
    Pattern::from_u32(0b10_10, 4)
}

/// `J` (dot dash dash dash).
pub fn j() -> (r: Pattern)
    ensures
        is_from_raw(r, 0b10_110_110_110, 11),
{
    Pattern::from_u32(0b10_110_110_110, 11)
}

/// `K` (dash dot dash).
pub fn k() -> (r: Pattern)
    ensures
        is_from_raw(r, 0b110_10_110, 8),
{
    Pattern::from_u32(0b110_10_110, 8)
}

/// `L` (dot dash dot dot).
pub fn l() -> (r: Pattern)
    ensures
        is_from_raw(r, 0b10_110_10_10, 9),
{
    Pattern::from_u32(0b10_110_10_10, 9)
}

/// `M` (dash dash).
pub fn m() -> (r: Pattern)
    ensures
        is_from_raw(r, 0b110_110, 6),
{
    Pattern::from_u32(0b110_110, 6)
}

/// `N` (dash dot).
pub fn n() -> (r: Pattern)
    ensures
        is_from_raw(r, 0b110_10, 5),
{
    Pattern::from_u32(0b110_10, 5)
}

/// `O` (dash dash dash).
pub fn o() -> (r: Pattern)
    ensures
        is_from_raw(r, 0b110_110_110, 9),
{
    Pattern::from_u32(0b110_110_110, 9)
}

/// `P` (dot dash dash dot).
pub fn p() -> (r: Pattern)
    ensures
        is_from_raw(r, 0b10_110_110_10, 10),
{
    Pattern::from_u32(0b10_110_110_10, 10)
}

/// `Q` (dash dash dot dash).
pub fn q() -> (r: Pattern)
    ensures
        is_from_raw(r, 0b110_110_10_110, 11),
{
    Pattern::from_u32(0b110_110_10_110, 11)
}

/// `R` (dot dash dot).
pub fn r() -> (r: Pattern)
    ensures
        is_from_raw(r, 0b10_110_10, 7),
{
    Pattern::from_u32(0b10_110_10, 7)
}

/// `S` (dot dot dot).
pub fn s() -> (r: Pattern)
    ensures
        is_from_raw(r, 0b10_10_10, 6),
{
    Pattern::from_u32(0b10_10_10, 6)
}

/// `T` (dash).
pub fn t() -> (r: Pattern)
    ensures
        is_from_raw(r, 0b110, 3),
{
    Pattern::from_u32(0b110, 3)
}

/// `U` (dot dot dash).
pub fn u() -> (r: Pattern)
    ensures
        is_from_raw(r, 0b10_10_110, 7),
{
    Pattern::from_u32(0b10_10_110, 7)
}

/// `V` (dot dot dot dash).
pub fn v() -> (r: Pattern)
    ensures
        is_from_raw(r, 0b10_10_10_110, 9),
{
    Pattern::from_u32(0b10_10_10_110, 9)
}

/// `W` (dot dash dash).
pub fn w() -> (r: Pattern)
    ensures
        is_from_raw(r, 0b10_110_110, 8),
{
    Pattern::from_u32(0b10_110_110, 8)
}

/// `X` (dash dot dot dash).
pub fn x() -> (r: Pattern)
    ensures
        is_from_raw(r, 0b110_10_10_110, 10),
{
    Pattern::from_u32(0b110_10_10_110, 10)
}

/// `Y` (dash dot dash dash).
pub fn y() -> (r: Pattern)
    ensures
        is_from_raw(r, 0b110_10_110_110, 11),
{
    Pattern::from_u32(0b110_10_110_110, 11)
}

/// `Z` (dash dash dot dot).
pub fn z() -> (r: Pattern)
    ensures
        is_from_raw(r, 0b110_110_10_10, 10),
{
    Pattern::from_u32(0b110_110_10_10, 10)
}

/// `0` (five dashes).
pub fn zero() -> (r: Pattern)
    ensures
        is_from_raw(r, 0b110_110_110_110_110, 15),
{
    Pattern::from_u32(0b110_110_110_110_110, 15)
}

/// `1` (dot, four dashes).
pub fn one() -> (r: Pattern)
    ensures
        is_from_raw(r, 0b10_110_110_110_110, 14),
{
    Pattern::from_u32(0b10_110_110_110_110, 14)
}

/// `2` (two dots, three dashes).
pub fn two() -> (r: Pattern)
    ensures
        is_from_raw(r, 0b10_10_110_110_110, 13),
{
    Pattern::from_u32(0b10_10_110_110_110, 13)
}

/// `3` (three dots, two dashes).
pub fn three() -> (r: Pattern)
    ensures
        is_from_raw(r, 0b10_10_10_110_110, 12),
{
    Pattern::from_u32(0b10_10_10_110_110, 12)
}

/// `4` (four dots, one dash).
pub fn four() -> (r: Pattern)
    ensures
        is_from_raw(r, 0b10_10_10_10_110, 11),
{
    Pattern::from_u32(0b10_10_10_10_110, 11)
}

/// `5` (five dots).
pub fn five() -> (r: Pattern)
    ensures
        is_from_raw(r, 0b10_10_10_10_10, 10),
{
    Pattern::from_u32(0b10_10_10_10_10, 10)
}

/// `6` (one dash, four dots).
pub fn six() -> (r: Pattern)
    ensures
        is_from_raw(r, 0b110_10_10_10_10, 11),
{
    Pattern::from_u32(0b110_10_10_10_10, 11)
}

/// `7` (two dashes, three dots).
pub fn seven() -> (r: Pattern)
    ensures
        is_from_raw(r, 0b110_110_10_10_10, 12),
{
    Pattern::from_u32(0b110_110_10_10_10, 12)
}

/// `8` (three dashes, two dots).
pub fn eight() -> (r: Pattern)
    ensures
        is_from_raw(r, 0b110_110_110_10_10, 13),
{
    Pattern::from_u32(0b110_110_110_10_10, 13)
}

/// `9` (four dashes, one dot).
pub fn nine() -> (r: Pattern)
    ensures
        is_from_raw(r, 0b110_110_110_110_10, 14),
{
    Pattern::from_u32(0b110_110_110_110_10, 14)
}

/// `.` (dot dash, three times).
pub fn full_stop() -> (r: Pattern)
    ensures
        is_from_raw(r, 0b10_110_10_110_10_110, 15),
{
    Pattern::from_u32(0b10_110_10_110_10_110, 15)
}

/// `,` (dash dash dot dot dash dash).
pub fn comma() -> (r: Pattern)
    ensures
        is_from_raw(r, 0b110_110_10_10_110_110, 16),
{
    Pattern::from_u32(0b110_110_10_10_110_110, 16)
}

/// `:` (dash dash dash dot dot dot).
pub fn colon() -> (r: Pattern)
    ensures
        is_from_raw(r, 0b110_110_110_10_10_10, 15),
{
    Pattern::from_u32(0b110_110_110_10_10_10, 15)
}

/// `?` (dot dot dash dash dot dot).
pub fn question_mark() -> (r: Pattern)
    ensures
        is_from_raw(r, 0b10_10_110_110_10_10, 14),
{
    Pattern::from_u32(0b10_10_110_110_10_10, 14)
}

/// `'` (dot dash dash dash dash dot).
pub fn apostrophe() -> (r: Pattern)
    ensures
        is_from_raw(r, 0b10_110_110_110_110_10, 16),
{
    Pattern::from_u32(0b10_110_110_110_110_10, 16)
}

/// `-` (dash dot dot dot dot dash).
pub fn hyphen() -> (r: Pattern)
    ensures
        is_from_raw(r, 0b110_10_10_10_10_110, 14),
{
    Pattern::from_u32(0b110_10_10_10_10_110, 14)
}

/// `/` (dash dot dot dash dot).
pub fn fraction_bar() -> (r: Pattern)
    ensures
        is_from_raw(r, 0b110_10_10_110_10, 12),
{
    Pattern::from_u32(0b110_10_10_110_10, 12)
}

/// `(` or `)` (dash dot dash dash dot dash).
pub fn brackets() -> (r: Pattern)
    ensures
        is_from_raw(r, 0b110_10_110_110_10_110, 16),
{
    Pattern::from_u32(0b110_10_110_110_10_110, 16)
}

/// `"` (dot dash dot dot dash dot).
pub fn quotation_mark() -> (r: Pattern)
    ensures
        is_from_raw(r, 0b10_110_10_10_110_10, 14),
{
    Pattern::from_u32(0b10_110_10_10_110_10, 14)
}

/// `@` (dot dash dash dot dash dot).
pub fn at_sign() -> (r: Pattern)
    ensures
        is_from_raw(r, 0b10_110_110_10_110_10, 15),
{
    Pattern::from_u32(0b10_110_110_10_110_10, 15)
}

/// `=` (dash dot dot dot dash).
pub fn equals_sign() -> (r: Pattern)
    ensures
        is_from_raw(r, 0b110_10_10_10_110, 12),
{
    Pattern::from_u32(0b110_10_10_10_110, 12)
}

/// The error prosign (eight dots).
pub fn error() -> (r: Pattern)
    ensures
        is_from_raw(r, 0b10_10_10_10_10_10_10_10, 16),
{
    Pattern::from_u32(0b10_10_10_10_10_10_10_10, 16)
}

/// `SOS` (the letters S, O, S run together).
pub fn sos() -> (r: Pattern)
    ensures
        is_from_raw(r, 0b10_10_10_110_110_110_10_10_10, 21),
{
    Pattern::from_u32(0b10_10_10_110_110_110_10_10_10, 21)
}

} // verus!
