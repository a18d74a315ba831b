//! Common blink patterns.

use vstd::prelude::*;

use crate::pattern::is_from_raw;
use crate::pattern::Pattern;

verus! {

/// One step on, one step off.
pub fn short_on_off() -> (r: Pattern)
    ensures
        is_from_raw(r, 0b10, 2),
{
    Pattern::from_u32(0b10, 2)
}

/// One step off, one step on.
pub fn short_off_on() -> (r: Pattern)
    ensures
        is_from_raw(r, 0b01, 2),
{
    Pattern::from_u32(0b01, 2)
}

/// Two steps on, two steps off.
pub fn medium_on_off() -> (r: Pattern)
    ensures
        is_from_raw(r, 0b1100, 4),
{
    Pattern::from_u32(0b1100, 4)
}

/// Two steps off, two steps on.
pub fn medium_off_on() -> (r: Pattern)
    ensures
        is_from_raw(r, 0b0011, 4),
{
    Pattern::from_u32(0b0011, 4)
}

/// Four steps on, four steps off.
pub fn long_on_off() -> (r: Pattern)
    ensures
        is_from_raw(r, 0b11110000, 8),
{
    Pattern::from_u32(0b11110000, 8)
}

/// Four steps off, four steps on.
pub fn long_off_on() -> (r: Pattern)
    ensures
        is_from_raw(r, 0b00001111, 8),
{
    Pattern::from_u32(0b00001111, 8)
}

/// A blink with a 25% on, 75% off duty cycle.
pub fn quarter_duty() -> (r: Pattern)
    ensures
        is_from_raw(r, 0b1000, 4),
{
    Pattern::from_u32(0b1000, 4)
}

} // verus!
