//! Handy patterns to blink: a catalogue of constant data built from
//! `Pattern`'s constructors, with each entry's exact encoding in its
//! contract.

pub mod blinks;
pub mod morse;
