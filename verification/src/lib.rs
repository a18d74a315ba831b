//! blinq - a blinking queue
//!
//! A queue for toggling a GPIO or blinking an LED, with binary on/off
//! patterns encoded as a `u32`.
//!
//! A [`Pattern`] is an immutable value of up to 32 ordered on/off steps. A
//! [`Blinq`] owns an [`OutputPin`], holds a bounded FIFO of pending
//! patterns, and plays one step per call of [`Blinq::step`]: the caller
//! decides the step rate. The [`patterns`] module is a catalogue of
//! ready-made constant patterns.

mod pattern;
mod sequencer;

pub mod patterns;

pub use pattern::bit;
pub use pattern::clamp_len;
pub use pattern::extracted;
pub use pattern::is_append_of;
pub use pattern::is_from_raw;
pub use pattern::is_reverse_of;
pub use pattern::lemma_append_replays;
pub use pattern::lemma_extracted_step;
pub use pattern::lemma_extracted_view;
pub use pattern::lemma_from_raw_replays;
pub use pattern::lemma_reverse_involutive;
pub use pattern::rotk;
pub use pattern::rotr1;
pub use pattern::Pattern;
pub use sequencer::drop_leading_empty;
pub use sequencer::queue_steps;
pub use sequencer::Blinq;
pub use sequencer::OutputPin;
