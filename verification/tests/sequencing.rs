use std::cell::Cell;
use std::rc::Rc;

use blinq::patterns::morse::sos;
use blinq::Blinq;
use blinq::OutputPin;
use blinq::Pattern;

struct FakeGpio {
    state: Rc<Cell<bool>>,
}

impl OutputPin for FakeGpio {
    type Error = ();

    fn pin_high(&self) -> bool {
        self.state.get()
    }

    fn set_low(&mut self) -> Result<(), ()> {
        self.state.set(false);
        Ok(())
    }

    fn set_high(&mut self) -> Result<(), ()> {
        self.state.set(true);
        Ok(())
    }
}

struct FailGpio;

impl OutputPin for FailGpio {
    type Error = u8;

    fn pin_high(&self) -> bool {
        false
    }

    fn set_low(&mut self) -> Result<(), u8> {
        Err(7)
    }

    fn set_high(&mut self) -> Result<(), u8> {
        Err(7)
    }
}

#[test]
fn simple() {
    let state = Rc::new(Cell::new(false));
    let fg = FakeGpio { state: state.clone() };
    let mut stepr: Blinq<FakeGpio> = Blinq::new(fg, false, 1);
    stepr.enqueue(sos());

    stepr.step();
    assert_eq!(state.get(), true);
    stepr.step();
    assert_eq!(state.get(), false);
    stepr.step();
    assert_eq!(state.get(), true);
    stepr.step();
    assert_eq!(state.get(), false);
    stepr.step();
    assert_eq!(state.get(), true);
    stepr.step();
    assert_eq!(state.get(), false);

    stepr.step();
    assert_eq!(state.get(), true);
    stepr.step();
    assert_eq!(state.get(), true);
    stepr.step();
    assert_eq!(state.get(), false);
    stepr.step();
    assert_eq!(state.get(), true);
    stepr.step();
    assert_eq!(state.get(), true);
    stepr.step();
    assert_eq!(state.get(), false);
    stepr.step();
    assert_eq!(state.get(), true);
    stepr.step();
    assert_eq!(state.get(), true);
    stepr.step();
    assert_eq!(state.get(), false);

    stepr.step();
    assert_eq!(state.get(), true);
    stepr.step();
    assert_eq!(state.get(), false);
    stepr.step();
    assert_eq!(state.get(), true);
    stepr.step();
    assert_eq!(state.get(), false);
    stepr.step();
    assert_eq!(state.get(), true);
    stepr.step();
    assert_eq!(state.get(), false);
}

#[test]
fn queued() {
    let state = Rc::new(Cell::new(false));
    let fg = FakeGpio { state: state.clone() };
    let mut stepr: Blinq<FakeGpio> = Blinq::new(fg, false, 3);
    stepr.enqueue(sos());
    stepr.enqueue(sos());
    stepr.enqueue(sos());

    for _ in 0..3 {
        stepr.step();
        assert_eq!(state.get(), true);
        stepr.step();
        assert_eq!(state.get(), false);
        stepr.step();
        assert_eq!(state.get(), true);
        stepr.step();
        assert_eq!(state.get(), false);
        stepr.step();
        assert_eq!(state.get(), true);
        stepr.step();
        assert_eq!(state.get(), false);

        stepr.step();
        assert_eq!(state.get(), true);
        stepr.step();
        assert_eq!(state.get(), true);
        stepr.step();
        assert_eq!(state.get(), false);
        stepr.step();
        assert_eq!(state.get(), true);
        stepr.step();
        assert_eq!(state.get(), true);
        stepr.step();
        assert_eq!(state.get(), false);
        stepr.step();
        assert_eq!(state.get(), true);
        stepr.step();
        assert_eq!(state.get(), true);
        stepr.step();
        assert_eq!(state.get(), false);

        stepr.step();
        assert_eq!(state.get(), true);
        stepr.step();
        assert_eq!(state.get(), false);
        stepr.step();
        assert_eq!(state.get(), true);
        stepr.step();
        assert_eq!(state.get(), false);
        stepr.step();
        assert_eq!(state.get(), true);
        stepr.step();
        assert_eq!(state.get(), false);
    }
}

#[test]
fn construction_drives_pin_low_when_active_high() {
    let state = Rc::new(Cell::new(true));
    let fg = FakeGpio { state: state.clone() };
    let _b: Blinq<FakeGpio> = Blinq::new(fg, false, 4);
    assert_eq!(state.get(), false);
}

#[test]
fn construction_drives_pin_high_when_active_low() {
    let state = Rc::new(Cell::new(false));
    let fg = FakeGpio { state: state.clone() };
    let _b: Blinq<FakeGpio> = Blinq::new(fg, true, 4);
    assert_eq!(state.get(), true);
}

#[test]
fn active_low_inverts_levels() {
    let state = Rc::new(Cell::new(false));
    let fg = FakeGpio { state: state.clone() };
    let mut b: Blinq<FakeGpio> = Blinq::new(fg, true, 4);
    b.enqueue(Pattern::from_u32(0b101, 3));
    b.step();
    assert_eq!(state.get(), false);
    b.step();
    assert_eq!(state.get(), true);
    b.step();
    assert_eq!(state.get(), false);
    b.step();
    assert_eq!(state.get(), true);
}

#[test]
fn idleness_lifecycle() {
    let state = Rc::new(Cell::new(false));
    let fg = FakeGpio { state: state.clone() };
    let mut b: Blinq<FakeGpio> = Blinq::new(fg, false, 4);
    assert!(b.idle());
    b.enqueue(Pattern::from_u32(0b101, 3));
    assert!(!b.idle());
    b.step();
    assert!(!b.idle());
    b.step();
    b.step();
    assert!(b.idle());
}

#[test]
fn overflow_try_enqueue_returns_pattern() {
    let state = Rc::new(Cell::new(false));
    let fg = FakeGpio { state: state.clone() };
    let mut b: Blinq<FakeGpio> = Blinq::new(fg, false, 2);
    assert_eq!(b.try_enqueue(Pattern::from_u32(0b11, 2)), Ok(()));
    assert_eq!(b.try_enqueue(Pattern::from_u32(0b10, 2)), Ok(()));
    let rejected = b.try_enqueue(Pattern::from_u32(0b101, 3));
    assert_eq!(rejected, Err(Pattern::from_u32(0b101, 3)));
}

#[test]
fn overflow_enqueue_drops_pattern() {
    let state = Rc::new(Cell::new(false));
    let fg = FakeGpio { state: state.clone() };
    let mut b: Blinq<FakeGpio> = Blinq::new(fg, false, 1);
    b.enqueue(Pattern::from_u32(0b10, 2));
    // The queue is full: this pattern is silently discarded.
    b.enqueue(Pattern::from_u32(0b11, 2));
    b.step();
    assert_eq!(state.get(), true);
    b.step();
    assert_eq!(state.get(), false);
    // Only the first pattern was queued, so the sequencer is idle again.
    assert!(b.idle());
}

#[test]
fn zero_length_pattern_skipped() {
    let state = Rc::new(Cell::new(false));
    let fg = FakeGpio { state: state.clone() };
    let mut b: Blinq<FakeGpio> = Blinq::new(fg, false, 4);
    b.enqueue(Pattern::from_u32(0, 0));
    b.enqueue(Pattern::from_u32(0b101, 3));
    // The first step call skips the zero-length pattern and plays the
    // first step of the next one.
    b.step();
    assert_eq!(state.get(), true);
    b.step();
    assert_eq!(state.get(), false);
    b.step();
    assert_eq!(state.get(), true);
    assert!(b.idle());
}

#[test]
fn end_to_end_single_pattern() {
    let state = Rc::new(Cell::new(false));
    let fg = FakeGpio { state: state.clone() };
    let mut b: Blinq<FakeGpio> = Blinq::new(fg, false, 4);
    b.enqueue(Pattern::from_u32(0b101, 3));
    b.step();
    assert_eq!(state.get(), true);
    b.step();
    assert_eq!(state.get(), false);
    b.step();
    assert_eq!(state.get(), true);
    // The queue is now exhausted: the pin is driven inactive and the
    // sequencer reports idle.
    b.step();
    assert_eq!(state.get(), false);
    assert!(b.idle());
}

#[test]
fn end_to_end_three_patterns_at_capacity() {
    let state = Rc::new(Cell::new(false));
    let fg = FakeGpio { state: state.clone() };
    let mut b: Blinq<FakeGpio> = Blinq::new(fg, false, 3);
    assert_eq!(b.try_enqueue(Pattern::from_u32(0b101, 3)), Ok(()));
    assert_eq!(b.try_enqueue(Pattern::from_u32(0b101, 3)), Ok(()));
    assert_eq!(b.try_enqueue(Pattern::from_u32(0b101, 3)), Ok(()));
    for _ in 0..3 {
        b.step();
        assert_eq!(state.get(), true);
        b.step();
        assert_eq!(state.get(), false);
        b.step();
        assert_eq!(state.get(), true);
    }
    assert!(b.idle());
}

#[test]
fn zero_capacity_queue_rejects_everything() {
    let state = Rc::new(Cell::new(false));
    let fg = FakeGpio { state: state.clone() };
    let mut b: Blinq<FakeGpio> = Blinq::new(fg, false, 0);
    assert_eq!(
        b.try_enqueue(Pattern::from_u32(0b1, 1)),
        Err(Pattern::from_u32(0b1, 1))
    );
    b.enqueue(Pattern::from_u32(0b1, 1));
    assert!(b.idle());
    b.step();
    assert_eq!(state.get(), false);
    assert!(b.idle());
}

#[test]
fn try_step_reports_pin_error_but_advances() {
    let mut b: Blinq<FailGpio> = Blinq::new(FailGpio, false, 2);
    b.enqueue(Pattern::from_u32(0b11, 2));
    assert_eq!(b.try_step(), Err(7));
    assert_eq!(b.try_step(), Err(7));
    // Both steps were consumed despite the pin failures.
    assert!(b.idle());
}

#[test]
fn try_step_succeeds_on_working_pin() {
    let state = Rc::new(Cell::new(false));
    let fg = FakeGpio { state: state.clone() };
    let mut b: Blinq<FakeGpio> = Blinq::new(fg, false, 2);
    b.enqueue(Pattern::from_u32(0b1, 1));
    assert_eq!(b.try_step(), Ok(()));
    assert_eq!(state.get(), true);
}
