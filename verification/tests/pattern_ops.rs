use blinq::Pattern;

#[test]
fn from_u32_replays_left_to_right() {
    let mut p = Pattern::from_u32(0b101, 3);
    assert_eq!(p.len(), 3);
    assert_eq!(p.step(), true);
    assert_eq!(p.step(), false);
    assert_eq!(p.step(), true);
    // With only 3 meaningful steps, the next extraction reaches the
    // cleared padding bits above them.
    assert_eq!(p.step(), false);
}

#[test]
fn full_width_pattern_wraps_around() {
    let mut p = Pattern::from_u32(0x8000_0001, 32);
    assert_eq!(p.step(), true);
    for _ in 0..30 {
        assert_eq!(p.step(), false);
    }
    assert_eq!(p.step(), true);
    // 32 steps consumed: the rotation has come full circle, so the next
    // extraction repeats the first step.
    assert_eq!(p.step(), true);
    for _ in 0..30 {
        assert_eq!(p.step(), false);
    }
}

#[test]
fn from_u32_clamps_oversized_length() {
    let p = Pattern::from_u32(0xFFFF_FFFF, 40);
    assert_eq!(p.len(), 32);
}

#[test]
fn from_u32_zero_length() {
    let p = Pattern::from_u32(0b101, 0);
    assert_eq!(p.len(), 0);
}

#[test]
fn append_replays_both_patterns() {
    let a = Pattern::from_u32(0b10, 2);
    let b = Pattern::from_u32(0b01, 2);
    let mut c = a.append(&b);
    assert_eq!(c.len(), 4);
    assert_eq!(c.step(), true);
    assert_eq!(c.step(), false);
    assert_eq!(c.step(), false);
    assert_eq!(c.step(), true);
}

#[test]
fn append_saturates_at_32_steps() {
    let a = Pattern::from_u32(0xFFFF_FFFF, 32);
    let b = Pattern::from_u32(0b1, 1);
    let c = a.append(&b);
    assert_eq!(c.len(), 32);
    let d = Pattern::from_u32(0xF_FFFF, 20).append(&Pattern::from_u32(0, 20));
    assert_eq!(d.len(), 32);
}

#[test]
fn reverse_reverses_step_order() {
    let mut r = Pattern::from_u32(0b100, 3).reverse();
    assert_eq!(r.len(), 3);
    assert_eq!(r.step(), false);
    assert_eq!(r.step(), false);
    assert_eq!(r.step(), true);
}

#[test]
fn reverse_twice_is_identity() {
    let p = Pattern::from_u32(0b11010, 5);
    assert_eq!(p.reverse().reverse(), p);
    let q = Pattern::from_u32(0x8000_0001, 32);
    assert_eq!(q.reverse().reverse(), q);
}

#[test]
fn morse_dot_and_dash() {
    let mut dot = blinq::patterns::morse::dot();
    assert_eq!(dot.len(), 2);
    assert_eq!(dot.step(), true);
    assert_eq!(dot.step(), false);
    let mut dash = blinq::patterns::morse::dash();
    assert_eq!(dash.len(), 3);
    assert_eq!(dash.step(), true);
    assert_eq!(dash.step(), true);
    assert_eq!(dash.step(), false);
}

#[test]
fn morse_sos_matches_its_letters() {
    let s = blinq::patterns::morse::s();
    let o = blinq::patterns::morse::o();
    let combined = s.append(&o).append(&blinq::patterns::morse::s());
    assert_eq!(combined, blinq::patterns::morse::sos());
}

#[test]
fn blink_shapes() {
    let mut q = blinq::patterns::blinks::quarter_duty();
    assert_eq!(q.len(), 4);
    assert_eq!(q.step(), true);
    assert_eq!(q.step(), false);
    assert_eq!(q.step(), false);
    assert_eq!(q.step(), false);
    let long_rev = blinq::patterns::blinks::long_on_off().reverse();
    assert_eq!(long_rev, blinq::patterns::blinks::long_off_on());
}
