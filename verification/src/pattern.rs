//! The `Pattern` value type: up to 32 ordered on/off steps packed into a
//! `u32`, consumed one step at a time by bit rotation.

use vstd::prelude::*;

verus! {

/// True iff bit `i` of `x` is set. Meaningful for `i < 32`.
pub open spec fn bit(x: u32, i: u32) -> bool {
    (x >> i) & 1 == 1
}

/// `x` rotated right by one bit position: bit 0 wraps around to bit 31.
pub open spec fn rotr1(x: u32) -> u32 {
    (x >> 1) | (x << 31)
}

/// Clamp a requested step count to the 32 steps a `u32` can hold.
pub open spec fn clamp_len(used: u8) -> u8 {
    if used > 32 {
        32
    } else {
        used
    }
}

/// What `Pattern::from_u32(pattern, used)` returns: the low `clamp_len(used)`
/// bits of `pattern` in reversed order, right-aligned, with the bits above
/// them clear.
pub open spec fn is_from_raw(p: Pattern, pattern: u32, used: u8) -> bool {
    &&& p.wf()
    &&& p.used() == clamp_len(used)
    &&& forall|i: u32|
        i < p.used() ==> #[trigger] bit(p.raw(), i) == bit(pattern, (p.used() - 1 - i) as u32)
}

/// What `a.append(&b)` returns: `a`'s steps first, then `b`'s, the total
/// length saturating at 32 and the steps beyond 32 dropped.
pub open spec fn is_append_of(r: Pattern, a: Pattern, b: Pattern) -> bool {
    &&& r.wf()
    &&& r.used() == clamp_len((a.used() + b.used()) as u8)
    &&& forall|i: u32| i < a.used() ==> #[trigger] bit(r.raw(), i) == bit(a.raw(), i)
    &&& forall|i: u32|
        a.used() <= i < r.used() ==> #[trigger] bit(r.raw(), i) == bit(
            b.raw(),
            (i - a.used()) as u32,
        )
}

/// What `p.reverse()` returns: the same number of steps in exactly the
/// opposite order.
pub open spec fn is_reverse_of(r: Pattern, p: Pattern) -> bool {
    &&& r.wf()
    &&& r.used() == p.used()
    &&& forall|i: u32|
        i < p.used() ==> #[trigger] bit(r.raw(), i) == bit(p.raw(), (p.used() - 1 - i) as u32)
}

/// A blinking pattern encoded as a `u32`.
///
/// Step `i` of the pattern is bit `i` of the stored word; `used` says how
/// many low bits are meaningful. These patterns are used with a [`crate::Blinq`].
#[derive(Clone, Debug, PartialEq, Eq, Structural)]
pub struct Pattern {
    pattern: u32,
    used: u8,
}

impl View for Pattern {
    type V = Seq<bool>;

    /// The ordered step sequence: element `i` is true iff step `i` is active.
    open spec fn view(&self) -> Seq<bool> {
        Seq::new(self.used() as nat, |i: int| bit(self.raw(), i as u32))
    }
}

impl Pattern {
    /// The raw step word: step `i` is bit `i`.
    pub closed spec fn raw(self) -> u32 {
        self.pattern
    }

    /// How many steps of the word are meaningful.
    pub closed spec fn used(self) -> u8 {
        self.used
    }

    /// A freshly constructed pattern keeps its length within 32 and leaves
    /// the bits above it clear; stepping a copy may break the second part.
    pub open spec fn wf(self) -> bool {
        &&& self.used() <= 32
        &&& forall|i: u32| self.used() <= i < 32 ==> !bit(self.raw(), i)
    }

    /// Create a new pattern from a `u32`.
    ///
    /// The leftmost written digit of the literal (bit `used - 1`) becomes the
    /// first step and bit 0 the last, so a literal reads left to right in
    /// play order. A `used` larger than 32 is clamped to 32; the bits are
    /// taken from the low `used` positions either way.
    pub fn from_u32(pattern: u32, used: u8) -> (r: Pattern)
        ensures
            is_from_raw(r, pattern, used),
    {
        let u: u8 = if used > 32 {
            32
        } else {
            used
        };
        let mut out: u32 = 0;
        let mut i: u8 = 0;
        proof {
            assert forall|j: u32| j < 32 implies !bit(0u32, j) by {
                assert((0u32 >> j) & 1 == 0) by (bit_vector);
            }
        }
        while i < u
            invariant
                i <= u,
                u <= 32,
                forall|j: u32| j < i ==> #[trigger] bit(out, j) == bit(pattern, (u - 1 - j) as u32),
                forall|j: u32| i <= j < 32 ==> !bit(out, j),
            decreases u - i,
        {
            let b: u32 = (pattern >> ((u - 1 - i) as u32)) & 1;
            let next: u32 = out | (b << (i as u32));
            proof {
                let iv = i as u32;
                assert(b & 1 == b) by (bit_vector)
                    requires
                        b == (pattern >> ((u - 1 - i) as u32)) & 1,
                ;
                assert(!bit(out, iv));
                assert((out >> iv) & 1 == 0) by (bit_vector)
                    requires
                        (out >> iv) & 1 != 1,
                ;
                assert forall|j: u32| j < 32 implies #[trigger] bit(next, j) == (if j == iv {
                    b == 1
                } else {
                    bit(out, j)
                }) by {
                    if j == iv {
                        assert(((out | (b << iv)) >> iv) & 1 == b) by (bit_vector)
                            requires
                                iv < 32,
                                b & 1 == b,
                                (out >> iv) & 1 == 0,
                        ;
                    } else {
                        assert(((out | (b << iv)) >> j) & 1 == (out >> j) & 1) by (bit_vector)
                            requires
                                iv < 32,
                                j < 32,
                                j != iv,
                                b & 1 == b,
                        ;
                    }
                }
                assert(bit(next, iv) == bit(pattern, (u - 1 - i) as u32));
            }
            out = next;
            i = i + 1;
        }
        Pattern { pattern: out, used: u }
    }

    /// Create a new pattern by appending one to the other.
    ///
    /// The result plays `self`'s steps first and then `other`'s. If the
    /// combined length exceeds 32 it saturates at 32 and the overflowing
    /// steps are dropped.
    pub fn append(&self, other: &Pattern) -> (r: Pattern)
        requires
            self.wf(),
            other.wf(),
        ensures
            is_append_of(r, *self, *other),
    {
        let sum: u8 = self.used + other.used;
        let total: u8 = if sum > 32 {
            32
        } else {
            sum
        };
        let raw: u32 = if self.used == 32 {
            self.pattern
        } else {
            self.pattern | (other.pattern << (self.used as u32))
        };
        proof {
            let a = self.pattern;
            let bw = other.pattern;
            let su = self.used as u32;
            if self.used < 32 {
                assert forall|i: u32| i < 32 implies #[trigger] bit(raw, i) == (if i < su {
                    bit(a, i)
                } else {
                    bit(a, i) || bit(bw, (i - su) as u32)
                }) by {
                    if i < su {
                        assert(((a | (bw << su)) >> i) & 1 == (a >> i) & 1) by (bit_vector)
                            requires
                                i < su,
                                su < 32,
                        ;
                    } else {
                        assert((((a | (bw << su)) >> i) & 1 == 1) == ((((a >> i) & 1) == 1) || ((
                        (bw >> ((i - su) as u32)) & 1) == 1))) by (bit_vector)
                            requires
                                su <= i < 32,
                        ;
                    }
                }
            }
            assert forall|i: u32| i < self.used() implies #[trigger] bit(raw, i) == bit(
                self.raw(),
                i,
            ) by {}
            assert forall|i: u32| self.used() <= i < total implies #[trigger] bit(raw, i) == bit(
                other.raw(),
                (i - self.used()) as u32,
            ) by {
                assert(!bit(self.raw(), i));
            }
            assert forall|i: u32| total <= i < 32 implies !bit(raw, i) by {
                assert(!bit(self.raw(), i));
                if self.used < 32 {
                    assert(!bit(other.raw(), (i - su) as u32));
                }
            }
        }
        Pattern { pattern: raw, used: total }
    }

    /// Reverse the step order, keeping the same length.
    pub fn reverse(&self) -> (r: Pattern)
        requires
            self.wf(),
        ensures
            is_reverse_of(r, *self),
    {
        Pattern::from_u32(self.pattern, self.used)
    }

    /// Consume one step: report whether it is active, then rotate the word
    /// right by one bit so the next call observes the following step.
    ///
    /// This mutates the pattern; a sequencer calls it on a private copy,
    /// never on a catalogue value.
    pub fn step(&mut self) -> (r: bool)
        ensures
            final(self).used() == old(self).used(),
            final(self).raw() == rotr1(old(self).raw()),
            r == bit(old(self).raw(), 0),
    {
        let result: bool = self.pattern & 1 == 1;
        proof {
            let x = self.pattern;
            assert((x & 1 == 1) == ((x >> 0) & 1 == 1)) by (bit_vector);
        }
        self.pattern = (self.pattern >> 1) | (self.pattern << 31);
        result
    }

    /// The number of meaningful steps.
    pub fn len(&self) -> (r: u8)
        ensures
            r == self.used(),
    {
        self.used
    }
}

/// `x` rotated right `k` times.
pub open spec fn rotk(x: u32, k: nat) -> u32
    decreases k,
{
    if k == 0 {
        x
    } else {
        rotr1(rotk(x, (k - 1) as nat))
    }
}

/// The value the `k`-th call of [`Pattern::step`] returns when starting from
/// a pattern whose raw word is `p.raw()` (counting calls from 0).
pub open spec fn extracted(p: Pattern, k: nat) -> bool {
    bit(rotk(p.raw(), k), 0)
}

/// Two 32-bit words that agree on every bit are equal.
proof fn lemma_u32_bit_ext(x: u32, y: u32)
    requires
        forall|i: u32| i < 32 ==> #[trigger] bit(x, i) == bit(y, i),
    ensures
        x == y,
{
    assert(x == y) by (bit_vector)
        requires
            bit(x, 0) == bit(y, 0),
            bit(x, 1) == bit(y, 1),
            bit(x, 2) == bit(y, 2),
            bit(x, 3) == bit(y, 3),
            bit(x, 4) == bit(y, 4),
            bit(x, 5) == bit(y, 5),
            bit(x, 6) == bit(y, 6),
            bit(x, 7) == bit(y, 7),
            bit(x, 8) == bit(y, 8),
            bit(x, 9) == bit(y, 9),
            bit(x, 10) == bit(y, 10),
            bit(x, 11) == bit(y, 11),
            bit(x, 12) == bit(y, 12),
            bit(x, 13) == bit(y, 13),
            bit(x, 14) == bit(y, 14),
            bit(x, 15) == bit(y, 15),
            bit(x, 16) == bit(y, 16),
            bit(x, 17) == bit(y, 17),
            bit(x, 18) == bit(y, 18),
            bit(x, 19) == bit(y, 19),
            bit(x, 20) == bit(y, 20),
            bit(x, 21) == bit(y, 21),
            bit(x, 22) == bit(y, 22),
            bit(x, 23) == bit(y, 23),
            bit(x, 24) == bit(y, 24),
            bit(x, 25) == bit(y, 25),
            bit(x, 26) == bit(y, 26),
            bit(x, 27) == bit(y, 27),
            bit(x, 28) == bit(y, 28),
            bit(x, 29) == bit(y, 29),
            bit(x, 30) == bit(y, 30),
            bit(x, 31) == bit(y, 31),
    ;
}

/// Rotation is cyclic over the full 32-bit word: after `k` single-bit
/// rotations, bit `i` holds what bit `(i + k) % 32` held at the start.
proof fn lemma_rotk_bit(x: u32, k: nat)
    ensures
        forall|i: u32| i < 32 ==> #[trigger] bit(rotk(x, k), i) == bit(x, (((i + k) % 32) as u32)),
    decreases k,
{
    if k == 0 {
        assert forall|i: u32| i < 32 implies #[trigger] bit(rotk(x, 0), i) == bit(
            x,
            (((i + 0) % 32) as u32),
        ) by {
            vstd::arithmetic::div_mod::lemma_small_mod(i as nat, 32);
        }
    } else {
        let y = rotk(x, (k - 1) as nat);
        lemma_rotk_bit(x, (k - 1) as nat);
        assert forall|i: u32| i < 32 implies #[trigger] bit(rotk(x, k), i) == bit(
            x,
            (((i + k) % 32) as u32),
        ) by {
            let j: u32 = ((i + 1) % 32) as u32;
            if i < 31 {
                assert((((y >> 1) | (y << 31)) >> i) & 1 == (y >> j) & 1) by (bit_vector)
                    requires
                        i < 31,
                        j == i + 1,
                ;
            } else {
                assert((((y >> 1) | (y << 31)) >> 31) & 1 == (y >> 0) & 1) by (bit_vector);
            }
            assert(bit(rotk(x, k), i) == bit(y, j));
            assert(bit(y, j) == bit(x, (((j + (k - 1)) % 32) as u32)));
            vstd::arithmetic::div_mod::lemma_add_mod_noop_right(j as int, k - 1, 32);
            vstd::arithmetic::div_mod::lemma_add_mod_noop(i + 1, k - 1, 32);
            assert((j + (k - 1)) % 32 == (i + k) % 32);
        }
    }
}

proof fn lemma_rotk_shift(x: u32, k: nat)
    ensures
        rotk(rotr1(x), k) == rotk(x, k + 1),
    decreases k,
{
    if k == 0 {
        assert(rotk(x, 1) == rotr1(rotk(x, 0)));
    } else {
        lemma_rotk_shift(x, (k - 1) as nat);
        assert(rotk(rotr1(x), k) == rotr1(rotk(rotr1(x), (k - 1) as nat)));
        assert(rotk(x, k + 1) == rotr1(rotk(x, k)));
    }
}

/// Stepping shifts the extraction sequence by one place: what a stepped
/// copy extracts at call `k`, the original pattern extracts at call
/// `k + 1`. Together with [`Pattern::step`]'s contract this pins the whole
/// sequence that repeated `step` calls return.
pub proof fn lemma_extracted_step(p: Pattern, q: Pattern, k: nat)
    requires
        q.raw() == rotr1(p.raw()),
    ensures
        extracted(q, k) == extracted(p, k + 1),
{
    lemma_rotk_shift(p.raw(), k);
}

/// Within the meaningful length, the extraction sequence of a
/// well-formed pattern is exactly its view.
pub proof fn lemma_extracted_view(p: Pattern, i: int)
    requires
        p.wf(),
        0 <= i < p.used(),
    ensures
        extracted(p, i as nat) == p@[i],
{
    lemma_rotk_bit(p.raw(), i as nat);
    vstd::arithmetic::div_mod::lemma_small_mod(i as nat, 32);
}

/// Replay of a fresh pattern (first law of extraction): stepping
/// `from_u32(pattern, used)` with `used <= 32` yields, at call `k < used`,
/// exactly bit `used - 1 - k` of the original word — the caller's literal
/// read left to right — and the rotation is cyclic with period 32, so call
/// `k + 32` repeats call `k`. (For `used == 32` the call right after the
/// last meaningful one therefore wraps to the first step; for shorter
/// patterns the padding bits above `used` are reached first.)
pub proof fn lemma_from_raw_replays(pattern: u32, used: u8, p: Pattern)
    requires
        used <= 32,
        is_from_raw(p, pattern, used),
    ensures
        forall|k: u32|
            k < used ==> #[trigger] extracted(p, k as nat) == bit(pattern, (used - 1 - k) as u32),
        forall|k: nat| #[trigger] extracted(p, (k + 32) as nat) == extracted(p, k),
        used == 32 ==> extracted(p, used as nat) == extracted(p, 0),
{
    assert forall|k: u32| k < used implies #[trigger] extracted(p, k as nat) == bit(
        pattern,
        (used - 1 - k) as u32,
    ) by {
        lemma_rotk_bit(p.raw(), k as nat);
        vstd::arithmetic::div_mod::lemma_small_mod(k as nat, 32);
        assert(bit(rotk(p.raw(), k as nat), 0) == bit(p.raw(), k));
    }
    assert forall|k: nat| #[trigger] extracted(p, (k + 32) as nat) == extracted(p, k) by {
        lemma_rotk_bit(p.raw(), k + 32);
        lemma_rotk_bit(p.raw(), k);
        vstd::arithmetic::div_mod::lemma_add_mod_noop_right(k as int, 32, 32);
        vstd::arithmetic::div_mod::lemma_mod_self_0(32);
        assert((0 + (k + 32)) % 32 == (0 + k) % 32);
    }
    if used == 32 {
        lemma_rotk_bit(p.raw(), 32);
        lemma_rotk_bit(p.raw(), 0);
        vstd::arithmetic::div_mod::lemma_mod_self_0(32);
        vstd::arithmetic::div_mod::lemma_small_mod(0, 32);
    }
}

/// Replay of an appended pattern: when the combined length fits in 32
/// steps, the first `a.used()` extractions of `a.append(&b)` are exactly
/// `a`'s extractions and the following `b.used()` are exactly `b`'s.
pub proof fn lemma_append_replays(a: Pattern, b: Pattern, r: Pattern)
    requires
        a.wf(),
        b.wf(),
        a.used() + b.used() <= 32,
        is_append_of(r, a, b),
    ensures
        forall|k: u32| k < a.used() ==> #[trigger] extracted(r, k as nat) == extracted(a, k as nat),
        forall|k: u32|
            a.used() <= k < a.used() + b.used() ==> #[trigger] extracted(r, k as nat) == extracted(
                b,
                (k - a.used()) as nat,
            ),
{
    assert forall|k: u32| k < 32 implies #[trigger] extracted(r, k as nat) == bit(r.raw(), k) by {
        lemma_rotk_bit(r.raw(), k as nat);
        vstd::arithmetic::div_mod::lemma_small_mod(k as nat, 32);
    }
    assert forall|k: u32| k < 32 implies #[trigger] extracted(a, k as nat) == bit(a.raw(), k) by {
        lemma_rotk_bit(a.raw(), k as nat);
        vstd::arithmetic::div_mod::lemma_small_mod(k as nat, 32);
    }
    assert forall|k: u32| k < 32 implies #[trigger] extracted(b, k as nat) == bit(b.raw(), k) by {
        lemma_rotk_bit(b.raw(), k as nat);
        vstd::arithmetic::div_mod::lemma_small_mod(k as nat, 32);
    }
}

/// Reversing twice is the identity, down to the raw encoding.
pub proof fn lemma_reverse_involutive(p: Pattern, q: Pattern, r: Pattern)
    requires
        p.wf(),
        is_reverse_of(q, p),
        is_reverse_of(r, q),
    ensures
        r == p,
{
    assert forall|i: u32| i < 32 implies #[trigger] bit(r.raw(), i) == bit(p.raw(), i) by {
        if i < p.used() {
            assert(bit(r.raw(), i) == bit(q.raw(), (q.used() - 1 - i) as u32));
            assert(bit(q.raw(), (q.used() - 1 - i) as u32) == bit(p.raw(), i));
        } else {
            assert(!bit(r.raw(), i));
            assert(!bit(p.raw(), i));
        }
    }
    lemma_u32_bit_ext(r.raw(), p.raw());
    assert(r.used() == p.used());
}

} // verus!
