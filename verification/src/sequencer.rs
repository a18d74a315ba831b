//! The `Blinq` sequencer: a bounded FIFO of patterns, a current pattern with
//! a step cursor, and an owned output pin driven one step per call.

use vstd::prelude::*;

use crate::pattern::bit;
use crate::pattern::extracted;
use crate::pattern::rotk;
use crate::pattern::rotr1;
use crate::pattern::Pattern;
use std::collections::VecDeque;

verus! {

/// A binary output that can be driven high or low, either of which may fail.
///
/// Implementors supply the pin; the sequencer only calls these two methods
/// and never inspects an error beyond passing it on. `pin_high` is the
/// implementor's model of the level the pin is currently driven to.
pub trait OutputPin {
    type Error;

    /// The level the pin is currently driven to: true is high.
    spec fn pin_high(&self) -> bool;

    /// Drive the pin high.
    fn set_high(&mut self) -> (r: Result<(), Self::Error>)
        ensures
            r is Ok ==> final(self).pin_high(),
    ;

    /// Drive the pin low.
    fn set_low(&mut self) -> (r: Result<(), Self::Error>)
        ensures
            r is Ok ==> !final(self).pin_high(),
    ;
}

/// `q` with its leading zero-length patterns removed: the zero-length ones
/// are skipped in a single step call, never played.
pub open spec fn drop_leading_empty(q: Seq<Pattern>) -> Seq<Pattern>
    decreases q.len(),
{
    if q.len() == 0 {
        q
    } else if q[0].used() == 0 {
        drop_leading_empty(q.drop_first())
    } else {
        q
    }
}

/// A blinking queue.
///
/// This owns an [`OutputPin`] and drives it based on queued patterns, one
/// step per call. At most `cap` patterns wait in the queue; the pattern
/// currently being played is not counted against that capacity.
pub struct Blinq<G: OutputPin> {
    current: Option<Pattern>,
    queue: VecDeque<Pattern>,
    cursor: u8,
    capacity: usize,
    gpio: G,
    active_low: bool,
}

impl<G: OutputPin> Blinq<G> {
    /// The pattern currently being played, if any.
    pub closed spec fn active(self) -> Option<Pattern> {
        self.current
    }

    /// The queued patterns, head first.
    pub closed spec fn pending(self) -> Seq<Pattern> {
        self.queue@
    }

    /// How many steps of the active pattern have been played.
    pub closed spec fn cursor(self) -> u8 {
        self.cursor
    }

    /// The fixed queue capacity.
    pub closed spec fn cap(self) -> usize {
        self.capacity
    }

    /// The owned output pin.
    pub closed spec fn pin(self) -> G {
        self.gpio
    }

    /// Whether a logically active step drives the pin low instead of high.
    pub closed spec fn is_active_low(self) -> bool {
        self.active_low
    }

    /// The sequencer's internal consistency: the queue respects its
    /// capacity, and the cursor sits strictly inside the active pattern —
    /// or at zero when none is active.
    pub open spec fn wf(self) -> bool {
        &&& self.pending().len() <= self.cap()
        &&& match self.active() {
            Some(p) => self.cursor() < p.used(),
            None => self.cursor() == 0,
        }
    }

    /// Idle: nothing active and nothing queued, evaluated at call time.
    pub open spec fn is_idle(self) -> bool {
        &&& self.active() is None
        &&& self.pending().len() == 0
    }

    /// The pattern a step call will play: the active one, or else the first
    /// queued pattern of nonzero length.
    pub open spec fn loaded_active(self) -> Option<Pattern> {
        if self.active() is Some {
            self.active()
        } else if drop_leading_empty(self.pending()).len() == 0 {
            None
        } else {
            Some(drop_leading_empty(self.pending())[0])
        }
    }

    /// What remains queued once a step call has pulled its pattern.
    pub open spec fn loaded_pending(self) -> Seq<Pattern> {
        if self.active() is Some {
            self.pending()
        } else if drop_leading_empty(self.pending()).len() == 0 {
            Seq::empty()
        } else {
            drop_leading_empty(self.pending()).drop_first()
        }
    }

    /// The logical output of the next step call: the played step's value,
    /// or inactive when nothing is left to play.
    pub open spec fn next_output(self) -> bool {
        match self.loaded_active() {
            Some(p) => bit(p.raw(), 0),
            None => false,
        }
    }

    /// The physical level the next step call commands: the logical output,
    /// inverted when the sequencer is active-low.
    pub open spec fn next_level(self) -> bool {
        self.next_output() != self.is_active_low()
    }

    /// How one step call advances the sequencing state from `self` to
    /// `post` (the pin itself is described separately).
    pub open spec fn steps_to(self, post: Self) -> bool {
        &&& post.cap() == self.cap()
        &&& post.is_active_low() == self.is_active_low()
        &&& post.pending() == self.loaded_pending()
        &&& match self.loaded_active() {
            None => post.active() is None && post.cursor() == 0,
            Some(p) => {
                if self.cursor() + 1 >= p.used() {
                    post.active() is None && post.cursor() == 0
                } else {
                    &&& match post.active() {
                        Some(q) => q.raw() == rotr1(p.raw()) && q.used() == p.used(),
                        None => false,
                    }
                    &&& post.cursor() == self.cursor() + 1
                }
            },
        }
    }

    /// How an enqueue attempt relates `self` to `post`: everything but the
    /// queue is untouched, and the pattern is appended exactly when there
    /// is room.
    pub open spec fn enqueues_to(self, post: Self, pat: Pattern) -> bool {
        &&& post.cap() == self.cap()
        &&& post.is_active_low() == self.is_active_low()
        &&& post.active() == self.active()
        &&& post.cursor() == self.cursor()
        &&& post.pin() == self.pin()
        &&& post.pending() == if self.pending().len() < self.cap() {
            self.pending().push(pat)
        } else {
            self.pending()
        }
    }

    /// Create a new `Blinq` with the given pin and queue capacity.
    ///
    /// The pin is driven to the inactive level on creation; an error from
    /// that first drive is discarded.
    pub fn new(gpio: G, active_low: bool, capacity: usize) -> (r: Blinq<G>)
        ensures
            r.wf(),
            r.is_idle(),
            r.pending() == Seq::<Pattern>::empty(),
            r.cursor() == 0,
            r.cap() == capacity,
            r.is_active_low() == active_low,
    {
        let mut pin = gpio;
        let _ = if active_low {
            pin.set_high()
        } else {
            pin.set_low()
        };
        Blinq { current: None, queue: VecDeque::new(), cursor: 0, capacity, gpio: pin, active_low }
    }

    /// True iff no pattern is active and the queue is empty.
    pub fn idle(&self) -> (r: bool)
        ensures
            r == self.is_idle(),
    {
        self.current.is_none() && self.queue.len() == 0
    }

    /// Enqueue a new pattern.
    ///
    /// If the queue is currently full, the pattern is discarded.
    pub fn enqueue(&mut self, pat: Pattern)
        requires
            old(self).wf(),
        ensures
            final(self).wf(),
            old(self).enqueues_to(*final(self), pat),
    {
        if self.queue.len() < self.capacity {
            self.queue.push_back(pat);
        }
    }

    /// Try to enqueue a new pattern.
    ///
    /// If the queue is currently full, the pattern is handed back unchanged.
    pub fn try_enqueue(&mut self, pat: Pattern) -> (r: Result<(), Pattern>)
        requires
            old(self).wf(),
        ensures
            final(self).wf(),
            old(self).enqueues_to(*final(self), pat),
            old(self).pending().len() < old(self).cap() <==> r is Ok,
            old(self).pending().len() >= old(self).cap() ==> r == Result::<(), Pattern>::Err(pat),
    {
        if self.queue.len() < self.capacity {
            self.queue.push_back(pat);
            Ok(())
        } else {
            Err(pat)
        }
    }

    /// Move the queue one step, discarding any pin error.
    ///
    /// This updates the pin with the next state of the current pattern, or
    /// starts the next queued pattern. When nothing is left to play the pin
    /// is driven to the inactive level. The sequencer has no concept of
    /// time: call this at whatever rate one step should last.
    pub fn step(&mut self)
        requires
            old(self).wf(),
        ensures
            final(self).wf(),
            old(self).steps_to(*final(self)),
    {
        let _ = self.try_step();
    }

    /// Try to move the queue one step.
    ///
    /// Identical to [`Blinq::step`], but a pin error is returned to the
    /// caller. The internal state has already advanced when the pin write
    /// is attempted, so a failing pin never stalls the sequencing.
    pub fn try_step(&mut self) -> (r: Result<(), G::Error>)
        requires
            old(self).wf(),
        ensures
            final(self).wf(),
            old(self).steps_to(*final(self)),
            r is Ok ==> final(self).pin().pin_high() == old(self).next_level(),
    {
        // Attempt to load a pattern if none is currently active, skipping
        // zero-length ones.
        if self.current.is_none() {
            loop
                invariant_except_break
                    old(self).active() is None,
                    self.active() is None,
                    self.cursor() == 0,
                    self.pending().len() <= self.cap(),
                    self.cap() == old(self).cap(),
                    self.is_active_low() == old(self).is_active_low(),
                    self.pin() == old(self).pin(),
                    drop_leading_empty(self.pending()) == drop_leading_empty(old(self).pending()),
                ensures
                    self.cursor() == 0,
                    self.pending().len() <= self.cap(),
                    self.cap() == old(self).cap(),
                    self.is_active_low() == old(self).is_active_low(),
                    self.pin() == old(self).pin(),
                    self.active() == old(self).loaded_active(),
                    self.pending() == old(self).loaded_pending(),
                decreases self.pending().len(),
            {
                let ghost qb = self.pending();
                match self.queue.pop_front() {
                    None => {
                        proof {
                            assert(self.pending() =~= Seq::<Pattern>::empty());
                        }
                        break ;
                    },
                    Some(pat) => {
                        if pat.len() != 0 {
                            proof {
                                assert(drop_leading_empty(qb) == qb);
                                assert(self.pending() =~= qb.drop_first());
                            }
                            self.current = Some(pat);
                            break ;
                        } else {
                            proof {
                                assert(self.pending() =~= qb.drop_first());
                                assert(drop_leading_empty(qb) == drop_leading_empty(
                                    qb.drop_first(),
                                ));
                            }
                        }
                    },
                }
            }
        }

        // Play one step of the loaded pattern, if any.
        let mut taken: Option<Pattern> = None;
        core::mem::swap(&mut self.current, &mut taken);
        let state: bool = match taken {
            None => false,
            Some(mut pat) => {
                let s = pat.step();
                let c: u8 = self.cursor + 1;
                if c >= pat.len() {
                    self.cursor = 0;
                } else {
                    self.current = Some(pat);
                    self.cursor = c;
                }
                s
            },
        };

        // Drive the pin last, after all bookkeeping.
        if state != self.active_low {
            self.gpio.set_high()
        } else {
            self.gpio.set_low()
        }
    }
}

/// The total number of steps a queue still holds.
pub open spec fn queue_steps(q: Seq<Pattern>) -> int
    decreases q.len(),
{
    if q.len() == 0 {
        0
    } else {
        q[0].used() + queue_steps(q.drop_first())
    }
}

proof fn lemma_drop_leading_empty_steps(q: Seq<Pattern>)
    ensures
        queue_steps(drop_leading_empty(q)) == queue_steps(q),
        drop_leading_empty(q).len() > 0 ==> drop_leading_empty(q)[0].used() != 0,
        queue_steps(q) >= 0,
    decreases q.len(),
{
    if q.len() == 0 {
    } else {
        lemma_drop_leading_empty_steps(q.drop_first());
    }
}

proof fn lemma_drop_skip(q: Seq<Pattern>, k: int)
    requires
        0 <= k < q.len(),
        forall|i: int| 0 <= i < k ==> q[i].used() == 0,
        q[k].used() != 0,
    ensures
        drop_leading_empty(q) == q.subrange(k, q.len() as int),
    decreases k,
{
    if k == 0 {
        assert(q.subrange(0, q.len() as int) =~= q);
    } else {
        lemma_drop_skip(q.drop_first(), k - 1);
        assert(q.drop_first().subrange(k - 1, q.drop_first().len() as int) =~= q.subrange(
            k,
            q.len() as int,
        ));
    }
}

impl<G: OutputPin> Blinq<G> {
    /// The number of steps left in the active pattern.
    pub open spec fn active_remaining(self) -> int {
        match self.active() {
            Some(p) => p.used() - self.cursor(),
            None => 0,
        }
    }

    /// The total number of steps left to play: the rest of the active
    /// pattern plus everything queued.
    pub open spec fn remaining_steps(self) -> int {
        self.active_remaining() + queue_steps(self.pending())
    }

    /// A freshly constructed sequencer is idle; an idle one stays idle
    /// under step calls, which then command the inactive level.
    pub proof fn lemma_idle_stays(pre: Blinq<G>, post: Blinq<G>)
        requires
            pre.is_idle(),
            pre.steps_to(post),
        ensures
            post.is_idle(),
            pre.next_output() == false,
            pre.next_level() == pre.is_active_low(),
    {
    }

    /// Enqueueing into a sequencer with room leaves it non-idle.
    pub proof fn lemma_enqueue_breaks_idle(pre: Blinq<G>, post: Blinq<G>, pat: Pattern)
        requires
            pre.pending().len() < pre.cap(),
            pre.enqueues_to(post, pat),
        ensures
            !post.is_idle(),
    {
    }

    /// Draining makes progress: each step call on a non-idle sequencer
    /// either strictly decreases the number of steps left to play or
    /// reaches idle (a queue holding only zero-length patterns is cleared
    /// in a single call), so repeated calls return the sequencer to idle.
    pub proof fn lemma_step_progress(pre: Blinq<G>, post: Blinq<G>)
        requires
            pre.wf(),
            pre.steps_to(post),
            !pre.is_idle(),
        ensures
            post.is_idle() || post.remaining_steps() < pre.remaining_steps(),
            post.remaining_steps() >= 0,
    {
        lemma_drop_leading_empty_steps(pre.pending());
        lemma_drop_leading_empty_steps(post.pending());
        let d = drop_leading_empty(pre.pending());
        if pre.active() is None && d.len() > 0 {
            assert(queue_steps(d) == d[0].used() + queue_steps(d.drop_first()));
        }
    }

    /// Playing through a pattern: when the active slot holds `p` advanced
    /// by `cursor` single-bit rotations, the next step call outputs
    /// exactly `p`'s extraction at index `cursor`, and afterwards the slot
    /// holds `p` advanced one place further — or is dropped once the whole
    /// length is exhausted. Chaining this from a freshly loaded pattern
    /// (`cursor` 0, the slot holding `p` itself) shows that successive
    /// step calls output `p`'s full extraction sequence in order.
    pub proof fn lemma_step_plays_extraction(pre: Blinq<G>, post: Blinq<G>, p: Pattern)
        requires
            pre.wf(),
            pre.steps_to(post),
            match pre.active() {
                Some(q) => q.used() == p.used() && q.raw() == rotk(p.raw(), pre.cursor() as nat),
                None => false,
            },
        ensures
            pre.next_output() == extracted(p, pre.cursor() as nat),
            pre.cursor() + 1 < p.used() ==> match post.active() {
                Some(q2) => {
                    &&& q2.used() == p.used()
                    &&& q2.raw() == rotk(p.raw(), (pre.cursor() + 1) as nat)
                    &&& post.cursor() == pre.cursor() + 1
                },
                None => false,
            },
            pre.cursor() + 1 >= p.used() ==> post.active() is None && post.cursor() == 0,
            post.pending() == pre.pending(),
    {
        let c = pre.cursor() as nat;
        assert(rotk(p.raw(), c + 1) == rotr1(rotk(p.raw(), c)));
    }

    /// Zero-length patterns are skipped: when nothing is active and the
    /// first queued pattern of nonzero length sits behind only zero-length
    /// ones, the next step call plays exactly that pattern's first step.
    pub proof fn lemma_empty_patterns_skipped(pre: Blinq<G>, k: int)
        requires
            pre.active() is None,
            0 <= k < pre.pending().len(),
            forall|i: int| 0 <= i < k ==> pre.pending()[i].used() == 0,
            pre.pending()[k].used() != 0,
        ensures
            pre.loaded_active() == Some(pre.pending()[k]),
            pre.next_output() == bit(pre.pending()[k].raw(), 0),
    {
        lemma_drop_skip(pre.pending(), k);
    }
}

} // verus!
