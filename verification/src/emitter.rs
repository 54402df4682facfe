//! The emitter / trigger scheduler.
//!
//! An [`Emitter`] is a stream of inter-event durations (fixed-point
//! seconds): constant, drawn from a seeded random generator, or cut off
//! after a fixed number of events. A [`Trigger`] turns such a stream into
//! boolean pulses: a tick at elapsed time `t` fires exactly when `t` has
//! reached the scheduled time of the next event.

use vstd::prelude::*;

verus! {

/// The standard random generator of the rand crate, held by value inside
/// a random emitter.
#[verifier::external_type_specification]
#[verifier::external_body]
pub struct ExStdRng(rand::rngs::StdRng);

/// Relies on rand's SeedableRng::seed_from_u64 for StdRng: builds a
/// generator from a seed word (the same seed gives the same stream, so
/// renders are reproducible; nothing about the values is assumed here).
#[verifier::external_body]
fn seed_rng(seed: u64) -> (r: rand::rngs::StdRng)
{
    <rand::rngs::StdRng as rand::SeedableRng>::seed_from_u64(seed)
}

/// Relies on rand's RngExt::random_range over the integer range
/// `min..max`, which samples uniformly within it: the result is at least
/// `min` and below `max`. The range must be non-empty (the call panics on
/// an empty one).
#[verifier::external_body]
fn draw_range(rng: &mut rand::rngs::StdRng, min: u64, max: u64) -> (r: u64)
    requires
        min < max,
    ensures
        min <= r < max,
{
    rand::RngExt::random_range(rng, min..max)
}

/// A stream of inter-event durations, in fixed-point seconds.
pub enum Emitter {
    /// Yields the same duration forever.
    Periodic {
        /// The constant inter-event duration.
        duration: u64,
    },
    /// Yields durations drawn uniformly from `[min, max)`.
    Random {
        /// The seeded generator the durations are drawn from.
        rng: rand::rngs::StdRng,
        /// Smallest duration (inclusive).
        min: u64,
        /// Largest duration (exclusive); must exceed `min`.
        max: u64,
    },
    /// Passes through the inner emitter's next `remaining` durations, then
    /// yields no duration ever again.
    Limited {
        /// How many durations may still pass through.
        remaining: u32,
        /// The wrapped emitter.
        inner: Box<Emitter>,
    },
}

impl Emitter {
    /// Every random range in the emitter is non-empty.
    pub open spec fn wf(self) -> bool
        decreases self,
    {
        match self {
            Emitter::Periodic { .. } => true,
            Emitter::Random { min, max, .. } => min < max,
            Emitter::Limited { inner, .. } => inner.wf(),
        }
    }
}

/// The relation one `next_duration` call satisfies: a periodic emitter
/// yields its constant and is unchanged; a random emitter yields a value
/// within its range (its generator state moves on); a count-limited
/// emitter passes its inner emitter through while its count lasts,
/// counting down, and afterwards yields `None` and stays put.
pub open spec fn next_ok(pre: Emitter, post: Emitter, d: Option<u64>) -> bool
    decreases pre,
{
    match pre {
        Emitter::Periodic { duration } => post == pre && d == Some(duration),
        Emitter::Random { rng: _, min, max } => {
            &&& (post matches Emitter::Random { rng: _, min: m2, max: x2 } && m2 == min && x2
                == max)
            &&& (d matches Some(v) && min <= v < max)
        },
        Emitter::Limited { remaining, inner } => {
            if remaining == 0 {
                post == pre && d is None
            } else {
                post matches Emitter::Limited { remaining: r2, inner: i2 } && r2 == remaining
                    - 1 && next_ok(*inner, *i2, d)
            }
        },
    }
}

/// Makes an emitter that yields `duration` between every pair of events.
pub fn periodic_emitter(duration: u64) -> (e: Emitter)
    ensures
        e == (Emitter::Periodic { duration }),
        e.wf(),
{
    Emitter::Periodic { duration }
}

/// Makes an emitter that yields durations drawn uniformly from
/// `[min_duration, max_duration)` by a generator seeded with `seed`: the
/// same seed gives the same trigger sequence.
pub fn random_emitter(seed: u64, min_duration: u64, max_duration: u64) -> (e: Emitter)
    requires
        min_duration < max_duration,
    ensures
        e matches Emitter::Random { rng: _, min, max } && min == min_duration && max
            == max_duration,
        e.wf(),
{
    Emitter::Random { rng: seed_rng(seed), min: min_duration, max: max_duration }
}

/// Wraps an emitter so that only its next `n` durations pass through;
/// after that the wrapped emitter yields no duration ever again.
pub fn emitter_stop_n(n: u32, emitter: Emitter) -> (e: Emitter)
    requires
        emitter.wf(),
    ensures
        e matches Emitter::Limited { remaining, inner } && remaining == n && *inner == emitter,
        e.wf(),
{
    Emitter::Limited { remaining: n, inner: Box::new(emitter) }
}

/// Pulls one duration from an emitter taken by value, handing back the
/// advanced emitter.
fn next_duration_owned(e: Emitter) -> (res: (Emitter, Option<u64>))
    requires
        e.wf(),
    ensures
        next_ok(e, res.0, res.1),
        res.0.wf(),
    decreases e,
{
    match e {
        Emitter::Periodic { duration } => (Emitter::Periodic { duration }, Some(duration)),
        Emitter::Random { mut rng, min, max } => {
            let v: u64 = draw_range(&mut rng, min, max);
            (Emitter::Random { rng, min, max }, Some(v))
        },
        Emitter::Limited { remaining, inner } => {
            if remaining == 0 {
                (Emitter::Limited { remaining, inner }, None)
            } else {
                let res: (Emitter, Option<u64>) = next_duration_owned(*inner);
                (Emitter::Limited { remaining: remaining - 1, inner: Box::new(res.0) }, res.1)
            }
        },
    }
}

impl Emitter {
    /// Pulls the next inter-event duration. `None` means the emitter will
    /// never produce an event again.
    pub fn next_duration(&mut self) -> (d: Option<u64>)
        requires
            old(self).wf(),
        ensures
            next_ok(*old(self), *final(self), d),
            final(self).wf(),
    {
        let mut taken: Emitter = Emitter::Periodic { duration: 0 };
        core::mem::swap(self, &mut taken);
        let res: (Emitter, Option<u64>) = next_duration_owned(taken);
        let mut advanced: Emitter = res.0;
        core::mem::swap(self, &mut advanced);
        res.1
    }
}

/// Law: a count-limited emitter whose count has run out yields no duration
/// and does not change — so it yields `None` on every later pull as well.
pub proof fn lemma_limited_exhausted(pre: Emitter, post: Emitter, d: Option<u64>)
    requires
        pre matches Emitter::Limited { remaining: 0u32, .. },
        next_ok(pre, post, d),
    ensures
        d is None,
        post == pre,
{
}

/// A trigger processor: wraps an emitter and fires whenever the elapsed
/// time reaches the scheduled time of the next event.
pub struct Trigger {
    /// The wrapped duration source.
    pub emitter: Emitter,
    /// The elapsed time (fixed-point seconds) at which the next event
    /// fires; `None` once no event is ever due again.
    pub next_time: Option<u64>,
}

/// Whether a tick at elapsed time `t` fires the trigger in state `g`.
pub open spec fn fires(g: Trigger, t: int) -> bool {
    g.next_time matches Some(n) && t >= n
}

/// The schedule after a fire at scheduled time `n`: `n + d` if a duration
/// `d` was yielded and the sum fits the time range, otherwise never again.
pub open spec fn advance_time(n: u64, d: Option<u64>) -> Option<u64> {
    match d {
        Some(v) => if n + v <= u64::MAX {
            Some((n + v) as u64)
        } else {
            None
        },
        None => None,
    }
}

/// The relation one `tick` call satisfies: a non-firing call changes
/// nothing; a firing call pulls one duration from the emitter and moves
/// the schedule forward by it.
pub open spec fn tick_ok(pre: Trigger, post: Trigger, t: int, fired: bool) -> bool {
    &&& fired == fires(pre, t)
    &&& if !fired {
        post == pre
    } else {
        exists|d: Option<u64>|
            #[trigger] next_ok(pre.emitter, post.emitter, d) && post.next_time == advance_time(
                pre.next_time->Some_0,
                d,
            )
    }
}

impl Trigger {
    /// The wrapped emitter is usable.
    pub open spec fn wf(self) -> bool {
        self.emitter.wf()
    }

    /// One scheduler step at elapsed time `t` (fixed-point seconds):
    /// reports whether an event fires now. At most one event fires per
    /// call, however far `t` has run past the schedule; a retired schedule
    /// (`None`) never fires again.
    pub fn tick(&mut self, t: i64) -> (fired: bool)
        requires
            old(self).wf(),
        ensures
            tick_ok(*old(self), *final(self), t as int, fired),
            final(self).wf(),
    {
        match self.next_time {
            Some(n) => {
                if t >= 0 && t as u64 >= n {
                    let d: Option<u64> = self.emitter.next_duration();
                    self.next_time = match d {
                        Some(v) => n.checked_add(v),
                        None => None,
                    };
                    proof {
                        assert(next_ok(old(self).emitter, self.emitter, d));
                    }
                    true
                } else {
                    false
                }
            },
            None => false,
        }
    }
}

/// Makes a trigger processor over `emitter`, scheduling the first event by
/// pulling one duration at construction (so a duration of `d` seconds
/// first fires once the elapsed time reaches `d`).
pub fn emitter_processer(emitter: Emitter) -> (g: Trigger)
    requires
        emitter.wf(),
    ensures
        g.wf(),
        exists|d: Option<u64>| #[trigger] next_ok(emitter, g.emitter, d) && g.next_time == d,
{
    let mut e: Emitter = emitter;
    let d: Option<u64> = e.next_duration();
    proof {
        assert(next_ok(emitter, e, d));
    }
    Trigger { emitter: e, next_time: d }
}

/// Law: a trigger whose schedule is retired never fires again — every
/// tick, at any time, returns false and leaves the trigger unchanged.
pub proof fn lemma_retired_trigger_never_fires(pre: Trigger, post: Trigger, t: int, fired: bool)
    requires
        pre.next_time is None,
        tick_ok(pre, post, t, fired),
    ensures
        !fired,
        post == pre,
{
}

} // verus!
