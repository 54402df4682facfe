//! The granular voice pool and the voice generators it mixes.
//!
//! A [`Gen`] is one voice: a tagged variant for each generator kind —
//! constant, waveform on a phase accumulator, pseudo-noise on a clock —
//! and combinators for gain, mixing and envelopes. A [`MultiGen`] owns any
//! number of voices, each with a finite lifetime in samples; every tick it
//! advances and sums all of them and retires the expired ones.

use crate::envelope::{env_at, Envelope};
use crate::fixed::{
    clamp_fix, clamp_fix_wide, sat_from_wide, sat_i64, scale_spec, scale_wide, FIX_MAX,
};
use crate::oscillator::{
    noise, noise_spec, saw, saw_spec, sin, sin_spec, square, square_spec, triangle,
    triangle_spec, PhaseGen, TimeGen,
};
use vstd::arithmetic::div_mod::lemma_div_is_ordered;
use vstd::prelude::*;

verus! {

/// A zero-argument sample generator: each call of `next` produces one
/// sample and advances the state. `next_value` pins the sample down
/// exactly; `next_state_ok` says how the state may change (exactly, for
/// deterministic generators).
pub trait Signal: Sized {
    /// The generator's state is usable.
    spec fn wf(self) -> bool;

    /// How one call of `next` may change the state.
    spec fn next_state_ok(pre: Self, post: Self) -> bool;

    /// The sample one call of `next` returns.
    spec fn next_value(self) -> int;

    /// Produces one sample and advances the state.
    fn next(&mut self) -> (v: i64)
        requires
            old(self).wf(),
        ensures
            Self::next_state_ok(*old(self), *final(self)),
            v as int == old(self).next_value(),
            final(self).wf(),
    ;
}

/// The waveform shapes a [`Gen::Wave`] voice can produce.
#[derive(Clone, Copy, Debug)]
pub enum Shape {
    /// The engine's piecewise-parabolic sine.
    Sine,
    /// Square wave.
    Square,
    /// Sawtooth ramp.
    Saw,
    /// Triangle wave.
    Triangle,
}

/// What a waveform shape evaluates to at a fixed-point phase `t`.
pub open spec fn wave_at(shape: Shape, t: int) -> int {
    match shape {
        Shape::Sine => sin_spec(t),
        Shape::Square => square_spec(t),
        Shape::Saw => saw_spec(t),
        Shape::Triangle => triangle_spec(t),
    }
}

/// One voice generator.
pub enum Gen {
    /// Yields a constant sample.
    Const {
        /// The sample, within the engine's working range.
        value: i64,
    },
    /// A waveform driven by its own phase accumulator at a fixed
    /// fixed-point frequency.
    Wave {
        /// Which waveform to evaluate.
        shape: Shape,
        /// The voice's own phase accumulator.
        phase: PhaseGen,
        /// The frequency the phase advances by, in fixed-point hertz.
        freq: u64,
    },
    /// Deterministic pseudo-noise on the voice's own clock, the time
    /// scaled by an integer rate.
    Noise {
        /// The noise seed.
        seed: u32,
        /// The voice's own elapsed-time accumulator.
        clock: TimeGen,
        /// How many times faster than the clock the noise pattern runs.
        rate: u32,
    },
    /// The inner generator scaled by an envelope evaluated on the voice's
    /// own clock.
    Env {
        /// The envelope supplying the gain.
        env: Envelope,
        /// The voice's own elapsed-time accumulator.
        clock: TimeGen,
        /// The generator being shaped.
        inner: Box<Gen>,
    },
    /// The inner generator scaled by a constant gain.
    Gain {
        /// The fixed-point gain.
        amount: i64,
        /// The generator being scaled.
        inner: Box<Gen>,
    },
    /// The sum of two generators.
    Mix {
        /// One summand.
        a: Box<Gen>,
        /// The other summand.
        b: Box<Gen>,
    },
}

/// Every part of the generator is usable and within the engine's ranges.
pub open spec fn gen_wf(g: Gen) -> bool
    decreases g,
{
    match g {
        Gen::Const { value } => -FIX_MAX <= value <= FIX_MAX,
        Gen::Wave { phase, freq, .. } => phase.wf() && freq <= 0x1000000000000,
        Gen::Noise { clock, .. } => clock.wf(),
        Gen::Env { env, clock, inner } => env.wf() && clock.wf() && gen_wf(*inner),
        Gen::Gain { amount, inner } => -FIX_MAX <= amount <= FIX_MAX && gen_wf(*inner),
        Gen::Mix { a, b } => gen_wf(*a) && gen_wf(*b),
    }
}

/// The sample one step of the generator produces: waveforms are read at
/// the current phase, noise and envelopes at the current clock time, and
/// every combined value is clamped into the engine's working range.
pub open spec fn gen_value(g: Gen) -> int
    decreases g,
{
    match g {
        Gen::Const { value } => value as int,
        Gen::Wave { shape, phase, freq } => wave_at(shape, phase.out_spec()),
        Gen::Noise { seed, clock, rate } => noise_spec(
            seed,
            clamp_fix(clock.value_spec() * rate),
        ),
        Gen::Env { env, clock, inner } => clamp_fix(
            scale_spec(env_at(env, clock.value_spec()), gen_value(*inner)),
        ),
        Gen::Gain { amount, inner } => clamp_fix(scale_spec(amount as int, gen_value(*inner))),
        Gen::Mix { a, b } => clamp_fix(gen_value(*a) + gen_value(*b)),
    }
}

/// The generator after one step: every phase accumulator and clock in it
/// has advanced by one sample.
pub open spec fn gen_step(g: Gen) -> Gen
    decreases g,
{
    match g {
        Gen::Const { value } => Gen::Const { value },
        Gen::Wave { shape, phase, freq } => Gen::Wave { shape, phase: phase.advanced(freq), freq },
        Gen::Noise { seed, clock, rate } => Gen::Noise { seed, clock: clock.advanced(), rate },
        Gen::Env { env, clock, inner } => Gen::Env {
            env,
            clock: clock.advanced(),
            inner: Box::new(gen_step(*inner)),
        },
        Gen::Gain { amount, inner } => Gen::Gain { amount, inner: Box::new(gen_step(*inner)) },
        Gen::Mix { a, b } => Gen::Mix { a: Box::new(gen_step(*a)), b: Box::new(gen_step(*b)) },
    }
}

/// Steps a generator taken by value: hands back the advanced generator and
/// the sample it produced.
fn gen_step_exec(g: Gen) -> (res: (Gen, i64))
    requires
        gen_wf(g),
    ensures
        res.0 == gen_step(g),
        res.1 as int == gen_value(g),
        gen_wf(res.0),
    decreases g,
{
    match g {
        Gen::Const { value } => (Gen::Const { value }, value),
        Gen::Wave { shape, mut phase, freq } => {
            let t: i64 = phase.next(freq);
            let v: i64 = match shape {
                Shape::Sine => sin(t),
                Shape::Square => square(t),
                Shape::Saw => saw(t),
                Shape::Triangle => triangle(t),
            };
            (Gen::Wave { shape, phase, freq }, v)
        },
        Gen::Noise { seed, mut clock, rate } => {
            let t: i64 = clock.next();
            proof {
                assert((t as int) * (rate as int) <= 0x80000000000000000000000000) by (nonlinear_arith)
                    requires
                        0 <= t <= 0x7fffffffffffffff,
                        rate <= 0xffffffff,
                ;
            }
            let arg: i64 = clamp_fix_wide((t as i128) * (rate as i128));
            let v: i64 = noise(seed, arg);
            (Gen::Noise { seed, clock, rate }, v)
        },
        Gen::Env { env, mut clock, inner } => {
            let t: i64 = clock.next();
            let e: i64 = env.get(t);
            let res: (Gen, i64) = gen_step_exec(*inner);
            let v: i64 = clamp_fix_wide(scale_wide(e, res.1));
            (Gen::Env { env, clock, inner: Box::new(res.0) }, v)
        },
        Gen::Gain { amount, inner } => {
            let res: (Gen, i64) = gen_step_exec(*inner);
            let v: i64 = clamp_fix_wide(scale_wide(amount, res.1));
            (Gen::Gain { amount, inner: Box::new(res.0) }, v)
        },
        Gen::Mix { a, b } => {
            let ra: (Gen, i64) = gen_step_exec(*a);
            let rb: (Gen, i64) = gen_step_exec(*b);
            let v: i64 = clamp_fix_wide(ra.1 as i128 + rb.1 as i128);
            (Gen::Mix { a: Box::new(ra.0), b: Box::new(rb.0) }, v)
        },
    }
}

impl Signal for Gen {
    open spec fn wf(self) -> bool {
        gen_wf(self)
    }

    open spec fn next_state_ok(pre: Gen, post: Gen) -> bool {
        post == gen_step(pre)
    }

    open spec fn next_value(self) -> int {
        gen_value(self)
    }

    fn next(&mut self) -> (v: i64) {
        let mut taken: Gen = Gen::Const { value: 0 };
        core::mem::swap(self, &mut taken);
        let res: (Gen, i64) = gen_step_exec(taken);
        let mut advanced: Gen = res.0;
        core::mem::swap(self, &mut advanced);
        res.1
    }
}

/// One voice of the pool: a generator and its remaining lifetime in
/// samples.
pub struct Voice {
    /// The voice's generator.
    pub gen: Gen,
    /// Samples left before the voice is retired.
    pub remaining: u64,
}

/// The voice after one tick: lifetime counted down first (stopping at
/// zero), generator advanced.
pub open spec fn voice_step(v: Voice) -> Voice {
    Voice {
        gen: gen_step(v.gen),
        remaining: if v.remaining == 0 {
            0u64
        } else {
            (v.remaining - 1) as u64
        },
    }
}

/// The sum one tick accumulates: every voice's next sample, front to back.
pub open spec fn mix_sum(s: Seq<Voice>) -> int
    decreases s.len(),
{
    if s.len() == 0 {
        0
    } else {
        mix_sum(s.drop_last()) + gen_value(s.last().gen)
    }
}

/// The voices that survive one tick: each stepped, those whose lifetime
/// has now run out removed, the others kept in order.
pub open spec fn surviving(s: Seq<Voice>) -> Seq<Voice>
    decreases s.len(),
{
    if s.len() == 0 {
        Seq::empty()
    } else {
        let rest = surviving(s.drop_last());
        let v = voice_step(s.last());
        if v.remaining > 0 {
            rest.push(v)
        } else {
            rest
        }
    }
}

/// Every voice's generator in the sequence is usable.
pub open spec fn voices_wf(s: Seq<Voice>) -> bool {
    forall|j: int| 0 <= j < s.len() ==> gen_wf((#[trigger] s[j]).gen)
}

/// The lifetime in samples a duration converts to: `duration * sample_rate`
/// truncated to whole samples.
pub open spec fn lifetime_of(duration: int, sample_rate: int) -> int {
    (duration * sample_rate) / 65536
}

/// The granular voice pool: an insertion-ordered collection of voices and
/// the sample rate used to size their lifetimes.
pub struct MultiGen {
    /// Samples per second; converts durations into lifetimes.
    pub sample_rate: u32,
    /// The live voices, in insertion order.
    pub voices: Vec<Voice>,
}

impl MultiGen {
    /// Makes an empty pool at `sample_rate` samples per second.
    pub fn new(sample_rate: u32) -> (m: MultiGen)
        requires
            sample_rate >= 1,
        ensures
            m.sample_rate == sample_rate,
            m.voices@.len() == 0,
            m.wf(),
    {
        MultiGen { sample_rate, voices: Vec::new() }
    }

    /// Appends a voice that will live for `floor(duration * sample_rate)`
    /// samples (fixed-point seconds; a lifetime of zero still produces one
    /// sample on the next tick before the voice is retired).
    pub fn add(&mut self, g: Gen, duration: i64)
        requires
            old(self).wf(),
            gen_wf(g),
            0 <= duration <= FIX_MAX,
        ensures
            final(self).voices@ == old(self).voices@.push(
                Voice {
                    gen: g,
                    remaining: lifetime_of(duration as int, old(self).sample_rate as int) as u64,
                },
            ),
            final(self).sample_rate == old(self).sample_rate,
            final(self).wf(),
    {
        proof {
            assert((duration as int) * (self.sample_rate as int) <= 0x7fffffffffff * 0xffffffff)
                by (nonlinear_arith)
                requires
                    0 <= duration <= 0x7fffffffffff,
                    self.sample_rate <= 0xffffffff,
            ;
            lemma_div_is_ordered(
                (duration as int) * (self.sample_rate as int),
                0x7fffffffffffint * 0xffffffff,
                65536,
            );
        }
        let prod: u128 = (duration as u128) * (self.sample_rate as u128);
        let life: u64 = (prod / 65536) as u64;
        self.voices.push(Voice { gen: g, remaining: life });
    }
}

impl Signal for MultiGen {
    open spec fn wf(self) -> bool {
        self.sample_rate >= 1 && voices_wf(self.voices@)
    }

    open spec fn next_state_ok(pre: MultiGen, post: MultiGen) -> bool {
        post.voices@ == surviving(pre.voices@) && post.sample_rate == pre.sample_rate
    }

    open spec fn next_value(self) -> int {
        sat_i64(mix_sum(self.voices@))
    }

    /// One tick: counts every voice's lifetime down by one, advances every
    /// voice once and sums what they produce, then compacts the pool in
    /// place, dropping exactly the voices whose lifetime has run out.
    fn next(&mut self) -> (out: i64) {
        let n: usize = self.voices.len();
        let ghost orig: Seq<Voice> = self.voices@;
        let mut acc: i128 = 0;
        let mut keep: usize = 0;
        let mut i: usize = 0;
        proof {
            assert(orig.take(0) =~= Seq::<Voice>::empty());
        }
        while i < n
            invariant
                keep <= i <= n,
                n == orig.len(),
                self.voices@.len() == n,
                self.sample_rate == old(self).sample_rate,
                self.sample_rate >= 1,
                voices_wf(orig),
                forall|j: int| i <= j < n ==> self.voices@[j] == orig[j],
                self.voices@.take(keep as int) == surviving(orig.take(i as int)),
                voices_wf(self.voices@.take(keep as int)),
                acc == mix_sum(orig.take(i as int)),
                -0x8000000000000000 * (i as int) <= acc
                    <= 0x8000000000000000 * (i as int),
            decreases n - i,
        {
            let ghost pre_vec: Seq<Voice> = self.voices@;
            let mut tmp: Voice = Voice { gen: Gen::Const { value: 0 }, remaining: 0 };
            core::mem::swap(&mut tmp, &mut self.voices[i]);
            tmp.remaining = if tmp.remaining > 0 {
                tmp.remaining - 1
            } else {
                0
            };
            let val: i64 = tmp.gen.next();
            acc = acc + (val as i128);
            proof {
                assert(orig.take(i as int + 1).drop_last() =~= orig.take(i as int));
                assert(orig.take(i as int + 1).last() == orig[i as int]);
                assert(tmp == voice_step(orig[i as int]));
            }
            if tmp.remaining > 0 {
                self.voices[keep] = tmp;
                proof {
                    assert(self.voices@.take(keep as int + 1) =~= pre_vec.take(
                        keep as int,
                    ).push(voice_step(orig[i as int])));
                }
                keep = keep + 1;
            } else {
                proof {
                    assert(self.voices@.take(keep as int) =~= pre_vec.take(keep as int));
                }
            }
            proof {
                assert(forall|j: int|
                    i + 1 <= j < n ==> self.voices@[j] == orig[j]);
            }
            i = i + 1;
        }
        proof {
            assert(orig.take(n as int) =~= orig);
        }
        self.voices.truncate(keep);
        proof {
            assert(self.voices@ =~= surviving(orig));
        }
        sat_from_wide(acc)
    }
}

/// The pool's voice list after `n` ticks of pruning.
pub open spec fn surviving_iter(s: Seq<Voice>, n: nat) -> Seq<Voice>
    decreases n,
{
    if n == 0 {
        s
    } else {
        surviving(surviving_iter(s, (n - 1) as nat))
    }
}

/// Law: with decrement-before-generate ordering, a voice with lifetime `k`
/// is present for exactly `max(k, 1)` ticks: after `n >= 1` ticks a pool
/// that held just that voice still holds it exactly when `n < k` (so a
/// voice with lifetime zero still plays on its first tick and is gone
/// after), and while it is held its lifetime has gone down by one per tick.
pub proof fn lemma_voice_survives_lifetime_ticks(v: Voice, n: nat)
    requires
        n >= 1,
    ensures
        n < v.remaining ==> surviving_iter(seq![v], n).len() == 1 && surviving_iter(
            seq![v],
            n,
        )[0].remaining == v.remaining - n,
        n >= v.remaining ==> surviving_iter(seq![v], n).len() == 0,
    decreases n,
{
    assert(surviving(Seq::<Voice>::empty()) == Seq::<Voice>::empty());
    if n == 1 {
        let s0 = seq![v];
        assert(s0.drop_last() =~= Seq::<Voice>::empty());
        assert(s0.last() == v);
    } else {
        lemma_voice_survives_lifetime_ticks(v, (n - 1) as nat);
        let prev = surviving_iter(seq![v], (n - 1) as nat);
        if n - 1 < v.remaining {
            assert(prev =~= seq![prev[0]]);
            assert(prev.drop_last() =~= Seq::<Voice>::empty());
            assert(prev.last() == prev[0]);
        } else {
            assert(prev =~= Seq::<Voice>::empty());
        }
    }
}

} // verus!
