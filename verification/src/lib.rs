//! A small procedural audio synthesis engine over fixed-point samples.
//!
//! Every quantity the engine computes with — seconds, hertz, amplitudes,
//! phases measured in turns — is a binary fixed-point number with 16
//! fractional bits ([`fixed::ONE`] is the unit), so each generator's
//! behaviour can be stated and proved exactly.

pub mod effect;
pub mod emitter;
pub mod envelope;
pub mod fixed;
pub mod granular;
pub mod oscillator;

use crate::fixed::{sat_i64, FIX_MAX};
use crate::granular::Signal;
use vstd::arithmetic::div_mod::lemma_div_is_ordered;
use vstd::prelude::*;

verus! {

/// Rejection of a construction parameter that is not strictly positive or
/// does not fit the engine's fixed-point working range.
#[derive(Debug, Clone, Copy, PartialEq, Eq, Structural)]
pub enum ParamError {
    /// The parameter must be strictly positive and at most `fixed::FIX_MAX`.
    OutOfRange,
}

/// The state a run is in before its step `k`: the initial state for
/// `k == 0`, otherwise the state its step `k - 1` left behind.
pub open spec fn run_pre<G: Signal>(g0: G, states: Seq<G>, k: int) -> G {
    if k == 0 {
        g0
    } else {
        states[k - 1]
    }
}

/// A valid run of a generator from state `g0`: `states[k]` is the state
/// after `k + 1` calls of `next` and `outs[k]` the sample the call
/// returned, each call's outcome as the generator's contract allows it.
pub open spec fn run_ok<G: Signal>(g0: G, states: Seq<G>, outs: Seq<i64>) -> bool {
    &&& states.len() == outs.len()
    &&& forall|k: int|
        0 <= k < states.len() ==> G::next_state_ok(run_pre(g0, states, k), #[trigger] states[k])
            && outs[k] as int == run_pre(g0, states, k).next_value()
}

/// How many samples a render produces: `duration * sample_rate` truncated
/// to whole samples.
pub open spec fn sample_count(duration: int, sample_rate: int) -> int {
    (duration * sample_rate) / 65536
}

/// Renders `floor(duration * sample_rate)` samples: the generator is
/// called exactly that many times, in order, never more, never fewer, and
/// each result is collected in order. The samples and the generator's
/// final state form a valid run of the generator's contract.
pub fn render<G: Signal>(duration: i64, sample_rate: u32, g: &mut G) -> (out: Vec<i64>)
    requires
        old(g).wf(),
        sample_rate >= 1,
        0 <= duration <= FIX_MAX,
        sample_count(duration as int, sample_rate as int) <= usize::MAX,
    ensures
        out@.len() == sample_count(duration as int, sample_rate as int),
        final(g).wf(),
        exists|states: Seq<G>|
            #[trigger] run_ok(*old(g), states, out@) && *final(g) == run_pre(
                *old(g),
                states,
                out@.len() as int,
            ),
{
    proof {
        assert((duration as int) * (sample_rate as int) <= 0x7fffffffffff * 0xffffffff)
            by (nonlinear_arith)
            requires
                0 <= duration <= 0x7fffffffffff,
                sample_rate <= 0xffffffff,
        ;
        lemma_div_is_ordered(
            (duration as int) * (sample_rate as int),
            0x7fffffffffffint * 0xffffffff,
            65536,
        );
    }
    let prod: u128 = (duration as u128) * (sample_rate as u128);
    let total_u: u64 = (prod / 65536) as u64;
    let total: usize = total_u as usize;
    let mut out: Vec<i64> = Vec::new();
    let ghost g0: G = *g;
    let ghost mut states: Seq<G> = Seq::empty();
    let mut i: usize = 0;
    while i < total
        invariant
            i <= total,
            out@.len() == i,
            g.wf(),
            states.len() == i,
            run_ok(g0, states, out@),
            *g == run_pre(g0, states, i as int),
        decreases total - i,
    {
        let v: i64 = g.next();
        proof {
            states = states.push(*g);
        }
        out.push(v);
        i = i + 1;
    }
    proof {
        assert(run_ok(g0, states, out@));
    }
    out
}

/// A pure mapping from elapsed time to a sample, for the driver that
/// computes each sample's time itself.
pub trait TimedSignal {
    /// The mapping is usable.
    spec fn valid(&self) -> bool;

    /// The sample at elapsed fixed-point time `t`.
    spec fn value_at(&self, t: int) -> int;

    /// Evaluates the mapping at elapsed fixed-point time `t`.
    fn at(&self, t: i64) -> (v: i64)
        requires
            self.valid(),
            t >= 0,
        ensures
            v as int == self.value_at(t as int),
    ;
}

/// Renders `floor(duration * sample_rate)` samples of a time-indexed
/// mapping: sample `k` is the mapping's value at elapsed time
/// `k / sample_rate`, which the driver computes.
pub fn render_timed<F: TimedSignal>(duration: i64, sample_rate: u32, f: &F) -> (out: Vec<i64>)
    requires
        f.valid(),
        sample_rate >= 1,
        0 <= duration <= FIX_MAX,
        sample_count(duration as int, sample_rate as int) <= usize::MAX,
    ensures
        out@.len() == sample_count(duration as int, sample_rate as int),
        forall|k: int|
            0 <= k < out@.len() ==> (#[trigger] out@[k]) as int == f.value_at(
                sat_i64((k * 65536) / (sample_rate as int)),
            ),
{
    proof {
        assert((duration as int) * (sample_rate as int) <= 0x7fffffffffff * 0xffffffff)
            by (nonlinear_arith)
            requires
                0 <= duration <= 0x7fffffffffff,
                sample_rate <= 0xffffffff,
        ;
        lemma_div_is_ordered(
            (duration as int) * (sample_rate as int),
            0x7fffffffffffint * 0xffffffff,
            65536,
        );
    }
    let prod: u128 = (duration as u128) * (sample_rate as u128);
    let total_u: u64 = (prod / 65536) as u64;
    let total: usize = total_u as usize;
    let mut out: Vec<i64> = Vec::new();
    let mut i: usize = 0;
    while i < total
        invariant
            i <= total,
            out@.len() == i,
            f.valid(),
            sample_rate >= 1,
            forall|k: int|
                0 <= k < i ==> (#[trigger] out@[k]) as int == f.value_at(
                    sat_i64((k * 65536) / (sample_rate as int)),
                ),
        decreases total - i,
    {
        let w: u128 = (i as u128) * 65536 / (sample_rate as u128);
        let t: i64 = if w > i64::MAX as u128 {
            i64::MAX
        } else {
            w as i64
        };
        let v: i64 = f.at(t);
        out.push(v);
        i = i + 1;
    }
    out
}

} // verus!
