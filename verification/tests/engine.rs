//! End-to-end tests of the synthesis engine on concrete fixed-point values.

use gense::effect::{alpha, bpf, delay, hpf, lpf, soft_clip};
use gense::emitter::{emitter_processer, emitter_stop_n, periodic_emitter, random_emitter};
use gense::envelope::{Envelope, Exponential, Path};
use gense::granular::{Gen, MultiGen, Shape, Signal};
use gense::oscillator::{noise, phase, saw, sin, square, time, triangle};
use gense::{render, render_timed};

const ONE: i64 = 65536;
const HALF: i64 = 32768;

#[test]
fn time_sequence_counts_sample_periods() {
    let mut clock = time(4);
    assert_eq!(clock.next(), 0);
    assert_eq!(clock.next(), 16384);
    assert_eq!(clock.next(), 32768);
    assert_eq!(clock.next(), 49152);
}

#[test]
fn phase_wraps_at_sample_rate() {
    let mut p = phase(8);
    let full_cycle: u64 = 8 * 65536;
    let first = p.next(full_cycle);
    let second = p.next(full_cycle);
    assert_eq!(first, 0);
    assert_eq!(second, 0);

    let mut q = phase(8);
    for _ in 0..100 {
        let v = q.next(3 * 65536);
        assert!(0 <= v && v < ONE);
    }
}

#[test]
fn phase_advances_by_frequency_over_rate() {
    let mut p = phase(8);
    assert_eq!(p.next(65536), 0);
    assert_eq!(p.next(65536), 8192);
    assert_eq!(p.next(65536), 16384);
}

#[test]
fn sine_quarter_points() {
    assert_eq!(sin(0), 0);
    assert_eq!(sin(16384), ONE);
    assert_eq!(sin(32768), 0);
    assert_eq!(sin(49152), -ONE);
}

#[test]
fn sine_is_periodic_and_odd_around_zero() {
    assert_eq!(sin(-16384), -ONE);
    assert_eq!(sin(65536 + 16384), ONE);
    assert_eq!(sin(8192), 49152);
}

#[test]
fn square_saw_triangle_values() {
    assert_eq!(square(0), ONE);
    assert_eq!(square(16384), ONE);
    assert_eq!(square(32768), -ONE);
    assert_eq!(square(49152), -ONE);
    assert_eq!(square(65536), ONE);
    assert_eq!(square(-16384), -ONE);
    assert_eq!(square(-49152), ONE);

    assert_eq!(saw(0), 0);
    assert_eq!(saw(16384), HALF);
    assert_eq!(saw(32768), -ONE);
    assert_eq!(saw(49152), -HALF);

    assert_eq!(triangle(0), -ONE);
    assert_eq!(triangle(16384), 0);
    assert_eq!(triangle(32768), ONE);
    assert_eq!(triangle(49152), 0);
}

#[test]
fn exponential_endpoints_are_exact() {
    let env = Exponential::new(6554, 65536).unwrap();
    assert_eq!(env.get(0), ONE);
    assert_eq!(env.get(65536), 6554);
    assert_eq!(env.get(70000), 6554);
    assert_eq!(env.duration(), 65536);
}

#[test]
fn exponential_interior_samples() {
    let env = Exponential::new(6554, 65536).unwrap();
    assert_eq!(env.get(16384), 36853);
    assert_eq!(env.get(32768), 20724);
    assert_eq!(env.get(49152), 11653);
}

#[test]
fn exponential_decreases_toward_small_target() {
    let env = Exponential::new(6554, 65536).unwrap();
    let mut prev = env.get(0);
    let mut t: i64 = 4096;
    while t < 65536 {
        let v = env.get(t);
        assert!(v < prev, "not decreasing at t = {}", t);
        prev = v;
        t += 4096;
    }
}

#[test]
fn exponential_rejects_bad_parameters() {
    assert!(Exponential::new(0, 65536).is_err());
    assert!(Exponential::new(-5, 65536).is_err());
    assert!(Exponential::new(65536, 0).is_err());
    assert!(Exponential::new(65536, -1).is_err());
    assert!(Exponential::new(65536, 65536).is_ok());
}

#[test]
fn path_interpolates_between_breakpoints() {
    let env = Path::new(vec![(0, 0), (65536, 655360), (131072, 0)]);
    assert_eq!(env.get(32768), 327680);
    assert_eq!(env.get(98304), 327680);
    assert_eq!(env.get(-65536), 0);
    assert_eq!(env.get(5 * 65536), 0);
    assert_eq!(env.get(65536), 655360);
    assert_eq!(env.duration(), 131072);
}

#[test]
fn empty_path_is_silent() {
    let env = Path::new(Vec::new());
    assert_eq!(env.get(0), 0);
    assert_eq!(env.get(12345), 0);
    assert_eq!(env.duration(), 0);
}

#[test]
fn alpha_coefficient_values() {
    assert_eq!(alpha(44100, 1000 * 65536), 8172);
    assert_eq!(alpha(4, 65536), 40043);
}

#[test]
fn lpf_smooths_toward_input() {
    let mut f = lpf();
    assert_eq!(f.process(HALF, ONE), HALF);
    assert_eq!(f.process(HALF, ONE), 49152);
}

#[test]
fn hpf_reacts_to_changes() {
    let mut f = hpf();
    assert_eq!(f.process(HALF, ONE), HALF);
    assert_eq!(f.process(HALF, 0), -16384);
}

#[test]
fn soft_clip_values_and_limit() {
    assert_eq!(soft_clip(ONE, 0), 0);
    assert_eq!(soft_clip(ONE, 16384), 16086);
    assert_eq!(soft_clip(ONE, 32768), 30527);
    assert_eq!(soft_clip(ONE, 65536), 50972);
    assert_eq!(soft_clip(ONE, 131072), 64495);
    assert_eq!(soft_clip(ONE, 65536000), ONE);
    assert_eq!(soft_clip(ONE, -32768), -30527);
    assert!(soft_clip(ONE, 16384) < soft_clip(ONE, 32768));
}

#[test]
fn bpf_impulse_response() {
    let mut f = bpf(44100, 2000 * 65536, 20 * 65536);
    assert_eq!(f.process(ONE), 535);
    assert_eq!(f.process(0), 1026);
    assert_eq!(f.process(0), 907);
}

#[test]
fn delay_echoes_impulse_with_feedback() {
    let mut d = delay(4, 65536, HALF).unwrap();
    let mut outs: Vec<i64> = Vec::new();
    outs.push(d.process(ONE));
    for _ in 1..9 {
        outs.push(d.process(0));
    }
    assert_eq!(outs[0], ONE);
    assert_eq!(outs[4], HALF);
    assert_eq!(outs[8], 16384);
    assert_eq!(outs[1], 0);
    assert_eq!(outs[5], 0);
}

#[test]
fn delay_rejects_nonpositive_time() {
    assert!(delay(4, 0, HALF).is_err());
    assert!(delay(4, -100, HALF).is_err());
    assert!(delay(4, 65536, HALF).is_ok());
}

#[test]
fn periodic_trigger_fires_on_schedule() {
    let e = periodic_emitter(65536);
    let mut tr = emitter_processer(e);
    assert!(!tr.tick(0));
    assert!(!tr.tick(65535));
    assert!(tr.tick(65536));
    assert!(!tr.tick(65537));
    assert!(tr.tick(131072));
}

#[test]
fn stop_n_fires_exactly_n_times() {
    let e = emitter_stop_n(2, periodic_emitter(65536));
    let mut tr = emitter_processer(e);
    assert!(tr.tick(65536));
    assert!(tr.tick(131072));
    for k in 0..50 {
        assert!(!tr.tick(131072 + k * 65536));
    }
}

#[test]
fn stop_n_zero_never_fires() {
    let e = emitter_stop_n(0, periodic_emitter(65536));
    let mut tr = emitter_processer(e);
    for k in 0..20 {
        assert!(!tr.tick(k * 65536));
    }
}

#[test]
fn random_emitter_draws_within_range() {
    let mut e = random_emitter(1, 100, 200);
    let mut draws: Vec<u64> = Vec::new();
    for _ in 0..20 {
        let d = e.next_duration().unwrap();
        assert!(100 <= d && d < 200);
        draws.push(d);
    }
    assert!(draws.iter().any(|&d| d != draws[0]), "draws should vary");
    let mut limited = emitter_stop_n(3, e);
    assert!(limited.next_duration().is_some());
    assert!(limited.next_duration().is_some());
    assert!(limited.next_duration().is_some());
    assert!(limited.next_duration().is_none());
    assert!(limited.next_duration().is_none());
}

#[test]
fn pool_voice_lives_for_its_lifetime() {
    let mut pool = MultiGen::new(4);
    pool.add(Gen::Const { value: ONE }, 49152);
    assert_eq!(pool.next(), ONE);
    assert_eq!(pool.next(), ONE);
    assert_eq!(pool.next(), ONE);
    assert_eq!(pool.next(), 0);
    assert_eq!(pool.next(), 0);
}

#[test]
fn pool_mixes_and_retires_voices_independently() {
    let mut pool = MultiGen::new(4);
    pool.add(Gen::Const { value: 100 }, 32768);
    pool.add(Gen::Const { value: 23 }, 16384);
    assert_eq!(pool.next(), 123);
    assert_eq!(pool.next(), 100);
    assert_eq!(pool.next(), 0);
}

#[test]
fn pool_zero_lifetime_voice_still_plays_once() {
    let mut pool = MultiGen::new(4);
    pool.add(Gen::Const { value: ONE }, 0);
    assert_eq!(pool.next(), ONE);
    assert_eq!(pool.next(), 0);
}

#[test]
fn render_produces_exactly_floor_duration_times_rate_samples() {
    let mut g = Gen::Const { value: 123 };
    let buf = render(65536, 4, &mut g);
    assert_eq!(buf, vec![123, 123, 123, 123]);

    let mut g2 = Gen::Const { value: 7 };
    let buf2 = render(49152, 4, &mut g2);
    assert_eq!(buf2.len(), 3);
}

#[test]
fn render_drives_a_sine_voice() {
    let mut g = Gen::Wave { shape: Shape::Sine, phase: phase(4), freq: 65536 };
    let buf = render(65536, 4, &mut g);
    assert_eq!(buf, vec![0, ONE, 0, -ONE]);
}

#[test]
fn render_pool_of_enveloped_voice() {
    let env = Exponential::new(6554, 65536).unwrap();
    let mut g = Gen::Env {
        env: Envelope::Exp(env),
        clock: time(4),
        inner: Box::new(Gen::Const { value: ONE }),
    };
    let buf = render(65536, 4, &mut g);
    assert_eq!(buf, vec![ONE, 36853, 20724, 11653]);
}

#[test]
fn gain_and_mix_combinators() {
    let mut g = Gen::Gain { amount: HALF, inner: Box::new(Gen::Const { value: ONE }) };
    assert_eq!(g.next(), HALF);

    let mut m = Gen::Mix {
        a: Box::new(Gen::Const { value: 100 }),
        b: Box::new(Gen::Const { value: 23 }),
    };
    assert_eq!(m.next(), 123);
}

#[test]
fn render_timed_evaluates_envelope_at_sample_times() {
    let env = Path::new(vec![(0, 0), (65536, 655360)]);
    let buf = render_timed(65536, 4, &env);
    assert_eq!(buf, vec![0, 163840, 327680, 491520]);
}

#[test]
fn noise_is_deterministic_and_bounded() {
    assert_eq!(noise(1, 0), -18516);
    assert_eq!(noise(1, 0), noise(1, 0));
    assert_eq!(noise(1, 65536), 23014);
    assert_eq!(noise(7, 123456), -3390);
    for k in 0..200 {
        let v = noise(9, k * 97);
        assert!(-ONE <= v && v <= ONE);
    }
}

#[test]
fn noise_voice_follows_its_clock() {
    let mut g = Gen::Noise { seed: 1, clock: time(1), rate: 1 };
    let first = g.next();
    let second = g.next();
    assert_eq!(first, noise(1, 0));
    assert_eq!(second, noise(1, 65536));
}

#[test]
fn triggered_grains_fill_the_pool() {
    let mut tr = emitter_processer(emitter_stop_n(2, periodic_emitter(32768)));
    let mut pool = MultiGen::new(4);
    let mut clock = time(4);
    let mut outs: Vec<i64> = Vec::new();
    for _ in 0..8 {
        let t = clock.next();
        if tr.tick(t) {
            pool.add(Gen::Const { value: 100 }, 32768);
        }
        outs.push(pool.next());
    }
    assert_eq!(outs, vec![0, 0, 100, 100, 100, 100, 0, 0]);
}
