//! Behavioural tests of the spatial pipeline on concrete scenes.

use ambisonic::bformat::{Bformat, Vec3};
use ambisonic::bmixer::{BstreamMixer, SoundCommand};
use ambisonic::bstream::BstreamConfig;
use ambisonic::sources::BufferSource;

const ONE: i64 = 65536;

fn buffer(samples: Vec<i64>) -> BufferSource {
    BufferSource::new(samples)
}

fn at(x: i64, y: i64, z: i64) -> BstreamConfig {
    BstreamConfig::new().with_position(Vec3 { x, y, z })
}

#[test]
fn empty_mix_renders_silence_indefinitely() {
    let mut mixer: BstreamMixer<BufferSource> = BstreamMixer::new(48000);
    for _ in 0..100 {
        let f = mixer.tick();
        assert_eq!(f, Bformat { w: 0, x: 0, y: 0, z: 0 });
    }
    assert_eq!(mixer.active.len(), 0);
}

#[test]
fn front_unit_source_encodes_on_forward_axis() {
    let mut mixer: BstreamMixer<BufferSource> = BstreamMixer::new(48000);
    mixer.play(buffer(vec![ONE, ONE]), at(ONE, 0, 0));
    // The interpolation window starts silent: the first tick still plays it.
    let f1 = mixer.tick();
    assert_eq!(f1, Bformat { w: 0, x: 0, y: 0, z: 0 });
    // The second tick plays the first full-scale sample: W carries the
    // 1/sqrt(2) blend, X the full sample, and both lateral axes are zero.
    let f2 = mixer.tick();
    assert_eq!(f2, Bformat { w: 46341, x: ONE, y: 0, z: 0 });
    // Exhaustion retires the channel.
    let f3 = mixer.tick();
    assert_eq!(f3, Bformat { w: 0, x: 0, y: 0, z: 0 });
    let _ = mixer.tick();
    assert_eq!(mixer.active.len(), 0);
}

#[test]
fn mix_is_component_wise_sum_and_order_independent() {
    let run = |first_front: bool| -> Vec<Bformat> {
        let mut mixer: BstreamMixer<BufferSource> = BstreamMixer::new(48000);
        let front = (buffer(vec![ONE / 2, ONE / 2]), at(ONE, 0, 0));
        let left = (buffer(vec![ONE / 4, ONE / 4]), at(0, ONE, 0));
        if first_front {
            mixer.play(front.0, front.1);
            mixer.play(left.0, left.1);
        } else {
            mixer.play(left.0, left.1);
            mixer.play(front.0, front.1);
        }
        (0..3).map(|_| mixer.tick()).collect()
    };
    let ab = run(true);
    let ba = run(false);
    // Registration order does not change the mix.
    assert_eq!(ab, ba);

    // The mixed frame is the component-wise sum of the two sources'
    // independently computed frames.
    let solo = |samples: Vec<i64>, cfg: BstreamConfig| -> Vec<Bformat> {
        let mut mixer: BstreamMixer<BufferSource> = BstreamMixer::new(48000);
        mixer.play(buffer(samples), cfg);
        (0..3).map(|_| mixer.tick()).collect()
    };
    let fa = solo(vec![ONE / 2, ONE / 2], at(ONE, 0, 0));
    let fb = solo(vec![ONE / 4, ONE / 4], at(0, ONE, 0));
    for t in 0..3 {
        assert_eq!(ab[t].w, fa[t].w + fb[t].w);
        assert_eq!(ab[t].x, fa[t].x + fb[t].x);
        assert_eq!(ab[t].y, fa[t].y + fb[t].y);
        assert_eq!(ab[t].z, fa[t].z + fb[t].z);
    }
}

#[test]
fn doubling_distance_halves_the_contribution() {
    let second_frame = |x: i64| -> Bformat {
        let mut mixer: BstreamMixer<BufferSource> = BstreamMixer::new(48000);
        mixer.play(buffer(vec![ONE, ONE]), at(x, 0, 0));
        mixer.tick();
        mixer.tick()
    };
    let near = second_frame(ONE);
    let far = second_frame(2 * ONE);
    assert_eq!(near.x, ONE);
    assert_eq!(far.x, ONE / 2);
    assert_eq!(near.w, 46341);
    assert_eq!(far.w, 23170);
}

#[test]
fn distance_attenuation_saturates_at_the_floor() {
    // The default minimum-distance floor is 0.25 units; both positions lie
    // at or under it, so both get exactly the floor's gain.
    let second_frame = |x: i64| -> Bformat {
        let mut mixer: BstreamMixer<BufferSource> = BstreamMixer::new(48000);
        mixer.play(buffer(vec![ONE, ONE]), at(x, 0, 0));
        mixer.tick();
        mixer.tick()
    };
    let deep = second_frame(ONE / 8);
    let floor = second_frame(ONE / 4);
    assert_eq!(deep, floor);
    // The gain saturates instead of diverging: four times unity, not more.
    assert_eq!(floor.x, 4 * ONE);
}

#[test]
fn approaching_source_consumes_faster_receding_slower() {
    // A channel pulls samples at the Doppler rate: toward the listener the
    // buffer drains in fewer ticks, away from the listener in more.
    let ticks_to_exhaust = |vx: i64| -> usize {
        let mut mixer: BstreamMixer<BufferSource> = BstreamMixer::new(48000);
        let cfg = at(ONE, 0, 0).with_velocity(Vec3 { x: vx, y: 0, z: 0 });
        mixer.play(buffer(vec![ONE / 2; 100]), cfg);
        for t in 0..1000 {
            mixer.tick();
            if mixer.active.len() == 0 {
                return t;
            }
        }
        1000
    };
    let toward = ticks_to_exhaust(-171 * ONE);
    let still = ticks_to_exhaust(0);
    let away = ticks_to_exhaust(171 * ONE);
    assert!(toward < still, "toward={} still={}", toward, still);
    assert!(still < away, "still={} away={}", still, away);
}

#[test]
fn stop_is_idempotent_and_unknown_ids_are_ignored() {
    let run = |stops: usize| -> (Vec<Bformat>, usize) {
        let mut mixer: BstreamMixer<BufferSource> = BstreamMixer::new(48000);
        mixer.play(buffer(vec![ONE; 10]), at(ONE, 0, 0));
        let id = mixer.play(buffer(vec![ONE; 10]), at(0, ONE, 0));
        mixer.tick();
        for _ in 0..stops {
            mixer.apply(SoundCommand::Stop { id });
        }
        // A command for a source that never existed is a no-op.
        mixer.apply(SoundCommand::Stop { id: 9999 });
        let out = (0..5).map(|_| mixer.tick()).collect();
        (out, mixer.active.len())
    };
    let (once, n1) = run(1);
    let (twice, n2) = run(2);
    assert_eq!(once, twice);
    assert_eq!(n1, 1);
    assert_eq!(n2, 1);
}

#[test]
fn stop_after_natural_exhaustion_is_a_no_op() {
    let mut mixer: BstreamMixer<BufferSource> = BstreamMixer::new(48000);
    let id = mixer.play(buffer(vec![ONE]), at(ONE, 0, 0));
    for _ in 0..4 {
        mixer.tick();
    }
    assert_eq!(mixer.active.len(), 0);
    mixer.apply(SoundCommand::Stop { id });
    mixer.apply(SoundCommand::Stop { id });
    assert_eq!(mixer.tick(), Bformat { w: 0, x: 0, y: 0, z: 0 });
}

#[test]
fn source_stopped_before_first_tick_never_contributes() {
    let mut mixer: BstreamMixer<BufferSource> = BstreamMixer::new(48000);
    let id = mixer.play(buffer(vec![ONE; 50]), at(ONE, 0, 0));
    mixer.apply(SoundCommand::Stop { id });
    for _ in 0..10 {
        let f = mixer.tick();
        assert_eq!(f, Bformat { w: 0, x: 0, y: 0, z: 0 });
    }
    assert_eq!(mixer.active.len(), 0);
}

#[test]
fn control_updates_take_effect_on_the_next_tick() {
    let mut mixer: BstreamMixer<BufferSource> = BstreamMixer::new(48000);
    let id = mixer.play(buffer(vec![ONE; 5]), at(ONE, 0, 0));
    mixer.tick();
    let f_front = mixer.tick();
    assert_eq!(f_front.x, ONE);
    assert_eq!(f_front.y, 0);
    mixer.apply(SoundCommand::SetPosition { id, position: Vec3 { x: 0, y: ONE, z: 0 } });
    let f_left = mixer.tick();
    assert_eq!(f_left.x, 0);
    assert_eq!(f_left.y, ONE);
}

#[test]
fn gain_scales_the_contribution() {
    let mut mixer: BstreamMixer<BufferSource> = BstreamMixer::new(48000);
    let id = mixer.play(buffer(vec![ONE; 5]), at(ONE, 0, 0));
    mixer.tick();
    mixer.apply(SoundCommand::SetGain { id, gain: ONE / 2 });
    let f = mixer.tick();
    assert_eq!(f.x, ONE / 2);
}

#[test]
fn zero_distance_falls_back_to_the_last_direction() {
    let mut mixer: BstreamMixer<BufferSource> = BstreamMixer::new(48000);
    let id = mixer.play(buffer(vec![ONE; 6]), at(ONE, 0, 0));
    mixer.tick();
    mixer.tick();
    // Move the source onto the listener: the direction is undefined, so the
    // channel keeps the last valid one (the forward axis) and the gain
    // saturates at the minimum-distance floor.
    mixer.apply(SoundCommand::SetPosition { id, position: Vec3 { x: 0, y: 0, z: 0 } });
    let f = mixer.tick();
    assert_eq!(f.y, 0);
    assert_eq!(f.z, 0);
    assert_eq!(f.x, 4 * ONE);
}

#[test]
fn adjust_position_moves_relative() {
    let mut mixer: BstreamMixer<BufferSource> = BstreamMixer::new(48000);
    let id = mixer.play(buffer(vec![ONE; 6]), at(2 * ONE, 0, 0));
    mixer.tick();
    mixer.apply(SoundCommand::AdjustPosition { id, delta: Vec3 { x: -ONE, y: 0, z: 0 } });
    let f = mixer.tick();
    // After the relative move the source sits at unit distance in front.
    assert_eq!(f.x, ONE);
}
