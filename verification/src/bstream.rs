//! Per-source channels: encoding a mono stream into B-format.
//!
//! A [`Bstream`] owns one mono sample producer together with its live
//! position, velocity and gain.  Each call to [`Bstream::next_frame`] advances
//! the producer under the current Doppler resampling rate, interpolates one
//! mono sample, and encodes it into one [`Bformat`] frame under the ambisonic
//! panning law.

use vstd::arithmetic::div_mod::{
    lemma_div_multiples_vanish, lemma_mod_sub_multiples_vanish, lemma_small_mod,
};
use vstd::prelude::*;

use crate::bformat::{weighted, Bformat, Bweights, Vec3};
use crate::fixed;
use crate::fixed::{clamped, fmul, isqrt_of, tdiv, tdiv_away};

verus! {

/// A pull-based producer of mono samples in Q16.16.
///
/// `None` signals that the producer is exhausted; implementations outside the
/// crate promise nothing about the values, so every consumer here clamps them
/// and states what holds of any outcome.
pub trait MonoSource {
    /// The next mono sample, or `None` once the stream is drained.
    fn next_sample(&mut self) -> (r: Option<i64>);
}

/// Initial placement of a new source.
#[derive(Clone, Copy, Debug, PartialEq, Eq, Structural)]
pub struct BstreamConfig {
    /// Initial position relative to the listener.
    pub position: Vec3,
    /// Initial velocity in units per second.
    pub velocity: Vec3,
    /// Initial gain (1.0 = unity).
    pub gain: i64,
    /// Minimum-distance floor of the attenuation curve.
    pub min_distance: i64,
}

impl BstreamConfig {
    /// A source at the listener position: omnidirectional, unity gain.
    pub fn new() -> (r: BstreamConfig)
        ensures
            r.position == (Vec3 { x: 0, y: 0, z: 0 }),
            r.velocity == (Vec3 { x: 0, y: 0, z: 0 }),
            r.gain == fixed::ONE,
            r.min_distance == fixed::MIN_DIST_DEFAULT,
    {
        BstreamConfig {
            position: Vec3 { x: 0, y: 0, z: 0 },
            velocity: Vec3 { x: 0, y: 0, z: 0 },
            gain: fixed::ONE,
            min_distance: fixed::MIN_DIST_DEFAULT,
        }
    }

    /// The same configuration, placed at `p`.
    pub fn with_position(self, p: Vec3) -> (r: BstreamConfig)
        ensures
            r == (BstreamConfig { position: p, ..self }),
    {
        BstreamConfig { position: p, ..self }
    }

    /// The same configuration, moving at `v`.
    pub fn with_velocity(self, v: Vec3) -> (r: BstreamConfig)
        ensures
            r == (BstreamConfig { velocity: v, ..self }),
    {
        BstreamConfig { velocity: v, ..self }
    }

    /// The same configuration, with gain `g`.
    pub fn with_gain(self, g: i64) -> (r: BstreamConfig)
        ensures
            r == (BstreamConfig { gain: g, ..self }),
    {
        BstreamConfig { gain: g, ..self }
    }

    /// The same configuration, with minimum-distance floor `m`.
    pub fn with_min_distance(self, m: i64) -> (r: BstreamConfig)
        ensures
            r == (BstreamConfig { min_distance: m, ..self }),
    {
        BstreamConfig { min_distance: m, ..self }
    }
}

impl Default for BstreamConfig {
    /// Same as [`BstreamConfig::new`].
    fn default() -> (r: Self)
        ensures
            r == (BstreamConfig {
                position: Vec3 { x: 0, y: 0, z: 0 },
                velocity: Vec3 { x: 0, y: 0, z: 0 },
                gain: fixed::ONE,
                min_distance: fixed::MIN_DIST_DEFAULT,
            }),
    {
        BstreamConfig::new()
    }
}

/// A vector clamped coordinate-wise into `[-m, m]`.
pub open spec fn clamp_vec(v: Vec3, m: int) -> Vec3 {
    Vec3 {
        x: clamped(v.x as int, -m, m) as i64,
        y: clamped(v.y as int, -m, m) as i64,
        z: clamped(v.z as int, -m, m) as i64,
    }
}

/// The squared distance of `v` from the listener (a Q32.32 integer).
pub open spec fn dist_sq_of(v: Vec3) -> int {
    v.x * v.x + v.y * v.y + v.z * v.z
}

/// The unit direction from the listener toward `pos` (Q16.16 per axis), or
/// the last valid direction when the distance is zero.
pub open spec fn dir_of(pos: Vec3, last: Vec3) -> Vec3 {
    let d = isqrt_of(dist_sq_of(pos));
    if d == 0 {
        last
    } else {
        Vec3 {
            x: tdiv(pos.x * 65536, d) as i64,
            y: tdiv(pos.y * 65536, d) as i64,
            z: tdiv(pos.z * 65536, d) as i64,
        }
    }
}

/// Inverse-distance attenuation with a minimum-distance floor: the distance
/// gain at distance `dist` (both in Q16.16).
pub open spec fn att_of(dist: int, min_dist: int) -> int {
    tdiv(
        0x1_0000_0000,
        if dist < min_dist {
            min_dist
        } else {
            dist
        },
    )
}

/// The panning-law weights of a source: distance gain times source gain on
/// the omnidirectional and directional axes.
pub open spec fn source_weights(pos: Vec3, last: Vec3, gain: int, min_dist: int) -> Bweights {
    let dir = dir_of(pos, last);
    let g = fmul(att_of(isqrt_of(dist_sq_of(pos)), min_dist), gain);
    Bweights {
        w: fmul(g, fixed::K_W as int) as i64,
        x: fmul(g, dir.x as int) as i64,
        y: fmul(g, dir.y as int) as i64,
        z: fmul(g, dir.z as int) as i64,
    }
}

/// The radial velocity of a source: the velocity component along the
/// listener-to-source direction, positive when receding (a Q32.32 integer).
pub open spec fn vrel_of(vel: Vec3, dir: Vec3) -> int {
    vel.x * dir.x + vel.y * dir.y + vel.z * dir.z
}

/// The Doppler resampling rate for radial velocity `vr`: `1 - vr / c`,
/// rounded away from one and clamped into `[RATE_MIN, RATE_MAX]`.
pub open spec fn rate_of(vr: int) -> int {
    clamped(65536 - tdiv_away(vr, fixed::C_REF as int), fixed::RATE_MIN as int, fixed::RATE_MAX as int)
}

/// Linear interpolation between samples `p` and `n` at fraction `f`.
pub open spec fn lerp(p: int, n: int, f: int) -> int {
    p + fmul(f, n - p)
}

/// A source moving straight toward the listener raises the playback rate
/// strictly above 1.0; straight away lowers it strictly below; a resting
/// source plays at exactly 1.0.
pub proof fn lemma_doppler_rate_sign(vr: int)
    ensures
        vr < 0 ==> rate_of(vr) > 65536,
        vr > 0 ==> rate_of(vr) < 65536,
        vr == 0 ==> rate_of(vr) == 65536,
{
    fixed::lemma_tdiv_away_sign(vr, fixed::C_REF as int);
}

/// Inverse-distance attenuation never increases with distance.
pub proof fn lemma_attenuation_monotone(d1: int, d2: int, min_dist: int)
    requires
        0 <= d1 <= d2,
        min_dist > 0,
    ensures
        att_of(d1, min_dist) >= att_of(d2, min_dist),
{
    let f1 = if d1 < min_dist {
        min_dist
    } else {
        d1
    };
    let f2 = if d2 < min_dist {
        min_dist
    } else {
        d2
    };
    fixed::lemma_tdiv_denominator(0x1_0000_0000, f1, f2);
}

/// Doubling a distance at or beyond the floor exactly halves the distance
/// gain, up to one quantum of fixed-point truncation.
pub proof fn lemma_attenuation_halves(d: int, min_dist: int)
    requires
        0 < min_dist <= d,
    ensures
        att_of(2 * d, min_dist) == tdiv(att_of(d, min_dist), 2),
{
    vstd::arithmetic::div_mod::lemma_div_denominator(0x1_0000_0000, d, 2);
    fixed::lemma_tdiv_bounds(0x1_0000_0000, d);
    assert(d * 2 == 2 * d);
}

/// Below the minimum-distance floor the attenuation saturates: every
/// distance under the floor gets exactly the floor's gain.
pub proof fn lemma_attenuation_saturates(d: int, min_dist: int)
    requires
        0 <= d <= min_dist,
    ensures
        att_of(d, min_dist) == att_of(min_dist, min_dist),
{
}

/// The panning law at the canonical pose: a source exactly in front at unit
/// distance with unit gain puts `sample` on the forward axis, the constant
/// `K_W` blend of it on W, and exactly zero on both lateral axes.
pub proof fn lemma_front_unit_panning(s: int, last: Vec3, min_dist: int)
    requires
        0 < min_dist <= 65536,
    ensures
        weighted(
            source_weights(Vec3 { x: 65536, y: 0, z: 0 }, last, 65536, min_dist),
            s,
        ) == (Bformat {
            w: fmul(s, fixed::K_W as int) as i64,
            x: fmul(s, 65536) as i64,
            y: 0,
            z: 0,
        }),
{
    let pos = Vec3 { x: 65536, y: 0, z: 0 };
    assert(dist_sq_of(pos) == 0x1_0000_0000);
    assert(fixed::is_isqrt(65536, 0x1_0000_0000));
    fixed::lemma_isqrt_unique(0x1_0000_0000, 65536);
    lemma_div_multiples_vanish(65536, 65536);
    assert(tdiv((65536 * 65536) as int, 65536) == 65536);
    assert(tdiv((0 * 65536) as int, 65536) == 0) by {
        vstd::arithmetic::div_mod::lemma_div_of0(65536);
    }
    let dir = dir_of(pos, last);
    assert(dir == (Vec3 { x: 65536, y: 0, z: 0 }));
    assert(att_of(65536, min_dist) == tdiv(0x1_0000_0000, 65536));
    assert(tdiv(0x1_0000_0000, 65536) == 65536) by {
        lemma_div_multiples_vanish(65536, 65536);
        assert(0x1_0000_0000 == 65536 * 65536) by (nonlinear_arith);
    }
    let g = fmul(65536, 65536);
    assert(g == 65536) by {
        lemma_div_multiples_vanish(65536, 65536);
        assert(65536 * 65536 == 65536 * 65536);
    }
    let wt = source_weights(pos, last, 65536, min_dist);
    assert(wt.w == fmul(65536, fixed::K_W as int));
    assert(fmul(65536, 46341) == 46341) by {
        lemma_div_multiples_vanish(46341, 65536);
        assert(65536 * 46341 == 65536 * 46341);
    }
    assert(wt.x == fmul(65536, 65536) && wt.x == 65536);
    assert(wt.y == fmul(65536, 0) && wt.z == fmul(65536, 0));
    assert(fmul(65536, 0) == 0) by {
        vstd::arithmetic::div_mod::lemma_div_of0(65536);
    }
    assert(fmul(s, 0) == 0) by {
        vstd::arithmetic::div_mod::lemma_div_of0(65536);
        assert(s * 0 == 0) by (nonlinear_arith);
    }
}

/// The per-playing-sound unit: one mono producer plus its live spatial state
/// and the Doppler resampling window.
pub struct Bstream<S: MonoSource> {
    /// The owned mono sample producer.
    pub source: S,
    /// Position relative to the listener.
    pub pos: Vec3,
    /// Velocity in units per second.
    pub vel: Vec3,
    /// Source gain.
    pub gain: i64,
    /// Minimum-distance floor of the attenuation curve.
    pub min_dist: i64,
    /// Last valid unit direction, used when the distance collapses to zero.
    pub last_dir: Vec3,
    /// Older sample of the interpolation window.
    pub prev: i64,
    /// Newer sample of the interpolation window.
    pub next: i64,
    /// Fractional read position between `prev` and `next`.
    pub frac: i64,
    /// Whether the source is retired (exhausted or stopped).
    pub finished: bool,
    /// Identity of this source in the mix, for control routing.
    pub id: u64,
}

/// What one pull of a channel does: how the post-pull state `post` and the
/// returned frame `r` relate to the pre-pull state `pre`.
///
/// A retired channel is inert and yields silence.  A live channel advances
/// its interpolation window under the Doppler rate of its pre-pull pose and
/// returns exactly the panning-law encoding of the interpolated sample of
/// its post-pull window; when the rate demands no new sample the window and
/// the retirement flag are unchanged, so the frame is fully determined.
pub open spec fn next_frame_rel<S: MonoSource>(pre: Bstream<S>, post: Bstream<S>, r: Bformat) -> bool {
    &&& post.wf()
    &&& r.wf()
    &&& post.id == pre.id
    &&& post.pos == pre.pos
    &&& post.vel == pre.vel
    &&& post.gain == pre.gain
    &&& post.min_dist == pre.min_dist
    &&& pre.finished ==> post == pre && r == Bformat::zero_spec()
    &&& !pre.finished ==> ({
        let dir = dir_of(pre.pos, pre.last_dir);
        let rate = rate_of(vrel_of(pre.vel, dir));
        &&& post.last_dir == dir
        &&& post.frac == (pre.frac + rate) % 65536
        &&& r == weighted(
            source_weights(pre.pos, pre.last_dir, pre.gain as int, pre.min_dist as int),
            lerp(post.prev as int, post.next as int, post.frac as int),
        )
        &&& (pre.frac + rate < 65536 ==> {
            &&& post.prev == pre.prev
            &&& post.next == pre.next
            &&& post.finished == pre.finished
        })
    })
}

impl<S: MonoSource> Bstream<S> {
    /// The channel's invariant: every field within its documented range.
    pub open spec fn wf(self) -> bool {
        &&& self.pos.bounded(fixed::POS_MAX as int)
        &&& self.vel.bounded(fixed::VEL_MAX as int)
        &&& 0 <= self.gain <= fixed::GAIN_MAX
        &&& fixed::DIST_FLOOR_MIN <= self.min_dist <= fixed::POS_MAX
        &&& self.last_dir.bounded(fixed::ONE as int)
        &&& -fixed::AMP_MAX <= self.prev <= fixed::AMP_MAX
        &&& -fixed::AMP_MAX <= self.next <= fixed::AMP_MAX
        &&& 0 <= self.frac < fixed::ONE
    }

    /// Wrap a mono producer with its initial placement.  Out-of-range
    /// configuration values are clamped into the documented ranges.
    pub fn new(source: S, config: BstreamConfig, id: u64) -> (r: Bstream<S>)
        ensures
            r.wf(),
            r.source == source,
            r.pos == clamp_vec(config.position, fixed::POS_MAX as int),
            r.vel == clamp_vec(config.velocity, fixed::VEL_MAX as int),
            r.gain == clamped(config.gain as int, 0, fixed::GAIN_MAX as int),
            r.min_dist == clamped(
                config.min_distance as int,
                fixed::DIST_FLOOR_MIN as int,
                fixed::POS_MAX as int,
            ),
            r.last_dir == (Vec3 { x: 0, y: 0, z: 65536 }),
            r.prev == 0 && r.next == 0 && r.frac == 0,
            !r.finished,
            r.id == id,
    {
        Bstream {
            source,
            pos: clamp_position(config.position),
            vel: clamp_velocity(config.velocity),
            gain: fixed::clamp64(config.gain, 0, fixed::GAIN_MAX),
            min_dist: fixed::clamp64(config.min_distance, fixed::DIST_FLOOR_MIN, fixed::POS_MAX),
            last_dir: Vec3 { x: 0, y: 0, z: 65536 },
            prev: 0,
            next: 0,
            frac: 0,
            finished: false,
            id,
        }
    }

    /// Move the source to `p` (clamped); takes effect on the next tick.
    pub fn set_position(&mut self, p: Vec3)
        requires
            old(self).wf(),
        ensures
            final(self).wf(),
            *final(self) == (Bstream { pos: clamp_vec(p, fixed::POS_MAX as int), ..*old(self) }),
    {
        self.pos = clamp_position(p);
    }

    /// Move the source by `d` relative to its current position (clamped).
    pub fn adjust_position(&mut self, d: Vec3)
        requires
            old(self).wf(),
            d.bounded(fixed::POS_MAX as int),
        ensures
            final(self).wf(),
            *final(self) == (Bstream {
                pos: clamp_vec(
                    Vec3 {
                        x: (old(self).pos.x + d.x) as i64,
                        y: (old(self).pos.y + d.y) as i64,
                        z: (old(self).pos.z + d.z) as i64,
                    },
                    fixed::POS_MAX as int,
                ),
                ..*old(self)
            }),
    {
        self.pos = clamp_position(
            Vec3 { x: self.pos.x + d.x, y: self.pos.y + d.y, z: self.pos.z + d.z },
        );
    }

    /// Set the source's velocity (clamped).
    pub fn set_velocity(&mut self, v: Vec3)
        requires
            old(self).wf(),
        ensures
            final(self).wf(),
            *final(self) == (Bstream { vel: clamp_vec(v, fixed::VEL_MAX as int), ..*old(self) }),
    {
        self.vel = clamp_velocity(v);
    }

    /// Set the source's gain (clamped to `[0, GAIN_MAX]`).
    pub fn set_gain(&mut self, g: i64)
        requires
            old(self).wf(),
        ensures
            final(self).wf(),
            *final(self) == (Bstream {
                gain: clamped(g as int, 0, fixed::GAIN_MAX as int) as i64,
                ..*old(self)
            }),
    {
        self.gain = fixed::clamp64(g, 0, fixed::GAIN_MAX);
    }

    /// Advance the mono stream under the current Doppler rate, interpolate
    /// one sample, and encode it under the current panning weights.
    ///
    /// Whatever samples the producer hands back, the returned frame is
    /// exactly the panning-law encoding of the interpolated window; a retired
    /// channel is inert and yields silence.
    #[verifier::loop_isolation(false)]
    pub fn next_frame(&mut self) -> (r: Bformat)
        requires
            old(self).wf(),
        ensures
            next_frame_rel(*old(self), *final(self), r),
    {
        if self.finished {
            return Bformat::zero();
        }
        let (wt, dir, rate) = encode_state(self.pos, self.vel, self.last_dir, self.gain, self.min_dist);
        self.last_dir = dir;
        let ghost start: int = self.frac + rate;
        let mut acc: i64 = self.frac + rate;
        while acc >= 65536
            invariant
                0 <= acc <= start,
                (acc as int) % 65536 == start % 65536,
                acc == start ==> self.prev == old(self).prev && self.next == old(self).next
                    && self.finished == old(self).finished,
                -fixed::AMP_MAX <= self.prev <= fixed::AMP_MAX,
                -fixed::AMP_MAX <= self.next <= fixed::AMP_MAX,
                self.pos == old(self).pos,
                self.vel == old(self).vel,
                self.gain == old(self).gain,
                self.min_dist == old(self).min_dist,
                self.id == old(self).id,
                self.frac == old(self).frac,
                self.last_dir == dir,
            decreases acc,
        {
            proof {
                lemma_mod_sub_multiples_vanish(acc as int, 65536);
            }
            acc = acc - 65536;
            // Once the producer has reported exhaustion the window stays
            // silent: it is never pulled again.
            if !self.finished {
                self.prev = self.next;
                match self.source.next_sample() {
                    Some(s) => {
                        self.next = fixed::clamp64(s, -fixed::AMP_MAX, fixed::AMP_MAX);
                    },
                    None => {
                        self.prev = 0;
                        self.next = 0;
                        self.finished = true;
                    },
                }
            }
        }
        self.frac = acc;
        proof {
            lemma_small_mod(acc as nat, 65536);
            lemma_lerp_bounds(self.prev as int, self.next as int, self.frac as int);
        }
        let d = self.next - self.prev;
        let s = self.prev + fixed::fmul64(self.frac, d);
        wt.weight(s)
    }

    /// Retire the source.  Idempotent: stopping a stopped channel changes
    /// nothing.
    pub fn stop(&mut self)
        requires
            old(self).wf(),
        ensures
            final(self).wf(),
            *final(self) == (Bstream { finished: true, ..*old(self) }),
            old(self).finished ==> *final(self) == *old(self),
    {
        self.finished = true;
    }
}

/// A bounded gain times a bounded weight keeps both the product and the
/// scaled product within the weight range.
proof fn lemma_weight_mul(g: int, c: int)
    requires
        0 <= g <= 0x1_0000_0000,
        -65536 <= c <= 65536,
    ensures
        -0x4000_0000_0000_0000 <= g * c <= 0x4000_0000_0000_0000,
        -0x1_0000_0000 <= fmul(g, c) <= 0x1_0000_0000,
{
    assert(-0x1_0000_0000_0000 <= g * c <= 0x1_0000_0000_0000) by (nonlinear_arith)
        requires
            0 <= g <= 0x1_0000_0000 && -65536 <= c <= 65536,
    ;
    fixed::lemma_tdiv_ordered(g * c, 0x1_0000_0000_0000, 65536);
    fixed::lemma_tdiv_ordered(-0x1_0000_0000_0000, g * c, 65536);
    assert(tdiv(0x1_0000_0000_0000, 65536) == 0x1_0000_0000);
}

/// Linear interpolation at a fraction below one stays between its endpoints.
proof fn lemma_lerp_bounds(p: int, n: int, f: int)
    requires
        -65536 <= p <= 65536,
        -65536 <= n <= 65536,
        0 <= f < 65536,
    ensures
        -0x4000_0000_0000_0000 <= f * (n - p) <= 0x4000_0000_0000_0000,
        -65536 <= lerp(p, n, f) <= 65536,
{
    let d = n - p;
    if d >= 0 {
        assert(0 <= f * d <= 65536 * d) by (nonlinear_arith)
            requires
                0 <= f <= 65536 && d >= 0,
        ;
        fixed::lemma_tdiv_ordered(f * d, 65536 * d, 65536);
        lemma_div_multiples_vanish(d, 65536);
        fixed::lemma_tdiv_bounds(f * d, 65536);
        assert(p <= lerp(p, n, f) <= n);
    } else {
        assert(65536 * d <= f * d <= 0) by (nonlinear_arith)
            requires
                0 <= f <= 65536 && d < 0,
        ;
        fixed::lemma_tdiv_ordered(65536 * d, f * d, 65536);
        lemma_div_multiples_vanish(d, 65536);
        assert(tdiv(65536 * d, 65536) == d) by {
            assert(-(65536 * d) == 65536 * (-d)) by (nonlinear_arith);
            lemma_div_multiples_vanish(-d, 65536);
        }
        fixed::lemma_tdiv_bounds(f * d, 65536);
        assert(n <= lerp(p, n, f) <= p);
    }
}

/// Derive the panning weights, current direction and Doppler rate of a
/// source pose, exactly as the corresponding spec functions state them.
fn encode_state(pos: Vec3, vel: Vec3, last: Vec3, gain: i64, min_dist: i64) -> (r: (
    Bweights,
    Vec3,
    i64,
))
    requires
        pos.bounded(fixed::POS_MAX as int),
        vel.bounded(fixed::VEL_MAX as int),
        last.bounded(fixed::ONE as int),
        0 <= gain <= fixed::GAIN_MAX,
        fixed::DIST_FLOOR_MIN <= min_dist <= fixed::POS_MAX,
    ensures
        r.0 == source_weights(pos, last, gain as int, min_dist as int),
        r.0.bounded(fixed::WEIGHT_MAX as int),
        r.1 == dir_of(pos, last),
        r.1.bounded(fixed::ONE as int),
        r.2 == rate_of(vrel_of(vel, dir_of(pos, last))),
        fixed::RATE_MIN <= r.2 <= fixed::RATE_MAX,
{
    proof {
        assert(0 <= pos.x * pos.x <= 0x1000_0000_0000_0000 && 0 <= pos.y * pos.y
            <= 0x1000_0000_0000_0000 && 0 <= pos.z * pos.z <= 0x1000_0000_0000_0000)
            by (nonlinear_arith)
            requires
                -0x4000_0000 <= pos.x <= 0x4000_0000 && -0x4000_0000 <= pos.y <= 0x4000_0000
                    && -0x4000_0000 <= pos.z <= 0x4000_0000,
        ;
    }
    let sq: i64 = pos.x * pos.x + pos.y * pos.y + pos.z * pos.z;
    let dist_u = fixed::isqrt64(sq as u64);
    proof {
        assert(dist_u < 0x1_0000_0000) by (nonlinear_arith)
            requires
                (dist_u as int) * (dist_u as int) <= sq as int && sq
                    <= 0x3000_0000_0000_0000 && dist_u >= 0,
        ;
    }
    let dist: i64 = dist_u as i64;
    let dir: Vec3;
    if dist == 0 {
        dir = last;
    } else {
        proof {
            assert(pos.x * pos.x <= sq && pos.y * pos.y <= sq && pos.z * pos.z <= sq);
            assert(-dist <= pos.x <= dist && -dist <= pos.y <= dist && -dist <= pos.z <= dist)
                by (nonlinear_arith)
                requires
                    pos.x * pos.x <= sq as int && pos.y * pos.y <= sq as int && pos.z * pos.z
                        <= sq as int && (sq as int) < (dist as int + 1) * (dist as int + 1) && dist
                        > 0,
            ;
        }
        let dx = dir_axis(pos.x, dist);
        let dy = dir_axis(pos.y, dist);
        let dz = dir_axis(pos.z, dist);
        dir = Vec3 { x: dx, y: dy, z: dz };
    }
    let floor = if dist < min_dist {
        min_dist
    } else {
        dist
    };
    let att = fixed::tdiv64(0x1_0000_0000, floor);
    proof {
        fixed::lemma_tdiv_denominator(0x1_0000_0000, 256, floor as int);
        fixed::lemma_tdiv_bounds(0x1_0000_0000, floor as int);
        assert(tdiv(0x1_0000_0000, 256) == 0x100_0000);
        assert(0 <= att * gain <= 0x1_0000_0000_0000) by (nonlinear_arith)
            requires
                0 <= att <= 0x100_0000 && 0 <= gain <= 0x100_0000,
        ;
        fixed::lemma_tdiv_ordered(att * gain, 0x1_0000_0000_0000, 65536);
        fixed::lemma_tdiv_bounds(att * gain, 65536);
        assert(tdiv(0x1_0000_0000_0000, 65536) == 0x1_0000_0000);
    }
    let g = fixed::fmul64(att, gain);
    proof {
        lemma_weight_mul(g as int, fixed::K_W as int);
        lemma_weight_mul(g as int, dir.x as int);
        lemma_weight_mul(g as int, dir.y as int);
        lemma_weight_mul(g as int, dir.z as int);
    }
    let wt = Bweights {
        w: fixed::fmul64(g, fixed::K_W),
        x: fixed::fmul64(g, dir.x),
        y: fixed::fmul64(g, dir.y),
        z: fixed::fmul64(g, dir.z),
    };
    proof {
        assert(-0x100_0000_0000 <= vel.x * dir.x <= 0x100_0000_0000 && -0x100_0000_0000 <= vel.y
            * dir.y <= 0x100_0000_0000 && -0x100_0000_0000 <= vel.z * dir.z <= 0x100_0000_0000)
            by (nonlinear_arith)
            requires
                -0x100_0000 <= vel.x <= 0x100_0000 && -0x100_0000 <= vel.y <= 0x100_0000
                    && -0x100_0000 <= vel.z <= 0x100_0000 && -65536 <= dir.x <= 65536 && -65536
                    <= dir.y <= 65536 && -65536 <= dir.z <= 65536,
        ;
    }
    let vr: i64 = vel.x * dir.x + vel.y * dir.y + vel.z * dir.z;
    let off = fixed::tdiv_away64(vr, fixed::C_REF);
    let rate = fixed::clamp64(65536 - off, fixed::RATE_MIN, fixed::RATE_MAX);
    (wt, dir, rate)
}

/// One axis of the unit direction: `c / dist` in Q16.16.
fn dir_axis(c: i64, dist: i64) -> (r: i64)
    requires
        0 < dist < 0x1_0000_0000,
        -dist <= c <= dist,
    ensures
        r == tdiv(c * 65536, dist as int),
        -65536 <= r <= 65536,
{
    proof {
        assert(c * 65536 <= dist * 65536 && -(dist * 65536) <= c * 65536) by (nonlinear_arith)
            requires
                -dist <= c <= dist,
        ;
        fixed::lemma_tdiv_ordered(c * 65536, dist * 65536, dist as int);
        fixed::lemma_tdiv_ordered(-(dist as int) * 65536, c * 65536, dist as int);
        lemma_div_multiples_vanish(65536, dist as int);
        assert(tdiv((dist * 65536) as int, dist as int) == 65536);
        assert(-(dist as int) * 65536 == -((dist * 65536) as int)) by (nonlinear_arith);
        assert(tdiv(-((dist * 65536) as int), dist as int) == -65536);
    }
    fixed::tdiv64(c * 65536, dist)
}

/// A position step clamped coordinate-wise into the position range.
pub fn clamp_delta(d: Vec3) -> (r: Vec3)
    ensures
        r == clamp_vec(d, fixed::POS_MAX as int),
        r.bounded(fixed::POS_MAX as int),
{
    clamp_position(d)
}

/// A position clamped coordinate-wise into the position range.
fn clamp_position(p: Vec3) -> (r: Vec3)
    ensures
        r == clamp_vec(p, fixed::POS_MAX as int),
        r.bounded(fixed::POS_MAX as int),
{
    Vec3 {
        x: fixed::clamp64(p.x, -fixed::POS_MAX, fixed::POS_MAX),
        y: fixed::clamp64(p.y, -fixed::POS_MAX, fixed::POS_MAX),
        z: fixed::clamp64(p.z, -fixed::POS_MAX, fixed::POS_MAX),
    }
}

/// A velocity clamped coordinate-wise into the velocity range.
fn clamp_velocity(v: Vec3) -> (r: Vec3)
    ensures
        r == clamp_vec(v, fixed::VEL_MAX as int),
        r.bounded(fixed::VEL_MAX as int),
{
    Vec3 {
        x: fixed::clamp64(v.x, -fixed::VEL_MAX, fixed::VEL_MAX),
        y: fixed::clamp64(v.y, -fixed::VEL_MAX, fixed::VEL_MAX),
        z: fixed::clamp64(v.z, -fixed::VEL_MAX, fixed::VEL_MAX),
    }
}

} // verus!
