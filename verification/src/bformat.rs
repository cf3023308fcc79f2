//! First-order ambisonic *B-format* frames and encoding weights.
//!
//! A [`Bformat`] frame holds the four field components (W, X, Y, Z) of one
//! sample tick: W is the omnidirectional pressure, X/Y/Z the directional
//! components along the listener's front, left and up axes.  A [`Bweights`]
//! value holds the panning-law coefficients that turn one mono sample into a
//! frame, and equally one decode-matrix row that turns a frame into one
//! speaker feed.

use vstd::prelude::*;
use vstd::seq_lib::group_to_multiset_ensures;

use crate::fixed;
use crate::fixed::{clamped, fmul, tdiv};

verus! {

/// A 3D vector in Q16.16, listener-centered: +X front, +Y left, +Z up.
#[derive(Clone, Copy, Debug, PartialEq, Eq, Structural)]
pub struct Vec3 {
    pub x: i64,
    pub y: i64,
    pub z: i64,
}

impl Vec3 {
    /// All coordinates within `m`.
    pub open spec fn bounded(self, m: int) -> bool {
        -m <= self.x <= m && -m <= self.y <= m && -m <= self.z <= m
    }

    /// The zero vector.
    pub fn zero() -> (r: Vec3)
        ensures
            r == (Vec3 { x: 0, y: 0, z: 0 }),
    {
        Vec3 { x: 0, y: 0, z: 0 }
    }

    /// Construct a vector from its three coordinates.
    pub fn new(x: i64, y: i64, z: i64) -> (r: Vec3)
        ensures
            r == (Vec3 { x, y, z }),
    {
        Vec3 { x, y, z }
    }
}

/// One B-format sample: the sound field at one tick.
#[derive(Clone, Copy, Debug, PartialEq, Eq, Structural)]
pub struct Bformat {
    pub w: i64,
    pub x: i64,
    pub y: i64,
    pub z: i64,
}

impl Bformat {
    /// All components within the per-source field bound.
    pub open spec fn wf(self) -> bool {
        -fixed::FIELD_MAX <= self.w <= fixed::FIELD_MAX
            && -fixed::FIELD_MAX <= self.x <= fixed::FIELD_MAX
            && -fixed::FIELD_MAX <= self.y <= fixed::FIELD_MAX
            && -fixed::FIELD_MAX <= self.z <= fixed::FIELD_MAX
    }

    /// The silent frame.
    pub open spec fn zero_spec() -> Bformat {
        Bformat { w: 0, x: 0, y: 0, z: 0 }
    }

    /// The silent frame.
    pub fn zero() -> (r: Bformat)
        ensures
            r == Bformat::zero_spec(),
    {
        Bformat { w: 0, x: 0, y: 0, z: 0 }
    }
}

/// Panning-law coefficients: four Q16.16 weights applied to a mono sample.
#[derive(Clone, Copy, Debug, PartialEq, Eq, Structural)]
pub struct Bweights {
    pub w: i64,
    pub x: i64,
    pub y: i64,
    pub z: i64,
}

/// The frame that weights `wt` produce from mono sample `s`.
pub open spec fn weighted(wt: Bweights, s: int) -> Bformat {
    Bformat {
        w: fmul(s, wt.w as int) as i64,
        x: fmul(s, wt.x as int) as i64,
        y: fmul(s, wt.y as int) as i64,
        z: fmul(s, wt.z as int) as i64,
    }
}

/// The exact (unclamped) decode of frame `f` by matrix row `wt`.
pub open spec fn decoded(wt: Bweights, f: Bformat) -> int {
    tdiv(wt.w * f.w + wt.x * f.x + wt.y * f.y + wt.z * f.z, 65536)
}

impl Bweights {
    /// All weights within `m`.
    pub open spec fn bounded(self, m: int) -> bool {
        -m <= self.w <= m && -m <= self.x <= m && -m <= self.y <= m && -m <= self.z <= m
    }

    /// Apply the weights to one mono sample, yielding one encoded frame.
    pub fn weight(&self, s: i64) -> (r: Bformat)
        requires
            -fixed::AMP_MAX <= s <= fixed::AMP_MAX,
            self.bounded(fixed::WEIGHT_MAX as int),
        ensures
            r == weighted(*self, s as int),
            r.wf(),
    {
        proof {
            lemma_weighted_wf(*self, s as int);
        }
        Bformat {
            w: fixed::fmul64(s, self.w),
            x: fixed::fmul64(s, self.x),
            y: fixed::fmul64(s, self.y),
            z: fixed::fmul64(s, self.z),
        }
    }

    /// Decode one frame into one output sample, clamped to full scale.
    pub fn decode(&self, f: &Bformat) -> (r: i64)
        requires
            self.bounded(fixed::ONE as int),
            -fixed::MIX_MAX <= f.w <= fixed::MIX_MAX,
            -fixed::MIX_MAX <= f.x <= fixed::MIX_MAX,
            -fixed::MIX_MAX <= f.y <= fixed::MIX_MAX,
            -fixed::MIX_MAX <= f.z <= fixed::MIX_MAX,
        ensures
            r == clamped(decoded(*self, *f), -fixed::ONE as int, fixed::ONE as int),
    {
        proof {
            assert((self.w as int) * (f.w as int) <= 0x2_0000_0000_0000 * 0x1_0000
                && (self.w as int) * (f.w as int) >= -(0x2_0000_0000_0000 * 0x1_0000))
                by (nonlinear_arith)
                requires
                    -0x1_0000 <= self.w <= 0x1_0000,
                    -0x2_0000_0000_0000 <= f.w <= 0x2_0000_0000_0000,
            ;
            assert((self.x as int) * (f.x as int) <= 0x2_0000_0000_0000 * 0x1_0000
                && (self.x as int) * (f.x as int) >= -(0x2_0000_0000_0000 * 0x1_0000))
                by (nonlinear_arith)
                requires
                    -0x1_0000 <= self.x <= 0x1_0000,
                    -0x2_0000_0000_0000 <= f.x <= 0x2_0000_0000_0000,
            ;
            assert((self.y as int) * (f.y as int) <= 0x2_0000_0000_0000 * 0x1_0000
                && (self.y as int) * (f.y as int) >= -(0x2_0000_0000_0000 * 0x1_0000))
                by (nonlinear_arith)
                requires
                    -0x1_0000 <= self.y <= 0x1_0000,
                    -0x2_0000_0000_0000 <= f.y <= 0x2_0000_0000_0000,
            ;
            assert((self.z as int) * (f.z as int) <= 0x2_0000_0000_0000 * 0x1_0000
                && (self.z as int) * (f.z as int) >= -(0x2_0000_0000_0000 * 0x1_0000))
                by (nonlinear_arith)
                requires
                    -0x1_0000 <= self.z <= 0x1_0000,
                    -0x2_0000_0000_0000 <= f.z <= 0x2_0000_0000_0000,
            ;
        }
        let acc: i128 = (self.w as i128) * (f.w as i128) + (self.x as i128) * (f.x as i128) + (
        self.y as i128) * (f.y as i128) + (self.z as i128) * (f.z as i128);
        let q = fixed::tdiv128(acc, 65536);
        proof {
            fixed::lemma_tdiv_ordered(acc as int, 0x8_0000_0000_0000_0000 as int, 65536);
            fixed::lemma_tdiv_ordered(-(0x8_0000_0000_0000_0000 as int), acc as int, 65536);
        }
        fixed::clamp64(q as i64, -fixed::ONE, fixed::ONE)
    }
}

/// Weights within the weight bound turn a full-scale sample into a
/// well-formed frame.
pub proof fn lemma_weighted_wf(wt: Bweights, s: int)
    requires
        -fixed::AMP_MAX <= s <= fixed::AMP_MAX,
        wt.bounded(fixed::WEIGHT_MAX as int),
    ensures
        weighted(wt, s).wf(),
        -0x4000_0000_0000_0000 <= s * wt.w <= 0x4000_0000_0000_0000,
        -0x4000_0000_0000_0000 <= s * wt.x <= 0x4000_0000_0000_0000,
        -0x4000_0000_0000_0000 <= s * wt.y <= 0x4000_0000_0000_0000,
        -0x4000_0000_0000_0000 <= s * wt.z <= 0x4000_0000_0000_0000,
{
    assert(-0x1_0000_0000_0000 <= s * wt.w <= 0x1_0000_0000_0000) by (nonlinear_arith)
        requires
            -0x1_0000 <= s <= 0x1_0000,
            -0x1_0000_0000 <= wt.w <= 0x1_0000_0000,
    ;
    assert(-0x1_0000_0000_0000 <= s * wt.x <= 0x1_0000_0000_0000) by (nonlinear_arith)
        requires
            -0x1_0000 <= s <= 0x1_0000,
            -0x1_0000_0000 <= wt.x <= 0x1_0000_0000,
    ;
    assert(-0x1_0000_0000_0000 <= s * wt.y <= 0x1_0000_0000_0000) by (nonlinear_arith)
        requires
            -0x1_0000 <= s <= 0x1_0000,
            -0x1_0000_0000 <= wt.y <= 0x1_0000_0000,
    ;
    assert(-0x1_0000_0000_0000 <= s * wt.z <= 0x1_0000_0000_0000) by (nonlinear_arith)
        requires
            -0x1_0000 <= s <= 0x1_0000,
            -0x1_0000_0000 <= wt.z <= 0x1_0000_0000,
    ;
    fixed::lemma_tdiv_ordered(s * wt.w, 0x1_0000_0000_0000, 65536);
    fixed::lemma_tdiv_ordered(-0x1_0000_0000_0000, s * wt.w, 65536);
    fixed::lemma_tdiv_ordered(s * wt.x, 0x1_0000_0000_0000, 65536);
    fixed::lemma_tdiv_ordered(-0x1_0000_0000_0000, s * wt.x, 65536);
    fixed::lemma_tdiv_ordered(s * wt.y, 0x1_0000_0000_0000, 65536);
    fixed::lemma_tdiv_ordered(-0x1_0000_0000_0000, s * wt.y, 65536);
    fixed::lemma_tdiv_ordered(s * wt.z, 0x1_0000_0000_0000, 65536);
    fixed::lemma_tdiv_ordered(-0x1_0000_0000_0000, s * wt.z, 65536);
}

/// The component-wise sum of a sequence of frames, as exact integers.
pub open spec fn field_sum(s: Seq<Bformat>) -> (int, int, int, int)
    decreases s.len(),
{
    if s.len() == 0 {
        (0, 0, 0, 0)
    } else {
        let t = field_sum(s.drop_last());
        (t.0 + s.last().w, t.1 + s.last().x, t.2 + s.last().y, t.3 + s.last().z)
    }
}

/// Removing one frame removes exactly its contribution from the sum.
pub proof fn lemma_field_sum_remove(s: Seq<Bformat>, i: int)
    requires
        0 <= i < s.len(),
    ensures
        field_sum(s) == (
            field_sum(s.remove(i)).0 + s[i].w,
            field_sum(s.remove(i)).1 + s[i].x,
            field_sum(s.remove(i)).2 + s[i].y,
            field_sum(s.remove(i)).3 + s[i].z,
        ),
    decreases s.len(),
{
    if i == s.len() - 1 {
        assert(s.remove(i) =~= s.drop_last());
    } else {
        let t = s.drop_last();
        lemma_field_sum_remove(t, i);
        assert(s.remove(i).drop_last() =~= t.remove(i));
        assert(s.remove(i).last() == s.last());
    }
}

/// The component-wise sum does not depend on the order of the frames:
/// any two arrangements of the same multiset of frames sum to the same field.
pub proof fn lemma_field_sum_permutation(s1: Seq<Bformat>, s2: Seq<Bformat>)
    requires
        s1.to_multiset() == s2.to_multiset(),
    ensures
        field_sum(s1) == field_sum(s2),
    decreases s1.len(),
{
    broadcast use group_to_multiset_ensures;

    if s1.len() == 0 {
        assert(s2.to_multiset().len() == 0);
        assert(s2.len() == 0);
    } else {
        let e = s1.last();
        let i = s1.len() - 1;
        assert(s1.to_multiset().count(e) > 0);
        assert(s2.to_multiset().count(e) > 0);
        assert(s2.contains(e));
        let j = choose|j: int| 0 <= j < s2.len() && s2[j] == e;
        assert(s1.remove(i).to_multiset() =~= s1.to_multiset().remove(e));
        assert(s2.remove(j).to_multiset() =~= s2.to_multiset().remove(e));
        lemma_field_sum_permutation(s1.remove(i), s2.remove(j));
        lemma_field_sum_remove(s1, i);
        lemma_field_sum_remove(s2, j);
    }
}

/// A silent frame contributes nothing: dropping it leaves the sum unchanged.
pub proof fn lemma_field_sum_drop_zero(s: Seq<Bformat>, i: int)
    requires
        0 <= i < s.len(),
        s[i] == Bformat::zero_spec(),
    ensures
        field_sum(s) == field_sum(s.remove(i)),
{
    lemma_field_sum_remove(s, i);
}

/// The sum of well-formed frames is bounded by their count times the
/// per-frame bound.
pub proof fn lemma_field_sum_bound(s: Seq<Bformat>)
    requires
        forall|j: int| 0 <= j < s.len() ==> s[j].wf(),
    ensures
        -(s.len() * fixed::FIELD_MAX) <= field_sum(s).0 <= s.len() * fixed::FIELD_MAX,
        -(s.len() * fixed::FIELD_MAX) <= field_sum(s).1 <= s.len() * fixed::FIELD_MAX,
        -(s.len() * fixed::FIELD_MAX) <= field_sum(s).2 <= s.len() * fixed::FIELD_MAX,
        -(s.len() * fixed::FIELD_MAX) <= field_sum(s).3 <= s.len() * fixed::FIELD_MAX,
    decreases s.len(),
{
    if s.len() > 0 {
        lemma_field_sum_bound(s.drop_last());
        assert((s.len() - 1) * fixed::FIELD_MAX + fixed::FIELD_MAX == s.len() * fixed::FIELD_MAX)
            by (nonlinear_arith);
    }
}

/// A running mix accumulator: exact 128-bit component sums.
pub struct FieldAccum {
    pub w: i128,
    pub x: i128,
    pub y: i128,
    pub z: i128,
}

impl FieldAccum {
    /// The empty accumulation.
    pub fn new() -> (r: FieldAccum)
        ensures
            r.w == 0 && r.x == 0 && r.y == 0 && r.z == 0,
    {
        FieldAccum { w: 0, x: 0, y: 0, z: 0 }
    }

    /// Add one frame's components exactly.
    pub fn accumulate(&mut self, f: &Bformat)
        requires
            f.wf(),
            -0x4000_0000_0000_0000_0000_0000_0000 <= old(self).w <= 0x4000_0000_0000_0000_0000_0000_0000,
            -0x4000_0000_0000_0000_0000_0000_0000 <= old(self).x <= 0x4000_0000_0000_0000_0000_0000_0000,
            -0x4000_0000_0000_0000_0000_0000_0000 <= old(self).y <= 0x4000_0000_0000_0000_0000_0000_0000,
            -0x4000_0000_0000_0000_0000_0000_0000 <= old(self).z <= 0x4000_0000_0000_0000_0000_0000_0000,
        ensures
            final(self).w == old(self).w + f.w,
            final(self).x == old(self).x + f.x,
            final(self).y == old(self).y + f.y,
            final(self).z == old(self).z + f.z,
    {
        self.w = self.w + (f.w as i128);
        self.x = self.x + (f.x as i128);
        self.y = self.y + (f.y as i128);
        self.z = self.z + (f.z as i128);
    }

    /// Close the accumulation: clamp each exact component sum into the mixed
    /// field range.
    pub fn finish(&self) -> (r: Bformat)
        ensures
            r.w == clamped(self.w as int, -fixed::MIX_MAX as int, fixed::MIX_MAX as int),
            r.x == clamped(self.x as int, -fixed::MIX_MAX as int, fixed::MIX_MAX as int),
            r.y == clamped(self.y as int, -fixed::MIX_MAX as int, fixed::MIX_MAX as int),
            r.z == clamped(self.z as int, -fixed::MIX_MAX as int, fixed::MIX_MAX as int),
    {
        Bformat {
            w: clamp128(self.w),
            x: clamp128(self.x),
            y: clamp128(self.y),
            z: clamp128(self.z),
        }
    }
}

/// Clamp an exact 128-bit sum into the mixed-field range.
fn clamp128(v: i128) -> (r: i64)
    ensures
        r == clamped(v as int, -fixed::MIX_MAX as int, fixed::MIX_MAX as int),
{
    if v < -0x2_0000_0000_0000i128 {
        -0x2_0000_0000_0000i64
    } else if v > 0x2_0000_0000_0000i128 {
        0x2_0000_0000_0000i64
    } else {
        v as i64
    }
}

} // verus!
