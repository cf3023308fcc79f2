//! Decoding the mixed B-format stream for playback devices.
//!
//! Each renderer wraps the mixing bus and exposes the same pull interface a
//! playback sink expects: one output sample per call, cycling over the
//! device's channels.  The stereo renderer decodes each frame by a fixed
//! W/Y blend; the multi-speaker renderer multiplies each frame by a decode
//! matrix computed once from the speaker geometry; the HRTF renderer decodes
//! into virtual speaker feeds and convolves each with a per-ear impulse
//! response.

use vstd::prelude::*;

use crate::bformat::{decoded, Bformat, Bweights, Vec3};
use crate::bmixer::{survivors, tick_result, BstreamMixer};
use crate::bstream::Bstream;
use crate::bstream::{clamp_vec, MonoSource};
use crate::fixed;
use crate::fixed::{clamped, fmul, tdiv};

verus! {

/// Why a renderer could not be constructed.
#[derive(Clone, Copy, Debug, PartialEq, Eq, Structural)]
pub enum RendererError {
    /// The speaker direction list is empty.
    EmptySpeakerList,
    /// The speaker direction list holds more entries than one per Q16.16
    /// quantum of decode gain.
    TooManySpeakers,
    /// The HRTF table's direction and impulse-response lists disagree in
    /// shape, or an impulse response is empty, too long, or out of range.
    MalformedHrtfTable,
}

/// Parameters of the stereo renderer.
pub struct StereoConfig {
    /// How strongly the directional components widen the image, in Q16.16.
    pub width: i64,
}

impl Default for StereoConfig {
    /// The default stereo width is 1.0.
    fn default() -> (r: Self)
        ensures
            r.width == fixed::ONE,
    {
        StereoConfig { width: fixed::ONE }
    }
}

/// The decode row of the left stereo channel at the given width.
pub open spec fn left_row(width: int) -> Bweights {
    Bweights { w: fixed::K_W, x: 0, y: width as i64, z: 0 }
}

/// The decode row of the right stereo channel at the given width.
pub open spec fn right_row(width: int) -> Bweights {
    Bweights { w: fixed::K_W, x: 0, y: (-width) as i64, z: 0 }
}

/// The output sample one decode row produces from one mixed frame.
pub open spec fn speaker_feed(row: Bweights, f: Bformat) -> int {
    clamped(decoded(row, f), -fixed::ONE as int, fixed::ONE as int)
}

/// Decoding a frame with no directional energy gives every row with the
/// same omnidirectional weight the same output: with symmetric speakers a
/// centered source delivers equal energy everywhere.
pub proof fn lemma_centered_source_equal_feeds(r1: Bweights, r2: Bweights, f: Bformat)
    requires
        r1.w == r2.w,
        f.x == 0 && f.y == 0 && f.z == 0,
    ensures
        speaker_feed(r1, f) == speaker_feed(r2, f),
{
    assert(r1.x * f.x == 0 && r1.y * f.y == 0 && r1.z * f.z == 0) by (nonlinear_arith)
        requires
            f.x == 0 && f.y == 0 && f.z == 0,
    ;
    assert(r2.x * f.x == 0 && r2.y * f.y == 0 && r2.z * f.z == 0) by (nonlinear_arith)
        requires
            f.x == 0 && f.y == 0 && f.z == 0,
    ;
}

/// Simple and efficient playback on two stereo speakers or headphones.
///
/// Decodes each mixed frame into a left/right pair by a fixed linear
/// combination of the omnidirectional and lateral components; stateless per
/// frame apart from the buffered second channel sample.
pub struct BstreamStereoRenderer<S: MonoSource> {
    /// The mixing bus this renderer drains.
    pub input: BstreamMixer<S>,
    /// Stereo width in `[0, 1]`.
    pub width: i64,
    /// The right-channel sample awaiting the next pull.
    pub buffered: Option<i64>,
}

impl<S: MonoSource> BstreamStereoRenderer<S> {
    /// The renderer's invariant.
    pub open spec fn wf(self) -> bool {
        &&& self.input.wf()
        &&& 0 <= self.width <= fixed::ONE
        &&& self.buffered matches Some(s) ==> -fixed::ONE <= s <= fixed::ONE
        &&& self.buffered is None ==> true
    }

    /// Wrap the mixing bus; the configured width is clamped into `[0, 1]`.
    pub fn new(input: BstreamMixer<S>, cfg: StereoConfig) -> (r: BstreamStereoRenderer<S>)
        requires
            input.wf(),
        ensures
            r.wf(),
            r.input == input,
            r.width == clamped(cfg.width as int, 0, fixed::ONE as int),
            r.buffered is None,
    {
        BstreamStereoRenderer {
            input,
            width: fixed::clamp64(cfg.width, 0, fixed::ONE),
            buffered: None,
        }
    }

    /// Pull one output sample: left and right channels interleaved, one
    /// mixer tick for every left/right pair.
    pub fn next_output(&mut self) -> (r: i64)
        requires
            old(self).wf(),
        ensures
            final(self).wf(),
            -fixed::ONE <= r <= fixed::ONE,
            final(self).width == old(self).width,
            old(self).buffered matches Some(s) ==> {
                &&& r == s
                &&& final(self).buffered is None
                &&& final(self).input == old(self).input
            },
            old(self).buffered is None ==> exists|posts: Seq<Bstream<S>>, cs: Seq<Bformat>, f: Bformat|
                {
                    &&& tick_result(old(self).input.active@ + old(self).input.pending@, posts, cs, f)
                    &&& final(self).input.active@ == survivors(posts)
                    &&& final(self).input.pending@.len() == 0
                    &&& final(self).input.next_id == old(self).input.next_id
                    &&& final(self).input.sample_rate == old(self).input.sample_rate
                    &&& r == speaker_feed(left_row(old(self).width as int), f)
                    &&& final(self).buffered == Some(
                        speaker_feed(right_row(old(self).width as int), f) as i64,
                    )
                },
    {
        match self.buffered {
            Some(s) => {
                self.buffered = None;
                s
            },
            None => {
                let frame = self.input.tick();
                let lw = Bweights { w: fixed::K_W, x: 0, y: self.width, z: 0 };
                let rw = Bweights { w: fixed::K_W, x: 0, y: -self.width, z: 0 };
                let left = lw.decode(&frame);
                let right = rw.decode(&frame);
                self.buffered = Some(right);
                left
            },
        }
    }
}

/// Parameters of the multi-speaker renderer: the speaker directions as unit
/// vectors from the listener.
pub struct MultiSpeakerConfig {
    /// One unit direction per speaker.
    pub directions: Vec<Vec3>,
}

/// The per-speaker normalization of a decode matrix over `n` speakers.
pub open spec fn speaker_norm(n: int) -> int {
    tdiv(65536, n)
}

/// The decode row of one speaker: its direction scaled by the matrix
/// normalization, with the shared omnidirectional weight.
pub open spec fn speaker_row(dir: Vec3, norm: int) -> Bweights {
    Bweights {
        w: fmul(fixed::K_W as int, norm) as i64,
        x: fmul(dir.x as int, norm) as i64,
        y: fmul(dir.y as int, norm) as i64,
        z: fmul(dir.z as int, norm) as i64,
    }
}

/// Scale one clamped direction into a decode row.
fn make_row(dir: Vec3, norm: i64) -> (r: Bweights)
    requires
        dir.bounded(fixed::ONE as int),
        0 <= norm <= fixed::ONE,
    ensures
        r == speaker_row(dir, norm as int),
        r.bounded(fixed::ONE as int),
{
    proof {
        lemma_row_mul(fixed::K_W as int, norm as int);
        lemma_row_mul(dir.x as int, norm as int);
        lemma_row_mul(dir.y as int, norm as int);
        lemma_row_mul(dir.z as int, norm as int);
    }
    Bweights {
        w: fixed::fmul64(fixed::K_W, norm),
        x: fixed::fmul64(dir.x, norm),
        y: fixed::fmul64(dir.y, norm),
        z: fixed::fmul64(dir.z, norm),
    }
}

/// The product of a unit-bounded coefficient and a unit-bounded
/// normalization stays unit-bounded after scaling.
proof fn lemma_row_mul(c: int, norm: int)
    requires
        -65536 <= c <= 65536,
        0 <= norm <= 65536,
    ensures
        -0x4000_0000_0000_0000 <= c * norm <= 0x4000_0000_0000_0000,
        -65536 <= fmul(c, norm) <= 65536,
{
    assert(-0x1_0000_0000 <= c * norm <= 0x1_0000_0000) by (nonlinear_arith)
        requires
            -65536 <= c <= 65536 && 0 <= norm <= 65536,
    ;
    fixed::lemma_tdiv_ordered(c * norm, 0x1_0000_0000, 65536);
    fixed::lemma_tdiv_ordered(-0x1_0000_0000, c * norm, 65536);
    assert(tdiv(0x1_0000_0000, 65536) == 65536);
}

/// Playback over an arbitrary speaker array.
///
/// The decode matrix is computed once at construction from the speaker
/// geometry; per frame the renderer is a matrix multiply, cycling one output
/// sample per speaker per mixer tick.
pub struct BstreamMultiSpeakerRenderer<S: MonoSource> {
    /// The mixing bus this renderer drains.
    pub input: BstreamMixer<S>,
    /// One decode row per speaker.
    pub rows: Vec<Bweights>,
    /// The frame being cycled over the speakers.
    pub frame: Bformat,
    /// The speaker the next pull will feed.
    pub cursor: usize,
}

impl<S: MonoSource> BstreamMultiSpeakerRenderer<S> {
    /// The renderer's invariant.
    pub open spec fn wf(self) -> bool {
        &&& self.input.wf()
        &&& self.rows@.len() > 0
        &&& forall|i: int|
            0 <= i < self.rows@.len() ==> (#[trigger] self.rows@[i]).bounded(fixed::ONE as int)
        &&& self.cursor < self.rows@.len()
        &&& -fixed::MIX_MAX <= self.frame.w <= fixed::MIX_MAX
        &&& -fixed::MIX_MAX <= self.frame.x <= fixed::MIX_MAX
        &&& -fixed::MIX_MAX <= self.frame.y <= fixed::MIX_MAX
        &&& -fixed::MIX_MAX <= self.frame.z <= fixed::MIX_MAX
    }

    /// Compute the decode matrix for the configured speaker directions.
    ///
    /// Fails exactly when the direction list is empty or holds more than
    /// 65536 entries; every accepted configuration yields one row per
    /// speaker, each the clamped direction scaled by the shared
    /// normalization, with one shared omnidirectional weight.
    pub fn new(input: BstreamMixer<S>, cfg: &MultiSpeakerConfig) -> (r: Result<
        BstreamMultiSpeakerRenderer<S>,
        RendererError,
    >)
        requires
            input.wf(),
        ensures
            cfg.directions@.len() == 0 ==> r == Err::<BstreamMultiSpeakerRenderer<S>, RendererError>(
                RendererError::EmptySpeakerList,
            ),
            cfg.directions@.len() > 65536 ==> r == Err::<
                BstreamMultiSpeakerRenderer<S>,
                RendererError,
            >(RendererError::TooManySpeakers),
            0 < cfg.directions@.len() <= 65536 ==> (r matches Ok(rd) && {
                &&& rd.wf()
                &&& rd.input == input
                &&& rd.cursor == 0
                &&& rd.frame == Bformat::zero_spec()
                &&& rd.rows@.len() == cfg.directions@.len()
                &&& forall|i: int|
                    0 <= i < rd.rows@.len() ==> rd.rows@[i] == speaker_row(
                        clamp_vec(cfg.directions@[i], fixed::ONE as int),
                        speaker_norm(cfg.directions@.len() as int),
                    )
            }),
    {
        let n = cfg.directions.len();
        if n == 0 {
            return Err(RendererError::EmptySpeakerList);
        }
        if n > 65536 {
            return Err(RendererError::TooManySpeakers);
        }
        let norm = fixed::tdiv64(65536, n as i64);
        proof {
            fixed::lemma_tdiv_bounds(65536, n as int);
        }
        let mut rows: Vec<Bweights> = Vec::new();
        let mut i: usize = 0;
        while i < n
            invariant
                0 <= i <= n,
                n == cfg.directions@.len(),
                0 < n <= 65536,
                norm == speaker_norm(n as int),
                0 <= norm <= fixed::ONE,
                rows@.len() == i,
                forall|j: int|
                    0 <= j < i ==> rows@[j] == speaker_row(
                        clamp_vec(cfg.directions@[j], fixed::ONE as int),
                        norm as int,
                    ) && (#[trigger] rows@[j]).bounded(fixed::ONE as int),
            decreases n - i,
        {
            let d = cfg.directions[i];
            let dc = Vec3 {
                x: fixed::clamp64(d.x, -fixed::ONE, fixed::ONE),
                y: fixed::clamp64(d.y, -fixed::ONE, fixed::ONE),
                z: fixed::clamp64(d.z, -fixed::ONE, fixed::ONE),
            };
            let row = make_row(dc, norm);
            rows.push(row);
            i = i + 1;
        }
        Ok(
            BstreamMultiSpeakerRenderer {
                input,
                rows,
                frame: Bformat::zero(),
                cursor: 0,
            },
        )
    }

    /// The number of output channels: one per speaker.
    pub fn channels(&self) -> (r: usize)
        ensures
            r == self.rows@.len(),
    {
        self.rows.len()
    }

    /// Pull one output sample.  The renderer cycles over the speakers,
    /// pulling one mixer tick per full cycle and decoding it by each
    /// speaker's matrix row in turn.
    pub fn next_output(&mut self) -> (r: i64)
        requires
            old(self).wf(),
        ensures
            final(self).wf(),
            -fixed::ONE <= r <= fixed::ONE,
            final(self).rows@ == old(self).rows@,
            final(self).cursor == ((old(self).cursor + 1) as int % old(self).rows@.len() as int),
            old(self).cursor != 0 ==> final(self).frame == old(self).frame && final(self).input
                == old(self).input && r == speaker_feed(
                old(self).rows@[old(self).cursor as int],
                old(self).frame,
            ),
            old(self).cursor == 0 ==> exists|posts: Seq<Bstream<S>>, cs: Seq<Bformat>|
                {
                    &&& tick_result(
                        old(self).input.active@ + old(self).input.pending@,
                        posts,
                        cs,
                        final(self).frame,
                    )
                    &&& final(self).input.active@ == survivors(posts)
                    &&& final(self).input.pending@.len() == 0
                    &&& final(self).input.next_id == old(self).input.next_id
                    &&& final(self).input.sample_rate == old(self).input.sample_rate
                    &&& r == speaker_feed(old(self).rows@[0], final(self).frame)
                },
    {
        if self.cursor == 0 {
            self.frame = self.input.tick();
        }
        let n = self.rows.len();
        let out = self.rows[self.cursor].decode(&self.frame);
        self.cursor = if self.cursor + 1 == n {
            0
        } else {
            self.cursor + 1
        };
        proof {
            if old(self).cursor + 1 == old(self).rows@.len() {
                assert((old(self).cursor + 1) as int % old(self).rows@.len() as int == 0) by {
                    vstd::arithmetic::div_mod::lemma_mod_self_0(old(self).rows@.len() as int);
                }
            } else {
                vstd::arithmetic::div_mod::lemma_small_mod(
                    (old(self).cursor + 1) as nat,
                    old(self).rows@.len() as nat,
                );
            }
        }
        out
    }
}

/// Parameters of the HRTF renderer: a measured impulse-response table.
///
/// Entry `i` of each list belongs to the virtual speaker at `directions[i]`;
/// all impulse responses must share one length between 1 and 4096, with every
/// coefficient within one unit.
pub struct HrtfConfig {
    /// The measurement directions, one virtual speaker each.
    pub directions: Vec<Vec3>,
    /// The left-ear impulse response of each direction.
    pub left_irs: Vec<Vec<i64>>,
    /// The right-ear impulse response of each direction.
    pub right_irs: Vec<Vec<i64>>,
}

/// Whether an impulse-response table has a consistent, in-range shape for
/// `n` directions.
pub open spec fn hrtf_table_wf(n: int, left: Seq<Vec<i64>>, right: Seq<Vec<i64>>) -> bool {
    &&& left.len() == n
    &&& right.len() == n
    &&& 1 <= left[0]@.len() <= 4096
    &&& forall|i: int| 0 <= i < n ==> (#[trigger] left[i]@).len() == left[0]@.len()
    &&& forall|i: int| 0 <= i < n ==> (#[trigger] right[i]@).len() == left[0]@.len()
    &&& forall|i: int, k: int|
        0 <= i < n && 0 <= k < left[0]@.len() ==> -65536 <= (#[trigger] left[i]@[k]) <= 65536
    &&& forall|i: int, k: int|
        0 <= i < n && 0 <= k < left[0]@.len() ==> -65536 <= (#[trigger] right[i]@[k]) <= 65536
}

/// The first `k` products of an impulse response and a history, summed.
pub open spec fn conv_sum(ir: Seq<i64>, hist: Seq<i64>, k: int) -> int
    decreases k,
{
    if k <= 0 {
        0
    } else {
        conv_sum(ir, hist, k - 1) + ir[k - 1] * hist[k - 1]
    }
}

/// The convolution of an impulse response with a history window, scaled
/// back to Q16.16.
pub open spec fn convolved(ir: Seq<i64>, hist: Seq<i64>) -> int {
    tdiv(conv_sum(ir, hist, ir.len() as int), 65536)
}

/// The sum over the first `k` virtual speakers of one ear's convolutions.
pub open spec fn ear_total(irs: Seq<Vec<i64>>, hists: Seq<Vec<i64>>, k: int) -> int
    decreases k,
{
    if k <= 0 {
        0
    } else {
        ear_total(irs, hists, k - 1) + convolved(irs[k - 1]@, hists[k - 1]@)
    }
}

/// A history window after one new feed: the feed in front, the oldest
/// sample dropped.
pub open spec fn shifted(h: Seq<i64>, feed: i64) -> Seq<i64> {
    h.insert(0, feed).drop_last()
}

/// Convolve one impulse response with one history window.
fn convolve(ir: &Vec<i64>, hist: &Vec<i64>) -> (r: i64)
    requires
        ir@.len() == hist@.len(),
        1 <= ir@.len() <= 4096,
        forall|k: int| 0 <= k < ir@.len() ==> -65536 <= (#[trigger] ir@[k]) <= 65536,
        forall|k: int| 0 <= k < hist@.len() ==> -65536 <= (#[trigger] hist@[k]) <= 65536,
    ensures
        r == convolved(ir@, hist@),
        -0x1000_0000_0000 <= r <= 0x1000_0000_0000,
{
    let n = ir.len();
    let mut acc: i64 = 0;
    let mut k: usize = 0;
    while k < n
        invariant
            0 <= k <= n,
            n == ir@.len() == hist@.len(),
            n <= 4096,
            forall|j: int| 0 <= j < n ==> -65536 <= (#[trigger] ir@[j]) <= 65536,
            forall|j: int| 0 <= j < n ==> -65536 <= (#[trigger] hist@[j]) <= 65536,
            acc == conv_sum(ir@, hist@, k as int),
            -(k as int) * 0x1_0000_0000 <= acc <= (k as int) * 0x1_0000_0000,
        decreases n - k,
    {
        proof {
            assert(-0x1_0000_0000 <= ir@[k as int] * hist@[k as int] <= 0x1_0000_0000)
                by (nonlinear_arith)
                requires
                    -65536 <= ir@[k as int] <= 65536 && -65536 <= hist@[k as int] <= 65536,
            ;
            assert((k as int) * 0x1_0000_0000 + 0x1_0000_0000 == (k as int + 1) * 0x1_0000_0000)
                by (nonlinear_arith);
            assert((k as int) * 0x1_0000_0000 <= 4096 * 0x1_0000_0000) by (nonlinear_arith)
                requires
                    0 <= k <= 4096,
            ;
        }
        acc = acc + ir[k] * hist[k];
        k = k + 1;
    }
    proof {
        assert((n as int) * 0x1_0000_0000 <= 4096 * 0x1_0000_0000) by (nonlinear_arith)
            requires
                0 <= n <= 4096,
        ;
        fixed::lemma_tdiv_ordered(acc as int, (4096 * 0x1_0000_0000) as int, 65536);
        fixed::lemma_tdiv_ordered(-((4096 * 0x1_0000_0000) as int), acc as int, 65536);
    }
    fixed::tdiv64(acc, 65536)
}

/// Whether one impulse response has the shared length with every
/// coefficient within one unit.
fn check_row(v: &Vec<i64>, ir_len: usize) -> (r: bool)
    ensures
        r <==> (v@.len() == ir_len && forall|k: int|
            0 <= k < v@.len() ==> -65536 <= (#[trigger] v@[k]) <= 65536),
{
    if v.len() != ir_len {
        return false;
    }
    let mut k: usize = 0;
    while k < ir_len
        invariant
            0 <= k <= ir_len,
            v@.len() == ir_len,
            forall|k2: int| 0 <= k2 < k ==> -65536 <= (#[trigger] v@[k2]) <= 65536,
        decreases ir_len - k,
    {
        let c = v[k];
        if c < -65536 || c > 65536 {
            return false;
        }
        k = k + 1;
    }
    true
}

/// Realistic 3D sound over headphones using head related transfer functions.
///
/// Each mixed frame is decoded into virtual speaker feeds on the HRTF
/// measurement grid; every feed runs through a per-ear convolution over that
/// direction's impulse response, and the per-ear outputs are summed across
/// the virtual speakers.
pub struct BstreamHrtfRenderer<S: MonoSource> {
    /// The mixing bus this renderer drains.
    pub input: BstreamMixer<S>,
    /// One decode row per virtual speaker.
    pub rows: Vec<Bweights>,
    /// The left-ear impulse responses.
    pub left_irs: Vec<Vec<i64>>,
    /// The right-ear impulse responses.
    pub right_irs: Vec<Vec<i64>>,
    /// The recent feed window of each virtual speaker, newest first.
    pub histories: Vec<Vec<i64>>,
    /// The right-channel sample awaiting the next pull.
    pub buffered: Option<i64>,
}

impl<S: MonoSource> BstreamHrtfRenderer<S> {
    /// The length all impulse responses and histories share.
    pub open spec fn ir_len(self) -> int {
        self.left_irs@[0]@.len() as int
    }

    /// The renderer's invariant.
    pub open spec fn wf(self) -> bool {
        &&& self.input.wf()
        &&& self.rows@.len() > 0
        &&& self.left_irs@.len() == self.rows@.len()
        &&& self.right_irs@.len() == self.rows@.len()
        &&& self.histories@.len() == self.rows@.len()
        &&& forall|i: int|
            0 <= i < self.rows@.len() ==> (#[trigger] self.rows@[i]).bounded(fixed::ONE as int)
        &&& hrtf_table_wf(self.rows@.len() as int, self.left_irs@, self.right_irs@)
        &&& forall|i: int|
            0 <= i < self.rows@.len() ==> (#[trigger] self.histories@[i]@).len() == self.ir_len()
        &&& forall|i: int, k: int|
            0 <= i < self.rows@.len() && 0 <= k < self.ir_len() ==> -65536 <= (
            #[trigger] self.histories@[i]@[k]) <= 65536
        &&& self.buffered matches Some(s) ==> -fixed::ONE <= s <= fixed::ONE
        &&& self.buffered is None ==> true
    }

    /// Build the renderer from an impulse-response table.
    ///
    /// Fails exactly when the direction list is empty or oversized, or the
    /// table's shape is inconsistent or out of range; every accepted table
    /// yields one virtual speaker per direction with an all-silent history.
    #[verifier::loop_isolation(false)]
    pub fn new(input: BstreamMixer<S>, cfg: HrtfConfig) -> (r: Result<
        BstreamHrtfRenderer<S>,
        RendererError,
    >)
        requires
            input.wf(),
        ensures
            cfg.directions@.len() == 0 ==> r == Err::<BstreamHrtfRenderer<S>, RendererError>(
                RendererError::EmptySpeakerList,
            ),
            cfg.directions@.len() > 65536 ==> r == Err::<BstreamHrtfRenderer<S>, RendererError>(
                RendererError::TooManySpeakers,
            ),
            0 < cfg.directions@.len() <= 65536 && !hrtf_table_wf(
                cfg.directions@.len() as int,
                cfg.left_irs@,
                cfg.right_irs@,
            ) ==> r == Err::<BstreamHrtfRenderer<S>, RendererError>(
                RendererError::MalformedHrtfTable,
            ),
            0 < cfg.directions@.len() <= 65536 && hrtf_table_wf(
                cfg.directions@.len() as int,
                cfg.left_irs@,
                cfg.right_irs@,
            ) ==> (r matches Ok(rd) && {
                &&& rd.wf()
                &&& rd.input == input
                &&& rd.buffered is None
                &&& rd.rows@.len() == cfg.directions@.len()
                &&& rd.left_irs@ == cfg.left_irs@
                &&& rd.right_irs@ == cfg.right_irs@
                &&& forall|i: int|
                    0 <= i < rd.rows@.len() ==> rd.rows@[i] == speaker_row(
                        clamp_vec(cfg.directions@[i], fixed::ONE as int),
                        speaker_norm(cfg.directions@.len() as int),
                    )
                &&& forall|i: int, k: int|
                    0 <= i < rd.rows@.len() && 0 <= k < rd.ir_len() ==> rd.histories@[i]@[k] == 0
            }),
    {
        let n = cfg.directions.len();
        if n == 0 {
            return Err(RendererError::EmptySpeakerList);
        }
        if n > 65536 {
            return Err(RendererError::TooManySpeakers);
        }
        if cfg.left_irs.len() != n || cfg.right_irs.len() != n {
            return Err(RendererError::MalformedHrtfTable);
        }
        let ir_len = cfg.left_irs[0].len();
        if ir_len == 0 || ir_len > 4096 {
            return Err(RendererError::MalformedHrtfTable);
        }
        let mut i: usize = 0;
        while i < n
            invariant
                0 <= i <= n,
                forall|j: int| 0 <= j < i ==> (#[trigger] cfg.left_irs@[j]@).len() == ir_len,
                forall|j: int| 0 <= j < i ==> (#[trigger] cfg.right_irs@[j]@).len() == ir_len,
                forall|j: int, k: int|
                    0 <= j < i && 0 <= k < ir_len ==> -65536 <= (#[trigger] cfg.left_irs@[j]@[k])
                        <= 65536,
                forall|j: int, k: int|
                    0 <= j < i && 0 <= k < ir_len ==> -65536 <= (#[trigger] cfg.right_irs@[j]@[k])
                        <= 65536,
            decreases n - i,
        {
            let ok_l = check_row(&cfg.left_irs[i], ir_len);
            let ok_r = check_row(&cfg.right_irs[i], ir_len);
            if !ok_l || !ok_r {
                return Err(RendererError::MalformedHrtfTable);
            }
            i = i + 1;
        }
        let norm = fixed::tdiv64(65536, n as i64);
        proof {
            fixed::lemma_tdiv_bounds(65536, n as int);
        }
        let mut rows: Vec<Bweights> = Vec::new();
        let mut histories: Vec<Vec<i64>> = Vec::new();
        let mut j: usize = 0;
        while j < n
            invariant
                0 <= j <= n,
                rows@.len() == j,
                histories@.len() == j,
                forall|j2: int|
                    0 <= j2 < j ==> rows@[j2] == speaker_row(
                        clamp_vec(cfg.directions@[j2], fixed::ONE as int),
                        norm as int,
                    ) && (#[trigger] rows@[j2]).bounded(fixed::ONE as int),
                forall|j2: int| 0 <= j2 < j ==> (#[trigger] histories@[j2]@).len() == ir_len,
                forall|j2: int, k2: int|
                    0 <= j2 < j && 0 <= k2 < ir_len ==> (#[trigger] histories@[j2]@[k2]) == 0,
            decreases n - j,
        {
            let d = cfg.directions[j];
            let dc = Vec3 {
                x: fixed::clamp64(d.x, -fixed::ONE, fixed::ONE),
                y: fixed::clamp64(d.y, -fixed::ONE, fixed::ONE),
                z: fixed::clamp64(d.z, -fixed::ONE, fixed::ONE),
            };
            rows.push(make_row(dc, norm));
            let mut h: Vec<i64> = Vec::new();
            let mut k: usize = 0;
            while k < ir_len
                invariant
                    0 <= k <= ir_len,
                    h@.len() == k,
                    forall|k2: int| 0 <= k2 < k ==> (#[trigger] h@[k2]) == 0,
                decreases ir_len - k,
            {
                h.push(0);
                k = k + 1;
            }
            histories.push(h);
            j = j + 1;
        }
        Ok(
            BstreamHrtfRenderer {
                input,
                rows,
                left_irs: cfg.left_irs,
                right_irs: cfg.right_irs,
                histories,
                buffered: None,
            },
        )
    }

    /// Pull one output sample: left and right ear interleaved, one mixer
    /// tick (decode, history shift and convolution per virtual speaker) for
    /// every pair.
    #[verifier::loop_isolation(false)]
    pub fn next_output(&mut self) -> (r: i64)
        requires
            old(self).wf(),
        ensures
            final(self).wf(),
            -fixed::ONE <= r <= fixed::ONE,
            final(self).rows@ == old(self).rows@,
            final(self).left_irs@ == old(self).left_irs@,
            final(self).right_irs@ == old(self).right_irs@,
            old(self).buffered matches Some(s) ==> {
                &&& r == s
                &&& final(self).buffered is None
                &&& final(self).input == old(self).input
                &&& final(self).histories@ == old(self).histories@
            },
            old(self).buffered is None ==> exists|posts: Seq<Bstream<S>>, cs: Seq<Bformat>, f: Bformat|
                {
                    &&& tick_result(old(self).input.active@ + old(self).input.pending@, posts, cs, f)
                    &&& final(self).input.active@ == survivors(posts)
                    &&& final(self).input.pending@.len() == 0
                    &&& final(self).input.next_id == old(self).input.next_id
                    &&& final(self).input.sample_rate == old(self).input.sample_rate
                    &&& forall|i: int|
                        0 <= i < old(self).rows@.len() ==> final(self).histories@[i]@ == shifted(
                            old(self).histories@[i]@,
                            speaker_feed(old(self).rows@[i], f) as i64,
                        )
                    &&& r == clamped(
                        ear_total(
                            old(self).left_irs@,
                            final(self).histories@,
                            old(self).rows@.len() as int,
                        ),
                        -fixed::ONE as int,
                        fixed::ONE as int,
                    )
                    &&& final(self).buffered == Some(
                        clamped(
                            ear_total(
                                old(self).right_irs@,
                                final(self).histories@,
                                old(self).rows@.len() as int,
                            ),
                            -fixed::ONE as int,
                            fixed::ONE as int,
                        ) as i64,
                    )
                },
    {
        match self.buffered {
            Some(s) => {
                self.buffered = None;
                s
            },
            None => {
                let frame = self.input.tick();
                let ghost input_after = self.input;
                let n = self.rows.len();
                let mut lacc: i128 = 0;
                let mut racc: i128 = 0;
                let mut i: usize = 0;
                while i < n
                    invariant
                        0 <= i <= n,
                        self.rows@ == old(self).rows@,
                        self.left_irs@ == old(self).left_irs@,
                        self.right_irs@ == old(self).right_irs@,
                        self.input == input_after,
                        self.buffered == old(self).buffered,
                        self.histories@.len() == n,
                        forall|j: int| i <= j < n ==> self.histories@[j] == old(self).histories@[j],
                        forall|j: int|
                            0 <= j < i ==> self.histories@[j]@ == shifted(
                                old(self).histories@[j]@,
                                speaker_feed(self.rows@[j], frame) as i64,
                            ),
                        forall|j: int|
                            0 <= j < n ==> (#[trigger] self.histories@[j]@).len() == self.ir_len(),
                        forall|j: int, k: int|
                            0 <= j < n && 0 <= k < self.ir_len() ==> -65536 <= (
                            #[trigger] self.histories@[j]@[k]) <= 65536,
                        lacc == ear_total(self.left_irs@, self.histories@, i as int),
                        racc == ear_total(self.right_irs@, self.histories@, i as int),
                        -(i as int) * 0x1000_0000_0000 <= lacc <= (i as int) * 0x1000_0000_0000,
                        -(i as int) * 0x1000_0000_0000 <= racc <= (i as int) * 0x1000_0000_0000,
                    decreases n - i,
                {
                    let ghost hists_before = self.histories@;
                    let feed = self.rows[i].decode(&frame);
                    let mut h = self.histories.remove(i);
                    h.insert(0, feed);
                    let hl = h.len();
                    h.truncate(hl - 1);
                    proof {
                        assert(h@ =~= shifted(old(self).histories@[i as int]@, feed));
                    }
                    let lc = convolve(&self.left_irs[i], &h);
                    let rc = convolve(&self.right_irs[i], &h);
                    self.histories.insert(i, h);
                    proof {
                        assert forall|j: int| 0 <= j < n && j != i as int implies self.histories@[j]
                            == hists_before[j] by {}
                        assert(self.histories@[i as int] == h);
                        lemma_ear_total_grows(
                            self.left_irs@,
                            hists_before,
                            self.histories@,
                            i as int,
                        );
                        lemma_ear_total_grows(
                            self.right_irs@,
                            hists_before,
                            self.histories@,
                            i as int,
                        );
                        assert((i as int) * 0x1000_0000_0000 + 0x1000_0000_0000 == (i as int + 1)
                            * 0x1000_0000_0000) by (nonlinear_arith);
                        assert((i as int) * 0x1000_0000_0000 <= 0xFFFF_FFFF_FFFF_FFFF
                            * 0x1000_0000_0000) by (nonlinear_arith)
                            requires
                                0 <= i <= 0xFFFF_FFFF_FFFF_FFFF,
                        ;
                    }
                    lacc = lacc + (lc as i128);
                    racc = racc + (rc as i128);
                    i = i + 1;
                }
                let left = clamp128_unit(lacc);
                let right = clamp128_unit(racc);
                self.buffered = Some(right);
                left
            },
        }
    }
}

/// Extending the processed prefix by one speaker adds exactly that
/// speaker's convolution; the sum over a prefix only reads that prefix of
/// the histories.
proof fn lemma_ear_total_grows(
    irs: Seq<Vec<i64>>,
    hists1: Seq<Vec<i64>>,
    hists2: Seq<Vec<i64>>,
    i: int,
)
    requires
        0 <= i,
        hists1.len() == hists2.len(),
        i < hists1.len() <= irs.len(),
        forall|j: int| 0 <= j < i ==> hists1[j]@ == hists2[j]@,
    ensures
        ear_total(irs, hists2, i + 1) == ear_total(irs, hists1, i) + convolved(irs[i]@, hists2[i]@),
{
    lemma_ear_total_prefix(irs, hists1, hists2, i);
}

/// The per-ear sum over a prefix depends only on that prefix of histories.
proof fn lemma_ear_total_prefix(
    irs: Seq<Vec<i64>>,
    hists1: Seq<Vec<i64>>,
    hists2: Seq<Vec<i64>>,
    k: int,
)
    requires
        forall|j: int| 0 <= j < k ==> hists1[j]@ == hists2[j]@,
    ensures
        ear_total(irs, hists1, k) == ear_total(irs, hists2, k),
    decreases k,
{
    if k > 0 {
        lemma_ear_total_prefix(irs, hists1, hists2, k - 1);
        assert(convolved(irs[k - 1]@, hists1[k - 1]@) == convolved(irs[k - 1]@, hists2[k - 1]@));
    }
}

/// Clamp an exact ear sum into full scale.
fn clamp128_unit(v: i128) -> (r: i64)
    ensures
        r == clamped(v as int, -fixed::ONE as int, fixed::ONE as int),
        -fixed::ONE <= r <= fixed::ONE,
{
    if v < -65536i128 {
        -65536i64
    } else if v > 65536i128 {
        65536i64
    } else {
        v as i64
    }
}

} // verus!
