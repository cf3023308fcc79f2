//! The real-time mixing bus.
//!
//! A [`BstreamMixer`] owns the set of active source channels.  Each
//! [`BstreamMixer::tick`] first drains newly composed channels from the
//! pending queue, then pulls one frame from every active channel, sums the
//! frames component-wise, and retires every channel that signalled
//! exhaustion.  Control commands are routed by source identity and are a
//! no-op for retired or unknown sources.

use vstd::prelude::*;

use crate::bformat::{field_sum, Bformat, FieldAccum, Vec3};
use crate::bformat::{lemma_field_sum_bound, lemma_field_sum_drop_zero, lemma_field_sum_permutation};
use crate::bstream::{clamp_vec, next_frame_rel, Bstream, BstreamConfig, MonoSource};
use crate::fixed;
use crate::fixed::clamped;

verus! {

/// A control update addressed to one source in the mix.
#[derive(Clone, Copy, Debug, PartialEq, Eq, Structural)]
pub enum SoundCommand {
    /// Move the source to a position.
    SetPosition { id: u64, position: Vec3 },
    /// Move the source relative to its current position.
    AdjustPosition { id: u64, delta: Vec3 },
    /// Set the source's velocity.
    SetVelocity { id: u64, velocity: Vec3 },
    /// Set the source's gain.
    SetGain { id: u64, gain: i64 },
    /// Retire the source.
    Stop { id: u64 },
}

/// The state a command leaves one channel in: the addressed update, clamped
/// into the channel's ranges, or the channel unchanged when the identity does
/// not match.
pub open spec fn apply_to<S: MonoSource>(ch: Bstream<S>, cmd: SoundCommand) -> Bstream<S> {
    match cmd {
        SoundCommand::SetPosition { id, position } => {
            if ch.id == id {
                Bstream { pos: clamp_vec(position, fixed::POS_MAX as int), ..ch }
            } else {
                ch
            }
        },
        SoundCommand::AdjustPosition { id, delta } => {
            if ch.id == id {
                let d = clamp_vec(delta, fixed::POS_MAX as int);
                Bstream {
                    pos: clamp_vec(
                        Vec3 {
                            x: (ch.pos.x + d.x) as i64,
                            y: (ch.pos.y + d.y) as i64,
                            z: (ch.pos.z + d.z) as i64,
                        },
                        fixed::POS_MAX as int,
                    ),
                    ..ch
                }
            } else {
                ch
            }
        },
        SoundCommand::SetVelocity { id, velocity } => {
            if ch.id == id {
                Bstream { vel: clamp_vec(velocity, fixed::VEL_MAX as int), ..ch }
            } else {
                ch
            }
        },
        SoundCommand::SetGain { id, gain } => {
            if ch.id == id {
                Bstream { gain: clamped(gain as int, 0, fixed::GAIN_MAX as int) as i64, ..ch }
            } else {
                ch
            }
        },
        SoundCommand::Stop { id } => {
            if ch.id == id {
                Bstream { finished: true, ..ch }
            } else {
                ch
            }
        },
    }
}

/// Every channel of the sequence is well-formed.
pub open spec fn channels_wf<S: MonoSource>(s: Seq<Bstream<S>>) -> bool {
    forall|j: int| 0 <= j < s.len() ==> s[j].wf()
}

/// Every channel of the sequence has an identity below `n`.
pub open spec fn ids_below<S: MonoSource>(s: Seq<Bstream<S>>, n: u64) -> bool {
    forall|j: int| 0 <= j < s.len() ==> s[j].id < n
}

/// The mix of a sequence of contributions: the exact component-wise sum,
/// clamped into the mixed-field range.
pub open spec fn mixed(cs: Seq<Bformat>) -> Bformat {
    Bformat {
        w: clamped(field_sum(cs).0, -fixed::MIX_MAX as int, fixed::MIX_MAX as int) as i64,
        x: clamped(field_sum(cs).1, -fixed::MIX_MAX as int, fixed::MIX_MAX as int) as i64,
        y: clamped(field_sum(cs).2, -fixed::MIX_MAX as int, fixed::MIX_MAX as int) as i64,
        z: clamped(field_sum(cs).3, -fixed::MIX_MAX as int, fixed::MIX_MAX as int) as i64,
    }
}

/// What one tick did: every channel that stood in the mix (queued first,
/// then active, in order) was pulled exactly once -- `posts[j]` is its
/// post-pull state and `cs[j]` the frame that pull returned, related by
/// [`next_frame_rel`] -- and the output is the clamped component-wise sum
/// of exactly those frames.
pub open spec fn tick_result<S: MonoSource>(
    processed: Seq<Bstream<S>>,
    posts: Seq<Bstream<S>>,
    cs: Seq<Bformat>,
    r: Bformat,
) -> bool {
    &&& posts.len() == processed.len()
    &&& cs.len() == processed.len()
    &&& forall|j: int|
        0 <= j < processed.len() ==> next_frame_rel(processed[j], #[trigger] posts[j], cs[j])
    &&& r == mixed(cs)
}

/// The channels that remain in the mix after a tick: the post-pull states
/// that are not retired, in their pull order.
pub open spec fn survivors<S: MonoSource>(posts: Seq<Bstream<S>>) -> Seq<Bstream<S>>
    decreases posts.len(),
{
    if posts.len() == 0 {
        Seq::empty()
    } else {
        let t = survivors(posts.drop_last());
        if posts.last().finished {
            t
        } else {
            t.push(posts.last())
        }
    }
}

/// The mix is order-independent: any two arrangements of the same multiset
/// of contributions mix to the same output frame.
pub proof fn lemma_mix_order_independent(cs1: Seq<Bformat>, cs2: Seq<Bformat>)
    requires
        cs1.to_multiset() == cs2.to_multiset(),
    ensures
        mixed(cs1) == mixed(cs2),
{
    lemma_field_sum_permutation(cs1, cs2);
}

/// A retired channel adds nothing to a tick: its contribution is silence,
/// and the mix equals the mix without it.
pub proof fn lemma_retired_contributes_nothing<S: MonoSource>(
    processed: Seq<Bstream<S>>,
    posts: Seq<Bstream<S>>,
    cs: Seq<Bformat>,
    r: Bformat,
    j: int,
)
    requires
        tick_result(processed, posts, cs, r),
        0 <= j < processed.len(),
        processed[j].finished,
    ensures
        cs[j] == Bformat::zero_spec(),
        r == mixed(cs.remove(j)),
{
    assert(next_frame_rel(processed[j], posts[j], cs[j]));
    lemma_field_sum_drop_zero(cs, j);
}

/// Stopping a source is idempotent: a second stop, or a stop of an already
/// retired or absent source, leaves every channel where one stop left it.
pub proof fn lemma_stop_idempotent<S: MonoSource>(ch: Bstream<S>, id: u64)
    ensures
        apply_to(apply_to(ch, SoundCommand::Stop { id }), SoundCommand::Stop { id }) == apply_to(
            ch,
            SoundCommand::Stop { id },
        ),
        ch.finished ==> apply_to(ch, SoundCommand::Stop { id }) == ch,
        ch.id != id ==> apply_to(ch, SoundCommand::Stop { id }) == ch,
{
}

/// The real-time aggregation engine: the active set, the pending queue that
/// hands newly composed channels across from the control side, and the next
/// fresh source identity.
pub struct BstreamMixer<S: MonoSource> {
    /// Channels in the mix, pulled every tick.
    pub active: Vec<Bstream<S>>,
    /// Newly composed channels, drained into the active set at the start of
    /// the next tick.
    pub pending: Vec<Bstream<S>>,
    /// The identity the next composed source will receive.
    pub next_id: u64,
    /// The configured output sample rate.
    pub sample_rate: u32,
}

impl<S: MonoSource> BstreamMixer<S> {
    /// The mixer's invariant: all channels well-formed, all identities below
    /// the next fresh one.
    pub open spec fn wf(self) -> bool {
        &&& channels_wf(self.active@)
        &&& channels_wf(self.pending@)
        &&& ids_below(self.active@, self.next_id)
        &&& ids_below(self.pending@, self.next_id)
    }

    /// An empty mix at the given sample rate.
    pub fn new(sample_rate: u32) -> (r: BstreamMixer<S>)
        ensures
            r.wf(),
            r.active@.len() == 0,
            r.pending@.len() == 0,
            r.next_id == 0,
            r.sample_rate == sample_rate,
    {
        BstreamMixer { active: Vec::new(), pending: Vec::new(), next_id: 0, sample_rate }
    }

    /// Compose a new source into the scene: wrap the producer as a channel
    /// under a fresh identity and queue it for the next tick.  Returns the
    /// identity, through which every later control command addresses the
    /// source.
    pub fn play(&mut self, source: S, config: BstreamConfig) -> (id: u64)
        requires
            old(self).wf(),
            old(self).next_id < u64::MAX,
        ensures
            final(self).wf(),
            id == old(self).next_id,
            final(self).next_id == old(self).next_id + 1,
            final(self).active@ == old(self).active@,
            final(self).sample_rate == old(self).sample_rate,
            final(self).pending@.len() == old(self).pending@.len() + 1,
            final(self).pending@.last() == (Bstream {
                source,
                pos: clamp_vec(config.position, fixed::POS_MAX as int),
                vel: clamp_vec(config.velocity, fixed::VEL_MAX as int),
                gain: clamped(config.gain as int, 0, fixed::GAIN_MAX as int) as i64,
                min_dist: clamped(
                    config.min_distance as int,
                    fixed::DIST_FLOOR_MIN as int,
                    fixed::POS_MAX as int,
                ) as i64,
                last_dir: Vec3 { x: 0, y: 0, z: 65536 },
                prev: 0,
                next: 0,
                frac: 0,
                finished: false,
                id,
            }),
            final(self).pending@.drop_last() == old(self).pending@,
    {
        let id = self.next_id;
        let ch = Bstream::new(source, config, id);
        self.pending.push(ch);
        self.next_id = self.next_id + 1;
        proof {
            assert(self.pending@.drop_last() =~= old(self).pending@);
        }
        id
    }

    /// One real-time tick: drain the pending queue into the active set, pull
    /// one frame from every channel, sum the frames component-wise, retire
    /// every channel that signalled exhaustion, and emit the summed frame.
    /// An empty mix emits silence rather than stalling.
    #[verifier::loop_isolation(false)]
    pub fn tick(&mut self) -> (r: Bformat)
        requires
            old(self).wf(),
        ensures
            final(self).wf(),
            final(self).next_id == old(self).next_id,
            final(self).sample_rate == old(self).sample_rate,
            final(self).pending@.len() == 0,
            forall|j: int| 0 <= j < final(self).active@.len() ==> !final(self).active@[j].finished,
            old(self).active@.len() == 0 && old(self).pending@.len() == 0 ==> r
                == Bformat::zero_spec() && final(self).active@.len() == 0,
            -fixed::MIX_MAX <= r.w <= fixed::MIX_MAX,
            -fixed::MIX_MAX <= r.x <= fixed::MIX_MAX,
            -fixed::MIX_MAX <= r.y <= fixed::MIX_MAX,
            -fixed::MIX_MAX <= r.z <= fixed::MIX_MAX,
            exists|posts: Seq<Bstream<S>>, cs: Seq<Bformat>|
                {
                    &&& tick_result(old(self).active@ + old(self).pending@, posts, cs, r)
                    &&& final(self).active@ == survivors(posts)
                },
    {
        let ghost all: Seq<Bstream<S>> = old(self).active@ + old(self).pending@;
        while self.pending.len() > 0
            invariant
                self.active@ + self.pending@ == all,
                channels_wf(self.active@),
                channels_wf(self.pending@),
                ids_below(self.active@, self.next_id),
                ids_below(self.pending@, self.next_id),
                self.next_id == old(self).next_id,
                self.sample_rate == old(self).sample_rate,
            decreases self.pending@.len(),
        {
            let ch = self.pending.remove(0);
            self.active.push(ch);
            proof {
                assert(self.active@ + self.pending@ =~= all);
            }
        }
        proof {
            assert(self.active@ =~= all);
        }
        let n_all = self.active.len();
        proof {
            assert(all.len() == n_all);
        }
        let mut kept: Vec<Bstream<S>> = Vec::new();
        let mut accum = FieldAccum::new();
        let ghost mut cs: Seq<Bformat> = Seq::empty();
        let ghost mut posts: Seq<Bstream<S>> = Seq::empty();
        while self.active.len() > 0
            invariant
                self.pending@.len() == 0,
                cs.len() + self.active@.len() == all.len(),
                posts.len() == cs.len(),
                self.active@ == all.skip(cs.len() as int),
                forall|j: int|
                    0 <= j < cs.len() ==> next_frame_rel(all[j], #[trigger] posts[j], cs[j]),
                forall|j: int| 0 <= j < cs.len() ==> (#[trigger] cs[j]).wf(),
                accum.w == field_sum(cs).0,
                accum.x == field_sum(cs).1,
                accum.y == field_sum(cs).2,
                accum.z == field_sum(cs).3,
                channels_wf(self.active@),
                ids_below(self.active@, self.next_id),
                kept@.len() <= cs.len(),
                kept@ == survivors(posts),
                forall|j: int|
                    0 <= j < kept@.len() ==> (#[trigger] kept@[j]).wf() && !kept@[j].finished
                        && kept@[j].id < self.next_id,
                self.next_id == old(self).next_id,
                self.sample_rate == old(self).sample_rate,
            decreases self.active@.len(),
        {
            let ghost k = cs.len() as int;
            let mut ch = self.active.remove(0);
            proof {
                assert(self.active@ =~= all.skip(k + 1));
                assert(ch == all[k]);
            }
            let ghost pre = ch;
            let f = ch.next_frame();
            proof {
                lemma_field_sum_bound(cs);
                assert(cs.len() <= all.len() <= 0xFFFF_FFFF_FFFF_FFFF);
                assert(cs.len() * fixed::FIELD_MAX <= 0xFFFF_FFFF_FFFF_FFFF * 0x400_0000_0000)
                    by (nonlinear_arith)
                    requires
                        cs.len() <= 0xFFFF_FFFF_FFFF_FFFF,
                ;
            }
            accum.accumulate(&f);
            proof {
                let cs2 = cs.push(f);
                assert(cs2.drop_last() =~= cs);
                assert(cs2.last() == f);
                cs = cs2;
                let posts2 = posts.push(ch);
                assert(posts2.drop_last() =~= posts);
                assert(posts2.last() == ch);
                posts = posts2;
            }
            if !ch.finished {
                kept.push(ch);
            }
        }
        self.active = kept;
        let out = accum.finish();
        proof {
            assert(out == mixed(cs));
            assert(tick_result(all, posts, cs, out));
            if all.len() == 0 {
                assert(cs.len() == 0);
                assert(field_sum(cs) == (0int, 0int, 0int, 0int));
            }
        }
        out
    }

    /// Route one control command: every channel whose identity matches takes
    /// the update; all others, and therefore a retired or unknown source,
    /// are left untouched.
    pub fn apply(&mut self, cmd: SoundCommand)
        requires
            old(self).wf(),
        ensures
            final(self).wf(),
            final(self).next_id == old(self).next_id,
            final(self).sample_rate == old(self).sample_rate,
            final(self).active@.len() == old(self).active@.len(),
            final(self).pending@.len() == old(self).pending@.len(),
            forall|j: int|
                0 <= j < old(self).active@.len() ==> final(self).active@[j] == apply_to(
                    old(self).active@[j],
                    cmd,
                ),
            forall|j: int|
                0 <= j < old(self).pending@.len() ==> final(self).pending@[j] == apply_to(
                    old(self).pending@[j],
                    cmd,
                ),
    {
        apply_to_channels(&mut self.active, cmd);
        apply_to_channels(&mut self.pending, cmd);
    }
}

/// Route one command over a channel list, element by element.
fn apply_to_channels<S: MonoSource>(channels: &mut Vec<Bstream<S>>, cmd: SoundCommand)
    requires
        channels_wf(old(channels)@),
    ensures
        final(channels)@.len() == old(channels)@.len(),
        forall|j: int|
            0 <= j < old(channels)@.len() ==> final(channels)@[j] == apply_to(
                old(channels)@[j],
                cmd,
            ),
        channels_wf(final(channels)@),
        forall|n: u64| ids_below(old(channels)@, n) ==> ids_below(final(channels)@, n),
    {
    let n = channels.len();
    let mut i: usize = 0;
    while i < n
        invariant
            n == channels@.len() == old(channels)@.len(),
            0 <= i <= n,
            forall|j: int| i <= j < n ==> channels@[j] == old(channels)@[j],
            forall|j: int| 0 <= j < i ==> channels@[j] == apply_to(old(channels)@[j], cmd),
            forall|j: int| 0 <= j < i ==> channels@[j].wf(),
            channels_wf(old(channels)@),
        decreases n - i,
    {
        let mut ch = channels.remove(i);
        apply_one(&mut ch, cmd);
        channels.insert(i, ch);
        i = i + 1;
    }
    proof {
        assert forall|n2: u64| ids_below(old(channels)@, n2) implies ids_below(channels@, n2) by {
            assert forall|j: int| 0 <= j < channels@.len() implies channels@[j].id < n2 by {
                assert(channels@[j] == apply_to(old(channels)@[j], cmd));
            }
        }
    }
}

/// Apply one command to one channel.
fn apply_one<S: MonoSource>(ch: &mut Bstream<S>, cmd: SoundCommand)
    requires
        old(ch).wf(),
    ensures
        *final(ch) == apply_to(*old(ch), cmd),
        final(ch).wf(),
        final(ch).id == old(ch).id,
{
    match cmd {
        SoundCommand::SetPosition { id, position } => {
            if ch.id == id {
                ch.set_position(position);
            }
        },
        SoundCommand::AdjustPosition { id, delta } => {
            if ch.id == id {
                let d = crate::bstream::clamp_delta(delta);
                ch.adjust_position(d);
            }
        },
        SoundCommand::SetVelocity { id, velocity } => {
            if ch.id == id {
                ch.set_velocity(velocity);
            }
        },
        SoundCommand::SetGain { id, gain } => {
            if ch.id == id {
                ch.set_gain(gain);
            }
        },
        SoundCommand::Stop { id } => {
            if ch.id == id {
                ch.stop();
            }
        },
    }
}

} // verus!
