//! Simple mono sample producers.
//!
//! These implement [`MonoSource`] inside the crate: a finite buffer playback
//! and an endless square wave.  External producers (decoders, synthesizers)
//! implement the same trait outside the crate.

use vstd::prelude::*;

use crate::bstream::MonoSource;
use crate::fixed;

verus! {

/// Plays a finite buffer of Q16.16 samples once, then reports exhaustion.
pub struct BufferSource {
    /// The samples to play.
    pub samples: Vec<i64>,
    /// The next sample to hand out.
    pub cursor: usize,
}

impl BufferSource {
    /// Wrap a sample buffer, positioned at its start.
    pub fn new(samples: Vec<i64>) -> (r: BufferSource)
        ensures
            r.samples@ == samples@,
            r.cursor == 0,
    {
        BufferSource { samples, cursor: 0 }
    }
}

impl MonoSource for BufferSource {
    /// The next buffered sample in order, or `None` past the end.
    fn next_sample(&mut self) -> (r: Option<i64>)
        ensures
            final(self).samples@ == old(self).samples@,
            old(self).cursor < old(self).samples@.len() ==> {
                &&& r == Some(old(self).samples@[old(self).cursor as int])
                &&& final(self).cursor == old(self).cursor + 1
            },
            old(self).cursor >= old(self).samples@.len() ==> r is None && *final(self) == *old(
                self,
            ),
    {
        if self.cursor < self.samples.len() {
            let s = self.samples[self.cursor];
            self.cursor = self.cursor + 1;
            Some(s)
        } else {
            None
        }
    }
}

/// An endless square wave: `amplitude` for the first half of each period,
/// `-amplitude` for the second half.
pub struct SquareWave {
    /// The period in samples (at least 2).
    pub period: usize,
    /// The wave's amplitude, within full scale.
    pub amplitude: i64,
    /// The position inside the current period.
    pub phase: usize,
}

impl SquareWave {
    /// A square wave of the given period and amplitude; the period is
    /// raised to at least 2, the amplitude clamped to full scale.
    pub fn new(period: usize, amplitude: i64) -> (r: SquareWave)
        ensures
            r.period == if period < 2 {
                2int
            } else {
                period as int
            },
            r.amplitude == fixed::clamped(amplitude as int, -fixed::AMP_MAX as int, fixed::AMP_MAX as int),
            r.phase == 0,
    {
        SquareWave {
            period: if period < 2 {
                2
            } else {
                period
            },
            amplitude: fixed::clamp64(amplitude, -fixed::AMP_MAX, fixed::AMP_MAX),
            phase: 0,
        }
    }
}

/// The effective period of a square wave: the stored period raised to at
/// least two samples.
pub open spec fn square_period(w: SquareWave) -> int {
    if w.period < 2 {
        2
    } else {
        w.period as int
    }
}

/// The phase a square wave plays at, wrapped into its period.
pub open spec fn square_phase(w: SquareWave) -> int {
    if w.phase < square_period(w) {
        w.phase as int
    } else {
        0
    }
}

/// The sample a square wave yields at its current phase: plus the clamped
/// amplitude through the first half of the period, minus it through the
/// second.
pub open spec fn square_sample(w: SquareWave) -> int {
    let amp = fixed::clamped(w.amplitude as int, -fixed::AMP_MAX as int, fixed::AMP_MAX as int);
    if square_phase(w) < square_period(w) / 2 {
        amp
    } else {
        -amp
    }
}

impl MonoSource for SquareWave {
    /// The next square-wave sample; never exhausted.
    fn next_sample(&mut self) -> (r: Option<i64>)
        ensures
            r == Some(square_sample(*old(self)) as i64),
            final(self).period == old(self).period,
            final(self).amplitude == old(self).amplitude,
            final(self).phase == if square_phase(*old(self)) + 1 < square_period(*old(self)) {
                square_phase(*old(self)) + 1
            } else {
                0
            },
    {
        let period = if self.period < 2 {
            2
        } else {
            self.period
        };
        let phase = if self.phase < period {
            self.phase
        } else {
            0
        };
        let amp = fixed::clamp64(self.amplitude, -fixed::AMP_MAX, fixed::AMP_MAX);
        let v = if phase < period / 2 {
            amp
        } else {
            -amp
        };
        self.phase = if phase + 1 < period {
            phase + 1
        } else {
            0
        };
        Some(v)
    }
}

} // verus!
