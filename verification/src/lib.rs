//! Compose 3D audio scenes.
//!
//! The crate positions mono sound sources in 3D space around a virtual
//! listener, encodes each of them into a first-order ambisonic *B-format*
//! field, mixes all active sources into one field stream, and decodes that
//! stream for stereo speakers, headphones (HRTF convolution) or an arbitrary
//! speaker array.
//!
//! All signal processing is carried out in Q16.16 fixed-point arithmetic, so
//! that the encoding, mixing and decoding laws can be stated and checked
//! exactly.

use vstd::prelude::*;

pub mod bformat;
pub mod bmixer;
pub mod bstream;
pub mod fixed;
pub mod renderer;
pub mod sources;

use renderer::{HrtfConfig, MultiSpeakerConfig, StereoConfig};

verus! {

/// Configure playback parameters
pub enum PlaybackConfiguration {
    /// Stereo playback
    Stereo(StereoConfig),
    /// Headphone playback using head related transfer functions
    Hrtf(HrtfConfig),
    /// Playback over an arbitrary speaker array
    MultiSpeaker(MultiSpeakerConfig),
}

impl Default for PlaybackConfiguration {
    /// The default playback configuration is stereo with the default width.
    fn default() -> (r: Self)
        ensures
            r matches PlaybackConfiguration::Stereo(cfg) && cfg.width == fixed::ONE,
    {
        PlaybackConfiguration::Stereo(StereoConfig::default())
    }
}

impl From<StereoConfig> for PlaybackConfiguration {
    fn from(cfg: StereoConfig) -> (r: Self) {
        PlaybackConfiguration::Stereo(cfg)
    }
}

impl vstd::std_specs::convert::FromSpecImpl<StereoConfig> for PlaybackConfiguration {
    open spec fn obeys_from_spec() -> bool {
        true
    }

    open spec fn from_spec(cfg: StereoConfig) -> Self {
        PlaybackConfiguration::Stereo(cfg)
    }
}

impl From<HrtfConfig> for PlaybackConfiguration {
    fn from(cfg: HrtfConfig) -> (r: Self) {
        PlaybackConfiguration::Hrtf(cfg)
    }
}

impl vstd::std_specs::convert::FromSpecImpl<HrtfConfig> for PlaybackConfiguration {
    open spec fn obeys_from_spec() -> bool {
        true
    }

    open spec fn from_spec(cfg: HrtfConfig) -> Self {
        PlaybackConfiguration::Hrtf(cfg)
    }
}

} // verus!
