//! Renderer tests: stereo imaging, speaker arrays, HRTF convolution, and
//! the end-to-end sweep scenario.

use ambisonic::bformat::{Bformat, Vec3};
use ambisonic::bmixer::{BstreamMixer, SoundCommand};
use ambisonic::bstream::BstreamConfig;
use ambisonic::renderer::{
    BstreamHrtfRenderer, BstreamMultiSpeakerRenderer, BstreamStereoRenderer, HrtfConfig,
    MultiSpeakerConfig, RendererError, StereoConfig,
};
use ambisonic::sources::{BufferSource, SquareWave};

const ONE: i64 = 65536;

#[test]
fn stereo_front_source_is_centered() {
    let mut mixer: BstreamMixer<BufferSource> = BstreamMixer::new(48000);
    mixer.play(
        BufferSource::new(vec![ONE; 4]),
        BstreamConfig::new().with_position(Vec3 { x: ONE, y: 0, z: 0 }),
    );
    let mut renderer = BstreamStereoRenderer::new(mixer, StereoConfig::default());
    // Skip the first (silent) pair.
    renderer.next_output();
    renderer.next_output();
    let left = renderer.next_output();
    let right = renderer.next_output();
    assert_eq!(left, right);
    assert!(left > 0);
}

#[test]
fn stereo_left_source_is_louder_on_the_left() {
    let mut mixer: BstreamMixer<BufferSource> = BstreamMixer::new(48000);
    mixer.play(
        BufferSource::new(vec![ONE; 4]),
        BstreamConfig::new().with_position(Vec3 { x: 0, y: ONE, z: 0 }),
    );
    let mut renderer = BstreamStereoRenderer::new(mixer, StereoConfig::default());
    renderer.next_output();
    renderer.next_output();
    let left = renderer.next_output();
    let right = renderer.next_output();
    assert!(left > right, "left={} right={}", left, right);
}

#[test]
fn empty_speaker_list_is_a_construction_error() {
    let mixer: BstreamMixer<BufferSource> = BstreamMixer::new(48000);
    let cfg = MultiSpeakerConfig { directions: vec![] };
    match BstreamMultiSpeakerRenderer::new(mixer, &cfg) {
        Err(e) => assert_eq!(e, RendererError::EmptySpeakerList),
        Ok(_) => panic!("an empty speaker list must be rejected"),
    }
}

#[test]
fn oversized_speaker_list_is_a_construction_error() {
    let mixer: BstreamMixer<BufferSource> = BstreamMixer::new(48000);
    let cfg = MultiSpeakerConfig { directions: vec![Vec3 { x: ONE, y: 0, z: 0 }; 65537] };
    match BstreamMultiSpeakerRenderer::new(mixer, &cfg) {
        Err(e) => assert_eq!(e, RendererError::TooManySpeakers),
        Ok(_) => panic!("an oversized speaker list must be rejected"),
    }
}

#[test]
fn playback_configuration_defaults_to_stereo() {
    let cfg = ambisonic::PlaybackConfiguration::default();
    match cfg {
        ambisonic::PlaybackConfiguration::Stereo(s) => assert_eq!(s.width, ONE),
        _ => panic!("the default playback configuration is stereo"),
    }
    let from_stereo = ambisonic::PlaybackConfiguration::from(StereoConfig { width: ONE / 2 });
    match from_stereo {
        ambisonic::PlaybackConfiguration::Stereo(s) => assert_eq!(s.width, ONE / 2),
        _ => panic!("a stereo config converts to the stereo variant"),
    }
    let from_hrtf = ambisonic::PlaybackConfiguration::from(HrtfConfig {
        directions: vec![Vec3 { x: ONE, y: 0, z: 0 }],
        left_irs: vec![vec![ONE]],
        right_irs: vec![vec![ONE]],
    });
    assert!(matches!(from_hrtf, ambisonic::PlaybackConfiguration::Hrtf(_)));
}

#[test]
fn symmetric_speakers_get_equal_energy_from_a_centered_field() {
    let mixer: BstreamMixer<BufferSource> = BstreamMixer::new(48000);
    let cfg = MultiSpeakerConfig {
        directions: vec![
            Vec3 { x: ONE, y: 0, z: 0 },
            Vec3 { x: -ONE, y: 0, z: 0 },
            Vec3 { x: 0, y: ONE, z: 0 },
            Vec3 { x: 0, y: -ONE, z: 0 },
        ],
    };
    let mut rd = BstreamMultiSpeakerRenderer::new(mixer, &cfg).unwrap();
    assert_eq!(rd.channels(), 4);
    // A field frame with only omnidirectional pressure: every speaker of
    // the symmetric array receives exactly the same sample.
    rd.frame = Bformat { w: ONE, x: 0, y: 0, z: 0 };
    rd.cursor = 1;
    let s1 = rd.next_output();
    let s2 = rd.next_output();
    let s3 = rd.next_output();
    assert_eq!(s1, s2);
    assert_eq!(s2, s3);
    let s0 = rd.rows[0].decode(&Bformat { w: ONE, x: 0, y: 0, z: 0 });
    assert_eq!(s0, s1);
    assert!(s1 > 0);
}

#[test]
fn hrtf_rejects_malformed_tables() {
    let dirs = vec![Vec3 { x: ONE, y: 0, z: 0 }];
    let mixer: BstreamMixer<BufferSource> = BstreamMixer::new(48000);
    let cfg = HrtfConfig {
        directions: dirs.clone(),
        left_irs: vec![vec![ONE], vec![ONE]],
        right_irs: vec![vec![ONE]],
    };
    match BstreamHrtfRenderer::new(mixer, cfg) {
        Err(e) => assert_eq!(e, RendererError::MalformedHrtfTable),
        Ok(_) => panic!("a table with mismatched lists must be rejected"),
    }

    let mixer: BstreamMixer<BufferSource> = BstreamMixer::new(48000);
    let cfg = HrtfConfig {
        directions: dirs.clone(),
        left_irs: vec![vec![]],
        right_irs: vec![vec![]],
    };
    match BstreamHrtfRenderer::new(mixer, cfg) {
        Err(e) => assert_eq!(e, RendererError::MalformedHrtfTable),
        Ok(_) => panic!("an empty impulse response must be rejected"),
    }

    let mixer: BstreamMixer<BufferSource> = BstreamMixer::new(48000);
    let cfg = HrtfConfig {
        directions: vec![],
        left_irs: vec![],
        right_irs: vec![],
    };
    match BstreamHrtfRenderer::new(mixer, cfg) {
        Err(e) => assert_eq!(e, RendererError::EmptySpeakerList),
        Ok(_) => panic!("an empty direction list must be rejected"),
    }
}

#[test]
fn hrtf_identity_impulse_passes_the_virtual_speaker_feed() {
    let mut mixer: BstreamMixer<BufferSource> = BstreamMixer::new(48000);
    mixer.play(
        BufferSource::new(vec![ONE; 4]),
        BstreamConfig::new().with_position(Vec3 { x: ONE, y: 0, z: 0 }),
    );
    let cfg = HrtfConfig {
        directions: vec![Vec3 { x: ONE, y: 0, z: 0 }],
        // Left ear hears the feed unchanged, the right ear at half gain.
        left_irs: vec![vec![ONE]],
        right_irs: vec![vec![ONE / 2]],
    };
    let mut rd = BstreamHrtfRenderer::new(mixer, cfg).unwrap();
    // First pair comes from the silent interpolation window.
    assert_eq!(rd.next_output(), 0);
    assert_eq!(rd.next_output(), 0);
    let left = rd.next_output();
    let right = rd.next_output();
    // The virtual speaker feed of the second frame, computed by the same
    // public decode the renderer uses.
    let feed = rd.rows[0].decode(&Bformat { w: 46341, x: ONE, y: 0, z: 0 });
    assert!(feed > 0);
    assert_eq!(left, feed);
    assert_eq!(right, feed / 2);
}

#[test]
fn hrtf_convolution_spreads_an_impulse_over_time() {
    let mut mixer: BstreamMixer<BufferSource> = BstreamMixer::new(48000);
    mixer.play(
        BufferSource::new(vec![ONE, 0, 0, 0]),
        BstreamConfig::new().with_position(Vec3 { x: ONE, y: 0, z: 0 }),
    );
    let cfg = HrtfConfig {
        directions: vec![Vec3 { x: ONE, y: 0, z: 0 }],
        // A two-tap echo: full now, half one tick later.
        left_irs: vec![vec![ONE, ONE / 2]],
        right_irs: vec![vec![ONE, ONE / 2]],
    };
    let mut rd = BstreamHrtfRenderer::new(mixer, cfg).unwrap();
    let mut lefts = vec![];
    for _ in 0..4 {
        lefts.push(rd.next_output());
        rd.next_output();
    }
    // The single-sample impulse rings for one extra tick through the
    // second tap, at half its level.
    assert_eq!(lefts[0], 0);
    assert!(lefts[1] > 0);
    assert_eq!(lefts[2], lefts[1] / 2);
    assert_eq!(lefts[3], 0);
}

fn stereo_pair(r: &mut BstreamStereoRenderer<SquareWave>) -> (i64, i64) {
    let left = r.next_output();
    let right = r.next_output();
    (left, right)
}

fn count_sign_changes(samples: &[i64]) -> usize {
    let mut count = 0;
    let mut last = 0i64;
    for &s in samples {
        if s != 0 {
            if last != 0 && (s > 0) != (last > 0) {
                count += 1;
            }
            last = s;
        }
    }
    count
}

#[test]
fn sweep_raises_left_energy_and_doppler_shifts_the_pitch() {
    // One square-wave source at (50, 1, 0), swept linearly toward
    // (0, 1, 0) with velocity (-10, 0, 0) set once.
    let mut mixer: BstreamMixer<SquareWave> = BstreamMixer::new(48000);
    let id = mixer.play(
        SquareWave::new(109, ONE),
        BstreamConfig::new().with_position(Vec3 { x: 50 * ONE, y: ONE, z: 0 }),
    );
    let mut renderer = BstreamStereoRenderer::new(mixer, StereoConfig::default());

    renderer.input.apply(SoundCommand::SetVelocity {
        id,
        velocity: Vec3 { x: -10 * ONE, y: 0, z: 0 },
    });
    let mut first_window = 0i64;
    let mut last_window = 0i64;
    let mut sweep = vec![];
    for t in 0..20000 {
        let (l, r) = stereo_pair(&mut renderer);
        if t < 1000 {
            first_window += (l - r).abs();
        }
        if t >= 19000 {
            last_window += (l - r).abs();
        }
        sweep.push(l);
        renderer.input.apply(SoundCommand::AdjustPosition {
            id,
            delta: Vec3 { x: -164, y: 0, z: 0 },
        });
    }
    // Left-minus-right energy grows as the source sweeps to the left side
    // and closes in.
    assert!(
        last_window > 4 * first_window,
        "first={} last={}",
        first_window,
        last_window
    );

    // Reset the velocity: the playback rate returns to exactly 1.0.
    renderer.input.apply(SoundCommand::SetVelocity { id, velocity: Vec3 { x: 0, y: 0, z: 0 } });
    let mut nominal = vec![];
    for _ in 0..20000 {
        let (l, _) = stereo_pair(&mut renderer);
        nominal.push(l);
    }
    // Pitch while approaching: the square wave's sign flips came faster
    // than at the true period.
    let c_sweep = count_sign_changes(&sweep);
    let c_nominal = count_sign_changes(&nominal);
    assert!(
        c_sweep >= c_nominal + 5,
        "sweep={} nominal={}",
        c_sweep,
        c_nominal
    );
    // At rate exactly 1.0 the wave plays at its true period of 109
    // samples: two sign changes per period.
    let expected = 2 * 20000 / 109;
    assert!(
        (c_nominal as i64 - expected as i64).abs() <= 3,
        "nominal={} expected={}",
        c_nominal,
        expected
    );
}
