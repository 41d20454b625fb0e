use vad::SampleRate;
use vad::Vad;
use vad::VadMode;

/// A 200 Hz tone frame at 8 kHz, `len` samples starting at sample `t0`.
fn tone_frame(t0: usize, len: usize, amplitude: f64) -> Vec<i16> {
    let mut out = Vec::with_capacity(len);
    for i in 0..len {
        let t = (t0 + i) as f64 / 8000.0;
        let s = amplitude * (2.0 * std::f64::consts::PI * 200.0 * t).sin();
        out.push(s as i16);
    }
    out
}

/// Deterministic pseudo-random noise samples with the given peak.
fn noise_frame(seed: &mut u32, len: usize, peak: i32) -> Vec<i16> {
    let mut out = Vec::with_capacity(len);
    for _ in 0..len {
        *seed = seed.wrapping_mul(1664525).wrapping_add(1013904223);
        let v = ((*seed >> 16) as i32 % (2 * peak + 1)) - peak;
        out.push(v as i16);
    }
    out
}

#[test]
fn set_sample_rate() {
    let mut vad = Vad::new();
    assert_eq!(
        vad.set_sample_rate(SampleRate::try_from(8000i32).unwrap()),
        ()
    );
    assert_eq!(vad.set_sample_rate(SampleRate::Rate8kHz), ());
}

#[test]
fn is_voice_segment() {
    let mut vad = Vad::new();

    let buffer = std::iter::repeat(0).take(160).collect::<Vec<i16>>();
    assert_eq!(vad.is_voice_segment(buffer.as_slice()), Ok(false));
}

#[test]
fn set_mode() {
    let mut vad = Vad::new();
    assert_eq!(vad.set_mode(VadMode::Quality), ());
}

#[test]
fn silence_never_speech_all_rates_and_durations() {
    let rates = [
        (SampleRate::Rate8kHz, 1usize),
        (SampleRate::Rate16kHz, 2),
        (SampleRate::Rate32kHz, 4),
        (SampleRate::Rate48kHz, 6),
    ];
    for (rate, ratio) in rates {
        for base in [80usize, 160, 240] {
            let mut vad = Vad::new();
            vad.reset();
            vad.set_sample_rate(rate);
            let buffer = vec![0i16; base * ratio];
            assert_eq!(vad.is_voice_segment(&buffer), Ok(false));
        }
    }
}

#[test]
fn invalid_rate_rejected_and_state_untouched() {
    for bad in [0i32, -8000, 7999, 8001, 44100, 96000] {
        assert!(SampleRate::try_from(bad).is_err());
    }
    // A failed conversion leaves the session as if it never happened.
    let mut touched = Vad::new();
    assert!(SampleRate::try_from(44100).is_err());
    let mut untouched = Vad::new();
    let frame = tone_frame(0, 160, 9000.0);
    assert_eq!(
        touched.is_voice_segment(&frame),
        untouched.is_voice_segment(&frame)
    );
}

#[test]
fn invalid_frame_length_rejected_without_mutation() {
    let mut vad = Vad::new();
    let mut control = Vad::new();
    let mut seed = 7u32;
    let frame = noise_frame(&mut seed, 160, 3000);
    // Warm both sessions identically.
    for _ in 0..5 {
        assert_eq!(vad.is_voice_segment(&frame), control.is_voice_segment(&frame));
    }
    // Every length that is not 10/20/30 ms at 8 kHz fails...
    for bad in [0usize, 1, 79, 81, 159, 161, 239, 241, 320, 480] {
        let buffer = vec![0i16; bad];
        assert_eq!(vad.is_voice_segment(&buffer), Err(()));
    }
    // ...and two identical subsequent valid calls decide as if the invalid
    // calls never happened.
    let frame2 = tone_frame(0, 160, 8000.0);
    assert_eq!(vad.is_voice_segment(&frame2), control.is_voice_segment(&frame2));
    assert_eq!(vad.is_voice_segment(&frame2), control.is_voice_segment(&frame2));
}

#[test]
fn reset_is_idempotent() {
    let mut once = Vad::new_with_rate_and_mode(SampleRate::Rate48kHz, VadMode::Aggressive);
    let mut twice = Vad::new_with_rate_and_mode(SampleRate::Rate48kHz, VadMode::Aggressive);
    // Disturb both with some frames, then reset.
    let mut seed = 3u32;
    let frame = noise_frame(&mut seed, 960, 5000);
    let _ = once.is_voice_segment(&frame);
    let _ = twice.is_voice_segment(&frame);
    once.reset();
    twice.reset();
    twice.reset();
    assert_eq!(once.frame_count, twice.frame_count);
    assert_eq!(once.rhist, twice.rhist);
    // Equal behavior afterwards on the same input stream.
    let mut seed_a = 11u32;
    let mut seed_b = 11u32;
    for _ in 0..10 {
        let fa = noise_frame(&mut seed_a, 160, 6000);
        let fb = noise_frame(&mut seed_b, 160, 6000);
        assert_eq!(once.is_voice_segment(&fa), twice.is_voice_segment(&fb));
    }
}

#[test]
fn speech_count_non_increasing_across_modes() {
    let modes = [
        VadMode::Quality,
        VadMode::LowBitrate,
        VadMode::Aggressive,
        VadMode::VeryAggressive,
    ];
    let mut counts = Vec::new();
    for mode in modes {
        let mut vad = Vad::new_with_mode(mode);
        let mut seed = 99u32;
        let mut count = 0usize;
        for frame_idx in 0..300 {
            // A noisy corpus: quiet noise with tone bursts mixed in.
            let frame = if (frame_idx / 25) % 2 == 0 {
                noise_frame(&mut seed, 160, 800)
            } else {
                let tone = tone_frame(frame_idx * 160, 160, 9000.0);
                let noise = noise_frame(&mut seed, 160, 800);
                tone.iter()
                    .zip(noise.iter())
                    .map(|(a, b)| (*a as i32 + *b as i32).clamp(-32768, 32767) as i16)
                    .collect()
            };
            if vad.is_voice_segment(&frame) == Ok(true) {
                count += 1;
            }
        }
        counts.push(count);
    }
    for w in counts.windows(2) {
        assert!(w[0] >= w[1], "speech counts must not increase with mode: {:?}", counts);
    }
}

#[test]
fn tone_and_silence_discrimination() {
    // 30 seconds at 8 kHz in 20 ms frames: 1500 frames, alternating half a
    // second of silence with half a second of a clean 200 Hz tone.
    let mut vad = Vad::new();
    let mut tone_true = 0usize;
    let mut tone_total = 0usize;
    let mut silence_true = 0usize;
    let mut silence_total = 0usize;
    for frame_idx in 0..1500usize {
        let in_tone = (frame_idx / 25) % 2 == 1;
        let frame = if in_tone {
            tone_frame(frame_idx * 160, 160, 12000.0)
        } else {
            vec![0i16; 160]
        };
        let speech = vad.is_voice_segment(&frame).unwrap();
        if in_tone {
            tone_total += 1;
            if speech {
                tone_true += 1;
            }
        } else {
            silence_total += 1;
            if speech {
                silence_true += 1;
            }
        }
    }
    assert!(
        tone_true * 100 > tone_total * 80,
        "tone frames classified as speech: {}/{}",
        tone_true,
        tone_total
    );
    assert!(
        silence_true * 100 < silence_total * 20,
        "silence frames classified as speech: {}/{}",
        silence_true,
        silence_total
    );
}

#[test]
fn zero_decision_agrees_across_rates() {
    // An all-zero 48 kHz frame and an all-zero 8 kHz frame of the same
    // duration give the same decision from the same starting state.
    let mut vad48 = Vad::new_with_rate(SampleRate::Rate48kHz);
    let mut vad8 = Vad::new_with_rate(SampleRate::Rate8kHz);
    let d48 = vad48.is_voice_segment(&vec![0i16; 960]);
    let d8 = vad8.is_voice_segment(&vec![0i16; 160]);
    assert_eq!(d48, d8);
    assert_eq!(d48, Ok(false));
}

#[test]
fn try_from_accepts_all_supported_rates() {
    assert!(matches!(
        SampleRate::try_from(8000),
        Ok(SampleRate::Rate8kHz)
    ));
    assert!(matches!(
        SampleRate::try_from(16000),
        Ok(SampleRate::Rate16kHz)
    ));
    assert!(matches!(
        SampleRate::try_from(32000),
        Ok(SampleRate::Rate32kHz)
    ));
    assert!(matches!(
        SampleRate::try_from(48000),
        Ok(SampleRate::Rate48kHz)
    ));
}

#[test]
fn default_session_matches_new() {
    let mut a = Vad::default();
    let mut b = Vad::new();
    let frame = tone_frame(0, 240, 10000.0);
    assert_eq!(a.is_voice_segment(&frame), b.is_voice_segment(&frame));
    assert_eq!(a.frame_count, 1);
    assert_eq!(b.frame_count, 1);
}
