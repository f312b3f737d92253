use sonora::timing::{duration_from_params, ms_to_ticks, skip_samples, ticks_to_ms, TimeBase};

#[test]
fn ticks_to_ms_exact() {
    // One tick per sample at 44100 Hz: 441000 ticks are 10 seconds.
    let tb = TimeBase { numer: 1, denom: 44100 };
    assert_eq!(ticks_to_ms(&tb, 441000), 10000);
    // Millisecond ticks map one to one.
    let ms_tb = TimeBase { numer: 1, denom: 1000 };
    assert_eq!(ticks_to_ms(&ms_tb, 5000), 5000);
    // Rounds down: 441 ticks at 44100 Hz are 10.0 ms, 440 are 9.97...
    assert_eq!(ticks_to_ms(&tb, 441), 10);
    assert_eq!(ticks_to_ms(&tb, 440), 9);
    assert_eq!(ticks_to_ms(&tb, 0), 0);
}

#[test]
fn ticks_to_ms_caps_at_u64_max() {
    let tb = TimeBase { numer: u32::MAX, denom: 1 };
    assert_eq!(ticks_to_ms(&tb, u64::MAX), u64::MAX);
}

#[test]
fn ms_to_ticks_exact() {
    let tb = TimeBase { numer: 1, denom: 44100 };
    assert_eq!(ms_to_ticks(&tb, 1000), 44100);
    assert_eq!(ms_to_ticks(&tb, 7000), 308700);
    // Rounds down on fractional ticks.
    let coarse = TimeBase { numer: 1, denom: 3 };
    assert_eq!(ms_to_ticks(&coarse, 500), 1);
    assert_eq!(ms_to_ticks(&coarse, 0), 0);
}

#[test]
fn round_trip_lands_at_or_before_request() {
    let tb = TimeBase { numer: 1, denom: 75 };
    for ms in [0u64, 1, 13, 999, 1000, 7000, 123456] {
        let ts = ms_to_ticks(&tb, ms);
        let back = ticks_to_ms(&tb, ts);
        assert!(back <= ms);
        // Within one tick (1/75 s = 13.3... ms) of the request.
        assert!(ms - back <= 14);
    }
}

#[test]
fn duration_needs_both_parameters() {
    let tb = TimeBase { numer: 1, denom: 44100 };
    assert_eq!(duration_from_params(Some(tb), Some(441000)), Some(10000));
    assert_eq!(duration_from_params(Some(tb), None), None);
    assert_eq!(duration_from_params(None, Some(441000)), None);
    assert_eq!(duration_from_params(None, None), None);
}

#[test]
fn skip_samples_exact() {
    // Whole second at 44100 Hz stereo.
    assert_eq!(skip_samples(1000, 44100, 2), 88200);
    // 1 ms is 44.1 frames: rounded up to 45, times 2 channels.
    assert_eq!(skip_samples(1, 44100, 2), 90);
    // Mono keeps the frame count.
    assert_eq!(skip_samples(1, 44100, 1), 45);
    assert_eq!(skip_samples(0, 44100, 2), 0);
}

#[test]
fn skip_samples_caps_at_u64_max() {
    assert_eq!(skip_samples(u64::MAX, u32::MAX, u16::MAX), u64::MAX);
}
