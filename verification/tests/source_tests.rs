use sonora::source::{
    classify_decode_failure, classify_packet_error, plan_seek, skip_after_seek, DecodeFailure,
    DecodeStep, FetchStep, PacketFetchError, PullStep, SeekOutcome, SeekPlan, SourceState,
};
use sonora::timing::TimeBase;

#[test]
fn new_source_defaults() {
    let s = SourceState::new(3, 500);
    assert_eq!(s.track_id, 3);
    assert_eq!(s.sample_rate, 44100);
    assert_eq!(s.channels, 2);
    assert_eq!(s.buf_len, 0);
    assert_eq!(s.pos, 0);
    assert_eq!(s.skip_ms, 500);
    assert!(!s.skip_initialized);
    assert!(!s.ended);
}

#[test]
fn pull_asks_for_refill_then_yields_then_ends() {
    let mut s = SourceState::new(1, 0);
    assert_eq!(s.pull(), PullStep::Refill);
    s.buffer_filled(48000, 2, 4);
    assert_eq!(s.pull(), PullStep::Yield(0));
    assert_eq!(s.pull(), PullStep::Yield(1));
    assert_eq!(s.pull(), PullStep::Yield(2));
    assert_eq!(s.pull(), PullStep::Yield(3));
    assert_eq!(s.pull(), PullStep::Refill);
    s.end_of_stream();
    assert_eq!(s.pull(), PullStep::End);
    assert_eq!(s.pull(), PullStep::End);
}

#[test]
fn skip_converts_once_at_first_buffer() {
    // 1000 ms at 44100 Hz stereo: 44100 frames, 88200 samples.
    let mut s = SourceState::new(1, 1000);
    s.buffer_filled(44100, 2, 100000);
    assert!(s.skip_initialized);
    assert_eq!(s.pos, 88200);
    assert_eq!(s.skip_samples_remaining, 0);
    assert_eq!(s.pull(), PullStep::Yield(88200));
}

#[test]
fn skip_spans_multiple_buffers() {
    let mut s = SourceState::new(1, 1000);
    // First buffer is smaller than the skip: consumed whole.
    s.buffer_filled(44100, 2, 60000);
    assert_eq!(s.pos, 60000);
    assert_eq!(s.skip_samples_remaining, 28200);
    assert_eq!(s.pull(), PullStep::Refill);
    // The rest of the skip comes out of the second buffer.
    s.buffer_filled(44100, 2, 60000);
    assert_eq!(s.pos, 28200);
    assert_eq!(s.skip_samples_remaining, 0);
    assert_eq!(s.pull(), PullStep::Yield(28200));
}

#[test]
fn zero_skip_starts_at_the_front() {
    let mut s = SourceState::new(1, 0);
    s.buffer_filled(44100, 2, 1000);
    assert_eq!(s.pos, 0);
    assert!(s.skip_initialized);
    assert_eq!(s.skip_samples_remaining, 0);
}

#[test]
fn skip_to_end_of_stream_yields_nothing() {
    // A skip far past the track: every buffer is consumed whole, then
    // the stream ends; no sample is ever yielded.
    let mut s = SourceState::new(1, 60000);
    for _ in 0..3 {
        assert_eq!(s.pull(), PullStep::Refill);
        s.buffer_filled(44100, 2, 5000);
        assert_eq!(s.pos, 5000);
        assert_eq!(s.pull(), PullStep::Refill);
    }
    s.end_of_stream();
    assert_eq!(s.pull(), PullStep::End);
}

#[test]
fn packet_filter_matches_track() {
    let s = SourceState::new(7, 0);
    assert!(s.packet_wanted(7));
    assert!(!s.packet_wanted(8));
}

#[test]
fn seek_plans() {
    let tb = TimeBase { numer: 1, denom: 1000 };
    assert_eq!(plan_seek(0, Some(tb)), SeekPlan::FromStart);
    assert_eq!(plan_seek(0, None), SeekPlan::FromStart);
    assert_eq!(plan_seek(7000, Some(tb)), SeekPlan::ByTimestamp(7000));
    // No time base: no seek is planned; the whole request is owed as
    // decode-skip.
    assert_eq!(plan_seek(7000, None), SeekPlan::SkipAll(7000));
}

#[test]
fn seek_outcome_to_skip() {
    // Coarse seek landing short: skip the undershoot.
    assert_eq!(skip_after_seek(7000, SeekOutcome::Landed(6500)), 500);
    // Landing exactly on target: nothing to skip.
    assert_eq!(skip_after_seek(7000, SeekOutcome::Landed(7000)), 0);
    // Landing past the target: never skip backwards.
    assert_eq!(skip_after_seek(7000, SeekOutcome::Landed(8000)), 0);
    // Seek failed: decode-skip the whole request from the start.
    assert_eq!(skip_after_seek(7000, SeekOutcome::Failed), 7000);
}

#[test]
fn packet_error_classification() {
    assert_eq!(classify_packet_error(PacketFetchError::Io), FetchStep::EndOfStream);
    assert_eq!(classify_packet_error(PacketFetchError::ResetRequired), FetchStep::ResetDecoder);
    assert_eq!(classify_packet_error(PacketFetchError::Other), FetchStep::Fail);
}

#[test]
fn decode_failure_classification() {
    assert_eq!(classify_decode_failure(DecodeFailure::Io), DecodeStep::EndOfStream);
    assert_eq!(classify_decode_failure(DecodeFailure::Corrupt), DecodeStep::SkipPacket);
    assert_eq!(classify_decode_failure(DecodeFailure::ResetRequired), DecodeStep::ResetDecoder);
    assert_eq!(classify_decode_failure(DecodeFailure::Other), DecodeStep::Fail);
}

#[test]
fn no_time_base_seek_skips_the_whole_request() {
    // Without a time base nothing can say where a seek landed, so the
    // source owes the entire request as decode-skip from the start.
    let ms = match plan_seek(1000, None) {
        SeekPlan::SkipAll(ms) => ms,
        other => panic!("expected a skip-only plan, got {:?}", other),
    };
    assert_eq!(ms, 1000);
    let mut s = SourceState::new(1, ms);
    // The first second of audio is discarded, not replayed.
    s.buffer_filled(44100, 2, 88200);
    assert_eq!(s.pos, 88200);
    assert_eq!(s.pull(), PullStep::Refill);
    // The next buffer starts exactly at the requested offset.
    s.buffer_filled(44100, 2, 100);
    assert_eq!(s.pull(), PullStep::Yield(0));
}
