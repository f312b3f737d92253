//! Integer timing arithmetic for the playback core.
//!
//! A container reports time as timestamp ticks against a rational time
//! base (`numer / denom` seconds per tick). Everything here is exact
//! integer arithmetic, widened to `u128` so no intermediate product can
//! overflow; results that would not fit in `u64` are capped at
//! `u64::MAX`.

use vstd::prelude::*;

verus! {

/// A container time base: one timestamp tick lasts `numer / denom`
/// seconds.
#[derive(Debug, Clone, Copy, PartialEq, Eq, Structural)]
pub struct TimeBase {
    pub numer: u32,
    pub denom: u32,
}

impl TimeBase {
    /// A usable time base has a positive numerator and denominator.
    pub open spec fn wf(self) -> bool {
        self.numer >= 1 && self.denom >= 1
    }
}

/// Cap an exact value at the largest `u64`.
pub open spec fn cap_u64(v: int) -> int {
    if v > u64::MAX {
        u64::MAX as int
    } else {
        v
    }
}

/// Milliseconds spanned by `ts` ticks of time base `numer / denom`,
/// rounded down, capped at `u64::MAX`.
pub open spec fn ticks_to_ms_spec(numer: int, denom: int, ts: int) -> int
    recommends
        numer >= 1,
        denom >= 1,
        ts >= 0,
{
    cap_u64(ts * numer * 1000 / denom)
}

/// Timestamp ticks covering `ms` milliseconds of time base
/// `numer / denom`, rounded down, capped at `u64::MAX`.
pub open spec fn ms_to_ticks_spec(numer: int, denom: int, ms: int) -> int
    recommends
        numer >= 1,
        denom >= 1,
        ms >= 0,
{
    cap_u64(ms * denom / (numer * 1000))
}

/// Interleaved samples covering `skip_ms` milliseconds at `rate` frames
/// per second with `ch` channels: whole frames rounded up, times the
/// channel count, capped at `u64::MAX`.
pub open spec fn skip_samples_spec(skip_ms: int, rate: int, ch: int) -> int
    recommends
        skip_ms >= 0,
        rate >= 1,
        ch >= 1,
{
    cap_u64(((skip_ms * rate + 999) / 1000) * ch)
}

/// The skip conversion rounds up to whole frames: where the cap does
/// not bite, the skipped frames cover at least `skip_ms` milliseconds of
/// audio at `rate` frames per second, and overshoot by less than one
/// frame.
pub proof fn lemma_skip_covers_request(skip_ms: int, rate: int, ch: int)
    requires
        0 <= skip_ms,
        1 <= rate,
        1 <= ch,
        ((skip_ms * rate + 999) / 1000) * ch <= u64::MAX,
    ensures
        ({
            let frames = (skip_ms * rate + 999) / 1000;
            &&& skip_samples_spec(skip_ms, rate, ch) == frames * ch
            &&& frames * 1000 >= skip_ms * rate
            &&& skip_ms > 0 ==> (frames - 1) * 1000 < skip_ms * rate
        }),
{
    let d = skip_ms * rate;
    let frames = (d + 999) / 1000;
    assert(skip_ms * rate >= 0) by (nonlinear_arith)
        requires
            skip_ms >= 0,
            rate >= 1,
    ;
    vstd::arithmetic::div_mod::lemma_fundamental_div_mod(d + 999, 1000);
    vstd::arithmetic::div_mod::lemma_mod_bound(d + 999, 1000);
    if skip_ms > 0 {
        assert(skip_ms * rate >= 1) by (nonlinear_arith)
            requires
                skip_ms >= 1,
                rate >= 1,
        ;
    }
}

/// Convert a container timestamp to milliseconds (rounded down).
pub fn ticks_to_ms(tb: &TimeBase, ts: u64) -> (r: u64)
    requires
        tb.wf(),
    ensures
        r == ticks_to_ms_spec(tb.numer as int, tb.denom as int, ts as int),
{
    assert((ts as int) * (tb.numer as int) <= (u64::MAX as int) * (u32::MAX as int))
        by (nonlinear_arith)
        requires
            0 <= ts <= u64::MAX,
            0 <= tb.numer <= u32::MAX,
    ;
    let wide: u128 = (ts as u128) * (tb.numer as u128) * 1000;
    let q: u128 = wide / (tb.denom as u128);
    if q > 0xffff_ffff_ffff_ffffu128 {
        u64::MAX
    } else {
        q as u64
    }
}

/// Convert a millisecond offset to a container timestamp (rounded down).
pub fn ms_to_ticks(tb: &TimeBase, ms: u64) -> (r: u64)
    requires
        tb.wf(),
    ensures
        r == ms_to_ticks_spec(tb.numer as int, tb.denom as int, ms as int),
{
    assert((ms as int) * (tb.denom as int) <= (u64::MAX as int) * (u32::MAX as int))
        by (nonlinear_arith)
        requires
            0 <= ms <= u64::MAX,
            0 <= tb.denom <= u32::MAX,
    ;
    let wide: u128 = (ms as u128) * (tb.denom as u128);
    let q: u128 = wide / ((tb.numer as u128) * 1000);
    if q > 0xffff_ffff_ffff_ffffu128 {
        u64::MAX
    } else {
        q as u64
    }
}

/// Total track duration in milliseconds, when the container reports both
/// a time base and a frame count; unknown otherwise.
pub fn duration_from_params(tb: Option<TimeBase>, n_frames: Option<u64>) -> (r: Option<u64>)
    requires
        tb matches Some(t) ==> t.wf(),
    ensures
        r is Some <==> (tb is Some && n_frames is Some),
        tb matches Some(t) ==> n_frames matches Some(f) ==> r == Some(
            ticks_to_ms_spec(t.numer as int, t.denom as int, f as int) as u64,
        ),
{
    match (tb, n_frames) {
        (Some(t), Some(f)) => Some(ticks_to_ms(&t, f)),
        _ => None,
    }
}

/// Interleaved samples to discard so that `skip_ms` milliseconds of
/// audio at `rate` frames per second and `ch` channels are consumed.
pub fn skip_samples(skip_ms: u64, rate: u32, ch: u16) -> (r: u64)
    requires
        rate >= 1,
        ch >= 1,
    ensures
        r == skip_samples_spec(skip_ms as int, rate as int, ch as int),
{
    assert((skip_ms as int) * (rate as int) <= (u64::MAX as int) * (u32::MAX as int))
        by (nonlinear_arith)
        requires
            0 <= skip_ms <= u64::MAX,
            0 <= rate <= u32::MAX,
    ;
    let frames: u128 = ((skip_ms as u128) * (rate as u128) + 999) / 1000;
    assert(frames * (ch as int) <= frames * 0x1_0000) by (nonlinear_arith)
        requires
            0 <= frames,
            0 <= ch <= 0xffff,
    ;
    let samples: u128 = frames * (ch as u128);
    if samples > 0xffff_ffff_ffff_ffffu128 {
        u64::MAX
    } else {
        samples as u64
    }
}

} // verus!
