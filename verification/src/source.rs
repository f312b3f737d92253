//! Streaming-source bookkeeping: the verified half of a pull-based
//! decoder front end.
//!
//! An unverified shell owns the demuxer, the codec and the decoded
//! sample buffer; this module owns every decision around them: which
//! packets belong to the track, how a coarse seek's imprecision turns
//! into a decode-skip, where the read cursor stands, when the stream has
//! ended, and how each backend failure is classified.

use vstd::prelude::*;

use crate::timing::TimeBase;
use crate::timing::ms_to_ticks;
use crate::timing::ms_to_ticks_spec;
use crate::timing::skip_samples;
use crate::timing::skip_samples_spec;

verus! {

/// How a source construction seeks before decoding.
#[derive(Debug, Clone, Copy, PartialEq, Eq, Structural)]
pub enum SeekPlan {
    /// Requested offset zero: decode from the start, no seek at all.
    FromStart,
    /// Ask the demuxer for a coarse seek to this timestamp.
    ByTimestamp(u64),
    /// No time base is known, so no demuxer seek can be trusted to land
    /// anywhere in particular: attempt none, and decode-skip this many
    /// milliseconds — the whole request — from the start of the stream.
    SkipAll(u64),
}

/// What the demuxer's timestamp seek reported back.
#[derive(Debug, Clone, Copy, PartialEq, Eq, Structural)]
pub enum SeekOutcome {
    /// The seek landed, at this many milliseconds.
    Landed(u64),
    /// The seek failed; everything up to the request is decode-skipped.
    Failed,
}

/// How fetching the next packet from the demuxer failed.
#[derive(Debug, Clone, Copy, PartialEq, Eq, Structural)]
pub enum PacketFetchError {
    /// The byte stream is exhausted.
    Io,
    /// The demuxer asks for the decoder to be reset.
    ResetRequired,
    /// Anything else.
    Other,
}

/// What the source does about a packet fetch failure.
#[derive(Debug, Clone, Copy, PartialEq, Eq, Structural)]
pub enum FetchStep {
    EndOfStream,
    ResetDecoder,
    Fail,
}

/// How decoding a fetched packet failed.
#[derive(Debug, Clone, Copy, PartialEq, Eq, Structural)]
pub enum DecodeFailure {
    /// The byte stream is exhausted.
    Io,
    /// The packet is corrupt or undecodable.
    Corrupt,
    /// The codec asks to be reset.
    ResetRequired,
    /// Anything else.
    Other,
}

/// What the source does about a decode failure.
#[derive(Debug, Clone, Copy, PartialEq, Eq, Structural)]
pub enum DecodeStep {
    EndOfStream,
    SkipPacket,
    ResetDecoder,
    Fail,
}

/// What the next pull of a sample requires.
#[derive(Debug, Clone, Copy, PartialEq, Eq, Structural)]
pub enum PullStep {
    /// Hand out the buffered sample at this index.
    Yield(usize),
    /// The buffer is drained and the stream has not ended: decode more.
    Refill,
    /// The stream has ended and the buffer is drained: no more samples.
    End,
}

/// The verified state of one streaming source.
///
/// The sample data itself lives outside; `buf_len` and `pos` describe
/// the current decoded buffer and the read cursor into it.
pub struct SourceState {
    /// The container track the source decodes.
    pub track_id: u32,
    /// Output sample rate; a default until the first decoded buffer.
    pub sample_rate: u32,
    /// Output channel count; a default until the first decoded buffer.
    pub channels: u16,
    /// Samples in the current decoded buffer.
    pub buf_len: usize,
    /// Read cursor into the current buffer.
    pub pos: usize,
    /// Milliseconds still to be discarded for an imprecise seek.
    pub skip_ms: u64,
    /// Samples still to be discarded, once the rate is known.
    pub skip_samples_remaining: u64,
    /// Whether `skip_ms` has been converted to a sample count.
    pub skip_initialized: bool,
    /// Whether the stream has reached its end.
    pub ended: bool,
}

impl SourceState {
    /// The cursor never passes the buffer, the output format is always
    /// usable, and no sample skip is pending before it is converted.
    pub open spec fn wf(self) -> bool {
        &&& self.pos <= self.buf_len
        &&& self.sample_rate >= 1
        &&& self.channels >= 1
        &&& !self.skip_initialized ==> self.skip_samples_remaining == 0
    }

    /// Samples that remain to be discarded if the next buffer reports
    /// `rate` and `ch`: the already-converted count once initialized,
    /// else the conversion of `skip_ms` at that format.
    pub open spec fn pending_skip(self, rate: int, ch: int) -> int {
        if self.skip_initialized {
            self.skip_samples_remaining as int
        } else if self.skip_ms == 0 {
            0
        } else {
            skip_samples_spec(self.skip_ms as int, rate, ch)
        }
    }

    /// A fresh source for `track_id` that still owes `skip_ms`
    /// milliseconds of decode-skip.
    pub fn new(track_id: u32, skip_ms: u64) -> (r: SourceState)
        ensures
            r.wf(),
            r == (SourceState {
                track_id,
                sample_rate: 44100u32,
                channels: 2u16,
                buf_len: 0usize,
                pos: 0usize,
                skip_ms,
                skip_samples_remaining: 0u64,
                skip_initialized: false,
                ended: false,
            }),
    {
        SourceState {
            track_id,
            sample_rate: 44100,
            channels: 2,
            buf_len: 0,
            pos: 0,
            skip_ms,
            skip_samples_remaining: 0,
            skip_initialized: false,
            ended: false,
        }
    }

    /// Whether a fetched packet belongs to the source's track.
    pub fn packet_wanted(&self, packet_track_id: u32) -> (r: bool)
        ensures
            r == (packet_track_id == self.track_id),
    {
        packet_track_id == self.track_id
    }

    /// Decide the next pull: yield the sample under the cursor, ask for
    /// a refill, or report the permanent end of the stream.
    pub fn pull(&mut self) -> (r: PullStep)
        requires
            old(self).wf(),
        ensures
            final(self).wf(),
            old(self).pos < old(self).buf_len ==> {
                &&& r == PullStep::Yield(old(self).pos)
                &&& *final(self) == (SourceState { pos: (old(self).pos + 1) as usize, ..*old(self) })
            },
            old(self).pos >= old(self).buf_len ==> {
                &&& *final(self) == *old(self)
                &&& r == if old(self).ended {
                    PullStep::End
                } else {
                    PullStep::Refill
                }
            },
    {
        if self.pos < self.buf_len {
            let i = self.pos;
            self.pos = i + 1;
            PullStep::Yield(i)
        } else if self.ended {
            PullStep::End
        } else {
            PullStep::Refill
        }
    }

    /// Record a freshly decoded, non-empty buffer of `len` samples at
    /// the format the decoder reported, converting the pending
    /// decode-skip at the first opportunity and consuming as much of it
    /// as this buffer covers.
    pub fn buffer_filled(&mut self, rate: u32, ch: u16, len: usize)
        requires
            old(self).wf(),
            !old(self).ended,
            rate >= 1,
            ch >= 1,
            len >= 1,
        ensures
            final(self).wf(),
            final(self).track_id == old(self).track_id,
            final(self).skip_ms == old(self).skip_ms,
            final(self).ended == false,
            final(self).sample_rate == rate,
            final(self).channels == ch,
            final(self).buf_len == len,
            final(self).skip_initialized,
            ({
                let pending = old(self).pending_skip(rate as int, ch as int);
                &&& final(self).pos == if pending < len as int {
                    pending
                } else {
                    len as int
                }
                &&& final(self).skip_samples_remaining == pending - final(self).pos
            }),
    {
        self.sample_rate = rate;
        self.channels = ch;
        self.buf_len = len;
        self.pos = 0;
        if !self.skip_initialized {
            self.skip_initialized = true;
            if self.skip_ms > 0 {
                self.skip_samples_remaining = skip_samples(self.skip_ms, rate, ch);
            } else {
                self.skip_samples_remaining = 0;
            }
        }
        if self.skip_samples_remaining > 0 {
            let available: u64 = len as u64;
            let skip_now: u64 = if self.skip_samples_remaining < available {
                self.skip_samples_remaining
            } else {
                available
            };
            self.pos = skip_now as usize;
            self.skip_samples_remaining = self.skip_samples_remaining - skip_now;
        }
    }

    /// Record that the stream is over: the byte stream hit its end, the
    /// decoder produced an empty buffer, or a fatal failure cut it
    /// short. The buffer is discarded and every later pull ends.
    pub fn end_of_stream(&mut self)
        requires
            old(self).wf(),
        ensures
            final(self).wf(),
            *final(self) == (SourceState { buf_len: 0usize, pos: 0usize, ended: true, ..*old(self) }),
    {
        self.buf_len = 0;
        self.pos = 0;
        self.ended = true;
    }
}

/// Decide how a source construction seeks for a requested start offset:
/// a timestamp seek when the container has a time base, and otherwise no
/// seek at all — the whole request is decode-skipped, since without a
/// time base no seek could report where it landed.
pub fn plan_seek(start_ms: u64, tb: Option<TimeBase>) -> (r: SeekPlan)
    requires
        tb matches Some(t) ==> t.wf(),
    ensures
        start_ms == 0 ==> r == SeekPlan::FromStart,
        start_ms > 0 ==> (tb matches Some(t) ==> r == SeekPlan::ByTimestamp(
            ms_to_ticks_spec(t.numer as int, t.denom as int, start_ms as int) as u64,
        )),
        start_ms > 0 && tb is None ==> r == SeekPlan::SkipAll(start_ms),
{
    if start_ms == 0 {
        SeekPlan::FromStart
    } else {
        match tb {
            Some(t) => SeekPlan::ByTimestamp(ms_to_ticks(&t, start_ms)),
            None => SeekPlan::SkipAll(start_ms),
        }
    }
}

/// Milliseconds still to be decode-skipped after the demuxer's
/// timestamp seek: the coarse undershoot when the seek landed, and the
/// whole request when it failed.
pub open spec fn recovery_skip(start_ms: u64, outcome: SeekOutcome) -> u64 {
    match outcome {
        SeekOutcome::Landed(actual_ms) => if actual_ms <= start_ms {
            (start_ms - actual_ms) as u64
        } else {
            0u64
        },
        SeekOutcome::Failed => start_ms,
    }
}

/// Seek recovery never loses or gains time: wherever a landed seek came
/// down at or before the request, the landing point plus the
/// decode-skipped milliseconds equal the request exactly; a failed
/// seek, like a container without a time base, decode-skips the whole
/// request from the start of the stream.
pub proof fn lemma_seek_recovery_exact(start_ms: u64, outcome: SeekOutcome)
    ensures
        outcome matches SeekOutcome::Landed(actual_ms) ==> actual_ms <= start_ms
            ==> actual_ms + recovery_skip(start_ms, outcome) == start_ms,
        outcome == SeekOutcome::Failed ==> 0 + recovery_skip(start_ms, outcome) == start_ms,
{
}

/// Compute the decode-skip a seek outcome leaves behind.
pub fn skip_after_seek(start_ms: u64, outcome: SeekOutcome) -> (r: u64)
    ensures
        r == recovery_skip(start_ms, outcome),
{
    match outcome {
        SeekOutcome::Landed(actual_ms) => {
            if actual_ms <= start_ms {
                start_ms - actual_ms
            } else {
                0
            }
        },
        SeekOutcome::Failed => start_ms,
    }
}

/// Classify a packet-fetch failure: stream exhaustion ends the stream,
/// a reset request resets the decoder and continues, anything else is
/// fatal.
pub fn classify_packet_error(e: PacketFetchError) -> (r: FetchStep)
    ensures
        r == match e {
            PacketFetchError::Io => FetchStep::EndOfStream,
            PacketFetchError::ResetRequired => FetchStep::ResetDecoder,
            PacketFetchError::Other => FetchStep::Fail,
        },
{
    match e {
        PacketFetchError::Io => FetchStep::EndOfStream,
        PacketFetchError::ResetRequired => FetchStep::ResetDecoder,
        PacketFetchError::Other => FetchStep::Fail,
    }
}

/// Classify a decode failure: stream exhaustion ends the stream, a
/// corrupt packet is skipped, a reset request resets the decoder and
/// continues, anything else is fatal.
pub fn classify_decode_failure(e: DecodeFailure) -> (r: DecodeStep)
    ensures
        r == match e {
            DecodeFailure::Io => DecodeStep::EndOfStream,
            DecodeFailure::Corrupt => DecodeStep::SkipPacket,
            DecodeFailure::ResetRequired => DecodeStep::ResetDecoder,
            DecodeFailure::Other => DecodeStep::Fail,
        },
{
    match e {
        DecodeFailure::Io => DecodeStep::EndOfStream,
        DecodeFailure::Corrupt => DecodeStep::SkipPacket,
        DecodeFailure::ResetRequired => DecodeStep::ResetDecoder,
        DecodeFailure::Other => DecodeStep::Fail,
    }
}

} // verus!
