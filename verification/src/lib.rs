//! Verified core of a local-audio player: the playback engine as a pure
//! state machine (commands in, events and audio actions out), the
//! streaming-source bookkeeping that compensates for coarse container
//! seeks by decode-skipping, the integer timing arithmetic behind both,
//! the library-scan bookkeeping around track metadata rows, and the
//! small text, form and display helpers over those rows.
//!
//! All device and file I/O (audio output, demuxing, decoding, tag
//! reading) lives outside this crate; callers feed the results of those
//! calls into the state machines here and apply the returned actions.

pub mod player;

pub mod timing;

pub mod source;

pub mod engine;

pub mod track;

pub mod scan;

pub mod tags;

pub mod text;

pub mod form;

pub mod display;

pub mod pathname;

