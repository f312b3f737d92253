//! The playback engine as a verified state machine.
//!
//! The engine owns at most one session (the currently loaded track) and
//! the persistent volume. Commands and periodic clock ticks go in;
//! status events and audio actions come out. Opening a streaming source
//! needs outside work, so a `PlayFile` or `Seek` command is answered
//! with an open request; the caller performs the open and hands the
//! result to `finish_open`.
//!
//! The spec functions (`command_post`, `tick_events`, ...) are the
//! engine's transition relation; each executable method is proved equal
//! to them, and the engine's laws are proved over them.

use vstd::prelude::*;

use crate::player::AudioAction;
use crate::player::OpenRequest;
use crate::player::PlayerCommand;
use crate::player::PlayerEvent;
use crate::player::VOLUME_FULL;
use crate::player::clamp_volume;
use crate::player::clamped_volume;

verus! {

/// The engine's notion of the currently loaded track: one streaming
/// source's lifetime.
pub struct Session {
    /// The file the session plays.
    pub path: String,
    /// Total duration when the container reports one.
    pub duration_ms: Option<u64>,
    /// The offset the current source was asked to start at; the
    /// caller-visible position is this plus the sink's elapsed time.
    pub base_position_ms: u64,
    /// Whether the end of this source has already been reported.
    pub ended_emitted: bool,
    /// Whether the sink is playing (true) or paused (false).
    pub playing: bool,
}

/// The whole engine state: at most one session, plus the volume that
/// persists across sessions (thousandths of full scale).
pub struct EngineState {
    pub session: Option<Session>,
    pub volume: u32,
}

/// What one command asks of the caller: either it ran to completion, or
/// a streaming source must be opened before `finish_open` completes it.
pub enum EngineStep {
    Ran { events: Vec<PlayerEvent>, actions: Vec<AudioAction>, shutdown: bool },
    Open(OpenRequest),
}

/// `a + b` capped at `u64::MAX`.
pub open spec fn sat_add_u64(a: u64, b: u64) -> u64 {
    if a + b > u64::MAX {
        u64::MAX
    } else {
        (a + b) as u64
    }
}

/// The position a tick reports for a session: its base offset plus the
/// sink's elapsed time.
pub open spec fn tick_position(s: Session, elapsed_ms: u64) -> u64 {
    sat_add_u64(s.base_position_ms, elapsed_ms)
}

/// The millisecond value carried by a `Position` event.
pub open spec fn event_position(e: PlayerEvent) -> u64
    recommends
        e is Position,
{
    e->Position_position_ms
}

/// Whether a tick reports the track as ended: a session is loaded, the
/// sink's queue has drained, and the end has not been reported yet.
pub open spec fn tick_ends(st: EngineState, queue_empty: bool) -> bool {
    st.session matches Some(s) && queue_empty && !s.ended_emitted
}

/// The engine state after a tick: unchanged, unless the tick reports the
/// end of the track, which tears the session down.
pub open spec fn tick_post(st: EngineState, elapsed_ms: u64, queue_empty: bool) -> EngineState {
    if tick_ends(st, queue_empty) {
        EngineState { session: None, ..st }
    } else {
        st
    }
}

/// The events a tick emits: nothing without a session; otherwise one
/// `Position`, followed by `TrackEnded` exactly when the tick reports
/// the end of the track.
pub open spec fn tick_events(st: EngineState, elapsed_ms: u64, queue_empty: bool) -> Seq<
    PlayerEvent,
> {
    match st.session {
        Option::None => Seq::empty(),
        Option::Some(s) => {
            let pos = seq![PlayerEvent::Position { position_ms: tick_position(s, elapsed_ms) }];
            if tick_ends(st, queue_empty) {
                pos.push(PlayerEvent::TrackEnded)
            } else {
                pos
            }
        },
    }
}

/// The audio actions a tick asks for: the sink is stopped exactly when
/// the tick reports the end of the track.
pub open spec fn tick_actions(st: EngineState, elapsed_ms: u64, queue_empty: bool) -> Seq<
    AudioAction,
> {
    if tick_ends(st, queue_empty) {
        seq![AudioAction::StopSink]
    } else {
        Seq::empty()
    }
}

/// The open request a command needs before it can complete: `PlayFile`
/// opens the named file at offset zero, playing; `Seek` with a loaded
/// session reopens its file at the requested offset with the
/// playing/paused intent preserved. Every other command, and a `Seek`
/// with nothing loaded, needs none.
pub open spec fn command_open(st: EngineState, cmd: PlayerCommand) -> Option<OpenRequest> {
    match cmd {
        PlayerCommand::PlayFile(path) => Option::Some(
            OpenRequest { path, start_ms: 0u64, resume_playing: true, announce_position: false },
        ),
        PlayerCommand::Seek(ms) => match st.session {
            Option::Some(s) => Option::Some(
                OpenRequest {
                    path: s.path,
                    start_ms: ms,
                    resume_playing: s.playing,
                    announce_position: true,
                },
            ),
            Option::None => Option::None,
        },
        _ => Option::None,
    }
}

/// The engine state after a command that completes without an open.
/// Commands that hand out an open request leave the state untouched
/// until `finish_open`.
pub open spec fn command_post(st: EngineState, cmd: PlayerCommand) -> EngineState {
    match cmd {
        PlayerCommand::Pause => match st.session {
            Option::Some(s) => EngineState {
                session: Option::Some(Session { playing: false, ..s }),
                ..st
            },
            Option::None => st,
        },
        PlayerCommand::Resume => match st.session {
            Option::Some(s) => EngineState {
                session: Option::Some(Session { playing: true, ..s }),
                ..st
            },
            Option::None => st,
        },
        PlayerCommand::Stop => EngineState { session: Option::None, ..st },
        PlayerCommand::SetVolume(v) => EngineState { volume: clamped_volume(v), ..st },
        PlayerCommand::Shutdown => EngineState { session: Option::None, ..st },
        _ => st,
    }
}

/// The events a command emits on its own: `Paused`/`Resumed` only when a
/// session is loaded, `Stopped` always; nothing else emits without an
/// open.
pub open spec fn command_events(st: EngineState, cmd: PlayerCommand) -> Seq<PlayerEvent> {
    match cmd {
        PlayerCommand::Pause => if st.session is Some {
            seq![PlayerEvent::Paused]
        } else {
            Seq::empty()
        },
        PlayerCommand::Resume => if st.session is Some {
            seq![PlayerEvent::Resumed]
        } else {
            Seq::empty()
        },
        PlayerCommand::Stop => seq![PlayerEvent::Stopped],
        _ => Seq::empty(),
    }
}

/// The audio actions a command asks for on its own: transport and volume
/// changes are forwarded to the sink only while one exists.
pub open spec fn command_actions(st: EngineState, cmd: PlayerCommand) -> Seq<AudioAction> {
    match cmd {
        PlayerCommand::Pause => if st.session is Some {
            seq![AudioAction::Pause]
        } else {
            Seq::empty()
        },
        PlayerCommand::Resume => if st.session is Some {
            seq![AudioAction::Resume]
        } else {
            Seq::empty()
        },
        PlayerCommand::Stop => if st.session is Some {
            seq![AudioAction::StopSink]
        } else {
            Seq::empty()
        },
        PlayerCommand::SetVolume(v) => if st.session is Some {
            seq![AudioAction::SetVolume(clamped_volume(v))]
        } else {
            Seq::empty()
        },
        PlayerCommand::Shutdown => if st.session is Some {
            seq![AudioAction::StopSink]
        } else {
            Seq::empty()
        },
        _ => Seq::empty(),
    }
}

/// The engine state after an open finishes: on success the new session
/// replaces whatever was loaded, with the engine's base offset at the
/// requested start and the ended flag re-armed; on failure the state is
/// exactly what it was before the attempt.
pub open spec fn finish_post(
    st: EngineState,
    req: OpenRequest,
    result: Result<Option<u64>, String>,
) -> EngineState {
    match result {
        Result::Ok(dur) => EngineState {
            session: Option::Some(
                Session {
                    path: req.path,
                    duration_ms: dur,
                    base_position_ms: req.start_ms,
                    ended_emitted: false,
                    playing: req.resume_playing,
                },
            ),
            ..st
        },
        Result::Err(_) => st,
    }
}

/// The events a finished open emits: `Started` (followed by an immediate
/// `Position` at the start offset, for seeks) on success, one `Error` on
/// failure.
pub open spec fn finish_events(
    st: EngineState,
    req: OpenRequest,
    result: Result<Option<u64>, String>,
) -> Seq<PlayerEvent> {
    match result {
        Result::Ok(dur) => {
            let started = seq![
                PlayerEvent::Started {
                    path: req.path,
                    duration_ms: dur,
                    start_ms: req.start_ms,
                },
            ];
            if req.announce_position {
                started.push(PlayerEvent::Position { position_ms: req.start_ms })
            } else {
                started
            }
        },
        Result::Err(msg) => seq![PlayerEvent::Error(msg)],
    }
}

/// The audio actions a finished open asks for: on success, stop the old
/// sink if one ran, then start a fresh one at the engine's volume with
/// the requested playing/paused intent; on failure, nothing.
pub open spec fn finish_actions(
    st: EngineState,
    req: OpenRequest,
    result: Result<Option<u64>, String>,
) -> Seq<AudioAction> {
    match result {
        Result::Ok(_) => {
            let stop = if st.session is Some {
                seq![AudioAction::StopSink]
            } else {
                Seq::<AudioAction>::empty()
            };
            stop.push(AudioAction::StartSession { play: req.resume_playing, volume: st.volume })
        },
        Result::Err(_) => Seq::empty(),
    }
}

impl EngineState {
    /// The volume never exceeds full scale.
    pub open spec fn wf(self) -> bool {
        self.volume <= VOLUME_FULL
    }

    /// A fresh engine: nothing loaded, volume at full scale.
    pub fn new() -> (r: EngineState)
        ensures
            r.wf(),
            r.session is None,
            r.volume == VOLUME_FULL,
    {
        EngineState { session: Option::None, volume: VOLUME_FULL }
    }

    /// Process one command. The result either carries the events and
    /// audio actions the command produced (with `shutdown` exactly for
    /// the shutdown command), or the open request the command needs
    /// before `finish_open` completes it.
    pub fn handle_command(&mut self, cmd: PlayerCommand) -> (r: EngineStep)
        requires
            old(self).wf(),
        ensures
            final(self).wf(),
            *final(self) == command_post(*old(self), cmd),
            command_open(*old(self), cmd) matches Some(req) ==> r == EngineStep::Open(req),
            command_open(*old(self), cmd) is None ==> ({
                &&& r matches EngineStep::Ran { events, actions, shutdown }
                &&& events@ =~= command_events(*old(self), cmd)
                &&& actions@ =~= command_actions(*old(self), cmd)
                &&& shutdown == (cmd is Shutdown)
            }),
    {
        match cmd {
            PlayerCommand::PlayFile(path) => EngineStep::Open(
                OpenRequest { path, start_ms: 0, resume_playing: true, announce_position: false },
            ),
            PlayerCommand::Pause => {
                let mut events: Vec<PlayerEvent> = Vec::new();
                let mut actions: Vec<AudioAction> = Vec::new();
                if let Option::Some(s) = &mut self.session {
                    s.playing = false;
                    events.push(PlayerEvent::Paused);
                    actions.push(AudioAction::Pause);
                }
                EngineStep::Ran { events, actions, shutdown: false }
            },
            PlayerCommand::Resume => {
                let mut events: Vec<PlayerEvent> = Vec::new();
                let mut actions: Vec<AudioAction> = Vec::new();
                if let Option::Some(s) = &mut self.session {
                    s.playing = true;
                    events.push(PlayerEvent::Resumed);
                    actions.push(AudioAction::Resume);
                }
                EngineStep::Ran { events, actions, shutdown: false }
            },
            PlayerCommand::Stop => {
                let mut events: Vec<PlayerEvent> = Vec::new();
                let mut actions: Vec<AudioAction> = Vec::new();
                if self.session.is_some() {
                    actions.push(AudioAction::StopSink);
                }
                self.session = Option::None;
                events.push(PlayerEvent::Stopped);
                EngineStep::Ran { events, actions, shutdown: false }
            },
            PlayerCommand::Seek(ms) => {
                match &self.session {
                    Option::Some(s) => EngineStep::Open(
                        OpenRequest {
                            path: s.path.clone(),
                            start_ms: ms,
                            resume_playing: s.playing,
                            announce_position: true,
                        },
                    ),
                    Option::None => EngineStep::Ran {
                        events: Vec::new(),
                        actions: Vec::new(),
                        shutdown: false,
                    },
                }
            },
            PlayerCommand::SetVolume(v) => {
                let mut actions: Vec<AudioAction> = Vec::new();
                self.volume = clamp_volume(v);
                if self.session.is_some() {
                    actions.push(AudioAction::SetVolume(self.volume));
                }
                EngineStep::Ran { events: Vec::new(), actions, shutdown: false }
            },
            PlayerCommand::Shutdown => {
                let mut actions: Vec<AudioAction> = Vec::new();
                if self.session.is_some() {
                    actions.push(AudioAction::StopSink);
                }
                self.session = Option::None;
                EngineStep::Ran { events: Vec::new(), actions, shutdown: true }
            },
        }
    }

    /// Complete a `PlayFile` or `Seek` once the caller has tried to open
    /// the streaming source: `result` carries the known duration on
    /// success, the error message on failure.
    pub fn finish_open(&mut self, req: OpenRequest, result: Result<Option<u64>, String>) -> (r: (
        Vec<PlayerEvent>,
        Vec<AudioAction>,
    ))
        requires
            old(self).wf(),
        ensures
            final(self).wf(),
            *final(self) == finish_post(*old(self), req, result),
            r.0@ =~= finish_events(*old(self), req, result),
            r.1@ =~= finish_actions(*old(self), req, result),
    {
        let mut events: Vec<PlayerEvent> = Vec::new();
        let mut actions: Vec<AudioAction> = Vec::new();
        match result {
            Result::Ok(duration_ms) => {
                if self.session.is_some() {
                    actions.push(AudioAction::StopSink);
                }
                actions.push(
                    AudioAction::StartSession { play: req.resume_playing, volume: self.volume },
                );
                events.push(
                    PlayerEvent::Started {
                        path: req.path.clone(),
                        duration_ms,
                        start_ms: req.start_ms,
                    },
                );
                if req.announce_position {
                    events.push(PlayerEvent::Position { position_ms: req.start_ms });
                }
                self.session = Option::Some(
                    Session {
                        path: req.path,
                        duration_ms,
                        base_position_ms: req.start_ms,
                        ended_emitted: false,
                        playing: req.resume_playing,
                    },
                );
            },
            Result::Err(msg) => {
                events.push(PlayerEvent::Error(msg));
            },
        }
        (events, actions)
    }

    /// One periodic clock tick: report the position (the session's base
    /// offset plus the sink's elapsed time, capped at `u64::MAX`), and
    /// when the sink's queue has drained for a still-loaded track whose
    /// end was not reported yet, report `TrackEnded` once and tear the
    /// session down.
    pub fn tick(&mut self, elapsed_ms: u64, queue_empty: bool) -> (r: (
        Vec<PlayerEvent>,
        Vec<AudioAction>,
    ))
        requires
            old(self).wf(),
        ensures
            final(self).wf(),
            *final(self) == tick_post(*old(self), elapsed_ms, queue_empty),
            r.0@ =~= tick_events(*old(self), elapsed_ms, queue_empty),
            r.1@ =~= tick_actions(*old(self), elapsed_ms, queue_empty),
    {
        let mut events: Vec<PlayerEvent> = Vec::new();
        let mut actions: Vec<AudioAction> = Vec::new();
        let info: Option<(u64, bool)> = match &self.session {
            Option::Some(s) => Option::Some((s.base_position_ms, s.ended_emitted)),
            Option::None => Option::None,
        };
        if let Option::Some((base, ended_emitted)) = info {
            let position_ms: u64 = if elapsed_ms > u64::MAX - base {
                u64::MAX
            } else {
                base + elapsed_ms
            };
            events.push(PlayerEvent::Position { position_ms });
            if queue_empty && !ended_emitted {
                events.push(PlayerEvent::TrackEnded);
                actions.push(AudioAction::StopSink);
                self.session = Option::None;
            }
        }
        (events, actions)
    }
}

/// The engine state after a run of ticks with no intervening command:
/// each element of `ticks` is one tick's sink clock reading and
/// queue-drained flag, in order.
pub open spec fn run_state(st: EngineState, ticks: Seq<(u64, bool)>) -> EngineState
    decreases ticks.len(),
{
    if ticks.len() == 0 {
        st
    } else {
        tick_post(run_state(st, ticks.drop_last()), ticks.last().0, ticks.last().1)
    }
}

/// Every event such a run of ticks emits, in order.
pub open spec fn run_events(st: EngineState, ticks: Seq<(u64, bool)>) -> Seq<PlayerEvent>
    decreases ticks.len(),
{
    if ticks.len() == 0 {
        Seq::empty()
    } else {
        run_events(st, ticks.drop_last()) + tick_events(
            run_state(st, ticks.drop_last()),
            ticks.last().0,
            ticks.last().1,
        )
    }
}

/// How many `TrackEnded` events a stream of events holds.
pub open spec fn ended_count(evs: Seq<PlayerEvent>) -> int
    decreases evs.len(),
{
    if evs.len() == 0 {
        0
    } else {
        ended_count(evs.drop_last()) + if evs.last() is TrackEnded {
            1int
        } else {
            0int
        }
    }
}

proof fn lemma_ended_count_nonneg(evs: Seq<PlayerEvent>)
    ensures
        ended_count(evs) >= 0,
    decreases evs.len(),
{
    if evs.len() > 0 {
        lemma_ended_count_nonneg(evs.drop_last());
    }
}

proof fn lemma_ended_count_concat(a: Seq<PlayerEvent>, b: Seq<PlayerEvent>)
    ensures
        ended_count(a + b) == ended_count(a) + ended_count(b),
    decreases b.len(),
{
    if b.len() == 0 {
        assert(a + b =~= a);
    } else {
        assert((a + b).drop_last() =~= a + b.drop_last());
        assert((a + b).last() == b.last());
        lemma_ended_count_concat(a, b.drop_last());
    }
}

/// One tick emits a `TrackEnded` exactly when it ends the track.
proof fn lemma_tick_ended_count(st: EngineState, elapsed_ms: u64, queue_empty: bool)
    ensures
        ended_count(tick_events(st, elapsed_ms, queue_empty)) == if tick_ends(st, queue_empty) {
            1int
        } else {
            0int
        },
{
    let evs = tick_events(st, elapsed_ms, queue_empty);
    match st.session {
        Option::None => {
            assert(evs =~= Seq::<PlayerEvent>::empty());
            assert(ended_count(evs) == 0);
        },
        Option::Some(s) => {
            let pos = seq![PlayerEvent::Position { position_ms: tick_position(s, elapsed_ms) }];
            assert(ended_count(Seq::<PlayerEvent>::empty()) == 0);
            assert(pos.drop_last() =~= Seq::<PlayerEvent>::empty());
            assert(pos.last() == PlayerEvent::Position {
                position_ms: tick_position(s, elapsed_ms),
            });
            assert(ended_count(pos) == 0);
            if tick_ends(st, queue_empty) {
                assert(evs == pos.push(PlayerEvent::TrackEnded));
                assert(evs.drop_last() =~= pos);
                assert(evs.last() == PlayerEvent::TrackEnded);
                assert(ended_count(evs) == 1);
            } else {
                assert(evs == pos);
            }
        },
    }
}

/// A run of ticks either leaves the engine exactly as it was, or has
/// torn the session down and touched nothing else.
proof fn lemma_run_state_frames(st: EngineState, ticks: Seq<(u64, bool)>)
    ensures
        run_state(st, ticks) == st || run_state(st, ticks) == (EngineState {
            session: Option::None,
            ..st
        }),
    decreases ticks.len(),
{
    if ticks.len() > 0 {
        lemma_run_state_frames(st, ticks.drop_last());
    }
}

/// Within one session the reported position never decreases: for any
/// two ticks of a run whose sink clock readings are in order, the
/// positions they report are in order too (ticks never move the base
/// offset, and a tick that ends the track silences all later ones).
pub proof fn lemma_run_positions_monotonic(
    st: EngineState,
    ticks: Seq<(u64, bool)>,
    k1: int,
    k2: int,
)
    requires
        0 <= k1 <= k2 < ticks.len(),
        ticks[k1].0 <= ticks[k2].0,
    ensures
        ({
            let evs1 = tick_events(run_state(st, ticks.take(k1)), ticks[k1].0, ticks[k1].1);
            let evs2 = tick_events(run_state(st, ticks.take(k2)), ticks[k2].0, ticks[k2].1);
            (evs1.len() >= 1 && evs2.len() >= 1) ==> {
                &&& evs1[0] is Position
                &&& evs2[0] is Position
                &&& event_position(evs1[0]) <= event_position(evs2[0])
            }
        }),
{
    lemma_run_state_frames(st, ticks.take(k1));
    lemma_run_state_frames(st, ticks.take(k2));
}

/// A track's natural end is reported at most once per session over any
/// run of ticks; and when a session that has not yet reported its end
/// sees its queue drain at some tick of the run, it is reported exactly
/// once.
pub proof fn lemma_run_track_ended_once(st: EngineState, ticks: Seq<(u64, bool)>)
    ensures
        0 <= ended_count(run_events(st, ticks)) <= 1,
        ended_count(run_events(st, ticks)) == 1 ==> run_state(st, ticks).session is None,
        (st.session matches Some(s) && !s.ended_emitted && (exists|k: int|
            #![trigger ticks[k]]
            0 <= k < ticks.len() && ticks[k].1)) ==> ended_count(run_events(st, ticks)) == 1,
        (st.session matches Some(s) && !s.ended_emitted && !(exists|k: int|
            #![trigger ticks[k]]
            0 <= k < ticks.len() && ticks[k].1)) ==> run_state(st, ticks) == st && ended_count(
            run_events(st, ticks),
        ) == 0,
    decreases ticks.len(),
{
    lemma_ended_count_nonneg(run_events(st, ticks));
    if ticks.len() == 0 {
    } else {
        let head = ticks.drop_last();
        let last = ticks.last();
        let mid = run_state(st, head);
        lemma_run_track_ended_once(st, head);
        lemma_run_state_frames(st, head);
        lemma_ended_count_concat(run_events(st, head), tick_events(mid, last.0, last.1));
        lemma_tick_ended_count(mid, last.0, last.1);
        if st.session matches Some(s) && !s.ended_emitted {
            if exists|k: int| #![trigger ticks[k]] 0 <= k < ticks.len() && ticks[k].1 {
                let k = choose|k: int| #![trigger ticks[k]] 0 <= k < ticks.len() && ticks[k].1;
                if k < head.len() {
                    assert(head[k] == ticks[k]);
                    assert(exists|j: int| #![trigger head[j]] 0 <= j < head.len() && head[j].1);
                } else {
                    assert(last == ticks[k]);
                    if !(exists|j: int| #![trigger head[j]] 0 <= j < head.len() && head[j].1) {
                        assert(mid == st);
                        assert(tick_ends(mid, last.1));
                    }
                }
            } else {
                assert(forall|j: int|
                    #![trigger head[j]]
                    0 <= j < head.len() ==> head[j] == ticks[j] && !ticks[j].1);
                assert(!(exists|j: int| #![trigger head[j]] 0 <= j < head.len() && head[j].1));
                assert(!last.1);
            }
        }
    }
}

/// Within one session the reported position never decreases: ticks that
/// do not end the track leave the session untouched, and the position is
/// the fixed base offset plus the sink's elapsed time, which only grows.
pub proof fn lemma_position_monotonic(st: EngineState, e1: u64, q1: bool, e2: u64, q2: bool)
    requires
        st.session is Some,
        !tick_ends(st, q1),
        e1 <= e2,
    ensures
        tick_post(st, e1, q1) == st,
        tick_events(st, e1, q1).len() >= 1,
        tick_events(st, e1, q1)[0] is Position,
        tick_events(st, e2, q2).len() >= 1,
        tick_events(st, e2, q2)[0] is Position,
        event_position(tick_events(st, e1, q1)[0]) <= event_position(tick_events(st, e2, q2)[0]),
{
}

/// After a seek to `start_ms` completes, the first position any tick
/// reports within the next `tol` milliseconds of sink playback lies in
/// `[start_ms, start_ms + tol]`, wherever the container seek landed.
pub proof fn lemma_seek_accuracy(
    st: EngineState,
    req: OpenRequest,
    dur: Option<u64>,
    elapsed_ms: u64,
    queue_empty: bool,
    tol: u64,
)
    requires
        elapsed_ms <= tol,
        req.start_ms + tol <= u64::MAX,
    ensures
        ({
            let st1 = finish_post(st, req, Result::Ok(dur));
            let evs = tick_events(st1, elapsed_ms, queue_empty);
            &&& evs.len() >= 1
            &&& evs[0] is Position
            &&& req.start_ms <= event_position(evs[0]) <= req.start_ms + tol
        }),
{
}

/// A track's natural end is reported exactly once: the tick that emits
/// `TrackEnded` (as its second event) tears the session down, and every
/// later tick emits nothing at all until a new source is opened.
pub proof fn lemma_single_track_ended(st: EngineState, e1: u64, q1: bool, e2: u64, q2: bool)
    requires
        tick_ends(st, q1),
    ensures
        tick_events(st, e1, q1).len() == 2,
        tick_events(st, e1, q1)[1] == PlayerEvent::TrackEnded,
        !(tick_events(st, e1, q1)[0] is TrackEnded),
        tick_post(st, e1, q1).session is None,
        tick_events(tick_post(st, e1, q1), e2, q2) =~= Seq::<PlayerEvent>::empty(),
{
}

/// A tick never reports an error: however a seek degraded (to a
/// decode-skip that runs to the end of the stream, say), the drained
/// queue is reported as one `TrackEnded`; `Error` events come only from
/// failed opens.
pub proof fn lemma_tick_never_errors(st: EngineState, elapsed_ms: u64, queue_empty: bool)
    ensures
        forall|i: int|
            0 <= i < tick_events(st, elapsed_ms, queue_empty).len() ==> !(tick_events(
                st,
                elapsed_ms,
                queue_empty,
            )[i] is Error),
{
}

/// Neither `Stop` nor `Seek` ever reports a track as ended: the events
/// they emit themselves contain no `TrackEnded`.
pub proof fn lemma_no_track_ended_on_stop_or_seek(st: EngineState, cmd: PlayerCommand)
    requires
        cmd is Stop || cmd is Seek,
    ensures
        forall|i: int|
            0 <= i < command_events(st, cmd).len() ==> !(command_events(st, cmd)[i] is TrackEnded),
{
}

/// Completing an open — the tail end of any `PlayFile` or `Seek` —
/// never reports a track as ended either, whether it succeeds or fails.
pub proof fn lemma_no_track_ended_on_finish_open(
    st: EngineState,
    req: OpenRequest,
    result: Result<Option<u64>, String>,
)
    ensures
        forall|i: int|
            0 <= i < finish_events(st, req, result).len() ==> !(finish_events(st, req, result)[i]
                is TrackEnded),
{
}

/// Volume persists across track changes: after `SetVolume(v)`, a later
/// successful open starts its fresh sink at exactly the clamped volume,
/// with no further volume command.
pub proof fn lemma_volume_persists(
    st: EngineState,
    v: i64,
    path: String,
    req: OpenRequest,
    dur: Option<u64>,
)
    ensures
        ({
            let st1 = command_post(st, PlayerCommand::SetVolume(v));
            let acts = finish_actions(st1, req, Result::Ok(dur));
            &&& command_post(st1, PlayerCommand::PlayFile(path)) == st1
            &&& acts.len() >= 1
            &&& acts[acts.len() - 1] == (AudioAction::StartSession {
                play: req.resume_playing,
                volume: clamped_volume(v),
            })
        }),
{
}

/// `Pause`, `Resume` and `SetVolume` with nothing loaded are silent
/// no-ops: no events, no audio actions, still nothing loaded, and no
/// open requested.
pub proof fn lemma_noop_without_session(st: EngineState, cmd: PlayerCommand)
    requires
        st.session is None,
        cmd is Pause || cmd is Resume || cmd is SetVolume,
    ensures
        command_events(st, cmd) =~= Seq::<PlayerEvent>::empty(),
        command_actions(st, cmd) =~= Seq::<AudioAction>::empty(),
        command_post(st, cmd).session is None,
        command_open(st, cmd) is None,
{
}

} // verus!
