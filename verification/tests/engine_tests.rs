use sonora::engine::{EngineState, EngineStep};
use sonora::player::{AudioAction, OpenRequest, PlayerCommand, PlayerEvent};

fn open_req(step: EngineStep) -> OpenRequest {
    match step {
        EngineStep::Open(req) => req,
        EngineStep::Ran { .. } => panic!("expected an open request"),
    }
}

fn ran(step: EngineStep) -> (Vec<PlayerEvent>, Vec<AudioAction>, bool) {
    match step {
        EngineStep::Ran { events, actions, shutdown } => (events, actions, shutdown),
        EngineStep::Open(_) => panic!("expected a completed command"),
    }
}

fn position_of(e: &PlayerEvent) -> u64 {
    match e {
        PlayerEvent::Position { position_ms } => *position_ms,
        _ => panic!("expected a position event"),
    }
}

/// Scenario: play a 10,000 ms track to its natural end.
#[test]
fn play_file_to_natural_end() {
    let mut e = EngineState::new();
    let req = open_req(e.handle_command(PlayerCommand::PlayFile("a.mp3".to_string())));
    assert_eq!(req.path, "a.mp3");
    assert_eq!(req.start_ms, 0);
    assert!(req.resume_playing);
    assert!(!req.announce_position);

    let (events, actions) = e.finish_open(req, Ok(Some(10000)));
    assert_eq!(events.len(), 1);
    match &events[0] {
        PlayerEvent::Started { path, duration_ms, start_ms } => {
            assert_eq!(path, "a.mp3");
            assert_eq!(*duration_ms, Some(10000));
            assert_eq!(*start_ms, 0);
        }
        other => panic!("expected Started, got {:?}", other),
    }
    assert_eq!(actions.len(), 1);
    assert!(matches!(actions[0], AudioAction::StartSession { play: true, volume: 1000 }));

    let mut last: u64 = 0;
    for elapsed in [200u64, 400, 2600, 5000, 9800] {
        let (events, actions) = e.tick(elapsed, false);
        assert_eq!(events.len(), 1);
        let p = position_of(&events[0]);
        assert!(p >= last);
        assert!(p <= 10000);
        last = p;
        assert!(actions.is_empty());
    }

    // The queue drains: exactly one TrackEnded, then silence.
    let (events, actions) = e.tick(10000, true);
    assert_eq!(events.len(), 2);
    assert_eq!(position_of(&events[0]), 10000);
    assert!(matches!(events[1], PlayerEvent::TrackEnded));
    assert!(matches!(actions[0], AudioAction::StopSink));
    for elapsed in [10200u64, 10400, 10600] {
        let (events, actions) = e.tick(elapsed, true);
        assert!(events.is_empty());
        assert!(actions.is_empty());
    }
}

/// Scenario: seek mid-playback; a new Started, never a TrackEnded for
/// the superseded source.
#[test]
fn seek_mid_playback() {
    let mut e = EngineState::new();
    let req = open_req(e.handle_command(PlayerCommand::PlayFile("a.mp3".to_string())));
    let (_, _) = e.finish_open(req, Ok(Some(10000)));
    let (events, _) = e.tick(3000, false);
    assert_eq!(position_of(&events[0]), 3000);

    let req = open_req(e.handle_command(PlayerCommand::Seek(7000)));
    assert_eq!(req.path, "a.mp3");
    assert_eq!(req.start_ms, 7000);
    assert!(req.resume_playing);
    assert!(req.announce_position);

    let (events, actions) = e.finish_open(req, Ok(Some(10000)));
    assert_eq!(events.len(), 2);
    match &events[0] {
        PlayerEvent::Started { start_ms, .. } => assert_eq!(*start_ms, 7000),
        other => panic!("expected Started, got {:?}", other),
    }
    assert_eq!(position_of(&events[1]), 7000);
    assert!(events.iter().all(|ev| !matches!(ev, PlayerEvent::TrackEnded)));
    // The old sink is stopped, a new one started.
    assert_eq!(actions.len(), 2);
    assert!(matches!(actions[0], AudioAction::StopSink));
    assert!(matches!(actions[1], AudioAction::StartSession { play: true, volume: 1000 }));

    // Position picks up at or near the seek target.
    let (events, _) = e.tick(150, false);
    let p = position_of(&events[0]);
    assert!((7000..=7200).contains(&p));
}

/// Scenario: a failed open emits exactly one Error and leaves the
/// engine idle; a following Pause is a silent no-op.
#[test]
fn play_file_open_failure() {
    let mut e = EngineState::new();
    let req = open_req(e.handle_command(PlayerCommand::PlayFile("missing.mp3".to_string())));
    let (events, actions) = e.finish_open(req, Err("Open failed: no such file".to_string()));
    assert_eq!(events.len(), 1);
    match &events[0] {
        PlayerEvent::Error(msg) => assert!(msg.contains("Open failed")),
        other => panic!("expected Error, got {:?}", other),
    }
    assert!(actions.is_empty());

    let (events, actions, shutdown) = ran(e.handle_command(PlayerCommand::Pause));
    assert!(events.is_empty());
    assert!(actions.is_empty());
    assert!(!shutdown);
}

/// A failed seek leaves the playing session untouched.
#[test]
fn seek_open_failure_keeps_session() {
    let mut e = EngineState::new();
    let req = open_req(e.handle_command(PlayerCommand::PlayFile("a.mp3".to_string())));
    let (_, _) = e.finish_open(req, Ok(Some(10000)));

    let req = open_req(e.handle_command(PlayerCommand::Seek(9000)));
    let (events, actions) = e.finish_open(req, Err("Format probe failed".to_string()));
    assert_eq!(events.len(), 1);
    assert!(matches!(&events[0], PlayerEvent::Error(_)));
    assert!(actions.is_empty());

    // The old session still ticks from its old base offset.
    let (events, _) = e.tick(3200, false);
    assert_eq!(position_of(&events[0]), 3200);
}

/// Scenario: out-of-range volumes clamp to the ends of the scale.
#[test]
fn set_volume_clamps() {
    let mut e = EngineState::new();
    let req = open_req(e.handle_command(PlayerCommand::PlayFile("a.mp3".to_string())));
    let (_, _) = e.finish_open(req, Ok(None));

    // 1.5 of full scale clamps to full scale.
    let (events, actions, _) = ran(e.handle_command(PlayerCommand::SetVolume(1500)));
    assert!(events.is_empty());
    assert_eq!(actions.len(), 1);
    assert!(matches!(actions[0], AudioAction::SetVolume(1000)));

    // -0.2 of full scale clamps to zero.
    let (events, actions, _) = ran(e.handle_command(PlayerCommand::SetVolume(-200)));
    assert!(events.is_empty());
    assert!(matches!(actions[0], AudioAction::SetVolume(0)));
}

/// Volume persists across track changes without re-sending it.
#[test]
fn volume_persists_to_next_track() {
    let mut e = EngineState::new();
    let (events, actions, _) = ran(e.handle_command(PlayerCommand::SetVolume(350)));
    assert!(events.is_empty());
    assert!(actions.is_empty());  // nothing loaded: stored silently

    let req = open_req(e.handle_command(PlayerCommand::PlayFile("b.mp3".to_string())));
    let (_, actions) = e.finish_open(req, Ok(Some(5000)));
    assert!(matches!(actions[0], AudioAction::StartSession { play: true, volume: 350 }));
}

/// Pause, Resume and SetVolume with no active session produce no events.
#[test]
fn idle_no_ops_are_silent() {
    let mut e = EngineState::new();
    for cmd in [
        PlayerCommand::Pause,
        PlayerCommand::Resume,
        PlayerCommand::SetVolume(700),
    ] {
        let (events, actions, shutdown) = ran(e.handle_command(cmd));
        assert!(events.is_empty());
        assert!(actions.is_empty());
        assert!(!shutdown);
    }
    // Seek with nothing loaded is a silent no-op too.
    let (events, actions, _) = ran(e.handle_command(PlayerCommand::Seek(5000)));
    assert!(events.is_empty());
    assert!(actions.is_empty());
    // Ticks with nothing loaded emit nothing.
    let (events, actions) = e.tick(400, true);
    assert!(events.is_empty());
    assert!(actions.is_empty());
}

/// Pause and Resume forward to the sink and report, preserving the
/// paused state across a seek.
#[test]
fn pause_resume_and_seek_preserves_paused() {
    let mut e = EngineState::new();
    let req = open_req(e.handle_command(PlayerCommand::PlayFile("a.mp3".to_string())));
    let (_, _) = e.finish_open(req, Ok(Some(10000)));

    let (events, actions, _) = ran(e.handle_command(PlayerCommand::Pause));
    assert!(matches!(events[0], PlayerEvent::Paused));
    assert!(matches!(actions[0], AudioAction::Pause));

    // Seeking while paused keeps the paused intent.
    let req = open_req(e.handle_command(PlayerCommand::Seek(2000)));
    assert!(!req.resume_playing);
    let (_, actions) = e.finish_open(req, Ok(Some(10000)));
    assert!(matches!(actions[1], AudioAction::StartSession { play: false, .. }));

    let (events, actions, _) = ran(e.handle_command(PlayerCommand::Resume));
    assert!(matches!(events[0], PlayerEvent::Resumed));
    assert!(matches!(actions[0], AudioAction::Resume));
}

/// Stop tears the session down, emits Stopped and never TrackEnded.
#[test]
fn stop_emits_stopped_only() {
    let mut e = EngineState::new();
    let req = open_req(e.handle_command(PlayerCommand::PlayFile("a.mp3".to_string())));
    let (_, _) = e.finish_open(req, Ok(Some(10000)));

    let (events, actions, shutdown) = ran(e.handle_command(PlayerCommand::Stop));
    assert_eq!(events.len(), 1);
    assert!(matches!(events[0], PlayerEvent::Stopped));
    assert!(matches!(actions[0], AudioAction::StopSink));
    assert!(!shutdown);

    // Even with a drained queue, nothing is loaded, so no TrackEnded.
    let (events, _) = e.tick(10000, true);
    assert!(events.is_empty());

    // Stop with nothing loaded still reports Stopped, with no action.
    let (events, actions, _) = ran(e.handle_command(PlayerCommand::Stop));
    assert!(matches!(events[0], PlayerEvent::Stopped));
    assert!(actions.is_empty());
}

/// Shutdown stops the loop and tears down silently.
#[test]
fn shutdown_tears_down() {
    let mut e = EngineState::new();
    let req = open_req(e.handle_command(PlayerCommand::PlayFile("a.mp3".to_string())));
    let (_, _) = e.finish_open(req, Ok(Some(10000)));

    let (events, actions, shutdown) = ran(e.handle_command(PlayerCommand::Shutdown));
    assert!(events.is_empty());
    assert!(matches!(actions[0], AudioAction::StopSink));
    assert!(shutdown);
    let (events, _) = e.tick(500, true);
    assert!(events.is_empty());
}

/// Scenario: seeking past the known duration still starts, and the
/// drained queue then ends the track promptly rather than erroring.
#[test]
fn seek_past_duration_ends_quickly() {
    let mut e = EngineState::new();
    let req = open_req(e.handle_command(PlayerCommand::PlayFile("a.mp3".to_string())));
    let (_, _) = e.finish_open(req, Ok(Some(10000)));

    let req = open_req(e.handle_command(PlayerCommand::Seek(15000)));
    let (events, _) = e.finish_open(req, Ok(Some(10000)));
    assert!(matches!(&events[0], PlayerEvent::Started { start_ms: 15000, .. }));

    // The source decode-skips straight to its end; the first drained
    // tick reports exactly one TrackEnded.
    let (events, _) = e.tick(0, true);
    assert_eq!(events.len(), 2);
    assert!(matches!(events[1], PlayerEvent::TrackEnded));
    let (events, _) = e.tick(200, true);
    assert!(events.is_empty());
}
