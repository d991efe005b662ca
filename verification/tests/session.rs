use picast::clock::Timestamp;
use picast::manager::{stale_cutoff, SessionManager};
use picast::session::{MediaSession, PlayerState, SessionError};

fn now() -> Timestamp {
    hours_ago(0)
}

fn hours_ago(hours: i64) -> Timestamp {
    let t = chrono::Utc::now();
    Timestamp { secs: t.timestamp() - hours * 3600, nanos: t.timestamp_subsec_nanos() }
}

#[test]
fn test_idle_can_resolve() {
    assert!(PlayerState::Idle.can_transition_to(PlayerState::Resolving));
}

#[test]
fn test_idle_cannot_play() {
    assert!(!PlayerState::Idle.can_transition_to(PlayerState::Playing));
}

#[test]
fn test_resolving_can_buffer() {
    assert!(PlayerState::Resolving.can_transition_to(PlayerState::Buffering));
}

#[test]
fn test_resolving_can_error() {
    assert!(PlayerState::Resolving.can_transition_to(PlayerState::Error));
}

#[test]
fn test_buffering_can_play() {
    assert!(PlayerState::Buffering.can_transition_to(PlayerState::Playing));
}

#[test]
fn test_buffering_can_pause() {
    assert!(PlayerState::Buffering.can_transition_to(PlayerState::Paused));
}

#[test]
fn test_playing_can_pause() {
    assert!(PlayerState::Playing.can_transition_to(PlayerState::Paused));
}

#[test]
fn test_playing_can_seek() {
    assert!(PlayerState::Playing.can_transition_to(PlayerState::Seeking));
}

#[test]
fn test_playing_can_buffer() {
    assert!(PlayerState::Playing.can_transition_to(PlayerState::Buffering));
}

#[test]
fn test_paused_can_play() {
    assert!(PlayerState::Paused.can_transition_to(PlayerState::Playing));
}

#[test]
fn test_paused_can_seek() {
    assert!(PlayerState::Paused.can_transition_to(PlayerState::Seeking));
}

#[test]
fn test_seeking_can_play() {
    assert!(PlayerState::Seeking.can_transition_to(PlayerState::Playing));
}

#[test]
fn test_error_can_reset() {
    assert!(PlayerState::Error.can_transition_to(PlayerState::Idle));
}

#[test]
fn test_error_cannot_play() {
    assert!(!PlayerState::Error.can_transition_to(PlayerState::Playing));
}

#[test]
fn test_idle_cannot_seek() {
    assert!(!PlayerState::Idle.can_transition_to(PlayerState::Seeking));
}

#[test]
fn test_playing_cannot_resolve() {
    assert!(!PlayerState::Playing.can_transition_to(PlayerState::Resolving));
}

#[test]
fn test_transition_success() {
    let result = PlayerState::Idle.transition(PlayerState::Resolving);
    assert_eq!(result.unwrap(), PlayerState::Resolving);
}

#[test]
fn test_transition_failure() {
    let result = PlayerState::Idle.transition(PlayerState::Playing);
    assert!(result.is_err());
    match result.unwrap_err() {
        SessionError::InvalidTransition { from, to } => {
            assert_eq!(from, PlayerState::Idle);
            assert_eq!(to, PlayerState::Playing);
        },
        other => panic!("Expected InvalidTransition, got {:?}", other),
    }
}

#[test]
fn test_full_lifecycle_transitions() {
    let state = PlayerState::Idle;
    let state = state.transition(PlayerState::Resolving).unwrap();
    assert_eq!(state, PlayerState::Resolving);
    let state = state.transition(PlayerState::Buffering).unwrap();
    assert_eq!(state, PlayerState::Buffering);
    let state = state.transition(PlayerState::Playing).unwrap();
    assert_eq!(state, PlayerState::Playing);
    let state = state.transition(PlayerState::Paused).unwrap();
    assert_eq!(state, PlayerState::Paused);
    let state = state.transition(PlayerState::Playing).unwrap();
    assert_eq!(state, PlayerState::Playing);
    let state = state.transition(PlayerState::Seeking).unwrap();
    assert_eq!(state, PlayerState::Seeking);
    let state = state.transition(PlayerState::Playing).unwrap();
    assert_eq!(state, PlayerState::Playing);
    let state = state.transition(PlayerState::Idle).unwrap();
    assert_eq!(state, PlayerState::Idle);
}

#[test]
fn test_error_recovery() {
    let state = PlayerState::Playing;
    let state = state.transition(PlayerState::Error).unwrap();
    assert_eq!(state, PlayerState::Error);
    let state = state.transition(PlayerState::Idle).unwrap();
    assert_eq!(state, PlayerState::Idle);
    // Can start again after error
    let state = state.transition(PlayerState::Resolving).unwrap();
    assert_eq!(state, PlayerState::Resolving);
}

#[test]
fn test_media_session_new() {
    let session = MediaSession::new("https://example.com/video.mp4".into());
    assert_eq!(session.state, PlayerState::Idle);
    assert_eq!(session.source_url, "https://example.com/video.mp4");
    assert!(session.resolved_url.is_none());
    assert_eq!(session.volume, 100);
    assert_eq!(session.position_ms, 0);
}

#[test]
fn test_player_state_display() {
    assert_eq!(PlayerState::Idle.name(), "idle");
    assert_eq!(PlayerState::Resolving.name(), "resolving");
    assert_eq!(PlayerState::Buffering.name(), "buffering");
    assert_eq!(PlayerState::Playing.name(), "playing");
    assert_eq!(PlayerState::Paused.name(), "paused");
    assert_eq!(PlayerState::Seeking.name(), "seeking");
    assert_eq!(PlayerState::Error.name(), "error");
}

#[test]
fn test_player_state_from_str() {
    assert_eq!("idle".parse::<PlayerState>().unwrap(), PlayerState::Idle);
    assert_eq!("playing".parse::<PlayerState>().unwrap(), PlayerState::Playing);
    assert_eq!("paused".parse::<PlayerState>().unwrap(), PlayerState::Paused);
    assert!("invalid".parse::<PlayerState>().is_err());
}

#[test]
fn test_cleanup_stale_sessions() {
    let mut mgr = SessionManager::empty();

    // Insert a session with an old updated_at timestamp.
    let mut old_session = MediaSession::new("https://example.com/old.mp4".into());
    old_session.updated_at = hours_ago(25);
    mgr.insert_session(&old_session);

    // Insert a recent session.
    let recent_session = MediaSession::new("https://example.com/recent.mp4".into());
    mgr.insert_session(&recent_session);

    // Run cleanup.
    mgr.cleanup_stale_sessions(&stale_cutoff(now()));

    // Old session should be gone, recent session should remain.
    assert!(mgr.load_session(old_session.id).is_err());
    assert!(mgr.load_session(recent_session.id).is_ok());
}

#[test]
fn test_recover_crashed_sessions() {
    let mut mgr = SessionManager::empty();

    // Insert sessions in various non-idle states.
    let mut playing_session = MediaSession::new("https://example.com/playing.mp4".into());
    playing_session.state = PlayerState::Playing;
    mgr.insert_session(&playing_session);

    let mut buffering_session = MediaSession::new("https://example.com/buffering.mp4".into());
    buffering_session.state = PlayerState::Buffering;
    mgr.insert_session(&buffering_session);

    let mut resolving_session = MediaSession::new("https://example.com/resolving.mp4".into());
    resolving_session.state = PlayerState::Resolving;
    mgr.insert_session(&resolving_session);

    // Idle and error sessions should NOT be touched.
    let mut idle_session = MediaSession::new("https://example.com/idle.mp4".into());
    idle_session.state = PlayerState::Idle;
    mgr.insert_session(&idle_session);

    let mut error_session = MediaSession::new("https://example.com/error.mp4".into());
    error_session.state = PlayerState::Error;
    mgr.insert_session(&error_session);

    // Run recovery.
    mgr.recover_crashed_sessions(now());

    // All non-idle/error sessions should now be Idle.
    assert_eq!(mgr.load_session(playing_session.id).unwrap().state, PlayerState::Idle);
    assert_eq!(mgr.load_session(buffering_session.id).unwrap().state, PlayerState::Idle);
    assert_eq!(mgr.load_session(resolving_session.id).unwrap().state, PlayerState::Idle);

    // Idle and error sessions should be unchanged.
    assert_eq!(mgr.load_session(idle_session.id).unwrap().state, PlayerState::Idle);
    assert_eq!(mgr.load_session(error_session.id).unwrap().state, PlayerState::Error);
}

#[test]
fn test_new_manager_cleans_up_on_start() {
    let mut mgr = SessionManager::empty();

    // Insert a stale session (25h old).
    let mut stale = MediaSession::new("https://example.com/stale.mp4".into());
    stale.updated_at = hours_ago(25);
    mgr.insert_session(&stale);
    assert!(mgr.load_session(stale.id).is_ok());
    mgr.cleanup_stale_sessions(&stale_cutoff(now()));
    assert!(mgr.load_session(stale.id).is_err());
}

#[test]
fn test_idle_to_resolving_valid() {
    assert!(PlayerState::Idle.can_transition_to(PlayerState::Resolving));
    assert!(PlayerState::Idle.transition(PlayerState::Resolving).is_ok());
}

#[test]
fn test_idle_to_playing_invalid() {
    assert!(!PlayerState::Idle.can_transition_to(PlayerState::Playing));
    let err = PlayerState::Idle.transition(PlayerState::Playing).unwrap_err();
    assert!(matches!(
        err,
        SessionError::InvalidTransition { from: PlayerState::Idle, to: PlayerState::Playing }
    ));
}

#[test]
fn test_playing_to_paused_valid() {
    assert!(PlayerState::Playing.can_transition_to(PlayerState::Paused));
    assert!(PlayerState::Playing.transition(PlayerState::Paused).is_ok());
}

#[test]
fn test_playing_to_seeking_valid() {
    assert!(PlayerState::Playing.can_transition_to(PlayerState::Seeking));
    assert!(PlayerState::Playing.transition(PlayerState::Seeking).is_ok());
}

#[test]
fn test_paused_to_playing_valid() {
    assert!(PlayerState::Paused.can_transition_to(PlayerState::Playing));
    assert!(PlayerState::Paused.transition(PlayerState::Playing).is_ok());
}

#[test]
fn test_paused_to_seeking_valid() {
    assert!(PlayerState::Paused.can_transition_to(PlayerState::Seeking));
    assert!(PlayerState::Paused.transition(PlayerState::Seeking).is_ok());
}

#[test]
fn test_seeking_to_playing_valid() {
    assert!(PlayerState::Seeking.can_transition_to(PlayerState::Playing));
    assert!(PlayerState::Seeking.transition(PlayerState::Playing).is_ok());
}

#[test]
fn test_seeking_to_paused_invalid() {
    assert!(!PlayerState::Seeking.can_transition_to(PlayerState::Paused));
    let err = PlayerState::Seeking.transition(PlayerState::Paused).unwrap_err();
    assert!(matches!(
        err,
        SessionError::InvalidTransition { from: PlayerState::Seeking, to: PlayerState::Paused }
    ));
}

#[test]
fn test_error_to_idle_valid() {
    assert!(PlayerState::Error.can_transition_to(PlayerState::Idle));
    assert!(PlayerState::Error.transition(PlayerState::Idle).is_ok());
}

#[test]
fn test_error_to_playing_invalid() {
    assert!(!PlayerState::Error.can_transition_to(PlayerState::Playing));
    let err = PlayerState::Error.transition(PlayerState::Playing).unwrap_err();
    assert!(matches!(
        err,
        SessionError::InvalidTransition { from: PlayerState::Error, to: PlayerState::Playing }
    ));
}

#[test]
fn test_crash_recovery_recover_crashed_sessions() {

    // First manager: create a session and manually set state to "playing".
    let mut mgr1 = SessionManager::empty();
    let mut session = MediaSession::new("https://example.com/video.mp4".into());
    session.state = PlayerState::Playing;
    let sid = session.id;
    mgr1.insert_session(&session);

    // Verify it's in playing state.
    assert_eq!(mgr1.load_session(sid).unwrap().state, PlayerState::Playing);

    // Simulate a crash: drop the first manager without stopping the session.
    let rows = mgr1.rows().clone();
    drop(mgr1);

    // Second manager: should recover crashed sessions to idle on startup.
    let mgr2 = SessionManager::restart(rows);
    let recovered = mgr2.load_session(sid).unwrap();
    assert_eq!(recovered.state, PlayerState::Idle);
}

#[test]
fn test_crash_recovery_multiple_crashed_states() {

    let mut mgr1 = SessionManager::empty();

    // Insert sessions in various active states.
    let mut resolving = MediaSession::new("https://example.com/r.mp4".into());
    resolving.state = PlayerState::Resolving;
    let rid = resolving.id;
    mgr1.insert_session(&resolving);

    let mut buffering = MediaSession::new("https://example.com/b.mp4".into());
    buffering.state = PlayerState::Buffering;
    let bid = buffering.id;
    mgr1.insert_session(&buffering);

    let mut seeking = MediaSession::new("https://example.com/s.mp4".into());
    seeking.state = PlayerState::Seeking;
    let sid = seeking.id;
    mgr1.insert_session(&seeking);

    // Error and idle sessions should NOT be touched.
    let mut error_sess = MediaSession::new("https://example.com/e.mp4".into());
    error_sess.state = PlayerState::Error;
    let eid = error_sess.id;
    mgr1.insert_session(&error_sess);

    let rows = mgr1.rows().clone();
    drop(mgr1);

    let mgr2 = SessionManager::restart(rows);

    // All active states should be recovered to Idle.
    assert_eq!(mgr2.load_session(rid).unwrap().state, PlayerState::Idle);
    assert_eq!(mgr2.load_session(bid).unwrap().state, PlayerState::Idle);
    assert_eq!(mgr2.load_session(sid).unwrap().state, PlayerState::Idle);
    // Error session should remain Error.
    assert_eq!(mgr2.load_session(eid).unwrap().state, PlayerState::Error);
}

#[test]
fn test_stale_session_cleanup_on_new_manager() {

    // First manager: insert a stale session (25h old) and a recent one.
    let mut mgr1 = SessionManager::empty();

    let mut stale = MediaSession::new("https://example.com/old.mp4".into());
    stale.updated_at = hours_ago(25);
    let stale_id = stale.id;
    mgr1.insert_session(&stale);

    let recent = MediaSession::new("https://example.com/recent.mp4".into());
    let recent_id = recent.id;
    mgr1.insert_session(&recent);

    let rows = mgr1.rows().clone();
    drop(mgr1);

    // Second manager: stale session should be cleaned up on startup.
    let mgr2 = SessionManager::restart(rows);
    assert!(mgr2.load_session(stale_id).is_err(), "stale session should be deleted");
    assert!(mgr2.load_session(recent_id).is_ok(), "recent session should still exist");
}
