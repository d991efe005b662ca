use picast::clock::{Timestamp, Uuid};
use picast::manager::{isolation_host, SessionManager};
use picast::session::{
    make_row, read_row, MediaSession, PlayerState, ResolveInfo, SessionError, SessionEvent,
};

const T: Timestamp = Timestamp { secs: 1_700_000_000, nanos: 250_000_000 };

fn info() -> ResolveInfo {
    ResolveInfo {
        direct_url: "https://cdn.example.com/v.mp4".into(),
        title: Some("Title".into()),
        duration_ms: Some(300_000),
    }
}

fn playing() -> (SessionManager, Uuid) {
    let mut m = SessionManager::empty();
    let id = Uuid { bits: 7 };
    m.begin_load_at("https://example.com/video.mp4", id, T).unwrap();
    m.finish_resolution(id, Ok(info()), T).unwrap();
    m.finish_display(id, Ok(()), T).unwrap();
    m.finish_playback(id, Ok(()), T).unwrap();
    (m, id)
}

#[test]
fn load_reaches_playing() {
    let (mut m, id) = playing();
    let session = m.current_status().unwrap();
    assert_eq!(session.id, id);
    assert_eq!(session.state, PlayerState::Playing);
    assert_eq!(session.resolved_url, Some("https://cdn.example.com/v.mp4".into()));
    assert_eq!(session.title, Some("Title".into()));
    assert_eq!(session.duration_ms, Some(300_000));
    assert_eq!(session.updated_at, T);
    let events = m.take_events();
    assert_eq!(events.len(), 5);
    assert!(matches!(&events[0], SessionEvent::Created { url, .. } if url == "https://example.com/video.mp4"));
    assert!(matches!(events[1], SessionEvent::Resolving { .. }));
    assert!(matches!(events[2], SessionEvent::Resolved { .. }));
    assert!(matches!(events[3], SessionEvent::Buffering { percent: 0, .. }));
    assert!(matches!(events[4], SessionEvent::Playing { .. }));
    assert!(m.take_events().is_empty());
}

#[test]
fn second_load_is_refused() {
    let (mut m, _) = playing();
    let err = m.begin_load("https://example.com/other.mp4").err().unwrap();
    assert!(matches!(err, SessionError::AlreadyActive));
    assert_eq!(m.rows().len(), 1);
}

#[test]
fn failed_loads_free_the_slot() {
    let mut m = SessionManager::empty();
    let id = m.begin_load("https://example.com/a.mp4").unwrap();
    let err = m.finish_resolution(id, Err("timeout".into()), T).err().unwrap();
    assert_eq!(err.message(), "resolution failed: timeout");
    assert!(matches!(m.active_session_id(), Err(SessionError::NoActiveSession)));
    assert_eq!(m.load_session(id).unwrap().state, PlayerState::Error);

    let id = m.begin_load("https://example.com/b.mp4").unwrap();
    m.finish_resolution(id, Ok(info()), T).unwrap();
    let err = m.finish_display(id, Err("busy".into()), T).err().unwrap();
    assert_eq!(err.message(), "display error: busy");

    let id = m.begin_load("https://example.com/c.mp4").unwrap();
    m.finish_resolution(id, Ok(ResolveInfo::unresolved("https://example.com/c.mp4")), T).unwrap();
    m.finish_display(id, Ok(()), T).unwrap();
    let err = m.finish_playback(id, Err("no sink".into()), T).err().unwrap();
    assert_eq!(err.message(), "playback error: no sink");
    assert!(m.begin_load("https://example.com/d.mp4").is_ok());
}

#[test]
fn pause_and_resume() {
    let (mut m, id) = playing();
    m.finish_pause(id, Ok(()), T).unwrap();
    assert_eq!(m.current_status().unwrap().state, PlayerState::Paused);
    let err = m.finish_pause(id, Ok(()), T).err().unwrap();
    assert_eq!(err.message(), "invalid state transition: cannot go from paused to paused");
    m.finish_resume(id, Ok(()), T).unwrap();
    assert_eq!(m.current_status().unwrap().state, PlayerState::Playing);
    let err = m.finish_resume(id, Err("gone".into()), T).err().unwrap();
    assert!(matches!(err, SessionError::PlaybackError(_)));
}

#[test]
fn pause_only_while_playing() {
    let mut m = SessionManager::empty();
    let id = m.begin_load("https://example.com/a.mp4").unwrap();
    m.finish_resolution(id, Ok(info()), T).unwrap();
    m.finish_display(id, Ok(()), T).unwrap();
    assert_eq!(m.current_status().unwrap().state, PlayerState::Buffering);
    assert!(m.finish_pause(id, Ok(()), T).is_err());
    assert!(m.finish_resume(id, Ok(()), T).is_err());
}

#[test]
fn stop_leaves_nothing() {
    let (mut m, id) = playing();
    m.publish(id);
    assert!(m.snapshot().is_some());
    let plan = m.begin_stop().unwrap();
    assert!(plan.stop_playback);
    assert_eq!(plan.state, PlayerState::Playing);
    m.finish_stop(&plan, T);
    assert!(m.snapshot().is_none());
    assert!(m.rows().is_empty());
    assert!(matches!(m.begin_stop(), Err(SessionError::NoActiveSession)));
    assert!(matches!(m.status(id), Err(SessionError::NotFound(_))));
    assert!(matches!(m.take_events().last(), Some(SessionEvent::Stopped { .. })));
}

#[test]
fn seek_returns_to_the_state_before() {
    let (mut m, id) = playing();
    let (seeking, was) = m.begin_seek(5000, T).unwrap();
    assert_eq!((seeking, was), (id, PlayerState::Playing));
    assert_eq!(m.current_status().unwrap().state, PlayerState::Seeking);
    m.finish_seek(id, was, Ok(()), T).unwrap();
    assert_eq!(m.current_status().unwrap().state, PlayerState::Playing);
    m.finish_pause(id, Ok(()), T).unwrap();
    let (_, was) = m.begin_seek(6000, T).unwrap();
    m.finish_seek(id, was, Ok(()), T).unwrap();
    assert_eq!(m.current_status().unwrap().state, PlayerState::Paused);
    let (_, was) = m.begin_seek(7000, T).unwrap();
    assert!(m.finish_seek(id, was, Err("stuck".into()), T).is_err());
    assert_eq!(m.current_status().unwrap().state, PlayerState::Seeking);
}

#[test]
fn volume_is_clamped_and_stored() {
    let (mut m, id) = playing();
    let (who, level) = m.begin_volume(200, T).unwrap();
    assert_eq!((who, level), (id, 100));
    m.finish_volume(id, level, Ok(())).unwrap();
    m.begin_volume(30, T).unwrap();
    assert_eq!(m.current_status().unwrap().volume, 30);
    assert!(m.finish_volume(id, 30, Err("mute".into())).is_err());
    let mut none = SessionManager::empty();
    assert!(matches!(none.begin_volume(10, T), Err(SessionError::NoActiveSession)));
    assert!(matches!(none.begin_seek(10, T), Err(SessionError::NoActiveSession)));
}

#[test]
fn progress_is_noted_and_announced() {
    let (mut m, id) = playing();
    m.take_events();
    m.refresh_playback_position(id, None, None, T);
    assert!(m.take_events().is_empty());
    m.refresh_playback_position(id, Some(1234), None, T);
    let session = m.current_status().unwrap();
    assert_eq!(session.position_ms, 1234);
    assert_eq!(session.duration_ms, Some(300_000));
    assert!(matches!(
        m.take_events()[0],
        SessionEvent::PositionUpdate { position_ms: 1234, duration_ms: None, .. }
    ));
    m.refresh_playback_position(id, None, Some(9), T);
    assert_eq!(m.snapshot().as_ref().unwrap().duration_ms, Some(9));
}

#[test]
fn rows_read_back() {
    let mut session = MediaSession::new_at("https://e.com/v".into(), Uuid { bits: 99 }, T);
    session.position_ms = u64::MAX;
    session.volume = 250;
    session.state = PlayerState::Seeking;
    let row = make_row(&session);
    assert_eq!(row.id, "00000000-0000-0000-0000-000000000063");
    assert_eq!(row.state, "seeking");
    assert_eq!(row.position_ms, -1);
    assert_eq!(row.updated_at, "2023-11-14T22:13:20.250+00:00");
    let back = read_row(&row).unwrap();
    assert_eq!(back.id, session.id);
    assert_eq!(back.position_ms, u64::MAX);
    assert_eq!(back.volume, 250);
    assert_eq!(back.state, PlayerState::Seeking);
    assert_eq!(back.created_at, T);
}

#[test]
fn corrupt_rows_are_reported() {
    let row = make_row(&MediaSession::new_at("u".into(), Uuid::nil(), T));
    let mut bad = row.clone();
    bad.id = "nope".into();
    assert!(read_row(&bad).err().unwrap().message().starts_with("subsystem error: corrupt session ID 'nope': "));
    let mut bad = row.clone();
    bad.state = "nope".into();
    assert_eq!(
        read_row(&bad).err().unwrap().message(),
        "subsystem error: corrupt session state 'nope': unknown variant `nope`, expected one of `idle`, `resolving`, `buffering`, `playing`, `paused`, `seeking`, `error` at line 1 column 6"
    );
    let mut bad = row.clone();
    bad.created_at = "yesterday".into();
    assert!(read_row(&bad).err().unwrap().message().contains("corrupt created_at 'yesterday'"));
    let mut bad = row.clone();
    bad.updated_at = "".into();
    assert!(read_row(&bad).err().unwrap().message().contains("corrupt updated_at ''"));
    let mut bad = row;
    bad.volume = 300;
    assert_eq!(read_row(&bad).unwrap().volume, 100);
}

#[test]
fn transitions_of_unknown_and_corrupt_sessions() {
    let mut m = SessionManager::empty();
    assert_eq!(
        m.try_transition(Uuid::nil(), PlayerState::Resolving).err().unwrap().message(),
        "session not found: 00000000-0000-0000-0000-000000000000"
    );
    let mut row = make_row(&MediaSession::new_at("u".into(), Uuid::nil(), T));
    row.state = "error".into();
    let mut m = SessionManager::restart_at(vec![row], "2000", T);
    let err = m.try_transition_at(Uuid::nil(), PlayerState::Playing, T).err().unwrap();
    assert_eq!(err.message(), "invalid state transition: cannot go from error to playing");
    assert!(m.try_transition_at(Uuid::nil(), PlayerState::Idle, T).is_ok());
    assert_eq!(SessionError::Database("locked".into()).message(), "database error: locked");
    assert_eq!(SessionError::NoActiveSession.message(), "no active session");
}

#[test]
fn escaped_state_names() {
    assert_eq!(PlayerState::parse_name("\\u0069dle").unwrap(), PlayerState::Idle);
    assert!(PlayerState::parse_name("idle\"").is_err());
    let unknown = |name: &str, column: u32| {
        format!(
            "unknown variant `{}`, expected one of `idle`, `resolving`, `buffering`, `playing`, `paused`, `seeking`, `error` at line 1 column {}",
            name, column
        )
    };
    assert_eq!(PlayerState::parse_name("x\" y").err().unwrap(), unknown("x", 3));
    assert_eq!(PlayerState::parse_name("a\\\"b").err().unwrap(), unknown("a\"b", 6));
    assert_eq!(PlayerState::parse_name("\u{e9}").err().unwrap(), unknown("\u{e9}", 4));
    assert_eq!(
        PlayerState::parse_name("idle\" y").err().unwrap(),
        "trailing characters at line 1 column 8"
    );
    assert_eq!(
        PlayerState::parse_name("idle\\").err().unwrap(),
        "EOF while parsing a string at line 1 column 7"
    );
    assert_eq!(
        PlayerState::parse_name("\\u12\" y").err().unwrap(),
        "invalid escape at line 1 column 7"
    );
}

#[test]
fn sessions_of_any_time_read_back() {
    let mut m = SessionManager::empty();
    for t in [
        Timestamp { secs: 0, nanos: 0 },
        Timestamp { secs: -1, nanos: 999_999_999 },
        Timestamp { secs: -62_200_000_000, nanos: 1_000 },
        Timestamp { secs: 253_402_300_800, nanos: 0 },
        Timestamp { secs: 59, nanos: 1_500_000_000 },
        Timestamp { secs: -8_334_601_228_800, nanos: 0 },
        Timestamp { secs: 8_210_266_876_799, nanos: 1_999_999_999 },
    ] {
        let mut session = MediaSession::new("https://example.com/video.mp4".into());
        session.created_at = t;
        session.updated_at = t;
        m.insert_session(&session);
        let back = m.load_session(session.id).unwrap();
        assert_eq!(back.created_at, t);
        assert_eq!(back.updated_at, t);
    }
    for t in [
        Timestamp { secs: -8_334_601_228_801, nanos: 0 },
        Timestamp { secs: 8_210_266_876_800, nanos: 0 },
        Timestamp { secs: 58, nanos: 1_000_000_000 },
        Timestamp { secs: 59, nanos: 2_000_000_000 },
    ] {
        assert_eq!(picast::clock::stamp(t), "");
    }
}

#[test]
fn isolation_hosts() {
    assert_eq!(isolation_host("https://example.com/x"), "example.com");
    assert_eq!(isolation_host("nope"), "");
}
