use picast::clock::Uuid;
use picast::state_machine::{
    is_valid_cast_url, CastCommand, ErrorCode, Session, SessionState, SessionStateKind,
};

const SAMPLE_URL: &str = "https://example.org/video.mp4";

#[test]
fn error_code_display_is_screaming_snake_case() {
    assert_eq!(ErrorCode::NoActiveSession.text(), "NO_ACTIVE_SESSION");
    assert_eq!(ErrorCode::SessionActive.text(), "SESSION_ACTIVE");
    assert_eq!(ErrorCode::InvalidUrl.text(), "INVALID_URL");
    assert_eq!(ErrorCode::InvalidState.text(), "INVALID_STATE");
    assert_eq!(ErrorCode::InvalidTransition.text(), "INVALID_TRANSITION");
    assert_eq!(ErrorCode::Subsystem.text(), "SUBSYSTEM");
    assert_eq!(ErrorCode::ResolutionFailed.text(), "RESOLUTION_FAILED");
    assert_eq!(ErrorCode::Playback.text(), "PLAYBACK");
    assert_eq!(ErrorCode::Display.text(), "DISPLAY");
    assert_eq!(ErrorCode::Internal.text(), "INTERNAL");
    assert_eq!(ErrorCode::NotFound.text(), "NOT_FOUND");
}

#[test]
fn state_kind_matches_variant() {
    assert_eq!(SessionState::Idle.kind(), SessionStateKind::Idle);
    assert_eq!(
        SessionState::Resolving {
            id: Uuid::nil(),
            source_url: "u".into()
        }
        .kind(),
        SessionStateKind::Resolving
    );
    assert_eq!(
        SessionState::Error {
            id: None,
            message: "boom".into()
        }
        .kind(),
        SessionStateKind::Error
    );
}

#[test]
fn state_id_returns_active_session_id() {
    let id = Uuid::new_v4();
    let s = SessionState::Playing {
        id,
        source_url: "u".into(),
        resolved_url: "r".into(),
    };
    assert_eq!(s.id(), Some(id));
    assert_eq!(SessionState::Idle.id(), None);
    assert_eq!(
        SessionState::Error {
            id: None,
            message: "x".into()
        }
        .id(),
        None
    );
}

#[test]
fn state_is_active_flag() {
    assert!(!SessionState::Idle.is_active());
    assert!(
        SessionState::Buffering {
            id: Uuid::nil(),
            source_url: "u".into(),
            resolved_url: "r".into()
        }
        .is_active()
    );
    assert!(!SessionState::Error {
        id: None,
        message: "x".into()
    }
    .is_active());
}

#[test]
fn state_can_transition_to_table() {
    // Idle → Resolving, Error
    assert!(SessionState::Idle.can_transition_to(SessionStateKind::Resolving));
    assert!(SessionState::Idle.can_transition_to(SessionStateKind::Error));
    assert!(!SessionState::Idle.can_transition_to(SessionStateKind::Playing));

    // Resolving → Buffering, Error, Idle
    let resolving = SessionState::Resolving {
        id: Uuid::nil(),
        source_url: "u".into(),
    };
    assert!(resolving.can_transition_to(SessionStateKind::Buffering));
    assert!(resolving.can_transition_to(SessionStateKind::Error));
    assert!(resolving.can_transition_to(SessionStateKind::Idle));
    assert!(!resolving.can_transition_to(SessionStateKind::Playing));

    // Error → Idle (and only Idle)
    let error = SessionState::Error {
        id: None,
        message: "x".into(),
    };
    assert!(error.can_transition_to(SessionStateKind::Idle));
    assert!(!error.can_transition_to(SessionStateKind::Playing));
    assert!(!error.can_transition_to(SessionStateKind::Resolving));
}

#[test]
fn cast_command_name_is_stable() {
    assert_eq!(CastCommand::Load { url: String::new() }.name(), "load");
    assert_eq!(CastCommand::Pause.name(), "pause");
    assert_eq!(CastCommand::Resume.name(), "resume");
    assert_eq!(CastCommand::Stop.name(), "stop");
    assert_eq!(CastCommand::Seek { position_ms: 0 }.name(), "seek");
    assert_eq!(CastCommand::SetVolume { volume: 50 }.name(), "set_volume");
}

#[test]
fn fresh_session_is_idle() {
    let s = Session::new();
    assert_eq!(s.state(), &SessionState::Idle);
    assert_eq!(s.id(), None);
    assert_eq!(s.position_ms(), 0);
    assert_eq!(s.duration_ms(), None);
    assert_eq!(s.volume(), 100);
    assert!(s.created_at().is_none());
}

#[test]
fn load_transitions_to_resolving() {
    let mut s = Session::new();
    let state = s
        .handle(CastCommand::Load {
            url: SAMPLE_URL.into(),
        })
        .expect("load");
    assert_eq!(state.kind(), SessionStateKind::Resolving);
    assert!(s.id().is_some());
    assert!(s.created_at().is_some());
    if let SessionState::Resolving { source_url, .. } = &state {
        assert_eq!(source_url, SAMPLE_URL);
    } else {
        panic!("expected Resolving, got {:?}", state);
    }
}

#[test]
fn load_while_active_returns_session_active() {
    let mut s = Session::new();
    s.handle(CastCommand::Load {
        url: SAMPLE_URL.into(),
    })
    .expect("first load");
    let err = s
        .handle(CastCommand::Load {
            url: SAMPLE_URL.into(),
        })
        .expect_err("second load should fail");
    assert_eq!(err.code(), ErrorCode::SessionActive);
}

#[test]
fn load_rejects_invalid_url() {
    let mut s = Session::new();
    let err = s
        .handle(CastCommand::Load { url: "".into() })
        .expect_err("empty url");
    assert_eq!(err.code(), ErrorCode::InvalidUrl);

    let err = s
        .handle(CastCommand::Load {
            url: "not a url".into(),
        })
        .expect_err("no scheme");
    assert_eq!(err.code(), ErrorCode::InvalidUrl);

    let err = s
        .handle(CastCommand::Load {
            url: "://missing-scheme".into(),
        })
        .expect_err("missing scheme");
    assert_eq!(err.code(), ErrorCode::InvalidUrl);
}

#[test]
fn full_lifecycle_load_resolve_buffer_play_pause_resume_stop() {
    let mut s = Session::new();

    // Idle → Resolving
    s.handle(CastCommand::Load {
        url: SAMPLE_URL.into(),
    })
    .expect("load");
    let id = s.id().expect("session id after load");

    // Resolving → Buffering (subsystem confirms resolution)
    let resolved_url = "https://cdn.example.org/direct.mp4";
    s.resolve_ok(resolved_url.into()).expect("resolve_ok");

    // Buffering → Playing (subsystem reports buffer full)
    s.buffer_full().expect("buffer_full");
    assert_eq!(s.state().kind(), SessionStateKind::Playing);

    // Playing → Paused
    s.handle(CastCommand::Pause).expect("pause");
    assert_eq!(s.state().kind(), SessionStateKind::Paused);

    // Paused → Playing
    s.handle(CastCommand::Resume).expect("resume");
    assert_eq!(s.state().kind(), SessionStateKind::Playing);

    // Playing → Idle (stop)
    s.handle(CastCommand::Stop).expect("stop");
    assert_eq!(s.state(), &SessionState::Idle);
    assert_eq!(s.id(), None);
    // Volume persists across resets.
    assert_eq!(s.volume(), 100);
    // id is forgotten.
    let _ = id;
}

#[test]
fn seek_lifecycle() {
    let mut s = Session::new();
    s.handle(CastCommand::Load {
        url: SAMPLE_URL.into(),
    })
    .expect("load");
    s.resolve_ok("r".into()).expect("resolve_ok");
    s.buffer_full().expect("buffer_full");

    // Playing → Seeking
    s.handle(CastCommand::Seek {
        position_ms: 5_000,
    })
    .expect("seek");
    assert_eq!(s.state().kind(), SessionStateKind::Seeking);
    if let SessionState::Seeking { target_ms, .. } = s.state() {
        assert_eq!(*target_ms, 5_000);
    } else {
        panic!("expected Seeking");
    }

    // Seeking → Playing
    s.seek_done().expect("seek_done");
    assert_eq!(s.state().kind(), SessionStateKind::Playing);
    assert_eq!(s.position_ms(), 5_000);
}

#[test]
fn seek_rejected_from_idle() {
    let mut s = Session::new();
    let err = s
        .handle(CastCommand::Seek { position_ms: 0 })
        .expect_err("seek from idle");
    assert_eq!(err.code(), ErrorCode::InvalidState);
}

#[test]
fn stop_from_idle_is_noop_success() {
    let mut s = Session::new();
    let state = s.handle(CastCommand::Stop).expect("stop from idle");
    assert_eq!(state, SessionState::Idle);
}

#[test]
fn stop_from_error_returns_to_idle() {
    let mut s = Session::new();
    s.handle(CastCommand::Load {
        url: SAMPLE_URL.into(),
    })
    .expect("load");
    s.fail("simulated playback error".into()).expect("fail");
    assert_eq!(s.state().kind(), SessionStateKind::Error);

    s.handle(CastCommand::Stop).expect("stop from error");
    assert_eq!(s.state(), &SessionState::Idle);
}

#[test]
fn set_volume_records_and_clamps() {
    let mut s = Session::new();
    s.handle(CastCommand::Load {
        url: SAMPLE_URL.into(),
    })
    .expect("load");

    s.handle(CastCommand::SetVolume { volume: 42 })
        .expect("set_volume");
    assert_eq!(s.volume(), 42);

    // u8 already caps at 255; we further clamp to 100.
    s.handle(CastCommand::SetVolume { volume: 200 })
        .expect("set_volume clamps");
    assert_eq!(s.volume(), 100);

    s.handle(CastCommand::SetVolume { volume: 0 })
        .expect("set_volume zero");
    assert_eq!(s.volume(), 0);
}

#[test]
fn set_volume_rejected_from_idle() {
    let mut s = Session::new();
    let err = s
        .handle(CastCommand::SetVolume { volume: 50 })
        .expect_err("set_volume from idle");
    assert_eq!(err.code(), ErrorCode::InvalidState);
}

#[test]
fn volume_persists_across_stop() {
    let mut s = Session::new();
    s.handle(CastCommand::Load {
        url: SAMPLE_URL.into(),
    })
    .expect("load");
    s.handle(CastCommand::SetVolume { volume: 30 })
        .expect("set_volume");
    s.handle(CastCommand::Stop).expect("stop");
    assert_eq!(s.volume(), 30);
}

#[test]
fn pause_from_idle_rejected() {
    let mut s = Session::new();
    let err = s.handle(CastCommand::Pause).expect_err("pause from idle");
    assert_eq!(err.code(), ErrorCode::InvalidState);
}

#[test]
fn resume_from_playing_rejected() {
    let mut s = Session::new();
    s.handle(CastCommand::Load {
        url: SAMPLE_URL.into(),
    })
    .expect("load");
    s.resolve_ok("r".into()).expect("resolve_ok");
    s.buffer_full().expect("buffer_full");

    let err = s.handle(CastCommand::Resume).expect_err("resume from playing");
    assert_eq!(err.code(), ErrorCode::InvalidState);
}

#[test]
fn reset_clears_session_metadata() {
    let mut s = Session::new();
    s.handle(CastCommand::Load {
        url: SAMPLE_URL.into(),
    })
    .expect("load");
    s.position_update(1234);
    s.set_duration(9999);
    assert!(s.id().is_some());
    assert_eq!(s.position_ms(), 1234);

    s.reset();
    assert_eq!(s.state(), &SessionState::Idle);
    assert_eq!(s.id(), None);
    assert_eq!(s.position_ms(), 0);
    assert_eq!(s.duration_ms(), None);
}

#[test]
fn reset_leaves_an_idle_session() {
    let mut s = Session::new();
    s.position_update(1234);
    s.set_duration(9999);
    let before = s.updated_at();
    s.reset();
    assert_eq!(s.state(), &SessionState::Idle);
    assert_eq!(s.position_ms(), 1234);
    assert_eq!(s.duration_ms(), Some(9999));
    assert_eq!(s.updated_at(), before);
    s.reset_at(picast::clock::Timestamp { secs: 7, nanos: 0 });
    assert_eq!(s.updated_at(), before);
    assert_eq!(s.position_ms(), 1234);
}

#[test]
fn url_validation_accepts_common_schemes() {
    assert!(is_valid_cast_url("https://example.org/v.mp4"));
    assert!(is_valid_cast_url("http://example.org/v.mp4"));
    assert!(is_valid_cast_url("ftp://example.org/v.mp4"));
    assert!(is_valid_cast_url("yt-dlp+test://example.org/v.mp4"));
}

#[test]
fn url_validation_rejects_garbage() {
    assert!(!is_valid_cast_url(""));
    assert!(!is_valid_cast_url("   "));
    assert!(!is_valid_cast_url("no-scheme"));
    assert!(!is_valid_cast_url("://no-scheme"));
    assert!(!is_valid_cast_url("1bad://scheme-starts-with-digit"));
    assert!(!is_valid_cast_url("https://"));
}
