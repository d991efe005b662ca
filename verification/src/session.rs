//! Playback sessions: the player's states, the stored sessions, and the
//! decisions of the session manager between the work of its subsystems.

use crate::cache::{opt_signed64, opt_unsigned64, signed64, to_signed64, to_unsigned64, unsigned64};
use crate::clock::{
    fresh_uuid, marked_random, moment_parse, read_moment, read_uuid, representable, stamp,
    stamp_text, utc_now, uuid_parse, uuid_text, write_uuid, Timestamp, Uuid,
};
use crate::json::{json_parse, parse_json, Json, Tree};
use crate::resolver::ResolveResult;
use crate::state_machine::{kind_name, may_follow, SessionStateKind};
use crate::text::{
    chars_of, clone_opt, decimal_text, join2, join3, number_text, opt_text, owned, push_text,
    same_text, substring,
};
use vstd::prelude::*;
use vstd::utf8::encode_utf8;

verus! {

// ---------------------------------------------------------------------------
// Player states
// ---------------------------------------------------------------------------

/// Possible states of the media player.
#[derive(Debug, Clone, Copy, PartialEq, Eq, Structural)]
pub enum PlayerState {
    /// No media loaded.
    Idle,
    /// URL is being resolved.
    Resolving,
    /// Media has been resolved and is buffering.
    Buffering,
    /// Actively decoding and rendering media.
    Playing,
    /// Playback is paused.
    Paused,
    /// A seek operation is in progress.
    Seeking,
    /// An unrecoverable error occurred.
    Error,
}

/// The state's counterpart in the state machine.
pub open spec fn machine_kind(state: PlayerState) -> SessionStateKind {
    match state {
        PlayerState::Idle => SessionStateKind::Idle,
        PlayerState::Resolving => SessionStateKind::Resolving,
        PlayerState::Buffering => SessionStateKind::Buffering,
        PlayerState::Playing => SessionStateKind::Playing,
        PlayerState::Paused => SessionStateKind::Paused,
        PlayerState::Seeking => SessionStateKind::Seeking,
        PlayerState::Error => SessionStateKind::Error,
    }
}

/// Which player states may follow which.
pub open spec fn player_may_follow(from: PlayerState, to: PlayerState) -> bool {
    match from {
        PlayerState::Idle => to == PlayerState::Resolving || to == PlayerState::Error,
        PlayerState::Resolving => to == PlayerState::Buffering || to == PlayerState::Error || to
            == PlayerState::Idle,
        PlayerState::Buffering => to == PlayerState::Playing || to == PlayerState::Paused || to
            == PlayerState::Error || to == PlayerState::Idle,
        PlayerState::Playing => to == PlayerState::Paused || to == PlayerState::Seeking || to
            == PlayerState::Buffering || to == PlayerState::Error || to == PlayerState::Idle,
        PlayerState::Paused => to == PlayerState::Playing || to == PlayerState::Seeking || to
            == PlayerState::Error || to == PlayerState::Idle,
        PlayerState::Seeking => to == PlayerState::Playing || to == PlayerState::Error || to
            == PlayerState::Idle,
        PlayerState::Error => to == PlayerState::Idle,
    }
}

/// The name of a player state.
pub open spec fn player_name(state: PlayerState) -> Seq<char> {
    kind_name(machine_kind(state))
}

/// The player state with a given name.
pub open spec fn player_of_name(name: Seq<char>) -> Option<PlayerState> {
    if name == "idle"@ {
        Some(PlayerState::Idle)
    } else if name == "resolving"@ {
        Some(PlayerState::Resolving)
    } else if name == "buffering"@ {
        Some(PlayerState::Buffering)
    } else if name == "playing"@ {
        Some(PlayerState::Playing)
    } else if name == "paused"@ {
        Some(PlayerState::Paused)
    } else if name == "seeking"@ {
        Some(PlayerState::Seeking)
    } else if name == "error"@ {
        Some(PlayerState::Error)
    } else {
        None
    }
}

/// The complaint about a name that is none.
pub open spec fn unknown_name(name: Seq<char>, written: Seq<char>) -> Seq<char> {
    "unknown variant `"@ + name
        + "`, expected one of `idle`, `resolving`, `buffering`, `playing`, `paused`, `seeking`, `error` at line 1 column "@
        + decimal_text(encode_utf8(written).len())
}

/// The index of the quote that ends a JSON string, whose content is read from
/// `i` on.
pub open spec fn closing_quote(s: Seq<char>, i: int) -> Option<int>
    decreases s.len() - i,
{
    if i < 0 || i >= s.len() {
        None
    } else if s[i] == '"' {
        Some(i)
    } else if s[i] == '\\' && i + 1 < s.len() {
        closing_quote(s, i + 2)
    } else {
        closing_quote(s, i + 1)
    }
}

/// The state that a JSON text names.
pub open spec fn named_by(written: Seq<char>) -> Result<PlayerState, Seq<char>> {
    match json_parse(written) {
        Ok(Tree::Text(name)) => match player_of_name(name) {
            Some(state) => Ok(state),
            None => Err(unknown_name(name, written)),
        },
        Ok(_) => Err("invalid type"@),
        Err(message) => Err(message),
    }
}

/// Whether a JSON text is a string that names no state.
pub open spec fn names_nothing(written: Seq<char>) -> bool {
    json_parse(written) matches Ok(Tree::Text(name)) && player_of_name(name) is None
}

/// What a text names, as it is or as the content of a JSON string. A string
/// that ends within the text is judged by its name before what follows it.
pub open spec fn player_parse(text: Seq<char>) -> Result<PlayerState, Seq<char>> {
    let written = "\""@ + text + "\""@;
    match player_of_name(text) {
        Some(state) => Ok(state),
        None => match closing_quote(written, 1) {
            Some(k) if names_nothing(written.take(k + 1)) => named_by(written.take(k + 1)),
            _ => named_by(written),
        },
    }
}

fn find_closing_quote(v: &Vec<char>) -> (r: Option<usize>)
    ensures
        match r {
            Some(k) => closing_quote(v@, 1) == Some(k as int) && k < v@.len(),
            None => closing_quote(v@, 1) is None,
        },
{
    let mut i: usize = 1;
    while i < v.len()
        invariant
            1 <= i,
            closing_quote(v@, 1) == closing_quote(v@, i as int),
        decreases v.len() - i,
    {
        if v[i] == '"' {
            return Some(i);
        }
        if v[i] == '\\' && i < v.len() - 1 {
            i = i + 2;
        } else {
            i = i + 1;
        }
    }
    None
}

fn name_from_json(written: &str) -> (r: Result<PlayerState, String>)
    ensures
        match named_by(written@) {
            Ok(state) => r matches Ok(p) && p == state,
            Err(message) => r matches Err(m) && m@ == message,
        },
{
    match parse_json(written) {
        Ok(Json::Text(name)) => match PlayerState::of_name(name.as_str()) {
            Some(state) => Ok(state),
            None => {
                let mut m = join3(
                    "unknown variant `",
                    name.as_str(),
                    "`, expected one of `idle`, `resolving`, `buffering`, `playing`, `paused`, `seeking`, `error` at line 1 column ",
                );
                let column: usize = written.as_bytes().len();
                push_text(&mut m, number_text(column as u64).as_str());
                Err(m)
            },
        },
        Ok(_) => Err(owned("invalid type")),
        Err(message) => Err(message),
    }
}

impl PlayerState {
    /// Whether `target` may follow this state.
    pub fn can_transition_to(&self, target: PlayerState) -> (r: bool)
        ensures
            r == player_may_follow(*self, target),
    {
        match self {
            PlayerState::Idle => target == PlayerState::Resolving || target == PlayerState::Error,
            PlayerState::Resolving => target == PlayerState::Buffering || target
                == PlayerState::Error || target == PlayerState::Idle,
            PlayerState::Buffering => target == PlayerState::Playing || target
                == PlayerState::Paused || target == PlayerState::Error || target
                == PlayerState::Idle,
            PlayerState::Playing => target == PlayerState::Paused || target == PlayerState::Seeking
                || target == PlayerState::Buffering || target == PlayerState::Error || target
                == PlayerState::Idle,
            PlayerState::Paused => target == PlayerState::Playing || target == PlayerState::Seeking
                || target == PlayerState::Error || target == PlayerState::Idle,
            PlayerState::Seeking => target == PlayerState::Playing || target == PlayerState::Error
                || target == PlayerState::Idle,
            PlayerState::Error => target == PlayerState::Idle,
        }
    }

    /// Goes to `target`, where it may follow this state.
    pub fn transition(&self, target: PlayerState) -> (r: Result<PlayerState, SessionError>)
        ensures
            if player_may_follow(*self, target) {
                r == Ok::<PlayerState, SessionError>(target)
            } else {
                r matches Err(e) && e@ == (SessionFault::InvalidTransition {
                    from: *self,
                    to: target,
                })
            },
    {
        if self.can_transition_to(target) {
            Ok(target)
        } else {
            Err(SessionError::InvalidTransition { from: *self, to: target })
        }
    }

    /// The name of the state.
    pub fn name(&self) -> (r: String)
        ensures
            r@ == player_name(*self),
    {
        match self {
            PlayerState::Idle => owned("idle"),
            PlayerState::Resolving => owned("resolving"),
            PlayerState::Buffering => owned("buffering"),
            PlayerState::Playing => owned("playing"),
            PlayerState::Paused => owned("paused"),
            PlayerState::Seeking => owned("seeking"),
            PlayerState::Error => owned("error"),
        }
    }

    /// The state with a given name.
    pub fn of_name(name: &str) -> (r: Option<PlayerState>)
        ensures
            r == player_of_name(name@),
    {
        if same_text(name, "idle") {
            Some(PlayerState::Idle)
        } else if same_text(name, "resolving") {
            Some(PlayerState::Resolving)
        } else if same_text(name, "buffering") {
            Some(PlayerState::Buffering)
        } else if same_text(name, "playing") {
            Some(PlayerState::Playing)
        } else if same_text(name, "paused") {
            Some(PlayerState::Paused)
        } else if same_text(name, "seeking") {
            Some(PlayerState::Seeking)
        } else if same_text(name, "error") {
            Some(PlayerState::Error)
        } else {
            None
        }
    }

    /// Reads a state's name, as it is or as the content of a JSON string.
    pub fn parse_name(s: &str) -> (r: Result<PlayerState, String>)
        ensures
            match player_parse(s@) {
                Ok(state) => r matches Ok(p) && p == state,
                Err(message) => r matches Err(m) && m@ == message,
            },
    {
        match PlayerState::of_name(s) {
            Some(state) => {
                return Ok(state);
            },
            None => {},
        }
        let written = join3("\"", s, "\"");
        let chars = chars_of(written.as_str());
        match find_closing_quote(&chars) {
            Some(k) => {
                let literal = substring(&chars, 0, k + 1);
                assert(literal@ =~= written@.take(k + 1));
                let unknown = match parse_json(literal.as_str()) {
                    Ok(Json::Text(name)) => PlayerState::of_name(name.as_str()).is_none(),
                    _ => false,
                };
                if unknown {
                    return name_from_json(literal.as_str());
                }
            },
            None => {},
        }
        name_from_json(written.as_str())
    }
}

impl std::str::FromStr for PlayerState {
    type Err = String;

    fn from_str(s: &str) -> (r: Result<Self, String>)
        ensures
            match player_parse(s@) {
                Ok(state) => r matches Ok(p) && p == state,
                Err(message) => r matches Err(m) && m@ == message,
            },
    {
        PlayerState::parse_name(s)
    }
}

// ---------------------------------------------------------------------------
// Errors
// ---------------------------------------------------------------------------

/// Errors that can originate from the session layer.
#[derive(Debug, Clone)]
pub enum SessionError {
    /// No active session was found for the requested operation.
    NoActiveSession,
    /// An operation was attempted while a session is already active.
    AlreadyActive,
    /// The requested session ID does not exist.
    NotFound(Uuid),
    /// A database operation failed.
    Database(String),
    /// A subsystem returned an error.
    Subsystem(String),
    /// URL resolution failed.
    ResolutionFailed(String),
    /// Playback engine error.
    PlaybackError(String),
    /// Display subsystem error.
    DisplayError(String),
    /// An invalid state transition was attempted.
    InvalidTransition { from: PlayerState, to: PlayerState },
}

/// Mathematical counterpart of [`SessionError`].
pub enum SessionFault {
    NoActiveSession,
    AlreadyActive,
    NotFound(Uuid),
    Database(Seq<char>),
    Subsystem(Seq<char>),
    ResolutionFailed(Seq<char>),
    PlaybackError(Seq<char>),
    DisplayError(Seq<char>),
    InvalidTransition { from: PlayerState, to: PlayerState },
}

impl View for SessionError {
    type V = SessionFault;

    open spec fn view(&self) -> SessionFault {
        match self {
            SessionError::NoActiveSession => SessionFault::NoActiveSession,
            SessionError::AlreadyActive => SessionFault::AlreadyActive,
            SessionError::NotFound(id) => SessionFault::NotFound(*id),
            SessionError::Database(t) => SessionFault::Database(t@),
            SessionError::Subsystem(t) => SessionFault::Subsystem(t@),
            SessionError::ResolutionFailed(t) => SessionFault::ResolutionFailed(t@),
            SessionError::PlaybackError(t) => SessionFault::PlaybackError(t@),
            SessionError::DisplayError(t) => SessionFault::DisplayError(t@),
            SessionError::InvalidTransition { from, to } => SessionFault::InvalidTransition {
                from: *from,
                to: *to,
            },
        }
    }
}

/// How an error reads.
pub open spec fn session_fault_text(fault: SessionFault) -> Seq<char> {
    match fault {
        SessionFault::NoActiveSession => "no active session"@,
        SessionFault::AlreadyActive =>
        "session already active \u{2014} stop the current session first"@,
        SessionFault::NotFound(id) => "session not found: "@ + uuid_text(id.bits),
        SessionFault::Database(t) => "database error: "@ + t,
        SessionFault::Subsystem(t) => "subsystem error: "@ + t,
        SessionFault::ResolutionFailed(t) => "resolution failed: "@ + t,
        SessionFault::PlaybackError(t) => "playback error: "@ + t,
        SessionFault::DisplayError(t) => "display error: "@ + t,
        SessionFault::InvalidTransition { from, to } =>
        "invalid state transition: cannot go from "@ + player_name(from) + " to "@ + player_name(
            to,
        ),
    }
}

impl SessionError {
    /// How the error reads.
    pub fn message(&self) -> (r: String)
        ensures
            r@ == session_fault_text(self@),
    {
        match self {
            SessionError::NoActiveSession => owned("no active session"),
            SessionError::AlreadyActive => owned(
                "session already active \u{2014} stop the current session first",
            ),
            SessionError::NotFound(id) => join2("session not found: ", write_uuid(*id).as_str()),
            SessionError::Database(t) => join2("database error: ", t.as_str()),
            SessionError::Subsystem(t) => join2("subsystem error: ", t.as_str()),
            SessionError::ResolutionFailed(t) => join2("resolution failed: ", t.as_str()),
            SessionError::PlaybackError(t) => join2("playback error: ", t.as_str()),
            SessionError::DisplayError(t) => join2("display error: ", t.as_str()),
            SessionError::InvalidTransition { from, to } => {
                let mut r = join3(
                    "invalid state transition: cannot go from ",
                    from.name().as_str(),
                    " to ",
                );
                push_text(&mut r, to.name().as_str());
                r
            },
        }
    }
}

// ---------------------------------------------------------------------------
// Events
// ---------------------------------------------------------------------------

/// Events emitted when a session changes.
#[derive(Debug, Clone)]
pub enum SessionEvent {
    /// A new session was created.
    Created { id: Uuid, url: String },
    /// URL resolution is in progress.
    Resolving { id: Uuid },
    /// Resolution succeeded.
    Resolved { id: Uuid, direct_url: String, title: Option<String> },
    /// Playback has begun.
    Playing { id: Uuid },
    /// Playback is paused.
    Paused { id: Uuid },
    /// Playback has stopped.
    Stopped { id: Uuid },
    /// An error occurred.
    Error { id: Uuid, message: String },
    /// Buffering progress.
    Buffering { id: Uuid, percent: u8 },
    /// Position update.
    PositionUpdate { id: Uuid, position_ms: u64, duration_ms: Option<u64> },
    /// Volume changed.
    VolumeChanged { id: Uuid, volume: u8 },
    /// A seek operation is in progress.
    Seeking { id: Uuid, position_ms: u64 },
}

/// Mathematical counterpart of [`SessionEvent`].
pub enum EventModel {
    Created { id: Uuid, url: Seq<char> },
    Resolving { id: Uuid },
    Resolved { id: Uuid, direct_url: Seq<char>, title: Option<Seq<char>> },
    Playing { id: Uuid },
    Paused { id: Uuid },
    Stopped { id: Uuid },
    Error { id: Uuid, message: Seq<char> },
    Buffering { id: Uuid, percent: u8 },
    PositionUpdate { id: Uuid, position_ms: u64, duration_ms: Option<u64> },
    VolumeChanged { id: Uuid, volume: u8 },
    Seeking { id: Uuid, position_ms: u64 },
}

impl View for SessionEvent {
    type V = EventModel;

    open spec fn view(&self) -> EventModel {
        match self {
            SessionEvent::Created { id, url } => EventModel::Created { id: *id, url: url@ },
            SessionEvent::Resolving { id } => EventModel::Resolving { id: *id },
            SessionEvent::Resolved { id, direct_url, title } => EventModel::Resolved {
                id: *id,
                direct_url: direct_url@,
                title: opt_text(*title),
            },
            SessionEvent::Playing { id } => EventModel::Playing { id: *id },
            SessionEvent::Paused { id } => EventModel::Paused { id: *id },
            SessionEvent::Stopped { id } => EventModel::Stopped { id: *id },
            SessionEvent::Error { id, message } => EventModel::Error { id: *id, message: message@ },
            SessionEvent::Buffering { id, percent } => EventModel::Buffering {
                id: *id,
                percent: *percent,
            },
            SessionEvent::PositionUpdate { id, position_ms, duration_ms } =>
            EventModel::PositionUpdate {
                id: *id,
                position_ms: *position_ms,
                duration_ms: *duration_ms,
            },
            SessionEvent::VolumeChanged { id, volume } => EventModel::VolumeChanged {
                id: *id,
                volume: *volume,
            },
            SessionEvent::Seeking { id, position_ms } => EventModel::Seeking {
                id: *id,
                position_ms: *position_ms,
            },
        }
    }
}

/// The event that entering a state emits; a seek is announced elsewhere.
pub open spec fn entry_event(id: Uuid, state: PlayerState) -> Option<EventModel> {
    match state {
        PlayerState::Resolving => Some(EventModel::Resolving { id }),
        PlayerState::Playing => Some(EventModel::Playing { id }),
        PlayerState::Paused => Some(EventModel::Paused { id }),
        PlayerState::Idle => Some(EventModel::Stopped { id }),
        PlayerState::Error => Some(EventModel::Error { id, message: "entered error state"@ }),
        PlayerState::Buffering => Some(EventModel::Buffering { id, percent: 0 }),
        PlayerState::Seeking => None,
    }
}

/// The event that entering a state emits.
pub fn make_entry_event(id: Uuid, state: PlayerState) -> (r: Option<SessionEvent>)
    ensures
        match r {
            Some(e) => entry_event(id, state) == Some(e@),
            None => entry_event(id, state) is None,
        },
{
    match state {
        PlayerState::Resolving => Some(SessionEvent::Resolving { id }),
        PlayerState::Playing => Some(SessionEvent::Playing { id }),
        PlayerState::Paused => Some(SessionEvent::Paused { id }),
        PlayerState::Idle => Some(SessionEvent::Stopped { id }),
        PlayerState::Error => Some(
            SessionEvent::Error { id, message: owned("entered error state") },
        ),
        PlayerState::Buffering => Some(SessionEvent::Buffering { id, percent: 0 }),
        PlayerState::Seeking => None,
    }
}

// ---------------------------------------------------------------------------
// Sessions and their rows
// ---------------------------------------------------------------------------

/// What the resolver tells about a URL.
#[derive(Debug, Clone)]
pub struct ResolveInfo {
    /// The direct, playable media URL.
    pub direct_url: String,
    /// Media title, if available.
    pub title: Option<String>,
    /// Duration in milliseconds, if known.
    pub duration_ms: Option<u64>,
}

impl ResolveInfo {
    /// The part of a resolution that sessions keep.
    pub fn of_result(result: &ResolveResult) -> (r: ResolveInfo)
        ensures
            r.direct_url@ == result.direct_url@,
            opt_text(r.title) == opt_text(result.title),
            r.duration_ms == result.duration,
    {
        ResolveInfo {
            direct_url: owned(result.direct_url.as_str()),
            title: clone_opt(&result.title),
            duration_ms: result.duration,
        }
    }

    /// A URL that is played as it is.
    pub fn unresolved(url: &str) -> (r: ResolveInfo)
        ensures
            r.direct_url@ == url@,
            r.title is None,
            r.duration_ms is None,
    {
        ResolveInfo { direct_url: owned(url), title: None, duration_ms: None }
    }
}

/// A media playback session.
#[derive(Debug, Clone)]
pub struct MediaSession {
    /// Unique session identifier.
    pub id: Uuid,
    /// The URL the client requested.
    pub source_url: String,
    /// The resolved media URL.
    pub resolved_url: Option<String>,
    /// Current player state.
    pub state: PlayerState,
    /// Playback position in milliseconds.
    pub position_ms: u64,
    /// Total duration in milliseconds, if known.
    pub duration_ms: Option<u64>,
    /// Volume level.
    pub volume: u8,
    /// Media title.
    pub title: Option<String>,
    /// When the session was created.
    pub created_at: Timestamp,
    /// When the session was last updated.
    pub updated_at: Timestamp,
}

/// Mathematical counterpart of [`MediaSession`].
pub struct MediaModel {
    pub id: Uuid,
    pub source_url: Seq<char>,
    pub resolved_url: Option<Seq<char>>,
    pub state: PlayerState,
    pub position_ms: u64,
    pub duration_ms: Option<u64>,
    pub volume: u8,
    pub title: Option<Seq<char>>,
    pub created_at: Timestamp,
    pub updated_at: Timestamp,
}

impl View for MediaSession {
    type V = MediaModel;

    open spec fn view(&self) -> MediaModel {
        MediaModel {
            id: self.id,
            source_url: self.source_url@,
            resolved_url: opt_text(self.resolved_url),
            state: self.state,
            position_ms: self.position_ms,
            duration_ms: self.duration_ms,
            volume: self.volume,
            title: opt_text(self.title),
            created_at: self.created_at,
            updated_at: self.updated_at,
        }
    }
}

/// A brand-new session.
pub open spec fn new_media(url: Seq<char>, id: Uuid, now: Timestamp) -> MediaModel {
    MediaModel {
        id,
        source_url: url,
        resolved_url: None,
        state: PlayerState::Idle,
        position_ms: 0,
        duration_ms: None,
        volume: 100,
        title: None,
        created_at: now,
        updated_at: now,
    }
}

impl MediaSession {
    /// A brand-new session with a given id, at a given time.
    pub fn new_at(source_url: String, id: Uuid, now: Timestamp) -> (r: MediaSession)
        ensures
            r@ == new_media(source_url@, id, now),
    {
        MediaSession {
            id,
            source_url,
            resolved_url: None,
            state: PlayerState::Idle,
            position_ms: 0,
            duration_ms: None,
            volume: 100,
            title: None,
            created_at: now,
            updated_at: now,
        }
    }

    /// A brand-new session with a random id.
    pub fn new(source_url: String) -> (r: MediaSession)
        ensures
            r@ == new_media(source_url@, r.id, r.created_at),
            marked_random(r.id.bits),
            representable(r.created_at),
    {
        let id = fresh_uuid();
        let now = utc_now();
        MediaSession::new_at(source_url, id, now)
    }
}

/// A row of the session table.
#[derive(Debug, Clone)]
pub struct SessionRow {
    pub id: String,
    pub source_url: String,
    pub resolved_url: Option<String>,
    pub state: String,
    pub position_ms: i64,
    pub duration_ms: Option<i64>,
    pub volume: i32,
    pub title: Option<String>,
    pub created_at: String,
    pub updated_at: String,
}

/// Mathematical counterpart of [`SessionRow`].
pub struct RowModel {
    pub id: Seq<char>,
    pub source_url: Seq<char>,
    pub resolved_url: Option<Seq<char>>,
    pub state: Seq<char>,
    pub position_ms: i64,
    pub duration_ms: Option<i64>,
    pub volume: i32,
    pub title: Option<Seq<char>>,
    pub created_at: Seq<char>,
    pub updated_at: Seq<char>,
}

impl View for SessionRow {
    type V = RowModel;

    open spec fn view(&self) -> RowModel {
        RowModel {
            id: self.id@,
            source_url: self.source_url@,
            resolved_url: opt_text(self.resolved_url),
            state: self.state@,
            position_ms: self.position_ms,
            duration_ms: self.duration_ms,
            volume: self.volume,
            title: opt_text(self.title),
            created_at: self.created_at@,
            updated_at: self.updated_at@,
        }
    }
}

/// The row that a session is stored in.
pub open spec fn row_of(m: MediaModel) -> RowModel {
    RowModel {
        id: uuid_text(m.id.bits),
        source_url: m.source_url,
        resolved_url: m.resolved_url,
        state: player_name(m.state),
        position_ms: signed64(m.position_ms),
        duration_ms: opt_signed64(m.duration_ms),
        volume: m.volume as i32,
        title: m.title,
        created_at: stamp_text(m.created_at),
        updated_at: stamp_text(m.updated_at),
    }
}

/// The error of a stored value that cannot be read.
pub open spec fn corrupt(what: Seq<char>, value: Seq<char>, cause: Seq<char>) -> SessionFault {
    SessionFault::Subsystem("corrupt "@ + what + " '"@ + value + "': "@ + cause)
}

/// The session that a row holds, or what is wrong with the row.
pub open spec fn media_of(row: RowModel) -> Result<MediaModel, SessionFault> {
    match uuid_parse(row.id) {
        Err(cause) => Err(corrupt("session ID"@, row.id, cause)),
        Ok(bits) => match player_parse(row.state) {
            Err(cause) => Err(corrupt("session state"@, row.state, cause)),
            Ok(state) => match moment_parse(row.created_at) {
                Err(cause) => Err(corrupt("created_at"@, row.created_at, cause)),
                Ok(created) => match moment_parse(row.updated_at) {
                    Err(cause) => Err(corrupt("updated_at"@, row.updated_at, cause)),
                    Ok(updated) => Ok(
                        MediaModel {
                            id: Uuid { bits },
                            source_url: row.source_url,
                            resolved_url: row.resolved_url,
                            state,
                            position_ms: unsigned64(row.position_ms),
                            duration_ms: opt_unsigned64(row.duration_ms),
                            volume: if 0 <= row.volume <= 255 {
                                row.volume as u8
                            } else {
                                100
                            },
                            title: row.title,
                            created_at: Timestamp { secs: created.0, nanos: created.1 },
                            updated_at: Timestamp { secs: updated.0, nanos: updated.1 },
                        },
                    ),
                },
            },
        },
    }
}

/// The row to store a session in. Reading it gives the session back, where its
/// times have a written form.
pub fn make_row(session: &MediaSession) -> (r: SessionRow)
    ensures
        r@ == row_of(session@),
        representable(session.created_at) && representable(session.updated_at) ==> media_of(r@)
            == Ok::<MediaModel, SessionFault>(session@),
{
    proof {
        lemma_player_name_round_trip(session.state);
    }
    SessionRow {
        id: write_uuid(session.id),
        source_url: owned(session.source_url.as_str()),
        resolved_url: clone_opt(&session.resolved_url),
        state: session.state.name(),
        position_ms: to_signed64(session.position_ms),
        duration_ms: match session.duration_ms {
            Some(d) => Some(to_signed64(d)),
            None => None,
        },
        volume: session.volume as i32,
        title: clone_opt(&session.title),
        created_at: stamp(session.created_at),
        updated_at: stamp(session.updated_at),
    }
}

fn corrupt_value(what: &str, value: &str, cause: &str) -> (r: SessionError)
    ensures
        r@ == corrupt(what@, value@, cause@),
{
    let mut m = join3("corrupt ", what, " '");
    push_text(&mut m, value);
    push_text(&mut m, "': ");
    push_text(&mut m, cause);
    SessionError::Subsystem(m)
}

/// Reads the session that a row holds.
pub fn read_row(row: &SessionRow) -> (r: Result<MediaSession, SessionError>)
    ensures
        match media_of(row@) {
            Ok(m) => r matches Ok(s) && s@ == m,
            Err(fault) => r matches Err(e) && e@ == fault,
        },
{
    let id = match read_uuid(row.id.as_str()) {
        Ok(id) => id,
        Err(cause) => {
            return Err(corrupt_value("session ID", row.id.as_str(), cause.as_str()));
        },
    };
    let state = match PlayerState::parse_name(row.state.as_str()) {
        Ok(state) => state,
        Err(cause) => {
            return Err(corrupt_value("session state", row.state.as_str(), cause.as_str()));
        },
    };
    let created_at = match read_moment(row.created_at.as_str()) {
        Ok(t) => t,
        Err(cause) => {
            return Err(corrupt_value("created_at", row.created_at.as_str(), cause.as_str()));
        },
    };
    let updated_at = match read_moment(row.updated_at.as_str()) {
        Ok(t) => t,
        Err(cause) => {
            return Err(corrupt_value("updated_at", row.updated_at.as_str(), cause.as_str()));
        },
    };
    Ok(
        MediaSession {
            id,
            source_url: owned(row.source_url.as_str()),
            resolved_url: clone_opt(&row.resolved_url),
            state,
            position_ms: to_unsigned64(row.position_ms),
            duration_ms: match row.duration_ms {
                Some(d) => Some(to_unsigned64(d)),
                None => None,
            },
            volume: if 0 <= row.volume && row.volume <= 255 {
                row.volume as u8
            } else {
                100
            },
            title: clone_opt(&row.title),
            created_at,
            updated_at,
        },
    )
}

// ---------------------------------------------------------------------------
// Laws
// ---------------------------------------------------------------------------

/// The player follows the same transition table as the state machine.
pub proof fn lemma_tables_agree(from: PlayerState, to: PlayerState)
    ensures
        player_may_follow(from, to) == may_follow(machine_kind(from), machine_kind(to)),
{
}

/// Reading a state's name gives the state back.
pub proof fn lemma_player_name_round_trip(state: PlayerState)
    ensures
        player_of_name(player_name(state)) == Some(state),
{
    reveal_strlit("idle");
    reveal_strlit("resolving");
    reveal_strlit("buffering");
    reveal_strlit("playing");
    reveal_strlit("paused");
    reveal_strlit("seeking");
    reveal_strlit("error");
    assert("idle"@[0] == 'i');
    assert("resolving"@[0] == 'r');
    assert("buffering"@[0] == 'b');
    assert("playing"@[1] == 'l');
    assert("paused"@[1] == 'a');
    assert("playing"@[0] == 'p');
    assert("seeking"@[0] == 's');
    assert("error"@[0] == 'e');
}

/// From every state but idle, idle can be reached in one step.
pub proof fn lemma_idle_reachable(state: PlayerState)
    requires
        state != PlayerState::Idle,
    ensures
        player_may_follow(state, PlayerState::Idle),
{
}

} // verus!
