//! The session state machine: states, commands, and the transitions between
//! them, without any subsystem attached.

use crate::clock::{
    fresh_uuid, marked_random, representable, utc_now, uuid_text, write_uuid, Timestamp, Uuid,
};
use crate::text::{
    chars_of, decimal_text, find, find_chars, is_alpha, is_digit, join2, join3, number_text, owned,
    push_text, quote, quoted,
};
use vstd::prelude::*;

verus! {

// ---------------------------------------------------------------------------
// Errors
// ---------------------------------------------------------------------------

/// Machine-readable error code.
#[derive(Debug, Clone, Copy, PartialEq, Eq, Structural)]
pub enum ErrorCode {
    /// No active session for the command.
    NoActiveSession,
    /// A session is already active.
    SessionActive,
    /// The requested session id was not found.
    NotFound,
    /// The supplied URL is missing or malformed.
    InvalidUrl,
    /// The command is not allowed in the current state.
    InvalidState,
    /// The transition between two states is not permitted.
    InvalidTransition,
    /// A subsystem returned an error.
    Subsystem,
    /// URL resolution failed.
    ResolutionFailed,
    /// The playback engine rejected the command.
    Playback,
    /// The display subsystem rejected the command.
    Display,
    /// Catch-all for unexpected internal failures.
    Internal,
}

/// The wire form of an error code.
pub open spec fn code_text(code: ErrorCode) -> Seq<char> {
    match code {
        ErrorCode::NoActiveSession => "NO_ACTIVE_SESSION"@,
        ErrorCode::SessionActive => "SESSION_ACTIVE"@,
        ErrorCode::NotFound => "NOT_FOUND"@,
        ErrorCode::InvalidUrl => "INVALID_URL"@,
        ErrorCode::InvalidState => "INVALID_STATE"@,
        ErrorCode::InvalidTransition => "INVALID_TRANSITION"@,
        ErrorCode::Subsystem => "SUBSYSTEM"@,
        ErrorCode::ResolutionFailed => "RESOLUTION_FAILED"@,
        ErrorCode::Playback => "PLAYBACK"@,
        ErrorCode::Display => "DISPLAY"@,
        ErrorCode::Internal => "INTERNAL"@,
    }
}

impl ErrorCode {
    /// The wire form of the code.
    pub fn text(&self) -> (r: String)
        ensures
            r@ == code_text(*self),
    {
        match self {
            ErrorCode::NoActiveSession => owned("NO_ACTIVE_SESSION"),
            ErrorCode::SessionActive => owned("SESSION_ACTIVE"),
            ErrorCode::NotFound => owned("NOT_FOUND"),
            ErrorCode::InvalidUrl => owned("INVALID_URL"),
            ErrorCode::InvalidState => owned("INVALID_STATE"),
            ErrorCode::InvalidTransition => owned("INVALID_TRANSITION"),
            ErrorCode::Subsystem => owned("SUBSYSTEM"),
            ErrorCode::ResolutionFailed => owned("RESOLUTION_FAILED"),
            ErrorCode::Playback => owned("PLAYBACK"),
            ErrorCode::Display => owned("DISPLAY"),
            ErrorCode::Internal => owned("INTERNAL"),
        }
    }
}

/// Errors returned by the state machine.
#[derive(Debug)]
pub enum StateMachineError {
    /// An invalid state transition was attempted.
    InvalidTransition { from: SessionStateKind, to: SessionStateKind },
    /// The command is not valid in the current state.
    InvalidCommand { state: SessionStateKind, command: &'static str },
    /// No active session was found.
    NoActiveSession,
    /// A session is already active and cannot be replaced.
    SessionActive,
    /// The supplied URL was rejected.
    InvalidUrl(String),
    /// A subsystem returned an error.
    Subsystem { code: ErrorCode, message: String },
}

/// Mathematical counterpart of [`StateMachineError`].
pub enum MachineFault {
    InvalidTransition { from: SessionStateKind, to: SessionStateKind },
    InvalidCommand { state: SessionStateKind, command: Seq<char> },
    NoActiveSession,
    SessionActive,
    InvalidUrl(Seq<char>),
    Subsystem { code: ErrorCode, message: Seq<char> },
}

impl View for StateMachineError {
    type V = MachineFault;

    open spec fn view(&self) -> MachineFault {
        match self {
            StateMachineError::InvalidTransition { from, to } => MachineFault::InvalidTransition {
                from: *from,
                to: *to,
            },
            StateMachineError::InvalidCommand { state, command } => MachineFault::InvalidCommand {
                state: *state,
                command: command@,
            },
            StateMachineError::NoActiveSession => MachineFault::NoActiveSession,
            StateMachineError::SessionActive => MachineFault::SessionActive,
            StateMachineError::InvalidUrl(url) => MachineFault::InvalidUrl(url@),
            StateMachineError::Subsystem { code, message } => MachineFault::Subsystem {
                code: *code,
                message: message@,
            },
        }
    }
}

/// The code of an error.
pub open spec fn fault_code(fault: MachineFault) -> ErrorCode {
    match fault {
        MachineFault::InvalidTransition { .. } => ErrorCode::InvalidTransition,
        MachineFault::InvalidCommand { .. } => ErrorCode::InvalidState,
        MachineFault::NoActiveSession => ErrorCode::NoActiveSession,
        MachineFault::SessionActive => ErrorCode::SessionActive,
        MachineFault::InvalidUrl(_) => ErrorCode::InvalidUrl,
        MachineFault::Subsystem { code, .. } => code,
    }
}

/// How an error reads.
pub open spec fn machine_fault_text(fault: MachineFault) -> Seq<char> {
    match fault {
        MachineFault::InvalidTransition { from, to } =>
        "invalid state transition: cannot go from "@ + kind_name(from) + " to "@ + kind_name(to),
        MachineFault::InvalidCommand { state, command } => "invalid command "@ + command
            + " in state "@ + kind_name(state),
        MachineFault::NoActiveSession => "no active session"@,
        MachineFault::SessionActive =>
        "session already active \u{2014} stop the current session first"@,
        MachineFault::InvalidUrl(url) => "invalid url: "@ + url,
        MachineFault::Subsystem { code, message } => "subsystem error ("@ + code_text(code) + "): "@
            + message,
    }
}

impl StateMachineError {
    /// The canonical code of this error.
    pub fn code(&self) -> (r: ErrorCode)
        ensures
            r == fault_code(self@),
    {
        match self {
            StateMachineError::InvalidTransition { .. } => ErrorCode::InvalidTransition,
            StateMachineError::InvalidCommand { .. } => ErrorCode::InvalidState,
            StateMachineError::NoActiveSession => ErrorCode::NoActiveSession,
            StateMachineError::SessionActive => ErrorCode::SessionActive,
            StateMachineError::InvalidUrl(_) => ErrorCode::InvalidUrl,
            StateMachineError::Subsystem { code, .. } => *code,
        }
    }

    /// How the error reads.
    pub fn message(&self) -> (r: String)
        ensures
            r@ == machine_fault_text(self@),
    {
        match self {
            StateMachineError::InvalidTransition { from, to } => {
                let mut r = join3(
                    "invalid state transition: cannot go from ",
                    from.name().as_str(),
                    " to ",
                );
                push_text(&mut r, to.name().as_str());
                r
            },
            StateMachineError::InvalidCommand { state, command } => {
                let mut r = join3("invalid command ", command, " in state ");
                push_text(&mut r, state.name().as_str());
                r
            },
            StateMachineError::NoActiveSession => owned("no active session"),
            StateMachineError::SessionActive => owned(
                "session already active \u{2014} stop the current session first",
            ),
            StateMachineError::InvalidUrl(url) => join2("invalid url: ", url.as_str()),
            StateMachineError::Subsystem { code, message } => {
                let mut r = join3("subsystem error (", code.text().as_str(), "): ");
                push_text(&mut r, message.as_str());
                r
            },
        }
    }
}

// ---------------------------------------------------------------------------
// States
// ---------------------------------------------------------------------------

/// The kinds of states.
#[derive(Debug, Clone, Copy, PartialEq, Eq, Structural)]
pub enum SessionStateKind {
    /// No media loaded.
    Idle,
    /// URL is being resolved.
    Resolving,
    /// Media has been resolved and is buffering.
    Buffering,
    /// Actively decoding and rendering media.
    Playing,
    /// Playback is paused.
    Paused,
    /// A seek operation is in progress.
    Seeking,
    /// An unrecoverable error occurred.
    Error,
}

/// The name of a kind of state.
pub open spec fn kind_name(kind: SessionStateKind) -> Seq<char> {
    match kind {
        SessionStateKind::Idle => "idle"@,
        SessionStateKind::Resolving => "resolving"@,
        SessionStateKind::Buffering => "buffering"@,
        SessionStateKind::Playing => "playing"@,
        SessionStateKind::Paused => "paused"@,
        SessionStateKind::Seeking => "seeking"@,
        SessionStateKind::Error => "error"@,
    }
}

impl SessionStateKind {
    /// The name of the kind.
    pub fn name(&self) -> (r: String)
        ensures
            r@ == kind_name(*self),
    {
        match self {
            SessionStateKind::Idle => owned("idle"),
            SessionStateKind::Resolving => owned("resolving"),
            SessionStateKind::Buffering => owned("buffering"),
            SessionStateKind::Playing => owned("playing"),
            SessionStateKind::Paused => owned("paused"),
            SessionStateKind::Seeking => owned("seeking"),
            SessionStateKind::Error => owned("error"),
        }
    }
}

/// Which states may follow which: work goes forward from idle to playing, an
/// error is possible from everywhere but an error, and everything but idle may
/// go back to idle.
pub open spec fn may_follow(from: SessionStateKind, to: SessionStateKind) -> bool {
    match from {
        SessionStateKind::Idle => to == SessionStateKind::Resolving || to
            == SessionStateKind::Error,
        SessionStateKind::Resolving => to == SessionStateKind::Buffering || to
            == SessionStateKind::Error || to == SessionStateKind::Idle,
        SessionStateKind::Buffering => to == SessionStateKind::Playing || to
            == SessionStateKind::Paused || to == SessionStateKind::Error || to
            == SessionStateKind::Idle,
        SessionStateKind::Playing => to == SessionStateKind::Paused || to
            == SessionStateKind::Seeking || to == SessionStateKind::Buffering || to
            == SessionStateKind::Error || to == SessionStateKind::Idle,
        SessionStateKind::Paused => to == SessionStateKind::Playing || to
            == SessionStateKind::Seeking || to == SessionStateKind::Error || to
            == SessionStateKind::Idle,
        SessionStateKind::Seeking => to == SessionStateKind::Playing || to
            == SessionStateKind::Error || to == SessionStateKind::Idle,
        SessionStateKind::Error => to == SessionStateKind::Idle,
    }
}

/// Full state of the machine.
#[allow(inconsistent_fields)]
#[derive(Debug, Clone, PartialEq, Eq)]
pub enum SessionState {
    /// No media loaded.
    Idle,
    /// URL is being resolved.
    Resolving { id: Uuid, source_url: String },
    /// Media has been resolved and is buffering.
    Buffering { id: Uuid, source_url: String, resolved_url: String },
    /// Actively decoding and rendering media.
    Playing { id: Uuid, source_url: String, resolved_url: String },
    /// Playback is paused.
    Paused { id: Uuid, source_url: String, resolved_url: String },
    /// A seek to `target_ms` is in progress.
    Seeking { id: Uuid, source_url: String, resolved_url: String, target_ms: u64 },
    /// An unrecoverable error occurred.
    Error { id: Option<Uuid>, message: String },
}

/// Mathematical counterpart of [`SessionState`].
#[allow(inconsistent_fields)]
pub enum StateModel {
    Idle,
    Resolving { id: Uuid, source_url: Seq<char> },
    Buffering { id: Uuid, source_url: Seq<char>, resolved_url: Seq<char> },
    Playing { id: Uuid, source_url: Seq<char>, resolved_url: Seq<char> },
    Paused { id: Uuid, source_url: Seq<char>, resolved_url: Seq<char> },
    Seeking { id: Uuid, source_url: Seq<char>, resolved_url: Seq<char>, target_ms: u64 },
    Error { id: Option<Uuid>, message: Seq<char> },
}

impl View for SessionState {
    type V = StateModel;

    open spec fn view(&self) -> StateModel {
        match self {
            SessionState::Idle => StateModel::Idle,
            SessionState::Resolving { id, source_url } => StateModel::Resolving {
                id: *id,
                source_url: source_url@,
            },
            SessionState::Buffering { id, source_url, resolved_url } => StateModel::Buffering {
                id: *id,
                source_url: source_url@,
                resolved_url: resolved_url@,
            },
            SessionState::Playing { id, source_url, resolved_url } => StateModel::Playing {
                id: *id,
                source_url: source_url@,
                resolved_url: resolved_url@,
            },
            SessionState::Paused { id, source_url, resolved_url } => StateModel::Paused {
                id: *id,
                source_url: source_url@,
                resolved_url: resolved_url@,
            },
            SessionState::Seeking { id, source_url, resolved_url, target_ms } =>
            StateModel::Seeking {
                id: *id,
                source_url: source_url@,
                resolved_url: resolved_url@,
                target_ms: *target_ms,
            },
            SessionState::Error { id, message } => StateModel::Error {
                id: *id,
                message: message@,
            },
        }
    }
}

/// The kind of a state.
pub open spec fn kind_of(state: StateModel) -> SessionStateKind {
    match state {
        StateModel::Idle => SessionStateKind::Idle,
        StateModel::Resolving { .. } => SessionStateKind::Resolving,
        StateModel::Buffering { .. } => SessionStateKind::Buffering,
        StateModel::Playing { .. } => SessionStateKind::Playing,
        StateModel::Paused { .. } => SessionStateKind::Paused,
        StateModel::Seeking { .. } => SessionStateKind::Seeking,
        StateModel::Error { .. } => SessionStateKind::Error,
    }
}

/// The session that a state belongs to.
pub open spec fn id_of(state: StateModel) -> Option<Uuid> {
    match state {
        StateModel::Idle => None,
        StateModel::Resolving { id, .. } => Some(id),
        StateModel::Buffering { id, .. } => Some(id),
        StateModel::Playing { id, .. } => Some(id),
        StateModel::Paused { id, .. } => Some(id),
        StateModel::Seeking { id, .. } => Some(id),
        StateModel::Error { id, .. } => id,
    }
}

/// How a state reads.
pub open spec fn state_text(state: StateModel) -> Seq<char> {
    match state {
        StateModel::Idle => "idle"@,
        StateModel::Resolving { id, .. } => "resolving("@ + uuid_text(id.bits) + ")"@,
        StateModel::Buffering { id, .. } => "buffering("@ + uuid_text(id.bits) + ")"@,
        StateModel::Playing { id, .. } => "playing("@ + uuid_text(id.bits) + ")"@,
        StateModel::Paused { id, .. } => "paused("@ + uuid_text(id.bits) + ")"@,
        StateModel::Seeking { id, target_ms, .. } => "seeking("@ + uuid_text(id.bits) + ", "@
            + decimal_text(target_ms as nat) + "ms)"@,
        StateModel::Error { id, message } => match id {
            Some(id) => "error("@ + uuid_text(id.bits) + ", "@ + quoted(message) + ")"@,
            None => "error("@ + quoted(message) + ")"@,
        },
    }
}

impl SessionState {
    /// The kind of this state.
    pub fn kind(&self) -> (r: SessionStateKind)
        ensures
            r == kind_of(self@),
    {
        match self {
            SessionState::Idle => SessionStateKind::Idle,
            SessionState::Resolving { .. } => SessionStateKind::Resolving,
            SessionState::Buffering { .. } => SessionStateKind::Buffering,
            SessionState::Playing { .. } => SessionStateKind::Playing,
            SessionState::Paused { .. } => SessionStateKind::Paused,
            SessionState::Seeking { .. } => SessionStateKind::Seeking,
            SessionState::Error { .. } => SessionStateKind::Error,
        }
    }

    /// The session that this state belongs to.
    pub fn id(&self) -> (r: Option<Uuid>)
        ensures
            r == id_of(self@),
    {
        match self {
            SessionState::Idle => None,
            SessionState::Error { id, .. } => *id,
            SessionState::Resolving { id, .. } => Some(*id),
            SessionState::Buffering { id, .. } => Some(*id),
            SessionState::Playing { id, .. } => Some(*id),
            SessionState::Paused { id, .. } => Some(*id),
            SessionState::Seeking { id, .. } => Some(*id),
        }
    }

    /// Whether the state is neither idle nor an error.
    pub fn is_active(&self) -> (r: bool)
        ensures
            r == (kind_of(self@) != SessionStateKind::Idle && kind_of(self@)
                != SessionStateKind::Error),
    {
        match self {
            SessionState::Idle => false,
            SessionState::Error { .. } => false,
            _ => true,
        }
    }

    /// Whether only a stop leads out of the state.
    pub fn requires_stop(&self) -> (r: bool)
        ensures
            r == (kind_of(self@) == SessionStateKind::Error),
    {
        match self {
            SessionState::Error { .. } => true,
            _ => false,
        }
    }

    /// Whether `target` may follow this state.
    pub fn can_transition_to(&self, target: SessionStateKind) -> (r: bool)
        ensures
            r == may_follow(kind_of(self@), target),
    {
        match self.kind() {
            SessionStateKind::Idle => target == SessionStateKind::Resolving || target
                == SessionStateKind::Error,
            SessionStateKind::Resolving => target == SessionStateKind::Buffering || target
                == SessionStateKind::Error || target == SessionStateKind::Idle,
            SessionStateKind::Buffering => target == SessionStateKind::Playing || target
                == SessionStateKind::Paused || target == SessionStateKind::Error || target
                == SessionStateKind::Idle,
            SessionStateKind::Playing => target == SessionStateKind::Paused || target
                == SessionStateKind::Seeking || target == SessionStateKind::Buffering || target
                == SessionStateKind::Error || target == SessionStateKind::Idle,
            SessionStateKind::Paused => target == SessionStateKind::Playing || target
                == SessionStateKind::Seeking || target == SessionStateKind::Error || target
                == SessionStateKind::Idle,
            SessionStateKind::Seeking => target == SessionStateKind::Playing || target
                == SessionStateKind::Error || target == SessionStateKind::Idle,
            SessionStateKind::Error => target == SessionStateKind::Idle,
        }
    }

    /// A copy of the state.
    pub fn copy(&self) -> (r: SessionState)
        ensures
            r@ == self@,
    {
        match self {
            SessionState::Idle => SessionState::Idle,
            SessionState::Resolving { id, source_url } => SessionState::Resolving {
                id: *id,
                source_url: owned(source_url.as_str()),
            },
            SessionState::Buffering { id, source_url, resolved_url } => SessionState::Buffering {
                id: *id,
                source_url: owned(source_url.as_str()),
                resolved_url: owned(resolved_url.as_str()),
            },
            SessionState::Playing { id, source_url, resolved_url } => SessionState::Playing {
                id: *id,
                source_url: owned(source_url.as_str()),
                resolved_url: owned(resolved_url.as_str()),
            },
            SessionState::Paused { id, source_url, resolved_url } => SessionState::Paused {
                id: *id,
                source_url: owned(source_url.as_str()),
                resolved_url: owned(resolved_url.as_str()),
            },
            SessionState::Seeking { id, source_url, resolved_url, target_ms } =>
            SessionState::Seeking {
                id: *id,
                source_url: owned(source_url.as_str()),
                resolved_url: owned(resolved_url.as_str()),
                target_ms: *target_ms,
            },
            SessionState::Error { id, message } => SessionState::Error {
                id: *id,
                message: owned(message.as_str()),
            },
        }
    }

    /// How the state reads.
    pub fn text(&self) -> (r: String)
        ensures
            r@ == state_text(self@),
    {
        match self {
            SessionState::Idle => owned("idle"),
            SessionState::Resolving { id, .. } => join3(
                "resolving(",
                write_uuid(*id).as_str(),
                ")",
            ),
            SessionState::Buffering { id, .. } => join3(
                "buffering(",
                write_uuid(*id).as_str(),
                ")",
            ),
            SessionState::Playing { id, .. } => join3("playing(", write_uuid(*id).as_str(), ")"),
            SessionState::Paused { id, .. } => join3("paused(", write_uuid(*id).as_str(), ")"),
            SessionState::Seeking { id, target_ms, .. } => {
                let mut r = join3("seeking(", write_uuid(*id).as_str(), ", ");
                push_text(&mut r, number_text(*target_ms).as_str());
                push_text(&mut r, "ms)");
                r
            },
            SessionState::Error { id, message } => match id {
                Some(id) => {
                    let mut r = join3("error(", write_uuid(*id).as_str(), ", ");
                    push_text(&mut r, quote(message.as_str()).as_str());
                    push_text(&mut r, ")");
                    r
                },
                None => join3("error(", quote(message.as_str()).as_str(), ")"),
            },
        }
    }
}

impl Default for SessionState {
    fn default() -> (r: Self)
        ensures
            r == SessionState::Idle,
    {
        SessionState::Idle
    }
}

// ---------------------------------------------------------------------------
// Commands
// ---------------------------------------------------------------------------

/// A command to the state machine.
#[derive(Debug, Clone, PartialEq, Eq)]
pub enum CastCommand {
    /// Load a fresh URL. Valid only from idle.
    Load { url: String },
    /// Pause playback. Valid while playing or buffering.
    Pause,
    /// Resume. Valid while paused or buffering.
    Resume,
    /// Stop and return to idle.
    Stop,
    /// Seek. Valid while playing or paused.
    Seek { position_ms: u64 },
    /// Adjust the volume; clamped to 100.
    SetVolume { volume: u8 },
}

/// Mathematical counterpart of [`CastCommand`].
pub enum CommandModel {
    Load { url: Seq<char> },
    Pause,
    Resume,
    Stop,
    Seek { position_ms: u64 },
    SetVolume { volume: u8 },
}

impl View for CastCommand {
    type V = CommandModel;

    open spec fn view(&self) -> CommandModel {
        match self {
            CastCommand::Load { url } => CommandModel::Load { url: url@ },
            CastCommand::Pause => CommandModel::Pause,
            CastCommand::Resume => CommandModel::Resume,
            CastCommand::Stop => CommandModel::Stop,
            CastCommand::Seek { position_ms } => CommandModel::Seek { position_ms: *position_ms },
            CastCommand::SetVolume { volume } => CommandModel::SetVolume { volume: *volume },
        }
    }
}

/// The name of a command.
pub open spec fn command_name(command: CommandModel) -> Seq<char> {
    match command {
        CommandModel::Load { .. } => "load"@,
        CommandModel::Pause => "pause"@,
        CommandModel::Resume => "resume"@,
        CommandModel::Stop => "stop"@,
        CommandModel::Seek { .. } => "seek"@,
        CommandModel::SetVolume { .. } => "set_volume"@,
    }
}

impl CastCommand {
    /// The canonical name of the command.
    pub fn name(&self) -> (r: &'static str)
        ensures
            r@ == command_name(self@),
    {
        match self {
            CastCommand::Load { .. } => "load",
            CastCommand::Pause => "pause",
            CastCommand::Resume => "resume",
            CastCommand::Stop => "stop",
            CastCommand::Seek { .. } => "seek",
            CastCommand::SetVolume { .. } => "set_volume",
        }
    }
}

// ---------------------------------------------------------------------------
// URLs
// ---------------------------------------------------------------------------

pub open spec fn is_scheme_char(c: char) -> bool {
    is_alpha(c) || is_digit(c) || c == '+' || c == '-' || c == '.'
}

/// Whether a text is a URL scheme: a letter, then letters, digits, `+`, `-`
/// and `.`.
pub open spec fn is_scheme(s: Seq<char>) -> bool {
    &&& s.len() > 0
    &&& is_alpha(s[0])
    &&& forall|i: int| 1 <= i < s.len() ==> is_scheme_char(#[trigger] s[i])
}

/// Whether a text is structurally a URL: a scheme, `://`, and something behind.
pub open spec fn castable(url: Seq<char>) -> bool {
    match find(url, "://"@) {
        Some(k) => is_scheme(url.take(k)) && k + 3 < url.len(),
        None => false,
    }
}

/// Whether a URL can be loaded.
pub fn is_valid_cast_url(url: &str) -> (r: bool)
    ensures
        r == castable(url@),
{
    proof {
        reveal_strlit("://");
    }
    let v = chars_of(url);
    let mark = chars_of("://");
    let total: usize = v.len();
    let end: usize = match find_chars(&v, &mark, 0) {
        Some(k) => k,
        None => {
            return false;
        },
    };
    if end == 0 {
        return false;
    }
    let first = v[0];
    if !(('a' <= first && first <= 'z') || ('A' <= first && first <= 'Z')) {
        assert(url@.take(end as int)[0] == first);
        return false;
    }
    let mut i: usize = 1;
    while i < end
        invariant
            1 <= i <= end <= total == v@.len(),
            v@ == url@,
            find(url@, "://"@) == Some(end as int),
            forall|k: int| 1 <= k < i ==> is_scheme_char(#[trigger] url@[k]),
        decreases end - i,
    {
        let c = v[i];
        if !(('a' <= c && c <= 'z') || ('A' <= c && c <= 'Z') || ('0' <= c && c <= '9') || c == '+'
            || c == '-' || c == '.') {
            assert(url@.take(end as int)[i as int] == c);
            return false;
        }
        i = i + 1;
    }
    assert(is_scheme(url@.take(end as int))) by {
        assert(url@.take(end as int)[0] == first);
    }
    end + 3 < total
}

// ---------------------------------------------------------------------------
// Session
// ---------------------------------------------------------------------------

/// In-memory media session: the state machine and its playback metadata.
#[derive(Debug, Clone)]
pub struct Session {
    state: SessionState,
    id: Option<Uuid>,
    position_ms: u64,
    duration_ms: Option<u64>,
    volume: u8,
    created_at: Option<Timestamp>,
    updated_at: Timestamp,
}

/// Mathematical counterpart of [`Session`].
pub struct SessionModel {
    pub state: StateModel,
    pub id: Option<Uuid>,
    pub position_ms: u64,
    pub duration_ms: Option<u64>,
    pub volume: u8,
    pub created_at: Option<Timestamp>,
    pub updated_at: Timestamp,
}

impl View for Session {
    type V = SessionModel;

    closed spec fn view(&self) -> SessionModel {
        SessionModel {
            state: self.state@,
            id: self.id,
            position_ms: self.position_ms,
            duration_ms: self.duration_ms,
            volume: self.volume,
            created_at: self.created_at,
            updated_at: self.updated_at,
        }
    }
}

/// What holds of a session at all times: its id is that of its state, it has a
/// creation time exactly while it has an id, and its volume is at most 100.
pub open spec fn coherent(s: SessionModel) -> bool {
    &&& s.id == id_of(s.state)
    &&& s.created_at is Some <==> s.id is Some
    &&& s.volume <= 100
}

/// The session in another state.
pub open spec fn moved(s: SessionModel, state: StateModel, now: Timestamp) -> SessionModel {
    SessionModel { state, updated_at: now, ..s }
}

/// The session back at idle: only its volume is kept.
pub open spec fn stopped(s: SessionModel, now: Timestamp) -> SessionModel {
    SessionModel {
        state: StateModel::Idle,
        id: None,
        position_ms: 0,
        duration_ms: None,
        volume: s.volume,
        created_at: None,
        updated_at: now,
    }
}

/// The session after a reset, which leaves an idle one as it is.
pub open spec fn reset_to(s: SessionModel, now: Timestamp) -> SessionModel {
    if s.state is Idle {
        s
    } else {
        stopped(s, now)
    }
}

/// The rejection of a command in the present state.
pub open spec fn rejected(s: SessionModel, command: Seq<char>) -> Result<
    SessionModel,
    MachineFault,
> {
    Err(MachineFault::InvalidCommand { state: kind_of(s.state), command })
}

/// What a command makes of a session; `fresh` is the id of a session that is
/// loaded, `now` the time.
pub open spec fn handled(
    s: SessionModel,
    command: CommandModel,
    fresh: Uuid,
    now: Timestamp,
) -> Result<SessionModel, MachineFault> {
    match command {
        CommandModel::Load { url } => if !(s.state is Idle) {
            Err(MachineFault::SessionActive)
        } else if !castable(url) {
            Err(MachineFault::InvalidUrl(url))
        } else {
            Ok(
                SessionModel {
                    state: StateModel::Resolving { id: fresh, source_url: url },
                    id: Some(fresh),
                    position_ms: 0,
                    duration_ms: None,
                    volume: s.volume,
                    created_at: Some(now),
                    updated_at: now,
                },
            )
        },
        CommandModel::Pause => match s.state {
            StateModel::Playing { id, source_url, resolved_url } => Ok(
                moved(s, StateModel::Paused { id, source_url, resolved_url }, now),
            ),
            StateModel::Buffering { id, source_url, resolved_url } => Ok(
                moved(s, StateModel::Paused { id, source_url, resolved_url }, now),
            ),
            _ => rejected(s, "pause"@),
        },
        CommandModel::Resume => match s.state {
            StateModel::Paused { id, source_url, resolved_url } => Ok(
                moved(s, StateModel::Playing { id, source_url, resolved_url }, now),
            ),
            StateModel::Buffering { id, source_url, resolved_url } => Ok(
                moved(s, StateModel::Playing { id, source_url, resolved_url }, now),
            ),
            _ => rejected(s, "resume"@),
        },
        CommandModel::Stop => Ok(reset_to(s, now)),
        CommandModel::Seek { position_ms } => match s.state {
            StateModel::Playing { id, source_url, resolved_url } => Ok(
                moved(
                    s,
                    StateModel::Seeking { id, source_url, resolved_url, target_ms: position_ms },
                    now,
                ),
            ),
            StateModel::Paused { id, source_url, resolved_url } => Ok(
                moved(
                    s,
                    StateModel::Seeking { id, source_url, resolved_url, target_ms: position_ms },
                    now,
                ),
            ),
            _ => rejected(s, "seek"@),
        },
        CommandModel::SetVolume { volume } => if s.state is Idle {
            rejected(s, "set_volume"@)
        } else {
            Ok(
                SessionModel {
                    volume: if volume <= 100 {
                        volume
                    } else {
                        100
                    },
                    updated_at: now,
                    ..s
                },
            )
        },
    }
}

/// Resolution done: the session buffers.
pub open spec fn resolved_with(s: SessionModel, url: Seq<char>, now: Timestamp) -> Result<
    SessionModel,
    MachineFault,
> {
    match s.state {
        StateModel::Resolving { id, source_url } => Ok(
            moved(s, StateModel::Buffering { id, source_url, resolved_url: url }, now),
        ),
        _ => rejected(s, "resolve_ok"@),
    }
}

/// Something failed: the session is in error, unless it is already.
pub open spec fn failed_with(s: SessionModel, message: Seq<char>, now: Timestamp) -> Result<
    SessionModel,
    MachineFault,
> {
    if s.state is Error {
        Err(
            MachineFault::InvalidTransition {
                from: SessionStateKind::Error,
                to: SessionStateKind::Error,
            },
        )
    } else {
        Ok(moved(s, StateModel::Error { id: s.id, message }, now))
    }
}

/// Buffering done: the session plays.
pub open spec fn buffered(s: SessionModel, now: Timestamp) -> Result<SessionModel, MachineFault> {
    match s.state {
        StateModel::Buffering { id, source_url, resolved_url } => Ok(
            moved(s, StateModel::Playing { id, source_url, resolved_url }, now),
        ),
        _ => rejected(s, "buffer_full"@),
    }
}

/// Seek done: the session plays at the target.
pub open spec fn sought(s: SessionModel, now: Timestamp) -> Result<SessionModel, MachineFault> {
    match s.state {
        StateModel::Seeking { id, source_url, resolved_url, target_ms } => Ok(
            moved(
                SessionModel { position_ms: target_ms, ..s },
                StateModel::Playing { id, source_url, resolved_url },
                now,
            ),
        ),
        _ => rejected(s, "seek_done"@),
    }
}

/// Whether a session became, and a call returned, what was owed: the new
/// state, or an error and no change.
pub open spec fn answers(
    r: Result<SessionState, StateMachineError>,
    before: SessionModel,
    after: SessionModel,
    owed: Result<SessionModel, MachineFault>,
) -> bool {
    match owed {
        Ok(m) => {
            &&& after == m
            &&& r matches Ok(state) && state@ == m.state
        },
        Err(fault) => {
            &&& after == before
            &&& r matches Err(e) && e@ == fault
        },
    }
}

impl Session {
    /// Create a fresh idle session with full volume, at a given time.
    pub fn new_at(now: Timestamp) -> (r: Self)
        ensures
            r@ == (SessionModel {
                state: StateModel::Idle,
                id: None,
                position_ms: 0,
                duration_ms: None,
                volume: 100,
                created_at: None,
                updated_at: now,
            }),
            coherent(r@),
    {
        Session {
            state: SessionState::Idle,
            id: None,
            position_ms: 0,
            duration_ms: None,
            volume: 100,
            created_at: None,
            updated_at: now,
        }
    }

    /// Create a fresh idle session with full volume.
    pub fn new() -> (r: Self)
        ensures
            r@ == (SessionModel {
                state: StateModel::Idle,
                id: None,
                position_ms: 0,
                duration_ms: None,
                volume: 100,
                created_at: None,
                updated_at: r@.updated_at,
            }),
            representable(r@.updated_at),
            coherent(r@),
    {
        Session::new_at(utc_now())
    }

    /// The current state.
    pub fn state(&self) -> (r: &SessionState)
        ensures
            r@ == self@.state,
    {
        &self.state
    }

    /// The active session id, if any.
    pub fn id(&self) -> (r: Option<Uuid>)
        ensures
            r == self@.id,
    {
        self.id
    }

    /// The current playback position in milliseconds.
    pub fn position_ms(&self) -> (r: u64)
        ensures
            r == self@.position_ms,
    {
        self.position_ms
    }

    /// The media duration in milliseconds, if known.
    pub fn duration_ms(&self) -> (r: Option<u64>)
        ensures
            r == self@.duration_ms,
    {
        self.duration_ms
    }

    /// The current volume.
    pub fn volume(&self) -> (r: u8)
        ensures
            r == self@.volume,
    {
        self.volume
    }

    /// When the active session was created, if any.
    pub fn created_at(&self) -> (r: Option<Timestamp>)
        ensures
            r == self@.created_at,
    {
        self.created_at
    }

    /// When the session was last updated.
    pub fn updated_at(&self) -> (r: Timestamp)
        ensures
            r == self@.updated_at,
    {
        self.updated_at
    }

    /// Back to idle at a given time, discarding all but the volume. A session
    /// that is idle already stays as it is.
    pub fn reset_at(&mut self, now: Timestamp)
        ensures
            final(self)@ == reset_to(old(self)@, now),
            coherent(old(self)@) ==> coherent(final(self)@),
    {
        match &self.state {
            SessionState::Idle => {
                return ;
            },
            _ => {},
        }
        self.state = SessionState::Idle;
        self.id = None;
        self.position_ms = 0;
        self.duration_ms = None;
        self.created_at = None;
        self.updated_at = now;
    }

    /// Back to idle, discarding all but the volume. A session that is idle
    /// already stays as it is.
    pub fn reset(&mut self)
        ensures
            final(self)@ == reset_to(old(self)@, final(self)@.updated_at),
            old(self)@.state is Idle || representable(final(self)@.updated_at),
            coherent(old(self)@) ==> coherent(final(self)@),
    {
        self.reset_at(utc_now());
    }

    /// Apply a command; `fresh` is the id of a session that is loaded, `now`
    /// the time.
    pub fn handle_at(&mut self, cmd: CastCommand, fresh: Uuid, now: Timestamp) -> (r: Result<
        SessionState,
        StateMachineError,
    >)
        ensures
            answers(r, old(self)@, final(self)@, handled(old(self)@, cmd@, fresh, now)),
            coherent(old(self)@) ==> coherent(final(self)@),
    {
        match cmd {
            CastCommand::Load { url } => self.load(url, fresh, now),
            CastCommand::Pause => self.pause(now),
            CastCommand::Resume => self.resume(now),
            CastCommand::Stop => {
                self.reset_at(now);
                Ok(self.state.copy())
            },
            CastCommand::Seek { position_ms } => self.seek(position_ms, now),
            CastCommand::SetVolume { volume } => {
                match &self.state {
                    SessionState::Idle => {
                        return self.reject("set_volume");
                    },
                    _ => {},
                }
                self.volume = if volume <= 100 {
                    volume
                } else {
                    100
                };
                self.updated_at = now;
                Ok(self.state.copy())
            },
        }
    }

    /// Apply a command now; a session that is loaded gets a random id.
    pub fn handle(&mut self, cmd: CastCommand) -> (r: Result<SessionState, StateMachineError>)
        ensures
            exists|fresh: Uuid, now: Timestamp|
                {
                    let owed = #[trigger] handled(old(self)@, cmd@, fresh, now);
                    &&& marked_random(fresh.bits)
                    &&& representable(now)
                    &&& answers(r, old(self)@, final(self)@, owed)
                },
            coherent(old(self)@) ==> coherent(final(self)@),
    {
        let fresh = fresh_uuid();
        let now = utc_now();
        self.handle_at(cmd, fresh, now)
    }

    fn reject(&self, command: &'static str) -> (r: Result<SessionState, StateMachineError>)
        ensures
            r matches Err(e) && e@ == (MachineFault::InvalidCommand {
                state: kind_of(self@.state),
                command: command@,
            }),
    {
        Err(StateMachineError::InvalidCommand { state: self.state.kind(), command })
    }

    fn load(&mut self, url: String, fresh: Uuid, now: Timestamp) -> (r: Result<
        SessionState,
        StateMachineError,
    >)
        ensures
            answers(
                r,
                old(self)@,
                final(self)@,
                handled(old(self)@, CommandModel::Load { url: url@ }, fresh, now),
            ),
    {
        match &self.state {
            SessionState::Idle => {},
            _ => {
                return Err(StateMachineError::SessionActive);
            },
        }
        if !is_valid_cast_url(url.as_str()) {
            return Err(StateMachineError::InvalidUrl(url));
        }
        self.state = SessionState::Resolving { id: fresh, source_url: url };
        self.id = Some(fresh);
        self.created_at = Some(now);
        self.updated_at = now;
        self.position_ms = 0;
        self.duration_ms = None;
        Ok(self.state.copy())
    }

    fn pause(&mut self, now: Timestamp) -> (r: Result<SessionState, StateMachineError>)
        ensures
            answers(
                r,
                old(self)@,
                final(self)@,
                handled(old(self)@, CommandModel::Pause, arbitrary(), now),
            ),
    {
        match self.state.copy() {
            SessionState::Playing { id, source_url, resolved_url } => self.transition_to(
                SessionState::Paused { id, source_url, resolved_url },
                now,
            ),
            SessionState::Buffering { id, source_url, resolved_url } => self.transition_to(
                SessionState::Paused { id, source_url, resolved_url },
                now,
            ),
            _ => self.reject("pause"),
        }
    }

    fn resume(&mut self, now: Timestamp) -> (r: Result<SessionState, StateMachineError>)
        ensures
            answers(
                r,
                old(self)@,
                final(self)@,
                handled(old(self)@, CommandModel::Resume, arbitrary(), now),
            ),
    {
        match self.state.copy() {
            SessionState::Paused { id, source_url, resolved_url } => self.transition_to(
                SessionState::Playing { id, source_url, resolved_url },
                now,
            ),
            SessionState::Buffering { id, source_url, resolved_url } => self.transition_to(
                SessionState::Playing { id, source_url, resolved_url },
                now,
            ),
            _ => self.reject("resume"),
        }
    }

    fn seek(&mut self, position_ms: u64, now: Timestamp) -> (r: Result<
        SessionState,
        StateMachineError,
    >)
        ensures
            answers(
                r,
                old(self)@,
                final(self)@,
                handled(old(self)@, CommandModel::Seek { position_ms }, arbitrary(), now),
            ),
    {
        match self.state.copy() {
            SessionState::Playing { id, source_url, resolved_url } => self.transition_to(
                SessionState::Seeking { id, source_url, resolved_url, target_ms: position_ms },
                now,
            ),
            SessionState::Paused { id, source_url, resolved_url } => self.transition_to(
                SessionState::Seeking { id, source_url, resolved_url, target_ms: position_ms },
                now,
            ),
            _ => self.reject("seek"),
        }
    }

    /// Goes into a state, where it may follow the present one.
    fn transition_to(&mut self, target: SessionState, now: Timestamp) -> (r: Result<
        SessionState,
        StateMachineError,
    >)
        ensures
            answers(
                r,
                old(self)@,
                final(self)@,
                if may_follow(kind_of(old(self)@.state), kind_of(target@)) {
                    Ok(moved(old(self)@, target@, now))
                } else {
                    Err(
                        MachineFault::InvalidTransition {
                            from: kind_of(old(self)@.state),
                            to: kind_of(target@),
                        },
                    )
                },
            ),
    {
        let kind = target.kind();
        if !self.state.can_transition_to(kind) {
            return Err(
                StateMachineError::InvalidTransition { from: self.state.kind(), to: kind },
            );
        }
        self.state = target;
        self.updated_at = now;
        Ok(self.state.copy())
    }

    /// Resolution is complete, at a given time.
    pub fn resolve_ok_at(&mut self, resolved_url: String, now: Timestamp) -> (r: Result<
        SessionState,
        StateMachineError,
    >)
        ensures
            answers(r, old(self)@, final(self)@, resolved_with(old(self)@, resolved_url@, now)),
            coherent(old(self)@) ==> coherent(final(self)@),
    {
        match self.state.copy() {
            SessionState::Resolving { id, source_url } => self.transition_to(
                SessionState::Buffering { id, source_url, resolved_url },
                now,
            ),
            _ => self.reject("resolve_ok"),
        }
    }

    /// Resolution is complete: enter buffering.
    pub fn resolve_ok(&mut self, resolved_url: String) -> (r: Result<
        SessionState,
        StateMachineError,
    >)
        ensures
            exists|now: Timestamp|
                {
                    let owed = #[trigger] resolved_with(old(self)@, resolved_url@, now);
                    &&& representable(now)
                    &&& answers(r, old(self)@, final(self)@, owed)
                },
            coherent(old(self)@) ==> coherent(final(self)@),
    {
        let now = utc_now();
        self.resolve_ok_at(resolved_url, now)
    }

    /// Something failed, at a given time.
    pub fn fail_at(&mut self, message: String, now: Timestamp) -> (r: Result<
        SessionState,
        StateMachineError,
    >)
        ensures
            answers(r, old(self)@, final(self)@, failed_with(old(self)@, message@, now)),
            coherent(old(self)@) ==> coherent(final(self)@),
    {
        let id = self.id;
        self.transition_to(SessionState::Error { id, message }, now)
    }

    /// Resolution failed: enter error.
    pub fn resolve_err(&mut self, message: String) -> (r: Result<SessionState, StateMachineError>)
        ensures
            exists|now: Timestamp|
                {
                    let owed = #[trigger] failed_with(old(self)@, message@, now);
                    &&& representable(now)
                    &&& answers(r, old(self)@, final(self)@, owed)
                },
            coherent(old(self)@) ==> coherent(final(self)@),
    {
        let now = utc_now();
        self.fail_at(message, now)
    }

    /// A subsystem failed beyond recovery: enter error.
    pub fn fail(&mut self, message: String) -> (r: Result<SessionState, StateMachineError>)
        ensures
            exists|now: Timestamp|
                {
                    let owed = #[trigger] failed_with(old(self)@, message@, now);
                    &&& representable(now)
                    &&& answers(r, old(self)@, final(self)@, owed)
                },
            coherent(old(self)@) ==> coherent(final(self)@),
    {
        let now = utc_now();
        self.fail_at(message, now)
    }

    /// Buffering is complete, at a given time.
    pub fn buffer_full_at(&mut self, now: Timestamp) -> (r: Result<
        SessionState,
        StateMachineError,
    >)
        ensures
            answers(r, old(self)@, final(self)@, buffered(old(self)@, now)),
            coherent(old(self)@) ==> coherent(final(self)@),
    {
        match self.state.copy() {
            SessionState::Buffering { id, source_url, resolved_url } => self.transition_to(
                SessionState::Playing { id, source_url, resolved_url },
                now,
            ),
            _ => self.reject("buffer_full"),
        }
    }

    /// Buffering is complete: enter playing.
    pub fn buffer_full(&mut self) -> (r: Result<SessionState, StateMachineError>)
        ensures
            exists|now: Timestamp|
                {
                    let owed = #[trigger] buffered(old(self)@, now);
                    &&& representable(now)
                    &&& answers(r, old(self)@, final(self)@, owed)
                },
            coherent(old(self)@) ==> coherent(final(self)@),
    {
        let now = utc_now();
        self.buffer_full_at(now)
    }

    /// A seek is complete, at a given time.
    pub fn seek_done_at(&mut self, now: Timestamp) -> (r: Result<SessionState, StateMachineError>)
        ensures
            answers(r, old(self)@, final(self)@, sought(old(self)@, now)),
            coherent(old(self)@) ==> coherent(final(self)@),
    {
        match self.state.copy() {
            SessionState::Seeking { id, source_url, resolved_url, target_ms } => {
                self.position_ms = target_ms;
                self.transition_to(SessionState::Playing { id, source_url, resolved_url }, now)
            },
            _ => self.reject("seek_done"),
        }
    }

    /// A seek is complete: return to playing, at the target.
    pub fn seek_done(&mut self) -> (r: Result<SessionState, StateMachineError>)
        ensures
            exists|now: Timestamp|
                {
                    let owed = #[trigger] sought(old(self)@, now);
                    &&& representable(now)
                    &&& answers(r, old(self)@, final(self)@, owed)
                },
            coherent(old(self)@) ==> coherent(final(self)@),
    {
        let now = utc_now();
        self.seek_done_at(now)
    }

    /// Report a playback position.
    pub fn position_update(&mut self, position_ms: u64)
        ensures
            final(self)@ == (SessionModel {
                position_ms,
                updated_at: final(self)@.updated_at,
                ..old(self)@
            }),
            representable(final(self)@.updated_at),
            coherent(old(self)@) ==> coherent(final(self)@),
    {
        self.position_ms = position_ms;
        self.updated_at = utc_now();
    }

    /// Report the media duration.
    pub fn set_duration(&mut self, duration_ms: u64)
        ensures
            final(self)@ == (SessionModel {
                duration_ms: Some(duration_ms),
                updated_at: final(self)@.updated_at,
                ..old(self)@
            }),
            representable(final(self)@.updated_at),
            coherent(old(self)@) ==> coherent(final(self)@),
    {
        self.duration_ms = Some(duration_ms);
        self.updated_at = utc_now();
    }
}

impl Default for Session {
    fn default() -> (r: Self)
        ensures
            r@ == (SessionModel {
                state: StateModel::Idle,
                id: None,
                position_ms: 0,
                duration_ms: None,
                volume: 100,
                created_at: None,
                updated_at: r@.updated_at,
            }),
            coherent(r@),
    {
        Session::new()
    }
}

// ---------------------------------------------------------------------------
// Laws
// ---------------------------------------------------------------------------

/// Commands move a session only along permitted transitions, or leave its
/// state as it is.
pub proof fn lemma_commands_follow_table(
    s: SessionModel,
    command: CommandModel,
    fresh: Uuid,
    now: Timestamp,
)
    requires
        handled(s, command, fresh, now) is Ok,
    ensures
        ({
            let after = handled(s, command, fresh, now)->Ok_0;
            after.state == s.state || may_follow(kind_of(s.state), kind_of(after.state))
        }),
{
}

/// What subsystems report moves a session only along permitted transitions.
pub proof fn lemma_reports_follow_table(s: SessionModel, text: Seq<char>, now: Timestamp)
    ensures
        resolved_with(s, text, now) matches Ok(m) ==> may_follow(kind_of(s.state), kind_of(m.state)),
        failed_with(s, text, now) matches Ok(m) ==> may_follow(kind_of(s.state), kind_of(m.state)),
        buffered(s, now) matches Ok(m) ==> may_follow(kind_of(s.state), kind_of(m.state)),
        sought(s, now) matches Ok(m) ==> may_follow(kind_of(s.state), kind_of(m.state)),
{
}

/// A reset session is idle, and resetting it again changes nothing.
pub proof fn lemma_reset_idempotent(s: SessionModel, now: Timestamp, later: Timestamp)
    ensures
        reset_to(s, now).state is Idle,
        reset_to(reset_to(s, now), later) == reset_to(s, now),
{
}

/// Whatever the state, a stop succeeds and leaves the session idle, with
/// nothing kept but its volume.
pub proof fn lemma_stop_always_idles(s: SessionModel, fresh: Uuid, now: Timestamp)
    requires
        coherent(s),
    ensures
        handled(s, CommandModel::Stop, fresh, now) matches Ok(after) && after.state is Idle
            && after.id is None && after.volume == s.volume,
{
}

/// No command changes which session is active, but a load begins one and a
/// stop ends it.
pub proof fn lemma_id_stays(s: SessionModel, command: CommandModel, fresh: Uuid, now: Timestamp)
    requires
        coherent(s),
        !(command is Load),
        !(command is Stop),
        handled(s, command, fresh, now) is Ok,
    ensures
        handled(s, command, fresh, now)->Ok_0.id == s.id,
{
}

/// A seek that is confirmed leaves the session playing at the target.
pub proof fn lemma_seek_then_done(
    s: SessionModel,
    position_ms: u64,
    fresh: Uuid,
    now: Timestamp,
    later: Timestamp,
)
    requires
        s.state is Playing || s.state is Paused,
    ensures
        handled(s, CommandModel::Seek { position_ms }, fresh, now) matches Ok(seeking) && sought(
            seeking,
            later,
        ) matches Ok(done) && done.state is Playing && done.position_ms == position_ms && done.id
            == s.id,
{
}

/// Pausing and resuming a playing session gives its state back.
pub proof fn lemma_pause_then_resume(
    s: SessionModel,
    fresh: Uuid,
    now: Timestamp,
    later: Timestamp,
)
    requires
        s.state is Playing,
    ensures
        handled(s, CommandModel::Pause, fresh, now) matches Ok(paused) && handled(
            paused,
            CommandModel::Resume,
            fresh,
            later,
        ) matches Ok(resumed) && resumed.state == s.state && resumed.position_ms == s.position_ms,
{
}

/// Every session that is not in error can fail, and a stop leads from there
/// back to idle.
pub proof fn lemma_fail_then_stop(
    s: SessionModel,
    message: Seq<char>,
    fresh: Uuid,
    now: Timestamp,
    later: Timestamp,
)
    requires
        !(s.state is Error),
    ensures
        failed_with(s, message, now) is Ok,
        failed_with(s, message, now)->Ok_0.state is Error,
        handled(failed_with(s, message, now)->Ok_0, CommandModel::Stop, fresh, later) matches Ok(
            after,
        ) && after.state is Idle,
{
}

/// A second load is refused while a session is active or in error.
pub proof fn lemma_one_session(s: SessionModel, url: Seq<char>, fresh: Uuid, now: Timestamp)
    requires
        !(s.state is Idle),
    ensures
        handled(s, CommandModel::Load { url }, fresh, now) == Err::<SessionModel, MachineFault>(
            MachineFault::SessionActive,
        ),
{
}

} // verus!
