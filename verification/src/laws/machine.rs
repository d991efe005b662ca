//! Laws of the state machine: which commands work when, and what they leave.

use crate::clock::{uuid_text, Timestamp, Uuid};
use crate::state_machine::{
    answers, buffered, castable, code_text, coherent, command_name, failed_with, fault_code,
    handled, id_of, is_scheme, kind_name, kind_of, machine_fault_text, may_follow, reset_to,
    resolved_with, sought, state_text, CommandModel, ErrorCode, MachineFault, SessionModel,
    SessionState, SessionStateKind, StateMachineError, StateModel,
};
use crate::text::{contains, decimal_text, find, lemma_find_from, quoted};
use vstd::prelude::*;

verus! {

/// Which kind of state may come after which, by the one to come.
pub proof fn law_machine_table(from: SessionStateKind)
    ensures
        may_follow(from, SessionStateKind::Idle) <==> from != SessionStateKind::Idle,
        may_follow(from, SessionStateKind::Error) <==> from != SessionStateKind::Error,
        may_follow(from, SessionStateKind::Resolving) <==> from == SessionStateKind::Idle,
        may_follow(from, SessionStateKind::Buffering) <==> from == SessionStateKind::Resolving
            || from == SessionStateKind::Playing,
        may_follow(from, SessionStateKind::Playing) <==> from == SessionStateKind::Buffering
            || from == SessionStateKind::Paused || from == SessionStateKind::Seeking,
        may_follow(from, SessionStateKind::Paused) <==> from == SessionStateKind::Buffering || from
            == SessionStateKind::Playing,
        may_follow(from, SessionStateKind::Seeking) <==> from == SessionStateKind::Playing || from
            == SessionStateKind::Paused,
{
}

/// Whether the session, its addresses and its progress are as before.
pub open spec fn same_media(s: SessionModel, after: SessionModel) -> bool {
    &&& after.id == s.id
    &&& after.position_ms == s.position_ms
    &&& after.duration_ms == s.duration_ms
    &&& after.volume == s.volume
    &&& after.created_at == s.created_at
}

/// The addresses that a state carries: what was asked for, and what it came to.
pub open spec fn addresses(state: StateModel) -> Option<(Uuid, Seq<char>, Seq<char>)> {
    match state {
        StateModel::Buffering { id, source_url, resolved_url } => Some(
            (id, source_url, resolved_url),
        ),
        StateModel::Playing { id, source_url, resolved_url } => Some(
            (id, source_url, resolved_url),
        ),
        StateModel::Paused { id, source_url, resolved_url } => Some(
            (id, source_url, resolved_url),
        ),
        StateModel::Seeking { id, source_url, resolved_url, .. } => Some(
            (id, source_url, resolved_url),
        ),
        _ => None,
    }
}

/// A load works exactly on an idle session with an address that can be cast: a
/// fresh session resolves it, from the beginning, at the volume that was set.
pub proof fn law_load(s: SessionModel, url: Seq<char>, fresh: Uuid, now: Timestamp)
    ensures
        ({
            let r = handled(s, CommandModel::Load { url }, fresh, now);
            &&& r is Ok <==> s.state is Idle && castable(url)
            &&& r matches Ok(after) ==> {
                &&& after.state == (StateModel::Resolving { id: fresh, source_url: url })
                &&& after.id == Some(fresh)
                &&& after.position_ms == 0
                &&& after.duration_ms is None
                &&& after.volume == s.volume
                &&& after.created_at == Some(now)
                &&& after.updated_at == now
            }
            &&& !(s.state is Idle) ==> r == Err::<SessionModel, MachineFault>(
                MachineFault::SessionActive,
            )
            &&& s.state is Idle && !castable(url) ==> r == Err::<SessionModel, MachineFault>(
                MachineFault::InvalidUrl(url),
            )
        }),
{
}

/// Pausing works exactly while playing or buffering; the session stays the
/// same but for its state.
pub proof fn law_pause(s: SessionModel, fresh: Uuid, now: Timestamp)
    ensures
        ({
            let r = handled(s, CommandModel::Pause, fresh, now);
            &&& r is Ok <==> s.state is Playing || s.state is Buffering
            &&& r matches Ok(after) ==> after.state is Paused && addresses(after.state)
                == addresses(s.state) && same_media(s, after) && after.updated_at == now
            &&& r matches Err(fault) ==> fault == (MachineFault::InvalidCommand {
                state: kind_of(s.state),
                command: "pause"@,
            })
        }),
{
}

/// Resuming works exactly while paused or buffering.
pub proof fn law_resume(s: SessionModel, fresh: Uuid, now: Timestamp)
    ensures
        ({
            let r = handled(s, CommandModel::Resume, fresh, now);
            &&& r is Ok <==> s.state is Paused || s.state is Buffering
            &&& r matches Ok(after) ==> after.state is Playing && addresses(after.state)
                == addresses(s.state) && same_media(s, after) && after.updated_at == now
            &&& r matches Err(fault) ==> fault == (MachineFault::InvalidCommand {
                state: kind_of(s.state),
                command: "resume"@,
            })
        }),
{
}

/// Seeking works exactly while playing or paused; the position changes only
/// when the seek is done, and then to its target.
pub proof fn law_seek(s: SessionModel, position_ms: u64, fresh: Uuid, now: Timestamp, later: Timestamp)
    ensures
        ({
            let r = handled(s, CommandModel::Seek { position_ms }, fresh, now);
            &&& r is Ok <==> s.state is Playing || s.state is Paused
            &&& r matches Ok(seeking) ==> {
                &&& seeking.state is Seeking
                &&& addresses(seeking.state) == addresses(s.state)
                &&& same_media(s, seeking)
                &&& seeking.updated_at == now
                &&& sought(seeking, later) matches Ok(done) && done.state is Playing && addresses(
                    done.state,
                ) == addresses(s.state) && same_media(
                    SessionModel { position_ms, ..s },
                    done,
                ) && done.updated_at == later
            }
            &&& r matches Err(fault) ==> fault == (MachineFault::InvalidCommand {
                state: kind_of(s.state),
                command: "seek"@,
            })
        }),
{
}

/// A stop always works, and leaves nothing of the session but its volume; one
/// on an idle session changes nothing.
pub proof fn law_stop_resets(s: SessionModel, fresh: Uuid, now: Timestamp)
    ensures
        handled(s, CommandModel::Stop, fresh, now) == Ok::<SessionModel, MachineFault>(
            reset_to(s, now),
        ),
        s.state is Idle ==> reset_to(s, now) == s,
        !(s.state is Idle) ==> reset_to(s, now) == (SessionModel {
            state: StateModel::Idle,
            id: None,
            position_ms: 0,
            duration_ms: None,
            volume: s.volume,
            created_at: None,
            updated_at: now,
        }),
{
}

/// The volume can be set in every state but idle, up to 100; nothing else
/// changes.
pub proof fn law_volume(s: SessionModel, volume: u8, fresh: Uuid, now: Timestamp)
    ensures
        ({
            let r = handled(s, CommandModel::SetVolume { volume }, fresh, now);
            &&& r is Ok <==> !(s.state is Idle)
            &&& r matches Ok(after) ==> {
                &&& after.volume <= 100
                &&& volume <= 100 ==> after.volume == volume
                &&& volume > 100 ==> after.volume == 100
                &&& after.updated_at == now
                &&& SessionModel { volume: s.volume, updated_at: s.updated_at, ..after } == s
            }
            &&& r matches Err(fault) ==> fault == (MachineFault::InvalidCommand {
                state: SessionStateKind::Idle,
                command: "set_volume"@,
            })
        }),
{
}

/// What resolution came to is kept with the session, which then buffers.
pub proof fn law_resolved(s: SessionModel, url: Seq<char>, now: Timestamp)
    ensures
        ({
            let r = resolved_with(s, url, now);
            &&& r is Ok <==> s.state is Resolving
            &&& r matches Ok(after) ==> {
                &&& s.state matches StateModel::Resolving { id, source_url } && after.state == (
                StateModel::Buffering { id, source_url, resolved_url: url })
                &&& same_media(s, after)
                &&& after.updated_at == now
            }
            &&& r matches Err(fault) ==> fault == (MachineFault::InvalidCommand {
                state: kind_of(s.state),
                command: "resolve_ok"@,
            })
        }),
{
}

/// A full buffer starts playing, and only that does.
pub proof fn law_buffered(s: SessionModel, now: Timestamp)
    ensures
        ({
            let r = buffered(s, now);
            &&& r is Ok <==> s.state is Buffering
            &&& r matches Ok(after) ==> after.state is Playing && addresses(after.state)
                == addresses(s.state) && same_media(s, after) && after.updated_at == now
            &&& r matches Err(fault) ==> fault == (MachineFault::InvalidCommand {
                state: kind_of(s.state),
                command: "buffer_full"@,
            })
        }),
{
}

/// A seek is done only where one is going on.
pub proof fn law_sought(s: SessionModel, now: Timestamp)
    ensures
        sought(s, now) is Ok <==> s.state is Seeking,
        s.state matches StateModel::Seeking { target_ms, .. } ==> (sought(s, now) matches Ok(after)
            && after.position_ms == target_ms && after.state is Playing),
        sought(s, now) matches Err(fault) ==> fault == (MachineFault::InvalidCommand {
            state: kind_of(s.state),
            command: "seek_done"@,
        }),
{
}

/// Every session that is not in error can fail; the error keeps the session's
/// id and says why.
pub proof fn law_failed(s: SessionModel, message: Seq<char>, now: Timestamp)
    ensures
        failed_with(s, message, now) is Ok <==> !(s.state is Error),
        failed_with(s, message, now) matches Ok(after) ==> after.state == (StateModel::Error {
            id: s.id,
            message,
        }) && same_media(s, after) && after.updated_at == now,
        failed_with(s, message, now) matches Err(fault) ==> fault == (
        MachineFault::InvalidTransition {
            from: SessionStateKind::Error,
            to: SessionStateKind::Error,
        }),
{
}

/// An address can be cast exactly where it has a scheme, `://` and something
/// behind it.
pub proof fn law_castable(scheme: Seq<char>, rest: Seq<char>)
    requires
        !contains(scheme, "://"@),
        !contains(scheme + ":"@, "://"@),
        !contains(scheme + ":/"@, "://"@),
    ensures
        castable(scheme + "://"@ + rest) <==> rest.len() > 0 && is_scheme(scheme),
{
    let url = scheme + "://"@ + rest;
    reveal_strlit("://");
    reveal_strlit(":");
    reveal_strlit(":/");
    let k = scheme.len() as int;
    assert(url.subrange(k, k + 3) =~= "://"@);
    assert(crate::text::occurs_at(url, "://"@, k));
    lemma_find_from(url, "://"@, 0);
    let f = find(url, "://"@)->0;
    if f < k {
        assert(crate::text::occurs_at(url, "://"@, f));
        assert((scheme + ":/"@).subrange(f, f + 3) =~= url.subrange(f, f + 3));
        assert(crate::text::occurs_at(scheme + ":/"@, "://"@, f));
    }
    assert(url.take(k) =~= scheme);
}

/// Without `://` nothing can be cast.
pub proof fn law_not_castable(url: Seq<char>)
    requires
        !contains(url, "://"@),
    ensures
        !castable(url),
{
    lemma_find_from(url, "://"@, 0);
}

/// A scheme is a letter, then letters, digits, plus, minus and dots.
pub proof fn law_scheme(s: Seq<char>, c: char)
    requires
        is_scheme(s),
    ensures
        s.len() > 0,
        'a' <= s[0] <= 'z' || 'A' <= s[0] <= 'Z',
        is_scheme(s.push(c)) <==> ('a' <= c <= 'z' || 'A' <= c <= 'Z' || '0' <= c <= '9' || c == '+'
            || c == '-' || c == '.'),
        !is_scheme(Seq::empty()),
        is_scheme(seq![c]) <==> ('a' <= c <= 'z' || 'A' <= c <= 'Z'),
{
    let t = s.push(c);
    assert(t[s.len() as int] == c);
    assert(t[0] == s[0]);
    if is_scheme(t) {
        assert(crate::state_machine::is_scheme_char(t[s.len() as int]));
    } else {
        if crate::state_machine::is_scheme_char(c) {
            assert forall|i: int| 1 <= i < t.len() implies crate::state_machine::is_scheme_char(
                #[trigger] t[i],
            ) by {
                if i < s.len() {
                    assert(t[i] == s[i]);
                    assert(crate::state_machine::is_scheme_char(s[i]));
                }
            }
        }
    }
}

/// A state belongs to the session whose id it carries, and is of one kind.
pub proof fn law_state_parts(state: StateModel)
    ensures
        kind_of(state) == SessionStateKind::Idle <==> state is Idle,
        kind_of(state) == SessionStateKind::Resolving <==> state is Resolving,
        kind_of(state) == SessionStateKind::Buffering <==> state is Buffering,
        kind_of(state) == SessionStateKind::Playing <==> state is Playing,
        kind_of(state) == SessionStateKind::Paused <==> state is Paused,
        kind_of(state) == SessionStateKind::Seeking <==> state is Seeking,
        kind_of(state) == SessionStateKind::Error <==> state is Error,
        addresses(state) matches Some((id, _, _)) ==> id_of(state) == Some(id),
        state matches StateModel::Resolving { id, .. } ==> id_of(state) == Some(id),
        state matches StateModel::Error { id, .. } ==> id_of(state) == id,
        state is Idle ==> id_of(state) is None,
{
}

/// How states read: the kind, the session, and what is special about it.
pub proof fn law_states_read(state: StateModel, id: Uuid)
    requires
        id_of(state) == Some(id),
    ensures
        !(state is Seeking) && !(state is Error) ==> state_text(state) == kind_name(kind_of(state))
            + "("@ + uuid_text(id.bits) + ")"@,
        state matches StateModel::Seeking { target_ms, .. } ==> state_text(state) == "seeking("@
            + uuid_text(id.bits) + ", "@ + decimal_text(target_ms as nat) + "ms)"@,
        state matches StateModel::Error { message, .. } ==> state_text(state) == "error("@
            + uuid_text(id.bits) + ", "@ + quoted(message) + ")"@,
{
    reveal_strlit("(");
    reveal_strlit("resolving");
    reveal_strlit("resolving(");
    reveal_strlit("buffering");
    reveal_strlit("buffering(");
    reveal_strlit("playing");
    reveal_strlit("playing(");
    reveal_strlit("paused");
    reveal_strlit("paused(");
    assert("resolving"@ + "("@ =~= "resolving("@);
    assert("buffering"@ + "("@ =~= "buffering("@);
    assert("playing"@ + "("@ =~= "playing("@);
    assert("paused"@ + "("@ =~= "paused("@);
}

/// What kinds of states and commands are called.
pub proof fn law_machine_names(url: Seq<char>, position_ms: u64, volume: u8)
    ensures
        kind_name(SessionStateKind::Idle) == "idle"@,
        kind_name(SessionStateKind::Resolving) == "resolving"@,
        kind_name(SessionStateKind::Buffering) == "buffering"@,
        kind_name(SessionStateKind::Playing) == "playing"@,
        kind_name(SessionStateKind::Paused) == "paused"@,
        kind_name(SessionStateKind::Seeking) == "seeking"@,
        kind_name(SessionStateKind::Error) == "error"@,
        command_name(CommandModel::Load { url }) == "load"@,
        command_name(CommandModel::Pause) == "pause"@,
        command_name(CommandModel::Resume) == "resume"@,
        command_name(CommandModel::Stop) == "stop"@,
        command_name(CommandModel::Seek { position_ms }) == "seek"@,
        command_name(CommandModel::SetVolume { volume }) == "set_volume"@,
{
}

/// Which code an error has, and how it is sent.
pub proof fn law_error_codes(fault: MachineFault)
    ensures
        fault is InvalidTransition ==> code_text(fault_code(fault)) == "INVALID_TRANSITION"@,
        fault is InvalidCommand ==> code_text(fault_code(fault)) == "INVALID_STATE"@,
        fault is NoActiveSession ==> code_text(fault_code(fault)) == "NO_ACTIVE_SESSION"@,
        fault is SessionActive ==> code_text(fault_code(fault)) == "SESSION_ACTIVE"@,
        fault is InvalidUrl ==> code_text(fault_code(fault)) == "INVALID_URL"@,
        fault matches MachineFault::Subsystem { code, .. } ==> fault_code(fault) == code,
        code_text(ErrorCode::NotFound) == "NOT_FOUND"@,
        code_text(ErrorCode::Subsystem) == "SUBSYSTEM"@,
        code_text(ErrorCode::ResolutionFailed) == "RESOLUTION_FAILED"@,
        code_text(ErrorCode::Playback) == "PLAYBACK"@,
        code_text(ErrorCode::Display) == "DISPLAY"@,
        code_text(ErrorCode::Internal) == "INTERNAL"@,
{
}

/// How errors read: what was tried, and where.
pub proof fn law_machine_errors_read(
    from: SessionStateKind,
    to: SessionStateKind,
    about: Seq<char>,
    code: ErrorCode,
)
    ensures
        machine_fault_text(MachineFault::InvalidTransition { from, to })
            == "invalid state transition: cannot go from "@ + kind_name(from) + " to "@ + kind_name(
            to,
        ),
        machine_fault_text(MachineFault::InvalidCommand { state: from, command: about })
            == "invalid command "@ + about + " in state "@ + kind_name(from),
        machine_fault_text(MachineFault::NoActiveSession) == "no active session"@,
        machine_fault_text(MachineFault::InvalidUrl(about)) == "invalid url: "@ + about,
        machine_fault_text(MachineFault::Subsystem { code, message: about }) == "subsystem error ("@
            + code_text(code) + "): "@ + about,
{
}

/// A call returns the new state where it worked, and else an error and no
/// change.
pub proof fn law_answered(
    r: Result<SessionState, StateMachineError>,
    before: SessionModel,
    after: SessionModel,
    owed: Result<SessionModel, MachineFault>,
)
    requires
        answers(r, before, after, owed),
    ensures
        owed matches Ok(m) ==> after == m && (r matches Ok(state) && state@ == after.state),
        owed matches Err(fault) ==> after == before && (r matches Err(e) && e@ == fault),
{
}

/// A coherent session has the id of its state, a creation time exactly with an
/// id, and a volume of at most 100.
pub proof fn law_coherent(s: SessionModel)
    ensures
        coherent(s) <==> s.id == id_of(s.state) && (s.created_at is Some <==> s.id is Some)
            && s.volume <= 100,
        coherent(s) && s.state is Idle ==> s.id is None && s.created_at is None,
        coherent(s) ==> (addresses(s.state) matches Some((id, _, _)) ==> s.id == Some(id)),
{
}

} // verus!
