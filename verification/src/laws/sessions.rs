//! Laws of playback sessions: what each step of the manager does to the stored
//! session, to the active one, and to what is announced.

use crate::cache::{signed64, unsigned64};
use crate::clock::{moment_parse, stamp_text, uuid_parse, uuid_text, Timestamp, Uuid};
use crate::manager::{
    commanded, display_ended, last_rows, lemma_put_row_found, lemma_row_at, lemma_row_at_update,
    lemma_without_row, load_begun, owes, playback_ended, published, recent, recovered, refreshed,
    resolution_ended, row_at, seek_begun, seek_ended, stop_ended, stored_session, transitioned,
    volume_ended, volume_noted, with_row, without_row, ManagerModel, Outcome,
};
use crate::session::{
    closing_quote, entry_event, lemma_player_name_round_trip, media_of, new_media,
    player_may_follow, player_name, player_of_name, player_parse, row_of, session_fault_text,
    EventModel, MediaModel, PlayerState, ResolveInfo, RowModel, SessionError, SessionFault,
};
use crate::text::{before, decimal_text, opt_text};
use crate::json::{json_parse, Tree};
use vstd::utf8::encode_utf8;
use vstd::prelude::*;

verus! {

// ---------------------------------------------------------------------------
// States
// ---------------------------------------------------------------------------

/// Which state may come after which, by the state to come: idle after any
/// other, an error after any but an error, and the rest step by step.
pub proof fn law_player_table(from: PlayerState)
    ensures
        player_may_follow(from, PlayerState::Idle) <==> from != PlayerState::Idle,
        player_may_follow(from, PlayerState::Error) <==> from != PlayerState::Error,
        player_may_follow(from, PlayerState::Resolving) <==> from == PlayerState::Idle,
        player_may_follow(from, PlayerState::Buffering) <==> from == PlayerState::Resolving || from
            == PlayerState::Playing,
        player_may_follow(from, PlayerState::Playing) <==> from == PlayerState::Buffering || from
            == PlayerState::Paused || from == PlayerState::Seeking,
        player_may_follow(from, PlayerState::Paused) <==> from == PlayerState::Buffering || from
            == PlayerState::Playing,
        player_may_follow(from, PlayerState::Seeking) <==> from == PlayerState::Playing || from
            == PlayerState::Paused,
{
}

/// What states are called.
pub proof fn law_player_names(state: PlayerState)
    ensures
        player_name(PlayerState::Idle) == "idle"@,
        player_name(PlayerState::Resolving) == "resolving"@,
        player_name(PlayerState::Buffering) == "buffering"@,
        player_name(PlayerState::Playing) == "playing"@,
        player_name(PlayerState::Paused) == "paused"@,
        player_name(PlayerState::Seeking) == "seeking"@,
        player_name(PlayerState::Error) == "error"@,
        player_parse(player_name(state)) == Ok::<PlayerState, Seq<char>>(state),
{
    lemma_player_name_round_trip(state);
}

/// Only the seven names are names of states.
pub proof fn law_names_only(name: Seq<char>)
    ensures
        player_of_name(name) matches Some(state) ==> player_name(state) == name,
{
}

/// What is announced when a state is entered; a seek announces itself.
pub proof fn law_announcements(id: Uuid)
    ensures
        entry_event(id, PlayerState::Resolving) == Some(EventModel::Resolving { id }),
        entry_event(id, PlayerState::Playing) == Some(EventModel::Playing { id }),
        entry_event(id, PlayerState::Paused) == Some(EventModel::Paused { id }),
        entry_event(id, PlayerState::Idle) == Some(EventModel::Stopped { id }),
        entry_event(id, PlayerState::Buffering) == Some(EventModel::Buffering { id, percent: 0 }),
        entry_event(id, PlayerState::Error) matches Some(EventModel::Error { id: about, .. })
            && about == id,
        entry_event(id, PlayerState::Seeking) is None,
{
}

// ---------------------------------------------------------------------------
// Rows
// ---------------------------------------------------------------------------

/// The row stored for a session.
pub open spec fn row_under(m: ManagerModel, id: Uuid) -> Option<RowModel> {
    match row_at(m.rows, id, 0) {
        Some(k) => Some(m.rows[k]),
        None => None,
    }
}

/// Whether a step touched nothing but one row, and announcements.
pub open spec fn only_row_changed(m: ManagerModel, after: ManagerModel, id: Uuid) -> bool {
    &&& after.active == m.active
    &&& after.snapshot == m.snapshot
    &&& after.rows.len() == m.rows.len()
    &&& forall|j: int|
        0 <= j < m.rows.len() && (#[trigger] m.rows[j]).id != uuid_text(id.bits) ==> after.rows[j]
            == m.rows[j]
}

proof fn lemma_row_replaced(m: ManagerModel, id: Uuid, row: RowModel)
    requires
        row_under(m, id) is Some,
        row.id == row_under(m, id)->0.id,
    ensures
        ({
            let after = with_row(m, row_at(m.rows, id, 0)->0, row);
            &&& row_at(after.rows, id, 0) == row_at(m.rows, id, 0)
            &&& row_under(after, id) == Some(row)
            &&& only_row_changed(m, after, id)
        }),
{
    lemma_row_at(m.rows, id, 0);
    let k = row_at(m.rows, id, 0)->0;
    lemma_row_at_update(m.rows, id, k, row, 0);
}

/// A session moves exactly where its state allows it; then its state and the
/// time of its update change and nothing else of it, and the move is announced.
/// A move that is not allowed says from where to where.
pub proof fn law_transition(
    m: ManagerModel,
    id: Uuid,
    state: PlayerState,
    target: PlayerState,
    now: Timestamp,
)
    requires
        row_under(m, id) is Some,
        row_under(m, id)->0.state == player_name(state),
    ensures
        player_may_follow(state, target) ==> transitioned(m, id, target, now) is Ok && ({
            let after = transitioned(m, id, target, now)->Ok_0;
            &&& row_under(after, id) == Some(
                RowModel {
                    state: player_name(target),
                    updated_at: stamp_text(now),
                    ..row_under(m, id)->0
                },
            )
            &&& only_row_changed(m, after, id)
            &&& entry_event(id, target) is Some ==> after.events == m.events.push(
                entry_event(id, target)->0,
            )
            &&& entry_event(id, target) is None ==> after.events == m.events
        }),
        !player_may_follow(state, target) ==> transitioned(m, id, target, now) == Err::<
            ManagerModel,
            SessionFault,
        >(SessionFault::InvalidTransition { from: state, to: target }),
{
    law_player_names(state);
    lemma_row_replaced(
        m,
        id,
        RowModel {
            state: player_name(target),
            updated_at: stamp_text(now),
            ..row_under(m, id)->0
        },
    );
}

/// A session that is not stored cannot be moved.
pub proof fn law_unknown_session(m: ManagerModel, id: Uuid, target: PlayerState, now: Timestamp)
    requires
        row_under(m, id) is None,
    ensures
        transitioned(m, id, target, now) == Err::<ManagerModel, SessionFault>(
            SessionFault::NotFound(id),
        ),
        stored_session(m, id) == Err::<MediaModel, SessionFault>(SessionFault::NotFound(id)),
{
}

/// Numbers are kept as they are through a signed column.
pub proof fn law_column_keeps_number(n: u64)
    ensures
        unsigned64(signed64(n)) == n,
        n <= i64::MAX ==> signed64(n) == n,
{
}

// ---------------------------------------------------------------------------
// Progress
// ---------------------------------------------------------------------------

/// After a progress report on a stored session, independently of each other:
/// a reported position is the stored one, and else it is unchanged; a reported
/// duration is the stored one, and else it is unchanged. Nothing else of the
/// session changes but the time of its update.
pub proof fn law_progress_stored(
    m: ManagerModel,
    id: Uuid,
    position_ms: Option<u64>,
    duration_ms: Option<u64>,
    now: Timestamp,
)
    requires
        row_under(m, id) is Some,
    ensures
        ({
            let before = row_under(m, id)->0;
            let after = row_under(refreshed(m, id, position_ms, duration_ms, now), id)->0;
            &&& row_under(refreshed(m, id, position_ms, duration_ms, now), id) is Some
            &&& position_ms matches Some(p) ==> unsigned64(after.position_ms) == p
            &&& position_ms is None ==> after.position_ms == before.position_ms
            &&& duration_ms matches Some(d) ==> (after.duration_ms matches Some(stored)
                && unsigned64(stored) == d)
            &&& duration_ms is None ==> after.duration_ms == before.duration_ms
            &&& after.state == before.state
            &&& after.title == before.title
            &&& after.volume == before.volume
            &&& after.source_url == before.source_url
            &&& after.resolved_url == before.resolved_url
            &&& after.created_at == before.created_at
            &&& (position_ms is Some || duration_ms is Some) ==> after.updated_at == stamp_text(now)
        }),
{
    if position_ms is Some || duration_ms is Some {
        let before = row_under(m, id)->0;
        lemma_row_replaced(
            m,
            id,
            RowModel {
                position_ms: match position_ms {
                    Some(p) => signed64(p),
                    None => before.position_ms,
                },
                duration_ms: match duration_ms {
                    Some(d) => Some(signed64(d)),
                    None => before.duration_ms,
                },
                updated_at: stamp_text(now),
                ..before
            },
        );
    }
}

/// A progress report is seen in the session that is read afterwards, and that
/// session is what is published; the report is announced with what it said.
pub proof fn law_progress_seen(
    m: ManagerModel,
    id: Uuid,
    position_ms: Option<u64>,
    duration_ms: Option<u64>,
    now: Timestamp,
)
    requires
        row_under(m, id) is Some,
        position_ms is Some || duration_ms is Some,
    ensures
        ({
            let after = refreshed(m, id, position_ms, duration_ms, now);
            &&& stored_session(after, id) matches Ok(session) ==> {
                &&& position_ms matches Some(p) ==> session.position_ms == p
                &&& duration_ms matches Some(d) ==> session.duration_ms == Some(d)
                &&& after.snapshot == Some(session)
            }
            &&& after.active == m.active
            &&& after.events.len() == m.events.len() + 1
            &&& after.events.last() matches EventModel::PositionUpdate {
                id: about,
                position_ms: at,
                duration_ms: of,
            } && about == id && of == duration_ms && (position_ms matches Some(p) ==> at == p)
        }),
{
    law_progress_stored(m, id, position_ms, duration_ms, now);
}

/// A report of nothing changes nothing.
pub proof fn law_empty_report(m: ManagerModel, id: Uuid, now: Timestamp)
    ensures
        refreshed(m, id, None, None, now) == m,
{
}

/// What is published is the stored session, where it can be read.
pub proof fn law_published(m: ManagerModel, id: Uuid)
    ensures
        stored_session(m, id) matches Ok(session) ==> published(m, id) == (ManagerModel {
            snapshot: Some(session),
            ..m
        }),
        stored_session(m, id) is Err ==> published(m, id) == m,
{
}

// ---------------------------------------------------------------------------
// Loading
// ---------------------------------------------------------------------------

/// A load makes a new session for the address: resolving, at the beginning, at
/// full volume, with nothing known yet; it is the active one, and announced.
pub proof fn law_load_makes_session(m: ManagerModel, url: Seq<char>, id: Uuid, now: Timestamp)
    requires
        m.active is None,
    ensures
        ({
            let begun = load_begun(m, url, id, now);
            &&& begun.error is None
            &&& begun.after.active == Some(id)
            &&& begun.after.snapshot == m.snapshot
            &&& begun.after.events == m.events.push(EventModel::Created { id, url }).push(
                EventModel::Resolving { id },
            )
            &&& row_under(begun.after, id) == Some(
                RowModel {
                    id: uuid_text(id.bits),
                    source_url: url,
                    resolved_url: None,
                    state: "resolving"@,
                    position_ms: 0,
                    duration_ms: None,
                    volume: 100,
                    title: None,
                    created_at: stamp_text(now),
                    updated_at: stamp_text(now),
                },
            )
        }),
{
    let row = row_of(new_media(url, id, now));
    let created = ManagerModel {
        active: Some(id),
        rows: without_row(m.rows, row.id).push(row),
        events: m.events.push(EventModel::Created { id, url }),
        ..m
    };
    lemma_put_row_found(m.rows, id, row);
    law_transition(created, id, PlayerState::Idle, PlayerState::Resolving, now);
}

/// While a session is active a load is refused, and changes nothing.
pub proof fn law_one_at_a_time(m: ManagerModel, url: Seq<char>, id: Uuid, now: Timestamp)
    requires
        m.active is Some,
    ensures
        load_begun(m, url, id, now).error == Some(SessionFault::AlreadyActive),
        load_begun(m, url, id, now).after == m,
{
}

/// What resolution found is stored with the session: address, title and
/// duration; and announced.
pub proof fn law_resolution_stored(m: ManagerModel, id: Uuid, info: ResolveInfo, now: Timestamp)
    requires
        row_under(m, id) is Some,
    ensures
        ({
            let ended = resolution_ended(m, id, Ok(info), now);
            let before = row_under(m, id)->0;
            let row = row_under(ended.after, id)->0;
            &&& ended.error is None
            &&& row_under(ended.after, id) is Some
            &&& row.resolved_url == Some(info.direct_url@)
            &&& row.title == opt_text(info.title)
            &&& info.duration_ms matches Some(d) ==> (row.duration_ms matches Some(stored)
                && unsigned64(stored) == d)
            &&& info.duration_ms is None ==> row.duration_ms is None
            &&& row.updated_at == stamp_text(now)
            &&& row.state == before.state
            &&& row.position_ms == before.position_ms
            &&& row.volume == before.volume
            &&& row.source_url == before.source_url
            &&& row.created_at == before.created_at
            &&& only_row_changed(m, ended.after, id)
            &&& ended.after.events == m.events.push(
                EventModel::Resolved {
                    id,
                    direct_url: info.direct_url@,
                    title: opt_text(info.title),
                },
            )
        }),
{
    lemma_row_replaced(
        m,
        id,
        RowModel {
            resolved_url: Some(info.direct_url@),
            title: opt_text(info.title),
            duration_ms: match info.duration_ms {
                Some(d) => Some(signed64(d)),
                None => None,
            },
            updated_at: stamp_text(now),
            ..row_under(m, id)->0
        },
    );
}

/// A failure on the way frees the slot, says what failed and why, and leaves
/// the session in error.
pub proof fn law_load_failure(
    m: ManagerModel,
    id: Uuid,
    state: PlayerState,
    cause: String,
    now: Timestamp,
)
    requires
        row_under(m, id) is Some,
        row_under(m, id)->0.state == player_name(state),
        state != PlayerState::Error,
    ensures
        resolution_ended(m, id, Err(cause), now).error == Some(
            SessionFault::ResolutionFailed(cause@),
        ),
        display_ended(m, id, Err(cause), now).error == Some(SessionFault::DisplayError(cause@)),
        playback_ended(m, id, Err(cause), now).error == Some(SessionFault::PlaybackError(cause@)),
        is_failed(m, resolution_ended(m, id, Err(cause), now).after, id),
        is_failed(m, display_ended(m, id, Err(cause), now).after, id),
        is_failed(m, playback_ended(m, id, Err(cause), now).after, id),
{
    law_transition(m, id, state, PlayerState::Error, now);
}

/// Whether a session is in error, no session is active, and that was
/// announced.
pub open spec fn is_failed(m: ManagerModel, after: ManagerModel, id: Uuid) -> bool {
    &&& after.active is None
    &&& row_under(after, id) matches Some(row) && row.state == "error"@
    &&& after.events.len() == m.events.len() + 1
    &&& after.events.last() matches EventModel::Error { id: about, .. } && about == id
}

/// With the display the session buffers, and with playback begun it plays.
pub proof fn law_load_goes_on(m: ManagerModel, id: Uuid, state: PlayerState, now: Timestamp)
    requires
        row_under(m, id) is Some,
        row_under(m, id)->0.state == player_name(state),
    ensures
        state == PlayerState::Resolving ==> display_ended(m, id, Ok(()), now).error is None && (
        row_under(display_ended(m, id, Ok(()), now).after, id) matches Some(row) && row.state
            == "buffering"@),
        state == PlayerState::Buffering ==> playback_ended(m, id, Ok(()), now).error is None && (
        row_under(playback_ended(m, id, Ok(()), now).after, id) matches Some(row) && row.state
            == "playing"@),
        display_ended(m, id, Ok(()), now).after.active == m.active,
        playback_ended(m, id, Ok(()), now).after.active == m.active,
{
    law_transition(m, id, state, PlayerState::Buffering, now);
    law_transition(m, id, state, PlayerState::Playing, now);
}

// ---------------------------------------------------------------------------
// Commands
// ---------------------------------------------------------------------------

/// A command that is valid in one state works there, and is refused in every
/// other without a change; so is one whose playback part failed.
pub proof fn law_command(
    m: ManagerModel,
    id: Uuid,
    state: PlayerState,
    from: PlayerState,
    target: PlayerState,
    cause: String,
    now: Timestamp,
)
    requires
        row_under(m, id) is Some,
        row_under(m, id)->0.state == player_name(state),
        player_may_follow(from, target),
    ensures
        state == from ==> commanded(m, id, from, target, Ok(()), now).error is None && row_under(
            commanded(m, id, from, target, Ok(()), now).after,
            id,
        ) == Some(
            RowModel {
                state: player_name(target),
                updated_at: stamp_text(now),
                ..row_under(m, id)->0
            },
        ),
        state != from ==> commanded(m, id, from, target, Ok(()), now).after == m && commanded(
            m,
            id,
            from,
            target,
            Ok(()),
            now,
        ).error == Some(SessionFault::InvalidTransition { from: state, to: target }),
        commanded(m, id, from, target, Err(cause), now).after == m,
        commanded(m, id, from, target, Err(cause), now).error == Some(
            SessionFault::PlaybackError(cause@),
        ),
{
    law_player_names(state);
    law_transition(m, id, state, target, now);
}

/// A seek begins exactly while playing or paused; it is announced with its
/// target, and leaves the session seeking.
pub proof fn law_seek_begins(
    m: ManagerModel,
    id: Uuid,
    state: PlayerState,
    position_ms: u64,
    now: Timestamp,
)
    requires
        stored_session(m, id) is Ok,
        row_under(m, id)->0.state == player_name(state),
    ensures
        ({
            let begun = seek_begun(m, id, position_ms, now);
            &&& begun.error is None <==> state == PlayerState::Playing || state
                == PlayerState::Paused
            &&& begun.error is None ==> {
                &&& row_under(begun.after, id) matches Some(row) && row.state == "seeking"@
                &&& begun.after.events == m.events.push(EventModel::Seeking { id, position_ms })
                &&& begun.after.active == m.active
            }
            &&& begun.error is Some ==> begun.after == m
        }),
{
    law_transition(m, id, state, PlayerState::Seeking, now);
}

/// A seek ends in playing, or in paused where the session was paused before;
/// one that failed says so and changes nothing.
pub proof fn law_seek_ends(
    m: ManagerModel,
    id: Uuid,
    was: PlayerState,
    cause: String,
    now: Timestamp,
)
    requires
        row_under(m, id) is Some,
        row_under(m, id)->0.state == "seeking"@,
    ensures
        seek_ended(m, id, was, Ok(()), now).error is None,
        row_under(seek_ended(m, id, was, Ok(()), now).after, id) matches Some(row) && row.state
            == if was == PlayerState::Paused {
            "paused"@
        } else {
            "playing"@
        },
        seek_ended(m, id, was, Ok(()), now).after.active == m.active,
        seek_ended(m, id, was, Err(cause), now).after == m,
        seek_ended(m, id, was, Err(cause), now).error == Some(SessionFault::PlaybackError(cause@)),
{
    law_transition(m, id, PlayerState::Seeking, PlayerState::Playing, now);
    let playing = transitioned(m, id, PlayerState::Playing, now)->Ok_0;
    law_transition(playing, id, PlayerState::Playing, PlayerState::Paused, now);
}

/// The volume is stored up to 100 and no further, and nothing else of the
/// session changes.
pub proof fn law_volume_stored(m: ManagerModel, id: Uuid, volume: u8, now: Timestamp)
    requires
        row_under(m, id) is Some,
    ensures
        ({
            let after = volume_noted(m, id, volume, now);
            let level = if volume > 100 {
                100i32
            } else {
                volume as i32
            };
            &&& row_under(after, id) == Some(
                RowModel { volume: level, updated_at: stamp_text(now), ..row_under(m, id)->0 },
            )
            &&& only_row_changed(m, after, id)
            &&& after.events == m.events
        }),
{
    lemma_row_replaced(
        m,
        id,
        RowModel {
            volume: if volume > 100 {
                100
            } else {
                volume as i32
            },
            updated_at: stamp_text(now),
            ..row_under(m, id)->0
        },
    );
}

/// A volume that was set is announced as it is stored, and the session is
/// published; where setting it failed, that is said.
pub proof fn law_volume_announced(m: ManagerModel, id: Uuid, volume: u8, cause: String)
    ensures
        volume_ended(m, id, volume, Ok(())).error is None,
        volume_ended(m, id, volume, Ok(())).after.events == m.events.push(
            EventModel::VolumeChanged {
                id,
                volume: if volume > 100 {
                    100
                } else {
                    volume
                },
            },
        ),
        volume_ended(m, id, volume, Ok(())).after.rows == m.rows,
        stored_session(m, id) matches Ok(session) ==> volume_ended(
            m,
            id,
            volume,
            Ok(()),
        ).after.snapshot == Some(session),
        volume_ended(m, id, volume, Err(cause)).error == Some(SessionFault::PlaybackError(cause@)),
        volume_ended(m, id, volume, Err(cause)).after == m,
{
}

/// A stop deletes the session and announces it; none is active and nothing is
/// published any more. Other sessions stay.
pub proof fn law_stop(m: ManagerModel, id: Uuid, state: PlayerState, now: Timestamp)
    requires
        row_under(m, id) is Some,
        row_under(m, id)->0.state == player_name(state),
    ensures
        ({
            let after = stop_ended(m, id, state, now);
            &&& after.active is None
            &&& after.snapshot is None
            &&& row_under(after, id) is None
            &&& state != PlayerState::Idle ==> after.events == m.events.push(
                EventModel::Stopped { id },
            )
            &&& forall|j: int|
                0 <= j < m.rows.len() && (#[trigger] m.rows[j]).id != uuid_text(id.bits)
                    ==> after.rows.contains(m.rows[j])
        }),
{
    let text = uuid_text(id.bits);
    law_transition(m, id, state, PlayerState::Idle, now);
    let idle = if state == PlayerState::Idle {
        m
    } else {
        transitioned(m, id, PlayerState::Idle, now)->Ok_0
    };
    lemma_without_row(idle.rows, text);
    lemma_row_at(without_row(idle.rows, text), id, 0);
    idle.rows.filter_lemma(|r: RowModel| r.id != text);
    assert forall|j: int| 0 <= j < m.rows.len() && (#[trigger] m.rows[j]).id != text implies
        without_row(idle.rows, text).contains(m.rows[j]) by {
        assert(idle.rows[j] == m.rows[j]);
    }
}

/// Whether a state has a running pipeline, which a stop has to end.
pub proof fn law_pipeline_runs(state: PlayerState)
    ensures
        crate::manager::pipeline_runs(state) <==> state != PlayerState::Idle && state
            != PlayerState::Resolving && state != PlayerState::Error,
{
}

// ---------------------------------------------------------------------------
// Restarts
// ---------------------------------------------------------------------------

/// After a restart no session is in the middle of its work: all but those in
/// error are idle, and nothing else of them changed but the time of the update.
pub proof fn law_recovery(rows: Seq<RowModel>, now: Timestamp, i: int)
    requires
        0 <= i < rows.len(),
    ensures
        recovered(rows, now).len() == rows.len(),
        ({
            let row = recovered(rows, now)[i];
            &&& rows[i].state == "idle"@ || rows[i].state == "error"@ ==> row == rows[i]
            &&& rows[i].state != "idle"@ && rows[i].state != "error"@ ==> row.state == "idle"@
                && row.updated_at == stamp_text(now)
            &&& RowModel { state: rows[i].state, updated_at: rows[i].updated_at, ..row } == rows[i]
        }),
{
}

/// Exactly the sessions that were updated before the cutoff are dropped.
pub proof fn law_cleanup(rows: Seq<RowModel>, cutoff: Seq<char>, i: int)
    requires
        0 <= i < rows.len(),
    ensures
        recent(rows, cutoff).contains(rows[i]) <==> !before(rows[i].updated_at, cutoff, 0),
{
    rows.filter_lemma(|r: RowModel| !before(r.updated_at, cutoff, 0));
    if recent(rows, cutoff).contains(rows[i]) {
        let j = choose|j: int|
            0 <= j < recent(rows, cutoff).len() && recent(rows, cutoff)[j] == rows[i];
        crate::manager::lemma_recent(rows, cutoff);
        assert(!before(recent(rows, cutoff)[j].updated_at, cutoff, 0));
    }
}

/// A session is stale after a day: the cutoff of a moment lies 86400 seconds
/// before it.
pub proof fn law_stale_after_a_day(now: Timestamp)
    requires
        now.secs - 86400 >= i64::MIN,
    ensures
        crate::manager::day_before(now) == (Timestamp { secs: (now.secs - 86400) as i64, nanos: 0 }),
{
}

// ---------------------------------------------------------------------------
// Stored sessions
// ---------------------------------------------------------------------------

/// A stored session is read field by field: whatever the row says of it is
/// what the session says, and a volume that is none counts as 100.
pub proof fn law_row_read(row: RowModel)
    ensures
        media_of(row) matches Ok(session) ==> {
            &&& uuid_parses(row.id, session.id)
            &&& session.source_url == row.source_url
            &&& session.resolved_url == row.resolved_url
            &&& player_parse(row.state) == Ok::<PlayerState, Seq<char>>(session.state)
            &&& session.title == row.title
            &&& row.position_ms >= 0 ==> session.position_ms == row.position_ms
            &&& row.duration_ms is None ==> session.duration_ms is None
            &&& row.duration_ms matches Some(d) ==> (d >= 0 ==> session.duration_ms == Some(
                d as u64,
            ))
            &&& 0 <= row.volume <= 255 ==> session.volume == row.volume
            &&& row.volume < 0 || row.volume > 255 ==> session.volume == 100
        },
{
}

/// Whether a text is read as an identifier.
pub open spec fn uuid_parses(text: Seq<char>, id: Uuid) -> bool {
    crate::clock::uuid_parse(text) == Ok::<u128, Seq<char>>(id.bits)
}

/// A session is stored field by field.
pub proof fn law_row_written(m: MediaModel)
    ensures
        row_of(m).id == uuid_text(m.id.bits),
        row_of(m).source_url == m.source_url,
        row_of(m).resolved_url == m.resolved_url,
        row_of(m).state == player_name(m.state),
        unsigned64(row_of(m).position_ms) == m.position_ms,
        m.duration_ms matches Some(d) ==> (row_of(m).duration_ms matches Some(stored) && unsigned64(
            stored,
        ) == d),
        m.duration_ms is None ==> row_of(m).duration_ms is None,
        row_of(m).volume == m.volume,
        row_of(m).title == m.title,
        row_of(m).created_at == stamp_text(m.created_at),
        row_of(m).updated_at == stamp_text(m.updated_at),
{
}

/// How errors read: what kind of failure, and what it was about.
pub proof fn law_session_errors_read(about: Seq<char>, id: Uuid, from: PlayerState, to: PlayerState)
    ensures
        session_fault_text(SessionFault::NoActiveSession) == "no active session"@,
        session_fault_text(SessionFault::NotFound(id)) == "session not found: "@ + uuid_text(
            id.bits,
        ),
        session_fault_text(SessionFault::Database(about)) == "database error: "@ + about,
        session_fault_text(SessionFault::Subsystem(about)) == "subsystem error: "@ + about,
        session_fault_text(SessionFault::ResolutionFailed(about)) == "resolution failed: "@ + about,
        session_fault_text(SessionFault::PlaybackError(about)) == "playback error: "@ + about,
        session_fault_text(SessionFault::DisplayError(about)) == "display error: "@ + about,
        session_fault_text(SessionFault::InvalidTransition { from, to })
            == "invalid state transition: cannot go from "@ + player_name(from) + " to "@
            + player_name(to),
{
}

/// Of rows that are read in order, the last one of a session counts.
pub proof fn law_last_session_row_counts(rows: Seq<RowModel>, n: int, i: int)
    requires
        0 <= i < n <= rows.len(),
        forall|j: int| i < j < n ==> (#[trigger] rows[j]).id != rows[i].id,
    ensures
        last_rows(rows, n).contains(rows[i]),
    decreases n,
{
    let before_last = last_rows(rows, n - 1);
    let id = rows[n - 1].id;
    let after = last_rows(rows, n);
    if i == n - 1 {
        assert(after[after.len() - 1] == rows[i]);
    } else {
        law_last_session_row_counts(rows, n - 1, i);
        before_last.filter_lemma(|r: RowModel| r.id != id);
        let k = choose|k: int| 0 <= k < before_last.len() && before_last[k] == rows[i];
        assert(rows[n - 1].id != rows[i].id);
        assert(without_row(before_last, id).contains(before_last[k]));
        let m = choose|m: int|
            0 <= m < without_row(before_last, id).len() && without_row(before_last, id)[m]
                == rows[i];
        assert(after[m] == rows[i]);
    }
}

/// Every session row that counts was read.
pub proof fn law_session_rows_were_read(rows: Seq<RowModel>, n: int, k: int)
    requires
        0 <= n <= rows.len(),
        0 <= k < last_rows(rows, n).len(),
    ensures
        exists|i: int| 0 <= i < n && #[trigger] rows[i] == last_rows(rows, n)[k],
    decreases n,
{
    let before_last = last_rows(rows, n - 1);
    let id = rows[n - 1].id;
    let after = last_rows(rows, n);
    lemma_without_row(before_last, id);
    if k == after.len() - 1 {
        assert(rows[n - 1] == after[k]);
    } else {
        let row = without_row(before_last, id)[k];
        assert(after[k] == row);
        assert(before_last.contains(row));
        let m = choose|m: int| 0 <= m < before_last.len() && before_last[m] == row;
        law_session_rows_were_read(rows, n - 1, m);
        let i = choose|i: int| 0 <= i < n - 1 && #[trigger] rows[i] == before_last[m];
        assert(rows[i] == after[k]);
    }
}

/// A step leaves what was owed, and succeeds exactly where no error was.
pub proof fn law_owed(r: Result<(), SessionError>, after: ManagerModel, owed: Outcome)
    requires
        owes(r, after, owed),
    ensures
        after == owed.after,
        r is Ok <==> owed.error is None,
        r matches Err(e) ==> owed.error == Some(e@),
{
}

/// A text that is no name is read as the content of a JSON string: what that
/// says may be a name, and is reported where it is none.
pub proof fn law_name_from_json(text: Seq<char>, name: Seq<char>)
    requires
        player_of_name(text) is None,
        closing_quote("\""@ + text + "\""@, 1) == Some(text.len() as int + 1),
        json_parse("\""@ + text + "\""@) == Ok::<Tree, Seq<char>>(Tree::Text(name)),
    ensures
        player_of_name(name) matches Some(state) ==> player_parse(text) == Ok::<
            PlayerState,
            Seq<char>,
        >(state),
        player_of_name(name) is None ==> player_parse(text) == Err::<PlayerState, Seq<char>>(
            "unknown variant `"@ + name
                + "`, expected one of `idle`, `resolving`, `buffering`, `playing`, `paused`, `seeking`, `error` at line 1 column "@
                + decimal_text(encode_utf8("\""@ + text + "\""@).len()),
        ),
{
    let written = "\""@ + text + "\""@;
    reveal_strlit("\"");
    assert(written.take(text.len() as int + 2) =~= written);
}

/// What is no JSON string is refused with the reader's complaint.
pub proof fn law_name_not_json(text: Seq<char>, message: Seq<char>)
    requires
        player_of_name(text) is None,
        closing_quote("\""@ + text + "\""@, 1) is None,
        json_parse("\""@ + text + "\""@) == Err::<Tree, Seq<char>>(message),
    ensures
        player_parse(text) == Err::<PlayerState, Seq<char>>(message),
{
}

/// A string ends with the first quote that no backslash stands before.
pub proof fn law_string_ends(s: Seq<char>, i: int, k: int)
    requires
        0 <= i <= k < s.len(),
        s[k] == '"',
        forall|j: int| i <= j < k ==> (#[trigger] s[j]) != '"' && s[j] != '\\',
    ensures
        closing_quote(s, i) == Some(k),
    decreases k - i,
{
    if i < k {
        assert(s[i] != '"');
        law_string_ends(s, i + 1, k);
    }
}

/// A backslash takes the character behind it along.
pub proof fn law_string_escapes(s: Seq<char>, i: int)
    requires
        0 <= i,
        i + 1 < s.len(),
        s[i] == '\\',
    ensures
        closing_quote(s, i) == closing_quote(s, i + 2),
{
}

/// A stored value that cannot be read is named, with what is wrong with it.
pub proof fn law_corrupt_rows(row: RowModel)
    ensures
        uuid_parse(row.id) matches Err(cause) ==> media_of(row) == Err::<MediaModel, SessionFault>(
            SessionFault::Subsystem("corrupt session ID '"@ + row.id + "': "@ + cause),
        ),
        uuid_parse(row.id) is Ok ==> (player_parse(row.state) matches Err(cause) ==> media_of(row)
            == Err::<MediaModel, SessionFault>(
            SessionFault::Subsystem("corrupt session state '"@ + row.state + "': "@ + cause),
        )),
        uuid_parse(row.id) is Ok && player_parse(row.state) is Ok ==> (moment_parse(
            row.created_at,
        ) matches Err(cause) ==> media_of(row) == Err::<MediaModel, SessionFault>(
            SessionFault::Subsystem("corrupt created_at '"@ + row.created_at + "': "@ + cause),
        )),
        uuid_parse(row.id) is Ok && player_parse(row.state) is Ok && moment_parse(row.created_at)
            is Ok ==> (moment_parse(row.updated_at) matches Err(cause) ==> media_of(row) == Err::<
            MediaModel,
            SessionFault,
        >(SessionFault::Subsystem("corrupt updated_at '"@ + row.updated_at + "': "@ + cause))),
        uuid_parse(row.id) is Ok && player_parse(row.state) is Ok && moment_parse(row.created_at)
            is Ok && moment_parse(row.updated_at) is Ok ==> media_of(row) is Ok,
        media_of(row) matches Ok(session) ==> {
            &&& moment_parse(row.created_at) == Ok::<(i64, u32), Seq<char>>(
                (session.created_at.secs, session.created_at.nanos),
            )
            &&& moment_parse(row.updated_at) == Ok::<(i64, u32), Seq<char>>(
                (session.updated_at.secs, session.updated_at.nanos),
            )
        },
{
    reveal_strlit("corrupt ");
    reveal_strlit(" '");
    reveal_strlit("session ID");
    reveal_strlit("session state");
    reveal_strlit("created_at");
    reveal_strlit("updated_at");
    reveal_strlit("corrupt session ID '");
    reveal_strlit("corrupt session state '");
    reveal_strlit("corrupt created_at '");
    reveal_strlit("corrupt updated_at '");
    assert("corrupt "@ + "session ID"@ + " '"@ =~= "corrupt session ID '"@);
    assert("corrupt "@ + "session state"@ + " '"@ =~= "corrupt session state '"@);
    assert("corrupt "@ + "created_at"@ + " '"@ =~= "corrupt created_at '"@);
    assert("corrupt "@ + "updated_at"@ + " '"@ =~= "corrupt updated_at '"@);
}

/// A string that ends within a text is judged first: where it names no state,
/// that is reported, with the place where it ends.
pub proof fn law_name_before_rest(text: Seq<char>, k: int, name: Seq<char>)
    requires
        player_of_name(text) is None,
        closing_quote("\""@ + text + "\""@, 1) == Some(k),
        0 <= k < text.len() + 2,
        json_parse(("\""@ + text + "\""@).take(k + 1)) == Ok::<Tree, Seq<char>>(
            Tree::Text(name),
        ),
        player_of_name(name) is None,
    ensures
        player_parse(text) == Err::<PlayerState, Seq<char>>(
            "unknown variant `"@ + name
                + "`, expected one of `idle`, `resolving`, `buffering`, `playing`, `paused`, `seeking`, `error` at line 1 column "@
                + decimal_text(encode_utf8(("\""@ + text + "\""@).take(k + 1)).len()),
        ),
{
}

/// What an error announces, where nothing more is known.
pub proof fn law_error_announced(id: Uuid)
    ensures
        entry_event(id, PlayerState::Error) == Some(
            EventModel::Error { id, message: "entered error state"@ },
        ),
{
}

/// A stored state that cannot be read stops every move, and is reported.
pub proof fn law_corrupt_state(
    m: ManagerModel,
    id: Uuid,
    from: PlayerState,
    target: PlayerState,
    cause: Seq<char>,
    now: Timestamp,
)
    requires
        row_under(m, id) is Some,
        player_parse(row_under(m, id)->0.state) == Err::<PlayerState, Seq<char>>(cause),
    ensures
        transitioned(m, id, target, now) == Err::<ManagerModel, SessionFault>(
            SessionFault::Subsystem("corrupt state in db: "@ + cause),
        ),
        commanded(m, id, from, target, Ok(()), now).after == m,
        commanded(m, id, from, target, Ok(()), now).error == Some(
            SessionFault::Subsystem("corrupt state in db: "@ + cause),
        ),
{
}

/// A command on a session that is not stored says so.
pub proof fn law_command_needs_session(
    m: ManagerModel,
    id: Uuid,
    from: PlayerState,
    target: PlayerState,
    now: Timestamp,
)
    requires
        row_under(m, id) is None,
    ensures
        commanded(m, id, from, target, Ok(()), now).after == m,
        commanded(m, id, from, target, Ok(()), now).error == Some(SessionFault::NotFound(id)),
{
}

} // verus!
