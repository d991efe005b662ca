//! The session manager: one active session at a time, its stored rows, the
//! events it emits, and what it decides before and after each piece of work
//! of its subsystems.

use crate::cache::{signed64, to_signed64};
use crate::clock::{
    fresh_uuid, in_calendar, lemma_uuid_text_distinct, marked_random, representable, stamp,
    stamp_text, utc_now, uuid_text, write_uuid, Timestamp, Uuid,
};
use crate::links::{parse_url, url_parse};
use crate::session::{
    entry_event, make_entry_event, make_row, media_of, new_media, player_may_follow, player_name,
    player_parse, read_row, row_of, EventModel, MediaModel, MediaSession, PlayerState, ResolveInfo,
    RowModel, SessionError, SessionEvent, SessionFault, SessionRow,
};
use crate::text::{before, clone_opt, join2, opt_text, owned, same_text, text_before};
use vstd::prelude::*;

verus! {

// ---------------------------------------------------------------------------
// Model
// ---------------------------------------------------------------------------

/// What a session manager holds: the rows of its table, the active session,
/// the events not yet handed out, and the latest published snapshot.
pub struct ManagerModel {
    pub rows: Seq<RowModel>,
    pub active: Option<Uuid>,
    pub events: Seq<EventModel>,
    pub snapshot: Option<MediaModel>,
}

/// The index of the row of a session, from `i` on.
pub open spec fn row_at(rows: Seq<RowModel>, id: Uuid, i: int) -> Option<int>
    decreases rows.len() - i,
{
    if i < 0 || i >= rows.len() {
        None
    } else if rows[i].id == uuid_text(id.bits) {
        Some(i)
    } else {
        row_at(rows, id, i + 1)
    }
}

/// The rows of all other sessions.
pub open spec fn without_row(rows: Seq<RowModel>, id: Seq<char>) -> Seq<RowModel> {
    rows.filter(|r: RowModel| r.id != id)
}

/// Whether no session has two rows.
pub open spec fn ids_unique(rows: Seq<RowModel>) -> bool {
    forall|i: int, j: int|
        0 <= i < j < rows.len() ==> (#[trigger] rows[i]).id != (#[trigger] rows[j]).id
}

/// The session stored under an id, or why it cannot be had.
pub open spec fn stored_session(m: ManagerModel, id: Uuid) -> Result<MediaModel, SessionFault> {
    match row_at(m.rows, id, 0) {
        Some(k) => media_of(m.rows[k]),
        None => Err(SessionFault::NotFound(id)),
    }
}

/// Appends an event.
pub open spec fn emitted(m: ManagerModel, event: EventModel) -> ManagerModel {
    ManagerModel { events: m.events.push(event), ..m }
}

/// Replaces a row.
pub open spec fn with_row(m: ManagerModel, k: int, row: RowModel) -> ManagerModel {
    ManagerModel { rows: m.rows.update(k, row), ..m }
}

/// Moves a stored session to a state, where that may follow, and announces it.
pub open spec fn transitioned(
    m: ManagerModel,
    id: Uuid,
    target: PlayerState,
    now: Timestamp,
) -> Result<ManagerModel, SessionFault> {
    match row_at(m.rows, id, 0) {
        None => Err(SessionFault::NotFound(id)),
        Some(k) => match player_parse(m.rows[k].state) {
            Err(cause) => Err(SessionFault::Subsystem("corrupt state in db: "@ + cause)),
            Ok(current) => if player_may_follow(current, target) {
                let moved = with_row(
                    m,
                    k,
                    RowModel {
                        state: player_name(target),
                        updated_at: stamp_text(now),
                        ..m.rows[k]
                    },
                );
                Ok(
                    match entry_event(id, target) {
                        Some(event) => emitted(moved, event),
                        None => moved,
                    },
                )
            } else {
                Err(SessionFault::InvalidTransition { from: current, to: target })
            },
        },
    }
}

/// A transition that is attempted, whatever comes of it.
pub open spec fn attempted(
    m: ManagerModel,
    id: Uuid,
    target: PlayerState,
    now: Timestamp,
) -> ManagerModel {
    match transitioned(m, id, target, now) {
        Ok(after) => after,
        Err(_) => m,
    }
}

/// A session that failed: in error where that may be, and no longer active.
pub open spec fn abandoned(m: ManagerModel, id: Uuid, now: Timestamp) -> ManagerModel {
    ManagerModel { active: None, ..attempted(m, id, PlayerState::Error, now) }
}

/// Publishes the stored session, where it can be read.
pub open spec fn published(m: ManagerModel, id: Uuid) -> ManagerModel {
    match stored_session(m, id) {
        Ok(session) => ManagerModel { snapshot: Some(session), ..m },
        Err(_) => m,
    }
}

/// The outcome of an operation: what the manager becomes, and the error, if
/// any.
pub struct Outcome {
    pub after: ManagerModel,
    pub error: Option<SessionFault>,
}

pub open spec fn done(after: ManagerModel) -> Outcome {
    Outcome { after, error: None }
}

pub open spec fn refused(after: ManagerModel, fault: SessionFault) -> Outcome {
    Outcome { after, error: Some(fault) }
}

/// A transition whose failure is the outcome.
pub open spec fn forced(
    m: ManagerModel,
    id: Uuid,
    target: PlayerState,
    now: Timestamp,
) -> Outcome {
    match transitioned(m, id, target, now) {
        Ok(after) => done(after),
        Err(fault) => refused(m, fault),
    }
}

/// Begins a load: refused while a session is active; else a new session is
/// stored, active, announced and resolving.
pub open spec fn load_begun(m: ManagerModel, url: Seq<char>, id: Uuid, now: Timestamp) -> Outcome {
    if m.active is Some {
        refused(m, SessionFault::AlreadyActive)
    } else {
        let row = row_of(new_media(url, id, now));
        let created = emitted(
            ManagerModel {
                active: Some(id),
                rows: without_row(m.rows, row.id).push(row),
                ..m
            },
            EventModel::Created { id, url },
        );
        forced(created, id, PlayerState::Resolving, now)
    }
}

/// What the resolver told, noted in the session's row.
pub open spec fn noted(m: ManagerModel, id: Uuid, info: ResolveInfo, now: Timestamp) -> ManagerModel {
    match row_at(m.rows, id, 0) {
        Some(k) => with_row(
            m,
            k,
            RowModel {
                resolved_url: Some(info.direct_url@),
                title: opt_text(info.title),
                duration_ms: match info.duration_ms {
                    Some(d) => Some(signed64(d)),
                    None => None,
                },
                updated_at: stamp_text(now),
                ..m.rows[k]
            },
        ),
        None => m,
    }
}

/// Resolution is over.
pub open spec fn resolution_ended(
    m: ManagerModel,
    id: Uuid,
    outcome: Result<ResolveInfo, String>,
    now: Timestamp,
) -> Outcome {
    match outcome {
        Err(cause) => refused(abandoned(m, id, now), SessionFault::ResolutionFailed(cause@)),
        Ok(info) => done(
            emitted(
                noted(m, id, info, now),
                EventModel::Resolved { id, direct_url: info.direct_url@, title: opt_text(info.title) },
            ),
        ),
    }
}

/// The display was acquired, or not.
pub open spec fn display_ended(
    m: ManagerModel,
    id: Uuid,
    outcome: Result<(), String>,
    now: Timestamp,
) -> Outcome {
    match outcome {
        Err(cause) => refused(abandoned(m, id, now), SessionFault::DisplayError(cause@)),
        Ok(_) => forced(m, id, PlayerState::Buffering, now),
    }
}

/// Playback began, or not.
pub open spec fn playback_ended(
    m: ManagerModel,
    id: Uuid,
    outcome: Result<(), String>,
    now: Timestamp,
) -> Outcome {
    match outcome {
        Err(cause) => refused(abandoned(m, id, now), SessionFault::PlaybackError(cause@)),
        Ok(_) => forced(m, id, PlayerState::Playing, now),
    }
}

/// A transition that is valid from one state only, after the playback
/// subsystem did its part.
pub open spec fn commanded(
    m: ManagerModel,
    id: Uuid,
    from: PlayerState,
    target: PlayerState,
    outcome: Result<(), String>,
    now: Timestamp,
) -> Outcome {
    match outcome {
        Err(cause) => refused(m, SessionFault::PlaybackError(cause@)),
        Ok(_) => match row_at(m.rows, id, 0) {
            None => refused(m, SessionFault::NotFound(id)),
            Some(k) => match player_parse(m.rows[k].state) {
                Err(cause) => refused(
                    m,
                    SessionFault::Subsystem("corrupt state in db: "@ + cause),
                ),
                Ok(current) => if current == from {
                    forced(m, id, target, now)
                } else {
                    refused(m, SessionFault::InvalidTransition { from: current, to: target })
                },
            },
        },
    }
}

/// Begins a seek: the active session goes to seeking, which is announced.
pub open spec fn seek_begun(m: ManagerModel, id: Uuid, position_ms: u64, now: Timestamp) -> Outcome {
    match stored_session(m, id) {
        Err(fault) => refused(m, fault),
        Ok(_) => match transitioned(m, id, PlayerState::Seeking, now) {
            Err(fault) => refused(m, fault),
            Ok(after) => done(emitted(after, EventModel::Seeking { id, position_ms })),
        },
    }
}

/// Ends a seek: back to playing, and on to paused where the session was.
pub open spec fn seek_ended(
    m: ManagerModel,
    id: Uuid,
    was: PlayerState,
    outcome: Result<(), String>,
    now: Timestamp,
) -> Outcome {
    match outcome {
        Err(cause) => refused(m, SessionFault::PlaybackError(cause@)),
        Ok(_) => match transitioned(m, id, PlayerState::Playing, now) {
            Err(fault) => refused(m, fault),
            Ok(playing) => if was == PlayerState::Paused {
                forced(playing, id, PlayerState::Paused, now)
            } else {
                done(playing)
            },
        },
    }
}

/// A volume, clamped to 100.
pub open spec fn clamped(volume: u8) -> u8 {
    if volume <= 100 {
        volume
    } else {
        100
    }
}

/// The volume, noted in the session's row.
pub open spec fn volume_noted(m: ManagerModel, id: Uuid, volume: u8, now: Timestamp) -> ManagerModel {
    match row_at(m.rows, id, 0) {
        Some(k) => with_row(
            m,
            k,
            RowModel {
                volume: clamped(volume) as i32,
                updated_at: stamp_text(now),
                ..m.rows[k]
            },
        ),
        None => m,
    }
}

/// The volume was set in the playback subsystem, or not.
pub open spec fn volume_ended(
    m: ManagerModel,
    id: Uuid,
    volume: u8,
    outcome: Result<(), String>,
) -> Outcome {
    match outcome {
        Err(cause) => refused(m, SessionFault::PlaybackError(cause@)),
        Ok(_) => done(
            published(emitted(m, EventModel::VolumeChanged { id, volume: clamped(volume) }), id),
        ),
    }
}

/// Position and duration, as far as known, noted in the session's row.
pub open spec fn progress_noted(
    m: ManagerModel,
    id: Uuid,
    position_ms: Option<u64>,
    duration_ms: Option<u64>,
    now: Timestamp,
) -> ManagerModel {
    match row_at(m.rows, id, 0) {
        Some(k) => with_row(
            m,
            k,
            RowModel {
                position_ms: match position_ms {
                    Some(p) => signed64(p),
                    None => m.rows[k].position_ms,
                },
                duration_ms: match duration_ms {
                    Some(d) => Some(signed64(d)),
                    None => m.rows[k].duration_ms,
                },
                updated_at: stamp_text(now),
                ..m.rows[k]
            },
        ),
        None => m,
    }
}

/// Position and duration are noted, announced and published; nothing happens
/// where neither is known.
pub open spec fn refreshed(
    m: ManagerModel,
    id: Uuid,
    position_ms: Option<u64>,
    duration_ms: Option<u64>,
    now: Timestamp,
) -> ManagerModel {
    if position_ms is None && duration_ms is None {
        m
    } else {
        published(
            emitted(
                progress_noted(m, id, position_ms, duration_ms, now),
                EventModel::PositionUpdate {
                    id,
                    position_ms: match position_ms {
                        Some(p) => p,
                        None => 0,
                    },
                    duration_ms,
                },
            ),
            id,
        )
    }
}

/// Ends a stop: the session is idle, no longer active, deleted, and nothing is
/// published any more.
pub open spec fn stop_ended(m: ManagerModel, id: Uuid, was: PlayerState, now: Timestamp) -> ManagerModel {
    let idle = if was == PlayerState::Idle {
        m
    } else {
        attempted(m, id, PlayerState::Idle, now)
    };
    ManagerModel {
        active: None,
        rows: without_row(idle.rows, uuid_text(id.bits)),
        snapshot: None,
        ..idle
    }
}

/// The rows not last updated before a moment, by its written form.
pub open spec fn recent(rows: Seq<RowModel>, cutoff: Seq<char>) -> Seq<RowModel> {
    rows.filter(|r: RowModel| !before(r.updated_at, cutoff, 0))
}

/// Whether a row's session was cut off in the middle of its work.
pub open spec fn cut_off(row: RowModel) -> bool {
    row.state != "idle"@ && row.state != "error"@
}

/// The rows, with sessions that were cut off reset to idle.
pub open spec fn recovered(rows: Seq<RowModel>, now: Timestamp) -> Seq<RowModel> {
    Seq::new(
        rows.len(),
        |i: int|
            if cut_off(rows[i]) {
                RowModel { state: "idle"@, updated_at: stamp_text(now), ..rows[i] }
            } else {
                rows[i]
            },
    )
}

// ---------------------------------------------------------------------------
// Manager
// ---------------------------------------------------------------------------

/// The session manager.
#[derive(Debug, Clone)]
pub struct SessionManager {
    rows: Vec<SessionRow>,
    active: Option<Uuid>,
    events: Vec<SessionEvent>,
    snapshot: Option<MediaSession>,
}

/// The models of a list of rows.
pub open spec fn row_models(rows: Seq<SessionRow>) -> Seq<RowModel> {
    Seq::new(rows.len(), |i: int| rows[i]@)
}

/// The models of a list of events.
pub open spec fn event_models(events: Seq<SessionEvent>) -> Seq<EventModel> {
    Seq::new(events.len(), |i: int| events[i]@)
}

impl View for SessionManager {
    type V = ManagerModel;

    closed spec fn view(&self) -> ManagerModel {
        ManagerModel {
            rows: row_models(self.rows@),
            active: self.active,
            events: event_models(self.events@),
            snapshot: match self.snapshot {
                Some(s) => Some(s@),
                None => None,
            },
        }
    }
}

/// Whether a manager became, and a call returned, what was owed.
pub open spec fn owes(r: Result<(), SessionError>, after: ManagerModel, owed: Outcome) -> bool {
    &&& after == owed.after
    &&& match owed.error {
        None => r is Ok,
        Some(fault) => r matches Err(e) && e@ == fault,
    }
}

/// What a stop has to do before it can end.
#[derive(Debug, Clone, Copy)]
pub struct StopPlan {
    /// The session to stop.
    pub id: Uuid,
    /// Its state.
    pub state: PlayerState,
    /// Whether the playback pipeline has to be stopped.
    pub stop_playback: bool,
}

/// Whether a pipeline runs in a state.
pub open spec fn pipeline_runs(state: PlayerState) -> bool {
    state == PlayerState::Playing || state == PlayerState::Paused || state
        == PlayerState::Buffering || state == PlayerState::Seeking
}

impl SessionManager {
    /// No session has two rows.
    pub open spec fn well_formed(&self) -> bool {
        ids_unique(self@.rows)
    }

    /// A manager without any sessions.
    pub fn empty() -> (r: SessionManager)
        ensures
            r@ == (ManagerModel {
                rows: Seq::empty(),
                active: None,
                events: Seq::empty(),
                snapshot: None,
            }),
            r.well_formed(),
    {
        let r = SessionManager {
            rows: Vec::new(),
            active: None,
            events: Vec::new(),
            snapshot: None,
        };
        assert(r@.rows =~= Seq::empty());
        assert(r@.events =~= Seq::empty());
        r
    }

    /// The manager after a restart with stored rows: those not updated since
    /// `cutoff` are dropped, sessions that were cut off are reset to idle, and
    /// no session is active. Of several rows under one id, the last counts.
    pub fn restart_at(rows: Vec<SessionRow>, cutoff: &str, now: Timestamp) -> (r: SessionManager)
        ensures
            r@ == (ManagerModel {
                rows: recovered(
                    recent(last_rows(row_models(rows@), rows@.len() as int), cutoff@),
                    now,
                ),
                active: None,
                events: Seq::empty(),
                snapshot: None,
            }),
            r.well_formed(),
    {
        let ghost all = row_models(rows@);
        let mut left = rows;
        let mut m = SessionManager::empty();
        let mut count: usize = 0;
        let total: usize = left.len();
        assert(all.skip(0) =~= all);
        while count < total
            invariant
                count <= total == all.len(),
                row_models(left@) == all.skip(count as int),
                m@ == (ManagerModel {
                    rows: last_rows(all, count as int),
                    active: None,
                    events: Seq::empty(),
                    snapshot: None,
                }),
                m.well_formed(),
            decreases total - count,
        {
            let ghost held = left@;
            assert(row_models(left@).len() == left@.len());
            let row = left.remove(0);
            assert(row@ == all[count as int]) by {
                assert(row_models(held)[0] == all.skip(count as int)[0]);
            }
            assert(row_models(left@) =~= all.skip(count + 1)) by {
                assert forall|i: int| 0 <= i < left@.len() implies row_models(left@)[i]
                    == all.skip(count + 1)[i] by {
                    assert(row_models(held)[i + 1] == all.skip(count as int)[i + 1]);
                }
            }
            m.put_row(row);
            count = count + 1;
        }
        m.cleanup_stale_sessions(cutoff);
        m.recover_crashed_sessions(now);
        m
    }

    /// The manager after a restart now: sessions not updated for a day are
    /// dropped.
    pub fn restart(rows: Vec<SessionRow>) -> (r: SessionManager)
        ensures
            exists|now: Timestamp|
                {
                    &&& representable(now)
                    &&& r@ == (ManagerModel {
                        rows: recovered(
                            recent(
                                last_rows(row_models(rows@), rows@.len() as int),
                                stamp_text(#[trigger] day_before(now)),
                            ),
                            now,
                        ),
                        active: None,
                        events: Seq::empty(),
                        snapshot: None,
                    })
                },
            r.well_formed(),
    {
        let now = utc_now();
        let cutoff = stale_cutoff(now);
        SessionManager::restart_at(rows, cutoff.as_str(), now)
    }

    /// The rows to store.
    pub fn rows(&self) -> (r: &Vec<SessionRow>)
        ensures
            row_models(r@) == self@.rows,
    {
        &self.rows
    }

    /// Hands out the events not yet handed out.
    pub fn take_events(&mut self) -> (r: Vec<SessionEvent>)
        ensures
            event_models(r@) == old(self)@.events,
            final(self)@ == (ManagerModel { events: Seq::empty(), ..old(self)@ }),
            old(self).well_formed() ==> final(self).well_formed(),
    {
        let mut out: Vec<SessionEvent> = Vec::new();
        out.append(&mut self.events);
        assert(event_models(out@) =~= old(self)@.events);
        assert(self@.events =~= Seq::empty());
        assert(self@.rows =~= old(self)@.rows);
        out
    }

    /// The latest published snapshot.
    pub fn snapshot(&self) -> (r: &Option<MediaSession>)
        ensures
            match *r {
                Some(s) => self@.snapshot == Some(s@),
                None => self@.snapshot is None,
            },
    {
        &self.snapshot
    }

    /// The active session, or an error where there is none.
    pub fn active_session_id(&self) -> (r: Result<Uuid, SessionError>)
        ensures
            match self@.active {
                Some(id) => r == Ok::<Uuid, SessionError>(id),
                None => r matches Err(e) && e@ == SessionFault::NoActiveSession,
            },
    {
        match self.active {
            Some(id) => Ok(id),
            None => Err(SessionError::NoActiveSession),
        }
    }

    fn index_of(&self, id: Uuid) -> (r: Option<usize>)
        ensures
            match r {
                Some(k) => k < self@.rows.len() && row_at(self@.rows, id, 0) == Some(k as int),
                None => row_at(self@.rows, id, 0) is None,
            },
    {
        let text = write_uuid(id);
        let mut i: usize = 0;
        while i < self.rows.len()
            invariant
                i <= self.rows@.len() == self@.rows.len(),
                text@ == uuid_text(id.bits),
                row_at(self@.rows, id, 0) == row_at(self@.rows, id, i as int),
            decreases self.rows.len() - i,
        {
            assert(self@.rows[i as int] == self.rows@[i as int]@);
            if same_text(self.rows[i].id.as_str(), text.as_str()) {
                return Some(i);
            }
            i = i + 1;
        }
        None
    }

    /// The stored session with the given id.
    pub fn load_session(&self, id: Uuid) -> (r: Result<MediaSession, SessionError>)
        ensures
            match stored_session(self@, id) {
                Ok(m) => r matches Ok(s) && s@ == m,
                Err(fault) => r matches Err(e) && e@ == fault,
            },
    {
        match self.index_of(id) {
            Some(k) => {
                assert(self@.rows[k as int] == self.rows@[k as int]@);
                read_row(&self.rows[k])
            },
            None => Err(SessionError::NotFound(id)),
        }
    }

    /// The stored session with the given id.
    pub fn status(&self, session_id: Uuid) -> (r: Result<MediaSession, SessionError>)
        ensures
            match stored_session(self@, session_id) {
                Ok(m) => r matches Ok(s) && s@ == m,
                Err(fault) => r matches Err(e) && e@ == fault,
            },
    {
        self.load_session(session_id)
    }

    /// The active session.
    pub fn current_status(&self) -> (r: Result<MediaSession, SessionError>)
        ensures
            match self@.active {
                Some(id) => match stored_session(self@, id) {
                    Ok(m) => r matches Ok(s) && s@ == m,
                    Err(fault) => r matches Err(e) && e@ == fault,
                },
                None => r matches Err(e) && e@ == SessionFault::NoActiveSession,
            },
    {
        match self.active {
            Some(id) => self.load_session(id),
            None => Err(SessionError::NoActiveSession),
        }
    }

    fn emit(&mut self, event: SessionEvent)
        ensures
            final(self)@ == emitted(old(self)@, event@),
    {
        self.events.push(event);
        assert(self@.events =~= old(self)@.events.push(event@));
        assert(self@.rows =~= old(self)@.rows);
    }

    fn replace_row(&mut self, k: usize, row: SessionRow)
        requires
            k < old(self)@.rows.len(),
        ensures
            final(self)@ == with_row(old(self)@, k as int, row@),
    {
        self.rows.set(k, row);
        assert(self@.rows =~= old(self)@.rows.update(k as int, row@));
    }

    fn copy_row(&self, k: usize) -> (r: SessionRow)
        requires
            k < self@.rows.len(),
        ensures
            r@ == self@.rows[k as int],
    {
        let row = &self.rows[k];
        SessionRow {
            id: owned(row.id.as_str()),
            source_url: owned(row.source_url.as_str()),
            resolved_url: clone_opt(&row.resolved_url),
            state: owned(row.state.as_str()),
            position_ms: row.position_ms,
            duration_ms: row.duration_ms,
            volume: row.volume,
            title: clone_opt(&row.title),
            created_at: owned(row.created_at.as_str()),
            updated_at: owned(row.updated_at.as_str()),
        }
    }

    /// Drops the row of an id.
    fn drop_row(&mut self, id: &str)
        requires
            old(self).well_formed(),
        ensures
            final(self)@ == (ManagerModel {
                rows: without_row(old(self)@.rows, id@),
                ..old(self)@
            }),
            final(self).well_formed(),
    {
        let ghost all = self@.rows;
        let mut i: usize = 0;
        let ghost mut seen: int = 0;
        proof {
            reveal(Seq::filter);
            assert(without_row(all.take(0), id@) =~= Seq::empty());
            assert(self@.rows =~= without_row(all.take(0), id@) + all.skip(0));
        }
        while i < self.rows.len()
            invariant
                0 <= seen <= all.len(),
                i == without_row(all.take(seen), id@).len(),
                self@.rows == without_row(all.take(seen), id@) + all.skip(seen),
                self@ == (ManagerModel { rows: self@.rows, ..old(self)@ }),
            decreases all.len() - seen,
        {
            let ghost kept = without_row(all.take(seen), id@);
            let ghost held = self.rows@;
            proof {
                reveal(Seq::filter);
                assert(self@.rows.len() == self.rows@.len());
                assert(self@.rows[i as int] == self.rows@[i as int]@);
                assert(self@.rows[i as int] == all[seen]);
                assert(all.take(seen + 1).drop_last() =~= all.take(seen));
                assert(all.take(seen + 1).last() == all[seen]);
            }
            if same_text(self.rows[i].id.as_str(), id) {
                self.rows.remove(i);
                proof {
                    assert(self@.rows =~= kept + all.skip(seen + 1)) by {
                        assert forall|k: int| 0 <= k < self@.rows.len() implies self@.rows[k] == (
                        kept + all.skip(seen + 1))[k] by {
                            if k < i {
                                assert(row_models(held)[k] == (kept + all.skip(seen))[k]);
                            } else {
                                assert(row_models(held)[k + 1] == (kept + all.skip(seen))[k + 1]);
                            }
                        }
                    }
                }
            } else {
                proof {
                    assert(kept.push(all[seen]) + all.skip(seen + 1) =~= kept + all.skip(seen));
                }
                i = i + 1;
            }
            proof {
                seen = seen + 1;
            }
        }
        proof {
            assert(self@.rows.len() == self.rows@.len());
            assert(all.take(all.len() as int) =~= all);
            assert(self@.rows =~= without_row(all, id@));
            lemma_without_row(all, id@);
        }
    }

    /// Replaces the row of an id.
    fn put_row(&mut self, row: SessionRow)
        requires
            old(self).well_formed(),
        ensures
            final(self)@ == (ManagerModel {
                rows: without_row(old(self)@.rows, row@.id).push(row@),
                ..old(self)@
            }),
            final(self).well_formed(),
    {
        self.drop_row(row.id.as_str());
        proof {
            lemma_without_row(old(self)@.rows, row@.id);
        }
        self.rows.push(row);
        assert(self@.rows =~= without_row(old(self)@.rows, row@.id).push(row@));
    }

    /// Stores a session, in place of the one with its id. Where its times have
    /// a written form, it reads back as it is.
    pub fn insert_session(&mut self, session: &MediaSession)
        requires
            old(self).well_formed(),
        ensures
            final(self)@ == (ManagerModel {
                rows: without_row(old(self)@.rows, uuid_text(session.id.bits)).push(
                    row_of(session@),
                ),
                ..old(self)@
            }),
            representable(session.created_at) && representable(session.updated_at)
                ==> stored_session(final(self)@, session.id) == Ok::<MediaModel, SessionFault>(
                session@,
            ),
            final(self).well_formed(),
    {
        let row = make_row(session);
        self.put_row(row);
        proof {
            lemma_put_row_found(old(self)@.rows, session.id, row@);
        }
    }

    /// Moves a stored session to a state at a given time, where that may
    /// follow, and announces it.
    pub fn try_transition_at(&mut self, session_id: Uuid, target: PlayerState, now: Timestamp) -> (r:
        Result<PlayerState, SessionError>)
        requires
            old(self).well_formed(),
        ensures
            match transitioned(old(self)@, session_id, target, now) {
                Ok(after) => final(self)@ == after && r == Ok::<PlayerState, SessionError>(target),
                Err(fault) => {
                    &&& final(self)@ == old(self)@
                    &&& r matches Err(e) && e@ == fault
                },
            },
            final(self).well_formed(),
    {
        let k: usize = match self.index_of(session_id) {
            Some(k) => k,
            None => {
                return Err(SessionError::NotFound(session_id));
            },
        };
        let mut row = self.copy_row(k);
        let current = match PlayerState::parse_name(row.state.as_str()) {
            Ok(state) => state,
            Err(cause) => {
                return Err(
                    SessionError::Subsystem(join2("corrupt state in db: ", cause.as_str())),
                );
            },
        };
        if !current.can_transition_to(target) {
            return Err(SessionError::InvalidTransition { from: current, to: target });
        }
        row.state = target.name();
        row.updated_at = stamp(now);
        self.replace_row(k, row);
        proof {
            lemma_update_keeps_ids(old(self)@.rows, k as int, row@);
        }
        match make_entry_event(session_id, target) {
            Some(event) => self.emit(event),
            None => {},
        }
        Ok(target)
    }

    /// Moves a stored session to a state now.
    pub fn try_transition(&mut self, session_id: Uuid, target: PlayerState) -> (r: Result<
        PlayerState,
        SessionError,
    >)
        requires
            old(self).well_formed(),
        ensures
            exists|now: Timestamp|
                {
                    let owed = #[trigger] transitioned(old(self)@, session_id, target, now);
                    &&& representable(now)
                    &&& match owed {
                        Ok(after) => final(self)@ == after && r == Ok::<
                            PlayerState,
                            SessionError,
                        >(target),
                        Err(fault) => {
                            &&& final(self)@ == old(self)@
                            &&& r matches Err(e) && e@ == fault
                        },
                    }
                },
            final(self).well_formed(),
    {
        let now = utc_now();
        self.try_transition_at(session_id, target, now)
    }

    fn force(&mut self, id: Uuid, target: PlayerState, now: Timestamp) -> (r: Result<
        (),
        SessionError,
    >)
        requires
            old(self).well_formed(),
        ensures
            owes(r, final(self)@, forced(old(self)@, id, target, now)),
            final(self).well_formed(),
    {
        match self.try_transition_at(id, target, now) {
            Ok(_) => Ok(()),
            Err(e) => Err(e),
        }
    }

    fn abandon(&mut self, id: Uuid, now: Timestamp)
        requires
            old(self).well_formed(),
        ensures
            final(self)@ == abandoned(old(self)@, id, now),
            final(self).well_formed(),
    {
        let _ = self.try_transition_at(id, PlayerState::Error, now);
        self.active = None;
    }

    /// Publishes the stored session, where it can be read.
    pub fn publish(&mut self, id: Uuid)
        requires
            old(self).well_formed(),
        ensures
            final(self)@ == published(old(self)@, id),
            final(self).well_formed(),
    {
        match self.load_session(id) {
            Ok(session) => {
                self.snapshot = Some(session);
            },
            Err(_) => {},
        }
    }

    /// Begins to load a URL at a given time, as the session `id`: refused while
    /// a session is active.
    pub fn begin_load_at(&mut self, url: &str, id: Uuid, now: Timestamp) -> (r: Result<
        (),
        SessionError,
    >)
        requires
            old(self).well_formed(),
        ensures
            owes(r, final(self)@, load_begun(old(self)@, url@, id, now)),
            final(self).well_formed(),
    {
        if self.active.is_some() {
            return Err(SessionError::AlreadyActive);
        }
        let session = MediaSession::new_at(owned(url), id, now);
        self.active = Some(id);
        self.insert_session(&session);
        self.emit(SessionEvent::Created { id, url: owned(url) });
        self.force(id, PlayerState::Resolving, now)
    }

    /// Begins to load a URL now, as a session with a random id.
    pub fn begin_load(&mut self, url: &str) -> (r: Result<Uuid, SessionError>)
        requires
            old(self).well_formed(),
        ensures
            exists|id: Uuid, now: Timestamp|
                {
                    let owed = #[trigger] load_begun(old(self)@, url@, id, now);
                    &&& marked_random(id.bits)
                    &&& representable(now)
                    &&& final(self)@ == owed.after
                    &&& match owed.error {
                        None => r == Ok::<Uuid, SessionError>(id),
                        Some(fault) => r matches Err(e) && e@ == fault,
                    }
                },
            final(self).well_formed(),
    {
        let id = fresh_uuid();
        let now = utc_now();
        let r = self.begin_load_at(url, id, now);
        match r {
            Ok(_) => Ok(id),
            Err(e) => Err(e),
        }
    }

    /// Takes in the outcome of resolution.
    pub fn finish_resolution(
        &mut self,
        id: Uuid,
        outcome: Result<ResolveInfo, String>,
        now: Timestamp,
    ) -> (r: Result<(), SessionError>)
        requires
            old(self).well_formed(),
        ensures
            owes(r, final(self)@, resolution_ended(old(self)@, id, outcome, now)),
            final(self).well_formed(),
    {
        match outcome {
            Err(cause) => {
                self.abandon(id, now);
                Err(SessionError::ResolutionFailed(cause))
            },
            Ok(info) => {
                match self.index_of(id) {
                    Some(k) => {
                        let mut row = self.copy_row(k);
                        row.resolved_url = Some(owned(info.direct_url.as_str()));
                        row.title = clone_opt(&info.title);
                        row.duration_ms = match info.duration_ms {
                            Some(d) => Some(to_signed64(d)),
                            None => None,
                        };
                        row.updated_at = stamp(now);
                        self.replace_row(k, row);
                        proof {
                            lemma_update_keeps_ids(old(self)@.rows, k as int, row@);
                        }
                    },
                    None => {},
                }
                self.emit(
                    SessionEvent::Resolved {
                        id,
                        direct_url: owned(info.direct_url.as_str()),
                        title: clone_opt(&info.title),
                    },
                );
                Ok(())
            },
        }
    }

    /// Takes in whether the display was acquired.
    pub fn finish_display(&mut self, id: Uuid, outcome: Result<(), String>, now: Timestamp) -> (r:
        Result<(), SessionError>)
        requires
            old(self).well_formed(),
        ensures
            owes(r, final(self)@, display_ended(old(self)@, id, outcome, now)),
            final(self).well_formed(),
    {
        match outcome {
            Err(cause) => {
                self.abandon(id, now);
                Err(SessionError::DisplayError(cause))
            },
            Ok(_) => self.force(id, PlayerState::Buffering, now),
        }
    }

    /// Takes in whether playback began.
    pub fn finish_playback(&mut self, id: Uuid, outcome: Result<(), String>, now: Timestamp) -> (r:
        Result<(), SessionError>)
        requires
            old(self).well_formed(),
        ensures
            owes(r, final(self)@, playback_ended(old(self)@, id, outcome, now)),
            final(self).well_formed(),
    {
        match outcome {
            Err(cause) => {
                self.abandon(id, now);
                Err(SessionError::PlaybackError(cause))
            },
            Ok(_) => self.force(id, PlayerState::Playing, now),
        }
    }

    fn command(
        &mut self,
        id: Uuid,
        from: PlayerState,
        target: PlayerState,
        outcome: Result<(), String>,
        now: Timestamp,
    ) -> (r: Result<(), SessionError>)
        requires
            old(self).well_formed(),
        ensures
            owes(r, final(self)@, commanded(old(self)@, id, from, target, outcome, now)),
            final(self).well_formed(),
    {
        match outcome {
            Err(cause) => {
                return Err(SessionError::PlaybackError(cause));
            },
            Ok(_) => {},
        }
        let k: usize = match self.index_of(id) {
            Some(k) => k,
            None => {
                return Err(SessionError::NotFound(id));
            },
        };
        assert(self@.rows[k as int] == self.rows@[k as int]@);
        match PlayerState::parse_name(self.rows[k].state.as_str()) {
            Err(cause) => Err(
                SessionError::Subsystem(join2("corrupt state in db: ", cause.as_str())),
            ),
            Ok(current) => if current == from {
                self.force(id, target, now)
            } else {
                Err(SessionError::InvalidTransition { from: current, to: target })
            },
        }
    }

    /// Takes in whether the pipeline paused. Valid only while playing.
    pub fn finish_pause(&mut self, id: Uuid, outcome: Result<(), String>, now: Timestamp) -> (r:
        Result<(), SessionError>)
        requires
            old(self).well_formed(),
        ensures
            owes(
                r,
                final(self)@,
                commanded(
                    old(self)@,
                    id,
                    PlayerState::Playing,
                    PlayerState::Paused,
                    outcome,
                    now,
                ),
            ),
            final(self).well_formed(),
    {
        self.command(id, PlayerState::Playing, PlayerState::Paused, outcome, now)
    }

    /// Takes in whether the pipeline resumed. Valid only while paused.
    pub fn finish_resume(&mut self, id: Uuid, outcome: Result<(), String>, now: Timestamp) -> (r:
        Result<(), SessionError>)
        requires
            old(self).well_formed(),
        ensures
            owes(
                r,
                final(self)@,
                commanded(
                    old(self)@,
                    id,
                    PlayerState::Paused,
                    PlayerState::Playing,
                    outcome,
                    now,
                ),
            ),
            final(self).well_formed(),
    {
        self.command(id, PlayerState::Paused, PlayerState::Playing, outcome, now)
    }

    /// Begins to stop the active session: what has to be done first.
    pub fn begin_stop(&self) -> (r: Result<StopPlan, SessionError>)
        ensures
            match self@.active {
                None => r matches Err(e) && e@ == SessionFault::NoActiveSession,
                Some(id) => match stored_session(self@, id) {
                    Err(fault) => r matches Err(e) && e@ == fault,
                    Ok(m) => r matches Ok(plan) && plan.id == id && plan.state == m.state
                        && plan.stop_playback == pipeline_runs(m.state),
                },
            },
    {
        match self.active {
            None => Err(SessionError::NoActiveSession),
            Some(id) => match self.load_session(id) {
                Err(e) => Err(e),
                Ok(session) => {
                    let state = session.state;
                    Ok(
                        StopPlan {
                            id,
                            state,
                            stop_playback: state == PlayerState::Playing || state
                                == PlayerState::Paused || state == PlayerState::Buffering || state
                                == PlayerState::Seeking,
                        },
                    )
                },
            },
        }
    }

    /// Ends a stop, once the pipeline and the display are released.
    pub fn finish_stop(&mut self, plan: &StopPlan, now: Timestamp)
        requires
            old(self).well_formed(),
        ensures
            final(self)@ == stop_ended(old(self)@, plan.id, plan.state, now),
            final(self).well_formed(),
    {
        if plan.state != PlayerState::Idle {
            let _ = self.try_transition_at(plan.id, PlayerState::Idle, now);
        }
        self.active = None;
        let text = write_uuid(plan.id);
        self.drop_row(text.as_str());
        self.snapshot = None;
    }

    /// Begins to seek in the active session; returns its id and the state to
    /// go back to.
    pub fn begin_seek(&mut self, position_ms: u64, now: Timestamp) -> (r: Result<
        (Uuid, PlayerState),
        SessionError,
    >)
        requires
            old(self).well_formed(),
        ensures
            match old(self)@.active {
                None => {
                    &&& r matches Err(e) && e@ == SessionFault::NoActiveSession
                    &&& final(self)@ == old(self)@
                },
                Some(id) => {
                    let owed = seek_begun(old(self)@, id, position_ms, now);
                    &&& final(self)@ == owed.after
                    &&& match owed.error {
                        None => r == Ok::<(Uuid, PlayerState), SessionError>(
                            (id, stored_session(old(self)@, id)->Ok_0.state),
                        ),
                        Some(fault) => r matches Err(e) && e@ == fault,
                    }
                },
            },
            final(self).well_formed(),
    {
        let id = match self.active {
            Some(id) => id,
            None => {
                return Err(SessionError::NoActiveSession);
            },
        };
        let was = match self.load_session(id) {
            Ok(session) => session.state,
            Err(e) => {
                return Err(e);
            },
        };
        match self.try_transition_at(id, PlayerState::Seeking, now) {
            Ok(_) => {},
            Err(e) => {
                return Err(e);
            },
        }
        self.emit(SessionEvent::Seeking { id, position_ms });
        Ok((id, was))
    }

    /// Ends a seek: back to the state before it.
    pub fn finish_seek(
        &mut self,
        id: Uuid,
        was: PlayerState,
        outcome: Result<(), String>,
        now: Timestamp,
    ) -> (r: Result<(), SessionError>)
        requires
            old(self).well_formed(),
        ensures
            owes(r, final(self)@, seek_ended(old(self)@, id, was, outcome, now)),
            final(self).well_formed(),
    {
        match outcome {
            Err(cause) => {
                return Err(SessionError::PlaybackError(cause));
            },
            Ok(_) => {},
        }
        match self.try_transition_at(id, PlayerState::Playing, now) {
            Ok(_) => {},
            Err(e) => {
                return Err(e);
            },
        }
        if was == PlayerState::Paused {
            self.force(id, PlayerState::Paused, now)
        } else {
            Ok(())
        }
    }

    /// Notes a volume for the active session; returns its id and the clamped
    /// volume to set.
    pub fn begin_volume(&mut self, volume: u8, now: Timestamp) -> (r: Result<
        (Uuid, u8),
        SessionError,
    >)
        requires
            old(self).well_formed(),
        ensures
            match old(self)@.active {
                None => {
                    &&& r matches Err(e) && e@ == SessionFault::NoActiveSession
                    &&& final(self)@ == old(self)@
                },
                Some(id) => {
                    &&& r == Ok::<(Uuid, u8), SessionError>((id, clamped(volume)))
                    &&& final(self)@ == volume_noted(old(self)@, id, volume, now)
                },
            },
            final(self).well_formed(),
    {
        let id = match self.active {
            Some(id) => id,
            None => {
                return Err(SessionError::NoActiveSession);
            },
        };
        let level: u8 = if volume <= 100 {
            volume
        } else {
            100
        };
        match self.index_of(id) {
            Some(k) => {
                let mut row = self.copy_row(k);
                row.volume = level as i32;
                row.updated_at = stamp(now);
                self.replace_row(k, row);
                proof {
                    lemma_update_keeps_ids(old(self)@.rows, k as int, row@);
                }
            },
            None => {},
        }
        Ok((id, level))
    }

    /// Takes in whether the volume was set.
    pub fn finish_volume(&mut self, id: Uuid, volume: u8, outcome: Result<(), String>) -> (r: Result<
        (),
        SessionError,
    >)
        requires
            old(self).well_formed(),
        ensures
            owes(r, final(self)@, volume_ended(old(self)@, id, volume, outcome)),
            final(self).well_formed(),
    {
        match outcome {
            Err(cause) => Err(SessionError::PlaybackError(cause)),
            Ok(_) => {
                let level: u8 = if volume <= 100 {
                    volume
                } else {
                    100
                };
                self.emit(SessionEvent::VolumeChanged { id, volume: level });
                self.publish(id);
                Ok(())
            },
        }
    }

    /// Takes in position and duration, as far as the pipeline tells them.
    pub fn refresh_playback_position(
        &mut self,
        session_id: Uuid,
        position_ms: Option<u64>,
        duration_ms: Option<u64>,
        now: Timestamp,
    )
        requires
            old(self).well_formed(),
        ensures
            final(self)@ == refreshed(old(self)@, session_id, position_ms, duration_ms, now),
            final(self).well_formed(),
    {
        if position_ms.is_none() && duration_ms.is_none() {
            return;
        }
        match self.index_of(session_id) {
            Some(k) => {
                let mut row = self.copy_row(k);
                match position_ms {
                    Some(p) => {
                        row.position_ms = to_signed64(p);
                    },
                    None => {},
                }
                match duration_ms {
                    Some(d) => {
                        row.duration_ms = Some(to_signed64(d));
                    },
                    None => {},
                }
                row.updated_at = stamp(now);
                self.replace_row(k, row);
                proof {
                    lemma_update_keeps_ids(old(self)@.rows, k as int, row@);
                }
            },
            None => {},
        }
        let position: u64 = match position_ms {
            Some(p) => p,
            None => 0,
        };
        self.emit(
            SessionEvent::PositionUpdate { id: session_id, position_ms: position, duration_ms },
        );
        self.publish(session_id);
    }

    /// Drops the sessions not updated since a moment, given in its written
    /// form.
    pub fn cleanup_stale_sessions(&mut self, cutoff: &str)
        requires
            old(self).well_formed(),
        ensures
            final(self)@ == (ManagerModel {
                rows: recent(old(self)@.rows, cutoff@),
                ..old(self)@
            }),
            final(self).well_formed(),
    {
        let ghost all = self@.rows;
        let mut i: usize = 0;
        let ghost mut seen: int = 0;
        proof {
            reveal(Seq::filter);
            assert(recent(all.take(0), cutoff@) =~= Seq::empty());
            assert(self@.rows =~= recent(all.take(0), cutoff@) + all.skip(0));
        }
        while i < self.rows.len()
            invariant
                0 <= seen <= all.len(),
                i == recent(all.take(seen), cutoff@).len(),
                self@.rows == recent(all.take(seen), cutoff@) + all.skip(seen),
                self@ == (ManagerModel { rows: self@.rows, ..old(self)@ }),
            decreases all.len() - seen,
        {
            let ghost kept = recent(all.take(seen), cutoff@);
            let ghost held = self.rows@;
            proof {
                reveal(Seq::filter);
                assert(self@.rows.len() == self.rows@.len());
                assert(self@.rows[i as int] == self.rows@[i as int]@);
                assert(self@.rows[i as int] == all[seen]);
                assert(all.take(seen + 1).drop_last() =~= all.take(seen));
                assert(all.take(seen + 1).last() == all[seen]);
            }
            if text_before(self.rows[i].updated_at.as_str(), cutoff) {
                self.rows.remove(i);
                proof {
                    assert(self@.rows =~= kept + all.skip(seen + 1)) by {
                        assert forall|k: int| 0 <= k < self@.rows.len() implies self@.rows[k] == (
                        kept + all.skip(seen + 1))[k] by {
                            if k < i {
                                assert(row_models(held)[k] == (kept + all.skip(seen))[k]);
                            } else {
                                assert(row_models(held)[k + 1] == (kept + all.skip(seen))[k + 1]);
                            }
                        }
                    }
                }
            } else {
                proof {
                    assert(kept.push(all[seen]) + all.skip(seen + 1) =~= kept + all.skip(seen));
                }
                i = i + 1;
            }
            proof {
                seen = seen + 1;
            }
        }
        proof {
            assert(self@.rows.len() == self.rows@.len());
            assert(all.take(all.len() as int) =~= all);
            assert(self@.rows =~= recent(all, cutoff@));
            lemma_recent(all, cutoff@);
        }
    }

    /// Resets sessions that were cut off to idle.
    pub fn recover_crashed_sessions(&mut self, now: Timestamp)
        requires
            old(self).well_formed(),
        ensures
            final(self)@ == (ManagerModel {
                rows: recovered(old(self)@.rows, now),
                ..old(self)@
            }),
            final(self).well_formed(),
    {
        let ghost all = self@.rows;
        let mut i: usize = 0;
        while i < self.rows.len()
            invariant
                i <= self@.rows.len() == all.len(),
                self@.rows.len() == self.rows@.len(),
                self@ == (ManagerModel { rows: self@.rows, ..old(self)@ }),
                forall|k: int| 0 <= k < i ==> #[trigger] self@.rows[k] == recovered(all, now)[k],
                forall|k: int| i <= k < all.len() ==> #[trigger] self@.rows[k] == all[k],
            decreases self.rows.len() - i,
        {
            let mut row = self.copy_row(i);
            if !same_text(row.state.as_str(), "idle") && !same_text(row.state.as_str(), "error") {
                row.state = owned("idle");
                row.updated_at = stamp(now);
                self.replace_row(i, row);
            }
            i = i + 1;
        }
        proof {
            assert(self@.rows =~= recovered(all, now));
            assert forall|a: int, b: int| 0 <= a < b < self@.rows.len() implies (
            #[trigger] self@.rows[a]).id != (#[trigger] self@.rows[b]).id by {
                assert(all[a].id != all[b].id);
            }
        }
    }
}

/// The rows left of the first `n` when each replaces those under its id before
/// it.
pub open spec fn last_rows(rows: Seq<RowModel>, n: int) -> Seq<RowModel>
    decreases n,
{
    if n <= 0 {
        Seq::empty()
    } else {
        without_row(last_rows(rows, n - 1), rows[n - 1].id).push(rows[n - 1])
    }
}

/// How long a session is kept without an update, in seconds.
pub const STALE_AGE_SECS: i64 = 86400;

/// The second a day before a moment.
pub open spec fn day_before(now: Timestamp) -> Timestamp {
    Timestamp {
        secs: if now.secs - STALE_AGE_SECS >= i64::MIN {
            (now.secs - STALE_AGE_SECS) as i64
        } else {
            i64::MIN
        },
        nanos: 0,
    }
}

/// The written form of the second a day before a moment. Within the calendar,
/// exactly the moments more than a day in the past are written before it.
pub fn stale_cutoff(now: Timestamp) -> (r: String)
    ensures
        r@ == stamp_text(day_before(now)),
        in_calendar(day_before(now)) ==> forall|o: Timestamp|
            in_calendar(o) ==> (before(#[trigger] stamp_text(o), r@, 0) <==> o.secs < now.secs
                - STALE_AGE_SECS),
{
    let secs: i64 = if now.secs >= i64::MIN + STALE_AGE_SECS {
        now.secs - STALE_AGE_SECS
    } else {
        i64::MIN
    };
    stamp(Timestamp { secs, nanos: 0 })
}

/// The host that isolates the circuit of a URL; empty where it has none.
pub fn isolation_host(url: &str) -> (r: String)
    ensures
        r@ == match url_parse(url@) {
            Ok(parts) => match parts.host {
                Some(host) => host,
                None => Seq::empty(),
            },
            Err(_) => Seq::empty(),
        },
{
    match parse_url(url) {
        Ok(parts) => match parts.host {
            Some(host) => host,
            None => String::new(),
        },
        Err(_) => String::new(),
    }
}

// ---------------------------------------------------------------------------
// Laws
// ---------------------------------------------------------------------------

proof fn lemma_update_keeps_ids(rows: Seq<RowModel>, k: int, row: RowModel)
    requires
        0 <= k < rows.len(),
        row.id == rows[k].id,
        ids_unique(rows),
    ensures
        ids_unique(rows.update(k, row)),
{
    let after = rows.update(k, row);
    assert forall|i: int, j: int| 0 <= i < j < after.len() implies (#[trigger] after[i]).id != (
    #[trigger] after[j]).id by {
        assert(rows[i].id != rows[j].id);
    }
}

/// Rows of other sessions are what is left, and all of it was there before.
pub proof fn lemma_without_row(rows: Seq<RowModel>, id: Seq<char>)
    ensures
        forall|i: int|
            0 <= i < without_row(rows, id).len() ==> (#[trigger] without_row(rows, id)[i]).id != id
                && rows.contains(without_row(rows, id)[i]),
        ids_unique(rows) ==> ids_unique(without_row(rows, id)),
    decreases rows.len(),
{
    reveal(Seq::filter);
    if rows.len() > 0 {
        let front = rows.drop_last();
        lemma_without_row(front, id);
        let kept = without_row(front, id);
        let all = without_row(rows, id);
        assert forall|i: int| 0 <= i < all.len() implies (#[trigger] all[i]).id != id
            && rows.contains(all[i]) by {
            if i < kept.len() {
                assert(all[i] == kept[i]);
                assert(front.contains(kept[i]));
                let j = choose|j: int| 0 <= j < front.len() && front[j] == kept[i];
                assert(rows[j] == all[i]);
            } else {
                assert(all[i] == rows.last());
                assert(rows[rows.len() - 1] == all[i]);
            }
        }
        if ids_unique(rows) {
            assert(ids_unique(front));
            assert forall|i: int, j: int| 0 <= i < j < all.len() implies (#[trigger] all[i]).id != (
            #[trigger] all[j]).id by {
                if j < kept.len() {
                    assert(kept[i].id != kept[j].id);
                } else {
                    assert(front.contains(kept[i]));
                    let k = choose|k: int| 0 <= k < front.len() && front[k] == kept[i];
                    assert(rows[k].id != rows[rows.len() - 1].id);
                }
            }
        }
    }
}

/// Recent rows were not updated before the cutoff, and all were there before.
pub proof fn lemma_recent(rows: Seq<RowModel>, cutoff: Seq<char>)
    ensures
        forall|i: int|
            0 <= i < recent(rows, cutoff).len() ==> !before(
                (#[trigger] recent(rows, cutoff)[i]).updated_at,
                cutoff,
                0,
            ) && rows.contains(recent(rows, cutoff)[i]),
        ids_unique(rows) ==> ids_unique(recent(rows, cutoff)),
    decreases rows.len(),
{
    reveal(Seq::filter);
    if rows.len() > 0 {
        let front = rows.drop_last();
        lemma_recent(front, cutoff);
        let kept = recent(front, cutoff);
        let all = recent(rows, cutoff);
        assert forall|i: int| 0 <= i < all.len() implies !before(
            (#[trigger] all[i]).updated_at,
            cutoff,
            0,
        ) && rows.contains(all[i]) by {
            if i < kept.len() {
                assert(all[i] == kept[i]);
                assert(front.contains(kept[i]));
                let j = choose|j: int| 0 <= j < front.len() && front[j] == kept[i];
                assert(rows[j] == all[i]);
            } else {
                assert(all[i] == rows.last());
                assert(rows[rows.len() - 1] == all[i]);
            }
        }
        if ids_unique(rows) {
            assert(ids_unique(front));
            assert forall|i: int, j: int| 0 <= i < j < all.len() implies (#[trigger] all[i]).id != (
            #[trigger] all[j]).id by {
                if j < kept.len() {
                    assert(kept[i].id != kept[j].id);
                } else {
                    assert(front.contains(kept[i]));
                    let k = choose|k: int| 0 <= k < front.len() && front[k] == kept[i];
                    assert(rows[k].id != rows[rows.len() - 1].id);
                }
            }
        }
    }
}

/// What `row_at` finds: a row of the session, or none is there.
pub proof fn lemma_row_at(rows: Seq<RowModel>, id: Uuid, i: int)
    requires
        0 <= i,
    ensures
        match row_at(rows, id, i) {
            Some(k) => i <= k < rows.len() && rows[k].id == uuid_text(id.bits),
            None => forall|j: int|
                i <= j < rows.len() ==> (#[trigger] rows[j]).id != uuid_text(id.bits),
        },
    decreases rows.len() - i,
{
    if i < rows.len() && rows[i].id != uuid_text(id.bits) {
        lemma_row_at(rows, id, i + 1);
    }
}

/// A row that was put last is found.
pub proof fn lemma_put_row_found(rows: Seq<RowModel>, id: Uuid, row: RowModel)
    requires
        row.id == uuid_text(id.bits),
    ensures
        row_at(without_row(rows, row.id).push(row), id, 0) == Some(
            without_row(rows, row.id).len() as int,
        ),
{
    let all = without_row(rows, row.id).push(row);
    lemma_without_row(rows, row.id);
    lemma_row_at(all, id, 0);
    let n = all.len() - 1;
    assert(all[n].id == uuid_text(id.bits));
    let k = row_at(all, id, 0)->0;
    if k < n {
        assert(all[k] == without_row(rows, row.id)[k]);
        assert(without_row(rows, row.id)[k].id != row.id);
    }
}

/// Whether two tables hold the same rows under an id.
pub open spec fn same_under(rows: Seq<RowModel>, after: Seq<RowModel>, id: Uuid) -> bool {
    forall|r: RowModel|
        r.id == uuid_text(id.bits) ==> (rows.contains(r) <==> #[trigger] after.contains(r))
}

proof fn lemma_same_row(rows: Seq<RowModel>, after: Seq<RowModel>, id: Uuid)
    requires
        ids_unique(rows),
        ids_unique(after),
        same_under(rows, after, id),
    ensures
        match row_at(rows, id, 0) {
            Some(k) => row_at(after, id, 0) matches Some(n) && after[n] == rows[k],
            None => row_at(after, id, 0) is None,
        },
{
    lemma_row_at(rows, id, 0);
    lemma_row_at(after, id, 0);
    if let Some(k) = row_at(rows, id, 0) {
        assert(rows.contains(rows[k]));
        assert(after.contains(rows[k]));
        let j = choose|j: int| 0 <= j < after.len() && after[j] == rows[k];
        let n = row_at(after, id, 0)->0;
        assert(after[j].id == after[n].id);
        assert(j == n);
    } else if let Some(n) = row_at(after, id, 0) {
        assert(after.contains(after[n]));
        let j = choose|j: int| 0 <= j < rows.len() && rows[j] == after[n];
        assert(rows[j].id == uuid_text(id.bits));
    }
}

/// What is stored under an id stays as it is while another session is stored,
/// deleted or moved to another state.
pub proof fn lemma_other_sessions_stay(
    m: ManagerModel,
    id: Uuid,
    other: Uuid,
    row: RowModel,
    target: PlayerState,
    now: Timestamp,
)
    requires
        ids_unique(m.rows),
        id != other,
        row.id == uuid_text(other.bits),
    ensures
        stored_session(
            ManagerModel { rows: without_row(m.rows, uuid_text(other.bits)).push(row), ..m },
            id,
        ) == stored_session(m, id),
        stored_session(
            ManagerModel { rows: without_row(m.rows, uuid_text(other.bits)), ..m },
            id,
        ) == stored_session(m, id),
        transitioned(m, other, target, now) matches Ok(after) ==> stored_session(after, id)
            == stored_session(m, id),
{
    lemma_uuid_text_distinct(id.bits, other.bits);
    let rest = without_row(m.rows, row.id);
    lemma_without_row(m.rows, row.id);
    m.rows.filter_lemma(|r: RowModel| r.id != row.id);
    assert forall|r: RowModel| r.id == uuid_text(id.bits) implies (m.rows.contains(r) <==>
        #[trigger] rest.contains(r)) by {
        if m.rows.contains(r) {
            let j = choose|j: int| 0 <= j < m.rows.len() && m.rows[j] == r;
            assert(rest.contains(m.rows[j]));
        }
        if rest.contains(r) {
            let j = choose|j: int| 0 <= j < rest.len() && rest[j] == r;
            assert(m.rows.contains(rest[j]));
        }
    }
    lemma_same_row(m.rows, rest, id);
    let put = rest.push(row);
    assert forall|r: RowModel| r.id == uuid_text(id.bits) implies (m.rows.contains(r) <==>
        #[trigger] put.contains(r)) by {
        if rest.contains(r) {
            let j = choose|j: int| 0 <= j < rest.len() && rest[j] == r;
            assert(put[j] == r);
        }
        if put.contains(r) {
            let j = choose|j: int| 0 <= j < put.len() && put[j] == r;
            assert(rest[j] == r);
        }
        assert(m.rows.contains(r) <==> rest.contains(r));
    }
    lemma_same_row(m.rows, put, id);
    if let Some(k) = row_at(m.rows, other, 0) {
        lemma_row_at(m.rows, other, 0);
        let moved = m.rows.update(
            k,
            RowModel { state: player_name(target), updated_at: stamp_text(now), ..m.rows[k] },
        );
        assert forall|r: RowModel| r.id == uuid_text(id.bits) implies (m.rows.contains(r) <==>
            #[trigger] moved.contains(r)) by {
            if m.rows.contains(r) {
                let j = choose|j: int| 0 <= j < m.rows.len() && m.rows[j] == r;
                assert(moved[j] == r);
            }
            if moved.contains(r) {
                let j = choose|j: int| 0 <= j < moved.len() && moved[j] == r;
                assert(m.rows[j] == r);
            }
        }
        lemma_same_row(m.rows, moved, id);
    }
}

/// Whether the active session, if there is one, is stored.
pub open spec fn active_stored(m: ManagerModel) -> bool {
    m.active matches Some(id) ==> row_at(m.rows, id, 0) is Some
}

proof fn lemma_transition_keeps_stored(
    m: ManagerModel,
    id: Uuid,
    target: PlayerState,
    now: Timestamp,
)
    requires
        active_stored(m),
    ensures
        transitioned(m, id, target, now) matches Ok(after) ==> active_stored(after) && after.active
            == m.active,
        active_stored(attempted(m, id, target, now)),
        active_stored(abandoned(m, id, now)),
        active_stored(forced(m, id, target, now).after),
{
    match row_at(m.rows, id, 0) {
        Some(k) => {
            lemma_row_at(m.rows, id, 0);
            let row = RowModel {
                state: player_name(target),
                updated_at: stamp_text(now),
                ..m.rows[k]
            };
            match m.active {
                Some(active) => lemma_row_at_update(m.rows, active, k, row, 0),
                None => {},
            }
        },
        None => {},
    }
}

proof fn lemma_row_update_keeps_stored(m: ManagerModel, id: Uuid, k: int, row: RowModel)
    requires
        active_stored(m),
        row_at(m.rows, id, 0) == Some(k),
        row.id == m.rows[k].id,
    ensures
        active_stored(with_row(m, k, row)),
{
    lemma_row_at(m.rows, id, 0);
    match m.active {
        Some(active) => lemma_row_at_update(m.rows, active, k, row, 0),
        None => {},
    }
}

/// Loading keeps the active session stored, step by step.
pub proof fn lemma_load_keeps_stored(
    m: ManagerModel,
    id: Uuid,
    url: Seq<char>,
    resolution: Result<ResolveInfo, String>,
    outcome: Result<(), String>,
    now: Timestamp,
)
    requires
        active_stored(m),
        ids_unique(m.rows),
    ensures
        active_stored(load_begun(m, url, id, now).after),
        active_stored(resolution_ended(m, id, resolution, now).after),
        active_stored(display_ended(m, id, outcome, now).after),
        active_stored(playback_ended(m, id, outcome, now).after),
{
    if m.active is None {
        let row = row_of(new_media(url, id, now));
        lemma_put_row_found(m.rows, id, row);
        let created = emitted(
            ManagerModel {
                active: Some(id),
                rows: without_row(m.rows, row.id).push(row),
                ..m
            },
            EventModel::Created { id, url },
        );
        lemma_transition_keeps_stored(created, id, PlayerState::Resolving, now);
    }
    lemma_transition_keeps_stored(m, id, PlayerState::Error, now);
    lemma_transition_keeps_stored(m, id, PlayerState::Buffering, now);
    lemma_transition_keeps_stored(m, id, PlayerState::Playing, now);
    match resolution {
        Ok(info) => match row_at(m.rows, id, 0) {
            Some(k) => {
                lemma_row_at(m.rows, id, 0);
                lemma_row_update_keeps_stored(m, id, k, noted(m, id, info, now).rows[k]);
            },
            None => {},
        },
        Err(_) => {},
    }
}

/// Every command on a running session keeps the active session stored.
pub proof fn lemma_commands_keep_stored(
    m: ManagerModel,
    id: Uuid,
    from: PlayerState,
    target: PlayerState,
    position_ms: u64,
    volume: u8,
    outcome: Result<(), String>,
    now: Timestamp,
)
    requires
        active_stored(m),
    ensures
        active_stored(commanded(m, id, from, target, outcome, now).after),
        active_stored(seek_begun(m, id, position_ms, now).after),
        active_stored(seek_ended(m, id, from, outcome, now).after),
        active_stored(volume_noted(m, id, volume, now)),
        active_stored(volume_ended(m, id, volume, outcome).after),
        active_stored(stop_ended(m, id, from, now)),
{
    lemma_transition_keeps_stored(m, id, target, now);
    lemma_transition_keeps_stored(m, id, PlayerState::Seeking, now);
    lemma_transition_keeps_stored(m, id, PlayerState::Playing, now);
    match transitioned(m, id, PlayerState::Playing, now) {
        Ok(playing) => lemma_transition_keeps_stored(playing, id, PlayerState::Paused, now),
        Err(_) => {},
    }
    match row_at(m.rows, id, 0) {
        Some(k) => {
            lemma_row_at(m.rows, id, 0);
            lemma_row_update_keeps_stored(m, id, k, volume_noted(m, id, volume, now).rows[k]);
        },
        None => {},
    }
}

/// Progress reports keep the active session stored.
pub proof fn lemma_refresh_keeps_stored(
    m: ManagerModel,
    id: Uuid,
    position_ms: Option<u64>,
    duration_ms: Option<u64>,
    now: Timestamp,
)
    requires
        active_stored(m),
    ensures
        active_stored(refreshed(m, id, position_ms, duration_ms, now)),
{
    match row_at(m.rows, id, 0) {
        Some(k) => {
            lemma_row_at(m.rows, id, 0);
            lemma_row_update_keeps_stored(
                m,
                id,
                k,
                progress_noted(m, id, position_ms, duration_ms, now).rows[k],
            );
        },
        None => {},
    }
}

/// While a session is active, a load is refused and changes nothing.
pub proof fn lemma_one_active_session(m: ManagerModel, url: Seq<char>, id: Uuid, now: Timestamp)
    requires
        m.active is Some,
    ensures
        load_begun(m, url, id, now).error == Some(SessionFault::AlreadyActive),
        load_begun(m, url, id, now).after == m,
{
}

/// A load that begins while no session is active succeeds, and leaves the new
/// session active and resolving.
pub proof fn lemma_load_begins(m: ManagerModel, url: Seq<char>, id: Uuid, now: Timestamp)
    requires
        m.active is None,
        ids_unique(m.rows),
    ensures
        load_begun(m, url, id, now).error is None,
        load_begun(m, url, id, now).after.active == Some(id),
        row_at(load_begun(m, url, id, now).after.rows, id, 0) matches Some(k) && load_begun(
            m,
            url,
            id,
            now,
        ).after.rows[k].state == player_name(PlayerState::Resolving),
        load_begun(m, url, id, now).after.events == m.events.push(
            EventModel::Created { id, url },
        ).push(EventModel::Resolving { id }),
{
    let row = row_of(new_media(url, id, now));
    let rows = without_row(m.rows, row.id).push(row);
    lemma_without_row(m.rows, row.id);
    lemma_row_at(rows, id, 0);
    crate::session::lemma_player_name_round_trip(PlayerState::Idle);
    let n = rows.len() - 1;
    assert(rows[n].id == uuid_text(id.bits));
    let k = row_at(rows, id, 0)->0;
    if k < n {
        assert(rows[k] == without_row(m.rows, row.id)[k]);
        assert(without_row(m.rows, row.id)[k].id != row.id);
    }
    let after = load_begun(m, url, id, now).after;
    assert(after.rows == rows.update(
        n,
        RowModel { state: player_name(PlayerState::Resolving), updated_at: stamp_text(now), ..row },
    ));
    lemma_row_at(after.rows, id, 0);
    assert(after.rows[n].id == uuid_text(id.bits));
    let j = row_at(after.rows, id, 0)->0;
    if j < n {
        assert(after.rows[j] == without_row(m.rows, row.id)[j]);
        assert(without_row(m.rows, row.id)[j].id != row.id);
    }
}

/// A load that fails in resolution, at the display or in playback frees the
/// slot for the next one.
pub proof fn lemma_failed_load_frees_slot(
    m: ManagerModel,
    id: Uuid,
    resolution: Result<ResolveInfo, String>,
    display: Result<(), String>,
    playback: Result<(), String>,
    now: Timestamp,
)
    ensures
        resolution is Err ==> resolution_ended(m, id, resolution, now).after.active is None
            && resolution_ended(m, id, resolution, now).error is Some,
        display is Err ==> display_ended(m, id, display, now).after.active is None
            && display_ended(m, id, display, now).error is Some,
        playback is Err ==> playback_ended(m, id, playback, now).after.active is None
            && playback_ended(m, id, playback, now).error is Some,
{
}

/// After a stop no session is active, the stopped one is gone, and nothing is
/// published.
pub proof fn lemma_stop_leaves_nothing(m: ManagerModel, id: Uuid, was: PlayerState, now: Timestamp)
    ensures
        stop_ended(m, id, was, now).active is None,
        stop_ended(m, id, was, now).snapshot is None,
        row_at(stop_ended(m, id, was, now).rows, id, 0) is None,
{
    let idle = if was == PlayerState::Idle {
        m
    } else {
        attempted(m, id, PlayerState::Idle, now)
    };
    lemma_without_row(idle.rows, uuid_text(id.bits));
    lemma_row_at(without_row(idle.rows, uuid_text(id.bits)), id, 0);
}

/// A seek ends in the state it began in: playing, or paused.
pub proof fn lemma_seek_returns(
    m: ManagerModel,
    id: Uuid,
    k: int,
    was: PlayerState,
    position_ms: u64,
    began: Timestamp,
    ended: Timestamp,
)
    requires
        row_at(m.rows, id, 0) == Some(k),
        stored_session(m, id) is Ok,
        m.rows[k].state == player_name(was),
        was == PlayerState::Playing || was == PlayerState::Paused,
    ensures
        ({
            let begun = seek_begun(m, id, position_ms, began);
            let ended_well = seek_ended(begun.after, id, was, Ok(()), ended);
            &&& begun.error is None
            &&& ended_well.error is None
            &&& row_at(ended_well.after.rows, id, 0) == Some(k)
            &&& ended_well.after.rows[k].state == player_name(was)
        }),
{
    crate::session::lemma_player_name_round_trip(was);
    crate::session::lemma_player_name_round_trip(PlayerState::Seeking);
    crate::session::lemma_player_name_round_trip(PlayerState::Playing);
    lemma_row_at(m.rows, id, 0);
    let seeking = RowModel {
        state: player_name(PlayerState::Seeking),
        updated_at: stamp_text(began),
        ..m.rows[k]
    };
    lemma_row_at_update(m.rows, id, k, seeking, 0);
    let rows1 = m.rows.update(k, seeking);
    let playing = RowModel {
        state: player_name(PlayerState::Playing),
        updated_at: stamp_text(ended),
        ..rows1[k]
    };
    lemma_row_at_update(rows1, id, k, playing, 0);
    let rows2 = rows1.update(k, playing);
    let paused = RowModel {
        state: player_name(PlayerState::Paused),
        updated_at: stamp_text(ended),
        ..rows2[k]
    };
    lemma_row_at_update(rows2, id, k, paused, 0);
}

/// Replacing a row by another one of the same session moves none.
pub proof fn lemma_row_at_update(rows: Seq<RowModel>, id: Uuid, k: int, row: RowModel, i: int)
    requires
        0 <= i,
        0 <= k < rows.len(),
        row.id == rows[k].id,
    ensures
        row_at(rows.update(k, row), id, i) == row_at(rows, id, i),
    decreases rows.len() - i,
{
    if i < rows.len() {
        lemma_row_at_update(rows, id, k, row, i + 1);
    }
}

/// After recovery every session is idle or in error.
pub proof fn lemma_recovery_leaves_none_cut_off(rows: Seq<RowModel>, now: Timestamp, i: int)
    requires
        0 <= i < rows.len(),
    ensures
        !cut_off(recovered(rows, now)[i]),
        recovered(rows, now)[i].id == rows[i].id,
        !cut_off(rows[i]) ==> recovered(rows, now)[i] == rows[i],
{
}

/// No operation of the manager stores a volume above 100.
pub proof fn lemma_volume_clamped(m: ManagerModel, id: Uuid, k: int, volume: u8, now: Timestamp)
    requires
        row_at(m.rows, id, 0) == Some(k),
    ensures
        0 <= volume_noted(m, id, volume, now).rows[k].volume <= 100,
        volume <= 100 ==> volume_noted(m, id, volume, now).rows[k].volume == volume,
{
    lemma_row_at(m.rows, id, 0);
}

} // verus!
