use vstd::prelude::*;

verus! {

/// Identifier of the entity (user) a session belongs to.
///
/// Identifiers are opaque 128-bit values; equality is all the logic ever
/// reads of them, so a UUID maps onto this type as its 128-bit value.
pub type EntityId = u128;

/// Default number of seconds a session stays live after the entity was last
/// observed (five minutes). The window is configuration, not logic: every
/// operation takes it as an argument.
pub const DEFAULT_WINDOW_SECS: i64 = 300;

/// One session row: the entity it belongs to and the half-open interval
/// `[start_time, end_time)` (timestamps in seconds) during which it counts
/// as active.
#[derive(Clone, Copy, PartialEq, Eq, Structural, Debug)]
pub struct Session {
    pub user_id: EntityId,
    pub start_time: i64,
    pub end_time: i64,
}

/// The one error kind the store surfaces: a storage operation failed.
/// No structured cause is preserved; callers treat any failure as
/// "the whole call did nothing".
#[derive(Clone, Copy, PartialEq, Eq, Structural, Debug)]
pub struct StorageError;

/// A session is live at `now` when its expiration lies strictly in the
/// future.
pub open spec fn is_live(s: Session, now: i64) -> bool {
    s.end_time > now
}

/// The session's interval `[start_time, end_time)` overlaps the half-open
/// query window `[a, b)`. A session exactly touching a boundary
/// (`end_time == a` or `start_time == b`) does not overlap.
pub open spec fn overlaps(s: Session, a: i64, b: i64) -> bool {
    s.end_time > a && s.start_time < b
}

/// Some row in `rows` belongs to `id`.
pub open spec fn has_session_for(rows: Seq<Session>, id: EntityId) -> bool {
    exists|k: int| 0 <= k < rows.len() && rows[k].user_id == id
}

/// Some row in `sessions` belongs to `id` and is live at `now`.
pub open spec fn has_live_session(sessions: Seq<Session>, id: EntityId, now: i64) -> bool {
    exists|k: int| 0 <= k < sessions.len() && sessions[k].user_id == id && is_live(sessions[k], now)
}

/// Well-formedness of a table of rows at time `now`: no entity has two live
/// sessions at once. Expired rows may pile up freely; they are kept for
/// audit and range queries.
pub open spec fn wf_at(sessions: Seq<Session>, now: i64) -> bool {
    forall|i: int, j: int|
        0 <= i < sessions.len() && 0 <= j < sessions.len() && i != j
            && #[trigger] sessions[i].user_id == #[trigger] sessions[j].user_id ==> !(is_live(
            sessions[i],
            now,
        ) && is_live(sessions[j], now))
}

/// Liveness only decays as time advances: a table with no duplicate live
/// sessions at `t1` has none at any later instant `t2` either.
pub proof fn lemma_wf_monotone(sessions: Seq<Session>, t1: i64, t2: i64)
    requires
        wf_at(sessions, t1),
        t1 <= t2,
    ensures
        wf_at(sessions, t2),
{
}

} // verus!
