//! The reconciliation algorithm, specified.
//!
//! Reconciling a batch of entity identifiers against a table of session rows
//! means: extend every live session belonging to an identifier in the batch,
//! and create a fresh session for every identifier that has none. The spec
//! functions here define that transition over mathematical sequences; the
//! store applies it and proves its writes equal to it.

use crate::session::{has_live_session, has_session_for, is_live, EntityId, Session};
use vstd::prelude::*;

verus! {

/// `s` with its expiration reset to `now + window`; everything else kept.
pub open spec fn bumped(s: Session, now: i64, window: i64) -> Session {
    Session { user_id: s.user_id, start_time: s.start_time, end_time: (now + window) as i64 }
}

/// The batch touches `s`: the row belongs to an identifier in the batch and
/// is still live, so reconciliation will extend it.
pub open spec fn touches(s: Session, ids: Seq<EntityId>, now: i64) -> bool {
    ids.contains(s.user_id) && is_live(s, now)
}

/// The whole table after the extend step: every touched row has its
/// expiration reset to `now + window`, every other row is untouched.
pub open spec fn extend_live(
    sessions: Seq<Session>,
    ids: Seq<EntityId>,
    now: i64,
    window: i64,
) -> Seq<Session> {
    sessions.map_values(
        |s: Session|
            if touches(s, ids, now) {
                bumped(s, now, window)
            } else {
                s
            },
    )
}

/// The rows of `sessions` the batch touches, in table order: the live set
/// of one batched read.
pub open spec fn live_among(sessions: Seq<Session>, ids: Seq<EntityId>, now: i64) -> Seq<
    Session,
> {
    sessions.filter(|s: Session| touches(s, ids, now))
}

/// The rows the extend step reports back: exactly the touched rows, in table
/// order, each already carrying its new expiration.
pub open spec fn extended_rows(
    sessions: Seq<Session>,
    ids: Seq<EntityId>,
    now: i64,
    window: i64,
) -> Seq<Session> {
    live_among(sessions, ids, now).map_values(|s: Session| bumped(s, now, window))
}

/// A brand-new session for `id`, observed at `now`.
pub open spec fn fresh_session(id: EntityId, now: i64, window: i64) -> Session {
    Session { user_id: id, start_time: now, end_time: (now + window) as i64 }
}

/// One fresh row per identifier, in order.
pub open spec fn fresh_rows(ids: Seq<EntityId>, now: i64, window: i64) -> Seq<Session> {
    ids.map_values(|id: EntityId| fresh_session(id, now, window))
}

/// The identifiers of the batch that need a new session: those with no live
/// session in `sessions` at `now`, de-duplicated, in order of first
/// occurrence.
pub open spec fn distinct_new_ids(
    ids: Seq<EntityId>,
    sessions: Seq<Session>,
    now: i64,
) -> Seq<EntityId>
    decreases ids.len(),
{
    if ids.len() == 0 {
        Seq::empty()
    } else {
        let prefix = distinct_new_ids(ids.drop_last(), sessions, now);
        let id = ids.last();
        if !has_live_session(sessions, id, now) && !ids.drop_last().contains(id) {
            prefix.push(id)
        } else {
            prefix
        }
    }
}

/// Same partition, computed from the rows the extend step returned instead
/// of from the table: the identifiers of the batch with no returned row,
/// de-duplicated, in order of first occurrence.
pub open spec fn fresh_ids(ids: Seq<EntityId>, rows: Seq<Session>) -> Seq<EntityId>
    decreases ids.len(),
{
    if ids.len() == 0 {
        Seq::empty()
    } else {
        let prefix = fresh_ids(ids.drop_last(), rows);
        let id = ids.last();
        if !has_session_for(rows, id) && !ids.drop_last().contains(id) {
            prefix.push(id)
        } else {
            prefix
        }
    }
}

/// The identifiers of the batch that have a live session at `now` — the
/// "extend" side of the partition, as a set.
pub open spec fn live_id_set(ids: Seq<EntityId>, sessions: Seq<Session>, now: i64) -> Set<
    EntityId,
> {
    ids.to_set().filter(|id: EntityId| has_live_session(sessions, id, now))
}

/// The identifiers of the batch that have no live session at `now` — the
/// "create" side of the partition, as a set.
pub open spec fn new_id_set(ids: Seq<EntityId>, sessions: Seq<Session>, now: i64) -> Set<
    EntityId,
> {
    ids.to_set().filter(|id: EntityId| !has_live_session(sessions, id, now))
}

/// The whole table after one reconciliation of the batch `ids` at `now`:
/// the extend step applied to every row, followed by one fresh row per
/// identifier that had no live session.
pub open spec fn refreshed(
    sessions: Seq<Session>,
    ids: Seq<EntityId>,
    now: i64,
    window: i64,
) -> Seq<Session> {
    extend_live(sessions, ids, now, window) + fresh_rows(
        distinct_new_ids(ids, sessions, now),
        now,
        window,
    )
}

/// Among the rows the extend step returns there is one for `id` exactly when
/// the table held a live session for `id` — provided `id` is in the batch.
pub proof fn lemma_extended_rows_membership(
    sessions: Seq<Session>,
    ids: Seq<EntityId>,
    now: i64,
    window: i64,
    id: EntityId,
)
    requires
        ids.contains(id),
    ensures
        has_session_for(extended_rows(sessions, ids, now, window), id) <==> has_live_session(
            sessions,
            id,
            now,
        ),
{
    broadcast use vstd::seq_lib::group_filter_ensures;

    let pred = |s: Session| touches(s, ids, now);
    let live = live_among(sessions, ids, now);
    let rows = extended_rows(sessions, ids, now, window);
    if has_live_session(sessions, id, now) {
        let k = choose|k: int|
            0 <= k < sessions.len() && sessions[k].user_id == id && is_live(sessions[k], now);
        assert(pred(sessions[k]));
        assert(sessions.filter(pred).contains(sessions[k]));
        let j = choose|j: int| 0 <= j < live.len() && live[j] == sessions[k];
        assert(rows[j].user_id == id);
    }
    if has_session_for(rows, id) {
        let j = choose|j: int| 0 <= j < rows.len() && rows[j].user_id == id;
        assert(rows[j] == bumped(live[j], now, window));
        assert(pred(live[j]));
        assert(sessions.filter(pred).contains(live[j]));
        sessions.lemma_filter_contains_rev(pred, live[j]);
        let k = choose|k: int| 0 <= k < sessions.len() && sessions[k] == live[j];
        assert(sessions[k].user_id == id && is_live(sessions[k], now));
    }
}

/// Computing the fresh identifiers from the rows the extend step returned
/// gives the very partition the table itself dictates.
pub proof fn lemma_fresh_ids_agree(
    ids: Seq<EntityId>,
    sessions: Seq<Session>,
    now: i64,
    window: i64,
)
    ensures
        fresh_ids(ids, extended_rows(sessions, ids, now, window)) == distinct_new_ids(
            ids,
            sessions,
            now,
        ),
{
    lemma_fresh_ids_agree_rec(ids, ids, sessions, now, window);
}

/// Induction step of `lemma_fresh_ids_agree`, generalised to every prefix of
/// the batch (the reported rows stay those of the whole batch).
proof fn lemma_fresh_ids_agree_rec(
    full: Seq<EntityId>,
    prefix: Seq<EntityId>,
    sessions: Seq<Session>,
    now: i64,
    window: i64,
)
    requires
        prefix.len() <= full.len(),
        forall|k: int| 0 <= k < prefix.len() ==> prefix[k] == full[k],
    ensures
        fresh_ids(prefix, extended_rows(sessions, full, now, window)) == distinct_new_ids(
            prefix,
            sessions,
            now,
        ),
    decreases prefix.len(),
{
    if prefix.len() > 0 {
        lemma_fresh_ids_agree_rec(full, prefix.drop_last(), sessions, now, window);
        let id = prefix.last();
        assert(full.contains(id)) by {
            assert(full[prefix.len() - 1] == id);
        }
        lemma_extended_rows_membership(sessions, full, now, window, id);
    }
}

/// Whether `ids` holds `id`.
pub(crate) fn contains_id(ids: &Vec<EntityId>, id: EntityId) -> (found: bool)
    ensures
        found == ids@.contains(id),
{
    let mut i: usize = 0;
    while i < ids.len()
        invariant
            0 <= i <= ids@.len(),
            forall|k: int| 0 <= k < i ==> ids@[k] != id,
        decreases ids@.len() - i,
    {
        if ids[i] == id {
            return true;
        }
        i = i + 1;
    }
    false
}

/// Whether some row in `rows` belongs to `id`.
fn contains_session_for(rows: &Vec<Session>, id: EntityId) -> (found: bool)
    ensures
        found == has_session_for(rows@, id),
{
    let mut i: usize = 0;
    while i < rows.len()
        invariant
            0 <= i <= rows@.len(),
            forall|k: int| 0 <= k < i ==> rows@[k].user_id != id,
        decreases rows@.len() - i,
    {
        if rows[i].user_id == id {
            return true;
        }
        i = i + 1;
    }
    false
}

/// Whether `id` occurs among the first `upto` elements of `ids`.
fn contains_id_before(ids: &Vec<EntityId>, upto: usize, id: EntityId) -> (found: bool)
    requires
        upto <= ids@.len(),
    ensures
        found == ids@.take(upto as int).contains(id),
{
    let mut i: usize = 0;
    while i < upto
        invariant
            0 <= i <= upto,
            forall|k: int| 0 <= k < i ==> ids@[k] != id,
        decreases upto - i,
    {
        if ids[i] == id {
            assert(ids@.take(upto as int)[i as int] == id);
            return true;
        }
        i = i + 1;
    }
    assert forall|k: int| 0 <= k < upto implies ids@.take(upto as int)[k] != id by {}
    false
}

/// The partition step of reconciliation: out of a batch of entity
/// identifiers and the live rows the store reported for that batch, compute
/// the identifiers that need a brand-new session — those with no reported
/// row — de-duplicated, in order of first occurrence.
pub fn new_entity_ids(entity_ids: &Vec<EntityId>, live_rows: &Vec<Session>) -> (fresh: Vec<
    EntityId,
>)
    ensures
        fresh@ == fresh_ids(entity_ids@, live_rows@),
{
    let mut out: Vec<EntityId> = Vec::new();
    let mut i: usize = 0;
    while i < entity_ids.len()
        invariant
            0 <= i <= entity_ids@.len(),
            out@ == fresh_ids(entity_ids@.take(i as int), live_rows@),
        decreases entity_ids@.len() - i,
    {
        let id = entity_ids[i];
        let seen = contains_id_before(entity_ids, i, id);
        if !seen && !contains_session_for(live_rows, id) {
            out.push(id);
        }
        proof {
            let taken = entity_ids@.take(i + 1 as int);
            assert(taken.drop_last() =~= entity_ids@.take(i as int));
            assert(taken.last() == entity_ids@[i as int]);
        }
        i = i + 1;
    }
    proof {
        assert(entity_ids@.take(entity_ids@.len() as int) =~= entity_ids@);
    }
    out
}

} // verus!
