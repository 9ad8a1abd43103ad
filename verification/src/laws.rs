//! The laws of reconciliation, proved once over the spec-level transition
//! [`crate::reconcile::refreshed`] that [`crate::store::SessionStore::refresh`]
//! is proved to apply.

use crate::reconcile::{
    bumped, distinct_new_ids, extend_live, fresh_rows, fresh_session, live_id_set, new_id_set,
    refreshed, touches,
};
use crate::session::{
    has_live_session, is_live, lemma_wf_monotone, overlaps, wf_at, EntityId, Session,
};
use crate::store::range_rows;
use vstd::prelude::*;

verus! {

/// What the create side of the partition holds: exactly the identifiers of
/// the batch with no live session, each once.
pub proof fn lemma_distinct_new_ids_props(ids: Seq<EntityId>, sessions: Seq<Session>, now: i64)
    ensures
        forall|id: EntityId|
            #![trigger distinct_new_ids(ids, sessions, now).contains(id)]
            distinct_new_ids(ids, sessions, now).contains(id) <==> (ids.contains(id)
                && !has_live_session(sessions, id, now)),
        distinct_new_ids(ids, sessions, now).no_duplicates(),
    decreases ids.len(),
{
    let nids = distinct_new_ids(ids, sessions, now);
    if ids.len() == 0 {
        assert(forall|id: EntityId| !ids.contains(id));
    } else {
        lemma_distinct_new_ids_props(ids.drop_last(), sessions, now);
        let head = ids.drop_last();
        let rest = distinct_new_ids(head, sessions, now);
        let last = ids.last();
        assert forall|id: EntityId| #[trigger]
            ids.contains(id) implies head.contains(id) || id == last by {
            let k = choose|k: int| 0 <= k < ids.len() && ids[k] == id;
            if k < ids.len() - 1 {
                assert(head[k] == id);
            }
        }
        assert forall|id: EntityId| head.contains(id) implies ids.contains(id) by {
            let k = choose|k: int| 0 <= k < head.len() && head[k] == id;
            assert(ids[k] == id);
        }
        assert(ids.contains(last)) by {
            assert(ids[ids.len() - 1] == last);
        }
        if !has_live_session(sessions, last, now) && !head.contains(last) {
            assert(nids == rest.push(last));
            assert forall|id: EntityId| #[trigger]
                nids.contains(id) implies (rest.contains(id) || id == last) by {
                let k = choose|k: int| 0 <= k < nids.len() && nids[k] == id;
                if k < rest.len() {
                    assert(rest[k] == id);
                }
            }
            assert forall|id: EntityId| rest.contains(id) implies nids.contains(id) by {
                let k = choose|k: int| 0 <= k < rest.len() && rest[k] == id;
                assert(nids[k] == id);
            }
            assert(nids.contains(last)) by {
                assert(nids[nids.len() - 1] == last);
            }
            assert(!rest.contains(last));
            assert(nids.no_duplicates()) by {
                assert(forall|k: int| 0 <= k < rest.len() ==> nids[k] == rest[k]);
            }
        } else {
            assert(nids == rest);
        }
    }
}

/// Partition correctness (law): the two sides of the partition split the
/// batch exactly — together they are the batch, and no identifier is on
/// both sides. The create side, as computed, carries exactly the set of
/// identifiers without a live session and holds no duplicates.
pub proof fn lemma_partition(ids: Seq<EntityId>, sessions: Seq<Session>, now: i64)
    ensures
        live_id_set(ids, sessions, now).union(new_id_set(ids, sessions, now)) == ids.to_set(),
        live_id_set(ids, sessions, now).intersect(new_id_set(ids, sessions, now)) == Set::<
            EntityId,
        >::empty(),
        distinct_new_ids(ids, sessions, now).to_set() == new_id_set(ids, sessions, now),
        distinct_new_ids(ids, sessions, now).no_duplicates(),
{
    lemma_distinct_new_ids_props(ids, sessions, now);
    assert(live_id_set(ids, sessions, now).union(new_id_set(ids, sessions, now))
        =~= ids.to_set());
    assert(live_id_set(ids, sessions, now).intersect(new_id_set(ids, sessions, now)) =~= Set::<
        EntityId,
    >::empty());
    assert(distinct_new_ids(ids, sessions, now).to_set() =~= new_id_set(ids, sessions, now));
}

/// Reconciliation preserves the at-most-one-live-session invariant: a
/// well-formed table stays well-formed, whatever the batch.
pub proof fn lemma_refresh_preserves_wf(
    sessions: Seq<Session>,
    ids: Seq<EntityId>,
    now: i64,
    window: i64,
)
    requires
        wf_at(sessions, now),
        0 <= window,
        now + window <= i64::MAX,
    ensures
        wf_at(refreshed(sessions, ids, now, window), now),
{
    lemma_distinct_new_ids_props(ids, sessions, now);
    let r = refreshed(sessions, ids, now, window);
    let e = extend_live(sessions, ids, now, window);
    let nids = distinct_new_ids(ids, sessions, now);
    let n = sessions.len() as int;
    assert forall|i: int, j: int|
        0 <= i < r.len() && 0 <= j < r.len() && i != j && #[trigger] r[i].user_id
            == #[trigger] r[j].user_id implies !(is_live(r[i], now) && is_live(r[j], now)) by {
        assert(forall|k: int| 0 <= k < n ==> #[trigger] r[k].user_id == sessions[k].user_id);
        assert(forall|k: int|
            0 <= k < n && is_live(#[trigger] r[k], now) ==> is_live(sessions[k], now));
        assert(forall|k: int|
            n <= k < r.len() ==> #[trigger] r[k] == fresh_session(nids[k - n], now, window));
        if i < n && j < n {
            assert(sessions[i].user_id == sessions[j].user_id);
        } else if i < n && j >= n {
            let id = nids[j - n];
            assert(nids.contains(id)) by {
                assert(nids[j - n] == id);
            }
            assert(!has_live_session(sessions, id, now));
            if is_live(r[i], now) {
                assert(sessions[i].user_id == id && is_live(sessions[i], now));
                assert(false);
            }
        } else if i >= n && j < n {
            let id = nids[i - n];
            assert(nids.contains(id)) by {
                assert(nids[i - n] == id);
            }
            assert(!has_live_session(sessions, id, now));
            if is_live(r[j], now) {
                assert(sessions[j].user_id == id && is_live(sessions[j], now));
                assert(false);
            }
        } else {
            assert(nids[i - n] == nids[j - n]);
            assert(false);
        }
    }
}

/// Idempotence of liveness (law): refreshing an entity again while its first
/// window is still open extends the one existing session instead of creating
/// a second row — the table keeps its size and stays free of duplicate live
/// sessions.
pub proof fn lemma_refresh_idempotent(
    sessions: Seq<Session>,
    id: EntityId,
    t1: i64,
    t2: i64,
    window: i64,
)
    requires
        wf_at(sessions, t1),
        0 <= window,
        t1 <= t2,
        t2 < t1 + window,
        t2 + window <= i64::MAX,
    ensures
        refreshed(refreshed(sessions, seq![id], t1, window), seq![id], t2, window).len()
            == refreshed(sessions, seq![id], t1, window).len(),
        wf_at(refreshed(refreshed(sessions, seq![id], t1, window), seq![id], t2, window), t2),
        has_live_session(refreshed(sessions, seq![id], t1, window), id, t2),
{
    let ids = seq![id];
    let once = refreshed(sessions, ids, t1, window);
    let e1 = extend_live(sessions, ids, t1, window);
    let n1 = distinct_new_ids(ids, sessions, t1);
    assert(ids.contains(id)) by {
        assert(ids[0] == id);
    }
    assert(ids.drop_last() =~= Seq::<EntityId>::empty());
    if has_live_session(sessions, id, t1) {
        let k = choose|k: int|
            0 <= k < sessions.len() && sessions[k].user_id == id && is_live(sessions[k], t1);
        assert(touches(sessions[k], ids, t1));
        assert(once[k] == bumped(sessions[k], t1, window));
        assert(once[k].user_id == id && once[k].end_time == t1 + window > t2);
    } else {
        assert(distinct_new_ids(ids.drop_last(), sessions, t1) =~= Seq::<EntityId>::empty());
        assert(n1 =~= seq![id]);
        assert(once[e1.len() as int] == fresh_session(id, t1, window));
        assert(once[e1.len() as int].user_id == id && once[e1.len() as int].end_time == t1
            + window > t2);
    }
    assert(has_live_session(once, id, t2));
    let n2 = distinct_new_ids(ids, once, t2);
    assert(distinct_new_ids(ids.drop_last(), once, t2) =~= Seq::<EntityId>::empty());
    assert(n2 =~= Seq::<EntityId>::empty());
    assert(fresh_rows(n2, t2, window) =~= Seq::<Session>::empty());
    let twice = refreshed(once, ids, t2, window);
    assert(twice =~= extend_live(once, ids, t2, window));
    assert(twice.len() == once.len());
    lemma_refresh_preserves_wf(sessions, ids, t1, window);
    lemma_wf_monotone(once, t1, t2);
    lemma_refresh_preserves_wf(once, ids, t2, window);
}

/// Window correctness (law): after reconciling a batch that holds `id` at
/// `now`, every live session for `id` carries `end_time == now + window`,
/// whatever its previous expiration; and with a positive window there is one.
pub proof fn lemma_window_reset(
    sessions: Seq<Session>,
    ids: Seq<EntityId>,
    id: EntityId,
    now: i64,
    window: i64,
)
    requires
        ids.contains(id),
        0 <= window,
        now + window <= i64::MAX,
    ensures
        forall|k: int|
            0 <= k < refreshed(sessions, ids, now, window).len() && (#[trigger] refreshed(
                sessions,
                ids,
                now,
                window,
            )[k]).user_id == id && is_live(refreshed(sessions, ids, now, window)[k], now)
                ==> refreshed(sessions, ids, now, window)[k].end_time == now + window,
        window > 0 ==> has_live_session(refreshed(sessions, ids, now, window), id, now),
{
    lemma_distinct_new_ids_props(ids, sessions, now);
    let r = refreshed(sessions, ids, now, window);
    let e = extend_live(sessions, ids, now, window);
    let nids = distinct_new_ids(ids, sessions, now);
    let n = sessions.len() as int;
    assert forall|k: int|
        0 <= k < r.len() && (#[trigger] r[k]).user_id == id && is_live(r[k], now) implies r[k].end_time
        == now + window by {
        if k < n {
            if !touches(sessions[k], ids, now) {
                assert(r[k] == sessions[k]);
                assert(touches(sessions[k], ids, now));
            }
        } else {
            assert(r[k] == fresh_session(nids[k - n], now, window));
        }
    }
    if window > 0 {
        if has_live_session(sessions, id, now) {
            let k = choose|k: int|
                0 <= k < sessions.len() && sessions[k].user_id == id && is_live(sessions[k], now);
            assert(touches(sessions[k], ids, now));
            assert(r[k] == bumped(sessions[k], now, window));
            assert(r[k].user_id == id && is_live(r[k], now));
        } else {
            assert(nids.contains(id));
            let j = choose|j: int| 0 <= j < nids.len() && nids[j] == id;
            assert(r[n + j] == fresh_session(id, now, window));
            assert(r[n + j].user_id == id && is_live(r[n + j], now));
        }
    }
}

/// Range-query boundary (law): a row is returned by a range query over
/// `[a, b)` exactly when it is in the table with `end_time > a` and
/// `start_time < b`; a row that only touches a boundary is excluded.
pub proof fn lemma_range_boundary(sessions: Seq<Session>, s: Session, a: i64, b: i64)
    ensures
        range_rows(sessions, a, b).contains(s) <==> (sessions.contains(s) && s.end_time > a
            && s.start_time < b),
        s.end_time == a ==> !range_rows(sessions, a, b).contains(s),
        s.start_time == b ==> !range_rows(sessions, a, b).contains(s),
{
    broadcast use vstd::seq_lib::group_filter_ensures;

    let pred = |x: Session| overlaps(x, a, b);
    if sessions.contains(s) && pred(s) {
        let k = choose|k: int| 0 <= k < sessions.len() && sessions[k] == s;
        assert(pred(sessions[k]));
        assert(sessions.filter(pred).contains(sessions[k]));
    }
    if range_rows(sessions, a, b).contains(s) {
        sessions.lemma_filter_contains_rev(pred, s);
        let k = choose|k: int|
            0 <= k < range_rows(sessions, a, b).len() && range_rows(sessions, a, b)[k] == s;
        assert(pred(range_rows(sessions, a, b)[k]));
    }
}

} // verus!
