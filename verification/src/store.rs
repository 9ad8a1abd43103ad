//! The session store: an in-memory table of session rows, with the
//! reconciliation transaction and the plain query accessors.
//!
//! Writes can be made to fail on purpose (`inject_write_fault`), which models
//! the one failure mode a persistent store surfaces and lets callers exercise
//! the all-or-nothing contract of [`SessionStore::refresh`].

use crate::reconcile::{
    contains_id, extend_live, extended_rows, fresh_rows, fresh_session, lemma_fresh_ids_agree,
    live_among, new_entity_ids, refreshed, touches,
};
use crate::session::{overlaps, EntityId, Session, StorageError};
use vstd::prelude::*;

verus! {

/// Whether the next write operation of a store with fault schedule `fault`
/// fails.
pub open spec fn write_fails(fault: Option<u32>) -> bool {
    fault == Some(0u32)
}

/// The fault schedule after one write operation: the countdown shrinks by
/// one, and a fault that fired is spent.
pub open spec fn after_write(fault: Option<u32>) -> Option<u32> {
    match fault {
        None => None,
        Some(k) => if k == 0 {
            None
        } else {
            Some((k - 1) as u32)
        },
    }
}

/// Whether a fault fires somewhere within the next `n` write operations.
pub open spec fn fails_within(fault: Option<u32>, n: nat) -> bool {
    match fault {
        None => false,
        Some(k) => (k as nat) < n,
    }
}

/// The rows of `sessions` whose interval `[start_time, end_time)` overlaps
/// the half-open window `[a, b)`, in table order.
pub open spec fn range_rows(sessions: Seq<Session>, a: i64, b: i64) -> Seq<Session> {
    sessions.filter(|s: Session| overlaps(s, a, b))
}

/// An in-memory table of session rows. Rows are only ever appended or have
/// their expiration reset; nothing deletes them — an expired row simply
/// stops being live.
pub struct SessionStore {
    sessions: Vec<Session>,
    fault_in: Option<u32>,
}

impl View for SessionStore {
    type V = Seq<Session>;

    closed spec fn view(&self) -> Seq<Session> {
        self.sessions@
    }
}

impl SessionStore {
    /// The injected fault schedule: `Some(k)` makes the write operation `k`
    /// writes from now fail (`Some(0)`: the very next one); `None` lets every
    /// write through.
    pub closed spec fn fault(&self) -> Option<u32> {
        self.fault_in
    }

    /// An empty store with no scheduled fault.
    pub fn new() -> (store: SessionStore)
        ensures
            store@ == Seq::<Session>::empty(),
            store.fault() == None::<u32>,
    {
        SessionStore { sessions: Vec::new(), fault_in: None }
    }

    /// Schedule a simulated storage fault: counting from the next write
    /// operation, the one `after_writes` writes later fails with
    /// `StorageError` (0 means the very next write). Reads never fail.
    pub fn inject_write_fault(&mut self, after_writes: u32)
        ensures
            final(self)@ == old(self)@,
            final(self).fault() == Some(after_writes),
    {
        self.fault_in = Some(after_writes);
    }

    /// Advance the fault schedule by one write operation and report whether
    /// this write goes through.
    fn write_tick(&mut self) -> (ok: bool)
        ensures
            final(self)@ == old(self)@,
            final(self).fault() == after_write(old(self).fault()),
            ok == !write_fails(old(self).fault()),
    {
        match self.fault_in {
            None => true,
            Some(k) => {
                if k == 0 {
                    self.fault_in = None;
                    false
                } else {
                    self.fault_in = Some(k - 1);
                    true
                }
            },
        }
    }

    /// Every session row, live or expired, in table order.
    pub fn get_all(&self) -> (rows: Vec<Session>)
        ensures
            rows@ == self@,
    {
        clone_rows(&self.sessions)
    }

    /// The rows whose interval `[start_time, end_time)` overlaps the
    /// half-open window `[range_start, range_end)`: exactly those with
    /// `end_time > range_start` and `start_time < range_end`. A row that
    /// only touches a boundary is excluded.
    pub fn get_range(&self, range_start: i64, range_end: i64) -> (rows: Vec<Session>)
        ensures
            rows@ == range_rows(self@, range_start, range_end),
    {
        broadcast use vstd::prelude::Seq::lemma_filter_push;

        let mut rows: Vec<Session> = Vec::new();
        let mut i: usize = 0;
        while i < self.sessions.len()
            invariant
                0 <= i <= self@.len(),
                rows@ == range_rows(self@.take(i as int), range_start, range_end),
            decreases self@.len() - i,
        {
            let s = self.sessions[i];
            proof {
                assert(self@.take(i as int + 1) =~= self@.take(i as int).push(s));
            }
            if s.end_time > range_start && s.start_time < range_end {
                rows.push(s);
            }
            i = i + 1;
        }
        proof {
            assert(self@.take(self@.len() as int) =~= self@);
        }
        rows
    }

    /// One batched read: the rows among `ids` that are live at `now`, in
    /// table order.
    pub fn find_live(&self, ids: &Vec<EntityId>, now: i64) -> (rows: Vec<Session>)
        ensures
            rows@ == live_among(self@, ids@, now),
    {
        broadcast use vstd::prelude::Seq::lemma_filter_push;

        let mut rows: Vec<Session> = Vec::new();
        let mut i: usize = 0;
        while i < self.sessions.len()
            invariant
                0 <= i <= self@.len(),
                rows@ == live_among(self@.take(i as int), ids@, now),
            decreases self@.len() - i,
        {
            let s = self.sessions[i];
            proof {
                assert(self@.take(i as int + 1) =~= self@.take(i as int).push(s));
            }
            if s.end_time > now && contains_id(ids, s.user_id) {
                rows.push(s);
            }
            i = i + 1;
        }
        proof {
            assert(self@.take(self@.len() as int) =~= self@);
        }
        rows
    }

    /// The extend write of reconciliation: reset the expiration of every
    /// live row belonging to the batch to `now + window`, and return the
    /// updated rows — the reconciler computes the complement of the batch
    /// from them. The bump is unconditional: it never compares against the
    /// old expiration, so a row's remaining lifetime can also shrink.
    pub fn extend(&mut self, ids: &Vec<EntityId>, now: i64, window: i64) -> (result: Result<
        Vec<Session>,
        StorageError,
    >)
        requires
            0 <= window,
            now + window <= i64::MAX,
        ensures
            final(self).fault() == after_write(old(self).fault()),
            result is Err <==> write_fails(old(self).fault()),
            result is Err ==> final(self)@ == old(self)@,
            result is Ok ==> final(self)@ == extend_live(old(self)@, ids@, now, window),
            result is Ok ==> result->Ok_0@ == extended_rows(old(self)@, ids@, now, window),
    {
        broadcast use vstd::prelude::Seq::lemma_filter_push;

        if !self.write_tick() {
            return Err(StorageError);
        }
        let ghost orig = self@;
        let mut table: Vec<Session> = Vec::new();
        let mut rows: Vec<Session> = Vec::new();
        let mut i: usize = 0;
        while i < self.sessions.len()
            invariant
                0 <= i <= self@.len(),
                self@ == orig,
                table@ == extend_live(orig.take(i as int), ids@, now, window),
                rows@ == extended_rows(orig.take(i as int), ids@, now, window),
            decreases self@.len() - i,
        {
            let s = self.sessions[i];
            let is_touched = s.end_time > now && contains_id(ids, s.user_id);
            proof {
                assert(is_touched == touches(s, ids@, now));
                assert(orig.take(i as int + 1) =~= orig.take(i as int).push(s));
            }
            if is_touched {
                let b = Session { user_id: s.user_id, start_time: s.start_time, end_time: now
                    + window };
                table.push(b);
                rows.push(b);
                proof {
                    assert(extend_live(orig.take(i as int + 1), ids@, now, window) =~= extend_live(
                        orig.take(i as int),
                        ids@,
                        now,
                        window,
                    ).push(b));
                    assert(extended_rows(orig.take(i as int + 1), ids@, now, window)
                        =~= extended_rows(orig.take(i as int), ids@, now, window).push(b));
                }
            } else {
                table.push(s);
                proof {
                    assert(extend_live(orig.take(i as int + 1), ids@, now, window) =~= extend_live(
                        orig.take(i as int),
                        ids@,
                        now,
                        window,
                    ).push(s));
                    assert(extended_rows(orig.take(i as int + 1), ids@, now, window)
                        =~= extended_rows(orig.take(i as int), ids@, now, window));
                }
            }
            i = i + 1;
        }
        proof {
            assert(orig.take(orig.len() as int) =~= orig);
        }
        self.sessions = table;
        Ok(rows)
    }

    /// The create write of reconciliation: append one fresh row per
    /// identifier of `ids`, each with `start_time = now` and
    /// `end_time = now + window`. De-duplication is the reconciler's job,
    /// not this write's.
    pub fn insert_new(&mut self, ids: &Vec<EntityId>, now: i64, window: i64) -> (result: Result<
        (),
        StorageError,
    >)
        requires
            0 <= window,
            now + window <= i64::MAX,
        ensures
            final(self).fault() == after_write(old(self).fault()),
            result is Err <==> write_fails(old(self).fault()),
            result is Err ==> final(self)@ == old(self)@,
            result is Ok ==> final(self)@ == old(self)@ + fresh_rows(ids@, now, window),
    {
        if !self.write_tick() {
            return Err(StorageError);
        }
        let ghost orig = self@;
        let ghost fault_now = self.fault();
        let mut i: usize = 0;
        while i < ids.len()
            invariant
                0 <= i <= ids@.len(),
                self.fault() == fault_now,
                self@ == orig + fresh_rows(ids@.take(i as int), now, window),
            decreases ids@.len() - i,
        {
            let row = Session { user_id: ids[i], start_time: now, end_time: now + window };
            self.sessions.push(row);
            proof {
                assert(ids@.take(i as int + 1) =~= ids@.take(i as int).push(ids@[i as int]));
                assert(orig + fresh_rows(ids@.take(i as int + 1), now, window) =~= (orig
                    + fresh_rows(ids@.take(i as int), now, window)).push(
                    fresh_session(ids@[i as int], now, window),
                ));
            }
            i = i + 1;
        }
        proof {
            assert(ids@.take(ids@.len() as int) =~= ids@);
        }
        Ok(())
    }

    /// Reconcile a batch of entity identifiers against the store, as one
    /// all-or-nothing unit of work. One batched extend write resets the
    /// expiration of every live session of the batch to `now + window` and
    /// reports the rows it touched; every identifier of the batch with no
    /// such row gets one fresh session (`start_time = now`,
    /// `end_time = now + window`). Duplicate identifiers are tolerated:
    /// the create step de-duplicates them. If either write fails, the whole
    /// call fails and the table is left exactly as it was.
    ///
    /// Two write operations are consumed from the fault schedule, so the
    /// call succeeds exactly when no injected fault fires within them.
    pub fn refresh(&mut self, entity_ids: &Vec<EntityId>, now: i64, window: i64) -> (result:
        Result<(), StorageError>)
        requires
            0 <= window,
            now + window <= i64::MAX,
        ensures
            final(self).fault() == after_write(after_write(old(self).fault())),
            result is Ok <==> !fails_within(old(self).fault(), 2),
            result is Err ==> final(self)@ == old(self)@,
            result is Ok ==> final(self)@ == refreshed(old(self)@, entity_ids@, now, window),
    {
        let snapshot = clone_rows(&self.sessions);
        let live_rows = match self.extend(entity_ids, now, window) {
            Ok(rows) => rows,
            Err(e) => {
                return Err(e);
            },
        };
        let to_create = new_entity_ids(entity_ids, &live_rows);
        proof {
            lemma_fresh_ids_agree(entity_ids@, old(self)@, now, window);
        }
        match self.insert_new(&to_create, now, window) {
            Ok(done) => Ok(done),
            Err(e) => {
                self.sessions = snapshot;
                Err(e)
            },
        }
    }
}

/// A verified element-by-element copy of a row vector (rows are `Copy`).
fn clone_rows(rows: &Vec<Session>) -> (out: Vec<Session>)
    ensures
        out@ == rows@,
{
    let mut out: Vec<Session> = Vec::new();
    let mut i: usize = 0;
    while i < rows.len()
        invariant
            0 <= i <= rows@.len(),
            out@ == rows@.take(i as int),
        decreases rows@.len() - i,
    {
        out.push(rows[i]);
        proof {
            assert(rows@.take(i as int + 1) =~= rows@.take(i as int).push(rows@[i as int]));
        }
        i = i + 1;
    }
    proof {
        assert(rows@.take(rows@.len() as int) =~= rows@);
    }
    out
}

} // verus!
