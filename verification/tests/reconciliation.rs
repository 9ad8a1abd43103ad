//! Behaviour of the reconciliation transaction and the query accessors on
//! concrete stores.

use session_reconciler::{new_entity_ids, Session, SessionStore, StorageError, DEFAULT_WINDOW_SECS};

const A: u128 = 0xa1;
const B: u128 = 0xb2;
const C: u128 = 0xc3;

#[test]
fn empty_batch_succeeds_without_rows() {
    let mut store = SessionStore::new();
    let r = store.refresh(&vec![], 0, DEFAULT_WINDOW_SECS);
    assert!(r.is_ok());
    assert_eq!(store.get_all(), vec![]);
}

#[test]
fn scenario_two_new_then_one_extend_one_new() {
    let mut store = SessionStore::new();

    // Empty store; refresh {A, B} at T=0 with a 5 minute window.
    store.refresh(&vec![A, B], 0, 300).unwrap();
    let rows = store.get_all();
    assert_eq!(
        rows,
        vec![
            Session { user_id: A, start_time: 0, end_time: 300 },
            Session { user_id: B, start_time: 0, end_time: 300 },
        ]
    );

    // Refresh {A, C} at T=60s: A's row is extended in place, C gets a new
    // row, B's row is untouched.
    store.refresh(&vec![A, C], 60, 300).unwrap();
    let rows = store.get_all();
    assert_eq!(
        rows,
        vec![
            Session { user_id: A, start_time: 0, end_time: 360 },
            Session { user_id: B, start_time: 0, end_time: 300 },
            Session { user_id: C, start_time: 60, end_time: 360 },
        ]
    );
}

#[test]
fn refresh_twice_keeps_a_single_session() {
    let mut store = SessionStore::new();
    store.refresh(&vec![A], 0, 300).unwrap();
    store.refresh(&vec![A], 10, 300).unwrap();
    let rows = store.get_all();
    assert_eq!(rows, vec![Session { user_id: A, start_time: 0, end_time: 310 }]);
}

#[test]
fn window_reset_is_unconditional() {
    let mut store = SessionStore::new();
    // A long-lived session: live until 1000.
    store.refresh(&vec![A], 0, 1000).unwrap();
    // A refresh with the short window shrinks the remaining lifetime: the
    // new expiration is now + window, whatever the old one was.
    store.refresh(&vec![A], 10, 300).unwrap();
    assert_eq!(store.get_all(), vec![Session { user_id: A, start_time: 0, end_time: 310 }]);
}

#[test]
fn expired_session_gets_a_new_row() {
    let mut store = SessionStore::new();
    store.refresh(&vec![A], 0, 300).unwrap();
    // At T=300 the session is no longer live (end_time > now fails), so the
    // entity gets a fresh row; the expired one stays for audit.
    store.refresh(&vec![A], 300, 300).unwrap();
    assert_eq!(
        store.get_all(),
        vec![
            Session { user_id: A, start_time: 0, end_time: 300 },
            Session { user_id: A, start_time: 300, end_time: 600 },
        ]
    );
}

#[test]
fn partition_deduplicates_and_drops_live_ids() {
    let live = vec![Session { user_id: A, start_time: 0, end_time: 300 }];
    let fresh = new_entity_ids(&vec![A, B, A, B, C], &live);
    assert_eq!(fresh, vec![B, C]);
}

#[test]
fn partition_of_all_live_is_empty() {
    let live = vec![
        Session { user_id: A, start_time: 0, end_time: 300 },
        Session { user_id: B, start_time: 7, end_time: 350 },
    ];
    assert_eq!(new_entity_ids(&vec![A, B], &live), vec![]);
}

#[test]
fn find_live_filters_by_batch_and_time() {
    let mut store = SessionStore::new();
    store.refresh(&vec![A, B], 0, 300).unwrap();
    store.refresh(&vec![C], 100, 300).unwrap();
    // B is excluded by the batch, A by its expiration at now=350.
    assert_eq!(
        store.find_live(&vec![A, C], 350),
        vec![Session { user_id: C, start_time: 100, end_time: 400 }]
    );
    assert_eq!(
        store.find_live(&vec![A, C], 100),
        vec![
            Session { user_id: A, start_time: 0, end_time: 300 },
            Session { user_id: C, start_time: 100, end_time: 400 },
        ]
    );
}

#[test]
fn get_range_uses_half_open_overlap() {
    let mut store = SessionStore::new();
    // One row with interval [100, 400).
    store.refresh(&vec![A], 100, 300).unwrap();
    let row = Session { user_id: A, start_time: 100, end_time: 400 };

    // Proper overlap on both sides.
    assert_eq!(store.get_range(0, 101), vec![row]);
    assert_eq!(store.get_range(399, 1000), vec![row]);
    // Touching a boundary excludes: end_time == range start ...
    assert_eq!(store.get_range(400, 1000), vec![]);
    // ... and start_time == range end.
    assert_eq!(store.get_range(0, 100), vec![]);
    // Off by one inside each boundary includes.
    assert_eq!(store.get_range(399, 400), vec![row]);
    assert_eq!(store.get_range(0, 1000), vec![row]);
}

#[test]
fn fault_on_extend_fails_and_changes_nothing() {
    let mut store = SessionStore::new();
    store.refresh(&vec![A], 0, 300).unwrap();
    let before = store.get_all();
    store.inject_write_fault(0);
    let r = store.refresh(&vec![A, B], 10, 300);
    assert_eq!(r, Err(StorageError));
    assert_eq!(store.get_all(), before);
}

#[test]
fn fault_on_create_rolls_back_the_extend() {
    let mut store = SessionStore::new();
    store.refresh(&vec![A], 0, 300).unwrap();
    let before = store.get_all();
    // The extend write goes through, the create write fails: the whole
    // batch is rolled back, so A's row is not left extended and B gets no
    // row.
    store.inject_write_fault(1);
    let r = store.refresh(&vec![A, B], 10, 300);
    assert_eq!(r, Err(StorageError));
    assert_eq!(store.get_all(), before);
}

#[test]
fn fault_is_spent_after_firing() {
    let mut store = SessionStore::new();
    store.inject_write_fault(0);
    assert_eq!(store.refresh(&vec![A], 0, 300), Err(StorageError));
    // The schedule is spent: the next refresh succeeds.
    store.refresh(&vec![A], 5, 300).unwrap();
    assert_eq!(store.get_all(), vec![Session { user_id: A, start_time: 5, end_time: 305 }]);
}

#[test]
fn reads_never_consume_the_fault_schedule() {
    let mut store = SessionStore::new();
    store.refresh(&vec![A], 0, 300).unwrap();
    store.inject_write_fault(0);
    // Reads go through untouched and leave the scheduled fault in place.
    assert_eq!(store.get_all().len(), 1);
    assert_eq!(store.find_live(&vec![A], 10).len(), 1);
    assert_eq!(store.get_range(0, 1000).len(), 1);
    assert_eq!(store.refresh(&vec![A], 10, 300), Err(StorageError));
}

#[test]
fn extend_returns_the_updated_rows() {
    let mut store = SessionStore::new();
    store.refresh(&vec![A, B], 0, 300).unwrap();
    let rows = store.extend(&vec![A], 50, 300).unwrap();
    assert_eq!(rows, vec![Session { user_id: A, start_time: 0, end_time: 350 }]);
    assert_eq!(
        store.get_all(),
        vec![
            Session { user_id: A, start_time: 0, end_time: 350 },
            Session { user_id: B, start_time: 0, end_time: 300 },
        ]
    );
}

#[test]
fn insert_new_appends_one_row_per_id() {
    let mut store = SessionStore::new();
    // De-duplication is the reconciler's job: the raw create write appends
    // exactly what it is given.
    store.insert_new(&vec![A, A], 10, 300).unwrap();
    assert_eq!(
        store.get_all(),
        vec![
            Session { user_id: A, start_time: 10, end_time: 310 },
            Session { user_id: A, start_time: 10, end_time: 310 },
        ]
    );
}

#[test]
fn default_window_is_five_minutes() {
    assert_eq!(DEFAULT_WINDOW_SECS, 300);
}
