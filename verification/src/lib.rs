//! Sliding-expiration session tracking.
//!
//! Each time an entity is observed active, its session's expiration is pushed
//! forward by a fixed window; an entity with no live session gets a new one.
//! The core is the bulk reconciliation operation [`store::SessionStore::refresh`]:
//! it partitions a batch of entity identifiers into "already has a live
//! session" (extend it) versus "has none" (create one), and applies both
//! writes as a single all-or-nothing unit of work.
//!
//! The store here is an in-memory table of session rows; an adapter around a
//! persistent database can reuse the verified partition step
//! ([`reconcile::new_entity_ids`]) and must give `refresh` the same
//! transactional semantics this crate proves.
#![verifier::loop_isolation(false)]

pub mod laws;
pub mod reconcile;
pub mod session;
pub mod store;

pub use reconcile::new_entity_ids;
pub use session::{EntityId, Session, StorageError, DEFAULT_WINDOW_SECS};
pub use store::SessionStore;
