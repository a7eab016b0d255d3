//! Bounded diagnostics that cannot accept messages, identifiers or free text.
use vstd::prelude::*;

pub mod event;
pub mod journal;
pub mod persistence;

verus! {

/// Maximum number of records accepted by one journal configuration.
pub const MAX_JOURNAL_RECORDS: usize = 10000;
/// Logical accounting size of one record.
pub const DIAGNOSTIC_RECORD_LOGICAL_BYTES: usize = 32;
/// Maximum logical bytes accepted by one in-memory journal configuration.
pub const MAX_JOURNAL_LOGICAL_BYTES: usize = 320000;
/// Maximum time a record may remain in memory: seven days.
pub const MAX_JOURNAL_RETENTION_SECONDS: u64 = 604800;
/// Smallest configurable retention, used to reject accidental zero retention.
pub const MIN_JOURNAL_RETENTION_SECONDS: u64 = 60;
/// Maximum exact object counter accepted in one aggregate event.
pub const MAX_EVENT_OBJECT_COUNT: u16 = 10000;

} // verus!
