//! Explicit, in-memory, bounded journal of diagnostic events, with expiry,
//! eviction of the oldest records and clearing on clock rollback.
use std::collections::VecDeque;
use vstd::prelude::*;

use super::event::{
    DiagnosticError, DiagnosticEvent, DurationBucket, EventCode, EventOutcome, EventView,
    SizeBucket,
};
use crate::error::{count_text, decimal_chars};
use super::{
    DIAGNOSTIC_RECORD_LOGICAL_BYTES, MAX_JOURNAL_LOGICAL_BYTES, MAX_JOURNAL_RECORDS,
    MAX_JOURNAL_RETENTION_SECONDS, MIN_JOURNAL_RETENTION_SECONDS,
};

verus! {

/// Default number of records of one journal.
pub const DEFAULT_JOURNAL_RECORDS: usize = 2048;
/// Default logical bytes of one journal: room for the default number of records.
pub const DEFAULT_JOURNAL_LOGICAL_BYTES: usize = 65536;

/// Model of journal limits.
pub struct JournalLimitsView {
    pub max_records: int,
    pub max_logical_bytes: int,
    pub retention: int,
}

/// Limits that `JournalLimits::try_new` accepts.
pub open spec fn journal_limits_valid(l: JournalLimitsView) -> bool {
    &&& 1 <= l.max_records <= MAX_JOURNAL_RECORDS
    &&& DIAGNOSTIC_RECORD_LOGICAL_BYTES <= l.max_logical_bytes <= MAX_JOURNAL_LOGICAL_BYTES
    &&& MIN_JOURNAL_RETENTION_SECONDS <= l.retention <= MAX_JOURNAL_RETENTION_SECONDS
}

/// The error `JournalLimits::try_new` reports, checked in the order records,
/// bytes, retention; `None` when all are valid.
pub open spec fn journal_limits_error(
    max_records: int,
    max_logical_bytes: int,
    retention: int,
) -> Option<DiagnosticError> {
    if max_records == 0 || max_records > MAX_JOURNAL_RECORDS {
        Some(DiagnosticError::InvalidRecordLimit)
    } else if max_logical_bytes < DIAGNOSTIC_RECORD_LOGICAL_BYTES || max_logical_bytes
        > MAX_JOURNAL_LOGICAL_BYTES {
        Some(DiagnosticError::InvalidByteLimit)
    } else if retention < MIN_JOURNAL_RETENTION_SECONDS || retention > MAX_JOURNAL_RETENTION_SECONDS {
        Some(DiagnosticError::InvalidRetention)
    } else {
        None
    }
}

/// Journal limits are accepted exactly when they are valid: at least one
/// record and at most the journal maximum, room for at least one record's
/// logical bytes and at most the byte maximum, and a retention within its
/// range; the first setting out of range, in the order records, bytes,
/// retention, is the one reported.
pub proof fn law_journal_limits(max_records: int, max_logical_bytes: int, retention: int)
    requires
        max_records >= 0,
    ensures
        journal_limits_error(max_records, max_logical_bytes, retention) is None <==> journal_limits_valid(
            JournalLimitsView { max_records, max_logical_bytes, retention },
        ),
        !(1 <= max_records <= MAX_JOURNAL_RECORDS) ==> journal_limits_error(
            max_records,
            max_logical_bytes,
            retention,
        ) == Some(DiagnosticError::InvalidRecordLimit),
        1 <= max_records <= MAX_JOURNAL_RECORDS && !(DIAGNOSTIC_RECORD_LOGICAL_BYTES
            <= max_logical_bytes <= MAX_JOURNAL_LOGICAL_BYTES) ==> journal_limits_error(
            max_records,
            max_logical_bytes,
            retention,
        ) == Some(DiagnosticError::InvalidByteLimit),
{
}

/// Hard limits for one in-memory journal.
#[derive(Copy, Debug, PartialEq, Eq)]
pub struct JournalLimits {
    max_records: usize,
    max_logical_bytes: usize,
    retention_seconds: u64,
}

impl View for JournalLimits {
    type V = JournalLimitsView;

    closed spec fn view(&self) -> JournalLimitsView {
        JournalLimitsView {
            max_records: self.max_records as int,
            max_logical_bytes: self.max_logical_bytes as int,
            retention: self.retention_seconds as int,
        }
    }
}

impl Clone for JournalLimits {
    fn clone(&self) -> (copy: Self)
        ensures
            copy@ == self@,
    {
        *self
    }
}

impl Default for JournalLimits {
    fn default() -> (limits: Self)
        ensures
            limits@ == (JournalLimitsView {
                max_records: DEFAULT_JOURNAL_RECORDS as int,
                max_logical_bytes: DEFAULT_JOURNAL_LOGICAL_BYTES as int,
                retention: MAX_JOURNAL_RETENTION_SECONDS as int,
            }),
    {
        JournalLimits {
            max_records: DEFAULT_JOURNAL_RECORDS,
            max_logical_bytes: DEFAULT_JOURNAL_LOGICAL_BYTES,
            retention_seconds: MAX_JOURNAL_RETENTION_SECONDS,
        }
    }
}

impl JournalLimits {
    #[verifier::type_invariant]
    spec fn within_bounds(self) -> bool {
        journal_limits_valid(self@)
    }

    /// The model of every limits value is valid (a check with no run-time work).
    pub(crate) fn establish_valid(&self)
        ensures
            journal_limits_valid(self@),
    {
        proof {
            use_type_invariant(self);
        }
    }

    pub fn try_new(max_records: usize, max_logical_bytes: usize, retention_seconds: u64) -> (result:
        Result<Self, DiagnosticError>)
        ensures
            match journal_limits_error(
                max_records as int,
                max_logical_bytes as int,
                retention_seconds as int,
            ) {
                Some(e) => result == Err::<JournalLimits, DiagnosticError>(e),
                None => result matches Ok(l) && l@ == (JournalLimitsView {
                    max_records: max_records as int,
                    max_logical_bytes: max_logical_bytes as int,
                    retention: retention_seconds as int,
                }),
            },
    {
        if max_records == 0 || max_records > MAX_JOURNAL_RECORDS {
            return Err(DiagnosticError::InvalidRecordLimit);
        }
        if max_logical_bytes < DIAGNOSTIC_RECORD_LOGICAL_BYTES || max_logical_bytes
            > MAX_JOURNAL_LOGICAL_BYTES {
            return Err(DiagnosticError::InvalidByteLimit);
        }
        if retention_seconds < MIN_JOURNAL_RETENTION_SECONDS || retention_seconds
            > MAX_JOURNAL_RETENTION_SECONDS {
            return Err(DiagnosticError::InvalidRetention);
        }
        Ok(JournalLimits { max_records, max_logical_bytes, retention_seconds })
    }

    pub fn max_records(self) -> (value: usize)
        ensures
            value == self@.max_records,
    {
        self.max_records
    }

    pub fn max_logical_bytes(self) -> (value: usize)
        ensures
            value == self@.max_logical_bytes,
    {
        self.max_logical_bytes
    }

    pub fn retention_seconds(self) -> (value: u64)
        ensures
            value == self@.retention,
    {
        self.retention_seconds
    }

    /// Same limits, compared field by field.
    pub fn same_as(self, other: JournalLimits) -> (same: bool)
        ensures
            same == (self@ == other@),
    {
        self.max_records == other.max_records && self.max_logical_bytes == other.max_logical_bytes
            && self.retention_seconds == other.retention_seconds
    }
}

/// Model of a record.
pub struct RecordView {
    pub sequence: int,
    pub code: EventCode,
    pub outcome: EventOutcome,
    pub object_count: int,
    pub size_bucket: SizeBucket,
    pub duration_bucket: DurationBucket,
}

/// The record a journal makes of event `e` under `sequence`.
pub open spec fn record_of(sequence: int, e: EventView) -> RecordView {
    RecordView {
        sequence,
        code: e.code,
        outcome: e.outcome,
        object_count: e.object_count as int,
        size_bucket: e.size_bucket,
        duration_bucket: e.duration_bucket,
    }
}

/// Safe record visible to diagnostic consumers. It has no timestamp or text.
#[derive(Clone, Copy, Debug, PartialEq, Eq, Structural)]
pub struct DiagnosticRecord {
    sequence: u64,
    code: EventCode,
    outcome: EventOutcome,
    object_count: u16,
    size_bucket: SizeBucket,
    duration_bucket: DurationBucket,
}

impl View for DiagnosticRecord {
    type V = RecordView;

    closed spec fn view(&self) -> RecordView {
        RecordView {
            sequence: self.sequence as int,
            code: self.code,
            outcome: self.outcome,
            object_count: self.object_count as int,
            size_bucket: self.size_bucket,
            duration_bucket: self.duration_bucket,
        }
    }
}

impl DiagnosticRecord {
    /// The record of `event` under `sequence`.
    pub fn from_event(sequence: u64, event: DiagnosticEvent) -> (record: Self)
        ensures
            record@ == record_of(sequence as int, event@),
            record@.sequence == sequence,
            record@.code == event@.code,
            record@.outcome == event@.outcome,
            record@.object_count == event@.object_count,
            record@.size_bucket == event@.size_bucket,
            record@.duration_bucket == event@.duration_bucket,
    {
        DiagnosticRecord {
            sequence,
            code: event.code(),
            outcome: event.outcome(),
            object_count: event.object_count(),
            size_bucket: event.size_bucket(),
            duration_bucket: event.duration_bucket(),
        }
    }

    /// A record from its parts, as read back from storage.
    pub fn from_parts(
        sequence: u64,
        code: EventCode,
        outcome: EventOutcome,
        object_count: u16,
        size_bucket: SizeBucket,
        duration_bucket: DurationBucket,
    ) -> (record: Self)
        ensures
            record@ == (RecordView {
                sequence: sequence as int,
                code,
                outcome,
                object_count: object_count as int,
                size_bucket,
                duration_bucket,
            }),
    {
        DiagnosticRecord { sequence, code, outcome, object_count, size_bucket, duration_bucket }
    }

    pub fn sequence(self) -> (value: u64)
        ensures
            value == self@.sequence,
    {
        self.sequence
    }

    pub fn code(self) -> (code: EventCode)
        ensures
            code == self@.code,
    {
        self.code
    }

    pub fn outcome(self) -> (outcome: EventOutcome)
        ensures
            outcome == self@.outcome,
    {
        self.outcome
    }

    pub fn object_count(self) -> (count: u16)
        ensures
            count == self@.object_count,
    {
        self.object_count
    }

    pub fn size_bucket(self) -> (bucket: SizeBucket)
        ensures
            bucket == self@.size_bucket,
    {
        self.size_bucket
    }

    pub fn duration_bucket(self) -> (bucket: DurationBucket)
        ensures
            bucket == self@.duration_bucket,
    {
        self.duration_bucket
    }
}

/// Model of the outcome of maintenance.
pub struct MaintenanceView {
    pub expired: int,
    pub evicted: int,
    pub rollback_cleared: int,
    pub rollback: bool,
}

/// Counts of the records that maintenance removed.
#[derive(Clone, Copy, Debug, PartialEq, Eq, Structural)]
pub struct JournalMaintenance {
    expired_records: usize,
    evicted_records: usize,
    rollback_cleared_records: usize,
    clock_rollback_detected: bool,
}

impl View for JournalMaintenance {
    type V = MaintenanceView;

    closed spec fn view(&self) -> MaintenanceView {
        MaintenanceView {
            expired: self.expired_records as int,
            evicted: self.evicted_records as int,
            rollback_cleared: self.rollback_cleared_records as int,
            rollback: self.clock_rollback_detected,
        }
    }
}

impl JournalMaintenance {
    pub fn expired_records(self) -> (count: usize)
        ensures
            count == self@.expired,
    {
        self.expired_records
    }

    pub fn evicted_records(self) -> (count: usize)
        ensures
            count == self@.evicted,
    {
        self.evicted_records
    }

    pub fn rollback_cleared_records(self) -> (count: usize)
        ensures
            count == self@.rollback_cleared,
    {
        self.rollback_cleared_records
    }

    pub fn clock_rollback_detected(self) -> (detected: bool)
        ensures
            detected == self@.rollback,
    {
        self.clock_rollback_detected
    }
}

/// The record a call to `record` made, and the maintenance done before it.
#[derive(Clone, Copy, Debug, PartialEq, Eq, Structural)]
pub struct RecordResult {
    record: DiagnosticRecord,
    maintenance: JournalMaintenance,
}

impl RecordResult {
    pub fn record(self) -> (record: DiagnosticRecord)
        ensures
            record == self.spec_record(),
    {
        self.record
    }

    pub fn maintenance(self) -> (maintenance: JournalMaintenance)
        ensures
            maintenance == self.spec_maintenance(),
    {
        self.maintenance
    }

    pub closed spec fn spec_record(self) -> DiagnosticRecord {
        self.record
    }

    pub closed spec fn spec_maintenance(self) -> JournalMaintenance {
        self.maintenance
    }
}

/// Model of a stored record: the record and the wall time at which it expires.
pub struct StoredView {
    pub record: RecordView,
    pub expires_at: int,
}

/// A record with its expiry time.
#[derive(Clone, Copy)]
pub struct StoredRecord {
    record: DiagnosticRecord,
    expires_at: u64,
}

impl View for StoredRecord {
    type V = StoredView;

    closed spec fn view(&self) -> StoredView {
        StoredView { record: self.record@, expires_at: self.expires_at as int }
    }
}

impl StoredRecord {
    pub fn new(record: DiagnosticRecord, expires_at: u64) -> (stored: Self)
        ensures
            stored@ == (StoredView { record: record@, expires_at: expires_at as int }),
    {
        StoredRecord { record, expires_at }
    }

    pub fn record(&self) -> (record: DiagnosticRecord)
        ensures
            record@ == self@.record,
    {
        self.record
    }

    pub fn expires_at(&self) -> (value: u64)
        ensures
            value == self@.expires_at,
    {
        self.expires_at
    }
}

/// Views of stored records.
pub open spec fn stored_views(s: Seq<StoredRecord>) -> Seq<StoredView> {
    s.map_values(|r: StoredRecord| r@)
}

/// Model of a journal.
pub struct JournalModel {
    pub limits: JournalLimitsView,
    pub records: Seq<StoredView>,
    pub next_sequence: int,
    pub last_observed: Option<int>,
}

/// How many records fit at once: the record limit, or the byte limit divided
/// by the logical size of one record, whichever is smaller.
pub open spec fn capacity(l: JournalLimitsView) -> int {
    let by_bytes = l.max_logical_bytes / (DIAGNOSTIC_RECORD_LOGICAL_BYTES as int);
    if l.max_records <= by_bytes {
        l.max_records
    } else {
        by_bytes
    }
}

/// The journal invariant: within its limits, sequence numbers strictly
/// increasing and below the next one, expiry times non-decreasing, and every
/// record unexpired at the last observed time and no later than one retention
/// period after it.
pub open spec fn journal_wf(j: JournalModel) -> bool {
    &&& journal_limits_valid(j.limits)
    &&& j.records.len() <= capacity(j.limits)
    &&& 1 <= j.next_sequence <= u64::MAX
    &&& forall|a: int, b: int|
        0 <= a < b < j.records.len() ==> #[trigger] j.records[a].record.sequence
            < #[trigger] j.records[b].record.sequence
    &&& forall|a: int, b: int|
        0 <= a < b < j.records.len() ==> #[trigger] j.records[a].expires_at
            <= #[trigger] j.records[b].expires_at
    &&& forall|a: int|
        0 <= a < j.records.len() ==> 1 <= #[trigger] j.records[a].record.sequence
            < j.next_sequence
    &&& forall|a: int|
        0 <= a < j.records.len() ==> 0 <= #[trigger] j.records[a].record.object_count
            <= u16::MAX
    &&& j.records.len() > 0 ==> j.last_observed is Some
    &&& j.last_observed is Some ==> j.last_observed->0 >= 0
    &&& forall|a: int|
        #![trigger j.records[a]]
        0 <= a < j.records.len() && j.last_observed is Some ==> j.last_observed->0
            < j.records[a].expires_at <= j.last_observed->0 + j.limits.retention
}

/// The number of records at the front whose expiry time is not after `at`.
pub open spec fn leading_lapsed(s: Seq<StoredView>, at: int) -> int
    decreases s.len(),
{
    if s.len() == 0 || s[0].expires_at > at {
        0
    } else {
        1 + leading_lapsed(s.skip(1), at)
    }
}

/// Maintenance at `at` without the update of the last observed time: a
/// clock that went back clears everything; otherwise the leading expired
/// records are dropped.
pub open spec fn maintain_model(j: JournalModel, at: int) -> (JournalModel, MaintenanceView) {
    if j.last_observed is Some && at < j.last_observed->0 {
        (
            JournalModel { records: Seq::empty(), ..j },
            MaintenanceView {
                expired: 0,
                evicted: 0,
                rollback_cleared: j.records.len() as int,
                rollback: true,
            },
        )
    } else {
        let k = leading_lapsed(j.records, at);
        (
            JournalModel { records: j.records.skip(k), ..j },
            MaintenanceView { expired: k, evicted: 0, rollback_cleared: 0, rollback: false },
        )
    }
}

/// The number of oldest records evicted so that one more fits among `n`.
pub open spec fn eviction_needed(n: int, l: JournalLimitsView) -> int {
    if n >= capacity(l) {
        n - capacity(l) + 1
    } else {
        0
    }
}

/// The result and the resulting journal of recording event `e` at `at`:
/// maintenance first, then eviction of the oldest records until one more
/// fits, then the new record with the next sequence number, expiring one
/// retention period after `at`. Fails, changing nothing, when the expiry time
/// or the next sequence number would leave the 64-bit range.
pub open spec fn record_model(j: JournalModel, e: EventView, at: int) -> (
    Result<(RecordView, MaintenanceView), DiagnosticError>,
    JournalModel,
) {
    if at + j.limits.retention > u64::MAX || j.next_sequence + 1 > u64::MAX {
        (Err(DiagnosticError::ArithmeticOverflow), j)
    } else {
        let (m, maint) = maintain_model(j, at);
        let evict = eviction_needed(m.records.len() as int, j.limits);
        let rec = record_of(j.next_sequence, e);
        (
            Ok((rec, MaintenanceView { evicted: evict, ..maint })),
            JournalModel {
                limits: j.limits,
                records: m.records.skip(evict).push(
                    StoredView { record: rec, expires_at: at + j.limits.retention },
                ),
                next_sequence: j.next_sequence + 1,
                last_observed: Some(at),
            },
        )
    }
}

/// The readable form of a journal view, as `Debug` writes it: the
/// maintenance counts and the number of records.
pub open spec fn journal_view_text(m: MaintenanceView, count: nat) -> Seq<char> {
    "JournalView { maintenance: JournalMaintenance { expired_records: "@ + decimal_chars(
        m.expired as nat,
    ) + ", evicted_records: "@ + decimal_chars(m.evicted as nat) + ", rollback_cleared_records: "@
        + decimal_chars(m.rollback_cleared as nat) + ", clock_rollback_detected: "@ + (if m.rollback {
        "true"@
    } else {
        "false"@
    }) + " }, record_count: "@ + decimal_chars(count) + ", .. }"@
}

/// Maintained read-only view of the records. Creating it always applies time maintenance.
pub struct JournalView {
    maintenance: JournalMaintenance,
    records: Vec<DiagnosticRecord>,
}

impl JournalView {
    pub closed spec fn spec_maintenance(&self) -> JournalMaintenance {
        self.maintenance
    }

    pub closed spec fn spec_records(&self) -> Seq<RecordView> {
        self.records@.map_values(|r: DiagnosticRecord| r@)
    }

    pub fn maintenance(&self) -> (maintenance: JournalMaintenance)
        ensures
            maintenance == self.spec_maintenance(),
    {
        self.maintenance
    }

    pub fn len(&self) -> (count: usize)
        ensures
            count == self.spec_records().len(),
    {
        self.records.len()
    }

    pub fn is_empty(&self) -> (empty: bool)
        ensures
            empty == (self.spec_records().len() == 0),
    {
        self.records.is_empty()
    }

    pub fn logical_bytes(&self) -> (bytes: usize)
        requires
            self.spec_records().len() <= MAX_JOURNAL_RECORDS,
        ensures
            bytes == self.spec_records().len() * DIAGNOSTIC_RECORD_LOGICAL_BYTES,
    {
        self.records.len() * DIAGNOSTIC_RECORD_LOGICAL_BYTES
    }

    /// Readable form: the maintenance counts and the number of records, and
    /// nothing of the records themselves.
    pub fn debug_text(&self) -> (text: String)
        ensures
            text@ == journal_view_text(self.spec_maintenance()@, self.spec_records().len()),
    {
        let m = self.maintenance;
        let text = String::from_str("JournalView { maintenance: JournalMaintenance { expired_records: ");
        let text = text.concat(count_text(m.expired_records).as_str());
        let text = text.concat(", evicted_records: ");
        let text = text.concat(count_text(m.evicted_records).as_str());
        let text = text.concat(", rollback_cleared_records: ");
        let text = text.concat(count_text(m.rollback_cleared_records).as_str());
        let text = text.concat(", clock_rollback_detected: ");
        let text = text.concat(if m.clock_rollback_detected { "true" } else { "false" });
        let text = text.concat(" }, record_count: ");
        let text = text.concat(count_text(self.records.len()).as_str());
        let text = text.concat(", .. }");
        text
    }

    /// The records, oldest first.
    pub fn records(&self) -> (records: &[DiagnosticRecord])
        ensures
            records@.map_values(|r: DiagnosticRecord| r@) == self.spec_records(),
    {
        self.records.as_slice()
    }
}

/// Explicit, in-memory, bounded journal with no global logger or file output.
pub struct DiagnosticJournal {
    limits: JournalLimits,
    records: VecDeque<StoredRecord>,
    next_sequence: u64,
    last_observed_wall_seconds: Option<u64>,
}

impl DiagnosticJournal {
    /// Model of the journal.
    pub closed spec fn model(&self) -> JournalModel {
        JournalModel {
            limits: self.limits@,
            records: stored_views(self.records@),
            next_sequence: self.next_sequence as int,
            last_observed: match self.last_observed_wall_seconds {
                Some(t) => Some(t as int),
                None => None,
            },
        }
    }
}

impl DiagnosticJournal {
    /// The journal invariant holds.
    pub open spec fn wf(&self) -> bool {
        journal_wf(self.model())
    }

    pub fn new(limits: JournalLimits) -> (journal: Self)
        ensures
            journal.wf(),
            journal.model() == (JournalModel {
                limits: limits@,
                records: Seq::empty(),
                next_sequence: 1,
                last_observed: None,
            }),
    {
        limits.establish_valid();
        let journal = DiagnosticJournal {
            limits,
            records: VecDeque::new(),
            next_sequence: 1,
            last_observed_wall_seconds: None,
        };
        assert(journal.model().records =~= Seq::<StoredView>::empty());
        journal
    }

    /// A journal rebuilt from its parts, as read back from storage.
    pub fn from_parts(
        limits: JournalLimits,
        records: VecDeque<StoredRecord>,
        next_sequence: u64,
        last_observed_wall_seconds: u64,
    ) -> (journal: Self)
        requires
            journal_wf(
                JournalModel {
                    limits: limits@,
                    records: stored_views(records@),
                    next_sequence: next_sequence as int,
                    last_observed: Some(last_observed_wall_seconds as int),
                },
            ),
        ensures
            journal.wf(),
            journal.model() == (JournalModel {
                limits: limits@,
                records: stored_views(records@),
                next_sequence: next_sequence as int,
                last_observed: Some(last_observed_wall_seconds as int),
            }),
    {
        DiagnosticJournal {
            limits,
            records,
            next_sequence,
            last_observed_wall_seconds: Some(last_observed_wall_seconds),
        }
    }

    pub fn limits(&self) -> (limits: JournalLimits)
        ensures
            limits@ == self.model().limits,
    {
        self.limits
    }

    pub fn len(&self) -> (count: usize)
        ensures
            count == self.model().records.len(),
    {
        self.records.len()
    }

    pub fn is_empty(&self) -> (empty: bool)
        ensures
            empty == (self.model().records.len() == 0),
    {
        self.records.len() == 0
    }

    pub fn logical_bytes(&self) -> (bytes: usize)
        requires
            self.wf(),
        ensures
            bytes == self.model().records.len() * DIAGNOSTIC_RECORD_LOGICAL_BYTES,
    {
        self.records.len() * DIAGNOSTIC_RECORD_LOGICAL_BYTES
    }

    /// The next sequence number and the last observed wall time, for storage.
    pub fn next_sequence(&self) -> (value: u64)
        ensures
            value == self.model().next_sequence,
    {
        self.next_sequence
    }

    pub fn last_observed_wall_seconds(&self) -> (value: Option<u64>)
        ensures
            match value {
                Some(t) => self.model().last_observed == Some(t as int),
                None => self.model().last_observed is None,
            },
    {
        self.last_observed_wall_seconds
    }

    /// The stored records, oldest first, for storage.
    pub fn stored_records(&self) -> (records: Vec<StoredRecord>)
        ensures
            stored_views(records@) == self.model().records,
    {
        let mut out: Vec<StoredRecord> = Vec::new();
        let mut i: usize = 0;
        while i < self.records.len()
            invariant
                i <= self.records@.len(),
                stored_views(out@) == stored_views(self.records@).take(i as int),
            decreases self.records@.len() - i,
        {
            let item = self.records[i];
            proof {
                assert(item == self.records@[i as int]);
                assert(stored_views(self.records@).take(i + 1) =~= stored_views(self.records@).take(
                    i as int,
                ).push(item@));
                assert(stored_views(out@.push(item)) =~= stored_views(out@).push(item@));
            }
            out.push(item);
            i += 1;
        }
        proof {
            assert(stored_views(self.records@).take(i as int) =~= stored_views(self.records@));
        }
        out
    }

    /// Removes every record and returns how many there were; times are kept.
    pub fn clear(&mut self) -> (removed: usize)
        requires
            old(self).wf(),
        ensures
            final(self).wf(),
            removed == old(self).model().records.len(),
            final(self).model() == (JournalModel { records: Seq::empty(), ..old(self).model() }),
    {
        let removed = self.records.len();
        self.records.clear();
        assert(stored_views(self.records@) =~= Seq::<StoredView>::empty());
        removed
    }

    /// Removes every record and remembers `at` as the last observed time.
    pub fn clear_observed(&mut self, at: u64) -> (removed: usize)
        requires
            old(self).wf(),
        ensures
            final(self).wf(),
            removed == old(self).model().records.len(),
            final(self).model() == (JournalModel {
                records: Seq::empty(),
                last_observed: Some(at as int),
                ..old(self).model()
            }),
    {
        let removed = self.clear();
        self.last_observed_wall_seconds = Some(at);
        removed
    }

    fn maintain_internal(&mut self, at: u64) -> (maintenance: JournalMaintenance)
        requires
            old(self).wf(),
        ensures
            final(self).model() == maintain_model(old(self).model(), at as int).0,
            maintenance@ == maintain_model(old(self).model(), at as int).1,
            journal_wf(
                JournalModel { last_observed: Some(at as int), ..maintain_model(old(self).model(), at as int).0 },
            ),
    {
        let ghost j = old(self).model();
        let rollback = match self.last_observed_wall_seconds {
            Some(last) => at < last,
            None => false,
        };
        if rollback {
            let cleared = self.clear();
            return JournalMaintenance {
                expired_records: 0,
                evicted_records: 0,
                rollback_cleared_records: cleared,
                clock_rollback_detected: true,
            };
        }
        let ghost s = j.records;
        let mut expired: usize = 0;
        proof {
            assert(s.skip(0) =~= s);
        }
        while self.records.len() > 0 && self.records[0].expires_at <= at
            invariant
                expired <= s.len(),
                journal_wf(j),
                s == j.records,
                stored_views(self.records@) == s.skip(expired as int),
                leading_lapsed(s, at as int) == expired + leading_lapsed(s.skip(expired as int), at as int),
                forall|a: int| 0 <= a < expired ==> #[trigger] s[a].expires_at <= at,
                self.limits == old(self).limits,
                self.next_sequence == old(self).next_sequence,
                self.last_observed_wall_seconds == old(self).last_observed_wall_seconds,
            decreases self.records@.len(),
        {
            proof {
                assert(stored_views(self.records@)[0] == self.records@[0]@);
                assert(s.skip(expired as int).skip(1) =~= s.skip(expired + 1));
                assert(s[expired as int] == s.skip(expired as int)[0]);
            }
            self.records.pop_front();
            proof {
                assert(stored_views(self.records@) =~= s.skip(expired + 1));
            }
            expired += 1;
        }
        proof {
            let r = s.skip(expired as int);
            if r.len() > 0 {
                assert(stored_views(self.records@)[0] == self.records@[0]@);
            }
            assert(leading_lapsed(r, at as int) == 0);
            let jm = JournalModel { records: r, last_observed: Some(at as int), ..j };
            assert forall|a: int| 0 <= a < r.len() implies at < #[trigger] r[a].expires_at by {
                assert(r[a] == s[expired + a]);
                assert(r[0] == s[expired as int]);
                if a > 0 {
                    assert(s[expired as int].expires_at <= s[expired + a].expires_at);
                }
            }
            assert forall|a: int, b: int| 0 <= a < b < r.len() implies #[trigger] r[a].record.sequence
                < #[trigger] r[b].record.sequence && r[a].expires_at <= r[b].expires_at by {
                assert(r[a] == s[expired + a] && r[b] == s[expired + b]);
            }
            assert forall|a: int| 0 <= a < r.len() implies 1 <= #[trigger] r[a].record.sequence
                < j.next_sequence by {
                assert(r[a] == s[expired + a]);
            }
            assert forall|a: int| #![trigger r[a]] 0 <= a < r.len() implies (at as int) < r[a].expires_at
                <= at + j.limits.retention by {
                assert(r[a] == s[expired + a]);
                assert(s[expired + a].expires_at <= j.last_observed->0 + j.limits.retention);
            }
            assert(journal_wf(jm));
        }
        JournalMaintenance {
            expired_records: expired,
            evicted_records: 0,
            rollback_cleared_records: 0,
            clock_rollback_detected: false,
        }
    }

    /// Applies time maintenance at `at` and remembers `at` as the last observed time.
    pub fn maintain(&mut self, at: u64) -> (maintenance: JournalMaintenance)
        requires
            old(self).wf(),
        ensures
            final(self).wf(),
            final(self).model() == (JournalModel {
                last_observed: Some(at as int),
                ..maintain_model(old(self).model(), at as int).0
            }),
            maintenance@ == maintain_model(old(self).model(), at as int).1,
    {
        let maintenance = self.maintain_internal(at);
        self.last_observed_wall_seconds = Some(at);
        maintenance
    }

    /// Maintains at `at` and returns the remaining records, oldest first.
    pub fn view(&mut self, at: u64) -> (view: JournalView)
        requires
            old(self).wf(),
        ensures
            final(self).wf(),
            final(self).model() == (JournalModel {
                last_observed: Some(at as int),
                ..maintain_model(old(self).model(), at as int).0
            }),
            view.spec_maintenance()@ == maintain_model(old(self).model(), at as int).1,
            view.spec_records() == final(self).model().records.map_values(|r: StoredView| r.record),
    {
        let maintenance = self.maintain(at);
        let mut records: Vec<DiagnosticRecord> = Vec::new();
        let mut i: usize = 0;
        while i < self.records.len()
            invariant
                i <= self.records@.len(),
                records@.map_values(|r: DiagnosticRecord| r@) == stored_views(
                    self.records@,
                ).take(i as int).map_values(|r: StoredView| r.record),
            decreases self.records@.len() - i,
        {
            let item = self.records[i].record;
            proof {
                assert(item == self.records@[i as int].record);
                assert(stored_views(self.records@).take(i + 1) =~= stored_views(self.records@).take(
                    i as int,
                ).push(self.records@[i as int]@));
                assert(stored_views(self.records@).take(i + 1).map_values(|r: StoredView| r.record)
                    =~= stored_views(self.records@).take(i as int).map_values(
                    |r: StoredView| r.record,
                ).push(item@));
                assert(records@.push(item).map_values(|r: DiagnosticRecord| r@) =~= records@.map_values(
                    |r: DiagnosticRecord| r@,
                ).push(item@));
            }
            records.push(item);
            i += 1;
        }
        proof {
            assert(stored_views(self.records@).take(i as int) =~= stored_views(self.records@));
        }
        JournalView { maintenance, records }
    }

    /// Records `event` at wall time `at` as `record_model` describes.
    pub fn record(&mut self, event: DiagnosticEvent, at: u64) -> (result: Result<
        RecordResult,
        DiagnosticError,
    >)
        requires
            old(self).wf(),
        ensures
            final(self).wf(),
            ({
                let m = record_model(old(self).model(), event@, at as int);
                &&& final(self).model() == m.1
                &&& match m.0 {
                    Ok((rec, maint)) => result matches Ok(r) && r.spec_record()@ == rec
                        && r.spec_maintenance()@ == maint,
                    Err(e) => result == Err::<RecordResult, DiagnosticError>(e),
                }
            }),
    {
        let ghost j = old(self).model();
        self.limits.establish_valid();
        let expires_at = match at.checked_add(self.limits.retention_seconds) {
            Some(v) => v,
            None => {
                return Err(DiagnosticError::ArithmeticOverflow);
            },
        };
        let sequence = self.next_sequence;
        let next_sequence = match sequence.checked_add(1) {
            Some(v) => v,
            None => {
                return Err(DiagnosticError::ArithmeticOverflow);
            },
        };
        let maintenance = self.maintain_internal(at);
        let ghost mrec = self.model().records;
        let ghost l = j.limits;
        let mut evicted: usize = 0;
        proof {
            assert(mrec.skip(0) =~= mrec);
        }
        while self.records.len() >= self.limits.max_records || self.records.len()
            * DIAGNOSTIC_RECORD_LOGICAL_BYTES + DIAGNOSTIC_RECORD_LOGICAL_BYTES
            > self.limits.max_logical_bytes
            invariant
                journal_limits_valid(l),
                self.limits@ == l,
                evicted <= mrec.len(),
                mrec.len() <= MAX_JOURNAL_RECORDS,
                stored_views(self.records@) == mrec.skip(evicted as int),
                mrec.len() >= capacity(l) ==> evicted <= mrec.len() - capacity(l) + 1,
                mrec.len() < capacity(l) ==> evicted == 0,
                self.next_sequence == old(self).next_sequence,
                self.last_observed_wall_seconds == old(self).last_observed_wall_seconds,
            decreases self.records@.len(),
        {
            proof {
                let n = self.records@.len() as int;
                assert(n >= capacity(l)) by (nonlinear_arith)
                    requires
                        n >= l.max_records || n * 32 + 32 > l.max_logical_bytes,
                        capacity(l) == (if l.max_records <= l.max_logical_bytes / 32 {
                            l.max_records
                        } else {
                            l.max_logical_bytes / 32
                        }),
                        l.max_logical_bytes >= 32,
                ;
                assert(mrec.skip(evicted as int).skip(1) =~= mrec.skip(evicted + 1));
            }
            self.records.pop_front();
            proof {
                assert(stored_views(self.records@) =~= mrec.skip(evicted + 1));
            }
            evicted += 1;
        }
        proof {
            let n = self.records@.len() as int;
            assert(n < capacity(l)) by (nonlinear_arith)
                requires
                    n < l.max_records,
                    n * 32 + 32 <= l.max_logical_bytes,
                    capacity(l) == (if l.max_records <= l.max_logical_bytes / 32 {
                        l.max_records
                    } else {
                        l.max_logical_bytes / 32
                    }),
            ;
            assert(evicted == eviction_needed(mrec.len() as int, l));
        }
        let record = DiagnosticRecord::from_event(sequence, event);
        let stored = StoredRecord { record, expires_at };
        self.records.push_back(stored);
        self.next_sequence = next_sequence;
        self.last_observed_wall_seconds = Some(at);
        proof {
            let r = mrec.skip(evicted as int);
            assert(stored_views(self.records@) =~= r.push(stored@));
            let jm = JournalModel { records: mrec, last_observed: Some(at as int), ..j };
            assert(journal_wf(jm));
            let nr = r.push(stored@);
            assert forall|a: int, b: int| 0 <= a < b < nr.len() implies #[trigger] nr[a].record.sequence
                < #[trigger] nr[b].record.sequence && nr[a].expires_at <= nr[b].expires_at by {
                assert(nr[a] == mrec[evicted + a]);
                assert(jm.records[evicted + a].expires_at <= at + l.retention);
                if b < r.len() {
                    assert(nr[b] == mrec[evicted + b]);
                }
            }
            assert forall|a: int| 0 <= a < nr.len() implies 1 <= #[trigger] nr[a].record.sequence
                < next_sequence by {
                if a < r.len() {
                    assert(nr[a] == mrec[evicted + a]);
                }
            }
            assert forall|a: int| #![trigger nr[a]] 0 <= a < nr.len() implies (at as int) < nr[a].expires_at
                <= at + l.retention by {
                if a < r.len() {
                    assert(nr[a] == mrec[evicted + a]);
                }
            }
        }
        let maintenance = JournalMaintenance { evicted_records: evicted, ..maintenance };
        Ok(RecordResult { record, maintenance })
    }
}


impl Clone for DiagnosticJournal {
    fn clone(&self) -> (copy: Self)
        ensures
            copy.model() == self.model(),
    {
        let mut records: VecDeque<StoredRecord> = VecDeque::new();
        let mut i: usize = 0;
        while i < self.records.len()
            invariant
                i <= self.records@.len(),
                stored_views(records@) == stored_views(self.records@).take(i as int),
            decreases self.records@.len() - i,
        {
            let item = self.records[i];
            proof {
                assert(item == self.records@[i as int]);
                assert(stored_views(self.records@).take(i + 1) =~= stored_views(self.records@).take(
                    i as int,
                ).push(item@));
                assert(stored_views(records@.push(item)) =~= stored_views(records@).push(item@));
            }
            records.push_back(item);
            i += 1;
        }
        proof {
            assert(stored_views(self.records@).take(i as int) =~= stored_views(self.records@));
        }
        DiagnosticJournal {
            limits: self.limits,
            records,
            next_sequence: self.next_sequence,
            last_observed_wall_seconds: self.last_observed_wall_seconds,
        }
    }
}

impl Default for DiagnosticJournal {
    fn default() -> (journal: Self)
        ensures
            journal.wf(),
            journal.model().records.len() == 0,
    {
        DiagnosticJournal::new(JournalLimits::default())
    }
}

/// Journal limits hold after every operation: no more records than the record
/// limit, and no more logical bytes than the byte limit.
pub proof fn law_journal_within_limits(j: JournalModel)
    requires
        journal_wf(j),
    ensures
        j.records.len() <= j.limits.max_records,
        j.records.len() * DIAGNOSTIC_RECORD_LOGICAL_BYTES <= j.limits.max_logical_bytes,
{
    let n = j.records.len() as int;
    let l = j.limits;
    assert(n * 32 <= l.max_logical_bytes) by (nonlinear_arith)
        requires
            n <= capacity(l),
            capacity(l) == (if l.max_records <= l.max_logical_bytes / 32 {
                l.max_records
            } else {
                l.max_logical_bytes / 32
            }),
            l.max_logical_bytes >= 32,
    ;
}

/// A clock that goes back clears the journal: recording at a time before the
/// last observed one reports every earlier record as cleared and leaves only
/// the new record.
pub proof fn law_rollback_clears(j: JournalModel, e: EventView, at: int)
    requires
        journal_wf(j),
        j.last_observed is Some,
        at < j.last_observed->0,
        record_model(j, e, at).0 is Ok,
    ensures
        record_model(j, e, at).0->Ok_0.1.rollback,
        record_model(j, e, at).0->Ok_0.1.rollback_cleared == j.records.len(),
        record_model(j, e, at).1.records.len() == 1,
{
    let l = j.limits;
    assert(capacity(l) >= 1) by (nonlinear_arith)
        requires
            l.max_records >= 1,
            l.max_logical_bytes >= 32,
            capacity(l) == (if l.max_records <= l.max_logical_bytes / 32 {
                l.max_records
            } else {
                l.max_logical_bytes / 32
            }),
    ;
    assert(Seq::<StoredView>::empty().skip(0) =~= Seq::<StoredView>::empty());
}

proof fn lemma_leading_lapsed_range(s: Seq<StoredView>, at: int)
    ensures
        0 <= leading_lapsed(s, at) <= s.len(),
    decreases s.len(),
{
    if s.len() > 0 && s[0].expires_at <= at {
        lemma_leading_lapsed_range(s.skip(1), at);
    }
}

/// Every successful record appends exactly one record, the last one: it is
/// numbered by the journal's next sequence number and repeats the event's
/// fields; the next number moves on by one, the oldest records evicted are
/// just enough for one more to fit, and the journal stays within capacity.
pub proof fn law_record_is_last(j: JournalModel, e: EventView, at: int)
    requires
        journal_wf(j),
        record_model(j, e, at).0 is Ok,
    ensures
        ({
            let m = record_model(j, e, at);
            let rec = record_of(j.next_sequence, e);
            let kept = maintain_model(j, at).0.records;
            &&& m.0 matches Ok((r, maint)) && r == rec && maint.evicted == eviction_needed(
                kept.len() as int,
                j.limits,
            )
            &&& m.1.records.len() > 0
            &&& m.1.records.last().record == rec
            &&& m.1.records.last().expires_at == at + j.limits.retention
            &&& m.1.records.drop_last() == kept.skip(eviction_needed(kept.len() as int, j.limits))
            &&& m.1.next_sequence == j.next_sequence + 1
            &&& m.1.records.len() <= capacity(j.limits)
        }),
{
    let l = j.limits;
    assert(capacity(l) >= 1) by (nonlinear_arith)
        requires
            l.max_records >= 1,
            l.max_logical_bytes >= 32,
            capacity(l) == (if l.max_records <= l.max_logical_bytes / 32 {
                l.max_records
            } else {
                l.max_logical_bytes / 32
            }),
    ;
    lemma_leading_lapsed_range(j.records, at);
    let kept = maintain_model(j, at).0.records;
    let ev = eviction_needed(kept.len() as int, l);
    let rec = record_of(j.next_sequence, e);
    let stored = StoredView { record: rec, expires_at: at + l.retention };
    assert(kept.skip(ev).push(stored).drop_last() =~= kept.skip(ev));
}

/// One operation on a journal, as the model sees it: recording an event at a
/// time, maintenance (or a view) at a time, clearing, and clearing while
/// observing a time.
pub enum JournalOp {
    Record(EventView, int),
    Maintain(int),
    Clear,
    ClearObserved(int),
}

/// The journal after one operation, as the operations' contracts describe it.
pub open spec fn apply_op(j: JournalModel, op: JournalOp) -> JournalModel {
    match op {
        JournalOp::Record(e, at) => record_model(j, e, at).1,
        JournalOp::Maintain(at) => JournalModel { last_observed: Some(at), ..maintain_model(j, at).0 },
        JournalOp::Clear => JournalModel { records: Seq::empty(), ..j },
        JournalOp::ClearObserved(at) => JournalModel {
            records: Seq::empty(),
            last_observed: Some(at),
            ..j
        },
    }
}

/// The journal after the operations, one after another.
pub open spec fn apply_ops(j: JournalModel, ops: Seq<JournalOp>) -> JournalModel
    decreases ops.len(),
{
    if ops.len() == 0 {
        j
    } else {
        apply_op(apply_ops(j, ops.drop_last()), ops.last())
    }
}

/// How many of the operations are records that succeed.
pub open spec fn successful_records(j: JournalModel, ops: Seq<JournalOp>) -> int
    decreases ops.len(),
{
    if ops.len() == 0 {
        0
    } else {
        successful_records(j, ops.drop_last()) + match ops.last() {
            JournalOp::Record(e, at) => if record_model(apply_ops(j, ops.drop_last()), e, at).0 is Ok {
                1int
            } else {
                0int
            },
            _ => 0int,
        }
    }
}

proof fn lemma_next_sequence_counts(j: JournalModel, ops: Seq<JournalOp>)
    ensures
        apply_ops(j, ops).next_sequence == j.next_sequence + successful_records(j, ops),
    decreases ops.len(),
{
    if ops.len() > 0 {
        lemma_next_sequence_counts(j, ops.drop_last());
    }
}

/// Sequence numbers count the records: in a journal that starts empty with
/// next sequence number 1, as `new` makes it, after any operations the next
/// number is one more than the number of records that succeeded, and a
/// record that succeeds then is numbered one more than the records that
/// succeeded before it. Maintenance, views and clearing never reuse a number.
pub proof fn law_sequence_counts_records(
    limits: JournalLimitsView,
    ops: Seq<JournalOp>,
    e: EventView,
    at: int,
)
    ensures
        ({
            let j0 = JournalModel {
                limits,
                records: Seq::empty(),
                next_sequence: 1,
                last_observed: None,
            };
            let j = apply_ops(j0, ops);
            &&& j.next_sequence == 1 + successful_records(j0, ops)
            &&& record_model(j, e, at).0 matches Ok((r, _)) ==> r.sequence == 1
                + successful_records(j0, ops)
        }),
{
    let j0 = JournalModel { limits, records: Seq::empty(), next_sequence: 1, last_observed: None };
    lemma_next_sequence_counts(j0, ops);
}

/// A record keeps everything its event says and adds only the sequence
/// number it was given.
pub proof fn law_record_copies_event(sequence: int, e: EventView)
    ensures
        record_of(sequence, e).sequence == sequence,
        record_of(sequence, e).code == e.code,
        record_of(sequence, e).outcome == e.outcome,
        record_of(sequence, e).object_count == e.object_count,
        record_of(sequence, e).size_bucket == e.size_bucket,
        record_of(sequence, e).duration_bucket == e.duration_bucket,
{
}

} // verus!
