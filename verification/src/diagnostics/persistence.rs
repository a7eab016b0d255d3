//! The stored form of a diagnostic journal: integer codes of the event
//! vocabulary, the checks applied to a snapshot read back from storage, and
//! the rows written for a journal.
use std::collections::VecDeque;
use vstd::prelude::*;

use super::event::{
    duration_bucket_of, size_bucket_of,
    diagnostic_error_text, DiagnosticError, DurationBucket, EventCode, EventOutcome, SizeBucket,
};
use super::journal::{
    journal_limits_error, journal_wf, stored_views, DiagnosticJournal, DiagnosticRecord,
    JournalLimits, JournalLimitsView, JournalMaintenance, JournalModel, RecordView,
    StoredRecord, StoredView,
};
use super::DIAGNOSTIC_RECORD_LOGICAL_BYTES;

verus! {

/// Application identifier stored in the database header.
pub const APPLICATION_ID: i64 = 1279543617;
/// Only supported schema version.
pub const SCHEMA_VERSION: i64 = 1;
/// Largest diagnostic database file accepted: ten mebibytes.
pub const MAX_DIAGNOSTIC_FILE_BYTES: u64 = 10485760;

/// Safe error category of persistent diagnostics.
#[derive(Clone, Copy, Debug, PartialEq, Eq, Structural)]
pub enum PersistentDiagnosticError {
    Database,
    Io,
    FileTooLarge,
    UnsupportedSchema,
    WrongApplication,
    LimitMismatch,
    CorruptData,
    ClockOutOfRange,
    Journal(DiagnosticError),
}

/// The description of a persistent diagnostics failure.
pub open spec fn persistent_error_text(error: PersistentDiagnosticError) -> Seq<char> {
    match error {
        PersistentDiagnosticError::Database => "persistent diagnostics database failed"@,
        PersistentDiagnosticError::Io => "persistent diagnostics I/O operation failed"@,
        PersistentDiagnosticError::FileTooLarge => "persistent diagnostics file exceeds limit"@,
        PersistentDiagnosticError::UnsupportedSchema => "unsupported persistent diagnostics schema"@,
        PersistentDiagnosticError::WrongApplication => "database does not contain Lantern diagnostics"@,
        PersistentDiagnosticError::LimitMismatch => "persistent diagnostics limits do not match"@,
        PersistentDiagnosticError::CorruptData => "invalid persistent diagnostics data"@,
        PersistentDiagnosticError::ClockOutOfRange => "diagnostic clock is outside range"@,
        PersistentDiagnosticError::Journal(e) => "diagnostic journal failed: "@ + diagnostic_error_text(e),
    }
}

impl PersistentDiagnosticError {
    /// Wraps a journal failure.
    pub fn from_journal(error: DiagnosticError) -> (wrapped: Self)
        ensures
            wrapped == PersistentDiagnosticError::Journal(error),
    {
        PersistentDiagnosticError::Journal(error)
    }

    /// Human-readable description, as `persistent_error_text` gives it.
    pub fn message(&self) -> (text: String)
        ensures
            text@ == persistent_error_text(*self),
    {
        match self {
            PersistentDiagnosticError::Database => String::from_str(
                "persistent diagnostics database failed",
            ),
            PersistentDiagnosticError::Io => String::from_str(
                "persistent diagnostics I/O operation failed",
            ),
            PersistentDiagnosticError::FileTooLarge => String::from_str(
                "persistent diagnostics file exceeds limit",
            ),
            PersistentDiagnosticError::UnsupportedSchema => String::from_str(
                "unsupported persistent diagnostics schema",
            ),
            PersistentDiagnosticError::WrongApplication => String::from_str(
                "database does not contain Lantern diagnostics",
            ),
            PersistentDiagnosticError::LimitMismatch => String::from_str(
                "persistent diagnostics limits do not match",
            ),
            PersistentDiagnosticError::CorruptData => String::from_str(
                "invalid persistent diagnostics data",
            ),
            PersistentDiagnosticError::ClockOutOfRange => String::from_str(
                "diagnostic clock is outside range",
            ),
            PersistentDiagnosticError::Journal(e) => String::from_str(
                "diagnostic journal failed: ",
            ).concat(e.message()),
        }
    }
}

/// What opening a persistent journal did to the records it found.
#[derive(Clone, Copy, Debug, PartialEq, Eq, Structural)]
pub struct PersistentDiagnosticRecovery {
    expired_records: usize,
    cleared_records: usize,
    clock_rollback_detected: bool,
}

impl PersistentDiagnosticRecovery {
    /// The recovery report of the maintenance applied when opening.
    pub fn from_maintenance(maintenance: JournalMaintenance) -> (recovery: Self)
        ensures
            recovery.spec_expired() == maintenance@.expired,
            recovery.spec_cleared() == maintenance@.rollback_cleared,
            recovery.spec_rollback() == maintenance@.rollback,
    {
        PersistentDiagnosticRecovery {
            expired_records: maintenance.expired_records(),
            cleared_records: maintenance.rollback_cleared_records(),
            clock_rollback_detected: maintenance.clock_rollback_detected(),
        }
    }

    pub closed spec fn spec_expired(self) -> int {
        self.expired_records as int
    }

    pub closed spec fn spec_cleared(self) -> int {
        self.cleared_records as int
    }

    pub closed spec fn spec_rollback(self) -> bool {
        self.clock_rollback_detected
    }

    pub fn expired_records(self) -> (count: usize)
        ensures
            count == self.spec_expired(),
    {
        self.expired_records
    }

    pub fn cleared_records(self) -> (count: usize)
        ensures
            count == self.spec_cleared(),
    {
        self.cleared_records
    }

    pub fn clock_rollback_detected(self) -> (detected: bool)
        ensures
            detected == self.spec_rollback(),
    {
        self.clock_rollback_detected
    }
}

/// Stored number of an event code: its position in the vocabulary.
pub open spec fn code_number(code: EventCode) -> int {
    match code {
        EventCode::NodeStarted => 0,
        EventCode::NodeStopped => 1,
        EventCode::StorageOpened => 2,
        EventCode::QueueRecovered => 3,
        EventCode::QueueSaved => 4,
        EventCode::EnvelopeAccepted => 5,
        EventCode::EnvelopeRejected => 6,
        EventCode::DuplicateIgnored => 7,
        EventCode::EnvelopeExpired => 8,
        EventCode::EnvelopeEvicted => 9,
        EventCode::TransferOffered => 10,
        EventCode::TransferCompleted => 11,
        EventCode::TransferRejected => 12,
        EventCode::ClockRollbackDetected => 13,
        EventCode::OperationFailed => 14,
    }
}

/// Stored number of an outcome: its position in the vocabulary.
pub open spec fn outcome_number(outcome: EventOutcome) -> int {
    match outcome {
        EventOutcome::Success => 0,
        EventOutcome::InvalidInput => 1,
        EventOutcome::Duplicate => 2,
        EventOutcome::Expired => 3,
        EventOutcome::QuotaReached => 4,
        EventOutcome::UnsupportedVersion => 5,
        EventOutcome::StorageFailure => 6,
        EventOutcome::TransportFailure => 7,
        EventOutcome::ClockRollback => 8,
    }
}

/// Stored number of a size bucket: its position from smallest to largest.
pub open spec fn size_number(bucket: SizeBucket) -> int {
    match bucket {
        SizeBucket::NotRecorded => 0,
        SizeBucket::UpTo1KiB => 1,
        SizeBucket::UpTo4KiB => 2,
        SizeBucket::UpTo16KiB => 3,
        SizeBucket::UpTo64KiB => 4,
        SizeBucket::Over64KiB => 5,
    }
}

/// Stored number of a duration bucket: its position from shortest to longest.
pub open spec fn duration_number(bucket: DurationBucket) -> int {
    match bucket {
        DurationBucket::NotRecorded => 0,
        DurationBucket::Under10Milliseconds => 1,
        DurationBucket::Under100Milliseconds => 2,
        DurationBucket::Under1Second => 3,
        DurationBucket::Under10Seconds => 4,
        DurationBucket::TenSecondsOrMore => 5,
    }
}

pub fn encode_event_code(code: EventCode) -> (value: i64)
    ensures
        value == code_number(code),
{
    match code {
        EventCode::NodeStarted => 0,
        EventCode::NodeStopped => 1,
        EventCode::StorageOpened => 2,
        EventCode::QueueRecovered => 3,
        EventCode::QueueSaved => 4,
        EventCode::EnvelopeAccepted => 5,
        EventCode::EnvelopeRejected => 6,
        EventCode::DuplicateIgnored => 7,
        EventCode::EnvelopeExpired => 8,
        EventCode::EnvelopeEvicted => 9,
        EventCode::TransferOffered => 10,
        EventCode::TransferCompleted => 11,
        EventCode::TransferRejected => 12,
        EventCode::ClockRollbackDetected => 13,
        EventCode::OperationFailed => 14,
    }
}

pub fn decode_event_code(value: i64) -> (result: Result<EventCode, PersistentDiagnosticError>)
    ensures
        match result {
            Ok(code) => code_number(code) == value,
            Err(e) => e == PersistentDiagnosticError::CorruptData && !(0 <= value <= 14),
        },
{
    match value {
        0 => Ok(EventCode::NodeStarted),
        1 => Ok(EventCode::NodeStopped),
        2 => Ok(EventCode::StorageOpened),
        3 => Ok(EventCode::QueueRecovered),
        4 => Ok(EventCode::QueueSaved),
        5 => Ok(EventCode::EnvelopeAccepted),
        6 => Ok(EventCode::EnvelopeRejected),
        7 => Ok(EventCode::DuplicateIgnored),
        8 => Ok(EventCode::EnvelopeExpired),
        9 => Ok(EventCode::EnvelopeEvicted),
        10 => Ok(EventCode::TransferOffered),
        11 => Ok(EventCode::TransferCompleted),
        12 => Ok(EventCode::TransferRejected),
        13 => Ok(EventCode::ClockRollbackDetected),
        14 => Ok(EventCode::OperationFailed),
        _ => Err(PersistentDiagnosticError::CorruptData),
    }
}

pub fn encode_event_outcome(outcome: EventOutcome) -> (value: i64)
    ensures
        value == outcome_number(outcome),
{
    match outcome {
        EventOutcome::Success => 0,
        EventOutcome::InvalidInput => 1,
        EventOutcome::Duplicate => 2,
        EventOutcome::Expired => 3,
        EventOutcome::QuotaReached => 4,
        EventOutcome::UnsupportedVersion => 5,
        EventOutcome::StorageFailure => 6,
        EventOutcome::TransportFailure => 7,
        EventOutcome::ClockRollback => 8,
    }
}

pub fn decode_event_outcome(value: i64) -> (result: Result<EventOutcome, PersistentDiagnosticError>)
    ensures
        match result {
            Ok(outcome) => outcome_number(outcome) == value,
            Err(e) => e == PersistentDiagnosticError::CorruptData && !(0 <= value <= 8),
        },
{
    match value {
        0 => Ok(EventOutcome::Success),
        1 => Ok(EventOutcome::InvalidInput),
        2 => Ok(EventOutcome::Duplicate),
        3 => Ok(EventOutcome::Expired),
        4 => Ok(EventOutcome::QuotaReached),
        5 => Ok(EventOutcome::UnsupportedVersion),
        6 => Ok(EventOutcome::StorageFailure),
        7 => Ok(EventOutcome::TransportFailure),
        8 => Ok(EventOutcome::ClockRollback),
        _ => Err(PersistentDiagnosticError::CorruptData),
    }
}

pub fn encode_size_bucket(bucket: SizeBucket) -> (value: i64)
    ensures
        value == size_number(bucket),
{
    match bucket {
        SizeBucket::NotRecorded => 0,
        SizeBucket::UpTo1KiB => 1,
        SizeBucket::UpTo4KiB => 2,
        SizeBucket::UpTo16KiB => 3,
        SizeBucket::UpTo64KiB => 4,
        SizeBucket::Over64KiB => 5,
    }
}

pub fn decode_size_bucket(value: i64) -> (result: Result<SizeBucket, PersistentDiagnosticError>)
    ensures
        match result {
            Ok(bucket) => size_number(bucket) == value,
            Err(e) => e == PersistentDiagnosticError::CorruptData && !(0 <= value <= 5),
        },
{
    match value {
        0 => Ok(SizeBucket::NotRecorded),
        1 => Ok(SizeBucket::UpTo1KiB),
        2 => Ok(SizeBucket::UpTo4KiB),
        3 => Ok(SizeBucket::UpTo16KiB),
        4 => Ok(SizeBucket::UpTo64KiB),
        5 => Ok(SizeBucket::Over64KiB),
        _ => Err(PersistentDiagnosticError::CorruptData),
    }
}

pub fn encode_duration_bucket(bucket: DurationBucket) -> (value: i64)
    ensures
        value == duration_number(bucket),
{
    match bucket {
        DurationBucket::NotRecorded => 0,
        DurationBucket::Under10Milliseconds => 1,
        DurationBucket::Under100Milliseconds => 2,
        DurationBucket::Under1Second => 3,
        DurationBucket::Under10Seconds => 4,
        DurationBucket::TenSecondsOrMore => 5,
    }
}

pub fn decode_duration_bucket(value: i64) -> (result: Result<DurationBucket, PersistentDiagnosticError>)
    ensures
        match result {
            Ok(bucket) => duration_number(bucket) == value,
            Err(e) => e == PersistentDiagnosticError::CorruptData && !(0 <= value <= 5),
        },
{
    match value {
        0 => Ok(DurationBucket::NotRecorded),
        1 => Ok(DurationBucket::Under10Milliseconds),
        2 => Ok(DurationBucket::Under100Milliseconds),
        3 => Ok(DurationBucket::Under1Second),
        4 => Ok(DurationBucket::Under10Seconds),
        5 => Ok(DurationBucket::TenSecondsOrMore),
        _ => Err(PersistentDiagnosticError::CorruptData),
    }
}

/// A stored integer for a wall time or sequence number; larger values than
/// the signed 64-bit range are a clock out of range.
pub fn to_sql_integer(value: u64) -> (result: Result<i64, PersistentDiagnosticError>)
    ensures
        value <= i64::MAX ==> result == Ok::<i64, PersistentDiagnosticError>(value as i64),
        value > i64::MAX ==> result == Err::<i64, PersistentDiagnosticError>(
            PersistentDiagnosticError::ClockOutOfRange,
        ),
{
    if value <= 9223372036854775807u64 {
        Ok(value as i64)
    } else {
        Err(PersistentDiagnosticError::ClockOutOfRange)
    }
}

/// One row of the stored metadata table.
#[derive(Clone, Copy, Debug, PartialEq, Eq, Structural)]
pub struct MetadataRow {
    pub schema_version: i64,
    pub max_records: i64,
    pub max_logical_bytes: i64,
    pub retention_seconds: i64,
    pub next_sequence: i64,
    pub last_observed_wall_seconds: i64,
}

/// One stored diagnostic record row.
#[derive(Clone, Copy, Debug, PartialEq, Eq, Structural)]
pub struct RecordRow {
    pub sequence: i64,
    pub code: i64,
    pub outcome: i64,
    pub object_count: i64,
    pub size_bucket: i64,
    pub duration_bucket: i64,
    pub expires_at_wall_seconds: i64,
}

/// A row holds a well-formed record that expires after `last` and no later than `latest`.
pub open spec fn row_valid(r: RecordRow, last: int, latest: int) -> bool {
    &&& r.sequence > 0
    &&& last < r.expires_at_wall_seconds <= latest
    &&& 0 <= r.object_count <= u16::MAX
    &&& 0 <= r.code <= 14
    &&& 0 <= r.outcome <= 8
    &&& 0 <= r.size_bucket <= 5
    &&& 0 <= r.duration_bucket <= 5
}

/// Every row is valid, sequence numbers strictly increase, and expiry times never decrease.
pub open spec fn rows_valid(rows: Seq<RecordRow>, last: int, latest: int) -> bool {
    &&& forall|i: int| 0 <= i < rows.len() ==> row_valid(#[trigger] rows[i], last, latest)
    &&& forall|a: int, b: int|
        0 <= a < b < rows.len() ==> #[trigger] rows[a].sequence < #[trigger] rows[b].sequence
    &&& forall|a: int, b: int|
        0 <= a < b < rows.len() ==> #[trigger] rows[a].expires_at_wall_seconds
            <= #[trigger] rows[b].expires_at_wall_seconds
}

/// The stored record that a valid row describes.
pub open spec fn row_record(r: RecordRow) -> StoredView {
    StoredView {
        record: RecordView {
            sequence: r.sequence as int,
            code: choose|c: EventCode| code_number(c) == r.code,
            outcome: choose|o: EventOutcome| outcome_number(o) == r.outcome,
            object_count: r.object_count as int,
            size_bucket: choose|b: SizeBucket| size_number(b) == r.size_bucket,
            duration_bucket: choose|b: DurationBucket| duration_number(b) == r.duration_bucket,
        },
        expires_at: r.expires_at_wall_seconds as int,
    }
}

/// The journal that a stored snapshot describes, or the error reading it
/// back reports: a missing metadata row or any inconsistency is corrupt data;
/// a different schema or different limits are reported as such.
pub open spec fn restore_model(
    meta: Option<MetadataRow>,
    record_count: i64,
    rows: Seq<RecordRow>,
    expected: JournalLimitsView,
) -> Result<JournalModel, PersistentDiagnosticError> {
    match meta {
        None => Err(PersistentDiagnosticError::CorruptData),
        Some(m) => if m.schema_version != SCHEMA_VERSION {
            Err(PersistentDiagnosticError::UnsupportedSchema)
        } else if m.max_records <= 0 || m.max_logical_bytes <= 0 || m.retention_seconds < 0
            || journal_limits_error(
            m.max_records as int,
            m.max_logical_bytes as int,
            m.retention_seconds as int,
        ) is Some {
            Err(PersistentDiagnosticError::CorruptData)
        } else if (JournalLimitsView {
            max_records: m.max_records as int,
            max_logical_bytes: m.max_logical_bytes as int,
            retention: m.retention_seconds as int,
        }) != expected {
            Err(PersistentDiagnosticError::LimitMismatch)
        } else if m.next_sequence <= 0 || m.last_observed_wall_seconds < 0 {
            Err(PersistentDiagnosticError::CorruptData)
        } else if record_count < 0 || record_count > expected.max_records || record_count
            * DIAGNOSTIC_RECORD_LOGICAL_BYTES > expected.max_logical_bytes {
            Err(PersistentDiagnosticError::CorruptData)
        } else if !rows_valid(
            rows,
            m.last_observed_wall_seconds as int,
            m.last_observed_wall_seconds + expected.retention,
        ) || rows.len() != record_count || (rows.len() > 0 && m.next_sequence <= rows.last().sequence) {
            Err(PersistentDiagnosticError::CorruptData)
        } else {
            Ok(
                JournalModel {
                    limits: expected,
                    records: rows.map_values(|r: RecordRow| row_record(r)),
                    next_sequence: m.next_sequence as int,
                    last_observed: Some(m.last_observed_wall_seconds as int),
                },
            )
        },
    }
}

fn decode_row(row: &RecordRow) -> (result: Result<StoredRecord, PersistentDiagnosticError>)
    requires
        row.sequence > 0,
        row.expires_at_wall_seconds >= 0,
    ensures
        match result {
            Ok(s) => row_valid(*row, -1, i64::MAX as int) && s@ == row_record(*row),
            Err(e) => e == PersistentDiagnosticError::CorruptData && !row_valid(
                *row,
                -1,
                i64::MAX as int,
            ),
        },
{
    if row.object_count < 0 || row.object_count > 65535 {
        return Err(PersistentDiagnosticError::CorruptData);
    }
    let code = decode_event_code(row.code)?;
    let outcome = decode_event_outcome(row.outcome)?;
    let size_bucket = decode_size_bucket(row.size_bucket)?;
    let duration_bucket = decode_duration_bucket(row.duration_bucket)?;
    let record = DiagnosticRecord::from_parts(
        row.sequence as u64,
        code,
        outcome,
        row.object_count as u16,
        size_bucket,
        duration_bucket,
    );
    let stored = StoredRecord::new(record, row.expires_at_wall_seconds as u64);
    proof {
        let c = choose|c: EventCode| code_number(c) == row.code;
        assert(code_number(c) == code_number(code));
        let o = choose|o: EventOutcome| outcome_number(o) == row.outcome;
        assert(outcome_number(o) == outcome_number(outcome));
        let b = choose|b: SizeBucket| size_number(b) == row.size_bucket;
        assert(size_number(b) == size_number(size_bucket));
        let d = choose|d: DurationBucket| duration_number(d) == row.duration_bucket;
        assert(duration_number(d) == duration_number(duration_bucket));
    }
    Ok(stored)
}

/// Decodes stored rows in order, checking each and their order as `rows_valid` describes.
fn decode_rows(rows: &[RecordRow], last: u64, latest: u64) -> (result: Result<
    VecDeque<StoredRecord>,
    PersistentDiagnosticError,
>)
    requires
        last <= latest <= i64::MAX + 604800,
    ensures
        match result {
            Ok(v) => rows_valid(rows@, last as int, latest as int) && stored_views(v@)
                == rows@.map_values(|r: RecordRow| row_record(r)),
            Err(e) => e == PersistentDiagnosticError::CorruptData && !rows_valid(
                rows@,
                last as int,
                latest as int,
            ),
        },
{
    let mut records: VecDeque<StoredRecord> = VecDeque::new();
    let mut i: usize = 0;
    while i < rows.len()
        invariant
            i <= rows@.len(),
            last <= latest <= i64::MAX + 604800,
            rows_valid(rows@.take(i as int), last as int, latest as int),
            stored_views(records@) == rows@.take(i as int).map_values(|r: RecordRow| row_record(r)),
        decreases rows@.len() - i,
    {
        let row = rows[i];
        if row.sequence <= 0 || row.expires_at_wall_seconds < 0 {
            proof {
                assert(!row_valid(rows@[i as int], last as int, latest as int));
            }
            return Err(PersistentDiagnosticError::CorruptData);
        }
        let expires = row.expires_at_wall_seconds as u64;
        let ordered = if i == 0 {
            true
        } else {
            let prev = rows[i - 1];
            row.sequence > prev.sequence && row.expires_at_wall_seconds
                >= prev.expires_at_wall_seconds
        };
        if !ordered || expires <= last || expires > latest {
            proof {
                if !ordered {
                    assert(rows@[i - 1].sequence >= rows@[i as int].sequence || rows@[i
                        - 1].expires_at_wall_seconds > rows@[i as int].expires_at_wall_seconds);
                } else {
                    assert(!row_valid(rows@[i as int], last as int, latest as int));
                }
            }
            return Err(PersistentDiagnosticError::CorruptData);
        }
        let stored = match decode_row(&row) {
            Ok(s) => s,
            Err(e) => {
                proof {
                    assert(rows@.take(i + 1)[i as int] == row);
                }
                return Err(e);
            },
        };
        proof {
            let t = rows@.take(i as int);
            let t1 = rows@.take(i + 1);
            assert(t1 =~= t.push(row));
            assert forall|a: int, b: int| 0 <= a < b < t1.len() implies #[trigger] t1[a].sequence
                < #[trigger] t1[b].sequence by {
                if b == i && a < i - 1 {
                    assert(t[a].sequence < t[i - 1].sequence);
                    assert(t[i - 1] == rows@[i - 1]);
                } else if b == i {
                    assert(t[i - 1] == rows@[i - 1]);
                }
            }
            assert forall|a: int, b: int| 0 <= a < b < t1.len() implies #[trigger] t1[a].expires_at_wall_seconds
                <= #[trigger] t1[b].expires_at_wall_seconds by {
                if b == i && a < i - 1 {
                    assert(t[a].expires_at_wall_seconds <= t[i - 1].expires_at_wall_seconds);
                    assert(t[i - 1] == rows@[i - 1]);
                } else if b == i {
                    assert(t[i - 1] == rows@[i - 1]);
                }
            }
            assert(row_valid(row, last as int, latest as int));
            assert forall|k: int| 0 <= k < t1.len() implies row_valid(#[trigger] t1[k], last as int, latest as int) by {
                if k < i {
                    assert(t1[k] == t[k]);
                }
            }
            assert(stored_views(records@.push(stored)) =~= stored_views(records@).push(stored@));
            assert(t1.map_values(|r: RecordRow| row_record(r)) =~= t.map_values(
                |r: RecordRow| row_record(r),
            ).push(row_record(row)));
        }
        records.push_back(stored);
        i += 1;
    }
    proof {
        assert(rows@.take(i as int) =~= rows@);
    }
    Ok(records)
}

/// Rebuilds a journal from a stored snapshot as `restore_model` describes.
pub fn restore_journal(
    meta: Option<MetadataRow>,
    record_count: i64,
    rows: &[RecordRow],
    expected_limits: JournalLimits,
) -> (result: Result<DiagnosticJournal, PersistentDiagnosticError>)
    ensures
        match restore_model(meta, record_count, rows@, expected_limits@) {
            Ok(model) => result matches Ok(j) && j.model() == model && j.wf(),
            Err(e) => result matches Err(r) && r == e,
        },
{
    expected_limits.establish_valid();
    let m = match meta {
        Some(m) => m,
        None => {
            return Err(PersistentDiagnosticError::CorruptData);
        },
    };
    if m.schema_version != SCHEMA_VERSION {
        return Err(PersistentDiagnosticError::UnsupportedSchema);
    }
    if m.max_records <= 0 || m.max_logical_bytes <= 0 || m.retention_seconds < 0 {
        return Err(PersistentDiagnosticError::CorruptData);
    }
    if m.max_records as u64 > usize::MAX as u64 || m.max_logical_bytes as u64 > usize::MAX as u64 {
        return Err(PersistentDiagnosticError::CorruptData);
    }
    let stored_limits = match JournalLimits::try_new(
        m.max_records as usize,
        m.max_logical_bytes as usize,
        m.retention_seconds as u64,
    ) {
        Ok(l) => l,
        Err(_) => {
            return Err(PersistentDiagnosticError::CorruptData);
        },
    };
    if !stored_limits.same_as(expected_limits) {
        return Err(PersistentDiagnosticError::LimitMismatch);
    }
    if m.next_sequence <= 0 || m.last_observed_wall_seconds < 0 {
        return Err(PersistentDiagnosticError::CorruptData);
    }
    let next_sequence = m.next_sequence as u64;
    let last = m.last_observed_wall_seconds as u64;
    let latest = last + expected_limits.retention_seconds();
    if record_count < 0 || record_count as u64 > expected_limits.max_records() as u64 {
        return Err(PersistentDiagnosticError::CorruptData);
    }
    if record_count as u64 * 32 > expected_limits.max_logical_bytes() as u64 {
        return Err(PersistentDiagnosticError::CorruptData);
    }
    let records = decode_rows(rows, last, latest)?;
    if rows.len() as u64 != record_count as u64 {
        return Err(PersistentDiagnosticError::CorruptData);
    }
    if rows.len() > 0 && m.next_sequence <= rows[rows.len() - 1].sequence {
        return Err(PersistentDiagnosticError::CorruptData);
    }
    proof {
        let rs = rows@;
        let sv = stored_views(records@);
        let n = rs.len() as int;
        let l = expected_limits@;
        assert(n <= super::journal::capacity(l)) by (nonlinear_arith)
            requires
                n <= l.max_records,
                n * 32 <= l.max_logical_bytes,
                super::journal::capacity(l) == (if l.max_records <= l.max_logical_bytes / 32 {
                    l.max_records
                } else {
                    l.max_logical_bytes / 32
                }),
        ;
        assert forall|a: int| 0 <= a < n implies #[trigger] sv[a] == row_record(rs[a]) by {}
        assert forall|a: int, b: int| 0 <= a < b < n implies #[trigger] sv[a].record.sequence
            < #[trigger] sv[b].record.sequence by {
            assert(rs[a].sequence < rs[b].sequence);
        }
        assert forall|a: int, b: int| 0 <= a < b < n implies #[trigger] sv[a].expires_at
            <= #[trigger] sv[b].expires_at by {
            assert(rs[a].expires_at_wall_seconds <= rs[b].expires_at_wall_seconds);
        }
        assert forall|a: int| 0 <= a < n implies 1 <= #[trigger] sv[a].record.sequence < next_sequence by {
            assert(row_valid(rs[a], last as int, latest as int));
            if a < n - 1 {
                assert(rs[a].sequence < rs[n - 1].sequence);
            }
        }
        assert forall|a: int| #![trigger sv[a]] 0 <= a < n implies (last as int) < sv[a].expires_at
            <= last + l.retention by {
            assert(row_valid(rs[a], last as int, latest as int));
        }
    }
    Ok(DiagnosticJournal::from_parts(expected_limits, records, next_sequence, last))
}

/// The stored row of a record.
pub open spec fn record_row(s: StoredView) -> RecordRow {
    RecordRow {
        sequence: s.record.sequence as i64,
        code: code_number(s.record.code) as i64,
        outcome: outcome_number(s.record.outcome) as i64,
        object_count: s.record.object_count as i64,
        size_bucket: size_number(s.record.size_bucket) as i64,
        duration_bucket: duration_number(s.record.duration_bucket) as i64,
        expires_at_wall_seconds: s.expires_at as i64,
    }
}

/// Every number of the journal fits a stored signed 64-bit integer.
pub open spec fn snapshot_fits(j: JournalModel) -> bool {
    &&& j.last_observed is Some
    &&& j.last_observed->0 <= i64::MAX
    &&& j.next_sequence <= i64::MAX
    &&& forall|a: int| 0 <= a < j.records.len() ==> #[trigger] j.records[a].expires_at <= i64::MAX
}

/// The metadata row stored with a snapshot of `j`.
pub open spec fn snapshot_metadata(j: JournalModel) -> MetadataRow {
    MetadataRow {
        schema_version: SCHEMA_VERSION,
        max_records: j.limits.max_records as i64,
        max_logical_bytes: j.limits.max_logical_bytes as i64,
        retention_seconds: j.limits.retention as i64,
        next_sequence: j.next_sequence as i64,
        last_observed_wall_seconds: j.last_observed->0 as i64,
    }
}

/// Rows and metadata written for a journal, oldest record first; a journal
/// that never observed a time has no snapshot, and numbers past the signed
/// 64-bit range are a clock out of range.
pub fn snapshot(journal: &DiagnosticJournal) -> (result: Result<
    (Vec<RecordRow>, MetadataRow),
    PersistentDiagnosticError,
>)
    requires
        journal.wf(),
    ensures
        journal.model().last_observed is None ==> result == Err::<
            (Vec<RecordRow>, MetadataRow),
            PersistentDiagnosticError,
        >(PersistentDiagnosticError::CorruptData),
        journal.model().last_observed is Some && !snapshot_fits(journal.model()) ==> result
            == Err::<(Vec<RecordRow>, MetadataRow), PersistentDiagnosticError>(
            PersistentDiagnosticError::ClockOutOfRange,
        ),
        snapshot_fits(journal.model()) ==> (result matches Ok((rows, meta)) && rows@
            == journal.model().records.map_values(|r: StoredView| record_row(r)) && meta
            == snapshot_metadata(journal.model())),
{
    let ghost j = journal.model();
    let last = match journal.last_observed_wall_seconds() {
        Some(t) => t,
        None => {
            return Err(PersistentDiagnosticError::CorruptData);
        },
    };
    let stored = journal.stored_records();
    let mut rows: Vec<RecordRow> = Vec::new();
    let mut i: usize = 0;
    while i < stored.len()
        invariant
            i <= stored@.len(),
            stored_views(stored@) == j.records,
            journal_wf(j),
            j == journal.model(),
            j.last_observed is Some,
            forall|a: int| 0 <= a < i ==> #[trigger] j.records[a].expires_at <= i64::MAX,
            rows@ == j.records.take(i as int).map_values(|r: StoredView| record_row(r)),
        decreases stored@.len() - i,
    {
        let item = stored[i];
        let record = item.record();
        proof {
            assert(item@ == j.records[i as int]);
        }
        let sequence = match to_sql_integer(record.sequence()) {
            Ok(v) => v,
            Err(e) => {
                proof {
                    assert(j.records[i as int].record.sequence < j.next_sequence);
                }
                return Err(e);
            },
        };
        let expires = match to_sql_integer(item.expires_at()) {
            Ok(v) => v,
            Err(e) => {
                proof {
                    assert(j.records[i as int].expires_at > i64::MAX);
                }
                return Err(e);
            },
        };
        let row = RecordRow {
            sequence,
            code: encode_event_code(record.code()),
            outcome: encode_event_outcome(record.outcome()),
            object_count: record.object_count() as i64,
            size_bucket: encode_size_bucket(record.size_bucket()),
            duration_bucket: encode_duration_bucket(record.duration_bucket()),
            expires_at_wall_seconds: expires,
        };
        proof {
            assert(row == record_row(j.records[i as int]));
            assert(j.records.take(i + 1).map_values(|r: StoredView| record_row(r)) =~= j.records.take(
                i as int,
            ).map_values(|r: StoredView| record_row(r)).push(row));
        }
        rows.push(row);
        i += 1;
    }
    proof {
        assert(j.records.take(i as int) =~= j.records);
    }
    let next_sequence = to_sql_integer(journal.next_sequence())?;
    let last_observed = to_sql_integer(last)?;
    let limits = journal.limits();
    let meta = MetadataRow {
        schema_version: SCHEMA_VERSION,
        max_records: limits.max_records() as i64,
        max_logical_bytes: limits.max_logical_bytes() as i64,
        retention_seconds: limits.retention_seconds() as i64,
        next_sequence,
        last_observed_wall_seconds: last_observed,
    };
    Ok((rows, meta))
}

/// Storing never changes a journal: reading back the snapshot written for a
/// journal whose numbers fit the stored range gives the same journal.
pub proof fn law_snapshot_restores(j: JournalModel)
    requires
        journal_wf(j),
        snapshot_fits(j),
    ensures
        restore_model(
            Some(snapshot_metadata(j)),
            j.records.len() as i64,
            j.records.map_values(|r: StoredView| record_row(r)),
            j.limits,
        ) == Ok::<JournalModel, PersistentDiagnosticError>(j),
{
    let rows = j.records.map_values(|r: StoredView| record_row(r));
    let m = snapshot_metadata(j);
    let l = j.limits;
    let n = j.records.len() as int;
    let last = j.last_observed->0;
    assert(n <= l.max_records && n * 32 <= l.max_logical_bytes) by (nonlinear_arith)
        requires
            n <= super::journal::capacity(l),
            super::journal::capacity(l) == (if l.max_records <= l.max_logical_bytes / 32 {
                l.max_records
            } else {
                l.max_logical_bytes / 32
            }),
            l.max_logical_bytes >= 32,
    ;
    assert forall|i: int| 0 <= i < rows.len() implies row_valid(
        #[trigger] rows[i],
        last,
        last + l.retention,
    ) by {
        assert(j.records[i].expires_at <= i64::MAX);
        assert(1 <= j.records[i].record.sequence < j.next_sequence);
        assert(0 <= j.records[i].record.object_count <= u16::MAX);
    }
    assert forall|a: int, b: int| 0 <= a < b < rows.len() implies #[trigger] rows[a].sequence
        < #[trigger] rows[b].sequence by {
        assert(j.records[a].record.sequence < j.records[b].record.sequence);
        assert(1 <= j.records[b].record.sequence < j.next_sequence);
        assert(1 <= j.records[a].record.sequence < j.next_sequence);
    }
    assert forall|a: int, b: int| 0 <= a < b < rows.len() implies #[trigger] rows[a].expires_at_wall_seconds
        <= #[trigger] rows[b].expires_at_wall_seconds by {
        assert(j.records[a].expires_at <= j.records[b].expires_at);
        assert(j.records[b].expires_at <= i64::MAX);
    }
    if n > 0 {
        assert(1 <= j.records[n - 1].record.sequence < j.next_sequence);
    }
    assert forall|i: int| 0 <= i < n implies #[trigger] row_record(rows[i]) == j.records[i] by {
        let s = j.records[i];
        assert(1 <= s.record.sequence < j.next_sequence);
        assert(0 <= s.record.object_count <= u16::MAX);
        assert(s.expires_at <= i64::MAX);
        let c = choose|c: EventCode| #[trigger] code_number(c) == code_number(s.record.code);
        assert(c == s.record.code);
        let o = choose|o: EventOutcome| #[trigger] outcome_number(o) == outcome_number(s.record.outcome);
        assert(o == s.record.outcome);
        let b = choose|b: SizeBucket| #[trigger] size_number(b) == size_number(s.record.size_bucket);
        assert(b == s.record.size_bucket);
        let d = choose|d: DurationBucket| #[trigger] duration_number(d) == duration_number(s.record.duration_bucket);
        assert(d == s.record.duration_bucket);
    }
    assert(rows.map_values(|r: RecordRow| row_record(r)) =~= j.records);
}

/// The outcome of checking the size of an existing database of `page_count`
/// pages of `page_size` bytes: the page limit that keeps it within the file
/// size limit, or why it is refused.
pub open spec fn page_limit_model(page_size: int, page_count: int) -> Result<i64, PersistentDiagnosticError> {
    if page_size <= 0 || page_count < 0 {
        Err(PersistentDiagnosticError::CorruptData)
    } else if page_size * page_count > i64::MAX || page_size * page_count > MAX_DIAGNOSTIC_FILE_BYTES {
        Err(PersistentDiagnosticError::FileTooLarge)
    } else if MAX_DIAGNOSTIC_FILE_BYTES + page_size - 1 > i64::MAX {
        Err(PersistentDiagnosticError::FileTooLarge)
    } else {
        Ok(((MAX_DIAGNOSTIC_FILE_BYTES + page_size - 1) / page_size) as i64)
    }
}

pub fn max_page_count(page_size: i64, page_count: i64) -> (result: Result<i64, PersistentDiagnosticError>)
    ensures
        result == page_limit_model(page_size as int, page_count as int),
        (result == Err::<i64, PersistentDiagnosticError>(PersistentDiagnosticError::CorruptData))
            <==> (page_size <= 0 || page_count < 0),
        result matches Ok(n) ==> page_size * page_count <= MAX_DIAGNOSTIC_FILE_BYTES && n
            * page_size >= MAX_DIAGNOSTIC_FILE_BYTES && (n - 1) * page_size
            < MAX_DIAGNOSTIC_FILE_BYTES,
        page_size > 0 && page_count >= 0 && page_size * page_count > MAX_DIAGNOSTIC_FILE_BYTES
            ==> result == Err::<i64, PersistentDiagnosticError>(
            PersistentDiagnosticError::FileTooLarge,
        ),
{
    proof {
        law_page_limit(page_size as int, page_count as int);
    }
    if page_size <= 0 || page_count < 0 {
        return Err(PersistentDiagnosticError::CorruptData);
    }
    let total = match page_size.checked_mul(page_count) {
        Some(t) => t,
        None => {
            return Err(PersistentDiagnosticError::FileTooLarge);
        },
    };
    proof {
        assert(total >= 0) by (nonlinear_arith)
            requires
                total == page_size * page_count,
                page_size > 0,
                page_count >= 0,
        ;
    }
    if total as u64 > MAX_DIAGNOSTIC_FILE_BYTES {
        return Err(PersistentDiagnosticError::FileTooLarge);
    }
    let limit = match 10485760i64.checked_add(page_size - 1) {
        Some(v) => v,
        None => {
            return Err(PersistentDiagnosticError::FileTooLarge);
        },
    };
    Ok(limit / page_size)
}

/// A file found at a diagnostic path must be a regular file, not a link, with
/// one name and within the size limit.
pub fn validate_file_metadata(is_symlink: bool, is_file: bool, len: u64, link_count: u64) -> (result:
    Result<(), PersistentDiagnosticError>)
    ensures
        (is_symlink || !is_file) ==> result == Err::<(), PersistentDiagnosticError>(
            PersistentDiagnosticError::Io,
        ),
        !(is_symlink || !is_file) && len > MAX_DIAGNOSTIC_FILE_BYTES ==> result == Err::<
            (),
            PersistentDiagnosticError,
        >(PersistentDiagnosticError::FileTooLarge),
        !(is_symlink || !is_file) && len <= MAX_DIAGNOSTIC_FILE_BYTES && link_count != 1 ==> result
            == Err::<(), PersistentDiagnosticError>(PersistentDiagnosticError::Io),
        !(is_symlink || !is_file) && len <= MAX_DIAGNOSTIC_FILE_BYTES && link_count == 1 ==> result
            is Ok,
{
    if is_symlink || !is_file {
        return Err(PersistentDiagnosticError::Io);
    }
    if len > MAX_DIAGNOSTIC_FILE_BYTES {
        return Err(PersistentDiagnosticError::FileTooLarge);
    }
    if link_count != 1 {
        return Err(PersistentDiagnosticError::Io);
    }
    Ok(())
}

/// Checks the header of an opened database: a new one must be blank and is
/// then to be initialized (`true`); an existing one must carry the Lantern
/// application identifier and the supported schema (`false`).
pub fn check_header(new_database: bool, application_id: i64, schema_version: i64) -> (result: Result<
    bool,
    PersistentDiagnosticError,
>)
    ensures
        new_database && (application_id != 0 || schema_version != 0) ==> result == Err::<
            bool,
            PersistentDiagnosticError,
        >(PersistentDiagnosticError::WrongApplication),
        new_database && application_id == 0 && schema_version == 0 ==> result == Ok::<
            bool,
            PersistentDiagnosticError,
        >(true),
        !new_database && application_id != APPLICATION_ID ==> result == Err::<
            bool,
            PersistentDiagnosticError,
        >(PersistentDiagnosticError::WrongApplication),
        !new_database && application_id == APPLICATION_ID && schema_version != SCHEMA_VERSION
            ==> result == Err::<bool, PersistentDiagnosticError>(
            PersistentDiagnosticError::UnsupportedSchema,
        ),
        !new_database && application_id == APPLICATION_ID && schema_version == SCHEMA_VERSION
            ==> result == Ok::<bool, PersistentDiagnosticError>(false),
{
    if new_database {
        if application_id != 0 || schema_version != 0 {
            return Err(PersistentDiagnosticError::WrongApplication);
        }
        Ok(true)
    } else {
        if application_id != APPLICATION_ID {
            return Err(PersistentDiagnosticError::WrongApplication);
        }
        if schema_version != SCHEMA_VERSION {
            return Err(PersistentDiagnosticError::UnsupportedSchema);
        }
        Ok(false)
    }
}

/// The page limit of a diagnostic database: a non-positive page size or a
/// negative page count is corrupt; a file already over the size limit is
/// too large; otherwise the limit is the fewest pages that reach the size
/// limit, so that the file can grow to the limit and by less than one page
/// past it.
pub proof fn law_page_limit(page_size: int, page_count: int)
    ensures
        (page_limit_model(page_size, page_count) == Err::<i64, PersistentDiagnosticError>(
            PersistentDiagnosticError::CorruptData,
        )) <==> (page_size <= 0 || page_count < 0),
        page_limit_model(page_size, page_count) matches Ok(n) ==> page_size * page_count
            <= MAX_DIAGNOSTIC_FILE_BYTES && n * page_size >= MAX_DIAGNOSTIC_FILE_BYTES && (n - 1)
            * page_size < MAX_DIAGNOSTIC_FILE_BYTES,
        page_size > 0 && page_count >= 0 && page_size * page_count > MAX_DIAGNOSTIC_FILE_BYTES
            ==> page_limit_model(page_size, page_count) == Err::<i64, PersistentDiagnosticError>(
            PersistentDiagnosticError::FileTooLarge,
        ),
{
    if page_size > 0 && page_count >= 0 && !(page_size * page_count > i64::MAX || page_size
        * page_count > MAX_DIAGNOSTIC_FILE_BYTES) && !(MAX_DIAGNOSTIC_FILE_BYTES + page_size - 1
        > i64::MAX) {
        let m = MAX_DIAGNOSTIC_FILE_BYTES as int;
        let n = (m + page_size - 1) / page_size;
        assert(n * page_size >= m && (n - 1) * page_size < m) by (nonlinear_arith)
            requires
                page_size > 0,
                m > 0,
                n == (m + page_size - 1) / page_size,
        ;
        assert(((m + page_size - 1) / page_size) as i64 == n) by (nonlinear_arith)
            requires
                page_size > 0,
                m + page_size - 1 <= i64::MAX,
                m > 0,
                n == (m + page_size - 1) / page_size,
        ;
    }
}

/// The stored numbers of events: each code and each outcome has its own
/// number, its position in the vocabulary, so that no two share one; and the
/// stored size and duration buckets grow with the size or the duration they
/// record, a larger size or a longer operation never being stored under a
/// smaller number.
pub proof fn law_stored_numbers(
    c1: EventCode,
    c2: EventCode,
    o1: EventOutcome,
    o2: EventOutcome,
    a: usize,
    b: usize,
    m: u64,
    n: u64,
)
    ensures
        code_number(c1) == code_number(c2) ==> c1 == c2,
        outcome_number(o1) == outcome_number(o2) ==> o1 == o2,
        0 <= code_number(c1) <= 14,
        0 <= outcome_number(o1) <= 8,
        a <= b ==> size_number(size_bucket_of(Some(a))) <= size_number(size_bucket_of(Some(b))),
        m <= n ==> duration_number(duration_bucket_of(Some(m))) <= duration_number(
            duration_bucket_of(Some(n)),
        ),
        size_number(size_bucket_of(None)) == 0 && size_number(size_bucket_of(Some(a))) >= 1,
        duration_number(duration_bucket_of(None)) == 0 && duration_number(duration_bucket_of(Some(m)))
            >= 1,
        code_number(EventCode::NodeStarted) == 0 && code_number(EventCode::NodeStopped) == 1
            && code_number(EventCode::StorageOpened) == 2 && code_number(EventCode::QueueRecovered)
            == 3 && code_number(EventCode::QueueSaved) == 4 && code_number(
            EventCode::EnvelopeAccepted,
        ) == 5 && code_number(EventCode::EnvelopeRejected) == 6 && code_number(
            EventCode::DuplicateIgnored,
        ) == 7 && code_number(EventCode::EnvelopeExpired) == 8 && code_number(
            EventCode::EnvelopeEvicted,
        ) == 9 && code_number(EventCode::TransferOffered) == 10 && code_number(
            EventCode::TransferCompleted,
        ) == 11 && code_number(EventCode::TransferRejected) == 12 && code_number(
            EventCode::ClockRollbackDetected,
        ) == 13 && code_number(EventCode::OperationFailed) == 14,
        outcome_number(EventOutcome::Success) == 0 && outcome_number(EventOutcome::InvalidInput) == 1
            && outcome_number(EventOutcome::Duplicate) == 2 && outcome_number(EventOutcome::Expired)
            == 3 && outcome_number(EventOutcome::QuotaReached) == 4 && outcome_number(
            EventOutcome::UnsupportedVersion,
        ) == 5 && outcome_number(EventOutcome::StorageFailure) == 6 && outcome_number(
            EventOutcome::TransportFailure,
        ) == 7 && outcome_number(EventOutcome::ClockRollback) == 8,
{
}

} // verus!
