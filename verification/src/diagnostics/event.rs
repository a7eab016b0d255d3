//! Validated diagnostic events built from a closed vocabulary and coarse buckets.
use vstd::prelude::*;

use super::MAX_EVENT_OBJECT_COUNT;

verus! {

/// Closed technical event vocabulary. It intentionally has no text variant.
#[derive(Clone, Copy, Debug, PartialEq, Eq, Structural)]
pub enum EventCode {
    NodeStarted,
    NodeStopped,
    StorageOpened,
    QueueRecovered,
    QueueSaved,
    EnvelopeAccepted,
    EnvelopeRejected,
    DuplicateIgnored,
    EnvelopeExpired,
    EnvelopeEvicted,
    TransferOffered,
    TransferCompleted,
    TransferRejected,
    ClockRollbackDetected,
    OperationFailed,
}

/// Closed outcome vocabulary with no underlying error text.
#[derive(Clone, Copy, Debug, PartialEq, Eq, Structural)]
pub enum EventOutcome {
    Success,
    InvalidInput,
    Duplicate,
    Expired,
    QuotaReached,
    UnsupportedVersion,
    StorageFailure,
    TransportFailure,
    ClockRollback,
}

/// Coarse object-size category. Exact bytes are discarded at construction.
#[derive(Clone, Copy, Debug, PartialEq, Eq, Structural)]
pub enum SizeBucket {
    NotRecorded,
    UpTo1KiB,
    UpTo4KiB,
    UpTo16KiB,
    UpTo64KiB,
    Over64KiB,
}

/// The size bucket of an optional byte count: inclusive upper bounds of
/// 1 KiB, 4 KiB, 16 KiB and 64 KiB.
pub open spec fn size_bucket_of(bytes: Option<usize>) -> SizeBucket {
    match bytes {
        None => SizeBucket::NotRecorded,
        Some(b) => if b <= 1024 {
            SizeBucket::UpTo1KiB
        } else if b <= 4096 {
            SizeBucket::UpTo4KiB
        } else if b <= 16384 {
            SizeBucket::UpTo16KiB
        } else if b <= 65536 {
            SizeBucket::UpTo64KiB
        } else {
            SizeBucket::Over64KiB
        },
    }
}

impl SizeBucket {
    pub fn from_bytes(bytes: Option<usize>) -> (bucket: Self)
        ensures
            bucket == size_bucket_of(bytes),
            (bucket == SizeBucket::NotRecorded) <==> bytes is None,
            bytes matches Some(b) ==> ((bucket == SizeBucket::UpTo1KiB) <==> b <= 1024),
            bytes matches Some(b) ==> ((bucket == SizeBucket::UpTo4KiB) <==> 1024 < b <= 4096),
            bytes matches Some(b) ==> ((bucket == SizeBucket::UpTo16KiB) <==> 4096 < b <= 16384),
            bytes matches Some(b) ==> ((bucket == SizeBucket::UpTo64KiB) <==> 16384 < b <= 65536),
            bytes matches Some(b) ==> ((bucket == SizeBucket::Over64KiB) <==> 65536 < b),
    {
        proof {
            law_size_buckets(bytes);
        }
        match bytes {
            None => SizeBucket::NotRecorded,
            Some(b) => if b <= 1024 {
                SizeBucket::UpTo1KiB
            } else if b <= 4096 {
                SizeBucket::UpTo4KiB
            } else if b <= 16384 {
                SizeBucket::UpTo16KiB
            } else if b <= 65536 {
                SizeBucket::UpTo64KiB
            } else {
                SizeBucket::Over64KiB
            },
        }
    }
}

/// Coarse operation-duration category. Exact duration is discarded.
#[derive(Clone, Copy, Debug, PartialEq, Eq, Structural)]
pub enum DurationBucket {
    NotRecorded,
    Under10Milliseconds,
    Under100Milliseconds,
    Under1Second,
    Under10Seconds,
    TenSecondsOrMore,
}

/// The duration bucket of an optional millisecond count: strict upper bounds
/// of 10 ms, 100 ms, 1 s and 10 s.
pub open spec fn duration_bucket_of(milliseconds: Option<u64>) -> DurationBucket {
    match milliseconds {
        None => DurationBucket::NotRecorded,
        Some(m) => if m < 10 {
            DurationBucket::Under10Milliseconds
        } else if m < 100 {
            DurationBucket::Under100Milliseconds
        } else if m < 1000 {
            DurationBucket::Under1Second
        } else if m < 10000 {
            DurationBucket::Under10Seconds
        } else {
            DurationBucket::TenSecondsOrMore
        },
    }
}

impl DurationBucket {
    pub fn from_milliseconds(milliseconds: Option<u64>) -> (bucket: Self)
        ensures
            bucket == duration_bucket_of(milliseconds),
            (bucket == DurationBucket::NotRecorded) <==> milliseconds is None,
            milliseconds matches Some(m) ==> ((bucket == DurationBucket::Under10Milliseconds) <==> m < 10),
            milliseconds matches Some(m) ==> ((bucket == DurationBucket::Under100Milliseconds) <==> 10 <= m < 100),
            milliseconds matches Some(m) ==> ((bucket == DurationBucket::Under1Second) <==> 100 <= m < 1000),
            milliseconds matches Some(m) ==> ((bucket == DurationBucket::Under10Seconds) <==> 1000 <= m < 10000),
            milliseconds matches Some(m) ==> ((bucket == DurationBucket::TenSecondsOrMore) <==> 10000 <= m),
    {
        proof {
            law_duration_buckets(milliseconds);
        }
        match milliseconds {
            None => DurationBucket::NotRecorded,
            Some(m) => if m < 10 {
                DurationBucket::Under10Milliseconds
            } else if m < 100 {
                DurationBucket::Under100Milliseconds
            } else if m < 1000 {
                DurationBucket::Under1Second
            } else if m < 10000 {
                DurationBucket::Under10Seconds
            } else {
                DurationBucket::TenSecondsOrMore
            },
        }
    }
}

/// Safe diagnostic error category without input values or external errors.
#[derive(Clone, Copy, Debug, PartialEq, Eq, Structural)]
pub enum DiagnosticError {
    InvalidRecordLimit,
    InvalidByteLimit,
    InvalidRetention,
    ObjectCountTooLarge,
    ArithmeticOverflow,
}

/// The description of a `DiagnosticError`.
pub open spec fn diagnostic_error_text(error: DiagnosticError) -> Seq<char> {
    match error {
        DiagnosticError::InvalidRecordLimit => "invalid diagnostic record limit"@,
        DiagnosticError::InvalidByteLimit => "invalid diagnostic byte limit"@,
        DiagnosticError::InvalidRetention => "invalid diagnostic retention"@,
        DiagnosticError::ObjectCountTooLarge => "diagnostic object count exceeds limit"@,
        DiagnosticError::ArithmeticOverflow => "diagnostic arithmetic overflow"@,
    }
}

impl DiagnosticError {
    /// Short human-readable description.
    pub fn message(&self) -> (text: &'static str)
        ensures
            text@ == diagnostic_error_text(*self),
    {
        match self {
            DiagnosticError::InvalidRecordLimit => "invalid diagnostic record limit",
            DiagnosticError::InvalidByteLimit => "invalid diagnostic byte limit",
            DiagnosticError::InvalidRetention => "invalid diagnostic retention",
            DiagnosticError::ObjectCountTooLarge => "diagnostic object count exceeds limit",
            DiagnosticError::ArithmeticOverflow => "diagnostic arithmetic overflow",
        }
    }
}

/// Model of a validated event.
pub struct EventView {
    pub code: EventCode,
    pub outcome: EventOutcome,
    pub object_count: u16,
    pub size_bucket: SizeBucket,
    pub duration_bucket: DurationBucket,
}

/// One validated event before the journal assigns local ordering and expiry.
/// Only categories are kept: exact sizes and durations are discarded.
#[derive(Clone, Copy, Debug, PartialEq, Eq, Structural)]
pub struct DiagnosticEvent {
    pub(crate) code: EventCode,
    pub(crate) outcome: EventOutcome,
    pub(crate) object_count: u16,
    pub(crate) size_bucket: SizeBucket,
    pub(crate) duration_bucket: DurationBucket,
}

impl View for DiagnosticEvent {
    type V = EventView;

    closed spec fn view(&self) -> EventView {
        EventView {
            code: self.code,
            outcome: self.outcome,
            object_count: self.object_count,
            size_bucket: self.size_bucket,
            duration_bucket: self.duration_bucket,
        }
    }
}

impl DiagnosticEvent {
    pub fn try_new(
        code: EventCode,
        outcome: EventOutcome,
        object_count: u16,
        size_bytes: Option<usize>,
        duration_milliseconds: Option<u64>,
    ) -> (result: Result<Self, DiagnosticError>)
        ensures
            object_count > MAX_EVENT_OBJECT_COUNT ==> result == Err::<DiagnosticEvent, DiagnosticError>(
                DiagnosticError::ObjectCountTooLarge,
            ),
            object_count <= MAX_EVENT_OBJECT_COUNT ==> (result matches Ok(e) && e@ == (EventView {
                code,
                outcome,
                object_count,
                size_bucket: size_bucket_of(size_bytes),
                duration_bucket: duration_bucket_of(duration_milliseconds),
            })),
    {
        if object_count > MAX_EVENT_OBJECT_COUNT {
            return Err(DiagnosticError::ObjectCountTooLarge);
        }
        Ok(
            DiagnosticEvent {
                code,
                outcome,
                object_count,
                size_bucket: SizeBucket::from_bytes(size_bytes),
                duration_bucket: DurationBucket::from_milliseconds(duration_milliseconds),
            },
        )
    }

    pub fn code(self) -> (code: EventCode)
        ensures
            code == self@.code,
    {
        self.code
    }

    pub fn outcome(self) -> (outcome: EventOutcome)
        ensures
            outcome == self@.outcome,
    {
        self.outcome
    }

    pub fn object_count(self) -> (count: u16)
        ensures
            count == self@.object_count,
    {
        self.object_count
    }

    pub fn size_bucket(self) -> (bucket: SizeBucket)
        ensures
            bucket == self@.size_bucket,
    {
        self.size_bucket
    }

    pub fn duration_bucket(self) -> (bucket: DurationBucket)
        ensures
            bucket == self@.duration_bucket,
    {
        self.duration_bucket
    }
}

/// Each size bucket holds exactly the sizes its name gives: up to 1 KiB, up
/// to 4 KiB, up to 16 KiB, up to 64 KiB (each above the previous bound) and
/// over 64 KiB; no size is not recorded.
pub proof fn law_size_buckets(bytes: Option<usize>)
    ensures
        (size_bucket_of(bytes) == SizeBucket::NotRecorded) <==> bytes is None,
        bytes matches Some(b) ==> ((size_bucket_of(bytes) == SizeBucket::UpTo1KiB) <==> b <= 1024),
        bytes matches Some(b) ==> ((size_bucket_of(bytes) == SizeBucket::UpTo4KiB) <==> 1024 < b
            <= 4096),
        bytes matches Some(b) ==> ((size_bucket_of(bytes) == SizeBucket::UpTo16KiB) <==> 4096 < b
            <= 16384),
        bytes matches Some(b) ==> ((size_bucket_of(bytes) == SizeBucket::UpTo64KiB) <==> 16384 < b
            <= 65536),
        bytes matches Some(b) ==> ((size_bucket_of(bytes) == SizeBucket::Over64KiB) <==> 65536 < b),
{
}

/// Each duration bucket holds exactly the durations its name gives: under
/// 10 ms, under 100 ms, under 1 s, under 10 s (each from the previous bound)
/// and 10 s or more; no duration is not recorded.
pub proof fn law_duration_buckets(milliseconds: Option<u64>)
    ensures
        (duration_bucket_of(milliseconds) == DurationBucket::NotRecorded) <==> milliseconds is None,
        milliseconds matches Some(m) ==> ((duration_bucket_of(milliseconds)
            == DurationBucket::Under10Milliseconds) <==> m < 10),
        milliseconds matches Some(m) ==> ((duration_bucket_of(milliseconds)
            == DurationBucket::Under100Milliseconds) <==> 10 <= m < 100),
        milliseconds matches Some(m) ==> ((duration_bucket_of(milliseconds)
            == DurationBucket::Under1Second) <==> 100 <= m < 1000),
        milliseconds matches Some(m) ==> ((duration_bucket_of(milliseconds)
            == DurationBucket::Under10Seconds) <==> 1000 <= m < 10000),
        milliseconds matches Some(m) ==> ((duration_bucket_of(milliseconds)
            == DurationBucket::TenSecondsOrMore) <==> 10000 <= m),
{
}

} // verus!
