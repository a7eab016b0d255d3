use lantern::diagnostics::event::{
    DiagnosticError, DiagnosticEvent, DurationBucket, EventCode, EventOutcome, SizeBucket,
};
use lantern::diagnostics::journal::{DiagnosticJournal, JournalLimits};
use lantern::diagnostics::{DIAGNOSTIC_RECORD_LOGICAL_BYTES, MAX_EVENT_OBJECT_COUNT};
use lantern::node::{
    enqueue_event, same_opened_file, validate_lock_metadata, NodeMaintenance, ProfileLockError,
};
use lantern::queue::EnvelopeQueue;
use lantern::{
    EnqueueOutcome, Envelope, LocalRouteRecord, QueueLimits, NORMAL_PRIORITY, PROTOCOL_VERSION,
};

#[test]
fn size_buckets_cover_exact_boundaries() {
    assert_eq!(SizeBucket::from_bytes(None), SizeBucket::NotRecorded);
    assert_eq!(SizeBucket::from_bytes(Some(0)), SizeBucket::UpTo1KiB);
    assert_eq!(SizeBucket::from_bytes(Some(1024)), SizeBucket::UpTo1KiB);
    assert_eq!(SizeBucket::from_bytes(Some(1025)), SizeBucket::UpTo4KiB);
    assert_eq!(SizeBucket::from_bytes(Some(4096)), SizeBucket::UpTo4KiB);
    assert_eq!(SizeBucket::from_bytes(Some(4097)), SizeBucket::UpTo16KiB);
    assert_eq!(SizeBucket::from_bytes(Some(16_384)), SizeBucket::UpTo16KiB);
    assert_eq!(SizeBucket::from_bytes(Some(16_385)), SizeBucket::UpTo64KiB);
    assert_eq!(SizeBucket::from_bytes(Some(65_536)), SizeBucket::UpTo64KiB);
    assert_eq!(SizeBucket::from_bytes(Some(65_537)), SizeBucket::Over64KiB);
}

#[test]
fn duration_buckets_cover_exact_boundaries() {
    assert_eq!(DurationBucket::from_milliseconds(None), DurationBucket::NotRecorded);
    assert_eq!(DurationBucket::from_milliseconds(Some(9)), DurationBucket::Under10Milliseconds);
    assert_eq!(DurationBucket::from_milliseconds(Some(10)), DurationBucket::Under100Milliseconds);
    assert_eq!(DurationBucket::from_milliseconds(Some(100)), DurationBucket::Under1Second);
    assert_eq!(DurationBucket::from_milliseconds(Some(1000)), DurationBucket::Under10Seconds);
    assert_eq!(
        DurationBucket::from_milliseconds(Some(10_000)),
        DurationBucket::TenSecondsOrMore
    );
}

#[test]
fn exact_size_and_duration_are_discarded() {
    let event = DiagnosticEvent::try_new(
        EventCode::QueueSaved,
        EventOutcome::Success,
        7,
        Some(12_345),
        Some(8_765),
    );
    let Ok(event) = event else {
        panic!("valid diagnostic event was rejected");
    };
    let output = format!("{event:?}");
    assert!(!output.contains("12345"));
    assert!(!output.contains("8765"));
    assert_eq!(event.size_bucket(), SizeBucket::UpTo16KiB);
    assert_eq!(event.duration_bucket(), DurationBucket::Under10Seconds);
}

#[test]
fn object_count_is_bounded() {
    assert!(DiagnosticEvent::try_new(
        EventCode::QueueRecovered,
        EventOutcome::Success,
        MAX_EVENT_OBJECT_COUNT,
        None,
        None,
    )
    .is_ok());
    assert_eq!(
        DiagnosticEvent::try_new(
            EventCode::QueueRecovered,
            EventOutcome::Success,
            MAX_EVENT_OBJECT_COUNT + 1,
            None,
            None,
        ),
        Err(DiagnosticError::ObjectCountTooLarge)
    );
}

fn limits() -> JournalLimits {
    let result = JournalLimits::try_new(2, 2 * DIAGNOSTIC_RECORD_LOGICAL_BYTES, 60);
    let Ok(limits) = result else {
        panic!("valid public diagnostic limits were rejected");
    };
    limits
}

fn event(code: EventCode, size: Option<usize>) -> DiagnosticEvent {
    let result = DiagnosticEvent::try_new(code, EventOutcome::Success, 1, size, None);
    let Ok(event) = result else {
        panic!("valid public diagnostic event was rejected");
    };
    event
}

#[test]
fn public_api_keeps_categories_without_exact_size_or_time() {
    let mut journal = DiagnosticJournal::new(limits());
    let result = journal.record(event(EventCode::QueueSaved, Some(12_345)), 987_654_321);
    let Ok(result) = result else {
        panic!("public diagnostic event could not be recorded");
    };
    assert_eq!(result.record().size_bucket(), SizeBucket::UpTo16KiB);
    let view = journal.view(987_654_321);
    assert_eq!(view.len(), 1);
    assert_eq!(view.records().iter().next().map(|record| record.code()), Some(EventCode::QueueSaved));
    let output = format!("{result:?} {:?}", view.records());
    assert!(!output.contains("12345"));
    assert!(!output.contains("987654321"));
}

#[test]
fn public_api_bounds_capacity_and_clears_on_clock_rollback() {
    let mut journal = DiagnosticJournal::new(limits());
    assert!(journal.record(event(EventCode::NodeStarted, None), 100).is_ok());
    assert!(journal.record(event(EventCode::StorageOpened, None), 101).is_ok());
    let eviction = journal.record(event(EventCode::QueueRecovered, None), 102);
    let Ok(eviction) = eviction else {
        panic!("public quota handling failed");
    };
    assert_eq!(eviction.maintenance().evicted_records(), 1);
    assert_eq!(journal.len(), 2);

    let rollback = journal.record(event(EventCode::ClockRollbackDetected, None), 90);
    let Ok(rollback) = rollback else {
        panic!("public clock rollback handling failed");
    };
    assert_eq!(rollback.maintenance().rollback_cleared_records(), 2);
    assert_eq!(journal.len(), 1);
}

fn maintenance_envelope(number: u8) -> Envelope {
    let result = Envelope::try_from_fields(
        PROTOCOL_VERSION,
        [number; 16],
        [0x22; 16],
        60,
        4,
        NORMAL_PRIORITY,
        vec![0x33; 32],
    );
    let Ok(envelope) = result else {
        panic!("valid maintenance test Envelope was rejected");
    };
    envelope
}

fn maintenance_route(envelope: &Envelope, now: u64) -> LocalRouteRecord {
    let result = LocalRouteRecord::for_origin(envelope, now);
    let Ok(route) = result else {
        panic!("valid maintenance test route was rejected");
    };
    route
}

#[test]
fn maintenance_classifies_evicted_and_expired_entries() {
    let limits = QueueLimits::try_new(1, 64 * 1024, 4, 60);
    let Ok(limits) = limits else {
        panic!("valid maintenance queue limits were rejected");
    };
    let mut queue = EnvelopeQueue::new(limits);
    let first = maintenance_envelope(0x11);
    let first_route = maintenance_route(&first, 100);
    assert!(queue.enqueue(first, first_route, 100).is_ok());
    let second = maintenance_envelope(0x22);
    let second_route = maintenance_route(&second, 101);
    let result = queue.enqueue(second, second_route, 101);
    let Ok(result) = result else {
        panic!("valid maintenance test enqueue failed");
    };
    let mut maintenance = NodeMaintenance::default();
    maintenance.include_queue_effects(result.effects());
    assert_eq!(maintenance.evicted_entries(), 1);
    assert_eq!(maintenance.expired_entries(), 0);

    let effects = queue.expire_due(161);
    let Ok(effects) = effects else {
        panic!("maintenance test expiration failed");
    };
    maintenance.include_queue_effects(&effects);
    assert_eq!(maintenance.evicted_entries(), 1);
    assert_eq!(maintenance.expired_entries(), 1);
}

#[test]
fn maintenance_accumulates_journal_expiration_and_eviction() {
    let limits = JournalLimits::try_new(1, DIAGNOSTIC_RECORD_LOGICAL_BYTES, 60);
    let Ok(limits) = limits else {
        panic!("valid maintenance journal limits were rejected");
    };
    let event =
        DiagnosticEvent::try_new(EventCode::NodeStarted, EventOutcome::Success, 1, None, None);
    let Ok(event) = event else {
        panic!("valid maintenance diagnostic event was rejected");
    };
    let mut journal = DiagnosticJournal::new(limits);
    assert!(journal.record(event, 100).is_ok());
    let second = journal.record(event, 101);
    let Ok(second) = second else {
        panic!("second maintenance diagnostic event was rejected");
    };
    let mut maintenance = NodeMaintenance::default();
    maintenance.include_journal_maintenance(second.maintenance());
    assert_eq!(maintenance.evicted_diagnostics(), 1);

    maintenance.include_journal_maintenance(journal.maintain(161));
    assert_eq!(maintenance.expired_diagnostics(), 1);
}

#[test]
fn enqueue_outcomes_are_recorded_with_their_categories() {
    assert_eq!(
        enqueue_event(EnqueueOutcome::Stored),
        (EventCode::EnvelopeAccepted, EventOutcome::Success)
    );
    assert_eq!(
        enqueue_event(EnqueueOutcome::DuplicateTombstone),
        (EventCode::DuplicateIgnored, EventOutcome::Duplicate)
    );
    assert_eq!(
        enqueue_event(EnqueueOutcome::ItemExceedsByteQuota),
        (EventCode::EnvelopeRejected, EventOutcome::QuotaReached)
    );
}

#[test]
fn profile_lock_files_must_be_empty_private_and_single() {
    assert_eq!(validate_lock_metadata(false, true, 0, 0o100600, 1), Ok(()));
    assert_eq!(
        validate_lock_metadata(true, true, 0, 0o600, 1),
        Err(ProfileLockError::InvalidLockFile)
    );
    assert_eq!(
        validate_lock_metadata(false, true, 1, 0o600, 1),
        Err(ProfileLockError::InvalidLockFile)
    );
    assert_eq!(
        validate_lock_metadata(false, true, 0, 0o644, 1),
        Err(ProfileLockError::InvalidLockFile)
    );
    assert_eq!(
        validate_lock_metadata(false, true, 0, 0o600, 2),
        Err(ProfileLockError::InvalidLockFile)
    );
    assert_eq!(same_opened_file(1, 2, 1, 2), Ok(()));
    assert_eq!(same_opened_file(1, 2, 1, 3), Err(ProfileLockError::InvalidLockFile));
    assert_eq!(ProfileLockError::AlreadyInUse.message(), "node profile is already in use");
}

#[test]
fn sequence_numbers_count_successful_records_only() {
    let mut journal = DiagnosticJournal::new(limits());
    let Ok(first) = journal.record(event(EventCode::NodeStarted, None), 100) else {
        panic!("first record failed");
    };
    assert_eq!(first.record().sequence(), 1);
    journal.maintain(150);
    assert_eq!(journal.clear(), 1);
    assert!(matches!(
        journal.record(event(EventCode::StorageOpened, None), u64::MAX),
        Err(DiagnosticError::ArithmeticOverflow)
    ));
    journal.clear_observed(200);
    let Ok(second) = journal.record(event(EventCode::QueueSaved, None), 201) else {
        panic!("second record failed");
    };
    assert_eq!(second.record().sequence(), 2);
    assert_eq!(journal.next_sequence(), 3);
}

#[test]
fn journal_view_text_shows_counts_only() {
    let mut journal = DiagnosticJournal::new(limits());
    assert!(journal.record(event(EventCode::QueueSaved, Some(12_345)), 100).is_ok());
    let view = journal.view(100);
    assert_eq!(
        view.debug_text(),
        "JournalView { maintenance: JournalMaintenance { expired_records: 0, evicted_records: 0, rollback_cleared_records: 0, clock_rollback_detected: false }, record_count: 1, .. }"
    );
}
