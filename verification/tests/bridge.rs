use lantern::bridge::{
    after_enqueue, check_acknowledged, check_pending, BridgeError, ExportStep, OutboxExportReport,
    PendingDecision, OUTBOX_EXPORT_BATCH,
};
use lantern::{EnqueueOutcome, Envelope};

fn envelope(id: u8, payload: u8) -> Envelope {
    let Ok(envelope) = Envelope::try_from_fields(1, [id; 16], [0x22; 16], 60, 2, 0, vec![payload])
    else {
        panic!("test envelope was rejected");
    };
    envelope
}

#[test]
fn pending_entries_are_checked_against_their_identifier_and_the_queue() {
    let stored = envelope(7, 1);
    assert_eq!(check_pending(&[8; 16], &stored, None), Err(BridgeError::OutboxIdentifierMismatch));
    assert_eq!(check_pending(&[7; 16], &stored, None), Ok(PendingDecision::Enqueue));
    let same = envelope(7, 1);
    assert_eq!(check_pending(&[7; 16], &stored, Some(&same)), Ok(PendingDecision::AlreadyQueued));
    let other = envelope(7, 2);
    assert_eq!(check_pending(&[7; 16], &stored, Some(&other)), Err(BridgeError::QueueConflict));
}

#[test]
fn enqueue_outcomes_decide_the_export_step() {
    let stored = envelope(7, 1);
    let other = envelope(7, 2);
    assert_eq!(after_enqueue(EnqueueOutcome::Stored, &stored, None), Ok(ExportStep::Inserted));
    assert_eq!(
        after_enqueue(EnqueueOutcome::DuplicateActive, &stored, Some(&stored)),
        Ok(ExportStep::Acknowledged)
    );
    assert_eq!(
        after_enqueue(EnqueueOutcome::DuplicateActive, &stored, Some(&other)),
        Err(BridgeError::QueueConflict)
    );
    assert_eq!(after_enqueue(EnqueueOutcome::Expired, &stored, None), Ok(ExportStep::Deferred));
    assert_eq!(check_acknowledged(false), Err(BridgeError::OutboxAcknowledgementLost));
    assert_eq!(check_acknowledged(true), Ok(()));
}

#[test]
fn export_report_counts_one_bounded_pass() {
    let mut report = OutboxExportReport::default();
    report.record(ExportStep::Inserted);
    report.record(ExportStep::Acknowledged);
    assert!(report.wants_more());
    report.record(ExportStep::Deferred);
    assert_eq!(report.examined(), 3);
    assert_eq!(report.inserted(), 1);
    assert_eq!(report.acknowledged(), 2);
    assert!(report.deferred());
    assert!(!report.wants_more());

    let mut full = OutboxExportReport::default();
    for _ in 0..OUTBOX_EXPORT_BATCH {
        full.record(ExportStep::Acknowledged);
    }
    assert!(!full.wants_more());
}
