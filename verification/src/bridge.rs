//! The decisions of handing pending outbox entries to the node queue: when
//! an entry is acknowledged, when it is enqueued, when the export stops, and
//! the report of one export pass.
use vstd::prelude::*;

use crate::codec::{cbor_error_text, CborError};
use crate::crypto::{crypto_error_text, CryptoError};
use crate::envelope::{bytes16_equal, Envelope, EnvelopeView};
use crate::queue::EnqueueOutcome;
use crate::secret_storage::{secret_storage_error_text, SecretStorageError};

verus! {

/// Most pending entries examined in one export pass.
pub const OUTBOX_EXPORT_BATCH: usize = 32;

/// Safe error of the hand-off between storage and the queue.
#[derive(Clone, Copy, Debug, PartialEq, Eq)]
pub enum BridgeError {
    Cbor(CborError),
    Crypto(CryptoError),
    SecretStorage(SecretStorageError),
    OutboxIdentifierMismatch,
    QueueConflict,
    OutboxAcknowledgementLost,
}

/// The description of a hand-off failure, with the description of the
/// failure it wraps.
pub open spec fn bridge_error_text(error: BridgeError) -> Seq<char> {
    match error {
        BridgeError::Cbor(e) => "stored Envelope is invalid: "@ + cbor_error_text(e),
        BridgeError::Crypto(e) => "cryptographic processing failed: "@ + crypto_error_text(e),
        BridgeError::SecretStorage(e) => "secret storage operation failed: "@
            + secret_storage_error_text(e),
        BridgeError::OutboxIdentifierMismatch => "outbox identifier does not match its Envelope"@,
        BridgeError::QueueConflict => "queue contains a different Envelope with the same identifier"@,
        BridgeError::OutboxAcknowledgementLost => "exported outbox item could not be acknowledged"@,
    }
}

impl BridgeError {
    /// Human-readable description, as `bridge_error_text` gives it.
    pub fn message(&self) -> (text: String)
        ensures
            text@ == bridge_error_text(*self),
    {
        match self {
            BridgeError::Cbor(e) => String::from_str("stored Envelope is invalid: ").concat(
                e.message().as_str(),
            ),
            BridgeError::Crypto(e) => String::from_str("cryptographic processing failed: ").concat(
                e.message(),
            ),
            BridgeError::SecretStorage(e) => String::from_str(
                "secret storage operation failed: ",
            ).concat(e.message()),
            BridgeError::OutboxIdentifierMismatch => String::from_str(
                "outbox identifier does not match its Envelope",
            ),
            BridgeError::QueueConflict => String::from_str(
                "queue contains a different Envelope with the same identifier",
            ),
            BridgeError::OutboxAcknowledgementLost => String::from_str(
                "exported outbox item could not be acknowledged",
            ),
        }
    }
}

/// Model of an export report.
pub struct ExportView {
    pub examined: int,
    pub inserted: int,
    pub acknowledged: int,
    pub deferred: bool,
}

/// What one export pass did.
#[derive(Clone, Copy, Debug, PartialEq, Eq, Structural)]
pub struct OutboxExportReport {
    examined: usize,
    inserted: usize,
    acknowledged: usize,
    deferred: bool,
}

impl View for OutboxExportReport {
    type V = ExportView;

    closed spec fn view(&self) -> ExportView {
        ExportView {
            examined: self.examined as int,
            inserted: self.inserted as int,
            acknowledged: self.acknowledged as int,
            deferred: self.deferred,
        }
    }
}

/// A report never counts more insertions than acknowledgements, nor more
/// entries than one batch, and every examined entry was acknowledged but the
/// one deferred entry that ended the pass.
pub open spec fn report_consistent(r: ExportView) -> bool {
    &&& 0 <= r.inserted <= r.acknowledged <= r.examined <= OUTBOX_EXPORT_BATCH
    &&& r.examined == r.acknowledged + if r.deferred {
        1int
    } else {
        0int
    }
}

/// What became of one examined entry.
#[derive(Clone, Copy, Debug, PartialEq, Eq, Structural)]
pub enum ExportStep {
    /// The queue already held it; the outbox entry was acknowledged.
    Acknowledged,
    /// It was stored in the queue and acknowledged.
    Inserted,
    /// The queue would not take it now; the pass stops.
    Deferred,
}

impl Default for OutboxExportReport {
    fn default() -> (report: Self)
        ensures
            report@ == (ExportView { examined: 0, inserted: 0, acknowledged: 0, deferred: false }),
    {
        OutboxExportReport { examined: 0, inserted: 0, acknowledged: 0, deferred: false }
    }
}

impl OutboxExportReport {
    pub fn examined(self) -> (value: usize)
        ensures
            value == self@.examined,
    {
        self.examined
    }

    pub fn inserted(self) -> (value: usize)
        ensures
            value == self@.inserted,
    {
        self.inserted
    }

    pub fn acknowledged(self) -> (value: usize)
        ensures
            value == self@.acknowledged,
    {
        self.acknowledged
    }

    pub fn deferred(self) -> (value: bool)
        ensures
            value == self@.deferred,
    {
        self.deferred
    }

    /// Whether the pass may examine another entry: fewer than a batch so far
    /// and nothing deferred.
    pub fn wants_more(self) -> (more: bool)
        ensures
            more == (self@.examined < OUTBOX_EXPORT_BATCH && !self@.deferred),
    {
        self.examined < OUTBOX_EXPORT_BATCH && !self.deferred
    }

    /// Counts one examined entry and what became of it; only while the pass
    /// wants more.
    pub fn record(&mut self, step: ExportStep)
        requires
            report_consistent(old(self)@),
            old(self)@.examined < OUTBOX_EXPORT_BATCH,
            !old(self)@.deferred,
        ensures
            report_consistent(final(self)@),
            final(self)@.examined == old(self)@.examined + 1,
            final(self)@.inserted == old(self)@.inserted + if step == ExportStep::Inserted {
                1int
            } else {
                0int
            },
            final(self)@.acknowledged == old(self)@.acknowledged + if step == ExportStep::Deferred {
                0int
            } else {
                1int
            },
            final(self)@.deferred == (old(self)@.deferred || step == ExportStep::Deferred),
    {
        self.examined = self.examined + 1;
        match step {
            ExportStep::Acknowledged => {
                self.acknowledged = self.acknowledged + 1;
            },
            ExportStep::Inserted => {
                self.inserted = self.inserted + 1;
                self.acknowledged = self.acknowledged + 1;
            },
            ExportStep::Deferred => {
                self.deferred = true;
            },
        }
    }
}

/// Equality of two Envelopes, field by field.
pub fn envelopes_equal(a: &Envelope, b: &Envelope) -> (same: bool)
    ensures
        same == (a@ == b@),
{
    let same = bytes16_equal(a.message_id().as_bytes(), b.message_id().as_bytes())
        && bytes16_equal(a.recipient_hint().as_bytes(), b.recipient_hint().as_bytes())
        && a.ttl_seconds().get() == b.ttl_seconds().get() && a.max_hops().get()
        == b.max_hops().get() && crate::cbor::slices_equal(
        a.protected_payload().as_bytes(),
        b.protected_payload().as_bytes(),
    );
    proof {
        if same {
            assert(a@ =~= b@);
        }
    }
    same
}

/// What to do with a pending entry before enqueueing it.
#[derive(Clone, Copy, Debug, PartialEq, Eq, Structural)]
pub enum PendingDecision {
    /// The queue already holds this very Envelope: acknowledge it.
    AlreadyQueued,
    /// The queue does not hold it: enqueue it.
    Enqueue,
}

/// Checks a decoded pending Envelope against its stored identifier and
/// against what the queue holds under that identifier. A different
/// identifier or a different queued Envelope is an error.
pub fn check_pending(
    pending_message_id: &[u8; 16],
    envelope: &Envelope,
    queued: Option<&Envelope>,
) -> (result: Result<PendingDecision, BridgeError>)
    ensures
        envelope@.message_id != pending_message_id@ ==> result == Err::<PendingDecision, BridgeError>(
            BridgeError::OutboxIdentifierMismatch,
        ),
        envelope@.message_id == pending_message_id@ ==> match queued {
            None => result == Ok::<PendingDecision, BridgeError>(PendingDecision::Enqueue),
            Some(q) => if q@ == envelope@ {
                result == Ok::<PendingDecision, BridgeError>(PendingDecision::AlreadyQueued)
            } else {
                result == Err::<PendingDecision, BridgeError>(BridgeError::QueueConflict)
            },
        },
{
    if !bytes16_equal(envelope.message_id().as_bytes(), pending_message_id) {
        return Err(BridgeError::OutboxIdentifierMismatch);
    }
    match queued {
        None => Ok(PendingDecision::Enqueue),
        Some(q) => {
            if envelopes_equal(q, envelope) {
                Ok(PendingDecision::AlreadyQueued)
            } else {
                Err(BridgeError::QueueConflict)
            }
        },
    }
}

/// What an enqueue outcome means for the pending entry: stored is inserted;
/// an active duplicate is acknowledged only when the queue holds this very
/// Envelope; a tombstone, expiry or quota defers the pass.
pub fn after_enqueue(
    outcome: EnqueueOutcome,
    envelope: &Envelope,
    queued_after: Option<&Envelope>,
) -> (result: Result<ExportStep, BridgeError>)
    ensures
        outcome == EnqueueOutcome::Stored ==> result == Ok::<ExportStep, BridgeError>(
            ExportStep::Inserted,
        ),
        outcome == EnqueueOutcome::DuplicateActive ==> match queued_after {
            Some(q) => if q@ == envelope@ {
                result == Ok::<ExportStep, BridgeError>(ExportStep::Acknowledged)
            } else {
                result == Err::<ExportStep, BridgeError>(BridgeError::QueueConflict)
            },
            None => result == Err::<ExportStep, BridgeError>(BridgeError::QueueConflict),
        },
        (outcome == EnqueueOutcome::DuplicateTombstone || outcome == EnqueueOutcome::Expired
            || outcome == EnqueueOutcome::ItemExceedsByteQuota) ==> result == Ok::<
            ExportStep,
            BridgeError,
        >(ExportStep::Deferred),
{
    match outcome {
        EnqueueOutcome::Stored => Ok(ExportStep::Inserted),
        EnqueueOutcome::DuplicateActive => match queued_after {
            Some(q) => {
                if envelopes_equal(q, envelope) {
                    Ok(ExportStep::Acknowledged)
                } else {
                    Err(BridgeError::QueueConflict)
                }
            },
            None => Err(BridgeError::QueueConflict),
        },
        _ => Ok(ExportStep::Deferred),
    }
}

/// An acknowledgement that removed nothing means the entry was lost.
pub fn check_acknowledged(removed: bool) -> (result: Result<(), BridgeError>)
    ensures
        removed ==> result is Ok,
        !removed ==> result == Err::<(), BridgeError>(BridgeError::OutboxAcknowledgementLost),
{
    if removed {
        Ok(())
    } else {
        Err(BridgeError::OutboxAcknowledgementLost)
    }
}

} // verus!
