//! Bounded in-memory Envelope queue with active and tombstone deduplication.
//!
//! Active entries are kept in FIFO order: ascending first-seen time, ties
//! broken by ascending message identifier. Tombstones remember recently removed
//! identifiers so that a removed Envelope cannot return before its tombstone
//! expires.
use vstd::prelude::*;

use crate::codec::{cbor_error_text, encoded_envelope_size, spec_encode_envelope, CborError};
use crate::envelope::{
    lemma_lex_irreflexive, lemma_lex_total, lemma_lex_transitive, seq_lex_lt, Envelope,
    EnvelopeView, MessageId,
};
use crate::id_order::{ascending_positions, order_by_id};
use crate::queue_laws::{
    lemma_enqueue_keeps_apart, lemma_expire_keeps, lemma_purge_keeps_apart,
    lemma_remove_opened_keeps_apart,
};
use crate::route::{ContainerState, LocalRouteRecord, RouteView};
use crate::{
    MAX_QUEUE_BYTES, MAX_QUEUE_ENTRIES, MAX_TOMBSTONES, MAX_TOMBSTONE_RETENTION_SECONDS,
    MIN_TTL_SECONDS,
};

verus! {

broadcast use crate::envelope::lemma_message_id_len;

/// Queue setting associated with a configuration or arithmetic failure.
#[derive(Clone, Copy, Debug, PartialEq, Eq, Structural)]
pub enum QueueField {
    MaxEntries,
    MaxBytes,
    MaxTombstones,
    TombstoneRetention,
    TombstoneDeadline,
    StoredBytes,
}

impl QueueField {
    /// The setting's name as `Debug` writes it.
    pub open spec fn spec_name(self) -> Seq<char> {
        match self {
            QueueField::MaxEntries => "MaxEntries"@,
            QueueField::MaxBytes => "MaxBytes"@,
            QueueField::MaxTombstones => "MaxTombstones"@,
            QueueField::TombstoneRetention => "TombstoneRetention"@,
            QueueField::TombstoneDeadline => "TombstoneDeadline"@,
            QueueField::StoredBytes => "StoredBytes"@,
        }
    }

    /// The setting's name as `Debug` writes it.
    pub fn name(&self) -> (name: &'static str)
        ensures
            name@ == self.spec_name(),
    {
        match self {
            QueueField::MaxEntries => "MaxEntries",
            QueueField::MaxBytes => "MaxBytes",
            QueueField::MaxTombstones => "MaxTombstones",
            QueueField::TombstoneRetention => "TombstoneRetention",
            QueueField::TombstoneDeadline => "TombstoneDeadline",
            QueueField::StoredBytes => "StoredBytes",
        }
    }
}

/// The description of a queue failure.
pub open spec fn queue_error_text(error: QueueError) -> Seq<char> {
    match error {
        QueueError::InvalidLimit { field } => "invalid queue limit for "@ + field.spec_name(),
        QueueError::RouteMessageIdMismatch => "route record does not match Envelope"@,
        QueueError::RouteNotStored => "route record is not in stored state"@,
        QueueError::ArithmeticOverflow { field } => "queue arithmetic overflow for "@
            + field.spec_name(),
        QueueError::EnvelopeEncoding(e) => "could not measure encoded Envelope: "@ + cbor_error_text(
            e,
        ),
        QueueError::InvariantViolation => "queue invariant violation"@,
    }
}

/// Safe queue error category that never contains an identifier or payload.
#[derive(Clone, Copy, Debug, PartialEq, Eq, Structural)]
pub enum QueueError {
    InvalidLimit { field: QueueField },
    RouteMessageIdMismatch,
    RouteNotStored,
    ArithmeticOverflow { field: QueueField },
    EnvelopeEncoding(CborError),
    InvariantViolation,
}

impl QueueError {
    /// Wraps an encoding failure of the Envelope being measured.
    pub fn from_cbor(error: CborError) -> (wrapped: Self)
        ensures
            wrapped == QueueError::EnvelopeEncoding(error),
    {
        QueueError::EnvelopeEncoding(error)
    }

    /// Human-readable description, as `queue_error_text` gives it; it never
    /// holds an identifier or payload.
    pub fn message(&self) -> (text: String)
        ensures
            text@ == queue_error_text(*self),
    {
        match self {
            QueueError::InvalidLimit { field } => String::from_str("invalid queue limit for ").concat(
                field.name(),
            ),
            QueueError::RouteMessageIdMismatch => String::from_str(
                "route record does not match Envelope",
            ),
            QueueError::RouteNotStored => String::from_str("route record is not in stored state"),
            QueueError::ArithmeticOverflow { field } => String::from_str(
                "queue arithmetic overflow for ",
            ).concat(field.name()),
            QueueError::EnvelopeEncoding(e) => String::from_str(
                "could not measure encoded Envelope: ",
            ).concat(e.message().as_str()),
            QueueError::InvariantViolation => String::from_str("queue invariant violation"),
        }
    }
}

/// Model of the queue limits.
pub struct LimitsView {
    pub max_entries: int,
    pub max_bytes: int,
    pub max_tombstones: int,
    pub retention: int,
}

/// Every limit is positive and below its hard maximum; tombstones live at least
/// as long as the shortest Envelope lifetime.
pub open spec fn limits_valid(l: LimitsView) -> bool {
    &&& 1 <= l.max_entries <= MAX_QUEUE_ENTRIES
    &&& 1 <= l.max_bytes <= MAX_QUEUE_BYTES
    &&& 1 <= l.max_tombstones <= MAX_TOMBSTONES
    &&& MIN_TTL_SECONDS <= l.retention <= MAX_TOMBSTONE_RETENTION_SECONDS
}

/// The error `QueueLimits::try_new` reports for the given settings, checked in
/// the order entries, bytes, tombstones, retention; `None` when all are valid.
pub open spec fn limits_error(
    max_entries: int,
    max_bytes: int,
    max_tombstones: int,
    retention: int,
) -> Option<QueueError> {
    if max_entries == 0 || max_entries > MAX_QUEUE_ENTRIES {
        Some(QueueError::InvalidLimit { field: QueueField::MaxEntries })
    } else if max_bytes == 0 || max_bytes > MAX_QUEUE_BYTES {
        Some(QueueError::InvalidLimit { field: QueueField::MaxBytes })
    } else if max_tombstones == 0 || max_tombstones > MAX_TOMBSTONES {
        Some(QueueError::InvalidLimit { field: QueueField::MaxTombstones })
    } else if retention < MIN_TTL_SECONDS || retention > MAX_TOMBSTONE_RETENTION_SECONDS {
        Some(QueueError::InvalidLimit { field: QueueField::TombstoneRetention })
    } else {
        None
    }
}

/// Queue limits are accepted exactly when they are valid: at least one and
/// at most 4096 entries, 64 MiB and 16384 tombstones, and a tombstone
/// retention of one minute to seven days; the first setting out of range, in
/// the order entries, bytes, tombstones, retention, is the one reported.
pub proof fn law_queue_limits(max_entries: int, max_bytes: int, max_tombstones: int, retention: int)
    requires
        max_entries >= 0,
        max_bytes >= 0,
        max_tombstones >= 0,
    ensures
        limits_error(max_entries, max_bytes, max_tombstones, retention) is None <==> limits_valid(
            LimitsView { max_entries, max_bytes, max_tombstones, retention },
        ),
        limits_valid(LimitsView { max_entries, max_bytes, max_tombstones, retention }) <==> (1
            <= max_entries <= 4096 && 1 <= max_bytes <= 67108864 && 1 <= max_tombstones <= 16384
            && 60 <= retention <= 604800),
        !(1 <= max_entries <= 4096) ==> limits_error(max_entries, max_bytes, max_tombstones, retention)
            == Some(QueueError::InvalidLimit { field: QueueField::MaxEntries }),
        1 <= max_entries <= 4096 && !(1 <= max_bytes <= 67108864) ==> limits_error(
            max_entries,
            max_bytes,
            max_tombstones,
            retention,
        ) == Some(QueueError::InvalidLimit { field: QueueField::MaxBytes }),
        1 <= max_entries <= 4096 && 1 <= max_bytes <= 67108864 && !(1 <= max_tombstones <= 16384)
            ==> limits_error(max_entries, max_bytes, max_tombstones, retention) == Some(
            QueueError::InvalidLimit { field: QueueField::MaxTombstones },
        ),
{
}

/// Hard upper limits for one in-memory Envelope queue.
#[derive(Copy, Debug, PartialEq, Eq)]
pub struct QueueLimits {
    max_entries: usize,
    max_bytes: usize,
    max_tombstones: usize,
    tombstone_retention_seconds: u64,
}

impl View for QueueLimits {
    type V = LimitsView;

    closed spec fn view(&self) -> LimitsView {
        LimitsView {
            max_entries: self.max_entries as int,
            max_bytes: self.max_bytes as int,
            max_tombstones: self.max_tombstones as int,
            retention: self.tombstone_retention_seconds as int,
        }
    }
}

impl Clone for QueueLimits {
    fn clone(&self) -> (copy: Self)
        ensures
            copy@ == self@,
    {
        *self
    }
}

impl Default for QueueLimits {
    fn default() -> (limits: Self)
        ensures
            limits@ == (LimitsView {
                max_entries: MAX_QUEUE_ENTRIES as int,
                max_bytes: MAX_QUEUE_BYTES as int,
                max_tombstones: MAX_TOMBSTONES as int,
                retention: MAX_TOMBSTONE_RETENTION_SECONDS as int,
            }),
    {
        QueueLimits {
            max_entries: MAX_QUEUE_ENTRIES,
            max_bytes: MAX_QUEUE_BYTES,
            max_tombstones: MAX_TOMBSTONES,
            tombstone_retention_seconds: MAX_TOMBSTONE_RETENTION_SECONDS,
        }
    }
}

fn validate_limit(value: usize, maximum: usize, field: QueueField) -> (result: Result<(), QueueError>)
    ensures
        (value == 0 || value > maximum) ==> result == Err::<(), QueueError>(
            QueueError::InvalidLimit { field },
        ),
        !(value == 0 || value > maximum) ==> result is Ok,
{
    if value == 0 || value > maximum {
        return Err(QueueError::InvalidLimit { field });
    }
    Ok(())
}

impl QueueLimits {
    #[verifier::type_invariant]
    spec fn within_bounds(self) -> bool {
        limits_valid(self@)
    }

    /// The model of every limits value is valid (a check with no run-time work).
    pub(crate) fn establish_valid(&self)
        ensures
            limits_valid(self@),
    {
        proof {
            use_type_invariant(self);
        }
    }

    pub fn try_new(
        max_entries: usize,
        max_bytes: usize,
        max_tombstones: usize,
        tombstone_retention_seconds: u64,
    ) -> (result: Result<Self, QueueError>)
        ensures
            match limits_error(
                max_entries as int,
                max_bytes as int,
                max_tombstones as int,
                tombstone_retention_seconds as int,
            ) {
                Some(e) => result == Err::<QueueLimits, QueueError>(e),
                None => result matches Ok(l) && l@ == (LimitsView {
                    max_entries: max_entries as int,
                    max_bytes: max_bytes as int,
                    max_tombstones: max_tombstones as int,
                    retention: tombstone_retention_seconds as int,
                }),
            },
    {
        validate_limit(max_entries, MAX_QUEUE_ENTRIES, QueueField::MaxEntries)?;
        validate_limit(max_bytes, MAX_QUEUE_BYTES, QueueField::MaxBytes)?;
        validate_limit(max_tombstones, MAX_TOMBSTONES, QueueField::MaxTombstones)?;
        if tombstone_retention_seconds < MIN_TTL_SECONDS
            || tombstone_retention_seconds > MAX_TOMBSTONE_RETENTION_SECONDS
        {
            return Err(QueueError::InvalidLimit { field: QueueField::TombstoneRetention });
        }
        Ok(QueueLimits { max_entries, max_bytes, max_tombstones, tombstone_retention_seconds })
    }

    pub fn max_entries(self) -> (value: usize)
        ensures
            value == self@.max_entries,
    {
        self.max_entries
    }

    pub fn max_bytes(self) -> (value: usize)
        ensures
            value == self@.max_bytes,
    {
        self.max_bytes
    }

    pub fn max_tombstones(self) -> (value: usize)
        ensures
            value == self@.max_tombstones,
    {
        self.max_tombstones
    }

    pub fn tombstone_retention_seconds(self) -> (value: u64)
        ensures
            value == self@.retention,
    {
        self.tombstone_retention_seconds
    }
}

/// Model of one queued Envelope with its route metadata.
pub struct EntryView {
    pub envelope: EnvelopeView,
    pub route: RouteView,
    pub encoded_size: int,
}

/// One immutable Envelope and its mutable local route metadata.
#[derive(PartialEq, Eq)]
pub struct QueueEntry {
    envelope: Envelope,
    route: LocalRouteRecord,
    encoded_size: usize,
}

impl View for QueueEntry {
    type V = EntryView;

    closed spec fn view(&self) -> EntryView {
        EntryView {
            envelope: self.envelope@,
            route: self.route@,
            encoded_size: self.encoded_size as int,
        }
    }
}

impl Clone for QueueEntry {
    fn clone(&self) -> (copy: Self)
        ensures
            copy@ == self@,
    {
        QueueEntry {
            envelope: self.envelope.clone(),
            route: self.route,
            encoded_size: self.encoded_size,
        }
    }
}

/// The entry that `QueueEntry::try_new` builds: route and Envelope joined, with
/// the size of the Envelope's deterministic encoding.
pub open spec fn entry_of(envelope: EnvelopeView, route: RouteView) -> EntryView {
    EntryView { envelope, route, encoded_size: spec_encode_envelope(envelope).len() as int }
}

/// The same entry with its route moved to `state`.
pub open spec fn entry_with_state(e: EntryView, state: ContainerState) -> EntryView {
    EntryView { route: RouteView { state, ..e.route }, ..e }
}

impl QueueEntry {
    fn try_new(envelope: Envelope, route: LocalRouteRecord) -> (result: Result<Self, QueueError>)
        ensures
            envelope@.message_id != route@.message_id ==> result == Err::<QueueEntry, QueueError>(
                QueueError::RouteMessageIdMismatch,
            ),
            envelope@.message_id == route@.message_id && route@.state != ContainerState::Stored
                ==> result == Err::<QueueEntry, QueueError>(QueueError::RouteNotStored),
            envelope@.message_id == route@.message_id && route@.state == ContainerState::Stored
                ==> (result matches Ok(e) && e@ == entry_of(envelope@, route@)),
            result is Ok ==> envelope@.valid(),
    {
        envelope.establish_valid();
        if !envelope.message_id().same_as(&route.message_id()) {
            return Err(QueueError::RouteMessageIdMismatch);
        }
        if route.state() != ContainerState::Stored {
            return Err(QueueError::RouteNotStored);
        }
        let encoded_size = encoded_envelope_size(&envelope);
        Ok(QueueEntry { envelope, route, encoded_size })
    }

    fn transition_to(&mut self, state: ContainerState) -> (result: Result<(), QueueError>)
        requires
            old(self)@.route.state == ContainerState::Stored,
            state == ContainerState::Opened || state == ContainerState::Expired || state
                == ContainerState::Evicted,
        ensures
            result is Ok,
            final(self)@ == entry_with_state(old(self)@, state),
    {
        match self.route.transition_to(state) {
            Ok(()) => Ok(()),
            Err(_) => Err(QueueError::InvariantViolation),
        }
    }

    pub fn envelope(&self) -> (envelope: &Envelope)
        ensures
            envelope@ == self@.envelope,
    {
        &self.envelope
    }

    pub fn route(&self) -> (route: &LocalRouteRecord)
        ensures
            route@ == self@.route,
    {
        &self.route
    }

    pub fn encoded_size(&self) -> (size: usize)
        ensures
            size == self@.encoded_size,
    {
        self.encoded_size
    }
}

/// Model of one tombstone.
pub struct TombstoneView {
    pub message_id: Seq<u8>,
    pub recorded_at: int,
    pub expires_at: int,
}

/// Bounded record that prevents a recently removed identifier from returning.
#[derive(Clone, Copy, PartialEq, Eq)]
pub struct TombstoneEntry {
    message_id: MessageId,
    recorded_at: u64,
    expires_at: u64,
}

impl View for TombstoneEntry {
    type V = TombstoneView;

    closed spec fn view(&self) -> TombstoneView {
        TombstoneView {
            message_id: self.message_id@,
            recorded_at: self.recorded_at as int,
            expires_at: self.expires_at as int,
        }
    }
}

impl TombstoneEntry {
    pub fn message_id(self) -> (id: MessageId)
        ensures
            id@ == self@.message_id,
    {
        self.message_id
    }

    pub fn recorded_at(self) -> (value: u64)
        ensures
            value == self@.recorded_at,
    {
        self.recorded_at
    }

    pub fn expires_at(self) -> (value: u64)
        ensures
            value == self@.expires_at,
    {
        self.expires_at
    }

    /// A tombstone blocks its identifier strictly before its expiry time.
    pub fn is_active_at(self, at: u64) -> (active: bool)
        ensures
            active == (at < self@.expires_at),
    {
        at < self.expires_at
    }

    /// Readable form that shows the identifier only in redacted form and hides all timing.
    pub fn redacted_debug(&self) -> (text: &'static str)
        ensures
            text@ == "TombstoneEntry { message_id: MessageId { length: 16, .. }, timing: \"redacted\" }"@,
    {
        "TombstoneEntry { message_id: MessageId { length: 16, .. }, timing: \"redacted\" }"
    }
}

/// Result of checking one identifier against active and removed entries.
#[derive(Clone, Copy, Debug, PartialEq, Eq, Structural)]
pub enum DeduplicationStatus {
    Unknown,
    Active,
    Tombstone,
}

/// Result of attempting to add one Envelope.
#[derive(Clone, Copy, Debug, PartialEq, Eq, Structural)]
pub enum EnqueueOutcome {
    Stored,
    DuplicateActive,
    DuplicateTombstone,
    Expired,
    ItemExceedsByteQuota,
}

/// Model of the side effects of one queue operation.
pub struct EffectsView {
    pub removed: Seq<EntryView>,
    pub expired: Seq<TombstoneView>,
    pub evicted: Seq<TombstoneView>,
}

/// Bounded side effects produced by one queue operation.
#[derive(PartialEq, Eq)]
pub struct QueueEffects {
    removed_entries: Vec<QueueEntry>,
    expired_tombstones: Vec<TombstoneEntry>,
    evicted_tombstones: Vec<TombstoneEntry>,
}

/// Views of a sequence of entries.
pub open spec fn entry_views(s: Seq<QueueEntry>) -> Seq<EntryView> {
    s.map_values(|e: QueueEntry| e@)
}

/// Views of a sequence of tombstones.
pub open spec fn tombstone_views(s: Seq<TombstoneEntry>) -> Seq<TombstoneView> {
    s.map_values(|t: TombstoneEntry| t@)
}

impl View for QueueEffects {
    type V = EffectsView;

    closed spec fn view(&self) -> EffectsView {
        EffectsView {
            removed: entry_views(self.removed_entries@),
            expired: tombstone_views(self.expired_tombstones@),
            evicted: tombstone_views(self.evicted_tombstones@),
        }
    }
}

impl QueueEffects {
    /// Effects of an operation that changed nothing.
    pub fn new() -> (effects: Self)
        ensures
            effects@.removed.len() == 0,
            effects@.expired.len() == 0,
            effects@.evicted.len() == 0,
    {
        QueueEffects {
            removed_entries: Vec::new(),
            expired_tombstones: Vec::new(),
            evicted_tombstones: Vec::new(),
        }
    }

    pub fn removed_entries(&self) -> (entries: &[QueueEntry])
        ensures
            entry_views(entries@) == self@.removed,
    {
        self.removed_entries.as_slice()
    }

    pub fn expired_tombstones(&self) -> (tombstones: &[TombstoneEntry])
        ensures
            tombstone_views(tombstones@) == self@.expired,
    {
        self.expired_tombstones.as_slice()
    }

    pub fn evicted_tombstones(&self) -> (tombstones: &[TombstoneEntry])
        ensures
            tombstone_views(tombstones@) == self@.evicted,
    {
        self.evicted_tombstones.as_slice()
    }

    pub fn is_empty(&self) -> (empty: bool)
        ensures
            empty == (self@.removed.len() == 0 && self@.expired.len() == 0 && self@.evicted.len()
                == 0),
    {
        self.removed_entries.is_empty() && self.expired_tombstones.is_empty()
            && self.evicted_tombstones.is_empty()
    }
}

/// Full result of an enqueue operation, including maintenance effects.
#[derive(PartialEq, Eq)]
pub struct EnqueueResult {
    outcome: EnqueueOutcome,
    effects: QueueEffects,
}

impl EnqueueResult {
    pub fn outcome(&self) -> (outcome: EnqueueOutcome)
        ensures
            outcome == self.spec_outcome(),
    {
        self.outcome
    }

    pub fn effects(&self) -> (effects: &QueueEffects)
        ensures
            effects@ == self.spec_effects()@,
    {
        &self.effects
    }

    pub closed spec fn spec_outcome(&self) -> EnqueueOutcome {
        self.outcome
    }

    pub closed spec fn spec_effects(&self) -> QueueEffects {
        self.effects
    }
}

/// Model of a queue: its limits, active entries in FIFO order, the total
/// encoded size of the active entries, and its tombstones.
pub struct QueueView {
    pub limits: LimitsView,
    pub entries: Seq<EntryView>,
    pub stored_bytes: int,
    pub tombstones: Seq<TombstoneView>,
}

/// Order on (time, identifier) keys: earlier time first, ties broken by the
/// lexicographic order of identifiers.
pub open spec fn key_lt(t1: int, id1: Seq<u8>, t2: int, id2: Seq<u8>) -> bool {
    ||| t1 < t2
    ||| t1 == t2 && seq_lex_lt(id1, id2)
}

/// The key order is transitive.
pub proof fn lemma_key_transitive(
    t1: int,
    id1: Seq<u8>,
    t2: int,
    id2: Seq<u8>,
    t3: int,
    id3: Seq<u8>,
)
    requires
        key_lt(t1, id1, t2, id2),
        key_lt(t2, id2, t3, id3),
    ensures
        key_lt(t1, id1, t3, id3),
{
    if t1 == t2 && t2 == t3 {
        lemma_lex_transitive(id1, id2, id3);
    }
}

/// The key order is asymmetric.
pub proof fn lemma_key_asymmetric(t1: int, id1: Seq<u8>, t2: int, id2: Seq<u8>)
    requires
        key_lt(t1, id1, t2, id2),
    ensures
        !key_lt(t2, id2, t1, id1),
{
    if t1 == t2 && seq_lex_lt(id2, id1) {
        lemma_lex_transitive(id1, id2, id1);
        lemma_lex_irreflexive(id1);
    }
}

/// Two keys with distinct identifiers of one length are ordered one way or the other.
pub proof fn lemma_key_total(t1: int, id1: Seq<u8>, t2: int, id2: Seq<u8>)
    requires
        id1.len() == id2.len(),
        id1 != id2,
    ensures
        key_lt(t1, id1, t2, id2) || key_lt(t2, id2, t1, id1),
{
    lemma_lex_total(id1, id2);
}

/// FIFO order: earlier first-seen time first, ties broken by identifier.
pub open spec fn fifo_lt(a: EntryView, b: EntryView) -> bool {
    key_lt(
        a.route.first_seen_at,
        a.envelope.message_id,
        b.route.first_seen_at,
        b.envelope.message_id,
    )
}

/// Total encoded size of a sequence of entries.
pub open spec fn total_size(es: Seq<EntryView>) -> int
    decreases es.len(),
{
    if es.len() == 0 {
        0
    } else {
        total_size(es.drop_last()) + es.last().encoded_size
    }
}

/// A stored entry: valid Envelope, matching route in the stored state, and the
/// size of its deterministic encoding.
pub open spec fn entry_ok(e: EntryView) -> bool {
    &&& e.envelope.valid()
    &&& e.route.message_id == e.envelope.message_id
    &&& e.route.state == ContainerState::Stored
    &&& e.encoded_size == spec_encode_envelope(e.envelope).len()
}

pub open spec fn fifo_sorted(es: Seq<EntryView>) -> bool {
    forall|i: int, j: int| 0 <= i < j < es.len() ==> #[trigger] fifo_lt(es[i], es[j])
}

pub open spec fn entry_ids_unique(es: Seq<EntryView>) -> bool {
    forall|i: int, j: int|
        0 <= i < es.len() && 0 <= j < es.len() && i != j ==> es[i].envelope.message_id
            != es[j].envelope.message_id
}

pub open spec fn tomb_ids_unique(ts: Seq<TombstoneView>) -> bool {
    forall|i: int, j: int|
        0 <= i < ts.len() && 0 <= j < ts.len() && i != j ==> ts[i].message_id != ts[j].message_id
}

/// Identifiers of a sequence of entries.
pub open spec fn entry_ids(es: Seq<EntryView>) -> Seq<Seq<u8>> {
    es.map_values(|e: EntryView| e.envelope.message_id)
}

/// The queue invariant: within its limits, sizes accounted exactly, entries
/// stored, in strict FIFO order, and no identifier held twice.
pub open spec fn queue_wf(q: QueueView) -> bool {
    &&& limits_valid(q.limits)
    &&& q.entries.len() <= q.limits.max_entries
    &&& q.stored_bytes == total_size(q.entries)
    &&& q.stored_bytes <= q.limits.max_bytes
    &&& forall|i: int| 0 <= i < q.entries.len() ==> #[trigger] entry_ok(q.entries[i])
    &&& fifo_sorted(q.entries)
    &&& entry_ids_unique(q.entries)
    &&& q.tombstones.len() <= q.limits.max_tombstones
    &&& tomb_ids_unique(q.tombstones)
}

/// No tombstone holds the identifier of an active entry.
pub open spec fn tombs_exclude_entries(q: QueueView) -> bool {
    forall|i: int, j: int|
        0 <= i < q.entries.len() && 0 <= j < q.tombstones.len()
            ==> #[trigger] q.tombstones[j].message_id != #[trigger] q.entries[i].envelope.message_id
}

/// Tombstones with distinct sixteen-byte identifiers.
pub open spec fn tombs_ok(ts: Seq<TombstoneView>) -> bool {
    &&& tomb_ids_unique(ts)
    &&& forall|i: int| 0 <= i < ts.len() ==> (#[trigger] ts[i]).message_id.len() == 16
}

/// Some active entry holds `id`.
pub open spec fn has_entry(es: Seq<EntryView>, id: Seq<u8>) -> bool {
    exists|i: int| 0 <= i < es.len() && #[trigger] es[i].envelope.message_id == id
}

/// Some tombstone for `id` still blocks it at time `at`.
pub open spec fn has_active_tomb(ts: Seq<TombstoneView>, id: Seq<u8>, at: int) -> bool {
    exists|i: int| 0 <= i < ts.len() && #[trigger] ts[i].message_id == id && at < ts[i].expires_at
}

/// What `deduplication_status` reports for `id` at time `at`.
pub open spec fn dedup_status(q: QueueView, id: Seq<u8>, at: int) -> DeduplicationStatus {
    if has_entry(q.entries, id) {
        DeduplicationStatus::Active
    } else if has_active_tomb(q.tombstones, id, at) {
        DeduplicationStatus::Tombstone
    } else {
        DeduplicationStatus::Unknown
    }
}

/// Total size of a concatenation is the sum of the totals.
pub proof fn lemma_total_concat(a: Seq<EntryView>, b: Seq<EntryView>)
    ensures
        total_size(a + b) == total_size(a) + total_size(b),
    decreases b.len(),
{
    if b.len() == 0 {
        assert(a + b =~= a);
    } else {
        assert((a + b).drop_last() =~= a + b.drop_last());
        lemma_total_concat(a, b.drop_last());
    }
}

/// Total size of a one-entry sequence.
pub proof fn lemma_total_single(e: EntryView)
    ensures
        total_size(seq![e]) == e.encoded_size,
{
    assert(seq![e].drop_last() =~= Seq::<EntryView>::empty());
    assert(total_size(Seq::<EntryView>::empty()) == 0);
}


/// Tombstones that still block their identifier at time `at`.
pub open spec fn tomb_active(at: int) -> spec_fn(TombstoneView) -> bool {
    |t: TombstoneView| at < t.expires_at
}

/// Tombstones whose blocking time has passed at `at`.
pub open spec fn tomb_lapsed(at: int) -> spec_fn(TombstoneView) -> bool {
    |t: TombstoneView| t.expires_at <= at
}

/// Expiry order of tombstones: earlier expiry first, ties broken by identifier.
pub open spec fn expiry_lt(a: TombstoneView, b: TombstoneView) -> bool {
    key_lt(a.expires_at, a.message_id, b.expires_at, b.message_id)
}

/// Record order of tombstones: earlier record time first, ties broken by identifier.
pub open spec fn record_lt(a: TombstoneView, b: TombstoneView) -> bool {
    key_lt(a.recorded_at, a.message_id, b.recorded_at, b.message_id)
}

/// Where `x` goes in `s` when `s` is scanned from its end for the last
/// element that does not expire after `x`.
pub open spec fn expiry_insert_pos(s: Seq<TombstoneView>, x: TombstoneView) -> int
    decreases s.len(),
{
    if s.len() == 0 {
        0
    } else if expiry_lt(x, s.last()) {
        expiry_insert_pos(s.drop_last(), x)
    } else {
        s.len() as int
    }
}

/// Tombstones arranged in expiry order by insertion, one at a time.
pub open spec fn sort_by_expiry(s: Seq<TombstoneView>) -> Seq<TombstoneView>
    decreases s.len(),
{
    if s.len() == 0 {
        s
    } else {
        let r = sort_by_expiry(s.drop_last());
        r.insert(expiry_insert_pos(r, s.last()), s.last())
    }
}

/// Some tombstone holds `id`.
pub open spec fn has_tomb(ts: Seq<TombstoneView>, id: Seq<u8>) -> bool {
    exists|i: int| 0 <= i < ts.len() && #[trigger] ts[i].message_id == id
}

/// `m` is the position of the tombstone recorded strictly before all others.
pub open spec fn is_oldest(ts: Seq<TombstoneView>, m: int) -> bool {
    &&& 0 <= m < ts.len()
    &&& forall|j: int| 0 <= j < ts.len() && j != m ==> #[trigger] record_lt(ts[m], ts[j])
}

/// Recording a tombstone for `id`: an existing tombstone for `id` is
/// refreshed in place; otherwise, when the tombstones are full, the oldest
/// recorded one is evicted and returned, and the new one is appended.
pub open spec fn record_tomb(
    ts: Seq<TombstoneView>,
    id: Seq<u8>,
    at: int,
    deadline: int,
    max: int,
) -> (Seq<TombstoneView>, Option<TombstoneView>) {
    let t = TombstoneView { message_id: id, recorded_at: at, expires_at: deadline };
    if has_tomb(ts, id) {
        let i = choose|i: int| 0 <= i < ts.len() && #[trigger] ts[i].message_id == id;
        (ts.update(i, t), None)
    } else if ts.len() >= max && ts.len() > 0 {
        let m = choose|m: int| is_oldest(ts, m);
        (ts.remove(m).push(t), Some(ts[m]))
    } else {
        (ts.push(t), None)
    }
}

/// Recording tombstones for `ids` one after another; also returns the
/// tombstones evicted on the way, in order.
pub open spec fn record_all(
    ts: Seq<TombstoneView>,
    ids: Seq<Seq<u8>>,
    at: int,
    deadline: int,
    max: int,
) -> (Seq<TombstoneView>, Seq<TombstoneView>)
    decreases ids.len(),
{
    if ids.len() == 0 {
        (ts, Seq::empty())
    } else {
        let prev = record_all(ts, ids.drop_last(), at, deadline, max);
        let step = record_tomb(prev.0, ids.last(), at, deadline, max);
        (
            step.0,
            match step.1 {
                Some(t) => prev.1.push(t),
                None => prev.1,
            },
        )
    }
}

/// Filtering tombstones keeps only elements of the input and keeps their
/// identifiers distinct.
pub proof fn lemma_tomb_filter(ts: Seq<TombstoneView>, p: spec_fn(TombstoneView) -> bool)
    ensures
        ts.filter(p).len() <= ts.len(),
        forall|k: int|
            0 <= k < ts.filter(p).len() ==> p(#[trigger] ts.filter(p)[k]) && exists|j: int|
                0 <= j < ts.len() && ts[j] == ts.filter(p)[k],
        tomb_ids_unique(ts) ==> tomb_ids_unique(ts.filter(p)),
    decreases ts.len(),
{
    reveal(Seq::filter);
    if ts.len() > 0 {
        let r = ts.drop_last();
        lemma_tomb_filter(r, p);
        let f0 = r.filter(p);
        let f = ts.filter(p);
        assert forall|k: int| 0 <= k < f.len() implies p(#[trigger] f[k]) && exists|j: int|
            0 <= j < ts.len() && ts[j] == f[k] by {
            if k < f0.len() {
                assert(f[k] == f0[k]);
                let j = choose|j: int| 0 <= j < r.len() && r[j] == f0[k];
                assert(ts[j] == r[j]);
            } else {
                assert(ts[ts.len() - 1] == f[k]);
            }
        }
        if tomb_ids_unique(ts) {
            assert forall|a: int, b: int|
                0 <= a < f.len() && 0 <= b < f.len() && a != b implies f[a].message_id
                != f[b].message_id by {
                if a < f0.len() && b < f0.len() {
                    assert(f[a] == f0[a] && f[b] == f0[b]);
                } else if a < f0.len() {
                    let j = choose|j: int| 0 <= j < r.len() && r[j] == f0[a];
                    assert(f[a] == f0[a] && ts[j] == r[j]);
                } else if b < f0.len() {
                    let j = choose|j: int| 0 <= j < r.len() && r[j] == f0[b];
                    assert(f[b] == f0[b] && ts[j] == r[j]);
                }
            }
        }
    }
}

/// The length of the insertion-sorted sequence and the range of insertion positions.
pub proof fn lemma_sort_by_expiry_len(s: Seq<TombstoneView>)
    ensures
        sort_by_expiry(s).len() == s.len(),
    decreases s.len(),
{
    if s.len() > 0 {
        lemma_sort_by_expiry_len(s.drop_last());
        lemma_expiry_insert_pos_range(sort_by_expiry(s.drop_last()), s.last());
    }
}

pub proof fn lemma_expiry_insert_pos_range(s: Seq<TombstoneView>, x: TombstoneView)
    ensures
        0 <= expiry_insert_pos(s, x) <= s.len(),
    decreases s.len(),
{
    if s.len() > 0 {
        lemma_expiry_insert_pos_range(s.drop_last(), x);
    }
}

fn expires_before(a: &TombstoneEntry, b: &TombstoneEntry) -> (less: bool)
    ensures
        less == expiry_lt(a@, b@),
{
    a.expires_at < b.expires_at || (a.expires_at == b.expires_at && a.message_id.precedes(
        &b.message_id,
    ))
}

fn recorded_before(a: &TombstoneEntry, b: &TombstoneEntry) -> (less: bool)
    ensures
        less == record_lt(a@, b@),
{
    a.recorded_at < b.recorded_at || (a.recorded_at == b.recorded_at && a.message_id.precedes(
        &b.message_id,
    ))
}

/// Inserts `t` into `sorted` where `sort_by_expiry` puts it.
fn insert_by_expiry(sorted: &mut Vec<TombstoneEntry>, t: TombstoneEntry)
    ensures
        tombstone_views(final(sorted)@) == tombstone_views(old(sorted)@).insert(
            expiry_insert_pos(tombstone_views(old(sorted)@), t@),
            t@,
        ),
{
    let ghost s = tombstone_views(sorted@);
    let mut p: usize = sorted.len();
    assert(s.take(p as int) =~= s);
    while p > 0 && expires_before(&t, &sorted[p - 1])
        invariant
            p <= sorted.len(),
            s == tombstone_views(sorted@),
            expiry_insert_pos(s, t@) == expiry_insert_pos(s.take(p as int), t@),
        decreases p,
    {
        proof {
            assert(s.take(p as int).drop_last() =~= s.take(p - 1));
        }
        p -= 1;
    }
    proof {
        if p > 0 {
            assert(s.take(p as int).last() == s[p - 1]);
        }
    }
    sorted.insert(p, t);
    proof {
        assert(tombstone_views(sorted@) =~= s.insert(p as int, t@));
    }
}


/// Entries whose local deadline has passed at `at`.
pub open spec fn entry_due(at: int) -> spec_fn(EntryView) -> bool {
    |e: EntryView| e.route.local_deadline <= at
}

/// Entries whose local deadline is still ahead at `at`.
pub open spec fn entry_live(at: int) -> spec_fn(EntryView) -> bool {
    |e: EntryView| at < e.route.local_deadline
}

/// Some entry is due at `at`.
pub open spec fn has_due(es: Seq<EntryView>, at: int) -> bool {
    exists|i: int| 0 <= i < es.len() && #[trigger] es[i].route.local_deadline <= at
}

/// A tombstone recorded at `at` can carry its deadline in 64 bits.
pub open spec fn deadline_fits(l: LimitsView, at: int) -> bool {
    at + l.retention <= u64::MAX
}

/// The entries with their routes moved to `state`.
pub open spec fn with_states(es: Seq<EntryView>, state: ContainerState) -> Seq<EntryView> {
    es.map_values(|e: EntryView| entry_with_state(e, state))
}

/// The queue after expiring at `at`: lapsed tombstones dropped, due entries
/// removed and tombstoned in FIFO order.
pub open spec fn expire_state(q: QueueView, at: int) -> QueueView {
    let live = q.entries.filter(entry_live(at));
    QueueView {
        limits: q.limits,
        entries: live,
        stored_bytes: total_size(live),
        tombstones: record_all(
            q.tombstones.filter(tomb_active(at)),
            entry_ids(q.entries.filter(entry_due(at))),
            at,
            at + q.limits.retention,
            q.limits.max_tombstones,
        ).0,
    }
}

/// The effects of expiring at `at`: the due entries moved to Expired, the
/// lapsed tombstones in expiry order, and the tombstones evicted on the way.
pub open spec fn expire_effects(q: QueueView, at: int) -> EffectsView {
    let due = q.entries.filter(entry_due(at));
    EffectsView {
        removed: with_states(due, ContainerState::Expired),
        expired: sort_by_expiry(q.tombstones.filter(tomb_lapsed(at))),
        evicted: record_all(
            q.tombstones.filter(tomb_active(at)),
            entry_ids(due),
            at,
            at + q.limits.retention,
            q.limits.max_tombstones,
        ).1,
    }
}

/// Filtering entries keeps only elements of the input, and keeps their
/// identifiers distinct and their FIFO order.
pub proof fn lemma_entry_filter(es: Seq<EntryView>, p: spec_fn(EntryView) -> bool)
    ensures
        es.filter(p).len() <= es.len(),
        forall|k: int|
            0 <= k < es.filter(p).len() ==> p(#[trigger] es.filter(p)[k]) && exists|j: int|
                0 <= j < es.len() && es[j] == es.filter(p)[k],
        entry_ids_unique(es) ==> entry_ids_unique(es.filter(p)),
        fifo_sorted(es) ==> fifo_sorted(es.filter(p)),
    decreases es.len(),
{
    reveal(Seq::filter);
    if es.len() > 0 {
        let r = es.drop_last();
        lemma_entry_filter(r, p);
        let f0 = r.filter(p);
        let f = es.filter(p);
        assert forall|k: int| 0 <= k < f.len() implies p(#[trigger] f[k]) && exists|j: int|
            0 <= j < es.len() && es[j] == f[k] by {
            if k < f0.len() {
                assert(f[k] == f0[k]);
                let j = choose|j: int| 0 <= j < r.len() && r[j] == f0[k];
                assert(es[j] == r[j]);
            } else {
                assert(es[es.len() - 1] == f[k]);
            }
        }
        if entry_ids_unique(es) {
            assert forall|a: int, b: int|
                0 <= a < f.len() && 0 <= b < f.len() && a != b implies f[a].envelope.message_id
                != f[b].envelope.message_id by {
                if a < f0.len() && b < f0.len() {
                    assert(f[a] == f0[a] && f[b] == f0[b]);
                } else if a < f0.len() {
                    let j = choose|j: int| 0 <= j < r.len() && r[j] == f0[a];
                    assert(f[a] == f0[a] && es[j] == r[j]);
                } else if b < f0.len() {
                    let j = choose|j: int| 0 <= j < r.len() && r[j] == f0[b];
                    assert(f[b] == f0[b] && es[j] == r[j]);
                }
            }
        }
        if fifo_sorted(es) {
            assert forall|a: int, b: int| 0 <= a < b < f.len() implies #[trigger] fifo_lt(
                f[a],
                f[b],
            ) by {
                if b < f0.len() {
                    assert(f[a] == f0[a] && f[b] == f0[b]);
                } else {
                    let j = choose|j: int| 0 <= j < r.len() && r[j] == f0[a];
                    assert(f[a] == f0[a] && es[j] == r[j]);
                    assert(f[b] == es[es.len() - 1]);
                }
            }
        }
    }
}

/// Views commute with removing one element.
pub proof fn lemma_entry_views_remove(s: Seq<QueueEntry>, i: int)
    requires
        0 <= i < s.len(),
    ensures
        entry_views(s.remove(i)) == entry_views(s).remove(i),
        entry_views(s)[i] == s[i]@,
{
    assert(entry_views(s.remove(i)) =~= entry_views(s).remove(i));
}

/// Views commute with appending one element.
pub proof fn lemma_entry_views_push(s: Seq<QueueEntry>, e: QueueEntry)
    ensures
        entry_views(s.push(e)) == entry_views(s).push(e@),
{
    assert(entry_views(s.push(e)) =~= entry_views(s).push(e@));
}

/// Filtering a sequence that starts with `x`.
pub proof fn lemma_filter_cons<A>(x: A, rest: Seq<A>, p: spec_fn(A) -> bool)
    ensures
        (seq![x] + rest).filter(p) == if p(x) {
            seq![x] + rest.filter(p)
        } else {
            rest.filter(p)
        },
{
    reveal(Seq::filter);
    Seq::filter_distributes_over_add(seq![x], rest, p);
    assert(seq![x].drop_last() =~= Seq::<A>::empty());
    assert(Seq::<A>::empty().filter(p) =~= Seq::<A>::empty());
    if p(x) {
        assert(seq![x].filter(p) =~= seq![x]);
    } else {
        assert(seq![x].filter(p) =~= Seq::<A>::empty());
    }
    assert(Seq::<A>::empty() + rest.filter(p) =~= rest.filter(p));
}

/// A total of entries with nonnegative sizes is nonnegative.
pub proof fn lemma_total_nonneg(es: Seq<EntryView>)
    requires
        forall|k: int| 0 <= k < es.len() ==> #[trigger] es[k].encoded_size >= 0,
    ensures
        total_size(es) >= 0,
    decreases es.len(),
{
    if es.len() > 0 {
        lemma_total_nonneg(es.drop_last());
    }
}

/// Due and live entries split the total size.
pub proof fn lemma_total_partition(es: Seq<EntryView>, at: int)
    ensures
        total_size(es.filter(entry_live(at))) + total_size(es.filter(entry_due(at)))
            == total_size(es),
    decreases es.len(),
{
    reveal(Seq::filter);
    if es.len() > 0 {
        let r = es.drop_last();
        lemma_total_partition(r, at);
        let x = es.last();
        if at < x.route.local_deadline {
            assert(es.filter(entry_live(at)).drop_last() =~= r.filter(entry_live(at)));
            assert(es.filter(entry_due(at)) =~= r.filter(entry_due(at)));
        } else {
            assert(es.filter(entry_due(at)).drop_last() =~= r.filter(entry_due(at)));
            assert(es.filter(entry_live(at)) =~= r.filter(entry_live(at)));
        }
    }
}

/// One more recorded identifier extends the recording by one step.
pub proof fn lemma_record_all_step(
    ts: Seq<TombstoneView>,
    ids: Seq<Seq<u8>>,
    k: int,
    at: int,
    deadline: int,
    max: int,
)
    requires
        0 <= k < ids.len(),
    ensures
        ({
            let prev = record_all(ts, ids.take(k), at, deadline, max);
            let step = record_tomb(prev.0, ids[k], at, deadline, max);
            record_all(ts, ids.take(k + 1), at, deadline, max) == (
                step.0,
                match step.1 {
                    Some(t) => prev.1.push(t),
                    None => prev.1,
                },
            )
        }),
{
    assert(ids.take(k + 1).drop_last() =~= ids.take(k));
}


/// `count` entries of `bytes` total leave room for one more of `incoming` bytes.
pub open spec fn room_for(count: int, bytes: int, incoming: int, l: LimitsView) -> bool {
    count < l.max_entries && bytes + incoming <= l.max_bytes
}

/// The number of oldest entries, counted from position `k`, that must leave
/// to make room for an entry of `incoming` bytes.
pub open spec fn eviction_count_from(es: Seq<EntryView>, k: int, incoming: int, l: LimitsView) -> int
    decreases es.len() - k,
{
    if k >= es.len() || room_for(es.len() - k, total_size(es.skip(k)), incoming, l) {
        k
    } else {
        eviction_count_from(es, k + 1, incoming, l)
    }
}

/// Where `x` goes in `s` when `s` is scanned from its end for the last entry
/// that does not come after `x` in FIFO order.
pub open spec fn fifo_insert_pos(s: Seq<EntryView>, x: EntryView) -> int
    decreases s.len(),
{
    if s.len() == 0 {
        0
    } else if fifo_lt(x, s.last()) {
        fifo_insert_pos(s.drop_last(), x)
    } else {
        s.len() as int
    }
}

/// `s` with `t` appended when there is one.
pub open spec fn opt_push(s: Seq<TombstoneView>, t: Option<TombstoneView>) -> Seq<TombstoneView> {
    match t {
        Some(x) => s.push(x),
        None => s,
    }
}

/// The result and the resulting queue of enqueueing entry `inc` at time `at`:
/// first lapsed tombstones and due entries are expired; then a duplicate is
/// reported, an expired entry is only tombstoned, an entry larger than the
/// byte limit is refused, and otherwise the oldest entries are evicted until
/// the new one fits and it is stored in FIFO position. A tombstone deadline
/// past the 64-bit range fails the call where a tombstone would be written.
pub open spec fn enqueue_model(q: QueueView, inc: EntryView, at: int) -> (
    Result<(EnqueueOutcome, EffectsView), QueueError>,
    QueueView,
) {
    let overflow = QueueError::ArithmeticOverflow { field: QueueField::TombstoneDeadline };
    let id = inc.envelope.message_id;
    let deadline = at + q.limits.retention;
    let max_t = q.limits.max_tombstones;
    if !deadline_fits(q.limits, at) && (inc.route.local_deadline <= at || has_due(q.entries, at)) {
        (Err(overflow), q)
    } else {
        let s1 = expire_state(q, at);
        let e1 = expire_effects(q, at);
        if has_entry(s1.entries, id) {
            (Ok((EnqueueOutcome::DuplicateActive, e1)), s1)
        } else if has_active_tomb(s1.tombstones, id, at) {
            (Ok((EnqueueOutcome::DuplicateTombstone, e1)), s1)
        } else if inc.route.local_deadline <= at {
            let r = record_tomb(s1.tombstones, id, at, deadline, max_t);
            (
                Ok((EnqueueOutcome::Expired, EffectsView { evicted: opt_push(e1.evicted, r.1), ..e1 })),
                QueueView { tombstones: r.0, ..s1 },
            )
        } else if inc.encoded_size > q.limits.max_bytes {
            (Ok((EnqueueOutcome::ItemExceedsByteQuota, e1)), s1)
        } else {
            let k = eviction_count_from(s1.entries, 0, inc.encoded_size, q.limits);
            if k > 0 && !deadline_fits(q.limits, at) {
                (Err(overflow), s1)
            } else {
                let gone = s1.entries.take(k);
                let kept = s1.entries.skip(k);
                let r = record_all(s1.tombstones, entry_ids(gone), at, deadline, max_t);
                let entries = kept.insert(fifo_insert_pos(kept, inc), inc);
                (
                    Ok(
                        (
                            EnqueueOutcome::Stored,
                            EffectsView {
                                removed: e1.removed + with_states(gone, ContainerState::Evicted),
                                expired: e1.expired,
                                evicted: e1.evicted + r.1,
                            },
                        ),
                    ),
                    QueueView {
                        limits: q.limits,
                        entries,
                        stored_bytes: total_size(entries),
                        tombstones: r.0,
                    },
                )
            }
        }
    }
}

/// The back-scan position splits a sorted sequence into entries before and
/// after `x` in FIFO order.
pub proof fn lemma_fifo_insert_pos(s: Seq<EntryView>, x: EntryView)
    requires
        fifo_sorted(s),
        x.envelope.message_id.len() == 16,
        forall|j: int|
            0 <= j < s.len() ==> #[trigger] s[j].envelope.message_id.len() == 16
                && s[j].envelope.message_id != x.envelope.message_id,
    ensures
        0 <= fifo_insert_pos(s, x) <= s.len(),
        forall|j: int| 0 <= j < fifo_insert_pos(s, x) ==> #[trigger] fifo_lt(s[j], x),
        forall|j: int| fifo_insert_pos(s, x) <= j < s.len() ==> #[trigger] fifo_lt(x, s[j]),
    decreases s.len(),
{
    if s.len() > 0 {
        let r = s.drop_last();
        let last = s.last();
        assert(s[s.len() - 1].envelope.message_id.len() == 16);
        if fifo_lt(x, last) {
            assert forall|j: int| 0 <= j < r.len() implies #[trigger] r[j].envelope.message_id.len()
                == 16 && r[j].envelope.message_id != x.envelope.message_id by {
                assert(r[j] == s[j]);
            }
            assert(fifo_sorted(r)) by {
                assert forall|a: int, b: int| 0 <= a < b < r.len() implies #[trigger] fifo_lt(
                    r[a],
                    r[b],
                ) by {
                    assert(r[a] == s[a] && r[b] == s[b]);
                }
            }
            lemma_fifo_insert_pos(r, x);
            assert forall|j: int| 0 <= j < fifo_insert_pos(s, x) implies #[trigger] fifo_lt(s[j], x) by {
                assert(r[j] == s[j]);
            }
            assert forall|j: int| fifo_insert_pos(s, x) <= j < s.len() implies #[trigger] fifo_lt(
                x,
                s[j],
            ) by {
                if j < s.len() - 1 {
                    assert(r[j] == s[j]);
                }
            }
        } else {
            lemma_key_total(
                x.route.first_seen_at,
                x.envelope.message_id,
                last.route.first_seen_at,
                last.envelope.message_id,
            );
            assert forall|j: int| 0 <= j < s.len() implies #[trigger] fifo_lt(s[j], x) by {
                if j < s.len() - 1 {
                    assert(fifo_lt(s[j], s[s.len() - 1]));
                    lemma_key_transitive(
                        s[j].route.first_seen_at,
                        s[j].envelope.message_id,
                        last.route.first_seen_at,
                        last.envelope.message_id,
                        x.route.first_seen_at,
                        x.envelope.message_id,
                    );
                }
            }
        }
    }
}

/// The eviction count lies between its start and the number of entries.
pub proof fn lemma_eviction_count_range(es: Seq<EntryView>, k: int, incoming: int, l: LimitsView)
    requires
        0 <= k <= es.len(),
    ensures
        k <= eviction_count_from(es, k, incoming, l) <= es.len(),
    decreases es.len() - k,
{
    if !(k >= es.len() || room_for(es.len() - k, total_size(es.skip(k)), incoming, l)) {
        lemma_eviction_count_range(es, k + 1, incoming, l);
    }
}


/// The eviction count is the first position, from `k`, at which the rest of
/// the entries leave room for the incoming one.
proof fn lemma_eviction_count_first(es: Seq<EntryView>, k: int, incoming: int, l: LimitsView)
    requires
        0 <= k <= es.len(),
        incoming <= l.max_bytes,
        l.max_entries >= 1,
    ensures
        room_for(
            es.len() - eviction_count_from(es, k, incoming, l),
            total_size(es.skip(eviction_count_from(es, k, incoming, l))),
            incoming,
            l,
        ),
        forall|j: int|
            k <= j < eviction_count_from(es, k, incoming, l) ==> !room_for(
                es.len() - j,
                #[trigger] total_size(es.skip(j)),
                incoming,
                l,
            ),
    decreases es.len() - k,
{
    lemma_eviction_count_range(es, k, incoming, l);
    if k >= es.len() {
        assert(es.skip(k) =~= Seq::<EntryView>::empty());
    } else if !room_for(es.len() - k, total_size(es.skip(k)), incoming, l) {
        lemma_eviction_count_first(es, k + 1, incoming, l);
    }
}

/// Eviction makes just enough room: when an Envelope is stored, the entries
/// evicted for it are, in FIFO order, the shortest prefix of the live
/// entries after whose removal the rest and the new entry fit the entry and
/// byte limits; every other live entry stays, and the new one joins them.
pub proof fn law_eviction_is_shortest_prefix(q: QueueView, inc: EntryView, at: int)
    requires
        queue_wf(q),
        enqueue_model(q, inc, at).0 matches Ok((outcome, _)) && outcome == EnqueueOutcome::Stored,
    ensures
        ({
            let es = expire_state(q, at).entries;
            let k = eviction_count_from(es, 0, inc.encoded_size, q.limits);
            let m = enqueue_model(q, inc, at);
            &&& 0 <= k <= es.len()
            &&& room_for(es.len() - k, total_size(es.skip(k)), inc.encoded_size, q.limits)
            &&& forall|j: int|
                0 <= j < k ==> !room_for(
                    es.len() - j,
                    #[trigger] total_size(es.skip(j)),
                    inc.encoded_size,
                    q.limits,
                )
            &&& m.0->Ok_0.1.removed == expire_effects(q, at).removed + with_states(
                es.take(k),
                ContainerState::Evicted,
            )
            &&& m.1.entries == es.skip(k).insert(fifo_insert_pos(es.skip(k), inc), inc)
            &&& m.1.stored_bytes == total_size(m.1.entries)
        }),
{
    let es = expire_state(q, at).entries;
    lemma_eviction_count_range(es, 0, inc.encoded_size, q.limits);
    lemma_eviction_count_first(es, 0, inc.encoded_size, q.limits);
}

/// The result and the resulting queue of removing the opened entry `id` at
/// time `at`: lapsed tombstones are dropped first; an active entry is then
/// removed, moved to Opened and tombstoned. A tombstone deadline past the
/// 64-bit range fails the call, before any change, when the entry is active.
pub open spec fn remove_opened_model(q: QueueView, id: Seq<u8>, at: int) -> (
    Result<EffectsView, QueueError>,
    QueueView,
) {
    if has_entry(q.entries, id) && !deadline_fits(q.limits, at) {
        (Err(QueueError::ArithmeticOverflow { field: QueueField::TombstoneDeadline }), q)
    } else {
        let ts1 = q.tombstones.filter(tomb_active(at));
        let expired = sort_by_expiry(q.tombstones.filter(tomb_lapsed(at)));
        if !has_entry(q.entries, id) {
            (
                Ok(EffectsView { removed: Seq::empty(), expired, evicted: Seq::empty() }),
                QueueView { tombstones: ts1, ..q },
            )
        } else {
            let i = choose|i: int| 0 <= i < q.entries.len() && #[trigger] q.entries[i].envelope.message_id == id;
            let rest = q.entries.remove(i);
            let r = record_all(ts1, seq![id], at, at + q.limits.retention, q.limits.max_tombstones);
            (
                Ok(
                    EffectsView {
                        removed: with_states(seq![q.entries[i]], ContainerState::Opened),
                        expired,
                        evicted: r.1,
                    },
                ),
                QueueView {
                    limits: q.limits,
                    entries: rest,
                    stored_bytes: total_size(rest),
                    tombstones: r.0,
                },
            )
        }
    }
}


/// A stored Envelope is active right after `enqueue` stores it: its
/// identifier is held by an entry, so deduplication reports it as active.
pub proof fn law_stored_entry_is_active(q: QueueView, inc: EntryView, at: int)
    requires
        queue_wf(q),
        enqueue_model(q, inc, at).0 matches Ok((outcome, _)) && outcome == EnqueueOutcome::Stored,
    ensures
        has_entry(enqueue_model(q, inc, at).1.entries, inc.envelope.message_id),
        dedup_status(enqueue_model(q, inc, at).1, inc.envelope.message_id, at)
            == DeduplicationStatus::Active,
{
    let s1 = expire_state(q, at);
    let k = eviction_count_from(s1.entries, 0, inc.encoded_size, q.limits);
    let kept = s1.entries.skip(k);
    let p = fifo_insert_pos(kept, inc);
    let entries = kept.insert(p, inc);
    lemma_eviction_count_range(s1.entries, 0, inc.encoded_size, q.limits);
    lemma_fifo_insert_pos_range(kept, inc);
    assert(entries[p].envelope.message_id == inc.envelope.message_id);
}

/// The insertion position lies within the sequence.
pub proof fn lemma_fifo_insert_pos_range(s: Seq<EntryView>, x: EntryView)
    ensures
        0 <= fifo_insert_pos(s, x) <= s.len(),
    decreases s.len(),
{
    if s.len() > 0 {
        lemma_fifo_insert_pos_range(s.drop_last(), x);
    }
}

/// After `record_tomb` for `id`, a tombstone for `id` with the given deadline is held.
pub proof fn lemma_record_tomb_holds(
    ts: Seq<TombstoneView>,
    id: Seq<u8>,
    at: int,
    deadline: int,
    max: int,
)
    ensures
        exists|i: int|
            0 <= i < record_tomb(ts, id, at, deadline, max).0.len()
                && #[trigger] record_tomb(ts, id, at, deadline, max).0[i] == (TombstoneView {
                message_id: id,
                recorded_at: at,
                expires_at: deadline,
            }),
{
    let r = record_tomb(ts, id, at, deadline, max).0;
    let t = TombstoneView { message_id: id, recorded_at: at, expires_at: deadline };
    if has_tomb(ts, id) {
        let i = choose|i: int| 0 <= i < ts.len() && #[trigger] ts[i].message_id == id;
        assert(r[i] == t);
    } else {
        assert(r[r.len() - 1] == t);
    }
}

/// An opened Envelope cannot return: after `remove_opened` removes an active
/// entry, its identifier is no longer active and is blocked by a tombstone.
pub proof fn law_opened_entry_is_tombstoned(q: QueueView, id: Seq<u8>, at: int)
    requires
        queue_wf(q),
        has_entry(q.entries, id),
        remove_opened_model(q, id, at).0 is Ok,
    ensures
        !has_entry(remove_opened_model(q, id, at).1.entries, id),
        dedup_status(remove_opened_model(q, id, at).1, id, at) == DeduplicationStatus::Tombstone,
{
    let i = choose|i: int| 0 <= i < q.entries.len() && #[trigger] q.entries[i].envelope.message_id == id;
    let rest = q.entries.remove(i);
    let ts1 = q.tombstones.filter(tomb_active(at));
    let deadline = at + q.limits.retention;
    if has_entry(rest, id) {
        let j = choose|j: int| 0 <= j < rest.len() && #[trigger] rest[j].envelope.message_id == id;
        let ij = if j < i { j } else { j + 1 };
        assert(rest[j] == q.entries[ij]);
    }
    assert(seq![id].drop_last() =~= Seq::<Seq<u8>>::empty());
    assert(seq![id].last() == id);
    assert(record_all(ts1, Seq::<Seq<u8>>::empty(), at, deadline, q.limits.max_tombstones).0 == ts1);
    let r = record_tomb(ts1, id, at, deadline, q.limits.max_tombstones).0;
    assert(record_all(ts1, seq![id], at, deadline, q.limits.max_tombstones).0 == r);
    lemma_record_tomb_holds(ts1, id, at, deadline, q.limits.max_tombstones);
    let k = choose|k: int| 0 <= k < r.len() && #[trigger] r[k] == (TombstoneView {
        message_id: id,
        recorded_at: at,
        expires_at: deadline,
    });
    assert(r[k].message_id == id && at < r[k].expires_at);
}

/// Every queue operation keeps the queue within its configured limits: at most
/// the configured number of entries, bytes and tombstones, with the stored
/// byte count equal to the sum of the entries' encoded sizes.
pub proof fn law_limits_hold(q: QueueView)
    requires
        queue_wf(q),
    ensures
        q.entries.len() <= q.limits.max_entries,
        q.stored_bytes <= q.limits.max_bytes,
        q.tombstones.len() <= q.limits.max_tombstones,
        q.stored_bytes == total_size(q.entries),
{
}

/// Bounded in-memory queue with active and tombstone deduplication.
pub struct EnvelopeQueue {
    limits: QueueLimits,
    entries: Vec<QueueEntry>,
    stored_bytes: usize,
    tombstones: Vec<TombstoneEntry>,
}

impl View for EnvelopeQueue {
    type V = QueueView;

    closed spec fn view(&self) -> QueueView {
        QueueView {
            limits: self.limits@,
            entries: entry_views(self.entries@),
            stored_bytes: self.stored_bytes as int,
            tombstones: tombstone_views(self.tombstones@),
        }
    }
}

impl EnvelopeQueue {
    /// The queue invariant holds, and no tombstone holds the identifier of
    /// an active entry.
    pub open spec fn wf(&self) -> bool {
        &&& queue_wf(self@)
        &&& tombs_exclude_entries(self@)
        &&& tombs_ok(self@.tombstones)
    }

    pub fn new(limits: QueueLimits) -> (queue: Self)
        ensures
            queue.wf(),
            queue@.limits == limits@,
            queue@.entries.len() == 0,
            queue@.stored_bytes == 0,
            queue@.tombstones.len() == 0,
    {
        limits.establish_valid();
        let queue = EnvelopeQueue {
            limits,
            entries: Vec::new(),
            stored_bytes: 0,
            tombstones: Vec::new(),
        };
        assert(queue@.entries =~= Seq::<EntryView>::empty());
        assert(queue@.tombstones =~= Seq::<TombstoneView>::empty());
        queue
    }

    pub fn limits(&self) -> (limits: QueueLimits)
        ensures
            limits@ == self@.limits,
    {
        self.limits
    }

    pub fn len(&self) -> (count: usize)
        ensures
            count == self@.entries.len(),
    {
        self.entries.len()
    }

    pub fn is_empty(&self) -> (empty: bool)
        ensures
            empty == (self@.entries.len() == 0),
    {
        self.entries.is_empty()
    }

    pub fn stored_bytes(&self) -> (bytes: usize)
        ensures
            bytes == self@.stored_bytes,
    {
        self.stored_bytes
    }

    pub fn tombstone_count(&self) -> (count: usize)
        ensures
            count == self@.tombstones.len(),
    {
        self.tombstones.len()
    }

    /// Active entries in FIFO order.
    pub(crate) fn entry_slice(&self) -> (entries: &[QueueEntry])
        ensures
            entry_views(entries@) == self@.entries,
    {
        self.entries.as_slice()
    }

    /// Active entries in ascending order of their message identifiers.
    pub fn entries(&self) -> (entries: Vec<&QueueEntry>)
        requires
            self.wf(),
        ensures
            entries.len() == self@.entries.len(),
            forall|i: int, j: int|
                0 <= i < j < entries.len() ==> seq_lex_lt(
                    (#[trigger] entries@[i])@.envelope.message_id,
                    (#[trigger] entries@[j])@.envelope.message_id,
                ),
            forall|i: int| 0 <= i < entries.len() ==> self@.entries.contains(#[trigger] entries@[i]@),
            forall|k: int|
                #![trigger self@.entries[k]]
                0 <= k < self@.entries.len() ==> exists|i: int|
                    0 <= i < entries.len() && #[trigger] entries@[i]@ == self@.entries[k],
    {
        let ghost es = self@.entries;
        let mut ids: Vec<MessageId> = Vec::new();
        let mut i: usize = 0;
        while i < self.entries.len()
            invariant
                i <= self.entries.len(),
                ids.len() == i,
                es == self@.entries,
                forall|j: int| 0 <= j < i ==> (#[trigger] ids@[j])@ == es[j].envelope.message_id,
            decreases self.entries.len() - i,
        {
            ids.push(self.entries[i].envelope().message_id());
            i += 1;
        }
        proof {
            assert forall|a: int, b: int|
                0 <= a < ids.len() && 0 <= b < ids.len() && a != b implies ids@[a]@ != ids@[b]@ by {
                assert(ids@[a]@ == es[a].envelope.message_id);
                assert(ids@[b]@ == es[b].envelope.message_id);
            }
        }
        let order = order_by_id(&ids);
        let mut out: Vec<&QueueEntry> = Vec::new();
        let mut j: usize = 0;
        while j < order.len()
            invariant
                j <= order.len(),
                out.len() == j,
                order.len() == self.entries.len(),
                ids.len() == self.entries.len(),
                es == self@.entries,
                forall|k: int| 0 <= k < ids.len() ==> (#[trigger] ids@[k])@ == es[k].envelope.message_id,
                ascending_positions(ids@, order@),
                forall|a: int| 0 <= a < j ==> (#[trigger] out@[a])@ == es[order@[a] as int],
            decreases order.len() - j,
        {
            out.push(&self.entries[order[j]]);
            j += 1;
        }
        proof {
            assert forall|a: int, b: int| 0 <= a < b < out.len() implies seq_lex_lt(
                (#[trigger] out@[a])@.envelope.message_id,
                (#[trigger] out@[b])@.envelope.message_id,
            ) by {
                assert(seq_lex_lt(ids@[order@[a] as int]@, ids@[order@[b] as int]@));
            }
            assert forall|a: int| 0 <= a < out.len() implies es.contains(#[trigger] out@[a]@) by {
                assert(es[order@[a] as int] == out@[a]@);
            }
            assert forall|k: int| #![trigger es[k]] 0 <= k < es.len() implies exists|a: int|
                0 <= a < out.len() && #[trigger] out@[a]@ == es[k] by {
                assert(order@.contains(k as usize));
                let a = choose|a: int| 0 <= a < order@.len() && #[trigger] order@[a] == k as usize;
                assert(out@[a]@ == es[k]);
            }
        }
        out
    }

    /// Tombstones in ascending order of their message identifiers.
    pub fn tombstones(&self) -> (sorted: Vec<TombstoneEntry>)
        requires
            self.wf(),
        ensures
            sorted.len() == self@.tombstones.len(),
            forall|i: int, j: int|
                0 <= i < j < sorted.len() ==> seq_lex_lt(
                    (#[trigger] sorted@[i])@.message_id,
                    (#[trigger] sorted@[j])@.message_id,
                ),
            forall|i: int|
                0 <= i < sorted.len() ==> self@.tombstones.contains(#[trigger] sorted@[i]@),
            forall|k: int|
                0 <= k < self@.tombstones.len() ==> tombstone_views(sorted@).contains(
                    #[trigger] self@.tombstones[k],
                ),
    {
        let ghost ts = self@.tombstones;
        let mut ids: Vec<MessageId> = Vec::new();
        let mut n: usize = 0;
        while n < self.tombstones.len()
            invariant
                n <= self.tombstones.len(),
                ids.len() == n,
                ts == self@.tombstones,
                forall|j: int| 0 <= j < n ==> (#[trigger] ids@[j])@ == ts[j].message_id,
            decreases self.tombstones.len() - n,
        {
            ids.push(self.tombstones[n].message_id());
            n += 1;
        }
        proof {
            assert forall|a: int, b: int|
                0 <= a < ids.len() && 0 <= b < ids.len() && a != b implies ids@[a]@ != ids@[b]@ by {
                assert(ids@[a]@ == ts[a].message_id);
                assert(ids@[b]@ == ts[b].message_id);
            }
        }
        let order = order_by_id(&ids);
        let mut out: Vec<TombstoneEntry> = Vec::new();
        let mut j: usize = 0;
        while j < order.len()
            invariant
                j <= order.len(),
                out.len() == j,
                order.len() == self.tombstones.len(),
                ids.len() == self.tombstones.len(),
                ts == self@.tombstones,
                forall|k: int| 0 <= k < ids.len() ==> (#[trigger] ids@[k])@ == ts[k].message_id,
                ascending_positions(ids@, order@),
                forall|a: int| 0 <= a < j ==> (#[trigger] out@[a])@ == ts[order@[a] as int],
            decreases order.len() - j,
        {
            out.push(self.tombstones[order[j]]);
            j += 1;
        }
        proof {
            assert forall|a: int, b: int| 0 <= a < b < out.len() implies seq_lex_lt(
                (#[trigger] out@[a])@.message_id,
                (#[trigger] out@[b])@.message_id,
            ) by {
                assert(seq_lex_lt(ids@[order@[a] as int]@, ids@[order@[b] as int]@));
            }
            assert forall|a: int| 0 <= a < out.len() implies ts.contains(#[trigger] out@[a]@) by {
                assert(ts[order@[a] as int] == out@[a]@);
            }
            assert forall|k: int| 0 <= k < ts.len() implies tombstone_views(out@).contains(
                #[trigger] ts[k],
            ) by {
                assert(order@.contains(k as usize));
                let a = choose|a: int| 0 <= a < order@.len() && #[trigger] order@[a] == k as usize;
                assert(tombstone_views(out@)[a] == ts[k]);
            }
        }
        out
    }

    /// Position of the active entry holding `message_id`, if any.
    fn find_entry(&self, message_id: &MessageId) -> (index: Option<usize>)
        ensures
            match index {
                Some(i) => i < self@.entries.len() && self@.entries[i as int].envelope.message_id
                    == message_id@,
                None => !has_entry(self@.entries, message_id@),
            },
    {
        let mut i: usize = 0;
        while i < self.entries.len()
            invariant
                i <= self.entries.len(),
                forall|j: int| 0 <= j < i ==> self@.entries[j].envelope.message_id != message_id@,
            decreases self.entries.len() - i,
        {
            if self.entries[i].envelope.message_id().same_as(message_id) {
                return Some(i);
            }
            i += 1;
        }
        None
    }

    /// Position of the tombstone for `message_id`, if any.
    fn find_tombstone(&self, message_id: &MessageId) -> (index: Option<usize>)
        ensures
            match index {
                Some(i) => i < self@.tombstones.len() && self@.tombstones[i as int].message_id
                    == message_id@,
                None => forall|j: int|
                    0 <= j < self@.tombstones.len() ==> self@.tombstones[j].message_id
                        != message_id@,
            },
    {
        let mut i: usize = 0;
        while i < self.tombstones.len()
            invariant
                i <= self.tombstones.len(),
                forall|j: int| 0 <= j < i ==> self@.tombstones[j].message_id != message_id@,
            decreases self.tombstones.len() - i,
        {
            if self.tombstones[i].message_id.same_as(message_id) {
                return Some(i);
            }
            i += 1;
        }
        None
    }

    pub fn get(&self, message_id: MessageId) -> (entry: Option<&QueueEntry>)
        requires
            self.wf(),
        ensures
            match entry {
                Some(e) => has_entry(self@.entries, message_id@) && (exists|i: int|
                    0 <= i < self@.entries.len() && self@.entries[i] == e@
                        && e@.envelope.message_id == message_id@),
                None => !has_entry(self@.entries, message_id@),
            },
    {
        match self.find_entry(&message_id) {
            Some(i) => Some(&self.entries[i]),
            None => None,
        }
    }


    /// Drops every tombstone whose blocking time has passed at `at` and
    /// returns them in expiry order.
    pub fn purge_expired_tombstones(&mut self, at: u64) -> (expired: Vec<TombstoneEntry>)
        requires
            old(self).wf(),
        ensures
            final(self).wf(),
            final(self)@ == (QueueView {
                tombstones: old(self)@.tombstones.filter(tomb_active(at as int)),
                ..old(self)@
            }),
            tombstone_views(expired@) == sort_by_expiry(
                old(self)@.tombstones.filter(tomb_lapsed(at as int)),
            ),
    {
        let ghost ts = old(self)@.tombstones;
        proof {
            lemma_purge_keeps_apart(old(self)@, at as int);
        }
        let mut kept: Vec<TombstoneEntry> = Vec::new();
        let mut lapsed: Vec<TombstoneEntry> = Vec::new();
        let mut i: usize = 0;
        proof {
            reveal(Seq::filter);
            assert(ts.take(0) =~= Seq::<TombstoneView>::empty());
            assert(tombstone_views(kept@) =~= Seq::<TombstoneView>::empty());
            assert(tombstone_views(lapsed@) =~= Seq::<TombstoneView>::empty());
        }
        while i < self.tombstones.len()
            invariant
                i <= self.tombstones.len(),
                ts == tombstone_views(self.tombstones@),
                tombstone_views(kept@) == ts.take(i as int).filter(tomb_active(at as int)),
                tombstone_views(lapsed@) == sort_by_expiry(
                    ts.take(i as int).filter(tomb_lapsed(at as int)),
                ),
            decreases self.tombstones.len() - i,
        {
            let t = self.tombstones[i];
            proof {
                reveal(Seq::filter);
                assert(ts.take(i + 1).drop_last() =~= ts.take(i as int));
                assert(ts.take(i + 1).last() == t@);
            }
            if t.is_active_at(at) {
                kept.push(t);
                proof {
                    assert(tombstone_views(kept@) =~= ts.take(i as int).filter(
                        tomb_active(at as int),
                    ).push(t@));
                }
            } else {
                insert_by_expiry(&mut lapsed, t);
                proof {
                    let f = ts.take(i + 1).filter(tomb_lapsed(at as int));
                    assert(f.drop_last() =~= ts.take(i as int).filter(tomb_lapsed(at as int)));
                }
            }
            i += 1;
        }
        proof {
            assert(ts.take(i as int) =~= ts);
            lemma_tomb_filter(ts, tomb_active(at as int));
        }
        self.tombstones = kept;
        lapsed
    }

    /// Records a tombstone for `message_id` as `record_tomb` describes and
    /// returns the tombstone evicted to make room, if any.
    fn record_tombstone(&mut self, message_id: MessageId, recorded_at: u64, expires_at: u64) -> (evicted:
        Option<TombstoneEntry>)
        requires
            queue_wf(old(self)@),
        ensures
            queue_wf(final(self)@),
            ({
                let r = record_tomb(
                    old(self)@.tombstones,
                    message_id@,
                    recorded_at as int,
                    expires_at as int,
                    old(self)@.limits.max_tombstones,
                );
                &&& final(self)@ == QueueView { tombstones: r.0, ..old(self)@ }
                &&& match evicted {
                    Some(t) => r.1 == Some(t@),
                    None => r.1 is None,
                }
            }),
    {
        let ghost ts = old(self)@.tombstones;
        let ghost id = message_id@;
        let t = TombstoneEntry { message_id, recorded_at, expires_at };
        match self.find_tombstone(&message_id) {
            Some(i) => {
                proof {
                    let c = choose|c: int| 0 <= c < ts.len() && #[trigger] ts[c].message_id == id;
                    assert(c == i);
                }
                self.tombstones.set(i, t);
                proof {
                    assert(tombstone_views(self.tombstones@) =~= ts.update(i as int, t@));
                }
                None
            },
            None => {
                if self.tombstones.len() >= self.limits.max_tombstones
                    && self.tombstones.len() > 0 {
                    let mut m: usize = 0;
                    let mut j: usize = 1;
                    while j < self.tombstones.len()
                        invariant
                            ts == tombstone_views(self.tombstones@),
                            tomb_ids_unique(ts),
                            ts.len() > 0,
                            m < j <= ts.len(),
                            forall|k: int| 0 <= k < j && k != m ==> #[trigger] record_lt(ts[m as int], ts[k]),
                        decreases ts.len() - j,
                    {
                        let ghost old_m = m;
                        if recorded_before(&self.tombstones[j], &self.tombstones[m]) {
                            proof {
                                assert forall|k: int| 0 <= k < j + 1 && k != j implies #[trigger] record_lt(ts[j as int], ts[k]) by {
                                    if k != old_m {
                                        assert(record_lt(ts[old_m as int], ts[k]));
                                        lemma_key_transitive(
                                            ts[j as int].recorded_at, ts[j as int].message_id,
                                            ts[old_m as int].recorded_at, ts[old_m as int].message_id,
                                            ts[k].recorded_at, ts[k].message_id,
                                        );
                                    }
                                }
                            }
                            m = j;
                        } else {
                            proof {
                                assert(ts[j as int].message_id != ts[m as int].message_id);
                                lemma_key_total(
                                    ts[j as int].recorded_at, ts[j as int].message_id,
                                    ts[m as int].recorded_at, ts[m as int].message_id,
                                );
                            }
                        }
                        j += 1;
                    }
                    proof {
                        assert(is_oldest(ts, m as int));
                        let c = choose|c: int| is_oldest(ts, c);
                        if c != m {
                            assert(record_lt(ts[c], ts[m as int]));
                            assert(record_lt(ts[m as int], ts[c]));
                            lemma_key_asymmetric(
                                ts[c].recorded_at, ts[c].message_id,
                                ts[m as int].recorded_at, ts[m as int].message_id,
                            );
                        }
                    }
                    let oldest = self.tombstones.remove(m);
                    self.tombstones.push(t);
                    proof {
                        assert(tombstone_views(self.tombstones@) =~= ts.remove(m as int).push(t@));
                    }
                    Some(oldest)
                } else {
                    self.tombstones.push(t);
                    proof {
                        assert(tombstone_views(self.tombstones@) =~= ts.push(t@));
                    }
                    None
                }
            },
        }
    }



    /// Moves each of `gone` to `state` and records a tombstone for it, in order.
    fn retire_entries(
        &mut self,
        gone: Vec<QueueEntry>,
        state: ContainerState,
        at: u64,
        deadline: u64,
    ) -> (out: (Vec<QueueEntry>, Vec<TombstoneEntry>))
        requires
            queue_wf(old(self)@),
            state == ContainerState::Opened || state == ContainerState::Expired || state
                == ContainerState::Evicted,
            forall|j: int| 0 <= j < gone@.len() ==> #[trigger] entry_ok(entry_views(gone@)[j]),
            gone@.len() <= MAX_QUEUE_ENTRIES,
        ensures
            queue_wf(final(self)@),
            ({
                let r = record_all(
                    old(self)@.tombstones,
                    entry_ids(entry_views(gone@)),
                    at as int,
                    deadline as int,
                    old(self)@.limits.max_tombstones,
                );
                &&& final(self)@ == QueueView { tombstones: r.0, ..old(self)@ }
                &&& entry_views(out.0@) == with_states(entry_views(gone@), state)
                &&& tombstone_views(out.1@) == r.1
            }),
    {
        let ghost dv = entry_views(gone@);
        let ghost ids = entry_ids(dv);
        let ghost ts0 = old(self)@.tombstones;
        let ghost q2 = old(self)@;
        let ghost max = q2.limits.max_tombstones;
        let mut due = gone;
        let mut removed: Vec<QueueEntry> = Vec::new();
        let mut evicted: Vec<TombstoneEntry> = Vec::new();
        let mut k: usize = 0;
        proof {
            assert(ids.take(0) =~= Seq::<Seq<u8>>::empty());
            assert(dv.skip(0) =~= dv);
            assert(entry_views(removed@) =~= with_states(dv.take(0), state));
            assert(tombstone_views(evicted@) =~= Seq::<TombstoneView>::empty());
            assert(record_all(ts0, ids.take(0), at as int, deadline as int, max) == (
                ts0,
                Seq::<TombstoneView>::empty(),
            ));
        }
        while due.len() > 0
            invariant
                queue_wf(self@),
                k + due.len() == dv.len(),
                dv.len() <= MAX_QUEUE_ENTRIES,
                entry_views(due@) == dv.skip(k as int),
                forall|j: int| 0 <= j < dv.len() ==> #[trigger] entry_ok(dv[j]),
                state == ContainerState::Opened || state == ContainerState::Expired || state
                    == ContainerState::Evicted,
                ids == entry_ids(dv),
                self@ == (QueueView {
                    tombstones: record_all(ts0, ids.take(k as int), at as int, deadline as int, max).0,
                    ..q2
                }),
                max == q2.limits.max_tombstones,
                entry_views(removed@) == with_states(dv.take(k as int), state),
                tombstone_views(evicted@) == record_all(
                    ts0,
                    ids.take(k as int),
                    at as int,
                    deadline as int,
                    max,
                ).1,
            decreases due.len(),
        {
            proof {
                lemma_entry_views_remove(due@, 0);
                assert(dv.skip(k as int)[0] == dv[k as int]);
            }
            let mut e = due.remove(0);
            proof {
                assert(e@ == dv[k as int]);
                assert(entry_ok(dv[k as int]));
                assert(entry_views(due@) =~= dv.skip(k + 1));
                lemma_record_all_step(ts0, ids, k as int, at as int, deadline as int, max);
            }
            let id = e.envelope.message_id();
            proof {
                assert(ids[k as int] == id@);
            }
            let ev = self.record_tombstone(id, at, deadline);
            e.transition_to(state);
            proof {
                lemma_entry_views_push(removed@, e);
            }
            removed.push(e);
            match ev {
                Some(t) => {
                    proof {
                        assert(tombstone_views(evicted@.push(t)) =~= tombstone_views(evicted@).push(t@));
                    }
                    evicted.push(t);
                },
                None => {},
            }
            proof {
                assert(dv.take(k + 1) =~= dv.take(k as int).push(dv[k as int]));
                assert(entry_views(removed@) =~= with_states(dv.take(k + 1), state));
                assert(tombstone_views(evicted@) =~= record_all(
                    ts0,
                    ids.take(k + 1),
                    at as int,
                    deadline as int,
                    max,
                ).1);
            }
            k += 1;
        }
        proof {
            assert(ids.take(k as int) =~= ids);
            assert(dv.take(k as int) =~= dv);
        }
        (removed, evicted)
    }

    /// Removes every entry whose local deadline has passed, in FIFO order,
    /// tombstoning each, after dropping lapsed tombstones.
    pub fn expire_due(&mut self, at: u64) -> (result: Result<QueueEffects, QueueError>)
        requires
            old(self).wf(),
        ensures
            final(self).wf(),
            has_due(old(self)@.entries, at as int) && !deadline_fits(old(self)@.limits, at as int)
                ==> result == Err::<QueueEffects, QueueError>(
                QueueError::ArithmeticOverflow { field: QueueField::TombstoneDeadline },
            ) && final(self)@ == old(self)@,
            !(has_due(old(self)@.entries, at as int) && !deadline_fits(
                old(self)@.limits,
                at as int,
            )) ==> (result matches Ok(effects) && effects@ == expire_effects(old(self)@, at as int)
                && final(self)@ == expire_state(old(self)@, at as int)),
    {
        let ghost q0 = self@;
        proof {
            lemma_expire_keeps(q0, at as int);
        }
        let ghost es = q0.entries;
        self.limits.establish_valid();
        let mut any_due = false;
        let mut i: usize = 0;
        while i < self.entries.len()
            invariant
                i <= self.entries.len(),
                es == entry_views(self.entries@),
                any_due == exists|j: int| 0 <= j < i && #[trigger] es[j].route.local_deadline <= at,
            decreases self.entries.len() - i,
        {
            proof {
                assert(es[i as int] == self.entries@[i as int]@);
            }
            if self.entries[i].route.local_deadline() <= at {
                any_due = true;
                proof {
                    assert(es[i as int].route.local_deadline <= at);
                }
            }
            i += 1;
        }
        let deadline: u64 = if any_due {
            match at.checked_add(self.limits.tombstone_retention_seconds) {
                Some(d) => d,
                None => {
                    return Err(
                        QueueError::ArithmeticOverflow { field: QueueField::TombstoneDeadline },
                    );
                },
            }
        } else {
            0
        };
        let expired = self.purge_expired_tombstones(at);
        let ghost q1 = self@;
        let mut due: Vec<QueueEntry> = Vec::new();
        let mut i: usize = self.entries.len();
        proof {
            assert(es.take(i as int) + es.skip(i as int).filter(entry_live(at as int)) =~= es) by {
                reveal(Seq::filter);
                assert(es.skip(i as int) =~= Seq::<EntryView>::empty());
            }
            reveal(Seq::filter);
            assert(es.skip(i as int) =~= Seq::<EntryView>::empty());
            assert(entry_views(due@) =~= es.skip(i as int).filter(entry_due(at as int)));
        }
        while i > 0
            invariant
                i <= es.len(),
                queue_wf(q0),
                es == q0.entries,
                self@.limits == q1.limits,
                self@.tombstones == q1.tombstones,
                self.limits@ == q1.limits,
                entry_views(self.entries@) == es.take(i as int) + es.skip(i as int).filter(
                    entry_live(at as int),
                ),
                entry_views(due@) == es.skip(i as int).filter(entry_due(at as int)),
                self.stored_bytes == total_size(entry_views(self.entries@)),
                forall|k: int|
                    0 <= k < self.entries@.len() ==> #[trigger] entry_views(self.entries@)[k].encoded_size
                        >= 0,
            decreases i,
        {
            i -= 1;
            let ghost before = entry_views(self.entries@);
            let ghost x = es[i as int];
            let ghost b = es.skip(i + 1).filter(entry_live(at as int));
            proof {
                assert(es.skip(i as int) =~= seq![x] + es.skip(i + 1));
                lemma_filter_cons(x, es.skip(i + 1), entry_live(at as int));
                lemma_filter_cons(x, es.skip(i + 1), entry_due(at as int));
                assert(es.take(i + 1) =~= es.take(i as int) + seq![x]);
                assert(entry_ok(es[i as int]));
            }
            if self.entries[i].route.local_deadline() <= at {
                proof {
                    assert(before =~= es.take(i as int) + seq![x] + b);
                    lemma_total_concat(es.take(i as int) + seq![x], b);
                    lemma_total_concat(es.take(i as int), seq![x]);
                    lemma_total_concat(es.take(i as int), b);
                    lemma_total_single(x);
                    assert forall|k: int| 0 <= k < i implies #[trigger] es.take(i as int)[k].encoded_size >= 0 by {
                        assert(before[k] == es.take(i as int)[k]);
                    }
                    lemma_total_nonneg(es.take(i as int));
                    assert forall|k: int| 0 <= k < b.len() implies #[trigger] b[k].encoded_size >= 0 by {
                        assert(before[i + 1 + k] == b[k]);
                    }
                    lemma_total_nonneg(b);
                }
                proof {
                    lemma_entry_views_remove(self.entries@, i as int);
                    assert(before[i as int] == x);
                    assert(before.remove(i as int) =~= es.take(i as int) + b);
                }
                let e = self.entries.remove(i);
                self.stored_bytes = self.stored_bytes - e.encoded_size;
                due.insert(0, e);
                proof {
                    assert(entry_views(self.entries@) =~= es.take(i as int) + b);
                    assert(entry_views(due@) =~= seq![x] + es.skip(i + 1).filter(entry_due(at as int)));
                }
            } else {
                proof {
                    assert(entry_views(self.entries@) =~= es.take(i as int) + (seq![x] + b));
                }
            }
        }
        proof {
            assert(es.take(0) + es.skip(0).filter(entry_live(at as int)) =~= es.filter(
                entry_live(at as int),
            ));
            assert(es.skip(0) =~= es);
            lemma_entry_filter(es, entry_live(at as int));
            lemma_entry_filter(es, entry_due(at as int));
            lemma_total_partition(es, at as int);
            let d = es.filter(entry_due(at as int));
            assert forall|k: int| 0 <= k < d.len() implies #[trigger] d[k].encoded_size >= 0 by {
                let j = choose|j: int| 0 <= j < es.len() && es[j] == d[k];
                assert(entry_ok(es[j]));
            }
            lemma_total_nonneg(d);
            let l = es.filter(entry_live(at as int));
            assert forall|k: int| 0 <= k < l.len() implies #[trigger] entry_ok(l[k]) by {
                let j = choose|j: int| 0 <= j < es.len() && es[j] == l[k];
                assert(entry_ok(es[j]));
            }
            assert(queue_wf(self@));
        }
        proof {
            let dv = es.filter(entry_due(at as int));
            assert(entry_views(due@) == dv);
            assert(forall|j: int| 0 <= j < dv.len() ==> #[trigger] entry_ok(dv[j])) by {
                assert forall|j: int| 0 <= j < dv.len() implies #[trigger] entry_ok(dv[j]) by {
                    let m = choose|m: int| 0 <= m < es.len() && es[m] == dv[j];
                    assert(entry_ok(es[m]));
                }
            }
            if dv.len() > 0 {
                let m = choose|m: int| 0 <= m < es.len() && es[m] == dv[0];
                assert(es[m].route.local_deadline <= at);
            }
        }
        let (removed, evicted) = self.retire_entries(due, ContainerState::Expired, at, deadline);
        Ok(QueueEffects { removed_entries: removed, expired_tombstones: expired, evicted_tombstones: evicted })
    }


    fn tombstone_deadline(&self, at: u64) -> (result: Result<u64, QueueError>)
        ensures
            deadline_fits(self@.limits, at as int) ==> result == Ok::<u64, QueueError>(
                (at + self@.limits.retention) as u64,
            ),
            !deadline_fits(self@.limits, at as int) ==> result == Err::<u64, QueueError>(
                QueueError::ArithmeticOverflow { field: QueueField::TombstoneDeadline },
            ),
    {
        match at.checked_add(self.limits.tombstone_retention_seconds) {
            Some(d) => Ok(d),
            None => Err(QueueError::ArithmeticOverflow { field: QueueField::TombstoneDeadline }),
        }
    }

    /// How many of the oldest entries must leave for an entry of `incoming`
    /// bytes to fit, and the total size of the entries that stay.
    fn eviction_candidates(&self, incoming: usize) -> (out: (usize, usize))
        requires
            queue_wf(self@),
            incoming <= self@.limits.max_bytes,
        ensures
            out.0 == eviction_count_from(self@.entries, 0, incoming as int, self@.limits),
            out.0 <= self@.entries.len(),
            out.1 == total_size(self@.entries.skip(out.0 as int)),
            room_for(self@.entries.len() - out.0, out.1 as int, incoming as int, self@.limits),
    {
        let ghost es = self@.entries;
        let ghost l = self@.limits;
        let mut k: usize = 0;
        let mut remaining: usize = self.stored_bytes;
        proof {
            assert(es.skip(0) =~= es);
        }
        while k < self.entries.len() && !(self.entries.len() - k < self.limits.max_entries
            && remaining + incoming <= self.limits.max_bytes)
            invariant
                k <= es.len(),
                es == self@.entries,
                l == self@.limits,
                queue_wf(self@),
                incoming <= l.max_bytes,
                remaining <= self.stored_bytes,
                remaining == total_size(es.skip(k as int)),
                eviction_count_from(es, 0, incoming as int, l) == eviction_count_from(
                    es,
                    k as int,
                    incoming as int,
                    l,
                ),
            decreases es.len() - k,
        {
            proof {
                let rest = es.skip(k + 1);
                assert(es.skip(k as int) =~= seq![es[k as int]] + rest);
                lemma_total_concat(seq![es[k as int]], rest);
                lemma_total_single(es[k as int]);
                assert forall|j: int| 0 <= j < rest.len() implies #[trigger] rest[j].encoded_size
                    >= 0 by {
                    assert(rest[j] == es[k + 1 + j]);
                    assert(entry_ok(es[k + 1 + j]));
                }
                lemma_total_nonneg(rest);
                assert(es[k as int] == self.entries@[k as int]@);
                assert(entry_ok(es[k as int]));
            }
            remaining = remaining - self.entries[k].encoded_size;
            k += 1;
        }
        proof {
            if k == es.len() {
                assert(es.skip(k as int) =~= Seq::<EntryView>::empty());
            }
        }
        (k, remaining)
    }

    fn entry_precedes(a: &QueueEntry, b: &QueueEntry) -> (less: bool)
        ensures
            less == fifo_lt(a@, b@),
    {
        let ta = a.route.first_seen_at();
        let tb = b.route.first_seen_at();
        ta < tb || (ta == tb && a.envelope.message_id().precedes(&b.envelope.message_id()))
    }

    /// Removes the `k` oldest entries, moving them to Evicted and tombstoning them in order.
    fn evict_front(&mut self, k: usize, remaining: usize, at: u64, deadline: u64) -> (out: (
        Vec<QueueEntry>,
        Vec<TombstoneEntry>,
    ))
        requires
            queue_wf(old(self)@),
            k <= old(self)@.entries.len(),
            remaining == total_size(old(self)@.entries.skip(k as int)),
        ensures
            queue_wf(final(self)@),
            ({
                let es = old(self)@.entries;
                let r = record_all(
                    old(self)@.tombstones,
                    entry_ids(es.take(k as int)),
                    at as int,
                    deadline as int,
                    old(self)@.limits.max_tombstones,
                );
                &&& final(self)@ == QueueView {
                    limits: old(self)@.limits,
                    entries: es.skip(k as int),
                    stored_bytes: total_size(es.skip(k as int)),
                    tombstones: r.0,
                }
                &&& entry_views(out.0@) == with_states(es.take(k as int), ContainerState::Evicted)
                &&& tombstone_views(out.1@) == r.1
            }),
    {
        let ghost es = old(self)@.entries;
        let mut front = self.entries.split_off(k);
        std::mem::swap(&mut self.entries, &mut front);
        self.stored_bytes = remaining;
        proof {
            let kept = es.skip(k as int);
            let gone = es.take(k as int);
            assert(entry_views(self.entries@) =~= kept);
            assert(entry_views(front@) =~= gone);
            assert(es =~= gone + kept);
            lemma_total_concat(gone, kept);
            assert forall|j: int| 0 <= j < gone.len() implies #[trigger] gone[j].encoded_size >= 0 by {
                assert(entry_ok(es[j]));
            }
            lemma_total_nonneg(gone);
            assert forall|j: int| 0 <= j < kept.len() implies #[trigger] entry_ok(kept[j]) by {
                assert(kept[j] == es[k + j]);
            }
            assert forall|a: int, b: int| 0 <= a < b < kept.len() implies #[trigger] fifo_lt(
                kept[a],
                kept[b],
            ) by {
                assert(kept[a] == es[k + a] && kept[b] == es[k + b]);
            }
            assert forall|a: int, b: int|
                0 <= a < kept.len() && 0 <= b < kept.len() && a != b implies kept[a].envelope.message_id
                != kept[b].envelope.message_id by {
                assert(kept[a] == es[k + a] && kept[b] == es[k + b]);
            }
            assert forall|j: int| 0 <= j < front@.len() implies #[trigger] entry_ok(
                entry_views(front@)[j],
            ) by {
                assert(entry_views(front@)[j] == es[j]);
                assert(entry_ok(es[j]));
            }
            assert(queue_wf(self@));
        }
        self.retire_entries(front, ContainerState::Evicted, at, deadline)
    }

    /// Stores `e` at its FIFO position.
    fn insert_entry(&mut self, e: QueueEntry)
        requires
            queue_wf(old(self)@),
            entry_ok(e@),
            !has_entry(old(self)@.entries, e@.envelope.message_id),
            old(self)@.entries.len() < old(self)@.limits.max_entries,
            old(self)@.stored_bytes + e@.encoded_size <= old(self)@.limits.max_bytes,
        ensures
            queue_wf(final(self)@),
            ({
                let es = old(self)@.entries;
                let ins = es.insert(fifo_insert_pos(es, e@), e@);
                final(self)@ == QueueView { entries: ins, stored_bytes: total_size(ins), ..old(self)@ }
            }),
    {
        let ghost es = old(self)@.entries;
        let ghost x = e@;
        proof {
            assert forall|j: int| 0 <= j < es.len() implies #[trigger] es[j].envelope.message_id.len()
                == 16 && es[j].envelope.message_id != x.envelope.message_id by {
                assert(entry_ok(es[j]));
            }
            lemma_fifo_insert_pos(es, x);
        }
        let mut p: usize = self.entries.len();
        proof {
            assert(es.take(p as int) =~= es);
        }
        while p > 0 && Self::entry_precedes(&e, &self.entries[p - 1])
            invariant
                p <= self.entries.len(),
                es == entry_views(self.entries@),
                x == e@,
                fifo_insert_pos(es, x) == fifo_insert_pos(es.take(p as int), x),
            decreases p,
        {
            proof {
                assert(es.take(p as int).drop_last() =~= es.take(p - 1));
                assert(es[p - 1] == self.entries@[p - 1]@);
            }
            p -= 1;
        }
        proof {
            if p > 0 {
                assert(es.take(p as int).last() == es[p - 1]);
                assert(es[p - 1] == self.entries@[p - 1]@);
            }
        }
        let size = e.encoded_size;
        self.entries.insert(p, e);
        self.stored_bytes = self.stored_bytes + size;
        proof {
            let ins = es.insert(p as int, x);
            assert(entry_views(self.entries@) =~= ins);
            assert(ins =~= es.take(p as int) + seq![x] + es.skip(p as int));
            assert(es =~= es.take(p as int) + es.skip(p as int));
            lemma_total_concat(es.take(p as int), es.skip(p as int));
            lemma_total_concat(es.take(p as int) + seq![x], es.skip(p as int));
            lemma_total_concat(es.take(p as int), seq![x]);
            lemma_total_single(x);
            assert forall|a: int, b: int| 0 <= a < b < ins.len() implies #[trigger] fifo_lt(
                ins[a],
                ins[b],
            ) by {
                if b < p {
                } else if b == p {
                    assert(ins[b] == x);
                } else if a < p {
                    assert(ins[a] == es[a] && ins[b] == es[b - 1]);
                    assert(fifo_lt(es[a], x));
                    assert(fifo_lt(x, es[b - 1]));
                    lemma_key_transitive(
                        es[a].route.first_seen_at, es[a].envelope.message_id,
                        x.route.first_seen_at, x.envelope.message_id,
                        es[b - 1].route.first_seen_at, es[b - 1].envelope.message_id,
                    );
                } else if a == p {
                    assert(ins[b] == es[b - 1]);
                } else {
                    assert(ins[a] == es[a - 1] && ins[b] == es[b - 1]);
                }
            }
            assert forall|a: int, b: int|
                0 <= a < ins.len() && 0 <= b < ins.len() && a != b implies ins[a].envelope.message_id
                != ins[b].envelope.message_id by {
                let ia = if a < p { a } else if a == p { -1 } else { a - 1 };
                let ib = if b < p { b } else if b == p { -1 } else { b - 1 };
                if ia >= 0 {
                    assert(ins[a] == es[ia]);
                }
                if ib >= 0 {
                    assert(ins[b] == es[ib]);
                }
            }
            assert forall|j: int| 0 <= j < ins.len() implies #[trigger] entry_ok(ins[j]) by {
                if j < p {
                    assert(ins[j] == es[j]);
                } else if j > p {
                    assert(ins[j] == es[j - 1]);
                }
            }
        }
    }

    /// Adds one Envelope with its stored route record, after expiring due
    /// entries and lapsed tombstones, as `enqueue_model` describes.
    pub fn enqueue(&mut self, envelope: Envelope, route: LocalRouteRecord, at: u64) -> (result:
        Result<EnqueueResult, QueueError>)
        requires
            old(self).wf(),
        ensures
            final(self).wf(),
            envelope@.message_id != route@.message_id ==> result == Err::<
                EnqueueResult,
                QueueError,
            >(QueueError::RouteMessageIdMismatch) && final(self)@ == old(self)@,
            envelope@.message_id == route@.message_id && route@.state != ContainerState::Stored
                ==> result == Err::<EnqueueResult, QueueError>(QueueError::RouteNotStored)
                && final(self)@ == old(self)@,
            envelope@.message_id == route@.message_id && route@.state == ContainerState::Stored
                ==> ({
                let m = enqueue_model(old(self)@, entry_of(envelope@, route@), at as int);
                &&& final(self)@ == m.1
                &&& match m.0 {
                    Ok((o, eff)) => result matches Ok(r) && r.spec_outcome() == o
                        && r.spec_effects()@ == eff,
                    Err(e) => result == Err::<EnqueueResult, QueueError>(e),
                }
            }),
    {
        let ghost q0 = self@;
        let incoming = match QueueEntry::try_new(envelope, route) {
            Ok(e) => e,
            Err(e) => {
                return Err(e);
            },
        };
        let ghost x = incoming@;
        proof {
            lemma_enqueue_keeps_apart(q0, x, at as int);
        }
        let inc_id = incoming.envelope.message_id();
        let expired_in = incoming.route.local_deadline() <= at;
        if expired_in {
            match self.tombstone_deadline(at) {
                Ok(_) => {},
                Err(e) => {
                    return Err(e);
                },
            }
        }
        let mut effects = match self.expire_due(at) {
            Ok(e) => e,
            Err(e) => {
                return Err(e);
            },
        };
        let ghost s1 = self@;
        match self.deduplication_status(inc_id, at) {
            DeduplicationStatus::Active => {
                return Ok(EnqueueResult { outcome: EnqueueOutcome::DuplicateActive, effects });
            },
            DeduplicationStatus::Tombstone => {
                return Ok(EnqueueResult { outcome: EnqueueOutcome::DuplicateTombstone, effects });
            },
            DeduplicationStatus::Unknown => {},
        }
        if expired_in {
            let deadline = match self.tombstone_deadline(at) {
                Ok(d) => d,
                Err(e) => {
                    return Err(e);
                },
            };
            let ev = self.record_tombstone(inc_id, at, deadline);
            match ev {
                Some(t) => {
                    proof {
                        assert(tombstone_views(effects.evicted_tombstones@.push(t))
                            =~= tombstone_views(effects.evicted_tombstones@).push(t@));
                    }
                    effects.evicted_tombstones.push(t);
                },
                None => {},
            }
            return Ok(EnqueueResult { outcome: EnqueueOutcome::Expired, effects });
        }
        if incoming.encoded_size > self.limits.max_bytes {
            return Ok(EnqueueResult { outcome: EnqueueOutcome::ItemExceedsByteQuota, effects });
        }
        let (k, remaining) = self.eviction_candidates(incoming.encoded_size);
        let deadline: u64 = if k > 0 {
            match self.tombstone_deadline(at) {
                Ok(d) => d,
                Err(e) => {
                    return Err(e);
                },
            }
        } else {
            0
        };
        let (mut removed, mut evicted) = self.evict_front(k, remaining, at, deadline);
        proof {
            assert(entry_views(effects.removed_entries@ + removed@) =~= entry_views(
                effects.removed_entries@,
            ) + entry_views(removed@));
            assert(tombstone_views(effects.evicted_tombstones@ + evicted@) =~= tombstone_views(
                effects.evicted_tombstones@,
            ) + tombstone_views(evicted@));
            let kept = s1.entries.skip(k as int);
            assert forall|j: int| 0 <= j < kept.len() implies #[trigger] kept[j].envelope.message_id
                != x.envelope.message_id by {
                assert(kept[j] == s1.entries[k + j]);
            }
        }
        effects.removed_entries.append(&mut removed);
        effects.evicted_tombstones.append(&mut evicted);
        self.insert_entry(incoming);
        Ok(EnqueueResult { outcome: EnqueueOutcome::Stored, effects })
    }


    /// Removes an entry after a separate cryptographic component opened it.
    ///
    /// This queue does not authenticate payloads. The caller must only invoke
    /// this method after successful sender and integrity verification.
    pub fn remove_opened(&mut self, message_id: MessageId, at: u64) -> (result: Result<
        QueueEffects,
        QueueError,
    >)
        requires
            old(self).wf(),
        ensures
            final(self).wf(),
            ({
                let m = remove_opened_model(old(self)@, message_id@, at as int);
                &&& final(self)@ == m.1
                &&& match m.0 {
                    Ok(eff) => result matches Ok(effects) && effects@ == eff,
                    Err(e) => result == Err::<QueueEffects, QueueError>(e),
                }
            }),
    {
        let ghost q0 = self@;
        proof {
            lemma_remove_opened_keeps_apart(q0, message_id@, at as int);
        }
        let ghost id = message_id@;
        let found = self.find_entry(&message_id);
        let deadline: u64 = match found {
            Some(_) => match self.tombstone_deadline(at) {
                Ok(d) => d,
                Err(e) => {
                    return Err(e);
                },
            },
            None => 0,
        };
        let expired = self.purge_expired_tombstones(at);
        let i = match found {
            Some(i) => i,
            None => {
                let removed_entries: Vec<QueueEntry> = Vec::new();
                let evicted_tombstones: Vec<TombstoneEntry> = Vec::new();
                proof {
                    assert(entry_views(removed_entries@) =~= Seq::<EntryView>::empty());
                    assert(tombstone_views(evicted_tombstones@) =~= Seq::<TombstoneView>::empty());
                }
                return Ok(
                    QueueEffects { removed_entries, expired_tombstones: expired, evicted_tombstones },
                );
            },
        };
        let ghost es = q0.entries;
        proof {
            let c = choose|c: int| 0 <= c < es.len() && #[trigger] es[c].envelope.message_id == id;
            assert(c == i);
            lemma_entry_views_remove(self.entries@, i as int);
            assert(entry_ok(es[i as int]));
            let rest = es.remove(i as int);
            assert(es =~= es.take(i as int) + seq![es[i as int]] + es.skip(i + 1));
            assert(rest =~= es.take(i as int) + es.skip(i + 1));
            lemma_total_concat(es.take(i as int) + seq![es[i as int]], es.skip(i + 1));
            lemma_total_concat(es.take(i as int), seq![es[i as int]]);
            lemma_total_concat(es.take(i as int), es.skip(i + 1));
            lemma_total_single(es[i as int]);
            assert forall|j: int| 0 <= j < i implies #[trigger] es.take(i as int)[j].encoded_size >= 0 by {
                assert(entry_ok(es[j]));
            }
            lemma_total_nonneg(es.take(i as int));
            assert forall|j: int| 0 <= j < es.skip(i + 1).len() implies #[trigger] es.skip(i + 1)[j].encoded_size >= 0 by {
                assert(entry_ok(es[i + 1 + j]));
            }
            lemma_total_nonneg(es.skip(i + 1));
        }
        let e = self.entries.remove(i);
        self.stored_bytes = self.stored_bytes - e.encoded_size;
        proof {
            let rest = es.remove(i as int);
            assert forall|a: int, b: int| 0 <= a < b < rest.len() implies #[trigger] fifo_lt(
                rest[a],
                rest[b],
            ) by {
                let ia = if a < i { a } else { a + 1 };
                let ib = if b < i { b } else { b + 1 };
                assert(rest[a] == es[ia] && rest[b] == es[ib]);
            }
            assert forall|a: int, b: int|
                0 <= a < rest.len() && 0 <= b < rest.len() && a != b implies rest[a].envelope.message_id
                != rest[b].envelope.message_id by {
                let ia = if a < i { a } else { a + 1 };
                let ib = if b < i { b } else { b + 1 };
                assert(rest[a] == es[ia] && rest[b] == es[ib]);
            }
            assert forall|j: int| 0 <= j < rest.len() implies #[trigger] entry_ok(rest[j]) by {
                let ij = if j < i { j } else { j + 1 };
                assert(rest[j] == es[ij]);
            }
            assert(queue_wf(self@));
        }
        let mut gone: Vec<QueueEntry> = Vec::new();
        gone.push(e);
        proof {
            assert(entry_views(gone@) =~= seq![es[i as int]]);
            assert(entry_ids(entry_views(gone@)) =~= seq![id]);
        }
        let (removed, evicted) = self.retire_entries(gone, ContainerState::Opened, at, deadline);
        Ok(QueueEffects { removed_entries: removed, expired_tombstones: expired, evicted_tombstones: evicted })
    }

    pub fn deduplication_status(&self, message_id: MessageId, at: u64) -> (status:
        DeduplicationStatus)
        requires
            self.wf(),
        ensures
            status == dedup_status(self@, message_id@, at as int),
    {
        if self.find_entry(&message_id).is_some() {
            return DeduplicationStatus::Active;
        }
        match self.find_tombstone(&message_id) {
            Some(i) => {
                if self.tombstones[i].is_active_at(at) {
                    DeduplicationStatus::Tombstone
                } else {
                    DeduplicationStatus::Unknown
                }
            },
            None => DeduplicationStatus::Unknown,
        }
    }
}

impl Default for EnvelopeQueue {
    fn default() -> (queue: Self)
        ensures
            queue.wf(),
            queue@.entries.len() == 0,
            queue@.stored_bytes == 0,
            queue@.tombstones.len() == 0,
    {
        EnvelopeQueue::new(QueueLimits::default())
    }
}

} // verus!
