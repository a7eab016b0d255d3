//! The decisions of one node's lifecycle that do not touch storage or the
//! network: how queue and journal effects add up into a maintenance report,
//! which diagnostic an enqueue produces, and whether a removal opened a
//! message.
use vstd::prelude::*;

use crate::diagnostics::event::{EventCode, EventOutcome};
use crate::diagnostics::journal::JournalMaintenance;
use crate::queue::{entry_views, EnqueueOutcome, EntryView, QueueEffects, QueueEntry};
use crate::route::ContainerState;

verus! {

/// Lifecycle state of a node.
#[derive(Clone, Copy, Debug, PartialEq, Eq, Structural)]
pub enum NodeState {
    Running,
    Failed,
    Stopped,
}

/// Which side opens an encounter.
#[derive(Clone, Copy, Debug, PartialEq, Eq, Structural)]
pub enum EncounterRole {
    Initiator,
    Responder,
}

/// Safe category of a failure to take the node's profile lock.
#[derive(Clone, Copy, Debug, PartialEq, Eq, Structural)]
pub enum ProfileLockError {
    AlreadyInUse,
    InvalidLockFile,
    Io,
}

/// The description of a `ProfileLockError`.
pub open spec fn profile_lock_error_text(error: ProfileLockError) -> Seq<char> {
    match error {
        ProfileLockError::AlreadyInUse => "node profile is already in use"@,
        ProfileLockError::InvalidLockFile => "node profile lock file is invalid"@,
        ProfileLockError::Io => "node profile lock operation failed"@,
    }
}

impl ProfileLockError {
    /// Short human-readable description.
    pub fn message(&self) -> (text: &'static str)
        ensures
            text@ == profile_lock_error_text(*self),
    {
        match self {
            ProfileLockError::AlreadyInUse => "node profile is already in use",
            ProfileLockError::InvalidLockFile => "node profile lock file is invalid",
            ProfileLockError::Io => "node profile lock operation failed",
        }
    }
}

/// A profile lock file: a regular file, not a link, empty, open to its owner
/// alone, with one name.
pub open spec fn lock_file_ok(is_symlink: bool, is_file: bool, len: u64, mode: u32, link_count: u64) -> bool {
    !is_symlink && is_file && len == 0 && mode % 512 == 0o600 && link_count == 1
}

/// What a profile lock file must be: an empty regular file, not a link,
/// with one name, readable and writable by its owner and by nobody else.
pub proof fn law_lock_file(is_symlink: bool, is_file: bool, len: u64, mode: u32, link_count: u64)
    ensures
        lock_file_ok(is_symlink, is_file, len, mode, link_count) <==> (!is_symlink && is_file && len
            == 0 && link_count == 1 && (mode / 64) % 8 == 6 && (mode / 8) % 8 == 0 && mode % 8 == 0),
{
    let m = mode as int;
    assert(m % 512 == 64 * ((m / 64) % 8) + 8 * ((m / 8) % 8) + m % 8) by (nonlinear_arith)
        requires
            m >= 0,
    ;
}

/// Checks the metadata of a profile lock file, found at its path or read
/// from the opened file; `InvalidLockFile` when it is not `lock_file_ok`.
pub fn validate_lock_metadata(is_symlink: bool, is_file: bool, len: u64, mode: u32, link_count: u64) -> (result:
    Result<(), ProfileLockError>)
    ensures
        lock_file_ok(is_symlink, is_file, len, mode, link_count) ==> result is Ok,
        !lock_file_ok(is_symlink, is_file, len, mode, link_count) ==> result == Err::<
            (),
            ProfileLockError,
        >(ProfileLockError::InvalidLockFile),
{
    if is_symlink || !is_file || len != 0 || mode % 512 != 0o600 || link_count != 1 {
        return Err(ProfileLockError::InvalidLockFile);
    }
    Ok(())
}

/// The file opened for the lock is the one at the lock path: same device and
/// same inode; `InvalidLockFile` otherwise.
pub fn same_opened_file(path_device: u64, path_inode: u64, file_device: u64, file_inode: u64) -> (result:
    Result<(), ProfileLockError>)
    ensures
        path_device == file_device && path_inode == file_inode ==> result is Ok,
        !(path_device == file_device && path_inode == file_inode) ==> result == Err::<
            (),
            ProfileLockError,
        >(ProfileLockError::InvalidLockFile),
{
    if path_device != file_device || path_inode != file_inode {
        return Err(ProfileLockError::InvalidLockFile);
    }
    Ok(())
}

/// Model of a maintenance report.
pub struct NodeMaintenanceView {
    pub clock_rollback_detected: bool,
    pub expired_entries: int,
    pub evicted_entries: int,
    pub expired_tombstones: int,
    pub evicted_tombstones: int,
    pub expired_diagnostics: int,
    pub evicted_diagnostics: int,
    pub cleared_diagnostics: int,
}

/// What one lifecycle step removed from the queue and the journal.
#[derive(Clone, Copy, Debug, PartialEq, Eq, Structural)]
pub struct NodeMaintenance {
    clock_rollback_detected: bool,
    expired_entries: usize,
    evicted_entries: usize,
    expired_tombstones: usize,
    evicted_tombstones: usize,
    expired_diagnostics: usize,
    evicted_diagnostics: usize,
    cleared_diagnostics: usize,
}

impl View for NodeMaintenance {
    type V = NodeMaintenanceView;

    closed spec fn view(&self) -> NodeMaintenanceView {
        NodeMaintenanceView {
            clock_rollback_detected: self.clock_rollback_detected,
            expired_entries: self.expired_entries as int,
            evicted_entries: self.evicted_entries as int,
            expired_tombstones: self.expired_tombstones as int,
            evicted_tombstones: self.evicted_tombstones as int,
            expired_diagnostics: self.expired_diagnostics as int,
            evicted_diagnostics: self.evicted_diagnostics as int,
            cleared_diagnostics: self.cleared_diagnostics as int,
        }
    }
}

/// How many of the removed entries left the queue in the given state.
pub open spec fn count_in_state(entries: Seq<EntryView>, state: ContainerState) -> int
    decreases entries.len(),
{
    if entries.len() == 0 {
        0
    } else {
        count_in_state(entries.drop_last(), state) + if entries.last().route.state == state {
            1int
        } else {
            0int
        }
    }
}

proof fn lemma_count_bounded(entries: Seq<EntryView>, state: ContainerState)
    ensures
        0 <= count_in_state(entries, state) <= entries.len(),
    decreases entries.len(),
{
    if entries.len() > 0 {
        lemma_count_bounded(entries.drop_last(), state);
    }
}

/// Whether any removed entry left the queue in the given state.
pub open spec fn any_in_state(entries: Seq<EntryView>, state: ContainerState) -> bool {
    exists|i: int| 0 <= i < entries.len() && (#[trigger] entries[i]).route.state == state
}

proof fn lemma_count_concat(a: Seq<EntryView>, b: Seq<EntryView>, state: ContainerState)
    ensures
        count_in_state(a + b, state) == count_in_state(a, state) + count_in_state(b, state),
    decreases b.len(),
{
    if b.len() > 0 {
        lemma_count_concat(a, b.drop_last(), state);
        assert((a + b).drop_last() =~= a + b.drop_last());
        assert((a + b).last() == b.last());
    } else {
        assert(a + b =~= a);
    }
}

proof fn lemma_count_positive(a: Seq<EntryView>, state: ContainerState)
    ensures
        any_in_state(a, state) <==> count_in_state(a, state) > 0,
    decreases a.len(),
{
    if a.len() > 0 {
        let r = a.drop_last();
        lemma_count_positive(r, state);
        lemma_count_bounded(r, state);
        if any_in_state(r, state) {
            let i = choose|i: int| 0 <= i < r.len() && (#[trigger] r[i]).route.state == state;
            assert(a[i] == r[i]);
        }
        if any_in_state(a, state) && a.last().route.state != state {
            let i = choose|i: int| 0 <= i < a.len() && (#[trigger] a[i]).route.state == state;
            assert(i < a.len() - 1);
            assert(r[i] == a[i]);
        }
        if a.last().route.state == state {
            assert(a[a.len() - 1].route.state == state);
        }
    }
}

/// Counting removed entries by state: no entry counts nothing, one entry
/// counts one exactly when it left in that state, the count of two runs is
/// the sum of their counts, it never exceeds the number of entries, and some
/// entry left in a state exactly when the count for it is positive.
pub proof fn law_count_in_state(
    a: Seq<EntryView>,
    b: Seq<EntryView>,
    e: EntryView,
    state: ContainerState,
)
    ensures
        count_in_state(Seq::<EntryView>::empty(), state) == 0,
        count_in_state(seq![e], state) == (if e.route.state == state {
            1int
        } else {
            0int
        }),
        count_in_state(a + b, state) == count_in_state(a, state) + count_in_state(b, state),
        0 <= count_in_state(a, state) <= a.len(),
        any_in_state(a, state) <==> count_in_state(a, state) > 0,
{
    lemma_count_concat(a, b, state);
    lemma_count_bounded(a, state);
    lemma_count_positive(a, state);
    assert(seq![e].drop_last() =~= Seq::<EntryView>::empty());
    assert(seq![e].last() == e);
    assert(count_in_state(seq![e].drop_last(), state) == 0);
}

fn count_removed(entries: &[QueueEntry], state: ContainerState) -> (count: usize)
    ensures
        count == count_in_state(entry_views(entries@), state),
{
    let ghost views = entry_views(entries@);
    let mut count: usize = 0;
    let mut i: usize = 0;
    while i < entries.len()
        invariant
            0 <= i <= entries@.len(),
            views == entry_views(entries@),
            count == count_in_state(views.take(i as int), state),
        decreases entries.len() - i,
    {
        proof {
            assert(views.take(i as int + 1).drop_last() =~= views.take(i as int));
            lemma_count_bounded(views.take(i as int), state);
        }
        if entries[i].route().state() == state {
            count = count + 1;
        }
        i = i + 1;
    }
    proof {
        assert(views.take(i as int) =~= views);
    }
    count
}

/// Whether any of the entries left the queue opened.
pub fn any_opened(entries: &[QueueEntry]) -> (found: bool)
    ensures
        found == any_in_state(entry_views(entries@), ContainerState::Opened),
{
    let ghost views = entry_views(entries@);
    let mut i: usize = 0;
    while i < entries.len()
        invariant
            0 <= i <= entries@.len(),
            views == entry_views(entries@),
            forall|j: int| 0 <= j < i ==> (#[trigger] views[j]).route.state
                != ContainerState::Opened,
        decreases entries.len() - i,
    {
        if entries[i].route().state() == ContainerState::Opened {
            assert(views[i as int].route.state == ContainerState::Opened);
            return true;
        }
        i = i + 1;
    }
    false
}

impl Default for NodeMaintenance {
    fn default() -> (report: Self)
        ensures
            !report@.clock_rollback_detected,
            report@.expired_entries == 0,
            report@.evicted_entries == 0,
            report@.expired_tombstones == 0,
            report@.evicted_tombstones == 0,
            report@.expired_diagnostics == 0,
            report@.evicted_diagnostics == 0,
            report@.cleared_diagnostics == 0,
    {
        NodeMaintenance {
            clock_rollback_detected: false,
            expired_entries: 0,
            evicted_entries: 0,
            expired_tombstones: 0,
            evicted_tombstones: 0,
            expired_diagnostics: 0,
            evicted_diagnostics: 0,
            cleared_diagnostics: 0,
        }
    }
}

impl NodeMaintenance {
    pub fn clock_rollback_detected(self) -> (value: bool)
        ensures
            value == self@.clock_rollback_detected,
    {
        self.clock_rollback_detected
    }

    pub fn expired_entries(self) -> (value: usize)
        ensures
            value == self@.expired_entries,
    {
        self.expired_entries
    }

    pub fn evicted_entries(self) -> (value: usize)
        ensures
            value == self@.evicted_entries,
    {
        self.evicted_entries
    }

    pub fn expired_tombstones(self) -> (value: usize)
        ensures
            value == self@.expired_tombstones,
    {
        self.expired_tombstones
    }

    pub fn evicted_tombstones(self) -> (value: usize)
        ensures
            value == self@.evicted_tombstones,
    {
        self.evicted_tombstones
    }

    pub fn expired_diagnostics(self) -> (value: usize)
        ensures
            value == self@.expired_diagnostics,
    {
        self.expired_diagnostics
    }

    pub fn evicted_diagnostics(self) -> (value: usize)
        ensures
            value == self@.evicted_diagnostics,
    {
        self.evicted_diagnostics
    }

    pub fn cleared_diagnostics(self) -> (value: usize)
        ensures
            value == self@.cleared_diagnostics,
    {
        self.cleared_diagnostics
    }

    /// Adds what a queue operation removed: entries that left expired or
    /// evicted, and tombstones that expired or were evicted.
    pub fn include_queue_effects(&mut self, effects: &QueueEffects)
        requires
            old(self)@.expired_entries + effects@.removed.len() <= usize::MAX,
            old(self)@.evicted_entries + effects@.removed.len() <= usize::MAX,
            old(self)@.expired_tombstones + effects@.expired.len() <= usize::MAX,
            old(self)@.evicted_tombstones + effects@.evicted.len() <= usize::MAX,
        ensures
            final(self)@.expired_entries == old(self)@.expired_entries + count_in_state(
                effects@.removed,
                ContainerState::Expired,
            ),
            final(self)@.evicted_entries == old(self)@.evicted_entries + count_in_state(
                effects@.removed,
                ContainerState::Evicted,
            ),
            final(self)@.expired_tombstones == old(self)@.expired_tombstones
                + effects@.expired.len(),
            final(self)@.evicted_tombstones == old(self)@.evicted_tombstones
                + effects@.evicted.len(),
            final(self)@.clock_rollback_detected == old(self)@.clock_rollback_detected,
            final(self)@.expired_diagnostics == old(self)@.expired_diagnostics,
            final(self)@.evicted_diagnostics == old(self)@.evicted_diagnostics,
            final(self)@.cleared_diagnostics == old(self)@.cleared_diagnostics,
    {
        let removed = effects.removed_entries();
        let expired = count_removed(removed, ContainerState::Expired);
        let evicted = count_removed(removed, ContainerState::Evicted);
        proof {
            lemma_count_bounded(entry_views(removed@), ContainerState::Expired);
            lemma_count_bounded(entry_views(removed@), ContainerState::Evicted);
        }
        self.expired_entries = self.expired_entries + expired;
        self.evicted_entries = self.evicted_entries + evicted;
        self.expired_tombstones = self.expired_tombstones + effects.expired_tombstones().len();
        self.evicted_tombstones = self.evicted_tombstones + effects.evicted_tombstones().len();
    }

    /// Adds what a journal maintenance pass removed.
    pub fn include_journal_maintenance(&mut self, maintenance: JournalMaintenance)
        requires
            old(self)@.expired_diagnostics + maintenance@.expired <= usize::MAX,
            old(self)@.evicted_diagnostics + maintenance@.evicted <= usize::MAX,
            old(self)@.cleared_diagnostics + maintenance@.rollback_cleared <= usize::MAX,
        ensures
            final(self)@.expired_diagnostics == old(self)@.expired_diagnostics
                + maintenance@.expired,
            final(self)@.evicted_diagnostics == old(self)@.evicted_diagnostics
                + maintenance@.evicted,
            final(self)@.cleared_diagnostics == old(self)@.cleared_diagnostics
                + maintenance@.rollback_cleared,
            final(self)@.clock_rollback_detected == old(self)@.clock_rollback_detected,
            final(self)@.expired_entries == old(self)@.expired_entries,
            final(self)@.evicted_entries == old(self)@.evicted_entries,
            final(self)@.expired_tombstones == old(self)@.expired_tombstones,
            final(self)@.evicted_tombstones == old(self)@.evicted_tombstones,
    {
        self.expired_diagnostics = self.expired_diagnostics + maintenance.expired_records();
        self.evicted_diagnostics = self.evicted_diagnostics + maintenance.evicted_records();
        self.cleared_diagnostics = self.cleared_diagnostics + maintenance.rollback_cleared_records();
    }
}

/// Outcome of an enqueue together with the maintenance it caused.
#[derive(Clone, Copy, Debug, PartialEq, Eq, Structural)]
pub struct NodeEnqueueReport {
    outcome: EnqueueOutcome,
    maintenance: NodeMaintenance,
}

impl NodeEnqueueReport {
    pub fn new(outcome: EnqueueOutcome, maintenance: NodeMaintenance) -> (report: Self)
        ensures
            report.spec_outcome() == outcome,
            report.spec_maintenance() == maintenance,
    {
        NodeEnqueueReport { outcome, maintenance }
    }

    pub closed spec fn spec_outcome(self) -> EnqueueOutcome {
        self.outcome
    }

    pub closed spec fn spec_maintenance(self) -> NodeMaintenance {
        self.maintenance
    }

    pub fn outcome(self) -> (value: EnqueueOutcome)
        ensures
            value == self.spec_outcome(),
    {
        self.outcome
    }

    pub fn maintenance(self) -> (value: NodeMaintenance)
        ensures
            value == self.spec_maintenance(),
    {
        self.maintenance
    }
}

/// Whether a message was opened, together with the maintenance it caused.
#[derive(Clone, Copy, Debug, PartialEq, Eq, Structural)]
pub struct NodeOpenReport {
    opened: bool,
    maintenance: NodeMaintenance,
}

impl NodeOpenReport {
    /// The report of a removal: opened when one of the removed entries left
    /// the queue opened.
    pub fn from_removed(removed: &[QueueEntry], maintenance: NodeMaintenance) -> (report: Self)
        ensures
            report.spec_opened() == any_in_state(entry_views(removed@), ContainerState::Opened),
            report.spec_maintenance() == maintenance,
    {
        NodeOpenReport { opened: any_opened(removed), maintenance }
    }

    pub closed spec fn spec_opened(self) -> bool {
        self.opened
    }

    pub closed spec fn spec_maintenance(self) -> NodeMaintenance {
        self.maintenance
    }

    pub fn opened(self) -> (value: bool)
        ensures
            value == self.spec_opened(),
    {
        self.opened
    }

    pub fn maintenance(self) -> (value: NodeMaintenance)
        ensures
            value == self.spec_maintenance(),
    {
        self.maintenance
    }
}

/// The diagnostic that an enqueue outcome is recorded as.
pub open spec fn enqueue_event_spec(outcome: EnqueueOutcome) -> (EventCode, EventOutcome) {
    match outcome {
        EnqueueOutcome::Stored => (EventCode::EnvelopeAccepted, EventOutcome::Success),
        EnqueueOutcome::DuplicateActive => (EventCode::DuplicateIgnored, EventOutcome::Duplicate),
        EnqueueOutcome::DuplicateTombstone => (EventCode::DuplicateIgnored, EventOutcome::Duplicate),
        EnqueueOutcome::Expired => (EventCode::EnvelopeRejected, EventOutcome::Expired),
        EnqueueOutcome::ItemExceedsByteQuota => (EventCode::EnvelopeRejected, EventOutcome::QuotaReached),
    }
}

/// Event code and outcome under which an enqueue is recorded.
pub fn enqueue_event(outcome: EnqueueOutcome) -> (event: (EventCode, EventOutcome))
    ensures
        event == enqueue_event_spec(outcome),
        (outcome == EnqueueOutcome::DuplicateActive || outcome == EnqueueOutcome::DuplicateTombstone)
            <==> event == (EventCode::DuplicateIgnored, EventOutcome::Duplicate),
        (event.0 == EventCode::EnvelopeAccepted) <==> outcome == EnqueueOutcome::Stored,
        (event.1 == EventOutcome::Success) <==> outcome == EnqueueOutcome::Stored,
        (event.0 == EventCode::EnvelopeRejected) <==> (outcome == EnqueueOutcome::Expired || outcome
            == EnqueueOutcome::ItemExceedsByteQuota),
        (event.1 == EventOutcome::Expired) <==> outcome == EnqueueOutcome::Expired,
        (event.1 == EventOutcome::QuotaReached) <==> outcome == EnqueueOutcome::ItemExceedsByteQuota,
{
    proof {
        law_enqueue_events(outcome);
    }
    match outcome {
        EnqueueOutcome::Stored => (EventCode::EnvelopeAccepted, EventOutcome::Success),
        EnqueueOutcome::DuplicateActive => (EventCode::DuplicateIgnored, EventOutcome::Duplicate),
        EnqueueOutcome::DuplicateTombstone => (EventCode::DuplicateIgnored, EventOutcome::Duplicate),
        EnqueueOutcome::Expired => (EventCode::EnvelopeRejected, EventOutcome::Expired),
        EnqueueOutcome::ItemExceedsByteQuota => (EventCode::EnvelopeRejected, EventOutcome::QuotaReached),
    }
}

/// How enqueue outcomes are recorded: a duplicate, active or tombstoned, is
/// always recorded as an ignored duplicate and never as an accepted
/// Envelope; only a stored Envelope is recorded as accepted with success; an
/// expired Envelope and one over the byte quota are recorded as rejected,
/// as expired and as quota reached respectively.
pub proof fn law_enqueue_events(outcome: EnqueueOutcome)
    ensures
        (outcome == EnqueueOutcome::DuplicateActive || outcome == EnqueueOutcome::DuplicateTombstone)
            <==> enqueue_event_spec(outcome) == (EventCode::DuplicateIgnored, EventOutcome::Duplicate),
        (enqueue_event_spec(outcome).0 == EventCode::EnvelopeAccepted) <==> outcome
            == EnqueueOutcome::Stored,
        (enqueue_event_spec(outcome).1 == EventOutcome::Success) <==> outcome == EnqueueOutcome::Stored,
        (enqueue_event_spec(outcome).0 == EventCode::EnvelopeRejected) <==> (outcome
            == EnqueueOutcome::Expired || outcome == EnqueueOutcome::ItemExceedsByteQuota),
        (enqueue_event_spec(outcome).1 == EventOutcome::Expired) <==> outcome
            == EnqueueOutcome::Expired,
        (enqueue_event_spec(outcome).1 == EventOutcome::QuotaReached) <==> outcome
            == EnqueueOutcome::ItemExceedsByteQuota,
{
}

} // verus!
