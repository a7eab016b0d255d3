use std::collections::BTreeSet;

use lantern::queue::EnvelopeQueue;
use lantern::{
    ContainerState, Envelope, LocalRouteRecord, QueueLimits, NORMAL_PRIORITY, PROTOCOL_VERSION,
};

fn queue_limits() -> QueueLimits {
    let result = QueueLimits::try_new(8, 16 * 1024, 16, 600);
    let Ok(limits) = result else {
        panic!("valid queue limits were rejected");
    };
    limits
}

fn message_id(value: u16) -> [u8; 16] {
    let mut id = [0_u8; 16];
    id[..2].copy_from_slice(&value.to_be_bytes());
    id
}

fn envelope(id: u16, payload_size: usize) -> Envelope {
    let result = Envelope::try_from_fields(
        PROTOCOL_VERSION,
        message_id(id),
        [0x22; 16],
        60,
        4,
        NORMAL_PRIORITY,
        vec![0x33; payload_size],
    );
    let Ok(envelope) = result else {
        panic!("valid Envelope was rejected");
    };
    envelope
}

/// A fixed pseudo-random sequence of (identifier, payload size, elapsed seconds).
fn steps(seed: u64, count: usize) -> Vec<(u16, usize, u64)> {
    let mut state = seed;
    let mut out = Vec::new();
    for _ in 0..count {
        state = state.wrapping_mul(6364136223846793005).wrapping_add(1442695040888963407);
        let id = ((state >> 33) % 40) as u16;
        let size = 1 + ((state >> 17) % 4096) as usize;
        let elapsed = (state >> 7) % 91;
        out.push((id, size, elapsed));
    }
    out
}

#[test]
fn queue_limits_and_tombstone_separation_hold_over_a_sequence_of_enqueues() {
    for seed in [1_u64, 7, 42, 0x4c41_4e54] {
        let limits = queue_limits();
        let mut queue = EnvelopeQueue::new(limits);
        let mut now = 1_000_u64;
        for (id, payload_size, elapsed) in steps(seed, 160) {
            now += elapsed;
            let envelope = envelope(id, payload_size);
            let route = LocalRouteRecord::for_origin(&envelope, now);
            let Ok(route) = route else {
                panic!("origin route was rejected");
            };
            assert!(queue.enqueue(envelope, route, now).is_ok());

            assert!(queue.len() <= limits.max_entries());
            assert!(queue.stored_bytes() <= limits.max_bytes());
            assert!(queue.tombstone_count() <= limits.max_tombstones());

            let mut active_ids = BTreeSet::new();
            let mut stored_bytes = 0_usize;
            let entries = queue.entries();
            assert_eq!(entries.len(), queue.len());
            for entry in &entries {
                assert_eq!(entry.route().state(), ContainerState::Stored);
                assert!(entry.route().local_deadline() > now);
                assert!(active_ids.insert(entry.envelope().message_id()));
                stored_bytes += entry.encoded_size();
            }
            for pair in entries.windows(2) {
                assert!(pair[0].envelope().message_id().as_bytes() < pair[1].envelope().message_id().as_bytes());
            }
            assert_eq!(stored_bytes, queue.stored_bytes());
            let tombstones = queue.tombstones();
            assert_eq!(tombstones.len(), queue.tombstone_count());
            for tombstone in &tombstones {
                assert!(!active_ids.contains(&tombstone.message_id()));
            }
            for pair in tombstones.windows(2) {
                assert!(pair[0].message_id().as_bytes() < pair[1].message_id().as_bytes());
            }
        }
    }
}

#[test]
fn entries_come_in_ascending_identifier_order() {
    let mut queue = EnvelopeQueue::new(queue_limits());
    for (offset, id) in [5_u16, 1, 9, 3].into_iter().enumerate() {
        let at = 1_000 + offset as u64;
        let envelope = envelope(id, 10);
        let Ok(route) = LocalRouteRecord::for_origin(&envelope, at) else {
            panic!("origin route was rejected");
        };
        assert!(queue.enqueue(envelope, route, at).is_ok());
    }
    let ids: Vec<[u8; 16]> = queue
        .entries()
        .iter()
        .map(|entry| *entry.envelope().message_id().as_bytes())
        .collect();
    assert_eq!(ids, vec![message_id(1), message_id(3), message_id(5), message_id(9)]);
}
