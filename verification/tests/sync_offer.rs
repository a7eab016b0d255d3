use std::collections::BTreeSet;

use lantern::queue::EnvelopeQueue;
use lantern::sync_offer::select_sync_offer_ids;
use lantern::{Envelope, LocalRouteRecord, MessageId, QueueLimits, NORMAL_PRIORITY, PROTOCOL_VERSION};

/// Batch size used by these tests for one sync offer.
const MAX_OFFERED_IDS: usize = 32;

fn envelope(number: u8) -> Envelope {
    let result = Envelope::try_from_fields(
        PROTOCOL_VERSION,
        [number; 16],
        [0x22; 16],
        60,
        4,
        NORMAL_PRIORITY,
        vec![0x33; 32],
    );
    let Ok(envelope) = result else {
        panic!("valid maintenance test Envelope was rejected");
    };
    envelope
}

fn route(envelope: &Envelope, now: u64) -> LocalRouteRecord {
    let result = LocalRouteRecord::for_origin(envelope, now);
    let Ok(route) = result else {
        panic!("valid maintenance test route was rejected");
    };
    route
}

fn id_bytes(ids: &[MessageId]) -> Vec<[u8; 16]> {
    ids.iter().map(|id| *id.as_bytes()).collect()
}

#[test]
fn sync_offer_cursor_reaches_items_beyond_the_first_batch() {
    let limits = QueueLimits::try_new(64, 1024 * 1024, 64, 600)
        .unwrap_or_else(|_| panic!("rotation queue limits should be valid"));
    let mut queue = EnvelopeQueue::new(limits);
    for number in 1..=40 {
        let item = envelope(number);
        let item_route = route(&item, 100);
        queue
            .enqueue(item, item_route, 100)
            .unwrap_or_else(|_| panic!("rotation fixture should enter the queue"));
    }
    let wait = envelope(50);
    let wait_id = *wait.message_id().as_bytes();
    let wait_route = LocalRouteRecord::from_received(&wait, 100, 60, 1, 1)
        .unwrap_or_else(|_| panic!("wait route fixture should be valid"));
    queue
        .enqueue(wait, wait_route, 100)
        .unwrap_or_else(|_| panic!("wait fixture should enter the queue"));
    let hop_limited = envelope(51);
    let hop_id = *hop_limited.message_id().as_bytes();
    let hop_route = LocalRouteRecord::from_received(
        &hop_limited,
        100,
        60,
        u64::from(hop_limited.max_hops().get()),
        8,
    )
    .unwrap_or_else(|_| panic!("hop-limited route fixture should be valid"));
    queue
        .enqueue(hop_limited, hop_route, 100)
        .unwrap_or_else(|_| panic!("hop-limited fixture should enter the queue"));
    let mut cursor = None;

    let first = select_sync_offer_ids(&queue, &mut cursor, 100, MAX_OFFERED_IDS);
    let second = select_sync_offer_ids(&queue, &mut cursor, 100, MAX_OFFERED_IDS);
    let reached = id_bytes(&first)
        .into_iter()
        .chain(id_bytes(&second))
        .collect::<BTreeSet<_>>();

    assert_eq!(first.len(), MAX_OFFERED_IDS);
    assert_eq!(second.len(), MAX_OFFERED_IDS);
    assert_eq!(reached.len(), 40);
    assert!(!reached.contains(&wait_id));
    assert!(!reached.contains(&hop_id));
}

#[test]
fn sync_offer_rounds_resume_after_the_last_identifier() {
    let limits = QueueLimits::try_new(64, 1024 * 1024, 64, 600)
        .unwrap_or_else(|_| panic!("queue limits should be valid"));
    let mut queue = EnvelopeQueue::new(limits);
    for number in [5u8, 3, 9, 1, 7] {
        let item = envelope(number);
        let item_route = route(&item, 100);
        queue
            .enqueue(item, item_route, 100)
            .unwrap_or_else(|_| panic!("fixture should enter the queue"));
    }
    let mut cursor = None;
    let first = select_sync_offer_ids(&queue, &mut cursor, 100, 2);
    assert_eq!(id_bytes(&first), vec![[1; 16], [3; 16]]);
    assert_eq!(cursor.map(|id| *id.as_bytes()), Some([3; 16]));
    let second = select_sync_offer_ids(&queue, &mut cursor, 100, 2);
    assert_eq!(id_bytes(&second), vec![[5; 16], [7; 16]]);
    let third = select_sync_offer_ids(&queue, &mut cursor, 100, 2);
    // The round wraps: 9 is taken before 1, and the result is in ascending order.
    assert_eq!(id_bytes(&third), vec![[1; 16], [9; 16]]);
    assert_eq!(cursor.map(|id| *id.as_bytes()), Some([1; 16]));

    let mut untouched = Some(MessageId::from_bytes([3; 16]));
    let nothing = select_sync_offer_ids(&queue, &mut untouched, 200, 2);
    assert!(nothing.is_empty());
    assert_eq!(untouched.map(|id| *id.as_bytes()), Some([3; 16]));
}
