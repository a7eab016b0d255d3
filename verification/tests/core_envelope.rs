use lantern::{
    ContainerState, CoreError, Envelope, Field, LocalRouteRecord, INITIAL_COPY_BUDGET,
    MAX_MAX_HOPS, MAX_PROTECTED_PAYLOAD_SIZE, MAX_TTL_SECONDS, MESSAGE_ID_LENGTH, MIN_MAX_HOPS,
    MIN_PROTECTED_PAYLOAD_SIZE, MIN_TTL_SECONDS, NORMAL_PRIORITY, PROTOCOL_VERSION,
    RECIPIENT_HINT_LENGTH,
};

const TEST_MESSAGE_ID: [u8; MESSAGE_ID_LENGTH] = [0x11; MESSAGE_ID_LENGTH];
const TEST_RECIPIENT_HINT: [u8; RECIPIENT_HINT_LENGTH] = [0x22; RECIPIENT_HINT_LENGTH];

fn envelope_with(
    protocol_version: u64,
    ttl_seconds: u64,
    max_hops: u64,
    priority: u64,
    payload_size: usize,
) -> Result<Envelope, CoreError> {
    Envelope::try_from_fields(
        protocol_version,
        TEST_MESSAGE_ID,
        TEST_RECIPIENT_HINT,
        ttl_seconds,
        max_hops,
        priority,
        vec![0x54; payload_size],
    )
}

#[test]
fn accepts_minimum_and_maximum_field_values() {
    assert!(envelope_with(
        PROTOCOL_VERSION,
        MIN_TTL_SECONDS,
        MIN_MAX_HOPS,
        NORMAL_PRIORITY,
        MIN_PROTECTED_PAYLOAD_SIZE,
    )
    .is_ok());
    assert!(envelope_with(
        PROTOCOL_VERSION,
        MAX_TTL_SECONDS,
        MAX_MAX_HOPS,
        NORMAL_PRIORITY,
        MAX_PROTECTED_PAYLOAD_SIZE,
    )
    .is_ok());
}

#[test]
fn rejects_unknown_version_and_priority() {
    assert_eq!(
        envelope_with(2, MIN_TTL_SECONDS, MIN_MAX_HOPS, NORMAL_PRIORITY, 1).err(),
        Some(CoreError::UnsupportedValue { field: Field::ProtocolVersion })
    );
    assert_eq!(
        envelope_with(PROTOCOL_VERSION, MIN_TTL_SECONDS, MIN_MAX_HOPS, 1, 1).err(),
        Some(CoreError::UnsupportedValue { field: Field::Priority })
    );
}

#[test]
fn rejects_ttl_outside_protocol_range() {
    assert_eq!(
        envelope_with(PROTOCOL_VERSION, MIN_TTL_SECONDS - 1, MIN_MAX_HOPS, NORMAL_PRIORITY, 1)
            .err(),
        Some(CoreError::ValueBelowMinimum { field: Field::TtlSeconds })
    );
    assert_eq!(
        envelope_with(PROTOCOL_VERSION, MAX_TTL_SECONDS + 1, MIN_MAX_HOPS, NORMAL_PRIORITY, 1)
            .err(),
        Some(CoreError::ValueAboveMaximum { field: Field::TtlSeconds })
    );
}

#[test]
fn rejects_hop_limit_outside_protocol_range() {
    assert_eq!(
        envelope_with(PROTOCOL_VERSION, MIN_TTL_SECONDS, MIN_MAX_HOPS - 1, NORMAL_PRIORITY, 1)
            .err(),
        Some(CoreError::ValueBelowMinimum { field: Field::MaxHops })
    );
    assert_eq!(
        envelope_with(PROTOCOL_VERSION, MIN_TTL_SECONDS, MAX_MAX_HOPS + 1, NORMAL_PRIORITY, 1)
            .err(),
        Some(CoreError::ValueAboveMaximum { field: Field::MaxHops })
    );
}

#[test]
fn rejects_empty_and_oversized_payloads() {
    assert_eq!(
        envelope_with(PROTOCOL_VERSION, MIN_TTL_SECONDS, MIN_MAX_HOPS, NORMAL_PRIORITY, 0).err(),
        Some(CoreError::ValueBelowMinimum { field: Field::ProtectedPayload })
    );
    assert_eq!(
        envelope_with(
            PROTOCOL_VERSION,
            MIN_TTL_SECONDS,
            MIN_MAX_HOPS,
            NORMAL_PRIORITY,
            MAX_PROTECTED_PAYLOAD_SIZE + 1,
        )
        .err(),
        Some(CoreError::ValueAboveMaximum { field: Field::ProtectedPayload })
    );
}

#[test]
fn debug_output_redacts_identifier_hint_and_payload() {
    let result = envelope_with(PROTOCOL_VERSION, MIN_TTL_SECONDS, MIN_MAX_HOPS, NORMAL_PRIORITY, 4);
    let Ok(envelope) = result else {
        panic!("valid test Envelope was rejected");
    };

    let output = envelope.redacted_debug().to_string();
    assert!(!output.contains("17, 17"));
    assert!(!output.contains("34, 34"));
    assert!(!output.contains("84, 84"));
    assert!(output.contains("length"));
}

fn route_envelope() -> Envelope {
    let result = Envelope::try_from_fields(
        PROTOCOL_VERSION,
        [0x11; 16],
        [0x22; 16],
        MAX_TTL_SECONDS,
        16,
        NORMAL_PRIORITY,
        vec![0x54],
    );
    let Ok(envelope) = result else {
        panic!("valid test Envelope was rejected");
    };
    envelope
}

#[test]
fn origin_starts_with_full_local_limits() {
    let result = LocalRouteRecord::for_origin(&route_envelope(), 100);
    let Ok(record) = result else {
        panic!("valid origin route was rejected");
    };

    assert_eq!(record.first_seen_at(), 100);
    assert_eq!(u64::from(record.remaining_ttl()), MAX_TTL_SECONDS);
    assert_eq!(record.hops_taken(), 0);
    assert_eq!(record.copies_left(), INITIAL_COPY_BUDGET);
    assert_eq!(record.state(), ContainerState::Stored);
}

#[test]
fn received_route_values_are_capped_by_local_limits() {
    let result =
        LocalRouteRecord::from_received(&route_envelope(), 100, u64::MAX, u64::MAX, u64::MAX);
    let Ok(record) = result else {
        panic!("bounded received route was rejected");
    };

    assert_eq!(u64::from(record.remaining_ttl()), MAX_TTL_SECONDS);
    assert_eq!(record.hops_taken(), 16);
    assert_eq!(record.copies_left(), INITIAL_COPY_BUDGET);
}

#[test]
fn zero_remaining_ttl_and_copy_budget_are_rejected() {
    assert_eq!(
        LocalRouteRecord::from_received(&route_envelope(), 100, 0, 1, 1).err(),
        Some(CoreError::ValueBelowMinimum { field: Field::RemainingTtl })
    );
    assert_eq!(
        LocalRouteRecord::from_received(&route_envelope(), 100, 60, 1, 0).err(),
        Some(CoreError::ValueBelowMinimum { field: Field::CopiesLeft })
    );
}

#[test]
fn deadline_overflow_is_rejected() {
    assert_eq!(
        LocalRouteRecord::for_origin(&route_envelope(), u64::MAX).err(),
        Some(CoreError::ArithmeticOverflow { field: Field::LocalDeadline })
    );
}

#[test]
fn only_documented_state_transitions_are_accepted() {
    assert!(ContainerState::Draft.can_transition_to(ContainerState::Sealed));
    assert!(ContainerState::Sealed.can_transition_to(ContainerState::Stored));
    assert!(ContainerState::Stored.can_transition_to(ContainerState::Opened));
    assert!(ContainerState::Stored.can_transition_to(ContainerState::Expired));
    assert!(ContainerState::Stored.can_transition_to(ContainerState::Evicted));
    assert!(!ContainerState::Opened.can_transition_to(ContainerState::Stored));
    assert!(!ContainerState::Rejected.can_transition_to(ContainerState::Stored));
}

#[test]
fn route_record_rejects_a_second_terminal_transition() {
    let result = LocalRouteRecord::for_origin(&route_envelope(), 100);
    let Ok(mut record) = result else {
        panic!("valid origin route was rejected");
    };

    assert_eq!(record.transition_to(ContainerState::Expired), Ok(()));
    assert_eq!(
        record.transition_to(ContainerState::Opened),
        Err(CoreError::InvalidStateTransition)
    );
    assert_eq!(record.state(), ContainerState::Expired);
}

#[test]
fn route_debug_output_redacts_exact_timing() {
    let result = LocalRouteRecord::for_origin(&route_envelope(), 123_456_789);
    let Ok(record) = result else {
        panic!("valid origin route was rejected");
    };

    let output = record.redacted_debug().to_string();
    assert!(!output.contains("123456789"));
    assert!(!output.contains(&record.local_deadline().to_string()));
    assert!(output.contains("redacted"));
}

#[test]
fn persistent_restore_rejects_inconsistent_or_unbounded_fields() {
    let envelope = route_envelope();
    assert!(LocalRouteRecord::try_restore_stored(&envelope, 100, 160, 60, 1, 1).is_ok());
    assert_eq!(
        LocalRouteRecord::try_restore_stored(&envelope, 100, 161, 60, 1, 1).err(),
        Some(CoreError::UnsupportedValue { field: Field::LocalDeadline })
    );
    assert_eq!(
        LocalRouteRecord::try_restore_stored(&envelope, 100, 100, 0, 1, 1).err(),
        Some(CoreError::ValueBelowMinimum { field: Field::RemainingTtl })
    );
    assert_eq!(
        LocalRouteRecord::try_restore_stored(&envelope, 100, 160, 60, 17, 1).err(),
        Some(CoreError::ValueAboveMaximum { field: Field::HopsTaken })
    );
    assert_eq!(
        LocalRouteRecord::try_restore_stored(&envelope, 100, 160, 60, 1, 33).err(),
        Some(CoreError::ValueAboveMaximum { field: Field::CopiesLeft })
    );
}

fn public_envelope() -> Envelope {
    let result = Envelope::try_from_fields(
        PROTOCOL_VERSION,
        [0x11; 16],
        [0x22; 16],
        300,
        16,
        NORMAL_PRIORITY,
        b"OBVIOUS TEST PAYLOAD".to_vec(),
    );
    let Ok(envelope) = result else {
        panic!("valid integration fixture was rejected");
    };
    envelope
}

#[test]
fn relay_route_uses_bounded_advertised_values_without_changing_envelope() {
    let envelope = public_envelope();
    let original_payload = envelope.protected_payload().as_bytes().to_vec();
    let result = LocalRouteRecord::from_received(&envelope, 1_000, 900, 99, 99);
    let Ok(route) = result else {
        panic!("bounded Relay route was rejected");
    };

    assert_eq!(route.remaining_ttl(), 300);
    assert_eq!(route.hops_taken(), 16);
    assert_eq!(route.copies_left(), INITIAL_COPY_BUDGET);
    assert_eq!(route.state(), ContainerState::Stored);
    assert_eq!(envelope.protected_payload().as_bytes(), original_payload);
}

#[test]
fn public_debug_output_does_not_include_test_payload_or_identifiers() {
    let envelope = public_envelope();
    let output = envelope.redacted_debug().to_string();

    assert!(!output.contains("OBVIOUS TEST PAYLOAD"));
    assert!(!output.contains("17, 17"));
    assert!(!output.contains("34, 34"));
}
