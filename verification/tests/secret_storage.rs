use lantern::secret_storage::header::{
    validate_header_file, DatabaseKey, KdfHeader, Passphrase, KDF_HEADER_MAX_BYTES,
};
use lantern::secret_storage::database::{
    check_database_facts, check_metadata_row, DatabaseFacts, MetadataRow, ProfileId,
};
use lantern::secret_storage::state::{
    decide_contact_attempt, refill, take_tokens, validate_contact, ContactId, NewContact,
    PendingEnvelope,
};
use lantern::secret_storage::SecretStorageError;

#[test]
fn discrete_refill_preserves_remainder_and_never_exceeds_capacity() {
    let anchor: u64 = 1_000_000;
    let now = anchor + 125_000;
    let (tokens, moved) = refill(2, 8, 60, anchor, now);
    assert_eq!(tokens, 4);
    assert_eq!(now - moved, 5_000);

    let later = now + 10_000_000;
    let (tokens, moved) = refill(tokens, 8, 60, moved, later);
    assert_eq!(tokens, 8);
    assert!(moved <= later);
    assert!(later - moved < 60_000);
}

#[test]
fn refill_with_a_clock_that_went_back_adds_nothing_and_moves_the_anchor_to_now() {
    assert_eq!(refill(3, 8, 60, 500_000, 400_000), (3, 400_000));
    assert_eq!(refill(i64::MAX - 1, i64::MAX, 1, 0, 5_000), (i64::MAX, 5_000));
}

#[test]
fn public_decoder_rejects_unbounded_input_before_parsing() {
    let oversized = vec![0_u8; KDF_HEADER_MAX_BYTES + 1];
    assert_eq!(KdfHeader::decode(&oversized).err(), Some(SecretStorageError::HeaderSize));
    assert_eq!(KdfHeader::decode(&[]).err(), Some(SecretStorageError::HeaderSize));
}

#[test]
fn public_secret_types_have_redacted_debug_output() {
    let marker = "public-passphrase-marker";
    let passphrase = Passphrase::new(marker.to_owned());
    let Ok(passphrase) = passphrase else {
        panic!("public test passphrase was rejected");
    };
    assert!(!passphrase.redacted_debug().contains(marker));
}

#[test]
fn passphrase_length_is_counted_in_characters_and_bytes() {
    assert!(Passphrase::new("a".repeat(15)).is_err());
    assert!(Passphrase::new("a".repeat(16)).is_ok());
    assert!(Passphrase::new("a".repeat(128)).is_ok());
    assert_eq!(Passphrase::new("a".repeat(129)).err(), Some(SecretStorageError::PassphraseLength));
    assert!(Passphrase::new("\u{00e9}".repeat(20)).is_ok());
}

#[test]
fn header_round_trips_and_derives_a_stable_key() {
    let header = KdfHeader::from_salt([0x5a; 16]);
    let encoded = header.encode();
    let Ok(encoded) = encoded else {
        panic!("header could not be encoded");
    };
    let decoded = KdfHeader::decode(&encoded);
    let Ok(decoded) = decoded else {
        panic!("encoded header was rejected");
    };
    assert_eq!(decoded.encode(), Ok(encoded.clone()));
    let mut changed = encoded.clone();
    let last = changed.len() - 1;
    changed[last] ^= 1;
    assert!(KdfHeader::decode(&changed).is_err());

    let Ok(passphrase) = Passphrase::new("correct horse battery staple".to_owned()) else {
        panic!("passphrase was rejected");
    };
    let first: Result<DatabaseKey, SecretStorageError> = header.derive_database_key(&passphrase);
    let second = decoded.derive_database_key(&passphrase);
    let (Ok(first), Ok(second)) = (first, second) else {
        panic!("key derivation failed");
    };
    assert_eq!(first.as_bytes().len(), 32);
    assert_eq!(first.as_bytes(), second.as_bytes());
    assert!(!first.redacted_debug().contains(&format!("{}", first.as_bytes()[0])));
}

fn contact(name: &str, inbound: [u8; 16], outbound: [u8; 16]) -> NewContact {
    NewContact {
        contact_id: ContactId::from_bytes([0x01; 16]),
        display_name: name.to_owned(),
        signing_identity_key: [0x02; 32],
        curve_identity_key: [0x03; 32],
        inbound_recipient_hint: inbound,
        outbound_recipient_hint: outbound,
    }
}

#[test]
fn contacts_need_a_clean_name_and_two_different_hints() {
    assert!(validate_contact(&contact("Bob", [1; 16], [2; 16])).is_ok());
    assert_eq!(
        validate_contact(&contact("", [1; 16], [2; 16])),
        Err(SecretStorageError::CorruptStorage)
    );
    assert_eq!(
        validate_contact(&contact(&"b".repeat(129), [1; 16], [2; 16])),
        Err(SecretStorageError::CorruptStorage)
    );
    assert_eq!(
        validate_contact(&contact("Bo\u{7}b", [1; 16], [2; 16])),
        Err(SecretStorageError::CorruptStorage)
    );
    assert_eq!(
        validate_contact(&contact("Bob", [1; 16], [1; 16])),
        Err(SecretStorageError::CorruptStorage)
    );
}

#[test]
fn contact_identifiers_are_random_and_redacted() {
    let Ok(first) = ContactId::generate() else {
        panic!("entropy unavailable");
    };
    let Ok(second) = ContactId::generate() else {
        panic!("entropy unavailable");
    };
    assert!(first != second);
    assert!(ContactId::from_bytes(*first.as_bytes()) == first);
    assert_eq!(first.redacted_debug(), "ContactId([REDACTED])");
}

#[test]
fn tokens_are_taken_only_when_both_buckets_hold_one() {
    assert_eq!(take_tokens(3, 1), Some((2, 0)));
    assert_eq!(take_tokens(0, 5), None);
    assert_eq!(take_tokens(5, 0), None);
}

#[test]
fn stored_pending_envelopes_are_bounded() {
    let Ok(entry) = PendingEnvelope::from_stored(vec![9; 16], vec![1, 2, 3]) else {
        panic!("valid pending entry was rejected");
    };
    assert_eq!(entry.message_id(), &[9; 16]);
    assert_eq!(entry.envelope_cbor(), &[1, 2, 3]);
    assert!(PendingEnvelope::from_stored(vec![9; 15], vec![1]).is_err());
    assert!(PendingEnvelope::from_stored(vec![9; 16], vec![]).is_err());
    assert!(PendingEnvelope::from_stored(vec![9; 16], vec![0; 65_537]).is_err());
}

#[test]
fn header_file_metadata_must_be_private_single_and_in_size() {
    assert_eq!(validate_header_file(true, 64, 0o100600, 1), Ok(()));
    assert_eq!(validate_header_file(true, 128, 0o600, 1), Ok(()));
    assert_eq!(validate_header_file(false, 64, 0o600, 1), Err(SecretStorageError::UnsafeFile));
    assert_eq!(validate_header_file(true, 0, 0o600, 1), Err(SecretStorageError::UnsafeFile));
    assert_eq!(validate_header_file(true, 129, 0o600, 1), Err(SecretStorageError::UnsafeFile));
    assert_eq!(validate_header_file(true, 64, 0o100644, 1), Err(SecretStorageError::UnsafeFile));
    assert_eq!(validate_header_file(true, 64, 0o600, 2), Err(SecretStorageError::UnsafeFile));
}

fn sound_facts() -> DatabaseFacts {
    DatabaseFacts {
        cipher_version: "4.17.0 community".to_owned(),
        cipher_status: "1".to_owned(),
        cipher_page_size: "4096".to_owned(),
        page_size: 4096,
        application_id: 0x4c53_4543,
        user_version: 1,
        integrity: "ok".to_owned(),
        foreign_key_errors: 0,
        table_names: "account_state,contact_exchange,contacts,crypto_attempts,messages,metadata,pending_outbox,session_state".to_owned(),
    }
}

#[test]
fn database_facts_are_checked_in_order() {
    assert_eq!(check_database_facts(&sound_facts()), Ok(()));
    let mut facts = sound_facts();
    facts.cipher_version = "4.6.0 community".to_owned();
    facts.page_size = 1024;
    assert_eq!(check_database_facts(&facts), Err(SecretStorageError::UnsupportedSchema));
    let mut facts = sound_facts();
    facts.cipher_status = "0".to_owned();
    assert_eq!(check_database_facts(&facts), Err(SecretStorageError::CorruptStorage));
    let mut facts = sound_facts();
    facts.application_id = 7;
    facts.user_version = 2;
    assert_eq!(check_database_facts(&facts), Err(SecretStorageError::CorruptStorage));
    let mut facts = sound_facts();
    facts.user_version = 2;
    facts.integrity = "bad".to_owned();
    assert_eq!(check_database_facts(&facts), Err(SecretStorageError::UnsupportedSchema));
    let mut facts = sound_facts();
    facts.foreign_key_errors = 1;
    assert_eq!(check_database_facts(&facts), Err(SecretStorageError::CorruptStorage));
    let mut facts = sound_facts();
    facts.table_names = "metadata".to_owned();
    assert_eq!(check_database_facts(&facts), Err(SecretStorageError::CorruptStorage));
}

fn sound_row() -> MetadataRow {
    MetadataRow {
        profile_id: vec![0x11; 16],
        pickle_key: vec![0x22; 32],
        profile_tokens: 32,
        pending_contact_tokens: 4,
        max_contacts: 128,
        max_attempts: 2000,
        max_outbox_entries: 1000,
        max_history_entries: 8192,
    }
}

#[test]
fn metadata_row_yields_identifier_and_key_only_when_sound() {
    let Ok((id, key)) = check_metadata_row(sound_row()) else {
        panic!("sound metadata row was rejected");
    };
    assert!(id == ProfileId::from_bytes([0x11; 16]));
    assert_eq!(id.as_bytes(), &[0x11; 16]);
    assert_eq!(key, [0x22; 32]);
    assert_eq!(id.redacted_debug(), "ProfileId { length: 16, .. }");
    let mut row = sound_row();
    row.profile_tokens = 33;
    assert!(matches!(check_metadata_row(row), Err(SecretStorageError::CorruptStorage)));
    let mut row = sound_row();
    row.pending_contact_tokens = -1;
    assert!(matches!(check_metadata_row(row), Err(SecretStorageError::CorruptStorage)));
    let mut row = sound_row();
    row.max_history_entries = 8191;
    assert!(matches!(check_metadata_row(row), Err(SecretStorageError::CorruptStorage)));
    let mut row = sound_row();
    row.profile_id = vec![0x11; 15];
    assert!(matches!(check_metadata_row(row), Err(SecretStorageError::CorruptStorage)));
    let mut row = sound_row();
    row.pickle_key = vec![0x22; 31];
    assert!(matches!(check_metadata_row(row), Err(SecretStorageError::CorruptStorage)));
}

#[test]
fn contact_attempts_follow_the_checks_and_both_buckets() {
    assert!(matches!(
        decide_contact_attempt(true, 0, 32, Some(8), 0, 0, 0),
        Err(SecretStorageError::AttemptAlreadyProcessed)
    ));
    assert!(matches!(
        decide_contact_attempt(false, 2000, 32, Some(8), 0, 0, 0),
        Err(SecretStorageError::QuotaExceeded)
    ));
    assert!(matches!(
        decide_contact_attempt(false, 0, 32, None, 0, 0, 0),
        Err(SecretStorageError::UnknownContact)
    ));
    let Ok(admitted) = decide_contact_attempt(false, 0, 5, Some(3), 1_000, 1_000, 1_000) else {
        panic!("attempt was refused");
    };
    assert!(admitted.admitted);
    assert_eq!((admitted.profile_tokens, admitted.contact_tokens), (4, 2));
    let Ok(limited) = decide_contact_attempt(false, 0, 5, Some(0), 1_000, 1_000, 31_000) else {
        panic!("attempt was refused");
    };
    assert!(!limited.admitted);
    assert_eq!((limited.profile_tokens, limited.contact_tokens), (8, 0));
    assert_eq!(limited.profile_anchor_ms, 31_000);
    assert_eq!(limited.contact_anchor_ms, 1_000);
    let Ok(refilled) = decide_contact_attempt(false, 0, 0, Some(0), 0, 0, 60_000) else {
        panic!("attempt was refused");
    };
    assert!(refilled.admitted);
    assert_eq!((refilled.profile_tokens, refilled.contact_tokens), (5, 0));
}
