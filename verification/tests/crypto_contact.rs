use lantern::crypto::contact::{
    decode_contact_qr, encode_invitation_qr, encode_response_qr, identity_fingerprint,
    ContactBundle, ContactResponse, Invitation,
};
use lantern::crypto::engine::{chat_payload, decrypt_chat, encrypt_chat, map_storage_error, seal_chat};
use lantern::crypto::handshake::{
    accept_initiator_confirmation, accept_receiver_confirmation, build_initiator_confirmation,
    check_initiator_keys, check_reply_start, check_responder_start, KeyedAccount,
};
use lantern::crypto::CryptoError;
use lantern::secret_storage::SecretStorageError;
use lantern::Envelope;
use vodozemac::olm::{Account, AccountPickle};

const PICKLE_KEY: [u8; 32] = [0x91; 32];

#[test]
fn two_qr_sas_and_both_encrypted_confirmations_establish_one_session() {
    let mut alice_account = Account::new();
    let bob_account = Account::new();
    let invitation = Invitation::create(&mut alice_account);
    let Ok((invitation, alice_sas)) = invitation else {
        panic!("test invitation could not be created");
    };
    let response = ContactResponse::create(&bob_account, &invitation);
    let Ok((response, bob_sas)) = response else {
        panic!("test response could not be created");
    };
    let alice_display = alice_sas.finish(&invitation, &response);
    let bob_display = bob_sas.finish(&invitation, &response);
    assert!(matches!((alice_display, bob_display), (Ok(left), Ok(right)) if left == right));
    let Ok(display) = alice_display else {
        panic!("short authentication string could not be computed");
    };
    assert!(display.emoji_indices().iter().all(|index| *index < 64));
    let (first, second, third) = display.decimals();
    assert!((1000..=9191).contains(&first));
    assert!((1000..=9191).contains(&second));
    assert!((1000..=9191).contains(&third));

    let bob = KeyedAccount::new(bob_account);
    let initiator = build_initiator_confirmation(&bob, &invitation, &response);
    let Ok(initiator) = initiator else {
        panic!("test initiator confirmation could not be created");
    };
    assert_eq!(initiator.envelope().ttl_seconds().get(), 604_800);
    assert_eq!(initiator.envelope().max_hops().get(), 2);
    assert_eq!(initiator.envelope().recipient_hint().as_bytes(), invitation.inbound_recipient_hint());
    let (bob_session, initiator_envelope) = initiator.into_parts();

    let account_pickle = alice_account.pickle().encrypt(&PICKLE_KEY);
    let changed = Envelope::try_from_fields(
        initiator_envelope.protocol_version(),
        [0xfe; 16],
        *initiator_envelope.recipient_hint().as_bytes(),
        u64::from(initiator_envelope.ttl_seconds().get()),
        u64::from(initiator_envelope.max_hops().get()),
        initiator_envelope.priority().as_raw(),
        initiator_envelope.protected_payload().as_bytes().to_vec(),
    );
    let Ok(changed) = changed else {
        panic!("changed confirmation was rejected by core");
    };
    let candidate =
        AccountPickle::from_encrypted(&account_pickle, &PICKLE_KEY).map(Account::from_pickle);
    let Ok(candidate) = candidate else {
        panic!("test account candidate could not be restored");
    };
    assert!(
        accept_initiator_confirmation(KeyedAccount::new(candidate), &invitation, &response, &changed)
            .is_err()
    );

    let candidate =
        AccountPickle::from_encrypted(&account_pickle, &PICKLE_KEY).map(Account::from_pickle);
    let Ok(candidate) = candidate else {
        panic!("test account candidate could not be restored after rejection");
    };
    let accepted = accept_initiator_confirmation(
        KeyedAccount::new(candidate),
        &invitation,
        &response,
        &initiator_envelope,
    );
    let Ok(accepted) = accepted else {
        panic!("valid initiator confirmation was rejected");
    };
    assert_eq!(
        accepted.receiver_confirmation().recipient_hint().as_bytes(),
        response.inbound_recipient_hint()
    );
    let (_, mut alice_session, receiver_envelope) = accepted.into_parts();
    let bob_session =
        accept_receiver_confirmation(bob_session, &invitation, &response, &receiver_envelope);
    let Ok(mut bob_session) = bob_session else {
        panic!("valid receiver confirmation was rejected");
    };
    assert_eq!(alice_session.session_id(), bob_session.session_id());

    let mut messages = Vec::new();
    for index in 0..32 {
        let text = format!("post-confirmation-{index}");
        let encrypted = alice_session.encrypt(text.as_bytes());
        messages.push((text, encrypted));
    }
    for (text, encrypted) in messages.iter().rev() {
        let decrypted = bob_session.decrypt(encrypted);
        assert!(decrypted.is_ok_and(|value| value == text.as_bytes()));
    }

    let sealed = seal_chat(&mut alice_session, [0x42; 16], [0x24; 16], "hello bob".to_owned(), 60, 1);
    let Ok(sealed) = sealed else {
        panic!("chat could not be sealed");
    };
    let sealed = sealed.into_envelope();
    assert_eq!(sealed.message_id().as_bytes(), &[0x42; 16]);
    let protected = chat_payload(&sealed);
    let Ok(protected) = protected else {
        panic!("sealed payload could not be read");
    };
    let opened = decrypt_chat(&mut bob_session, &sealed, &protected);
    let Ok(opened) = opened else {
        panic!("sealed chat could not be opened");
    };
    assert_eq!(opened.text(), "hello bob");

    let encrypted = encrypt_chat(&mut alice_session, [0x24; 16], "second".to_owned(), 120, 2);
    let Ok(encrypted) = encrypted else {
        panic!("chat could not be encrypted");
    };
    let encrypted = encrypted.into_envelope();
    assert_eq!(encrypted.recipient_hint().as_bytes(), &[0x24; 16]);
    assert_eq!(encrypted.ttl_seconds().get(), 120);
    let Ok(protected) = chat_payload(&encrypted) else {
        panic!("encrypted payload could not be read");
    };
    let Ok(opened) = decrypt_chat(&mut bob_session, &encrypted, &protected) else {
        panic!("encrypted chat could not be opened");
    };
    assert_eq!(opened.text(), "second");
    assert!(matches!(
        encrypt_chat(&mut alice_session, [0x24; 16], String::new(), 120, 2),
        Err(CryptoError::InvalidValue)
    ));
    assert!(matches!(
        encrypt_chat(&mut alice_session, [0x24; 16], "bell\u{7}".to_owned(), 120, 2),
        Err(CryptoError::InvalidValue)
    ));
}

#[test]
fn contact_bundles_round_trip_through_qr_text() {
    let mut alice_account = Account::new();
    let bob_account = Account::new();
    let Ok((invitation, _)) = Invitation::create(&mut alice_account) else {
        panic!("invitation could not be created");
    };
    let Ok(text) = encode_invitation_qr(&invitation) else {
        panic!("invitation could not be encoded");
    };
    assert!(text.starts_with("lantern-contact-v1:"));
    assert!(text.len() <= 704);
    match decode_contact_qr(&text) {
        Ok(ContactBundle::Invitation(decoded)) => assert!(decoded == invitation),
        _ => panic!("invitation QR did not decode to the invitation"),
    }

    let Ok((response, _)) = ContactResponse::create(&bob_account, &invitation) else {
        panic!("response could not be created");
    };
    let Ok(text) = encode_response_qr(&response) else {
        panic!("response could not be encoded");
    };
    match decode_contact_qr(&text) {
        Ok(ContactBundle::Response(decoded)) => assert!(decoded == response),
        _ => panic!("response QR did not decode to the response"),
    }
    assert_eq!(response.invitation_id(), invitation.invitation_id());

    let mut tampered = text.clone().into_bytes();
    let index = tampered.len() - 10;
    tampered[index] = if tampered[index] == b'A' { b'B' } else { b'A' };
    let tampered = String::from_utf8(tampered).unwrap_or_default();
    assert!(decode_contact_qr(&tampered).is_err());
}

#[test]
fn qr_decoder_rejects_empty_foreign_and_padded_text() {
    assert!(matches!(decode_contact_qr(""), Err(CryptoError::EmptyInput)));
    assert!(matches!(decode_contact_qr("lantern-contact-v1:"), Err(CryptoError::Malformed)));
    assert!(matches!(decode_contact_qr("other-prefix:AAAA"), Err(CryptoError::Malformed)));
    assert!(matches!(decode_contact_qr("lantern-contact-v1:AA=="), Err(CryptoError::Malformed)));
    assert!(matches!(decode_contact_qr(&"a".repeat(705)), Err(CryptoError::InputTooLarge)));
    assert!(matches!(decode_contact_qr("lantern-contact-v1:\u{e9}"), Err(CryptoError::InputTooLarge)));
}

#[test]
fn fingerprint_is_grouped_base32_of_the_key() {
    let zero = identity_fingerprint(&[0; 32]);
    assert_eq!(zero.len(), 3 + 52 + 12);
    assert!(zero.starts_with("L1-AAAA-"));
    assert!(zero.chars().skip(3).all(|c| c == 'A' || c == '-'));
    let ones = identity_fingerprint(&[0xff; 32]);
    assert_eq!(&ones[..8], "L1-7777-");
    assert!(ones.ends_with("-777Q"));
    let mut key = [0u8; 32];
    key[0] = 0b0000_1000;
    assert!(identity_fingerprint(&key).starts_with("L1-BAAA-"));
}

#[test]
fn storage_failures_map_to_safe_crypto_errors() {
    assert_eq!(map_storage_error(SecretStorageError::UnknownContact), CryptoError::StateRejected);
    assert_eq!(map_storage_error(SecretStorageError::RateLimited), CryptoError::RateLimited);
    assert_eq!(map_storage_error(SecretStorageError::Io), CryptoError::StorageFailed);
}

#[test]
fn own_checks_reject_foreign_accounts_and_misaddressed_confirmations() {
    let mut alice_account = Account::new();
    let bob_account = Account::new();
    let Ok((invitation, _)) = Invitation::create(&mut alice_account) else {
        panic!("invitation could not be created");
    };
    let Ok((response, _)) = ContactResponse::create(&bob_account, &invitation) else {
        panic!("response could not be created");
    };
    let alice = KeyedAccount::new(alice_account);
    let bob = KeyedAccount::new(bob_account);
    assert!(check_initiator_keys(bob.signing_key(), bob.curve_key(), &invitation, &response).is_ok());
    assert_eq!(
        check_initiator_keys(alice.signing_key(), alice.curve_key(), &invitation, &response),
        Err(CryptoError::StateRejected)
    );
    let Ok(initiator) = build_initiator_confirmation(&bob, &invitation, &response) else {
        panic!("initiator confirmation could not be created");
    };
    assert!(matches!(
        build_initiator_confirmation(&alice, &invitation, &response),
        Err(CryptoError::StateRejected)
    ));
    let envelope = initiator.envelope();
    assert!(check_responder_start(alice.signing_key(), alice.curve_key(), &invitation, &response, envelope)
        .is_ok());
    assert!(matches!(
        check_responder_start(bob.signing_key(), bob.curve_key(), &invitation, &response, envelope),
        Err(CryptoError::EnvelopeMismatch)
    ));
    assert!(matches!(
        check_reply_start(&invitation, &response, envelope),
        Err(CryptoError::EnvelopeMismatch)
    ));
}
