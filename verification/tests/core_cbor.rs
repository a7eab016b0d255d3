use lantern::{
    decode_envelope, encode_envelope, CborError, CborField, CoreError, Envelope, Field,
    MAX_ENVELOPE_SIZE, MAX_MAX_HOPS, MAX_PROTECTED_PAYLOAD_SIZE, MAX_TTL_SECONDS,
    MESSAGE_ID_LENGTH, MIN_MAX_HOPS, MIN_TTL_SECONDS, PROTOCOL_VERSION, RECIPIENT_HINT_LENGTH,
};
use minicbor::Encoder;

const MINIMAL_ENVELOPE_CBOR: [u8; 49] = [
    0xa7, 0x00, 0x01, 0x01, 0x50, 0x11, 0x11, 0x11, 0x11, 0x11, 0x11, 0x11, 0x11, 0x11, 0x11,
    0x11, 0x11, 0x11, 0x11, 0x11, 0x11, 0x02, 0x50, 0x22, 0x22, 0x22, 0x22, 0x22, 0x22, 0x22,
    0x22, 0x22, 0x22, 0x22, 0x22, 0x22, 0x22, 0x22, 0x22, 0x03, 0x18, 0x3c, 0x04, 0x01, 0x05,
    0x00, 0x06, 0x41, 0x54,
];

fn minimal_envelope() -> Envelope {
    let result = Envelope::try_from_fields(
        PROTOCOL_VERSION,
        [0x11; MESSAGE_ID_LENGTH],
        [0x22; RECIPIENT_HINT_LENGTH],
        MIN_TTL_SECONDS,
        MIN_MAX_HOPS,
        0,
        vec![0x54],
    );
    let Ok(envelope) = result else {
        panic!("valid minimal Envelope was rejected");
    };
    envelope
}

fn replace_range(input: &[u8], range: core::ops::Range<usize>, replacement: &[u8]) -> Vec<u8> {
    let mut output = Vec::with_capacity(input.len() - range.len() + replacement.len());
    output.extend_from_slice(&input[..range.start]);
    output.extend_from_slice(replacement);
    output.extend_from_slice(&input[range.end..]);
    output
}

fn encode_unsigned_for_test(value: u64) -> Vec<u8> {
    let mut encoder = Encoder::new(Vec::new());
    let result = encoder.u64(value);
    assert!(result.is_ok());
    encoder.into_writer()
}

fn encode_unchecked_payload(payload_size: usize) -> Vec<u8> {
    let mut encoder = Encoder::new(Vec::new());
    let operations = (|| {
        encoder.map(7)?;
        encoder.u8(0)?.u8(1)?;
        encoder.u8(1)?.bytes(&[0x11; MESSAGE_ID_LENGTH])?;
        encoder.u8(2)?.bytes(&[0x22; RECIPIENT_HINT_LENGTH])?;
        encoder.u8(3)?.u64(MIN_TTL_SECONDS)?;
        encoder.u8(4)?.u64(MIN_MAX_HOPS)?;
        encoder.u8(5)?.u8(0)?;
        encoder.u8(6)?.bytes(&vec![0x54; payload_size])?;
        Ok::<(), minicbor::encode::Error<core::convert::Infallible>>(())
    })();
    assert!(operations.is_ok());
    encoder.into_writer()
}

#[test]
fn exact_minimal_vector_decodes_and_reencodes_identically() {
    let result = decode_envelope(&MINIMAL_ENVELOPE_CBOR);
    let Ok(envelope) = result else {
        panic!("minimal CBOR vector was rejected");
    };

    assert_eq!(envelope.protocol_version(), PROTOCOL_VERSION);
    assert_eq!(u64::from(envelope.ttl_seconds().get()), MIN_TTL_SECONDS);
    assert_eq!(u64::from(envelope.max_hops().get()), MIN_MAX_HOPS);
    assert_eq!(encode_envelope(&envelope), Ok(MINIMAL_ENVELOPE_CBOR.to_vec()));
}

#[test]
fn maximum_logical_envelope_stays_below_serialized_limit() {
    let result = Envelope::try_from_fields(
        PROTOCOL_VERSION,
        [0x11; MESSAGE_ID_LENGTH],
        [0x22; RECIPIENT_HINT_LENGTH],
        MAX_TTL_SECONDS,
        MAX_MAX_HOPS,
        0,
        vec![0x54; MAX_PROTECTED_PAYLOAD_SIZE],
    );
    let Ok(envelope) = result else {
        panic!("valid maximum Envelope was rejected");
    };
    let encoded = encode_envelope(&envelope);
    let Ok(bytes) = encoded else {
        panic!("maximum Envelope could not be encoded");
    };

    assert_eq!(bytes.len(), 64_565);
    assert!(bytes.len() <= MAX_ENVELOPE_SIZE);
    assert!(decode_envelope(&bytes) == Ok(envelope));
}

#[test]
fn rejects_empty_and_oversized_total_input_before_decoding() {
    assert_eq!(decode_envelope(&[]).err(), Some(CborError::EmptyInput));
    assert_eq!(
        decode_envelope(&vec![0; MAX_ENVELOPE_SIZE + 1]).err(),
        Some(CborError::InputTooLarge)
    );
}

#[test]
fn rejects_wrong_indefinite_and_noncanonical_top_level_maps() {
    assert_eq!(decode_envelope(&[0x80]).err(), Some(CborError::ExpectedMap));
    assert_eq!(
        decode_envelope(&[0xbf, 0xff]).err(),
        Some(CborError::IndefiniteLength { field: CborField::Envelope })
    );
    assert_eq!(decode_envelope(&[0xa6]).err(), Some(CborError::WrongMapLength));

    let noncanonical = replace_range(&MINIMAL_ENVELOPE_CBOR, 0..1, &[0xb8, 0x07]);
    assert_eq!(
        decode_envelope(&noncanonical).err(),
        Some(CborError::NonCanonical { field: CborField::Envelope })
    );
}

#[test]
fn rejects_duplicate_unknown_reordered_and_noncanonical_keys() {
    let mut duplicate = MINIMAL_ENVELOPE_CBOR;
    duplicate[3] = 0;
    assert_eq!(
        decode_envelope(&duplicate).err(),
        Some(CborError::UnexpectedMapKey { expected: 1 })
    );

    let mut unknown = MINIMAL_ENVELOPE_CBOR;
    unknown[46] = 7;
    assert_eq!(
        decode_envelope(&unknown).err(),
        Some(CborError::UnexpectedMapKey { expected: 6 })
    );

    let mut reordered = MINIMAL_ENVELOPE_CBOR;
    reordered[3] = 2;
    assert_eq!(
        decode_envelope(&reordered).err(),
        Some(CborError::UnexpectedMapKey { expected: 1 })
    );

    let noncanonical = replace_range(&MINIMAL_ENVELOPE_CBOR, 3..4, &[0x18, 0x01]);
    assert_eq!(
        decode_envelope(&noncanonical).err(),
        Some(CborError::NonCanonical { field: CborField::MapKey })
    );
}

#[test]
fn rejects_unknown_version_before_other_fields() {
    let mut input = MINIMAL_ENVELOPE_CBOR;
    input[2] = 2;
    assert_eq!(
        decode_envelope(&input).err(),
        Some(CborError::EnvelopeValidation(CoreError::UnsupportedValue {
            field: Field::ProtocolVersion,
        }))
    );
}

#[test]
fn rejects_wrong_scalar_type_and_noncanonical_integer() {
    let mut wrong_type = MINIMAL_ENVELOPE_CBOR;
    wrong_type[2] = 0xf4;
    assert_eq!(
        decode_envelope(&wrong_type).err(),
        Some(CborError::WrongType { field: CborField::ProtocolVersion })
    );

    let noncanonical = replace_range(&MINIMAL_ENVELOPE_CBOR, 2..3, &[0x18, 0x01]);
    assert_eq!(
        decode_envelope(&noncanonical).err(),
        Some(CborError::NonCanonical { field: CborField::ProtocolVersion })
    );
}

#[test]
fn rejects_wrong_and_indefinite_identifier_lengths() {
    let mut short = MINIMAL_ENVELOPE_CBOR;
    short[4] = 0x4f;
    assert_eq!(
        decode_envelope(&short).err(),
        Some(CborError::WrongLength { field: CborField::MessageId })
    );

    let long = replace_range(
        &MINIMAL_ENVELOPE_CBOR,
        4..21,
        &[
            0x51, 0x11, 0x11, 0x11, 0x11, 0x11, 0x11, 0x11, 0x11, 0x11, 0x11, 0x11, 0x11, 0x11,
            0x11, 0x11, 0x11, 0x11,
        ],
    );
    assert_eq!(
        decode_envelope(&long).err(),
        Some(CborError::WrongLength { field: CborField::MessageId })
    );

    let mut indefinite = MINIMAL_ENVELOPE_CBOR;
    indefinite[4] = 0x5f;
    assert_eq!(
        decode_envelope(&indefinite).err(),
        Some(CborError::IndefiniteLength { field: CborField::MessageId })
    );

    let mut short_hint = MINIMAL_ENVELOPE_CBOR;
    short_hint[22] = 0x4f;
    assert_eq!(
        decode_envelope(&short_hint).err(),
        Some(CborError::WrongLength { field: CborField::RecipientHint })
    );

    let long_hint = replace_range(
        &MINIMAL_ENVELOPE_CBOR,
        22..39,
        &[
            0x51, 0x22, 0x22, 0x22, 0x22, 0x22, 0x22, 0x22, 0x22, 0x22, 0x22, 0x22, 0x22, 0x22,
            0x22, 0x22, 0x22, 0x22,
        ],
    );
    assert_eq!(
        decode_envelope(&long_hint).err(),
        Some(CborError::WrongLength { field: CborField::RecipientHint })
    );
}

#[test]
fn rejects_noncanonical_byte_string_length() {
    let noncanonical = replace_range(&MINIMAL_ENVELOPE_CBOR, 4..5, &[0x58, 0x10]);
    assert_eq!(
        decode_envelope(&noncanonical).err(),
        Some(CborError::NonCanonical { field: CborField::MessageId })
    );
}

#[test]
fn rejects_empty_and_oversized_protected_payload() {
    let empty = replace_range(&MINIMAL_ENVELOPE_CBOR, 47..49, &[0x40]);
    assert_eq!(
        decode_envelope(&empty).err(),
        Some(CborError::WrongLength { field: CborField::ProtectedPayload })
    );

    let oversized = encode_unchecked_payload(MAX_PROTECTED_PAYLOAD_SIZE + 1);
    assert!(oversized.len() <= MAX_ENVELOPE_SIZE);
    assert_eq!(
        decode_envelope(&oversized).err(),
        Some(CborError::WrongLength { field: CborField::ProtectedPayload })
    );

    let mut indefinite = MINIMAL_ENVELOPE_CBOR;
    indefinite[47] = 0x5f;
    assert_eq!(
        decode_envelope(&indefinite).err(),
        Some(CborError::IndefiniteLength { field: CborField::ProtectedPayload })
    );
}

#[test]
fn rejects_protocol_values_outside_allowed_ranges() {
    let ttl_below =
        replace_range(&MINIMAL_ENVELOPE_CBOR, 40..42, &encode_unsigned_for_test(MIN_TTL_SECONDS - 1));
    assert_eq!(
        decode_envelope(&ttl_below).err(),
        Some(CborError::EnvelopeValidation(CoreError::ValueBelowMinimum {
            field: Field::TtlSeconds,
        }))
    );

    let ttl_above =
        replace_range(&MINIMAL_ENVELOPE_CBOR, 40..42, &encode_unsigned_for_test(MAX_TTL_SECONDS + 1));
    assert_eq!(
        decode_envelope(&ttl_above).err(),
        Some(CborError::EnvelopeValidation(CoreError::ValueAboveMaximum {
            field: Field::TtlSeconds,
        }))
    );

    let hops_below =
        replace_range(&MINIMAL_ENVELOPE_CBOR, 43..44, &encode_unsigned_for_test(MIN_MAX_HOPS - 1));
    assert_eq!(
        decode_envelope(&hops_below).err(),
        Some(CborError::EnvelopeValidation(CoreError::ValueBelowMinimum { field: Field::MaxHops }))
    );

    let hops_above =
        replace_range(&MINIMAL_ENVELOPE_CBOR, 43..44, &encode_unsigned_for_test(MAX_MAX_HOPS + 1));
    assert_eq!(
        decode_envelope(&hops_above).err(),
        Some(CborError::EnvelopeValidation(CoreError::ValueAboveMaximum { field: Field::MaxHops }))
    );

    let priority = replace_range(&MINIMAL_ENVELOPE_CBOR, 45..46, &[0x01]);
    assert_eq!(
        decode_envelope(&priority).err(),
        Some(CborError::EnvelopeValidation(CoreError::UnsupportedValue { field: Field::Priority }))
    );
}

#[test]
fn rejects_noncanonical_ttl_encoding() {
    let noncanonical = replace_range(&MINIMAL_ENVELOPE_CBOR, 40..42, &[0x19, 0x00, 0x3c]);
    assert_eq!(
        decode_envelope(&noncanonical).err(),
        Some(CborError::NonCanonical { field: CborField::TtlSeconds })
    );
}

#[test]
fn rejects_text_keys_tags_floats_and_nested_values() {
    let text_key = replace_range(&MINIMAL_ENVELOPE_CBOR, 1..2, &[0x61, b'0']);
    assert_eq!(
        decode_envelope(&text_key).err(),
        Some(CborError::WrongType { field: CborField::MapKey })
    );

    let tagged_version = replace_range(&MINIMAL_ENVELOPE_CBOR, 2..3, &[0xc0, 0x01]);
    assert_eq!(
        decode_envelope(&tagged_version).err(),
        Some(CborError::WrongType { field: CborField::ProtocolVersion })
    );

    let float_version = replace_range(&MINIMAL_ENVELOPE_CBOR, 2..3, &[0xf9, 0x3c, 0x00]);
    assert_eq!(
        decode_envelope(&float_version).err(),
        Some(CborError::WrongType { field: CborField::ProtocolVersion })
    );

    let nested_version = replace_range(&MINIMAL_ENVELOPE_CBOR, 2..3, &[0x81, 0x01]);
    assert_eq!(
        decode_envelope(&nested_version).err(),
        Some(CborError::WrongType { field: CborField::ProtocolVersion })
    );
}

#[test]
fn rejects_trailing_and_truncated_data() {
    let mut trailing = MINIMAL_ENVELOPE_CBOR.to_vec();
    trailing.push(0);
    assert_eq!(decode_envelope(&trailing).err(), Some(CborError::TrailingData));

    for end in 1..MINIMAL_ENVELOPE_CBOR.len() {
        assert!(decode_envelope(&MINIMAL_ENVELOPE_CBOR[..end]).is_err());
    }
}

#[test]
fn arbitrary_short_inputs_return_errors_without_panicking() {
    for first in u8::MIN..=u8::MAX {
        let input = [first];
        assert!(decode_envelope(&input).is_err());
    }
}

#[test]
fn deterministic_malformed_corpus_never_panics() {
    let mut state = 0x4c41_4e54_4552_4e01_u64;
    for length in 0..=512 {
        let mut input = Vec::with_capacity(length);
        for _ in 0..length {
            state ^= state << 13;
            state ^= state >> 7;
            state ^= state << 17;
            input.push(state.to_le_bytes()[0]);
        }
        let _result = decode_envelope(&input);
    }
}

#[test]
fn errors_do_not_include_input_bytes() {
    let secret_marker = b"OBVIOUS-SECRET-TEST-MARKER";
    let mut input = vec![0x81];
    input.extend_from_slice(secret_marker);
    let error = decode_envelope(&input);
    let Err(error) = error else {
        panic!("invalid input was accepted");
    };
    let output = format!("{error:?} {}", error.message());
    assert!(!output.contains("OBVIOUS-SECRET-TEST-MARKER"));
}

#[test]
fn encoder_is_deterministic() {
    let envelope = minimal_envelope();
    assert_eq!(encode_envelope(&envelope), encode_envelope(&envelope));
}

#[test]
fn encoding_matches_an_independent_cbor_encoder() {
    let envelope = minimal_envelope();
    let mut encoder = Encoder::new(Vec::new());
    let operations = (|| {
        encoder.map(7)?;
        encoder.u8(0)?.u8(1)?;
        encoder.u8(1)?.bytes(&[0x11; MESSAGE_ID_LENGTH])?;
        encoder.u8(2)?.bytes(&[0x22; RECIPIENT_HINT_LENGTH])?;
        encoder.u8(3)?.u64(MIN_TTL_SECONDS)?;
        encoder.u8(4)?.u64(MIN_MAX_HOPS)?;
        encoder.u8(5)?.u8(0)?;
        encoder.u8(6)?.bytes(&[0x54])?;
        Ok::<(), minicbor::encode::Error<core::convert::Infallible>>(())
    })();
    assert!(operations.is_ok());
    assert_eq!(encode_envelope(&envelope), Ok(encoder.into_writer()));
}
