use lantern::bridge::BridgeError;
use lantern::crypto::CryptoError;
use lantern::diagnostics::event::DiagnosticError;
use lantern::diagnostics::persistence::PersistentDiagnosticError;
use lantern::secret_storage::SecretStorageError;
use lantern::{CborError, CborField, CoreError, Field, QueueError, QueueField};

#[test]
fn core_errors_name_their_field() {
    let error = CoreError::ValueAboveMaximum { field: Field::TtlSeconds };
    assert_eq!(error.message(), "value above maximum for TtlSeconds");
    assert_eq!(
        CoreError::ArithmeticOverflow { field: Field::LocalDeadline }.message(),
        "arithmetic overflow for LocalDeadline"
    );
    assert_eq!(CoreError::InvalidStateTransition.message(), "invalid state transition");
}

#[test]
fn cbor_errors_name_the_field_or_the_expected_key() {
    assert_eq!(
        CborError::NonCanonical { field: CborField::RecipientHint }.message(),
        "non-canonical CBOR representation for RecipientHint"
    );
    assert_eq!(
        CborError::UnexpectedMapKey { expected: 3 }.message(),
        "unexpected Envelope map key; expected 3"
    );
    assert_eq!(
        CborError::UnexpectedMapKey { expected: 42 }.message(),
        "unexpected Envelope map key; expected 42"
    );
    assert_eq!(
        CborError::UnexpectedMapKey { expected: 255 }.message(),
        "unexpected Envelope map key; expected 255"
    );
    assert_eq!(
        CborError::EnvelopeValidation(CoreError::ValueBelowMinimum { field: Field::MaxHops })
            .message(),
        "invalid Envelope: value below minimum for MaxHops"
    );
}

#[test]
fn wrapped_errors_repeat_the_inner_description() {
    assert_eq!(
        QueueError::InvalidLimit { field: QueueField::MaxTombstones }.message(),
        "invalid queue limit for MaxTombstones"
    );
    assert_eq!(
        QueueError::EnvelopeEncoding(CborError::OutputTooLarge).message(),
        "could not measure encoded Envelope: encoded Envelope exceeds the size limit"
    );
    assert_eq!(
        PersistentDiagnosticError::Journal(DiagnosticError::ArithmeticOverflow).message(),
        "diagnostic journal failed: diagnostic arithmetic overflow"
    );
    assert_eq!(
        BridgeError::Crypto(CryptoError::OlmRejected).message(),
        "cryptographic processing failed: encrypted message was rejected"
    );
    assert_eq!(
        BridgeError::SecretStorage(SecretStorageError::RateLimited).message(),
        "secret storage operation failed: decryption attempts are temporarily limited"
    );
    assert_eq!(
        BridgeError::Cbor(CborError::TrailingData).message(),
        "stored Envelope is invalid: trailing data after Envelope"
    );
    assert_eq!(
        BridgeError::QueueConflict.message(),
        "queue contains a different Envelope with the same identifier"
    );
}
