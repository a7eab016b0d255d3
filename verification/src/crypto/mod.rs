//! Transport-independent end-to-end encryption formats.
use vstd::prelude::*;

pub mod items;
pub mod inner;
pub mod inner_prefix;
pub mod wrapper;
pub mod contact;
pub mod contact_laws;
pub mod handshake;
pub mod engine;

verus! {

/// Safe cryptographic error category.
#[derive(Clone, Copy, Debug, PartialEq, Eq, Structural)]
pub enum CryptoError {
    EmptyInput,
    InputTooLarge,
    Malformed,
    NonCanonical,
    UnsupportedVersion,
    UnsupportedType,
    WrongLength,
    InvalidValue,
    EnvelopeMismatch,
    OlmRejected,
    SignatureRejected,
    Entropy,
    StateRejected,
    RateLimited,
    StorageFailed,
}

/// The description of a `CryptoError`.
pub open spec fn crypto_error_text(error: CryptoError) -> Seq<char> {
    match error {
        CryptoError::EmptyInput => "cryptographic input is empty"@,
        CryptoError::InputTooLarge => "cryptographic input exceeds its limit"@,
        CryptoError::Malformed => "cryptographic input is malformed"@,
        CryptoError::NonCanonical => "cryptographic input is not canonical"@,
        CryptoError::UnsupportedVersion => "cryptographic version is unsupported"@,
        CryptoError::UnsupportedType => "cryptographic message type is unsupported"@,
        CryptoError::WrongLength => "cryptographic field has the wrong length"@,
        CryptoError::InvalidValue => "cryptographic field is invalid"@,
        CryptoError::EnvelopeMismatch => "protected and envelope fields do not match"@,
        CryptoError::OlmRejected => "encrypted message was rejected"@,
        CryptoError::SignatureRejected => "contact signature was rejected"@,
        CryptoError::Entropy => "operating system entropy is unavailable"@,
        CryptoError::StateRejected => "cryptographic state does not allow this operation"@,
        CryptoError::RateLimited => "cryptographic processing is temporarily limited"@,
        CryptoError::StorageFailed => "cryptographic state could not be stored"@,
    }
}

impl CryptoError {
    /// Short human-readable description.
    pub fn message(&self) -> (text: &'static str)
        ensures
            text@ == crypto_error_text(*self),
    {
        match self {
            CryptoError::EmptyInput => "cryptographic input is empty",
            CryptoError::InputTooLarge => "cryptographic input exceeds its limit",
            CryptoError::Malformed => "cryptographic input is malformed",
            CryptoError::NonCanonical => "cryptographic input is not canonical",
            CryptoError::UnsupportedVersion => "cryptographic version is unsupported",
            CryptoError::UnsupportedType => "cryptographic message type is unsupported",
            CryptoError::WrongLength => "cryptographic field has the wrong length",
            CryptoError::InvalidValue => "cryptographic field is invalid",
            CryptoError::EnvelopeMismatch => "protected and envelope fields do not match",
            CryptoError::OlmRejected => "encrypted message was rejected",
            CryptoError::SignatureRejected => "contact signature was rejected",
            CryptoError::Entropy => "operating system entropy is unavailable",
            CryptoError::StateRejected => "cryptographic state does not allow this operation",
            CryptoError::RateLimited => "cryptographic processing is temporarily limited",
            CryptoError::StorageFailed => "cryptographic state could not be stored",
        }
    }
}

} // verus!
