//! Secret profile storage: the passphrase and key-derivation header, contact
//! validation and the discrete token buckets that limit decryption attempts.
use vstd::prelude::*;

pub mod header;
pub mod state;
pub mod database;

verus! {

/// Safe error category of secret storage.
#[derive(Clone, Copy, Debug, PartialEq, Eq, Structural)]
pub enum SecretStorageError {
    HeaderSize,
    MalformedHeader,
    UnsupportedHeader,
    PassphraseLength,
    Entropy,
    Derivation,
    AlreadyExists,
    UnsafeFile,
    Io,
    UnsupportedPlatform,
    CorruptStorage,
    UnknownContact,
    RateLimited,
    QuotaExceeded,
    AttemptAlreadyProcessed,
    IncompleteProfile,
    UnlockFailed,
    UnsupportedSchema,
}

/// The description of a `SecretStorageError`.
pub open spec fn secret_storage_error_text(error: SecretStorageError) -> Seq<char> {
    match error {
        SecretStorageError::HeaderSize => "KDF header size is outside the limit"@,
        SecretStorageError::MalformedHeader => "KDF header is malformed"@,
        SecretStorageError::UnsupportedHeader => "KDF header version is unsupported"@,
        SecretStorageError::PassphraseLength => "passphrase length is outside the allowed range"@,
        SecretStorageError::Entropy => "operating system entropy is unavailable"@,
        SecretStorageError::Derivation => "database key derivation failed"@,
        SecretStorageError::AlreadyExists => "KDF header already exists"@,
        SecretStorageError::UnsafeFile => "KDF header file is unsafe"@,
        SecretStorageError::Io => "KDF header file operation failed"@,
        SecretStorageError::UnsupportedPlatform => "platform is not supported by v0.1"@,
        SecretStorageError::CorruptStorage => "secret storage is corrupt"@,
        SecretStorageError::UnknownContact => "contact is unknown"@,
        SecretStorageError::RateLimited => "decryption attempts are temporarily limited"@,
        SecretStorageError::QuotaExceeded => "secret storage quota is exhausted"@,
        SecretStorageError::AttemptAlreadyProcessed => "message was already processed"@,
        SecretStorageError::IncompleteProfile => "secret profile is incomplete"@,
        SecretStorageError::UnlockFailed => "secret database could not be unlocked"@,
        SecretStorageError::UnsupportedSchema => "secret database schema is unsupported"@,
    }
}

impl SecretStorageError {
    /// Short human-readable description.
    pub fn message(&self) -> (text: &'static str)
        ensures
            text@ == secret_storage_error_text(*self),
    {
        match self {
            SecretStorageError::HeaderSize => "KDF header size is outside the limit",
            SecretStorageError::MalformedHeader => "KDF header is malformed",
            SecretStorageError::UnsupportedHeader => "KDF header version is unsupported",
            SecretStorageError::PassphraseLength => "passphrase length is outside the allowed range",
            SecretStorageError::Entropy => "operating system entropy is unavailable",
            SecretStorageError::Derivation => "database key derivation failed",
            SecretStorageError::AlreadyExists => "KDF header already exists",
            SecretStorageError::UnsafeFile => "KDF header file is unsafe",
            SecretStorageError::Io => "KDF header file operation failed",
            SecretStorageError::UnsupportedPlatform => "platform is not supported by v0.1",
            SecretStorageError::CorruptStorage => "secret storage is corrupt",
            SecretStorageError::UnknownContact => "contact is unknown",
            SecretStorageError::RateLimited => "decryption attempts are temporarily limited",
            SecretStorageError::QuotaExceeded => "secret storage quota is exhausted",
            SecretStorageError::AttemptAlreadyProcessed => "message was already processed",
            SecretStorageError::IncompleteProfile => "secret profile is incomplete",
            SecretStorageError::UnlockFailed => "secret database could not be unlocked",
            SecretStorageError::UnsupportedSchema => "secret database schema is unsupported",
        }
    }
}

} // verus!
