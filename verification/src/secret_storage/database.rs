//! What a secret store checks of an opened database before it trusts it: the
//! cipher and page settings, the schema, its integrity, and the single
//! metadata row.
use vstd::prelude::*;

use super::SecretStorageError;
use crate::cli::same_text;
use crate::crypto::items::{array16, array32};

verus! {

/// Application identifier stamped into every profile database.
pub const APPLICATION_ID: i64 = 0x4c534543;
/// Schema version of a profile database.
pub const SCHEMA_VERSION: i64 = 1;
/// Byte length of a profile identifier.
pub const PROFILE_ID_LENGTH: usize = 16;
/// Byte length of the account pickle key.
pub const PICKLE_KEY_LENGTH: usize = 32;

/// Identifier of one profile.
#[derive(Clone, Copy, PartialEq, Eq, Hash)]
pub struct ProfileId([u8; 16]);

impl View for ProfileId {
    type V = Seq<u8>;

    closed spec fn view(&self) -> Seq<u8> {
        self.0@
    }
}

impl ProfileId {
    pub fn from_bytes(bytes: [u8; 16]) -> (id: Self)
        ensures
            id@ == bytes@,
    {
        ProfileId(bytes)
    }

    pub fn as_bytes(&self) -> (bytes: &[u8; 16])
        ensures
            bytes@ == self@,
    {
        &self.0
    }

    /// Readable form that reveals only the identifier length.
    pub fn redacted_debug(&self) -> (text: &'static str)
        ensures
            text@ == "ProfileId { length: 16, .. }"@,
    {
        "ProfileId { length: 16, .. }"
    }
}

/// What an opened database reports of itself: its cipher version, cipher
/// status and cipher page size as text, its page size, application
/// identifier and user version, the first line of its integrity check, the
/// number of foreign-key errors, and the names of its own tables, sorted and
/// joined by commas.
pub struct DatabaseFacts {
    pub cipher_version: String,
    pub cipher_status: String,
    pub cipher_page_size: String,
    pub page_size: i64,
    pub application_id: i64,
    pub user_version: i64,
    pub integrity: String,
    pub foreign_key_errors: i64,
    pub table_names: String,
}

/// The verdict on an opened database, in the order of the checks: another
/// cipher version is an unsupported schema; a cipher that is not active, a
/// cipher or database page size other than 4096, or another application
/// identifier is corrupt storage; another user version is an unsupported
/// schema; a failed integrity check, foreign-key errors or another set of
/// tables is corrupt storage.
pub open spec fn database_verdict(f: DatabaseFacts) -> Result<(), SecretStorageError> {
    if f.cipher_version@ != "4.17.0 community"@ {
        Err(SecretStorageError::UnsupportedSchema)
    } else if f.cipher_status@ != "1"@ || f.cipher_page_size@ != "4096"@ || f.page_size != 4096
        || f.application_id != APPLICATION_ID {
        Err(SecretStorageError::CorruptStorage)
    } else if f.user_version != SCHEMA_VERSION {
        Err(SecretStorageError::UnsupportedSchema)
    } else if f.integrity@ != "ok"@ || f.foreign_key_errors != 0 || f.table_names@
        != "account_state,contact_exchange,contacts,crypto_attempts,messages,metadata,pending_outbox,session_state"@ {
        Err(SecretStorageError::CorruptStorage)
    } else {
        Ok(())
    }
}

/// Checks an opened database as `database_verdict` describes.
pub fn check_database_facts(facts: &DatabaseFacts) -> (result: Result<(), SecretStorageError>)
    ensures
        result == database_verdict(*facts),
{
    if !same_text(facts.cipher_version.as_str(), "4.17.0 community") {
        return Err(SecretStorageError::UnsupportedSchema);
    }
    if !same_text(facts.cipher_status.as_str(), "1") || !same_text(
        facts.cipher_page_size.as_str(),
        "4096",
    ) || facts.page_size != 4096 || facts.application_id != APPLICATION_ID {
        return Err(SecretStorageError::CorruptStorage);
    }
    if facts.user_version != SCHEMA_VERSION {
        return Err(SecretStorageError::UnsupportedSchema);
    }
    if !same_text(facts.integrity.as_str(), "ok") || facts.foreign_key_errors != 0 || !same_text(
        facts.table_names.as_str(),
        "account_state,contact_exchange,contacts,crypto_attempts,messages,metadata,pending_outbox,session_state",
    ) {
        return Err(SecretStorageError::CorruptStorage);
    }
    Ok(())
}

/// The single metadata row as read from the database.
pub struct MetadataRow {
    pub profile_id: Vec<u8>,
    pub pickle_key: Vec<u8>,
    pub profile_tokens: i64,
    pub pending_contact_tokens: i64,
    pub max_contacts: i64,
    pub max_attempts: i64,
    pub max_outbox_entries: i64,
    pub max_history_entries: i64,
}

/// A metadata row is sound when its token counts lie in their ranges, its
/// limits are the fixed ones, and its identifier and key have their lengths.
pub open spec fn metadata_row_ok(row: MetadataRow) -> bool {
    &&& 0 <= row.profile_tokens <= 32
    &&& 0 <= row.pending_contact_tokens <= 4
    &&& row.max_contacts == 128
    &&& row.max_attempts == 2000
    &&& row.max_outbox_entries == 1000
    &&& row.max_history_entries == 8192
    &&& row.profile_id@.len() == PROFILE_ID_LENGTH
    &&& row.pickle_key@.len() == PICKLE_KEY_LENGTH
}

/// Overwrites every byte with zero.
fn wipe(bytes: &mut Vec<u8>)
    ensures
        final(bytes)@.len() == old(bytes)@.len(),
        forall|i: int| 0 <= i < final(bytes)@.len() ==> final(bytes)@[i] == 0,
{
    let mut i: usize = 0;
    while i < bytes.len()
        invariant
            i <= bytes.len(),
            bytes@.len() == old(bytes)@.len(),
            forall|k: int| 0 <= k < i ==> bytes@[k] == 0,
        decreases bytes.len() - i,
    {
        bytes.set(i, 0);
        i += 1;
    }
}

/// Reads the profile identifier and the pickle key out of a sound metadata
/// row; any other row is `CorruptStorage`. The row's copy of the key is
/// wiped.
pub fn check_metadata_row(row: MetadataRow) -> (result: Result<
    (ProfileId, [u8; 32]),
    SecretStorageError,
>)
    ensures
        metadata_row_ok(row) <==> result is Ok,
        result matches Err(e) ==> e == SecretStorageError::CorruptStorage,
        result matches Ok(parts) ==> parts.0@ == row.profile_id@ && parts.1@ == row.pickle_key@,
{
    let mut stored_key = row.pickle_key;
    if row.profile_tokens < 0 || row.profile_tokens > 32 || row.pending_contact_tokens < 0
        || row.pending_contact_tokens > 4 || row.max_contacts != 128 || row.max_attempts != 2000
        || row.max_outbox_entries != 1000 || row.max_history_entries != 8192
        || row.profile_id.len() != PROFILE_ID_LENGTH || stored_key.len() != PICKLE_KEY_LENGTH {
        wipe(&mut stored_key);
        return Err(SecretStorageError::CorruptStorage);
    }
    let id = array16(row.profile_id.as_slice(), 0);
    let key = array32(stored_key.as_slice(), 0);
    wipe(&mut stored_key);
    proof {
        assert(id@ =~= row.profile_id@);
        assert(key@ =~= row.pickle_key@);
    }
    Ok((ProfileId(id), key))
}

/// A database is trusted exactly when it reports SQLCipher 4.17.0 community,
/// an active cipher with 4096-byte pages, 4096-byte database pages, the
/// application identifier, schema version 1, a passing integrity check, no
/// foreign-key errors and exactly the store's eight tables. Another cipher
/// version, or another schema version with otherwise sound settings, is an
/// unsupported schema; every other refusal is corrupt storage.
pub proof fn law_database_facts(f: DatabaseFacts)
    ensures
        database_verdict(f) is Ok <==> (f.cipher_version@ == "4.17.0 community"@ && f.cipher_status@
            == "1"@ && f.cipher_page_size@ == "4096"@ && f.page_size == 4096 && f.application_id
            == 0x4c534543 && f.user_version == 1 && f.integrity@ == "ok"@ && f.foreign_key_errors
            == 0 && f.table_names@
            == "account_state,contact_exchange,contacts,crypto_attempts,messages,metadata,pending_outbox,session_state"@),
        f.cipher_version@ != "4.17.0 community"@ ==> database_verdict(f) == Err::<
            (),
            SecretStorageError,
        >(SecretStorageError::UnsupportedSchema),
        database_verdict(f) matches Err(e) ==> e == SecretStorageError::UnsupportedSchema || e
            == SecretStorageError::CorruptStorage,
        f.cipher_version@ == "4.17.0 community"@ && f.page_size != 4096 ==> database_verdict(f)
            == Err::<(), SecretStorageError>(SecretStorageError::CorruptStorage),
{
}

} // verus!
