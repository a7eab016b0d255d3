//! The key-derivation header stored beside the encrypted database, the
//! passphrase and the derived database key.
use vstd::prelude::*;

use super::SecretStorageError;
use crate::cbor::{head, lemma_read_canonical_head, push_all, push_head, read_head, read_head_at, slices_equal};
use crate::crypto::inner::{at, lemma_at_split};
use crate::entropy::fill_random;

verus! {

/// Format version of the header.
pub const KDF_FORMAT_VERSION: u64 = 1;
/// Algorithm number of Argon2id version 1.3.
pub const KDF_ALGORITHM_ARGON2ID_13: u64 = 1;
/// Map fields of the header.
pub const KDF_MAP_FIELDS: u64 = 7;
/// Largest accepted header.
pub const KDF_HEADER_MAX_BYTES: usize = 128;
/// Salt length.
pub const KDF_SALT_LENGTH: usize = 16;
/// Length of the derived database key.
pub const DATABASE_KEY_LENGTH: usize = 32;
/// Argon2 memory in KiB.
pub const ARGON2_MEMORY_KIB: u32 = 65536;
/// Argon2 passes.
pub const ARGON2_PASSES: u32 = 3;
/// Argon2 lanes.
pub const ARGON2_PARALLELISM: u32 = 4;
/// Fewest characters of a passphrase.
pub const MIN_PASSPHRASE_CHARS: usize = 16;
/// Most characters of a passphrase.
pub const MAX_PASSPHRASE_CHARS: usize = 128;
/// Most bytes of a passphrase.
pub const MAX_PASSPHRASE_BYTES: usize = 1024;

/// The header: only the salt varies; the algorithm and its parameters are fixed.
pub struct KdfHeader {
    salt: [u8; 16],
}

impl View for KdfHeader {
    type V = Seq<u8>;

    closed spec fn view(&self) -> Seq<u8> {
        self.salt@
    }
}

/// The deterministic CBOR form of a header with `salt`.
pub open spec fn header_bytes(salt: Seq<u8>) -> Seq<u8> {
    head(5, KDF_MAP_FIELDS) + head(0, 0) + head(0, KDF_FORMAT_VERSION) + head(0, 1) + head(
        0,
        KDF_ALGORITHM_ARGON2ID_13,
    ) + head(0, 2) + head(2, 16) + salt + head(0, 3) + head(0, ARGON2_MEMORY_KIB as u64) + head(
        0,
        4,
    ) + head(0, ARGON2_PASSES as u64) + head(0, 5) + head(0, ARGON2_PARALLELISM as u64) + head(
        0,
        6,
    ) + head(0, DATABASE_KEY_LENGTH as u64)
}

/// An unsigned integer item at `pos` no larger than `max`, and the position after it.
pub open spec fn h_uint(s: Seq<u8>, pos: int, max: u64) -> Option<(u64, int)> {
    match read_head(s, pos) {
        Some((m, v, end)) => if m == 0 && v <= max {
            Some((v, end))
        } else {
            None
        },
        None => None,
    }
}

/// Key `key` then a value no larger than `max` at `pos`.
pub open spec fn h_field(s: Seq<u8>, pos: int, key: u64, max: u64) -> Option<(u64, int)> {
    match h_uint(s, pos, 255) {
        Some((k, p)) => if k == key {
            h_uint(s, p, max)
        } else {
            None
        },
        None => None,
    }
}

/// The fields of a header in order: version, algorithm, salt, memory, passes,
/// lanes and output length, with the position after them.
pub open spec fn header_fields(s: Seq<u8>) -> Option<(u64, u64, Seq<u8>, u64, u64, u64, u64, int)> {
    match read_head(s, 0) {
        Some((m, n, p0)) => if m != 5 || n != KDF_MAP_FIELDS {
            None
        } else {
            match h_field(s, p0, 0, 255) {
                None => None,
                Some((version, p1)) => match h_field(s, p1, 1, 255) {
                    None => None,
                    Some((algorithm, p2)) => match h_uint(s, p2, 255) {
                        None => None,
                        Some((k, p3)) => if k != 2 {
                            None
                        } else {
                            match read_head(s, p3) {
                                None => None,
                                Some((bm, bn, p4)) => if bm != 2 || p4 + bn > s.len() || bn != 16 {
                                    None
                                } else {
                                    let salt = s.subrange(p4, p4 + 16);
                                    match h_field(s, p4 + 16, 3, u32::MAX as u64) {
                                        None => None,
                                        Some((memory, p5)) => match h_field(s, p5, 4, u32::MAX as u64) {
                                            None => None,
                                            Some((passes, p6)) => match h_field(s, p6, 5, u32::MAX as u64) {
                                                None => None,
                                                Some((lanes, p7)) => match h_field(s, p7, 6, u32::MAX as u64) {
                                                    None => None,
                                                    Some((output, p8)) => Some(
                                                        (version, algorithm, salt, memory, passes, lanes, output, p8),
                                                    ),
                                                },
                                            },
                                        },
                                    }
                                },
                            }
                        },
                    },
                },
            }
        },
        None => None,
    }
}

/// The outcome of decoding a header: its size first, then its structure,
/// then the supported parameters, and last the requirement that the input is
/// the header's own deterministic encoding.
#[verifier::opaque]
pub open spec fn spec_decode_header(s: Seq<u8>) -> Result<Seq<u8>, SecretStorageError> {
    if s.len() == 0 || s.len() > KDF_HEADER_MAX_BYTES {
        Err(SecretStorageError::HeaderSize)
    } else {
        match header_fields(s) {
            None => Err(SecretStorageError::MalformedHeader),
            Some((version, algorithm, salt, memory, passes, lanes, output, end)) => if end != s.len() {
                Err(SecretStorageError::MalformedHeader)
            } else if version != KDF_FORMAT_VERSION || algorithm != KDF_ALGORITHM_ARGON2ID_13
                || memory != ARGON2_MEMORY_KIB || passes != ARGON2_PASSES || lanes
                != ARGON2_PARALLELISM || output != DATABASE_KEY_LENGTH {
                Err(SecretStorageError::UnsupportedHeader)
            } else if header_bytes(salt) != s {
                Err(SecretStorageError::MalformedHeader)
            } else {
                Ok(salt)
            },
        }
    }
}

fn read_small(input: &[u8], pos: usize, max: u64) -> (result: Option<(u64, usize)>)
    ensures
        match h_uint(input@, pos as int, max) {
            Some((v, end)) => result == Some((v, end as usize)) && pos < end <= input.len(),
            None => result is None,
        },
{
    match read_head_at(input, pos) {
        Some((m, v, end)) => {
            if m == 0 && v <= max {
                Some((v, end))
            } else {
                None
            }
        },
        None => None,
    }
}

fn read_field(input: &[u8], pos: usize, key: u64, max: u64) -> (result: Option<(u64, usize)>)
    ensures
        match h_field(input@, pos as int, key, max) {
            Some((v, end)) => result == Some((v, end as usize)) && pos < end <= input.len(),
            None => result is None,
        },
{
    match read_small(input, pos, 255) {
        Some((k, p)) => {
            if k == key {
                read_small(input, p, max)
            } else {
                None
            }
        },
        None => None,
    }
}

impl KdfHeader {
    /// A header with a fresh random salt.
    pub fn generate() -> (result: Result<Self, SecretStorageError>)
        ensures
            result matches Err(e) ==> e == SecretStorageError::Entropy,
    {
        let mut salt = [0u8; 16];
        if !fill_random(&mut salt) {
            return Err(SecretStorageError::Entropy);
        }
        Ok(KdfHeader { salt })
    }

    /// A header with the given salt.
    pub fn from_salt(salt: [u8; 16]) -> (header: Self)
        ensures
            header@ == salt@,
    {
        KdfHeader { salt }
    }

    pub fn salt(&self) -> (salt: &[u8; 16])
        ensures
            salt@ == self@,
    {
        &self.salt
    }

    pub fn encode(&self) -> (result: Result<Vec<u8>, SecretStorageError>)
        ensures
            result matches Ok(bytes) && bytes@ == header_bytes(self@),
    {
        let mut out: Vec<u8> = Vec::new();
        push_head(&mut out, 5, KDF_MAP_FIELDS);
        push_head(&mut out, 0, 0);
        push_head(&mut out, 0, KDF_FORMAT_VERSION);
        push_head(&mut out, 0, 1);
        push_head(&mut out, 0, KDF_ALGORITHM_ARGON2ID_13);
        push_head(&mut out, 0, 2);
        push_head(&mut out, 2, 16);
        push_all(&mut out, &self.salt);
        push_head(&mut out, 0, 3);
        push_head(&mut out, 0, ARGON2_MEMORY_KIB as u64);
        push_head(&mut out, 0, 4);
        push_head(&mut out, 0, ARGON2_PASSES as u64);
        push_head(&mut out, 0, 5);
        push_head(&mut out, 0, ARGON2_PARALLELISM as u64);
        push_head(&mut out, 0, 6);
        push_head(&mut out, 0, DATABASE_KEY_LENGTH as u64);
        proof {
            assert(out@ =~= header_bytes(self@));
        }
        Ok(out)
    }

    /// Decodes a header as `spec_decode_header` describes.
    pub fn decode(input: &[u8]) -> (result: Result<Self, SecretStorageError>)
        ensures
            match spec_decode_header(input@) {
                Ok(salt) => result matches Ok(h) && h@ == salt,
                Err(e) => result matches Err(x) && x == e,
            },
    {
        proof {
            reveal(spec_decode_header);
        }
        if input.len() == 0 || input.len() > KDF_HEADER_MAX_BYTES {
            return Err(SecretStorageError::HeaderSize);
        }
        let (m, n, p0) = match read_head_at(input, 0) {
            Some(h) => h,
            None => {
                return Err(SecretStorageError::MalformedHeader);
            },
        };
        if m != 5 || n != KDF_MAP_FIELDS {
            return Err(SecretStorageError::MalformedHeader);
        }
        let (version, p1) = match read_field(input, p0, 0, 255) {
            Some(v) => v,
            None => {
                return Err(SecretStorageError::MalformedHeader);
            },
        };
        let (algorithm, p2) = match read_field(input, p1, 1, 255) {
            Some(v) => v,
            None => {
                return Err(SecretStorageError::MalformedHeader);
            },
        };
        let (k, p3) = match read_small(input, p2, 255) {
            Some(v) => v,
            None => {
                return Err(SecretStorageError::MalformedHeader);
            },
        };
        if k != 2 {
            return Err(SecretStorageError::MalformedHeader);
        }
        let (bm, bn, p4) = match read_head_at(input, p3) {
            Some(h) => h,
            None => {
                return Err(SecretStorageError::MalformedHeader);
            },
        };
        if bm != 2 || bn > (input.len() - p4) as u64 || bn != 16 {
            return Err(SecretStorageError::MalformedHeader);
        }
        let salt = crate::crypto::items::array16(input, p4);
        let (memory, p5) = match read_field(input, p4 + 16, 3, 4294967295) {
            Some(v) => v,
            None => {
                return Err(SecretStorageError::MalformedHeader);
            },
        };
        let (passes, p6) = match read_field(input, p5, 4, 4294967295) {
            Some(v) => v,
            None => {
                return Err(SecretStorageError::MalformedHeader);
            },
        };
        let (lanes, p7) = match read_field(input, p6, 5, 4294967295) {
            Some(v) => v,
            None => {
                return Err(SecretStorageError::MalformedHeader);
            },
        };
        let (output, p8) = match read_field(input, p7, 6, 4294967295) {
            Some(v) => v,
            None => {
                return Err(SecretStorageError::MalformedHeader);
            },
        };
        if p8 != input.len() {
            return Err(SecretStorageError::MalformedHeader);
        }
        if version != KDF_FORMAT_VERSION || algorithm != KDF_ALGORITHM_ARGON2ID_13 || memory
            != ARGON2_MEMORY_KIB as u64 || passes != ARGON2_PASSES as u64 || lanes
            != ARGON2_PARALLELISM as u64 || output != DATABASE_KEY_LENGTH as u64 {
            return Err(SecretStorageError::UnsupportedHeader);
        }
        let header = KdfHeader { salt };
        let encoded = match header.encode() {
            Ok(v) => v,
            Err(e) => {
                return Err(e);
            },
        };
        if !slices_equal(encoded.as_slice(), input) {
            return Err(SecretStorageError::MalformedHeader);
        }
        Ok(header)
    }

    /// Derives the database key from a passphrase and this header's salt.
    pub fn derive_database_key(&self, passphrase: &Passphrase) -> (result: Result<
        DatabaseKey,
        SecretStorageError,
    >)
        ensures
            result matches Ok(key) && key@ == argon2id_key(
                passphrase@,
                self@,
                ARGON2_MEMORY_KIB,
                ARGON2_PASSES,
                ARGON2_PARALLELISM,
                DATABASE_KEY_LENGTH,
            ),
    {
        match argon2id_derive(
            passphrase.as_bytes(),
            self.salt.as_slice(),
            ARGON2_MEMORY_KIB,
            ARGON2_PASSES,
            ARGON2_PARALLELISM,
            DATABASE_KEY_LENGTH,
        ) {
            Some(bytes) => Ok(DatabaseKey { bytes }),
            None => Err(SecretStorageError::Derivation),
        }
    }

    /// Readable form that hides the salt.
    pub fn redacted_debug(&self) -> (text: &'static str)
        ensures
            text@ == "KdfHeader { version: 1, algorithm: \"Argon2id\", salt: \"[REDACTED]\" }"@,
    {
        "KdfHeader { version: 1, algorithm: \"Argon2id\", salt: \"[REDACTED]\" }"
    }
}

/// The `out_len` bytes that Argon2id (version 1.3) derives from a passphrase
/// and a salt with the given memory size in KiB, number of passes and lanes.
pub uninterp spec fn argon2id_key(
    passphrase: Seq<u8>,
    salt: Seq<u8>,
    memory_kib: u32,
    passes: u32,
    lanes: u32,
    out_len: usize,
) -> Seq<u8>;

/// Wraps `argon2::Params::new`, `argon2::Argon2::new` and
/// `Argon2::hash_password_into` of the `argon2` crate: what comes back is
/// `argon2id_key` of all the arguments. The crate refuses fewer than eight
/// KiB per lane, no pass, lanes outside 1 to 2^24 - 1, an output shorter
/// than 4 or longer than 2^32 - 1 bytes, a passphrase longer than 2^32 - 1
/// bytes and a salt outside 8 to 2^32 - 1 bytes; within those bounds it
/// succeeds. A refusal gives `None`. More lanes than 2^24 - 1 are left out:
/// the crate multiplies the lane count by eight before it checks that bound,
/// which overflows for large counts.
#[verifier::external_body]
fn argon2id_derive(
    passphrase: &[u8],
    salt: &[u8],
    memory_kib: u32,
    passes: u32,
    lanes: u32,
    out_len: usize,
) -> (key: Option<Vec<u8>>)
    requires
        lanes <= 0xFFFFFF,
    ensures
        match key {
            Some(k) => k@ == argon2id_key(passphrase@, salt@, memory_kib, passes, lanes, out_len),
            None => true,
        },
        8 * lanes <= memory_kib && passes >= 1 && 1 <= lanes <= 0xFFFFFF && 4 <= out_len
            <= 0xFFFFFFFF && passphrase@.len() <= 0xFFFFFFFF && 8 <= salt@.len() <= 0xFFFFFFFF
            ==> key is Some,
{
    let params = match argon2::Params::new(memory_kib, passes, lanes, Some(out_len)) {
        Ok(params) => params,
        Err(_) => return None,
    };
    let hasher = argon2::Argon2::new(argon2::Algorithm::Argon2id, argon2::Version::V0x13, params);
    let mut bytes = vec![0u8; out_len];
    match hasher.hash_password_into(passphrase, salt, &mut bytes) {
        Ok(()) => Some(bytes),
        Err(_) => None,
    }
}

/// A passphrase of 16 to 128 characters and at most 1024 bytes. Its bytes are
/// overwritten with zeros when it is dropped.
pub struct Passphrase {
    bytes: Vec<u8>,
}

impl Drop for Passphrase {
    /// Wraps `zeroize::Zeroize::zeroize` on the bytes: they are overwritten
    /// with zeros before the memory is freed.
    #[verifier::external_body]
    fn drop(&mut self)
        opens_invariants none
        no_unwind
    {
        zeroize::Zeroize::zeroize(&mut self.bytes);
    }
}

impl View for Passphrase {
    type V = Seq<u8>;

    closed spec fn view(&self) -> Seq<u8> {
        self.bytes@
    }
}

/// A passphrase is accepted with 16 to 128 characters and at most 1024 bytes of UTF-8.
pub open spec fn passphrase_ok(text: Seq<char>) -> bool {
    MIN_PASSPHRASE_CHARS <= text.len() <= MAX_PASSPHRASE_CHARS && vstd::utf8::encode_utf8(text).len()
        <= MAX_PASSPHRASE_BYTES
}

/// Wraps `String::into_bytes`: the UTF-8 bytes of the text, without a copy.
#[verifier::external_body]
fn text_into_bytes(text: String) -> (bytes: Vec<u8>)
    ensures
        bytes@ == vstd::utf8::encode_utf8(text@),
{
    text.into_bytes()
}

/// The number of characters of the text, counted up to one past the most a
/// passphrase may hold.
fn capped_char_count(text: &str) -> (count: usize)
    ensures
        count == if text@.len() <= MAX_PASSPHRASE_CHARS { text@.len() } else {
            (MAX_PASSPHRASE_CHARS + 1) as nat
        },
{
    let mut count: usize = 0;
    for c in it: text.chars()
        invariant
            count == if it.index() <= MAX_PASSPHRASE_CHARS { it.index() } else {
                (MAX_PASSPHRASE_CHARS + 1) as int
            },
    {
        if count <= MAX_PASSPHRASE_CHARS {
            count = count + 1;
        }
    }
    count
}

impl Passphrase {
    #[verifier::type_invariant]
    spec fn within_limit(self) -> bool {
        self.bytes@.len() <= MAX_PASSPHRASE_BYTES
    }

    pub fn new(value: String) -> (result: Result<Self, SecretStorageError>)
        ensures
            passphrase_ok(value@) ==> (result matches Ok(p) && p@ == vstd::utf8::encode_utf8(
                value@,
            )),
            !passphrase_ok(value@) ==> (result matches Err(e) && e
                == SecretStorageError::PassphraseLength),
    {
        let count = capped_char_count(value.as_str());
        let bytes = text_into_bytes(value);
        let length = bytes.len();
        if count < MIN_PASSPHRASE_CHARS || count > MAX_PASSPHRASE_CHARS || length > MAX_PASSPHRASE_BYTES {
            return Err(SecretStorageError::PassphraseLength);
        }
        Ok(Passphrase { bytes })
    }

    pub(crate) fn as_bytes(&self) -> (bytes: &[u8])
        ensures
            bytes@ == self@,
            bytes@.len() <= MAX_PASSPHRASE_BYTES,
    {
        proof {
            use_type_invariant(self);
        }
        self.bytes.as_slice()
    }

    /// Readable form that reveals nothing of the passphrase.
    pub fn redacted_debug(&self) -> (text: &'static str)
        ensures
            text@ == "Passphrase([REDACTED])"@,
    {
        "Passphrase([REDACTED])"
    }
}

/// The key that opens the encrypted database. Its bytes are overwritten with
/// zeros when it is dropped.
pub struct DatabaseKey {
    bytes: Vec<u8>,
}

impl Drop for DatabaseKey {
    /// Wraps `zeroize::Zeroize::zeroize` on the bytes: they are overwritten
    /// with zeros before the memory is freed.
    #[verifier::external_body]
    fn drop(&mut self)
        opens_invariants none
        no_unwind
    {
        zeroize::Zeroize::zeroize(&mut self.bytes);
    }
}

impl View for DatabaseKey {
    type V = Seq<u8>;

    closed spec fn view(&self) -> Seq<u8> {
        self.bytes@
    }
}

impl DatabaseKey {
    pub fn as_bytes(&self) -> (bytes: &[u8])
        ensures
            bytes@ == self@,
    {
        self.bytes.as_slice()
    }

    /// Readable form that reveals nothing of the key.
    pub fn redacted_debug(&self) -> (text: &'static str)
        ensures
            text@ == "DatabaseKey([REDACTED])"@,
    {
        "DatabaseKey([REDACTED])"
    }
}

/// What an opened header file must be: a regular file of 1 to 128 bytes,
/// readable and writable by its owner alone, with one name.
pub open spec fn header_file_safe(is_file: bool, len: u64, mode: u32, link_count: u64) -> bool {
    &&& is_file
    &&& 0 < len <= KDF_HEADER_MAX_BYTES
    &&& mode % 512 == 384
    &&& link_count == 1
}

/// Checks the metadata of an opened header file; `UnsafeFile` when it is not
/// `header_file_safe`. The permission bits are the low nine bits of `mode`.
pub fn validate_header_file(is_file: bool, len: u64, mode: u32, link_count: u64) -> (result: Result<
    (),
    SecretStorageError,
>)
    ensures
        header_file_safe(is_file, len, mode, link_count) ==> result is Ok,
        !header_file_safe(is_file, len, mode, link_count) ==> result == Err::<(), SecretStorageError>(
            SecretStorageError::UnsafeFile,
        ),
{
    let permissions: u32 = mode % 512;
    if !is_file || len == 0 || len > 128 || permissions != 384 || link_count != 1 {
        return Err(SecretStorageError::UnsafeFile);
    }
    Ok(())
}

/// A map key followed by a number.
pub open spec fn key_value(key: u64, value: u64) -> Seq<u8> {
    head(0, key) + head(0, value)
}

proof fn lemma_small_at(s: Seq<u8>, pos: int, n: u64, max: u64)
    requires
        n <= max,
        at(s, pos, head(0, n)),
    ensures
        h_uint(s, pos, max) == Some((n, pos + head(0, n).len())),
{
    lemma_read_canonical_head(s, pos, 0, n);
}

proof fn lemma_field_at(s: Seq<u8>, pos: int, key: u64, value: u64, max: u64)
    requires
        key <= 255,
        value <= max,
        at(s, pos, key_value(key, value)),
    ensures
        h_field(s, pos, key, max) == Some((value, pos + key_value(key, value).len())),
{
    lemma_at_split(s, pos, head(0, key), head(0, value));
    lemma_small_at(s, pos, key, 255);
    lemma_small_at(s, pos + head(0, key).len(), value, max);
}

/// The header's encoding as its map head, its fields and the salt.
proof fn lemma_header_layout(salt: Seq<u8>)
    ensures
        header_bytes(salt) =~= head(5, KDF_MAP_FIELDS) + key_value(0, KDF_FORMAT_VERSION)
            + key_value(1, KDF_ALGORITHM_ARGON2ID_13) + (head(0, 2) + (head(2, 16) + salt))
            + key_value(3, ARGON2_MEMORY_KIB as u64) + key_value(4, ARGON2_PASSES as u64)
            + key_value(5, ARGON2_PARALLELISM as u64) + key_value(6, DATABASE_KEY_LENGTH as u64),
{
}

/// Decoding the encoding of a header gives its salt back.
pub proof fn law_header_roundtrip(salt: Seq<u8>)
    requires
        salt.len() == KDF_SALT_LENGTH,
    ensures
        spec_decode_header(header_bytes(salt)) == Ok::<Seq<u8>, SecretStorageError>(salt),
{
    let s = header_bytes(salt);
    lemma_header_layout(salt);
    crate::cbor::lemma_head_shape(5, KDF_MAP_FIELDS);
    crate::cbor::lemma_head_shape(0, 0);
    crate::cbor::lemma_head_shape(0, 1);
    crate::cbor::lemma_head_shape(0, 2);
    crate::cbor::lemma_head_shape(0, 3);
    crate::cbor::lemma_head_shape(0, 4);
    crate::cbor::lemma_head_shape(0, 5);
    crate::cbor::lemma_head_shape(0, 6);
    crate::cbor::lemma_head_shape(0, 32);
    crate::cbor::lemma_head_shape(0, 65536);
    crate::cbor::lemma_head_shape(2, 16);
    let a = head(5, KDF_MAP_FIELDS);
    let f0 = key_value(0, KDF_FORMAT_VERSION);
    let f1 = key_value(1, KDF_ALGORITHM_ARGON2ID_13);
    let fs = head(0, 2) + (head(2, 16) + salt);
    let f3 = key_value(3, ARGON2_MEMORY_KIB as u64);
    let f4 = key_value(4, ARGON2_PASSES as u64);
    let f5 = key_value(5, ARGON2_PARALLELISM as u64);
    let f6 = key_value(6, DATABASE_KEY_LENGTH as u64);
    assert(s.subrange(0, s.len() as int) =~= s);
    assert(s =~= a + (f0 + (f1 + (fs + (f3 + (f4 + (f5 + f6)))))));
    lemma_at_split(s, 0, a, f0 + (f1 + (fs + (f3 + (f4 + (f5 + f6))))));
    lemma_read_canonical_head(s, 0, 5, KDF_MAP_FIELDS);
    let p0 = a.len() as int;
    lemma_at_split(s, p0, f0, f1 + (fs + (f3 + (f4 + (f5 + f6)))));
    lemma_field_at(s, p0, 0, KDF_FORMAT_VERSION, 255);
    let p1 = p0 + f0.len();
    lemma_at_split(s, p1, f1, fs + (f3 + (f4 + (f5 + f6))));
    lemma_field_at(s, p1, 1, KDF_ALGORITHM_ARGON2ID_13, 255);
    let p2 = p1 + f1.len();
    lemma_at_split(s, p2, fs, f3 + (f4 + (f5 + f6)));
    lemma_at_split(s, p2, head(0, 2), head(2, 16) + salt);
    lemma_small_at(s, p2, 2, 255);
    let p3 = p2 + head(0, 2).len();
    lemma_at_split(s, p3, head(2, 16), salt);
    lemma_read_canonical_head(s, p3, 2, 16);
    let p4 = p3 + head(2, 16).len();
    assert(s.subrange(p4, p4 + 16) =~= salt);
    let p5 = p4 + 16;
    assert(p5 == p2 + fs.len());
    lemma_at_split(s, p5, f3, f4 + (f5 + f6));
    lemma_field_at(s, p5, 3, ARGON2_MEMORY_KIB as u64, u32::MAX as u64);
    let p6 = p5 + f3.len();
    lemma_at_split(s, p6, f4, f5 + f6);
    lemma_field_at(s, p6, 4, ARGON2_PASSES as u64, u32::MAX as u64);
    let p7 = p6 + f4.len();
    lemma_at_split(s, p7, f5, f6);
    lemma_field_at(s, p7, 5, ARGON2_PARALLELISM as u64, u32::MAX as u64);
    let p8 = p7 + f5.len();
    lemma_field_at(s, p8, 6, DATABASE_KEY_LENGTH as u64, u32::MAX as u64);
    assert(p8 + f6.len() == s.len());
    reveal(spec_decode_header);
}

/// Whatever the header decoder accepts is exactly the encoding of the salt
/// it returns.
pub proof fn law_header_canonical(s: Seq<u8>)
    requires
        spec_decode_header(s) is Ok,
    ensures
        s == header_bytes(spec_decode_header(s)->Ok_0),
{
    reveal(spec_decode_header);
}

/// A passphrase holds 16 to 128 characters and at most 1024 bytes of UTF-8:
/// fewer or more characters are refused however short the encoding.
pub proof fn law_passphrase_bounds(text: Seq<char>)
    ensures
        text.len() < 16 ==> !passphrase_ok(text),
        text.len() > 128 ==> !passphrase_ok(text),
        passphrase_ok(text) ==> 16 <= text.len() <= 128 && vstd::utf8::encode_utf8(text).len()
            <= 1024,
        16 <= text.len() <= 128 && vstd::utf8::encode_utf8(text).len() <= 1024 ==> passphrase_ok(
            text,
        ),
{
}

/// An opened header file is safe exactly when it is a regular file of 1 to
/// 128 bytes with one name, readable and writable by its owner and by
/// nobody else.
pub proof fn law_header_file(is_file: bool, len: u64, mode: u32, link_count: u64)
    ensures
        header_file_safe(is_file, len, mode, link_count) <==> (is_file && 1 <= len <= 128
            && link_count == 1 && (mode / 64) % 8 == 6 && (mode / 8) % 8 == 0 && mode % 8 == 0),
{
    let m = mode as int;
    assert(m % 512 == 64 * ((m / 64) % 8) + 8 * ((m / 8) % 8) + m % 8) by (nonlinear_arith)
        requires
            m >= 0,
    ;
}

} // verus!
