//! Deterministic CBOR form of an Envelope: a map of exactly seven fields with
//! keys 0 to 6 in order, shortest heads everywhere, definite lengths only.
use vstd::prelude::*;

use crate::cbor::{
    canonical_at, check_canonical, copy_range, head, push_all, push_head, read_head,
    read_head_at,
};
use crate::envelope::{
    payload_size_in_range, range_error, Envelope, EnvelopeView, MaxHops, Priority, TtlSeconds,
};
use crate::error::{core_error_text, decimal_chars, decimal_text, CoreError, Field};
use crate::{
    MAX_ENVELOPE_SIZE, MAX_MAX_HOPS, MAX_PROTECTED_PAYLOAD_SIZE, MAX_TTL_SECONDS, MIN_MAX_HOPS,
    MIN_TTL_SECONDS, NORMAL_PRIORITY, PROTOCOL_VERSION,
};

verus! {

/// Location of a strict CBOR validation failure.
#[derive(Clone, Copy, Debug, PartialEq, Eq, Structural)]
pub enum CborField {
    Envelope,
    MapKey,
    ProtocolVersion,
    MessageId,
    RecipientHint,
    TtlSeconds,
    MaxHops,
    Priority,
    ProtectedPayload,
}

/// Safe CBOR error category that does not contain input bytes.
#[derive(Clone, Copy, Debug, PartialEq, Eq, Structural)]
pub enum CborError {
    EmptyInput,
    InputTooLarge,
    Malformed,
    ExpectedMap,
    IndefiniteLength { field: CborField },
    WrongMapLength,
    UnexpectedMapKey { expected: u8 },
    WrongType { field: CborField },
    WrongLength { field: CborField },
    NonCanonical { field: CborField },
    TrailingData,
    EnvelopeValidation(CoreError),
    EncodingFailed,
    OutputTooLarge,
}

impl CborField {
    /// The field's name as `Debug` writes it.
    pub open spec fn spec_name(self) -> Seq<char> {
        match self {
            CborField::Envelope => "Envelope"@,
            CborField::MapKey => "MapKey"@,
            CborField::ProtocolVersion => "ProtocolVersion"@,
            CborField::MessageId => "MessageId"@,
            CborField::RecipientHint => "RecipientHint"@,
            CborField::TtlSeconds => "TtlSeconds"@,
            CborField::MaxHops => "MaxHops"@,
            CborField::Priority => "Priority"@,
            CborField::ProtectedPayload => "ProtectedPayload"@,
        }
    }

    /// The field's name as `Debug` writes it.
    pub fn name(&self) -> (name: &'static str)
        ensures
            name@ == self.spec_name(),
    {
        match self {
            CborField::Envelope => "Envelope",
            CborField::MapKey => "MapKey",
            CborField::ProtocolVersion => "ProtocolVersion",
            CborField::MessageId => "MessageId",
            CborField::RecipientHint => "RecipientHint",
            CborField::TtlSeconds => "TtlSeconds",
            CborField::MaxHops => "MaxHops",
            CborField::Priority => "Priority",
            CborField::ProtectedPayload => "ProtectedPayload",
        }
    }
}

/// The description of a CBOR failure; it names the field or the expected
/// key, never an input byte.
pub open spec fn cbor_error_text(error: CborError) -> Seq<char> {
    match error {
        CborError::EmptyInput => "empty CBOR input"@,
        CborError::InputTooLarge => "CBOR input exceeds the size limit"@,
        CborError::Malformed => "malformed CBOR input"@,
        CborError::ExpectedMap => "top-level CBOR value must be a map"@,
        CborError::IndefiniteLength { field } => "indefinite CBOR length for "@ + field.spec_name(),
        CborError::WrongMapLength => "wrong Envelope map length"@,
        CborError::UnexpectedMapKey { expected } => "unexpected Envelope map key; expected "@
            + decimal_chars(expected as nat),
        CborError::WrongType { field } => "wrong CBOR type for "@ + field.spec_name(),
        CborError::WrongLength { field } => "wrong CBOR length for "@ + field.spec_name(),
        CborError::NonCanonical { field } => "non-canonical CBOR representation for "@
            + field.spec_name(),
        CborError::TrailingData => "trailing data after Envelope"@,
        CborError::EnvelopeValidation(e) => "invalid Envelope: "@ + core_error_text(e),
        CborError::EncodingFailed => "CBOR encoding failed"@,
        CborError::OutputTooLarge => "encoded Envelope exceeds the size limit"@,
    }
}

impl CborError {
    /// Human-readable description, as `cbor_error_text` gives it.
    pub fn message(&self) -> (text: String)
        ensures
            text@ == cbor_error_text(*self),
    {
        match self {
            CborError::EmptyInput => String::from_str("empty CBOR input"),
            CborError::InputTooLarge => String::from_str("CBOR input exceeds the size limit"),
            CborError::Malformed => String::from_str("malformed CBOR input"),
            CborError::ExpectedMap => String::from_str("top-level CBOR value must be a map"),
            CborError::IndefiniteLength { field } => String::from_str(
                "indefinite CBOR length for ",
            ).concat(field.name()),
            CborError::WrongMapLength => String::from_str("wrong Envelope map length"),
            CborError::UnexpectedMapKey { expected } => String::from_str(
                "unexpected Envelope map key; expected ",
            ).concat(decimal_text(*expected).as_str()),
            CborError::WrongType { field } => String::from_str("wrong CBOR type for ").concat(
                field.name(),
            ),
            CborError::WrongLength { field } => String::from_str("wrong CBOR length for ").concat(
                field.name(),
            ),
            CborError::NonCanonical { field } => String::from_str(
                "non-canonical CBOR representation for ",
            ).concat(field.name()),
            CborError::TrailingData => String::from_str("trailing data after Envelope"),
            CborError::EnvelopeValidation(e) => String::from_str("invalid Envelope: ").concat(
                e.message().as_str(),
            ),
            CborError::EncodingFailed => String::from_str("CBOR encoding failed"),
            CborError::OutputTooLarge => String::from_str("encoded Envelope exceeds the size limit"),
        }
    }

    /// Wraps an Envelope validation failure.
    pub fn from_core(error: CoreError) -> (wrapped: Self)
        ensures
            wrapped == CborError::EnvelopeValidation(error),
    {
        CborError::EnvelopeValidation(error)
    }
}

/// Number of fields of an encoded Envelope map.
pub const ENVELOPE_FIELD_COUNT: u64 = 7;

/// The type of the item at `pos` can be determined: the byte exists and, for a
/// negative integer with a one-to-eight byte argument, so does the next byte.
pub open spec fn type_readable(s: Seq<u8>, pos: int) -> bool {
    &&& 0 <= pos < s.len()
    &&& !(0x38 <= s[pos] <= 0x3b && pos + 1 >= s.len())
}

/// A canonical unsigned integer at `pos` and the position after it.
pub open spec fn spec_unsigned(s: Seq<u8>, pos: int, field: CborField) -> Result<(u64, int), CborError> {
    if !type_readable(s, pos) {
        Err(CborError::Malformed)
    } else if s[pos] > 0x1b {
        Err(CborError::WrongType { field })
    } else {
        match read_head(s, pos) {
            None => Err(CborError::Malformed),
            Some((m, v, end)) => if canonical_at(s, pos, 0, v, end) {
                Ok((v, end))
            } else {
                Err(CborError::NonCanonical { field })
            },
        }
    }
}

/// A canonical definite byte string at `pos`: its content and the position after it.
pub open spec fn spec_bytes(s: Seq<u8>, pos: int, field: CborField) -> Result<(Seq<u8>, int), CborError> {
    if !type_readable(s, pos) {
        Err(CborError::Malformed)
    } else if s[pos] == 0x5f {
        Err(CborError::IndefiniteLength { field })
    } else if !(0x40 <= s[pos] <= 0x5b) {
        Err(CborError::WrongType { field })
    } else {
        match read_head(s, pos) {
            None => Err(CborError::Malformed),
            Some((m, n, hend)) => if hend + n > s.len() {
                Err(CborError::Malformed)
            } else if !canonical_at(s, pos, 2, n, hend) {
                Err(CborError::NonCanonical { field })
            } else {
                Ok((s.subrange(hend, hend + n), hend + n))
            },
        }
    }
}

/// The map key `key` at `pos`, then a canonical unsigned integer.
pub open spec fn spec_key_unsigned(s: Seq<u8>, pos: int, key: u8, field: CborField) -> Result<(u64, int), CborError> {
    match spec_unsigned(s, pos, CborField::MapKey) {
        Err(e) => Err(e),
        Ok((k, p)) => if k != key {
            Err(CborError::UnexpectedMapKey { expected: key })
        } else {
            spec_unsigned(s, p, field)
        },
    }
}

/// The map key `key` at `pos`, then a canonical byte string.
pub open spec fn spec_key_bytes(s: Seq<u8>, pos: int, key: u8, field: CborField) -> Result<(Seq<u8>, int), CborError> {
    match spec_unsigned(s, pos, CborField::MapKey) {
        Err(e) => Err(e),
        Ok((k, p)) => if k != key {
            Err(CborError::UnexpectedMapKey { expected: key })
        } else {
            spec_bytes(s, p, field)
        },
    }
}

/// The canonical definite map header of seven entries at the start.
pub open spec fn spec_map_header(s: Seq<u8>) -> Result<int, CborError> {
    if !type_readable(s, 0) {
        Err(CborError::Malformed)
    } else if s[0] == 0xbf {
        Err(CborError::IndefiniteLength { field: CborField::Envelope })
    } else if !(0xa0 <= s[0] <= 0xbb) {
        Err(CborError::ExpectedMap)
    } else {
        match read_head(s, 0) {
            None => Err(CborError::Malformed),
            Some((m, n, end)) => if n != ENVELOPE_FIELD_COUNT {
                Err(CborError::WrongMapLength)
            } else if !canonical_at(s, 0, 5, n, end) {
                Err(CborError::NonCanonical { field: CborField::Envelope })
            } else {
                Ok(end)
            },
        }
    }
}

/// Decoding of the fields after the map header, in wire order.
pub open spec fn spec_decode_fields(s: Seq<u8>, p0: int) -> Result<EnvelopeView, CborError> {
    match spec_key_unsigned(s, p0, 0, CborField::ProtocolVersion) {
        Err(e) => Err(e),
        Ok((version, p1)) => if version != PROTOCOL_VERSION {
            Err(CborError::EnvelopeValidation(CoreError::UnsupportedValue { field: Field::ProtocolVersion }))
        } else {
            match spec_key_bytes(s, p1, 1, CborField::MessageId) {
                Err(e) => Err(e),
                Ok((id, p2)) => if id.len() != 16 {
                    Err(CborError::WrongLength { field: CborField::MessageId })
                } else {
                    match spec_key_bytes(s, p2, 2, CborField::RecipientHint) {
                        Err(e) => Err(e),
                        Ok((hint, p3)) => if hint.len() != 16 {
                            Err(CborError::WrongLength { field: CborField::RecipientHint })
                        } else {
                            spec_decode_limits(s, p3, id, hint)
                        },
                    }
                },
            }
        },
    }
}

/// Decoding of lifetime, hop limit, priority and payload.
pub open spec fn spec_decode_limits(s: Seq<u8>, p3: int, id: Seq<u8>, hint: Seq<u8>) -> Result<EnvelopeView, CborError> {
    match spec_key_unsigned(s, p3, 3, CborField::TtlSeconds) {
        Err(e) => Err(e),
        Ok((ttl, p4)) => match range_error(ttl as int, MIN_TTL_SECONDS as int, MAX_TTL_SECONDS as int, Field::TtlSeconds) {
            Err(e) => Err(CborError::EnvelopeValidation(e)),
            Ok(()) => match spec_key_unsigned(s, p4, 4, CborField::MaxHops) {
                Err(e) => Err(e),
                Ok((hops, p5)) => match range_error(hops as int, MIN_MAX_HOPS as int, MAX_MAX_HOPS as int, Field::MaxHops) {
                    Err(e) => Err(CborError::EnvelopeValidation(e)),
                    Ok(()) => match spec_key_unsigned(s, p5, 5, CborField::Priority) {
                        Err(e) => Err(e),
                        Ok((priority, p6)) => if priority != NORMAL_PRIORITY {
                            Err(CborError::EnvelopeValidation(CoreError::UnsupportedValue { field: Field::Priority }))
                        } else {
                            match spec_key_bytes(s, p6, 6, CborField::ProtectedPayload) {
                                Err(e) => Err(e),
                                Ok((payload, p7)) => if !payload_size_in_range(payload.len() as int) {
                                    Err(CborError::WrongLength { field: CborField::ProtectedPayload })
                                } else if p7 != s.len() {
                                    Err(CborError::TrailingData)
                                } else {
                                    Ok(EnvelopeView {
                                        message_id: id,
                                        recipient_hint: hint,
                                        ttl_seconds: ttl as int,
                                        max_hops: hops as int,
                                        payload,
                                    })
                                },
                            }
                        },
                    },
                },
            },
        },
    }
}

/// Strict decoding of one Envelope, checking size, then every field in wire order.
pub open spec fn spec_decode_envelope(s: Seq<u8>) -> Result<EnvelopeView, CborError> {
    if s.len() == 0 {
        Err(CborError::EmptyInput)
    } else if s.len() > MAX_ENVELOPE_SIZE {
        Err(CborError::InputTooLarge)
    } else {
        match spec_map_header(s) {
            Err(e) => Err(e),
            Ok(p0) => spec_decode_fields(s, p0),
        }
    }
}

/// The deterministic encoding of an Envelope.
pub open spec fn spec_encode_envelope(v: EnvelopeView) -> Seq<u8> {
    head(5, 7) + head(0, 0) + head(0, 1) + head(0, 1) + head(2, 16) + v.message_id + head(0, 2)
        + head(2, 16) + v.recipient_hint + head(0, 3) + head(0, v.ttl_seconds as u64) + head(0, 4)
        + head(0, v.max_hops as u64) + head(0, 5) + head(0, 0) + head(0, 6) + head(
        2,
        v.payload.len() as u64,
    ) + v.payload
}

fn decode_unsigned(input: &[u8], pos: usize, field: CborField) -> (result: Result<(u64, usize), CborError>)
    ensures
        spec_unsigned(input@, pos as int, field) matches Ok((v, end)) ==> pos < end <= input@.len(),
        match spec_unsigned(input@, pos as int, field) {
            Ok((v, end)) => result == Ok::<(u64, usize), CborError>((v, end as usize)),
            Err(e) => result == Err::<(u64, usize), CborError>(e),
        },
{
    if pos >= input.len() {
        return Err(CborError::Malformed);
    }
    let b = input[pos];
    if 0x38 <= b && b <= 0x3b && pos + 1 >= input.len() {
        return Err(CborError::Malformed);
    }
    if b > 0x1b {
        return Err(CborError::WrongType { field });
    }
    match read_head_at(input, pos) {
        None => Err(CborError::Malformed),
        Some((_m, v, end)) => {
            if check_canonical(input, pos, end, 0, v) {
                Ok((v, end))
            } else {
                Err(CborError::NonCanonical { field })
            }
        },
    }
}

fn decode_bytes(input: &[u8], pos: usize, field: CborField) -> (result: Result<(usize, usize), CborError>)
    ensures
        match spec_bytes(input@, pos as int, field) {
            Ok((content, end)) => result matches Ok((start, stop)) && stop == end && start <= stop
                && stop <= input@.len() && input@.subrange(start as int, stop as int) == content,
            Err(e) => result == Err::<(usize, usize), CborError>(e),
        },
{
    if pos >= input.len() {
        return Err(CborError::Malformed);
    }
    let b = input[pos];
    if 0x38 <= b && b <= 0x3b && pos + 1 >= input.len() {
        return Err(CborError::Malformed);
    }
    if b == 0x5f {
        return Err(CborError::IndefiniteLength { field });
    }
    if !(0x40 <= b && b <= 0x5b) {
        return Err(CborError::WrongType { field });
    }
    match read_head_at(input, pos) {
        None => Err(CborError::Malformed),
        Some((_m, n, hend)) => {
            if n > (input.len() - hend) as u64 {
                return Err(CborError::Malformed);
            }
            if !check_canonical(input, pos, hend, 2, n) {
                return Err(CborError::NonCanonical { field });
            }
            Ok((hend, hend + n as usize))
        },
    }
}

fn decode_key_unsigned(input: &[u8], pos: usize, key: u8, field: CborField) -> (result: Result<(u64, usize), CborError>)
    ensures
        match spec_key_unsigned(input@, pos as int, key, field) {
            Ok((v, end)) => result == Ok::<(u64, usize), CborError>((v, end as usize)),
            Err(e) => result == Err::<(u64, usize), CborError>(e),
        },
{
    let _total = input.len();
    let (k, p) = match decode_unsigned(input, pos, CborField::MapKey) {
        Ok(found) => found,
        Err(e) => return Err(e),
    };
    if k != key as u64 {
        return Err(CborError::UnexpectedMapKey { expected: key });
    }
    decode_unsigned(input, p, field)
}

fn decode_key_bytes(input: &[u8], pos: usize, key: u8, field: CborField) -> (result: Result<(usize, usize), CborError>)
    ensures
        match spec_key_bytes(input@, pos as int, key, field) {
            Ok((content, end)) => result matches Ok((start, stop)) && stop == end && start <= stop
                && stop <= input@.len() && input@.subrange(start as int, stop as int) == content,
            Err(e) => result == Err::<(usize, usize), CborError>(e),
        },
{
    let _total = input.len();
    let (k, p) = match decode_unsigned(input, pos, CborField::MapKey) {
        Ok(found) => found,
        Err(e) => return Err(e),
    };
    if k != key as u64 {
        return Err(CborError::UnexpectedMapKey { expected: key });
    }
    decode_bytes(input, p, field)
}

fn decode_map_header(input: &[u8]) -> (result: Result<usize, CborError>)
    ensures
        match spec_map_header(input@) {
            Ok(end) => result == Ok::<usize, CborError>(end as usize),
            Err(e) => result == Err::<usize, CborError>(e),
        },
{
    if input.len() == 0 {
        return Err(CborError::Malformed);
    }
    let b = input[0];
    if 0x38 <= b && b <= 0x3b && 1 >= input.len() {
        return Err(CborError::Malformed);
    }
    if b == 0xbf {
        return Err(CborError::IndefiniteLength { field: CborField::Envelope });
    }
    if !(0xa0 <= b && b <= 0xbb) {
        return Err(CborError::ExpectedMap);
    }
    match read_head_at(input, 0) {
        None => Err(CborError::Malformed),
        Some((_m, n, end)) => {
            if n != ENVELOPE_FIELD_COUNT {
                return Err(CborError::WrongMapLength);
            }
            if !check_canonical(input, 0, end, 5, n) {
                return Err(CborError::NonCanonical { field: CborField::Envelope });
            }
            Ok(end)
        },
    }
}

/// Encode an Envelope using the deterministic v0.1 CBOR representation.
pub fn encode_envelope(envelope: &Envelope) -> (result: Result<Vec<u8>, CborError>)
    ensures
        result matches Ok(bytes) && bytes@ == spec_encode_envelope(envelope@),
{
    envelope.establish_valid();
    let mut out: Vec<u8> = Vec::new();
    push_head(&mut out, 5, ENVELOPE_FIELD_COUNT);
    push_head(&mut out, 0, 0);
    push_head(&mut out, 0, envelope.protocol_version());
    push_head(&mut out, 0, 1);
    push_head(&mut out, 2, 16);
    push_all(&mut out, envelope.message_id().as_bytes());
    push_head(&mut out, 0, 2);
    push_head(&mut out, 2, 16);
    push_all(&mut out, envelope.recipient_hint().as_bytes());
    push_head(&mut out, 0, 3);
    push_head(&mut out, 0, envelope.ttl_seconds().get() as u64);
    push_head(&mut out, 0, 4);
    push_head(&mut out, 0, envelope.max_hops().get() as u64);
    push_head(&mut out, 0, 5);
    push_head(&mut out, 0, envelope.priority().as_raw());
    push_head(&mut out, 0, 6);
    let payload = envelope.protected_payload().as_bytes();
    push_head(&mut out, 2, payload.len() as u64);
    push_all(&mut out, payload);
    assert(out@ =~= spec_encode_envelope(envelope@));
    proof {
        law_encoded_size(envelope@);
    }
    if out.len() > MAX_ENVELOPE_SIZE {
        return Err(CborError::OutputTooLarge);
    }
    Ok(out)
}

/// Size in bytes of the deterministic encoding of an Envelope.
pub fn encoded_envelope_size(envelope: &Envelope) -> (size: usize)
    ensures
        size == spec_encode_envelope(envelope@).len(),
        size <= MAX_ENVELOPE_SIZE,
{
    envelope.establish_valid();
    proof {
        law_encoded_size(envelope@);
    }
    match encode_envelope(envelope) {
        Ok(bytes) => bytes.len(),
        Err(_) => 0,
    }
}

/// Decode one strict deterministic Envelope from a bounded byte slice.
pub fn decode_envelope(input: &[u8]) -> (result: Result<Envelope, CborError>)
    ensures
        match spec_decode_envelope(input@) {
            Ok(v) => result matches Ok(e) && e@ == v,
            Err(err) => result matches Err(r) && r == err,
        },
{
    if input.len() == 0 {
        return Err(CborError::EmptyInput);
    }
    if input.len() > MAX_ENVELOPE_SIZE {
        return Err(CborError::InputTooLarge);
    }
    let p0 = match decode_map_header(input) {
        Ok(p) => p,
        Err(e) => return Err(e),
    };
    let (version, p1) = match decode_key_unsigned(input, p0, 0, CborField::ProtocolVersion) {
        Ok(found) => found,
        Err(e) => return Err(e),
    };
    if version != PROTOCOL_VERSION {
        return Err(CborError::EnvelopeValidation(CoreError::UnsupportedValue { field: Field::ProtocolVersion }));
    }
    let (id_start, p2) = match decode_key_bytes(input, p1, 1, CborField::MessageId) {
        Ok(found) => found,
        Err(e) => return Err(e),
    };
    if p2 - id_start != 16 {
        return Err(CborError::WrongLength { field: CborField::MessageId });
    }
    let (hint_start, p3) = match decode_key_bytes(input, p2, 2, CborField::RecipientHint) {
        Ok(found) => found,
        Err(e) => return Err(e),
    };
    if p3 - hint_start != 16 {
        return Err(CborError::WrongLength { field: CborField::RecipientHint });
    }
    let (ttl, p4) = match decode_key_unsigned(input, p3, 3, CborField::TtlSeconds) {
        Ok(found) => found,
        Err(e) => return Err(e),
    };
    if let Err(e) = TtlSeconds::try_from_raw(ttl) {
        return Err(CborError::EnvelopeValidation(e));
    }
    let (hops, p5) = match decode_key_unsigned(input, p4, 4, CborField::MaxHops) {
        Ok(found) => found,
        Err(e) => return Err(e),
    };
    if let Err(e) = MaxHops::try_from_raw(hops) {
        return Err(CborError::EnvelopeValidation(e));
    }
    let (priority, p6) = match decode_key_unsigned(input, p5, 5, CborField::Priority) {
        Ok(found) => found,
        Err(e) => return Err(e),
    };
    if let Err(e) = Priority::try_from_raw(priority) {
        return Err(CborError::EnvelopeValidation(e));
    }
    let (payload_start, p7) = match decode_key_bytes(input, p6, 6, CborField::ProtectedPayload) {
        Ok(found) => found,
        Err(e) => return Err(e),
    };
    let payload_len = p7 - payload_start;
    if payload_len == 0 || payload_len > MAX_PROTECTED_PAYLOAD_SIZE {
        return Err(CborError::WrongLength { field: CborField::ProtectedPayload });
    }
    if p7 != input.len() {
        return Err(CborError::TrailingData);
    }
    let id = copy16(input, id_start);
    let hint = copy16(input, hint_start);
    let payload = copy_range(input, payload_start, p7);
    match Envelope::try_from_fields(version, id, hint, ttl, hops, priority, payload) {
        Ok(envelope) => Ok(envelope),
        Err(e) => Err(CborError::EnvelopeValidation(e)),
    }
}

fn copy16(input: &[u8], start: usize) -> (out: [u8; 16])
    requires
        start + 16 <= input@.len(),
    ensures
        out@ == input@.subrange(start as int, start + 16),
{
    let mut out = [0u8; 16];
    let mut i: usize = 0;
    let total = input.len();
    while i < 16
        invariant
            total == input@.len(),
            start + 16 <= input@.len(),
            0 <= i <= 16,
            out@.len() == 16,
            forall|k: int| 0 <= k < i ==> out@[k] == input@[start + k],
        decreases 16 - i,
    {
        out[i] = input[start + i];
        i = i + 1;
    }
    assert(out@ =~= input@.subrange(start as int, start + 16));
    out
}

/// The deterministic encoding of a valid Envelope never exceeds the serialized size limit.
pub proof fn law_encoded_size(v: EnvelopeView)
    requires
        v.valid(),
    ensures
        spec_encode_envelope(v).len() <= MAX_ENVELOPE_SIZE,
{
    crate::cbor::lemma_head_shape(5, 7);
    crate::cbor::lemma_head_shape(0, 0);
    crate::cbor::lemma_head_shape(0, 1);
    crate::cbor::lemma_head_shape(0, 2);
    crate::cbor::lemma_head_shape(0, 3);
    crate::cbor::lemma_head_shape(0, 4);
    crate::cbor::lemma_head_shape(0, 5);
    crate::cbor::lemma_head_shape(0, 6);
    crate::cbor::lemma_head_shape(2, 16);
    crate::cbor::lemma_head_shape(0, v.ttl_seconds as u64);
    crate::cbor::lemma_head_shape(0, v.max_hops as u64);
    crate::cbor::lemma_head_shape(2, v.payload.len() as u64);
}


proof fn lemma_segment(s: Seq<u8>, before: Seq<u8>, segment: Seq<u8>, upto: Seq<u8>)
    requires
        upto == before + segment,
        upto.len() <= s.len(),
        s.subrange(0, upto.len() as int) == upto,
    ensures
        s.subrange(0, before.len() as int) == before,
        s.subrange(before.len() as int, upto.len() as int) == segment,
{
    assert(s.subrange(0, before.len() as int) =~= upto.subrange(0, before.len() as int));
    assert(upto.subrange(0, before.len() as int) =~= before);
    assert(s.subrange(before.len() as int, upto.len() as int) =~= upto.subrange(
        before.len() as int,
        upto.len() as int,
    ));
    assert(upto.subrange(before.len() as int, upto.len() as int) =~= segment);
}

proof fn lemma_join(s: Seq<u8>, a: int, b: int, before: Seq<u8>, segment: Seq<u8>)
    requires
        0 <= a <= b <= s.len(),
        s.subrange(0, a) == before,
        s.subrange(a, b) == segment,
    ensures
        s.subrange(0, b) == before + segment,
{
    assert(s.subrange(0, b) =~= before + segment);
}

proof fn lemma_unsigned_in(s: Seq<u8>, pos: int, n: u64, field: CborField)
    requires
        0 <= pos,
        pos + head(0, n).len() <= s.len(),
        s.subrange(pos, pos + head(0, n).len()) == head(0, n),
    ensures
        spec_unsigned(s, pos, field) == Ok::<(u64, int), CborError>((n, pos + head(0, n).len())),
{
    crate::cbor::lemma_read_canonical_head(s, pos, 0, n);
    crate::cbor::lemma_head_shape(0, n);
}

proof fn lemma_bytes_in(s: Seq<u8>, pos: int, content: Seq<u8>, field: CborField)
    requires
        0 <= pos,
        content.len() <= u64::MAX,
        pos + head(2, content.len() as u64).len() + content.len() <= s.len(),
        s.subrange(pos, pos + head(2, content.len() as u64).len()) == head(2, content.len() as u64),
        s.subrange(
            pos + head(2, content.len() as u64).len(),
            pos + head(2, content.len() as u64).len() + content.len(),
        ) == content,
    ensures
        spec_bytes(s, pos, field) == Ok::<(Seq<u8>, int), CborError>(
            (content, pos + head(2, content.len() as u64).len() + content.len()),
        ),
{
    let n = content.len() as u64;
    crate::cbor::lemma_read_canonical_head(s, pos, 2, n);
    crate::cbor::lemma_head_shape(2, n);
}

/// Decoding the encoding of any valid Envelope gives that Envelope back.
#[verifier::rlimit(100)]
pub proof fn law_envelope_roundtrip(v: EnvelopeView)
    requires
        v.valid(),
    ensures
        spec_decode_envelope(spec_encode_envelope(v)) == Ok::<EnvelopeView, CborError>(v),
{
    let s = spec_encode_envelope(v);
    let ttl = v.ttl_seconds as u64;
    let hops = v.max_hops as u64;
    let plen = v.payload.len() as u64;
    let t1 = head(5, 7);
    let t2 = t1 + head(0, 0);
    let t3 = t2 + head(0, 1);
    let t4 = t3 + head(0, 1);
    let t5 = t4 + head(2, 16);
    let t6 = t5 + v.message_id;
    let t7 = t6 + head(0, 2);
    let t8 = t7 + head(2, 16);
    let t9 = t8 + v.recipient_hint;
    let t10 = t9 + head(0, 3);
    let t11 = t10 + head(0, ttl);
    let t12 = t11 + head(0, 4);
    let t13 = t12 + head(0, hops);
    let t14 = t13 + head(0, 5);
    let t15 = t14 + head(0, 0);
    let t16 = t15 + head(0, 6);
    let t17 = t16 + head(2, plen);
    let t18 = t17 + v.payload;
    assert(s == t18);
    assert(s.subrange(0, s.len() as int) =~= s);
    law_encoded_size(v);
    crate::cbor::lemma_head_shape(5, 7);
    crate::cbor::lemma_head_shape(2, 16);
    crate::cbor::lemma_head_shape(0, 0);
    crate::cbor::lemma_head_shape(0, 1);
    crate::cbor::lemma_head_shape(0, 2);
    crate::cbor::lemma_head_shape(0, 3);
    crate::cbor::lemma_head_shape(0, 4);
    crate::cbor::lemma_head_shape(0, 5);
    crate::cbor::lemma_head_shape(0, 6);
    lemma_segment(s, t17, v.payload, t18);
    lemma_segment(s, t16, head(2, plen), t17);
    lemma_segment(s, t15, head(0, 6), t16);
    lemma_segment(s, t14, head(0, 0), t15);
    lemma_segment(s, t13, head(0, 5), t14);
    lemma_segment(s, t12, head(0, hops), t13);
    lemma_segment(s, t11, head(0, 4), t12);
    lemma_segment(s, t10, head(0, ttl), t11);
    lemma_segment(s, t9, head(0, 3), t10);
    lemma_segment(s, t8, v.recipient_hint, t9);
    lemma_segment(s, t7, head(2, 16), t8);
    lemma_segment(s, t6, head(0, 2), t7);
    lemma_segment(s, t5, v.message_id, t6);
    lemma_segment(s, t4, head(2, 16), t5);
    lemma_segment(s, t3, head(0, 1), t4);
    lemma_segment(s, t2, head(0, 1), t3);
    lemma_segment(s, t1, head(0, 0), t2);
    crate::cbor::lemma_read_canonical_head(s, 0, 5, 7);
    assert(spec_map_header(s) == Ok::<int, CborError>(t1.len() as int));
    lemma_unsigned_in(s, t1.len() as int, 0, CborField::MapKey);
    lemma_unsigned_in(s, t2.len() as int, 1, CborField::ProtocolVersion);
    lemma_unsigned_in(s, t3.len() as int, 1, CborField::MapKey);
    lemma_bytes_in(s, t4.len() as int, v.message_id, CborField::MessageId);
    lemma_unsigned_in(s, t6.len() as int, 2, CborField::MapKey);
    lemma_bytes_in(s, t7.len() as int, v.recipient_hint, CborField::RecipientHint);
    lemma_unsigned_in(s, t9.len() as int, 3, CborField::MapKey);
    lemma_unsigned_in(s, t10.len() as int, ttl, CborField::TtlSeconds);
    lemma_unsigned_in(s, t11.len() as int, 4, CborField::MapKey);
    lemma_unsigned_in(s, t12.len() as int, hops, CborField::MaxHops);
    lemma_unsigned_in(s, t13.len() as int, 5, CborField::MapKey);
    lemma_unsigned_in(s, t14.len() as int, 0, CborField::Priority);
    lemma_unsigned_in(s, t15.len() as int, 6, CborField::MapKey);
    lemma_bytes_in(s, t16.len() as int, v.payload, CborField::ProtectedPayload);
}

proof fn lemma_unsigned_shape(s: Seq<u8>, pos: int, field: CborField)
    requires
        spec_unsigned(s, pos, field) is Ok,
    ensures
        spec_unsigned(s, pos, field) matches Ok((n, end)) && 0 <= pos && end == pos + head(0, n).len()
            && end <= s.len() && s.subrange(pos, end) == head(0, n),
{
}

proof fn lemma_bytes_shape(s: Seq<u8>, pos: int, field: CborField)
    requires
        spec_bytes(s, pos, field) is Ok,
    ensures
        spec_bytes(s, pos, field) matches Ok((c, end)) && 0 <= pos && c.len() <= u64::MAX
            && pos + head(2, c.len() as u64).len() + c.len() == end && end <= s.len()
            && s.subrange(pos, pos + head(2, c.len() as u64).len()) == head(2, c.len() as u64)
            && s.subrange(pos + head(2, c.len() as u64).len(), end) == c,
{
    if let Some((m, n, hend)) = read_head(s, pos) {
        assert(s.subrange(hend, hend + n).len() == n);
    }
}

/// Every byte string that decodes is the valid Envelope's own encoding: the
/// decoder accepts exactly one representation of each Envelope.
pub proof fn law_envelope_canonical(s: Seq<u8>)
    requires
        spec_decode_envelope(s) is Ok,
    ensures
        spec_decode_envelope(s) matches Ok(v) && v.valid() && s == spec_encode_envelope(v),
{
    let v = spec_decode_envelope(s)->Ok_0;
    let p0 = spec_map_header(s)->Ok_0;
    crate::cbor::lemma_head_shape(5, 7);
    assert(s.subrange(0, p0) == head(5, 7));
    let (k0, q0) = spec_unsigned(s, p0, CborField::MapKey)->Ok_0;
    lemma_unsigned_shape(s, p0, CborField::MapKey);
    let (ver, p1) = spec_unsigned(s, q0, CborField::ProtocolVersion)->Ok_0;
    lemma_unsigned_shape(s, q0, CborField::ProtocolVersion);
    let (k1, q1) = spec_unsigned(s, p1, CborField::MapKey)->Ok_0;
    lemma_unsigned_shape(s, p1, CborField::MapKey);
    let (id, p2) = spec_bytes(s, q1, CborField::MessageId)->Ok_0;
    lemma_bytes_shape(s, q1, CborField::MessageId);
    let (k2, q2) = spec_unsigned(s, p2, CborField::MapKey)->Ok_0;
    lemma_unsigned_shape(s, p2, CborField::MapKey);
    let (hint, p3) = spec_bytes(s, q2, CborField::RecipientHint)->Ok_0;
    lemma_bytes_shape(s, q2, CborField::RecipientHint);
    let (k3, q3) = spec_unsigned(s, p3, CborField::MapKey)->Ok_0;
    lemma_unsigned_shape(s, p3, CborField::MapKey);
    let (ttl, p4) = spec_unsigned(s, q3, CborField::TtlSeconds)->Ok_0;
    lemma_unsigned_shape(s, q3, CborField::TtlSeconds);
    let (k4, q4) = spec_unsigned(s, p4, CborField::MapKey)->Ok_0;
    lemma_unsigned_shape(s, p4, CborField::MapKey);
    let (hops, p5) = spec_unsigned(s, q4, CborField::MaxHops)->Ok_0;
    lemma_unsigned_shape(s, q4, CborField::MaxHops);
    let (k5, q5) = spec_unsigned(s, p5, CborField::MapKey)->Ok_0;
    lemma_unsigned_shape(s, p5, CborField::MapKey);
    let (priority, p6) = spec_unsigned(s, q5, CborField::Priority)->Ok_0;
    lemma_unsigned_shape(s, q5, CborField::Priority);
    let (k6, q6) = spec_unsigned(s, p6, CborField::MapKey)->Ok_0;
    lemma_unsigned_shape(s, p6, CborField::MapKey);
    let (payload, p7) = spec_bytes(s, q6, CborField::ProtectedPayload)->Ok_0;
    lemma_bytes_shape(s, q6, CborField::ProtectedPayload);
    let hid = head(2, 16);
    let hpl = head(2, payload.len() as u64);
    lemma_join(s, p0, q0, head(5, 7), head(0, 0));
    lemma_join(s, q0, p1, head(5, 7) + head(0, 0), head(0, 1));
    lemma_join(s, p1, q1, head(5, 7) + head(0, 0) + head(0, 1), head(0, 1));
    let a4 = head(5, 7) + head(0, 0) + head(0, 1) + head(0, 1);
    lemma_join(s, q1, q1 + hid.len(), a4, hid);
    lemma_join(s, q1 + hid.len(), p2, a4 + hid, id);
    let a6 = a4 + hid + id;
    lemma_join(s, p2, q2, a6, head(0, 2));
    lemma_join(s, q2, q2 + hid.len(), a6 + head(0, 2), hid);
    lemma_join(s, q2 + hid.len(), p3, a6 + head(0, 2) + hid, hint);
    let a9 = a6 + head(0, 2) + hid + hint;
    lemma_join(s, p3, q3, a9, head(0, 3));
    lemma_join(s, q3, p4, a9 + head(0, 3), head(0, ttl));
    let a11 = a9 + head(0, 3) + head(0, ttl);
    lemma_join(s, p4, q4, a11, head(0, 4));
    lemma_join(s, q4, p5, a11 + head(0, 4), head(0, hops));
    let a13 = a11 + head(0, 4) + head(0, hops);
    lemma_join(s, p5, q5, a13, head(0, 5));
    lemma_join(s, q5, p6, a13 + head(0, 5), head(0, priority));
    let a15 = a13 + head(0, 5) + head(0, priority);
    lemma_join(s, p6, q6, a15, head(0, 6));
    lemma_join(s, q6, q6 + hpl.len(), a15 + head(0, 6), hpl);
    lemma_join(s, q6 + hpl.len(), p7, a15 + head(0, 6) + hpl, payload);
    assert(s.subrange(0, s.len() as int) =~= s);
    assert(v.valid());
    assert(s == spec_encode_envelope(v));
}

} // verus!
