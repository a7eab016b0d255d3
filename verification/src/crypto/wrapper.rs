//! The protected payload: a deterministic CBOR wrapper around one Olm message.
use vstd::prelude::*;

use super::items::{r_bytes, r_key, r_uint, read_bytes, read_key, read_uint};
use super::inner::{at, lemma_at_split, lemma_uint_at, u_item};
use super::CryptoError;
use crate::cbor::{copy_range, head, push_all, push_head, read_head, read_head_at, slices_equal};

verus! {

/// Kind of an Olm message.
#[derive(Clone, Copy, Debug, PartialEq, Eq, Structural)]
pub enum OlmMessageType {
    PreKey,
    Normal,
}

/// Stored number of an Olm message kind.
pub open spec fn olm_type_number(t: OlmMessageType) -> int {
    match t {
        OlmMessageType::PreKey => 0,
        OlmMessageType::Normal => 1,
    }
}

impl OlmMessageType {
    pub fn as_raw(self) -> (value: u8)
        ensures
            value == olm_type_number(self),
    {
        match self {
            OlmMessageType::PreKey => 0,
            OlmMessageType::Normal => 1,
        }
    }
}


/// Largest encoded protected payload.
pub const PROTECTED_PAYLOAD_MAX_BYTES: usize = 8192;
/// Largest Olm message inside a protected payload.
pub const OLM_MESSAGE_MAX_BYTES: usize = 8183;
/// Map fields of a protected payload.
pub const WRAPPER_FIELDS: u64 = 3;

#[verifier::external_type_specification]
#[verifier::external_body]
pub struct ExOlmMessage(vodozemac::olm::OlmMessage);

/// Whether vodozemac parses `bytes` as an Olm message of type number
/// `message_type`; this depends on the two arguments alone.
pub uninterp spec fn olm_accepts(message_type: int, bytes: Seq<u8>) -> bool;

/// Wraps `vodozemac::olm::OlmMessage::from_parts`: it parses `bytes` as a
/// message of type number `message_type` and succeeds exactly when
/// `olm_accepts` holds of the two; what it accepts is not stated further.
#[verifier::external_body]
fn olm_from_parts(message_type: usize, bytes: &[u8]) -> (result: Option<vodozemac::olm::OlmMessage>)
    ensures
        result is Some == olm_accepts(message_type as int, bytes@),
{
    vodozemac::olm::OlmMessage::from_parts(message_type, bytes).ok()
}

/// Wraps `vodozemac::olm::OlmMessage::to_parts`: the type number and the
/// serialized bytes of a parsed message. Nothing is stated of them.
#[verifier::external_body]
fn olm_to_parts(message: &vodozemac::olm::OlmMessage) -> (parts: (usize, Vec<u8>)) {
    message.to_parts()
}

/// The sender identity key and the one-time key that `bytes` carry as a
/// vodozemac pre-key message, or `None` when they are no pre-key message;
/// this depends on the bytes alone.
pub uninterp spec fn olm_prekey_keys(bytes: Seq<u8>) -> Option<(Seq<u8>, Seq<u8>)>;

/// Wraps `vodozemac::olm::PreKeyMessage::from_bytes` and reads the parsed
/// message's identity key and one-time key. It parses exactly what
/// `OlmMessage::from_parts` parses under type number 0, so it succeeds
/// exactly when `olm_accepts(0, bytes)` holds; the keys are named by
/// `olm_prekey_keys`.
#[verifier::external_body]
pub(crate) fn prekey_session_keys(bytes: &[u8]) -> (keys: Option<([u8; 32], [u8; 32])>)
    ensures
        keys is Some == olm_accepts(0, bytes@),
        match olm_prekey_keys(bytes@) {
            Some(k) => keys matches Some(r) && r.0@ == k.0 && r.1@ == k.1,
            None => keys is None,
        },
{
    match vodozemac::olm::PreKeyMessage::from_bytes(bytes) {
        Ok(message) => Some((message.identity_key().to_bytes(), message.one_time_key().to_bytes())),
        Err(_) => None,
    }
}

/// Model of a protected Olm message.
pub struct ProtectedView {
    pub message_type: OlmMessageType,
    pub message: Seq<u8>,
}

/// A non-empty bounded Olm message that vodozemac accepts, with its type.
pub open spec fn protected_valid(p: ProtectedView) -> bool {
    &&& 1 <= p.message.len() <= OLM_MESSAGE_MAX_BYTES
    &&& olm_accepts(olm_type_number(p.message_type), p.message)
}

/// An Olm message of a known type, as carried in a protected payload.
#[derive(PartialEq, Eq)]
pub struct ProtectedOlmMessage {
    message_type: OlmMessageType,
    message: Vec<u8>,
}

impl View for ProtectedOlmMessage {
    type V = ProtectedView;

    closed spec fn view(&self) -> ProtectedView {
        ProtectedView { message_type: self.message_type, message: self.message@ }
    }
}

impl Clone for ProtectedOlmMessage {
    fn clone(&self) -> (copy: Self)
        ensures
            copy@ == self@,
    {
        proof {
            use_type_invariant(self);
        }
        let message = copy_range(self.message.as_slice(), 0, self.message.len());
        proof {
            assert(message@ =~= self.message@);
        }
        ProtectedOlmMessage { message_type: self.message_type, message }
    }
}

impl ProtectedOlmMessage {
    #[verifier::type_invariant]
    spec fn accepted(self) -> bool {
        protected_valid(self@)
    }

    pub(crate) fn establish_valid(&self)
        ensures
            protected_valid(self@),
    {
        proof {
            use_type_invariant(self);
        }
    }

    pub fn try_from_parts(message_type: OlmMessageType, message: Vec<u8>) -> (result: Result<
        Self,
        CryptoError,
    >)
        ensures
            (message@.len() == 0 || message@.len() > OLM_MESSAGE_MAX_BYTES) ==> result == Err::<
                ProtectedOlmMessage,
                CryptoError,
            >(CryptoError::WrongLength),
            1 <= message@.len() <= OLM_MESSAGE_MAX_BYTES && !olm_accepts(
                olm_type_number(message_type),
                message@,
            ) ==> result == Err::<ProtectedOlmMessage, CryptoError>(CryptoError::OlmRejected),
            protected_valid(ProtectedView { message_type, message: message@ }) ==> (result matches Ok(
                p,
            ) && p@ == ProtectedView { message_type, message: message@ }),
    {
        if message.len() == 0 || message.len() > OLM_MESSAGE_MAX_BYTES {
            return Err(CryptoError::WrongLength);
        }
        let raw: usize = match message_type {
            OlmMessageType::PreKey => 0,
            OlmMessageType::Normal => 1,
        };
        if olm_from_parts(raw, message.as_slice()).is_none() {
            return Err(CryptoError::OlmRejected);
        }
        Ok(ProtectedOlmMessage { message_type, message })
    }

    /// The protected form of a parsed Olm message; its parts come from vodozemac.
    pub fn from_olm(message: &vodozemac::olm::OlmMessage) -> (result: Result<Self, CryptoError>)
        ensures
            result matches Ok(p) ==> protected_valid(p@),
            result matches Err(e) ==> e == CryptoError::UnsupportedType || e == CryptoError::WrongLength
                || e == CryptoError::OlmRejected,
    {
        let (raw, bytes) = olm_to_parts(message);
        let message_type = if raw == 0 {
            OlmMessageType::PreKey
        } else if raw == 1 {
            OlmMessageType::Normal
        } else {
            return Err(CryptoError::UnsupportedType);
        };
        Self::try_from_parts(message_type, bytes)
    }

    /// The vodozemac form of this message.
    pub fn to_olm(&self) -> (result: Result<vodozemac::olm::OlmMessage, CryptoError>)
        ensures
            result is Ok,
    {
        proof {
            use_type_invariant(self);
        }
        let raw: usize = match self.message_type {
            OlmMessageType::PreKey => 0,
            OlmMessageType::Normal => 1,
        };
        match olm_from_parts(raw, self.message.as_slice()) {
            Some(m) => Ok(m),
            None => Err(CryptoError::OlmRejected),
        }
    }

    pub fn message_type(&self) -> (message_type: OlmMessageType)
        ensures
            message_type == self@.message_type,
    {
        self.message_type
    }

    pub fn message_bytes(&self) -> (bytes: &[u8])
        ensures
            bytes@ == self@.message,
    {
        self.message.as_slice()
    }
}

/// The deterministic CBOR form of a protected payload: a map of the format
/// version, the Olm message type and the Olm message bytes.
pub open spec fn payload_bytes(p: ProtectedView) -> Seq<u8> {
    head(5, WRAPPER_FIELDS) + head(0, 0) + head(0, 1) + head(0, 1) + head(
        0,
        olm_type_number(p.message_type) as u64,
    ) + head(0, 2) + head(2, p.message.len() as u64) + p.message
}

/// The encoding, refused when longer than the payload limit.
pub open spec fn spec_encode_payload(p: ProtectedView) -> Result<Seq<u8>, CryptoError> {
    if payload_bytes(p).len() > PROTECTED_PAYLOAD_MAX_BYTES {
        Err(CryptoError::InputTooLarge)
    } else {
        Ok(payload_bytes(p))
    }
}

pub fn encode_protected_payload(message: &ProtectedOlmMessage) -> (result: Result<Vec<u8>, CryptoError>)
    ensures
        match spec_encode_payload(message@) {
            Ok(b) => result matches Ok(v) && v@ == b,
            Err(e) => result == Err::<Vec<u8>, CryptoError>(e),
        },
{
    let mut out: Vec<u8> = Vec::new();
    push_head(&mut out, 5, WRAPPER_FIELDS);
    push_head(&mut out, 0, 0);
    push_head(&mut out, 0, 1);
    push_head(&mut out, 0, 1);
    push_head(&mut out, 0, message.message_type.as_raw() as u64);
    push_head(&mut out, 0, 2);
    push_head(&mut out, 2, message.message.len() as u64);
    push_all(&mut out, message.message.as_slice());
    proof {
        assert(out@ =~= payload_bytes(message@));
    }
    if out.len() > PROTECTED_PAYLOAD_MAX_BYTES {
        return Err(CryptoError::InputTooLarge);
    }
    Ok(out)
}

/// Olm message type of a stored type number.
pub open spec fn olm_type_of(value: u64) -> Option<OlmMessageType> {
    if value == 0 {
        Some(OlmMessageType::PreKey)
    } else if value == 1 {
        Some(OlmMessageType::Normal)
    } else {
        None
    }
}

/// The outcome of decoding a protected payload: empty and oversized input,
/// then the map and its three fields in order, then trailing bytes, then
/// acceptance of the Olm message, and last the requirement that the input is
/// the payload's own deterministic encoding.
#[verifier::opaque]
pub open spec fn spec_decode_payload(s: Seq<u8>) -> Result<ProtectedView, CryptoError> {
    if s.len() == 0 {
        Err(CryptoError::EmptyInput)
    } else if s.len() > PROTECTED_PAYLOAD_MAX_BYTES {
        Err(CryptoError::InputTooLarge)
    } else {
        match read_head(s, 0) {
            None => Err(CryptoError::Malformed),
            Some((m, n, p0)) => if m != 5 || n != WRAPPER_FIELDS {
                Err(CryptoError::Malformed)
            } else {
                match r_key(s, p0, 0) {
                    Err(e) => Err(e),
                    Ok(p1) => match r_uint(s, p1) {
                        Err(e) => Err(e),
                        Ok((version, p2)) => if version != 1 {
                            Err(CryptoError::UnsupportedVersion)
                        } else {
                            match r_key(s, p2, 1) {
                                Err(e) => Err(e),
                                Ok(p3) => match r_uint(s, p3) {
                                    Err(e) => Err(e),
                                    Ok((t, p4)) => match olm_type_of(t) {
                                        None => Err(CryptoError::UnsupportedType),
                                        Some(message_type) => match r_key(s, p4, 2) {
                                            Err(e) => Err(e),
                                            Ok(p5) => match r_bytes(s, p5) {
                                                Err(e) => Err(e),
                                                Ok((message, p6)) => if message.len() == 0
                                                    || message.len() > OLM_MESSAGE_MAX_BYTES {
                                                    Err(CryptoError::WrongLength)
                                                } else if p6 != s.len() {
                                                    Err(CryptoError::Malformed)
                                                } else if !olm_accepts(
                                                    olm_type_number(message_type),
                                                    message,
                                                ) {
                                                    Err(CryptoError::OlmRejected)
                                                } else {
                                                    let p = ProtectedView { message_type, message };
                                                    match spec_encode_payload(p) {
                                                        Err(e) => Err(e),
                                                        Ok(b) => if b != s {
                                                            Err(CryptoError::NonCanonical)
                                                        } else {
                                                            Ok(p)
                                                        },
                                                    }
                                                },
                                            },
                                        },
                                    },
                                },
                            }
                        },
                    },
                }
            },
        }
    }
}

/// Decodes one protected payload as `spec_decode_payload` describes.
pub fn decode_protected_payload(input: &[u8]) -> (result: Result<ProtectedOlmMessage, CryptoError>)
    ensures
        match spec_decode_payload(input@) {
            Ok(p) => result matches Ok(d) && d@ == p,
            Err(e) => result matches Err(x) && x == e,
        },
{
    proof {
        reveal(spec_decode_payload);
    }
    if input.len() == 0 {
        return Err(CryptoError::EmptyInput);
    }
    if input.len() > PROTECTED_PAYLOAD_MAX_BYTES {
        return Err(CryptoError::InputTooLarge);
    }
    let (m, n, p0) = match read_head_at(input, 0) {
        Some(h) => h,
        None => {
            return Err(CryptoError::Malformed);
        },
    };
    if m != 5 || n != WRAPPER_FIELDS {
        return Err(CryptoError::Malformed);
    }
    let p1 = match read_key(input, p0, 0) {
        Ok(v) => v,
        Err(e) => {
            return Err(e);
        },
    };
    let (version, p2) = match read_uint(input, p1) {
        Ok(v) => v,
        Err(e) => {
            return Err(e);
        },
    };
    if version != 1 {
        return Err(CryptoError::UnsupportedVersion);
    }
    let p3 = match read_key(input, p2, 1) {
        Ok(v) => v,
        Err(e) => {
            return Err(e);
        },
    };
    let (t, p4) = match read_uint(input, p3) {
        Ok(v) => v,
        Err(e) => {
            return Err(e);
        },
    };
    let message_type = if t == 0 {
        OlmMessageType::PreKey
    } else if t == 1 {
        OlmMessageType::Normal
    } else {
        return Err(CryptoError::UnsupportedType);
    };
    let p5 = match read_key(input, p4, 2) {
        Ok(v) => v,
        Err(e) => {
            return Err(e);
        },
    };
    let (start, stop) = match read_bytes(input, p5) {
        Ok(v) => v,
        Err(e) => {
            return Err(e);
        },
    };
    if stop - start == 0 || stop - start > OLM_MESSAGE_MAX_BYTES {
        return Err(CryptoError::WrongLength);
    }
    if stop != input.len() {
        return Err(CryptoError::Malformed);
    }
    let message = copy_range(input, start, stop);
    let decoded = match ProtectedOlmMessage::try_from_parts(message_type, message) {
        Ok(v) => v,
        Err(e) => {
            return Err(e);
        },
    };
    let encoded = match encode_protected_payload(&decoded) {
        Ok(v) => v,
        Err(e) => {
            return Err(e);
        },
    };
    if !slices_equal(encoded.as_slice(), input) {
        return Err(CryptoError::NonCanonical);
    }
    Ok(decoded)
}

/// Decoding the encoding of any accepted protected message that fits the
/// payload limit gives that message back.
#[verifier::rlimit(60)]
pub proof fn law_payload_roundtrip(p: ProtectedView)
    requires
        protected_valid(p),
        payload_bytes(p).len() <= PROTECTED_PAYLOAD_MAX_BYTES,
    ensures
        spec_decode_payload(payload_bytes(p)) == Ok::<ProtectedView, CryptoError>(p),
{
    reveal(spec_decode_payload);
    let s = payload_bytes(p);
    let t = olm_type_number(p.message_type) as u64;
    let mh = head(2, p.message.len() as u64);
    let a1 = head(5, WRAPPER_FIELDS);
    let a2 = a1 + u_item(0);
    let a3 = a2 + u_item(1);
    let a4 = a3 + u_item(1);
    let a5 = a4 + u_item(t);
    let a6 = a5 + u_item(2);
    let a7 = a6 + mh;
    let a8 = a7 + p.message;
    assert(s == a8);
    assert(s.subrange(0, s.len() as int) =~= s);
    assert(at(s, 0, s));
    lemma_at_split(s, 0, a7, p.message);
    lemma_at_split(s, 0, a6, mh);
    lemma_at_split(s, 0, a5, u_item(2));
    lemma_at_split(s, 0, a4, u_item(t));
    lemma_at_split(s, 0, a3, u_item(1));
    lemma_at_split(s, 0, a2, u_item(1));
    lemma_at_split(s, 0, a1, u_item(0));
    crate::cbor::lemma_read_canonical_head(s, 0, 5, WRAPPER_FIELDS);
    lemma_uint_at(s, a1.len() as int, 0);
    lemma_uint_at(s, a2.len() as int, 1);
    lemma_uint_at(s, a3.len() as int, 1);
    lemma_uint_at(s, a4.len() as int, t);
    lemma_uint_at(s, a5.len() as int, 2);
    crate::cbor::lemma_read_canonical_head(s, a6.len() as int, 2, p.message.len() as u64);
    assert(s.subrange(a7.len() as int, a8.len() as int) == p.message);
}

/// The decoder accepts exactly one representation of each payload.
pub proof fn law_payload_canonical(s: Seq<u8>)
    requires
        spec_decode_payload(s) is Ok,
    ensures
        payload_bytes(spec_decode_payload(s)->Ok_0) == s,
{
    reveal(spec_decode_payload);
}

} // verus!
