//! Contact bundles exchanged as QR text: the invitation and the response,
//! their signed canonical CBOR form, the printable identity fingerprint and
//! the short authentication string both sides compare.
use vstd::prelude::*;
use vstd::utf8::encode_utf8;

use super::items::{array16, array32, r_fixed, r_key, r_uint, read_fixed, read_key, read_uint};
use super::CryptoError;
use crate::cbor::{copy_range, head, push_all, push_head, read_head, read_head_at, slices_equal};
use crate::entropy::fill_random;

verus! {

/// Most bytes of a contact QR text.
pub const CONTACT_QR_MAX_BYTES: usize = 704;
/// Most bytes of a contact bundle's CBOR.
pub const CONTACT_CBOR_MAX_BYTES: usize = 512;
/// Version of the contact bundle format.
pub const BUNDLE_VERSION: u64 = 1;
/// Kind number of an invitation.
pub const INVITE_KIND: u64 = 0;
/// Kind number of a response.
pub const RESPONSE_KIND: u64 = 1;
/// Map fields of a signed bundle.
pub const SIGNED_FIELDS: u64 = 13;
/// Map fields of the part of a bundle that is signed.
pub const UNSIGNED_FIELDS: u64 = 12;

/// Model of an invitation.
pub struct InvitationView {
    pub invitation_id: Seq<u8>,
    pub signing_identity_key: Seq<u8>,
    pub curve_identity_key: Seq<u8>,
    pub one_time_key: Seq<u8>,
    pub sas_key: Seq<u8>,
    pub invitation_secret: Seq<u8>,
    pub inbound_recipient_hint: Seq<u8>,
    pub signature: Seq<u8>,
}

/// Model of a response to an invitation.
pub struct ResponseView {
    pub response_id: Seq<u8>,
    pub invitation_id: Seq<u8>,
    pub signing_identity_key: Seq<u8>,
    pub curve_identity_key: Seq<u8>,
    pub sas_key: Seq<u8>,
    pub response_secret: Seq<u8>,
    pub inbound_recipient_hint: Seq<u8>,
    pub signature: Seq<u8>,
}

/// Model of a decoded bundle.
pub enum BundleView {
    Invitation(InvitationView),
    Response(ResponseView),
}

/// A signed invitation to become contacts.
#[derive(Clone, PartialEq, Eq)]
pub struct Invitation {
    invitation_id: [u8; 16],
    signing_identity_key: [u8; 32],
    curve_identity_key: [u8; 32],
    one_time_key: [u8; 32],
    sas_key: [u8; 32],
    invitation_secret: [u8; 32],
    inbound_recipient_hint: [u8; 16],
    signature: [u8; 64],
}

impl View for Invitation {
    type V = InvitationView;

    closed spec fn view(&self) -> InvitationView {
        InvitationView {
            invitation_id: self.invitation_id@,
            signing_identity_key: self.signing_identity_key@,
            curve_identity_key: self.curve_identity_key@,
            one_time_key: self.one_time_key@,
            sas_key: self.sas_key@,
            invitation_secret: self.invitation_secret@,
            inbound_recipient_hint: self.inbound_recipient_hint@,
            signature: self.signature@,
        }
    }
}

/// A signed response to an invitation.
#[derive(Clone, PartialEq, Eq)]
pub struct ContactResponse {
    response_id: [u8; 16],
    invitation_id: [u8; 16],
    signing_identity_key: [u8; 32],
    curve_identity_key: [u8; 32],
    sas_key: [u8; 32],
    response_secret: [u8; 32],
    inbound_recipient_hint: [u8; 16],
    signature: [u8; 64],
}

impl View for ContactResponse {
    type V = ResponseView;

    closed spec fn view(&self) -> ResponseView {
        ResponseView {
            response_id: self.response_id@,
            invitation_id: self.invitation_id@,
            signing_identity_key: self.signing_identity_key@,
            curve_identity_key: self.curve_identity_key@,
            sas_key: self.sas_key@,
            response_secret: self.response_secret@,
            inbound_recipient_hint: self.inbound_recipient_hint@,
            signature: self.signature@,
        }
    }
}

/// A decoded contact bundle.
pub enum ContactBundle {
    Invitation(Invitation),
    Response(ContactResponse),
}

impl View for ContactBundle {
    type V = BundleView;

    open spec fn view(&self) -> BundleView {
        match self {
            ContactBundle::Invitation(i) => BundleView::Invitation(i@),
            ContactBundle::Response(r) => BundleView::Response(r@),
        }
    }
}

impl ContactBundle {
    /// Readable form that reveals nothing of the bundle.
    pub fn redacted_debug(&self) -> (text: &'static str)
        ensures
            self is Invitation ==> text@ == "ContactBundle::Invitation([REDACTED])"@,
            self is Response ==> text@ == "ContactBundle::Response([REDACTED])"@,
    {
        match self {
            ContactBundle::Invitation(_) => "ContactBundle::Invitation([REDACTED])",
            ContactBundle::Response(_) => "ContactBundle::Response([REDACTED])",
        }
    }
}

/// A map key followed by a byte string.
pub open spec fn key_bytes(key: u64, b: Seq<u8>) -> Seq<u8> {
    head(0, key) + head(2, b.len() as u64) + b
}

/// The value of a version field: a one-element array in an invitation, a
/// plain number in a response.
pub open spec fn version_item(arrays: bool) -> Seq<u8> {
    if arrays {
        head(4, 1) + head(0, 1)
    } else {
        head(0, 1)
    }
}

/// Keys 0 to 4: bundle version, kind and the three supported versions.
pub open spec fn bundle_versions(kind: u64, arrays: bool) -> Seq<u8> {
    head(0, 0) + head(0, BUNDLE_VERSION) + head(0, 1) + head(0, kind) + head(0, 2) + version_item(
        arrays,
    ) + head(0, 3) + version_item(arrays) + head(0, 4) + version_item(arrays)
}

/// Keys 0 to 11 of an invitation.
pub open spec fn invitation_body(v: InvitationView) -> Seq<u8> {
    bundle_versions(INVITE_KIND, true) + key_bytes(5, v.invitation_id) + key_bytes(
        6,
        v.signing_identity_key,
    ) + key_bytes(7, v.curve_identity_key) + key_bytes(8, v.one_time_key) + key_bytes(
        9,
        v.sas_key,
    ) + key_bytes(10, v.invitation_secret) + key_bytes(11, v.inbound_recipient_hint)
}

/// The signed part of an invitation.
pub open spec fn invitation_unsigned(v: InvitationView) -> Seq<u8> {
    head(5, UNSIGNED_FIELDS) + invitation_body(v)
}

/// The whole invitation with its signature under key 12.
pub open spec fn invitation_signed(v: InvitationView) -> Seq<u8> {
    head(5, SIGNED_FIELDS) + invitation_body(v) + key_bytes(12, v.signature)
}

/// Keys 0 to 11 of a response.
pub open spec fn response_body(v: ResponseView) -> Seq<u8> {
    bundle_versions(RESPONSE_KIND, false) + key_bytes(5, v.response_id) + key_bytes(
        6,
        v.invitation_id,
    ) + key_bytes(7, v.signing_identity_key) + key_bytes(8, v.curve_identity_key) + key_bytes(
        9,
        v.sas_key,
    ) + key_bytes(10, v.response_secret) + key_bytes(11, v.inbound_recipient_hint)
}

/// The signed part of a response.
pub open spec fn response_unsigned(v: ResponseView) -> Seq<u8> {
    head(5, UNSIGNED_FIELDS) + response_body(v)
}

/// The whole response with its signature under key 12.
pub open spec fn response_signed(v: ResponseView) -> Seq<u8> {
    head(5, SIGNED_FIELDS) + response_body(v) + key_bytes(12, v.signature)
}

/// The bytes an invitation signature covers are prefixed with this domain.
pub open spec fn invite_domain() -> Seq<u8> {
    encode_utf8("Lantern contact invite signature v1\0"@)
}

/// The bytes a response signature covers are prefixed with this domain.
pub open spec fn response_domain() -> Seq<u8> {
    encode_utf8("Lantern contact response signature v1\0"@)
}

/// Whether vodozemac accepts `signature` as the Ed25519 signature of
/// `message` under the public key `key`; this depends on the three alone.
pub uninterp spec fn ed25519_accepts(key: Seq<u8>, message: Seq<u8>, signature: Seq<u8>) -> bool;

/// Wraps `vodozemac::Ed25519PublicKey::from_slice`,
/// `vodozemac::Ed25519Signature::from_slice` and `Ed25519PublicKey::verify`:
/// the answer is `ed25519_accepts` of the three arguments.
#[verifier::external_body]
fn ed25519_verify(key: &[u8; 32], message: &[u8], signature: &[u8; 64]) -> (accepted: bool)
    ensures
        accepted == ed25519_accepts(key@, message@, signature@),
{
    match vodozemac::Ed25519PublicKey::from_slice(key) {
        Ok(public) => match vodozemac::Ed25519Signature::from_slice(signature) {
            Ok(parsed) => public.verify(message, &parsed).is_ok(),
            Err(_) => false,
        },
        Err(_) => false,
    }
}

/// Wraps `vodozemac::Curve25519PublicKey::from_slice`. Its source checks the
/// slice's length alone, so every 32-byte key is accepted.
#[verifier::external_body]
fn curve25519_key_accepted(key: &[u8; 32]) -> (accepted: bool)
    ensures
        accepted,
{
    vodozemac::Curve25519PublicKey::from_slice(key).is_ok()
}

/// An invitation is authentic when its signature covers the invitation domain
/// and its unsigned encoding.
pub open spec fn invitation_authentic(v: InvitationView) -> bool {
    ed25519_accepts(v.signing_identity_key, invite_domain() + invitation_unsigned(v), v.signature)
}

/// A response is authentic when its signature covers the response domain and
/// its unsigned encoding.
pub open spec fn response_authentic(v: ResponseView) -> bool {
    ed25519_accepts(v.signing_identity_key, response_domain() + response_unsigned(v), v.signature)
}

fn push_key_bytes(out: &mut Vec<u8>, key: u64, b: &[u8])
    requires
        b@.len() <= u64::MAX,
    ensures
        final(out)@ == old(out)@ + key_bytes(key, b@),
{
    push_head(out, 0, key);
    push_head(out, 2, b.len() as u64);
    push_all(out, b);
    assert(final(out)@ =~= old(out)@ + key_bytes(key, b@));
}

fn push_version_item(out: &mut Vec<u8>, arrays: bool)
    ensures
        final(out)@ == old(out)@ + version_item(arrays),
{
    if arrays {
        push_head(out, 4, 1);
    }
    push_head(out, 0, 1);
    assert(final(out)@ =~= old(out)@ + version_item(arrays));
}

fn push_versions(out: &mut Vec<u8>, kind: u64, arrays: bool)
    ensures
        final(out)@ == old(out)@ + bundle_versions(kind, arrays),
{
    let ghost start = out@;
    push_head(out, 0, 0);
    push_head(out, 0, BUNDLE_VERSION);
    push_head(out, 0, 1);
    push_head(out, 0, kind);
    push_head(out, 0, 2);
    push_version_item(out, arrays);
    push_head(out, 0, 3);
    push_version_item(out, arrays);
    push_head(out, 0, 4);
    push_version_item(out, arrays);
    assert(out@ =~= start + bundle_versions(kind, arrays));
}

/// Signature input: the domain followed by the signed bytes.
fn signing_input(domain: &[u8], unsigned: &[u8]) -> (input: Vec<u8>)
    ensures
        input@ == domain@ + unsigned@,
{
    let mut input: Vec<u8> = Vec::new();
    push_all(&mut input, domain);
    push_all(&mut input, unsigned);
    assert(input@ =~= domain@ + unsigned@);
    input
}

impl Invitation {
    pub fn invitation_id(&self) -> (value: &[u8; 16])
        ensures
            value@ == self@.invitation_id,
    {
        &self.invitation_id
    }

    pub fn signing_identity_key(&self) -> (value: &[u8; 32])
        ensures
            value@ == self@.signing_identity_key,
    {
        &self.signing_identity_key
    }

    pub fn curve_identity_key(&self) -> (value: &[u8; 32])
        ensures
            value@ == self@.curve_identity_key,
    {
        &self.curve_identity_key
    }

    pub fn one_time_key(&self) -> (value: &[u8; 32])
        ensures
            value@ == self@.one_time_key,
    {
        &self.one_time_key
    }

    pub fn invitation_secret(&self) -> (value: &[u8; 32])
        ensures
            value@ == self@.invitation_secret,
    {
        &self.invitation_secret
    }

    pub fn inbound_recipient_hint(&self) -> (value: &[u8; 16])
        ensures
            value@ == self@.inbound_recipient_hint,
    {
        &self.inbound_recipient_hint
    }

    pub(crate) fn sas_key(&self) -> (value: &[u8; 32])
        ensures
            value@ == self@.sas_key,
    {
        &self.sas_key
    }

    fn push_body(&self, out: &mut Vec<u8>)
        ensures
            final(out)@ == old(out)@ + invitation_body(self@),
    {
        let ghost start = out@;
        push_versions(out, INVITE_KIND, true);
        push_key_bytes(out, 5, &self.invitation_id);
        push_key_bytes(out, 6, &self.signing_identity_key);
        push_key_bytes(out, 7, &self.curve_identity_key);
        push_key_bytes(out, 8, &self.one_time_key);
        push_key_bytes(out, 9, &self.sas_key);
        push_key_bytes(out, 10, &self.invitation_secret);
        push_key_bytes(out, 11, &self.inbound_recipient_hint);
        assert(out@ =~= start + invitation_body(self@));
    }

    /// The canonical encoding of the signed part.
    pub(crate) fn encode_unsigned(&self) -> (encoded: Vec<u8>)
        ensures
            encoded@ == invitation_unsigned(self@),
    {
        let mut out: Vec<u8> = Vec::new();
        push_head(&mut out, 5, UNSIGNED_FIELDS);
        self.push_body(&mut out);
        assert(out@ =~= invitation_unsigned(self@));
        out
    }

    /// The canonical encoding of the whole invitation.
    pub(crate) fn encode_signed(&self) -> (encoded: Vec<u8>)
        ensures
            encoded@ == invitation_signed(self@),
    {
        let mut out: Vec<u8> = Vec::new();
        push_head(&mut out, 5, SIGNED_FIELDS);
        self.push_body(&mut out);
        push_key_bytes(&mut out, 12, &self.signature);
        assert(out@ =~= invitation_signed(self@));
        out
    }

    /// Checks the keys and the signature; `SignatureRejected` when the
    /// signature does not verify.
    pub(crate) fn verify(&self) -> (result: Result<(), CryptoError>)
        ensures
            result is Ok <==> invitation_authentic(self@),
            result matches Err(e) ==> e == CryptoError::SignatureRejected,
    {
        if !curve25519_key_accepted(&self.curve_identity_key) || !curve25519_key_accepted(
            &self.one_time_key,
        ) || !curve25519_key_accepted(&self.sas_key) {
            return Err(CryptoError::InvalidValue);
        }
        let unsigned = self.encode_unsigned();
        let input = signing_input(
            "Lantern contact invite signature v1\0".as_bytes(),
            unsigned.as_slice(),
        );
        if !ed25519_verify(&self.signing_identity_key, input.as_slice(), &self.signature) {
            return Err(CryptoError::SignatureRejected);
        }
        Ok(())
    }

    /// Readable form that reveals nothing of the invitation.
    pub fn redacted_debug(&self) -> (text: &'static str)
        ensures
            text@ == "Invitation([REDACTED])"@,
    {
        "Invitation([REDACTED])"
    }
}

impl ContactResponse {
    pub fn response_id(&self) -> (value: &[u8; 16])
        ensures
            value@ == self@.response_id,
    {
        &self.response_id
    }

    pub fn invitation_id(&self) -> (value: &[u8; 16])
        ensures
            value@ == self@.invitation_id,
    {
        &self.invitation_id
    }

    pub fn signing_identity_key(&self) -> (value: &[u8; 32])
        ensures
            value@ == self@.signing_identity_key,
    {
        &self.signing_identity_key
    }

    pub fn curve_identity_key(&self) -> (value: &[u8; 32])
        ensures
            value@ == self@.curve_identity_key,
    {
        &self.curve_identity_key
    }

    pub fn response_secret(&self) -> (value: &[u8; 32])
        ensures
            value@ == self@.response_secret,
    {
        &self.response_secret
    }

    pub fn inbound_recipient_hint(&self) -> (value: &[u8; 16])
        ensures
            value@ == self@.inbound_recipient_hint,
    {
        &self.inbound_recipient_hint
    }

    pub(crate) fn sas_key(&self) -> (value: &[u8; 32])
        ensures
            value@ == self@.sas_key,
    {
        &self.sas_key
    }

    fn push_body(&self, out: &mut Vec<u8>)
        ensures
            final(out)@ == old(out)@ + response_body(self@),
    {
        let ghost start = out@;
        push_versions(out, RESPONSE_KIND, false);
        push_key_bytes(out, 5, &self.response_id);
        push_key_bytes(out, 6, &self.invitation_id);
        push_key_bytes(out, 7, &self.signing_identity_key);
        push_key_bytes(out, 8, &self.curve_identity_key);
        push_key_bytes(out, 9, &self.sas_key);
        push_key_bytes(out, 10, &self.response_secret);
        push_key_bytes(out, 11, &self.inbound_recipient_hint);
        assert(out@ =~= start + response_body(self@));
    }

    /// The canonical encoding of the signed part.
    pub(crate) fn encode_unsigned(&self) -> (encoded: Vec<u8>)
        ensures
            encoded@ == response_unsigned(self@),
    {
        let mut out: Vec<u8> = Vec::new();
        push_head(&mut out, 5, UNSIGNED_FIELDS);
        self.push_body(&mut out);
        assert(out@ =~= response_unsigned(self@));
        out
    }

    /// The canonical encoding of the whole response.
    pub(crate) fn encode_signed(&self) -> (encoded: Vec<u8>)
        ensures
            encoded@ == response_signed(self@),
    {
        let mut out: Vec<u8> = Vec::new();
        push_head(&mut out, 5, SIGNED_FIELDS);
        self.push_body(&mut out);
        push_key_bytes(&mut out, 12, &self.signature);
        assert(out@ =~= response_signed(self@));
        out
    }

    /// Checks the keys and the signature; `SignatureRejected` when the
    /// signature does not verify.
    pub(crate) fn verify(&self) -> (result: Result<(), CryptoError>)
        ensures
            result is Ok <==> response_authentic(self@),
            result matches Err(e) ==> e == CryptoError::SignatureRejected,
    {
        if !curve25519_key_accepted(&self.curve_identity_key) || !curve25519_key_accepted(
            &self.sas_key,
        ) {
            return Err(CryptoError::InvalidValue);
        }
        let unsigned = self.encode_unsigned();
        let input = signing_input(
            "Lantern contact response signature v1\0".as_bytes(),
            unsigned.as_slice(),
        );
        if !ed25519_verify(&self.signing_identity_key, input.as_slice(), &self.signature) {
            return Err(CryptoError::SignatureRejected);
        }
        Ok(())
    }

    /// Readable form that reveals nothing of the response.
    pub fn redacted_debug(&self) -> (text: &'static str)
        ensures
            text@ == "ContactResponse([REDACTED])"@,
    {
        "ContactResponse([REDACTED])"
    }
}

/// Letter `d` (0 to 31) of the RFC 4648 base32 alphabet.
pub open spec fn base32_char(d: int) -> char {
    if d < 26 {
        (65 + d) as char
    } else {
        (50 + d - 26) as char
    }
}

/// Sixteen bits of the key starting at byte `b`, zero past its end.
pub open spec fn key_window(key: Seq<u8>, b: int) -> int {
    key[b] * 256 + if b + 1 < key.len() {
        key[b + 1] as int
    } else {
        0
    }
}

/// Two to the power `11 - s`, for `s` from 0 to 7.
pub open spec fn window_divisor(s: int) -> int {
    if s == 0 {
        2048
    } else if s == 1 {
        1024
    } else if s == 2 {
        512
    } else if s == 3 {
        256
    } else if s == 4 {
        128
    } else if s == 5 {
        64
    } else if s == 6 {
        32
    } else {
        16
    }
}

/// Base32 digit `i` of the key: the five bits starting at bit `5 * i`, the
/// key padded with zero bits at its end.
pub open spec fn fingerprint_digit(key: Seq<u8>, i: int) -> int {
    (key_window(key, (5 * i) / 8) / window_divisor((5 * i) % 8)) % 32
}

/// The 52 base32 letters of a 32-byte key, grouped by four with hyphens: the
/// first `n` letters.
pub open spec fn fingerprint_groups(key: Seq<u8>, n: nat) -> Seq<char>
    decreases n,
{
    if n == 0 {
        Seq::empty()
    } else {
        let i = n - 1;
        fingerprint_groups(key, (n - 1) as nat) + (if i > 0 && i % 4 == 0 {
            seq!['-']
        } else {
            Seq::empty()
        }) + seq![base32_char(fingerprint_digit(key, i))]
    }
}

/// The printable fingerprint of a signing identity key.
pub open spec fn fingerprint_text(key: Seq<u8>) -> Seq<char> {
    "L1-"@ + fingerprint_groups(key, 52)
}

fn base32_letter(d: u32) -> (letter: &'static str)
    requires
        d < 32,
    ensures
        letter@ == seq![base32_char(d as int)],
{
    match d {
        0 => {
            proof {
                reveal_strlit("A");
            }
            "A"
        },
        1 => {
            proof {
                reveal_strlit("B");
            }
            "B"
        },
        2 => {
            proof {
                reveal_strlit("C");
            }
            "C"
        },
        3 => {
            proof {
                reveal_strlit("D");
            }
            "D"
        },
        4 => {
            proof {
                reveal_strlit("E");
            }
            "E"
        },
        5 => {
            proof {
                reveal_strlit("F");
            }
            "F"
        },
        6 => {
            proof {
                reveal_strlit("G");
            }
            "G"
        },
        7 => {
            proof {
                reveal_strlit("H");
            }
            "H"
        },
        8 => {
            proof {
                reveal_strlit("I");
            }
            "I"
        },
        9 => {
            proof {
                reveal_strlit("J");
            }
            "J"
        },
        10 => {
            proof {
                reveal_strlit("K");
            }
            "K"
        },
        11 => {
            proof {
                reveal_strlit("L");
            }
            "L"
        },
        12 => {
            proof {
                reveal_strlit("M");
            }
            "M"
        },
        13 => {
            proof {
                reveal_strlit("N");
            }
            "N"
        },
        14 => {
            proof {
                reveal_strlit("O");
            }
            "O"
        },
        15 => {
            proof {
                reveal_strlit("P");
            }
            "P"
        },
        16 => {
            proof {
                reveal_strlit("Q");
            }
            "Q"
        },
        17 => {
            proof {
                reveal_strlit("R");
            }
            "R"
        },
        18 => {
            proof {
                reveal_strlit("S");
            }
            "S"
        },
        19 => {
            proof {
                reveal_strlit("T");
            }
            "T"
        },
        20 => {
            proof {
                reveal_strlit("U");
            }
            "U"
        },
        21 => {
            proof {
                reveal_strlit("V");
            }
            "V"
        },
        22 => {
            proof {
                reveal_strlit("W");
            }
            "W"
        },
        23 => {
            proof {
                reveal_strlit("X");
            }
            "X"
        },
        24 => {
            proof {
                reveal_strlit("Y");
            }
            "Y"
        },
        25 => {
            proof {
                reveal_strlit("Z");
            }
            "Z"
        },
        26 => {
            proof {
                reveal_strlit("2");
            }
            "2"
        },
        27 => {
            proof {
                reveal_strlit("3");
            }
            "3"
        },
        28 => {
            proof {
                reveal_strlit("4");
            }
            "4"
        },
        29 => {
            proof {
                reveal_strlit("5");
            }
            "5"
        },
        30 => {
            proof {
                reveal_strlit("6");
            }
            "6"
        },
        _ => {
            proof {
                reveal_strlit("7");
            }
            "7"
        },
    }
}

fn divisor_at(s: u32) -> (divisor: u32)
    requires
        s < 8,
    ensures
        divisor == window_divisor(s as int),
{
    if s == 0 {
        2048
    } else if s == 1 {
        1024
    } else if s == 2 {
        512
    } else if s == 3 {
        256
    } else if s == 4 {
        128
    } else if s == 5 {
        64
    } else if s == 6 {
        32
    } else {
        16
    }
}

/// The human-comparable fingerprint of a signing identity key: `L1-`
/// followed by its 52 base32 letters in groups of four joined by hyphens.
pub fn identity_fingerprint(signing_identity_key: &[u8; 32]) -> (text: String)
    ensures
        text@ == fingerprint_text(signing_identity_key@),
{
    let key = signing_identity_key;
    let mut out = String::new();
    out.append("L1-");
    proof {
        assert(fingerprint_groups(key@, 0) =~= Seq::<char>::empty());
    }
    let mut i: usize = 0;
    while i < 52
        invariant
            0 <= i <= 52,
            key@.len() == 32,
            out@ == "L1-"@ + fingerprint_groups(key@, i as nat),
        decreases 52 - i,
    {
        proof {
            reveal_strlit("-");
        }
        let ghost before = out@;
        if i > 0 && i % 4 == 0 {
            out.append("-");
        }
        let bit: usize = 5 * i;
        let b: usize = bit / 8;
        let s: u32 = (bit % 8) as u32;
        let low: u32 = if b + 1 < 32 { key[b + 1] as u32 } else { 0 };
        let window: u32 = key[b] as u32 * 256 + low;
        let d: u32 = (window / divisor_at(s)) % 32;
        assert(window == key_window(key@, b as int));
        assert(d == fingerprint_digit(key@, i as int));
        out.append(base32_letter(d));
        assert(out@ =~= "L1-"@ + fingerprint_groups(key@, (i + 1) as nat));
        i = i + 1;
    }
    out
}

/// The version value at `p` of an invitation: a one-element array holding 1.
/// Another array, or an item that is no array, is an unsupported version.
pub open spec fn r_array_version(s: Seq<u8>, p: int) -> Result<int, CryptoError> {
    if p < 0 || p >= s.len() {
        Err(CryptoError::Malformed)
    } else {
        match read_head(s, p) {
            Some((m, n, end)) => if m == 4 && n == 1 {
                match r_uint(s, end) {
                    Ok((v, e)) => if v == 1 {
                        Ok(e)
                    } else {
                        Err(CryptoError::UnsupportedVersion)
                    },
                    Err(e) => Err(e),
                }
            } else {
                Err(CryptoError::UnsupportedVersion)
            },
            None => Err(CryptoError::UnsupportedVersion),
        }
    }
}

/// The version value at `p` of a response: the number 1.
pub open spec fn r_plain_version(s: Seq<u8>, p: int) -> Result<int, CryptoError> {
    match r_uint(s, p) {
        Ok((v, e)) => if v == 1 {
            Ok(e)
        } else {
            Err(CryptoError::UnsupportedVersion)
        },
        Err(e) => Err(e),
    }
}

pub open spec fn r_version_value(s: Seq<u8>, p: int, arrays: bool) -> Result<int, CryptoError> {
    if arrays {
        r_array_version(s, p)
    } else {
        r_plain_version(s, p)
    }
}

/// The first `n` of the keys 2 to 4 with their version values.
pub open spec fn r_versions(s: Seq<u8>, p: int, arrays: bool, n: nat) -> Result<int, CryptoError>
    decreases n,
{
    if n == 0 {
        Ok(p)
    } else {
        match r_versions(s, p, arrays, (n - 1) as nat) {
            Err(e) => Err(e),
            Ok(q) => match r_key(s, q, (n + 1) as u64) {
                Err(e) => Err(e),
                Ok(q2) => r_version_value(s, q2, arrays),
            },
        }
    }
}

/// Keys 5 onward, each with a byte string of the given length: the strings
/// and the position after them.
pub open spec fn r_fields(s: Seq<u8>, p: int, lens: Seq<usize>) -> Result<(Seq<Seq<u8>>, int), CryptoError>
    decreases lens.len(),
{
    if lens.len() == 0 {
        Ok((Seq::empty(), p))
    } else {
        match r_fields(s, p, lens.drop_last()) {
            Err(e) => Err(e),
            Ok((bs, q)) => match r_key(s, q, (5 + lens.len() - 1) as u64) {
                Err(e) => Err(e),
                Ok(q2) => match r_fixed(s, q2, lens.last() as int) {
                    Err(e) => Err(e),
                    Ok((b, q3)) => Ok((bs.push(b), q3)),
                },
            },
        }
    }
}

/// Field lengths of an invitation, keys 5 to 12.
pub open spec fn invite_lens() -> Seq<usize> {
    seq![16usize, 32, 32, 32, 32, 32, 16, 64]
}

/// Field lengths of a response, keys 5 to 12.
pub open spec fn response_lens() -> Seq<usize> {
    seq![16usize, 16, 32, 32, 32, 32, 16, 64]
}

pub open spec fn invitation_from(fs: Seq<Seq<u8>>) -> InvitationView {
    InvitationView {
        invitation_id: fs[0],
        signing_identity_key: fs[1],
        curve_identity_key: fs[2],
        one_time_key: fs[3],
        sas_key: fs[4],
        invitation_secret: fs[5],
        inbound_recipient_hint: fs[6],
        signature: fs[7],
    }
}

pub open spec fn response_from(fs: Seq<Seq<u8>>) -> ResponseView {
    ResponseView {
        response_id: fs[0],
        invitation_id: fs[1],
        signing_identity_key: fs[2],
        curve_identity_key: fs[3],
        sas_key: fs[4],
        response_secret: fs[5],
        inbound_recipient_hint: fs[6],
        signature: fs[7],
    }
}

/// An invitation after keys 0 and 1: it must end the input, be authentic
/// and be exactly its canonical encoding.
#[verifier::opaque]
pub open spec fn decode_invitation_rest(s: Seq<u8>, p: int) -> Result<BundleView, CryptoError> {
    match r_versions(s, p, true, 3) {
        Err(e) => Err(e),
        Ok(q) => match r_fields(s, q, invite_lens()) {
            Err(e) => Err(e),
            Ok((fs, r)) => if r != s.len() {
                Err(CryptoError::Malformed)
            } else if !invitation_authentic(invitation_from(fs)) {
                Err(CryptoError::SignatureRejected)
            } else if invitation_signed(invitation_from(fs)) != s {
                Err(CryptoError::NonCanonical)
            } else {
                Ok(BundleView::Invitation(invitation_from(fs)))
            },
        },
    }
}

/// A response after keys 0 and 1, checked in the same way.
#[verifier::opaque]
pub open spec fn decode_response_rest(s: Seq<u8>, p: int) -> Result<BundleView, CryptoError> {
    match r_versions(s, p, false, 3) {
        Err(e) => Err(e),
        Ok(q) => match r_fields(s, q, response_lens()) {
            Err(e) => Err(e),
            Ok((fs, r)) => if r != s.len() {
                Err(CryptoError::Malformed)
            } else if !response_authentic(response_from(fs)) {
                Err(CryptoError::SignatureRejected)
            } else if response_signed(response_from(fs)) != s {
                Err(CryptoError::NonCanonical)
            } else {
                Ok(BundleView::Response(response_from(fs)))
            },
        },
    }
}

/// The contact bundle that CBOR bytes hold: a map of 13 fields with bundle
/// version 1 and kind 0 (invitation) or 1 (response).
#[verifier::opaque]
pub open spec fn spec_decode_bundle(s: Seq<u8>) -> Result<BundleView, CryptoError> {
    match read_head(s, 0) {
        None => Err(CryptoError::Malformed),
        Some((m, n, p0)) => if m != 5 || n != SIGNED_FIELDS {
            Err(CryptoError::Malformed)
        } else {
            match r_key(s, p0, 0) {
                Err(e) => Err(e),
                Ok(p1) => match r_uint(s, p1) {
                    Err(e) => Err(e),
                    Ok((version, p2)) => if version != BUNDLE_VERSION {
                        Err(CryptoError::UnsupportedVersion)
                    } else {
                        match r_key(s, p2, 1) {
                            Err(e) => Err(e),
                            Ok(p3) => match r_uint(s, p3) {
                                Err(e) => Err(e),
                                Ok((kind, p4)) => if kind == INVITE_KIND {
                                    decode_invitation_rest(s, p4)
                                } else if kind == RESPONSE_KIND {
                                    decode_response_rest(s, p4)
                                } else {
                                    Err(CryptoError::UnsupportedType)
                                },
                            },
                        }
                    },
                },
            }
        },
    }
}

fn read_version_value(input: &[u8], p: usize, arrays: bool) -> (result: Result<usize, CryptoError>)
    ensures
        match r_version_value(input@, p as int, arrays) {
            Ok(q) => result == Ok::<usize, CryptoError>(q as usize) && p < q <= input.len(),
            Err(e) => result == Err::<usize, CryptoError>(e),
        },
{
    if arrays {
        if p >= input.len() {
            return Err(CryptoError::Malformed);
        }
        let end = match read_head_at(input, p) {
            Some((m, n, end)) => {
                if m != 4 || n != 1 {
                    return Err(CryptoError::UnsupportedVersion);
                }
                end
            },
            None => {
                return Err(CryptoError::UnsupportedVersion);
            },
        };
        let (v, e) = match read_uint(input, end) {
            Ok(x) => x,
            Err(e) => {
                return Err(e);
            },
        };
        if v != 1 {
            return Err(CryptoError::UnsupportedVersion);
        }
        Ok(e)
    } else {
        let (v, e) = match read_uint(input, p) {
            Ok(x) => x,
            Err(e) => {
                return Err(e);
            },
        };
        if v != 1 {
            return Err(CryptoError::UnsupportedVersion);
        }
        Ok(e)
    }
}

proof fn lemma_versions_stuck(s: Seq<u8>, p: int, arrays: bool, k: nat, n: nat)
    requires
        k <= n,
        r_versions(s, p, arrays, k) is Err,
    ensures
        r_versions(s, p, arrays, n) == r_versions(s, p, arrays, k),
    decreases n - k,
{
    if n > k {
        lemma_versions_stuck(s, p, arrays, k, (n - 1) as nat);
    }
}

proof fn lemma_fields_stuck(s: Seq<u8>, p: int, lens: Seq<usize>, k: int, n: int)
    requires
        0 <= k <= n <= lens.len(),
        r_fields(s, p, lens.take(k)) is Err,
    ensures
        r_fields(s, p, lens.take(n)) == r_fields(s, p, lens.take(k)),
    decreases n - k,
{
    if n > k {
        lemma_fields_stuck(s, p, lens, k, n - 1);
        assert(lens.take(n).drop_last() =~= lens.take(n - 1));
    }
}

fn read_versions(input: &[u8], p: usize, arrays: bool) -> (result: Result<usize, CryptoError>)
    requires
        p <= input.len(),
    ensures
        match r_versions(input@, p as int, arrays, 3) {
            Ok(q) => result == Ok::<usize, CryptoError>(q as usize) && p <= q <= input.len(),
            Err(e) => result == Err::<usize, CryptoError>(e),
        },
{
    let mut q: usize = p;
    let mut k: u64 = 0;
    while k < 3
        invariant
            0 <= k <= 3,
            p <= q <= input.len(),
            r_versions(input@, p as int, arrays, k as nat) == Ok::<int, CryptoError>(q as int),
        decreases 3 - k,
    {
        let q2 = match read_key(input, q, k + 2) {
            Ok(x) => x,
            Err(e) => {
                proof {
                    lemma_versions_stuck(input@, p as int, arrays, (k + 1) as nat, 3);
                }
                return Err(e);
            },
        };
        q = match read_version_value(input, q2, arrays) {
            Ok(x) => x,
            Err(e) => {
                proof {
                    lemma_versions_stuck(input@, p as int, arrays, (k + 1) as nat, 3);
                }
                return Err(e);
            },
        };
        k = k + 1;
    }
    Ok(q)
}

/// Reads the fields of keys 5 onward; returns where each one's content starts.
fn read_fields(input: &[u8], p: usize, lens: &[usize]) -> (result: Result<(Vec<usize>, usize), CryptoError>)
    requires
        lens@.len() < 32,
        p <= input.len(),
    ensures
        match r_fields(input@, p as int, lens@) {
            Ok((bs, q)) => result matches Ok((starts, r)) && r == q && p <= q <= input.len()
                && starts@.len() == lens@.len() && bs.len() == lens@.len() && forall|j: int|
                0 <= j < lens@.len() ==> starts@[j] + lens@[j] <= input.len() && bs[j]
                == input@.subrange(starts@[j] as int, starts@[j] + lens@[j]),
            Err(e) => result == Err::<(Vec<usize>, usize), CryptoError>(e),
        },
{
    let mut starts: Vec<usize> = Vec::new();
    let mut q: usize = p;
    let mut k: usize = 0;
    let ghost mut bs: Seq<Seq<u8>> = Seq::empty();
    proof {
        assert(lens@.take(0) =~= Seq::<usize>::empty());
    }
    while k < lens.len()
        invariant
            0 <= k <= lens@.len() < 32,
            p <= q <= input.len(),
            starts@.len() == k,
            bs.len() == k,
            r_fields(input@, p as int, lens@.take(k as int)) == Ok::<(Seq<Seq<u8>>, int), CryptoError>(
                (bs, q as int),
            ),
            forall|j: int| 0 <= j < k ==> #[trigger] starts@[j] + lens@[j] <= input.len(),
            forall|j: int|
                0 <= j < k ==> #[trigger] bs[j] == input@.subrange(
                    starts@[j] as int,
                    starts@[j] + lens@[j],
                ),
        decreases lens@.len() - k,
    {
        proof {
            assert(lens@.take(k as int + 1).drop_last() =~= lens@.take(k as int));
        }
        let q2 = match read_key(input, q, (5 + k) as u64) {
            Ok(x) => x,
            Err(e) => {
                proof {
                    lemma_fields_stuck(input@, p as int, lens@, k + 1, lens@.len() as int);
                    assert(lens@.take(lens@.len() as int) =~= lens@);
                }
                return Err(e);
            },
        };
        let (start, stop) = match read_fixed(input, q2, lens[k]) {
            Ok(x) => x,
            Err(e) => {
                proof {
                    lemma_fields_stuck(input@, p as int, lens@, k + 1, lens@.len() as int);
                    assert(lens@.take(lens@.len() as int) =~= lens@);
                }
                return Err(e);
            },
        };
        let ghost old_bs = bs;
        let ghost old_starts = starts@;
        proof {
            bs = bs.push(input@.subrange(start as int, stop as int));
        }
        starts.push(start);
        proof {
            assert forall|j: int| 0 <= j < k + 1 implies #[trigger] starts@[j] + lens@[j] <= input.len()
                && bs[j] == input@.subrange(starts@[j] as int, starts@[j] + lens@[j]) by {
                if j < k {
                    assert(old_bs[j] == bs[j]);
                    assert(old_starts[j] == starts@[j]);
                    assert(old_starts[j] + lens@[j] <= input.len());
                } else {
                    assert(j == k);
                    assert(starts@[j] == start);
                    assert(start + lens@[j] == stop);
                    assert(bs[j] == input@.subrange(start as int, stop as int));
                }
            }
        }
        q = stop;
        k = k + 1;
    }
    proof {
        assert(lens@.take(k as int) =~= lens@);
        assert forall|j: int| 0 <= j < lens@.len() implies starts@[j] + lens@[j] <= input.len()
            && bs[j] == input@.subrange(starts@[j] as int, starts@[j] + lens@[j]) by {
            assert(bs[j] == input@.subrange(starts@[j] as int, starts@[j] + lens@[j]));
        }
    }
    Ok((starts, q))
}

/// Copies sixty-four bytes starting at `start`.
fn array64(input: &[u8], start: usize) -> (a: [u8; 64])
    requires
        start + 64 <= input.len(),
    ensures
        a@ == input@.subrange(start as int, start + 64),
{
    let mut a = [0u8; 64];
    let mut i: usize = 0;
    while i < 64
        invariant
            i <= 64,
            start + 64 <= input.len(),
            forall|k: int| 0 <= k < i ==> a@[k] == input@[start + k],
        decreases 64 - i,
    {
        a[i] = input[start + i];
        i += 1;
    }
    assert(a@ =~= input@.subrange(start as int, start + 64));
    a
}

fn decode_invitation_at(input: &[u8], p: usize) -> (result: Result<ContactBundle, CryptoError>)
    requires
        p <= input.len(),
    ensures
        match decode_invitation_rest(input@, p as int) {
            Ok(b) => result matches Ok(x) && x@ == b,
            Err(e) => result matches Err(x) && x == e,
        },
{
    proof {
        reveal(decode_invitation_rest);
    }
    let q = match read_versions(input, p, true) {
        Ok(x) => x,
        Err(e) => {
            return Err(e);
        },
    };
    let lens: [usize; 8] = [16, 32, 32, 32, 32, 32, 16, 64];
    assert(lens@ =~= invite_lens());
    let (starts, r) = match read_fields(input, q, &lens) {
        Ok(x) => x,
        Err(e) => {
            return Err(e);
        },
    };
    if r != input.len() {
        return Err(CryptoError::Malformed);
    }
    let invitation = Invitation {
        invitation_id: array16(input, starts[0]),
        signing_identity_key: array32(input, starts[1]),
        curve_identity_key: array32(input, starts[2]),
        one_time_key: array32(input, starts[3]),
        sas_key: array32(input, starts[4]),
        invitation_secret: array32(input, starts[5]),
        inbound_recipient_hint: array16(input, starts[6]),
        signature: array64(input, starts[7]),
    };
    proof {
        let fs = r_fields(input@, q as int, invite_lens())->Ok_0.0;
        assert(invitation@ == invitation_from(fs));
    }
    match invitation.verify() {
        Ok(()) => {},
        Err(e) => {
            return Err(e);
        },
    }
    let canonical = invitation.encode_signed();
    if !slices_equal(canonical.as_slice(), input) {
        return Err(CryptoError::NonCanonical);
    }
    Ok(ContactBundle::Invitation(invitation))
}

fn decode_response_at(input: &[u8], p: usize) -> (result: Result<ContactBundle, CryptoError>)
    requires
        p <= input.len(),
    ensures
        match decode_response_rest(input@, p as int) {
            Ok(b) => result matches Ok(x) && x@ == b,
            Err(e) => result matches Err(x) && x == e,
        },
{
    proof {
        reveal(decode_response_rest);
    }
    let q = match read_versions(input, p, false) {
        Ok(x) => x,
        Err(e) => {
            return Err(e);
        },
    };
    let lens: [usize; 8] = [16, 16, 32, 32, 32, 32, 16, 64];
    assert(lens@ =~= response_lens());
    let (starts, r) = match read_fields(input, q, &lens) {
        Ok(x) => x,
        Err(e) => {
            return Err(e);
        },
    };
    if r != input.len() {
        return Err(CryptoError::Malformed);
    }
    let response = ContactResponse {
        response_id: array16(input, starts[0]),
        invitation_id: array16(input, starts[1]),
        signing_identity_key: array32(input, starts[2]),
        curve_identity_key: array32(input, starts[3]),
        sas_key: array32(input, starts[4]),
        response_secret: array32(input, starts[5]),
        inbound_recipient_hint: array16(input, starts[6]),
        signature: array64(input, starts[7]),
    };
    proof {
        let fs = r_fields(input@, q as int, response_lens())->Ok_0.0;
        assert(response@ == response_from(fs));
    }
    match response.verify() {
        Ok(()) => {},
        Err(e) => {
            return Err(e);
        },
    }
    let canonical = response.encode_signed();
    if !slices_equal(canonical.as_slice(), input) {
        return Err(CryptoError::NonCanonical);
    }
    Ok(ContactBundle::Response(response))
}

/// Decodes a contact bundle from its CBOR; exactly `spec_decode_bundle`.
pub fn decode_contact_cbor(input: &[u8]) -> (result: Result<ContactBundle, CryptoError>)
    ensures
        match spec_decode_bundle(input@) {
            Ok(b) => result matches Ok(x) && x@ == b,
            Err(e) => result matches Err(x) && x == e,
        },
{
    proof {
        reveal(spec_decode_bundle);
    }
    let (m, n, p0) = match read_head_at(input, 0) {
        Some(h) => h,
        None => {
            return Err(CryptoError::Malformed);
        },
    };
    if m != 5 || n != SIGNED_FIELDS {
        return Err(CryptoError::Malformed);
    }
    let p1 = match read_key(input, p0, 0) {
        Ok(x) => x,
        Err(e) => {
            return Err(e);
        },
    };
    let (version, p2) = match read_uint(input, p1) {
        Ok(x) => x,
        Err(e) => {
            return Err(e);
        },
    };
    if version != BUNDLE_VERSION {
        return Err(CryptoError::UnsupportedVersion);
    }
    let p3 = match read_key(input, p2, 1) {
        Ok(x) => x,
        Err(e) => {
            return Err(e);
        },
    };
    let (kind, p4) = match read_uint(input, p3) {
        Ok(x) => x,
        Err(e) => {
            return Err(e);
        },
    };
    if kind == INVITE_KIND {
        decode_invitation_at(input, p4)
    } else if kind == RESPONSE_KIND {
        decode_response_at(input, p4)
    } else {
        Err(CryptoError::UnsupportedType)
    }
}

/// The text of a contact QR code: the prefix and the unpadded URL-safe
/// base64 of the bundle's CBOR.
pub open spec fn qr_text(cbor: Seq<u8>) -> Seq<char> {
    "lantern-contact-v1:"@ + base64_url_nopad(cbor)
}

/// The unpadded URL-safe base64 (RFC 4648, section 5) text of some bytes.
pub uninterp spec fn base64_url_nopad(bytes: Seq<u8>) -> Seq<char>;

/// What the `base64` crate decodes from unpadded URL-safe base64 text, when
/// it accepts the text.
pub uninterp spec fn base64_url_nopad_decoded(text: Seq<u8>) -> Option<Seq<u8>>;

/// Wraps `base64::Engine::encode` with `URL_SAFE_NO_PAD`: the text is
/// `base64_url_nopad` of the bytes. As RFC 4648 and the crate's
/// documentation give it, the text is ASCII without `=`, four characters
/// for each three bytes rounded up, and decodes back to the bytes.
#[verifier::external_body]
fn base64_url_encode(bytes: &[u8]) -> (text: String)
    ensures
        text@ == base64_url_nopad(bytes@),
        text@.len() == (4 * bytes@.len() + 2) / 3,
        vstd::utf8::is_ascii_chars(text@),
        !text@.contains('='),
        base64_url_nopad_decoded(encode_utf8(text@)) == Some(bytes@),
{
    base64::Engine::encode(&base64::engine::general_purpose::URL_SAFE_NO_PAD, bytes)
}

/// Wraps `base64::Engine::decode` with `URL_SAFE_NO_PAD`: `None` when the
/// crate rejects the text, else `base64_url_nopad_decoded` of it.
#[verifier::external_body]
fn base64_url_decode(text: &[u8]) -> (bytes: Option<Vec<u8>>)
    ensures
        match bytes {
            Some(b) => base64_url_nopad_decoded(text@) == Some(b@),
            None => base64_url_nopad_decoded(text@) is None,
        },
{
    base64::Engine::decode(&base64::engine::general_purpose::URL_SAFE_NO_PAD, text).ok()
}

/// QR text of a bundle's CBOR: too long a bundle or text is `InputTooLarge`.
pub open spec fn spec_encode_qr(cbor: Seq<u8>) -> Result<Seq<char>, CryptoError> {
    if cbor.len() > CONTACT_CBOR_MAX_BYTES {
        Err(CryptoError::InputTooLarge)
    } else if encode_utf8(qr_text(cbor)).len() > CONTACT_QR_MAX_BYTES {
        Err(CryptoError::InputTooLarge)
    } else {
        Ok(qr_text(cbor))
    }
}

fn encode_qr(cbor: &[u8]) -> (result: Result<String, CryptoError>)
    ensures
        match spec_encode_qr(cbor@) {
            Ok(t) => result matches Ok(s) && s@ == t,
            Err(e) => result matches Err(x) && x == e,
        },
{
    if cbor.len() > CONTACT_CBOR_MAX_BYTES {
        return Err(CryptoError::InputTooLarge);
    }
    let mut output = String::new();
    output.append("lantern-contact-v1:");
    let encoded = base64_url_encode(cbor);
    output.append(encoded.as_str());
    if output.as_str().as_bytes().len() > CONTACT_QR_MAX_BYTES {
        return Err(CryptoError::InputTooLarge);
    }
    Ok(output)
}

/// The QR text of an invitation.
pub fn encode_invitation_qr(invitation: &Invitation) -> (result: Result<String, CryptoError>)
    ensures
        match spec_encode_qr(invitation_signed(invitation@)) {
            Ok(t) => result matches Ok(s) && s@ == t,
            Err(e) => result matches Err(x) && x == e,
        },
{
    encode_qr(invitation.encode_signed().as_slice())
}

/// The QR text of a response.
pub fn encode_response_qr(response: &ContactResponse) -> (result: Result<String, CryptoError>)
    ensures
        match spec_encode_qr(response_signed(response@)) {
            Ok(t) => result matches Ok(s) && s@ == t,
            Err(e) => result matches Err(x) && x == e,
        },
{
    encode_qr(response.encode_signed().as_slice())
}

/// The bundle a QR text holds. The text must be ASCII of at most 704 bytes,
/// start with the prefix and be exactly the canonical QR text of a bundle of
/// 1 to 512 bytes.
pub open spec fn spec_decode_qr(input: Seq<char>) -> Result<BundleView, CryptoError> {
    let bytes = encode_utf8(input);
    let prefix = encode_utf8("lantern-contact-v1:"@);
    if input.len() == 0 {
        Err(CryptoError::EmptyInput)
    } else if bytes.len() > CONTACT_QR_MAX_BYTES || !vstd::utf8::is_ascii_chars(input) {
        Err(CryptoError::InputTooLarge)
    } else if !(bytes.len() >= prefix.len() && bytes.take(prefix.len() as int) == prefix) {
        Err(CryptoError::Malformed)
    } else {
        let encoded = bytes.skip(prefix.len() as int);
        if encoded.len() == 0 || encoded.contains(61u8) {
            Err(CryptoError::Malformed)
        } else {
            match base64_url_nopad_decoded(encoded) {
                None => Err(CryptoError::Malformed),
                Some(cbor) => if cbor.len() == 0 || cbor.len() > CONTACT_CBOR_MAX_BYTES {
                    Err(CryptoError::WrongLength)
                } else {
                    match spec_encode_qr(cbor) {
                        Err(e) => Err(e),
                        Ok(t) => if t != input {
                            Err(CryptoError::NonCanonical)
                        } else {
                            spec_decode_bundle(cbor)
                        },
                    }
                },
            }
        }
    }
}

fn contains_byte(bytes: &[u8], b: u8) -> (found: bool)
    ensures
        found == bytes@.contains(b),
{
    let mut i: usize = 0;
    while i < bytes.len()
        invariant
            0 <= i <= bytes@.len(),
            forall|j: int| 0 <= j < i ==> bytes@[j] != b,
        decreases bytes@.len() - i,
    {
        if bytes[i] == b {
            assert(bytes@[i as int] == b);
            return true;
        }
        i = i + 1;
    }
    false
}

/// Decodes a contact QR text; exactly `spec_decode_qr`.
pub fn decode_contact_qr(input: &str) -> (result: Result<ContactBundle, CryptoError>)
    ensures
        match spec_decode_qr(input@) {
            Ok(b) => result matches Ok(x) && x@ == b,
            Err(e) => result matches Err(x) && x == e,
        },
{
    if input.is_empty() {
        return Err(CryptoError::EmptyInput);
    }
    let bytes = input.as_bytes();
    if bytes.len() > CONTACT_QR_MAX_BYTES || !input.is_ascii() {
        return Err(CryptoError::InputTooLarge);
    }
    let prefix = "lantern-contact-v1:".as_bytes();
    if bytes.len() < prefix.len() {
        return Err(CryptoError::Malformed);
    }
    let head_part = copy_range(bytes, 0, prefix.len());
    proof {
        assert(bytes@.take(prefix@.len() as int) =~= head_part@);
    }
    if !slices_equal(head_part.as_slice(), prefix) {
        return Err(CryptoError::Malformed);
    }
    let encoded = copy_range(bytes, prefix.len(), bytes.len());
    proof {
        assert(bytes@.skip(prefix@.len() as int) =~= encoded@);
    }
    if encoded.len() == 0 || contains_byte(encoded.as_slice(), 61) {
        return Err(CryptoError::Malformed);
    }
    let cbor = match base64_url_decode(encoded.as_slice()) {
        Some(c) => c,
        None => {
            return Err(CryptoError::Malformed);
        },
    };
    if cbor.len() == 0 || cbor.len() > CONTACT_CBOR_MAX_BYTES {
        return Err(CryptoError::WrongLength);
    }
    let canonical = match encode_qr(cbor.as_slice()) {
        Ok(t) => t,
        Err(e) => {
            return Err(e);
        },
    };
    let owned = input.to_owned();
    if canonical != owned {
        return Err(CryptoError::NonCanonical);
    }
    decode_contact_cbor(cbor.as_slice())
}

/// A fresh array of random bytes; `Entropy` when none can be had.
fn random16() -> (result: Result<[u8; 16], CryptoError>)
    ensures
        result matches Err(e) ==> e == CryptoError::Entropy,
{
    let mut bytes = [0u8; 16];
    if !fill_random(&mut bytes) {
        return Err(CryptoError::Entropy);
    }
    Ok(bytes)
}

/// A fresh array of random bytes; `Entropy` when none can be had.
fn random32() -> (result: Result<[u8; 32], CryptoError>)
    ensures
        result matches Err(e) ==> e == CryptoError::Entropy,
{
    let mut bytes = [0u8; 32];
    if !fill_random(&mut bytes) {
        return Err(CryptoError::Entropy);
    }
    Ok(bytes)
}

#[verifier::external_type_specification]
#[verifier::external_body]
pub struct ExAccount(vodozemac::olm::Account);

#[verifier::external_type_specification]
#[verifier::external_body]
pub struct ExSas(vodozemac::sas::Sas);

#[verifier::external_type_specification]
#[verifier::external_body]
pub struct ExEstablishedSas(vodozemac::sas::EstablishedSas);

/// Wraps `Account::ed25519_key`: the account's Ed25519 identity key.
/// Nothing is stated of it; it lives inside the account.
#[verifier::external_body]
pub(crate) fn account_ed25519_key(account: &vodozemac::olm::Account) -> (key: [u8; 32]) {
    *account.ed25519_key().as_bytes()
}

/// Wraps `Account::curve25519_key`: the account's Curve25519 identity key.
/// Nothing is stated of it; it lives inside the account.
#[verifier::external_body]
pub(crate) fn account_curve25519_key(account: &vodozemac::olm::Account) -> (key: [u8; 32]) {
    account.curve25519_key().to_bytes()
}

/// Wraps `Account::generate_one_time_keys` with a count of one: the public
/// key that was created, if any. The key is chance.
#[verifier::external_body]
fn account_generate_one_time_key(account: &mut vodozemac::olm::Account) -> (key: Option<[u8; 32]>) {
    match account.generate_one_time_keys(1).created.first() {
        Some(key) => Some(key.to_bytes()),
        None => None,
    }
}

/// Wraps `Account::mark_keys_as_published`. Nothing is stated.
#[verifier::external_body]
fn account_mark_keys_as_published(account: &mut vodozemac::olm::Account) {
    account.mark_keys_as_published()
}

/// Wraps `Account::sign`, with `Account::ed25519_key` for the key it signs
/// with: the account's Ed25519 identity key and the signature of the message
/// under it. Both come from the account's one signing key pair, and a
/// signature that pair made over the message verifies under its public key
/// (`ed25519_accepts`); the signature bytes themselves are not stated.
#[verifier::external_body]
fn account_sign(account: &vodozemac::olm::Account, message: &[u8]) -> (signed: ([u8; 32], [u8; 64]))
    ensures
        ed25519_accepts(signed.0@, message@, signed.1@),
{
    (*account.ed25519_key().as_bytes(), account.sign(message).to_bytes())
}

/// Wraps `vodozemac::sas::Sas::new`: a fresh ephemeral key pair; chance.
#[verifier::external_body]
fn sas_new() -> (sas: vodozemac::sas::Sas) {
    vodozemac::sas::Sas::new()
}

/// Wraps `Sas::public_key`: the ephemeral public key. Nothing is stated of
/// it; the secret lives inside the value.
#[verifier::external_body]
fn sas_public_key(sas: &vodozemac::sas::Sas) -> (key: [u8; 32]) {
    sas.public_key().to_bytes()
}

/// Wraps `Sas::diffie_hellman`: `None` when vodozemac rejects the other
/// side's key as non-contributory. Nothing else is stated.
#[verifier::external_body]
fn sas_diffie_hellman(sas: vodozemac::sas::Sas, their_key: &[u8; 32]) -> (established: Option<
    vodozemac::sas::EstablishedSas,
>) {
    sas.diffie_hellman(vodozemac::Curve25519PublicKey::from(*their_key)).ok()
}

/// Wraps `EstablishedSas::bytes` and `SasBytes::as_bytes`: the six bytes
/// derived from the shared secret and the information string. Nothing is
/// stated of them; they rest on the secret.
#[verifier::external_body]
fn sas_bytes(established: &vodozemac::sas::EstablishedSas, info: &str) -> (bytes: [u8; 6]) {
    *established.bytes(info).as_bytes()
}

/// The six bytes as one 48-bit number, first byte highest.
pub open spec fn sas_number(b: Seq<u8>) -> u64 {
    ((b[0] as u64) << 40u64) | ((b[1] as u64) << 32u64) | ((b[2] as u64) << 24u64) | ((
    b[3] as u64) << 16u64) | ((b[4] as u64) << 8u64) | (b[5] as u64)
}

/// The seven emoji indices of the short authentication string: the top 42
/// of its 48 bits in groups of six.
pub open spec fn sas_emoji_of(b: Seq<u8>) -> Seq<u8> {
    let n = sas_number(b);
    seq![
        ((n >> 42u64) & 63u64) as u8,
        ((n >> 36u64) & 63u64) as u8,
        ((n >> 30u64) & 63u64) as u8,
        ((n >> 24u64) & 63u64) as u8,
        ((n >> 18u64) & 63u64) as u8,
        ((n >> 12u64) & 63u64) as u8,
        ((n >> 6u64) & 63u64) as u8,
    ]
}

/// The three decimals of the short authentication string: the first 39
/// bits in groups of 13, each plus 1000; the sixth byte is not used.
pub open spec fn sas_decimals_of(b: Seq<u8>) -> (u16, u16, u16) {
    let b0 = b[0] as u16;
    let b1 = b[1] as u16;
    let b2 = b[2] as u16;
    let b3 = b[3] as u16;
    let b4 = b[4] as u16;
    (
        (((b0 << 5u16) | (b1 >> 3u16)) + 1000) as u16,
        ((((b1 & 7u16) << 10u16) | (b2 << 2u16) | (b3 >> 6u16)) + 1000) as u16,
        ((((b3 & 63u16) << 7u16) | (b4 >> 1u16)) + 1000) as u16,
    )
}

/// The emoji indices of six short-authentication-string bytes.
fn sas_emoji_indices(b: &[u8; 6]) -> (indices: [u8; 7])
    ensures
        indices@ == sas_emoji_of(b@),
{
    let n: u64 = ((b[0] as u64) << 40u64) | ((b[1] as u64) << 32u64) | ((b[2] as u64) << 24u64)
        | ((b[3] as u64) << 16u64) | ((b[4] as u64) << 8u64) | (b[5] as u64);
    let indices = [
        ((n >> 42u64) & 63u64) as u8,
        ((n >> 36u64) & 63u64) as u8,
        ((n >> 30u64) & 63u64) as u8,
        ((n >> 24u64) & 63u64) as u8,
        ((n >> 18u64) & 63u64) as u8,
        ((n >> 12u64) & 63u64) as u8,
        ((n >> 6u64) & 63u64) as u8,
    ];
    assert(indices@ =~= sas_emoji_of(b@));
    indices
}

/// The decimals of six short-authentication-string bytes.
fn sas_decimals(b: &[u8; 6]) -> (decimals: (u16, u16, u16))
    ensures
        decimals == sas_decimals_of(b@),
{
    let b0 = b[0] as u16;
    let b1 = b[1] as u16;
    let b2 = b[2] as u16;
    let b3 = b[3] as u16;
    let b4 = b[4] as u16;
    let first: u16 = (b0 << 5u16) | (b1 >> 3u16);
    let second: u16 = ((b1 & 7u16) << 10u16) | (b2 << 2u16) | (b3 >> 6u16);
    let third: u16 = ((b3 & 63u16) << 7u16) | (b4 >> 1u16);
    assert(first < 8192) by (bit_vector)
        requires
            b0 < 256,
            b1 < 256,
            first == (b0 << 5u16) | (b1 >> 3u16),
    ;
    assert(second < 8192) by (bit_vector)
        requires
            b1 < 256,
            b2 < 256,
            b3 < 256,
            second == ((b1 & 7u16) << 10u16) | (b2 << 2u16) | (b3 >> 6u16),
    ;
    assert(third < 8192) by (bit_vector)
        requires
            b3 < 256,
            b4 < 256,
            third == ((b3 & 63u16) << 7u16) | (b4 >> 1u16),
    ;
    (first + 1000, second + 1000, third + 1000)
}

/// The short authentication string both sides compare.
#[derive(Clone, Copy, Debug, PartialEq, Eq)]
pub struct SasDisplay {
    emoji_indices: [u8; 7],
    decimals: (u16, u16, u16),
}

impl SasDisplay {
    pub closed spec fn spec_emoji_indices(&self) -> Seq<u8> {
        self.emoji_indices@
    }

    pub closed spec fn spec_decimals(&self) -> (u16, u16, u16) {
        self.decimals
    }

    pub fn emoji_indices(&self) -> (value: &[u8; 7])
        ensures
            value@ == self.spec_emoji_indices(),
    {
        &self.emoji_indices
    }

    pub fn decimals(&self) -> (value: (u16, u16, u16))
        ensures
            value == self.spec_decimals(),
    {
        self.decimals
    }

    /// Both forms come from the same six bytes.
    pub open spec fn from_bytes(&self, b: Seq<u8>) -> bool {
        b.len() == 6 && self.spec_emoji_indices() == sas_emoji_of(b) && self.spec_decimals()
            == sas_decimals_of(b)
    }
}

/// The ephemeral key pair of one side of the short authentication string.
pub struct SasHandle {
    sas: vodozemac::sas::Sas,
    public_key: [u8; 32],
}

impl View for SasHandle {
    type V = Seq<u8>;

    /// The public key this side published in its bundle.
    closed spec fn view(&self) -> Seq<u8> {
        self.public_key@
    }
}

/// A hexadecimal digit.
pub open spec fn hex_char(d: int) -> char {
    if d < 10 {
        (48 + d) as char
    } else {
        (87 + d) as char
    }
}

/// Four lower-case hexadecimal digits of a number below 65536.
pub open spec fn hex4(n: int) -> Seq<char> {
    seq![hex_char(n / 4096), hex_char((n / 256) % 16), hex_char((n / 16) % 16), hex_char(n % 16)]
}

/// The information string of the short authentication string: the domain,
/// then for the invitation and the response in turn the length of its CBOR
/// in four hexadecimal digits and its base64 text, separated by colons.
pub open spec fn sas_info_text(invitation: InvitationView, response: ResponseView) -> Seq<char> {
    let i = invitation_signed(invitation);
    let r = response_signed(response);
    "Lantern contact SAS v1\0"@ + hex4(i.len() as int) + ":"@ + base64_url_nopad(i) + ":"@ + hex4(
        r.len() as int,
    ) + ":"@ + base64_url_nopad(r)
}

fn hex_digit(d: u16) -> (digit: &'static str)
    requires
        d < 16,
    ensures
        digit@ == seq![hex_char(d as int)],
{
    match d {
        0 => {
            proof {
                reveal_strlit("0");
            }
            "0"
        },
        1 => {
            proof {
                reveal_strlit("1");
            }
            "1"
        },
        2 => {
            proof {
                reveal_strlit("2");
            }
            "2"
        },
        3 => {
            proof {
                reveal_strlit("3");
            }
            "3"
        },
        4 => {
            proof {
                reveal_strlit("4");
            }
            "4"
        },
        5 => {
            proof {
                reveal_strlit("5");
            }
            "5"
        },
        6 => {
            proof {
                reveal_strlit("6");
            }
            "6"
        },
        7 => {
            proof {
                reveal_strlit("7");
            }
            "7"
        },
        8 => {
            proof {
                reveal_strlit("8");
            }
            "8"
        },
        9 => {
            proof {
                reveal_strlit("9");
            }
            "9"
        },
        10 => {
            proof {
                reveal_strlit("a");
            }
            "a"
        },
        11 => {
            proof {
                reveal_strlit("b");
            }
            "b"
        },
        12 => {
            proof {
                reveal_strlit("c");
            }
            "c"
        },
        13 => {
            proof {
                reveal_strlit("d");
            }
            "d"
        },
        14 => {
            proof {
                reveal_strlit("e");
            }
            "e"
        },
        _ => {
            proof {
                reveal_strlit("f");
            }
            "f"
        },
    }
}

fn push_hex4(out: &mut String, n: u16)
    ensures
        final(out)@ == old(out)@ + hex4(n as int),
{
    out.append(hex_digit(n / 4096));
    out.append(hex_digit((n / 256) % 16));
    out.append(hex_digit((n / 16) % 16));
    out.append(hex_digit(n % 16));
    assert(final(out)@ =~= old(out)@ + hex4(n as int));
}

proof fn lemma_signed_lengths(invitation: Invitation, response: ContactResponse)
    ensures
        invitation_signed(invitation@).len() < 65536,
        response_signed(response@).len() < 65536,
{
    crate::cbor::lemma_pow256_facts();
}

fn sas_info(invitation: &Invitation, response: &ContactResponse) -> (info: String)
    ensures
        info@ == sas_info_text(invitation@, response@),
{
    let encoded_invitation = invitation.encode_signed();
    let encoded_response = response.encode_signed();
    proof {
        lemma_signed_lengths(*invitation, *response);
        reveal_strlit(":");
    }
    let mut info = String::new();
    info.append("Lantern contact SAS v1\0");
    push_hex4(&mut info, encoded_invitation.len() as u16);
    info.append(":");
    info.append(base64_url_encode(encoded_invitation.as_slice()).as_str());
    info.append(":");
    push_hex4(&mut info, encoded_response.len() as u16);
    info.append(":");
    info.append(base64_url_encode(encoded_response.as_slice()).as_str());
    info
}

impl SasHandle {
    /// Readable form that reveals nothing of the key pair.
    pub fn redacted_debug(&self) -> (text: &'static str)
        ensures
            text@ == "SasHandle([REDACTED])"@,
    {
        "SasHandle([REDACTED])"
    }

    /// The short authentication string of an invitation and its response,
    /// computed from this side's key pair and the other side's published key.
    /// Both bundles must be authentic and belong together, and this side's
    /// key must be one of the two.
    pub fn finish(self, invitation: &Invitation, response: &ContactResponse) -> (result: Result<
        SasDisplay,
        CryptoError,
    >)
        ensures
            !invitation_authentic(invitation@) ==> result == Err::<SasDisplay, CryptoError>(
                CryptoError::SignatureRejected,
            ),
            invitation_authentic(invitation@) && !response_authentic(response@) ==> result
                == Err::<SasDisplay, CryptoError>(CryptoError::SignatureRejected),
            invitation_authentic(invitation@) && response_authentic(response@)
                && response@.invitation_id != invitation@.invitation_id ==> result == Err::<
                SasDisplay,
                CryptoError,
            >(CryptoError::StateRejected),
            invitation_authentic(invitation@) && response_authentic(response@)
                && response@.invitation_id == invitation@.invitation_id && self@
                != invitation@.sas_key && self@ != response@.sas_key ==> result == Err::<
                SasDisplay,
                CryptoError,
            >(CryptoError::StateRejected),
            result is Ok ==> invitation_authentic(invitation@) && response_authentic(response@)
                && response@.invitation_id == invitation@.invitation_id && (self@
                == invitation@.sas_key || self@ == response@.sas_key),
            result matches Err(e) ==> e == CryptoError::SignatureRejected || e
                == CryptoError::StateRejected || e == CryptoError::InvalidValue,
            result matches Ok(d) ==> exists|b: Seq<u8>| #[trigger] d.from_bytes(b),
    {
        match invitation.verify() {
            Ok(()) => {},
            Err(e) => {
                return Err(e);
            },
        }
        match response.verify() {
            Ok(()) => {},
            Err(e) => {
                return Err(e);
            },
        }
        if !slices_equal(response.invitation_id(), invitation.invitation_id()) {
            return Err(CryptoError::StateRejected);
        }
        let their_key = if slices_equal(&self.public_key, invitation.sas_key()) {
            *response.sas_key()
        } else if slices_equal(&self.public_key, response.sas_key()) {
            *invitation.sas_key()
        } else {
            return Err(CryptoError::StateRejected);
        };
        if !curve25519_key_accepted(&their_key) {
            return Err(CryptoError::InvalidValue);
        }
        let established = match sas_diffie_hellman(self.sas, &their_key) {
            Some(e) => e,
            None => {
                return Err(CryptoError::InvalidValue);
            },
        };
        let info = sas_info(invitation, response);
        let bytes = sas_bytes(&established, info.as_str());
        let display = SasDisplay { emoji_indices: sas_emoji_indices(&bytes), decimals: sas_decimals(&bytes) };
        let result: Result<SasDisplay, CryptoError> = Ok(display);
        assert(result->Ok_0.from_bytes(bytes@));
        result
    }
}

impl Invitation {
    /// A new signed invitation from the account: a fresh one-time key, fresh
    /// random identifier, secret and recipient hint, and a fresh key pair for
    /// the short authentication string.
    pub fn create(account: &mut vodozemac::olm::Account) -> (result: Result<
        (Invitation, SasHandle),
        CryptoError,
    >)
        ensures
            result matches Ok((invitation, handle)) ==> invitation@.sas_key == handle@
                && invitation_authentic(invitation@),
            result matches Err(e) ==> e == CryptoError::StateRejected || e == CryptoError::Entropy,
    {
        let one_time_key = match account_generate_one_time_key(account) {
            Some(key) => key,
            None => {
                return Err(CryptoError::StateRejected);
            },
        };
        account_mark_keys_as_published(account);
        let sas = sas_new();
        let sas_key = sas_public_key(&sas);
        let invitation_id = match random16() {
            Ok(v) => v,
            Err(e) => {
                return Err(e);
            },
        };
        let invitation_secret = match random32() {
            Ok(v) => v,
            Err(e) => {
                return Err(e);
            },
        };
        let inbound_recipient_hint = match random16() {
            Ok(v) => v,
            Err(e) => {
                return Err(e);
            },
        };
        let mut invitation = Invitation {
            invitation_id,
            signing_identity_key: account_ed25519_key(account),
            curve_identity_key: account_curve25519_key(account),
            one_time_key,
            sas_key,
            invitation_secret,
            inbound_recipient_hint,
            signature: [0u8; 64],
        };
        let unsigned = invitation.encode_unsigned();
        let input = signing_input(
            "Lantern contact invite signature v1\0".as_bytes(),
            unsigned.as_slice(),
        );
        let (signer, signature) = account_sign(account, input.as_slice());
        if !crate::cbor::slices_equal(&signer, &invitation.signing_identity_key) {
            return Err(CryptoError::StateRejected);
        }
        invitation.signature = signature;
        Ok((invitation, SasHandle { sas, public_key: sas_key }))
    }
}

impl ContactResponse {
    /// A new signed response to an authentic invitation, with fresh random
    /// identifier, secret and recipient hint and a fresh key pair for the
    /// short authentication string.
    pub fn create(account: &vodozemac::olm::Account, invitation: &Invitation) -> (result: Result<
        (ContactResponse, SasHandle),
        CryptoError,
    >)
        ensures
            !invitation_authentic(invitation@) ==> (result matches Err(e) && e
                == CryptoError::SignatureRejected),
            result matches Ok((response, handle)) ==> response@.sas_key == handle@
                && response@.invitation_id == invitation@.invitation_id
                && invitation_authentic(invitation@) && response_authentic(response@),
            result matches Err(e) ==> e == CryptoError::SignatureRejected || e
                == CryptoError::Entropy || e == CryptoError::StateRejected,
    {
        match invitation.verify() {
            Ok(()) => {},
            Err(e) => {
                return Err(e);
            },
        }
        let sas = sas_new();
        let sas_key = sas_public_key(&sas);
        let response_id = match random16() {
            Ok(v) => v,
            Err(e) => {
                return Err(e);
            },
        };
        let response_secret = match random32() {
            Ok(v) => v,
            Err(e) => {
                return Err(e);
            },
        };
        let inbound_recipient_hint = match random16() {
            Ok(v) => v,
            Err(e) => {
                return Err(e);
            },
        };
        let mut response = ContactResponse {
            response_id,
            invitation_id: invitation.invitation_id,
            signing_identity_key: account_ed25519_key(account),
            curve_identity_key: account_curve25519_key(account),
            sas_key,
            response_secret,
            inbound_recipient_hint,
            signature: [0u8; 64],
        };
        let unsigned = response.encode_unsigned();
        let input = signing_input(
            "Lantern contact response signature v1\0".as_bytes(),
            unsigned.as_slice(),
        );
        let (signer, signature) = account_sign(account, input.as_slice());
        if !crate::cbor::slices_equal(&signer, &response.signing_identity_key) {
            return Err(CryptoError::StateRejected);
        }
        response.signature = signature;
        Ok((response, SasHandle { sas, public_key: sas_key }))
    }
}

} // verus!
