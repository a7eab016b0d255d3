//! The two encrypted confirmations that turn an exchanged invitation and
//! response into an Olm session, and the sealing and opening of one inner
//! message in an Envelope.
use vstd::prelude::*;

use super::contact::{
    account_curve25519_key, account_ed25519_key, ContactResponse, Invitation, InvitationView,
    ResponseView,
};
use super::inner::{
    CommonFields, CommonView, ConfirmFields, ConfirmView, Content, ContentView, InnerMessage,
    InnerView, decode_inner_message, encode_inner_message, spec_decode_inner, spec_encode_inner,
};
use super::wrapper::{
    decode_protected_payload, encode_protected_payload, law_payload_roundtrip, olm_accepts, olm_prekey_keys,
    prekey_session_keys, spec_decode_payload, OlmMessageType, ProtectedOlmMessage, ProtectedView,
};
use super::CryptoError;
use crate::envelope::{bytes16_equal, Envelope, EnvelopeView};
use crate::entropy::fill_random;

verus! {

/// Lifetime of a confirmation Envelope: seven days.
pub const CONFIRM_TTL_SECONDS: u64 = 604800;
/// Hop limit of a confirmation Envelope.
pub const CONFIRM_MAX_HOPS: u64 = 2;

#[verifier::external_type_specification]
#[verifier::external_body]
pub struct ExSession(vodozemac::olm::Session);

/// Wraps `Account::create_outbound_session` with `SessionConfig::version_1`
/// towards the given identity and one-time keys. Nothing is stated of the
/// session, which holds a fresh random base key.
#[verifier::external_body]
fn account_create_outbound_session(
    account: &vodozemac::olm::Account,
    identity_key: &[u8; 32],
    one_time_key: &[u8; 32],
) -> (session: vodozemac::olm::Session) {
    account.create_outbound_session(
        vodozemac::olm::SessionConfig::version_1(),
        vodozemac::Curve25519PublicKey::from(*identity_key),
        vodozemac::Curve25519PublicKey::from(*one_time_key),
    )
}

/// Wraps `Account::create_inbound_session` on the pre-key message that
/// `PreKeyMessage::from_bytes` parses from `pre_key`: `None` when the bytes
/// are no pre-key message (exactly when `olm_accepts(0, pre_key)` fails),
/// `Some(None)` when vodozemac refuses the message, else the new session
/// and the decrypted plaintext. vodozemac refuses a message whose sender
/// identity key is not `identity_key`. Nothing is stated of the session or
/// the plaintext.
#[verifier::external_body]
fn account_create_inbound_session(
    account: &mut vodozemac::olm::Account,
    identity_key: &[u8; 32],
    pre_key: &[u8],
) -> (result: Option<Option<(vodozemac::olm::Session, Vec<u8>)>>)
    ensures
        result is Some == olm_accepts(0, pre_key@),
        result matches Some(Some(_)) ==> olm_prekey_keys(pre_key@) matches Some(k) && k.0
            == identity_key@,
{
    match vodozemac::olm::PreKeyMessage::from_bytes(pre_key) {
        Ok(message) => Some(
            match account.create_inbound_session(
                vodozemac::Curve25519PublicKey::from(*identity_key),
                &message,
            ) {
                Ok(inbound) => Some((inbound.session, inbound.plaintext)),
                Err(_) => None,
            },
        ),
        Err(_) => None,
    }
}

/// Wraps `Session::encrypt`. Nothing is stated of the message, which
/// depends on the session's secret state.
#[verifier::external_body]
pub(crate) fn session_encrypt(session: &mut vodozemac::olm::Session, plaintext: &[u8]) -> (message:
    vodozemac::olm::OlmMessage) {
    session.encrypt(plaintext)
}

/// Wraps `Session::decrypt` on the Olm message that `OlmMessage::from_parts`
/// parses from `message_type` and `bytes`: `None` when they are no Olm
/// message or vodozemac refuses it. Nothing is stated of the plaintext,
/// which depends on the session's secret state.
#[verifier::external_body]
pub(crate) fn session_decrypt(
    session: &mut vodozemac::olm::Session,
    message_type: usize,
    bytes: &[u8],
) -> (plaintext: Option<Vec<u8>>) {
    match vodozemac::olm::OlmMessage::from_parts(message_type, bytes) {
        Ok(message) => session.decrypt(&message).ok(),
        Err(_) => None,
    }
}

/// Sixteen fresh random bytes; `Entropy` when none can be had.
pub(crate) fn random_id() -> (result: Result<[u8; 16], CryptoError>)
    ensures
        result matches Err(e) ==> e == CryptoError::Entropy,
{
    let mut bytes = [0u8; 16];
    if !fill_random(&mut bytes) {
        return Err(CryptoError::Entropy);
    }
    Ok(bytes)
}

/// An Olm account together with the two identity keys it reported when it
/// was wrapped. vodozemac never changes an account's identity keys, so these
/// are the keys the account holds for as long as it lives.
pub struct KeyedAccount {
    account: vodozemac::olm::Account,
    signing_key: [u8; 32],
    curve_key: [u8; 32],
}

impl KeyedAccount {
    /// Wraps `account`, reading its Ed25519 and Curve25519 identity keys.
    pub fn new(account: vodozemac::olm::Account) -> (keyed: Self) {
        let signing_key = account_ed25519_key(&account);
        let curve_key = account_curve25519_key(&account);
        KeyedAccount { account, signing_key, curve_key }
    }

    pub closed spec fn spec_signing_key(&self) -> Seq<u8> {
        self.signing_key@
    }

    pub closed spec fn spec_curve_key(&self) -> Seq<u8> {
        self.curve_key@
    }

    pub fn signing_key(&self) -> (key: &[u8; 32])
        ensures
            key@ == self.spec_signing_key(),
    {
        &self.signing_key
    }

    pub fn curve_key(&self) -> (key: &[u8; 32])
        ensures
            key@ == self.spec_curve_key(),
    {
        &self.curve_key
    }

    pub fn account(&self) -> (account: &vodozemac::olm::Account) {
        &self.account
    }

    pub fn into_account(self) -> (account: vodozemac::olm::Account) {
        self.account
    }
}

/// The confirmation secrets of an invitation and its response.
pub open spec fn expected_confirm(invitation: InvitationView, response: ResponseView) -> ConfirmView {
    ConfirmView {
        invitation_id: invitation.invitation_id,
        response_id: response.response_id,
        invitation_secret: invitation.invitation_secret,
        response_secret: response.response_secret,
    }
}

/// The inner message's copies of the Envelope fields are the Envelope's own.
pub open spec fn common_matches(common: CommonView, envelope: EnvelopeView) -> bool {
    common == (CommonView {
        message_id: envelope.message_id,
        recipient_hint: envelope.recipient_hint,
        ttl_seconds: envelope.ttl_seconds,
        max_hops: envelope.max_hops,
    })
}

/// The Envelope of a confirmation is addressed to `hint`, lives seven days
/// and may travel two hops.
pub open spec fn confirmation_addressed(envelope: EnvelopeView, hint: Seq<u8>) -> bool {
    &&& envelope.recipient_hint == hint
    &&& envelope.ttl_seconds == CONFIRM_TTL_SECONDS
    &&& envelope.max_hops == CONFIRM_MAX_HOPS
}

/// Bob's own checks before he seals his confirmation: the bundles belong
/// together and his account's identity keys are the response's; otherwise
/// `StateRejected`.
pub open spec fn initiator_precheck(
    signing_key: Seq<u8>,
    curve_key: Seq<u8>,
    invitation: InvitationView,
    response: ResponseView,
) -> Result<(), CryptoError> {
    if invitation.invitation_id != response.invitation_id || signing_key
        != response.signing_identity_key || curve_key != response.curve_identity_key {
        Err(CryptoError::StateRejected)
    } else {
        Ok(())
    }
}

/// Alice's own checks before she opens Bob's confirmation: the bundles
/// belong together (else `StateRejected`); her account's identity keys are
/// the invitation's and the Envelope is addressed to her invitation's hint
/// as a confirmation (else `EnvelopeMismatch`); the payload decodes (else its
/// decoding error) and holds a pre-key message (else `UnsupportedType`).
pub open spec fn responder_precheck(
    signing_key: Seq<u8>,
    curve_key: Seq<u8>,
    invitation: InvitationView,
    response: ResponseView,
    envelope: EnvelopeView,
) -> Result<(), CryptoError> {
    if invitation.invitation_id != response.invitation_id {
        Err(CryptoError::StateRejected)
    } else if signing_key != invitation.signing_identity_key || curve_key
        != invitation.curve_identity_key || !confirmation_addressed(
        envelope,
        invitation.inbound_recipient_hint,
    ) {
        Err(CryptoError::EnvelopeMismatch)
    } else {
        match spec_decode_payload(envelope.payload) {
            Err(e) => Err(e),
            Ok(p) => if p.message_type != OlmMessageType::PreKey {
                Err(CryptoError::UnsupportedType)
            } else {
                Ok(())
            },
        }
    }
}

/// Bob's own checks before he opens Alice's reply: the bundles belong
/// together (else `StateRejected`); the Envelope is addressed to his
/// response's hint as a confirmation (else `EnvelopeMismatch`); the payload
/// decodes (else its decoding error) and holds a normal message (else
/// `UnsupportedType`).
pub open spec fn reply_precheck(
    invitation: InvitationView,
    response: ResponseView,
    envelope: EnvelopeView,
) -> Result<(), CryptoError> {
    if invitation.invitation_id != response.invitation_id {
        Err(CryptoError::StateRejected)
    } else if !confirmation_addressed(envelope, response.inbound_recipient_hint) {
        Err(CryptoError::EnvelopeMismatch)
    } else {
        match spec_decode_payload(envelope.payload) {
            Err(e) => Err(e),
            Ok(p) => if p.message_type != OlmMessageType::Normal {
                Err(CryptoError::UnsupportedType)
            } else {
                Ok(())
            },
        }
    }
}

/// How sealing ends once the inner message's kind fits the expected Olm
/// type, when it fails: the encoding is too large (`InputTooLarge`), or
/// vodozemac's Olm message is not one that the protected payload and the
/// Envelope carry as expected (`UnsupportedType`, `WrongLength`,
/// `OlmRejected`, `StateRejected`, `InvalidValue`).
pub open spec fn seal_failure(e: CryptoError) -> bool {
    ||| e == CryptoError::InputTooLarge
    ||| e == CryptoError::UnsupportedType
    ||| e == CryptoError::WrongLength
    ||| e == CryptoError::OlmRejected
    ||| e == CryptoError::StateRejected
    ||| e == CryptoError::InvalidValue
}

/// The pre-key message that `payload` protects carries `identity_key` as its
/// sender identity key and `one_time_key` as its one-time key.
pub open spec fn prekey_carries(payload: Seq<u8>, identity_key: Seq<u8>, one_time_key: Seq<u8>) -> bool {
    &&& spec_decode_payload(payload) matches Ok(p)
    &&& p.message_type == OlmMessageType::PreKey
    &&& olm_prekey_keys(p.message) == Some((identity_key, one_time_key))
}

/// The pre-key message that `payload` protects was sent by `identity_key`.
pub open spec fn prekey_sent_by(payload: Seq<u8>, identity_key: Seq<u8>) -> bool {
    &&& spec_decode_payload(payload) matches Ok(p)
    &&& p.message_type == OlmMessageType::PreKey
    &&& olm_prekey_keys(p.message) matches Some(k)
    &&& k.0 == identity_key
}

fn confirm_fields(invitation: &Invitation, response: &ContactResponse) -> (fields: ConfirmFields)
    ensures
        fields@ == expected_confirm(invitation@, response@),
{
    ConfirmFields::new(
        *invitation.invitation_id(),
        *response.response_id(),
        *invitation.invitation_secret(),
        *response.response_secret(),
    )
}

fn same32(a: &[u8; 32], b: &[u8; 32]) -> (same: bool)
    ensures
        same == (a@ == b@),
{
    crate::cbor::slices_equal(a, b)
}

fn confirm_equal(a: &ConfirmFields, b: &ConfirmFields) -> (same: bool)
    ensures
        same == (a@ == b@),
{
    let r = bytes16_equal(a.invitation_id(), b.invitation_id()) && bytes16_equal(
        a.response_id(),
        b.response_id(),
    ) && same32(a.invitation_secret(), b.invitation_secret()) && same32(
        a.response_secret(),
        b.response_secret(),
    );
    r
}

/// An Envelope sealed by a session, with the inner message whose encoding
/// was handed to the session.
pub struct SealedEnvelope {
    envelope: Envelope,
    message: Ghost<InnerView>,
    plaintext: Ghost<Seq<u8>>,
}

impl SealedEnvelope {
    pub closed spec fn spec_envelope(&self) -> EnvelopeView {
        self.envelope@
    }

    /// The inner message that was sealed.
    pub closed spec fn spec_message(&self) -> InnerView {
        self.message@
    }

    /// The bytes handed to the session.
    pub closed spec fn spec_plaintext(&self) -> Seq<u8> {
        self.plaintext@
    }

    pub fn envelope(&self) -> (envelope: &Envelope)
        ensures
            envelope@ == self.spec_envelope(),
    {
        &self.envelope
    }

    pub fn into_envelope(self) -> (envelope: Envelope)
        ensures
            envelope@ == self.spec_envelope(),
    {
        self.envelope
    }
}

/// Seals an inner message with the session into an Envelope. The message's
/// kind must fit the expected Olm type, vodozemac must produce a message of
/// that type, and the Envelope carries the inner message's own copies of its
/// fields. The session is handed exactly the encoding of `inner`.
pub fn encrypt_inner(
    session: &mut vodozemac::olm::Session,
    inner: &InnerMessage,
    expected_type: OlmMessageType,
) -> (result: Result<SealedEnvelope, CryptoError>)
    ensures
        (inner@.content is InitiatorConfirm) != (expected_type == OlmMessageType::PreKey)
            ==> result == Err::<SealedEnvelope, CryptoError>(CryptoError::UnsupportedType),
        (inner@.content is InitiatorConfirm) == (expected_type == OlmMessageType::PreKey) ==> (result
            matches Err(e) ==> seal_failure(e)),
        result matches Ok(sealed) ==> {
            &&& sealed.spec_message() == inner@
            &&& spec_encode_inner(inner@) == Ok::<Seq<u8>, CryptoError>(sealed.spec_plaintext())
            &&& common_matches(inner@.common, sealed.spec_envelope())
            &&& spec_decode_payload(sealed.spec_envelope().payload) matches Ok(p) && p.message_type
                == expected_type
        },
{
    match inner.validate_olm_type(expected_type) {
        Ok(()) => {},
        Err(e) => {
            return Err(e);
        },
    }
    let plaintext = match encode_inner_message(inner) {
        Ok(p) => p,
        Err(e) => {
            return Err(e);
        },
    };
    let olm = session_encrypt(session, plaintext.as_slice());
    let protected = match ProtectedOlmMessage::from_olm(&olm) {
        Ok(p) => p,
        Err(e) => {
            return Err(e);
        },
    };
    if protected.message_type() != expected_type {
        return Err(CryptoError::StateRejected);
    }
    let payload = match encode_protected_payload(&protected) {
        Ok(p) => p,
        Err(e) => {
            return Err(e);
        },
    };
    protected.establish_valid();
    proof {
        law_payload_roundtrip(protected@);
    }
    let common = inner.common();
    let envelope = match Envelope::try_from_fields(
        1,
        *common.message_id(),
        *common.recipient_hint(),
        common.ttl_seconds() as u64,
        common.max_hops() as u64,
        0,
        payload,
    ) {
        Ok(e) => e,
        Err(_) => {
            return Err(CryptoError::InvalidValue);
        },
    };
    if !inner.matches_envelope(&envelope) {
        return Err(CryptoError::EnvelopeMismatch);
    }
    Ok(SealedEnvelope { envelope, message: Ghost(inner@), plaintext: Ghost(plaintext@) })
}

/// The confirmation message of one side: addressed to `hint` with a fresh
/// identifier, seven days and two hops, confirming exactly this invitation
/// and response.
pub open spec fn confirmation_message(
    message_id: Seq<u8>,
    hint: Seq<u8>,
    initiator: bool,
    invitation: InvitationView,
    response: ResponseView,
) -> InnerView {
    InnerView {
        common: CommonView {
            message_id: message_id,
            recipient_hint: hint,
            ttl_seconds: CONFIRM_TTL_SECONDS as int,
            max_hops: CONFIRM_MAX_HOPS as int,
        },
        content: if initiator {
            ContentView::InitiatorConfirm(expected_confirm(invitation, response))
        } else {
            ContentView::ReceiverConfirm(expected_confirm(invitation, response))
        },
    }
}

/// The verdict on a decoded confirmation: its kind must fit the Olm type
/// (else `UnsupportedType`), it must repeat the Envelope's fields (else
/// `EnvelopeMismatch`), and it must be the expected side's confirmation of
/// exactly this invitation and response (else `StateRejected`).
pub open spec fn confirmation_verdict(
    m: InnerView,
    envelope: EnvelopeView,
    message_type: OlmMessageType,
    initiator: bool,
    invitation: InvitationView,
    response: ResponseView,
) -> Result<(), CryptoError> {
    if (m.content is InitiatorConfirm) != (message_type == OlmMessageType::PreKey) {
        Err(CryptoError::UnsupportedType)
    } else if !common_matches(m.common, envelope) {
        Err(CryptoError::EnvelopeMismatch)
    } else if (if initiator {
        m.content == ContentView::InitiatorConfirm(expected_confirm(invitation, response))
    } else {
        m.content == ContentView::ReceiverConfirm(expected_confirm(invitation, response))
    }) {
        Ok(())
    } else {
        Err(CryptoError::StateRejected)
    }
}

/// What a decrypted confirmation plaintext gives: the inner decoder's error,
/// or the `confirmation_verdict` on the decoded message.
pub open spec fn spec_check_confirmation(
    plaintext: Seq<u8>,
    envelope: EnvelopeView,
    message_type: OlmMessageType,
    initiator: bool,
    invitation: InvitationView,
    response: ResponseView,
) -> Result<(), CryptoError> {
    match spec_decode_inner(plaintext) {
        Err(e) => Err(e),
        Ok(m) => confirmation_verdict(m, envelope, message_type, initiator, invitation, response),
    }
}

/// Checks a decrypted confirmation as `confirmation_verdict` describes.
fn validate_confirmation(
    inner: &InnerMessage,
    envelope: &Envelope,
    message_type: OlmMessageType,
    initiator: bool,
    invitation: &Invitation,
    response: &ContactResponse,
) -> (result: Result<(), CryptoError>)
    ensures
        result == confirmation_verdict(
            inner@,
            envelope@,
            message_type,
            initiator,
            invitation@,
            response@,
        ),
{
    match inner.validate_olm_type(message_type) {
        Ok(()) => {},
        Err(e) => {
            return Err(e);
        },
    }
    if !inner.matches_envelope(envelope) {
        return Err(CryptoError::EnvelopeMismatch);
    }
    let expected = confirm_fields(invitation, response);
    match inner.content().confirmation() {
        Some((is_initiator, fields)) => {
            if is_initiator == initiator && confirm_equal(fields, &expected) {
                Ok(())
            } else {
                Err(CryptoError::StateRejected)
            }
        },
        None => Err(CryptoError::StateRejected),
    }
}

/// Checks the plaintext of a decrypted confirmation as
/// `spec_check_confirmation` describes.
pub fn check_confirmation_plaintext(
    plaintext: &[u8],
    envelope: &Envelope,
    message_type: OlmMessageType,
    initiator: bool,
    invitation: &Invitation,
    response: &ContactResponse,
) -> (result: Result<(), CryptoError>)
    ensures
        result == spec_check_confirmation(
            plaintext@,
            envelope@,
            message_type,
            initiator,
            invitation@,
            response@,
        ),
{
    let inner = match decode_inner_message(plaintext) {
        Ok(m) => m,
        Err(e) => {
            return Err(e);
        },
    };
    validate_confirmation(&inner, envelope, message_type, initiator, invitation, response)
}

/// Bob's confirmation, sealed in the new outbound session, with the session.
pub struct InitiatorConfirmation {
    session: vodozemac::olm::Session,
    sealed: SealedEnvelope,
}

impl InitiatorConfirmation {
    pub closed spec fn spec_envelope(&self) -> EnvelopeView {
        self.sealed.spec_envelope()
    }

    /// The inner message that was sealed.
    pub closed spec fn spec_message(&self) -> InnerView {
        self.sealed.spec_message()
    }

    /// The bytes handed to the session.
    pub closed spec fn spec_plaintext(&self) -> Seq<u8> {
        self.sealed.spec_plaintext()
    }

    pub fn envelope(&self) -> (envelope: &Envelope)
        ensures
            envelope@ == self.spec_envelope(),
    {
        self.sealed.envelope()
    }

    pub fn into_parts(self) -> (parts: (vodozemac::olm::Session, Envelope))
        ensures
            parts.1@ == self.spec_envelope(),
    {
        (self.session, self.sealed.into_envelope())
    }
}

/// Alice's account, the inbound session and her sealed reply.
pub struct AcceptedInitiator {
    account: vodozemac::olm::Account,
    session: vodozemac::olm::Session,
    receiver_confirmation: SealedEnvelope,
}

impl AcceptedInitiator {
    pub closed spec fn spec_receiver_confirmation(&self) -> EnvelopeView {
        self.receiver_confirmation.spec_envelope()
    }

    /// The inner message of the reply.
    pub closed spec fn spec_reply_message(&self) -> InnerView {
        self.receiver_confirmation.spec_message()
    }

    /// The bytes handed to the session for the reply.
    pub closed spec fn spec_reply_plaintext(&self) -> Seq<u8> {
        self.receiver_confirmation.spec_plaintext()
    }

    pub fn receiver_confirmation(&self) -> (envelope: &Envelope)
        ensures
            envelope@ == self.spec_receiver_confirmation(),
    {
        self.receiver_confirmation.envelope()
    }

    pub fn into_parts(self) -> (parts: (vodozemac::olm::Account, vodozemac::olm::Session, Envelope))
        ensures
            parts.2@ == self.spec_receiver_confirmation(),
    {
        (self.account, self.session, self.receiver_confirmation.into_envelope())
    }
}

/// Bob's own checks, as `initiator_precheck` describes, on his account's
/// two identity keys.
pub fn check_initiator_keys(
    signing_key: &[u8; 32],
    curve_key: &[u8; 32],
    invitation: &Invitation,
    response: &ContactResponse,
) -> (result: Result<(), CryptoError>)
    ensures
        result == initiator_precheck(signing_key@, curve_key@, invitation@, response@),
{
    if !bytes16_equal(invitation.invitation_id(), response.invitation_id()) || !same32(
        signing_key,
        response.signing_identity_key(),
    ) || !same32(curve_key, response.curve_identity_key()) {
        return Err(CryptoError::StateRejected);
    }
    Ok(())
}

/// Alice's own checks, as `responder_precheck` describes, on her account's
/// two identity keys; on success the decoded protected payload.
pub fn check_responder_start(
    signing_key: &[u8; 32],
    curve_key: &[u8; 32],
    invitation: &Invitation,
    response: &ContactResponse,
    envelope: &Envelope,
) -> (result: Result<ProtectedOlmMessage, CryptoError>)
    ensures
        match responder_precheck(signing_key@, curve_key@, invitation@, response@, envelope@) {
            Err(e) => result == Err::<ProtectedOlmMessage, CryptoError>(e),
            Ok(()) => result matches Ok(p) && spec_decode_payload(envelope@.payload) == Ok::<
                ProtectedView,
                CryptoError,
            >(p@),
        },
{
    if !bytes16_equal(invitation.invitation_id(), response.invitation_id()) {
        return Err(CryptoError::StateRejected);
    }
    let hint = envelope.recipient_hint();
    if !same32(signing_key, invitation.signing_identity_key()) || !same32(
        curve_key,
        invitation.curve_identity_key(),
    ) || !bytes16_equal(hint.as_bytes(), invitation.inbound_recipient_hint())
        || envelope.ttl_seconds().get() != 604800 || envelope.max_hops().get() != 2 {
        return Err(CryptoError::EnvelopeMismatch);
    }
    let protected = match decode_protected_payload(envelope.protected_payload().as_bytes()) {
        Ok(p) => p,
        Err(e) => {
            return Err(e);
        },
    };
    if protected.message_type() != OlmMessageType::PreKey {
        return Err(CryptoError::UnsupportedType);
    }
    Ok(protected)
}

/// Bob's own checks on Alice's reply, as `reply_precheck` describes; on
/// success the decoded protected payload.
pub fn check_reply_start(
    invitation: &Invitation,
    response: &ContactResponse,
    envelope: &Envelope,
) -> (result: Result<ProtectedOlmMessage, CryptoError>)
    ensures
        match reply_precheck(invitation@, response@, envelope@) {
            Err(e) => result == Err::<ProtectedOlmMessage, CryptoError>(e),
            Ok(()) => result matches Ok(p) && spec_decode_payload(envelope@.payload) == Ok::<
                ProtectedView,
                CryptoError,
            >(p@),
        },
{
    if !bytes16_equal(invitation.invitation_id(), response.invitation_id()) {
        return Err(CryptoError::StateRejected);
    }
    let hint = envelope.recipient_hint();
    if !bytes16_equal(hint.as_bytes(), response.inbound_recipient_hint())
        || envelope.ttl_seconds().get() != 604800 || envelope.max_hops().get() != 2 {
        return Err(CryptoError::EnvelopeMismatch);
    }
    let protected = match decode_protected_payload(envelope.protected_payload().as_bytes()) {
        Ok(p) => p,
        Err(e) => {
            return Err(e);
        },
    };
    if protected.message_type() != OlmMessageType::Normal {
        return Err(CryptoError::UnsupportedType);
    }
    Ok(protected)
}

/// Bob, who answered the invitation, opens an outbound session to Alice's
/// identity and one-time keys and seals his confirmation to her inbound
/// hint. His own checks come first (`initiator_precheck`); the sealed
/// pre-key message must carry his identity key and Alice's one-time key
/// (else `StateRejected`).
pub fn build_initiator_confirmation(
    bob: &KeyedAccount,
    invitation: &Invitation,
    response: &ContactResponse,
) -> (result: Result<InitiatorConfirmation, CryptoError>)
    ensures
        initiator_precheck(bob.spec_signing_key(), bob.spec_curve_key(), invitation@, response@) matches Err(
            e,
        ) ==> result == Err::<InitiatorConfirmation, CryptoError>(e),
        result matches Err(e) ==> initiator_precheck(
            bob.spec_signing_key(),
            bob.spec_curve_key(),
            invitation@,
            response@,
        ) == Err::<(), CryptoError>(e) || e == CryptoError::Entropy || seal_failure(e),
        result matches Ok(c) ==> {
            &&& initiator_precheck(bob.spec_signing_key(), bob.spec_curve_key(), invitation@, response@) is Ok
            &&& confirmation_addressed(c.spec_envelope(), invitation@.inbound_recipient_hint)
            &&& c.spec_message() == confirmation_message(
                c.spec_envelope().message_id,
                invitation@.inbound_recipient_hint,
                true,
                invitation@,
                response@,
            )
            &&& spec_encode_inner(c.spec_message()) == Ok::<Seq<u8>, CryptoError>(c.spec_plaintext())
            &&& prekey_carries(
                c.spec_envelope().payload,
                response@.curve_identity_key,
                invitation@.one_time_key,
            )
        },
{
    match check_initiator_keys(bob.signing_key(), bob.curve_key(), invitation, response) {
        Ok(()) => {},
        Err(e) => {
            return Err(e);
        },
    }
    let mut session = account_create_outbound_session(
        bob.account(),
        invitation.curve_identity_key(),
        invitation.one_time_key(),
    );
    let message_id = match random_id() {
        Ok(id) => id,
        Err(e) => {
            return Err(e);
        },
    };
    let common = match CommonFields::try_new(
        message_id,
        *invitation.inbound_recipient_hint(),
        CONFIRM_TTL_SECONDS,
        CONFIRM_MAX_HOPS,
    ) {
        Ok(c) => c,
        Err(e) => {
            return Err(e);
        },
    };
    let inner = match InnerMessage::try_new(
        common,
        Content::ContactInitiatorConfirm(confirm_fields(invitation, response)),
    ) {
        Ok(m) => m,
        Err(e) => {
            return Err(e);
        },
    };
    let sealed = match encrypt_inner(&mut session, &inner, OlmMessageType::PreKey) {
        Ok(e) => e,
        Err(e) => {
            return Err(e);
        },
    };
    let protected = match decode_protected_payload(
        sealed.envelope().protected_payload().as_bytes(),
    ) {
        Ok(p) => p,
        Err(e) => {
            return Err(e);
        },
    };
    match prekey_session_keys(protected.message_bytes()) {
        Some((identity_key, one_time_key)) => {
            if !same32(&identity_key, response.curve_identity_key()) || !same32(
                &one_time_key,
                invitation.one_time_key(),
            ) {
                return Err(CryptoError::StateRejected);
            }
        },
        None => {
            return Err(CryptoError::StateRejected);
        },
    }
    Ok(InitiatorConfirmation { session, sealed })
}

/// Alice accepts Bob's confirmation. Her own checks come first
/// (`responder_precheck`); the pre-key message must open an inbound session
/// from the response's identity key, and its plaintext must be Bob's
/// confirmation of exactly this invitation and response
/// (`spec_check_confirmation`). She answers with her own confirmation,
/// sealed to Bob's hint.
pub fn accept_initiator_confirmation(
    alice: KeyedAccount,
    invitation: &Invitation,
    response: &ContactResponse,
    envelope: &Envelope,
) -> (result: Result<AcceptedInitiator, CryptoError>)
    ensures
        responder_precheck(
            alice.spec_signing_key(),
            alice.spec_curve_key(),
            invitation@,
            response@,
            envelope@,
        ) matches Err(e) ==> result == Err::<AcceptedInitiator, CryptoError>(e),
        result matches Err(e) ==> responder_precheck(
            alice.spec_signing_key(),
            alice.spec_curve_key(),
            invitation@,
            response@,
            envelope@,
        ) == Err::<(), CryptoError>(e) || e == CryptoError::Entropy || seal_failure(e) || exists|
            plaintext: Seq<u8>,
        |
            #[trigger] spec_check_confirmation(
                plaintext,
                envelope@,
                OlmMessageType::PreKey,
                true,
                invitation@,
                response@,
            ) == Err::<(), CryptoError>(e),
        result matches Ok(a) ==> {
            &&& responder_precheck(
                alice.spec_signing_key(),
                alice.spec_curve_key(),
                invitation@,
                response@,
                envelope@,
            ) is Ok
            &&& prekey_sent_by(envelope@.payload, response@.curve_identity_key)
            &&& exists|plaintext: Seq<u8>|
                #[trigger] spec_check_confirmation(
                    plaintext,
                    envelope@,
                    OlmMessageType::PreKey,
                    true,
                    invitation@,
                    response@,
                ) == Ok::<(), CryptoError>(())
            &&& confirmation_addressed(a.spec_receiver_confirmation(), response@.inbound_recipient_hint)
            &&& a.spec_reply_message() == confirmation_message(
                a.spec_receiver_confirmation().message_id,
                response@.inbound_recipient_hint,
                false,
                invitation@,
                response@,
            )
            &&& spec_encode_inner(a.spec_reply_message()) == Ok::<Seq<u8>, CryptoError>(
                a.spec_reply_plaintext(),
            )
        },
{
    let protected = match check_responder_start(
        &alice.signing_key,
        &alice.curve_key,
        invitation,
        response,
        envelope,
    ) {
        Ok(p) => p,
        Err(e) => {
            return Err(e);
        },
    };
    protected.establish_valid();
    let mut account = alice.account;
    let (session, plaintext) = match account_create_inbound_session(
        &mut account,
        response.curve_identity_key(),
        protected.message_bytes(),
    ) {
        None => {
            return Err(CryptoError::UnsupportedType);
        },
        Some(None) => {
            return Err(CryptoError::OlmRejected);
        },
        Some(Some(inbound)) => inbound,
    };
    match check_confirmation_plaintext(
        plaintext.as_slice(),
        envelope,
        protected.message_type(),
        true,
        invitation,
        response,
    ) {
        Ok(()) => {},
        Err(e) => {
            return Err(e);
        },
    }
    let mut session = session;
    let message_id = match random_id() {
        Ok(id) => id,
        Err(e) => {
            return Err(e);
        },
    };
    let common = match CommonFields::try_new(
        message_id,
        *response.inbound_recipient_hint(),
        CONFIRM_TTL_SECONDS,
        CONFIRM_MAX_HOPS,
    ) {
        Ok(c) => c,
        Err(e) => {
            return Err(e);
        },
    };
    let reply = match InnerMessage::try_new(
        common,
        Content::ContactReceiverConfirm(confirm_fields(invitation, response)),
    ) {
        Ok(m) => m,
        Err(e) => {
            return Err(e);
        },
    };
    let receiver_confirmation = match encrypt_inner(&mut session, &reply, OlmMessageType::Normal) {
        Ok(e) => e,
        Err(e) => {
            return Err(e);
        },
    };
    Ok(AcceptedInitiator { account, session, receiver_confirmation })
}

/// Bob accepts Alice's reply. His own checks come first (`reply_precheck`);
/// his candidate session must decrypt the normal message, and its plaintext
/// must be Alice's confirmation of exactly this invitation and response
/// (`spec_check_confirmation`). The session is then established.
pub fn accept_receiver_confirmation(
    bob_candidate: vodozemac::olm::Session,
    invitation: &Invitation,
    response: &ContactResponse,
    envelope: &Envelope,
) -> (result: Result<vodozemac::olm::Session, CryptoError>)
    ensures
        reply_precheck(invitation@, response@, envelope@) matches Err(e) ==> result == Err::<
            vodozemac::olm::Session,
            CryptoError,
        >(e),
        result matches Err(e) ==> reply_precheck(invitation@, response@, envelope@) == Err::<
            (),
            CryptoError,
        >(e) || e == CryptoError::OlmRejected || exists|plaintext: Seq<u8>|
            #[trigger] spec_check_confirmation(
                plaintext,
                envelope@,
                OlmMessageType::Normal,
                false,
                invitation@,
                response@,
            ) == Err::<(), CryptoError>(e),
        result is Ok ==> reply_precheck(invitation@, response@, envelope@) is Ok && exists|
            plaintext: Seq<u8>,
        |
            #[trigger] spec_check_confirmation(
                plaintext,
                envelope@,
                OlmMessageType::Normal,
                false,
                invitation@,
                response@,
            ) == Ok::<(), CryptoError>(()),
{
    let mut bob_candidate = bob_candidate;
    let protected = match check_reply_start(invitation, response, envelope) {
        Ok(p) => p,
        Err(e) => {
            return Err(e);
        },
    };
    let raw = protected.message_type().as_raw();
    let plaintext = match session_decrypt(&mut bob_candidate, raw as usize, protected.message_bytes()) {
        Some(p) => p,
        None => {
            return Err(CryptoError::OlmRejected);
        },
    };
    match check_confirmation_plaintext(
        plaintext.as_slice(),
        envelope,
        protected.message_type(),
        false,
        invitation,
        response,
    ) {
        Ok(()) => {},
        Err(e) => {
            return Err(e);
        },
    }
    Ok(bob_candidate)
}

} // verus!
