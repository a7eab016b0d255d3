//! Sealing a chat message into an Envelope with an established session, and
//! opening one. Loading and storing the session is the caller's part.
use vstd::prelude::*;

use super::handshake::{common_matches, encrypt_inner, random_id, session_decrypt, SealedEnvelope};
use super::inner::{
    chat_text_ok, spec_decode_inner, spec_encode_inner, CommonFields, CommonView, Content,
    ContentView, InnerMessage, InnerView,
    decode_inner_message, INNER_MESSAGE_MAX_BYTES,
};
use super::wrapper::{
    decode_protected_payload, spec_decode_payload, OlmMessageType, ProtectedOlmMessage, ProtectedView,
};
use super::CryptoError;
use crate::envelope::{hops_in_range, ttl_in_range, Envelope, EnvelopeView};
use crate::secret_storage::SecretStorageError;

verus! {

/// A decrypted chat message.
pub struct ReceivedChat {
    text: String,
}

impl ReceivedChat {
    pub closed spec fn spec_text(&self) -> Seq<char> {
        self.text@
    }

    pub fn text(&self) -> (text: &str)
        ensures
            text@ == self.spec_text(),
    {
        self.text.as_str()
    }

    /// Readable form that reveals nothing of the text.
    pub fn redacted_debug(&self) -> (text: &'static str)
        ensures
            text@ == "ReceivedChat { .. }"@,
    {
        "ReceivedChat { .. }"
    }
}

/// The chat message that is sealed for `text` under the given fields.
pub open spec fn chat_message(
    message_id: Seq<u8>,
    recipient_hint: Seq<u8>,
    ttl_seconds: int,
    max_hops: int,
    text: Seq<char>,
) -> InnerView {
    InnerView {
        common: CommonView {
            message_id: message_id,
            recipient_hint: recipient_hint,
            ttl_seconds: ttl_seconds,
            max_hops: max_hops,
        },
        content: ContentView::Chat(text),
    }
}

/// What a sealed chat holds: the Envelope repeats the inner message's fields,
/// the inner message is `message`, and the session was handed its encoding.
pub open spec fn sealed_chat(sealed: SealedEnvelope, message: InnerView) -> bool {
    &&& sealed.spec_message() == message
    &&& common_matches(message.common, sealed.spec_envelope())
    &&& spec_encode_inner(message) == Ok::<Seq<u8>, CryptoError>(sealed.spec_plaintext())
}

/// Seals validated chat content under the given identifier.
fn seal_content(
    session: &mut vodozemac::olm::Session,
    content: Content,
    message_id: [u8; 16],
    recipient_hint: [u8; 16],
    ttl_seconds: u64,
    max_hops: u64,
) -> (result: Result<SealedEnvelope, CryptoError>)
    requires
        content@ is Chat,
    ensures
        !(ttl_in_range(ttl_seconds as int) && hops_in_range(max_hops as int)) ==> result == Err::<
            SealedEnvelope,
            CryptoError,
        >(CryptoError::InvalidValue),
        result matches Ok(sealed) ==> content@ matches ContentView::Chat(text) && sealed_chat(
            sealed,
            chat_message(message_id@, recipient_hint@, ttl_seconds as int, max_hops as int, text),
        ),
{
    let common = match CommonFields::try_new(message_id, recipient_hint, ttl_seconds, max_hops) {
        Ok(c) => c,
        Err(e) => {
            return Err(e);
        },
    };
    let inner = match InnerMessage::try_new(common, content) {
        Ok(m) => m,
        Err(e) => {
            return Err(e);
        },
    };
    encrypt_inner(session, &inner, OlmMessageType::Normal)
}

/// Seals a chat message with an established session under a given message
/// identifier: the Envelope carries the identifier, hint, lifetime and hop
/// limit, and a normal Olm message of the inner chat message of `text` that
/// repeats them.
pub fn seal_chat(
    session: &mut vodozemac::olm::Session,
    message_id: [u8; 16],
    recipient_hint: [u8; 16],
    text: String,
    ttl_seconds: u64,
    max_hops: u64,
) -> (result: Result<SealedEnvelope, CryptoError>)
    ensures
        !(chat_text_ok(text@) && ttl_in_range(ttl_seconds as int) && hops_in_range(
            max_hops as int,
        )) ==> result == Err::<SealedEnvelope, CryptoError>(CryptoError::InvalidValue),
        result matches Ok(sealed) ==> sealed_chat(
            sealed,
            chat_message(
                message_id@,
                recipient_hint@,
                ttl_seconds as int,
                max_hops as int,
                text@,
            ),
        ),
{
    let ghost t = text@;
    let content = match Content::chat(text) {
        Ok(c) => c,
        Err(e) => {
            return Err(e);
        },
    };
    assert(content@ == ContentView::Chat(t));
    seal_content(session, content, message_id, recipient_hint, ttl_seconds, max_hops)
}

/// Encrypts a chat message with an established session under a fresh
/// random message identifier. The text is checked before any randomness is
/// drawn; `Entropy` when none can be had. The sealed inner message is the
/// chat message of `text` under the Envelope's own fresh identifier.
pub fn encrypt_chat(
    session: &mut vodozemac::olm::Session,
    recipient_hint: [u8; 16],
    text: String,
    ttl_seconds: u64,
    max_hops: u64,
) -> (result: Result<SealedEnvelope, CryptoError>)
    ensures
        !chat_text_ok(text@) ==> result == Err::<SealedEnvelope, CryptoError>(
            CryptoError::InvalidValue,
        ),
        !(ttl_in_range(ttl_seconds as int) && hops_in_range(max_hops as int)) ==> (result matches Err(
            e,
        ) && (e == CryptoError::InvalidValue || e == CryptoError::Entropy)),
        result matches Ok(sealed) ==> sealed_chat(
            sealed,
            chat_message(
                sealed.spec_envelope().message_id,
                recipient_hint@,
                ttl_seconds as int,
                max_hops as int,
                text@,
            ),
        ),
{
    let ghost t = text@;
    let content = match Content::chat(text) {
        Ok(c) => c,
        Err(e) => {
            return Err(e);
        },
    };
    assert(content@ == ContentView::Chat(t));
    let message_id = match random_id() {
        Ok(id) => id,
        Err(e) => {
            return Err(e);
        },
    };
    seal_content(session, content, message_id, recipient_hint, ttl_seconds, max_hops)
}

/// The protected payload of a chat Envelope: it must decode, and only a
/// normal Olm message can carry a chat.
pub open spec fn spec_chat_payload(envelope: EnvelopeView) -> Result<ProtectedView, CryptoError> {
    match spec_decode_payload(envelope.payload) {
        Ok(p) => if p.message_type == OlmMessageType::Normal {
            Ok(p)
        } else {
            Err(CryptoError::UnsupportedType)
        },
        Err(e) => Err(e),
    }
}

/// Reads the protected payload of a chat Envelope, as `spec_chat_payload`
/// describes. This check comes before any session state is touched.
pub fn chat_payload(envelope: &Envelope) -> (result: Result<ProtectedOlmMessage, CryptoError>)
    ensures
        match spec_chat_payload(envelope@) {
            Ok(p) => result matches Ok(d) && d@ == p,
            Err(e) => result == Err::<ProtectedOlmMessage, CryptoError>(e),
        },
{
    let protected = match decode_protected_payload(envelope.protected_payload().as_bytes()) {
        Ok(p) => p,
        Err(e) => {
            return Err(e);
        },
    };
    match protected.message_type() {
        OlmMessageType::Normal => Ok(protected),
        OlmMessageType::PreKey => Err(CryptoError::UnsupportedType),
    }
}

/// What a decrypted plaintext opens to: the chat text, or the error. The
/// plaintext must be 1 to 4155 bytes and decode to an inner message whose
/// kind fits the Olm type, that repeats the Envelope's fields, and that is a
/// chat message; the checks come in that order.
pub open spec fn spec_open_chat(
    plaintext: Seq<u8>,
    envelope: EnvelopeView,
    message_type: OlmMessageType,
) -> Result<Seq<char>, CryptoError> {
    if plaintext.len() == 0 || plaintext.len() > INNER_MESSAGE_MAX_BYTES {
        Err(CryptoError::InvalidValue)
    } else {
        match spec_decode_inner(plaintext) {
            Err(e) => Err(e),
            Ok(m) => if (m.content is InitiatorConfirm) != (message_type == OlmMessageType::PreKey) {
                Err(CryptoError::UnsupportedType)
            } else if !common_matches(m.common, envelope) {
                Err(CryptoError::EnvelopeMismatch)
            } else {
                match m.content {
                    ContentView::Chat(t) => Ok(t),
                    _ => Err(CryptoError::StateRejected),
                }
            },
        }
    }
}

/// `result` is what `opened` describes: the chat with that text, or that error.
pub open spec fn opened_as(
    result: Result<ReceivedChat, CryptoError>,
    opened: Result<Seq<char>, CryptoError>,
) -> bool {
    match opened {
        Ok(t) => result matches Ok(c) && c.spec_text() == t,
        Err(e) => result == Err::<ReceivedChat, CryptoError>(e),
    }
}

/// Opens the plaintext of a chat message as `spec_open_chat` describes.
pub fn open_chat_plaintext(
    plaintext: &[u8],
    envelope: &Envelope,
    message_type: OlmMessageType,
) -> (result: Result<ReceivedChat, CryptoError>)
    ensures
        opened_as(result, spec_open_chat(plaintext@, envelope@, message_type)),
{
    if plaintext.len() == 0 || plaintext.len() > INNER_MESSAGE_MAX_BYTES {
        return Err(CryptoError::InvalidValue);
    }
    let inner = match decode_inner_message(plaintext) {
        Ok(m) => m,
        Err(e) => {
            return Err(e);
        },
    };
    match inner.validate_olm_type(message_type) {
        Ok(()) => {},
        Err(e) => {
            return Err(e);
        },
    }
    if !inner.matches_envelope(envelope) {
        return Err(CryptoError::EnvelopeMismatch);
    }
    let text = match inner.content().text() {
        Some(text) => text,
        None => {
            return Err(CryptoError::StateRejected);
        },
    };
    let chat = ReceivedChat { text: text.to_owned() };
    let result: Result<ReceivedChat, CryptoError> = Ok(chat);
    assert(result->Ok_0.spec_text() == chat.spec_text());
    result
}

/// Decrypts a chat message with the session and opens the plaintext as
/// `open_chat_plaintext` does. Which plaintext the session yields is its own
/// secret: when vodozemac refuses the message the result is `OlmRejected`,
/// and otherwise it is what `spec_open_chat` gives for the plaintext that
/// came back.
pub fn decrypt_chat(
    session: &mut vodozemac::olm::Session,
    envelope: &Envelope,
    protected: &ProtectedOlmMessage,
) -> (result: Result<ReceivedChat, CryptoError>)
    ensures
        protected@.message_type == OlmMessageType::PreKey ==> result is Err,
        result == Err::<ReceivedChat, CryptoError>(CryptoError::OlmRejected) || exists|
            plaintext: Seq<u8>,
        | #[trigger] opened_as(
            result,
            spec_open_chat(plaintext, envelope@, protected@.message_type),
        ),
{
    let raw = protected.message_type().as_raw();
    let plaintext = match session_decrypt(session, raw as usize, protected.message_bytes()) {
        Some(p) => p,
        None => {
            return Err(CryptoError::OlmRejected);
        },
    };
    let result = open_chat_plaintext(plaintext.as_slice(), envelope, protected.message_type());
    assert(opened_as(result, spec_open_chat(plaintext@, envelope@, protected@.message_type)));
    result
}

/// How a storage failure is reported by the cryptographic layer.
pub open spec fn storage_error_spec(error: SecretStorageError) -> CryptoError {
    match error {
        SecretStorageError::UnknownContact => CryptoError::StateRejected,
        SecretStorageError::RateLimited => CryptoError::RateLimited,
        SecretStorageError::AttemptAlreadyProcessed => CryptoError::StateRejected,
        _ => CryptoError::StorageFailed,
    }
}

/// Maps a storage failure to the cryptographic error reported for it.
pub fn map_storage_error(error: SecretStorageError) -> (mapped: CryptoError)
    ensures
        mapped == storage_error_spec(error),
        (mapped == CryptoError::RateLimited) <==> error == SecretStorageError::RateLimited,
        (mapped == CryptoError::StateRejected) <==> (error == SecretStorageError::UnknownContact
            || error == SecretStorageError::AttemptAlreadyProcessed),
        mapped == CryptoError::RateLimited || mapped == CryptoError::StateRejected || mapped
            == CryptoError::StorageFailed,
{
    proof {
        law_storage_errors(error);
    }
    match error {
        SecretStorageError::UnknownContact => CryptoError::StateRejected,
        SecretStorageError::RateLimited => CryptoError::RateLimited,
        SecretStorageError::AttemptAlreadyProcessed => CryptoError::StateRejected,
        _ => CryptoError::StorageFailed,
    }
}

/// How storage failures are reported: a rate limit stays a rate limit, an
/// unknown contact and an attempt already processed are rejected state, and
/// every other failure is a storage failure.
pub proof fn law_storage_errors(error: SecretStorageError)
    ensures
        (storage_error_spec(error) == CryptoError::RateLimited) <==> error
            == SecretStorageError::RateLimited,
        (storage_error_spec(error) == CryptoError::StateRejected) <==> (error
            == SecretStorageError::UnknownContact || error
            == SecretStorageError::AttemptAlreadyProcessed),
        (storage_error_spec(error) == CryptoError::StorageFailed) <==> !(error
            == SecretStorageError::RateLimited || error == SecretStorageError::UnknownContact
            || error == SecretStorageError::AttemptAlreadyProcessed),
{
}

} // verus!
