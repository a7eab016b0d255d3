//! The inner message carried inside an encrypted payload: a deterministic
//! CBOR map of common Envelope fields and one of seven kinds of content.
use vstd::prelude::*;
use vstd::utf8::{decode_utf8, encode_utf8, valid_utf8};

use super::items::{
    array16, array32, r_bytes, r_fixed, r_key, r_uint, read_bytes, read_fixed, read_key,
    read_uint,
};
use super::wrapper::OlmMessageType;
use super::CryptoError;
use crate::cbor::{copy_range, head, push_all, push_head, read_head, read_head_at, slices_equal};
use crate::envelope::{hops_in_range, ttl_in_range, Envelope};

verus! {

/// Version of the inner message format.
pub const INNER_VERSION: u64 = 1;
/// Version of the protected payload that carries the inner message.
pub const PROTECTED_PAYLOAD_VERSION: u64 = 1;
/// Map fields of a chat message.
pub const CHAT_FIELDS: u64 = 10;
/// Map fields of a contact confirmation.
pub const CONFIRM_FIELDS: u64 = 13;
/// Map fields of a recipient-hint message.
pub const HINT_FIELDS: u64 = 11;
/// Largest chat text in bytes.
pub const USER_TEXT_MAX_BYTES: usize = 4096;
/// Largest encoded inner message.
pub const INNER_MESSAGE_MAX_BYTES: usize = 4155;
/// Encoded size of a contact confirmation.
pub const CONTACT_CONFIRM_MAX_BYTES: usize = 161;
/// Encoded size of a recipient-hint message.
pub const HINT_MESSAGE_MAX_BYTES: usize = 79;
/// Lifetime of every service (non-chat) message: seven days.
pub const SERVICE_TTL_SECONDS: u64 = 604800;
/// Hop limit of every service (non-chat) message.
pub const SERVICE_MAX_HOPS: u64 = 2;

/// Model of the Envelope fields repeated inside the inner message.
pub struct CommonView {
    pub message_id: Seq<u8>,
    pub recipient_hint: Seq<u8>,
    pub ttl_seconds: int,
    pub max_hops: int,
}

/// Envelope fields repeated inside the inner message, so that the receiver can
/// check that the outer Envelope was not changed.
#[derive(PartialEq, Eq)]
pub struct CommonFields {
    message_id: [u8; 16],
    recipient_hint: [u8; 16],
    ttl_seconds: u32,
    max_hops: u8,
}

impl View for CommonFields {
    type V = CommonView;

    closed spec fn view(&self) -> CommonView {
        CommonView {
            message_id: self.message_id@,
            recipient_hint: self.recipient_hint@,
            ttl_seconds: self.ttl_seconds as int,
            max_hops: self.max_hops as int,
        }
    }
}

impl Clone for CommonFields {
    fn clone(&self) -> (copy: Self)
        ensures
            copy@ == self@,
    {
        proof {
            use_type_invariant(self);
        }
        CommonFields {
            message_id: self.message_id,
            recipient_hint: self.recipient_hint,
            ttl_seconds: self.ttl_seconds,
            max_hops: self.max_hops,
        }
    }
}

/// Lifetime and hop limit lie in the ranges of protocol version 1.
pub open spec fn common_valid(c: CommonView) -> bool {
    &&& c.message_id.len() == 16
    &&& c.recipient_hint.len() == 16
    &&& ttl_in_range(c.ttl_seconds)
    &&& hops_in_range(c.max_hops)
}

impl CommonFields {
    #[verifier::type_invariant]
    spec fn in_range(self) -> bool {
        common_valid(self@)
    }

    pub(crate) fn establish_valid(&self)
        ensures
            common_valid(self@),
    {
        proof {
            use_type_invariant(self);
        }
    }

    /// Common fields with a lifetime and hop limit that an Envelope accepts.
    pub fn try_new(message_id: [u8; 16], recipient_hint: [u8; 16], ttl_seconds: u64, max_hops: u64) -> (result:
        Result<Self, CryptoError>)
        ensures
            ttl_in_range(ttl_seconds as int) && hops_in_range(max_hops as int) ==> (result matches Ok(
                c,
            ) && c@ == (CommonView {
                message_id: message_id@,
                recipient_hint: recipient_hint@,
                ttl_seconds: ttl_seconds as int,
                max_hops: max_hops as int,
            })),
            !(ttl_in_range(ttl_seconds as int) && hops_in_range(max_hops as int)) ==> result
                == Err::<CommonFields, CryptoError>(CryptoError::InvalidValue),
    {
        if ttl_seconds < 60 || ttl_seconds > 604800 || max_hops < 1 || max_hops > 16 {
            return Err(CryptoError::InvalidValue);
        }
        Ok(
            CommonFields {
                message_id,
                recipient_hint,
                ttl_seconds: ttl_seconds as u32,
                max_hops: max_hops as u8,
            },
        )
    }

    /// The common fields of an Envelope.
    pub fn from_envelope(envelope: &Envelope) -> (common: Self)
        ensures
            common@ == (CommonView {
                message_id: envelope@.message_id,
                recipient_hint: envelope@.recipient_hint,
                ttl_seconds: envelope@.ttl_seconds,
                max_hops: envelope@.max_hops,
            }),
    {
        envelope.establish_valid();
        CommonFields {
            message_id: *envelope.message_id().as_bytes(),
            recipient_hint: *envelope.recipient_hint().as_bytes(),
            ttl_seconds: envelope.ttl_seconds().get(),
            max_hops: envelope.max_hops().get(),
        }
    }

    pub fn message_id(&self) -> (id: &[u8; 16])
        ensures
            id@ == self@.message_id,
    {
        &self.message_id
    }

    pub fn recipient_hint(&self) -> (hint: &[u8; 16])
        ensures
            hint@ == self@.recipient_hint,
    {
        &self.recipient_hint
    }

    pub fn ttl_seconds(&self) -> (ttl: u32)
        ensures
            ttl == self@.ttl_seconds,
    {
        self.ttl_seconds
    }

    pub fn max_hops(&self) -> (hops: u8)
        ensures
            hops == self@.max_hops,
    {
        self.max_hops
    }
}

/// Model of the secrets exchanged in a contact confirmation.
pub struct ConfirmView {
    pub invitation_id: Seq<u8>,
    pub response_id: Seq<u8>,
    pub invitation_secret: Seq<u8>,
    pub response_secret: Seq<u8>,
}

/// Identifiers and secrets confirming one contact exchange.
#[derive(PartialEq, Eq)]
pub struct ConfirmFields {
    invitation_id: [u8; 16],
    response_id: [u8; 16],
    invitation_secret: [u8; 32],
    response_secret: [u8; 32],
}

impl View for ConfirmFields {
    type V = ConfirmView;

    closed spec fn view(&self) -> ConfirmView {
        ConfirmView {
            invitation_id: self.invitation_id@,
            response_id: self.response_id@,
            invitation_secret: self.invitation_secret@,
            response_secret: self.response_secret@,
        }
    }
}

impl Clone for ConfirmFields {
    fn clone(&self) -> (copy: Self)
        ensures
            copy@ == self@,
    {
        ConfirmFields {
            invitation_id: self.invitation_id,
            response_id: self.response_id,
            invitation_secret: self.invitation_secret,
            response_secret: self.response_secret,
        }
    }
}

impl ConfirmFields {
    pub fn new(
        invitation_id: [u8; 16],
        response_id: [u8; 16],
        invitation_secret: [u8; 32],
        response_secret: [u8; 32],
    ) -> (fields: Self)
        ensures
            fields@ == (ConfirmView {
                invitation_id: invitation_id@,
                response_id: response_id@,
                invitation_secret: invitation_secret@,
                response_secret: response_secret@,
            }),
    {
        ConfirmFields { invitation_id, response_id, invitation_secret, response_secret }
    }

    pub fn invitation_id(&self) -> (id: &[u8; 16])
        ensures
            id@ == self@.invitation_id,
    {
        &self.invitation_id
    }

    pub fn response_id(&self) -> (id: &[u8; 16])
        ensures
            id@ == self@.response_id,
    {
        &self.response_id
    }

    pub fn invitation_secret(&self) -> (secret: &[u8; 32])
        ensures
            secret@ == self@.invitation_secret,
    {
        &self.invitation_secret
    }

    pub fn response_secret(&self) -> (secret: &[u8; 32])
        ensures
            secret@ == self@.response_secret,
    {
        &self.response_secret
    }

    /// Readable form that reveals nothing of the fields.
    pub fn redacted_debug(&self) -> (text: &'static str)
        ensures
            text@ == "ConfirmFields([REDACTED])"@,
    {
        "ConfirmFields([REDACTED])"
    }
}

/// Model of a recipient-hint rotation step.
pub struct HintView {
    pub generation: int,
    pub new_recipient_hint: Seq<u8>,
}

/// One step of rotating the recipient hint: a positive generation and the new hint.
#[derive(PartialEq, Eq)]
pub struct HintFields {
    generation: u32,
    new_recipient_hint: [u8; 16],
}

impl View for HintFields {
    type V = HintView;

    closed spec fn view(&self) -> HintView {
        HintView { generation: self.generation as int, new_recipient_hint: self.new_recipient_hint@ }
    }
}

impl Clone for HintFields {
    fn clone(&self) -> (copy: Self)
        ensures
            copy@ == self@,
    {
        proof {
            use_type_invariant(self);
        }
        HintFields { generation: self.generation, new_recipient_hint: self.new_recipient_hint }
    }
}

/// A generation is a positive 32-bit number.
pub open spec fn generation_valid(g: int) -> bool {
    1 <= g <= u32::MAX
}

impl HintFields {
    #[verifier::type_invariant]
    spec fn positive(self) -> bool {
        self.generation >= 1
    }

    pub(crate) fn establish_valid(&self)
        ensures
            generation_valid(self@.generation),
            self@.new_recipient_hint.len() == 16,
    {
        proof {
            use_type_invariant(self);
        }
    }

    pub fn try_new(generation: u64, new_recipient_hint: [u8; 16]) -> (result: Result<Self, CryptoError>)
        ensures
            generation_valid(generation as int) ==> (result matches Ok(h) && h@ == (HintView {
                generation: generation as int,
                new_recipient_hint: new_recipient_hint@,
            })),
            !generation_valid(generation as int) ==> result == Err::<HintFields, CryptoError>(
                CryptoError::InvalidValue,
            ),
    {
        if generation == 0 || generation > 4294967295u64 {
            return Err(CryptoError::InvalidValue);
        }
        Ok(HintFields { generation: generation as u32, new_recipient_hint })
    }

    pub fn generation(&self) -> (generation: u32)
        ensures
            generation == self@.generation,
    {
        self.generation
    }

    pub fn new_recipient_hint(&self) -> (hint: &[u8; 16])
        ensures
            hint@ == self@.new_recipient_hint,
    {
        &self.new_recipient_hint
    }
}

/// Model of the content of an inner message.
pub enum ContentView {
    Chat(Seq<char>),
    InitiatorConfirm(ConfirmView),
    ReceiverConfirm(ConfirmView),
    HintProposal(HintView),
    HintAccepted(HintView),
    HintCommitted(HintView),
    HintFinal(HintView),
}

/// The seven kinds of inner content.
#[derive(PartialEq, Eq)]
pub enum Content {
    ChatMessage(String),
    ContactInitiatorConfirm(ConfirmFields),
    ContactReceiverConfirm(ConfirmFields),
    HintProposal(HintFields),
    HintAccepted(HintFields),
    HintCommitted(HintFields),
    HintFinal(HintFields),
}

impl View for Content {
    type V = ContentView;

    open spec fn view(&self) -> ContentView {
        match self {
            Content::ChatMessage(t) => ContentView::Chat(t@),
            Content::ContactInitiatorConfirm(f) => ContentView::InitiatorConfirm(f@),
            Content::ContactReceiverConfirm(f) => ContentView::ReceiverConfirm(f@),
            Content::HintProposal(h) => ContentView::HintProposal(h@),
            Content::HintAccepted(h) => ContentView::HintAccepted(h@),
            Content::HintCommitted(h) => ContentView::HintCommitted(h@),
            Content::HintFinal(h) => ContentView::HintFinal(h@),
        }
    }
}

impl Clone for Content {
    fn clone(&self) -> (copy: Self)
        ensures
            copy@ == self@,
    {
        match self {
            Content::ChatMessage(t) => Content::ChatMessage(t.clone()),
            Content::ContactInitiatorConfirm(f) => Content::ContactInitiatorConfirm(f.clone()),
            Content::ContactReceiverConfirm(f) => Content::ContactReceiverConfirm(f.clone()),
            Content::HintProposal(h) => Content::HintProposal(h.clone()),
            Content::HintAccepted(h) => Content::HintAccepted(h.clone()),
            Content::HintCommitted(h) => Content::HintCommitted(h.clone()),
            Content::HintFinal(h) => Content::HintFinal(h.clone()),
        }
    }
}

/// A control character: general category Cc, U+0000 to U+001F and U+007F to U+009F.
pub open spec fn is_control(c: char) -> bool {
    (c as u32) <= 0x1f || (0x7f <= (c as u32) && (c as u32) <= 0x9f)
}

/// A chat text is non-empty, at most 4096 bytes of UTF-8, and free of control characters.
pub open spec fn chat_text_ok(t: Seq<char>) -> bool {
    &&& t.len() > 0
    &&& encode_utf8(t).len() <= USER_TEXT_MAX_BYTES
    &&& forall|i: int| 0 <= i < t.len() ==> !is_control(#[trigger] t[i])
}

/// Type number of a content kind.
pub open spec fn content_type_of(c: ContentView) -> u64 {
    match c {
        ContentView::Chat(_) => 0,
        ContentView::InitiatorConfirm(_) => 1,
        ContentView::ReceiverConfirm(_) => 2,
        ContentView::HintProposal(_) => 3,
        ContentView::HintAccepted(_) => 4,
        ContentView::HintCommitted(_) => 5,
        ContentView::HintFinal(_) => 6,
    }
}

pub(crate) fn has_control_char(text: &str) -> (found: bool)
    ensures
        found == exists|i: int| 0 <= i < text@.len() && is_control(#[trigger] text@[i]),
{
    let mut found = false;
    for c in it: text.chars()
        invariant
            found == exists|i: int| 0 <= i < it.index() && is_control(#[trigger] it.seq()[i]),
    {
        let v = c as u32;
        if v <= 0x1f || (v >= 0x7f && v <= 0x9f) {
            found = true;
        }
    }
    found
}

impl Content {
    /// A chat message, when the text is acceptable.
    pub fn chat(text: String) -> (result: Result<Self, CryptoError>)
        ensures
            chat_text_ok(text@) ==> (result matches Ok(c) && c@ == ContentView::Chat(text@)),
            !chat_text_ok(text@) ==> result == Err::<Content, CryptoError>(CryptoError::InvalidValue),
    {
        if text.as_str().is_empty() || text.as_str().as_bytes().len() > USER_TEXT_MAX_BYTES || has_control_char(
            text.as_str(),
        ) {
            return Err(CryptoError::InvalidValue);
        }
        Ok(Content::ChatMessage(text))
    }

    /// The fields of a contact confirmation and whether it is the
    /// initiator's; `None` for the other kinds.
    pub fn confirmation(&self) -> (found: Option<(bool, &ConfirmFields)>)
        ensures
            match self@ {
                ContentView::InitiatorConfirm(c) => found matches Some((true, f)) && f@ == c,
                ContentView::ReceiverConfirm(c) => found matches Some((false, f)) && f@ == c,
                _ => found is None,
            },
    {
        match self {
            Content::ContactInitiatorConfirm(f) => Some((true, f)),
            Content::ContactReceiverConfirm(f) => Some((false, f)),
            _ => None,
        }
    }

    pub fn content_type(&self) -> (t: u8)
        ensures
            t == content_type_of(self@),
            (t == 0) <==> self@ is Chat,
            (t == 1) <==> self@ is InitiatorConfirm,
            (t == 2) <==> self@ is ReceiverConfirm,
            (t == 3) <==> self@ is HintProposal,
            (t == 4) <==> self@ is HintAccepted,
            (t == 5) <==> self@ is HintCommitted,
            (t == 6) <==> self@ is HintFinal,
    {
        proof {
            law_content_types(self@);
        }
        match self {
            Content::ChatMessage(_) => 0,
            Content::ContactInitiatorConfirm(_) => 1,
            Content::ContactReceiverConfirm(_) => 2,
            Content::HintProposal(_) => 3,
            Content::HintAccepted(_) => 4,
            Content::HintCommitted(_) => 5,
            Content::HintFinal(_) => 6,
        }
    }

    pub fn text(&self) -> (text: Option<&str>)
        ensures
            match self@ {
                ContentView::Chat(t) => text matches Some(s) && s@ == t,
                _ => text is None,
            },
    {
        match self {
            Content::ChatMessage(t) => Some(t.as_str()),
            _ => None,
        }
    }
}

/// Model of an inner message.
pub struct InnerView {
    pub common: CommonView,
    pub content: ContentView,
}

/// Service messages live seven days with two hops, and a final hint step
/// announces the hint the message was sent to.
pub open spec fn inner_rules(common: CommonView, content: ContentView) -> bool {
    &&& !(content is Chat) ==> common.ttl_seconds == SERVICE_TTL_SECONDS && common.max_hops
        == SERVICE_MAX_HOPS
    &&& content matches ContentView::HintFinal(h) ==> h.new_recipient_hint == common.recipient_hint
}

/// One complete inner message.
#[derive(PartialEq, Eq)]
pub struct InnerMessage {
    common: CommonFields,
    content: Content,
}

impl View for InnerMessage {
    type V = InnerView;

    closed spec fn view(&self) -> InnerView {
        InnerView { common: self.common@, content: self.content@ }
    }
}

impl Clone for InnerMessage {
    fn clone(&self) -> (copy: Self)
        ensures
            copy@ == self@,
    {
        InnerMessage { common: self.common.clone(), content: self.content.clone() }
    }
}

impl InnerMessage {
    pub fn try_new(common: CommonFields, content: Content) -> (result: Result<Self, CryptoError>)
        ensures
            inner_rules(common@, content@) ==> (result matches Ok(m) && m@ == (InnerView {
                common: common@,
                content: content@,
            })),
            !inner_rules(common@, content@) ==> result == Err::<InnerMessage, CryptoError>(
                CryptoError::InvalidValue,
            ),
    {
        let service = match &content {
            Content::ChatMessage(_) => false,
            _ => true,
        };
        if service && (common.ttl_seconds != 604800 || common.max_hops != 2) {
            return Err(CryptoError::InvalidValue);
        }
        let final_mismatch = match &content {
            Content::HintFinal(fields) => !crate::envelope::bytes16_equal(
                &fields.new_recipient_hint,
                &common.recipient_hint,
            ),
            _ => false,
        };
        if final_mismatch {
            return Err(CryptoError::InvalidValue);
        }
        Ok(InnerMessage { common, content })
    }

    pub fn common(&self) -> (common: &CommonFields)
        ensures
            common@ == self@.common,
    {
        &self.common
    }

    pub fn content(&self) -> (content: &Content)
        ensures
            content@ == self@.content,
    {
        &self.content
    }

    /// Only an initiator confirmation travels in a pre-key message; every other
    /// kind travels in a normal message.
    pub fn validate_olm_type(&self, message_type: OlmMessageType) -> (result: Result<(), CryptoError>)
        ensures
            (self@.content is InitiatorConfirm) == (message_type == OlmMessageType::PreKey)
                ==> result is Ok,
            (self@.content is InitiatorConfirm) != (message_type == OlmMessageType::PreKey)
                ==> result == Err::<(), CryptoError>(CryptoError::UnsupportedType),
    {
        match (&self.content, message_type) {
            (Content::ContactInitiatorConfirm(_), OlmMessageType::PreKey) => Ok(()),
            (Content::ContactInitiatorConfirm(_), OlmMessageType::Normal) => Err(
                CryptoError::UnsupportedType,
            ),
            (_, OlmMessageType::PreKey) => Err(CryptoError::UnsupportedType),
            (_, OlmMessageType::Normal) => Ok(()),
        }
    }

    /// The protected copies of the Envelope fields equal the Envelope's own.
    pub fn matches_envelope(&self, envelope: &Envelope) -> (same: bool)
        ensures
            same == (self@.common == (CommonView {
                message_id: envelope@.message_id,
                recipient_hint: envelope@.recipient_hint,
                ttl_seconds: envelope@.ttl_seconds,
                max_hops: envelope@.max_hops,
            })),
    {
        envelope.establish_valid();
        let id = envelope.message_id();
        let hint = envelope.recipient_hint();
        let same_id = crate::envelope::bytes16_equal(&self.common.message_id, id.as_bytes());
        let same_hint = crate::envelope::bytes16_equal(&self.common.recipient_hint, hint.as_bytes());
        let r = same_id && same_hint && self.common.ttl_seconds == envelope.ttl_seconds().get()
            && self.common.max_hops == envelope.max_hops().get() && envelope.protocol_version() == 1
            && envelope.priority().as_raw() == 0;
        proof {
            if r {
                assert(self@.common.message_id =~= envelope@.message_id);
            }
        }
        r
    }
}

/// An unsigned integer item.
pub open spec fn u_item(n: u64) -> Seq<u8> {
    head(0, n)
}

/// A byte string item.
pub open spec fn b_item(b: Seq<u8>) -> Seq<u8> {
    head(2, b.len() as u64) + b
}

/// A text string item holding the UTF-8 encoding of `t`.
pub open spec fn t_item(t: Seq<char>) -> Seq<u8> {
    head(3, encode_utf8(t).len() as u64) + encode_utf8(t)
}

/// Number of map fields of a content kind.
pub open spec fn field_count(c: ContentView) -> u64 {
    match c {
        ContentView::Chat(_) => CHAT_FIELDS,
        ContentView::InitiatorConfirm(_) => CONFIRM_FIELDS,
        ContentView::ReceiverConfirm(_) => CONFIRM_FIELDS,
        _ => HINT_FIELDS,
    }
}

/// Keys 0 to 8: format versions, content type, and the common Envelope fields.
pub open spec fn common_bytes(m: InnerView) -> Seq<u8> {
    u_item(0) + u_item(INNER_VERSION) + u_item(1) + u_item(content_type_of(m.content)) + u_item(2)
        + u_item(PROTECTED_PAYLOAD_VERSION) + u_item(3) + u_item(1) + u_item(4) + b_item(
        m.common.message_id,
    ) + u_item(5) + b_item(m.common.recipient_hint) + u_item(6) + u_item(
        m.common.ttl_seconds as u64,
    ) + u_item(7) + u_item(m.common.max_hops as u64) + u_item(8) + u_item(0)
}

/// Keys from 9 on: the content.
pub open spec fn content_bytes(c: ContentView) -> Seq<u8> {
    match c {
        ContentView::Chat(t) => u_item(9) + t_item(t),
        ContentView::InitiatorConfirm(f) => confirm_bytes(f),
        ContentView::ReceiverConfirm(f) => confirm_bytes(f),
        ContentView::HintProposal(h) => hint_bytes(h),
        ContentView::HintAccepted(h) => hint_bytes(h),
        ContentView::HintCommitted(h) => hint_bytes(h),
        ContentView::HintFinal(h) => hint_bytes(h),
    }
}

pub open spec fn confirm_bytes(f: ConfirmView) -> Seq<u8> {
    u_item(9) + b_item(f.invitation_id) + u_item(10) + b_item(f.response_id) + u_item(11) + b_item(
        f.invitation_secret,
    ) + u_item(12) + b_item(f.response_secret)
}

pub open spec fn hint_bytes(h: HintView) -> Seq<u8> {
    u_item(9) + u_item(h.generation as u64) + u_item(10) + b_item(h.new_recipient_hint)
}

/// The deterministic CBOR form of an inner message: a map with keys in
/// ascending order, shortest heads, definite lengths.
pub open spec fn inner_bytes(m: InnerView) -> Seq<u8> {
    head(5, field_count(m.content)) + common_bytes(m) + content_bytes(m.content)
}

/// The encoding, refused when longer than the inner message limit.
pub open spec fn spec_encode_inner(m: InnerView) -> Result<Seq<u8>, CryptoError> {
    if inner_bytes(m).len() > INNER_MESSAGE_MAX_BYTES {
        Err(CryptoError::InputTooLarge)
    } else {
        Ok(inner_bytes(m))
    }
}

fn push_bytes_item(out: &mut Vec<u8>, bytes: &[u8])
    ensures
        final(out)@ == old(out)@ + b_item(bytes@),
{
    push_head(out, 2, bytes.len() as u64);
    push_all(out, bytes);
    assert(final(out)@ =~= old(out)@ + b_item(bytes@));
}

#[verifier::rlimit(60)]
pub fn encode_inner_message(message: &InnerMessage) -> (result: Result<Vec<u8>, CryptoError>)
    ensures
        match spec_encode_inner(message@) {
            Ok(b) => result matches Ok(v) && v@ == b,
            Err(e) => result == Err::<Vec<u8>, CryptoError>(e),
        },
{
    let fields: u64 = match &message.content {
        Content::ChatMessage(_) => CHAT_FIELDS,
        Content::ContactInitiatorConfirm(_) => CONFIRM_FIELDS,
        Content::ContactReceiverConfirm(_) => CONFIRM_FIELDS,
        _ => HINT_FIELDS,
    };
    let ghost m = message@;
    let mut out: Vec<u8> = Vec::new();
    push_head(&mut out, 5, fields);
    push_head(&mut out, 0, 0);
    push_head(&mut out, 0, INNER_VERSION);
    push_head(&mut out, 0, 1);
    push_head(&mut out, 0, message.content.content_type() as u64);
    push_head(&mut out, 0, 2);
    push_head(&mut out, 0, PROTECTED_PAYLOAD_VERSION);
    push_head(&mut out, 0, 3);
    push_head(&mut out, 0, 1);
    push_head(&mut out, 0, 4);
    push_bytes_item(&mut out, &message.common.message_id);
    push_head(&mut out, 0, 5);
    push_bytes_item(&mut out, &message.common.recipient_hint);
    push_head(&mut out, 0, 6);
    push_head(&mut out, 0, message.common.ttl_seconds as u64);
    push_head(&mut out, 0, 7);
    push_head(&mut out, 0, message.common.max_hops as u64);
    push_head(&mut out, 0, 8);
    push_head(&mut out, 0, 0);
    let ghost before_content = out@;
    proof {
        assert(before_content =~= head(5, field_count(m.content)) + common_bytes(m));
    }
    match &message.content {
        Content::ChatMessage(text) => {
            push_head(&mut out, 0, 9);
            let bytes = text.as_str().as_bytes();
            push_head(&mut out, 3, bytes.len() as u64);
            push_all(&mut out, bytes);
            proof {
                assert(out@ =~= before_content + (u_item(9) + t_item(text@)));
            }
        },
        Content::ContactInitiatorConfirm(f) | Content::ContactReceiverConfirm(f) => {
            push_head(&mut out, 0, 9);
            push_bytes_item(&mut out, &f.invitation_id);
            push_head(&mut out, 0, 10);
            push_bytes_item(&mut out, &f.response_id);
            push_head(&mut out, 0, 11);
            push_bytes_item(&mut out, &f.invitation_secret);
            push_head(&mut out, 0, 12);
            push_bytes_item(&mut out, &f.response_secret);
            proof {
                assert(out@ =~= before_content + confirm_bytes(f@));
            }
        },
        Content::HintProposal(h) | Content::HintAccepted(h) | Content::HintCommitted(h)
        | Content::HintFinal(h) => {
            push_head(&mut out, 0, 9);
            push_head(&mut out, 0, h.generation as u64);
            push_head(&mut out, 0, 10);
            push_bytes_item(&mut out, &h.new_recipient_hint);
            proof {
                assert(out@ =~= before_content + hint_bytes(h@));
            }
        },
    }
    proof {
        assert(out@ =~= inner_bytes(m));
    }
    if out.len() > INNER_MESSAGE_MAX_BYTES {
        return Err(CryptoError::InputTooLarge);
    }
    Ok(out)
}

/// A definite text string of well-formed UTF-8 at `pos`: its bytes and the position after it.
pub open spec fn r_text(s: Seq<u8>, pos: int) -> Result<(Seq<u8>, int), CryptoError> {
    match read_head(s, pos) {
        Some((m, n, end)) => if m != 3 || end + n > s.len() || !valid_utf8(s.subrange(end, end + n)) {
            Err(CryptoError::Malformed)
        } else {
            Ok((s.subrange(end, end + n), end + n))
        },
        None => Err(CryptoError::Malformed),
    }
}

/// Number of map fields that a content type number announces.
pub open spec fn expected_fields(ct: u64) -> u64 {
    if ct == 0 {
        CHAT_FIELDS
    } else if ct == 1 || ct == 2 {
        CONFIRM_FIELDS
    } else {
        HINT_FIELDS
    }
}

/// The map header and keys 0 and 1: the content type and the position after it.
#[verifier::opaque]
pub open spec fn decode_prefix(s: Seq<u8>) -> Result<(u64, int), CryptoError> {
    match read_head(s, 0) {
        None => Err(CryptoError::Malformed),
        Some((m, fields, p0)) => if m != 5 {
            Err(CryptoError::Malformed)
        } else {
            match r_key(s, p0, 0) {
                Err(e) => Err(e),
                Ok(p1) => match r_uint(s, p1) {
                    Err(e) => Err(e),
                    Ok((version, p2)) => if version != INNER_VERSION {
                        Err(CryptoError::UnsupportedVersion)
                    } else {
                        match r_key(s, p2, 1) {
                            Err(e) => Err(e),
                            Ok(p3) => match r_uint(s, p3) {
                                Err(e) => Err(e),
                                Ok((ct, p4)) => if ct > 6 {
                                    Err(CryptoError::UnsupportedType)
                                } else if fields != expected_fields(ct) {
                                    Err(CryptoError::Malformed)
                                } else {
                                    Ok((ct, p4))
                                },
                            },
                        }
                    },
                },
            }
        },
    }
}

/// Keys 2 and 3: the payload and protocol versions, both 1.
#[verifier::opaque]
pub open spec fn decode_versions(s: Seq<u8>, p: int) -> Result<int, CryptoError> {
    match r_key(s, p, 2) {
        Err(e) => Err(e),
        Ok(p1) => match r_uint(s, p1) {
            Err(e) => Err(e),
            Ok((v, p2)) => if v != PROTECTED_PAYLOAD_VERSION {
                Err(CryptoError::UnsupportedVersion)
            } else {
                match r_key(s, p2, 3) {
                    Err(e) => Err(e),
                    Ok(p3) => match r_uint(s, p3) {
                        Err(e) => Err(e),
                        Ok((w, p4)) => if w != 1 {
                            Err(CryptoError::UnsupportedVersion)
                        } else {
                            Ok(p4)
                        },
                    },
                }
            },
        },
    }
}

/// Keys 4 to 8: the common Envelope fields and the priority, which must be 0.
#[verifier::opaque]
pub open spec fn decode_common(s: Seq<u8>, p: int) -> Result<(CommonView, int), CryptoError> {
    match r_key(s, p, 4) {
        Err(e) => Err(e),
        Ok(p1) => match r_fixed(s, p1, 16) {
            Err(e) => Err(e),
            Ok((id, p2)) => match r_key(s, p2, 5) {
                Err(e) => Err(e),
                Ok(p3) => match r_fixed(s, p3, 16) {
                    Err(e) => Err(e),
                    Ok((hint, p4)) => match r_key(s, p4, 6) {
                        Err(e) => Err(e),
                        Ok(p5) => match r_uint(s, p5) {
                            Err(e) => Err(e),
                            Ok((ttl, p6)) => match r_key(s, p6, 7) {
                                Err(e) => Err(e),
                                Ok(p7) => match r_uint(s, p7) {
                                    Err(e) => Err(e),
                                    Ok((hops, p8)) => match r_key(s, p8, 8) {
                                        Err(e) => Err(e),
                                        Ok(p9) => match r_uint(s, p9) {
                                            Err(e) => Err(e),
                                            Ok((priority, p10)) => if priority != 0 {
                                                Err(CryptoError::InvalidValue)
                                            } else if !(ttl_in_range(ttl as int) && hops_in_range(
                                                hops as int,
                                            )) {
                                                Err(CryptoError::InvalidValue)
                                            } else {
                                                Ok(
                                                    (
                                                        CommonView {
                                                            message_id: id,
                                                            recipient_hint: hint,
                                                            ttl_seconds: ttl as int,
                                                            max_hops: hops as int,
                                                        },
                                                        p10,
                                                    ),
                                                )
                                            },
                                        },
                                    },
                                },
                            },
                        },
                    },
                },
            },
        },
    }
}

/// Keys 9 to 12 of a contact confirmation.
#[verifier::opaque]
pub open spec fn decode_confirm(s: Seq<u8>, p: int) -> Result<(ConfirmView, int), CryptoError> {
    match r_key(s, p, 9) {
        Err(e) => Err(e),
        Ok(p1) => match r_fixed(s, p1, 16) {
            Err(e) => Err(e),
            Ok((a, p2)) => match r_key(s, p2, 10) {
                Err(e) => Err(e),
                Ok(p3) => match r_fixed(s, p3, 16) {
                    Err(e) => Err(e),
                    Ok((b, p4)) => match r_key(s, p4, 11) {
                        Err(e) => Err(e),
                        Ok(p5) => match r_fixed(s, p5, 32) {
                            Err(e) => Err(e),
                            Ok((c, p6)) => match r_key(s, p6, 12) {
                                Err(e) => Err(e),
                                Ok(p7) => match r_fixed(s, p7, 32) {
                                    Err(e) => Err(e),
                                    Ok((d, p8)) => Ok(
                                        (
                                            ConfirmView {
                                                invitation_id: a,
                                                response_id: b,
                                                invitation_secret: c,
                                                response_secret: d,
                                            },
                                            p8,
                                        ),
                                    ),
                                },
                            },
                        },
                    },
                },
            },
        },
    }
}

/// Keys 9 and 10 of a recipient-hint message.
#[verifier::opaque]
pub open spec fn decode_hint(s: Seq<u8>, p: int) -> Result<(HintView, int), CryptoError> {
    match r_key(s, p, 9) {
        Err(e) => Err(e),
        Ok(p1) => match r_uint(s, p1) {
            Err(e) => Err(e),
            Ok((g, p2)) => match r_key(s, p2, 10) {
                Err(e) => Err(e),
                Ok(p3) => match r_fixed(s, p3, 16) {
                    Err(e) => Err(e),
                    Ok((h, p4)) => if !generation_valid(g as int) {
                        Err(CryptoError::InvalidValue)
                    } else {
                        Ok((HintView { generation: g as int, new_recipient_hint: h }, p4))
                    },
                },
            },
        },
    }
}

/// Keys from 9 on, by content type.
#[verifier::opaque]
pub open spec fn decode_content(s: Seq<u8>, ct: u64, p: int) -> Result<(ContentView, int), CryptoError> {
    if ct == 0 {
        match r_key(s, p, 9) {
            Err(e) => Err(e),
            Ok(p1) => match r_text(s, p1) {
                Err(e) => Err(e),
                Ok((b, p2)) => if !chat_text_ok(decode_utf8(b)) {
                    Err(CryptoError::InvalidValue)
                } else {
                    Ok((ContentView::Chat(decode_utf8(b)), p2))
                },
            },
        }
    } else if ct == 1 || ct == 2 {
        match decode_confirm(s, p) {
            Err(e) => Err(e),
            Ok((f, q)) => Ok(
                (
                    if ct == 1 {
                        ContentView::InitiatorConfirm(f)
                    } else {
                        ContentView::ReceiverConfirm(f)
                    },
                    q,
                ),
            ),
        }
    } else {
        match decode_hint(s, p) {
            Err(e) => Err(e),
            Ok((h, q)) => Ok(
                (
                    if ct == 3 {
                        ContentView::HintProposal(h)
                    } else if ct == 4 {
                        ContentView::HintAccepted(h)
                    } else if ct == 5 {
                        ContentView::HintCommitted(h)
                    } else {
                        ContentView::HintFinal(h)
                    },
                    q,
                ),
            ),
        }
    }
}

/// The outcome of decoding an inner message: empty and oversized input
/// first, then each field in key order, then trailing bytes, then the
/// message rules, and last the requirement that the input is the message's
/// own deterministic encoding.
#[verifier::opaque]
pub open spec fn spec_decode_inner(s: Seq<u8>) -> Result<InnerView, CryptoError> {
    if s.len() == 0 {
        Err(CryptoError::EmptyInput)
    } else if s.len() > INNER_MESSAGE_MAX_BYTES {
        Err(CryptoError::InputTooLarge)
    } else {
        match decode_prefix(s) {
            Err(e) => Err(e),
            Ok((ct, p)) => match decode_versions(s, p) {
                Err(e) => Err(e),
                Ok(p1) => match decode_common(s, p1) {
                    Err(e) => Err(e),
                    Ok((common, q)) => match decode_content(s, ct, q) {
                        Err(e) => Err(e),
                        Ok((content, r)) => if r != s.len() {
                            Err(CryptoError::Malformed)
                        } else if !inner_rules(common, content) {
                            Err(CryptoError::InvalidValue)
                        } else {
                            match spec_encode_inner(InnerView { common, content }) {
                                Err(e) => Err(e),
                                Ok(b) => if b != s {
                                    Err(CryptoError::NonCanonical)
                                } else {
                                    Ok(InnerView { common, content })
                                },
                            }
                        },
                    },
                },
            },
        }
    }
}

/// Wraps `std::str::from_utf8`: the bytes are accepted as text exactly when
/// they are well-formed UTF-8, and the text is then their decoded characters.
#[verifier::external_body]
pub(crate) fn text_from_utf8(bytes: &[u8]) -> (result: Option<String>)
    ensures
        match result {
            Some(t) => valid_utf8(bytes@) && t@ == decode_utf8(bytes@),
            None => !valid_utf8(bytes@),
        },
{
    match std::str::from_utf8(bytes) {
        Ok(text) => Some(text.to_owned()),
        Err(_) => None,
    }
}

fn read_text(input: &[u8], pos: usize) -> (result: Result<(String, usize), CryptoError>)
    ensures
        match r_text(input@, pos as int) {
            Ok((b, end)) => result matches Ok((t, stop)) && stop == end && t@ == decode_utf8(b),
            Err(e) => result == Err::<(String, usize), CryptoError>(e),
        },
{
    match read_head_at(input, pos) {
        Some((m, n, end)) => {
            if m != 3 || n > (input.len() - end) as u64 {
                return Err(CryptoError::Malformed);
            }
            let stop = end + n as usize;
            let bytes = copy_range(input, end, stop);
            match text_from_utf8(bytes.as_slice()) {
                Some(t) => Ok((t, stop)),
                None => Err(CryptoError::Malformed),
            }
        },
        None => Err(CryptoError::Malformed),
    }
}

fn decode_prefix_at(input: &[u8]) -> (result: Result<(u64, usize), CryptoError>)
    ensures
        match decode_prefix(input@) {
            Ok((ct, p)) => result == Ok::<(u64, usize), CryptoError>((ct, p as usize)) && 0 <= p
                <= input.len() && ct <= 6,
            Err(e) => result == Err::<(u64, usize), CryptoError>(e),
        },
{
    proof {
        reveal(decode_prefix);
    }
    let (m, fields, p0) = match read_head_at(input, 0) {
        Some(h) => h,
        None => {
            return Err(CryptoError::Malformed);
        },
    };
    if m != 5 {
        return Err(CryptoError::Malformed);
    }
    let p1 = match read_key(input, p0, 0) {
        Ok(v) => v,
        Err(e) => {
            return Err(e);
        },
    };
    let (version, p2) = match read_uint(input, p1) {
        Ok(v) => v,
        Err(e) => {
            return Err(e);
        },
    };
    if version != INNER_VERSION {
        return Err(CryptoError::UnsupportedVersion);
    }
    let p3 = match read_key(input, p2, 1) {
        Ok(v) => v,
        Err(e) => {
            return Err(e);
        },
    };
    let (ct, p4) = match read_uint(input, p3) {
        Ok(v) => v,
        Err(e) => {
            return Err(e);
        },
    };
    if ct > 6 {
        return Err(CryptoError::UnsupportedType);
    }
    let expected = if ct == 0 {
        CHAT_FIELDS
    } else if ct == 1 || ct == 2 {
        CONFIRM_FIELDS
    } else {
        HINT_FIELDS
    };
    if fields != expected {
        return Err(CryptoError::Malformed);
    }
    Ok((ct, p4))
}

fn decode_versions_at(input: &[u8], p: usize) -> (result: Result<usize, CryptoError>)
    ensures
        match decode_versions(input@, p as int) {
            Ok(q) => result == Ok::<usize, CryptoError>(q as usize) && p <= q <= input.len(),
            Err(e) => result == Err::<usize, CryptoError>(e),
        },
{
    proof {
        reveal(decode_versions);
    }
    let p1 = match read_key(input, p, 2) {
        Ok(v) => v,
        Err(e) => {
            return Err(e);
        },
    };
    let (v, p2) = match read_uint(input, p1) {
        Ok(v) => v,
        Err(e) => {
            return Err(e);
        },
    };
    if v != PROTECTED_PAYLOAD_VERSION {
        return Err(CryptoError::UnsupportedVersion);
    }
    let p3 = match read_key(input, p2, 3) {
        Ok(v) => v,
        Err(e) => {
            return Err(e);
        },
    };
    let (w, p4) = match read_uint(input, p3) {
        Ok(v) => v,
        Err(e) => {
            return Err(e);
        },
    };
    if w != 1 {
        return Err(CryptoError::UnsupportedVersion);
    }
    Ok(p4)
}

fn decode_common_at(input: &[u8], p: usize) -> (result: Result<(CommonFields, usize), CryptoError>)
    ensures
        match decode_common(input@, p as int) {
            Ok((c, q)) => result matches Ok((f, r)) && f@ == c && r == q && p <= q <= input.len(),
            Err(e) => result matches Err(x) && x == e,
        },
{
    proof {
        reveal(decode_common);
    }
    let p1 = match read_key(input, p, 4) {
        Ok(v) => v,
        Err(e) => {
            return Err(e);
        },
    };
    let (s1, p2) = match read_fixed(input, p1, 16) {
        Ok(v) => v,
        Err(e) => {
            return Err(e);
        },
    };
    let id = array16(input, s1);
    let p3 = match read_key(input, p2, 5) {
        Ok(v) => v,
        Err(e) => {
            return Err(e);
        },
    };
    let (s2, p4) = match read_fixed(input, p3, 16) {
        Ok(v) => v,
        Err(e) => {
            return Err(e);
        },
    };
    let hint = array16(input, s2);
    let p5 = match read_key(input, p4, 6) {
        Ok(v) => v,
        Err(e) => {
            return Err(e);
        },
    };
    let (ttl, p6) = match read_uint(input, p5) {
        Ok(v) => v,
        Err(e) => {
            return Err(e);
        },
    };
    let p7 = match read_key(input, p6, 7) {
        Ok(v) => v,
        Err(e) => {
            return Err(e);
        },
    };
    let (hops, p8) = match read_uint(input, p7) {
        Ok(v) => v,
        Err(e) => {
            return Err(e);
        },
    };
    let p9 = match read_key(input, p8, 8) {
        Ok(v) => v,
        Err(e) => {
            return Err(e);
        },
    };
    let (priority, p10) = match read_uint(input, p9) {
        Ok(v) => v,
        Err(e) => {
            return Err(e);
        },
    };
    if priority != 0 {
        return Err(CryptoError::InvalidValue);
    }
    let common = match CommonFields::try_new(id, hint, ttl, hops) {
        Ok(v) => v,
        Err(e) => {
            return Err(e);
        },
    };
    Ok((common, p10))
}

fn decode_confirm_at(input: &[u8], p: usize) -> (result: Result<(ConfirmFields, usize), CryptoError>)
    ensures
        match decode_confirm(input@, p as int) {
            Ok((c, q)) => result matches Ok((f, r)) && f@ == c && r == q && p <= q <= input.len(),
            Err(e) => result matches Err(x) && x == e,
        },
{
    proof {
        reveal(decode_confirm);
    }
    let p1 = match read_key(input, p, 9) {
        Ok(v) => v,
        Err(e) => {
            return Err(e);
        },
    };
    let (s1, p2) = match read_fixed(input, p1, 16) {
        Ok(v) => v,
        Err(e) => {
            return Err(e);
        },
    };
    let a = array16(input, s1);
    let p3 = match read_key(input, p2, 10) {
        Ok(v) => v,
        Err(e) => {
            return Err(e);
        },
    };
    let (s2, p4) = match read_fixed(input, p3, 16) {
        Ok(v) => v,
        Err(e) => {
            return Err(e);
        },
    };
    let b = array16(input, s2);
    let p5 = match read_key(input, p4, 11) {
        Ok(v) => v,
        Err(e) => {
            return Err(e);
        },
    };
    let (s3, p6) = match read_fixed(input, p5, 32) {
        Ok(v) => v,
        Err(e) => {
            return Err(e);
        },
    };
    let c = array32(input, s3);
    let p7 = match read_key(input, p6, 12) {
        Ok(v) => v,
        Err(e) => {
            return Err(e);
        },
    };
    let (s4, p8) = match read_fixed(input, p7, 32) {
        Ok(v) => v,
        Err(e) => {
            return Err(e);
        },
    };
    let d = array32(input, s4);
    Ok((ConfirmFields::new(a, b, c, d), p8))
}

fn decode_hint_at(input: &[u8], p: usize) -> (result: Result<(HintFields, usize), CryptoError>)
    ensures
        match decode_hint(input@, p as int) {
            Ok((h, q)) => result matches Ok((f, r)) && f@ == h && r == q && p <= q <= input.len(),
            Err(e) => result matches Err(x) && x == e,
        },
{
    proof {
        reveal(decode_hint);
    }
    let p1 = match read_key(input, p, 9) {
        Ok(v) => v,
        Err(e) => {
            return Err(e);
        },
    };
    let (g, p2) = match read_uint(input, p1) {
        Ok(v) => v,
        Err(e) => {
            return Err(e);
        },
    };
    let p3 = match read_key(input, p2, 10) {
        Ok(v) => v,
        Err(e) => {
            return Err(e);
        },
    };
    let (s1, p4) = match read_fixed(input, p3, 16) {
        Ok(v) => v,
        Err(e) => {
            return Err(e);
        },
    };
    let h = array16(input, s1);
    let fields = match HintFields::try_new(g, h) {
        Ok(v) => v,
        Err(e) => {
            return Err(e);
        },
    };
    Ok((fields, p4))
}

fn decode_content_at(input: &[u8], ct: u64, p: usize) -> (result: Result<(Content, usize), CryptoError>)
    requires
        ct <= 6,
    ensures
        match decode_content(input@, ct, p as int) {
            Ok((c, q)) => result matches Ok((f, r)) && f@ == c && r == q && p <= q <= input.len(),
            Err(e) => result matches Err(x) && x == e,
        },
{
    proof {
        reveal(decode_content);
    }
    if ct == 0 {
        let p1 = match read_key(input, p, 9) {
            Ok(v) => v,
            Err(e) => {
                return Err(e);
            },
        };
        let (text, p2) = match read_text(input, p1) {
            Ok(v) => v,
            Err(e) => {
                return Err(e);
            },
        };
        let content = match Content::chat(text) {
            Ok(v) => v,
            Err(e) => {
                return Err(e);
            },
        };
        Ok((content, p2))
    } else if ct == 1 || ct == 2 {
        let (f, q) = match decode_confirm_at(input, p) {
            Ok(v) => v,
            Err(e) => {
                return Err(e);
            },
        };
        if ct == 1 {
            Ok((Content::ContactInitiatorConfirm(f), q))
        } else {
            Ok((Content::ContactReceiverConfirm(f), q))
        }
    } else {
        let (h, q) = match decode_hint_at(input, p) {
            Ok(v) => v,
            Err(e) => {
                return Err(e);
            },
        };
        if ct == 3 {
            Ok((Content::HintProposal(h), q))
        } else if ct == 4 {
            Ok((Content::HintAccepted(h), q))
        } else if ct == 5 {
            Ok((Content::HintCommitted(h), q))
        } else {
            Ok((Content::HintFinal(h), q))
        }
    }
}

/// Decodes one inner message as `spec_decode_inner` describes.
pub fn decode_inner_message(input: &[u8]) -> (result: Result<InnerMessage, CryptoError>)
    ensures
        match spec_decode_inner(input@) {
            Ok(m) => result matches Ok(d) && d@ == m,
            Err(e) => result matches Err(x) && x == e,
        },
{
    proof {
        reveal(spec_decode_inner);
    }
    if input.len() == 0 {
        return Err(CryptoError::EmptyInput);
    }
    if input.len() > INNER_MESSAGE_MAX_BYTES {
        return Err(CryptoError::InputTooLarge);
    }
    let (ct, p) = match decode_prefix_at(input) {
        Ok(v) => v,
        Err(e) => {
            return Err(e);
        },
    };
    let p1 = match decode_versions_at(input, p) {
        Ok(v) => v,
        Err(e) => {
            return Err(e);
        },
    };
    let (common, q) = match decode_common_at(input, p1) {
        Ok(v) => v,
        Err(e) => {
            return Err(e);
        },
    };
    let (content, r) = match decode_content_at(input, ct, q) {
        Ok(v) => v,
        Err(e) => {
            return Err(e);
        },
    };
    if r != input.len() {
        return Err(CryptoError::Malformed);
    }
    let decoded = match InnerMessage::try_new(common, content) {
        Ok(v) => v,
        Err(e) => {
            return Err(e);
        },
    };
    let encoded = match encode_inner_message(&decoded) {
        Ok(v) => v,
        Err(e) => {
            return Err(e);
        },
    };
    if !slices_equal(encoded.as_slice(), input) {
        return Err(CryptoError::NonCanonical);
    }
    Ok(decoded)
}

/// `x` occurs in `s` at `pos`.
pub open spec fn at(s: Seq<u8>, pos: int, x: Seq<u8>) -> bool {
    0 <= pos && pos + x.len() <= s.len() && s.subrange(pos, pos + x.len()) == x
}

pub proof fn lemma_at_split(s: Seq<u8>, pos: int, x: Seq<u8>, y: Seq<u8>)
    requires
        at(s, pos, x + y),
    ensures
        at(s, pos, x),
        at(s, pos + x.len(), y),
{
    let w = s.subrange(pos, pos + (x + y).len());
    assert(w == x + y);
    assert(s.subrange(pos, pos + x.len()) =~= w.subrange(0, x.len() as int));
    assert(w.subrange(0, x.len() as int) =~= x);
    assert(s.subrange(pos + x.len(), pos + x.len() + y.len()) =~= w.subrange(
        x.len() as int,
        w.len() as int,
    ));
    assert(w.subrange(x.len() as int, w.len() as int) =~= y);
}

pub proof fn lemma_uint_at(s: Seq<u8>, pos: int, n: u64)
    requires
        at(s, pos, u_item(n)),
    ensures
        r_uint(s, pos) == Ok::<(u64, int), CryptoError>((n, pos + u_item(n).len())),
        r_key(s, pos, n) == Ok::<int, CryptoError>(pos + u_item(n).len()),
{
    crate::cbor::lemma_read_canonical_head(s, pos, 0, n);
}

pub proof fn lemma_fixed_at(s: Seq<u8>, pos: int, b: Seq<u8>)
    requires
        b.len() <= u64::MAX,
        at(s, pos, b_item(b)),
    ensures
        r_fixed(s, pos, b.len() as int) == Ok::<(Seq<u8>, int), CryptoError>(
            (b, pos + b_item(b).len()),
        ),
{
    let h = head(2, b.len() as u64);
    lemma_at_split(s, pos, h, b);
    crate::cbor::lemma_read_canonical_head(s, pos, 2, b.len() as u64);
}

proof fn lemma_text_at(s: Seq<u8>, pos: int, t: Seq<char>)
    requires
        encode_utf8(t).len() <= u64::MAX,
        at(s, pos, t_item(t)),
    ensures
        r_text(s, pos) == Ok::<(Seq<u8>, int), CryptoError>(
            (encode_utf8(t), pos + t_item(t).len()),
        ),
        decode_utf8(encode_utf8(t)) == t,
{
    let b = encode_utf8(t);
    let h = head(3, b.len() as u64);
    lemma_at_split(s, pos, h, b);
    crate::cbor::lemma_read_canonical_head(s, pos, 3, b.len() as u64);
    vstd::utf8::encode_utf8_valid_utf8(t);
    vstd::utf8::encode_utf8_decode_utf8(t);
}

/// The fields of an inner message have the lengths and ranges its encoding
/// and the decoder's checks require.
pub open spec fn content_valid(c: ContentView) -> bool {
    match c {
        ContentView::Chat(t) => chat_text_ok(t),
        ContentView::InitiatorConfirm(f) => confirm_valid(f),
        ContentView::ReceiverConfirm(f) => confirm_valid(f),
        ContentView::HintProposal(h) => hint_valid(h),
        ContentView::HintAccepted(h) => hint_valid(h),
        ContentView::HintCommitted(h) => hint_valid(h),
        ContentView::HintFinal(h) => hint_valid(h),
    }
}

pub open spec fn confirm_valid(f: ConfirmView) -> bool {
    &&& f.invitation_id.len() == 16
    &&& f.response_id.len() == 16
    &&& f.invitation_secret.len() == 32
    &&& f.response_secret.len() == 32
}

pub open spec fn hint_valid(h: HintView) -> bool {
    generation_valid(h.generation) && h.new_recipient_hint.len() == 16
}

/// A message that the constructors accept and whose encoding fits the limit.
pub open spec fn inner_valid(m: InnerView) -> bool {
    &&& common_valid(m.common)
    &&& content_valid(m.content)
    &&& inner_rules(m.common, m.content)
    &&& inner_bytes(m).len() <= INNER_MESSAGE_MAX_BYTES
}

proof fn lemma_common_roundtrip(s: Seq<u8>, pos: int, m: InnerView)
    requires
        common_valid(m.common),
        content_type_of(m.content) <= 6,
        at(s, pos, common_bytes(m)),
    ensures
        decode_versions(s, pos + u_item(0).len() + u_item(INNER_VERSION).len() + u_item(1).len()
            + u_item(content_type_of(m.content)).len()) == Ok::<int, CryptoError>(
            pos + u_item(0).len() + u_item(INNER_VERSION).len() + u_item(1).len() + u_item(
                content_type_of(m.content),
            ).len() + u_item(2).len() + u_item(PROTECTED_PAYLOAD_VERSION).len() + u_item(3).len()
                + u_item(1).len(),
        ),
        decode_common(
            s,
            pos + u_item(0).len() + u_item(INNER_VERSION).len() + u_item(1).len() + u_item(
                content_type_of(m.content),
            ).len() + u_item(2).len() + u_item(PROTECTED_PAYLOAD_VERSION).len() + u_item(3).len()
                + u_item(1).len(),
        ) == Ok::<(CommonView, int), CryptoError>((m.common, pos + common_bytes(m).len())),
        r_key(s, pos, 0) == Ok::<int, CryptoError>(pos + u_item(0).len()),
        r_uint(s, pos + u_item(0).len()) == Ok::<(u64, int), CryptoError>(
            (INNER_VERSION, pos + u_item(0).len() + u_item(INNER_VERSION).len()),
        ),
        r_key(s, pos + u_item(0).len() + u_item(INNER_VERSION).len(), 1) == Ok::<int, CryptoError>(
            pos + u_item(0).len() + u_item(INNER_VERSION).len() + u_item(1).len(),
        ),
        r_uint(s, pos + u_item(0).len() + u_item(INNER_VERSION).len() + u_item(1).len()) == Ok::<
            (u64, int),
            CryptoError,
        >(
            (
                content_type_of(m.content),
                pos + u_item(0).len() + u_item(INNER_VERSION).len() + u_item(1).len() + u_item(
                    content_type_of(m.content),
                ).len(),
            ),
        ),
{
    reveal(decode_versions);
    reveal(decode_common);
    let c = m.common;
    let ct = content_type_of(m.content);
    let ttl = c.ttl_seconds as u64;
    let hops = c.max_hops as u64;
    let a1 = u_item(0);
    let a2 = a1 + u_item(INNER_VERSION);
    let a3 = a2 + u_item(1);
    let a4 = a3 + u_item(ct);
    let a5 = a4 + u_item(2);
    let a6 = a5 + u_item(PROTECTED_PAYLOAD_VERSION);
    let a7 = a6 + u_item(3);
    let a8 = a7 + u_item(1);
    let a9 = a8 + u_item(4);
    let a10 = a9 + b_item(c.message_id);
    let a11 = a10 + u_item(5);
    let a12 = a11 + b_item(c.recipient_hint);
    let a13 = a12 + u_item(6);
    let a14 = a13 + u_item(ttl);
    let a15 = a14 + u_item(7);
    let a16 = a15 + u_item(hops);
    let a17 = a16 + u_item(8);
    let a18 = a17 + u_item(0);
    assert(common_bytes(m) == a18);
    lemma_at_split(s, pos, a17, u_item(0));
    lemma_at_split(s, pos, a16, u_item(8));
    lemma_at_split(s, pos, a15, u_item(hops));
    lemma_at_split(s, pos, a14, u_item(7));
    lemma_at_split(s, pos, a13, u_item(ttl));
    lemma_at_split(s, pos, a12, u_item(6));
    lemma_at_split(s, pos, a11, b_item(c.recipient_hint));
    lemma_at_split(s, pos, a10, u_item(5));
    lemma_at_split(s, pos, a9, b_item(c.message_id));
    lemma_at_split(s, pos, a8, u_item(4));
    lemma_at_split(s, pos, a7, u_item(1));
    lemma_at_split(s, pos, a6, u_item(3));
    lemma_at_split(s, pos, a5, u_item(PROTECTED_PAYLOAD_VERSION));
    lemma_at_split(s, pos, a4, u_item(2));
    lemma_at_split(s, pos, a3, u_item(ct));
    lemma_at_split(s, pos, a2, u_item(1));
    lemma_at_split(s, pos, a1, u_item(INNER_VERSION));
    lemma_uint_at(s, pos, 0);
    lemma_uint_at(s, pos + a1.len(), INNER_VERSION);
    lemma_uint_at(s, pos + a2.len(), 1);
    lemma_uint_at(s, pos + a3.len(), ct);
    lemma_uint_at(s, pos + a4.len(), 2);
    lemma_uint_at(s, pos + a5.len(), PROTECTED_PAYLOAD_VERSION);
    lemma_uint_at(s, pos + a6.len(), 3);
    lemma_uint_at(s, pos + a7.len(), 1);
    lemma_uint_at(s, pos + a8.len(), 4);
    lemma_fixed_at(s, pos + a9.len(), c.message_id);
    lemma_uint_at(s, pos + a10.len(), 5);
    lemma_fixed_at(s, pos + a11.len(), c.recipient_hint);
    lemma_uint_at(s, pos + a12.len(), 6);
    lemma_uint_at(s, pos + a13.len(), ttl);
    lemma_uint_at(s, pos + a14.len(), 7);
    lemma_uint_at(s, pos + a15.len(), hops);
    lemma_uint_at(s, pos + a16.len(), 8);
    lemma_uint_at(s, pos + a17.len(), 0);
}

proof fn lemma_content_roundtrip(s: Seq<u8>, pos: int, c: ContentView)
    requires
        content_valid(c),
        at(s, pos, content_bytes(c)),
    ensures
        decode_content(s, content_type_of(c), pos) == Ok::<(ContentView, int), CryptoError>(
            (c, pos + content_bytes(c).len()),
        ),
{
    reveal(decode_content);
    reveal(decode_confirm);
    reveal(decode_hint);
    match c {
        ContentView::Chat(t) => {
            lemma_at_split(s, pos, u_item(9), t_item(t));
            lemma_uint_at(s, pos, 9);
            lemma_text_at(s, pos + u_item(9).len(), t);
        },
        ContentView::InitiatorConfirm(f) => {
            lemma_confirm_roundtrip(s, pos, f);
        },
        ContentView::ReceiverConfirm(f) => {
            lemma_confirm_roundtrip(s, pos, f);
        },
        ContentView::HintProposal(h) => {
            lemma_hint_roundtrip(s, pos, h);
        },
        ContentView::HintAccepted(h) => {
            lemma_hint_roundtrip(s, pos, h);
        },
        ContentView::HintCommitted(h) => {
            lemma_hint_roundtrip(s, pos, h);
        },
        ContentView::HintFinal(h) => {
            lemma_hint_roundtrip(s, pos, h);
        },
    }
}

proof fn lemma_confirm_roundtrip(s: Seq<u8>, pos: int, f: ConfirmView)
    requires
        confirm_valid(f),
        at(s, pos, confirm_bytes(f)),
    ensures
        decode_confirm(s, pos) == Ok::<(ConfirmView, int), CryptoError>(
            (f, pos + confirm_bytes(f).len()),
        ),
{
    reveal(decode_confirm);
    let a1 = u_item(9);
    let a2 = a1 + b_item(f.invitation_id);
    let a3 = a2 + u_item(10);
    let a4 = a3 + b_item(f.response_id);
    let a5 = a4 + u_item(11);
    let a6 = a5 + b_item(f.invitation_secret);
    let a7 = a6 + u_item(12);
    let a8 = a7 + b_item(f.response_secret);
    assert(confirm_bytes(f) == a8);
    lemma_at_split(s, pos, a7, b_item(f.response_secret));
    lemma_at_split(s, pos, a6, u_item(12));
    lemma_at_split(s, pos, a5, b_item(f.invitation_secret));
    lemma_at_split(s, pos, a4, u_item(11));
    lemma_at_split(s, pos, a3, b_item(f.response_id));
    lemma_at_split(s, pos, a2, u_item(10));
    lemma_at_split(s, pos, a1, b_item(f.invitation_id));
    lemma_uint_at(s, pos, 9);
    lemma_fixed_at(s, pos + a1.len(), f.invitation_id);
    lemma_uint_at(s, pos + a2.len(), 10);
    lemma_fixed_at(s, pos + a3.len(), f.response_id);
    lemma_uint_at(s, pos + a4.len(), 11);
    lemma_fixed_at(s, pos + a5.len(), f.invitation_secret);
    lemma_uint_at(s, pos + a6.len(), 12);
    lemma_fixed_at(s, pos + a7.len(), f.response_secret);
}

proof fn lemma_hint_roundtrip(s: Seq<u8>, pos: int, h: HintView)
    requires
        hint_valid(h),
        at(s, pos, hint_bytes(h)),
    ensures
        decode_hint(s, pos) == Ok::<(HintView, int), CryptoError>((h, pos + hint_bytes(h).len())),
{
    reveal(decode_hint);
    let g = h.generation as u64;
    let a1 = u_item(9);
    let a2 = a1 + u_item(g);
    let a3 = a2 + u_item(10);
    let a4 = a3 + b_item(h.new_recipient_hint);
    assert(hint_bytes(h) == a4);
    lemma_at_split(s, pos, a3, b_item(h.new_recipient_hint));
    lemma_at_split(s, pos, a2, u_item(10));
    lemma_at_split(s, pos, a1, u_item(g));
    lemma_uint_at(s, pos, 9);
    lemma_uint_at(s, pos + a1.len(), g);
    lemma_uint_at(s, pos + a2.len(), 10);
    lemma_fixed_at(s, pos + a3.len(), h.new_recipient_hint);
}

/// Decoding the encoding of any valid inner message gives that message back.
#[verifier::rlimit(100)]
pub proof fn law_inner_roundtrip(m: InnerView)
    requires
        inner_valid(m),
    ensures
        spec_decode_inner(inner_bytes(m)) == Ok::<InnerView, CryptoError>(m),
{
    reveal(spec_decode_inner);
    reveal(decode_prefix);
    let s = inner_bytes(m);
    let ct = content_type_of(m.content);
    let h = head(5, field_count(m.content));
    assert(s.subrange(0, s.len() as int) =~= s);
    assert(at(s, 0, s));
    lemma_at_split(s, 0, h + common_bytes(m), content_bytes(m.content));
    lemma_at_split(s, 0, h, common_bytes(m));
    crate::cbor::lemma_read_canonical_head(s, 0, 5, field_count(m.content));
    crate::cbor::lemma_head_shape(5, field_count(m.content));
    lemma_common_roundtrip(s, h.len() as int, m);
    lemma_content_roundtrip(s, (h + common_bytes(m)).len() as int, m.content);
    assert(expected_fields(ct) == field_count(m.content));
}

/// The decoder accepts exactly one representation of each message: any input
/// that decodes is the decoded message's own encoding.
pub proof fn law_inner_canonical(s: Seq<u8>)
    requires
        spec_decode_inner(s) is Ok,
    ensures
        inner_bytes(spec_decode_inner(s)->Ok_0) == s,
{
    reveal(spec_decode_inner);
}

/// The wire number of each content kind: chat 0, initiator confirmation 1,
/// receiver confirmation 2, then the four hint steps 3 to 6 in order; two
/// contents share a number exactly when they are of one kind.
pub proof fn law_content_types(c: ContentView)
    ensures
        (content_type_of(c) == 0) <==> c is Chat,
        (content_type_of(c) == 1) <==> c is InitiatorConfirm,
        (content_type_of(c) == 2) <==> c is ReceiverConfirm,
        (content_type_of(c) == 3) <==> c is HintProposal,
        (content_type_of(c) == 4) <==> c is HintAccepted,
        (content_type_of(c) == 5) <==> c is HintCommitted,
        (content_type_of(c) == 6) <==> c is HintFinal,
        0 <= content_type_of(c) <= 6,
{
}

/// Chat messages may use any lifetime and hop limit the Envelope allows;
/// every service message lives seven days and travels two hops; a final
/// hint step must announce the hint it was sent to. Hint generations are
/// positive 32-bit numbers.
pub proof fn law_inner_rules(common: CommonView, content: ContentView, g: int)
    ensures
        content is Chat ==> inner_rules(common, content),
        !(content is Chat) && !(content is HintFinal) ==> (inner_rules(common, content) <==> (
        common.ttl_seconds == 604800 && common.max_hops == 2)),
        content matches ContentView::HintFinal(h) ==> (inner_rules(common, content) <==> (
        common.ttl_seconds == 604800 && common.max_hops == 2 && h.new_recipient_hint
            == common.recipient_hint)),
        generation_valid(g) <==> 1 <= g <= 4294967295,
{
}

} // verus!
