//! Contact records, pending outbox entries and the discrete token buckets
//! that bound how often a profile may try to decrypt.
use vstd::prelude::*;

use super::SecretStorageError;
use crate::crypto::inner::{chat_text_ok, has_control_char, is_control};
use crate::entropy::fill_random;

verus! {

/// Exact byte length of a contact identifier.
pub const CONTACT_ID_LENGTH: usize = 16;
/// Exact byte length of a message identifier of a pending envelope.
pub const PENDING_MESSAGE_ID_LENGTH: usize = 16;
/// Most contacts one profile may hold.
pub const MAX_CONTACTS: i64 = 128;
/// Most decryption attempts one profile remembers.
pub const MAX_ATTEMPTS: i64 = 2000;
/// Most pending outbox entries one profile may hold.
pub const MAX_OUTBOX: i64 = 1000;
/// Largest serialized envelope a pending outbox entry may hold.
pub const MAX_PENDING_ENVELOPE_BYTES: usize = 65536;
/// Most bytes of a contact's display name.
pub const MAX_DISPLAY_NAME_BYTES: usize = 128;
/// Tokens of the profile-wide bucket.
pub const PROFILE_CAPACITY: i64 = 32;
/// Tokens of each contact's bucket.
pub const CONTACT_CAPACITY: i64 = 8;
/// Tokens of the bucket for messages from contacts not yet confirmed.
pub const PENDING_CAPACITY: i64 = 4;
/// Seconds after which the profile bucket gains a token.
pub const PROFILE_PERIOD_SECONDS: u64 = 10;
/// Seconds after which a contact bucket gains a token.
pub const CONTACT_PERIOD_SECONDS: u64 = 60;
/// Seconds after which the pending bucket gains a token.
pub const PENDING_PERIOD_SECONDS: u64 = 300;

/// Opaque identifier of a contact.
#[derive(Clone, Copy, PartialEq, Eq, Hash)]
pub struct ContactId {
    bytes: [u8; 16],
}

impl View for ContactId {
    type V = Seq<u8>;

    closed spec fn view(&self) -> Seq<u8> {
        self.bytes@
    }
}

impl ContactId {
    /// A fresh identifier from operating-system randomness; `Entropy` when
    /// none can be had.
    pub fn generate() -> (result: Result<Self, SecretStorageError>)
        ensures
            result matches Ok(id) ==> id@.len() == CONTACT_ID_LENGTH,
            result matches Err(e) ==> e == SecretStorageError::Entropy,
    {
        let mut bytes = [0u8; 16];
        if !fill_random(&mut bytes) {
            return Err(SecretStorageError::Entropy);
        }
        Ok(ContactId { bytes })
    }

    pub fn from_bytes(bytes: [u8; 16]) -> (id: Self)
        ensures
            id@ == bytes@,
    {
        ContactId { bytes }
    }

    pub fn as_bytes(&self) -> (bytes: &[u8; 16])
        ensures
            bytes@ == self@,
    {
        &self.bytes
    }

    /// Readable form that reveals nothing of the identifier.
    pub fn redacted_debug(&self) -> (text: &'static str)
        ensures
            text@ == "ContactId([REDACTED])"@,
    {
        "ContactId([REDACTED])"
    }
}

/// A confirmed contact, ready to be stored.
pub struct NewContact {
    pub contact_id: ContactId,
    pub display_name: String,
    pub signing_identity_key: [u8; 32],
    pub curve_identity_key: [u8; 32],
    pub inbound_recipient_hint: [u8; 16],
    pub outbound_recipient_hint: [u8; 16],
}

/// A display name is stored when it is not empty, has at most 128 bytes of
/// UTF-8 and no control character.
pub open spec fn display_name_ok(name: Seq<char>) -> bool {
    &&& name.len() > 0
    &&& vstd::utf8::encode_utf8(name).len() <= MAX_DISPLAY_NAME_BYTES
    &&& !exists|i: int| 0 <= i < name.len() && is_control(#[trigger] name[i])
}

/// A contact is stored when its display name is acceptable and its two
/// recipient hints differ.
pub open spec fn contact_ok(contact: NewContact) -> bool {
    &&& display_name_ok(contact.display_name@)
    &&& contact.inbound_recipient_hint@ != contact.outbound_recipient_hint@
}

/// Checks a contact before it is stored; anything else is `CorruptStorage`.
pub fn validate_contact(contact: &NewContact) -> (result: Result<(), SecretStorageError>)
    ensures
        result is Ok <==> contact_ok(*contact),
        result matches Err(e) ==> e == SecretStorageError::CorruptStorage,
{
    let name = contact.display_name.as_str();
    let length = name.as_bytes().len();
    if name.is_empty() || length > MAX_DISPLAY_NAME_BYTES || has_control_char(name)
        || !hints_differ(&contact.inbound_recipient_hint, &contact.outbound_recipient_hint) {
        return Err(SecretStorageError::CorruptStorage);
    }
    Ok(())
}

fn hints_differ(a: &[u8; 16], b: &[u8; 16]) -> (differ: bool)
    ensures
        differ <==> a@ != b@,
{
    let mut i: usize = 0;
    while i < 16
        invariant
            0 <= i <= 16,
            a@.len() == 16,
            b@.len() == 16,
            forall|j: int| 0 <= j < i ==> a@[j] == b@[j],
        decreases 16 - i,
    {
        if a[i] != b[i] {
            return true;
        }
        i = i + 1;
    }
    assert(a@ =~= b@);
    false
}

/// An envelope waiting in the outbox.
#[derive(Clone)]
pub struct PendingEnvelope {
    message_id: [u8; 16],
    envelope_cbor: Vec<u8>,
}

impl PendingEnvelope {
    /// Id and bytes of the entry.
    pub closed spec fn spec_message_id(&self) -> Seq<u8> {
        self.message_id@
    }

    pub closed spec fn spec_envelope_cbor(&self) -> Seq<u8> {
        self.envelope_cbor@
    }

    /// An entry read back from storage: the envelope must hold 1 to 65536
    /// bytes and the identifier exactly 16; anything else is `CorruptStorage`.
    pub fn from_stored(message_id: Vec<u8>, envelope_cbor: Vec<u8>) -> (result: Result<
        Self,
        SecretStorageError,
    >)
        ensures
            (1 <= envelope_cbor@.len() <= MAX_PENDING_ENVELOPE_BYTES && message_id@.len()
                == PENDING_MESSAGE_ID_LENGTH) ==> (result matches Ok(p) && p.spec_message_id()
                == message_id@ && p.spec_envelope_cbor() == envelope_cbor@),
            !(1 <= envelope_cbor@.len() <= MAX_PENDING_ENVELOPE_BYTES && message_id@.len()
                == PENDING_MESSAGE_ID_LENGTH) ==> result == Err::<Self, SecretStorageError>(
                SecretStorageError::CorruptStorage,
            ),
    {
        if envelope_cbor.len() == 0 || envelope_cbor.len() > MAX_PENDING_ENVELOPE_BYTES
            || message_id.len() != PENDING_MESSAGE_ID_LENGTH {
            return Err(SecretStorageError::CorruptStorage);
        }
        let mut id = [0u8; 16];
        let mut i: usize = 0;
        while i < 16
            invariant
                0 <= i <= 16,
                message_id@.len() == 16,
                id@.len() == 16,
                forall|j: int| 0 <= j < i ==> id@[j] == message_id@[j],
            decreases 16 - i,
        {
            id[i] = message_id[i];
            i = i + 1;
        }
        assert(id@ =~= message_id@);
        Ok(PendingEnvelope { message_id: id, envelope_cbor })
    }

    pub fn message_id(&self) -> (id: &[u8; 16])
        ensures
            id@ == self.spec_message_id(),
    {
        &self.message_id
    }

    pub fn envelope_cbor(&self) -> (bytes: &[u8])
        ensures
            bytes@ == self.spec_envelope_cbor(),
    {
        self.envelope_cbor.as_slice()
    }
}

/// Whole refill periods between an anchor and now, both in milliseconds of a
/// monotonic clock; none when the clock reads earlier than the anchor.
pub open spec fn refill_periods(period_seconds: u64, anchor_ms: u64, now_ms: u64) -> int {
    if now_ms >= anchor_ms {
        ((now_ms - anchor_ms) / 1000) / (period_seconds as int)
    } else {
        0
    }
}

/// Tokens after a refill: one per whole period, added without overflow and
/// capped at the capacity.
pub open spec fn refilled_tokens(tokens: i64, capacity: i64, periods: int) -> int {
    let added = if periods > i64::MAX { i64::MAX as int } else { periods };
    let sum = if tokens + added > i64::MAX { i64::MAX as int } else { tokens + added };
    if sum < capacity { sum } else { capacity as int }
}

/// The anchor after a refill: moved forward by the whole periods that were
/// counted (at most `u32::MAX` of them), so that a partial period carries
/// over; set to now when the clock reads earlier than the anchor.
pub open spec fn refilled_anchor(period_seconds: u64, anchor_ms: u64, now_ms: u64) -> int {
    let periods = refill_periods(period_seconds, anchor_ms, now_ms);
    let steps = if periods > u32::MAX { u32::MAX as int } else { periods };
    if now_ms >= anchor_ms {
        anchor_ms + period_seconds * steps * 1000
    } else {
        now_ms as int
    }
}

proof fn lemma_advance_fits(period_seconds: u64, elapsed_ms: u64, steps: int)
    requires
        period_seconds > 0,
        0 <= steps <= ((elapsed_ms as int) / 1000) / (period_seconds as int),
    ensures
        period_seconds * steps * 1000 <= elapsed_ms,
        steps < ((elapsed_ms as int) / 1000) / (period_seconds as int) + 1,
{
    let secs: int = (elapsed_ms as int) / 1000;
    assert(period_seconds * ((secs) / (period_seconds as int)) <= secs) by (nonlinear_arith)
        requires
            period_seconds > 0,
            secs >= 0,
    ;
    assert(period_seconds * steps <= period_seconds * (secs / (period_seconds as int))) by (
    nonlinear_arith)
        requires
            period_seconds > 0,
            steps <= secs / (period_seconds as int),
    ;
    assert(secs * 1000 <= elapsed_ms) by (nonlinear_arith)
        requires
            secs == (elapsed_ms as int) / 1000,
    ;
    assert(period_seconds * steps * 1000 <= secs * 1000) by (nonlinear_arith)
        requires
            period_seconds * steps <= secs,
            steps >= 0,
    ;
}

proof fn lemma_remainder_below_period(period_seconds: u64, elapsed_ms: u64)
    requires
        period_seconds > 0,
    ensures
        elapsed_ms - period_seconds * (((elapsed_ms as int) / 1000) / (period_seconds as int)) * 1000
            < period_seconds * 1000,
{
    let secs: int = (elapsed_ms as int) / 1000;
    let q: int = secs / (period_seconds as int);
    assert(secs < period_seconds * (q + 1)) by (nonlinear_arith)
        requires
            period_seconds > 0,
            q == secs / (period_seconds as int),
            secs >= 0,
    ;
    assert(elapsed_ms < (secs + 1) * 1000) by (nonlinear_arith)
        requires
            secs == (elapsed_ms as int) / 1000,
    ;
    assert(elapsed_ms < period_seconds * q * 1000 + period_seconds * 1000) by (nonlinear_arith)
        requires
            elapsed_ms < (secs + 1) * 1000,
            secs + 1 <= period_seconds * (q + 1),
    ;
}

/// Discrete refill of a token bucket: one token per whole period since the
/// anchor, never above the capacity, and the anchor moves by whole periods
/// only, so the remainder of a partial period is kept. Times are
/// milliseconds of a monotonic clock.
pub fn refill(tokens: i64, capacity: i64, period_seconds: u64, anchor_ms: u64, now_ms: u64) -> (result: (
    i64,
    u64,
))
    requires
        period_seconds > 0,
    ensures
        result.0 == refilled_tokens(tokens, capacity, refill_periods(period_seconds, anchor_ms, now_ms)),
        result.1 == refilled_anchor(period_seconds, anchor_ms, now_ms),
        result.0 <= capacity,
        result.1 <= now_ms,
        refill_periods(period_seconds, anchor_ms, now_ms) <= u32::MAX ==> now_ms - result.1
            < period_seconds * 1000,
{
    let elapsed_ms: u64 = if now_ms >= anchor_ms { now_ms - anchor_ms } else { 0 };
    let periods: u64 = elapsed_ms / 1000 / period_seconds;
    let added: i64 = if periods > 9223372036854775807u64 { i64::MAX } else { periods as i64 };
    let sum: i64 = if tokens > i64::MAX - added { i64::MAX } else { tokens + added };
    let new_tokens: i64 = if sum < capacity { sum } else { capacity };
    let steps: u64 = if periods > 4294967295u64 { 4294967295u64 } else { periods };
    proof {
        lemma_advance_fits(period_seconds, elapsed_ms, steps as int);
        lemma_remainder_below_period(period_seconds, elapsed_ms);
    }
    let advance: u64 = period_seconds * steps * 1000;
    let moved: u64 = if now_ms >= anchor_ms { anchor_ms + advance } else { now_ms };
    (new_tokens, moved)
}

/// Takes one token from each of two buckets when both hold one; `None`, with
/// both left as they are, when either is empty.
pub fn take_tokens(first: i64, second: i64) -> (result: Option<(i64, i64)>)
    requires
        first >= 0,
        second >= 0,
    ensures
        (first > 0 && second > 0) ==> result == Some(((first - 1) as i64, (second - 1) as i64)),
        !(first > 0 && second > 0) ==> result is None,
{
    if first == 0 || second == 0 {
        None
    } else {
        Some((first - 1, second - 1))
    }
}

/// What one decided contact attempt writes back: the refilled token counts
/// and anchors, and whether the attempt is admitted (then both counts are
/// one lower and the attempt is recorded) or rate limited (then the
/// refilled counts and anchors are kept and `RateLimited` is answered).
pub struct AttemptUpdate {
    pub profile_tokens: i64,
    pub contact_tokens: i64,
    pub profile_anchor_ms: u64,
    pub contact_anchor_ms: u64,
    pub admitted: bool,
}

/// Decides one attempt towards an established contact, in the order of the
/// store's checks: a message already processed is `AttemptAlreadyProcessed`;
/// a full attempt table is `QuotaExceeded`; a contact that is unknown or not
/// established (`contact_tokens` is `None`) is `UnknownContact`. Otherwise
/// the profile bucket (32 tokens, one per 10 s) and the contact bucket (8
/// tokens, one per 60 s) are refilled at `now_ms`, and the attempt is
/// admitted exactly when both then hold a token. Token counts are those the
/// store's schema allows.
pub fn decide_contact_attempt(
    already_processed: bool,
    attempts: i64,
    profile_tokens: i64,
    contact_tokens: Option<i64>,
    profile_anchor_ms: u64,
    contact_anchor_ms: u64,
    now_ms: u64,
) -> (result: Result<AttemptUpdate, SecretStorageError>)
    requires
        0 <= profile_tokens <= PROFILE_CAPACITY,
        contact_tokens matches Some(t) ==> 0 <= t <= CONTACT_CAPACITY,
    ensures
        already_processed ==> result == Err::<AttemptUpdate, SecretStorageError>(
            SecretStorageError::AttemptAlreadyProcessed,
        ),
        !already_processed && attempts >= MAX_ATTEMPTS ==> result == Err::<
            AttemptUpdate,
            SecretStorageError,
        >(SecretStorageError::QuotaExceeded),
        !already_processed && attempts < MAX_ATTEMPTS && contact_tokens is None ==> result
            == Err::<AttemptUpdate, SecretStorageError>(SecretStorageError::UnknownContact),
        contact_tokens matches Some(t) ==> (!already_processed && attempts < MAX_ATTEMPTS ==> {
            let p = refilled_tokens(
                profile_tokens,
                PROFILE_CAPACITY,
                refill_periods(PROFILE_PERIOD_SECONDS, profile_anchor_ms, now_ms),
            );
            let c = refilled_tokens(
                t,
                CONTACT_CAPACITY,
                refill_periods(CONTACT_PERIOD_SECONDS, contact_anchor_ms, now_ms),
            );
            &&& result matches Ok(u)
            &&& u.admitted == (p > 0 && c > 0)
            &&& u.profile_tokens == (if u.admitted { p - 1 } else { p })
            &&& u.contact_tokens == (if u.admitted { c - 1 } else { c })
            &&& u.profile_anchor_ms == refilled_anchor(PROFILE_PERIOD_SECONDS, profile_anchor_ms, now_ms)
            &&& u.contact_anchor_ms == refilled_anchor(CONTACT_PERIOD_SECONDS, contact_anchor_ms, now_ms)
        }),
{
    if already_processed {
        return Err(SecretStorageError::AttemptAlreadyProcessed);
    }
    if attempts >= MAX_ATTEMPTS {
        return Err(SecretStorageError::QuotaExceeded);
    }
    let stored_contact = match contact_tokens {
        Some(t) => t,
        None => {
            return Err(SecretStorageError::UnknownContact);
        },
    };
    let (p, profile_anchor) = refill(
        profile_tokens,
        PROFILE_CAPACITY,
        PROFILE_PERIOD_SECONDS,
        profile_anchor_ms,
        now_ms,
    );
    let (c, contact_anchor) = refill(
        stored_contact,
        CONTACT_CAPACITY,
        CONTACT_PERIOD_SECONDS,
        contact_anchor_ms,
        now_ms,
    );
    if p <= 0 || c <= 0 {
        return Ok(
            AttemptUpdate {
                profile_tokens: p,
                contact_tokens: c,
                profile_anchor_ms: profile_anchor,
                contact_anchor_ms: contact_anchor,
                admitted: false,
            },
        );
    }
    Ok(
        AttemptUpdate {
            profile_tokens: p - 1,
            contact_tokens: c - 1,
            profile_anchor_ms: profile_anchor,
            contact_anchor_ms: contact_anchor,
            admitted: true,
        },
    )
}

/// Token buckets refill one token per whole period and never lose tokens:
/// no whole period since the anchor adds nothing, each whole period adds one
/// token up to the capacity, a bucket within its capacity never shrinks,
/// and the anchor moves by whole periods only, never past now.
pub proof fn law_refill(tokens: i64, capacity: i64, period_seconds: u64, anchor_ms: u64, now_ms: u64, k: nat)
    requires
        period_seconds > 0,
        0 <= tokens <= capacity,
    ensures
        now_ms < anchor_ms + period_seconds * 1000 ==> refill_periods(period_seconds, anchor_ms, now_ms)
            == 0 && refilled_tokens(tokens, capacity, 0) == tokens,
        tokens <= refilled_tokens(tokens, capacity, refill_periods(period_seconds, anchor_ms, now_ms))
            <= capacity,
        k <= u32::MAX && anchor_ms + period_seconds * k * 1000 <= now_ms < anchor_ms + period_seconds
            * (k + 1) * 1000 ==> refill_periods(period_seconds, anchor_ms, now_ms) == k
            && refilled_anchor(period_seconds, anchor_ms, now_ms) == anchor_ms + period_seconds * k
            * 1000,
        k <= capacity - tokens ==> refilled_tokens(tokens, capacity, k as int) == tokens + k,
        k >= capacity - tokens ==> refilled_tokens(tokens, capacity, k as int) == capacity,
        refilled_anchor(period_seconds, anchor_ms, now_ms) <= now_ms,
{
    let p = period_seconds as int;
    let a = anchor_ms as int;
    let n = now_ms as int;
    if n >= a {
        let e = n - a;
        let q = (e / 1000) / p;
        assert(q >= 0) by (nonlinear_arith)
            requires
                e >= 0,
                p > 0,
                q == (e / 1000) / p,
        ;
        if n < a + p * 1000 {
            assert(q == 0) by (nonlinear_arith)
                requires
                    0 <= e < p * 1000,
                    p > 0,
                    q == (e / 1000) / p,
            ;
        }
        if k <= u32::MAX && a + p * k * 1000 <= n < a + p * (k + 1) * 1000 {
            assert(q == k) by (nonlinear_arith)
                requires
                    p * k * 1000 <= e < p * (k + 1) * 1000,
                    p > 0,
                    k >= 0,
                    q == (e / 1000) / p,
            ;
        }
        let steps = if q > u32::MAX { u32::MAX as int } else { q };
        assert(p * steps * 1000 <= e) by (nonlinear_arith)
            requires
                0 <= steps <= q,
                q == (e / 1000) / p,
                p > 0,
                e >= 0,
        ;
    }
}

/// Control characters are the C0 controls, DEL and the C1 controls;
/// printable ASCII never is one.
pub proof fn law_control_chars(c: char)
    ensures
        (c as u32) < 0x20 ==> is_control(c),
        (c as u32) == 0x7f ==> is_control(c),
        0x80 <= (c as u32) <= 0x9f ==> is_control(c),
        0x20 <= (c as u32) < 0x7f ==> !is_control(c),
        0xa0 <= (c as u32) ==> !is_control(c),
{
}

/// Printable ASCII: space to tilde.
pub open spec fn printable_ascii(t: Seq<char>) -> bool {
    forall|i: int| 0 <= i < t.len() ==> ' ' <= #[trigger] t[i] <= '~'
}

/// What names and chat texts may hold: never nothing, never a control
/// character anywhere, and any printable ASCII text that fits is accepted
/// (up to 128 characters as a name, up to 4096 as a chat text); a printable
/// ASCII name longer than 128 characters is refused.
pub proof fn law_text_rules(t: Seq<char>, c: char)
    ensures
        !display_name_ok(Seq::<char>::empty()),
        !chat_text_ok(Seq::<char>::empty()),
        is_control(c) ==> !display_name_ok(t.push(c)) && !chat_text_ok(t.push(c)),
        0 < t.len() <= 128 && printable_ascii(t) ==> display_name_ok(t),
        0 < t.len() <= 4096 && printable_ascii(t) ==> chat_text_ok(t),
        t.len() > 128 && printable_ascii(t) ==> !display_name_ok(t),
{
    let u = t.push(c);
    if is_control(c) {
        assert(u[t.len() as int] == c);
    }
    if printable_ascii(t) {
        assert forall|i: int| 0 <= i < t.len() implies '\0' <= #[trigger] t[i] <= '\u{7f}' by {}
        assert(vstd::utf8::is_ascii_chars(t));
        vstd::utf8::is_ascii_chars_encode_utf8(t);
        assert forall|i: int| 0 <= i < t.len() implies !is_control(#[trigger] t[i]) by {}
    }
}

} // verus!
