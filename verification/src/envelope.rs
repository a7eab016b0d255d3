use vstd::prelude::*;

use crate::error::{CoreError, Field};
use crate::{
    MAX_MAX_HOPS, MAX_PROTECTED_PAYLOAD_SIZE, MAX_TTL_SECONDS, MIN_MAX_HOPS,
    MIN_PROTECTED_PAYLOAD_SIZE, MIN_TTL_SECONDS, NORMAL_PRIORITY, PROTOCOL_VERSION,
};

verus! {

/// A random fixed-size identifier supplied by the cryptographic boundary.
#[derive(Clone, Copy, PartialEq, Eq, Hash, PartialOrd, Ord)]
pub struct MessageId([u8; 16]);

impl View for MessageId {
    type V = Seq<u8>;

    closed spec fn view(&self) -> Seq<u8> {
        self.0@
    }
}

/// Every message identifier holds exactly sixteen bytes.
pub broadcast proof fn lemma_message_id_len(id: MessageId)
    ensures
        #[trigger] id@.len() == 16,
{
}

impl MessageId {
    pub fn from_bytes(bytes: [u8; 16]) -> (id: Self)
        ensures
            id@ == bytes@,
    {
        MessageId(bytes)
    }

    pub fn as_bytes(&self) -> (bytes: &[u8; 16])
        ensures
            bytes@ == self@,
    {
        &self.0
    }

    /// Byte-wise equality of two identifiers.
    pub fn same_as(&self, other: &MessageId) -> (same: bool)
        ensures
            same == (self@ == other@),
    {
        bytes16_equal(&self.0, &other.0)
    }

    /// Strict lexicographic order of two identifiers.
    pub fn precedes(&self, other: &MessageId) -> (less: bool)
        ensures
            less == seq_lex_lt(self@, other@),
    {
        bytes16_less(&self.0, &other.0)
    }

    /// Readable form that reveals only the identifier length.
    pub fn redacted_debug(&self) -> (text: &'static str)
        ensures
            text@ == "MessageId { length: 16, .. }"@,
    {
        "MessageId { length: 16, .. }"
    }
}

/// Strict lexicographic order on byte sequences of one length: at the first
/// differing position the left byte is smaller.
pub open spec fn seq_lex_lt(a: Seq<u8>, b: Seq<u8>) -> bool {
    exists|k: int|
        0 <= k < a.len() && k < b.len() && a.take(k) == b.take(k) && #[trigger] a[k] < b[k]
}

/// Lexicographic order is irreflexive.
pub proof fn lemma_lex_irreflexive(a: Seq<u8>)
    ensures
        !seq_lex_lt(a, a),
{
}

/// Lexicographic order is transitive.
pub proof fn lemma_lex_transitive(a: Seq<u8>, b: Seq<u8>, c: Seq<u8>)
    requires
        seq_lex_lt(a, b),
        seq_lex_lt(b, c),
    ensures
        seq_lex_lt(a, c),
{
    let i = choose|k: int|
        0 <= k < a.len() && k < b.len() && a.take(k) == b.take(k) && #[trigger] a[k] < b[k];
    let j = choose|k: int|
        0 <= k < b.len() && k < c.len() && b.take(k) == c.take(k) && #[trigger] b[k] < c[k];
    if i < j {
        assert(a.take(i) =~= c.take(i)) by {
            assert forall|t: int| 0 <= t < i implies a[t] == c[t] by {
                assert(a.take(i)[t] == b.take(i)[t]);
                assert(b.take(j)[t] == c.take(j)[t]);
            }
        }
        assert(b.take(j)[i] == c.take(j)[i]);
        assert(a[i] < c[i]);
    } else if j < i {
        assert(a.take(j) =~= c.take(j)) by {
            assert forall|t: int| 0 <= t < j implies a[t] == c[t] by {
                assert(a.take(i)[t] == b.take(i)[t]);
                assert(b.take(j)[t] == c.take(j)[t]);
            }
        }
        assert(a.take(i)[j] == b.take(i)[j]);
        assert(a[j] < c[j]);
    } else {
        assert(a.take(i) =~= c.take(i)) by {
            assert forall|t: int| 0 <= t < i implies a[t] == c[t] by {
                assert(a.take(i)[t] == b.take(i)[t]);
                assert(b.take(j)[t] == c.take(j)[t]);
            }
        }
        assert(a[i] < c[i]);
    }
}

/// Two distinct byte sequences of one length are ordered one way or the other.
pub proof fn lemma_lex_total(a: Seq<u8>, b: Seq<u8>)
    requires
        a.len() == b.len(),
        a != b,
    ensures
        seq_lex_lt(a, b) || seq_lex_lt(b, a),
{
    if forall|k: int| 0 <= k < a.len() ==> a[k] == b[k] {
        assert(a =~= b);
    }
    let k0 = choose|k: int| 0 <= k < a.len() && a[k] != b[k];
    lemma_first_difference(a, b, k0);
}

proof fn lemma_first_difference(a: Seq<u8>, b: Seq<u8>, k0: int)
    requires
        a.len() == b.len(),
        0 <= k0 < a.len(),
        a[k0] != b[k0],
    ensures
        seq_lex_lt(a, b) || seq_lex_lt(b, a),
    decreases k0,
{
    if a.take(k0) =~= b.take(k0) {
        if a[k0] < b[k0] {
            assert(seq_lex_lt(a, b));
        } else {
            assert(b.take(k0) =~= a.take(k0));
            assert(seq_lex_lt(b, a));
        }
    } else {
        let k1 = choose|k: int| 0 <= k < k0 && a.take(k0)[k] != b.take(k0)[k];
        lemma_first_difference(a, b, k1);
    }
}

/// Byte-wise equality of two sixteen-byte arrays.
pub fn bytes16_equal(a: &[u8; 16], b: &[u8; 16]) -> (same: bool)
    ensures
        same == (a@ == b@),
{
    let mut i: usize = 0;
    while i < 16
        invariant
            0 <= i <= 16,
            a@.len() == 16,
            b@.len() == 16,
            forall|k: int| 0 <= k < i ==> a@[k] == b@[k],
        decreases 16 - i,
    {
        if a[i] != b[i] {
            return false;
        }
        i = i + 1;
    }
    assert(a@ =~= b@);
    true
}

fn bytes16_less(a: &[u8; 16], b: &[u8; 16]) -> (less: bool)
    ensures
        less == seq_lex_lt(a@, b@),
{
    let mut i: usize = 0;
    while i < 16
        invariant
            0 <= i <= 16,
            a@.len() == 16,
            b@.len() == 16,
            a@.take(i as int) == b@.take(i as int),
        decreases 16 - i,
    {
        if a[i] != b[i] {
            if a[i] < b[i] {
                assert(seq_lex_lt(a@, b@));
                return true;
            } else {
                proof {
                    if seq_lex_lt(a@, b@) {
                        let k = choose|k: int|
                            0 <= k < a@.len() && k < b@.len() && a@.take(k) == b@.take(k)
                                && #[trigger] a@[k] < b@[k];
                        if k < i {
                            assert(a@.take(i as int)[k] == b@.take(i as int)[k]);
                        } else if k > i {
                            assert(a@.take(k)[i as int] == b@.take(k)[i as int]);
                        }
                    }
                }
                return false;
            }
        }
        assert(a@.take(i + 1) =~= b@.take(i + 1)) by {
            assert forall|t: int| 0 <= t < i + 1 implies a@[t] == b@[t] by {
                if t < i {
                    assert(a@.take(i as int)[t] == b@.take(i as int)[t]);
                }
            }
        }
        i = i + 1;
    }
    assert(a@ =~= b@) by {
        assert(a@.take(16) =~= a@);
        assert(b@.take(16) =~= b@);
    }
    proof {
        lemma_lex_irreflexive(a@);
    }
    false
}


/// An opaque fixed-size routing hint created by the E2EE layer.
#[derive(Clone, Copy, PartialEq, Eq, Hash)]
pub struct RecipientHint([u8; 16]);

impl View for RecipientHint {
    type V = Seq<u8>;

    closed spec fn view(&self) -> Seq<u8> {
        self.0@
    }
}

impl RecipientHint {
    pub fn from_bytes(bytes: [u8; 16]) -> (hint: Self)
        ensures
            hint@ == bytes@,
    {
        RecipientHint(bytes)
    }

    pub fn as_bytes(&self) -> (bytes: &[u8; 16])
        ensures
            bytes@ == self@,
    {
        &self.0
    }

    /// Byte-wise equality of two hints.
    pub fn same_as(&self, other: &RecipientHint) -> (same: bool)
        ensures
            same == (self@ == other@),
    {
        bytes16_equal(&self.0, &other.0)
    }
}

/// Lifetimes accepted by protocol version 1.
pub open spec fn ttl_in_range(value: int) -> bool {
    MIN_TTL_SECONDS <= value <= MAX_TTL_SECONDS
}

/// Hop limits accepted by protocol version 1.
pub open spec fn hops_in_range(value: int) -> bool {
    MIN_MAX_HOPS <= value <= MAX_MAX_HOPS
}

/// Payload sizes accepted by protocol version 1.
pub open spec fn payload_size_in_range(size: int) -> bool {
    MIN_PROTECTED_PAYLOAD_SIZE <= size <= MAX_PROTECTED_PAYLOAD_SIZE
}

/// The error a bounded integer check yields for a value outside `[min, max]`.
pub open spec fn range_error(value: int, min: int, max: int, field: Field) -> Result<(), CoreError> {
    if value < min {
        Err(CoreError::ValueBelowMinimum { field })
    } else if value > max {
        Err(CoreError::ValueAboveMaximum { field })
    } else {
        Ok(())
    }
}

/// Validated lifetime requested by the Envelope creator.
#[derive(Clone, Copy, Debug, PartialEq, Eq)]
pub struct TtlSeconds(u32);

impl TtlSeconds {
    #[verifier::type_invariant]
    spec fn bounded(self) -> bool {
        ttl_in_range(self.0 as int)
    }

    pub closed spec fn spec_get(self) -> u32 {
        self.0
    }

    pub fn try_from_raw(value: u64) -> (result: Result<Self, CoreError>)
        ensures
            match range_error(value as int, MIN_TTL_SECONDS as int, MAX_TTL_SECONDS as int, Field::TtlSeconds) {
                Ok(()) => result matches Ok(ttl) && ttl.spec_get() == value,
                Err(e) => result == Err::<Self, CoreError>(e),
            },
    {
        if value < MIN_TTL_SECONDS {
            return Err(CoreError::ValueBelowMinimum { field: Field::TtlSeconds });
        }
        if value > MAX_TTL_SECONDS {
            return Err(CoreError::ValueAboveMaximum { field: Field::TtlSeconds });
        }
        Ok(TtlSeconds(value as u32))
    }

    pub fn get(self) -> (value: u32)
        ensures
            value == self.spec_get(),
            ttl_in_range(value as int),
    {
        proof {
            use_type_invariant(&self);
        }
        self.0
    }
}

/// Validated maximum number of sequential transmissions.
#[derive(Clone, Copy, Debug, PartialEq, Eq)]
pub struct MaxHops(u8);

impl MaxHops {
    #[verifier::type_invariant]
    spec fn bounded(self) -> bool {
        hops_in_range(self.0 as int)
    }

    pub closed spec fn spec_get(self) -> u8 {
        self.0
    }

    pub fn try_from_raw(value: u64) -> (result: Result<Self, CoreError>)
        ensures
            match range_error(value as int, MIN_MAX_HOPS as int, MAX_MAX_HOPS as int, Field::MaxHops) {
                Ok(()) => result matches Ok(hops) && hops.spec_get() == value,
                Err(e) => result == Err::<Self, CoreError>(e),
            },
    {
        if value < MIN_MAX_HOPS {
            return Err(CoreError::ValueBelowMinimum { field: Field::MaxHops });
        }
        if value > MAX_MAX_HOPS {
            return Err(CoreError::ValueAboveMaximum { field: Field::MaxHops });
        }
        Ok(MaxHops(value as u8))
    }

    pub fn get(self) -> (value: u8)
        ensures
            value == self.spec_get(),
            hops_in_range(value as int),
    {
        proof {
            use_type_invariant(&self);
        }
        self.0
    }
}

/// Priority accepted by protocol version 1.
#[derive(Clone, Copy, Debug, PartialEq, Eq, Structural)]
pub enum Priority {
    Normal,
}

impl Priority {
    pub fn try_from_raw(value: u64) -> (result: Result<Self, CoreError>)
        ensures
            value == NORMAL_PRIORITY ==> result == Ok::<Priority, CoreError>(Priority::Normal),
            value != NORMAL_PRIORITY ==> result == Err::<Priority, CoreError>(
                CoreError::UnsupportedValue { field: Field::Priority },
            ),
    {
        if value == NORMAL_PRIORITY {
            Ok(Priority::Normal)
        } else {
            Err(CoreError::UnsupportedValue { field: Field::Priority })
        }
    }

    pub fn as_raw(self) -> (value: u64)
        ensures
            value == NORMAL_PRIORITY,
    {
        match self {
            Priority::Normal => NORMAL_PRIORITY,
        }
    }
}

/// Opaque E2EE output carried by an Envelope.
#[derive(PartialEq, Eq)]
pub struct ProtectedPayload(Vec<u8>);

impl Clone for ProtectedPayload {
    fn clone(&self) -> (copy: Self)
        ensures
            copy@ == self@,
    {
        proof {
            use_type_invariant(self);
        }
        ProtectedPayload(self.0.clone())
    }
}

impl View for ProtectedPayload {
    type V = Seq<u8>;

    closed spec fn view(&self) -> Seq<u8> {
        self.0@
    }
}

impl ProtectedPayload {
    #[verifier::type_invariant]
    spec fn bounded(self) -> bool {
        payload_size_in_range(self.0@.len() as int)
    }

    pub fn try_from_bytes(bytes: Vec<u8>) -> (result: Result<Self, CoreError>)
        ensures
            match range_error(
                bytes@.len() as int,
                MIN_PROTECTED_PAYLOAD_SIZE as int,
                MAX_PROTECTED_PAYLOAD_SIZE as int,
                Field::ProtectedPayload,
            ) {
                Ok(()) => result matches Ok(payload) && payload@ == bytes@,
                Err(e) => result matches Err(r) && r == e,
            },
    {
        if bytes.len() < MIN_PROTECTED_PAYLOAD_SIZE {
            return Err(CoreError::ValueBelowMinimum { field: Field::ProtectedPayload });
        }
        if bytes.len() > MAX_PROTECTED_PAYLOAD_SIZE {
            return Err(CoreError::ValueAboveMaximum { field: Field::ProtectedPayload });
        }
        Ok(ProtectedPayload(bytes))
    }

    pub fn as_bytes(&self) -> (bytes: &[u8])
        ensures
            bytes@ == self@,
            payload_size_in_range(bytes@.len() as int),
    {
        proof {
            use_type_invariant(self);
        }
        self.0.as_slice()
    }

    pub fn len(&self) -> (length: usize)
        ensures
            length == self@.len(),
            payload_size_in_range(length as int),
    {
        proof {
            use_type_invariant(self);
        }
        self.0.len()
    }

    pub fn is_empty(&self) -> (empty: bool)
        ensures
            empty == (self@.len() == 0),
            !empty,
    {
        proof {
            use_type_invariant(self);
        }
        self.0.len() == 0
    }
}

/// Mathematical content of an Envelope. Version 1 fixes the protocol version
/// and the priority, so they are not part of the model.
pub struct EnvelopeView {
    pub message_id: Seq<u8>,
    pub recipient_hint: Seq<u8>,
    pub ttl_seconds: int,
    pub max_hops: int,
    pub payload: Seq<u8>,
}

impl EnvelopeView {
    /// Every field lies in the range that protocol version 1 accepts.
    pub open spec fn valid(self) -> bool {
        &&& self.message_id.len() == 16
        &&& self.recipient_hint.len() == 16
        &&& ttl_in_range(self.ttl_seconds)
        &&& hops_in_range(self.max_hops)
        &&& payload_size_in_range(self.payload.len() as int)
    }
}

/// The outcome of building an Envelope from raw fields, checked in the order
/// protocol version, lifetime, hop limit, priority, payload size.
pub open spec fn envelope_from_fields(
    protocol_version: u64,
    message_id: Seq<u8>,
    recipient_hint: Seq<u8>,
    ttl_seconds: u64,
    max_hops: u64,
    priority: u64,
    payload: Seq<u8>,
) -> Result<EnvelopeView, CoreError> {
    if protocol_version != PROTOCOL_VERSION {
        Err(CoreError::UnsupportedValue { field: Field::ProtocolVersion })
    } else if let Err(e) = range_error(ttl_seconds as int, MIN_TTL_SECONDS as int, MAX_TTL_SECONDS as int, Field::TtlSeconds) {
        Err(e)
    } else if let Err(e) = range_error(max_hops as int, MIN_MAX_HOPS as int, MAX_MAX_HOPS as int, Field::MaxHops) {
        Err(e)
    } else if priority != NORMAL_PRIORITY {
        Err(CoreError::UnsupportedValue { field: Field::Priority })
    } else if let Err(e) = range_error(
        payload.len() as int,
        MIN_PROTECTED_PAYLOAD_SIZE as int,
        MAX_PROTECTED_PAYLOAD_SIZE as int,
        Field::ProtectedPayload,
    ) {
        Err(e)
    } else {
        Ok(
            EnvelopeView {
                message_id,
                recipient_hint,
                ttl_seconds: ttl_seconds as int,
                max_hops: max_hops as int,
                payload,
            },
        )
    }
}

/// An Envelope is built exactly when its version is 1, its priority is
/// normal, its lifetime lies in 60 s ..= 7 days, its hop limit in 1 ..= 16
/// and its payload in 1 ..= 64512 bytes; it then holds the given fields as
/// they are. A value below or above its range is refused as below the
/// minimum or above the maximum of that field.
pub proof fn law_envelope_fields(
    protocol_version: u64,
    message_id: Seq<u8>,
    recipient_hint: Seq<u8>,
    ttl_seconds: u64,
    max_hops: u64,
    priority: u64,
    payload: Seq<u8>,
)
    ensures
        ({
            let r = envelope_from_fields(
                protocol_version,
                message_id,
                recipient_hint,
                ttl_seconds,
                max_hops,
                priority,
                payload,
            );
            &&& r is Ok <==> (protocol_version == 1 && priority == 0 && 60 <= ttl_seconds <= 604800
                && 1 <= max_hops <= 16 && 1 <= payload.len() <= 64512)
            &&& r matches Ok(v) ==> v.message_id == message_id && v.recipient_hint == recipient_hint
                && v.ttl_seconds == ttl_seconds && v.max_hops == max_hops && v.payload == payload
            &&& protocol_version == 1 && ttl_seconds < 60 ==> r == Err::<EnvelopeView, CoreError>(
                CoreError::ValueBelowMinimum { field: Field::TtlSeconds },
            )
            &&& protocol_version == 1 && ttl_seconds > 604800 ==> r == Err::<EnvelopeView, CoreError>(
                CoreError::ValueAboveMaximum { field: Field::TtlSeconds },
            )
            &&& protocol_version != 1 ==> r == Err::<EnvelopeView, CoreError>(
                CoreError::UnsupportedValue { field: Field::ProtocolVersion },
            )
        }),
{
}

/// Immutable logical Envelope version 1.
#[derive(PartialEq, Eq)]
pub struct Envelope {
    protocol_version: u64,
    message_id: MessageId,
    recipient_hint: RecipientHint,
    ttl_seconds: TtlSeconds,
    max_hops: MaxHops,
    priority: Priority,
    protected_payload: ProtectedPayload,
}

impl View for Envelope {
    type V = EnvelopeView;

    closed spec fn view(&self) -> EnvelopeView {
        EnvelopeView {
            message_id: self.message_id@,
            recipient_hint: self.recipient_hint@,
            ttl_seconds: self.ttl_seconds.spec_get() as int,
            max_hops: self.max_hops.spec_get() as int,
            payload: self.protected_payload@,
        }
    }
}

impl Clone for Envelope {
    fn clone(&self) -> (copy: Self)
        ensures
            copy@ == self@,
    {
        proof {
            use_type_invariant(self);
        }
        Envelope {
            protocol_version: self.protocol_version,
            message_id: self.message_id,
            recipient_hint: self.recipient_hint,
            ttl_seconds: self.ttl_seconds,
            max_hops: self.max_hops,
            priority: self.priority,
            protected_payload: self.protected_payload.clone(),
        }
    }
}

impl Envelope {
    #[verifier::type_invariant]
    spec fn version_one(self) -> bool {
        self.protocol_version == PROTOCOL_VERSION
    }

    /// The model of every Envelope value is valid (a check with no run-time work).
    pub(crate) fn establish_valid(&self)
        ensures
            self@.valid(),
    {
        proof {
            use_type_invariant(self);
            use_type_invariant(&self.ttl_seconds);
            use_type_invariant(&self.max_hops);
            use_type_invariant(&self.protected_payload);
        }
    }

    pub fn try_from_fields(
        protocol_version: u64,
        message_id: [u8; 16],
        recipient_hint: [u8; 16],
        ttl_seconds: u64,
        max_hops: u64,
        priority: u64,
        protected_payload: Vec<u8>,
    ) -> (result: Result<Self, CoreError>)
        ensures
            match envelope_from_fields(
                protocol_version,
                message_id@,
                recipient_hint@,
                ttl_seconds,
                max_hops,
                priority,
                protected_payload@,
            ) {
                Ok(v) => result matches Ok(e) && e@ == v,
                Err(err) => result matches Err(r) && r == err,
            },
            result is Ok <==> (protocol_version == 1 && priority == 0 && 60 <= ttl_seconds <= 604800
                && 1 <= max_hops <= 16 && 1 <= protected_payload@.len() <= 64512),
            result matches Ok(e) ==> e@.message_id == message_id@ && e@.recipient_hint
                == recipient_hint@ && e@.ttl_seconds == ttl_seconds && e@.max_hops == max_hops
                && e@.payload == protected_payload@,
    {
        proof {
            law_envelope_fields(
                protocol_version,
                message_id@,
                recipient_hint@,
                ttl_seconds,
                max_hops,
                priority,
                protected_payload@,
            );
        }
        if protocol_version != PROTOCOL_VERSION {
            return Err(CoreError::UnsupportedValue { field: Field::ProtocolVersion });
        }
        let ttl = match TtlSeconds::try_from_raw(ttl_seconds) {
            Ok(ttl) => ttl,
            Err(e) => return Err(e),
        };
        let hops = match MaxHops::try_from_raw(max_hops) {
            Ok(hops) => hops,
            Err(e) => return Err(e),
        };
        let priority = match Priority::try_from_raw(priority) {
            Ok(priority) => priority,
            Err(e) => return Err(e),
        };
        let payload = match ProtectedPayload::try_from_bytes(protected_payload) {
            Ok(payload) => payload,
            Err(e) => return Err(e),
        };
        Ok(
            Envelope {
                protocol_version: PROTOCOL_VERSION,
                message_id: MessageId::from_bytes(message_id),
                recipient_hint: RecipientHint::from_bytes(recipient_hint),
                ttl_seconds: ttl,
                max_hops: hops,
                priority,
                protected_payload: payload,
            },
        )
    }

    pub fn protocol_version(&self) -> (version: u64)
        ensures
            version == PROTOCOL_VERSION,
    {
        proof {
            use_type_invariant(self);
        }
        self.protocol_version
    }

    pub fn message_id(&self) -> (id: MessageId)
        ensures
            id@ == self@.message_id,
    {
        self.message_id
    }

    pub fn recipient_hint(&self) -> (hint: RecipientHint)
        ensures
            hint@ == self@.recipient_hint,
    {
        self.recipient_hint
    }

    pub fn ttl_seconds(&self) -> (ttl: TtlSeconds)
        ensures
            ttl.spec_get() == self@.ttl_seconds,
    {
        self.ttl_seconds
    }

    pub fn max_hops(&self) -> (hops: MaxHops)
        ensures
            hops.spec_get() == self@.max_hops,
    {
        self.max_hops
    }

    pub fn priority(&self) -> (priority: Priority)
        ensures
            priority == Priority::Normal,
    {
        self.priority
    }

    pub fn protected_payload(&self) -> (payload: &ProtectedPayload)
        ensures
            payload@ == self@.payload,
    {
        &self.protected_payload
    }

    /// Readable form that reveals no identifier, hint or payload byte.
    pub fn redacted_debug(&self) -> (text: &'static str)
        ensures
            text@ == "Envelope { message_id: MessageId { length: 16, .. }, recipient_hint: RecipientHint { length: 16, .. }, protected_payload: ProtectedPayload { .. }, .. }"@,
    {
        "Envelope { message_id: MessageId { length: 16, .. }, recipient_hint: RecipientHint { length: 16, .. }, protected_payload: ProtectedPayload { .. }, .. }"
    }
}

/// The protocol's ranges: a lifetime of one minute to seven days, a hop
/// limit of 1 to 16, and a payload of 1 to 64512 bytes.
pub proof fn law_protocol_ranges(v: int)
    ensures
        ttl_in_range(v) <==> 60 <= v <= 604800,
        hops_in_range(v) <==> 1 <= v <= 16,
        payload_size_in_range(v) <==> 1 <= v <= 64512,
        range_error(v, 60, 604800, Field::TtlSeconds) is Ok <==> ttl_in_range(v),
        v < 60 ==> range_error(v, 60, 604800, Field::TtlSeconds) == Err::<(), CoreError>(
            CoreError::ValueBelowMinimum { field: Field::TtlSeconds },
        ),
        v > 604800 ==> range_error(v, 60, 604800, Field::TtlSeconds) == Err::<(), CoreError>(
            CoreError::ValueAboveMaximum { field: Field::TtlSeconds },
        ),
{
}

} // verus!
