use vstd::prelude::*;

pub mod error;
pub mod cbor;
pub mod codec;
pub mod envelope;
pub mod route;
pub mod id_order;
pub mod queue;
pub mod queue_laws;
pub mod diagnostics;
pub mod crypto;
pub mod lan;
pub mod entropy;
pub mod secret_storage;
pub mod node;
pub mod sync_offer;
pub mod bridge;
pub mod cli;

pub use codec::{decode_envelope, encode_envelope, encoded_envelope_size, CborError, CborField};
pub use error::{CoreError, Field};
pub use route::{ContainerState, LocalRouteRecord};
pub use queue::{
    DeduplicationStatus, EnqueueOutcome, EnqueueResult, QueueEffects, QueueEntry, QueueError,
    QueueField, QueueLimits, TombstoneEntry,
};
pub use envelope::{Envelope, EnvelopeView, MaxHops, MessageId, Priority, ProtectedPayload, RecipientHint, TtlSeconds};

verus! {

/// Only protocol version accepted by the v0.1 domain model.
pub const PROTOCOL_VERSION: u64 = 1;
/// Exact byte length of a message identifier.
pub const MESSAGE_ID_LENGTH: usize = 16;
/// Exact byte length of an opaque recipient hint.
pub const RECIPIENT_HINT_LENGTH: usize = 16;
/// Minimum lifetime accepted for an Envelope.
pub const MIN_TTL_SECONDS: u64 = 60;
/// Maximum lifetime accepted for an Envelope: seven days.
pub const MAX_TTL_SECONDS: u64 = 604800;
/// Minimum hop limit accepted for an Envelope.
pub const MIN_MAX_HOPS: u64 = 1;
/// Maximum hop limit accepted for an Envelope.
pub const MAX_MAX_HOPS: u64 = 16;
/// Only priority supported by protocol version 1.
pub const NORMAL_PRIORITY: u64 = 0;
/// Smallest useful opaque protected payload.
pub const MIN_PROTECTED_PAYLOAD_SIZE: usize = 1;
/// Largest protected payload allowed by the logical v0.1 schema.
pub const MAX_PROTECTED_PAYLOAD_SIZE: usize = 64512;
/// Largest serialized Envelope accepted by the decoder.
pub const MAX_ENVELOPE_SIZE: usize = 65536;
/// Largest number of active entries one queue may be configured to hold.
pub const MAX_QUEUE_ENTRIES: usize = 4096;
/// Largest total encoded size of active entries one queue may be configured to hold.
pub const MAX_QUEUE_BYTES: usize = 67108864;
/// Largest number of tombstones one queue may be configured to hold.
pub const MAX_TOMBSTONES: usize = 16384;
/// Longest time a tombstone may be configured to block its identifier: seven days.
pub const MAX_TOMBSTONE_RETENTION_SECONDS: u64 = 604800;
/// Initial Binary Spray-and-Wait copy budget.
pub const INITIAL_COPY_BUDGET: u8 = 32;

} // verus!
