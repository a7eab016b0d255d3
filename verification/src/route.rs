use vstd::prelude::*;

use crate::envelope::{Envelope, MessageId};
use crate::error::{CoreError, Field};
use crate::INITIAL_COPY_BUDGET;

verus! {

/// Lifecycle state defined by the v0.1 protocol.
#[derive(Clone, Copy, Debug, PartialEq, Eq, Structural)]
pub enum ContainerState {
    Draft,
    Sealed,
    Stored,
    Opened,
    Expired,
    Evicted,
    Rejected,
}

/// The documented lifecycle: Draft to Sealed, Sealed to Stored, and Stored to
/// one of the three terminal states Opened, Expired or Evicted.
pub open spec fn transition_allowed(from: ContainerState, to: ContainerState) -> bool {
    ||| from == ContainerState::Draft && to == ContainerState::Sealed
    ||| from == ContainerState::Sealed && to == ContainerState::Stored
    ||| from == ContainerState::Stored && (to == ContainerState::Opened || to == ContainerState::Expired
        || to == ContainerState::Evicted)
}

impl ContainerState {
    pub fn can_transition_to(self, next: Self) -> (allowed: bool)
        ensures
            allowed == transition_allowed(self, next),
    {
        match (self, next) {
            (ContainerState::Draft, ContainerState::Sealed) => true,
            (ContainerState::Sealed, ContainerState::Stored) => true,
            (ContainerState::Stored, ContainerState::Opened) => true,
            (ContainerState::Stored, ContainerState::Expired) => true,
            (ContainerState::Stored, ContainerState::Evicted) => true,
            _ => false,
        }
    }
}

/// Model of local routing metadata.
pub struct RouteView {
    pub message_id: Seq<u8>,
    pub first_seen_at: int,
    pub local_deadline: int,
    pub remaining_ttl: int,
    pub hops_taken: int,
    pub copies_left: int,
    pub state: ContainerState,
}

/// A stored route built from already bounded values; the deadline must fit in `u64`.
pub open spec fn bounded_route(
    message_id: Seq<u8>,
    first_seen_at: u64,
    remaining_ttl: int,
    hops_taken: int,
    copies_left: int,
) -> Result<RouteView, CoreError> {
    if first_seen_at + remaining_ttl > u64::MAX {
        Err(CoreError::ArithmeticOverflow { field: Field::LocalDeadline })
    } else {
        Ok(
            RouteView {
                message_id,
                first_seen_at: first_seen_at as int,
                local_deadline: first_seen_at + remaining_ttl,
                remaining_ttl,
                hops_taken,
                copies_left,
                state: ContainerState::Stored,
            },
        )
    }
}

pub open spec fn min_int(a: int, b: int) -> int {
    if a <= b {
        a
    } else {
        b
    }
}

/// A route for an Envelope received from a peer: zero advertised lifetime or
/// copy budget is refused, every other advertised value is capped by the
/// Envelope's own limits and the initial copy budget.
pub open spec fn received_route(
    message_id: Seq<u8>,
    envelope_ttl: int,
    envelope_max_hops: int,
    first_seen_at: u64,
    advertised_remaining_ttl: u64,
    advertised_hops_taken: u64,
    advertised_copies_left: u64,
) -> Result<RouteView, CoreError> {
    if advertised_remaining_ttl == 0 {
        Err(CoreError::ValueBelowMinimum { field: Field::RemainingTtl })
    } else if advertised_copies_left == 0 {
        Err(CoreError::ValueBelowMinimum { field: Field::CopiesLeft })
    } else {
        bounded_route(
            message_id,
            first_seen_at,
            min_int(advertised_remaining_ttl as int, envelope_ttl),
            min_int(advertised_hops_taken as int, envelope_max_hops),
            min_int(advertised_copies_left as int, INITIAL_COPY_BUDGET as int),
        )
    }
}

/// A received route never lives, travels or spreads further than either the
/// peer advertised or the Envelope allows: its remaining lifetime, hops
/// taken and copies left are each at most the advertised value and at most
/// the Envelope's lifetime, hop limit and the initial copy budget, and each
/// is one of the two. Its deadline lies its remaining lifetime after the
/// first sighting. A zero lifetime or copy budget is refused; otherwise the
/// route exists whenever its deadline fits in 64 bits.
pub proof fn law_received_route_caps(
    message_id: Seq<u8>,
    envelope_ttl: int,
    envelope_max_hops: int,
    first_seen_at: u64,
    advertised_remaining_ttl: u64,
    advertised_hops_taken: u64,
    advertised_copies_left: u64,
)
    ensures
        ({
            let r = received_route(
                message_id,
                envelope_ttl,
                envelope_max_hops,
                first_seen_at,
                advertised_remaining_ttl,
                advertised_hops_taken,
                advertised_copies_left,
            );
            &&& advertised_remaining_ttl == 0 ==> r == Err::<RouteView, CoreError>(
                CoreError::ValueBelowMinimum { field: Field::RemainingTtl },
            )
            &&& advertised_remaining_ttl > 0 && advertised_copies_left == 0 ==> r == Err::<
                RouteView,
                CoreError,
            >(CoreError::ValueBelowMinimum { field: Field::CopiesLeft })
            &&& advertised_remaining_ttl > 0 && advertised_copies_left > 0 && (first_seen_at
                + advertised_remaining_ttl <= u64::MAX || first_seen_at + envelope_ttl <= u64::MAX)
                ==> r is Ok
            &&& r matches Ok(v) ==> {
                &&& v.remaining_ttl <= advertised_remaining_ttl
                &&& v.remaining_ttl <= envelope_ttl
                &&& (v.remaining_ttl == advertised_remaining_ttl || v.remaining_ttl == envelope_ttl)
                &&& v.hops_taken <= advertised_hops_taken
                &&& v.hops_taken <= envelope_max_hops
                &&& (v.hops_taken == advertised_hops_taken || v.hops_taken == envelope_max_hops)
                &&& v.copies_left <= advertised_copies_left
                &&& v.copies_left <= INITIAL_COPY_BUDGET
                &&& (v.copies_left == advertised_copies_left || v.copies_left
                    == INITIAL_COPY_BUDGET)
                &&& v.first_seen_at == first_seen_at
                &&& v.local_deadline == first_seen_at + v.remaining_ttl
                &&& v.message_id == message_id
                &&& v.state == ContainerState::Stored
            }
        }),
{
}

/// An originated route has the Envelope's full lifetime, no hop taken and
/// the whole copy budget; its deadline lies the lifetime after creation.
pub proof fn law_origin_route(message_id: Seq<u8>, envelope_ttl: int, first_seen_at: u64)
    ensures
        bounded_route(message_id, first_seen_at, envelope_ttl, 0, INITIAL_COPY_BUDGET as int) matches Ok(
            v,
        ) ==> v.remaining_ttl == envelope_ttl && v.hops_taken == 0 && v.copies_left
            == INITIAL_COPY_BUDGET && v.local_deadline == first_seen_at + envelope_ttl
            && v.first_seen_at == first_seen_at && v.state == ContainerState::Stored,
        first_seen_at + envelope_ttl <= u64::MAX ==> bounded_route(
            message_id,
            first_seen_at,
            envelope_ttl,
            0,
            INITIAL_COPY_BUDGET as int,
        ) is Ok,
{
}

/// A persisted route is restored only when every field is within its bound and
/// the deadline equals the first-seen time plus the remaining lifetime.
pub open spec fn restored_route(
    message_id: Seq<u8>,
    envelope_ttl: int,
    envelope_max_hops: int,
    first_seen_at: u64,
    local_deadline: u64,
    remaining_ttl: u64,
    hops_taken: u64,
    copies_left: u64,
) -> Result<RouteView, CoreError> {
    if remaining_ttl == 0 {
        Err(CoreError::ValueBelowMinimum { field: Field::RemainingTtl })
    } else if remaining_ttl > envelope_ttl {
        Err(CoreError::ValueAboveMaximum { field: Field::RemainingTtl })
    } else if hops_taken > envelope_max_hops {
        Err(CoreError::ValueAboveMaximum { field: Field::HopsTaken })
    } else if copies_left == 0 {
        Err(CoreError::ValueBelowMinimum { field: Field::CopiesLeft })
    } else if copies_left > INITIAL_COPY_BUDGET {
        Err(CoreError::ValueAboveMaximum { field: Field::CopiesLeft })
    } else if first_seen_at + remaining_ttl > u64::MAX {
        Err(CoreError::ArithmeticOverflow { field: Field::LocalDeadline })
    } else if local_deadline != first_seen_at + remaining_ttl {
        Err(CoreError::UnsupportedValue { field: Field::LocalDeadline })
    } else {
        Ok(
            RouteView {
                message_id,
                first_seen_at: first_seen_at as int,
                local_deadline: local_deadline as int,
                remaining_ttl: remaining_ttl as int,
                hops_taken: hops_taken as int,
                copies_left: copies_left as int,
                state: ContainerState::Stored,
            },
        )
    }
}

/// Local routing metadata that is never part of the immutable Envelope.
#[derive(Clone, Copy, PartialEq, Eq)]
pub struct LocalRouteRecord {
    message_id: MessageId,
    first_seen_at: u64,
    local_deadline: u64,
    remaining_ttl: u32,
    hops_taken: u8,
    copies_left: u8,
    state: ContainerState,
}

impl View for LocalRouteRecord {
    type V = RouteView;

    closed spec fn view(&self) -> RouteView {
        RouteView {
            message_id: self.message_id@,
            first_seen_at: self.first_seen_at as int,
            local_deadline: self.local_deadline as int,
            remaining_ttl: self.remaining_ttl as int,
            hops_taken: self.hops_taken as int,
            copies_left: self.copies_left as int,
            state: self.state,
        }
    }
}

impl LocalRouteRecord {
    /// Route of an Envelope created on this node: full lifetime, no hop, full copy budget.
    pub fn for_origin(envelope: &Envelope, first_seen_at: u64) -> (result: Result<Self, CoreError>)
        ensures
            match bounded_route(
                envelope@.message_id,
                first_seen_at,
                envelope@.ttl_seconds,
                0,
                INITIAL_COPY_BUDGET as int,
            ) {
                Ok(v) => result matches Ok(r) && r@ == v,
                Err(e) => result matches Err(r) && r == e,
            },
            result matches Ok(r) ==> r@.remaining_ttl == envelope@.ttl_seconds && r@.hops_taken == 0
                && r@.copies_left == INITIAL_COPY_BUDGET && r@.local_deadline == first_seen_at
                + envelope@.ttl_seconds,
    {
        proof {
            law_origin_route(envelope@.message_id, envelope@.ttl_seconds, first_seen_at);
        }
        let ttl = envelope.ttl_seconds().get();
        Self::from_bounded_values(envelope, first_seen_at, ttl, 0, INITIAL_COPY_BUDGET)
    }

    pub fn from_received(
        envelope: &Envelope,
        first_seen_at: u64,
        advertised_remaining_ttl: u64,
        advertised_hops_taken: u64,
        advertised_copies_left: u64,
    ) -> (result: Result<Self, CoreError>)
        ensures
            match received_route(
                envelope@.message_id,
                envelope@.ttl_seconds,
                envelope@.max_hops,
                first_seen_at,
                advertised_remaining_ttl,
                advertised_hops_taken,
                advertised_copies_left,
            ) {
                Ok(v) => result matches Ok(r) && r@ == v,
                Err(e) => result matches Err(r) && r == e,
            },
            result matches Ok(r) ==> {
                &&& r@.remaining_ttl <= advertised_remaining_ttl
                &&& r@.remaining_ttl <= envelope@.ttl_seconds
                &&& (r@.remaining_ttl == advertised_remaining_ttl || r@.remaining_ttl
                    == envelope@.ttl_seconds)
                &&& r@.hops_taken <= advertised_hops_taken
                &&& r@.hops_taken <= envelope@.max_hops
                &&& (r@.hops_taken == advertised_hops_taken || r@.hops_taken == envelope@.max_hops)
                &&& r@.copies_left <= advertised_copies_left
                &&& r@.copies_left <= INITIAL_COPY_BUDGET
                &&& (r@.copies_left == advertised_copies_left || r@.copies_left
                    == INITIAL_COPY_BUDGET)
                &&& r@.local_deadline == first_seen_at + r@.remaining_ttl
                &&& r@.first_seen_at == first_seen_at
                &&& r@.state == ContainerState::Stored
            },
    {
        proof {
            law_received_route_caps(
                envelope@.message_id,
                envelope@.ttl_seconds,
                envelope@.max_hops,
                first_seen_at,
                advertised_remaining_ttl,
                advertised_hops_taken,
                advertised_copies_left,
            );
        }
        if advertised_remaining_ttl == 0 {
            return Err(CoreError::ValueBelowMinimum { field: Field::RemainingTtl });
        }
        if advertised_copies_left == 0 {
            return Err(CoreError::ValueBelowMinimum { field: Field::CopiesLeft });
        }
        let envelope_ttl = envelope.ttl_seconds().get();
        let envelope_hops = envelope.max_hops().get();
        let remaining_ttl: u32 = if advertised_remaining_ttl < envelope_ttl as u64 {
            advertised_remaining_ttl as u32
        } else {
            envelope_ttl
        };
        let hops_taken: u8 = if advertised_hops_taken < envelope_hops as u64 {
            advertised_hops_taken as u8
        } else {
            envelope_hops
        };
        let copies_left: u8 = if advertised_copies_left < INITIAL_COPY_BUDGET as u64 {
            advertised_copies_left as u8
        } else {
            INITIAL_COPY_BUDGET
        };
        Self::from_bounded_values(envelope, first_seen_at, remaining_ttl, hops_taken, copies_left)
    }

    /// Restore one strictly validated active route from persistent fields.
    pub fn try_restore_stored(
        envelope: &Envelope,
        first_seen_at: u64,
        local_deadline: u64,
        remaining_ttl: u64,
        hops_taken: u64,
        copies_left: u64,
    ) -> (result: Result<Self, CoreError>)
        ensures
            match restored_route(
                envelope@.message_id,
                envelope@.ttl_seconds,
                envelope@.max_hops,
                first_seen_at,
                local_deadline,
                remaining_ttl,
                hops_taken,
                copies_left,
            ) {
                Ok(v) => result matches Ok(r) && r@ == v,
                Err(e) => result matches Err(r) && r == e,
            },
    {
        let envelope_ttl = envelope.ttl_seconds().get();
        let envelope_hops = envelope.max_hops().get();
        if remaining_ttl == 0 {
            return Err(CoreError::ValueBelowMinimum { field: Field::RemainingTtl });
        }
        if remaining_ttl > envelope_ttl as u64 {
            return Err(CoreError::ValueAboveMaximum { field: Field::RemainingTtl });
        }
        if hops_taken > envelope_hops as u64 {
            return Err(CoreError::ValueAboveMaximum { field: Field::HopsTaken });
        }
        if copies_left == 0 {
            return Err(CoreError::ValueBelowMinimum { field: Field::CopiesLeft });
        }
        if copies_left > INITIAL_COPY_BUDGET as u64 {
            return Err(CoreError::ValueAboveMaximum { field: Field::CopiesLeft });
        }
        let expected_deadline = match first_seen_at.checked_add(remaining_ttl) {
            Some(deadline) => deadline,
            None => return Err(CoreError::ArithmeticOverflow { field: Field::LocalDeadline }),
        };
        if local_deadline != expected_deadline {
            return Err(CoreError::UnsupportedValue { field: Field::LocalDeadline });
        }
        Ok(
            LocalRouteRecord {
                message_id: envelope.message_id(),
                first_seen_at,
                local_deadline,
                remaining_ttl: remaining_ttl as u32,
                hops_taken: hops_taken as u8,
                copies_left: copies_left as u8,
                state: ContainerState::Stored,
            },
        )
    }

    fn from_bounded_values(
        envelope: &Envelope,
        first_seen_at: u64,
        remaining_ttl: u32,
        hops_taken: u8,
        copies_left: u8,
    ) -> (result: Result<Self, CoreError>)
        ensures
            match bounded_route(
                envelope@.message_id,
                first_seen_at,
                remaining_ttl as int,
                hops_taken as int,
                copies_left as int,
            ) {
                Ok(v) => result matches Ok(r) && r@ == v,
                Err(e) => result matches Err(r) && r == e,
            },
    {
        let local_deadline = match first_seen_at.checked_add(remaining_ttl as u64) {
            Some(deadline) => deadline,
            None => return Err(CoreError::ArithmeticOverflow { field: Field::LocalDeadline }),
        };
        Ok(
            LocalRouteRecord {
                message_id: envelope.message_id(),
                first_seen_at,
                local_deadline,
                remaining_ttl,
                hops_taken,
                copies_left,
                state: ContainerState::Stored,
            },
        )
    }

    /// Move to `next` when the lifecycle allows it; otherwise leave the record unchanged.
    pub fn transition_to(&mut self, next: ContainerState) -> (result: Result<(), CoreError>)
        ensures
            transition_allowed(old(self)@.state, next) ==> result is Ok && final(self)@ == (RouteView {
                state: next,
                ..old(self)@
            }),
            !transition_allowed(old(self)@.state, next) ==> result == Err::<(), CoreError>(
                CoreError::InvalidStateTransition,
            ) && final(self)@ == old(self)@,
    {
        if !self.state.can_transition_to(next) {
            return Err(CoreError::InvalidStateTransition);
        }
        self.state = next;
        Ok(())
    }

    pub fn message_id(&self) -> (id: MessageId)
        ensures
            id@ == self@.message_id,
    {
        self.message_id
    }

    pub fn first_seen_at(&self) -> (value: u64)
        ensures
            value == self@.first_seen_at,
    {
        self.first_seen_at
    }

    pub fn local_deadline(&self) -> (value: u64)
        ensures
            value == self@.local_deadline,
    {
        self.local_deadline
    }

    pub fn remaining_ttl(&self) -> (value: u32)
        ensures
            value == self@.remaining_ttl,
    {
        self.remaining_ttl
    }

    pub fn hops_taken(&self) -> (value: u8)
        ensures
            value == self@.hops_taken,
    {
        self.hops_taken
    }

    pub fn copies_left(&self) -> (value: u8)
        ensures
            value == self@.copies_left,
    {
        self.copies_left
    }

    pub fn state(&self) -> (value: ContainerState)
        ensures
            value == self@.state,
    {
        self.state
    }

    /// Readable form that hides the identifier and all exact timing.
    pub fn redacted_debug(&self) -> (text: &'static str)
        ensures
            text@ == "LocalRouteRecord { message_id: MessageId { length: 16, .. }, timing: \"redacted\", .. }"@,
    {
        "LocalRouteRecord { message_id: MessageId { length: 16, .. }, timing: \"redacted\", .. }"
    }
}

} // verus!
