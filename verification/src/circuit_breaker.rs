//! The circuit breaker: a global emergency stop, per-protocol pauses with a
//! minimum pause duration, batch operations and role-based access control.
//!
//! Every operation takes the caller and the block time as arguments and
//! records the events it emits in the contract's event log. Each mutating
//! operation is specified by an outcome function on the model state: it either
//! gives the next state or the error, and on an error nothing changes.
use vstd::prelude::*;

use crate::address::{Address, InterfaceId, same_interface_id, zero_address};
use crate::abi::{AbiParam, encode_error, error_encoding, params_bytes, selector};
use crate::table::Table;
use crate::word::{U256, word, sat_add, sat_sub};

verus! {

/// Administrator role: manages roles, protocols and time locks.
pub const ADMIN_ROLE: u8 = 0x01;

/// Operator role: trips and resets circuits.
pub const OPERATOR_ROLE: u8 = 0x02;

/// Every role.
pub const ALL_ROLES: u8 = 0x03;

/// Default minimum pause duration: one hour.
pub const DEFAULT_MIN_PAUSE_DURATION: u64 = 3600;

/// Default maximum pause duration: seven days.
pub const DEFAULT_MAX_PAUSE_DURATION: u64 = 604800;

/// Default cooldown period: five minutes.
pub const DEFAULT_COOLDOWN_PERIOD: u64 = 300;

/// Largest batch accepted by the batch operations.
pub const MAX_BATCH_SIZE: usize = 100;

/// Largest minimum pause duration that can be configured: thirty days.
pub const MAX_REASONABLE_PAUSE: u64 = 2592000;

/// Largest maximum pause duration that can be configured: 365 days.
pub const MAX_CONFIGURABLE_PAUSE: u64 = 31536000;

/// Largest cooldown period that can be configured: one hour.
pub const MAX_REASONABLE_COOLDOWN: u64 = 3600;

/// ERC-165 interface identifier.
pub const ERC165_INTERFACE_ID: [u8; 4] = [0x01, 0xff, 0xc9, 0xa7];

/// Interface identifier of the circuit breaker.
pub const CIRCUIT_BREAKER_INTERFACE_ID: [u8; 4] = [0xab, 0xcd, 0xef, 0x12];

/// Errors of circuit breaker operations.
#[derive(Clone, Copy, Debug, PartialEq, Eq)]
pub enum Error {
    /// The global circuit is already tripped.
    AlreadyTripped,
    /// The global circuit is not tripped.
    NotTripped,
    /// The caller is not the owner.
    UnauthorizedCaller(Address),
    /// The owner address is invalid, or is the owner's.
    InvalidOwner(Address),
    /// The protocol is not registered.
    ProtocolNotRegistered(Address),
    /// The protocol is already registered.
    ProtocolAlreadyRegistered(Address),
    /// The protocol (or account) address is the zero address.
    InvalidProtocol(Address),
    /// The caller lacks the role.
    InsufficientRole { caller: Address, required_role: u8 },
    /// The role value is not a valid role.
    InvalidRole(u8),
    /// An account may not revoke its own roles.
    CannotRevokeOwnRole(Address),
    /// The minimum pause duration has not elapsed.
    MinimumPauseDurationNotMet { elapsed: U256, required: U256 },
    /// A cooldown period is still running.
    CooldownPeriodActive { remaining: U256 },
    /// The duration is out of range.
    InvalidDuration(U256),
    /// The duration exceeds the maximum pause duration.
    MaxPauseDurationExceeded { duration: U256, max: U256 },
    /// The protocol is already paused.
    ProtocolAlreadyPaused(Address),
    /// The protocol is not paused.
    ProtocolNotPaused(Address),
    /// The global circuit is active.
    GlobalCircuitActive,
    /// The batch is empty.
    EmptyProtocolList,
    /// The batch is larger than `MAX_BATCH_SIZE`.
    BatchSizeTooLarge { size: U256, max: U256 },
    /// The index is past the end of the protocol list.
    IndexOutOfBounds { index: U256, length: U256 },
    /// The interface is not supported.
    UnsupportedInterface(InterfaceId),
}

/// Events emitted by the circuit breaker.
#[derive(Clone, Copy, Debug, PartialEq, Eq)]
pub enum CircuitBreakerEvent {
    Tripped { trip_count: U256, timestamp: U256 },
    Reset { timestamp: U256 },
    OwnershipTransferred { previous_owner: Address, new_owner: Address },
    ProtocolRegistered { protocol: Address, timestamp: U256 },
    ProtocolUnregistered { protocol: Address, timestamp: U256 },
    ProtocolTripped { protocol: Address, trip_count: U256, timestamp: U256, operator: Address },
    ProtocolReset { protocol: Address, pause_duration: U256, timestamp: U256, operator: Address },
    BatchProtocolsTripped { count: U256, timestamp: U256, operator: Address },
    BatchProtocolsReset { count: U256, timestamp: U256, operator: Address },
    RoleGranted { account: Address, role: u8, grantor: Address },
    RoleRevoked { account: Address, role: u8, revoker: Address },
    MinPauseDurationUpdated { old_duration: U256, new_duration: U256 },
    MaxPauseDurationUpdated { old_duration: U256, new_duration: U256 },
    CooldownPeriodUpdated { old_period: U256, new_period: U256 },
}

/// The model of a circuit breaker's storage and event log.
#[verifier::ext_equal]
pub struct CircuitBreakerState {
    pub owner: Address,
    pub is_tripped: bool,
    pub trip_count: U256,
    pub last_trip_time: U256,
    pub roles: Map<Address, u8>,
    pub registered: Map<Address, bool>,
    pub protocol_list: Seq<Address>,
    pub paused: Map<Address, bool>,
    pub pause_time: Map<Address, U256>,
    pub protocol_trip_count: Map<Address, U256>,
    pub min_pause_duration: U256,
    pub max_pause_duration: U256,
    pub cooldown_period: U256,
    pub supported_interfaces: Seq<InterfaceId>,
    pub events: Seq<CircuitBreakerEvent>,
}

/// The word holding a block time.
pub open spec fn time_word(now: u64) -> U256 {
    word(now as nat)
}

/// Whether `p` is registered in `registered`.
pub open spec fn registered_in(registered: Map<Address, bool>, p: Address) -> bool {
    registered.contains_key(p) && registered[p]
}

/// The registered protocols that occur in `list`.
pub open spec fn listed_registered(list: Seq<Address>, registered: Map<Address, bool>) -> Set<Address> {
    Set::new(|p: Address| list.contains(p) && registered_in(registered, p))
}

/// Number of distinct entries of `list` that are registered in `registered`:
/// each protocol counts once, at its first occurrence.
pub open spec fn count_registered(list: Seq<Address>, registered: Map<Address, bool>) -> nat
    decreases list.len(),
{
    if list.len() == 0 {
        0
    } else {
        count_registered(list.drop_last(), registered) + if registered_in(registered, list.last())
            && !list.drop_last().contains(list.last()) {
            1nat
        } else {
            0nat
        }
    }
}

/// Counting the distinct registered entries of a list counts the set of
/// registered protocols that occur in it.
pub proof fn lemma_count_registered(list: Seq<Address>, registered: Map<Address, bool>)
    ensures
        listed_registered(list, registered).finite(),
        listed_registered(list, registered).len() == count_registered(list, registered),
    decreases list.len(),
{
    if list.len() == 0 {
        assert(listed_registered(list, registered) =~= Set::<Address>::empty());
    } else {
        let d = list.drop_last();
        let x = list.last();
        lemma_count_registered(d, registered);
        assert forall|p: Address| list.contains(p) <==> (d.contains(p) || p == x) by {
            if list.contains(p) {
                let i = choose|i: int| 0 <= i < list.len() && list[i] == p;
                if i < list.len() - 1 {
                    assert(d[i] == p);
                }
            }
            if d.contains(p) {
                let i = choose|i: int| 0 <= i < d.len() && d[i] == p;
                assert(list[i] == p);
            }
            if p == x {
                assert(list[list.len() - 1] == p);
            }
        }
        if registered_in(registered, x) && !d.contains(x) {
            assert(listed_registered(list, registered) =~= listed_registered(d, registered).insert(x));
        } else {
            assert(listed_registered(list, registered) =~= listed_registered(d, registered));
        }
    }
}

/// Operations that leave pauses, registrations and the protocol list alone
/// keep the protocols consistent.
proof fn lemma_consistent_frame(s: CircuitBreakerState, t: CircuitBreakerState)
    requires
        s.protocols_consistent(),
        t.paused == s.paused,
        t.registered == s.registered,
        t.protocol_list == s.protocol_list,
    ensures
        t.protocols_consistent(),
{
    assert forall|p: Address| #[trigger] t.is_paused(p) implies t.is_registered(p) by {
        assert(s.is_paused(p));
    }
    assert forall|p: Address| #[trigger] t.is_registered(p) implies t.protocol_list.contains(p) by {
        assert(s.is_registered(p));
    }
}

/// Registering a protocol appends it to the list.
proof fn lemma_consistent_register(s: CircuitBreakerState, t: CircuitBreakerState, q: Address)
    requires
        s.protocols_consistent(),
        t.paused == s.paused,
        t.registered == s.registered.insert(q, true),
        t.protocol_list == s.protocol_list.push(q),
    ensures
        t.protocols_consistent(),
{
    assert forall|p: Address| #[trigger] t.is_paused(p) implies t.is_registered(p) by {
        assert(s.is_paused(p));
        if p != q {
            assert(s.is_registered(p));
        }
    }
    assert forall|p: Address| #[trigger] t.is_registered(p) implies t.protocol_list.contains(p) by {
        if p == q {
            assert(t.protocol_list[s.protocol_list.len() as int] == q);
        } else {
            assert(s.is_registered(p));
            let i = choose|i: int| 0 <= i < s.protocol_list.len() && s.protocol_list[i] == p;
            assert(t.protocol_list[i] == p);
        }
    }
}

/// Unregistering a protocol that is not paused.
proof fn lemma_consistent_unregister(s: CircuitBreakerState, t: CircuitBreakerState, q: Address)
    requires
        s.protocols_consistent(),
        !s.is_paused(q),
        t.paused == s.paused,
        t.registered == s.registered.insert(q, false),
        t.protocol_list == s.protocol_list,
    ensures
        t.protocols_consistent(),
{
    assert forall|p: Address| #[trigger] t.is_paused(p) implies t.is_registered(p) by {
        assert(s.is_paused(p));
    }
    assert forall|p: Address| #[trigger] t.is_registered(p) implies t.protocol_list.contains(p) by {
        assert(s.is_registered(p));
    }
}

/// Pausing a registered protocol, or unpausing any protocol.
proof fn lemma_consistent_pause(s: CircuitBreakerState, t: CircuitBreakerState, q: Address, paused: bool)
    requires
        s.protocols_consistent(),
        paused ==> s.is_registered(q),
        t.paused == s.paused.insert(q, paused),
        t.registered == s.registered,
        t.protocol_list == s.protocol_list,
    ensures
        t.protocols_consistent(),
{
    assert forall|p: Address| #[trigger] t.is_paused(p) implies t.is_registered(p) by {
        if p != q {
            assert(s.is_paused(p));
        }
    }
    assert forall|p: Address| #[trigger] t.is_registered(p) implies t.protocol_list.contains(p) by {
        assert(s.is_registered(p));
    }
}

/// A mutating operation returned `r` and left `new` where the model gave `out`:
/// the next state on success, the same error and no change on failure.
pub open spec fn applied<T>(
    old: CircuitBreakerState,
    new: CircuitBreakerState,
    r: Result<T, Error>,
    out: Result<CircuitBreakerState, Error>,
) -> bool {
    match out {
        Ok(s) => r is Ok && new == s,
        Err(e) => r matches Err(e2) && e2 == e && new == old,
    }
}

impl CircuitBreakerState {
    /// The role bits stored for `a` (0 where none were written).
    pub open spec fn role_bits(self, a: Address) -> u8 {
        if self.roles.contains_key(a) {
            self.roles[a]
        } else {
            0
        }
    }

    /// Whether `p` is registered.
    pub open spec fn is_registered(self, p: Address) -> bool {
        self.registered.contains_key(p) && self.registered[p]
    }

    /// Whether `p` is paused.
    pub open spec fn is_paused(self, p: Address) -> bool {
        self.paused.contains_key(p) && self.paused[p]
    }

    /// When `p` was last paused (0 where never).
    pub open spec fn pause_time_of(self, p: Address) -> U256 {
        if self.pause_time.contains_key(p) {
            self.pause_time[p]
        } else {
            word(0)
        }
    }

    /// How often `p` was paused (0 where never).
    pub open spec fn trip_count_of(self, p: Address) -> U256 {
        if self.protocol_trip_count.contains_key(p) {
            self.protocol_trip_count[p]
        } else {
            word(0)
        }
    }

    /// The owner holds every role; any other account holds a role where one of
    /// its bits is set.
    pub open spec fn has_role(self, account: Address, role: u8) -> bool {
        account == self.owner || self.role_bits(account) & role != 0
    }

    /// The error of a caller lacking `role`, if it does.
    pub open spec fn role_error(self, caller: Address, role: u8) -> Option<Error> {
        if self.has_role(caller, role) {
            None
        } else {
            Some(Error::InsufficientRole { caller, required_role: role })
        }
    }

    /// Roles are ordered bit values within `ALL_ROLES`.
    pub open spec fn roles_valid(self) -> bool {
        forall|a: Address| #[trigger] self.roles.contains_key(a) ==> self.roles[a] & !ALL_ROLES == 0
    }

    /// The state with one more event.
    pub open spec fn emit(self, e: CircuitBreakerEvent) -> CircuitBreakerState {
        CircuitBreakerState { events: self.events.push(e), ..self }
    }

    /// The registered protocols.
    pub open spec fn registered_set(self) -> Set<Address> {
        Set::new(|p: Address| self.is_registered(p))
    }

    /// Every paused protocol is registered, and every registered protocol is
    /// in the protocol list.
    pub open spec fn protocols_consistent(self) -> bool {
        &&& forall|p: Address| #[trigger] self.is_paused(p) ==> self.is_registered(p)
        &&& forall|p: Address| #[trigger] self.is_registered(p) ==> self.protocol_list.contains(p)
    }

    /// Time elapsed since `p` was paused, floored at 0.
    pub open spec fn elapsed_since_pause(self, p: Address, now: u64) -> U256 {
        word(sat_sub(now as nat, self.pause_time_of(p).value()))
    }

    /// The storage of a fresh deployment: all zero.
    pub open spec fn fresh() -> CircuitBreakerState {
        CircuitBreakerState {
            owner: zero_address(),
            is_tripped: false,
            trip_count: word(0),
            last_trip_time: word(0),
            roles: Map::empty(),
            registered: Map::empty(),
            protocol_list: Seq::empty(),
            paused: Map::empty(),
            pause_time: Map::empty(),
            protocol_trip_count: Map::empty(),
            min_pause_duration: word(0),
            max_pause_duration: word(0),
            cooldown_period: word(0),
            supported_interfaces: Seq::empty(),
            events: Seq::empty(),
        }
    }

    /// `init`: the first caller becomes the owner; default time locks and the
    /// ERC-165 identifiers are set up.
    pub open spec fn init_outcome(self, caller: Address) -> Result<CircuitBreakerState, Error> {
        if !self.owner.spec_is_zero() {
            Err(Error::InvalidOwner(self.owner))
        } else {
            Ok(
                CircuitBreakerState {
                    owner: caller,
                    min_pause_duration: word(DEFAULT_MIN_PAUSE_DURATION as nat),
                    max_pause_duration: word(DEFAULT_MAX_PAUSE_DURATION as nat),
                    cooldown_period: word(DEFAULT_COOLDOWN_PERIOD as nat),
                    supported_interfaces: self.supported_interfaces.push(
                        ERC165_INTERFACE_ID,
                    ).push(CIRCUIT_BREAKER_INTERFACE_ID),
                    ..self
                },
            )
        }
    }

    /// `trip`: an operator (or the owner) stops the global circuit; any
    /// other caller is unauthorized.
    pub open spec fn trip_outcome(self, caller: Address, now: u64) -> Result<
        CircuitBreakerState,
        Error,
    > {
        if !self.has_role(caller, OPERATOR_ROLE) {
            Err(Error::UnauthorizedCaller(caller))
        } else if self.is_tripped {
            Err(Error::AlreadyTripped)
        } else {
            let count = word(sat_add(self.trip_count.value(), 1));
            Ok(
                CircuitBreakerState {
                    is_tripped: true,
                    trip_count: count,
                    last_trip_time: time_word(now),
                    ..self
                }.emit(CircuitBreakerEvent::Tripped { trip_count: count, timestamp: time_word(now) }),
            )
        }
    }

    /// `reset`: an operator (or the owner) restarts the global circuit; any
    /// other caller is unauthorized.
    pub open spec fn reset_outcome(self, caller: Address, now: u64) -> Result<
        CircuitBreakerState,
        Error,
    > {
        if !self.has_role(caller, OPERATOR_ROLE) {
            Err(Error::UnauthorizedCaller(caller))
        } else if !self.is_tripped {
            Err(Error::NotTripped)
        } else {
            Ok(
                CircuitBreakerState { is_tripped: false, ..self }.emit(
                    CircuitBreakerEvent::Reset { timestamp: time_word(now) },
                ),
            )
        }
    }

    /// `transfer_ownership`: the owner hands the contract to a non-zero address.
    pub open spec fn transfer_ownership_outcome(self, caller: Address, new_owner: Address) -> Result<
        CircuitBreakerState,
        Error,
    > {
        if caller != self.owner {
            Err(Error::UnauthorizedCaller(caller))
        } else if new_owner.spec_is_zero() {
            Err(Error::InvalidOwner(new_owner))
        } else {
            Ok(
                CircuitBreakerState { owner: new_owner, ..self }.emit(
                    CircuitBreakerEvent::OwnershipTransferred {
                        previous_owner: self.owner,
                        new_owner,
                    },
                ),
            )
        }
    }

    /// `register_protocol`: an administrator adds a protocol.
    pub open spec fn register_protocol_outcome(self, caller: Address, protocol: Address, now: u64) -> Result<
        CircuitBreakerState,
        Error,
    > {
        if let Some(e) = self.role_error(caller, ADMIN_ROLE) {
            Err(e)
        } else if protocol.spec_is_zero() {
            Err(Error::InvalidProtocol(protocol))
        } else if self.is_registered(protocol) {
            Err(Error::ProtocolAlreadyRegistered(protocol))
        } else {
            Ok(
                CircuitBreakerState {
                    registered: self.registered.insert(protocol, true),
                    protocol_list: self.protocol_list.push(protocol),
                    ..self
                }.emit(
                    CircuitBreakerEvent::ProtocolRegistered { protocol, timestamp: time_word(now) },
                ),
            )
        }
    }

    /// `unregister_protocol`: an administrator removes an unpaused protocol.
    pub open spec fn unregister_protocol_outcome(
        self,
        caller: Address,
        protocol: Address,
        now: u64,
    ) -> Result<CircuitBreakerState, Error> {
        if let Some(e) = self.role_error(caller, ADMIN_ROLE) {
            Err(e)
        } else if !self.is_registered(protocol) {
            Err(Error::ProtocolNotRegistered(protocol))
        } else if self.is_paused(protocol) {
            Err(Error::ProtocolAlreadyPaused(protocol))
        } else {
            Ok(
                CircuitBreakerState {
                    registered: self.registered.insert(protocol, false),
                    ..self
                }.emit(
                    CircuitBreakerEvent::ProtocolUnregistered { protocol, timestamp: time_word(now) },
                ),
            )
        }
    }

    /// `get_protocol_at_index`: the registered protocol at a list position.
    pub open spec fn protocol_at_index(self, index: U256) -> Result<Address, Error> {
        if index.value() >= self.protocol_list.len() {
            Err(
                Error::IndexOutOfBounds {
                    index,
                    length: word(self.protocol_list.len()),
                },
            )
        } else if !self.is_registered(self.protocol_list[index.value() as int]) {
            Err(Error::ProtocolNotRegistered(self.protocol_list[index.value() as int]))
        } else {
            Ok(self.protocol_list[index.value() as int])
        }
    }

    /// Pausing a protocol: its pause flag, pause time and trip count.
    pub open spec fn pause_one(self, protocol: Address, caller: Address, now: u64) -> CircuitBreakerState {
        let count = word(sat_add(self.trip_count_of(protocol).value(), 1));
        CircuitBreakerState {
            paused: self.paused.insert(protocol, true),
            pause_time: self.pause_time.insert(protocol, time_word(now)),
            protocol_trip_count: self.protocol_trip_count.insert(protocol, count),
            ..self
        }.emit(
            CircuitBreakerEvent::ProtocolTripped {
                protocol,
                trip_count: count,
                timestamp: time_word(now),
                operator: caller,
            },
        )
    }

    /// Unpausing a protocol.
    pub open spec fn unpause_one(self, protocol: Address, caller: Address, now: u64) -> CircuitBreakerState {
        CircuitBreakerState { paused: self.paused.insert(protocol, false), ..self }.emit(
            CircuitBreakerEvent::ProtocolReset {
                protocol,
                pause_duration: self.elapsed_since_pause(protocol, now),
                timestamp: time_word(now),
                operator: caller,
            },
        )
    }

    /// Whether the minimum pause duration of `protocol` has elapsed.
    pub open spec fn pause_elapsed(self, protocol: Address, now: u64) -> bool {
        self.elapsed_since_pause(protocol, now).value() >= self.min_pause_duration.value()
    }

    /// Whether the cooldown period since `protocol` was paused has elapsed.
    pub open spec fn cooldown_elapsed(self, protocol: Address, now: u64) -> bool {
        self.elapsed_since_pause(protocol, now).value() >= self.cooldown_period.value()
    }

    /// `trip_protocol`: an operator pauses one registered protocol.
    pub open spec fn trip_protocol_outcome(self, caller: Address, protocol: Address, now: u64) -> Result<
        CircuitBreakerState,
        Error,
    > {
        if let Some(e) = self.role_error(caller, OPERATOR_ROLE) {
            Err(e)
        } else if !self.is_registered(protocol) {
            Err(Error::ProtocolNotRegistered(protocol))
        } else if self.is_paused(protocol) {
            Err(Error::ProtocolAlreadyPaused(protocol))
        } else {
            Ok(self.pause_one(protocol, caller, now))
        }
    }

    /// `reset_protocol`: an operator unpauses a protocol once its minimum pause
    /// duration and the cooldown period have elapsed.
    pub open spec fn reset_protocol_outcome(self, caller: Address, protocol: Address, now: u64) -> Result<
        CircuitBreakerState,
        Error,
    > {
        if let Some(e) = self.role_error(caller, OPERATOR_ROLE) {
            Err(e)
        } else if !self.is_registered(protocol) {
            Err(Error::ProtocolNotRegistered(protocol))
        } else if !self.is_paused(protocol) {
            Err(Error::ProtocolNotPaused(protocol))
        } else if !self.pause_elapsed(protocol, now) {
            Err(
                Error::MinimumPauseDurationNotMet {
                    elapsed: self.elapsed_since_pause(protocol, now),
                    required: self.min_pause_duration,
                },
            )
        } else if !self.cooldown_elapsed(protocol, now) {
            Err(
                Error::CooldownPeriodActive {
                    remaining: word(
                        sat_sub(
                            self.cooldown_period.value(),
                            self.elapsed_since_pause(protocol, now).value(),
                        ),
                    ),
                },
            )
        } else {
            Ok(self.unpause_one(protocol, caller, now))
        }
    }

    /// Pausing each listed protocol that is non-zero, registered and not yet
    /// paused, in order; with the number paused.
    pub open spec fn pause_each(self, protocols: Seq<Address>, caller: Address, now: u64) -> (
        CircuitBreakerState,
        nat,
    )
        decreases protocols.len(),
    {
        if protocols.len() == 0 {
            (self, 0)
        } else {
            let (s, n) = self.pause_each(protocols.drop_last(), caller, now);
            let p = protocols.last();
            if !p.spec_is_zero() && s.is_registered(p) && !s.is_paused(p) {
                (s.pause_one(p, caller, now), n + 1)
            } else {
                (s, n)
            }
        }
    }

    /// Unpausing each listed protocol that is non-zero, registered, paused and
    /// past its minimum pause duration, in order; with the number unpaused.
    pub open spec fn unpause_each(self, protocols: Seq<Address>, caller: Address, now: u64) -> (
        CircuitBreakerState,
        nat,
    )
        decreases protocols.len(),
    {
        if protocols.len() == 0 {
            (self, 0)
        } else {
            let (s, n) = self.unpause_each(protocols.drop_last(), caller, now);
            let p = protocols.last();
            if !p.spec_is_zero() && s.is_registered(p) && s.is_paused(p) && s.pause_elapsed(p, now) {
                (s.unpause_one(p, caller, now), n + 1)
            } else {
                (s, n)
            }
        }
    }

    /// The error of a batch that is empty or too large, if it is.
    pub open spec fn batch_error(self, caller: Address, protocols: Seq<Address>) -> Option<Error> {
        if let Some(e) = self.role_error(caller, OPERATOR_ROLE) {
            Some(e)
        } else if protocols.len() == 0 {
            Some(Error::EmptyProtocolList)
        } else if protocols.len() > MAX_BATCH_SIZE {
            Some(
                Error::BatchSizeTooLarge {
                    size: word(protocols.len()),
                    max: word(MAX_BATCH_SIZE as nat),
                },
            )
        } else {
            None
        }
    }

    /// `trip_multiple_protocols`.
    pub open spec fn trip_multiple_outcome(
        self,
        caller: Address,
        protocols: Seq<Address>,
        now: u64,
    ) -> Result<CircuitBreakerState, Error> {
        if let Some(e) = self.batch_error(caller, protocols) {
            Err(e)
        } else {
            let (s, n) = self.pause_each(protocols, caller, now);
            Ok(
                s.emit(
                    CircuitBreakerEvent::BatchProtocolsTripped {
                        count: word(n),
                        timestamp: time_word(now),
                        operator: caller,
                    },
                ),
            )
        }
    }

    /// `reset_multiple_protocols`.
    pub open spec fn reset_multiple_outcome(
        self,
        caller: Address,
        protocols: Seq<Address>,
        now: u64,
    ) -> Result<CircuitBreakerState, Error> {
        if let Some(e) = self.batch_error(caller, protocols) {
            Err(e)
        } else {
            let (s, n) = self.unpause_each(protocols, caller, now);
            Ok(
                s.emit(
                    CircuitBreakerEvent::BatchProtocolsReset {
                        count: word(n),
                        timestamp: time_word(now),
                        operator: caller,
                    },
                ),
            )
        }
    }

    /// The error of a role value outside 1..=3, if it is.
    pub open spec fn role_value_error(role: u8) -> Option<Error> {
        if role == 0 || role > ALL_ROLES {
            Some(Error::InvalidRole(role))
        } else {
            None
        }
    }

    /// `grant_role`: an administrator adds role bits to a non-zero account;
    /// the event is emitted only where the bits change.
    pub open spec fn grant_role_outcome(self, caller: Address, account: Address, role: u8) -> Result<
        CircuitBreakerState,
        Error,
    > {
        if let Some(e) = self.role_error(caller, ADMIN_ROLE) {
            Err(e)
        } else if let Some(e) = Self::role_value_error(role) {
            Err(e)
        } else if account.spec_is_zero() {
            Err(Error::InvalidProtocol(account))
        } else if self.role_bits(account) | role == self.role_bits(account) {
            Ok(self)
        } else {
            Ok(
                CircuitBreakerState {
                    roles: self.roles.insert(account, self.role_bits(account) | role),
                    ..self
                }.emit(CircuitBreakerEvent::RoleGranted { account, role, grantor: caller }),
            )
        }
    }

    /// `revoke_role`: an administrator clears role bits of another account
    /// that is not the owner; the event is emitted only where the bits change.
    pub open spec fn revoke_role_outcome(self, caller: Address, account: Address, role: u8) -> Result<
        CircuitBreakerState,
        Error,
    > {
        if let Some(e) = self.role_error(caller, ADMIN_ROLE) {
            Err(e)
        } else if let Some(e) = Self::role_value_error(role) {
            Err(e)
        } else if account == caller {
            Err(Error::CannotRevokeOwnRole(account))
        } else if account == self.owner {
            Err(Error::InvalidOwner(account))
        } else if self.role_bits(account) & !role == self.role_bits(account) {
            Ok(self)
        } else {
            Ok(
                CircuitBreakerState {
                    roles: self.roles.insert(account, self.role_bits(account) & !role),
                    ..self
                }.emit(CircuitBreakerEvent::RoleRevoked { account, role, revoker: caller }),
            )
        }
    }

    /// The role bitmask reported for an account: every role for the owner.
    pub open spec fn roles_of(self, account: Address) -> u8 {
        if account == self.owner {
            ALL_ROLES
        } else {
            self.role_bits(account)
        }
    }

    /// `set_min_pause_duration`.
    pub open spec fn set_min_pause_outcome(self, caller: Address, duration: U256) -> Result<
        CircuitBreakerState,
        Error,
    > {
        if let Some(e) = self.role_error(caller, ADMIN_ROLE) {
            Err(e)
        } else if duration.value() == 0 || duration.value() > MAX_REASONABLE_PAUSE {
            Err(Error::InvalidDuration(duration))
        } else if duration.value() > self.max_pause_duration.value() {
            Err(Error::MaxPauseDurationExceeded { duration, max: self.max_pause_duration })
        } else {
            Ok(
                CircuitBreakerState { min_pause_duration: duration, ..self }.emit(
                    CircuitBreakerEvent::MinPauseDurationUpdated {
                        old_duration: self.min_pause_duration,
                        new_duration: duration,
                    },
                ),
            )
        }
    }

    /// `set_max_pause_duration`.
    pub open spec fn set_max_pause_outcome(self, caller: Address, duration: U256) -> Result<
        CircuitBreakerState,
        Error,
    > {
        if let Some(e) = self.role_error(caller, ADMIN_ROLE) {
            Err(e)
        } else if duration.value() == 0 || duration.value() > MAX_CONFIGURABLE_PAUSE {
            Err(Error::InvalidDuration(duration))
        } else if duration.value() < self.min_pause_duration.value() {
            Err(Error::InvalidDuration(duration))
        } else {
            Ok(
                CircuitBreakerState { max_pause_duration: duration, ..self }.emit(
                    CircuitBreakerEvent::MaxPauseDurationUpdated {
                        old_duration: self.max_pause_duration,
                        new_duration: duration,
                    },
                ),
            )
        }
    }

    /// `set_cooldown_period`.
    pub open spec fn set_cooldown_outcome(self, caller: Address, period: U256) -> Result<
        CircuitBreakerState,
        Error,
    > {
        if let Some(e) = self.role_error(caller, ADMIN_ROLE) {
            Err(e)
        } else if period.value() > MAX_REASONABLE_COOLDOWN {
            Err(Error::InvalidDuration(period))
        } else {
            Ok(
                CircuitBreakerState { cooldown_period: period, ..self }.emit(
                    CircuitBreakerEvent::CooldownPeriodUpdated {
                        old_period: self.cooldown_period,
                        new_period: period,
                    },
                ),
            )
        }
    }

    /// `get_remaining_pause_time`: what is left of the minimum pause
    /// duration (0 where the protocol is not paused or that duration has
    /// elapsed).
    pub open spec fn remaining_pause_time(self, protocol: Address, now: u64) -> U256 {
        if !self.is_paused(protocol) || self.pause_elapsed(protocol, now) {
            word(0)
        } else {
            word(
                sat_sub(
                    self.min_pause_duration.value(),
                    self.elapsed_since_pause(protocol, now).value(),
                ),
            )
        }
    }
}


/// A circuit breaker contract: its storage and the events it emitted.
pub struct CircuitBreaker {
    owner: Address,
    is_tripped: bool,
    trip_count: U256,
    last_trip_time: U256,
    roles: Table<Address, u8>,
    registered_protocols: Table<Address, bool>,
    protocol_list: Vec<Address>,
    protocol_paused: Table<Address, bool>,
    protocol_pause_time: Table<Address, U256>,
    protocol_trip_count: Table<Address, U256>,
    min_pause_duration: U256,
    max_pause_duration: U256,
    cooldown_period: U256,
    supported_interfaces: Vec<InterfaceId>,
    events: Vec<CircuitBreakerEvent>,
}

impl View for CircuitBreaker {
    type V = CircuitBreakerState;

    closed spec fn view(&self) -> CircuitBreakerState {
        CircuitBreakerState {
            owner: self.owner,
            is_tripped: self.is_tripped,
            trip_count: self.trip_count,
            last_trip_time: self.last_trip_time,
            roles: self.roles.view(),
            registered: self.registered_protocols.view(),
            protocol_list: self.protocol_list@,
            paused: self.protocol_paused.view(),
            pause_time: self.protocol_pause_time.view(),
            protocol_trip_count: self.protocol_trip_count.view(),
            min_pause_duration: self.min_pause_duration,
            max_pause_duration: self.max_pause_duration,
            cooldown_period: self.cooldown_period,
            supported_interfaces: self.supported_interfaces@,
            events: self.events@,
        }
    }
}

impl CircuitBreaker {
    /// Well-formedness: the tables are well formed and every stored role
    /// bitmask stays within `ALL_ROLES`.
    pub closed spec fn wf(&self) -> bool {
        &&& self.roles.wf()
        &&& self.registered_protocols.wf()
        &&& self.protocol_paused.wf()
        &&& self.protocol_pause_time.wf()
        &&& self.protocol_trip_count.wf()
        &&& self@.roles_valid()
        &&& self@.protocols_consistent()
    }

    /// In a well-formed circuit breaker every paused protocol is registered
    /// and every registered protocol is listed.
    pub proof fn lemma_protocols_consistent(&self)
        requires
            self.wf(),
        ensures
            self@.protocols_consistent(),
            self@.protocol_list.len() <= usize::MAX,
    {
        assert(self.protocol_list.len() == self@.protocol_list.len());
    }

    /// The storage of a fresh deployment, before `init`.
    pub fn new() -> (r: CircuitBreaker)
        ensures
            r.wf(),
            r@ == CircuitBreakerState::fresh(),
    {
        let r = CircuitBreaker {
            owner: Address::zero(),
            is_tripped: false,
            trip_count: U256::zero(),
            last_trip_time: U256::zero(),
            roles: Table::new(),
            registered_protocols: Table::new(),
            protocol_list: Vec::new(),
            protocol_paused: Table::new(),
            protocol_pause_time: Table::new(),
            protocol_trip_count: Table::new(),
            min_pause_duration: U256::zero(),
            max_pause_duration: U256::zero(),
            cooldown_period: U256::zero(),
            supported_interfaces: Vec::new(),
            events: Vec::new(),
        };
        proof {
            assert(r@ =~= CircuitBreakerState::fresh());
        }
        r
    }

    /// The events emitted so far, oldest first.
    pub fn events(&self) -> (r: &Vec<CircuitBreakerEvent>)
        ensures
            r@ == self@.events,
    {
        &self.events
    }

    fn role_bits(&self, a: &Address) -> (r: u8)
        requires
            self.wf(),
        ensures
            r == self@.role_bits(*a),
    {
        match self.roles.get(a) {
            Some(v) => v,
            None => 0,
        }
    }

    fn has_role_internal(&self, account: &Address, role: u8) -> (r: bool)
        requires
            self.wf(),
        ensures
            r == self@.has_role(*account, role),
    {
        if account.same(&self.owner) {
            return true;
        }
        (self.role_bits(account) & role) != 0
    }

    fn require_role(&self, caller: &Address, role: u8) -> (r: Result<(), Error>)
        requires
            self.wf(),
        ensures
            match self@.role_error(*caller, role) {
                None => r is Ok,
                Some(e) => r matches Err(e2) && e2 == e,
            },
    {
        if self.has_role_internal(caller, role) {
            Ok(())
        } else {
            Err(Error::InsufficientRole { caller: *caller, required_role: role })
        }
    }

    fn is_registered(&self, p: &Address) -> (r: bool)
        requires
            self.wf(),
        ensures
            r == self@.is_registered(*p),
    {
        match self.registered_protocols.get(p) {
            Some(v) => v,
            None => false,
        }
    }

    fn is_paused(&self, p: &Address) -> (r: bool)
        requires
            self.wf(),
        ensures
            r == self@.is_paused(*p),
    {
        match self.protocol_paused.get(p) {
            Some(v) => v,
            None => false,
        }
    }

    fn pause_time_of(&self, p: &Address) -> (r: U256)
        requires
            self.wf(),
        ensures
            r == self@.pause_time_of(*p),
    {
        match self.protocol_pause_time.get(p) {
            Some(v) => v,
            None => U256::zero(),
        }
    }

    fn trip_count_of(&self, p: &Address) -> (r: U256)
        requires
            self.wf(),
        ensures
            r == self@.trip_count_of(*p),
    {
        match self.protocol_trip_count.get(p) {
            Some(v) => v,
            None => U256::zero(),
        }
    }

    fn elapsed_since_pause(&self, p: &Address, now: u64) -> (r: U256)
        requires
            self.wf(),
        ensures
            r == self@.elapsed_since_pause(*p, now),
    {
        U256::from_u64(now).saturating_sub(&self.pause_time_of(p))
    }

    /// Initializes the contract: the caller becomes the owner, the default
    /// time locks are set and the ERC-165 identifiers are registered.
    pub fn init(&mut self, caller: &Address) -> (r: Result<(), Error>)
        requires
            old(self).wf(),
        ensures
            final(self).wf(),
            applied(old(self)@, final(self)@, r, old(self)@.init_outcome(*caller)),
    {
        if !self.owner.is_zero() {
            return Err(Error::InvalidOwner(self.owner));
        }
        self.owner = *caller;
        self.min_pause_duration = U256::from_u64(DEFAULT_MIN_PAUSE_DURATION);
        self.max_pause_duration = U256::from_u64(DEFAULT_MAX_PAUSE_DURATION);
        self.cooldown_period = U256::from_u64(DEFAULT_COOLDOWN_PERIOD);
        self.supported_interfaces.push(ERC165_INTERFACE_ID);
        self.supported_interfaces.push(CIRCUIT_BREAKER_INTERFACE_ID);
        proof {
            assert(self@ =~= old(self)@.init_outcome(*caller)->Ok_0);
            lemma_consistent_frame(old(self)@, self@);
        }
        Ok(())
    }

    /// Trips the global circuit (operator or owner).
    pub fn trip(&mut self, caller: &Address, now: u64) -> (r: Result<(), Error>)
        requires
            old(self).wf(),
        ensures
            final(self).wf(),
            applied(old(self)@, final(self)@, r, old(self)@.trip_outcome(*caller, now)),
    {
        if !self.has_role_internal(caller, OPERATOR_ROLE) {
            return Err(Error::UnauthorizedCaller(*caller));
        }
        if self.is_tripped {
            return Err(Error::AlreadyTripped);
        }
        self.is_tripped = true;
        let count = self.trip_count.saturating_add(&U256::from_u64(1));
        self.trip_count = count;
        let timestamp = U256::from_u64(now);
        self.last_trip_time = timestamp;
        self.events.push(CircuitBreakerEvent::Tripped { trip_count: count, timestamp });
        proof {
            assert(self@ =~= old(self)@.trip_outcome(*caller, now)->Ok_0);
            lemma_consistent_frame(old(self)@, self@);
        }
        Ok(())
    }

    /// Resets the global circuit (operator or owner).
    pub fn reset(&mut self, caller: &Address, now: u64) -> (r: Result<(), Error>)
        requires
            old(self).wf(),
        ensures
            final(self).wf(),
            applied(old(self)@, final(self)@, r, old(self)@.reset_outcome(*caller, now)),
    {
        if !self.has_role_internal(caller, OPERATOR_ROLE) {
            return Err(Error::UnauthorizedCaller(*caller));
        }
        if !self.is_tripped {
            return Err(Error::NotTripped);
        }
        self.is_tripped = false;
        self.events.push(CircuitBreakerEvent::Reset { timestamp: U256::from_u64(now) });
        proof {
            assert(self@ =~= old(self)@.reset_outcome(*caller, now)->Ok_0);
            lemma_consistent_frame(old(self)@, self@);
        }
        Ok(())
    }

    /// Whether the global circuit is tripped.
    pub fn is_active(&self) -> (r: bool)
        ensures
            r == self@.is_tripped,
    {
        self.is_tripped
    }

    /// How often the global circuit was tripped.
    pub fn get_trip_count(&self) -> (r: U256)
        ensures
            r == self@.trip_count,
    {
        self.trip_count
    }

    /// When the global circuit was last tripped.
    pub fn get_last_trip_time(&self) -> (r: U256)
        ensures
            r == self@.last_trip_time,
    {
        self.last_trip_time
    }

    /// The owner.
    pub fn owner(&self) -> (r: Address)
        ensures
            r == self@.owner,
    {
        self.owner
    }

    /// Hands the contract to a new, non-zero owner (owner only).
    pub fn transfer_ownership(&mut self, caller: &Address, new_owner: Address) -> (r: Result<(), Error>)
        requires
            old(self).wf(),
        ensures
            final(self).wf(),
            applied(
                old(self)@,
                final(self)@,
                r,
                old(self)@.transfer_ownership_outcome(*caller, new_owner),
            ),
    {
        if !caller.same(&self.owner) {
            return Err(Error::UnauthorizedCaller(*caller));
        }
        if new_owner.is_zero() {
            return Err(Error::InvalidOwner(new_owner));
        }
        let previous_owner = self.owner;
        self.owner = new_owner;
        self.events.push(CircuitBreakerEvent::OwnershipTransferred { previous_owner, new_owner });
        proof {
            assert(self@ =~= old(self)@.transfer_ownership_outcome(*caller, new_owner)->Ok_0);
            lemma_consistent_frame(old(self)@, self@);
        }
        Ok(())
    }

    /// Registers a protocol (administrator or owner).
    pub fn register_protocol(&mut self, caller: &Address, protocol: Address, now: u64) -> (r: Result<
        (),
        Error,
    >)
        requires
            old(self).wf(),
        ensures
            final(self).wf(),
            applied(
                old(self)@,
                final(self)@,
                r,
                old(self)@.register_protocol_outcome(*caller, protocol, now),
            ),
    {
        match self.require_role(caller, ADMIN_ROLE) {
            Err(e) => return Err(e),
            Ok(()) => {},
        }
        if protocol.is_zero() {
            return Err(Error::InvalidProtocol(protocol));
        }
        if self.is_registered(&protocol) {
            return Err(Error::ProtocolAlreadyRegistered(protocol));
        }
        self.registered_protocols.set(protocol, true);
        self.protocol_list.push(protocol);
        self.events.push(
            CircuitBreakerEvent::ProtocolRegistered { protocol, timestamp: U256::from_u64(now) },
        );
        proof {
            assert(self@ =~= old(self)@.register_protocol_outcome(*caller, protocol, now)->Ok_0);
            lemma_consistent_register(old(self)@, self@, protocol);
        }
        Ok(())
    }

    /// Unregisters a protocol that is not paused (administrator or owner).
    /// The protocol stays in the protocol list, where queries skip it.
    pub fn unregister_protocol(&mut self, caller: &Address, protocol: Address, now: u64) -> (r:
        Result<(), Error>)
        requires
            old(self).wf(),
        ensures
            final(self).wf(),
            applied(
                old(self)@,
                final(self)@,
                r,
                old(self)@.unregister_protocol_outcome(*caller, protocol, now),
            ),
    {
        match self.require_role(caller, ADMIN_ROLE) {
            Err(e) => return Err(e),
            Ok(()) => {},
        }
        if !self.is_registered(&protocol) {
            return Err(Error::ProtocolNotRegistered(protocol));
        }
        if self.is_paused(&protocol) {
            return Err(Error::ProtocolAlreadyPaused(protocol));
        }
        self.registered_protocols.set(protocol, false);
        self.events.push(
            CircuitBreakerEvent::ProtocolUnregistered { protocol, timestamp: U256::from_u64(now) },
        );
        proof {
            assert(self@ =~= old(self)@.unregister_protocol_outcome(*caller, protocol, now)->Ok_0);
            lemma_consistent_unregister(old(self)@, self@, protocol);
        }
        Ok(())
    }

    /// Whether a protocol is registered.
    pub fn is_protocol_registered(&self, protocol: Address) -> (r: bool)
        requires
            self.wf(),
        ensures
            r == self@.is_registered(protocol),
    {
        self.is_registered(&protocol)
    }

    /// The number of registered protocols.
    pub fn get_protocol_count(&self) -> (r: U256)
        requires
            self.wf(),
        ensures
            r.value() == self@.registered_set().len(),
            self@.registered_set().finite(),
    {
        let n = self.protocol_list.len();
        let mut count: u64 = 0;
        let mut i: usize = 0;
        while i < n
            invariant
                self.wf(),
                n == self@.protocol_list.len(),
                0 <= i <= n,
                count <= i,
                count as nat == count_registered(self@.protocol_list.take(i as int), self@.registered),
            decreases n - i,
        {
            let p = self.protocol_list[i];
            let ghost prefix = self@.protocol_list.take(i as int);
            proof {
                assert(self@.protocol_list.take(i + 1).drop_last() =~= prefix);
                assert(self@.protocol_list.take(i + 1).last() == p);
            }
            if self.is_registered(&p) {
                let mut seen = false;
                let mut j: usize = 0;
                while j < i
                    invariant
                        0 <= j <= i < n,
                        n == self@.protocol_list.len(),
                        prefix == self@.protocol_list.take(i as int),
                        p == self@.protocol_list[i as int],
                        seen <==> exists|k: int| 0 <= k < j && prefix[k] == p,
                    decreases i - j,
                {
                    assert(prefix[j as int] == self@.protocol_list[j as int]);
                    if self.protocol_list[j].same(&p) {
                        seen = true;
                    }
                    j = j + 1;
                }
                proof {
                    if seen {
                        let k = choose|k: int| 0 <= k < i && prefix[k] == p;
                        assert(prefix.contains(p));
                    } else {
                        assert(!prefix.contains(p));
                    }
                }
                if !seen {
                    count = count + 1;
                }
            }
            i = i + 1;
        }
        proof {
            assert(self@.protocol_list.take(n as int) =~= self@.protocol_list);
            lemma_count_registered(self@.protocol_list, self@.registered);
            assert(self@.registered_set() =~= listed_registered(self@.protocol_list, self@.registered));
        }
        U256::from_u64(count)
    }

    /// The protocol at a position of the protocol list, where it is still
    /// registered.
    pub fn get_protocol_at_index(&self, index: U256) -> (r: Result<Address, Error>)
        requires
            self.wf(),
        ensures
            r == self@.protocol_at_index(index),
    {
        let len = self.protocol_list.len();
        let idx = match index.try_to_usize() {
            Some(i) => i,
            None => {
                return Err(Error::IndexOutOfBounds { index, length: U256::from_usize(len) });
            },
        };
        if idx >= len {
            return Err(Error::IndexOutOfBounds { index, length: U256::from_usize(len) });
        }
        let protocol = self.protocol_list[idx];
        if !self.is_registered(&protocol) {
            return Err(Error::ProtocolNotRegistered(protocol));
        }
        Ok(protocol)
    }

    fn pause_one(&mut self, protocol: &Address, caller: &Address, now: u64)
        requires
            old(self).wf(),
            old(self)@.is_registered(*protocol),
        ensures
            final(self).wf(),
            final(self)@ == old(self)@.pause_one(*protocol, *caller, now),
    {
        let timestamp = U256::from_u64(now);
        let count = self.trip_count_of(protocol).saturating_add(&U256::from_u64(1));
        self.protocol_paused.set(*protocol, true);
        self.protocol_pause_time.set(*protocol, timestamp);
        self.protocol_trip_count.set(*protocol, count);
        self.events.push(
            CircuitBreakerEvent::ProtocolTripped {
                protocol: *protocol,
                trip_count: count,
                timestamp,
                operator: *caller,
            },
        );
        proof {
            assert(self@ =~= old(self)@.pause_one(*protocol, *caller, now));
            lemma_consistent_pause(old(self)@, self@, *protocol, true);
        }
    }

    fn unpause_one(&mut self, protocol: &Address, caller: &Address, now: u64)
        requires
            old(self).wf(),
        ensures
            final(self).wf(),
            final(self)@ == old(self)@.unpause_one(*protocol, *caller, now),
    {
        let elapsed = self.elapsed_since_pause(protocol, now);
        self.protocol_paused.set(*protocol, false);
        self.events.push(
            CircuitBreakerEvent::ProtocolReset {
                protocol: *protocol,
                pause_duration: elapsed,
                timestamp: U256::from_u64(now),
                operator: *caller,
            },
        );
        proof {
            assert(self@ =~= old(self)@.unpause_one(*protocol, *caller, now));
            lemma_consistent_pause(old(self)@, self@, *protocol, false);
        }
    }

    /// Pauses one registered protocol (operator or owner).
    pub fn trip_protocol(&mut self, caller: &Address, protocol: Address, now: u64) -> (r: Result<
        (),
        Error,
    >)
        requires
            old(self).wf(),
        ensures
            final(self).wf(),
            applied(
                old(self)@,
                final(self)@,
                r,
                old(self)@.trip_protocol_outcome(*caller, protocol, now),
            ),
    {
        match self.require_role(caller, OPERATOR_ROLE) {
            Err(e) => return Err(e),
            Ok(()) => {},
        }
        if !self.is_registered(&protocol) {
            return Err(Error::ProtocolNotRegistered(protocol));
        }
        if self.is_paused(&protocol) {
            return Err(Error::ProtocolAlreadyPaused(protocol));
        }
        self.pause_one(&protocol, caller, now);
        Ok(())
    }

    /// Unpauses one protocol whose minimum pause duration and cooldown period
    /// have elapsed (operator or owner).
    pub fn reset_protocol(&mut self, caller: &Address, protocol: Address, now: u64) -> (r: Result<
        (),
        Error,
    >)
        requires
            old(self).wf(),
        ensures
            final(self).wf(),
            applied(
                old(self)@,
                final(self)@,
                r,
                old(self)@.reset_protocol_outcome(*caller, protocol, now),
            ),
    {
        match self.require_role(caller, OPERATOR_ROLE) {
            Err(e) => return Err(e),
            Ok(()) => {},
        }
        if !self.is_registered(&protocol) {
            return Err(Error::ProtocolNotRegistered(protocol));
        }
        if !self.is_paused(&protocol) {
            return Err(Error::ProtocolNotPaused(protocol));
        }
        let elapsed = self.elapsed_since_pause(&protocol, now);
        let min_duration = self.min_pause_duration;
        if elapsed.lt(&min_duration) {
            return Err(Error::MinimumPauseDurationNotMet { elapsed, required: min_duration });
        }
        let cooldown = self.cooldown_period;
        if elapsed.lt(&cooldown) {
            return Err(Error::CooldownPeriodActive { remaining: cooldown.saturating_sub(&elapsed) });
        }
        self.unpause_one(&protocol, caller, now);
        Ok(())
    }

    /// Whether a protocol is paused.
    pub fn is_protocol_paused(&self, protocol: Address) -> (r: bool)
        requires
            self.wf(),
        ensures
            r == self@.is_paused(protocol),
    {
        self.is_paused(&protocol)
    }

    /// How often a protocol was paused.
    pub fn get_protocol_trip_count(&self, protocol: Address) -> (r: U256)
        requires
            self.wf(),
        ensures
            r == self@.trip_count_of(protocol),
    {
        self.trip_count_of(&protocol)
    }

    /// When a protocol was last paused.
    pub fn get_protocol_pause_time(&self, protocol: Address) -> (r: U256)
        requires
            self.wf(),
        ensures
            r == self@.pause_time_of(protocol),
    {
        self.pause_time_of(&protocol)
    }

    fn batch_check(&self, caller: &Address, protocols: &Vec<Address>) -> (r: Result<(), Error>)
        requires
            self.wf(),
        ensures
            match self@.batch_error(*caller, protocols@) {
                None => r is Ok,
                Some(e) => r matches Err(e2) && e2 == e,
            },
    {
        match self.require_role(caller, OPERATOR_ROLE) {
            Err(e) => return Err(e),
            Ok(()) => {},
        }
        if protocols.len() == 0 {
            return Err(Error::EmptyProtocolList);
        }
        if protocols.len() > MAX_BATCH_SIZE {
            return Err(
                Error::BatchSizeTooLarge {
                    size: U256::from_usize(protocols.len()),
                    max: U256::from_usize(MAX_BATCH_SIZE),
                },
            );
        }
        Ok(())
    }

    /// Pauses each listed protocol that is non-zero, registered and not
    /// paused; the others are skipped (operator or owner, at most
    /// `MAX_BATCH_SIZE` entries).
    pub fn trip_multiple_protocols(&mut self, caller: &Address, protocols: Vec<Address>, now: u64) -> (r:
        Result<(), Error>)
        requires
            old(self).wf(),
        ensures
            final(self).wf(),
            applied(
                old(self)@,
                final(self)@,
                r,
                old(self)@.trip_multiple_outcome(*caller, protocols@, now),
            ),
    {
        match self.batch_check(caller, &protocols) {
            Err(e) => return Err(e),
            Ok(()) => {},
        }
        let n = protocols.len();
        let mut success: u64 = 0;
        let mut i: usize = 0;
        while i < n
            invariant
                self.wf(),
                n == protocols@.len(),
                n <= MAX_BATCH_SIZE,
                0 <= i <= n,
                success <= i,
                self@ == old(self)@.pause_each(protocols@.take(i as int), *caller, now).0,
                success as nat == old(self)@.pause_each(protocols@.take(i as int), *caller, now).1,
            decreases n - i,
        {
            let p = protocols[i];
            proof {
                assert(protocols@.take(i + 1).drop_last() =~= protocols@.take(i as int));
            }
            if !p.is_zero() && self.is_registered(&p) && !self.is_paused(&p) {
                self.pause_one(&p, caller, now);
                success = success + 1;
            }
            i = i + 1;
        }
        proof {
            assert(protocols@.take(n as int) =~= protocols@);
        }
        let ghost mid = self@;
        self.events.push(
            CircuitBreakerEvent::BatchProtocolsTripped {
                count: U256::from_u64(success),
                timestamp: U256::from_u64(now),
                operator: *caller,
            },
        );
        proof {
            assert(self@ =~= old(self)@.trip_multiple_outcome(*caller, protocols@, now)->Ok_0);
            lemma_consistent_frame(mid, self@);
        }
        Ok(())
    }

    /// Unpauses each listed protocol that is non-zero, registered, paused and
    /// past its minimum pause duration; the others are skipped (operator or
    /// owner, at most `MAX_BATCH_SIZE` entries).
    pub fn reset_multiple_protocols(&mut self, caller: &Address, protocols: Vec<Address>, now: u64) -> (r:
        Result<(), Error>)
        requires
            old(self).wf(),
        ensures
            final(self).wf(),
            applied(
                old(self)@,
                final(self)@,
                r,
                old(self)@.reset_multiple_outcome(*caller, protocols@, now),
            ),
    {
        match self.batch_check(caller, &protocols) {
            Err(e) => return Err(e),
            Ok(()) => {},
        }
        let n = protocols.len();
        let min_duration = self.min_pause_duration;
        let mut success: u64 = 0;
        let mut i: usize = 0;
        while i < n
            invariant
                self.wf(),
                n == protocols@.len(),
                n <= MAX_BATCH_SIZE,
                0 <= i <= n,
                success <= i,
                min_duration == self@.min_pause_duration,
                self@ == old(self)@.unpause_each(protocols@.take(i as int), *caller, now).0,
                success as nat == old(self)@.unpause_each(protocols@.take(i as int), *caller, now).1,
            decreases n - i,
        {
            let p = protocols[i];
            proof {
                assert(protocols@.take(i + 1).drop_last() =~= protocols@.take(i as int));
            }
            if !p.is_zero() && self.is_registered(&p) && self.is_paused(&p) {
                let elapsed = self.elapsed_since_pause(&p, now);
                if elapsed.ge(&min_duration) {
                    self.unpause_one(&p, caller, now);
                    success = success + 1;
                }
            }
            i = i + 1;
        }
        proof {
            assert(protocols@.take(n as int) =~= protocols@);
        }
        let ghost mid = self@;
        self.events.push(
            CircuitBreakerEvent::BatchProtocolsReset {
                count: U256::from_u64(success),
                timestamp: U256::from_u64(now),
                operator: *caller,
            },
        );
        proof {
            assert(self@ =~= old(self)@.reset_multiple_outcome(*caller, protocols@, now)->Ok_0);
            lemma_consistent_frame(mid, self@);
        }
        Ok(())
    }

    fn validate_role(role: u8) -> (r: Result<(), Error>)
        ensures
            match CircuitBreakerState::role_value_error(role) {
                None => r is Ok,
                Some(e) => r matches Err(e2) && e2 == e,
            },
    {
        if role == 0 || role > ALL_ROLES {
            return Err(Error::InvalidRole(role));
        }
        Ok(())
    }

    /// Adds role bits to a non-zero account (administrator or owner).
    pub fn grant_role(&mut self, caller: &Address, account: Address, role: u8) -> (r: Result<
        (),
        Error,
    >)
        requires
            old(self).wf(),
        ensures
            final(self).wf(),
            applied(
                old(self)@,
                final(self)@,
                r,
                old(self)@.grant_role_outcome(*caller, account, role),
            ),
    {
        match self.require_role(caller, ADMIN_ROLE) {
            Err(e) => return Err(e),
            Ok(()) => {},
        }
        match Self::validate_role(role) {
            Err(e) => return Err(e),
            Ok(()) => {},
        }
        if account.is_zero() {
            return Err(Error::InvalidProtocol(account));
        }
        let current = self.role_bits(&account);
        let updated = current | role;
        if current != updated {
            proof {
                if old(self)@.roles.contains_key(account) {
                    assert(old(self)@.roles[account] & !ALL_ROLES == 0);
                } else {
                    assert(0u8 & !3u8 == 0) by (bit_vector);
                }
                assert(updated & !3u8 == 0) by (bit_vector)
                    requires
                        current & !3u8 == 0,
                        1 <= role <= 3,
                        updated == current | role,
                ;
            }
            self.roles.set(account, updated);
            proof {
                assert forall|a: Address| #[trigger] self@.roles.contains_key(a) implies self@.roles[a]
                    & !ALL_ROLES == 0 by {
                    if a != account {
                        assert(old(self)@.roles.contains_key(a));
                    }
                }
            }
            self.events.push(CircuitBreakerEvent::RoleGranted { account, role, grantor: *caller });
            proof {
                assert(self@ =~= old(self)@.grant_role_outcome(*caller, account, role)->Ok_0);
            lemma_consistent_frame(old(self)@, self@);
            }
        }
        Ok(())
    }

    /// Clears role bits of an account other than the caller and the owner
    /// (administrator or owner).
    pub fn revoke_role(&mut self, caller: &Address, account: Address, role: u8) -> (r: Result<
        (),
        Error,
    >)
        requires
            old(self).wf(),
        ensures
            final(self).wf(),
            applied(
                old(self)@,
                final(self)@,
                r,
                old(self)@.revoke_role_outcome(*caller, account, role),
            ),
    {
        match self.require_role(caller, ADMIN_ROLE) {
            Err(e) => return Err(e),
            Ok(()) => {},
        }
        match Self::validate_role(role) {
            Err(e) => return Err(e),
            Ok(()) => {},
        }
        if account.same(caller) {
            return Err(Error::CannotRevokeOwnRole(account));
        }
        if account.same(&self.owner) {
            return Err(Error::InvalidOwner(account));
        }
        let current = self.role_bits(&account);
        let updated = current & !role;
        if current != updated {
            proof {
                if old(self)@.roles.contains_key(account) {
                    assert(old(self)@.roles[account] & !ALL_ROLES == 0);
                } else {
                    assert(0u8 & !3u8 == 0) by (bit_vector);
                }
                assert(updated & !3u8 == 0) by (bit_vector)
                    requires
                        current & !3u8 == 0,
                        updated == current & !role,
                ;
            }
            self.roles.set(account, updated);
            proof {
                assert forall|a: Address| #[trigger] self@.roles.contains_key(a) implies self@.roles[a]
                    & !ALL_ROLES == 0 by {
                    if a != account {
                        assert(old(self)@.roles.contains_key(a));
                    }
                }
            }
            self.events.push(CircuitBreakerEvent::RoleRevoked { account, role, revoker: *caller });
            proof {
                assert(self@ =~= old(self)@.revoke_role_outcome(*caller, account, role)->Ok_0);
            lemma_consistent_frame(old(self)@, self@);
            }
        }
        Ok(())
    }

    /// Whether an account holds some bit of `role`; the owner holds every role.
    pub fn has_role(&self, account: Address, role: u8) -> (r: bool)
        requires
            self.wf(),
        ensures
            r == self@.has_role(account, role),
    {
        self.has_role_internal(&account, role)
    }

    /// The role bitmask of an account; `ALL_ROLES` for the owner.
    pub fn get_roles(&self, account: Address) -> (r: u8)
        requires
            self.wf(),
        ensures
            r == self@.roles_of(account),
    {
        if account.same(&self.owner) {
            return ALL_ROLES;
        }
        self.role_bits(&account)
    }

    /// Sets the minimum pause duration, within 1 second and thirty days and at
    /// most the maximum pause duration (administrator or owner).
    pub fn set_min_pause_duration(&mut self, caller: &Address, duration: U256) -> (r: Result<
        (),
        Error,
    >)
        requires
            old(self).wf(),
        ensures
            final(self).wf(),
            applied(old(self)@, final(self)@, r, old(self)@.set_min_pause_outcome(*caller, duration)),
    {
        match self.require_role(caller, ADMIN_ROLE) {
            Err(e) => return Err(e),
            Ok(()) => {},
        }
        if duration.is_zero() || duration.gt(&U256::from_u64(MAX_REASONABLE_PAUSE)) {
            return Err(Error::InvalidDuration(duration));
        }
        let max_duration = self.max_pause_duration;
        if duration.gt(&max_duration) {
            return Err(Error::MaxPauseDurationExceeded { duration, max: max_duration });
        }
        let old_duration = self.min_pause_duration;
        self.min_pause_duration = duration;
        self.events.push(
            CircuitBreakerEvent::MinPauseDurationUpdated { old_duration, new_duration: duration },
        );
        proof {
            assert(self@ =~= old(self)@.set_min_pause_outcome(*caller, duration)->Ok_0);
            lemma_consistent_frame(old(self)@, self@);
        }
        Ok(())
    }

    /// Sets the maximum pause duration, within 1 second and 365 days and at
    /// least the minimum pause duration (administrator or owner).
    pub fn set_max_pause_duration(&mut self, caller: &Address, duration: U256) -> (r: Result<
        (),
        Error,
    >)
        requires
            old(self).wf(),
        ensures
            final(self).wf(),
            applied(old(self)@, final(self)@, r, old(self)@.set_max_pause_outcome(*caller, duration)),
    {
        match self.require_role(caller, ADMIN_ROLE) {
            Err(e) => return Err(e),
            Ok(()) => {},
        }
        if duration.is_zero() || duration.gt(&U256::from_u64(MAX_CONFIGURABLE_PAUSE)) {
            return Err(Error::InvalidDuration(duration));
        }
        if duration.lt(&self.min_pause_duration) {
            return Err(Error::InvalidDuration(duration));
        }
        let old_duration = self.max_pause_duration;
        self.max_pause_duration = duration;
        self.events.push(
            CircuitBreakerEvent::MaxPauseDurationUpdated { old_duration, new_duration: duration },
        );
        proof {
            assert(self@ =~= old(self)@.set_max_pause_outcome(*caller, duration)->Ok_0);
            lemma_consistent_frame(old(self)@, self@);
        }
        Ok(())
    }

    /// Sets the cooldown period, at most one hour (administrator or owner).
    pub fn set_cooldown_period(&mut self, caller: &Address, period: U256) -> (r: Result<
        (),
        Error,
    >)
        requires
            old(self).wf(),
        ensures
            final(self).wf(),
            applied(old(self)@, final(self)@, r, old(self)@.set_cooldown_outcome(*caller, period)),
    {
        match self.require_role(caller, ADMIN_ROLE) {
            Err(e) => return Err(e),
            Ok(()) => {},
        }
        if period.gt(&U256::from_u64(MAX_REASONABLE_COOLDOWN)) {
            return Err(Error::InvalidDuration(period));
        }
        let old_period = self.cooldown_period;
        self.cooldown_period = period;
        self.events.push(CircuitBreakerEvent::CooldownPeriodUpdated { old_period, new_period: period });
        proof {
            assert(self@ =~= old(self)@.set_cooldown_outcome(*caller, period)->Ok_0);
            lemma_consistent_frame(old(self)@, self@);
        }
        Ok(())
    }

    /// The minimum pause duration.
    pub fn get_min_pause_duration(&self) -> (r: U256)
        ensures
            r == self@.min_pause_duration,
    {
        self.min_pause_duration
    }

    /// The maximum pause duration.
    pub fn get_max_pause_duration(&self) -> (r: U256)
        ensures
            r == self@.max_pause_duration,
    {
        self.max_pause_duration
    }

    /// The cooldown period.
    pub fn get_cooldown_period(&self) -> (r: U256)
        ensures
            r == self@.cooldown_period,
    {
        self.cooldown_period
    }

    /// Whether a protocol can be reset at time `now`: it is paused and its
    /// minimum pause duration has elapsed. Where the cooldown period has also
    /// run, this is exactly when an operator's `reset_protocol` succeeds.
    pub fn can_reset(&self, protocol: Address, now: u64) -> (r: bool)
        requires
            self.wf(),
        ensures
            r == (self@.is_paused(protocol) && self@.pause_elapsed(protocol, now)),
            forall|c: Address| #[trigger] self@.has_role(c, OPERATOR_ROLE) ==> ((r
                && self@.cooldown_elapsed(protocol, now)) <==> self@.reset_protocol_outcome(
                c,
                protocol,
                now,
            ) is Ok),
    {
        proof {
            assert(self@.is_paused(protocol) ==> self@.is_registered(protocol));
        }
        if !self.is_paused(&protocol) {
            return false;
        }
        let elapsed = self.elapsed_since_pause(&protocol, now);
        elapsed.ge(&self.min_pause_duration)
    }

    /// What is left of a protocol's minimum pause duration at time `now` (0
    /// where it is not paused or that duration has elapsed).
    pub fn get_remaining_pause_time(&self, protocol: Address, now: u64) -> (r: U256)
        requires
            self.wf(),
        ensures
            r == self@.remaining_pause_time(protocol, now),
    {
        if !self.is_paused(&protocol) {
            return U256::zero();
        }
        let elapsed = self.elapsed_since_pause(&protocol, now);
        let min_duration = self.min_pause_duration;
        if elapsed.ge(&min_duration) {
            U256::zero()
        } else {
            min_duration.saturating_sub(&elapsed)
        }
    }

    /// Whether an interface identifier is registered (ERC-165).
    pub fn supports_interface(&self, interface_id: InterfaceId) -> (r: bool)
        ensures
            r == self@.supported_interfaces.contains(interface_id),
    {
        let n = self.supported_interfaces.len();
        let mut i: usize = 0;
        while i < n
            invariant
                n == self@.supported_interfaces.len(),
                0 <= i <= n,
                forall|j: int| 0 <= j < i ==> self@.supported_interfaces[j] != interface_id,
            decreases n - i,
        {
            if same_interface_id(&self.supported_interfaces[i], &interface_id) {
                proof {
                    assert(self@.supported_interfaces[i as int] == interface_id);
                }
                return true;
            }
            i = i + 1;
        }
        false
    }

    /// The administrator role bit.
    pub fn admin_role(&self) -> (r: u8)
        ensures
            r == ADMIN_ROLE,
    {
        ADMIN_ROLE
    }

    /// The operator role bit.
    pub fn operator_role(&self) -> (r: u8)
        ensures
            r == OPERATOR_ROLE,
    {
        OPERATOR_ROLE
    }

    /// Whether the caller is the owner or holds some role.
    pub fn is_authorized(&self, caller: &Address) -> (r: bool)
        requires
            self.wf(),
        ensures
            r == (*caller == self@.owner || self@.role_bits(*caller) != 0),
    {
        caller.same(&self.owner) || self.role_bits(caller) != 0
    }
}


impl Error {
    /// The Solidity signature of the error.
    pub open spec fn signature(self) -> Seq<char> {
        match self {
            Error::AlreadyTripped => "AlreadyTripped()"@,
            Error::NotTripped => "NotTripped()"@,
            Error::UnauthorizedCaller(a) => "UnauthorizedCaller(address)"@,
            Error::InvalidOwner(a) => "InvalidOwner(address)"@,
            Error::ProtocolNotRegistered(a) => "ProtocolNotRegistered(address)"@,
            Error::ProtocolAlreadyRegistered(a) => "ProtocolAlreadyRegistered(address)"@,
            Error::InvalidProtocol(a) => "InvalidProtocol(address)"@,
            Error::InsufficientRole { caller, required_role } => "InsufficientRole(address,uint8)"@,
            Error::InvalidRole(r) => "InvalidRole(uint8)"@,
            Error::CannotRevokeOwnRole(a) => "CannotRevokeOwnRole(address)"@,
            Error::MinimumPauseDurationNotMet { elapsed, required } => {
                "MinimumPauseDurationNotMet(uint256,uint256)"@
            },
            Error::CooldownPeriodActive { remaining } => "CooldownPeriodActive(uint256)"@,
            Error::InvalidDuration(d) => "InvalidDuration(uint256)"@,
            Error::MaxPauseDurationExceeded { duration, max } => {
                "MaxPauseDurationExceeded(uint256,uint256)"@
            },
            Error::ProtocolAlreadyPaused(a) => "ProtocolAlreadyPaused(address)"@,
            Error::ProtocolNotPaused(a) => "ProtocolNotPaused(address)"@,
            Error::GlobalCircuitActive => "GlobalCircuitActive()"@,
            Error::EmptyProtocolList => "EmptyProtocolList()"@,
            Error::BatchSizeTooLarge { size, max } => "BatchSizeTooLarge(uint256,uint256)"@,
            Error::IndexOutOfBounds { index, length } => "IndexOutOfBounds(uint256,uint256)"@,
            Error::UnsupportedInterface(b) => "UnsupportedInterface(bytes4)"@,
        }
    }

    /// The ABI parameters of the error, in declaration order.
    pub open spec fn abi_params(self) -> Seq<AbiParam> {
        match self {
            Error::AlreadyTripped => seq![],
            Error::NotTripped => seq![],
            Error::UnauthorizedCaller(a) => seq![AbiParam::Address(a)],
            Error::InvalidOwner(a) => seq![AbiParam::Address(a)],
            Error::ProtocolNotRegistered(a) => seq![AbiParam::Address(a)],
            Error::ProtocolAlreadyRegistered(a) => seq![AbiParam::Address(a)],
            Error::InvalidProtocol(a) => seq![AbiParam::Address(a)],
            Error::InsufficientRole { caller, required_role } => seq![
                AbiParam::Address(caller),
                AbiParam::Uint8(required_role),
            ],
            Error::InvalidRole(r) => seq![AbiParam::Uint8(r)],
            Error::CannotRevokeOwnRole(a) => seq![AbiParam::Address(a)],
            Error::MinimumPauseDurationNotMet { elapsed, required } => seq![
                AbiParam::Uint256(elapsed),
                AbiParam::Uint256(required),
            ],
            Error::CooldownPeriodActive { remaining } => seq![AbiParam::Uint256(remaining)],
            Error::InvalidDuration(d) => seq![AbiParam::Uint256(d)],
            Error::MaxPauseDurationExceeded { duration, max } => seq![
                AbiParam::Uint256(duration),
                AbiParam::Uint256(max),
            ],
            Error::ProtocolAlreadyPaused(a) => seq![AbiParam::Address(a)],
            Error::ProtocolNotPaused(a) => seq![AbiParam::Address(a)],
            Error::GlobalCircuitActive => seq![],
            Error::EmptyProtocolList => seq![],
            Error::BatchSizeTooLarge { size, max } => seq![
                AbiParam::Uint256(size),
                AbiParam::Uint256(max),
            ],
            Error::IndexOutOfBounds { index, length } => seq![
                AbiParam::Uint256(index),
                AbiParam::Uint256(length),
            ],
            Error::UnsupportedInterface(b) => seq![AbiParam::Bytes4(b)],
        }
    }

    fn abi_parts(&self) -> (r: (&'static str, Vec<AbiParam>))
        ensures
            r.0@ == self.signature(),
            r.1@ == self.abi_params(),
    {
        match self {
            Error::AlreadyTripped => ("AlreadyTripped()", Vec::new()),
            Error::NotTripped => ("NotTripped()", Vec::new()),
            Error::UnauthorizedCaller(a) => (
                "UnauthorizedCaller(address)",
                vec![
                    AbiParam::Address(*a),
                ],
            ),
            Error::InvalidOwner(a) => ("InvalidOwner(address)", vec![AbiParam::Address(*a)]),
            Error::ProtocolNotRegistered(a) => (
                "ProtocolNotRegistered(address)",
                vec![
                    AbiParam::Address(*a),
                ],
            ),
            Error::ProtocolAlreadyRegistered(a) => (
                "ProtocolAlreadyRegistered(address)",
                vec![
                    AbiParam::Address(*a),
                ],
            ),
            Error::InvalidProtocol(a) => ("InvalidProtocol(address)", vec![AbiParam::Address(*a)]),
            Error::InsufficientRole { caller, required_role } => (
                "InsufficientRole(address,uint8)",
                vec![
                    AbiParam::Address(*caller),
                    AbiParam::Uint8(*required_role),
                ],
            ),
            Error::InvalidRole(r) => ("InvalidRole(uint8)", vec![AbiParam::Uint8(*r)]),
            Error::CannotRevokeOwnRole(a) => (
                "CannotRevokeOwnRole(address)",
                vec![
                    AbiParam::Address(*a),
                ],
            ),
            Error::MinimumPauseDurationNotMet { elapsed, required } => (
                "MinimumPauseDurationNotMet(uint256,uint256)",
                vec![
                    AbiParam::Uint256(*elapsed),
                    AbiParam::Uint256(*required),
                ],
            ),
            Error::CooldownPeriodActive { remaining } => (
                "CooldownPeriodActive(uint256)",
                vec![
                    AbiParam::Uint256(*remaining),
                ],
            ),
            Error::InvalidDuration(d) => ("InvalidDuration(uint256)", vec![AbiParam::Uint256(*d)]),
            Error::MaxPauseDurationExceeded { duration, max } => (
                "MaxPauseDurationExceeded(uint256,uint256)",
                vec![
                    AbiParam::Uint256(*duration),
                    AbiParam::Uint256(*max),
                ],
            ),
            Error::ProtocolAlreadyPaused(a) => (
                "ProtocolAlreadyPaused(address)",
                vec![
                    AbiParam::Address(*a),
                ],
            ),
            Error::ProtocolNotPaused(a) => (
                "ProtocolNotPaused(address)",
                vec![
                    AbiParam::Address(*a),
                ],
            ),
            Error::GlobalCircuitActive => ("GlobalCircuitActive()", Vec::new()),
            Error::EmptyProtocolList => ("EmptyProtocolList()", Vec::new()),
            Error::BatchSizeTooLarge { size, max } => (
                "BatchSizeTooLarge(uint256,uint256)",
                vec![
                    AbiParam::Uint256(*size),
                    AbiParam::Uint256(*max),
                ],
            ),
            Error::IndexOutOfBounds { index, length } => (
                "IndexOutOfBounds(uint256,uint256)",
                vec![
                    AbiParam::Uint256(*index),
                    AbiParam::Uint256(*length),
                ],
            ),
            Error::UnsupportedInterface(b) => (
                "UnsupportedInterface(bytes4)",
                vec![
                    AbiParam::Bytes4(*b),
                ],
            ),
        }
    }

    /// The ABI encoding of the error: the selector of its signature, then one
    /// 32-byte word per parameter.
    pub fn abi_encode(&self) -> (r: Vec<u8>)
        ensures
            r@ == error_encoding(self.signature(), self.abi_params()),
            r@.len() == 4 + 32 * self.abi_params().len(),
            r@.take(4) == selector(self.signature()),
            r@.skip(4) == params_bytes(self.abi_params()),
    {
        let (signature, params) = self.abi_parts();
        encode_error(signature, &params)
    }
}

} // verus!
