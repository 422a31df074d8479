//! The alert registry: a permanent record of security alerts.
//!
//! Simple alerts carry a severity; enhanced alerts carry a threat level from
//! which a priority is derived, and can be acknowledged once. The registry also
//! keeps subscribers, per-protocol and per-priority counts, an expiration
//! duration and role-based access control. Every operation takes the caller
//! and the block time as arguments and records the events it emits.
use vstd::prelude::*;

use crate::address::{Address, Hash32, InterfaceId, same_interface_id, zero_address};
use crate::abi::{AbiParam, encode_error, error_encoding, params_bytes, selector};
use crate::table::Table;
use crate::word::{U256, word, sat_add, sat_sub};
use vstd::multiset::Multiset;

verus! {

/// Administrator role: manages roles, subscribers and configuration.
pub const ADMIN_ROLE: u8 = 0x01;

/// Monitor role: registers enhanced alerts.
pub const MONITOR_ROLE: u8 = 0x02;

/// Every role.
pub const ALL_ROLES: u8 = 0x03;

/// Low priority (threat level below 40).
pub const PRIORITY_LOW: u64 = 0;

/// Medium priority (threat level 40 to 69).
pub const PRIORITY_MEDIUM: u64 = 1;

/// High priority (threat level 70 to 89).
pub const PRIORITY_HIGH: u64 = 2;

/// Critical priority (threat level 90 and above).
pub const PRIORITY_CRITICAL: u64 = 3;

/// Lowest threat level of medium priority.
pub const THRESHOLD_MEDIUM: u64 = 40;

/// Lowest threat level of high priority.
pub const THRESHOLD_HIGH: u64 = 70;

/// Lowest threat level of critical priority.
pub const THRESHOLD_CRITICAL: u64 = 90;

/// Largest threat level accepted.
pub const MAX_THREAT_LEVEL: u64 = 100;

/// Default alert expiration: thirty days.
pub const DEFAULT_EXPIRATION: u64 = 2592000;

/// Largest batch size.
pub const MAX_BATCH_SIZE: u64 = 100;

/// ERC-165 interface identifier.
pub const ERC165_INTERFACE_ID: [u8; 4] = [0x01, 0xff, 0xc9, 0xa7];

/// Errors of alert registry operations.
#[derive(Clone, Copy, Debug, PartialEq, Eq)]
pub enum Error {
    /// No alert has this identifier.
    AlertNotFound { id: U256 },
    /// The alert data is invalid.
    InvalidAlert,
    /// The caller is not the owner.
    UnauthorizedCaller(Address),
    /// The owner address is invalid.
    InvalidOwner(Address),
    /// The caller lacks the role.
    InsufficientRole { caller: Address, required_role: u8 },
    /// The role value is not a valid role.
    InvalidRole(u8),
    /// An account may not revoke its own roles.
    CannotRevokeOwnRole(Address),
    /// The address is already subscribed.
    AlreadySubscribed(Address),
    /// The address is not subscribed.
    NotSubscribed(Address),
    /// The subscriber address is the zero address.
    InvalidSubscriber(Address),
    /// The alert was already acknowledged.
    AlertAlreadyAcknowledged { id: U256 },
    /// The caller is neither the alert's protocol nor an administrator.
    NotAlertProtocol { caller: Address, id: U256 },
    /// The priority level is invalid.
    InvalidPriorityLevel { level: U256 },
    /// The batch is too large.
    BatchSizeTooLarge { size: U256, max: U256 },
    /// The expiration duration is zero.
    InvalidExpirationDuration { duration: U256 },
    /// The address is the zero address.
    InvalidAddress(Address),
    /// The interface is not supported.
    UnsupportedInterface(InterfaceId),
}

/// Events emitted by the alert registry.
#[derive(Clone, Copy, Debug, PartialEq, Eq)]
pub enum AlertRegistryEvent {
    AlertRegistered {
        id: U256,
        timestamp: U256,
        severity: u8,
        source: Address,
        message_hash: Hash32,
    },
    OwnershipTransferred { previous_owner: Address, new_owner: Address },
    EnhancedAlertRegistered {
        id: U256,
        protocol: Address,
        threat_level: U256,
        priority_level: U256,
        pattern_matched: U256,
    },
    AlertAcknowledged { id: U256, protocol: Address, acknowledger: Address },
    SubscriberAdded { subscriber: Address, grantor: Address },
    SubscriberRemoved { subscriber: Address, revoker: Address },
    AlertExpirationUpdated { old_duration: U256, new_duration: U256 },
    DetectionEngineUpdated { old_engine: Address, new_engine: Address },
    RoleGranted { account: Address, role: u8, grantor: Address },
    RoleRevoked { account: Address, role: u8, revoker: Address },
    HighThreatAlertEmitted { id: U256, protocol: Address, threat_level: U256 },
    CriticalAlertEmitted { id: U256, protocol: Address, threat_level: U256 },
}

/// A simple alert.
#[derive(Clone, Copy, Debug, PartialEq, Eq)]
pub struct Alert {
    pub timestamp: U256,
    pub severity: u8,
    pub source: Address,
    pub message_hash: Hash32,
}

/// An enhanced alert.
#[derive(Clone, Copy, Debug, PartialEq, Eq)]
pub struct EnhancedAlert {
    pub protocol: Address,
    pub threat_level: U256,
    pub pattern_matched: U256,
    pub timestamp: U256,
    pub priority_level: U256,
    pub acknowledged: bool,
    pub acknowledged_by: Address,
    pub acknowledged_at: U256,
    pub message_hash: Hash32,
    pub source: Address,
}

/// The model of an alert registry's storage and event log. Enhanced alert
/// `id` (from 1) is `enhanced_alerts[id - 1]`; their count is the length.
#[verifier::ext_equal]
pub struct AlertRegistryState {
    pub owner: Address,
    pub alerts: Seq<Alert>,
    pub roles: Map<Address, u8>,
    pub enhanced_alerts: Seq<EnhancedAlert>,
    pub subscribers: Map<Address, bool>,
    pub subscriber_count: U256,
    pub protocol_alert_count: Map<Address, U256>,
    pub priority_alert_counts: Map<U256, U256>,
    pub alert_expiration_duration: U256,
    pub detection_engine: Address,
    pub supported_interfaces: Seq<InterfaceId>,
    pub events: Seq<AlertRegistryEvent>,
}

/// The priority of a threat level: 3 from 90, 2 from 70, 1 from 40, else 0.
pub open spec fn priority_of(threat_level: nat) -> nat {
    if threat_level >= THRESHOLD_CRITICAL {
        PRIORITY_CRITICAL as nat
    } else if threat_level >= THRESHOLD_HIGH {
        PRIORITY_HIGH as nat
    } else if threat_level >= THRESHOLD_MEDIUM {
        PRIORITY_MEDIUM as nat
    } else {
        PRIORITY_LOW as nat
    }
}

/// An element occurs in a sequence at most as often as the sequence is long.
proof fn lemma_count_le_len<A>(s: Seq<A>, x: A)
    ensures
        s.to_multiset().count(x) <= s.len(),
    decreases s.len(),
{
    broadcast use vstd::seq_lib::group_to_multiset_ensures;
    if s.len() > 0 {
        lemma_count_le_len(s.drop_last(), x);
        assert(s =~= s.drop_last().push(s.last()));
    } else {
        assert(s.to_multiset() =~= Multiset::<A>::empty());
    }
}

/// Operations that keep the counters, the subscribers, and the protocol and
/// priority of every enhanced alert keep the counters consistent.
proof fn lemma_counts_frame(s: AlertRegistryState, t: AlertRegistryState)
    requires
        s.counts_consistent(),
        t.protocol_alert_count == s.protocol_alert_count,
        t.priority_alert_counts == s.priority_alert_counts,
        t.subscribers == s.subscribers,
        t.subscriber_count == s.subscriber_count,
        t.enhanced_alerts.len() == s.enhanced_alerts.len(),
        forall|i: int| 0 <= i < s.enhanced_alerts.len() ==> (#[trigger] t.enhanced_alerts[i]).protocol
            == s.enhanced_alerts[i].protocol && t.enhanced_alerts[i].priority_level
            == s.enhanced_alerts[i].priority_level,
    ensures
        t.counts_consistent(),
{
    assert(t.enhanced_alerts.map_values(|a: EnhancedAlert| a.protocol) =~= s.enhanced_alerts.map_values(
        |a: EnhancedAlert| a.protocol,
    ));
    assert(t.enhanced_alerts.map_values(|a: EnhancedAlert| a.priority_level)
        =~= s.enhanced_alerts.map_values(|a: EnhancedAlert| a.priority_level));
    assert(t.alert_protocols() == s.alert_protocols());
    assert(t.alert_priorities() == s.alert_priorities());
    assert forall|p: Address| #[trigger] t.protocol_count_of(p).value() == t.alert_protocols().count(p) by {
        assert(t.protocol_count_of(p) == s.protocol_count_of(p));
    }
    assert forall|q: U256| #[trigger] t.priority_count_of(q).value() == t.alert_priorities().count(q) by {
        assert(t.priority_count_of(q) == s.priority_count_of(q));
    }
    assert(t.subscriber_set() =~= s.subscriber_set());
    assert forall|i: int| 0 <= i < t.enhanced_alerts.len() implies
        #[trigger] t.enhanced_alerts[i].priority_level.value() <= PRIORITY_CRITICAL by {
        assert(t.enhanced_alerts[i].priority_level == s.enhanced_alerts[i].priority_level);
    }
}

/// Registering an enhanced alert adds one to its protocol's and its priority
/// level's counts.
proof fn lemma_counts_register(s: AlertRegistryState, t: AlertRegistryState, a: EnhancedAlert)
    requires
        s.counts_consistent(),
        a.priority_level.value() <= PRIORITY_CRITICAL,
        t.enhanced_alerts == s.enhanced_alerts.push(a),
        t.enhanced_alerts.len() <= usize::MAX,
        t.protocol_alert_count == s.protocol_alert_count.insert(
            a.protocol,
            word(sat_add(s.protocol_count_of(a.protocol).value(), 1)),
        ),
        t.priority_alert_counts == s.priority_alert_counts.insert(
            a.priority_level,
            word(sat_add(s.priority_count_of(a.priority_level).value(), 1)),
        ),
        t.subscribers == s.subscribers,
        t.subscriber_count == s.subscriber_count,
    ensures
        t.counts_consistent(),
{
    broadcast use vstd::seq_lib::group_to_multiset_ensures;
    broadcast use vstd::multiset::group_multiset_properties;
    let sp = s.enhanced_alerts.map_values(|x: EnhancedAlert| x.protocol);
    let sq = s.enhanced_alerts.map_values(|x: EnhancedAlert| x.priority_level);
    assert(t.enhanced_alerts.map_values(|x: EnhancedAlert| x.protocol) =~= sp.push(a.protocol));
    assert(t.enhanced_alerts.map_values(|x: EnhancedAlert| x.priority_level) =~= sq.push(
        a.priority_level,
    ));
    lemma_count_le_len(sp, a.protocol);
    lemma_count_le_len(sq, a.priority_level);
    crate::word::lemma_word_value(s.alert_protocols().count(a.protocol) + 1);
    crate::word::lemma_word_value(s.alert_priorities().count(a.priority_level) + 1);
    assert forall|p: Address| #[trigger] t.protocol_count_of(p).value() == t.alert_protocols().count(p) by {
        if p != a.protocol {
            assert(t.protocol_count_of(p) == s.protocol_count_of(p));
        }
    }
    assert forall|q: U256| #[trigger] t.priority_count_of(q).value() == t.alert_priorities().count(q) by {
        if q != a.priority_level {
            assert(t.priority_count_of(q) == s.priority_count_of(q));
        }
    }
    assert(t.subscriber_set() =~= s.subscriber_set());
    assert forall|i: int| 0 <= i < t.enhanced_alerts.len() implies
        #[trigger] t.enhanced_alerts[i].priority_level.value() <= PRIORITY_CRITICAL by {
        if i < s.enhanced_alerts.len() {
            assert(t.enhanced_alerts[i] == s.enhanced_alerts[i]);
        }
    }
}

/// Subscribing or unsubscribing an account moves the subscriber count by one.
proof fn lemma_counts_subscriber(s: AlertRegistryState, t: AlertRegistryState, a: Address, on: bool)
    requires
        s.counts_consistent(),
        s.is_subscriber(a) != on,
        t.subscribers == s.subscribers.insert(a, on),
        t.subscribers.dom().finite(),
        t.subscribers.dom().len() <= usize::MAX,
        t.subscriber_count == (if on {
            word(sat_add(s.subscriber_count.value(), 1))
        } else {
            word(sat_sub(s.subscriber_count.value(), 1))
        }),
        t.protocol_alert_count == s.protocol_alert_count,
        t.priority_alert_counts == s.priority_alert_counts,
        t.enhanced_alerts == s.enhanced_alerts,
    ensures
        t.counts_consistent(),
        on ==> t.subscriber_count.value() == s.subscriber_count.value() + 1,
        !on ==> t.subscriber_count.value() + 1 == s.subscriber_count.value(),
{
    assert(t.alert_protocols() == s.alert_protocols());
    assert(t.alert_priorities() == s.alert_priorities());
    assert forall|p: Address| #[trigger] t.protocol_count_of(p).value() == t.alert_protocols().count(p) by {
        assert(t.protocol_count_of(p) == s.protocol_count_of(p));
    }
    assert forall|q: U256| #[trigger] t.priority_count_of(q).value() == t.alert_priorities().count(q) by {
        assert(t.priority_count_of(q) == s.priority_count_of(q));
    }
    assert forall|i: int| 0 <= i < t.enhanced_alerts.len() implies
        #[trigger] t.enhanced_alerts[i].priority_level.value() <= PRIORITY_CRITICAL by {
        assert(t.enhanced_alerts[i] == s.enhanced_alerts[i]);
    }
    if on {
        assert(t.subscriber_set() =~= s.subscriber_set().insert(a));
        assert(!s.subscriber_set().contains(a));
        assert(t.subscriber_set().len() == s.subscriber_set().len() + 1);
        vstd::set_lib::lemma_len_subset(t.subscriber_set(), t.subscribers.dom());
        crate::word::lemma_word_value(s.subscriber_count.value() + 1);
    } else {
        assert(t.subscriber_set() =~= s.subscriber_set().remove(a));
        assert(s.subscriber_set().contains(a));
        assert(s.subscriber_set().remove(a).len() + 1 == s.subscriber_set().len());
        crate::word::lemma_word_value((s.subscriber_count.value() - 1) as nat);
    }
}

/// A mutating operation returned `r` and left `new` where the model gave `out`:
/// the next state (and the returned value, where there is one) on success, the
/// same error and no change on failure.
pub open spec fn applied<T>(
    old: AlertRegistryState,
    new: AlertRegistryState,
    r: Result<T, Error>,
    out: Result<(AlertRegistryState, T), Error>,
) -> bool {
    match out {
        Ok((s, v)) => r matches Ok(v2) && v2 == v && new == s,
        Err(e) => r matches Err(e2) && e2 == e && new == old,
    }
}

impl AlertRegistryState {
    /// The role bits stored for `a` (0 where none were written).
    pub open spec fn role_bits(self, a: Address) -> u8 {
        if self.roles.contains_key(a) {
            self.roles[a]
        } else {
            0
        }
    }

    /// The owner holds every role; another account holds a role where all of
    /// its bits are set.
    pub open spec fn has_role(self, account: Address, role: u8) -> bool {
        account == self.owner || self.role_bits(account) & role == role
    }

    /// The owner, the configured detection engine for the monitor role, and
    /// accounts holding all bits of the role pass the role check.
    pub open spec fn role_error(self, caller: Address, role: u8) -> Option<Error> {
        if caller == self.owner {
            None
        } else if role == MONITOR_ROLE && !self.detection_engine.spec_is_zero() && caller
            == self.detection_engine {
            None
        } else if self.role_bits(caller) & role == role {
            None
        } else {
            Some(Error::InsufficientRole { caller, required_role: role })
        }
    }

    /// Stored role bitmasks stay within `ALL_ROLES`.
    pub open spec fn roles_valid(self) -> bool {
        forall|a: Address| #[trigger] self.roles.contains_key(a) ==> self.roles[a] & !ALL_ROLES == 0
    }

    /// Whether `a` is subscribed.
    pub open spec fn is_subscriber(self, a: Address) -> bool {
        self.subscribers.contains_key(a) && self.subscribers[a]
    }

    /// The number of enhanced alerts of a protocol (0 where none).
    pub open spec fn protocol_count_of(self, p: Address) -> U256 {
        if self.protocol_alert_count.contains_key(p) {
            self.protocol_alert_count[p]
        } else {
            word(0)
        }
    }

    /// The number of enhanced alerts of a priority level (0 where none).
    pub open spec fn priority_count_of(self, level: U256) -> U256 {
        if self.priority_alert_counts.contains_key(level) {
            self.priority_alert_counts[level]
        } else {
            word(0)
        }
    }

    /// The protocols of the enhanced alerts, each counted once per alert.
    pub open spec fn alert_protocols(self) -> Multiset<Address> {
        self.enhanced_alerts.map_values(|a: EnhancedAlert| a.protocol).to_multiset()
    }

    /// The priority levels of the enhanced alerts, each counted once per alert.
    pub open spec fn alert_priorities(self) -> Multiset<U256> {
        self.enhanced_alerts.map_values(|a: EnhancedAlert| a.priority_level).to_multiset()
    }

    /// The subscribed accounts.
    pub open spec fn subscriber_set(self) -> Set<Address> {
        Set::new(|a: Address| self.is_subscriber(a))
    }

    /// The counters agree with what they count: each protocol's and each
    /// priority level's count is the number of enhanced alerts with it, every
    /// priority level is at most `PRIORITY_CRITICAL`, and the subscriber count
    /// is the number of subscribed accounts.
    pub open spec fn counts_consistent(self) -> bool {
        &&& forall|p: Address| #[trigger] self.protocol_count_of(p).value() == self.alert_protocols().count(
            p,
        )
        &&& forall|q: U256| #[trigger] self.priority_count_of(q).value() == self.alert_priorities().count(
            q,
        )
        &&& forall|i: int| 0 <= i < self.enhanced_alerts.len()
            ==> #[trigger] self.enhanced_alerts[i].priority_level.value() <= PRIORITY_CRITICAL
        &&& self.subscriber_set().finite()
        &&& self.subscriber_count.value() == self.subscriber_set().len()
    }

    /// Whether `id` names an enhanced alert: `1 <= id <= count`.
    pub open spec fn valid_id(self, id: U256) -> bool {
        1 <= id.value() <= self.enhanced_alerts.len()
    }

    /// The enhanced alert named by a valid `id`.
    pub open spec fn enhanced(self, id: U256) -> EnhancedAlert {
        self.enhanced_alerts[id.value() - 1]
    }

    /// The state with one more event.
    pub open spec fn emit(self, e: AlertRegistryEvent) -> AlertRegistryState {
        AlertRegistryState { events: self.events.push(e), ..self }
    }

    /// The storage of a fresh deployment: all zero.
    pub open spec fn fresh() -> AlertRegistryState {
        AlertRegistryState {
            owner: zero_address(),
            alerts: Seq::empty(),
            roles: Map::empty(),
            enhanced_alerts: Seq::empty(),
            subscribers: Map::empty(),
            subscriber_count: word(0),
            protocol_alert_count: Map::empty(),
            priority_alert_counts: Map::empty(),
            alert_expiration_duration: word(0),
            detection_engine: zero_address(),
            supported_interfaces: Seq::empty(),
            events: Seq::empty(),
        }
    }

    /// `init`: the first caller becomes the owner and is granted every role;
    /// the default expiration and ERC-165 identifier are set up.
    pub open spec fn init_outcome(self, caller: Address) -> Result<(AlertRegistryState, ()), Error> {
        if !self.owner.spec_is_zero() {
            Err(Error::InvalidOwner(self.owner))
        } else {
            Ok(
                (
                    AlertRegistryState {
                        owner: caller,
                        roles: self.roles.insert(caller, ALL_ROLES),
                        alert_expiration_duration: word(DEFAULT_EXPIRATION as nat),
                        supported_interfaces: self.supported_interfaces.push(ERC165_INTERFACE_ID),
                        ..self
                    },
                    (),
                ),
            )
        }
    }

    /// `register_alert`: anyone records a simple alert from a non-zero source;
    /// its identifier is its position.
    pub open spec fn register_alert_outcome(
        self,
        severity: u8,
        source: Address,
        message_hash: Hash32,
        now: u64,
    ) -> Result<(AlertRegistryState, U256), Error> {
        if source.spec_is_zero() {
            Err(Error::InvalidAlert)
        } else {
            let id = word(self.alerts.len());
            let alert = Alert { timestamp: word(now as nat), severity, source, message_hash };
            Ok(
                (
                    AlertRegistryState { alerts: self.alerts.push(alert), ..self }.emit(
                        AlertRegistryEvent::AlertRegistered {
                            id,
                            timestamp: word(now as nat),
                            severity,
                            source,
                            message_hash,
                        },
                    ),
                    id,
                ),
            )
        }
    }

    /// `get_alert`: the fields of a simple alert.
    pub open spec fn alert_at(self, id: U256) -> Result<(U256, u8, Address, Hash32), Error> {
        if id.value() >= self.alerts.len() {
            Err(Error::AlertNotFound { id })
        } else {
            let a = self.alerts[id.value() as int];
            Ok((a.timestamp, a.severity, a.source, a.message_hash))
        }
    }

    /// `transfer_ownership`.
    pub open spec fn transfer_ownership_outcome(self, caller: Address, new_owner: Address) -> Result<
        (AlertRegistryState, ()),
        Error,
    > {
        if caller != self.owner {
            Err(Error::UnauthorizedCaller(caller))
        } else if new_owner.spec_is_zero() {
            Err(Error::InvalidOwner(new_owner))
        } else {
            Ok(
                (
                    AlertRegistryState { owner: new_owner, ..self }.emit(
                        AlertRegistryEvent::OwnershipTransferred {
                            previous_owner: self.owner,
                            new_owner,
                        },
                    ),
                    (),
                ),
            )
        }
    }

    /// The events of a new enhanced alert: high- and critical-priority alerts
    /// announce themselves once more each.
    pub open spec fn enhanced_events(
        self,
        id: U256,
        protocol: Address,
        threat_level: U256,
        priority: nat,
        pattern_matched: U256,
    ) -> AlertRegistryState {
        let s1 = self.emit(
            AlertRegistryEvent::EnhancedAlertRegistered {
                id,
                protocol,
                threat_level,
                priority_level: word(priority),
                pattern_matched,
            },
        );
        let s2 = if priority >= PRIORITY_HIGH {
            s1.emit(AlertRegistryEvent::HighThreatAlertEmitted { id, protocol, threat_level })
        } else {
            s1
        };
        if priority >= PRIORITY_CRITICAL {
            s2.emit(AlertRegistryEvent::CriticalAlertEmitted { id, protocol, threat_level })
        } else {
            s2
        }
    }

    /// `register_enhanced_alert`: a monitor records an alert on a non-zero
    /// protocol with a threat level of at most 100; its identifier is the new
    /// count, and the per-protocol and per-priority counts grow by one.
    pub open spec fn register_enhanced_outcome(
        self,
        caller: Address,
        protocol: Address,
        threat_level: U256,
        pattern_matched: U256,
        message_hash: Hash32,
        source: Address,
        now: u64,
    ) -> Result<(AlertRegistryState, U256), Error> {
        if let Some(e) = self.role_error(caller, MONITOR_ROLE) {
            Err(e)
        } else if protocol.spec_is_zero() {
            Err(Error::InvalidAddress(protocol))
        } else if threat_level.value() > MAX_THREAT_LEVEL {
            Err(Error::InvalidAlert)
        } else {
            let priority = priority_of(threat_level.value());
            let id = word(self.enhanced_alerts.len() + 1);
            let alert = EnhancedAlert {
                protocol,
                threat_level,
                pattern_matched,
                timestamp: word(now as nat),
                priority_level: word(priority),
                acknowledged: false,
                acknowledged_by: zero_address(),
                acknowledged_at: word(0),
                message_hash,
                source,
            };
            let s = AlertRegistryState {
                enhanced_alerts: self.enhanced_alerts.push(alert),
                protocol_alert_count: self.protocol_alert_count.insert(
                    protocol,
                    word(sat_add(self.protocol_count_of(protocol).value(), 1)),
                ),
                priority_alert_counts: self.priority_alert_counts.insert(
                    word(priority),
                    word(sat_add(self.priority_count_of(word(priority)).value(), 1)),
                ),
                ..self
            };
            Ok((s.enhanced_events(id, protocol, threat_level, priority, pattern_matched), id))
        }
    }

    /// `get_enhanced_alert`.
    pub open spec fn enhanced_alert_at(self, id: U256) -> Result<
        (Address, U256, U256, U256, U256, bool, Hash32, Address),
        Error,
    > {
        if !self.valid_id(id) {
            Err(Error::AlertNotFound { id })
        } else {
            let a = self.enhanced(id);
            Ok(
                (
                    a.protocol,
                    a.threat_level,
                    a.pattern_matched,
                    a.timestamp,
                    a.priority_level,
                    a.acknowledged,
                    a.message_hash,
                    a.source,
                ),
            )
        }
    }

    /// `acknowledge_alert`: the alert's protocol or an administrator marks an
    /// unacknowledged alert as acknowledged, once.
    pub open spec fn acknowledge_outcome(self, caller: Address, id: U256, now: u64) -> Result<
        (AlertRegistryState, ()),
        Error,
    > {
        if !self.valid_id(id) {
            Err(Error::AlertNotFound { id })
        } else if self.enhanced(id).acknowledged {
            Err(Error::AlertAlreadyAcknowledged { id })
        } else if caller != self.enhanced(id).protocol && !self.has_role(caller, ADMIN_ROLE) {
            Err(Error::NotAlertProtocol { caller, id })
        } else {
            let a = self.enhanced(id);
            let acked = EnhancedAlert {
                acknowledged: true,
                acknowledged_by: caller,
                acknowledged_at: word(now as nat),
                ..a
            };
            Ok(
                (
                    AlertRegistryState {
                        enhanced_alerts: self.enhanced_alerts.update(id.value() - 1, acked),
                        ..self
                    }.emit(
                        AlertRegistryEvent::AlertAcknowledged {
                            id,
                            protocol: a.protocol,
                            acknowledger: caller,
                        },
                    ),
                    (),
                ),
            )
        }
    }

    /// `is_alert_acknowledged`: false for identifiers that name no alert.
    pub open spec fn acknowledged_at_id(self, id: U256) -> bool {
        self.valid_id(id) && self.enhanced(id).acknowledged
    }

    /// `add_subscriber`.
    pub open spec fn add_subscriber_outcome(self, caller: Address, addr: Address) -> Result<
        (AlertRegistryState, ()),
        Error,
    > {
        if let Some(e) = self.role_error(caller, ADMIN_ROLE) {
            Err(e)
        } else if addr.spec_is_zero() {
            Err(Error::InvalidSubscriber(addr))
        } else if self.is_subscriber(addr) {
            Err(Error::AlreadySubscribed(addr))
        } else {
            Ok(
                (
                    AlertRegistryState {
                        subscribers: self.subscribers.insert(addr, true),
                        subscriber_count: word(sat_add(self.subscriber_count.value(), 1)),
                        ..self
                    }.emit(AlertRegistryEvent::SubscriberAdded { subscriber: addr, grantor: caller }),
                    (),
                ),
            )
        }
    }

    /// `remove_subscriber`.
    pub open spec fn remove_subscriber_outcome(self, caller: Address, addr: Address) -> Result<
        (AlertRegistryState, ()),
        Error,
    > {
        if let Some(e) = self.role_error(caller, ADMIN_ROLE) {
            Err(e)
        } else if !self.is_subscriber(addr) {
            Err(Error::NotSubscribed(addr))
        } else {
            Ok(
                (
                    AlertRegistryState {
                        subscribers: self.subscribers.insert(addr, false),
                        subscriber_count: word(sat_sub(self.subscriber_count.value(), 1)),
                        ..self
                    }.emit(AlertRegistryEvent::SubscriberRemoved { subscriber: addr, revoker: caller }),
                    (),
                ),
            )
        }
    }

    /// Whether an alert created at `timestamp` has expired at `now`: never
    /// where the expiration duration is 0, else once strictly more than that
    /// duration has elapsed.
    pub open spec fn expired(self, timestamp: U256, now: u64) -> bool {
        self.alert_expiration_duration.value() != 0 && sat_sub(now as nat, timestamp.value())
            > self.alert_expiration_duration.value()
    }

    /// `is_alert_expired`.
    pub open spec fn expired_at_id(self, id: U256, now: u64) -> Result<bool, Error> {
        if !self.valid_id(id) {
            Err(Error::AlertNotFound { id })
        } else {
            Ok(self.expired(self.enhanced(id).timestamp, now))
        }
    }

    /// The error of a role value that is 0 or has bits outside `ALL_ROLES`.
    pub open spec fn role_value_error(role: u8) -> Option<Error> {
        if role == 0 || role & !ALL_ROLES != 0 {
            Some(Error::InvalidRole(role))
        } else {
            None
        }
    }

    /// `grant_role`: an administrator sets role bits of a non-zero account.
    pub open spec fn grant_role_outcome(self, caller: Address, account: Address, role: u8) -> Result<
        (AlertRegistryState, ()),
        Error,
    > {
        if let Some(e) = self.role_error(caller, ADMIN_ROLE) {
            Err(e)
        } else if let Some(e) = Self::role_value_error(role) {
            Err(e)
        } else if account.spec_is_zero() {
            Err(Error::InvalidAddress(account))
        } else {
            Ok(
                (
                    AlertRegistryState {
                        roles: self.roles.insert(account, self.role_bits(account) | role),
                        ..self
                    }.emit(AlertRegistryEvent::RoleGranted { account, role, grantor: caller }),
                    (),
                ),
            )
        }
    }

    /// `revoke_role`: an administrator clears role bits of another account.
    pub open spec fn revoke_role_outcome(self, caller: Address, account: Address, role: u8) -> Result<
        (AlertRegistryState, ()),
        Error,
    > {
        if let Some(e) = self.role_error(caller, ADMIN_ROLE) {
            Err(e)
        } else if let Some(e) = Self::role_value_error(role) {
            Err(e)
        } else if account == caller {
            Err(Error::CannotRevokeOwnRole(account))
        } else {
            Ok(
                (
                    AlertRegistryState {
                        roles: self.roles.insert(account, self.role_bits(account) & !role),
                        ..self
                    }.emit(AlertRegistryEvent::RoleRevoked { account, role, revoker: caller }),
                    (),
                ),
            )
        }
    }

    /// `set_alert_expiration_duration`.
    pub open spec fn set_expiration_outcome(self, caller: Address, duration: U256) -> Result<
        (AlertRegistryState, ()),
        Error,
    > {
        if let Some(e) = self.role_error(caller, ADMIN_ROLE) {
            Err(e)
        } else if duration.value() == 0 {
            Err(Error::InvalidExpirationDuration { duration })
        } else {
            Ok(
                (
                    AlertRegistryState { alert_expiration_duration: duration, ..self }.emit(
                        AlertRegistryEvent::AlertExpirationUpdated {
                            old_duration: self.alert_expiration_duration,
                            new_duration: duration,
                        },
                    ),
                    (),
                ),
            )
        }
    }

    /// `set_detection_engine`.
    pub open spec fn set_detection_engine_outcome(self, caller: Address, addr: Address) -> Result<
        (AlertRegistryState, ()),
        Error,
    > {
        if let Some(e) = self.role_error(caller, ADMIN_ROLE) {
            Err(e)
        } else if addr.spec_is_zero() {
            Err(Error::InvalidAddress(addr))
        } else {
            Ok(
                (
                    AlertRegistryState { detection_engine: addr, ..self }.emit(
                        AlertRegistryEvent::DetectionEngineUpdated {
                            old_engine: self.detection_engine,
                            new_engine: addr,
                        },
                    ),
                    (),
                ),
            )
        }
    }
}


/// An alert registry contract: its storage and the events it emitted.
pub struct AlertRegistry {
    owner: Address,
    alerts: Vec<Alert>,
    roles: Table<Address, u8>,
    enhanced_alerts: Vec<EnhancedAlert>,
    subscribers: Table<Address, bool>,
    subscriber_count: U256,
    protocol_alert_count: Table<Address, U256>,
    priority_alert_counts: Table<U256, U256>,
    alert_expiration_duration: U256,
    detection_engine: Address,
    supported_interfaces: Vec<InterfaceId>,
    events: Vec<AlertRegistryEvent>,
}

impl View for AlertRegistry {
    type V = AlertRegistryState;

    closed spec fn view(&self) -> AlertRegistryState {
        AlertRegistryState {
            owner: self.owner,
            alerts: self.alerts@,
            roles: self.roles.view(),
            enhanced_alerts: self.enhanced_alerts@,
            subscribers: self.subscribers.view(),
            subscriber_count: self.subscriber_count,
            protocol_alert_count: self.protocol_alert_count.view(),
            priority_alert_counts: self.priority_alert_counts.view(),
            alert_expiration_duration: self.alert_expiration_duration,
            detection_engine: self.detection_engine,
            supported_interfaces: self.supported_interfaces@,
            events: self.events@,
        }
    }
}

impl AlertRegistry {
    /// Well-formedness: the tables are well formed and every stored role
    /// bitmask stays within `ALL_ROLES`.
    pub closed spec fn wf(&self) -> bool {
        &&& self.roles.wf()
        &&& self.subscribers.wf()
        &&& self.protocol_alert_count.wf()
        &&& self.priority_alert_counts.wf()
        &&& self@.roles_valid()
        &&& self@.counts_consistent()
    }

    /// A well-formed registry's counters agree with what they count, and it
    /// holds fewer alerts of each kind than fit in a `usize`.
    pub proof fn lemma_counts_consistent(&self)
        requires
            self.wf(),
        ensures
            self@.counts_consistent(),
            self@.alerts.len() <= usize::MAX,
            self@.enhanced_alerts.len() <= usize::MAX,
    {
        assert(self.alerts.len() == self@.alerts.len());
        assert(self.enhanced_alerts.len() == self@.enhanced_alerts.len());
    }

    /// The storage of a fresh deployment, before `init`.
    pub fn new() -> (r: AlertRegistry)
        ensures
            r.wf(),
            r@ == AlertRegistryState::fresh(),
    {
        let r = AlertRegistry {
            owner: Address::zero(),
            alerts: Vec::new(),
            roles: Table::new(),
            enhanced_alerts: Vec::new(),
            subscribers: Table::new(),
            subscriber_count: U256::zero(),
            protocol_alert_count: Table::new(),
            priority_alert_counts: Table::new(),
            alert_expiration_duration: U256::zero(),
            detection_engine: Address::zero(),
            supported_interfaces: Vec::new(),
            events: Vec::new(),
        };
        proof {
            assert(r@ =~= AlertRegistryState::fresh());
            crate::word::lemma_word_value(0);
            assert(r@.subscriber_set() =~= Set::<Address>::empty());
            assert(r@.enhanced_alerts.map_values(|a: EnhancedAlert| a.protocol) =~= Seq::<Address>::empty());
            assert(r@.enhanced_alerts.map_values(|a: EnhancedAlert| a.priority_level) =~= Seq::<U256>::empty());
            broadcast use vstd::seq_lib::group_to_multiset_ensures;
            assert(Seq::<Address>::empty().to_multiset() =~= Multiset::<Address>::empty());
            assert(Seq::<U256>::empty().to_multiset() =~= Multiset::<U256>::empty());
        }
        r
    }

    /// The events emitted so far, oldest first.
    pub fn events(&self) -> (r: &Vec<AlertRegistryEvent>)
        ensures
            r@ == self@.events,
    {
        &self.events
    }

    fn role_bits(&self, a: &Address) -> (r: u8)
        requires
            self.wf(),
        ensures
            r == self@.role_bits(*a),
    {
        match self.roles.get(a) {
            Some(v) => v,
            None => 0,
        }
    }

    fn require_role(&self, caller: &Address, role: u8) -> (r: Result<(), Error>)
        requires
            self.wf(),
        ensures
            match self@.role_error(*caller, role) {
                None => r is Ok,
                Some(e) => r matches Err(e2) && e2 == e,
            },
    {
        if caller.same(&self.owner) {
            return Ok(());
        }
        if role == MONITOR_ROLE {
            if !self.detection_engine.is_zero() && caller.same(&self.detection_engine) {
                return Ok(());
            }
        }
        if (self.role_bits(caller) & role) == role {
            return Ok(());
        }
        Err(Error::InsufficientRole { caller: *caller, required_role: role })
    }

    /// The priority of a threat level: `PRIORITY_CRITICAL` from 90,
    /// `PRIORITY_HIGH` from 70, `PRIORITY_MEDIUM` from 40, else `PRIORITY_LOW`.
    pub fn compute_priority(threat_level: U256) -> (r: U256)
        ensures
            r.value() == priority_of(threat_level.value()),
            r == word(priority_of(threat_level.value())),
    {
        let level = threat_level.saturating_to_u64();
        if level >= THRESHOLD_CRITICAL {
            U256::from_u64(PRIORITY_CRITICAL)
        } else if level >= THRESHOLD_HIGH {
            U256::from_u64(PRIORITY_HIGH)
        } else if level >= THRESHOLD_MEDIUM {
            U256::from_u64(PRIORITY_MEDIUM)
        } else {
            U256::from_u64(PRIORITY_LOW)
        }
    }

    /// The position of the enhanced alert `id`, where it names one.
    fn alert_index(&self, id: &U256) -> (r: Option<usize>)
        ensures
            self@.valid_id(*id) ==> r is Some && r->0 as int == id.value() - 1,
            r is Some ==> r->0 < self@.enhanced_alerts.len(),
            !self@.valid_id(*id) ==> r is None,
    {
        let count = U256::from_usize(self.enhanced_alerts.len());
        if id.is_zero() || id.gt(&count) {
            return None;
        }
        match id.try_to_usize() {
            Some(i) => Some(i - 1),
            None => None,
        }
    }

    fn is_subscribed(&self, a: &Address) -> (r: bool)
        requires
            self.wf(),
        ensures
            r == self@.is_subscriber(*a),
    {
        match self.subscribers.get(a) {
            Some(v) => v,
            None => false,
        }
    }

    fn protocol_count_of(&self, p: &Address) -> (r: U256)
        requires
            self.wf(),
        ensures
            r == self@.protocol_count_of(*p),
    {
        match self.protocol_alert_count.get(p) {
            Some(v) => v,
            None => U256::zero(),
        }
    }

    fn priority_count_of(&self, level: &U256) -> (r: U256)
        requires
            self.wf(),
        ensures
            r == self@.priority_count_of(*level),
    {
        match self.priority_alert_counts.get(level) {
            Some(v) => v,
            None => U256::zero(),
        }
    }

    /// Initializes the contract: the caller becomes the owner with every role;
    /// the default expiration and the ERC-165 identifier are set up.
    pub fn init(&mut self, caller: &Address) -> (r: Result<(), Error>)
        requires
            old(self).wf(),
        ensures
            final(self).wf(),
            applied(old(self)@, final(self)@, r, old(self)@.init_outcome(*caller)),
    {
        if !self.owner.is_zero() {
            return Err(Error::InvalidOwner(self.owner));
        }
        self.owner = *caller;
        self.roles.set(*caller, ALL_ROLES);
        self.alert_expiration_duration = U256::from_u64(DEFAULT_EXPIRATION);
        self.supported_interfaces.push(ERC165_INTERFACE_ID);
        proof {
            assert(ALL_ROLES & !ALL_ROLES == 0) by (bit_vector);
            assert forall|a: Address| #[trigger] self@.roles.contains_key(a) implies self@.roles[a]
                & !ALL_ROLES == 0 by {
                if a != *caller {
                    assert(old(self)@.roles.contains_key(a));
                }
            }
            assert(self@ =~= old(self)@.init_outcome(*caller)->Ok_0.0);
            lemma_counts_frame(old(self)@, self@);
        }
        Ok(())
    }

    /// Records a simple alert from a non-zero source at time `now`; returns
    /// its identifier, its position among the simple alerts.
    pub fn register_alert(&mut self, severity: u8, source: Address, message_hash: Hash32, now: u64) -> (r:
        Result<U256, Error>)
        requires
            old(self).wf(),
        ensures
            final(self).wf(),
            applied(
                old(self)@,
                final(self)@,
                r,
                old(self)@.register_alert_outcome(severity, source, message_hash, now),
            ),
            r matches Ok(id) ==> final(self)@.alert_at(id) == Ok::<(U256, u8, Address, Hash32), Error>(
                (word(now as nat), severity, source, message_hash),
            ),
    {
        if source.is_zero() {
            return Err(Error::InvalidAlert);
        }
        let timestamp = U256::from_u64(now);
        let id = U256::from_usize(self.alerts.len());
        self.alerts.push(Alert { timestamp, severity, source, message_hash });
        self.events.push(
            AlertRegistryEvent::AlertRegistered { id, timestamp, severity, source, message_hash },
        );
        proof {
            assert(self@ =~= old(self)@.register_alert_outcome(
                severity,
                source,
                message_hash,
                now,
            )->Ok_0.0);
            lemma_counts_frame(old(self)@, self@);
        }
        Ok(id)
    }

    /// The timestamp, severity, source and message hash of a simple alert.
    pub fn get_alert(&self, id: U256) -> (r: Result<(U256, u8, Address, Hash32), Error>)
        ensures
            r == self@.alert_at(id),
    {
        let len = self.alerts.len();
        let index = match id.try_to_usize() {
            Some(i) => i,
            None => {
                return Err(Error::AlertNotFound { id });
            },
        };
        if index >= len {
            return Err(Error::AlertNotFound { id });
        }
        let a = self.alerts[index];
        Ok((a.timestamp, a.severity, a.source, a.message_hash))
    }

    /// The number of simple alerts.
    pub fn get_alert_count(&self) -> (r: U256)
        ensures
            r == word(self@.alerts.len()),
    {
        U256::from_usize(self.alerts.len())
    }

    /// The owner.
    pub fn owner(&self) -> (r: Address)
        ensures
            r == self@.owner,
    {
        self.owner
    }

    /// Hands the contract to a new, non-zero owner (owner only).
    pub fn transfer_ownership(&mut self, caller: &Address, new_owner: Address) -> (r: Result<(), Error>)
        requires
            old(self).wf(),
        ensures
            final(self).wf(),
            applied(
                old(self)@,
                final(self)@,
                r,
                old(self)@.transfer_ownership_outcome(*caller, new_owner),
            ),
    {
        if !caller.same(&self.owner) {
            return Err(Error::UnauthorizedCaller(*caller));
        }
        if new_owner.is_zero() {
            return Err(Error::InvalidOwner(new_owner));
        }
        let previous_owner = self.owner;
        self.owner = new_owner;
        self.events.push(AlertRegistryEvent::OwnershipTransferred { previous_owner, new_owner });
        proof {
            assert(self@ =~= old(self)@.transfer_ownership_outcome(*caller, new_owner)->Ok_0.0);
            lemma_counts_frame(old(self)@, self@);
        }
        Ok(())
    }

    /// Records an enhanced alert on a non-zero protocol with a threat level of
    /// at most 100 (monitor, detection engine or owner); returns its identifier.
    pub fn register_enhanced_alert(
        &mut self,
        caller: &Address,
        protocol: Address,
        threat_level: U256,
        pattern_matched: U256,
        message_hash: Hash32,
        source: Address,
        now: u64,
    ) -> (r: Result<U256, Error>)
        requires
            old(self).wf(),
        ensures
            final(self).wf(),
            applied(
                old(self)@,
                final(self)@,
                r,
                old(self)@.register_enhanced_outcome(
                    *caller,
                    protocol,
                    threat_level,
                    pattern_matched,
                    message_hash,
                    source,
                    now,
                ),
            ),
            r matches Ok(id) ==> final(self)@.enhanced_alert_at(id) == Ok::<
                (Address, U256, U256, U256, U256, bool, Hash32, Address),
                Error,
            >(
                (
                    protocol,
                    threat_level,
                    pattern_matched,
                    word(now as nat),
                    word(priority_of(threat_level.value())),
                    false,
                    message_hash,
                    source,
                ),
            ),
    {
        match self.require_role(caller, MONITOR_ROLE) {
            Err(e) => return Err(e),
            Ok(()) => {},
        }
        if protocol.is_zero() {
            return Err(Error::InvalidAddress(protocol));
        }
        if threat_level.gt(&U256::from_u64(MAX_THREAT_LEVEL)) {
            return Err(Error::InvalidAlert);
        }
        let priority_level = Self::compute_priority(threat_level);
        let timestamp = U256::from_u64(now);
        let count = U256::from_usize(self.enhanced_alerts.len());
        let alert_id = count.saturating_add(&U256::from_u64(1));
        let proto_count = self.protocol_count_of(&protocol).saturating_add(&U256::from_u64(1));
        let prio_count = self.priority_count_of(&priority_level).saturating_add(&U256::from_u64(1));
        self.enhanced_alerts.push(
            EnhancedAlert {
                protocol,
                threat_level,
                pattern_matched,
                timestamp,
                priority_level,
                acknowledged: false,
                acknowledged_by: Address::zero(),
                acknowledged_at: U256::zero(),
                message_hash,
                source,
            },
        );
        self.protocol_alert_count.set(protocol, proto_count);
        self.priority_alert_counts.set(priority_level, prio_count);
        self.events.push(
            AlertRegistryEvent::EnhancedAlertRegistered {
                id: alert_id,
                protocol,
                threat_level,
                priority_level,
                pattern_matched,
            },
        );
        if priority_level.ge(&U256::from_u64(PRIORITY_HIGH)) {
            self.events.push(
                AlertRegistryEvent::HighThreatAlertEmitted { id: alert_id, protocol, threat_level },
            );
        }
        if priority_level.ge(&U256::from_u64(PRIORITY_CRITICAL)) {
            self.events.push(
                AlertRegistryEvent::CriticalAlertEmitted { id: alert_id, protocol, threat_level },
            );
        }
        proof {
            assert(self@ =~= old(self)@.register_enhanced_outcome(
                *caller,
                protocol,
                threat_level,
                pattern_matched,
                message_hash,
                source,
                now,
            )->Ok_0.0);
            assert(self.enhanced_alerts.len() == self@.enhanced_alerts.len());
            lemma_counts_register(old(self)@, self@, self@.enhanced_alerts.last());
        }
        Ok(alert_id)
    }

    /// The protocol, threat level, matched patterns, timestamp, priority,
    /// acknowledgment, message hash and source of an enhanced alert.
    pub fn get_enhanced_alert(&self, id: U256) -> (r: Result<
        (Address, U256, U256, U256, U256, bool, Hash32, Address),
        Error,
    >)
        ensures
            r == self@.enhanced_alert_at(id),
    {
        let index = match self.alert_index(&id) {
            Some(i) => i,
            None => {
                return Err(Error::AlertNotFound { id });
            },
        };
        let a = self.enhanced_alerts[index];
        Ok(
            (
                a.protocol,
                a.threat_level,
                a.pattern_matched,
                a.timestamp,
                a.priority_level,
                a.acknowledged,
                a.message_hash,
                a.source,
            ),
        )
    }

    /// The number of enhanced alerts, which is also the latest identifier.
    pub fn get_enhanced_alert_count(&self) -> (r: U256)
        ensures
            r == word(self@.enhanced_alerts.len()),
            r.value() == self@.enhanced_alerts.len(),
    {
        proof {
            crate::word::lemma_word_value(self.enhanced_alerts.len() as nat);
        }
        U256::from_usize(self.enhanced_alerts.len())
    }

    /// Marks an unacknowledged enhanced alert as acknowledged at time `now`
    /// (the alert's protocol or an administrator).
    pub fn acknowledge_alert(&mut self, caller: &Address, id: U256, now: u64) -> (r: Result<(), Error>)
        requires
            old(self).wf(),
        ensures
            final(self).wf(),
            applied(old(self)@, final(self)@, r, old(self)@.acknowledge_outcome(*caller, id, now)),
    {
        let index = match self.alert_index(&id) {
            Some(i) => i,
            None => {
                return Err(Error::AlertNotFound { id });
            },
        };
        let a = self.enhanced_alerts[index];
        if a.acknowledged {
            return Err(Error::AlertAlreadyAcknowledged { id });
        }
        let is_protocol = caller.same(&a.protocol);
        let is_admin = self.has_role(*caller, ADMIN_ROLE);
        if !is_protocol && !is_admin {
            return Err(Error::NotAlertProtocol { caller: *caller, id });
        }
        self.enhanced_alerts.set(
            index,
            EnhancedAlert {
                acknowledged: true,
                acknowledged_by: *caller,
                acknowledged_at: U256::from_u64(now),
                ..a
            },
        );
        self.events.push(
            AlertRegistryEvent::AlertAcknowledged { id, protocol: a.protocol, acknowledger: *caller },
        );
        proof {
            assert(self@ =~= old(self)@.acknowledge_outcome(*caller, id, now)->Ok_0.0);
            lemma_counts_frame(old(self)@, self@);
        }
        Ok(())
    }

    /// Whether an enhanced alert is acknowledged (false where `id` names none).
    pub fn is_alert_acknowledged(&self, id: U256) -> (r: bool)
        ensures
            r == self@.acknowledged_at_id(id),
    {
        match self.alert_index(&id) {
            Some(i) => self.enhanced_alerts[i].acknowledged,
            None => false,
        }
    }

    /// Subscribes a non-zero address (administrator or owner).
    pub fn add_subscriber(&mut self, caller: &Address, addr: Address) -> (r: Result<(), Error>)
        requires
            old(self).wf(),
        ensures
            final(self).wf(),
            applied(old(self)@, final(self)@, r, old(self)@.add_subscriber_outcome(*caller, addr)),
            r is Ok ==> final(self)@.subscriber_count.value() == old(self)@.subscriber_count.value() + 1,
    {
        match self.require_role(caller, ADMIN_ROLE) {
            Err(e) => return Err(e),
            Ok(()) => {},
        }
        if addr.is_zero() {
            return Err(Error::InvalidSubscriber(addr));
        }
        if self.is_subscribed(&addr) {
            return Err(Error::AlreadySubscribed(addr));
        }
        self.subscribers.set(addr, true);
        self.subscriber_count = self.subscriber_count.saturating_add(&U256::from_u64(1));
        self.events.push(AlertRegistryEvent::SubscriberAdded { subscriber: addr, grantor: *caller });
        proof {
            assert(self@ =~= old(self)@.add_subscriber_outcome(*caller, addr)->Ok_0.0);
            self.subscribers.lemma_dom_bounded();
            lemma_counts_subscriber(old(self)@, self@, addr, true);
        }
        Ok(())
    }

    /// Unsubscribes a subscribed address (administrator or owner).
    pub fn remove_subscriber(&mut self, caller: &Address, addr: Address) -> (r: Result<(), Error>)
        requires
            old(self).wf(),
        ensures
            final(self).wf(),
            applied(old(self)@, final(self)@, r, old(self)@.remove_subscriber_outcome(*caller, addr)),
            r is Ok ==> final(self)@.subscriber_count.value() + 1 == old(self)@.subscriber_count.value(),
    {
        match self.require_role(caller, ADMIN_ROLE) {
            Err(e) => return Err(e),
            Ok(()) => {},
        }
        if !self.is_subscribed(&addr) {
            return Err(Error::NotSubscribed(addr));
        }
        self.subscribers.set(addr, false);
        self.subscriber_count = self.subscriber_count.saturating_sub(&U256::from_u64(1));
        self.events.push(AlertRegistryEvent::SubscriberRemoved { subscriber: addr, revoker: *caller });
        proof {
            assert(self@ =~= old(self)@.remove_subscriber_outcome(*caller, addr)->Ok_0.0);
            self.subscribers.lemma_dom_bounded();
            lemma_counts_subscriber(old(self)@, self@, addr, false);
        }
        Ok(())
    }

    /// Whether an address is subscribed.
    pub fn is_subscriber(&self, addr: Address) -> (r: bool)
        requires
            self.wf(),
        ensures
            r == self@.is_subscriber(addr),
    {
        self.is_subscribed(&addr)
    }

    /// The subscriber count.
    pub fn get_subscriber_count(&self) -> (r: U256)
        requires
            self.wf(),
        ensures
            r == self@.subscriber_count,
            r.value() == self@.subscriber_set().len(),
            self@.subscriber_set().finite(),
    {
        self.subscriber_count
    }

    /// The number of enhanced alerts of a protocol.
    pub fn get_protocol_alert_count(&self, protocol: Address) -> (r: U256)
        requires
            self.wf(),
        ensures
            r == self@.protocol_count_of(protocol),
            r.value() == self@.alert_protocols().count(protocol),
    {
        self.protocol_count_of(&protocol)
    }

    /// The number of enhanced alerts of a priority level.
    pub fn get_priority_alert_count(&self, priority_level: U256) -> (r: U256)
        requires
            self.wf(),
        ensures
            r == self@.priority_count_of(priority_level),
            r.value() == self@.alert_priorities().count(priority_level),
    {
        self.priority_count_of(&priority_level)
    }

    /// Whether an enhanced alert has expired at time `now`.
    pub fn is_alert_expired(&self, id: U256, now: u64) -> (r: Result<bool, Error>)
        ensures
            r == self@.expired_at_id(id, now),
    {
        let index = match self.alert_index(&id) {
            Some(i) => i,
            None => {
                return Err(Error::AlertNotFound { id });
            },
        };
        let alert_timestamp = self.enhanced_alerts[index].timestamp;
        Ok(self.is_expired(&alert_timestamp, now))
    }

    fn is_expired(&self, alert_timestamp: &U256, now: u64) -> (r: bool)
        ensures
            r == self@.expired(*alert_timestamp, now),
    {
        let expiration = self.alert_expiration_duration;
        if expiration.is_zero() {
            return false;
        }
        let elapsed = U256::from_u64(now).saturating_sub(alert_timestamp);
        elapsed.gt(&expiration)
    }

    fn validate_role(role: u8) -> (r: Result<(), Error>)
        ensures
            match AlertRegistryState::role_value_error(role) {
                None => r is Ok,
                Some(e) => r matches Err(e2) && e2 == e,
            },
    {
        if role == 0 || (role & !ALL_ROLES) != 0 {
            return Err(Error::InvalidRole(role));
        }
        Ok(())
    }

    /// Sets role bits of a non-zero account (administrator or owner).
    pub fn grant_role(&mut self, caller: &Address, account: Address, role: u8) -> (r: Result<
        (),
        Error,
    >)
        requires
            old(self).wf(),
        ensures
            final(self).wf(),
            applied(
                old(self)@,
                final(self)@,
                r,
                old(self)@.grant_role_outcome(*caller, account, role),
            ),
    {
        match self.require_role(caller, ADMIN_ROLE) {
            Err(e) => return Err(e),
            Ok(()) => {},
        }
        match Self::validate_role(role) {
            Err(e) => return Err(e),
            Ok(()) => {},
        }
        if account.is_zero() {
            return Err(Error::InvalidAddress(account));
        }
        let current = self.role_bits(&account);
        let updated = current | role;
        proof {
            if old(self)@.roles.contains_key(account) {
                assert(old(self)@.roles[account] & !ALL_ROLES == 0);
            } else {
                assert(0u8 & !3u8 == 0) by (bit_vector);
            }
            assert(updated & !3u8 == 0) by (bit_vector)
                requires
                    current & !3u8 == 0,
                    role & !3u8 == 0,
                    updated == current | role,
            ;
        }
        self.roles.set(account, updated);
        self.events.push(AlertRegistryEvent::RoleGranted { account, role, grantor: *caller });
        proof {
            assert forall|a: Address| #[trigger] self@.roles.contains_key(a) implies self@.roles[a]
                & !ALL_ROLES == 0 by {
                if a != account {
                    assert(old(self)@.roles.contains_key(a));
                }
            }
            assert(self@ =~= old(self)@.grant_role_outcome(*caller, account, role)->Ok_0.0);
            lemma_counts_frame(old(self)@, self@);
        }
        Ok(())
    }

    /// Clears role bits of an account other than the caller (administrator or
    /// owner).
    pub fn revoke_role(&mut self, caller: &Address, account: Address, role: u8) -> (r: Result<
        (),
        Error,
    >)
        requires
            old(self).wf(),
        ensures
            final(self).wf(),
            applied(
                old(self)@,
                final(self)@,
                r,
                old(self)@.revoke_role_outcome(*caller, account, role),
            ),
    {
        match self.require_role(caller, ADMIN_ROLE) {
            Err(e) => return Err(e),
            Ok(()) => {},
        }
        match Self::validate_role(role) {
            Err(e) => return Err(e),
            Ok(()) => {},
        }
        if account.same(caller) {
            return Err(Error::CannotRevokeOwnRole(account));
        }
        let current = self.role_bits(&account);
        let updated = current & !role;
        proof {
            if old(self)@.roles.contains_key(account) {
                assert(old(self)@.roles[account] & !ALL_ROLES == 0);
            } else {
                assert(0u8 & !3u8 == 0) by (bit_vector);
            }
            assert(updated & !3u8 == 0) by (bit_vector)
                requires
                    current & !3u8 == 0,
                    updated == current & !role,
            ;
        }
        self.roles.set(account, updated);
        self.events.push(AlertRegistryEvent::RoleRevoked { account, role, revoker: *caller });
        proof {
            assert forall|a: Address| #[trigger] self@.roles.contains_key(a) implies self@.roles[a]
                & !ALL_ROLES == 0 by {
                if a != account {
                    assert(old(self)@.roles.contains_key(a));
                }
            }
            assert(self@ =~= old(self)@.revoke_role_outcome(*caller, account, role)->Ok_0.0);
            lemma_counts_frame(old(self)@, self@);
        }
        Ok(())
    }

    /// Whether an account holds every bit of `role`; the owner holds all.
    pub fn has_role(&self, account: Address, role: u8) -> (r: bool)
        requires
            self.wf(),
        ensures
            r == self@.has_role(account, role),
    {
        if account.same(&self.owner) {
            return true;
        }
        (self.role_bits(&account) & role) == role
    }

    /// The stored role bitmask of an account.
    pub fn get_roles(&self, account: Address) -> (r: u8)
        requires
            self.wf(),
        ensures
            r == self@.role_bits(account),
    {
        self.role_bits(&account)
    }

    /// Sets a non-zero alert expiration duration (administrator or owner).
    pub fn set_alert_expiration_duration(&mut self, caller: &Address, duration: U256) -> (r: Result<
        (),
        Error,
    >)
        requires
            old(self).wf(),
        ensures
            final(self).wf(),
            applied(old(self)@, final(self)@, r, old(self)@.set_expiration_outcome(*caller, duration)),
    {
        match self.require_role(caller, ADMIN_ROLE) {
            Err(e) => return Err(e),
            Ok(()) => {},
        }
        if duration.is_zero() {
            return Err(Error::InvalidExpirationDuration { duration });
        }
        let old_duration = self.alert_expiration_duration;
        self.alert_expiration_duration = duration;
        self.events.push(
            AlertRegistryEvent::AlertExpirationUpdated { old_duration, new_duration: duration },
        );
        proof {
            assert(self@ =~= old(self)@.set_expiration_outcome(*caller, duration)->Ok_0.0);
            lemma_counts_frame(old(self)@, self@);
        }
        Ok(())
    }

    /// The alert expiration duration.
    pub fn get_alert_expiration_duration(&self) -> (r: U256)
        ensures
            r == self@.alert_expiration_duration,
    {
        self.alert_expiration_duration
    }

    /// Sets the detection engine, a non-zero address that then holds the
    /// monitor role (administrator or owner).
    pub fn set_detection_engine(&mut self, caller: &Address, addr: Address) -> (r: Result<(), Error>)
        requires
            old(self).wf(),
        ensures
            final(self).wf(),
            applied(
                old(self)@,
                final(self)@,
                r,
                old(self)@.set_detection_engine_outcome(*caller, addr),
            ),
    {
        match self.require_role(caller, ADMIN_ROLE) {
            Err(e) => return Err(e),
            Ok(()) => {},
        }
        if addr.is_zero() {
            return Err(Error::InvalidAddress(addr));
        }
        let old_engine = self.detection_engine;
        self.detection_engine = addr;
        self.events.push(AlertRegistryEvent::DetectionEngineUpdated { old_engine, new_engine: addr });
        proof {
            assert(self@ =~= old(self)@.set_detection_engine_outcome(*caller, addr)->Ok_0.0);
            lemma_counts_frame(old(self)@, self@);
        }
        Ok(())
    }

    /// The detection engine address.
    pub fn get_detection_engine(&self) -> (r: Address)
        ensures
            r == self@.detection_engine,
    {
        self.detection_engine
    }

    /// Whether an interface identifier is registered (ERC-165).
    pub fn supports_interface(&self, interface_id: InterfaceId) -> (r: bool)
        ensures
            r == self@.supported_interfaces.contains(interface_id),
    {
        let n = self.supported_interfaces.len();
        let mut i: usize = 0;
        while i < n
            invariant
                n == self@.supported_interfaces.len(),
                0 <= i <= n,
                forall|j: int| 0 <= j < i ==> self@.supported_interfaces[j] != interface_id,
            decreases n - i,
        {
            if same_interface_id(&self.supported_interfaces[i], &interface_id) {
                proof {
                    assert(self@.supported_interfaces[i as int] == interface_id);
                }
                return true;
            }
            i = i + 1;
        }
        false
    }
}


impl Error {
    /// The Solidity signature of the error.
    pub open spec fn signature(self) -> Seq<char> {
        match self {
            Error::AlertNotFound { id } => "AlertNotFound(uint256)"@,
            Error::InvalidAlert => "InvalidAlert()"@,
            Error::UnauthorizedCaller(a) => "UnauthorizedCaller(address)"@,
            Error::InvalidOwner(a) => "InvalidOwner(address)"@,
            Error::InsufficientRole { caller, required_role } => "InsufficientRole(address,uint8)"@,
            Error::InvalidRole(r) => "InvalidRole(uint8)"@,
            Error::CannotRevokeOwnRole(a) => "CannotRevokeOwnRole(address)"@,
            Error::AlreadySubscribed(a) => "AlreadySubscribed(address)"@,
            Error::NotSubscribed(a) => "NotSubscribed(address)"@,
            Error::InvalidSubscriber(a) => "InvalidSubscriber(address)"@,
            Error::AlertAlreadyAcknowledged { id } => "AlertAlreadyAcknowledged(uint256)"@,
            Error::NotAlertProtocol { caller, id } => "NotAlertProtocol(address,uint256)"@,
            Error::InvalidPriorityLevel { level } => "InvalidPriorityLevel(uint256)"@,
            Error::BatchSizeTooLarge { size, max } => "BatchSizeTooLarge(uint256,uint256)"@,
            Error::InvalidExpirationDuration { duration } => "InvalidExpirationDuration(uint256)"@,
            Error::InvalidAddress(a) => "InvalidAddress(address)"@,
            Error::UnsupportedInterface(b) => "UnsupportedInterface(bytes4)"@,
        }
    }

    /// The ABI parameters of the error, in declaration order.
    pub open spec fn abi_params(self) -> Seq<AbiParam> {
        match self {
            Error::AlertNotFound { id } => seq![AbiParam::Uint256(id)],
            Error::InvalidAlert => seq![],
            Error::UnauthorizedCaller(a) => seq![AbiParam::Address(a)],
            Error::InvalidOwner(a) => seq![AbiParam::Address(a)],
            Error::InsufficientRole { caller, required_role } => seq![
                AbiParam::Address(caller),
                AbiParam::Uint8(required_role),
            ],
            Error::InvalidRole(r) => seq![AbiParam::Uint8(r)],
            Error::CannotRevokeOwnRole(a) => seq![AbiParam::Address(a)],
            Error::AlreadySubscribed(a) => seq![AbiParam::Address(a)],
            Error::NotSubscribed(a) => seq![AbiParam::Address(a)],
            Error::InvalidSubscriber(a) => seq![AbiParam::Address(a)],
            Error::AlertAlreadyAcknowledged { id } => seq![AbiParam::Uint256(id)],
            Error::NotAlertProtocol { caller, id } => seq![
                AbiParam::Address(caller),
                AbiParam::Uint256(id),
            ],
            Error::InvalidPriorityLevel { level } => seq![AbiParam::Uint256(level)],
            Error::BatchSizeTooLarge { size, max } => seq![
                AbiParam::Uint256(size),
                AbiParam::Uint256(max),
            ],
            Error::InvalidExpirationDuration { duration } => seq![AbiParam::Uint256(duration)],
            Error::InvalidAddress(a) => seq![AbiParam::Address(a)],
            Error::UnsupportedInterface(b) => seq![AbiParam::Bytes4(b)],
        }
    }

    fn abi_parts(&self) -> (r: (&'static str, Vec<AbiParam>))
        ensures
            r.0@ == self.signature(),
            r.1@ == self.abi_params(),
    {
        match self {
            Error::AlertNotFound { id } => ("AlertNotFound(uint256)", vec![AbiParam::Uint256(*id)]),
            Error::InvalidAlert => ("InvalidAlert()", Vec::new()),
            Error::UnauthorizedCaller(a) => (
                "UnauthorizedCaller(address)",
                vec![
                    AbiParam::Address(*a),
                ],
            ),
            Error::InvalidOwner(a) => ("InvalidOwner(address)", vec![AbiParam::Address(*a)]),
            Error::InsufficientRole { caller, required_role } => (
                "InsufficientRole(address,uint8)",
                vec![
                    AbiParam::Address(*caller),
                    AbiParam::Uint8(*required_role),
                ],
            ),
            Error::InvalidRole(r) => ("InvalidRole(uint8)", vec![AbiParam::Uint8(*r)]),
            Error::CannotRevokeOwnRole(a) => (
                "CannotRevokeOwnRole(address)",
                vec![
                    AbiParam::Address(*a),
                ],
            ),
            Error::AlreadySubscribed(a) => (
                "AlreadySubscribed(address)",
                vec![
                    AbiParam::Address(*a),
                ],
            ),
            Error::NotSubscribed(a) => ("NotSubscribed(address)", vec![AbiParam::Address(*a)]),
            Error::InvalidSubscriber(a) => (
                "InvalidSubscriber(address)",
                vec![
                    AbiParam::Address(*a),
                ],
            ),
            Error::AlertAlreadyAcknowledged { id } => (
                "AlertAlreadyAcknowledged(uint256)",
                vec![
                    AbiParam::Uint256(*id),
                ],
            ),
            Error::NotAlertProtocol { caller, id } => (
                "NotAlertProtocol(address,uint256)",
                vec![
                    AbiParam::Address(*caller),
                    AbiParam::Uint256(*id),
                ],
            ),
            Error::InvalidPriorityLevel { level } => (
                "InvalidPriorityLevel(uint256)",
                vec![
                    AbiParam::Uint256(*level),
                ],
            ),
            Error::BatchSizeTooLarge { size, max } => (
                "BatchSizeTooLarge(uint256,uint256)",
                vec![
                    AbiParam::Uint256(*size),
                    AbiParam::Uint256(*max),
                ],
            ),
            Error::InvalidExpirationDuration { duration } => (
                "InvalidExpirationDuration(uint256)",
                vec![
                    AbiParam::Uint256(*duration),
                ],
            ),
            Error::InvalidAddress(a) => ("InvalidAddress(address)", vec![AbiParam::Address(*a)]),
            Error::UnsupportedInterface(b) => (
                "UnsupportedInterface(bytes4)",
                vec![
                    AbiParam::Bytes4(*b),
                ],
            ),
        }
    }

    /// The ABI encoding of the error: the selector of its signature, then one
    /// 32-byte word per parameter.
    pub fn abi_encode(&self) -> (r: Vec<u8>)
        ensures
            r@ == error_encoding(self.signature(), self.abi_params()),
            r@.len() == 4 + 32 * self.abi_params().len(),
            r@.take(4) == selector(self.signature()),
            r@.skip(4) == params_bytes(self.abi_params()),
    {
        let (signature, params) = self.abi_parts();
        encode_error(signature, &params)
    }
}

} // verus!
