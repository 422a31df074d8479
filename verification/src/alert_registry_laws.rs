//! What every alert registry operation keeps.
use vstd::prelude::*;

use crate::address::{Address, Hash32};
use crate::alert_registry::{
    ADMIN_ROLE,
    AlertRegistryEvent,
    AlertRegistryState,
    THRESHOLD_CRITICAL,
    THRESHOLD_HIGH,
    EnhancedAlert,
    Error,
    priority_of,
    PRIORITY_CRITICAL,
    PRIORITY_LOW,
};
use crate::word::{U256, sat_sub, word, word_max};
use vstd::multiset::Multiset;

verus! {

/// A mutating alert registry operation with its arguments.
pub enum AlertRegistryOp {
    Init,
    RegisterAlert(u8, Address, Hash32),
    TransferOwnership(Address),
    RegisterEnhancedAlert(Address, U256, U256, Hash32, Address),
    AcknowledgeAlert(U256),
    AddSubscriber(Address),
    RemoveSubscriber(Address),
    GrantRole(Address, u8),
    RevokeRole(Address, u8),
    SetAlertExpirationDuration(U256),
    SetDetectionEngine(Address),
}

/// The state after an operation called by `caller` at block time `now`, or
/// its error.
pub open spec fn apply_op(s: AlertRegistryState, caller: Address, now: u64, op: AlertRegistryOp) -> Result<
    AlertRegistryState,
    Error,
> {
    match op {
        AlertRegistryOp::Init => match s.init_outcome(caller) {
            Ok((t, _)) => Ok(t),
            Err(e) => Err(e),
        },
        AlertRegistryOp::RegisterAlert(severity, source, hash) => match s.register_alert_outcome(
            severity,
            source,
            hash,
            now,
        ) {
            Ok((t, _)) => Ok(t),
            Err(e) => Err(e),
        },
        AlertRegistryOp::TransferOwnership(a) => match s.transfer_ownership_outcome(caller, a) {
            Ok((t, _)) => Ok(t),
            Err(e) => Err(e),
        },
        AlertRegistryOp::RegisterEnhancedAlert(protocol, level, pattern, hash, source) => {
            match s.register_enhanced_outcome(caller, protocol, level, pattern, hash, source, now) {
                Ok((t, _)) => Ok(t),
                Err(e) => Err(e),
            }
        },
        AlertRegistryOp::AcknowledgeAlert(id) => match s.acknowledge_outcome(caller, id, now) {
            Ok((t, _)) => Ok(t),
            Err(e) => Err(e),
        },
        AlertRegistryOp::AddSubscriber(a) => match s.add_subscriber_outcome(caller, a) {
            Ok((t, _)) => Ok(t),
            Err(e) => Err(e),
        },
        AlertRegistryOp::RemoveSubscriber(a) => match s.remove_subscriber_outcome(caller, a) {
            Ok((t, _)) => Ok(t),
            Err(e) => Err(e),
        },
        AlertRegistryOp::GrantRole(a, r) => match s.grant_role_outcome(caller, a, r) {
            Ok((t, _)) => Ok(t),
            Err(e) => Err(e),
        },
        AlertRegistryOp::RevokeRole(a, r) => match s.revoke_role_outcome(caller, a, r) {
            Ok((t, _)) => Ok(t),
            Err(e) => Err(e),
        },
        AlertRegistryOp::SetAlertExpirationDuration(d) => match s.set_expiration_outcome(caller, d) {
            Ok((t, _)) => Ok(t),
            Err(e) => Err(e),
        },
        AlertRegistryOp::SetDetectionEngine(a) => match s.set_detection_engine_outcome(caller, a) {
            Ok((t, _)) => Ok(t),
            Err(e) => Err(e),
        },
    }
}

/// Alerts are never removed: both alert counts never decrease and grow by at
/// most one per operation; existing simple alerts never change.
pub proof fn law_alert_counts_monotonic(s: AlertRegistryState, caller: Address, now: u64, op: AlertRegistryOp)
    ensures
        apply_op(s, caller, now, op) matches Ok(t) ==> {
            &&& s.alerts.len() <= t.alerts.len() <= s.alerts.len() + 1
            &&& s.enhanced_alerts.len() <= t.enhanced_alerts.len() <= s.enhanced_alerts.len() + 1
            &&& forall|i: int| 0 <= i < s.alerts.len() ==> #[trigger] t.alerts[i] == s.alerts[i]
        },
{
}

/// A simple alert's identifier is its position among the simple alerts
/// (short of 2^256 alerts).
pub proof fn law_alert_ids(s: AlertRegistryState, now: u64, severity: u8, hash: Hash32, source: Address)
    requires
        s.alerts.len() <= word_max(),
    ensures
        s.register_alert_outcome(severity, source, hash, now) matches Ok((t, id)) ==> id.value()
            == s.alerts.len() && t.alerts.len() == s.alerts.len() + 1,
{
    crate::word::lemma_word_value(s.alerts.len());
}

/// An enhanced alert's identifier is the new enhanced alert count (short of
/// 2^256 - 1 alerts).
pub proof fn law_enhanced_alert_ids(
    s: AlertRegistryState,
    caller: Address,
    now: u64,
    protocol: Address,
    threat_level: U256,
    pattern: U256,
    hash: Hash32,
    source: Address,
)
    requires
        s.enhanced_alerts.len() < word_max(),
    ensures
        s.register_enhanced_outcome(caller, protocol, threat_level, pattern, hash, source, now) matches Ok(
            (t, id),
        ) ==> id.value() == s.enhanced_alerts.len() + 1 && t.enhanced_alerts.len() == id.value(),
{
    crate::word::lemma_word_value(s.enhanced_alerts.len() + 1);
}

/// Enhanced alert identifiers strictly increase: after one registration and
/// any operation, the next registration gets a larger identifier.
pub proof fn law_enhanced_ids_increase(
    s: AlertRegistryState,
    caller: Address,
    now: u64,
    protocol: Address,
    threat_level: U256,
    pattern: U256,
    hash: Hash32,
    source: Address,
    op: AlertRegistryOp,
    caller2: Address,
    now2: u64,
    protocol2: Address,
    threat_level2: U256,
    pattern2: U256,
    hash2: Hash32,
    source2: Address,
)
    requires
        s.enhanced_alerts.len() + 2 < word_max(),
    ensures
        s.register_enhanced_outcome(caller, protocol, threat_level, pattern, hash, source, now) matches Ok(
            (s1, id1),
        ) ==> apply_op(s1, caller, now, op) matches Ok(s2) ==> s2.register_enhanced_outcome(
            caller2,
            protocol2,
            threat_level2,
            pattern2,
            hash2,
            source2,
            now2,
        ) matches Ok((s3, id2)) ==> id1.value() < id2.value(),
{
    law_enhanced_alert_ids(s, caller, now, protocol, threat_level, pattern, hash, source);
    if let Ok((s1, id1)) = s.register_enhanced_outcome(
        caller,
        protocol,
        threat_level,
        pattern,
        hash,
        source,
        now,
    ) {
        law_alert_counts_monotonic(s1, caller, now, op);
        if let Ok(s2) = apply_op(s1, caller, now, op) {
            law_enhanced_alert_ids(s2, caller2, now2, protocol2, threat_level2, pattern2, hash2, source2);
        }
    }
}

/// An acknowledged alert stays acknowledged, by the same account at the same
/// time, whatever happens next.
pub proof fn law_acknowledgment_permanent(
    s: AlertRegistryState,
    caller: Address,
    now: u64,
    op: AlertRegistryOp,
    id: U256,
)
    requires
        s.acknowledged_at_id(id),
    ensures
        apply_op(s, caller, now, op) matches Ok(t) ==> {
            &&& t.acknowledged_at_id(id)
            &&& t.enhanced(id).acknowledged_by == s.enhanced(id).acknowledged_by
            &&& t.enhanced(id).acknowledged_at == s.enhanced(id).acknowledged_at
        },
{
    match op {
        AlertRegistryOp::AcknowledgeAlert(id2) => {
            if let Ok(t) = apply_op(s, caller, now, op) {
                assert(id2.value() != id.value());
                assert(t.enhanced_alerts[id.value() - 1] == s.enhanced_alerts[id.value() - 1]);
            }
        },
        AlertRegistryOp::RegisterEnhancedAlert(protocol, level, pattern, hash, source) => {
            if let Ok(t) = apply_op(s, caller, now, op) {
                assert(t.enhanced_alerts[id.value() - 1] == s.enhanced_alerts[id.value() - 1]);
            }
        },
        _ => {},
    }
}

/// Priorities are computed from the threat level alone, lie between
/// `PRIORITY_LOW` and `PRIORITY_CRITICAL`, and never fall as the threat level
/// rises.
pub proof fn law_priority_monotonic(a: nat, b: nat)
    ensures
        PRIORITY_LOW <= priority_of(a) <= PRIORITY_CRITICAL,
        a <= b ==> priority_of(a) <= priority_of(b),
{
}

/// The sum of the per-priority counts.
pub open spec fn priority_total(s: AlertRegistryState) -> nat {
    s.priority_count_of(word(0)).value() + s.priority_count_of(word(1)).value()
        + s.priority_count_of(word(2)).value() + s.priority_count_of(word(3)).value()
}

proof fn lemma_priority_frame(s: AlertRegistryState, t: AlertRegistryState)
    requires
        t.priority_alert_counts == s.priority_alert_counts,
        t.enhanced_alerts.len() == s.enhanced_alerts.len(),
    ensures
        priority_total(t) == priority_total(s),
{
}

#[verifier::rlimit(50)]
proof fn lemma_priority_total_insert(s: AlertRegistryState, t: AlertRegistryState, p: nat)
    requires
        p <= 3,
        s.priority_count_of(word(p)).value() < word_max(),
        t.priority_alert_counts == s.priority_alert_counts.insert(
            word(p),
            word(s.priority_count_of(word(p)).value() + 1),
        ),
    ensures
        priority_total(t) == priority_total(s) + 1,
{
    crate::word::lemma_word_value(0);
    crate::word::lemma_word_value(1);
    crate::word::lemma_word_value(2);
    crate::word::lemma_word_value(3);
    crate::word::lemma_word_value(s.priority_count_of(word(p)).value() + 1);
}

proof fn lemma_priority_register(
    s: AlertRegistryState,
    caller: Address,
    now: u64,
    protocol: Address,
    level: U256,
    pattern: U256,
    hash: Hash32,
    source: Address,
)
    requires
        priority_total(s) == s.enhanced_alerts.len(),
        s.enhanced_alerts.len() < word_max(),
    ensures
        s.register_enhanced_outcome(caller, protocol, level, pattern, hash, source, now) matches Ok(
            (t, _),
        ) ==> priority_total(t) == t.enhanced_alerts.len(),
{
    let out = s.register_enhanced_outcome(caller, protocol, level, pattern, hash, source, now);
    if out is Ok {
        let t = out->Ok_0.0;
        let p = priority_of(level.value());
        let c = s.priority_count_of(word(p)).value();
        crate::word::lemma_word_value(0);
        crate::word::lemma_word_value(1);
        crate::word::lemma_word_value(2);
        crate::word::lemma_word_value(3);
        assert(c <= priority_total(s));
        assert(t.priority_alert_counts == s.priority_alert_counts.insert(word(p), word(c + 1)));
        assert(t.enhanced_alerts.len() == s.enhanced_alerts.len() + 1);
        lemma_priority_total_insert(s, t, p);
    }
}

/// The per-priority counts add up to the number of enhanced alerts, and
/// every operation keeps it so (short of 2^256 - 1 alerts).
pub proof fn law_priority_distribution(s: AlertRegistryState, caller: Address, now: u64, op: AlertRegistryOp)
    requires
        priority_total(s) == s.enhanced_alerts.len(),
        s.enhanced_alerts.len() < word_max(),
    ensures
        apply_op(s, caller, now, op) matches Ok(t) ==> priority_total(t) == t.enhanced_alerts.len(),
{
    match op {
        AlertRegistryOp::RegisterEnhancedAlert(protocol, level, pattern, hash, source) => {
            lemma_priority_register(s, caller, now, protocol, level, pattern, hash, source);
        },
        _ => {
            if let Ok(t) = apply_op(s, caller, now, op) {
                lemma_priority_frame(s, t);
            }
        },
    }
}

/// The fresh registry meets the priority distribution law.
pub proof fn law_fresh_priority_distribution()
    ensures
        priority_total(AlertRegistryState::fresh()) == AlertRegistryState::fresh().enhanced_alerts.len(),
{
    crate::word::lemma_word_value(0);
}

/// Expiration: an alert is never expired while the expiration duration is 0;
/// otherwise it is not expired up to and including `duration` seconds after
/// its creation, is expired from one second later on, and once expired stays
/// expired as time passes.
pub proof fn law_expiration(s: AlertRegistryState, timestamp: U256, now: u64, later: u64)
    ensures
        s.alert_expiration_duration.value() == 0 ==> !s.expired(timestamp, now),
        now <= timestamp.value() + s.alert_expiration_duration.value() ==> !s.expired(
            timestamp,
            now,
        ),
        s.alert_expiration_duration.value() != 0 && now > timestamp.value()
            + s.alert_expiration_duration.value() ==> s.expired(timestamp, now),
        s.expired(timestamp, now) && now <= later ==> s.expired(timestamp, later),
{
}

/// The subscriber count is the number of subscribed accounts.
pub open spec fn subscribers_counted(s: AlertRegistryState) -> bool {
    s.subscriber_set().finite() && s.subscriber_count.value() == s.subscriber_set().len()
}

/// The fresh registry has no subscribers and a zero count.
pub proof fn law_fresh_subscribers_counted()
    ensures
        subscribers_counted(AlertRegistryState::fresh()),
{
    crate::word::lemma_word_value(0);
    assert(AlertRegistryState::fresh().subscriber_set() =~= Set::<Address>::empty());
}

/// Every operation keeps the subscriber count equal to the number of
/// subscribed accounts (short of 2^256 - 1 subscribers): adding a subscriber
/// adds one, removing one takes one away, so adding and then removing an
/// account gives back the count it started from.
pub proof fn law_subscribers_counted(s: AlertRegistryState, caller: Address, now: u64, op: AlertRegistryOp)
    requires
        subscribers_counted(s),
        s.subscriber_count.value() < word_max(),
    ensures
        apply_op(s, caller, now, op) matches Ok(t) ==> subscribers_counted(t),
        op matches AlertRegistryOp::AddSubscriber(a) ==> (apply_op(s, caller, now, op) matches Ok(t)
            ==> t.is_subscriber(a) && t.subscriber_count.value() == s.subscriber_count.value() + 1),
        op matches AlertRegistryOp::RemoveSubscriber(a) ==> (apply_op(s, caller, now, op) matches Ok(t)
            ==> !t.is_subscriber(a) && t.subscriber_count.value() + 1 == s.subscriber_count.value()),
{
    if let Ok(t) = apply_op(s, caller, now, op) {
        match op {
            AlertRegistryOp::AddSubscriber(a) => {
                assert(t.subscriber_set() =~= s.subscriber_set().insert(a));
                assert(!s.subscriber_set().contains(a));
                crate::word::lemma_word_value(s.subscriber_count.value() + 1);
            },
            AlertRegistryOp::RemoveSubscriber(a) => {
                assert(t.subscriber_set() =~= s.subscriber_set().remove(a));
                assert(s.subscriber_set().contains(a));
                crate::word::lemma_word_value(sat_sub(s.subscriber_count.value(), 1));
            },
            _ => {
                assert(t.subscriber_set() =~= s.subscriber_set());
            },
        }
    }
}

/// What an enhanced alert records when it is registered, and keeps.
pub open spec fn same_record(a: EnhancedAlert, b: EnhancedAlert) -> bool {
    &&& a.protocol == b.protocol
    &&& a.threat_level == b.threat_level
    &&& a.pattern_matched == b.pattern_matched
    &&& a.timestamp == b.timestamp
    &&& a.priority_level == b.priority_level
    &&& a.message_hash == b.message_hash
    &&& a.source == b.source
}

/// The registry is a permanent record: a registered simple alert reads back
/// as it was registered (at the block time of the call), and no operation
/// changes or removes a simple alert; a registered enhanced alert reads back
/// with its protocol, threat level, priority, matched patterns, time, hash and
/// source, unacknowledged, and no operation changes what it recorded.
pub proof fn law_alerts_permanent(
    s: AlertRegistryState,
    caller: Address,
    now: u64,
    op: AlertRegistryOp,
    id: U256,
)
    requires
        s.alerts.len() <= word_max(),
        s.enhanced_alerts.len() < word_max(),
    ensures
        op matches AlertRegistryOp::RegisterAlert(severity, source, hash) ==> (s.register_alert_outcome(
            severity,
            source,
            hash,
            now,
        ) matches Ok((t, new_id)) ==> t.alert_at(new_id) == Ok::<(U256, u8, Address, Hash32), Error>(
            (word(now as nat), severity, source, hash),
        )),
        op matches AlertRegistryOp::RegisterEnhancedAlert(protocol, level, pattern, hash, source) ==> (
        s.register_enhanced_outcome(caller, protocol, level, pattern, hash, source, now) matches Ok(
            (t, new_id),
        ) ==> t.enhanced_alert_at(new_id) == Ok::<
            (Address, U256, U256, U256, U256, bool, Hash32, Address),
            Error,
        >(
            (
                protocol,
                level,
                pattern,
                word(now as nat),
                word(priority_of(level.value())),
                false,
                hash,
                source,
            ),
        )),
        apply_op(s, caller, now, op) matches Ok(t) ==> (s.alert_at(id) is Ok ==> t.alert_at(id)
            == s.alert_at(id)),
        apply_op(s, caller, now, op) matches Ok(t) ==> (s.valid_id(id) ==> t.valid_id(id)
            && same_record(t.enhanced(id), s.enhanced(id))),
{
    law_alert_counts_monotonic(s, caller, now, op);
    match op {
        AlertRegistryOp::RegisterAlert(severity, source, hash) => {
            law_alert_ids(s, now, severity, hash, source);
        },
        AlertRegistryOp::RegisterEnhancedAlert(protocol, level, pattern, hash, source) => {
            law_enhanced_alert_ids(s, caller, now, protocol, level, pattern, hash, source);
            if let Ok(t) = apply_op(s, caller, now, op) {
                if s.valid_id(id) {
                    assert(t.enhanced_alerts[id.value() - 1] == s.enhanced_alerts[id.value() - 1]);
                }
            }
        },
        AlertRegistryOp::AcknowledgeAlert(id2) => {
            if let Ok(t) = apply_op(s, caller, now, op) {
                if s.valid_id(id) && id.value() != id2.value() {
                    assert(t.enhanced_alerts[id.value() - 1] == s.enhanced_alerts[id.value() - 1]);
                }
            }
        },
        _ => {},
    }
}

/// The four priority counts of a list of priority levels, each at most
/// `PRIORITY_CRITICAL`, add up to its length.
proof fn lemma_priority_levels_sum(levels: Seq<U256>)
    requires
        forall|i: int| 0 <= i < levels.len() ==> #[trigger] levels[i].value() <= PRIORITY_CRITICAL,
    ensures
        levels.to_multiset().count(word(0)) + levels.to_multiset().count(word(1))
            + levels.to_multiset().count(word(2)) + levels.to_multiset().count(word(3)) == levels.len(),
    decreases levels.len(),
{
    broadcast use vstd::seq_lib::group_to_multiset_ensures;
    broadcast use vstd::multiset::group_multiset_properties;
    if levels.len() == 0 {
        assert(levels.to_multiset() =~= Multiset::<U256>::empty());
    } else {
        let d = levels.drop_last();
        let x = levels.last();
        assert forall|i: int| 0 <= i < d.len() implies #[trigger] d[i].value() <= PRIORITY_CRITICAL by {
            assert(d[i] == levels[i]);
        }
        lemma_priority_levels_sum(d);
        assert(levels =~= d.push(x));
        assert(x.value() <= PRIORITY_CRITICAL) by {
            assert(levels[levels.len() - 1] == x);
        }
        crate::word::lemma_word_of_value(x);
        crate::word::lemma_word_value(0);
        crate::word::lemma_word_value(1);
        crate::word::lemma_word_value(2);
        crate::word::lemma_word_value(3);
        assert(x == word(0) || x == word(1) || x == word(2) || x == word(3));
    }
}

/// On every well-formed registry, the counters partition the enhanced
/// alerts: summed over all protocols, the per-protocol counts give the alert
/// count, the four per-priority counts add up to it, and every level above
/// `PRIORITY_CRITICAL` counts 0.
pub proof fn law_counts_partition(s: AlertRegistryState, q: U256)
    requires
        s.counts_consistent(),
    ensures
        s.alert_protocols().len() == s.enhanced_alerts.len(),
        s.alert_priorities().len() == s.enhanced_alerts.len(),
        priority_total(s) == s.enhanced_alerts.len(),
        q.value() > PRIORITY_CRITICAL ==> s.priority_count_of(q).value() == 0,
{
    broadcast use vstd::seq_lib::group_to_multiset_ensures;
    let levels = s.enhanced_alerts.map_values(|a: EnhancedAlert| a.priority_level);
    assert forall|i: int| 0 <= i < levels.len() implies #[trigger] levels[i].value() <= PRIORITY_CRITICAL by {
        assert(levels[i] == s.enhanced_alerts[i].priority_level);
    }
    lemma_priority_levels_sum(levels);
    assert(s.enhanced_alerts.map_values(|a: EnhancedAlert| a.protocol).len() == s.enhanced_alerts.len());
    if q.value() > PRIORITY_CRITICAL {
        assert(!levels.contains(q)) by {
            if levels.contains(q) {
                let i = choose|i: int| 0 <= i < levels.len() && levels[i] == q;
                assert(levels[i].value() <= PRIORITY_CRITICAL);
            }
        }
    }
    assert(s.priority_count_of(q).value() == s.alert_priorities().count(q));
    assert(s.priority_count_of(word(0)).value() == s.alert_priorities().count(word(0)));
    assert(s.priority_count_of(word(1)).value() == s.alert_priorities().count(word(1)));
    assert(s.priority_count_of(word(2)).value() == s.alert_priorities().count(word(2)));
    assert(s.priority_count_of(word(3)).value() == s.alert_priorities().count(word(3)));
}

/// One call: the caller, the block time and the operation.
pub type AlertRegistryCall = (Address, u64, AlertRegistryOp);

/// The state after a sequence of calls, where a failing call changes
/// nothing.
pub open spec fn run(s: AlertRegistryState, calls: Seq<AlertRegistryCall>) -> AlertRegistryState
    decreases calls.len(),
{
    if calls.len() == 0 {
        s
    } else {
        let u = run(s, calls.drop_last());
        let (caller, now, op) = calls.last();
        match apply_op(u, caller, now, op) {
            Ok(t) => t,
            Err(_) => u,
        }
    }
}

/// Over any history of calls (short of 2^256 alerts), every simple alert
/// reads back as it was, every enhanced alert keeps what it recorded, an
/// acknowledged alert stays acknowledged, and an enhanced alert that is still
/// unacknowledged reads back exactly as before.
pub proof fn law_alert_history(s: AlertRegistryState, calls: Seq<AlertRegistryCall>, id: U256)
    requires
        run(s, calls).alerts.len() <= word_max(),
        run(s, calls).enhanced_alerts.len() < word_max(),
    ensures
        s.alert_at(id) is Ok ==> run(s, calls).alert_at(id) == s.alert_at(id),
        s.valid_id(id) ==> run(s, calls).valid_id(id) && same_record(
            run(s, calls).enhanced(id),
            s.enhanced(id),
        ),
        s.acknowledged_at_id(id) ==> run(s, calls).acknowledged_at_id(id),
        s.valid_id(id) && !run(s, calls).enhanced(id).acknowledged ==> run(s, calls).enhanced_alert_at(id)
            == s.enhanced_alert_at(id),
    decreases calls.len(),
{
    if calls.len() > 0 {
        let u = run(s, calls.drop_last());
        let (caller, now, op) = calls.last();
        law_alert_counts_monotonic(u, caller, now, op);
        law_alert_history(s, calls.drop_last(), id);
        law_alerts_permanent(u, caller, now, op, id);
        if u.acknowledged_at_id(id) {
            law_acknowledgment_permanent(u, caller, now, op, id);
        }
    }
}

/// Acknowledging an existing, unacknowledged enhanced alert succeeds exactly
/// for its protocol, the owner, and any account holding the administrator
/// role bit; it records who acknowledged and when, and keeps what the alert
/// recorded. Anyone else is refused with `NotAlertProtocol`. An unknown
/// identifier gives `AlertNotFound`, an acknowledged alert
/// `AlertAlreadyAcknowledged`.
pub proof fn law_acknowledgment_rights(s: AlertRegistryState, caller: Address, id: U256, now: u64)
    ensures
        !s.valid_id(id) ==> s.acknowledge_outcome(caller, id, now) == Err::<(AlertRegistryState, ()), Error>(
            Error::AlertNotFound { id },
        ),
        s.acknowledged_at_id(id) ==> s.acknowledge_outcome(caller, id, now) == Err::<
            (AlertRegistryState, ()),
            Error,
        >(Error::AlertAlreadyAcknowledged { id }),
        s.valid_id(id) && !s.enhanced(id).acknowledged ==> {
            let entitled = caller == s.enhanced(id).protocol || caller == s.owner || s.role_bits(caller)
                & ADMIN_ROLE == ADMIN_ROLE;
            &&& entitled ==> (s.acknowledge_outcome(caller, id, now) matches Ok((t, _)) && {
                &&& t.acknowledged_at_id(id)
                &&& t.enhanced(id).acknowledged_by == caller
                &&& t.enhanced(id).acknowledged_at == word(now as nat)
                &&& same_record(t.enhanced(id), s.enhanced(id))
            })
            &&& !entitled ==> s.acknowledge_outcome(caller, id, now) == Err::<
                (AlertRegistryState, ()),
                Error,
            >(Error::NotAlertProtocol { caller, id })
        },
{
}

/// Once an administrator grants an account the administrator role, that
/// account can acknowledge any existing, unacknowledged enhanced alert.
pub proof fn law_granted_admin_acknowledges(
    s: AlertRegistryState,
    admin: Address,
    account: Address,
    id: U256,
    now: u64,
)
    requires
        s.valid_id(id),
        !s.enhanced(id).acknowledged,
    ensures
        s.grant_role_outcome(admin, account, ADMIN_ROLE) matches Ok((t, _)) ==> t.acknowledge_outcome(
            account,
            id,
            now,
        ) is Ok,
{
    let x = s.role_bits(account);
    assert((x | 1u8) & 1u8 == 1u8) by (bit_vector);
}

/// Registering an enhanced alert appends `EnhancedAlertRegistered` with its
/// identifier, protocol, threat level, priority and patterns; then
/// `HighThreatAlertEmitted` exactly when the threat level is at least
/// `THRESHOLD_HIGH`, and `CriticalAlertEmitted` exactly when it is at least
/// `THRESHOLD_CRITICAL`, both naming the alert, its protocol and threat
/// level. Earlier events stay as they were.
pub proof fn law_enhanced_alert_events(
    s: AlertRegistryState,
    caller: Address,
    protocol: Address,
    level: U256,
    pattern: U256,
    hash: Hash32,
    source: Address,
    now: u64,
)
    ensures
        s.register_enhanced_outcome(caller, protocol, level, pattern, hash, source, now) matches Ok(
            (t, id),
        ) ==> {
            let n = s.events.len();
            let high: nat = if level.value() >= THRESHOLD_HIGH { 1 } else { 0 };
            let critical: nat = if level.value() >= THRESHOLD_CRITICAL { 1 } else { 0 };
            &&& t.events.len() == n + 1 + high + critical
            &&& t.events.take(n as int) == s.events
            &&& t.events[n as int] == AlertRegistryEvent::EnhancedAlertRegistered {
                id,
                protocol,
                threat_level: level,
                priority_level: word(priority_of(level.value())),
                pattern_matched: pattern,
            }
            &&& level.value() >= THRESHOLD_HIGH ==> t.events[(n + 1) as int]
                == AlertRegistryEvent::HighThreatAlertEmitted { id, protocol, threat_level: level }
            &&& level.value() >= THRESHOLD_CRITICAL ==> t.events[(n + 2) as int]
                == AlertRegistryEvent::CriticalAlertEmitted { id, protocol, threat_level: level }
        },
{
    if let Ok((t, id)) = s.register_enhanced_outcome(caller, protocol, level, pattern, hash, source, now) {
        assert(t.events.take(s.events.len() as int) =~= s.events);
    }
}

} // verus!
