//! What every circuit breaker operation keeps.
use vstd::prelude::*;

use crate::address::Address;
use crate::circuit_breaker::{
    ADMIN_ROLE,
    CircuitBreakerEvent,
    CircuitBreakerState,
    Error,
    MAX_BATCH_SIZE,
    OPERATOR_ROLE,
    time_word,
};
use crate::word::{U256, sat_add, sat_sub, word};

verus! {

/// A mutating circuit breaker operation with its arguments.
pub enum CircuitBreakerOp {
    Init,
    Trip,
    Reset,
    TransferOwnership(Address),
    RegisterProtocol(Address),
    UnregisterProtocol(Address),
    TripProtocol(Address),
    ResetProtocol(Address),
    TripMultiple(Seq<Address>),
    ResetMultiple(Seq<Address>),
    GrantRole(Address, u8),
    RevokeRole(Address, u8),
    SetMinPauseDuration(U256),
    SetMaxPauseDuration(U256),
    SetCooldownPeriod(U256),
}

/// The outcome of an operation called by `caller` at block time `now`.
pub open spec fn apply_op(s: CircuitBreakerState, caller: Address, now: u64, op: CircuitBreakerOp) -> Result<
    CircuitBreakerState,
    Error,
> {
    match op {
        CircuitBreakerOp::Init => s.init_outcome(caller),
        CircuitBreakerOp::Trip => s.trip_outcome(caller, now),
        CircuitBreakerOp::Reset => s.reset_outcome(caller, now),
        CircuitBreakerOp::TransferOwnership(a) => s.transfer_ownership_outcome(caller, a),
        CircuitBreakerOp::RegisterProtocol(p) => s.register_protocol_outcome(caller, p, now),
        CircuitBreakerOp::UnregisterProtocol(p) => s.unregister_protocol_outcome(caller, p, now),
        CircuitBreakerOp::TripProtocol(p) => s.trip_protocol_outcome(caller, p, now),
        CircuitBreakerOp::ResetProtocol(p) => s.reset_protocol_outcome(caller, p, now),
        CircuitBreakerOp::TripMultiple(ps) => s.trip_multiple_outcome(caller, ps, now),
        CircuitBreakerOp::ResetMultiple(ps) => s.reset_multiple_outcome(caller, ps, now),
        CircuitBreakerOp::GrantRole(a, r) => s.grant_role_outcome(caller, a, r),
        CircuitBreakerOp::RevokeRole(a, r) => s.revoke_role_outcome(caller, a, r),
        CircuitBreakerOp::SetMinPauseDuration(d) => s.set_min_pause_outcome(caller, d),
        CircuitBreakerOp::SetMaxPauseDuration(d) => s.set_max_pause_outcome(caller, d),
        CircuitBreakerOp::SetCooldownPeriod(d) => s.set_cooldown_outcome(caller, d),
    }
}

/// Every paused protocol is registered.
pub open spec fn paused_are_registered(s: CircuitBreakerState) -> bool {
    forall|p: Address| #[trigger] s.is_paused(p) ==> s.is_registered(p)
}

proof fn lemma_pause_each_frame(s: CircuitBreakerState, ps: Seq<Address>, caller: Address, now: u64)
    ensures
        ({
            let t = s.pause_each(ps, caller, now).0;
            &&& t.trip_count == s.trip_count
            &&& t.last_trip_time == s.last_trip_time
            &&& t.is_tripped == s.is_tripped
            &&& t.registered == s.registered
            &&& (paused_are_registered(s) ==> paused_are_registered(t))
        }),
    decreases ps.len(),
{
    if ps.len() > 0 {
        lemma_pause_each_frame(s, ps.drop_last(), caller, now);
        let u = s.pause_each(ps.drop_last(), caller, now).0;
        let p = ps.last();
        if !p.spec_is_zero() && u.is_registered(p) && !u.is_paused(p) {
            let t = u.pause_one(p, caller, now);
            if paused_are_registered(u) {
                assert forall|q: Address| #[trigger] t.is_paused(q) implies t.is_registered(q) by {
                    if q != p {
                        assert(u.is_paused(q));
                    }
                }
            }
        }
    }
}

proof fn lemma_unpause_each_frame(s: CircuitBreakerState, ps: Seq<Address>, caller: Address, now: u64)
    ensures
        ({
            let t = s.unpause_each(ps, caller, now).0;
            &&& t.trip_count == s.trip_count
            &&& t.last_trip_time == s.last_trip_time
            &&& t.is_tripped == s.is_tripped
            &&& t.registered == s.registered
            &&& (paused_are_registered(s) ==> paused_are_registered(t))
        }),
    decreases ps.len(),
{
    if ps.len() > 0 {
        lemma_unpause_each_frame(s, ps.drop_last(), caller, now);
        let u = s.unpause_each(ps.drop_last(), caller, now).0;
        let p = ps.last();
        if !p.spec_is_zero() && u.is_registered(p) && u.is_paused(p) && u.pause_elapsed(p, now) {
            let t = u.unpause_one(p, caller, now);
            if paused_are_registered(u) {
                assert forall|q: Address| #[trigger] t.is_paused(q) implies t.is_registered(q) by {
                    if q != p {
                        assert(u.is_paused(q));
                    }
                }
            }
        }
    }
}

/// The global trip count never decreases, and grows by at most one per
/// operation: only a successful `trip` changes it.
pub proof fn law_trip_count_monotonic(s: CircuitBreakerState, caller: Address, now: u64, op: CircuitBreakerOp)
    ensures
        apply_op(s, caller, now, op) matches Ok(t) ==> {
            &&& s.trip_count.value() <= t.trip_count.value() <= s.trip_count.value() + 1
            &&& (!(op is Trip) ==> t.trip_count == s.trip_count)
        },
{
    match op {
        CircuitBreakerOp::Trip => {
            crate::word::lemma_word_value(crate::word::sat_add(s.trip_count.value(), 1));
        },
        CircuitBreakerOp::TripMultiple(ps) => {
            lemma_pause_each_frame(s, ps, caller, now);
        },
        CircuitBreakerOp::ResetMultiple(ps) => {
            lemma_unpause_each_frame(s, ps, caller, now);
        },
        _ => {},
    }
}

/// The time of the last global trip never decreases while block time does
/// not run backwards; a reset keeps both the trip count and that time.
pub proof fn law_last_trip_time_monotonic(
    s: CircuitBreakerState,
    caller: Address,
    now: u64,
    op: CircuitBreakerOp,
)
    requires
        s.last_trip_time.value() <= now,
    ensures
        apply_op(s, caller, now, op) matches Ok(t) ==> s.last_trip_time.value()
            <= t.last_trip_time.value(),
        s.reset_outcome(caller, now) matches Ok(t) ==> t.trip_count == s.trip_count
            && t.last_trip_time == s.last_trip_time,
{
    match op {
        CircuitBreakerOp::Trip => {
            crate::word::lemma_word_value(now as nat);
        },
        CircuitBreakerOp::TripMultiple(ps) => {
            lemma_pause_each_frame(s, ps, caller, now);
        },
        CircuitBreakerOp::ResetMultiple(ps) => {
            lemma_unpause_each_frame(s, ps, caller, now);
        },
        _ => {},
    }
}

/// A tripped circuit cannot be tripped again, and a circuit that is not
/// tripped cannot be reset, whoever calls; a caller who is neither the owner
/// nor an operator is unauthorized for both.
pub proof fn law_trip_reset_guards(s: CircuitBreakerState, caller: Address, now: u64)
    ensures
        !s.has_role(caller, OPERATOR_ROLE) ==> s.trip_outcome(caller, now) == Err::<
            CircuitBreakerState,
            Error,
        >(Error::UnauthorizedCaller(caller)),
        !s.has_role(caller, OPERATOR_ROLE) ==> s.reset_outcome(caller, now) == Err::<
            CircuitBreakerState,
            Error,
        >(Error::UnauthorizedCaller(caller)),
        s.is_tripped ==> s.trip_outcome(caller, now) is Err,
        s.is_tripped && s.has_role(caller, OPERATOR_ROLE) ==> s.trip_outcome(caller, now) == Err::<
            CircuitBreakerState,
            Error,
        >(Error::AlreadyTripped),
        !s.is_tripped ==> s.reset_outcome(caller, now) is Err,
        !s.is_tripped && s.has_role(caller, OPERATOR_ROLE) ==> s.reset_outcome(caller, now)
            == Err::<CircuitBreakerState, Error>(Error::NotTripped),
        s.trip_outcome(caller, now) matches Ok(t) ==> t.is_tripped,
        s.reset_outcome(caller, now) matches Ok(t) ==> !t.is_tripped,
{
}

proof fn lemma_register_keeps_paused_registered(
    s: CircuitBreakerState,
    caller: Address,
    now: u64,
    p: Address,
)
    requires
        paused_are_registered(s),
    ensures
        s.register_protocol_outcome(caller, p, now) matches Ok(t) ==> paused_are_registered(t),
{
    let out = s.register_protocol_outcome(caller, p, now);
    if out is Ok {
        let t = out->Ok_0;
        assert forall|q: Address| #[trigger] t.is_paused(q) implies t.is_registered(q) by {
            if q != p {
                assert(s.is_paused(q));
            }
        }
    }
}

/// The operations that do not touch protocol registration or pauses keep
/// every paused protocol registered.
proof fn lemma_other_ops_keep_paused_registered(s: CircuitBreakerState, t: CircuitBreakerState)
    requires
        paused_are_registered(s),
        t.paused == s.paused,
        t.registered == s.registered,
    ensures
        paused_are_registered(t),
{
    assert forall|q: Address| #[trigger] t.is_paused(q) implies t.is_registered(q) by {
        assert(s.is_paused(q));
    }
}

proof fn lemma_pause_keeps_paused_registered(s: CircuitBreakerState, t: CircuitBreakerState, p: Address)
    requires
        paused_are_registered(s),
        s.is_registered(p),
        t.paused == s.paused.insert(p, true),
        t.registered == s.registered,
    ensures
        paused_are_registered(t),
{
    assert forall|q: Address| #[trigger] t.is_paused(q) implies t.is_registered(q) by {
        if q != p {
            assert(s.is_paused(q));
        }
    }
}

proof fn lemma_unpause_keeps_paused_registered(s: CircuitBreakerState, t: CircuitBreakerState, p: Address)
    requires
        paused_are_registered(s),
        t.paused == s.paused.insert(p, false),
        t.registered == s.registered,
    ensures
        paused_are_registered(t),
{
    assert forall|q: Address| #[trigger] t.is_paused(q) implies t.is_registered(q) by {
        if q != p {
            assert(s.is_paused(q));
        }
    }
}

proof fn lemma_unregister_keeps_paused_registered(s: CircuitBreakerState, t: CircuitBreakerState, p: Address)
    requires
        paused_are_registered(s),
        !s.is_paused(p),
        t.paused == s.paused,
        t.registered == s.registered.insert(p, false),
    ensures
        paused_are_registered(t),
{
    assert forall|q: Address| #[trigger] t.is_paused(q) implies t.is_registered(q) by {
        assert(s.is_paused(q));
    }
}

/// Every operation keeps every paused protocol registered: a protocol is
/// paused only while registered, and cannot be unregistered while paused.
pub proof fn law_paused_are_registered(
    s: CircuitBreakerState,
    caller: Address,
    now: u64,
    op: CircuitBreakerOp,
)
    requires
        paused_are_registered(s),
    ensures
        apply_op(s, caller, now, op) matches Ok(t) ==> paused_are_registered(t),
{
    let out = apply_op(s, caller, now, op);
    if out is Ok {
        let t = out->Ok_0;
        match op {
            CircuitBreakerOp::RegisterProtocol(p) => {
                lemma_register_keeps_paused_registered(s, caller, now, p);
            },
            CircuitBreakerOp::UnregisterProtocol(p) => {
                lemma_unregister_keeps_paused_registered(s, t, p);
            },
            CircuitBreakerOp::TripProtocol(p) => {
                lemma_pause_keeps_paused_registered(s, t, p);
            },
            CircuitBreakerOp::ResetProtocol(p) => {
                lemma_unpause_keeps_paused_registered(s, t, p);
            },
            CircuitBreakerOp::TripMultiple(ps) => {
                lemma_pause_each_frame(s, ps, caller, now);
                lemma_other_ops_keep_paused_registered(s.pause_each(ps, caller, now).0, t);
            },
            CircuitBreakerOp::ResetMultiple(ps) => {
                lemma_unpause_each_frame(s, ps, caller, now);
                lemma_other_ops_keep_paused_registered(s.unpause_each(ps, caller, now).0, t);
            },
            _ => {
                lemma_other_ops_keep_paused_registered(s, t);
            },
        }
    }
}

/// Ownership only passes to a non-zero address, and only at the owner's
/// request.
pub proof fn law_ownership_transfer(s: CircuitBreakerState, caller: Address, new_owner: Address)
    ensures
        s.transfer_ownership_outcome(caller, new_owner) matches Ok(t) ==> caller == s.owner
            && t.owner == new_owner && !new_owner.spec_is_zero(),
        caller != s.owner ==> s.transfer_ownership_outcome(caller, new_owner) == Err::<
            CircuitBreakerState,
            Error,
        >(Error::UnauthorizedCaller(caller)),
{
}

/// One call: the caller, the block time and the operation.
pub type CircuitBreakerCall = (Address, u64, CircuitBreakerOp);

/// The state after a sequence of calls, where a failing call changes
/// nothing, with the number of calls that tripped the global circuit.
pub open spec fn run(s: CircuitBreakerState, calls: Seq<CircuitBreakerCall>) -> (CircuitBreakerState, nat)
    decreases calls.len(),
{
    if calls.len() == 0 {
        (s, 0)
    } else {
        let (u, n) = run(s, calls.drop_last());
        let (caller, now, op) = calls.last();
        match apply_op(u, caller, now, op) {
            Ok(t) => (t, if op is Trip { n + 1 } else { n }),
            Err(_) => (u, n),
        }
    }
}

/// Over any sequence of calls, the global trip count grows by exactly the
/// number of successful trips (capped at the largest word): resets and all
/// other operations leave it alone.
pub proof fn law_trip_count_counts_trips(s: CircuitBreakerState, calls: Seq<CircuitBreakerCall>)
    ensures
        run(s, calls).0.trip_count.value() == sat_add(s.trip_count.value(), run(s, calls).1),
    decreases calls.len(),
{
    crate::word::lemma_word_of_value(s.trip_count);
    if calls.len() > 0 {
        law_trip_count_counts_trips(s, calls.drop_last());
        let (u, n) = run(s, calls.drop_last());
        let (caller, now, op) = calls.last();
        law_trip_count_monotonic(u, caller, now, op);
        if op is Trip {
            if let Ok(t) = apply_op(u, caller, now, op) {
                crate::word::lemma_word_of_value(u.trip_count);
                crate::word::lemma_word_value(sat_add(u.trip_count.value(), 1));
            }
        }
    }
}

/// A circuit that was never tripped has no trip time: every operation keeps
/// "a zero trip count means a zero last trip time", and a successful trip
/// records the block time it happened at.
pub proof fn law_untripped_has_no_trip_time(
    s: CircuitBreakerState,
    caller: Address,
    now: u64,
    op: CircuitBreakerOp,
)
    requires
        s.trip_count.value() == 0 ==> s.last_trip_time.value() == 0,
    ensures
        apply_op(s, caller, now, op) matches Ok(t) ==> (t.trip_count.value() == 0
            ==> t.last_trip_time.value() == 0),
        op is Trip ==> (apply_op(s, caller, now, op) matches Ok(t) ==> t.last_trip_time.value()
            == now && t.trip_count.value() >= 1),
{
    law_trip_count_monotonic(s, caller, now, op);
    match op {
        CircuitBreakerOp::Trip => {
            crate::word::lemma_word_of_value(s.trip_count);
            crate::word::lemma_word_value(sat_add(s.trip_count.value(), 1));
            crate::word::lemma_word_value(now as nat);
        },
        CircuitBreakerOp::TripMultiple(ps) => {
            lemma_pause_each_frame(s, ps, caller, now);
        },
        CircuitBreakerOp::ResetMultiple(ps) => {
            lemma_unpause_each_frame(s, ps, caller, now);
        },
        _ => {},
    }
}

/// `can_reset` (paused, and the minimum pause duration elapsed) answers,
/// where the cooldown period has also run, whether an operator's
/// `reset_protocol` would succeed (on a state where every paused protocol is
/// registered); a reset before the cooldown has run fails with
/// `CooldownPeriodActive`. The remaining pause time is zero exactly where the
/// protocol is not paused or its minimum pause has elapsed, and otherwise is
/// what is left of the minimum pause duration.
pub proof fn law_can_reset_agrees(s: CircuitBreakerState, caller: Address, p: Address, now: u64)
    requires
        paused_are_registered(s),
        s.has_role(caller, OPERATOR_ROLE),
    ensures
        (s.is_paused(p) && s.pause_elapsed(p, now) && s.cooldown_elapsed(p, now))
            <==> s.reset_protocol_outcome(caller, p, now) is Ok,
        s.is_paused(p) && s.pause_elapsed(p, now) && !s.cooldown_elapsed(p, now)
            ==> s.reset_protocol_outcome(caller, p, now) is Err && s.reset_protocol_outcome(
            caller,
            p,
            now,
        )->Err_0 is CooldownPeriodActive,
        s.remaining_pause_time(p, now).value() == 0 <==> (!s.is_paused(p) || s.pause_elapsed(p, now)),
        s.is_paused(p) && !s.pause_elapsed(p, now) ==> s.remaining_pause_time(p, now).value()
            + s.elapsed_since_pause(p, now).value() == s.min_pause_duration.value(),
{
    crate::word::lemma_word_value(0);
    crate::word::lemma_word_of_value(s.min_pause_duration);
    crate::word::lemma_word_of_value(s.pause_time_of(p));
    crate::word::lemma_word_value(sat_sub(now as nat, s.pause_time_of(p).value()));
    crate::word::lemma_word_value(
        sat_sub(s.min_pause_duration.value(), s.elapsed_since_pause(p, now).value()),
    );
}

/// A listed protocol that a batch trip pauses: non-zero, registered and not
/// yet paused.
pub open spec fn pausable(s: CircuitBreakerState, p: Address) -> bool {
    !p.spec_is_zero() && s.is_registered(p) && !s.is_paused(p)
}

/// A listed protocol that a batch reset unpauses: non-zero, registered,
/// paused and past its minimum pause duration.
pub open spec fn unpausable(s: CircuitBreakerState, p: Address, now: u64) -> bool {
    !p.spec_is_zero() && s.is_registered(p) && s.is_paused(p) && s.pause_elapsed(p, now)
}

/// The distinct protocols of a batch that a batch trip pauses.
pub open spec fn batch_pausable(s: CircuitBreakerState, ps: Seq<Address>) -> Set<Address> {
    Set::new(|p: Address| ps.contains(p) && pausable(s, p))
}

/// The distinct protocols of a batch that a batch reset unpauses.
pub open spec fn batch_unpausable(s: CircuitBreakerState, ps: Seq<Address>, now: u64) -> Set<Address> {
    Set::new(|p: Address| ps.contains(p) && unpausable(s, p, now))
}

proof fn lemma_contains_push(ps: Seq<Address>)
    requires
        ps.len() > 0,
    ensures
        forall|p: Address| #[trigger] ps.contains(p) <==> (ps.drop_last().contains(p) || p == ps.last()),
{
    let d = ps.drop_last();
    assert forall|p: Address| #[trigger] ps.contains(p) <==> (d.contains(p) || p == ps.last()) by {
        if ps.contains(p) {
            let i = choose|i: int| 0 <= i < ps.len() && ps[i] == p;
            if i < ps.len() - 1 {
                assert(d[i] == p);
            }
        }
        if d.contains(p) {
            let i = choose|i: int| 0 <= i < d.len() && d[i] == p;
            assert(ps[i] == p);
        }
        if p == ps.last() {
            assert(ps[ps.len() - 1] == p);
        }
    }
}

/// What pausing each protocol of a list does, whatever their order.
proof fn lemma_pause_each_effect(s: CircuitBreakerState, ps: Seq<Address>, caller: Address, now: u64)
    ensures
        ({
            let (t, n) = s.pause_each(ps, caller, now);
            &&& forall|p: Address| #[trigger] t.is_paused(p) == (s.is_paused(p) || (ps.contains(p)
                && pausable(s, p)))
            &&& forall|p: Address| #[trigger] t.pause_time_of(p) == (if ps.contains(p) && pausable(s, p) {
                time_word(now)
            } else {
                s.pause_time_of(p)
            })
            &&& forall|p: Address| #[trigger] t.trip_count_of(p) == (if ps.contains(p) && pausable(s, p) {
                word(sat_add(s.trip_count_of(p).value(), 1))
            } else {
                s.trip_count_of(p)
            })
            &&& t.registered == s.registered
            &&& batch_pausable(s, ps).finite()
            &&& n == batch_pausable(s, ps).len()
        }),
    decreases ps.len(),
{
    if ps.len() == 0 {
        assert(batch_pausable(s, ps) =~= Set::<Address>::empty());
    } else {
        let d = ps.drop_last();
        let x = ps.last();
        lemma_pause_each_effect(s, d, caller, now);
        lemma_contains_push(ps);
        let (u, m) = s.pause_each(d, caller, now);
        let (t, n) = s.pause_each(ps, caller, now);
        if pausable(s, x) && !d.contains(x) {
            assert(!x.spec_is_zero() && u.is_registered(x) && !u.is_paused(x));
            assert(t == u.pause_one(x, caller, now));
            assert(batch_pausable(s, ps) =~= batch_pausable(s, d).insert(x));
            assert(u.trip_count_of(x) == s.trip_count_of(x));
            assert forall|p: Address| #[trigger] t.is_paused(p) == (s.is_paused(p) || (ps.contains(p)
                && pausable(s, p))) by {
                if p != x {
                    assert(t.is_paused(p) == u.is_paused(p));
                }
            }
            assert forall|p: Address| #[trigger] t.pause_time_of(p) == (if ps.contains(p) && pausable(s, p) {
                time_word(now)
            } else {
                s.pause_time_of(p)
            }) by {
                if p != x {
                    assert(t.pause_time_of(p) == u.pause_time_of(p));
                }
            }
            assert forall|p: Address| #[trigger] t.trip_count_of(p) == (if ps.contains(p) && pausable(s, p) {
                word(sat_add(s.trip_count_of(p).value(), 1))
            } else {
                s.trip_count_of(p)
            }) by {
                if p != x {
                    assert(t.trip_count_of(p) == u.trip_count_of(p));
                }
            }
        } else {
            assert(!(!x.spec_is_zero() && u.is_registered(x) && !u.is_paused(x)));
            assert(t == u);
            assert(batch_pausable(s, ps) =~= batch_pausable(s, d));
            assert forall|p: Address| #[trigger] t.is_paused(p) == (s.is_paused(p) || (ps.contains(p)
                && pausable(s, p))) by {
                assert(t.is_paused(p) == u.is_paused(p));
            }
            assert forall|p: Address| #[trigger] t.pause_time_of(p) == (if ps.contains(p) && pausable(s, p) {
                time_word(now)
            } else {
                s.pause_time_of(p)
            }) by {
                assert(t.pause_time_of(p) == u.pause_time_of(p));
            }
            assert forall|p: Address| #[trigger] t.trip_count_of(p) == (if ps.contains(p) && pausable(s, p) {
                word(sat_add(s.trip_count_of(p).value(), 1))
            } else {
                s.trip_count_of(p)
            }) by {
                assert(t.trip_count_of(p) == u.trip_count_of(p));
            }
        }
    }
}

/// What unpausing each protocol of a list does, whatever their order.
proof fn lemma_unpause_each_effect(s: CircuitBreakerState, ps: Seq<Address>, caller: Address, now: u64)
    ensures
        ({
            let (t, n) = s.unpause_each(ps, caller, now);
            &&& forall|p: Address| #[trigger] t.is_paused(p) == (s.is_paused(p) && !(ps.contains(p)
                && unpausable(s, p, now)))
            &&& t.pause_time == s.pause_time
            &&& t.protocol_trip_count == s.protocol_trip_count
            &&& t.min_pause_duration == s.min_pause_duration
            &&& t.registered == s.registered
            &&& batch_unpausable(s, ps, now).finite()
            &&& n == batch_unpausable(s, ps, now).len()
        }),
    decreases ps.len(),
{
    if ps.len() == 0 {
        assert(batch_unpausable(s, ps, now) =~= Set::<Address>::empty());
    } else {
        let d = ps.drop_last();
        let x = ps.last();
        lemma_unpause_each_effect(s, d, caller, now);
        lemma_contains_push(ps);
        let (u, m) = s.unpause_each(d, caller, now);
        let (t, n) = s.unpause_each(ps, caller, now);
        assert(u.pause_time_of(x) == s.pause_time_of(x));
        assert(u.pause_elapsed(x, now) == s.pause_elapsed(x, now));
        if unpausable(s, x, now) && !d.contains(x) {
            assert(u.is_paused(x));
            assert(t == u.unpause_one(x, caller, now));
            assert(batch_unpausable(s, ps, now) =~= batch_unpausable(s, d, now).insert(x));
            assert forall|p: Address| #[trigger] t.is_paused(p) == (s.is_paused(p) && !(ps.contains(p)
                && unpausable(s, p, now))) by {
                if p != x {
                    assert(t.is_paused(p) == u.is_paused(p));
                }
            }
        } else {
            assert(!(!x.spec_is_zero() && u.is_registered(x) && u.is_paused(x) && u.pause_elapsed(x, now)));
            assert(t == u);
            assert(batch_unpausable(s, ps, now) =~= batch_unpausable(s, d, now));
            assert forall|p: Address| #[trigger] t.is_paused(p) == (s.is_paused(p) && !(ps.contains(p)
                && unpausable(s, p, now))) by {
                assert(t.is_paused(p) == u.is_paused(p));
            }
        }
    }
}

/// A batch trip is accepted exactly for an operator (or the owner) with one
/// to `MAX_BATCH_SIZE` entries. It then pauses every listed protocol that is
/// non-zero, registered and not yet paused, wherever it stands in the list,
/// stamping it with the block time and adding one to its trip count; every
/// other protocol keeps its pause state, time and count. The reported count
/// is the number of distinct protocols it paused.
pub proof fn law_trip_multiple(s: CircuitBreakerState, caller: Address, ps: Seq<Address>, now: u64)
    ensures
        (s.trip_multiple_outcome(caller, ps, now) is Ok) <==> (s.has_role(caller, OPERATOR_ROLE) && 0
            < ps.len() <= MAX_BATCH_SIZE),
        s.trip_multiple_outcome(caller, ps, now) matches Ok(t) ==> {
            &&& forall|p: Address| #[trigger] t.is_paused(p) == (s.is_paused(p) || (ps.contains(p)
                && pausable(s, p)))
            &&& forall|p: Address| ps.contains(p) && pausable(s, p) ==> #[trigger] t.pause_time_of(p)
                == time_word(now) && t.trip_count_of(p) == word(sat_add(s.trip_count_of(p).value(), 1))
            &&& forall|p: Address| !(ps.contains(p) && pausable(s, p)) ==> #[trigger] t.pause_time_of(p)
                == s.pause_time_of(p) && t.trip_count_of(p) == s.trip_count_of(p)
            &&& t.registered == s.registered
            &&& t.events.last() == CircuitBreakerEvent::BatchProtocolsTripped {
                count: word(batch_pausable(s, ps).len()),
                timestamp: time_word(now),
                operator: caller,
            }
        },
{
    lemma_pause_each_effect(s, ps, caller, now);
    let (u, n) = s.pause_each(ps, caller, now);
    if let Ok(t) = s.trip_multiple_outcome(caller, ps, now) {
        assert forall|p: Address| #[trigger] t.is_paused(p) == (s.is_paused(p) || (ps.contains(p)
            && pausable(s, p))) by {
            assert(t.is_paused(p) == u.is_paused(p));
        }
        assert forall|p: Address| ps.contains(p) && pausable(s, p) implies #[trigger] t.pause_time_of(p)
            == time_word(now) && t.trip_count_of(p) == word(sat_add(s.trip_count_of(p).value(), 1)) by {
            assert(t.pause_time_of(p) == u.pause_time_of(p));
            assert(t.trip_count_of(p) == u.trip_count_of(p));
        }
        assert forall|p: Address| !(ps.contains(p) && pausable(s, p)) implies #[trigger] t.pause_time_of(
            p,
        ) == s.pause_time_of(p) && t.trip_count_of(p) == s.trip_count_of(p) by {
            assert(t.pause_time_of(p) == u.pause_time_of(p));
            assert(t.trip_count_of(p) == u.trip_count_of(p));
        }
    }
}

/// A batch reset is accepted exactly for an operator (or the owner) with one
/// to `MAX_BATCH_SIZE` entries. It then unpauses every listed protocol that
/// is non-zero, registered, paused and past its minimum pause duration,
/// wherever it stands in the list; every other protocol keeps its pause
/// state, and no pause time or trip count changes. The reported count is the
/// number of distinct protocols it unpaused.
pub proof fn law_reset_multiple(s: CircuitBreakerState, caller: Address, ps: Seq<Address>, now: u64)
    ensures
        (s.reset_multiple_outcome(caller, ps, now) is Ok) <==> (s.has_role(caller, OPERATOR_ROLE) && 0
            < ps.len() <= MAX_BATCH_SIZE),
        s.reset_multiple_outcome(caller, ps, now) matches Ok(t) ==> {
            &&& forall|p: Address| #[trigger] t.is_paused(p) == (s.is_paused(p) && !(ps.contains(p)
                && unpausable(s, p, now)))
            &&& t.pause_time == s.pause_time
            &&& t.protocol_trip_count == s.protocol_trip_count
            &&& t.registered == s.registered
            &&& t.events.last() == CircuitBreakerEvent::BatchProtocolsReset {
                count: word(batch_unpausable(s, ps, now).len()),
                timestamp: time_word(now),
                operator: caller,
            }
        },
{
    lemma_unpause_each_effect(s, ps, caller, now);
    let (u, n) = s.unpause_each(ps, caller, now);
    if let Ok(t) = s.reset_multiple_outcome(caller, ps, now) {
        assert forall|p: Address| #[trigger] t.is_paused(p) == (s.is_paused(p) && !(ps.contains(p)
            && unpausable(s, p, now))) by {
            assert(t.is_paused(p) == u.is_paused(p));
        }
    }
}

/// Granting adds role bits: on success the account's bits are its old bits
/// with the granted role's bits set, every role it held is still held, the
/// granted role is held, and no other account's bits change. Revoking clears
/// exactly the revoked role's bits of that one account. Both are accepted
/// only from an administrator (or the owner).
pub proof fn law_grant_revoke(s: CircuitBreakerState, caller: Address, account: Address, role: u8, other: u8)
    ensures
        s.grant_role_outcome(caller, account, role) matches Ok(t) ==> {
            &&& s.has_role(caller, ADMIN_ROLE)
            &&& t.role_bits(account) == s.role_bits(account) | role
            &&& t.has_role(account, role)
            &&& (s.has_role(account, other) ==> t.has_role(account, other))
            &&& forall|a: Address| a != account ==> #[trigger] t.role_bits(a) == s.role_bits(a)
        },
        s.revoke_role_outcome(caller, account, role) matches Ok(t) ==> {
            &&& s.has_role(caller, ADMIN_ROLE)
            &&& t.role_bits(account) == s.role_bits(account) & !role
            &&& forall|a: Address| a != account ==> #[trigger] t.role_bits(a) == s.role_bits(a)
        },
{
    let x = s.role_bits(account);
    assert(role != 0 ==> (x | role) & role != 0) by (bit_vector);
    assert((x & other != 0) ==> ((x | role) & other != 0)) by (bit_vector);
    if let Ok(t) = s.grant_role_outcome(caller, account, role) {
        assert forall|a: Address| a != account implies #[trigger] t.role_bits(a) == s.role_bits(a) by {}
    }
    if let Ok(t) = s.revoke_role_outcome(caller, account, role) {
        assert forall|a: Address| a != account implies #[trigger] t.role_bits(a) == s.role_bits(a) by {}
    }
}

} // verus!
