//! Role bitmasks: the access-control state of an account.
//!
//! An account's roles are a bitmask; granting a role sets its bits and revoking
//! it clears them. The laws below are what every role change keeps.
use vstd::prelude::*;

verus! {

/// Administrator role bit.
pub const ADMIN_ROLE: u8 = 0x01;

/// Monitor role bit.
pub const MONITOR_ROLE: u8 = 0x02;

/// Every valid role bit.
pub const ALL_ROLES: u8 = 0x03;

/// The roles held after granting `role`.
pub open spec fn granted(roles: u8, role: u8) -> u8 {
    roles | role
}

/// The roles held after revoking `role`.
pub open spec fn revoked(roles: u8, role: u8) -> u8 {
    roles & !role
}

/// Whether `roles` holds every bit of `role`.
pub open spec fn holds_all(roles: u8, role: u8) -> bool {
    roles & role == role
}

/// Whether `roles` holds some bit of `role`.
pub open spec fn holds_any(roles: u8, role: u8) -> bool {
    roles & role != 0
}

/// The role bitmask of one account.
#[derive(Clone, Copy, Debug, PartialEq, Eq)]
pub struct RBACState {
    /// The role bits held.
    pub roles: u8,
}

impl RBACState {
    /// No roles.
    pub fn new() -> (r: RBACState)
        ensures
            r.roles == 0,
    {
        RBACState { roles: 0 }
    }

    /// Adds the bits of `role`.
    pub fn grant_role(&mut self, role: u8)
        ensures
            final(self).roles == granted(old(self).roles, role),
    {
        self.roles = self.roles | role;
    }

    /// Clears the bits of `role`.
    pub fn revoke_role(&mut self, role: u8)
        ensures
            final(self).roles == revoked(old(self).roles, role),
    {
        self.roles = self.roles & !role;
    }

    /// Whether every bit of `role` is held.
    pub fn has_role(&self, role: u8) -> (r: bool)
        ensures
            r == holds_all(self.roles, role),
    {
        (self.roles & role) == role
    }

    /// Whether some bit of `role` is held.
    pub fn has_any_role(&self, role: u8) -> (r: bool)
        ensures
            r == holds_any(self.roles, role),
    {
        (self.roles & role) != 0
    }
}

/// After a grant the role is held, no bit that was held is lost, and the
/// bitmask does not decrease.
pub proof fn law_grant_holds(roles: u8, role: u8, other: u8)
    ensures
        holds_all(granted(roles, role), role),
        holds_all(roles, other) ==> holds_all(granted(roles, role), other),
        granted(roles, role) >= roles,
{
    assert(holds_all(granted(roles, role), role)) by (bit_vector);
    assert(holds_all(roles, other) ==> holds_all(granted(roles, role), other)) by (bit_vector);
    assert(granted(roles, role) >= roles) by (bit_vector);
}

/// After revoking a non-empty role it is no longer held; revoking leaves the
/// bits of a disjoint role alone; revoking a role none of whose bits is held
/// changes nothing.
pub proof fn law_revoke_clears(roles: u8, role: u8, other: u8)
    ensures
        role != 0 ==> !holds_all(revoked(roles, role), role),
        role & other == 0 && holds_all(roles, other) ==> holds_all(revoked(roles, role), other),
        roles & role == 0 ==> revoked(roles, role) == roles,
{
    assert(role != 0 ==> !holds_all(revoked(roles, role), role)) by (bit_vector);
    assert(role & other == 0 && holds_all(roles, other) ==> holds_all(revoked(roles, role), other))
        by (bit_vector);
    assert(roles & role == 0 ==> revoked(roles, role) == roles) by (bit_vector);
}

/// Granting or revoking valid roles keeps the bitmask within the valid bits.
pub proof fn law_valid_bits_kept(roles: u8, role: u8)
    ensures
        roles & !ALL_ROLES == 0 && role & !ALL_ROLES == 0 ==> granted(roles, role) & !ALL_ROLES == 0,
        roles & !ALL_ROLES == 0 ==> revoked(roles, role) & !ALL_ROLES == 0,
{
    assert(roles & !0x03u8 == 0 && role & !0x03u8 == 0 ==> (roles | role) & !0x03u8 == 0)
        by (bit_vector);
    assert(roles & !0x03u8 == 0 ==> (roles & !role) & !0x03u8 == 0) by (bit_vector);
}

/// Granting twice is granting once; revoking twice is revoking once; the
/// order of two grants does not matter.
pub proof fn law_idempotent_commutative(roles: u8, a: u8, b: u8)
    ensures
        granted(granted(roles, a), a) == granted(roles, a),
        revoked(revoked(roles, a), a) == revoked(roles, a),
        granted(granted(roles, a), b) == granted(granted(roles, b), a),
{
    assert((roles | a) | a == roles | a) by (bit_vector);
    assert((roles & !a) & !a == roles & !a) by (bit_vector);
    assert((roles | a) | b == (roles | b) | a) by (bit_vector);
}

/// Granting a role none of whose bits is held and then revoking it restores
/// the original bitmask.
pub proof fn law_grant_then_revoke(roles: u8, role: u8)
    requires
        roles & role == 0,
    ensures
        revoked(granted(roles, role), role) == roles,
{
    assert(roles & role == 0 ==> (roles | role) & !role == roles) by (bit_vector);
}

/// Some role is held exactly when the bitmask is not empty; within the valid
/// bits, the two role bits held determine the bitmask.
pub proof fn law_roles_determined(roles: u8)
    requires
        roles & !ALL_ROLES == 0,
    ensures
        holds_any(roles, ALL_ROLES) <==> roles != 0,
        holds_all(roles, ADMIN_ROLE) && holds_all(roles, MONITOR_ROLE) ==> roles == ALL_ROLES,
        holds_all(roles, ADMIN_ROLE) && !holds_all(roles, MONITOR_ROLE) ==> roles == ADMIN_ROLE,
        !holds_all(roles, ADMIN_ROLE) && holds_all(roles, MONITOR_ROLE) ==> roles == MONITOR_ROLE,
        !holds_all(roles, ADMIN_ROLE) && !holds_all(roles, MONITOR_ROLE) ==> roles == 0,
{
    assert(roles & !0x03u8 == 0 ==> ((roles & 0x03u8 != 0) <==> roles != 0)) by (bit_vector);
    assert(roles & !0x03u8 == 0 ==> (roles & 1u8 == 1u8 && roles & 2u8 == 2u8 ==> roles == 3u8))
        by (bit_vector);
    assert(roles & !0x03u8 == 0 ==> (roles & 1u8 == 1u8 && roles & 2u8 != 2u8 ==> roles == 1u8))
        by (bit_vector);
    assert(roles & !0x03u8 == 0 ==> (roles & 1u8 != 1u8 && roles & 2u8 == 2u8 ==> roles == 2u8))
        by (bit_vector);
    assert(roles & !0x03u8 == 0 ==> (roles & 1u8 != 1u8 && roles & 2u8 != 2u8 ==> roles == 0u8))
        by (bit_vector);
}

} // verus!
