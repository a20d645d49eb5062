//! Roles and sets of roles.

use vstd::prelude::*;

verus! {

/// A role that a membership can carry.
#[derive(Clone, Copy, PartialEq, Eq, Structural, Debug, Hash)]
pub enum Role {
    Administrator,
    Negotiator,
    Collaborator,
}

impl Role {
    /// The place of the role in the order in which roles are listed.
    pub open spec fn rank(self) -> int {
        match self {
            Role::Administrator => 0,
            Role::Negotiator => 1,
            Role::Collaborator => 2,
        }
    }
}

/// A set of roles, one flag per role, so that no role can occur twice.
#[derive(Clone, Copy, PartialEq, Eq, Structural, Debug, Hash)]
pub struct RoleSet {
    pub administrator: bool,
    pub negotiator: bool,
    pub collaborator: bool,
}

impl View for RoleSet {
    type V = Set<Role>;

    open spec fn view(&self) -> Set<Role> {
        Set::new(|role: Role| self.has(role))
    }
}

impl RoleSet {
    /// Whether `role` is in the set.
    pub open spec fn has(self, role: Role) -> bool {
        match role {
            Role::Administrator => self.administrator,
            Role::Negotiator => self.negotiator,
            Role::Collaborator => self.collaborator,
        }
    }

    /// The roles of the membership that provisioning creates:
    /// administrator, negotiator and collaborator.
    pub open spec fn spec_initial() -> RoleSet {
        RoleSet { administrator: true, negotiator: true, collaborator: true }
    }

    /// The set without any role.
    pub open spec fn spec_empty() -> RoleSet {
        RoleSet { administrator: false, negotiator: false, collaborator: false }
    }

    /// The roles that a freshly provisioned membership carries.
    #[verifier::when_used_as_spec(spec_initial)]
    pub fn initial() -> (roles: RoleSet)
        ensures
            roles == Self::spec_initial(),
            roles@ == set![Role::Administrator, Role::Negotiator, Role::Collaborator],
    {
        let roles = RoleSet { administrator: true, negotiator: true, collaborator: true };
        assert(roles@ =~= set![Role::Administrator, Role::Negotiator, Role::Collaborator]);
        roles
    }

    /// Whether `role` is in the set.
    pub fn contains(&self, role: Role) -> (found: bool)
        ensures
            found == self.has(role),
            found == self@.contains(role),
    {
        match role {
            Role::Administrator => self.administrator,
            Role::Negotiator => self.negotiator,
            Role::Collaborator => self.collaborator,
        }
    }

    /// The roles of the set as a list: each role once, administrator before
    /// negotiator before collaborator.
    pub fn to_vec(&self) -> (roles: Vec<Role>)
        ensures
            forall|role: Role| roles@.contains(role) <==> self.has(role),
            forall|i: int, j: int|
                0 <= i < j < roles@.len() ==> roles@[i].rank() < roles@[j].rank(),
            roles@.no_duplicates(),
            roles@.to_set() == self@,
    {
        let mut roles: Vec<Role> = Vec::new();
        if self.administrator {
            roles.push(Role::Administrator);
        }
        if self.negotiator {
            roles.push(Role::Negotiator);
        }
        if self.collaborator {
            roles.push(Role::Collaborator);
        }
        proof {
            assert forall|role: Role| roles@.contains(role) <==> self.has(role) by {
                if self.has(role) {
                    if self.administrator && role == Role::Administrator {
                        assert(roles@[0] == role);
                    } else if self.negotiator && role == Role::Negotiator {
                        assert(roles@[0] == role || roles@[1] == role);
                    } else {
                        assert(roles@[roles@.len() - 1] == role);
                    }
                }
            }
            assert(roles@.to_set() =~= self@);
        }
        roles
    }

    /// Whether the set holds no role at all.
    pub fn is_empty(&self) -> (empty: bool)
        ensures
            empty == (self@ == Set::<Role>::empty()),
            empty == (*self == Self::spec_empty()),
    {
        let empty = !self.administrator && !self.negotiator && !self.collaborator;
        proof {
            if empty {
                assert(self@ =~= Set::<Role>::empty());
            } else {
                assert(self@.contains(Role::Administrator) || self@.contains(Role::Negotiator)
                    || self@.contains(Role::Collaborator));
            }
        }
        empty
    }
}

} // verus!
