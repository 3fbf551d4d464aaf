//! Plain entity types carrying nothing but their canonical id. Entities are
//! opaque to the store — only the id is ever retained — so these are the
//! simplest types satisfying the identity capability, ready for callers that
//! have no richer entity type of their own.

use vstd::prelude::*;

use crate::traits::Identifiable;

verus! {

/// A principal that can be assigned roles.
#[derive(Clone, Copy, Debug, PartialEq, Eq, Structural)]
pub struct User {
    /// The canonical id of this user.
    pub id: u64,
}

impl Identifiable for User {
    open spec fn rbac_id(&self) -> u64 {
        self.id
    }

    fn get_rbac_id(&self) -> u64 {
        self.id
    }
}

/// A named bundle of permissions, assignable to users.
#[derive(Clone, Copy, Debug, PartialEq, Eq, Structural)]
pub struct Role {
    /// The canonical id of this role.
    pub id: u64,
}

impl Identifiable for Role {
    open spec fn rbac_id(&self) -> u64 {
        self.id
    }

    fn get_rbac_id(&self) -> u64 {
        self.id
    }
}

/// An atomic grant checked by the permission queries.
#[derive(Clone, Copy, Debug, PartialEq, Eq, Structural)]
pub struct Permission {
    /// The canonical id of this permission.
    pub id: u64,
}

impl Identifiable for Permission {
    open spec fn rbac_id(&self) -> u64 {
        self.id
    }

    fn get_rbac_id(&self) -> u64 {
        self.id
    }
}

} // verus!
