//! The capability contracts: identity extraction, relation iteration, and
//! relation mutation. A backing store implements them to plug into the
//! derived queries; the crate's `InMemoryRbac` is the bundled implementation.

use vstd::prelude::*;

use crate::relation::{
    add_related, contains_id, grants, is_related, remove_related, remove_related_everywhere,
};

verus! {

/// The Identifiable trait needs to be implemented for the types that are used
/// with `RbacModel` and `RbacIterators`: it extracts the canonical id that the
/// relations store in place of the entity value itself.
pub trait Identifiable {
    /// The id of `self`, as contracts speak of it.
    spec fn rbac_id(&self) -> u64;

    /// Gets the id of `self`. The result is a pure function of the value, so
    /// the same entity value always yields the same id.
    fn get_rbac_id(&self) -> (id: u64)
        ensures
            id == self.rbac_id(),
    ;
}

/// A trait for providing methods for iterating over roles and permissions.
///
/// A backing store exposes its two relations as abstract maps from owner id to
/// related id set, and hands out a snapshot of one owner's ids on request.
pub trait RbacIterators<U: Identifiable, R: Identifiable, P: Identifiable> {
    /// The type of the errors that can happen when using this trait.
    type Error;

    /// The user-to-role relation this backing holds: each present user id maps
    /// to the set of role ids assigned to it.
    spec fn user_roles(&self) -> Map<u64, Set<u64>>;

    /// The role-to-permission relation this backing holds: each present role
    /// id maps to the set of permission ids granted to it.
    spec fn role_permissions(&self) -> Map<u64, Set<u64>>;

    /// A snapshot of the ids of the roles of `user`, in no particular order
    /// and without duplicates, or an error if the user has no recorded
    /// assignment at all.
    fn iter_user_role_ids(&self, user: &U) -> (r: Result<Vec<u64>, Self::Error>)
        ensures
            match r {
                Ok(role_ids) => self.user_roles().contains_key(user.rbac_id())
                    && role_ids@.to_set() == self.user_roles()[user.rbac_id()]
                    && role_ids@.no_duplicates(),
                Err(_) => !self.user_roles().contains_key(user.rbac_id()),
            },
    ;

    /// A snapshot of the ids of the permissions of `role`, in no particular
    /// order and without duplicates, or an error if the role has no recorded
    /// grant at all.
    fn iter_role_permission_ids(&self, role: &R) -> (r: Result<Vec<u64>, Self::Error>)
        ensures
            match r {
                Ok(permission_ids) => self.role_permissions().contains_key(role.rbac_id())
                    && permission_ids@.to_set() == self.role_permissions()[role.rbac_id()]
                    && permission_ids@.no_duplicates(),
                Err(_) => !self.role_permissions().contains_key(role.rbac_id()),
            },
    ;
}

/// The authorization model's public contract: assign and unassign roles,
/// grant and revoke permissions, and the derived boolean queries.
///
/// A mutation either performs exactly the documented change and reports
/// whether the relation grew or shrank, or fails leaving the relations
/// unchanged; the bundled in-memory store never fails. The derived queries
/// never fail: "relation not found" folds into `false`.
pub trait RbacModel<U: Identifiable, R: Identifiable, P: Identifiable>: RbacIterators<
    U,
    R,
    P,
> {
    /// The type of the errors that can happen when using this trait.
    type Error;

    /// Assigns `role` to `user`, creating the user's entry if absent;
    /// `true` exactly when this is a new assignment.
    fn assign_role(&mut self, user: &U, role: &R) -> (r: Result<
        bool,
        <Self as RbacModel<U, R, P>>::Error,
    >)
        ensures
            match r {
                Ok(newly_assigned) => final(self).user_roles() == add_related(
                    old(self).user_roles(),
                    user.rbac_id(),
                    role.rbac_id(),
                ) && final(self).role_permissions() == old(self).role_permissions()
                    && newly_assigned == !is_related(
                    old(self).user_roles(),
                    user.rbac_id(),
                    role.rbac_id(),
                ),
                Err(_) => {
                    &&& final(self).user_roles() == old(self).user_roles()
                    &&& final(self).role_permissions() == old(self).role_permissions()
                },
            },
    ;

    /// Removes `role` from `user`, pruning the user's entry entirely if its
    /// role set becomes empty; `true` exactly when the role was assigned,
    /// `false` for an unknown user or an unassigned role.
    fn unassign_role(&mut self, user: &U, role: &R) -> (r: Result<
        bool,
        <Self as RbacModel<U, R, P>>::Error,
    >)
        ensures
            match r {
                Ok(removed) => final(self).user_roles() == remove_related(
                    old(self).user_roles(),
                    user.rbac_id(),
                    role.rbac_id(),
                ) && final(self).role_permissions() == old(self).role_permissions() && removed
                    == is_related(old(self).user_roles(), user.rbac_id(), role.rbac_id()),
                Err(_) => {
                    &&& final(self).user_roles() == old(self).user_roles()
                    &&& final(self).role_permissions() == old(self).role_permissions()
                },
            },
    ;

    /// Grants `permission` to `role`, creating the role's entry if absent;
    /// `true` exactly when this is a new grant.
    fn add_permission(&mut self, role: &R, permission: &P) -> (r: Result<
        bool,
        <Self as RbacModel<U, R, P>>::Error,
    >)
        ensures
            match r {
                Ok(newly_granted) => final(self).role_permissions() == add_related(
                    old(self).role_permissions(),
                    role.rbac_id(),
                    permission.rbac_id(),
                ) && final(self).user_roles() == old(self).user_roles() && newly_granted
                    == !is_related(
                    old(self).role_permissions(),
                    role.rbac_id(),
                    permission.rbac_id(),
                ),
                Err(_) => {
                    &&& final(self).user_roles() == old(self).user_roles()
                    &&& final(self).role_permissions() == old(self).role_permissions()
                },
            },
    ;

    /// Revokes `permission` from `role`, pruning the role's entry entirely if
    /// its permission set becomes empty; `true` exactly when the permission
    /// was granted, `false` for an unknown role or an ungranted permission.
    fn remove_permission(&mut self, role: &R, permission: &P) -> (r: Result<
        bool,
        <Self as RbacModel<U, R, P>>::Error,
    >)
        ensures
            match r {
                Ok(removed) => final(self).role_permissions() == remove_related(
                    old(self).role_permissions(),
                    role.rbac_id(),
                    permission.rbac_id(),
                ) && final(self).user_roles() == old(self).user_roles() && removed == is_related(
                    old(self).role_permissions(),
                    role.rbac_id(),
                    permission.rbac_id(),
                ),
                Err(_) => {
                    &&& final(self).user_roles() == old(self).user_roles()
                    &&& final(self).role_permissions() == old(self).role_permissions()
                },
            },
    ;

    /// Whether `role` is assigned to `user`; an unknown user folds into
    /// `false`, never an error.
    fn user_has_role(&self, user: &U, role: &R) -> (r: Result<
        bool,
        <Self as RbacModel<U, R, P>>::Error,
    >)
        ensures
            r == Ok::<bool, <Self as RbacModel<U, R, P>>::Error>(
                is_related(self.user_roles(), user.rbac_id(), role.rbac_id()),
            ),
    {
        match self.iter_user_role_ids(user) {
            Ok(role_ids) => Ok(contains_id(&role_ids, role.get_rbac_id())),
            Err(_) => Ok(false),
        }
    }

    /// Whether `permission` is granted to `role`; an unknown role folds into
    /// `false`, never an error.
    fn role_has_permission(&self, role: &R, permission: &P) -> (r: Result<
        bool,
        <Self as RbacModel<U, R, P>>::Error,
    >)
        ensures
            r == Ok::<bool, <Self as RbacModel<U, R, P>>::Error>(
                is_related(self.role_permissions(), role.rbac_id(), permission.rbac_id()),
            ),
    {
        match self.iter_role_permission_ids(role) {
            Ok(permission_ids) => Ok(contains_id(&permission_ids, permission.get_rbac_id())),
            Err(_) => Ok(false),
        }
    }

    /// Whether `user` holds `permission` through at least one of its roles;
    /// a user with no roles, or whose roles each lack the permission, yields
    /// `false`, never an error.
    fn user_has_permission(&self, user: &U, permission: &P) -> (r: Result<
        bool,
        <Self as RbacModel<U, R, P>>::Error,
    >)
        ensures
            r == Ok::<bool, <Self as RbacModel<U, R, P>>::Error>(
                grants(
                    self.user_roles(),
                    self.role_permissions(),
                    user.rbac_id(),
                    permission.rbac_id(),
                ),
            ),
    ;
}

/// The abstract state of a store that tracks which users and roles exist
/// independent of the two relations.
pub struct RbacStoreState {
    /// The ids of the users the store knows.
    pub users: Set<u64>,
    /// The ids of the roles the store knows.
    pub roles: Set<u64>,
    /// The user-to-role relation.
    pub user_roles: Map<u64, Set<u64>>,
    /// The role-to-permission relation.
    pub role_permissions: Map<u64, Set<u64>>,
}

/// The optional lifecycle contract for backends that track entity existence
/// independent of the relations: users and roles are registered and removed
/// explicitly, and removing a role cascades, taking it away from every user
/// and dropping its permission grants. The bundled in-memory store does not
/// implement it; persistent backends acting as external collaborators should.
///
/// A mutation either performs exactly the documented change and reports
/// whether anything changed, or fails leaving the state unchanged.
pub trait RbacStore<U: Identifiable, R: Identifiable, P: Identifiable> {
    /// The type of the errors that can happen when using this trait.
    type Error;

    /// The registered users and roles together with the two relations.
    spec fn state(&self) -> RbacStoreState;

    /// Add a user without roles to the rbac store; `true` exactly when the
    /// user was not registered before.
    fn add_user(&mut self, user: &U) -> (r: Result<bool, Self::Error>)
        ensures
            match r {
                Ok(added) => final(self).state() == (RbacStoreState {
                    users: old(self).state().users.insert(user.rbac_id()),
                    ..old(self).state()
                }) && added == !old(self).state().users.contains(user.rbac_id()),
                Err(_) => final(self).state() == old(self).state(),
            },
    ;

    /// Remove a user from the rbac store, dropping its role assignments;
    /// `true` exactly when the user was registered.
    fn remove_user(&mut self, user: &U) -> (r: Result<bool, Self::Error>)
        ensures
            match r {
                Ok(removed) => final(self).state() == (RbacStoreState {
                    users: old(self).state().users.remove(user.rbac_id()),
                    user_roles: old(self).state().user_roles.remove(user.rbac_id()),
                    ..old(self).state()
                }) && removed == old(self).state().users.contains(user.rbac_id()),
                Err(_) => final(self).state() == old(self).state(),
            },
    ;

    /// Add a role to a user; `true` exactly when this is a new assignment.
    fn add_user_role(&mut self, user: &U, role: &R) -> (r: Result<bool, Self::Error>)
        ensures
            match r {
                Ok(added) => final(self).state() == (RbacStoreState {
                    user_roles: add_related(
                        old(self).state().user_roles,
                        user.rbac_id(),
                        role.rbac_id(),
                    ),
                    ..old(self).state()
                }) && added == !is_related(
                    old(self).state().user_roles,
                    user.rbac_id(),
                    role.rbac_id(),
                ),
                Err(_) => final(self).state() == old(self).state(),
            },
    ;

    /// Remove a role from a user, pruning the user's relation entry if its
    /// role set becomes empty; `true` exactly when the role was assigned.
    fn remove_user_role(&mut self, user: &U, role: &R) -> (r: Result<bool, Self::Error>)
        ensures
            match r {
                Ok(removed) => final(self).state() == (RbacStoreState {
                    user_roles: remove_related(
                        old(self).state().user_roles,
                        user.rbac_id(),
                        role.rbac_id(),
                    ),
                    ..old(self).state()
                }) && removed == is_related(
                    old(self).state().user_roles,
                    user.rbac_id(),
                    role.rbac_id(),
                ),
                Err(_) => final(self).state() == old(self).state(),
            },
    ;

    /// Add a role without permissions to the rbac store; `true` exactly when
    /// the role was not registered before.
    fn add_role(&mut self, role: &R) -> (r: Result<bool, Self::Error>)
        ensures
            match r {
                Ok(added) => final(self).state() == (RbacStoreState {
                    roles: old(self).state().roles.insert(role.rbac_id()),
                    ..old(self).state()
                }) && added == !old(self).state().roles.contains(role.rbac_id()),
                Err(_) => final(self).state() == old(self).state(),
            },
    ;

    /// Remove a role from the rbac store and from all users with this role,
    /// dropping the role's permission grants as well; `true` exactly when the
    /// role was registered.
    fn remove_role(&mut self, role: &R) -> (r: Result<bool, Self::Error>)
        ensures
            match r {
                Ok(removed) => final(self).state() == (RbacStoreState {
                    roles: old(self).state().roles.remove(role.rbac_id()),
                    user_roles: remove_related_everywhere(
                        old(self).state().user_roles,
                        role.rbac_id(),
                    ),
                    role_permissions: old(self).state().role_permissions.remove(role.rbac_id()),
                    ..old(self).state()
                }) && removed == old(self).state().roles.contains(role.rbac_id()),
                Err(_) => final(self).state() == old(self).state(),
            },
    ;

    /// Add a permission to a role; `true` exactly when this is a new grant.
    fn add_role_perm(&mut self, role: &R, perm: &P) -> (r: Result<bool, Self::Error>)
        ensures
            match r {
                Ok(added) => final(self).state() == (RbacStoreState {
                    role_permissions: add_related(
                        old(self).state().role_permissions,
                        role.rbac_id(),
                        perm.rbac_id(),
                    ),
                    ..old(self).state()
                }) && added == !is_related(
                    old(self).state().role_permissions,
                    role.rbac_id(),
                    perm.rbac_id(),
                ),
                Err(_) => final(self).state() == old(self).state(),
            },
    ;

    /// Remove a permission from a role, pruning the role's relation entry if
    /// its permission set becomes empty; `true` exactly when the permission
    /// was granted.
    fn remove_role_perm(&mut self, role: &R, permission: &P) -> (r: Result<bool, Self::Error>)
        ensures
            match r {
                Ok(removed) => final(self).state() == (RbacStoreState {
                    role_permissions: remove_related(
                        old(self).state().role_permissions,
                        role.rbac_id(),
                        permission.rbac_id(),
                    ),
                    ..old(self).state()
                }) && removed == is_related(
                    old(self).state().role_permissions,
                    role.rbac_id(),
                    permission.rbac_id(),
                ),
                Err(_) => final(self).state() == old(self).state(),
            },
    ;
}

} // verus!
