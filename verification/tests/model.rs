use std::collections::HashSet;

use rbac::entities::{Permission, Role, User};
use rbac::traits::{RbacIterators, RbacModel};
use rbac::{InMemoryRbac, InMemoryRbacError};

fn empty_store() -> InMemoryRbac<User, Role, Permission> {
    InMemoryRbac::new()
}

#[test]
fn new_store_is_empty() {
    let memory = empty_store();
    memory.relations_well_formed();
    let user = User { id: 1 };
    let role = Role { id: 2 };
    let permission = Permission { id: 3 };

    assert_eq!(
        memory.iter_user_role_ids(&user).unwrap_err(),
        InMemoryRbacError::UserHasNoRoles
    );
    assert_eq!(
        memory.iter_role_permission_ids(&role).unwrap_err(),
        InMemoryRbacError::RoleHasNoPermissions
    );
    assert_eq!(memory.user_has_role(&user, &role), Ok(false));
    assert_eq!(memory.role_has_permission(&role, &permission), Ok(false));
    assert_eq!(memory.user_has_permission(&user, &permission), Ok(false));
}

#[test]
fn assign_role_idempotent() {
    let mut memory = empty_store();
    let user = User { id: 1 };
    let role = Role { id: 2 };

    assert_eq!(memory.assign_role(&user, &role), Ok(true));
    assert_eq!(memory.assign_role(&user, &role), Ok(false));
    assert_eq!(memory.user_has_role(&user, &role), Ok(true));
}

#[test]
fn add_permission_idempotent() {
    let mut memory = empty_store();
    let role = Role { id: 2 };
    let permission = Permission { id: 3 };

    assert_eq!(memory.add_permission(&role, &permission), Ok(true));
    assert_eq!(memory.add_permission(&role, &permission), Ok(false));
    assert_eq!(memory.role_has_permission(&role, &permission), Ok(true));
}

#[test]
fn last_role_removal_prunes_user() {
    let mut memory = empty_store();
    let user = User { id: 1 };
    let role = Role { id: 2 };

    memory.assign_role(&user, &role).unwrap();
    assert!(memory.iter_user_role_ids(&user).is_ok());

    assert_eq!(memory.unassign_role(&user, &role), Ok(true));

    // The entry is gone, not present with an empty sequence.
    assert_eq!(
        memory.iter_user_role_ids(&user).unwrap_err(),
        InMemoryRbacError::UserHasNoRoles
    );
}

#[test]
fn last_permission_removal_prunes_role() {
    let mut memory = empty_store();
    let role = Role { id: 2 };
    let permission = Permission { id: 3 };

    memory.add_permission(&role, &permission).unwrap();
    assert!(memory.iter_role_permission_ids(&role).is_ok());

    assert_eq!(memory.remove_permission(&role, &permission), Ok(true));

    assert_eq!(
        memory.iter_role_permission_ids(&role).unwrap_err(),
        InMemoryRbacError::RoleHasNoPermissions
    );
}

#[test]
fn unknown_ids_are_safe() {
    let mut memory = empty_store();
    let user = User { id: 77 };
    let role = Role { id: 88 };
    let permission = Permission { id: 99 };

    // Ids never inserted: removal reports false, never an error.
    assert_eq!(memory.unassign_role(&user, &role), Ok(false));
    assert_eq!(memory.remove_permission(&role, &permission), Ok(false));
}

#[test]
fn permission_check_matches_role_join() {
    let (memory, users, roles, permissions) = lotr_environment();

    // The transitive check agrees with the existential join of the two
    // boolean queries on every user/permission pair.
    for user in &users {
        for permission in &permissions {
            let direct = memory.user_has_permission(user, permission).unwrap();
            let joined = roles.iter().any(|role| {
                memory.user_has_role(user, role).unwrap()
                    && memory.role_has_permission(role, permission).unwrap()
            });
            assert_eq!(direct, joined);
        }
    }
}

#[test]
fn role_id_sets_ignore_order() {
    let first = Role { id: 110 };
    let second = Role { id: 111 };
    let user = User { id: 12 };

    let mut one_way = empty_store();
    one_way.assign_role(&user, &first).unwrap();
    one_way.assign_role(&user, &second).unwrap();

    let mut other_way = empty_store();
    other_way.assign_role(&user, &second).unwrap();
    other_way.assign_role(&user, &first).unwrap();

    let lhs: HashSet<u64> = one_way
        .iter_user_role_ids(&user)
        .unwrap()
        .into_iter()
        .collect();
    let rhs: HashSet<u64> = other_way
        .iter_user_role_ids(&user)
        .unwrap()
        .into_iter()
        .collect();
    let expected: HashSet<u64> = vec![110, 111].into_iter().collect();

    assert_eq!(lhs, expected);
    assert_eq!(rhs, expected);

    // The snapshots themselves carry no duplicates.
    assert_eq!(one_way.iter_user_role_ids(&user).unwrap().len(), 2);
    assert_eq!(other_way.iter_user_role_ids(&user).unwrap().len(), 2);
}

#[test]
fn administrator_scenario() {
    let mut memory = empty_store();
    let gandalf = User { id: 10 };
    let frodo = User { id: 14 };
    let administrator = Role { id: 113 };

    memory.assign_role(&gandalf, &administrator).unwrap();
    for id in 210..215 {
        memory
            .add_permission(&administrator, &Permission { id })
            .unwrap();
    }

    let alter_state = Permission { id: 213 };
    assert_eq!(memory.user_has_permission(&gandalf, &alter_state), Ok(true));
    assert_eq!(memory.user_has_permission(&frodo, &alter_state), Ok(false));
    assert_eq!(
        memory.iter_user_role_ids(&frodo).unwrap_err(),
        InMemoryRbacError::UserHasNoRoles
    );
}

#[test]
fn permissions_join_across_roles() {
    let mut memory = empty_store();
    let sam = User { id: 12 };
    let agent = Role { id: 110 };
    let salesperson = Role { id: 111 };

    memory.assign_role(&sam, &agent).unwrap();
    memory.assign_role(&sam, &salesperson).unwrap();
    memory.add_permission(&agent, &Permission { id: 210 }).unwrap();
    memory.add_permission(&agent, &Permission { id: 211 }).unwrap();
    memory
        .add_permission(&salesperson, &Permission { id: 212 })
        .unwrap();

    // Via salesperson.
    assert_eq!(
        memory.user_has_permission(&sam, &Permission { id: 212 }),
        Ok(true)
    );
    // Via agent.
    assert_eq!(
        memory.user_has_permission(&sam, &Permission { id: 210 }),
        Ok(true)
    );
}

#[test]
fn round_trip_restores_state() {
    let mut memory = empty_store();
    let user = User { id: 1 };
    let kept = Role { id: 2 };
    let passing = Role { id: 3 };

    memory.assign_role(&user, &kept).unwrap();

    assert_eq!(memory.assign_role(&user, &passing), Ok(true));
    assert_eq!(memory.unassign_role(&user, &passing), Ok(true));

    // Only the original role remains, as if the other was never assigned.
    assert_eq!(memory.iter_user_role_ids(&user).unwrap(), vec![2]);

    // A round trip on a fresh user re-triggers the lookup error.
    let visitor = User { id: 9 };
    assert_eq!(memory.assign_role(&visitor, &passing), Ok(true));
    assert_eq!(memory.unassign_role(&visitor, &passing), Ok(true));
    assert_eq!(
        memory.iter_user_role_ids(&visitor).unwrap_err(),
        InMemoryRbacError::UserHasNoRoles
    );
}

// gandalf is administrator; elrond is supervisor; sam is agent and
// salesperson; legolas is salesperson; frodo has no role.
fn lotr_environment() -> (
    InMemoryRbac<User, Role, Permission>,
    Vec<User>,
    Vec<Role>,
    Vec<Permission>,
) {
    let mut memory = empty_store();

    let users: Vec<User> = vec![10, 11, 12, 13, 14].into_iter().map(|id| User { id }).collect();
    let roles: Vec<Role> = vec![110, 111, 112, 113].into_iter().map(|id| Role { id }).collect();
    let permissions: Vec<Permission> = vec![210, 211, 212, 213, 214]
        .into_iter()
        .map(|id| Permission { id })
        .collect();

    memory.assign_role(&users[0], &roles[3]).unwrap();
    memory.assign_role(&users[1], &roles[2]).unwrap();
    memory.assign_role(&users[2], &roles[0]).unwrap();
    memory.assign_role(&users[2], &roles[1]).unwrap();
    memory.assign_role(&users[3], &roles[1]).unwrap();

    memory.add_permission(&roles[0], &permissions[0]).unwrap();
    memory.add_permission(&roles[0], &permissions[1]).unwrap();
    memory.add_permission(&roles[1], &permissions[2]).unwrap();
    memory.add_permission(&roles[2], &permissions[0]).unwrap();
    memory.add_permission(&roles[2], &permissions[1]).unwrap();
    memory.add_permission(&roles[2], &permissions[2]).unwrap();
    memory.add_permission(&roles[2], &permissions[3]).unwrap();
    for p in &permissions {
        memory.add_permission(&roles[3], p).unwrap();
    }

    (memory, users, roles, permissions)
}
