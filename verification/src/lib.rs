//! An in-process role-based access control model: which roles a user is
//! assigned, which permissions a role is granted, and whether a user holds a
//! permission through some role.

pub mod entities;
pub mod relation;
pub mod traits;

use core::marker::PhantomData;
use std::collections::HashMap;

use vstd::prelude::*;

use crate::relation::{add_related, contains_id, grants, is_related, remove_related, well_formed};
use crate::traits::{Identifiable, RbacIterators, RbacModel};

verus! {

/// Possible errors that can occur when using the `InMemoryRbac` struct.
#[derive(Clone, Copy, Debug, PartialEq, Eq, Structural)]
pub enum InMemoryRbacError {
    /// A user has no roles, not even one.
    UserHasNoRoles,
    /// A role has no permissions, not even one.
    RoleHasNoPermissions,
}

/// The abstract relation held by one of the store's maps: each key maps to
/// the set of ids in its vector.
spec fn rel_view(m: Map<u64, Vec<u64>>) -> Map<u64, Set<u64>> {
    Map::new(|owner: u64| m.contains_key(owner), |owner: u64| m[owner]@.to_set())
}

/// Every vector in the map is non-empty and free of duplicates, so the
/// abstract relation it stands for is well formed.
spec fn rel_inv(m: Map<u64, Vec<u64>>) -> bool {
    forall|owner: u64| #[trigger]
        m.contains_key(owner) ==> m[owner]@.len() > 0 && m[owner]@.no_duplicates()
}

/// The sole concrete store: two association maps, user id to assigned role
/// ids and role id to granted permission ids. A key is present exactly while
/// its id set is non-empty; only ids are retained, never entity values.
pub struct InMemoryRbac<U: Identifiable, R: Identifiable, P: Identifiable> {
    user_role_map: HashMap<u64, Vec<u64>>,
    role_permission_map: HashMap<u64, Vec<u64>>,
    entity_types: PhantomData<(U, R, P)>,
}

impl<U: Identifiable, R: Identifiable, P: Identifiable> InMemoryRbac<U, R, P> {
    #[verifier::type_invariant]
    spec fn inv(self) -> bool {
        rel_inv(self.user_role_map@) && rel_inv(self.role_permission_map@)
    }

    /// Creates a store with no assignments and no grants.
    pub fn new() -> (store: Self)
        ensures
            store.user_roles() == Map::<u64, Set<u64>>::empty(),
            store.role_permissions() == Map::<u64, Set<u64>>::empty(),
    {
        let store = InMemoryRbac {
            user_role_map: HashMap::new(),
            role_permission_map: HashMap::new(),
            entity_types: PhantomData,
        };
        proof {
            assert(store.user_roles() =~= Map::<u64, Set<u64>>::empty());
            assert(store.role_permissions() =~= Map::<u64, Set<u64>>::empty());
        }
        store
    }

    /// The pruning invariant, surfaced for callers' proofs: both relations of
    /// a store are well formed at all times — an owner whose id set would be
    /// empty is absent from the map, never present with an empty set.
    pub fn relations_well_formed(&self)
        ensures
            well_formed(self.user_roles()),
            well_formed(self.role_permissions()),
    {
        proof {
            use_type_invariant(self);
            lemma_rel_view_well_formed(self.user_role_map@);
            lemma_rel_view_well_formed(self.role_permission_map@);
        }
    }
}

/// A map of non-empty duplicate-free vectors stands for a well-formed
/// relation.
proof fn lemma_rel_view_well_formed(m: Map<u64, Vec<u64>>)
    requires
        rel_inv(m),
    ensures
        well_formed(rel_view(m)),
{
    assert forall|owner: u64| #[trigger]
        rel_view(m).contains_key(owner) implies rel_view(m)[owner].finite() && !rel_view(
        m,
    )[owner].is_empty() by {
        vstd::seq_lib::seq_to_set_is_finite::<u64>(m[owner]@);
        assert(m[owner]@.to_set().contains(m[owner]@[0]));
    }
}

impl<U: Identifiable, R: Identifiable, P: Identifiable> RbacIterators<U, R, P> for InMemoryRbac<
    U,
    R,
    P,
> {
    type Error = InMemoryRbacError;

    closed spec fn user_roles(&self) -> Map<u64, Set<u64>> {
        rel_view(self.user_role_map@)
    }

    closed spec fn role_permissions(&self) -> Map<u64, Set<u64>> {
        rel_view(self.role_permission_map@)
    }

    fn iter_user_role_ids(&self, user: &U) -> (r: Result<Vec<u64>, InMemoryRbacError>)
        ensures
            r is Err ==> r == Err::<Vec<u64>, InMemoryRbacError>(InMemoryRbacError::UserHasNoRoles),
    {
        proof {
            use_type_invariant(self);
        }
        match self.user_role_map.get(&user.get_rbac_id()) {
            Some(ids) => Ok(clone_ids(ids)),
            None => Err(InMemoryRbacError::UserHasNoRoles),
        }
    }

    fn iter_role_permission_ids(&self, role: &R) -> (r: Result<Vec<u64>, InMemoryRbacError>)
        ensures
            r is Err ==> r == Err::<Vec<u64>, InMemoryRbacError>(
                InMemoryRbacError::RoleHasNoPermissions,
            ),
    {
        proof {
            use_type_invariant(self);
        }
        match self.role_permission_map.get(&role.get_rbac_id()) {
            Some(ids) => Ok(clone_ids(ids)),
            None => Err(InMemoryRbacError::RoleHasNoPermissions),
        }
    }
}

/// Pushing a fresh id onto a duplicate-free id sequence adds it to the
/// sequence's set of ids and keeps the sequence duplicate free.
proof fn lemma_seq_push_to_set(s: Seq<u64>, v: u64)
    ensures
        s.push(v).to_set() == s.to_set().insert(v),
        !s.contains(v) && s.no_duplicates() ==> s.push(v).no_duplicates(),
{
    assert forall|x: u64| s.push(v).to_set().contains(x) <==> s.to_set().insert(v).contains(
        x,
    ) by {
        if s.push(v).contains(x) {
            let j = choose|j: int| 0 <= j < s.push(v).len() && s.push(v)[j] == x;
            if j < s.len() {
                assert(s[j] == x);
            }
        }
        if s.contains(x) {
            let j = choose|j: int| 0 <= j < s.len() && s[j] == x;
            assert(s.push(v)[j] == x);
        }
        if x == v {
            assert(s.push(v)[s.len() as int] == x);
        }
    }
    assert(s.push(v).to_set() =~= s.to_set().insert(v));
    if !s.contains(v) && s.no_duplicates() {
        assert forall|p: int, q: int|
            0 <= p < s.push(v).len() && 0 <= q < s.push(v).len() && p != q implies s.push(v)[p]
            != s.push(v)[q] by {
            if p < s.len() && q < s.len() {
                assert(s.push(v)[p] == s[p] && s.push(v)[q] == s[q]);
            } else if p == s.len() {
                assert(s.push(v)[q] == s[q] && s[q] != v);
            } else {
                assert(s.push(v)[p] == s[p] && s[p] != v);
            }
        }
    }
}

/// Removing one position from a duplicate-free id sequence removes exactly
/// that id from the sequence's set and keeps the sequence duplicate free.
proof fn lemma_seq_remove_to_set(s: Seq<u64>, i: int)
    requires
        0 <= i < s.len(),
        s.no_duplicates(),
    ensures
        s.remove(i).to_set() == s.to_set().remove(s[i]),
        s.remove(i).no_duplicates(),
{
    s.remove_ensures(i);
    let t = s.remove(i);
    assert forall|x: u64| t.contains(x) <==> (s.contains(x) && x != s[i]) by {
        if t.contains(x) {
            let j = choose|j: int| 0 <= j < t.len() && t[j] == x;
            if j < i {
                assert(s[j] == x && s[j] != s[i]);
            } else {
                assert(s[j + 1] == x && s[j + 1] != s[i]);
            }
        }
        if s.contains(x) && x != s[i] {
            let j = choose|j: int| 0 <= j < s.len() && s[j] == x;
            if j < i {
                assert(t[j] == x);
            } else {
                assert(t[j - 1] == x);
            }
        }
    }
    assert(t.to_set() =~= s.to_set().remove(s[i]));
    assert forall|p: int, q: int| 0 <= p < t.len() && 0 <= q < t.len() && p != q implies t[p]
        != t[q] by {
        let sp = if p < i {
            p
        } else {
            p + 1
        };
        let sq = if q < i {
            q
        } else {
            q + 1
        };
        assert(t[p] == s[sp] && t[q] == s[sq]);
    }
}

/// Removes `target` from `ids` if present, preserving freedom from
/// duplicates.
fn remove_id(ids: &mut Vec<u64>, target: u64) -> (removed: bool)
    requires
        old(ids)@.no_duplicates(),
    ensures
        final(ids)@.no_duplicates(),
        final(ids)@.to_set() == old(ids)@.to_set().remove(target),
        removed == old(ids)@.contains(target),
{
    let ghost orig: Seq<u64> = ids@;
    let mut i: usize = 0;
    while i < ids.len()
        invariant
            orig == old(ids)@,
            ids@ == orig,
            orig.no_duplicates(),
            i <= orig.len(),
            forall|j: int| 0 <= j < i ==> orig[j] != target,
        decreases orig.len() - i,
    {
        if ids[i] == target {
            proof {
                assert(orig[i as int] == target);
                lemma_seq_remove_to_set(orig, i as int);
            }
            ids.remove(i);
            return true;
        }
        i += 1;
    }
    proof {
        assert(!orig.contains(target));
        assert(orig.to_set().remove(target) =~= orig.to_set());
    }
    false
}

/// Adds `member` to `owner`'s vector in `rel`, creating the entry if the
/// owner was absent; the abstract relation gains exactly that membership.
fn insert_related(rel: &mut HashMap<u64, Vec<u64>>, owner: u64, member: u64) -> (added: bool)
    requires
        rel_inv(old(rel)@),
    ensures
        rel_inv(final(rel)@),
        rel_view(final(rel)@) == add_related(rel_view(old(rel)@), owner, member),
        added == !is_related(rel_view(old(rel)@), owner, member),
{
    let ghost orig = rel@;
    match rel.remove(&owner) {
        Some(mut ids) => {
            let already = contains_id(&ids, member);
            if !already {
                proof {
                    lemma_seq_push_to_set(ids@, member);
                }
                ids.push(member);
            }
            rel.insert(owner, ids);
            proof {
                assert(rel_view(rel@) =~~= add_related(rel_view(orig), owner, member));
            }
            !already
        },
        None => {
            let mut ids: Vec<u64> = Vec::new();
            proof {
                lemma_seq_push_to_set(ids@, member);
            }
            ids.push(member);
            rel.insert(owner, ids);
            proof {
                assert(rel_view(rel@) =~~= add_related(rel_view(orig), owner, member));
            }
            true
        },
    }
}

/// Removes `member` from `owner`'s vector in `rel`, pruning the entry
/// entirely if the vector becomes empty; the abstract relation loses exactly
/// that membership.
fn delete_related(rel: &mut HashMap<u64, Vec<u64>>, owner: u64, member: u64) -> (removed: bool)
    requires
        rel_inv(old(rel)@),
    ensures
        rel_inv(final(rel)@),
        rel_view(final(rel)@) == remove_related(rel_view(old(rel)@), owner, member),
        removed == is_related(rel_view(old(rel)@), owner, member),
{
    let ghost orig = rel@;
    match rel.remove(&owner) {
        Some(mut ids) => {
            let removed = remove_id(&mut ids, member);
            if ids.is_empty() {
                proof {
                    assert(ids@.to_set() =~= Set::<u64>::empty());
                    assert(rel_view(rel@) =~~= remove_related(rel_view(orig), owner, member));
                }
            } else {
                proof {
                    assert(ids@.to_set().contains(ids@[0]));
                }
                rel.insert(owner, ids);
                proof {
                    assert(rel_view(rel@) =~~= remove_related(rel_view(orig), owner, member));
                }
            }
            removed
        },
        None => {
            proof {
                assert(Set::<u64>::empty().remove(member) =~= Set::<u64>::empty());
                assert(rel_view(rel@) =~~= remove_related(rel_view(orig), owner, member));
            }
            false
        },
    }
}

impl<U: Identifiable, R: Identifiable, P: Identifiable> RbacModel<U, R, P> for InMemoryRbac<
    U,
    R,
    P,
> {
    type Error = InMemoryRbacError;

    fn assign_role(&mut self, user: &U, role: &R) -> (r: Result<bool, InMemoryRbacError>)
        ensures
            r is Ok,
    {
        proof {
            use_type_invariant(&*self);
        }
        let mut rel: HashMap<u64, Vec<u64>> = HashMap::new();
        core::mem::swap(&mut rel, &mut self.user_role_map);
        let added = insert_related(&mut rel, user.get_rbac_id(), role.get_rbac_id());
        self.user_role_map = rel;
        Ok(added)
    }

    fn unassign_role(&mut self, user: &U, role: &R) -> (r: Result<bool, InMemoryRbacError>)
        ensures
            r is Ok,
    {
        proof {
            use_type_invariant(&*self);
        }
        let mut rel: HashMap<u64, Vec<u64>> = HashMap::new();
        core::mem::swap(&mut rel, &mut self.user_role_map);
        let removed = delete_related(&mut rel, user.get_rbac_id(), role.get_rbac_id());
        self.user_role_map = rel;
        Ok(removed)
    }

    fn add_permission(&mut self, role: &R, permission: &P) -> (r: Result<bool, InMemoryRbacError>)
        ensures
            r is Ok,
    {
        proof {
            use_type_invariant(&*self);
        }
        let mut rel: HashMap<u64, Vec<u64>> = HashMap::new();
        core::mem::swap(&mut rel, &mut self.role_permission_map);
        let added = insert_related(&mut rel, role.get_rbac_id(), permission.get_rbac_id());
        self.role_permission_map = rel;
        Ok(added)
    }

    fn remove_permission(&mut self, role: &R, permission: &P) -> (r: Result<
        bool,
        InMemoryRbacError,
    >)
        ensures
            r is Ok,
    {
        proof {
            use_type_invariant(&*self);
        }
        let mut rel: HashMap<u64, Vec<u64>> = HashMap::new();
        core::mem::swap(&mut rel, &mut self.role_permission_map);
        let removed = delete_related(&mut rel, role.get_rbac_id(), permission.get_rbac_id());
        self.role_permission_map = rel;
        Ok(removed)
    }

    fn user_has_permission(&self, user: &U, permission: &P) -> (r: Result<
        bool,
        InMemoryRbacError,
    >)
        ensures
            r is Ok,
    {
        let uid = user.get_rbac_id();
        let pid = permission.get_rbac_id();
        match self.user_role_map.get(&uid) {
            Some(role_ids) => {
                let mut i: usize = 0;
                while i < role_ids.len()
                    invariant
                        uid == user.rbac_id(),
                        pid == permission.rbac_id(),
                        i <= role_ids@.len(),
                        self.user_role_map@.contains_key(uid),
                        role_ids@ == self.user_role_map@[uid]@,
                        forall|j: int|
                            0 <= j < i ==> !is_related(
                                rel_view(self.role_permission_map@),
                                role_ids@[j],
                                pid,
                            ),
                    decreases role_ids@.len() - i,
                {
                    let rid = role_ids[i];
                    match self.role_permission_map.get(&rid) {
                        Some(perm_ids) => {
                            if contains_id(perm_ids, pid) {
                                proof {
                                    assert(role_ids@[i as int] == rid);
                                    assert(role_ids@.contains(rid));
                                    assert(is_related(self.user_roles(), uid, rid));
                                    assert(is_related(self.role_permissions(), rid, pid));
                                    assert(grants(
                                        self.user_roles(),
                                        self.role_permissions(),
                                        uid,
                                        pid,
                                    ));
                                }
                                return Ok(true);
                            }
                        },
                        None => {
                        },
                    }
                    i += 1;
                }
                proof {
                    assert forall|rid: u64|
                        is_related(self.user_roles(), uid, rid) implies !is_related(
                        self.role_permissions(),
                        rid,
                        pid,
                    ) by {
                        assert(role_ids@.contains(rid));
                        let j = choose|j: int| 0 <= j < role_ids@.len() && role_ids@[j] == rid;
                        assert(!is_related(rel_view(self.role_permission_map@), role_ids@[j], pid));
                    }
                }
                Ok(false)
            },
            None => Ok(false),
        }
    }
}

/// An owned copy of a borrowed id vector, so that the snapshot a caller gets
/// outlives the borrow of the store.
fn clone_ids(ids: &Vec<u64>) -> (out: Vec<u64>)
    ensures
        out@ == ids@,
{
    let mut out: Vec<u64> = Vec::new();
    let mut i: usize = 0;
    while i < ids.len()
        invariant
            i <= ids@.len(),
            out@ == ids@.subrange(0, i as int),
        decreases ids@.len() - i,
    {
        out.push(ids[i]);
        i += 1;
    }
    proof {
        assert(out@ == ids@.subrange(0, ids@.len() as int));
        assert(ids@.subrange(0, ids@.len() as int) =~= ids@);
    }
    out
}

} // verus!
