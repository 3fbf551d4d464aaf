//! The mathematical model of an id relation: a map from an owner id to the
//! set of ids related to it, pruned so that a key is present exactly when its
//! set is non-empty.

use vstd::prelude::*;

verus! {

/// The ids related to `owner` in `rel`; an owner absent from the map has the
/// empty set of related ids, so "no entry" and "empty entry" mean the same.
pub open spec fn ids_of(rel: Map<u64, Set<u64>>, owner: u64) -> Set<u64> {
    if rel.contains_key(owner) {
        rel[owner]
    } else {
        Set::empty()
    }
}

/// Whether `member` is related to `owner` in `rel`.
pub open spec fn is_related(rel: Map<u64, Set<u64>>, owner: u64, member: u64) -> bool {
    ids_of(rel, owner).contains(member)
}

/// The relation after `member` is added to `owner`'s id set, creating the
/// entry if the owner was absent.
pub open spec fn add_related(rel: Map<u64, Set<u64>>, owner: u64, member: u64) -> Map<
    u64,
    Set<u64>,
> {
    rel.insert(owner, ids_of(rel, owner).insert(member))
}

/// The relation after `member` is removed from `owner`'s id set; an owner
/// whose set becomes empty is pruned from the map entirely.
pub open spec fn remove_related(rel: Map<u64, Set<u64>>, owner: u64, member: u64) -> Map<
    u64,
    Set<u64>,
> {
    let remaining = ids_of(rel, owner).remove(member);
    if remaining.is_empty() {
        rel.remove(owner)
    } else {
        rel.insert(owner, remaining)
    }
}

/// The relation after `member` is removed from every owner's id set, pruning
/// every owner whose set becomes empty. Stores that delete a role outright
/// cascade with this.
pub open spec fn remove_related_everywhere(rel: Map<u64, Set<u64>>, member: u64) -> Map<
    u64,
    Set<u64>,
> {
    Map::new(
        |owner: u64| rel.contains_key(owner) && !rel[owner].remove(member).is_empty(),
        |owner: u64| rel[owner].remove(member),
    )
}

/// A relation map is well formed when every present key maps to a finite,
/// non-empty id set: an owner with no related ids is absent, never present
/// with an empty set.
pub open spec fn well_formed(rel: Map<u64, Set<u64>>) -> bool {
    forall|owner: u64| #[trigger]
        rel.contains_key(owner) ==> rel[owner].finite() && !rel[owner].is_empty()
}

/// A user holds a permission exactly when at least one role is assigned to the
/// user and granted the permission.
pub open spec fn grants(
    user_roles: Map<u64, Set<u64>>,
    role_permissions: Map<u64, Set<u64>>,
    user_id: u64,
    permission_id: u64,
) -> bool {
    exists|role_id: u64|
        is_related(user_roles, user_id, role_id) && is_related(
            role_permissions,
            role_id,
            permission_id,
        )
}

/// Law: adding a relation is idempotent. After `member` is added to `owner`,
/// the membership test reports it — so a mutation that reports "newly added"
/// the first time reports "already present" the second — and adding it again
/// leaves the relation exactly as it was.
pub proof fn lemma_add_related_idempotent(rel: Map<u64, Set<u64>>, owner: u64, member: u64)
    ensures
        is_related(add_related(rel, owner, member), owner, member),
        add_related(add_related(rel, owner, member), owner, member) == add_related(
            rel,
            owner,
            member,
        ),
{
    assert(add_related(add_related(rel, owner, member), owner, member) =~~= add_related(
        rel,
        owner,
        member,
    ));
}

/// Law: adding a relation keeps the map well formed — the touched owner's set
/// gains a member and so cannot become empty.
pub proof fn lemma_add_related_well_formed(rel: Map<u64, Set<u64>>, owner: u64, member: u64)
    requires
        well_formed(rel),
    ensures
        well_formed(add_related(rel, owner, member)),
{
    let updated = add_related(rel, owner, member);
    assert forall|o: u64| #[trigger]
        updated.contains_key(o) implies updated[o].finite() && !updated[o].is_empty() by {
        if o == owner {
            assert(updated[o].contains(member));
        }
    }
}

/// Law: removing a relation keeps the map well formed — an owner whose set
/// would become empty is pruned rather than kept with an empty set.
pub proof fn lemma_remove_related_well_formed(rel: Map<u64, Set<u64>>, owner: u64, member: u64)
    requires
        well_formed(rel),
    ensures
        well_formed(remove_related(rel, owner, member)),
{
    let updated = remove_related(rel, owner, member);
    assert forall|o: u64| #[trigger]
        updated.contains_key(o) implies updated[o].finite() && !updated[o].is_empty() by {
        if o == owner {
            assert(!ids_of(rel, owner).remove(member).is_empty());
        }
    }
}

/// Law: removing an owner's last related id prunes the owner from the map
/// entirely, so a later lookup finds no entry at all rather than an empty
/// set.
pub proof fn lemma_remove_related_prunes(rel: Map<u64, Set<u64>>, owner: u64, member: u64)
    requires
        ids_of(rel, owner) == set![member],
    ensures
        !remove_related(rel, owner, member).contains_key(owner),
{
    assert(ids_of(rel, owner).remove(member) =~= Set::<u64>::empty());
}

/// Law: removing from an owner that was never present reports no membership
/// and changes nothing — an unknown id is harmless, never an error.
pub proof fn lemma_remove_related_unknown(rel: Map<u64, Set<u64>>, owner: u64, member: u64)
    requires
        !rel.contains_key(owner),
    ensures
        !is_related(rel, owner, member),
        remove_related(rel, owner, member) == rel,
{
    assert(ids_of(rel, owner).remove(member) =~= Set::<u64>::empty());
    assert(remove_related(rel, owner, member) =~= rel);
}

/// Law: the permission check is a pure existential join of the two
/// relations: a user holds a permission exactly when some role is both
/// assigned to the user and granted the permission — the very memberships the
/// role and permission queries report.
pub proof fn lemma_grants_transitive(
    user_roles: Map<u64, Set<u64>>,
    role_permissions: Map<u64, Set<u64>>,
    user_id: u64,
    permission_id: u64,
)
    ensures
        grants(user_roles, role_permissions, user_id, permission_id) <==> exists|role_id: u64|
            is_related(user_roles, user_id, role_id) && is_related(
                role_permissions,
                role_id,
                permission_id,
            ),
{
}

/// Law: a round trip restores the relation exactly. Adding a membership that
/// was not there and removing it again yields the original map, including
/// pruning an owner whose entry the addition created.
pub proof fn lemma_add_remove_round_trip(rel: Map<u64, Set<u64>>, owner: u64, member: u64)
    requires
        well_formed(rel),
        !is_related(rel, owner, member),
    ensures
        remove_related(add_related(rel, owner, member), owner, member) == rel,
{
    let after = add_related(rel, owner, member);
    assert(ids_of(after, owner).remove(member) =~= ids_of(rel, owner));
    if rel.contains_key(owner) {
        assert(!ids_of(rel, owner).is_empty());
        assert(remove_related(after, owner, member) =~~= rel);
    } else {
        assert(ids_of(rel, owner).is_empty());
        assert(remove_related(after, owner, member) =~~= rel);
    }
}

/// Linear scan: whether `target` occurs in `ids`.
pub fn contains_id(ids: &Vec<u64>, target: u64) -> (found: bool)
    ensures
        found == ids@.contains(target),
{
    let mut i: usize = 0;
    while i < ids.len()
        invariant
            i <= ids@.len(),
            forall|j: int| 0 <= j < i ==> ids@[j] != target,
        decreases ids@.len() - i,
    {
        if ids[i] == target {
            proof {
                assert(ids@[i as int] == target);
            }
            return true;
        }
        i += 1;
    }
    false
}

} // verus!
