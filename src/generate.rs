//! Builds a specification from what a database reports about its roles.
use vstd::prelude::*;

use crate::context::{
    names_of, AdapterError, Attributes, Context, DatabaseObject, DefaultPrivilege, ObjectKind,
    Privilege, RoleAttribute, RoleMembership,
};
use crate::diff::{holds_value, views};
use crate::spec::{
    bare_role, is_first_named, names_role, unique_names, object_views, privilege_views, with_memberships,
    with_ownerships, with_privileges, DatabaseSpec, RoleView, SpecError,
};
use crate::strings::copy_string;

verus! {

/// The record that a role's reported state yields.
pub open spec fn built_role<A: RoleAttribute>(
    attrs: A,
    memberships: RoleMembership,
    owners: Seq<DatabaseObject>,
    privs: Seq<Privilege>,
) -> RoleView {
    with_privileges(
        with_ownerships(
            with_memberships(
                bare_role(
                    attrs.attributes().contains(Attributes::Enabled),
                    attrs.attributes().contains(Attributes::Superuser),
                ),
                names_of(memberships.memberships@),
            ),
            object_views(owners),
        ),
        privilege_views(privs),
    )
}

/// Whether some object of `owners` is a view.
pub open spec fn owns_view(owners: Seq<DatabaseObject>) -> bool {
    exists|k: int| 0 <= k < owners.len() && (#[trigger] owners[k]).kind == ObjectKind::View
}

/// Whether some record of `privs` is on a view.
pub open spec fn grants_on_view(privs: Seq<Privilege>) -> bool {
    exists|k: int| 0 <= k < privs.len() && (#[trigger] privs[k]).object.kind == ObjectKind::View
}

/// No two names are equal.
pub open spec fn distinct_names(names: Seq<Seq<char>>) -> bool {
    forall|a: int, b: int| 0 <= a < names.len() && 0 <= b < names.len() && a != b ==> names[a] != names[b]
}

/// Every parent that a membership names is one of `roles`.
pub open spec fn parents_listed(roles: Seq<String>, memberships: Seq<RoleMembership>) -> bool {
    forall|i: int, k: int|
        0 <= i < memberships.len() && 0 <= k < memberships[i].memberships@.len() ==> names_of(
            roles,
        ).contains(#[trigger] memberships[i].memberships@[k]@)
}

/// A parent named by some membership that is not one of `roles`.
pub open spec fn dangling_parent(roles: Seq<String>, memberships: Seq<RoleMembership>, p: Seq<char>) -> bool {
    &&& exists|i: int, k: int|
        0 <= i < memberships.len() && 0 <= k < memberships[i].memberships@.len()
            && #[trigger] memberships[i].memberships@[k]@ == p
    &&& !names_of(roles).contains(p)
}

/// The first parent, in membership order, that is not one of `roles`.
fn find_dangling_parent(roles: &Vec<String>, memberships: &Vec<RoleMembership>) -> (r: Option<String>)
    ensures
        r is None <==> parents_listed(roles@, memberships@),
        r is Some ==> dangling_parent(roles@, memberships@, r->Some_0@),
{
    proof {
        assert(views(roles@) =~= names_of(roles@));
    }
    let mut i: usize = 0;
    while i < memberships.len()
        invariant
            i <= memberships@.len(),
            views(roles@) == names_of(roles@),
            forall|a: int, k: int|
                0 <= a < i && 0 <= k < memberships@[a].memberships@.len() ==> names_of(
                    roles@,
                ).contains(#[trigger] memberships@[a].memberships@[k]@),
        decreases memberships@.len() - i,
    {
        let parents = &memberships[i].memberships;
        let mut k: usize = 0;
        while k < parents.len()
            invariant
                i < memberships@.len(),
                *parents == memberships@[i as int].memberships,
                k <= parents@.len(),
                views(roles@) == names_of(roles@),
                forall|a: int, k2: int|
                    0 <= a < i && 0 <= k2 < memberships@[a].memberships@.len() ==> names_of(
                        roles@,
                    ).contains(#[trigger] memberships@[a].memberships@[k2]@),
                forall|k2: int|
                    0 <= k2 < k ==> names_of(roles@).contains(
                        #[trigger] memberships@[i as int].memberships@[k2]@,
                    ),
            decreases parents@.len() - k,
        {
            if !holds_value(roles, &parents[k]) {
                let p = copy_string(&parents[k]);
                assert(memberships@[i as int].memberships@[k as int]@ == p@);
                return Some(p);
            }
            k = k + 1;
        }
        i = i + 1;
    }
    None
}

/// Assembles a specification from the reported state of each role, the
/// `i`-th entry of each list belonging to the `i`-th role.
///
/// It fails with `InconsistentSnapshot` where a membership names a parent
/// that is not among `roles`. Otherwise it fails, with the kind, where a
/// role owns a view or holds privileges on one: the specification has no
/// list for views. Otherwise no name is recorded twice, and (for distinct
/// names) there is one entry per role, in the order given.
pub fn build_spec<A: RoleAttribute>(
    adapter: &str,
    roles: &Vec<String>,
    attrs: &Vec<A>,
    memberships: &Vec<RoleMembership>,
    owners: &Vec<Vec<DatabaseObject>>,
    privs: &Vec<Vec<Privilege>>,
    defaults: &Vec<Vec<DefaultPrivilege>>,
) -> (r: Result<DatabaseSpec, SpecError>)
    requires
        attrs@.len() == roles@.len(),
        memberships@.len() == roles@.len(),
        owners@.len() == roles@.len(),
        privs@.len() == roles@.len(),
        defaults@.len() == roles@.len(),
    ensures
        !parents_listed(roles@, memberships@) ==> r is Err && r->Err_0 is InconsistentSnapshot
            && dangling_parent(roles@, memberships@, r->Err_0->role@),
        parents_listed(roles@, memberships@) ==> (r is Ok <==> forall|i: int|
            0 <= i < roles@.len() ==> !owns_view(#[trigger] owners@[i]@) && !grants_on_view(
                privs@[i]@,
            )),
        parents_listed(roles@, memberships@) && r is Err ==> r->Err_0 == (
        SpecError::UnsupportedObjectKind { kind: ObjectKind::View }),
        r is Ok ==> r->Ok_0@.version == 1 && r->Ok_0@.adapter == adapter@,
        r is Ok ==> unique_names(r->Ok_0@.roles),
        r is Ok && distinct_names(names_of(roles@)) ==> r->Ok_0@.roles.len() == roles@.len()
            && forall|i: int|
            0 <= i < roles@.len() ==> (#[trigger] r->Ok_0@.roles[i]) == (
                roles@[i]@,
                built_role(attrs@[i], memberships@[i], owners@[i]@, privs@[i]@),
            ),
{
    match find_dangling_parent(roles, memberships) {
        Some(p) => {
            return Err(SpecError::InconsistentSnapshot { role: p });
        },
        None => {},
    }
    let mut spec = DatabaseSpec::new(adapter);
    let ghost distinct = distinct_names(names_of(roles@));
    let mut i: usize = 0;
    while i < roles.len()
        invariant
            i <= roles@.len(),
            attrs@.len() == roles@.len(),
            memberships@.len() == roles@.len(),
            owners@.len() == roles@.len(),
            privs@.len() == roles@.len(),
            defaults@.len() == roles@.len(),
            distinct == distinct_names(names_of(roles@)),
            spec@.version == 1,
            spec@.adapter == adapter@,
            unique_names(spec@.roles),
            parents_listed(roles@, memberships@),
            forall|k: int|
                0 <= k < i ==> !owns_view(#[trigger] owners@[k]@) && !grants_on_view(privs@[k]@),
            distinct ==> spec@.roles.len() == i && forall|k: int|
                0 <= k < i ==> (#[trigger] spec@.roles[k]) == (
                    roles@[k]@,
                    built_role(attrs@[k], memberships@[k], owners@[k]@, privs@[k]@),
                ),
        decreases roles@.len() - i,
    {
        let name = roles[i].as_str();
        let ghost before = spec@.roles;
        proof {
            if distinct {
                assert forall|k: int| 0 <= k < before.len() implies before[k].0 != name@ by {
                    assert(names_of(roles@)[k] != names_of(roles@)[i as int]);
                }
            }
        }
        spec.add_role(name, &attrs[i]);
        let ghost after_role = spec@.roles;
        proof {
            if distinct {
                assert(after_role == before.push((name@, bare_role(
                    attrs@[i as int].attributes().contains(Attributes::Enabled),
                    attrs@[i as int].attributes().contains(Attributes::Superuser),
                ))));
                assert(is_first_named(after_role, name@, i as int));
            }
        }
        match spec.add_memberships(name, &memberships[i]) {
            Ok(()) => {},
            Err(e) => {
                assert(false);
                return Err(e);
            },
        }
        let ghost after_members = spec@.roles;
        proof {
            let w = choose|w: int| 0 <= w < after_role.len() && (#[trigger] after_role[w]).0 == name@;
            assert(after_members[w].0 == name@);
            assert(names_role(after_members, name@));
            if distinct {
                assert(is_first_named(after_members, name@, i as int));
            }
        }
        match spec.add_ownerships(name, owners[i].as_slice()) {
            Ok(()) => {},
            Err(e) => {
                proof {
                    assert(owns_view(owners@[i as int]@));
                }
                return Err(e);
            },
        }
        let ghost after_owners = spec@.roles;
        proof {
            let w = choose|w: int| 0 <= w < after_role.len() && (#[trigger] after_role[w]).0 == name@;
            assert(after_owners[w].0 == name@);
            assert(names_role(after_owners, name@));
            if distinct {
                assert(is_first_named(after_owners, name@, i as int));
            }
        }
        match spec.add_privileges(name, privs[i].as_slice()) {
            Ok(()) => {},
            Err(e) => {
                proof {
                    assert(grants_on_view(privs@[i as int]@));
                }
                return Err(e);
            },
        }
        proof {
            let w = choose|w: int| 0 <= w < after_role.len() && (#[trigger] after_role[w]).0 == name@;
            assert(spec@.roles[w].0 == name@);
            assert(names_role(spec@.roles, name@));
        }
        match spec.add_defaults(name, defaults[i].as_slice()) {
            Ok(()) => {},
            Err(e) => {
                assert(false);
                return Err(e);
            },
        }
        proof {
            if distinct {
                assert forall|k: int| 0 <= k < i + 1 implies (#[trigger] spec@.roles[k]) == (
                    roles@[k]@,
                    built_role(attrs@[k], memberships@[k], owners@[k]@, privs@[k]@),
                ) by {
                    if k < i {
                        assert(spec@.roles[k] == before[k]);
                    }
                }
            }
        }
        i = i + 1;
    }
    Ok(spec)
}

/// Why a specification could not be generated.
#[derive(Debug, Clone)]
pub enum GenerateError {
    Adapter(AdapterError),
    Spec(SpecError),
}

/// Reads every role's state from `context` and assembles the specification.
///
/// Each adapter call is made once per role; an adapter error ends the whole
/// build and is handed back as it came.
pub fn generate_spec<T: Context>(mut context: T) -> (r: Result<DatabaseSpec, GenerateError>)
    ensures
        r is Ok ==> r->Ok_0@.version == 1 && unique_names(r->Ok_0@.roles),
        r is Err ==> r->Err_0 is Adapter || (r->Err_0 is Spec && (r->Err_0->Spec_0
            is InconsistentSnapshot || r->Err_0->Spec_0 == (SpecError::UnsupportedObjectKind {
            kind: ObjectKind::View,
        }))),
{
    let adapter = String::from_str(context.database_name());
    let roles = match context.get_roles() {
        Ok(roles) => roles,
        Err(e) => {
            return Err(GenerateError::Adapter(e));
        },
    };
    let mut attrs: Vec<T::RoleAttribute> = Vec::new();
    let mut memberships: Vec<RoleMembership> = Vec::new();
    let mut owners: Vec<Vec<DatabaseObject>> = Vec::new();
    let mut privs: Vec<Vec<Privilege>> = Vec::new();
    let mut defaults: Vec<Vec<DefaultPrivilege>> = Vec::new();
    let mut i: usize = 0;
    while i < roles.len()
        invariant
            i <= roles@.len(),
            attrs@.len() == i,
            memberships@.len() == i,
            owners@.len() == i,
            privs@.len() == i,
            defaults@.len() == i,
        decreases roles@.len() - i,
    {
        let role = roles[i].as_str();
        match context.get_role_attributes(role) {
            Ok(a) => attrs.push(a),
            Err(e) => {
                return Err(GenerateError::Adapter(e));
            },
        }
        match context.get_role_memberships(role) {
            Ok(m) => memberships.push(m),
            Err(e) => {
                return Err(GenerateError::Adapter(e));
            },
        }
        match context.get_role_ownerships(role) {
            Ok(o) => owners.push(o),
            Err(e) => {
                return Err(GenerateError::Adapter(e));
            },
        }
        match context.get_role_permissions(role) {
            Ok(p) => privs.push(p),
            Err(e) => {
                return Err(GenerateError::Adapter(e));
            },
        }
        match context.get_default_permissions(role) {
            Ok(d) => defaults.push(d),
            Err(e) => {
                return Err(GenerateError::Adapter(e));
            },
        }
        i = i + 1;
    }
    match build_spec(adapter.as_str(), &roles, &attrs, &memberships, &owners, &privs, &defaults) {
        Ok(spec) => Ok(spec),
        Err(e) => Err(GenerateError::Spec(e)),
    }
}

} // verus!
