//! Plans the statements that move a role from its current state to the
//! desired one.
use vstd::prelude::*;

use crate::context::{
    lemma_mapping_covers_catalog_tokens, names_of, privilege_for, AdapterError, RoleAnalysis,
    ObjectKind, PrivilegeType,
};
use crate::diff::{diff_grant, minus, views};
use crate::grants::{
    copy_names, grant_text, privilege_keyword, render_grant, render_revoke, revoke_text,
    schema_allows, sequence_allows, table_allows, PostgresPrivileges,
};
use crate::spec::{
    is_first_named, names_role, AccessView, DatabaseSpec, Ownership, OwnershipView, Privileges,
    PrivilegesView, Role, RoleView,
};

verus! {

/// `ALTER ROLE <name> LOGIN`, or `NOLOGIN`.
pub open spec fn login_text(name: Seq<char>, can_login: bool) -> Seq<char> {
    "ALTER ROLE "@ + name + if can_login {
        " LOGIN"@
    } else {
        " NOLOGIN"@
    }
}

/// `ALTER ROLE <name> SUPERUSER`, or `NOSUPERUSER`.
pub open spec fn superuser_text(name: Seq<char>, is_superuser: bool) -> Seq<char> {
    "ALTER ROLE "@ + name + if is_superuser {
        " SUPERUSER"@
    } else {
        " NOSUPERUSER"@
    }
}

/// `GRANT <parent> TO <name>`.
pub open spec fn join_text(name: Seq<char>, parent: Seq<char>) -> Seq<char> {
    "GRANT "@ + parent + " TO "@ + name
}

/// `REVOKE <parent> FROM <name>`.
pub open spec fn leave_text(name: Seq<char>, parent: Seq<char>) -> Seq<char> {
    "REVOKE "@ + parent + " FROM "@ + name
}

/// The statement that sets whether a role can log in.
pub fn login_statement(name: &str, can_login: bool) -> (r: String)
    ensures
        r@ == login_text(name@, can_login),
{
    let mut s = String::from_str("ALTER ROLE ");
    s.append(name);
    if can_login {
        s.append(" LOGIN");
    } else {
        s.append(" NOLOGIN");
    }
    s
}

/// The statement that sets whether a role is a superuser.
pub fn superuser_statement(name: &str, is_superuser: bool) -> (r: String)
    ensures
        r@ == superuser_text(name@, is_superuser),
{
    let mut s = String::from_str("ALTER ROLE ");
    s.append(name);
    if is_superuser {
        s.append(" SUPERUSER");
    } else {
        s.append(" NOSUPERUSER");
    }
    s
}

/// The capability statements, login first, for the flags that differ.
pub open spec fn attribute_plan(
    name: Seq<char>,
    current_login: bool,
    current_superuser: bool,
    desired_login: bool,
    desired_superuser: bool,
) -> Seq<Seq<char>> {
    let a = if current_login != desired_login {
        seq![login_text(name, desired_login)]
    } else {
        Seq::empty()
    };
    if current_superuser != desired_superuser {
        a.push(superuser_text(name, desired_superuser))
    } else {
        a
    }
}

/// Plans the capability changes of the role `name`.
pub fn plan_attributes(name: &str, current_login: bool, current_superuser: bool, desired: &Role) -> (r:
    Vec<String>)
    ensures
        names_of(r@) == attribute_plan(
            name@,
            current_login,
            current_superuser,
            desired.can_login,
            desired.is_superuser,
        ),
{
    let mut sql: Vec<String> = Vec::new();
    if current_login != desired.can_login {
        sql.push(login_statement(name, desired.can_login));
    }
    let ghost mid = names_of(sql@);
    if current_superuser != desired.is_superuser {
        let s = superuser_statement(name, desired.is_superuser);
        sql.push(s);
        proof {
            assert(names_of(sql@) =~= mid.push(s@));
        }
    }
    proof {
        let a = if current_login != desired.can_login {
            seq![login_text(name@, desired.can_login)]
        } else {
            Seq::empty()
        };
        assert(mid =~= a);
    }
    sql
}

/// One statement per name, made by `f`.
pub open spec fn statements(names: Seq<Seq<char>>, f: spec_fn(Seq<char>) -> Seq<char>) -> Seq<
    Seq<char>,
> {
    names.map_values(f)
}

/// Makes `GRANT <parent> TO <name>` of a parent.
pub open spec fn joins(name: Seq<char>) -> spec_fn(Seq<char>) -> Seq<char> {
    |p: Seq<char>| join_text(name, p)
}

/// Makes `REVOKE <parent> FROM <name>` of a parent.
pub open spec fn leaves(name: Seq<char>) -> spec_fn(Seq<char>) -> Seq<char> {
    |p: Seq<char>| leave_text(name, p)
}

/// The membership statements: joins before leaves.
pub open spec fn membership_plan(name: Seq<char>, current: Seq<Seq<char>>, desired: Seq<Seq<char>>) -> Seq<
    Seq<char>,
> {
    statements(minus(desired, current), joins(name)) + statements(minus(current, desired), leaves(name))
}

/// Appends, per parent, `GRANT <parent> TO <name>` when joining, else
/// `REVOKE <parent> FROM <name>`.
fn push_membership_statements(
    sql: &mut Vec<String>,
    name: &str,
    parents: &Vec<String>,
    joining: bool,
)
    ensures
        names_of(final(sql)@) == names_of(old(sql)@) + if joining {
            statements(names_of(parents@), joins(name@))
        } else {
            statements(names_of(parents@), leaves(name@))
        },
{
    let ghost start = names_of(sql@);
    let ghost f = if joining {
        joins(name@)
    } else {
        leaves(name@)
    };
    let mut i: usize = 0;
    while i < parents.len()
        invariant
            i <= parents@.len(),
            f == if joining {
                joins(name@)
            } else {
                leaves(name@)
            },
            names_of(sql@) == start + statements(names_of(parents@.subrange(0, i as int)), f),
        decreases parents@.len() - i,
    {
        let mut s = if joining {
            String::from_str("GRANT ")
        } else {
            String::from_str("REVOKE ")
        };
        s.append(parents[i].as_str());
        if joining {
            s.append(" TO ");
        } else {
            s.append(" FROM ");
        }
        s.append(name);
        let ghost before = sql@;
        sql.push(s);
        proof {
            let pre = names_of(parents@.subrange(0, i as int));
            assert(names_of(parents@.subrange(0, i + 1)) =~= pre.push(parents@[i as int]@));
            pre.lemma_push_map_commute(f, parents@[i as int]@);
            assert(names_of(sql@) =~= names_of(before).push(s@));
        }
        i = i + 1;
    }
    proof {
        assert(parents@.subrange(0, parents@.len() as int) =~= parents@);
    }
}

/// Plans the membership changes of the role `name`: one grant per parent
/// that is desired and not current, in desired order, then one revoke per
/// parent that is current and not desired, in current order.
pub fn plan_memberships(name: &str, current: &Vec<String>, desired: &Vec<String>) -> (r: Vec<String>)
    ensures
        names_of(r@) == membership_plan(name@, names_of(current@), names_of(desired@)),
{
    let d = copy_names(desired);
    let c = copy_names(current);
    proof {
        assert(crate::diff::views(d@) =~= names_of(d@));
        assert(crate::diff::views(c@) =~= names_of(c@));
    }
    let (to_add, to_remove) = diff_grant(d, c);
    proof {
        assert(crate::diff::views(to_add@) =~= names_of(to_add@));
        assert(crate::diff::views(to_remove@) =~= names_of(to_remove@));
    }
    let mut sql: Vec<String> = Vec::new();
    push_membership_statements(&mut sql, name, &to_add, true);
    push_membership_statements(&mut sql, name, &to_remove, false);
    proof {
        assert(names_of(Seq::<String>::empty()) =~= Seq::<Seq<char>>::empty());
    }
    sql
}

/// One privilege to grant or revoke: `privilege` on the object of kind
/// `kind` named `object`.
#[derive(Debug, Clone)]
pub struct PrivilegeChange {
    pub kind: ObjectKind,
    pub object: String,
    pub privilege: PrivilegeType,
}

pub ghost struct ChangeView {
    pub kind: ObjectKind,
    pub object: Seq<char>,
    pub privilege: PrivilegeType,
}

impl View for PrivilegeChange {
    type V = ChangeView;

    open spec fn view(&self) -> ChangeView {
        ChangeView { kind: self.kind, object: self.object@, privilege: self.privilege }
    }
}

/// The privileges to grant and to revoke.
#[derive(Debug)]
pub struct PrivilegePlan {
    pub grants: Vec<PrivilegeChange>,
    pub revokes: Vec<PrivilegeChange>,
}

/// The views of a list of changes.
pub open spec fn change_views(v: Seq<PrivilegeChange>) -> Seq<ChangeView> {
    v.map_values(|c: PrivilegeChange| c@)
}

/// Makes the change of `t` on the object of kind `kind` named `n`.
pub open spec fn change_on(kind: ObjectKind, t: PrivilegeType) -> spec_fn(Seq<char>) -> ChangeView {
    |n: Seq<char>| ChangeView { kind, object: n, privilege: t }
}

/// One change per name.
pub open spec fn changes_of(names: Seq<Seq<char>>, kind: ObjectKind, t: PrivilegeType) -> Seq<
    ChangeView,
> {
    names.map_values(change_on(kind, t))
}

/// The names of `d` that `c` lacks, leaving out owned names on both sides.
pub open spec fn unowned_minus(d: Seq<Seq<char>>, c: Seq<Seq<char>>, owned: Seq<Seq<char>>) -> Seq<
    Seq<char>,
> {
    minus(minus(d, owned), minus(c, owned))
}

/// The grants of one kind: reads, then writes.
pub open spec fn access_grants(
    d: AccessView,
    c: AccessView,
    owned: Seq<Seq<char>>,
    kind: ObjectKind,
) -> Seq<ChangeView> {
    changes_of(unowned_minus(d.read, c.read, owned), kind, PrivilegeType::Read) + changes_of(
        unowned_minus(d.write, c.write, owned),
        kind,
        PrivilegeType::Write,
    )
}

/// The privileges to grant: schemas, tables, then sequences.
pub open spec fn privilege_grants(d: PrivilegesView, c: PrivilegesView, o: OwnershipView) -> Seq<
    ChangeView,
> {
    access_grants(d.schemas, c.schemas, o.schemas, ObjectKind::Schema) + access_grants(
        d.tables,
        c.tables,
        o.tables,
        ObjectKind::Table,
    ) + access_grants(d.sequences, c.sequences, o.sequences, ObjectKind::Sequence)
}

/// The privileges to revoke: schemas, tables, then sequences.
pub open spec fn privilege_revokes(d: PrivilegesView, c: PrivilegesView, o: OwnershipView) -> Seq<
    ChangeView,
> {
    access_grants(c.schemas, d.schemas, o.schemas, ObjectKind::Schema) + access_grants(
        c.tables,
        d.tables,
        o.tables,
        ObjectKind::Table,
    ) + access_grants(c.sequences, d.sequences, o.sequences, ObjectKind::Sequence)
}

/// The names of `desired` that `current` lacks, and those of `current` that
/// `desired` lacks, owned names left out.
fn diff_unowned(desired: &Vec<String>, current: &Vec<String>, owned: &Vec<String>) -> (r: (
    Vec<String>,
    Vec<String>,
))
    ensures
        names_of(r.0@) == unowned_minus(names_of(desired@), names_of(current@), names_of(owned@)),
        names_of(r.1@) == unowned_minus(names_of(current@), names_of(desired@), names_of(owned@)),
{
    let (d_free, _) = diff_names(desired, owned);
    let (c_free, _) = diff_names(current, owned);
    diff_names(&d_free, &c_free)
}

/// Appends one change per name.
fn push_changes(dst: &mut Vec<PrivilegeChange>, names: Vec<String>, kind: ObjectKind, t: PrivilegeType)
    ensures
        change_views(final(dst)@) == change_views(old(dst)@) + changes_of(names_of(names@), kind, t),
{
    let ghost start = change_views(dst@);
    let ghost all = names@;
    let mut rest = names;
    let mut k: usize = 0;
    let n = rest.len();
    while k < n
        invariant
            n == all.len(),
            k <= n,
            rest@ == all.subrange(k as int, n as int),
            change_views(dst@) == start + changes_of(names_of(all.subrange(0, k as int)), kind, t),
        decreases n - k,
    {
        let name = rest.remove(0);
        let ghost before = dst@;
        let c = PrivilegeChange { kind, object: name, privilege: t };
        dst.push(c);
        proof {
            let pre = names_of(all.subrange(0, k as int));
            assert(names_of(all.subrange(0, k + 1)) =~= pre.push(all[k as int]@));
            pre.lemma_push_map_commute(change_on(kind, t), all[k as int]@);
            assert(change_views(dst@) =~= change_views(before).push(c@));
            assert(rest@ =~= all.subrange(k + 1, n as int));
        }
        k = k + 1;
    }
    proof {
        assert(all.subrange(0, n as int) =~= all);
    }
}

/// Appends the grants and revokes of one kind.
fn plan_access(
    plan: &mut PrivilegePlan,
    d_read: &Vec<String>,
    d_write: &Vec<String>,
    c_read: &Vec<String>,
    c_write: &Vec<String>,
    owned: &Vec<String>,
    kind: ObjectKind,
)
    ensures
        change_views(final(plan).grants@) == change_views(old(plan).grants@) + access_grants(
            AccessView { read: names_of(d_read@), write: names_of(d_write@) },
            AccessView { read: names_of(c_read@), write: names_of(c_write@) },
            names_of(owned@),
            kind,
        ),
        change_views(final(plan).revokes@) == change_views(old(plan).revokes@) + access_grants(
            AccessView { read: names_of(c_read@), write: names_of(c_write@) },
            AccessView { read: names_of(d_read@), write: names_of(d_write@) },
            names_of(owned@),
            kind,
        ),
{
    let (add_read, remove_read) = diff_unowned(d_read, c_read, owned);
    let (add_write, remove_write) = diff_unowned(d_write, c_write, owned);
    push_changes(&mut plan.grants, add_read, kind, PrivilegeType::Read);
    push_changes(&mut plan.grants, add_write, kind, PrivilegeType::Write);
    push_changes(&mut plan.revokes, remove_read, kind, PrivilegeType::Read);
    push_changes(&mut plan.revokes, remove_write, kind, PrivilegeType::Write);
}

/// Plans the privilege changes that take `current` to `desired`, per kind
/// and per Read/Write: a grant for each name desired and not current, a
/// revoke for each name current and not desired. Names in `owned` are left
/// out: ownership already gives full access.
pub fn plan_privileges(desired: &Privileges, current: &Privileges, owned: &Ownership) -> (r:
    PrivilegePlan)
    ensures
        change_views(r.grants@) == privilege_grants(desired@, current@, owned@),
        change_views(r.revokes@) == privilege_revokes(desired@, current@, owned@),
{
    let mut plan = PrivilegePlan { grants: Vec::new(), revokes: Vec::new() };
    proof {
        assert(change_views(plan.grants@) =~= Seq::<ChangeView>::empty());
        assert(change_views(plan.revokes@) =~= Seq::<ChangeView>::empty());
    }
    plan_access(
        &mut plan,
        &desired.schemas.read,
        &desired.schemas.write,
        &current.schemas.read,
        &current.schemas.write,
        &owned.schemas,
        ObjectKind::Schema,
    );
    plan_access(
        &mut plan,
        &desired.tables.read,
        &desired.tables.write,
        &current.tables.read,
        &current.tables.write,
        &owned.tables,
        ObjectKind::Table,
    );
    plan_access(
        &mut plan,
        &desired.sequences.read,
        &desired.sequences.write,
        &current.sequences.read,
        &current.sequences.write,
        &owned.sequences,
        ObjectKind::Sequence,
    );
    proof {
        assert(change_views(plan.grants@) =~= privilege_grants(desired@, current@, owned@));
        assert(change_views(plan.revokes@) =~= privilege_revokes(desired@, current@, owned@));
    }
    plan
}

/// The statements that `role_analyzer` collects: for each role, in order,
/// the capability statements and then the membership statements that the
/// adapter, in the state it was in at that call, plans for it.
pub open spec fn analyzer_text<T: RoleAnalysis>(
    states: Seq<(T, T)>,
    roles: Seq<(Seq<char>, RoleView)>,
) -> Seq<Seq<char>>
    decreases roles.len(),
{
    if roles.len() == 0 || states.len() == 0 {
        Seq::empty()
    } else {
        analyzer_text(states.drop_last(), roles.drop_last()) + states.last().0.attribute_statements(
            roles.last().0,
            roles.last().1,
        ) + states.last().1.membership_statements(roles.last().0, roles.last().1)
    }
}

/// Collects, role by role, the capability and membership statements that
/// `context` plans for each role of `spec`. An adapter error ends the run;
/// the statements of the roles before it stay in `sql`.
pub fn role_analyzer<T: RoleAnalysis>(sql: &mut Vec<String>, mut context: T, spec: &DatabaseSpec) -> (r:
    Result<(), AdapterError>)
    ensures
        final(sql)@.len() >= old(sql)@.len(),
        final(sql)@.subrange(0, old(sql)@.len() as int) == old(sql)@,
        spec@.roles.len() == 0 ==> r is Ok && final(sql)@ == old(sql)@,
        r is Ok ==> exists|states: Seq<(T, T)>|
            states.len() == spec@.roles.len() && names_of(final(sql)@) == names_of(old(sql)@)
                + analyzer_text(states, spec@.roles),
{
    let ghost start = sql@;
    let ghost mut states: Seq<(T, T)> = Seq::empty();
    let mut i: usize = 0;
    while i < spec.roles.len()
        invariant
            start == old(sql)@,
            i <= spec@.roles.len(),
            sql@.len() >= start.len(),
            sql@.subrange(0, start.len() as int) == start,
            states.len() == i,
            i == 0 ==> sql@ == start,
            names_of(sql@) == names_of(start) + analyzer_text(
                states,
                spec@.roles.subrange(0, i as int),
            ),
        decreases spec.roles@.len() - i,
    {
        let name = spec.roles[i].0.as_str();
        let role = &spec.roles[i].1;
        let ghost s1 = context;
        let attrs = match context.analyze_attributes(name, role) {
            Ok(a) => a,
            Err(e) => {
                return Err(e);
            },
        };
        let ghost before = sql@;
        append_all(sql, attrs);
        proof {
            assert(sql@.subrange(0, start.len() as int) =~= before.subrange(0, start.len() as int));
        }
        let ghost s2 = context;
        let members = match context.analyze_memberships(name, role) {
            Ok(m) => m,
            Err(e) => {
                return Err(e);
            },
        };
        let ghost middle = sql@;
        append_all(sql, members);
        proof {
            assert(sql@.subrange(0, start.len() as int) =~= middle.subrange(0, start.len() as int));
            let next = spec@.roles.subrange(0, i + 1);
            let done = spec@.roles.subrange(0, i as int);
            assert(next.drop_last() =~= done);
            assert(next.last() == spec@.roles[i as int]);
            let old_states = states;
            states = states.push((s1, s2));
            assert(states.drop_last() =~= old_states);
            assert(names_of(middle) =~= names_of(before) + names_of(attrs@));
            assert(names_of(sql@) =~= names_of(middle) + names_of(members@));
            assert(names_of(sql@) =~= names_of(start) + analyzer_text(states, next));
        }
        i = i + 1;
    }
    proof {
        assert(spec@.roles.subrange(0, spec@.roles.len() as int) =~= spec@.roles);
    }
    Ok(())
}

/// Moves the items of `src` to the end of `dst`.
fn append_all(dst: &mut Vec<String>, src: Vec<String>)
    ensures
        final(dst)@ == old(dst)@ + src@,
{
    let ghost start = dst@;
    let ghost all = src@;
    let mut rest = src;
    let n = rest.len();
    let mut k: usize = 0;
    while k < n
        invariant
            n == all.len(),
            k <= n,
            rest@ == all.subrange(k as int, n as int),
            dst@ == start + all.subrange(0, k as int),
        decreases n - k,
    {
        let x = rest.remove(0);
        dst.push(x);
        proof {
            assert(all.subrange(0, k + 1) =~= all.subrange(0, k as int).push(x));
            assert(dst@ =~= start + all.subrange(0, k + 1));
            assert(rest@ =~= all.subrange(k + 1, n as int));
        }
        k = k + 1;
    }
    proof {
        assert(all.subrange(0, n as int) =~= all);
    }
}

/// How what a role owns differs from what it should own. Ownership is never
/// transferred by a plan; the differences are only reported.
#[derive(Debug)]
pub struct OwnershipMismatch {
    /// Objects the role should own and does not, by kind.
    pub missing: Ownership,
    /// Objects the role owns and should not, by kind.
    pub unexpected: Ownership,
}

fn diff_names(desired: &Vec<String>, current: &Vec<String>) -> (r: (Vec<String>, Vec<String>))
    ensures
        names_of(r.0@) == minus(names_of(desired@), names_of(current@)),
        names_of(r.1@) == minus(names_of(current@), names_of(desired@)),
{
    let d = copy_names(desired);
    let c = copy_names(current);
    proof {
        assert(views(d@) =~= names_of(d@));
        assert(views(c@) =~= names_of(c@));
    }
    let r = diff_grant(d, c);
    proof {
        assert(views(r.0@) =~= names_of(r.0@));
        assert(views(r.1@) =~= names_of(r.1@));
    }
    r
}

/// The objects of `a` that `b` lacks, kind by kind.
pub open spec fn ownership_minus(a: OwnershipView, b: OwnershipView) -> OwnershipView {
    OwnershipView {
        schemas: minus(a.schemas, b.schemas),
        tables: minus(a.tables, b.tables),
        sequences: minus(a.sequences, b.sequences),
    }
}

impl View for OwnershipMismatch {
    /// What is missing, then what is unexpected.
    type V = (OwnershipView, OwnershipView);

    open spec fn view(&self) -> (OwnershipView, OwnershipView) {
        (self.missing@, self.unexpected@)
    }
}

/// Compares desired and current ownership, kind by kind.
pub fn ownership_mismatches(desired: &Ownership, current: &Ownership) -> (r: OwnershipMismatch)
    ensures
        r.missing@ == ownership_minus(desired@, current@),
        r.unexpected@ == ownership_minus(current@, desired@),
{
    let (missing_schemas, unexpected_schemas) = diff_names(&desired.schemas, &current.schemas);
    let (missing_tables, unexpected_tables) = diff_names(&desired.tables, &current.tables);
    let (missing_sequences, unexpected_sequences) = diff_names(&desired.sequences, &current.sequences);
    OwnershipMismatch {
        missing: Ownership {
            schemas: missing_schemas,
            tables: missing_tables,
            sequences: missing_sequences,
        },
        unexpected: Ownership {
            schemas: unexpected_schemas,
            tables: unexpected_tables,
            sequences: unexpected_sequences,
        },
    }
}

/// The native privileges that make up an abstract class on a kind: those
/// that the mapping sends to it.
pub open spec fn native_tokens(kind: ObjectKind, t: PrivilegeType) -> Seq<PostgresPrivileges> {
    match (kind, t) {
        (ObjectKind::Schema, PrivilegeType::Read) => seq![PostgresPrivileges::Usage],
        (ObjectKind::Schema, PrivilegeType::Write) => seq![PostgresPrivileges::Create],
        (ObjectKind::Sequence, PrivilegeType::Read) => seq![PostgresPrivileges::Select],
        (ObjectKind::Sequence, PrivilegeType::Write) => seq![
            PostgresPrivileges::Usage,
            PostgresPrivileges::Update,
        ],
        (_, PrivilegeType::Read) => seq![PostgresPrivileges::Select, PostgresPrivileges::References],
        (_, PrivilegeType::Write) => seq![
            PostgresPrivileges::Insert,
            PostgresPrivileges::Update,
            PostgresPrivileges::Delete,
            PostgresPrivileges::Truncate,
            PostgresPrivileges::Trigger,
        ],
    }
}

/// The SQL keyword that introduces an object of a kind in a grant.
pub open spec fn kind_target_word(kind: ObjectKind) -> Seq<char> {
    match kind {
        ObjectKind::Schema => "SCHEMA "@,
        ObjectKind::Sequence => "SEQUENCE "@,
        _ => "TABLE "@,
    }
}

/// The statements of one change: one per native privilege of its class,
/// granted to (or revoked from) `role` alone.
pub open spec fn change_texts(role: Seq<char>, c: ChangeView, grant: bool) -> Seq<Seq<char>> {
    native_tokens(c.kind, c.privilege).map_values(
        |p: PostgresPrivileges|
            if grant {
                grant_text(privilege_keyword(p), kind_target_word(c.kind) + c.object, seq![role], false)
            } else {
                revoke_text(privilege_keyword(p), kind_target_word(c.kind) + c.object, seq![role])
            },
    )
}

/// The statements of a list of changes, in order.
pub open spec fn changes_texts(role: Seq<char>, cs: Seq<ChangeView>, grant: bool) -> Seq<Seq<char>>
    decreases cs.len(),
{
    if cs.len() == 0 {
        Seq::empty()
    } else {
        changes_texts(role, cs.drop_last(), grant) + change_texts(role, cs.last(), grant)
    }
}

fn native_privileges(kind: ObjectKind, t: PrivilegeType) -> (r: Vec<PostgresPrivileges>)
    ensures
        r@ == native_tokens(kind, t),
{
    let v = match (kind, t) {
        (ObjectKind::Schema, PrivilegeType::Read) => vec![PostgresPrivileges::Usage],
        (ObjectKind::Schema, PrivilegeType::Write) => vec![PostgresPrivileges::Create],
        (ObjectKind::Sequence, PrivilegeType::Read) => vec![PostgresPrivileges::Select],
        (ObjectKind::Sequence, PrivilegeType::Write) => vec![
            PostgresPrivileges::Usage,
            PostgresPrivileges::Update,
        ],
        (_, PrivilegeType::Read) => vec![PostgresPrivileges::Select, PostgresPrivileges::References],
        (_, PrivilegeType::Write) => vec![
            PostgresPrivileges::Insert,
            PostgresPrivileges::Update,
            PostgresPrivileges::Delete,
            PostgresPrivileges::Truncate,
            PostgresPrivileges::Trigger,
        ],
    };
    assert(v@ =~= native_tokens(kind, t));
    v
}

fn kind_target(kind: ObjectKind, object: &String) -> (r: String)
    ensures
        r@ == kind_target_word(kind) + object@,
{
    let mut t = match kind {
        ObjectKind::Schema => String::from_str("SCHEMA "),
        ObjectKind::Sequence => String::from_str("SEQUENCE "),
        _ => String::from_str("TABLE "),
    };
    t.append(object.as_str());
    t
}

/// Appends the statements of one change.
fn push_change_statements(out: &mut Vec<String>, role: &str, c: &PrivilegeChange, grant: bool)
    ensures
        names_of(final(out)@) == names_of(old(out)@) + change_texts(role@, c@, grant),
{
    let tokens = native_privileges(c.kind, c.privilege);
    let target = kind_target(c.kind, &c.object);
    let mut roles: Vec<String> = Vec::new();
    roles.push(String::from_str(role));
    proof {
        assert(names_of(roles@) =~= seq![role@]);
    }
    let ghost start = names_of(out@);
    let ghost f = |p: PostgresPrivileges|
        if grant {
            grant_text(privilege_keyword(p), kind_target_word(c.kind) + c.object@, seq![role@], false)
        } else {
            revoke_text(privilege_keyword(p), kind_target_word(c.kind) + c.object@, seq![role@])
        };
    let mut i: usize = 0;
    while i < tokens.len()
        invariant
            i <= tokens@.len(),
            tokens@ == native_tokens(c.kind, c.privilege),
            target@ == kind_target_word(c.kind) + c.object@,
            names_of(roles@) == seq![role@],
            f == (|p: PostgresPrivileges|
                if grant {
                    grant_text(privilege_keyword(p), kind_target_word(c.kind) + c.object@, seq![role@], false)
                } else {
                    revoke_text(privilege_keyword(p), kind_target_word(c.kind) + c.object@, seq![role@])
                }),
            names_of(out@) == start + tokens@.subrange(0, i as int).map_values(f),
        decreases tokens@.len() - i,
    {
        let p = tokens[i];
        let s = if grant {
            render_grant(p.keyword(), target.as_str(), &roles, false)
        } else {
            render_revoke(p.keyword(), target.as_str(), &roles)
        };
        let ghost before = out@;
        out.push(s);
        proof {
            assert(s@ == f(p));
            assert(tokens@.subrange(0, i + 1) =~= tokens@.subrange(0, i as int).push(p));
            tokens@.subrange(0, i as int).lemma_push_map_commute(f, p);
            assert(names_of(out@) =~= names_of(before).push(s@));
        }
        i = i + 1;
    }
    proof {
        assert(tokens@.subrange(0, tokens@.len() as int) =~= tokens@);
    }
}

/// The statements that carry out a privilege plan for `role`: every grant
/// change, then every revoke change, each spelled out as one statement per
/// native privilege of its class.
pub fn privilege_statements(role: &str, plan: &PrivilegePlan) -> (r: Vec<String>)
    ensures
        names_of(r@) == changes_texts(role@, change_views(plan.grants@), true) + changes_texts(
            role@,
            change_views(plan.revokes@),
            false,
        ),
{
    let mut out: Vec<String> = Vec::new();
    let mut i: usize = 0;
    while i < plan.grants.len()
        invariant
            i <= plan.grants@.len(),
            names_of(out@) == changes_texts(role@, change_views(plan.grants@.subrange(0, i as int)), true),
        decreases plan.grants@.len() - i,
    {
        proof {
            let next = change_views(plan.grants@.subrange(0, i + 1));
            assert(next.drop_last() =~= change_views(plan.grants@.subrange(0, i as int)));
            assert(next.last() == plan.grants@[i as int]@);
        }
        push_change_statements(&mut out, role, &plan.grants[i], true);
        i = i + 1;
    }
    proof {
        assert(plan.grants@.subrange(0, plan.grants@.len() as int) =~= plan.grants@);
    }
    let ghost granted = names_of(out@);
    let mut j: usize = 0;
    while j < plan.revokes.len()
        invariant
            j <= plan.revokes@.len(),
            names_of(out@) == granted + changes_texts(
                role@,
                change_views(plan.revokes@.subrange(0, j as int)),
                false,
            ),
        decreases plan.revokes@.len() - j,
    {
        proof {
            let next = change_views(plan.revokes@.subrange(0, j + 1));
            assert(next.drop_last() =~= change_views(plan.revokes@.subrange(0, j as int)));
            assert(next.last() == plan.revokes@[j as int]@);
        }
        let ghost before = names_of(out@);
        push_change_statements(&mut out, role, &plan.revokes[j], false);
        proof {
            let done = changes_texts(role@, change_views(plan.revokes@.subrange(0, j as int)), false);
            let step = change_texts(role@, plan.revokes@[j as int]@, false);
            assert(names_of(out@) == granted + done + step);
            assert(granted + done + step =~= granted + (done + step));
        }
        j = j + 1;
    }
    proof {
        assert(plan.revokes@.subrange(0, plan.revokes@.len() as int) =~= plan.revokes@);
    }
    out
}

/// Each native privilege that a change spells out means exactly the
/// change's class on the change's kind, and is one that the grant builder
/// for that kind accepts.
pub proof fn lemma_native_tokens_round_trip(kind: ObjectKind, t: PrivilegeType)
    ensures
        forall|i: int|
            0 <= i < native_tokens(kind, t).len() ==> privilege_for(
                kind,
                privilege_keyword(#[trigger] native_tokens(kind, t)[i]),
            ) == Some(t),
        forall|i: int|
            0 <= i < native_tokens(kind, t).len() ==> match kind {
                ObjectKind::Schema => schema_allows(#[trigger] native_tokens(kind, t)[i]),
                ObjectKind::Sequence => sequence_allows(native_tokens(kind, t)[i]),
                _ => table_allows(native_tokens(kind, t)[i]),
            },
{
    lemma_mapping_covers_catalog_tokens();
}

/// Every statement for one role, in order: capabilities, memberships, then
/// privilege grants and revokes. Objects the role currently owns are left
/// out of the privilege comparison.
pub open spec fn role_plan_text(name: Seq<char>, d: RoleView, c: RoleView) -> Seq<Seq<char>> {
    attribute_plan(name, c.can_login, c.is_superuser, d.can_login, d.is_superuser)
        + membership_plan(name, c.member_of, d.member_of) + changes_texts(
        name,
        privilege_grants(d.privileges, c.privileges, c.owns),
        true,
    ) + changes_texts(name, privilege_revokes(d.privileges, c.privileges, c.owns), false)
}

/// Plans every statement that takes the role `name` from `current` to
/// `desired`.
pub fn plan_role(name: &str, desired: &Role, current: &Role) -> (r: Vec<String>)
    ensures
        names_of(r@) == role_plan_text(name@, desired@, current@),
{
    let mut sql = plan_attributes(name, current.can_login, current.is_superuser, desired);
    let members = plan_memberships(name, &current.member_of, &desired.member_of);
    let plan = plan_privileges(&desired.privileges, &current.privileges, &current.owns);
    let privs = privilege_statements(name, &plan);
    let ghost a = sql@;
    append_all(&mut sql, members);
    let ghost b = sql@;
    append_all(&mut sql, privs);
    proof {
        assert(names_of(b) =~= names_of(a) + names_of(members@));
        assert(names_of(sql@) =~= names_of(b) + names_of(privs@));
    }
    sql
}

/// The record of the first entry named `name`, if any.
pub open spec fn lookup(roles: Seq<(Seq<char>, RoleView)>, name: Seq<char>) -> Option<RoleView>
    decreases roles.len(),
{
    if roles.len() == 0 {
        None
    } else if roles[0].0 == name {
        Some(roles[0].1)
    } else {
        lookup(roles.drop_first(), name)
    }
}

proof fn lemma_lookup_first(roles: Seq<(Seq<char>, RoleView)>, name: Seq<char>, i: int)
    requires
        is_first_named(roles, name, i),
    ensures
        lookup(roles, name) == Some(roles[i].1),
    decreases roles.len(),
{
    if i > 0 {
        let rest = roles.drop_first();
        assert(is_first_named(rest, name, i - 1)) by {
            assert forall|j: int| 0 <= j < i - 1 implies rest[j].0 != name by {
                assert(rest[j] == roles[j + 1]);
            }
        }
        lemma_lookup_first(rest, name, i - 1);
    }
}

proof fn lemma_lookup_absent(roles: Seq<(Seq<char>, RoleView)>, name: Seq<char>)
    requires
        !names_role(roles, name),
    ensures
        lookup(roles, name) is None,
    decreases roles.len(),
{
    if roles.len() > 0 {
        assert(roles[0].0 != name);
        let rest = roles.drop_first();
        assert(!names_role(rest, name)) by {
            if names_role(rest, name) {
                let k = choose|k: int| 0 <= k < rest.len() && (#[trigger] rest[k]).0 == name;
                assert(roles[k + 1] == rest[k]);
            }
        }
        lemma_lookup_absent(rest, name);
    }
}

/// The statements for the desired roles that the current state lists, in
/// desired order.
pub open spec fn spec_plan_text(
    desired: Seq<(Seq<char>, RoleView)>,
    current: Seq<(Seq<char>, RoleView)>,
) -> Seq<Seq<char>>
    decreases desired.len(),
{
    if desired.len() == 0 {
        Seq::empty()
    } else {
        let (name, d) = desired.last();
        spec_plan_text(desired.drop_last(), current) + match lookup(current, name) {
            Some(c) => role_plan_text(name, d, c),
            None => Seq::empty(),
        }
    }
}

/// The desired roles that the current state does not list, in order.
pub open spec fn missing_roles(
    desired: Seq<(Seq<char>, RoleView)>,
    current: Seq<(Seq<char>, RoleView)>,
) -> Seq<Seq<char>>
    decreases desired.len(),
{
    if desired.len() == 0 {
        Seq::empty()
    } else {
        let name = desired.last().0;
        missing_roles(desired.drop_last(), current) + if lookup(current, name) is None {
            seq![name]
        } else {
            Seq::empty()
        }
    }
}

/// For each desired role that the current state lists, in desired order:
/// its name, what it should own and does not, and what it owns and should
/// not.
pub open spec fn ownership_report(
    desired: Seq<(Seq<char>, RoleView)>,
    current: Seq<(Seq<char>, RoleView)>,
) -> Seq<(Seq<char>, (OwnershipView, OwnershipView))>
    decreases desired.len(),
{
    if desired.len() == 0 {
        Seq::empty()
    } else {
        let (name, d) = desired.last();
        ownership_report(desired.drop_last(), current) + match lookup(current, name) {
            Some(c) => seq![(name, (ownership_minus(d.owns, c.owns), ownership_minus(c.owns, d.owns)))],
            None => Seq::empty(),
        }
    }
}

/// The views of an ownership report.
pub open spec fn report_views(v: Seq<(String, OwnershipMismatch)>) -> Seq<
    (Seq<char>, (OwnershipView, OwnershipView)),
> {
    v.map_values(|e: (String, OwnershipMismatch)| (e.0@, e.1@))
}

/// A plan for a whole specification: the statements, the desired roles
/// that could not be planned because the current state lacks them, and how
/// each planned role's ownership differs (ownership is never changed by a
/// plan).
#[derive(Debug)]
pub struct SpecPlan {
    pub statements: Vec<String>,
    pub missing_roles: Vec<String>,
    pub ownership: Vec<(String, OwnershipMismatch)>,
}

/// Plans every desired role against its current state. A role that the
/// current state lacks is reported in `missing_roles` and the others are
/// still planned.
pub fn plan_spec(desired: &DatabaseSpec, current: &DatabaseSpec) -> (r: SpecPlan)
    ensures
        names_of(r.statements@) == spec_plan_text(desired@.roles, current@.roles),
        names_of(r.missing_roles@) == missing_roles(desired@.roles, current@.roles),
        report_views(r.ownership@) == ownership_report(desired@.roles, current@.roles),
{
    let mut statements: Vec<String> = Vec::new();
    let mut missing: Vec<String> = Vec::new();
    let mut ownership: Vec<(String, OwnershipMismatch)> = Vec::new();
    let mut i: usize = 0;
    while i < desired.roles.len()
        invariant
            i <= desired@.roles.len(),
            names_of(statements@) == spec_plan_text(desired@.roles.subrange(0, i as int), current@.roles),
            names_of(missing@) == missing_roles(desired@.roles.subrange(0, i as int), current@.roles),
            report_views(ownership@) == ownership_report(
                desired@.roles.subrange(0, i as int),
                current@.roles,
            ),
        decreases desired@.roles.len() - i,
    {
        let name = desired.roles[i].0.as_str();
        let ghost pre = desired@.roles.subrange(0, i as int);
        proof {
            let next = desired@.roles.subrange(0, i + 1);
            assert(next.drop_last() =~= pre);
            assert(next.last() == desired@.roles[i as int]);
        }
        let ghost before_statements = names_of(statements@);
        let ghost before_missing = names_of(missing@);
        let ghost before_report = report_views(ownership@);
        match current.find_role(name) {
            Some(j) => {
                proof {
                    lemma_lookup_first(current@.roles, name@, j as int);
                }
                let planned = plan_role(name, &desired.roles[i].1, &current.roles[j].1);
                append_all(&mut statements, planned);
                let m = ownership_mismatches(&desired.roles[i].1.owns, &current.roles[j].1.owns);
                let n = String::from_str(name);
                ownership.push((n, m));
                proof {
                    assert(report_views(ownership@) =~= before_report.push((n@, m@)));
                    assert(names_of(statements@) =~= before_statements + names_of(planned@));
                    assert(names_of(missing@) =~= before_missing + Seq::<Seq<char>>::empty());
                }
            },
            None => {
                proof {
                    lemma_lookup_absent(current@.roles, name@);
                }
                missing.push(String::from_str(name));
                proof {
                    assert(report_views(ownership@) =~= before_report + Seq::<
                        (Seq<char>, (OwnershipView, OwnershipView)),
                    >::empty());
                    assert(names_of(missing@) =~= before_missing + seq![name@]);
                    assert(names_of(statements@) =~= before_statements + Seq::<Seq<char>>::empty());
                }
            },
        }
        i = i + 1;
    }
    proof {
        assert(desired@.roles.subrange(0, desired@.roles.len() as int) =~= desired@.roles);
    }
    SpecPlan { statements, missing_roles: missing, ownership }
}

} // verus!
