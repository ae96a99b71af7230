//! The computing half of the PostgreSQL adapter: what it makes of catalog
//! rows once they have been read.
use vstd::prelude::*;

use crate::adapters::fakedb::flag_attributes;
use crate::context::{
    kind_of_word, names_of, opt_view, privilege_for, Attributes, DatabaseObject, ObjectKind,
    ObjectView, Privilege, PrivilegeType, RoleAttribute, RoleMembership, UnknownObjectKind,
    UnsupportedPrivilege, has_privilege, copy_opt_string,
};
use crate::strings::{copy_string, str_eq};

verus! {

/// The capabilities of a PostgreSQL role.
#[derive(Debug)]
pub struct PostgresRoleAttributes {
    enabled: bool,
    superuser: bool,
    createdb: bool,
}

impl PostgresRoleAttributes {
    /// A role that cannot create databases.
    pub fn new(enabled: bool, superuser: bool) -> (r: Self)
        ensures
            r.attributes() == flag_attributes(enabled, superuser),
    {
        PostgresRoleAttributes { enabled, superuser, createdb: false }
    }

    /// The capabilities as the catalog reports them.
    pub fn from_catalog(enabled: bool, superuser: bool, createdb: bool) -> (r: Self)
        ensures
            r.attributes() == catalog_attributes(enabled, superuser, createdb),
    {
        PostgresRoleAttributes { enabled, superuser, createdb }
    }
}

/// The capabilities that the catalog's three flags stand for, in order.
pub open spec fn catalog_attributes(enabled: bool, superuser: bool, createdb: bool) -> Seq<
    Attributes,
> {
    if createdb {
        flag_attributes(enabled, superuser).push(Attributes::CreateDb)
    } else {
        flag_attributes(enabled, superuser)
    }
}

impl RoleAttribute for PostgresRoleAttributes {
    closed spec fn attributes(&self) -> Seq<Attributes> {
        catalog_attributes(self.enabled, self.superuser, self.createdb)
    }

    fn get_attributes(&self) -> (r: Vec<Attributes>) {
        let mut attrs: Vec<Attributes> = Vec::new();
        if self.enabled {
            attrs.push(Attributes::Enabled);
        }
        let ghost a = attrs@;
        if self.superuser {
            attrs.push(Attributes::Superuser);
        }
        let ghost b = attrs@;
        if self.createdb {
            attrs.push(Attributes::CreateDb);
        }
        proof {
            if self.enabled {
                assert(a =~= seq![Attributes::Enabled]);
            } else {
                assert(a =~= Seq::<Attributes>::empty());
            }
            assert(b =~= flag_attributes(self.enabled, self.superuser));
        }
        attrs
    }
}

/// A row of the role catalog.
#[derive(Debug, Clone)]
pub struct AttributeRow {
    pub name: String,
    pub enabled: bool,
    pub superuser: bool,
    pub createdb: bool,
}

/// A row of the membership catalog: `member` belongs to `group`.
#[derive(Debug, Clone)]
pub struct MembershipRow {
    pub member: String,
    pub group: String,
}

/// A row of the ownership catalog; `kind` is a catalog word such as
/// `tables`.
#[derive(Debug, Clone)]
pub struct OwnershipRow {
    pub kind: String,
    pub schema: String,
    pub unqualified_name: Option<String>,
    pub owner: String,
}

/// A row of the grant catalog: `grantee` holds `privilege_type` on an object.
#[derive(Debug, Clone)]
pub struct GrantRow {
    pub grantee: String,
    pub kind: String,
    pub schema: String,
    pub unqualified_name: Option<String>,
    pub privilege_type: String,
}

/// The capabilities of the first catalog row named `role`, if any.
pub fn attributes_for_role(rows: &Vec<AttributeRow>, role: &str) -> (r: Option<
    PostgresRoleAttributes,
>)
    ensures
        r is None <==> forall|i: int| 0 <= i < rows@.len() ==> (#[trigger] rows@[i]).name@ != role@,
        r is Some ==> exists|i: int|
            0 <= i < rows@.len() && (#[trigger] rows@[i]).name@ == role@ && (forall|j: int|
                0 <= j < i ==> rows@[j].name@ != role@) && r->Some_0.attributes()
                == catalog_attributes(rows@[i].enabled, rows@[i].superuser, rows@[i].createdb),
{
    let mut i: usize = 0;
    while i < rows.len()
        invariant
            i <= rows@.len(),
            forall|j: int| 0 <= j < i ==> (#[trigger] rows@[j]).name@ != role@,
        decreases rows@.len() - i,
    {
        if str_eq(rows[i].name.as_str(), role) {
            let r = PostgresRoleAttributes::from_catalog(
                rows[i].enabled,
                rows[i].superuser,
                rows[i].createdb,
            );
            assert(rows@[i as int].name@ == role@);
            return Some(r);
        }
        i = i + 1;
    }
    None
}

/// Holds of the membership rows of `role`.
pub open spec fn member_is(role: Seq<char>) -> spec_fn(MembershipRow) -> bool {
    |m: MembershipRow| m.member@ == role
}

/// The group of a membership row.
pub open spec fn group_of() -> spec_fn(MembershipRow) -> Seq<char> {
    |m: MembershipRow| m.group@
}

/// The groups that `role` belongs to, in catalog order.
pub fn memberships_for_role(rows: &Vec<MembershipRow>, role: &str) -> (r: RoleMembership)
    ensures
        names_of(r.memberships@) == rows@.filter(member_is(role@)).map_values(group_of()),
{
    let mut members: Vec<String> = Vec::new();
    let mut i: usize = 0;
    while i < rows.len()
        invariant
            i <= rows@.len(),
            names_of(members@) == rows@.subrange(0, i as int).filter(member_is(role@)).map_values(
                group_of(),
            ),
        decreases rows@.len() - i,
    {
        let ghost before = members@;
        proof {
            assert(rows@.subrange(0, i + 1) =~= rows@.subrange(0, i as int).push(rows@[i as int]));
            rows@.subrange(0, i as int).lemma_filter_push(rows@[i as int], member_is(role@));
            if member_is(role@)(rows@[i as int]) {
                rows@.subrange(0, i as int).filter(member_is(role@)).lemma_push_map_commute(
                    group_of(),
                    rows@[i as int],
                );
            }
        }
        if str_eq(rows[i].member.as_str(), role) {
            let g = copy_string(&rows[i].group);
            members.push(g);
            proof {
                assert(names_of(members@) =~= names_of(before).push(g@));
            }
        }
        i = i + 1;
    }
    proof {
        assert(rows@.subrange(0, rows@.len() as int) =~= rows@);
    }
    RoleMembership::new(members)
}

/// The objects that `role` owns, in catalog order; `None` where a row of
/// `role` names an unknown kind.
pub open spec fn owned_objects(rows: Seq<OwnershipRow>, role: Seq<char>) -> Option<Seq<ObjectView>>
    decreases rows.len(),
{
    if rows.len() == 0 {
        Some(Seq::empty())
    } else {
        let r = rows.last();
        match owned_objects(rows.drop_last(), role) {
            None => None,
            Some(prev) => if r.owner@ == role {
                match kind_of_word(r.kind@) {
                    Some(k) => Some(
                        prev.push(ObjectView { kind: k, schema: r.schema@, name: opt_view(r.unqualified_name) }),
                    ),
                    None => None,
                }
            } else {
                Some(prev)
            },
        }
    }
}

/// The objects that `role` owns, in catalog order.
pub fn ownerships_for_role(rows: &Vec<OwnershipRow>, role: &str) -> (r: Result<
    Vec<DatabaseObject>,
    UnknownObjectKind,
>)
    ensures
        r is Ok <==> owned_objects(rows@, role@) is Some,
        r is Ok ==> owned_objects(rows@, role@) == Some(
            r->Ok_0@.map_values(|o: DatabaseObject| o@),
        ),
        r is Err ==> exists|i: int|
            0 <= i < rows@.len() && (#[trigger] rows@[i]).owner@ == role@ && kind_of_word(
                rows@[i].kind@,
            ) is None && rows@[i].kind@ == r->Err_0.word@,
{
    let mut objects: Vec<DatabaseObject> = Vec::new();
    let mut i: usize = 0;
    while i < rows.len()
        invariant
            i <= rows@.len(),
            owned_objects(rows@.subrange(0, i as int), role@) == Some(
                objects@.map_values(|o: DatabaseObject| o@),
            ),
        decreases rows@.len() - i,
    {
        let ghost before = objects@;
        proof {
            assert(rows@.subrange(0, i + 1).drop_last() =~= rows@.subrange(0, i as int));
        }
        if str_eq(rows[i].owner.as_str(), role) {
            match ObjectKind::parse(rows[i].kind.as_str()) {
                Ok(kind) => {
                    let o = DatabaseObject::new(
                        kind,
                        copy_string(&rows[i].schema),
                        copy_opt_string(&rows[i].unqualified_name),
                    );
                    objects.push(o);
                    proof {
                        assert(objects@.map_values(|o: DatabaseObject| o@) =~= before.map_values(
                            |o: DatabaseObject| o@,
                        ).push(o@));
                    }
                },
                Err(e) => {
                    proof {
                        lemma_owned_objects_none(rows@, role@, i + 1);
                    }
                    return Err(e);
                },
            }
        }
        i = i + 1;
    }
    proof {
        assert(rows@.subrange(0, rows@.len() as int) =~= rows@);
    }
    Ok(objects)
}

proof fn lemma_owned_objects_none(rows: Seq<OwnershipRow>, role: Seq<char>, n: int)
    requires
        0 < n <= rows.len(),
        owned_objects(rows.subrange(0, n), role) is None,
    ensures
        owned_objects(rows, role) is None,
    decreases rows.len(),
{
    if n < rows.len() {
        assert(rows.drop_last().subrange(0, n) =~= rows.subrange(0, n));
        lemma_owned_objects_none(rows.drop_last(), role, n);
    } else {
        assert(rows.subrange(0, n) =~= rows);
    }
}

/// What a grant row contributes to the privileges of `role`: its object and
/// the abstract privilege that its token means there.
pub open spec fn row_grant(row: GrantRow, role: Seq<char>) -> Option<(ObjectView, PrivilegeType)> {
    if row.grantee@ == role {
        match kind_of_word(row.kind@) {
            Some(k) => match privilege_for(k, row.privilege_type@) {
                Some(p) => Some(
                    (ObjectView { kind: k, schema: row.schema@, name: opt_view(row.unqualified_name) }, p),
                ),
                None => None,
            },
            None => None,
        }
    } else {
        None
    }
}

/// Holds of the rows of `role` whose token means nothing on their kind.
pub open spec fn unmapped(role: Seq<char>) -> spec_fn(GrantRow) -> bool {
    |row: GrantRow|
        row.grantee@ == role && kind_of_word(row.kind@) is Some && privilege_for(
            kind_of_word(row.kind@)->Some_0,
            row.privilege_type@,
        ) is None
}

/// The token and kind of a row.
pub open spec fn token_and_kind() -> spec_fn(GrantRow) -> (Seq<char>, ObjectKind) {
    |row: GrantRow| (row.privilege_type@, kind_of_word(row.kind@)->Some_0)
}

/// The token and kind of a skipped row.
pub open spec fn skipped_views(s: Seq<UnsupportedPrivilege>) -> Seq<(Seq<char>, ObjectKind)> {
    s.map_values(|u: UnsupportedPrivilege| (u.token@, u.kind))
}

/// The privilege records of one role, and the rows whose token had no
/// meaning on their kind.
#[derive(Debug)]
pub struct PermissionScan {
    pub privileges: Vec<Privilege>,
    pub skipped: Vec<UnsupportedPrivilege>,
}

/// The records group the contributions of the first `n` rows: one record per
/// object, each with the privileges that some row gives on it and no other.
pub open spec fn groups_rows(
    recs: Seq<Privilege>,
    rows: Seq<GrantRow>,
    role: Seq<char>,
    n: int,
) -> bool {
    &&& forall|a: int, b: int|
        0 <= a < recs.len() && 0 <= b < recs.len() && a != b ==> (#[trigger] recs[a]).object@
            != (#[trigger] recs[b]).object@
    &&& forall|j: int|
        0 <= j < recs.len() ==> (#[trigger] recs[j]).privs@.no_duplicates() && recs[j].privs@.len()
            > 0
    &&& forall|i: int|
        0 <= i < n && (#[trigger] row_grant(rows[i], role)) is Some ==> exists|j: int|
            0 <= j < recs.len() && (#[trigger] recs[j]).object@ == row_grant(rows[i], role)->Some_0.0
                && recs[j].privs@.contains(row_grant(rows[i], role)->Some_0.1)
    &&& forall|j: int, q: int|
        0 <= j < recs.len() && 0 <= q < recs[j].privs@.len() ==> exists|i: int|
            0 <= i < n && row_grant(rows[i], role) == Some(
                (recs[j].object@, #[trigger] recs[j].privs@[q]),
            )
}

/// Whether row `k` gives something on the object `o`.
pub open spec fn contributes(rows: Seq<GrantRow>, role: Seq<char>, k: int, o: ObjectView) -> bool {
    row_grant(rows[k], role) is Some && row_grant(rows[k], role)->Some_0.0 == o
}

/// The records come in the order in which their objects first appear among
/// the first `n` rows: every row on a later record's object comes after
/// some row on each earlier record's object.
pub open spec fn first_seen_order(recs: Seq<Privilege>, rows: Seq<GrantRow>, role: Seq<char>, n: int) -> bool {
    forall|a: int, b: int, k: int|
        #![trigger recs[a], contributes(rows, role, k, recs[b].object@)]
        0 <= a < b < recs.len() && 0 <= k < n && contributes(rows, role, k, recs[b].object@)
            ==> exists|i: int| 0 <= i < k && #[trigger] contributes(rows, role, i, recs[a].object@)
}

proof fn lemma_order_step(
    old_recs: Seq<Privilege>,
    recs: Seq<Privilege>,
    rows: Seq<GrantRow>,
    role: Seq<char>,
    i: int,
)
    requires
        0 <= i < rows.len(),
        groups_rows(old_recs, rows, role, i),
        first_seen_order(old_recs, rows, role, i),
        groups_rows(recs, rows, role, i + 1),
        recs.len() == old_recs.len() || recs.len() == old_recs.len() + 1,
        forall|m: int| 0 <= m < old_recs.len() ==> recs[m].object@ == old_recs[m].object@,
    ensures
        first_seen_order(recs, rows, role, i + 1),
{
    assert forall|a: int, b: int, k: int|
        #![trigger recs[a], contributes(rows, role, k, recs[b].object@)]
        0 <= a < b < recs.len() && 0 <= k < i + 1 && contributes(rows, role, k, recs[b].object@)
        implies exists|i2: int| 0 <= i2 < k && #[trigger] contributes(rows, role, i2, recs[a].object@) by {
        // a witness for recs[a] before row i
        assert(recs[a].object@ == old_recs[a].object@);
        assert(old_recs[a].privs@.len() > 0);
        let w = choose|w: int|
            0 <= w < i && row_grant(rows[w], role) == Some(
                (old_recs[a].object@, #[trigger] old_recs[a].privs@[0]),
            );
        assert(contributes(rows, role, w, recs[a].object@));
        if k < i {
            if b < old_recs.len() {
                assert(recs[b].object@ == old_recs[b].object@);
                assert(contributes(rows, role, k, old_recs[b].object@));
            } else {
                let m = choose|m: int|
                    0 <= m < old_recs.len() && (#[trigger] old_recs[m]).object@ == row_grant(rows[k], role)->Some_0.0
                        && old_recs[m].privs@.contains(row_grant(rows[k], role)->Some_0.1);
                assert(recs[m].object@ == recs[b].object@);
                assert(false);
            }
        }
    }
}

/// The index of the record on `o`, if any.
fn find_object(records: &Vec<Privilege>, o: &DatabaseObject) -> (r: Option<usize>)
    ensures
        r is Some ==> r->Some_0 < records@.len() && records@[r->Some_0 as int].object@ == o@,
        r is None ==> forall|j: int| 0 <= j < records@.len() ==> (#[trigger] records@[j]).object@ != o@,
{
    let mut j: usize = 0;
    while j < records.len()
        invariant
            j <= records@.len(),
            forall|k: int| 0 <= k < j ==> (#[trigger] records@[k]).object@ != o@,
        decreases records@.len() - j,
    {
        if records[j].object.same_object(o) {
            return Some(j);
        }
        j = j + 1;
    }
    None
}

/// The first row of `role` whose kind word is unknown, if any.
fn first_unknown_kind(rows: &Vec<GrantRow>, role: &str) -> (r: Option<UnknownObjectKind>)
    ensures
        r is None <==> forall|i: int|
            0 <= i < rows@.len() && (#[trigger] rows@[i]).grantee@ == role@ ==> kind_of_word(
                rows@[i].kind@,
            ) is Some,
        r is Some ==> exists|i: int|
            0 <= i < rows@.len() && (#[trigger] rows@[i]).grantee@ == role@ && kind_of_word(
                rows@[i].kind@,
            ) is None && rows@[i].kind@ == r->Some_0.word@,
{
    let mut i: usize = 0;
    while i < rows.len()
        invariant
            i <= rows@.len(),
            forall|k: int|
                0 <= k < i && (#[trigger] rows@[k]).grantee@ == role@ ==> kind_of_word(
                    rows@[k].kind@,
                ) is Some,
        decreases rows@.len() - i,
    {
        if str_eq(rows[i].grantee.as_str(), role) {
            match ObjectKind::parse(rows[i].kind.as_str()) {
                Ok(_) => {},
                Err(e) => {
                    assert(rows@[i as int].grantee@ == role@);
                    return Some(e);
                },
            }
        }
        i = i + 1;
    }
    None
}

/// The privileges that `role` holds, one record per object: the rows of
/// `role` are grouped by object and their tokens mapped onto Read and Write.
/// A row whose token means nothing on its kind is skipped and reported; a
/// row of `role` whose kind word is unknown makes the whole scan fail.
#[verifier::rlimit(60)]
pub fn permissions_for_role(rows: &Vec<GrantRow>, role: &str) -> (r: Result<
    PermissionScan,
    UnknownObjectKind,
>)
    ensures
        r is Err <==> exists|i: int|
            0 <= i < rows@.len() && (#[trigger] rows@[i]).grantee@ == role@ && kind_of_word(
                rows@[i].kind@,
            ) is None,
        r is Err ==> exists|i: int|
            0 <= i < rows@.len() && (#[trigger] rows@[i]).grantee@ == role@ && kind_of_word(
                rows@[i].kind@,
            ) is None && rows@[i].kind@ == r->Err_0.word@,
        r is Ok ==> groups_rows(r->Ok_0.privileges@, rows@, role@, rows@.len() as int),
        r is Ok ==> first_seen_order(r->Ok_0.privileges@, rows@, role@, rows@.len() as int),
        r is Ok ==> skipped_views(r->Ok_0.skipped@) == rows@.filter(unmapped(role@)).map_values(
            token_and_kind(),
        ),
{
    match first_unknown_kind(rows, role) {
        Some(e) => {
            return Err(e);
        },
        None => {},
    }
    let mut records: Vec<Privilege> = Vec::new();
    let mut skipped: Vec<UnsupportedPrivilege> = Vec::new();
    let mut i: usize = 0;
    while i < rows.len()
        invariant
            i <= rows@.len(),
            forall|k: int|
                0 <= k < rows@.len() && (#[trigger] rows@[k]).grantee@ == role@ ==> kind_of_word(
                    rows@[k].kind@,
                ) is Some,
            groups_rows(records@, rows@, role@, i as int),
            first_seen_order(records@, rows@, role@, i as int),
            skipped_views(skipped@) == rows@.subrange(0, i as int).filter(unmapped(role@)).map_values(
                token_and_kind(),
            ),
        decreases rows@.len() - i,
    {
        let ghost row = rows@[i as int];
        let ghost g = row_grant(row, role@);
        let ghost old_recs = records@;
        let ghost old_skipped = skipped@;
        proof {
            assert(rows@.subrange(0, i + 1) =~= rows@.subrange(0, i as int).push(row));
            rows@.subrange(0, i as int).lemma_filter_push(row, unmapped(role@));
            if unmapped(role@)(row) {
                rows@.subrange(0, i as int).filter(unmapped(role@)).lemma_push_map_commute(
                    token_and_kind(),
                    row,
                );
            }
        }
        if str_eq(rows[i].grantee.as_str(), role) {
            match ObjectKind::parse(rows[i].kind.as_str()) {
                Err(_) => {
                    assert(false);
                },
                Ok(kind) => {
                    match kind.to_privilege(rows[i].privilege_type.as_str()) {
                        Err(e) => {
                            skipped.push(e);
                            proof {
                                assert(skipped_views(skipped@) =~= skipped_views(old_skipped).push(
                                    (e.token@, e.kind),
                                ));
                                assert(g is None);
                            }
                        },
                        Ok(p) => {
                            let o = DatabaseObject::new(
                                kind,
                                copy_string(&rows[i].schema),
                                copy_opt_string(&rows[i].unqualified_name),
                            );
                            assert(g == Some((o@, p)));
                            match find_object(&records, &o) {
                                Some(j) => {
                                    if !has_privilege(&records[j].privs, p) {
                                        let mut rec = records.remove(j);
                                        let ghost old_privs = rec.privs@;
                                        rec.privs.push(p);
                                        records.insert(j, rec);
                                        proof {
                                            assert(records@ =~= old_recs.update(j as int, rec));
                                            lemma_grow_record(old_recs, j as int, rec, p, rows@, role@, i as int);
                                        }
                                    } else {
                                        proof {
                                            lemma_row_covered(records@, rows@, role@, i as int, j as int);
                                        }
                                    }
                                },
                                None => {
                                    let mut privs: Vec<PrivilegeType> = Vec::new();
                                    privs.push(p);
                                    assert(privs@ =~= seq![p]);
                                    let rec = Privilege { object: o, privs };
                                    records.push(rec);
                                    proof {
                                        lemma_new_record(old_recs, rec, p, rows@, role@, i as int);
                                    }
                                },
                            }
                        },
                    }
                },
            }
        }
        proof {
            if g is None {
                assert(groups_rows(records@, rows@, role@, i + 1)) by {
                    assert forall|j: int, q: int|
                        0 <= j < records@.len() && 0 <= q < records@[j].privs@.len() implies exists|k: int|
                            0 <= k < i + 1 && row_grant(rows@[k], role@) == Some(
                                (records@[j].object@, #[trigger] records@[j].privs@[q]),
                            ) by {}
                }
            }
            lemma_order_step(old_recs, records@, rows@, role@, i as int);
        }
        i = i + 1;
    }
    proof {
        assert(rows@.subrange(0, rows@.len() as int) =~= rows@);
    }
    Ok(PermissionScan { privileges: records, skipped })
}

proof fn lemma_row_covered(recs: Seq<Privilege>, rows: Seq<GrantRow>, role: Seq<char>, i: int, j: int)
    requires
        0 <= i < rows.len(),
        groups_rows(recs, rows, role, i),
        row_grant(rows[i], role) is Some,
        0 <= j < recs.len(),
        recs[j].object@ == row_grant(rows[i], role)->Some_0.0,
        recs[j].privs@.contains(row_grant(rows[i], role)->Some_0.1),
    ensures
        groups_rows(recs, rows, role, i + 1),
{
    assert forall|j2: int, q: int|
        0 <= j2 < recs.len() && 0 <= q < recs[j2].privs@.len() implies exists|k: int|
            0 <= k < i + 1 && row_grant(rows[k], role) == Some(
                (recs[j2].object@, #[trigger] recs[j2].privs@[q]),
            ) by {}
}

proof fn lemma_grow_record(
    old_recs: Seq<Privilege>,
    j: int,
    rec: Privilege,
    p: PrivilegeType,
    rows: Seq<GrantRow>,
    role: Seq<char>,
    i: int,
)
    requires
        0 <= i < rows.len(),
        groups_rows(old_recs, rows, role, i),
        0 <= j < old_recs.len(),
        rec.object@ == old_recs[j].object@,
        !old_recs[j].privs@.contains(p),
        rec.privs@ == old_recs[j].privs@.push(p),
        row_grant(rows[i], role) == Some((rec.object@, p)),
    ensures
        groups_rows(old_recs.update(j, rec), rows, role, i + 1),
{
    let recs = old_recs.update(j, rec);
    assert forall|a: int, b: int|
        0 <= a < recs.len() && 0 <= b < recs.len() && a != b implies (#[trigger] recs[a]).object@
            != (#[trigger] recs[b]).object@ by {
        assert(old_recs[a].object@ != old_recs[b].object@);
    }
    assert forall|k: int| 0 <= k < recs.len() implies (#[trigger] recs[k]).privs@.no_duplicates()
        && recs[k].privs@.len() > 0 by {
        if k == j {
            assert(old_recs[j].privs@.no_duplicates());
            assert forall|x: int, y: int|
                0 <= x < y < rec.privs@.len() implies rec.privs@[x] != rec.privs@[y] by {
                if y == rec.privs@.len() - 1 {
                    assert(old_recs[j].privs@[x] == rec.privs@[x]);
                }
            }
        }
    }
    assert forall|k: int|
        0 <= k < i + 1 && (#[trigger] row_grant(rows[k], role)) is Some implies exists|m: int|
            0 <= m < recs.len() && (#[trigger] recs[m]).object@ == row_grant(rows[k], role)->Some_0.0
                && recs[m].privs@.contains(row_grant(rows[k], role)->Some_0.1) by {
        if k == i {
            assert(rec.privs@[rec.privs@.len() - 1] == p);
            assert(recs[j] == rec);
        } else {
            let m = choose|m: int|
                0 <= m < old_recs.len() && (#[trigger] old_recs[m]).object@ == row_grant(rows[k], role)->Some_0.0
                    && old_recs[m].privs@.contains(row_grant(rows[k], role)->Some_0.1);
            if m == j {
                let x = row_grant(rows[k], role)->Some_0.1;
                let q = choose|q: int| 0 <= q < old_recs[j].privs@.len() && old_recs[j].privs@[q] == x;
                assert(rec.privs@[q] == x);
                assert(recs[m] == rec);
            } else {
                assert(recs[m] == old_recs[m]);
            }
        }
    }
    assert forall|m: int, q: int|
        0 <= m < recs.len() && 0 <= q < recs[m].privs@.len() implies exists|k: int|
            0 <= k < i + 1 && row_grant(rows[k], role) == Some(
                (recs[m].object@, #[trigger] recs[m].privs@[q]),
            ) by {
        if m == j {
            if q == rec.privs@.len() - 1 {
                assert(row_grant(rows[i], role) == Some((recs[m].object@, recs[m].privs@[q])));
            } else {
                assert(recs[m].privs@[q] == old_recs[j].privs@[q]);
                let k = choose|k: int|
                    0 <= k < i && row_grant(rows[k], role) == Some(
                        (old_recs[j].object@, #[trigger] old_recs[j].privs@[q]),
                    );
            }
        } else {
            assert(recs[m] == old_recs[m]);
            let k = choose|k: int|
                0 <= k < i && row_grant(rows[k], role) == Some(
                    (old_recs[m].object@, #[trigger] old_recs[m].privs@[q]),
                );
        }
    }
}

proof fn lemma_new_record(
    old_recs: Seq<Privilege>,
    rec: Privilege,
    p: PrivilegeType,
    rows: Seq<GrantRow>,
    role: Seq<char>,
    i: int,
)
    requires
        0 <= i < rows.len(),
        groups_rows(old_recs, rows, role, i),
        forall|j: int| 0 <= j < old_recs.len() ==> (#[trigger] old_recs[j]).object@ != rec.object@,
        rec.privs@ == seq![p],
        row_grant(rows[i], role) == Some((rec.object@, p)),
    ensures
        groups_rows(old_recs.push(rec), rows, role, i + 1),
{
    let recs = old_recs.push(rec);
    let n = old_recs.len() as int;
    assert(recs[n] == rec);
    assert forall|a: int, b: int|
        0 <= a < recs.len() && 0 <= b < recs.len() && a != b implies (#[trigger] recs[a]).object@
            != (#[trigger] recs[b]).object@ by {
        if a < n && b < n {
            assert(recs[a] == old_recs[a] && recs[b] == old_recs[b]);
        } else if a < n {
            assert(recs[a] == old_recs[a]);
        } else {
            assert(recs[b] == old_recs[b]);
        }
    }
    assert forall|k: int| 0 <= k < recs.len() implies (#[trigger] recs[k]).privs@.no_duplicates()
        && recs[k].privs@.len() > 0 by {
        if k < n {
            assert(recs[k] == old_recs[k]);
        }
    }
    assert forall|k: int|
        0 <= k < i + 1 && (#[trigger] row_grant(rows[k], role)) is Some implies exists|m: int|
            0 <= m < recs.len() && (#[trigger] recs[m]).object@ == row_grant(rows[k], role)->Some_0.0
                && recs[m].privs@.contains(row_grant(rows[k], role)->Some_0.1) by {
        if k == i {
            assert(recs[n].privs@[0] == p);
        } else {
            let m = choose|m: int|
                0 <= m < old_recs.len() && (#[trigger] old_recs[m]).object@ == row_grant(rows[k], role)->Some_0.0
                    && old_recs[m].privs@.contains(row_grant(rows[k], role)->Some_0.1);
            assert(recs[m] == old_recs[m]);
        }
    }
    assert forall|m: int, q: int|
        0 <= m < recs.len() && 0 <= q < recs[m].privs@.len() implies exists|k: int|
            0 <= k < i + 1 && row_grant(rows[k], role) == Some(
                (recs[m].object@, #[trigger] recs[m].privs@[q]),
            ) by {
        if m == n {
            assert(recs[m].privs@[q] == p);
            assert(row_grant(rows[i], role) == Some((recs[m].object@, recs[m].privs@[q])));
        } else {
            assert(recs[m] == old_recs[m]);
            let k = choose|k: int|
                0 <= k < i && row_grant(rows[k], role) == Some(
                    (old_recs[m].object@, #[trigger] old_recs[m].privs@[q]),
                );
        }
    }
}

} // verus!
