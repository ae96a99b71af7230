//! The declarative specification: one record per role, keyed by role name.
use vstd::prelude::*;

use crate::context::{
    fqn_of, has_attribute, has_privilege, names_of, Attributes, DatabaseObject, DefaultPrivilege,
    ObjectKind, ObjectView, Privilege, PrivilegeType, PrivilegeView, RoleAttribute,
    RoleMembership,
};
use crate::diff::holds_value;
use crate::grants::{join_names, join_roles};
use crate::strings::{copy_string, str_eq};

verus! {

/// The roles of a specification, in order; no two entries share a name.
pub type RoleSpec = Vec<(String, Role)>;

/// A whole specification: format version, source system and roles.
#[derive(Debug, Clone)]
pub struct DatabaseSpec {
    pub version: u8,
    pub adapter: String,
    pub roles: RoleSpec,
}

/// The desired (or observed) state of one role.
#[derive(Debug, Clone)]
pub struct Role {
    pub can_login: bool,
    pub is_superuser: bool,
    pub member_of: Vec<String>,
    pub owns: Ownership,
    pub privileges: Privileges,
}

/// Fully qualified names of the objects that a role owns, by kind.
#[derive(Debug, Clone)]
pub struct Ownership {
    pub schemas: Vec<String>,
    pub tables: Vec<String>,
    pub sequences: Vec<String>,
}

/// Read and write grants on objects, by kind.
#[derive(Debug, Clone)]
pub struct Privileges {
    pub schemas: SchemaPrivileges,
    pub tables: TablePrivileges,
    pub sequences: SequencePrivileges,
}

/// Fully qualified names of the schemas a role may read and write.
#[derive(Debug, Clone)]
pub struct SchemaPrivileges {
    pub read: Vec<String>,
    pub write: Vec<String>,
}

/// Fully qualified names of the tables a role may read and write.
#[derive(Debug, Clone)]
pub struct TablePrivileges {
    pub read: Vec<String>,
    pub write: Vec<String>,
}

/// Fully qualified names of the sequences a role may read and write.
#[derive(Debug, Clone)]
pub struct SequencePrivileges {
    pub read: Vec<String>,
    pub write: Vec<String>,
}

/// Names that can be read and names that can be written.
pub ghost struct AccessView {
    pub read: Seq<Seq<char>>,
    pub write: Seq<Seq<char>>,
}

pub ghost struct OwnershipView {
    pub schemas: Seq<Seq<char>>,
    pub tables: Seq<Seq<char>>,
    pub sequences: Seq<Seq<char>>,
}

pub ghost struct PrivilegesView {
    pub schemas: AccessView,
    pub tables: AccessView,
    pub sequences: AccessView,
}

pub ghost struct RoleView {
    pub can_login: bool,
    pub is_superuser: bool,
    pub member_of: Seq<Seq<char>>,
    pub owns: OwnershipView,
    pub privileges: PrivilegesView,
}

pub ghost struct SpecView {
    pub version: u8,
    pub adapter: Seq<char>,
    pub roles: Seq<(Seq<char>, RoleView)>,
}

impl View for SchemaPrivileges {
    type V = AccessView;

    open spec fn view(&self) -> AccessView {
        AccessView { read: names_of(self.read@), write: names_of(self.write@) }
    }
}

impl View for TablePrivileges {
    type V = AccessView;

    open spec fn view(&self) -> AccessView {
        AccessView { read: names_of(self.read@), write: names_of(self.write@) }
    }
}

impl View for SequencePrivileges {
    type V = AccessView;

    open spec fn view(&self) -> AccessView {
        AccessView { read: names_of(self.read@), write: names_of(self.write@) }
    }
}

impl View for Ownership {
    type V = OwnershipView;

    open spec fn view(&self) -> OwnershipView {
        OwnershipView {
            schemas: names_of(self.schemas@),
            tables: names_of(self.tables@),
            sequences: names_of(self.sequences@),
        }
    }
}

impl View for Privileges {
    type V = PrivilegesView;

    open spec fn view(&self) -> PrivilegesView {
        PrivilegesView { schemas: self.schemas@, tables: self.tables@, sequences: self.sequences@ }
    }
}

impl View for Role {
    type V = RoleView;

    open spec fn view(&self) -> RoleView {
        RoleView {
            can_login: self.can_login,
            is_superuser: self.is_superuser,
            member_of: names_of(self.member_of@),
            owns: self.owns@,
            privileges: self.privileges@,
        }
    }
}

/// The entries of a role list, by name and record.
pub open spec fn role_entries(roles: Seq<(String, Role)>) -> Seq<(Seq<char>, RoleView)> {
    roles.map_values(|e: (String, Role)| (e.0@, e.1@))
}

impl View for DatabaseSpec {
    type V = SpecView;

    open spec fn view(&self) -> SpecView {
        SpecView { version: self.version, adapter: self.adapter@, roles: role_entries(self.roles@) }
    }
}

/// No two entries share a name.
pub open spec fn unique_names(roles: Seq<(Seq<char>, RoleView)>) -> bool {
    forall|i: int, j: int|
        0 <= i < roles.len() && 0 <= j < roles.len() && i != j ==> roles[i].0 != roles[j].0
}

/// Whether an entry is named `name`.
pub open spec fn names_role(roles: Seq<(Seq<char>, RoleView)>, name: Seq<char>) -> bool {
    exists|i: int| 0 <= i < roles.len() && (#[trigger] roles[i]).0 == name
}

/// An empty access list.
pub open spec fn no_access() -> AccessView {
    AccessView { read: Seq::empty(), write: Seq::empty() }
}

/// A role record with the given flags and nothing else.
pub open spec fn bare_role(can_login: bool, is_superuser: bool) -> RoleView {
    RoleView {
        can_login,
        is_superuser,
        member_of: Seq::empty(),
        owns: OwnershipView { schemas: Seq::empty(), tables: Seq::empty(), sequences: Seq::empty() },
        privileges: PrivilegesView {
            schemas: no_access(),
            tables: no_access(),
            sequences: no_access(),
        },
    }
}

/// Holds of the objects of kind `k`.
pub open spec fn of_kind(k: ObjectKind) -> spec_fn(ObjectView) -> bool {
    |o: ObjectView| o.kind == k
}

/// The fully qualified name of an object.
pub open spec fn object_fqn() -> spec_fn(ObjectView) -> Seq<char> {
    |o: ObjectView| fqn_of(o)
}

/// Holds of the privilege records on objects of kind `k` that include `t`.
pub open spec fn holding(k: ObjectKind, t: PrivilegeType) -> spec_fn(PrivilegeView) -> bool {
    |p: PrivilegeView| p.object.kind == k && p.privs.contains(t)
}

/// The fully qualified name of a privilege record's object.
pub open spec fn privilege_fqn() -> spec_fn(PrivilegeView) -> Seq<char> {
    |p: PrivilegeView| fqn_of(p.object)
}

/// The views of a list of objects.
pub open spec fn object_views(objs: Seq<DatabaseObject>) -> Seq<ObjectView> {
    objs.map_values(|o: DatabaseObject| o@)
}

/// The views of a list of privilege records.
pub open spec fn privilege_views(privs: Seq<Privilege>) -> Seq<PrivilegeView> {
    privs.map_values(|p: Privilege| p@)
}

/// The fully qualified names of the objects of kind `k`, in order.
pub open spec fn fqns_of_kind(objs: Seq<ObjectView>, k: ObjectKind) -> Seq<Seq<char>> {
    objs.filter(of_kind(k)).map_values(object_fqn())
}

/// The fully qualified names of the objects of kind `k` on which `t` is held,
/// in order.
pub open spec fn granted(privs: Seq<PrivilegeView>, k: ObjectKind, t: PrivilegeType) -> Seq<
    Seq<char>,
> {
    privs.filter(holding(k, t)).map_values(privilege_fqn())
}

proof fn lemma_filter_map_push<A, B>(s: Seq<A>, x: A, p: spec_fn(A) -> bool, f: spec_fn(A) -> B)
    ensures
        s.push(x).filter(p).map_values(f) == if p(x) {
            s.filter(p).map_values(f).push(f(x))
        } else {
            s.filter(p).map_values(f)
        },
{
    s.lemma_filter_push(x, p);
    if p(x) {
        s.filter(p).lemma_push_map_commute(f, x);
    }
}

/// Appends to `dst` the fully qualified names of the objects of kind `k`.
fn push_fqns_of_kind(dst: &mut Vec<String>, objs: &[DatabaseObject], k: ObjectKind)
    ensures
        names_of(final(dst)@) == names_of(old(dst)@) + fqns_of_kind(object_views(objs@), k),
{
    let ghost start = names_of(dst@);
    let mut i: usize = 0;
    while i < objs.len()
        invariant
            i <= objs@.len(),
            names_of(dst@) == start + fqns_of_kind(object_views(objs@.subrange(0, i as int)), k),
        decreases objs@.len() - i,
    {
        let ghost pre = object_views(objs@.subrange(0, i as int));
        let ghost before = dst@;
        proof {
            assert(object_views(objs@.subrange(0, i + 1)) =~= pre.push(objs@[i as int]@));
            lemma_filter_map_push(pre, objs@[i as int]@, of_kind(k), object_fqn());
        }
        if objs[i].kind == k {
            let name = objs[i].fqn();
            dst.push(name);
            proof {
                assert(names_of(dst@) =~= names_of(before).push(name@));
            }
        }
        i = i + 1;
    }
    proof {
        assert(objs@.subrange(0, objs@.len() as int) =~= objs@);
    }
}

/// Appends to `dst` the fully qualified names of the objects of kind `k`
/// on which `t` is held.
fn push_granted(dst: &mut Vec<String>, privs: &[Privilege], k: ObjectKind, t: PrivilegeType)
    ensures
        names_of(final(dst)@) == names_of(old(dst)@) + granted(privilege_views(privs@), k, t),
{
    let ghost start = names_of(dst@);
    let mut i: usize = 0;
    while i < privs.len()
        invariant
            i <= privs@.len(),
            names_of(dst@) == start + granted(privilege_views(privs@.subrange(0, i as int)), k, t),
        decreases privs@.len() - i,
    {
        let ghost pre = privilege_views(privs@.subrange(0, i as int));
        let ghost before = dst@;
        proof {
            assert(privilege_views(privs@.subrange(0, i + 1)) =~= pre.push(privs@[i as int]@));
            lemma_filter_map_push(pre, privs@[i as int]@, holding(k, t), privilege_fqn());
        }
        if privs[i].object.kind == k && has_privilege(&privs[i].privs, t) {
            let name = privs[i].object.fqn();
            dst.push(name);
            proof {
                assert(names_of(dst@) =~= names_of(before).push(name@));
            }
        }
        i = i + 1;
    }
    proof {
        assert(privs@.subrange(0, privs@.len() as int) =~= privs@);
    }
}

/// Whether some object is of kind `k`.
fn any_of_kind(objs: &[DatabaseObject], k: ObjectKind) -> (r: bool)
    ensures
        r == exists|i: int| 0 <= i < objs@.len() && (#[trigger] objs@[i]).kind == k,
{
    let mut i: usize = 0;
    while i < objs.len()
        invariant
            i <= objs@.len(),
            forall|j: int| 0 <= j < i ==> (#[trigger] objs@[j]).kind != k,
        decreases objs@.len() - i,
    {
        if objs[i].kind == k {
            return true;
        }
        i = i + 1;
    }
    false
}

/// Whether some privilege record is on an object of kind `k`.
fn any_privilege_of_kind(privs: &[Privilege], k: ObjectKind) -> (r: bool)
    ensures
        r == exists|i: int| 0 <= i < privs@.len() && (#[trigger] privs@[i]).object.kind == k,
{
    let mut i: usize = 0;
    while i < privs.len()
        invariant
            i <= privs@.len(),
            forall|j: int| 0 <= j < i ==> (#[trigger] privs@[j]).object.kind != k,
        decreases privs@.len() - i,
    {
        if privs[i].object.kind == k {
            return true;
        }
        i = i + 1;
    }
    false
}

/// The index of the first entry named `name`.
pub open spec fn is_first_named(roles: Seq<(Seq<char>, RoleView)>, name: Seq<char>, i: int) -> bool {
    0 <= i < roles.len() && roles[i].0 == name && forall|j: int| 0 <= j < i ==> roles[j].0 != name
}

/// The parents of `m`, in order, that neither `existing` nor an earlier
/// entry of `m` holds.
pub open spec fn new_parents(existing: Seq<Seq<char>>, m: Seq<Seq<char>>) -> Seq<Seq<char>>
    decreases m.len(),
{
    if m.len() == 0 {
        Seq::empty()
    } else {
        let prev = new_parents(existing, m.drop_last());
        if (existing + prev).contains(m.last()) {
            prev
        } else {
            prev.push(m.last())
        }
    }
}

/// A record with the parents of `m` that it lacks appended, each once.
pub open spec fn with_memberships(r: RoleView, m: Seq<Seq<char>>) -> RoleView {
    RoleView { member_of: r.member_of + new_parents(r.member_of, m), ..r }
}

/// Appends to `dst` each name of `src` that it does not hold yet.
fn push_new_names(dst: &mut Vec<String>, src: &Vec<String>)
    ensures
        names_of(final(dst)@) == names_of(old(dst)@) + new_parents(
            names_of(old(dst)@),
            names_of(src@),
        ),
        names_of(old(dst)@).no_duplicates() ==> names_of(final(dst)@).no_duplicates(),
{
    let ghost start = names_of(dst@);
    let mut i: usize = 0;
    while i < src.len()
        invariant
            i <= src@.len(),
            names_of(dst@) == start + new_parents(start, names_of(src@.subrange(0, i as int))),
            start.no_duplicates() ==> names_of(dst@).no_duplicates(),
        decreases src@.len() - i,
    {
        let ghost before = dst@;
        proof {
            let pre = names_of(src@.subrange(0, i as int));
            assert(names_of(src@.subrange(0, i + 1)).drop_last() =~= pre);
            assert(names_of(src@.subrange(0, i + 1)).last() == src@[i as int]@);
        }
        let present = holds_value(dst, &src[i]);
        proof {
            assert(crate::diff::views(dst@) =~= names_of(dst@));
        }
        if !present {
            let s = copy_string(&src[i]);
            dst.push(s);
            proof {
                assert(names_of(dst@) =~= names_of(before).push(s@));
                let prev = new_parents(start, names_of(src@.subrange(0, i as int)));
                assert(start + prev.push(s@) =~= (start + prev).push(s@));
                if start.no_duplicates() {
                    assert forall|a: int, b: int|
                        0 <= a < b < names_of(dst@).len() implies names_of(dst@)[a] != names_of(
                            dst@,
                        )[b] by {
                        if b == names_of(dst@).len() - 1 {
                            assert(names_of(before)[a] == names_of(dst@)[a]);
                        }
                    }
                }
            }
        }
        i = i + 1;
    }
    proof {
        assert(src@.subrange(0, src@.len() as int) =~= src@);
    }
}

/// A record with ownerships appended.
pub open spec fn with_ownerships(r: RoleView, objs: Seq<ObjectView>) -> RoleView {
    RoleView {
        owns: OwnershipView {
            schemas: r.owns.schemas + fqns_of_kind(objs, ObjectKind::Schema),
            tables: r.owns.tables + fqns_of_kind(objs, ObjectKind::Table),
            sequences: r.owns.sequences + fqns_of_kind(objs, ObjectKind::Sequence),
        },
        ..r
    }
}

/// An access list with the grants of kind `k` appended.
pub open spec fn with_access(a: AccessView, privs: Seq<PrivilegeView>, k: ObjectKind) -> AccessView {
    AccessView {
        read: a.read + granted(privs, k, PrivilegeType::Read),
        write: a.write + granted(privs, k, PrivilegeType::Write),
    }
}

/// A record with privileges appended.
pub open spec fn with_privileges(r: RoleView, privs: Seq<PrivilegeView>) -> RoleView {
    RoleView {
        privileges: PrivilegesView {
            schemas: with_access(r.privileges.schemas, privs, ObjectKind::Schema),
            tables: with_access(r.privileges.tables, privs, ObjectKind::Table),
            sequences: with_access(r.privileges.sequences, privs, ObjectKind::Sequence),
        },
        ..r
    }
}

impl DatabaseSpec {
    /// An empty specification for the given source system.
    pub fn new(adapter: &str) -> (r: DatabaseSpec)
        ensures
            r@.version == 1,
            r@.adapter == adapter@,
            r@.roles.len() == 0,
    {
        let r = DatabaseSpec { version: 1, adapter: String::from_str(adapter), roles: Vec::new() };
        proof {
            assert(r@.roles =~= Seq::<(Seq<char>, RoleView)>::empty());
        }
        r
    }

    /// The index of the first entry named `name`.
    pub fn find_role(&self, name: &str) -> (r: Option<usize>)
        ensures
            match r {
                Some(i) => is_first_named(self@.roles, name@, i as int),
                None => !names_role(self@.roles, name@),
            },
    {
        let mut i: usize = 0;
        while i < self.roles.len()
            invariant
                i <= self.roles@.len(),
                forall|j: int| 0 <= j < i ==> self@.roles[j].0 != name@,
            decreases self.roles@.len() - i,
        {
            if str_eq(self.roles[i].0.as_str(), name) {
                return Some(i);
            }
            i = i + 1;
        }
        None
    }

    /// Records a role with the capabilities that `role` reports, and nothing
    /// else; an entry of the same name is replaced in place.
    pub fn add_role<A: RoleAttribute>(&mut self, name: &str, role: &A)
        ensures
            final(self)@.version == old(self)@.version,
            final(self)@.adapter == old(self)@.adapter,
            ({
                let added = bare_role(
                    role.attributes().contains(Attributes::Enabled),
                    role.attributes().contains(Attributes::Superuser),
                );
                &&& forall|i: int|
                    is_first_named(old(self)@.roles, name@, i) ==> final(self)@.roles
                        == old(self)@.roles.update(i, (name@, added))
                &&& !names_role(old(self)@.roles, name@) ==> final(self)@.roles == old(
                    self,
                )@.roles.push((name@, added))
            }),
            unique_names(old(self)@.roles) ==> unique_names(final(self)@.roles),
            names_role(final(self)@.roles, name@),
    {
        let attrs = role.get_attributes();
        let record = Role {
            can_login: role.is_enabled(),
            is_superuser: has_attribute(&attrs, Attributes::Superuser),
            member_of: Vec::new(),
            owns: Ownership::new(),
            privileges: Privileges::new(),
        };
        proof {
            assert(record@.member_of =~= Seq::<Seq<char>>::empty());
            assert(record@.owns.schemas =~= Seq::<Seq<char>>::empty());
            assert(record@.owns.tables =~= Seq::<Seq<char>>::empty());
            assert(record@.owns.sequences =~= Seq::<Seq<char>>::empty());
            assert(record@.privileges.schemas.read =~= Seq::<Seq<char>>::empty());
            assert(record@.privileges.schemas.write =~= Seq::<Seq<char>>::empty());
            assert(record@.privileges.tables.read =~= Seq::<Seq<char>>::empty());
            assert(record@.privileges.tables.write =~= Seq::<Seq<char>>::empty());
            assert(record@.privileges.sequences.read =~= Seq::<Seq<char>>::empty());
            assert(record@.privileges.sequences.write =~= Seq::<Seq<char>>::empty());
            assert(record@ == bare_role(record.can_login, record.is_superuser));
        }
        let ghost old_roles = self@.roles;
        match self.find_role(name) {
            Some(i) => {
                self.roles.set(i, (String::from_str(name), record));
                proof {
                    assert(self@.roles =~= old_roles.update(i as int, (name@, record@)));
                    assert(self@.roles[i as int].0 == name@);
                }
            },
            None => {
                self.roles.push((String::from_str(name), record));
                proof {
                    assert(self@.roles =~= old_roles.push((name@, record@)));
                    assert(self@.roles[old_roles.len() as int].0 == name@);
                }
            },
        }
    }
}

/// Why a specification could not take in what it was handed.
#[derive(Debug, Clone)]
pub enum SpecError {
    /// A role was referred to that the specification does not list.
    InconsistentSnapshot { role: String },
    /// An object of a kind that the specification has no list for.
    UnsupportedObjectKind { kind: ObjectKind },
}

/// The default of `can_login`.
pub fn yes() -> (r: bool)
    ensures
        r,
{
    true
}

/// What a boolean word of the specification file means: `yes` and `true`,
/// `no` and `false`.
pub open spec fn bool_word(s: Seq<char>) -> Option<bool> {
    if s == "yes"@ || s == "true"@ {
        Some(true)
    } else if s == "no"@ || s == "false"@ {
        Some(false)
    } else {
        None
    }
}

/// Reads a boolean word of the specification file.
pub fn parse_bool_word(s: &str) -> (r: Option<bool>)
    ensures
        r == bool_word(s@),
{
    if str_eq(s, "yes") || str_eq(s, "true") {
        Some(true)
    } else if str_eq(s, "no") || str_eq(s, "false") {
        Some(false)
    } else {
        None
    }
}

/// A value that may hold nothing.
pub trait IsEmpty {
    spec fn empty_spec(&self) -> bool;

    fn is_empty(&self) -> (r: bool)
        ensures
            r == self.empty_spec(),
    ;
}

impl IsEmpty for SchemaPrivileges {
    open spec fn empty_spec(&self) -> bool {
        self.read@.len() == 0 && self.write@.len() == 0
    }

    fn is_empty(&self) -> (r: bool) {
        self.read.len() == 0 && self.write.len() == 0
    }
}

impl IsEmpty for TablePrivileges {
    open spec fn empty_spec(&self) -> bool {
        self.read@.len() == 0 && self.write@.len() == 0
    }

    fn is_empty(&self) -> (r: bool) {
        self.read.len() == 0 && self.write.len() == 0
    }
}

impl IsEmpty for SequencePrivileges {
    open spec fn empty_spec(&self) -> bool {
        self.read@.len() == 0 && self.write@.len() == 0
    }

    fn is_empty(&self) -> (r: bool) {
        self.read.len() == 0 && self.write.len() == 0
    }
}

impl IsEmpty for Ownership {
    open spec fn empty_spec(&self) -> bool {
        self.schemas@.len() == 0 && self.tables@.len() == 0 && self.sequences@.len() == 0
    }

    fn is_empty(&self) -> (r: bool) {
        self.schemas.len() == 0 && self.tables.len() == 0 && self.sequences.len() == 0
    }
}

impl IsEmpty for Privileges {
    open spec fn empty_spec(&self) -> bool {
        self.schemas.empty_spec() && self.tables.empty_spec() && self.sequences.empty_spec()
    }

    fn is_empty(&self) -> (r: bool) {
        self.schemas.is_empty() && self.tables.is_empty() && self.sequences.is_empty()
    }
}

/// `<label><names joined by ", ">. `, or nothing when there are no names.
pub open spec fn summary_part(label: Seq<char>, names: Seq<Seq<char>>) -> Seq<char> {
    if names.len() == 0 {
        Seq::empty()
    } else {
        label + join_names(names) + ". "@
    }
}

/// A one-line account of what is owned: schemas, tables, then sequences.
pub open spec fn ownership_summary(o: OwnershipView) -> Seq<char> {
    summary_part("SC: "@, o.schemas) + summary_part("TB: "@, o.tables) + summary_part(
        "SQ: "@,
        o.sequences,
    )
}

fn push_summary_part(out: &mut String, label: &str, names: &Vec<String>)
    ensures
        final(out)@ == old(out)@ + summary_part(label@, names_of(names@)),
{
    if names.len() != 0 {
        out.append(label);
        let joined = join_roles(names);
        out.append(joined.as_str());
        out.append(". ");
    } else {
        assert(out@ =~= out@ + Seq::<char>::empty());
    }
}

impl Ownership {
    pub fn new() -> (r: Self)
        ensures
            r.empty_spec(),
    {
        Ownership { schemas: Vec::new(), tables: Vec::new(), sequences: Vec::new() }
    }

    /// A one-line account of what is owned, e.g. `SC: finance. TB: finance.q2. `.
    pub fn summary(&self) -> (r: String)
        ensures
            r@ == ownership_summary(self@),
    {
        let mut s = String::new();
        push_summary_part(&mut s, "SC: ", &self.schemas);
        push_summary_part(&mut s, "TB: ", &self.tables);
        push_summary_part(&mut s, "SQ: ", &self.sequences);
        proof {
            assert(s@ =~= ownership_summary(self@));
        }
        s
    }
}

impl SchemaPrivileges {
    pub fn new() -> (r: Self)
        ensures
            r.empty_spec(),
    {
        SchemaPrivileges { read: Vec::new(), write: Vec::new() }
    }
}

impl TablePrivileges {
    pub fn new() -> (r: Self)
        ensures
            r.empty_spec(),
    {
        TablePrivileges { read: Vec::new(), write: Vec::new() }
    }
}

impl SequencePrivileges {
    pub fn new() -> (r: Self)
        ensures
            r.empty_spec(),
    {
        SequencePrivileges { read: Vec::new(), write: Vec::new() }
    }
}

impl Privileges {
    pub fn new() -> (r: Self)
        ensures
            r.empty_spec(),
    {
        Privileges {
            schemas: SchemaPrivileges::new(),
            tables: TablePrivileges::new(),
            sequences: SequencePrivileges::new(),
        }
    }
}

impl Default for Ownership {
    fn default() -> (r: Self)
        ensures
            r.empty_spec(),
    {
        Self::new()
    }
}

impl Default for Privileges {
    fn default() -> (r: Self)
        ensures
            r.empty_spec(),
    {
        Self::new()
    }
}

impl DatabaseSpec {
    /// Appends to the memberships of the role `name` the parents it does not
    /// hold yet, each once, so that memberships stay unique per parent.
    pub fn add_memberships(&mut self, name: &str, memberships: &RoleMembership) -> (r: Result<
        (),
        SpecError,
    >)
        ensures
            final(self)@.version == old(self)@.version,
            final(self)@.adapter == old(self)@.adapter,
            final(self)@.roles.len() == old(self)@.roles.len(),
            forall|k: int|
                0 <= k < old(self)@.roles.len() ==> (#[trigger] final(self)@.roles[k]).0 == old(
                    self,
                )@.roles[k].0,
            r is Ok <==> names_role(old(self)@.roles, name@),
            r is Err ==> final(self)@ == old(self)@ && r->Err_0 is InconsistentSnapshot
                && r->Err_0->role@ == name@,
            forall|i: int|
                is_first_named(old(self)@.roles, name@, i) ==> final(self)@.roles == old(
                    self,
                )@.roles.update(
                    i,
                    (name@, with_memberships(old(self)@.roles[i].1, names_of(memberships.memberships@))),
                ),
            forall|i: int|
                is_first_named(old(self)@.roles, name@, i) && old(self)@.roles[i].1.member_of.no_duplicates()
                    ==> final(self)@.roles[i].1.member_of.no_duplicates(),
    {
        match self.find_role(name) {
            None => Err(SpecError::InconsistentSnapshot { role: String::from_str(name) }),
            Some(i) => {
                let ghost old_roles = self.roles@;
                let mut entry = self.roles.remove(i);
                push_new_names(&mut entry.1.member_of, &memberships.memberships);
                self.roles.insert(i, entry);
                proof {
                    assert(role_entries(self.roles@) =~= role_entries(old_roles).update(
                        i as int,
                        (name@, with_memberships(role_entries(old_roles)[i as int].1, names_of(memberships.memberships@))),
                    ));
                }
                Ok(())
            },
        }
    }

    /// Appends the objects that the role `name` owns, by kind. Views have no
    /// list of their own: a view among `ownership` is refused and nothing
    /// changes.
    pub fn add_ownerships(&mut self, name: &str, ownership: &[DatabaseObject]) -> (r: Result<
        (),
        SpecError,
    >)
        ensures
            final(self)@.version == old(self)@.version,
            final(self)@.adapter == old(self)@.adapter,
            final(self)@.roles.len() == old(self)@.roles.len(),
            forall|k: int|
                0 <= k < old(self)@.roles.len() ==> (#[trigger] final(self)@.roles[k]).0 == old(
                    self,
                )@.roles[k].0,
            !names_role(old(self)@.roles, name@) ==> r is Err && r->Err_0 is InconsistentSnapshot
                && r->Err_0->role@ == name@,
            names_role(old(self)@.roles, name@) ==> (r is Ok <==> !exists|k: int|
                0 <= k < ownership@.len() && (#[trigger] ownership@[k]).kind == ObjectKind::View),
            r is Err ==> final(self)@ == old(self)@,
            r is Err && names_role(old(self)@.roles, name@) ==> r->Err_0 is UnsupportedObjectKind
                && r->Err_0->kind == ObjectKind::View,
            r is Ok ==> forall|i: int|
                is_first_named(old(self)@.roles, name@, i) ==> final(self)@.roles == old(
                    self,
                )@.roles.update(
                    i,
                    (name@, with_ownerships(old(self)@.roles[i].1, object_views(ownership@))),
                ),
    {
        match self.find_role(name) {
            None => Err(SpecError::InconsistentSnapshot { role: String::from_str(name) }),
            Some(i) => {
                if any_of_kind(ownership, ObjectKind::View) {
                    return Err(SpecError::UnsupportedObjectKind { kind: ObjectKind::View });
                }
                let ghost old_roles = self.roles@;
                let mut entry = self.roles.remove(i);
                push_fqns_of_kind(&mut entry.1.owns.schemas, ownership, ObjectKind::Schema);
                push_fqns_of_kind(&mut entry.1.owns.tables, ownership, ObjectKind::Table);
                push_fqns_of_kind(&mut entry.1.owns.sequences, ownership, ObjectKind::Sequence);
                self.roles.insert(i, entry);
                proof {
                    assert(role_entries(self.roles@) =~= role_entries(old_roles).update(
                        i as int,
                        (name@, with_ownerships(role_entries(old_roles)[i as int].1, object_views(ownership@))),
                    ));
                }
                Ok(())
            },
        }
    }

    /// Appends the read and write grants of the role `name`, by kind. Views
    /// have no list of their own: a record on a view is refused and nothing
    /// changes.
    pub fn add_privileges(&mut self, name: &str, privileges: &[Privilege]) -> (r: Result<
        (),
        SpecError,
    >)
        ensures
            final(self)@.version == old(self)@.version,
            final(self)@.adapter == old(self)@.adapter,
            final(self)@.roles.len() == old(self)@.roles.len(),
            forall|k: int|
                0 <= k < old(self)@.roles.len() ==> (#[trigger] final(self)@.roles[k]).0 == old(
                    self,
                )@.roles[k].0,
            !names_role(old(self)@.roles, name@) ==> r is Err && r->Err_0 is InconsistentSnapshot
                && r->Err_0->role@ == name@,
            names_role(old(self)@.roles, name@) ==> (r is Ok <==> !exists|k: int|
                0 <= k < privileges@.len() && (#[trigger] privileges@[k]).object.kind
                    == ObjectKind::View),
            r is Err ==> final(self)@ == old(self)@,
            r is Err && names_role(old(self)@.roles, name@) ==> r->Err_0 is UnsupportedObjectKind
                && r->Err_0->kind == ObjectKind::View,
            r is Ok ==> forall|i: int|
                is_first_named(old(self)@.roles, name@, i) ==> final(self)@.roles == old(
                    self,
                )@.roles.update(
                    i,
                    (name@, with_privileges(old(self)@.roles[i].1, privilege_views(privileges@))),
                ),
    {
        match self.find_role(name) {
            None => Err(SpecError::InconsistentSnapshot { role: String::from_str(name) }),
            Some(i) => {
                if any_privilege_of_kind(privileges, ObjectKind::View) {
                    return Err(SpecError::UnsupportedObjectKind { kind: ObjectKind::View });
                }
                let ghost old_roles = self.roles@;
                let mut entry = self.roles.remove(i);
                let p = &mut entry.1.privileges;
                push_granted(&mut p.schemas.read, privileges, ObjectKind::Schema, PrivilegeType::Read);
                push_granted(&mut p.schemas.write, privileges, ObjectKind::Schema, PrivilegeType::Write);
                push_granted(&mut p.tables.read, privileges, ObjectKind::Table, PrivilegeType::Read);
                push_granted(&mut p.tables.write, privileges, ObjectKind::Table, PrivilegeType::Write);
                push_granted(&mut p.sequences.read, privileges, ObjectKind::Sequence, PrivilegeType::Read);
                push_granted(&mut p.sequences.write, privileges, ObjectKind::Sequence, PrivilegeType::Write);
                self.roles.insert(i, entry);
                proof {
                    assert(role_entries(self.roles@) =~= role_entries(old_roles).update(
                        i as int,
                        (name@, with_privileges(role_entries(old_roles)[i as int].1, privilege_views(privileges@))),
                    ));
                }
                Ok(())
            },
        }
    }

    /// Takes in the default privileges of the role `name`. The specification
    /// file has no place for them, so nothing is recorded; the role must be
    /// listed.
    pub fn add_defaults(&mut self, name: &str, defaults: &[DefaultPrivilege]) -> (r: Result<
        (),
        SpecError,
    >)
        ensures
            final(self)@ == old(self)@,
            r is Ok <==> names_role(old(self)@.roles, name@),
            r is Err ==> r->Err_0 is InconsistentSnapshot && r->Err_0->role@ == name@,
    {
        match self.find_role(name) {
            None => Err(SpecError::InconsistentSnapshot { role: String::from_str(name) }),
            Some(_) => Ok(()),
        }
    }
}

/// A record part that holds nothing is the default one: leaving an empty
/// part out of the file and reading the default back loses nothing.
pub proof fn lemma_empty_parts_are_defaults(o: Ownership, p: Privileges)
    ensures
        o.empty_spec() ==> o@ == bare_role(true, false).owns,
        p.empty_spec() ==> p@ == bare_role(true, false).privileges,
{
    if o.empty_spec() {
        assert(o@.schemas =~= Seq::<Seq<char>>::empty());
        assert(o@.tables =~= Seq::<Seq<char>>::empty());
        assert(o@.sequences =~= Seq::<Seq<char>>::empty());
    }
    if p.empty_spec() {
        assert(p@.schemas.read =~= Seq::<Seq<char>>::empty());
        assert(p@.schemas.write =~= Seq::<Seq<char>>::empty());
        assert(p@.tables.read =~= Seq::<Seq<char>>::empty());
        assert(p@.tables.write =~= Seq::<Seq<char>>::empty());
        assert(p@.sequences.read =~= Seq::<Seq<char>>::empty());
        assert(p@.sequences.write =~= Seq::<Seq<char>>::empty());
    }
}

} // verus!
