//! The canonical permission model: roles, objects, privileges and the
//! interface through which a database hands them over.
use vstd::prelude::*;

use crate::diff::SameValue;
use crate::spec::{Role as SpecRole, RoleView};
use crate::strings::{copy_string, str_eq, string_eq};

verus! {

/// Why an adapter call failed (transport or authorization).
#[derive(Debug, Clone, PartialEq, Eq)]
pub struct AdapterError {
    pub message: String,
}

/// A source of permission information about one database.
///
/// Every database that can have permissions applied to it implements this
/// trait; `RoleAttribute` is the shape in which it reports a role's
/// capabilities.
pub trait Context {
    type RoleAttribute: RoleAttribute;

    fn database_name(&self) -> &str;

    fn get_roles(&mut self) -> Result<Vec<String>, AdapterError>;

    fn get_role_attributes(&mut self, role: &str) -> Result<Self::RoleAttribute, AdapterError>;

    fn get_role_memberships(&mut self, role: &str) -> Result<RoleMembership, AdapterError>;

    fn get_role_ownerships(&mut self, role: &str) -> Result<Vec<DatabaseObject>, AdapterError>;

    fn get_role_permissions(&mut self, role: &str) -> Result<Vec<Privilege>, AdapterError>;

    fn get_default_permissions(&mut self, role: &str) -> Result<
        Vec<DefaultPrivilege>,
        AdapterError,
    >;
}

/// A source that also plans, for a role of a specification, the statements
/// that its database needs.
pub trait RoleAnalysis: Context {
    /// The capability statements that the database, in its present state,
    /// needs for the role `name` to match `role`.
    spec fn attribute_statements(&self, name: Seq<char>, role: RoleView) -> Seq<Seq<char>>;

    /// The membership statements that the database, in its present state,
    /// needs for the role `name` to match `role`.
    spec fn membership_statements(&self, name: Seq<char>, role: RoleView) -> Seq<Seq<char>>;

    fn analyze_attributes(&mut self, name: &str, role: &SpecRole) -> (r: Result<
        Vec<String>,
        AdapterError,
    >)
        ensures
            r is Ok ==> names_of(r->Ok_0@) == old(self).attribute_statements(name@, role@),
    ;

    fn analyze_memberships(&mut self, name: &str, role: &SpecRole) -> (r: Result<
        Vec<String>,
        AdapterError,
    >)
        ensures
            r is Ok ==> names_of(r->Ok_0@) == old(self).membership_statements(name@, role@),
    ;
}

/// A role or a user.
#[derive(Debug, Clone)]
pub struct Role(pub String);

/// Whether `attrs` holds `a`.
pub fn has_attribute(attrs: &Vec<Attributes>, a: Attributes) -> (r: bool)
    ensures
        r == attrs@.contains(a),
{
    let mut i: usize = 0;
    while i < attrs.len()
        invariant
            i <= attrs@.len(),
            forall|j: int| 0 <= j < i ==> attrs@[j] != a,
        decreases attrs@.len() - i,
    {
        if attrs[i] == a {
            return true;
        }
        i = i + 1;
    }
    false
}

/// The capabilities of a role, as a database reports them.
pub trait RoleAttribute {
    /// The capabilities that the role has, in the order they are reported.
    spec fn attributes(&self) -> Seq<Attributes>;

    fn get_attributes(&self) -> (r: Vec<Attributes>)
        ensures
            r@ == self.attributes(),
    ;

    fn is_enabled(&self) -> (r: bool)
        ensures
            r == self.attributes().contains(Attributes::Enabled),
    {
        let attrs = self.get_attributes();
        has_attribute(&attrs, Attributes::Enabled)
    }
}

/// A capability of a role. A database that lacks one never reports it.
#[derive(Debug, PartialEq, Eq, Structural, Clone, Copy)]
pub enum Attributes {
    Enabled,
    Superuser,
    CreateDb,
    CreateRole,
    Inherit,
    Login,
    Replication,
    BypassRls,
    ConnectionLimit(i32),
}

/// The parent roles that a role belongs to.
#[derive(Debug)]
pub struct RoleMembership {
    pub memberships: Vec<String>,
}

impl RoleMembership {
    pub fn new(memberships: Vec<String>) -> (r: Self)
        ensures
            r.memberships@ == memberships@,
    {
        RoleMembership { memberships }
    }
}

/// The names in `v`, as character sequences.
pub open spec fn names_of(v: Seq<String>) -> Seq<Seq<char>> {
    v.map_values(|s: String| s@)
}

/// A database object: a schema, or a named object inside a schema.
#[derive(Debug, Clone)]
pub struct DatabaseObject {
    pub kind: ObjectKind,
    pub schema: String,
    pub unqualified_name: Option<String>,
}

/// What a `DatabaseObject` denotes.
pub ghost struct ObjectView {
    pub kind: ObjectKind,
    pub schema: Seq<char>,
    pub name: Option<Seq<char>>,
}

pub open spec fn opt_view(o: Option<String>) -> Option<Seq<char>> {
    match o {
        Some(s) => Some(s@),
        None => None,
    }
}

impl View for DatabaseObject {
    type V = ObjectView;

    open spec fn view(&self) -> ObjectView {
        ObjectView { kind: self.kind, schema: self.schema@, name: opt_view(self.unqualified_name) }
    }
}

/// The fully qualified name of an object: `schema.name`, or the schema alone.
pub open spec fn fqn_of(o: ObjectView) -> Seq<char> {
    match o.name {
        Some(n) => o.schema + "."@ + n,
        None => o.schema,
    }
}

/// Equality of two optional strings, by their characters.
pub fn opt_string_eq(a: &Option<String>, b: &Option<String>) -> (r: bool)
    ensures
        r == (opt_view(*a) == opt_view(*b)),
{
    match (a, b) {
        (Some(x), Some(y)) => string_eq(x, y),
        (None, None) => true,
        _ => false,
    }
}

/// A copy of an optional string.
pub fn copy_opt_string(o: &Option<String>) -> (r: Option<String>)
    ensures
        opt_view(r) == opt_view(*o),
{
    match o {
        Some(s) => Some(copy_string(s)),
        None => None,
    }
}

impl DatabaseObject {
    pub fn new(kind: ObjectKind, schema: String, unqualified_name: Option<String>) -> (r: Self)
        ensures
            r.kind == kind,
            r.schema@ == schema@,
            opt_view(r.unqualified_name) == opt_view(unqualified_name),
    {
        DatabaseObject { kind, schema, unqualified_name }
    }

    /// The fully qualified name: `schema.name`, or the schema alone.
    pub fn fqn(&self) -> (r: String)
        ensures
            r@ == fqn_of(self@),
    {
        match &self.unqualified_name {
            Some(name) => {
                let mut s = copy_string(&self.schema);
                s.append(".");
                s.append(name.as_str());
                proof {
                    reveal_strlit(".");
                }
                s
            },
            None => copy_string(&self.schema),
        }
    }

    /// Structural equality with `other`.
    pub fn same_object(&self, other: &DatabaseObject) -> (r: bool)
        ensures
            r == (self@ == other@),
    {
        self.kind == other.kind && string_eq(&self.schema, &other.schema) && opt_string_eq(
            &self.unqualified_name,
            &other.unqualified_name,
        )
    }
}

/// The kind of a database object.
#[derive(Debug, PartialEq, Eq, Structural, Clone, Copy, Hash, PartialOrd, Ord)]
pub enum ObjectKind {
    Schema,
    Table,
    View,
    Sequence,
}

/// The kind that a catalog word names.
pub open spec fn kind_of_word(s: Seq<char>) -> Option<ObjectKind> {
    if s == "schemas"@ {
        Some(ObjectKind::Schema)
    } else if s == "tables"@ {
        Some(ObjectKind::Table)
    } else if s == "views"@ {
        Some(ObjectKind::View)
    } else if s == "sequences"@ {
        Some(ObjectKind::Sequence)
    } else {
        None
    }
}

/// The native privilege token `token` means on an object of kind `kind`.
pub open spec fn privilege_for(kind: ObjectKind, token: Seq<char>) -> Option<PrivilegeType> {
    match kind {
        ObjectKind::Schema => {
            if token == "USAGE"@ {
                Some(PrivilegeType::Read)
            } else if token == "CREATE"@ {
                Some(PrivilegeType::Write)
            } else {
                None
            }
        },
        ObjectKind::Table | ObjectKind::View => {
            if token == "SELECT"@ || token == "REFERENCES"@ {
                Some(PrivilegeType::Read)
            } else if token == "INSERT"@ || token == "UPDATE"@ || token == "DELETE"@ || token
                == "TRUNCATE"@ || token == "TRIGGER"@ {
                Some(PrivilegeType::Write)
            } else {
                None
            }
        },
        ObjectKind::Sequence => {
            if token == "SELECT"@ {
                Some(PrivilegeType::Read)
            } else if token == "UPDATE"@ || token == "USAGE"@ {
                Some(PrivilegeType::Write)
            } else {
                None
            }
        },
    }
}

/// The lower-case name of a kind.
pub open spec fn kind_name(kind: ObjectKind) -> Seq<char> {
    match kind {
        ObjectKind::Schema => "schema"@,
        ObjectKind::Table => "table"@,
        ObjectKind::View => "view"@,
        ObjectKind::Sequence => "sequence"@,
    }
}

/// A native privilege token that has no meaning on an object kind.
#[derive(Debug, Clone)]
pub struct UnsupportedPrivilege {
    pub token: String,
    pub kind: ObjectKind,
}

/// A catalog word that names no object kind.
#[derive(Debug, Clone)]
pub struct UnknownObjectKind {
    pub word: String,
}

impl ObjectKind {
    /// Reads a catalog word: `schemas`, `tables`, `views` or `sequences`.
    pub fn parse(s: &str) -> (r: Result<ObjectKind, UnknownObjectKind>)
        ensures
            match kind_of_word(s@) {
                Some(k) => r == Ok::<ObjectKind, UnknownObjectKind>(k),
                None => r is Err && r->Err_0.word@ == s@,
            },
    {
        proof {
            reveal_strlit("schemas");
            reveal_strlit("tables");
            reveal_strlit("views");
            reveal_strlit("sequences");
        }
        if str_eq(s, "schemas") {
            Ok(ObjectKind::Schema)
        } else if str_eq(s, "tables") {
            Ok(ObjectKind::Table)
        } else if str_eq(s, "views") {
            Ok(ObjectKind::View)
        } else if str_eq(s, "sequences") {
            Ok(ObjectKind::Sequence)
        } else {
            Err(UnknownObjectKind { word: String::from_str(s) })
        }
    }

    /// The lower-case name of this kind.
    pub fn name(&self) -> (r: &'static str)
        ensures
            r@ == kind_name(*self),
    {
        match self {
            ObjectKind::Schema => "schema",
            ObjectKind::Table => "table",
            ObjectKind::View => "view",
            ObjectKind::Sequence => "sequence",
        }
    }

    /// Maps a native privilege token onto the abstract vocabulary.
    pub fn to_privilege(&self, raw_privilege: &str) -> (r: Result<
        PrivilegeType,
        UnsupportedPrivilege,
    >)
        ensures
            match privilege_for(*self, raw_privilege@) {
                Some(p) => r == Ok::<PrivilegeType, UnsupportedPrivilege>(p),
                None => r is Err && r->Err_0.token@ == raw_privilege@ && r->Err_0.kind == *self,
            },
    {
        proof {
            reveal_strlit("USAGE");
            reveal_strlit("CREATE");
            reveal_strlit("SELECT");
            reveal_strlit("REFERENCES");
            reveal_strlit("INSERT");
            reveal_strlit("UPDATE");
            reveal_strlit("DELETE");
            reveal_strlit("TRUNCATE");
            reveal_strlit("TRIGGER");
        }
        let t = raw_privilege;
        let found = match self {
            ObjectKind::Schema => {
                if str_eq(t, "USAGE") {
                    Some(PrivilegeType::Read)
                } else if str_eq(t, "CREATE") {
                    Some(PrivilegeType::Write)
                } else {
                    None
                }
            },
            ObjectKind::Table | ObjectKind::View => {
                if str_eq(t, "SELECT") || str_eq(t, "REFERENCES") {
                    Some(PrivilegeType::Read)
                } else if str_eq(t, "INSERT") || str_eq(t, "UPDATE") || str_eq(t, "DELETE")
                    || str_eq(t, "TRUNCATE") || str_eq(t, "TRIGGER") {
                    Some(PrivilegeType::Write)
                } else {
                    None
                }
            },
            ObjectKind::Sequence => {
                if str_eq(t, "SELECT") {
                    Some(PrivilegeType::Read)
                } else if str_eq(t, "UPDATE") || str_eq(t, "USAGE") {
                    Some(PrivilegeType::Write)
                } else {
                    None
                }
            },
        };
        match found {
            Some(p) => Ok(p),
            None => Err(UnsupportedPrivilege { token: String::from_str(t), kind: *self }),
        }
    }
}

/// The abstract access classes that native privileges collapse into.
#[derive(Debug, PartialEq, Eq, Structural, Clone, Copy, Hash)]
pub enum PrivilegeType {
    Read,
    Write,
}

impl View for PrivilegeType {
    type V = PrivilegeType;

    open spec fn view(&self) -> PrivilegeType {
        *self
    }
}

impl SameValue for PrivilegeType {
    fn same_value(&self, other: &Self) -> (r: bool) {
        *self == *other
    }
}

/// The privileges that a role holds on one object; `privs` has no repeats.
#[derive(Debug, Clone)]
pub struct Privilege {
    pub object: DatabaseObject,
    pub privs: Vec<PrivilegeType>,
}

/// Whether `v` holds `p`.
pub fn has_privilege(v: &Vec<PrivilegeType>, p: PrivilegeType) -> (r: bool)
    ensures
        r == v@.contains(p),
{
    let mut i: usize = 0;
    while i < v.len()
        invariant
            i <= v@.len(),
            forall|j: int| 0 <= j < i ==> v@[j] != p,
        decreases v@.len() - i,
    {
        if v[i] == p {
            return true;
        }
        i = i + 1;
    }
    false
}

/// `v` without repeats, first occurrences kept in order.
pub fn dedup_privileges(v: &Vec<PrivilegeType>) -> (r: Vec<PrivilegeType>)
    ensures
        r@.no_duplicates(),
        r@.to_set() == v@.to_set(),
{
    let mut out: Vec<PrivilegeType> = Vec::new();
    let mut i: usize = 0;
    while i < v.len()
        invariant
            i <= v@.len(),
            out@.no_duplicates(),
            forall|x: PrivilegeType| out@.contains(x) <==> v@.subrange(0, i as int).contains(x),
        decreases v@.len() - i,
    {
        let p = v[i];
        let ghost before = out@;
        if !has_privilege(&out, p) {
            out.push(p);
        }
        proof {
            let pre = v@.subrange(0, i as int);
            assert(v@.subrange(0, i + 1) =~= pre.push(p));
            assert forall|x: PrivilegeType| out@.contains(x) <==> pre.push(p).contains(x) by {
                if out@.contains(x) {
                    let k = choose|k: int| 0 <= k < out@.len() && out@[k] == x;
                    if k < before.len() {
                        assert(before[k] == x);
                        assert(before.contains(x));
                        assert(pre.contains(x));
                        let m = choose|m: int| 0 <= m < pre.len() && pre[m] == x;
                        assert(pre.push(p)[m] == x);
                    } else {
                        assert(pre.push(p)[pre.len() as int] == x);
                    }
                }
                if pre.push(p).contains(x) {
                    let m = choose|m: int| 0 <= m < pre.len() + 1 && pre.push(p)[m] == x;
                    if m < pre.len() {
                        assert(pre[m] == x);
                        assert(pre.contains(x));
                        assert(before.contains(x));
                        let k = choose|k: int| 0 <= k < before.len() && before[k] == x;
                        assert(out@[k] == x);
                    } else {
                        assert(x == p);
                        if before.contains(p) {
                            let k = choose|k: int| 0 <= k < before.len() && before[k] == x;
                            assert(out@[k] == x);
                        } else {
                            assert(out@[before.len() as int] == x);
                        }
                    }
                }
            }
        }
        i = i + 1;
    }
    proof {
        assert(v@.subrange(0, v@.len() as int) =~= v@);
        assert(out@.to_set() =~= v@.to_set());
    }
    out
}

/// What a `Privilege` denotes.
pub ghost struct PrivilegeView {
    pub object: ObjectView,
    pub privs: Seq<PrivilegeType>,
}

impl View for Privilege {
    type V = PrivilegeView;

    open spec fn view(&self) -> PrivilegeView {
        PrivilegeView { object: self.object@, privs: self.privs@ }
    }
}

impl Privilege {
    pub fn new(object: DatabaseObject, privs: Vec<PrivilegeType>) -> (r: Self)
        ensures
            r.object@ == object@,
            r.privs@.no_duplicates(),
            r.privs@.to_set() == privs@.to_set(),
    {
        let privs = dedup_privileges(&privs);
        Privilege { object, privs }
    }
}

/// Privileges granted automatically on future objects of kind `child`
/// created under `parent`; `privs` has no repeats.
#[derive(Debug, Clone)]
pub struct DefaultPrivilege {
    pub parent: DatabaseObject,
    pub child: ObjectKind,
    pub privs: Vec<PrivilegeType>,
}

/// The mapping covers every token that the catalog reports for each kind
/// (with no fallback class for others), and it is keyed by kind as well as
/// token: `USAGE` reads a schema but writes a sequence.
pub proof fn lemma_mapping_covers_catalog_tokens()
    ensures
        privilege_for(ObjectKind::Schema, "USAGE"@) == Some(PrivilegeType::Read),
        privilege_for(ObjectKind::Schema, "CREATE"@) == Some(PrivilegeType::Write),
        forall|k: ObjectKind|
            k == ObjectKind::Table || k == ObjectKind::View ==> {
                &&& privilege_for(k, "SELECT"@) == Some(PrivilegeType::Read)
                &&& privilege_for(k, "REFERENCES"@) == Some(PrivilegeType::Read)
                &&& privilege_for(k, "INSERT"@) == Some(PrivilegeType::Write)
                &&& privilege_for(k, "UPDATE"@) == Some(PrivilegeType::Write)
                &&& privilege_for(k, "DELETE"@) == Some(PrivilegeType::Write)
                &&& privilege_for(k, "TRUNCATE"@) == Some(PrivilegeType::Write)
                &&& privilege_for(k, "TRIGGER"@) == Some(PrivilegeType::Write)
            },
        privilege_for(ObjectKind::Sequence, "SELECT"@) == Some(PrivilegeType::Read),
        privilege_for(ObjectKind::Sequence, "UPDATE"@) == Some(PrivilegeType::Write),
        privilege_for(ObjectKind::Sequence, "USAGE"@) == Some(PrivilegeType::Write),
        privilege_for(ObjectKind::Schema, "SELECT"@) is None,
        privilege_for(ObjectKind::Sequence, "INSERT"@) is None,
{
    reveal_strlit("USAGE");
    reveal_strlit("CREATE");
    reveal_strlit("SELECT");
    reveal_strlit("REFERENCES");
    reveal_strlit("INSERT");
    reveal_strlit("UPDATE");
    reveal_strlit("DELETE");
    reveal_strlit("TRUNCATE");
    reveal_strlit("TRIGGER");
    assert("CREATE"@[0] != "USAGE"@[0]);
    assert("UPDATE"@[0] != "SELECT"@[0]);
    assert("USAGE"@.len() != "SELECT"@.len());
    assert("USAGE"@[1] != "UPDATE"@[1]);
    assert("INSERT"@[0] != "SELECT"@[0]);
    assert("DELETE"@[0] != "SELECT"@[0]);
    assert("INSERT"@.len() != "REFERENCES"@.len());
    assert("UPDATE"@.len() != "REFERENCES"@.len());
    assert("DELETE"@.len() != "REFERENCES"@.len());
    assert("TRUNCATE"@.len() != "REFERENCES"@.len());
    assert("TRUNCATE"@.len() != "SELECT"@.len());
    assert("TRIGGER"@.len() != "REFERENCES"@.len());
    assert("TRIGGER"@.len() != "SELECT"@.len());
}

} // verus!
