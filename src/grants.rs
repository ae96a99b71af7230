//! Typed grant statements: each kind of target checks that the requested
//! privilege is legal for it, and renders grant and revoke text.
use vstd::prelude::*;

use crate::context::{names_of, opt_string_eq, opt_view};
use crate::diff::SameValue;
use crate::strings::{copy_string, str_eq, string_eq};

verus! {

/// SQL text.
pub type Sql = String;

/// A native privilege of the database.
#[derive(Debug, PartialEq, Eq, Structural, Clone, Copy)]
pub enum PostgresPrivileges {
    AlterSystem,
    Connect,
    Create,
    Delete,
    Execute,
    Insert,
    References,
    Select,
    SetParameter,
    Temporary,
    Trigger,
    Truncate,
    Update,
    Usage,
    All,
}

/// The SQL keyword of a privilege.
pub open spec fn privilege_keyword(p: PostgresPrivileges) -> Seq<char> {
    match p {
        PostgresPrivileges::AlterSystem => "ALTER SYSTEM"@,
        PostgresPrivileges::Connect => "CONNECT"@,
        PostgresPrivileges::Create => "CREATE"@,
        PostgresPrivileges::Delete => "DELETE"@,
        PostgresPrivileges::Execute => "EXECUTE"@,
        PostgresPrivileges::Insert => "INSERT"@,
        PostgresPrivileges::References => "REFERENCES"@,
        PostgresPrivileges::Select => "SELECT"@,
        PostgresPrivileges::SetParameter => "SET"@,
        PostgresPrivileges::Temporary => "TEMPORARY"@,
        PostgresPrivileges::Trigger => "TRIGGER"@,
        PostgresPrivileges::Truncate => "TRUNCATE"@,
        PostgresPrivileges::Update => "UPDATE"@,
        PostgresPrivileges::Usage => "USAGE"@,
        PostgresPrivileges::All => "ALL PRIVILEGES"@,
    }
}

impl PostgresPrivileges {
    /// The SQL keyword of this privilege.
    pub fn keyword(&self) -> (r: &'static str)
        ensures
            r@ == privilege_keyword(*self),
    {
        match self {
            PostgresPrivileges::AlterSystem => "ALTER SYSTEM",
            PostgresPrivileges::Connect => "CONNECT",
            PostgresPrivileges::Create => "CREATE",
            PostgresPrivileges::Delete => "DELETE",
            PostgresPrivileges::Execute => "EXECUTE",
            PostgresPrivileges::Insert => "INSERT",
            PostgresPrivileges::References => "REFERENCES",
            PostgresPrivileges::Select => "SELECT",
            PostgresPrivileges::SetParameter => "SET",
            PostgresPrivileges::Temporary => "TEMPORARY",
            PostgresPrivileges::Trigger => "TRIGGER",
            PostgresPrivileges::Truncate => "TRUNCATE",
            PostgresPrivileges::Update => "UPDATE",
            PostgresPrivileges::Usage => "USAGE",
            PostgresPrivileges::All => "ALL PRIVILEGES",
        }
    }
}

/// A kind of object that privileges can be granted on.
#[derive(Debug, PartialEq, Eq, Structural, Clone, Copy)]
pub enum PostgresObjectType {
    Database,
    ForeignDataWrapper,
    ForeignServer,
    Function,
    Procedure,
    Role,
    Schema,
    Sequence,
    Table,
    Type,
    View,
}

/// The SQL keyword of an object type.
pub open spec fn object_type_keyword(t: PostgresObjectType) -> Seq<char> {
    match t {
        PostgresObjectType::Database => "DATABASE"@,
        PostgresObjectType::ForeignDataWrapper => "FOREIGN DATA WRAPPER"@,
        PostgresObjectType::ForeignServer => "FOREIGN SERVER"@,
        PostgresObjectType::Function => "FUNCTION"@,
        PostgresObjectType::Procedure => "PROCEDURE"@,
        PostgresObjectType::Role => "ROLE"@,
        PostgresObjectType::Schema => "SCHEMA"@,
        PostgresObjectType::Sequence => "SEQUENCE"@,
        PostgresObjectType::Table => "TABLE"@,
        PostgresObjectType::Type => "TYPE"@,
        PostgresObjectType::View => "VIEW"@,
    }
}

/// The object type whose keyword is `s`.
pub open spec fn object_type_of(s: Seq<char>) -> Option<PostgresObjectType> {
    if s == "DATABASE"@ {
        Some(PostgresObjectType::Database)
    } else if s == "FOREIGN DATA WRAPPER"@ {
        Some(PostgresObjectType::ForeignDataWrapper)
    } else if s == "FOREIGN SERVER"@ {
        Some(PostgresObjectType::ForeignServer)
    } else if s == "FUNCTION"@ {
        Some(PostgresObjectType::Function)
    } else if s == "PROCEDURE"@ {
        Some(PostgresObjectType::Procedure)
    } else if s == "ROLE"@ {
        Some(PostgresObjectType::Role)
    } else if s == "SCHEMA"@ {
        Some(PostgresObjectType::Schema)
    } else if s == "SEQUENCE"@ {
        Some(PostgresObjectType::Sequence)
    } else if s == "TABLE"@ {
        Some(PostgresObjectType::Table)
    } else if s == "TYPE"@ {
        Some(PostgresObjectType::Type)
    } else if s == "VIEW"@ {
        Some(PostgresObjectType::View)
    } else {
        None
    }
}

impl PostgresObjectType {
    /// The SQL keyword of this object type.
    pub fn keyword(&self) -> (r: &'static str)
        ensures
            r@ == object_type_keyword(*self),
    {
        match self {
            PostgresObjectType::Database => "DATABASE",
            PostgresObjectType::ForeignDataWrapper => "FOREIGN DATA WRAPPER",
            PostgresObjectType::ForeignServer => "FOREIGN SERVER",
            PostgresObjectType::Function => "FUNCTION",
            PostgresObjectType::Procedure => "PROCEDURE",
            PostgresObjectType::Role => "ROLE",
            PostgresObjectType::Schema => "SCHEMA",
            PostgresObjectType::Sequence => "SEQUENCE",
            PostgresObjectType::Table => "TABLE",
            PostgresObjectType::Type => "TYPE",
            PostgresObjectType::View => "VIEW",
        }
    }

    /// Reads an object type from its SQL keyword.
    pub fn parse(s: &str) -> (r: Option<PostgresObjectType>)
        ensures
            r == object_type_of(s@),
    {
        if str_eq(s, "DATABASE") {
            Some(PostgresObjectType::Database)
        } else if str_eq(s, "FOREIGN DATA WRAPPER") {
            Some(PostgresObjectType::ForeignDataWrapper)
        } else if str_eq(s, "FOREIGN SERVER") {
            Some(PostgresObjectType::ForeignServer)
        } else if str_eq(s, "FUNCTION") {
            Some(PostgresObjectType::Function)
        } else if str_eq(s, "PROCEDURE") {
            Some(PostgresObjectType::Procedure)
        } else if str_eq(s, "ROLE") {
            Some(PostgresObjectType::Role)
        } else if str_eq(s, "SCHEMA") {
            Some(PostgresObjectType::Schema)
        } else if str_eq(s, "SEQUENCE") {
            Some(PostgresObjectType::Sequence)
        } else if str_eq(s, "TABLE") {
            Some(PostgresObjectType::Table)
        } else if str_eq(s, "TYPE") {
            Some(PostgresObjectType::Type)
        } else if str_eq(s, "VIEW") {
            Some(PostgresObjectType::View)
        } else {
            None
        }
    }
}

impl std::str::FromStr for PostgresObjectType {
    type Err = String;

    fn from_str(s: &str) -> (r: Result<Self, Self::Err>)
        ensures
            match object_type_of(s@) {
                Some(t) => r == Ok::<PostgresObjectType, String>(t),
                None => r is Err && r->Err_0@ == "Unknown object type: "@ + s@,
            },
    {
        match PostgresObjectType::parse(s) {
            Some(t) => Ok(t),
            None => {
                let mut msg = <String as vstd::string::StringExecFns>::from_str("Unknown object type: ");
                msg.append(s);
                Err(msg)
            },
        }
    }
}

/// A privilege that is not legal on the kind of object it was asked for.
#[derive(Debug, PartialEq, Eq, Structural, Clone, Copy)]
pub enum GrantError {
    InvalidPrivilegeForObjectKind { privilege: PostgresPrivileges, object: PostgresObjectType },
}

/// Role names joined by `", "`, in order.
pub open spec fn join_names(roles: Seq<Seq<char>>) -> Seq<char>
    decreases roles.len(),
{
    if roles.len() == 0 {
        Seq::empty()
    } else if roles.len() == 1 {
        roles[0]
    } else {
        join_names(roles.drop_last()) + ", "@ + roles.last()
    }
}

/// `GRANT <keyword> ON <target> TO <roles>`, with the grant option when asked.
pub open spec fn grant_text(
    keyword: Seq<char>,
    target: Seq<char>,
    roles: Seq<Seq<char>>,
    with_grant_option: bool,
) -> Seq<char> {
    "GRANT "@ + keyword + " ON "@ + target + " TO "@ + join_names(roles) + if with_grant_option {
        " WITH GRANT OPTION"@
    } else {
        Seq::empty()
    }
}

/// `REVOKE <keyword> ON <target> FROM <roles>`.
pub open spec fn revoke_text(keyword: Seq<char>, target: Seq<char>, roles: Seq<Seq<char>>) -> Seq<
    char,
> {
    "REVOKE "@ + keyword + " ON "@ + target + " FROM "@ + join_names(roles)
}

/// `name`, qualified by `schema`.
pub open spec fn qualified(schema: Seq<char>, name: Seq<char>) -> Seq<char> {
    schema + "."@ + name
}

/// Joins role names with `", "`.
pub fn join_roles(roles: &Vec<String>) -> (r: String)
    ensures
        r@ == join_names(names_of(roles@)),
{
    let mut out = String::new();
    let mut i: usize = 0;
    while i < roles.len()
        invariant
            i <= roles@.len(),
            out@ == join_names(names_of(roles@.subrange(0, i as int))),
        decreases roles@.len() - i,
    {
        proof {
            let pre = names_of(roles@.subrange(0, i as int));
            assert(names_of(roles@.subrange(0, i + 1)) =~= pre.push(roles@[i as int]@));
            assert(pre.push(roles@[i as int]@).drop_last() =~= pre);
        }
        if i > 0 {
            out.append(", ");
        }
        out.append(roles[i].as_str());
        i = i + 1;
    }
    proof {
        assert(roles@.subrange(0, roles@.len() as int) =~= roles@);
    }
    out
}

/// Renders a grant statement from its parts.
pub(crate) fn render_grant(keyword: &str, target: &str, roles: &Vec<String>, with_grant_option: bool) -> (r:
    String)
    ensures
        r@ == grant_text(keyword@, target@, names_of(roles@), with_grant_option),
{
    let mut sql = <String as vstd::string::StringExecFns>::from_str("GRANT ");
    sql.append(keyword);
    sql.append(" ON ");
    sql.append(target);
    sql.append(" TO ");
    let joined = join_roles(roles);
    sql.append(joined.as_str());
    if with_grant_option {
        sql.append(" WITH GRANT OPTION");
    }
    proof {
        if !with_grant_option {
            assert(sql@ =~= sql@ + Seq::<char>::empty());
        }
    }
    sql
}

/// Renders a revoke statement from its parts.
pub(crate) fn render_revoke(keyword: &str, target: &str, roles: &Vec<String>) -> (r: String)
    ensures
        r@ == revoke_text(keyword@, target@, names_of(roles@)),
{
    let mut sql = <String as vstd::string::StringExecFns>::from_str("REVOKE ");
    sql.append(keyword);
    sql.append(" ON ");
    sql.append(target);
    sql.append(" FROM ");
    let joined = join_roles(roles);
    sql.append(joined.as_str());
    sql
}

/// `prefix` followed by `schema.name`, or by the schema alone.
fn target_with(prefix: &str, schema: &String, name: &String) -> (r: String)
    ensures
        r@ == prefix@ + qualified(schema@, name@),
{
    let mut t = <String as vstd::string::StringExecFns>::from_str(prefix);
    t.append(schema.as_str());
    t.append(".");
    t.append(name.as_str());
    t
}

/// Equality of two lists of names, by their characters.
pub fn names_eq(a: &Vec<String>, b: &Vec<String>) -> (r: bool)
    ensures
        r == (names_of(a@) == names_of(b@)),
{
    if a.len() != b.len() {
        proof {
            assert(names_of(a@).len() != names_of(b@).len());
        }
        return false;
    }
    let mut i: usize = 0;
    while i < a.len()
        invariant
            a@.len() == b@.len(),
            i <= a@.len(),
            forall|j: int| 0 <= j < i ==> a@[j]@ == b@[j]@,
        decreases a@.len() - i,
    {
        if !string_eq(&a[i], &b[i]) {
            proof {
                assert(names_of(a@)[i as int] != names_of(b@)[i as int]);
            }
            return false;
        }
        i = i + 1;
    }
    proof {
        assert(names_of(a@) =~= names_of(b@));
    }
    true
}

/// Copies a list of names.
pub fn copy_names(v: &Vec<String>) -> (r: Vec<String>)
    ensures
        names_of(r@) == names_of(v@),
{
    let mut out: Vec<String> = Vec::new();
    let mut i: usize = 0;
    while i < v.len()
        invariant
            i <= v@.len(),
            names_of(out@) == names_of(v@.subrange(0, i as int)),
        decreases v@.len() - i,
    {
        proof {
            assert(names_of(v@.subrange(0, i + 1)) =~= names_of(v@.subrange(0, i as int)).push(
                v@[i as int]@,
            ));
        }
        let s = copy_string(&v[i]);
        let ghost before = out@;
        out.push(s);
        proof {
            assert(names_of(out@) =~= names_of(before).push(s@));
        }
        i = i + 1;
    }
    proof {
        assert(v@.subrange(0, v@.len() as int) =~= v@);
    }
    out
}

/// Whether a privilege is legal on a database.
pub open spec fn database_allows(p: PostgresPrivileges) -> bool {
    p == PostgresPrivileges::Connect || p == PostgresPrivileges::Create || p
        == PostgresPrivileges::Temporary || p == PostgresPrivileges::All
}

/// Whether a privilege is legal on a schema.
pub open spec fn schema_allows(p: PostgresPrivileges) -> bool {
    p == PostgresPrivileges::Create || p == PostgresPrivileges::Usage || p == PostgresPrivileges::All
}

/// Whether a privilege is legal on a table.
pub open spec fn table_allows(p: PostgresPrivileges) -> bool {
    p == PostgresPrivileges::Select || p == PostgresPrivileges::Insert || p
        == PostgresPrivileges::Update || p == PostgresPrivileges::Delete || p
        == PostgresPrivileges::Truncate || p == PostgresPrivileges::References || p
        == PostgresPrivileges::Trigger || p == PostgresPrivileges::All
}

/// Whether a privilege is legal on a sequence.
pub open spec fn sequence_allows(p: PostgresPrivileges) -> bool {
    p == PostgresPrivileges::Usage || p == PostgresPrivileges::Select || p
        == PostgresPrivileges::Update || p == PostgresPrivileges::All
}

/// Whether a privilege is legal on a domain.
pub open spec fn domain_allows(p: PostgresPrivileges) -> bool {
    p == PostgresPrivileges::Usage || p == PostgresPrivileges::All
}

fn invalid(privilege: PostgresPrivileges, object: PostgresObjectType) -> (r: GrantError)
    ensures
        r == (GrantError::InvalidPrivilegeForObjectKind { privilege, object }),
{
    GrantError::InvalidPrivilegeForObjectKind { privilege, object }
}


/// The target text of a database grant.
pub open spec fn database_target(name: Seq<char>) -> Seq<char> {
    "DATABASE "@ + name
}

/// The target text of a schema grant.
pub open spec fn schema_target(schema: Seq<char>) -> Seq<char> {
    "SCHEMA "@ + schema
}

/// The target text of a table grant: one table, or all tables of a schema.
pub open spec fn table_target(schema: Seq<char>, table: Option<Seq<char>>) -> Seq<char> {
    match table {
        Some(t) => "TABLE "@ + qualified(schema, t),
        None => "ALL TABLES IN SCHEMA "@ + schema,
    }
}

/// The target text of a sequence grant: one sequence, or all sequences of a
/// schema.
pub open spec fn sequence_target(schema: Seq<char>, sequence: Option<Seq<char>>) -> Seq<char> {
    match sequence {
        Some(q) => "SEQUENCE "@ + qualified(schema, q),
        None => "ALL SEQUENCES IN SCHEMA "@ + schema,
    }
}

/// The target text of a domain grant.
pub open spec fn domain_target(schema: Seq<char>, domain: Seq<char>) -> Seq<char> {
    "DOMAIN "@ + qualified(schema, domain)
}

/// What a grant on a database, schema or domain holds.
pub ghost struct GrantView {
    pub grant_type: PostgresPrivileges,
    pub schema: Seq<char>,
    pub name: Option<Seq<char>>,
    pub roles: Seq<Seq<char>>,
    pub with_grant_option: bool,
}

/// A grant on a database.
#[derive(Debug, PartialEq, Eq, Clone)]
pub struct DatabaseGrant {
    grant_type: PostgresPrivileges,
    database_name: String,
    roles: Vec<String>,
    with_grant_option: bool,
}

impl View for DatabaseGrant {
    /// `schema` is the database's name; `name` is `None`.
    type V = GrantView;

    closed spec fn view(&self) -> GrantView {
        GrantView {
            grant_type: self.grant_type,
            schema: self.database_name@,
            name: None,
            roles: names_of(self.roles@),
            with_grant_option: self.with_grant_option,
        }
    }
}

impl DatabaseGrant {
    pub fn new(
        grant_type: PostgresPrivileges,
        database_name: String,
        roles: Vec<String>,
        with_grant_option: bool,
    ) -> (r: Result<Self, GrantError>)
        ensures
            r is Ok <==> database_allows(grant_type),
            r is Ok ==> r->Ok_0@ == (GrantView {
                grant_type,
                schema: database_name@,
                name: None,
                roles: names_of(roles@),
                with_grant_option,
            }),
            r is Err ==> r->Err_0 == (GrantError::InvalidPrivilegeForObjectKind {
                privilege: grant_type,
                object: PostgresObjectType::Database,
            }),
    {
        match grant_type {
            PostgresPrivileges::Connect
            | PostgresPrivileges::Create
            | PostgresPrivileges::Temporary
            | PostgresPrivileges::All => Ok(
                DatabaseGrant { grant_type, database_name, roles, with_grant_option },
            ),
            _ => Err(invalid(grant_type, PostgresObjectType::Database)),
        }
    }

    /// The grant statement.
    pub fn to_sql(&self) -> (r: Sql)
        ensures
            r@ == grant_text(
                privilege_keyword(self@.grant_type),
                database_target(self@.schema),
                self@.roles,
                self@.with_grant_option,
            ),
    {
        let mut target = <String as vstd::string::StringExecFns>::from_str("DATABASE ");
        target.append(self.database_name.as_str());
        render_grant(self.grant_type.keyword(), target.as_str(), &self.roles, self.with_grant_option)
    }

    /// The statement that takes the grant back.
    pub fn to_revoke_sql(&self) -> (r: Sql)
        ensures
            r@ == revoke_text(
                privilege_keyword(self@.grant_type),
                database_target(self@.schema),
                self@.roles,
            ),
    {
        let mut target = <String as vstd::string::StringExecFns>::from_str("DATABASE ");
        target.append(self.database_name.as_str());
        render_revoke(self.grant_type.keyword(), target.as_str(), &self.roles)
    }
}

/// A grant on a schema.
#[derive(Debug, PartialEq, Eq, Clone)]
pub struct SchemaGrant {
    grant_type: PostgresPrivileges,
    schema_name: String,
    roles: Vec<String>,
    with_grant_option: bool,
}

impl View for SchemaGrant {
    /// `name` is `None`.
    type V = GrantView;

    closed spec fn view(&self) -> GrantView {
        GrantView {
            grant_type: self.grant_type,
            schema: self.schema_name@,
            name: None,
            roles: names_of(self.roles@),
            with_grant_option: self.with_grant_option,
        }
    }
}

impl SchemaGrant {
    pub fn new(
        grant_type: PostgresPrivileges,
        schema_name: String,
        roles: Vec<String>,
        with_grant_option: bool,
    ) -> (r: Result<Self, GrantError>)
        ensures
            r is Ok <==> schema_allows(grant_type),
            r is Ok ==> r->Ok_0@ == (GrantView {
                grant_type,
                schema: schema_name@,
                name: None,
                roles: names_of(roles@),
                with_grant_option,
            }),
            r is Err ==> r->Err_0 == (GrantError::InvalidPrivilegeForObjectKind {
                privilege: grant_type,
                object: PostgresObjectType::Schema,
            }),
    {
        match grant_type {
            PostgresPrivileges::Create
            | PostgresPrivileges::Usage
            | PostgresPrivileges::All => Ok(
                SchemaGrant { grant_type, schema_name, roles, with_grant_option },
            ),
            _ => Err(invalid(grant_type, PostgresObjectType::Schema)),
        }
    }

    /// The grant statement.
    pub fn to_sql(&self) -> (r: Sql)
        ensures
            r@ == grant_text(
                privilege_keyword(self@.grant_type),
                schema_target(self@.schema),
                self@.roles,
                self@.with_grant_option,
            ),
    {
        let mut target = <String as vstd::string::StringExecFns>::from_str("SCHEMA ");
        target.append(self.schema_name.as_str());
        render_grant(self.grant_type.keyword(), target.as_str(), &self.roles, self.with_grant_option)
    }

    /// The statement that takes the grant back.
    pub fn to_revoke_sql(&self) -> (r: Sql)
        ensures
            r@ == revoke_text(
                privilege_keyword(self@.grant_type),
                schema_target(self@.schema),
                self@.roles,
            ),
    {
        let mut target = <String as vstd::string::StringExecFns>::from_str("SCHEMA ");
        target.append(self.schema_name.as_str());
        render_revoke(self.grant_type.keyword(), target.as_str(), &self.roles)
    }
}

/// A grant on one table, or on all tables of a schema.
#[derive(Debug, PartialEq, Eq, Clone)]
pub struct TableGrant {
    grant_type: PostgresPrivileges,
    table_name: Option<String>,
    schema_name: String,
    roles: Vec<String>,
    with_grant_option: bool,
}

impl View for TableGrant {
    /// `name` is the table's name, if one table is meant.
    type V = GrantView;

    closed spec fn view(&self) -> GrantView {
        GrantView {
            grant_type: self.grant_type,
            schema: self.schema_name@,
            name: opt_view(self.table_name),
            roles: names_of(self.roles@),
            with_grant_option: self.with_grant_option,
        }
    }
}

/// Renders the target of a table or sequence grant.
fn scoped_target(one: &str, all: &str, schema: &String, name: &Option<String>) -> (r: String)
    ensures
        r@ == match opt_view(*name) {
            Some(n) => one@ + qualified(schema@, n),
            None => all@ + schema@,
        },
{
    match name {
        Some(n) => target_with(one, schema, n),
        None => {
            let mut t = <String as vstd::string::StringExecFns>::from_str(all);
            t.append(schema.as_str());
            t
        },
    }
}

impl TableGrant {
    pub fn new(
        grant_type: PostgresPrivileges,
        table_name: Option<String>,
        schema_name: String,
        roles: Vec<String>,
        with_grant_option: bool,
    ) -> (r: Result<TableGrant, GrantError>)
        ensures
            r is Ok <==> table_allows(grant_type),
            r is Ok ==> r->Ok_0@ == (GrantView {
                grant_type,
                schema: schema_name@,
                name: opt_view(table_name),
                roles: names_of(roles@),
                with_grant_option,
            }),
            r is Err ==> r->Err_0 == (GrantError::InvalidPrivilegeForObjectKind {
                privilege: grant_type,
                object: PostgresObjectType::Table,
            }),
    {
        match grant_type {
            PostgresPrivileges::Select
            | PostgresPrivileges::Insert
            | PostgresPrivileges::Update
            | PostgresPrivileges::Delete
            | PostgresPrivileges::Truncate
            | PostgresPrivileges::References
            | PostgresPrivileges::Trigger
            | PostgresPrivileges::All => Ok(
                TableGrant { grant_type, table_name, schema_name, roles, with_grant_option },
            ),
            _ => Err(invalid(grant_type, PostgresObjectType::Table)),
        }
    }

    /// The grant statement.
    pub fn to_sql(&self) -> (r: Sql)
        ensures
            r@ == grant_text(
                privilege_keyword(self@.grant_type),
                table_target(self@.schema, self@.name),
                self@.roles,
                self@.with_grant_option,
            ),
    {
        let target = scoped_target("TABLE ", "ALL TABLES IN SCHEMA ", &self.schema_name, &self.table_name);
        render_grant(self.grant_type.keyword(), target.as_str(), &self.roles, self.with_grant_option)
    }

    /// The statement that takes the grant back.
    pub fn to_revoke_sql(&self) -> (r: Sql)
        ensures
            r@ == revoke_text(
                privilege_keyword(self@.grant_type),
                table_target(self@.schema, self@.name),
                self@.roles,
            ),
    {
        let target = scoped_target("TABLE ", "ALL TABLES IN SCHEMA ", &self.schema_name, &self.table_name);
        render_revoke(self.grant_type.keyword(), target.as_str(), &self.roles)
    }
}

impl SameValue for TableGrant {
    fn same_value(&self, other: &Self) -> (r: bool) {
        let r = self.grant_type == other.grant_type && opt_string_eq(&self.table_name, &other.table_name)
            && string_eq(&self.schema_name, &other.schema_name) && names_eq(&self.roles, &other.roles)
            && self.with_grant_option == other.with_grant_option;
        r
    }
}

impl SameValue for DatabaseGrant {
    fn same_value(&self, other: &Self) -> (r: bool) {
        self.grant_type == other.grant_type && string_eq(&self.database_name, &other.database_name)
            && names_eq(&self.roles, &other.roles) && self.with_grant_option
            == other.with_grant_option
    }
}

impl SameValue for SchemaGrant {
    fn same_value(&self, other: &Self) -> (r: bool) {
        self.grant_type == other.grant_type && string_eq(&self.schema_name, &other.schema_name)
            && names_eq(&self.roles, &other.roles) && self.with_grant_option
            == other.with_grant_option
    }
}

impl SameValue for SequenceGrant {
    fn same_value(&self, other: &Self) -> (r: bool) {
        self.grant_type == other.grant_type && opt_string_eq(
            &self.sequence_name,
            &other.sequence_name,
        ) && string_eq(&self.schema_name, &other.schema_name) && names_eq(&self.roles, &other.roles)
            && self.with_grant_option == other.with_grant_option
    }
}

impl SameValue for DomainGrant {
    fn same_value(&self, other: &Self) -> (r: bool) {
        let r = self.grant_type == other.grant_type && string_eq(&self.domain_name, &other.domain_name)
            && string_eq(&self.schema_name, &other.schema_name) && names_eq(&self.roles, &other.roles)
            && self.with_grant_option == other.with_grant_option;
        proof {
            if self@ == other@ {
                assert(self@.name->Some_0 == other@.name->Some_0);
            }
        }
        r
    }
}

impl SameValue for RoleGrant {
    fn same_value(&self, other: &Self) -> (r: bool) {
        string_eq(&self.role_name, &other.role_name) && names_eq(&self.roles, &other.roles)
            && self.with_admin_option == other.with_admin_option
    }
}

/// A grant on one sequence, or on all sequences of a schema.
#[derive(Debug, PartialEq, Eq, Clone)]
pub struct SequenceGrant {
    grant_type: PostgresPrivileges,
    sequence_name: Option<String>,
    schema_name: String,
    roles: Vec<String>,
    with_grant_option: bool,
}

impl View for SequenceGrant {
    /// `name` is the sequence's name, if one sequence is meant.
    type V = GrantView;

    closed spec fn view(&self) -> GrantView {
        GrantView {
            grant_type: self.grant_type,
            schema: self.schema_name@,
            name: opt_view(self.sequence_name),
            roles: names_of(self.roles@),
            with_grant_option: self.with_grant_option,
        }
    }
}

impl SequenceGrant {
    pub fn new(
        grant_type: PostgresPrivileges,
        sequence_name: Option<String>,
        schema_name: String,
        roles: Vec<String>,
        with_grant_option: bool,
    ) -> (r: Result<SequenceGrant, GrantError>)
        ensures
            r is Ok <==> sequence_allows(grant_type),
            r is Ok ==> r->Ok_0@ == (GrantView {
                grant_type,
                schema: schema_name@,
                name: opt_view(sequence_name),
                roles: names_of(roles@),
                with_grant_option,
            }),
            r is Err ==> r->Err_0 == (GrantError::InvalidPrivilegeForObjectKind {
                privilege: grant_type,
                object: PostgresObjectType::Sequence,
            }),
    {
        match grant_type {
            PostgresPrivileges::Usage
            | PostgresPrivileges::Select
            | PostgresPrivileges::Update
            | PostgresPrivileges::All => Ok(
                SequenceGrant { grant_type, sequence_name, schema_name, roles, with_grant_option },
            ),
            _ => Err(invalid(grant_type, PostgresObjectType::Sequence)),
        }
    }

    /// The grant statement.
    pub fn to_sql(&self) -> (r: Sql)
        ensures
            r@ == grant_text(
                privilege_keyword(self@.grant_type),
                sequence_target(self@.schema, self@.name),
                self@.roles,
                self@.with_grant_option,
            ),
    {
        let target = scoped_target("SEQUENCE ", "ALL SEQUENCES IN SCHEMA ", &self.schema_name, &self.sequence_name);
        render_grant(self.grant_type.keyword(), target.as_str(), &self.roles, self.with_grant_option)
    }

    /// The statement that takes the grant back.
    pub fn to_revoke_sql(&self) -> (r: Sql)
        ensures
            r@ == revoke_text(
                privilege_keyword(self@.grant_type),
                sequence_target(self@.schema, self@.name),
                self@.roles,
            ),
    {
        let target = scoped_target("SEQUENCE ", "ALL SEQUENCES IN SCHEMA ", &self.schema_name, &self.sequence_name);
        render_revoke(self.grant_type.keyword(), target.as_str(), &self.roles)
    }
}

/// A grant on a domain.
#[derive(Debug, PartialEq, Eq, Clone)]
pub struct DomainGrant {
    grant_type: PostgresPrivileges,
    domain_name: String,
    schema_name: String,
    roles: Vec<String>,
    with_grant_option: bool,
}

impl View for DomainGrant {
    /// `name` is the domain's name.
    type V = GrantView;

    closed spec fn view(&self) -> GrantView {
        GrantView {
            grant_type: self.grant_type,
            schema: self.schema_name@,
            name: Some(self.domain_name@),
            roles: names_of(self.roles@),
            with_grant_option: self.with_grant_option,
        }
    }
}

impl DomainGrant {
    pub fn new(
        grant_type: PostgresPrivileges,
        domain_name: String,
        schema_name: String,
        roles: Vec<String>,
        with_grant_option: bool,
    ) -> (r: Result<DomainGrant, GrantError>)
        ensures
            r is Ok <==> domain_allows(grant_type),
            r is Ok ==> r->Ok_0@ == (GrantView {
                grant_type,
                schema: schema_name@,
                name: Some(domain_name@),
                roles: names_of(roles@),
                with_grant_option,
            }),
            r is Err ==> r->Err_0 == (GrantError::InvalidPrivilegeForObjectKind {
                privilege: grant_type,
                object: PostgresObjectType::Type,
            }),
    {
        match grant_type {
            PostgresPrivileges::Usage | PostgresPrivileges::All => Ok(
                DomainGrant { grant_type, domain_name, schema_name, roles, with_grant_option },
            ),
            _ => Err(invalid(grant_type, PostgresObjectType::Type)),
        }
    }

    /// The grant statement.
    pub fn to_sql(&self) -> (r: Sql)
        ensures
            r@ == grant_text(
                privilege_keyword(self@.grant_type),
                domain_target(self@.schema, self@.name->Some_0),
                self@.roles,
                self@.with_grant_option,
            ),
    {
        let target = target_with("DOMAIN ", &self.schema_name, &self.domain_name);
        render_grant(self.grant_type.keyword(), target.as_str(), &self.roles, self.with_grant_option)
    }

    /// The statement that takes the grant back.
    pub fn to_revoke_sql(&self) -> (r: Sql)
        ensures
            r@ == revoke_text(
                privilege_keyword(self@.grant_type),
                domain_target(self@.schema, self@.name->Some_0),
                self@.roles,
            ),
    {
        let target = target_with("DOMAIN ", &self.schema_name, &self.domain_name);
        render_revoke(self.grant_type.keyword(), target.as_str(), &self.roles)
    }
}

/// What a membership grant holds.
pub ghost struct RoleGrantView {
    pub role_name: Seq<char>,
    pub roles: Seq<Seq<char>>,
    pub with_admin_option: bool,
}

/// Makes the listed roles members of `role_name`.
#[derive(Debug, PartialEq, Eq, Clone)]
pub struct RoleGrant {
    role_name: String,
    roles: Vec<String>,
    with_admin_option: bool,
}

impl View for RoleGrant {
    type V = RoleGrantView;

    closed spec fn view(&self) -> RoleGrantView {
        RoleGrantView {
            role_name: self.role_name@,
            roles: names_of(self.roles@),
            with_admin_option: self.with_admin_option,
        }
    }
}

/// `GRANT <role> TO ROLE <roles>`, with the admin option when asked.
pub open spec fn role_grant_text(g: RoleGrantView) -> Seq<char> {
    "GRANT "@ + g.role_name + " TO ROLE "@ + join_names(g.roles) + if g.with_admin_option {
        " WITH ADMIN OPTION"@
    } else {
        Seq::empty()
    }
}

/// `REVOKE <role> FROM <roles>`.
pub open spec fn role_revoke_text(g: RoleGrantView) -> Seq<char> {
    "REVOKE "@ + g.role_name + " FROM "@ + join_names(g.roles)
}

impl RoleGrant {
    pub fn new(role_name: String, roles: Vec<String>, with_admin_option: bool) -> (r: Self)
        ensures
            r@ == (RoleGrantView { role_name: role_name@, roles: names_of(roles@), with_admin_option }),
    {
        RoleGrant { role_name, roles, with_admin_option }
    }

    /// The grant statement.
    pub fn to_sql(&self) -> (r: Sql)
        ensures
            r@ == role_grant_text(self@),
    {
        let mut sql = <String as vstd::string::StringExecFns>::from_str("GRANT ");
        sql.append(self.role_name.as_str());
        sql.append(" TO ROLE ");
        let joined = join_roles(&self.roles);
        sql.append(joined.as_str());
        if self.with_admin_option {
            sql.append(" WITH ADMIN OPTION");
        }
        proof {
            if !self.with_admin_option {
                assert(sql@ =~= sql@ + Seq::<char>::empty());
            }
        }
        sql
    }

    /// The statement that takes the membership back.
    pub fn to_revoke_sql(&self) -> (r: Sql)
        ensures
            r@ == role_revoke_text(self@),
    {
        let mut sql = <String as vstd::string::StringExecFns>::from_str("REVOKE ");
        sql.append(self.role_name.as_str());
        sql.append(" FROM ");
        let joined = join_roles(&self.roles);
        sql.append(joined.as_str());
        sql
    }
}

/// Whether `t` occurs in `s` as a contiguous piece.
pub open spec fn has_infix(s: Seq<char>, t: Seq<char>) -> bool {
    exists|i: int| 0 <= i && i + t.len() <= s.len() && #[trigger] s.subrange(i, i + t.len()) == t
}

proof fn lemma_infix_trans(s: Seq<char>, t: Seq<char>, u: Seq<char>)
    requires
        has_infix(s, t),
        has_infix(t, u),
    ensures
        has_infix(s, u),
{
    let i = choose|i: int| 0 <= i && i + t.len() <= s.len() && #[trigger] s.subrange(i, i + t.len()) == t;
    let j = choose|j: int| 0 <= j && j + u.len() <= t.len() && #[trigger] t.subrange(j, j + u.len()) == u;
    assert(s.subrange(i + j, i + j + u.len()) =~= u);
}

/// A grant's text names its privilege keyword and its target.
pub proof fn lemma_grant_text_mentions(
    keyword: Seq<char>,
    target: Seq<char>,
    roles: Seq<Seq<char>>,
    with_grant_option: bool,
)
    ensures
        has_infix(grant_text(keyword, target, roles, with_grant_option), keyword),
        has_infix(grant_text(keyword, target, roles, with_grant_option), target),
{
    let s = grant_text(keyword, target, roles, with_grant_option);
    reveal_strlit("GRANT ");
    reveal_strlit(" ON ");
    assert(s.subrange(6, 6 + keyword.len() as int) =~= keyword);
    let j: int = 10 + keyword.len() as int;
    assert(s.subrange(j, j + target.len() as int) =~= target);
}

proof fn lemma_suffix_infix(prefix: Seq<char>, rest: Seq<char>)
    ensures
        has_infix(prefix + rest, rest),
{
    assert((prefix + rest).subrange(prefix.len() as int, prefix.len() + rest.len() as int) =~= rest);
}

/// Every privilege legal on a table can be granted on it, and the grant's
/// text names the privilege and the table's qualified name (the schema, when
/// all tables of the schema are meant).
pub proof fn lemma_table_grant_round_trip(
    p: PostgresPrivileges,
    schema: Seq<char>,
    table: Option<Seq<char>>,
    roles: Seq<Seq<char>>,
    with_grant_option: bool,
)
    ensures
        table_allows(p) ==> has_infix(
            grant_text(privilege_keyword(p), table_target(schema, table), roles, with_grant_option),
            privilege_keyword(p),
        ),
        table_allows(p) ==> has_infix(
            grant_text(privilege_keyword(p), table_target(schema, table), roles, with_grant_option),
            match table {
                Some(t) => qualified(schema, t),
                None => schema,
            },
        ),
{
    let target = table_target(schema, table);
    lemma_grant_text_mentions(privilege_keyword(p), target, roles, with_grant_option);
    match table {
        Some(t) => lemma_suffix_infix("TABLE "@, qualified(schema, t)),
        None => lemma_suffix_infix("ALL TABLES IN SCHEMA "@, schema),
    }
    lemma_infix_trans(
        grant_text(privilege_keyword(p), target, roles, with_grant_option),
        target,
        match table {
            Some(t) => qualified(schema, t),
            None => schema,
        },
    );
}

/// Every privilege legal on a sequence can be granted on it, and the grant's
/// text names the privilege and the sequence's qualified name (the schema,
/// when all sequences of the schema are meant).
pub proof fn lemma_sequence_grant_round_trip(
    p: PostgresPrivileges,
    schema: Seq<char>,
    sequence: Option<Seq<char>>,
    roles: Seq<Seq<char>>,
    with_grant_option: bool,
)
    ensures
        sequence_allows(p) ==> has_infix(
            grant_text(privilege_keyword(p), sequence_target(schema, sequence), roles, with_grant_option),
            privilege_keyword(p),
        ),
        sequence_allows(p) ==> has_infix(
            grant_text(privilege_keyword(p), sequence_target(schema, sequence), roles, with_grant_option),
            match sequence {
                Some(q) => qualified(schema, q),
                None => schema,
            },
        ),
{
    let target = sequence_target(schema, sequence);
    lemma_grant_text_mentions(privilege_keyword(p), target, roles, with_grant_option);
    match sequence {
        Some(q) => lemma_suffix_infix("SEQUENCE "@, qualified(schema, q)),
        None => lemma_suffix_infix("ALL SEQUENCES IN SCHEMA "@, schema),
    }
    lemma_infix_trans(
        grant_text(privilege_keyword(p), target, roles, with_grant_option),
        target,
        match sequence {
            Some(q) => qualified(schema, q),
            None => schema,
        },
    );
}

/// Every privilege legal on a database, a schema or a domain yields a grant
/// whose text names the privilege and the object's (qualified) name.
pub proof fn lemma_named_grant_round_trip(
    p: PostgresPrivileges,
    schema: Seq<char>,
    name: Seq<char>,
    roles: Seq<Seq<char>>,
    with_grant_option: bool,
)
    ensures
        database_allows(p) ==> has_infix(
            grant_text(privilege_keyword(p), database_target(name), roles, with_grant_option),
            privilege_keyword(p),
        ) && has_infix(
            grant_text(privilege_keyword(p), database_target(name), roles, with_grant_option),
            name,
        ),
        schema_allows(p) ==> has_infix(
            grant_text(privilege_keyword(p), schema_target(schema), roles, with_grant_option),
            privilege_keyword(p),
        ) && has_infix(
            grant_text(privilege_keyword(p), schema_target(schema), roles, with_grant_option),
            schema,
        ),
        domain_allows(p) ==> has_infix(
            grant_text(privilege_keyword(p), domain_target(schema, name), roles, with_grant_option),
            privilege_keyword(p),
        ) && has_infix(
            grant_text(privilege_keyword(p), domain_target(schema, name), roles, with_grant_option),
            qualified(schema, name),
        ),
{
    let kw = privilege_keyword(p);
    lemma_grant_text_mentions(kw, database_target(name), roles, with_grant_option);
    lemma_suffix_infix("DATABASE "@, name);
    lemma_infix_trans(grant_text(kw, database_target(name), roles, with_grant_option), database_target(name), name);
    lemma_grant_text_mentions(kw, schema_target(schema), roles, with_grant_option);
    lemma_suffix_infix("SCHEMA "@, schema);
    lemma_infix_trans(grant_text(kw, schema_target(schema), roles, with_grant_option), schema_target(schema), schema);
    lemma_grant_text_mentions(kw, domain_target(schema, name), roles, with_grant_option);
    lemma_suffix_infix("DOMAIN "@, qualified(schema, name));
    lemma_infix_trans(
        grant_text(kw, domain_target(schema, name), roles, with_grant_option),
        domain_target(schema, name),
        qualified(schema, name),
    );
}

/// The grant statement, as `to_sql` renders it.
impl From<DatabaseGrant> for String {
    fn from(grant: DatabaseGrant) -> (r: String)
        ensures
            r@ == grant_text(
                privilege_keyword(grant@.grant_type),
                database_target(grant@.schema),
                grant@.roles,
                grant@.with_grant_option,
            ),
    {
        grant.to_sql()
    }
}

/// The text of the conversion is stated on `from` itself: two strings with
/// the same characters are not known to be the same value, so the result is
/// not claimed equal to one chosen here.
impl vstd::std_specs::convert::FromSpecImpl<DatabaseGrant> for String {
    open spec fn obeys_from_spec() -> bool {
        false
    }

    open spec fn from_spec(grant: DatabaseGrant) -> String {
        choose|s: String|
            s@ == grant_text(
                privilege_keyword(grant@.grant_type),
                database_target(grant@.schema),
                grant@.roles,
                grant@.with_grant_option,
            )
    }
}

/// The grant statement, as `to_sql` renders it.
impl From<SchemaGrant> for String {
    fn from(grant: SchemaGrant) -> (r: String)
        ensures
            r@ == grant_text(
                privilege_keyword(grant@.grant_type),
                schema_target(grant@.schema),
                grant@.roles,
                grant@.with_grant_option,
            ),
    {
        grant.to_sql()
    }
}

/// The text of the conversion is stated on `from` itself: two strings with
/// the same characters are not known to be the same value, so the result is
/// not claimed equal to one chosen here.
impl vstd::std_specs::convert::FromSpecImpl<SchemaGrant> for String {
    open spec fn obeys_from_spec() -> bool {
        false
    }

    open spec fn from_spec(grant: SchemaGrant) -> String {
        choose|s: String|
            s@ == grant_text(
                privilege_keyword(grant@.grant_type),
                schema_target(grant@.schema),
                grant@.roles,
                grant@.with_grant_option,
            )
    }
}

/// The grant statement, as `to_sql` renders it.
impl From<TableGrant> for String {
    fn from(grant: TableGrant) -> (r: String)
        ensures
            r@ == grant_text(
                privilege_keyword(grant@.grant_type),
                table_target(grant@.schema, grant@.name),
                grant@.roles,
                grant@.with_grant_option,
            ),
    {
        grant.to_sql()
    }
}

/// The text of the conversion is stated on `from` itself: two strings with
/// the same characters are not known to be the same value, so the result is
/// not claimed equal to one chosen here.
impl vstd::std_specs::convert::FromSpecImpl<TableGrant> for String {
    open spec fn obeys_from_spec() -> bool {
        false
    }

    open spec fn from_spec(grant: TableGrant) -> String {
        choose|s: String|
            s@ == grant_text(
                privilege_keyword(grant@.grant_type),
                table_target(grant@.schema, grant@.name),
                grant@.roles,
                grant@.with_grant_option,
            )
    }
}

/// The grant statement, as `to_sql` renders it.
impl From<SequenceGrant> for String {
    fn from(grant: SequenceGrant) -> (r: String)
        ensures
            r@ == grant_text(
                privilege_keyword(grant@.grant_type),
                sequence_target(grant@.schema, grant@.name),
                grant@.roles,
                grant@.with_grant_option,
            ),
    {
        grant.to_sql()
    }
}

/// The text of the conversion is stated on `from` itself: two strings with
/// the same characters are not known to be the same value, so the result is
/// not claimed equal to one chosen here.
impl vstd::std_specs::convert::FromSpecImpl<SequenceGrant> for String {
    open spec fn obeys_from_spec() -> bool {
        false
    }

    open spec fn from_spec(grant: SequenceGrant) -> String {
        choose|s: String|
            s@ == grant_text(
                privilege_keyword(grant@.grant_type),
                sequence_target(grant@.schema, grant@.name),
                grant@.roles,
                grant@.with_grant_option,
            )
    }
}

/// The grant statement, as `to_sql` renders it.
impl From<DomainGrant> for String {
    fn from(grant: DomainGrant) -> (r: String)
        ensures
            r@ == grant_text(
                privilege_keyword(grant@.grant_type),
                domain_target(grant@.schema, grant@.name->Some_0),
                grant@.roles,
                grant@.with_grant_option,
            ),
    {
        grant.to_sql()
    }
}

/// The text of the conversion is stated on `from` itself: two strings with
/// the same characters are not known to be the same value, so the result is
/// not claimed equal to one chosen here.
impl vstd::std_specs::convert::FromSpecImpl<DomainGrant> for String {
    open spec fn obeys_from_spec() -> bool {
        false
    }

    open spec fn from_spec(grant: DomainGrant) -> String {
        choose|s: String|
            s@ == grant_text(
                privilege_keyword(grant@.grant_type),
                domain_target(grant@.schema, grant@.name->Some_0),
                grant@.roles,
                grant@.with_grant_option,
            )
    }
}

/// The grant statement, as `to_sql` renders it.
impl From<RoleGrant> for String {
    fn from(grant: RoleGrant) -> (r: String)
        ensures
            r@ == role_grant_text(grant@),
    {
        grant.to_sql()
    }
}

/// The text of the conversion is stated on `from` itself (see above).
impl vstd::std_specs::convert::FromSpecImpl<RoleGrant> for String {
    open spec fn obeys_from_spec() -> bool {
        false
    }

    open spec fn from_spec(grant: RoleGrant) -> String {
        choose|s: String| s@ == role_grant_text(grant@)
    }
}

} // verus!
