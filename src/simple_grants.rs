//! A smaller grant builder over a fixed list of privilege words; each
//! target checks that the word is legal for it.
use vstd::prelude::*;

use crate::context::{names_of, opt_view};
use crate::grants::{grant_text, join_names, join_roles, qualified, PostgresObjectType};

verus! {

/// A privilege word.
#[derive(Debug, PartialEq, Eq, Structural, Clone, Copy)]
pub enum GrantType {
    Connect,
    Temp,
    Create,
    Select,
    Insert,
    Update,
    Delete,
    All,
}

/// The SQL word of a privilege.
pub open spec fn grant_type_word(g: GrantType) -> Seq<char> {
    match g {
        GrantType::Select => "SELECT"@,
        GrantType::Insert => "INSERT"@,
        GrantType::Update => "UPDATE"@,
        GrantType::Delete => "DELETE"@,
        GrantType::Connect => "CONNECT"@,
        GrantType::Temp => "TEMP"@,
        GrantType::Create => "CREATE"@,
        GrantType::All => "ALL"@,
    }
}

impl GrantType {
    pub fn to_postgres_permission(&self) -> (r: &'static str)
        ensures
            r@ == grant_type_word(*self),
    {
        match self {
            GrantType::Select => "SELECT",
            GrantType::Insert => "INSERT",
            GrantType::Update => "UPDATE",
            GrantType::Delete => "DELETE",
            GrantType::Connect => "CONNECT",
            GrantType::Temp => "TEMP",
            GrantType::Create => "CREATE",
            GrantType::All => "ALL",
        }
    }
}

/// A privilege word that is not legal on the kind of object it was asked for.
#[derive(Debug, PartialEq, Eq, Structural, Clone, Copy)]
pub enum SimpleGrantError {
    InvalidPrivilegeForObjectKind { privilege: GrantType, object: PostgresObjectType },
}

/// Whether a privilege word is legal on a table.
pub open spec fn simple_table_allows(g: GrantType) -> bool {
    g == GrantType::Select || g == GrantType::Insert || g == GrantType::Update || g
        == GrantType::Delete || g == GrantType::All
}

/// Whether a privilege word is legal on a database.
pub open spec fn simple_database_allows(g: GrantType) -> bool {
    g == GrantType::Connect || g == GrantType::Temp || g == GrantType::Create || g == GrantType::All
}

/// A grant on one table, or on all tables of a schema.
#[derive(Debug, PartialEq)]
pub struct TableGrant {
    grant_type: GrantType,
    table_name: Option<String>,
    schema_name: String,
    roles: Vec<String>,
    with_grant_option: bool,
}

/// What a grant of this module holds; `name` is `None` where it names no
/// object inside `schema`.
pub ghost struct SimpleGrantView {
    pub grant_type: GrantType,
    pub schema: Seq<char>,
    pub name: Option<Seq<char>>,
    pub roles: Seq<Seq<char>>,
    pub with_grant_option: bool,
}

impl View for TableGrant {
    type V = SimpleGrantView;

    closed spec fn view(&self) -> SimpleGrantView {
        SimpleGrantView {
            grant_type: self.grant_type,
            schema: self.schema_name@,
            name: opt_view(self.table_name),
            roles: names_of(self.roles@),
            with_grant_option: self.with_grant_option,
        }
    }
}

/// The target of a table grant of this module.
pub open spec fn simple_table_target(schema: Seq<char>, table: Option<Seq<char>>) -> Seq<char> {
    match table {
        Some(t) => "TABLE "@ + qualified(schema, t),
        None => "ALL TABLES IN SCHEMA "@ + schema,
    }
}

impl TableGrant {
    pub fn new(
        grant_type: GrantType,
        table_name: Option<String>,
        schema_name: String,
        roles: Vec<String>,
        with_grant_option: bool,
    ) -> (r: Result<Self, SimpleGrantError>)
        ensures
            r is Ok <==> simple_table_allows(grant_type),
            r is Ok ==> r->Ok_0@ == (SimpleGrantView {
                grant_type,
                schema: schema_name@,
                name: opt_view(table_name),
                roles: names_of(roles@),
                with_grant_option,
            }),
            r is Err ==> r->Err_0 == (SimpleGrantError::InvalidPrivilegeForObjectKind {
                privilege: grant_type,
                object: PostgresObjectType::Table,
            }),
    {
        match grant_type {
            GrantType::Select
            | GrantType::Insert
            | GrantType::Update
            | GrantType::Delete
            | GrantType::All => Ok(
                Self { grant_type, table_name, schema_name, roles, with_grant_option },
            ),
            _ => Err(
                SimpleGrantError::InvalidPrivilegeForObjectKind {
                    privilege: grant_type,
                    object: PostgresObjectType::Table,
                },
            ),
        }
    }

    pub fn to_sql(&self) -> (r: String)
        ensures
            r@ == grant_text(
                grant_type_word(self@.grant_type),
                simple_table_target(self@.schema, self@.name),
                self@.roles,
                self@.with_grant_option,
            ),
    {
        let mut query = <String as vstd::string::StringExecFns>::from_str("GRANT ");
        query.append(self.grant_type.to_postgres_permission());
        match &self.table_name {
            Some(table_name) => {
                query.append(" ON TABLE ");
                query.append(self.schema_name.as_str());
                query.append(".");
                query.append(table_name.as_str());
            },
            None => {
                query.append(" ON ALL TABLES IN SCHEMA ");
                query.append(self.schema_name.as_str());
            },
        }
        query.append(" TO ");
        let joined = join_roles(&self.roles);
        query.append(joined.as_str());
        if self.with_grant_option {
            query.append(" WITH GRANT OPTION");
        }
        proof {
            reveal_strlit(" ON TABLE ");
            reveal_strlit(" ON ");
            reveal_strlit("TABLE ");
            reveal_strlit(" ON ALL TABLES IN SCHEMA ");
            reveal_strlit("ALL TABLES IN SCHEMA ");
            assert(query@ =~= grant_text(
                grant_type_word(self@.grant_type),
                simple_table_target(self@.schema, self@.name),
                self@.roles,
                self@.with_grant_option,
            ));
        }
        query
    }
}

/// The names in `v`, as character sequences.
pub open spec fn str_names(v: Seq<&str>) -> Seq<Seq<char>> {
    v.map_values(|s: &str| s@)
}

/// A grant on a database, over borrowed names.
pub struct DatabaseGrant<'a> {
    grant_type: GrantType,
    database_name: &'a str,
    roles: Vec<&'a str>,
    with_grant_option: bool,
}

impl<'a> View for DatabaseGrant<'a> {
    /// `schema` is the database's name; `name` is `None`.
    type V = SimpleGrantView;

    closed spec fn view(&self) -> SimpleGrantView {
        SimpleGrantView {
            grant_type: self.grant_type,
            schema: self.database_name@,
            name: None,
            roles: str_names(self.roles@),
            with_grant_option: self.with_grant_option,
        }
    }
}

impl<'a> DatabaseGrant<'a> {
    pub fn new(
        grant_type: GrantType,
        database_name: &'a str,
        roles: Vec<&'a str>,
        with_grant_option: bool,
    ) -> (r: Result<Self, SimpleGrantError>)
        ensures
            r is Ok <==> simple_database_allows(grant_type),
            r is Ok ==> r->Ok_0@ == (SimpleGrantView {
                grant_type,
                schema: database_name@,
                name: None,
                roles: str_names(roles@),
                with_grant_option,
            }),
            r is Err ==> r->Err_0 == (SimpleGrantError::InvalidPrivilegeForObjectKind {
                privilege: grant_type,
                object: PostgresObjectType::Database,
            }),
    {
        match grant_type {
            GrantType::Connect | GrantType::Temp | GrantType::Create | GrantType::All => Ok(
                Self { grant_type, database_name, roles, with_grant_option },
            ),
            _ => Err(
                SimpleGrantError::InvalidPrivilegeForObjectKind {
                    privilege: grant_type,
                    object: PostgresObjectType::Database,
                },
            ),
        }
    }

    pub fn to_sql(&self) -> (r: String)
        ensures
            r@ == grant_text(
                grant_type_word(self@.grant_type),
                "DATABASE "@ + self@.schema,
                self@.roles,
                self@.with_grant_option,
            ),
    {
        let mut sql = <String as vstd::string::StringExecFns>::from_str("GRANT ");
        sql.append(self.grant_type.to_postgres_permission());
        sql.append(" ON DATABASE ");
        sql.append(self.database_name);
        sql.append(" TO ");
        let mut i: usize = 0;
        let ghost start = sql@;
        while i < self.roles.len()
            invariant
                i <= self.roles@.len(),
                sql@ == start + join_names(str_names(self.roles@.subrange(0, i as int))),
            decreases self.roles@.len() - i,
        {
            proof {
                let pre = str_names(self.roles@.subrange(0, i as int));
                assert(str_names(self.roles@.subrange(0, i + 1)) =~= pre.push(self.roles@[i as int]@));
                assert(pre.push(self.roles@[i as int]@).drop_last() =~= pre);
            }
            if i > 0 {
                sql.append(", ");
            }
            sql.append(self.roles[i]);
            i = i + 1;
        }
        proof {
            assert(self.roles@.subrange(0, self.roles@.len() as int) =~= self.roles@);
        }
        if self.with_grant_option {
            sql.append(" WITH GRANT OPTION");
        }
        proof {
            reveal_strlit(" ON DATABASE ");
            reveal_strlit(" ON ");
            reveal_strlit("DATABASE ");
            assert(sql@ =~= grant_text(
                grant_type_word(self@.grant_type),
                "DATABASE "@ + self@.schema,
                self@.roles,
                self@.with_grant_option,
            ));
        }
        sql
    }
}

} // verus!
