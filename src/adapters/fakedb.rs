//! A fixed, in-memory database for trying the tool out.
use vstd::prelude::*;

use crate::analyzer::{
    login_statement, login_text, membership_plan, plan_memberships, superuser_statement,
    superuser_text,
};
use crate::context::{
    names_of, RoleAnalysis,
    AdapterError, Attributes, Context, DatabaseObject, DefaultPrivilege, ObjectKind, Privilege,
    PrivilegeType, RoleAttribute, RoleMembership,
};
use crate::spec::{Role as SpecRole, RoleView};
use crate::strings::str_eq;

verus! {

/// A fake database context for testing.
pub struct FakeDb {}

/// The capabilities of a role of the fake database.
pub struct FakeDbAttribute {
    enabled: bool,
    superuser: bool,
}

/// The capabilities that two flags stand for, in order.
pub open spec fn flag_attributes(enabled: bool, superuser: bool) -> Seq<Attributes> {
    let a = if enabled {
        seq![Attributes::Enabled]
    } else {
        Seq::empty()
    };
    if superuser {
        a.push(Attributes::Superuser)
    } else {
        a
    }
}

impl RoleAttribute for FakeDbAttribute {
    closed spec fn attributes(&self) -> Seq<Attributes> {
        flag_attributes(self.enabled, self.superuser)
    }

    fn get_attributes(&self) -> (r: Vec<Attributes>) {
        let mut attrs: Vec<Attributes> = Vec::new();
        if self.enabled {
            attrs.push(Attributes::Enabled);
        }
        if self.superuser {
            attrs.push(Attributes::Superuser);
        }
        proof {
            if self.enabled && !self.superuser {
                assert(attrs@ =~= seq![Attributes::Enabled]);
            }
            if !self.enabled && !self.superuser {
                assert(attrs@ =~= Seq::<Attributes>::empty());
            }
            if !self.enabled && self.superuser {
                assert(attrs@ =~= Seq::<Attributes>::empty().push(Attributes::Superuser));
            }
            if self.enabled && self.superuser {
                assert(attrs@ =~= seq![Attributes::Enabled].push(Attributes::Superuser));
            }
        }
        attrs
    }
}

fn owned(s: &str) -> (r: String)
    ensures
        r@ == s@,
{
    String::from_str(s)
}

fn schema(name: &str) -> (r: DatabaseObject)
    ensures
        r@.kind == ObjectKind::Schema,
        r@.schema == name@,
        r@.name is None,
{
    DatabaseObject::new(ObjectKind::Schema, owned(name), None)
}

fn results_table() -> (r: DatabaseObject)
    ensures
        r@.kind == ObjectKind::Table,
{
    DatabaseObject::new(ObjectKind::Table, owned("finance"), Some(owned("q2_results")))
}

fn privilege(object: DatabaseObject, read: bool, write: bool) -> (r: Privilege)
    ensures
        r.object@ == object@,
{
    let mut privs: Vec<PrivilegeType> = Vec::new();
    if read {
        privs.push(PrivilegeType::Read);
    }
    if write {
        privs.push(PrivilegeType::Write);
    }
    Privilege::new(object, privs)
}

impl Context for FakeDb {
    type RoleAttribute = FakeDbAttribute;

    fn database_name(&self) -> &str {
        "fake_db"
    }

    fn get_roles(&mut self) -> Result<Vec<String>, AdapterError> {
        Ok(vec![owned("alice"), owned("bob"), owned("carol"), owned("analyst"), owned("developer")])
    }

    fn get_role_attributes(&mut self, _role: &str) -> Result<FakeDbAttribute, AdapterError> {
        Ok(FakeDbAttribute { enabled: true, superuser: false })
    }

    fn get_role_memberships(&mut self, role: &str) -> Result<RoleMembership, AdapterError> {
        if str_eq(role, "analyst") || str_eq(role, "developer") {
            Ok(RoleMembership::new(Vec::new()))
        } else {
            Ok(RoleMembership::new(vec![owned("analyst"), owned("developer")]))
        }
    }

    fn get_role_ownerships(&mut self, _role: &str) -> Result<Vec<DatabaseObject>, AdapterError> {
        Ok(vec![schema("marketing"), schema("finance"), results_table()])
    }

    fn get_role_permissions(&mut self, role: &str) -> Result<Vec<Privilege>, AdapterError> {
        if str_eq(role, "alice") {
            Ok(
                vec![
                    privilege(schema("marketing"), true, false),
                    privilege(schema("finance"), true, true),
                    privilege(results_table(), true, false),
                ],
            )
        } else if str_eq(role, "bob") {
            Ok(
                vec![
                    privilege(schema("marketing"), true, false),
                    privilege(schema("finance"), true, false),
                    privilege(results_table(), true, true),
                ],
            )
        } else if str_eq(role, "carol") {
            Ok(
                vec![
                    privilege(schema("marketing"), true, false),
                    privilege(schema("finance"), true, false),
                    privilege(results_table(), true, false),
                ],
            )
        } else {
            Ok(Vec::new())
        }
    }

    fn get_default_permissions(&mut self, _role: &str) -> Result<
        Vec<DefaultPrivilege>,
        AdapterError,
    > {
        Ok(Vec::new())
    }
}

impl RoleAnalysis for FakeDb {
    /// Both capability statements, whatever the role holds now.
    open spec fn attribute_statements(&self, name: Seq<char>, role: RoleView) -> Seq<Seq<char>> {
        seq![login_text(name, role.can_login), superuser_text(name, role.is_superuser)]
    }

    /// A grant of every parent, as for a role that belongs to none.
    open spec fn membership_statements(&self, name: Seq<char>, role: RoleView) -> Seq<Seq<char>> {
        membership_plan(name, Seq::empty(), role.member_of)
    }

    fn analyze_attributes(&mut self, name: &str, role: &SpecRole) -> (r: Result<
        Vec<String>,
        AdapterError,
    >) {
        let a = login_statement(name, role.can_login);
        let b = superuser_statement(name, role.is_superuser);
        let v = vec![a, b];
        assert(names_of(v@) =~= seq![a@, b@]);
        Ok(v)
    }

    fn analyze_memberships(&mut self, name: &str, role: &SpecRole) -> (r: Result<
        Vec<String>,
        AdapterError,
    >) {
        let none: Vec<String> = Vec::new();
        assert(names_of(none@) =~= Seq::<Seq<char>>::empty());
        Ok(plan_memberships(name, &none, &role.member_of))
    }
}

} // verus!
