use permirust::analyzer::{
    login_statement, ownership_mismatches, plan_attributes, plan_role, plan_spec, plan_memberships, plan_privileges, privilege_statements,
    role_analyzer, superuser_statement,
};
use permirust::adapters::fakedb::FakeDb;
use permirust::context::{ObjectKind, PrivilegeType};
use permirust::diff::diff_grant;
use permirust::spec::{DatabaseSpec, Ownership, Privileges, Role};

fn names(v: &[&str]) -> Vec<String> {
    v.iter().map(|s| s.to_string()).collect()
}

fn role(can_login: bool, is_superuser: bool, member_of: &[&str]) -> Role {
    Role {
        can_login,
        is_superuser,
        member_of: names(member_of),
        owns: Ownership::new(),
        privileges: Privileges::new(),
    }
}

#[test]
fn memberships_add_one_and_remove_none() {
    let (add, remove) = diff_grant(names(&["analyst", "engineer"]), names(&["analyst"]));
    assert_eq!(add, names(&["engineer"]));
    assert!(remove.is_empty());
    let sql = plan_memberships("jdoe", &names(&["analyst"]), &names(&["analyst", "engineer"]));
    assert_eq!(sql, names(&["GRANT engineer TO jdoe"]));
}

#[test]
fn memberships_grant_before_revoke() {
    let sql = plan_memberships("jdoe", &names(&["a", "b"]), &names(&["c", "a"]));
    assert_eq!(sql, names(&["GRANT c TO jdoe", "REVOKE b FROM jdoe"]));
}

#[test]
fn schema_write_is_granted_and_nothing_revoked() {
    let mut desired = Privileges::new();
    desired.schemas.read = names(&["finance"]);
    desired.schemas.write = names(&["finance"]);
    let mut current = Privileges::new();
    current.schemas.read = names(&["finance"]);
    let plan = plan_privileges(&desired, &current, &Ownership::new());
    assert_eq!(plan.grants.len(), 1);
    assert_eq!(plan.grants[0].kind, ObjectKind::Schema);
    assert_eq!(plan.grants[0].object, "finance");
    assert_eq!(plan.grants[0].privilege, PrivilegeType::Write);
    assert!(plan.revokes.is_empty());
}

#[test]
fn owned_objects_are_not_diffed() {
    let mut desired = Privileges::new();
    desired.tables.read = names(&["finance.q2", "finance.q3"]);
    let mut current = Privileges::new();
    current.tables.write = names(&["finance.q2", "finance.q4"]);
    let mut owned = Ownership::new();
    owned.tables = names(&["finance.q2"]);
    let plan = plan_privileges(&desired, &current, &owned);
    assert_eq!(plan.grants.len(), 1);
    assert_eq!(plan.grants[0].object, "finance.q3");
    assert_eq!(plan.grants[0].privilege, PrivilegeType::Read);
    assert_eq!(plan.revokes.len(), 1);
    assert_eq!(plan.revokes[0].object, "finance.q4");
    assert_eq!(plan.revokes[0].kind, ObjectKind::Table);
    assert_eq!(plan.revokes[0].privilege, PrivilegeType::Write);
}

#[test]
fn identical_privileges_plan_nothing() {
    let mut p = Privileges::new();
    p.sequences.read = names(&["s.a"]);
    p.schemas.write = names(&["s"]);
    let plan = plan_privileges(&p, &p, &Ownership::new());
    assert!(plan.grants.is_empty() && plan.revokes.is_empty());
}

#[test]
fn attribute_statements_only_for_differences() {
    let desired = role(false, true, &[]);
    assert_eq!(
        plan_attributes("jdoe", true, false, &desired),
        names(&["ALTER ROLE jdoe NOLOGIN", "ALTER ROLE jdoe SUPERUSER"])
    );
    assert!(plan_attributes("jdoe", false, true, &desired).is_empty());
    assert_eq!(
        plan_attributes("jdoe", false, false, &desired),
        names(&["ALTER ROLE jdoe SUPERUSER"])
    );
    assert_eq!(login_statement("a", true), "ALTER ROLE a LOGIN");
    assert_eq!(superuser_statement("a", false), "ALTER ROLE a NOSUPERUSER");
}

#[test]
fn analyzer_collects_statements_from_fake_db() {
    let mut spec = DatabaseSpec::new("fake");
    spec.roles.push(("alice".to_string(), role(true, false, &["analyst"])));
    let mut sql = vec!["-- plan".to_string()];
    role_analyzer(&mut sql, FakeDb {}, &spec).unwrap();
    assert_eq!(
        sql,
        names(&[
            "-- plan",
            "ALTER ROLE alice LOGIN",
            "ALTER ROLE alice NOSUPERUSER",
            "GRANT analyst TO alice"
        ])
    );
}

#[test]
fn privilege_plan_becomes_statements() {
    let mut desired = Privileges::new();
    desired.schemas.read = names(&["finance"]);
    desired.schemas.write = names(&["finance"]);
    desired.tables.write = names(&["finance.q2"]);
    let mut current = Privileges::new();
    current.schemas.read = names(&["finance"]);
    current.sequences.read = names(&["finance.s"]);
    let plan = plan_privileges(&desired, &current, &Ownership::new());
    let sql = privilege_statements("jdoe", &plan);
    assert_eq!(
        sql,
        names(&[
            "GRANT CREATE ON SCHEMA finance TO jdoe",
            "GRANT INSERT ON TABLE finance.q2 TO jdoe",
            "GRANT UPDATE ON TABLE finance.q2 TO jdoe",
            "GRANT DELETE ON TABLE finance.q2 TO jdoe",
            "GRANT TRUNCATE ON TABLE finance.q2 TO jdoe",
            "GRANT TRIGGER ON TABLE finance.q2 TO jdoe",
            "REVOKE SELECT ON SEQUENCE finance.s FROM jdoe",
        ])
    );
}

#[test]
fn ownership_differences_are_reported() {
    let mut desired = Ownership::new();
    desired.schemas = names(&["finance", "reports"]);
    desired.tables = names(&["finance.q2"]);
    let mut current = Ownership::new();
    current.schemas = names(&["finance", "marketing"]);
    let m = ownership_mismatches(&desired, &current);
    assert_eq!(m.missing.schemas, names(&["reports"]));
    assert_eq!(m.missing.tables, names(&["finance.q2"]));
    assert_eq!(m.unexpected.schemas, names(&["marketing"]));
    assert!(m.unexpected.tables.is_empty() && m.missing.sequences.is_empty());
}

#[test]
fn role_plan_orders_capabilities_memberships_privileges() {
    let mut desired = role(true, false, &["analyst", "engineer"]);
    desired.privileges.schemas.write = names(&["finance"]);
    let mut current = role(false, false, &["analyst", "ops"]);
    current.owns.schemas = names(&["finance"]);
    desired.privileges.schemas.read = names(&["reports"]);
    assert_eq!(
        plan_role("jdoe", &desired, &current),
        names(&[
            "ALTER ROLE jdoe LOGIN",
            "GRANT engineer TO jdoe",
            "REVOKE ops FROM jdoe",
            "GRANT USAGE ON SCHEMA reports TO jdoe",
        ])
    );
}

#[test]
fn spec_plan_skips_missing_roles_only() {
    let mut desired = DatabaseSpec::new("postgres");
    desired.roles.push(("ghost".to_string(), role(true, false, &[])));
    desired.roles.push(("jdoe".to_string(), role(true, true, &[])));
    let mut current = DatabaseSpec::new("postgres");
    current.roles.push(("jdoe".to_string(), role(true, false, &[])));
    let plan = plan_spec(&desired, &current);
    assert_eq!(plan.missing_roles, names(&["ghost"]));
    assert_eq!(plan.statements, names(&["ALTER ROLE jdoe SUPERUSER"]));
    assert_eq!(plan.ownership.len(), 1);
    assert_eq!(plan.ownership[0].0, "jdoe");
    let same = plan_spec(&current, &current);
    assert!(same.statements.is_empty() && same.missing_roles.is_empty());
}

#[test]
fn spec_plan_reports_ownership_without_changing_it() {
    let mut wanted = role(true, false, &[]);
    wanted.owns.schemas = names(&["finance"]);
    let mut now = role(true, false, &[]);
    now.owns.tables = names(&["finance.q2"]);
    let mut desired = DatabaseSpec::new("postgres");
    desired.roles.push(("jdoe".to_string(), wanted));
    let mut current = DatabaseSpec::new("postgres");
    current.roles.push(("jdoe".to_string(), now));
    let plan = plan_spec(&desired, &current);
    assert!(plan.statements.is_empty());
    let (name, m) = &plan.ownership[0];
    assert_eq!(name, "jdoe");
    assert_eq!(m.missing.schemas, names(&["finance"]));
    assert_eq!(m.unexpected.tables, names(&["finance.q2"]));
}

#[test]
fn diff_applies_to_privilege_types() {
    let (add, remove) = diff_grant(
        vec![PrivilegeType::Read, PrivilegeType::Write],
        vec![PrivilegeType::Read],
    );
    assert_eq!(add, vec![PrivilegeType::Write]);
    assert!(remove.is_empty());
}
