use permirust::adapters::postgres::{
    attributes_for_role, memberships_for_role, ownerships_for_role, permissions_for_role,
    AttributeRow, GrantRow, MembershipRow, OwnershipRow,
};
use permirust::context::{Attributes, ObjectKind, PrivilegeType, RoleAttribute};

fn grant(grantee: &str, kind: &str, schema: &str, name: Option<&str>, token: &str) -> GrantRow {
    GrantRow {
        grantee: grantee.into(),
        kind: kind.into(),
        schema: schema.into(),
        unqualified_name: name.map(|n| n.to_string()),
        privilege_type: token.into(),
    }
}

#[test]
fn attributes_of_named_role() {
    let rows = vec![
        AttributeRow { name: "jdoe".into(), enabled: false, superuser: false, createdb: false },
        AttributeRow { name: "postgres".into(), enabled: true, superuser: true, createdb: true },
    ];
    let a = attributes_for_role(&rows, "postgres").unwrap();
    assert_eq!(
        a.get_attributes(),
        vec![Attributes::Enabled, Attributes::Superuser, Attributes::CreateDb]
    );
    assert!(attributes_for_role(&rows, "nobody").is_none());
}

#[test]
fn memberships_in_catalog_order() {
    let rows = vec![
        MembershipRow { member: "jdoe".into(), group: "analyst".into() },
        MembershipRow { member: "engineer".into(), group: "analyst".into() },
        MembershipRow { member: "jdoe".into(), group: "engineer".into() },
    ];
    let m = memberships_for_role(&rows, "jdoe");
    assert_eq!(m.memberships, vec!["analyst".to_string(), "engineer".to_string()]);
    assert!(memberships_for_role(&rows, "nobody").memberships.is_empty());
}

#[test]
fn ownerships_of_role() {
    let rows = vec![
        OwnershipRow { kind: "schemas".into(), schema: "reports".into(), unqualified_name: None, owner: "jdoe".into() },
        OwnershipRow { kind: "tables".into(), schema: "finance".into(), unqualified_name: Some("q2".into()), owner: "analyst".into() },
        OwnershipRow { kind: "tables".into(), schema: "reports".into(), unqualified_name: Some("r".into()), owner: "jdoe".into() },
    ];
    let objs = ownerships_for_role(&rows, "jdoe").unwrap();
    assert_eq!(objs.len(), 2);
    assert_eq!(objs[0].kind, ObjectKind::Schema);
    assert_eq!(objs[0].fqn(), "reports");
    assert_eq!(objs[1].fqn(), "reports.r");
    let bad = vec![OwnershipRow { kind: "indexes".into(), schema: "s".into(), unqualified_name: None, owner: "jdoe".into() }];
    assert_eq!(ownerships_for_role(&bad, "jdoe").unwrap_err().word, "indexes");
    assert!(ownerships_for_role(&bad, "other").unwrap().is_empty());
}

#[test]
fn grant_rows_are_grouped_by_object() {
    let rows = vec![
        grant("jdoe", "schemas", "finance", None, "USAGE"),
        grant("jdoe", "tables", "finance", Some("q2"), "SELECT"),
        grant("other", "tables", "finance", Some("q2"), "INSERT"),
        grant("jdoe", "schemas", "finance", None, "CREATE"),
        grant("jdoe", "tables", "finance", Some("q2"), "REFERENCES"),
        grant("jdoe", "sequences", "finance", Some("s"), "USAGE"),
        grant("jdoe", "schemas", "finance", None, "MAINTAIN"),
    ];
    let scan = permissions_for_role(&rows, "jdoe").unwrap();
    assert_eq!(scan.privileges.len(), 3);
    let schema = scan.privileges.iter().find(|p| p.object.fqn() == "finance").unwrap();
    assert_eq!(schema.privs, vec![PrivilegeType::Read, PrivilegeType::Write]);
    let table = scan.privileges.iter().find(|p| p.object.fqn() == "finance.q2").unwrap();
    assert_eq!(table.privs, vec![PrivilegeType::Read]);
    let seq = scan.privileges.iter().find(|p| p.object.fqn() == "finance.s").unwrap();
    assert_eq!(seq.privs, vec![PrivilegeType::Write]);
    assert_eq!(scan.skipped.len(), 1);
    assert_eq!(scan.skipped[0].token, "MAINTAIN");
    assert_eq!(scan.skipped[0].kind, ObjectKind::Schema);
}

#[test]
fn unknown_kind_in_grant_rows_fails() {
    let rows = vec![
        grant("jdoe", "schemas", "finance", None, "USAGE"),
        grant("jdoe", "functions", "finance", Some("f"), "EXECUTE"),
    ];
    assert_eq!(permissions_for_role(&rows, "jdoe").unwrap_err().word, "functions");
    assert_eq!(permissions_for_role(&rows, "other").unwrap().privileges.len(), 0);
}
