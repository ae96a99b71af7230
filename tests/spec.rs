use permirust::adapters::fakedb::FakeDb;
use permirust::adapters::postgres::PostgresRoleAttributes;
use permirust::context::{DatabaseObject, ObjectKind, Privilege, PrivilegeType, RoleMembership};
use permirust::generate::{build_spec, generate_spec, GenerateError};
use permirust::spec::{
    parse_bool_word, yes, DatabaseSpec, IsEmpty, Ownership, Privileges, SpecError,
};

fn names(v: &[&str]) -> Vec<String> {
    v.iter().map(|s| s.to_string()).collect()
}

#[test]
fn new_spec_is_empty() {
    let spec = DatabaseSpec::new("postgres");
    assert_eq!(spec.version, 1);
    assert_eq!(spec.adapter, "postgres");
    assert!(spec.roles.is_empty());
    assert!(Ownership::new().is_empty());
    assert!(Privileges::new().is_empty());
    assert!(yes());
}

#[test]
fn add_role_records_flags_and_replaces_same_name() {
    let mut spec = DatabaseSpec::new("postgres");
    spec.add_role("jdoe", &PostgresRoleAttributes::new(false, false));
    spec.add_role("engineer", &PostgresRoleAttributes::new(true, true));
    assert_eq!(spec.roles.len(), 2);
    assert_eq!(spec.roles[0].0, "jdoe");
    assert!(!spec.roles[0].1.can_login);
    assert!(spec.roles[1].1.can_login && spec.roles[1].1.is_superuser);
    spec.add_role("jdoe", &PostgresRoleAttributes::new(true, false));
    assert_eq!(spec.roles.len(), 2);
    assert!(spec.roles[0].1.can_login);
    assert_eq!(spec.find_role("engineer"), Some(1));
    assert_eq!(spec.find_role("nobody"), None);
}

#[test]
fn memberships_of_unknown_role_are_inconsistent() {
    let mut spec = DatabaseSpec::new("postgres");
    let r = spec.add_memberships("ghost", &RoleMembership::new(names(&["analyst"])));
    match r {
        Err(SpecError::InconsistentSnapshot { role }) => assert_eq!(role, "ghost"),
        other => panic!("unexpected {:?}", other),
    }
    assert!(spec.add_defaults("ghost", &[]).is_err());
    spec.add_role("jdoe", &PostgresRoleAttributes::new(true, false));
    spec.add_memberships("jdoe", &RoleMembership::new(names(&["analyst", "engineer"])))
        .unwrap();
    assert_eq!(spec.roles[0].1.member_of, names(&["analyst", "engineer"]));
    assert!(spec.add_defaults("jdoe", &[]).is_ok());
}

#[test]
fn ownerships_go_to_their_kind() {
    let mut spec = DatabaseSpec::new("postgres");
    spec.add_role("analyst", &PostgresRoleAttributes::new(true, false));
    spec.add_ownerships(
        "analyst",
        &[
            DatabaseObject::new(ObjectKind::Schema, "finance".into(), None),
            DatabaseObject::new(ObjectKind::Table, "finance".into(), Some("q2_margin".into())),
            DatabaseObject::new(ObjectKind::Sequence, "reports".into(), Some("seq".into())),
            DatabaseObject::new(ObjectKind::Table, "marketing".into(), Some("ad_spend".into())),
        ],
    )
    .unwrap();
    let owns = &spec.roles[0].1.owns;
    assert_eq!(owns.schemas, names(&["finance"]));
    assert_eq!(owns.tables, names(&["finance.q2_margin", "marketing.ad_spend"]));
    assert_eq!(owns.sequences, names(&["reports.seq"]));
}

#[test]
fn views_are_refused_without_change() {
    let mut spec = DatabaseSpec::new("postgres");
    spec.add_role("analyst", &PostgresRoleAttributes::new(true, false));
    let r = spec.add_ownerships(
        "analyst",
        &[
            DatabaseObject::new(ObjectKind::Schema, "finance".into(), None),
            DatabaseObject::new(ObjectKind::View, "finance".into(), Some("v".into())),
        ],
    );
    assert!(matches!(r, Err(SpecError::UnsupportedObjectKind { kind: ObjectKind::View })));
    assert!(spec.roles[0].1.owns.is_empty());
    let p = Privilege::new(
        DatabaseObject::new(ObjectKind::View, "finance".into(), Some("v".into())),
        vec![PrivilegeType::Read],
    );
    assert!(spec.add_privileges("analyst", &[p]).is_err());
    assert!(spec.roles[0].1.privileges.is_empty());
}

#[test]
fn privileges_go_to_read_and_write_lists() {
    let mut spec = DatabaseSpec::new("postgres");
    spec.add_role("jdoe", &PostgresRoleAttributes::new(true, false));
    spec.add_privileges(
        "jdoe",
        &[
            Privilege::new(
                DatabaseObject::new(ObjectKind::Schema, "finance".into(), None),
                vec![PrivilegeType::Read, PrivilegeType::Write],
            ),
            Privilege::new(
                DatabaseObject::new(ObjectKind::Table, "finance".into(), Some("q2".into())),
                vec![PrivilegeType::Write],
            ),
            Privilege::new(
                DatabaseObject::new(ObjectKind::Sequence, "finance".into(), Some("s".into())),
                vec![PrivilegeType::Read],
            ),
        ],
    )
    .unwrap();
    let p = &spec.roles[0].1.privileges;
    assert_eq!(p.schemas.read, names(&["finance"]));
    assert_eq!(p.schemas.write, names(&["finance"]));
    assert!(p.tables.read.is_empty());
    assert_eq!(p.tables.write, names(&["finance.q2"]));
    assert_eq!(p.sequences.read, names(&["finance.s"]));
    assert!(p.sequences.write.is_empty());
}

#[test]
fn boolean_words() {
    assert_eq!(parse_bool_word("yes"), Some(true));
    assert_eq!(parse_bool_word("true"), Some(true));
    assert_eq!(parse_bool_word("no"), Some(false));
    assert_eq!(parse_bool_word("false"), Some(false));
    assert_eq!(parse_bool_word("maybe"), None);
    assert_eq!(parse_bool_word("Yes"), None);
}

#[test]
fn fake_db_generates_its_roles() {
    let spec = generate_spec(FakeDb {}).unwrap();
    assert_eq!(spec.adapter, "fake_db");
    assert_eq!(spec.version, 1);
    let roles: Vec<&str> = spec.roles.iter().map(|(n, _)| n.as_str()).collect();
    assert_eq!(roles, vec!["alice", "bob", "carol", "analyst", "developer"]);
    assert!(spec.roles[3].1.member_of.is_empty());
    let alice = &spec.roles[0].1;
    assert!(alice.can_login && !alice.is_superuser);
    assert_eq!(alice.member_of, names(&["analyst", "developer"]));
    assert_eq!(alice.owns.schemas, names(&["marketing", "finance"]));
    assert_eq!(alice.owns.tables, names(&["finance.q2_results"]));
    assert_eq!(alice.privileges.schemas.read, names(&["marketing", "finance"]));
    assert_eq!(alice.privileges.schemas.write, names(&["finance"]));
    let bob = &spec.roles[1].1;
    assert_eq!(bob.privileges.tables.write, names(&["finance.q2_results"]));
    assert!(spec.roles[2].1.privileges.tables.write.is_empty());
}

#[test]
fn build_spec_refuses_views() {
    let roles = names(&["a"]);
    let attrs = vec![PostgresRoleAttributes::new(true, false)];
    let memberships = vec![RoleMembership::new(vec![])];
    let owners = vec![vec![DatabaseObject::new(ObjectKind::View, "s".into(), Some("v".into()))]];
    let privs = vec![vec![]];
    let defaults = vec![vec![]];
    let r = build_spec("postgres", &roles, &attrs, &memberships, &owners, &privs, &defaults);
    assert!(matches!(r, Err(SpecError::UnsupportedObjectKind { kind: ObjectKind::View })));
    let ok_owners = vec![vec![]];
    let spec = build_spec("postgres", &roles, &attrs, &memberships, &ok_owners, &privs, &defaults)
        .unwrap();
    assert_eq!(spec.roles.len(), 1);
    let _: Option<GenerateError> = None;
}

#[test]
fn ownership_summary_lists_nonempty_kinds() {
    let mut o = Ownership::new();
    assert_eq!(o.summary(), "");
    o.schemas = names(&["finance", "marketing"]);
    o.sequences = names(&["reports.seq"]);
    assert_eq!(o.summary(), "SC: finance, marketing. SQ: reports.seq. ");
}

#[test]
fn memberships_are_unique_per_parent() {
    let mut spec = DatabaseSpec::new("postgres");
    spec.add_role("jdoe", &PostgresRoleAttributes::new(true, false));
    spec.add_memberships("jdoe", &RoleMembership::new(names(&["analyst", "analyst", "ops"])))
        .unwrap();
    spec.add_memberships("jdoe", &RoleMembership::new(names(&["ops", "engineer"]))).unwrap();
    assert_eq!(spec.roles[0].1.member_of, names(&["analyst", "ops", "engineer"]));
}

#[test]
fn build_spec_refuses_unknown_parents() {
    let roles = names(&["a", "b"]);
    let attrs = vec![PostgresRoleAttributes::new(true, false), PostgresRoleAttributes::new(true, false)];
    let memberships = vec![RoleMembership::new(names(&["b"])), RoleMembership::new(names(&["ghost"]))];
    let owners = vec![vec![], vec![]];
    let privs = vec![vec![], vec![]];
    let defaults = vec![vec![], vec![]];
    let r = build_spec("postgres", &roles, &attrs, &memberships, &owners, &privs, &defaults);
    match r {
        Err(SpecError::InconsistentSnapshot { role }) => assert_eq!(role, "ghost"),
        other => panic!("unexpected {:?}", other),
    }
}
