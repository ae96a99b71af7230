use permirust::context::{
    Attributes, DatabaseObject, ObjectKind, Privilege, PrivilegeType, RoleAttribute,
    RoleMembership,
};
use permirust::adapters::postgres::PostgresRoleAttributes;

#[test]
fn usage_means_read_on_schema_and_write_on_sequence() {
    assert_eq!(ObjectKind::Schema.to_privilege("USAGE").unwrap(), PrivilegeType::Read);
    assert_eq!(ObjectKind::Sequence.to_privilege("USAGE").unwrap(), PrivilegeType::Write);
    assert_eq!(ObjectKind::Schema.to_privilege("CREATE").unwrap(), PrivilegeType::Write);
}

#[test]
fn table_and_view_tokens_map() {
    for kind in [ObjectKind::Table, ObjectKind::View] {
        for t in ["SELECT", "REFERENCES"] {
            assert_eq!(kind.to_privilege(t).unwrap(), PrivilegeType::Read);
        }
        for t in ["INSERT", "UPDATE", "DELETE", "TRUNCATE", "TRIGGER"] {
            assert_eq!(kind.to_privilege(t).unwrap(), PrivilegeType::Write);
        }
    }
    assert_eq!(ObjectKind::Sequence.to_privilege("SELECT").unwrap(), PrivilegeType::Read);
    assert_eq!(ObjectKind::Sequence.to_privilege("UPDATE").unwrap(), PrivilegeType::Write);
}

#[test]
fn mapping_is_the_same_on_every_call() {
    for _ in 0..3 {
        assert_eq!(ObjectKind::Table.to_privilege("SELECT").unwrap(), PrivilegeType::Read);
        assert_eq!(ObjectKind::Sequence.to_privilege("USAGE").unwrap(), PrivilegeType::Write);
    }
}

#[test]
fn unknown_token_is_reported_with_kind() {
    let e = ObjectKind::Schema.to_privilege("SELECT").unwrap_err();
    assert_eq!(e.token, "SELECT");
    assert_eq!(e.kind, ObjectKind::Schema);
    let e = ObjectKind::Table.to_privilege("select").unwrap_err();
    assert_eq!(e.token, "select");
    assert_eq!(e.kind, ObjectKind::Table);
    assert!(ObjectKind::Sequence.to_privilege("").is_err());
}

#[test]
fn kind_words_parse() {
    assert_eq!(ObjectKind::parse("schemas").unwrap(), ObjectKind::Schema);
    assert_eq!(ObjectKind::parse("tables").unwrap(), ObjectKind::Table);
    assert_eq!(ObjectKind::parse("views").unwrap(), ObjectKind::View);
    assert_eq!(ObjectKind::parse("sequences").unwrap(), ObjectKind::Sequence);
    assert_eq!(ObjectKind::parse("indexes").unwrap_err().word, "indexes");
    assert_eq!(ObjectKind::Sequence.name(), "sequence");
}

#[test]
fn fully_qualified_names() {
    let t = DatabaseObject::new(ObjectKind::Table, "finance".into(), Some("q2".into()));
    assert_eq!(t.fqn(), "finance.q2");
    let s = DatabaseObject::new(ObjectKind::Schema, "finance".into(), None);
    assert_eq!(s.fqn(), "finance");
    assert!(t.same_object(&t.clone()));
    assert!(!t.same_object(&s));
}

#[test]
fn privilege_sets_drop_repeats() {
    let o = DatabaseObject::new(ObjectKind::Schema, "finance".into(), None);
    let p = Privilege::new(
        o,
        vec![PrivilegeType::Read, PrivilegeType::Write, PrivilegeType::Read],
    );
    assert_eq!(p.privs, vec![PrivilegeType::Read, PrivilegeType::Write]);
}

#[test]
fn role_attributes_report_flags() {
    let a = PostgresRoleAttributes::new(true, true);
    assert_eq!(a.get_attributes(), vec![Attributes::Enabled, Attributes::Superuser]);
    assert!(a.is_enabled());
    let b = PostgresRoleAttributes::from_catalog(false, false, true);
    assert_eq!(b.get_attributes(), vec![Attributes::CreateDb]);
    assert!(!b.is_enabled());
    let m = RoleMembership::new(vec!["analyst".into()]);
    assert_eq!(m.memberships, vec!["analyst".to_string()]);
}
