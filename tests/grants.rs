use permirust::grants::{
    DatabaseGrant, DomainGrant, GrantError, PostgresObjectType, PostgresPrivileges, RoleGrant,
    SchemaGrant, SequenceGrant, Sql, TableGrant,
};

#[test]
fn test_database_grants_connect() {
    let grant = DatabaseGrant::new(
        PostgresPrivileges::Connect,
        "my_database".into(),
        vec!["user_1".into(), "user_2".into()],
        false,
    );

    assert_eq!(
        Sql::from(grant.unwrap()),
        "GRANT CONNECT ON DATABASE my_database TO user_1, user_2"
    );
}

#[test]
fn grants_test_database_grant_with_grant_option() {
    let grant = DatabaseGrant::new(
        PostgresPrivileges::Connect,
        "my_database".into(),
        vec!["user_1".into(), "user_2".into()],
        true,
    );

    assert_eq!(
        Sql::from(grant.unwrap()),
        "GRANT CONNECT ON DATABASE my_database TO user_1, user_2 WITH GRANT OPTION"
    );
}

#[test]
fn grants_test_database_grant_all() {
    let grant = DatabaseGrant::new(
        PostgresPrivileges::All,
        "my_database".into(),
        vec!["user".into()],
        false,
    );

    assert_eq!(
        Sql::from(grant.unwrap()),
        "GRANT ALL PRIVILEGES ON DATABASE my_database TO user"
    );
}

#[test]
fn test_database_invalid_grant() {
    let grant = DatabaseGrant::new(
        PostgresPrivileges::Insert,
        "my_database".into(),
        vec!["user".into()],
        false,
    );

    assert!(grant.is_err())
}

#[test]
fn grants_test_table_grant() {
    let grant = TableGrant::new(
        PostgresPrivileges::Select,
        Some("users".to_string()),
        "public".to_string(),
        vec!["user".to_string()],
        false,
    );

    assert_eq!(
        Sql::from(grant.unwrap()),
        "GRANT SELECT ON TABLE public.users TO user"
    );
}

#[test]
fn test_table_grant_select_to_all() {
    let grant = TableGrant::new(
        PostgresPrivileges::Select,
        None,
        "public".into(),
        vec!["user".into()],
        false,
    );

    assert_eq!(
        Sql::from(grant.unwrap()),
        "GRANT SELECT ON ALL TABLES IN SCHEMA public TO user"
    );
}

#[test]
fn grants_test_table_grant_with_grant_option() {
    let grant = TableGrant::new(
        PostgresPrivileges::Select,
        Some("users".to_string()),
        "public".to_string(),
        vec!["user_1".into(), "user_2".into()],
        true,
    );
    assert_eq!(
        Sql::from(grant.unwrap()),
        "GRANT SELECT ON TABLE public.users TO user_1, user_2 WITH GRANT OPTION"
    );
}

#[test]
fn test_sequence_grant() {
    let grant = SequenceGrant::new(
        PostgresPrivileges::Select,
        Some("users".to_string()),
        "public".to_string(),
        vec!["user".to_string()],
        false,
    );

    assert_eq!(
        Sql::from(grant.unwrap()),
        "GRANT SELECT ON SEQUENCE public.users TO user"
    );
}

#[test]
fn test_sequence_grant_select_to_all() {
    let grant = SequenceGrant::new(
        PostgresPrivileges::Select,
        None,
        "public".into(),
        vec!["user".into()],
        false,
    );

    assert_eq!(
        Sql::from(grant.unwrap()),
        "GRANT SELECT ON ALL SEQUENCES IN SCHEMA public TO user"
    );
}

#[test]
fn test_domain_grant() {
    let grant = DomainGrant::new(
        PostgresPrivileges::Usage,
        "users".to_string(),
        "public".to_string(),
        vec!["user".to_string()],
        false,
    );

    assert_eq!(
        Sql::from(grant.unwrap()),
        "GRANT USAGE ON DOMAIN public.users TO user"
    );
}

const ALL_PRIVILEGES: [PostgresPrivileges; 15] = [
    PostgresPrivileges::AlterSystem,
    PostgresPrivileges::Connect,
    PostgresPrivileges::Create,
    PostgresPrivileges::Delete,
    PostgresPrivileges::Execute,
    PostgresPrivileges::Insert,
    PostgresPrivileges::References,
    PostgresPrivileges::Select,
    PostgresPrivileges::SetParameter,
    PostgresPrivileges::Temporary,
    PostgresPrivileges::Trigger,
    PostgresPrivileges::Truncate,
    PostgresPrivileges::Update,
    PostgresPrivileges::Usage,
    PostgresPrivileges::All,
];

#[test]
fn table_grant_accepts_exactly_its_legal_set() {
    let legal = [
        PostgresPrivileges::Select,
        PostgresPrivileges::Insert,
        PostgresPrivileges::Update,
        PostgresPrivileges::Delete,
        PostgresPrivileges::Truncate,
        PostgresPrivileges::References,
        PostgresPrivileges::Trigger,
        PostgresPrivileges::All,
    ];
    for p in ALL_PRIVILEGES {
        let g = TableGrant::new(p, Some("t".into()), "s".into(), vec!["r".into()], false);
        if legal.contains(&p) {
            let sql = g.unwrap().to_sql();
            assert!(sql.contains(p.keyword()));
            assert!(sql.contains("s.t"));
        } else {
            assert_eq!(
                g.unwrap_err(),
                GrantError::InvalidPrivilegeForObjectKind {
                    privilege: p,
                    object: PostgresObjectType::Table
                }
            );
        }
    }
}

#[test]
fn sequence_and_domain_grants_accept_exactly_their_legal_sets() {
    for p in ALL_PRIVILEGES {
        let seq_ok = matches!(
            p,
            PostgresPrivileges::Usage
                | PostgresPrivileges::Select
                | PostgresPrivileges::Update
                | PostgresPrivileges::All
        );
        let s = SequenceGrant::new(p, Some("q".into()), "s".into(), vec!["r".into()], false);
        assert_eq!(s.is_ok(), seq_ok);
        if let Ok(g) = s {
            let sql = g.to_sql();
            assert!(sql.contains(p.keyword()) && sql.contains("s.q"));
        }
        let dom_ok = matches!(p, PostgresPrivileges::Usage | PostgresPrivileges::All);
        let d = DomainGrant::new(p, "d".into(), "s".into(), vec!["r".into()], false);
        assert_eq!(d.is_ok(), dom_ok);
        let db_ok = matches!(
            p,
            PostgresPrivileges::Connect
                | PostgresPrivileges::Create
                | PostgresPrivileges::Temporary
                | PostgresPrivileges::All
        );
        assert_eq!(
            DatabaseGrant::new(p, "db".into(), vec!["r".into()], false).is_ok(),
            db_ok
        );
        let schema_ok = matches!(
            p,
            PostgresPrivileges::Create | PostgresPrivileges::Usage | PostgresPrivileges::All
        );
        assert_eq!(
            SchemaGrant::new(p, "s".into(), vec!["r".into()], false).is_ok(),
            schema_ok
        );
    }
}

#[test]
fn schema_grant_renders() {
    let g = SchemaGrant::new(
        PostgresPrivileges::Usage,
        "finance".into(),
        vec!["analyst".into()],
        true,
    )
    .unwrap();
    assert_eq!(
        g.to_sql(),
        "GRANT USAGE ON SCHEMA finance TO analyst WITH GRANT OPTION"
    );
    assert_eq!(g.to_revoke_sql(), "REVOKE USAGE ON SCHEMA finance FROM analyst");
}

#[test]
fn revokes_mirror_grants_without_option() {
    let t = TableGrant::new(
        PostgresPrivileges::Insert,
        Some("users".into()),
        "public".into(),
        vec!["a".into(), "b".into()],
        true,
    )
    .unwrap();
    assert_eq!(t.to_revoke_sql(), "REVOKE INSERT ON TABLE public.users FROM a, b");
    let q = SequenceGrant::new(
        PostgresPrivileges::Usage,
        None,
        "public".into(),
        vec!["a".into()],
        false,
    )
    .unwrap();
    assert_eq!(
        q.to_revoke_sql(),
        "REVOKE USAGE ON ALL SEQUENCES IN SCHEMA public FROM a"
    );
    let d = DatabaseGrant::new(PostgresPrivileges::Temporary, "db".into(), vec!["a".into()], false)
        .unwrap();
    assert_eq!(d.to_revoke_sql(), "REVOKE TEMPORARY ON DATABASE db FROM a");
    let m = DomainGrant::new(PostgresPrivileges::All, "money".into(), "fin".into(), vec!["a".into()], false)
        .unwrap();
    assert_eq!(m.to_revoke_sql(), "REVOKE ALL PRIVILEGES ON DOMAIN fin.money FROM a");
}

#[test]
fn role_grant_renders_membership() {
    let g = RoleGrant::new("analyst".into(), vec!["jdoe".into(), "amy".into()], true);
    assert_eq!(Sql::from(g.clone()), "GRANT analyst TO ROLE jdoe, amy WITH ADMIN OPTION");
    assert_eq!(g.to_revoke_sql(), "REVOKE analyst FROM jdoe, amy");
    let plain = RoleGrant::new("analyst".into(), vec!["jdoe".into()], false);
    assert_eq!(plain.to_sql(), "GRANT analyst TO ROLE jdoe");
}

#[test]
fn empty_grantee_list_renders_nothing_after_to() {
    let g = DatabaseGrant::new(PostgresPrivileges::Connect, "db".into(), vec![], false).unwrap();
    assert_eq!(g.to_sql(), "GRANT CONNECT ON DATABASE db TO ");
}

#[test]
fn object_types_parse_from_their_keywords() {
    let all = [
        PostgresObjectType::Database,
        PostgresObjectType::ForeignDataWrapper,
        PostgresObjectType::ForeignServer,
        PostgresObjectType::Function,
        PostgresObjectType::Procedure,
        PostgresObjectType::Role,
        PostgresObjectType::Schema,
        PostgresObjectType::Sequence,
        PostgresObjectType::Table,
        PostgresObjectType::Type,
        PostgresObjectType::View,
    ];
    for t in all {
        assert_eq!(PostgresObjectType::parse(t.keyword()), Some(t));
        assert_eq!(t.keyword().parse::<PostgresObjectType>(), Ok(t));
    }
    assert_eq!(PostgresObjectType::parse("FOREIGN DATA WRAPPER"), Some(PostgresObjectType::ForeignDataWrapper));
    assert_eq!(
        "INDEX".parse::<PostgresObjectType>(),
        Err("Unknown object type: INDEX".to_string())
    );
}

#[test]
fn privilege_keywords() {
    assert_eq!(PostgresPrivileges::AlterSystem.keyword(), "ALTER SYSTEM");
    assert_eq!(PostgresPrivileges::SetParameter.keyword(), "SET");
    assert_eq!(PostgresPrivileges::All.keyword(), "ALL PRIVILEGES");
}
