use permirust::grants::PostgresObjectType;
use permirust::simple_grants::{DatabaseGrant, GrantType, SimpleGrantError, TableGrant};

#[test]
fn lib_test_table_grant() {
    let grant = TableGrant::new(
        GrantType::Select,
        Some("users".into()),
        "public".into(),
        vec!["user".into()],
        false,
    )
    .unwrap();

    assert_eq!(grant.to_sql(), "GRANT SELECT ON TABLE public.users TO user");
}

#[test]
fn lib_test_table_grant_with_grant_option() {
    let grant = TableGrant::new(
        GrantType::Select,
        Some("users".into()),
        "public".into(),
        vec!["user_1".into(), "user_2".into()],
        true,
    )
    .unwrap();

    assert_eq!(
        grant.to_sql(),
        "GRANT SELECT ON TABLE public.users TO user_1, user_2 WITH GRANT OPTION"
    );
}

#[test]
fn lib_test_database_grant_with_grant_option() {
    let grant = DatabaseGrant::new(
        GrantType::Connect,
        "my_database",
        vec!["user_1", "user_2"],
        true,
    )
    .unwrap();

    assert_eq!(
        grant.to_sql(),
        "GRANT CONNECT ON DATABASE my_database TO user_1, user_2 WITH GRANT OPTION"
    );
}

#[test]
fn lib_test_database_grant_all() {
    let grant = DatabaseGrant::new(GrantType::All, "my_database", vec!["user"], false).unwrap();

    assert_eq!(grant.to_sql(), "GRANT ALL ON DATABASE my_database TO user");
}

#[test]
fn simple_table_grant_to_all_tables() {
    let grant =
        TableGrant::new(GrantType::Select, None, "public".into(), vec!["user".into()], false).unwrap();
    assert_eq!(grant.to_sql(), "GRANT SELECT ON ALL TABLES IN SCHEMA public TO user");
}

#[test]
fn simple_grant_words() {
    assert_eq!(GrantType::Temp.to_postgres_permission(), "TEMP");
    assert_eq!(GrantType::Connect.to_postgres_permission(), "CONNECT");
    let grant = DatabaseGrant::new(GrantType::Temp, "db", vec!["a", "b", "c"], false).unwrap();
    assert_eq!(grant.to_sql(), "GRANT TEMP ON DATABASE db TO a, b, c");
}

#[test]
fn simple_grants_refuse_illegal_words() {
    let db = DatabaseGrant::new(GrantType::Select, "my_database", vec!["user_1", "user_2"], false);
    assert_eq!(
        db.err(),
        Some(SimpleGrantError::InvalidPrivilegeForObjectKind {
            privilege: GrantType::Select,
            object: PostgresObjectType::Database
        })
    );
    let t = TableGrant::new(GrantType::Connect, None, "public".into(), vec!["u".into()], false);
    assert_eq!(
        t.err(),
        Some(SimpleGrantError::InvalidPrivilegeForObjectKind {
            privilege: GrantType::Connect,
            object: PostgresObjectType::Table
        })
    );
    assert!(TableGrant::new(GrantType::Temp, None, "p".into(), vec![], false).is_err());
    assert!(DatabaseGrant::new(GrantType::Delete, "d", vec![], false).is_err());
}
