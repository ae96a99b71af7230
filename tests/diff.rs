use permirust::diff::diff_grant;
use permirust::grants::{PostgresPrivileges, TableGrant};

fn table_grant(p: PostgresPrivileges) -> TableGrant {
    TableGrant::new(
        p,
        Some("table1".into()),
        "public".into(),
        vec!["user1".into()],
        false,
    )
    .unwrap()
}

#[test]
fn test_diff_grants() {
    let select = table_grant(PostgresPrivileges::Select);
    let insert = table_grant(PostgresPrivileges::Insert);
    let update = table_grant(PostgresPrivileges::Update);
    let delete = table_grant(PostgresPrivileges::Delete);

    let new_grants = vec![select.clone(), insert.clone(), update.clone()];

    let old_grants = vec![insert.clone(), delete.clone()];

    let grants_to_add = vec![select, update];

    let grants_to_remove = vec![delete];

    let (res_add, res_remove) = diff_grant(new_grants, old_grants);
    assert_eq!(res_add, grants_to_add);
    assert_eq!(res_remove, grants_to_remove);
}

#[test]
fn test_diff_grants_all_on_empty_old_grants() {
    let select = table_grant(PostgresPrivileges::Select);

    let new_grant = vec![select.clone()];

    let res_add = diff_grant(new_grant.clone(), vec![]);
    assert_eq!(new_grant, res_add.0);
}

fn names(v: &[&str]) -> Vec<String> {
    v.iter().map(|s| s.to_string()).collect()
}

#[test]
fn diff_laws_on_names() {
    let d = names(&["a", "b", "c", "b"]);
    let c = names(&["b", "d"]);
    let (add, remove) = diff_grant(d.clone(), c.clone());
    assert_eq!(add, names(&["a", "c"]));
    assert_eq!(remove, names(&["d"]));
    assert!(add.iter().all(|x| !c.contains(x)));
    assert!(remove.iter().all(|x| !d.contains(x)));

    let (same_add, same_remove) = diff_grant(d.clone(), d.clone());
    assert!(same_add.is_empty() && same_remove.is_empty());

    let (all_add, none_remove) = diff_grant(d.clone(), vec![]);
    assert_eq!(all_add, d);
    assert!(none_remove.is_empty());

    let (none_add, all_remove) = diff_grant(vec![], c.clone());
    assert!(none_add.is_empty());
    assert_eq!(all_remove, c);
}
