use file_share::sql::{fetch_by_id_sql, into_insert_sql, user_view_sql, User};

#[test]
fn insert_leaves_out_empty_values() {
    let sql = into_insert_sql(
        "users",
        vec![("id", "1".to_string()), ("name", String::new()), ("status", "'active'".to_string())],
    );
    assert_eq!(sql, "INSERT INTO users (id, status) VALUES (1, 'active');");
}

#[test]
fn insert_with_nothing() {
    assert_eq!(into_insert_sql("t", vec![]), "INSERT INTO t () VALUES ();");
    assert_eq!(into_insert_sql("t", vec![("a", String::new())]), "INSERT INTO t () VALUES ();");
}

#[test]
fn user_insert() {
    let user = User { id: -12, name: "bob".to_string(), status: String::new(), description: "x".to_string() };
    assert_eq!(user.insert_sql(), "INSERT INTO users (id, name, description) VALUES (-12, bob, x);");
    let empty = User::default();
    assert_eq!(empty.insert_sql(), "INSERT INTO users (id) VALUES (0);");
}

#[test]
fn queries() {
    assert_eq!(fetch_by_id_sql(7), "select * from users where id = 7");
    assert_eq!(user_view_sql(i64::MIN), "SELECT * FROM users WHERE id = -9223372036854775808;");
    assert_eq!(user_view_sql(i64::MAX), "SELECT * FROM users WHERE id = 9223372036854775807;");
}

#[test]
fn user_from_row() {
    let u = User::from_row(Some(3), Some("n".to_string()), None, Some("d".to_string()));
    assert_eq!(u.id, 3);
    assert_eq!(u.name, "n");
    assert_eq!(u.status, "");
    assert_eq!(u.description, "d");
    let e = User::from_row(None, None, None, None);
    assert_eq!(e.id, 0);
    assert!(e.name.is_empty());
}

#[test]
fn empty_column_anywhere_changes_nothing() {
    let base = vec![("id", "1".to_string()), ("name", "'a'".to_string())];
    let expected = into_insert_sql("users", base.clone());
    for k in 0..=base.len() {
        let mut with_empty = base.clone();
        with_empty.insert(k, ("status", String::new()));
        assert_eq!(into_insert_sql("users", with_empty), expected);
    }
}
