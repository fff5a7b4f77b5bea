use file_share::router::{HttpMethod, Route};

fn flat(groups: &[Vec<Route>]) -> Vec<(HttpMethod, String, String)> {
    groups
        .iter()
        .flat_map(|g| g.iter().map(|r| (r.method, r.path.clone(), r.handler.clone())))
        .collect()
}

#[test]
fn axum_routes() {
    let groups = file_share::router::axum::routes();
    assert_eq!(groups.len(), 2);
    assert_eq!(groups[0].len(), 9);
    assert_eq!(groups[1].len(), 8);
    let all = flat(&groups);
    assert_eq!(all[0], (HttpMethod::Post, "/user/new".to_string(), "User::new".to_string()));
    assert_eq!(all[3], (HttpMethod::Get, "/user/:id/view".to_string(), "User::view".to_string()));
    assert_eq!(all[14], (HttpMethod::Get, "/tag/tree".to_string(), "Tag::tree".to_string()));
}

#[test]
fn kip_sql_routes() {
    let groups = file_share::router::kip_sql::routes();
    assert_eq!(groups.len(), 2);
    let all = flat(&groups);
    assert_eq!(all.len(), 3);
    assert_eq!(all[2], (HttpMethod::Get, "/bench/kip_sql/user/:id/view".to_string(), "bench::kip_sql_user_view".to_string()));
}

#[test]
fn rbatis_routes() {
    let groups = file_share::router::rbatis::routes();
    assert_eq!(groups.len(), 3);
    assert_eq!(groups[0].len(), 5);
    assert_eq!(groups[1].len(), 5);
    assert_eq!(groups[2].len(), 1);
    let all = flat(&groups);
    assert_eq!(all[1], (HttpMethod::Post, "/user/:id/delete".to_string(), "User::delete".to_string()));
    assert_eq!(all[10], (HttpMethod::Get, "/bench/rbatis/user/:id/view".to_string(), "bench::rbatis_user_view".to_string()));
}
