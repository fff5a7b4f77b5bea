//! Routes of the Rbatis-backed user-and-tag service.

use vstd::prelude::*;
use crate::router::{HttpMethod, Route, route, table_view, dispatch, handler_in};

verus! {
/// The routes: the user endpoints, then the tag endpoints, then the benchmark endpoint.
pub open spec fn route_table() -> Seq<Seq<(HttpMethod, Seq<char>, Seq<char>)>> {
    seq![
        seq![
            (HttpMethod::Post, "/user/new"@, "user::new"@),
            (HttpMethod::Post, "/user/:id/delete"@, "User::delete"@),
            (HttpMethod::Post, "/user/:id/update"@, "User::update"@),
            (HttpMethod::Get, "/user/:id/view"@, "user::view"@),
            (HttpMethod::Get, "/user/list"@, "User::list"@),
        ],
        seq![
            (HttpMethod::Post, "/tag/new"@, "Tag::new"@),
            (HttpMethod::Post, "/tag/:id/delete"@, "Tag::delete"@),
            (HttpMethod::Post, "/tag/:id/update"@, "Tag::update"@),
            (HttpMethod::Get, "/tag/:id/view"@, "Tag::view"@),
            (HttpMethod::Get, "/tag/list"@, "Tag::list"@),
        ],
        seq![
            (HttpMethod::Get, "/bench/rbatis/user/:id/view"@, "bench::rbatis_user_view"@),
        ],
    ]
}

/// The service's route table.
pub fn routes() -> (res: Vec<Vec<Route>>)
    ensures
        table_view(res@) == route_table(),
{
    let mut routes: Vec<Vec<Route>> = Vec::new();

    let mut group: Vec<Route> = Vec::new();
    group.push(route(HttpMethod::Post, "/user/new", "user::new"));
    group.push(route(HttpMethod::Post, "/user/:id/delete", "User::delete"));
    group.push(route(HttpMethod::Post, "/user/:id/update", "User::update"));
    group.push(route(HttpMethod::Get, "/user/:id/view", "user::view"));
    group.push(route(HttpMethod::Get, "/user/list", "User::list"));
    routes.push(group);

    let mut group: Vec<Route> = Vec::new();
    group.push(route(HttpMethod::Post, "/tag/new", "Tag::new"));
    group.push(route(HttpMethod::Post, "/tag/:id/delete", "Tag::delete"));
    group.push(route(HttpMethod::Post, "/tag/:id/update", "Tag::update"));
    group.push(route(HttpMethod::Get, "/tag/:id/view", "Tag::view"));
    group.push(route(HttpMethod::Get, "/tag/list", "Tag::list"));
    routes.push(group);

    let mut group: Vec<Route> = Vec::new();
    group.push(route(HttpMethod::Get, "/bench/rbatis/user/:id/view", "bench::rbatis_user_view"));
    routes.push(group);

    assert(table_view(routes@)[0] =~= route_table()[0]);
    assert(table_view(routes@)[1] =~= route_table()[1]);
    assert(table_view(routes@)[2] =~= route_table()[2]);
    assert(table_view(routes@) =~= route_table());
    routes
}

/// Law: the service sends each request to the handler its method and path name,
/// as listed below; any other method and path to no handler.
pub proof fn rbatis_dispatch(method: HttpMethod, path: Seq<char>)
    ensures
        dispatch(route_table(), method, path) == if method == HttpMethod::Post && path == "/user/new"@ {
            Some("user::new"@)
        } else if method == HttpMethod::Post && path == "/user/:id/delete"@ {
            Some("User::delete"@)
        } else if method == HttpMethod::Post && path == "/user/:id/update"@ {
            Some("User::update"@)
        } else if method == HttpMethod::Get && path == "/user/:id/view"@ {
            Some("user::view"@)
        } else if method == HttpMethod::Get && path == "/user/list"@ {
            Some("User::list"@)
        } else if method == HttpMethod::Post && path == "/tag/new"@ {
            Some("Tag::new"@)
        } else if method == HttpMethod::Post && path == "/tag/:id/delete"@ {
            Some("Tag::delete"@)
        } else if method == HttpMethod::Post && path == "/tag/:id/update"@ {
            Some("Tag::update"@)
        } else if method == HttpMethod::Get && path == "/tag/:id/view"@ {
            Some("Tag::view"@)
        } else if method == HttpMethod::Get && path == "/tag/list"@ {
            Some("Tag::list"@)
        } else if method == HttpMethod::Get && path == "/bench/rbatis/user/:id/view"@ {
            Some("bench::rbatis_user_view"@)
        } else {
            None
        },
{
    reveal_with_fuel(dispatch, 4);
    reveal_with_fuel(handler_in, 6);
    let t = route_table();
    assert(t[0].drop_first() =~= seq![t[0][1], t[0][2], t[0][3], t[0][4]]);
    assert(t[0].drop_first().drop_first() =~= seq![t[0][2], t[0][3], t[0][4]]);
    assert(t[0].drop_first().drop_first().drop_first() =~= seq![t[0][3], t[0][4]]);
    assert(t[0].drop_first().drop_first().drop_first().drop_first() =~= seq![t[0][4]]);
    assert(t[0].drop_first().drop_first().drop_first().drop_first().drop_first().len() == 0);
    assert(t[1].drop_first() =~= seq![t[1][1], t[1][2], t[1][3], t[1][4]]);
    assert(t[1].drop_first().drop_first() =~= seq![t[1][2], t[1][3], t[1][4]]);
    assert(t[1].drop_first().drop_first().drop_first() =~= seq![t[1][3], t[1][4]]);
    assert(t[1].drop_first().drop_first().drop_first().drop_first() =~= seq![t[1][4]]);
    assert(t[1].drop_first().drop_first().drop_first().drop_first().drop_first().len() == 0);
    assert(t[2].drop_first().len() == 0);
    assert(t.drop_first() =~= seq![t[1], t[2]]);
    assert(t.drop_first().drop_first() =~= seq![t[2]]);
    assert(t.drop_first().drop_first().drop_first().len() == 0);
}

} // verus!
