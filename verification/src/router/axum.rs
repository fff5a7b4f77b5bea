//! Routes of the user-and-tag service built on the default controllers.

use vstd::prelude::*;
use crate::router::{HttpMethod, Route, route, table_view, dispatch, handler_in};

verus! {
/// The routes: the user endpoints, then the tag endpoints.
pub open spec fn route_table() -> Seq<Seq<(HttpMethod, Seq<char>, Seq<char>)>> {
    seq![
        seq![
            (HttpMethod::Post, "/user/new"@, "User::new"@),
            (HttpMethod::Post, "/user/:id/delete"@, "User::soft_delete"@),
            (HttpMethod::Post, "/user/:id/update"@, "User::update"@),
            (HttpMethod::Get, "/user/:id/view"@, "User::view"@),
            (HttpMethod::Get, "/user/list"@, "User::list"@),
            (HttpMethod::Post, "/user/import"@, "User::import"@),
            (HttpMethod::Get, "/user/export"@, "User::export"@),
            (HttpMethod::Get, "/user/schema"@, "User::schema"@),
            (HttpMethod::Get, "/user/definition"@, "User::definition"@),
        ],
        seq![
            (HttpMethod::Post, "/tag/new"@, "Tag::new"@),
            (HttpMethod::Post, "/tag/:id/delete"@, "Tag::soft_delete"@),
            (HttpMethod::Post, "/tag/:id/update"@, "Tag::update"@),
            (HttpMethod::Get, "/tag/:id/view"@, "Tag::view"@),
            (HttpMethod::Get, "/tag/list"@, "Tag::list"@),
            (HttpMethod::Get, "/tag/tree"@, "Tag::tree"@),
            (HttpMethod::Get, "/tag/schema"@, "Tag::schema"@),
            (HttpMethod::Get, "/tag/definition"@, "Tag::definition"@),
        ],
    ]
}

/// The service's route table.
pub fn routes() -> (res: Vec<Vec<Route>>)
    ensures
        table_view(res@) == route_table(),
{
    let mut routes: Vec<Vec<Route>> = Vec::new();

    let mut group: Vec<Route> = Vec::new();
    group.push(route(HttpMethod::Post, "/user/new", "User::new"));
    group.push(route(HttpMethod::Post, "/user/:id/delete", "User::soft_delete"));
    group.push(route(HttpMethod::Post, "/user/:id/update", "User::update"));
    group.push(route(HttpMethod::Get, "/user/:id/view", "User::view"));
    group.push(route(HttpMethod::Get, "/user/list", "User::list"));
    group.push(route(HttpMethod::Post, "/user/import", "User::import"));
    group.push(route(HttpMethod::Get, "/user/export", "User::export"));
    group.push(route(HttpMethod::Get, "/user/schema", "User::schema"));
    group.push(route(HttpMethod::Get, "/user/definition", "User::definition"));
    routes.push(group);

    let mut group: Vec<Route> = Vec::new();
    group.push(route(HttpMethod::Post, "/tag/new", "Tag::new"));
    group.push(route(HttpMethod::Post, "/tag/:id/delete", "Tag::soft_delete"));
    group.push(route(HttpMethod::Post, "/tag/:id/update", "Tag::update"));
    group.push(route(HttpMethod::Get, "/tag/:id/view", "Tag::view"));
    group.push(route(HttpMethod::Get, "/tag/list", "Tag::list"));
    group.push(route(HttpMethod::Get, "/tag/tree", "Tag::tree"));
    group.push(route(HttpMethod::Get, "/tag/schema", "Tag::schema"));
    group.push(route(HttpMethod::Get, "/tag/definition", "Tag::definition"));
    routes.push(group);

    assert(table_view(routes@)[0] =~= route_table()[0]);
    assert(table_view(routes@)[1] =~= route_table()[1]);
    assert(table_view(routes@) =~= route_table());
    routes
}

/// Law: the service sends each request to the handler its method and path name
/// (the user endpoints to `User`'s handlers, the tag endpoints to `Tag`'s), as
/// listed below; any other method and path to no handler.
pub proof fn axum_dispatch(method: HttpMethod, path: Seq<char>)
    ensures
        dispatch(route_table(), method, path) == if method == HttpMethod::Post && path == "/user/new"@ {
            Some("User::new"@)
        } else if method == HttpMethod::Post && path == "/user/:id/delete"@ {
            Some("User::soft_delete"@)
        } else if method == HttpMethod::Post && path == "/user/:id/update"@ {
            Some("User::update"@)
        } else if method == HttpMethod::Get && path == "/user/:id/view"@ {
            Some("User::view"@)
        } else if method == HttpMethod::Get && path == "/user/list"@ {
            Some("User::list"@)
        } else if method == HttpMethod::Post && path == "/user/import"@ {
            Some("User::import"@)
        } else if method == HttpMethod::Get && path == "/user/export"@ {
            Some("User::export"@)
        } else if method == HttpMethod::Get && path == "/user/schema"@ {
            Some("User::schema"@)
        } else if method == HttpMethod::Get && path == "/user/definition"@ {
            Some("User::definition"@)
        } else if method == HttpMethod::Post && path == "/tag/new"@ {
            Some("Tag::new"@)
        } else if method == HttpMethod::Post && path == "/tag/:id/delete"@ {
            Some("Tag::soft_delete"@)
        } else if method == HttpMethod::Post && path == "/tag/:id/update"@ {
            Some("Tag::update"@)
        } else if method == HttpMethod::Get && path == "/tag/:id/view"@ {
            Some("Tag::view"@)
        } else if method == HttpMethod::Get && path == "/tag/list"@ {
            Some("Tag::list"@)
        } else if method == HttpMethod::Get && path == "/tag/tree"@ {
            Some("Tag::tree"@)
        } else if method == HttpMethod::Get && path == "/tag/schema"@ {
            Some("Tag::schema"@)
        } else if method == HttpMethod::Get && path == "/tag/definition"@ {
            Some("Tag::definition"@)
        } else {
            None
        },
{
    reveal_with_fuel(dispatch, 3);
    reveal_with_fuel(handler_in, 10);
    let t = route_table();
    assert(t[0].drop_first() =~= seq![t[0][1], t[0][2], t[0][3], t[0][4], t[0][5], t[0][6], t[0][7], t[0][8]]);
    assert(t[0].drop_first().drop_first() =~= seq![t[0][2], t[0][3], t[0][4], t[0][5], t[0][6], t[0][7], t[0][8]]);
    assert(t[0].drop_first().drop_first().drop_first() =~= seq![t[0][3], t[0][4], t[0][5], t[0][6], t[0][7], t[0][8]]);
    assert(t[0].drop_first().drop_first().drop_first().drop_first() =~= seq![t[0][4], t[0][5], t[0][6], t[0][7], t[0][8]]);
    assert(t[0].drop_first().drop_first().drop_first().drop_first().drop_first() =~= seq![t[0][5], t[0][6], t[0][7], t[0][8]]);
    assert(t[0].drop_first().drop_first().drop_first().drop_first().drop_first().drop_first() =~= seq![t[0][6], t[0][7], t[0][8]]);
    assert(t[0].drop_first().drop_first().drop_first().drop_first().drop_first().drop_first().drop_first() =~= seq![t[0][7], t[0][8]]);
    assert(t[0].drop_first().drop_first().drop_first().drop_first().drop_first().drop_first().drop_first().drop_first() =~= seq![t[0][8]]);
    assert(t[0].drop_first().drop_first().drop_first().drop_first().drop_first().drop_first().drop_first().drop_first().drop_first().len() == 0);
    assert(t[1].drop_first() =~= seq![t[1][1], t[1][2], t[1][3], t[1][4], t[1][5], t[1][6], t[1][7]]);
    assert(t[1].drop_first().drop_first() =~= seq![t[1][2], t[1][3], t[1][4], t[1][5], t[1][6], t[1][7]]);
    assert(t[1].drop_first().drop_first().drop_first() =~= seq![t[1][3], t[1][4], t[1][5], t[1][6], t[1][7]]);
    assert(t[1].drop_first().drop_first().drop_first().drop_first() =~= seq![t[1][4], t[1][5], t[1][6], t[1][7]]);
    assert(t[1].drop_first().drop_first().drop_first().drop_first().drop_first() =~= seq![t[1][5], t[1][6], t[1][7]]);
    assert(t[1].drop_first().drop_first().drop_first().drop_first().drop_first().drop_first() =~= seq![t[1][6], t[1][7]]);
    assert(t[1].drop_first().drop_first().drop_first().drop_first().drop_first().drop_first().drop_first() =~= seq![t[1][7]]);
    assert(t[1].drop_first().drop_first().drop_first().drop_first().drop_first().drop_first().drop_first().drop_first().len() == 0);
    assert(t.drop_first() =~= seq![t[1]]);
    assert(t.drop_first().drop_first().len() == 0);
}

} // verus!
