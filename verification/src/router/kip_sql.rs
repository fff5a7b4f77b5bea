//! Routes of the KipSQL-backed user service.

use vstd::prelude::*;
use crate::router::{HttpMethod, Route, route, table_view, dispatch, handler_in};

verus! {

/// The routes: the user endpoints, then the benchmark endpoint.
pub open spec fn route_table() -> Seq<Seq<(HttpMethod, Seq<char>, Seq<char>)>> {
    seq![
        seq![
            (HttpMethod::Post, "/user/new"@, "user::new"@),
            (HttpMethod::Get, "/user/:id/view"@, "user::view"@),
        ],
        seq![(HttpMethod::Get, "/bench/kip_sql/user/:id/view"@, "bench::kip_sql_user_view"@)],
    ]
}

/// The service's route table.
pub fn routes() -> (res: Vec<Vec<Route>>)
    ensures
        table_view(res@) == route_table(),
{
    let mut routes: Vec<Vec<Route>> = Vec::new();

    let mut user: Vec<Route> = Vec::new();
    user.push(route(HttpMethod::Post, "/user/new", "user::new"));
    user.push(route(HttpMethod::Get, "/user/:id/view", "user::view"));
    routes.push(user);

    let mut bench: Vec<Route> = Vec::new();
    bench.push(route(HttpMethod::Get, "/bench/kip_sql/user/:id/view", "bench::kip_sql_user_view"));
    routes.push(bench);

    assert(table_view(routes@)[0] =~= route_table()[0]);
    assert(table_view(routes@)[1] =~= route_table()[1]);
    assert(table_view(routes@) =~= route_table());
    routes
}

/// Law: the service sends `POST /user/new` to `user::new`, `GET /user/:id/view`
/// to `user::view` and `GET /bench/kip_sql/user/:id/view` to
/// `bench::kip_sql_user_view`; any other method and path to no handler.
pub proof fn kip_sql_dispatch(method: HttpMethod, path: Seq<char>)
    ensures
        dispatch(route_table(), method, path) == if method == HttpMethod::Post && path == "/user/new"@ {
            Some("user::new"@)
        } else if method == HttpMethod::Get && path == "/user/:id/view"@ {
            Some("user::view"@)
        } else if method == HttpMethod::Get && path == "/bench/kip_sql/user/:id/view"@ {
            Some("bench::kip_sql_user_view"@)
        } else {
            None
        },
{
    reveal_with_fuel(dispatch, 3);
    reveal_with_fuel(handler_in, 3);
    let t = route_table();
    assert(t.drop_first() =~= seq![t[1]]);
    assert(t.drop_first().drop_first() =~= Seq::<Seq<(HttpMethod, Seq<char>, Seq<char>)>>::empty());
    assert(t[0].drop_first() =~= seq![t[0][1]]);
    assert(t[0].drop_first().drop_first().len() == 0);
    assert(t[1].drop_first().len() == 0);
}

} // verus!
