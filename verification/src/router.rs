//! Route tables of the services: which handler answers which method and path.
//! A table is a list of route groups, each group a list of routes.

use vstd::prelude::*;
use vstd::string::*;

pub mod axum;
pub mod kip_sql;
pub mod rbatis;

verus! {

/// The HTTP methods the services route.
#[derive(PartialEq, Eq, Structural, Clone, Copy, Debug)]
pub enum HttpMethod {
    Get,
    Post,
}

/// One route: requests with `method` on `path` go to the handler named `handler`.
pub struct Route {
    pub method: HttpMethod,
    pub path: String,
    pub handler: String,
}

impl View for Route {
    type V = (HttpMethod, Seq<char>, Seq<char>);

    open spec fn view(&self) -> (HttpMethod, Seq<char>, Seq<char>) {
        (self.method, self.path@, self.handler@)
    }
}

/// A route table as (method, path, handler) triples, group by group.
pub open spec fn table_view(groups: Seq<Vec<Route>>) -> Seq<Seq<(HttpMethod, Seq<char>, Seq<char>)>> {
    groups.map_values(|g: Vec<Route>| g@.map_values(|r: Route| r@))
}

/// The handler of the first route in `routes` for `method` on `path`, if any.
pub open spec fn handler_in(routes: Seq<(HttpMethod, Seq<char>, Seq<char>)>, method: HttpMethod, path: Seq<
    char,
>) -> Option<Seq<char>>
    decreases routes.len(),
{
    if routes.len() == 0 {
        None
    } else if routes[0].0 == method && routes[0].1 == path {
        Some(routes[0].2)
    } else {
        handler_in(routes.drop_first(), method, path)
    }
}

/// The handler a table sends a request with `method` on `path` to: that of the
/// first group that has a route for it, or none.
pub open spec fn dispatch(groups: Seq<Seq<(HttpMethod, Seq<char>, Seq<char>)>>, method: HttpMethod, path: Seq<
    char,
>) -> Option<Seq<char>>
    decreases groups.len(),
{
    if groups.len() == 0 {
        None
    } else {
        match handler_in(groups[0], method, path) {
            Some(h) => Some(h),
            None => dispatch(groups.drop_first(), method, path),
        }
    }
}

/// The route for `method` on `path`, answered by `handler`.
pub fn route(method: HttpMethod, path: &str, handler: &str) -> (res: Route)
    ensures
        res@ == (method, path@, handler@),
{
    Route { method, path: String::from_str(path), handler: String::from_str(handler) }
}

} // verus!
