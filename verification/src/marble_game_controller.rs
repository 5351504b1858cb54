//! The marble game endpoints' place in the route table.

use vstd::prelude::*;

use crate::cors::{route, routes_view, Method, RouteModel, RouteSpec};

verus! {

/// The routes of the marble game endpoints.
pub open spec fn spec_marble_game_routes() -> Seq<RouteModel> {
    seq![
        RouteModel { method: Method::Get, uri: "/marble-game/status"@ },
        RouteModel { method: Method::Post, uri: "/marble-game/update-highest-cleared"@ },
    ]
}

/// The marble game endpoints' route table.
pub fn routes() -> (r: Vec<RouteSpec>)
    ensures
        routes_view(r@) == spec_marble_game_routes(),
{
    let mut v: Vec<RouteSpec> = Vec::new();
    v.push(route(Method::Get, "/marble-game/status"));
    v.push(route(Method::Post, "/marble-game/update-highest-cleared"));
    proof {
        assert(routes_view(v@) =~= spec_marble_game_routes());
    }
    v
}

} // verus!
