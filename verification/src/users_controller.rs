//! The user endpoints' place in the route table: the signed-in user's
//! own record, and the user list shown when sharing.

use vstd::prelude::*;

use crate::cors::{route, routes_view, Method, RouteModel, RouteSpec};

verus! {

/// The routes of the user endpoints.
pub open spec fn spec_users_routes() -> Seq<RouteModel> {
    seq![
        RouteModel { method: Method::Get, uri: "/me"@ },
        RouteModel { method: Method::Get, uri: "/users"@ },
    ]
}

/// The user endpoints' route table.
pub fn routes() -> (r: Vec<RouteSpec>)
    ensures
        routes_view(r@) == spec_users_routes(),
{
    let mut v: Vec<RouteSpec> = Vec::new();
    v.push(route(Method::Get, "/me"));
    v.push(route(Method::Get, "/users"));
    proof {
        assert(routes_view(v@) =~= spec_users_routes());
    }
    v
}

} // verus!
