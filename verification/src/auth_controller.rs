//! The login and logout endpoints' place in the route table. The
//! handlers themselves live at the boundary: login turns a verified
//! provider identity into a session cookie, logout answers with the
//! expired cookie.

use vstd::prelude::*;

use crate::cors::{route, routes_view, Method, RouteModel, RouteSpec};

verus! {

/// The routes of the authentication endpoints.
pub open spec fn spec_auth_routes() -> Seq<RouteModel> {
    seq![
        RouteModel { method: Method::Get, uri: "/login"@ },
        RouteModel { method: Method::Get, uri: "/logout"@ },
    ]
}

/// The authentication endpoints' route table.
pub fn routes() -> (r: Vec<RouteSpec>)
    ensures
        routes_view(r@) == spec_auth_routes(),
{
    let mut v: Vec<RouteSpec> = Vec::new();
    v.push(route(Method::Get, "/login"));
    v.push(route(Method::Get, "/logout"));
    proof {
        assert(routes_view(v@) =~= spec_auth_routes());
    }
    v
}

} // verus!
