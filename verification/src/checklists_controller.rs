//! The checklist endpoints' place in the route table.

use vstd::prelude::*;

use crate::cors::{route, routes_view, Method, RouteModel, RouteSpec};

verus! {

/// The routes of the checklist endpoints.
pub open spec fn spec_checklist_routes() -> Seq<RouteModel> {
    seq![
        RouteModel { method: Method::Get, uri: "/checklists"@ },
        RouteModel { method: Method::Get, uri: "/checklists/<id>/items"@ },
        RouteModel { method: Method::Post, uri: "/checklists"@ },
        RouteModel { method: Method::Post, uri: "/checklistitems"@ },
        RouteModel { method: Method::Post, uri: "/checklistitems/<id>/done"@ },
        RouteModel { method: Method::Post, uri: "/checklistitems/<id>/not-done"@ },
        RouteModel { method: Method::Delete, uri: "/checklists/<id>"@ },
        RouteModel { method: Method::Get, uri: "/checklists/<id>"@ },
        RouteModel { method: Method::Post, uri: "/checklists/<id>/clear-done"@ },
        RouteModel { method: Method::Post, uri: "/checklists/<id>/share"@ },
        RouteModel { method: Method::Post, uri: "/checklists/<id>/unshare/<user_id>"@ },
        RouteModel { method: Method::Get, uri: "/checklists/<id>/users"@ },
    ]
}

/// The checklist endpoints' route table.
pub fn checklist_routes() -> (r: Vec<RouteSpec>)
    ensures
        routes_view(r@) == spec_checklist_routes(),
{
    let mut v: Vec<RouteSpec> = Vec::new();
    v.push(route(Method::Get, "/checklists"));
    v.push(route(Method::Get, "/checklists/<id>/items"));
    v.push(route(Method::Post, "/checklists"));
    v.push(route(Method::Post, "/checklistitems"));
    v.push(route(Method::Post, "/checklistitems/<id>/done"));
    v.push(route(Method::Post, "/checklistitems/<id>/not-done"));
    v.push(route(Method::Delete, "/checklists/<id>"));
    v.push(route(Method::Get, "/checklists/<id>"));
    v.push(route(Method::Post, "/checklists/<id>/clear-done"));
    v.push(route(Method::Post, "/checklists/<id>/share"));
    v.push(route(Method::Post, "/checklists/<id>/unshare/<user_id>"));
    v.push(route(Method::Get, "/checklists/<id>/users"));
    proof {
        assert(routes_view(v@) =~= spec_checklist_routes());
    }
    v
}

} // verus!
