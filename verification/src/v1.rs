//! The whole API route table, with its preflight routes.

use vstd::prelude::*;

use crate::auth_controller;
use crate::checklists_controller;
use crate::cors::{routes_view, spec_add_options, RouteModel, RouteSpec, CORS};
use crate::users_controller;

verus! {

/// The API's route table builder.
pub struct ApiV1Routes {}

/// The mounted routes before preflight routes are added: the checklist,
/// authentication and user endpoints, in that order.
pub open spec fn spec_v1_routes() -> Seq<RouteModel> {
    checklists_controller::spec_checklist_routes() + auth_controller::spec_auth_routes()
        + users_controller::spec_users_routes()
}

impl ApiV1Routes {
    /// The full route table: every endpoint, then one `OPTIONS` route
    /// per distinct URI.
    pub fn get() -> (r: Vec<RouteSpec>)
        ensures
            routes_view(r@) == spec_add_options(spec_v1_routes()),
    {
        let mut all = checklists_controller::checklist_routes();
        let mut auth = auth_controller::routes();
        let mut users = users_controller::routes();
        all.append(&mut auth);
        proof {
            assert(routes_view(all@) =~= checklists_controller::spec_checklist_routes()
                + auth_controller::spec_auth_routes());
        }
        all.append(&mut users);
        proof {
            assert(routes_view(all@) =~= spec_v1_routes());
        }
        CORS::add_options_method(all)
    }
}

} // verus!
