//! Cross-origin plumbing that is pure data: the route table model and
//! the preflight routes added for it.
//!
//! `add_options_method` is the rule that every mounted URI also answers
//! `OPTIONS`: the input routes are kept as they are, and one `OPTIONS`
//! route is appended for each distinct URI, in first-occurrence order —
//! `spec_add_options` pins the result exactly.

use vstd::prelude::*;

verus! {

/// An HTTP method of the route table.
#[derive(Clone, Copy, PartialEq, Eq, Structural, Debug)]
pub enum Method {
    Get,
    Post,
    Delete,
    Options,
}

/// One entry of the route table: a method and a URI pattern.
#[derive(Debug)]
pub struct RouteSpec {
    pub method: Method,
    pub uri: String,
}

/// The mathematical value of a [`RouteSpec`].
pub struct RouteModel {
    pub method: Method,
    pub uri: Seq<char>,
}

impl View for RouteSpec {
    type V = RouteModel;

    open spec fn view(&self) -> RouteModel {
        RouteModel { method: self.method, uri: self.uri@ }
    }
}

impl Clone for RouteSpec {
    fn clone(&self) -> (r: RouteSpec)
        ensures
            r@ == self@,
    {
        RouteSpec { method: self.method, uri: self.uri.clone() }
    }
}

/// The models of a vector of routes.
pub open spec fn routes_view(rs: Seq<RouteSpec>) -> Seq<RouteModel> {
    rs.map_values(|r: RouteSpec| r@)
}

/// Builds one route table entry.
pub fn route(method: Method, uri: &str) -> (r: RouteSpec)
    ensures
        r@ == (RouteModel { method, uri: uri@ }),
{
    RouteSpec { method, uri: String::from_str(uri) }
}

/// The `OPTIONS` routes owed to a route list: one per distinct URI, in
/// first-occurrence order.
pub open spec fn spec_options_of(rs: Seq<RouteModel>) -> Seq<RouteModel>
    decreases rs.len(),
{
    if rs.len() == 0 {
        Seq::empty()
    } else {
        spec_options_of(rs.drop_last()) + (if exists|j: int|
            0 <= j < rs.len() - 1 && (#[trigger] rs[j].uri) == rs.last().uri {
            Seq::empty()
        } else {
            seq![RouteModel { method: Method::Options, uri: rs.last().uri }]
        })
    }
}

/// A route list with its preflight routes appended.
pub open spec fn spec_add_options(rs: Seq<RouteModel>) -> Seq<RouteModel> {
    rs + spec_options_of(rs)
}

/// The response fairing that adds cross-origin headers; `debug` picks
/// the allowed origin.
#[derive(Debug)]
pub struct CORS {
    pub debug: bool,
}

/// The handler mounted on the added preflight routes.
#[derive(Clone, Copy, Debug)]
pub struct OptionsHandler;

fn uri_seen(routes: &Vec<RouteSpec>, upto: usize, uri: &String) -> (r: bool)
    requires
        upto <= routes@.len(),
    ensures
        r == exists|j: int|
            0 <= j < upto && (#[trigger] routes_view(routes@)[j].uri) == uri@,
{
    let ghost rv: Seq<RouteModel> = routes_view(routes@);
    let mut j: usize = 0;
    while j < upto
        invariant
            j <= upto <= routes@.len(),
            rv == routes_view(routes@),
            forall|m: int| 0 <= m < j ==> rv[m].uri != uri@,
        decreases upto - j,
    {
        if routes[j].uri == *uri {
            proof {
                assert(rv[j as int].uri == uri@);
            }
            return true;
        }
        j += 1;
    }
    false
}

impl CORS {
    /// The one origin responses may name: the development origin in
    /// debug mode, the production site otherwise.
    pub fn allowed_origin(&self) -> (r: &'static str)
        ensures
            self.debug ==> r@ == "localhost:8008"@,
            !self.debug ==> r@ == "https://argent.grimsborn.com"@,
    {
        if self.debug {
            "localhost:8008"
        } else {
            "https://argent.grimsborn.com"
        }
    }

    /// Appends one `OPTIONS` route per distinct URI of the table, so
    /// every mounted URI answers preflight requests; the given routes
    /// stay first and unchanged.
    pub fn add_options_method(routes: Vec<RouteSpec>) -> (r: Vec<RouteSpec>)
        ensures
            routes_view(r@) == spec_add_options(routes_view(routes@)),
    {
        let ghost rv: Seq<RouteModel> = routes_view(routes@);
        let mut options: Vec<RouteSpec> = Vec::new();
        let mut i: usize = 0;
        proof {
            assert(rv.take(0) =~= Seq::<RouteModel>::empty());
            assert(routes_view(options@) =~= Seq::<RouteModel>::empty());
        }
        while i < routes.len()
            invariant
                i <= routes@.len(),
                rv == routes_view(routes@),
                routes_view(options@) == spec_options_of(rv.take(i as int)),
            decreases routes@.len() - i,
        {
            proof {
                assert(rv.take(i as int + 1).drop_last() =~= rv.take(i as int));
                assert(rv.take(i as int + 1).last() == rv[i as int]);
            }
            let seen = uri_seen(&routes, i, &routes[i].uri);
            proof {
                let rt = rv.take(i as int + 1);
                assert(seen == exists|j: int|
                    0 <= j < rt.len() - 1 && (#[trigger] rt[j].uri) == rt.last().uri) by {
                    if seen {
                        let j = choose|j: int|
                            0 <= j < i && (#[trigger] rv[j].uri) == rv[i as int].uri;
                        assert(rt[j].uri == rt.last().uri);
                    } else {
                        if exists|j: int|
                            0 <= j < rt.len() - 1 && (#[trigger] rt[j].uri) == rt.last().uri {
                            let j = choose|j: int|
                                0 <= j < rt.len() - 1 && (#[trigger] rt[j].uri) == rt.last().uri;
                            assert(rv[j].uri == rv[i as int].uri);
                        }
                    }
                }
            }
            if !seen {
                let ghost opts0: Seq<RouteModel> = routes_view(options@);
                options.push(RouteSpec { method: Method::Options, uri: routes[i].uri.clone() });
                proof {
                    assert(routes_view(options@) =~= opts0 + seq![
                        RouteModel { method: Method::Options, uri: rv[i as int].uri },
                    ]);
                }
            } else {
                proof {
                    assert(routes_view(options@) + Seq::<RouteModel>::empty() =~= routes_view(
                        options@,
                    ));
                }
            }
            i += 1;
        }
        proof {
            assert(rv.take(routes@.len() as int) =~= rv);
        }
        let mut out = routes;
        let ghost base: Seq<RouteModel> = routes_view(out@);
        let mut k: usize = 0;
        while k < options.len()
            invariant
                k <= options@.len(),
                routes_view(out@) == base + routes_view(options@).take(k as int),
                routes_view(options@) == spec_options_of(rv),
                base == rv,
            decreases options@.len() - k,
        {
            let item = options[k].clone();
            let ghost before: Seq<RouteModel> = routes_view(out@);
            out.push(item);
            proof {
                assert(routes_view(out@) =~= before + seq![routes_view(options@)[k as int]]);
                assert(before + seq![routes_view(options@)[k as int]] =~= base + routes_view(
                    options@,
                ).take(k as int + 1));
            }
            k += 1;
        }
        proof {
            assert(routes_view(options@).take(options@.len() as int) =~= routes_view(options@));
            assert(routes_view(out@) =~= spec_add_options(rv));
        }
        out
    }
}

} // verus!
