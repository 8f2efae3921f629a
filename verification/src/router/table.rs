//! A router's route table: its routes and its default score threshold, as
//! thresholds are set, read back, and routes added and deleted.

use vstd::prelude::*;

use super::{
    assign_threshold, fill_default_thresholds, first_named, remove_routes_named, thresholds,
    with_threshold_spec,
};
use crate::route::Route;

verus! {

/// The routes of a router and the threshold that applies to routes without
/// one of their own (`S` is the score type; the router uses `f32`).
#[derive(Debug, Clone)]
pub struct RouteTable<S> {
    routes: Vec<Route<S>>,
    score_threshold: Option<S>,
}

/// The threshold a route is held to: its own, else the router's, else `zero`.
pub open spec fn effective_threshold<S>(r: Route<S>, global: Option<S>, zero: S) -> S {
    match r.score_threshold {
        Some(t) => t,
        None => match global {
            Some(g) => g,
            None => zero,
        },
    }
}

/// `r` with the router's default as its threshold when it has none.
pub open spec fn with_default<S>(r: Route<S>, default: Option<S>) -> Route<S> {
    if r.score_threshold is None {
        Route { score_threshold: default, ..r }
    } else {
        r
    }
}

impl<S: Copy> RouteTable<S> {
    /// The routes, in order.
    pub closed spec fn spec_routes(&self) -> Seq<Route<S>> {
        self.routes@
    }

    /// The router's threshold.
    pub closed spec fn spec_threshold(&self) -> Option<S> {
        self.score_threshold
    }

    /// An empty table whose routes will default to `score_threshold` (the
    /// encoder's).
    pub fn new(score_threshold: Option<S>) -> (t: RouteTable<S>)
        ensures
            t.spec_routes().len() == 0,
            t.spec_threshold() == score_threshold,
    {
        RouteTable { routes: Vec::new(), score_threshold }
    }

    /// The routes, in order.
    pub fn routes(&self) -> (r: &[Route<S>])
        ensures
            r@ == self.spec_routes(),
    {
        self.routes.as_slice()
    }

    /// The router's threshold.
    pub fn score_threshold(&self) -> (r: Option<S>)
        ensures
            r == self.spec_threshold(),
    {
        self.score_threshold
    }

    /// Gives the routes without a threshold the router's default (as routes
    /// are when a router is built).
    pub fn with_defaults(&self, routes: Vec<Route<S>>) -> (r: Vec<Route<S>>)
        ensures
            r@.len() == routes@.len(),
            forall|i: int| 0 <= i < routes@.len() ==> #[trigger] r@[i] == with_default(routes@[i], self.spec_threshold()),
    {
        let mut rs = routes;
        fill_default_thresholds(&mut rs, self.score_threshold);
        rs
    }

    /// Appends routes (once their utterances are indexed).
    pub fn extend(&mut self, routes: Vec<Route<S>>)
        ensures
            final(self).spec_routes() == old(self).spec_routes() + routes@,
            final(self).spec_threshold() == old(self).spec_threshold(),
    {
        let mut rs = routes;
        self.routes.append(&mut rs);
    }

    /// Drops every route named `name`.
    pub fn delete(&mut self, name: &str)
        ensures
            final(self).spec_routes() == old(self).spec_routes().filter(|r: Route<S>| r.name@ != name@),
            final(self).spec_threshold() == old(self).spec_threshold(),
    {
        remove_routes_named(&mut self.routes, name);
    }

    /// Sets the threshold of every route and the router's own (`route_name`
    /// is `None`), or of the first route named `route_name` (nothing changes
    /// when there is none).
    pub fn set_threshold(&mut self, threshold: S, route_name: Option<&str>)
        ensures
            final(self).spec_routes().len() == old(self).spec_routes().len(),
            match route_name {
                None => {
                    &&& final(self).spec_threshold() == Some(threshold)
                    &&& forall|i: int|
                        0 <= i < old(self).spec_routes().len() ==> #[trigger] final(self).spec_routes()[i]
                            == with_threshold_spec(old(self).spec_routes()[i], threshold)
                },
                Some(n) => {
                    &&& final(self).spec_threshold() == old(self).spec_threshold()
                    &&& match first_named(old(self).spec_routes(), n@) {
                        Some(k) => final(self).spec_routes() == old(self).spec_routes().update(
                            k,
                            with_threshold_spec(old(self).spec_routes()[k], threshold),
                        ),
                        None => final(self).spec_routes() == old(self).spec_routes(),
                    }
                },
            },
    {
        assign_threshold(&mut self.routes, threshold, route_name);
        if route_name.is_none() {
            self.score_threshold = Some(threshold);
        }
    }

    /// Each route's name with the threshold it is held to (its own, else
    /// the router's, else `zero`), in route order.
    pub fn get_thresholds(&self, zero: S) -> (r: Vec<(String, S)>)
        ensures
            r@.len() == self.spec_routes().len(),
            forall|i: int|
                0 <= i < r@.len() ==> (#[trigger] r@[i]).0@ == self.spec_routes()[i].name@ && r@[i].1
                    == effective_threshold(self.spec_routes()[i], self.spec_threshold(), zero),
    {
        thresholds(self.routes.as_slice(), self.score_threshold, zero)
    }
}

/// Setting a threshold for the whole router holds every route to it: read
/// back, each route's threshold is the one set.
pub proof fn lemma_set_all_reads_back<S>(before: Seq<Route<S>>, after: Seq<Route<S>>, global: Option<S>, t: S, zero: S)
    requires
        after.len() == before.len(),
        forall|i: int| 0 <= i < before.len() ==> #[trigger] after[i] == with_threshold_spec(before[i], t),
    ensures
        forall|i: int| 0 <= i < after.len() ==> #[trigger] effective_threshold(after[i], global, zero) == t,
{
    assert forall|i: int| 0 <= i < after.len() implies #[trigger] effective_threshold(after[i], global, zero) == t by {
        assert(after[i] == with_threshold_spec(before[i], t));
    }
}

/// Setting one route's threshold holds that route (the first of its name) to
/// it and leaves every other route as it was.
pub proof fn lemma_set_one_reads_back<S>(before: Seq<Route<S>>, global: Option<S>, name: Seq<char>, t: S, zero: S)
    requires
        first_named(before, name) is Some,
    ensures
        ({
            let k = first_named(before, name)->Some_0;
            let after = before.update(k, with_threshold_spec(before[k], t));
            &&& 0 <= k < before.len()
            &&& after[k].name@ == name
            &&& effective_threshold(after[k], global, zero) == t
            &&& forall|j: int| 0 <= j < before.len() && j != k ==> #[trigger] after[j] == before[j]
        }),
{
    let i = choose|i: int| 0 <= i < before.len() && before[i].name@ == name;
    lemma_first_of_name_exists(before, name, i);
}

/// When some route has the name, a first one does.
proof fn lemma_first_of_name_exists<S>(routes: Seq<Route<S>>, name: Seq<char>, i: int)
    requires
        0 <= i < routes.len(),
        routes[i].name@ == name,
    ensures
        exists|m: int|
            0 <= m < routes.len() && routes[m].name@ == name && forall|j: int| 0 <= j < m ==> routes[j].name@ != name,
    decreases i,
{
    if exists|j: int| 0 <= j < i && routes[j].name@ == name {
        let j = choose|j: int| 0 <= j < i && routes[j].name@ == name;
        lemma_first_of_name_exists(routes, name, j);
    } else {
        assert(forall|j: int| 0 <= j < i ==> routes[j].name@ != name);
    }
}

/// After a route name is deleted, no route of that name is left and every
/// other route is kept.
pub proof fn lemma_delete_removes_name<S>(before: Seq<Route<S>>, name: Seq<char>)
    ensures
        ({
            let after = before.filter(|r: Route<S>| r.name@ != name);
            &&& forall|i: int| 0 <= i < after.len() ==> #[trigger] after[i].name@ != name
            &&& forall|i: int| 0 <= i < before.len() && before[i].name@ != name ==> after.contains(#[trigger] before[i])
        }),
{
    broadcast use vstd::seq_lib::group_filter_ensures;
}

} // verus!
