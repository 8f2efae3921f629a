//! The parts of the semantic and hybrid routers that do not touch scores:
//! aggregation names, route requests, and the route table (thresholds,
//! lookup, deletion, and the utterance list that gets encoded).

pub mod pass;
pub mod table;

use vstd::prelude::*;

use crate::error::Error;
use crate::route::{string_views, Route};
use crate::text::{owned, str_eq};

verus! {

/// How the scores of one route's matching utterances are combined.
#[derive(Debug, Clone, Copy, PartialEq, Eq, Structural)]
pub enum Aggregation {
    Sum,
    Mean,
    Max,
}

/// The lower-case name of an aggregation.
pub open spec fn aggregation_name(a: Aggregation) -> Seq<char> {
    match a {
        Aggregation::Sum => "sum"@,
        Aggregation::Mean => "mean"@,
        Aggregation::Max => "max"@,
    }
}

/// The aggregation a name stands for, if any.
pub open spec fn aggregation_named(s: Seq<char>) -> Option<Aggregation> {
    if s == "sum"@ {
        Some(Aggregation::Sum)
    } else if s == "mean"@ {
        Some(Aggregation::Mean)
    } else if s == "max"@ {
        Some(Aggregation::Max)
    } else {
        None
    }
}

impl Aggregation {
    /// The aggregation named `s` (`sum`, `mean` or `max`); any other name is
    /// [`Error::BadAggregation`].
    pub fn parse(s: &str) -> (r: Result<Aggregation, Error>)
        ensures
            match aggregation_named(s@) {
                Some(a) => r == Ok::<Aggregation, Error>(a),
                None => r matches Err(Error::BadAggregation(n)) && n@ == s@,
            },
    {
        if str_eq(s, "sum") {
            Ok(Aggregation::Sum)
        } else if str_eq(s, "mean") {
            Ok(Aggregation::Mean)
        } else if str_eq(s, "max") {
            Ok(Aggregation::Max)
        } else {
            Err(Error::BadAggregation(owned(s)))
        }
    }
}

/// Parsing the name of an aggregation gives it back.
pub proof fn lemma_aggregation_name_round_trip(a: Aggregation)
    ensures
        aggregation_named(aggregation_name(a)) == Some(a),
{
    reveal_strlit("sum");
    reveal_strlit("mean");
    reveal_strlit("max");
    assert("sum"@.len() == 3);
    assert("mean"@.len() == 4);
    assert("max"@.len() == 3);
    assert("sum"@[0] != "max"@[0]);
}

/// A routing request: the text or the vector to route, an optional route
/// filter and a limit on the number of choices. `S` is the score type.
#[derive(Debug, Clone)]
pub struct RouteRequest<S> {
    pub text: Option<String>,
    pub vector: Option<Vec<S>>,
    pub simulate_static: bool,
    pub route_filter: Option<Vec<String>>,
    pub limit: Option<usize>,
}

/// Where the vector a routing request is scored with comes from.
#[derive(Debug, Clone, Copy, PartialEq, Eq)]
pub enum QuerySource {
    /// The request's own vector.
    Vector,
    /// The encoding of the request's text.
    Text,
}

impl<S> RouteRequest<S> {
    /// The first decision of routing: an index that is not ready refuses the
    /// request; else the request's vector is used when it has one, else its
    /// text is encoded, and a request with neither is refused.
    pub fn query_source(&self, index_ready: bool) -> (r: Result<QuerySource, Error>)
        ensures
            !index_ready ==> r matches Err(Error::IndexNotReady),
            index_ready && self.vector is Some ==> r == Ok::<QuerySource, Error>(QuerySource::Vector),
            index_ready && self.vector is None && self.text is Some ==> r == Ok::<QuerySource, Error>(
                QuerySource::Text,
            ),
            index_ready && self.vector is None && self.text is None ==> r matches Err(
                Error::MissingQuery,
            ),
    {
        if !index_ready {
            Err(Error::IndexNotReady)
        } else if self.vector.is_some() {
            Ok(QuerySource::Vector)
        } else if self.text.is_some() {
            Ok(QuerySource::Text)
        } else {
            Err(Error::MissingQuery)
        }
    }

    /// A request for the single best route of `text`.
    pub fn text(text: &str) -> (r: RouteRequest<S>)
        ensures
            r.text matches Some(t) && t@ == text@,
            r.vector is None,
            !r.simulate_static,
            r.route_filter is None,
            r.limit == Some(1usize),
    {
        RouteRequest {
            text: Some(owned(text)),
            vector: None,
            simulate_static: false,
            route_filter: None,
            limit: Some(1),
        }
    }
}

/// Route `i`, with its threshold replaced by `t`, the rest unchanged.
pub open spec fn with_threshold_spec<S>(r: Route<S>, t: S) -> Route<S> {
    Route { score_threshold: Some(t), ..r }
}

/// The index of the first route named `name`, if any.
pub open spec fn first_named<S>(routes: Seq<Route<S>>, name: Seq<char>) -> Option<int> {
    if exists|i: int| 0 <= i < routes.len() && routes[i].name@ == name {
        Some(
            choose|i: int|
                0 <= i < routes.len() && routes[i].name@ == name && forall|j: int|
                    0 <= j < i ==> routes[j].name@ != name,
        )
    } else {
        None
    }
}

proof fn lemma_least_named<S>(routes: Seq<Route<S>>, name: Seq<char>, i: int)
    requires
        0 <= i < routes.len(),
        routes[i].name@ == name,
    ensures
        exists|m: int|
            0 <= m < routes.len() && routes[m].name@ == name && forall|j: int|
                0 <= j < m ==> routes[j].name@ != name,
    decreases i,
{
    if exists|j: int| 0 <= j < i && routes[j].name@ == name {
        let j = choose|j: int| 0 <= j < i && routes[j].name@ == name;
        lemma_least_named(routes, name, j);
    } else {
        assert(forall|j: int| 0 <= j < i ==> routes[j].name@ != name);
    }
}

/// What [`first_named`] picks, when it picks one, is a route of that name
/// with no route of that name before it.
pub proof fn lemma_first_named<S>(routes: Seq<Route<S>>, name: Seq<char>)
    ensures
        first_named(routes, name) matches Some(k) ==> {
            &&& 0 <= k < routes.len()
            &&& routes[k].name@ == name
            &&& forall|j: int| 0 <= j < k ==> routes[j].name@ != name
        },
        first_named(routes, name) is None ==> forall|j: int|
            0 <= j < routes.len() ==> routes[j].name@ != name,
{
    if exists|i: int| 0 <= i < routes.len() && routes[i].name@ == name {
        let i = choose|i: int| 0 <= i < routes.len() && routes[i].name@ == name;
        lemma_least_named(routes, name, i);
    }
}

/// The first route named `name`, by index.
pub fn find_route<S>(routes: &[Route<S>], name: &str) -> (r: Option<usize>)
    ensures
        match r {
            Some(i) => i < routes@.len() && routes@[i as int].name@ == name@ && forall|j: int|
                0 <= j < i ==> routes@[j].name@ != name@,
            None => forall|j: int| 0 <= j < routes@.len() ==> routes@[j].name@ != name@,
        },
{
    let mut i: usize = 0;
    while i < routes.len()
        invariant
            i <= routes@.len(),
            forall|j: int| 0 <= j < i ==> routes@[j].name@ != name@,
        decreases routes.len() - i,
    {
        if str_eq(routes[i].name.as_str(), name) {
            return Some(i);
        }
        i = i + 1;
    }
    None
}

/// Sets the score threshold of every route (`route_name` is `None`), or of
/// the first route named `route_name` (none changes when there is no such
/// route).
pub fn assign_threshold<S: Copy>(routes: &mut Vec<Route<S>>, threshold: S, route_name: Option<&str>)
    ensures
        final(routes)@.len() == old(routes)@.len(),
        match route_name {
            None => forall|i: int|
                0 <= i < old(routes)@.len() ==> #[trigger] final(routes)@[i] == with_threshold_spec(
                    old(routes)@[i],
                    threshold,
                ),
            Some(n) => match first_named(old(routes)@, n@) {
                Some(k) => final(routes)@ == old(routes)@.update(
                    k,
                    with_threshold_spec(old(routes)@[k], threshold),
                ),
                None => final(routes)@ == old(routes)@,
            },
        },
{
    match route_name {
        None => {
            let mut i: usize = 0;
            while i < routes.len()
                invariant
                    i <= routes@.len(),
                    routes@.len() == old(routes)@.len(),
                    forall|j: int|
                        0 <= j < i ==> #[trigger] routes@[j] == with_threshold_spec(
                            old(routes)@[j],
                            threshold,
                        ),
                    forall|j: int| i <= j < routes@.len() ==> #[trigger] routes@[j] == old(routes)@[j],
                decreases routes.len() - i,
            {
                let mut r = routes.remove(i);
                r.score_threshold = Some(threshold);
                routes.insert(i, r);
                i = i + 1;
            }
        },
        Some(n) => {
            match find_route(routes.as_slice(), n) {
                Some(k) => {
                    let mut r = routes.remove(k);
                    r.score_threshold = Some(threshold);
                    routes.insert(k, r);
                    proof {
                        let fk = first_named(old(routes)@, n@);
                        assert(exists|i: int|
                            0 <= i < old(routes)@.len() && old(routes)@[i].name@ == n@);
                        let c = fk->Some_0;
                        assert(c == k) by {
                            if c < k {
                            } else if c > k {
                            }
                        }
                        assert(routes@ =~= old(routes)@.update(
                            k as int,
                            with_threshold_spec(old(routes)@[k as int], threshold),
                        ));
                    }
                },
                None => {},
            }
        },
    }
}

/// The threshold each route scores against: its own, else the router's,
/// else `zero`; one `(name, threshold)` per route, in route order.
pub fn thresholds<S: Copy>(routes: &[Route<S>], global: Option<S>, zero: S) -> (r: Vec<(String, S)>)
    ensures
        r@.len() == routes@.len(),
        forall|i: int|
            0 <= i < routes@.len() ==> (#[trigger] r@[i]).0@ == routes@[i].name@ && r@[i].1 == (
            match routes@[i].score_threshold {
                Some(t) => t,
                None => match global {
                    Some(g) => g,
                    None => zero,
                },
            }),
{
    let mut out: Vec<(String, S)> = Vec::new();
    let mut i: usize = 0;
    while i < routes.len()
        invariant
            i <= routes@.len(),
            out@.len() == i,
            forall|j: int|
                0 <= j < i ==> (#[trigger] out@[j]).0@ == routes@[j].name@ && out@[j].1 == (
                match routes@[j].score_threshold {
                    Some(t) => t,
                    None => match global {
                        Some(g) => g,
                        None => zero,
                    },
                }),
        decreases routes.len() - i,
    {
        let t = match routes[i].score_threshold {
            Some(t) => t,
            None => match global {
                Some(g) => g,
                None => zero,
            },
        };
        out.push((routes[i].name.clone(), t));
        i = i + 1;
    }
    out
}

/// Gives every route without a threshold of its own the router's default.
pub fn fill_default_thresholds<S: Copy>(routes: &mut Vec<Route<S>>, default: Option<S>)
    ensures
        final(routes)@.len() == old(routes)@.len(),
        forall|i: int|
            0 <= i < old(routes)@.len() ==> #[trigger] final(routes)@[i] == (if old(
                routes,
            )@[i].score_threshold is None {
                Route { score_threshold: default, ..old(routes)@[i] }
            } else {
                old(routes)@[i]
            }),
{
    let mut i: usize = 0;
    while i < routes.len()
        invariant
            i <= routes@.len(),
            routes@.len() == old(routes)@.len(),
            forall|j: int|
                0 <= j < i ==> #[trigger] routes@[j] == (if old(routes)@[j].score_threshold is None {
                    Route { score_threshold: default, ..old(routes)@[j] }
                } else {
                    old(routes)@[j]
                }),
            forall|j: int| i <= j < routes@.len() ==> #[trigger] routes@[j] == old(routes)@[j],
        decreases routes.len() - i,
    {
        if routes[i].score_threshold.is_none() {
            let mut r = routes.remove(i);
            r.score_threshold = default;
            routes.insert(i, r);
        }
        i = i + 1;
    }
}

/// Drops every route named `name`, keeping the others in order.
pub fn remove_routes_named<S>(routes: &mut Vec<Route<S>>, name: &str)
    ensures
        final(routes)@ == old(routes)@.filter(|r: Route<S>| r.name@ != name@),
{
    let ghost pred = |r: Route<S>| r.name@ != name@;
    let mut kept: Vec<Route<S>> = Vec::new();
    let ghost all = routes@;
    assert(all.take(0).filter(pred) =~= Seq::<Route<S>>::empty());
    let mut i: usize = 0;
    let n = routes.len();
    let mut rest: Vec<Route<S>> = Vec::new();
    std::mem::swap(routes, &mut rest);
    assert(all.skip(0) =~= all);
    while rest.len() > 0
        invariant
            i + rest@.len() == all.len(),
            all.len() == n,
            rest@ == all.skip(i as int),
            kept@ == all.take(i as int).filter(pred),
            pred == (|r: Route<S>| r.name@ != name@),
        decreases rest.len(),
    {
        let r = rest.remove(0);
        proof {
            assert(r == all[i as int]);
            assert(all.take(i + 1) =~= all.take(i as int).push(r));
            all.take(i as int).lemma_filter_push(r, pred);
        }
        if !str_eq(r.name.as_str(), name) {
            kept.push(r);
        }
        proof {
            assert(all.skip(i + 1) =~= all.skip(i as int).drop_first());
        }
        i = i + 1;
    }
    assert(all.take(all.len() as int) =~= all);
    *routes = kept;
}

/// The texts to encode for a list of routes — every utterance of every route,
/// in order — each paired with its route's name.
pub open spec fn route_utterances<S>(routes: Seq<Route<S>>) -> Seq<(Seq<char>, Seq<char>)>
    decreases routes.len(),
{
    if routes.len() == 0 {
        Seq::empty()
    } else {
        route_utterances(routes.drop_last()) + string_views(routes.last().utterances@).map_values(
            |u: Seq<char>| (routes.last().name@, u),
        )
    }
}

/// Every utterance of every route, in order, as `(route name, utterance)`.
pub fn utterance_pairs<S>(routes: &[Route<S>]) -> (r: Vec<(String, String)>)
    ensures
        r@.map_values(|p: (String, String)| (p.0@, p.1@)) == route_utterances(routes@),
{
    let mut out: Vec<(String, String)> = Vec::new();
    let mut i: usize = 0;
    while i < routes.len()
        invariant
            i <= routes@.len(),
            out@.map_values(|p: (String, String)| (p.0@, p.1@)) == route_utterances(
                routes@.take(i as int),
            ),
        decreases routes.len() - i,
    {
        let r = &routes[i];
        let ghost before = out@.map_values(|p: (String, String)| (p.0@, p.1@));
        let mut j: usize = 0;
        while j < r.utterances.len()
            invariant
                j <= r.utterances@.len(),
                out@.map_values(|p: (String, String)| (p.0@, p.1@)) == before + string_views(
                    r.utterances@.take(j as int),
                ).map_values(|u: Seq<char>| (r.name@, u)),
            decreases r.utterances.len() - j,
        {
            let ghost prev = out@;
            let pair = (r.name.clone(), r.utterances[j].clone());
            out.push(pair);
            assert(out@ =~= prev.push(pair));
            assert(out@.map_values(|p: (String, String)| (p.0@, p.1@)) =~= prev.map_values(
                |p: (String, String)| (p.0@, p.1@),
            ).push((r.name@, r.utterances@[j as int]@)));
            assert(string_views(r.utterances@.take(j + 1)) =~= string_views(
                r.utterances@.take(j as int),
            ).push(r.utterances@[j as int]@));
            assert(out@.map_values(|p: (String, String)| (p.0@, p.1@)) =~= before + string_views(
                r.utterances@.take(j + 1),
            ).map_values(|u: Seq<char>| (r.name@, u)));
            j = j + 1;
        }
        assert(r.utterances@.take(r.utterances.len() as int) =~= r.utterances@);
        assert(routes@.take(i + 1).drop_last() =~= routes@.take(i as int));
        assert(routes@.take(i + 1).last() == routes@[i as int]);
        i = i + 1;
    }
    assert(routes@.take(routes.len() as int) =~= routes@);
    out
}

} // verus!
