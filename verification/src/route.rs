//! Route definitions — static routes (a name and its example utterances).

use std::collections::BTreeMap;

use vstd::prelude::*;

use crate::schema::RouteChoice;
use crate::text::{owned, views};

verus! {

/// A route: a name, the utterances that exemplify it, and an optional score
/// threshold of its own. `S` is the score type (the router uses `f32`).
#[derive(Debug, Clone)]
pub struct Route<S> {
    pub name: String,
    pub utterances: Vec<String>,
    pub description: Option<String>,
    pub function_schemas: Option<Vec<serde_json::Value>>,
    pub score_threshold: Option<S>,
    pub metadata: BTreeMap<String, serde_json::Value>,
}

/// The character sequences of a list of strings.
pub open spec fn string_views(v: Seq<String>) -> Seq<Seq<char>> {
    v.map_values(|s: String| s@)
}

/// A route as [`Route::new`] makes it: the given name and utterances and
/// nothing else.
pub open spec fn is_plain_route<S>(r: Route<S>, name: Seq<char>, utterances: Seq<Seq<char>>) -> bool {
    &&& r.name@ == name
    &&& string_views(r.utterances@) == utterances
    &&& r.description is None
    &&& r.function_schemas is None
    &&& r.score_threshold is None
    &&& r.metadata@ == Map::<String, serde_json::Value>::empty()
}

fn owned_all(items: &Vec<&str>) -> (r: Vec<String>)
    ensures
        string_views(r@) == views(items@),
{
    let mut r: Vec<String> = Vec::new();
    let mut i: usize = 0;
    while i < items.len()
        invariant
            i <= items.len(),
            string_views(r@) == views(items@.take(i as int)),
        decreases items.len() - i,
    {
        r.push(owned(items[i]));
        assert(views(items@.take(i + 1)) =~= views(items@.take(i as int)).push(items@[i as int]@));
        assert(string_views(r@) =~= views(items@.take(i + 1)));
        i = i + 1;
    }
    assert(items@.take(items.len() as int) =~= items@);
    r
}

impl<S> Route<S> {
    /// A route with the given name and utterances, no description, no
    /// function schemas, no threshold of its own and empty metadata.
    pub fn new(name: &str, utterances: Vec<&str>) -> (r: Route<S>)
        ensures
            is_plain_route(r, name@, views(utterances@)),
    {
        Route {
            name: owned(name),
            utterances: owned_all(&utterances),
            description: None,
            function_schemas: None,
            score_threshold: None,
            metadata: BTreeMap::new(),
        }
    }

    /// The same route with its own score threshold.
    pub fn with_threshold(self, threshold: S) -> (r: Route<S>)
        ensures
            r == (Route { score_threshold: Some(threshold), ..self }),
    {
        let mut r = self;
        r.score_threshold = Some(threshold);
        r
    }

    /// The same route with a description.
    pub fn with_description(self, description: &str) -> (r: Route<S>)
        ensures
            r.description matches Some(d) && d@ == description@,
            r == (Route { description: r.description, ..self }),
    {
        let mut r = self;
        r.description = Some(owned(description));
        r
    }

    /// This (static) route chosen with `score`: its name only, no function call.
    pub fn to_choice(&self, score: S) -> (c: RouteChoice<S>)
        ensures
            c.name matches Some(n) && n@ == self.name@,
            c.function_call is None,
            c.similarity_score == Some(score),
    {
        RouteChoice::named(self.name.as_str(), score)
    }
}

} // verus!
