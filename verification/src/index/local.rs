//! The in-memory dense index.

use vstd::prelude::*;

use super::{drop_route, utterances_of, without_route};
use crate::error::Error;
use crate::schema::{record_utterance, Utterance, UtteranceRecord};
use crate::text::{owned, str_eq};

verus! {

/// Records kept in memory, in insertion order. `S` is the value type.
#[derive(Debug, Clone)]
pub struct LocalIndex<S> {
    records: Vec<UtteranceRecord<S>>,
}

/// Whether a record passes the route filter (no filter passes all).
pub open spec fn passes<S>(r: UtteranceRecord<S>, filter: Option<Seq<Seq<char>>>) -> bool {
    match filter {
        None => true,
        Some(f) => f.contains(r.route@),
    }
}

/// The positions of the records that pass the filter, ascending.
pub open spec fn candidates<S>(rs: Seq<UtteranceRecord<S>>, filter: Option<Seq<Seq<char>>>) -> Seq<usize> {
    Seq::new(rs.len(), |i: int| i as usize).filter(|i: usize| passes(rs[i as int], filter))
}

/// What a query is answered before scoring: the candidate positions, or why
/// there is nothing to score.
pub open spec fn query_check<S>(rs: Seq<UtteranceRecord<S>>, dim: nat, filter: Option<Seq<Seq<char>>>) -> Result<Seq<usize>, Seq<char>> {
    let c = candidates(rs, filter);
    if rs.len() == 0 {
        Err("index is not ready"@)
    } else if c.len() == 0 {
        Err("no routes matched the filter"@)
    } else if exists|k: int| 0 <= k < c.len() && rs[c[k] as int].embedding@.len() != dim {
        Err("embedding dimension mismatch"@)
    } else {
        Ok(c)
    }
}

/// The filter as character sequences.
pub open spec fn filter_view(f: Option<&[String]>) -> Option<Seq<Seq<char>>> {
    match f {
        Some(v) => Some(crate::route::string_views(v@)),
        None => None,
    }
}

fn in_filter(filter: &[String], route: &str) -> (r: bool)
    ensures
        r == crate::route::string_views(filter@).contains(route@),
{
    let mut i: usize = 0;
    while i < filter.len()
        invariant
            i <= filter.len(),
            forall|j: int| 0 <= j < i ==> crate::route::string_views(filter@)[j] != route@,
        decreases filter.len() - i,
    {
        if str_eq(filter[i].as_str(), route) {
            assert(crate::route::string_views(filter@)[i as int] == route@);
            return true;
        }
        i = i + 1;
    }
    false
}

impl<S> LocalIndex<S> {
    /// The records, in insertion order.
    pub closed spec fn spec_records(&self) -> Seq<UtteranceRecord<S>> {
        self.records@
    }

    /// An empty index.
    pub fn new() -> (x: LocalIndex<S>)
        ensures
            x.spec_records() == Seq::<UtteranceRecord<S>>::empty(),
    {
        LocalIndex { records: Vec::new() }
    }

    /// The records, in insertion order.
    pub fn records(&self) -> (r: &[UtteranceRecord<S>])
        ensures
            r@ == self.spec_records(),
    {
        self.records.as_slice()
    }

    /// Whether the index holds any record.
    pub fn is_ready(&self) -> (r: bool)
        ensures
            r == (self.spec_records().len() > 0),
    {
        self.records.len() != 0
    }

    /// The number of records.
    pub fn len(&self) -> (r: usize)
        ensures
            r == self.spec_records().len(),
    {
        self.records.len()
    }

    /// Whether the index is empty.
    pub fn is_empty(&self) -> (r: bool)
        ensures
            r == (self.spec_records().len() == 0),
    {
        self.records.len() == 0
    }

    /// Appends records.
    pub fn add(&mut self, records: Vec<UtteranceRecord<S>>)
        ensures
            final(self).spec_records() == old(self).spec_records() + records@,
    {
        let mut records = records;
        self.records.append(&mut records);
    }

    /// Drops every record of route `route_name`.
    pub fn delete_route(&mut self, route_name: &str)
        ensures
            final(self).spec_records() == without_route(old(self).spec_records(), route_name@),
    {
        drop_route(&mut self.records, route_name);
    }

    /// The stored utterances, in order (with metadata and function schemas
    /// when `include_metadata`).
    pub fn get_utterances(&self, include_metadata: bool) -> (r: Vec<Utterance>)
        ensures
            r@.len() == self.spec_records().len(),
            forall|i: int|
                0 <= i < r@.len() ==> record_utterance(
                    self.spec_records()[i],
                    include_metadata,
                    #[trigger] r@[i],
                ),
    {
        utterances_of(&self.records, include_metadata)
    }

    /// Drops every record.
    pub fn clear(&mut self)
        ensures
            final(self).spec_records() == Seq::<UtteranceRecord<S>>::empty(),
    {
        self.records.clear();
    }

    /// The checks made before a query vector of width `dim` is scored: an
    /// empty index is not ready; a filter that no record passes is an error;
    /// every candidate's embedding must have width `dim`. On success, the
    /// positions of the candidate records, ascending.
    pub fn query_candidates(&self, dim: usize, route_filter: Option<&[String]>) -> (r: Result<Vec<usize>, Error>)
        ensures
            match query_check(self.spec_records(), dim as nat, filter_view(route_filter)) {
                Ok(c) => r matches Ok(v) && v@ == c,
                Err(m) => r matches Err(e) && crate::error::error_text(e) == Some(m),
            },
            self.spec_records().len() == 0 ==> (r matches Err(Error::IndexNotReady)),
            self.spec_records().len() > 0 && candidates(
                self.spec_records(),
                filter_view(route_filter),
            ).len() == 0 ==> (r matches Err(Error::EmptyFilter)),
            ({
                let c = candidates(self.spec_records(), filter_view(route_filter));
                &&& c.len() > 0
                &&& exists|k: int|
                    0 <= k < c.len() && self.spec_records()[c[k] as int].embedding@.len() != dim
            }) ==> (r matches Err(Error::Message(m)) && m@ == "embedding dimension mismatch"@),
    {
        let ghost rs = self.records@;
        let ghost fv = filter_view(route_filter);
        let ghost pred = |i: usize| passes(rs[i as int], fv);
        let ghost all = Seq::new(rs.len(), |i: int| i as usize);
        if self.records.len() == 0 {
            return Err(Error::IndexNotReady);
        }
        let mut out: Vec<usize> = Vec::new();
        let mut i: usize = 0;
        assert(all.take(0).filter(pred) =~= Seq::<usize>::empty());
        while i < self.records.len()
            invariant
                i <= rs.len(),
                rs == self.records@,
                fv == filter_view(route_filter),
                all == Seq::new(rs.len(), |i: int| i as usize),
                pred == (|i: usize| passes(rs[i as int], fv)),
                out@ == all.take(i as int).filter(pred),
            decreases rs.len() - i,
        {
            proof {
                assert(all.take(i + 1) =~= all.take(i as int).push(i));
                all.take(i as int).lemma_filter_push(i, pred);
            }
            let keep = match route_filter {
                None => true,
                Some(f) => in_filter(f, self.records[i].route.as_str()),
            };
            if keep {
                out.push(i);
            }
            i = i + 1;
        }
        assert(all.take(rs.len() as int) =~= all);
        assert(out@ == candidates(rs, fv));
        if out.len() == 0 {
            return Err(Error::EmptyFilter);
        }
        assert forall|j: int| 0 <= j < out@.len() implies (#[trigger] out@[j]) < rs.len() by {
            assert(out@.contains(out@[j]));
            all.lemma_filter_contains_rev(pred, out@[j]);
        }
        let mut k: usize = 0;
        while k < out.len()
            invariant
                k <= out@.len(),
                out@.len() > 0,
                rs.len() > 0,
                fv == filter_view(route_filter),
                out@ == candidates(rs, fv),
                rs == self.records@,
                forall|j: int| 0 <= j < out@.len() ==> (#[trigger] out@[j]) < rs.len(),
                forall|j: int| 0 <= j < k ==> rs[#[trigger] out@[j] as int].embedding@.len() == dim,
            decreases out@.len() - k,
        {
            if self.records[out[k]].embedding.len() != dim {
                assert(rs[out@[k as int] as int].embedding@.len() != dim);
                assert(exists|k2: int|
                    0 <= k2 < out@.len() && rs[out@[k2] as int].embedding@.len() != dim);
                return Err(Error::msg("embedding dimension mismatch"));
            }
            k = k + 1;
        }
        Ok(out)
    }

    /// The routes of the records at the given positions.
    pub fn routes_at(&self, positions: &[usize]) -> (r: Vec<String>)
        requires
            forall|j: int| 0 <= j < positions@.len() ==> positions@[j] < self.spec_records().len(),
        ensures
            r@.len() == positions@.len(),
            forall|j: int|
                0 <= j < positions@.len() ==> (#[trigger] r@[j])@ == self.spec_records()[positions@[j] as int].route@,
    {
        let mut out: Vec<String> = Vec::new();
        let mut j: usize = 0;
        while j < positions.len()
            invariant
                j <= positions@.len(),
                out@.len() == j,
                forall|i: int| 0 <= i < positions@.len() ==> positions@[i] < self.records@.len(),
                forall|i: int|
                    0 <= i < j ==> (#[trigger] out@[i])@ == self.records@[positions@[i] as int].route@,
            decreases positions.len() - j,
        {
            out.push(self.records[positions[j]].route.clone());
            j = j + 1;
        }
        out
    }
}

/// The candidates of a query are exactly the records that pass its route
/// filter: each candidate passes, and each record that passes is one.
pub proof fn lemma_candidates_are_passing_records<S>(rs: Seq<UtteranceRecord<S>>, filter: Option<Seq<Seq<char>>>)
    requires
        rs.len() <= usize::MAX,
    ensures
        ({
            let c = candidates(rs, filter);
            &&& forall|k: int| 0 <= k < c.len() ==> 0 <= #[trigger] c[k] < rs.len() && passes(rs[c[k] as int], filter)
            &&& forall|i: int| 0 <= i < rs.len() && passes(rs[i], filter) ==> c.contains(i as usize)
        }),
{
    broadcast use vstd::seq_lib::group_filter_ensures;
    let all = Seq::new(rs.len(), |i: int| i as usize);
    let pred = |i: usize| passes(rs[i as int], filter);
    let c = candidates(rs, filter);
    assert forall|k: int| 0 <= k < c.len() implies 0 <= #[trigger] c[k] < rs.len() && passes(rs[c[k] as int], filter) by {
        assert(c.contains(c[k]));
        all.lemma_filter_contains_rev(pred, c[k]);
        let j = choose|j: int| 0 <= j < all.len() && all[j] == c[k];
        assert(pred(c[k]));
    }
    assert forall|i: int| 0 <= i < rs.len() && passes(rs[i], filter) implies c.contains(i as usize) by {
        assert(all[i] == i as usize);
        assert(pred(all[i]));
    }
}

} // verus!
