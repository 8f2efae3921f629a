//! The in-memory hybrid (dense + sparse) index: records that all carry a
//! sparse vector, and the checks made before a query is scored.

use vstd::prelude::*;

use super::{drop_route, utterances_of, without_route};
use crate::error::Error;
use crate::schema::{record_utterance, SparseEmbedding, Utterance, UtteranceRecord};

verus! {

/// Records kept in memory, in insertion order; each has a sparse vector.
#[derive(Debug, Clone)]
pub struct HybridLocalIndex<S> {
    records: Vec<UtteranceRecord<S>>,
}

/// Every record carries a sparse vector.
pub open spec fn all_sparse<S>(rs: Seq<UtteranceRecord<S>>) -> bool {
    forall|i: int| 0 <= i < rs.len() ==> (#[trigger] rs[i]).sparse is Some
}

impl<S> HybridLocalIndex<S> {
    /// The records, in insertion order.
    pub closed spec fn spec_records(&self) -> Seq<UtteranceRecord<S>> {
        self.records@
    }

    /// An empty index.
    pub fn new() -> (x: HybridLocalIndex<S>)
        ensures
            x.spec_records() == Seq::<UtteranceRecord<S>>::empty(),
    {
        HybridLocalIndex { records: Vec::new() }
    }

    /// The records, in insertion order.
    pub fn records(&self) -> (r: &[UtteranceRecord<S>])
        ensures
            r@ == self.spec_records(),
    {
        self.records.as_slice()
    }

    /// Whether the index holds any record.
    pub fn is_ready(&self) -> (r: bool)
        ensures
            r == (self.spec_records().len() > 0),
    {
        self.records.len() != 0
    }

    /// The number of records.
    pub fn len(&self) -> (r: usize)
        ensures
            r == self.spec_records().len(),
    {
        self.records.len()
    }

    /// Whether the index is empty.
    pub fn is_empty(&self) -> (r: bool)
        ensures
            r == (self.spec_records().len() == 0),
    {
        self.records.len() == 0
    }

    /// Appends records, all of which must carry a sparse vector (else nothing
    /// is added and the answer is [`Error::MissingSparse`]).
    pub fn add(&mut self, records: Vec<UtteranceRecord<S>>) -> (r: Result<(), Error>)
        ensures
            all_sparse(records@) ==> r is Ok && final(self).spec_records()
                == old(self).spec_records() + records@,
            !all_sparse(records@) ==> (r matches Err(Error::MissingSparse)) && final(self).spec_records()
                == old(self).spec_records(),
    {
        let mut i: usize = 0;
        while i < records.len()
            invariant
                i <= records.len(),
                forall|j: int| 0 <= j < i ==> (#[trigger] records@[j]).sparse is Some,
            decreases records.len() - i,
        {
            if records[i].sparse.is_none() {
                return Err(Error::MissingSparse);
            }
            i = i + 1;
        }
        let mut records = records;
        self.records.append(&mut records);
        Ok(())
    }

    /// Drops every record of route `route_name`.
    pub fn delete_route(&mut self, route_name: &str)
        ensures
            final(self).spec_records() == without_route(old(self).spec_records(), route_name@),
    {
        drop_route(&mut self.records, route_name);
    }

    /// The stored utterances, in order.
    pub fn get_utterances(&self, include_metadata: bool) -> (r: Vec<Utterance>)
        ensures
            r@.len() == self.spec_records().len(),
            forall|i: int|
                0 <= i < r@.len() ==> record_utterance(
                    self.spec_records()[i],
                    include_metadata,
                    #[trigger] r@[i],
                ),
    {
        utterances_of(&self.records, include_metadata)
    }

    /// Drops every record.
    pub fn clear(&mut self)
        ensures
            final(self).spec_records() == Seq::<UtteranceRecord<S>>::empty(),
    {
        self.records.clear();
    }

    /// The checks made before a hybrid query is scored: route filters are
    /// not supported, the query's sparse vector is required, and an empty
    /// index answers with no match (`Ok(false)`); otherwise `Ok(true)`.
    pub fn query_gate(&self, route_filter: Option<&[String]>, sparse: Option<&SparseEmbedding<S>>) -> (r: Result<bool, Error>)
        ensures
            route_filter is Some ==> (r matches Err(Error::HybridRouteFilter)),
            route_filter is None && sparse is None ==> (r matches Err(Error::MissingSparse)),
            route_filter is None && sparse is Some ==> r == Ok::<bool, Error>(
                self.spec_records().len() > 0,
            ),
    {
        if route_filter.is_some() {
            return Err(Error::HybridRouteFilter);
        }
        if sparse.is_none() {
            return Err(Error::MissingSparse);
        }
        Ok(self.records.len() != 0)
    }
}

/// A hybrid index only ever holds records with a sparse vector: an empty
/// index does, a successful `add` appends only such records, and deleting a
/// route or clearing keeps a subset.
pub proof fn lemma_records_stay_sparse<S>(
    rs: Seq<UtteranceRecord<S>>,
    added: Seq<UtteranceRecord<S>>,
    name: Seq<char>,
)
    requires
        all_sparse(rs),
    ensures
        all_sparse(Seq::<UtteranceRecord<S>>::empty()),
        all_sparse(added) ==> all_sparse(rs + added),
        all_sparse(without_route(rs, name)),
{
    broadcast use vstd::seq_lib::group_filter_ensures, Seq::lemma_filter_contains_rev;
    let after = without_route(rs, name);
    assert forall|i: int| 0 <= i < after.len() implies (#[trigger] after[i]).sparse is Some by {
        assert(after.contains(after[i]));
        let j = choose|j: int| 0 <= j < rs.len() && rs[j] == after[i];
    }
    if all_sparse(added) {
        assert forall|i: int| 0 <= i < (rs + added).len() implies (#[trigger] (rs + added)[i]).sparse is Some by {
            if i < rs.len() {
                assert((rs + added)[i] == rs[i]);
            } else {
                assert((rs + added)[i] == added[i - rs.len()]);
            }
        }
    }
}

} // verus!
