//! Vector indexes: the in-memory dense and hybrid indexes (their records and
//! the checks made before scoring), and the request shapes of the Postgres
//! and Qdrant indexes. Scoring itself is floating-point work, done by the
//! caller over the candidates these checks return.

pub mod hybrid_local;
pub mod local;
pub mod postgres;
pub mod qdrant;

use vstd::prelude::*;

use crate::schema::{record_utterance, Utterance, UtteranceRecord};
use crate::text::str_eq;

pub use hybrid_local::HybridLocalIndex;
pub use local::LocalIndex;

verus! {

/// The records of `rs` whose route is not `name`, in order.
pub open spec fn without_route<S>(rs: Seq<UtteranceRecord<S>>, name: Seq<char>) -> Seq<UtteranceRecord<S>> {
    rs.filter(|r: UtteranceRecord<S>| r.route@ != name)
}

/// Drops the records of route `name`, keeping the others in order.
pub fn drop_route<S>(records: &mut Vec<UtteranceRecord<S>>, name: &str)
    ensures
        final(records)@ == without_route(old(records)@, name@),
{
    let ghost pred = |r: UtteranceRecord<S>| r.route@ != name@;
    let ghost all = records@;
    let n = records.len();
    let mut kept: Vec<UtteranceRecord<S>> = Vec::new();
    let mut rest: Vec<UtteranceRecord<S>> = Vec::new();
    std::mem::swap(records, &mut rest);
    let mut i: usize = 0;
    assert(all.skip(0) =~= all);
    assert(all.take(0).filter(pred) =~= Seq::<UtteranceRecord<S>>::empty());
    while rest.len() > 0
        invariant
            i + rest@.len() == all.len(),
            all.len() == n,
            rest@ == all.skip(i as int),
            kept@ == all.take(i as int).filter(pred),
            pred == (|r: UtteranceRecord<S>| r.route@ != name@),
        decreases rest.len(),
    {
        let r = rest.remove(0);
        proof {
            assert(r == all[i as int]);
            assert(all.take(i + 1) =~= all.take(i as int).push(r));
            all.take(i as int).lemma_filter_push(r, pred);
            assert(all.skip(i + 1) =~= all.skip(i as int).drop_first());
        }
        if !str_eq(r.route.as_str(), name) {
            kept.push(r);
        }
        i = i + 1;
    }
    assert(all.take(all.len() as int) =~= all);
    *records = kept;
}

/// The utterances of a list of records, in order.
pub fn utterances_of<S>(records: &Vec<UtteranceRecord<S>>, include_metadata: bool) -> (r: Vec<Utterance>)
    ensures
        r@.len() == records@.len(),
        forall|i: int|
            0 <= i < records@.len() ==> record_utterance(
                records@[i],
                include_metadata,
                #[trigger] r@[i],
            ),
{
    let mut out: Vec<Utterance> = Vec::new();
    let mut i: usize = 0;
    while i < records.len()
        invariant
            i <= records.len(),
            out@.len() == i,
            forall|j: int|
                0 <= j < i ==> record_utterance(records@[j], include_metadata, #[trigger] out@[j]),
        decreases records.len() - i,
    {
        out.push(records[i].to_utterance(include_metadata));
        i = i + 1;
    }
    out
}

/// Deleting a route leaves no record of it and keeps every other record,
/// in order.
pub proof fn lemma_delete_route_keeps_others<S>(records: Seq<UtteranceRecord<S>>, name: Seq<char>)
    ensures
        ({
            let after = without_route(records, name);
            &&& forall|i: int| 0 <= i < after.len() ==> #[trigger] after[i].route@ != name
            &&& forall|i: int|
                0 <= i < records.len() && records[i].route@ != name ==> after.contains(#[trigger] records[i])
            &&& after.len() <= records.len()
        }),
{
    broadcast use vstd::seq_lib::group_filter_ensures;
}

} // verus!
