//! The Qdrant REST index: where its requests go and how its answers' status
//! codes are judged. The HTTP client, the JSON bodies and the floating-point
//! scores of a search belong to the caller.

use std::hash::{Hash, Hasher};
use vstd::prelude::*;

use crate::error::Error;
use crate::schema::{Utterance, UtteranceRecord};
use crate::text::{owned, push_str, push_url, trim_slashes};

verus! {

/// A Qdrant collection at a server. The base URL is kept without trailing
/// slashes.
#[derive(Debug, Clone)]
pub struct QdrantIndex {
    base: String,
    collection: String,
    dimensions: usize,
}

/// What a fresh `std::collections::hash_map::DefaultHasher` finishes with
/// after hashing `route` and then `utterance` as strings. Its keys are fixed,
/// so this depends on the two texts alone (for a given standard library: the
/// algorithm is not promised across releases).
pub uninterp spec fn point_hash(route: Seq<char>, utterance: Seq<char>) -> u64;

/// Hashes `route`, then `utterance`, with a fresh `DefaultHasher`.
#[verifier::external_body]
fn hash_route_utterance(route: &str, utterance: &str) -> (r: u64)
    ensures
        r == point_hash(route@, utterance@),
{
    let mut h = std::collections::hash_map::DefaultHasher::new();
    route.hash(&mut h);
    utterance.hash(&mut h);
    h.finish()
}

/// A successful HTTP status (`StatusCode::is_success`: 200 to 299).
pub open spec fn is_success(status: u16) -> bool {
    200 <= status <= 299
}

/// The error for a refused request: `qdrant {what}: {status}`.
pub open spec fn status_error(e: Error, what: Seq<char>, shown: Seq<char>) -> bool {
    e matches Error::Http(m) && m@ == "qdrant "@ + what + ": "@ + shown
}

/// Judges the status of an answer to the request `what`: success (or, where
/// `conflict_ok`, 409 "already exists") is `Ok`, anything else the error
/// naming the request and the status as `shown`.
pub fn check_status(what: &str, status: u16, shown: &str, conflict_ok: bool) -> (r: Result<(), Error>)
    ensures
        (is_success(status) || (conflict_ok && status == 409)) ==> r is Ok,
        !(is_success(status) || (conflict_ok && status == 409)) ==> (r matches Err(e)
            && status_error(e, what@, shown@)),
{
    if (200 <= status && status <= 299) || (conflict_ok && status == 409) {
        Ok(())
    } else {
        let mut m = owned("qdrant ");
        push_str(&mut m, what);
        push_str(&mut m, ": ");
        push_str(&mut m, shown);
        Err(Error::Http(m))
    }
}

impl QdrantIndex {
    /// The base URL, without trailing slashes.
    pub closed spec fn spec_base(&self) -> Seq<char> {
        self.base@
    }

    /// The collection name.
    pub closed spec fn spec_collection(&self) -> Seq<char> {
        self.collection@
    }

    /// The vector width of the collection.
    pub closed spec fn spec_dimensions(&self) -> nat {
        self.dimensions as nat
    }

    /// The index of `collection` at `base` (trailing slashes dropped), for
    /// `dimensions`-wide vectors.
    pub fn new(base: &str, collection: &str, dimensions: usize) -> (x: QdrantIndex)
        ensures
            x.spec_base() == trim_slashes(base@),
            x.spec_collection() == collection@,
            x.spec_dimensions() == dimensions,
    {
        let mut b = String::new();
        push_url(&mut b, base, "");
        proof {
            reveal_strlit("");
            assert(trim_slashes(base@) + ""@ =~= trim_slashes(base@));
        }
        QdrantIndex { base: b, collection: owned(collection), dimensions }
    }

    /// The base URL.
    pub fn base(&self) -> (r: &str)
        ensures
            r@ == self.spec_base(),
    {
        self.base.as_str()
    }

    /// The collection name.
    pub fn collection(&self) -> (r: &str)
        ensures
            r@ == self.spec_collection(),
    {
        self.collection.as_str()
    }

    /// The vector width.
    pub fn dimensions(&self) -> (r: usize)
        ensures
            r == self.spec_dimensions(),
    {
        self.dimensions
    }

    /// The kind of index, as reported to callers.
    pub fn index_type(&self) -> (r: &'static str)
        ensures
            r@ == "qdrant"@,
    {
        "qdrant"
    }

    /// A remote collection is always taken as ready.
    pub fn is_ready(&self) -> (r: bool)
        ensures
            r,
    {
        true
    }

    /// The server keeps the count; locally it is reported as zero.
    pub fn len(&self) -> (r: usize)
        ensures
            r == 0,
    {
        0
    }

    /// The stored utterances are not read back from Qdrant: always empty.
    pub fn get_utterances(&self, include_metadata: bool) -> (r: Vec<Utterance>)
        ensures
            r@.len() == 0,
    {
        Vec::new()
    }

    /// The ids of the points an upsert stores for `records`, in order: each
    /// the hash of the record's route and utterance, so that the same
    /// utterance of a route lands on the same point again.
    pub fn point_ids<S>(records: &[UtteranceRecord<S>]) -> (r: Vec<u64>)
        ensures
            r@.len() == records@.len(),
            forall|i: int|
                0 <= i < records@.len() ==> #[trigger] r@[i] == point_hash(
                    records@[i].route@,
                    records@[i].utterance@,
                ),
    {
        let mut out: Vec<u64> = Vec::new();
        let mut i: usize = 0;
        while i < records.len()
            invariant
                i <= records@.len(),
                out@.len() == i,
                forall|j: int|
                    0 <= j < i ==> #[trigger] out@[j] == point_hash(
                        records@[j].route@,
                        records@[j].utterance@,
                    ),
            decreases records.len() - i,
        {
            out.push(hash_route_utterance(records[i].route.as_str(), records[i].utterance.as_str()));
            i = i + 1;
        }
        out
    }

    /// `{base}/collections/{collection}{tail}`.
    fn collection_url_with(&self, tail: &str) -> (r: String)
        ensures
            r@ == self.spec_base() + "/collections/"@ + self.spec_collection() + tail@,
    {
        let mut r = owned(self.base.as_str());
        push_str(&mut r, "/collections/");
        push_str(&mut r, self.collection.as_str());
        push_str(&mut r, tail);
        r
    }

    /// `{base}/collections/{collection}`: created with `PUT`, dropped with
    /// `DELETE`.
    pub fn collection_url(&self) -> (r: String)
        ensures
            r@ == self.spec_base() + "/collections/"@ + self.spec_collection(),
    {
        let r = self.collection_url_with("");
        proof {
            reveal_strlit("");
            assert(self.spec_base() + "/collections/"@ + self.spec_collection() + ""@
                =~= self.spec_base() + "/collections/"@ + self.spec_collection());
        }
        r
    }

    /// `{base}/collections/{collection}/points?wait=true`: points are upserted
    /// here.
    pub fn points_url(&self) -> (r: String)
        ensures
            r@ == self.spec_base() + "/collections/"@ + self.spec_collection()
                + "/points?wait=true"@,
    {
        self.collection_url_with("/points?wait=true")
    }

    /// `{base}/collections/{collection}/points/search`.
    pub fn search_url(&self) -> (r: String)
        ensures
            r@ == self.spec_base() + "/collections/"@ + self.spec_collection()
                + "/points/search"@,
    {
        self.collection_url_with("/points/search")
    }

    /// `{base}/collections/{collection}/points/delete?wait=true`.
    pub fn delete_url(&self) -> (r: String)
        ensures
            r@ == self.spec_base() + "/collections/"@ + self.spec_collection()
                + "/points/delete?wait=true"@,
    {
        self.collection_url_with("/points/delete?wait=true")
    }

    /// The answer to creating the collection: success, or 409 when it already
    /// exists; else `qdrant create collection: {status}`.
    pub fn ensure_collection(&self, status: u16, shown: &str) -> (r: Result<(), Error>)
        ensures
            (is_success(status) || status == 409) ==> r is Ok,
            !(is_success(status) || status == 409) ==> (r matches Err(e) && status_error(
                e,
                "create collection"@,
                shown@,
            )),
    {
        check_status("create collection", status, shown, true)
    }
}

} // verus!
