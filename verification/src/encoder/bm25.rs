//! The BM25 sparse encoder: token ids (hash buckets of the words), term
//! counts, document lengths and document frequencies, and the distinct
//! terms of a query. The weights themselves (logarithms, length
//! normalisation) are floating-point work, done by the caller from these
//! counts.

use vstd::prelude::*;

use super::hash::{default_hash, tokenize, token_hash, tokens};
use crate::error::Error;
use crate::route::{string_views, Route};
use crate::router::{route_utterances, utterance_pairs};
use crate::text::owned;

verus! {

/// The id of a token among `vocab_size` buckets.
pub open spec fn token_id(t: Seq<char>, vocab_size: usize) -> u32 {
    ((default_hash(t) as usize) % vocab_size) as u32
}

/// The ids of the tokens of `text`, in order.
pub open spec fn text_ids(text: Seq<char>, vocab_size: usize) -> Seq<u32> {
    tokens(text).map_values(|t: Seq<char>| token_id(t, vocab_size))
}

/// How often id `j` occurs in `ids`.
pub open spec fn id_count(ids: Seq<u32>, j: int) -> nat {
    ids.filter(|x: u32| x as int == j).len()
}

/// The term counts of one document: `row[j]` is how often id `j` occurs,
/// except that id 0 is never counted.
pub open spec fn is_term_row(row: Seq<usize>, ids: Seq<u32>, vocab_size: usize) -> bool {
    &&& row.len() == vocab_size
    &&& row[0] == 0
    &&& forall|j: int| 0 < j < vocab_size ==> #[trigger] row[j] == id_count(ids, j)
}

/// How many ids of `ids` are not 0 (a document's length).
pub open spec fn nonzero_len(ids: Seq<u32>) -> nat {
    ids.filter(|x: u32| x != 0).len()
}

/// The BM25 encoder's settings and fitted statistics (`S` is the number
/// type; the encoder uses `f32`). `df[j]` is the document frequency of id `j`.
#[derive(Debug, Clone)]
pub struct Bm25Encoder<S> {
    name: String,
    k1: S,
    b: S,
    vocab_size: usize,
    corpus_size: Option<usize>,
    avg_doc_len: Option<S>,
    df: Option<Vec<S>>,
}

/// What fitting BM25 counts over the utterances of the routes: their number,
/// each one's length (its tokens with an id other than 0), and how many of
/// them hold each id (`df[j]`, 0 for id 0).
#[derive(Debug, Clone)]
pub struct Bm25Counts {
    pub corpus_size: usize,
    pub doc_lengths: Vec<usize>,
    pub df: Vec<usize>,
}

/// The utterances BM25 is fitted on, in order.
pub open spec fn bm25_documents<S>(routes: Seq<Route<S>>) -> Seq<Seq<char>> {
    route_utterances(routes).map_values(|p: (Seq<char>, Seq<char>)| p.1)
}

/// The number of documents in which id `j` occurs (`j` other than 0).
pub open spec fn id_doc_freq(docs: Seq<Seq<char>>, vocab_size: usize, j: int) -> nat {
    docs.filter(|d: Seq<char>| id_count(text_ids(d, vocab_size), j) > 0).len()
}

/// The error for fitting on no route.
pub open spec fn requires_routes(e: Error) -> bool {
    e matches Error::Message(m) && m@ == "BM25 fit requires routes"@
}

/// Counts the ids of `ids` into a row of `vocab_size` (id 0 not counted).
pub fn term_row(ids: &[u32], vocab_size: usize) -> (row: Vec<usize>)
    requires
        vocab_size > 0,
        forall|i: int| 0 <= i < ids@.len() ==> (#[trigger] ids@[i]) < vocab_size,
    ensures
        is_term_row(row@, ids@, vocab_size),
{
    let mut row: Vec<usize> = Vec::new();
    let mut j: usize = 0;
    while j < vocab_size
        invariant
            j <= vocab_size,
            row@.len() == j,
            forall|x: int| 0 <= x < j ==> #[trigger] row@[x] == 0,
        decreases vocab_size - j,
    {
        row.push(0);
        j = j + 1;
    }
    let mut k: usize = 0;
    while k < ids.len()
        invariant
            k <= ids@.len(),
            vocab_size > 0,
            forall|i: int| 0 <= i < ids@.len() ==> (#[trigger] ids@[i]) < vocab_size,
            row@.len() == vocab_size,
            row@[0] == 0,
            forall|x: int| 0 < x < vocab_size ==> #[trigger] row@[x] == id_count(ids@.take(k as int), x),
            forall|x: int| 0 <= x < vocab_size ==> #[trigger] row@[x] <= k,
        decreases ids.len() - k,
    {
        let id = ids[k];
        proof {
            assert(ids@.take(k + 1) =~= ids@.take(k as int).push(id));
            assert forall|x: int| 0 < x < vocab_size implies id_count(ids@.take(k + 1), x) == id_count(
                ids@.take(k as int),
                x,
            ) + if id as int == x {
                1nat
            } else {
                0nat
            } by {
                ids@.take(k as int).lemma_filter_push(id, |y: u32| y as int == x);
            }
        }
        if id != 0 {
            let i = id as usize;
            let cur = row[i];
            row.set(i, cur + 1);
        }
        k = k + 1;
    }
    assert(ids@.take(ids@.len() as int) =~= ids@);
    row
}

impl<S: Copy> Bm25Encoder<S> {
    /// The name.
    pub closed spec fn spec_name(&self) -> Seq<char> {
        self.name@
    }

    /// The number of id buckets.
    pub closed spec fn spec_vocab_size(&self) -> nat {
        self.vocab_size as nat
    }

    /// The term-frequency saturation parameter.
    pub closed spec fn spec_k1(&self) -> S {
        self.k1
    }

    /// The length-normalisation parameter.
    pub closed spec fn spec_b(&self) -> S {
        self.b
    }

    /// The fitted corpus size.
    pub closed spec fn spec_corpus_size(&self) -> Option<usize> {
        self.corpus_size
    }

    /// The fitted average document length.
    pub closed spec fn spec_avg_doc_len(&self) -> Option<S> {
        self.avg_doc_len
    }

    /// The fitted document frequencies.
    pub closed spec fn spec_df(&self) -> Option<Seq<S>> {
        match self.df {
            Some(v) => Some(v@),
            None => None,
        }
    }

    /// An unfitted encoder.
    pub fn new(name: &str, k1: S, b: S, vocab_size: usize) -> (e: Bm25Encoder<S>)
        ensures
            e.spec_name() == name@,
            e.spec_k1() == k1,
            e.spec_b() == b,
            e.spec_vocab_size() == vocab_size,
            e.spec_corpus_size() is None,
            e.spec_avg_doc_len() is None,
            e.spec_df() is None,
    {
        Bm25Encoder {
            name: owned(name),
            k1,
            b,
            vocab_size,
            corpus_size: None,
            avg_doc_len: None,
            df: None,
        }
    }

    /// The name.
    pub fn name(&self) -> (r: &str)
        ensures
            r@ == self.spec_name(),
    {
        self.name.as_str()
    }

    /// The number of id buckets.
    pub fn vocab_size(&self) -> (r: usize)
        ensures
            r == self.spec_vocab_size(),
    {
        self.vocab_size
    }

    /// The term-frequency saturation parameter.
    pub fn k1(&self) -> (r: S)
        ensures
            r == self.spec_k1(),
    {
        self.k1
    }

    /// The length-normalisation parameter.
    pub fn b(&self) -> (r: S)
        ensures
            r == self.spec_b(),
    {
        self.b
    }

    /// The fitted corpus size.
    pub fn corpus_size(&self) -> (r: Option<usize>)
        ensures
            r == self.spec_corpus_size(),
    {
        self.corpus_size
    }

    /// The fitted average document length.
    pub fn avg_doc_len(&self) -> (r: Option<S>)
        ensures
            r == self.spec_avg_doc_len(),
    {
        self.avg_doc_len
    }

    /// The fitted document frequencies.
    pub fn df(&self) -> (r: Option<&[S]>)
        ensures
            match r {
                Some(v) => self.spec_df() == Some(v@),
                None => self.spec_df() is None,
            },
    {
        match &self.df {
            Some(v) => Some(v.as_slice()),
            None => None,
        }
    }

    /// The ids of the tokens of `text`: each word of its lower-cased form,
    /// hashed into one of the buckets.
    pub fn token_ids(&self, text: &str) -> (r: Vec<u32>)
        requires
            self.spec_vocab_size() > 0,
        ensures
            r@ == text_ids(text@, self.spec_vocab_size() as usize),
            forall|i: int| 0 <= i < r@.len() ==> (#[trigger] r@[i]) < self.spec_vocab_size(),
    {
        let toks = tokenize(text);
        let ghost tv = string_views(toks@);
        let mut out: Vec<u32> = Vec::new();
        let mut k: usize = 0;
        while k < toks.len()
            invariant
                k <= toks@.len(),
                self.vocab_size > 0,
                tv == string_views(toks@),
                tv == tokens(text@),
                out@ == tv.take(k as int).map_values(|t: Seq<char>| token_id(t, self.vocab_size)),
                forall|i: int| 0 <= i < out@.len() ==> (#[trigger] out@[i]) < self.vocab_size,
            decreases toks.len() - k,
        {
            let h = token_hash(toks[k].as_str());
            let vs = self.vocab_size;
            let m = (#[verifier::truncate] (h as usize)) % vs;
            let id = #[verifier::truncate] (m as u32);
            proof {
                assert(m < self.vocab_size);
                assert(id == token_id(tv[k as int], self.vocab_size));
                assert(id < vs) by (bit_vector)
                    requires
                        m < vs,
                        id == m as u32,
                ;
            }
            out.push(id);
            assert(tv.take(k + 1) =~= tv.take(k as int).push(tv[k as int]));
            assert(out@ =~= tv.take(k + 1).map_values(|t: Seq<char>| token_id(t, self.vocab_size)));
            k = k + 1;
        }
        assert(tv.take(toks@.len() as int) =~= tv);
        out
    }

    /// Counts what BM25 is fitted on (see [`Bm25Counts`]); an error when
    /// there is no route.
    pub fn fit_counts(&self, routes: &[Route<S>]) -> (r: Result<Bm25Counts, Error>)
        requires
            self.spec_vocab_size() > 0,
        ensures
            routes@.len() == 0 ==> (r matches Err(e) && requires_routes(e)),
            routes@.len() > 0 ==> (r matches Ok(c) && {
                let docs = bm25_documents(routes@);
                let vs = self.spec_vocab_size() as usize;
                &&& c.corpus_size == docs.len()
                &&& c.doc_lengths@.len() == docs.len()
                &&& forall|d: int| 0 <= d < docs.len() ==> #[trigger] c.doc_lengths@[d] == nonzero_len(text_ids(docs[d], vs))
                &&& c.df@.len() == vs
                &&& c.df@[0] == 0
                &&& forall|j: int| 0 < j < vs ==> #[trigger] c.df@[j] == id_doc_freq(docs, vs, j)
            }),
    {
        if routes.len() == 0 {
            return Err(Error::Message(owned("BM25 fit requires routes")));
        }
        let vs = self.vocab_size;
        let pairs = utterance_pairs(routes);
        let ghost pv = pairs@.map_values(|p: (String, String)| (p.0@, p.1@));
        let ghost docs = bm25_documents(routes@);
        assert(docs.len() == pairs@.len());
        let mut rows: Vec<Vec<usize>> = Vec::new();
        let mut lengths: Vec<usize> = Vec::new();
        let mut d: usize = 0;
        while d < pairs.len()
            invariant
                d <= pairs@.len(),
                vs == self.vocab_size,
                vs > 0,
                pv == pairs@.map_values(|p: (String, String)| (p.0@, p.1@)),
                pv == route_utterances(routes@),
                docs == bm25_documents(routes@),
                docs.len() == pairs@.len(),
                rows@.len() == d,
                lengths@.len() == d,
                forall|e: int| 0 <= e < d ==> is_term_row(#[trigger] rows@[e]@, text_ids(docs[e], vs), vs),
                forall|e: int| 0 <= e < d ==> #[trigger] lengths@[e] == nonzero_len(text_ids(docs[e], vs)),
            decreases pairs.len() - d,
        {
            assert(docs[d as int] == pairs@[d as int].1@);
            let ids = self.token_ids(pairs[d].1.as_str());
            let row = term_row(ids.as_slice(), vs);
            let n = count_nonzero(ids.as_slice());
            rows.push(row);
            lengths.push(n);
            d = d + 1;
        }
        let mut df: Vec<usize> = Vec::new();
        df.push(0);
        let mut j: usize = 1;
        while j < vs
            invariant
                1 <= j <= vs,
                docs.len() == rows@.len(),
                df@.len() == j,
                df@[0] == 0,
                forall|e: int| 0 <= e < rows@.len() ==> is_term_row(#[trigger] rows@[e]@, text_ids(docs[e], vs), vs),
                forall|x: int| 0 < x < j ==> #[trigger] df@[x] == id_doc_freq(docs, vs, x),
            decreases vs - j,
        {
            let ghost pred = |dd: Seq<char>| id_count(text_ids(dd, vs), j as int) > 0;
            let mut n: usize = 0;
            let mut e: usize = 0;
            assert(docs.take(0).filter(pred) =~= Seq::<Seq<char>>::empty());
            while e < rows.len()
                invariant
                    e <= rows@.len(),
                    0 < j < vs,
                    docs.len() == rows@.len(),
                    pred == (|dd: Seq<char>| id_count(text_ids(dd, vs), j as int) > 0),
                    forall|x: int| 0 <= x < rows@.len() ==> is_term_row(#[trigger] rows@[x]@, text_ids(docs[x], vs), vs),
                    n == docs.take(e as int).filter(pred).len(),
                    n <= e,
                decreases rows.len() - e,
            {
                proof {
                    assert(docs.take(e + 1) =~= docs.take(e as int).push(docs[e as int]));
                    docs.take(e as int).lemma_filter_push(docs[e as int], pred);
                    assert(rows@[e as int]@[j as int] == id_count(text_ids(docs[e as int], vs), j as int));
                }
                if rows[e][j] > 0 {
                    n = n + 1;
                }
                e = e + 1;
            }
            assert(docs.take(rows@.len() as int) =~= docs);
            df.push(n);
            j = j + 1;
        }
        Ok(Bm25Counts { corpus_size: rows.len(), doc_lengths: lengths, df })
    }

    /// Installs fitted statistics.
    pub fn set_fitted(&mut self, corpus_size: usize, avg_doc_len: S, df: Vec<S>)
        ensures
            final(self).spec_name() == old(self).spec_name(),
            final(self).spec_k1() == old(self).spec_k1(),
            final(self).spec_b() == old(self).spec_b(),
            final(self).spec_vocab_size() == old(self).spec_vocab_size(),
            final(self).spec_corpus_size() == Some(corpus_size),
            final(self).spec_avg_doc_len() == Some(avg_doc_len),
            final(self).spec_df() == Some(df@),
    {
        self.corpus_size = Some(corpus_size);
        self.avg_doc_len = Some(avg_doc_len);
        self.df = Some(df);
    }
}

/// How many ids of `ids` are not 0.
pub fn count_nonzero(ids: &[u32]) -> (r: usize)
    ensures
        r == nonzero_len(ids@),
{
    let ghost pred = |x: u32| x != 0;
    let mut n: usize = 0;
    let mut k: usize = 0;
    assert(ids@.take(0).filter(pred) =~= Seq::<u32>::empty());
    while k < ids.len()
        invariant
            k <= ids@.len(),
            pred == (|x: u32| x != 0),
            n == ids@.take(k as int).filter(pred).len(),
            n <= k,
        decreases ids.len() - k,
    {
        proof {
            assert(ids@.take(k + 1) =~= ids@.take(k as int).push(ids@[k as int]));
            ids@.take(k as int).lemma_filter_push(ids@[k as int], pred);
        }
        if ids[k] != 0 {
            n = n + 1;
        }
        k = k + 1;
    }
    assert(ids@.take(ids@.len() as int) =~= ids@);
    n
}

/// The ids other than 0, each once, in the order they first occur.
pub open spec fn first_occurrences(ids: Seq<u32>) -> Seq<u32>
    decreases ids.len(),
{
    if ids.len() == 0 {
        Seq::empty()
    } else {
        let prev = first_occurrences(ids.drop_last());
        let x = ids.last();
        if x != 0 && !prev.contains(x) {
            prev.push(x)
        } else {
            prev
        }
    }
}

/// The distinct ids of a query other than 0, in the order they first occur
/// (each is weighted once).
pub fn query_terms(ids: &[u32]) -> (r: Vec<u32>)
    ensures
        r@ == first_occurrences(ids@),
        forall|i: int, j: int| 0 <= i < j < r@.len() ==> #[trigger] r@[i] != #[trigger] r@[j],
        forall|i: int| 0 <= i < r@.len() ==> #[trigger] r@[i] != 0 && ids@.contains(r@[i]),
        forall|k: int| 0 <= k < ids@.len() && #[trigger] ids@[k] != 0 ==> r@.contains(ids@[k]),
{
    let mut out: Vec<u32> = Vec::new();
    let mut k: usize = 0;
    while k < ids.len()
        invariant
            k <= ids@.len(),
            forall|i: int, j: int| 0 <= i < j < out@.len() ==> #[trigger] out@[i] != #[trigger] out@[j],
            forall|i: int| 0 <= i < out@.len() ==> #[trigger] out@[i] != 0 && ids@.contains(out@[i]),
            forall|m: int| 0 <= m < k && #[trigger] ids@[m] != 0 ==> out@.contains(ids@[m]),
            out@ == first_occurrences(ids@.take(k as int)),
        decreases ids.len() - k,
    {
        let id = ids[k];
        assert(ids@.take(k + 1).drop_last() =~= ids@.take(k as int));
        assert(ids@.take(k + 1).last() == id);
        if id != 0 {
            let mut seen = false;
            let mut i: usize = 0;
            while i < out.len()
                invariant
                    i <= out@.len(),
                    seen ==> out@.contains(id),
                    !seen ==> forall|x: int| 0 <= x < i ==> out@[x] != id,
                decreases out.len() - i,
            {
                if out[i] == id {
                    seen = true;
                }
                i = i + 1;
            }
            if !seen {
                let ghost before = out@;
                out.push(id);
                proof {
                    assert(ids@.contains(id)) by {
                        assert(ids@[k as int] == id);
                    }
                    assert forall|m: int| 0 <= m < k && #[trigger] ids@[m] != 0 implies out@.contains(ids@[m]) by {
                        let x = choose|x: int| 0 <= x < before.len() && before[x] == ids@[m];
                        assert(out@[x] == before[x]);
                    }
                    assert(out@[before.len() as int] == id);
                }
            }
        }
        k = k + 1;
    }
    assert(ids@.take(ids@.len() as int) =~= ids@);
    out
}

} // verus!
