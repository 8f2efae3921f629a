//! The TF-IDF sparse encoder: text normalisation, the vocabulary, document
//! frequencies and term counts. The logarithms and the normalisation of the
//! weights are floating-point work, done by the caller from these counts.

use vstd::prelude::*;

use super::hash::{to_lowercase, unicode_lowercase};
use crate::error::Error;
use crate::route::{string_views, Route};
use crate::router::{route_utterances, utterance_pairs};
use crate::text::{char_is_whitespace, chars_of, is_white_space, owned, str_eq, string_from_chars};

verus! {

/// ASCII punctuation (`char::is_ascii_punctuation`): `!`–`/`, `:`–`@`,
/// `[`–`` ` `` and `{`–`~`.
pub open spec fn is_ascii_punct(c: char) -> bool {
    ('!' <= c && c <= '/') || (':' <= c && c <= '@') || ('[' <= c && c <= '`') || ('{' <= c
        && c <= '~')
}

/// A document as TF-IDF sees it: lower-cased, with ASCII punctuation removed.
pub open spec fn preprocessed(doc: Seq<char>) -> Seq<char> {
    unicode_lowercase(doc).filter(|c: char| !is_ascii_punct(c))
}

/// Lower-cases `doc` and drops its ASCII punctuation.
pub fn preprocess(doc: &str) -> (r: String)
    ensures
        r@ == preprocessed(doc@),
        r@ == unicode_lowercase(doc@).filter(|c: char| !in_ascii_punctuation_ranges(c)),
{
    proof {
        lemma_preprocess_drops_only_ascii_punctuation(doc@);
    }
    let lower = to_lowercase(doc);
    let cs = chars_of(lower.as_str());
    let ghost pred = |c: char| !is_ascii_punct(c);
    let mut out: Vec<char> = Vec::new();
    let mut i: usize = 0;
    assert(cs@.take(0).filter(pred) =~= Seq::<char>::empty());
    while i < cs.len()
        invariant
            i <= cs.len(),
            cs@ == unicode_lowercase(doc@),
            pred == (|c: char| !is_ascii_punct(c)),
            out@ == cs@.take(i as int).filter(pred),
        decreases cs.len() - i,
    {
        let c = cs[i];
        proof {
            assert(cs@.take(i + 1) =~= cs@.take(i as int).push(c));
            cs@.take(i as int).lemma_filter_push(c, pred);
        }
        let punct = ('!' <= c && c <= '/') || (':' <= c && c <= '@') || ('[' <= c && c <= '`')
            || ('{' <= c && c <= '~');
        if !punct {
            out.push(c);
        }
        i = i + 1;
    }
    assert(cs@.take(cs.len() as int) =~= cs@);
    string_from_chars(out.as_slice())
}

/// `cur` as a one-word list, or no word when it is empty.
pub open spec fn word_if_any(cur: Seq<char>) -> Seq<Seq<char>> {
    if cur.len() > 0 {
        seq![cur]
    } else {
        Seq::empty()
    }
}

/// The maximal runs of characters that are not white space in `s`, after
/// the partial word `cur`.
pub open spec fn ws_words_from(s: Seq<char>, cur: Seq<char>) -> Seq<Seq<char>>
    decreases s.len(),
{
    if s.len() == 0 {
        word_if_any(cur)
    } else if !is_white_space(s[0]) {
        ws_words_from(s.drop_first(), cur.push(s[0]))
    } else {
        word_if_any(cur) + ws_words_from(s.drop_first(), Seq::empty())
    }
}

/// The words of `s` as `str::split_whitespace` gives them.
pub open spec fn ws_words(s: Seq<char>) -> Seq<Seq<char>> {
    ws_words_from(s, Seq::empty())
}

/// Splits `s` at white space, dropping empty pieces.
pub fn split_whitespace(text: &str) -> (r: Vec<String>)
    ensures
        string_views(r@) == ws_words(text@),
{
    let cs = chars_of(text);
    let ghost s = cs@;
    let mut out: Vec<String> = Vec::new();
    let mut cur: Vec<char> = Vec::new();
    let mut i: usize = 0;
    assert(s.skip(0) =~= s);
    while i < cs.len()
        invariant
            i <= cs.len(),
            s == cs@,
            s == text@,
            ws_words_from(s, Seq::empty()) == string_views(out@) + ws_words_from(s.skip(i as int), cur@),
        decreases cs.len() - i,
    {
        let c = cs[i];
        assert(s.skip(i as int)[0] == c);
        assert(s.skip(i as int).drop_first() =~= s.skip(i + 1));
        if !char_is_whitespace(c) {
            cur.push(c);
        } else {
            let ghost before = string_views(out@);
            if cur.len() > 0 {
                let w = string_from_chars(cur.as_slice());
                out.push(w);
                assert(string_views(out@) =~= before + word_if_any(cur@));
            } else {
                assert(string_views(out@) =~= before + word_if_any(cur@));
            }
            cur = Vec::new();
            assert(cur@ =~= Seq::<char>::empty());
        }
        i = i + 1;
    }
    let ghost before = string_views(out@);
    assert(s.skip(i as int).len() == 0);
    if cur.len() > 0 {
        let w = string_from_chars(cur.as_slice());
        out.push(w);
        assert(string_views(out@) =~= before + word_if_any(cur@));
    } else {
        assert(string_views(out@) =~= before + word_if_any(cur@));
    }
    out
}

/// The documents TF-IDF is fitted on: every utterance of every route, in
/// order, preprocessed.
pub open spec fn fit_documents<S>(routes: Seq<Route<S>>) -> Seq<Seq<char>> {
    route_utterances(routes).map_values(|p: (Seq<char>, Seq<char>)| preprocessed(p.1))
}

/// The words of each document.
pub open spec fn document_words(docs: Seq<Seq<char>>) -> Seq<Seq<Seq<char>>> {
    docs.map_values(|d: Seq<char>| ws_words(d))
}

/// Whether `w` is a word of one of the documents.
pub open spec fn in_some_document(words: Seq<Seq<Seq<char>>>, w: Seq<char>) -> bool {
    exists|d: int| 0 <= d < words.len() && (#[trigger] words[d]).contains(w)
}

/// `v` is a vocabulary of `words`: each word of each document exactly once
/// (in no particular order).
pub open spec fn is_vocabulary(v: Seq<Seq<char>>, words: Seq<Seq<Seq<char>>>) -> bool {
    &&& forall|i: int, j: int| 0 <= i < j < v.len() ==> #[trigger] v[i] != #[trigger] v[j]
    &&& forall|i: int| 0 <= i < v.len() ==> in_some_document(words, #[trigger] v[i])
    &&& forall|d: int, k: int|
        0 <= d < words.len() && 0 <= k < words[d].len() ==> v.contains(#[trigger] words[d][k])
}

/// The number of documents in which `w` occurs.
pub open spec fn doc_freq(words: Seq<Seq<Seq<char>>>, w: Seq<char>) -> nat {
    words.filter(|ws: Seq<Seq<char>>| ws.contains(w)).len()
}

/// How often `w` occurs in `ws`.
pub open spec fn occurrences(ws: Seq<Seq<char>>, w: Seq<char>) -> nat {
    ws.filter(|x: Seq<char>| x == w).len()
}

/// The word lists of a list of documents.
pub open spec fn word_lists(v: Seq<Vec<String>>) -> Seq<Seq<Seq<char>>> {
    v.map_values(|ws: Vec<String>| string_views(ws@))
}

fn position_of(v: &Vec<String>, w: &str) -> (r: Option<usize>)
    ensures
        match r {
            Some(i) => i < v@.len() && v@[i as int]@ == w@,
            None => !string_views(v@).contains(w@),
        },
{
    let mut i: usize = 0;
    while i < v.len()
        invariant
            i <= v@.len(),
            forall|j: int| 0 <= j < i ==> v@[j]@ != w@,
        decreases v.len() - i,
    {
        if str_eq(v[i].as_str(), w) {
            return Some(i);
        }
        i = i + 1;
    }
    proof {
        if string_views(v@).contains(w@) {
            let j = choose|j: int| 0 <= j < string_views(v@).len() && string_views(v@)[j] == w@;
            assert(v@[j]@ == w@);
        }
    }
    None
}

fn count_word(ws: &Vec<String>, w: &str) -> (r: usize)
    ensures
        r == occurrences(string_views(ws@), w@),
{
    let ghost sv = string_views(ws@);
    let ghost pred = |x: Seq<char>| x == w@;
    let mut n: usize = 0;
    let mut i: usize = 0;
    assert(sv.take(0).filter(pred) =~= Seq::<Seq<char>>::empty());
    while i < ws.len()
        invariant
            i <= ws@.len(),
            sv == string_views(ws@),
            pred == (|x: Seq<char>| x == w@),
            n == sv.take(i as int).filter(pred).len(),
            n <= i,
        decreases ws.len() - i,
    {
        proof {
            assert(sv.take(i + 1) =~= sv.take(i as int).push(sv[i as int]));
            sv.take(i as int).lemma_filter_push(sv[i as int], pred);
        }
        if str_eq(ws[i].as_str(), w) {
            n = n + 1;
        }
        i = i + 1;
    }
    assert(sv.take(ws@.len() as int) =~= sv);
    n
}

fn count_documents_with(words: &Vec<Vec<String>>, w: &str) -> (r: usize)
    ensures
        r == doc_freq(word_lists(words@), w@),
{
    let ghost wl = word_lists(words@);
    let ghost pred = |ws: Seq<Seq<char>>| ws.contains(w@);
    let mut n: usize = 0;
    let mut d: usize = 0;
    assert(wl.take(0).filter(pred) =~= Seq::<Seq<Seq<char>>>::empty());
    while d < words.len()
        invariant
            d <= words@.len(),
            wl == word_lists(words@),
            pred == (|ws: Seq<Seq<char>>| ws.contains(w@)),
            n == wl.take(d as int).filter(pred).len(),
            n <= d,
        decreases words.len() - d,
    {
        proof {
            assert(wl.take(d + 1) =~= wl.take(d as int).push(wl[d as int]));
            wl.take(d as int).lemma_filter_push(wl[d as int], pred);
        }
        let found = position_of(&words[d], w);
        if found.is_some() {
            proof {
                let k = found->Some_0;
                assert(wl[d as int][k as int] == w@);
            }
            n = n + 1;
        }
        d = d + 1;
    }
    assert(wl.take(words@.len() as int) =~= wl);
    n
}

/// Each word of each document once, in the order the words first appear.
fn build_vocabulary(words: &Vec<Vec<String>>) -> (v: Vec<String>)
    ensures
        is_vocabulary(string_views(v@), word_lists(words@)),
{
    let ghost wl = word_lists(words@);
    let mut v: Vec<String> = Vec::new();
    let mut d: usize = 0;
    while d < words.len()
        invariant
            d <= words@.len(),
            wl == word_lists(words@),
            forall|i: int, j: int|
                0 <= i < j < v@.len() ==> #[trigger] string_views(v@)[i] != #[trigger] string_views(v@)[j],
            forall|i: int| 0 <= i < v@.len() ==> in_some_document(wl, #[trigger] string_views(v@)[i]),
            forall|e: int, k: int|
                0 <= e < d && 0 <= k < wl[e].len() ==> string_views(v@).contains(#[trigger] wl[e][k]),
        decreases words.len() - d,
    {
        let ws = &words[d];
        let mut k: usize = 0;
        while k < ws.len()
            invariant
                d < words@.len(),
                k <= ws@.len(),
                ws == words@[d as int],
                wl == word_lists(words@),
                forall|i: int, j: int|
                    0 <= i < j < v@.len() ==> #[trigger] string_views(v@)[i] != #[trigger] string_views(v@)[j],
                forall|i: int| 0 <= i < v@.len() ==> in_some_document(wl, #[trigger] string_views(v@)[i]),
                forall|e: int, m: int|
                    0 <= e < d && 0 <= m < wl[e].len() ==> string_views(v@).contains(#[trigger] wl[e][m]),
                forall|m: int| 0 <= m < k ==> string_views(v@).contains(#[trigger] wl[d as int][m]),
            decreases ws.len() - k,
        {
            let ghost old_v = string_views(v@);
            assert(wl[d as int][k as int] == ws@[k as int]@);
            match position_of(&v, ws[k].as_str()) {
                Some(x) => {
                    assert(old_v[x as int] == wl[d as int][k as int]);
                },
                None => {
                    v.push(ws[k].clone());
                    proof {
                        let nv = string_views(v@);
                        assert(nv =~= old_v.push(ws@[k as int]@));
                        assert(wl[d as int].contains(ws@[k as int]@));
                        assert(in_some_document(wl, ws@[k as int]@));
                        assert forall|i: int| 0 <= i < nv.len() implies in_some_document(wl, #[trigger] nv[i]) by {
                            if i < old_v.len() {
                                assert(nv[i] == old_v[i]);
                            }
                        }
                        assert forall|i: int, j: int| 0 <= i < j < nv.len() implies #[trigger] nv[i] != #[trigger] nv[j] by {
                            if j < old_v.len() {
                                assert(nv[i] == old_v[i] && nv[j] == old_v[j]);
                            } else {
                                assert(nv[i] == old_v[i]);
                                assert(old_v.contains(old_v[i]));
                            }
                        }
                        assert forall|e: int, m: int|
                            0 <= e < d && 0 <= m < wl[e].len() implies nv.contains(#[trigger] wl[e][m]) by {
                            assert(old_v.contains(wl[e][m]));
                            let x = choose|x: int| 0 <= x < old_v.len() && old_v[x] == wl[e][m];
                            assert(nv[x] == old_v[x]);
                        }
                        assert forall|m: int| 0 <= m < k + 1 implies nv.contains(#[trigger] wl[d as int][m]) by {
                            if m < k {
                                assert(old_v.contains(wl[d as int][m]));
                                let x = choose|x: int| 0 <= x < old_v.len() && old_v[x] == wl[d as int][m];
                                assert(nv[x] == old_v[x]);
                            } else {
                                assert(nv[old_v.len() as int] == wl[d as int][m]);
                            }
                        }
                    }
                },
            }
            k = k + 1;
        }
        d = d + 1;
    }
    v
}

/// What fitting TF-IDF counts: the vocabulary, how many documents contain
/// each of its words (`df[i]` for `vocabulary[i]`), and the number of
/// documents. The weights are `ln(n_docs / (df + 1))`.
#[derive(Debug, Clone)]
pub struct TfidfCounts {
    pub vocabulary: Vec<String>,
    pub df: Vec<usize>,
    pub n_docs: usize,
}

/// The error when the routes hold no word at all.
pub open spec fn too_little_data(e: Error) -> bool {
    e matches Error::Message(m) && m@ == "Too little data to fit TfidfEncoder"@
}

/// Counts what TF-IDF is fitted on: the preprocessed utterances of all the
/// routes, their vocabulary and document frequencies; an error when they
/// hold no word.
pub fn fit_counts<S>(routes: &[Route<S>]) -> (r: Result<TfidfCounts, Error>)
    ensures
        ({
            let w = document_words(fit_documents(routes@));
            match r {
                Ok(c) => {
                    &&& is_vocabulary(string_views(c.vocabulary@), w)
                    &&& c.vocabulary@.len() > 0
                    &&& c.df@.len() == c.vocabulary@.len()
                    &&& forall|i: int| 0 <= i < c.df@.len() ==> #[trigger] c.df@[i] == doc_freq(w, c.vocabulary@[i]@)
                    &&& c.n_docs == w.len()
                },
                Err(e) => too_little_data(e) && forall|d: int| 0 <= d < w.len() ==> #[trigger] w[d].len() == 0,
            }
        }),
{
    let pairs = utterance_pairs(routes);
    let ghost docs = fit_documents(routes@);
    let ghost pv = pairs@.map_values(|p: (String, String)| (p.0@, p.1@));
    let mut words: Vec<Vec<String>> = Vec::new();
    let mut i: usize = 0;
    while i < pairs.len()
        invariant
            i <= pairs@.len(),
            pv == pairs@.map_values(|p: (String, String)| (p.0@, p.1@)),
            pv == route_utterances(routes@),
            docs == fit_documents(routes@),
            word_lists(words@) == document_words(docs).take(i as int),
        decreases pairs.len() - i,
    {
        let doc = preprocess(pairs[i].1.as_str());
        let ws = split_whitespace(doc.as_str());
        let ghost before = words@;
        let ghost wsv = string_views(ws@);
        proof {
            assert(docs.len() == pv.len());
            assert(word_lists(before).len() == before.len());
            assert(before.len() == i);
        }
        words.push(ws);
        proof {
            assert(pv[i as int].1 == pairs@[i as int].1@);
            assert(docs[i as int] == preprocessed(pv[i as int].1));
            assert(document_words(docs)[i as int] == ws_words(docs[i as int]));
            assert(words@ =~= before.push(ws));
            assert(words@.len() == i + 1);
            assert(word_lists(words@)[i as int] == wsv);
            assert(word_lists(words@) =~= document_words(docs).take(i + 1)) by {
                assert forall|x: int| 0 <= x < i implies word_lists(words@)[x] == word_lists(before)[x] by {}
            }
        }
        i = i + 1;
    }
    let ghost wl = document_words(docs);
    assert(word_lists(words@) =~= wl);
    let vocabulary = build_vocabulary(&words);
    if vocabulary.len() == 0 {
        proof {
            assert forall|d: int| 0 <= d < wl.len() implies #[trigger] wl[d].len() == 0 by {
                if wl[d].len() > 0 {
                    assert(string_views(vocabulary@).contains(wl[d][0]));
                }
            }
        }
        return Err(Error::Message(owned("Too little data to fit TfidfEncoder")));
    }
    let mut df: Vec<usize> = Vec::new();
    let mut j: usize = 0;
    while j < vocabulary.len()
        invariant
            j <= vocabulary@.len(),
            df@.len() == j,
            word_lists(words@) == wl,
            forall|x: int| 0 <= x < j ==> #[trigger] df@[x] == doc_freq(wl, vocabulary@[x]@),
        decreases vocabulary.len() - j,
    {
        let c = count_documents_with(&words, vocabulary[j].as_str());
        df.push(c);
        j = j + 1;
    }
    Ok(TfidfCounts { vocabulary, df, n_docs: words.len() })
}

/// The error for encoding with an encoder that was not fitted.
pub open spec fn not_fitted(e: Error) -> bool {
    e matches Error::EncoderNotFitted
}

/// The error for encoding no document at all.
pub open spec fn no_documents(e: Error) -> bool {
    e matches Error::Message(m) && m@ == "No documents to encode"@
}

/// The TF-IDF encoder: a name, a vocabulary and one weight per vocabulary
/// word (`S` is the weight type; the encoder uses `f32`).
#[derive(Debug, Clone)]
pub struct TfidfEncoder<S> {
    name: String,
    vocabulary: Vec<String>,
    idf: Vec<S>,
}

impl<S> TfidfEncoder<S> {
    /// The name.
    pub closed spec fn spec_name(&self) -> Seq<char> {
        self.name@
    }

    /// The vocabulary.
    pub closed spec fn spec_vocabulary(&self) -> Seq<Seq<char>> {
        string_views(self.vocabulary@)
    }

    /// The weights.
    pub closed spec fn spec_idf(&self) -> Seq<S> {
        self.idf@
    }

    /// An unfitted encoder named `name`.
    pub fn new(name: &str) -> (e: TfidfEncoder<S>)
        ensures
            e.spec_name() == name@,
            e.spec_vocabulary().len() == 0,
            e.spec_idf().len() == 0,
    {
        TfidfEncoder { name: owned(name), vocabulary: Vec::new(), idf: Vec::new() }
    }

    /// The name.
    pub fn name(&self) -> (r: &str)
        ensures
            r@ == self.spec_name(),
    {
        self.name.as_str()
    }

    /// The vocabulary.
    pub fn vocabulary(&self) -> (r: &[String])
        ensures
            string_views(r@) == self.spec_vocabulary(),
    {
        self.vocabulary.as_slice()
    }

    /// The weights, one per vocabulary word.
    pub fn idf(&self) -> (r: &[S])
        ensures
            r@ == self.spec_idf(),
    {
        self.idf.as_slice()
    }

    /// Installs a fitted vocabulary and its weights.
    pub fn set_fitted(&mut self, vocabulary: Vec<String>, idf: Vec<S>)
        ensures
            final(self).spec_name() == old(self).spec_name(),
            final(self).spec_vocabulary() == string_views(vocabulary@),
            final(self).spec_idf() == idf@,
    {
        self.vocabulary = vocabulary;
        self.idf = idf;
    }

    /// The term counts of each document over the vocabulary:
    /// `r[d][i]` is how often `vocabulary[i]` occurs among the words of the
    /// preprocessed `docs[d]`. Errors when the encoder is not fitted, or when
    /// there is no document.
    pub fn term_counts(&self, docs: &[String]) -> (r: Result<Vec<Vec<usize>>, Error>)
        ensures
            (self.spec_vocabulary().len() == 0 || self.spec_idf().len() == 0) ==> (r matches Err(e)
                && not_fitted(e)),
            (self.spec_vocabulary().len() > 0 && self.spec_idf().len() > 0 && docs@.len() == 0) ==> (
            r matches Err(e) && no_documents(e)),
            (self.spec_vocabulary().len() > 0 && self.spec_idf().len() > 0 && docs@.len() > 0) ==> (
            r matches Ok(c) && c@.len() == docs@.len() && forall|d: int|
                0 <= d < docs@.len() ==> (#[trigger] c@[d])@.len() == self.spec_vocabulary().len()
                    && forall|i: int|
                    0 <= i < self.spec_vocabulary().len() ==> #[trigger] c@[d]@[i] == occurrences(
                        ws_words(preprocessed(docs@[d]@)),
                        self.spec_vocabulary()[i],
                    )),
    {
        if self.vocabulary.len() == 0 || self.idf.len() == 0 {
            return Err(Error::EncoderNotFitted);
        }
        if docs.len() == 0 {
            return Err(Error::Message(owned("No documents to encode")));
        }
        let ghost voc = self.spec_vocabulary();
        let mut out: Vec<Vec<usize>> = Vec::new();
        let mut d: usize = 0;
        while d < docs.len()
            invariant
                d <= docs@.len(),
                voc == string_views(self.vocabulary@),
                out@.len() == d,
                forall|e: int|
                    0 <= e < d ==> (#[trigger] out@[e])@.len() == voc.len() && forall|i: int|
                        0 <= i < voc.len() ==> #[trigger] out@[e]@[i] == occurrences(
                            ws_words(preprocessed(docs@[e]@)),
                            voc[i],
                        ),
            decreases docs.len() - d,
        {
            let pre = preprocess(docs[d].as_str());
            let ws = split_whitespace(pre.as_str());
            let mut row: Vec<usize> = Vec::new();
            let mut i: usize = 0;
            while i < self.vocabulary.len()
                invariant
                    i <= voc.len(),
                    voc == string_views(self.vocabulary@),
                    string_views(ws@) == ws_words(preprocessed(docs@[d as int]@)),
                    row@.len() == i,
                    forall|x: int| 0 <= x < i ==> #[trigger] row@[x] == occurrences(string_views(ws@), voc[x]),
                decreases self.vocabulary.len() - i,
            {
                row.push(count_word(&ws, self.vocabulary[i].as_str()));
                i = i + 1;
            }
            let ghost before = out@;
            out.push(row);
            proof {
                assert forall|e: int| 0 <= e < d + 1 implies (#[trigger] out@[e])@.len() == voc.len() && forall|i: int|
                    0 <= i < voc.len() ==> #[trigger] out@[e]@[i] == occurrences(
                        ws_words(preprocessed(docs@[e]@)),
                        voc[i],
                    ) by {
                    if e < d {
                        assert(out@[e] == before[e]);
                    }
                }
            }
            d = d + 1;
        }
        Ok(out)
    }
}

/// Whether `c` is one of the ASCII punctuation characters: `!` to `/`, `:`
/// to `@`, `[` to `` ` `` and `{` to `~`.
pub open spec fn in_ascii_punctuation_ranges(c: char) -> bool {
    (33 <= (c as int) <= 47) || (58 <= (c as int) <= 64) || (91 <= (c as int) <= 96) || (123
        <= (c as int) <= 126)
}

/// Preprocessing lower-cases a document and drops exactly its ASCII
/// punctuation: every other character (letters, digits, spaces, any
/// non-ASCII character) is kept, in order.
pub proof fn lemma_preprocess_drops_only_ascii_punctuation(doc: Seq<char>)
    ensures
        preprocessed(doc) == unicode_lowercase(doc).filter(|c: char| !in_ascii_punctuation_ranges(c)),
{
    let p = |c: char| !is_ascii_punct(c);
    let q = |c: char| !in_ascii_punctuation_ranges(c);
    assert forall|c: char| #[trigger] p(c) == q(c) by {
        assert(('!' <= c) == (33 <= (c as int)));
        assert((c <= '/') == ((c as int) <= 47));
        assert((':' <= c) == (58 <= (c as int)));
        assert((c <= '@') == ((c as int) <= 64));
        assert(('[' <= c) == (91 <= (c as int)));
        assert((c <= '`') == ((c as int) <= 96));
        assert(('{' <= c) == (123 <= (c as int)));
        assert((c <= '~') == ((c as int) <= 126));
    }
    assert(p =~= q);
}

proof fn lemma_filter_keeps_all(s: Seq<char>, p: spec_fn(char) -> bool)
    requires
        forall|j: int| 0 <= j < s.len() ==> p(#[trigger] s[j]),
    ensures
        s.filter(p) == s,
    decreases s.len(),
{
    if s.len() == 0 {
        assert(s.filter(p) =~= s);
    } else {
        let init = s.drop_last();
        assert forall|j: int| 0 <= j < init.len() implies p(#[trigger] init[j]) by {
            assert(init[j] == s[j]);
        }
        lemma_filter_keeps_all(init, p);
        assert(init.push(s.last()) =~= s);
        init.lemma_filter_push(s.last(), p);
        assert(p(s[s.len() - 1]));
    }
}

/// A document whose lower-cased form holds no ASCII punctuation preprocesses
/// to that lower-cased form, unchanged.
pub proof fn lemma_preprocess_without_punctuation(doc: Seq<char>)
    requires
        forall|j: int|
            0 <= j < unicode_lowercase(doc).len() ==> !in_ascii_punctuation_ranges(
                #[trigger] unicode_lowercase(doc)[j],
            ),
    ensures
        preprocessed(doc) == unicode_lowercase(doc),
{
    lemma_preprocess_drops_only_ascii_punctuation(doc);
    lemma_filter_keeps_all(unicode_lowercase(doc), |c: char| !in_ascii_punctuation_ranges(c));
}

} // verus!
