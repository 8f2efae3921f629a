//! The deterministic bag-of-words dense encoder (no model, no network): its
//! configuration and its tokenizer. Turning tokens into a vector hashes and
//! normalises floating-point values, which the caller does.

use std::hash::{Hash, Hasher};

use vstd::prelude::*;

use crate::text::{chars_of, owned, string_from_chars};

verus! {

/// What `str::to_lowercase` gives: the Unicode lower-case mapping of each
/// character (a character may map to several).
pub uninterp spec fn unicode_lowercase(s: Seq<char>) -> Seq<char>;

/// Whether `char::is_alphanumeric` holds: the Unicode `Alphabetic` property
/// or the `Nd`, `Nl`, `No` general categories.
pub uninterp spec fn unicode_alphanumeric(c: char) -> bool;

/// `str::to_lowercase`.
#[verifier::external_body]
pub(crate) fn to_lowercase(s: &str) -> (r: String)
    ensures
        r@ == unicode_lowercase(s@),
{
    s.to_lowercase()
}

/// `char::is_alphanumeric`.
#[verifier::external_body]
pub(crate) fn is_alphanumeric(c: char) -> (r: bool)
    ensures
        r == unicode_alphanumeric(c),
{
    c.is_alphanumeric()
}

/// What a fresh `DefaultHasher` finishes with after hashing `token`. Its
/// keys are fixed, so this depends on the token alone (for a given standard
/// library: the algorithm is not promised across releases).
pub uninterp spec fn default_hash(token: Seq<char>) -> u64;

/// Hashes `token` with a fresh `std::collections::hash_map::DefaultHasher`.
#[verifier::external_body]
pub(crate) fn token_hash(token: &str) -> (r: u64)
    ensures
        r == default_hash(token@),
{
    let mut h = std::collections::hash_map::DefaultHasher::new();
    token.hash(&mut h);
    h.finish()
}

/// `cur` as a one-word list, or no word when it is empty.
pub open spec fn word_if_any(cur: Seq<char>) -> Seq<Seq<char>> {
    if cur.len() > 0 {
        seq![cur]
    } else {
        Seq::empty()
    }
}

/// The maximal runs of alphanumeric characters of `s`, after the partial word
/// `cur`.
pub open spec fn words_from(s: Seq<char>, cur: Seq<char>) -> Seq<Seq<char>>
    decreases s.len(),
{
    if s.len() == 0 {
        word_if_any(cur)
    } else if unicode_alphanumeric(s[0]) {
        words_from(s.drop_first(), cur.push(s[0]))
    } else {
        word_if_any(cur) + words_from(s.drop_first(), Seq::empty())
    }
}

/// The tokens of a text: the maximal runs of alphanumeric characters of its
/// lower-cased form, in order.
pub open spec fn tokens(text: Seq<char>) -> Seq<Seq<char>> {
    words_from(unicode_lowercase(text), Seq::empty())
}

/// Lower-cases `text` and splits it into its alphanumeric words.
pub fn tokenize(text: &str) -> (r: Vec<String>)
    ensures
        crate::route::string_views(r@) == tokens(text@),
        crate::route::string_views(r@).flatten() == unicode_lowercase(text@).filter(
            |c: char| unicode_alphanumeric(c),
        ),
        forall|i: int| 0 <= i < r@.len() ==> (#[trigger] r@[i])@.len() > 0,
{
    proof {
        lemma_tokens_keep_every_alphanumeric_char(text@);
    }
    let lower = to_lowercase(text);
    let cs = chars_of(lower.as_str());
    let ghost s = cs@;
    let mut out: Vec<String> = Vec::new();
    let mut cur: Vec<char> = Vec::new();
    let mut i: usize = 0;
    assert(s.skip(0) =~= s);
    while i < cs.len()
        invariant
            i <= cs.len(),
            s == cs@,
            s == unicode_lowercase(text@),
            words_from(s, Seq::empty()) == crate::route::string_views(out@) + words_from(
                s.skip(i as int),
                cur@,
            ),
        decreases cs.len() - i,
    {
        let c = cs[i];
        assert(s.skip(i as int)[0] == c);
        assert(s.skip(i as int).drop_first() =~= s.skip(i + 1));
        if is_alphanumeric(c) {
            cur.push(c);
        } else {
            let ghost before = crate::route::string_views(out@);
            if cur.len() > 0 {
                let w = string_from_chars(cur.as_slice());
                out.push(w);
                assert(crate::route::string_views(out@) =~= before + word_if_any(cur@));
            } else {
                assert(word_if_any(cur@) =~= Seq::<Seq<char>>::empty());
                assert(crate::route::string_views(out@) =~= before + word_if_any(cur@));
            }
            cur = Vec::new();
            assert(cur@ =~= Seq::<char>::empty());
        }
        i = i + 1;
    }
    let ghost before = crate::route::string_views(out@);
    assert(s.skip(i as int).len() == 0);
    if cur.len() > 0 {
        let w = string_from_chars(cur.as_slice());
        out.push(w);
        assert(crate::route::string_views(out@) =~= before + word_if_any(cur@));
    } else {
        assert(crate::route::string_views(out@) =~= before + word_if_any(cur@));
    }
    assert forall|i: int| 0 <= i < out@.len() implies (#[trigger] out@[i])@.len() > 0 by {
        assert(crate::route::string_views(out@)[i] == out@[i]@);
    }
    out
}

/// The bag-of-words encoder's settings: a name, a width of at least 8, and an
/// optional score threshold (`S` is the score type; the router uses `f32`).
#[derive(Debug)]
pub struct HashDenseEncoder<S> {
    name: String,
    dim: usize,
    score_threshold: Option<S>,
}

impl<S> HashDenseEncoder<S> {
    /// The width is at least 8.
    #[verifier::type_invariant]
    spec fn wide_enough(&self) -> bool {
        self.dim >= 8
    }
}

impl<S: Copy> HashDenseEncoder<S> {
    /// The name.
    pub closed spec fn spec_name(&self) -> Seq<char> {
        self.name@
    }

    /// The width.
    pub closed spec fn spec_dimensions(&self) -> nat {
        self.dim as nat
    }

    /// The score threshold.
    pub closed spec fn spec_score_threshold(&self) -> Option<S> {
        self.score_threshold
    }

    /// An encoder named `name` of width `dim` (raised to 8 when smaller).
    pub fn new(name: &str, dim: usize, score_threshold: Option<S>) -> (e: HashDenseEncoder<S>)
        ensures
            e.spec_name() == name@,
            e.spec_dimensions() == if dim < 8 { 8 } else { dim },
            e.spec_score_threshold() == score_threshold,
    {
        HashDenseEncoder {
            name: owned(name),
            dim: if dim < 8 { 8 } else { dim },
            score_threshold,
        }
    }

    /// The name.
    pub fn name(&self) -> (r: &str)
        ensures
            r@ == self.spec_name(),
    {
        self.name.as_str()
    }

    /// The width.
    pub fn dimensions(&self) -> (r: usize)
        ensures
            r == self.spec_dimensions(),
    {
        self.dim
    }

    /// The bucket counts of `text` before normalisation: for each bucket,
    /// how many tokens hash into it with a positive and with a negative
    /// sign (the vector is `positive - negative` per bucket, divided by its
    /// Euclidean norm).
    pub fn bucket_counts(&self, text: &str) -> (r: (Vec<usize>, Vec<usize>))
        ensures
            r.0@.len() == self.spec_dimensions(),
            r.1@.len() == self.spec_dimensions(),
            forall|j: int| 0 <= j < r.0@.len() ==> #[trigger] r.0@[j] == bucket_count(tokens(text@), self.spec_dimensions() as usize, j, true),
            forall|j: int| 0 <= j < r.1@.len() ==> #[trigger] r.1@[j] == bucket_count(tokens(text@), self.spec_dimensions() as usize, j, false),
            forall|j: int|
                0 <= j < r.0@.len() ==> #[trigger] r.0@[j] + r.1@[j] == tokens(text@).filter(
                    |t: Seq<char>| ((default_hash(t) as usize) % (self.spec_dimensions() as usize)) as int == j,
                ).len(),
    {
        proof {
            use_type_invariant(self);
        }
        let toks = tokenize(text);
        let ghost tv = crate::route::string_views(toks@);
        let mut pos: Vec<usize> = Vec::new();
        let mut neg: Vec<usize> = Vec::new();
        let mut j: usize = 0;
        while j < self.dim
            invariant
                j <= self.dim,
                pos@.len() == j,
                neg@.len() == j,
                forall|x: int| 0 <= x < j ==> #[trigger] pos@[x] == 0,
                forall|x: int| 0 <= x < j ==> #[trigger] neg@[x] == 0,
            decreases self.dim - j,
        {
            pos.push(0);
            neg.push(0);
            j = j + 1;
        }
        let mut k: usize = 0;
        while k < toks.len()
            invariant
                k <= toks@.len(),
                self.dim >= 8,
                tv == crate::route::string_views(toks@),
                tv == tokens(text@),
                pos@.len() == self.dim,
                neg@.len() == self.dim,
                forall|x: int| 0 <= x < self.dim ==> #[trigger] pos@[x] == bucket_count(tv.take(k as int), self.dim, x, true),
                forall|x: int| 0 <= x < self.dim ==> #[trigger] neg@[x] == bucket_count(tv.take(k as int), self.dim, x, false),
                forall|x: int| 0 <= x < self.dim ==> #[trigger] pos@[x] <= k,
                forall|x: int| 0 <= x < self.dim ==> #[trigger] neg@[x] <= k,
            decreases toks.len() - k,
        {
            let h = token_hash(toks[k].as_str());
            let idx = (#[verifier::truncate] (h as usize)) % self.dim;
            if (h >> 32u64) & 1u64 == 0u64 {
                let cur = pos[idx];
                pos.set(idx, cur + 1);
            } else {
                let cur = neg[idx];
                neg.set(idx, cur + 1);
            }
            proof {
                assert(tv.take(k + 1).drop_last() =~= tv.take(k as int));
                assert(tv.take(k + 1).last() == toks@[k as int]@);
            }
            k = k + 1;
        }
        assert(tv.take(toks@.len() as int) =~= tv);
        assert forall|j: int| 0 <= j < pos@.len() implies #[trigger] pos@[j] + neg@[j] == tv.filter(
            |t: Seq<char>| ((default_hash(t) as usize) % self.dim) as int == j,
        ).len() by {
            lemma_bucket_counts_total(tv, self.dim, j);
        }
        (pos, neg)
    }

    /// The score threshold.
    pub fn score_threshold(&self) -> (r: Option<S>)
        ensures
            r == self.spec_score_threshold(),
    {
        self.score_threshold
    }
}

/// The sign a token's hash gives its count: `+1` when bit 32 is clear,
/// else `-1`.
pub open spec fn hash_sign(h: u64) -> int {
    if (h >> 32u64) & 1u64 == 0u64 {
        1
    } else {
        -1
    }
}

/// The bucket a token's hash falls in among `dim`.
pub open spec fn hash_bucket(h: u64, dim: usize) -> int {
    ((h as usize) % dim) as int
}

/// How many tokens fall in bucket `j` with a positive (or, when `positive`
/// is false, a negative) sign.
pub open spec fn bucket_count(toks: Seq<Seq<char>>, dim: usize, j: int, positive: bool) -> nat
    decreases toks.len(),
{
    if toks.len() == 0 {
        0
    } else {
        let h = default_hash(toks.last());
        bucket_count(toks.drop_last(), dim, j, positive) + if hash_bucket(h, dim) == j && (hash_sign(h)
            == 1) == positive {
            1nat
        } else {
            0nat
        }
    }
}

impl<S: Copy> Clone for HashDenseEncoder<S> {
    /// The same settings.
    fn clone(&self) -> (r: Self)
        ensures
            r.spec_name() == self.spec_name(),
            r.spec_dimensions() == self.spec_dimensions(),
            r.spec_score_threshold() == self.spec_score_threshold(),
    {
        proof {
            use_type_invariant(self);
        }
        HashDenseEncoder { name: self.name.clone(), dim: self.dim, score_threshold: self.score_threshold }
    }
}

proof fn lemma_words_of_alphanumeric_run(s: Seq<char>, cur: Seq<char>)
    requires
        forall|j: int| 0 <= j < s.len() ==> unicode_alphanumeric(#[trigger] s[j]),
    ensures
        words_from(s, cur) == word_if_any(cur + s),
    decreases s.len(),
{
    if s.len() > 0 {
        assert(unicode_alphanumeric(s[0]));
        assert forall|j: int| 0 <= j < s.drop_first().len() implies unicode_alphanumeric(
            #[trigger] s.drop_first()[j],
        ) by {
            assert(s.drop_first()[j] == s[j + 1]);
        }
        lemma_words_of_alphanumeric_run(s.drop_first(), cur.push(s[0]));
        assert(cur.push(s[0]) + s.drop_first() =~= cur + s);
    } else {
        assert(cur + s =~= cur);
    }
}

/// A text whose lower-cased form is a non-empty run of characters for which
/// `char::is_alphanumeric` holds (letters and digits alike) is one token:
/// that lower-cased form.
pub proof fn lemma_alphanumeric_text_is_one_token(text: Seq<char>)
    requires
        unicode_lowercase(text).len() > 0,
        forall|j: int|
            0 <= j < unicode_lowercase(text).len() ==> unicode_alphanumeric(
                #[trigger] unicode_lowercase(text)[j],
            ),
    ensures
        tokens(text) == seq![unicode_lowercase(text)],
{
    let l = unicode_lowercase(text);
    lemma_words_of_alphanumeric_run(l, Seq::empty());
    assert(Seq::<char>::empty() + l =~= l);
}

proof fn lemma_words_from_flatten(s: Seq<char>, cur: Seq<char>)
    ensures
        words_from(s, cur).flatten() == cur + s.filter(|c: char| unicode_alphanumeric(c)),
        forall|i: int| 0 <= i < words_from(s, cur).len() ==> (#[trigger] words_from(s, cur)[i]).len() > 0,
    decreases s.len(),
{
    let p = |c: char| unicode_alphanumeric(c);
    if s.len() == 0 {
        assert(s.filter(p) =~= Seq::<char>::empty());
        if cur.len() > 0 {
            assert(seq![cur].drop_first() =~= Seq::<Seq<char>>::empty());
            assert(Seq::<Seq<char>>::empty().flatten() == Seq::<char>::empty());
            assert(seq![cur].first() == cur);
            assert(seq![cur].flatten() =~= cur + Seq::<char>::empty());
        }
        assert(cur + s.filter(p) =~= cur);
    } else {
        let t = s.drop_first();
        assert(s =~= seq![s[0]] + t);
        t.lemma_filter_prepend(s[0], p);
        if unicode_alphanumeric(s[0]) {
            lemma_words_from_flatten(t, cur.push(s[0]));
            assert(cur.push(s[0]) + t.filter(p) =~= cur + (seq![s[0]] + t.filter(p)));
        } else {
            lemma_words_from_flatten(t, Seq::empty());
            let rest = words_from(t, Seq::empty());
            assert(Seq::<char>::empty() + t.filter(p) =~= t.filter(p));
            if cur.len() > 0 {
                let all = seq![cur] + rest;
                assert(all.first() == cur);
                assert(all.drop_first() =~= rest);
            } else {
                assert(word_if_any(cur) + rest =~= rest);
                assert(cur + t.filter(p) =~= t.filter(p));
            }
            assert forall|i: int| 0 <= i < words_from(s, cur).len() implies (#[trigger] words_from(s, cur)[i]).len() > 0 by {
                if cur.len() > 0 && i == 0 {
                } else if cur.len() > 0 {
                    assert(words_from(s, cur)[i] == rest[i - 1]);
                } else {
                    assert(words_from(s, cur)[i] == rest[i]);
                }
            }
        }
    }
}

/// The tokens of a text, laid end to end, are exactly the characters of its
/// lower-cased form for which `char::is_alphanumeric` holds, in order (so
/// every such character, digits included, lands in a token, and no other
/// character does); and no token is empty.
pub proof fn lemma_tokens_keep_every_alphanumeric_char(text: Seq<char>)
    ensures
        tokens(text).flatten() == unicode_lowercase(text).filter(|c: char| unicode_alphanumeric(c)),
        forall|i: int| 0 <= i < tokens(text).len() ==> (#[trigger] tokens(text)[i]).len() > 0,
{
    let p = |c: char| unicode_alphanumeric(c);
    lemma_words_from_flatten(unicode_lowercase(text), Seq::empty());
    assert(Seq::<char>::empty() + unicode_lowercase(text).filter(p) =~= unicode_lowercase(text).filter(p));
}

/// For each bucket `j` of `dim`, its positive and negative counts together
/// count the tokens whose `DefaultHasher` hash, as a `usize`, is `j` modulo
/// `dim`.
pub proof fn lemma_bucket_counts_total(toks: Seq<Seq<char>>, dim: usize, j: int)
    requires
        dim > 0,
    ensures
        bucket_count(toks, dim, j, true) + bucket_count(toks, dim, j, false) == toks.filter(
            |t: Seq<char>| ((default_hash(t) as usize) % dim) as int == j,
        ).len(),
    decreases toks.len(),
{
    let p = |t: Seq<char>| ((default_hash(t) as usize) % dim) as int == j;
    if toks.len() == 0 {
        assert(toks.filter(p) =~= Seq::<Seq<char>>::empty());
    } else {
        let init = toks.drop_last();
        lemma_bucket_counts_total(init, dim, j);
        assert(init.push(toks.last()) =~= toks);
        init.lemma_filter_push(toks.last(), p);
    }
}

/// A one-token text counts once, in the bucket that token's hash falls in
/// modulo the encoder's width, and nowhere else.
pub proof fn lemma_one_token_one_bucket(t: Seq<char>, dim: usize, j: int)
    requires
        dim > 0,
    ensures
        bucket_count(seq![t], dim, j, true) + bucket_count(seq![t], dim, j, false) == if j == ((
        default_hash(t) as usize) % dim) as int {
            1int
        } else {
            0int
        },
{
    lemma_bucket_counts_total(seq![t], dim, j);
    let p = |u: Seq<char>| ((default_hash(u) as usize) % dim) as int == j;
    Seq::<Seq<char>>::empty().lemma_filter_push(t, p);
    assert(Seq::<Seq<char>>::empty().push(t) =~= seq![t]);
    assert(Seq::<Seq<char>>::empty().filter(p) =~= Seq::<Seq<char>>::empty());
}

} // verus!
