//! Utterance diff and sync strategy: which utterances each side must upsert
//! or delete so that a local and a remote index agree, per [`SyncMode`].
//! Utterances are compared by their key line `<route>: <utterance>`.

use vstd::prelude::*;
use vstd::relations::{sorted_by, total_ordering};

use crate::error::Error;
use crate::schema::{utterance_key, SyncMode, Utterance};
use crate::text::{chars_of, same_chars};

verus! {

/// Lexicographic order of character sequences by code point: the order of
/// `String` (UTF-8 byte order and code point order agree).
pub open spec fn key_le(a: Seq<char>, b: Seq<char>) -> bool
    decreases a.len(),
{
    if a.len() == 0 {
        true
    } else if b.len() == 0 {
        false
    } else if a[0] != b[0] {
        (a[0] as int) < (b[0] as int)
    } else {
        key_le(a.drop_first(), b.drop_first())
    }
}

/// [`key_le`] as a relation.
pub open spec fn key_order() -> spec_fn(Seq<char>, Seq<char>) -> bool {
    |a: Seq<char>, b: Seq<char>| key_le(a, b)
}

/// The key line of an utterance.
pub open spec fn key(u: Utterance) -> Seq<char> {
    utterance_key(u.route@, u.utterance@)
}

/// The key lines of a list of utterances.
pub open spec fn keys(s: Seq<Utterance>) -> Seq<Seq<char>> {
    s.map_values(|u: Utterance| key(u))
}

/// The last utterance of `s` whose key is `k`.
pub open spec fn last_with_key(s: Seq<Utterance>, k: Seq<char>) -> Utterance
    decreases s.len(),
{
    if s.len() == 0 {
        arbitrary()
    } else if key(s.last()) == k {
        s.last()
    } else {
        last_with_key(s.drop_last(), k)
    }
}

/// The utterances of `a` whose key `b` lacks, in ascending key order, one per
/// key occurrence in `a`, each the last of `a` with that key.
pub open spec fn only_in(a: Seq<Utterance>, b: Seq<Utterance>) -> Seq<Utterance> {
    keys(a).sort_by(key_order()).filter(|k: Seq<char>| !keys(b).contains(k)).map_values(
        |k: Seq<char>| last_with_key(a, k),
    )
}

proof fn lemma_key_le_reflexive(a: Seq<char>)
    ensures
        key_le(a, a),
    decreases a.len(),
{
    if a.len() > 0 {
        lemma_key_le_reflexive(a.drop_first());
    }
}

proof fn lemma_key_le_antisymmetric(a: Seq<char>, b: Seq<char>)
    requires
        key_le(a, b),
        key_le(b, a),
    ensures
        a == b,
    decreases a.len(),
{
    if a.len() > 0 && b.len() > 0 && a[0] == b[0] {
        lemma_key_le_antisymmetric(a.drop_first(), b.drop_first());
        assert(a =~= seq![a[0]] + a.drop_first());
        assert(b =~= seq![b[0]] + b.drop_first());
    } else if a.len() == 0 && b.len() == 0 {
        assert(a =~= b);
    }
}

proof fn lemma_key_le_transitive(a: Seq<char>, b: Seq<char>, c: Seq<char>)
    requires
        key_le(a, b),
        key_le(b, c),
    ensures
        key_le(a, c),
    decreases a.len(),
{
    if a.len() > 0 && b.len() > 0 && c.len() > 0 && a[0] == b[0] && b[0] == c[0] {
        lemma_key_le_transitive(a.drop_first(), b.drop_first(), c.drop_first());
    }
}

proof fn lemma_key_le_total(a: Seq<char>, b: Seq<char>)
    ensures
        key_le(a, b) || key_le(b, a),
    decreases a.len(),
{
    if a.len() > 0 && b.len() > 0 {
        if a[0] == b[0] {
            lemma_key_le_total(a.drop_first(), b.drop_first());
        } else {
            assert(a[0] as int != b[0] as int);
        }
    }
}

/// [`key_le`] is a total order.
pub proof fn lemma_key_order_is_total()
    ensures
        total_ordering(key_order()),
{
    let r = key_order();
    assert forall|x: Seq<char>| #[trigger] r(x, x) by {
        lemma_key_le_reflexive(x);
    }
    assert forall|x: Seq<char>, y: Seq<char>| #[trigger] r(x, y) && #[trigger] r(y, x) implies x
        == y by {
        lemma_key_le_antisymmetric(x, y);
    }
    assert forall|x: Seq<char>, y: Seq<char>, z: Seq<char>| #[trigger] r(x, y) && #[trigger] r(
        y,
        z,
    ) implies r(x, z) by {
        lemma_key_le_transitive(x, y, z);
    }
    assert forall|x: Seq<char>, y: Seq<char>| #[trigger] r(x, y) || #[trigger] r(y, x) by {
        lemma_key_le_total(x, y);
    }
}

/// The character sequences of a list of character vectors.
pub open spec fn char_seqs(v: Seq<Vec<char>>) -> Seq<Seq<char>> {
    v.map_values(|x: Vec<char>| x@)
}

fn copy_chars(v: &Vec<char>) -> (r: Vec<char>)
    ensures
        r@ == v@,
{
    let mut r: Vec<char> = Vec::new();
    let mut i: usize = 0;
    while i < v.len()
        invariant
            i <= v.len(),
            r@ == v@.take(i as int),
        decreases v.len() - i,
    {
        r.push(v[i]);
        assert(v@.take(i + 1) =~= v@.take(i as int).push(v@[i as int]));
        i = i + 1;
    }
    assert(v@.take(v.len() as int) =~= v@);
    r
}

fn key_le_exec(a: &Vec<char>, b: &Vec<char>) -> (r: bool)
    ensures
        r == key_le(a@, b@),
{
    let mut i: usize = 0;
    assert(a@.skip(0) =~= a@);
    assert(b@.skip(0) =~= b@);
    while i < a.len() && i < b.len()
        invariant
            i <= a.len(),
            i <= b.len(),
            key_le(a@, b@) == key_le(a@.skip(i as int), b@.skip(i as int)),
        decreases a.len() - i,
    {
        if a[i] != b[i] {
            assert(a@.skip(i as int)[0] == a@[i as int]);
            assert(b@.skip(i as int)[0] == b@[i as int]);
            return a[i] < b[i];
        }
        assert(a@.skip(i as int).drop_first() =~= a@.skip(i + 1));
        assert(b@.skip(i as int).drop_first() =~= b@.skip(i + 1));
        i = i + 1;
    }
    i == a.len()
}

fn key_chars(u: &Utterance) -> (r: Vec<char>)
    ensures
        r@ == key(*u),
{
    let s = u.to_str(false);
    chars_of(s.as_str())
}

fn keys_of(us: &Vec<Utterance>) -> (r: Vec<Vec<char>>)
    ensures
        char_seqs(r@) == keys(us@),
{
    let mut r: Vec<Vec<char>> = Vec::new();
    let mut i: usize = 0;
    while i < us.len()
        invariant
            i <= us.len(),
            char_seqs(r@) == keys(us@.take(i as int)),
        decreases us.len() - i,
    {
        r.push(key_chars(&us[i]));
        assert(keys(us@.take(i + 1)) =~= keys(us@.take(i as int)).push(key(us@[i as int])));
        assert(char_seqs(r@) =~= keys(us@.take(i + 1)));
        i = i + 1;
    }
    assert(us@.take(us.len() as int) =~= us@);
    r
}

/// Sorts key lines into ascending [`key_le`] order.
fn sort_keys(ks: &Vec<Vec<char>>) -> (r: Vec<Vec<char>>)
    ensures
        char_seqs(r@) == char_seqs(ks@).sort_by(key_order()),
{
    let ghost ko = key_order();
    proof {
        lemma_key_order_is_total();
    }
    let mut v: Vec<Vec<char>> = Vec::new();
    let mut i: usize = 0;
    assert(char_seqs(ks@).take(0) =~= char_seqs(v@));
    while i < ks.len()
        invariant
            i <= ks.len(),
            ko == key_order(),
            total_ordering(ko),
            sorted_by(char_seqs(v@), ko),
            char_seqs(v@).to_multiset() == char_seqs(ks@).take(i as int).to_multiset(),
        decreases ks.len() - i,
    {
        let k = copy_chars(&ks[i]);
        let ghost old_v = char_seqs(v@);
        let mut p: usize = 0;
        while p < v.len() && !key_le_exec(&k, &v[p])
            invariant
                p <= v.len(),
                old_v == char_seqs(v@),
                forall|j: int| 0 <= j < p ==> !key_le(k@, #[trigger] old_v[j]),
            decreases v.len() - p,
        {
            p = p + 1;
        }
        v.insert(p, k);
        let ghost w = char_seqs(v@);
        proof {
            assert(w =~= old_v.insert(p as int, k@));
            assert forall|x: int, y: int| 0 <= x < y < w.len() implies #[trigger] ko(
                w[x],
                w[y],
            ) by {
                if y < p {
                } else if y == p {
                    lemma_key_le_total(k@, old_v[x]);
                } else if x < p {
                    lemma_key_le_total(k@, old_v[x]);
                    assert(ko(old_v[x], old_v[y - 1]));
                } else if x == p {
                    assert(key_le(k@, old_v[p as int]));
                    if y - 1 > p {
                        assert(ko(old_v[p as int], old_v[y - 1]));
                        lemma_key_le_transitive(k@, old_v[p as int], old_v[y - 1]);
                    }
                } else {
                    assert(ko(old_v[x - 1], old_v[y - 1]));
                }
            }
            vstd::seq_lib::to_multiset_insert(old_v, p as int, k@);
            let t = char_seqs(ks@).take(i as int);
            assert(char_seqs(ks@).take(i + 1) =~= t.push(char_seqs(ks@)[i as int]));
            vstd::seq_lib::to_multiset_build(t, char_seqs(ks@)[i as int]);
        }
        i = i + 1;
    }
    proof {
        assert(char_seqs(ks@).take(ks.len() as int) =~= char_seqs(ks@));
        char_seqs(ks@).lemma_sort_by_ensures(ko);
        vstd::seq_lib::lemma_sorted_unique(char_seqs(v@), char_seqs(ks@).sort_by(ko), ko);
    }
    v
}

fn has_key(ks: &Vec<Vec<char>>, k: &Vec<char>) -> (r: bool)
    ensures
        r == char_seqs(ks@).contains(k@),
{
    let mut i: usize = 0;
    while i < ks.len()
        invariant
            i <= ks.len(),
            forall|j: int| 0 <= j < i ==> char_seqs(ks@)[j] != k@,
        decreases ks.len() - i,
    {
        let same = same_chars(ks[i].as_slice(), k.as_slice());
        if same {
            assert(char_seqs(ks@)[i as int] == k@);
            return true;
        }
        i = i + 1;
    }
    false
}

/// The last utterance of `us` whose key is `k` (`ks` holds the keys of `us`).
fn last_with(us: &Vec<Utterance>, ks: &Vec<Vec<char>>, k: &Vec<char>) -> (r: Utterance)
    requires
        char_seqs(ks@) == keys(us@),
        keys(us@).contains(k@),
    ensures
        r == last_with_key(us@, k@),
{
    let mut j: usize = us.len();
    assert(us@.take(j as int) =~= us@);
    while j > 0
        invariant
            j <= us.len(),
            us.len() == ks.len(),
            char_seqs(ks@) == keys(us@),
            keys(us@.take(j as int)).contains(k@),
            last_with_key(us@, k@) == last_with_key(us@.take(j as int), k@),
        decreases j,
    {
        let ghost t = us@.take(j as int);
        assert(t.last() == us@[j - 1]);
        assert(t.drop_last() =~= us@.take(j - 1));
        assert(char_seqs(ks@)[j - 1] == key(us@[j - 1]));
        if same_chars(ks[j - 1].as_slice(), k.as_slice()) {
            return us[j - 1].duplicate();
        }
        proof {
            let i = choose|i: int| 0 <= i < keys(t).len() && keys(t)[i] == k@;
            assert(i != j - 1);
            assert(keys(us@.take(j - 1))[i] == k@);
        }
        j = j - 1;
    }
    proof {
        assert(keys(us@.take(0)).len() == 0);
    }
    us[0].duplicate()
}

/// The utterances of `a` whose key `b` lacks (see [`only_in`]); `ka` and `kb`
/// hold the keys of `a` and `b`.
fn only_in_exec(a: &Vec<Utterance>, ka: &Vec<Vec<char>>, b: &Vec<Utterance>, kb: &Vec<Vec<char>>) -> (r: Vec<Utterance>)
    requires
        char_seqs(ka@) == keys(a@),
        char_seqs(kb@) == keys(b@),
    ensures
        r@ == only_in(a@, b@),
{
    let sorted = sort_keys(ka);
    let ghost srt = char_seqs(sorted@);
    let ghost pred = |k: Seq<char>| !keys(b@).contains(k);
    let ghost f = |k: Seq<char>| last_with_key(a@, k);
    proof {
        lemma_key_order_is_total();
        keys(a@).lemma_sort_by_ensures(key_order());
    }
    let mut out: Vec<Utterance> = Vec::new();
    let mut i: usize = 0;
    assert(srt.take(0) =~= Seq::<Seq<char>>::empty());
    assert(srt.take(0).filter(pred) =~= Seq::<Seq<char>>::empty());
    while i < sorted.len()
        invariant
            i <= sorted.len(),
            srt == char_seqs(sorted@),
            srt == keys(a@).sort_by(key_order()),
            srt.to_multiset() == keys(a@).to_multiset(),
            char_seqs(ka@) == keys(a@),
            char_seqs(kb@) == keys(b@),
            pred == (|k: Seq<char>| !keys(b@).contains(k)),
            f == (|k: Seq<char>| last_with_key(a@, k)),
            out@ == srt.take(i as int).filter(pred).map_values(f),
        decreases sorted.len() - i,
    {
        let ghost k = srt[i as int];
        assert(srt.take(i + 1) =~= srt.take(i as int).push(k));
        proof {
            srt.take(i as int).lemma_filter_push(k, pred);
        }
        if !has_key(kb, &sorted[i]) {
            proof {
                vstd::seq_lib::to_multiset_contains(srt, k);
                assert(srt.contains(k)) by {
                    assert(srt[i as int] == k);
                }
                vstd::seq_lib::to_multiset_contains(keys(a@), k);
            }
            let u = last_with(a, ka, &sorted[i]);
            out.push(u);
            assert(out@ =~= srt.take(i + 1).filter(pred).map_values(f));
        } else {
            assert(out@ =~= srt.take(i + 1).filter(pred).map_values(f));
        }
        i = i + 1;
    }
    assert(srt.take(sorted.len() as int) =~= srt);
    out
}

/// What each side must change: utterances to upsert into and delete from the
/// remote index, and into and from the local one.
#[derive(Debug)]
pub struct SyncPlan {
    pub remote_upsert: Vec<Utterance>,
    pub remote_delete: Vec<Utterance>,
    pub local_upsert: Vec<Utterance>,
    pub local_delete: Vec<Utterance>,
}

/// The four lists of a plan, in field order.
pub open spec fn plan_lists(p: SyncPlan) -> (Seq<Utterance>, Seq<Utterance>, Seq<Utterance>, Seq<Utterance>) {
    (p.remote_upsert@, p.remote_delete@, p.local_upsert@, p.local_delete@)
}

/// The plan for `mode` (remote upsert, remote delete, local upsert, local
/// delete), or `None` where `mode` is `Error` and the two sides differ.
///
/// * `Local` and `MergeForceLocal`: the remote side takes the local-only
///   utterances and drops the remote-only ones.
/// * `Remote` and `MergeForceRemote`: the local side takes the remote-only
///   utterances and drops the local-only ones.
/// * `Merge`: each side takes what only the other has; nothing is dropped.
pub open spec fn sync_plan(local: Seq<Utterance>, remote: Seq<Utterance>, mode: SyncMode) -> Option<
    (Seq<Utterance>, Seq<Utterance>, Seq<Utterance>, Seq<Utterance>),
> {
    let lo = only_in(local, remote);
    let ro = only_in(remote, local);
    let e = Seq::<Utterance>::empty();
    match mode {
        SyncMode::Error => if lo.len() == 0 && ro.len() == 0 {
            Some((e, e, e, e))
        } else {
            None
        },
        SyncMode::Local => Some((lo, ro, e, e)),
        SyncMode::MergeForceLocal => Some((lo, ro, e, e)),
        SyncMode::Remote => Some((e, e, ro, lo)),
        SyncMode::MergeForceRemote => Some((e, e, ro, lo)),
        SyncMode::Merge => Some((lo, e, ro, e)),
    }
}

/// Compares the local and remote utterances by key line and plans the
/// changes that `mode` calls for; in `Error` mode any difference is a
/// [`Error::SyncConflict`].
pub fn diff_and_plan(local: &Vec<Utterance>, remote: &Vec<Utterance>, mode: SyncMode) -> (r: Result<SyncPlan, Error>)
    ensures
        match sync_plan(local@, remote@, mode) {
            Some(p) => r matches Ok(plan) && plan_lists(plan) == p,
            None => r matches Err(Error::SyncConflict),
        },
{
    let lk = keys_of(local);
    let rk = keys_of(remote);
    let local_only = only_in_exec(local, &lk, remote, &rk);
    let remote_only = only_in_exec(remote, &rk, local, &lk);
    let ghost e = Seq::<Utterance>::empty();
    match mode {
        SyncMode::Error => {
            if local_only.len() != 0 || remote_only.len() != 0 {
                return Err(Error::SyncConflict);
            }
            let plan = SyncPlan {
                remote_upsert: Vec::new(),
                remote_delete: Vec::new(),
                local_upsert: Vec::new(),
                local_delete: Vec::new(),
            };
            assert(plan_lists(plan) == (e, e, e, e));
            Ok(plan)
        },
        SyncMode::Local | SyncMode::MergeForceLocal => {
            let plan = SyncPlan {
                remote_upsert: local_only,
                remote_delete: remote_only,
                local_upsert: Vec::new(),
                local_delete: Vec::new(),
            };
            assert(plan.local_upsert@ =~= e);
            Ok(plan)
        },
        SyncMode::Remote | SyncMode::MergeForceRemote => {
            let plan = SyncPlan {
                remote_upsert: Vec::new(),
                remote_delete: Vec::new(),
                local_upsert: remote_only,
                local_delete: local_only,
            };
            assert(plan.remote_upsert@ =~= e);
            Ok(plan)
        },
        SyncMode::Merge => {
            let plan = SyncPlan {
                remote_upsert: local_only,
                remote_delete: Vec::new(),
                local_upsert: remote_only,
                local_delete: Vec::new(),
            };
            assert(plan.remote_delete@ =~= e);
            Ok(plan)
        },
    }
}

proof fn lemma_last_with_key_has_key(s: Seq<Utterance>, k: Seq<char>)
    requires
        keys(s).contains(k),
    ensures
        key(last_with_key(s, k)) == k,
        s.contains(last_with_key(s, k)),
    decreases s.len(),
{
    if key(s.last()) != k {
        let i = choose|i: int| 0 <= i < keys(s).len() && keys(s)[i] == k;
        assert(i != s.len() - 1);
        assert(keys(s.drop_last())[i] == k);
        lemma_last_with_key_has_key(s.drop_last(), k);
        let w = last_with_key(s.drop_last(), k);
        let j = choose|j: int| 0 <= j < s.drop_last().len() && s.drop_last()[j] == w;
        assert(s[j] == w);
    } else {
        assert(s[s.len() - 1] == s.last());
    }
}

/// The keys of the utterances only `a` has are exactly the keys of `a` that
/// `b` lacks, and each of those utterances is one of `a`'s.
pub proof fn lemma_only_in_keys(a: Seq<Utterance>, b: Seq<Utterance>)
    ensures
        keys(only_in(a, b)).to_set() == keys(a).to_set().difference(keys(b).to_set()),
        forall|i: int| 0 <= i < only_in(a, b).len() ==> a.contains(#[trigger] only_in(a, b)[i]),
{
    let pred = |k: Seq<char>| !keys(b).contains(k);
    let srt = keys(a).sort_by(key_order());
    let flt = srt.filter(pred);
    lemma_key_order_is_total();
    keys(a).lemma_sort_by_ensures(key_order());
    assert forall|k: Seq<char>| #[trigger] srt.contains(k) <==> keys(a).contains(k) by {
        vstd::seq_lib::to_multiset_contains(srt, k);
        vstd::seq_lib::to_multiset_contains(keys(a), k);
    }
    assert forall|i: int| 0 <= i < flt.len() implies keys(a).contains(#[trigger] flt[i]) by {
        assert(flt.contains(flt[i]));
        srt.lemma_filter_contains_rev(pred, flt[i]);
    }
    assert forall|i: int| 0 <= i < flt.len() implies key(last_with_key(a, #[trigger] flt[i]))
        == flt[i] && a.contains(last_with_key(a, flt[i])) by {
        lemma_last_with_key_has_key(a, flt[i]);
    }
    assert(keys(only_in(a, b)) =~= flt);
    assert forall|k: Seq<char>| #[trigger] flt.contains(k) <==> (keys(a).contains(k) && !keys(
        b,
    ).contains(k)) by {
        if flt.contains(k) {
            let i = choose|i: int| 0 <= i < flt.len() && flt[i] == k;
            srt.lemma_filter_pred(pred, i);
            srt.lemma_filter_contains_rev(pred, k);
            assert(srt.contains(k));
        }
        if keys(a).contains(k) && !keys(b).contains(k) {
            assert(srt.contains(k));
            let j = choose|j: int| 0 <= j < srt.len() && srt[j] == k;
            assert(pred(srt[j]));
            srt.lemma_filter_contains(pred, j);
        }
    }
    assert(keys(only_in(a, b)).to_set() =~= keys(a).to_set().difference(keys(b).to_set()));
}

/// `Error` mode succeeds exactly when both sides hold the same key lines.
pub proof fn lemma_error_mode_iff_same_keys(local: Seq<Utterance>, remote: Seq<Utterance>)
    ensures
        sync_plan(local, remote, SyncMode::Error) is Some <==> keys(local).to_set() == keys(
            remote,
        ).to_set(),
{
    lemma_only_in_keys(local, remote);
    lemma_only_in_keys(remote, local);
    let (l, r) = (keys(local).to_set(), keys(remote).to_set());
    let (lo, ro) = (only_in(local, remote), only_in(remote, local));
    if lo.len() == 0 && ro.len() == 0 {
        assert(keys(lo).to_set() =~= Set::empty());
        assert(keys(ro).to_set() =~= Set::empty());
        assert forall|k| l.contains(k) <==> r.contains(k) by {
            assert(!l.difference(r).contains(k));
            assert(!r.difference(l).contains(k));
        }
        assert(l =~= r);
    }
    if l == r {
        assert(l.difference(r) =~= Set::empty());
        if lo.len() > 0 {
            assert(keys(lo).to_set().contains(keys(lo)[0]));
        }
        if ro.len() > 0 {
            assert(keys(ro).to_set().contains(keys(ro)[0]));
        }
    }
}

/// `Local` (and `MergeForceLocal`) make the remote side converge on the
/// local keys: remote keys, less the deleted ones, plus the upserted ones,
/// are the local keys.
pub proof fn lemma_local_mode_converges(local: Seq<Utterance>, remote: Seq<Utterance>)
    ensures
        ({
            let (up, del, _, _) = sync_plan(local, remote, SyncMode::Local)->Some_0;
            keys(remote).to_set().difference(keys(del).to_set()).union(keys(up).to_set())
                == keys(local).to_set()
        }),
        sync_plan(local, remote, SyncMode::MergeForceLocal) == sync_plan(
            local,
            remote,
            SyncMode::Local,
        ),
{
    lemma_only_in_keys(local, remote);
    lemma_only_in_keys(remote, local);
    let (up, del, _, _) = sync_plan(local, remote, SyncMode::Local)->Some_0;
    assert(keys(remote).to_set().difference(keys(del).to_set()).union(keys(up).to_set())
        =~= keys(local).to_set());
}

/// `Remote` (and `MergeForceRemote`) make the local side converge on the
/// remote keys.
pub proof fn lemma_remote_mode_converges(local: Seq<Utterance>, remote: Seq<Utterance>)
    ensures
        ({
            let (_, _, up, del) = sync_plan(local, remote, SyncMode::Remote)->Some_0;
            keys(local).to_set().difference(keys(del).to_set()).union(keys(up).to_set())
                == keys(remote).to_set()
        }),
        sync_plan(local, remote, SyncMode::MergeForceRemote) == sync_plan(
            local,
            remote,
            SyncMode::Remote,
        ),
{
    lemma_only_in_keys(local, remote);
    lemma_only_in_keys(remote, local);
    let (_, _, up, del) = sync_plan(local, remote, SyncMode::Remote)->Some_0;
    assert(keys(local).to_set().difference(keys(del).to_set()).union(keys(up).to_set())
        =~= keys(remote).to_set());
}

/// `Merge` deletes nothing, and both sides end up with the union of the keys.
pub proof fn lemma_merge_mode_unites(local: Seq<Utterance>, remote: Seq<Utterance>)
    ensures
        ({
            let (rup, rdel, lup, ldel) = sync_plan(local, remote, SyncMode::Merge)->Some_0;
            &&& rdel.len() == 0
            &&& ldel.len() == 0
            &&& keys(remote).to_set().union(keys(rup).to_set()) == keys(local).to_set().union(
                keys(remote).to_set(),
            )
            &&& keys(local).to_set().union(keys(lup).to_set()) == keys(local).to_set().union(
                keys(remote).to_set(),
            )
        }),
{
    lemma_only_in_keys(local, remote);
    lemma_only_in_keys(remote, local);
    let (rup, rdel, lup, ldel) = sync_plan(local, remote, SyncMode::Merge)->Some_0;
    assert(keys(remote).to_set().union(keys(rup).to_set()) =~= keys(local).to_set().union(
        keys(remote).to_set(),
    ));
    assert(keys(local).to_set().union(keys(lup).to_set()) =~= keys(local).to_set().union(
        keys(remote).to_set(),
    ));
}

proof fn lemma_filter_keeps_strict_order(s: Seq<Seq<char>>, p: spec_fn(Seq<char>) -> bool)
    requires
        sorted_by(s, key_order()),
        s.no_duplicates(),
    ensures
        sorted_by(s.filter(p), key_order()),
        s.filter(p).no_duplicates(),
    decreases s.len(),
{
    if s.len() > 0 {
        let init = s.drop_last();
        let x = s.last();
        assert(init.push(x) =~= s);
        assert(sorted_by(init, key_order())) by {
            assert forall|i: int, j: int| 0 <= i < j < init.len() implies #[trigger] key_order()(
                init[i],
                init[j],
            ) by {
                assert(key_order()(s[i], s[j]));
            }
        }
        assert(init.no_duplicates()) by {
            assert forall|i: int, j: int| 0 <= i < init.len() && 0 <= j < init.len() && i != j implies init[i] != init[j] by {
                assert(s[i] != s[j]);
            }
        }
        lemma_filter_keeps_strict_order(init, p);
        init.lemma_filter_push(x, p);
        if p(x) {
            let f = init.filter(p);
            let g = f.push(x);
            assert forall|i: int| 0 <= i < f.len() implies key_order()(#[trigger] f[i], x) && f[i] != x by {
                assert(f.contains(f[i]));
                init.lemma_filter_contains_rev(p, f[i]);
                let k = choose|k: int| 0 <= k < init.len() && init[k] == f[i];
                assert(key_order()(s[k], s[s.len() - 1]));
                assert(s[k] != s[s.len() - 1]);
            }
            assert(sorted_by(g, key_order())) by {
                assert forall|i: int, j: int| 0 <= i < j < g.len() implies #[trigger] key_order()(
                    g[i],
                    g[j],
                ) by {
                    if j < f.len() {
                        assert(key_order()(f[i], f[j]));
                    } else {
                        assert(g[j] == x);
                        assert(g[i] == f[i]);
                    }
                }
            }
            assert(g.no_duplicates()) by {
                assert forall|i: int, j: int| 0 <= i < g.len() && 0 <= j < g.len() && i != j implies g[i] != g[j] by {
                    if i < f.len() && j < f.len() {
                    } else if i < f.len() {
                        assert(f[i] != x);
                    } else {
                        assert(f[j] != x);
                    }
                }
            }
        }
    }
}

proof fn lemma_last_with_key_is_the_one(s: Seq<Utterance>, j: int)
    requires
        keys(s).no_duplicates(),
        0 <= j < s.len(),
    ensures
        last_with_key(s, key(s[j])) == s[j],
{
    let k = key(s[j]);
    assert(keys(s)[j] == k);
    lemma_last_with_key_has_key(s, k);
    let w = last_with_key(s, k);
    let m = choose|m: int| 0 <= m < s.len() && s[m] == w;
    assert(keys(s)[m] == k);
}

/// Where no key line occurs twice in `a`, the utterances only `a` has (the
/// lists a plan upserts or deletes) are exactly the utterances of `a` whose
/// key `b` lacks, each once, in strictly ascending key order.
pub proof fn lemma_only_in_sorted_one_sided(a: Seq<Utterance>, b: Seq<Utterance>)
    requires
        keys(a).no_duplicates(),
    ensures
        ({
            let o = only_in(a, b);
            &&& forall|i: int, j: int|
                0 <= i < j < o.len() ==> key_le(key(#[trigger] o[i]), key(#[trigger] o[j])) && key(o[i])
                    != key(o[j])
            &&& forall|i: int| 0 <= i < o.len() ==> a.contains(#[trigger] o[i]) && !keys(b).contains(key(o[i]))
            &&& forall|u: Utterance| a.contains(u) && !keys(b).contains(key(u)) ==> #[trigger] o.contains(u)
        }),
{
    let pred = |k: Seq<char>| !keys(b).contains(k);
    let srt = keys(a).sort_by(key_order());
    let flt = srt.filter(pred);
    let o = only_in(a, b);
    lemma_key_order_is_total();
    keys(a).lemma_sort_by_ensures(key_order());
    keys(a).lemma_multiset_has_no_duplicates();
    assert forall|x: Seq<char>| srt.to_multiset().contains(x) implies srt.to_multiset().count(x) == 1 by {}
    srt.lemma_multiset_has_no_duplicates_conv();
    lemma_filter_keeps_strict_order(srt, pred);
    lemma_only_in_keys(a, b);
    assert(o.len() == flt.len());
    assert forall|i: int| 0 <= i < flt.len() implies keys(a).contains(#[trigger] flt[i]) && pred(flt[i]) by {
        assert(flt.contains(flt[i]));
        srt.lemma_filter_contains_rev(pred, flt[i]);
        vstd::seq_lib::to_multiset_contains(srt, flt[i]);
        vstd::seq_lib::to_multiset_contains(keys(a), flt[i]);
        srt.lemma_filter_pred(pred, i);
    }
    assert forall|i: int| 0 <= i < o.len() implies key(#[trigger] o[i]) == flt[i] && a.contains(o[i]) by {
        lemma_last_with_key_has_key(a, flt[i]);
    }
    assert forall|i: int, j: int| 0 <= i < j < o.len() implies key_le(key(#[trigger] o[i]), key(#[trigger] o[j])) && key(o[i]) != key(o[j]) by {
        assert(key_order()(flt[i], flt[j]));
        assert(flt[i] != flt[j]);
    }
    assert forall|u: Utterance| a.contains(u) && !keys(b).contains(key(u)) implies #[trigger] o.contains(u) by {
        let j = choose|j: int| 0 <= j < a.len() && a[j] == u;
        assert(keys(a)[j] == key(u));
        vstd::seq_lib::to_multiset_contains(keys(a), key(u));
        vstd::seq_lib::to_multiset_contains(srt, key(u));
        let m = choose|m: int| 0 <= m < srt.len() && srt[m] == key(u);
        srt.lemma_filter_contains(pred, m);
        let i = choose|i: int| 0 <= i < flt.len() && flt[i] == key(u);
        lemma_last_with_key_is_the_one(a, j);
        assert(o[i] == u);
    }
}

} // verus!
