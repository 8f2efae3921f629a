//! From an index's answer to the routes a router returns: hits grouped by
//! route, the threshold each route is held to, and which scored routes pass.
//! Aggregating and comparing the scores themselves is floating-point work,
//! done by the caller between these steps.

use vstd::prelude::*;

use super::first_named;
use crate::route::{string_views, Route};
use crate::schema::RouteChoice;
use crate::text::str_eq;

verus! {

/// The positions below `n`.
pub open spec fn positions(n: nat) -> Seq<usize> {
    Seq::new(n, |q: int| q as usize)
}

/// The positions of the hits of route `name` among the first `n` hits.
pub open spec fn hits_of(routes: Seq<Seq<char>>, n: nat, name: Seq<char>) -> Seq<usize> {
    positions(n).filter(|q: usize| routes[q as int] == name)
}

/// Whether `groups` groups the first `n` hits `routes` by route: one group per
/// distinct route, in the order the routes first appear, each with the
/// positions of its hits in ascending order.
pub open spec fn groups_hits(groups: Seq<(Seq<char>, Seq<usize>)>, routes: Seq<Seq<char>>, n: nat) -> bool {
    &&& forall|g: int| 0 <= g < groups.len() ==> (#[trigger] groups[g]).1 == hits_of(routes, n, groups[g].0)
    &&& forall|g: int| 0 <= g < groups.len() ==> (#[trigger] groups[g]).1.len() > 0
    &&& forall|g: int, h: int| 0 <= g < h < groups.len() ==> (#[trigger] groups[g]).0 != (#[trigger] groups[h]).0
    &&& forall|g: int, h: int| 0 <= g < h < groups.len() ==> (#[trigger] groups[g]).1[0] < (#[trigger] groups[h]).1[0]
    &&& forall|q: int| 0 <= q < n ==> exists|g: int| 0 <= g < groups.len() && (#[trigger] groups[g]).0 == #[trigger] routes[q]
}

/// The groups as character sequences and position sequences.
pub open spec fn group_views(v: Seq<(String, Vec<usize>)>) -> Seq<(Seq<char>, Seq<usize>)> {
    v.map_values(|e: (String, Vec<usize>)| (e.0@, e.1@))
}

proof fn lemma_positions_push(n: nat)
    ensures
        positions(n + 1) == positions(n).push(n as usize),
{
    assert(positions(n + 1) =~= positions(n).push(n as usize));
}

/// Groups the hits of an answer by route: each distinct route once, in the
/// order the routes first appear, with the positions of its hits ascending.
pub fn group_hits(routes: &[String]) -> (r: Vec<(String, Vec<usize>)>)
    ensures
        groups_hits(group_views(r@), string_views(routes@), routes@.len() as nat),
{
    let ghost rv = string_views(routes@);
    let mut out: Vec<(String, Vec<usize>)> = Vec::new();
    let mut p: usize = 0;
    while p < routes.len()
        invariant
            p <= routes@.len(),
            rv == string_views(routes@),
            groups_hits(group_views(out@), rv, p as nat),
        decreases routes.len() - p,
    {
        let ghost old_groups = group_views(out@);
        let ghost pred = |name: Seq<char>| |q: usize| rv[q as int] == name;
        proof {
            lemma_positions_push(p as nat);
        }
        let mut k: usize = 0;
        let mut found = false;
        while k < out.len() && !found
            invariant
                k <= out@.len(),
                p < routes@.len(),
                !found ==> forall|g: int| 0 <= g < k ==> out@[g].0@ != routes@[p as int]@,
                found ==> k > 0 && out@[k - 1].0@ == routes@[p as int]@,
            decreases out.len() - k + (if found { 0int } else { 1int }),
        {
            if str_eq(out[k].0.as_str(), routes[p].as_str()) {
                found = true;
            }
            k = k + 1;
        }
        let ghost name_p = rv[p as int];
        assert(name_p == routes@[p as int]@);
        if found {
            let g = k - 1;
            let (nm, mut ps) = out.remove(g);
            ps.push(p);
            out.insert(g, (nm, ps));
            proof {
                let ng = group_views(out@);
                assert(ng.len() == old_groups.len());
                assert forall|h: int| 0 <= h < ng.len() implies #[trigger] ng[h] == (if h == g {
                    (old_groups[h].0, old_groups[h].1.push(p))
                } else {
                    old_groups[h]
                }) by {}
                assert forall|h: int| 0 <= h < ng.len() implies (#[trigger] ng[h]).1 == hits_of(
                    rv,
                    (p + 1) as nat,
                    ng[h].0,
                ) by {
                    positions(p as nat).lemma_filter_push(p, |q: usize| rv[q as int] == ng[h].0);
                    assert(old_groups[g as int].0 == rv[p as int]);
                    if h != g {
                        assert(old_groups[h].0 != old_groups[g as int].0);
                    }
                }
                assert forall|h: int| 0 <= h < ng.len() implies (#[trigger] ng[h]).1.len() > 0 by {}
                assert forall|a: int, b: int| 0 <= a < b < ng.len() implies (#[trigger] ng[a]).1[0]
                    < (#[trigger] ng[b]).1[0] by {
                    assert(old_groups[a].1[0] < old_groups[b].1[0]);
                }
                assert forall|q: int| 0 <= q < p + 1 implies exists|h: int|
                    0 <= h < ng.len() && (#[trigger] ng[h]).0 == #[trigger] rv[q] by {
                    if q < p {
                        let h = choose|h: int| 0 <= h < old_groups.len() && old_groups[h].0 == rv[q];
                        assert(ng[h].0 == rv[q]);
                    } else {
                        assert(ng[g as int].0 == rv[q]);
                    }
                }
                assert(groups_hits(ng, rv, (p + 1) as nat));
            }
        } else {
            let mut ps: Vec<usize> = Vec::new();
            ps.push(p);
            out.push((routes[p].clone(), ps));
            proof {
                let ng = group_views(out@);
                let n = old_groups.len();
                assert(ng =~= old_groups.push((name_p, seq![p])));
                assert forall|h: int| 0 <= h < ng.len() implies (#[trigger] ng[h]).1 == hits_of(
                    rv,
                    (p + 1) as nat,
                    ng[h].0,
                ) by {
                    positions(p as nat).lemma_filter_push(p, |q: usize| rv[q as int] == ng[h].0);
                    if h == n {
                        assert forall|q: int| 0 <= q < p implies rv[q] != name_p by {
                            if rv[q] == name_p {
                                let j = choose|j: int|
                                    0 <= j < old_groups.len() && old_groups[j].0 == rv[q];
                                assert(out@[j].0@ == old_groups[j].0);
                            }
                        }
                        assert(hits_of(rv, p as nat, name_p) =~= Seq::<usize>::empty()) by {
                            broadcast use vstd::seq_lib::group_filter_ensures, Seq::lemma_filter_contains_rev;
                            let hs = hits_of(rv, p as nat, name_p);
                            if hs.len() > 0 {
                                assert(hs.contains(hs[0]));
                                assert(positions(p as nat).contains(hs[0]));
                                assert(rv[hs[0] as int] == name_p);
                            }
                            assert(hits_of(rv, p as nat, name_p).len() == 0);
                        }
                        assert(seq![p] =~= Seq::<usize>::empty().push(p));
                    }
                }
                assert forall|a: int, b: int| 0 <= a < b < ng.len() implies (#[trigger] ng[a]).0
                    != (#[trigger] ng[b]).0 by {
                    if b == n {
                        assert(out@[a].0@ == old_groups[a].0);
                    }
                }
                assert forall|a: int, b: int| 0 <= a < b < ng.len() implies (#[trigger] ng[a]).1[0]
                    < (#[trigger] ng[b]).1[0] by {
                    if b == n {
                        let s = old_groups[a].1;
                        let pr = |q: usize| rv[q as int] == old_groups[a].0;
                        assert(s.contains(s[0]));
                        positions(p as nat).lemma_filter_contains_rev(pr, s[0]);
                        assert(positions(p as nat).contains(s[0]));
                    }
                }
                assert forall|q: int| 0 <= q < p + 1 implies exists|h: int|
                    0 <= h < ng.len() && (#[trigger] ng[h]).0 == #[trigger] rv[q] by {
                    if q < p {
                        let h = choose|h: int| 0 <= h < old_groups.len() && old_groups[h].0 == rv[q];
                        assert(ng[h].0 == rv[q]);
                    } else {
                        assert(ng[n as int].0 == rv[q]);
                    }
                }
            }
        }
        p = p + 1;
    }
    out
}

/// The threshold route `name` is held to: `None` when no route has that
/// name; else the first such route's own threshold, or else the router's
/// (`Some(None)` when neither is set).
pub open spec fn threshold_of<S>(routes: Seq<Route<S>>, global: Option<S>, name: Seq<char>) -> Option<Option<S>> {
    match first_named(routes, name) {
        None => None,
        Some(k) => Some(
            match routes[k].score_threshold {
                Some(t) => Some(t),
                None => global,
            },
        ),
    }
}

/// `k` is the first route named `name`, so [`first_named`] picks it.
proof fn lemma_first_named_is<S>(routes: Seq<Route<S>>, name: Seq<char>, k: int)
    requires
        0 <= k < routes.len(),
        routes[k].name@ == name,
        forall|j: int| 0 <= j < k ==> routes[j].name@ != name,
    ensures
        first_named(routes, name) == Some(k),
{
    let c = first_named(routes, name)->Some_0;
    assert(c == k) by {
        if c < k {
        } else if c > k {
        }
    }
}

/// The first route named `name`, as [`first_named`] has it.
fn first_route<S>(routes: &[Route<S>], name: &str) -> (r: Option<usize>)
    ensures
        match r {
            Some(k) => k < routes@.len() && first_named(routes@, name@) == Some(k as int),
            None => first_named(routes@, name@) is None,
        },
{
    let r = super::find_route(routes, name);
    proof {
        if let Some(k) = r {
            lemma_first_named_is(routes@, name@, k as int);
        }
    }
    r
}

/// The threshold route `name` is held to (see [`threshold_of`]).
pub fn route_threshold<S: Copy>(routes: &[Route<S>], global: Option<S>, name: &str) -> (r: Option<Option<S>>)
    ensures
        r == threshold_of(routes@, global, name@),
{
    match first_route(routes, name) {
        None => None,
        Some(k) => Some(
            match routes[k].score_threshold {
                Some(t) => Some(t),
                None => global,
            },
        ),
    }
}

/// The route a scored entry named `name` is answered with, by index: none
/// when no route has that name, or when a threshold applies and the score
/// does not `meet` it.
pub open spec fn accepted<S>(routes: Seq<Route<S>>, global: Option<S>, name: Seq<char>, meets: bool) -> Option<int> {
    match first_named(routes, name) {
        None => None,
        Some(k) => match threshold_of(routes, global, name) {
            Some(Some(_)) => if meets {
                Some(k)
            } else {
                None
            },
            _ => Some(k),
        },
    }
}

/// The entries from `i` on, added to `acc` as (route index, entry index)
/// pairs while they are accepted, stopping as soon as `limit` are kept
/// (checked after each entry whose route exists; an entry with no such route
/// is skipped before the check).
pub open spec fn pass_from<S>(
    routes: Seq<Route<S>>,
    global: Option<S>,
    names: Seq<Seq<char>>,
    meets: Seq<bool>,
    limit: Option<usize>,
    i: int,
    acc: Seq<(int, int)>,
) -> Seq<(int, int)>
    decreases names.len() - i,
{
    if i < 0 || i >= names.len() {
        acc
    } else {
        let acc2 = match accepted(routes, global, names[i], meets[i]) {
            Some(k) => acc.push((k, i)),
            None => acc,
        };
        if first_named(routes, names[i]) is Some && (limit matches Some(l) && acc2.len() >= l) {
            acc2
        } else {
            pass_from(routes, global, names, meets, limit, i + 1, acc2)
        }
    }
}

/// The entries that pass, in order, as (route index, entry index) pairs.
pub open spec fn passed<S>(routes: Seq<Route<S>>, global: Option<S>, names: Seq<Seq<char>>, meets: Seq<bool>, limit: Option<usize>) -> Seq<(int, int)> {
    pass_from(routes, global, names, meets, limit, 0, Seq::empty())
}

/// The names of scored entries.
pub open spec fn scored_names<S>(scored: Seq<(String, S, bool)>) -> Seq<Seq<char>> {
    scored.map_values(|e: (String, S, bool)| e.0@)
}

/// Whether each scored entry meets its threshold.
pub open spec fn scored_meets<S>(scored: Seq<(String, S, bool)>) -> Seq<bool> {
    scored.map_values(|e: (String, S, bool)| e.2)
}

/// `c` is the choice of route `routes[k]` with score `score`.
pub open spec fn is_choice_of<S>(c: RouteChoice<S>, r: Route<S>, score: S) -> bool {
    &&& c.name matches Some(n) && n@ == r.name@
    &&& c.function_call is None
    &&& c.similarity_score == Some(score)
}

/// The routes a router answers with, from its scored routes (best first),
/// each with its score and whether that score meets the threshold
/// [`route_threshold`] gives its route: each entry whose route exists and
/// which meets its threshold (or has none) becomes that route's choice with
/// its score, stopping once `limit` are chosen (checked after each entry
/// whose route exists; entries of unknown routes are skipped); when none is,
/// the answer is one empty choice.
pub fn pass_routes<S: Copy>(
    routes: &[Route<S>],
    global: Option<S>,
    scored: &[(String, S, bool)],
    limit: Option<usize>,
) -> (r: Vec<RouteChoice<S>>)
    ensures
        ({
            let p = passed(routes@, global, scored_names(scored@), scored_meets(scored@), limit);
            &&& p.len() == 0 ==> r@.len() == 1 && r@[0].name is None && r@[0].function_call is None
                && r@[0].similarity_score is None
            &&& p.len() > 0 ==> r@.len() == p.len() && forall|i: int|
                0 <= i < p.len() ==> is_choice_of(
                    #[trigger] r@[i],
                    routes@[p[i].0],
                    scored@[p[i].1].1,
                )
        }),
        r@.len() >= 1,
        limit != Some(0usize) ==> ({
            let q = first_of(passing(routes@, global, scored_names(scored@), scored_meets(scored@)), limit);
            &&& q.len() == 0 ==> r@.len() == 1 && r@[0].name is None && r@[0].function_call is None
                && r@[0].similarity_score is None
            &&& q.len() > 0 ==> r@.len() == q.len() && forall|i: int|
                0 <= i < q.len() ==> is_choice_of(
                    #[trigger] r@[i],
                    routes@[q[i].0],
                    scored@[q[i].1].1,
                )
        }),
{
    let ghost names = scored_names(scored@);
    let ghost meets = scored_meets(scored@);
    let ghost full = passed(routes@, global, names, meets, limit);
    let ghost mut acc: Seq<(int, int)> = Seq::empty();
    let mut out: Vec<RouteChoice<S>> = Vec::new();
    let mut stop = false;
    let mut i: usize = 0;
    while i < scored.len() && !stop
        invariant
            i <= scored@.len(),
            names == scored_names(scored@),
            meets == scored_meets(scored@),
            full == passed(routes@, global, names, meets, limit),
            stop ==> full == acc,
            !stop ==> full == pass_from(routes@, global, names, meets, limit, i as int, acc),
            out@.len() == acc.len(),
            forall|j: int| 0 <= j < acc.len() ==> 0 <= (#[trigger] acc[j]).0 < routes@.len()
                && 0 <= acc[j].1 < scored@.len(),
            forall|j: int|
                0 <= j < acc.len() ==> is_choice_of(
                    #[trigger] out@[j],
                    routes@[acc[j].0],
                    scored@[acc[j].1].1,
                ),
        decreases scored.len() - i,
    {
        let ghost before = acc;
        assert(names[i as int] == scored@[i as int].0@);
        assert(meets[i as int] == scored@[i as int].2);
        match first_route(routes, scored[i].0.as_str()) {
            None => {},
            Some(k) => {
                let ok = match routes[k].score_threshold {
                    Some(_) => scored[i].2,
                    None => match global {
                        Some(_) => scored[i].2,
                        None => true,
                    },
                };
                if ok {
                    out.push(routes[k].to_choice(scored[i].1));
                    proof {
                        acc = acc.push((k as int, i as int));
                    }
                }
                match limit {
                    Some(l) => {
                        if out.len() >= l {
                            stop = true;
                        }
                    },
                    None => {},
                }
            },
        }
        assert(acc == match accepted(routes@, global, names[i as int], meets[i as int]) {
            Some(k) => before.push((k, i as int)),
            None => before,
        });
        i = i + 1;
    }
    if out.len() == 0 {
        out.push(RouteChoice::empty());
    }
    proof {
        if limit != Some(0usize) {
            lemma_passed_is_first_passing(routes@, global, names, meets, limit);
        }
    }
    out
}

proof fn lemma_pass_from_within<S>(
    routes: Seq<Route<S>>,
    global: Option<S>,
    names: Seq<Seq<char>>,
    meets: Seq<bool>,
    l: usize,
    i: int,
    acc: Seq<(int, int)>,
)
    requires
        acc.len() < l,
    ensures
        pass_from(routes, global, names, meets, Some(l), i, acc).len() <= l,
    decreases names.len() - i,
{
    if 0 <= i < names.len() {
        let acc2 = match accepted(routes, global, names[i], meets[i]) {
            Some(k) => acc.push((k, i)),
            None => acc,
        };
        if !(first_named(routes, names[i]) is Some && acc2.len() >= l) {
            lemma_pass_from_within(routes, global, names, meets, l, i + 1, acc2);
        }
    }
}

/// A router answers with at most `limit` routes when a limit of at least one
/// is set.
pub proof fn lemma_answer_within_limit<S>(
    routes: Seq<Route<S>>,
    global: Option<S>,
    names: Seq<Seq<char>>,
    meets: Seq<bool>,
    limit: usize,
)
    requires
        limit >= 1,
    ensures
        passed(routes, global, names, meets, Some(limit)).len() <= limit,
{
    lemma_pass_from_within(routes, global, names, meets, limit, 0, Seq::empty());
}

proof fn lemma_pass_from_none<S>(
    routes: Seq<Route<S>>,
    global: Option<S>,
    names: Seq<Seq<char>>,
    meets: Seq<bool>,
    limit: Option<usize>,
    i: int,
    acc: Seq<(int, int)>,
)
    requires
        0 <= i,
        forall|j: int| i <= j < names.len() ==> #[trigger] accepted(routes, global, names[j], meets[j]) is None,
    ensures
        pass_from(routes, global, names, meets, limit, i, acc) == acc,
    decreases names.len() - i,
{
    if i < names.len() {
        assert(accepted(routes, global, names[i], meets[i]) is None);
        lemma_pass_from_none(routes, global, names, meets, limit, i + 1, acc);
    }
}

/// When every scored route is unknown or misses its threshold, nothing
/// passes (and the router answers with the empty choice).
pub proof fn lemma_nothing_passes<S>(
    routes: Seq<Route<S>>,
    global: Option<S>,
    names: Seq<Seq<char>>,
    meets: Seq<bool>,
    limit: Option<usize>,
)
    requires
        forall|j: int| 0 <= j < names.len() ==> #[trigger] accepted(routes, global, names[j], meets[j]) is None,
    ensures
        passed(routes, global, names, meets, limit).len() == 0,
{
    lemma_pass_from_none(routes, global, names, meets, limit, 0, Seq::empty());
}

/// Each pair of `acc` names an entry below `bound` and the route accepted
/// for it, the entries strictly increasing.
pub open spec fn accepted_pairs<S>(
    routes: Seq<Route<S>>,
    global: Option<S>,
    names: Seq<Seq<char>>,
    meets: Seq<bool>,
    acc: Seq<(int, int)>,
    bound: int,
) -> bool {
    &&& forall|j: int| 0 <= j < acc.len() ==> 0 <= (#[trigger] acc[j]).1 < bound
    &&& forall|j: int| 0 <= j < acc.len() ==> accepted(routes, global, names[(#[trigger] acc[j]).1], meets[acc[j].1]) == Some(acc[j].0)
    &&& forall|j: int, m: int| 0 <= j < m < acc.len() ==> (#[trigger] acc[j]).1 < (#[trigger] acc[m]).1
}

proof fn lemma_pass_from_accepted<S>(
    routes: Seq<Route<S>>,
    global: Option<S>,
    names: Seq<Seq<char>>,
    meets: Seq<bool>,
    limit: Option<usize>,
    i: int,
    acc: Seq<(int, int)>,
)
    requires
        0 <= i <= names.len(),
        accepted_pairs(routes, global, names, meets, acc, i),
    ensures
        accepted_pairs(routes, global, names, meets, pass_from(routes, global, names, meets, limit, i, acc), names.len() as int),
    decreases names.len() - i,
{
    if i < names.len() {
        let acc2 = match accepted(routes, global, names[i], meets[i]) {
            Some(k) => acc.push((k, i)),
            None => acc,
        };
        assert(accepted_pairs(routes, global, names, meets, acc2, i + 1)) by {
            assert forall|j: int| 0 <= j < acc2.len() implies 0 <= (#[trigger] acc2[j]).1 < i + 1 by {
                if j < acc.len() {
                    assert(acc2[j] == acc[j]);
                }
            }
            assert forall|j: int| 0 <= j < acc2.len() implies accepted(routes, global, names[(#[trigger] acc2[j]).1], meets[acc2[j].1]) == Some(acc2[j].0) by {
                if j < acc.len() {
                    assert(acc2[j] == acc[j]);
                }
            }
            assert forall|j: int, m: int| 0 <= j < m < acc2.len() implies (#[trigger] acc2[j]).1 < (#[trigger] acc2[m]).1 by {
                assert(acc2[j] == acc[j]);
                if m < acc.len() {
                    assert(acc2[m] == acc[m]);
                }
            }
        }
        if first_named(routes, names[i]) is Some && (limit matches Some(l) && acc2.len() >= l) {
            assert forall|j: int| 0 <= j < acc2.len() implies 0 <= (#[trigger] acc2[j]).1 < names.len() by {}
        } else {
            lemma_pass_from_accepted(routes, global, names, meets, limit, i + 1, acc2);
        }
    }
}

/// Every route in an answer was accepted for its entry (the route exists
/// under that name and its score meets any threshold that applies), and the
/// answer keeps the order of the scored entries.
pub proof fn lemma_answer_is_accepted<S>(
    routes: Seq<Route<S>>,
    global: Option<S>,
    names: Seq<Seq<char>>,
    meets: Seq<bool>,
    limit: Option<usize>,
)
    ensures
        accepted_pairs(routes, global, names, meets, passed(routes, global, names, meets, limit), names.len() as int),
{
    lemma_pass_from_accepted(routes, global, names, meets, limit, 0, Seq::empty());
}

/// Every route in an answer exists under the name of its scored entry, and
/// that entry's score meets the route's threshold whenever one applies (the
/// route's own, else the router's): no answer names a route scored below its
/// threshold.
pub proof fn lemma_answer_meets_thresholds<S>(
    routes: Seq<Route<S>>,
    global: Option<S>,
    names: Seq<Seq<char>>,
    meets: Seq<bool>,
    limit: Option<usize>,
)
    ensures
        ({
            let p = passed(routes, global, names, meets, limit);
            forall|j: int|
                0 <= j < p.len() ==> {
                    let (k, e) = #[trigger] p[j];
                    &&& 0 <= e < names.len()
                    &&& 0 <= k < routes.len()
                    &&& routes[k].name@ == names[e]
                    &&& first_named(routes, names[e]) == Some(k)
                    &&& threshold_of(routes, global, names[e]) matches Some(t) && (t is Some ==> meets[e])
                }
        }),
{
    let p = passed(routes, global, names, meets, limit);
    lemma_pass_from_accepted(routes, global, names, meets, limit, 0, Seq::empty());
    assert forall|j: int| 0 <= j < p.len() implies {
        let (k, e) = #[trigger] p[j];
        &&& 0 <= e < names.len()
        &&& 0 <= k < routes.len()
        &&& routes[k].name@ == names[e]
        &&& first_named(routes, names[e]) == Some(k)
        &&& threshold_of(routes, global, names[e]) matches Some(t) && (t is Some ==> meets[e])
    } by {
        let (k, e) = p[j];
        assert(accepted(routes, global, names[e], meets[e]) == Some(k));
        super::lemma_first_named(routes, names[e]);
    }
}

proof fn lemma_unlimited_extends<S>(
    routes: Seq<Route<S>>,
    global: Option<S>,
    names: Seq<Seq<char>>,
    meets: Seq<bool>,
    i: int,
    acc: Seq<(int, int)>,
)
    ensures
        pass_from(routes, global, names, meets, None, i, acc).len() >= acc.len(),
        pass_from(routes, global, names, meets, None, i, acc).take(acc.len() as int) == acc,
    decreases names.len() - i,
{
    if 0 <= i < names.len() {
        let acc2 = match accepted(routes, global, names[i], meets[i]) {
            Some(k) => acc.push((k, i)),
            None => acc,
        };
        lemma_unlimited_extends(routes, global, names, meets, i + 1, acc2);
        let f = pass_from(routes, global, names, meets, None, i + 1, acc2);
        assert(f.take(acc.len() as int) =~= f.take(acc2.len() as int).take(acc.len() as int));
        assert(acc2.take(acc.len() as int) =~= acc);
    }
}

proof fn lemma_limit_from<S>(
    routes: Seq<Route<S>>,
    global: Option<S>,
    names: Seq<Seq<char>>,
    meets: Seq<bool>,
    l: usize,
    i: int,
    acc: Seq<(int, int)>,
)
    requires
        acc.len() < l,
    ensures
        ({
            let all = pass_from(routes, global, names, meets, None, i, acc);
            pass_from(routes, global, names, meets, Some(l), i, acc) == all.take(
                if all.len() < l { all.len() as int } else { l as int },
            )
        }),
    decreases names.len() - i,
{
    let all = pass_from(routes, global, names, meets, None, i, acc);
    if 0 <= i < names.len() {
        let acc2 = match accepted(routes, global, names[i], meets[i]) {
            Some(k) => acc.push((k, i)),
            None => acc,
        };
        assert(all == pass_from(routes, global, names, meets, None, i + 1, acc2));
        if first_named(routes, names[i]) is Some && acc2.len() >= l {
            lemma_unlimited_extends(routes, global, names, meets, i + 1, acc2);
            assert(acc2.len() == l);
        } else {
            lemma_limit_from(routes, global, names, meets, l, i + 1, acc2);
        }
    } else {
        assert(all.take(all.len() as int) =~= all);
    }
}

/// A limit of at least one keeps the first `limit` of the entries that pass
/// without a limit (all of them when fewer pass), in their order.
pub proof fn lemma_limit_keeps_first<S>(
    routes: Seq<Route<S>>,
    global: Option<S>,
    names: Seq<Seq<char>>,
    meets: Seq<bool>,
    limit: usize,
)
    requires
        limit >= 1,
    ensures
        ({
            let all = passed(routes, global, names, meets, None);
            passed(routes, global, names, meets, Some(limit)) == all.take(
                if all.len() < limit { all.len() as int } else { limit as int },
            )
        }),
{
    lemma_limit_from(routes, global, names, meets, limit, 0, Seq::empty());
}

/// The entries among the first `n` whose route is accepted, in order, as
/// (route index, entry index) pairs.
pub open spec fn passing_upto<S>(
    routes: Seq<Route<S>>,
    global: Option<S>,
    names: Seq<Seq<char>>,
    meets: Seq<bool>,
    n: int,
) -> Seq<(int, int)> {
    Seq::new(n as nat, |i: int| i).filter(
        |i: int| accepted(routes, global, names[i], meets[i]) is Some,
    ).map_values(|i: int| (accepted(routes, global, names[i], meets[i])->Some_0, i))
}

/// Every entry that passes, in order: each entry whose route exists (the
/// first of that name) and whose score meets the threshold that applies, if
/// one does, paired with that route.
pub open spec fn passing<S>(
    routes: Seq<Route<S>>,
    global: Option<S>,
    names: Seq<Seq<char>>,
    meets: Seq<bool>,
) -> Seq<(int, int)> {
    passing_upto(routes, global, names, meets, names.len() as int)
}

/// The first `limit` of `p` (all of it when `limit` is `None` or `p` is
/// shorter).
pub open spec fn first_of<T>(p: Seq<T>, limit: Option<usize>) -> Seq<T> {
    match limit {
        Some(l) => if l < p.len() {
            p.take(l as int)
        } else {
            p
        },
        None => p,
    }
}

proof fn lemma_unlimited_is_passing<S>(
    routes: Seq<Route<S>>,
    global: Option<S>,
    names: Seq<Seq<char>>,
    meets: Seq<bool>,
    i: int,
)
    requires
        0 <= i <= names.len(),
    ensures
        pass_from(routes, global, names, meets, None, i, passing_upto(routes, global, names, meets, i))
            == passing(routes, global, names, meets),
    decreases names.len() - i,
{
    if i < names.len() {
        let pr = |j: int| accepted(routes, global, names[j], meets[j]) is Some;
        let f = |j: int| (accepted(routes, global, names[j], meets[j])->Some_0, j);
        assert(Seq::new((i + 1) as nat, |j: int| j) =~= Seq::new(i as nat, |j: int| j).push(i));
        Seq::new(i as nat, |j: int| j).lemma_filter_push(i, pr);
        let acc = passing_upto(routes, global, names, meets, i);
        let acc2 = match accepted(routes, global, names[i], meets[i]) {
            Some(k) => acc.push((k, i)),
            None => acc,
        };
        assert(passing_upto(routes, global, names, meets, i + 1) =~= acc2);
        lemma_unlimited_is_passing(routes, global, names, meets, i + 1);
    } else {
        assert(passing_upto(routes, global, names, meets, i) == passing(routes, global, names, meets));
    }
}

/// The routes passed are the first `limit` entries that pass (all of them
/// when there is no limit), whenever the limit is not zero.
pub proof fn lemma_passed_is_first_passing<S>(
    routes: Seq<Route<S>>,
    global: Option<S>,
    names: Seq<Seq<char>>,
    meets: Seq<bool>,
    limit: Option<usize>,
)
    requires
        limit != Some(0usize),
    ensures
        passed(routes, global, names, meets, limit) == first_of(passing(routes, global, names, meets), limit),
{
    assert(passing_upto(routes, global, names, meets, 0) =~= Seq::<(int, int)>::empty());
    lemma_unlimited_is_passing(routes, global, names, meets, 0);
    if let Some(l) = limit {
        lemma_limit_keeps_first(routes, global, names, meets, l);
        let all = passing(routes, global, names, meets);
        if l >= all.len() {
            assert(all.take(all.len() as int) =~= all);
        }
    }
}

} // verus!
