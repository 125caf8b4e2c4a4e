//! Filtering the lists of the selector popups: fuzzy filtering with ranking
//! for starters and packages, case-insensitive containment for recent
//! projects.

use vstd::prelude::*;
use fuzzy_matcher::FuzzyMatcher;
use fuzzy_matcher::skim::SkimMatcherV2;
use crate::strings::{contains_seq, lowercase_of, str_contains, texts, to_lowercase};

verus! {

/// The score that the skim fuzzy matcher (default configuration) gives
/// `choice` for `pattern`; `None` when `pattern` does not match.
pub uninterp spec fn fuzzy_score_of(choice: Seq<char>, pattern: Seq<char>) -> Option<i64>;

/// `SkimMatcherV2::default().fuzzy_match(choice, pattern)` of the
/// fuzzy-matcher crate. Trusted: the result is the named score of the two
/// texts, and an empty pattern scores `Some(0)`. The scoring itself is not
/// stated.
#[verifier::external_body]
fn fuzzy_score(choice: &str, pattern: &str) -> (r: Option<i64>)
    ensures
        r == fuzzy_score_of(choice@, pattern@),
        pattern@.len() == 0 ==> r == Some(0i64),
{
    SkimMatcherV2::default().fuzzy_match(choice, pattern)
}

/// The scores of every candidate for `pattern`, in candidate order.
pub open spec fn fuzzy_scores(cands: Seq<Seq<char>>, pattern: Seq<char>) -> Seq<Option<i64>> {
    cands.map_values(|c: Seq<char>| fuzzy_score_of(c, pattern))
}

/// The candidates among the first `n` that have a score, each with its
/// score, in candidate order.
pub open spec fn scored_pairs(cands: Seq<Seq<char>>, scores: Seq<Option<i64>>, n: nat) -> Seq<(Seq<char>, i64)>
    decreases n,
{
    if n == 0 {
        Seq::empty()
    } else {
        let rest = scored_pairs(cands, scores, (n - 1) as nat);
        match scores[n - 1] {
            Some(s) => rest.push((cands[n - 1], s)),
            None => rest,
        }
    }
}

/// The position of the first entry of `s` whose score is below `k`
/// (the length of `s` when there is none).
pub open spec fn first_below(s: Seq<(Seq<char>, i64)>, k: i64) -> nat
    decreases s.len(),
{
    if s.len() == 0 {
        0
    } else if s[0].1 < k {
        0
    } else {
        1 + first_below(s.drop_first(), k)
    }
}

/// `x` put into `s` after every entry whose score is at least its own.
pub open spec fn insert_by_score(s: Seq<(Seq<char>, i64)>, x: (Seq<char>, i64)) -> Seq<(Seq<char>, i64)> {
    let p = first_below(s, x.1) as int;
    s.take(p).push(x) + s.skip(p)
}

/// `s` sorted by score, highest first; entries of equal score keep their
/// order (a stable sort).
pub open spec fn sort_by_score_desc(s: Seq<(Seq<char>, i64)>) -> Seq<(Seq<char>, i64)>
    decreases s.len(),
{
    if s.len() == 0 {
        s
    } else {
        insert_by_score(sort_by_score_desc(s.drop_last()), s.last())
    }
}

/// Whether the scores of `s` never rise.
pub open spec fn scores_descending(s: Seq<(Seq<char>, i64)>) -> bool {
    forall|i: int, j: int| 0 <= i < j < s.len() ==> s[i].1 >= s[j].1
}

/// The names of the candidates that have a score, best score first.
pub open spec fn ranked_names(cands: Seq<Seq<char>>, scores: Seq<Option<i64>>) -> Seq<Seq<char>> {
    sort_by_score_desc(scored_pairs(cands, scores, cands.len())).map_values(|p: (Seq<char>, i64)| p.0)
}

proof fn lemma_first_below_at(s: Seq<(Seq<char>, i64)>, k: i64, i: int)
    requires
        0 <= i <= s.len(),
        forall|j: int| 0 <= j < i ==> s[j].1 >= k,
        i == s.len() || s[i].1 < k,
    ensures
        first_below(s, k) == i,
    decreases i,
{
    if i > 0 {
        let t = s.drop_first();
        assert forall|j: int| 0 <= j < i - 1 implies t[j].1 >= k by {
            assert(t[j] == s[j + 1]);
        }
        if i < s.len() {
            assert(t[i - 1] == s[i]);
        }
        lemma_first_below_at(t, k, i - 1);
    }
}

proof fn lemma_first_below_bound(s: Seq<(Seq<char>, i64)>, k: i64)
    ensures
        first_below(s, k) <= s.len(),
        forall|j: int| 0 <= j < first_below(s, k) ==> s[j].1 >= k,
        first_below(s, k) < s.len() ==> s[first_below(s, k) as int].1 < k,
    decreases s.len(),
{
    if s.len() > 0 && s[0].1 >= k {
        let t = s.drop_first();
        lemma_first_below_bound(t, k);
        assert forall|j: int| 0 <= j < first_below(s, k) implies s[j].1 >= k by {
            if j > 0 {
                assert(s[j] == t[j - 1]);
            }
        }
        if first_below(s, k) < s.len() {
            assert(s[first_below(s, k) as int] == t[first_below(t, k) as int]);
        }
    }
}

/// Inserting by score keeps the scores descending.
proof fn lemma_insert_keeps_descending(s: Seq<(Seq<char>, i64)>, x: (Seq<char>, i64))
    requires
        scores_descending(s),
    ensures
        scores_descending(insert_by_score(s, x)),
        insert_by_score(s, x).len() == s.len() + 1,
{
    lemma_first_below_bound(s, x.1);
    let p = first_below(s, x.1) as int;
    let r = insert_by_score(s, x);
    assert(r.len() == s.len() + 1);
    assert forall|i: int| 0 <= i < r.len() implies #[trigger] r[i] == (if i < p { s[i] } else if i == p { x } else { s[i - 1] }) by {}
    assert forall|i: int, j: int| 0 <= i < j < r.len() implies r[i].1 >= r[j].1 by {
        assert(r[i] == (if i < p { s[i] } else if i == p { x } else { s[i - 1] }));
        assert(r[j] == (if j < p { s[j] } else if j == p { x } else { s[j - 1] }));
        if i < p && j == p {
        } else if i == p && j > p {
            if p < s.len() {
                assert(s[p].1 < x.1);
                if j - 1 > p {
                    assert(s[p].1 >= s[j - 1].1);
                }
            }
        } else if i < p && j > p {
            assert(s[i].1 >= s[j - 1].1);
        }
    }
}

/// The ranking lists the scored candidates with the best score first.
pub proof fn lemma_sorted_scores_descending(s: Seq<(Seq<char>, i64)>)
    ensures
        scores_descending(sort_by_score_desc(s)),
        sort_by_score_desc(s).len() == s.len(),
    decreases s.len(),
{
    if s.len() > 0 {
        lemma_sorted_scores_descending(s.drop_last());
        lemma_insert_keeps_descending(sort_by_score_desc(s.drop_last()), s.last());
    }
}

/// The ranking neither loses nor invents an entry: it is a permutation of
/// what it sorts.
pub proof fn lemma_sorted_is_permutation(s: Seq<(Seq<char>, i64)>)
    ensures
        sort_by_score_desc(s).to_multiset() == s.to_multiset(),
    decreases s.len(),
{
    broadcast use vstd::seq_lib::group_to_multiset_ensures;
    if s.len() > 0 {
        let rest = sort_by_score_desc(s.drop_last());
        lemma_sorted_is_permutation(s.drop_last());
        lemma_sorted_scores_descending(s.drop_last());
        lemma_first_below_bound(rest, s.last().1);
        let p = first_below(rest, s.last().1) as int;
        vstd::seq_lib::lemma_multiset_commutative(rest.take(p).push(s.last()), rest.skip(p));
        vstd::seq_lib::lemma_multiset_commutative(rest.take(p), rest.skip(p));
        assert(rest.take(p) + rest.skip(p) == rest);
        assert(s.drop_last().push(s.last()) == s);
    }
}

proof fn lemma_filter_none(s: Seq<(Seq<char>, i64)>, pred: spec_fn((Seq<char>, i64)) -> bool)
    requires
        forall|i: int| 0 <= i < s.len() ==> !pred(#[trigger] s[i]),
    ensures
        s.filter(pred) == Seq::<(Seq<char>, i64)>::empty(),
    decreases s.len(),
{
    reveal(Seq::filter);
    if s.len() > 0 {
        assert(!pred(s[s.len() - 1]));
        let d = s.drop_last();
        assert forall|i: int| 0 <= i < d.len() implies !pred(#[trigger] d[i]) by {
            assert(d[i] == s[i]);
        }
        lemma_filter_none(d, pred);
    }
}

/// The ranking is stable: the candidates of any one score come out in the
/// order they went in.
pub proof fn lemma_sort_is_stable(s: Seq<(Seq<char>, i64)>, k: i64)
    ensures
        sort_by_score_desc(s).filter(|p: (Seq<char>, i64)| p.1 == k) == s.filter(
            |p: (Seq<char>, i64)| p.1 == k,
        ),
    decreases s.len(),
{
    let pred = |p: (Seq<char>, i64)| p.1 == k;
    if s.len() > 0 {
        let t = sort_by_score_desc(s.drop_last());
        let x = s.last();
        lemma_sort_is_stable(s.drop_last(), k);
        lemma_sorted_scores_descending(s.drop_last());
        lemma_first_below_bound(t, x.1);
        let p = first_below(t, x.1) as int;
        Seq::filter_distributes_over_add(t.take(p).push(x), t.skip(p), pred);
        Seq::filter_distributes_over_add(t.take(p), t.skip(p), pred);
        assert(t.take(p) + t.skip(p) == t);
        reveal(Seq::filter);
        assert(t.take(p).push(x).drop_last() == t.take(p));
        assert(s.drop_last().push(x) == s);
        if x.1 == k {
            let rest = t.skip(p);
            assert forall|i: int| 0 <= i < rest.len() implies !pred(#[trigger] rest[i]) by {
                assert(rest[i] == t[p + i]);
                if i > 0 {
                    assert(t[p].1 >= t[p + i].1);
                }
            }
            lemma_filter_none(rest, pred);
            assert(t.filter(pred) == t.take(p).filter(pred) + rest.filter(pred));
            assert(t.take(p).filter(pred) + rest.filter(pred) == t.take(p).filter(pred));
        }
    }
}

/// Keeps the candidates that have a score (`Some`) and orders them by score,
/// highest first; candidates of equal score keep their order. `scores[i]`
/// is the score of `candidates[i]`.
pub fn rank_candidates(candidates: &Vec<String>, scores: &Vec<Option<i64>>) -> (r: Vec<String>)
    requires
        scores.len() == candidates.len(),
    ensures
        texts(r@) == ranked_names(texts(candidates@), scores@),
{
    let ghost cs = texts(candidates@);
    let mut names: Vec<String> = Vec::new();
    let mut vals: Vec<i64> = Vec::new();
    let mut i: usize = 0;
    while i < candidates.len()
        invariant
            i <= candidates.len(),
            scores.len() == candidates.len(),
            cs == texts(candidates@),
            names.len() == vals.len(),
            Seq::new(names.len() as nat, |j: int| (names@[j]@, vals@[j]))
                == sort_by_score_desc(scored_pairs(cs, scores@, i as nat)),
        decreases candidates.len() - i,
    {
        let ghost before = Seq::new(names.len() as nat, |j: int| (names@[j]@, vals@[j]));
        match scores[i] {
            Some(k) => {
                let mut p: usize = 0;
                while p < vals.len() && vals[p] >= k
                    invariant
                        p <= vals.len(),
                        names.len() == vals.len(),
                        before == Seq::new(names.len() as nat, |j: int| (names@[j]@, vals@[j])),
                        forall|j: int| 0 <= j < p ==> vals@[j] >= k,
                    decreases vals.len() - p,
                {
                    p += 1;
                }
                proof {
                    lemma_first_below_at(before, k, p as int);
                }
                let ghost x = (candidates@[i as int]@, k);
                names.insert(p, candidates[i].clone());
                vals.insert(p, k);
                let ghost after = Seq::new(names.len() as nat, |j: int| (names@[j]@, vals@[j]));
                assert(after =~= before.take(p as int).push(x) + before.skip(p as int));
                let ghost pairs = scored_pairs(cs, scores@, (i + 1) as nat);
                assert(cs[i as int] == candidates@[i as int]@);
                assert(pairs == scored_pairs(cs, scores@, i as nat).push(x));
                assert(pairs.drop_last() == scored_pairs(cs, scores@, i as nat));
            },
            None => {
                assert(scored_pairs(cs, scores@, (i + 1) as nat) == scored_pairs(cs, scores@, i as nat));
            },
        }
        i += 1;
    }
    let ghost sorted = sort_by_score_desc(scored_pairs(cs, scores@, cs.len()));
    assert(texts(names@) =~= sorted.map_values(|p: (Seq<char>, i64)| p.0));
    names
}

/// Fuzzy filtering of a candidate list: all candidates, as they are, when
/// the filter is empty; else those the skim matcher matches, best score
/// first.
fn fuzzy_filter(candidates: &Vec<String>, filter: &str) -> (r: Vec<String>)
    ensures
        filter@.len() == 0 ==> texts(r@) == texts(candidates@),
        filter@.len() > 0 ==> texts(r@) == ranked_names(texts(candidates@), fuzzy_scores(texts(candidates@), filter@)),
{
    if filter.is_empty() {
        return candidates.clone();
    }
    let mut scores: Vec<Option<i64>> = Vec::new();
    let mut i: usize = 0;
    while i < candidates.len()
        invariant
            i <= candidates.len(),
            scores.len() == i,
            forall|j: int| 0 <= j < i ==> scores@[j] == fuzzy_score_of(candidates@[j]@, filter@),
        decreases candidates.len() - i,
    {
        let s = fuzzy_score(candidates[i].as_str(), filter);
        scores.push(s);
        i += 1;
    }
    assert(scores@ =~= fuzzy_scores(texts(candidates@), filter@));
    rank_candidates(candidates, &scores)
}

/// The starter candidates that the starter filter selects (see
/// `rank_candidates`): all of them when the filter is empty.
pub fn get_filtered_starter_candidates(starter_candidates: &Vec<String>, starter_filter: &str) -> (r: Vec<String>)
    ensures
        starter_filter@.len() == 0 ==> texts(r@) == texts(starter_candidates@),
        starter_filter@.len() > 0 ==> texts(r@) == ranked_names(
            texts(starter_candidates@),
            fuzzy_scores(texts(starter_candidates@), starter_filter@),
        ),
{
    fuzzy_filter(starter_candidates, starter_filter)
}

/// The package candidates that the package filter selects (see
/// `rank_candidates`): all of them when the filter is empty.
pub fn get_filtered_package_candidates(package_candidates: &Vec<String>, package_filter: &str) -> (r: Vec<String>)
    ensures
        package_filter@.len() == 0 ==> texts(r@) == texts(package_candidates@),
        package_filter@.len() > 0 ==> texts(r@) == ranked_names(
            texts(package_candidates@),
            fuzzy_scores(texts(package_candidates@), package_filter@),
        ),
{
    fuzzy_filter(package_candidates, package_filter)
}

/// Whether the project path `p` holds the filter `f`, both in lower case.
pub open spec fn project_matches(p: Seq<char>, f: Seq<char>) -> bool {
    contains_seq(lowercase_of(p), lowercase_of(f))
}

/// The recent projects that the projects filter selects, in their order:
/// all of them when the filter is empty, else those whose path contains the
/// filter, ignoring case.
pub fn get_filtered_projects(recent_projects: &Vec<String>, projects_filter: &str) -> (r: Vec<String>)
    ensures
        projects_filter@.len() == 0 ==> texts(r@) == texts(recent_projects@),
        projects_filter@.len() > 0 ==> texts(r@) == texts(recent_projects@).filter(
            |p: Seq<char>| project_matches(p, projects_filter@),
        ),
{
    if projects_filter.is_empty() {
        return recent_projects.clone();
    }
    let filter = to_lowercase(projects_filter);
    let ghost pred = |p: Seq<char>| project_matches(p, projects_filter@);
    let ghost ps = texts(recent_projects@);
    let mut out: Vec<String> = Vec::new();
    let mut i: usize = 0;
    while i < recent_projects.len()
        invariant
            i <= recent_projects.len(),
            filter@ == lowercase_of(projects_filter@),
            ps == texts(recent_projects@),
            pred == (|p: Seq<char>| project_matches(p, projects_filter@)),
            texts(out@) == ps.take(i as int).filter(pred),
        decreases recent_projects.len() - i,
    {
        let lower = to_lowercase(recent_projects[i].as_str());
        let keep = str_contains(lower.as_str(), filter.as_str());
        proof {
            reveal(Seq::filter);
            assert(ps.take(i + 1).drop_last() == ps.take(i as int));
            assert(ps.take(i + 1).last() == recent_projects@[i as int]@);
        }
        if keep {
            out.push(recent_projects[i].clone());
            assert(texts(out@) == ps.take(i + 1).filter(pred));
        } else {
            assert(texts(out@) == ps.take(i + 1).filter(pred));
        }
        i += 1;
    }
    assert(ps.take(i as int) == ps);
    out
}

} // verus!
