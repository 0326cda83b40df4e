//! The filter: which names match a query, in the store's order.

use vstd::prelude::*;
use crate::store::views;
use crate::text::{contains_seq, lower_of, lowercase, str_contains};

verus! {

/// Whether `name` matches `query`: its lowercase form contains the lowercase form
/// of the query.
pub open spec fn name_matches(name: Seq<char>, query: Seq<char>) -> bool {
    contains_seq(lower_of(name), lower_of(query))
}

/// The names that match `query`, in the order of `names`.
pub open spec fn keep_matching(names: Seq<Seq<char>>, query: Seq<char>) -> Seq<Seq<char>>
    decreases names.len(),
{
    if names.len() == 0 {
        Seq::empty()
    } else {
        let r = keep_matching(names.drop_last(), query);
        if name_matches(names.last(), query) {
            r.push(names.last())
        } else {
            r
        }
    }
}

/// The candidates for `query`: none while the query is empty, else the matching
/// names in the order of `names`.
pub open spec fn filter_names(names: Seq<Seq<char>>, query: Seq<char>) -> Seq<Seq<char>> {
    if query.len() == 0 {
        Seq::empty()
    } else {
        keep_matching(names, query)
    }
}

/// The positions in `names` of the names that match `query`, in increasing order.
pub open spec fn matching_positions(names: Seq<Seq<char>>, query: Seq<char>) -> Seq<int>
    decreases names.len(),
{
    if names.len() == 0 {
        Seq::empty()
    } else {
        let r = matching_positions(names.drop_last(), query);
        if name_matches(names.last(), query) {
            r.push(names.len() - 1)
        } else {
            r
        }
    }
}

/// Whether the lowercase form of a name contains the lowercase form of a query,
/// both already folded to lowercase.
pub fn matches_folded(name_lower: &str, query_lower: &str) -> (r: bool)
    ensures
        r == contains_seq(name_lower@, query_lower@),
{
    str_contains(name_lower, query_lower)
}

/// Whether `name` matches `query`, ignoring case.
pub fn is_match(name: &str, query: &str) -> (r: bool)
    ensures
        r == name_matches(name@, query@),
{
    let n = lowercase(name);
    let q = lowercase(query);
    matches_folded(n.as_str(), q.as_str())
}

/// The names that match `query`, in their order in `names`; none while `query`
/// is empty.
pub fn candidates(names: &Vec<String>, query: &str) -> (r: Vec<String>)
    ensures
        views(r@) == filter_names(views(names@), query@),
{
    let mut out: Vec<String> = Vec::new();
    if query.is_empty() {
        assert(views(out@) =~= Seq::<Seq<char>>::empty());
        return out;
    }
    let q = lowercase(query);
    let mut i: usize = 0;
    while i < names.len()
        invariant
            i <= names@.len(),
            query@.len() > 0,
            q@ == lower_of(query@),
            views(out@) == keep_matching(views(names@).subrange(0, i as int), query@),
        decreases names@.len() - i,
    {
        let ghost pre = views(names@).subrange(0, i as int);
        let ghost cur = views(names@).subrange(0, i as int + 1);
        assert(cur.drop_last() =~= pre);
        assert(cur.last() == names@[i as int]@);
        let n = lowercase(names[i].as_str());
        if matches_folded(n.as_str(), q.as_str()) {
            out.push(names[i].clone());
            assert(views(out@) =~= keep_matching(pre, query@).push(names@[i as int]@));
        }
        i = i + 1;
    }
    assert(views(names@).subrange(0, names@.len() as int) =~= views(names@));
    out
}

/// An empty query has no candidates, whatever the names.
pub proof fn lemma_empty_query_no_candidates(names: Seq<Seq<char>>)
    ensures
        filter_names(names, Seq::empty()) == Seq::<Seq<char>>::empty(),
{
}

/// For a non-empty query, a name is a candidate exactly when it is one of the
/// names and its lowercase form contains the query's lowercase form.
pub proof fn lemma_candidate_iff_match(names: Seq<Seq<char>>, query: Seq<char>, n: Seq<char>)
    requires
        query.len() > 0,
    ensures
        filter_names(names, query).contains(n) <==> (names.contains(n) && name_matches(
            n,
            query,
        )),
    decreases names.len(),
{
    if names.len() > 0 {
        let pre = names.drop_last();
        lemma_candidate_iff_match(pre, query, n);
        let r = keep_matching(pre, query);
        assert(names =~= pre.push(names.last()));
        if names.contains(n) && n != names.last() {
            let j = choose|j: int| 0 <= j < names.len() && names[j] == n;
            assert(pre[j] == n);
        }
        if pre.contains(n) {
            let j = choose|j: int| 0 <= j < pre.len() && pre[j] == n;
            assert(names[j] == n);
        }
        if name_matches(names.last(), query) {
            let r2 = r.push(names.last());
            assert(r2[r.len() as int] == names.last());
            if r2.contains(n) && n != names.last() {
                let j = choose|j: int| 0 <= j < r2.len() && r2[j] == n;
                assert(r[j] == n);
            }
            if r.contains(n) {
                let j = choose|j: int| 0 <= j < r.len() && r[j] == n;
                assert(r2[j] == n);
            }
        }
        assert(names[names.len() - 1] == names.last());
    }
}

/// The candidates keep the order of the names: the k-th candidate is the name at
/// the k-th of a strictly increasing run of positions.
pub proof fn lemma_candidates_keep_order(names: Seq<Seq<char>>, query: Seq<char>)
    requires
        query.len() > 0,
    ensures
        matching_positions(names, query).len() == filter_names(names, query).len(),
        forall|k: int|
            0 <= k < filter_names(names, query).len() ==> {
                let p = #[trigger] matching_positions(names, query)[k];
                &&& 0 <= p < names.len()
                &&& filter_names(names, query)[k] == names[p]
            },
        forall|k1: int, k2: int|
            0 <= k1 < k2 < filter_names(names, query).len() ==> #[trigger] matching_positions(
                names,
                query,
            )[k1] < #[trigger] matching_positions(names, query)[k2],
    decreases names.len(),
{
    if names.len() > 0 {
        let pre = names.drop_last();
        lemma_candidates_keep_order(pre, query);
        let ps = matching_positions(pre, query);
        let cs = keep_matching(pre, query);
        assert forall|k: int| 0 <= k < cs.len() implies #[trigger] ps[k] < names.len() - 1
            && cs[k] == names[ps[k]] by {
            assert(0 <= ps[k] < pre.len());
        }
    }
}

} // verus!
