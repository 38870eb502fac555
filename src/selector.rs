//! Choosing the most recent of the files that answer a query.

use vstd::prelude::*;

use crate::matcher::Candidate;

verus! {

/// No file answers the query.
#[derive(Debug, PartialEq, Eq, Structural)]
pub struct NoMatchError;

/// The most recently created candidate; of equally recent ones, the one met last.
pub open spec fn latest(s: Seq<Candidate>) -> Candidate
    recommends
        s.len() > 0,
    decreases s.len(),
{
    if s.len() <= 1 {
        s[0]
    } else {
        let p = latest(s.drop_last());
        if s.last().created >= p.created {
            s.last()
        } else {
            p
        }
    }
}

/// `latest` picks one of the candidates, and none was created after it.
pub proof fn lemma_latest_is_maximal(s: Seq<Candidate>)
    requires
        s.len() > 0,
    ensures
        s.contains(latest(s)),
        forall|i: int| 0 <= i < s.len() ==> #[trigger] s[i].created <= latest(s).created,
    decreases s.len(),
{
    if s.len() > 1 {
        let t = s.drop_last();
        lemma_latest_is_maximal(t);
        let j = choose|j: int| 0 <= j < t.len() && t[j] == latest(t);
        assert(s[j] == t[j]);
        if s.last().created >= latest(t).created {
            assert(s[s.len() - 1] == latest(s));
        }
        assert forall|i: int| 0 <= i < s.len() implies #[trigger] s[i].created <= latest(s).created by {
            if i < s.len() - 1 {
                assert(s[i] == t[i]);
            }
        }
    } else {
        assert(s[0] == latest(s));
    }
}

/// Where one candidate was created strictly after every other, it is the one
/// selected, in whatever order the candidates come.
pub proof fn lemma_unique_latest_selected(s: Seq<Candidate>, t: Seq<Candidate>, k: int)
    requires
        0 <= k < s.len(),
        forall|i: int| 0 <= i < s.len() && i != k ==> #[trigger] s[i].created < s[k].created,
        t.to_multiset() == s.to_multiset(),
    ensures
        latest(s) == s[k],
        latest(t) == s[k],
{
    lemma_latest_is_maximal(s);
    let j = choose|j: int| 0 <= j < s.len() && s[j] == latest(s);
    if j != k {
        assert(s[j].created < s[k].created);
    }
    s.to_multiset_ensures();
    t.to_multiset_ensures();
    assert(s.to_multiset().count(s[k]) > 0);
    assert(t.contains(s[k]));
    lemma_latest_is_maximal(t);
    let jt = choose|j: int| 0 <= j < t.len() && t[j] == latest(t);
    let kt = choose|j: int| 0 <= j < t.len() && t[j] == s[k];
    assert(t[kt].created <= latest(t).created);
    assert(s.to_multiset().count(latest(t)) > 0);
    let js = choose|j: int| 0 <= j < s.len() && s[j] == latest(t);
    if js != k {
        assert(s[js].created < s[k].created);
    }
}

/// Selects the most recently created candidate (the last met of equally
/// recent ones); fails when there is none.
pub fn select(candidates: &Vec<Candidate>) -> (r: Result<Candidate, NoMatchError>)
    ensures
        r is Err <==> candidates@.len() == 0,
        r is Ok ==> r->Ok_0 == latest(candidates@),
{
    if candidates.len() == 0 {
        return Err(NoMatchError);
    }
    let mut best: usize = 0;
    let mut i: usize = 1;
    proof {
        assert(latest(candidates@.subrange(0, 1)) == candidates@[0]);
    }
    while i < candidates.len()
        invariant
            1 <= i <= candidates@.len(),
            best < i,
            candidates@[best as int] == latest(candidates@.subrange(0, i as int)),
        decreases candidates@.len() - i,
    {
        proof {
            let s = candidates@.subrange(0, i as int + 1);
            assert(s.drop_last() =~= candidates@.subrange(0, i as int));
            assert(s.last() == candidates@[i as int]);
        }
        if candidates[i].created >= candidates[best].created {
            best = i;
        }
        i = i + 1;
    }
    proof {
        assert(candidates@.subrange(0, candidates@.len() as int) =~= candidates@);
    }
    Ok(candidates[best].duplicate())
}

} // verus!
