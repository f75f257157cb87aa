//! How often each path was asked for.

use crate::threaded::server::{result_views, RequestResult, RequestResultView};
use vstd::prelude::*;
use vstd::string::*;

verus! {

/// A path and the number of requests for it.
#[derive(Debug)]
pub struct PathCount {
    path: String,
    num_requested: i32,
}

impl View for PathCount {
    type V = (Seq<char>, int);

    closed spec fn view(&self) -> (Seq<char>, int) {
        (self.path@, self.num_requested as int)
    }
}

impl PathCount {
    /// The path.
    pub fn path(&self) -> (path: &str)
        ensures
            path@ == self@.0,
    {
        self.path.as_str()
    }

    /// The number of requests for the path.
    pub fn num_requested(&self) -> (count: i32)
        ensures
            count == self@.1,
    {
        self.num_requested
    }

    /// Counts one more request for the path. The count has to have room
    /// for it.
    pub fn increase_num(&mut self)
        requires
            old(self)@.1 < i32::MAX,
        ensures
            final(self)@ == (old(self)@.0, old(self)@.1 + 1),
    {
        self.num_requested += 1
    }
}

/// How many of `results` asked for `path`.
pub open spec fn occurrences(results: Seq<RequestResultView>, path: Seq<char>) -> nat
    decreases results.len(),
{
    if results.len() == 0 {
        0
    } else {
        occurrences(results.drop_last(), path) + if results.last().requested_resource == path {
            1nat
        } else {
            0nat
        }
    }
}

/// The views of a run of counts.
pub open spec fn count_views(counts: Seq<PathCount>) -> Seq<(Seq<char>, int)> {
    Seq::new(counts.len(), |i: int| counts[i]@)
}

/// Whether `counts` is the tally of `results`: each path that was asked for
/// has exactly one count, in the order in which the paths first came, and
/// the count is the number of results that asked for the path.
pub open spec fn is_tally(counts: Seq<(Seq<char>, int)>, results: Seq<RequestResultView>) -> bool {
    &&& forall|i: int, j: int|
        0 <= i < j < counts.len() ==> (#[trigger] counts[i]).0 != (#[trigger] counts[j]).0
    &&& forall|i: int|
        0 <= i < counts.len() ==> (#[trigger] counts[i]).1 == occurrences(results, counts[i].0)
            && counts[i].1 > 0
    &&& forall|k: int|
        0 <= k < results.len() ==> exists|i: int|
            0 <= i < counts.len() && (#[trigger] counts[i]).0
                == (#[trigger] results[k]).requested_resource
}

/// No path occurs more often than there are results.
pub proof fn lemma_occurrences_bound(results: Seq<RequestResultView>, path: Seq<char>)
    ensures
        occurrences(results, path) <= results.len(),
    decreases results.len(),
{
    if results.len() > 0 {
        lemma_occurrences_bound(results.drop_last(), path);
    }
}

/// A path that occurs is the path of some result.
pub proof fn lemma_occurrence_has_a_result(results: Seq<RequestResultView>, path: Seq<char>) -> (k:
    int)
    requires
        occurrences(results, path) > 0,
    ensures
        0 <= k < results.len(),
        results[k].requested_resource == path,
    decreases results.len(),
{
    if results.last().requested_resource == path {
        results.len() - 1
    } else {
        let k = lemma_occurrence_has_a_result(results.drop_last(), path);
        assert(results.drop_last()[k] == results[k]);
        k
    }
}

/// The index of the count for `path`, or the number of counts where there is
/// none.
fn find_count(counts: &Vec<PathCount>, path: &String) -> (at: usize)
    ensures
        at <= counts.len(),
        at < counts.len() ==> counts@[at as int]@.0 == path@,
        forall|j: int| 0 <= j < at ==> (#[trigger] counts@[j])@.0 != path@,
{
    let mut at: usize = 0;
    while at < counts.len()
        invariant
            at <= counts.len(),
            forall|j: int| 0 <= j < at ==> (#[trigger] counts@[j])@.0 != path@,
        decreases counts.len() - at,
    {
        if counts[at].path.eq(path) {
            return at;
        }
        at = at + 1;
    }
    at
}

/// Counts, for each path that was asked for, the requests for it.
///
/// There may be no more results than a count can hold.
pub fn count_paths(results: &Vec<RequestResult>) -> (counts: Vec<PathCount>)
    requires
        results.len() <= i32::MAX,
    ensures
        is_tally(count_views(counts@), result_views(results@)),
{
    let ghost all = result_views(results@);
    let mut counts: Vec<PathCount> = Vec::new();
    let mut i: usize = 0;
    assert(is_tally(count_views(counts@), all.take(0)));
    while i < results.len()
        invariant
            all == result_views(results@),
            i <= results.len() <= i32::MAX,
            is_tally(count_views(counts@), all.take(i as int)),
        decreases results.len() - i,
    {
        let ghost before = count_views(counts@);
        let ghost seen = all.take(i as int);
        let ghost next = all.take(i + 1);
        let ghost path = results@[i as int]@.requested_resource;
        assert(next.drop_last() =~= seen);
        assert(next.last() == results@[i as int]@);
        assert forall|q: Seq<char>| #[trigger]
            occurrences(next, q) == occurrences(seen, q) + if q == path {
                1nat
            } else {
                0nat
            } by {}
        let at = find_count(&counts, &results[i].requested_resource);
        if at < counts.len() {
            proof {
                lemma_occurrences_bound(seen, path);
                assert(before[at as int] == counts@[at as int]@);
            }
            let mut found = counts.remove(at);
            found.increase_num();
            counts.insert(at, found);
            let ghost after = count_views(counts@);
            assert(after =~= before.update(at as int, (path, before[at as int].1 + 1)));
            assert(is_tally(after, next)) by {
                assert forall|a: int, b: int| 0 <= a < b < after.len() implies (
                #[trigger] after[a]).0 != (#[trigger] after[b]).0 by {
                    assert(after[a].0 == before[a].0);
                    assert(after[b].0 == before[b].0);
                }
                assert forall|a: int| 0 <= a < after.len() implies (#[trigger] after[a]).1
                    == occurrences(next, after[a].0) && after[a].1 > 0 by {
                    if a != at {
                        assert(after[a] == before[a]);
                        assert(before[a].0 != before[at as int].0);
                    }
                }
                assert forall|k: int| 0 <= k < next.len() implies exists|a: int|
                    0 <= a < after.len() && (#[trigger] after[a]).0 == (
                    #[trigger] next[k]).requested_resource by {
                    if k < seen.len() {
                        assert(seen[k] == next[k]);
                        let a = choose|a: int|
                            0 <= a < before.len() && (#[trigger] before[a]).0
                                == seen[k].requested_resource;
                        assert(after[a].0 == before[a].0);
                    } else {
                        assert(after[at as int].0 == path);
                    }
                }
            }
        } else {
            proof {
                if occurrences(seen, path) > 0 {
                    let k = lemma_occurrence_has_a_result(seen, path);
                    let a = choose|a: int|
                        0 <= a < before.len() && (#[trigger] before[a]).0
                            == seen[k].requested_resource;
                    assert(before[a] == counts@[a]@);
                }
            }
            counts.push(PathCount { path: results[i].requested_resource.clone(), num_requested: 1 });
            let ghost after = count_views(counts@);
            assert(after =~= before.push((path, 1int)));
            assert(is_tally(after, next)) by {
                assert forall|a: int, b: int| 0 <= a < b < after.len() implies (
                #[trigger] after[a]).0 != (#[trigger] after[b]).0 by {
                    assert(after[a] == before[a]);
                    if b < before.len() {
                        assert(after[b] == before[b]);
                    }
                }
                assert forall|a: int| 0 <= a < after.len() implies (#[trigger] after[a]).1
                    == occurrences(next, after[a].0) && after[a].1 > 0 by {
                    if a < before.len() {
                        assert(after[a] == before[a]);
                        }
                }
                assert forall|k: int| 0 <= k < next.len() implies exists|a: int|
                    0 <= a < after.len() && (#[trigger] after[a]).0 == (
                    #[trigger] next[k]).requested_resource by {
                    if k < seen.len() {
                        assert(seen[k] == next[k]);
                        let a = choose|a: int|
                            0 <= a < before.len() && (#[trigger] before[a]).0
                                == seen[k].requested_resource;
                        assert(after[a] == before[a]);
                    } else {
                        assert(after[before.len() as int].0 == path);
                    }
                }
            }
        }
        i = i + 1;
    }
    assert(all.take(results.len() as int) =~= all);
    counts
}

} // verus!
