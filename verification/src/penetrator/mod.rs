//! The load tester's reckoning: what a round of requests came to.

pub mod cli;

use vstd::prelude::*;

verus! {

/// What one request came to: the status code and the time it took in
/// milliseconds, or `None` where it failed before there was a response.
pub type Outcome = Option<(u16, u128)>;

/// Whether a request came back with a status that reports success.
pub open spec fn succeeded(outcome: Outcome) -> bool {
    match outcome {
        Some((code, _)) => 200 <= code < 300,
        None => false,
    }
}

/// The response times of the requests that succeeded, in order.
pub open spec fn response_times(outcomes: Seq<Outcome>) -> Seq<u128>
    decreases outcomes.len(),
{
    if outcomes.len() == 0 {
        Seq::empty()
    } else {
        let front = response_times(outcomes.drop_last());
        match outcomes.last() {
            Some((code, time)) => if 200 <= code < 300 {
                front.push(time)
            } else {
                front
            },
            None => front,
        }
    }
}

/// The sum of `times`.
pub open spec fn total(times: Seq<u128>) -> nat
    decreases times.len(),
{
    if times.len() == 0 {
        0
    } else {
        total(times.drop_last()) + times.last() as nat
    }
}

/// Whether `value` is the greatest of `times`.
pub open spec fn is_greatest(times: Seq<u128>, value: u128) -> bool {
    times.contains(value) && forall|i: int| 0 <= i < times.len() ==> times[i] <= value
}

/// Whether `value` is the least of `times`.
pub open spec fn is_least(times: Seq<u128>, value: u128) -> bool {
    times.contains(value) && forall|i: int| 0 <= i < times.len() ==> times[i] >= value
}

/// What a round of requests came to.
#[derive(Debug, PartialEq, Eq, Clone, Copy, Structural)]
pub struct Summary {
    /// How many requests were sent.
    pub requests: usize,
    /// How many came back with a status that reports success.
    pub successes: usize,
    /// How many did not.
    pub errors: usize,
    /// The share of successes, in whole hundreds of percent: 100 where
    /// every request succeeded, and 0 where one did not.
    pub percent: usize,
    /// The longest response time among the successes, if there was one.
    pub slowest: Option<u128>,
    /// The shortest response time among the successes, if there was one.
    pub fastest: Option<u128>,
    /// The sum of the response times of the successes.
    pub time: u128,
    /// The mean response time of the successes, rounded down, if there was
    /// one.
    pub average: Option<u128>,
}

/// Reckons up a round of requests.
///
/// There has to be at least one request, and the response times of the
/// successes together have to fit the type they are summed in.
pub fn generate_result(request_results: &Vec<Outcome>) -> (summary: Summary)
    requires
        request_results@.len() > 0,
        total(response_times(request_results@)) <= u128::MAX,
    ensures
        summary.requests == request_results@.len(),
        summary.successes == response_times(request_results@).len(),
        summary.errors == summary.requests - summary.successes,
        summary.percent == (summary.successes / summary.requests) * 100,
        summary.time == total(response_times(request_results@)),
        match summary.slowest {
            Some(time) => is_greatest(response_times(request_results@), time),
            None => summary.successes == 0,
        },
        match summary.fastest {
            Some(time) => is_least(response_times(request_results@), time),
            None => summary.successes == 0,
        },
        match summary.average {
            Some(time) => summary.successes > 0 && time == summary.time / (
            summary.successes as u128),
            None => summary.successes == 0,
        },
{
    let n: usize = request_results.len();
    let ghost all = request_results@;
    let mut successes: usize = 0;
    let mut slowest: Option<u128> = None;
    let mut fastest: Option<u128> = None;
    let mut time: u128 = 0;
    let mut i: usize = 0;
    assert(all.take(0) =~= Seq::<Outcome>::empty());
    while i < n
        invariant
            all == request_results@,
            n == all.len(),
            i <= n,
            total(response_times(all)) <= u128::MAX,
            successes == response_times(all.take(i as int)).len(),
            successes <= i,
            time == total(response_times(all.take(i as int))),
            match slowest {
                Some(value) => is_greatest(response_times(all.take(i as int)), value),
                None => successes == 0,
            },
            match fastest {
                Some(value) => is_least(response_times(all.take(i as int)), value),
                None => successes == 0,
            },
        decreases n - i,
    {
        let ghost before = response_times(all.take(i as int));
        let ghost upto = all.take(i + 1);
        assert(upto.drop_last() =~= all.take(i as int));
        assert(upto.last() == all[i as int]);
        match request_results[i] {
            Some((code, took)) => {
                if 200 <= code && code < 300 {
                    let ghost after = response_times(upto);
                    assert(after == before.push(took));
                    assert(after.drop_last() =~= before);
                    proof {
                        lemma_total_grows(all, i + 1);
                        assert(after[after.len() - 1] == took);
                        assert forall|j: int| 0 <= j < before.len() implies after[j]
                            == before[j] by {}
                    }
                    time = time + took;
                    successes = successes + 1;
                    slowest = match slowest {
                        Some(value) => {
                            if took > value {
                                Some(took)
                            } else {
                                proof {
                                    let at = choose|k: int| 0 <= k < before.len() && before[k]
                                        == value;
                                    assert(after[at] == value);
                                }
                                Some(value)
                            }
                        },
                        None => Some(took),
                    };
                    fastest = match fastest {
                        Some(value) => {
                            if took < value {
                                Some(took)
                            } else {
                                proof {
                                    let at = choose|k: int| 0 <= k < before.len() && before[k]
                                        == value;
                                    assert(after[at] == value);
                                }
                                Some(value)
                            }
                        },
                        None => Some(took),
                    };
                }
            },
            None => {},
        }
        i = i + 1;
    }
    assert(all.take(n as int) =~= all);
    assert(successes / n <= 1) by (nonlinear_arith)
        requires
            successes <= n,
            n > 0,
    ;
    let average = if successes != 0 {
        Some(time / (successes as u128))
    } else {
        None
    };
    Summary {
        requests: n,
        successes,
        errors: n - successes,
        percent: (successes / n) * 100,
        slowest,
        fastest,
        time,
        average,
    }
}

/// The response times of the first requests sum up to no more than those
/// of all.
pub proof fn lemma_total_grows(outcomes: Seq<Outcome>, k: int)
    requires
        0 <= k <= outcomes.len(),
    ensures
        total(response_times(outcomes.take(k))) <= total(response_times(outcomes)),
    decreases outcomes.len(),
{
    if k == outcomes.len() {
        assert(outcomes.take(k) =~= outcomes);
    } else {
        assert(outcomes.drop_last().take(k) =~= outcomes.take(k));
        lemma_total_grows(outcomes.drop_last(), k);
        let front = response_times(outcomes.drop_last());
        if response_times(outcomes) != front {
            assert(response_times(outcomes).drop_last() =~= front);
        }
    }
}

} // verus!
