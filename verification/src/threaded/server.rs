//! The worker pool's scheduling rules and the record of what was served.
//!
//! The pool here is the part that decides: how many workers there must be,
//! which job comes next, and that a job is handed out once. The threads
//! that run the jobs belong to the caller, who asks the pool under a lock.

use std::collections::VecDeque;
use vstd::prelude::*;
use vstd::string::*;

verus! {

/// A point in time: seconds since the start of 1970 in UTC, and the
/// nanoseconds into that second.
#[derive(Debug, PartialEq, Eq, Clone, Copy, Structural)]
pub struct Timestamp {
    pub secs: i64,
    pub nanos: u32,
}

/// What became of one request.
#[derive(Debug)]
pub struct RequestResult {
    pub response_code: u32,
    pub requested_resource: String,
    pub time: Timestamp,
    /// How long the request took, in milliseconds.
    pub duration: u128,
}

/// [`RequestResult`] as the contracts see it.
pub struct RequestResultView {
    pub response_code: u32,
    pub requested_resource: Seq<char>,
    pub time: Timestamp,
    pub duration: u128,
}

impl View for RequestResult {
    type V = RequestResultView;

    open spec fn view(&self) -> RequestResultView {
        RequestResultView {
            response_code: self.response_code,
            requested_resource: self.requested_resource@,
            time: self.time,
            duration: self.duration,
        }
    }
}

/// A status code that reports success: one from 200 up to 299.
pub open spec fn is_success_code(code: u32) -> bool {
    200 <= code < 300
}

impl RequestResult {
    /// Whether the request was answered with a status that reports success.
    pub fn is_successful(&self) -> (successful: bool)
        ensures
            successful == is_success_code(self.response_code),
    {
        self.response_code >= 200 && self.response_code < 300
    }
}

/// The views of a run of results.
pub open spec fn result_views(results: Seq<RequestResult>) -> Seq<RequestResultView> {
    Seq::new(results.len(), |i: int| results[i]@)
}

/// The record of all requests served so far. Results are only ever added,
/// at the end.
#[derive(Debug)]
pub struct ServerStats {
    pub request_results: Vec<RequestResult>,
}

impl ServerStats {
    /// A record without results.
    pub fn new() -> (stats: ServerStats)
        ensures
            stats.request_results@.len() == 0,
    {
        ServerStats { request_results: Vec::new() }
    }

    /// Adds `result` at the end of the record.
    pub fn record(&mut self, result: RequestResult)
        ensures
            final(self).request_results@ == old(self).request_results@.push(result),
    {
        self.request_results.push(result);
    }
}

/// Why a pool could not be made.
#[derive(Debug, PartialEq, Eq, Clone, Copy, Structural)]
pub enum PoolError {
    /// A pool needs two workers or more, so that one can go on while another
    /// waits for a socket.
    InvalidPoolSize,
}

impl PoolError {
    /// The error as a sentence for a log or a terminal.
    pub fn to_string(&self) -> (text: String)
        ensures
            text@ == "A thread pool size of 2 or more is required."@,
    {
        String::from_str("A thread pool size of 2 or more is required.")
    }
}

/// The queue of a worker pool: a fixed number of workers and the jobs that
/// wait for one, oldest first.
pub struct ThreadPool<J> {
    size: usize,
    jobs: VecDeque<J>,
}

impl<J> ThreadPool<J> {
    /// The number of workers.
    pub closed spec fn workers(&self) -> nat {
        self.size as nat
    }

    /// The jobs that no worker has claimed yet, oldest first.
    pub closed spec fn pending(&self) -> Seq<J> {
        self.jobs@
    }

    /// A pool of `size` workers without jobs. Fails exactly if `size` is
    /// less than two.
    pub fn new(size: usize) -> (result: Result<ThreadPool<J>, PoolError>)
        ensures
            result is Err <==> size < 2,
            result matches Err(error) ==> error == PoolError::InvalidPoolSize,
            result matches Ok(pool) ==> pool.workers() == size && pool.pending() == Seq::<
                J,
            >::empty(),
    {
        if size < 2 {
            return Err(PoolError::InvalidPoolSize);
        }
        Ok(ThreadPool { size, jobs: VecDeque::new() })
    }

    /// The number of workers.
    pub fn size(&self) -> (size: usize)
        ensures
            size == self.workers(),
    {
        self.size
    }

    /// The number of jobs that wait for a worker.
    pub fn backlog(&self) -> (waiting: usize)
        ensures
            waiting == self.pending().len(),
    {
        self.jobs.len()
    }

    /// Enqueues `job` behind the jobs that wait already. This never waits
    /// for a worker.
    pub fn execute(&mut self, job: J)
        ensures
            final(self).workers() == old(self).workers(),
            final(self).pending() == old(self).pending().push(job),
    {
        self.jobs.push_back(job);
    }

    /// Hands the oldest waiting job to the worker that asks, and takes it
    /// off the queue, so that no other worker gets it. `None` where no job
    /// waits.
    pub fn claim(&mut self) -> (job: Option<J>)
        ensures
            final(self).workers() == old(self).workers(),
            match job {
                Some(claimed) => old(self).pending().len() > 0 && claimed == old(
                    self,
                ).pending()[0] && final(self).pending() == old(self).pending().skip(1),
                None => old(self).pending().len() == 0 && final(self).pending() == old(
                    self,
                ).pending(),
            },
    {
        let job = self.jobs.pop_front();
        proof {
            if job is Some {
                assert(self.jobs@ =~= old(self).jobs@.skip(1));
            }
        }
        job
    }
}

} // verus!
