//! The run state: the one flag that the watcher reads and the console listener
//! clears. It starts as the caller sets it and, once cleared, stays cleared.

use vstd::prelude::*;

verus! {

/// Whether the watcher goes on polling.
pub struct Run {
    should_run: bool,
}

impl Run {
    /// Whether the watcher still runs.
    pub closed spec fn is_running(self) -> bool {
        self.should_run
    }

    /// The state after a request to set the flag: a cleared flag is never set again.
    pub open spec fn after_set(self, should_run: bool) -> bool {
        self.is_running() && should_run
    }

    /// A run state with the given flag.
    pub fn new(should_run: bool) -> (run: Self)
        ensures
            run.is_running() == should_run,
    {
        Self { should_run }
    }

    /// Reads the flag: the watcher's loop condition.
    pub fn should_run(&self) -> (running: bool)
        ensures
            running == self.is_running(),
    {
        self.should_run
    }

    /// Clears the flag when given `false`. A request to set it again once it is
    /// cleared is ignored: the state only ever goes from running to stopped.
    pub fn set_should_run(&mut self, should_run: bool)
        ensures
            final(self).is_running() == old(self).after_set(should_run),
    {
        self.should_run = self.should_run && should_run;
    }
}

/// The flag after each of `requests` was made in turn, starting from `running`.
pub open spec fn after_requests(running: bool, requests: Seq<bool>) -> bool
    decreases requests.len(),
{
    if requests.len() == 0 {
        running
    } else {
        after_requests(running, requests.drop_last()) && requests.last()
    }
}

/// Once a request to stop was made, the flag is cleared whatever is asked later:
/// the next look at the loop condition ends the watcher.
pub proof fn lemma_stop_is_final(running: bool, requests: Seq<bool>, i: int)
    requires
        0 <= i < requests.len(),
        !requests[i],
    ensures
        !after_requests(running, requests),
    decreases requests.len(),
{
    if i < requests.len() - 1 {
        lemma_stop_is_final(running, requests.drop_last(), i);
    }
}

/// A run state that is stopped was started stopped or was asked to stop.
pub proof fn lemma_stopped_by_request(running: bool, requests: Seq<bool>)
    requires
        running,
        !after_requests(running, requests),
    ensures
        requests.contains(false),
    decreases requests.len(),
{
    if requests.len() > 0 {
        if requests.last() {
            lemma_stopped_by_request(running, requests.drop_last());
            let i = choose|i: int| 0 <= i < requests.len() - 1 && !requests.drop_last()[i];
            assert(!requests[i]);
        } else {
            assert(!requests[requests.len() - 1]);
        }
    }
}

} // verus!
