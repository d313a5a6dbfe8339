//! A model of how the workers share the stop flag and the match counter,
//! with the bounds it guarantees on the number of matches reported.
//!
//! Workers are interchangeable, so a state counts them by phase: about to
//! read the stop flag, making an attempt, or exited.
use vstd::prelude::*;
use crate::search::stops_at;

verus! {

pub struct RunState {
    /// The shared match counter.
    pub found: nat,
    /// The shared stop flag.
    pub stop: bool,
    /// Workers about to read the stop flag.
    pub checking: nat,
    /// Workers that read it clear and are making an attempt.
    pub working: nat,
    /// Workers that have left their loop.
    pub exited: nat,
    /// Whether an interrupt has set the stop flag.
    pub interrupted: bool,
}

/// The state when `threads` workers start.
pub open spec fn initial(threads: nat) -> RunState {
    RunState {
        found: 0,
        stop: false,
        checking: threads,
        working: 0,
        exited: 0,
        interrupted: false,
    }
}

/// One step of one worker, or an interrupt, with `target` matches asked for.
pub open spec fn step(s: RunState, t: RunState, target: nat) -> bool {
    // A worker reads the flag clear and starts an attempt.
    ||| s.checking > 0 && !s.stop && t == RunState {
        checking: (s.checking - 1) as nat,
        working: s.working + 1,
        ..s
    }
    // A worker reads the flag set and exits.
    ||| s.checking > 0 && s.stop && t == RunState {
        checking: (s.checking - 1) as nat,
        exited: s.exited + 1,
        ..s
    }
    // An attempt without a hit.
    ||| s.working > 0 && t == RunState {
        working: (s.working - 1) as nat,
        checking: s.checking + 1,
        ..s
    }
    // A hit that reaches the target: the worker sets the flag and exits.
    ||| s.working > 0 && stops_at(s.found + 1, target) && t == RunState {
        found: s.found + 1,
        stop: true,
        working: (s.working - 1) as nat,
        exited: s.exited + 1,
        ..s
    }
    // A hit below the target: the worker goes on.
    ||| s.working > 0 && !stops_at(s.found + 1, target) && t == RunState {
        found: s.found + 1,
        working: (s.working - 1) as nat,
        checking: s.checking + 1,
        ..s
    }
    // An interrupt sets the flag.
    ||| t == RunState { stop: true, interrupted: true, ..s }
}

/// A run of the model: it starts with `threads` workers and each state
/// follows from the one before.
pub open spec fn is_run(trace: Seq<RunState>, threads: nat, target: nat) -> bool {
    &&& trace.len() >= 1
    &&& trace[0] == initial(threads)
    &&& forall|i: int| 0 <= i < trace.len() - 1 ==> step(#[trigger] trace[i], trace[i + 1], target)
}

spec fn inv(s: RunState, threads: nat, target: nat) -> bool {
    &&& s.checking + s.working + s.exited == threads
    &&& s.found >= target ==> s.stop && s.found + s.working <= target + threads - 1
    &&& !s.interrupted ==> (s.stop ==> s.found >= target)
    &&& s.exited > 0 ==> s.stop
}

proof fn lemma_inv_holds(trace: Seq<RunState>, threads: nat, target: nat, i: int)
    requires
        threads >= 1,
        target >= 1,
        is_run(trace, threads, target),
        0 <= i < trace.len(),
    ensures
        inv(trace[i], threads, target),
    decreases i,
{
    if i > 0 {
        lemma_inv_holds(trace, threads, target, i - 1);
        assert(step(trace[i - 1], trace[i], target));
    }
}

/// Once every worker has exited, at most `target + threads - 1` matches have
/// been counted: past the target, each other worker can add at most the one
/// hit it was testing when the flag was set. Without an interrupt, at least
/// `target` matches have been counted.
pub proof fn lemma_match_count_bounds(trace: Seq<RunState>, threads: nat, target: nat)
    requires
        threads >= 1,
        target >= 1,
        is_run(trace, threads, target),
        trace.last().exited == threads,
    ensures
        trace.last().found <= target + threads - 1,
        !trace.last().interrupted ==> trace.last().found >= target,
{
    lemma_inv_holds(trace, threads, target, trace.len() - 1);
}

} // verus!
