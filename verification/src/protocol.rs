//! The execution / promise protocol: how an evaluation's result value is
//! normalized given the event-loop configuration, what happens to pending
//! jobs after evaluation, and the bounded polling loop that waits for
//! asynchronous work to settle.
//!
//! Loading bytecode, evaluating it and driving promises are the embedded
//! engine's work; the functions here take what the engine observed (is the
//! value a promise, did it settle, does work remain pending) and decide the
//! next step, which the engine-facing shell carries out.

use vstd::prelude::*;

use crate::config::Config;

verus! {

/// Sleep quantum of the completion waiter, in milliseconds: just enough to
/// let wall-clock time advance past the fire time of not-yet-due timers
/// between polls.
pub const POLL_SLEEP_MS: u64 = 1;

/// The pending-jobs error message: guest code scheduled asynchronous work
/// with no event loop available.
pub fn event_loop_err() -> (msg: &'static str)
    ensures
        msg@ == "\n                Pending jobs in the event queue.\n                Scheduling events is not supported when the \n                event-loop runtime config is not enabled.\n            "@,
{
    "\n                Pending jobs in the event queue.\n                Scheduling events is not supported when the \n                event-loop runtime config is not enabled.\n            "
}

/// Rejecting an invalid configuration at initialization time.
#[derive(Debug)]
pub enum ConfigError {
    WaitForCompletionRequiresEventLoop,
}

impl ConfigError {
    pub fn message(&self) -> (r: String)
        ensures
            r@ == "wait_for_completion requires event_loop to be enabled"@,
    {
        String::from_str("wait_for_completion requires event_loop to be enabled")
    }
}

/// The process-wide flags that initialization fixes for the rest of the
/// activation.
pub struct RuntimeFlags {
    pub event_loop_enabled: bool,
    pub wait_for_completion: bool,
    pub wait_timeout_ms: Option<u64>,
}

/// Validate a configuration and fix the runtime flags.
///
/// Initialization is rejected, before any guest code runs, exactly when the
/// configuration asks to wait for completion without enabling the event
/// loop.
pub fn initialize_runtime(config: &Config) -> (r: Result<RuntimeFlags, ConfigError>)
    ensures
        r is Ok <==> config.valid(),
        r matches Ok(flags) ==> flags.event_loop_enabled == config.event_loop_enabled
            && flags.wait_for_completion == config.wait_for_completion_enabled
            && flags.wait_timeout_ms == config.wait_timeout_ms_value,
        r matches Err(e) ==> e is WaitForCompletionRequiresEventLoop,
{
    if config.wait_for_completion_enabled && !config.event_loop_enabled {
        return Err(ConfigError::WaitForCompletionRequiresEventLoop);
    }
    Ok(
        RuntimeFlags {
            event_loop_enabled: config.event_loop_enabled,
            wait_for_completion: config.wait_for_completion_enabled,
            wait_timeout_ms: config.wait_timeout_ms_value,
        },
    )
}

/// What the engine observed about an evaluation's result value.
pub enum PromiseStatus {
    /// The value is not a promise at all.
    NotAPromise,
    /// The value is a promise that has not settled (after driving ready
    /// jobs, when the event loop is enabled; as found, when it is not).
    Pending,
    /// The value is a promise that settled successfully.
    Fulfilled,
    /// The value is a promise that settled with a rejection.
    Rejected,
}

/// How the result of evaluating bytecode (or of calling an exported
/// function) must be treated.
pub enum PromiseVerdict {
    /// Nothing to wait for: proceed.
    Proceed,
    /// The promise still depends on work that has not fired yet (typically a
    /// timer).  Not an error: the post-evaluation drain handles it.
    OutstandingWork,
    /// A promise is pending but no event loop is available: fail with the
    /// pending-jobs error.
    PendingJobsError,
    /// The promise rejected: the rejection propagates as the evaluation's
    /// error, with the guest stack trace intact.
    Rejected,
}

/// Normalize the promise (or plain value) an evaluation produced.
///
/// A non-promise always proceeds.  With the event loop enabled, a still
/// pending promise is outstanding work, not an error.  With it disabled the
/// promise must already be settled: a pending one is the pending-jobs
/// configuration error.  A rejection is an error either way.
pub fn handle_maybe_promise(event_loop_enabled: bool, status: PromiseStatus) -> (v:
    PromiseVerdict)
    ensures
        v is Proceed <==> (status is NotAPromise || status is Fulfilled),
        v is OutstandingWork <==> (status is Pending && event_loop_enabled),
        v is PendingJobsError <==> (status is Pending && !event_loop_enabled),
        v is Rejected <==> status is Rejected,
{
    match status {
        PromiseStatus::NotAPromise => PromiseVerdict::Proceed,
        PromiseStatus::Fulfilled => PromiseVerdict::Proceed,
        PromiseStatus::Pending => {
            if event_loop_enabled {
                PromiseVerdict::OutstandingWork
            } else {
                PromiseVerdict::PendingJobsError
            }
        },
        PromiseStatus::Rejected => PromiseVerdict::Rejected,
    }
}

/// What to do about jobs still pending once evaluation is over.
pub enum JobsDirective {
    /// Hand off to the completion waiter, which blocks until no work remains
    /// or the deadline passes.
    WaitForCompletion,
    /// Perform exactly one pass of resolving ready jobs and stop; timers not
    /// yet due are left unfired.
    ResolveOnce,
    /// Jobs are pending with the event loop disabled: fail with the
    /// pending-jobs error.
    FailPendingJobs,
    /// No event loop and nothing pending: done.
    NoPendingWork,
}

/// Decide the post-evaluation drain, from the runtime flags and whether the
/// engine reports pending jobs.
pub fn ensure_pending_jobs(
    event_loop_enabled: bool,
    wait_for_completion: bool,
    has_pending_jobs: bool,
) -> (d: JobsDirective)
    ensures
        d is WaitForCompletion <==> (event_loop_enabled && wait_for_completion),
        d is ResolveOnce <==> (event_loop_enabled && !wait_for_completion),
        d is FailPendingJobs <==> (!event_loop_enabled && has_pending_jobs),
        d is NoPendingWork <==> (!event_loop_enabled && !has_pending_jobs),
{
    if event_loop_enabled {
        if wait_for_completion {
            JobsDirective::WaitForCompletion
        } else {
            JobsDirective::ResolveOnce
        }
    } else if has_pending_jobs {
        JobsDirective::FailPendingJobs
    } else {
        JobsDirective::NoPendingWork
    }
}

/// One decision of the completion waiter's loop.
pub enum WaitDirective {
    /// No pending jobs or timers remain: success.
    Complete,
    /// The configured deadline has passed with work still pending: emit a
    /// non-fatal warning and return; the process proceeds with whatever
    /// completed.
    TimedOut,
    /// Work remains and the deadline has not passed: sleep one quantum and
    /// poll again.
    SleepAndPoll,
}

/// Decide the completion waiter's next step after one pass of resolving
/// ready jobs: `has_pending_jobs` is what the engine then reports,
/// `elapsed_ms` the time since the wait began, and `timeout_ms` the
/// configured bound (`None` waits forever).
pub fn wait_for_completion_step(
    has_pending_jobs: bool,
    elapsed_ms: u64,
    timeout_ms: Option<u64>,
) -> (d: WaitDirective)
    ensures
        d is Complete <==> !has_pending_jobs,
        d is TimedOut <==> (has_pending_jobs && match timeout_ms {
            Some(t) => elapsed_ms >= t,
            None => false,
        }),
        d is SleepAndPoll <==> (has_pending_jobs && match timeout_ms {
            Some(t) => elapsed_ms < t,
            None => true,
        }),
{
    if !has_pending_jobs {
        return WaitDirective::Complete;
    }
    match timeout_ms {
        Some(t) => {
            if elapsed_ms >= t {
                WaitDirective::TimedOut
            } else {
                WaitDirective::SleepAndPoll
            }
        },
        None => WaitDirective::SleepAndPoll,
    }
}

} // verus!
