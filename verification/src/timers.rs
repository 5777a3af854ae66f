//! The timer runtime: binds queue operations to the four engine-visible
//! global functions and drives one tick of timer processing.
//!
//! Invoking guest code is the embedded engine's business, so a tick returns a
//! plan — the ordered list of callback invocations and cleanup steps for the
//! timers that fired — which the engine-facing shell carries out after the
//! queue has already been updated.  Intervals are rescheduled under their
//! original identifier before any callback runs, so a callback that clears
//! its own interval removes the rescheduled occurrence.

use vstd::prelude::*;

use crate::queue::{
    count_due, expired_part, has_id, place_timer, remaining_part, scheduled_timer, unique_ids,
    without_id, Timer, TimerCallback, TimerQueue,
};
use crate::queue::{lemma_count_due_first, lemma_place_timer_props};

verus! {

/// One step the engine-facing shell must take after a tick, in order.
pub enum TimerAction {
    /// Evaluate this source text.
    EvalCode(String),
    /// Invoke the callable retained under this timer identifier.
    CallStored(u32),
    /// Release the callable slot for this identifier: it can never fire
    /// again.
    DropStored(u32),
}

/// The actions one fired timer contributes: inline code is evaluated; a
/// retained callable is invoked, and released afterwards unless the timer
/// repeats.
pub open spec fn timer_actions(t: Timer) -> Seq<TimerAction> {
    match t.callback {
        TimerCallback::Code(code) => seq![TimerAction::EvalCode(code)],
        TimerCallback::Function => {
            if t.interval_ms is Some {
                seq![TimerAction::CallStored(t.id)]
            } else {
                seq![TimerAction::CallStored(t.id), TimerAction::DropStored(t.id)]
            }
        },
    }
}

/// The full plan for a batch of fired timers, in firing order.
pub open spec fn actions_of(fired: Seq<Timer>) -> Seq<TimerAction>
    decreases fired.len(),
{
    if fired.len() == 0 {
        Seq::empty()
    } else {
        actions_of(fired.drop_last()) + timer_actions(fired.last())
    }
}

/// Re-admission of one fired timer: a repeating timer is rescheduled under
/// its original identifier, one period after the reschedule instant `rn`; a
/// one-shot leaves no trace.
pub open spec fn reschedule_step(s: Seq<Timer>, t: Timer, rn: u64) -> Seq<Timer> {
    match t.interval_ms {
        Some(ms) => place_timer(s, scheduled_timer(t.id, rn, ms, true, t.callback)),
        None => s,
    }
}

/// Re-admission of a whole fired batch, in firing order.
pub open spec fn reschedule_all(s: Seq<Timer>, fired: Seq<Timer>, rn: u64) -> Seq<Timer>
    decreases fired.len(),
{
    if fired.len() == 0 {
        s
    } else {
        reschedule_all(reschedule_step(s, fired[0], rn), fired.drop_first(), rn)
    }
}

/// The queue after one tick: timers due at `now` leave, and the repeating
/// ones among them return with fire times measured from `rn`.
pub open spec fn processed_queue(q: Seq<Timer>, now: u64, rn: u64) -> Seq<Timer> {
    reschedule_all(remaining_part(q, now), expired_part(q, now), rn)
}

/// A drain splits a queue with unique identifiers into two parts with unique
/// identifiers and no identifier in common.
pub proof fn lemma_parts_disjoint(q: Seq<Timer>, now: u64)
    requires
        unique_ids(q),
    ensures
        unique_ids(expired_part(q, now)),
        forall|j: int|
            0 <= j < expired_part(q, now).len() ==> !has_id(
                remaining_part(q, now),
                #[trigger] expired_part(q, now)[j].id,
            ),
        forall|j: int|
            0 <= j < expired_part(q, now).len() ==> exists|m: int|
                0 <= m < q.len() && #[trigger] expired_part(q, now)[j] == q[m],
{
    lemma_count_due_first(q, now);
    let k = count_due(q, now);
    let ex = expired_part(q, now);
    let rem = remaining_part(q, now);
    assert(forall|j: int| 0 <= j < k ==> #[trigger] ex[j] == q[j]);
    assert(forall|m: int| 0 <= m < rem.len() ==> #[trigger] rem[m] == q[k + m]);
    assert forall|j: int| 0 <= j < ex.len() implies !has_id(rem, #[trigger] ex[j].id) by {
        if has_id(rem, ex[j].id) {
            let m = choose|m: int| 0 <= m < rem.len() && #[trigger] rem[m].id == ex[j].id;
            assert(q[j].id == q[k + m].id);
        }
    }
}

/// The timer runtime: owns the queue that the four guest-visible globals
/// operate on.
pub struct TimersRuntime {
    pub queue: TimerQueue,
}

impl TimersRuntime {
    pub open spec fn wf(&self) -> bool {
        self.queue.wf()
    }

    pub fn new() -> (rt: TimersRuntime)
        ensures
            rt.wf(),
            rt.queue@ == Seq::<Timer>::empty(),
            rt.queue.next_timer_id() == 1,
    {
        TimersRuntime { queue: TimerQueue::new() }
    }

    /// The names of the global functions the runtime exposes to the guest,
    /// in registration order.  The engine-facing shell binds each name to a
    /// closure over the queue.
    pub fn register_globals(&self) -> (names: Vec<String>)
        ensures
            names@.len() == 4,
            names@[0]@ == "setTimeout"@,
            names@[1]@ == "clearTimeout"@,
            names@[2]@ == "setInterval"@,
            names@[3]@ == "clearInterval"@,
    {
        let mut names: Vec<String> = Vec::new();
        names.push(String::from_str("setTimeout"));
        names.push(String::from_str("clearTimeout"));
        names.push(String::from_str("setInterval"));
        names.push(String::from_str("clearInterval"));
        names
    }

    /// One tick at instant `now`, with repeating timers rescheduled from
    /// `resched_now` (recomputed at reschedule time rather than reusing
    /// `now`, to avoid accumulating drift from processing latency).
    ///
    /// Returns the callback plan for the fired batch; the queue itself is
    /// already updated when this returns, so guest code run by the shell may
    /// freely register or cancel timers.
    pub fn process_timers_at(&mut self, now: u64, resched_now: u64) -> (plan: Vec<TimerAction>)
        requires
            old(self).wf(),
        ensures
            final(self).wf(),
            final(self).queue@ == processed_queue(old(self).queue@, now, resched_now),
            plan@ == actions_of(expired_part(old(self).queue@, now)),
            final(self).queue.next_timer_id() == old(self).queue.next_timer_id(),
    {
        let ghost q0 = self.queue@;
        let ghost next0 = self.queue.next_timer_id();
        let fired = self.queue.get_expired_timers_at(now);
        let ghost fseq = fired@;
        let ghost target = reschedule_all(remaining_part(q0, now), fseq, resched_now);
        proof {
            lemma_parts_disjoint(q0, now);
            lemma_count_due_first(q0, now);
            assert forall|j: int| 0 <= j < fseq.len() implies 1 <= #[trigger] fseq[j].id
                < next0 by {
                assert(fseq[j] == q0[j]);
            }
            assert(fseq.skip(0) =~= fseq);
        }
        let mut idx: usize = 0;
        while idx < fired.len()
            invariant
                idx <= fseq.len(),
                fired@ == fseq,
                self.queue.wf(),
                self.queue.next_timer_id() == next0,
                unique_ids(fseq),
                forall|j: int| 0 <= j < fseq.len() ==> 1 <= #[trigger] fseq[j].id < next0,
                forall|j: int| idx <= j < fseq.len() ==> !has_id(
                    self.queue@,
                    #[trigger] fseq[j].id,
                ),
                reschedule_all(self.queue@, fseq.skip(idx as int), resched_now) == target,
            decreases fseq.len() - idx,
        {
            let ghost qcur = self.queue@;
            let t_id = fired[idx].id;
            let t_interval = fired[idx].interval_ms;
            proof {
                assert(fseq.skip(idx as int)[0] == fseq[idx as int]);
                assert(fseq.skip(idx as int).drop_first() =~= fseq.skip(idx as int + 1));
            }
            match t_interval {
                Some(interval_ms) => {
                    let cb = clone_callback(&fired[idx].callback);
                    self.queue.add_timer_at(resched_now, interval_ms, true, cb, Some(t_id));
                    proof {
                        assert(self.queue@ == reschedule_step(
                            qcur,
                            fseq[idx as int],
                            resched_now,
                        ));
                        lemma_place_timer_props(
                            qcur,
                            scheduled_timer(t_id, resched_now, interval_ms, true, cb),
                        );
                        assert forall|j: int| idx + 1 <= j < fseq.len() implies !has_id(
                            self.queue@,
                            #[trigger] fseq[j].id,
                        ) by {
                            assert(fseq[j].id != fseq[idx as int].id);
                        }
                    }
                },
                None => {
                    proof {
                        assert(self.queue@ == reschedule_step(
                            qcur,
                            fseq[idx as int],
                            resched_now,
                        ));
                    }
                },
            }
            idx = idx + 1;
        }
        proof {
            assert(fseq.skip(fseq.len() as int) =~= Seq::<Timer>::empty());
            assert(self.queue@ == target);
        }
        let mut plan: Vec<TimerAction> = Vec::new();
        let mut i: usize = 0;
        while i < fired.len()
            invariant
                i <= fseq.len(),
                fired@ == fseq,
                plan@ == actions_of(fseq.take(i as int)),
            decreases fseq.len() - i,
        {
            let ghost plan0 = plan@;
            match &fired[i].callback {
                TimerCallback::Code(code) => {
                    plan.push(TimerAction::EvalCode(code.clone()));
                    proof {
                        assert(plan@ =~= plan0 + timer_actions(fseq[i as int]));
                    }
                },
                TimerCallback::Function => {
                    plan.push(TimerAction::CallStored(fired[i].id));
                    if fired[i].interval_ms.is_none() {
                        plan.push(TimerAction::DropStored(fired[i].id));
                    }
                    proof {
                        assert(plan@ =~= plan0 + timer_actions(fseq[i as int]));
                    }
                },
            }
            proof {
                assert(fseq.take(i as int + 1).drop_last() =~= fseq.take(i as int));
                assert(fseq.take(i as int + 1).last() == fseq[i as int]);
                assert(plan@ == actions_of(fseq.take(i as int + 1)));
            }
            i = i + 1;
        }
        proof {
            assert(fseq.take(fseq.len() as int) =~= fseq);
        }
        plan
    }

    /// One tick at the current instant.
    pub fn process_timers(&mut self) -> (plan: Vec<TimerAction>)
        requires
            old(self).wf(),
        ensures
            final(self).wf(),
            exists|now: u64, rn: u64|
                final(self).queue@ == #[trigger] processed_queue(old(self).queue@, now, rn)
                    && plan@ == actions_of(expired_part(old(self).queue@, now)),
            final(self).queue.next_timer_id() == old(self).queue.next_timer_id(),
    {
        let now = TimerQueue::now();
        let resched_now = TimerQueue::now();
        self.process_timers_at(now, resched_now)
    }

    /// True iff at least one timer remains queued.
    pub fn has_pending_timers(&self) -> (pending: bool)
        ensures
            pending == (self.queue@.len() != 0),
    {
        self.queue.has_pending_timers()
    }
}

/// A copy of a callback equal to the original.
fn clone_callback(cb: &TimerCallback) -> (r: TimerCallback)
    ensures
        r == *cb,
{
    match cb {
        TimerCallback::Code(code) => TimerCallback::Code(code.clone()),
        TimerCallback::Function => TimerCallback::Function,
    }
}

/// Register a one-shot timer that fires `delay_ms` from now; returns its
/// fresh identifier.  When the callback is a retained callable, the shell
/// stores it under the returned identifier.
pub fn set_timeout(queue: &mut TimerQueue, callback: TimerCallback, delay_ms: u32) -> (id: u32)
    requires
        old(queue).wf(),
        old(queue).next_timer_id() < u32::MAX,
    ensures
        final(queue).wf(),
        id == old(queue).next_timer_id(),
        final(queue).next_timer_id() == old(queue).next_timer_id() + 1,
        exists|now: u64|
            final(queue)@ == #[trigger] place_timer(
                old(queue)@,
                scheduled_timer(id, now, delay_ms, false, callback),
            ),
{
    queue.add_timer(delay_ms, false, callback, None)
}

/// Cancel a one-shot timer; absent identifiers are a no-op.  Returns whether
/// anything was removed, so the shell can release a retained callable.
pub fn clear_timeout(queue: &mut TimerQueue, timer_id: u32) -> (removed: bool)
    requires
        old(queue).wf(),
    ensures
        final(queue).wf(),
        final(queue)@ == without_id(old(queue)@, timer_id),
        removed == has_id(old(queue)@, timer_id),
        final(queue).next_timer_id() == old(queue).next_timer_id(),
{
    queue.remove_timer(timer_id)
}

/// Register a repeating timer with the given period; returns its fresh
/// identifier.
pub fn set_interval(queue: &mut TimerQueue, callback: TimerCallback, interval_ms: u32) -> (id: u32)
    requires
        old(queue).wf(),
        old(queue).next_timer_id() < u32::MAX,
    ensures
        final(queue).wf(),
        id == old(queue).next_timer_id(),
        final(queue).next_timer_id() == old(queue).next_timer_id() + 1,
        exists|now: u64|
            final(queue)@ == #[trigger] place_timer(
                old(queue)@,
                scheduled_timer(id, now, interval_ms, true, callback),
            ),
{
    queue.add_timer(interval_ms, true, callback, None)
}

/// Cancel a repeating timer; absent identifiers are a no-op.
pub fn clear_interval(queue: &mut TimerQueue, timer_id: u32) -> (removed: bool)
    requires
        old(queue).wf(),
    ensures
        final(queue).wf(),
        final(queue)@ == without_id(old(queue)@, timer_id),
        removed == has_id(old(queue)@, timer_id),
        final(queue).next_timer_id() == old(queue).next_timer_id(),
{
    queue.remove_timer(timer_id)
}

} // verus!
