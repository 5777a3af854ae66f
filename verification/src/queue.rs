//! The timer queue: an ordered collection of pending timers keyed by their
//! absolute fire time, together with the allocator for timer identifiers.
//!
//! The queue is kept sorted by fire time, with ties resolved first-in
//! first-out: a newly scheduled timer is placed after every timer that is due
//! no later than it.  Draining therefore removes a prefix of the sequence.

use vstd::prelude::*;

verus! {

/// What a timer runs when it fires: either inline source text to evaluate,
/// or a marker that the callable value was retained by the host under the
/// timer's identifier.
pub enum TimerCallback {
    Code(String),
    Function,
}

/// One scheduled unit of work.
pub struct Timer {
    /// Process-unique positive identifier.
    pub id: u32,
    /// Absolute instant, in milliseconds since a fixed epoch, at which the
    /// timer becomes eligible to run.
    pub fire_time: u64,
    /// What to run when the timer fires.
    pub callback: TimerCallback,
    /// `Some(period)` for a repeating timer, `None` for a one-shot.
    pub interval_ms: Option<u32>,
}

/// The sum of `a` and `b`, clamped to `u64::MAX`.
pub open spec fn clamped_sum(a: u64, b: u64) -> u64 {
    if a + b <= u64::MAX {
        (a + b) as u64
    } else {
        u64::MAX
    }
}

/// The timer that a registration at instant `now` with the given arguments
/// schedules.
pub open spec fn scheduled_timer(
    id: u32,
    now: u64,
    delay_ms: u32,
    repeat: bool,
    callback: TimerCallback,
) -> Timer {
    Timer {
        id,
        fire_time: clamped_sum(now, delay_ms as u64),
        callback,
        interval_ms: if repeat {
            Some(delay_ms)
        } else {
            None
        },
    }
}

/// Non-decreasing fire times.
pub open spec fn sorted_by_fire_time(s: Seq<Timer>) -> bool {
    forall|i: int, j: int|
        #![trigger s[i], s[j]]
        0 <= i <= j < s.len() ==> s[i].fire_time <= s[j].fire_time
}

/// No identifier occurs twice.
pub open spec fn unique_ids(s: Seq<Timer>) -> bool {
    forall|i: int, j: int| #![trigger s[i], s[j]] 0 <= i < j < s.len() ==> s[i].id != s[j].id
}

/// Some timer in `s` carries the identifier `id`.
pub open spec fn has_id(s: Seq<Timer>, id: u32) -> bool {
    exists|i: int| 0 <= i < s.len() && #[trigger] s[i].id == id
}

/// Length of the longest prefix of `s` whose timers are due at or before
/// `bound`.
pub open spec fn count_due(s: Seq<Timer>, bound: u64) -> int
    decreases s.len(),
{
    if s.len() == 0 {
        0
    } else if s[0].fire_time <= bound {
        1 + count_due(s.drop_first(), bound)
    } else {
        0
    }
}

/// Stable insertion: `t` goes after every timer due at or before its own
/// fire time, so equal fire times keep registration order.
pub open spec fn place_timer(s: Seq<Timer>, t: Timer) -> Seq<Timer> {
    s.insert(count_due(s, t.fire_time), t)
}

/// The timers a drain at `now` extracts, in order.
pub open spec fn expired_part(s: Seq<Timer>, now: u64) -> Seq<Timer> {
    s.take(count_due(s, now))
}

/// The timers a drain at `now` leaves queued, in order.
pub open spec fn remaining_part(s: Seq<Timer>, now: u64) -> Seq<Timer> {
    s.skip(count_due(s, now))
}

/// `s` with every timer whose identifier is `id` removed (at most one, when
/// identifiers are unique).
pub open spec fn without_id(s: Seq<Timer>, id: u32) -> Seq<Timer>
    decreases s.len(),
{
    if s.len() == 0 {
        Seq::empty()
    } else {
        let rest = without_id(s.drop_last(), id);
        if s.last().id == id {
            rest
        } else {
            rest.push(s.last())
        }
    }
}

/// `count_due` is the index of the first timer due strictly after `bound`
/// (or the length, when there is none).
pub proof fn lemma_count_due_first(s: Seq<Timer>, bound: u64)
    ensures
        0 <= count_due(s, bound) <= s.len(),
        forall|j: int| 0 <= j < count_due(s, bound) ==> #[trigger] s[j].fire_time <= bound,
        count_due(s, bound) < s.len() ==> s[count_due(s, bound)].fire_time > bound,
    decreases s.len(),
{
    if s.len() > 0 && s[0].fire_time <= bound {
        lemma_count_due_first(s.drop_first(), bound);
        assert forall|j: int| 0 <= j < count_due(s, bound) implies #[trigger] s[j].fire_time
            <= bound by {
            if j > 0 {
                assert(s.drop_first()[j - 1] == s[j]);
                assert(s.drop_first()[j - 1].fire_time <= bound);
            }
        }
        if count_due(s, bound) < s.len() {
            assert(s.drop_first()[count_due(s, bound) - 1] == s[count_due(s, bound)]);
        }
    }
}

/// Any index that splits `s` into a prefix due at or before `bound` and a
/// remainder starting strictly after it is `count_due`.
pub proof fn lemma_count_due_unique(s: Seq<Timer>, bound: u64, k: int)
    requires
        0 <= k <= s.len(),
        forall|j: int| 0 <= j < k ==> #[trigger] s[j].fire_time <= bound,
        k < s.len() ==> s[k].fire_time > bound,
    ensures
        k == count_due(s, bound),
    decreases s.len(),
{
    if s.len() > 0 && s[0].fire_time <= bound {
        assert(k != 0);
        assert(forall|j: int|
            0 <= j < s.len() - 1 ==> #[trigger] s.drop_first()[j] == s[j + 1]);
        lemma_count_due_unique(s.drop_first(), bound, k - 1);
    } else if s.len() > 0 {
        assert(k == 0) by {
            if k > 0 {
                assert(s[0].fire_time <= bound);
            }
        }
    }
}

/// Placing a fresh timer keeps the queue well formed, and changes membership
/// only by that timer's identifier.
pub proof fn lemma_place_timer_props(s: Seq<Timer>, t: Timer)
    requires
        sorted_by_fire_time(s),
    ensures
        place_timer(s, t).len() == s.len() + 1,
        sorted_by_fire_time(place_timer(s, t)),
        unique_ids(s) && !has_id(s, t.id) ==> unique_ids(place_timer(s, t)),
        forall|x: u32| has_id(place_timer(s, t), x) <==> (has_id(s, x) || x == t.id),
        forall|i: int|
            0 <= i < place_timer(s, t).len() ==> #[trigger] place_timer(s, t)[i] == t
                || exists|j: int| 0 <= j < s.len() && place_timer(s, t)[i] == #[trigger] s[j],
{
    let k = count_due(s, t.fire_time);
    lemma_count_due_first(s, t.fire_time);
    s.insert_ensures(k, t);
    let p = place_timer(s, t);
    assert forall|i: int, j: int| 0 <= i <= j < p.len() implies p[i].fire_time
        <= p[j].fire_time by {
        if i < k {
            assert(p[i] == s[i]);
        } else if i == k {
            assert(p[i] == t);
        } else {
            assert(p[i] == s[i - 1]);
        }
        if j < k {
            assert(p[j] == s[j]);
        } else if j == k {
            assert(p[j] == t);
        } else {
            assert(p[j] == s[j - 1]);
        }
    }
    if unique_ids(s) && !has_id(s, t.id) {
        assert forall|i: int, j: int| 0 <= i < j < p.len() implies p[i].id != p[j].id by {
            if i != k && j != k {
                let i0: int = if i < k { i } else { i - 1 };
                let j0: int = if j < k { j } else { j - 1 };
                assert(p[i] == s[i0] && p[j] == s[j0]);
            } else if i == k {
                let j0: int = j - 1;
                assert(p[j] == s[j0]);
                assert(s[j0].id != t.id) by {
                    if s[j0].id == t.id {
                        assert(has_id(s, t.id));
                    }
                }
            } else {
                let i0: int = i;
                assert(p[i] == s[i0]);
                assert(s[i0].id != t.id) by {
                    if s[i0].id == t.id {
                        assert(has_id(s, t.id));
                    }
                }
            }
        }
    }
    assert forall|x: u32| has_id(p, x) <==> (has_id(s, x) || x == t.id) by {
        if has_id(s, x) {
            let i = choose|i: int| 0 <= i < s.len() && #[trigger] s[i].id == x;
            if i < k {
                assert(p[i].id == x);
            } else {
                assert(p[i + 1].id == x);
            }
        }
        assert(p[k].id == t.id);
        if has_id(p, x) {
            let i = choose|i: int| 0 <= i < p.len() && #[trigger] p[i].id == x;
            if i < k {
                assert(s[i].id == x);
            } else if i > k {
                assert(s[i - 1].id == x);
            }
        }
    }
    assert forall|i: int| 0 <= i < p.len() implies p[i] == t || exists|j: int|
        0 <= j < s.len() && p[i] == #[trigger] s[j] by {
        if i < k {
            assert(p[i] == s[i]);
        } else if i > k {
            assert(p[i] == s[i - 1]);
        }
    }
}

/// Removal by identifier keeps the queue well formed, removes every timer
/// with that identifier, and touches nothing else.
pub proof fn lemma_without_id_props(s: Seq<Timer>, id: u32)
    ensures
        without_id(s, id).len() <= s.len(),
        !has_id(without_id(s, id), id),
        sorted_by_fire_time(s) ==> sorted_by_fire_time(without_id(s, id)),
        unique_ids(s) ==> unique_ids(without_id(s, id)),
        forall|x: u32| x != id ==> (has_id(without_id(s, id), x) <==> has_id(s, x)),
        forall|i: int|
            0 <= i < without_id(s, id).len() ==> exists|j: int|
                0 <= j < s.len() && #[trigger] without_id(s, id)[i] == #[trigger] s[j],
    decreases s.len(),
{
    if s.len() > 0 {
        let pre = s.drop_last();
        let rest = without_id(pre, id);
        lemma_without_id_props(pre, id);
        assert forall|i: int|
            0 <= i < without_id(s, id).len() implies exists|j: int|
            0 <= j < s.len() && #[trigger] without_id(s, id)[i] == #[trigger] s[j] by {
            let w = without_id(s, id);
            if i < rest.len() {
                assert(w[i] == rest[i]);
                let j = choose|j: int| 0 <= j < pre.len() && rest[i] == #[trigger] pre[j];
                assert(s[j] == pre[j]);
            } else {
                assert(w[i] == s.last());
                assert(s[s.len() - 1] == s.last());
            }
        }
        if sorted_by_fire_time(s) {
            assert(sorted_by_fire_time(pre)) by {
                assert(forall|j: int| 0 <= j < pre.len() ==> #[trigger] pre[j] == s[j]);
            }
            assert forall|i: int, j: int|
                0 <= i <= j < without_id(s, id).len() implies without_id(s, id)[i].fire_time
                <= without_id(s, id)[j].fire_time by {
                let w = without_id(s, id);
                if s.last().id != id && j == w.len() - 1 && i < j {
                    let k = choose|k: int| 0 <= k < pre.len() && w[i] == #[trigger] pre[k];
                    assert(pre[k] == s[k]);
                    assert(w[j] == s.last());
                    assert(s[k].fire_time <= s[s.len() - 1].fire_time);
                }
            }
        }
        if unique_ids(s) {
            assert(unique_ids(pre)) by {
                assert(forall|j: int| 0 <= j < pre.len() ==> #[trigger] pre[j] == s[j]);
            }
            assert forall|i: int, j: int|
                0 <= i < j < without_id(s, id).len() implies without_id(s, id)[i].id
                != without_id(s, id)[j].id by {
                let w = without_id(s, id);
                if s.last().id != id && j == w.len() - 1 {
                    let k = choose|k: int| 0 <= k < pre.len() && w[i] == #[trigger] pre[k];
                    assert(pre[k] == s[k]);
                    assert(w[j] == s.last());
                    assert(s[k].id != s[s.len() - 1].id);
                }
            }
        }
        assert forall|x: u32| x != id implies (has_id(without_id(s, id), x) <==> has_id(
            s,
            x,
        )) by {
            let w = without_id(s, id);
            if has_id(s, x) {
                let i = choose|i: int| 0 <= i < s.len() && #[trigger] s[i].id == x;
                if i < s.len() - 1 {
                    assert(pre[i].id == x);
                    assert(has_id(pre, x));
                    let j = choose|j: int| 0 <= j < rest.len() && #[trigger] rest[j].id == x;
                    assert(w[j].id == x);
                } else {
                    assert(s.last().id == x);
                    assert(w[w.len() - 1].id == x);
                }
            }
            if has_id(w, x) {
                let i = choose|i: int| 0 <= i < w.len() && #[trigger] w[i].id == x;
                if i < rest.len() {
                    assert(has_id(pre, x));
                    let j = choose|j: int| 0 <= j < pre.len() && #[trigger] pre[j].id == x;
                    assert(s[j].id == x);
                } else {
                    assert(w[i] == s.last());
                    assert(s[s.len() - 1].id == x);
                }
            }
        }
    }
}

/// A min-ordered collection of pending timers plus the private counter for
/// identifier allocation.
pub struct TimerQueue {
    timers: Vec<Timer>,
    next_id: u32,
}

impl View for TimerQueue {
    type V = Seq<Timer>;

    closed spec fn view(&self) -> Seq<Timer> {
        self.timers@
    }
}

impl TimerQueue {
    /// The next identifier the allocator would hand out.
    pub closed spec fn next_timer_id(&self) -> u32 {
        self.next_id
    }

    /// Queue invariant: sorted by fire time, identifiers unique, positive,
    /// and always below the allocator counter.
    pub open spec fn wf(&self) -> bool {
        &&& sorted_by_fire_time(self@)
        &&& unique_ids(self@)
        &&& self.next_timer_id() >= 1
        &&& forall|i: int|
            0 <= i < self@.len() ==> 1 <= #[trigger] self@[i].id < self.next_timer_id()
    }

    pub fn new() -> (q: TimerQueue)
        ensures
            q.wf(),
            q@ == Seq::<Timer>::empty(),
            q.next_timer_id() == 1,
    {
        TimerQueue { timers: Vec::new(), next_id: 1 }
    }

    /// Current wall-clock time in milliseconds since the UNIX epoch.
    ///
    /// Relies on `std::time::SystemTime::now`; the duration since the epoch
    /// is converted to whole milliseconds.  Nothing is assumed of the value:
    /// callers state what holds whatever instant comes back.  (A clock set
    /// before the epoch reads as zero.)
    #[verifier::external_body]
    pub(crate) fn now() -> u64 {
        match std::time::SystemTime::now().duration_since(std::time::UNIX_EPOCH) {
            Ok(d) => d.as_millis() as u64,
            Err(_) => 0,
        }
    }

    /// Schedule a timer to fire `delay_ms` after the instant `now`.
    ///
    /// With `reuse_id` the new entry keeps that identifier instead of
    /// allocating a fresh one; that path is only for rescheduling a repeating
    /// timer whose identifier has just left the queue.
    pub fn add_timer_at(
        &mut self,
        now: u64,
        delay_ms: u32,
        repeat: bool,
        callback: TimerCallback,
        reuse_id: Option<u32>,
    ) -> (id: u32)
        requires
            old(self).wf(),
            reuse_id is None ==> old(self).next_timer_id() < u32::MAX,
            match reuse_id {
                Some(r) => 1 <= r < old(self).next_timer_id() && !has_id(old(self)@, r),
                None => true,
            },
        ensures
            final(self).wf(),
            final(self)@ == place_timer(
                old(self)@,
                scheduled_timer(id, now, delay_ms, repeat, callback),
            ),
            match reuse_id {
                Some(r) => id == r && final(self).next_timer_id() == old(self).next_timer_id(),
                None => id == old(self).next_timer_id() && final(self).next_timer_id() == old(self).next_timer_id() + 1,
            },
    {
        let id = match reuse_id {
            Some(r) => r,
            None => {
                let id = self.next_id;
                self.next_id = self.next_id + 1;
                id
            },
        };
        let fire_time = if delay_ms as u64 <= u64::MAX - now {
            now + delay_ms as u64
        } else {
            u64::MAX
        };
        let timer = Timer {
            id,
            fire_time,
            callback,
            interval_ms: if repeat {
                Some(delay_ms)
            } else {
                None
            },
        };
        proof {
            assert(!has_id(self@, timer.id)) by {
                if has_id(self@, timer.id) {
                    let i = choose|i: int| 0 <= i < self@.len() && #[trigger] self@[i].id
                        == timer.id;
                }
            }
        }
        let mut i: usize = 0;
        while i < self.timers.len() && self.timers[i].fire_time <= fire_time
            invariant
                i <= self.timers.len(),
                forall|j: int| 0 <= j < i ==> #[trigger] self.timers@[j].fire_time
                    <= fire_time,
            decreases self.timers.len() - i,
        {
            i = i + 1;
        }
        proof {
            lemma_count_due_unique(self@, timer.fire_time, i as int);
            lemma_place_timer_props(self@, timer);
        }
        self.timers.insert(i, timer);
        id
    }

    /// Schedule a timer `delay_ms` from the current instant and return its
    /// identifier.
    pub fn add_timer(
        &mut self,
        delay_ms: u32,
        repeat: bool,
        callback: TimerCallback,
        reuse_id: Option<u32>,
    ) -> (id: u32)
        requires
            old(self).wf(),
            reuse_id is None ==> old(self).next_timer_id() < u32::MAX,
            match reuse_id {
                Some(r) => 1 <= r < old(self).next_timer_id() && !has_id(old(self)@, r),
                None => true,
            },
        ensures
            final(self).wf(),
            exists|now: u64|
                final(self)@ == #[trigger] place_timer(
                    old(self)@,
                    scheduled_timer(id, now, delay_ms, repeat, callback),
                ),
            match reuse_id {
                Some(r) => id == r && final(self).next_timer_id() == old(self).next_timer_id(),
                None => id == old(self).next_timer_id() && final(self).next_timer_id() == old(self).next_timer_id() + 1,
            },
    {
        let now = Self::now();
        self.add_timer_at(now, delay_ms, repeat, callback, reuse_id)
    }

    /// Remove every entry carrying `timer_id`; report whether any was
    /// present.
    pub fn remove_timer(&mut self, timer_id: u32) -> (removed: bool)
        requires
            old(self).wf(),
        ensures
            final(self).wf(),
            final(self)@ == without_id(old(self)@, timer_id),
            removed == has_id(old(self)@, timer_id),
            final(self).next_timer_id() == old(self).next_timer_id(),
    {
        let ghost s0 = self@;
        let mut kept: Vec<Timer> = Vec::new();
        let mut removed = false;
        let ghost mut done: Seq<Timer> = Seq::empty();
        while self.timers.len() > 0
            invariant
                s0 == done + self.timers@,
                kept@ == without_id(done, timer_id),
                removed == has_id(done, timer_id),
                self.next_id == old(self).next_timer_id(),
            decreases self.timers@.len(),
        {
            let t = self.timers.remove(0);
            let ghost done_next = done.push(t);
            proof {
                assert(done_next.drop_last() == done);
                assert(done_next.last() == t);
                assert(s0 == done_next + self.timers@);
                assert forall|x: u32| has_id(done_next, x) <==> (has_id(done, x) || x
                    == t.id) by {
                    if has_id(done, x) {
                        let i = choose|i: int| 0 <= i < done.len() && #[trigger] done[i].id == x;
                        assert(done_next[i].id == x);
                    }
                    assert(done_next[done_next.len() - 1].id == t.id);
                    if has_id(done_next, x) {
                        let i = choose|i: int|
                            0 <= i < done_next.len() && #[trigger] done_next[i].id == x;
                        if i < done.len() {
                            assert(done[i].id == x);
                        }
                    }
                }
            }
            if t.id != timer_id {
                kept.push(t);
            } else {
                removed = true;
            }
            proof {
                done = done_next;
            }
        }
        proof {
            assert(self.timers@.len() == 0);
            assert(done + self.timers@ =~= done);
            assert(s0 == done);
            lemma_without_id_props(s0, timer_id);
            assert forall|i: int|
                0 <= i < without_id(s0, timer_id).len() implies 1 <= #[trigger] without_id(
                s0,
                timer_id,
            )[i].id < self.next_timer_id() by {
                let j = choose|j: int|
                    0 <= j < s0.len() && without_id(s0, timer_id)[i] == #[trigger] s0[j];
            }
        }
        self.timers = kept;
        removed
    }

    /// Remove and return, oldest fire time first, every timer due at or
    /// before `now`.
    pub fn get_expired_timers_at(&mut self, now: u64) -> (expired: Vec<Timer>)
        requires
            old(self).wf(),
        ensures
            final(self).wf(),
            expired@ == expired_part(old(self)@, now),
            final(self)@ == remaining_part(old(self)@, now),
            final(self).next_timer_id() == old(self).next_timer_id(),
            forall|i: int| 0 <= i < expired@.len() ==> #[trigger] expired@[i].fire_time <= now,
            forall|i: int| 0 <= i < final(self)@.len() ==> #[trigger] final(self)@[i].fire_time > now,
    {
        let ghost s0 = self@;
        let mut expired: Vec<Timer> = Vec::new();
        while self.timers.len() > 0 && self.timers[0].fire_time <= now
            invariant
                sorted_by_fire_time(s0),
                unique_ids(s0),
                s0 == expired@ + self.timers@,
                forall|i: int| 0 <= i < expired@.len() ==> #[trigger] expired@[i].fire_time
                    <= now,
                self.next_id == old(self).next_timer_id(),
                old(self).wf(),
            decreases self.timers@.len(),
        {
            let t = self.timers.remove(0);
            expired.push(t);
            proof {
                assert(s0 =~= expired@ + self.timers@);
            }
        }
        proof {
            let k = expired@.len() as int;
            assert forall|j: int| 0 <= j < k implies #[trigger] s0[j].fire_time <= now by {
                assert(s0[j] == expired@[j]);
            }
            if k < s0.len() {
                assert(self.timers@.len() > 0);
                assert(s0[k] == self.timers@[0]);
                assert(s0[k].fire_time > now);
            }
            lemma_count_due_unique(s0, now, k);
            assert(expired@ =~= expired_part(s0, now));
            assert(self.timers@ =~= remaining_part(s0, now));
            assert forall|i: int| 0 <= i < self@.len() implies #[trigger] self@[i].fire_time
                > now by {
                assert(self@[i] == s0[k + i]);
                assert(self.timers@.len() > 0);
                assert(s0[k] == self.timers@[0]);
                assert(s0[k].fire_time > now);
                assert(s0[k].fire_time <= s0[k + i].fire_time);
            }
            assert forall|i: int| 0 <= i < self@.len() implies 1 <= #[trigger] self@[i].id
                < self.next_timer_id() by {
                assert(self@[i] == s0[k + i]);
            }
            assert(sorted_by_fire_time(self@) && unique_ids(self@)) by {
                assert forall|i: int, j: int| 0 <= i <= j < self@.len() implies #[trigger] self@[i].fire_time
                    <= #[trigger] self@[j].fire_time by {
                    assert(self@[i] == s0[k + i] && self@[j] == s0[k + j]);
                }
                assert forall|i: int, j: int| 0 <= i < j < self@.len() implies #[trigger] self@[i].id
                    != #[trigger] self@[j].id by {
                    assert(self@[i] == s0[k + i] && self@[j] == s0[k + j]);
                }
            }
        }
        expired
    }

    /// Remove and return every timer due at or before the current instant.
    pub fn get_expired_timers(&mut self) -> (expired: Vec<Timer>)
        requires
            old(self).wf(),
        ensures
            final(self).wf(),
            exists|now: u64|
                expired@ == #[trigger] expired_part(old(self)@, now) && final(self)@
                    == remaining_part(old(self)@, now),
            final(self).next_timer_id() == old(self).next_timer_id(),
    {
        let now = Self::now();
        self.get_expired_timers_at(now)
    }

    /// True iff at least one timer remains queued, due or not.
    pub fn has_pending_timers(&self) -> (pending: bool)
        ensures
            pending == (self@.len() != 0),
    {
        self.timers.len() != 0
    }
}

} // verus!
