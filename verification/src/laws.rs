//! Ordering, cancellation and repetition guarantees of the timer subsystem,
//! stated over the queue and tick models and proved once and for all.

use vstd::prelude::*;

use crate::queue::{
    clamped_sum, count_due, expired_part, has_id, place_timer, remaining_part, scheduled_timer,
    sorted_by_fire_time, unique_ids, without_id, Timer, TimerCallback,
};
use crate::queue::{lemma_count_due_first, lemma_place_timer_props, lemma_without_id_props};
use crate::timers::{
    lemma_parts_disjoint, processed_queue, reschedule_all, reschedule_step,
};

verus! {

/// How many timers in `s` carry the identifier `id`.
pub open spec fn count_id(s: Seq<Timer>, id: u32) -> int
    decreases s.len(),
{
    if s.len() == 0 {
        0
    } else {
        count_id(s.drop_last(), id) + if s.last().id == id {
            1int
        } else {
            0int
        }
    }
}

/// The timer `t` fires again as: rescheduled one period after `rn` when it
/// repeats, unchanged (and in fact gone) when it does not.
pub open spec fn renewed(t: Timer, rn: u64) -> Timer {
    match t.interval_ms {
        Some(ms) => scheduled_timer(t.id, rn, ms, true, t.callback),
        None => t,
    }
}

/// The queue left after performing the given drains in order; each drain is
/// a pair of the drain instant and the reschedule instant.
pub open spec fn queue_after_drains(q: Seq<Timer>, drains: Seq<(u64, u64)>) -> Seq<Timer>
    decreases drains.len(),
{
    if drains.len() == 0 {
        q
    } else {
        queue_after_drains(processed_queue(q, drains[0].0, drains[0].1), drains.drop_first())
    }
}

/// How often the identifier `id` fires over the given drains.
pub open spec fn fires_in_drains(q: Seq<Timer>, drains: Seq<(u64, u64)>, id: u32) -> int
    decreases drains.len(),
{
    if drains.len() == 0 {
        0
    } else {
        count_id(expired_part(q, drains[0].0), id) + fires_in_drains(
            processed_queue(q, drains[0].0, drains[0].1),
            drains.drop_first(),
            id,
        )
    }
}

/// An identifier occurs zero times exactly when it is absent, and never a
/// negative number of times.
pub proof fn lemma_count_id_zero(s: Seq<Timer>, id: u32)
    ensures
        count_id(s, id) >= 0,
        (count_id(s, id) == 0) <==> !has_id(s, id),
    decreases s.len(),
{
    if s.len() > 0 {
        let pre = s.drop_last();
        lemma_count_id_zero(pre, id);
        assert(has_id(s, id) <==> (has_id(pre, id) || s.last().id == id)) by {
            if has_id(pre, id) {
                let i = choose|i: int| 0 <= i < pre.len() && #[trigger] pre[i].id == id;
                assert(s[i].id == id);
            }
            if s.last().id == id {
                assert(s[s.len() - 1].id == id);
            }
            if has_id(s, id) {
                let i = choose|i: int| 0 <= i < s.len() && #[trigger] s[i].id == id;
                if i < s.len() - 1 {
                    assert(pre[i].id == id);
                }
            }
        }
    }
}

/// With unique identifiers, a present identifier occurs exactly once.
pub proof fn lemma_count_id_one(s: Seq<Timer>, id: u32)
    requires
        unique_ids(s),
        has_id(s, id),
    ensures
        count_id(s, id) == 1,
    decreases s.len(),
{
    let pre = s.drop_last();
    assert(unique_ids(pre)) by {
        assert(forall|i: int| 0 <= i < pre.len() ==> #[trigger] pre[i] == s[i]);
    }
    if s.last().id == id {
        assert(!has_id(pre, id)) by {
            if has_id(pre, id) {
                let i = choose|i: int| 0 <= i < pre.len() && #[trigger] pre[i].id == id;
                assert(s[i].id == s[s.len() - 1].id);
            }
        }
        lemma_count_id_zero(pre, id);
    } else {
        assert(has_id(pre, id)) by {
            let i = choose|i: int| 0 <= i < s.len() && #[trigger] s[i].id == id;
            assert(i < s.len() - 1);
            assert(pre[i].id == id);
        }
        lemma_count_id_one(pre, id);
    }
}

/// Both halves of a drain keep the queue's sort order, and an absent
/// identifier stays absent in both.
pub proof fn lemma_parts_inherit(q: Seq<Timer>, now: u64)
    ensures
        sorted_by_fire_time(q) ==> sorted_by_fire_time(expired_part(q, now)),
        sorted_by_fire_time(q) ==> sorted_by_fire_time(remaining_part(q, now)),
        forall|x: u32| !has_id(q, x) ==> !has_id(expired_part(q, now), x),
        forall|x: u32| !has_id(q, x) ==> !has_id(remaining_part(q, now), x),
{
    lemma_count_due_first(q, now);
    let k = count_due(q, now);
    let ex = expired_part(q, now);
    let rem = remaining_part(q, now);
    assert(forall|j: int| 0 <= j < ex.len() ==> #[trigger] ex[j] == q[j]);
    assert(forall|m: int| 0 <= m < rem.len() ==> #[trigger] rem[m] == q[k + m]);
    assert forall|x: u32| !has_id(q, x) implies !has_id(ex, x) by {
        if has_id(ex, x) {
            let j = choose|j: int| 0 <= j < ex.len() && #[trigger] ex[j].id == x;
            assert(q[j].id == x);
        }
    }
    assert forall|x: u32| !has_id(q, x) implies !has_id(rem, x) by {
        if has_id(rem, x) {
            let m = choose|m: int| 0 <= m < rem.len() && #[trigger] rem[m].id == x;
            assert(q[k + m].id == x);
        }
    }
}

/// Re-admitting a fired batch keeps the queue well formed, keeps every
/// already-queued timer, brings back exactly the repeating fired timers
/// (renewed), and introduces no other identifier.
pub proof fn lemma_reschedule_all_props(s: Seq<Timer>, f: Seq<Timer>, rn: u64)
    requires
        sorted_by_fire_time(s),
        unique_ids(s),
        unique_ids(f),
        forall|i: int| 0 <= i < f.len() ==> !has_id(s, #[trigger] f[i].id),
    ensures
        sorted_by_fire_time(reschedule_all(s, f, rn)),
        unique_ids(reschedule_all(s, f, rn)),
        forall|x: u32|
            #[trigger] has_id(reschedule_all(s, f, rn), x) <==> (has_id(s, x) || exists|i: int|
                0 <= i < f.len() && #[trigger] f[i].id == x && f[i].interval_ms is Some),
        forall|m: int|
            0 <= m < s.len() ==> exists|n: int|
                0 <= n < reschedule_all(s, f, rn).len() && reschedule_all(s, f, rn)[n]
                    == #[trigger] s[m],
        forall|i: int|
            0 <= i < f.len() && (#[trigger] f[i].interval_ms) is Some ==> exists|n: int|
                0 <= n < reschedule_all(s, f, rn).len() && reschedule_all(s, f, rn)[n] == renewed(
                    f[i],
                    rn,
                ),
    decreases f.len(),
{
    let res = reschedule_all(s, f, rn);
    if f.len() == 0 {
        assert forall|m: int| 0 <= m < s.len() implies exists|n: int|
            0 <= n < res.len() && res[n] == #[trigger] s[m] by {
            assert(res[m] == s[m]);
        }
    } else {
        let s1 = reschedule_step(s, f[0], rn);
        let f1 = f.drop_first();
        assert(forall|i: int| 0 <= i < f1.len() ==> #[trigger] f1[i] == f[i + 1]);
        assert(unique_ids(f1));
        match f[0].interval_ms {
            Some(ms) => {
                let t = scheduled_timer(f[0].id, rn, ms, true, f[0].callback);
                lemma_place_timer_props(s, t);
                assert(s1 == place_timer(s, t));
                assert forall|i: int| 0 <= i < f1.len() implies !has_id(
                    s1,
                    #[trigger] f1[i].id,
                ) by {
                    assert(f1[i].id != f[0].id);
                    assert(!has_id(s, f1[i].id));
                }
                lemma_reschedule_all_props(s1, f1, rn);
                assert(res == reschedule_all(s1, f1, rn));
                assert forall|x: u32| #[trigger] has_id(res, x) implies (has_id(s, x) || exists|
                    i: int,
                |
                    0 <= i < f.len() && #[trigger] f[i].id == x && f[i].interval_ms is Some) by {
                    if !has_id(s, x) {
                        if has_id(s1, x) && x == t.id {
                            assert(f[0].id == x && f[0].interval_ms is Some);
                        } else {
                            let i = choose|i: int|
                                0 <= i < f1.len() && #[trigger] f1[i].id == x
                                    && f1[i].interval_ms is Some;
                            assert(f[i + 1].id == x && f[i + 1].interval_ms is Some);
                        }
                    }
                }
                assert forall|x: u32|
                    (has_id(s, x) || exists|i: int|
                        0 <= i < f.len() && #[trigger] f[i].id == x && f[i].interval_ms
                            is Some) implies #[trigger] has_id(res, x) by {
                    if has_id(s, x) {
                        assert(has_id(s1, x));
                    } else {
                        let i = choose|i: int|
                            0 <= i < f.len() && #[trigger] f[i].id == x && f[i].interval_ms
                                is Some;
                        if i == 0 {
                            assert(has_id(s1, x));
                        } else {
                            assert(f1[i - 1].id == x && f1[i - 1].interval_ms is Some);
                        }
                    }
                }
                assert forall|m: int| 0 <= m < s.len() implies exists|n: int|
                    0 <= n < res.len() && res[n] == #[trigger] s[m] by {
                    let k = count_due(s, t.fire_time);
                    lemma_count_due_first(s, t.fire_time);
                    s.insert_ensures(k, t);
                    let n1: int = if m < k {
                        m
                    } else {
                        m + 1
                    };
                    lemma_count_due_first(s, t.fire_time);
                    assert(s1[n1] == s[m]);
                    assert(exists|n: int| 0 <= n < res.len() && res[n] == s1[n1]);
                }
                assert forall|i: int|
                    0 <= i < f.len() && (#[trigger] f[i].interval_ms) is Some implies exists|
                    n: int,
                |
                    0 <= n < res.len() && res[n] == renewed(f[i], rn) by {
                    if i == 0 {
                        let k = count_due(s, t.fire_time);
                        lemma_count_due_first(s, t.fire_time);
                        s.insert_ensures(k, t);
                        assert(s1[k] == t);
                        assert(renewed(f[0], rn) == t);
                        assert(exists|n: int| 0 <= n < res.len() && res[n] == s1[k]);
                    } else {
                        assert(f1[i - 1] == f[i]);
                    }
                }
            },
            None => {
                assert(s1 == s);
                assert forall|i: int| 0 <= i < f1.len() implies !has_id(
                    s1,
                    #[trigger] f1[i].id,
                ) by {
                    assert(!has_id(s, f1[i].id));
                }
                lemma_reschedule_all_props(s1, f1, rn);
                assert(res == reschedule_all(s1, f1, rn));
                assert forall|x: u32| #[trigger] has_id(res, x) implies (has_id(s, x) || exists|
                    i: int,
                |
                    0 <= i < f.len() && #[trigger] f[i].id == x && f[i].interval_ms is Some) by {
                    if !has_id(s, x) {
                        let i = choose|i: int|
                            0 <= i < f1.len() && #[trigger] f1[i].id == x && f1[i].interval_ms
                                is Some;
                        assert(f[i + 1].id == x && f[i + 1].interval_ms is Some);
                    }
                }
                assert forall|x: u32|
                    (has_id(s, x) || exists|i: int|
                        0 <= i < f.len() && #[trigger] f[i].id == x && f[i].interval_ms
                            is Some) implies #[trigger] has_id(res, x) by {
                    if !has_id(s, x) {
                        let i = choose|i: int|
                            0 <= i < f.len() && #[trigger] f[i].id == x && f[i].interval_ms
                                is Some;
                        assert(i != 0);
                        assert(f1[i - 1].id == x && f1[i - 1].interval_ms is Some);
                    }
                }
                assert forall|i: int|
                    0 <= i < f.len() && (#[trigger] f[i].interval_ms) is Some implies exists|
                    n: int,
                |
                    0 <= n < res.len() && res[n] == renewed(f[i], rn) by {
                    assert(i != 0);
                    assert(f1[i - 1] == f[i]);
                }
            },
        }
    }
}

/// One tick keeps the queue sorted with unique identifiers and never invents
/// an identifier.
pub proof fn lemma_processed_wf(q: Seq<Timer>, now: u64, rn: u64)
    requires
        sorted_by_fire_time(q),
        unique_ids(q),
    ensures
        sorted_by_fire_time(processed_queue(q, now, rn)),
        unique_ids(processed_queue(q, now, rn)),
        forall|x: u32| #[trigger] has_id(processed_queue(q, now, rn), x) ==> has_id(q, x),
{
    lemma_parts_disjoint(q, now);
    lemma_parts_inherit(q, now);
    lemma_count_due_first(q, now);
    let ex = expired_part(q, now);
    let rem = remaining_part(q, now);
    assert(unique_ids(rem)) by {
        let k = count_due(q, now);
        assert(forall|m: int| 0 <= m < rem.len() ==> #[trigger] rem[m] == q[k + m]);
    }
    assert forall|i: int| 0 <= i < ex.len() implies !has_id(rem, #[trigger] ex[i].id) by {}
    lemma_reschedule_all_props(rem, ex, rn);
    assert forall|x: u32| #[trigger] has_id(processed_queue(q, now, rn), x) implies has_id(
        q,
        x,
    ) by {
        let k = count_due(q, now);
        if has_id(rem, x) {
            let m = choose|m: int| 0 <= m < rem.len() && #[trigger] rem[m].id == x;
            assert(q[k + m].id == x);
        } else if has_id(processed_queue(q, now, rn), x) {
            let i = choose|i: int|
                0 <= i < ex.len() && #[trigger] ex[i].id == x && ex[i].interval_ms is Some;
            assert(q[i].id == x);
        }
    }
}

/// An identifier that is not in the queue never fires again, over any
/// sequence of drains: draining returns only queued timers, and a tick
/// reschedules only identifiers it drained.
pub proof fn lemma_absent_never_fires(q: Seq<Timer>, drains: Seq<(u64, u64)>, id: u32)
    requires
        sorted_by_fire_time(q),
        unique_ids(q),
        !has_id(q, id),
    ensures
        fires_in_drains(q, drains, id) == 0,
        !has_id(queue_after_drains(q, drains), id),
    decreases drains.len(),
{
    if drains.len() > 0 {
        let now = drains[0].0;
        let rn = drains[0].1;
        lemma_parts_inherit(q, now);
        lemma_count_id_zero(expired_part(q, now), id);
        lemma_processed_wf(q, now, rn);
        assert(!has_id(processed_queue(q, now, rn), id));
        lemma_absent_never_fires(processed_queue(q, now, rn), drains.drop_first(), id);
    }
}

/// For all delays `d1 < d2` registered at the same instant on any well
/// formed queue, a drain at any time `t` at or past both fire times yields
/// the first registration strictly before the second.
pub proof fn lemma_same_instant_drain_order(
    s: Seq<Timer>,
    now: u64,
    d1: u32,
    d2: u32,
    cb1: TimerCallback,
    cb2: TimerCallback,
    rep1: bool,
    rep2: bool,
    id1: u32,
    id2: u32,
    t: u64,
)
    requires
        sorted_by_fire_time(s),
        unique_ids(s),
        d1 < d2,
        id1 != id2,
        !has_id(s, id1),
        !has_id(s, id2),
        now + d2 <= u64::MAX,
        t >= now + d2,
    ensures
        ({
            let s1 = place_timer(s, scheduled_timer(id1, now, d1, rep1, cb1));
            let s2 = place_timer(s1, scheduled_timer(id2, now, d2, rep2, cb2));
            let fired = expired_part(s2, t);
            exists|i: int, j: int|
                0 <= i < j < fired.len() && #[trigger] fired[i].id == id1
                    && #[trigger] fired[j].id == id2
        }),
{
    let t1 = scheduled_timer(id1, now, d1, rep1, cb1);
    let t2 = scheduled_timer(id2, now, d2, rep2, cb2);
    assert(t1.fire_time == now + d1);
    assert(t2.fire_time == now + d2);
    let s1 = place_timer(s, t1);
    let s2 = place_timer(s1, t2);
    let k1 = count_due(s, t1.fire_time);
    let k2 = count_due(s1, t2.fire_time);
    lemma_count_due_first(s, t1.fire_time);
    lemma_place_timer_props(s, t1);
    s.insert_ensures(k1, t1);
    lemma_count_due_first(s1, t2.fire_time);
    lemma_place_timer_props(s1, t2);
    s1.insert_ensures(k2, t2);
    assert(s1[k1] == t1);
    assert(k1 < k2) by {
        if k2 <= k1 {
            assert(s1[k2].fire_time > t2.fire_time);
            assert(s1[k2].fire_time <= s1[k1].fire_time);
        }
    }
    assert(s2[k1] == s1[k1]);
    assert(s2[k2] == t2);
    let c = count_due(s2, t);
    lemma_count_due_first(s2, t);
    assert(c > k2) by {
        if c <= k2 {
            assert(c < s2.len());
            assert(s2[c].fire_time > t);
            assert(s2[c].fire_time <= s2[k2].fire_time);
        }
    }
    let fired = expired_part(s2, t);
    assert(fired[k1] == s2[k1]);
    assert(fired[k2] == s2[k2]);
    assert(fired[k1].id == id1 && fired[k2].id == id2);
}

/// Cancelling an identifier removes it at once, and it is then absent from
/// every subsequent drain, for all delay values including zero.
pub proof fn lemma_cancel_before_drain(q: Seq<Timer>, id: u32, drains: Seq<(u64, u64)>)
    requires
        sorted_by_fire_time(q),
        unique_ids(q),
    ensures
        !has_id(without_id(q, id), id),
        fires_in_drains(without_id(q, id), drains, id) == 0,
{
    lemma_without_id_props(q, id);
    lemma_absent_never_fires(without_id(q, id), drains, id);
}

/// No identifier fires more than once in a single drain: the drained batch
/// inherits the queue's uniqueness.
pub proof fn lemma_at_most_once_per_drain(q: Seq<Timer>, id: u32, now: u64)
    requires
        unique_ids(q),
    ensures
        count_id(expired_part(q, now), id) <= 1,
{
    lemma_parts_disjoint(q, now);
    let ex = expired_part(q, now);
    lemma_count_id_zero(ex, id);
    if has_id(ex, id) {
        lemma_count_id_one(ex, id);
    }
}

/// A due repeating timer fires exactly once in a drain, and the tick leaves
/// it queued again exactly once, one period after the reschedule instant.
pub proof fn lemma_interval_fires_once(q: Seq<Timer>, j: int, period: u32, now: u64, rn: u64)
    requires
        sorted_by_fire_time(q),
        unique_ids(q),
        0 <= j < q.len(),
        q[j].interval_ms == Some(period),
        q[j].fire_time <= now,
        rn + period <= u64::MAX,
    ensures
        count_id(expired_part(q, now), q[j].id) == 1,
        ({
            let q1 = processed_queue(q, now, rn);
            exists|m: int|
                0 <= m < q1.len() && #[trigger] q1[m] == scheduled_timer(
                    q[j].id,
                    rn,
                    period,
                    true,
                    q[j].callback,
                )
        }),
        count_id(processed_queue(q, now, rn), q[j].id) == 1,
{
    let id = q[j].id;
    let k = count_due(q, now);
    lemma_count_due_first(q, now);
    lemma_parts_disjoint(q, now);
    lemma_parts_inherit(q, now);
    let ex = expired_part(q, now);
    let rem = remaining_part(q, now);
    assert(j < k) by {
        if j >= k {
            assert(k < q.len());
            assert(q[k].fire_time > now);
            assert(q[k].fire_time <= q[j].fire_time);
        }
    }
    assert(ex[j] == q[j]);
    assert(has_id(ex, id));
    lemma_count_id_one(ex, id);
    assert(unique_ids(rem)) by {
        assert(forall|m: int| 0 <= m < rem.len() ==> #[trigger] rem[m] == q[k + m]);
    }
    lemma_reschedule_all_props(rem, ex, rn);
    let q1 = processed_queue(q, now, rn);
    assert(exists|m: int|
        0 <= m < q1.len() && #[trigger] q1[m] == scheduled_timer(
            id,
            rn,
            period,
            true,
            q[j].callback,
        )) by {
        assert(ex[j].interval_ms is Some);
        let n = choose|n: int| 0 <= n < q1.len() && q1[n] == #[trigger] renewed(ex[j], rn);
        assert(renewed(ex[j], rn) == scheduled_timer(id, rn, period, true, q[j].callback));
    }
    lemma_processed_wf(q, now, rn);
    assert(has_id(q1, id)) by {
        let m = choose|m: int|
            0 <= m < q1.len() && #[trigger] q1[m] == scheduled_timer(
                id,
                rn,
                period,
                true,
                q[j].callback,
            );
        assert(q1[m].id == id);
    }
    lemma_count_id_one(q1, id);
}

/// A repeating timer with period `i`, due at the first of `k` consecutive
/// drains that are each separated by at least `i` milliseconds, fires in
/// every one of those drains: `k` times in total, and (being unique in the
/// queue) never more than once per drain.
pub proof fn lemma_interval_fires_each_drain(
    q: Seq<Timer>,
    j: int,
    period: u32,
    drains: Seq<(u64, u64)>,
)
    requires
        sorted_by_fire_time(q),
        unique_ids(q),
        0 <= j < q.len(),
        q[j].interval_ms == Some(period),
        drains.len() > 0,
        q[j].fire_time <= drains[0].0,
        forall|i: int| 0 <= i < drains.len() ==> (#[trigger] drains[i].1) + period <= u64::MAX,
        forall|i: int|
            0 <= i < drains.len() - 1 ==> (#[trigger] drains[i].1) + period <= drains[i + 1].0,
    ensures
        fires_in_drains(q, drains, q[j].id) == drains.len(),
    decreases drains.len(),
{
    let id = q[j].id;
    let now = drains[0].0;
    let rn = drains[0].1;
    lemma_interval_fires_once(q, j, period, now, rn);
    lemma_processed_wf(q, now, rn);
    let q1 = processed_queue(q, now, rn);
    let rest = drains.drop_first();
    assert(forall|i: int| 0 <= i < rest.len() ==> #[trigger] rest[i] == drains[i + 1]);
    if drains.len() == 1 {
        assert(fires_in_drains(q1, rest, id) == 0);
    } else {
        let m = choose|m: int|
            0 <= m < q1.len() && #[trigger] q1[m] == scheduled_timer(
                id,
                rn,
                period,
                true,
                q[j].callback,
            );
        assert(q1[m].id == id);
        assert(q1[m].interval_ms == Some(period));
        assert(q1[m].fire_time == rn + period) by {
            assert(clamped_sum(rn, period as u64) == rn + period);
        }
        assert(q1[m].fire_time <= rest[0].0) by {
            assert(drains[0].1 + period <= drains[1].0);
            assert(rest[0] == drains[1]);
        }
        lemma_interval_fires_each_drain(q1, m, period, rest);
    }
}

/// Clearing a repeating timer during its own callback prevents any further
/// firing: the tick has already rescheduled it under its original
/// identifier, the clearing call removes that occurrence, and an absent
/// identifier never fires again.
pub proof fn lemma_clear_during_callback(
    q: Seq<Timer>,
    id: u32,
    now: u64,
    rn: u64,
    drains: Seq<(u64, u64)>,
)
    requires
        sorted_by_fire_time(q),
        unique_ids(q),
    ensures
        ({
            let cleared = without_id(processed_queue(q, now, rn), id);
            !has_id(cleared, id) && fires_in_drains(cleared, drains, id) == 0
        }),
{
    lemma_processed_wf(q, now, rn);
    let q1 = processed_queue(q, now, rn);
    lemma_without_id_props(q1, id);
    lemma_absent_never_fires(without_id(q1, id), drains, id);
}

} // verus!
