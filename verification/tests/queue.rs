use javy::queue::{TimerCallback, TimerQueue};

fn add_timer(delay_ms: u32, callback_code: &str, queue: &mut TimerQueue) -> u32 {
    queue.add_timer(
        delay_ms,
        false,
        TimerCallback::Code(callback_code.to_string()),
        None,
    )
}

#[test]
fn test_timer_queue() {
    let mut queue = TimerQueue::new();

    // Add some timers
    let id1 = add_timer(100, "console.log('timer1')", &mut queue);
    let id2 = add_timer(50, "console.log('timer2')", &mut queue);
    let id3 = add_timer(200, "console.log('timer3')", &mut queue);

    assert_eq!(id1, 1);
    assert_eq!(id2, 2);
    assert_eq!(id3, 3);

    assert!(queue.has_pending_timers());

    // Remove a timer
    assert!(queue.remove_timer(id2));
    assert!(!queue.remove_timer(999)); // Non-existent timer

    assert!(queue.has_pending_timers());
}

#[test]
fn drain_returns_same_instant_registrations_in_delay_order() {
    let mut queue = TimerQueue::new();
    let now: u64 = 1_000;
    let id_long = queue.add_timer_at(now, 80, false, TimerCallback::Function, None);
    let id_short = queue.add_timer_at(now, 20, false, TimerCallback::Function, None);

    let drained = queue.get_expired_timers_at(now + 80);
    assert_eq!(drained.len(), 2);
    assert_eq!(drained[0].id, id_short);
    assert_eq!(drained[1].id, id_long);
    assert!(!queue.has_pending_timers());
}

#[test]
fn drain_keeps_future_timers() {
    let mut queue = TimerQueue::new();
    let now: u64 = 5_000;
    queue.add_timer_at(now, 10, false, TimerCallback::Function, None);
    let id_future = queue.add_timer_at(now, 500, false, TimerCallback::Function, None);

    let drained = queue.get_expired_timers_at(now + 10);
    assert_eq!(drained.len(), 1);
    assert!(queue.has_pending_timers());

    let drained = queue.get_expired_timers_at(now + 500);
    assert_eq!(drained.len(), 1);
    assert_eq!(drained[0].id, id_future);
}

#[test]
fn equal_fire_times_drain_in_registration_order() {
    let mut queue = TimerQueue::new();
    let now: u64 = 77;
    let first = queue.add_timer_at(now, 5, false, TimerCallback::Function, None);
    let second = queue.add_timer_at(now, 5, false, TimerCallback::Function, None);
    let third = queue.add_timer_at(now, 5, false, TimerCallback::Function, None);

    let drained = queue.get_expired_timers_at(now + 5);
    assert_eq!(drained.len(), 3);
    assert_eq!(drained[0].id, first);
    assert_eq!(drained[1].id, second);
    assert_eq!(drained[2].id, third);
}

#[test]
fn cancelled_timer_never_drains() {
    let mut queue = TimerQueue::new();
    let now: u64 = 10;
    let id_zero = queue.add_timer_at(now, 0, false, TimerCallback::Function, None);
    let id_later = queue.add_timer_at(now, 300, false, TimerCallback::Function, None);

    assert!(queue.remove_timer(id_zero));
    assert!(queue.remove_timer(id_later));

    assert_eq!(queue.get_expired_timers_at(now).len(), 0);
    assert_eq!(queue.get_expired_timers_at(now + 300).len(), 0);
    assert_eq!(queue.get_expired_timers_at(u64::MAX).len(), 0);
}

#[test]
fn zero_delay_is_immediately_eligible() {
    let mut queue = TimerQueue::new();
    let now: u64 = 123;
    queue.add_timer_at(now, 0, false, TimerCallback::Code("x".to_string()), None);
    let drained = queue.get_expired_timers_at(now);
    assert_eq!(drained.len(), 1);
    assert_eq!(drained[0].fire_time, now);
}
