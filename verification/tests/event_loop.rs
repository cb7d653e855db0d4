//! Deterministic event loop ordering tests.

use pi::event_loop::{ClockHandle, MacrotaskKind, ManualClock, PiEventLoop};
use std::cell::{Cell, RefCell};
use std::sync::Arc;

#[test]
fn hostcall_completions_run_before_due_timers() {
    let clock = Arc::new(ManualClock::new(1_000));
    let mut loop_state = PiEventLoop::new(ClockHandle::new(clock));

    let _timer = loop_state.set_timeout(0);
    loop_state.enqueue_hostcall_completion("call-1");

    let seen: RefCell<Vec<MacrotaskKind>> = RefCell::new(Vec::new());
    let result = loop_state.tick(
        |task| {
            seen.borrow_mut().push(task.kind);
        },
        || false,
    );

    assert!(result.ran_macrotask);
    assert_eq!(
        *seen.borrow(),
        vec![MacrotaskKind::HostcallComplete {
            call_id: "call-1".to_string()
        }]
    );
}

#[test]
fn timers_order_by_deadline_then_schedule_seq() {
    let clock = Arc::new(ManualClock::new(0));
    let mut loop_state = PiEventLoop::new(ClockHandle::new(clock.clone()));

    let t1 = loop_state.set_timeout(10);
    let t2 = loop_state.set_timeout(10);
    let t3 = loop_state.set_timeout(5);
    clock.set(10);

    let fired: RefCell<Vec<u64>> = RefCell::new(Vec::new());
    for _ in 0..3 {
        loop_state.tick(
            |task| {
                if let MacrotaskKind::TimerFired { timer_id } = task.kind {
                    fired.borrow_mut().push(timer_id);
                }
            },
            || false,
        );
    }

    assert_eq!(*fired.borrow(), vec![t3, t1, t2]);
}

#[test]
fn clear_timeout_prevents_fire() {
    let clock = Arc::new(ManualClock::new(0));
    let mut loop_state = PiEventLoop::new(ClockHandle::new(clock.clone()));

    let timer_id = loop_state.set_timeout(5);
    loop_state.clear_timeout(timer_id);
    clock.set(10);

    let fired: RefCell<Vec<u64>> = RefCell::new(Vec::new());
    let result = loop_state.tick(
        |task| {
            if let MacrotaskKind::TimerFired { timer_id } = task.kind {
                fired.borrow_mut().push(timer_id);
            }
        },
        || false,
    );

    assert!(!result.ran_macrotask);
    assert!(fired.borrow().is_empty());
}

#[test]
fn microtasks_drain_to_fixpoint_after_macrotask() {
    let clock = Arc::new(ManualClock::new(0));
    let mut loop_state = PiEventLoop::new(ClockHandle::new(clock));

    loop_state.enqueue_inbound_event("evt-1");

    let drain_calls = Cell::new(0usize);
    let result = loop_state.tick(
        |_task| {},
        || {
            drain_calls.set(drain_calls.get() + 1);
            drain_calls.get() <= 2
        },
    );

    assert!(result.ran_macrotask);
    assert_eq!(result.microtasks_drained, 2);
    assert_eq!(drain_calls.get(), 3);
}

#[test]
fn completion_wins_against_due_timer_then_timer_fires() {
    let clock = Arc::new(ManualClock::new(1_000));
    let mut loop_state = PiEventLoop::new(ClockHandle::new(clock));

    let timer = loop_state.set_timeout(0);
    loop_state.enqueue_hostcall_completion("call-1");

    let seen: RefCell<Vec<MacrotaskKind>> = RefCell::new(Vec::new());
    loop_state.tick(
        |task| {
            seen.borrow_mut().push(task.kind);
        },
        || false,
    );
    loop_state.tick(
        |task| {
            seen.borrow_mut().push(task.kind);
        },
        || false,
    );

    assert_eq!(
        *seen.borrow(),
        vec![
            MacrotaskKind::HostcallComplete {
                call_id: "call-1".to_string()
            },
            MacrotaskKind::TimerFired { timer_id: timer },
        ]
    );
}

#[test]
fn inbound_events_keep_arrival_order() {
    let clock = Arc::new(ManualClock::new(0));
    let mut loop_state = PiEventLoop::new(ClockHandle::new(clock));

    loop_state.enqueue_inbound_event("evt-1");
    loop_state.enqueue_inbound_event("evt-2");
    loop_state.enqueue_hostcall_completion("call-9");

    let seen: RefCell<Vec<MacrotaskKind>> = RefCell::new(Vec::new());
    for _ in 0..3 {
        loop_state.tick(
            |task| {
                seen.borrow_mut().push(task.kind);
            },
            || false,
        );
    }

    assert_eq!(
        *seen.borrow(),
        vec![
            MacrotaskKind::InboundEvent {
                event_id: "evt-1".to_string()
            },
            MacrotaskKind::InboundEvent {
                event_id: "evt-2".to_string()
            },
            MacrotaskKind::HostcallComplete {
                call_id: "call-9".to_string()
            },
        ]
    );
}

#[test]
fn timer_at_current_clock_fires_on_next_tick() {
    let clock = Arc::new(ManualClock::new(500));
    let mut loop_state = PiEventLoop::new(ClockHandle::new(clock));

    let timer = loop_state.set_timeout(0);
    let seen: RefCell<Vec<MacrotaskKind>> = RefCell::new(Vec::new());
    let result = loop_state.tick(
        |task| {
            seen.borrow_mut().push(task.kind);
        },
        || false,
    );

    assert!(result.ran_macrotask);
    assert_eq!(
        *seen.borrow(),
        vec![MacrotaskKind::TimerFired { timer_id: timer }]
    );
}
