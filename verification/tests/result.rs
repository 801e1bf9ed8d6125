use redarrow::result::{Gauges, Seconds};
use redarrow::waker::RedarrowWaker;
use redarrow::{CommandParams, CommandResult};
use std::sync::atomic::{AtomicUsize, Ordering};
use std::sync::Arc;
use std::task::{Wake, Waker};

fn span(secs: u64, nanos: u32) -> Seconds {
    Seconds { secs, nanos }
}

#[test]
fn ok_sets_everything_but_error() {
    let r = CommandResult::ok("o".to_string(), "e".to_string(), 4, span(1, 2), span(3, 4));
    assert_eq!(r.stdout.as_deref(), Some("o"));
    assert_eq!(r.stderr.as_deref(), Some("e"));
    assert_eq!(r.exit_code, Some(4));
    assert_eq!(r.time_cost, Some(span(1, 2)));
    assert_eq!(r.start_time, Some(span(3, 4)));
    assert!(r.error.is_none());
}

#[test]
fn chunked_ok_leaves_the_output_unset() {
    let r = CommandResult::chunked_ok(-1, span(1, 2), span(3, 4));
    assert!(r.stdout.is_none());
    assert!(r.stderr.is_none());
    assert_eq!(r.exit_code, Some(-1));
    assert_eq!(r.time_cost, Some(span(1, 2)));
    assert_eq!(r.start_time, Some(span(3, 4)));
    assert!(r.error.is_none());
}

#[test]
fn err_sets_error_alone() {
    let r = CommandResult::err("boom".to_string());
    assert!(r.stdout.is_none() && r.stderr.is_none());
    assert!(r.exit_code.is_none() && r.time_cost.is_none() && r.start_time.is_none());
    assert_eq!(r.error.as_deref(), Some("boom"));
}

#[test]
fn gauges_show_success_for_exit_code_zero_only() {
    let z = Seconds::zero();
    assert_eq!(z, span(0, 0));
    let r = CommandResult::ok(String::new(), String::new(), 0, span(1, 500), span(9, 0));
    assert_eq!(r.to_prometheus(), Gauges { success: true, return_code: 0, time_cost: span(1, 500) });
    let r = CommandResult::chunked_ok(2, span(0, 7), span(9, 0));
    assert_eq!(r.to_prometheus(), Gauges { success: false, return_code: 2, time_cost: span(0, 7) });
    let r = CommandResult::err("e".to_string());
    assert_eq!(r.to_prometheus(), Gauges { success: false, return_code: 0, time_cost: z });
    let mut r = CommandResult::ok(String::new(), String::new(), 0, span(1, 0), span(9, 0));
    r.error = Some("late".to_string());
    assert_eq!(r.to_prometheus(), Gauges { success: false, return_code: 0, time_cost: z });
    let mut r = CommandResult::chunked_ok(5, span(1, 0), span(9, 0));
    r.time_cost = None;
    assert_eq!(r.to_prometheus(), Gauges { success: false, return_code: 5, time_cost: z });
    r.exit_code = None;
    assert_eq!(r.to_prometheus(), Gauges { success: false, return_code: 0, time_cost: z });
}

#[test]
fn client_status_is_three_for_a_failure() {
    assert_eq!(CommandResult::err("e".to_string()).client_status(), 3);
    assert_eq!(CommandResult::chunked_ok(0, span(0, 0), span(0, 0)).client_status(), 0);
    assert_eq!(CommandResult::chunked_ok(17, span(0, 0), span(0, 0)).client_status(), 17);
    let mut r = CommandResult::chunked_ok(17, span(0, 0), span(0, 0));
    r.exit_code = None;
    assert_eq!(r.client_status(), -2);
}

#[test]
fn params_hold_three_optional_values() {
    let p = CommandParams { chunked: Some(1), argument: Some("a b".to_string()), format: None };
    assert_eq!(p.chunked, Some(1));
    assert_eq!(p.argument.as_deref(), Some("a b"));
    assert!(p.format.is_none());
}

struct Counter(AtomicUsize);

impl Wake for Counter {
    fn wake(self: Arc<Self>) {
        self.0.fetch_add(1, Ordering::SeqCst);
    }
}

#[test]
fn empty_slot_wakes_nobody() {
    let mut slot = RedarrowWaker::new();
    assert!(!slot.wake());
    assert!(!slot.wake());
}

#[test]
fn registered_waker_is_woken_once() {
    let counter = Arc::new(Counter(AtomicUsize::new(0)));
    let waker = Waker::from(counter.clone());
    let mut slot = RedarrowWaker::new();
    slot.register(&waker);
    assert_eq!(counter.0.load(Ordering::SeqCst), 0);
    assert!(slot.wake());
    assert_eq!(counter.0.load(Ordering::SeqCst), 1);
    assert!(!slot.wake());
    assert_eq!(counter.0.load(Ordering::SeqCst), 1);
}

#[test]
fn first_registered_waker_stays() {
    let first = Arc::new(Counter(AtomicUsize::new(0)));
    let second = Arc::new(Counter(AtomicUsize::new(0)));
    let mut slot = RedarrowWaker::new();
    slot.register(&Waker::from(first.clone()));
    slot.register(&Waker::from(second.clone()));
    assert!(slot.wake());
    assert_eq!(first.0.load(Ordering::SeqCst), 1);
    assert_eq!(second.0.load(Ordering::SeqCst), 0);
    slot.register(&Waker::from(second.clone()));
    assert!(slot.wake());
    assert_eq!(second.0.load(Ordering::SeqCst), 1);
}
