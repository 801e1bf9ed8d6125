use redarrow::result::Seconds;
use redarrow::supervisor::{Action, Event, GroupSignal, Mode, Phase, Supervisor, Verdict};

fn exited(code: Option<i32>, status: &str) -> Event {
    Event::ChildExited { code, status: status.to_string() }
}

fn span(secs: u64, nanos: u32) -> Seconds {
    Seconds { secs, nanos }
}

#[test]
fn child_that_exits_in_time_ends_the_run() {
    let mut s = Supervisor::new(30);
    assert_eq!(s.current_phase(), Phase::Running);
    assert!(matches!(s.begin(), Action::Wait { seconds: 30 }));
    match s.on_event(exited(Some(7), "exit status: 7")) {
        Action::Finish { verdict: Verdict::Exited { code } } => assert_eq!(code, 7),
        other => panic!("unexpected: {:?}", other),
    }
    assert_eq!(s.current_phase(), Phase::Exited);
}

#[test]
fn child_ended_by_signal_in_time() {
    let mut s = Supervisor::new(30);
    assert!(matches!(
        s.on_event(exited(None, "signal: 9")),
        Action::Finish { verdict: Verdict::Signaled }
    ));
    assert_eq!(s.current_phase(), Phase::Exited);
}

#[test]
fn timeout_asks_the_group_to_end_and_waits_one_second() {
    let mut s = Supervisor::new(2);
    assert!(matches!(s.on_event(Event::WaitElapsed), Action::Terminate { grace_seconds: 1 }));
    assert_eq!(s.current_phase(), Phase::Terminating);
    match s.on_event(exited(None, "signal: 15 (SIGTERM)")) {
        Action::Finish { verdict: Verdict::TimedOut { status } } => {
            assert_eq!(status, "signal: 15 (SIGTERM)")
        }
        other => panic!("unexpected: {:?}", other),
    }
    assert_eq!(s.current_phase(), Phase::Exited);
}

#[test]
fn child_that_ignores_the_request_is_killed() {
    let mut s = Supervisor::new(2);
    s.on_event(Event::WaitElapsed);
    assert!(matches!(s.on_event(Event::WaitElapsed), Action::Kill));
    assert_eq!(s.current_phase(), Phase::Killing);
    assert!(matches!(
        s.on_event(Event::SignalSent),
        Action::Finish { verdict: Verdict::Killed }
    ));
    assert_eq!(s.current_phase(), Phase::Exited);
}

#[test]
fn signal_that_cannot_be_sent_ends_the_run() {
    let mut s = Supervisor::new(2);
    s.on_event(Event::WaitElapsed);
    match s.on_event(Event::SignalFailed { reason: "ESRCH".to_string() }) {
        Action::Finish { verdict: Verdict::SignalFailed { signal, reason } } => {
            assert_eq!(signal, GroupSignal::Terminate);
            assert_eq!(reason, "ESRCH");
        }
        other => panic!("unexpected: {:?}", other),
    }
    let mut s = Supervisor::new(2);
    s.on_event(Event::WaitElapsed);
    s.on_event(Event::WaitElapsed);
    match s.on_event(Event::SignalFailed { reason: "EPERM".to_string() }) {
        Action::Finish { verdict: Verdict::SignalFailed { signal, reason } } => {
            assert_eq!(signal, GroupSignal::Kill);
            assert_eq!(reason, "EPERM");
        }
        other => panic!("unexpected: {:?}", other),
    }
}

#[test]
fn events_that_do_not_apply_change_nothing() {
    let mut s = Supervisor::new(2);
    assert!(matches!(s.on_event(Event::SignalSent), Action::Nothing));
    assert!(matches!(
        s.on_event(Event::SignalFailed { reason: String::new() }),
        Action::Nothing
    ));
    assert_eq!(s.current_phase(), Phase::Running);
    s.on_event(Event::WaitElapsed);
    assert!(matches!(s.on_event(Event::SignalSent), Action::Nothing));
    assert_eq!(s.current_phase(), Phase::Terminating);
    s.on_event(Event::WaitElapsed);
    assert!(matches!(s.on_event(Event::WaitElapsed), Action::Nothing));
    assert!(matches!(s.on_event(exited(Some(0), "")), Action::Nothing));
    assert_eq!(s.current_phase(), Phase::Killing);
    s.on_event(Event::SignalSent);
    assert!(matches!(s.on_event(exited(Some(0), "")), Action::Nothing));
    assert!(matches!(s.on_event(Event::WaitElapsed), Action::Nothing));
    assert!(matches!(s.on_event(Event::SignalSent), Action::Nothing));
    assert_eq!(s.current_phase(), Phase::Exited);
}

#[test]
fn exit_code_gives_a_buffered_success() {
    let r = Verdict::Exited { code: 0 }
        .conclude(
            Mode::Buffered,
            "hello\n".to_string(),
            String::new(),
            span(0, 1_500_000),
            span(1_700_000_000, 250_000_000),
        )
        .unwrap();
    assert_eq!(r.stdout.as_deref(), Some("hello\n"));
    assert_eq!(r.stderr.as_deref(), Some(""));
    assert_eq!(r.exit_code, Some(0));
    assert_eq!(r.time_cost, Some(span(0, 1_500_000)));
    assert_eq!(r.start_time, Some(span(1_700_000_000, 250_000_000)));
    assert!(r.error.is_none());
}

#[test]
fn exit_code_gives_a_streamed_success_without_output() {
    let r = Verdict::Exited { code: 3 }
        .conclude(Mode::Streamed, "x".to_string(), "y".to_string(), span(2, 0), span(9, 0))
        .unwrap();
    assert!(r.stdout.is_none() && r.stderr.is_none());
    assert_eq!(r.exit_code, Some(3));
    assert_eq!(r.time_cost, Some(span(2, 0)));
    assert_eq!(r.start_time, Some(span(9, 0)));
    assert!(r.error.is_none());
}

#[test]
fn failures_are_reported_in_words() {
    let z = span(0, 0);
    let r = Verdict::Signaled
        .conclude(Mode::Buffered, String::new(), String::new(), z, z)
        .unwrap();
    assert_eq!(r.error.as_deref(), Some("Terminated by signal"));
    assert!(r.exit_code.is_none() && r.stdout.is_none() && r.time_cost.is_none());
    let r = Verdict::TimedOut { status: "exit status: 0".to_string() }
        .conclude(Mode::Streamed, String::new(), String::new(), z, z)
        .unwrap();
    assert_eq!(r.error.as_deref(), Some("Time Limit Exceeded: exit status: 0"));
    let r = Verdict::Killed
        .conclude(Mode::Buffered, String::new(), String::new(), z, z)
        .unwrap();
    assert_eq!(r.error.as_deref(), Some("Time Limit Exceeded: killed"));
    let e = Verdict::SignalFailed { signal: GroupSignal::Terminate, reason: "ESRCH".to_string() }
        .conclude(Mode::Buffered, String::new(), String::new(), z, z)
        .unwrap_err();
    assert_eq!(e, "Kill failed: ESRCH");
    let e = Verdict::SignalFailed { signal: GroupSignal::Kill, reason: "EPERM".to_string() }
        .conclude(Mode::Buffered, String::new(), String::new(), z, z)
        .unwrap_err();
    assert_eq!(e, "Force kill failed: EPERM");
}

#[test]
fn every_verdict_is_counted_under_one_label() {
    let labels = |v: Verdict| v.metric_labels();
    assert_eq!(labels(Verdict::Exited { code: 0 }), ("ok".to_string(), "0".to_string()));
    assert_eq!(labels(Verdict::Exited { code: -15 }), ("ok".to_string(), "-15".to_string()));
    assert_eq!(
        labels(Verdict::Exited { code: i32::MIN }),
        ("ok".to_string(), "-2147483648".to_string())
    );
    assert_eq!(labels(Verdict::Signaled), ("terminated".to_string(), String::new()));
    assert_eq!(labels(Verdict::Killed), ("timeout".to_string(), String::new()));
    assert_eq!(
        labels(Verdict::TimedOut { status: "s".to_string() }),
        ("timeout".to_string(), String::new())
    );
    assert_eq!(
        labels(Verdict::SignalFailed { signal: GroupSignal::Kill, reason: String::new() }),
        ("timeout".to_string(), String::new())
    );
}

#[test]
fn output_is_collected_for_runs_that_ended_in_time() {
    assert!(Verdict::Exited { code: 1 }.in_time());
    assert!(Verdict::Signaled.in_time());
    assert!(!Verdict::Killed.in_time());
    assert!(!Verdict::TimedOut { status: String::new() }.in_time());
    assert!(!Verdict::SignalFailed { signal: GroupSignal::Kill, reason: String::new() }.in_time());
}
