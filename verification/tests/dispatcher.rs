use redarrow::dispatcher::{Command, CommandError};
use redarrow::result::Seconds;
use redarrow::supervisor::{Action, Event, Mode};

fn strings(items: &[&str]) -> Vec<String> {
    items.iter().map(|s| s.to_string()).collect()
}

#[test]
fn test_get_command() {
    let (cmd, args) = Command::new(
        "test",
        "sleep ${0}",
        vec![r"[A-Za-z0-9._~:/?@!$&'()*+,=-]+".to_string()],
        5,
    )
    .unwrap()
    .get_command(vec!["1".to_string()])
    .unwrap();
    assert_eq!(cmd, "sleep");
    assert_eq!(args, vec!["1"]);
}

#[test]
fn test_get_command_with_quote() {
    let (cmd, args) = Command::new(
        "test",
        "echo ${0} \"${1}\"",
        vec![r"\d+".to_string(), r"[\d ]+".to_string()],
        5,
    )
    .unwrap()
    .get_command(vec!["1".to_string(), "3 4".to_string()])
    .unwrap();
    assert_eq!(cmd, "echo");
    assert_eq!(args, vec!["1".to_string(), "3 4".to_string()]);

    let (cmd, args) = Command::new(
        "test",
        "echo \'${0}\' \'${1}\'",
        vec![r"\w+".to_string(), r"[\w ]+".to_string()],
        5,
    )
    .unwrap()
    .get_command(vec!["1".to_string(), "34".to_string()])
    .unwrap();
    assert_eq!(cmd, "echo");
    assert_eq!(args, vec!["1", "34"]);
}

#[test]
fn test_get_command_with_space() {
    let (cmd, args) = Command::new(
        "test",
        "echo -e \"${0} ${1}\" ${2}",
        vec![r"\w+".to_string(), r"[\w ]+".to_string(), r"[\w ]+".to_string()],
        5,
    )
    .unwrap()
    .get_command(vec!["1".to_string(), "4".to_string(), "8".to_string()])
    .unwrap();
    assert_eq!(cmd, "echo");
    assert_eq!(args, vec!["-e", "1 4", "8"]);
}

#[test]
fn wrong_argument_count_is_illegal() {
    let cmd = Command::new("echo", "/bin/echo ${0}", strings(&[r"^\w+$"]), 30).unwrap();
    match cmd.get_command(strings(&["a", "b"])) {
        Err(CommandError::IllegalArgument(detail)) => assert_eq!(detail, "Got 2 args (1 expected)"),
        other => panic!("unexpected: {:?}", other),
    }
    match cmd.get_command(Vec::new()) {
        Err(CommandError::IllegalArgument(detail)) => assert_eq!(detail, "Got 0 args (1 expected)"),
        other => panic!("unexpected: {:?}", other),
    }
}

#[test]
fn argument_must_match_as_a_whole() {
    let cmd = Command::new("n", "/bin/sleep ${0}", strings(&[r"\d+"]), 1).unwrap();
    assert!(cmd.get_command(strings(&["5"])).is_ok());
    match cmd.get_command(strings(&["5x"])) {
        Err(CommandError::IllegalArgument(detail)) => assert_eq!(detail, "5x"),
        other => panic!("unexpected: {:?}", other),
    }
    match cmd.get_command(strings(&["bad arg"])) {
        Err(CommandError::IllegalArgument(detail)) => assert_eq!(detail, "bad arg"),
        other => panic!("unexpected: {:?}", other),
    }
}

#[test]
fn empty_argument_bypasses_its_pattern() {
    let cmd = Command::new("n", "/bin/echo ${0} ${1}", strings(&[r"\d+", r"\d+"]), 1).unwrap();
    let (program, argv) = cmd.get_command(strings(&["", "7"])).unwrap();
    assert_eq!(program, "/bin/echo");
    assert_eq!(argv, vec!["", "7"]);
}

#[test]
fn first_rejected_argument_is_reported() {
    let cmd = Command::new("n", "x ${0} ${1}", strings(&[r"\d+", r"\d+"]), 1).unwrap();
    match cmd.get_command(strings(&["a", "b"])) {
        Err(CommandError::IllegalArgument(detail)) => assert_eq!(detail, "a"),
        other => panic!("unexpected: {:?}", other),
    }
}

#[test]
fn unusable_pattern_makes_no_command() {
    assert!(Command::new("n", "x ${0}", strings(&["foo(bar"]), 1).is_none());
    assert!(Command::new("n", "x ${0}", strings(&["a)(b"]), 1).is_none());
}

#[test]
fn unterminated_quote_fails_the_split() {
    let cmd = Command::new("n", "echo \"${0}", strings(&[r"\w+"]), 1).unwrap();
    assert!(matches!(cmd.get_command(strings(&["a"])), Err(CommandError::SplitFailed)));
}

#[test]
fn placeholder_without_argument_is_refused() {
    let cmd = Command::new("n", "echo ${3}", strings(&[r"\w+"]), 1).unwrap();
    assert!(matches!(cmd.get_command(strings(&["a"])), Err(CommandError::UnboundPlaceholder)));
    let cmd = Command::new("n", "echo ${99999999999999999999999999}", strings(&[r"\w+"]), 1).unwrap();
    assert!(matches!(cmd.get_command(strings(&["a"])), Err(CommandError::UnboundPlaceholder)));
}

#[test]
fn one_layer_of_quotes_is_dropped() {
    let cmd = Command::new("n", "echo ${0} '\"x\"' \"'\\\"y\\\"'\"", strings(&[".*"]), 1).unwrap();
    let (_, argv) = cmd.get_command(strings(&["\"q\""])).unwrap();
    assert_eq!(argv, vec!["q", "x", "\"y\""]);
}

#[test]
fn repeated_placeholder_and_plain_text() {
    let cmd = Command::new("n", "p a${0}b${0}c $${0} ${x} ${}", strings(&[r"\w+"]), 1).unwrap();
    let (program, argv) = cmd.get_command(strings(&["Z"])).unwrap();
    assert_eq!(program, "p");
    assert_eq!(argv, vec!["aZbZc", "$Z", "${x}", "${}"]);
}

#[test]
fn program_is_never_expanded() {
    let cmd = Command::new("n", "${0} ${0}", strings(&[r"\w+"]), 1).unwrap();
    let (program, argv) = cmd.get_command(strings(&["ls"])).unwrap();
    assert_eq!(program, "${0}");
    assert_eq!(argv, vec!["ls"]);
}

#[test]
fn empty_template_gives_empty_program() {
    let cmd = Command::new("n", "   ", Vec::new(), 1).unwrap();
    let (program, argv) = cmd.get_command(Vec::new()).unwrap();
    assert_eq!(program, "");
    assert!(argv.is_empty());
}

#[test]
fn execute_refuses_wrong_count_without_a_launch() {
    let cmd = Command::new("echo", "/bin/echo ${0}", strings(&[r"^\w+$"]), 30).unwrap();
    let refused = cmd.execute(strings(&["a", "b", "c"])).unwrap_err();
    assert_eq!(refused.error.as_deref(), Some("Illegal Argument: Got 3 args (1 expected)"));
    assert!(refused.stdout.is_none() && refused.stderr.is_none());
    assert!(refused.exit_code.is_none() && refused.time_cost.is_none());
    assert!(refused.start_time.is_none());
    let refused = cmd.execute_iter(Vec::new()).unwrap_err();
    assert_eq!(refused.error.as_deref(), Some("Illegal Argument: Got 0 args (1 expected)"));
}

#[test]
fn execute_refuses_a_rejected_argument() {
    let cmd = Command::new("echo", "/bin/echo ${0}", strings(&[r"^\w+$"]), 30).unwrap();
    let refused = cmd.execute(strings(&["bad arg"])).unwrap_err();
    assert_eq!(refused.error.as_deref(), Some("Illegal Argument: bad arg"));
    let refused = cmd.execute_iter(strings(&["bad arg"])).unwrap_err();
    assert!(refused.error.unwrap().starts_with("Illegal Argument"));
}

#[test]
fn execute_reports_other_refusals_by_name() {
    let cmd = Command::new("broken", "echo '${0}", strings(&[r"\w+"]), 1).unwrap();
    let refused = cmd.execute(strings(&["a"])).unwrap_err();
    assert_eq!(refused.error.as_deref(), Some("Split command error for broken"));
    let cmd = Command::new("far", "echo ${7}", strings(&[r"\w+"]), 1).unwrap();
    let refused = cmd.execute(strings(&["a"])).unwrap_err();
    assert_eq!(refused.error.as_deref(), Some("Missing argument for a placeholder of far"));
}

#[test]
fn execute_prepares_a_buffered_run() {
    let cmd = Command::new("echo", "/bin/echo ${0}", strings(&[r"^\w+$"]), 30).unwrap();
    let run = cmd.execute(strings(&["hello"])).unwrap();
    assert_eq!(run.program(), "/bin/echo");
    assert_eq!(run.argv(), &strings(&["hello"]));
    assert_eq!(run.mode(), Mode::Buffered);
    match run.begin() {
        Action::Wait { seconds } => assert_eq!(seconds, 30),
        other => panic!("unexpected: {:?}", other),
    }
}

#[test]
fn execute_iter_prepares_a_streamed_run() {
    let cmd = Command::new("slow", "/bin/sleep ${0}", strings(&[r"\d+"]), 1).unwrap();
    let run = cmd.execute_iter(strings(&["5"])).unwrap();
    assert_eq!(run.program(), "/bin/sleep");
    assert_eq!(run.argv(), &strings(&["5"]));
    assert_eq!(run.mode(), Mode::Streamed);
}

#[test]
fn error_messages_name_their_cause() {
    assert_eq!(
        CommandError::IllegalArgument("x y".to_string()).message("c"),
        "Illegal Argument: x y"
    );
    assert_eq!(CommandError::SplitFailed.message("c"), "Split command error for c");
    assert_eq!(
        CommandError::UnboundPlaceholder.message("c"),
        "Missing argument for a placeholder of c"
    );
}

#[test]
fn command_getters_and_clone() {
    let cmd = Command::new("disk", "df ${0}", strings(&[r"\w+"]), 10).unwrap();
    assert_eq!(cmd.name(), "disk");
    assert_eq!(cmd.time_limit(), 10);
    assert_eq!(cmd.arity(), 1);
    let copy = cmd.clone();
    assert_eq!(copy.name(), "disk");
    assert_eq!(copy.time_limit(), 10);
    assert_eq!(copy.get_command(strings(&["sda"])).unwrap().1, vec!["sda"]);
}

#[test]
fn timed_out_run_ends_with_time_limit_exceeded() {
    let cmd = Command::new("slow", "/bin/sleep ${0}", strings(&[r"\d+"]), 1).unwrap();
    let mut run = cmd.execute(strings(&["5"])).unwrap();
    assert!(matches!(run.begin(), Action::Wait { seconds: 1 }));
    assert!(matches!(run.on_event(Event::WaitElapsed), Action::Terminate { grace_seconds: 1 }));
    assert!(matches!(run.on_event(Event::WaitElapsed), Action::Kill));
    let verdict = match run.on_event(Event::SignalSent) {
        Action::Finish { verdict } => verdict,
        other => panic!("unexpected: {:?}", other),
    };
    let zero = Seconds { secs: 0, nanos: 0 };
    let result = run
        .conclude(verdict, String::new(), String::new(), zero, zero)
        .unwrap();
    assert_eq!(result.error.as_deref(), Some("Time Limit Exceeded: killed"));
    assert!(matches!(run.on_event(Event::WaitElapsed), Action::Nothing));
}
