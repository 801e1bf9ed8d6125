use redarrow::client::{rt_run, run_parallel, Opts};
use redarrow::driver::{
    client_for, fan_out, host_report, is_host_list, printer_for, single_outcome, split_hosts,
    Printer, Tally,
};
use redarrow::result::Seconds;
use redarrow::CommandResult;

fn ok(stdout: &str, stderr: &str, code: i32) -> CommandResult {
    let z = Seconds { secs: 0, nanos: 0 };
    CommandResult::ok(stdout.to_string(), stderr.to_string(), code, z, z)
}

#[test]
fn host_list_is_cut_at_commas() {
    assert_eq!(split_hosts("a,b"), vec!["a", "b"]);
    assert_eq!(split_hosts("one.example"), vec!["one.example"]);
    assert_eq!(split_hosts("a,,b,"), vec!["a", "", "b", ""]);
    assert_eq!(split_hosts(""), vec![""]);
    assert!(is_host_list("a,b"));
    assert!(is_host_list(","));
    assert!(!is_host_list("a.b"));
    assert!(!is_host_list(""));
}

#[test]
fn answer_is_shown_between_two_banners() {
    let report = host_report("web1", &ok("out\n", "err\n", 2));
    assert_eq!(report.head, ">>>>> web1 <<<<<\nout\n");
    assert_eq!(report.diagnostics, "err\n");
    assert_eq!(
        report.tail,
        ">>>>> web1 returns 2 <<<<<\n\n----------------------------------------\n"
    );
    assert_eq!(report.code, 2);
}

#[test]
fn failure_is_shown_under_its_own_banner_with_code_three() {
    let report = host_report("web2", &CommandResult::err("ClientError: refused".to_string()));
    assert_eq!(report.head, ">>>>> web2 <<<<<\n>>>>> web2 returns error: <<<<<\n");
    assert_eq!(report.diagnostics, "ClientError: refused");
    assert_eq!(report.tail, "\n----------------------------------------\n");
    assert_eq!(report.code, 3);
}

#[test]
fn missing_output_is_named() {
    let z = Seconds { secs: 0, nanos: 0 };
    let mut r = CommandResult::chunked_ok(0, z, z);
    r.exit_code = None;
    let report = host_report("h", &r);
    assert_eq!(report.head, ">>>>> h <<<<<\nError: stdout None");
    assert_eq!(report.diagnostics, "Error: stderr None");
    assert_eq!(
        report.tail,
        ">>>>> h returns -2 <<<<<\n\n----------------------------------------\n"
    );
    assert_eq!(report.code, -2);
}

#[test]
fn two_hosts_one_failing_exit_with_one() {
    let mut tally = Tally::new();
    tally.record("good".to_string(), host_report("good", &ok("", "", 0)).code);
    tally.record("bad".to_string(), host_report("bad", &ok("", "", 2)).code);
    assert_eq!(tally.total(), 2);
    assert_eq!(tally.exit_code(), 1);
    let bad = tally.bad_hosts();
    assert_eq!(bad.len(), 1);
    assert_eq!((bad[0].host.as_str(), bad[0].code), ("bad", 2));
    assert_eq!(
        tally.summary(),
        "2 hosts in total, 1 are okay.\nThere is something wrong with these hosts:\nbad: 2\n"
    );
}

#[test]
fn all_hosts_at_zero_exit_with_zero() {
    let mut tally = Tally::new();
    assert_eq!(tally.exit_code(), 0);
    assert_eq!(tally.summary(), "0 hosts in total, 0 are okay.\n");
    tally.record("a".to_string(), 0);
    tally.record("b".to_string(), 0);
    tally.record("c".to_string(), 0);
    assert_eq!(tally.exit_code(), 0);
    assert!(tally.bad_hosts().is_empty());
    assert_eq!(tally.summary(), "3 hosts in total, 3 are okay.\n");
}

#[test]
fn failed_host_counts_as_bad() {
    let mut tally = Tally::new();
    tally.record("a".to_string(), 0);
    tally.record("b".to_string(), host_report("b", &CommandResult::err("x".to_string())).code);
    tally.record("c".to_string(), -2);
    assert_eq!(tally.exit_code(), 1);
    assert_eq!(
        tally.summary(),
        "3 hosts in total, 1 are okay.\nThere is something wrong with these hosts:\nb: 3\nc: -2\n"
    );
}

#[test]
fn host_that_answers_again_is_counted_once() {
    let mut tally = Tally::new();
    tally.record("a".to_string(), 1);
    tally.record("b".to_string(), 0);
    tally.record("a".to_string(), 0);
    assert_eq!(tally.total(), 2);
    assert_eq!(tally.exit_code(), 0);
    tally.record("b".to_string(), 9);
    assert_eq!(tally.total(), 2);
    let bad = tally.bad_hosts();
    assert_eq!(bad.len(), 1);
    assert_eq!((bad[0].host.as_str(), bad[0].code), ("b", 9));
}

#[test]
fn lines_go_where_their_descriptor_says() {
    assert_eq!(printer_for(0), Printer::Stop);
    assert_eq!(printer_for(1), Printer::Stdout);
    assert_eq!(printer_for(2), Printer::Stderr);
    assert_eq!(printer_for(3), Printer::Unknown);
    assert_eq!(printer_for(-1), Printer::Unknown);
    assert_eq!(printer_for(i8::MIN), Printer::Unknown);
}

#[test]
fn single_host_passes_the_exit_code_through() {
    let o = single_outcome(&Ok(ok("", "", 5)));
    assert_eq!((o.diagnostics.as_str(), o.code), ("", 5));
    let o = single_outcome(&Ok(ok("", "", 0)));
    assert_eq!((o.diagnostics.as_str(), o.code), ("", 0));
    let z = Seconds { secs: 0, nanos: 0 };
    let mut r = CommandResult::chunked_ok(0, z, z);
    r.exit_code = None;
    assert_eq!(single_outcome(&Ok(r)).code, -2);
}

#[test]
fn single_host_failures_exit_with_three() {
    let o = single_outcome(&Err("connection refused".to_string()));
    assert_eq!((o.diagnostics.as_str(), o.code), ("ClientError: connection refused\n", 3));
    let o = single_outcome(&Ok(CommandResult::err("Unknown Command: nope".to_string())));
    assert_eq!((o.diagnostics.as_str(), o.code), ("ServerError: Unknown Command: nope\n", 3));
}

#[test]
fn every_host_of_the_list_gets_its_own_client() {
    let arguments = vec!["a".to_string(), "b".to_string()];
    let clients = fan_out("web1,web2,,web1", 4205, "echo", &arguments);
    let hosts: Vec<&str> = clients.iter().map(|c| c.host_name()).collect();
    assert_eq!(hosts, vec!["web1", "web2", "", "web1"]);
    for c in &clients {
        assert_eq!(c.user_agent(), "Redarrow-client/0.8.0");
        assert_eq!(c.connect_timeout(), Seconds { secs: 3, nanos: 0 });
        assert_eq!(c.get_arguments().as_deref(), Some("a b"));
    }
    assert_eq!(clients[1].build_url(), "http://web2:4205/command/echo");
    let one = fan_out("solo", 1, "c", &Vec::new());
    assert_eq!(one.len(), 1);
    assert_eq!(one[0].build_url(), "http://solo:1/command/c");
    assert_eq!(one[0].get_arguments(), None);
}

#[test]
fn single_host_client_is_named_after_the_command_line() {
    let c = client_for("h".to_string(), 80, "df".to_string(), vec!["-h".to_string()]);
    assert_eq!(c.host_name(), "h");
    assert_eq!(c.user_agent(), "Redarrow-client/0.8.0");
    assert_eq!(c.build_url(), "http://h:80/command/df");
    assert_eq!(c.run_realtime().request.params.chunked, Some(1));
}

#[test]
fn streamed_requests_fan_out_by_host() {
    let opts = Opts {
        host: "a,b".to_string(),
        port: 4205,
        command: "up".to_string(),
        arguments: vec!["x y".to_string()],
    };
    let each = run_parallel(&opts);
    assert_eq!(each.len(), 2);
    assert_eq!((each[0].host.as_str(), each[1].host.as_str()), ("a", "b"));
    for o in &each {
        assert_eq!((o.port, o.command.as_str()), (4205, "up"));
        assert_eq!(o.arguments, vec!["x y"]);
    }
    let plan = rt_run(&each[1]);
    assert_eq!(plan.host, "b");
    assert_eq!(plan.url, "http://b:4205/command/up?chunked=1&argument=x+y");
    assert_eq!(plan.connect_timeout, Seconds { secs: 3, nanos: 0 });
}
