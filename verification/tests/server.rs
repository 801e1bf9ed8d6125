use redarrow::config::{parse_config, Catalog};
use redarrow::result::{Gauges, Seconds};
use redarrow::server::{
    buffered_reply, closing_items, parse_arguments, parse_chunked, parse_format, poll_step, route,
    stream_envelope, Body, Format, PollStep, Route, STATUS_BAD_REQUEST, STATUS_OK,
    STATUS_SERVER_ERROR,
};
use redarrow::{CommandParams, CommandResult};

fn catalog() -> Catalog {
    let mut catalog = Catalog::new();
    parse_config(
        "[echo]\nexec=/bin/echo ${0}\narg0=^\\w+$\n[slow]\nexec=/bin/sleep ${0}\narg0=\\d+\ntime_limit=1\n",
        &mut catalog,
    )
    .unwrap();
    catalog
}

fn params(chunked: Option<u8>, argument: Option<&str>, format: Option<&str>) -> CommandParams {
    CommandParams {
        chunked,
        argument: argument.map(|s| s.to_string()),
        format: format.map(|s| s.to_string()),
    }
}

#[test]
fn buffered_echo_is_run_and_answered_with_200() {
    let catalog = catalog();
    let (command, arguments) = match route("echo", &params(Some(0), Some("hello"), None), &catalog)
    {
        Route::Buffered { command, arguments, format } => {
            assert_eq!(format, Format::Json);
            (command, arguments)
        }
        other => panic!("unexpected: {:?}", other),
    };
    assert_eq!(arguments, vec!["hello"]);
    let run = command.execute(arguments).unwrap();
    assert_eq!(run.program(), "/bin/echo");
    assert_eq!(run.argv(), &vec!["hello".to_string()]);
    let z = Seconds { secs: 0, nanos: 0 };
    let result = CommandResult::ok("hello\n".to_string(), String::new(), 0, z, z);
    let reply = buffered_reply(Ok(result), Format::Json);
    assert_eq!(reply.status, 200);
    match reply.body {
        Body::Json(r) => {
            assert_eq!(r.stdout.as_deref(), Some("hello\n"));
            assert_eq!(r.stderr.as_deref(), Some(""));
            assert_eq!(r.exit_code, Some(0));
        }
        other => panic!("unexpected: {:?}", other),
    }
}

#[test]
fn illegal_argument_is_answered_with_200_and_an_error() {
    let catalog = catalog();
    let (command, arguments) = match route("echo", &params(None, Some("bad arg"), None), &catalog) {
        Route::Buffered { command, arguments, .. } => (command, arguments),
        other => panic!("unexpected: {:?}", other),
    };
    assert_eq!(arguments, vec!["bad", "arg"]);
    let refusal = command.execute(arguments).unwrap_err();
    let reply = buffered_reply(Ok(refusal), Format::Json);
    assert_eq!(reply.status, STATUS_OK);
    match reply.body {
        Body::Json(r) => assert!(r.error.unwrap().contains("Illegal Argument")),
        other => panic!("unexpected: {:?}", other),
    }
}

#[test]
fn unknown_command_is_answered_with_400() {
    let catalog = catalog();
    match route("nope", &params(None, None, None), &catalog) {
        Route::Unknown { status, result, framed } => {
            assert_eq!(status, 400);
            assert!(!framed);
            assert_eq!(result.error.as_deref(), Some("Unknown Command: nope"));
            assert!(result.exit_code.is_none());
        }
        other => panic!("unexpected: {:?}", other),
    }
    match route("nope", &params(Some(1), None, Some("json")), &catalog) {
        Route::Unknown { status, result, framed } => {
            assert_eq!(status, STATUS_BAD_REQUEST);
            assert!(framed);
            assert_eq!(result.error.as_deref(), Some("Unknown Command: nope"));
        }
        other => panic!("unexpected: {:?}", other),
    }
}

#[test]
fn streamed_answer_in_another_format_is_refused() {
    let catalog = catalog();
    for name in ["echo", "nope"] {
        match route(name, &params(Some(1), Some("x"), Some("prometheus")), &catalog) {
            Route::Reject { status, body } => {
                assert_eq!(status, 400);
                assert_eq!(body, b"0> chunked only support json format\n".to_vec());
            }
            other => panic!("unexpected: {:?}", other),
        }
    }
}

#[test]
fn streamed_request_is_routed_to_a_streamed_run() {
    let catalog = catalog();
    match route("slow", &params(Some(1), Some("5"), None), &catalog) {
        Route::Streamed { command, arguments } => {
            assert_eq!(command.name(), "slow");
            assert_eq!(command.time_limit(), 1);
            assert_eq!(arguments, vec!["5"]);
        }
        other => panic!("unexpected: {:?}", other),
    }
    assert!(matches!(
        route("slow", &params(Some(7), None, Some("xml")), &catalog),
        Route::Streamed { .. }
    ));
}

#[test]
fn query_is_read_with_its_defaults() {
    assert!(!parse_chunked(None));
    assert!(!parse_chunked(Some(0)));
    assert!(parse_chunked(Some(1)));
    assert!(parse_chunked(Some(255)));
    assert_eq!(parse_format(&None), Format::Json);
    assert_eq!(parse_format(&Some("json".to_string())), Format::Json);
    assert_eq!(parse_format(&Some("prometheus".to_string())), Format::Prometheus);
    assert_eq!(parse_format(&Some("Prometheus".to_string())), Format::Json);
    assert_eq!(parse_format(&Some("xml".to_string())), Format::Json);
    assert_eq!(parse_format(&Some(String::new())), Format::Json);
}

#[test]
fn argument_is_cut_at_single_spaces() {
    assert!(parse_arguments(&None).is_empty());
    assert!(parse_arguments(&Some(String::new())).is_empty());
    assert_eq!(parse_arguments(&Some("a".to_string())), vec!["a"]);
    assert_eq!(parse_arguments(&Some("a b".to_string())), vec!["a", "b"]);
    assert_eq!(parse_arguments(&Some("a  b ".to_string())), vec!["a", "", "b", ""]);
    assert_eq!(parse_arguments(&Some(" ".to_string())), vec!["", ""]);
    assert_eq!(parse_arguments(&Some("a\tb".to_string())), vec!["a\tb"]);
}

#[test]
fn failed_execution_is_answered_with_500() {
    for format in [Format::Json, Format::Prometheus] {
        let reply = buffered_reply(Err("No such file or directory".to_string()), format);
        assert_eq!(reply.status, STATUS_SERVER_ERROR);
        assert_eq!(reply.status, 500);
        match reply.body {
            Body::Json(r) => {
                assert_eq!(r.error.as_deref(), Some("No such file or directory"));
                assert!(r.exit_code.is_none());
            }
            other => panic!("unexpected: {:?}", other),
        }
    }
}

#[test]
fn prometheus_format_answers_with_gauges() {
    let cost = Seconds { secs: 1, nanos: 250_000_000 };
    let result = CommandResult::ok(String::new(), String::new(), 0, cost, cost);
    let reply = buffered_reply(Ok(result), Format::Prometheus);
    assert_eq!(reply.status, 200);
    match reply.body {
        Body::Metrics(g) => {
            assert_eq!(g, Gauges { success: true, return_code: 0, time_cost: cost })
        }
        other => panic!("unexpected: {:?}", other),
    }
    let reply = buffered_reply(Ok(CommandResult::err("x".to_string())), Format::Prometheus);
    match reply.body {
        Body::Metrics(g) => assert!(!g.success && g.return_code == 0),
        other => panic!("unexpected: {:?}", other),
    }
}

#[test]
fn stream_ends_with_the_result_or_the_failure() {
    let z = Seconds { secs: 0, nanos: 0 };
    let r = stream_envelope(Ok(CommandResult::chunked_ok(0, z, z)));
    assert_eq!(r.exit_code, Some(0));
    assert!(r.error.is_none());
    let r = stream_envelope(Err("Kill failed: ESRCH".to_string()));
    assert_eq!(r.error.as_deref(), Some("Kill failed: ESRCH"));
    assert!(r.exit_code.is_none());
}

#[test]
fn queue_ends_with_result_frame_and_sentinel() {
    let items = closing_items(b"{\"exit_code\":0}");
    assert_eq!(items, vec![b"0> {\"exit_code\":0}\n".to_vec(), vec![0u8, 0u8]]);
}

#[test]
fn poll_sends_frames_and_stops_at_the_sentinel() {
    assert!(matches!(poll_step(None), PollStep::Pending));
    match poll_step(Some(b"1> a\n".to_vec())) {
        PollStep::Emit(bytes) => assert_eq!(bytes, b"1> a\n".to_vec()),
        other => panic!("unexpected: {:?}", other),
    }
    assert!(matches!(poll_step(Some(vec![0, 0])), PollStep::End));
    assert!(matches!(poll_step(Some(vec![0])), PollStep::Emit(_)));
    assert!(matches!(poll_step(Some(vec![0, 0, 0])), PollStep::Emit(_)));
    assert!(matches!(poll_step(Some(Vec::new())), PollStep::Emit(_)));
    assert!(matches!(poll_step(Some(vec![0, 1])), PollStep::Emit(_)));
}

#[test]
fn streamed_run_is_framed_in_order() {
    let mut body = Vec::new();
    body.extend(redarrow::framer::encode_frame(1, b"a"));
    body.extend(redarrow::framer::encode_frame(2, b"b"));
    let closing = closing_items(b"{\"exit_code\":0}");
    let mut sent = 0;
    for item in closing {
        match poll_step(Some(item)) {
            PollStep::Emit(bytes) => {
                body.extend(bytes);
                sent += 1;
            }
            PollStep::End => break,
            PollStep::Pending => panic!("nothing queued"),
        }
    }
    assert_eq!(sent, 1);
    assert_eq!(body, b"1> a\n2> b\n0> {\"exit_code\":0}\n".to_vec());
}
