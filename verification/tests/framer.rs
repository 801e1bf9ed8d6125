use redarrow::framer::{encode_frame, Deframer, Event};

fn output(fd: u8, line: &str) -> Event {
    Event::Output { fd, line: line.as_bytes().to_vec() }
}

fn envelope(body: &str) -> Event {
    Event::Envelope { body: body.as_bytes().to_vec() }
}

fn decode(chunks: &[&[u8]]) -> Vec<Event> {
    let mut d = Deframer::new();
    let mut all = Vec::new();
    for c in chunks {
        all.extend(d.feed(c));
    }
    all
}

#[test]
fn frame_is_descriptor_mark_payload_newline() {
    assert_eq!(encode_frame(1, b"a"), b"1> a\n".to_vec());
    assert_eq!(encode_frame(2, b"b c"), b"2> b c\n".to_vec());
    assert_eq!(encode_frame(0, b"{\"exit_code\":0}"), b"0> {\"exit_code\":0}\n".to_vec());
    assert_eq!(encode_frame(1, b""), b"1> \n".to_vec());
}

#[test]
fn stream_in_one_chunk_is_cut_into_frames() {
    let events = decode(&[b"1> a\n2> b\n0> {\"exit_code\":0}\n"]);
    assert_eq!(events, vec![output(1, "a"), output(2, "b"), envelope("{\"exit_code\":0}")]);
}

#[test]
fn frames_survive_every_partition_in_two() {
    let mut stream = Vec::new();
    stream.extend(encode_frame(1, b"first line"));
    stream.extend(encode_frame(2, b"1> looks like a frame"));
    stream.extend(encode_frame(1, b""));
    stream.extend(encode_frame(2, "caf\u{e9}".as_bytes()));
    stream.extend(encode_frame(0, b"{\"exit_code\":0}"));
    let expected = vec![
        output(1, "first line"),
        output(2, "1> looks like a frame"),
        output(1, ""),
        output(2, "caf\u{e9}"),
        envelope("{\"exit_code\":0}"),
    ];
    for cut in 0..=stream.len() {
        let (a, b) = stream.split_at(cut);
        assert_eq!(decode(&[a, b]), expected, "cut at {}", cut);
    }
}

#[test]
fn frames_survive_byte_by_byte_delivery() {
    let mut stream = Vec::new();
    stream.extend(encode_frame(1, b"a"));
    stream.extend(encode_frame(2, b"b"));
    stream.extend(encode_frame(0, b"{}"));
    let mut d = Deframer::new();
    let mut all = Vec::new();
    for byte in &stream {
        all.extend(d.feed(&[*byte]));
    }
    assert_eq!(all, vec![output(1, "a"), output(2, "b"), envelope("{}")]);
    assert!(d.is_finished());
}

#[test]
fn nothing_is_read_after_the_result() {
    let mut d = Deframer::new();
    let events = d.feed(b"0> {}\n1> late\n");
    assert_eq!(events, vec![envelope("{}")]);
    assert!(d.is_finished());
    assert!(d.feed(b"2> later\n").is_empty());
    assert!(d.end_of_stream().is_none());
}

#[test]
fn line_without_descriptor_continues_the_last_one() {
    let events = decode(&[b"2> a\n", b"b\n", b"3> c\n", b"1> d\ne\n"]);
    assert_eq!(
        events,
        vec![output(2, "a"), output(2, "b"), output(2, "3> c"), output(1, "d"), output(1, "e")]
    );
}

#[test]
fn line_without_descriptor_at_the_start_is_unrecognized() {
    let events = decode(&[b"hello\n1>x\n", b"1> ok\n"]);
    assert_eq!(
        events,
        vec![
            Event::Unrecognized { line: b"hello".to_vec() },
            Event::Unrecognized { line: b"1>x".to_vec() },
            output(1, "ok"),
        ]
    );
}

#[test]
fn unfinished_line_is_kept_until_its_newline() {
    let mut d = Deframer::new();
    assert!(d.feed(b"1> par").is_empty());
    assert!(d.feed(b"").is_empty());
    assert!(d.feed(b"tial").is_empty());
    assert_eq!(d.feed(b"\n"), vec![output(1, "partial")]);
}

#[test]
fn stream_without_result_is_unfinished() {
    let mut d = Deframer::new();
    d.feed(b"1> a\n");
    assert!(!d.is_finished());
    let r = d.end_of_stream().unwrap();
    assert_eq!(r.error.as_deref(), Some("Command Unfinished"));
    assert!(r.exit_code.is_none() && r.stdout.is_none());
}
