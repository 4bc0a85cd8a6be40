use openclaw_anim::sse::{Backoff, ConnectOutcome, SseClientConfig, SseLineBuffer};

fn feed(buf: &mut SseLineBuffer, chunk: &str) -> Vec<String> {
    buf.push_chunk(chunk.as_bytes())
        .into_iter()
        .map(|p| String::from_utf8(p).unwrap())
        .collect()
}

#[test]
fn data_line_gives_its_payload() {
    let mut b = SseLineBuffer::new();
    let out = feed(&mut b, "data: {\"ts\":1711370000000,\"runId\":\"abc-123\",\"phase\":\"start\",\"tool\":\"read\"}\n\n");
    assert_eq!(out, vec!["{\"ts\":1711370000000,\"runId\":\"abc-123\",\"phase\":\"start\",\"tool\":\"read\"}"]);
}

#[test]
fn heartbeat_and_blank_lines_are_ignored() {
    let mut b = SseLineBuffer::new();
    assert!(feed(&mut b, ": heartbeat\n\n").is_empty());
    assert!(feed(&mut b, "\r\n").is_empty());
}

#[test]
fn other_fields_are_ignored() {
    let mut b = SseLineBuffer::new();
    assert!(feed(&mut b, "event: anim\nid: 7\nretry: 100\n").is_empty());
}

#[test]
fn carriage_returns_are_trimmed() {
    let mut b = SseLineBuffer::new();
    assert_eq!(feed(&mut b, "data: x\r\n"), vec!["x"]);
    assert_eq!(feed(&mut b, "data:y\r\r\n"), vec!["y"]);
}

#[test]
fn empty_data_is_ignored() {
    let mut b = SseLineBuffer::new();
    assert!(feed(&mut b, "data:    \n").is_empty());
    assert!(feed(&mut b, "data:\n").is_empty());
}

#[test]
fn partial_line_waits_for_its_end() {
    let mut b = SseLineBuffer::new();
    assert!(feed(&mut b, "da").is_empty());
    assert!(feed(&mut b, "ta: {\"a\"").is_empty());
    assert_eq!(feed(&mut b, ":1}\ndata: 2"), vec!["{\"a\":1}"]);
    assert_eq!(feed(&mut b, "\n"), vec!["2"]);
}

#[test]
fn several_lines_in_one_chunk_keep_their_order() {
    let mut b = SseLineBuffer::new();
    assert_eq!(feed(&mut b, "data: 1\n: hb\ndata: 2\n\ndata: 3\n"), vec!["1", "2", "3"]);
}

#[test]
fn chunk_boundaries_do_not_matter() {
    let text = "data: a\n: hb\r\ndata:  b\r\nevent: x\ndata: c\ndata: rest";
    let mut whole = SseLineBuffer::new();
    let expected = feed(&mut whole, text);
    for cut in 0..=text.len() {
        let mut b = SseLineBuffer::new();
        let mut got = feed(&mut b, &text[..cut]);
        got.extend(feed(&mut b, &text[cut..]));
        assert_eq!(got, expected, "cut at {cut}");
    }
    assert_eq!(expected, vec!["a", "b", "c"]);
}

#[test]
fn backoff_doubles_up_to_the_maximum() {
    let mut b = Backoff::new(3000);
    assert_eq!(b.current_ms(), 500);
    assert_eq!(b.after_failure(), 500);
    assert_eq!(b.after_failure(), 1000);
    assert_eq!(b.after_failure(), 2000);
    assert_eq!(b.after_failure(), 3000);
    assert_eq!(b.after_failure(), 3000);
    b.reset();
    assert_eq!(b.after_failure(), 500);
}

#[test]
fn backoff_below_initial_maximum() {
    let mut b = Backoff::new(300);
    assert_eq!(b.after_failure(), 500);
    assert_eq!(b.after_failure(), 300);
    assert_eq!(b.after_failure(), 300);
}

#[test]
fn backoff_near_the_top_of_the_range() {
    let mut b = Backoff::new(u64::MAX);
    for _ in 0..70 {
        b.after_failure();
    }
    assert_eq!(b.current_ms(), u64::MAX);
}

#[test]
fn authorization_header_value() {
    let cfg = SseClientConfig {
        url: "http://127.0.0.1:18789/api/anim/events".to_string(),
        bearer_token: "SECRET-REDACTED".to_string(),
        connect_timeout_ms: 3000,
        read_idle_timeout_ms: 60000,
        max_backoff_ms: 30000,
    };
    assert_eq!(cfg.authorization_value(), "Bearer SECRET-REDACTED");
}

#[test]
fn backoff_by_outcome() {
    let mut b = Backoff::new(30000);
    assert_eq!(b.on_outcome(ConnectOutcome::ConnectFailed), Some(500));
    assert_eq!(b.on_outcome(ConnectOutcome::BadStatus), Some(1000));
    assert_eq!(b.on_outcome(ConnectOutcome::Connected), None);
    assert_eq!(b.on_outcome(ConnectOutcome::StreamEnded), Some(500));
    assert_eq!(b.on_outcome(ConnectOutcome::StreamEnded), Some(1000));
}
