use vericto::browser_login::{
    generate_state, handle_request, html_escape, parse_get_target, parse_query, percent_bytes,
    percent_decode, response, state_from, wait_step, LineStatus, RequestLine, WaitStep,
    MAX_REQUEST_LINE,
};

#[test]
fn generate_state_is_64_hex_chars_and_varies() {
    let a = generate_state().unwrap();
    let b = generate_state().unwrap();
    assert_eq!(a.len(), 64);
    assert!(a.chars().all(|c| c.is_ascii_hexdigit()));
    assert_ne!(a, b);
}

#[test]
fn parse_get_target_extracts_path_and_query() {
    assert_eq!(
        parse_get_target("GET /callback?state=abc&code=def HTTP/1.1"),
        Some("/callback?state=abc&code=def".to_string())
    );
    assert_eq!(parse_get_target("POST /callback HTTP/1.1"), None);
    assert_eq!(parse_get_target(""), None);
}

#[test]
fn parse_query_decodes_pairs() {
    let params = parse_query("state=a%2Bb&code=deadbeef");
    assert_eq!(params.get("state").map(String::as_str), Some("a+b"));
    assert_eq!(params.get("code").map(String::as_str), Some("deadbeef"));
}

#[test]
fn percent_decode_handles_escapes_and_plus() {
    assert_eq!(percent_decode("a%20b"), "a b");
    assert_eq!(percent_decode("a+b"), "a b");
    assert_eq!(percent_decode("plain"), "plain");
    // Malformed escape (not enough hex digits) is passed through literally
    // rather than panicking or truncating the string.
    assert_eq!(percent_decode("a%2"), "a%2");
}

/// Feeds a request to the reader of request lines and answers it.
fn receive(request: &[u8], state: &str) -> Result<Option<String>, String> {
    let mut line = RequestLine::new();
    for byte in request {
        match line.push(*byte) {
            LineStatus::More => {}
            LineStatus::Complete => break,
            LineStatus::TooLong => return Err("request line too long".to_string()),
        }
    }
    Ok(handle_request(&line.text(), state).code)
}

#[test]
fn wait_for_callback_returns_code_on_matching_state() {
    let got = receive(
        b"GET /callback?state=matching-state&code=abc123 HTTP/1.1\r\nHost: x\r\n\r\n",
        "matching-state",
    );
    match wait_step(got, false) {
        WaitStep::Finish(code) => assert_eq!(code, "abc123"),
        other => panic!("expected a code, got {other:?}"),
    }
}

#[test]
fn wait_for_callback_ignores_mismatched_state_and_waits_for_the_real_one() {
    // First hit: wrong state — must be rejected, not accepted as the code.
    let bad = receive(
        b"GET /callback?state=wrong&code=nope HTTP/1.1\r\nHost: x\r\n\r\n",
        "expected-state",
    );
    assert!(matches!(wait_step(bad, false), WaitStep::Again(None)));
    // Second hit: the real callback.
    let good = receive(
        b"GET /callback?state=expected-state&code=real HTTP/1.1\r\nHost: x\r\n\r\n",
        "expected-state",
    );
    match wait_step(good, false) {
        WaitStep::Finish(code) => assert_eq!(code, "real"),
        other => panic!("expected a code, got {other:?}"),
    }
}

#[test]
fn other_requests_are_refused() {
    let r = handle_request("POST /callback HTTP/1.1", "s");
    assert_eq!((r.status, r.message.as_str()), (400, "Bad request."));
    let r = handle_request("GET /favicon.ico HTTP/1.1", "s");
    assert_eq!((r.status, r.message.as_str()), (404, "Not found."));
    let r = handle_request("GET /other?state=s&code=c HTTP/1.1", "s");
    assert_eq!(r.status, 404);
    assert!(r.code.is_none());
    let r = handle_request("GET /callback?state=s HTTP/1.1", "s");
    assert_eq!(r.status, 400);
    assert!(r.message.starts_with("Missing state or code"));
    let r = handle_request("GET /callback?state=t&code=c HTTP/1.1", "s");
    assert_eq!(r.status, 400);
    assert!(r.code.is_none());
    let r = handle_request("GET /callback?state=s&code=c HTTP/1.1", "s");
    assert_eq!(r.status, 200);
    assert_eq!(r.code.as_deref(), Some("c"));
}

#[test]
fn the_wait_is_bounded() {
    assert!(matches!(wait_step(Ok(None), true), WaitStep::TimedOut(_)));
    match wait_step(Err("reset".to_string()), true) {
        WaitStep::TimedOut(m) => {
            assert_eq!(m, "timed out waiting for the browser to complete login")
        }
        other => panic!("expected a timeout, got {other:?}"),
    }
    match wait_step(Err("reset".to_string()), false) {
        WaitStep::Again(Some(note)) => {
            assert_eq!(note, "note: loopback callback error (retrying): reset")
        }
        other => panic!("expected another wait, got {other:?}"),
    }
}

#[test]
fn request_lines_are_bounded() {
    let mut line = RequestLine::new();
    for _ in 0..MAX_REQUEST_LINE {
        assert_eq!(line.push(b'a'), LineStatus::More);
    }
    assert_eq!(line.push(b'a'), LineStatus::TooLong);
    let mut line = RequestLine::new();
    for b in b"GET / HTTP/1.1\r" {
        line.push(*b);
    }
    assert_eq!(line.push(b'\n'), LineStatus::Complete);
    assert_eq!(line.text(), "GET / HTTP/1.1");
    let mut odd = RequestLine::new();
    odd.push(0xff);
    assert_eq!(odd.text(), "\u{fffd}");
}

#[test]
fn responses_are_escaped_and_measured() {
    assert_eq!(html_escape("<a & \"b\">"), "&lt;a &amp; \"b\"&gt;");
    let r = response(400, "a < é");
    assert!(r.starts_with("HTTP/1.1 400 Bad Request\r\n"), "{r}");
    assert!(r.contains("a &lt; é"), "{r}");
    let (head, body) = r.split_once("\r\n\r\n").unwrap();
    assert!(
        head.contains(&format!("Content-Length: {}", body.len())),
        "{head}"
    );
    assert!(response(200, "x").starts_with("HTTP/1.1 200 OK\r\n"));
    assert!(response(404, "x").starts_with("HTTP/1.1 404 Not Found\r\n"));
}

#[test]
fn decoding_works_on_bytes() {
    assert_eq!(percent_bytes("%C3%A9"), vec![0xc3, 0xa9]);
    assert_eq!(percent_decode("%C3%A9"), "é");
    assert_eq!(percent_decode("%ff"), "\u{fffd}");
    assert_eq!(percent_decode("%zz"), "%zz");
    assert_eq!(percent_decode("%+5"), "% 5");
    assert_eq!(
        percent_decode(&vericto::api::urlencode_path_segment("a/b c é")),
        "a/b c é"
    );
}

#[test]
fn later_parameters_replace_earlier_ones() {
    let params = parse_query("a=1&b&a=2");
    assert_eq!(params.get("a").map(String::as_str), Some("2"));
    assert_eq!(params.get("c").map(String::as_str), None);
}

#[test]
fn state_is_the_hex_of_the_bytes() {
    assert_eq!(
        state_from(Ok(vec![0x00, 0xff, 0x1a])),
        Ok("00ff1a".to_string())
    );
    assert_eq!(
        state_from(Err("no entropy".to_string())),
        Err("could not read OS randomness: no entropy".to_string())
    );
}

#[test]
fn the_expected_callback_brings_its_code() {
    let state = "0123456789abcdef";
    let line = format!("GET /callback?state={state}&code=c0de-1.~_ HTTP/1.1");
    let r = handle_request(&line, state);
    assert_eq!(r.status, 200);
    assert_eq!(r.code.as_deref(), Some("c0de-1.~_"));
}
