use rawget::http::{
    ephemeral_port, next_step, plan, plan_with_port, receive_chunk, request, FetchAction,
    FetchState, HttpTarget, SocketStatus, UpstreamError,
};

fn status(is_active: bool, may_send: bool, can_recv: bool, may_recv: bool) -> SocketStatus {
    SocketStatus { is_active, may_send, can_recv, may_recv }
}

fn target(host: Option<&str>, path: &str, port: Option<u16>) -> HttpTarget {
    HttpTarget { host: host.map(String::from), path: path.to_string(), port }
}

#[test]
fn request_text_is_exact() {
    assert_eq!(
        request("/index.html", "example.com"),
        "GET /index.html HTTP/1.1\r\nHost: example.com\r\nConnection: close\r\n\r\n"
    );
}

#[test]
fn ephemeral_ports_stay_in_dynamic_range() {
    assert_eq!(ephemeral_port(0), 49152);
    assert_eq!(ephemeral_port(16383), 65535);
    assert_eq!(ephemeral_port(16384), 49152);
    assert_eq!(ephemeral_port(65535), 65535);
    assert_eq!(ephemeral_port(100), 49252);
}

#[test]
fn missing_host_is_invalid_url() {
    assert!(matches!(plan_with_port(&target(None, "/", None), 50000), Err(UpstreamError::InvalidUrl)));
    assert!(matches!(plan(&target(None, "/", Some(8080))), Err(UpstreamError::InvalidUrl)));
}

#[test]
fn plan_uses_default_port_and_seed() {
    let p = plan_with_port(&target(Some("example.com"), "/", None), 49157).unwrap();
    assert_eq!(p.remote_port, 80);
    assert_eq!(p.local_port, 49157);
    assert_eq!(p.request, "GET / HTTP/1.1\r\nHost: example.com\r\nConnection: close\r\n\r\n");
    let p = plan(&target(Some("example.com"), "/a", Some(8080))).unwrap();
    assert_eq!(p.remote_port, 8080);
    assert!(p.local_port >= 49152);
}

#[test]
fn state_table() {
    let idle = status(false, false, false, true);
    assert_eq!(next_step(FetchState::Connect, idle), (FetchState::Request, FetchAction::Connect));
    let busy = status(true, false, false, true);
    assert_eq!(next_step(FetchState::Connect, busy), (FetchState::Connect, FetchAction::Wait));
    assert_eq!(next_step(FetchState::Request, busy), (FetchState::Request, FetchAction::Wait));
    let open = status(true, true, false, true);
    assert_eq!(
        next_step(FetchState::Request, open),
        (FetchState::Response, FetchAction::SendRequest)
    );
    let data = status(true, true, true, true);
    assert_eq!(next_step(FetchState::Response, data), (FetchState::Response, FetchAction::Receive));
    assert_eq!(next_step(FetchState::Response, open), (FetchState::Response, FetchAction::Wait));
    let closed = status(true, false, false, false);
    assert_eq!(next_step(FetchState::Response, closed), (FetchState::Done, FetchAction::Finish));
    let closing_with_data = status(true, false, true, false);
    assert_eq!(
        next_step(FetchState::Response, closing_with_data),
        (FetchState::Response, FetchAction::Receive)
    );
    assert_eq!(next_step(FetchState::Done, data), (FetchState::Done, FetchAction::Finish));
}

#[test]
fn mock_socket_sends_only_after_connect_and_ends_on_close() {
    // A socket that turns active a turn after the connect and may send only then.
    let reports = [
        status(false, false, false, true),
        status(true, false, false, true),
        status(true, true, false, true),
        status(true, true, true, true),
        status(true, false, false, true),
        status(true, false, false, false),
    ];
    let mut state = FetchState::Connect;
    let mut taken = Vec::new();
    for report in reports {
        let (next, action) = next_step(state, report);
        taken.push(action);
        state = next;
        if action == FetchAction::Finish {
            break;
        }
    }
    assert_eq!(
        taken,
        vec![
            FetchAction::Connect,
            FetchAction::Wait,
            FetchAction::SendRequest,
            FetchAction::Receive,
            FetchAction::Wait,
            FetchAction::Finish,
        ]
    );
    assert_eq!(state, FetchState::Done);
}

#[test]
fn three_chunks_concatenate_to_body() {
    let body = "HTTP/1.1 200 OK\r\nContent-Length: 5\r\n\r\nhello";
    let bytes = body.as_bytes();
    let chunks = [&bytes[0..10], &bytes[10..30], &bytes[30..]];
    let mut state = FetchState::Response;
    let mut text = String::new();
    for chunk in chunks {
        let (next, action) = next_step(state, status(true, false, true, true));
        assert_eq!(action, FetchAction::Receive);
        state = next;
        let (used, part) = receive_chunk(chunk);
        assert_eq!(used, chunk.len());
        text.push_str(&part);
    }
    assert_eq!(text, body);
    assert!(text.starts_with("HTTP/1.1"));
}

#[test]
fn invalid_bytes_are_replaced() {
    let (used, text) = receive_chunk(&[b'o', b'k', 0xff, b'!']);
    assert_eq!(used, 4);
    assert_eq!(text, "ok\u{FFFD}!");
    let (used, text) = receive_chunk("héllo".as_bytes());
    assert_eq!(used, 6);
    assert_eq!(text, "héllo");
}

#[test]
fn multibyte_chunks_join_to_body() {
    let body = "héllo wörld ✓";
    let bytes = body.as_bytes();
    let chunks = [&bytes[0..3], &bytes[3..8], &bytes[8..]];
    let mut text = String::new();
    for chunk in chunks {
        let (used, part) = receive_chunk(chunk);
        assert_eq!(used, chunk.len());
        text.push_str(&part);
    }
    assert_eq!(text, body);
}

#[test]
fn empty_chunk_yields_nothing() {
    let (used, text) = receive_chunk(&[]);
    assert_eq!(used, 0);
    assert_eq!(text, "");
}
