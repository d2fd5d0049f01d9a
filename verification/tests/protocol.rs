use rinkle::ipc::encode_request;
use rinkle::ipc::encode_response;
use rinkle::ipc::parse_request;
use rinkle::ipc::parse_response;
use rinkle::ipc::server_handle_line;
use rinkle::ipc::server_should_exit;
use rinkle::ipc::Request;
use rinkle::ipc::Response;

#[test]
fn request_wire_form() {
    assert_eq!(encode_request(&Request::Ping), "\"Ping\"");
    assert_eq!(encode_request(&Request::Stop), "\"Stop\"");
}

#[test]
fn response_wire_form() {
    assert_eq!(encode_response(&Response::Pong), "\"Pong\"");
    assert_eq!(encode_response(&Response::Okay), "\"Ok\"");
    assert_eq!(
        encode_response(&Response::Error("bad \"x\"\nline".to_string())),
        "{\"Error\":\"bad \\\"x\\\"\\nline\"}"
    );
}

#[test]
fn request_round_trip() {
    for r in [Request::Ping, Request::Stop] {
        let wire = encode_request(&r);
        assert_eq!(parse_request(&wire), Some(r));
    }
    // A trailing newline, as read from the connection, is tolerated.
    assert_eq!(parse_request(&"\"Ping\"\n".to_string()), Some(Request::Ping));
    assert_eq!(parse_request(&"\"Pong\"".to_string()), None);
    assert_eq!(parse_request(&"garbage".to_string()), None);
}

#[test]
fn response_round_trip() {
    let cases = vec![
        Response::Pong,
        Response::Okay,
        Response::Error("plain".to_string()),
        Response::Error("with \"quotes\" and \\ and \t tab".to_string()),
        Response::Error(String::new()),
    ];
    for r in cases {
        let wire = encode_response(&r);
        assert!(!wire.contains('\n'));
        assert_eq!(parse_response(&wire), Some(r));
    }
    assert_eq!(parse_response(&"\"Pong\"\r\n".to_string()), Some(Response::Pong));
    assert_eq!(parse_response(&"{\"Error\":\"unterminated".to_string()), None);
    assert_eq!(parse_response(&"nonsense".to_string()), None);
}

#[test]
fn ping_yields_pong() {
    let (reply, stop) = server_handle_line(&"\"Ping\"\n".to_string());
    assert_eq!(reply, "\"Pong\"");
    assert!(!stop);
}

#[test]
fn stop_acknowledged_then_loop_exits() {
    let (reply, stop) = server_handle_line(&"\"Stop\"\n".to_string());
    assert_eq!(reply, "\"Ok\"");
    assert!(stop);
    // Once the shutdown flag is set, the next poll leaves the accept loop.
    assert!(server_should_exit(stop));
}

#[test]
fn malformed_line_gets_error_response() {
    let (reply, stop) = server_handle_line(&"{not json}\n".to_string());
    assert_eq!(reply, "{\"Error\":\"Invalid request format\"}");
    assert!(!stop);
    // The reply itself decodes as an error response.
    match parse_response(&reply) {
        Some(Response::Error(msg)) => assert_eq!(msg, "Invalid request format"),
        other => panic!("expected an error response, found {:?}", other),
    }
}
