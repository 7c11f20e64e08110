use aiterm::bridge::{Bridge, ConnectOutcome, DispatchOutcome, ResolveOutcome};
use aiterm::json::Json;
use aiterm::protocol::JsonRpcRequest;
use aiterm::text::to_text;

fn s(text: &str) -> String {
    String::from(text)
}

fn request(id: Option<Json>, method: &str, params: Option<Json>) -> JsonRpcRequest {
    JsonRpcRequest {
        id,
        method: s(method),
        params,
    }
}

fn call_params(name: &str) -> Json {
    Json::Obj(vec![(s("name"), Json::Str(s(name)))])
}

fn bridge() -> Bridge {
    Bridge::new(s("secret-token"))
}

#[test]
fn initialize_gets_exactly_one_reply_with_the_same_id() {
    let mut b = bridge();
    let session = s("session-a");
    let r = b.handle_request(
        &session,
        Some(request(Some(Json::Int(1)), "initialize", None)),
        s("call-1"),
    );
    match r {
        DispatchOutcome::Reply(resp) => {
            assert_eq!(
                to_text(&resp.to_json()),
                "{\"jsonrpc\":\"2.0\",\"id\":1,\"result\":{\"protocolVersion\":\"2024-11-05\",\"capabilities\":{\"tools\":{}},\"serverInfo\":{\"name\":\"aiTerm\",\"version\":\"0.1.0\"}}}"
            );
        }
        _ => panic!("initialize must be answered"),
    }
}

#[test]
fn notifications_and_malformed_input_get_no_reply() {
    let mut b = bridge();
    let session = s("session-a");
    // no id: a notification, even for known methods
    let r = b.handle_request(
        &session,
        Some(request(None, "initialize", None)),
        s("call-1"),
    );
    assert!(matches!(r, DispatchOutcome::NoReply));
    let r = b.handle_request(
        &session,
        Some(request(None, "anything/else", None)),
        s("call-2"),
    );
    assert!(matches!(r, DispatchOutcome::NoReply));
    // the initialization-complete notification is never answered
    let r = b.handle_request(
        &session,
        Some(request(
            Some(Json::Int(9)),
            "notifications/initialized",
            None,
        )),
        s("call-3"),
    );
    assert!(matches!(r, DispatchOutcome::NoReply));
    // undecodable input is dropped silently
    let r = b.handle_request(&session, None, s("call-4"));
    assert!(matches!(r, DispatchOutcome::NoReply));
}

#[test]
fn unknown_method_with_id_gets_method_not_found() {
    let mut b = bridge();
    let session = s("session-a");
    let r = b.handle_request(
        &session,
        Some(request(Some(Json::Int(7)), "bogus", None)),
        s("call-1"),
    );
    match r {
        DispatchOutcome::Reply(resp) => {
            assert_eq!(
                to_text(&resp.to_json()),
                "{\"jsonrpc\":\"2.0\",\"id\":7,\"error\":{\"code\":-32601,\"message\":\"Method not found: bogus\"}}"
            );
        }
        _ => panic!("unknown method with id must be answered"),
    }
}

#[test]
fn tools_call_without_params_gets_invalid_params() {
    let mut b = bridge();
    let session = s("session-a");
    let r = b.handle_request(
        &session,
        Some(request(Some(Json::Int(3)), "tools/call", None)),
        s("call-1"),
    );
    match r {
        DispatchOutcome::Reply(resp) => {
            assert_eq!(
                to_text(&resp.to_json()),
                "{\"jsonrpc\":\"2.0\",\"id\":3,\"error\":{\"code\":-32602,\"message\":\"Missing params\"}}"
            );
        }
        _ => panic!("tools/call without params must be answered"),
    }
}

#[test]
fn concurrent_calls_resolve_to_their_own_sessions_in_any_order() {
    let mut b = bridge();
    let session_a = s("session-a");
    let session_b = s("session-b");
    let r1 = b.handle_request(
        &session_a,
        Some(request(
            Some(Json::Int(10)),
            "tools/call",
            Some(call_params("getOpenEditors")),
        )),
        s("call-a"),
    );
    assert!(matches!(r1, DispatchOutcome::ToolStarted { .. }));
    let r2 = b.handle_request(
        &session_b,
        Some(request(
            Some(Json::Int(20)),
            "tools/call",
            Some(call_params("getWorkspaceFolders")),
        )),
        s("call-b"),
    );
    assert!(matches!(r2, DispatchOutcome::ToolStarted { .. }));
    // resolve in the opposite order from issuance: no cross-wiring
    match b.resolve_call(&s("call-b"), &Json::Str(s("second"))) {
        ResolveOutcome::Delivered {
            session_id,
            response,
        } => {
            assert_eq!(session_id, "session-b");
            assert_eq!(
                to_text(&response.to_json()),
                "{\"jsonrpc\":\"2.0\",\"id\":20,\"result\":{\"content\":[{\"type\":\"text\",\"text\":\"\\\"second\\\"\"}]}}"
            );
        }
        ResolveOutcome::Stale => panic!("call-b was pending"),
    }
    match b.resolve_call(&s("call-a"), &Json::Str(s("first"))) {
        ResolveOutcome::Delivered {
            session_id,
            response,
        } => {
            assert_eq!(session_id, "session-a");
            assert_eq!(
                to_text(&response.to_json()),
                "{\"jsonrpc\":\"2.0\",\"id\":10,\"result\":{\"content\":[{\"type\":\"text\",\"text\":\"\\\"first\\\"\"}]}}"
            );
        }
        ResolveOutcome::Stale => panic!("call-a was pending"),
    }
}

#[test]
fn timeout_emits_one_error_and_late_resolve_is_a_noop() {
    let mut b = bridge();
    let session = s("session-a");
    let r = b.handle_request(
        &session,
        Some(request(
            Some(Json::Int(5)),
            "tools/call",
            Some(call_params("openFile")),
        )),
        s("call-t"),
    );
    assert!(matches!(r, DispatchOutcome::ToolStarted { .. }));
    match b.timeout_call(&s("call-t")) {
        ResolveOutcome::Delivered {
            session_id,
            response,
        } => {
            assert_eq!(session_id, "session-a");
            assert_eq!(
                to_text(&response.to_json()),
                "{\"jsonrpc\":\"2.0\",\"id\":5,\"error\":{\"code\":-32603,\"message\":\"Tool response timeout\"}}"
            );
        }
        ResolveOutcome::Stale => panic!("call-t was pending"),
    }
    // the late completion finds nothing and emits nothing
    assert!(matches!(
        b.resolve_call(&s("call-t"), &Json::Null),
        ResolveOutcome::Stale
    ));
    // and a second timeout is also a no-op
    assert!(matches!(b.timeout_call(&s("call-t")), ResolveOutcome::Stale));
}

#[test]
fn lost_handler_reports_disconnect() {
    let mut b = bridge();
    let session = s("session-a");
    b.handle_request(
        &session,
        Some(request(
            Some(Json::Int(6)),
            "tools/call",
            Some(call_params("openDiff")),
        )),
        s("call-d"),
    );
    match b.fail_call(&s("call-d")) {
        ResolveOutcome::Delivered { response, .. } => {
            assert_eq!(
                to_text(&response.to_json()),
                "{\"jsonrpc\":\"2.0\",\"id\":6,\"error\":{\"code\":-32603,\"message\":\"Tool handler disconnected\"}}"
            );
        }
        ResolveOutcome::Stale => panic!("call-d was pending"),
    }
}

#[test]
fn end_to_end_initialize_then_tool_call_roundtrip() {
    let mut b = bridge();
    // client connects on the socket transport with the right token
    let auth = s("secret-token");
    let outcome = b.ws_connect(Some(&auth), s("ws-session"));
    assert!(matches!(outcome, ConnectOutcome::Accepted));
    let session = s("ws-session");
    // initialize, id 1
    let r = b.handle_request(
        &session,
        Some(request(Some(Json::Int(1)), "initialize", None)),
        s("call-0"),
    );
    match r {
        DispatchOutcome::Reply(resp) => {
            let text = to_text(&resp.to_json());
            assert!(text.contains("\"id\":1"));
            assert!(text.contains("\"name\":\"aiTerm\""));
            assert!(text.contains("\"version\":\"0.1.0\""));
        }
        _ => panic!("initialize must be answered"),
    }
    // tools/call, id 2, getOpenEditors
    let r = b.handle_request(
        &session,
        Some(request(
            Some(Json::Int(2)),
            "tools/call",
            Some(call_params("getOpenEditors")),
        )),
        s("call-1"),
    );
    match r {
        DispatchOutcome::ToolStarted { call_id, tool, .. } => {
            assert_eq!(call_id, "call-1");
            assert_eq!(tool, "getOpenEditors");
        }
        _ => panic!("tools/call must start a tool call"),
    }
    // the application resolves the call with an empty array
    match b.resolve_call(&s("call-1"), &Json::Arr(vec![])) {
        ResolveOutcome::Delivered {
            session_id,
            response,
        } => {
            assert_eq!(session_id, "ws-session");
            assert_eq!(
                to_text(&response.to_json()),
                "{\"jsonrpc\":\"2.0\",\"id\":2,\"result\":{\"content\":[{\"type\":\"text\",\"text\":\"[]\"}]}}"
            );
        }
        ResolveOutcome::Stale => panic!("call-1 was pending"),
    }
}

#[test]
fn wrong_auth_is_rejected_without_any_session_or_state_change() {
    let mut b = bridge();
    let bad = s("wrong-token");
    assert!(matches!(
        b.ws_connect(Some(&bad), s("ws-x")),
        ConnectOutcome::Rejected
    ));
    assert!(!b.connected);
    assert!(b.current_target().is_none());
    assert!(matches!(
        b.sse_connect(Some(&bad), s("sse-x")),
        ConnectOutcome::Rejected
    ));
    assert!(!b.connected);
    assert_eq!(b.sse_sessions.len(), 0);
    assert!(matches!(b.ws_connect(None, s("ws-y")), ConnectOutcome::Rejected));
    assert!(!b.connected);
}

#[test]
fn event_stream_sessions_register_and_tear_down() {
    let mut b = bridge();
    let auth = s("secret-token");
    assert!(matches!(
        b.sse_connect(Some(&auth), s("sse-1")),
        ConnectOutcome::Accepted
    ));
    assert!(b.connected);
    assert!(b.sse_sessions.contains(&s("sse-1")));
    assert_eq!(b.current_target().unwrap(), "sse-1");
    // a newer session replaces the notification target
    assert!(matches!(
        b.sse_connect(Some(&auth), s("sse-2")),
        ConnectOutcome::Accepted
    ));
    assert_eq!(b.current_target().unwrap(), "sse-2");
    assert_eq!(b.sse_sessions.len(), 2);
    // the watchdog tears one down
    b.sse_disconnect(&s("sse-1"));
    assert!(!b.sse_sessions.contains(&s("sse-1")));
    assert!(b.sse_sessions.contains(&s("sse-2")));
    assert!(!b.connected);
    assert!(b.current_target().is_none());
}

#[test]
fn fresh_connects_generate_session_ids() {
    let mut b = Bridge::with_fresh_auth();
    assert_eq!(b.expected_auth.len(), 32);
    let auth = b.expected_auth.clone();
    let sid = b.ws_connect_fresh(Some(&auth)).expect("right token connects");
    assert_eq!(sid.chars().count(), 36);
    assert!(b.connected);
    let sid2 = b.sse_connect_fresh(Some(&auth)).expect("right token connects");
    assert!(b.sse_sessions.contains(&sid2));
    assert!(b.ws_connect_fresh(Some(&s("nope"))).is_none());
}

#[test]
fn dispatch_message_generates_fresh_call_ids() {
    let mut b = bridge();
    let session = s("session-a");
    let r = b.dispatch_message(
        &session,
        Some(request(
            Some(Json::Int(11)),
            "tools/call",
            Some(call_params("saveDocument")),
        )),
    );
    match r {
        DispatchOutcome::ToolStarted { call_id, tool, arguments } => {
            assert_eq!(call_id.chars().count(), 36);
            assert_eq!(tool, "saveDocument");
            assert_eq!(to_text(&arguments), "{}");
            match b.resolve_call(&call_id, &Json::Bool(true)) {
                ResolveOutcome::Delivered { session_id, response } => {
                    assert_eq!(session_id, "session-a");
                    assert!(to_text(&response.to_json()).contains("\"id\":11"));
                }
                ResolveOutcome::Stale => panic!("the generated call was pending"),
            }
        }
        _ => panic!("tools/call must start a tool call"),
    }
}

#[test]
fn endpoint_path_carries_the_session_id() {
    assert_eq!(
        aiterm::bridge::endpoint_path(&s("abc-123")),
        "/message?sessionId=abc-123"
    );
}

#[test]
fn port_candidates_are_many_and_unprivileged() {
    let ports = aiterm::bridge::pick_port_candidates();
    assert_eq!(ports.len(), 100);
    for p in ports {
        assert!((10000..65535).contains(&p));
    }
}
