use sandlock_control::client::{
    info_request, sandbox_info, send_body, send_control_request, unresponsive, CallAction, CallEvent, CallStage,
    ControlCall, IoError, IoErrorKind,
};
use sandlock_control::protocol::{
    handle_info, refuse, write_response, ControlRequest, ControlResponse, SandboxInfo,
};
use sandlock_control::server::{serve_one, ServeAction, ServeEvent, ServeStage};
use serde_json::Value;

fn io(kind: IoErrorKind, message: &str) -> IoError {
    IoError { kind, message: message.to_string() }
}

fn begin() -> ControlCall {
    send_control_request("box", "info", Value::Object(serde_json::Map::new()), 1000)
}

/// A call that has come through the first `n` of its steps.
fn after(n: usize) -> ControlCall {
    let mut call = begin();
    for i in 0..n {
        let event = match i {
            0 => CallEvent::Addressed(Ok(())),
            1 => CallEvent::Connected(Ok(Some(1000))),
            2 => CallEvent::ReadTimeoutSet(Ok(())),
            3 => CallEvent::WriteTimeoutSet(Ok(())),
            4 => CallEvent::LengthSent(Ok(())),
            5 => CallEvent::BodySent(Ok(())),
            _ => CallEvent::LengthRead(Ok([0, 0, 0, 9])),
        };
        call = call.step(event).0;
    }
    call
}

fn failure(call: ControlCall, event: CallEvent) -> String {
    match call.step(event).1 {
        CallAction::Finish(Err(why)) => why,
        _ => panic!("expected the call to fail"),
    }
}

fn words(text: &str) -> Result<(), String> {
    Err(text.to_string())
}

#[test]
fn a_call_goes_through() {
    let (call, action) = begin().step(CallEvent::Addressed(Ok(())));
    assert!(matches!(action, CallAction::Connect));
    let (call, action) = call.step(CallEvent::Connected(Ok(Some(1000))));
    assert!(matches!(action, CallAction::SetReadTimeout(2)));
    let (call, action) = call.step(CallEvent::ReadTimeoutSet(Ok(())));
    assert!(matches!(action, CallAction::SetWriteTimeout(2)));
    let (call, action) = call.step(CallEvent::WriteTimeoutSet(Ok(())));
    let body = b"{\"args\":{},\"v\":1,\"verb\":\"info\"}";
    match action {
        CallAction::SendLength(prefix) => assert_eq!(prefix, (body.len() as u32).to_be_bytes()),
        _ => panic!("expected the length"),
    }
    let (call, action) = call.step(CallEvent::LengthSent(Ok(())));
    match action {
        CallAction::SendBody(sent) => assert_eq!(sent, body.to_vec()),
        _ => panic!("expected the body"),
    }
    let (call, action) = call.step(CallEvent::BodySent(Ok(())));
    assert!(matches!(action, CallAction::ReadLength));
    let (call, action) = call.step(CallEvent::LengthRead(Ok([0, 0, 0, 9])));
    assert!(matches!(action, CallAction::ReadBody(9)));
    let resp = refuse("no".to_string());
    let (_, action) = call.step(CallEvent::BodyRead(Ok(Ok(resp))));
    match action {
        CallAction::Finish(Ok(resp)) => assert_eq!(resp.err.unwrap(), "no"),
        _ => panic!("expected the response"),
    }
}

#[test]
fn arguments_and_verbs_are_escaped_by_the_writer() {
    let call = send_control_request("box", "a\"b", Value::from(vec![1, 2]), 7);
    let call = call.step(CallEvent::Addressed(Ok(()))).0;
    let call = call.step(CallEvent::Connected(Ok(Some(7)))).0;
    let call = call.step(CallEvent::ReadTimeoutSet(Ok(()))).0;
    let call = call.step(CallEvent::WriteTimeoutSet(Ok(()))).0;
    match call.step(CallEvent::LengthSent(Ok(()))).1 {
        CallAction::SendBody(sent) => {
            assert_eq!(sent, b"{\"args\":[1,2],\"v\":1,\"verb\":\"a\\\"b\"}".to_vec())
        }
        _ => panic!("expected the body"),
    }
}

#[test]
fn a_listener_of_another_uid_is_turned_down() {
    for peer in [Some(1001), Some(0), None] {
        let why = failure(after(1), CallEvent::Connected(Ok(peer)));
        assert!(why.contains("owned by another user"));
        assert_eq!(why, "socket for 'box' is owned by another user");
    }
}

#[test]
fn failures_say_where_they_happened() {
    assert_eq!(
        failure(after(0), CallEvent::Addressed(words("too long"))),
        "socket address for 'box': too long"
    );
    assert_eq!(
        failure(after(1), CallEvent::Connected(Err(io(IoErrorKind::ConnectionRefused, "refused")))),
        "no sandbox named 'box'"
    );
    assert_eq!(
        failure(after(1), CallEvent::Connected(Err(io(IoErrorKind::TimedOut, "slow")))),
        "connect to sandbox 'box': slow"
    );
    assert_eq!(failure(after(2), CallEvent::ReadTimeoutSet(words("e"))), "set_read_timeout: e");
    assert_eq!(failure(after(3), CallEvent::WriteTimeoutSet(words("e"))), "set_write_timeout: e");
    assert_eq!(failure(after(4), CallEvent::LengthSent(words("pipe"))), "write len: pipe");
    assert_eq!(failure(after(5), CallEvent::BodySent(words("pipe"))), "write body: pipe");
    assert_eq!(
        failure(after(6), CallEvent::LengthRead(Err(io(IoErrorKind::WouldBlock, "again")))),
        "sandbox 'box' is unresponsive"
    );
    assert_eq!(failure(after(6), CallEvent::LengthRead(Ok([0, 1, 0, 1]))), "response too large");
    assert_eq!(
        failure(after(7), CallEvent::BodyRead(Err(io(IoErrorKind::Other, "eof")))),
        "read from sandbox 'box': eof"
    );
    assert_eq!(
        failure(after(7), CallEvent::BodyRead(Ok(Err("bad".to_string())))),
        "parse response: bad"
    );
}

#[test]
fn a_request_is_sent_as_far_as_it_could_be_written() {
    let (stage, action) = send_body(Ok(vec![7; 300]));
    assert!(matches!(action, CallAction::SendLength([0, 0, 1, 44])));
    assert!(matches!(stage, CallStage::SendLength(body) if body == vec![7; 300]));
    let (stage, action) = send_body(Err("recursion".to_string()));
    assert!(matches!(stage, CallStage::Done));
    match action {
        CallAction::Finish(Err(why)) => assert_eq!(why, "serialize request: recursion"),
        _ => panic!("expected the call to fail"),
    }
}

#[test]
fn timeouts_mean_unresponsive() {
    for kind in [IoErrorKind::WouldBlock, IoErrorKind::TimedOut] {
        assert_eq!(unresponsive("a", io(kind, "whatever")), "sandbox 'a' is unresponsive");
    }
    for kind in [IoErrorKind::ConnectionRefused, IoErrorKind::Other] {
        assert_eq!(unresponsive("a", io(kind, "reset")), "read from sandbox 'a': reset");
    }
}

#[test]
fn the_info_request_has_no_arguments() {
    let call = info_request("box", 1000);
    assert_eq!((call.name.as_str(), call.verb.as_str(), call.my_uid), ("box", "info", 1000));
    match call.stage {
        CallStage::Address(args) => assert_eq!(args, Value::Object(serde_json::Map::new())),
        _ => panic!("expected a call that begins"),
    }
}

#[test]
fn a_call_awaits_the_event_of_its_action() {
    let events = |i: usize| match i {
        0 => CallEvent::Addressed(Ok(())),
        1 => CallEvent::Connected(Ok(Some(1000))),
        2 => CallEvent::ReadTimeoutSet(Ok(())),
        3 => CallEvent::WriteTimeoutSet(Ok(())),
        4 => CallEvent::LengthSent(Ok(())),
        5 => CallEvent::BodySent(Ok(())),
        6 => CallEvent::LengthRead(Ok([0, 0, 0, 9])),
        _ => CallEvent::BodyRead(Ok(Err("bad".to_string()))),
    };
    for n in 0..8 {
        for i in 0..8 {
            assert_eq!(after(n).awaits(&events(i)), i == n);
        }
    }
    let over = after(7).step(events(7)).0;
    for i in 0..8 {
        assert!(!over.awaits(&events(i)));
    }
}

#[test]
fn a_sent_request_is_answered() {
    let sent = |verb: &str| {
        let call = send_control_request("box", verb, Value::from(vec![1]), 1000);
        let call = call.step(CallEvent::Addressed(Ok(()))).0;
        let call = call.step(CallEvent::Connected(Ok(Some(1000)))).0;
        let call = call.step(CallEvent::ReadTimeoutSet(Ok(()))).0;
        let (call, length) = call.step(CallEvent::WriteTimeoutSet(Ok(())));
        match (length, call.step(CallEvent::LengthSent(Ok(()))).1) {
            (CallAction::SendLength(prefix), CallAction::SendBody(body)) => (prefix, body),
            _ => panic!("expected a frame"),
        }
    };
    let info = SandboxInfo { child_pid: 1, supervisor_pid: 2, mode: None };
    let reply = |verb: &str| {
        let (prefix, body) = sent(verb);
        let (stage, asked) = serve_one(ServeStage::Length, ServeEvent::LengthRead(prefix), &info);
        assert!(matches!(asked, ServeAction::ReadBody(n) if n == body.len()));
        let value: Value = serde_json::from_slice(&body).unwrap();
        assert_eq!(value["args"], Value::from(vec![1]));
        let request = ControlRequest {
            v: value["v"].as_u64().unwrap() as u32,
            verb: value["verb"].as_str().unwrap().to_string(),
            args: value["args"].clone(),
        };
        serve_one(stage, ServeEvent::BodyRead(Ok(request)), &info).1
    };
    assert!(matches!(reply("info"), ServeAction::Reply(resp) if resp.ok));
    assert!(matches!(reply("config"), ServeAction::ReplyConfig));
    assert!(matches!(reply("ports"), ServeAction::ReplyPorts));
    match reply("a\"\n") {
        ServeAction::Reply(resp) => assert_eq!(resp.err.unwrap(), "unknown verb: a\"\n"),
        _ => panic!("expected a refusal"),
    }
}

/// Reads a response the way it is written.
fn read_response(body: &[u8]) -> Result<ControlResponse, String> {
    let value: Value = serde_json::from_slice(body).map_err(|e| e.to_string())?;
    Ok(ControlResponse {
        v: value["v"].as_u64().ok_or("no v")? as u32,
        ok: value["ok"].as_bool().ok_or("no ok")?,
        data: value.get("data").cloned(),
        err: value.get("err").and_then(|e| e.as_str()).map(|e| e.to_string()),
    })
}

/// What a call returns that reads these bytes.
fn receive(bytes: &[u8]) -> ControlResponse {
    let prefix = [bytes[0], bytes[1], bytes[2], bytes[3]];
    let (call, action) = after(6).step(CallEvent::LengthRead(Ok(prefix)));
    match action {
        CallAction::ReadBody(n) => assert_eq!(n, bytes.len() - 4),
        _ => panic!("expected the body to be read"),
    }
    match call.step(CallEvent::BodyRead(Ok(read_response(&bytes[4..])))).1 {
        CallAction::Finish(Ok(resp)) => resp,
        _ => panic!("expected a response"),
    }
}

#[test]
fn a_sent_response_arrives() {
    let data = Value::from(vec!["a \"quoted\" text", "\u{e9}\n"]);
    let sent = ControlResponse { v: 1, ok: true, data: Some(data.clone()), err: None };
    let got = receive(&write_response(&sent));
    assert_eq!((got.v, got.ok, got.data, got.err), (1, true, Some(data), None));

    let got = receive(&write_response(&refuse("tab\there".to_string())));
    assert_eq!((got.v, got.ok, got.data, got.err), (1, false, None, Some("tab\there".to_string())));
}

#[test]
fn an_oversized_response_arrives_as_a_refusal() {
    let data = Value::from("x".repeat(80000));
    let got = receive(&write_response(&ControlResponse {
        v: 1,
        ok: true,
        data: Some(data),
        err: None,
    }));
    assert!(!got.ok && got.data.is_none());
    assert_eq!(got.err.unwrap(), "response too large (80027 bytes, max 65536)");
}

#[test]
fn info_makes_the_round_trip() {
    let info = SandboxInfo { child_pid: -3, supervisor_pid: 7, mode: Some("a\"b".to_string()) };
    let reply = receive(&write_response(&handle_info(&info)));
    let got = sandbox_info(Ok(reply), read_info).unwrap();
    assert_eq!((got.child_pid, got.supervisor_pid, got.mode), (-3, 7, Some("a\"b".to_string())));
}

/// Reads a report the way it is written.
fn read_info(data: Value) -> Result<SandboxInfo, String> {
    let pid = |key: &str| data[key].as_i64().map(|n| n as i32).ok_or(format!("no {key}"));
    Ok(SandboxInfo {
        child_pid: pid("child_pid")?,
        supervisor_pid: pid("supervisor_pid")?,
        mode: data["mode"].as_str().map(|m| m.to_string()),
    })
}

#[test]
fn reported_info_comes_back() {
    for mode in [None, Some("learn".to_string())] {
        let info = SandboxInfo { child_pid: 4242, supervisor_pid: 4241, mode: mode.clone() };
        let got = sandbox_info(Ok(handle_info(&info)), read_info).unwrap();
        assert_eq!((got.child_pid, got.supervisor_pid, got.mode), (4242, 4241, mode));
    }
}

#[test]
fn refusals_and_failures_are_passed_on() {
    let told = |reply| sandbox_info(reply, read_info).unwrap_err();
    assert_eq!(told(Err("no sandbox named 'x'".to_string())), "no sandbox named 'x'");
    assert_eq!(told(Ok(refuse("unknown verb: info".to_string()))), "unknown verb: info");
    let bare = ControlResponse { v: 1, ok: false, data: None, err: None };
    assert_eq!(told(Ok(bare)), "info failed");
    let empty = ControlResponse { v: 1, ok: true, data: None, err: None };
    assert_eq!(told(Ok(empty)), "empty info response");
    let odd = ControlResponse { v: 1, ok: true, data: Some(Value::Null), err: None };
    assert_eq!(told(Ok(odd)), "parse info response: no child_pid");
}
