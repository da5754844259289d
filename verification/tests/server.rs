use sandlock_control::protocol::{ControlRequest, SandboxInfo};
use sandlock_control::server::{
    control_loop, peer_uid, serve_one, LoopAction, LoopEvent, ServeAction, ServeEvent, ServeStage,
};
use serde_json::Value;

fn info() -> SandboxInfo {
    SandboxInfo { child_pid: 4242, supervisor_pid: 4241, mode: None }
}

fn ask(v: u32, verb: &str) -> ServeAction {
    let request = ControlRequest { v, verb: verb.to_string(), args: Value::Null };
    let (stage, action) = serve_one(ServeStage::Body, ServeEvent::BodyRead(Ok(request)), &info());
    assert_eq!(stage, ServeStage::Done);
    action
}

fn refusal(action: ServeAction) -> String {
    match action {
        ServeAction::Reply(resp) => {
            assert!(!resp.ok && resp.v == 1 && resp.data.is_none());
            resp.err.unwrap()
        }
        _ => panic!("expected a reply"),
    }
}

#[test]
fn the_own_uid_is_served() {
    let peer = peer_uid(0, 1000);
    assert_eq!(peer, Some(1000));
    assert_eq!(control_loop(LoopEvent::Accepted(peer), 1000), LoopAction::Serve(5));
}

#[test]
fn another_uid_is_closed_without_an_answer() {
    assert_eq!(control_loop(LoopEvent::Accepted(Some(1001)), 1000), LoopAction::Refuse);
    assert_eq!(control_loop(LoopEvent::Accepted(Some(0)), 1000), LoopAction::Refuse);
    assert_eq!(peer_uid(-1, 1000), None);
    assert_eq!(control_loop(LoopEvent::Accepted(peer_uid(-1, 1000)), 1000), LoopAction::Refuse);
}

#[test]
fn the_loop_runs_until_accepting_fails() {
    assert_eq!(control_loop(LoopEvent::Opened(true), 1), LoopAction::Accept);
    assert_eq!(control_loop(LoopEvent::Opened(false), 1), LoopAction::Stop);
    assert_eq!(control_loop(LoopEvent::Served, 1), LoopAction::Accept);
    assert_eq!(control_loop(LoopEvent::AcceptFailed, 1), LoopAction::Stop);
}

#[test]
fn a_stalled_client_gives_way_to_the_next() {
    let own = LoopEvent::Accepted(Some(1000));
    assert_eq!(control_loop(own, 1000), LoopAction::Serve(5));
    assert_eq!(control_loop(LoopEvent::Served, 1000), LoopAction::Accept);
    assert_eq!(control_loop(own, 1000), LoopAction::Serve(5));
}

#[test]
fn a_length_leads_to_the_body_or_to_the_door() {
    let (stage, action) =
        serve_one(ServeStage::Length, ServeEvent::LengthRead([0, 0, 0, 31]), &info());
    assert_eq!(stage, ServeStage::Body);
    assert!(matches!(action, ServeAction::ReadBody(31)));

    let (stage, action) =
        serve_one(ServeStage::Length, ServeEvent::LengthRead([0, 1, 0, 0]), &info());
    assert_eq!(stage, ServeStage::Body);
    assert!(matches!(action, ServeAction::ReadBody(65536)));

    let (stage, action) =
        serve_one(ServeStage::Length, ServeEvent::LengthRead([0, 1, 0, 1]), &info());
    assert_eq!(stage, ServeStage::Done);
    assert!(matches!(action, ServeAction::Close));
}

#[test]
fn a_failed_read_closes() {
    for stage in [ServeStage::Length, ServeStage::Body] {
        let (after, action) = serve_one(stage, ServeEvent::ReadFailed, &info());
        assert_eq!(after, ServeStage::Done);
        assert!(matches!(action, ServeAction::Close));
    }
}

#[test]
fn info_is_answered() {
    match ask(1, "info") {
        ServeAction::Reply(resp) => {
            assert!(resp.ok && resp.v == 1 && resp.err.is_none());
            let data = resp.data.unwrap();
            assert_eq!(data["child_pid"], 4242);
            assert_eq!(data["supervisor_pid"], 4241);
        }
        _ => panic!("expected a reply"),
    }
}

#[test]
fn config_and_ports_are_left_to_their_handlers() {
    assert!(matches!(ask(1, "config"), ServeAction::ReplyConfig));
    assert!(matches!(ask(1, "ports"), ServeAction::ReplyPorts));
}

#[test]
fn what_is_not_understood_is_turned_down() {
    assert_eq!(refusal(ask(1, "Info")), "unknown verb: Info");
    assert_eq!(refusal(ask(1, "")), "unknown verb: ");
    assert_eq!(refusal(ask(2, "info")), "unsupported protocol version: 2");
    assert_eq!(refusal(ask(0, "nonsense")), "unsupported protocol version: 0");
    assert_eq!(refusal(ask(u32::MAX, "info")), "unsupported protocol version: 4294967295");
    let garbled = ServeEvent::BodyRead(Err("EOF while parsing a value".to_string()));
    let (stage, action) = serve_one(ServeStage::Body, garbled, &info());
    assert_eq!(stage, ServeStage::Done);
    assert_eq!(refusal(action), "parse error: EOF while parsing a value");
}

#[test]
fn a_connection_carries_one_request() {
    let request = ControlRequest { v: 1, verb: "info".to_string(), args: Value::Null };
    let (stage, action) = serve_one(ServeStage::Done, ServeEvent::BodyRead(Ok(request)), &info());
    assert_eq!(stage, ServeStage::Done);
    assert!(matches!(action, ServeAction::Close));
    let (_, action) = serve_one(ServeStage::Done, ServeEvent::LengthRead([0, 0, 0, 1]), &info());
    assert!(matches!(action, ServeAction::Close));
}
