use std::collections::HashMap;

use sandlock_control::frame::{accepted_len, frame, length_prefix, MAX_BODY_BYTES};
use sandlock_control::protocol::{
    encode_response, frame_written, handle_config, handle_info, handle_ports, refuse,
    write_response, ControlResponse, SandboxInfo,
};
use serde_json::Value;

fn info(mode: Option<&str>) -> SandboxInfo {
    SandboxInfo { child_pid: 4242, supervisor_pid: 4241, mode: mode.map(|m| m.to_string()) }
}

fn granted(data: Value) -> ControlResponse {
    ControlResponse { v: 1, ok: true, data: Some(data), err: None }
}

#[test]
fn lengths_are_big_endian() {
    assert_eq!(length_prefix(&vec![]), [0, 0, 0, 0]);
    assert_eq!(length_prefix(&vec![7; 0x0102]), [0, 0, 1, 2]);
    assert_eq!(length_prefix(&vec![0; 0x01_0203]), [0, 1, 2, 3]);
    assert_eq!(frame(&vec![9, 8, 7]), vec![0, 0, 0, 3, 9, 8, 7]);
    assert_eq!(accepted_len([0, 0, 1, 2]), Some(0x0102));
}

#[test]
fn a_length_over_the_cap_is_turned_down() {
    assert_eq!(MAX_BODY_BYTES, 65536);
    assert_eq!(accepted_len([0, 0, 0, 0]), Some(0));
    assert_eq!(accepted_len([0, 1, 0, 0]), Some(65536));
    assert_eq!(accepted_len([0, 1, 0, 1]), None);
    assert_eq!(accepted_len([1, 0, 0, 0]), None);
    assert_eq!(accepted_len([255, 255, 255, 255]), None);
}

#[test]
fn frames_read_back() {
    for n in [0usize, 1, 255, 256, 65535, 65536, 65537, 70000] {
        let body = vec![5u8; n];
        let bytes = frame(&body);
        let prefix = [bytes[0], bytes[1], bytes[2], bytes[3]];
        assert_eq!(accepted_len(prefix), if n <= 65536 { Some(n) } else { None });
        assert_eq!(&bytes[4..], &body[..]);
    }
}

#[test]
fn info_reports_pids_and_mode() {
    let resp = handle_info(&info(None));
    assert_eq!((resp.v, resp.ok), (1, true));
    assert!(resp.err.is_none());
    let data = resp.data.unwrap();
    assert_eq!(data["child_pid"], 4242);
    assert_eq!(data["supervisor_pid"], 4241);
    assert_eq!(data["mode"], Value::Null);
    assert!(data.as_object().unwrap().contains_key("mode"));
    assert_eq!(data.as_object().unwrap().len(), 3);

    let data = handle_info(&info(Some("learn"))).data.unwrap();
    assert_eq!(data["mode"], "learn");

    let negative = SandboxInfo { child_pid: -1, supervisor_pid: i32::MIN, mode: None };
    let data = handle_info(&negative).data.unwrap();
    assert_eq!(data["child_pid"], -1);
    assert_eq!(data["supervisor_pid"], i32::MIN);
}

#[test]
fn config_reports_the_profile_with_the_denied_paths() {
    let paths = vec!["/etc/shadow".to_string(), "/root".to_string()];
    let resp = handle_config(Some(paths), |denied| Ok(Value::from(denied)));
    assert!(resp.ok && resp.v == 1 && resp.err.is_none());
    assert_eq!(resp.data.unwrap(), Value::from(vec!["/etc/shadow", "/root"]));
}

#[test]
fn config_without_a_supervisor_denies_nothing_more() {
    let resp = handle_config(None, |denied| Ok(Value::from(denied.len())));
    assert_eq!(resp.data.unwrap(), 0);
}

#[test]
fn config_says_why_it_failed() {
    let resp = handle_config(None, |_| Err("key must be a string".to_string()));
    assert!(!resp.ok && resp.v == 1 && resp.data.is_none());
    assert_eq!(resp.err.unwrap(), "serialize error: key must be a string");
}

#[test]
fn ports_are_reported_by_number() {
    let mut ports: HashMap<u16, u16> = HashMap::new();
    ports.insert(8080, 40001);
    ports.insert(0, 65535);
    let resp = handle_ports(Some(ports));
    assert!(resp.ok && resp.v == 1 && resp.err.is_none());
    let data = resp.data.unwrap();
    assert_eq!(data["8080"], 40001);
    assert_eq!(data["0"], 65535);
    assert_eq!(data.as_object().unwrap().len(), 2);
}

#[test]
fn no_supervisor_no_ports() {
    let resp = handle_ports(None);
    assert!(resp.ok);
    assert_eq!(resp.data.unwrap(), Value::Object(serde_json::Map::new()));
}

#[test]
fn a_response_goes_out_framed() {
    let bytes = write_response(&handle_info(&info(None)));
    let body = b"{\"v\":1,\"ok\":true,\"data\":{\"child_pid\":4242,\"mode\":null,\"supervisor_pid\":4241}}";
    assert_eq!(bytes[..4], (body.len() as u32).to_be_bytes());
    assert_eq!(&bytes[4..], &body[..]);
}

fn text_of(resp: &ControlResponse) -> String {
    String::from_utf8(encode_response(resp).unwrap()).unwrap()
}

#[test]
fn responses_are_written_member_by_member() {
    assert_eq!(text_of(&granted(Value::from(7))), "{\"v\":1,\"ok\":true,\"data\":7}");
    assert_eq!(text_of(&granted(Value::Null)), "{\"v\":1,\"ok\":true,\"data\":null}");
    assert_eq!(text_of(&refuse("no".to_string())), "{\"v\":1,\"ok\":false,\"err\":\"no\"}");
    assert_eq!(text_of(&refuse(String::new())), "{\"v\":1,\"ok\":false,\"err\":\"\"}");
    let bare = ControlResponse { v: u32::MAX, ok: true, data: None, err: None };
    assert_eq!(text_of(&bare), "{\"v\":4294967295,\"ok\":true}");
    let both = ControlResponse {
        v: 0,
        ok: false,
        data: Some(Value::from(-5)),
        err: Some("a \"b\"\n\\ \u{e9}\u{7f}".to_string()),
    };
    assert_eq!(
        text_of(&both),
        "{\"v\":0,\"ok\":false,\"data\":-5,\"err\":\"a \\\"b\\\"\\n\\\\ \u{e9}\u{7f}\"}"
    );
}

#[test]
fn every_character_is_escaped_as_json_asks() {
    let hex = |d: u32| char::from_digit(d, 16).unwrap();
    for code in 0u32..0x180 {
        let c = char::from_u32(code).unwrap();
        let expected = match c {
            '"' => "\\\"".to_string(),
            '\\' => "\\\\".to_string(),
            '\u{8}' => "\\b".to_string(),
            '\t' => "\\t".to_string(),
            '\n' => "\\n".to_string(),
            '\u{c}' => "\\f".to_string(),
            '\r' => "\\r".to_string(),
            c if code < 32 => format!("\\u00{}{}", hex(c as u32 / 16), hex(c as u32 % 16)),
            c => c.to_string(),
        };
        let resp = refuse(format!("a{c}b"));
        let text = format!("{{\"v\":1,\"ok\":false,\"err\":\"a{expected}b\"}}");
        assert_eq!(text_of(&resp), text);
    }
}

#[test]
fn ports_are_written_in_the_order_of_their_names() {
    let mut ports: HashMap<u16, u16> = HashMap::new();
    for (port, real) in [(9, 1), (10, 65535), (100, 0), (8080, 7), (0, 80)] {
        ports.insert(port, real);
    }
    assert_eq!(
        text_of(&handle_ports(Some(ports))),
        "{\"v\":1,\"ok\":true,\"data\":{\"0\":80,\"10\":65535,\"100\":0,\"8080\":7,\"9\":1}}"
    );
    assert_eq!(text_of(&handle_ports(None)), "{\"v\":1,\"ok\":true,\"data\":{}}");
}

#[test]
fn a_report_is_written_in_the_order_of_its_names() {
    let named = SandboxInfo { child_pid: i32::MIN, supervisor_pid: 0, mode: Some("a\"b".into()) };
    assert_eq!(
        text_of(&handle_info(&named)),
        "{\"v\":1,\"ok\":true,\"data\":{\"child_pid\":-2147483648,\"mode\":\"a\\\"b\",\"supervisor_pid\":0}}"
    );
}

#[test]
fn a_response_at_the_cap_goes_out_unchanged() {
    let bytes = frame_written(Ok(vec![b'x'; 65536]));
    assert_eq!(bytes.len(), 4 + 65536);
    assert_eq!(bytes[..4], [0, 1, 0, 0]);

    let around = encode_response(&granted(Value::from(""))).unwrap().len();
    let bytes = write_response(&granted(Value::from("x".repeat(65536 - around))));
    assert_eq!(bytes.len(), 4 + 65536);
    assert!(bytes.ends_with(b"xxx\"}"));
}

#[test]
fn an_oversized_response_is_replaced() {
    let resp = granted(Value::from("x".repeat(70000)));
    let full = encode_response(&resp).unwrap().len();
    let bytes = write_response(&resp);
    let body = format!(
        "{{\"v\":1,\"ok\":false,\"err\":\"response too large ({full} bytes, max 65536)\"}}"
    );
    assert_eq!(bytes[..4], (body.len() as u32).to_be_bytes());
    assert_eq!(&bytes[4..], body.as_bytes());

    let bytes = frame_written(Ok(vec![0; 65537]));
    let body = "{\"v\":1,\"ok\":false,\"err\":\"response too large (65537 bytes, max 65536)\"}";
    assert_eq!(&bytes[4..], body.as_bytes());
}

#[test]
fn a_failing_writer_sends_an_internal_error() {
    let bytes = frame_written(Err("recursion".to_string()));
    let body = b"{\"v\":1,\"ok\":false,\"err\":\"internal error\"}";
    assert_eq!(bytes[..4], (body.len() as u32).to_be_bytes());
    assert_eq!(&bytes[4..], &body[..]);
}

#[test]
fn config_is_answered_alike() {
    let answer = || {
        let denied = Some(vec!["/root".to_string()]);
        handle_config(denied, |paths| Ok(Value::from(paths))).data.unwrap()
    };
    assert_eq!(answer(), answer());
}
