//! The messages of the control protocol, and what each verb answers.

use std::collections::HashMap;
use vstd::prelude::*;
use vstd::string::*;
use vstd::utf8::*;

use crate::frame::{frame, MAX_BODY_BYTES};
use crate::json::{
    no_members, number, object, ports_to_value, set_member, text_or_null, truth, write_object,
};
use crate::text::{message, push_decimal};

verus! {

/// The version of the protocol that both sides speak.
pub const PROTOCOL_VERSION: u32 = 1;

/// What the `info` verb reports: everything needed to list and to kill a
/// sandbox.
#[derive(Clone, Debug)]
pub struct SandboxInfo {
    pub child_pid: i32,
    pub supervisor_pid: i32,
    pub mode: Option<String>,
}

/// A request: the protocol version, what is asked for, and its arguments.
#[derive(Debug)]
pub struct ControlRequest {
    pub v: u32,
    pub verb: String,
    pub args: serde_json::Value,
}

/// A response: the data asked for, or why there is none.
#[derive(Debug)]
pub struct ControlResponse {
    pub v: u32,
    pub ok: bool,
    pub data: Option<serde_json::Value>,
    pub err: Option<String>,
}

/// The response grants the request and carries `data`.
pub open spec fn grants(resp: ControlResponse, data: serde_json::Value) -> bool {
    &&& resp.v == PROTOCOL_VERSION
    &&& resp.ok
    &&& resp.data == Some(data)
    &&& resp.err is None
}

/// The response turns the request down and says why.
pub open spec fn refuses(resp: ControlResponse, why: Seq<char>) -> bool {
    &&& resp.v == PROTOCOL_VERSION
    &&& !resp.ok
    &&& resp.data is None
    &&& resp.err matches Some(err) && err@ == why
}

/// An optional text.
pub open spec fn text_of(s: Option<String>) -> Option<Seq<char>> {
    match s {
        Some(s) => Some(s@),
        None => None,
    }
}

/// The members of the JSON object that reports a sandbox.
pub open spec fn info_members(info: SandboxInfo) -> Map<Seq<char>, serde_json::Value> {
    map![
        "child_pid"@ => crate::json::number_value(info.child_pid as int),
        "supervisor_pid"@ => crate::json::number_value(info.supervisor_pid as int),
        "mode"@ => crate::json::text_value(text_of(info.mode)),
    ]
}

/// The JSON text of the report of a sandbox.
pub open spec fn info_text(info: SandboxInfo) -> Seq<char> {
    "{\"child_pid\":"@ + crate::text::signed_decimal(info.child_pid as int) + ",\"mode\":"@
        + crate::json::string_or_null_text(text_of(info.mode)) + ",\"supervisor_pid\":"@
        + crate::text::signed_decimal(info.supervisor_pid as int) + "}"@
}

/// The response grants the report of a sandbox, which is written as its text.
pub open spec fn reports_info(resp: ControlResponse, info: SandboxInfo) -> bool {
    &&& grants(resp, crate::json::object_value(info_members(info)))
    &&& crate::json::is_written_as(
        crate::json::object_value(info_members(info)),
        info_text(info),
    )
}

/// The response reports the outcome of making a value.
pub open spec fn reports(
    resp: ControlResponse,
    outcome: Result<serde_json::Value, String>,
) -> bool {
    match outcome {
        Ok(data) => grants(resp, data),
        Err(e) => refuses(resp, "serialize error: "@ + e@),
    }
}

/// A response that carries `data`.
pub fn grant(data: serde_json::Value) -> (resp: ControlResponse)
    ensures
        grants(resp, data),
        resp.v == 1 && resp.ok && resp.data == Some(data) && resp.err is None,
{
    ControlResponse { v: PROTOCOL_VERSION, ok: true, data: Some(data), err: None }
}

/// A response that turns the request down.
pub fn refuse(why: String) -> (resp: ControlResponse)
    ensures
        refuses(resp, why@),
        resp.v == 1 && !resp.ok && resp.data is None && resp.err == Some(why),
{
    ControlResponse { v: PROTOCOL_VERSION, ok: false, data: None, err: Some(why) }
}

/// The response to the outcome of making a value.
pub fn report(outcome: Result<serde_json::Value, String>) -> (resp: ControlResponse)
    ensures
        reports(resp, outcome),
        resp.v == 1,
        outcome matches Ok(data) ==> resp.ok && resp.data == Some(data) && resp.err is None,
        outcome matches Err(e) ==> !resp.ok && resp.data is None && (resp.err matches Some(why)
            && why@ == "serialize error: "@ + e@),
{
    match outcome {
        Ok(data) => grant(data),
        Err(e) => {
            refuse(message("serialize error: ", e.as_str()))
        },
    }
}

/// Answers `info`: the pids and the mode of the sandbox.
pub fn handle_info(info: &SandboxInfo) -> (resp: ControlResponse)
    ensures
        reports_info(resp, *info),
{
    let child = number(info.child_pid as i64);
    let supervisor = number(info.supervisor_pid as i64);
    let mode = text_or_null(info.mode.clone());
    proof {
        the_report_is_written_out(*info, child, mode, supervisor);
    }
    let mut members = no_members();
    set_member(&mut members, "child_pid".to_string(), child);
    set_member(&mut members, "supervisor_pid".to_string(), supervisor);
    set_member(&mut members, "mode".to_string(), mode);
    assert(crate::json::members_of(members) =~= info_members(*info));
    grant(object(members))
}

/// The members of a report, in the order of their names, come to its text.
proof fn the_report_is_written_out(
    info: SandboxInfo,
    child: serde_json::Value,
    mode: serde_json::Value,
    supervisor: serde_json::Value,
)
    requires
        child == crate::json::number_value(info.child_pid as int),
        supervisor == crate::json::number_value(info.supervisor_pid as int),
        mode == crate::json::text_value(text_of(info.mode)),
        crate::json::is_written_as(child, crate::text::signed_decimal(info.child_pid as int)),
        crate::json::is_written_as(
            supervisor,
            crate::text::signed_decimal(info.supervisor_pid as int),
        ),
        crate::json::is_written_as(mode, crate::json::string_or_null_text(text_of(info.mode))),
    ensures
        crate::json::is_listing(
            seq![("child_pid"@, child), ("mode"@, mode), ("supervisor_pid"@, supervisor)],
            info_members(info),
        ),
        crate::json::object_text(
            seq![("child_pid"@, child), ("mode"@, mode), ("supervisor_pid"@, supervisor)],
        ) == encode_utf8(info_text(info)),
{
    let none = Seq::<(Seq<char>, serde_json::Value)>::empty();
    let list = seq![("child_pid"@, child), ("mode"@, mode), ("supervisor_pid"@, supervisor)];
    let l1 = seq![("child_pid"@, child)];
    let l2 = seq![("child_pid"@, child), ("mode"@, mode)];
    reveal_strlit("child_pid");
    reveal_strlit("mode");
    reveal_strlit("supervisor_pid");
    reveal_strlit("{\"child_pid\":");
    reveal_strlit(",\"mode\":");
    reveal_strlit(",\"supervisor_pid\":");
    reveal_strlit("}");
    crate::order::ascii_texts_compare_by_character("child_pid"@, "mode"@);
    crate::order::ascii_texts_compare_by_character("child_pid"@, "supervisor_pid"@);
    crate::order::ascii_texts_compare_by_character("mode"@, "supervisor_pid"@);
    assert(list[0].0 == "child_pid"@ && list[1].0 == "mode"@ && list[2].0 == "supervisor_pid"@);
    crate::json::members_text_grows(none, "child_pid"@, child);
    crate::json::members_text_grows(l1, "mode"@, mode);
    crate::json::members_text_grows(l2, "supervisor_pid"@, supervisor);
    assert(none.push(("child_pid"@, child)) =~= l1);
    assert(l1.push(("mode"@, mode)) =~= l2);
    assert(l2.push(("supervisor_pid"@, supervisor)) =~= list);
    plain_member_head("child_pid"@, true);
    plain_member_head("mode"@, false);
    plain_member_head("supervisor_pid"@, false);
    let h1 = crate::json::member_head("child_pid"@, true);
    let h2 = crate::json::member_head("mode"@, false);
    let h3 = crate::json::member_head("supervisor_pid"@, false);
    let v1 = crate::text::signed_decimal(info.child_pid as int);
    let v2 = crate::json::string_or_null_text(text_of(info.mode));
    let v3 = crate::text::signed_decimal(info.supervisor_pid as int);
    assert(seq!['{'] + h1 =~= "{\"child_pid\":"@);
    assert(h2 =~= ",\"mode\":"@);
    assert(h3 =~= ",\"supervisor_pid\":"@);
    assert("}"@ =~= seq!['}']);
    let t0 = seq!['{'] + h1;
    crate::text::encode_utf8_concat(seq!['{'], h1);
    crate::text::encode_utf8_concat(t0, v1);
    crate::text::encode_utf8_concat(t0 + v1, h2);
    crate::text::encode_utf8_concat(t0 + v1 + h2, v2);
    crate::text::encode_utf8_concat(t0 + v1 + h2 + v2, h3);
    crate::text::encode_utf8_concat(t0 + v1 + h2 + v2 + h3, v3);
    crate::text::encode_utf8_concat(t0 + v1 + h2 + v2 + h3 + v3, "}"@);
    assert(crate::json::object_text(list) =~= encode_utf8(info_text(info)));
}

/// The paths that `handle_config` hands on: those denied at run time, none
/// where nothing supervises the sandbox.
pub open spec fn denied_paths(denied: Option<Vec<String>>, paths: Vec<String>) -> bool {
    match denied {
        Some(denied) => paths == denied,
        None => paths@.len() == 0,
    }
}

/// The response reports what `profile` makes of the denied paths.
pub open spec fn config_answer<F>(
    denied: Option<Vec<String>>,
    profile: F,
    resp: ControlResponse,
) -> bool where F: FnOnce(Vec<String>) -> Result<serde_json::Value, String> {
    exists|paths: Vec<String>, outcome: Result<serde_json::Value, String>|
        denied_paths(denied, paths) && #[trigger] call_ensures(profile, (paths,), outcome)
            && reports(resp, outcome)
}

/// Answers `config`: the effective policy. `denied` holds the paths denied at
/// run time, and is none for a sandbox without a supervisor; `profile` makes the
/// policy of the sandbox with those paths.
pub fn handle_config<F>(denied: Option<Vec<String>>, profile: F) -> (resp: ControlResponse) where
    F: FnOnce(Vec<String>) -> Result<serde_json::Value, String>,

    requires
        forall|paths: Vec<String>|
            denied_paths(denied, paths) ==> call_requires(profile, (paths,)),
    ensures
        config_answer(denied, profile, resp),
        exists|paths: Vec<String>, outcome: Result<serde_json::Value, String>|
            (match denied {
                Some(given) => paths@.len() == given@.len() && forall|i: int|
                    0 <= i < given@.len() ==> #[trigger] paths@[i] == given@[i],
                None => paths@.len() == 0,
            }) && #[trigger] call_ensures(profile, (paths,), outcome) && reports(resp, outcome),
{
    let paths: Vec<String> = match denied {
        Some(denied) => denied,
        None => Vec::new(),
    };
    assert(denied_paths(denied, paths));
    let outcome = profile(paths);
    report(outcome)
}

/// The port map that is reported: that of the supervisor, the empty one where
/// nothing supervises the sandbox.
pub open spec fn reported_ports(ports: Option<HashMap<u16, u16>>) -> Map<u16, u16> {
    match ports {
        Some(ports) => ports@,
        None => Map::empty(),
    }
}

/// Answers `ports`: the map from virtual to real ports, none for a sandbox
/// without a supervisor.
pub fn handle_ports(ports: Option<HashMap<u16, u16>>) -> (resp: ControlResponse)
    ensures
        grants(
            resp,
            crate::json::object_value(crate::json::port_members(reported_ports(ports))),
        ),
        crate::json::is_written_as_ports(resp.data->Some_0, reported_ports(ports)),
        ports matches Some(map) ==> resp.data == Some(
            crate::json::object_value(crate::json::port_members(map@)),
        ) && crate::json::is_written_as_ports(resp.data->Some_0, map@),
{
    let map: HashMap<u16, u16> = match ports {
        Some(ports) => ports,
        None => HashMap::new(),
    };
    report(ports_to_value(&map))
}

/// Why a response of `n` bytes is replaced.
pub open spec fn too_large(n: nat) -> Seq<char> {
    "response too large ("@ + crate::text::decimal(n) + " bytes, max "@ + crate::text::decimal(
        MAX_BODY_BYTES as nat,
    ) + ")"@
}

/// The JSON text of a response. Data and reason are left out where there are none.
pub open spec fn response_text(resp: ControlResponse) -> Seq<u8> {
    encode_utf8(
        "{\"v\":"@ + crate::text::decimal(resp.v as nat) + ",\"ok\":"@ + crate::json::truth_text(
            resp.ok,
        ),
    ) + (match resp.data {
        Some(data) => encode_utf8(",\"data\":"@) + crate::json::json_text(data),
        None => Seq::empty(),
    }) + (match resp.err {
        Some(err) => encode_utf8(",\"err\":"@ + crate::json::string_text(err@)),
        None => Seq::empty(),
    }) + encode_utf8("}"@)
}

/// The JSON text of a response that turns a request down.
pub open spec fn refusal_text(why: Seq<char>) -> Seq<char> {
    "{\"v\":1,\"ok\":false,\"err\":"@ + crate::json::string_text(why) + "}"@
}

/// What goes out for what was written: the text, a refusal that says how long the
/// text was where it is over the cap, and an internal error where the writer failed.
pub open spec fn capped_body(written: Result<Seq<u8>, Seq<char>>) -> Seq<u8> {
    match written {
        Ok(text) => if text.len() <= MAX_BODY_BYTES {
            text
        } else {
            encode_utf8(refusal_text(too_large(text.len())))
        },
        Err(_) => encode_utf8(refusal_text("internal error"@)),
    }
}

/// What goes out for a response.
pub open spec fn sent_body(resp: ControlResponse) -> Seq<u8> {
    capped_body(Ok(response_text(resp)))
}

/// The text of a response has a length that a machine can count.
pub open spec fn is_countable(resp: ControlResponse) -> bool {
    response_text(resp).len() <= u64::MAX
}

/// A member name that needs no escape ahead of its value.
proof fn plain_member_head(key: Seq<char>, first: bool)
    requires
        crate::json::is_plain(key),
    ensures
        crate::json::member_head(key, first) == (if first {
            Seq::empty()
        } else {
            seq![',']
        }) + crate::json::quoted(key) + seq![':'],
{
    crate::json::plain_text_is_not_escaped(key);
}

/// The members of the JSON object of a response, in the order in which they are
/// written.
spec fn response_members(
    resp: ControlResponse,
    v: serde_json::Value,
    ok: serde_json::Value,
    err: serde_json::Value,
) -> Seq<(Seq<char>, serde_json::Value)> {
    let head = seq![("v"@, v), ("ok"@, ok)];
    let so_far = match resp.data {
        Some(data) => head.push(("data"@, data)),
        None => head,
    };
    if resp.err is Some {
        so_far.push(("err"@, err))
    } else {
        so_far
    }
}

/// Writes a response as JSON.
pub fn encode_response(resp: &ControlResponse) -> (r: Result<Vec<u8>, String>)
    ensures
        r is Ok,
        r->Ok_0@ == response_text(*resp),
{
    let v = number(resp.v as i64);
    let ok = truth(resp.ok);
    let err = text_or_null(resp.err.clone());
    let mut members: Vec<(&str, &serde_json::Value)> = Vec::new();
    members.push(("v", &v));
    members.push(("ok", &ok));
    if let Some(data) = &resp.data {
        members.push(("data", data));
    }
    if resp.err.is_some() {
        members.push(("err", &err));
    }
    proof {
        assert(crate::json::named(members@) =~= response_members(*resp, v, ok, err));
        the_response_is_written_out(*resp, v, ok, err);
    }
    write_object(members)
}

/// The members of a response come to its text.
proof fn the_response_is_written_out(
    resp: ControlResponse,
    v: serde_json::Value,
    ok: serde_json::Value,
    err: serde_json::Value,
)
    requires
        crate::json::is_written_as(v, crate::text::signed_decimal(resp.v as int)),
        crate::json::is_written_as(ok, crate::json::truth_text(resp.ok)),
        resp.err matches Some(e) ==> crate::json::is_written_as(
            err,
            crate::json::string_text(e@),
        ),
    ensures
        crate::json::object_text(response_members(resp, v, ok, err)) == response_text(resp),
{
    let open = encode_utf8(seq!['{']);
    let head = seq![("v"@, v), ("ok"@, ok)];
    let opening = open + crate::json::members_text(head);
    the_head_is_written_out(resp, v, ok);
    let so_far = match resp.data {
        Some(data) => head.push(("data"@, data)),
        None => head,
    };
    let data_text = match resp.data {
        Some(data) => encode_utf8(",\"data\":"@) + crate::json::json_text(data),
        None => Seq::empty(),
    };
    assert(open + crate::json::members_text(so_far) =~= opening + data_text) by {
        if let Some(data) = resp.data {
            reveal_strlit("data");
            reveal_strlit(",\"data\":");
            plain_member_head("data"@, false);
            assert(crate::json::member_head("data"@, false) =~= ",\"data\":"@);
            crate::json::members_text_grows(head, "data"@, data);
        }
    }
    let all = response_members(resp, v, ok, err);
    let err_text = match resp.err {
        Some(e) => encode_utf8(",\"err\":"@ + crate::json::string_text(e@)),
        None => Seq::empty(),
    };
    assert(open + crate::json::members_text(all) =~= opening + data_text + err_text) by {
        if let Some(e) = resp.err {
            reveal_strlit("err");
            reveal_strlit(",\"err\":");
            plain_member_head("err"@, false);
            assert(crate::json::member_head("err"@, false) =~= ",\"err\":"@);
            crate::json::members_text_grows(so_far, "err"@, err);
            crate::text::encode_utf8_concat(",\"err\":"@, crate::json::string_text(e@));
        }
    }
    reveal_strlit("}");
    assert(seq!['}'] =~= "}"@);
}

/// The version and the outcome, with the opening brace, as they are written.
proof fn the_head_is_written_out(
    resp: ControlResponse,
    v: serde_json::Value,
    ok: serde_json::Value,
)
    requires
        crate::json::is_written_as(v, crate::text::signed_decimal(resp.v as int)),
        crate::json::is_written_as(ok, crate::json::truth_text(resp.ok)),
    ensures
        encode_utf8(seq!['{']) + crate::json::members_text(seq![("v"@, v), ("ok"@, ok)])
            == encode_utf8(
            "{\"v\":"@ + crate::text::decimal(resp.v as nat) + ",\"ok\":"@
                + crate::json::truth_text(resp.ok),
        ),
{
    let none = Seq::<(Seq<char>, serde_json::Value)>::empty();
    let number = crate::text::decimal(resp.v as nat);
    let outcome = crate::json::truth_text(resp.ok);
    let h1 = crate::json::member_head("v"@, true);
    let h2 = crate::json::member_head("ok"@, false);
    reveal_strlit("v");
    reveal_strlit("ok");
    reveal_strlit("{\"v\":");
    reveal_strlit(",\"ok\":");
    plain_member_head("v"@, true);
    plain_member_head("ok"@, false);
    assert(seq!['{'] + h1 =~= "{\"v\":"@);
    assert(h2 =~= ",\"ok\":"@);
    crate::json::members_text_grows(none, "v"@, v);
    crate::json::members_text_grows(seq![("v"@, v)], "ok"@, ok);
    assert(none.push(("v"@, v)) =~= seq![("v"@, v)]);
    assert(seq![("v"@, v)].push(("ok"@, ok)) =~= seq![("v"@, v), ("ok"@, ok)]);
    crate::text::encode_utf8_concat(seq!['{'], h1);
    crate::text::encode_utf8_concat("{\"v\":"@, number);
    crate::text::encode_utf8_concat("{\"v\":"@ + number, h2);
    crate::text::encode_utf8_concat("{\"v\":"@ + number + h2, outcome);
    assert(encode_utf8(seq!['{']) + crate::json::members_text(seq![("v"@, v), ("ok"@, ok)])
        =~= encode_utf8("{\"v\":"@ + number + h2 + outcome));
}

/// The text of a refusal, spelled out.
pub proof fn a_refusal_is_written_out(resp: ControlResponse, why: Seq<char>)
    requires
        refuses(resp, why),
    ensures
        response_text(resp) == encode_utf8(refusal_text(why)),
{
    let opening = "{\"v\":"@ + crate::text::decimal(1) + ",\"ok\":"@ + "false"@;
    let reason = crate::json::string_text(why);
    reveal_strlit("{\"v\":");
    reveal_strlit(",\"ok\":");
    reveal_strlit("false");
    reveal_strlit(",\"err\":");
    reveal_strlit("{\"v\":1,\"ok\":false,\"err\":");
    assert(crate::text::decimal(1) =~= seq!['1']);
    assert(opening + ",\"err\":"@ =~= "{\"v\":1,\"ok\":false,\"err\":"@);
    crate::text::encode_utf8_concat(opening, ",\"err\":"@ + reason);
    crate::text::encode_utf8_concat(opening + (",\"err\":"@ + reason), "}"@);
    assert(opening + (",\"err\":"@ + reason) + "}"@ =~= refusal_text(why));
    assert(response_text(resp) =~= encode_utf8(opening) + encode_utf8(",\"err\":"@ + reason)
        + encode_utf8("}"@));
}

/// The text of a response that grants a request, spelled out around the text of its
/// data.
pub proof fn a_grant_is_written_out(resp: ControlResponse, data: serde_json::Value, text: Seq<char>)
    requires
        grants(resp, data),
        crate::json::is_written_as(data, text),
    ensures
        response_text(resp) == encode_utf8("{\"v\":1,\"ok\":true,\"data\":"@ + text + "}"@),
{
    let opening = "{\"v\":"@ + crate::text::decimal(1) + ",\"ok\":"@ + "true"@;
    let head = "{\"v\":1,\"ok\":true,\"data\":"@;
    reveal_strlit("{\"v\":");
    reveal_strlit(",\"ok\":");
    reveal_strlit("true");
    reveal_strlit(",\"data\":");
    reveal_strlit("{\"v\":1,\"ok\":true,\"data\":");
    assert(crate::text::decimal(1) =~= seq!['1']);
    assert(opening + ",\"data\":"@ =~= head);
    crate::text::encode_utf8_concat(opening, ",\"data\":"@);
    crate::text::encode_utf8_concat(head, text);
    crate::text::encode_utf8_concat(head + text, "}"@);
    assert(response_text(resp) =~= encode_utf8(opening) + encode_utf8(",\"data\":"@)
        + encode_utf8(text) + encode_utf8("}"@));
}

/// An integer of 32 bits takes at most eleven bytes.
proof fn a_pid_is_short(n: i32)
    ensures
        encode_utf8(crate::text::signed_decimal(n as int)).len() <= 11,
{
    let size: u32 = if n < 0 {
        (-(n as int)) as u32
    } else {
        n as u32
    };
    let text = crate::text::signed_decimal(n as int);
    crate::text::decimal_is_digits(size as nat);
    crate::text::decimal_of_u32_is_short(size);
    assert(is_ascii_chars(text));
    is_ascii_chars_encode_utf8(text);
}

/// The report of a sandbox whose mode takes at most 65000 bytes as a JSON string is
/// within the cap, so that it goes out as it is.
pub proof fn a_report_with_a_short_mode_is_sent_unchanged(resp: ControlResponse, info: SandboxInfo)
    requires
        reports_info(resp, info),
        encode_utf8(crate::json::string_or_null_text(text_of(info.mode))).len() <= 65000,
    ensures
        response_text(resp).len() <= MAX_BODY_BYTES,
        sent_body(resp) == encode_utf8(
            "{\"v\":1,\"ok\":true,\"data\":"@ + info_text(info) + "}"@,
        ),
{
    let a = "{\"child_pid\":"@;
    let child = crate::text::signed_decimal(info.child_pid as int);
    let b = ",\"mode\":"@;
    let mode = crate::json::string_or_null_text(text_of(info.mode));
    let c = ",\"supervisor_pid\":"@;
    let supervisor = crate::text::signed_decimal(info.supervisor_pid as int);
    let z = "}"@;
    let head = "{\"v\":1,\"ok\":true,\"data\":"@;
    reveal_strlit("{\"child_pid\":");
    reveal_strlit(",\"mode\":");
    reveal_strlit(",\"supervisor_pid\":");
    reveal_strlit("}");
    reveal_strlit("{\"v\":1,\"ok\":true,\"data\":");
    assert(is_ascii_chars(a) && is_ascii_chars(b) && is_ascii_chars(c) && is_ascii_chars(z)
        && is_ascii_chars(head));
    is_ascii_chars_encode_utf8(a);
    is_ascii_chars_encode_utf8(b);
    is_ascii_chars_encode_utf8(c);
    is_ascii_chars_encode_utf8(z);
    is_ascii_chars_encode_utf8(head);
    a_pid_is_short(info.child_pid);
    a_pid_is_short(info.supervisor_pid);
    crate::text::encode_utf8_concat(a, child);
    crate::text::encode_utf8_concat(a + child, b);
    crate::text::encode_utf8_concat(a + child + b, mode);
    crate::text::encode_utf8_concat(a + child + b + mode, c);
    crate::text::encode_utf8_concat(a + child + b + mode + c, supervisor);
    crate::text::encode_utf8_concat(a + child + b + mode + c + supervisor, z);
    crate::text::encode_utf8_concat(head, info_text(info));
    crate::text::encode_utf8_concat(head + info_text(info), z);
    a_grant_is_written_out(resp, crate::json::object_value(info_members(info)), info_text(info));
}

/// The reason for replacing an oversized response needs no escape, and its refusal
/// is within the cap.
proof fn too_large_is_plain_and_short(n: u64)
    ensures
        crate::json::is_plain(too_large(n as nat)),
        encode_utf8(refusal_text(too_large(n as nat))).len() <= MAX_BODY_BYTES,
{
    let why = too_large(n as nat);
    let cap = crate::text::decimal(MAX_BODY_BYTES as nat);
    let len = crate::text::decimal(n as nat);
    reveal_strlit("response too large (");
    reveal_strlit(" bytes, max ");
    reveal_strlit(")");
    reveal_strlit("}");
    reveal_strlit("{\"v\":1,\"ok\":false,\"err\":");
    crate::text::decimal_is_digits(n as nat);
    crate::text::decimal_is_digits(MAX_BODY_BYTES as nat);
    crate::text::decimal_of_u64_is_short(n);
    crate::text::decimal_of_u64_is_short(MAX_BODY_BYTES as u64);
    let a = "response too large ("@;
    let b = " bytes, max "@;
    assert forall|i: int| 0 <= i < why.len() implies ' ' <= #[trigger] why[i] <= '\u{7e}' && why[i]
        != '"' && why[i] != '\\' by {
        if i < a.len() {
            assert(why[i] == a[i]);
        } else if i < a.len() + len.len() {
            assert(why[i] == len[i - a.len()]);
        } else if i < a.len() + len.len() + b.len() {
            assert(why[i] == b[i - a.len() - len.len()]);
        } else if i < a.len() + len.len() + b.len() + cap.len() {
            assert(why[i] == cap[i - a.len() - len.len() - b.len()]);
        } else {
            assert(why[i] == ')');
        }
    }
    let text = refusal_text(why);
    crate::json::plain_text_is_not_escaped(why);
    assert(is_ascii_chars(text));
    is_ascii_chars_encode_utf8(text);
}

/// The reason for an internal error needs no escape, and its refusal is within the
/// cap.
proof fn internal_error_is_plain_and_short()
    ensures
        crate::json::is_plain("internal error"@),
        encode_utf8(refusal_text("internal error"@)).len() <= MAX_BODY_BYTES,
{
    reveal_strlit("internal error");
    reveal_strlit("}");
    reveal_strlit("{\"v\":1,\"ok\":false,\"err\":");
    let text = refusal_text("internal error"@);
    crate::json::plain_text_is_not_escaped("internal error"@);
    assert(is_ascii_chars(text));
    is_ascii_chars_encode_utf8(text);
}

/// The texts behind the outcome of writing.
pub open spec fn outcome_text(written: Result<Vec<u8>, String>) -> Result<Seq<u8>, Seq<char>> {
    match written {
        Ok(text) => Ok(text@),
        Err(e) => Err(e@),
    }
}

/// The text of a refusal.
fn refusal_body(why: String) -> (body: Vec<u8>)
    ensures
        body@ == encode_utf8(refusal_text(why@)),
{
    let ghost reason = why@;
    let resp = refuse(why);
    proof {
        a_refusal_is_written_out(resp, reason);
    }
    match encode_response(&resp) {
        Ok(text) => text,
        Err(_) => Vec::new(),
    }
}

/// The bytes that go out for a response as the JSON writer made it: the length and
/// the body. Where the writer failed, the body reports an internal error. A body
/// over the cap, which the other side would turn down, is replaced by a refusal that
/// says how long it was.
pub fn frame_written(written: Result<Vec<u8>, String>) -> (bytes: Vec<u8>)
    ensures
        bytes@ == crate::frame::framed(capped_body(outcome_text(written))),
        capped_body(outcome_text(written)).len() <= MAX_BODY_BYTES,
        written matches Ok(text) ==> bytes@ == crate::frame::framed(capped_body(Ok(text@))),
        written matches Err(e) ==> bytes@ == crate::frame::framed(capped_body(Err(e@))),
{
    proof {
        internal_error_is_plain_and_short();
    }
    let full: Vec<u8> = match written {
        Ok(text) => text,
        Err(_) => refusal_body("internal error".to_string()),
    };
    let body: Vec<u8> = if full.len() > MAX_BODY_BYTES {
        let mut why: String = String::new();
        why.append("response too large (");
        push_decimal(&mut why, full.len() as u64);
        why.append(" bytes, max ");
        push_decimal(&mut why, MAX_BODY_BYTES as u64);
        why.append(")");
        proof {
            assert(why@ =~= too_large(full@.len()));
            too_large_is_plain_and_short(full@.len() as u64);
        }
        refusal_body(why)
    } else {
        full
    };
    assert(body@ == capped_body(outcome_text(written)));
    frame(&body)
}

/// The bytes that go out for a response: its length and its body, never over the
/// cap.
pub fn write_response(resp: &ControlResponse) -> (bytes: Vec<u8>)
    ensures
        bytes@ == crate::frame::framed(sent_body(*resp)),
        sent_body(*resp).len() <= MAX_BODY_BYTES,
{
    frame_written(encode_response(resp))
}

/// What goes out is taken: every body that is sent is within the cap, so that the
/// other side accepts the length it reads, and reads the body whole.
pub proof fn a_sent_body_is_within_the_cap(resp: ControlResponse)
    requires
        is_countable(resp),
    ensures
        sent_body(resp).len() <= MAX_BODY_BYTES,
        crate::frame::accepted(crate::frame::framed(sent_body(resp)).take(4)) == Some(
            sent_body(resp).len(),
        ),
        crate::frame::framed(sent_body(resp)).skip(4) == sent_body(resp),
{
    what_stands_in_is_a_plain_refusal(resp);
    crate::frame::a_frame_reads_back(sent_body(resp));
}

/// What is sent in place of an oversized response is the text of a refusal, for a
/// reason that needs no escape, and what is sent is within the cap.
pub proof fn what_stands_in_is_a_plain_refusal(resp: ControlResponse)
    requires
        is_countable(resp),
    ensures
        response_text(resp).len() > MAX_BODY_BYTES ==> crate::json::is_plain(
            too_large(response_text(resp).len()),
        ) && sent_body(resp) == encode_utf8(refusal_text(too_large(response_text(resp).len()))),
        sent_body(resp).len() <= MAX_BODY_BYTES,
{
    too_large_is_plain_and_short(response_text(resp).len() as u64);
}

/// A response within the cap goes out as it was written; a longer one is replaced
/// by a refusal that says how long it was.
pub proof fn a_response_within_the_cap_is_sent_unchanged(resp: ControlResponse)
    ensures
        response_text(resp).len() <= MAX_BODY_BYTES ==> sent_body(resp) == response_text(resp),
        response_text(resp).len() > MAX_BODY_BYTES ==> sent_body(resp) == encode_utf8(
            refusal_text(too_large(response_text(resp).len())),
        ),
{
}

/// Asking for the policy changes nothing: where the policy depends on the denied
/// paths alone, two answers made with the same denied paths carry the same data,
/// or none for the same reason.
pub proof fn config_is_answered_alike<F>(
    denied: Option<Vec<String>>,
    profile: F,
    resp1: ControlResponse,
    resp2: ControlResponse,
) where F: FnOnce(Vec<String>) -> Result<serde_json::Value, String>
    requires
        config_answer(denied, profile, resp1),
        config_answer(denied, profile, resp2),
        forall|
            p1: Vec<String>,
            o1: Result<serde_json::Value, String>,
            p2: Vec<String>,
            o2: Result<serde_json::Value, String>,
        | #[trigger]
            call_ensures(profile, (p1,), o1) && #[trigger] call_ensures(profile, (p2,), o2) && p1@
                == p2@ ==> o1 == o2,
    ensures
        resp1.ok == resp2.ok,
        resp1.data == resp2.data,
        text_of(resp1.err) == text_of(resp2.err),
{
    let (p1, o1) = choose|paths: Vec<String>, outcome: Result<serde_json::Value, String>|
        denied_paths(denied, paths) && #[trigger] call_ensures(profile, (paths,), outcome)
            && reports(resp1, outcome);
    let (p2, o2) = choose|paths: Vec<String>, outcome: Result<serde_json::Value, String>|
        denied_paths(denied, paths) && #[trigger] call_ensures(profile, (paths,), outcome)
            && reports(resp2, outcome);
    assert(p1@ =~= p2@);
}

/// The policy is made with every path denied at run time: the list handed to
/// `profile` is as long as the one given and holds the same path at every place, and
/// is empty where nothing supervises the sandbox. What comes of it is the answer: the
/// policy as data, or the reason why there is none.
pub proof fn the_policy_is_made_with_every_denied_path<F>(
    denied: Option<Vec<String>>,
    profile: F,
    resp: ControlResponse,
) where F: FnOnce(Vec<String>) -> Result<serde_json::Value, String>
    requires
        config_answer(denied, profile, resp),
    ensures
        exists|paths: Vec<String>, outcome: Result<serde_json::Value, String>|
            {
                &&& #[trigger] call_ensures(profile, (paths,), outcome)
                &&& denied matches Some(given) ==> paths@.len() == given@.len() && forall|i: int|
                    0 <= i < given@.len() ==> #[trigger] paths@[i]@ == given@[i]@
                &&& denied is None ==> paths@.len() == 0
                &&& resp.v == 1
                &&& outcome matches Ok(data) ==> resp.ok && resp.data == Some(data)
                    && resp.err is None
                &&& outcome matches Err(e) ==> !resp.ok && resp.data is None && (
                resp.err matches Some(why) && why@ == "serialize error: "@ + e@)
            },
{
    let (paths, outcome) = choose|paths: Vec<String>, outcome: Result<serde_json::Value, String>|
        denied_paths(denied, paths) && #[trigger] call_ensures(profile, (paths,), outcome)
            && reports(resp, outcome);
    assert(call_ensures(profile, (paths,), outcome));
}

/// A supervised sandbox reports every port of its map and no other: the data is an
/// object that has a member named by a port exactly when the map has the port, and
/// the member holds the number that the map holds there. It is written as that map.
pub proof fn every_port_is_reported(ports: HashMap<u16, u16>, resp: ControlResponse)
    requires
        grants(
            resp,
            crate::json::object_value(crate::json::port_members(reported_ports(Some(ports)))),
        ),
        crate::json::is_written_as_ports(resp.data->Some_0, reported_ports(Some(ports))),
    ensures
        resp.v == 1 && resp.ok && resp.err is None,
        exists|members: Map<Seq<char>, serde_json::Value>|
            {
                &&& resp.data == Some(#[trigger] crate::json::object_value(members))
                &&& forall|port: u16, name: Seq<char>|
                    #![trigger crate::text::is_numeral(name, port as int)]
                    crate::text::is_numeral(name, port as int) ==> (members.contains_key(name)
                        <==> ports@.contains_key(port)) && (ports@.contains_key(port)
                        ==> members[name] == crate::json::number_value(ports@[port] as int))
                &&& forall|name: Seq<char>| #[trigger]
                    members.contains_key(name) ==> exists|port: u16|
                        #![trigger ports@.contains_key(port)]
                        ports@.contains_key(port) && crate::text::is_numeral(name, port as int)
            },
        crate::json::is_written_as_ports(resp.data->Some_0, ports@),
{
    let members = crate::json::port_members(ports@);
    assert(resp.data == Some(crate::json::object_value(members)));
    assert forall|port: u16, name: Seq<char>|
        #![trigger crate::text::is_numeral(name, port as int)]
        crate::text::is_numeral(name, port as int) implies (members.contains_key(name)
        <==> ports@.contains_key(port)) && (ports@.contains_key(port) ==> members[name]
        == crate::json::number_value(ports@[port] as int)) by {
        crate::text::a_number_has_one_numeral(name, port as nat);
        crate::json::port_members_report_every_port(ports@, port);
    }
    assert forall|name: Seq<char>| #[trigger] members.contains_key(name) implies exists|port: u16|
        #![trigger ports@.contains_key(port)]
        ports@.contains_key(port) && crate::text::is_numeral(name, port as int) by {
        let port = choose|port: u16| #[trigger]
            ports@.contains_key(port) && crate::text::decimal(port as nat) == name;
        crate::text::decimal_reads_back(port as nat);
    }
}

/// A sandbox without a supervisor reports an object without members.
pub proof fn no_supervisor_reports_no_port(resp: ControlResponse)
    requires
        grants(resp, crate::json::object_value(crate::json::port_members(reported_ports(None)))),
    ensures
        resp.v == 1 && resp.ok && resp.err is None,
        resp.data == Some(crate::json::object_value(Map::empty())),
{
    assert(crate::json::port_members(reported_ports(None)) =~= Map::empty());
}

/// A report says what the sandbox is: the response grants an object with three
/// members, the child's pid, the supervisor's pid and the mode, or null without one.
pub proof fn a_report_says_what_the_sandbox_is(resp: ControlResponse, info: SandboxInfo)
    requires
        reports_info(resp, info),
    ensures
        resp.v == 1 && resp.ok && resp.err is None,
        exists|members: Map<Seq<char>, serde_json::Value>|
            {
                &&& resp.data == Some(#[trigger] crate::json::object_value(members))
                &&& forall|name: Seq<char>| #[trigger]
                    members.contains_key(name) <==> name == "child_pid"@ || name
                        == "supervisor_pid"@ || name == "mode"@
                &&& members["child_pid"@] == crate::json::number_value(info.child_pid as int)
                &&& members["supervisor_pid"@] == crate::json::number_value(
                    info.supervisor_pid as int,
                )
                &&& info.mode matches Some(mode) ==> members["mode"@] == crate::json::text_value(
                    Some(mode@),
                )
                &&& info.mode is None ==> members["mode"@] == crate::json::text_value(None)
            },
{
    reveal_strlit("child_pid");
    reveal_strlit("supervisor_pid");
    reveal_strlit("mode");
    assert("child_pid"@.len() == 9 && "supervisor_pid"@.len() == 14 && "mode"@.len() == 4);
    assert(resp.data == Some(crate::json::object_value(info_members(info))));
}

/// The text of a report spells the pids and the mode: `child` and `supervisor` are
/// the digits of the pids, with their signs.
pub proof fn a_report_spells_the_pids(
    resp: ControlResponse,
    info: SandboxInfo,
    child: Seq<char>,
    supervisor: Seq<char>,
)
    requires
        reports_info(resp, info),
        crate::text::is_signed_numeral(child, info.child_pid as int),
        crate::text::is_signed_numeral(supervisor, info.supervisor_pid as int),
    ensures
        info.mode is None ==> crate::json::json_text(resp.data->Some_0) == encode_utf8(
            "{\"child_pid\":"@ + child + ",\"mode\":null,\"supervisor_pid\":"@ + supervisor + "}"@,
        ),
        info.mode matches Some(mode) ==> crate::json::json_text(resp.data->Some_0) == encode_utf8(
            "{\"child_pid\":"@ + child + ",\"mode\":\""@ + crate::json::escaped(mode@)
                + "\",\"supervisor_pid\":"@ + supervisor + "}"@,
        ),
{
    crate::text::an_integer_has_one_numeral(child, info.child_pid as int);
    crate::text::an_integer_has_one_numeral(supervisor, info.supervisor_pid as int);
    reveal_strlit("{\"child_pid\":");
    reveal_strlit(",\"mode\":");
    reveal_strlit(",\"mode\":\"");
    reveal_strlit("null");
    reveal_strlit(",\"mode\":null,\"supervisor_pid\":");
    reveal_strlit(",\"supervisor_pid\":");
    reveal_strlit("\",\"supervisor_pid\":");
    match info.mode {
        None => {
            assert(info_text(info) =~= "{\"child_pid\":"@ + child
                + ",\"mode\":null,\"supervisor_pid\":"@ + supervisor + "}"@);
        },
        Some(mode) => {
            assert(info_text(info) =~= "{\"child_pid\":"@ + child + ",\"mode\":\""@
                + crate::json::escaped(mode@) + "\",\"supervisor_pid\":"@ + supervisor + "}"@);
        },
    }
}

/// What a response is written as, member by member: its version in decimal, its
/// outcome, its data where there is any and its reason where there is one.
pub proof fn a_response_is_written_member_by_member(resp: ControlResponse, version: Seq<char>)
    requires
        crate::text::is_numeral(version, resp.v as int),
    ensures
        response_text(resp) == encode_utf8("{\"v\":"@) + encode_utf8(version) + (if resp.ok {
            encode_utf8(",\"ok\":true"@)
        } else {
            encode_utf8(",\"ok\":false"@)
        }) + (if resp.data is Some {
            encode_utf8(",\"data\":"@) + crate::json::json_text(resp.data->Some_0)
        } else {
            Seq::empty()
        }) + (if resp.err is Some {
            encode_utf8(",\"err\":\""@) + encode_utf8(crate::json::escaped(resp.err->Some_0@))
                + encode_utf8("\"}"@)
        } else {
            encode_utf8("}"@)
        }),
{
    let a = "{\"v\":"@;
    let b = ",\"ok\":"@;
    let outcome = crate::json::truth_text(resp.ok);
    reveal_strlit("{\"v\":");
    reveal_strlit(",\"ok\":");
    reveal_strlit("true");
    reveal_strlit("false");
    reveal_strlit(",\"ok\":true");
    reveal_strlit(",\"ok\":false");
    reveal_strlit("}");
    reveal_strlit("\"}");
    reveal_strlit(",\"err\":");
    reveal_strlit(",\"err\":\"");
    crate::text::a_number_has_one_numeral(version, resp.v as nat);
    crate::text::encode_utf8_concat(a, version);
    crate::text::encode_utf8_concat(a + version, b + outcome);
    assert(a + version + b + outcome =~= a + version + (b + outcome));
    if resp.ok {
        assert(b + outcome =~= ",\"ok\":true"@);
    } else {
        assert(b + outcome =~= ",\"ok\":false"@);
    }
    if let Some(err) = resp.err {
        let reason = crate::json::escaped(err@);
        let c = ",\"err\":\""@;
        assert(",\"err\":"@ + crate::json::string_text(err@) + "}"@ =~= c + reason + "\"}"@);
        crate::text::encode_utf8_concat(c, reason);
        crate::text::encode_utf8_concat(c + reason, "\"}"@);
        crate::text::encode_utf8_concat(
            ",\"err\":"@ + crate::json::string_text(err@),
            "}"@,
        );
    }
}

/// What goes out for a text: up to 65536 bytes the text itself, and beyond that a
/// refusal that spells how long it was. Where the writer failed, an internal error
/// goes out.
pub proof fn a_body_over_the_cap_is_replaced(
    text: Seq<u8>,
    length: Seq<char>,
    e: Seq<char>,
    resp: ControlResponse,
)
    requires
        crate::text::is_numeral(length, text.len() as int),
    ensures
        text.len() <= 65536 ==> capped_body(Ok(text)) == text,
        text.len() > 65536 ==> capped_body(Ok(text)) == encode_utf8(
            "{\"v\":1,\"ok\":false,\"err\":\"response too large ("@ + length
                + " bytes, max 65536)\"}"@,
        ),
        capped_body(Err(e)) == encode_utf8(
            "{\"v\":1,\"ok\":false,\"err\":\"internal error\"}"@,
        ),
        text == response_text(resp) ==> sent_body(resp) == capped_body(Ok(text)),
{
    reveal_strlit("{\"v\":1,\"ok\":false,\"err\":");
    reveal_strlit("}");
    reveal_strlit("internal error");
    reveal_strlit("{\"v\":1,\"ok\":false,\"err\":\"internal error\"}");
    crate::json::plain_text_is_not_escaped("internal error"@);
    assert(refusal_text("internal error"@)
        =~= "{\"v\":1,\"ok\":false,\"err\":\"internal error\"}"@);
    if text.len() > 65536 {
        let why = too_large(text.len());
        reveal_strlit("response too large (");
        reveal_strlit(" bytes, max ");
        reveal_strlit(")");
        reveal_strlit("{\"v\":1,\"ok\":false,\"err\":\"response too large (");
        reveal_strlit(" bytes, max 65536)\"}");
        crate::text::a_number_has_one_numeral(length, text.len());
        reveal_with_fuel(crate::text::decimal, 5);
        assert(crate::text::decimal(65536) =~= seq!['6', '5', '5', '3', '6']);
        let a = "response too large ("@;
        let b = " bytes, max "@;
        assert forall|i: int| 0 <= i < why.len() implies ' ' <= #[trigger] why[i] && why[i] != '"'
            && why[i] != '\\' by {
            if i < a.len() {
                assert(why[i] == a[i]);
            } else if i < a.len() + length.len() {
                assert(why[i] == length[i - a.len()]);
            }
        }
        crate::json::plain_text_is_not_escaped(why);
        assert(refusal_text(why) =~= "{\"v\":1,\"ok\":false,\"err\":\"response too large ("@
            + length + " bytes, max 65536)\"}"@);
    }
}

} // verus!
