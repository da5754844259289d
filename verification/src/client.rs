//! The client side: how a request is sent to a sandbox and what becomes of it.
//!
//! Connecting, reading and writing are the caller's. A call goes step by step:
//! each takes what just happened and says what to do next, up to the response or
//! the reason why there is none.

use vstd::prelude::*;
use vstd::string::*;
use vstd::utf8::*;

use crate::frame::{accepted_len, length_prefix};
use crate::json::{no_members, number, object, set_member, text_or_null, to_vec};
use crate::protocol::{ControlRequest, ControlResponse, SandboxInfo, PROTOCOL_VERSION};
use crate::server::{ServeAction, ServeEvent, ServeStage};
use crate::text::{about, message};

verus! {

/// How long reading and how long writing may stall, in seconds, so that a stuck
/// supervisor does not hold the client up.
pub const CALL_TIMEOUT_SECS: u64 = 2;

/// The kinds of I/O failure that are told apart.
#[derive(Clone, Copy, Debug, PartialEq, Eq)]
pub enum IoErrorKind {
    WouldBlock,
    TimedOut,
    ConnectionRefused,
    Other,
}

/// An I/O failure: its kind, and the system's words for it.
#[derive(Debug)]
pub struct IoError {
    pub kind: IoErrorKind,
    pub message: String,
}

/// How far a call has come; what is still needed of the request goes along.
pub enum CallStage {
    /// The address of the socket is due; the arguments of the request.
    Address(serde_json::Value),
    /// The connection is due.
    Connect(serde_json::Value),
    /// The read timeout is due.
    ReadTimeout(serde_json::Value),
    /// The write timeout is due.
    WriteTimeout(serde_json::Value),
    /// The length bytes are being sent; the body of the request.
    SendLength(Vec<u8>),
    /// The body is being sent.
    SendBody,
    /// The length bytes of the response are due.
    ReadLength,
    /// The body of the response is due.
    ReadBody,
    /// The call is over.
    Done,
}

/// A call to the sandbox `name`: the verb, and the uid whose sandbox it must be.
pub struct ControlCall {
    pub name: String,
    pub verb: String,
    pub my_uid: u32,
    pub stage: CallStage,
}

/// What happened. Failures that end a call come with the system's words.
pub enum CallEvent {
    /// The address was made.
    Addressed(Result<(), String>),
    /// The connection was made, to a listener of this uid as far as it is known.
    Connected(Result<Option<u32>, IoError>),
    /// The read timeout was set.
    ReadTimeoutSet(Result<(), String>),
    /// The write timeout was set.
    WriteTimeoutSet(Result<(), String>),
    /// The length bytes were sent.
    LengthSent(Result<(), String>),
    /// The body was sent.
    BodySent(Result<(), String>),
    /// The length bytes of the response were read.
    LengthRead(Result<[u8; 4], IoError>),
    /// The body of the response was read; the response in it, or the reader's
    /// error.
    BodyRead(Result<Result<ControlResponse, String>, IoError>),
}

/// What to do next.
pub enum CallAction {
    /// Connect to the address.
    Connect,
    /// Let reads fail after so many seconds.
    SetReadTimeout(u64),
    /// Let writes fail after so many seconds.
    SetWriteTimeout(u64),
    /// Send these length bytes.
    SendLength([u8; 4]),
    /// Send this body.
    SendBody(Vec<u8>),
    /// Read the length bytes of the response.
    ReadLength,
    /// Read a body of this many bytes.
    ReadBody(usize),
    /// Nothing more: this is the outcome.
    Finish(Result<ControlResponse, String>),
}

/// Why a read from the sandbox failed.
pub open spec fn read_failure(name: Seq<char>, e: IoError) -> Seq<char> {
    match e.kind {
        IoErrorKind::WouldBlock | IoErrorKind::TimedOut => "sandbox '"@ + name
            + "' is unresponsive"@,
        _ => "read from sandbox '"@ + name + "': "@ + e.message@,
    }
}

/// Why no connection could be made.
pub open spec fn connect_failure(name: Seq<char>, e: IoError) -> Seq<char> {
    match e.kind {
        IoErrorKind::ConnectionRefused => "no sandbox named '"@ + name + "'"@,
        _ => "connect to sandbox '"@ + name + "': "@ + e.message@,
    }
}

/// The body of a request: its JSON text.
pub open spec fn request_text(verb: Seq<char>, args: serde_json::Value) -> Seq<u8> {
    encode_utf8("{\"args\":"@) + crate::json::json_text(args) + encode_utf8(
        ",\"v\":1,\"verb\":"@ + crate::json::string_text(verb) + "}"@,
    )
}

/// The event is the one that the stage waits for.
pub open spec fn expects(stage: CallStage, event: CallEvent) -> bool {
    match stage {
        CallStage::Address(_) => event is Addressed,
        CallStage::Connect(_) => event is Connected,
        CallStage::ReadTimeout(_) => event is ReadTimeoutSet,
        CallStage::WriteTimeout(_) => event is WriteTimeoutSet,
        CallStage::SendLength(_) => event is LengthSent,
        CallStage::SendBody => event is BodySent,
        CallStage::ReadLength => event is LengthRead,
        CallStage::ReadBody => event is BodyRead,
        CallStage::Done => false,
    }
}

/// The event is of the kind that reports how the action went. Nothing comes after
/// the outcome.
pub open spec fn reports_on(action: CallAction, event: CallEvent) -> bool {
    match action {
        CallAction::Connect => event is Connected,
        CallAction::SetReadTimeout(_) => event is ReadTimeoutSet,
        CallAction::SetWriteTimeout(_) => event is WriteTimeoutSet,
        CallAction::SendLength(_) => event is LengthSent,
        CallAction::SendBody(_) => event is BodySent,
        CallAction::ReadLength => event is LengthRead,
        CallAction::ReadBody(_) => event is BodyRead,
        CallAction::Finish(_) => false,
    }
}

/// The call ends without a response, for `why`.
pub open spec fn fails(after: CallStage, action: CallAction, why: Seq<char>) -> bool {
    after is Done && (action matches CallAction::Finish(Err(e)) && e@ == why)
}

/// One step of a call: the stage after it, and what to do.
pub open spec fn call_step(
    call: ControlCall,
    event: CallEvent,
    after: CallStage,
    action: CallAction,
) -> bool {
    let name = call.name@;
    match (call.stage, event) {
        (CallStage::Address(args), CallEvent::Addressed(Ok(_))) => after == CallStage::Connect(args)
            && action is Connect,
        (CallStage::Address(_), CallEvent::Addressed(Err(e))) => fails(
            after,
            action,
            "socket address for '"@ + name + "': "@ + e@,
        ),
        (CallStage::Connect(args), CallEvent::Connected(Ok(peer))) => if peer == Some(call.my_uid) {
            after == CallStage::ReadTimeout(args) && action == CallAction::SetReadTimeout(
                CALL_TIMEOUT_SECS,
            )
        } else {
            fails(after, action, "socket for '"@ + name + "' is owned by another user"@)
        },
        (CallStage::Connect(_), CallEvent::Connected(Err(e))) => fails(
            after,
            action,
            connect_failure(name, e),
        ),
        (CallStage::ReadTimeout(args), CallEvent::ReadTimeoutSet(Ok(_))) => after
            == CallStage::WriteTimeout(args) && action == CallAction::SetWriteTimeout(
            CALL_TIMEOUT_SECS,
        ),
        (CallStage::ReadTimeout(_), CallEvent::ReadTimeoutSet(Err(e))) => fails(
            after,
            action,
            "set_read_timeout: "@ + e@,
        ),
        (CallStage::WriteTimeout(args), CallEvent::WriteTimeoutSet(Ok(_))) => {
            &&& after matches CallStage::SendLength(body) && body@ == request_text(call.verb@, args)
            &&& action matches CallAction::SendLength(prefix) && prefix@
                == crate::frame::prefix_bytes(request_text(call.verb@, args).len())
        },
        (CallStage::WriteTimeout(_), CallEvent::WriteTimeoutSet(Err(e))) => fails(
            after,
            action,
            "set_write_timeout: "@ + e@,
        ),
        (CallStage::SendLength(body), CallEvent::LengthSent(Ok(_))) => after is SendBody && action
            == CallAction::SendBody(body),
        (CallStage::SendLength(_), CallEvent::LengthSent(Err(e))) => fails(
            after,
            action,
            "write len: "@ + e@,
        ),
        (CallStage::SendBody, CallEvent::BodySent(Ok(_))) => after is ReadLength
            && action is ReadLength,
        (CallStage::SendBody, CallEvent::BodySent(Err(e))) => fails(
            after,
            action,
            "write body: "@ + e@,
        ),
        (CallStage::ReadLength, CallEvent::LengthRead(Ok(prefix))) => match crate::frame::accepted(
            prefix@,
        ) {
            Some(n) => after is ReadBody && action == CallAction::ReadBody(n as usize),
            None => fails(after, action, "response too large"@),
        },
        (CallStage::ReadLength, CallEvent::LengthRead(Err(e))) => fails(
            after,
            action,
            read_failure(name, e),
        ),
        (CallStage::ReadBody, CallEvent::BodyRead(Ok(Ok(resp)))) => after is Done && action
            == CallAction::Finish(Ok(resp)),
        (CallStage::ReadBody, CallEvent::BodyRead(Ok(Err(e)))) => fails(
            after,
            action,
            "parse response: "@ + e@,
        ),
        (CallStage::ReadBody, CallEvent::BodyRead(Err(e))) => fails(
            after,
            action,
            read_failure(name, e),
        ),
        _ => false,
    }
}

/// Says why a read from a sandbox failed: a timeout means that the sandbox does
/// not respond.
pub fn unresponsive(name: &str, e: IoError) -> (why: String)
    ensures
        why@ == read_failure(name@, e),
        e.kind is WouldBlock || e.kind is TimedOut ==> why@ == "sandbox '"@ + name@
            + "' is unresponsive"@,
        !(e.kind is WouldBlock || e.kind is TimedOut) ==> why@ == "read from sandbox '"@ + name@
            + "': "@ + e.message@,
{
    match e.kind {
        IoErrorKind::WouldBlock | IoErrorKind::TimedOut => about(
            "sandbox '",
            name,
            "' is unresponsive",
        ),
        _ => message(about("read from sandbox '", name, "': ").as_str(), e.message.as_str()),
    }
}

/// Says why no connection could be made: nobody listens under the name, or the
/// system's words.
fn unconnected(name: &str, e: IoError) -> (why: String)
    ensures
        why@ == connect_failure(name@, e),
{
    match e.kind {
        IoErrorKind::ConnectionRefused => about("no sandbox named '", name, "'"),
        _ => message(about("connect to sandbox '", name, "': ").as_str(), e.message.as_str()),
    }
}

/// The body of a request.
fn request_body(verb: &str, args: serde_json::Value) -> (r: Result<Vec<u8>, String>)
    ensures
        r is Ok,
        r->Ok_0@ == request_text(verb@, args),
{
    let v = number(PROTOCOL_VERSION as i64);
    let asked = text_or_null(Some(verb.to_string()));
    let ghost (version, what) = (v, asked);
    let mut members = no_members();
    set_member(&mut members, "v".to_string(), v);
    set_member(&mut members, "verb".to_string(), asked);
    set_member(&mut members, "args".to_string(), args);
    proof {
        reveal_strlit("v");
        reveal_strlit("verb");
        reveal_strlit("args");
        assert("v"@.len() == 1 && "verb"@.len() == 4 && "args"@.len() == 4);
        assert("verb"@[0] != "args"@[0]);
        the_request_is_written_out(verb@, args, version, what, crate::json::members_of(members));
    }
    to_vec(&object(members))
}

/// The members of a request, in the order of their names, come to its text.
proof fn the_request_is_written_out(
    verb: Seq<char>,
    args: serde_json::Value,
    v: serde_json::Value,
    asked: serde_json::Value,
    members: Map<Seq<char>, serde_json::Value>,
)
    requires
        crate::json::is_written_as(v, crate::text::signed_decimal(PROTOCOL_VERSION as int)),
        crate::json::is_written_as(asked, crate::json::string_text(verb)),
        members.dom() =~= set!["v"@, "verb"@, "args"@],
        members["v"@] == v,
        members["verb"@] == asked,
        members["args"@] == args,
    ensures
        crate::json::is_listing(seq![("args"@, args), ("v"@, v), ("verb"@, asked)], members),
        crate::json::object_text(seq![("args"@, args), ("v"@, v), ("verb"@, asked)])
            == request_text(verb, args),
{
    let none = Seq::<(Seq<char>, serde_json::Value)>::empty();
    let list = seq![("args"@, args), ("v"@, v), ("verb"@, asked)];
    let l1 = seq![("args"@, args)];
    let l2 = seq![("args"@, args), ("v"@, v)];
    reveal_strlit("v");
    reveal_strlit("verb");
    reveal_strlit("args");
    reveal_strlit("{\"args\":");
    reveal_strlit(",\"v\":1,\"verb\":");
    reveal_strlit("}");
    crate::order::ascii_texts_compare_by_character("args"@, "v"@);
    crate::order::ascii_texts_compare_by_character("args"@, "verb"@);
    crate::order::ascii_texts_compare_by_character("v"@, "verb"@);
    assert(list[0].0 == "args"@ && list[1].0 == "v"@ && list[2].0 == "verb"@);
    crate::json::members_text_grows(none, "args"@, args);
    crate::json::members_text_grows(l1, "v"@, v);
    crate::json::members_text_grows(l2, "verb"@, asked);
    assert(none.push(("args"@, args)) =~= l1);
    assert(l1.push(("v"@, v)) =~= l2);
    assert(l2.push(("verb"@, asked)) =~= list);
    crate::json::plain_text_is_not_escaped("args"@);
    crate::json::plain_text_is_not_escaped("v"@);
    crate::json::plain_text_is_not_escaped("verb"@);
    let h1 = crate::json::member_head("args"@, true);
    let h2 = crate::json::member_head("v"@, false);
    let h3 = crate::json::member_head("verb"@, false);
    let one = crate::text::signed_decimal(PROTOCOL_VERSION as int);
    let what = crate::json::string_text(verb);
    assert(one =~= seq!['1']);
    assert(seq!['{'] + h1 =~= "{\"args\":"@);
    assert(h2 + one + h3 =~= ",\"v\":1,\"verb\":"@);
    assert("}"@ =~= seq!['}']);
    crate::text::encode_utf8_concat(seq!['{'], h1);
    crate::text::encode_utf8_concat(h2, one);
    crate::text::encode_utf8_concat(h2 + one, h3);
    crate::text::encode_utf8_concat(h2 + one + h3, what);
    crate::text::encode_utf8_concat(h2 + one + h3 + what, "}"@);
    assert(crate::json::object_text(list) =~= request_text(verb, args));
}

/// Begins a call: asks the sandbox `name` of `my_uid` for `verb`. The first thing
/// due is the address of its socket.
pub fn send_control_request(
    name: &str,
    verb: &str,
    args: serde_json::Value,
    my_uid: u32,
) -> (call: ControlCall)
    ensures
        call.name@ == name@,
        call.verb@ == verb@,
        call.my_uid == my_uid,
        call.stage == CallStage::Address(args),
{
    ControlCall {
        name: name.to_string(),
        verb: verb.to_string(),
        my_uid,
        stage: CallStage::Address(args),
    }
}

/// Begins the call that asks the sandbox `name` of `my_uid` for its pids and mode:
/// the verb is `info`, without arguments.
pub fn info_request(name: &str, my_uid: u32) -> (call: ControlCall)
    ensures
        call.name@ == name@,
        call.verb@ == "info"@,
        call.my_uid == my_uid,
        call.stage == CallStage::Address(crate::json::object_value(Map::empty())),
        request_text(call.verb@, crate::json::object_value(Map::empty())) == encode_utf8(
            "{\"args\":{},\"v\":1,\"verb\":\"info\"}"@,
        ),
{
    let members = no_members();
    assert(crate::json::members_of(members) =~= Map::empty());
    let args = object(members);
    proof {
        let none = Seq::<(Seq<char>, serde_json::Value)>::empty();
        let tail = ",\"v\":1,\"verb\":"@ + crate::json::string_text("info"@) + "}"@;
        reveal_strlit("info");
        reveal_strlit("{\"args\":");
        reveal_strlit(",\"v\":1,\"verb\":");
        reveal_strlit("}");
        reveal_strlit("{\"args\":{},\"v\":1,\"verb\":\"info\"}");
        assert(crate::json::is_listing(none, Map::empty()));
        assert(crate::json::json_text(args) =~= encode_utf8(seq!['{']) + encode_utf8(seq!['}']));
        crate::json::plain_text_is_not_escaped("info"@);
        crate::text::encode_utf8_concat(seq!['{'], seq!['}']);
        crate::text::encode_utf8_concat("{\"args\":"@, seq!['{'] + seq!['}']);
        crate::text::encode_utf8_concat("{\"args\":"@ + (seq!['{'] + seq!['}']), tail);
        assert("{\"args\":"@ + (seq!['{'] + seq!['}']) + tail
            =~= "{\"args\":{},\"v\":1,\"verb\":\"info\"}"@);
    }
    send_control_request(name, "info", args, my_uid)
}

/// The outcome of a call that ends without a response.
fn failed(why: String) -> (r: (CallStage, CallAction))
    ensures
        fails(r.0, r.1, why@),
{
    (CallStage::Done, CallAction::Finish(Err(why)))
}

/// Goes on with the body of the request as the JSON writer made it: its length is
/// sent first and the body kept for later. Without a body the call ends.
pub fn send_body(written: Result<Vec<u8>, String>) -> (r: (CallStage, CallAction))
    ensures
        match written {
            Ok(body) => {
                &&& r.0 == CallStage::SendLength(body)
                &&& r.1 matches CallAction::SendLength(prefix) && prefix@
                    == crate::frame::prefix_bytes(body@.len())
            },
            Err(e) => fails(r.0, r.1, "serialize request: "@ + e@),
        },
{
    match written {
        Ok(body) => {
            let prefix = length_prefix(&body);
            (CallStage::SendLength(body), CallAction::SendLength(prefix))
        },
        Err(e) => failed(message("serialize request: ", e.as_str())),
    }
}

impl ControlCall {
    /// Whether the call waits for an event of this kind.
    pub fn awaits(&self, event: &CallEvent) -> (r: bool)
        ensures
            r == expects(self.stage, *event),
    {
        match (&self.stage, event) {
            (CallStage::Address(_), CallEvent::Addressed(_)) => true,
            (CallStage::Connect(_), CallEvent::Connected(_)) => true,
            (CallStage::ReadTimeout(_), CallEvent::ReadTimeoutSet(_)) => true,
            (CallStage::WriteTimeout(_), CallEvent::WriteTimeoutSet(_)) => true,
            (CallStage::SendLength(_), CallEvent::LengthSent(_)) => true,
            (CallStage::SendBody, CallEvent::BodySent(_)) => true,
            (CallStage::ReadLength, CallEvent::LengthRead(_)) => true,
            (CallStage::ReadBody, CallEvent::BodyRead(_)) => true,
            _ => false,
        }
    }

    /// One step of the call. The peer credentials of a connected stream are the
    /// listener's, so a name taken by another user is turned down before anything
    /// is sent.
    pub fn step(self, event: CallEvent) -> (r: (ControlCall, CallAction))
        requires
            expects(self.stage, event),
        ensures
            r.0.name == self.name,
            r.0.verb == self.verb,
            r.0.my_uid == self.my_uid,
            call_step(self, event, r.0.stage, r.1),
    {
        let ControlCall { name, verb, my_uid, stage } = self;
        let (stage, action): (CallStage, CallAction) = match (stage, event) {
            (CallStage::Address(args), CallEvent::Addressed(outcome)) => match outcome {
                Ok(_) => (CallStage::Connect(args), CallAction::Connect),
                Err(e) => {
                    let where_to = about("socket address for '", name.as_str(), "': ");
                    failed(message(where_to.as_str(), e.as_str()))
                },
            },
            (CallStage::Connect(args), CallEvent::Connected(outcome)) => match outcome {
                Ok(peer) => {
                    let own: bool = match peer {
                        Some(uid) => uid == my_uid,
                        None => false,
                    };
                    if own {
                        (
                            CallStage::ReadTimeout(args),
                            CallAction::SetReadTimeout(CALL_TIMEOUT_SECS),
                        )
                    } else {
                        failed(about("socket for '", name.as_str(), "' is owned by another user"))
                    }
                },
                Err(e) => failed(unconnected(name.as_str(), e)),
            },
            (CallStage::ReadTimeout(args), CallEvent::ReadTimeoutSet(outcome)) => match outcome {
                Ok(_) => (
                    CallStage::WriteTimeout(args),
                    CallAction::SetWriteTimeout(CALL_TIMEOUT_SECS),
                ),
                Err(e) => failed(message("set_read_timeout: ", e.as_str())),
            },
            (CallStage::WriteTimeout(args), CallEvent::WriteTimeoutSet(outcome)) => match outcome {
                Ok(_) => send_body(request_body(verb.as_str(), args)),
                Err(e) => failed(message("set_write_timeout: ", e.as_str())),
            },
            (CallStage::SendLength(body), CallEvent::LengthSent(outcome)) => match outcome {
                Ok(_) => (CallStage::SendBody, CallAction::SendBody(body)),
                Err(e) => failed(message("write len: ", e.as_str())),
            },
            (CallStage::SendBody, CallEvent::BodySent(outcome)) => match outcome {
                Ok(_) => (CallStage::ReadLength, CallAction::ReadLength),
                Err(e) => failed(message("write body: ", e.as_str())),
            },
            (CallStage::ReadLength, CallEvent::LengthRead(outcome)) => match outcome {
                Ok(prefix) => match accepted_len(prefix) {
                    Some(n) => (CallStage::ReadBody, CallAction::ReadBody(n)),
                    None => failed("response too large".to_string()),
                },
                Err(e) => failed(unresponsive(name.as_str(), e)),
            },
            (CallStage::ReadBody, CallEvent::BodyRead(outcome)) => match outcome {
                Ok(parsed) => match parsed {
                    Ok(resp) => (CallStage::Done, CallAction::Finish(Ok(resp))),
                    Err(e) => failed(message("parse response: ", e.as_str())),
                },
                Err(e) => failed(unresponsive(name.as_str(), e)),
            },
            _ => {
                assert(false);
                failed(String::new())
            },
        };
        (ControlCall { name, verb, my_uid, stage }, action)
    }
}

/// What becomes of the reply to `info`: `parse` reads the data of a granted
/// request.
pub open spec fn info_outcome<F>(
    reply: Result<ControlResponse, String>,
    parse: F,
    r: Result<SandboxInfo, String>,
) -> bool where F: FnOnce(serde_json::Value) -> Result<SandboxInfo, String> {
    match reply {
        Err(e) => r matches Err(why) && why@ == e@,
        Ok(resp) => if !resp.ok {
            r matches Err(why) && why@ == (match resp.err {
                Some(err) => err@,
                None => "info failed"@,
            })
        } else {
            match resp.data {
                None => r matches Err(why) && why@ == "empty info response"@,
                Some(data) => exists|parsed: Result<SandboxInfo, String>| #[trigger]
                    call_ensures(parse, (data,), parsed) && match parsed {
                        Ok(info) => r == Ok::<SandboxInfo, String>(info),
                        Err(e) => r matches Err(why) && why@ == "parse info response: "@ + e@,
                    },
            }
        },
    }
}

/// Makes the pids and the mode of a sandbox of its reply to `info`. `parse` reads
/// them from the data of the response.
pub fn sandbox_info<F>(reply: Result<ControlResponse, String>, parse: F) -> (r: Result<
    SandboxInfo,
    String,
>) where F: FnOnce(serde_json::Value) -> Result<SandboxInfo, String>
    requires
        forall|data: serde_json::Value| call_requires(parse, (data,)),
    ensures
        info_outcome(reply, parse, r),
        reply matches Err(e) ==> r == Err::<SandboxInfo, String>(e),
        r matches Ok(info) ==> (reply matches Ok(resp) && resp.ok && (resp.data matches Some(data)
            && call_ensures(parse, (data,), Ok::<SandboxInfo, String>(info)))),
{
    let resp = match reply {
        Ok(resp) => resp,
        Err(e) => {
            return Err(e);
        },
    };
    if !resp.ok {
        return Err(
            match resp.err {
                Some(err) => err,
                None => "info failed".to_string(),
            },
        );
    }
    match resp.data {
        None => Err("empty info response".to_string()),
        Some(data) => match parse(data) {
            Ok(info) => Ok(info),
            Err(e) => Err(message("parse info response: ", e.as_str())),
        },
    }
}

/// A call from its beginning: the stages it goes through, and at each what
/// happened and what was done.
pub open spec fn is_call(
    first: ControlCall,
    calls: Seq<ControlCall>,
    events: Seq<CallEvent>,
    actions: Seq<CallAction>,
) -> bool {
    &&& calls.len() == events.len() + 1
    &&& actions.len() == events.len()
    &&& calls[0] == first
    &&& first.stage is Address
    &&& forall|i: int|
        0 <= i < events.len() ==> {
            &&& calls[i + 1].name == calls[i].name
            &&& calls[i + 1].verb == calls[i].verb
            &&& calls[i + 1].my_uid == calls[i].my_uid
            &&& call_step(calls[i], #[trigger] events[i], calls[i + 1].stage, actions[i])
        }
}

/// Whoever performs what a step asks for, and hands back the event that reports on
/// it, hands back what the call waits for: after a step the call expects the events
/// that report on its action, and no others. A call that begins expects to hear of
/// its address.
pub proof fn the_event_of_an_action_is_expected(
    call: ControlCall,
    event: CallEvent,
    after: CallStage,
    action: CallAction,
    next: CallEvent,
)
    requires
        call_step(call, event, after, action),
    ensures
        expects(call.stage, event),
        expects(after, next) <==> reports_on(action, next),
        call.stage is Address ==> (expects(call.stage, next) <==> next is Addressed),
{
}

/// A stage that lies behind the check of the listener's uid.
pub open spec fn is_behind_the_check(stage: CallStage) -> bool {
    !(stage is Address || stage is Connect || stage is Done)
}

/// An action that puts bytes on the wire.
pub open spec fn sends(action: CallAction) -> bool {
    action is SendLength || action is SendBody
}

/// The listener was found to be the caller's own.
pub open spec fn finds_own_listener(event: CallEvent, my_uid: u32) -> bool {
    event matches CallEvent::Connected(Ok(peer)) && peer == Some(my_uid)
}

/// Every stage behind the check has an event before it that passed the check.
proof fn the_check_comes_first(
    first: ControlCall,
    calls: Seq<ControlCall>,
    events: Seq<CallEvent>,
    actions: Seq<CallAction>,
    i: int,
)
    requires
        is_call(first, calls, events, actions),
        0 <= i < calls.len(),
    ensures
        calls[i].my_uid == first.my_uid,
        calls[i].name == first.name,
        is_behind_the_check(calls[i].stage) ==> exists|k: int|
            0 <= k < i && finds_own_listener(#[trigger] events[k], first.my_uid),
    decreases i,
{
    if i > 0 {
        the_check_comes_first(first, calls, events, actions, i - 1);
        let last = i - 1;
        assert(call_step(calls[last], events[last], calls[last + 1].stage, actions[last]));
        if is_behind_the_check(calls[i].stage) {
            if is_behind_the_check(calls[last].stage) {
                let k = choose|k: int|
                    0 <= k < last && finds_own_listener(#[trigger] events[k], first.my_uid);
                assert(0 <= k < i && finds_own_listener(events[k], first.my_uid));
            } else {
                assert(finds_own_listener(events[last], first.my_uid));
            }
        }
    }
}

/// Nothing is sent to another user: a call puts bytes on the wire only after it
/// has found the listener to be of its own uid.
pub proof fn nothing_is_sent_to_another_uid(
    first: ControlCall,
    calls: Seq<ControlCall>,
    events: Seq<CallEvent>,
    actions: Seq<CallAction>,
    i: int,
)
    requires
        is_call(first, calls, events, actions),
        0 <= i < events.len(),
        sends(actions[i]),
    ensures
        exists|k: int| 0 <= k < i && finds_own_listener(#[trigger] events[k], first.my_uid),
{
    the_check_comes_first(first, calls, events, actions, i);
    assert(call_step(calls[i], events[i], calls[i + 1].stage, actions[i]));
}

/// A response is returned only where one was read from a listener of the own
/// uid, and it is returned as it was read.
pub proof fn a_response_comes_from_the_own_uid(
    first: ControlCall,
    calls: Seq<ControlCall>,
    events: Seq<CallEvent>,
    actions: Seq<CallAction>,
    i: int,
    resp: ControlResponse,
)
    requires
        is_call(first, calls, events, actions),
        0 <= i < events.len(),
        actions[i] == CallAction::Finish(Ok(resp)),
    ensures
        events[i] == CallEvent::BodyRead(Ok(Ok(resp))),
        exists|k: int| 0 <= k < i && finds_own_listener(#[trigger] events[k], first.my_uid),
{
    the_check_comes_first(first, calls, events, actions, i);
    assert(call_step(calls[i], events[i], calls[i + 1].stage, actions[i]));
}

/// A listener of another uid, or of an unknown one, ends the call at once, with
/// the reason.
pub proof fn another_uid_ends_the_call(
    call: ControlCall,
    peer: Option<u32>,
    after: CallStage,
    action: CallAction,
)
    requires
        call.stage is Connect,
        peer != Some(call.my_uid),
        call_step(call, CallEvent::Connected(Ok(peer)), after, action),
    ensures
        after is Done,
        action matches CallAction::Finish(Err(why)) && why@ == "socket for '"@ + call.name@
            + "' is owned by another user"@,
{
}

/// The request goes out as one frame: the length bytes and the body that a call
/// sends are those of the JSON text of its verb and arguments.
pub proof fn the_request_goes_out_framed(
    call: ControlCall,
    args: serde_json::Value,
    then: ControlCall,
    prefix: [u8; 4],
    after: CallStage,
    body: Vec<u8>,
)
    requires
        call.stage == CallStage::WriteTimeout(args),
        call_step(
            call,
            CallEvent::WriteTimeoutSet(Ok(())),
            then.stage,
            CallAction::SendLength(prefix),
        ),
        call_step(then, CallEvent::LengthSent(Ok(())), after, CallAction::SendBody(body)),
    ensures
        body@ == request_text(call.verb@, args),
        prefix@ + body@ == crate::frame::framed(body@),
{
}

/// A call in which nothing goes wrong sends the request and returns the response
/// that was read.
pub proof fn an_undisturbed_call_returns_the_response(
    first: ControlCall,
    args: serde_json::Value,
    calls: Seq<ControlCall>,
    events: Seq<CallEvent>,
    actions: Seq<CallAction>,
    prefix: [u8; 4],
    resp: ControlResponse,
)
    requires
        is_call(first, calls, events, actions),
        first.stage == CallStage::Address(args),
        crate::frame::announced(prefix@) <= crate::frame::MAX_BODY_BYTES,
        events.len() == 8,
        events[0] == CallEvent::Addressed(Ok(())),
        events[1] == CallEvent::Connected(Ok(Some(first.my_uid))),
        events[2] == CallEvent::ReadTimeoutSet(Ok(())),
        events[3] == CallEvent::WriteTimeoutSet(Ok(())),
        events[4] == CallEvent::LengthSent(Ok(())),
        events[5] == CallEvent::BodySent(Ok(())),
        events[6] == CallEvent::LengthRead(Ok(prefix)),
        events[7] == CallEvent::BodyRead(Ok(Ok(resp))),
    ensures
        actions[3] matches CallAction::SendLength(sent) && sent@ == crate::frame::prefix_bytes(
            request_text(first.verb@, args).len(),
        ),
        actions[4] matches CallAction::SendBody(sent) && sent@ == request_text(
            first.verb@,
            args,
        ),
        actions[6] == CallAction::ReadBody(crate::frame::announced(prefix@) as usize),
        actions[7] == CallAction::Finish(Ok(resp)),
{
}

/// The server gets what the client sent: a request within the cap is taken whole,
/// and answered by its verb. `read` is the reader of requests, for one that it reads
/// back from its own text.
pub proof fn a_sent_request_is_answered(
    call: ControlCall,
    args: serde_json::Value,
    after: CallStage,
    prefix: [u8; 4],
    read: spec_fn(Seq<u8>) -> Result<ControlRequest, String>,
    info: SandboxInfo,
    stage: ServeStage,
    asked: ServeAction,
    last: ServeStage,
    reply: ServeAction,
)
    requires
        call.stage == CallStage::WriteTimeout(args),
        request_text(call.verb@, args).len() <= crate::frame::MAX_BODY_BYTES,
        read(request_text(call.verb@, args)) matches Ok(request) && request.v == PROTOCOL_VERSION
            && request.verb@ == call.verb@,
        call_step(
            call,
            CallEvent::WriteTimeoutSet(Ok(())),
            after,
            CallAction::SendLength(prefix),
        ),
        crate::server::serve_step(
            ServeStage::Length,
            ServeEvent::LengthRead(prefix),
            info,
            stage,
            asked,
        ),
        crate::server::serve_step(
            stage,
            ServeEvent::BodyRead(read(request_text(call.verb@, args))),
            info,
            last,
            reply,
        ),
    ensures
        asked == ServeAction::ReadBody(request_text(call.verb@, args).len() as usize),
        last is Done,
        crate::server::answers(read(request_text(call.verb@, args)), info, reply),
        call.verb@ == "info"@ ==> (reply matches ServeAction::Reply(resp)
            && crate::protocol::reports_info(resp, info)),
        call.verb@ == "config"@ ==> reply is ReplyConfig,
        call.verb@ == "ports"@ ==> reply is ReplyPorts,
{
    let body = request_text(call.verb@, args);
    crate::frame::a_frame_reads_back(body);
    assert(crate::frame::framed(body).take(4) =~= prefix@);
    reveal_strlit("info");
    reveal_strlit("config");
    reveal_strlit("ports");
    assert("info"@.len() == 4 && "config"@.len() == 6 && "ports"@.len() == 5);
}

/// Two reports of a sandbox say the same.
pub open spec fn same_info(a: SandboxInfo, b: SandboxInfo) -> bool {
    &&& a.child_pid == b.child_pid
    &&& a.supervisor_pid == b.supervisor_pid
    &&& crate::protocol::text_of(a.mode) == crate::protocol::text_of(b.mode)
}

/// What `info` reported comes back: from a response that grants the report of a
/// sandbox, a reader that reads such reports back makes that report.
pub proof fn reported_info_comes_back<F>(
    info: SandboxInfo,
    resp: ControlResponse,
    parse: F,
    r: Result<SandboxInfo, String>,
) where F: FnOnce(serde_json::Value) -> Result<SandboxInfo, String>
    requires
        crate::protocol::grants(
            resp,
            crate::json::object_value(crate::protocol::info_members(info)),
        ),
        forall|parsed: Result<SandboxInfo, String>| #[trigger]
            call_ensures(
                parse,
                (crate::json::object_value(crate::protocol::info_members(info)),),
                parsed,
            ) ==> (parsed matches Ok(read) && same_info(read, info)),
        info_outcome(Ok(resp), parse, r),
    ensures
        r matches Ok(read) && same_info(read, info),
{
}

/// Two responses say the same.
pub open spec fn same_response(a: ControlResponse, b: ControlResponse) -> bool {
    &&& a.v == b.v
    &&& a.ok == b.ok
    &&& a.data == b.data
    &&& crate::protocol::text_of(a.err) == crate::protocol::text_of(b.err)
}

/// `read` reads this response back from its own text.
pub open spec fn reads_back(
    read: spec_fn(Seq<u8>) -> Result<ControlResponse, String>,
    resp: ControlResponse,
) -> bool {
    read(crate::protocol::response_text(resp)) matches Ok(r) && same_response(r, resp)
}

/// `read` reads refusals back from their texts.
pub open spec fn reads_refusals(
    read: spec_fn(Seq<u8>) -> Result<ControlResponse, String>,
) -> bool {
    forall|why: Seq<char>|
        crate::json::is_plain(why) ==> (read(
            encode_utf8(#[trigger] crate::protocol::refusal_text(why)),
        ) matches Ok(r) && crate::protocol::refuses(r, why))
}

/// What arrives for a response: the response, or the refusal in its place.
pub open spec fn arrives(resp: ControlResponse, r: ControlResponse) -> bool {
    let n = crate::protocol::response_text(resp).len();
    if n <= crate::frame::MAX_BODY_BYTES {
        same_response(r, resp)
    } else {
        crate::protocol::refuses(r, crate::protocol::too_large(n))
    }
}

/// The client gets what the server sent: a call that reads, from a listener it has
/// found to be its own, the bytes that go out for a response never turns them down
/// as too large, and returns the response itself, or, where its text is over the
/// cap, the refusal that says so. `read` is the reader of responses, for one that it
/// reads back from its own text. Data that is null is read as no data, so a response
/// with such data is not among them.
pub proof fn a_sent_response_arrives(
    call: ControlCall,
    then: ControlCall,
    resp: ControlResponse,
    read: spec_fn(Seq<u8>) -> Result<ControlResponse, String>,
    prefix: [u8; 4],
    asked: CallAction,
    after: CallStage,
    outcome: CallAction,
)
    requires
        call.stage is ReadLength,
        crate::protocol::is_countable(resp),
        reads_back(read, resp),
        reads_refusals(read),
        prefix@ == crate::frame::framed(crate::protocol::sent_body(resp)).take(4),
        call_step(call, CallEvent::LengthRead(Ok(prefix)), then.stage, asked),
        call_step(
            then,
            CallEvent::BodyRead(
                Ok(read(crate::frame::framed(crate::protocol::sent_body(resp)).skip(4))),
            ),
            after,
            outcome,
        ),
    ensures
        asked == CallAction::ReadBody(crate::protocol::sent_body(resp).len() as usize),
        after is Done,
        outcome matches CallAction::Finish(Ok(r)) && arrives(resp, r),
{
    crate::protocol::a_sent_body_is_within_the_cap(resp);
    crate::protocol::what_stands_in_is_a_plain_refusal(resp);
}

/// The client gets back what the server holds: the report that the server answers
/// `info` with, sent, read and unpacked, says what the server's own report says.
/// `read` is the reader of responses and `parse` that of reports. The report is within
/// the cap, as it is with every mode that is not close to the cap itself.
pub proof fn info_makes_the_round_trip<F>(
    info: SandboxInfo,
    resp: ControlResponse,
    read: spec_fn(Seq<u8>) -> Result<ControlResponse, String>,
    parse: F,
    r: Result<SandboxInfo, String>,
) where F: FnOnce(serde_json::Value) -> Result<SandboxInfo, String>
    requires
        crate::protocol::reports_info(resp, info),
        crate::protocol::response_text(resp).len() <= crate::frame::MAX_BODY_BYTES,
        reads_back(read, resp),
        forall|parsed: Result<SandboxInfo, String>| #[trigger]
            call_ensures(
                parse,
                (crate::json::object_value(crate::protocol::info_members(info)),),
                parsed,
            ) ==> (parsed matches Ok(got) && same_info(got, info)),
        info_outcome(read(crate::protocol::sent_body(resp)), parse, r),
    ensures
        r matches Ok(got) && same_info(got, info),
{
    let got = read(crate::protocol::sent_body(resp))->Ok_0;
    assert(same_response(got, resp));
}

/// A refusal is passed on: what the server gave as the reason is what the caller
/// of `sandbox_info` is told, whatever the reader would do.
pub proof fn a_refusal_is_passed_on<F>(
    why: Seq<char>,
    resp: ControlResponse,
    parse: F,
    r: Result<SandboxInfo, String>,
) where F: FnOnce(serde_json::Value) -> Result<SandboxInfo, String>
    requires
        crate::protocol::refuses(resp, why),
        info_outcome(Ok(resp), parse, r),
    ensures
        r matches Err(told) && told@ == why,
{
}

/// A call that failed is no report: what the call gave as the reason is what the
/// caller is told, word for word, whatever it says and whatever the reader would do.
pub proof fn a_failed_call_is_told_as_it_failed<F>(
    e: String,
    parse: F,
    r: Result<SandboxInfo, String>,
) where F: FnOnce(serde_json::Value) -> Result<SandboxInfo, String>
    requires
        info_outcome(Err(e), parse, r),
    ensures
        r matches Err(why) && why@ == e@,
{
}

/// A report comes from a granted response: where a caller is told of a sandbox, the
/// call brought a response that grants the request and carries data, and what is told
/// is what the reader made of that data.
pub proof fn a_report_comes_from_a_granted_response<F>(
    reply: Result<ControlResponse, String>,
    parse: F,
    info: SandboxInfo,
) where F: FnOnce(serde_json::Value) -> Result<SandboxInfo, String>
    requires
        info_outcome(reply, parse, Ok(info)),
    ensures
        reply matches Ok(resp) && resp.ok && (resp.data matches Some(data) && call_ensures(
            parse,
            (data,),
            Ok::<SandboxInfo, String>(info),
        )),
{
}

/// Where a response brings no report, the caller is told why: the server's reason, or
/// that there is none; that a granted response came without data; or what the reader
/// said of the data, and then the reader did refuse it.
pub proof fn a_response_without_a_report_is_explained<F>(
    resp: ControlResponse,
    parse: F,
    why: String,
) where F: FnOnce(serde_json::Value) -> Result<SandboxInfo, String>
    requires
        info_outcome(Ok(resp), parse, Err(why)),
    ensures
        !resp.ok && resp.err is Some ==> why@ == resp.err->Some_0@,
        !resp.ok && resp.err is None ==> why@ == "info failed"@,
        resp.ok && resp.data is None ==> why@ == "empty info response"@,
        resp.ok && resp.data is Some ==> exists|e: String| #[trigger]
            call_ensures(parse, (resp.data->Some_0,), Err::<SandboxInfo, String>(e)) && why@
                == "parse info response: "@ + e@,
{
    if resp.ok && resp.data is Some {
        let parsed = choose|parsed: Result<SandboxInfo, String>| #[trigger]
            call_ensures(parse, (resp.data->Some_0,), parsed) && match parsed {
                Ok(info) => Err::<SandboxInfo, String>(why) == Ok::<SandboxInfo, String>(info),
                Err(e) => why@ == "parse info response: "@ + e@,
            };
        assert(call_ensures(parse, (resp.data->Some_0,), Err::<SandboxInfo, String>(parsed->Err_0)));
    }
}

/// A call waits for one kind of event at each stage, whatever the event brings, and
/// for none when it is done.
pub proof fn a_call_waits_for_one_kind_of_event(stage: CallStage, event: CallEvent)
    ensures
        expects(stage, event) <==> {
            ||| stage is Address && event is Addressed
            ||| stage is Connect && event is Connected
            ||| stage is ReadTimeout && event is ReadTimeoutSet
            ||| stage is WriteTimeout && event is WriteTimeoutSet
            ||| stage is SendLength && event is LengthSent
            ||| stage is SendBody && event is BodySent
            ||| stage is ReadLength && event is LengthRead
            ||| stage is ReadBody && event is BodyRead
        },
{
}

/// A step that goes well leads to the next one and carries the arguments along: the
/// address, the connection to a listener of the own uid, a limit of two seconds on
/// reads and then on writes.
pub proof fn a_call_prepares_step_by_step(
    call: ControlCall,
    args: serde_json::Value,
    event: CallEvent,
    after: CallStage,
    action: CallAction,
)
    requires
        call_step(call, event, after, action),
    ensures
        call.stage == CallStage::Address(args) && event == CallEvent::Addressed(Ok(())) ==> after
            == CallStage::Connect(args) && action is Connect,
        call.stage == CallStage::Connect(args) && event == CallEvent::Connected(
            Ok(Some(call.my_uid)),
        ) ==> after == CallStage::ReadTimeout(args) && action == CallAction::SetReadTimeout(2),
        call.stage == CallStage::ReadTimeout(args) && event == CallEvent::ReadTimeoutSet(Ok(()))
            ==> after == CallStage::WriteTimeout(args) && action == CallAction::SetWriteTimeout(2),
{
}

/// What a request is written as: the arguments as they are written themselves, the
/// version and the verb.
pub proof fn a_request_is_written_member_by_member(verb: Seq<char>, args: serde_json::Value)
    ensures
        request_text(verb, args) == encode_utf8("{\"args\":"@) + crate::json::json_text(args)
            + encode_utf8(",\"v\":1,\"verb\":\""@) + encode_utf8(crate::json::escaped(verb))
            + encode_utf8("\"}"@),
{
    let a = ",\"v\":1,\"verb\":\""@;
    let inner = crate::json::escaped(verb);
    reveal_strlit(",\"v\":1,\"verb\":");
    reveal_strlit(",\"v\":1,\"verb\":\"");
    reveal_strlit("}");
    reveal_strlit("\"}");
    assert(",\"v\":1,\"verb\":"@ + crate::json::string_text(verb) + "}"@ =~= a + inner + "\"}"@);
    crate::text::encode_utf8_concat(a, inner);
    crate::text::encode_utf8_concat(a + inner, "\"}"@);
}

/// The request is sent as it is written: first four bytes that spell its length in
/// base 256, the most significant first, then the text itself, and only then is a
/// response awaited.
pub proof fn a_request_is_sent_as_it_is_written(
    call: ControlCall,
    args: serde_json::Value,
    body: Vec<u8>,
    event: CallEvent,
    after: CallStage,
    action: CallAction,
)
    requires
        call_step(call, event, after, action),
    ensures
        call.stage == CallStage::WriteTimeout(args) && event == CallEvent::WriteTimeoutSet(Ok(()))
            ==> {
            &&& after matches CallStage::SendLength(text) && text@ == request_text(call.verb@, args)
            &&& action matches CallAction::SendLength(prefix) && ((prefix@[0] * 256 + prefix@[1])
                * 256 + prefix@[2]) * 256 + prefix@[3] == request_text(call.verb@, args).len()
                % 4294967296
        },
        call.stage == CallStage::SendLength(body) && event == CallEvent::LengthSent(Ok(()))
            ==> after is SendBody && action == CallAction::SendBody(body),
        call.stage is SendBody && event == CallEvent::BodySent(Ok(())) ==> after is ReadLength
            && action is ReadLength,
{
    crate::frame::length_bytes_are_big_endian(request_text(call.verb@, args).len());
}

/// As many bytes of response are read as were announced, up to 65536; a longer one is
/// turned down. What was read as a response is the outcome, untouched.
pub proof fn a_response_is_read_as_announced(
    call: ControlCall,
    prefix: [u8; 4],
    resp: ControlResponse,
    event: CallEvent,
    after: CallStage,
    action: CallAction,
)
    requires
        call_step(call, event, after, action),
    ensures
        call.stage is ReadLength && event == CallEvent::LengthRead(Ok(prefix)) ==> {
            let n = ((prefix@[0] * 256 + prefix@[1]) * 256 + prefix@[2]) * 256 + prefix@[3];
            &&& n <= 65536 ==> after is ReadBody && (action matches CallAction::ReadBody(m) && m
                == n)
            &&& n > 65536 ==> after is Done && (action matches CallAction::Finish(Err(why)) && why@
                == "response too large"@)
        },
        call.stage is ReadBody && event == CallEvent::BodyRead(Ok(Ok(resp))) ==> after is Done
            && action == CallAction::Finish(Ok(resp)),
{
}

/// A failure ends the call, and the outcome says which step failed and why, in the
/// words that came with it, about the sandbox that was asked.
pub proof fn a_failure_ends_the_call_in_words(
    call: ControlCall,
    e: String,
    event: CallEvent,
    after: CallStage,
    action: CallAction,
)
    requires
        call_step(call, event, after, action),
        event == CallEvent::Addressed(Err(e)) || event == CallEvent::ReadTimeoutSet(Err(e)) || event
            == CallEvent::WriteTimeoutSet(Err(e)) || event == CallEvent::LengthSent(Err(e)) || event
            == CallEvent::BodySent(Err(e)) || event == CallEvent::BodyRead(Ok(Err(e))),
    ensures
        after is Done,
        action matches CallAction::Finish(Err(why)) && {
            &&& event is Addressed ==> why@ == "socket address for '"@ + call.name@ + "': "@ + e@
            &&& event is ReadTimeoutSet ==> why@ == "set_read_timeout: "@ + e@
            &&& event is WriteTimeoutSet ==> why@ == "set_write_timeout: "@ + e@
            &&& event is LengthSent ==> why@ == "write len: "@ + e@
            &&& event is BodySent ==> why@ == "write body: "@ + e@
            &&& event is BodyRead ==> why@ == "parse response: "@ + e@
        },
{
}

/// A connection that is refused means that no such sandbox runs, and a read that
/// times out that the sandbox does not respond; every other failure of the two is told
/// in the system's words. Either way the call is over.
pub proof fn a_refused_or_silent_socket_is_told_apart(
    call: ControlCall,
    e: IoError,
    event: CallEvent,
    after: CallStage,
    action: CallAction,
)
    requires
        call_step(call, event, after, action),
        event == CallEvent::Connected(Err(e)) || event == CallEvent::LengthRead(Err(e)) || event
            == CallEvent::BodyRead(Err(e)),
    ensures
        after is Done,
        action matches CallAction::Finish(Err(why)) && {
            &&& event is Connected && e.kind is ConnectionRefused ==> why@ == "no sandbox named '"@
                + call.name@ + "'"@
            &&& event is Connected && !(e.kind is ConnectionRefused) ==> why@
                == "connect to sandbox '"@ + call.name@ + "': "@ + e.message@
            &&& !(event is Connected) && (e.kind is WouldBlock || e.kind is TimedOut) ==> why@
                == "sandbox '"@ + call.name@ + "' is unresponsive"@
            &&& !(event is Connected) && !(e.kind is WouldBlock || e.kind is TimedOut) ==> why@
                == "read from sandbox '"@ + call.name@ + "': "@ + e.message@
        },
{
}

} // verus!
