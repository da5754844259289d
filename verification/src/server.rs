//! The server side: whom to serve, what to read, and what to answer.
//!
//! Accepting, reading and writing are the caller's. Each step here takes what
//! just happened and says what to do next.

use vstd::prelude::*;
use vstd::string::*;

use crate::frame::accepted_len;
use crate::protocol::{
    handle_info, refuse, ControlRequest, ControlResponse, SandboxInfo, PROTOCOL_VERSION,
};
use crate::text::{message, push_decimal};

verus! {

/// How long one connection may take, in seconds, so that a stalled client does
/// not keep others out.
pub const SERVE_TIMEOUT_SECS: u64 = 5;

/// The uid that a credentials query makes known: none where it failed.
pub open spec fn known_uid(status: i32, uid: u32) -> Option<u32> {
    if status == 0 {
        Some(uid)
    } else {
        None
    }
}

/// The uid at the other end of a socket, from the status and the uid that the
/// credentials query gave.
pub fn peer_uid(status: i32, uid: u32) -> (r: Option<u32>)
    ensures
        r == known_uid(status, uid),
        status == 0 ==> r == Some(uid),
        status != 0 ==> r is None,
{
    if status == 0 {
        Some(uid)
    } else {
        None
    }
}

/// What happened to the listener.
#[derive(Clone, Copy, Debug, PartialEq, Eq)]
pub enum LoopEvent {
    /// The listener was handed to the runtime, or could not be.
    Opened(bool),
    /// A connection came in, from this uid as far as it is known.
    Accepted(Option<u32>),
    /// No connection can be accepted any more.
    AcceptFailed,
    /// A connection was served, or its time ran out.
    Served,
}

/// What to do with the listener.
#[derive(Clone, Copy, Debug, PartialEq, Eq)]
pub enum LoopAction {
    /// Wait for the next connection.
    Accept,
    /// Serve the connection, for at most so many seconds.
    Serve(u64),
    /// Close the connection without a word and wait for the next one.
    Refuse,
    /// Stop.
    Stop,
}

/// What the accept loop does next. Connections are served one at a time, and
/// only those of `my_uid`.
pub open spec fn loop_step(event: LoopEvent, my_uid: u32) -> LoopAction {
    match event {
        LoopEvent::Opened(true) => LoopAction::Accept,
        LoopEvent::Opened(false) => LoopAction::Stop,
        LoopEvent::Accepted(peer) => if peer == Some(my_uid) {
            LoopAction::Serve(SERVE_TIMEOUT_SECS)
        } else {
            LoopAction::Refuse
        },
        LoopEvent::AcceptFailed => LoopAction::Stop,
        LoopEvent::Served => LoopAction::Accept,
    }
}

/// One step of the accept loop. Abstract names have no permission bits, so the
/// uid at the other end is the only gate.
pub fn control_loop(event: LoopEvent, my_uid: u32) -> (action: LoopAction)
    ensures
        action == loop_step(event, my_uid),
{
    match event {
        LoopEvent::Opened(opened) => if opened {
            LoopAction::Accept
        } else {
            LoopAction::Stop
        },
        LoopEvent::Accepted(peer) => match peer {
            Some(uid) => if uid == my_uid {
                LoopAction::Serve(SERVE_TIMEOUT_SECS)
            } else {
                LoopAction::Refuse
            },
            None => LoopAction::Refuse,
        },
        LoopEvent::AcceptFailed => LoopAction::Stop,
        LoopEvent::Served => LoopAction::Accept,
    }
}

/// How far a connection has come.
#[derive(Clone, Copy, Debug, PartialEq, Eq)]
pub enum ServeStage {
    /// The length bytes of the request are due.
    Length,
    /// The body of the request is due.
    Body,
    /// Nothing more is due: a connection carries one request.
    Done,
}

/// What happened on a connection.
pub enum ServeEvent {
    /// The length bytes were read.
    LengthRead([u8; 4]),
    /// The body was read; the request in it, or the reader's error.
    BodyRead(Result<ControlRequest, String>),
    /// Reading failed.
    ReadFailed,
}

/// What to do on a connection.
pub enum ServeAction {
    /// Read a body of this many bytes.
    ReadBody(usize),
    /// Send this response and close.
    Reply(ControlResponse),
    /// Send the response to `config` and close.
    ReplyConfig,
    /// Send the response to `ports` and close.
    ReplyPorts,
    /// Close without a word.
    Close,
}

/// The action sends a response.
pub open spec fn is_answer(action: ServeAction) -> bool {
    action is Reply || action is ReplyConfig || action is ReplyPorts
}

/// The action is a response that turns the request down for `why`.
pub open spec fn turns_down(action: ServeAction, why: Seq<char>) -> bool {
    action matches ServeAction::Reply(resp) && crate::protocol::refuses(resp, why)
}

/// What a request is answered.
pub open spec fn answers(
    request: Result<ControlRequest, String>,
    info: SandboxInfo,
    action: ServeAction,
) -> bool {
    match request {
        Err(e) => turns_down(action, "parse error: "@ + e@),
        Ok(request) => if request.v != PROTOCOL_VERSION {
            turns_down(
                action,
                "unsupported protocol version: "@ + crate::text::decimal(request.v as nat),
            )
        } else if request.verb@ == "info"@ {
            action matches ServeAction::Reply(resp) && crate::protocol::reports_info(resp, info)
        } else if request.verb@ == "config"@ {
            action is ReplyConfig
        } else if request.verb@ == "ports"@ {
            action is ReplyPorts
        } else {
            turns_down(action, "unknown verb: "@ + request.verb@)
        },
    }
}

/// One step of serving a connection: the stage after it, and what to do. What is
/// not due, and a body over the cap, closes the connection.
pub open spec fn serve_step(
    stage: ServeStage,
    event: ServeEvent,
    info: SandboxInfo,
    after: ServeStage,
    action: ServeAction,
) -> bool {
    match (stage, event) {
        (ServeStage::Length, ServeEvent::LengthRead(prefix)) => match crate::frame::accepted(
            prefix@,
        ) {
            Some(n) => after is Body && action == ServeAction::ReadBody(n as usize),
            None => after is Done && action is Close,
        },
        (ServeStage::Body, ServeEvent::BodyRead(request)) => after is Done && answers(
            request,
            info,
            action,
        ),
        _ => after is Done && action is Close,
    }
}

/// Answers the request of a connection.
fn answer(request: Result<ControlRequest, String>, info: &SandboxInfo) -> (action: ServeAction)
    ensures
        answers(request, *info, action),
{
    let request = match request {
        Ok(request) => request,
        Err(e) => {
            return ServeAction::Reply(refuse(message("parse error: ", e.as_str())));
        },
    };
    if request.v != PROTOCOL_VERSION {
        let mut why: String = String::new();
        why.append("unsupported protocol version: ");
        push_decimal(&mut why, request.v as u64);
        assert(why@ =~= "unsupported protocol version: "@ + crate::text::decimal(
            request.v as nat,
        ));
        return ServeAction::Reply(refuse(why));
    }
    if request.verb == "info".to_string() {
        ServeAction::Reply(handle_info(info))
    } else if request.verb == "config".to_string() {
        ServeAction::ReplyConfig
    } else if request.verb == "ports".to_string() {
        ServeAction::ReplyPorts
    } else {
        ServeAction::Reply(refuse(message("unknown verb: ", request.verb.as_str())))
    }
}

/// One step of serving a connection: `info` is what the sandbox reports of
/// itself.
pub fn serve_one(stage: ServeStage, event: ServeEvent, info: &SandboxInfo) -> (r: (
    ServeStage,
    ServeAction,
))
    ensures
        serve_step(stage, event, *info, r.0, r.1),
{
    match (stage, event) {
        (ServeStage::Length, ServeEvent::LengthRead(prefix)) => match accepted_len(prefix) {
            Some(n) => (ServeStage::Body, ServeAction::ReadBody(n)),
            None => (ServeStage::Done, ServeAction::Close),
        },
        (ServeStage::Body, ServeEvent::BodyRead(request)) => (
            ServeStage::Done,
            answer(request, info),
        ),
        _ => (ServeStage::Done, ServeAction::Close),
    }
}

/// Another user gets no answer: a connection is served exactly when the
/// credentials query worked and gave the server's own uid, and is closed without
/// a word otherwise.
pub proof fn only_the_own_uid_is_served(status: i32, uid: u32, my_uid: u32)
    ensures
        loop_step(LoopEvent::Accepted(known_uid(status, uid)), my_uid) is Serve <==> status == 0
            && uid == my_uid,
        !(status == 0 && uid == my_uid) ==> loop_step(
            LoopEvent::Accepted(known_uid(status, uid)),
            my_uid,
        ) is Refuse,
{
}

/// Nothing but an accepted connection of the own uid is ever served.
pub proof fn serving_needs_an_accepted_connection(event: LoopEvent, my_uid: u32)
    requires
        loop_step(event, my_uid) is Serve,
    ensures
        event == LoopEvent::Accepted(Some(my_uid)),
{
}

/// The event is of the kind that reports how the action went. Nothing comes after
/// a stop.
pub open spec fn loop_reports_on(action: LoopAction, event: LoopEvent) -> bool {
    match action {
        LoopAction::Accept | LoopAction::Refuse => event is Accepted || event is AcceptFailed,
        LoopAction::Serve(_) => event is Served,
        LoopAction::Stop => false,
    }
}

/// A run of the accept loop: what happened, and what was done each time.
pub open spec fn is_loop_run(
    events: Seq<LoopEvent>,
    actions: Seq<LoopAction>,
    my_uid: u32,
) -> bool {
    &&& events.len() == actions.len()
    &&& events.len() > 0 ==> events[0] is Opened
    &&& forall|i: int|
        0 <= i < events.len() ==> #[trigger] actions[i] == loop_step(events[i], my_uid)
    &&& forall|i: int|
        0 < i < events.len() ==> loop_reports_on(actions[i - 1], #[trigger] events[i])
}

/// Connections are served one at a time, and none for longer than the limit: what
/// comes after a connection is served, whether it was answered or its time ran out,
/// is its end, and then the loop accepts again.
pub proof fn one_connection_is_served_at_a_time(
    events: Seq<LoopEvent>,
    actions: Seq<LoopAction>,
    my_uid: u32,
    i: int,
)
    requires
        is_loop_run(events, actions, my_uid),
        0 <= i < events.len(),
        actions[i] is Serve,
    ensures
        actions[i] == LoopAction::Serve(SERVE_TIMEOUT_SECS),
        i + 1 < events.len() ==> events[i + 1] is Served && actions[i + 1] is Accept,
{
}

/// A stalled client does not wedge the loop: when the time of a connection has run
/// out, or it was refused, the next connection of the own uid is served, and
/// accepting goes on until it fails.
pub proof fn the_next_connection_is_served(
    events: Seq<LoopEvent>,
    actions: Seq<LoopAction>,
    my_uid: u32,
    i: int,
)
    requires
        is_loop_run(events, actions, my_uid),
        0 < i < events.len(),
    ensures
        actions[i] is Stop <==> events[i] is AcceptFailed,
        events[i] == LoopEvent::Accepted(Some(my_uid)) ==> actions[i] == LoopAction::Serve(
            SERVE_TIMEOUT_SECS,
        ),
        events[i] is Served ==> actions[i] is Accept,
{
    assert(actions[i] == loop_step(events[i], my_uid));
}

/// A connection served from the start: the stages it goes through, and at each
/// what happened and what was done.
pub open spec fn is_connection(
    stages: Seq<ServeStage>,
    events: Seq<ServeEvent>,
    actions: Seq<ServeAction>,
    info: SandboxInfo,
) -> bool {
    &&& stages.len() == events.len() + 1
    &&& actions.len() == events.len()
    &&& stages[0] is Length
    &&& forall|i: int|
        0 <= i < events.len() ==> serve_step(
            #[trigger] stages[i],
            events[i],
            info,
            stages[i + 1],
            actions[i],
        )
}

/// Once nothing more is due, nothing more is done.
proof fn done_stays_done(
    stages: Seq<ServeStage>,
    events: Seq<ServeEvent>,
    actions: Seq<ServeAction>,
    info: SandboxInfo,
    i: int,
    j: int,
)
    requires
        is_connection(stages, events, actions, info),
        0 <= i <= j < events.len(),
        stages[i] is Done,
    ensures
        stages[j] is Done,
        actions[j] is Close,
    decreases j - i,
{
    assert(serve_step(stages[i], events[i], info, stages[i + 1], actions[i]));
    if i < j {
        done_stays_done(stages, events, actions, info, i + 1, j);
    }
}

/// One request per connection: whatever happens, a connection sends at most one
/// response, and nothing is read after it.
pub proof fn a_connection_is_answered_once(
    stages: Seq<ServeStage>,
    events: Seq<ServeEvent>,
    actions: Seq<ServeAction>,
    info: SandboxInfo,
    i: int,
    j: int,
)
    requires
        is_connection(stages, events, actions, info),
        0 <= i < j < events.len(),
        is_answer(actions[i]),
    ensures
        actions[j] is Close,
{
    assert(serve_step(stages[i], events[i], info, stages[i + 1], actions[i]));
    done_stays_done(stages, events, actions, info, i + 1, j);
}

/// No connection is answered before a length within the cap and a body were
/// read on it, in this order.
pub proof fn an_answer_follows_a_request(
    stages: Seq<ServeStage>,
    events: Seq<ServeEvent>,
    actions: Seq<ServeAction>,
    info: SandboxInfo,
    i: int,
)
    requires
        is_connection(stages, events, actions, info),
        0 <= i < events.len(),
        is_answer(actions[i]),
    ensures
        i == 1,
        events[0] matches ServeEvent::LengthRead(prefix) && crate::frame::accepted(
            prefix@,
        ) is Some,
        events[1] is BodyRead,
{
    assert(serve_step(stages[i], events[i], info, stages[i + 1], actions[i]));
    assert(serve_step(stages[0], events[0], info, stages[1], actions[0]));
    if i > 1 {
        assert(serve_step(stages[1], events[1], info, stages[2], actions[1]));
        done_stays_done(stages, events, actions, info, 2, i);
    }
}

/// Every request that was read is answered, and a reply given here is a response
/// of this protocol: with the version, and with data or a reason, never both.
pub proof fn every_request_is_answered(
    request: Result<ControlRequest, String>,
    info: SandboxInfo,
    action: ServeAction,
)
    requires
        answers(request, info, action),
    ensures
        is_answer(action),
        action matches ServeAction::Reply(resp) ==> resp.v == PROTOCOL_VERSION && (resp.ok
            <==> resp.data is Some) && (resp.ok <==> resp.err is None),
{
}

/// What is not understood is refused: a body that is no request, another version
/// of the protocol and an unknown verb are answered by a response without data.
pub proof fn what_is_not_understood_is_refused(
    request: Result<ControlRequest, String>,
    info: SandboxInfo,
    action: ServeAction,
)
    requires
        answers(request, info, action),
        request matches Ok(request) ==> request.v != PROTOCOL_VERSION || (request.verb@ != "info"@
            && request.verb@ != "config"@ && request.verb@ != "ports"@),
    ensures
        action matches ServeAction::Reply(resp) && !resp.ok && resp.data is None
            && resp.err is Some,
{
}

/// The sandbox tells about itself: a connection that brings a length within the
/// cap and then a request for `info` is answered by the report of the sandbox.
pub proof fn a_request_for_info_is_granted(
    stages: Seq<ServeStage>,
    events: Seq<ServeEvent>,
    actions: Seq<ServeAction>,
    info: SandboxInfo,
    prefix: [u8; 4],
    request: ControlRequest,
)
    requires
        is_connection(stages, events, actions, info),
        events.len() == 2,
        events[0] == ServeEvent::LengthRead(prefix),
        crate::frame::announced(prefix@) <= crate::frame::MAX_BODY_BYTES,
        events[1] == ServeEvent::BodyRead(Ok(request)),
        request.v == PROTOCOL_VERSION,
        request.verb@ == "info"@,
    ensures
        actions[0] == ServeAction::ReadBody(crate::frame::announced(prefix@) as usize),
        actions[1] matches ServeAction::Reply(resp) && crate::protocol::reports_info(resp, info),
{
    assert(serve_step(stages[0], events[0], info, stages[1], actions[0]));
    assert(serve_step(stages[1], events[1], info, stages[2], actions[1]));
}

/// What the loop does comes from what happened and whose connection it is, and from
/// nothing else: it accepts once the listener is open and after every connection it
/// served, serves its own user for five seconds, closes on everyone else, and stops
/// where the listener cannot be opened or accepts no more.
pub proof fn the_loop_follows_what_happened(opened: bool, peer: Option<u32>, my_uid: u32)
    ensures
        loop_step(LoopEvent::Opened(opened), my_uid) is Accept <==> opened,
        loop_step(LoopEvent::Opened(opened), my_uid) is Stop <==> !opened,
        loop_step(LoopEvent::Accepted(peer), my_uid) == LoopAction::Serve(5) <==> peer is Some
            && peer->Some_0 == my_uid,
        loop_step(LoopEvent::Accepted(peer), my_uid) is Refuse <==> peer is None || peer->Some_0
            != my_uid,
        loop_step(LoopEvent::AcceptFailed, my_uid) is Stop,
        loop_step(LoopEvent::Served, my_uid) is Accept,
{
}

/// A connection that announces a body of up to 65536 bytes has exactly that many
/// read from it; a longer one is closed without a word. The length is read in base
/// 256, the most significant byte first.
pub proof fn as_many_bytes_are_read_as_were_announced(
    prefix: [u8; 4],
    info: SandboxInfo,
    after: ServeStage,
    action: ServeAction,
)
    requires
        serve_step(ServeStage::Length, ServeEvent::LengthRead(prefix), info, after, action),
    ensures
        ((prefix@[0] * 256 + prefix@[1]) * 256 + prefix@[2]) * 256 + prefix@[3] <= 65536 ==> after
            is Body && (action matches ServeAction::ReadBody(n) && n == ((prefix@[0] * 256
            + prefix@[1]) * 256 + prefix@[2]) * 256 + prefix@[3]),
        ((prefix@[0] * 256 + prefix@[1]) * 256 + prefix@[2]) * 256 + prefix@[3] > 65536 ==> after
            is Done && action is Close,
{
}

/// A request is answered by its version and its verb: `info` by the report of the
/// sandbox, `config` and `ports` by their own responses, and every other verb and
/// every other version by a refusal that names it. `version` is the version in
/// decimal.
pub proof fn a_request_is_answered_by_its_verb(
    request: ControlRequest,
    version: Seq<char>,
    info: SandboxInfo,
    after: ServeStage,
    action: ServeAction,
)
    requires
        serve_step(ServeStage::Body, ServeEvent::BodyRead(Ok(request)), info, after, action),
        crate::text::is_numeral(version, request.v as int),
    ensures
        after is Done,
        request.v != 1 ==> (action matches ServeAction::Reply(resp) && resp.v == 1 && !resp.ok
            && resp.data is None && (resp.err matches Some(why) && why@
            == "unsupported protocol version: "@ + version)),
        request.v == 1 && request.verb@ == "info"@ ==> (action matches ServeAction::Reply(resp)
            && resp.v == 1 && resp.ok && resp.err is None && crate::protocol::reports_info(
            resp,
            info,
        )),
        request.v == 1 && request.verb@ == "config"@ ==> action is ReplyConfig,
        request.v == 1 && request.verb@ == "ports"@ ==> action is ReplyPorts,
        request.v == 1 && request.verb@ != "info"@ && request.verb@ != "config"@ && request.verb@
            != "ports"@ ==> (action matches ServeAction::Reply(resp) && resp.v == 1 && !resp.ok
            && resp.data is None && (resp.err matches Some(why) && why@ == "unknown verb: "@
            + request.verb@)),
{
    crate::text::a_number_has_one_numeral(version, request.v as nat);
    reveal_strlit("info");
    reveal_strlit("config");
    reveal_strlit("ports");
    assert("info"@.len() == 4 && "config"@.len() == 6 && "ports"@.len() == 5);
}

/// A body that cannot be read as a request is answered by a refusal that carries the
/// reader's words.
pub proof fn an_unreadable_request_is_refused_in_words(
    e: String,
    info: SandboxInfo,
    after: ServeStage,
    action: ServeAction,
)
    requires
        serve_step(ServeStage::Body, ServeEvent::BodyRead(Err(e)), info, after, action),
    ensures
        after is Done,
        action matches ServeAction::Reply(resp) && resp.v == 1 && !resp.ok && resp.data is None && (
        resp.err matches Some(why) && why@ == "parse error: "@ + e@),
{
}

/// What is out of turn, and a read that fails, closes the connection without a word.
pub proof fn what_is_out_of_turn_closes_the_connection(
    stage: ServeStage,
    event: ServeEvent,
    info: SandboxInfo,
    after: ServeStage,
    action: ServeAction,
)
    requires
        serve_step(stage, event, info, after, action),
        event is ReadFailed || stage is Done || (stage is Length && event is BodyRead) || (stage
            is Body && event is LengthRead),
    ensures
        after is Done,
        action is Close,
{
}

} // verus!
