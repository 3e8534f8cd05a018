//! `vzctl events subscribe`: whether the supervisor took the subscription,
//! and what to do with each read from the event stream.
use crate::cli::{EXIT_INVALID_INPUT, EXIT_SUPERVISOR_UNHEALTHY};
use crate::text::{cat, owned};
use crate::json::{
    at, get, is_one, json_of, json_text, member_is_object, member_is_one, member_is_str, member_is_true, parse_json,
    text_of, Json, JsonView,
};
use vstd::prelude::*;

verus! {

/// The supervisor's answer to a subscription, as far as it is read: whether
/// `result.ok` is `true` and `result.v` is `1`, and the answer as JSON text.
pub struct SubscribeReply {
    pub ok: bool,
    pub version_one: bool,
    pub text: String,
}

/// Whether the subscription was taken; where not, the exit code and the
/// message to end with.
pub fn subscription_refusal(reply: &SubscribeReply) -> (r: Option<(u8, String)>)
    ensures
        reply.ok && reply.version_one ==> r is None,
        !(reply.ok && reply.version_one) ==> (r matches Some(e) && e.0 == EXIT_INVALID_INPUT && e.1@
            == "subscribe rejected: "@ + reply.text@),
{
    if reply.ok && reply.version_one {
        None
    } else {
        Some((EXIT_INVALID_INPUT, cat("subscribe rejected: ", reply.text.as_str())))
    }
}

/// An event line's envelope: the fields a well-formed event has.
pub struct Envelope {
    /// `v` is `1`.
    pub version_one: bool,
    pub ts_is_text: bool,
    pub type_is_text: bool,
    pub data_is_object: bool,
}

/// What one read from the event stream gave.
pub enum StreamRead {
    /// A line that parsed as JSON, with its envelope.
    Event(Envelope),
    /// A line that is not JSON; the parser's error.
    Garbled(String),
    /// The stream ended.
    Closed,
    /// Nothing arrived in time, or the read was interrupted.
    Idle,
    /// Reading failed; the error as reported.
    Failed(String),
}

/// What to do after a read.
pub enum StreamStep {
    /// Write the line out and read on.
    Emit,
    /// Read on.
    Wait,
    /// End with the exit code and, where there is one, the message.
    Finish(u8, Option<String>),
}

pub open spec fn envelope_ok(e: Envelope) -> bool {
    e.version_one && e.ts_is_text && e.type_is_text && e.data_is_object
}

pub open spec fn finishes_with(s: StreamStep, code: u8, message: Option<Seq<char>>) -> bool {
    s matches StreamStep::Finish(c, m) && c == code && match m {
        Some(t) => message == Some(t@),
        None => message is None,
    }
}

/// The next step of a subscription: a Ctrl-C before the read ends it
/// cleanly, as does the stream's end after one; a well-formed event is
/// written out; an idle read reads on; anything else ends it unhealthy.
pub fn stream_step(interrupted_before: bool, read: &StreamRead, interrupted_after: bool) -> (r: StreamStep)
    ensures
        interrupted_before ==> finishes_with(r, 0, None),
        !interrupted_before ==> match *read {
            StreamRead::Closed => if interrupted_after {
                finishes_with(r, 0, None)
            } else {
                finishes_with(r, EXIT_SUPERVISOR_UNHEALTHY, Some("supervisor closed the event stream"@))
            },
            StreamRead::Event(e) => if envelope_ok(e) {
                r is Emit
            } else {
                finishes_with(r, EXIT_SUPERVISOR_UNHEALTHY, Some("invalid event envelope"@))
            },
            StreamRead::Garbled(err) => finishes_with(r, EXIT_SUPERVISOR_UNHEALTHY, Some("invalid event JSON: "@ + err@)),
            StreamRead::Idle => r is Wait,
            StreamRead::Failed(err) => finishes_with(r, EXIT_SUPERVISOR_UNHEALTHY, Some("event stream: "@ + err@)),
        },
{
    if interrupted_before {
        return StreamStep::Finish(0, None);
    }
    match read {
        StreamRead::Closed => if interrupted_after {
            StreamStep::Finish(0, None)
        } else {
            StreamStep::Finish(EXIT_SUPERVISOR_UNHEALTHY, Some(owned("supervisor closed the event stream")))
        },
        StreamRead::Event(e) => if e.version_one && e.ts_is_text && e.type_is_text && e.data_is_object {
            StreamStep::Emit
        } else {
            StreamStep::Finish(EXIT_SUPERVISOR_UNHEALTHY, Some(owned("invalid event envelope")))
        },
        StreamRead::Garbled(err) => StreamStep::Finish(
            EXIT_SUPERVISOR_UNHEALTHY,
            Some(cat("invalid event JSON: ", err.as_str())),
        ),
        StreamRead::Idle => StreamStep::Wait,
        StreamRead::Failed(err) => StreamStep::Finish(EXIT_SUPERVISOR_UNHEALTHY, Some(cat("event stream: ", err.as_str()))),
    }
}

/// What an event line is: an event with its envelope where it is JSON,
/// else the parser's complaint.
pub fn event_read_of(line: &str) -> (r: StreamRead)
    ensures
        match json_of(line@) {
            Ok(v) => r matches StreamRead::Event(e) && e.version_one == is_one(at(v, "v"@)) && e.ts_is_text == (at(
                v,
                "ts"@,
            ) is Str) && e.type_is_text == (at(v, "type"@) is Str) && e.data_is_object == (at(v, "data"@) is Object),
            Err(m) => r matches StreamRead::Garbled(e) && e@ == m,
        },
{
    match parse_json(line) {
        Ok(v) => StreamRead::Event(
            Envelope {
                version_one: member_is_one(&v, "v"),
                ts_is_text: member_is_str(&v, "ts"),
                type_is_text: member_is_str(&v, "type"),
                data_is_object: member_is_object(&v, "data"),
            },
        ),
        Err(m) => StreamRead::Garbled(m),
    }
}

/// The supervisor's answer line to a subscription: `result.ok` is `true`,
/// `result.v` is `1`, and the answer as JSON text; or, where the line is no
/// JSON, the message to end with.
pub fn subscribe_reply_of(line: &str) -> (r: Result<SubscribeReply, String>)
    ensures
        match json_of(line@) {
            Ok(v) => r matches Ok(reply) && reply.ok == (at(at(v, "result"@), "ok"@) == JsonView::Bool(true))
                && reply.version_one == is_one(at(at(v, "result"@), "v"@)) && reply.text@ == text_of(v),
            Err(m) => r matches Err(e) && e@ == "invalid subscribe response: "@ + m,
        },
{
    let value = match parse_json(line) {
        Ok(v) => v,
        Err(m) => return Err(cat("invalid subscribe response: ", m.as_str())),
    };
    let null = Json::Null;
    let res = match get(&value, "result") {
        Some(x) => x,
        None => &null,
    };
    Ok(SubscribeReply { ok: member_is_true(res, "ok"), version_one: member_is_one(res, "v"), text: json_text(&value) })
}

} // verus!
