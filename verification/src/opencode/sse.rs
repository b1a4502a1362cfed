//! Live updates from the endpoint's server-sent event stream.
//!
//! The application holds the connection and sleeps between attempts; here are
//! the decisions: how lines group into events, which events concern the open
//! session, and when to retry or give up.

use vstd::prelude::*;
use crate::text::{chars_of, decimal, push_decimal, push_str, string_from_chars, string_of, text_equals};

verus! {

broadcast use vstd::string::group_string_axioms;

/// Normalised events of the stream, for the open session.
#[derive(Debug)]
pub enum SseEvent {
    /// Message content changed (`message.part.delta`, `message.part.updated`,
    /// `message.updated`).
    ContentChanged,
    /// The session went idle.
    SessionIdle,
    /// The connection dropped; reconnecting, with the attempt number.
    Reconnecting { attempt: u32 },
    /// Gave up after the last attempt.
    Failed(String),
}

/// The fields of an event's JSON payload that decide what it means. A field is
/// `None` where the path is missing or does not lead to a string.
#[derive(Debug)]
pub struct SsePayload {
    /// `type`.
    pub event_type: Option<String>,
    /// `properties.sessionID`.
    pub properties_session: Option<String>,
    /// `properties.part.sessionID`.
    pub part_session: Option<String>,
    /// `properties.info.sessionID`.
    pub info_session: Option<String>,
}

/// What serde_json makes of an event payload: `None` where the text is not
/// JSON, else the fields of the parsed value.
pub uninterp spec fn sse_payload_of(data: Seq<char>) -> Option<SsePayload>;

/// serde_json's `from_str` into a `Value`, read at the four paths of
/// `SsePayload`. Claimed: the result is a fixed function of the text.
#[verifier::external_body]
fn decode_payload(data: &str) -> (r: Option<SsePayload>)
    ensures
        r == sse_payload_of(data@),
{
    let v: serde_json::Value = serde_json::from_str(data).ok()?;
    Some(SsePayload {
        event_type: v.get("type").and_then(|t| t.as_str()).map(String::from),
        properties_session: v["properties"]["sessionID"].as_str().map(String::from),
        part_session: v["properties"]["part"]["sessionID"].as_str().map(String::from),
        info_session: v["properties"]["info"]["sessionID"].as_str().map(String::from),
    })
}

/// The characters of an optional string, empty where there is none.
pub open spec fn text_or_empty(o: Option<String>) -> Seq<char> {
    match o {
        Some(s) => s@,
        None => Seq::empty(),
    }
}

/// The event that a payload means for the session `sid`, if any.
pub open spec fn payload_event(p: SsePayload, sid: Seq<char>) -> Option<SseEvent> {
    match p.event_type {
        Some(t) => if t@ == "message.part.delta"@ && text_or_empty(p.properties_session) == sid {
            Some(SseEvent::ContentChanged)
        } else if t@ == "message.part.updated"@ && text_or_empty(p.part_session) == sid {
            Some(SseEvent::ContentChanged)
        } else if t@ == "message.updated"@ && text_or_empty(p.info_session) == sid {
            Some(SseEvent::ContentChanged)
        } else if t@ == "session.idle"@ && text_or_empty(p.properties_session) == sid {
            Some(SseEvent::SessionIdle)
        } else {
            None
        },
        None => None,
    }
}

/// The line carries data: it starts with `data: `.
pub open spec fn is_data_line(line: Seq<char>) -> bool {
    line.len() >= 6 && line.take(6) == "data: "@
}

/// The event that one line of the stream means for the session `sid`.
pub open spec fn line_event(line: Seq<char>, sid: Seq<char>) -> Option<SseEvent> {
    if is_data_line(line) {
        match sse_payload_of(line.skip(6)) {
            Some(p) => payload_event(p, sid),
            None => None,
        }
    } else {
        None
    }
}

/// The events that the lines of one stream event mean for `sid`, in order.
pub open spec fn lines_events(lines: Seq<Seq<char>>, sid: Seq<char>) -> Seq<SseEvent>
    decreases lines.len(),
{
    if lines.len() == 0 {
        Seq::empty()
    } else {
        lines_events(lines.drop_last(), sid) + match line_event(lines.last(), sid) {
            Some(e) => seq![e],
            None => Seq::empty(),
        }
    }
}

pub open spec fn texts(v: Seq<String>) -> Seq<Seq<char>> {
    v.map_values(|s: String| s@)
}

fn optional_is(o: &Option<String>, sid: &str) -> (r: bool)
    ensures
        r == (text_or_empty(*o) == sid@),
{
    proof {
        reveal_strlit("");
    }
    let t: &str = match o {
        Some(s) => s.as_str(),
        None => "",
    };
    assert(t@ == text_or_empty(*o));
    text_equals(t, sid)
}

/// The event that a parsed payload stands for, for the session `sid`.
pub fn event_of_payload(p: &SsePayload, sid: &str) -> (r: Option<SseEvent>)
    ensures
        r == payload_event(*p, sid@),
{
    match &p.event_type {
        Some(t) => {
            let t = t.as_str();
            if text_equals(t, "message.part.delta") && optional_is(&p.properties_session, sid) {
                Some(SseEvent::ContentChanged)
            } else if text_equals(t, "message.part.updated") && optional_is(&p.part_session, sid) {
                Some(SseEvent::ContentChanged)
            } else if text_equals(t, "message.updated") && optional_is(&p.info_session, sid) {
                Some(SseEvent::ContentChanged)
            } else if text_equals(t, "session.idle") && optional_is(&p.properties_session, sid) {
                Some(SseEvent::SessionIdle)
            } else {
                None
            }
        },
        None => None,
    }
}

fn line_event_exec(line: &str, sid: &str) -> (r: Option<SseEvent>)
    ensures
        r == line_event(line@, sid@),
{
    let cs = chars_of(line);
    proof {
        reveal_strlit("data: ");
    }
    if !(cs.len() >= 6 && cs[0] == 'd' && cs[1] == 'a' && cs[2] == 't' && cs[3] == 'a' && cs[4] == ':'
        && cs[5] == ' ') {
        proof {
            if cs@.len() >= 6 && cs@.take(6) == "data: "@ {
                assert(cs@.take(6)[0] == cs@[0]);
                assert(cs@.take(6)[1] == cs@[1]);
                assert(cs@.take(6)[2] == cs@[2]);
                assert(cs@.take(6)[3] == cs@[3]);
                assert(cs@.take(6)[4] == cs@[4]);
                assert(cs@.take(6)[5] == cs@[5]);
            }
        }
        return None;
    }
    assert(cs@.take(6) =~= "data: "@);
    let data = string_from_chars(&cs.as_slice()[6..cs.len()]);
    assert(data@ =~= line@.skip(6));
    match decode_payload(data.as_str()) {
        Some(p) => event_of_payload(&p, sid),
        None => None,
    }
}

/// The events that the lines of one stream event mean for the session
/// `session_id`: each `data: ` line whose JSON payload has one of the four
/// event types, for this session, gives one event.
pub fn process_event_lines(lines: &Vec<String>, session_id: &str) -> (r: Vec<SseEvent>)
    ensures
        r@ == lines_events(texts(lines@), session_id@),
{
    let mut r: Vec<SseEvent> = Vec::new();
    let mut i: usize = 0;
    while i < lines.len()
        invariant
            i <= lines@.len(),
            r@ == lines_events(texts(lines@).take(i as int), session_id@),
        decreases lines@.len() - i,
    {
        let ghost t = texts(lines@).take(i + 1);
        assert(t.drop_last() =~= texts(lines@).take(i as int));
        assert(t.last() == lines@[i as int]@);
        match line_event_exec(lines[i].as_str(), session_id) {
            Some(e) => {
                r.push(e);
            },
            None => {
                assert(r@ =~= r@ + Seq::<SseEvent>::empty());
            },
        }
        i += 1;
    }
    assert(texts(lines@).take(lines@.len() as int) =~= texts(lines@));
    r
}

/// Adds a line read from the stream to the event being collected. A blank
/// line ends the event: its lines are handed back and collection starts anew.
pub fn collect_line(pending: &mut Vec<String>, line: String) -> (r: Option<Vec<String>>)
    ensures
        line@.len() == 0 ==> (r matches Some(ls) && ls@ == old(pending)@ && final(pending)@.len() == 0),
        line@.len() > 0 ==> r is None && final(pending)@ == old(pending)@.push(line),
{
    if line.as_str().is_empty() {
        let mut done: Vec<String> = Vec::new();
        std::mem::swap(&mut done, pending);
        Some(done)
    } else {
        pending.push(line);
        None
    }
}

/// The error for a stream answered with a status outside 2xx.
pub fn stream_status_error(status: u16) -> (r: Option<String>)
    ensures
        200 <= status < 300 ==> r is None,
        !(200 <= status < 300) ==> (r matches Some(m) && m@ == "sse status "@ + decimal(status as nat)),
{
    if 200 <= status && status < 300 {
        None
    } else {
        let mut m = string_of("sse status ");
        push_decimal(&mut m, status as u64);
        Some(m)
    }
}

/// Connection attempts before giving up.
pub const SSE_MAX_ATTEMPTS: u32 = 10;

/// Seconds to wait before reconnect attempt `attempt`: two to the power of the
/// attempt (the exponent capped at 5), at most 30.
pub open spec fn backoff_secs_of(attempt: u32) -> u64 {
    if attempt == 0 {
        1
    } else if attempt == 1 {
        2
    } else if attempt == 2 {
        4
    } else if attempt == 3 {
        8
    } else if attempt == 4 {
        16
    } else {
        30
    }
}

pub fn backoff_secs(attempt: u32) -> (r: u64)
    ensures
        r == backoff_secs_of(attempt),
{
    let base: u64 = match attempt {
        0 => 1,
        1 => 2,
        2 => 4,
        3 => 8,
        4 => 16,
        _ => 32,
    };
    if base < 30 {
        base
    } else {
        30
    }
}

/// The waits before reconnecting never shrink as attempts accumulate, stay
/// between one and thirty seconds, and double until they reach the cap.
pub proof fn lemma_backoff_bounds(a: u32, b: u32)
    requires
        a <= b,
    ensures
        backoff_secs_of(a) <= backoff_secs_of(b),
        1 <= backoff_secs_of(a) <= 30,
        a < 4 ==> backoff_secs_of((a + 1) as u32) == 2 * backoff_secs_of(a),
{
}

/// How a connection that did not fail ended.
#[derive(Debug, Clone, Copy)]
pub enum StreamEnd {
    /// The server closed the stream.
    Closed,
    /// Sending an event failed: nobody listens any more.
    ReceiverGone,
}

/// What the subscriber does after a connection ends.
#[derive(Debug)]
pub enum SseStep {
    /// The stream closed normally: connect again, attempts reset.
    Reconnect,
    /// Nobody listens any more: the subscriber ends.
    Stop,
    /// The connection failed: report attempt `attempt`, wait, and try again.
    Retry { attempt: u32, delay_secs: u64 },
    /// The last attempt failed: report the message and stop.
    GiveUp(String),
}

/// The subscriber's decision after a connection that ended with `outcome`,
/// `attempt` failures having come before it; also the new failure count.
pub fn after_connection(attempt: u32, outcome: &Result<StreamEnd, String>) -> (r: (u32, SseStep))
    requires
        attempt < SSE_MAX_ATTEMPTS,
    ensures
        outcome matches Ok(StreamEnd::Closed) ==> r.0 == 0 && r.1 is Reconnect,
        outcome matches Ok(StreamEnd::ReceiverGone) ==> r.0 == attempt && r.1 is Stop,
        outcome matches Err(e) ==> r.0 == attempt + 1 && (if attempt + 1 >= SSE_MAX_ATTEMPTS {
            r.1 matches SseStep::GiveUp(m) && m@ == "SSE failed after "@ + decimal(
                SSE_MAX_ATTEMPTS as nat,
            ) + " attempts: "@ + e@
        } else {
            r.1 == SseStep::Retry { attempt: (attempt + 1) as u32, delay_secs: backoff_secs_of((attempt + 1) as u32) }
        }),
        r.0 < SSE_MAX_ATTEMPTS || r.1 is GiveUp,
{
    match outcome {
        Ok(StreamEnd::Closed) => (0, SseStep::Reconnect),
        Ok(StreamEnd::ReceiverGone) => (attempt, SseStep::Stop),
        Err(e) => {
            let a = attempt + 1;
            if a >= SSE_MAX_ATTEMPTS {
                let mut m = string_of("SSE failed after ");
                push_decimal(&mut m, SSE_MAX_ATTEMPTS as u64);
                push_str(&mut m, " attempts: ");
                push_str(&mut m, e.as_str());
                (a, SseStep::GiveUp(m))
            } else {
                (a, SseStep::Retry { attempt: a, delay_secs: backoff_secs(a) })
            }
        },
    }
}

} // verus!
