//! Endpoint addresses and the decisions taken on the endpoint's replies.
//!
//! The requests themselves are sent by the application; it hands the replies
//! here as `HttpReply` values.

use vstd::prelude::*;
use crate::error::AppError;
use crate::opencode::models::DeleteResult;
use crate::text::{chars_of, push_str, push_decimal, decimal, string_from_chars, string_of};

verus! {

broadcast use vstd::string::group_string_axioms;

/// A reply to an HTTP request, as the HTTP client reports it.
#[derive(Debug)]
pub enum HttpReply {
    /// A response with a status below 400.
    Response(u16),
    /// A response with an error status (400 and above), with its body text.
    ErrorStatus(u16, String),
    /// No response: the connection or the transport failed; the text describes it.
    Transport(String),
}

pub open spec fn is_success(status: u16) -> bool {
    200 <= status < 300
}

/// `s` without the slashes at its end.
pub open spec fn trim_trailing_slashes(s: Seq<char>) -> Seq<char>
    decreases s.len(),
{
    if s.len() > 0 && s.last() == '/' {
        trim_trailing_slashes(s.drop_last())
    } else {
        s
    }
}

/// The base address with its trailing slashes removed.
pub fn normalize_base_url(base_url: &str) -> (r: String)
    ensures
        r@ == trim_trailing_slashes(base_url@),
{
    let cs = chars_of(base_url);
    let mut n = cs.len();
    assert(cs@.take(n as int) =~= cs@);
    while n > 0 && cs[n - 1] == '/'
        invariant
            n <= cs@.len(),
            cs@ == base_url@,
            trim_trailing_slashes(cs@.take(n as int)) == trim_trailing_slashes(base_url@),
        decreases n,
    {
        assert(cs@.take(n as int).drop_last() =~= cs@.take(n - 1));
        n -= 1;
    }
    assert(cs@.take(n as int) == trim_trailing_slashes(base_url@));
    string_from_chars(&cs.as_slice()[0..n])
}

/// `GET` address of the health check.
pub fn health_url(base: &str) -> (r: String)
    ensures
        r@ == base@ + "/health"@,
{
    let mut r = string_of(base);
    push_str(&mut r, "/health");
    r
}

/// Address of the session list of the first endpoint version, which the
/// health probe falls back to.
pub fn sessions_url(base: &str) -> (r: String)
    ensures
        r@ == base@ + "/session"@,
{
    let mut r = string_of(base);
    push_str(&mut r, "/session");
    r
}

/// Address of one session (for `DELETE`).
pub fn session_url(base: &str, session_id: &str) -> (r: String)
    ensures
        r@ == base@ + "/session/"@ + session_id@,
{
    let mut r = string_of(base);
    push_str(&mut r, "/session/");
    push_str(&mut r, session_id);
    r
}

/// Address of a session's messages.
pub fn messages_url(base: &str, session_id: &str) -> (r: String)
    ensures
        r@ == base@ + "/session/"@ + session_id@ + "/message"@,
{
    let mut r = session_url(base, session_id);
    push_str(&mut r, "/message");
    r
}

/// Address of the project list.
pub fn projects_url(base: &str) -> (r: String)
    ensures
        r@ == base@ + "/project"@,
{
    let mut r = string_of(base);
    push_str(&mut r, "/project");
    r
}

/// Address of the global event stream.
pub fn events_url(base: &str) -> (r: String)
    ensures
        r@ == base@ + "/global/event"@,
{
    let mut r = string_of(base);
    push_str(&mut r, "/global/event");
    r
}

/// What the health probe does after the `/health` reply.
#[derive(Debug, Clone, Copy, PartialEq, Eq)]
pub enum HealthVerdict {
    /// The endpoint is up.
    Up,
    /// Probe `/session` instead.
    TrySessions,
    /// The endpoint is unreachable.
    Down,
}

pub open spec fn health_verdict_of(r: HttpReply) -> HealthVerdict {
    match r {
        HttpReply::Response(s) => if is_success(s) { HealthVerdict::Up } else { HealthVerdict::TrySessions },
        HttpReply::ErrorStatus(code, _) => if code == 404 { HealthVerdict::TrySessions } else { HealthVerdict::Down },
        HttpReply::Transport(_) => HealthVerdict::Down,
    }
}

/// A 2xx reply to `/health` means up; any other response or a 404 leads to
/// the `/session` probe; any other failure means down.
pub fn health_verdict(reply: &HttpReply) -> (r: HealthVerdict)
    ensures
        r == health_verdict_of(*reply),
{
    match reply {
        HttpReply::Response(s) => if 200 <= *s && *s < 300 { HealthVerdict::Up } else { HealthVerdict::TrySessions },
        HttpReply::ErrorStatus(code, _) => if *code == 404 { HealthVerdict::TrySessions } else { HealthVerdict::Down },
        HttpReply::Transport(_) => HealthVerdict::Down,
    }
}

/// The `/session` fallback succeeds on a 2xx reply only.
pub fn session_probe_ok(reply: &HttpReply) -> (r: bool)
    ensures
        r == (*reply matches HttpReply::Response(s) && is_success(s)),
{
    match reply {
        HttpReply::Response(s) => 200 <= *s && *s < 300,
        _ => false,
    }
}

/// The endpoint answers: `/health` is up, or it sends the probe on to
/// `/session`, which answers with a 2xx status.
pub open spec fn probe_succeeds(health: HttpReply, sessions: Option<&HttpReply>) -> bool {
    health_verdict_of(health) == HealthVerdict::Up || (health_verdict_of(health) == HealthVerdict::TrySessions
        && match sessions {
        Some(s) => match *s {
            HttpReply::Response(st) => is_success(st),
            _ => false,
        },
        None => false,
    })
}

/// The outcome of the health probe: `health` is the reply to `/health`,
/// `sessions` the reply to `/session` when that was asked.
pub fn probe_outcome(base: &str, health: &HttpReply, sessions: Option<&HttpReply>) -> (r: Result<(), AppError>)
    ensures
        r is Ok <==> probe_succeeds(*health, sessions),
        r matches Err(AppError::EndpointUnreachable(u)) ==> u@ == base@,
        r is Err ==> r matches Err(AppError::EndpointUnreachable(_)),
{
    match health_verdict(health) {
        HealthVerdict::Up => Ok(()),
        HealthVerdict::Down => Err(AppError::EndpointUnreachable(string_of(base))),
        HealthVerdict::TrySessions => {
            match sessions {
                Some(s) => {
                    if session_probe_ok(s) {
                        Ok(())
                    } else {
                        Err(AppError::EndpointUnreachable(string_of(base)))
                    }
                },
                None => Err(AppError::EndpointUnreachable(string_of(base))),
            }
        },
    }
}

/// `r` is the outcome of a delete request answered with `reply`.
pub open spec fn delete_outcome_is(reply: HttpReply, r: Result<DeleteResult, AppError>) -> bool {
    match reply {
        HttpReply::Response(s) => if is_success(s) {
            r matches Ok(DeleteResult::Deleted)
        } else {
            match r {
                Ok(DeleteResult::Refused(m)) => m@ == "unexpected status "@ + decimal(s as nat),
                _ => false,
            }
        },
        HttpReply::ErrorStatus(code, body) => if code == 404 {
            r matches Ok(DeleteResult::NotFound)
        } else {
            match r {
                Ok(DeleteResult::Refused(m)) => m@ == "HTTP "@ + decimal(code as nat) + ": "@ + body@,
                _ => false,
            }
        },
        HttpReply::Transport(e) => match r {
            Err(AppError::Other(m)) => m@ == "delete_session: "@ + e@,
            _ => false,
        },
    }
}

/// 2xx means deleted, 404 means not found, other statuses mean refused
/// (`HTTP <code>: <body>` for error statuses, `unexpected status <code>`
/// otherwise), and a transport failure is an error `delete_session: <text>`.
pub fn delete_outcome(reply: &HttpReply) -> (r: Result<DeleteResult, AppError>)
    ensures
        delete_outcome_is(*reply, r),
{
    match reply {
        HttpReply::Response(s) => {
            if 200 <= *s && *s < 300 {
                Ok(DeleteResult::Deleted)
            } else {
                let mut m = string_of("unexpected status ");
                push_decimal(&mut m, *s as u64);
                Ok(DeleteResult::Refused(m))
            }
        },
        HttpReply::ErrorStatus(code, body) => {
            if *code == 404 {
                Ok(DeleteResult::NotFound)
            } else {
                let mut m = string_of("HTTP ");
                push_decimal(&mut m, *code as u64);
                push_str(&mut m, ": ");
                push_str(&mut m, body.as_str());
                Ok(DeleteResult::Refused(m))
            }
        },
        HttpReply::Transport(e) => {
            let mut m = string_of("delete_session: ");
            push_str(&mut m, e.as_str());
            Err(AppError::Other(m))
        },
    }
}

} // verus!
