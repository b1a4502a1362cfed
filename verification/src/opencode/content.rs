//! From the endpoint's message envelopes to the view of a session.

use vstd::prelude::*;
use crate::opencode::models::{
    MessageEnvelope, MessageInfo, MessageView, OcSessionView, RawPart, ViewPart,
};
use crate::text::{string_of, text_equals};

verus! {

broadcast use vstd::string::group_string_axioms;

/// The characters of an optional string.
pub open spec fn opt_text(o: Option<String>) -> Option<Seq<char>> {
    match o {
        Some(s) => Some(s@),
        None => None,
    }
}

/// The part's `type` is `k`.
pub open spec fn kind_is(raw: RawPart, k: Seq<char>) -> bool {
    opt_text(raw.kind) == Some(k)
}

/// The view keeps the part: text and reasoning parts with their text, tool
/// parts with a name, a state and a status, and step-finish parts. Every other
/// part (step-start and unknown types among them) is dropped.
pub open spec fn part_kept(raw: RawPart) -> bool {
    if kind_is(raw, "text"@) || kind_is(raw, "reasoning"@) {
        raw.text is Some
    } else if kind_is(raw, "tool"@) {
        &&& raw.tool is Some
        &&& raw.state is Some
        &&& raw.state->0.status is Some
    } else {
        kind_is(raw, "step-finish"@)
    }
}

/// `p` is the view of the kept part `raw`. A tool call keeps its output only
/// when its status is `completed`; a missing call id reads as empty, missing
/// token counts as zero.
pub open spec fn part_view_is(raw: RawPart, p: ViewPart) -> bool {
    match p {
        ViewPart::Text(t) => kind_is(raw, "text"@) && raw.text == Some(t),
        ViewPart::Reasoning(t) => kind_is(raw, "reasoning"@) && raw.text == Some(t),
        ViewPart::ToolCall { name, call_id, input, output, status } => {
            &&& kind_is(raw, "tool"@)
            &&& raw.tool == Some(name)
            &&& call_id@ == (match raw.call_id {
                Some(c) => c@,
                None => Seq::<char>::empty(),
            })
            &&& raw.state is Some
            &&& raw.state->0.status == Some(status)
            &&& input == raw.state->0.input
            &&& output == (if status@ == "completed"@ {
                raw.state->0.output
            } else {
                None
            })
        },
        ViewPart::StepFinish { cost, input_tokens, output_tokens } => {
            &&& kind_is(raw, "step-finish"@)
            &&& cost == raw.cost
            &&& input_tokens == (match raw.input_tokens {
                Some(n) => n,
                None => 0,
            })
            &&& output_tokens == (match raw.output_tokens {
                Some(n) => n,
                None => 0,
            })
        },
    }
}

/// `out` is the view of the parts `raws`, in order, the dropped ones left out.
pub open spec fn parts_view_is(raws: Seq<RawPart>, out: Seq<ViewPart>) -> bool
    decreases raws.len(),
{
    if raws.len() == 0 {
        out.len() == 0
    } else if part_kept(raws.last()) {
        &&& out.len() > 0
        &&& part_view_is(raws.last(), out.last())
        &&& parts_view_is(raws.drop_last(), out.drop_last())
    } else {
        parts_view_is(raws.drop_last(), out)
    }
}

fn is_kind(raw: &RawPart, k: &str) -> (r: bool)
    ensures
        r == kind_is(*raw, k@),
{
    match &raw.kind {
        Some(s) => text_equals(s.as_str(), k),
        None => false,
    }
}

/// The view of one raw part, or `None` where the view drops it.
pub fn view_part(raw: RawPart) -> (r: Option<ViewPart>)
    ensures
        r is Some <==> part_kept(raw),
        r matches Some(p) ==> part_view_is(raw, p),
{
    if is_kind(&raw, "text") {
        match raw.text {
            Some(t) => Some(ViewPart::Text(t)),
            None => None,
        }
    } else if is_kind(&raw, "reasoning") {
        match raw.text {
            Some(t) => Some(ViewPart::Reasoning(t)),
            None => None,
        }
    } else if is_kind(&raw, "tool") {
        let call_id = match raw.call_id {
            Some(c) => c,
            None => String::new(),
        };
        match (raw.tool, raw.state) {
            (Some(name), Some(state)) => match state.status {
                Some(status) => {
                    let output = if text_equals(status.as_str(), "completed") {
                        state.output
                    } else {
                        None
                    };
                    Some(ViewPart::ToolCall { name, call_id, input: state.input, output, status })
                },
                None => None,
            },
            _ => None,
        }
    } else if is_kind(&raw, "step-finish") {
        let input_tokens = match raw.input_tokens {
            Some(n) => n,
            None => 0,
        };
        let output_tokens = match raw.output_tokens {
            Some(n) => n,
            None => 0,
        };
        Some(ViewPart::StepFinish { cost: raw.cost, input_tokens, output_tokens })
    } else {
        None
    }
}

/// The model shown for a message: the flat model id of assistant messages,
/// else the id of the nested model object of user messages; an empty id
/// shows none.
pub open spec fn model_label_of(info: MessageInfo) -> Option<Seq<char>> {
    let picked = match info.model_id {
        Some(m) => Some(m@),
        None => match info.model {
            Some(mm) => Some(mm.model_id@),
            None => None,
        },
    };
    match picked {
        Some(s) => if s.len() > 0 { Some(s) } else { None },
        None => None,
    }
}

/// The creation time of a message, zero where it has none.
pub open spec fn created_of(info: MessageInfo) -> i64 {
    match info.time {
        Some(t) => t.created,
        None => 0,
    }
}

/// `v` is the view of the envelope `env`.
pub open spec fn message_view_is(env: MessageEnvelope, v: MessageView) -> bool {
    &&& v.role == env.info.role
    &&& v.created == created_of(env.info)
    &&& opt_text(v.model) == model_label_of(env.info)
    &&& parts_view_is(env.parts@, v.parts@)
}

fn model_label(info: &MessageInfo) -> (r: Option<String>)
    ensures
        opt_text(r) == model_label_of(*info),
{
    let picked: Option<&str> = match &info.model_id {
        Some(m) => Some(m.as_str()),
        None => match &info.model {
            Some(mm) => Some(mm.model_id.as_str()),
            None => None,
        },
    };
    match picked {
        Some(s) => {
            if s.is_empty() {
                None
            } else {
                Some(string_of(s))
            }
        },
        None => None,
    }
}

proof fn lemma_parts_view_push(raws: Seq<RawPart>, out: Seq<ViewPart>, raw: RawPart)
    requires
        parts_view_is(raws, out),
        !part_kept(raw),
    ensures
        parts_view_is(raws.push(raw), out),
{
    assert(raws.push(raw).drop_last() =~= raws);
}

proof fn lemma_parts_view_push_kept(raws: Seq<RawPart>, out: Seq<ViewPart>, raw: RawPart, p: ViewPart)
    requires
        parts_view_is(raws, out),
        part_kept(raw),
        part_view_is(raw, p),
    ensures
        parts_view_is(raws.push(raw), out.push(p)),
{
    assert(raws.push(raw).drop_last() =~= raws);
    assert(out.push(p).drop_last() =~= out);
}

/// The view of one message envelope.
pub fn message_view(env: MessageEnvelope) -> (v: MessageView)
    ensures
        message_view_is(env, v),
{
    let model = model_label(&env.info);
    let created = match env.info.time {
        Some(t) => t.created,
        None => 0,
    };
    let ghost all = env.parts@;
    let mut rest = env.parts;
    let mut parts: Vec<ViewPart> = Vec::new();
    let ghost mut k: int = 0;
    while rest.len() > 0
        invariant
            0 <= k <= all.len(),
            rest@ == all.subrange(k, all.len() as int),
            parts_view_is(all.take(k), parts@),
        decreases rest.len(),
    {
        let raw = rest.remove(0);
        proof {
            assert(raw == all[k]);
            assert(all.take(k + 1) =~= all.take(k).push(raw));
        }
        match view_part(raw) {
            Some(p) => {
                proof {
                    lemma_parts_view_push_kept(all.take(k), parts@, raw, p);
                }
                parts.push(p);
            },
            None => {
                proof {
                    lemma_parts_view_push(all.take(k), parts@, raw);
                }
            },
        }
        proof {
            k = k + 1;
            assert(rest@ =~= all.subrange(k, all.len() as int));
        }
    }
    proof {
        assert(all.take(k) =~= all);
    }
    MessageView { role: env.info.role, created, model, parts }
}

/// The view of a session's messages, one view per envelope, in order.
pub fn session_view(session_id: &str, envelopes: Vec<MessageEnvelope>) -> (r: OcSessionView)
    ensures
        r.session_id@ == session_id@,
        r.messages@.len() == envelopes@.len(),
        forall|i: int|
            0 <= i < envelopes@.len() ==> message_view_is(envelopes@[i], #[trigger] r.messages@[i]),
{
    let ghost all = envelopes@;
    let mut rest = envelopes;
    let mut messages: Vec<MessageView> = Vec::new();
    while rest.len() > 0
        invariant
            messages@.len() <= all.len(),
            rest@ == all.subrange(messages@.len() as int, all.len() as int),
            forall|i: int| 0 <= i < messages@.len() ==> message_view_is(all[i], #[trigger] messages@[i]),
        decreases rest.len(),
    {
        let env = rest.remove(0);
        let ghost k = messages@.len() as int;
        assert(env == all[k]);
        let v = message_view(env);
        messages.push(v);
        assert(rest@ =~= all.subrange(messages@.len() as int, all.len() as int));
    }
    OcSessionView { session_id: string_of(session_id), messages }
}

} // verus!
