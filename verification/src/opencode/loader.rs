//! Turning the endpoint's sessions into the conversations of the session list.
//!
//! The application fetches the sessions and their messages (in parallel, on a
//! background thread); the ordering, the per-session totals, the titles and
//! the batching are decided here.

use vstd::prelude::*;
use crate::error::{AppError, error_text};
use crate::history::{Conversation, ParseError};
use crate::opencode::client::{normalize_base_url, trim_trailing_slashes};
use crate::opencode::models::{MessageEnvelope, Project, Session, UsdAmount};
use crate::text::{
    all_white, chars_of, is_blank, lowercase, push_str, string_from_chars, string_of, text_equals, to_lowercase,
};

verus! {

broadcast use vstd::string::group_string_axioms, vstd::seq_lib::group_seq_lib_default;

/// Number of conversations sent to the interface in one batch.
pub const BATCH_SIZE: usize = 20;

// ---------------------------------------------------------------------------
// Stable ordering, newest first
// ---------------------------------------------------------------------------

/// `order` lists every position of `keys` once, by key from largest to
/// smallest, and positions with equal keys keep their input order.
pub open spec fn stable_newest_first(keys: Seq<i64>, order: Seq<int>) -> bool {
    &&& order.len() == keys.len()
    &&& forall|i: int| 0 <= i < order.len() ==> 0 <= #[trigger] order[i] < keys.len()
    &&& forall|i: int, j: int| 0 <= i < j < order.len() ==> order[i] != order[j]
    &&& forall|i: int, j: int|
        0 <= i < j < order.len() ==> keys[#[trigger] order[i]] >= keys[#[trigger] order[j]]
    &&& forall|i: int, j: int|
        0 <= i < j < order.len() && keys[#[trigger] order[i]] == keys[#[trigger] order[j]] ==> order[i]
            < order[j]
}

pub open spec fn as_ints(v: Seq<usize>) -> Seq<int> {
    v.map_values(|x: usize| x as int)
}

/// The positions of `keys` in stable newest-first order (largest key first).
pub fn newest_first_order(keys: &Vec<i64>) -> (order: Vec<usize>)
    ensures
        stable_newest_first(keys@, as_ints(order@)),
{
    let n = keys.len();
    let mut order: Vec<usize> = Vec::new();
    let mut k: usize = 0;
    while k < n
        invariant
            n == keys@.len(),
            k <= n,
            order@.len() == k,
            forall|i: int| 0 <= i < order@.len() ==> #[trigger] order@[i] < k,
            forall|i: int, j: int| 0 <= i < j < order@.len() ==> order@[i] != order@[j],
            forall|i: int, j: int|
                0 <= i < j < order@.len() ==> keys@[#[trigger] order@[i] as int] >= keys@[#[trigger] order@[j] as int],
            forall|i: int, j: int|
                0 <= i < j < order@.len() && keys@[#[trigger] order@[i] as int] == keys@[#[trigger] order@[j] as int]
                    ==> order@[i] < order@[j],
        decreases n - k,
    {
        let key = keys[k];
        // The first position whose key is smaller than this one.
        let mut p: usize = 0;
        while p < order.len() && keys[order[p]] >= key
            invariant
                p <= order@.len(),
                forall|i: int| 0 <= i < order@.len() ==> #[trigger] order@[i] < keys@.len(),
                forall|i: int| 0 <= i < p ==> keys@[#[trigger] order@[i] as int] >= key,
            decreases order@.len() - p,
        {
            p += 1;
        }
        let ghost old_order = order@;
        order.insert(p, k);
        proof {
            assert(order@ == old_order.insert(p as int, k));
            assert forall|i: int| 0 <= i < order@.len() implies #[trigger] order@[i] < k + 1 by {
                if i < p {
                    assert(order@[i] == old_order[i]);
                } else if i > p {
                    assert(order@[i] == old_order[i - 1]);
                }
            }
            assert forall|i: int, j: int| 0 <= i < j < order@.len() implies order@[i] != order@[j] by {
                if i < p && j < p {
                } else if i < p && j == p {
                    assert(old_order[i] < k);
                } else if i < p {
                    assert(order@[j] == old_order[j - 1]);
                } else if i == p {
                    assert(order@[j] == old_order[j - 1]);
                    assert(old_order[j - 1] < k);
                } else {
                    assert(order@[i] == old_order[i - 1]);
                    assert(order@[j] == old_order[j - 1]);
                }
            }
            assert forall|i: int, j: int| 0 <= i < j < order@.len() implies keys@[#[trigger] order@[i] as int]
                >= keys@[#[trigger] order@[j] as int] && (keys@[order@[i] as int] == keys@[order@[j] as int]
                ==> order@[i] < order@[j]) by {
                if j < p {
                    assert(order@[i] == old_order[i]);
                    assert(order@[j] == old_order[j]);
                } else if j == p {
                    assert(order@[i] == old_order[i]);
                    assert(old_order[i] < k);
                } else if i < p {
                    assert(order@[i] == old_order[i]);
                    assert(order@[j] == old_order[j - 1]);
                } else if i == p {
                    assert(order@[j] == old_order[j - 1]);
                    // old_order[p] has a smaller key than `key`, and the keys
                    // after it are no larger.
                    assert(keys@[old_order[p as int] as int] < key);
                    if j - 1 > p {
                        assert(keys@[old_order[p as int] as int] >= keys@[old_order[j - 1] as int]);
                    }
                } else {
                    assert(order@[i] == old_order[i - 1]);
                    assert(order@[j] == old_order[j - 1]);
                }
            }
        }
        k += 1;
    }
    proof {
        let o = as_ints(order@);
        assert forall|i: int| 0 <= i < o.len() implies 0 <= #[trigger] o[i] < keys@.len() by {
        }
        assert forall|i: int, j: int| 0 <= i < j < o.len() implies o[i] != o[j] by {
        }
        assert forall|i: int, j: int| 0 <= i < j < o.len() implies keys@[#[trigger] o[i]]
            >= keys@[#[trigger] o[j]] by {
            assert(o[i] == order@[i] as int);
            assert(o[j] == order@[j] as int);
        }
        assert forall|i: int, j: int| 0 <= i < j < o.len() && keys@[#[trigger] o[i]] == keys@[#[trigger] o[j]]
            implies o[i] < o[j] by {
            assert(o[i] == order@[i] as int);
            assert(o[j] == order@[j] as int);
        }
    }
    order
}

/// `out` holds the items of `items` at the positions `order`.
pub open spec fn permuted<T>(items: Seq<T>, order: Seq<int>, out: Seq<T>) -> bool {
    &&& out.len() == order.len()
    &&& forall|i: int| 0 <= i < out.len() ==> out[i] == items[#[trigger] order[i]]
}

/// Moves the items of `items` into the positions listed in `order`.
pub fn permute<T>(items: Vec<T>, order: &Vec<usize>) -> (out: Vec<T>)
    requires
        order@.len() == items@.len(),
        forall|i: int| 0 <= i < order@.len() ==> #[trigger] order@[i] < items@.len(),
        forall|i: int, j: int| 0 <= i < j < order@.len() ==> order@[i] != order@[j],
    ensures
        permuted(items@, as_ints(order@), out@),
{
    let ghost all = items@;
    let n = items.len();
    let mut slots: Vec<Option<T>> = Vec::new();
    let mut rest = items;
    while rest.len() > 0
        invariant
            slots@.len() <= all.len(),
            rest@ == all.subrange(slots@.len() as int, all.len() as int),
            forall|i: int| 0 <= i < slots@.len() ==> #[trigger] slots@[i] == Some(all[i]),
        decreases rest.len(),
    {
        let x = rest.remove(0);
        slots.push(Some(x));
        assert(rest@ =~= all.subrange(slots@.len() as int, all.len() as int));
    }
    let mut out: Vec<T> = Vec::new();
    let mut i: usize = 0;
    while i < n
        invariant
            n == all.len(),
            n == order@.len(),
            slots@.len() == n,
            i <= n,
            out@.len() == i,
            forall|a: int| 0 <= a < n ==> #[trigger] order@[a] < n,
            forall|a: int, b: int| 0 <= a < b < n ==> order@[a] != order@[b],
            forall|a: int| 0 <= a < i ==> out@[a] == all[#[trigger] order@[a] as int],
            forall|t: int|
                0 <= t < n ==> (#[trigger] slots@[t] == Some(all[t]) || exists|a: int|
                    0 <= a < i && order@[a] == t),
        decreases n - i,
    {
        let j = order[i];
        proof {
            if !(slots@[j as int] == Some(all[j as int])) {
                let a = choose|a: int| 0 <= a < i && order@[a] == j;
                assert(order@[a] != order@[i as int]);
            }
        }
        let ghost before_slots = slots@;
        let slot = slots.remove(j);
        slots.insert(j, None);
        match slot {
            Some(x) => {
                out.push(x);
            },
            None => {
                assert(false);
            },
        }
        proof {
            assert forall|t: int| 0 <= t < n implies (#[trigger] slots@[t] == Some(all[t]) || exists|a: int|
                0 <= a < i + 1 && order@[a] == t) by {
                if t == j {
                    assert(order@[i as int] == t);
                } else {
                    assert(slots@[t] == before_slots[t]);
                }
            }
        }
        i += 1;
    }
    proof {
        assert forall|a: int| 0 <= a < out@.len() implies out@[a] == all[#[trigger] as_ints(order@)[a]] by {
            assert(as_ints(order@)[a] == order@[a] as int);
        }
    }
    out
}

/// The sessions ordered by last update, newest first; sessions updated at the
/// same time keep their order.
pub fn sessions_newest_first(sessions: Vec<Session>) -> (r: Vec<Session>)
    ensures
        exists|order: Seq<int>|
            stable_newest_first(sessions@.map_values(|s: Session| s.time.updated), order)
                && #[trigger] permuted(sessions@, order, r@),
{
    let mut keys: Vec<i64> = Vec::new();
    let mut i: usize = 0;
    while i < sessions.len()
        invariant
            i <= sessions@.len(),
            keys@ == sessions@.take(i as int).map_values(|s: Session| s.time.updated),
        decreases sessions@.len() - i,
    {
        keys.push(sessions[i].time.updated);
        assert(sessions@.take(i + 1) =~= sessions@.take(i as int).push(sessions@[i as int]));
        i += 1;
    }
    assert(sessions@.take(sessions@.len() as int) =~= sessions@);
    let order = newest_first_order(&keys);
    let ghost o = as_ints(order@);
    proof {
        assert forall|a: int| 0 <= a < order@.len() implies #[trigger] order@[a] < sessions@.len() by {
            assert(o[a] == order@[a] as int);
        }
        assert forall|a: int, b: int| 0 <= a < b < order@.len() implies order@[a] != order@[b] by {
            assert(o[a] == order@[a] as int);
            assert(o[b] == order@[b] as int);
        }
    }
    let r = permute(sessions, &order);
    assert(permuted(sessions@, o, r@));
    r
}

// ---------------------------------------------------------------------------
// Per-session totals
// ---------------------------------------------------------------------------

/// Totals over a session's messages.
#[derive(Debug, Clone, Copy)]
pub struct MessageTotals {
    /// Messages whose role is `assistant`.
    pub turn_count: usize,
    pub tokens_in: u64,
    pub tokens_out: u64,
    pub tokens_reasoning: u64,
    pub message_count: usize,
}

pub open spec fn is_assistant(e: MessageEnvelope) -> bool {
    e.info.role@ == "assistant"@
}

pub open spec fn assistant_count(es: Seq<MessageEnvelope>) -> nat
    decreases es.len(),
{
    if es.len() == 0 {
        0
    } else {
        assistant_count(es.drop_last()) + if is_assistant(es.last()) { 1nat } else { 0nat }
    }
}

/// Sum over the messages that report token counts of the count chosen by `which`
/// (0: input, 1: output, otherwise reasoning).
pub open spec fn token_sum(es: Seq<MessageEnvelope>, which: int) -> nat
    decreases es.len(),
{
    if es.len() == 0 {
        0
    } else {
        token_sum(es.drop_last(), which) + match es.last().info.tokens {
            Some(t) => if which == 0 {
                t.input as nat
            } else if which == 1 {
                t.output as nat
            } else {
                t.reasoning as nat
            },
            None => 0nat,
        }
    }
}

/// 2^64: the counters wrap around at this value.
pub open spec fn wrap_modulus() -> nat {
    0x1_0000_0000_0000_0000
}

/// A 64-bit sum that wraps around, as the token counters add up.
pub open spec fn wrapped(n: nat) -> u64 {
    (n % wrap_modulus()) as u64
}

/// Adding `c` to a counter that holds `a` wrapped gives `a + c` wrapped.
proof fn lemma_wrap_step(a: nat, c: u64, prev: u64)
    requires
        prev == wrapped(a),
    ensures
        (if prev + c > u64::MAX { prev + c - wrap_modulus() } else { prev + c }) == wrapped((a + c) as nat),
{
    let m = wrap_modulus() as int;
    vstd::arithmetic::div_mod::lemma_add_mod_noop(a as int, c as int, m);
    vstd::arithmetic::div_mod::lemma_small_mod(c as nat, m as nat);
    if prev + c > u64::MAX {
        assert((prev + c) % m == prev + c - m) by (nonlinear_arith)
            requires
                m <= prev + c < 2 * m,
        ;
    } else {
        vstd::arithmetic::div_mod::lemma_small_mod((prev + c) as nat, m as nat);
    }
}

/// Counts the assistant messages and sums the token counts of a session's
/// messages; the sums wrap around at 2^64.
pub fn aggregate(envelopes: &Vec<MessageEnvelope>) -> (r: MessageTotals)
    ensures
        r.turn_count == assistant_count(envelopes@),
        r.tokens_in == wrapped(token_sum(envelopes@, 0)),
        r.tokens_out == wrapped(token_sum(envelopes@, 1)),
        r.tokens_reasoning == wrapped(token_sum(envelopes@, 2)),
        r.message_count == envelopes@.len(),
{
    let mut turn_count: usize = 0;
    let mut tokens_in: u64 = 0;
    let mut tokens_out: u64 = 0;
    let mut tokens_reasoning: u64 = 0;
    let mut i: usize = 0;
    let assistant = string_of("assistant");
    while i < envelopes.len()
        invariant
            i <= envelopes@.len(),
            assistant@ == "assistant"@,
            turn_count == assistant_count(envelopes@.take(i as int)),
            turn_count <= i,
            tokens_in == wrapped(token_sum(envelopes@.take(i as int), 0)),
            tokens_out == wrapped(token_sum(envelopes@.take(i as int), 1)),
            tokens_reasoning == wrapped(token_sum(envelopes@.take(i as int), 2)),
        decreases envelopes@.len() - i,
    {
        let ghost t = envelopes@.take(i + 1);
        assert(t.drop_last() =~= envelopes@.take(i as int));
        let e = &envelopes[i];
        if e.info.role == assistant {
            turn_count += 1;
        }
        match &e.info.tokens {
            Some(tc) => {
                proof {
                    lemma_wrap_step(token_sum(envelopes@.take(i as int), 0), tc.input, tokens_in);
                    lemma_wrap_step(token_sum(envelopes@.take(i as int), 1), tc.output, tokens_out);
                    lemma_wrap_step(token_sum(envelopes@.take(i as int), 2), tc.reasoning, tokens_reasoning);
                }
                tokens_in = tokens_in.wrapping_add(tc.input);
                tokens_out = tokens_out.wrapping_add(tc.output);
                tokens_reasoning = tokens_reasoning.wrapping_add(tc.reasoning);
            },
            None => {},
        }
        i += 1;
    }
    assert(envelopes@.take(i as int) =~= envelopes@);
    MessageTotals {
        turn_count,
        tokens_in,
        tokens_out,
        tokens_reasoning,
        message_count: envelopes.len(),
    }
}

// ---------------------------------------------------------------------------
// Conversations
// ---------------------------------------------------------------------------

/// The session id without a leading `ses_`.
pub open spec fn id_stem(id: Seq<char>) -> Seq<char> {
    if id.len() >= 4 && id.take(4) == "ses_"@ {
        id.skip(4)
    } else {
        id
    }
}

/// The first `n` characters of `s`, or all of them when it is shorter.
pub open spec fn first_chars(s: Seq<char>, n: nat) -> Seq<char> {
    if s.len() <= n {
        s
    } else {
        s.take(n as int)
    }
}

/// The title shown for a session: its own title unless that is blank, else
/// `ses_` and the first seven characters of the id after its `ses_` prefix.
pub open spec fn session_title_of(title: Seq<char>, id: Seq<char>) -> Seq<char> {
    if all_white(title) {
        "ses_"@ + first_chars(id_stem(id), 7)
    } else {
        title
    }
}

/// The title shown for `session` in the list.
pub fn session_title(session: &Session) -> (r: String)
    ensures
        r@ == session_title_of(session.title@, session.id@),
{
    if is_blank(session.title.as_str()) {
        let cs = chars_of(session.id.as_str());
        let prefix = chars_of("ses_");
        proof {
            reveal_strlit("ses_");
        }
        let start: usize = if cs.len() >= 4 && cs[0] == prefix[0] && cs[1] == prefix[1] && cs[2] == prefix[2]
            && cs[3] == prefix[3] {
            assert(cs@.take(4) =~= "ses_"@);
            4
        } else {
            assert(cs@.len() >= 4 ==> cs@.take(4) != "ses_"@) by {
                if cs@.len() >= 4 && cs@.take(4) == "ses_"@ {
                    assert(cs@.take(4)[0] == cs@[0]);
                    assert(cs@.take(4)[1] == cs@[1]);
                    assert(cs@.take(4)[2] == cs@[2]);
                    assert(cs@.take(4)[3] == cs@[3]);
                }
            }
            0
        };
        let end: usize = if cs.len() - start > 7 { start + 7 } else { cs.len() };
        let mut r = string_of("ses_");
        let tail = string_from_chars(&cs.as_slice()[start..end]);
        push_str(&mut r, tail.as_str());
        assert(id_stem(session.id@) =~= cs@.skip(start as int));
        assert(cs@.subrange(start as int, end as int) =~= first_chars(cs@.skip(start as int), 7));
        r
    } else {
        session.title.clone()
    }
}

// ---------------------------------------------------------------------------
// Projects
// ---------------------------------------------------------------------------

/// The worktree of the first project with id `id`, if one is listed.
pub open spec fn project_worktree_of(projects: Seq<Project>, id: Seq<char>) -> Option<Seq<char>>
    decreases projects.len(),
{
    if projects.len() == 0 {
        None
    } else {
        match project_worktree_of(projects.drop_last(), id) {
            Some(w) => Some(w),
            None => if projects.last().id@ == id { Some(projects.last().worktree@) } else { None },
        }
    }
}

/// The worktree of the session's project among the projects the endpoint lists.
pub fn project_worktree(projects: &Vec<Project>, project_id: &str) -> (r: Option<String>)
    ensures
        opt_seq(r) == project_worktree_of(projects@, project_id@),
{
    let mut i: usize = 0;
    while i < projects.len()
        invariant
            i <= projects@.len(),
            project_worktree_of(projects@.take(i as int), project_id@) is None,
        decreases projects@.len() - i,
    {
        assert(projects@.take(i + 1).drop_last() =~= projects@.take(i as int));
        if text_equals(projects[i].id.as_str(), project_id) {
            proof {
                lemma_worktree_found(projects@, project_id@, i as int);
            }
            return Some(projects[i].worktree.clone());
        }
        i += 1;
    }
    assert(projects@.take(projects@.len() as int) =~= projects@);
    None
}

pub open spec fn opt_seq(o: Option<String>) -> Option<Seq<char>> {
    match o {
        Some(t) => Some(t@),
        None => None,
    }
}

/// A match at `i` with none before it is what the whole list gives.
proof fn lemma_worktree_found(projects: Seq<Project>, id: Seq<char>, i: int)
    requires
        0 <= i < projects.len(),
        project_worktree_of(projects.take(i), id) is None,
        projects[i].id@ == id,
    ensures
        project_worktree_of(projects, id) == Some(projects[i].worktree@),
{
    lemma_worktree_found_prefix(projects, id, i, projects.len() as int);
    assert(projects.take(projects.len() as int) =~= projects);
}

/// Once the prefix up to `i + 1` gives a worktree, every longer prefix gives it.
proof fn lemma_worktree_found_prefix(projects: Seq<Project>, id: Seq<char>, i: int, k: int)
    requires
        0 <= i < k <= projects.len(),
        project_worktree_of(projects.take(i), id) is None,
        projects[i].id@ == id,
    ensures
        project_worktree_of(projects.take(k), id) == Some(projects[i].worktree@),
    decreases k - i,
{
    if k == i + 1 {
        assert(projects.take(k).drop_last() =~= projects.take(i));
    } else {
        lemma_worktree_found_prefix(projects, id, i, k - 1);
        assert(projects.take(k).drop_last() =~= projects.take(k - 1));
    }
}

/// Where the last path segment of `t` starts: after its last `/`.
pub open spec fn segment_start(t: Seq<char>) -> int
    decreases t.len(),
{
    if t.len() == 0 {
        0
    } else if t.last() == '/' {
        t.len() as int
    } else {
        segment_start(t.drop_last())
    }
}

/// The short name of a project path: its last segment, trailing slashes
/// ignored; a path of slashes only (the root) is its own short name.
pub open spec fn short_name_of(path: Seq<char>) -> Seq<char> {
    let t = trim_trailing_slashes(path);
    if t.len() == 0 { path } else { t.skip(segment_start(t)) }
}

/// The short name of a project path (see `short_name_of`).
pub fn project_short_name(path: &str) -> (r: String)
    ensures
        r@ == short_name_of(path@),
{
    let t = normalize_base_url(path);
    if t.as_str().is_empty() {
        return string_of(path);
    }
    let cs = chars_of(t.as_str());
    let n = cs.len();
    let mut i: usize = n;
    assert(cs@.take(n as int) =~= cs@);
    while i > 0 && cs[i - 1] != '/'
        invariant
            i <= n == cs@.len(),
            segment_start(cs@.take(i as int)) == segment_start(cs@),
        decreases i,
    {
        assert(cs@.take(i as int).drop_last() =~= cs@.take(i - 1));
        i -= 1;
    }
    proof {
        if i > 0 {
            assert(cs@.take(i as int).last() == cs@[i - 1]);
        }
    }
    assert(cs@.subrange(i as int, n as int) =~= cs@.skip(i as int));
    string_from_chars(&cs.as_slice()[i..n])
}

/// The lowercased text that the list search runs over: the title and the
/// project's short name.
pub open spec fn search_text_of(title: Seq<char>, short: Seq<char>) -> Seq<char> {
    lowercase(title + " "@ + short)
}

/// The parse error recorded when a session's messages could not be fetched.
pub open spec fn fetch_error_text(id: Seq<char>, e: AppError) -> Seq<char> {
    "list_messages("@ + id + "): "@ + error_text(e)
}

/// `c` is the conversation of `session` at list position `idx`, with the
/// totals of its messages (or the failure to fetch them) and its total cost.
pub open spec fn conversation_of(
    c: Conversation,
    idx: usize,
    session: Session,
    fetched: Result<MessageTotals, AppError>,
    cost: UsdAmount,
    worktree: Option<Seq<char>>,
) -> bool {
    let project = match worktree {
        Some(w) => w,
        None => session.directory@,
    };
    let t = match fetched {
        Ok(t) => t,
        Err(_) => MessageTotals {
            turn_count: 0,
            tokens_in: 0,
            tokens_out: 0,
            tokens_reasoning: 0,
            message_count: 0,
        },
    };
    &&& c.id@ == session.id@
    &&& c.index == idx
    &&& c.timestamp_ms == session.time.updated
    &&& c.title@ == session_title_of(session.title@, session.id@)
    &&& c.project@ == project
    &&& c.turn_count == t.turn_count
    &&& c.cost_usd == cost
    &&& c.tokens_in == t.tokens_in
    &&& c.tokens_out == t.tokens_out
    &&& c.tokens_reasoning == t.tokens_reasoning
    &&& c.path@ == session.id@
    &&& c.project_name matches Some(n) && n@ == short_name_of(project)
    &&& c.summary is None
    &&& c.custom_title is None
    &&& c.model is None
    &&& c.total_tokens == wrapped((t.tokens_in + t.tokens_out + t.tokens_reasoning) as nat)
    &&& c.message_count == t.message_count
    &&& c.duration_minutes is None
    &&& c.preview@.len() == 0
    &&& c.preview_first@.len() == 0
    &&& c.preview_last@.len() == 0
    &&& c.full_text@.len() == 0
    &&& c.search_text_lower@ == search_text_of(session_title_of(session.title@, session.id@), short_name_of(project))
    &&& c.project_path is None
    &&& c.cwd is None
    &&& match fetched {
        Ok(_) => c.parse_errors@.len() == 0,
        Err(e) => c.parse_errors@.len() == 1 && c.parse_errors@[0].line == 0
            && c.parse_errors@[0].message@ == fetch_error_text(session.id@, e),
    }
}

/// The list entry of a session. `fetched` holds the totals of its messages,
/// or the error of fetching them; `cost` their total cost (zero on error);
/// `worktree` the worktree of its project (see `project_worktree`), which is
/// the conversation's project, else the session's directory is.
pub fn build_conversation(
    idx: usize,
    session: &Session,
    fetched: Result<MessageTotals, AppError>,
    cost: UsdAmount,
    worktree: Option<String>,
) -> (c: Conversation)
    ensures
        conversation_of(c, idx, *session, fetched, cost, opt_seq(worktree)),
{
    let project = match worktree {
        Some(w) => w,
        None => session.directory.clone(),
    };
    let short = project_short_name(project.as_str());
    let title = session_title(session);
    let mut joined = title.clone();
    push_str(&mut joined, " ");
    push_str(&mut joined, short.as_str());
    let search_text_lower = to_lowercase(joined.as_str());
    let (totals, parse_errors) = match &fetched {
        Ok(t) => (*t, Vec::new()),
        Err(e) => {
            let mut m = string_of("list_messages(");
            push_str(&mut m, session.id.as_str());
            push_str(&mut m, "): ");
            let text = e.message();
            push_str(&mut m, text.as_str());
            let mut errs: Vec<ParseError> = Vec::new();
            errs.push(ParseError { line: 0, message: m });
            (
                MessageTotals {
                    turn_count: 0,
                    tokens_in: 0,
                    tokens_out: 0,
                    tokens_reasoning: 0,
                    message_count: 0,
                },
                errs,
            )
        },
    };
    Conversation {
        id: session.id.clone(),
        index: idx,
        timestamp_ms: session.time.updated,
        title,
        project,
        turn_count: totals.turn_count,
        cost_usd: cost,
        tokens_in: totals.tokens_in,
        tokens_out: totals.tokens_out,
        tokens_reasoning: totals.tokens_reasoning,
        path: session.id.clone(),
        project_name: Some(short),
        summary: None,
        custom_title: None,
        model: None,
        total_tokens: totals.tokens_in.wrapping_add(totals.tokens_out).wrapping_add(totals.tokens_reasoning),
        message_count: totals.message_count,
        duration_minutes: None,
        preview: String::new(),
        preview_first: String::new(),
        preview_last: String::new(),
        full_text: String::new(),
        search_text_lower,
        parse_errors,
        project_path: None,
        cwd: None,
    }
}

// ---------------------------------------------------------------------------
// Batches
// ---------------------------------------------------------------------------

/// The concatenation of `batches`.
pub open spec fn flatten<T>(batches: Seq<Seq<T>>) -> Seq<T>
    decreases batches.len(),
{
    if batches.len() == 0 {
        Seq::empty()
    } else {
        flatten(batches.drop_last()) + batches.last()
    }
}

/// `batches` cut `items` into consecutive runs of `BATCH_SIZE`, the last run
/// possibly shorter; no run is empty.
pub open spec fn batched<T>(items: Seq<T>, batches: Seq<Seq<T>>) -> bool {
    &&& flatten(batches) == items
    &&& batches.len() == (items.len() + BATCH_SIZE - 1) / (BATCH_SIZE as int)
    &&& forall|i: int| 0 <= i < batches.len() ==> 0 < (#[trigger] batches[i]).len() <= BATCH_SIZE
    &&& forall|i: int| 0 <= i < batches.len() - 1 ==> (#[trigger] batches[i]).len() == BATCH_SIZE
}

/// The batches sent for `items`: one empty batch when there is nothing, so
/// that at least one batch always comes before the end of loading.
pub open spec fn batches_sent<T>(items: Seq<T>, batches: Seq<Seq<T>>) -> bool {
    if items.len() == 0 {
        batches.len() == 1 && batches[0].len() == 0
    } else {
        batched(items, batches)
    }
}

pub open spec fn views_of<T>(v: Seq<Vec<T>>) -> Seq<Seq<T>> {
    v.map_values(|b: Vec<T>| b@)
}

/// Cuts the loaded conversations into the batches sent to the interface.
pub fn into_batches<T>(items: Vec<T>) -> (r: Vec<Vec<T>>)
    ensures
        batches_sent(items@, views_of(r@)),
{
    let ghost all = items@;
    let mut rest = items;
    let mut out: Vec<Vec<T>> = Vec::new();
    let mut cur: Vec<T> = Vec::new();
    let ghost mut k: int = 0;
    while rest.len() > 0
        invariant
            0 <= k <= all.len(),
            rest@ == all.subrange(k, all.len() as int),
            flatten(views_of(out@)) + cur@ == all.take(k),
            cur@.len() < BATCH_SIZE,
            k == out@.len() * BATCH_SIZE + cur@.len(),
            forall|i: int| 0 <= i < out@.len() ==> (#[trigger] out@[i])@.len() == BATCH_SIZE,
        decreases rest.len(),
    {
        let x = rest.remove(0);
        cur.push(x);
        proof {
            assert(all.take(k + 1) =~= all.take(k).push(all[k]));
            k = k + 1;
            assert(rest@ =~= all.subrange(k, all.len() as int));
        }
        if cur.len() == BATCH_SIZE {
            let ghost before = views_of(out@);
            out.push(cur);
            cur = Vec::new();
            proof {
                assert(views_of(out@).drop_last() =~= before);
                assert(flatten(views_of(out@)) + cur@ =~= flatten(before) + views_of(out@).last());
            }
        }
    }
    if cur.len() > 0 || out.len() == 0 {
        let ghost before = views_of(out@);
        out.push(cur);
        proof {
            assert(views_of(out@).drop_last() =~= before);
        }
    }
    proof {
        assert(all.take(k) =~= all);
        let b = views_of(out@);
        if all.len() > 0 {
            assert forall|i: int| 0 <= i < b.len() implies 0 < (#[trigger] b[i]).len() <= BATCH_SIZE by {
            }
            assert(b.len() == (all.len() + BATCH_SIZE - 1) / (BATCH_SIZE as int));
        } else {
            assert(b.len() == 1);
        }
    }
    out
}

/// The error reported when the session list itself cannot be fetched.
pub fn list_sessions_failure(e: &AppError) -> (r: String)
    ensures
        r@ == "list_sessions: "@ + error_text(*e),
{
    let mut r = string_of("list_sessions: ");
    let t = e.message();
    push_str(&mut r, t.as_str());
    r
}

} // verus!
