//! Display names of sessions from the global history log: the first
//! meaningful user message of each session.

use vstd::prelude::*;
use crate::text::string_of;

verus! {

/// A single entry of the global history log.
#[derive(Debug)]
pub struct HistoryEntry {
    pub display: String,
    pub session_id: String,
    pub project: String,
    pub timestamp: i64,
    pub paste_contents: serde_json::Value,
}

/// A display text is meaningful when it is not empty, not `.`, and not a
/// slash command.
pub open spec fn meaningful(d: Seq<char>) -> bool {
    d.len() > 0 && d != "."@ && d[0] != '/'
}

pub fn is_meaningful_display(display: &str) -> (r: bool)
    ensures
        r == meaningful(display@),
{
    let n = display.unicode_len();
    if n == 0 {
        return false;
    }
    let dot = string_of(".");
    let d = string_of(display);
    if d == dot {
        return false;
    }
    display.get_char(0) != '/'
}

/// The display name of `sid` among the first `k` entries: the first
/// meaningful display of an entry of that session.
pub open spec fn first_display(entries: Seq<(Seq<char>, Seq<char>)>, sid: Seq<char>, k: int) -> Option<Seq<char>>
    decreases k,
{
    if k <= 0 {
        None
    } else {
        match first_display(entries, sid, k - 1) {
            Some(d) => Some(d),
            None => if entries[k - 1].0 == sid && meaningful(entries[k - 1].1) {
                Some(entries[k - 1].1)
            } else {
                None
            },
        }
    }
}

/// (session id, display) of each entry.
pub open spec fn entry_pairs(entries: Seq<HistoryEntry>) -> Seq<(Seq<char>, Seq<char>)> {
    entries.map_values(|e: HistoryEntry| (e.session_id@, e.display@))
}

/// Pairs `(session, display)`, one per session that has a meaningful display,
/// in the order sessions first appear among the meaningful entries.
pub fn session_display_pairs(entries: &Vec<HistoryEntry>) -> (r: Vec<(String, String)>)
    ensures
        forall|i: int|
            0 <= i < r@.len() ==> first_display(entry_pairs(entries@), (#[trigger] r@[i]).0@, entries@.len() as int)
                == Some(r@[i].1@),
        forall|i: int, j: int| 0 <= i < j < r@.len() ==> (#[trigger] r@[i]).0@ != (#[trigger] r@[j]).0@,
        forall|k: int|
            0 <= k < entries@.len() && meaningful(entries@[k].display@) ==> exists|i: int|
                0 <= i < r@.len() && (#[trigger] r@[i]).0@ == entries@[k].session_id@,
{
    let ghost ev = entry_pairs(entries@);
    let mut r: Vec<(String, String)> = Vec::new();
    let mut k: usize = 0;
    while k < entries.len()
        invariant
            ev == entry_pairs(entries@),
            k <= entries@.len(),
            forall|i: int|
                0 <= i < r@.len() ==> first_display(ev, (#[trigger] r@[i]).0@, k as int) == Some(r@[i].1@),
            forall|i: int, j: int| 0 <= i < j < r@.len() ==> (#[trigger] r@[i]).0@ != (#[trigger] r@[j]).0@,
            forall|m: int|
                0 <= m < k && meaningful(entries@[m].display@) ==> exists|i: int|
                    0 <= i < r@.len() && (#[trigger] r@[i]).0@ == entries@[m].session_id@,
            forall|sid: Seq<char>|
                #[trigger] first_display(ev, sid, k as int) is Some ==> exists|i: int|
                    0 <= i < r@.len() && (#[trigger] r@[i]).0@ == sid,
        decreases entries@.len() - k,
    {
        let e = &entries[k];
        let mut found = false;
        let mut i: usize = 0;
        while i < r.len()
            invariant
                i <= r@.len(),
                found == (exists|j: int| 0 <= j < i && (#[trigger] r@[j]).0@ == e.session_id@),
            decreases r@.len() - i,
        {
            if r[i].0 == e.session_id {
                found = true;
            }
            i += 1;
        }
        let ghost old_r = r@;
        let meaningful_now = is_meaningful_display(e.display.as_str());
        proof {
            assert(ev[k as int] == (e.session_id@, e.display@));
        }
        if !found && meaningful_now {
            r.push((e.session_id.clone(), e.display.clone()));
            proof {
                assert forall|sid: Seq<char>| #[trigger] first_display(ev, sid, k + 1) is Some implies exists|j: int|
                    0 <= j < r@.len() && (#[trigger] r@[j]).0@ == sid by {
                    if first_display(ev, sid, k as int) is Some {
                        let j = choose|j: int| 0 <= j < old_r.len() && (#[trigger] old_r[j]).0@ == sid;
                        assert(r@[j] == old_r[j]);
                    } else {
                        assert(r@[old_r.len() as int].0@ == sid);
                    }
                }
                assert forall|m: int|
                    0 <= m < k + 1 && meaningful(entries@[m].display@) implies exists|i: int|
                    0 <= i < r@.len() && (#[trigger] r@[i]).0@ == entries@[m].session_id@ by {
                    if m < k {
                        let j = choose|j: int| 0 <= j < old_r.len() && (#[trigger] old_r[j]).0@ == entries@[m].session_id@;
                        assert(r@[j] == old_r[j]);
                    } else {
                        assert(r@[old_r.len() as int].0@ == entries@[m].session_id@);
                    }
                }
                assert forall|a: int| 0 <= a < r@.len() implies first_display(ev, (#[trigger] r@[a]).0@, k + 1) == Some(r@[a].1@) by {
                    if a < old_r.len() {
                        assert(r@[a] == old_r[a]);
                    } else {
                        if first_display(ev, e.session_id@, k as int) is Some {
                            let j = choose|j: int| 0 <= j < old_r.len() && (#[trigger] old_r[j]).0@ == e.session_id@;
                        }
                    }
                }
            }
        } else {
            proof {
                assert forall|a: int| 0 <= a < r@.len() implies first_display(ev, (#[trigger] r@[a]).0@, k + 1) == Some(r@[a].1@) by {
                    assert(first_display(ev, r@[a].0@, k as int) is Some);
                }
                assert forall|sid: Seq<char>| #[trigger] first_display(ev, sid, k + 1) is Some implies exists|j: int|
                    0 <= j < r@.len() && (#[trigger] r@[j]).0@ == sid by {
                    if first_display(ev, sid, k as int) is None {
                        assert(sid == e.session_id@);
                    }
                }
                assert forall|m: int|
                    0 <= m < k + 1 && meaningful(entries@[m].display@) implies exists|i: int|
                    0 <= i < r@.len() && (#[trigger] r@[i]).0@ == entries@[m].session_id@ by {
                    if m == k {
                        assert(found);
                    }
                }
            }
        }
        k += 1;
    }
    r
}

} // verus!
