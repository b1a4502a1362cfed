//! Editing of the search line: a text and a cursor counted in characters.
//!
//! Each operation is a function from (text, cursor) to a new (text, cursor),
//! stated over `Seq<char>`.

use vstd::prelude::*;
use crate::text::{is_alphanumeric, unicode_alphanumeric};

verus! {

broadcast use vstd::seq_lib::group_seq_lib_default;

/// Characters that separate words of the search line: everything but letters
/// and digits.
pub open spec fn is_word_separator(c: char) -> bool {
    !unicode_alphanumeric(c)
}

pub fn word_separator(c: char) -> (r: bool)
    ensures
        r == is_word_separator(c),
{
    !is_alphanumeric(c)
}

/// Moving left from `p` over characters whose separator-ness is `sep`.
pub open spec fn skip_left(q: Seq<char>, p: int, sep: bool) -> int
    decreases p,
{
    if p > 0 && p <= q.len() && is_word_separator(q[p - 1]) == sep {
        skip_left(q, p - 1, sep)
    } else {
        p
    }
}

/// Moving right from `p` over characters whose separator-ness is `sep`.
pub open spec fn skip_right(q: Seq<char>, p: int, sep: bool) -> int
    decreases q.len() - p,
{
    if 0 <= p < q.len() && is_word_separator(q[p]) == sep {
        skip_right(q, p + 1, sep)
    } else {
        p
    }
}

pub open spec fn clamp_to(p: int, n: int) -> int {
    if p < n { p } else { n }
}

/// The start of the word before `cursor`: separators, then the word, are passed.
pub open spec fn word_left_of(q: Seq<char>, cursor: int) -> int {
    skip_left(q, skip_left(q, clamp_to(cursor, q.len() as int), true), false)
}

/// The position after the word at `cursor` and the separators that follow it.
pub open spec fn word_right_of(q: Seq<char>, cursor: int) -> int {
    skip_right(q, skip_right(q, clamp_to(cursor, q.len() as int), false), true)
}

proof fn lemma_skip_left_bounds(q: Seq<char>, p: int, sep: bool)
    requires
        0 <= p <= q.len(),
    ensures
        0 <= skip_left(q, p, sep) <= p,
    decreases p,
{
    if p > 0 && is_word_separator(q[p - 1]) == sep {
        lemma_skip_left_bounds(q, p - 1, sep);
    }
}

proof fn lemma_skip_right_bounds(q: Seq<char>, p: int, sep: bool)
    requires
        0 <= p <= q.len(),
    ensures
        p <= skip_right(q, p, sep) <= q.len(),
    decreases q.len() - p,
{
    if p < q.len() && is_word_separator(q[p]) == sep {
        lemma_skip_right_bounds(q, p + 1, sep);
    }
}

fn skip_left_exec(q: &Vec<char>, p: usize, sep: bool) -> (r: usize)
    requires
        p <= q@.len(),
    ensures
        r == skip_left(q@, p as int, sep),
        r <= p,
{
    let mut i = p;
    while i > 0 && word_separator(q[i - 1]) == sep
        invariant
            i <= p <= q@.len(),
            skip_left(q@, i as int, sep) == skip_left(q@, p as int, sep),
        decreases i,
    {
        i -= 1;
    }
    i
}

fn skip_right_exec(q: &Vec<char>, p: usize, sep: bool) -> (r: usize)
    requires
        p <= q@.len(),
    ensures
        r == skip_right(q@, p as int, sep),
        p <= r <= q@.len(),
{
    let mut i = p;
    while i < q.len() && word_separator(q[i]) == sep
        invariant
            p <= i <= q@.len(),
            skip_right(q@, i as int, sep) == skip_right(q@, p as int, sep),
        decreases q@.len() - i,
    {
        i += 1;
    }
    i
}

/// Cursor position one word to the left (Ctrl+Left, Alt+B).
pub fn word_left(q: &Vec<char>, cursor: usize) -> (r: usize)
    ensures
        r == word_left_of(q@, cursor as int),
        r as int <= clamp_to(cursor as int, q@.len() as int),
{
    let p = if cursor < q.len() { cursor } else { q.len() };
    let a = skip_left_exec(q, p, true);
    skip_left_exec(q, a, false)
}

/// Cursor position one word to the right (Ctrl+Right, Alt+F).
pub fn word_right(q: &Vec<char>, cursor: usize) -> (r: usize)
    ensures
        r == word_right_of(q@, cursor as int),
        r <= q@.len(),
{
    let p = if cursor < q.len() { cursor } else { q.len() };
    let a = skip_right_exec(q, p, false);
    skip_right_exec(q, a, true)
}

/// The line after Ctrl+W: the word before the cursor and the separators after
/// it removed, the cursor at the start of the removed text. `None` when the
/// cursor is at the start or nothing would be removed.
pub open spec fn delete_word_back_of(q: Seq<char>, cursor: int) -> Option<(Seq<char>, int)> {
    let c = clamp_to(cursor, q.len() as int);
    let p = word_left_of(q, cursor);
    if c == 0 || p == c {
        None
    } else {
        Some((q.take(p) + q.skip(c), p))
    }
}

pub fn delete_word_back(q: &mut Vec<char>, cursor: &mut usize) -> (changed: bool)
    ensures
        changed == (delete_word_back_of(old(q)@, *old(cursor) as int) is Some),
        changed ==> final(q)@ == delete_word_back_of(old(q)@, *old(cursor) as int).unwrap().0
            && *final(cursor) == delete_word_back_of(old(q)@, *old(cursor) as int).unwrap().1,
        !changed ==> final(q)@ == old(q)@ && *final(cursor) == *old(cursor),
{
    let c = if *cursor < q.len() { *cursor } else { q.len() };
    if c == 0 {
        return false;
    }
    let p = word_left(q, *cursor);
    if p == c {
        return false;
    }
    let ghost q0 = q@;
    let mut i = c;
    while i > p
        invariant
            p < c <= q0.len(),
            p <= i <= c,
            q@ == q0.take(i as int) + q0.skip(c as int),
        decreases i,
    {
        q.remove(i - 1);
        assert(q@ =~= q0.take(i - 1) + q0.skip(c as int));
        i -= 1;
    }
    *cursor = p;
    true
}

/// Ctrl+K: the text up to the cursor, when the cursor is before the end.
pub open spec fn kill_to_end_of(q: Seq<char>, cursor: int) -> Option<Seq<char>> {
    if cursor >= q.len() {
        None
    } else {
        Some(q.take(cursor))
    }
}

pub fn kill_to_end(q: &mut Vec<char>, cursor: usize) -> (changed: bool)
    ensures
        changed == (kill_to_end_of(old(q)@, cursor as int) is Some),
        changed ==> final(q)@ == kill_to_end_of(old(q)@, cursor as int)->0,
        !changed ==> final(q)@ == old(q)@,
{
    if cursor >= q.len() {
        return false;
    }
    q.truncate(cursor);
    true
}

/// Ctrl+U: the text after the cursor, when the cursor is past the start; the
/// cursor then goes to the start.
pub open spec fn kill_to_start_of(q: Seq<char>, cursor: int) -> Option<Seq<char>> {
    if cursor == 0 {
        None
    } else {
        Some(q.skip(clamp_to(cursor, q.len() as int)))
    }
}

pub fn kill_to_start(q: &mut Vec<char>, cursor: &mut usize) -> (changed: bool)
    ensures
        changed == (kill_to_start_of(old(q)@, *old(cursor) as int) is Some),
        changed ==> final(q)@ == kill_to_start_of(old(q)@, *old(cursor) as int)->0 && *final(cursor) == 0,
        !changed ==> final(q)@ == old(q)@ && *final(cursor) == *old(cursor),
{
    if *cursor == 0 {
        return false;
    }
    let c = if *cursor < q.len() { *cursor } else { q.len() };
    let ghost q0 = q@;
    let mut i: usize = 0;
    while i < c
        invariant
            i <= c <= q0.len(),
            q@ == q0.skip(i as int),
        decreases c - i,
    {
        q.remove(0);
        assert(q@ =~= q0.skip(i + 1));
        i += 1;
    }
    *cursor = 0;
    true
}

/// Typing `c`: inserted at the cursor (at the end when the cursor is past it),
/// the cursor moving past it.
pub open spec fn insert_at_of(q: Seq<char>, cursor: int, c: char) -> Seq<char> {
    q.insert(clamp_to(cursor, q.len() as int), c)
}

pub fn insert_at(q: &mut Vec<char>, cursor: &mut usize, c: char)
    requires
        *old(cursor) <= old(q)@.len(),
    ensures
        final(q)@ == insert_at_of(old(q)@, *old(cursor) as int, c),
        *final(cursor) == *old(cursor) + 1,
{
    q.insert(*cursor, c);
    let n = q.len();
    assert(*cursor < n);
    *cursor = *cursor + 1;
}

/// Backspace: the character before the cursor removed, the cursor moving
/// back; nothing changes at the start.
pub open spec fn backspace_of(q: Seq<char>, cursor: int) -> Option<(Seq<char>, int)> {
    if cursor > 0 && cursor - 1 < q.len() {
        Some((q.remove(cursor - 1), cursor - 1))
    } else {
        None
    }
}

pub fn backspace(q: &mut Vec<char>, cursor: &mut usize) -> (changed: bool)
    ensures
        changed == (backspace_of(old(q)@, *old(cursor) as int) is Some),
        changed ==> final(q)@ == backspace_of(old(q)@, *old(cursor) as int).unwrap().0
            && *final(cursor) == backspace_of(old(q)@, *old(cursor) as int).unwrap().1,
        !changed ==> final(q)@ == old(q)@ && *final(cursor) == *old(cursor),
{
    if *cursor > 0 && *cursor - 1 < q.len() {
        q.remove(*cursor - 1);
        *cursor = *cursor - 1;
        true
    } else {
        false
    }
}

/// Delete: the character at the cursor removed, when there is one.
pub open spec fn delete_at_of(q: Seq<char>, cursor: int) -> Option<Seq<char>> {
    if 0 <= cursor < q.len() {
        Some(q.remove(cursor))
    } else {
        None
    }
}

pub fn delete_at(q: &mut Vec<char>, cursor: usize) -> (changed: bool)
    ensures
        changed == (delete_at_of(old(q)@, cursor as int) is Some),
        changed ==> final(q)@ == delete_at_of(old(q)@, cursor as int)->0,
        !changed ==> final(q)@ == old(q)@,
{
    if cursor < q.len() {
        q.remove(cursor);
        true
    } else {
        false
    }
}

/// Typing a character and then pressing Backspace gives back the line and the
/// cursor as they were.
pub proof fn lemma_insert_then_backspace(q: Seq<char>, cursor: int, c: char)
    requires
        0 <= cursor <= q.len(),
    ensures
        backspace_of(insert_at_of(q, cursor, c), cursor + 1) == Some((q, cursor)),
{
    assert(insert_at_of(q, cursor, c).remove(cursor) =~= q);
}

/// The word motions stay within the line: left never moves right of the
/// cursor, right never moves left of it.
pub proof fn lemma_word_motions_bounded(q: Seq<char>, cursor: int)
    requires
        0 <= cursor <= q.len(),
    ensures
        0 <= word_left_of(q, cursor) <= cursor,
        cursor <= word_right_of(q, cursor) <= q.len(),
{
    lemma_skip_left_bounds(q, cursor, true);
    lemma_skip_left_bounds(q, skip_left(q, cursor, true), false);
    lemma_skip_right_bounds(q, cursor, false);
    lemma_skip_right_bounds(q, skip_right(q, cursor, false), true);
}

} // verus!
