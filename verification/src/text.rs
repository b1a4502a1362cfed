//! Character-level string helpers shared by the renderers and the editor state.
//!
//! Strings are modelled by their views, `Seq<char>`; every helper here states
//! its result over those views.

use vstd::prelude::*;
use vstd::std_specs::iter::IteratorSpec;
use vstd::string::StringExecFns;

verus! {

broadcast use vstd::string::group_string_axioms;

/// The characters of `s`, in order.
pub fn chars_of(s: &str) -> (res: Vec<char>)
    ensures
        res@ == s@,
{
    let mut res: Vec<char> = Vec::new();
    let mut it = s.chars();
    let ghost all = s@;
    loop
        invariant
            it.obeys_prophetic_iter_laws(),
            it.decrease() is Some,
            all == s@,
            res@ + it.remaining() == all,
        ensures
            res@ == s@,
        decreases it.decrease()->0,
    {
        let ghost before = it.remaining();
        match it.next() {
            Some(c) => {
                res.push(c);
                assert(res@ + it.remaining() == all) by {
                    assert(before == seq![c] + it.remaining());
                }
            },
            None => {
                assert(res@ == all);
                break ;
            },
        }
    }
    res
}

/// Appends one character to a string (std's `String::push`).
#[verifier::external_body]
pub(crate) fn push_char(s: &mut String, c: char)
    ensures
        final(s)@ == old(s)@.push(c),
{
    s.push(c);
}

/// Appends a string slice.
pub fn push_str(s: &mut String, t: &str)
    ensures
        final(s)@ == old(s)@ + t@,
{
    s.append(t);
}

/// A fresh `String` with the contents of `t`.
pub fn string_of(t: &str) -> (res: String)
    ensures
        res@ == t@,
{
    String::from_str(t)
}

/// Builds a `String` from a slice of characters.
pub fn string_from_chars(cs: &[char]) -> (res: String)
    ensures
        res@ == cs@,
{
    let mut res = String::new();
    let mut i: usize = 0;
    while i < cs.len()
        invariant
            i <= cs@.len(),
            res@ == cs@.take(i as int),
        decreases cs@.len() - i,
    {
        push_char(&mut res, cs[i]);
        assert(cs@.take(i as int).push(cs@[i as int]) == cs@.take(i + 1));
        i += 1;
    }
    assert(cs@.take(cs@.len() as int) == cs@);
    res
}

/// Appends the characters `cs[from..to]` to `s`.
pub fn push_chars(s: &mut String, cs: &[char], from: usize, to: usize)
    requires
        from <= to <= cs@.len(),
    ensures
        final(s)@ == old(s)@ + cs@.subrange(from as int, to as int),
{
    let ghost start = s@;
    let mut i: usize = from;
    while i < to
        invariant
            from <= i <= to <= cs@.len(),
            s@ == start + cs@.subrange(from as int, i as int),
        decreases to - i,
    {
        push_char(s, cs[i]);
        assert(cs@.subrange(from as int, i as int).push(cs@[i as int]) == cs@.subrange(
            from as int,
            i + 1,
        ));
        i += 1;
    }
}

/// `n` copies of `c`.
pub open spec fn repeat_char(c: char, n: nat) -> Seq<char> {
    Seq::new(n, |_i: int| c)
}

/// Appends `n` copies of `c`.
pub fn push_repeat(s: &mut String, c: char, n: usize)
    ensures
        final(s)@ == old(s)@ + repeat_char(c, n as nat),
{
    let ghost start = s@;
    let mut i: usize = 0;
    while i < n
        invariant
            i <= n,
            s@ == start + repeat_char(c, i as nat),
        decreases n - i,
    {
        push_char(s, c);
        assert(repeat_char(c, i as nat).push(c) == repeat_char(c, (i + 1) as nat));
        i += 1;
    }
}

// ---------------------------------------------------------------------------
// Right alignment, as `format!("{:>w$}", s)` writes it (width counted in chars)
// ---------------------------------------------------------------------------

/// `s` right-aligned in a field of `width` characters.
pub open spec fn pad_left(s: Seq<char>, width: nat) -> Seq<char> {
    if s.len() < width {
        repeat_char(' ', (width - s.len()) as nat) + s
    } else {
        s
    }
}

/// Appends `pad_left(t, width)`.
pub fn push_padded_left(s: &mut String, t: &str, width: usize)
    ensures
        final(s)@ == old(s)@ + pad_left(t@, width as nat),
{
    let n = t.unicode_len();
    if n < width {
        push_repeat(s, ' ', width - n);
    }
    push_str(s, t);
    assert(final(s)@ == old(s)@ + pad_left(t@, width as nat)) by {
        if n < width {
            assert(old(s)@ + repeat_char(' ', (width - n) as nat) + t@ == old(s)@ + (repeat_char(
                ' ',
                (width - n) as nat,
            ) + t@));
        }
    }
}

// ---------------------------------------------------------------------------
// Decimal rendering of unsigned integers (`{}` on a `u64`)
// ---------------------------------------------------------------------------

/// The ASCII digit for `d < 10`.
pub open spec fn digit_char(d: nat) -> char {
    (('0' as u32) + d) as char
}

/// Decimal digits of `n`, most significant first, without leading zeros ("0" for zero).
pub open spec fn decimal(n: nat) -> Seq<char>
    decreases n,
{
    if n < 10 {
        seq![digit_char(n)]
    } else {
        decimal(n / 10).push(digit_char(n % 10))
    }
}

/// Appends `decimal(n)`.
pub fn push_decimal(s: &mut String, n: u64)
    ensures
        final(s)@ == old(s)@ + decimal(n as nat),
    decreases n,
{
    if n >= 10 {
        push_decimal(s, n / 10);
    }
    let d = (n % 10) as u32;
    let c = char_from_digit(d);
    push_char(s, c);
    assert(final(s)@ == old(s)@ + decimal(n as nat)) by {
        if n >= 10 {
            assert(old(s)@ + decimal((n / 10) as nat) + seq![c] == old(s)@ + decimal((n / 10) as nat).push(c));
        }
    }
}

fn char_from_digit(d: u32) -> (c: char)
    requires
        d < 10,
    ensures
        c == digit_char(d as nat),
{
    if d == 0 { '0' }
    else if d == 1 { '1' }
    else if d == 2 { '2' }
    else if d == 3 { '3' }
    else if d == 4 { '4' }
    else if d == 5 { '5' }
    else if d == 6 { '6' }
    else if d == 7 { '7' }
    else if d == 8 { '8' }
    else { '9' }
}

// ---------------------------------------------------------------------------
// Character classes
// ---------------------------------------------------------------------------

/// The Unicode `White_Space` property, which is what `char::is_whitespace` tests.
pub open spec fn is_white_space(c: char) -> bool {
    let u = c as u32;
    ||| 0x09 <= u <= 0x0D
    ||| u == 0x20
    ||| u == 0x85
    ||| u == 0xA0
    ||| u == 0x1680
    ||| 0x2000 <= u <= 0x200A
    ||| u == 0x2028
    ||| u == 0x2029
    ||| u == 0x202F
    ||| u == 0x205F
    ||| u == 0x3000
}

pub fn is_white_space_exec(c: char) -> (r: bool)
    ensures
        r == is_white_space(c),
{
    let u = c as u32;
    (0x09 <= u && u <= 0x0D) || u == 0x20 || u == 0x85 || u == 0xA0 || u == 0x1680 || (0x2000 <= u
        && u <= 0x200A) || u == 0x2028 || u == 0x2029 || u == 0x202F || u == 0x205F || u == 0x3000
}

/// ASCII letters, as `char::is_ascii_alphabetic` tests.
pub open spec fn is_ascii_alpha(c: char) -> bool {
    ('a' <= c && c <= 'z') || ('A' <= c && c <= 'Z')
}

/// ASCII letters and digits.
pub open spec fn is_ascii_alnum(c: char) -> bool {
    is_ascii_alpha(c) || ('0' <= c && c <= '9')
}

/// What `char::is_alphanumeric` answers (Unicode `Alphabetic` or `Numeric`).
pub uninterp spec fn unicode_alphanumeric(c: char) -> bool;

/// std's `char::is_alphanumeric`. Claimed: the answer is a fixed function of the
/// character, and on ASCII characters it is true exactly for letters and digits.
#[verifier::external_body]
pub(crate) fn is_alphanumeric(c: char) -> (r: bool)
    ensures
        r == unicode_alphanumeric(c),
        (c as u32) < 128 ==> (r <==> is_ascii_alnum(c)),
{
    c.is_alphanumeric()
}

/// All characters are white space (what `s.trim().is_empty()` tests).
pub open spec fn all_white(s: Seq<char>) -> bool {
    forall|i: int| 0 <= i < s.len() ==> is_white_space(#[trigger] s[i])
}

pub fn is_blank(s: &str) -> (r: bool)
    ensures
        r == all_white(s@),
{
    let cs = chars_of(s);
    let mut i: usize = 0;
    while i < cs.len()
        invariant
            cs@ == s@,
            i <= cs@.len(),
            forall|j: int| 0 <= j < i ==> is_white_space(#[trigger] cs@[j]),
        decreases cs@.len() - i,
    {
        if !is_white_space_exec(cs[i]) {
            return false;
        }
        i += 1;
    }
    true
}

/// `s` with leading and trailing white space removed (`str::trim`).
pub open spec fn trim(s: Seq<char>) -> Seq<char>
    decreases s.len(),
{
    if s.len() == 0 {
        s
    } else if is_white_space(s[0]) {
        trim(s.drop_first())
    } else if is_white_space(s.last()) {
        trim(s.drop_last())
    } else {
        s
    }
}

proof fn lemma_trim_subrange(s: Seq<char>, lo: int, hi: int)
    requires
        0 <= lo <= hi <= s.len(),
        forall|i: int| 0 <= i < lo ==> is_white_space(#[trigger] s[i]),
        forall|i: int| hi <= i < s.len() ==> is_white_space(#[trigger] s[i]),
        lo < hi ==> !is_white_space(s[lo]) && !is_white_space(s[hi - 1]),
        lo == hi ==> lo == 0,
    ensures
        trim(s) == s.subrange(lo, hi),
    decreases s.len(),
{
    if s.len() == 0 {
        assert(s.subrange(lo, hi) =~= s);
    } else if is_white_space(s[0]) {
        let t = s.drop_first();
        if lo == hi {
            lemma_trim_subrange(t, 0, 0);
            assert(s.subrange(lo, hi) =~= t.subrange(0, 0));
        } else {
            lemma_trim_subrange(t, lo - 1, hi - 1);
            assert(s.subrange(lo, hi) =~= t.subrange(lo - 1, hi - 1));
        }
    } else if is_white_space(s.last()) {
        let t = s.drop_last();
        lemma_trim_subrange(t, lo, hi);
        assert(s.subrange(lo, hi) =~= t.subrange(lo, hi));
    } else {
        assert(s.subrange(lo, hi) =~= s);
    }
}

/// `s` without leading and trailing white space (`str::trim`).
pub fn trimmed(s: &str) -> (r: String)
    ensures
        r@ == trim(s@),
{
    let cs = chars_of(s);
    let mut lo: usize = 0;
    while lo < cs.len() && is_white_space_exec(cs[lo])
        invariant
            lo <= cs@.len(),
            forall|i: int| 0 <= i < lo ==> is_white_space(#[trigger] cs@[i]),
        decreases cs@.len() - lo,
    {
        lo += 1;
    }
    let mut hi: usize = cs.len();
    while hi > lo && is_white_space_exec(cs[hi - 1])
        invariant
            lo <= hi <= cs@.len(),
            forall|i: int| hi <= i < cs@.len() ==> is_white_space(#[trigger] cs@[i]),
        decreases hi,
    {
        hi -= 1;
    }
    proof {
        if lo == hi && lo > 0 {
            assert forall|i: int| 0 <= i < cs@.len() implies is_white_space(#[trigger] cs@[i]) by {
                if i >= lo {
                }
            }
            lemma_trim_subrange(cs@, 0, 0);
            assert(cs@.subrange(0, 0) =~= cs@.subrange(lo as int, hi as int));
        } else {
            lemma_trim_subrange(cs@, lo as int, hi as int);
        }
    }
    string_from_chars(&cs.as_slice()[lo..hi])
}

// ---------------------------------------------------------------------------
// Lowercasing
// ---------------------------------------------------------------------------

/// What `str::to_lowercase` returns: the Unicode lowercase form of the text.
pub uninterp spec fn lowercase(s: Seq<char>) -> Seq<char>;

/// std's `str::to_lowercase`. Claimed: the result depends on the characters of
/// `s` alone, and the empty text stays empty. The mapping tables themselves
/// are not restated.
#[verifier::external_body]
pub(crate) fn to_lowercase(s: &str) -> (res: String)
    ensures
        res@ == lowercase(s@),
        s@.len() == 0 ==> res@.len() == 0,
{
    s.to_lowercase()
}

// ---------------------------------------------------------------------------
// Substring search
// ---------------------------------------------------------------------------

/// `needle` occurs in `hay` at position `i`.
pub open spec fn occurs_at(hay: Seq<char>, needle: Seq<char>, i: int) -> bool {
    0 <= i && i + needle.len() <= hay.len() && hay.subrange(i, i + needle.len()) == needle
}

/// `needle` occurs somewhere in `hay` (`str::contains` with a string pattern).
pub open spec fn contains_seq(hay: Seq<char>, needle: Seq<char>) -> bool {
    exists|i: int| occurs_at(hay, needle, i)
}

pub fn chars_contain(hay: &[char], needle: &[char]) -> (r: bool)
    ensures
        r == contains_seq(hay@, needle@),
{
    if needle.len() > hay.len() {
        assert forall|i: int| !occurs_at(hay@, needle@, i) by {}
        return false;
    }
    let hl = hay.len();
    let last = hl - needle.len();
    let mut i: usize = 0;
    while i <= last
        invariant
            hl == hay@.len(),
            needle@.len() <= hay@.len(),
            last == hay@.len() - needle@.len(),
            i <= last + 1,
            forall|k: int| 0 <= k < i ==> !occurs_at(hay@, needle@, k),
        decreases last + 1 - i,
    {
        let mut j: usize = 0;
        let mut same = true;
        while j < needle.len()
            invariant
                i <= last,
                hl == hay@.len(),
                needle@.len() <= hay@.len(),
                last == hay@.len() - needle@.len(),
                j <= needle@.len(),
                same == (forall|m: int| 0 <= m < j ==> hay@[i + m] == needle@[m]),
            decreases needle@.len() - j,
        {
            assert(i + j < hay@.len());
            if hay[i + j] != needle[j] {
                same = false;
            }
            j += 1;
        }
        if same {
            assert(occurs_at(hay@, needle@, i as int)) by {
                assert(hay@.subrange(i as int, i + needle@.len()) =~= needle@);
            }
            return true;
        }
        assert(!occurs_at(hay@, needle@, i as int)) by {
            let m = choose|m: int| 0 <= m < needle@.len() && hay@[i + m] != needle@[m];
            if hay@.subrange(i as int, i + needle@.len()) == needle@ {
                assert(hay@.subrange(i as int, i + needle@.len())[m] == hay@[i + m]);
            }
        }
        if i == last {
            assert forall|k: int| !occurs_at(hay@, needle@, k) by {
                if 0 <= k <= i {
                }
            }
            return false;
        }
        i += 1;
    }
    assert forall|k: int| !occurs_at(hay@, needle@, k) by {
        if 0 <= k < i {
        }
    }
    false
}

// ---------------------------------------------------------------------------
// Line splitting
// ---------------------------------------------------------------------------

/// The pieces of `s` between occurrences of `sep` (one more piece than there
/// are separators), built one character at a time; what `str::split` yields
/// for a single-character pattern.
pub open spec fn split_on(s: Seq<char>, sep: char) -> Seq<Seq<char>>
    decreases s.len(),
{
    if s.len() == 0 {
        seq![Seq::empty()]
    } else {
        let pieces = split_on(s.drop_last(), sep);
        if s.last() == sep {
            pieces.push(Seq::empty())
        } else {
            pieces.update(pieces.len() - 1, pieces.last().push(s.last()))
        }
    }
}

pub open spec fn split_newlines(s: Seq<char>) -> Seq<Seq<char>> {
    split_on(s, '\n')
}

pub proof fn lemma_split_on_nonempty(s: Seq<char>, sep: char)
    ensures
        split_on(s, sep).len() >= 1,
    decreases s.len(),
{
    if s.len() > 0 {
        lemma_split_on_nonempty(s.drop_last(), sep);
    }
}

/// No piece holds the separator.
pub proof fn lemma_split_pieces_free(s: Seq<char>, sep: char)
    ensures
        forall|i: int, k: int|
            0 <= i < split_on(s, sep).len() && 0 <= k < split_on(s, sep)[i].len() ==> #[trigger] split_on(s, sep)[i][k]
                != sep,
    decreases s.len(),
{
    if s.len() > 0 {
        lemma_split_pieces_free(s.drop_last(), sep);
        lemma_split_on_nonempty(s.drop_last(), sep);
        let pieces = split_on(s.drop_last(), sep);
        if s.last() != sep {
            let n = pieces.len() - 1;
            assert forall|i: int, k: int|
                0 <= i < split_on(s, sep).len() && 0 <= k < split_on(s, sep)[i].len() implies #[trigger] split_on(
                s,
                sep,
            )[i][k] != sep by {
                if i == n {
                    if k < pieces[n].len() {
                        assert(split_on(s, sep)[i][k] == pieces[n][k]);
                    }
                } else {
                    assert(split_on(s, sep)[i] == pieces[i]);
                }
            }
        } else {
            assert forall|i: int, k: int|
                0 <= i < split_on(s, sep).len() && 0 <= k < split_on(s, sep)[i].len() implies #[trigger] split_on(
                s,
                sep,
            )[i][k] != sep by {
                if i < pieces.len() {
                    assert(split_on(s, sep)[i] == pieces[i]);
                }
            }
        }
    }
}

/// Appending text without the separator extends the last piece.
pub proof fn lemma_split_on_append_free(p: Seq<char>, x: Seq<char>, sep: char)
    requires
        forall|k: int| 0 <= k < x.len() ==> #[trigger] x[k] != sep,
    ensures
        split_on(p + x, sep) == split_on(p, sep).update(
            split_on(p, sep).len() - 1,
            split_on(p, sep).last() + x,
        ),
    decreases x.len(),
{
    lemma_split_on_nonempty(p, sep);
    if x.len() == 0 {
        assert(p + x =~= p);
        assert(split_on(p, sep).last() + x =~= split_on(p, sep).last());
        assert(split_on(p, sep).update(split_on(p, sep).len() - 1, split_on(p, sep).last()) =~= split_on(p, sep));
    } else {
        let x0 = x.drop_last();
        lemma_split_on_append_free(p, x0, sep);
        assert((p + x).drop_last() =~= p + x0);
        assert((p + x).last() == x.last());
        let q = split_on(p + x0, sep);
        let pp = split_on(p, sep);
        assert(q.last() == pp.last() + x0);
        assert(q.last().push(x.last()) =~= pp.last() + x);
        assert(q.update(q.len() - 1, q.last().push(x.last())) =~= pp.update(pp.len() - 1, pp.last() + x));
    }
}

/// Appending the separator starts a new, empty piece.
pub proof fn lemma_split_on_push_sep(p: Seq<char>, sep: char)
    ensures
        split_on(p.push(sep), sep) == split_on(p, sep).push(Seq::empty()),
{
    assert(p.push(sep).drop_last() =~= p);
}

/// No line holds a newline.
pub proof fn lemma_lines_free(s: Seq<char>)
    ensures
        forall|i: int, k: int| 0 <= i < lines(s).len() && 0 <= k < lines(s)[i].len() ==> #[trigger] lines(s)[i][k] != '\n',
{
    lemma_split_pieces_free(s, '\n');
    lemma_split_on_nonempty(s, '\n');
    assert forall|i: int, k: int| 0 <= i < lines(s).len() && 0 <= k < lines(s)[i].len() implies #[trigger] lines(
        s,
    )[i][k] != '\n' by {
        let kp = kept_pieces(s);
        assert(kp[i] == split_newlines(s)[i]);
        assert(lines(s)[i] == line_at(s, i));
        if line_at(s, i) == strip_cr(kp[i]) && kp[i].len() > 0 && kp[i].last() == '\r' {
            assert(lines(s)[i][k] == kp[i][k]);
        } else {
            assert(lines(s)[i][k] == kp[i][k]);
        }
    }
}

/// Splits a character slice at `sep` (`split_on`).
pub fn split_chars(cs: &[char], sep: char) -> (res: Vec<Vec<char>>)
    ensures
        res@.len() == split_on(cs@, sep).len(),
        forall|i: int| 0 <= i < res@.len() ==> #[trigger] res@[i]@ == split_on(cs@, sep)[i],
{
    let mut res: Vec<Vec<char>> = Vec::new();
    let mut cur: Vec<char> = Vec::new();
    let mut i: usize = 0;
    while i < cs.len()
        invariant
            i <= cs@.len(),
            res@.len() + 1 == split_on(cs@.take(i as int), sep).len(),
            forall|k: int| 0 <= k < res@.len() ==> #[trigger] res@[k]@ == split_on(cs@.take(i as int), sep)[k],
            cur@ == split_on(cs@.take(i as int), sep).last(),
        decreases cs@.len() - i,
    {
        let c = cs[i];
        let ghost pre = cs@.take(i as int);
        assert(cs@.take(i + 1).drop_last() == pre);
        assert(cs@.take(i + 1).last() == c);
        proof { lemma_split_on_nonempty(pre, sep); }
        if c == sep {
            let done = cur;
            res.push(done);
            cur = Vec::new();
        } else {
            cur.push(c);
        }
        i += 1;
    }
    assert(cs@.take(cs@.len() as int) == cs@);
    res.push(cur);
    res
}

/// A line without the `'\r'` that may precede its `'\n'`.
pub open spec fn strip_cr(l: Seq<char>) -> Seq<char> {
    if l.len() > 0 && l.last() == '\r' {
        l.drop_last()
    } else {
        l
    }
}

/// The newline-separated pieces that `str::lines` keeps: the final piece is
/// dropped when the text ends with a newline or is empty.
pub open spec fn kept_pieces(s: Seq<char>) -> Seq<Seq<char>> {
    if s.len() == 0 || s.last() == '\n' {
        split_newlines(s).drop_last()
    } else {
        split_newlines(s)
    }
}

/// The `i`-th line: every kept piece was followed by a newline, except possibly
/// the last one, and a `'\r'` before a newline is removed.
pub open spec fn line_at(s: Seq<char>, i: int) -> Seq<char> {
    if i < kept_pieces(s).len() - 1 || (s.len() > 0 && s.last() == '\n') {
        strip_cr(kept_pieces(s)[i])
    } else {
        kept_pieces(s)[i]
    }
}

/// What `str::lines` yields.
pub open spec fn lines(s: Seq<char>) -> Seq<Seq<char>> {
    Seq::new(kept_pieces(s).len(), |i: int| line_at(s, i))
}

/// Splits `s` at newlines (`split_newlines`), as owned strings.
pub fn split_at_newlines(s: &str) -> (res: Vec<String>)
    ensures
        res@.len() == split_newlines(s@).len(),
        forall|i: int| 0 <= i < res@.len() ==> #[trigger] res@[i]@ == split_newlines(s@)[i],
{
    let cs = chars_of(s);
    let parts = split_chars(cs.as_slice(), '\n');
    let mut res: Vec<String> = Vec::new();
    let mut i: usize = 0;
    while i < parts.len()
        invariant
            cs@ == s@,
            parts@.len() == split_newlines(s@).len(),
            forall|k: int| 0 <= k < parts@.len() ==> #[trigger] parts@[k]@ == split_newlines(s@)[k],
            i <= parts@.len(),
            res@.len() == i,
            forall|k: int| 0 <= k < i ==> #[trigger] res@[k]@ == split_newlines(s@)[k],
        decreases parts@.len() - i,
    {
        let p = string_from_chars(parts[i].as_slice());
        res.push(p);
        i += 1;
    }
    res
}

/// `str::lines`, as owned strings.
pub fn lines_of(s: &str) -> (res: Vec<String>)
    ensures
        res@.len() == lines(s@).len(),
        forall|i: int| 0 <= i < res@.len() ==> #[trigger] res@[i]@ == lines(s@)[i],
{
    let pieces = split_at_newlines(s);
    proof { lemma_split_on_nonempty(s@, '\n'); }
    let n = s.unicode_len();
    let ends_nl = n > 0 && s.get_char(n - 1) == '\n';
    let keep = if n == 0 || ends_nl { pieces.len() - 1 } else { pieces.len() };
    let ghost kept = kept_pieces(s@);
    assert(keep == kept.len());
    let mut res: Vec<String> = Vec::new();
    let mut i: usize = 0;
    while i < keep
        invariant
            kept == kept_pieces(s@),
            keep == kept.len(),
            keep <= pieces@.len(),
            pieces@.len() == split_newlines(s@).len(),
            forall|k: int| 0 <= k < pieces@.len() ==> #[trigger] pieces@[k]@ == split_newlines(s@)[k],
            forall|k: int| 0 <= k < kept.len() ==> kept[k] == split_newlines(s@)[k],
            ends_nl == (s@.len() > 0 && s@.last() == '\n'),
            i <= keep,
            res@.len() == i,
            forall|k: int| 0 <= k < i ==> #[trigger] res@[k]@ == lines(s@)[k],
        decreases keep - i,
    {
        let p = &pieces[i];
        let strip = i + 1 < keep || ends_nl;
        let pc = chars_of(p.as_str());
        let m = pc.len();
        let line = if strip && m > 0 && pc[m - 1] == '\r' {
            string_from_chars(&pc.as_slice()[0..m - 1])
        } else {
            p.clone()
        };
        proof {
            assert(kept[i as int] == split_newlines(s@)[i as int]);
            assert(lines(s@)[i as int] == line_at(s@, i as int));
            if strip && m > 0 && pc@[m - 1] == '\r' {
                assert(pc@.subrange(0, m - 1) == pc@.drop_last());
            }
        }
        res.push(line);
        i += 1;
    }
    res
}


/// Whether two string slices hold the same characters.
pub fn text_equals(a: &str, b: &str) -> (r: bool)
    ensures
        r == (a@ == b@),
{
    let x = string_of(a);
    let y = string_of(b);
    x == y
}


// ---------------------------------------------------------------------------
// Paths
// ---------------------------------------------------------------------------

/// The characters of an optional string.
pub open spec fn opt_view(o: Option<String>) -> Option<Seq<char>> {
    match o {
        Some(s) => Some(s@),
        None => None,
    }
}

/// What `Path::file_name` gives for a path, as text.
pub uninterp spec fn file_name_of(path: Seq<char>) -> Option<Seq<char>>;

/// std's `Path::file_name`, read as UTF-8. Claimed: the result is a fixed
/// function of the path's text.
#[verifier::external_body]
pub(crate) fn path_file_name(path: &str) -> (r: Option<String>)
    ensures
        opt_view(r) == file_name_of(path@),
{
    std::path::Path::new(path).file_name().and_then(|n| n.to_str()).map(String::from)
}

/// What `Path::file_stem` gives for a path, as text.
pub uninterp spec fn file_stem_of(path: Seq<char>) -> Option<Seq<char>>;

/// std's `Path::file_stem`, read as UTF-8. Claimed: the result is a fixed
/// function of the path's text.
#[verifier::external_body]
pub(crate) fn path_file_stem(path: &str) -> (r: Option<String>)
    ensures
        opt_view(r) == file_stem_of(path@),
{
    std::path::Path::new(path).file_stem().and_then(|n| n.to_str()).map(String::from)
}

} // verus!
