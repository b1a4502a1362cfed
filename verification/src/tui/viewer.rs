//! Ledger-style rendering of an opencode session, and the parser for the
//! SGR escape sequences that the markdown renderer emits.

use vstd::prelude::*;
use chrono::TimeZone;
use crate::text::{push_char, push_str, push_padded_left, pad_left, push_decimal, decimal, string_of, chars_of, string_from_chars, split_chars, split_on, lemma_split_on_nonempty, lines, lines_of, is_ascii_alpha};
use crate::tui::app::{LineStyle, RenderedLine, SpanView, plain_style};
use crate::tui::{RenderOptions, ToolDisplayMode, MessageRange, RenderedConversation};
use crate::opencode::models::{MessageView, OcSessionView, ViewPart, UsdAmount};

verus! {

broadcast use vstd::string::group_string_axioms, vstd::seq_lib::group_seq_lib_default;

// ---------------------------------------------------------------------------
// SGR codes
// ---------------------------------------------------------------------------

/// Value of a run of ASCII digits.
pub open spec fn digits_value(s: Seq<char>) -> nat
    decreases s.len(),
{
    if s.len() == 0 {
        0
    } else {
        digits_value(s.drop_last()) * 10 + ((s.last() as u32) - ('0' as u32)) as nat
    }
}

pub open spec fn is_digit(c: char) -> bool {
    '0' <= c && c <= '9'
}

pub open spec fn all_digits(s: Seq<char>) -> bool {
    forall|i: int| 0 <= i < s.len() ==> is_digit(#[trigger] s[i])
}

/// What `str::parse::<u8>` accepts: an optional `'+'`, then at least one digit,
/// with a value of at most 255.
pub open spec fn parse_u8(s: Seq<char>) -> Option<u8> {
    let d = if s.len() > 0 && s[0] == '+' { s.drop_first() } else { s };
    if d.len() > 0 && all_digits(d) && digits_value(d) <= 255 {
        Some(digits_value(d) as u8)
    } else {
        None
    }
}

proof fn lemma_digits_value_prefix(s: Seq<char>, k: int)
    requires
        0 <= k <= s.len(),
        all_digits(s),
    ensures
        digits_value(s.take(k)) <= digits_value(s),
    decreases s.len() - k,
{
    if k < s.len() {
        lemma_digits_value_prefix(s, k + 1);
        assert(s.take(k + 1).drop_last() == s.take(k));
        assert(s.take(k + 1).last() == s[k]);
        assert(is_digit(s[k]));
        assert(digits_value(s.take(k + 1)) == digits_value(s.take(k)) * 10 + ((s[k] as u32) - ('0' as u32)) as nat);
    } else {
        assert(s.take(k) == s);
    }
}

pub fn parse_u8_chars(s: &[char]) -> (r: Option<u8>)
    ensures
        r == parse_u8(s@),
{
    let start: usize = if s.len() > 0 && s[0] == '+' { 1 } else { 0 };
    let ghost d = if s@.len() > 0 && s@[0] == '+' { s@.drop_first() } else { s@ };
    assert(d == s@.subrange(start as int, s@.len() as int));
    if start >= s.len() {
        assert(d.len() == 0);
        return None;
    }
    let mut value: u32 = 0;
    let mut i: usize = start;
    while i < s.len()
        invariant
            start <= i <= s@.len(),
            d == (if s@.len() > 0 && s@[0] == '+' { s@.drop_first() } else { s@ }),
            d == s@.subrange(start as int, s@.len() as int),
            forall|k: int| 0 <= k < i - start ==> is_digit(#[trigger] d[k]),
            value == digits_value(d.take(i - start)),
            value <= 255,
        decreases s@.len() - i,
    {
        let c = s[i];
        if !('0' <= c && c <= '9') {
            assert(!all_digits(d)) by {
                assert(d[i - start] == c);
                assert(!is_digit(d[i - start]));
            }
            return None;
        }
        let ghost k = i - start;
        assert(d.take(k + 1).drop_last() == d.take(k));
        assert(d.take(k + 1).last() == c);
        let nv = value * 10 + ((c as u32) - ('0' as u32));
        assert(nv == digits_value(d.take(k + 1)));
        if nv > 255 {
            proof {
                if all_digits(d) {
                    lemma_digits_value_prefix(d, k + 1);
                }
            }
            return None;
        }
        value = nv;
        i += 1;
    }
    assert(d.take(d.len() as int) == d);
    Some(value as u8)
}

pub open spec fn is_code(c: Seq<char>, a: char) -> bool {
    c == seq![a]
}

pub open spec fn is_code2(c: Seq<char>, a: char, b: char) -> bool {
    c == seq![a, b]
}

/// The style after an SGR code with parameter text `param` and final
/// character `terminator`; only `m` sequences change the style.
pub open spec fn sgr_apply(param: Seq<char>, terminator: char, style: LineStyle) -> LineStyle {
    let codes = split_on(param, ';');
    if terminator != 'm' {
        style
    } else if codes.len() == 1 {
        let c = codes[0];
        if is_code(c, '0') || c.len() == 0 {
            plain_style()
        } else if is_code(c, '1') {
            LineStyle { bold: true, ..style }
        } else if is_code(c, '2') {
            LineStyle { dimmed: true, ..style }
        } else if is_code(c, '3') {
            LineStyle { italic: true, ..style }
        } else if is_code2(c, '2', '2') {
            LineStyle { bold: false, dimmed: false, ..style }
        } else if is_code2(c, '2', '3') {
            LineStyle { italic: false, ..style }
        } else if is_code2(c, '3', '2') {
            LineStyle { fg: Some((0, 128, 0)), ..style }
        } else if is_code2(c, '3', '4') {
            LineStyle { fg: Some((0, 0, 255)), ..style }
        } else if is_code2(c, '3', '6') {
            LineStyle { fg: Some((0, 255, 255)), ..style }
        } else if is_code2(c, '3', '9') {
            LineStyle { fg: None, ..style }
        } else {
            style
        }
    } else if codes.len() >= 5 && is_code2(codes[0], '3', '8') && is_code(codes[1], '2') {
        match (parse_u8(codes[2]), parse_u8(codes[3]), parse_u8(codes[4])) {
            (Some(r), Some(g), Some(b)) => LineStyle { fg: Some((r, g, b)), ..style },
            _ => style,
        }
    } else {
        style
    }
}

fn code_is(c: &Vec<char>, a: char) -> (r: bool)
    ensures
        r == is_code(c@, a),
{
    let r = c.len() == 1 && c[0] == a;
    assert(r ==> c@ =~= seq![a]);
    r
}

fn code_is2(c: &Vec<char>, a: char, b: char) -> (r: bool)
    ensures
        r == is_code2(c@, a, b),
{
    let r = c.len() == 2 && c[0] == a && c[1] == b;
    assert(r ==> c@ =~= seq![a, b]);
    r
}

/// Applies an SGR code sequence to `style`.
pub fn apply_sgr_code(param: &[char], terminator: char, style: &mut LineStyle)
    ensures
        *final(style) == sgr_apply(param@, terminator, *old(style)),
{
    if terminator != 'm' {
        return;
    }
    let codes = split_chars(param, ';');
    proof { lemma_split_on_nonempty(param@, ';'); }
    if codes.len() == 1 {
        let c = &codes[0];
        if code_is(c, '0') || c.len() == 0 {
            *style = LineStyle::plain();
        } else if code_is(c, '1') {
            style.bold = true;
        } else if code_is(c, '2') {
            style.dimmed = true;
        } else if code_is(c, '3') {
            style.italic = true;
        } else if code_is2(c, '2', '2') {
            style.bold = false;
            style.dimmed = false;
        } else if code_is2(c, '2', '3') {
            style.italic = false;
        } else if code_is2(c, '3', '2') {
            style.fg = Some((0, 128, 0));
        } else if code_is2(c, '3', '4') {
            style.fg = Some((0, 0, 255));
        } else if code_is2(c, '3', '6') {
            style.fg = Some((0, 255, 255));
        } else if code_is2(c, '3', '9') {
            style.fg = None;
        }
        return;
    }
    if codes.len() >= 5 && code_is2(&codes[0], '3', '8') && code_is(&codes[1], '2') {
        let r = parse_u8_chars(codes[2].as_slice());
        let g = parse_u8_chars(codes[3].as_slice());
        let b = parse_u8_chars(codes[4].as_slice());
        match (r, g, b) {
            (Some(r), Some(g), Some(b)) => {
                style.fg = Some((r, g, b));
            },
            _ => {},
        }
    }
}

// ---------------------------------------------------------------------------
// Lines with escape sequences
// ---------------------------------------------------------------------------

pub open spec fn esc() -> char {
    '\x1b'
}

/// Index of the first ASCII letter at or after `k` (the length when there is none).
pub open spec fn next_alpha(cs: Seq<char>, k: int) -> int
    decreases cs.len() - k,
{
    if k >= cs.len() {
        cs.len() as int
    } else if is_ascii_alpha(cs[k]) {
        k
    } else {
        next_alpha(cs, k + 1)
    }
}

/// `spans` with the pending text appended as a span, when there is any.
pub open spec fn flush(spans: Seq<SpanView>, text: Seq<char>, style: LineStyle) -> Seq<SpanView> {
    if text.len() > 0 {
        spans.push((text, style))
    } else {
        spans
    }
}

/// Spans of `cs` read from position `i`, with `style` current, `text` pending
/// and `spans` already emitted: ordinary characters accumulate; an escape
/// ends the pending span; `ESC [` params letter applies an SGR code (params
/// without a final letter are dropped); an escape without `[` is dropped.
pub open spec fn scan_spans(
    cs: Seq<char>,
    i: int,
    style: LineStyle,
    text: Seq<char>,
    spans: Seq<SpanView>,
) -> Seq<SpanView>
    decreases cs.len() - i,
{
    if i < 0 || i >= cs.len() {
        flush(spans, text, style)
    } else if cs[i] == esc() {
        let emitted = flush(spans, text, style);
        if i + 1 < cs.len() && cs[i + 1] == '[' {
            let j = next_alpha(cs, i + 2);
            proof {
                lemma_next_alpha(cs, i + 2);
            }
            if j < cs.len() {
                scan_spans(cs, j + 1, sgr_apply(cs.subrange(i + 2, j), cs[j], style), Seq::empty(), emitted)
            } else {
                emitted
            }
        } else {
            scan_spans(cs, i + 1, style, Seq::empty(), emitted)
        }
    } else {
        scan_spans(cs, i + 1, style, text.push(cs[i]), spans)
    }
}

/// The spans of one line; a line without text gives one empty span.
pub open spec fn ansi_line_spans(line: Seq<char>) -> Seq<SpanView> {
    let spans = scan_spans(line, 0, plain_style(), Seq::empty(), Seq::empty());
    if spans.len() == 0 {
        seq![(Seq::empty(), plain_style())]
    } else {
        spans
    }
}

pub proof fn lemma_next_alpha(cs: Seq<char>, k: int)
    requires
        0 <= k,
    ensures
        k <= next_alpha(cs, k) <= cs.len() || (k > cs.len() && next_alpha(cs, k) == cs.len()),
        next_alpha(cs, k) < cs.len() ==> is_ascii_alpha(cs[next_alpha(cs, k)]),
        forall|m: int| k <= m < next_alpha(cs, k) ==> !is_ascii_alpha(#[trigger] cs[m]),
    decreases cs.len() - k,
{
    if k < cs.len() && !is_ascii_alpha(cs[k]) {
        lemma_next_alpha(cs, k + 1);
    }
}

proof fn lemma_next_alpha_skip(cs: Seq<char>, k: int, m: int)
    requires
        0 <= k <= m <= cs.len(),
        forall|x: int| k <= x < m ==> !is_ascii_alpha(#[trigger] cs[x]),
    ensures
        next_alpha(cs, k) == next_alpha(cs, m),
    decreases m - k,
{
    if k < m {
        lemma_next_alpha_skip(cs, k + 1, m);
    }
}

fn flush_text(spans: &mut Vec<(String, LineStyle)>, text: &mut Vec<char>, style: LineStyle)
    ensures
        final(spans)@.map_values(|sp: (String, LineStyle)| (sp.0@, sp.1)) == flush(
            old(spans)@.map_values(|sp: (String, LineStyle)| (sp.0@, sp.1)),
            old(text)@,
            style,
        ),
        final(text)@.len() == 0,
{
    if text.len() > 0 {
        let t = string_from_chars(text.as_slice());
        let ghost before = spans@;
        spans.push((t, style));
        assert(spans@.map_values(|sp: (String, LineStyle)| (sp.0@, sp.1)) =~= before.map_values(
            |sp: (String, LineStyle)| (sp.0@, sp.1),
        ).push((old(text)@, style)));
        *text = Vec::new();
    }
}

/// Parses one line with inline SGR sequences into styled spans.
pub fn parse_ansi_line(line: &str) -> (res: Vec<(String, LineStyle)>)
    ensures
        res@.map_values(|sp: (String, LineStyle)| (sp.0@, sp.1)) == ansi_line_spans(line@),
{
    let cs = chars_of(line);
    let n = cs.len();
    let mut spans: Vec<(String, LineStyle)> = Vec::new();
    let mut style = LineStyle::plain();
    let mut text: Vec<char> = Vec::new();
    let mut i: usize = 0;
    let ghost target = scan_spans(cs@, 0, plain_style(), Seq::empty(), Seq::empty());
    assert(spans@.map_values(|sp: (String, LineStyle)| (sp.0@, sp.1)) =~= Seq::<SpanView>::empty());
    assert(text@ =~= Seq::<char>::empty());
    while i < n
        invariant
            n == cs@.len(),
            cs@ == line@,
            i <= n,
            scan_spans(cs@, i as int, style, text@, spans@.map_values(|sp: (String, LineStyle)| (sp.0@, sp.1))) == target,
        decreases n - i,
    {
        let ch = cs[i];
        let ghost vs = spans@.map_values(|sp: (String, LineStyle)| (sp.0@, sp.1));
        let ghost pre_style = style;
        let ghost pre_text = text@;
        let ghost pre_i = i as int;
        if ch == '\x1b' {
            flush_text(&mut spans, &mut text, style);
            let ghost emitted = flush(vs, pre_text, pre_style);
            assert(spans@.map_values(|sp: (String, LineStyle)| (sp.0@, sp.1)) == emitted);
            assert(text@ =~= Seq::<char>::empty());
            if i + 1 < n && cs[i + 1] == '[' {
                let mut k: usize = i + 2;
                let mut done = false;
                while k < n && !done
                    invariant
                        n == cs@.len(),
                        i as int == pre_i,
                        pre_i + 2 <= k <= n,
                        pre_i + 1 < n,
                        !done ==> forall|x: int| pre_i + 2 <= x < k ==> !is_ascii_alpha(#[trigger] cs@[x]),
                        done ==> k == next_alpha(cs@, pre_i + 2) + 1 && next_alpha(cs@, pre_i + 2) < n,
                        done ==> style == sgr_apply(cs@.subrange(pre_i + 2, k - 1), cs@[k - 1], pre_style),
                        !done ==> style == pre_style,
                    decreases n - k, (if done { 0int } else { 1int }),
                {
                    let c = cs[k];
                    if ('a' <= c && c <= 'z') || ('A' <= c && c <= 'Z') {
                        proof {
                            lemma_next_alpha_skip(cs@, pre_i + 2, k as int);
                            lemma_next_alpha(cs@, k as int);
                        }
                        apply_sgr_code(&cs.as_slice()[i + 2..k], c, &mut style);
                        done = true;
                    }
                    k += 1;
                }
                proof {
                    if !done {
                        lemma_next_alpha_skip(cs@, pre_i + 2, n as int);
                        assert(next_alpha(cs@, n as int) == n);
                        assert(scan_spans(cs@, pre_i, pre_style, pre_text, vs) == emitted);
                        assert(scan_spans(cs@, n as int, style, Seq::empty(), emitted) == emitted);
                    } else {
                        assert(scan_spans(cs@, pre_i, pre_style, pre_text, vs) == scan_spans(cs@, k as int, style, Seq::empty(), emitted));
                    }
                }
                i = k;
            } else {
                assert(scan_spans(cs@, pre_i, pre_style, pre_text, vs) == scan_spans(cs@, pre_i + 1, style, Seq::empty(), emitted));
                i += 1;
            }
        } else {
            text.push(ch);
            assert(scan_spans(cs@, pre_i, pre_style, pre_text, vs) == scan_spans(cs@, pre_i + 1, style, text@, vs));
            i += 1;
        }
    }
    flush_text(&mut spans, &mut text, style);
    if spans.len() == 0 {
        let e = String::new();
        spans.push((e, LineStyle::plain()));
        assert(spans@.map_values(|sp: (String, LineStyle)| (sp.0@, sp.1)) =~= seq![(Seq::<char>::empty(), plain_style())]);
    }
    spans
}

/// The lines of an SGR-formatted string; an input without lines gives one empty line.
pub open spec fn ansi_lines(s: Seq<char>) -> Seq<Seq<SpanView>> {
    if lines(s).len() == 0 {
        seq![seq![(Seq::empty(), plain_style())]]
    } else {
        Seq::new(lines(s).len(), |i: int| ansi_line_spans(lines(s)[i]))
    }
}

/// Parses an SGR-formatted string into rendered lines, one per text line.
pub fn ansi_to_rendered_lines(ansi_str: &str) -> (res: Vec<RenderedLine>)
    ensures
        res@.len() == ansi_lines(ansi_str@).len(),
        forall|i: int| 0 <= i < res@.len() ==> #[trigger] res@[i]@ == ansi_lines(ansi_str@)[i],
{
    let ls = lines_of(ansi_str);
    let mut result: Vec<RenderedLine> = Vec::new();
    let mut i: usize = 0;
    while i < ls.len()
        invariant
            ls@.len() == lines(ansi_str@).len(),
            forall|k: int| 0 <= k < ls@.len() ==> #[trigger] ls@[k]@ == lines(ansi_str@)[k],
            i <= ls@.len(),
            result@.len() == i,
            forall|k: int| 0 <= k < i ==> #[trigger] result@[k]@ == ansi_line_spans(lines(ansi_str@)[k]),
        decreases ls@.len() - i,
    {
        let spans = parse_ansi_line(ls[i].as_str());
        result.push(RenderedLine { spans });
        i += 1;
    }
    if result.len() == 0 {
        let e = String::new();
        result.push(RenderedLine::single(e, LineStyle::plain()));
    }
    result
}

} // verus!

verus! {


pub type LineView = Seq<SpanView>;

/// The views of a vector of rendered lines.
pub open spec fn lines_view(v: Seq<RenderedLine>) -> Seq<LineView> {
    v.map_values(|l: RenderedLine| l@)
}

// ---------------------------------------------------------------------------
// Display width (unicode-width)
// ---------------------------------------------------------------------------

/// What `UnicodeWidthStr::width` returns for a string.
pub uninterp spec fn display_width(s: Seq<char>) -> nat;

/// unicode-width's `UnicodeWidthStr::width`. Claimed: the width depends on the
/// characters of `s` alone, and a text of printable ASCII characters takes one
/// column per character (every character up to U+00A0 other than a `\r`
/// before a `\n` counts one).
#[verifier::external_body]
pub(crate) fn text_width(s: &str) -> (r: usize)
    ensures
        r == display_width(s@),
        (forall|i: int| 0 <= i < s@.len() ==> ' ' <= #[trigger] s@[i] && s@[i] <= '~') ==> r == s@.len(),
{
    unicode_width::UnicodeWidthStr::width(s)
}

// ---------------------------------------------------------------------------
// Labeled blocks
// ---------------------------------------------------------------------------

pub open spec fn separator() -> Seq<char> {
    seq![' ', '\u{2502}', ' ']
}

/// The label column: `label` right-aligned to `width`, then the separator.
pub open spec fn label_prefix(label: Seq<char>, width: nat) -> Seq<char> {
    pad_left(label, width) + separator()
}

/// A labeled block: the label prefix before the first content line, a blank
/// prefix before the others; one prefix-only line when there is no content.
pub open spec fn labeled_block(
    label: Seq<char>,
    width: nat,
    content: Seq<LineView>,
    style: LineStyle,
) -> Seq<LineView> {
    if content.len() == 0 {
        seq![seq![(label_prefix(label, width), style)]]
    } else {
        Seq::new(
            content.len(),
            |i: int|
                if i == 0 {
                    seq![(label_prefix(label, width), style)] + content[0]
                } else {
                    seq![(label_prefix(Seq::empty(), width), plain_style())] + content[i]
                },
        )
    }
}

pub fn label_prefix_string(label: &str, width: usize) -> (r: String)
    ensures
        r@ == label_prefix(label@, width as nat),
{
    let mut r = String::new();
    push_padded_left(&mut r, label, width);
    push_char(&mut r, ' ');
    push_char(&mut r, '\u{2502}');
    push_char(&mut r, ' ');
    assert(r@ =~= label_prefix(label@, width as nat));
    r
}

/// Emits a labeled block into `out`.
pub fn emit_labeled_block(
    out: &mut Vec<RenderedLine>,
    label: &str,
    label_width: usize,
    content_lines: &[RenderedLine],
    label_style: LineStyle,
)
    ensures
        lines_view(final(out)@) == lines_view(old(out)@) + labeled_block(
            label@,
            label_width as nat,
            lines_view(content_lines@),
            label_style,
        ),
{
    let ghost start = lines_view(out@);
    let ghost content = lines_view(content_lines@);
    if content_lines.len() == 0 {
        let prefix = label_prefix_string(label, label_width);
        out.push(RenderedLine::single(prefix, label_style));
        assert(lines_view(out@) =~= start + labeled_block(label@, label_width as nat, content, label_style));
        return;
    }
    let mut i: usize = 0;
    while i < content_lines.len()
        invariant
            content_lines@.len() > 0,
            content == lines_view(content_lines@),
            i <= content_lines@.len(),
            lines_view(out@) == start + labeled_block(label@, label_width as nat, content, label_style).take(i as int),
        decreases content_lines@.len() - i,
    {
        let mut spans: Vec<(String, LineStyle)> = Vec::new();
        if i == 0 {
            let prefix = label_prefix_string(label, label_width);
            spans.push((prefix, label_style));
        } else {
            let prefix = label_prefix_string("", label_width);
            proof {
                reveal_strlit("");
                assert(""@ =~= Seq::<char>::empty());
            }
            spans.push((prefix, LineStyle::plain()));
        }
        let line = content_lines[i].duplicate();
        let ghost head = spans@.map_values(|sp: (String, LineStyle)| (sp.0@, sp.1));
        assert(head =~= (if i == 0 {
            seq![(label_prefix(label@, label_width as nat), label_style)]
        } else {
            seq![(label_prefix(Seq::empty(), label_width as nat), plain_style())]
        }));
        assert(line@ == content[i as int]);
        let mut rest = line.spans;
        spans.append(&mut rest);
        let new_line = RenderedLine { spans };
        proof {
            let block = labeled_block(label@, label_width as nat, content, label_style);
            assert(new_line@ =~= head + content[i as int]);
            assert(new_line@ == block[i as int]);
            assert(block.take(i as int).push(block[i as int]) =~= block.take(i + 1));
        }
        let ghost before = out@;
        out.push(new_line);
        assert(lines_view(out@) =~= lines_view(before).push(new_line@));
        i += 1;
    }
    proof {
        let block = labeled_block(label@, label_width as nat, content, label_style);
        assert(block.take(i as int) =~= block);
    }
}


// ---------------------------------------------------------------------------
// Label widths
// ---------------------------------------------------------------------------

/// The label of a message: `[<model>]` for an assistant message with a model,
/// `[assistant]` for one without, `[<role>]` otherwise.
pub open spec fn role_label(m: MessageView) -> Seq<char> {
    if m.role@ == "assistant"@ {
        match m.model {
            Some(model) => seq!['['] + model@ + seq![']'],
            None => "[assistant]"@,
        }
    } else {
        seq!['['] + m.role@ + seq![']']
    }
}

pub fn role_label_string(m: &MessageView) -> (r: String)
    ensures
        r@ == role_label(*m),
{
    let assistant = string_of("assistant");
    if m.role == assistant {
        match &m.model {
            Some(model) => {
                let mut r = String::new();
                push_char(&mut r, '[');
                push_str(&mut r, model.as_str());
                push_char(&mut r, ']');
                assert(r@ =~= role_label(*m));
                r
            },
            None => string_of("[assistant]"),
        }
    } else {
        let mut r = String::new();
        push_char(&mut r, '[');
        push_str(&mut r, m.role.as_str());
        push_char(&mut r, ']');
        assert(r@ =~= role_label(*m));
        r
    }
}

pub open spec fn max_nat(a: nat, b: nat) -> nat {
    if a >= b { a } else { b }
}

/// Width of the label column that a part may need (0 for text, which uses the role label).
pub open spec fn part_label_width(p: ViewPart) -> nat {
    match p {
        ViewPart::ToolCall { .. } => display_width("[tool]"@),
        ViewPart::Reasoning(_) => display_width("[thinking]"@),
        ViewPart::StepFinish { .. } => display_width("[time]"@),
        ViewPart::Text(_) => 0,
    }
}

/// The widest label among the first `k` parts, at least `acc`.
pub open spec fn parts_label_width(parts: Seq<ViewPart>, k: int, acc: nat) -> nat
    decreases k,
{
    if k <= 0 {
        acc
    } else {
        max_nat(parts_label_width(parts, k - 1, acc), part_label_width(parts[k - 1]))
    }
}

/// The widest label among the first `k` messages and their parts, at least 6
/// (the width of `[user]`).
pub open spec fn label_width_upto(msgs: Seq<MessageView>, k: int) -> nat
    decreases k,
{
    if k <= 0 {
        6
    } else {
        let m = msgs[k - 1];
        parts_label_width(
            m.parts@,
            m.parts@.len() as int,
            max_nat(label_width_upto(msgs, k - 1), display_width(role_label(m))),
        )
    }
}

pub open spec fn label_width_of(msgs: Seq<MessageView>) -> nat {
    label_width_upto(msgs, msgs.len() as int)
}

/// Display width of the longest label in a session, at least 6.
pub fn compute_label_width(messages: &[MessageView]) -> (r: usize)
    ensures
        r == label_width_of(messages@),
{
    let mut max_width: usize = 6;
    let mut i: usize = 0;
    while i < messages.len()
        invariant
            i <= messages@.len(),
            max_width == label_width_upto(messages@, i as int),
        decreases messages@.len() - i,
    {
        let msg = &messages[i];
        let label = role_label_string(msg);
        let width = text_width(label.as_str());
        if width > max_width {
            max_width = width;
        }
        let ghost acc0 = max_width as nat;
        let mut j: usize = 0;
        while j < msg.parts.len()
            invariant
                j <= msg.parts@.len(),
                max_width == parts_label_width(msg.parts@, j as int, acc0),
            decreases msg.parts@.len() - j,
        {
            let w = match &msg.parts[j] {
                ViewPart::ToolCall { .. } => text_width("[tool]"),
                ViewPart::Reasoning(_) => text_width("[thinking]"),
                ViewPart::StepFinish { .. } => text_width("[time]"),
                ViewPart::Text(_) => 0,
            };
            if w > max_width {
                max_width = w;
            }
            j += 1;
        }
        i += 1;
    }
    max_width
}

// ---------------------------------------------------------------------------
// Wrapping (textwrap)
// ---------------------------------------------------------------------------

/// What `textwrap::wrap(line, width)` returns.
pub uninterp spec fn wrap_text(line: Seq<char>, width: nat) -> Seq<Seq<char>>;

/// textwrap's `wrap` with a plain width. Claimed: the lines depend on the line
/// and the width alone.
#[verifier::external_body]
pub(crate) fn textwrap_lines(line: &str, width: usize) -> (r: Vec<String>)
    ensures
        r@.map_values(|w: String| w@) == wrap_text(line@, width as nat),
{
    textwrap::wrap(line, width).into_iter().map(|cow| cow.into_owned()).collect()
}

/// Rendered lines for one source line: a blank line stays one blank line, a
/// line longer than a nonzero `width` is wrapped, any other is kept whole.
pub open spec fn wrapped_line(l: Seq<char>, width: nat, style: LineStyle) -> Seq<LineView> {
    if l.len() == 0 {
        seq![seq![(Seq::empty(), style)]]
    } else if width > 0 && l.len() > width {
        wrap_text(l, width).map_values(|w: Seq<char>| seq![(w, style)])
    } else {
        seq![seq![(l, style)]]
    }
}

/// `text` as styled lines, each source line wrapped at `width`; a trailing
/// newline adds a blank line.
pub open spec fn wrap_into(text: Seq<char>, width: nat, style: LineStyle) -> Seq<LineView> {
    lines(text).map_values(|l: Seq<char>| wrapped_line(l, width, style)).flatten() + (if text.len()
        > 0 && text.last() == '\n' {
        seq![seq![(Seq::<char>::empty(), style)]]
    } else {
        Seq::empty()
    })
}

fn wrapped_line_exec(l: &String, width: usize, style: LineStyle) -> (r: Vec<RenderedLine>)
    ensures
        lines_view(r@) == wrapped_line(l@, width as nat, style),
{
    let n = l.as_str().unicode_len();
    let mut r: Vec<RenderedLine> = Vec::new();
    if n == 0 {
        r.push(RenderedLine::single(String::new(), style));
        assert(lines_view(r@) =~= wrapped_line(l@, width as nat, style));
    } else if width > 0 && n > width {
        let ws = textwrap_lines(l.as_str(), width);
        let ghost wv = ws@.map_values(|w: String| w@);
        let mut k: usize = 0;
        while k < ws.len()
            invariant
                k <= ws@.len(),
                wv == ws@.map_values(|w: String| w@),
                wv == wrap_text(l@, width as nat),
                lines_view(r@) == wv.take(k as int).map_values(|w: Seq<char>| seq![(w, style)]),
            decreases ws@.len() - k,
        {
            let w = ws[k].clone();
            assert(w@ == wv[k as int]);
            let ghost before = r@;
            let nl = RenderedLine::single(w, style);
            r.push(nl);
            assert(lines_view(r@) =~= lines_view(before).push(seq![(wv[k as int], style)]));
            assert(lines_view(r@) =~= wv.take(k + 1).map_values(|w: Seq<char>| seq![(w, style)]));
            k += 1;
        }
        assert(wv.take(k as int) =~= wv);
    } else {
        r.push(RenderedLine::single(l.clone(), style));
        assert(lines_view(r@) =~= wrapped_line(l@, width as nat, style));
    }
    r
}

/// Wraps `text` at `width` characters, preserving its line breaks.
pub fn wrap_into_lines(text: &str, width: usize, style: LineStyle) -> (r: Vec<RenderedLine>)
    ensures
        lines_view(r@) == wrap_into(text@, width as nat, style),
{
    let ls = lines_of(text);
    let ghost lv = lines(text@);
    let ghost f = |l: Seq<char>| wrapped_line(l, width as nat, style);
    let mut result: Vec<RenderedLine> = Vec::new();
    let mut i: usize = 0;
    while i < ls.len()
        invariant
            ls@.len() == lv.len(),
            lv == lines(text@),
            f == (|l: Seq<char>| wrapped_line(l, width as nat, style)),
            forall|k: int| 0 <= k < ls@.len() ==> #[trigger] ls@[k]@ == lv[k],
            i <= ls@.len(),
            lines_view(result@) == lv.take(i as int).map_values(f).flatten(),
        decreases ls@.len() - i,
    {
        let mut piece = wrapped_line_exec(&ls[i], width, style);
        let ghost before = result@;
        let ghost pv = lines_view(piece@);
        result.append(&mut piece);
        proof {
            assert(lines_view(result@) =~= lines_view(before) + pv);
            assert(lv.take(i + 1).map_values(f) =~= lv.take(i as int).map_values(f).push(f(lv[i as int])));
            lv.take(i as int).map_values(f).lemma_flatten_push(f(lv[i as int]));
        }
        i += 1;
    }
    assert(lv.take(i as int) =~= lv);
    let n = text.unicode_len();
    if n > 0 && text.get_char(n - 1) == '\n' {
        let ghost before = result@;
        result.push(RenderedLine::single(String::new(), style));
        assert(lines_view(result@) =~= lines_view(before) + seq![seq![(Seq::<char>::empty(), style)]]);
    } else {
        assert(lines_view(result@) =~= lines_view(result@) + Seq::<LineView>::empty());
    }
    result
}


// ---------------------------------------------------------------------------
// Session layout
// ---------------------------------------------------------------------------

/// What the markdown renderer and the tool formatter produced for one part.
#[derive(Debug)]
pub struct PartRendering {
    /// Text and reasoning parts: the markdown rendering, with SGR sequences.
    pub markdown: String,
    /// Tool calls: the formatted header.
    pub tool_header: String,
    /// Tool calls: the formatted body, when there is one.
    pub tool_body: Option<String>,
    /// Tool calls: the formatted output, when there is one.
    pub tool_output: Option<String>,
}

/// The style of secondary text.
pub open spec fn dim_style() -> LineStyle {
    LineStyle { dimmed: true, ..plain_style() }
}

pub open spec fn bold_style() -> LineStyle {
    LineStyle { bold: true, ..plain_style() }
}

/// A part is shown: text always, reasoning when thinking is shown, tool calls
/// unless hidden, step finishes when timing is shown.
pub open spec fn part_visible(p: ViewPart, o: RenderOptions) -> bool {
    match p {
        ViewPart::Text(_) => true,
        ViewPart::Reasoning(_) => o.show_thinking,
        ViewPart::ToolCall { .. } => o.tool_display != ToolDisplayMode::Hidden,
        ViewPart::StepFinish { .. } => o.show_timing,
    }
}

/// `<input>↑ <output>↓ tokens`, then `, $<cost>` (four places) when the cost is known.
pub open spec fn timing_text(input_tokens: u64, output_tokens: u64, cost: Option<UsdAmount>) -> Seq<char> {
    decimal(input_tokens as nat) + seq!['\u{2191}', ' '] + decimal(output_tokens as nat) + seq![
        '\u{2193}',
        ' ',
    ] + "tokens"@ + match cost {
        Some(c) => seq![',', ' ', '$'] + c.fixed4@,
        None => Seq::empty(),
    }
}

/// The tool-call lines: the header after a `▶`, the body, and the output when
/// the call completed with one; all dimmed and wrapped.
pub open spec fn tool_lines(p: ViewPart, a: PartRendering, cw: nat) -> Seq<LineView> {
    match p {
        ViewPart::ToolCall { output, status, .. } => wrap_into(
            seq!['\u{25B6}', ' '] + a.tool_header@,
            cw,
            dim_style(),
        ) + match a.tool_body {
            Some(b) => wrap_into(b@, cw, dim_style()),
            None => Seq::empty(),
        } + if output is Some && status@ == "completed"@ {
            match a.tool_output {
                Some(t) => wrap_into(t@, cw, dim_style()),
                None => Seq::empty(),
            }
        } else {
            Seq::empty()
        },
        _ => Seq::empty(),
    }
}

/// The content lines of a part, before labels.
pub open spec fn part_content(p: ViewPart, a: PartRendering, cw: nat) -> Seq<LineView> {
    match p {
        ViewPart::Text(_) => ansi_lines(a.markdown@),
        ViewPart::Reasoning(_) => ansi_lines(a.markdown@),
        ViewPart::ToolCall { .. } => tool_lines(p, a, cw),
        ViewPart::StepFinish { cost, input_tokens, output_tokens } => seq![
            seq![(timing_text(input_tokens, output_tokens, cost), plain_style())],
        ],
    }
}

/// A tool call shows its header after a `▶` first (its body next), and, when
/// the call completed with an output, the output's lines last; a call that
/// did not complete, or has no output, shows no output lines.
pub proof fn lemma_tool_output_shown(p: ViewPart, a: PartRendering, cw: nat)
    requires
        p is ToolCall,
    ensures
        ({
            let head = wrap_into(seq!['\u{25B6}', ' '] + a.tool_header@, cw, dim_style());
            let body = match a.tool_body {
                Some(b) => wrap_into(b@, cw, dim_style()),
                None => Seq::<LineView>::empty(),
            };
            let shown = part_content(p, a, cw);
            &&& shown.len() >= head.len() + body.len()
            &&& shown.take(head.len() as int) == head
            &&& shown.subrange(head.len() as int, (head.len() + body.len()) as int) == body
            &&& (p matches ViewPart::ToolCall { output: Some(_), status, .. } && status@ == "completed"@
                && a.tool_output is Some) ==> shown.skip((head.len() + body.len()) as int) == wrap_into(
                a.tool_output->0@,
                cw,
                dim_style(),
            )
            &&& !(p matches ViewPart::ToolCall { output: Some(_), status, .. } && status@ == "completed"@
                && a.tool_output is Some) ==> shown.len() == head.len() + body.len()
        }),
{
    let head = wrap_into(seq!['\u{25B6}', ' '] + a.tool_header@, cw, dim_style());
    let body = match a.tool_body {
        Some(b) => wrap_into(b@, cw, dim_style()),
        None => Seq::<LineView>::empty(),
    };
    let shown = part_content(p, a, cw);
    let rest = shown.skip((head.len() + body.len()) as int);
    assert(shown == head + body + rest);
    assert(shown.take(head.len() as int) =~= head);
    assert(shown.subrange(head.len() as int, (head.len() + body.len()) as int) =~= body);
}

/// The label and label style of a part: the role label (bold) on the first
/// text part of a message and a blank label on later ones; fixed dimmed
/// labels for reasoning, tools and timing.
pub open spec fn part_label(p: ViewPart, role: Seq<char>, role_emitted: bool) -> (Seq<char>, LineStyle) {
    match p {
        ViewPart::Text(_) => if !role_emitted {
            (role, bold_style())
        } else {
            (Seq::empty(), plain_style())
        },
        ViewPart::Reasoning(_) => ("[thinking]"@, dim_style()),
        ViewPart::ToolCall { .. } => ("[tool]"@, dim_style()),
        ViewPart::StepFinish { .. } => ("[time]"@, dim_style()),
    }
}

/// The dimmed timestamp line before the first shown part of a message.
pub open spec fn with_stamp(content: Seq<LineView>, stamp: Seq<char>, first_seen: bool) -> Seq<LineView> {
    if first_seen {
        content
    } else {
        seq![seq![(stamp, dim_style())]] + content
    }
}

/// The lines of one part, given whether an earlier part was shown and whether
/// an earlier text part carried the role label.
pub open spec fn part_block(
    p: ViewPart,
    a: PartRendering,
    stamp: Seq<char>,
    role: Seq<char>,
    first_seen: bool,
    role_emitted: bool,
    lw: nat,
    cw: nat,
    o: RenderOptions,
) -> Seq<LineView> {
    if part_visible(p, o) {
        let (label, style) = part_label(p, role, role_emitted);
        labeled_block(label, lw, with_stamp(part_content(p, a, cw), stamp, first_seen), style)
    } else {
        Seq::empty()
    }
}

/// Some part before `k` is shown.
pub open spec fn seen_before(parts: Seq<ViewPart>, k: int, o: RenderOptions) -> bool {
    exists|j: int| 0 <= j < k && part_visible(#[trigger] parts[j], o)
}

/// Some part before `k` is a text part.
pub open spec fn text_before(parts: Seq<ViewPart>, k: int) -> bool {
    exists|j: int| 0 <= j < k && (#[trigger] parts[j] is Text)
}

/// The lines of the first `k` parts of a message.
pub open spec fn parts_block(
    m: MessageView,
    aux: Seq<PartRendering>,
    stamp: Seq<char>,
    lw: nat,
    cw: nat,
    o: RenderOptions,
    k: int,
) -> Seq<LineView>
    decreases k,
{
    if k <= 0 {
        Seq::empty()
    } else {
        parts_block(m, aux, stamp, lw, cw, o, k - 1) + part_block(
            m.parts@[k - 1],
            aux[k - 1],
            stamp,
            role_label(m),
            seen_before(m.parts@, k - 1, o),
            text_before(m.parts@, k - 1),
            lw,
            cw,
            o,
        )
    }
}

/// The lines of a message: its parts, then a blank separator line.
pub open spec fn message_block(
    m: MessageView,
    aux: Seq<PartRendering>,
    stamp: Seq<char>,
    lw: nat,
    cw: nat,
    o: RenderOptions,
) -> Seq<LineView> {
    parts_block(m, aux, stamp, lw, cw, o, m.parts@.len() as int) + seq![seq![(Seq::<char>::empty(), plain_style())]]
}

/// The width given to markdown, tools and wrapping: unbounded (100000) when
/// the options ask for no wrapping, else what is left beside the label column,
/// at least 10.
pub open spec fn body_width(content_width: usize, lw: nat) -> nat {
    if content_width == 0 {
        100000
    } else {
        let left = if content_width >= lw + 3 { (content_width - (lw + 3)) as nat } else { 0 };
        max_nat(left, 10)
    }
}

/// Each message's block.
pub open spec fn session_blocks(
    s: OcSessionView,
    aux: Seq<Seq<PartRendering>>,
    stamps: Seq<Seq<char>>,
    o: RenderOptions,
) -> Seq<Seq<LineView>> {
    let lw = label_width_of(s.messages@);
    let cw = body_width(o.content_width, lw);
    Seq::new(s.messages@.len(), |i: int| message_block(s.messages@[i], aux[i], stamps[i], lw, cw, o))
}

/// Message `i` occupies the lines after those of the messages before it.
pub open spec fn range_of(blocks: Seq<Seq<LineView>>, i: int) -> MessageRange {
    let start = blocks.take(i).flatten().len();
    MessageRange {
        start_line: start as usize,
        end_line: (start + blocks[i].len() - 1) as usize,
        entry_index: i as usize,
    }
}

/// The per-part renderings, by value.
pub open spec fn aux_view(aux: Seq<Vec<PartRendering>>) -> Seq<Seq<PartRendering>> {
    aux.map_values(|v: Vec<PartRendering>| v@)
}

/// `aux` holds one rendering per part of each message.
pub open spec fn aux_fits(s: OcSessionView, aux: Seq<Vec<PartRendering>>) -> bool {
    &&& aux.len() == s.messages@.len()
    &&& forall|i: int| 0 <= i < aux.len() ==> (#[trigger] aux[i])@.len() == s.messages@[i].parts@.len()
}

/// Body width for a session rendered with `content_width`.
pub fn body_width_for(content_width: usize, label_width: usize) -> (r: usize)
    ensures
        r == body_width(content_width, label_width as nat),
{
    if content_width == 0 {
        100_000
    } else {
        let reserved = label_width.saturating_add(3);
        let left = content_width.saturating_sub(reserved);
        assert(reserved == label_width + 3 || label_width + 3 > usize::MAX);
        if left > 10 { left } else { 10 }
    }
}


fn append_lines(out: &mut Vec<RenderedLine>, more: Vec<RenderedLine>)
    ensures
        lines_view(final(out)@) == lines_view(old(out)@) + lines_view(more@),
{
    let mut more = more;
    let ghost before = out@;
    let ghost mv = more@;
    out.append(&mut more);
    assert(lines_view(out@) =~= lines_view(before) + lines_view(mv));
}

fn ansi_rendered(s: &str) -> (r: Vec<RenderedLine>)
    ensures
        lines_view(r@) == ansi_lines(s@),
{
    let r = ansi_to_rendered_lines(s);
    assert(lines_view(r@) =~= ansi_lines(s@));
    r
}

fn timing_line(input_tokens: u64, output_tokens: u64, cost: &Option<UsdAmount>) -> (r: String)
    ensures
        r@ == timing_text(input_tokens, output_tokens, *cost),
{
    let mut t = String::new();
    push_decimal(&mut t, input_tokens);
    push_char(&mut t, '\u{2191}');
    push_char(&mut t, ' ');
    push_decimal(&mut t, output_tokens);
    push_char(&mut t, '\u{2193}');
    push_char(&mut t, ' ');
    push_str(&mut t, "tokens");
    let ghost base = t@;
    match cost {
        Some(c) => {
            push_char(&mut t, ',');
            push_char(&mut t, ' ');
            push_char(&mut t, '$');
            push_str(&mut t, c.fixed4.as_str());
            assert(t@ =~= base + (seq![',', ' ', '$'] + c.fixed4@));
        },
        None => {
            assert(t@ =~= base + Seq::<char>::empty());
        },
    }
    assert(t@ =~= timing_text(input_tokens, output_tokens, *cost));
    t
}

fn part_content_lines(p: &ViewPart, a: &PartRendering, cw: usize) -> (r: Vec<RenderedLine>)
    ensures
        lines_view(r@) == part_content(*p, *a, cw as nat),
{
    match p {
        ViewPart::Text(_) => ansi_rendered(a.markdown.as_str()),
        ViewPart::Reasoning(_) => ansi_rendered(a.markdown.as_str()),
        ViewPart::ToolCall { output, status, .. } => {
            let dim = LineStyle::dimmed_style();
            let mut header = String::new();
            push_char(&mut header, '\u{25B6}');
            push_char(&mut header, ' ');
            push_str(&mut header, a.tool_header.as_str());
            assert(header@ =~= seq!['\u{25B6}', ' '] + a.tool_header@);
            let mut lines = wrap_into_lines(header.as_str(), cw, dim);
            match &a.tool_body {
                Some(b) => {
                    let more = wrap_into_lines(b.as_str(), cw, dim);
                    append_lines(&mut lines, more);
                },
                None => {
                    assert(lines_view(lines@) =~= lines_view(lines@) + Seq::<LineView>::empty());
                },
            }
            let completed = string_of("completed");
            if output.is_some() && *status == completed {
                match &a.tool_output {
                    Some(t) => {
                        let more = wrap_into_lines(t.as_str(), cw, dim);
                        append_lines(&mut lines, more);
                    },
                    None => {
                        assert(lines_view(lines@) =~= lines_view(lines@) + Seq::<LineView>::empty());
                    },
                }
            } else {
                assert(lines_view(lines@) =~= lines_view(lines@) + Seq::<LineView>::empty());
            }
            lines
        },
        ViewPart::StepFinish { cost, input_tokens, output_tokens } => {
            let t = timing_line(*input_tokens, *output_tokens, cost);
            let mut v: Vec<RenderedLine> = Vec::new();
            v.push(RenderedLine::single(t, LineStyle::plain()));
            assert(lines_view(v@) =~= part_content(*p, *a, cw as nat));
            v
        },
    }
}

fn emit_part(
    out: &mut Vec<RenderedLine>,
    p: &ViewPart,
    a: &PartRendering,
    stamp: &String,
    role: &String,
    first_seen: bool,
    role_emitted: bool,
    lw: usize,
    cw: usize,
    o: &RenderOptions,
)
    ensures
        lines_view(final(out)@) == lines_view(old(out)@) + part_block(
            *p,
            *a,
            stamp@,
            role@,
            first_seen,
            role_emitted,
            lw as nat,
            cw as nat,
            *o,
        ),
{
    let visible = match p {
        ViewPart::Text(_) => true,
        ViewPart::Reasoning(_) => o.show_thinking,
        ViewPart::ToolCall { .. } => o.tool_display.is_visible(),
        ViewPart::StepFinish { .. } => o.show_timing,
    };
    if !visible {
        assert(lines_view(out@) =~= lines_view(out@) + Seq::<LineView>::empty());
        return;
    }
    let content = part_content_lines(p, a, cw);
    let ghost cv = lines_view(content@);
    let block = if first_seen {
        content
    } else {
        let mut v: Vec<RenderedLine> = Vec::new();
        v.push(RenderedLine::single(stamp.clone(), LineStyle::dimmed_style()));
        append_lines(&mut v, content);
        v
    };
    assert(lines_view(block@) =~= with_stamp(cv, stamp@, first_seen));
    proof {
        reveal_strlit("");
        assert(""@ =~= Seq::<char>::empty());
    }
    match p {
        ViewPart::Text(_) => {
            if !role_emitted {
                emit_labeled_block(out, role.as_str(), lw, block.as_slice(), LineStyle::bold_style());
            } else {
                emit_labeled_block(out, "", lw, block.as_slice(), LineStyle::plain());
            }
        },
        ViewPart::Reasoning(_) => {
            emit_labeled_block(out, "[thinking]", lw, block.as_slice(), LineStyle::dimmed_style());
        },
        ViewPart::ToolCall { .. } => {
            emit_labeled_block(out, "[tool]", lw, block.as_slice(), LineStyle::dimmed_style());
        },
        ViewPart::StepFinish { .. } => {
            emit_labeled_block(out, "[time]", lw, block.as_slice(), LineStyle::dimmed_style());
        },
    }
}


proof fn lemma_before_step(parts: Seq<ViewPart>, j: int, o: RenderOptions)
    requires
        0 <= j < parts.len(),
    ensures
        seen_before(parts, j + 1, o) == (seen_before(parts, j, o) || part_visible(parts[j], o)),
        text_before(parts, j + 1) == (text_before(parts, j) || parts[j] is Text),
{
    if seen_before(parts, j + 1, o) && !part_visible(parts[j], o) {
        let w = choose|w: int| 0 <= w < j + 1 && part_visible(#[trigger] parts[w], o);
        assert(w < j);
    }
    if part_visible(parts[j], o) {
        assert(part_visible(parts[j], o));
    }
    if text_before(parts, j + 1) && !(parts[j] is Text) {
        let w = choose|w: int| 0 <= w < j + 1 && (#[trigger] parts[w] is Text);
        assert(w < j);
    }
}

fn part_is_visible(p: &ViewPart, o: &RenderOptions) -> (r: bool)
    ensures
        r == part_visible(*p, *o),
{
    match p {
        ViewPart::Text(_) => true,
        ViewPart::Reasoning(_) => o.show_thinking,
        ViewPart::ToolCall { .. } => o.tool_display.is_visible(),
        ViewPart::StepFinish { .. } => o.show_timing,
    }
}

fn emit_message(
    out: &mut Vec<RenderedLine>,
    m: &MessageView,
    aux: &Vec<PartRendering>,
    stamp: &String,
    lw: usize,
    cw: usize,
    o: &RenderOptions,
)
    requires
        aux@.len() == m.parts@.len(),
    ensures
        lines_view(final(out)@) == lines_view(old(out)@) + message_block(
            *m,
            aux@,
            stamp@,
            lw as nat,
            cw as nat,
            *o,
        ),
{
    let role = role_label_string(m);
    let ghost start = lines_view(out@);
    let mut first_seen = false;
    let mut role_emitted = false;
    let mut j: usize = 0;
    while j < m.parts.len()
        invariant
            aux@.len() == m.parts@.len(),
            role@ == role_label(*m),
            j <= m.parts@.len(),
            first_seen == seen_before(m.parts@, j as int, *o),
            role_emitted == text_before(m.parts@, j as int),
            lines_view(out@) == start + parts_block(*m, aux@, stamp@, lw as nat, cw as nat, *o, j as int),
        decreases m.parts@.len() - j,
    {
        let p = &m.parts[j];
        emit_part(out, p, &aux[j], stamp, &role, first_seen, role_emitted, lw, cw, o);
        proof {
            lemma_before_step(m.parts@, j as int, *o);
        }
        let vis = part_is_visible(p, o);
        if vis {
            first_seen = true;
        }
        match p {
            ViewPart::Text(_) => {
                role_emitted = true;
            },
            _ => {},
        }
        j += 1;
    }
    let ghost before = out@;
    out.push(RenderedLine::single(String::new(), LineStyle::plain()));
    assert(lines_view(out@) =~= lines_view(before).push(seq![(Seq::<char>::empty(), plain_style())]));
}

/// Lays out a session from its per-part renderings and per-message timestamps.
pub fn layout_session(
    session: &OcSessionView,
    aux: &Vec<Vec<PartRendering>>,
    stamps: &Vec<String>,
    options: &RenderOptions,
) -> (r: RenderedConversation)
    requires
        aux_fits(*session, aux@),
        stamps@.len() == session.messages@.len(),
    ensures
        lines_view(r.lines@) == session_blocks(
            *session,
            aux_view(aux@),
            stamps@.map_values(|t: String| t@),
            *options,
        ).flatten(),
        r.messages@.len() == session.messages@.len(),
        forall|i: int|
            0 <= i < r.messages@.len() ==> #[trigger] r.messages@[i] == range_of(
                session_blocks(*session, aux_view(aux@), stamps@.map_values(|t: String| t@), *options),
                i,
            ),
{
    let ghost blocks = session_blocks(*session, aux_view(aux@), stamps@.map_values(|t: String| t@), *options);
    let lw = compute_label_width(session.messages.as_slice());
    let cw = body_width_for(options.content_width, lw);
    let mut lines: Vec<RenderedLine> = Vec::new();
    let mut ranges: Vec<MessageRange> = Vec::new();
    let n = session.messages.len();
    let mut idx: usize = 0;
    while idx < n
        invariant
            n == session.messages@.len(),
            aux_fits(*session, aux@),
            stamps@.len() == n,
            lw == label_width_of(session.messages@),
            cw == body_width(options.content_width, lw as nat),
            blocks == session_blocks(*session, aux_view(aux@), stamps@.map_values(|t: String| t@), *options),
            idx <= n,
            lines_view(lines@) == blocks.take(idx as int).flatten(),
            ranges@.len() == idx,
            forall|i: int| 0 <= i < idx ==> #[trigger] ranges@[i] == range_of(blocks, i),
        decreases n - idx,
    {
        let start_line = lines.len();
        let ghost before = lines_view(lines@);
        emit_message(&mut lines, &session.messages[idx], &aux[idx], &stamps[idx], lw, cw, options);
        proof {
            assert(aux_view(aux@)[idx as int] == aux@[idx as int]@);
            assert(blocks[idx as int] == message_block(
                session.messages@[idx as int],
                aux@[idx as int]@,
                stamps@[idx as int]@,
                lw as nat,
                cw as nat,
                *options,
            ));
            assert(blocks.take(idx + 1) =~= blocks.take(idx as int).push(blocks[idx as int]));
            blocks.take(idx as int).lemma_flatten_push(blocks[idx as int]);
            assert(blocks[idx as int].len() >= 1);
        }
        let end_line = lines.len() - 1;
        ranges.push(MessageRange { start_line, end_line, entry_index: idx });
        idx += 1;
    }
    assert(blocks.take(n as int) =~= blocks);
    RenderedConversation { lines, messages: ranges }
}


/// A conversation of one dimmed line and no messages.
pub fn placeholder(msg: &str) -> (r: RenderedConversation)
    ensures
        lines_view(r.lines@) == seq![seq![(msg@, dim_style())]],
        r.messages@.len() == 0,
{
    let mut lines: Vec<RenderedLine> = Vec::new();
    lines.push(RenderedLine::single(string_of(msg), LineStyle::dimmed_style()));
    assert(lines_view(lines@) =~= seq![seq![(msg@, dim_style())]]);
    RenderedConversation { lines, messages: Vec::new() }
}

/// The local date and minute of a millisecond timestamp, `%Y-%m-%d %H:%M`
/// (chrono: `Local.timestamp_millis_opt(..).single()`, falling back to
/// `Local::now()`, then `format`). Nothing is claimed of the text: it depends
/// on the machine's time zone, and on the clock when the instant is out of range.
#[verifier::external_body]
pub(crate) fn local_minute_stamp(created_ms: i64) -> String {
    let dt = chrono::Local.timestamp_millis_opt(created_ms).single().unwrap_or_else(chrono::Local::now);
    dt.format("%Y-%m-%d %H:%M").to_string()
}

/// The result of rendering a session with the timestamps `stamps`.
pub open spec fn rendered_with(
    r: RenderedConversation,
    s: OcSessionView,
    aux: Seq<Vec<PartRendering>>,
    stamps: Seq<Seq<char>>,
    o: RenderOptions,
) -> bool {
    &&& stamps.len() == s.messages@.len()
    &&& lines_view(r.lines@) == session_blocks(s, aux_view(aux), stamps, o).flatten()
    &&& r.messages@.len() == s.messages@.len()
    &&& forall|i: int|
        0 <= i < r.messages@.len() ==> #[trigger] r.messages@[i] == range_of(
            session_blocks(s, aux_view(aux), stamps, o),
            i,
        )
}

/// `lines` and `ranges` are what rendering `content` gives: a "Loading…"
/// placeholder without a session, a notice for a session without messages,
/// else the session's blocks (with some timestamps) and their line ranges.
pub open spec fn renders_as(
    lines: Seq<LineView>,
    ranges: Seq<MessageRange>,
    content: Option<OcSessionView>,
    aux: Seq<Vec<PartRendering>>,
    o: RenderOptions,
) -> bool {
    match content {
        None => lines == seq![seq![("Loading\u{2026}"@, dim_style())]] && ranges.len() == 0,
        Some(s) => if s.messages@.len() == 0 {
            lines == seq![seq![("No messages in this session."@, dim_style())]] && ranges.len() == 0
        } else {
            exists|stamps: Seq<Seq<char>>|
                {
                    &&& stamps.len() == s.messages@.len()
                    &&& lines == (#[trigger] session_blocks(s, aux_view(aux), stamps, o)).flatten()
                    &&& ranges.len() == s.messages@.len()
                    &&& forall|i: int|
                        0 <= i < ranges.len() ==> #[trigger] ranges[i] == range_of(
                            session_blocks(s, aux_view(aux), stamps, o),
                            i,
                        )
                }
        },
    }
}

/// Renders an opencode session in ledger style: each shown part is a labeled
/// row `<label> │ <content>`, the label column fitted to the longest label.
/// No session yet gives a "Loading…" placeholder; a session without messages
/// gives "No messages in this session.".
pub fn render_oc_session(
    content: Option<&OcSessionView>,
    aux: &Vec<Vec<PartRendering>>,
    options: &RenderOptions,
) -> (r: crate::error::Result<RenderedConversation>)
    requires
        content matches Some(s) ==> aux_fits(*s, aux@),
    ensures
        r is Ok,
        content is None ==> lines_view(r->Ok_0.lines@) == seq![seq![("Loading\u{2026}"@, dim_style())]]
            && r->Ok_0.messages@.len() == 0,
        content matches Some(s) && s.messages@.len() == 0 ==> lines_view(r->Ok_0.lines@) == seq![
            seq![("No messages in this session."@, dim_style())],
        ] && r->Ok_0.messages@.len() == 0,
        content is Some && content.unwrap().messages@.len() > 0 ==> exists|stamps: Seq<Seq<char>>|
            #[trigger] rendered_with(r->Ok_0, *content.unwrap(), aux@, stamps, *options),
{
    match content {
        None => Ok(placeholder("Loading\u{2026}")),
        Some(session) => {
            if session.messages.len() == 0 {
                return Ok(placeholder("No messages in this session."));
            }
            let mut stamps: Vec<String> = Vec::new();
            let mut i: usize = 0;
            while i < session.messages.len()
                invariant
                    i <= session.messages@.len(),
                    stamps@.len() == i,
                decreases session.messages@.len() - i,
            {
                stamps.push(local_minute_stamp(session.messages[i].created));
                i += 1;
            }
            let r = layout_session(session, aux, &stamps, options);
            let ghost sv = stamps@.map_values(|t: String| t@);
            assert(rendered_with(r, *session, aux@, sv, *options));
            let res: crate::error::Result<RenderedConversation> = Ok(r);
            assert(content.unwrap() == session);
            assert(rendered_with(res->Ok_0, *content.unwrap(), aux@, sv, *options));
            res
        },
    }
}

/// Lengths of the flattened prefixes of `blocks` grow by one block at a time.
pub proof fn lemma_prefix_lengths(blocks: Seq<Seq<LineView>>, i: int)
    requires
        0 <= i < blocks.len(),
    ensures
        blocks.take(i + 1).flatten().len() == blocks.take(i).flatten().len() + blocks[i].len(),
{
    assert(blocks.take(i + 1) =~= blocks.take(i).push(blocks[i]));
    blocks.take(i).lemma_flatten_push(blocks[i]);
}

/// The message ranges of a rendering tile its lines: the first starts at line
/// 0, each starts right after the one before ends, and the last ends on the
/// last line.
pub proof fn lemma_ranges_tile(blocks: Seq<Seq<LineView>>)
    requires
        forall|i: int| 0 <= i < blocks.len() ==> (#[trigger] blocks[i]).len() >= 1,
        blocks.flatten().len() <= usize::MAX,
    ensures
        blocks.len() > 0 ==> range_of(blocks, 0).start_line == 0,
        forall|i: int|
            0 <= i < blocks.len() - 1 ==> (#[trigger] range_of(blocks, i)).end_line + 1 == range_of(
                blocks,
                i + 1,
            ).start_line,
        blocks.len() > 0 ==> range_of(blocks, blocks.len() - 1).end_line + 1 == blocks.flatten().len(),
        forall|i: int|
            0 <= i < blocks.len() ==> (#[trigger] range_of(blocks, i)).start_line <= range_of(
                blocks,
                i,
            ).end_line,
{
    assert forall|k: int| 0 <= k <= blocks.len() implies #[trigger] blocks.take(k).flatten().len() <= blocks.flatten().len() by {
        lemma_prefix_le(blocks, k);
    }
    if blocks.len() > 0 {
        assert(blocks.take(0) =~= Seq::<Seq<LineView>>::empty());
        lemma_prefix_lengths(blocks, blocks.len() - 1);
        assert(blocks.take(blocks.len() as int) =~= blocks);
    }
    assert forall|i: int| 0 <= i < blocks.len() - 1 implies (#[trigger] range_of(blocks, i)).end_line + 1
        == range_of(blocks, i + 1).start_line by {
        lemma_prefix_lengths(blocks, i);
        assert(blocks.take(i + 1).flatten().len() <= blocks.flatten().len());
    }
    assert forall|i: int| 0 <= i < blocks.len() implies (#[trigger] range_of(blocks, i)).start_line
        <= range_of(blocks, i).end_line by {
        lemma_prefix_lengths(blocks, i);
        assert(blocks.take(i + 1).flatten().len() <= blocks.flatten().len());
    }
}

proof fn lemma_prefix_le(blocks: Seq<Seq<LineView>>, k: int)
    requires
        0 <= k <= blocks.len(),
    ensures
        blocks.take(k).flatten().len() <= blocks.flatten().len(),
    decreases blocks.len() - k,
{
    if k < blocks.len() {
        lemma_prefix_le(blocks, k + 1);
        lemma_prefix_lengths(blocks, k);
    } else {
        assert(blocks.take(k) =~= blocks);
    }
}

} // verus!
