//! Export of opencode sessions as ledger text, plain text or markdown.
//!
//! The exports honour the display settings of the viewer: tool calls unless
//! hidden, reasoning when thinking is shown, step finishes when timing is shown.

use vstd::prelude::*;
use crate::text::{
    split_on, lemma_split_on_nonempty, lemma_lines_free, lemma_split_on_append_free, lemma_split_on_push_sep,
    push_char, push_str, push_decimal, push_padded_left, push_repeat, decimal, pad_left,
    repeat_char, string_of, chars_of, lines, lines_of, contains_seq, occurs_at, is_alphanumeric,
    unicode_alphanumeric, is_ascii_alnum,
};
use crate::opencode::models::{MessageView, OcSessionView, ViewPart, UsdAmount};
use crate::tui::ToolDisplayMode;
use crate::tui::viewer::{PartRendering, aux_fits, aux_view, wrap_text, textwrap_lines, separator};

verus! {

broadcast use vstd::string::group_string_axioms, vstd::seq_lib::group_seq_lib_default;

/// Export format options.
#[derive(Clone, Copy, Debug, PartialEq, Eq)]
pub enum ExportFormat {
    Ledger,
    Plain,
    Markdown,
}

pub open spec fn format_at(index: usize) -> Option<ExportFormat> {
    if index == 0 {
        Some(ExportFormat::Ledger)
    } else if index == 1 {
        Some(ExportFormat::Plain)
    } else if index == 2 {
        Some(ExportFormat::Markdown)
    } else {
        None
    }
}

pub open spec fn extension_of(f: ExportFormat) -> Seq<char> {
    match f {
        ExportFormat::Ledger | ExportFormat::Plain => "txt"@,
        ExportFormat::Markdown => "md"@,
    }
}

impl ExportFormat {
    /// The format of menu option `index` (0 to 2).
    pub fn from_index(index: usize) -> (r: Option<Self>)
        ensures
            r == format_at(index),
    {
        match index {
            0 => Some(ExportFormat::Ledger),
            1 => Some(ExportFormat::Plain),
            2 => Some(ExportFormat::Markdown),
            _ => None,
        }
    }

    /// The file extension for this format.
    pub fn extension(&self) -> (r: &'static str)
        ensures
            r@ == extension_of(*self),
    {
        match self {
            ExportFormat::Ledger | ExportFormat::Plain => "txt",
            ExportFormat::Markdown => "md",
        }
    }
}

/// The menu offers exactly three formats, each at one index.
pub proof fn lemma_menu_formats(i: usize, j: usize)
    ensures
        format_at(i) is Some <==> i < 3,
        format_at(i) is Some && format_at(i) == format_at(j) ==> i == j,
{
}

// ---------------------------------------------------------------------------
// Tool texts
// ---------------------------------------------------------------------------

/// Total line width of the ledger export (name column and separator included).
pub const LEDGER_WIDTH: usize = 90;

/// Width of the ledger name column.
pub const LEDGER_NAME_WIDTH: usize = 9;

/// Width of the ledger content column.
pub open spec fn ledger_content_width() -> nat {
    (LEDGER_WIDTH - LEDGER_NAME_WIDTH - 3) as nat
}

/// The width at which tool calls are formatted for an export format: the
/// ledger content column, or unbounded for plain text and markdown.
pub fn export_tool_width(format: ExportFormat) -> (r: usize)
    ensures
        r == (if format == ExportFormat::Ledger { ledger_content_width() } else { usize::MAX as nat }),
{
    match format {
        ExportFormat::Ledger => LEDGER_WIDTH - LEDGER_NAME_WIDTH - 3,
        _ => usize::MAX,
    }
}

/// The formatted tool call: its header, and its body on the next line when there is one.
pub open spec fn tool_text(a: PartRendering) -> Seq<char> {
    match a.tool_body {
        Some(b) => a.tool_header@ + "\n"@ + b@,
        None => a.tool_header@,
    }
}

/// The tool result as pretty JSON, `<error>` when it could not be printed.
pub open spec fn result_text(a: PartRendering) -> Seq<char> {
    match a.tool_output {
        Some(t) => t@,
        None => "<error>"@,
    }
}

fn tool_text_string(a: &PartRendering) -> (r: String)
    ensures
        r@ == tool_text(*a),
{
    let mut r = a.tool_header.clone();
    match &a.tool_body {
        Some(b) => {
            push_str(&mut r, "\n");
            push_str(&mut r, b.as_str());
        },
        None => {},
    }
    r
}

fn result_text_string(a: &PartRendering) -> (r: String)
    ensures
        r@ == result_text(*a),
{
    match &a.tool_output {
        Some(t) => t.clone(),
        None => string_of("<error>"),
    }
}

/// What serde_json's `to_string_pretty` prints for a JSON value.
pub uninterp spec fn pretty_json_of(v: serde_json::Value) -> Seq<char>;

/// serde_json's `to_string_pretty` on a tool result (`None` would stand for
/// a serialization error). Claimed: printing a `Value` succeeds, since its
/// `Serialize` impl has no error path of its own, its map keys are strings,
/// and the text is written to a `Vec`; the text is a fixed function of the value.
#[verifier::external_body]
fn json_pretty(v: &serde_json::Value) -> (r: Option<String>)
    ensures
        r is Some,
        r matches Some(t) ==> t@ == pretty_json_of(*v),
{
    serde_json::to_string_pretty(v).ok()
}

/// The rendering of a part for an export: the tool result, where the part is
/// a tool call that has one, is printed by serde_json as pretty JSON, which
/// always succeeds; everything else is kept.
pub fn with_pretty_output(p: &ViewPart, a: PartRendering) -> (r: PartRendering)
    ensures
        r.markdown == a.markdown,
        r.tool_header == a.tool_header,
        r.tool_body == a.tool_body,
        p matches ViewPart::ToolCall { output: Some(v), .. } ==> (r.tool_output matches Some(t) && t@
            == pretty_json_of(*v)),
        !(p matches ViewPart::ToolCall { output: Some(_), .. }) ==> r.tool_output == a.tool_output,
{
    match p {
        ViewPart::ToolCall { output: Some(v), .. } => {
            let printed = json_pretty(v);
            PartRendering { tool_output: printed, ..a }
        },
        _ => a,
    }
}

// ---------------------------------------------------------------------------
// Plain text
// ---------------------------------------------------------------------------

pub open spec fn is_user(m: MessageView) -> bool {
    m.role@ == "user"@
}

fn message_is_user(m: &MessageView) -> (r: bool)
    ensures
        r == is_user(*m),
{
    let user = string_of("user");
    m.role == user
}

pub open spec fn plain_speaker(m: MessageView) -> Seq<char> {
    if is_user(m) { "User"@ } else { "Assistant"@ }
}

/// `" cost: $<six places>"` when the cost is known.
pub open spec fn cost_suffix(cost: Option<UsdAmount>) -> Seq<char> {
    match cost {
        Some(c) => " cost: $"@ + c.fixed6@,
        None => Seq::empty(),
    }
}

/// `" tokens: <in>/<out>"`.
pub open spec fn tokens_suffix(input_tokens: u64, output_tokens: u64) -> Seq<char> {
    " tokens: "@ + decimal(input_tokens as nat) + "/"@ + decimal(output_tokens as nat)
}

pub open spec fn sep_if(acc: Seq<char>, sep: Seq<char>) -> Seq<char> {
    if acc.len() > 0 { sep } else { Seq::empty() }
}

/// The plain export after appending one part to `acc`.
pub open spec fn plain_part(
    acc: Seq<char>,
    m: MessageView,
    p: ViewPart,
    a: PartRendering,
    td: ToolDisplayMode,
    think: bool,
    timing: bool,
) -> Seq<char> {
    match p {
        ViewPart::Text(t) => acc + sep_if(acc, "\n\n"@) + plain_speaker(m) + ":\n"@ + t@,
        ViewPart::ToolCall { name, output, .. } => if td != ToolDisplayMode::Hidden {
            acc + sep_if(acc, "\n\n"@) + "Tool: "@ + name@ + "\n"@ + tool_text(a) + if output is Some {
                "\nTool Result:\n"@ + result_text(a)
            } else {
                Seq::empty()
            }
        } else {
            acc
        },
        ViewPart::Reasoning(t) => if think {
            acc + sep_if(acc, "\n\n"@) + "Thinking:\n"@ + t@
        } else {
            acc
        },
        ViewPart::StepFinish { cost, input_tokens, output_tokens } => if timing {
            acc + sep_if(acc, "\n"@) + "\n[Step finish]"@ + cost_suffix(cost) + tokens_suffix(
                input_tokens,
                output_tokens,
            )
        } else {
            acc
        },
    }
}

pub open spec fn plain_parts(
    acc: Seq<char>,
    m: MessageView,
    aux: Seq<PartRendering>,
    td: ToolDisplayMode,
    think: bool,
    timing: bool,
    j: int,
) -> Seq<char>
    decreases j,
{
    if j <= 0 {
        acc
    } else {
        plain_part(plain_parts(acc, m, aux, td, think, timing, j - 1), m, m.parts@[j - 1], aux[j - 1], td, think, timing)
    }
}

pub open spec fn plain_msgs(
    s: OcSessionView,
    aux: Seq<Seq<PartRendering>>,
    td: ToolDisplayMode,
    think: bool,
    timing: bool,
    k: int,
) -> Seq<char>
    decreases k,
{
    if k <= 0 {
        Seq::empty()
    } else {
        let m = s.messages@[k - 1];
        plain_parts(plain_msgs(s, aux, td, think, timing, k - 1), m, aux[k - 1], td, think, timing, m.parts@.len() as int)
    }
}

/// The plain-text export: `User:`/`Assistant:` blocks separated by blank lines.
pub open spec fn plain_doc(
    s: OcSessionView,
    aux: Seq<Seq<PartRendering>>,
    td: ToolDisplayMode,
    think: bool,
    timing: bool,
) -> Seq<char> {
    plain_msgs(s, aux, td, think, timing, s.messages@.len() as int)
}

fn push_sep(out: &mut String, sep: &str)
    ensures
        final(out)@ == old(out)@ + sep_if(old(out)@, sep@),
{
    if out.as_str().unicode_len() > 0 {
        push_str(out, sep);
    } else {
        assert(out@ =~= out@ + Seq::<char>::empty());
    }
}

fn push_cost_and_tokens(out: &mut String, cost: &Option<UsdAmount>, input_tokens: u64, output_tokens: u64)
    ensures
        final(out)@ == old(out)@ + cost_suffix(*cost) + tokens_suffix(input_tokens, output_tokens),
{
    let ghost start = out@;
    match cost {
        Some(c) => {
            push_str(out, " cost: $");
            push_str(out, c.fixed6.as_str());
        },
        None => {},
    }
    let ghost mid = out@;
    assert(mid =~= start + cost_suffix(*cost));
    push_str(out, " tokens: ");
    push_decimal(out, input_tokens);
    push_str(out, "/");
    push_decimal(out, output_tokens);
    assert(out@ =~= start + cost_suffix(*cost) + tokens_suffix(input_tokens, output_tokens));
}

fn plain_part_exec(
    out: &mut String,
    m: &MessageView,
    p: &ViewPart,
    a: &PartRendering,
    td: ToolDisplayMode,
    think: bool,
    timing: bool,
)
    ensures
        final(out)@ == plain_part(old(out)@, *m, *p, *a, td, think, timing),
{
    let ghost start = out@;
    match p {
        ViewPart::Text(t) => {
            push_sep(out, "\n\n");
            if message_is_user(m) {
                push_str(out, "User");
            } else {
                push_str(out, "Assistant");
            }
            push_str(out, ":\n");
            push_str(out, t.as_str());
        },
        ViewPart::ToolCall { name, output, .. } => {
            if td.is_visible() {
                push_sep(out, "\n\n");
                push_str(out, "Tool: ");
                push_str(out, name.as_str());
                push_str(out, "\n");
                let tt = tool_text_string(a);
                push_str(out, tt.as_str());
                let ghost mid = out@;
                if output.is_some() {
                    push_str(out, "\nTool Result:\n");
                    let rt = result_text_string(a);
                    push_str(out, rt.as_str());
                } else {
                    assert(out@ =~= mid + Seq::<char>::empty());
                }
            }
        },
        ViewPart::Reasoning(t) => {
            if think {
                push_sep(out, "\n\n");
                push_str(out, "Thinking:\n");
                push_str(out, t.as_str());
            }
        },
        ViewPart::StepFinish { cost, input_tokens, output_tokens } => {
            if timing {
                push_sep(out, "\n");
                push_str(out, "\n[Step finish]");
                push_cost_and_tokens(out, cost, *input_tokens, *output_tokens);
            }
        },
    }
    assert(out@ =~= plain_part(start, *m, *p, *a, td, think, timing));
}

/// Renders the session as plain text: `User:\n<text>` / `Assistant:\n<text>`.
pub fn render_oc_plain(
    session: &OcSessionView,
    aux: &Vec<Vec<PartRendering>>,
    tool_display: ToolDisplayMode,
    show_thinking: bool,
    show_timing: bool,
) -> (r: String)
    requires
        aux_fits(*session, aux@),
    ensures
        r@ == plain_doc(*session, aux_view(aux@), tool_display, show_thinking, show_timing),
{
    let mut out = String::new();
    let mut k: usize = 0;
    while k < session.messages.len()
        invariant
            aux_fits(*session, aux@),
            k <= session.messages@.len(),
            out@ == plain_msgs(*session, aux_view(aux@), tool_display, show_thinking, show_timing, k as int),
        decreases session.messages@.len() - k,
    {
        let m = &session.messages[k];
        let a = &aux[k];
        let ghost acc0 = out@;
        let mut j: usize = 0;
        while j < m.parts.len()
            invariant
                a@.len() == m.parts@.len(),
                j <= m.parts@.len(),
                out@ == plain_parts(acc0, *m, a@, tool_display, show_thinking, show_timing, j as int),
            decreases m.parts@.len() - j,
        {
            plain_part_exec(&mut out, m, &m.parts[j], &a[j], tool_display, show_thinking, show_timing);
            j += 1;
        }
        assert(aux_view(aux@)[k as int] == a@);
        k += 1;
    }
    out
}


// ---------------------------------------------------------------------------
// Markdown code fences
// ---------------------------------------------------------------------------

/// Length of the run of backticks that ends `s`.
pub open spec fn trailing_ticks(s: Seq<char>) -> nat
    decreases s.len(),
{
    if s.len() == 0 {
        0
    } else if s.last() == '`' {
        trailing_ticks(s.drop_last()) + 1
    } else {
        0
    }
}

/// Length of the longest run of backticks in `s`.
pub open spec fn max_run(s: Seq<char>) -> nat
    decreases s.len(),
{
    if s.len() == 0 {
        0
    } else {
        let a = max_run(s.drop_last());
        let b = trailing_ticks(s);
        if a >= b { a } else { b }
    }
}

/// The fence for `content`: one backtick more than its longest run (capped
/// at the largest `usize`), at least three.
pub open spec fn fence_len(content: Seq<char>) -> nat {
    let longer = if max_run(content) + 1 > usize::MAX { usize::MAX as nat } else { max_run(content) + 1 };
    if longer > 3 { longer } else { 3 }
}

/// `content` between two fences on lines of their own.
pub open spec fn fenced(content: Seq<char>) -> Seq<char> {
    repeat_char('`', fence_len(content)) + "\n"@ + content + "\n"@ + repeat_char('`', fence_len(content))
}

/// Wraps `content` in a markdown code fence longer than any run of backticks in it.
pub fn markdown_code_fence(content: &str) -> (r: String)
    ensures
        r@ == fenced(content@),
{
    let cs = chars_of(content);
    let mut best: usize = 0;
    let mut cur: usize = 0;
    let mut i: usize = 0;
    while i < cs.len()
        invariant
            i <= cs@.len(),
            cs@ == content@,
            cur == trailing_ticks(cs@.take(i as int)),
            best == max_run(cs@.take(i as int)),
            cur <= i,
            best <= i,
        decreases cs@.len() - i,
    {
        assert(cs@.take(i + 1).drop_last() == cs@.take(i as int));
        assert(cs@.take(i + 1).last() == cs@[i as int]);
        if cs[i] == '`' {
            cur = cur + 1;
        } else {
            cur = 0;
        }
        if cur > best {
            best = cur;
        }
        i += 1;
    }
    assert(cs@.take(cs@.len() as int) == cs@);
    let longer = best.saturating_add(1);
    let n: usize = if longer > 3 { longer } else { 3 };
    let mut r = String::new();
    push_repeat(&mut r, '`', n);
    push_str(&mut r, "\n");
    push_str(&mut r, content);
    push_str(&mut r, "\n");
    push_repeat(&mut r, '`', n);
    r
}

proof fn lemma_run_bound(s: Seq<char>, e: int, k: nat)
    requires
        0 <= e <= s.len(),
        k <= e,
        forall|x: int| e - k <= x < e ==> s[x] == '`',
    ensures
        trailing_ticks(s.take(e)) >= k,
    decreases k,
{
    if k > 0 {
        assert(s.take(e).drop_last() == s.take(e - 1));
        assert(s.take(e).last() == s[e - 1]);
        lemma_run_bound(s, e - 1, (k - 1) as nat);
    }
}

proof fn lemma_max_run_ge(s: Seq<char>, e: int)
    requires
        0 <= e <= s.len(),
    ensures
        max_run(s) >= trailing_ticks(s.take(e)),
        max_run(s) >= max_run(s.take(e)),
    decreases s.len() - e,
{
    let x = s.take(e);
    assert(x.len() == 0 ==> trailing_ticks(x) == 0);
    assert(trailing_ticks(x) <= max_run(x));
    if e < s.len() {
        lemma_max_run_ge(s, e + 1);
        assert(s.take(e + 1).drop_last() == s.take(e));
        assert(max_run(s.take(e + 1)) >= max_run(s.take(e)));
    } else {
        assert(s.take(e) == s);
    }
}

/// The fence of a fenced block never occurs inside its content, so the
/// content cannot close the block early.
pub proof fn lemma_fence_not_in_content(content: Seq<char>)
    requires
        max_run(content) < usize::MAX,
    ensures
        fence_len(content) >= 3,
        fence_len(content) > max_run(content),
        !contains_seq(content, repeat_char('`', fence_len(content))),
{
    let f = repeat_char('`', fence_len(content));
    if contains_seq(content, f) {
        let i = choose|i: int| occurs_at(content, f, i);
        let e = i + f.len();
        assert forall|x: int| e - f.len() <= x < e implies content[x] == '`' by {
            assert(content.subrange(i, e)[x - i] == f[x - i]);
        }
        lemma_run_bound(content, e, f.len());
        lemma_max_run_ge(content, e);
    }
}

// ---------------------------------------------------------------------------
// Markdown
// ---------------------------------------------------------------------------

/// Each line of `t` as a blockquote line.
pub open spec fn quoted(t: Seq<char>) -> Seq<char> {
    lines(t).map_values(|l: Seq<char>| "> "@ + l + "\n"@).flatten()
}

/// Splitting a thinking block at its newlines gives back the lines of the
/// thinking, each after `> `, and nothing after the final newline: every
/// line of the block is a blockquote line holding one line of the text, in
/// order.
pub proof fn lemma_quoted_lines(t: Seq<char>)
    ensures
        split_on(quoted(t), '\n') == lines(t).map_values(|l: Seq<char>| "> "@ + l).push(Seq::empty()),
{
    lemma_lines_free(t);
    let ls = lines(t);
    lemma_quote_rows(ls);
    assert(ls.map_values(|l: Seq<char>| "> "@ + l + "\n"@) =~= quote_rows(ls));
    assert(ls.map_values(|l: Seq<char>| "> "@ + l) =~= quote_marks(ls));
}

spec fn quote_rows(ls: Seq<Seq<char>>) -> Seq<Seq<char>> {
    ls.map_values(|l: Seq<char>| "> "@ + l + "\n"@)
}

spec fn quote_marks(ls: Seq<Seq<char>>) -> Seq<Seq<char>> {
    ls.map_values(|l: Seq<char>| "> "@ + l)
}

proof fn lemma_quote_rows(ls: Seq<Seq<char>>)
    requires
        forall|i: int, k: int| 0 <= i < ls.len() && 0 <= k < ls[i].len() ==> #[trigger] ls[i][k] != '\n',
    ensures
        split_on(quote_rows(ls).flatten(), '\n') == quote_marks(ls).push(Seq::empty()),
    decreases ls.len(),
{
    reveal_strlit("> ");
    reveal_strlit("\n");
    if ls.len() == 0 {
        assert(quote_rows(ls) =~= Seq::<Seq<char>>::empty());
        assert(quote_rows(ls).flatten() =~= Seq::<char>::empty());
        assert(quote_marks(ls).push(Seq::empty()) =~= seq![Seq::<char>::empty()]);
    } else {
        let d = ls.drop_last();
        let l = ls.last();
        assert forall|i: int, k: int| 0 <= i < d.len() && 0 <= k < d[i].len() implies #[trigger] d[i][k] != '\n' by {
            assert(d[i] == ls[i]);
        }
        lemma_quote_rows(d);
        let fd = quote_rows(d).flatten();
        let g = "> "@ + l;
        assert(quote_rows(ls) =~= quote_rows(d).push(g + "\n"@));
        quote_rows(d).lemma_flatten_push(g + "\n"@);
        assert(quote_rows(ls).flatten() =~= (fd + g).push('\n'));
        assert forall|k: int| 0 <= k < g.len() implies #[trigger] g[k] != '\n' by {
            if k >= 2 {
                assert(g[k] == l[k - 2]);
                assert(l == ls[ls.len() - 1]);
            }
        }
        lemma_split_on_push_sep(fd + g, '\n');
        lemma_split_on_append_free(fd, g, '\n');
        assert(Seq::<char>::empty() + g =~= g);
        assert(quote_marks(ls) =~= quote_marks(d).push(g));
        assert(split_on(fd, '\n').update(split_on(fd, '\n').len() - 1, split_on(fd, '\n').last() + g)
            =~= quote_marks(d).push(g));
    }
}

/// The markdown export after appending one part to `acc`.
pub open spec fn markdown_part(
    acc: Seq<char>,
    m: MessageView,
    p: ViewPart,
    a: PartRendering,
    td: ToolDisplayMode,
    think: bool,
    timing: bool,
) -> Seq<char> {
    match p {
        ViewPart::Text(t) => acc + sep_if(acc, "\n"@) + "## "@ + plain_speaker(m) + "\n\n"@ + t@ + "\n"@,
        ViewPart::ToolCall { name, output, .. } => if td != ToolDisplayMode::Hidden {
            acc + sep_if(acc, "\n"@) + "### Tool: "@ + name@ + "\n\n"@ + fenced(tool_text(a)) + "\n"@ + if output is Some {
                "\n### Tool Result\n\n"@ + fenced(result_text(a)) + "\n"@
            } else {
                Seq::empty()
            }
        } else {
            acc
        },
        ViewPart::Reasoning(t) => if think {
            acc + sep_if(acc, "\n"@) + "### Thinking\n\n"@ + quoted(t@) + "\n"@
        } else {
            acc
        },
        ViewPart::StepFinish { cost, input_tokens, output_tokens } => if timing {
            acc + sep_if(acc, "\n"@) + "**[Step finish]**"@ + cost_suffix(cost) + tokens_suffix(
                input_tokens,
                output_tokens,
            ) + "\n"@
        } else {
            acc
        },
    }
}

pub open spec fn markdown_parts(
    acc: Seq<char>,
    m: MessageView,
    aux: Seq<PartRendering>,
    td: ToolDisplayMode,
    think: bool,
    timing: bool,
    j: int,
) -> Seq<char>
    decreases j,
{
    if j <= 0 {
        acc
    } else {
        markdown_part(markdown_parts(acc, m, aux, td, think, timing, j - 1), m, m.parts@[j - 1], aux[j - 1], td, think, timing)
    }
}

pub open spec fn markdown_msgs(
    s: OcSessionView,
    aux: Seq<Seq<PartRendering>>,
    td: ToolDisplayMode,
    think: bool,
    timing: bool,
    k: int,
) -> Seq<char>
    decreases k,
{
    if k <= 0 {
        Seq::empty()
    } else {
        let m = s.messages@[k - 1];
        markdown_parts(markdown_msgs(s, aux, td, think, timing, k - 1), m, aux[k - 1], td, think, timing, m.parts@.len() as int)
    }
}

/// The markdown export: `## User` / `## Assistant` sections, tools fenced,
/// thinking as a blockquote.
pub open spec fn markdown_doc(
    s: OcSessionView,
    aux: Seq<Seq<PartRendering>>,
    td: ToolDisplayMode,
    think: bool,
    timing: bool,
) -> Seq<char> {
    markdown_msgs(s, aux, td, think, timing, s.messages@.len() as int)
}

fn push_quoted(out: &mut String, t: &str)
    ensures
        final(out)@ == old(out)@ + quoted(t@),
{
    let ls = lines_of(t);
    let ghost lv = lines(t@);
    let ghost f = |l: Seq<char>| "> "@ + l + "\n"@;
    let ghost start = out@;
    let mut i: usize = 0;
    while i < ls.len()
        invariant
            ls@.len() == lv.len(),
            lv == lines(t@),
            f == (|l: Seq<char>| "> "@ + l + "\n"@),
            forall|k: int| 0 <= k < ls@.len() ==> #[trigger] ls@[k]@ == lv[k],
            i <= ls@.len(),
            out@ == start + lv.take(i as int).map_values(f).flatten(),
        decreases ls@.len() - i,
    {
        push_str(out, "> ");
        push_str(out, ls[i].as_str());
        push_str(out, "\n");
        proof {
            assert(lv.take(i + 1).map_values(f) =~= lv.take(i as int).map_values(f).push(f(lv[i as int])));
            lv.take(i as int).map_values(f).lemma_flatten_push(f(lv[i as int]));
        }
        i += 1;
    }
    assert(lv.take(i as int) =~= lv);
}

fn markdown_part_exec(
    out: &mut String,
    m: &MessageView,
    p: &ViewPart,
    a: &PartRendering,
    td: ToolDisplayMode,
    think: bool,
    timing: bool,
)
    ensures
        final(out)@ == markdown_part(old(out)@, *m, *p, *a, td, think, timing),
{
    let ghost start = out@;
    match p {
        ViewPart::Text(t) => {
            push_sep(out, "\n");
            push_str(out, "## ");
            if message_is_user(m) {
                push_str(out, "User");
            } else {
                push_str(out, "Assistant");
            }
            push_str(out, "\n\n");
            push_str(out, t.as_str());
            push_str(out, "\n");
        },
        ViewPart::ToolCall { name, output, .. } => {
            if td.is_visible() {
                push_sep(out, "\n");
                push_str(out, "### Tool: ");
                push_str(out, name.as_str());
                push_str(out, "\n\n");
                let tt = tool_text_string(a);
                let fenced_tool = markdown_code_fence(tt.as_str());
                push_str(out, fenced_tool.as_str());
                push_str(out, "\n");
                let ghost mid = out@;
                if output.is_some() {
                    push_str(out, "\n### Tool Result\n\n");
                    let rt = result_text_string(a);
                    let fenced_result = markdown_code_fence(rt.as_str());
                    push_str(out, fenced_result.as_str());
                    push_str(out, "\n");
                } else {
                    assert(out@ =~= mid + Seq::<char>::empty());
                }
            }
        },
        ViewPart::Reasoning(t) => {
            if think {
                push_sep(out, "\n");
                push_str(out, "### Thinking\n\n");
                push_quoted(out, t.as_str());
                push_str(out, "\n");
            }
        },
        ViewPart::StepFinish { cost, input_tokens, output_tokens } => {
            if timing {
                push_sep(out, "\n");
                push_str(out, "**[Step finish]**");
                push_cost_and_tokens(out, cost, *input_tokens, *output_tokens);
                push_str(out, "\n");
            }
        },
    }
    assert(out@ =~= markdown_part(start, *m, *p, *a, td, think, timing));
}

/// Renders the session as markdown.
pub fn render_oc_markdown(
    session: &OcSessionView,
    aux: &Vec<Vec<PartRendering>>,
    tool_display: ToolDisplayMode,
    show_thinking: bool,
    show_timing: bool,
) -> (r: String)
    requires
        aux_fits(*session, aux@),
    ensures
        r@ == markdown_doc(*session, aux_view(aux@), tool_display, show_thinking, show_timing),
{
    let mut out = String::new();
    let mut k: usize = 0;
    while k < session.messages.len()
        invariant
            aux_fits(*session, aux@),
            k <= session.messages@.len(),
            out@ == markdown_msgs(*session, aux_view(aux@), tool_display, show_thinking, show_timing, k as int),
        decreases session.messages@.len() - k,
    {
        let m = &session.messages[k];
        let a = &aux[k];
        let ghost acc0 = out@;
        let mut j: usize = 0;
        while j < m.parts.len()
            invariant
                a@.len() == m.parts@.len(),
                j <= m.parts@.len(),
                out@ == markdown_parts(acc0, *m, a@, tool_display, show_thinking, show_timing, j as int),
            decreases m.parts@.len() - j,
        {
            markdown_part_exec(&mut out, m, &m.parts[j], &a[j], tool_display, show_thinking, show_timing);
            j += 1;
        }
        assert(aux_view(aux@)[k as int] == a@);
        k += 1;
    }
    out
}


// ---------------------------------------------------------------------------
// Ledger
// ---------------------------------------------------------------------------

/// `ss` joined with newlines.
pub open spec fn join_nl(ss: Seq<Seq<char>>) -> Seq<char>
    decreases ss.len(),
{
    if ss.len() == 0 {
        Seq::empty()
    } else if ss.len() == 1 {
        ss[0]
    } else {
        join_nl(ss.drop_last()) + "\n"@ + ss.last()
    }
}

/// One source line wrapped: empty lines stay empty.
pub open spec fn wrap_one(l: Seq<char>, width: nat) -> Seq<char> {
    if l.len() == 0 {
        Seq::empty()
    } else {
        join_nl(wrap_text(l, width))
    }
}

/// `text` wrapped to `width`, its line breaks kept.
pub open spec fn wrap_plain(text: Seq<char>, width: nat) -> Seq<char> {
    join_nl(lines(text).map_values(|l: Seq<char>| wrap_one(l, width)))
}

fn push_joined(out: &mut String, ss: &Vec<String>)
    ensures
        final(out)@ == old(out)@ + join_nl(ss@.map_values(|w: String| w@)),
{
    let ghost start = out@;
    let ghost sv = ss@.map_values(|w: String| w@);
    let mut j: usize = 0;
    while j < ss.len()
        invariant
            sv == ss@.map_values(|w: String| w@),
            j <= ss@.len(),
            out@ == start + join_nl(sv.take(j as int)),
        decreases ss@.len() - j,
    {
        if j > 0 {
            push_str(out, "\n");
        }
        push_str(out, ss[j].as_str());
        proof {
            assert(sv.take(j + 1).drop_last() =~= sv.take(j as int));
            assert(sv.take(j + 1).last() == ss@[j as int]@);
            if j == 0 {
                assert(sv.take(0) =~= Seq::<Seq<char>>::empty());
            }
        }
        j += 1;
    }
    assert(sv.take(j as int) =~= sv);
}

/// Wraps plain text to `max_width`, preserving existing line breaks.
pub fn wrap_plain_text(text: &str, max_width: usize) -> (r: String)
    ensures
        r@ == wrap_plain(text@, max_width as nat),
{
    let ls = lines_of(text);
    let ghost lv = lines(text@);
    let ghost f = |l: Seq<char>| wrap_one(l, max_width as nat);
    let ghost pieces = lv.map_values(f);
    let mut result = String::new();
    let mut i: usize = 0;
    while i < ls.len()
        invariant
            ls@.len() == lv.len(),
            lv == lines(text@),
            f == (|l: Seq<char>| wrap_one(l, max_width as nat)),
            pieces == lv.map_values(f),
            forall|k: int| 0 <= k < ls@.len() ==> #[trigger] ls@[k]@ == lv[k],
            i <= ls@.len(),
            result@ == join_nl(pieces.take(i as int)),
        decreases ls@.len() - i,
    {
        if i > 0 {
            push_str(&mut result, "\n");
        }
        let line = &ls[i];
        let ghost before = result@;
        if line.as_str().unicode_len() > 0 {
            let wrapped = textwrap_lines(line.as_str(), max_width);
            push_joined(&mut result, &wrapped);
        }
        proof {
            assert(pieces.take(i + 1).drop_last() =~= pieces.take(i as int));
            assert(pieces.take(i + 1).last() == f(lv[i as int]));
            if i == 0 {
                assert(pieces.take(0) =~= Seq::<Seq<char>>::empty());
            }
            if line@.len() == 0 {
                assert(result@ =~= before + f(lv[i as int]));
            }
        }
        i += 1;
    }
    assert(pieces.take(i as int) =~= pieces);
    result
}

/// A ledger block: each line of `text` after the name column (the speaker on
/// the first line, blank after) and the separator.
pub open spec fn ledger_block(speaker: Seq<char>, text: Seq<char>, width: nat) -> Seq<char> {
    Seq::new(
        lines(text).len(),
        |i: int| pad_left(if i == 0 { speaker } else { Seq::empty() }, width) + separator() + lines(text)[i] + "\n"@,
    ).flatten()
}

/// Appends a ledger-formatted block.
pub fn append_ledger_block(output: &mut String, speaker: &str, text: &str, name_width: usize)
    ensures
        final(output)@ == old(output)@ + ledger_block(speaker@, text@, name_width as nat),
{
    let ls = lines_of(text);
    let ghost lv = lines(text@);
    let ghost rows = Seq::new(
        lv.len(),
        |i: int| pad_left(if i == 0 { speaker@ } else { Seq::empty() }, name_width as nat) + separator() + lv[i] + "\n"@,
    );
    let ghost start = output@;
    proof {
        reveal_strlit("");
        assert(""@ =~= Seq::<char>::empty());
    }
    let mut i: usize = 0;
    while i < ls.len()
        invariant
            ls@.len() == lv.len(),
            lv == lines(text@),
            rows == Seq::new(
                lv.len(),
                |i: int| pad_left(if i == 0 { speaker@ } else { Seq::empty() }, name_width as nat) + separator() + lv[i] + "\n"@,
            ),
            ""@ == Seq::<char>::empty(),
            forall|k: int| 0 <= k < ls@.len() ==> #[trigger] ls@[k]@ == lv[k],
            i <= ls@.len(),
            output@ == start + rows.take(i as int).flatten(),
        decreases ls@.len() - i,
    {
        let ghost before = output@;
        if i == 0 {
            push_padded_left(output, speaker, name_width);
        } else {
            push_padded_left(output, "", name_width);
        }
        push_char(output, ' ');
        push_char(output, '\u{2502}');
        push_char(output, ' ');
        push_str(output, ls[i].as_str());
        push_str(output, "\n");
        proof {
            assert(output@ =~= before + rows[i as int]);
            assert(rows.take(i + 1) =~= rows.take(i as int).push(rows[i as int]));
            rows.take(i as int).lemma_flatten_push(rows[i as int]);
        }
        i += 1;
    }
    assert(rows.take(i as int) =~= rows);
}

pub open spec fn ledger_speaker(m: MessageView) -> Seq<char> {
    if is_user(m) { "You"@ } else { "Assistant"@ }
}

/// The ledger text of one part.
pub open spec fn ledger_piece(
    m: MessageView,
    p: ViewPart,
    a: PartRendering,
    td: ToolDisplayMode,
    think: bool,
    timing: bool,
) -> Seq<char> {
    let w = ledger_content_width();
    let nw = LEDGER_NAME_WIDTH as nat;
    match p {
        ViewPart::Text(t) => ledger_block(ledger_speaker(m), wrap_plain(t@, w), nw) + "\n"@,
        ViewPart::ToolCall { output, .. } => if td != ToolDisplayMode::Hidden {
            ledger_block("Tool"@, wrap_plain(tool_text(a), w), nw) + "\n"@ + if output is Some {
                ledger_block("Result"@, wrap_plain(result_text(a), w), nw) + "\n"@
            } else {
                Seq::empty()
            }
        } else {
            Seq::empty()
        },
        ViewPart::Reasoning(t) => if think {
            ledger_block("Thinking"@, wrap_plain(t@, w), nw) + "\n"@
        } else {
            Seq::empty()
        },
        ViewPart::StepFinish { cost, input_tokens, output_tokens } => if timing {
            ledger_block(
                "Time"@,
                "[Step finish]"@ + cost_suffix(cost) + tokens_suffix(input_tokens, output_tokens),
                nw,
            ) + "\n"@
        } else {
            Seq::empty()
        },
    }
}

pub open spec fn ledger_parts(
    m: MessageView,
    aux: Seq<PartRendering>,
    td: ToolDisplayMode,
    think: bool,
    timing: bool,
    j: int,
) -> Seq<char>
    decreases j,
{
    if j <= 0 {
        Seq::empty()
    } else {
        ledger_parts(m, aux, td, think, timing, j - 1) + ledger_piece(m, m.parts@[j - 1], aux[j - 1], td, think, timing)
    }
}

pub open spec fn ledger_msgs(
    s: OcSessionView,
    aux: Seq<Seq<PartRendering>>,
    td: ToolDisplayMode,
    think: bool,
    timing: bool,
    k: int,
) -> Seq<char>
    decreases k,
{
    if k <= 0 {
        Seq::empty()
    } else {
        let m = s.messages@[k - 1];
        ledger_msgs(s, aux, td, think, timing, k - 1) + ledger_parts(m, aux[k - 1], td, think, timing, m.parts@.len() as int)
    }
}

/// The ledger export: a 9-character speaker column and a `│` separator, text
/// wrapped to 90 characters in all.
pub open spec fn ledger_doc(
    s: OcSessionView,
    aux: Seq<Seq<PartRendering>>,
    td: ToolDisplayMode,
    think: bool,
    timing: bool,
) -> Seq<char> {
    ledger_msgs(s, aux, td, think, timing, s.messages@.len() as int)
}

fn ledger_piece_exec(
    out: &mut String,
    m: &MessageView,
    p: &ViewPart,
    a: &PartRendering,
    td: ToolDisplayMode,
    think: bool,
    timing: bool,
)
    ensures
        final(out)@ == old(out)@ + ledger_piece(*m, *p, *a, td, think, timing),
{
    let ghost start = out@;
    let w = LEDGER_WIDTH - LEDGER_NAME_WIDTH - 3;
    match p {
        ViewPart::Text(t) => {
            let wrapped = wrap_plain_text(t.as_str(), w);
            if message_is_user(m) {
                append_ledger_block(out, "You", wrapped.as_str(), LEDGER_NAME_WIDTH);
            } else {
                append_ledger_block(out, "Assistant", wrapped.as_str(), LEDGER_NAME_WIDTH);
            }
            push_str(out, "\n");
        },
        ViewPart::ToolCall { output, .. } => {
            if td.is_visible() {
                let tt = tool_text_string(a);
                let wrapped = wrap_plain_text(tt.as_str(), w);
                append_ledger_block(out, "Tool", wrapped.as_str(), LEDGER_NAME_WIDTH);
                push_str(out, "\n");
                let ghost mid = out@;
                if output.is_some() {
                    let rt = result_text_string(a);
                    let wrapped_result = wrap_plain_text(rt.as_str(), w);
                    append_ledger_block(out, "Result", wrapped_result.as_str(), LEDGER_NAME_WIDTH);
                    push_str(out, "\n");
                } else {
                    assert(out@ =~= mid + Seq::<char>::empty());
                }
            } else {
                assert(out@ =~= start + Seq::<char>::empty());
            }
        },
        ViewPart::Reasoning(t) => {
            if think {
                let wrapped = wrap_plain_text(t.as_str(), w);
                append_ledger_block(out, "Thinking", wrapped.as_str(), LEDGER_NAME_WIDTH);
                push_str(out, "\n");
            } else {
                assert(out@ =~= start + Seq::<char>::empty());
            }
        },
        ViewPart::StepFinish { cost, input_tokens, output_tokens } => {
            if timing {
                let mut timing_str = string_of("[Step finish]");
                push_cost_and_tokens(&mut timing_str, cost, *input_tokens, *output_tokens);
                append_ledger_block(out, "Time", timing_str.as_str(), LEDGER_NAME_WIDTH);
                push_str(out, "\n");
            } else {
                assert(out@ =~= start + Seq::<char>::empty());
            }
        },
    }
    assert(out@ =~= start + ledger_piece(*m, *p, *a, td, think, timing));
}

/// Renders the session in ledger format.
pub fn render_oc_ledger(
    session: &OcSessionView,
    aux: &Vec<Vec<PartRendering>>,
    tool_display: ToolDisplayMode,
    show_thinking: bool,
    show_timing: bool,
) -> (r: String)
    requires
        aux_fits(*session, aux@),
    ensures
        r@ == ledger_doc(*session, aux_view(aux@), tool_display, show_thinking, show_timing),
{
    let mut out = String::new();
    let mut k: usize = 0;
    while k < session.messages.len()
        invariant
            aux_fits(*session, aux@),
            k <= session.messages@.len(),
            out@ == ledger_msgs(*session, aux_view(aux@), tool_display, show_thinking, show_timing, k as int),
        decreases session.messages@.len() - k,
    {
        let m = &session.messages[k];
        let a = &aux[k];
        let ghost acc0 = out@;
        let mut j: usize = 0;
        while j < m.parts.len()
            invariant
                a@.len() == m.parts@.len(),
                j <= m.parts@.len(),
                out@ == acc0 + ledger_parts(*m, a@, tool_display, show_thinking, show_timing, j as int),
            decreases m.parts@.len() - j,
        {
            ledger_piece_exec(&mut out, m, &m.parts[j], &a[j], tool_display, show_thinking, show_timing);
            j += 1;
        }
        assert(aux_view(aux@)[k as int] == a@);
        k += 1;
    }
    out
}

/// The export of a session in `format`.
pub open spec fn export_doc(
    s: OcSessionView,
    format: ExportFormat,
    aux: Seq<Seq<PartRendering>>,
    td: ToolDisplayMode,
    think: bool,
    timing: bool,
) -> Seq<char> {
    match format {
        ExportFormat::Plain => plain_doc(s, aux, td, think, timing),
        ExportFormat::Markdown => markdown_doc(s, aux, td, think, timing),
        ExportFormat::Ledger => ledger_doc(s, aux, td, think, timing),
    }
}

/// Renders the session in `format`; `aux` holds, for each tool call, the tool
/// formatter's output at `export_tool_width(format)` and the printed result.
pub fn render_oc_export(
    session: &OcSessionView,
    format: ExportFormat,
    aux: &Vec<Vec<PartRendering>>,
    tool_display: ToolDisplayMode,
    show_thinking: bool,
    show_timing: bool,
) -> (r: String)
    requires
        aux_fits(*session, aux@),
    ensures
        r@ == export_doc(*session, format, aux_view(aux@), tool_display, show_thinking, show_timing),
{
    match format {
        ExportFormat::Plain => render_oc_plain(session, aux, tool_display, show_thinking, show_timing),
        ExportFormat::Markdown => render_oc_markdown(session, aux, tool_display, show_thinking, show_timing),
        ExportFormat::Ledger => render_oc_ledger(session, aux, tool_display, show_thinking, show_timing),
    }
}


// ---------------------------------------------------------------------------
// File names
// ---------------------------------------------------------------------------

/// Characters kept in file names: alphanumerics and `-`, `_`, `.`; any other
/// character becomes `-`.
pub open spec fn filename_char(c: char) -> char {
    if unicode_alphanumeric(c) || c == '-' || c == '_' || c == '.' { c } else { '-' }
}

pub open spec fn map_filename_chars(s: Seq<char>) -> Seq<char> {
    s.map_values(|c: char| filename_char(c))
}

/// The non-empty pieces of `ps`, in order.
pub open spec fn nonempty_pieces(ps: Seq<Seq<char>>) -> Seq<Seq<char>>
    decreases ps.len(),
{
    if ps.len() == 0 {
        ps
    } else {
        let sub = nonempty_pieces(ps.drop_last());
        if ps.last().len() > 0 { sub.push(ps.last()) } else { sub }
    }
}

/// `ss` joined with `sep`.
pub open spec fn join_sep(ss: Seq<Seq<char>>, sep: char) -> Seq<char>
    decreases ss.len(),
{
    if ss.len() == 0 {
        Seq::empty()
    } else if ss.len() == 1 {
        ss[0]
    } else {
        join_sep(ss.drop_last(), sep).push(sep) + ss.last()
    }
}

/// The name with every run of dashes collapsed to one and the dashes at
/// either end removed (split at `-`, drop empty pieces, join with `-`).
pub open spec fn cleaned_name(s: Seq<char>) -> Seq<char> {
    join_sep(nonempty_pieces(split_on(map_filename_chars(s), '-')), '-')
}

/// Bytes of `c` in UTF-8 (`char::len_utf8`).
pub open spec fn utf8_len(c: char) -> nat {
    if (c as u32) < 0x80 {
        1
    } else if (c as u32) < 0x800 {
        2
    } else if (c as u32) < 0x10000 {
        3
    } else {
        4
    }
}

/// Bytes of `s` in UTF-8.
pub open spec fn byte_len(s: Seq<char>) -> nat
    decreases s.len(),
{
    if s.len() == 0 {
        0
    } else {
        byte_len(s.drop_last()) + utf8_len(s.last())
    }
}

/// Longest file-name length, in bytes.
pub const FILENAME_MAX_BYTES: usize = 60;

/// `t.take(k)` is the longest prefix of `t` that takes at most 60 bytes: the
/// cut falls on the last character boundary at or below 60 bytes.
pub open spec fn cut_point(t: Seq<char>, k: int) -> bool {
    &&& 0 <= k <= t.len()
    &&& byte_len(t.take(k)) <= 60
    &&& (k == t.len() || byte_len(t.take(k + 1)) > 60)
}

/// The cleaned name cut to at most 60 bytes, on a character boundary.
pub open spec fn truncated_name(s: Seq<char>) -> Seq<char> {
    let t = cleaned_name(s);
    t.take(choose|k: int| cut_point(t, k))
}

/// The file name made from a title: cleaned, cut to at most 60 bytes on a
/// character boundary, and `session` when nothing is left.
pub open spec fn sanitized_name(s: Seq<char>) -> Seq<char> {
    if truncated_name(s).len() == 0 { "session"@ } else { truncated_name(s) }
}

proof fn lemma_nonempty_pieces_nonempty(ps: Seq<Seq<char>>)
    ensures
        forall|i: int| 0 <= i < nonempty_pieces(ps).len() ==> (#[trigger] nonempty_pieces(ps)[i]).len() > 0,
        forall|i: int| 0 <= i < nonempty_pieces(ps).len() ==> ps.contains(#[trigger] nonempty_pieces(ps)[i]),
    decreases ps.len(),
{
    if ps.len() > 0 {
        lemma_nonempty_pieces_nonempty(ps.drop_last());
        let sub = nonempty_pieces(ps.drop_last());
        assert forall|i: int| 0 <= i < nonempty_pieces(ps).len() implies ps.contains(#[trigger] nonempty_pieces(ps)[i]) by {
            if i < sub.len() {
                let j = choose|j: int| 0 <= j < ps.drop_last().len() && ps.drop_last()[j] == sub[i];
                assert(ps[j] == sub[i]);
            } else {
                assert(ps[ps.len() - 1] == ps.last());
            }
        }
    }
}

proof fn lemma_join_empty(ss: Seq<Seq<char>>, sep: char)
    requires
        forall|i: int| 0 <= i < ss.len() ==> (#[trigger] ss[i]).len() > 0,
    ensures
        (join_sep(ss, sep).len() == 0) == (ss.len() == 0),
    decreases ss.len(),
{
    if ss.len() > 1 {
        assert(ss.last() == ss[ss.len() - 1]);
    }
}

proof fn lemma_byte_len_prefix(t: Seq<char>, j: int, k: int)
    requires
        0 <= j < k <= t.len(),
    ensures
        byte_len(t.take(j)) < byte_len(t.take(k)),
    decreases k - j,
{
    assert(t.take(k).drop_last() == t.take(k - 1));
    if j < k - 1 {
        lemma_byte_len_prefix(t, j, k - 1);
    }
}

fn char_utf8_len(c: char) -> (r: usize)
    ensures
        r == utf8_len(c),
{
    let u = c as u32;
    if u < 0x80 { 1 } else if u < 0x800 { 2 } else if u < 0x10000 { 3 } else { 4 }
}

fn cleaned_name_chars(s: &str) -> (t: Vec<char>)
    ensures
        t@ == cleaned_name(s@),
{
    let cs = chars_of(s);
    let ghost mapped = map_filename_chars(s@);
    let mut t: Vec<char> = Vec::new();
    let mut last_empty = true;
    let mut i: usize = 0;
    assert(mapped.take(0) =~= Seq::<char>::empty());
    assert(split_on(Seq::<char>::empty(), '-') == seq![Seq::<char>::empty()]);
    assert(seq![Seq::<char>::empty()].drop_last() =~= Seq::<Seq<char>>::empty());
    assert(nonempty_pieces(Seq::<Seq<char>>::empty()) =~= Seq::<Seq<char>>::empty());
    assert(seq![Seq::<char>::empty()].last().len() == 0);
    assert(nonempty_pieces(seq![Seq::<char>::empty()]) =~= Seq::<Seq<char>>::empty());
    assert(t@ =~= join_sep(Seq::<Seq<char>>::empty(), '-'));
    while i < cs.len()
        invariant
            cs@ == s@,
            mapped == map_filename_chars(s@),
            i <= cs@.len(),
            t@ == join_sep(nonempty_pieces(split_on(mapped.take(i as int), '-')), '-'),
            last_empty == (split_on(mapped.take(i as int), '-').last().len() == 0),
        decreases cs@.len() - i,
    {
        let c = cs[i];
        let keep = is_alphanumeric(c) || c == '-' || c == '_' || c == '.';
        let m = if keep { c } else { '-' };
        let ghost pre = mapped.take(i as int);
        let ghost x = split_on(pre, '-');
        proof {
            assert(m == filename_char(c));
            assert(mapped.take(i + 1) =~= pre.push(m));
            assert(pre.push(m).drop_last() =~= pre);
            lemma_split_on_nonempty(pre, '-');
            lemma_nonempty_pieces_nonempty(x);
            lemma_nonempty_pieces_nonempty(x.drop_last());
        }
        if m == '-' {
            last_empty = true;
            proof {
                let x2 = split_on(pre.push(m), '-');
                assert(x2 == x.push(Seq::<char>::empty()));
                assert(x2.drop_last() =~= x);
                assert(nonempty_pieces(x2) == nonempty_pieces(x));
            }
        } else {
            let ghost p = nonempty_pieces(x.drop_last());
            proof {
                let x2 = split_on(pre.push(m), '-');
                assert(x2 == x.update(x.len() - 1, x.last().push(m)));
                assert(x2.drop_last() =~= x.drop_last());
                assert(x2.last() == x.last().push(m));
                assert(nonempty_pieces(x2) == p.push(x.last().push(m)));
                if x.last().len() > 0 {
                    assert(nonempty_pieces(x) == p.push(x.last()));
                } else {
                    assert(nonempty_pieces(x) == p);
                }
                lemma_join_empty(p, '-');
            }
            if last_empty {
                if t.len() > 0 {
                    t.push('-');
                }
                t.push(m);
                proof {
                    let np = p.push(seq![m]);
                    assert(x.last().push(m) =~= seq![m]);
                    if p.len() == 0 {
                        assert(np.len() == 1);
                        assert(t@ =~= join_sep(np, '-'));
                    } else {
                        assert(np.drop_last() =~= p);
                        assert(t@ =~= join_sep(np, '-'));
                    }
                }
            } else {
                t.push(m);
                proof {
                    let l = x.last();
                    let np = p.push(l.push(m));
                    let op = p.push(l);
                    assert(np.drop_last() =~= p);
                    assert(op.drop_last() =~= p);
                    if p.len() == 0 {
                        assert(t@ =~= join_sep(np, '-'));
                    } else {
                        assert(t@ =~= join_sep(np, '-'));
                    }
                }
            }
            last_empty = false;
        }
        i += 1;
    }
    assert(mapped.take(cs@.len() as int) =~= mapped);
    t
}

/// There is one cut point: prefixes grow strictly in bytes.
proof fn lemma_cut_point_unique(t: Seq<char>, j: int, k: int)
    requires
        cut_point(t, j),
        cut_point(t, k),
    ensures
        j == k,
{
    if j < k {
        if j + 1 < k {
            lemma_byte_len_prefix(t, j + 1, k);
        }
    } else if k < j {
        if k + 1 < j {
            lemma_byte_len_prefix(t, k + 1, j);
        }
    }
}

/// The number of characters of `t` that fit in 60 bytes.
fn cut_len(t: &Vec<char>) -> (k: usize)
    ensures
        cut_point(t@, k as int),
{
    let mut sum: usize = 0;
    let mut k: usize = 0;
    while k < t.len() && sum + char_utf8_len(t[k]) <= 60
        invariant
            k <= t@.len(),
            sum == byte_len(t@.take(k as int)),
            sum <= 60,
        decreases t@.len() - k,
    {
        assert(t@.take(k + 1).drop_last() =~= t@.take(k as int));
        sum = sum + char_utf8_len(t[k]);
        k += 1;
    }
    if k < t.len() {
        assert(t@.take(k + 1).drop_last() =~= t@.take(k as int));
    }
    k
}

/// Sanitizes a string for use as a file name.
pub fn sanitize_filename(s: &str) -> (r: String)
    ensures
        r@ == sanitized_name(s@),
{
    let t = cleaned_name_chars(s);
    let k = cut_len(&t);
    proof {
        let k0 = choose|j: int| cut_point(t@, j);
        lemma_cut_point_unique(t@, k0, k as int);
    }
    let mut u: Vec<char> = Vec::new();
    let mut i: usize = 0;
    while i < k
        invariant
            k <= t@.len(),
            i <= k,
            u@ == t@.take(i as int),
        decreases k - i,
    {
        u.push(t[i]);
        assert(t@.take(i + 1) =~= t@.take(i as int).push(t@[i as int]));
        i += 1;
    }
    assert(u@ == truncated_name(s@));
    if u.len() == 0 {
        string_of("session")
    } else {
        crate::text::string_from_chars(u.as_slice())
    }
}


// ---------------------------------------------------------------------------
// What file names are made of
// ---------------------------------------------------------------------------

/// Characters kept in file names: letters, digits, `-`, `_` and `.`.
pub open spec fn file_name_char(c: char) -> bool {
    unicode_alphanumeric(c) || c == '-' || c == '_' || c == '.'
}

pub open spec fn all_file_name_chars(t: Seq<char>) -> bool {
    forall|i: int| 0 <= i < t.len() ==> file_name_char(#[trigger] t[i])
}

proof fn lemma_split_pieces_allowed(m: Seq<char>)
    requires
        all_file_name_chars(m),
    ensures
        forall|i: int| 0 <= i < split_on(m, '-').len() ==> all_file_name_chars(#[trigger] split_on(m, '-')[i]),
    decreases m.len(),
{
    if m.len() > 0 {
        let d = m.drop_last();
        assert(all_file_name_chars(d)) by {
            assert forall|i: int| 0 <= i < d.len() implies file_name_char(#[trigger] d[i]) by {
                assert(d[i] == m[i]);
            }
        }
        lemma_split_pieces_allowed(d);
        lemma_split_on_nonempty(d, '-');
        let pieces = split_on(d, '-');
        if m.last() != '-' {
            let p = pieces.last().push(m.last());
            assert(file_name_char(m[m.len() - 1]));
            assert(all_file_name_chars(pieces[pieces.len() - 1]));
            assert(all_file_name_chars(p)) by {
                assert forall|i: int| 0 <= i < p.len() implies file_name_char(#[trigger] p[i]) by {
                    if i < p.len() - 1 {
                        assert(p[i] == pieces.last()[i]);
                    }
                }
            }
            assert forall|i: int| 0 <= i < split_on(m, '-').len() implies all_file_name_chars(
                #[trigger] split_on(m, '-')[i],
            ) by {
                if i < pieces.len() - 1 {
                    assert(split_on(m, '-')[i] == pieces[i]);
                }
            }
        } else {
            assert forall|i: int| 0 <= i < split_on(m, '-').len() implies all_file_name_chars(
                #[trigger] split_on(m, '-')[i],
            ) by {
                if i < pieces.len() {
                    assert(split_on(m, '-')[i] == pieces[i]);
                }
            }
        }
    }
}

proof fn lemma_join_allowed(ss: Seq<Seq<char>>)
    requires
        forall|i: int| 0 <= i < ss.len() ==> all_file_name_chars(#[trigger] ss[i]),
    ensures
        all_file_name_chars(join_sep(ss, '-')),
    decreases ss.len(),
{
    if ss.len() == 1 {
        assert(all_file_name_chars(ss[0]));
    } else if ss.len() > 1 {
        lemma_join_allowed(ss.drop_last());
        let a = join_sep(ss.drop_last(), '-').push('-');
        let b = ss.last();
        assert(all_file_name_chars(ss[ss.len() - 1]));
        let j = a + b;
        assert forall|i: int| 0 <= i < j.len() implies file_name_char(#[trigger] j[i]) by {
            if i < a.len() - 1 {
                assert(j[i] == join_sep(ss.drop_last(), '-')[i]);
            } else if i >= a.len() {
                assert(j[i] == b[i - a.len()]);
            }
        }
    }
}

/// A file name made from any title is not empty,
/// takes at most 60 bytes, and is `session` or made of letters, digits, `-`,
/// `_` and `.` only.
pub proof fn lemma_sanitized_name_safe(s: Seq<char>)
    ensures
        sanitized_name(s).len() > 0,
        byte_len(sanitized_name(s)) <= FILENAME_MAX_BYTES,
        sanitized_name(s) == "session"@ || all_file_name_chars(sanitized_name(s)),
{
    let m = map_filename_chars(s);
    assert(all_file_name_chars(m)) by {
        assert forall|i: int| 0 <= i < m.len() implies file_name_char(#[trigger] m[i]) by {
            assert(m[i] == filename_char(s[i]));
        }
    }
    lemma_split_pieces_allowed(m);
    let ps = split_on(m, '-');
    lemma_nonempty_pieces_nonempty(ps);
    let ne = nonempty_pieces(ps);
    assert forall|i: int| 0 <= i < ne.len() implies all_file_name_chars(#[trigger] ne[i]) by {
        let j = choose|j: int| 0 <= j < ps.len() && ps[j] == ne[i];
        assert(all_file_name_chars(ps[j]));
    }
    lemma_join_allowed(ne);
    let t = cleaned_name(s);
    assert(t == join_sep(ne, '-'));
    reveal_strlit("session");
    reveal_with_fuel(byte_len, 8);
    assert(byte_len("session"@) == 7);
    lemma_cut_point_exists(t);
    let k = choose|k: int| cut_point(t, k);
    let u = t.take(k);
    assert(all_file_name_chars(u)) by {
        assert forall|i: int| 0 <= i < u.len() implies file_name_char(#[trigger] u[i]) by {
            assert(u[i] == t[i]);
        }
    }
}

/// Every text has a cut point.
proof fn lemma_cut_point_exists(t: Seq<char>)
    ensures
        exists|k: int| cut_point(t, k),
    decreases t.len(),
{
    if t.len() == 0 {
        assert(t.take(0) =~= t);
        assert(cut_point(t, 0));
    } else {
        let d = t.drop_last();
        lemma_cut_point_exists(d);
        let k = choose|k: int| cut_point(d, k);
        assert(d.take(k) =~= t.take(k));
        if k < d.len() {
            assert(d.take(k + 1) =~= t.take(k + 1));
            assert(cut_point(t, k));
        } else {
            assert(t.take(k + 1) =~= t);
            if byte_len(t) <= 60 {
                assert(t.take(t.len() as int) =~= t);
                assert(cut_point(t, t.len() as int));
            } else {
                assert(cut_point(t, k));
            }
        }
    }
}

} // verus!
