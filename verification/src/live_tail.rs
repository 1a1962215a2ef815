//! The live tail of a conversation: prompts, replies, tool calls, and what
//! each turn cost.

use crate::geometry::{centered_rect, inner_of, inside, middle, scaled, share_85, Rect};
use crate::metrics::position_text;
use crate::parts::{
    find_char, find_text, holds, index_of, is_plain_line, lemma_find_char, lemma_find_text, lines, lines_of,
    plain_line_is_itself, position_of, push_text, stands_at, texts,
    trim, trim_end, trimmed, trimmed_end,
};
use crate::rounding::{format_tokens, tokens};
use crate::style::{blank, fg, line_text, ln, no_lines, plain, sp, Color, Line, Lines, SpanView, Style};
use crate::text::{at_least, at_most, cat5, chars_of, minus, same, slice_of, text_dec};
use crate::wrap::{can_wrap, screen_rows, wrapped_total_rows, wraps};
use vstd::prelude::*;

verus! {

broadcast use vstd::string::group_string_axioms;

// ---------------------------------------------------------------------------
// Previews
// ---------------------------------------------------------------------------

/// The texts by which a preview marks what it is made of.
#[derive(Debug)]
pub struct Markers {
    /// Stands for a thought.
    pub thinking: String,
    /// Stands before the name of a tool, which a closing bracket ends.
    pub tool_prefix: String,
    /// Stands for a message without content.
    pub no_content: String,
    /// Stands for a message without text.
    pub no_text_content: String,
}

impl Markers {
    /// The two markers are not empty.
    pub open spec fn ok(self) -> bool {
        self.thinking@.len() > 0 && self.tool_prefix@.len() > 0
    }
}

/// A preview that says nothing.
pub open spec fn is_placeholder(m: Markers, s: Seq<char>) -> bool {
    s.len() == 0 || s == m.no_content@ || s == m.no_text_content@
}

pub fn is_placeholder_preview(m: &Markers, s: &str) -> (r: bool)
    ensures
        r == is_placeholder(*m, s@),
{
    s.is_empty() || same(s, &m.no_content) || same(s, &m.no_text_content)
}

#[derive(Debug)]
pub enum PreviewPart {
    Thinking,
    Tool(String),
    Text(String),
}

pub enum PartView {
    Thinking,
    Tool(Seq<char>),
    Text(Seq<char>),
}

impl View for PreviewPart {
    type V = PartView;

    open spec fn view(&self) -> PartView {
        match *self {
            PreviewPart::Thinking => PartView::Thinking,
            PreviewPart::Tool(s) => PartView::Tool(s@),
            PreviewPart::Text(s) => PartView::Text(s@),
        }
    }
}

pub open spec fn part_views(v: Seq<PreviewPart>) -> Seq<PartView> {
    v.map_values(|p: PreviewPart| p@)
}

/// Where the next marker stands in `rest`, and whether it is a thought's.
pub open spec fn next_marker(m: Markers, rest: Seq<char>) -> Option<(int, bool)> {
    let t = find_text(rest, m.thinking@, 0);
    let u = find_text(rest, m.tool_prefix@, 0);
    if t < 0 && u < 0 {
        None
    } else if t >= 0 && (u < 0 || t < u) {
        Some((t, true))
    } else {
        Some((u, false))
    }
}

/// A piece of text between markers, unless it says nothing.
pub open spec fn text_part(m: Markers, s: Seq<char>) -> Seq<PartView> {
    if is_placeholder(m, trimmed(s)) {
        Seq::empty()
    } else {
        seq![PartView::Text(trimmed(s))]
    }
}

/// The parts of what is left of a preview.
pub open spec fn parts_of(m: Markers, rest: Seq<char>) -> Seq<PartView>
    decreases rest.len(),
    when m.ok()
    via parts_of_decreases
{
    match next_marker(m, rest) {
        None => if trimmed(rest).len() > 0 {
            seq![PartView::Text(trimmed(rest))]
        } else {
            Seq::empty()
        },
        Some((i, true)) => text_part(m, rest.take(i)) + seq![PartView::Thinking] + parts_of(
            m,
            rest.skip(i + m.thinking@.len()),
        ),
        Some((i, false)) => {
            let after = rest.skip(i + m.tool_prefix@.len());
            let e = find_char(after, ']', 0);
            if e >= after.len() {
                text_part(m, rest.take(i))
            } else {
                let name = trimmed(after.take(e));
                text_part(m, rest.take(i)) + (if name.len() > 0 {
                    seq![PartView::Tool(name)]
                } else {
                    Seq::empty()
                }) + parts_of(m, after.skip(e + 1))
            }
        },
    }
}

#[via_fn]
proof fn parts_of_decreases(m: Markers, rest: Seq<char>) {
    lemma_find_text(rest, m.thinking@, 0);
    lemma_find_text(rest, m.tool_prefix@, 0);
    match next_marker(m, rest) {
        None => {},
        Some((i, true)) => {},
        Some((i, false)) => {
            lemma_find_char(rest.skip(i + m.tool_prefix@.len()), ']', 0);
        },
    }
}

/// The parts that a preview is made of.
pub open spec fn preview_parts(m: Markers, preview: Seq<char>) -> Seq<PartView> {
    if is_placeholder(m, preview) {
        Seq::empty()
    } else {
        parts_of(m, preview)
    }
}

fn push_part(v: &mut Vec<PreviewPart>, p: PreviewPart)
    ensures
        part_views(final(v)@) == part_views(old(v)@).push(p@),
{
    let ghost before = part_views(v@);
    let ghost added = p@;
    v.push(p);
    assert(part_views(v@) =~= before.push(added));
}

fn find_next(m: &Markers, v: &Vec<char>) -> (r: Option<(usize, bool)>)
    requires
        m.ok(),
    ensures
        match r {
            None => next_marker(*m, v@) is None,
            Some((i, b)) => next_marker(*m, v@) == Some((i as int, b)) && i + (if b {
                m.thinking@.len()
            } else {
                m.tool_prefix@.len()
            }) <= v@.len(),
        },
{
    let thinking = chars_of(&m.thinking);
    let tool = chars_of(&m.tool_prefix);
    let t = position_of(v, &thinking, 0);
    let u = position_of(v, &tool, 0);
    match (t, u) {
        (None, None) => None,
        (Some(a), None) => Some((a, true)),
        (None, Some(b)) => Some((b, false)),
        (Some(a), Some(b)) => if a < b {
            Some((a, true))
        } else {
            Some((b, false))
        },
    }
}

/// Splits a preview into what it is made of: thoughts, tool calls and text.
pub fn parse_preview(m: &Markers, preview: &str) -> (r: Vec<PreviewPart>)
    requires
        m.ok(),
    ensures
        part_views(r@) == preview_parts(*m, preview@),
{
    let mut out: Vec<PreviewPart> = Vec::new();
    assert(part_views(out@) =~= Seq::empty());
    if is_placeholder_preview(m, preview) {
        return out;
    }
    let thinking_len: usize = m.thinking.as_str().unicode_len();
    let tool_len: usize = m.tool_prefix.as_str().unicode_len();
    let mut rest = preview.to_owned();
    assert(part_views(out@) + parts_of(*m, rest@) =~= parts_of(*m, preview@));
    loop
        invariant_except_break
            m.ok(),
            thinking_len == m.thinking@.len(),
            tool_len == m.tool_prefix@.len(),
            part_views(out@) + parts_of(*m, rest@) == parts_of(*m, preview@),
        ensures
            part_views(out@) == parts_of(*m, preview@),
        decreases rest@.len(),
    {
        let v = chars_of(&rest);
        let n: usize = v.len();
        let ghost before = part_views(out@);
        match find_next(m, &v) {
            None => {
                let t = trim(&rest);
                if !t.as_str().is_empty() {
                    push_part(&mut out, PreviewPart::Text(t));
                }
                assert(part_views(out@) =~= before + parts_of(*m, rest@));
                break;
            },
            Some((i, is_thinking)) => {
                let front = slice_of(&v, 0, i);
                assert(front@ =~= rest@.take(i as int));
                let said = trim(&front);
                if !is_placeholder_preview(m, &said) {
                    push_part(&mut out, PreviewPart::Text(said));
                }
                assert(part_views(out@) =~= before + text_part(*m, rest@.take(i as int)));
                let ghost middle = part_views(out@);
                if is_thinking {
                    push_part(&mut out, PreviewPart::Thinking);
                    let next = slice_of(&v, i + thinking_len, n);
                    assert(next@ =~= rest@.skip(i + m.thinking@.len()));
                    assert(before + (text_part(*m, rest@.take(i as int)) + seq![PartView::Thinking]
                        + parts_of(*m, next@)) =~= part_views(out@) + parts_of(*m, next@));
                    rest = next;
                } else {
                    let from: usize = i + tool_len;
                    let tail = slice_of(&v, from, n);
                    assert(tail@ =~= rest@.skip(i + m.tool_prefix@.len()));
                    let w = chars_of(&tail);
                    let e: usize = index_of(&w, ']', 0);
                    if e >= w.len() {
                        break;
                    }
                    let inside_brackets = slice_of(&w, 0, e);
                    assert(inside_brackets@ =~= tail@.take(e as int));
                    let name = trim(&inside_brackets);
                    let ghost tool = if name@.len() > 0 {
                        seq![PartView::Tool(name@)]
                    } else {
                        Seq::empty()
                    };
                    if !name.as_str().is_empty() {
                        push_part(&mut out, PreviewPart::Tool(name));
                    }
                    assert(part_views(out@) =~= middle + tool);
                    let next = slice_of(&w, e + 1, w.len());
                    assert(next@ =~= tail@.skip(e + 1));
                    assert(before + (text_part(*m, rest@.take(i as int)) + tool + parts_of(*m, next@))
                        =~= part_views(out@) + parts_of(*m, next@));
                    rest = next;
                }
            },
        }
    }
    out
}

// ---------------------------------------------------------------------------
// Blocks
// ---------------------------------------------------------------------------

/// The lines that say anything, without white space at their ends.
pub open spec fn said_lines(ls: Seq<Seq<char>>) -> Seq<Seq<char>>
    decreases ls.len(),
{
    if ls.len() == 0 {
        Seq::empty()
    } else {
        let before = said_lines(ls.drop_last());
        if trimmed_end(ls.last()).len() > 0 {
            before.push(trimmed_end(ls.last()))
        } else {
            before
        }
    }
}

/// A line of a block: behind the prefix where it is the first, else behind
/// two blanks.
pub open spec fn bullet_line(prefix: SpanView, color: Color, said: Seq<Seq<char>>, i: int) -> Seq<SpanView> {
    (if i == 0 {
        seq![prefix]
    } else {
        ln("  "@, plain())
    }) + ln(said[i], fg(color))
}

/// A block of text behind a prefix, which stands alone where there is no
/// text.
pub open spec fn bullet(prefix: SpanView, color: Color, body: Seq<char>) -> Seq<Seq<SpanView>> {
    let said = said_lines(lines(body));
    if said.len() == 0 {
        seq![seq![prefix]]
    } else {
        Seq::new(said.len(), |i: int| bullet_line(prefix, color, said, i))
    }
}

fn trimmed_lines(body: &str) -> (r: Vec<String>)
    ensures
        texts(r@) == said_lines(lines(body@)),
{
    let all = lines_of(body);
    let mut out: Vec<String> = Vec::new();
    let mut i: usize = 0;
    assert(texts(out@) =~= Seq::empty());
    assert(texts(all@).take(0) =~= Seq::empty());
    while i < all.len()
        invariant
            i <= all@.len(),
            texts(out@) == said_lines(texts(all@).take(i as int)),
        decreases all@.len() - i,
    {
        let t = trim_end(&all[i]);
        assert(texts(all@).take(i + 1).drop_last() =~= texts(all@).take(i as int));
        assert(texts(all@).take(i + 1).last() == all@[i as int]@);
        if !t.as_str().is_empty() {
            push_text(&mut out, t);
        }
        i += 1;
    }
    assert(texts(all@).take(i as int) =~= texts(all@));
    out
}

/// A block of text behind a prefix.
pub fn push_bullet_block(prefix: &str, style: Style, color: Color, body: &str) -> (r: Lines)
    ensures
        r@ == bullet(sp(prefix@, style), color, body@),
{
    let said = trimmed_lines(body);
    let ghost p = sp(prefix@, style);
    assert(texts(said@).len() == said@.len());
    if said.len() == 0 {
        return Lines::of(Line::of(prefix, style));
    }
    let mut out = Lines::none();
    let ghost f = |i: int| bullet_line(p, color, texts(said@), i);
    let mut i: usize = 0;
    assert(out@ =~= Seq::new(0, f));
    while i < said.len()
        invariant
            i <= said@.len(),
            p == sp(prefix@, style),
            f == (|i: int| bullet_line(p, color, texts(said@), i)),
            out@ == Seq::new(i as nat, f),
        decreases said@.len() - i,
    {
        let mut l = if i == 0 {
            Line::of(prefix, style)
        } else {
            Line::of("  ", plain())
        };
        l.put(&said[i], fg(color));
        assert(texts(said@)[i as int] == said@[i as int]@);
        out.put(l);
        i += 1;
        assert(out@ =~= Seq::new(i as nat, f));
    }
    out
}

pub open spec fn prompt_block(body: Seq<char>) -> Seq<Seq<SpanView>> {
    bullet(
        sp("> "@, fg(Color::Rgb(230, 230, 240)).bold()),
        Color::Rgb(230, 230, 240),
        body,
    )
}

pub open spec fn reply_block(body: Seq<char>) -> Seq<Seq<SpanView>> {
    bullet(sp("● "@, fg(Color::Green)), Color::Rgb(220, 220, 230), body)
}

pub fn render_prompt_block(body: &str) -> (r: Lines)
    ensures
        r@ == prompt_block(body@),
{
    push_bullet_block(
        "> ",
        fg(Color::Rgb(230, 230, 240)).bold(),
        Color::Rgb(230, 230, 240),
        body,
    )
}

pub fn render_asst_bullet(body: &str) -> (r: Lines)
    ensures
        r@ == reply_block(body@),
{
    push_bullet_block("● ", fg(Color::Green), Color::Rgb(220, 220, 230), body)
}

/// A tool call: the tool's name, then what it was called with from the first
/// bracket on.
pub open spec fn tool_block(display: Seq<char>) -> Seq<Seq<SpanView>> {
    let p = find_char(display, '(', 0);
    seq![
        ln("● "@, fg(Color::Rgb(140, 180, 210))) + if p < display.len() {
            ln(display.take(p), fg(Color::Rgb(200, 215, 230)).bold()) + ln(
                display.skip(p),
                fg(Color::Rgb(130, 150, 170)),
            )
        } else {
            ln(display, fg(Color::Rgb(200, 215, 230)).bold())
        },
    ]
}

pub fn render_tool_bullet(display: &str) -> (r: Lines)
    ensures
        r@ == tool_block(display@),
{
    let v = chars_of(display);
    let p: usize = index_of(&v, '(', 0);
    let mut l = Line::of("● ", fg(Color::Rgb(140, 180, 210)));
    let rest = if p < v.len() {
        let name = slice_of(&v, 0, p);
        let args = slice_of(&v, p, v.len());
        assert(name@ =~= display@.take(p as int));
        assert(args@ =~= display@.skip(p as int));
        let mut m = Line::of(&name, fg(Color::Rgb(200, 215, 230)).bold());
        m.put(&args, fg(Color::Rgb(130, 150, 170)));
        m
    } else {
        Line::of(display, fg(Color::Rgb(200, 215, 230)).bold())
    };
    l.join(rest);
    Lines::of(l)
}

pub open spec fn thinking_block() -> Seq<Seq<SpanView>> {
    seq![
        ln("✻ "@, fg(Color::Rgb(190, 150, 210))) + ln(
            "thinking…"@,
            fg(Color::Rgb(160, 140, 180)).italic(),
        ),
    ]
}

pub fn render_thinking() -> (r: Lines)
    ensures
        r@ == thinking_block(),
{
    let mut l = Line::of("✻ ", fg(Color::Rgb(190, 150, 210)));
    l.put("thinking…", fg(Color::Rgb(160, 140, 180)).italic());
    Lines::of(l)
}

pub open spec fn part_block(p: PartView) -> Seq<Seq<SpanView>> {
    match p {
        PartView::Thinking => thinking_block(),
        PartView::Tool(name) => tool_block(name),
        PartView::Text(text) => reply_block(text),
    }
}

fn build_part(p: &PreviewPart) -> (r: Lines)
    ensures
        r@ == part_block(p@),
{
    match p {
        PreviewPart::Thinking => render_thinking(),
        PreviewPart::Tool(name) => render_tool_bullet(name),
        PreviewPart::Text(text) => render_asst_bullet(text),
    }
}

/// What a turn cost: the context, what the turn added to it and gave back,
/// and both sums so far.
pub open spec fn turn_stats(turn_in: u64, turn_out: u64, ctx: u64, cum_in: int, cum_out: int) -> Seq<SpanView> {
    let dim = fg(Color::Rgb(95, 95, 115));
    let accent = fg(Color::Rgb(170, 150, 205));
    ln("  └─ ctx "@, dim) + ln(tokens(ctx as nat), fg(Color::Rgb(200, 175, 230)).bold()) + ln(
        "  · turn +"@,
        dim,
    ) + ln(tokens(turn_in as nat), accent) + ln(" in / "@, dim) + ln(
        tokens(turn_out as nat),
        accent,
    ) + ln(" out  · Σ "@, dim) + ln(tokens(cum_in as nat), accent) + ln(" in / "@, dim) + ln(
        tokens(cum_out as nat),
        accent,
    ) + ln(" out"@, dim)
}

pub fn render_turn_stats(turn_in: u64, turn_out: u64, ctx: u64, cum_in: u64, cum_out: u64) -> (r: Line)
    ensures
        r@ == turn_stats(turn_in, turn_out, ctx, cum_in as int, cum_out as int),
{
    let dim = fg(Color::Rgb(95, 95, 115));
    let accent = fg(Color::Rgb(170, 150, 205));
    let mut l = Line::of("  └─ ctx ", dim);
    l.put(&format_tokens(ctx), fg(Color::Rgb(200, 175, 230)).bold());
    l.put("  · turn +", dim);
    l.put(&format_tokens(turn_in), accent);
    l.put(" in / ", dim);
    l.put(&format_tokens(turn_out), accent);
    l.put(" out  · Σ ", dim);
    l.put(&format_tokens(cum_in), accent);
    l.put(" in / ", dim);
    l.put(&format_tokens(cum_out), accent);
    l.put(" out", dim);
    l
}

// ---------------------------------------------------------------------------
// The conversation
// ---------------------------------------------------------------------------

#[derive(Debug)]
pub struct ConversationMessage {
    pub role: String,
    pub content_preview: String,
    pub input_tokens: Option<u64>,
    pub output_tokens: Option<u64>,
    pub cache_read_input_tokens: Option<u64>,
    pub cache_creation_input_tokens: Option<u64>,
}

pub open spec fn count_of(n: Option<u64>) -> int {
    match n {
        Some(x) => x as int,
        None => 0,
    }
}

impl ConversationMessage {
    /// All the input of a turn.
    pub open spec fn context(self) -> int {
        count_of(self.input_tokens) + count_of(self.cache_read_input_tokens) + count_of(
            self.cache_creation_input_tokens,
        )
    }

    /// The input of a turn that no earlier one had.
    pub open spec fn fresh(self) -> int {
        count_of(self.input_tokens) + count_of(self.cache_creation_input_tokens)
    }

    /// The input of the turn can be counted.
    pub open spec fn ok(self) -> bool {
        self.context() <= u64::MAX
    }
}

/// An empty line, unless nothing stands above.
pub open spec fn apart(l: Seq<Seq<SpanView>>) -> Seq<Seq<SpanView>> {
    if l.len() > 0 {
        l + seq![blank()]
    } else {
        l
    }
}

/// The first `n` parts of a reply, each set apart.
pub open spec fn with_parts(l: Seq<Seq<SpanView>>, parts: Seq<PartView>, n: int) -> Seq<Seq<SpanView>>
    decreases n,
{
    if n <= 0 {
        l
    } else {
        apart(with_parts(l, parts, n - 1)) + part_block(parts[n - 1])
    }
}

pub open spec fn peak_line() -> Seq<SpanView> {
    ln(
        "  ◆ peak context-growth turn"@,
        fg(Color::Rgb(20, 20, 20)).on(Color::Rgb(230, 180, 90)).bold(),
    )
}

/// What has been read of a conversation: its lines, the lines of the marked
/// turn, and how much was sent and received.
#[verifier::ext_equal]
pub struct TailState {
    pub lines: Seq<Seq<SpanView>>,
    pub marked: Option<(int, int)>,
    pub sent: int,
    pub received: int,
}

/// A prompt is shown unless it says nothing.
pub open spec fn tail_prompt(s: TailState, m: Markers, msg: ConversationMessage) -> TailState {
    let content = trimmed(msg.content_preview@);
    if is_placeholder(m, content) {
        s
    } else {
        TailState { lines: apart(s.lines) + prompt_block(content), ..s }
    }
}

/// The lines of a reply before what it cost.
pub open spec fn reply_lines(
    above: Seq<Seq<SpanView>>,
    m: Markers,
    msg: ConversationMessage,
    is_peak: bool,
) -> Seq<Seq<SpanView>> {
    let parts = preview_parts(m, msg.content_preview@);
    with_parts(
        if is_peak {
            apart(above) + seq![peak_line()]
        } else {
            above
        },
        parts,
        parts.len() as int,
    )
}

pub open spec fn capped(a: int, b: int) -> int {
    at_most(a + b, u64::MAX as int)
}

/// A reply: its parts, then what it cost where it cost anything.
pub open spec fn tail_reply(s: TailState, m: Markers, msg: ConversationMessage, is_peak: bool) -> TailState {
    let body = reply_lines(s.lines, m, msg, is_peak);
    let sent = capped(s.sent, msg.fresh());
    let received = capped(s.received, count_of(msg.output_tokens));
    let all = if msg.context() > 0 || count_of(msg.output_tokens) > 0 {
        body + seq![
            turn_stats(
                msg.fresh() as u64,
                count_of(msg.output_tokens) as u64,
                msg.context() as u64,
                sent,
                received,
            ),
        ]
    } else {
        body
    };
    TailState {
        lines: all,
        marked: if is_peak && s.marked is None {
            Some((s.lines.len() as int, all.len() as int))
        } else {
            s.marked
        },
        sent,
        received,
    }
}

pub open spec fn tail_step(s: TailState, m: Markers, msg: ConversationMessage, is_peak: bool) -> TailState {
    if msg.role@ == "user"@ {
        tail_prompt(s, m, msg)
    } else if msg.role@ == "assistant"@ {
        tail_reply(s, m, msg, is_peak)
    } else {
        s
    }
}

/// The first `n` messages of a conversation.
pub open spec fn tail_read(
    messages: Seq<ConversationMessage>,
    m: Markers,
    highlight: Option<usize>,
    n: int,
) -> TailState
    decreases n,
{
    if n <= 0 {
        TailState { lines: no_lines(), marked: None, sent: 0, received: 0 }
    } else {
        tail_step(
            tail_read(messages, m, highlight, n - 1),
            m,
            messages[n - 1],
            highlight matches Some(i) && i == n - 1,
        )
    }
}

/// The lines of a conversation, and which of them belong to the marked turn.
pub open spec fn tail_content(
    messages: Seq<ConversationMessage>,
    m: Markers,
    highlight: Option<usize>,
) -> (Seq<Seq<SpanView>>, Option<(int, int)>) {
    if messages.len() == 0 {
        (seq![ln("Waiting for messages…"@, fg(Color::DarkGray))], None)
    } else {
        let s = tail_read(messages, m, highlight, messages.len() as int);
        (s.lines, s.marked)
    }
}

fn put_apart(l: &mut Lines)
    ensures
        final(l)@ == apart(old(l)@),
{
    if l.len() > 0 {
        l.put(Line::empty());
    }
}

fn put_parts(l: &mut Lines, parts: &Vec<PreviewPart>)
    ensures
        final(l)@ == with_parts(old(l)@, part_views(parts@), parts@.len() as int),
{
    let ghost start = l@;
    let mut i: usize = 0;
    while i < parts.len()
        invariant
            i <= parts@.len(),
            l@ == with_parts(start, part_views(parts@), i as int),
        decreases parts@.len() - i,
    {
        put_apart(l);
        assert(part_views(parts@)[i as int] == parts@[i as int]@);
        l.join(build_part(&parts[i]));
        i += 1;
    }
}

fn count_or_zero(n: Option<u64>) -> (r: u64)
    ensures
        r == count_of(n),
{
    match n {
        Some(x) => x,
        None => 0,
    }
}

pub open spec fn range_view(r: Option<(usize, usize)>) -> Option<(int, int)> {
    match r {
        Some((a, b)) => Some((a as int, b as int)),
        None => None,
    }
}

/// The lines of a conversation, and which of them belong to the turn that
/// `highlight_msg_idx` names.
pub fn build_live_tail_content(
    messages: &Vec<ConversationMessage>,
    m: &Markers,
    highlight_msg_idx: Option<usize>,
) -> (r: (Lines, Option<(usize, usize)>))
    requires
        m.ok(),
        forall|i: int| 0 <= i < messages@.len() ==> (#[trigger] messages@[i]).ok(),
    ensures
        (r.0@, range_view(r.1)) == tail_content(messages@, *m, highlight_msg_idx),
{
    if messages.len() == 0 {
        return (Lines::of(Line::of("Waiting for messages…", fg(Color::DarkGray))), None);
    }
    let mut out = Lines::none();
    let mut marked: Option<(usize, usize)> = None;
    let mut sent: u64 = 0;
    let mut received: u64 = 0;
    let mut i: usize = 0;
    while i < messages.len()
        invariant
            m.ok(),
            forall|i: int| 0 <= i < messages@.len() ==> (#[trigger] messages@[i]).ok(),
            i <= messages@.len(),
            tail_read(messages@, *m, highlight_msg_idx, i as int) == (TailState {
                lines: out@,
                marked: range_view(marked),
                sent: sent as int,
                received: received as int,
            }),
        decreases messages@.len() - i,
    {
        let msg = &messages[i];
        assert(msg.ok());
        if same(&msg.role, "user") {
            let content = trim(&msg.content_preview);
            if !is_placeholder_preview(m, &content) {
                put_apart(&mut out);
                out.join(render_prompt_block(&content));
            }
        } else if same(&msg.role, "assistant") {
            let is_peak = match highlight_msg_idx {
                Some(k) => k == i,
                None => false,
            };
            let start: usize = out.len();
            if is_peak {
                put_apart(&mut out);
                out.put(
                    Line::of(
                        "  ◆ peak context-growth turn",
                        fg(Color::Rgb(20, 20, 20)).on(Color::Rgb(230, 180, 90)).bold(),
                    ),
                );
            }
            let parts = parse_preview(m, &msg.content_preview);
            put_parts(&mut out, &parts);
            assert(part_views(parts@).len() == parts@.len());
            let input: u64 = count_or_zero(msg.input_tokens);
            let output: u64 = count_or_zero(msg.output_tokens);
            let read: u64 = count_or_zero(msg.cache_read_input_tokens);
            let made: u64 = count_or_zero(msg.cache_creation_input_tokens);
            let ctx: u64 = input + read + made;
            let fresh: u64 = input + made;
            sent = sent.saturating_add(fresh);
            received = received.saturating_add(output);
            if ctx > 0 || output > 0 {
                out.put(render_turn_stats(fresh, output, ctx, sent, received));
            }
            if is_peak && marked.is_none() {
                marked = Some((start, out.len()));
            }
        }
        i += 1;
    }
    (out, marked)
}

proof fn lemma_parts_grow(l: Seq<Seq<SpanView>>, parts: Seq<PartView>, n: int)
    requires
        0 <= n,
    ensures
        l.len() <= with_parts(l, parts, n).len(),
    decreases n,
{
    if n > 0 {
        lemma_parts_grow(l, parts, n - 1);
    }
}

proof fn lemma_tail_marked(
    messages: Seq<ConversationMessage>,
    m: Markers,
    highlight: Option<usize>,
    n: int,
)
    requires
        0 <= n,
    ensures
        ({
            let s = tail_read(messages, m, highlight, n);
            s.marked matches Some((a, b)) ==> 0 <= a < b <= s.lines.len()
        }),
    decreases n,
{
    if n > 0 {
        lemma_tail_marked(messages, m, highlight, n - 1);
        let s = tail_read(messages, m, highlight, n - 1);
        let msg = messages[n - 1];
        let is_peak = highlight matches Some(i) && i == n - 1;
        let parts = preview_parts(m, msg.content_preview@);
        let above = if is_peak {
            apart(s.lines) + seq![peak_line()]
        } else {
            s.lines
        };
        lemma_parts_grow(above, parts, parts.len() as int);
    }
}

/// The marked turn has lines of its own, all of them lines of the tail.
pub proof fn marked_lines_are_lines(
    messages: Seq<ConversationMessage>,
    m: Markers,
    highlight: Option<usize>,
)
    ensures
        tail_content(messages, m, highlight).1 matches Some((a, b)) ==> 0 <= a < b <= tail_content(
            messages,
            m,
            highlight,
        ).0.len(),
{
    lemma_tail_marked(messages, m, highlight, messages.len() as int);
}

// ---------------------------------------------------------------------------
// Scrolling
// ---------------------------------------------------------------------------

/// The scroll position of a tail of `total` rows: the bottom while it follows
/// the conversation, the marked turn a third below the top once it is asked
/// for, else what it was, and never beyond the bottom.
pub open spec fn tail_scroll(
    total: int,
    height: int,
    follow: bool,
    scroll: int,
    target: Option<int>,
) -> int {
    let bottom = minus(total, height);
    let s = if follow && total > height {
        bottom
    } else {
        scroll
    };
    let t = match target {
        Some(row) => at_most(minus(row, at_least(height, 1) / 3), minus(total, at_least(height, 1))),
        None => s,
    };
    at_most(t, bottom)
}

/// The position never leaves the tail, a tail that follows shows its last
/// row, and a turn that was asked for begins on the screen.
pub proof fn tail_scroll_shows(total: int, height: int, follow: bool, scroll: int, target: Option<int>)
    requires
        0 < height,
        0 <= total,
        0 <= scroll,
        target matches Some(row) ==> 0 <= row < total,
    ensures
        ({
            let s = tail_scroll(total, height, follow, scroll, target);
            &&& 0 <= s <= minus(total, height)
            &&& follow && target is None ==> s == minus(total, height)
            &&& target matches Some(row) ==> s <= row < s + height
        }),
{
}

/// What the popup keeps of a conversation on the screen.
#[derive(Debug)]
pub struct LiveView {
    pub messages: Vec<ConversationMessage>,
    pub highlight_msg_idx: Option<usize>,
    pub review_mode: bool,
    pub auto_scroll: bool,
    pub scroll: u16,
    /// Whether the marked turn has still to be brought on the screen.
    pub scroll_to_highlight: bool,
}

#[derive(Debug)]
pub struct TailBody {
    pub lines: Lines,
    pub content_area: Rect,
    pub total_rows: u16,
    pub scroll: u16,
    pub scroll_to_highlight: bool,
    pub hint_area: Rect,
    pub indicator: String,
    pub indicator_area: Rect,
}

#[derive(Debug)]
pub struct TailPopup {
    pub area: Rect,
    pub title: String,
    pub title_color: Color,
    /// None where the popup is too small.
    pub body: Option<TailBody>,
}

pub open spec fn tail_title(review: bool, follow: bool) -> (Seq<char>, Color) {
    if review {
        (" Transcript · review "@, Color::Rgb(230, 180, 90))
    } else if follow {
        (" Live Tail · streaming "@, Color::Green)
    } else {
        (" Live Tail · paused "@, Color::Yellow)
    }
}

pub open spec fn tail_area(area: Rect) -> Rect {
    middle(area, scaled(area.width as int, share_85()), scaled(area.height as int, share_85()))
}

/// The rows of the tail inside its border, with a margin above, below and on
/// the left.
pub open spec fn tail_content_area(inner: Rect) -> Rect {
    Rect {
        x: (inner.x + 1) as u16,
        y: (inner.y + 1) as u16,
        width: minus(inner.width as int, 1) as u16,
        height: minus(inner.height as int, 2) as u16,
    }
}

/// The keys of the tail, 35 characters.
pub open spec fn tail_hint() -> Seq<char> {
    " ↑/↓ scroll · G bottom · esc close "@
}

pub fn tail_hint_text() -> (r: String)
    ensures
        r@ == tail_hint(),
{
    " ↑/↓ scroll · G bottom · esc close ".to_owned()
}

/// `b` shows the conversation inside `inner`.
pub open spec fn tail_shows(b: TailBody, area: Rect, lv: LiveView, m: Markers) -> bool {
    let popup = tail_area(area);
    let inner = inside(popup);
    let content = tail_content(lv.messages@, m, lv.highlight_msg_idx);
    let w = tail_content_area(inner).width;
    let total = screen_rows(content.0, w);
    let target = match content.1 {
        Some((start, _)) => if lv.scroll_to_highlight {
            Some(screen_rows(content.0.take(start), w))
        } else {
            None
        },
        None => None,
    };
    &&& b.lines@ == content.0
    &&& b.content_area == tail_content_area(inner)
    &&& b.total_rows == total
    &&& b.scroll == tail_scroll(
        total,
        tail_content_area(inner).height as int,
        lv.auto_scroll,
        lv.scroll as int,
        target,
    )
    &&& b.scroll_to_highlight == (lv.scroll_to_highlight && content.1 is None
        && lv.messages@.len() == 0)
    &&& b.hint_area == (Rect {
        x: inner.x,
        y: (popup.y + popup.height - 1) as u16,
        width: at_most(tail_hint().len() as int, inner.width as int) as u16,
        height: 1,
    })
    &&& b.indicator@ == position_text(b.scroll as int, total)
    &&& b.indicator_area == (Rect { height: 1, y: (popup.y + popup.height - 1) as u16, ..inner })
}

/// Whether the tail has room inside its border.
pub open spec fn tail_has_room(area: Rect) -> bool {
    inside(tail_area(area)).height >= 3 && inside(tail_area(area)).width >= 2
}

/// Whether the conversation can be wrapped into the tail, where that has room.
pub open spec fn tail_wraps(area: Rect, lv: LiveView, m: Markers) -> bool {
    tail_has_room(area) ==> can_wrap(
        tail_content(lv.messages@, m, lv.highlight_msg_idx).0,
        tail_content_area(inside(tail_area(area))).width,
    )
}

pub fn tail_can_wrap(area: Rect, lv: &LiveView, m: &Markers) -> (r: bool)
    requires
        area.fits(),
        m.ok(),
        forall|i: int| 0 <= i < lv.messages@.len() ==> (#[trigger] lv.messages@[i]).ok(),
    ensures
        r == tail_wraps(area, *lv, *m),
{
    let inner = inner_of(centered_rect(area, share_85()));
    if inner.height < 3 || inner.width < 2 || inner.width <= 0x4000 {
        return true;
    }
    wraps(&build_live_tail_content(&lv.messages, m, lv.highlight_msg_idx).0, inner.width - 1)
}

/// Lays the tail out. `m` holds the markers of its previews.
pub fn render_live_tail(area: Rect, lv: &LiveView, m: &Markers) -> (r: TailPopup)
    requires
        area.fits(),
        m.ok(),
        forall|i: int| 0 <= i < lv.messages@.len() ==> (#[trigger] lv.messages@[i]).ok(),
        tail_wraps(area, *lv, *m),
    ensures
        r.area == tail_area(area),
        (r.title@, r.title_color) == tail_title(lv.review_mode, lv.auto_scroll),
        r.body is Some <==> tail_has_room(area),
        r.body matches Some(b) ==> tail_shows(b, area, *lv, *m),
{
    let popup = centered_rect(area, share_85());
    let (title, title_color) = if lv.review_mode {
        (" Transcript · review ", Color::Rgb(230, 180, 90))
    } else if lv.auto_scroll {
        (" Live Tail · streaming ", Color::Green)
    } else {
        (" Live Tail · paused ", Color::Yellow)
    };
    let title = title.to_owned();
    let inner = inner_of(popup);
    if inner.height < 3 || inner.width < 2 {
        return TailPopup { area: popup, title, title_color, body: None };
    }
    let content_area = Rect {
        x: inner.x + 1,
        y: inner.y + 1,
        width: inner.width - 1,
        height: inner.height - 2,
    };
    let (lines, marked) = build_live_tail_content(&lv.messages, m, lv.highlight_msg_idx);
    proof {
        marked_lines_are_lines(lv.messages@, *m, lv.highlight_msg_idx);
    }
    let width: u16 = content_area.width;
    let height: u16 = content_area.height;
    let total: u16 = wrapped_total_rows(&lines, width);
    let bottom: u16 = total.saturating_sub(height);
    let mut s: u16 = if lv.auto_scroll && total > height {
        bottom
    } else {
        lv.scroll
    };
    let mut pending = lv.scroll_to_highlight;
    if lv.scroll_to_highlight {
        match marked {
            Some((start, _)) => {
                let row: u16 = wrapped_total_rows(&lines.first(start), width);
                let target: u16 = row.saturating_sub(height / 3);
                s = if target < bottom {
                    target
                } else {
                    bottom
                };
                pending = false;
            },
            None => if lv.messages.len() > 0 {
                pending = false;
            },
        }
    }
    if s > bottom {
        s = bottom;
    }
    let edge: u16 = popup.y + popup.height - 1;
    let hint = tail_hint_text();
    let keys: usize = hint.as_str().unicode_len();
    let hint_width: u16 = if keys < inner.width as usize {
        keys as u16
    } else {
        inner.width
    };
    let last: u16 = total.saturating_sub(1);
    let at: u16 = if s < last {
        s
    } else {
        last
    };
    let indicator = cat5(" ", &text_dec(at as u64 + 1), "/", &text_dec(total as u64), " ");
    let body = TailBody {
        lines,
        content_area,
        total_rows: total,
        scroll: s,
        scroll_to_highlight: pending,
        hint_area: Rect { x: inner.x, y: edge, width: hint_width, height: 1 },
        indicator,
        indicator_area: Rect { x: inner.x, y: edge, width: inner.width, height: 1 },
    };
    TailPopup { area: popup, title, title_color, body: Some(body) }
}

// ---------------------------------------------------------------------------
// What a conversation is shown as
// ---------------------------------------------------------------------------

/// The tokens of input that the replies among messages brought anew: what was
/// neither read from the cache nor sent before.
pub open spec fn brought(messages: Seq<ConversationMessage>) -> int
    decreases messages.len(),
{
    if messages.len() == 0 {
        0
    } else {
        let msg = messages.last();
        brought(messages.drop_last()) + if msg.role@ == "assistant"@ {
            (match msg.input_tokens {
                Some(n) => n as int,
                None => 0,
            }) + (match msg.cache_creation_input_tokens {
                Some(n) => n as int,
                None => 0,
            })
        } else {
            0
        }
    }
}

/// The tokens of output of the replies among messages.
pub open spec fn given_back(messages: Seq<ConversationMessage>) -> int
    decreases messages.len(),
{
    if messages.len() == 0 {
        0
    } else {
        let msg = messages.last();
        given_back(messages.drop_last()) + if msg.role@ == "assistant"@ {
            match msg.output_tokens {
                Some(n) => n as int,
                None => 0,
            }
        } else {
            0
        }
    }
}

proof fn lemma_read_prefix(
    a: Seq<ConversationMessage>,
    b: Seq<ConversationMessage>,
    m: Markers,
    highlight: Option<usize>,
    n: int,
)
    requires
        n <= a.len(),
        n <= b.len(),
        forall|i: int| 0 <= i < n ==> a[i] == b[i],
    ensures
        tail_read(a, m, highlight, n) == tail_read(b, m, highlight, n),
    decreases n,
{
    if n > 0 {
        lemma_read_prefix(a, b, m, highlight, n - 1);
    }
}

proof fn lemma_read_push(
    messages: Seq<ConversationMessage>,
    msg: ConversationMessage,
    m: Markers,
    highlight: Option<usize>,
)
    ensures
        tail_read(messages.push(msg), m, highlight, (messages.len() + 1) as int) == tail_step(
            tail_read(messages, m, highlight, messages.len() as int),
            m,
            msg,
            highlight matches Some(i) && i == messages.len(),
        ),
{
    lemma_read_prefix(messages.push(msg), messages, m, highlight, messages.len() as int);
}

proof fn lemma_sums(messages: Seq<ConversationMessage>, m: Markers, highlight: Option<usize>)
    ensures
        ({
            let s = tail_read(messages, m, highlight, messages.len() as int);
            &&& s.sent == at_most(brought(messages), u64::MAX as int)
            &&& s.received == at_most(given_back(messages), u64::MAX as int)
            &&& brought(messages) >= 0
            &&& given_back(messages) >= 0
        }),
    decreases messages.len(),
{
    if messages.len() > 0 {
        let front = messages.drop_last();
        let msg = messages.last();
        lemma_sums(front, m, highlight);
        assert(front.push(msg) =~= messages);
        lemma_read_push(front, msg, m, highlight);
        reveal_strlit("user");
        reveal_strlit("assistant");
        assert("user"@.len() != "assistant"@.len());
    }
}

/// A reply that cost anything ends with what it cost: its whole input, of that
/// what was neither cached nor sent before, its output, and the sums of the last
/// two over all replies so far.
pub proof fn replies_end_with_their_cost(
    messages: Seq<ConversationMessage>,
    msg: ConversationMessage,
    m: Markers,
    highlight: Option<usize>,
    input: int,
    read: int,
    created: int,
    output: int,
)
    requires
        msg.role@ == "assistant"@,
        input == (if msg.input_tokens is Some {
            msg.input_tokens->Some_0 as int
        } else {
            0
        }),
        read == (if msg.cache_read_input_tokens is Some {
            msg.cache_read_input_tokens->Some_0 as int
        } else {
            0
        }),
        created == (if msg.cache_creation_input_tokens is Some {
            msg.cache_creation_input_tokens->Some_0 as int
        } else {
            0
        }),
        output == (if msg.output_tokens is Some {
            msg.output_tokens->Some_0 as int
        } else {
            0
        }),
        0 < input + read + created + output,
        input + read + created <= u64::MAX,
        brought(messages.push(msg)) <= u64::MAX,
        given_back(messages.push(msg)) <= u64::MAX,
    ensures
        line_text(tail_content(messages.push(msg), m, highlight).0.last()) == "  └─ ctx "@ + tokens(
            (input + read + created) as nat,
        ) + "  · turn +"@ + tokens((input + created) as nat) + " in / "@ + tokens(output as nat)
            + " out  · Σ "@ + tokens(brought(messages.push(msg)) as nat) + " in / "@ + tokens(
            given_back(messages.push(msg)) as nat,
        ) + " out"@,
        brought(messages.push(msg)) == brought(messages) + input + created,
        given_back(messages.push(msg)) == given_back(messages) + output,
{
    broadcast use {crate::style::joined_line_text, crate::style::span_line_text};

    lemma_read_push(messages, msg, m, highlight);
    lemma_sums(messages, m, highlight);
    assert(messages.push(msg).drop_last() =~= messages);
    reveal_strlit("user");
    reveal_strlit("assistant");
    assert("user"@.len() != "assistant"@.len());
}

/// What a turn is said to have added and what it had from the cache make up its
/// context.
pub proof fn context_is_what_is_new_and_what_was_cached(msg: ConversationMessage)
    ensures
        msg.context() == msg.fresh() + if msg.cache_read_input_tokens is Some {
            msg.cache_read_input_tokens->Some_0 as int
        } else {
            0
        },
        msg.fresh() == (if msg.input_tokens is Some {
            msg.input_tokens->Some_0 as int
        } else {
            0
        }) + if msg.cache_creation_input_tokens is Some {
            msg.cache_creation_input_tokens->Some_0 as int
        } else {
            0
        },
{
}

/// Messages that are neither a prompt nor a reply are not shown.
pub proof fn other_messages_are_not_shown(
    messages: Seq<ConversationMessage>,
    msg: ConversationMessage,
    m: Markers,
    highlight: Option<usize>,
)
    requires
        messages.len() > 0,
        msg.role@ != "user"@,
        msg.role@ != "assistant"@,
    ensures
        tail_content(messages.push(msg), m, highlight) == tail_content(messages, m, highlight),
{
    lemma_read_push(messages, msg, m, highlight);
}

proof fn lemma_with_parts_keeps(l: Seq<Seq<SpanView>>, parts: Seq<PartView>, n: int)
    ensures
        l.is_prefix_of(with_parts(l, parts, n)),
    decreases n,
{
    if n > 0 {
        lemma_with_parts_keeps(l, parts, n - 1);
        let w = with_parts(l, parts, n - 1);
        let all = with_parts(l, parts, n);
        assert(all.take(l.len() as int) =~= w.take(l.len() as int));
        assert(l =~= w.take(l.len() as int));
        assert(l =~= all.take(l.len() as int));
    } else {
        assert(l =~= l.take(l.len() as int));
    }
}

/// A conversation grows downwards: a message leaves the lines above it alone.
pub proof fn earlier_lines_stay(
    messages: Seq<ConversationMessage>,
    msg: ConversationMessage,
    m: Markers,
    highlight: Option<usize>,
)
    requires
        messages.len() > 0,
    ensures
        tail_content(messages, m, highlight).0.is_prefix_of(tail_content(messages.push(msg), m, highlight).0),
{
    lemma_read_push(messages, msg, m, highlight);
    let s = tail_read(messages, m, highlight, messages.len() as int);
    let l = s.lines;
    let is_peak = highlight matches Some(i) && i == messages.len();
    let above = if is_peak {
        apart(l) + seq![peak_line()]
    } else {
        l
    };
    let parts = preview_parts(m, msg.content_preview@);
    lemma_with_parts_keeps(above, parts, parts.len() as int);
    let all = tail_content(messages.push(msg), m, highlight).0;
    let body = with_parts(above, parts, parts.len() as int);
    assert(above =~= body.take(above.len() as int));
    assert(l =~= above.take(l.len() as int));
    assert(l =~= body.take(l.len() as int)) by {
        assert(body.take(above.len() as int).take(l.len() as int) =~= body.take(l.len() as int));
    }
    assert(l =~= all.take(l.len() as int));
}

proof fn lemma_one_said(s: Seq<char>, prefix: SpanView, color: Color)
    requires
        is_plain_line(s),
    ensures
        bullet(prefix, color, s) == seq![seq![prefix] + ln(s, fg(color))],
{
    plain_line_is_itself(s);
    let ls = seq![s];
    assert(ls.drop_last() =~= Seq::empty());
    assert(said_lines(ls.drop_last()) =~= Seq::empty());
    assert(said_lines(ls) =~= seq![s]);
    assert(bullet(prefix, color, s) =~= seq![seq![prefix] + ln(s, fg(color))]);
}

/// A prompt of one line is that line behind an angle bracket, below an empty line
/// where anything stands above it.
pub proof fn prompts_are_shown(
    messages: Seq<ConversationMessage>,
    msg: ConversationMessage,
    m: Markers,
    highlight: Option<usize>,
)
    requires
        messages.len() > 0,
        msg.role@ == "user"@,
        is_plain_line(msg.content_preview@),
        msg.content_preview@ != m.no_content@,
        msg.content_preview@ != m.no_text_content@,
    ensures
        ({
            let before = tail_content(messages, m, highlight).0;
            let after = tail_content(messages.push(msg), m, highlight).0;
            &&& after.len() == before.len() + if before.len() > 0 {
                2int
            } else {
                1int
            }
            &&& line_text(after.last()) == "> "@ + msg.content_preview@
            &&& before.len() > 0 ==> after[before.len() as int] == Seq::<SpanView>::empty()
        }),
{
    broadcast use {crate::style::joined_line_text, crate::style::span_line_text};

    lemma_read_push(messages, msg, m, highlight);
    let s = msg.content_preview@;
    plain_line_is_itself(s);
    let prefix = sp("> "@, fg(Color::Rgb(230, 230, 240)).bold());
    lemma_one_said(s, prefix, Color::Rgb(230, 230, 240));
    assert(seq![prefix] == ln("> "@, fg(Color::Rgb(230, 230, 240)).bold()));
}

/// A reply of one line without markers and without any cost is that line behind a
/// bullet; a marked reply has its mark above it.
pub proof fn replies_are_shown(
    messages: Seq<ConversationMessage>,
    msg: ConversationMessage,
    m: Markers,
    highlight: Option<usize>,
)
    requires
        m.ok(),
        messages.len() > 0,
        msg.role@ == "assistant"@,
        msg.input_tokens is None,
        msg.output_tokens is None,
        msg.cache_read_input_tokens is None,
        msg.cache_creation_input_tokens is None,
        is_plain_line(msg.content_preview@),
        msg.content_preview@ != m.no_content@,
        msg.content_preview@ != m.no_text_content@,
        !holds(msg.content_preview@, m.thinking@),
        !holds(msg.content_preview@, m.tool_prefix@),
    ensures
        ({
            let before = tail_content(messages, m, highlight).0;
            let after = tail_content(messages.push(msg), m, highlight).0;
            let peak = highlight == Some(messages.len() as usize) && messages.len() <= usize::MAX;
            &&& line_text(after.last()) == "● "@ + msg.content_preview@
            &&& after.len() == before.len() + (if before.len() > 0 || peak {
                2int
            } else {
                1int
            }) + if peak {
                if before.len() > 0 {
                    2int
                } else {
                    1int
                }
            } else {
                0
            }
            &&& peak ==> line_text(after[after.len() - 3]) == "  ◆ peak context-growth turn"@
            &&& peak && tail_content(messages, m, highlight).1 is None ==> tail_content(
                messages.push(msg),
                m,
                highlight,
            ).1 == Some((before.len() as int, after.len() as int))
        }),
{
    broadcast use {crate::style::joined_line_text, crate::style::span_line_text};

    lemma_read_push(messages, msg, m, highlight);
    reveal_strlit("user");
    reveal_strlit("assistant");
    assert("user"@.len() != "assistant"@.len());
    let s = msg.content_preview@;
    plain_line_is_itself(s);
    lemma_find_text(s, m.thinking@, 0);
    lemma_find_text(s, m.tool_prefix@, 0);
    let t = find_text(s, m.thinking@, 0);
    let u = find_text(s, m.tool_prefix@, 0);
    assert(t < 0) by {
        if t >= 0 {
            assert(stands_at(s, m.thinking@, t));
        }
    }
    assert(u < 0) by {
        if u >= 0 {
            assert(stands_at(s, m.tool_prefix@, u));
        }
    }
    assert(preview_parts(m, s) =~= seq![PartView::Text(s)]);
    let prefix = sp("● "@, fg(Color::Green));
    lemma_one_said(s, prefix, Color::Rgb(220, 220, 230));
    assert(seq![prefix] == ln("● "@, fg(Color::Green)));
    let parts = preview_parts(m, s);
    let before = tail_content(messages, m, highlight).0;
    let peak = highlight matches Some(i) && i == messages.len();
    let above = if peak {
        apart(before) + seq![peak_line()]
    } else {
        before
    };
    reveal_with_fuel(with_parts, 2);
    assert(with_parts(above, parts, 1) == apart(above) + reply_block(s));
}

/// A thought is shown as such, and a tool by its name, each behind its sign.
pub proof fn thoughts_and_tools_are_shown(m: Markers, name: Seq<char>)
    requires
        m.ok(),
        is_plain_line(name),
        !name.contains('('),
    ensures
        part_block(PartView::Thinking).len() == 1,
        line_text(part_block(PartView::Thinking)[0]) == "✻ "@ + "thinking…"@,
        part_block(PartView::Tool(name)).len() == 1,
        line_text(part_block(PartView::Tool(name))[0]) == "● "@ + name,
{
    broadcast use {crate::style::joined_line_text, crate::style::span_line_text};

    crate::parts::lemma_find_char(name, '(', 0);
    assert(forall|i: int| 0 <= i < name.len() ==> name.contains(#[trigger] name[i]));
}

/// Before any message the tail says that it waits.
pub proof fn empty_tail_waits(m: Markers, highlight: Option<usize>)
    ensures
        tail_content(Seq::empty(), m, highlight).0.len() == 1,
        line_text(tail_content(Seq::empty(), m, highlight).0[0]) == "Waiting for messages…"@,
{
    broadcast use crate::style::span_line_text;

}

/// The title tells a transcript that is reviewed from a tail that follows the conversation
/// and from one that does not.
pub proof fn tail_titles_tell_the_mode(follow: bool)
    ensures
        tail_title(true, follow) == (" Transcript · review "@, Color::Rgb(230, 180, 90)),
        tail_title(false, true) == (" Live Tail · streaming "@, Color::Green),
        tail_title(false, false) == (" Live Tail · paused "@, Color::Yellow),
{
}

/// A tail that follows the conversation shows its last row; one that does not stays where
/// it is, as far as there is anything below. The border says which row is at the top.
pub proof fn tails_follow_the_conversation(b: TailBody, area: Rect, lv: LiveView, m: Markers)
    requires
        tail_shows(b, area, lv, m),
        tail_has_room(area),
        !lv.scroll_to_highlight,
        b.total_rows >= b.content_area.height,
        b.content_area.height > 0,
    ensures
        lv.auto_scroll && b.total_rows > b.content_area.height ==> b.scroll + b.content_area.height == b.total_rows,
        !lv.auto_scroll && lv.scroll + b.content_area.height <= b.total_rows ==> b.scroll == lv.scroll,
        b.scroll + b.content_area.height <= b.total_rows,
        b.indicator@ == " "@ + crate::text::dec((b.scroll + 1) as nat) + "/"@ + crate::text::dec(b.total_rows as nat) + " "@,
        b.lines@ == tail_content(lv.messages@, m, lv.highlight_msg_idx).0,
{
}

} // verus!
