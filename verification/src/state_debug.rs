//! The popup that explains why a session is in its state.

use crate::common::state_color;
use crate::geometry::{centered_rect, inner_of, inside, middle, scaled, share_90, Rect};
use crate::metrics::position_text;
use crate::models::{SessionInfo, SessionState};
use crate::palette::{context_gray, gray_80, rgb};
use crate::parts::{join, joined, texts};
use crate::style::{blank, fg, line_text, ln, no_lines, plain, Color, Line, Lines, SpanView};
use crate::text::{at_most, cat2, cat3, cat5, cat7, dec, minus, right, text_count, text_dec, text_right};
use crate::wrap::{can_wrap, screen_rows, wrapped_total_rows, wraps};
use vstd::prelude::*;

verus! {

broadcast use vstd::string::group_string_axioms;

/// A state, and how it is called.
#[derive(Debug)]
pub struct NamedState {
    pub state: SessionState,
    pub label: String,
}

/// What a step of the decision came to.
#[derive(Debug)]
pub enum Verdict {
    Decided(NamedState),
    Passed,
    Skipped,
}

#[derive(Debug)]
pub struct ExplainStep {
    pub name: String,
    pub verdict: Verdict,
    pub details: Vec<String>,
}

/// An entry of a session's log.
#[derive(Debug)]
pub struct TailEntry {
    pub idx: usize,
    pub timestamp: Option<String>,
    pub kind: String,
    pub stop_reason: Option<String>,
    pub blocks: Vec<String>,
}

/// How the state of a session was decided.
#[derive(Debug)]
pub struct StateExplanation {
    pub final_state: NamedState,
    pub entry_count: usize,
    pub mtime_age_secs: Option<u64>,
    pub steps: Vec<ExplainStep>,
    pub tail: Vec<TailEntry>,
}

// ---------------------------------------------------------------------------
// Lines
// ---------------------------------------------------------------------------

pub open spec fn fact(label: Seq<char>, value: Seq<char>) -> Seq<SpanView> {
    ln(label, fg(Color::DarkGray)) + ln(value, fg(Color::White))
}

fn build_fact(label: &str, value: &str) -> (r: Line)
    ensures
        r@ == fact(label@, value@),
{
    let mut l = Line::of(label, fg(Color::DarkGray));
    l.put(value, fg(Color::White));
    l
}

/// What is known of the session.
pub open spec fn facts(info: SessionInfo, exp: StateExplanation) -> Seq<Seq<SpanView>> {
    seq![
        ln("Final state: "@, fg(Color::DarkGray)) + ln(
            exp.final_state.label@,
            fg(state_color(exp.final_state.state)).bold(),
        ),
    ] + seq![
        fact(
            "JSONL:       "@,
            match info.jsonl_path {
                Some(p) => p@,
                None => "(no jsonl)"@,
            },
        ),
    ] + seq![
        fact("Tail size:   "@, dec(exp.entry_count as nat) + " entries (last 64 KiB)"@),
    ] + seq![
        fact(
            "mtime age:   "@,
            match exp.mtime_age_secs {
                Some(s) => dec(s as nat) + "s"@,
                None => "unknown"@,
            },
        ),
    ]
}

fn build_facts(info: &SessionInfo, exp: &StateExplanation) -> (r: Lines)
    ensures
        r@ == facts(*info, *exp),
{
    let mut state = Line::of("Final state: ", fg(Color::DarkGray));
    state.put(&exp.final_state.label, fg(state_color(exp.final_state.state)).bold());
    let path = match &info.jsonl_path {
        Some(p) => p.as_str().to_owned(),
        None => "(no jsonl)".to_owned(),
    };
    let age = match exp.mtime_age_secs {
        Some(s) => cat2(&text_dec(s), "s"),
        None => "unknown".to_owned(),
    };
    let mut out = Lines::of(state);
    out.put(build_fact("JSONL:       ", &path));
    out.put(
        build_fact("Tail size:   ", &cat2(&text_count(exp.entry_count), " entries (last 64 KiB)")),
    );
    out.put(build_fact("mtime age:   ", &age));
    out
}

pub open spec fn heading(text: Seq<char>) -> Seq<Seq<SpanView>> {
    seq![ln(text, fg(gray_80()))] + seq![blank()]
}

fn build_heading(text: &str) -> (r: Lines)
    ensures
        r@ == heading(text@),
{
    let mut out = Lines::of(Line::of(text, fg(gray_80())));
    out.put(Line::empty());
    out
}

pub open spec fn verdict_tag(v: Verdict) -> Seq<char> {
    match v {
        Verdict::Decided(s) => "DECIDE → "@ + s.label@,
        Verdict::Passed => "PASS"@,
        Verdict::Skipped => "SKIP"@,
    }
}

pub open spec fn verdict_color(v: Verdict) -> Color {
    match v {
        Verdict::Decided(s) => state_color(s.state),
        Verdict::Passed => Color::Green,
        Verdict::Skipped => rgb(90, 90, 100),
    }
}

pub open spec fn detail_line(s: Seq<char>) -> Seq<SpanView> {
    ln("  "@, plain()) + ln(s, fg(rgb(190, 190, 200)))
}

/// A step of the decision with its details.
pub open spec fn step_lines(s: ExplainStep) -> Seq<Seq<SpanView>> {
    seq![
        ln("["@ + verdict_tag(s.verdict) + "] "@, fg(verdict_color(s.verdict)).bold()) + ln(
            s.name@,
            fg(Color::White).bold(),
        ),
    ] + texts(s.details@).map_values(|d: Seq<char>| detail_line(d)) + seq![blank()]
}

fn build_step(s: &ExplainStep) -> (r: Lines)
    ensures
        r@ == step_lines(*s),
{
    let (tag, color) = match &s.verdict {
        Verdict::Decided(d) => (cat2("DECIDE → ", &d.label), state_color(d.state)),
        Verdict::Passed => ("PASS".to_owned(), Color::Green),
        Verdict::Skipped => ("SKIP".to_owned(), rgb(90, 90, 100)),
    };
    let mut head = Line::of(&cat3("[", &tag, "] "), fg(color).bold());
    head.put(&s.name, fg(Color::White).bold());
    let mut out = Lines::of(head);
    let ghost first = out@;
    let ghost rows = texts(s.details@).map_values(|d: Seq<char>| detail_line(d));
    let mut i: usize = 0;
    assert(out@ =~= first + rows.take(0));
    while i < s.details.len()
        invariant
            i <= s.details@.len(),
            rows == texts(s.details@).map_values(|d: Seq<char>| detail_line(d)),
            out@ == first + rows.take(i as int),
        decreases s.details@.len() - i,
    {
        let mut l = Line::of("  ", plain());
        l.put(&s.details[i], fg(rgb(190, 190, 200)));
        out.put(l);
        i += 1;
        assert(out@ =~= first + rows.take(i as int));
    }
    assert(rows.take(i as int) =~= rows);
    out.put(Line::empty());
    out
}

pub open spec fn steps_lines(steps: Seq<ExplainStep>, n: int) -> Seq<Seq<SpanView>>
    decreases n,
{
    if n <= 0 {
        no_lines()
    } else {
        steps_lines(steps, n - 1) + step_lines(steps[n - 1])
    }
}

fn build_steps(steps: &Vec<ExplainStep>) -> (r: Lines)
    ensures
        r@ == steps_lines(steps@, steps@.len() as int),
{
    let mut out = Lines::none();
    let mut i: usize = 0;
    while i < steps.len()
        invariant
            i <= steps@.len(),
            out@ == steps_lines(steps@, i as int),
        decreases steps@.len() - i,
    {
        out.join(build_step(&steps[i]));
        i += 1;
    }
    out
}

/// An entry of the log in one line.
pub open spec fn entry_line(e: TailEntry) -> Seq<SpanView> {
    ln("  "@ + right(dec(e.idx as nat), 3) + "  "@, fg(gray_80())) + ln(
        (match e.timestamp {
            Some(t) => t@,
            None => "        "@,
        }) + "  "@,
        fg(Color::DarkGray),
    ) + ln(e.kind@, fg(Color::Cyan)) + ln(
        match e.stop_reason {
            Some(s) => " stop="@ + s@,
            None => ""@,
        },
        fg(Color::Yellow),
    ) + ln(
        if e.blocks@.len() == 0 {
            ""@
        } else {
            " ["@ + joined(texts(e.blocks@), ", "@) + "]"@
        },
        fg(context_gray()),
    )
}

fn build_entry(e: &TailEntry) -> (r: Line)
    ensures
        r@ == entry_line(*e),
{
    let time = match &e.timestamp {
        Some(t) => cat2(t, "  "),
        None => cat2("        ", "  "),
    };
    let stop = match &e.stop_reason {
        Some(s) => cat2(" stop=", s),
        None => "".to_owned(),
    };
    let blocks = if e.blocks.len() == 0 {
        "".to_owned()
    } else {
        cat3(" [", &join(&e.blocks, ", "), "]")
    };
    let mut l = Line::of(&cat3("  ", &text_right(&text_count(e.idx), 3), "  "), fg(gray_80()));
    l.put(&time, fg(Color::DarkGray));
    l.put(&e.kind, fg(Color::Cyan));
    l.put(&stop, fg(Color::Yellow));
    l.put(&blocks, fg(context_gray()));
    l
}

pub open spec fn entries_lines(tail: Seq<TailEntry>) -> Seq<Seq<SpanView>> {
    tail.map_values(|e: TailEntry| entry_line(e))
}

fn build_entries(tail: &Vec<TailEntry>) -> (r: Lines)
    ensures
        r@ == entries_lines(tail@),
{
    let mut out = Lines::none();
    let ghost rows = entries_lines(tail@);
    let mut i: usize = 0;
    assert(out@ =~= rows.take(0));
    while i < tail.len()
        invariant
            i <= tail@.len(),
            rows == entries_lines(tail@),
            out@ == rows.take(i as int),
        decreases tail@.len() - i,
    {
        out.put(build_entry(&tail[i]));
        i += 1;
        assert(out@ =~= rows.take(i as int));
    }
    assert(rows.take(i as int) =~= rows);
    out
}

/// What is known of the session, the steps of the decision, and the entries
/// of the log that it was made from.
pub open spec fn explanation(info: SessionInfo, exp: StateExplanation) -> Seq<Seq<SpanView>> {
    facts(info, exp) + seq![blank()] + heading("─── decision tree ───"@) + steps_lines(
        exp.steps@,
        exp.steps@.len() as int,
    ) + heading("─── tail entries (most recent last) ───"@) + entries_lines(exp.tail@)
}

/// The lines that explain the state of a session.
pub fn build_state_debug_content(info: &SessionInfo, exp: &StateExplanation) -> (r: Lines)
    ensures
        r@ == explanation(*info, *exp),
{
    let mut out = build_facts(info, exp);
    out.put(Line::empty());
    out.join(build_heading("─── decision tree ───"));
    out.join(build_steps(&exp.steps));
    out.join(build_heading("─── tail entries (most recent last) ───"));
    out.join(build_entries(&exp.tail));
    out
}

// ---------------------------------------------------------------------------
// The popup
// ---------------------------------------------------------------------------

#[derive(Debug)]
pub struct DebugBody {
    pub total_rows: u16,
    pub scroll: u16,
    pub indicator: String,
    pub indicator_area: Rect,
}

#[derive(Debug)]
pub struct DebugPopup {
    pub area: Rect,
    pub title: String,
    pub title_color: Color,
    pub inner: Rect,
    /// None where nothing is inside the border.
    pub body: Option<DebugBody>,
}

pub open spec fn debug_area(area: Rect) -> Rect {
    middle(area, scaled(area.width as int, share_90()), scaled(area.height as int, share_90()))
}

pub open spec fn debug_title(info: SessionInfo, exp: StateExplanation) -> Seq<char> {
    " Why · "@ + info.project_name@ + " · PID "@ + dec(info.pid as nat) + " · state "@ + exp.final_state.label@ + " "@
}

/// The popup's place and what stands there before the explanation is known.
pub fn render_state_debug_loading(area: Rect) -> (r: (Rect, String))
    requires
        area.fits(),
    ensures
        r.0 == debug_area(area),
        r.1@ == " Why this state? — loading… "@,
{
    (centered_rect(area, share_90()), " Why this state? — loading… ".to_owned())
}

/// The position never leaves the text: the last row can be reached, and
/// nothing below it.
pub open spec fn clamped(scroll: int, total: int, height: int) -> int {
    at_most(scroll, minus(total, height))
}

/// `b` stands over `lines` in the popup.
pub open spec fn debug_shows(b: DebugBody, area: Rect, lines: Seq<Seq<SpanView>>, scroll: int) -> bool {
    let popup = debug_area(area);
    let inner = inside(popup);
    let total = screen_rows(lines, inner.width);
    &&& b.total_rows == total
    &&& b.scroll == clamped(scroll, total, inner.height as int)
    &&& b.indicator@ == position_text(b.scroll as int, total)
    &&& b.indicator_area == (Rect { y: (popup.y + popup.height - 1) as u16, height: 1, ..inner })
}

/// Whether the explanation can be wrapped into the popup, where that has room.
pub open spec fn debug_wraps(area: Rect, lines: Seq<Seq<SpanView>>) -> bool {
    inside(debug_area(area)).height > 0 ==> can_wrap(lines, inside(debug_area(area)).width)
}

pub fn debug_can_wrap(area: Rect, lines: &Lines) -> (r: bool)
    requires
        area.fits(),
    ensures
        r == debug_wraps(area, lines@),
{
    let inner = inner_of(centered_rect(area, share_90()));
    inner.height == 0 || wraps(lines, inner.width)
}

/// Lays the popup out over the explanation in `lines`.
pub fn render_state_debug(
    area: Rect,
    info: &SessionInfo,
    exp: &StateExplanation,
    lines: &Lines,
    scroll: u16,
) -> (r: DebugPopup)
    requires
        area.fits(),
        debug_wraps(area, lines@),
    ensures
        r.area == debug_area(area),
        r.title@ == debug_title(*info, *exp),
        r.title_color == state_color(exp.final_state.state),
        r.inner == inside(r.area),
        r.body is Some <==> r.inner.width > 0 && r.inner.height > 0,
        r.body matches Some(b) ==> debug_shows(b, area, lines@, scroll as int),
{
    let popup = centered_rect(area, share_90());
    let title = cat7(
        " Why · ",
        &info.project_name,
        " · PID ",
        &text_dec(info.pid as u64),
        " · state ",
        &exp.final_state.label,
        " ",
    );
    let title_color = state_color(exp.final_state.state);
    let inner = inner_of(popup);
    if inner.height == 0 || inner.width == 0 {
        return DebugPopup { area: popup, title, title_color, inner, body: None };
    }
    let total: u16 = wrapped_total_rows(lines, inner.width);
    let bottom: u16 = total.saturating_sub(inner.height);
    let s: u16 = if scroll < bottom {
        scroll
    } else {
        bottom
    };
    let last: u16 = total.saturating_sub(1);
    let at: u16 = if s < last {
        s
    } else {
        last
    };
    let body = DebugBody {
        total_rows: total,
        scroll: s,
        indicator: cat5(" ", &text_dec(at as u64 + 1), "/", &text_dec(total as u64), " "),
        indicator_area: Rect {
            x: inner.x,
            y: popup.y + popup.height - 1,
            width: inner.width,
            height: 1,
        },
    };
    DebugPopup { area: popup, title, title_color, inner, body: Some(body) }
}

// ---------------------------------------------------------------------------
// What the explanation tells
// ---------------------------------------------------------------------------

/// The explanation begins with the state, the log, how many entries were read of it and
/// how old it is.
pub proof fn explanation_begins_with_facts(info: SessionInfo, exp: StateExplanation)
    ensures
        ({
            let rows = explanation(info, exp);
            &&& rows.len() >= 9
            &&& line_text(rows[0]) == "Final state: "@ + exp.final_state.label@
            &&& line_text(rows[1]) == "JSONL:       "@ + (match info.jsonl_path {
                Some(p) => p@,
                None => "(no jsonl)"@,
            })
            &&& line_text(rows[2]) == "Tail size:   "@ + (dec(exp.entry_count as nat) + " entries (last 64 KiB)"@)
            &&& line_text(rows[3]) == "mtime age:   "@ + (match exp.mtime_age_secs {
                Some(s) => dec(s as nat) + "s"@,
                None => "unknown"@,
            })
            &&& line_text(rows[5]) == "─── decision tree ───"@
        }),
{
    broadcast use {crate::style::joined_line_text, crate::style::span_line_text, crate::style::blank_line_text};

    let rows = explanation(info, exp);
    let head = facts(info, exp);
    assert(forall|i: int| 0 <= i < 4 ==> rows[i] == head[i]);
    assert(rows[5] == heading("─── decision tree ───"@)[0]);
}

proof fn lemma_steps_before(a: Seq<ExplainStep>, b: Seq<ExplainStep>, n: int)
    requires
        0 <= n <= a.len() <= b.len(),
        forall|i: int| 0 <= i < a.len() ==> a[i] == b[i],
    ensures
        steps_lines(a, n) == steps_lines(b, n),
    decreases n,
{
    if n > 0 {
        lemma_steps_before(a, b, n - 1);
    }
}

/// One more step adds its verdict and its name, each of its details two columns in, and
/// an empty row, below the steps before it and above the entries of the log.
pub proof fn steps_are_appended(info: SessionInfo, a: StateExplanation, b: StateExplanation, s: ExplainStep, k: int)
    requires
        b.steps@ == a.steps@.push(s),
        b.final_state == a.final_state && b.entry_count == a.entry_count && b.mtime_age_secs == a.mtime_age_secs,
        b.tail == a.tail,
        0 <= k < s.details@.len(),
    ensures
        ({
            let before = explanation(info, a);
            let after = explanation(info, b);
            let at = before.len() - a.tail@.len() - 2;
            let n = 2 + s.details@.len();
            let verdict = match s.verdict {
                Verdict::Decided(d) => "DECIDE → "@ + d.label@,
                Verdict::Passed => "PASS"@,
                Verdict::Skipped => "SKIP"@,
            };
            &&& at >= 7
            &&& after.len() == before.len() + n
            &&& after.take(at) == before.take(at)
            &&& line_text(after[at]) == ("["@ + verdict + "] "@) + s.name@
            &&& line_text(after[at + 1 + k]) == "  "@ + s.details@[k]@
            &&& line_text(after[at + n - 1]) == Seq::<char>::empty()
            &&& after.skip(at + n) == before.skip(at)
        }),
{
    broadcast use {crate::style::joined_line_text, crate::style::span_line_text, crate::style::blank_line_text};

    lemma_steps_before(a.steps@, b.steps@, a.steps@.len() as int);
    let before = explanation(info, a);
    let after = explanation(info, b);
    let at = before.len() - a.tail@.len() - 2;
    let n = 2 + s.details@.len();
    let head = facts(info, a) + seq![blank()] + heading("─── decision tree ───"@);
    let steps = steps_lines(a.steps@, a.steps@.len() as int);
    let foot = heading("─── tail entries (most recent last) ───"@) + entries_lines(a.tail@);
    let added = step_lines(s);
    assert(before =~= head + steps + foot);
    assert(after =~= head + steps + added + foot);
    lemma_put_between(head + steps, added, foot);
    assert(after[at] == added[0]);
    assert(after[at + 1 + k] == added[1 + k]);
    assert(after[at + n - 1] == added[n - 1]);
    let details = texts(s.details@).map_values(|d: Seq<char>| detail_line(d));
    assert(details[k] == detail_line(s.details@[k]@));
    assert(added[1 + k] == details[k]);
}

proof fn lemma_put_between(a: Seq<Seq<SpanView>>, b: Seq<Seq<SpanView>>, c: Seq<Seq<SpanView>>)
    ensures
        (a + b + c).take(a.len() as int) == (a + c).take(a.len() as int),
        (a + b + c).skip((a.len() + b.len()) as int) == (a + c).skip(a.len() as int),
        forall|i: int| 0 <= i < b.len() ==> (a + b + c)[a.len() + i] == #[trigger] b[i],
{
    assert((a + b + c).take(a.len() as int) =~= a);
    assert((a + c).take(a.len() as int) =~= a);
    assert((a + b + c).skip((a.len() + b.len()) as int) =~= c);
    assert((a + c).skip(a.len() as int) =~= c);
}

/// The explanation ends with a row for each entry of the log: its number, its time, its
/// kind, why it stopped and what it holds.
pub proof fn explanation_ends_with_entries(info: SessionInfo, exp: StateExplanation, k: int)
    requires
        0 <= k < exp.tail@.len(),
    ensures
        ({
            let rows = explanation(info, exp);
            let n = exp.tail@.len();
            let e = exp.tail@[k];
            let time = match e.timestamp {
                Some(t) => t@,
                None => "        "@,
            };
            let stop = match e.stop_reason {
                Some(s) => " stop="@ + s@,
                None => ""@,
            };
            let blocks = if e.blocks@.len() == 0 {
                ""@
            } else {
                " ["@ + joined(texts(e.blocks@), ", "@) + "]"@
            };
            &&& rows.len() >= n
            &&& line_text(rows[rows.len() - n + k]) == ("  "@ + right(dec(e.idx as nat), 3) + "  "@) + (time + "  "@)
                + e.kind@ + stop + blocks
            &&& line_text(rows[rows.len() - n - 2]) == "─── tail entries (most recent last) ───"@
        }),
{
    broadcast use {crate::style::joined_line_text, crate::style::span_line_text, crate::style::blank_line_text};

    let rows = explanation(info, exp);
    let n = exp.tail@.len();
    let own = entries_lines(exp.tail@);
    assert(own[k] == entry_line(exp.tail@[k]));
    assert(rows[rows.len() - n + k] == own[k]);
    assert(rows[rows.len() - n - 2] == heading("─── tail entries (most recent last) ───"@)[0]);
}

/// The title names the project, the process and the state.
pub proof fn explanation_names_the_session(info: SessionInfo, exp: StateExplanation)
    ensures
        debug_title(info, exp) == " Why · "@ + info.project_name@ + " · PID "@ + dec(info.pid as nat) + " · state "@
            + exp.final_state.label@ + " "@,
{
}

/// The explanation can be scrolled to its last row and no further, and the border says which
/// row is at the top.
pub proof fn explanations_scroll_to_their_end(b: DebugBody, area: Rect, lines: Seq<Seq<SpanView>>, scroll: int)
    requires
        debug_shows(b, area, lines, scroll),
        0 <= scroll,
        b.total_rows > inside(debug_area(area)).height,
        inside(debug_area(area)).height > 0,
    ensures
        b.scroll <= scroll,
        b.scroll + inside(debug_area(area)).height <= b.total_rows,
        scroll + inside(debug_area(area)).height <= b.total_rows ==> b.scroll == scroll,
        scroll + inside(debug_area(area)).height > b.total_rows ==> b.scroll + inside(debug_area(area)).height
            == b.total_rows,
        b.indicator@ == " "@ + dec((b.scroll + 1) as nat) + "/"@ + dec(b.total_rows as nat) + " "@,
{
}

} // verus!
