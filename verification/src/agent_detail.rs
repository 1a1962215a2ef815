//! The popup on one agent: how it is doing, and its runs, reports, log or
//! settings.

use crate::agents::{
    age, age_text, clock, cut_line, event_label, event_text, on_one_line, one_line, or_else, pad, pad_left, padded,
    reads_clock, status_color, status_icon, status_indicator, text_or_else, truncate_line, AgentSnapshot, AgentSpec, AgentStatus,
    LogLine, Note, Run, SettingRow, TickRecord,
};
use crate::common::{duration_text, format_duration_secs};
use crate::geometry::{centered_rect, inner_of, inside, middle, scaled, share_90, Rect};
use crate::metrics::follow;
use crate::models::{first_line_truncated, opt, short_line};
use crate::palette::{accent_blue, dim_text, faint_text, label_gray, sep_gray};
use crate::parts::{join, joined, push_text, texts};
use crate::rounding::{format_tokens, tokens};
use crate::sessions::{spinner, spinner_frame};
use crate::style::{blank, fg, line_text, ln, no_lines, plain, Color, Line, Lines, SpanView, Style};
use crate::text::{
    at_least, at_most, cat2, cat3, cat4, cat5, cat6, dec, fill, minus, right, same, text_count, text_dec, text_fill,
};
use crate::wrap::{wrap_lines, wrapped_lines};
use vstd::prelude::*;

verus! {

broadcast use vstd::string::group_string_axioms;

// ---------------------------------------------------------------------------
// Home
// ---------------------------------------------------------------------------

/// `dirs::home_dir` as a text. Nothing is stated of it: it is the user's.
#[verifier::external_body]
pub(crate) fn home_dir() -> (r: Option<String>) {
    dirs::home_dir().map(|h| h.display().to_string())
}

/// What `std::path::Path::strip_prefix` leaves of a path below another.
pub uninterp spec fn path_below(path: Seq<char>, base: Seq<char>) -> Option<Seq<char>>;

/// `std::path::Path::strip_prefix`: what is left of the path where it lies
/// below the other or is the same, a function of the two.
#[verifier::external_body]
fn below(path: &str, base: &str) -> (r: Option<String>)
    ensures
        opt(r) == path_below(path@, base@),
{
    std::path::Path::new(path).strip_prefix(base).ok().map(|p| p.display().to_string())
}

/// A path, with `~/` for the home directory where it lies below that.
pub open spec fn tilde_path(path: Seq<char>, home: Option<Seq<char>>) -> Seq<char> {
    match home {
        Some(h) => match path_below(path, h) {
            Some(rest) => "~/"@ + rest,
            None => path,
        },
        None => path,
    }
}

/// A path as a person writes it who lives in `home`.
pub fn tilde(path: &str, home: &Option<String>) -> (r: String)
    ensures
        r@ == tilde_path(path@, opt(*home)),
{
    match home {
        Some(h) => match below(path, h) {
            Some(rest) => cat2("~/", &rest),
            None => path.to_owned(),
        },
        None => path.to_owned(),
    }
}

// ---------------------------------------------------------------------------
// The head
// ---------------------------------------------------------------------------

/// The first `max` of several rows, indented.
pub open spec fn indented(rows: Seq<Seq<char>>, max: int, style: Style) -> Seq<Seq<SpanView>> {
    Seq::new(at_most(rows.len() as int, max) as nat, |i: int| ln("  "@ + rows[i], style))
}

/// A text broken into rows of `width` columns, the first `max` of them.
pub open spec fn indented_text(text: Seq<char>, width: int, max: int, style: Style) -> Seq<Seq<SpanView>> {
    indented(wrapped_lines(text, minus(width, 2)), max, style)
}

fn build_indented(text: &str, width: usize, max: usize, style: Style) -> (r: Lines)
    ensures
        r@ == indented_text(text@, width as int, max as int, style),
{
    let rows = wrap_lines(text, width.saturating_sub(2));
    let n: usize = if rows.len() < max {
        rows.len()
    } else {
        max
    };
    let ghost all = indented(texts(rows@), max as int, style);
    assert(texts(rows@).len() == rows@.len());
    let mut out = Lines::none();
    let mut i: usize = 0;
    assert(out@ =~= all.take(0));
    while i < n
        invariant
            i <= n <= rows@.len(),
            n == all.len(),
            all == indented(texts(rows@), max as int, style),
            out@ == all.take(i as int),
        decreases n - i,
    {
        assert(texts(rows@)[i as int] == rows@[i as int]@);
        out.put(Line::of(&cat2("  ", &rows[i]), style));
        i += 1;
        assert(out@ =~= all.take(i as int));
    }
    assert(all.take(i as int) =~= all);
    out
}

pub open spec fn lead(s: AgentStatus, text: Seq<char>) -> Seq<Seq<SpanView>> {
    seq![
        ln(status_icon(s) + " "@, fg(status_color(s))) + ln(text, fg(status_color(s)).bold()),
    ]
}

fn build_lead(s: AgentStatus, text: &str) -> (r: Lines)
    ensures
        r@ == lead(s, text@),
{
    let (icon, color) = status_indicator(s);
    let mut l = Line::of(&cat2(&icon, " "), fg(color));
    l.put(text, fg(color).bold());
    Lines::of(l)
}

/// What the agent is for.
pub open spec fn purpose(a: AgentSnapshot, width: int) -> Seq<Seq<SpanView>> {
    if a.description@.len() == 0 {
        no_lines()
    } else {
        seq![ln(short_line(a.description@, width), fg(dim_text()))] + seq![blank()]
    }
}

/// What the user has to know or do about the agent's status.
pub open spec fn status_lines(a: AgentSnapshot, now: int, width: int) -> Seq<Seq<SpanView>> {
    match a.status {
        AgentStatus::Broken => lead(
            a.status,
            "agent.toml doesn't load — n opens "@ + a.assistant@ + " in its folder to fix it"@,
        ) + (match a.spec {
            Err(e) => indented_text(e@, width, 3, fg(Color::Red)),
            Ok(_) => no_lines(),
        }),
        AgentStatus::Halted => lead(
            a.status,
            "Halted: "@ + or_else(a.stopped_reason, ""@) + " — space resumes it"@,
        ),
        AgentStatus::Disabled => lead(a.status, "Off — space turns it on"@),
        AgentStatus::Paused => lead(a.status, "Paused — space resumes it"@),
        AgentStatus::Ticking => match a.ticking {
            Some(t) => lead(
                a.status,
                "Running for "@ + age_text(now, t.since as int) + " · "@ + event_text(opt(t.event)),
            ),
            None => no_lines(),
        },
        AgentStatus::Sleeping => no_lines(),
    }
}

fn build_status(a: &AgentSnapshot, now: i64, width: usize) -> (r: Lines)
    ensures
        r@ == status_lines(*a, now as int, width as int),
{
    match a.status {
        AgentStatus::Broken => {
            let mut out = build_lead(
                a.status,
                &cat3("agent.toml doesn't load — n opens ", &a.assistant, " in its folder to fix it"),
            );
            let why = match &a.spec {
                Err(e) => build_indented(e, width, 3, fg(Color::Red)),
                Ok(_) => Lines::none(),
            };
            out.join(why);
            out
        },
        AgentStatus::Halted => build_lead(
            a.status,
            &cat3("Halted: ", &text_or_else(&a.stopped_reason, ""), " — space resumes it"),
        ),
        AgentStatus::Disabled => build_lead(a.status, "Off — space turns it on"),
        AgentStatus::Paused => build_lead(a.status, "Paused — space resumes it"),
        AgentStatus::Ticking => match &a.ticking {
            Some(t) => build_lead(
                a.status,
                &cat4("Running for ", &age(now, t.since), " · ", &event_label(&t.event)),
            ),
            None => Lines::none(),
        },
        AgentStatus::Sleeping => Lines::none(),
    }
}

/// A last run that worked.
pub open spec fn good_run(rec: TickRecord, now: int, width: int) -> Seq<Seq<SpanView>> {
    seq![
        ln("✓ "@, fg(Color::Green)) + ln(
            "Last run "@ + age_text(now, rec.at as int) + " ago"@,
            fg(Color::White),
        ) + ln(
            " · "@ + dec(rec.turns as nat) + " turns · "@ + duration_text(rec.duration_s as nat) + " · "@
                + rec.cost@,
            fg(dim_text()),
        ),
    ] + if rec.result@.len() > 0 {
        indented_text(rec.result@, width, 1, fg(faint_text()))
    } else {
        no_lines()
    }
}

/// A last run that failed, with what it said.
pub open spec fn failed_run(rec: TickRecord, now: int, width: int) -> Seq<Seq<SpanView>> {
    seq![
        ln("✗ "@, fg(Color::Red)) + ln(
            "Last run failed "@ + age_text(now, rec.at as int) + " ago"@,
            fg(Color::Red).bold(),
        ) + ln(" · "@ + or_else(rec.subtype, "error"@), fg(dim_text())),
    ] + indented_text(rec.result@, width, 2, fg(faint_text())) + (match rec.detail {
        Some(d) => indented_text(d@, width, 1, fg(dim_text())),
        None => no_lines(),
    })
}

/// How the last run went.
pub open spec fn run_lines(a: AgentSnapshot, now: int, width: int) -> Seq<Seq<SpanView>> {
    match a.last_run {
        Some(rec) => if rec.ok {
            good_run(rec, now, width)
        } else {
            failed_run(rec, now, width)
        },
        None => if a.ticking is None {
            seq![ln("No runs yet — p runs it now"@, fg(dim_text()))]
        } else {
            no_lines()
        },
    }
}

fn build_last_run(a: &AgentSnapshot, now: i64, width: usize) -> (r: Lines)
    ensures
        r@ == run_lines(*a, now as int, width as int),
{
    match &a.last_run {
        Some(rec) => if rec.ok {
            let mut l = Line::of("✓ ", fg(Color::Green));
            l.put(&cat3("Last run ", &age(now, rec.at), " ago"), fg(Color::White));
            l.put(
                &cat6(
                    " · ",
                    &text_dec(rec.turns),
                    " turns · ",
                    &format_duration_secs(rec.duration_s),
                    " · ",
                    &rec.cost,
                ),
                fg(dim_text()),
            );
            let mut out = Lines::of(l);
            let said = if !rec.result.as_str().is_empty() {
                build_indented(&rec.result, width, 1, fg(faint_text()))
            } else {
                Lines::none()
            };
            out.join(said);
            out
        } else {
            let mut l = Line::of("✗ ", fg(Color::Red));
            l.put(&cat3("Last run failed ", &age(now, rec.at), " ago"), fg(Color::Red).bold());
            l.put(&cat2(" · ", &text_or_else(&rec.subtype, "error")), fg(dim_text()));
            let mut out = Lines::of(l);
            out.join(build_indented(&rec.result, width, 2, fg(faint_text())));
            let more = match &rec.detail {
                Some(d) => build_indented(d, width, 1, fg(dim_text())),
                None => Lines::none(),
            };
            out.join(more);
            out
        },
        None => if a.ticking.is_none() {
            Lines::of(Line::of("No runs yet — p runs it now", fg(dim_text())))
        } else {
            Lines::none()
        },
    }
}

/// What the agent is for, and the one or two facts that decide whether
/// anything has to be done.
pub open spec fn headlines(a: AgentSnapshot, now: int, width: int) -> Seq<Seq<SpanView>> {
    purpose(a, width) + status_lines(a, now, width) + run_lines(a, now, width)
}

pub fn headline(a: &AgentSnapshot, now: i64, width: usize) -> (r: Lines)
    ensures
        r@ == headlines(*a, now as int, width as int),
{
    let mut out = if a.description.as_str().is_empty() {
        Lines::none()
    } else {
        let mut l = Lines::of(Line::of(&first_line_truncated(&a.description, width), fg(dim_text())));
        l.put(Line::empty());
        l
    };
    out.join(build_status(a, now, width));
    out.join(build_last_run(a, now, width));
    out
}

#[derive(Clone, Copy, Debug, PartialEq, Eq, Structural)]
pub enum Section {
    Runs,
    Artifacts,
    Log,
    Settings,
}

pub open spec fn section_label(s: Section) -> Seq<char> {
    match s {
        Section::Runs => "Runs"@,
        Section::Artifacts => "Artifacts"@,
        Section::Log => "Log"@,
        Section::Settings => "Settings"@,
    }
}

/// A section's name, and how much is in it.
pub open spec fn section_tab(s: Section, active: Section, count: int) -> Seq<SpanView> {
    ln(
        section_label(s),
        if s == active {
            fg(Color::White).bold().underlined()
        } else {
            fg(label_gray())
        },
    ) + if count > 0 {
        ln(" "@ + dec(count as nat), fg(dim_text()))
    } else {
        blank()
    }
}

pub open spec fn sections(a: AgentSnapshot, active: Section) -> Seq<SpanView> {
    section_tab(Section::Runs, active, a.runs@.len() as int) + ln("   "@, plain()) + section_tab(
        Section::Artifacts,
        active,
        a.notes@.len() as int,
    ) + ln("   "@, plain()) + section_tab(Section::Log, active, 0) + ln("   "@, plain()) + section_tab(
        Section::Settings,
        active,
        0,
    )
}

fn build_section_tab(s: Section, active: Section, count: usize) -> (r: Line)
    ensures
        r@ == section_tab(s, active, count as int),
{
    let label = match s {
        Section::Runs => "Runs",
        Section::Artifacts => "Artifacts",
        Section::Log => "Log",
        Section::Settings => "Settings",
    };
    let style = if s == active {
        fg(Color::White).bold().underlined()
    } else {
        fg(label_gray())
    };
    let mut l = Line::of(label, style);
    let many = if count > 0 {
        Line::of(&cat2(" ", &text_count(count)), fg(dim_text()))
    } else {
        Line::empty()
    };
    l.join(many);
    l
}

pub fn section_strip(a: &AgentSnapshot, active: Section) -> (r: Line)
    ensures
        r@ == sections(*a, active),
{
    let mut l = build_section_tab(Section::Runs, active, a.runs.len());
    l.put("   ", plain());
    l.join(build_section_tab(Section::Artifacts, active, a.notes.len()));
    l.put("   ", plain());
    l.join(build_section_tab(Section::Log, active, 0));
    l.put("   ", plain());
    l.join(build_section_tab(Section::Settings, active, 0));
    l
}

// ---------------------------------------------------------------------------
// Lists and panes
// ---------------------------------------------------------------------------

/// The rows of the list: as many as there are, but the pane gets a third of
/// the body and at least five rows, and the list at least one.
pub open spec fn list_height(height: int, rows: int) -> int {
    at_most(at_least(at_most(rows, minus(height, at_least(height / 3, 5))), 1), height)
}

pub open spec fn list_part(body: Rect, rows: int) -> Rect {
    Rect { height: list_height(body.height as int, rows) as u16, ..body }
}

pub open spec fn pane_part(body: Rect, rows: int) -> Rect {
    let h = list_height(body.height as int, rows);
    Rect { y: (body.y + h) as u16, height: (body.height - h) as u16, ..body }
}

/// Splits a body into a list of so many rows and the pane below it.
pub fn split_body(body: Rect, rows: usize) -> (r: (Rect, Rect))
    requires
        body.fits(),
    ensures
        r.0 == list_part(body, rows as u16 as int),
        r.1 == pane_part(body, rows as u16 as int),
        r.0.within(body),
        r.1.within(body),
{
    let third: u16 = body.height / 3;
    let pane_min: u16 = if third > 5 {
        third
    } else {
        5
    };
    let room: u16 = body.height.saturating_sub(pane_min);
    let count: u16 = #[verifier::truncate] (rows as u16);
    let h: u16 = if count < room {
        count
    } else {
        room
    };
    let h: u16 = if h < 1 {
        1
    } else {
        h
    };
    let h: u16 = if h < body.height {
        h
    } else {
        body.height
    };
    (
        Rect { x: body.x, y: body.y, width: body.width, height: h },
        Rect { x: body.x, y: body.y + h, width: body.width, height: body.height - h },
    )
}

/// However long the list, the pane keeps at least a third of a body of six
/// rows or more, and list and pane together fill the body.
pub proof fn pane_keeps_a_third(height: int, rows: int)
    requires
        6 <= height,
        0 <= rows,
    ensures
        1 <= list_height(height, rows) <= height,
        height - list_height(height, rows) >= height / 3,
        height - list_height(height, rows) >= 5,
{
}

/// The rows of a list that are on the screen, from the top down.
#[derive(Debug)]
pub struct ListView {
    pub scroll: usize,
    /// The selected row, counted from the first of all.
    pub cursor: usize,
    pub lines: Lines,
}

/// A row of a list behind its stripe.
pub open spec fn striped(row: Seq<SpanView>, selected: bool, width: int) -> Seq<SpanView> {
    cut_line(
        (if selected {
            ln("▌"@, fg(Color::White))
        } else {
            ln(" "@, plain())
        }) + row,
        width,
    )
}

pub open spec fn on_list(count: int, cursor: int) -> int {
    at_most(cursor, minus(count, 1))
}

pub open spec fn nth_striped(rows: Seq<Seq<SpanView>>, cursor: int, width: int, i: int) -> Seq<SpanView> {
    striped(rows[i], i == cursor, width)
}

/// `v` shows the rows in `area`, with the cursor's on the screen.
pub open spec fn list_shows(v: ListView, area: Rect, rows: Seq<Seq<SpanView>>, cursor: int, scroll: int) -> bool {
    let h = area.height as int;
    let c = on_list(rows.len() as int, cursor);
    let s = follow(rows.len() as int, h, Some(c), scroll);
    &&& v.cursor == c
    &&& v.scroll == if h == 0 {
        scroll
    } else {
        s
    }
    &&& v.lines@ == if h == 0 {
        no_lines()
    } else {
        Seq::new(
            at_most(h, rows.len() - s) as nat,
            |k: int| nth_striped(rows, c, area.width as int, s + k),
        )
    }
}

/// Shows the rows of a list that fit, the cursor's among them. A list without
/// rows shows nothing, from the top.
pub fn render_list(area: Rect, rows: &Lines, cursor: usize, scroll: usize) -> (r: ListView)
    ensures
        list_shows(r, area, rows@, cursor as int, scroll as int),
        rows@.len() == 0 ==> r.cursor == 0 && r.lines@ == no_lines() && (area.height > 0 ==> r.scroll == 0),
{
    let h: usize = area.height as usize;
    let count: usize = rows.len();
    let last: usize = count.saturating_sub(1);
    let c: usize = if cursor < last {
        cursor
    } else {
        last
    };
    if h == 0 {
        return ListView { scroll, cursor: c, lines: Lines::none() };
    }
    let s: usize = if c < scroll {
        c
    } else if c - scroll >= h {
        c - (h - 1)
    } else {
        scroll
    };
    let bottom: usize = count.saturating_sub(h);
    let s: usize = if s < bottom {
        s
    } else {
        bottom
    };
    let n: usize = if h < count - s {
        h
    } else {
        count - s
    };
    let width: usize = area.width as usize;
    let ghost all = Seq::new(n as nat, |k: int| nth_striped(rows@, c as int, width as int, s + k));
    let mut out = Lines::none();
    let mut k: usize = 0;
    assert(out@ =~= all.take(0));
    while k < n
        invariant
            k <= n,
            n == all.len(),
            s + n <= count,
            count == rows@.len(),
            rows@.len() == rows.rows@.len(),
            all == Seq::new(n as nat, |k: int| nth_striped(rows@, c as int, width as int, s + k)),
            out@ == all.take(k as int),
        decreases n - k,
    {
        let i: usize = s + k;
        let mut l = if i == c {
            Line::of("▌", fg(Color::White))
        } else {
            Line::of(" ", plain())
        };
        l.join(rows.rows[i].copy());
        out.put(truncate_line(l, width));
        assert(all[k as int] == nth_striped(rows@, c as int, width as int, i as int));
        k += 1;
        assert(out@ =~= all.take(k as int));
    }
    assert(all.take(k as int) =~= all);
    ListView { scroll: s, cursor: c, lines: out }
}

/// A rule, and the text below it.
#[derive(Debug)]
pub struct Pane {
    pub rule_area: Rect,
    pub rule: Line,
    pub area: Rect,
    pub lines: Lines,
}

pub open spec fn rule_line(width: int) -> Seq<SpanView> {
    ln(fill('─', width), fg(sep_gray()))
}

/// `p` shows the text in `area`, unless that has fewer than two rows.
pub open spec fn pane_shows(p: Option<Pane>, area: Rect, lines: Seq<Seq<SpanView>>) -> bool {
    match p {
        None => area.height < 2,
        Some(p) => {
            &&& area.height >= 2
            &&& p.rule_area == (Rect { height: 1, ..area })
            &&& p.rule@ == rule_line(area.width as int)
            &&& p.area == (Rect { y: (area.y + 1) as u16, height: (area.height - 1) as u16, ..area })
            &&& p.lines@ == lines
        },
    }
}

pub fn render_pane(area: Rect, lines: Lines) -> (r: Option<Pane>)
    requires
        area.fits(),
    ensures
        pane_shows(r, area, lines@),
{
    if area.height < 2 {
        return None;
    }
    Some(
        Pane {
            rule_area: Rect { x: area.x, y: area.y, width: area.width, height: 1 },
            rule: Line::of(&text_fill('─', area.width as usize), fg(sep_gray())),
            area: Rect {
                x: area.x,
                y: area.y + 1,
                width: area.width,
                height: area.height - 1,
            },
            lines,
        },
    )
}

/// What a section shows.
#[derive(Debug)]
pub enum SectionView {
    /// There is nothing in it, or nothing to choose from.
    Text(Lines),
    List { area: Rect, list: ListView, pane: Option<Pane> },
}

pub open spec fn empty_text(text: Seq<char>) -> Seq<Seq<SpanView>> {
    seq![ln(" "@ + text, fg(dim_text()))]
}

fn empty(text: &str) -> (r: SectionView)
    ensures
        text_shows(r, empty_text(text@)),
{
    SectionView::Text(Lines::of(Line::of(&cat2(" ", text), fg(dim_text()))))
}

pub open spec fn text_shows(v: SectionView, lines: Seq<Seq<SpanView>>) -> bool {
    match v {
        SectionView::Text(l) => l@ == lines,
        _ => false,
    }
}

/// `v` shows a list and the pane on its selected row below it.
pub open spec fn split_shows(
    v: SectionView,
    body: Rect,
    rows: Seq<Seq<SpanView>>,
    cursor: int,
    scroll: int,
    pane_lines: Seq<Seq<SpanView>>,
) -> bool {
    let n = rows.len() as u16 as int;
    match v {
        SectionView::List { area, list, pane } => {
            &&& area == list_part(body, n)
            &&& list_shows(list, area, rows, cursor, scroll)
            &&& pane_shows(pane, pane_part(body, n), pane_lines)
        },
        _ => false,
    }
}

fn split_view(body: Rect, rows: Lines, cursor: usize, scroll: usize, pane_lines: Lines) -> (r: SectionView)
    requires
        body.fits(),
        rows@.len() > 0,
    ensures
        split_shows(r, body, rows@, cursor as int, scroll as int, pane_lines@),
{
    let (area, below_area) = split_body(body, rows.len());
    let list = render_list(area, &rows, cursor, scroll);
    SectionView::List { area, list, pane: render_pane(below_area, pane_lines) }
}

// ---------------------------------------------------------------------------
// Runs
// ---------------------------------------------------------------------------

pub const RUN_N_W: usize = 6;

pub const RUN_AGE_W: usize = 9;

pub const RUN_EVENT_W: usize = 14;

pub const RUN_DUR_W: usize = 7;

pub const RUN_COST_W: usize = 7;

/// The number, the age and the event of a run.
pub open spec fn run_cells(n: u64, at: int, event: Option<String>, now: int) -> Seq<SpanView> {
    ln(padded("#"@ + dec(n as nat), RUN_N_W as int), fg(label_gray())) + ln(
        padded(age_text(now, at) + " ago"@, RUN_AGE_W as int),
        fg(dim_text()),
    ) + ln(padded(event_text(opt(event)), RUN_EVENT_W as int), fg(faint_text()))
}

fn build_run_cells(n: u64, at: i64, event: &Option<String>, now: i64) -> (r: Line)
    ensures
        r@ == run_cells(n, at as int, *event, now as int),
{
    let mut l = Line::of(&pad(&cat2("#", &text_dec(n)), RUN_N_W), fg(label_gray()));
    l.put(&pad(&cat2(&age(now, at), " ago"), RUN_AGE_W), fg(dim_text()));
    l.put(&pad(&event_label(event), RUN_EVENT_W), fg(faint_text()));
    l
}

pub open spec fn outcome(rec: TickRecord) -> Seq<SpanView> {
    if rec.ok {
        ln(on_one_line(rec.result@), fg(faint_text()))
    } else {
        ln(or_else(rec.subtype, "failed"@), fg(Color::Red))
    }
}

/// A run in one row.
pub open spec fn run_line(run: Run, now: int, now_ms: int) -> Seq<SpanView> {
    match run {
        Run::InFlight { n, ticking } => ln(spinner(now_ms) + " "@, fg(Color::Green)) + run_cells(
            n,
            ticking.since as int,
            ticking.event,
            now,
        ) + ln(fill(' ', RUN_DUR_W + RUN_COST_W + 2), plain()) + ln("running…"@, fg(Color::Green)),
        Run::Done { n, rec } => (if rec.ok {
            ln("✓ "@, fg(Color::Green))
        } else {
            ln("✗ "@, fg(Color::Red))
        }) + run_cells(n, rec.at as int, rec.event, now) + ln(
            right(duration_text(rec.duration_s as nat), RUN_DUR_W as int),
            fg(dim_text()),
        ) + ln(right(rec.cost@, RUN_COST_W as int), fg(dim_text())) + ln("  "@, plain()) + outcome(rec),
    }
}

pub fn run_row(run: &Run, now: i64, now_ms: u64) -> (r: Line)
    ensures
        r@ == run_line(*run, now as int, now_ms as int),
{
    match run {
        Run::InFlight { n, ticking } => {
            let mut l = Line::of(&cat2(&spinner_frame(now_ms), " "), fg(Color::Green));
            l.join(build_run_cells(*n, ticking.since, &ticking.event, now));
            l.put(&text_fill(' ', RUN_DUR_W + RUN_COST_W + 2), plain());
            l.put("running…", fg(Color::Green));
            l
        },
        Run::Done { n, rec } => {
            let mut l = if rec.ok {
                Line::of("✓ ", fg(Color::Green))
            } else {
                Line::of("✗ ", fg(Color::Red))
            };
            l.join(build_run_cells(*n, rec.at, &rec.event, now));
            l.put(&pad_left(&format_duration_secs(rec.duration_s), RUN_DUR_W), fg(dim_text()));
            l.put(&pad_left(&rec.cost, RUN_COST_W), fg(dim_text()));
            l.put("  ", plain());
            let end = if rec.ok {
                Line::of(&one_line(&rec.result), fg(faint_text()))
            } else {
                Line::of(&text_or_else(&rec.subtype, "failed"), fg(Color::Red))
            };
            l.join(end);
            l
        },
    }
}

/// What is known of a run: why it failed, when it was, how long it took, its
/// turns, its cost, its context and its compactions. `time` is when it was.
pub open spec fn facts(rec: TickRecord, time: Seq<char>) -> Seq<Seq<char>> {
    (if !rec.ok {
        seq![or_else(rec.subtype, "failed"@)]
    } else {
        Seq::empty()
    }) + seq![
        time,
        duration_text(rec.duration_s as nat),
        dec(rec.turns as nat) + " turns"@,
        rec.cost@,
    ] + (if rec.context_end > 0 {
        seq![
            "context "@ + tokens(rec.context_start as nat) + " → "@ + tokens(rec.context_end as nat),
        ]
    } else {
        Seq::empty()
    }) + (if rec.compactions > 0 {
        seq![dec(rec.compactions as nat) + " compactions"@]
    } else {
        Seq::empty()
    })
}

pub fn run_facts(rec: &TickRecord, time: &str) -> (r: String)
    ensures
        r@ == joined(facts(*rec, time@), " · "@),
{
    let mut v: Vec<String> = Vec::new();
    if !rec.ok {
        push_text(&mut v, text_or_else(&rec.subtype, "failed"));
    }
    push_text(&mut v, time.to_owned());
    push_text(&mut v, format_duration_secs(rec.duration_s));
    push_text(&mut v, cat2(&text_dec(rec.turns), " turns"));
    push_text(&mut v, rec.cost.as_str().to_owned());
    if rec.context_end > 0 {
        push_text(
            &mut v,
            cat4("context ", &format_tokens(rec.context_start), " → ", &format_tokens(rec.context_end)),
        );
    }
    if rec.compactions > 0 {
        push_text(&mut v, cat2(&text_dec(rec.compactions), " compactions"));
    }
    assert(texts(v@) =~= facts(*rec, time@));
    join(&v, " · ")
}

pub open spec fn one_if(o: Option<String>, before: Seq<char>, style: Style) -> Seq<Seq<SpanView>> {
    match o {
        Some(s) => seq![ln(before + s@, style)],
        None => no_lines(),
    }
}

fn build_one_if(o: &Option<String>, before: &str, style: Style) -> (r: Lines)
    ensures
        r@ == one_if(*o, before@, style),
{
    match o {
        Some(s) => Lines::of(Line::of(&cat2(before, s), style)),
        None => Lines::none(),
    }
}

/// A run spelled out. `time` is when it was.
pub open spec fn run_text(run: Run, time: Seq<char>) -> Seq<Seq<SpanView>> {
    match run {
        Run::InFlight { n, ticking } => seq![
            ln("#"@ + dec(n as nat) + " "@, fg(label_gray())) + ln(
                "running since "@ + time + " · "@ + event_text(opt(ticking.event)),
                fg(Color::Green),
            ),
        ] + seq![ln("f follows it live."@, fg(dim_text()))],
        Run::Done { n, rec } => seq![
            ln("#"@ + dec(n as nat) + " "@, fg(label_gray())) + ln(
                joined(facts(rec, time), " · "@),
                fg(dim_text()),
            ),
        ] + (if rec.result@.len() > 0 {
            seq![
                ln(
                    rec.result@,
                    fg(
                        if rec.ok {
                            faint_text()
                        } else {
                            Color::Red
                        },
                    ),
                ),
            ]
        } else {
            no_lines()
        }) + one_if(rec.detail, "stderr: "@, fg(dim_text())) + one_if(
            rec.event,
            "event "@,
            fg(dim_text()),
        ),
    }
}

pub fn run_pane(run: &Run, time: &str) -> (r: Lines)
    ensures
        r@ == run_text(*run, time@),
{
    match run {
        Run::InFlight { n, ticking } => {
            let mut l = Line::of(&cat3("#", &text_dec(*n), " "), fg(label_gray()));
            l.put(
                &cat4("running since ", time, " · ", &event_label(&ticking.event)),
                fg(Color::Green),
            );
            let mut out = Lines::of(l);
            out.put(Line::of("f follows it live.", fg(dim_text())));
            out
        },
        Run::Done { n, rec } => {
            let mut l = Line::of(&cat3("#", &text_dec(*n), " "), fg(label_gray()));
            l.put(&run_facts(rec, time), fg(dim_text()));
            let mut out = Lines::of(l);
            let color = if rec.ok {
                faint_text()
            } else {
                Color::Red
            };
            let said = if !rec.result.as_str().is_empty() {
                Lines::of(Line::of(&rec.result, fg(color)))
            } else {
                Lines::none()
            };
            out.join(said);
            out.join(build_one_if(&rec.detail, "stderr: ", fg(dim_text())));
            out.join(build_one_if(&rec.event, "event ", fg(dim_text())));
            out
        },
    }
}

pub open spec fn run_rows(runs: Seq<Run>, now: int, now_ms: int) -> Seq<Seq<SpanView>> {
    runs.map_values(|r: Run| run_line(r, now, now_ms))
}

/// The section of the runs. `time` is when the selected run was.
pub open spec fn runs_show(
    v: SectionView,
    body: Rect,
    a: AgentSnapshot,
    cursor: int,
    scroll: int,
    now: int,
    now_ms: int,
    time: Seq<char>,
) -> bool {
    if a.runs@.len() == 0 {
        text_shows(v, empty_text("No runs yet. p queues one now."@))
    } else {
        split_shows(
            v,
            body,
            run_rows(a.runs@, now, now_ms),
            cursor,
            scroll,
            run_text(a.runs@[on_list(a.runs@.len() as int, cursor)], time),
        )
    }
}

/// The place of a cursor on a list that is not empty.
fn cursor_on(count: usize, cursor: usize) -> (r: usize)
    requires
        count > 0,
    ensures
        r == on_list(count as int, cursor as int),
        r < count,
{
    if cursor < count - 1 {
        cursor
    } else {
        count - 1
    }
}

#[verifier::spinoff_prover]
fn build_run_rows(runs: &Vec<Run>, now: i64, now_ms: u64) -> (r: Lines)
    ensures
        r@ == run_rows(runs@, now as int, now_ms as int),
{
    let ghost all = run_rows(runs@, now as int, now_ms as int);
    let mut rows = Lines::none();
    let mut i: usize = 0;
    assert(rows@ =~= all.take(0));
    while i < runs.len()
        invariant
            i <= runs@.len(),
            all.len() == runs@.len(),
            forall|k: int| 0 <= k < all.len() ==> #[trigger] all[k] == run_line(runs@[k], now as int, now_ms as int),
            rows@ == all.take(i as int),
        decreases runs@.len() - i,
    {
        let l = run_row(&runs[i], now, now_ms);
        assert(l@ == all[i as int]);
        rows.put(l);
        i += 1;
        assert(rows@ =~= all.take(i as int));
    }
    assert(all.take(i as int) =~= all);
    rows
}

pub fn render_runs(
    body: Rect,
    a: &AgentSnapshot,
    cursor: usize,
    scroll: usize,
    now: i64,
    now_ms: u64,
    time: &str,
) -> (r: SectionView)
    requires
        body.fits(),
    ensures
        runs_show(r, body, *a, cursor as int, scroll as int, now as int, now_ms as int, time@),
{
    if a.runs.len() == 0 {
        return empty("No runs yet. p queues one now.");
    }
    let rows = build_run_rows(&a.runs, now, now_ms);
    let at: usize = cursor_on(a.runs.len(), cursor);
    split_view(body, rows, cursor, scroll, run_pane(&a.runs[at], time))
}

// ---------------------------------------------------------------------------
// Reports
// ---------------------------------------------------------------------------

pub open spec fn note_line(note: Note, now: int) -> Seq<SpanView> {
    (if note.level@ == "warn"@ {
        ln("● "@, fg(Color::Yellow))
    } else {
        ln("· "@, fg(dim_text()))
    }) + ln(
        padded(age_text(now, note.at as int) + " ago"@, RUN_AGE_W as int),
        fg(dim_text()),
    ) + (if note.link is Some {
        ln("󰌷 "@, fg(accent_blue()))
    } else {
        ln("  "@, plain())
    }) + ln(on_one_line(note.text@), fg(faint_text()))
}

pub fn note_row(note: &Note, now: i64) -> (r: Line)
    ensures
        r@ == note_line(*note, now as int),
{
    let mut l = if same(&note.level, "warn") {
        Line::of("● ", fg(Color::Yellow))
    } else {
        Line::of("· ", fg(dim_text()))
    };
    l.put(&pad(&cat2(&age(now, note.at), " ago"), RUN_AGE_W), fg(dim_text()));
    let link = if note.link.is_some() {
        Line::of("󰌷 ", fg(accent_blue()))
    } else {
        Line::of("  ", plain())
    };
    l.join(link);
    l.put(&one_line(&note.text), fg(faint_text()));
    l
}

/// A report spelled out. `time` is when it was made.
pub open spec fn note_text(note: Note, time: Seq<char>) -> Seq<Seq<SpanView>> {
    seq![ln("run #"@ + dec(note.tick as nat) + " · "@ + time, fg(dim_text()))] + seq![
        ln(note.text@, fg(Color::White)),
    ] + (match note.link {
        Some(r) => seq![
            ln("󰌷 "@, fg(accent_blue())) + ln(r@, fg(accent_blue())) + ln(
                "   f opens it"@,
                fg(dim_text()),
            ),
        ],
        None => no_lines(),
    })
}

pub fn note_pane(note: &Note, time: &str) -> (r: Lines)
    ensures
        r@ == note_text(*note, time@),
{
    let mut out = Lines::of(
        Line::of(&cat4("run #", &text_dec(note.tick), " · ", time), fg(dim_text())),
    );
    out.put(Line::of(&note.text, fg(Color::White)));
    let link = match &note.link {
        Some(r) => {
            let mut l = Line::of("󰌷 ", fg(accent_blue()));
            l.put(r, fg(accent_blue()));
            l.put("   f opens it", fg(dim_text()));
            Lines::of(l)
        },
        None => Lines::none(),
    };
    out.join(link);
    out
}

pub open spec fn note_rows(notes: Seq<Note>, now: int) -> Seq<Seq<SpanView>> {
    notes.map_values(|n: Note| note_line(n, now))
}

/// The section of the reports. `time` is when the selected one was made.
pub open spec fn notes_show(
    v: SectionView,
    body: Rect,
    a: AgentSnapshot,
    cursor: int,
    scroll: int,
    now: int,
    time: Seq<char>,
) -> bool {
    if a.notes@.len() == 0 {
        text_shows(
            v,
            empty_text(
                "Nothing reported yet. An agent reports with `cc-hub agent note --text … --ref <url or path>`."@,
            ),
        )
    } else {
        split_shows(
            v,
            body,
            note_rows(a.notes@, now),
            cursor,
            scroll,
            note_text(a.notes@[on_list(a.notes@.len() as int, cursor)], time),
        )
    }
}

#[verifier::spinoff_prover]
fn build_note_rows(notes: &Vec<Note>, now: i64) -> (r: Lines)
    ensures
        r@ == note_rows(notes@, now as int),
{
    let ghost all = note_rows(notes@, now as int);
    let mut rows = Lines::none();
    let mut i: usize = 0;
    assert(rows@ =~= all.take(0));
    while i < notes.len()
        invariant
            i <= notes@.len(),
            all.len() == notes@.len(),
            forall|k: int| 0 <= k < all.len() ==> #[trigger] all[k] == note_line(notes@[k], now as int),
            rows@ == all.take(i as int),
        decreases notes@.len() - i,
    {
        let l = note_row(&notes[i], now);
        assert(l@ == all[i as int]);
        rows.put(l);
        i += 1;
        assert(rows@ =~= all.take(i as int));
    }
    assert(all.take(i as int) =~= all);
    rows
}

pub fn render_artifacts(
    body: Rect,
    a: &AgentSnapshot,
    cursor: usize,
    scroll: usize,
    now: i64,
    time: &str,
) -> (r: SectionView)
    requires
        body.fits(),
    ensures
        notes_show(r, body, *a, cursor as int, scroll as int, now as int, time@),
{
    if a.notes.len() == 0 {
        return empty(
            "Nothing reported yet. An agent reports with `cc-hub agent note --text … --ref <url or path>`.",
        );
    }
    let rows = build_note_rows(&a.notes, now);
    let at: usize = cursor_on(a.notes.len(), cursor);
    split_view(body, rows, cursor, scroll, note_pane(&a.notes[at], time))
}

// ---------------------------------------------------------------------------
// The log
// ---------------------------------------------------------------------------

/// Wide enough for a date, a time and a gap.
pub const LOG_TIME_W: usize = 14;

pub open spec fn level_color(level: Seq<char>) -> Style {
    if level == "error"@ {
        fg(Color::Red)
    } else if level == "warn"@ {
        fg(Color::Yellow)
    } else {
        fg(faint_text())
    }
}

pub fn level_style(level: &str) -> (r: Style)
    ensures
        r == level_color(level@),
{
    if same(level, "error") {
        fg(Color::Red)
    } else if same(level, "warn") {
        fg(Color::Yellow)
    } else {
        fg(faint_text())
    }
}

/// A line of the log. `time` is when it was written.
pub open spec fn log_line(line: LogLine, time: Seq<char>) -> Seq<SpanView> {
    ln(padded(time, LOG_TIME_W as int), fg(dim_text())) + ln(
        on_one_line(line.text@),
        level_color(line.level@),
    )
}

pub fn log_row(line: &LogLine, time: &str) -> (r: Line)
    ensures
        r@ == log_line(*line, time@),
{
    let mut l = Line::of(&pad(time, LOG_TIME_W), fg(dim_text()));
    l.put(&one_line(&line.text), level_style(&line.level));
    l
}

pub open spec fn log_rows(events: Seq<LogLine>, times: Seq<Seq<char>>) -> Seq<Seq<SpanView>> {
    Seq::new(events.len(), |i: int| log_line(events[i], times[i]))
}

pub open spec fn log_text(line: LogLine, time: Seq<char>) -> Seq<Seq<SpanView>> {
    seq![ln(time, fg(dim_text()))] + seq![ln(line.text@, level_color(line.level@))]
}

/// The line fits into a row of the list.
pub open spec fn log_fits(line: LogLine, width: int) -> bool {
    LOG_TIME_W + 1 + on_one_line(line.text@).len() <= width
}

/// The section of the log. `times` is when each line was written. There is a
/// pane only where the selected line does not fit.
pub open spec fn log_shows(
    v: SectionView,
    body: Rect,
    a: AgentSnapshot,
    cursor: int,
    scroll: int,
    times: Seq<Seq<char>>,
) -> bool {
    if a.events@.len() == 0 {
        text_shows(
            v,
            empty_text(
                "Nothing logged yet. Runs, poll failures, halts and changes made here land in events.jsonl."@,
            ),
        )
    } else {
        let at = on_list(a.events@.len() as int, cursor);
        if log_fits(a.events@[at], body.width as int) {
            match v {
                SectionView::List { area, list, pane } => {
                    &&& area == body
                    &&& list_shows(list, body, log_rows(a.events@, times), cursor, scroll)
                    &&& pane is None
                },
                _ => false,
            }
        } else {
            split_shows(
                v,
                body,
                log_rows(a.events@, times),
                cursor,
                scroll,
                log_text(a.events@[at], times[at]),
            )
        }
    }
}

#[verifier::spinoff_prover]
fn build_log_rows(events: &Vec<LogLine>, times: &Vec<String>) -> (r: Lines)
    requires
        times@.len() == events@.len(),
    ensures
        r@ == log_rows(events@, texts(times@)),
{
    let ghost all = log_rows(events@, texts(times@));
    let mut rows = Lines::none();
    let mut i: usize = 0;
    assert(rows@ =~= all.take(0));
    while i < events.len()
        invariant
            i <= events@.len(),
            times@.len() == events@.len(),
            all.len() == events@.len(),
            forall|k: int| 0 <= k < all.len() ==> #[trigger] all[k] == log_line(events@[k], texts(times@)[k]),
            rows@ == all.take(i as int),
        decreases events@.len() - i,
    {
        assert(texts(times@)[i as int] == times@[i as int]@);
        let l = log_row(&events[i], &times[i]);
        assert(l@ == all[i as int]);
        rows.put(l);
        i += 1;
        assert(rows@ =~= all.take(i as int));
    }
    assert(all.take(i as int) =~= all);
    rows
}

pub fn render_log(body: Rect, a: &AgentSnapshot, cursor: usize, scroll: usize, times: &Vec<String>) -> (r: SectionView)
    requires
        body.fits(),
        times@.len() == a.events@.len(),
    ensures
        log_shows(r, body, *a, cursor as int, scroll as int, texts(times@)),
{
    if a.events.len() == 0 {
        return empty(
            "Nothing logged yet. Runs, poll failures, halts and changes made here land in events.jsonl.",
        );
    }
    let rows = build_log_rows(&a.events, times);
    let at: usize = cursor_on(a.events.len(), cursor);
    let line = &a.events[at];
    let len: usize = one_line(&line.text).as_str().unicode_len();
    let room: usize = (body.width as usize).saturating_sub(LOG_TIME_W + 1);
    if body.width as usize >= LOG_TIME_W + 1 && len <= room {
        let list = render_list(body, &rows, cursor, scroll);
        return SectionView::List { area: body, list, pane: None };
    }
    assert(texts(times@)[at as int] == times@[at as int]@);
    let mut pane = Lines::of(Line::of(&times[at], fg(dim_text())));
    pane.put(Line::of(&line.text, level_style(&line.level)));
    split_view(body, rows, cursor, scroll, pane)
}

// ---------------------------------------------------------------------------
// Settings
// ---------------------------------------------------------------------------

pub const LABEL_W: usize = 16;

pub open spec fn setting_color(s: SettingRow, enabled: bool) -> Style {
    if s.is_switch {
        if enabled {
            fg(Color::Green)
        } else {
            fg(Color::Yellow)
        }
    } else {
        fg(Color::White)
    }
}

pub fn setting_style(s: &SettingRow, enabled: bool) -> (r: Style)
    ensures
        r == setting_color(*s, enabled),
{
    if s.is_switch {
        if enabled {
            fg(Color::Green)
        } else {
            fg(Color::Yellow)
        }
    } else {
        fg(Color::White)
    }
}

/// A setting in one row. `edited` is what has been typed of its value.
pub open spec fn setting_line(s: SettingRow, enabled: bool, edited: Option<String>) -> Seq<SpanView> {
    ln(padded(s.label@, LABEL_W as int), fg(label_gray())) + (match edited {
        Some(typed) => ln(typed@ + "▏"@, fg(Color::White).bold()),
        None => ln(
            s.value@,
            if s.locked is Some {
                fg(dim_text())
            } else {
                setting_color(s, enabled)
            },
        ),
    })
}

fn setting_row(s: &SettingRow, enabled: bool, edited: &Option<String>) -> (r: Line)
    ensures
        r@ == setting_line(*s, enabled, *edited),
{
    let mut l = Line::of(&pad(&s.label, LABEL_W), fg(label_gray()));
    let value = match edited {
        Some(typed) => Line::of(&cat2(typed, "▏"), fg(Color::White).bold()),
        None => {
            let style = if s.locked.is_some() {
                fg(dim_text())
            } else {
                setting_style(s, enabled)
            };
            Line::of(&s.value, style)
        },
    };
    l.join(value);
    l
}

/// What has been typed belongs to the selected setting.
pub open spec fn edit_of(editing: Option<String>, cursor: int, i: int) -> Option<String> {
    if i == cursor {
        editing
    } else {
        None
    }
}

pub open spec fn setting_rows(spec: AgentSpec, editing: Option<String>, cursor: int) -> Seq<Seq<SpanView>> {
    Seq::new(
        spec.settings@.len(),
        |i: int| setting_line(spec.settings@[i], spec.enabled, edit_of(editing, cursor, i)),
    )
}

pub open spec fn labelled(label: Seq<char>, value: Seq<char>) -> Seq<SpanView> {
    ln(padded(label, LABEL_W as int), fg(dim_text())) + ln(value, fg(dim_text()))
}

fn build_labelled(label: &str, value: &str) -> (r: Line)
    ensures
        r@ == labelled(label@, value@),
{
    let mut l = Line::of(&pad(label, LABEL_W), fg(dim_text()));
    l.put(value, fg(dim_text()));
    l
}

pub open spec fn trigger_text(spec: AgentSpec) -> Seq<char> {
    match spec.poll {
        Some(p) => "poll `"@ + or_else(p.command, ""@) + "` every "@ + p.every@,
        None => spec.trigger_label@,
    }
}

/// The selected setting explained, then what cannot be set here.
pub open spec fn settings_text(
    a: AgentSnapshot,
    spec: AgentSpec,
    editing: Option<String>,
    cursor: int,
    home: Option<Seq<char>>,
) -> Seq<Seq<SpanView>> {
    let s = spec.settings@[on_list(spec.settings@.len() as int, cursor)];
    seq![
        ln(
            match s.locked {
                Some(why) => "Fixed: "@ + why@ + "."@,
                None => s.help@,
            },
            fg(faint_text()),
        ),
    ] + (if editing is Some {
        seq![ln("enter saves · esc cancels"@, fg(dim_text()))]
    } else {
        no_lines()
    }) + seq![blank()] + seq![labelled("trigger"@, trigger_text(spec))] + seq![
        labelled(
            "spent"@,
            a.cost_today@ + " today ("@ + dec(a.ticks_today as nat) + " runs) · "@ + a.cost_total@
                + " in total"@,
        ),
    ] + seq![labelled("workdir"@, tilde_path(spec.workdir@, home))] + seq![
        labelled("folder"@, tilde_path(a.dir@, home)),
    ]
}

fn build_settings_text(
    a: &AgentSnapshot,
    spec: &AgentSpec,
    editing: &Option<String>,
    cursor: usize,
    home: &Option<String>,
) -> (r: Lines)
    requires
        spec.settings@.len() > 0,
    ensures
        r@ == settings_text(*a, *spec, *editing, cursor as int, opt(*home)),
{
    let at: usize = cursor_on(spec.settings.len(), cursor);
    let s = &spec.settings[at];
    let about = match &s.locked {
        Some(why) => cat3("Fixed: ", why, "."),
        None => s.help.as_str().to_owned(),
    };
    let mut out = Lines::of(Line::of(&about, fg(faint_text())));
    let keys = if editing.is_some() {
        Lines::of(Line::of("enter saves · esc cancels", fg(dim_text())))
    } else {
        Lines::none()
    };
    out.join(keys);
    out.put(Line::empty());
    let trigger = match &spec.poll {
        Some(p) => cat4("poll `", &text_or_else(&p.command, ""), "` every ", &p.every),
        None => spec.trigger_label.as_str().to_owned(),
    };
    out.put(build_labelled("trigger", &trigger));
    let spent = cat5(
        &a.cost_today,
        " today (",
        &text_dec(a.ticks_today),
        " runs) · ",
        &a.cost_total,
    );
    out.put(build_labelled("spent", &cat2(&spent, " in total")));
    out.put(build_labelled("workdir", &tilde(&spec.workdir, home)));
    out.put(build_labelled("folder", &tilde(&a.dir, home)));
    out
}

/// What stands for settings that do not load.
pub open spec fn broken_text(e: Seq<char>, assistant: Seq<char>) -> Seq<Seq<SpanView>> {
    seq![ln(e, fg(Color::Red))] + seq![blank()] + seq![
        ln(
            "Settings need a spec that loads. n opens "@ + assistant + " in the agent's folder to fix it."@,
            fg(dim_text()),
        ),
    ]
}

/// The section of the settings.
pub open spec fn settings_show(
    v: SectionView,
    body: Rect,
    a: AgentSnapshot,
    editing: Option<String>,
    cursor: int,
    scroll: int,
    home: Option<Seq<char>>,
) -> bool {
    match a.spec {
        Err(e) => text_shows(v, broken_text(e@, a.assistant@)),
        Ok(spec) => split_shows(
            v,
            body,
            setting_rows(spec, editing, cursor),
            cursor,
            scroll,
            settings_text(a, spec, editing, cursor, home),
        ),
    }
}

/// There is something to set wherever the settings load.
pub open spec fn has_settings(a: AgentSnapshot) -> bool {
    match a.spec {
        Ok(spec) => spec.settings@.len() > 0,
        Err(_) => true,
    }
}

#[verifier::spinoff_prover]
fn build_setting_rows(spec: &AgentSpec, editing: &Option<String>, cursor: usize) -> (r: Lines)
    ensures
        r@ == setting_rows(*spec, *editing, cursor as int),
{
    let ghost all = setting_rows(*spec, *editing, cursor as int);
    let mut rows = Lines::none();
    let mut i: usize = 0;
    let none: Option<String> = None;
    assert(rows@ =~= all.take(0));
    while i < spec.settings.len()
        invariant
            i <= spec.settings@.len(),
            none is None,
            all.len() == spec.settings@.len(),
            forall|k: int|
                0 <= k < all.len() ==> #[trigger] all[k] == setting_line(
                    spec.settings@[k],
                    spec.enabled,
                    edit_of(*editing, cursor as int, k),
                ),
            rows@ == all.take(i as int),
        decreases spec.settings@.len() - i,
    {
        let edited = if i == cursor {
            editing
        } else {
            &none
        };
        let l = setting_row(&spec.settings[i], spec.enabled, edited);
        assert(l@ == all[i as int]);
        rows.put(l);
        i += 1;
        assert(rows@ =~= all.take(i as int));
    }
    assert(all.take(i as int) =~= all);
    rows
}

pub fn render_settings(
    body: Rect,
    a: &AgentSnapshot,
    editing: &Option<String>,
    cursor: usize,
    scroll: usize,
    home: &Option<String>,
) -> (r: SectionView)
    requires
        body.fits(),
        has_settings(*a),
    ensures
        settings_show(r, body, *a, *editing, cursor as int, scroll as int, opt(*home)),
{
    match &a.spec {
        Err(e) => {
            let mut out = Lines::of(Line::of(e, fg(Color::Red)));
            out.put(Line::empty());
            out.put(
                Line::of(
                    &cat3(
                        "Settings need a spec that loads. n opens ",
                        &a.assistant,
                        " in the agent's folder to fix it.",
                    ),
                    fg(dim_text()),
                ),
            );
            SectionView::Text(out)
        },
        Ok(spec) => {
            let rows = build_setting_rows(spec, editing, cursor);
            let text = build_settings_text(a, spec, editing, cursor, home);
            split_view(body, rows, cursor, scroll, text)
        },
    }
}

// ---------------------------------------------------------------------------
// The popup
// ---------------------------------------------------------------------------

/// Where the user is in the popup.
#[derive(Debug)]
pub struct Detail {
    pub section: Section,
    pub run: usize,
    pub artifact: usize,
    pub log_scroll: usize,
    pub setting: usize,
    /// What has been typed of a setting's value.
    pub editing: Option<String>,
}

/// The local times that the popup shows, and the user's home.
#[derive(Debug)]
pub struct DetailTimes {
    pub run: String,
    pub note: String,
    /// One for each line of the log.
    pub events: Vec<String>,
    pub home: Option<String>,
}

#[derive(Debug)]
pub struct DetailBody {
    pub head_area: Rect,
    pub head: Lines,
    pub area: Rect,
    pub section: SectionView,
}

#[derive(Debug)]
pub struct DetailPopup {
    pub area: Rect,
    pub title: Line,
    /// None where fewer than 20 by 4 cells are inside the border.
    pub body: Option<DetailBody>,
}

pub open spec fn detail_area(area: Rect) -> Rect {
    middle(area, scaled(area.width as int, share_90()), scaled(area.height as int, share_90()))
}

/// What is inside the border, without a column on each side.
pub open spec fn detail_inner(area: Rect) -> Rect {
    let inner = inside(detail_area(area));
    Rect { x: (inner.x + 1) as u16, width: (inner.width - 2) as u16, ..inner }
}

pub open spec fn detail_head(a: AgentSnapshot, section: Section, now: int, width: int) -> Seq<Seq<SpanView>> {
    headlines(a, now, width) + seq![blank()] + seq![sections(a, section)] + seq![rule_line(width)]
}

/// `v` shows the section that the user is in.
pub open spec fn section_shows(
    v: SectionView,
    body: Rect,
    a: AgentSnapshot,
    d: Detail,
    scroll: int,
    now: int,
    now_ms: int,
    t: DetailTimes,
) -> bool {
    match d.section {
        Section::Runs => runs_show(v, body, a, d.run as int, scroll, now, now_ms, t.run@),
        Section::Artifacts => notes_show(v, body, a, d.artifact as int, scroll, now, t.note@),
        Section::Log => log_shows(v, body, a, d.log_scroll as int, scroll, texts(t.events@)),
        Section::Settings => settings_show(
            v,
            body,
            a,
            d.editing,
            d.setting as int,
            scroll,
            opt(t.home),
        ),
    }
}

/// `p` is the popup on the agent.
pub open spec fn detail_shows(
    p: DetailPopup,
    area: Rect,
    a: AgentSnapshot,
    d: Detail,
    scroll: int,
    now: int,
    now_ms: int,
    t: DetailTimes,
) -> bool {
    let outer = inside(detail_area(area));
    let inner = detail_inner(area);
    &&& p.area == detail_area(area)
    &&& p.title@ == ln(
        " "@ + status_icon(a.status) + " "@ + a.name@ + " "@,
        fg(status_color(a.status)).bold(),
    )
    &&& match p.body {
        None => outer.height < 4 || outer.width < 20,
        Some(b) => {
            let head = detail_head(a, d.section, now, inner.width as int);
            let h = at_most(head.len() as u16 as int, inner.height as int);
            &&& outer.height >= 4 && outer.width >= 20
            &&& b.head@ == head
            &&& b.head_area == (Rect { height: h as u16, ..inner })
            &&& b.area == (Rect {
                y: (inner.y + h) as u16,
                height: (inner.height - h) as u16,
                ..inner
            })
            &&& section_shows(b.section, b.area, a, d, scroll, now, now_ms, t)
        },
    }
}

/// The popup for times that are known.
pub fn render_agent_detail_at(
    area: Rect,
    a: &AgentSnapshot,
    d: &Detail,
    scroll: usize,
    now: i64,
    now_ms: u64,
    t: &DetailTimes,
) -> (r: DetailPopup)
    requires
        area.fits(),
        has_settings(*a),
        t.events@.len() == a.events@.len(),
    ensures
        detail_shows(r, area, *a, *d, scroll as int, now as int, now_ms as int, *t),
{
    let popup = centered_rect(area, share_90());
    let (icon, color) = status_indicator(a.status);
    let title = Line::of(&cat5(" ", &icon, " ", &a.name, " "), fg(color).bold());
    let outer = inner_of(popup);
    if outer.height < 4 || outer.width < 20 {
        return DetailPopup { area: popup, title, body: None };
    }
    let inner = Rect { x: outer.x + 1, y: outer.y, width: outer.width - 2, height: outer.height };
    let width: usize = inner.width as usize;
    let mut head = headline(a, now, width);
    head.put(Line::empty());
    head.put(section_strip(a, d.section));
    head.put(Line::of(&text_fill('─', width), fg(sep_gray())));
    let rows: u16 = #[verifier::truncate] (head.len() as u16);
    let h: u16 = if rows < inner.height {
        rows
    } else {
        inner.height
    };
    let body = Rect { x: inner.x, y: inner.y + h, width: inner.width, height: inner.height - h };
    let section = match d.section {
        Section::Runs => render_runs(body, a, d.run, scroll, now, now_ms, &t.run),
        Section::Artifacts => render_artifacts(body, a, d.artifact, scroll, now, &t.note),
        Section::Log => render_log(body, a, d.log_scroll, scroll, &t.events),
        Section::Settings => render_settings(body, a, &d.editing, d.setting, scroll, &t.home),
    };
    let head_area = Rect { x: inner.x, y: inner.y, width: inner.width, height: h };
    DetailPopup { area: popup, title, body: Some(DetailBody { head_area, head, area: body, section }) }
}

pub open spec fn run_start(run: Run) -> i64 {
    match run {
        Run::InFlight { n, ticking } => ticking.since,
        Run::Done { n, rec } => rec.at,
    }
}

/// `t` holds the times of the selected run, of the selected report and of
/// every line of the log, and nothing where there is no run or no report.
pub open spec fn times_of(t: DetailTimes, a: AgentSnapshot, d: Detail, now: i64) -> bool {
    &&& a.runs@.len() > 0 ==> reads_clock(
        t.run@,
        run_start(a.runs@[on_list(a.runs@.len() as int, d.run as int)]),
        now,
    )
    &&& a.notes@.len() > 0 ==> reads_clock(
        t.note@,
        a.notes@[on_list(a.notes@.len() as int, d.artifact as int)].at,
        now,
    )
    &&& a.runs@.len() == 0 ==> t.run@ == ""@
    &&& a.notes@.len() == 0 ==> t.note@ == ""@
    &&& t.events@.len() == a.events@.len()
    &&& forall|i: int| 0 <= i < a.events@.len() ==> reads_clock(#[trigger] t.events@[i]@, a.events@[i].at, now)
}

/// The times that the popup shows, in the machine's time zone.
pub fn detail_times(a: &AgentSnapshot, d: &Detail, now: i64) -> (r: DetailTimes)
    ensures
        times_of(r, *a, *d, now),
{
    let run = if a.runs.len() > 0 {
        let at: usize = cursor_on(a.runs.len(), d.run);
        match &a.runs[at] {
            Run::InFlight { n, ticking } => clock(ticking.since, now),
            Run::Done { n, rec } => clock(rec.at, now),
        }
    } else {
        "".to_owned()
    };
    let note = if a.notes.len() > 0 {
        let at: usize = cursor_on(a.notes.len(), d.artifact);
        clock(a.notes[at].at, now)
    } else {
        "".to_owned()
    };
    let mut events: Vec<String> = Vec::new();
    let mut i: usize = 0;
    while i < a.events.len()
        invariant
            i <= a.events@.len(),
            events@.len() == i,
            forall|j: int| 0 <= j < i ==> reads_clock(#[trigger] events@[j]@, a.events@[j].at, now),
        decreases a.events@.len() - i,
    {
        events.push(clock(a.events[i].at, now));
        i += 1;
    }
    DetailTimes { run, note, events, home: home_dir() }
}

/// The popup on an agent, with its times in the machine's time zone and the
/// paths below the user's home shortened.
pub fn render_agent_detail(
    area: Rect,
    a: &AgentSnapshot,
    d: &Detail,
    scroll: usize,
    now: i64,
    now_ms: u64,
) -> (r: DetailPopup)
    requires
        area.fits(),
        has_settings(*a),
    ensures
        exists|t: DetailTimes|
            times_of(t, *a, *d, now) && #[trigger] detail_shows(
                r,
                area,
                *a,
                *d,
                scroll as int,
                now as int,
                now_ms as int,
                t,
            ),
{
    let t = detail_times(a, d, now);
    render_agent_detail_at(area, a, d, scroll, now, now_ms, &t)
}

// ---------------------------------------------------------------------------
// Keys
// ---------------------------------------------------------------------------

/// The keys of a section before and behind the one that opens the assistant.
pub open spec fn section_keys(s: Section) -> (Seq<char>, Seq<char>) {
    match s {
        Section::Runs => (
            "f/enter:transcript  j/k:run  h/l:section  space:on/off  p:run now  n:"@,
            " here  R:reset  esc:close"@,
        ),
        Section::Artifacts => (
            "f/enter:open  j/k:select  h/l:section  space:on/off  p:run now  n:"@,
            " here  esc:close"@,
        ),
        Section::Log => (
            "j/k:scroll  h/l:section  space:on/off  p:run now  n:"@,
            " here  esc:close"@,
        ),
        Section::Settings => (
            "enter:change  e:type value  j/k:field  h/l:section  space:on/off  n:"@,
            " here  esc:close"@,
        ),
    }
}

/// The keys of the tab, or of the popup where that is open.
pub open spec fn agent_keys(detail: Option<Detail>, assistant: Seq<char>) -> Seq<char> {
    match detail {
        None => "f/enter:open  space:on/off  p:run now  n:"@ + assistant
            + " here  j/k:nav  tab:next  q:quit"@,
        Some(d) => if d.editing is Some {
            "type a value  enter:save  esc:cancel"@
        } else {
            section_keys(d.section).0 + assistant + section_keys(d.section).1
        },
    }
}

/// The keys for the status bar. `assistant` is what `n` opens.
pub fn hints(detail: &Option<Detail>, assistant: &str) -> (r: String)
    ensures
        r@ == agent_keys(*detail, assistant@),
{
    match detail {
        None => cat3(
            "f/enter:open  space:on/off  p:run now  n:",
            assistant,
            " here  j/k:nav  tab:next  q:quit",
        ),
        Some(d) => if d.editing.is_some() {
            "type a value  enter:save  esc:cancel".to_owned()
        } else {
            let (before, behind) = match d.section {
                Section::Runs => (
                    "f/enter:transcript  j/k:run  h/l:section  space:on/off  p:run now  n:",
                    " here  R:reset  esc:close",
                ),
                Section::Artifacts => (
                    "f/enter:open  j/k:select  h/l:section  space:on/off  p:run now  n:",
                    " here  esc:close",
                ),
                Section::Log => (
                    "j/k:scroll  h/l:section  space:on/off  p:run now  n:",
                    " here  esc:close",
                ),
                Section::Settings => (
                    "enter:change  e:type value  j/k:field  h/l:section  space:on/off  n:",
                    " here  esc:close",
                ),
            };
            cat3(before, assistant, behind)
        },
    }
}

// ---------------------------------------------------------------------------
// What the popup tells
// ---------------------------------------------------------------------------

/// Where its description ends and its status begins.
pub open spec fn below_purpose(a: AgentSnapshot) -> int {
    if a.description@.len() == 0 {
        0
    } else {
        2
    }
}

/// The head of the popup begins with what the agent is for, and then, where something has
/// to be done or a run goes on, with that.
pub proof fn head_tells_the_status(a: AgentSnapshot, section: Section, now: int, width: int)
    ensures
        ({
            let rows = detail_head(a, section, now, width);
            let at = below_purpose(a);
            &&& a.description@.len() > 0 ==> line_text(rows[0]) == short_line(a.description@, width)
            &&& a.status == AgentStatus::Broken ==> line_text(rows[at]) == ("󰅙"@ + " "@)
                + ("agent.toml doesn't load — n opens "@ + a.assistant@ + " in its folder to fix it"@)
            &&& a.status == AgentStatus::Halted ==> line_text(rows[at]) == ("󰂞"@ + " "@) + ("Halted: "@ + (
            match a.stopped_reason {
                Some(r) => r@,
                None => ""@,
            }) + " — space resumes it"@)
            &&& a.status == AgentStatus::Disabled ==> line_text(rows[at]) == ("󰜎"@ + " "@)
                + "Off — space turns it on"@
            &&& a.status == AgentStatus::Paused ==> line_text(rows[at]) == ("󰏤"@ + " "@)
                + "Paused — space resumes it"@
            &&& a.status == AgentStatus::Ticking ==> (a.ticking matches Some(t) ==> line_text(rows[at]) == ("󰒓"@
                + " "@) + ("Running for "@ + age_text(now, t.since as int) + " · "@ + event_text(opt(t.event))))
        }),
{
    broadcast use {crate::style::joined_line_text, crate::style::span_line_text, crate::style::blank_line_text};

    let rows = detail_head(a, section, now, width);
    let said = headlines(a, now, width);
    let at = below_purpose(a);
    let status = status_lines(a, now, width);
    if a.description@.len() > 0 {
        assert(rows[0] == purpose(a, width)[0]);
    }
    if status.len() > 0 {
        assert(said[at] == status[0]);
        assert(rows[at] == said[at]);
    }
}

/// An agent that sleeps tells at once how its last run went: when it was, its turns, how
/// long it took and what it cost, or that it failed and why.
pub proof fn head_tells_the_last_run(a: AgentSnapshot, section: Section, now: int, width: int)
    requires
        a.status == AgentStatus::Sleeping,
    ensures
        ({
            let rows = detail_head(a, section, now, width);
            let at = below_purpose(a);
            &&& a.last_run matches Some(rec) ==> (rec.ok ==> line_text(rows[at]) == "✓ "@ + ("Last run "@ + age_text(
                now,
                rec.at as int,
            ) + " ago"@) + (" · "@ + dec(rec.turns as nat) + " turns · "@ + duration_text(rec.duration_s as nat)
                + " · "@ + rec.cost@))
            &&& a.last_run matches Some(rec) ==> (!rec.ok ==> line_text(rows[at]) == "✗ "@ + ("Last run failed "@
                + age_text(now, rec.at as int) + " ago"@) + (" · "@ + (match rec.subtype {
                Some(s) => s@,
                None => "error"@,
            })))
            &&& a.last_run is None && a.ticking is None ==> line_text(rows[at]) == "No runs yet — p runs it now"@
        }),
{
    broadcast use {crate::style::joined_line_text, crate::style::span_line_text, crate::style::blank_line_text};

    let rows = detail_head(a, section, now, width);
    let said = headlines(a, now, width);
    let at = below_purpose(a);
    let run = run_lines(a, now, width);
    if run.len() > 0 {
        assert(said[at] == run[0]);
        assert(rows[at] == said[at]);
    }
}

/// Below the row on a run that failed stand at most two rows of what it said and one of its
/// errors; below one that went well at most one of its answer.
pub proof fn runs_are_quoted(rec: TickRecord, now: int, width: int, k: int)
    ensures
        rec.ok ==> true,
        ({
            let said = wrapped_lines(rec.result@, minus(width, 2));
            let rows = failed_run(rec, now, width);
            &&& rows.len() <= 4
            &&& 0 <= k < 2 && k < said.len() ==> line_text(rows[1 + k]) == "  "@ + said[k]
            &&& rec.result@.len() > 0 && said.len() > 0 ==> good_run(rec, now, width).len() == 2 && line_text(
                good_run(rec, now, width)[1],
            ) == "  "@ + said[0]
        }),
{
    broadcast use {crate::style::joined_line_text, crate::style::span_line_text, crate::style::blank_line_text};

}

/// The sections are named in their order, with how many runs and reports there are.
pub proof fn sections_are_counted(a: AgentSnapshot, section: Section, now: int, width: int)
    ensures
        ({
            let rows = detail_head(a, section, now, width);
            let runs = if a.runs@.len() > 0 {
                " "@ + dec(a.runs@.len())
            } else {
                Seq::empty()
            };
            let notes = if a.notes@.len() > 0 {
                " "@ + dec(a.notes@.len())
            } else {
                Seq::empty()
            };
            let none = Seq::<char>::empty();
            &&& rows.len() >= 3
            &&& line_text(rows[rows.len() - 2]) == ("Runs"@ + runs) + "   "@ + ("Artifacts"@ + notes) + "   "@ + ("Log"@
                + none) + "   "@ + ("Settings"@ + none)
        }),
{
    broadcast use {crate::style::joined_line_text, crate::style::span_line_text, crate::style::blank_line_text};

    let rows = detail_head(a, section, now, width);
    assert(rows[rows.len() - 2] == sections(a, section));
}

/// A list shows its rows from the scroll position on, that of the cursor among them, and
/// that one alone with a bar.
pub proof fn lists_show_their_rows(
    v: ListView,
    area: Rect,
    rows: Seq<Seq<SpanView>>,
    cursor: int,
    scroll: int,
    k: int,
)
    requires
        list_shows(v, area, rows, cursor, scroll),
        area.height > 0,
        0 <= cursor < rows.len(),
        0 <= scroll,
        0 <= k < v.lines@.len(),
    ensures
        v.cursor == cursor,
        v.scroll <= cursor < v.scroll + v.lines@.len() <= rows.len(),
        v.lines@.len() == if rows.len() < area.height {
            rows.len() as int
        } else {
            area.height as int
        },
        line_text(rows[v.scroll + k]).len() < area.width ==> line_text(v.lines@[k]) == (if v.scroll + k == cursor {
            "▌"@
        } else {
            " "@
        }) + line_text(rows[v.scroll + k]),
{
    broadcast use {crate::style::joined_line_text, crate::style::span_line_text, crate::style::blank_line_text};

    reveal_strlit("▌");
    reveal_strlit(" ");
    let h = area.height as int;
    let s = follow(rows.len() as int, h, Some(cursor), scroll);
    assert(v.lines@[k] == nth_striped(rows, cursor, area.width as int, s + k));
    let whole = (if s + k == cursor {
        ln("▌"@, fg(Color::White))
    } else {
        ln(" "@, plain())
    }) + rows[s + k];
    crate::agents::cut_lines_fit(whole, area.width as int);
}

/// A run in one row: how it went, its number, its age and its event in columns, how long it
/// took, what it cost, and its answer, or why it failed.
pub proof fn runs_are_listed(runs: Seq<Run>, now: int, now_ms: int, i: int)
    requires
        0 <= i < runs.len(),
    ensures
        run_rows(runs, now, now_ms).len() == runs.len(),
        runs[i] matches Run::Done { n, rec } ==> line_text(run_rows(runs, now, now_ms)[i]) == (if rec.ok {
            "✓ "@
        } else {
            "✗ "@
        }) + (padded("#"@ + dec(n as nat), 6) + padded(age_text(now, rec.at as int) + " ago"@, 9) + padded(
            event_text(opt(rec.event)),
            14,
        )) + right(duration_text(rec.duration_s as nat), 7) + right(rec.cost@, 7) + "  "@ + (if rec.ok {
            on_one_line(rec.result@)
        } else {
            match rec.subtype {
                Some(s) => s@,
                None => "failed"@,
            }
        }),
        runs[i] matches Run::InFlight { n, ticking } ==> line_text(run_rows(runs, now, now_ms)[i]) == (spinner(now_ms)
            + " "@) + (padded("#"@ + dec(n as nat), 6) + padded(age_text(now, ticking.since as int) + " ago"@, 9)
            + padded(event_text(opt(ticking.event)), 14)) + fill(' ', 16) + "running…"@,
{
    broadcast use {crate::style::joined_line_text, crate::style::span_line_text, crate::style::blank_line_text};

    assert(run_rows(runs, now, now_ms)[i] == run_line(runs[i], now, now_ms));
}

/// The selected run is spelled out: its number and its facts, then its whole answer, its
/// errors and its event.
pub proof fn runs_are_spelled_out(n: u64, rec: TickRecord, time: Seq<char>)
    requires
        rec.result@.len() > 0,
    ensures
        ({
            let rows = run_text(Run::Done { n, rec }, time);
            let errors: int = if rec.detail is Some {
                1
            } else {
                0
            };
            &&& line_text(rows[0]) == ("#"@ + dec(n as nat) + " "@) + joined(facts(rec, time), " · "@)
            &&& line_text(rows[1]) == rec.result@
            &&& rec.detail matches Some(d) ==> line_text(rows[2]) == "stderr: "@ + d@
            &&& rec.event matches Some(e) ==> line_text(rows[2 + errors]) == "event "@ + e@
            &&& rec.ok ==> rows[1][0].style.fg != Some(Color::Red)
            &&& !rec.ok ==> rows[1][0].style.fg == Some(Color::Red)
        }),
{
    broadcast use {crate::style::joined_line_text, crate::style::span_line_text, crate::style::blank_line_text};

}

/// The facts of a run: why it failed, when it was, how long it took, its turns, its cost,
/// from how many to how many tokens its context grew, and how often it was compacted.
pub proof fn facts_are_the_runs_own(rec: TickRecord, time: Seq<char>)
    ensures
        ({
            let f = facts(rec, time);
            let at: int = if rec.ok {
                0
            } else {
                1
            };
            &&& !rec.ok ==> f[0] == (match rec.subtype {
                Some(s) => s@,
                None => "failed"@,
            })
            &&& f[at] == time
            &&& f[at + 1] == duration_text(rec.duration_s as nat)
            &&& f[at + 2] == dec(rec.turns as nat) + " turns"@
            &&& f[at + 3] == rec.cost@
            &&& rec.context_end > 0 ==> f[at + 4] == "context "@ + tokens(rec.context_start as nat) + " → "@ + tokens(
                rec.context_end as nat,
            )
            &&& rec.compactions > 0 ==> f.last() == dec(rec.compactions as nat) + " compactions"@
            &&& f.len() == at + 4 + (if rec.context_end > 0 {
                1int
            } else {
                0int
            }) + (if rec.compactions > 0 {
                1int
            } else {
                0int
            })
        }),
{
}

/// A run that goes on is told since when, and for which event.
pub proof fn running_runs_are_told(n: u64, ticking: crate::agents::Ticking, time: Seq<char>)
    ensures
        ({
            let rows = run_text(Run::InFlight { n, ticking }, time);
            &&& rows.len() == 2
            &&& line_text(rows[0]) == ("#"@ + dec(n as nat) + " "@) + ("running since "@ + time + " · "@ + event_text(
                opt(ticking.event),
            ))
            &&& line_text(rows[1]) == "f follows it live."@
        }),
{
    broadcast use {crate::style::joined_line_text, crate::style::span_line_text, crate::style::blank_line_text};

}

/// A report in one row: whether it warns, its age, whether it has a link, and its text; and
/// spelled out: the run that it is of, its text and its link.
pub proof fn reports_are_told(notes: Seq<Note>, now: int, time: Seq<char>, i: int)
    requires
        0 <= i < notes.len(),
    ensures
        ({
            let n = notes[i];
            &&& note_rows(notes, now).len() == notes.len()
            &&& line_text(note_rows(notes, now)[i]) == (if n.level@ == "warn"@ {
                "● "@
            } else {
                "· "@
            }) + padded(age_text(now, n.at as int) + " ago"@, 9) + (if n.link is Some {
                "󰌷 "@
            } else {
                "  "@
            }) + on_one_line(n.text@)
            &&& line_text(note_text(n, time)[0]) == "run #"@ + dec(n.tick as nat) + " · "@ + time
            &&& line_text(note_text(n, time)[1]) == n.text@
            &&& n.link matches Some(l) ==> line_text(note_text(n, time)[2]) == "󰌷 "@ + l@ + "   f opens it"@
        }),
{
    broadcast use {crate::style::joined_line_text, crate::style::span_line_text, crate::style::blank_line_text};

    assert(note_rows(notes, now)[i] == note_line(notes[i], now));
}

/// A line of the log: when it was written, and its text, red where it is an error and yellow
/// where it warns.
pub proof fn log_lines_are_told(events: Seq<LogLine>, times: Seq<Seq<char>>, i: int)
    requires
        0 <= i < events.len(),
        times.len() == events.len(),
    ensures
        ({
            let rows = log_rows(events, times);
            let c = rows[i][1].style.fg;
            &&& rows.len() == events.len()
            &&& line_text(rows[i]) == padded(times[i], 14) + on_one_line(events[i].text@)
            &&& events[i].level@ == "error"@ ==> c == Some(Color::Red)
            &&& events[i].level@ == "warn"@ ==> c == Some(Color::Yellow)
            &&& events[i].level@ != "error"@ && events[i].level@ != "warn"@ ==> c == Some(faint_text())
            &&& line_text(log_text(events[i], times[i])[0]) == times[i]
            &&& line_text(log_text(events[i], times[i])[1]) == events[i].text@
        }),
{
    broadcast use {crate::style::joined_line_text, crate::style::span_line_text, crate::style::blank_line_text};

    reveal_strlit("error");
    reveal_strlit("warn");
    assert("error"@.len() == 5 && "warn"@.len() == 4);
    assert(log_rows(events, times)[i] == log_line(events[i], times[i]));
    assert(log_line(events[i], times[i])[1].style == level_color(events[i].level@));
}

/// A setting in one row: its label and its value, or what has been typed where it is the
/// selected one and is edited.
pub proof fn settings_are_listed(spec: AgentSpec, editing: Option<String>, cursor: int, i: int)
    requires
        0 <= i < spec.settings@.len(),
    ensures
        setting_rows(spec, editing, cursor).len() == spec.settings@.len(),
        line_text(setting_rows(spec, editing, cursor)[i]) == padded(spec.settings@[i].label@, 16) + (if i == cursor
            && editing is Some {
            editing->Some_0@ + "▏"@
        } else {
            spec.settings@[i].value@
        }),
{
    broadcast use {crate::style::joined_line_text, crate::style::span_line_text, crate::style::blank_line_text};

    assert(setting_rows(spec, editing, cursor)[i] == setting_line(
        spec.settings@[i],
        spec.enabled,
        edit_of(editing, cursor, i),
    ));
}

/// Below the settings the selected one is explained, or why it is fixed, and then the
/// trigger, what was spent and the folders.
pub proof fn settings_are_explained(
    a: AgentSnapshot,
    spec: AgentSpec,
    editing: Option<String>,
    cursor: int,
    home: Option<Seq<char>>,
)
    requires
        0 <= cursor < spec.settings@.len(),
    ensures
        ({
            let rows = settings_text(a, spec, editing, cursor, home);
            let s = spec.settings@[cursor];
            let at: int = if editing is Some {
                3
            } else {
                2
            };
            &&& line_text(rows[0]) == match s.locked {
                Some(why) => "Fixed: "@ + why@ + "."@,
                None => s.help@,
            }
            &&& editing is Some ==> line_text(rows[1]) == "enter saves · esc cancels"@
            &&& rows.len() == at + 4
            &&& line_text(rows[at]) == padded("trigger"@, 16) + (match spec.poll {
                Some(p) => "poll `"@ + (match p.command {
                    Some(c) => c@,
                    None => ""@,
                }) + "` every "@ + p.every@,
                None => spec.trigger_label@,
            })
            &&& line_text(rows[at + 1]) == padded("spent"@, 16) + (a.cost_today@ + " today ("@ + dec(
                a.ticks_today as nat,
            ) + " runs) · "@ + a.cost_total@ + " in total"@)
            &&& line_text(rows[at + 2]) == padded("workdir"@, 16) + tilde_path(spec.workdir@, home)
            &&& line_text(rows[at + 3]) == padded("folder"@, 16) + tilde_path(a.dir@, home)
        }),
{
    broadcast use {crate::style::joined_line_text, crate::style::span_line_text, crate::style::blank_line_text};

}

/// The section that the user is in is the one that is shown: an empty one says so, and a
/// list has the selected one spelled out below it.
pub proof fn sections_are_told_apart(
    v: SectionView,
    body: Rect,
    a: AgentSnapshot,
    d: Detail,
    scroll: int,
    now: int,
    now_ms: int,
    t: DetailTimes,
)
    requires
        section_shows(v, body, a, d, scroll, now, now_ms, t),
    ensures
        d.section == Section::Runs && a.runs@.len() == 0 ==> (v matches SectionView::Text(l) && line_text(l@[0])
            == " "@ + "No runs yet. p queues one now."@),
        d.section == Section::Artifacts && a.notes@.len() == 0 ==> (v matches SectionView::Text(l) && line_text(l@[0])
            == " "@
            + "Nothing reported yet. An agent reports with `cc-hub agent note --text … --ref <url or path>`."@),
        d.section == Section::Log && a.events@.len() == 0 ==> (v matches SectionView::Text(l) && line_text(l@[0])
            == " "@ + "Nothing logged yet. Runs, poll failures, halts and changes made here land in events.jsonl."@),
        d.section == Section::Settings ==> (a.spec matches Err(e) ==> (v matches SectionView::Text(l) && line_text(
            l@[0],
        ) == e@ && line_text(l@[2]) == "Settings need a spec that loads. n opens "@ + a.assistant@
            + " in the agent's folder to fix it."@)),
        d.section == Section::Runs && d.run < a.runs@.len() ==> (v matches SectionView::List { area, list, pane }
            && list_shows(list, area, run_rows(a.runs@, now, now_ms), d.run as int, scroll) && (pane matches Some(p)
            ==> p.lines@ == run_text(a.runs@[d.run as int], t.run@))),
        d.section == Section::Artifacts && d.artifact < a.notes@.len() ==> (v matches SectionView::List {
            area,
            list,
            pane,
        } && list_shows(list, area, note_rows(a.notes@, now), d.artifact as int, scroll) && (pane matches Some(p)
            ==> p.lines@ == note_text(a.notes@[d.artifact as int], t.note@))),
{
    broadcast use {crate::style::joined_line_text, crate::style::span_line_text, crate::style::blank_line_text};

}

/// The keys are those of the tab, of the section of the popup, or of what is typed.
pub proof fn keys_belong_to_the_place(d: Detail, assistant: Seq<char>)
    ensures
        agent_keys(None, assistant) == "f/enter:open  space:on/off  p:run now  n:"@ + assistant
            + " here  j/k:nav  tab:next  q:quit"@,
        d.editing is Some ==> agent_keys(Some(d), assistant) == "type a value  enter:save  esc:cancel"@,
        d.editing is None && d.section == Section::Runs ==> agent_keys(Some(d), assistant)
            == "f/enter:transcript  j/k:run  h/l:section  space:on/off  p:run now  n:"@ + assistant
            + " here  R:reset  esc:close"@,
        d.editing is None && d.section == Section::Artifacts ==> agent_keys(Some(d), assistant)
            == "f/enter:open  j/k:select  h/l:section  space:on/off  p:run now  n:"@ + assistant + " here  esc:close"@,
        d.editing is None && d.section == Section::Log ==> agent_keys(Some(d), assistant)
            == "j/k:scroll  h/l:section  space:on/off  p:run now  n:"@ + assistant + " here  esc:close"@,
        d.editing is None && d.section == Section::Settings ==> agent_keys(Some(d), assistant)
            == "enter:change  e:type value  j/k:field  h/l:section  space:on/off  n:"@ + assistant
            + " here  esc:close"@,
{
}

/// The popup names the agent, and has its head above the section that the user is in.
pub proof fn popup_names_the_agent(
    p: DetailPopup,
    area: Rect,
    a: AgentSnapshot,
    d: Detail,
    scroll: int,
    now: int,
    now_ms: int,
    t: DetailTimes,
)
    requires
        area.fits(),
        detail_shows(p, area, a, d, scroll, now, now_ms, t),
    ensures
        line_text(p.title@) == " "@ + status_icon(a.status) + " "@ + a.name@ + " "@,
        p.body matches Some(b) ==> {
            &&& b.head_area.x == b.area.x && b.head_area.width == b.area.width
            &&& b.head_area.y + b.head_area.height == b.area.y
            &&& b.head_area.height + b.area.height == inside(p.area).height
            &&& section_shows(b.section, b.area, a, d, scroll, now, now_ms, t)
        },
{
    broadcast use {crate::style::joined_line_text, crate::style::span_line_text, crate::style::blank_line_text};

    assert(line_text(p.title@) == " "@ + status_icon(a.status) + " "@ + a.name@ + " "@);
    crate::geometry::scaled_fits(area.width as int, share_90());
    crate::geometry::scaled_fits(area.height as int, share_90());
}

/// The times that the popup shows are those of the selected run, of the selected report and
/// of each line of the log: where two lines were written at one moment, a clock that is as
/// far ahead at both shows the same.
pub proof fn times_belong_to_the_selected(t: DetailTimes, a: AgentSnapshot, d: Detail, now: i64)
    requires
        times_of(t, a, d, now),
    ensures
        d.run < a.runs@.len() ==> reads_clock(
            t.run@,
            match a.runs@[d.run as int] {
                Run::InFlight { n, ticking } => ticking.since,
                Run::Done { n, rec } => rec.at,
            },
            now,
        ),
        d.artifact < a.notes@.len() ==> reads_clock(t.note@, a.notes@[d.artifact as int].at, now),
        t.events@.len() == a.events@.len(),
{
}

} // verus!
