//! Task cards of the board: the rich card of a task that is planned or runs,
//! and the compact one of a task in review, being merged or done.

use crate::common::{
    context_bar, ctx_bar, ctx_color, duration_text, format_duration_secs, short_tool, tool_name,
};
use crate::geometry::{inner_of, inside, Rect};
use crate::models::{filled, filled_of, first_line_truncated, or_empty, or_empty_of, short_line, SessionInfo};
use crate::palette::{faint_text, label_gray, meta_gray, purple};
use crate::parts::{trim, trimmed};
use crate::style::{blank, fg, line_text, ln, no_lines, plain, Border, Color, Line, Lines, SpanView, Style};
use crate::tasks::{
    agent_dot_strip, collect_agent_summary, count_merged, dot_strip, merge_progress, merge_progress_spans,
    merged_workers, pr_badge, pr_badge_spans, progress, shipped_version_span, sum_tool_uses, summarises,
    task_agents, todos_progress, tools_used, version_span, AgentSummary, PrCardSummary, Task,
};
use crate::text::{
    at_least, at_most, byte_len, cat2, cat3, cat4, cat7, dec, minus, same, text_count, text_dec,
};
use vstd::prelude::*;

verus! {

broadcast use vstd::string::group_string_axioms;

/// The dimmest text of a card: the task's id and a queued card's border.
#[verifier::allow_in_spec]
pub fn task_meta_dim() -> Color
    returns
        Color::Rgb(95, 100, 115),
{
    Color::Rgb(95, 100, 115)
}

/// What the holder of the merge lock is at.
#[derive(Clone, Copy, Debug, PartialEq, Eq, Structural)]
pub enum MergePhase {
    Merging,
    Simplify,
    Bump,
    FinalizePending,
}

/// The holder of a project's merge lock.
#[derive(Debug)]
pub struct MergeLockBanner {
    pub task_id: String,
    pub short_id: String,
    pub title: Option<String>,
    /// Seconds since the epoch.
    pub acquired_at: i64,
    /// How long ago that was, in words.
    pub age: String,
    pub phase: MergePhase,
    pub pr_id: Option<u32>,
}

/// A card: its box, and its rows where the box has room for any.
#[derive(Debug)]
pub struct Card {
    pub border: Border,
    pub border_color: Color,
    pub title: Line,
    pub inner: Rect,
    pub body: Option<Lines>,
}

/// The view of a card's rows.
pub open spec fn body_view(b: Option<Lines>) -> Option<Seq<Seq<SpanView>>> {
    match b {
        Some(l) => Some(l@),
        None => None,
    }
}

/// A card has rows where its box has one and is four columns wide.
pub open spec fn has_body(inner: Rect) -> bool {
    inner.height > 0 && inner.width >= 4
}

/// The headline of a task: its title, a pencil while one is being made, or
/// the first line of its prompt.
pub open spec fn headline(t: Task, titling: bool, max: int) -> Seq<char> {
    match filled(t.title) {
        Some(name) => short_line(name, max),
        None => if titling {
            short_line("✎ …"@, max)
        } else {
            short_line(t.prompt@, max)
        },
    }
}

pub fn task_card_header_text(t: &Task, titling_in_flight: bool, prompt_max: usize) -> (r: String)
    ensures
        r@ == headline(*t, titling_in_flight, prompt_max as int),
{
    match filled_of(&t.title) {
        Some(name) => first_line_truncated(&name, prompt_max),
        None => if titling_in_flight {
            first_line_truncated("✎ …", prompt_max)
        } else {
            first_line_truncated(&t.prompt, prompt_max)
        },
    }
}

/// The style of a headline.
pub open spec fn headline_style(selected: bool, c: Color) -> Style {
    if selected {
        fg(Color::White).bold()
    } else {
        fg(c)
    }
}

fn style_of_headline(selected: bool, c: Color) -> (r: Style)
    ensures
        r == headline_style(selected, c),
{
    if selected {
        fg(Color::White).bold()
    } else {
        fg(c)
    }
}

// ---------------------------------------------------------------------------
// Compact cards
// ---------------------------------------------------------------------------

/// The accent, the text colour and the icon of a column.
pub open spec fn column_look(col: int) -> (Color, Color, Seq<char>) {
    if col == 2 {
        (Color::LightCyan, Color::Rgb(140, 175, 185), "󱋲"@)
    } else if col == 3 {
        (Color::LightMagenta, Color::Rgb(180, 145, 195), ""@)
    } else {
        (Color::LightGreen, Color::Rgb(140, 160, 145), "󰸞"@)
    }
}

/// Another task holds the merge lock that this one waits for.
pub open spec fn is_queued(t: Task, col: int, lock: Option<MergeLockBanner>) -> bool {
    col == 3 && (lock matches Some(h) && h.task_id@ != t.task_id@)
}

/// The task holds the merge lock itself.
pub open spec fn is_merging(t: Task, col: int, lock: Option<MergeLockBanner>) -> bool {
    col == 3 && (lock matches Some(h) && h.task_id@ == t.task_id@)
}

/// While a task holds the merge lock, every card of the column is either that
/// task's or queued behind it; without a holder, none is either.
pub proof fn merging_or_queued(t: Task, lock: Option<MergeLockBanner>)
    ensures
        lock is Some ==> is_queued(t, 3, lock) != is_merging(t, 3, lock),
        lock is None ==> !is_queued(t, 3, lock) && !is_merging(t, 3, lock),
        forall|col: int| col != 3 ==> !is_queued(t, col, lock) && !is_merging(t, col, lock),
{
}

pub open spec fn compact_border(selected: bool, col: int, queued: bool) -> (Border, Color) {
    if selected {
        (Border::Double, Color::White)
    } else if col == 2 {
        (Border::Rounded, Color::Rgb(110, 170, 180))
    } else if queued {
        (Border::Rounded, task_meta_dim())
    } else if col == 3 {
        (Border::Rounded, Color::Rgb(170, 130, 180))
    } else {
        (Border::Rounded, Color::Rgb(55, 60, 70))
    }
}

fn border_of_compact(selected: bool, col: usize, queued: bool) -> (r: (Border, Color))
    ensures
        r == compact_border(selected, col as int, queued),
{
    if selected {
        (Border::Double, Color::White)
    } else if col == 2 {
        (Border::Rounded, Color::Rgb(110, 170, 180))
    } else if queued {
        (Border::Rounded, task_meta_dim())
    } else if col == 3 {
        (Border::Rounded, Color::Rgb(170, 130, 180))
    } else {
        (Border::Rounded, Color::Rgb(55, 60, 70))
    }
}

/// Whether the task waits for the merge lock or holds it.
pub open spec fn lock_pill(queued: bool, merging: bool) -> Seq<SpanView> {
    if queued {
        ln(" queued "@, fg(Color::Rgb(170, 170, 185)).on(Color::Rgb(45, 45, 55)))
    } else if merging {
        ln(" merging "@, fg(Color::Black).on(Color::Rgb(190, 145, 210)).bold())
    } else {
        blank()
    }
}

pub open spec fn compact_title(
    t: Task,
    width: int,
    selected: bool,
    col: int,
    titling: bool,
    queued: bool,
    merging: bool,
) -> Seq<SpanView> {
    let (accent, text, icon) = column_look(col);
    ln(
        " "@ + icon + " "@,
        fg(
            if queued {
                Color::Rgb(135, 135, 155)
            } else {
                accent
            },
        ),
    ) + ln(headline(t, titling, minus(width, 8)), headline_style(selected, text)) + lock_pill(
        queued,
        merging,
    ) + ln(" "@, plain())
}

fn build_compact_title(
    t: &Task,
    width: u16,
    selected: bool,
    col: usize,
    titling: bool,
    queued: bool,
    merging: bool,
) -> (r: Line)
    ensures
        r@ == compact_title(*t, width as int, selected, col as int, titling, queued, merging),
{
    let (accent, text, icon) = if col == 2 {
        (Color::LightCyan, Color::Rgb(140, 175, 185), "󱋲")
    } else if col == 3 {
        (Color::LightMagenta, Color::Rgb(180, 145, 195), "")
    } else {
        (Color::LightGreen, Color::Rgb(140, 160, 145), "󰸞")
    };
    let icon_color = if queued {
        Color::Rgb(135, 135, 155)
    } else {
        accent
    };
    let max: usize = (width as usize).saturating_sub(8);
    let mut l = Line::of(&cat3(" ", icon, " "), fg(icon_color));
    l.put(&task_card_header_text(t, titling, max), style_of_headline(selected, text));
    let pill = if queued {
        Line::of(" queued ", fg(Color::Rgb(170, 170, 185)).on(Color::Rgb(45, 45, 55)))
    } else if merging {
        Line::of(" merging ", fg(Color::Black).on(Color::Rgb(190, 145, 210)).bold())
    } else {
        Line::empty()
    };
    l.join(pill);
    l.put(" ", plain());
    l
}

/// Who holds the lock, with a title where there is room, and for how long.
pub open spec fn holder_text(h: MergeLockBanner, now: int, width: int) -> Seq<char> {
    let age = " · "@ + duration_text(minus(now, at_least(h.acquired_at as int, 0)) as nat);
    let title = trimmed(or_empty(h.title));
    if title.len() > 0 {
        let prefix = "behind #"@ + h.short_id@ + " · "@;
        prefix + short_line(title, minus(minus(width, 4), (prefix.len() + age.len()) as int)) + age
    } else {
        "behind #"@ + h.short_id@ + age
    }
}

fn build_holder_text(h: &MergeLockBanner, now: u64, width: u16) -> (r: String)
    ensures
        r@ == holder_text(*h, now as int, width as int),
{
    let since: u64 = if h.acquired_at > 0 {
        h.acquired_at as u64
    } else {
        0
    };
    let age = cat2(" · ", &format_duration_secs(now.saturating_sub(since)));
    let title = trim(&or_empty_of(&h.title));
    if !title.as_str().is_empty() {
        let prefix = cat3("behind #", &h.short_id, " · ");
        let reserved: usize = prefix.as_str().unicode_len().saturating_add(age.as_str().unicode_len());
        let body_max: usize = (width as usize).saturating_sub(4);
        let room: usize = body_max.saturating_sub(reserved);
        cat3(&prefix, &first_line_truncated(&title, room), &age)
    } else {
        cat3("behind #", &h.short_id, &age)
    }
}

pub open spec fn phase_text(p: MergePhase) -> Seq<char> {
    match p {
        MergePhase::Merging => "merging"@,
        MergePhase::Simplify => "/simplify"@,
        MergePhase::Bump => "/bump"@,
        MergePhase::FinalizePending => "finalizing"@,
    }
}

/// What the holder of the lock is at, and since when.
pub open spec fn leader_text(h: MergeLockBanner) -> Seq<char> {
    match h.pr_id {
        Some(n) => "PR #"@ + dec(n as nat) + " in "@ + phase_text(h.phase) + " ("@ + h.age@ + ")"@,
        None => "behind "@ + h.short_id@ + " in "@ + phase_text(h.phase) + " ("@ + h.age@ + ")"@,
    }
}

fn build_leader_text(h: &MergeLockBanner) -> (r: String)
    ensures
        r@ == leader_text(*h),
{
    let phase = match h.phase {
        MergePhase::Merging => "merging",
        MergePhase::Simplify => "/simplify",
        MergePhase::Bump => "/bump",
        MergePhase::FinalizePending => "finalizing",
    };
    match h.pr_id {
        Some(n) => cat7("PR #", &text_dec(n as u64), " in ", phase, " (", &h.age, ")"),
        None => cat7("behind ", &h.short_id, " in ", phase, " (", &h.age, ")"),
    }
}

/// What stands first on a compact card: who a queued task waits for, else its
/// summary or note.
pub open spec fn compact_lead(
    t: Task,
    queued: bool,
    lock: Option<MergeLockBanner>,
    now: int,
    width: int,
) -> Seq<Seq<SpanView>> {
    if queued {
        match lock {
            Some(h) => seq![
                ln("󰔟 "@, fg(meta_gray())) + ln(
                    holder_text(h, now, width),
                    fg(Color::Rgb(170, 170, 185)),
                ),
            ],
            None => no_lines(),
        }
    } else {
        let said = match t.summary {
            Some(s) => s@,
            None => or_empty(t.note),
        };
        let line = short_line(said, minus(width, 4));
        if line.len() > 0 {
            seq![ln("󰍡 "@, fg(meta_gray())) + ln(line, fg(Color::Rgb(160, 165, 175)))]
        } else {
            no_lines()
        }
    }
}

fn build_compact_lead(
    t: &Task,
    queued: bool,
    lock: &Option<MergeLockBanner>,
    now: u64,
    width: u16,
) -> (r: Lines)
    ensures
        r@ == compact_lead(*t, queued, *lock, now as int, width as int),
{
    if queued {
        match lock {
            Some(h) => {
                let mut l = Line::of("󰔟 ", fg(meta_gray()));
                l.put(&build_holder_text(h, now, width), fg(Color::Rgb(170, 170, 185)));
                Lines::of(l)
            },
            None => Lines::none(),
        }
    } else {
        let said = match &t.summary {
            Some(s) => s.clone(),
            None => or_empty_of(&t.note),
        };
        let line = first_line_truncated(&said, (width as usize).saturating_sub(4));
        if !line.as_str().is_empty() {
            let mut l = Line::of("󰍡 ", fg(meta_gray()));
            l.put(&line, fg(Color::Rgb(160, 165, 175)));
            Lines::of(l)
        } else {
            Lines::none()
        }
    }
}

pub open spec fn version_line(t: Task) -> Seq<Seq<SpanView>> {
    match filled(t.shipped_version) {
        Some(v) => seq![ln("󰓹 "@, fg(meta_gray())) + version_span(v)],
        None => no_lines(),
    }
}

fn build_version_line(t: &Task) -> (r: Lines)
    ensures
        r@ == version_line(*t),
{
    match filled_of(&t.shipped_version) {
        Some(v) => {
            let mut l = Line::of("󰓹 ", fg(meta_gray()));
            l.join(shipped_version_span(&v));
            Lines::of(l)
        },
        None => Lines::none(),
    }
}

pub open spec fn leader_line(queued: bool, lock: Option<MergeLockBanner>) -> Seq<Seq<SpanView>> {
    match lock {
        Some(h) => if queued {
            seq![ln("⏳ "@, fg(meta_gray())) + ln(leader_text(h), fg(label_gray()))]
        } else {
            no_lines()
        },
        None => no_lines(),
    }
}

fn build_leader_line(queued: bool, lock: &Option<MergeLockBanner>) -> (r: Lines)
    ensures
        r@ == leader_line(queued, *lock),
{
    match lock {
        Some(h) => if queued {
            let mut l = Line::of("⏳ ", fg(meta_gray()));
            l.put(&build_leader_text(h), fg(label_gray()));
            Lines::of(l)
        } else {
            Lines::none()
        },
        None => Lines::none(),
    }
}

/// A part of a footer, set off from what stands before it.
pub open spec fn apart(text: Seq<char>, c: Color) -> Seq<SpanView> {
    ln("   "@, plain()) + ln(text, fg(c))
}

fn build_apart(text: &str, c: Color) -> (r: Line)
    ensures
        r@ == apart(text@, c),
{
    let mut l = Line::of("   ", plain());
    l.put(text, fg(c));
    l
}

pub open spec fn merges_part(t: Task) -> Seq<SpanView> {
    let n = t.workers@.len();
    if n > 0 {
        apart(
            "merges "@ + dec(merged_workers(t, n as int) as nat) + "/"@ + dec(n),
            Color::Rgb(140, 145, 160),
        )
    } else {
        blank()
    }
}

pub open spec fn artifacts_part(t: Task) -> Seq<SpanView> {
    if t.artifacts@.len() > 0 {
        apart("󰉂 "@ + dec(t.artifacts@.len()), Color::Rgb(160, 145, 195))
    } else {
        blank()
    }
}

pub open spec fn todos_part(t: Task) -> Seq<SpanView> {
    match progress(t) {
        Some((done, total)) => apart(
            "☑ "@ + dec(done as nat) + "/"@ + dec(total as nat),
            Color::Rgb(140, 145, 160),
        ),
        None => blank(),
    }
}

pub open spec fn tools_part(uses: int) -> Seq<SpanView> {
    if uses > 0 {
        apart("󰖷 "@ + dec(uses as nat), Color::Rgb(180, 200, 160))
    } else {
        blank()
    }
}

pub open spec fn pr_part(pr: Option<PrCardSummary>) -> Seq<SpanView> {
    match pr {
        Some(p) => ln("   "@, plain()) + pr_badge(p),
        None => blank(),
    }
}

/// The footer of a compact card: id, age, and what there is of merges,
/// artifacts, to-dos, tool uses and a pull request.
pub open spec fn compact_footer(t: Task, uses: int, pr: Option<PrCardSummary>) -> Seq<SpanView> {
    ln("#"@ + t.short_id@ + "  "@, fg(task_meta_dim())) + ln("󰔟 "@, fg(meta_gray())) + ln(
        t.age@,
        fg(Color::Rgb(140, 145, 160)),
    ) + merges_part(t) + artifacts_part(t) + todos_part(t) + tools_part(uses) + pr_part(pr)
}

fn build_compact_footer(t: &Task, uses: u64, pr: Option<PrCardSummary>) -> (r: Line)
    ensures
        r@ == compact_footer(*t, uses as int, pr),
{
    let mut l = Line::of(&cat3("#", &t.short_id, "  "), fg(task_meta_dim()));
    l.put("󰔟 ", fg(meta_gray()));
    l.put(&t.age, fg(Color::Rgb(140, 145, 160)));
    let n: usize = t.workers.len();
    let merges = if n > 0 {
        build_apart(
            &cat4("merges ", &text_count(count_merged(t)), "/", &text_count(n)),
            Color::Rgb(140, 145, 160),
        )
    } else {
        Line::empty()
    };
    l.join(merges);
    let arts = if t.artifacts.len() > 0 {
        build_apart(&cat2("󰉂 ", &text_count(t.artifacts.len())), Color::Rgb(160, 145, 195))
    } else {
        Line::empty()
    };
    l.join(arts);
    let todos = match todos_progress(t) {
        Some((done, total)) => build_apart(
            &cat4("☑ ", &text_count(done), "/", &text_count(total)),
            Color::Rgb(140, 145, 160),
        ),
        None => Line::empty(),
    };
    l.join(todos);
    let tools = if uses > 0 {
        build_apart(&cat2("󰖷 ", &text_dec(uses)), Color::Rgb(180, 200, 160))
    } else {
        Line::empty()
    };
    l.join(tools);
    let badge = match pr {
        Some(p) => {
            let mut m = Line::of("   ", plain());
            m.join(pr_badge_spans(&p));
            m
        },
        None => Line::empty(),
    };
    l.join(badge);
    l
}

/// The rows of a compact card.
pub open spec fn compact_rows(
    t: Task,
    sessions: Seq<SessionInfo>,
    pr: Option<PrCardSummary>,
    queued: bool,
    lock: Option<MergeLockBanner>,
    now: int,
    width: int,
) -> Seq<Seq<SpanView>> {
    compact_lead(t, queued, lock, now, width) + version_line(t) + leader_line(queued, lock) + seq![
        compact_footer(t, tools_used(task_agents(t, sessions)), pr),
    ]
}

/// `r` is the short card of a task.
pub open spec fn compact_shows(
    r: Card,
    area: Rect,
    t: Task,
    selected: bool,
    col_idx: usize,
    sessions: Seq<SessionInfo>,
    pr_summary: Option<PrCardSummary>,
    now_secs: u64,
    titling_in_flight: bool,
    lock_holder: Option<MergeLockBanner>,
) -> bool {
    let queued = is_queued(t, col_idx as int, lock_holder);
    let merging = is_merging(t, col_idx as int, lock_holder);
    &&& (r.border, r.border_color) == compact_border(selected, col_idx as int, queued)
    &&& r.title@ == compact_title(
        t,
        area.width as int,
        selected,
        col_idx as int,
        titling_in_flight,
        queued,
        merging,
    )
    &&& r.inner == inside(area)
    &&& body_view(r.body) == if has_body(inside(area)) {
        Some(
            compact_rows(
                t,
                sessions,
                pr_summary,
                queued,
                lock_holder,
                now_secs as int,
                inside(area).width as int,
            ),
        )
    } else {
        None
    }
}

/// The compact card of a task in review, being merged or done.
pub fn render_task_card_collapsed(
    area: Rect,
    t: &Task,
    selected: bool,
    col_idx: usize,
    sessions: &Vec<SessionInfo>,
    pr_summary: Option<PrCardSummary>,
    now_secs: u64,
    titling_in_flight: bool,
    lock_holder: &Option<MergeLockBanner>,
) -> (r: Card)
    requires
        area.fits(),
    ensures
        compact_shows(
            r,
            area,
            *t,
            selected,
            col_idx,
            sessions@,
            pr_summary,
            now_secs,
            titling_in_flight,
            *lock_holder,
        ),
{
    let holds = match lock_holder {
        Some(h) => if same(&h.task_id, &t.task_id) {
            Some(true)
        } else {
            Some(false)
        },
        None => None,
    };
    let (queued, merging) = match holds {
        Some(b) => (col_idx == 3 && !b, col_idx == 3 && b),
        None => (false, false),
    };
    let (border, border_color) = border_of_compact(selected, col_idx, queued);
    let title = build_compact_title(
        t,
        area.width,
        selected,
        col_idx,
        titling_in_flight,
        queued,
        merging,
    );
    let inner = inner_of(area);
    if inner.height == 0 || inner.width < 4 {
        return Card { border, border_color, title, inner, body: None };
    }
    let mut lines = build_compact_lead(t, queued, lock_holder, now_secs, inner.width);
    lines.join(build_version_line(t));
    lines.join(build_leader_line(queued, lock_holder));
    lines.put(build_compact_footer(t, sum_tool_uses(t, sessions), pr_summary));
    Card { border, border_color, title, inner, body: Some(lines) }
}

// ---------------------------------------------------------------------------
// Rich cards
// ---------------------------------------------------------------------------

pub open spec fn rich_border(selected: bool, waiting: bool) -> (Border, Color) {
    if selected {
        (Border::Double, Color::White)
    } else if waiting {
        (Border::Rounded, Color::Rgb(220, 200, 120))
    } else {
        (Border::Rounded, Color::Rgb(80, 90, 110))
    }
}

fn border_of_rich(selected: bool, waiting: bool) -> (r: (Border, Color))
    ensures
        r == rich_border(selected, waiting),
{
    if selected {
        (Border::Double, Color::White)
    } else if waiting {
        (Border::Rounded, Color::Rgb(220, 200, 120))
    } else {
        (Border::Rounded, Color::Rgb(80, 90, 110))
    }
}

pub open spec fn rich_title(t: Task, width: int, selected: bool, col: int, titling: bool) -> Seq<SpanView> {
    (if col == 0 {
        ln(" "@ + "󰟶"@ + " "@, fg(purple()))
    } else {
        ln(" "@ + "󰒓"@ + " "@, fg(Color::LightYellow))
    }) + ln(headline(t, titling, minus(width, 8)), headline_style(selected, Color::Gray)) + ln(
        " "@,
        plain(),
    )
}

fn build_rich_title(t: &Task, width: u16, selected: bool, col: usize, titling: bool) -> (r: Line)
    ensures
        r@ == rich_title(*t, width as int, selected, col as int, titling),
{
    let mut l = if col == 0 {
        Line::of(&cat3(" ", "󰟶", " "), fg(purple()))
    } else {
        Line::of(&cat3(" ", "󰒓", " "), fg(Color::LightYellow))
    };
    let max: usize = (width as usize).saturating_sub(8);
    l.put(&task_card_header_text(t, titling, max), style_of_headline(selected, Color::Gray));
    l.put(" ", plain());
    l
}

/// The note of a task, or its summary where it has no note. A row without
/// either stays empty.
pub open spec fn note_row(t: Task, width: int) -> Seq<SpanView> {
    let said = match t.note {
        Some(n) => n@,
        None => or_empty(t.summary),
    };
    let line = short_line(said, minus(width, 4));
    if line.len() > 0 {
        ln("󰍡 "@, fg(Color::Rgb(150, 170, 200))) + ln(line, fg(Color::Rgb(190, 190, 210)))
    } else {
        ln(""@, plain())
    }
}

fn build_note_row(t: &Task, width: u16) -> (r: Line)
    ensures
        r@ == note_row(*t, width as int),
{
    let said = match &t.note {
        Some(n) => n.clone(),
        None => or_empty_of(&t.summary),
    };
    let line = first_line_truncated(&said, (width as usize).saturating_sub(4));
    if !line.as_str().is_empty() {
        let mut l = Line::of("󰍡 ", fg(Color::Rgb(150, 170, 200)));
        l.put(&line, fg(Color::Rgb(190, 190, 210)));
        l
    } else {
        Line::raw("")
    }
}

pub open spec fn pr_row(pr: Option<PrCardSummary>) -> Seq<Seq<SpanView>> {
    match pr {
        Some(p) => seq![pr_badge(p)],
        None => no_lines(),
    }
}

pub open spec fn agents_row(t: Task, sum: AgentSummary) -> Seq<SpanView> {
    ln("agents "@, fg(label_gray())) + dot_strip(sum) + ln("   "@, plain()) + merge_progress(t)
}

/// What stands before the context bar: id, age, and what there is of
/// artifacts, to-dos and tool uses.
pub open spec fn meta_part(t: Task, sum: AgentSummary) -> Seq<SpanView> {
    ln("#"@ + t.short_id@ + "  "@, fg(task_meta_dim())) + ln("󰔟 "@, fg(label_gray())) + ln(
        t.age@,
        fg(faint_text()),
    ) + (if t.artifacts@.len() > 0 {
        ln("   󰉂 "@ + dec(t.artifacts@.len()), fg(Color::Rgb(180, 160, 220)))
    } else {
        blank()
    }) + (match progress(t) {
        Some((done, total)) => ln(
            "   ☑ "@ + dec(done as nat) + "/"@ + dec(total as nat),
            fg(faint_text()),
        ),
        None => blank(),
    }) + (if sum.tool_uses > 0 {
        ln("   󰖷 "@ + dec(sum.tool_uses as nat), fg(Color::Rgb(180, 200, 160)))
    } else {
        blank()
    })
}

fn build_meta_part(t: &Task, sum: &AgentSummary) -> (r: Line)
    ensures
        r@ == meta_part(*t, *sum),
{
    let mut l = Line::of(&cat3("#", &t.short_id, "  "), fg(task_meta_dim()));
    l.put("󰔟 ", fg(label_gray()));
    l.put(&t.age, fg(faint_text()));
    let arts = if t.artifacts.len() > 0 {
        Line::of(&cat2("   󰉂 ", &text_count(t.artifacts.len())), fg(Color::Rgb(180, 160, 220)))
    } else {
        Line::empty()
    };
    l.join(arts);
    let todos = match todos_progress(t) {
        Some((done, total)) => Line::of(
            &cat4("   ☑ ", &text_count(done), "/", &text_count(total)),
            fg(faint_text()),
        ),
        None => Line::empty(),
    };
    l.join(todos);
    let tools = if sum.tool_uses > 0 {
        Line::of(&cat2("   󰖷 ", &text_dec(sum.tool_uses)), fg(Color::Rgb(180, 200, 160)))
    } else {
        Line::empty()
    };
    l.join(tools);
    l
}

/// How many columns a context bar has behind `taken` characters: at most 20.
pub open spec fn bar_room(width: int, taken: int) -> int {
    at_most(minus(width, taken), 20)
}

/// The context in use, with a bar where at least four columns are left.
pub open spec fn context_part(pct: u8, width: int, taken: int) -> Seq<SpanView> {
    let label = "  󰍛 "@ + dec(pct as nat) + "% "@;
    let room = bar_room(width, taken + label.len());
    if room >= 4 {
        ln(label, fg(ctx_color(pct))) + context_bar(pct, room)
    } else {
        ln("  󰍛 "@ + dec(pct as nat) + "%"@, fg(ctx_color(pct)))
    }
}

pub open spec fn meta_row(t: Task, sum: AgentSummary, width: int) -> Seq<SpanView> {
    meta_part(t, sum) + context_part(
        sum.max_ctx_pct,
        width,
        line_text(meta_part(t, sum)).len() as int,
    )
}

fn build_meta_row(t: &Task, sum: &AgentSummary, width: u16) -> (r: Line)
    ensures
        r@ == meta_row(*t, *sum, width as int),
{
    let mut l = build_meta_part(t, sum);
    let taken: usize = l.chars_len();
    let pct: u8 = sum.max_ctx_pct;
    let label = cat3("  󰍛 ", &text_dec(pct as u64), "% ");
    let reserved: usize = taken.saturating_add(label.as_str().unicode_len());
    let left: usize = (width as usize).saturating_sub(reserved);
    let room: usize = if left < 20 {
        left
    } else {
        20
    };
    assert(room == bar_room(width as int, (line_text(l@).len() + label@.len()) as int));
    let part = if room >= 4 {
        let mut m = Line::of(&label, fg(ctx_color(pct)));
        assert(at_most(pct as int, 100) * room <= 100 * 20) by (nonlinear_arith)
            requires
                0 <= at_most(pct as int, 100) <= 100,
                0 <= room <= 20,
        ;
        m.join(ctx_bar(pct, room));
        m
    } else {
        Line::of(&cat3("  󰍛 ", &text_dec(pct as u64), "%"), fg(ctx_color(pct)))
    };
    l.join(part);
    l
}

/// The tool that runs, or that an agent is thinking.
pub open spec fn live_row(sum: AgentSummary, width: int) -> Seq<Seq<SpanView>> {
    match sum.current_tool {
        Some((tool, hint)) => {
            let name = tool_name(tool@);
            let text = match filled(hint) {
                Some(h) => "󰖷 "@ + name + ": "@ + short_line(
                    h,
                    minus(minus(width, 4), byte_len(name) + 4),
                ),
                None => "󰖷 "@ + name,
            };
            seq![ln(text, fg(Color::Rgb(180, 200, 160)))]
        },
        None => if sum.is_thinking {
            seq![ln("󰟶 thinking"@, fg(purple()))]
        } else {
            no_lines()
        },
    }
}

fn build_live_row(sum: &AgentSummary, width: u16) -> (r: Lines)
    ensures
        r@ == live_row(*sum, width as int),
{
    match &sum.current_tool {
        Some((tool, hint)) => {
            let name = short_tool(tool);
            let max: usize = (width as usize).saturating_sub(4);
            let text = match filled_of(hint) {
                Some(h) => {
                    proof {
                        crate::text::lemma_byte_len(name@);
                    }
                    let room: usize = max.saturating_sub(name.as_str().len() + 4);
                    cat4("󰖷 ", &name, ": ", &first_line_truncated(&h, room))
                },
                None => cat2("󰖷 ", &name),
            };
            Lines::of(Line::of(&text, fg(Color::Rgb(180, 200, 160))))
        },
        None => if sum.is_thinking {
            Lines::of(Line::of("󰟶 thinking", fg(purple())))
        } else {
            Lines::none()
        },
    }
}

/// The rows of a rich card.
pub open spec fn rich_rows(
    t: Task,
    sum: AgentSummary,
    pr: Option<PrCardSummary>,
    width: int,
) -> Seq<Seq<SpanView>> {
    seq![note_row(t, width)] + pr_row(pr) + seq![agents_row(t, sum)] + seq![
        meta_row(t, sum, width),
    ] + live_row(sum, width)
}

fn build_rich_rows(t: &Task, sum: &AgentSummary, pr: Option<PrCardSummary>, width: u16) -> (r: Lines)
    ensures
        r@ == rich_rows(*t, *sum, pr, width as int),
{
    let mut lines = Lines::of(build_note_row(t, width));
    let badge = match pr {
        Some(p) => Lines::of(pr_badge_spans(&p)),
        None => Lines::none(),
    };
    lines.join(badge);
    let mut row = Line::of("agents ", fg(label_gray()));
    row.join(agent_dot_strip(sum));
    row.put("   ", plain());
    row.join(merge_progress_spans(t));
    lines.put(row);
    lines.put(build_meta_row(t, sum, width));
    lines.join(build_live_row(sum, width));
    lines
}

/// `r` is the tall card of a task.
pub open spec fn rich_shows(
    r: Card,
    area: Rect,
    t: Task,
    selected: bool,
    col_idx: usize,
    sessions: Seq<SessionInfo>,
    pr_summary: Option<PrCardSummary>,
    titling_in_flight: bool,
) -> bool {
    &&& exists|sum: AgentSummary|
        #![trigger summarises(sum, task_agents(t, sessions))]
        {
            &&& summarises(sum, task_agents(t, sessions))
            &&& (r.border, r.border_color) == rich_border(selected, sum.waiting > 0)
            &&& body_view(r.body) == if has_body(inside(area)) {
                Some(rich_rows(t, sum, pr_summary, inside(area).width as int))
            } else {
                None
            }
        }
    &&& r.title@ == rich_title(
        t,
        area.width as int,
        selected,
        col_idx as int,
        titling_in_flight,
    )
    &&& r.inner == inside(area)
}

/// The rich card of a task that is planned or runs.
pub fn render_task_card_active(
    area: Rect,
    t: &Task,
    selected: bool,
    col_idx: usize,
    sessions: &Vec<SessionInfo>,
    pr_summary: Option<PrCardSummary>,
    titling_in_flight: bool,
) -> (r: Card)
    requires
        area.fits(),
    ensures
        rich_shows(r, area, *t, selected, col_idx, sessions@, pr_summary, titling_in_flight),
{
    let sum = collect_agent_summary(t, sessions);
    let (border, border_color) = border_of_rich(selected, sum.waiting > 0);
    let title = build_rich_title(t, area.width, selected, col_idx, titling_in_flight);
    let inner = inner_of(area);
    let body = if inner.height == 0 || inner.width < 4 {
        None
    } else {
        Some(build_rich_rows(t, &sum, pr_summary, inner.width))
    };
    assert(summarises(sum, task_agents(*t, sessions@)));
    Card { border, border_color, title, inner, body }
}

// ---------------------------------------------------------------------------
// What the cards tell
// ---------------------------------------------------------------------------

/// On a compact card that does not wait for the lock, the first row is the first line
/// of the summary, cut to the card's width: `said` is that line and `more` what
/// follows it. The note does not stand there.
pub proof fn compact_cards_tell_the_summary(
    r: Card,
    area: Rect,
    t: Task,
    selected: bool,
    col_idx: usize,
    sessions: Seq<SessionInfo>,
    pr_summary: Option<PrCardSummary>,
    now_secs: u64,
    titling_in_flight: bool,
    lock_holder: Option<MergeLockBanner>,
    said: Seq<char>,
    more: Seq<char>,
)
    requires
        compact_shows(
            r,
            area,
            t,
            selected,
            col_idx,
            sessions,
            pr_summary,
            now_secs,
            titling_in_flight,
            lock_holder,
        ),
        area.width >= 6 && area.height >= 3,
        col_idx != 3 || lock_holder is None || lock_holder->Some_0.task_id@ == t.task_id@,
        t.summary matches Some(s) && (s@ == said || s@ == said + seq!['\n'] + more),
        said.len() > 0 && !said.contains('\n') && said.last() != '\r',
    ensures
        r.body matches Some(rows) && rows@.len() > 1 && line_text(rows@[0]) == "󰍡 "@ + if said.len()
            <= area.width - 6 {
            said
        } else if area.width == 6 {
            "…"@
        } else {
            said.take(area.width - 7) + "…"@
        },
{
    broadcast use {crate::style::joined_line_text, crate::style::span_line_text, crate::style::blank_line_text};

    let max = area.width - 6;
    reveal_strlit("…");
    if said.len() <= max {
        crate::models::short_line_keeps_the_first_line(said, more, max);
    } else {
        crate::models::short_line_cuts_longer_lines(said, more, max);
        assert(said.take(0) + "…"@ =~= "…"@);
    }
    let lead = compact_lead(t, false, lock_holder, now_secs as int, max + 4);
    assert(compact_rows(t, sessions, pr_summary, false, lock_holder, now_secs as int, max + 4)[0] == lead[0]);
}

/// On such a card the note is shown where there is no summary, in the same way.
pub proof fn compact_cards_tell_the_note(
    r: Card,
    area: Rect,
    t: Task,
    selected: bool,
    col_idx: usize,
    sessions: Seq<SessionInfo>,
    pr_summary: Option<PrCardSummary>,
    now_secs: u64,
    titling_in_flight: bool,
    lock_holder: Option<MergeLockBanner>,
    said: Seq<char>,
    more: Seq<char>,
)
    requires
        compact_shows(
            r,
            area,
            t,
            selected,
            col_idx,
            sessions,
            pr_summary,
            now_secs,
            titling_in_flight,
            lock_holder,
        ),
        area.width >= 6 && area.height >= 3,
        col_idx != 3 || lock_holder is None || lock_holder->Some_0.task_id@ == t.task_id@,
        t.summary is None,
        t.note matches Some(s) && (s@ == said || s@ == said + seq!['\n'] + more),
        said.len() > 0 && !said.contains('\n') && said.last() != '\r',
    ensures
        r.body matches Some(rows) && rows@.len() > 1 && line_text(rows@[0]) == "󰍡 "@ + if said.len()
            <= area.width - 6 {
            said
        } else if area.width == 6 {
            "…"@
        } else {
            said.take(area.width - 7) + "…"@
        },
{
    broadcast use {crate::style::joined_line_text, crate::style::span_line_text, crate::style::blank_line_text};

    let max = area.width - 6;
    reveal_strlit("…");
    if said.len() <= max {
        crate::models::short_line_keeps_the_first_line(said, more, max);
    } else {
        crate::models::short_line_cuts_longer_lines(said, more, max);
        assert(said.take(0) + "…"@ =~= "…"@);
    }
    let lead = compact_lead(t, false, lock_holder, now_secs as int, max + 4);
    assert(compact_rows(t, sessions, pr_summary, false, lock_holder, now_secs as int, max + 4)[0] == lead[0]);
}

/// A task that waits for the lock shows whom it is behind and since when, and last
/// before the footer what the holder is at.
pub proof fn queued_cards_tell_the_holder(
    r: Card,
    area: Rect,
    t: Task,
    selected: bool,
    col_idx: usize,
    sessions: Seq<SessionInfo>,
    pr_summary: Option<PrCardSummary>,
    now_secs: u64,
    titling_in_flight: bool,
    lock_holder: Option<MergeLockBanner>,
)
    requires
        compact_shows(
            r,
            area,
            t,
            selected,
            col_idx,
            sessions,
            pr_summary,
            now_secs,
            titling_in_flight,
            lock_holder,
        ),
        area.width >= 6 && area.height >= 3,
        col_idx == 3,
        lock_holder matches Some(h) && h.task_id@ != t.task_id@ && h.title is None && 0 <= h.acquired_at <= now_secs,
    ensures
        ({
            let h = lock_holder->Some_0;
            let at = match h.phase {
                MergePhase::Merging => "merging"@,
                MergePhase::Simplify => "/simplify"@,
                MergePhase::Bump => "/bump"@,
                MergePhase::FinalizePending => "finalizing"@,
            };
            &&& r.body matches Some(rows) && rows@.len() >= 3 && line_text(rows@[0]) == "󰔟 "@ + ("behind #"@
                + h.short_id@ + (" · "@ + duration_text((now_secs - h.acquired_at) as nat))) && line_text(
                rows@[rows@.len() - 2],
            ) == "⏳ "@ + ((match h.pr_id {
                Some(n) => "PR #"@ + dec(n as nat),
                None => "behind "@ + h.short_id@,
            }) + " in "@ + at + " ("@ + h.age@ + ")"@)
            &&& line_text(r.title@.drop_last()).len() >= 8 && r.title@[2].text == " queued "@
        }),
{
    broadcast use {crate::style::joined_line_text, crate::style::span_line_text, crate::style::blank_line_text};

    reveal_strlit(" queued ");
    let h = lock_holder->Some_0;
    let width = area.width - 2;
    let lead = compact_lead(t, true, lock_holder, now_secs as int, width);
    let rows = compact_rows(t, sessions, pr_summary, true, lock_holder, now_secs as int, width);
    assert(rows[0] == lead[0]);
    assert(rows[rows.len() - 2] == leader_line(true, lock_holder)[0]);
    assert(trimmed(Seq::<char>::empty()).len() == 0);
    let title = r.title@.drop_last();
    assert(title =~= (title.take(2) + ln(title[2].text, title[2].style)));
}

/// The title of a compact card: the icon of its column, then the task's title, or the
/// first line of its prompt where it has none, then whether it merges.
pub proof fn compact_titles_tell_the_task(
    r: Card,
    area: Rect,
    t: Task,
    selected: bool,
    col_idx: usize,
    sessions: Seq<SessionInfo>,
    pr_summary: Option<PrCardSummary>,
    now_secs: u64,
    titling_in_flight: bool,
    lock_holder: Option<MergeLockBanner>,
)
    requires
        compact_shows(
            r,
            area,
            t,
            selected,
            col_idx,
            sessions,
            pr_summary,
            now_secs,
            titling_in_flight,
            lock_holder,
        ),
        col_idx != 3 || lock_holder is None || lock_holder->Some_0.task_id@ == t.task_id@,
    ensures
        ({
            let icon = if col_idx == 2 {
                "󱋲"@
            } else if col_idx == 3 {
                ""@
            } else {
                "󰸞"@
            };
            let pill = if col_idx == 3 && lock_holder is Some {
                " merging "@
            } else {
                Seq::empty()
            };
            let max = if area.width >= 8 {
                area.width - 8
            } else {
                0
            };
            &&& t.title matches Some(name) ==> name@.len() > 0 ==> line_text(r.title@) == (" "@ + icon + " "@)
                + short_line(name@, max) + pill + " "@
            &&& t.title is None && !titling_in_flight ==> line_text(r.title@) == (" "@ + icon + " "@) + short_line(
                t.prompt@,
                max,
            ) + pill + " "@
            &&& t.title is None && titling_in_flight ==> line_text(r.title@) == (" "@ + icon + " "@) + short_line(
                "✎ …"@,
                max,
            ) + pill + " "@
            &&& selected ==> r.border == Border::Double && r.border_color == Color::White
            &&& !selected ==> r.border == Border::Rounded && r.border_color != Color::White
        }),
{
    broadcast use {crate::style::joined_line_text, crate::style::span_line_text, crate::style::blank_line_text};

}

/// The last row of a compact card: the task's id and age, then, each where there is
/// any, how many of its workers are merged, its artifacts, how many of its to-dos are
/// done, the tool uses of all its agents, and its pull request.
pub proof fn compact_footers_tell_the_counts(
    r: Card,
    area: Rect,
    t: Task,
    selected: bool,
    col_idx: usize,
    sessions: Seq<SessionInfo>,
    pr_summary: Option<PrCardSummary>,
    now_secs: u64,
    titling_in_flight: bool,
    lock_holder: Option<MergeLockBanner>,
)
    requires
        compact_shows(
            r,
            area,
            t,
            selected,
            col_idx,
            sessions,
            pr_summary,
            now_secs,
            titling_in_flight,
            lock_holder,
        ),
        area.width >= 6 && area.height >= 3,
    ensures
        ({
            let n = t.workers@.len();
            let uses = tools_used(task_agents(t, sessions));
            let merges = if n > 0 {
                "   "@ + ("merges "@ + dec(merged_workers(t, n as int) as nat) + "/"@ + dec(n))
            } else {
                Seq::empty()
            };
            let artifacts = if t.artifacts@.len() > 0 {
                "   "@ + ("󰉂 "@ + dec(t.artifacts@.len()))
            } else {
                Seq::empty()
            };
            let todos = if t.todos@.len() > 0 {
                "   "@ + ("☑ "@ + dec(crate::tasks::done_items(t.todos@) as nat) + "/"@ + dec(t.todos@.len()))
            } else {
                Seq::empty()
            };
            let tools = if uses > 0 {
                "   "@ + ("󰖷 "@ + dec(uses as nat))
            } else {
                Seq::empty()
            };
            let pr = match pr_summary {
                Some(p) => "   "@ + line_text(pr_badge(p)),
                None => Seq::empty(),
            };
            &&& r.body matches Some(rows) && rows@.len() > 0 && line_text(rows@.last()) == ("#"@ + t.short_id@
                + "  "@) + "󰔟 "@ + t.age@ + merges + artifacts + todos + tools + pr
        }),
{
    broadcast use {crate::style::joined_line_text, crate::style::span_line_text, crate::style::blank_line_text};

}

/// A compact card of a task that was shipped has a row with the version.
pub proof fn compact_cards_tell_the_version(
    r: Card,
    area: Rect,
    t: Task,
    selected: bool,
    col_idx: usize,
    sessions: Seq<SessionInfo>,
    pr_summary: Option<PrCardSummary>,
    now_secs: u64,
    titling_in_flight: bool,
    lock_holder: Option<MergeLockBanner>,
)
    requires
        compact_shows(
            r,
            area,
            t,
            selected,
            col_idx,
            sessions,
            pr_summary,
            now_secs,
            titling_in_flight,
            lock_holder,
        ),
        area.width >= 6 && area.height >= 3,
        t.shipped_version matches Some(v) && v@.len() > 0 && v@[0] != 'v',
    ensures
        r.body matches Some(rows) && exists|k: int|
            0 <= k < rows@.len() && #[trigger] line_text(rows@[k]) == "󰓹 "@ + ("v"@ + t.shipped_version->Some_0@),
{
    broadcast use {crate::style::joined_line_text, crate::style::span_line_text, crate::style::blank_line_text};

    let v = t.shipped_version->Some_0@;
    crate::tasks::versions_have_one_v(v);
    let queued = is_queued(t, col_idx as int, lock_holder);
    let lead = compact_lead(t, queued, lock_holder, now_secs as int, area.width - 2);
    let rows = r.body->Some_0@;
    assert(rows[lead.len() as int] == version_line(t)[0]);
    assert(line_text(rows[lead.len() as int]) == "󰓹 "@ + ("v"@ + v));
}

/// The first row of a rich card is the first line of the note, cut to the card's width,
/// or that of the summary where there is no note.
pub proof fn rich_cards_tell_the_note(
    r: Card,
    area: Rect,
    t: Task,
    selected: bool,
    col_idx: usize,
    sessions: Seq<SessionInfo>,
    pr_summary: Option<PrCardSummary>,
    titling_in_flight: bool,
    said: Seq<char>,
    more: Seq<char>,
)
    requires
        rich_shows(r, area, t, selected, col_idx, sessions, pr_summary, titling_in_flight),
        area.width >= 6 && area.height >= 3,
        match t.note {
            Some(s) => s@ == said || s@ == said + seq!['\n'] + more,
            None => t.summary matches Some(s) && (s@ == said || s@ == said + seq!['\n'] + more),
        },
        said.len() > 0 && !said.contains('\n') && said.last() != '\r',
    ensures
        r.body matches Some(rows) && rows@.len() > 0 && line_text(rows@[0]) == "󰍡 "@ + if said.len()
            <= area.width - 6 {
            said
        } else if area.width == 6 {
            "…"@
        } else {
            said.take(area.width - 7) + "…"@
        },
{
    broadcast use {crate::style::joined_line_text, crate::style::span_line_text, crate::style::blank_line_text};

    let max = area.width - 6;
    reveal_strlit("…");
    if said.len() <= max {
        crate::models::short_line_keeps_the_first_line(said, more, max);
    } else {
        crate::models::short_line_cuts_longer_lines(said, more, max);
        assert(said.take(0) + "…"@ =~= "…"@);
    }
}

proof fn lemma_prefix(a: Seq<char>, b: Seq<char>, c: Seq<char>)
    requires
        b.len() <= c.len(),
        c.take(b.len() as int) == b,
    ensures
        (a + c).take((a + b).len() as int) == a + b,
{
    assert((a + c).take((a + b).len() as int) =~= a + c.take(b.len() as int));
}

/// Behind the first row of a rich card come its pull request, where it has one, its
/// agents and merges, and its counts; last what its agents do, where they do anything.
pub proof fn rich_cards_tell_the_work(
    r: Card,
    area: Rect,
    t: Task,
    selected: bool,
    col_idx: usize,
    sessions: Seq<SessionInfo>,
    pr_summary: Option<PrCardSummary>,
    titling_in_flight: bool,
    sum: AgentSummary,
)
    requires
        rich_shows(r, area, t, selected, col_idx, sessions, pr_summary, titling_in_flight),
        area.width >= 6 && area.height >= 3,
        summarises(sum, task_agents(t, sessions)),
    ensures
        ({
            let at: int = if pr_summary is Some {
                2
            } else {
                1
            };
            let doing = sum.current_tool is Some || sum.is_thinking;
            let artifacts = if t.artifacts@.len() > 0 {
                "   󰉂 "@ + dec(t.artifacts@.len())
            } else {
                Seq::empty()
            };
            let todos = if t.todos@.len() > 0 {
                "   ☑ "@ + dec(crate::tasks::done_items(t.todos@) as nat) + "/"@ + dec(t.todos@.len())
            } else {
                Seq::empty()
            };
            let tools = if sum.tool_uses > 0 {
                "   󰖷 "@ + dec(sum.tool_uses as nat)
            } else {
                Seq::empty()
            };
            let counts = ("#"@ + t.short_id@ + "  "@) + "󰔟 "@ + t.age@ + artifacts + todos + tools;
            let share = "  󰍛 "@ + dec(sum.max_ctx_pct as nat) + "%"@;
            &&& r.body is Some
            &&& r.body->Some_0@.len() == at + 2 + if doing {
                1int
            } else {
                0int
            }
            &&& pr_summary matches Some(p) ==> line_text(r.body->Some_0@[1]) == line_text(pr_badge(p))
            &&& line_text(r.body->Some_0@[at]) == "agents "@ + line_text(dot_strip(sum)) + "   "@ + line_text(
                merge_progress(t),
            )
            &&& line_text(r.body->Some_0@[at + 1]).take((counts + share).len() as int) == counts + share
            &&& selected ==> r.border == Border::Double && r.border_color == Color::White
            &&& !selected ==> r.border == Border::Rounded && r.border_color == if sum.waiting > 0 {
                Color::Rgb(220, 200, 120)
            } else {
                Color::Rgb(80, 90, 110)
            }
        }),
{
    broadcast use {crate::style::joined_line_text, crate::style::span_line_text, crate::style::blank_line_text};

    let same = choose|same: AgentSummary|
        #![trigger summarises(same, task_agents(t, sessions))]
        {
            &&& summarises(same, task_agents(t, sessions))
            &&& (r.border, r.border_color) == rich_border(selected, same.waiting > 0)
            &&& body_view(r.body) == Some(rich_rows(t, same, pr_summary, area.width - 2))
        };
    let rows = rich_rows(t, same, pr_summary, area.width - 2);
    assert(r.body->Some_0@ == rows);
    assert(dot_strip(same) == dot_strip(sum));
    let at: int = if pr_summary is Some {
        2
    } else {
        1
    };
    assert(rows[at] == agents_row(t, same));
    assert(rows[at + 1] == meta_row(t, same, area.width - 2));
    let counts = line_text(meta_part(t, same));
    let pct = sum.max_ctx_pct as nat;
    assert("  󰍛 "@ + dec(pct) + "% "@ =~= "  󰍛 "@ + dec(pct) + "%"@ + " "@) by {
        reveal_strlit("% ");
        reveal_strlit("%");
        reveal_strlit(" ");
    }
    let share = "  󰍛 "@ + dec(pct) + "%"@;
    let told = line_text(context_part(same.max_ctx_pct, area.width - 2, counts.len() as int));
    assert(told.take(share.len() as int) =~= share);
    lemma_prefix(counts, share, told);
}

/// The last row of a rich card whose agents use a tool names it, with its hint; else,
/// where one thinks, it says so.
pub proof fn rich_cards_tell_the_tool(
    r: Card,
    area: Rect,
    t: Task,
    selected: bool,
    col_idx: usize,
    sessions: Seq<SessionInfo>,
    pr_summary: Option<PrCardSummary>,
    titling_in_flight: bool,
    sum: AgentSummary,
)
    requires
        rich_shows(r, area, t, selected, col_idx, sessions, pr_summary, titling_in_flight),
        area.width >= 6 && area.height >= 3,
        summarises(sum, task_agents(t, sessions)),
    ensures
        sum.current_tool matches Some((tool, hint)) ==> hint is None ==> (r.body is Some && line_text(
            r.body->Some_0@.last(),
        ) == "󰖷 "@ + tool_name(tool@)),
        sum.current_tool matches Some((tool, Some(hint))) ==> !hint@.contains('\n') && hint@.len() > 0
            && hint@.last() != '\r' && byte_len(tool_name(tool@)) + 4 + hint@.len() <= area.width - 6 ==> (r.body is Some
            && line_text(r.body->Some_0@.last()) == "󰖷 "@ + tool_name(tool@) + ": "@ + hint@),
        sum.current_tool is None && sum.is_thinking ==> r.body is Some && line_text(r.body->Some_0@.last())
            == "󰟶 thinking"@,
{
    broadcast use {crate::style::joined_line_text, crate::style::span_line_text, crate::style::blank_line_text};

    match sum.current_tool {
        Some((tool, Some(hint))) => {
            let max = minus(area.width - 6, byte_len(tool_name(tool@)) + 4);
            if !hint@.contains('\n') && hint@.len() > 0 && hint@.last() != '\r' && hint@.len() <= max {
                crate::models::short_line_keeps_the_first_line(hint@, Seq::empty(), max);
            }
        },
        _ => {},
    }
}

/// The title of a rich card: the icon of planning or of work, then the task's title, or
/// the first line of its prompt where it has none.
pub proof fn rich_titles_tell_the_task(
    r: Card,
    area: Rect,
    t: Task,
    selected: bool,
    col_idx: usize,
    sessions: Seq<SessionInfo>,
    pr_summary: Option<PrCardSummary>,
    titling_in_flight: bool,
)
    requires
        rich_shows(r, area, t, selected, col_idx, sessions, pr_summary, titling_in_flight),
    ensures
        ({
            let icon = if col_idx == 0 {
                "󰟶"@
            } else {
                "󰒓"@
            };
            let max = if area.width >= 8 {
                area.width - 8
            } else {
                0
            };
            &&& t.title matches Some(name) ==> name@.len() > 0 ==> line_text(r.title@) == (" "@ + icon + " "@)
                + short_line(name@, max) + " "@
            &&& t.title is None && !titling_in_flight ==> line_text(r.title@) == (" "@ + icon + " "@) + short_line(
                t.prompt@,
                max,
            ) + " "@
            &&& t.title is None && titling_in_flight ==> line_text(r.title@) == (" "@ + icon + " "@) + short_line(
                "✎ …"@,
                max,
            ) + " "@
        }),
{
    broadcast use {crate::style::joined_line_text, crate::style::span_line_text, crate::style::blank_line_text};

}

} // verus!
