//! The board: five columns of task cards, each scrolled so that its selected
//! card is visible.

use crate::geometry::{
    asked, edge, fills, has_spare, inner_of, inside, layout_split, part, shares, taken, Constraint, Rect,
};
use crate::models::{opt, SessionInfo};
use crate::palette::{dim_text, label_gray, purple};
use crate::style::{blank, fg, line_text, ln, plain, Border, Color, Line, SpanView};
use crate::task_cards::{
    compact_shows, render_task_card_active, render_task_card_collapsed, rich_shows, Card, MergeLockBanner, MergePhase,
};
use crate::tasks::{PrCardSummary, Task};
use crate::text::{at_most, cat2, cat3, cat5, dec, minus, same, text_count};
use vstd::prelude::*;

verus! {

broadcast use vstd::string::group_string_axioms;

// ---------------------------------------------------------------------------
// Columns
// ---------------------------------------------------------------------------

/// The column that begins after `from` elevenths of the board and ends after
/// `to`.
pub open spec fn column_area(area: Rect, from: int, to: int) -> Rect {
    let start = edge(area.width as int, from, 11);
    part(area, false, start, edge(area.width as int, to, 11) - start)
}

/// The columns stand side by side and take the whole width of the board.
pub proof fn columns_tile_the_board(area: Rect, from: int, to: int)
    requires
        area.fits(),
        0 <= from <= to <= 11,
    ensures
        column_area(area, 0, to).x == area.x,
        column_area(area, from, to).x + column_area(area, from, to).width == area.x + edge(
            area.width as int,
            to,
            11,
        ),
        column_area(area, from, 11).x + column_area(area, from, 11).width == area.x + area.width,
        column_area(area, from, to).within(area),
{
    let w = area.width as int;
    assert(0 <= from * w <= to * w <= 11 * w) by (nonlinear_arith)
        requires
            0 <= from <= to <= 11,
            0 <= w,
    ;
    assert(2 * from * w == 2 * (from * w)) by (nonlinear_arith);
    assert(2 * to * w == 2 * (to * w)) by (nonlinear_arith);
    assert(2 * 0 * w == 0) by (nonlinear_arith);
}

/// Whether the board has no room for its columns.
#[verifier::allow_in_spec]
pub fn too_narrow(area: Rect) -> bool
    returns
        area.height < 3 || area.width < 30,
{
    area.height < 3 || area.width < 30
}

/// The areas of the five columns: the second has three elevenths of the
/// width, the others have two.
pub fn render_kanban_board(area: Rect) -> (r: Vec<Rect>)
    requires
        area.fits(),
    ensures
        r@ == seq![
            column_area(area, 0, 2),
            column_area(area, 2, 5),
            column_area(area, 5, 7),
            column_area(area, 7, 9),
            column_area(area, 9, 11),
        ],
{
    let mut parts: Vec<Constraint> = Vec::new();
    parts.push(Constraint::Ratio(2, 11));
    parts.push(Constraint::Ratio(3, 11));
    parts.push(Constraint::Ratio(2, 11));
    parts.push(Constraint::Ratio(2, 11));
    parts.push(Constraint::Ratio(2, 11));
    let r = layout_split(area, false, &parts);
    proof {
        reveal_with_fuel(shares, 6);
        assert(fills(parts@, 11));
    }
    r
}

/// The icon and the accent of a column.
pub open spec fn column_meta(col: int) -> (Seq<char>, Color) {
    if col == 0 {
        ("󰟶"@, purple())
    } else if col == 1 {
        ("󰒓"@, Color::LightYellow)
    } else if col == 2 {
        ("󱋲"@, Color::LightCyan)
    } else if col == 3 {
        (""@, Color::LightMagenta)
    } else {
        ("󰸞"@, Color::LightGreen)
    }
}

pub fn kanban_column_meta(col: usize) -> (r: (String, Color))
    ensures
        (r.0@, r.1) == column_meta(col as int),
{
    let (icon, accent) = if col == 0 {
        ("󰟶", purple())
    } else if col == 1 {
        ("󰒓", Color::LightYellow)
    } else if col == 2 {
        ("󱋲", Color::LightCyan)
    } else if col == 3 {
        ("", Color::LightMagenta)
    } else {
        ("󰸞", Color::LightGreen)
    };
    (icon.to_owned(), accent)
}

/// What a column without tasks says.
pub open spec fn empty_text(col: int) -> Seq<char> {
    if col == 0 {
        "No planning tasks"@
    } else if col == 1 {
        "No active workers"@
    } else if col == 2 {
        "No reviews pending"@
    } else if col == 3 {
        "No merges queued"@
    } else {
        "No completed tasks"@
    }
}

pub fn empty_hint(col: usize) -> (r: String)
    ensures
        r@ == empty_text(col as int),
{
    let t = if col == 0 {
        "No planning tasks"
    } else if col == 1 {
        "No active workers"
    } else if col == 2 {
        "No reviews pending"
    } else if col == 3 {
        "No merges queued"
    } else {
        "No completed tasks"
    };
    t.to_owned()
}

/// The rows of a card in a column: more where its tasks are at work.
#[verifier::allow_in_spec]
pub fn card_height(col: usize) -> u16
    returns
        (if col <= 1 {
            6u16
        } else {
            4u16
        }),
{
    if col <= 1 {
        6
    } else {
        4
    }
}

// ---------------------------------------------------------------------------
// Scrolling
// ---------------------------------------------------------------------------

/// How many cards of `card` rows, with a gap between each two, fit in
/// `height` rows.
pub open spec fn cards_that_fit(height: int, card: int) -> int {
    (height + 1) / (card + 1)
}

/// The selected card of a column: only the column with the focus has one
/// beyond its first.
pub open spec fn selected_card(count: int, focused: bool, sel: int) -> int {
    if count == 0 || !focused {
        0
    } else {
        at_most(sel, count - 1)
    }
}

/// The first card on the screen.
pub open spec fn first_card(count: int, fit: int, sel: int) -> int {
    if count == 0 || fit == 0 || sel < fit {
        0
    } else {
        sel + 1 - fit
    }
}

/// The selected card is on the screen wherever a card fits, and the cards on
/// the screen are always cards of the column.
pub proof fn column_shows_selection(count: int, fit: int, focused: bool, sel: int)
    requires
        0 < count,
        0 < fit,
        0 <= sel,
    ensures
        ({
            let s = selected_card(count, focused, sel);
            let top = first_card(count, fit, s);
            0 <= top <= s < top + fit && s < count
        }),
{
}

/// Where one card of a column is drawn.
#[derive(Clone, Copy, Debug, PartialEq, Eq, Structural)]
pub struct ColumnSlot {
    pub task: usize,
    pub rect: Rect,
    pub selected: bool,
}

/// The slot of card `k` on the screen.
pub open spec fn column_slot(inner: Rect, card: int, top: int, k: int, focused: bool, sel: int) -> ColumnSlot {
    ColumnSlot {
        task: (top + k) as usize,
        rect: Rect {
            x: inner.x,
            y: (inner.y + k * (card + 1)) as u16,
            width: inner.width,
            height: card as u16,
        },
        selected: focused && top + k == sel,
    }
}

/// How many cards are on the screen.
pub open spec fn cards_shown(count: int, fit: int, top: int) -> int {
    at_most(fit, minus(count, top))
}

/// The selected card of the column with the focus is drawn wherever a card
/// fits, as the selected one, and no other card is.
pub proof fn column_draws_selection(inner: Rect, card: int, count: int, sel: int)
    requires
        0 < card,
        0 < count <= usize::MAX,
        0 < cards_that_fit(inner.height as int, card),
        0 <= sel,
    ensures
        ({
            let fit = cards_that_fit(inner.height as int, card);
            let s = selected_card(count, true, sel);
            let top = first_card(count, fit, s);
            &&& 0 <= s - top < cards_shown(count, fit, top)
            &&& column_slot(inner, card, top, s - top, true, s).selected
            &&& column_slot(inner, card, top, s - top, true, s).task == s
            &&& forall|k: int|
                0 <= k < cards_shown(count, fit, top) && #[trigger] column_slot(
                    inner,
                    card,
                    top,
                    k,
                    true,
                    s,
                ).selected ==> k == s - top
        }),
{
}

/// Every card lies inside the column's border.
pub proof fn column_cards_fit(inner: Rect, card: int, k: int)
    requires
        inner.fits(),
        0 < card,
        0 <= k < cards_that_fit(inner.height as int, card),
    ensures
        inner.y + k * (card + 1) + card <= inner.y + inner.height,
{
    let fit = cards_that_fit(inner.height as int, card);
    assert(fit * (card + 1) <= inner.height + 1) by (nonlinear_arith)
        requires
            fit == (inner.height + 1) / (card + 1),
            0 < card,
    ;
    assert((k + 1) * (card + 1) <= fit * (card + 1)) by (nonlinear_arith)
        requires
            k + 1 <= fit,
            0 < card,
    ;
    assert((k + 1) * (card + 1) == k * (card + 1) + card + 1) by (nonlinear_arith);
}

// ---------------------------------------------------------------------------
// A column
// ---------------------------------------------------------------------------

/// The title of a column: icon, name, how many tasks it has, and which of
/// them are shown where not all are.
pub open spec fn column_title(
    label: Seq<char>,
    col: int,
    focused: bool,
    count: int,
    fit: int,
    top: int,
) -> Seq<SpanView> {
    let (icon, accent) = column_meta(col);
    let style = if focused {
        fg(accent).bold()
    } else {
        fg(label_gray())
    };
    ln(" "@, plain()) + ln(icon + " "@, fg(accent)) + ln(label, style) + ln(
        " ("@ + dec(count as nat) + ") "@,
        fg(Color::Rgb(140, 140, 165)),
    ) + if top > 0 || top + fit < count {
        ln(
            " · "@ + dec((top + 1) as nat) + "-"@ + dec(at_most(top + fit, count) as nat) + " "@,
            fg(dim_text()),
        )
    } else {
        blank()
    }
}

#[derive(Debug)]
pub struct Column {
    pub border: Border,
    pub border_color: Color,
    pub title: Line,
    pub inner: Rect,
    /// What the column says where it has no tasks.
    pub hint: Option<String>,
    pub slots: Vec<ColumnSlot>,
}

fn fit_in(height: u16, card: u16) -> (r: usize)
    requires
        0 < card < 100,
    ensures
        r == cards_that_fit(height as int, card as int),
        r <= 0x1_0000,
{
    let n: u32 = (height as u32 + 1) / (card as u32 + 1);
    assert(n <= 0x1_0000) by (nonlinear_arith)
        requires
            n == (height + 1) / (card + 1),
            0 <= height <= 0xffff,
            0 < card,
    ;
    n as usize
}

fn build_column_title(label: &str, col: usize, focused: bool, count: usize, fit: usize, top: usize) -> (r: Line)
    requires
        fit <= 0x1_0000,
        top == 0 || top < count,
    ensures
        r@ == column_title(label@, col as int, focused, count as int, fit as int, top as int),
{
    let (icon, accent) = kanban_column_meta(col);
    let style = if focused {
        fg(accent).bold()
    } else {
        fg(label_gray())
    };
    let mut l = Line::of(" ", plain());
    l.put(&cat2(&icon, " "), fg(accent));
    l.put(label, style);
    l.put(&cat3(" (", &text_count(count), ") "), fg(Color::Rgb(140, 140, 165)));
    let left: usize = count - top;
    let last: usize = if fit < left {
        top + fit
    } else {
        count
    };
    let part = if top > 0 || fit < left {
        Line::of(&cat5(" · ", &text_count(top + 1), "-", &text_count(last), " "), fg(dim_text()))
    } else {
        Line::empty()
    };
    l.join(part);
    l
}

/// Lays a column out: its border and title, and the cards that fit, from the
/// one on that keeps the selected card on the screen.
pub fn render_kanban_column(
    area: Rect,
    label: &str,
    col_idx: usize,
    count: usize,
    col_focused: bool,
    task_sel: usize,
) -> (r: Column)
    requires
        area.fits(),
    ensures
        ({
            let card = card_height(col_idx) as int;
            let inner = inside(area);
            let fit = cards_that_fit(inner.height as int, card);
            let sel = selected_card(count as int, col_focused, task_sel as int);
            let top = first_card(count as int, fit, sel);
            &&& r.border == if col_focused {
                Border::Double
            } else {
                Border::Rounded
            }
            &&& r.border_color == if col_focused {
                column_meta(col_idx as int).1
            } else {
                Color::Rgb(60, 60, 80)
            }
            &&& r.title@ == column_title(label@, col_idx as int, col_focused, count as int, fit, top)
            &&& r.inner == inner
            &&& opt(r.hint) == if count == 0 {
                Some(empty_text(col_idx as int))
            } else {
                None
            }
            &&& r.slots@ == Seq::new(
                cards_shown(count as int, fit, top) as nat,
                |k: int| column_slot(inner, card, top, k, col_focused, sel),
            )
        }),
        forall|k: int|
            0 <= k < r.slots@.len() ==> (#[trigger] r.slots@[k]).task == r.slots@[0].task + k && r.slots@[k].task < count,
        count > 0 && inside(area).height >= card_height(col_idx) ==> r.slots@.len() > 0,
        count > 0 && col_focused && inside(area).height >= card_height(col_idx) ==> exists|k: int|
            0 <= k < r.slots@.len() && (#[trigger] r.slots@[k]).selected && r.slots@[k].task == if task_sel < count {
                task_sel as int
            } else {
                count - 1
            },
        !col_focused ==> forall|k: int| 0 <= k < r.slots@.len() ==> !(#[trigger] r.slots@[k]).selected,
        count == 0 ==> r.slots@.len() == 0 && r.hint is Some,
{
    let card: u16 = card_height(col_idx);
    let inner = inner_of(area);
    let fit: usize = fit_in(inner.height, card);
    let sel: usize = if count == 0 || !col_focused {
        0
    } else if task_sel < count - 1 {
        task_sel
    } else {
        count - 1
    };
    let top: usize = if count == 0 || fit == 0 || sel < fit {
        0
    } else {
        sel + 1 - fit
    };
    let (_, accent) = kanban_column_meta(col_idx);
    let (border, border_color) = if col_focused {
        (Border::Double, accent)
    } else {
        (Border::Rounded, Color::Rgb(60, 60, 80))
    };
    let title = build_column_title(label, col_idx, col_focused, count, fit, top);
    let hint = if count == 0 {
        Some(empty_hint(col_idx))
    } else {
        None
    };
    let left: usize = count - top;
    let n: usize = if fit < left {
        fit
    } else {
        left
    };
    let mut slots: Vec<ColumnSlot> = Vec::new();
    let ghost f = |k: int| column_slot(inner, card as int, top as int, k, col_focused, sel as int);
    let mut k: usize = 0;
    assert(slots@ =~= Seq::new(0, f));
    while k < n
        invariant
            inner == inside(area),
            inner.fits(),
            0 < card < 100,
            k <= n <= fit,
            n <= count - top,
            top <= count,
            fit == cards_that_fit(inner.height as int, card as int),
            f == (|k: int| column_slot(inner, card as int, top as int, k, col_focused, sel as int)),
            slots@ == Seq::new(k as nat, f),
        decreases n - k,
    {
        proof {
            column_cards_fit(inner, card as int, k as int);
            assert(0 <= k <= k * (card + 1)) by (nonlinear_arith)
                requires
                    0 <= k,
                    0 < card,
            ;
        }
        let rect = Rect {
            x: inner.x,
            y: inner.y + k as u16 * (card + 1),
            width: inner.width,
            height: card,
        };
        slots.push(ColumnSlot { task: top + k, rect, selected: col_focused && top + k == sel });
        k += 1;
        assert(slots@ =~= Seq::new(k as nat, f));
    }
    proof {
        if count > 0 && inner.height >= card {
            assert(fit >= 1) by (nonlinear_arith)
                requires
                    inner.height >= card,
                    0 < card,
                    fit == (inner.height + 1) / (card + 1),
            ;
            column_shows_selection(count as int, fit as int, col_focused, task_sel as int);
            if col_focused {
                assert(slots@[sel - top].selected);
            }
        }
    }
    Column { border, border_color, title, inner, hint, slots }
}

// ---------------------------------------------------------------------------
// The merge lock
// ---------------------------------------------------------------------------

/// The holder of a project's merge lock.
#[derive(Debug)]
pub struct MergeLock {
    pub task_id: String,
    pub short_id: String,
    pub acquired_at: i64,
    /// How long ago that was, in words.
    pub age: String,
    pub phase: MergePhase,
}

/// The title of the first task from `i` on with an id.
pub open spec fn title_of(tasks: Seq<Task>, id: Seq<char>, i: int) -> Option<Seq<char>>
    decreases tasks.len() - i,
{
    if i >= tasks.len() {
        None
    } else if tasks[i].task_id@ == id {
        opt(tasks[i].title)
    } else {
        title_of(tasks, id, i + 1)
    }
}

fn find_title(tasks: &Vec<Task>, id: &str) -> (r: Option<String>)
    ensures
        opt(r) == title_of(tasks@, id@, 0),
{
    let mut i: usize = 0;
    while i < tasks.len()
        invariant
            i <= tasks@.len(),
            title_of(tasks@, id@, 0) == title_of(tasks@, id@, i as int),
        decreases tasks@.len() - i,
    {
        if same(&tasks[i].task_id, id) {
            return match &tasks[i].title {
                Some(t) => Some(t.clone()),
                None => None,
            };
        }
        i += 1;
    }
    None
}

/// `b` tells of the lock's holder, where there is one.
pub open spec fn is_banner(
    b: Option<MergeLockBanner>,
    holder: Option<MergeLock>,
    tasks: Seq<Task>,
    pr_id: Option<u32>,
) -> bool {
    match (holder, b) {
        (Some(h), Some(b)) => {
            &&& b.task_id@ == h.task_id@
            &&& b.short_id@ == h.short_id@
            &&& b.acquired_at == h.acquired_at
            &&& b.age@ == h.age@
            &&& b.phase == h.phase
            &&& b.pr_id == pr_id
            &&& opt(b.title) == title_of(tasks, h.task_id@, 0)
        },
        (None, None) => true,
        _ => false,
    }
}

/// What the cards of the merging column are told of the lock's holder.
pub fn merge_banner(holder: &Option<MergeLock>, tasks: &Vec<Task>, pr_id: Option<u32>) -> (r: Option<
    MergeLockBanner,
>)
    ensures
        is_banner(r, *holder, tasks@, pr_id),
{
    match holder {
        Some(h) => Some(
            MergeLockBanner {
                task_id: h.task_id.clone(),
                short_id: h.short_id.clone(),
                title: find_title(tasks, &h.task_id),
                acquired_at: h.acquired_at,
                age: h.age.clone(),
                phase: h.phase,
                pr_id,
            },
        ),
        None => None,
    }
}

/// What the cards of a column are told of the lock's holder: something in the
/// merging column alone.
pub fn column_banner(col_idx: usize, holder: &Option<MergeLock>, tasks: &Vec<Task>, pr_id: Option<u32>) -> (r: Option<
    MergeLockBanner,
>)
    ensures
        if col_idx == 3 {
            is_banner(r, *holder, tasks@, pr_id)
        } else {
            r is None
        },
{
    if col_idx == 3 {
        merge_banner(holder, tasks, pr_id)
    } else {
        None
    }
}

/// The card of a task in a column: a tall one while the task is planned or
/// running, else a short one.
pub fn render_task_card(
    area: Rect,
    t: &Task,
    selected: bool,
    col_idx: usize,
    sessions: &Vec<SessionInfo>,
    pr_summary: Option<PrCardSummary>,
    now_secs: u64,
    titling_in_flight: bool,
    lock_holder: &Option<MergeLockBanner>,
) -> (r: Card)
    requires
        area.fits(),
    ensures
        if col_idx <= 1 {
            rich_shows(r, area, *t, selected, col_idx, sessions@, pr_summary, titling_in_flight)
        } else {
            compact_shows(
                r,
                area,
                *t,
                selected,
                col_idx,
                sessions@,
                pr_summary,
                now_secs,
                titling_in_flight,
                *lock_holder,
            )
        },
{
    if col_idx <= 1 {
        render_task_card_active(area, t, selected, col_idx, sessions, pr_summary, titling_in_flight)
    } else {
        render_task_card_collapsed(
            area,
            t,
            selected,
            col_idx,
            sessions,
            pr_summary,
            now_secs,
            titling_in_flight,
            lock_holder,
        )
    }
}

// ---------------------------------------------------------------------------
// The tab
// ---------------------------------------------------------------------------

#[derive(Debug)]
pub enum ProjectsBody {
    /// There are no projects.
    Empty(Line),
    /// The row of chips above the board.
    Bands { chips: Rect, board: Rect },
}

pub open spec fn no_projects() -> Seq<SpanView> {
    ln("No projects registered yet. "@, fg(Color::DarkGray)) + ln(
        "Press N to register a folder, then n to start a task."@,
        fg(Color::Gray).bold(),
    )
}

/// The rows of the chips: two, or as many as there are.
pub open spec fn chip_rows(area: Rect) -> int {
    at_most(2, area.height as int)
}

/// Lays out the tab for so many projects.
pub fn render_projects_body(area: Rect, projects: usize) -> (r: ProjectsBody)
    requires
        area.fits(),
    ensures
        match r {
            ProjectsBody::Empty(l) => projects == 0 && l@ == no_projects(),
            ProjectsBody::Bands { chips, board } => {
                &&& projects > 0
                &&& chips == part(area, true, 0, chip_rows(area))
                &&& board == part(area, true, chip_rows(area), area.height - chip_rows(area))
                &&& chips.within(area)
                &&& board.within(area)
            },
        },
{
    if projects == 0 {
        let mut l = Line::of("No projects registered yet. ", fg(Color::DarkGray));
        l.put("Press N to register a folder, then n to start a task.", fg(Color::Gray).bold());
        return ProjectsBody::Empty(l);
    }
    let mut parts: Vec<Constraint> = Vec::new();
    parts.push(Constraint::Length(2));
    parts.push(Constraint::Min(0));
    let bands = layout_split(area, true, &parts);
    proof {
        reveal_with_fuel(asked, 3);
        reveal_with_fuel(taken, 3);
        assert(has_spare(parts@, 1));
    }
    assert(bands@[0].within(area));
    assert(bands@[1].within(area));
    ProjectsBody::Bands { chips: bands[0], board: bands[1] }
}

// ---------------------------------------------------------------------------
// What the columns tell
// ---------------------------------------------------------------------------

/// The five columns in their order: planning, work, review, merging, done. Each has its
/// own icon, and says what it has none of.
pub proof fn columns_are_told_apart(a: int, b: int)
    requires
        0 <= a < b <= 4,
    ensures
        column_meta(a) != column_meta(b),
        empty_text(a) != empty_text(b),
        empty_text(a) == seq![
            "No planning tasks"@,
            "No active workers"@,
            "No reviews pending"@,
            "No merges queued"@,
        ][a],
        empty_text(4) == "No completed tasks"@,
        column_meta(a).0 == seq!["󰟶"@, "󰒓"@, "󱋲"@, ""@][a],
        column_meta(4).0 == "󰸞"@,
{
    reveal_strlit("No planning tasks");
    reveal_strlit("No active workers");
    reveal_strlit("No reviews pending");
    reveal_strlit("No merges queued");
    reveal_strlit("No completed tasks");
    assert("No planning tasks"@[3] == 'p');
    assert("No active workers"@[3] == 'a');
    assert("No reviews pending"@[3] == 'r');
    assert("No merges queued"@[3] == 'm');
    assert("No completed tasks"@[3] == 'c');
}

/// The title of a column: its icon, its name and how many tasks it has.
pub proof fn column_titles_tell_the_count(label: Seq<char>, col: int, focused: bool, count: int, fit: int)
    requires
        0 <= count <= fit,
    ensures
        line_text(column_title(label, col, focused, count, fit, 0)) == " "@ + (column_meta(col).0 + " "@) + label
            + (" ("@ + dec(count as nat) + ") "@),
{
    broadcast use {crate::style::joined_line_text, crate::style::span_line_text, crate::style::blank_line_text};

}

/// Where not all tasks fit, the title says which are shown: the numbers of the first and
/// of the last card on the screen, counted from one.
pub proof fn column_titles_tell_the_range(
    label: Seq<char>,
    col: int,
    focused: bool,
    count: int,
    fit: int,
    sel: int,
    inner: Rect,
    card: int,
)
    requires
        0 < fit < count <= usize::MAX,
        0 <= sel < count,
    ensures
        ({
            let top = first_card(count, fit, sel);
            let shown = cards_shown(count, fit, top);
            let first = column_slot(inner, card, top, 0, focused, sel).task;
            let last = column_slot(inner, card, top, shown - 1, focused, sel).task;
            &&& first <= sel <= last || last < sel
            &&& last - first + 1 == fit
            &&& line_text(column_title(label, col, focused, count, fit, top)) == " "@ + (column_meta(col).0 + " "@)
                + label + (" ("@ + dec(count as nat) + ") "@) + (" · "@ + dec((first + 1) as nat) + "-"@ + dec(
                (last + 1) as nat,
            ) + " "@)
        }),
{
    broadcast use {crate::style::joined_line_text, crate::style::span_line_text, crate::style::blank_line_text};

}

proof fn lemma_title_of(tasks: Seq<Task>, id: Seq<char>, i: int, k: int)
    requires
        0 <= i <= k < tasks.len(),
        tasks[k].task_id@ == id,
        forall|j: int| i <= j < k ==> (#[trigger] tasks[j]).task_id@ != id,
    ensures
        title_of(tasks, id, i) == opt(tasks[k].title),
    decreases k - i,
{
    if i < k {
        lemma_title_of(tasks, id, i + 1, k);
    }
}

/// What is told of the lock's holder is its own: its id, its phase, since when it holds
/// the lock, and the title of the first task with its id.
pub proof fn banners_tell_the_holder(
    b: Option<MergeLockBanner>,
    holder: Option<MergeLock>,
    tasks: Seq<Task>,
    pr_id: Option<u32>,
    k: int,
)
    requires
        is_banner(b, holder, tasks, pr_id),
        holder is Some,
        0 <= k < tasks.len(),
        tasks[k].task_id@ == holder->Some_0.task_id@,
        forall|j: int| 0 <= j < k ==> (#[trigger] tasks[j]).task_id@ != holder->Some_0.task_id@,
    ensures
        b is Some,
        b->Some_0.task_id@ == tasks[k].task_id@,
        b->Some_0.short_id@ == holder->Some_0.short_id@,
        b->Some_0.acquired_at == holder->Some_0.acquired_at,
        b->Some_0.age@ == holder->Some_0.age@,
        b->Some_0.phase == holder->Some_0.phase,
        b->Some_0.pr_id == pr_id,
        match (b->Some_0.title, tasks[k].title) {
            (Some(a), Some(c)) => a@ == c@,
            (None, None) => true,
            _ => false,
        },
{
    lemma_title_of(tasks, holder->Some_0.task_id@, 0, k);
}

/// Without projects the tab says how to get one.
pub proof fn empty_tab_tells_the_keys()
    ensures
        line_text(no_projects()) == "No projects registered yet. "@
            + "Press N to register a folder, then n to start a task."@,
{
    broadcast use {crate::style::joined_line_text, crate::style::span_line_text, crate::style::blank_line_text};

}

/// A column has as many cards as fit with a row between each two, and not one fewer; each
/// stands right below that row.
pub proof fn columns_are_filled(inner: Rect, card: int, top: int, k: int, focused: bool, sel: int)
    requires
        inner.fits(),
        0 < card < 100,
        0 <= k,
        k + 1 < cards_that_fit(inner.height as int, card),
    ensures
        ({
            let fit = cards_that_fit(inner.height as int, card);
            let a = column_slot(inner, card, top, k, focused, sel).rect;
            let b = column_slot(inner, card, top, k + 1, focused, sel).rect;
            &&& fit * (card + 1) - 1 <= inner.height < (fit + 1) * (card + 1) - 1
            &&& a.height == card && a.x == inner.x && a.width == inner.width
            &&& b.y == a.y + card + 1
        }),
        column_slot(inner, card, top, 0, focused, sel).rect.y == inner.y,
{
    let fit = cards_that_fit(inner.height as int, card);
    let h = inner.height as int;
    assert(fit * (card + 1) <= h + 1 < (fit + 1) * (card + 1)) by (nonlinear_arith)
        requires
            fit == (h + 1) / (card + 1),
            0 < card,
            0 <= h,
    ;
    column_cards_fit(inner, card, k);
    column_cards_fit(inner, card, k + 1);
    assert((k + 1) * (card + 1) == k * (card + 1) + card + 1) by (nonlinear_arith);
    assert(0 <= k * (card + 1)) by (nonlinear_arith)
        requires
            0 <= k,
            0 < card,
    ;
    assert(0 * (card + 1) == 0);
}

} // verus!
