//! The backlog popup: the queued tasks of a project, and the prompt of the
//! selected one beside them where there is room.

use crate::geometry::{asked, centered_fixed, has_spare, inner_of, inside, layout_split, middle, part, Constraint, Rect};
use crate::models::{filled, filled_of, first_line_truncated, short_line};
use crate::palette::{backlog_blue, dim_text, faint_text, gray_80};
use crate::parts::{lines, lines_of, texts};
use crate::style::{blank, fg, line_text, ln, no_lines, plain, Color, Line, Lines, SpanView, Style};
use crate::task_cards::task_meta_dim;
use crate::tasks::Task;
use crate::text::{at_least, at_most, byte_len, cat2, cat3, cat5, dec, minus, right, text_count, text_right};
use vstd::prelude::*;

verus! {

broadcast use vstd::string::group_string_axioms;

/// The rows of a task in the list.
pub const ROWS_PER_TASK: usize = 3;

pub open spec fn backlog_area(area: Rect) -> Rect {
    middle(area, at_most(120, area.width as int), at_most(30, area.height as int))
}

pub open spec fn title_text(project: Option<Seq<char>>) -> Seq<char> {
    " Backlog · "@ + (match project {
        Some(p) => p,
        None => "no project"@,
    }) + " "@
}

/// The keys, and which of how many tasks is selected.
pub open spec fn footer_text(count: int, sel: int) -> Seq<char> {
    " j/k navigate · s/enter start · x delete · esc/q close"@ + if count == 0 {
        ""@
    } else {
        " · "@ + dec((at_most(sel, count - 1) + 1) as nat) + "/"@ + dec(count as nat) + " "@
    }
}

fn build_footer(count: usize, sel: usize) -> (r: String)
    ensures
        r@ == footer_text(count as int, sel as int),
{
    let label = if count == 0 {
        "".to_owned()
    } else {
        let at: usize = if sel < count - 1 {
            sel
        } else {
            count - 1
        };
        cat5(" · ", &text_count(at + 1), "/", &text_count(count), " ")
    };
    cat2(" j/k navigate · s/enter start · x delete · esc/q close", &label)
}

/// What the popup says where nothing is queued.
pub open spec fn empty_lines() -> Seq<Seq<SpanView>> {
    seq![ln("No backlog tasks for this project."@, fg(Color::DarkGray))] + seq![blank()] + seq![
        ln("Queue one with: cc-hub task create --backlog --prompt \"…\""@, fg(gray_80())),
    ]
}

fn build_empty() -> (r: Lines)
    ensures
        r@ == empty_lines(),
{
    let mut out = Lines::of(Line::of("No backlog tasks for this project.", fg(Color::DarkGray)));
    out.put(Line::empty());
    out.put(Line::of("Queue one with: cc-hub task create --backlog --prompt \"…\"", fg(gray_80())));
    out
}

// ---------------------------------------------------------------------------
// The list
// ---------------------------------------------------------------------------

/// How many tasks the list shows, at least one.
pub open spec fn tasks_that_fit(height: int) -> int {
    at_least(height / 3, 1)
}

/// The first task that the list shows.
pub open spec fn first_task(count: int, fit: int, sel: int) -> int {
    if count <= fit || sel < fit {
        0
    } else {
        sel + 1 - fit
    }
}

/// The selected task is always in the list.
pub proof fn list_shows_selection(count: int, height: int, sel: int)
    requires
        0 <= sel < count,
        0 <= height,
    ensures
        ({
            let fit = tasks_that_fit(height);
            let top = first_task(count, fit, sel);
            0 <= top <= sel < top + fit
        }),
{
}

pub open spec fn arrow(selected: bool) -> Seq<char> {
    if selected {
        "▌ "@
    } else {
        "  "@
    }
}

pub open spec fn name_style(selected: bool) -> Style {
    if selected {
        fg(Color::White).bold()
    } else {
        fg(Color::Gray)
    }
}

/// The age of a task in four columns.
pub open spec fn age_text(t: Task) -> Seq<char> {
    right(t.made_age@, 4)
}

/// A task in the list: its title, or its id while it has none, then its age
/// and the beginning of its prompt, then an empty row.
pub open spec fn task_rows(t: Task, selected: bool, max: int) -> Seq<Seq<SpanView>> {
    match filled(t.title) {
        Some(title) => seq![
            ln(arrow(selected), fg(backlog_blue())) + ln(title, name_style(selected)),
        ] + seq![
            ln("    "@, plain()) + ln(t.short_id@, fg(Color::DarkGray)) + ln("  "@, plain()) + ln(
                age_text(t),
                fg(task_meta_dim()),
            ) + ln("  "@, plain()) + ln(
                short_line(
                    t.prompt@,
                    minus(max, byte_len(t.short_id@) + byte_len(age_text(t)) + 8),
                ),
                fg(dim_text()),
            ),
        ] + seq![blank()],
        None => seq![
            ln(arrow(selected), fg(backlog_blue())) + ln("#"@ + t.short_id@, name_style(selected)) + ln(
                " · pending title"@,
                fg(Color::DarkGray),
            ),
        ] + seq![
            ln("    "@, plain()) + ln(age_text(t), fg(task_meta_dim())) + ln("  "@, plain()) + ln(
                short_line(t.prompt@, minus(max, byte_len(age_text(t)) + 6)),
                fg(dim_text()),
            ),
        ] + seq![blank()],
    }
}

fn build_task_rows(t: &Task, selected: bool, max: usize) -> (r: Lines)
    ensures
        r@ == task_rows(*t, selected, max as int),
{
    let mark = if selected {
        "▌ "
    } else {
        "  "
    };
    let style = if selected {
        fg(Color::White).bold()
    } else {
        fg(Color::Gray)
    };
    let age = text_right(&t.made_age, 4);
    let mut head = Line::of(mark, fg(backlog_blue()));
    let mut row = Line::of("    ", plain());
    match filled_of(&t.title) {
        Some(title) => {
            head.put(&title, style);
            let taken: usize = t.short_id.as_str().len().saturating_add(age.as_str().len()).saturating_add(8);
            let preview = first_line_truncated(&t.prompt, max.saturating_sub(taken));
            row.put(&t.short_id, fg(Color::DarkGray));
            row.put("  ", plain());
            row.put(&age, fg(task_meta_dim()));
            row.put("  ", plain());
            row.put(&preview, fg(dim_text()));
        },
        None => {
            head.put(&cat2("#", &t.short_id), style);
            head.put(" · pending title", fg(Color::DarkGray));
            let taken: usize = age.as_str().len().saturating_add(6);
            let preview = first_line_truncated(&t.prompt, max.saturating_sub(taken));
            row.put(&age, fg(task_meta_dim()));
            row.put("  ", plain());
            row.put(&preview, fg(dim_text()));
        },
    }
    let mut out = Lines::of(head);
    out.put(row);
    out.put(Line::empty());
    out
}

/// The rows of `n` tasks from `top` on.
pub open spec fn list_rows(tasks: Seq<Task>, top: int, n: int, sel: int, max: int) -> Seq<Seq<SpanView>>
    decreases n,
{
    if n <= 0 {
        no_lines()
    } else {
        list_rows(tasks, top, n - 1, sel, max) + task_rows(
            tasks[top + n - 1],
            top + n - 1 == sel,
            max,
        )
    }
}

/// The list in an area of `width` by `height` cells.
pub open spec fn list(tasks: Seq<Task>, sel: int, width: int, height: int) -> Seq<Seq<SpanView>> {
    let s = at_most(sel, tasks.len() - 1);
    let fit = tasks_that_fit(height);
    let top = first_task(tasks.len() as int, fit, s);
    list_rows(tasks, top, at_most(fit, tasks.len() - top), s, minus(width, 4))
}

/// The list of tasks in an area.
pub fn backlog_list(tasks: &Vec<Task>, sel: usize, width: u16, height: u16) -> (r: Lines)
    requires
        tasks@.len() > 0,
    ensures
        r@ == list(tasks@, sel as int, width as int, height as int),
{
    let max: usize = (width as usize).saturating_sub(4);
    let fit: usize = if height >= 3 {
        height as usize / 3
    } else {
        1
    };
    let count: usize = tasks.len();
    let s: usize = if sel < count - 1 {
        sel
    } else {
        count - 1
    };
    let top: usize = if count <= fit || s < fit {
        0
    } else {
        s + 1 - fit
    };
    let left: usize = count - top;
    let n: usize = if fit < left {
        fit
    } else {
        left
    };
    let mut out = Lines::none();
    let mut k: usize = 0;
    while k < n
        invariant
            k <= n,
            n <= count - top,
            top <= count,
            count == tasks@.len(),
            out@ == list_rows(tasks@, top as int, k as int, s as int, max as int),
        decreases n - k,
    {
        out.join(build_task_rows(&tasks[top + k], top + k == s, max));
        k += 1;
    }
    out
}

// ---------------------------------------------------------------------------
// The body
// ---------------------------------------------------------------------------

pub open spec fn prompt_rows(text: Seq<Seq<char>>) -> Seq<Seq<SpanView>> {
    text.map_values(|s: Seq<char>| ln(s, fg(faint_text())))
}

/// The title, the id and the whole prompt of a task.
pub open spec fn task_body(t: Task) -> Seq<Seq<SpanView>> {
    (match filled(t.title) {
        Some(title) => seq![ln(title, fg(Color::White).bold())],
        None => no_lines(),
    }) + seq![ln(t.short_id@, fg(Color::DarkGray))] + seq![blank()] + prompt_rows(lines(t.prompt@))
}

pub fn backlog_body(t: &Task) -> (r: Lines)
    ensures
        r@ == task_body(*t),
{
    let mut out = match filled_of(&t.title) {
        Some(title) => Lines::of(Line::of(&title, fg(Color::White).bold())),
        None => Lines::none(),
    };
    out.put(Line::of(&t.short_id, fg(Color::DarkGray)));
    out.put(Line::empty());
    let said = lines_of(&t.prompt);
    let ghost head = out@;
    let ghost rows = prompt_rows(texts(said@));
    let mut i: usize = 0;
    assert(out@ =~= head + rows.take(0));
    while i < said.len()
        invariant
            i <= said@.len(),
            rows == prompt_rows(texts(said@)),
            out@ == head + rows.take(i as int),
        decreases said@.len() - i,
    {
        out.put(Line::of(&said[i], fg(faint_text())));
        i += 1;
        assert(out@ =~= head + rows.take(i as int));
    }
    assert(rows.take(i as int) =~= rows);
    out
}

/// What a border on the left side alone leaves of an area.
pub open spec fn behind_bar(area: Rect) -> Rect {
    Rect {
        x: at_most(at_most(area.x + 1, 0xffff), at_most(area.x + area.width, 0xffff)) as u16,
        width: minus(area.width as int, 1) as u16,
        ..area
    }
}

fn behind_bar_of(area: Rect) -> (r: Rect)
    ensures
        r == behind_bar(area),
{
    let next: u16 = area.x.saturating_add(1);
    let edge: u16 = area.x.saturating_add(area.width);
    let x: u16 = if next < edge {
        next
    } else {
        edge
    };
    Rect { x, y: area.y, width: area.width.saturating_sub(1), height: area.height }
}

// ---------------------------------------------------------------------------
// The popup
// ---------------------------------------------------------------------------

/// The list and the body of the popup with their areas; the body's area and
/// what its bar on the left leaves of it.
#[derive(Debug)]
pub struct BacklogPanes {
    pub list_area: Rect,
    pub list: Lines,
    pub body_area: Option<Rect>,
    pub body_inner: Option<Rect>,
    pub body: Lines,
}

#[derive(Debug)]
pub enum BacklogContent {
    /// Nothing is queued.
    Empty(Lines),
    Panes(BacklogPanes),
}

#[derive(Debug)]
pub struct BacklogPopup {
    pub area: Rect,
    pub title: String,
    pub footer: String,
    pub inner: Rect,
    pub content: BacklogContent,
}

/// `p` shows the tasks with the list in `list_area` and the selected task in
/// `body_area`, where there is one.
pub open spec fn panes_show(
    p: BacklogPanes,
    tasks: Seq<Task>,
    sel: int,
    list_area: Rect,
    body_area: Option<Rect>,
) -> bool {
    &&& p.list_area == list_area
    &&& p.list@ == list(tasks, sel, list_area.width as int, list_area.height as int)
    &&& p.body_area == body_area
    &&& match body_area {
        Some(b) => p.body_inner == Some(behind_bar(b)) && p.body@ == task_body(
            tasks[at_most(sel, tasks.len() - 1)],
        ),
        None => p.body_inner is None && p.body@ == no_lines(),
    }
}

/// The panes for given areas.
pub fn backlog_panes(tasks: &Vec<Task>, sel: usize, list_area: Rect, body_area: Option<Rect>) -> (r: BacklogPanes)
    requires
        tasks@.len() > 0,
    ensures
        panes_show(r, tasks@, sel as int, list_area, body_area),
{
    let at: usize = if sel < tasks.len() - 1 {
        sel
    } else {
        tasks.len() - 1
    };
    let list = backlog_list(tasks, sel, list_area.width, list_area.height);
    match body_area {
        Some(b) => BacklogPanes {
            list_area,
            list,
            body_area,
            body_inner: Some(behind_bar_of(b)),
            body: backlog_body(&tasks[at]),
        },
        None => BacklogPanes { list_area, list, body_area, body_inner: None, body: Lines::none() },
    }
}

/// Lays the popup out: the list alone in less than sixty columns, else the
/// list, on forty of them, and the selected task side by side.
pub fn render_backlog(area: Rect, project: &Option<String>, tasks: &Vec<Task>, sel: usize) -> (r: BacklogPopup)
    requires
        area.fits(),
    ensures
        r.area == backlog_area(area),
        r.title@ == title_text(crate::models::opt(*project)),
        r.footer@ == footer_text(tasks@.len() as int, sel as int),
        r.inner == inside(r.area),
        match r.content {
            BacklogContent::Empty(l) => tasks@.len() == 0 && l@ == empty_lines(),
            BacklogContent::Panes(p) => tasks@.len() > 0 && if r.inner.width >= 60 {
                panes_show(
                    p,
                    tasks@,
                    sel as int,
                    part(r.inner, false, 0, 40),
                    Some(part(r.inner, false, 40, r.inner.width - 40)),
                )
            } else {
                panes_show(p, tasks@, sel as int, r.inner, None)
            },
        },
{
    let popup = centered_fixed(area, 120, 30);
    let name = match project {
        Some(p) => p.clone(),
        None => "no project".to_owned(),
    };
    let title = cat3(" Backlog · ", &name, " ");
    let footer = build_footer(tasks.len(), sel);
    let inner = inner_of(popup);
    let content = if tasks.len() == 0 {
        BacklogContent::Empty(build_empty())
    } else if inner.width >= 60 {
        let mut parts: Vec<Constraint> = Vec::new();
        parts.push(Constraint::Length(40));
        parts.push(Constraint::Min(0));
        let rects = layout_split(inner, false, &parts);
        proof {
            reveal_with_fuel(asked, 3);
            assert(has_spare(parts@, 1));
        }
        BacklogContent::Panes(backlog_panes(tasks, sel, rects[0], Some(rects[1])))
    } else {
        BacklogContent::Panes(backlog_panes(tasks, sel, inner, None))
    };
    BacklogPopup { area: popup, title, footer, inner, content }
}

// ---------------------------------------------------------------------------
// What the popup tells
// ---------------------------------------------------------------------------

proof fn lemma_list_rows(tasks: Seq<Task>, top: int, n: int, sel: int, max: int, k: int)
    requires
        0 <= k < n,
    ensures
        list_rows(tasks, top, n, sel, max).len() == 3 * n,
        forall|i: int|
            0 <= i < 3 ==> #[trigger] list_rows(tasks, top, n, sel, max)[3 * k + i] == task_rows(
                tasks[top + k],
                top + k == sel,
                max,
            )[i],
    decreases n,
{
    let before = list_rows(tasks, top, n - 1, sel, max);
    let own = task_rows(tasks[top + n - 1], top + n - 1 == sel, max);
    assert(own.len() == 3);
    if n > 1 {
        lemma_list_rows(tasks, top, n - 1, sel, max, if k < n - 1 {
            k
        } else {
            0
        });
    }
    let all = list_rows(tasks, top, n, sel, max);
    assert(all == before + own);
    assert forall|i: int| 0 <= i < 3 implies #[trigger] all[3 * k + i] == task_rows(
        tasks[top + k],
        top + k == sel,
        max,
    )[i] by {
        if k < n - 1 {
            assert(all[3 * k + i] == before[3 * k + i]);
        } else {
            assert(all[3 * k + i] == own[i]);
        }
    }
}

/// The list shows as many tasks as fit, in their order and the selected one among
/// them, on three rows each. A task with a title shows it behind a bar where it is
/// selected, and below it its id, its age and the beginning of its prompt.
pub proof fn titled_tasks_are_listed(tasks: Seq<Task>, sel: int, width: int, height: int, k: int)
    requires
        0 <= sel < tasks.len(),
        height >= 3,
        0 <= k < list(tasks, sel, width, height).len() / 3,
    ensures
        ({
            let rows = list(tasks, sel, width, height);
            let fit = height / 3;
            let top: int = if tasks.len() <= fit || sel < fit {
                0
            } else {
                sel + 1 - fit
            };
            let t = tasks[top + k];
            let mark = if top + k == sel {
                "▌ "@
            } else {
                "  "@
            };
            let room = width - 12 - byte_len(t.short_id@) - byte_len(right(t.made_age@, 4));
            &&& 0 <= top <= sel < top + rows.len() / 3 <= tasks.len()
            &&& rows.len() == 3 * (if tasks.len() <= fit {
                tasks.len() as int
            } else {
                fit
            })
            &&& t.title matches Some(title) ==> title@.len() > 0 ==> line_text(rows[3 * k]) == mark + title@
                && line_text(rows[3 * k + 1]) == "    "@ + t.short_id@ + "  "@ + right(t.made_age@, 4) + "  "@
                + short_line(
                t.prompt@,
                if room > 0 {
                    room
                } else {
                    0
                },
            )
            &&& line_text(rows[3 * k + 2]) == Seq::<char>::empty()
        }),
{
    broadcast use {crate::style::joined_line_text, crate::style::span_line_text, crate::style::blank_line_text};

    let s = at_most(sel, tasks.len() - 1);
    let fit = tasks_that_fit(height);
    let top = first_task(tasks.len() as int, fit, s);
    let n = at_most(fit, tasks.len() - top);
    lemma_list_rows(tasks, top, n, s, minus(width, 4), 0);
    lemma_list_rows(tasks, top, n, s, minus(width, 4), k);
    let rows = list(tasks, sel, width, height);
    let own = task_rows(tasks[top + k], top + k == s, minus(width, 4));
    assert(rows[3 * k + 0] == own[0]);
    assert(rows[3 * k + 1] == own[1]);
    assert(rows[3 * k + 2] == own[2]);
}

/// A task that has no title yet shows its id in its place, and says so; its prompt
/// begins on the row below, behind its age.
pub proof fn untitled_tasks_are_listed(tasks: Seq<Task>, sel: int, width: int, height: int, k: int)
    requires
        0 <= sel < tasks.len() <= height / 3,
        0 <= k < tasks.len(),
        tasks[k].title is None,
    ensures
        ({
            let rows = list(tasks, sel, width, height);
            let t = tasks[k];
            let mark = if k == sel {
                "▌ "@
            } else {
                "  "@
            };
            let room = width - 10 - byte_len(right(t.made_age@, 4));
            &&& rows.len() == 3 * tasks.len()
            &&& line_text(rows[3 * k]) == mark + ("#"@ + t.short_id@) + " · pending title"@
            &&& line_text(rows[3 * k + 1]) == "    "@ + right(t.made_age@, 4) + "  "@ + short_line(
                t.prompt@,
                if room > 0 {
                    room
                } else {
                    0
                },
            )
        }),
{
    broadcast use {crate::style::joined_line_text, crate::style::span_line_text, crate::style::blank_line_text};

    lemma_list_rows(tasks, 0, tasks.len() as int, sel, minus(width, 4), k);
    let rows = list(tasks, sel, width, height);
    let own = task_rows(tasks[k], k == sel, minus(width, 4));
    assert(rows[3 * k + 0] == own[0]);
    assert(rows[3 * k + 1] == own[1]);
}

/// Beside the list stands the selected task: its title, its id and, below an empty row,
/// each line of its prompt.
pub proof fn selected_task_is_told(
    p: BacklogPanes,
    tasks: Seq<Task>,
    sel: int,
    list_area: Rect,
    body_area: Rect,
    k: int,
)
    requires
        panes_show(p, tasks, sel, list_area, Some(body_area)),
        0 <= sel < tasks.len(),
        tasks[sel].title matches Some(title) && title@.len() > 0,
        0 <= k < lines(tasks[sel].prompt@).len(),
    ensures
        p.body@.len() == 3 + lines(tasks[sel].prompt@).len(),
        line_text(p.body@[0]) == tasks[sel].title->Some_0@,
        line_text(p.body@[1]) == tasks[sel].short_id@,
        line_text(p.body@[2]) == Seq::<char>::empty(),
        line_text(p.body@[3 + k]) == lines(tasks[sel].prompt@)[k],
{
    broadcast use {crate::style::joined_line_text, crate::style::span_line_text, crate::style::blank_line_text};

    let rows = prompt_rows(lines(tasks[sel].prompt@));
    assert(rows[k] == ln(lines(tasks[sel].prompt@)[k], fg(faint_text())));
    assert(p.body@[3 + k] == rows[k]);
}

/// The title names the project, the footer the selected task's number, and an empty
/// backlog says how to fill it.
pub proof fn backlog_names_its_place(project: Option<Seq<char>>, count: int, sel: int)
    requires
        0 <= sel < count,
    ensures
        title_text(project) == " Backlog · "@ + (match project {
            Some(p) => p,
            None => "no project"@,
        }) + " "@,
        footer_text(count, sel) == " j/k navigate · s/enter start · x delete · esc/q close"@ + (" · "@ + dec(
            (sel + 1) as nat,
        ) + "/"@ + dec(count as nat) + " "@),
        line_text(empty_lines()[0]) == "No backlog tasks for this project."@,
        line_text(empty_lines()[2]) == "Queue one with: cc-hub task create --backlog --prompt \"…\""@,
{
    broadcast use {crate::style::joined_line_text, crate::style::span_line_text, crate::style::blank_line_text};

}

} // verus!
