//! The strip of project chips above the board.

use crate::geometry::Rect;
use crate::palette::{band_bg, dim_text, label_gray};
use crate::style::{bg, blank, fg, line_text, ln, Color, Line, SpanView, Style};
use crate::tasks::{Task, TaskStatus};
use crate::text::{at_most, cat2, cat3, cat7, chars_of, dec, minus, slice_of, text_count};
use vstd::prelude::*;

verus! {

broadcast use vstd::string::group_string_axioms;

/// A project and its tasks.
#[derive(Debug)]
pub struct ProjectChip {
    pub name: String,
    /// The path of its root.
    pub root: String,
    pub tasks: Vec<Task>,
}

/// Where a task is counted on a chip.
#[derive(Clone, Copy, Debug, PartialEq, Eq, Structural)]
pub enum Bucket {
    Planning,
    Running,
    Review,
    Merging,
    Done,
    Backlog,
}

/// A running task without workers is still being planned.
pub open spec fn bucket(t: Task) -> Bucket {
    match t.status {
        TaskStatus::Running => if t.workers@.len() == 0 {
            Bucket::Planning
        } else {
            Bucket::Running
        },
        TaskStatus::Planning => Bucket::Planning,
        TaskStatus::Review => Bucket::Review,
        TaskStatus::Merging => Bucket::Merging,
        TaskStatus::Done => Bucket::Done,
        TaskStatus::Backlog => Bucket::Backlog,
    }
}

fn bucket_of(t: &Task) -> (r: Bucket)
    ensures
        r == bucket(*t),
{
    match t.status {
        TaskStatus::Running => if t.workers.len() == 0 {
            Bucket::Planning
        } else {
            Bucket::Running
        },
        TaskStatus::Planning => Bucket::Planning,
        TaskStatus::Review => Bucket::Review,
        TaskStatus::Merging => Bucket::Merging,
        TaskStatus::Done => Bucket::Done,
        TaskStatus::Backlog => Bucket::Backlog,
    }
}

/// How many tasks are counted in a bucket.
pub open spec fn count_in(tasks: Seq<Task>, b: Bucket) -> int
    decreases tasks.len(),
{
    if tasks.len() == 0 {
        0
    } else {
        count_in(tasks.drop_last(), b) + if bucket(tasks.last()) == b {
            1int
        } else {
            0int
        }
    }
}

/// Every task is counted in exactly one bucket.
pub proof fn buckets_count_every_task(tasks: Seq<Task>)
    ensures
        count_in(tasks, Bucket::Planning) + count_in(tasks, Bucket::Running) + count_in(
            tasks,
            Bucket::Review,
        ) + count_in(tasks, Bucket::Merging) + count_in(tasks, Bucket::Done) + count_in(
            tasks,
            Bucket::Backlog,
        ) == tasks.len(),
    decreases tasks.len(),
{
    if tasks.len() > 0 {
        buckets_count_every_task(tasks.drop_last());
    }
}

fn count_bucket(tasks: &Vec<Task>, b: Bucket) -> (r: usize)
    ensures
        r == count_in(tasks@, b),
        r <= tasks@.len(),
{
    let mut c: usize = 0;
    let mut i: usize = 0;
    while i < tasks.len()
        invariant
            i <= tasks@.len(),
            c == count_in(tasks@.take(i as int), b),
            c <= i,
        decreases tasks@.len() - i,
    {
        if bucket_of(&tasks[i]) == b {
            c += 1;
        }
        i += 1;
        assert(tasks@.take(i as int).drop_last() =~= tasks@.take(i - 1));
        assert(tasks@.take(i as int).last() == tasks@[i - 1]);
    }
    assert(tasks@.take(i as int) =~= tasks@);
    c
}

// ---------------------------------------------------------------------------
// Chips
// ---------------------------------------------------------------------------

pub open spec fn chip_style(selected: bool, busy: bool) -> Style {
    if selected {
        fg(Color::Black).on(Color::Rgb(190, 200, 230)).bold()
    } else if busy {
        fg(Color::Rgb(220, 220, 235)).on(Color::Rgb(40, 50, 70))
    } else {
        fg(Color::Rgb(150, 150, 165)).on(Color::Rgb(30, 30, 40))
    }
}

pub open spec fn counts_style(selected: bool, active: bool) -> Style {
    if selected {
        fg(Color::Black).on(Color::Rgb(140, 150, 180))
    } else if active {
        fg(Color::Rgb(160, 220, 180)).on(Color::Rgb(20, 25, 35))
    } else {
        fg(Color::Rgb(120, 120, 140)).on(Color::Rgb(20, 25, 35))
    }
}

pub open spec fn backlog_style(selected: bool) -> Style {
    if selected {
        fg(Color::Black).on(Color::Rgb(200, 160, 80))
    } else {
        fg(Color::Rgb(220, 175, 95)).on(Color::Rgb(50, 40, 22))
    }
}

/// A chip: the project's name, how many of its tasks are in each column, and
/// how many are queued where any are.
pub open spec fn chip(p: ProjectChip, selected: bool) -> Seq<SpanView> {
    let t = p.tasks@;
    let planning = count_in(t, Bucket::Planning);
    let running = count_in(t, Bucket::Running);
    let review = count_in(t, Bucket::Review);
    let merging = count_in(t, Bucket::Merging);
    let done = count_in(t, Bucket::Done);
    let backlog = count_in(t, Bucket::Backlog);
    ln(" "@ + p.name@ + " "@, chip_style(selected, planning + running + merging > 0)) + ln(
        " "@ + dec(planning as nat) + "·"@ + dec(running as nat) + "·"@ + dec(review as nat) + "·"@ + (
        dec(merging as nat) + "·"@ + dec(done as nat) + " "@),
        counts_style(selected, planning + running + review + merging > 0),
    ) + (if backlog > 0 {
        ln(" 󰒲 "@ + dec(backlog as nat) + " "@, backlog_style(selected))
    } else {
        blank()
    }) + ln(" "@, bg(band_bg()))
}

fn build_chip(p: &ProjectChip, selected: bool) -> (r: Line)
    ensures
        r@ == chip(*p, selected),
{
    let planning: usize = count_bucket(&p.tasks, Bucket::Planning);
    let running: usize = count_bucket(&p.tasks, Bucket::Running);
    let review: usize = count_bucket(&p.tasks, Bucket::Review);
    let merging: usize = count_bucket(&p.tasks, Bucket::Merging);
    let done: usize = count_bucket(&p.tasks, Bucket::Done);
    let backlog: usize = count_bucket(&p.tasks, Bucket::Backlog);
    let busy = planning > 0 || running > 0 || merging > 0;
    let active = busy || review > 0;
    let style = if selected {
        fg(Color::Black).on(Color::Rgb(190, 200, 230)).bold()
    } else if busy {
        fg(Color::Rgb(220, 220, 235)).on(Color::Rgb(40, 50, 70))
    } else {
        fg(Color::Rgb(150, 150, 165)).on(Color::Rgb(30, 30, 40))
    };
    let mut l = Line::of(&cat3(" ", &p.name, " "), style);
    let tail = crate::text::cat4(&text_count(merging), "·", &text_count(done), " ");
    let counts = cat7(
        " ",
        &text_count(planning),
        "·",
        &text_count(running),
        "·",
        &text_count(review),
        "·",
    );
    let counts = cat2(&counts, &tail);
    let style = if selected {
        fg(Color::Black).on(Color::Rgb(140, 150, 180))
    } else if active {
        fg(Color::Rgb(160, 220, 180)).on(Color::Rgb(20, 25, 35))
    } else {
        fg(Color::Rgb(120, 120, 140)).on(Color::Rgb(20, 25, 35))
    };
    l.put(&counts, style);
    let queued = if backlog > 0 {
        let style = if selected {
            fg(Color::Black).on(Color::Rgb(200, 160, 80))
        } else {
            fg(Color::Rgb(220, 175, 95)).on(Color::Rgb(50, 40, 22))
        };
        Line::of(&cat3(" 󰒲 ", &text_count(backlog), " "), style)
    } else {
        Line::empty()
    };
    l.join(queued);
    l.put(" ", bg(band_bg()));
    l
}

/// The strip up to the first `n` chips.
pub open spec fn strip(projects: Seq<ProjectChip>, sel: int, n: int) -> Seq<SpanView>
    decreases n,
{
    if n <= 0 {
        ln("  󰉋 "@, fg(label_gray()).on(band_bg())) + ln(
            " P·R·Rv·M·D  "@,
            fg(dim_text()).on(band_bg()),
        )
    } else {
        strip(projects, sel, n - 1) + chip(projects[n - 1], n - 1 == sel)
    }
}

/// The characters before and up to the end of the selected chip, none where
/// no chip is selected.
pub open spec fn selected_span(projects: Seq<ProjectChip>, sel: int) -> (int, int) {
    if 0 <= sel < projects.len() {
        (
            line_text(strip(projects, sel, sel)).len() as int,
            line_text(strip(projects, sel, sel + 1)).len() as int,
        )
    } else {
        (0, 0)
    }
}

/// How far the strip is moved so that the selected chip is on the screen: not
/// at all where it ends there, else to four columns before its beginning.
pub open spec fn strip_scroll(start: int, end: int, width: int) -> int {
    if end > width {
        at_most(minus(start, 4), 0xffff)
    } else {
        0
    }
}

/// The selected chip begins on the screen, at most four columns from the left
/// edge where the strip is moved.
pub proof fn selected_chip_begins_on_screen(start: int, end: int, width: int)
    requires
        0 <= start <= end,
        start <= 0xffff,
        0 < width,
        start < end,
    ensures
        strip_scroll(start, end, width) <= start,
        end > width ==> start - strip_scroll(start, end, width) <= 4,
        end <= width ==> start - strip_scroll(start, end, width) < width,
{
}

/// A path in what five columns leave of the width, its beginning cut.
pub open spec fn path_text(root: Seq<char>, width: int) -> Seq<char> {
    let max = minus(width, 5);
    if root.len() > max {
        "    …"@ + root.skip(root.len() - max)
    } else {
        "     "@ + root
    }
}

/// The path fits on its row, and begins in the same column whether it is cut
/// or not.
pub proof fn path_fits(root: Seq<char>, width: int)
    requires
        5 <= width,
    ensures
        path_text(root, width).len() <= width,
        path_text(root, width).skip(5) == root.skip(minus(root.len() as int, width - 5)),
{
    reveal_strlit("    …");
    reveal_strlit("     ");
    let cut = minus(root.len() as int, width - 5);
    assert(path_text(root, width).skip(5) =~= root.skip(cut));
}

fn build_path(root: &str, width: u16) -> (r: String)
    ensures
        r@ == path_text(root@, width as int),
{
    let max: usize = (width as usize).saturating_sub(5);
    let v = chars_of(root);
    if v.len() > max {
        let rest = slice_of(&v, v.len() - max, v.len());
        assert(rest@ =~= root@.skip(root@.len() - max));
        cat2("    …", &rest)
    } else {
        cat2("     ", root)
    }
}

#[derive(Debug)]
pub struct ChipStrip {
    pub line: Line,
    pub scroll: u16,
    pub row: Rect,
    /// The path of the selected project, where there is a second row for it.
    pub path: Option<(String, Rect)>,
}

pub open spec fn strip_rows(area: Rect) -> (Rect, Option<Rect>) {
    (
        Rect { height: 1, ..area },
        if area.height >= 2 {
            Some(Rect { y: (area.y + 1) as u16, height: 1, ..area })
        } else {
            None
        },
    )
}

pub open spec fn path_view(p: Option<(String, Rect)>) -> Option<(Seq<char>, Rect)> {
    match p {
        Some((s, r)) => Some((s@, r)),
        None => None,
    }
}

/// Lays the strip out, or nothing where it has no row.
pub fn render_project_chip_strip(area: Rect, projects: &Vec<ProjectChip>, sel: usize) -> (r: Option<ChipStrip>)
    requires
        area.fits(),
    ensures
        r is Some <==> area.height > 0,
        match r {
            None => true,
            Some(s) => {
                let (start, end) = selected_span(projects@, sel as int);
                &&& s.line@ == strip(projects@, sel as int, projects@.len() as int)
                &&& s.scroll == strip_scroll(start, end, area.width as int)
                &&& s.row == strip_rows(area).0
                &&& path_view(s.path) == match strip_rows(area).1 {
                    Some(row) => if sel < projects@.len() {
                        Some((path_text(projects@[sel as int].root@, area.width as int), row))
                    } else {
                        None
                    },
                    None => None,
                }
            },
        },
{
    if area.height == 0 {
        return None;
    }
    let mut l = Line::of("  󰉋 ", fg(label_gray()).on(band_bg()));
    l.put(" P·R·Rv·M·D  ", fg(dim_text()).on(band_bg()));
    let mut start: usize = 0;
    let mut end: usize = 0;
    let mut i: usize = 0;
    while i < projects.len()
        invariant
            i <= projects@.len(),
            l@ == strip(projects@, sel as int, i as int),
            i <= sel ==> start == 0 && end == 0,
            sel < i ==> start == at_most(selected_span(projects@, sel as int).0, usize::MAX as int),
            sel < i ==> end == at_most(selected_span(projects@, sel as int).1, usize::MAX as int),
        decreases projects@.len() - i,
    {
        if i == sel {
            start = l.chars_len();
        }
        l.join(build_chip(&projects[i], i == sel));
        if i == sel {
            end = l.chars_len();
        }
        i += 1;
    }
    let scroll: usize = if end > area.width as usize {
        let back: usize = start.saturating_sub(4);
        if back < 0xffff {
            back
        } else {
            0xffff
        }
    } else {
        0
    };
    let row = Rect { x: area.x, y: area.y, width: area.width, height: 1 };
    let path = if area.height >= 2 && sel < projects.len() {
        let below = Rect { x: area.x, y: area.y + 1, width: area.width, height: 1 };
        Some((build_path(&projects[sel].root, area.width), below))
    } else {
        None
    };
    Some(ChipStrip { line: l, scroll: scroll as u16, row, path })
}

// ---------------------------------------------------------------------------
// What the chips tell
// ---------------------------------------------------------------------------

/// One more task counts once, in the column of its status; one that runs without workers
/// counts as planned.
pub proof fn one_more_task_counts_once(tasks: Seq<Task>, t: Task, b: Bucket)
    ensures
        count_in(Seq::empty(), b) == 0,
        count_in(tasks.push(t), b) == count_in(tasks, b) + if b == (match t.status {
            TaskStatus::Backlog => Bucket::Backlog,
            TaskStatus::Planning => Bucket::Planning,
            TaskStatus::Running => if t.workers@.len() == 0 {
                Bucket::Planning
            } else {
                Bucket::Running
            },
            TaskStatus::Review => Bucket::Review,
            TaskStatus::Merging => Bucket::Merging,
            TaskStatus::Done => Bucket::Done,
        }) {
            1int
        } else {
            0int
        },
{
    assert(tasks.push(t).drop_last() =~= tasks);
}

/// A chip: the name of its project, then how many of its tasks are planned, run, are
/// reviewed, merged and done, in this order, and how many are queued where any is.
pub proof fn chips_tell_the_counts(p: ProjectChip, selected: bool)
    ensures
        ({
            let t = p.tasks@;
            let queued = count_in(t, Bucket::Backlog);
            line_text(chip(p, selected)) == (" "@ + p.name@ + " "@) + (" "@ + dec(
                count_in(t, Bucket::Planning) as nat,
            ) + "·"@ + dec(count_in(t, Bucket::Running) as nat) + "·"@ + dec(count_in(t, Bucket::Review) as nat) + "·"@
                + (dec(count_in(t, Bucket::Merging) as nat) + "·"@ + dec(count_in(t, Bucket::Done) as nat) + " "@)) + (
            if queued > 0 {
                " 󰒲 "@ + dec(queued as nat) + " "@
            } else {
                Seq::empty()
            }) + " "@
        }),
        selected ==> chip(p, selected)[0].style.bg == Some(Color::Rgb(190, 200, 230)),
        !selected ==> chip(p, selected)[0].style.bg != Some(Color::Rgb(190, 200, 230)),
{
    broadcast use {crate::style::joined_line_text, crate::style::span_line_text, crate::style::blank_line_text};

}

proof fn lemma_strip_before(a: Seq<ProjectChip>, b: Seq<ProjectChip>, sel: int, n: int)
    requires
        0 <= n <= a.len() <= b.len(),
        forall|i: int| 0 <= i < a.len() ==> a[i] == b[i],
    ensures
        strip(a, sel, n) == strip(b, sel, n),
    decreases n,
{
    if n > 0 {
        lemma_strip_before(a, b, sel, n - 1);
    }
}

/// The strip begins with a legend, and one more project adds its chip at the end.
pub proof fn chips_are_appended(projects: Seq<ProjectChip>, p: ProjectChip, sel: int)
    ensures
        line_text(strip(projects, sel, 0)) == "  󰉋 "@ + " P·R·Rv·M·D  "@,
        strip(projects.push(p), sel, (projects.len() + 1) as int) == strip(projects, sel, projects.len() as int) + chip(
            p,
            projects.len() == sel,
        ),
{
    broadcast use {crate::style::joined_line_text, crate::style::span_line_text, crate::style::blank_line_text};

    lemma_strip_before(projects, projects.push(p), sel, projects.len() as int);
}

/// The selected chip takes the characters of its own text, behind those of the chips before
/// it.
pub proof fn selected_chip_takes_its_text(projects: Seq<ProjectChip>, sel: int)
    requires
        0 <= sel < projects.len(),
    ensures
        selected_span(projects, sel).0 == line_text(strip(projects, sel, sel)).len(),
        selected_span(projects, sel).1 - selected_span(projects, sel).0 == line_text(chip(projects[sel], true)).len(),
{
    broadcast use {crate::style::joined_line_text, crate::style::span_line_text, crate::style::blank_line_text};

}

} // verus!
