//! The to-do panel at the right edge of the screen.

use crate::geometry::{inner_of, inside, main_bands, main_layout, Rect};
use crate::palette::{accent_blue, dim_text, rgb};
use crate::parts::texts;
use crate::style::{blank, fg, line_text, ln, no_lines, plain, Color, Line, Lines, SpanView, Style};
use crate::task_cards::body_view;
use crate::text::{at_most, cat2, cat5, chars_of, dec, fill, minus, slice_of, text_count, text_fill};
use crate::wrap::{wrap_text, wrapped};
use vstd::prelude::*;

verus! {

broadcast use vstd::string::group_string_axioms;

#[derive(Debug)]
pub struct TodoEntry {
    pub text: String,
    pub done: bool,
}

#[derive(Debug)]
pub struct TodoState {
    pub items: Vec<TodoEntry>,
    pub selected: usize,
    /// Whether a new item is being typed.
    pub adding: bool,
    pub input: String,
}

// ---------------------------------------------------------------------------
// Items
// ---------------------------------------------------------------------------

/// How many of the first `n` items are done.
pub open spec fn done_of(items: Seq<TodoEntry>, n: int) -> int
    decreases n,
{
    if n <= 0 {
        0
    } else {
        done_of(items, n - 1) + if items[n - 1].done {
            1int
        } else {
            0
        }
    }
}

pub open spec fn item_style(done: bool, selected: bool) -> Style {
    if done {
        fg(dim_text()).italic()
    } else if selected {
        fg(Color::White).bold()
    } else {
        fg(rgb(200, 200, 210))
    }
}

pub open spec fn marker_style(done: bool, selected: bool) -> Style {
    if done {
        fg(Color::Green)
    } else if selected {
        fg(accent_blue()).bold()
    } else {
        fg(Color::DarkGray)
    }
}

/// A row of an item: the cursor and the checkbox before its first row, blanks
/// before the others.
pub open spec fn item_row(rows: Seq<Seq<char>>, done: bool, selected: bool, j: int) -> Seq<SpanView> {
    (if j == 0 {
        ln(
            if selected {
                "› "@
            } else {
                "  "@
            },
            marker_style(done, selected),
        ) + ln(
            if done {
                "[x] "@
            } else {
                "[ ] "@
            },
            marker_style(done, selected),
        )
    } else {
        ln(fill(' ', 6), plain())
    }) + ln(rows[j], item_style(done, selected))
}

/// The rows of an item whose text gets `w` columns.
pub open spec fn item_rows(e: TodoEntry, selected: bool, w: int) -> Seq<Seq<SpanView>> {
    let rows = wrapped(e.text@, w);
    Seq::new(rows.len(), |j: int| item_row(rows, e.done, selected, j))
}

/// The rows of the first `n` items, of which `sel` is selected.
pub open spec fn list_rows(items: Seq<TodoEntry>, n: int, sel: int, w: int) -> Seq<Seq<SpanView>>
    decreases n,
{
    if n <= 0 {
        no_lines()
    } else {
        list_rows(items, n - 1, sel, w) + item_rows(items[n - 1], n - 1 == sel, w)
    }
}

/// The item that the panel keeps in view.
pub open spec fn in_view(t: TodoState) -> int {
    at_most(t.selected as int, minus(t.items@.len() as int, 1))
}

/// The item that carries the cursor: none while one is being typed.
pub open spec fn cursor_at(t: TodoState) -> int {
    if t.adding {
        -1
    } else {
        in_view(t)
    }
}

/// The first row on the screen where `room` rows fit: as many rows are
/// scrolled away as bring the item from `start` to `end` into view, but never
/// its first one.
pub open spec fn scroll_for(total: int, room: int, start: int, end: int) -> int {
    if total > room {
        at_most(at_most(minus(end, room), start), total - room)
    } else {
        0
    }
}

/// The first row of an item is on the screen, all of its rows are where they
/// fit, and the rows never end above the last row of the panel.
pub proof fn panel_shows_selection(total: int, room: int, start: int, end: int)
    requires
        1 <= room,
        0 <= start < end <= total,
    ensures
        ({
            let s = scroll_for(total, room, start, end);
            &&& s <= start < s + room
            &&& end - start <= room ==> end <= s + room
            &&& total >= room ==> s + room <= total
        }),
{
}

fn build_item(e: &TodoEntry, selected: bool, w: usize) -> (r: Lines)
    ensures
        r@ == item_rows(*e, selected, w as int),
{
    let rows = wrap_text(&e.text, w);
    let cursor = if selected {
        "› "
    } else {
        "  "
    };
    let checkbox = if e.done {
        "[x] "
    } else {
        "[ ] "
    };
    let text_style = if e.done {
        fg(dim_text()).italic()
    } else if selected {
        fg(Color::White).bold()
    } else {
        fg(rgb(200, 200, 210))
    };
    let mark = if e.done {
        fg(Color::Green)
    } else if selected {
        fg(accent_blue()).bold()
    } else {
        fg(Color::DarkGray)
    };
    let ghost all = item_rows(*e, selected, w as int);
    let mut out = Lines::none();
    let mut j: usize = 0;
    assert(out@ =~= all.take(0));
    assert(texts(rows@).len() == rows@.len());
    while j < rows.len()
        invariant
            j <= rows@.len(),
            rows@.len() == all.len(),
            texts(rows@) == wrapped(e.text@, w as int),
            all == item_rows(*e, selected, w as int),
            text_style == item_style(e.done, selected),
            mark == marker_style(e.done, selected),
            cursor@ == if selected {
                "› "@
            } else {
                "  "@
            },
            checkbox@ == if e.done {
                "[x] "@
            } else {
                "[ ] "@
            },
            out@ == all.take(j as int),
        decreases rows@.len() - j,
    {
        let mut l = if j == 0 {
            let mut l = Line::of(cursor, mark);
            l.put(checkbox, mark);
            l
        } else {
            Line::of(&text_fill(' ', 6), plain())
        };
        assert(texts(rows@)[j as int] == rows@[j as int]@);
        l.put(&rows[j], text_style);
        assert(l@ == all[j as int]);
        out.put(l);
        j += 1;
        assert(out@ =~= all.take(j as int));
    }
    assert(all.take(j as int) =~= all);
    out
}

// ---------------------------------------------------------------------------
// The input
// ---------------------------------------------------------------------------

/// The end of a text that is longer than `room` characters, behind an
/// ellipsis.
pub open spec fn tail_of(text: Seq<char>, room: int) -> Seq<char> {
    if text.len() > room && room > 0 {
        "…"@ + text.skip(text.len() + 1 - room)
    } else {
        text
    }
}

/// A text that is cut fills its room, and its last character, the cursor,
/// stays.
pub proof fn tail_keeps_cursor(text: Seq<char>, room: int)
    requires
        0 < text.len(),
        1 < room,
    ensures
        tail_of(text, room).len() <= room,
        text.len() > room ==> tail_of(text, room).len() == room,
        tail_of(text, room).last() == text.last(),
{
    reveal_strlit("…");
}

pub open spec fn input_lines(input: Seq<char>, width: int) -> Seq<Seq<SpanView>> {
    seq![blank()] + seq![
        ln("+ "@, fg(Color::Green).bold()) + ln(
            tail_of(input + "▎"@, minus(width, 2)),
            fg(Color::White).bold(),
        ),
    ]
}

fn build_input(input: &str, width: usize) -> (r: Lines)
    ensures
        r@ == input_lines(input@, width as int),
{
    let all = cat2(input, "▎");
    let v = chars_of(&all);
    let n: usize = v.len();
    let room: usize = width.saturating_sub(2);
    let text = if n > room && room > 0 {
        let end = slice_of(&v, n - (room - 1), n);
        assert(end@ =~= all@.skip(n + 1 - room));
        cat2("…", &end)
    } else {
        all
    };
    let mut l = Line::of("+ ", fg(Color::Green).bold());
    l.put(&text, fg(Color::White).bold());
    let mut out = Lines::of(Line::empty());
    out.put(l);
    out
}

// ---------------------------------------------------------------------------
// The panel
// ---------------------------------------------------------------------------

pub open spec fn nothing_yet() -> Seq<Seq<SpanView>> {
    seq![blank()] + seq![
        ln("  No tasks yet — press a to add one."@, fg(Color::DarkGray).italic()),
    ]
}

/// The items in `room` rows of `width` columns.
pub open spec fn list_lines(t: TodoState, width: int, room: int) -> Seq<Seq<SpanView>> {
    let n = t.items@.len() as int;
    let w = minus(width, 6);
    let rows = list_rows(t.items@, n, cursor_at(t), w);
    let start = list_rows(t.items@, in_view(t), cursor_at(t), w).len() as int;
    let end = list_rows(t.items@, at_most(in_view(t) + 1, n), cursor_at(t), w).len() as int;
    let s = scroll_for(rows.len() as int, room, start, end);
    rows.subrange(s, at_most(s + room, rows.len() as int))
}

/// What the panel says in `width` by `height` cells. While an item is being
/// typed its last two rows are kept for the input.
pub open spec fn panel_lines(t: TodoState, width: int, height: int) -> Seq<Seq<SpanView>> {
    (if t.items@.len() == 0 && !t.adding {
        nothing_yet()
    } else {
        list_lines(
            t,
            width,
            if t.adding {
                minus(height, 2)
            } else {
                height
            },
        )
    }) + if t.adding {
        input_lines(t.input@, width)
    } else {
        no_lines()
    }
}

proof fn lemma_list_grows(items: Seq<TodoEntry>, a: int, b: int, sel: int, w: int)
    requires
        0 <= a <= b,
    ensures
        list_rows(items, a, sel, w).len() <= list_rows(items, b, sel, w).len(),
    decreases b - a,
{
    if a < b {
        lemma_list_grows(items, a, b - 1, sel, w);
    }
}

fn build_list(t: &TodoState, width: usize, room: usize) -> (r: Lines)
    ensures
        r@ == list_lines(*t, width as int, room as int),
{
    let n: usize = t.items.len();
    let w: usize = width.saturating_sub(6);
    let last: usize = n.saturating_sub(1);
    let sel: usize = if t.selected < last {
        t.selected
    } else {
        last
    };
    let ghost at = cursor_at(*t);
    let mut rows = Lines::none();
    let mut start: usize = 0;
    let mut end: usize = 0;
    let mut i: usize = 0;
    while i < n
        invariant
            i <= n,
            n == t.items@.len(),
            sel == in_view(*t),
            at == cursor_at(*t),
            rows@ == list_rows(t.items@, i as int, at, w as int),
            i <= sel ==> start == 0,
            i > sel ==> start == list_rows(t.items@, sel as int, at, w as int).len(),
            i > sel ==> end == list_rows(t.items@, sel + 1, at, w as int).len(),
        decreases n - i,
    {
        if i == sel {
            start = rows.len();
        }
        rows.join(build_item(&t.items[i], !t.adding && i == sel, w));
        if i == sel {
            end = rows.len();
        }
        i += 1;
    }
    let total: usize = rows.len();
    proof {
        if n > 0 {
            lemma_list_grows(t.items@, sel as int, sel + 1, at, w as int);
            lemma_list_grows(t.items@, sel + 1, n as int, at, w as int);
        }
    }
    let mut s: usize = 0;
    if total > room {
        s = end.saturating_sub(room);
        if start < s {
            s = start;
        }
        if total - room < s {
            s = total - room;
        }
    }
    let stop: usize = if room < total - s {
        s + room
    } else {
        total
    };
    let mut out = Lines::none();
    let mut k: usize = s;
    assert(out@ =~= rows@.subrange(s as int, s as int));
    while k < stop
        invariant
            s <= k <= stop <= rows@.len(),
            rows@.len() == rows.rows@.len(),
            out@ == rows@.subrange(s as int, k as int),
        decreases stop - k,
    {
        out.put(rows.rows[k].copy());
        k += 1;
        assert(out@ =~= rows@.subrange(s as int, k as int));
    }
    out
}

fn build_panel(t: &TodoState, width: usize, height: usize) -> (r: Lines)
    ensures
        r@ == panel_lines(*t, width as int, height as int),
{
    let mut out = if t.items.len() == 0 && !t.adding {
        let mut l = Lines::of(Line::empty());
        l.put(Line::of("  No tasks yet — press a to add one.", fg(Color::DarkGray).italic()));
        l
    } else {
        let room: usize = if t.adding {
            height.saturating_sub(2)
        } else {
            height
        };
        build_list(t, width, room)
    };
    let input = if t.adding {
        build_input(&t.input, width)
    } else {
        Lines::none()
    };
    out.join(input);
    out
}

#[derive(Debug)]
pub struct TodoPanel {
    pub area: Rect,
    pub title: String,
    pub footer: String,
    pub inner: Rect,
    /// None where nothing is inside the border.
    pub body: Option<Lines>,
}

/// The panel's place at the right end of the body band.
pub open spec fn panel_area(body: Rect) -> Rect {
    let w = at_most(46, body.width as int);
    Rect { x: (body.x + body.width - w) as u16, width: w as u16, ..body }
}

pub open spec fn panel_title(t: TodoState) -> Seq<char> {
    " To-Do · "@ + dec(done_of(t.items@, t.items@.len() as int) as nat) + "/"@ + dec(t.items@.len()) + " done "@
}

pub open spec fn panel_footer(adding: bool) -> Seq<char> {
    if adding {
        " enter add · esc cancel "@
    } else {
        " a add · space toggle · d delete · c clear done · esc close "@
    }
}

/// `p` is the panel in the body band.
pub open spec fn panel_in(p: Option<TodoPanel>, body: Rect, t: TodoState) -> bool {
    match p {
        None => body.width == 0 || body.height == 0,
        Some(p) => {
            &&& body.width > 0 && body.height > 0
            &&& p.area == panel_area(body)
            &&& p.title@ == panel_title(t)
            &&& p.footer@ == panel_footer(t.adding)
            &&& p.inner == inside(p.area)
            &&& body_view(p.body) == if p.inner.width > 0 && p.inner.height > 0 {
                Some(panel_lines(t, p.inner.width as int, p.inner.height as int))
            } else {
                None
            }
        },
    }
}

/// The panel in a body band.
pub fn todo_panel(body: Rect, t: &TodoState) -> (r: Option<TodoPanel>)
    requires
        body.fits(),
    ensures
        panel_in(r, body, *t),
{
    let width: u16 = if body.width < 46 {
        body.width
    } else {
        46
    };
    if width == 0 || body.height == 0 {
        return None;
    }
    let area = Rect { x: body.x + (body.width - width), y: body.y, width, height: body.height };
    let mut done: usize = 0;
    let mut i: usize = 0;
    while i < t.items.len()
        invariant
            i <= t.items@.len(),
            done <= i,
            done == done_of(t.items@, i as int),
        decreases t.items@.len() - i,
    {
        if t.items[i].done {
            done += 1;
        }
        i += 1;
    }
    let title = cat5(" To-Do · ", &text_count(done), "/", &text_count(t.items.len()), " done ");
    let footer = if t.adding {
        " enter add · esc cancel "
    } else {
        " a add · space toggle · d delete · c clear done · esc close "
    };
    let inner = inner_of(area);
    let lines = if inner.width == 0 || inner.height == 0 {
        None
    } else {
        Some(build_panel(t, inner.width as usize, inner.height as usize))
    };
    Some(TodoPanel { area, title, footer: footer.to_owned(), inner, body: lines })
}

/// The panel on the screen: over the body band, so that the tabs and the
/// status bar stay in view. Where that has no rows there is no panel.
pub fn render_todo_panel(area: Rect, t: &TodoState) -> (r: Option<TodoPanel>)
    requires
        area.fits(),
    ensures
        panel_in(r, main_bands(area)[2], *t),
        r is Some <==> area.width > 0 && area.height > 5,
{
    let bands = main_layout(area);
    assert(bands@[2].within(area));
    todo_panel(bands[2], t)
}

// ---------------------------------------------------------------------------
// What the panel tells
// ---------------------------------------------------------------------------

/// The title counts the items that are done among all of them: one more item counts where
/// it is done.
pub proof fn one_more_item_counts(items: Seq<TodoEntry>, e: TodoEntry)
    ensures
        done_of(items, 0) == 0,
        done_of(items.push(e), (items.len() + 1) as int) == done_of(items, items.len() as int) + if e.done {
            1int
        } else {
            0int
        },
{
    lemma_done_before(items, items.push(e), items.len() as int);
}

proof fn lemma_done_before(a: Seq<TodoEntry>, b: Seq<TodoEntry>, n: int)
    requires
        0 <= n <= a.len() <= b.len(),
        forall|i: int| 0 <= i < a.len() ==> a[i] == b[i],
    ensures
        done_of(a, n) == done_of(b, n),
    decreases n,
{
    if n > 0 {
        lemma_done_before(a, b, n - 1);
    }
}

/// The panel names how many items are done, and the keys that fit.
pub proof fn panel_counts_its_items(p: TodoPanel, body: Rect, t: TodoState)
    requires
        panel_in(Some(p), body, t),
    ensures
        p.title@ == " To-Do · "@ + dec(done_of(t.items@, t.items@.len() as int) as nat) + "/"@ + dec(t.items@.len())
            + " done "@,
        p.footer@ == if t.adding {
            " enter add · esc cancel "@
        } else {
            " a add · space toggle · d delete · c clear done · esc close "@
        },
        p.area.x + p.area.width == body.x + body.width || body.x + body.width > 0xffff,
        p.area.width <= 46,
{
}

/// An item begins with a mark where it is selected and with its box, ticked where it is
/// done; its other rows stand below its text.
pub proof fn items_are_told(e: TodoEntry, selected: bool, w: int, j: int)
    requires
        0 <= j < wrapped(e.text@, w).len(),
    ensures
        item_rows(e, selected, w).len() == wrapped(e.text@, w).len(),
        line_text(item_rows(e, selected, w)[j]) == if j == 0 {
            (if selected {
                "› "@
            } else {
                "  "@
            }) + (if e.done {
                "[x] "@
            } else {
                "[ ] "@
            }) + wrapped(e.text@, w)[0]
        } else {
            fill(' ', 6) + wrapped(e.text@, w)[j]
        },
{
    broadcast use {crate::style::joined_line_text, crate::style::span_line_text, crate::style::blank_line_text};

    let rows = wrapped(e.text@, w);
    assert(item_rows(e, selected, w)[j] == item_row(rows, e.done, selected, j));
}

/// Where all rows fit, every item has its rows below those of the items before it.
pub proof fn items_stand_in_order(t: TodoState, width: int, room: int, i: int, j: int)
    requires
        0 <= i < t.items@.len(),
        !t.adding,
        list_rows(t.items@, t.items@.len() as int, cursor_at(t), minus(width, 6)).len() <= room,
        0 <= j < wrapped(t.items@[i].text@, minus(width, 6)).len(),
    ensures
        ({
            let w = minus(width, 6);
            let above = list_rows(t.items@, i, cursor_at(t), w).len();
            let rows = panel_lines(t, width, room);
            &&& above + j < rows.len()
            &&& rows[above + j] == item_rows(
                t.items@[i],
                i == if t.selected < t.items@.len() {
                    t.selected as int
                } else {
                    t.items@.len() - 1
                },
                w,
            )[j]
        }),
{
    let w = minus(width, 6);
    let n = t.items@.len() as int;
    let all = list_rows(t.items@, n, cursor_at(t), w);
    lemma_item_in_list(t.items@, n, cursor_at(t), w, i, j);
    assert(all.subrange(0, all.len() as int) =~= all);
    assert(panel_lines(t, width, room) =~= all);
}

proof fn lemma_item_in_list(items: Seq<TodoEntry>, n: int, sel: int, w: int, i: int, j: int)
    requires
        0 <= i < n <= items.len(),
        0 <= j < wrapped(items[i].text@, w).len(),
    ensures
        list_rows(items, i, sel, w).len() + j < list_rows(items, n, sel, w).len(),
        list_rows(items, n, sel, w)[list_rows(items, i, sel, w).len() + j] == item_rows(items[i], i == sel, w)[j],
    decreases n,
{
    let before = list_rows(items, n - 1, sel, w);
    let own = item_rows(items[n - 1], n - 1 == sel, w);
    assert(list_rows(items, n, sel, w) == before + own);
    if i < n - 1 {
        lemma_item_in_list(items, n - 1, sel, w, i, j);
    }
}

/// While an item is typed, the last row shows it with a cursor behind it, and its end where
/// it is too long.
pub proof fn typed_item_comes_last(t: TodoState, width: int, height: int)
    requires
        t.adding,
        t.input@.len() + 3 <= width,
    ensures
        line_text(panel_lines(t, width, height).last()) == "+ "@ + (t.input@ + "▎"@),
{
    broadcast use {crate::style::joined_line_text, crate::style::span_line_text, crate::style::blank_line_text};

    reveal_strlit("▎");
}

/// An empty panel says how to fill it.
pub proof fn empty_panel_tells_the_key(t: TodoState, width: int, height: int)
    requires
        t.items@.len() == 0,
        !t.adding,
    ensures
        line_text(panel_lines(t, width, height)[1]) == "  No tasks yet — press a to add one."@,
{
    broadcast use {crate::style::joined_line_text, crate::style::span_line_text, crate::style::blank_line_text};

}

} // verus!
