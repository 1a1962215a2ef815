//! The grid of session cards, in groups, scrolled so that the selected card
//! is visible.

use crate::geometry::Rect;
use crate::models::SessionInfo;
use crate::palette::sep_gray;
use crate::style::{blank, fg, line_text, ln, Color, Line, SpanView};
use crate::text::{at_most, cat2, cat3, dec, minus, text_count};
use vstd::prelude::*;

verus! {

broadcast use vstd::string::group_string_axioms;

pub const GROUP_HEADER_HEIGHT: u16 = 1;

pub const GROUP_GAP: u16 = 1;

/// Sessions of one project.
#[derive(Debug)]
pub struct SessionGroup {
    pub name: String,
    pub cwd: String,
    pub sessions: Vec<SessionInfo>,
}

/// The height of a card, at least one row.
#[verifier::allow_in_spec]
pub fn cell_height(configured: u16) -> u16
    returns
        (if configured >= 1 {
            configured
        } else {
            1u16
        }),
{
    if configured >= 1 {
        configured
    } else {
        1
    }
}

/// How many sessions wait for the user.
pub open spec fn attention(sessions: Seq<SessionInfo>) -> int
    decreases sessions.len(),
{
    if sessions.len() == 0 {
        0
    } else {
        attention(sessions.drop_last()) + if sessions.last().needs_attention {
            1int
        } else {
            0int
        }
    }
}

fn count_attention(sessions: &Vec<SessionInfo>) -> (r: usize)
    ensures
        r == attention(sessions@),
{
    let mut c: usize = 0;
    let mut i: usize = 0;
    while i < sessions.len()
        invariant
            i <= sessions@.len(),
            c == attention(sessions@.take(i as int)),
            c <= i,
        decreases sessions@.len() - i,
    {
        if sessions[i].needs_attention {
            c += 1;
        }
        i += 1;
        assert(sessions@.take(i as int).drop_last() =~= sessions@.take(i - 1));
        assert(sessions@.take(i as int).last() == sessions@[i - 1]);
    }
    assert(sessions@.take(i as int) =~= sessions@);
    c
}

/// The header of a group: its name, how many sessions it has, how many wait
/// for the user, and where they run.
pub open spec fn group_header(g: SessionGroup) -> Seq<SpanView> {
    let n = attention(g.sessions@);
    ln(" 󰉋 "@ + g.name@ + " "@, fg(Color::White).bold()) + ln(
        " "@ + dec(g.sessions@.len()) + " sessions"@,
        fg(Color::DarkGray),
    ) + (if n > 0 {
        ln("  󰂞 "@ + dec(n as nat), fg(Color::Yellow))
    } else {
        blank()
    }) + ln("  "@ + g.cwd@, fg(sep_gray()))
}

fn build_group_header(g: &SessionGroup) -> (r: Line)
    ensures
        r@ == group_header(*g),
{
    let n: usize = count_attention(&g.sessions);
    let mut l = Line::of(&cat3(" 󰉋 ", &g.name, " "), fg(Color::White).bold());
    l.put(&cat3(" ", &text_count(g.sessions.len()), " sessions"), fg(Color::DarkGray));
    let waiting = if n > 0 {
        Line::of(&cat2("  󰂞 ", &text_count(n)), fg(Color::Yellow))
    } else {
        Line::empty()
    };
    l.join(waiting);
    l.put(&cat2("  ", &g.cwd), fg(sep_gray()));
    l
}

// ---------------------------------------------------------------------------
// Rows of the content
// ---------------------------------------------------------------------------

/// How many rows of cards a group of `n` sessions has.
pub open spec fn card_rows(n: int, cols: int) -> int {
    if n % cols == 0 {
        n / cols
    } else {
        n / cols + 1
    }
}

/// The rows that a group takes, its header and the gap below it included.
pub open spec fn group_rows(g: SessionGroup, cols: int, cell: int) -> int {
    GROUP_HEADER_HEIGHT + card_rows(g.sessions@.len() as int, cols) * cell + GROUP_GAP
}

/// The row on which group `k` begins, as far as sixteen bits count.
pub open spec fn group_top(groups: Seq<SessionGroup>, k: int, cols: int, cell: int) -> int
    decreases k,
{
    if k <= 0 {
        0
    } else {
        at_most(group_top(groups, k - 1, cols, cell) + group_rows(groups[k - 1], cols, cell), 0xffff)
    }
}

/// The row on which card `i` of group `k` begins.
pub open spec fn card_top(groups: Seq<SessionGroup>, k: int, i: int, cols: int, cell: int) -> int {
    group_top(groups, k, cols, cell) + GROUP_HEADER_HEIGHT + (i / cols) * cell
}

/// The scroll position that keeps a card visible, and the header of its group
/// too where both fit on the screen.
pub open spec fn grid_scrolled(scroll: int, top: int, card: int, cell: int, height: int) -> int {
    let bottom = card + cell;
    let first = if bottom - top <= height {
        top
    } else {
        card
    };
    if first < scroll {
        first
    } else if bottom > scroll + height {
        minus(bottom, height)
    } else {
        scroll
    }
}

/// The selected card is on the screen wherever a card fits, and so is the
/// header of its group where both fit.
pub proof fn grid_keeps_card_visible(scroll: int, top: int, card: int, cell: int, height: int)
    requires
        0 <= scroll,
        0 <= top < card,
        0 < cell <= height,
    ensures
        ({
            let s = grid_scrolled(scroll, top, card, cell, height);
            &&& s <= card
            &&& card + cell <= s + height
            &&& card + cell - top <= height ==> s <= top
        }),
{
}

// ---------------------------------------------------------------------------
// Cells
// ---------------------------------------------------------------------------

/// A card on the screen.
#[derive(Clone, Copy, Debug, PartialEq, Eq, Structural)]
pub struct Cell {
    pub group: usize,
    pub index: usize,
    pub rect: Rect,
    pub selected: bool,
}

/// A group's header on the screen.
#[derive(Debug)]
pub struct Header {
    pub y: u16,
    pub line: Line,
}

/// Where card `i` of group `k` is drawn, where all of it is on the screen.
/// The last card of a row takes what the others leave of the width.
pub open spec fn cell(
    groups: Seq<SessionGroup>,
    k: int,
    i: int,
    cols: int,
    high: int,
    area: Rect,
    scroll: int,
    sel: (int, int),
) -> Option<Cell> {
    let y = card_top(groups, k, i, cols, high) - scroll;
    let col = i % cols;
    let wide = area.width as int / cols;
    if y < 0 || y + high > area.height {
        None
    } else {
        Some(
            Cell {
                group: k as usize,
                index: i as usize,
                rect: Rect {
                    x: (area.x + col * wide) as u16,
                    y: (area.y + y) as u16,
                    width: (if col == cols - 1 {
                        area.width - col * wide
                    } else {
                        wide
                    }) as u16,
                    height: high as u16,
                },
                selected: k == sel.0 && i == sel.1,
            },
        )
    }
}

/// The cells of the first `n` sessions of group `k`.
pub open spec fn group_cells(
    groups: Seq<SessionGroup>,
    k: int,
    n: int,
    cols: int,
    high: int,
    area: Rect,
    scroll: int,
    sel: (int, int),
) -> Seq<Cell>
    decreases n,
{
    if n <= 0 {
        Seq::empty()
    } else {
        let before = group_cells(groups, k, n - 1, cols, high, area, scroll, sel);
        match cell(groups, k, n - 1, cols, high, area, scroll, sel) {
            Some(c) => before.push(c),
            None => before,
        }
    }
}

/// The cells of the first `k` groups.
pub open spec fn all_cells(
    groups: Seq<SessionGroup>,
    k: int,
    cols: int,
    high: int,
    area: Rect,
    scroll: int,
    sel: (int, int),
) -> Seq<Cell>
    decreases k,
{
    if k <= 0 {
        Seq::empty()
    } else {
        all_cells(groups, k - 1, cols, high, area, scroll, sel) + group_cells(
            groups,
            k - 1,
            groups[k - 1].sessions@.len() as int,
            cols,
            high,
            area,
            scroll,
            sel,
        )
    }
}

/// The headers of the first `k` groups that are on the screen: their screen
/// rows and what they say.
pub open spec fn all_headers(
    groups: Seq<SessionGroup>,
    k: int,
    cols: int,
    high: int,
    area: Rect,
    scroll: int,
) -> Seq<(u16, Seq<SpanView>)>
    decreases k,
{
    if k <= 0 {
        Seq::empty()
    } else {
        let before = all_headers(groups, k - 1, cols, high, area, scroll);
        let y = group_top(groups, k - 1, cols, high) - scroll;
        if 0 <= y < area.height {
            before.push(((area.y + y) as u16, group_header(groups[k - 1])))
        } else {
            before
        }
    }
}

pub open spec fn header_views(hs: Seq<Header>) -> Seq<(u16, Seq<SpanView>)> {
    hs.map_values(|h: Header| (h.y, h.line@))
}

/// A cell lies inside the area that the grid is drawn in.
pub proof fn cells_stay_inside(
    groups: Seq<SessionGroup>,
    k: int,
    i: int,
    cols: int,
    high: int,
    area: Rect,
    scroll: int,
    sel: (int, int),
)
    requires
        area.fits(),
        0 < cols,
        0 <= i,
        0 < high <= 0xffff,
    ensures
        cell(groups, k, i, cols, high, area, scroll, sel) matches Some(c) ==> c.rect.within(area)
            && c.rect.height == high,
{
    lemma_columns(area.width as int, cols, i % cols);
}

proof fn lemma_columns(width: int, cols: int, col: int)
    requires
        0 <= width,
        0 <= col < cols,
    ensures
        0 <= width / cols,
        0 <= col * (width / cols),
        col * (width / cols) + width / cols <= width,
{
    let wide = width / cols;
    assert(wide >= 0 && cols * wide <= width) by (nonlinear_arith)
        requires
            wide == width / cols,
            0 <= width,
            0 < cols,
    ;
    assert(0 <= col * wide && col * wide + wide <= cols * wide) by (nonlinear_arith)
        requires
            0 <= col < cols,
            0 <= wide,
    ;
}

// ---------------------------------------------------------------------------
// The grid
// ---------------------------------------------------------------------------

/// The grid on the screen: the new scroll position, the headers and the cards.
#[derive(Debug)]
pub struct Grid {
    pub scroll: u16,
    pub headers: Vec<Header>,
    pub cells: Vec<Cell>,
}

proof fn lemma_group_tops(groups: Seq<SessionGroup>, k: int, cols: int, high: int)
    requires
        0 < cols,
        0 < high,
        0 <= k,
    ensures
        0 <= group_top(groups, k, cols, high) <= 0xffff,
    decreases k,
{
    if k > 0 {
        lemma_group_tops(groups, k - 1, cols, high);
        lemma_rows(groups[k - 1].sessions@.len() as int, cols, high);
    }
}

proof fn lemma_rows(n: int, cols: int, high: int)
    requires
        0 <= n,
        0 < cols,
        0 < high,
    ensures
        0 <= card_rows(n, cols),
        0 <= card_rows(n, cols) * high,
{
    assert(n / cols >= 0) by (nonlinear_arith)
        requires
            0 <= n,
            0 < cols,
    ;
    let r = card_rows(n, cols);
    assert(0 <= r * high) by (nonlinear_arith)
        requires
            0 <= r,
            0 < high,
    ;
}

proof fn lemma_card_in_group(groups: Seq<SessionGroup>, k: int, i: int, cols: int, high: int)
    requires
        0 < cols,
        0 < high,
        0 <= i,
    ensures
        group_top(groups, k, cols, high) < card_top(groups, k, i, cols, high),
        i < groups[k].sessions@.len() ==> card_top(groups, k, i, cols, high) <= card_top(
            groups,
            k,
            groups[k].sessions@.len() - 1,
            cols,
            high,
        ),
{
    let q = i / cols;
    assert(0 <= q && 0 <= q * high) by (nonlinear_arith)
        requires
            q == i / cols,
            0 <= i,
            0 < cols,
            0 < high,
    ;
    let last = groups[k].sessions@.len() - 1;
    if i <= last {
        vstd::arithmetic::div_mod::lemma_div_is_ordered(i, last, cols);
        vstd::arithmetic::mul::lemma_mul_inequality(q, last / cols, high);
    }
}

/// The rows of a group, and the place of its last card, are as high as sixteen
/// bits count.
pub open spec fn group_fits(groups: Seq<SessionGroup>, k: int, cols: int, high: int) -> bool {
    &&& group_rows(groups[k], cols, high) <= 0xffff
    &&& groups[k].sessions@.len() > 0 ==> card_top(
        groups,
        k,
        groups[k].sessions@.len() - 1,
        cols,
        high,
    ) <= 0xffff
}

fn build_tops(groups: &Vec<SessionGroup>, cols: u16, high: u16) -> (r: Vec<u16>)
    requires
        0 < cols,
        0 < high,
        forall|k: int|
            0 <= k < groups@.len() ==> #[trigger] group_fits(groups@, k, cols as int, high as int),
    ensures
        r@.len() == groups@.len(),
        forall|k: int|
            0 <= k < r@.len() ==> #[trigger] r@[k] == group_top(groups@, k, cols as int, high as int),
{
    let mut out: Vec<u16> = Vec::new();
    let mut y: u16 = 0;
    let mut k: usize = 0;
    while k < groups.len()
        invariant
            0 < cols,
            0 < high,
            k <= groups@.len(),
            out@.len() == k,
            forall|k: int|
                0 <= k < groups@.len() ==> #[trigger] group_fits(groups@, k, cols as int, high as int),
            y == group_top(groups@, k as int, cols as int, high as int),
            forall|j: int|
                0 <= j < out@.len() ==> #[trigger] out@[j] == group_top(
                    groups@,
                    j,
                    cols as int,
                    high as int,
                ),
        decreases groups@.len() - k,
    {
        out.push(y);
        let n: usize = groups[k].sessions.len();
        let c: usize = cols as usize;
        assert(n % c != 0 ==> n / c < n) by (nonlinear_arith)
            requires
                0 <= n,
                1 <= c,
        ;
        let rows: usize = if n % c == 0 {
            n / c
        } else {
            n / c + 1
        };
        proof {
            assert(group_fits(groups@, k as int, cols as int, high as int));
            lemma_rows(n as int, cols as int, high as int);
            lemma_group_tops(groups@, k as int, cols as int, high as int);
            assert(rows <= rows * high) by (nonlinear_arith)
                requires
                    0 <= rows,
                    1 <= high,
            ;
        }
        y = y.saturating_add(GROUP_HEADER_HEIGHT + rows as u16 * high + GROUP_GAP);
        k += 1;
    }
    out
}

/// The grid, or what stands in its place where there are no sessions.
#[derive(Debug)]
pub enum GridBody {
    Empty(String),
    Cards(Grid),
}

/// Every group, and the selected card with all its rows, are as high as sixteen
/// bits count.
pub open spec fn has_rows(
    groups: Seq<SessionGroup>,
    sel_group: int,
    sel_in_group: int,
    cols: int,
    high: int,
) -> bool {
    &&& forall|k: int| 0 <= k < groups.len() ==> #[trigger] group_fits(groups, k, cols, high)
    &&& card_top(groups, sel_group, sel_in_group, cols, high) + high <= 0xffff
}

/// `g` is the grid of `groups` in `area`, scrolled so that the selected card
/// is visible.
pub open spec fn is_grid(
    g: Grid,
    area: Rect,
    groups: Seq<SessionGroup>,
    cols: int,
    high: int,
    sel: (int, int),
    scroll: int,
) -> bool {
    &&& g.scroll == grid_scrolled(
        scroll,
        group_top(groups, sel.0, cols, high),
        card_top(groups, sel.0, sel.1, cols, high),
        high,
        area.height as int,
    )
    &&& header_views(g.headers@) == all_headers(
        groups,
        groups.len() as int,
        cols,
        high,
        area,
        g.scroll as int,
    )
    &&& g.cells@ == all_cells(groups, groups.len() as int, cols, high, area, g.scroll as int, sel)
}

/// Lays the grid out.
fn lay_out(
    area: Rect,
    groups: &Vec<SessionGroup>,
    grid_cols: u16,
    cell_height: u16,
    sel_group: usize,
    sel_in_group: usize,
    grid_scroll: u16,
) -> (r: Grid)
    requires
        area.fits(),
        0 < grid_cols,
        0 < cell_height,
        sel_group < groups@.len(),
        has_rows(groups@, sel_group as int, sel_in_group as int, grid_cols as int, cell_height as int),
    ensures
        is_grid(
            r,
            area,
            groups@,
            grid_cols as int,
            cell_height as int,
            (sel_group as int, sel_in_group as int),
            grid_scroll as int,
        ),
{
    let tops = build_tops(groups, grid_cols, cell_height);
    let cols: usize = grid_cols as usize;
    let top: u16 = tops[sel_group];
    let row: usize = sel_in_group / cols;
    proof {
        lemma_group_tops(groups@, sel_group as int, grid_cols as int, cell_height as int);
        assert(0 <= row <= row * cell_height) by (nonlinear_arith)
            requires
                0 <= row,
                1 <= cell_height,
        ;
    }
    let card: u16 = top + GROUP_HEADER_HEIGHT + row as u16 * cell_height;
    let bottom: u16 = card + cell_height;
    let first: u16 = if bottom - top <= area.height {
        top
    } else {
        card
    };
    let scroll: u16 = if first < grid_scroll {
        first
    } else if bottom as u32 > grid_scroll as u32 + area.height as u32 {
        bottom.saturating_sub(area.height)
    } else {
        grid_scroll
    };
    let headers = build_headers(area, groups, grid_cols, cell_height, &tops, scroll);
    let cells = build_cells(area, groups, grid_cols, cell_height, &tops, scroll, sel_group, sel_in_group);
    Grid { scroll, headers, cells }
}

proof fn lemma_group_cell(
    groups: Seq<SessionGroup>,
    k: int,
    i: int,
    n: int,
    cols: int,
    high: int,
    area: Rect,
    scroll: int,
    sel: (int, int),
)
    requires
        0 <= i < n,
        cell(groups, k, i, cols, high, area, scroll, sel) is Some,
    ensures
        group_cells(groups, k, n, cols, high, area, scroll, sel).contains(
            cell(groups, k, i, cols, high, area, scroll, sel)->Some_0,
        ),
    decreases n,
{
    let c = cell(groups, k, i, cols, high, area, scroll, sel)->Some_0;
    let all = group_cells(groups, k, n, cols, high, area, scroll, sel);
    let before = group_cells(groups, k, n - 1, cols, high, area, scroll, sel);
    if i == n - 1 {
        assert(all[all.len() - 1] == c);
    } else {
        lemma_group_cell(groups, k, i, n - 1, cols, high, area, scroll, sel);
        let j = choose|j: int| 0 <= j < before.len() && before[j] == c;
        assert(all[j] == c);
    }
}

proof fn lemma_grid_cell(
    groups: Seq<SessionGroup>,
    g: int,
    i: int,
    k: int,
    cols: int,
    high: int,
    area: Rect,
    scroll: int,
    sel: (int, int),
)
    requires
        0 <= g < k <= groups.len(),
        0 <= i < groups[g].sessions@.len(),
        cell(groups, g, i, cols, high, area, scroll, sel) is Some,
    ensures
        all_cells(groups, k, cols, high, area, scroll, sel).contains(
            cell(groups, g, i, cols, high, area, scroll, sel)->Some_0,
        ),
    decreases k,
{
    let c = cell(groups, g, i, cols, high, area, scroll, sel)->Some_0;
    let all = all_cells(groups, k, cols, high, area, scroll, sel);
    let before = all_cells(groups, k - 1, cols, high, area, scroll, sel);
    if g == k - 1 {
        let n = groups[g].sessions@.len() as int;
        let own = group_cells(groups, g, n, cols, high, area, scroll, sel);
        lemma_group_cell(groups, g, i, n, cols, high, area, scroll, sel);
        let j = choose|j: int| 0 <= j < own.len() && own[j] == c;
        assert(all[before.len() + j] == c);
    } else {
        lemma_grid_cell(groups, g, i, k - 1, cols, high, area, scroll, sel);
        let j = choose|j: int| 0 <= j < before.len() && before[j] == c;
        assert(all[j] == c);
    }
}

/// The card of the selected session is drawn, as the selected one, wherever a
/// card fits.
pub proof fn selected_session_is_drawn(
    g: Grid,
    area: Rect,
    groups: Seq<SessionGroup>,
    cols: int,
    high: int,
    sel: (int, int),
    scroll: int,
)
    requires
        0 < cols,
        0 < high <= area.height,
        0 <= scroll,
        0 <= sel.0 < groups.len(),
        0 <= sel.1 < groups[sel.0].sessions@.len(),
        is_grid(g, area, groups, cols, high, sel, scroll),
    ensures
        exists|j: int|
            0 <= j < g.cells@.len() && (#[trigger] g.cells@[j]).selected && g.cells@[j]
                == cell(groups, sel.0, sel.1, cols, high, area, g.scroll as int, sel)->Some_0,
{
    lemma_group_tops(groups, sel.0, cols, high);
    lemma_card_in_group(groups, sel.0, sel.1, cols, high);
    grid_keeps_card_visible(
        scroll,
        group_top(groups, sel.0, cols, high),
        card_top(groups, sel.0, sel.1, cols, high),
        high,
        area.height as int,
    );
    let c = cell(groups, sel.0, sel.1, cols, high, area, g.scroll as int, sel);
    assert(c is Some);
    lemma_grid_cell(
        groups,
        sel.0,
        sel.1,
        groups.len() as int,
        cols,
        high,
        area,
        g.scroll as int,
        sel,
    );
    let j = choose|j: int| 0 <= j < g.cells@.len() && g.cells@[j] == c->Some_0;
    assert(g.cells@[j].selected);
}

/// The row `row` cards below a group's header, with `more` rows.
fn rows_down(top: u16, row: usize, high: u16, more: u16) -> (r: u128)
    ensures
        r == top + GROUP_HEADER_HEIGHT + row * high + more,
{
    assert(0 <= row * high <= 0xffff_ffff_ffff_ffff * 0xffff) by (nonlinear_arith)
        requires
            0 <= row <= 0xffff_ffff_ffff_ffff,
            0 <= high <= 0xffff,
    ;
    top as u128 + GROUP_HEADER_HEIGHT as u128 + row as u128 * high as u128 + more as u128
}

/// Whether the groups and the selected card are as high as sixteen bits count.
pub fn grid_fits(
    groups: &Vec<SessionGroup>,
    grid_cols: u16,
    cell_height: u16,
    sel_group: usize,
    sel_in_group: usize,
) -> (r: bool)
    requires
        0 < grid_cols,
        0 < cell_height,
        sel_group < groups@.len(),
    ensures
        r == has_rows(
            groups@,
            sel_group as int,
            sel_in_group as int,
            grid_cols as int,
            cell_height as int,
        ),
{
    let c: usize = grid_cols as usize;
    let mut y: u16 = 0;
    let mut selected = false;
    let mut k: usize = 0;
    while k < groups.len()
        invariant
            0 < grid_cols,
            0 < cell_height,
            c == grid_cols,
            k <= groups@.len(),
            sel_group < groups@.len(),
            y == group_top(groups@, k as int, grid_cols as int, cell_height as int),
            forall|j: int|
                0 <= j < k ==> #[trigger] group_fits(groups@, j, grid_cols as int, cell_height as int),
            k > sel_group ==> selected == (card_top(
                groups@,
                sel_group as int,
                sel_in_group as int,
                grid_cols as int,
                cell_height as int,
            ) + cell_height <= 0xffff),
        decreases groups@.len() - k,
    {
        let n: usize = groups[k].sessions.len();
        proof {
            lemma_rows(n as int, grid_cols as int, cell_height as int);
            assert(n % c != 0 ==> n / c < n) by (nonlinear_arith)
                requires
                    0 <= n,
                    1 <= c,
            ;
        }
        let rows: usize = if n % c == 0 {
            n / c
        } else {
            n / c + 1
        };
        let high: u128 = rows_down(0, rows, cell_height, GROUP_GAP);
        if high > 0xffff || (n > 0 && rows_down(y, (n - 1) / c, cell_height, 0) > 0xffff) {
            assert(!group_fits(groups@, k as int, grid_cols as int, cell_height as int));
            return false;
        }
        if k == sel_group {
            selected = rows_down(y, sel_in_group / c, cell_height, cell_height) <= 0xffff;
        }
        assert(group_fits(groups@, k as int, grid_cols as int, cell_height as int));
        y = y.saturating_add(high as u16);
        k += 1;
    }
    selected
}

/// Lays the tab out: the grid of the groups' cards, or a hint where there are
/// none.
pub fn render_grid(
    area: Rect,
    groups: &Vec<SessionGroup>,
    grid_cols: u16,
    cell_height: u16,
    sel_group: usize,
    sel_in_group: usize,
    grid_scroll: u16,
) -> (r: GridBody)
    requires
        area.fits(),
        0 < grid_cols,
        0 < cell_height,
        groups@.len() > 0 ==> sel_group < groups@.len() && has_rows(
            groups@,
            sel_group as int,
            sel_in_group as int,
            grid_cols as int,
            cell_height as int,
        ),
    ensures
        match r {
            GridBody::Empty(s) => groups@.len() == 0 && s@
                == "No sessions found. Start an agent session to see it here."@,
            GridBody::Cards(g) => groups@.len() > 0 && is_grid(
                g,
                area,
                groups@,
                grid_cols as int,
                cell_height as int,
                (sel_group as int, sel_in_group as int),
                grid_scroll as int,
            ),
        },
{
    if groups.len() == 0 {
        return GridBody::Empty(
            "No sessions found. Start an agent session to see it here.".to_owned(),
        );
    }
    GridBody::Cards(
        lay_out(area, groups, grid_cols, cell_height, sel_group, sel_in_group, grid_scroll),
    )
}

fn build_headers(
    area: Rect,
    groups: &Vec<SessionGroup>,
    cols: u16,
    high: u16,
    tops: &Vec<u16>,
    scroll: u16,
) -> (r: Vec<Header>)
    requires
        area.fits(),
        tops@.len() == groups@.len(),
        forall|k: int|
            0 <= k < tops@.len() ==> #[trigger] tops@[k] == group_top(groups@, k, cols as int, high as int),
    ensures
        header_views(r@) == all_headers(
            groups@,
            groups@.len() as int,
            cols as int,
            high as int,
            area,
            scroll as int,
        ),
{
    let mut out: Vec<Header> = Vec::new();
    let mut k: usize = 0;
    assert(header_views(out@) =~= Seq::empty());
    while k < groups.len()
        invariant
            area.fits(),
            k <= groups@.len(),
            tops@.len() == groups@.len(),
            forall|k: int|
                0 <= k < tops@.len() ==> #[trigger] tops@[k] == group_top(
                    groups@,
                    k,
                    cols as int,
                    high as int,
                ),
            header_views(out@) == all_headers(
                groups@,
                k as int,
                cols as int,
                high as int,
                area,
                scroll as int,
            ),
        decreases groups@.len() - k,
    {
        let top: u16 = tops[k];
        if top >= scroll && top - scroll < area.height {
            let ghost was = header_views(out@);
            let h = Header { y: area.y + (top - scroll), line: build_group_header(&groups[k]) };
            let ghost v = (h.y, h.line@);
            out.push(h);
            assert(header_views(out@) =~= was.push(v));
        }
        k += 1;
    }
    out
}

fn build_cells(
    area: Rect,
    groups: &Vec<SessionGroup>,
    cols: u16,
    high: u16,
    tops: &Vec<u16>,
    scroll: u16,
    sel_group: usize,
    sel_in_group: usize,
) -> (r: Vec<Cell>)
    requires
        area.fits(),
        0 < cols,
        0 < high,
        forall|k: int|
            0 <= k < groups@.len() ==> #[trigger] group_fits(groups@, k, cols as int, high as int),
        tops@.len() == groups@.len(),
        forall|k: int|
            0 <= k < tops@.len() ==> #[trigger] tops@[k] == group_top(groups@, k, cols as int, high as int),
    ensures
        r@ == all_cells(
            groups@,
            groups@.len() as int,
            cols as int,
            high as int,
            area,
            scroll as int,
            (sel_group as int, sel_in_group as int),
        ),
{
    let mut out: Vec<Cell> = Vec::new();
    let mut k: usize = 0;
    while k < groups.len()
        invariant
            area.fits(),
            0 < cols,
            0 < high,
            k <= groups@.len(),
            forall|k: int|
                0 <= k < groups@.len() ==> #[trigger] group_fits(groups@, k, cols as int, high as int),
            tops@.len() == groups@.len(),
            forall|k: int|
                0 <= k < tops@.len() ==> #[trigger] tops@[k] == group_top(
                    groups@,
                    k,
                    cols as int,
                    high as int,
                ),
            out@ == all_cells(
                groups@,
                k as int,
                cols as int,
                high as int,
                area,
                scroll as int,
                (sel_group as int, sel_in_group as int),
            ),
        decreases groups@.len() - k,
    {
        let mut row_cells = build_group_cells(area, groups, k, cols, high, tops[k], scroll, sel_group, sel_in_group);
        let ghost was = out@;
        let ghost added = row_cells@;
        out.append(&mut row_cells);
        assert(out@ =~= was + added);
        k += 1;
    }
    out
}

fn build_group_cells(
    area: Rect,
    groups: &Vec<SessionGroup>,
    k: usize,
    cols: u16,
    high: u16,
    top: u16,
    scroll: u16,
    sel_group: usize,
    sel_in_group: usize,
) -> (r: Vec<Cell>)
    requires
        area.fits(),
        0 < cols,
        0 < high,
        k < groups@.len(),
        group_fits(groups@, k as int, cols as int, high as int),
        top == group_top(groups@, k as int, cols as int, high as int),
    ensures
        r@ == group_cells(
            groups@,
            k as int,
            groups@[k as int].sessions@.len() as int,
            cols as int,
            high as int,
            area,
            scroll as int,
            (sel_group as int, sel_in_group as int),
        ),
{
    let mut out: Vec<Cell> = Vec::new();
    let c: usize = cols as usize;
    let wide: u16 = area.width / cols;
    let n: usize = groups[k].sessions.len();
    let mut i: usize = 0;
    while i < n
        invariant
            area.fits(),
            0 < cols,
            0 < high,
            c == cols,
            wide == area.width / cols,
            k < groups@.len(),
            n == groups@[k as int].sessions@.len(),
            i <= n,
            group_fits(groups@, k as int, cols as int, high as int),
            top == group_top(groups@, k as int, cols as int, high as int),
            out@ == group_cells(
                groups@,
                k as int,
                i as int,
                cols as int,
                high as int,
                area,
                scroll as int,
                (sel_group as int, sel_in_group as int),
            ),
        decreases n - i,
    {
        let col: u16 = (i % c) as u16;
        let row: usize = i / c;
        proof {
            lemma_card_in_group(groups@, k as int, i as int, cols as int, high as int);
            lemma_group_tops(groups@, k as int, cols as int, high as int);
            lemma_columns(area.width as int, cols as int, i as int % cols as int);
            assert(row <= row * high) by (nonlinear_arith)
                requires
                    0 <= row,
                    1 <= high,
            ;
        }
        let y: u16 = top + GROUP_HEADER_HEIGHT + row as u16 * high;
        if y >= scroll && high <= area.height && y - scroll <= area.height - high {
            let x: u16 = col * wide;
            let w: u16 = if col == cols - 1 {
                area.width - x
            } else {
                wide
            };
            let rect = Rect { x: area.x + x, y: area.y + (y - scroll), width: w, height: high };
            out.push(
                Cell { group: k, index: i, rect, selected: k == sel_group && i == sel_in_group },
            );
        }
        i += 1;
    }
    out
}

// ---------------------------------------------------------------------------
// What the grid tells
// ---------------------------------------------------------------------------

/// The header of a group: its name, how many sessions it has, how many of them wait for
/// the user where any does, and where they run.
pub proof fn group_headers_tell_the_counts(g: SessionGroup)
    ensures
        line_text(group_header(g)) == (" 󰉋 "@ + g.name@ + " "@) + (" "@ + dec(g.sessions@.len()) + " sessions"@) + (
        if attention(g.sessions@) > 0 {
            "  󰂞 "@ + dec(attention(g.sessions@) as nat)
        } else {
            Seq::empty()
        }) + ("  "@ + g.cwd@),
{
    broadcast use {crate::style::joined_line_text, crate::style::span_line_text, crate::style::blank_line_text};

}

/// One more session waits for the user where it does.
pub proof fn one_more_waits(sessions: Seq<SessionInfo>, s: SessionInfo)
    ensures
        attention(Seq::empty()) == 0,
        attention(sessions.push(s)) == attention(sessions) + if s.needs_attention {
            1int
        } else {
            0int
        },
{
    assert(sessions.push(s).drop_last() =~= sessions);
}

/// Cards fill a row before the next one begins: of the cards of a group, the first `cols`
/// stand below the header and every other one right below the card `cols` before it.
pub proof fn cards_stand_in_rows(groups: Seq<SessionGroup>, k: int, i: int, cols: int, high: int)
    requires
        0 < cols,
        0 <= i,
    ensures
        i < cols ==> card_top(groups, k, i, cols, high) == group_top(groups, k, cols, high) + 1,
        card_top(groups, k, i + cols, cols, high) == card_top(groups, k, i, cols, high) + high,
{
    assert((i + cols) / cols == i / cols + 1) by (nonlinear_arith)
        requires
            cols > 0,
            i >= 0,
    ;
    if i < cols {
        assert(i / cols == 0) by (nonlinear_arith)
            requires
                0 <= i < cols,
        ;
        assert(0 * high == 0);
    }
    assert((i / cols + 1) * high == (i / cols) * high + high) by (nonlinear_arith);
}

/// A group begins two rows below the last row of the cards above it: one is empty and
/// belongs to the group above.
pub proof fn groups_follow_each_other(groups: Seq<SessionGroup>, k: int, cols: int, high: int)
    requires
        0 < cols,
        0 <= k < groups.len(),
        groups[k].sessions@.len() > 0,
        0 < high,
        group_top(groups, k + 1, cols, high) < 0xffff,
    ensures
        group_top(groups, 0, cols, high) == 0,
        group_top(groups, k + 1, cols, high) == card_top(groups, k, groups[k].sessions@.len() - 1, cols, high) + high
            + 1,
{
    let n = groups[k].sessions@.len() as int;
    assert((n - 1) / cols + 1 == card_rows(n, cols)) by {
        assert(n % cols == 0 ==> (n - 1) / cols + 1 == n / cols) by (nonlinear_arith)
            requires
                n > 0,
                cols > 0,
        ;
        assert(n % cols != 0 ==> (n - 1) / cols == n / cols) by (nonlinear_arith)
            requires
                n > 0,
                cols > 0,
        ;
    }
    let q = (n - 1) / cols;
    assert((q + 1) * high == q * high + high) by (nonlinear_arith);
}

/// A card stands in the column of its number, as wide as the others but for what the last
/// of a row takes up of the width that is left.
pub proof fn cells_stand_in_columns(
    groups: Seq<SessionGroup>,
    k: int,
    i: int,
    cols: int,
    high: int,
    area: Rect,
    scroll: int,
    sel: (int, int),
)
    requires
        0 < cols <= area.width,
        0 <= i,
        0 <= k <= usize::MAX && i <= usize::MAX,
        area.x + area.width <= 0xffff,
        cell(groups, k, i, cols, high, area, scroll, sel) is Some,
    ensures
        ({
            let c = cell(groups, k, i, cols, high, area, scroll, sel)->Some_0;
            let wide = area.width as int / cols;
            &&& c.group == k && c.index == i
            &&& c.rect.x == area.x + (i % cols) * wide
            &&& i % cols == 0 ==> c.rect.x == area.x
            &&& i % cols != cols - 1 ==> c.rect.width == wide
            &&& i % cols == cols - 1 ==> c.rect.x + c.rect.width == area.x + area.width
            &&& c.selected <==> (k, i) == sel
        }),
{
    let wide = area.width as int / cols;
    let col = i % cols;
    assert(0 <= col < cols) by (nonlinear_arith)
        requires
            col == i % cols,
            cols > 0,
    ;
    assert(0 <= col * wide <= area.width) by (nonlinear_arith)
        requires
            0 <= col < cols,
            wide == area.width as int / cols,
            cols > 0,
    ;
    assert(0 <= wide <= area.width) by (nonlinear_arith)
        requires
            wide == area.width as int / cols,
            cols > 0,
    ;
    if col == 0 {
        assert(0 * wide == 0);
    }
}

} // verus!
