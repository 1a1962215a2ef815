//! Rectangles on the terminal grid.

use crate::rounding::{keep, keep_bits};
use crate::text::{at_most, minus};
use ratatui::layout;
use vstd::prelude::*;

verus! {

/// A rectangle of cells: the column and row of its top left corner, and how
/// many columns and rows it spans.
#[derive(Clone, Copy, Debug, PartialEq, Eq, Structural)]
pub struct Rect {
    pub x: u16,
    pub y: u16,
    pub width: u16,
    pub height: u16,
}

impl Rect {
    /// Its right and bottom edges have coordinates.
    pub open spec fn fits(self) -> bool {
        &&& self.x + self.width <= 0xffff
        &&& self.y + self.height <= 0xffff
    }

    /// Every cell of it is a cell of `outer`.
    pub open spec fn within(self, outer: Rect) -> bool {
        &&& outer.x <= self.x
        &&& self.x + self.width <= outer.x + outer.width
        &&& outer.y <= self.y
        &&& self.y + self.height <= outer.y + outer.height
    }
}

/// A share of a length, as a multiple of 1/16777216.
#[derive(Clone, Copy, Debug, PartialEq, Eq, Structural)]
pub struct Share {
    pub parts: u32,
}

impl Share {
    pub open spec fn ok(self) -> bool {
        self.parts <= 0x100_0000
    }
}

/// 85 hundredths, in single precision.
#[verifier::allow_in_spec]
pub fn share_85() -> Share
    returns
        (Share { parts: 14260634 }),
{
    Share { parts: 14260634 }
}

/// 90 hundredths, in single precision.
#[verifier::allow_in_spec]
pub fn share_90() -> Share
    returns
        (Share { parts: 15099494 }),
{
    Share { parts: 15099494 }
}

/// 92 hundredths, in single precision.
#[verifier::allow_in_spec]
pub fn share_92() -> Share
    returns
        (Share { parts: 15435039 }),
{
    Share { parts: 15435039 }
}

/// The share of `len` cells, computed in single precision, its fraction cut
/// off.
pub open spec fn scaled(len: int, share: Share) -> int {
    keep((len * share.parts) as nat, 24) / 0x100_0000
}

/// The rectangle of `w` by `h` cells in the middle of `area`, one column or
/// row nearer to the top left where the margins cannot be equal.
pub open spec fn middle(area: Rect, w: int, h: int) -> Rect {
    Rect {
        x: (area.x + minus(area.width as int, w) / 2) as u16,
        y: (area.y + minus(area.height as int, h) / 2) as u16,
        width: w as u16,
        height: h as u16,
    }
}

proof fn lemma_scaled(len: int, share: Share)
    requires
        0 <= len <= 0xffff,
        share.ok(),
    ensures
        0 <= scaled(len, share) <= len,
{
    let n = len * share.parts;
    assert(0 <= n <= len * 0x100_0000) by (nonlinear_arith)
        requires
            0 <= len,
            n == len * share.parts,
            0 <= share.parts <= 0x100_0000,
    ;
    crate::rounding::lemma_keep_multiple(n as nat, len as nat);
}

fn scale(len: u16, share: Share) -> (r: u16)
    requires
        share.ok(),
    ensures
        r == scaled(len as int, share),
        r <= len,
{
    assert(0 <= len * share.parts <= 0xffff * 0x100_0000) by (nonlinear_arith)
        requires
            0 <= len <= 0xffff,
            0 <= share.parts <= 0x100_0000,
    ;
    let n: u128 = len as u128 * share.parts as u128;
    let k: u128 = keep_bits(n, 24);
    proof {
        lemma_scaled(len as int, share);
    }
    (k / 0x100_0000) as u16
}

/// A popup that takes a share of the area, in its middle.
pub fn centered_rect(area: Rect, ratio: Share) -> (r: Rect)
    requires
        area.fits(),
        ratio.ok(),
    ensures
        r == middle(area, scaled(area.width as int, ratio), scaled(area.height as int, ratio)),
        r.within(area),
{
    let w: u16 = scale(area.width, ratio);
    let h: u16 = scale(area.height, ratio);
    let x: u16 = area.x + (area.width - w) / 2;
    let y: u16 = area.y + (area.height - h) / 2;
    Rect { x, y, width: w, height: h }
}

/// A popup of a fixed size, cut to the area, in its middle.
pub fn centered_fixed(area: Rect, w: u16, h: u16) -> (r: Rect)
    requires
        area.fits(),
    ensures
        r == middle(
            area,
            at_most(w as int, area.width as int),
            at_most(h as int, area.height as int),
        ),
        r.within(area),
{
    let w: u16 = if w < area.width {
        w
    } else {
        area.width
    };
    let h: u16 = if h < area.height {
        h
    } else {
        area.height
    };
    let x: u16 = area.x + (area.width - w) / 2;
    let y: u16 = area.y + (area.height - h) / 2;
    Rect { x, y, width: w, height: h }
}

/// What a border on all four sides leaves of `area`.
pub open spec fn inside(area: Rect) -> Rect {
    Rect {
        x: at_most(area.x + 1, area.x + area.width) as u16,
        y: at_most(area.y + 1, area.y + area.height) as u16,
        width: minus(area.width as int, 2) as u16,
        height: minus(area.height as int, 2) as u16,
    }
}

/// What a border on all four sides and `pad` empty columns beside it leave of
/// `area`.
pub open spec fn inside_padded(area: Rect, pad: int) -> Rect {
    let inner = inside(area);
    Rect {
        x: at_most(inner.x + pad, 0xffff) as u16,
        width: minus(inner.width as int, at_most(2 * pad, 0xffff)) as u16,
        ..inner
    }
}

/// `ratatui::widgets::Block::inner` of a block with a border on all four
/// sides and some padding on the left and on the right: one column and one
/// row go on each side, as far as there are any, and then the padding.
#[verifier::external_body]
fn bordered_inner(area: Rect, pad: u16) -> (r: Rect)
    requires
        area.fits(),
    ensures
        r == inside_padded(area, pad as int),
{
    let block = ratatui::widgets::Block::default()
        .borders(ratatui::widgets::Borders::ALL)
        .padding(ratatui::widgets::Padding::horizontal(pad));
    let inner = block.inner(layout::Rect::new(area.x, area.y, area.width, area.height));
    Rect { x: inner.x, y: inner.y, width: inner.width, height: inner.height }
}

/// The part of `area` inside its border.
pub fn inner_of(area: Rect) -> (r: Rect)
    requires
        area.fits(),
    ensures
        r == inside(area),
        r.fits(),
        r.width >= 1 && r.height >= 1 ==> r.within(area),
{
    bordered_inner(area, 0)
}

/// The part of `area` inside its border and the padding beside it.
pub fn inner_padded(area: Rect, pad: u16) -> (r: Rect)
    requires
        area.fits(),
    ensures
        r == inside_padded(area, pad as int),
{
    bordered_inner(area, pad)
}

// ---------------------------------------------------------------------------
// Splitting
// ---------------------------------------------------------------------------

/// How much of an area a part of it asks for.
#[derive(Clone, Copy, Debug, PartialEq, Eq, Structural)]
pub enum Constraint {
    /// So many cells.
    Length(u16),
    /// At least so many cells.
    Min(u16),
    /// Such a fraction of the area.
    Ratio(u32, u32),
}

/// The rows of an area, or its columns.
pub open spec fn extent(area: Rect, vertical: bool) -> int {
    if vertical {
        area.height as int
    } else {
        area.width as int
    }
}

/// The part of `area` that begins `start` cells into it and has `size` cells.
pub open spec fn part(area: Rect, vertical: bool, start: int, size: int) -> Rect {
    if vertical {
        Rect { y: (area.y + start) as u16, height: size as u16, ..area }
    } else {
        Rect { x: (area.x + start) as u16, width: size as u16, ..area }
    }
}

/// The cells that the lengths among the first `k` parts ask for.
pub open spec fn asked(parts: Seq<Constraint>, k: int) -> int
    decreases k,
{
    if k <= 0 {
        0
    } else {
        asked(parts, k - 1) + match parts[k - 1] {
            Constraint::Length(n) => n as int,
            _ => 0,
        }
    }
}

/// Part `m` takes what there is, and all the others have a length.
pub open spec fn has_spare(parts: Seq<Constraint>, m: int) -> bool {
    &&& 0 <= m < parts.len()
    &&& parts[m] == Constraint::Min(0)
    &&& forall|i: int| 0 <= i < parts.len() && i != m ==> #[trigger] parts[i] is Length
}

/// Every part gets its length, and part `m` what they leave.
pub open spec fn bands(area: Rect, vertical: bool, parts: Seq<Constraint>, m: int) -> Seq<Rect> {
    let spare = extent(area, vertical) - asked(parts, parts.len() as int);
    Seq::new(
        parts.len(),
        |i: int|
            part(
                area,
                vertical,
                asked(parts, i) + if i > m {
                    spare
                } else {
                    0
                },
                match parts[i] {
                    Constraint::Length(n) => n as int,
                    _ => spare,
                },
            ),
    )
}

/// The numerators of the first `k` parts together.
pub open spec fn shares(parts: Seq<Constraint>, k: int) -> int
    decreases k,
{
    if k <= 0 {
        0
    } else {
        shares(parts, k - 1) + match parts[k - 1] {
            Constraint::Ratio(n, _) => n as int,
            _ => 0,
        }
    }
}

/// The parts are fractions of one denominator that fill the area.
pub open spec fn fills(parts: Seq<Constraint>, den: u32) -> bool {
    &&& 0 < den
    &&& forall|i: int|
        0 <= i < parts.len() ==> (#[trigger] parts[i] matches Constraint::Ratio(_, d) && d == den)
    &&& shares(parts, parts.len() as int) == den
}

/// `n / den` of `size` cells, to the nearest cell.
pub open spec fn edge(size: int, n: int, den: int) -> int {
    (2 * n * size + den) / (2 * den)
}

/// Every part ends as near to its fraction as cells allow.
pub open spec fn columns(area: Rect, vertical: bool, parts: Seq<Constraint>, den: u32) -> Seq<Rect> {
    let size = extent(area, vertical);
    Seq::new(
        parts.len(),
        |i: int|
            {
                let from = edge(size, shares(parts, i), den as int);
                let to = edge(size, shares(parts, i + 1), den as int);
                part(area, vertical, from, to - from)
            },
    )
}

/// The cells of the first `k` parts together.
pub open spec fn taken(rects: Seq<Rect>, vertical: bool, k: int) -> int
    decreases k,
{
    if k <= 0 {
        0
    } else {
        taken(rects, vertical, k - 1) + extent(rects[k - 1], vertical)
    }
}

/// The parts follow one another from the beginning of the area to its end.
pub open spec fn tiles(area: Rect, vertical: bool, rects: Seq<Rect>) -> bool {
    &&& forall|i: int|
        0 <= i < rects.len() ==> #[trigger] rects[i] == part(
            area,
            vertical,
            taken(rects, vertical, i),
            extent(rects[i], vertical),
        )
    &&& taken(rects, vertical, rects.len() as int) == extent(area, vertical)
}

/// Some lengths give way: part `m` is empty, no other has more than its length,
/// and they take the whole area.
pub open spec fn squeezed(area: Rect, vertical: bool, parts: Seq<Constraint>, m: int, rects: Seq<Rect>) -> bool {
    &&& tiles(area, vertical, rects)
    &&& extent(rects[m], vertical) == 0
    &&& forall|i: int|
        0 <= i < rects.len() ==> (#[trigger] parts[i] matches Constraint::Length(n) ==> extent(
            rects[i],
            vertical,
        ) <= n)
}

/// What the bands of a screen ask for: the title bar, the tab strip, the body
/// and the status bar.
pub open spec fn band_constraints() -> Seq<Constraint> {
    seq![Constraint::Length(1), Constraint::Length(3), Constraint::Min(0), Constraint::Length(1)]
}

/// The bands that so many cells are divided into: the last has its cell from
/// three on, the first from one on, and the second what is left, at most three.
pub open spec fn band_extents(size: int) -> (int, int, int, int) {
    let first = at_most(size, 1);
    let last = if size >= 3 {
        1int
    } else {
        0int
    };
    let second = at_most(size - first - last, 3);
    (first, second, size - first - second - last, last)
}

/// The bands of an area from its beginning to its end.
pub open spec fn four_bands(area: Rect, vertical: bool) -> Seq<Rect> {
    let (first, second, third, last) = band_extents(extent(area, vertical));
    seq![
        part(area, vertical, 0, first),
        part(area, vertical, first, second),
        part(area, vertical, first + second, third),
        part(area, vertical, first + second + third, last),
    ]
}

/// `ratatui::layout::Layout::split`: one rectangle for each constraint, none
/// of which leaves the area.
///
/// Lengths that fit are kept, and a part without one takes the rest. Where they
/// do not fit, that part is empty and the others share the area: a length weighs
/// far more than the wish of a part to grow, and far less than gaps or overlaps
/// between parts. Which of the lengths give way is settled by a slight wish of
/// neighbours to be of one size, which for the bands of a screen has one
/// solution, and is stated for those alone. Fractions that fill the area end on
/// the nearest cell. Solutions are rounded to hundredths of a cell first, which
/// keeps the solver's own rounding out of the result for fewer than a hundred
/// parts, and for denominators below a hundred.
#[verifier::external_body]
pub(crate) fn layout_split(area: Rect, vertical: bool, parts: &Vec<Constraint>) -> (r: Vec<Rect>)
    requires
        area.fits(),
    ensures
        r@.len() == parts@.len(),
        forall|i: int| 0 <= i < r@.len() ==> (#[trigger] r@[i]).within(area),
        forall|m: int|
            #[trigger] has_spare(parts@, m) && asked(parts@, parts@.len() as int) <= extent(
                area,
                vertical,
            ) ==> r@ == bands(area, vertical, parts@, m),
        forall|m: int|
            #[trigger] has_spare(parts@, m) && parts@.len() < 100 && asked(
                parts@,
                parts@.len() as int,
            ) > extent(area, vertical) ==> squeezed(area, vertical, parts@, m, r@),
        parts@ == band_constraints() && extent(area, vertical) < 5 ==> r@ == four_bands(area, vertical),
        forall|den: u32|
            den < 100 && #[trigger] fills(parts@, den) ==> r@ == columns(area, vertical, parts@, den),
{
    let to = |c: &Constraint| match c {
        Constraint::Length(n) => layout::Constraint::Length(*n),
        Constraint::Min(n) => layout::Constraint::Min(*n),
        Constraint::Ratio(n, d) => layout::Constraint::Ratio(*n, *d),
    };
    let back = |r: &layout::Rect| Rect { x: r.x, y: r.y, width: r.width, height: r.height };
    let direction = match vertical {
        true => layout::Direction::Vertical,
        false => layout::Direction::Horizontal,
    };
    let rects = layout::Layout::new(direction, parts.iter().map(to))
        .split(layout::Rect::new(area.x, area.y, area.width, area.height));
    rects.iter().map(back).collect()
}

/// The four bands of a screen: the title bar, the tab strip, the body and the
/// status bar. The body has rows from six rows on. Below five the tab strip
/// gives way, and below three the status bar too.
pub open spec fn main_bands(area: Rect) -> Seq<Rect> {
    four_bands(area, true)
}

/// Splits the screen into title bar, tab strip, body and status bar.
pub fn main_layout(area: Rect) -> (r: Vec<Rect>)
    requires
        area.fits(),
    ensures
        r@ == main_bands(area),
        forall|i: int| 0 <= i < 4 ==> (#[trigger] r@[i]).within(area),
{
    let mut parts: Vec<Constraint> = Vec::new();
    parts.push(Constraint::Length(1));
    parts.push(Constraint::Length(3));
    parts.push(Constraint::Min(0));
    parts.push(Constraint::Length(1));
    let r = layout_split(area, true, &parts);
    proof {
        reveal_with_fuel(asked, 5);
        assert(parts@ =~= band_constraints());
        assert(has_spare(parts@, 2));
        assert(r@ =~= main_bands(area));
    }
    r
}

/// The bands follow one another from the first row of the screen to the last,
/// and whatever its height the body takes rows only where the others have all
/// of theirs.
pub proof fn bands_tile_the_screen(area: Rect)
    requires
        area.fits(),
    ensures
        tiles(area, true, main_bands(area)),
        main_bands(area)[2].height > 0 ==> main_bands(area)[0].height == 1 && main_bands(area)[1].height == 3
            && main_bands(area)[3].height == 1,
{
    reveal_with_fuel(taken, 5);
}

/// What stands in the middle has equal margins, but for a column or a row that is left over
/// and goes to the right or below.
pub proof fn margins_are_equal(area: Rect, w: int, h: int)
    requires
        area.fits(),
        0 <= w <= area.width,
        0 <= h <= area.height,
    ensures
        ({
            let r = middle(area, w, h);
            let before = r.x - area.x;
            let behind = area.x + area.width - (r.x + r.width);
            let above = r.y - area.y;
            let below = area.y + area.height - (r.y + r.height);
            &&& r.width == w && r.height == h
            &&& 0 <= before <= behind <= before + 1
            &&& 0 <= above <= below <= above + 1
        }),
{
}

/// A border takes a column at either side and a row above and below.
pub proof fn borders_take_one_cell(area: Rect)
    requires
        area.fits(),
        area.width >= 2 && area.height >= 2,
    ensures
        inside(area).x == area.x + 1 && inside(area).y == area.y + 1,
        inside(area).width == area.width - 2 && inside(area).height == area.height - 2,
{
}

/// Bands of fixed lengths have them, and the one between them that may be empty takes what
/// they leave; each begins where the one before it ends.
pub proof fn bands_have_their_lengths(area: Rect, vertical: bool, parts: Seq<Constraint>, m: int, i: int)
    requires
        area.fits(),
        has_spare(parts, m),
        asked(parts, parts.len() as int) <= extent(area, vertical),
        0 <= i < parts.len(),
        0 <= asked(parts, i) <= asked(parts, i + 1) <= asked(parts, parts.len() as int),
    ensures
        ({
            let r = bands(area, vertical, parts, m);
            let start = |q: Rect|
                if vertical {
                    q.y as int
                } else {
                    q.x as int
                };
            &&& r.len() == parts.len()
            &&& parts[i] matches Constraint::Length(n) ==> extent(r[i], vertical) == n
            &&& i == m ==> extent(r[i], vertical) == extent(area, vertical) - asked(parts, parts.len() as int)
            &&& i == 0 ==> start(r[0]) == start(area)
            &&& i + 1 < parts.len() ==> start(r[i + 1]) == start(r[i]) + extent(r[i], vertical)
        }),
{
    reveal_with_fuel(asked, 2);
}

/// The share of a length is no more than the length.
pub proof fn scaled_fits(len: int, share: Share)
    requires
        0 <= len <= 0xffff,
        share.ok(),
    ensures
        0 <= scaled(len, share) <= len,
{
    lemma_scaled(len, share);
}

} // verus!
