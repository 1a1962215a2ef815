//! The folder pickers: bookmarks, directories, and known places narrowed by a
//! filter.

use crate::geometry::{centered_fixed, inner_of, inside, Rect};
use crate::dialogs::{boxed, typed};
use crate::palette::{accent_blue, dim_text, rgb};
use crate::style::{bg, fg, lemma_one_span, line_text, ln, no_lines, plain, sp, Color, Line, Lines, SpanView, Style};
use crate::text::{at_most, cat2, cat4, chars_of, dec, minus, slice_of, text_count};
use vstd::prelude::*;

verus! {

broadcast use vstd::string::group_string_axioms;

// ---------------------------------------------------------------------------
// Highlighting
// ---------------------------------------------------------------------------

/// The character at index `i` is to be highlighted.
pub open spec fn marked(indices: Seq<usize>, i: int) -> bool {
    exists|k: int| 0 <= k < indices.len() && #[trigger] indices[k] == i
}

/// Where the run of characters that begins at `from` ends, seen from `i`: at
/// the next character that is highlighted where the run is not, or the other
/// way round.
pub open spec fn run_end(indices: Seq<usize>, len: int, from: int, i: int) -> int
    decreases len - i,
{
    if i >= len || marked(indices, i) != marked(indices, from) {
        i
    } else {
        run_end(indices, len, from, i + 1)
    }
}

/// The runs of `text` from `i` on, each a span.
pub open spec fn runs(text: Seq<char>, indices: Seq<usize>, base: Style, hl: Style, i: int) -> Seq<SpanView>
    decreases text.len() - i,
    via runs_decreases
{
    if i >= text.len() {
        Seq::empty()
    } else {
        let e = run_end(indices, text.len() as int, i, i + 1);
        ln(
            text.subrange(i, e),
            if marked(indices, i) {
                hl
            } else {
                base
            },
        ) + runs(text, indices, base, hl, e)
    }
}

#[via_fn]
proof fn runs_decreases(text: Seq<char>, indices: Seq<usize>, base: Style, hl: Style, i: int) {
    if i < text.len() {
        lemma_run_end(indices, text.len() as int, i, i + 1);
    }
}

proof fn lemma_run_end(indices: Seq<usize>, len: int, from: int, i: int)
    requires
        i <= len,
    ensures
        i <= run_end(indices, len, from, i) <= len,
    decreases len - i,
{
    if i < len && marked(indices, i) == marked(indices, from) {
        lemma_run_end(indices, len, from, i + 1);
    }
}

/// `text` with the characters at `indices` highlighted: a single span where
/// there are none.
pub open spec fn highlighted(text: Seq<char>, indices: Seq<usize>, base: Style, hl: Style) -> Seq<SpanView> {
    if indices.len() == 0 {
        ln(text, base)
    } else {
        runs(text, indices, base, hl, 0)
    }
}

fn is_marked(indices: &Vec<usize>, i: usize) -> (r: bool)
    ensures
        r == marked(indices@, i as int),
{
    let mut k: usize = 0;
    while k < indices.len()
        invariant
            k <= indices@.len(),
            forall|j: int| 0 <= j < k ==> indices@[j] != i,
        decreases indices@.len() - k,
    {
        if indices[k] == i {
            assert(indices@[k as int] == i);
            return true;
        }
        k += 1;
    }
    false
}

/// Splits `text` into spans, with `hl` on the characters at `indices` and
/// `base` on the others.
pub fn highlight_spans(text: &str, indices: &Vec<usize>, base: Style, hl: Style) -> (r: Line)
    ensures
        r@ == highlighted(text@, indices@, base, hl),
{
    if indices.len() == 0 {
        return Line::of(text, base);
    }
    let v = chars_of(text);
    let n: usize = v.len();
    let mut out = Line::empty();
    let mut i: usize = 0;
    let ghost all = runs(text@, indices@, base, hl, 0);
    assert(out@ + all =~= all);
    while i < n
        invariant
            i <= n,
            n == v@.len(),
            v@ == text@,
            all == runs(text@, indices@, base, hl, 0),
            out@ + runs(text@, indices@, base, hl, i as int) == all,
        decreases n - i,
    {
        let is_hl = is_marked(indices, i);
        let mut e: usize = i + 1;
        let ghost end = run_end(indices@, n as int, i as int, i + 1);
        while e < n && is_marked(indices, e) == is_hl
            invariant
                i < e <= n,
                n == v@.len(),
                is_hl == marked(indices@, i as int),
                end == run_end(indices@, n as int, i as int, i + 1),
                run_end(indices@, n as int, i as int, e as int) == end,
            decreases n - e,
        {
            e += 1;
        }
        let style = if is_hl {
            hl
        } else {
            base
        };
        let ghost before = out@;
        out.put(&slice_of(&v, i, e), style);
        assert(before + runs(text@, indices@, base, hl, i as int) =~= out@ + runs(
            text@,
            indices@,
            base,
            hl,
            e as int,
        ));
        i = e;
    }
    assert(out@ + runs(text@, indices@, base, hl, i as int) =~= out@);
    out
}

proof fn lemma_runs_text(text: Seq<char>, indices: Seq<usize>, base: Style, hl: Style, i: int)
    requires
        0 <= i <= text.len(),
    ensures
        line_text(runs(text, indices, base, hl, i)) == text.skip(i),
    decreases text.len() - i,
{
    if i < text.len() {
        let e = run_end(indices, text.len() as int, i, i + 1);
        lemma_run_end(indices, text.len() as int, i, i + 1);
        lemma_runs_text(text, indices, base, hl, e);
        let head = ln(
            text.subrange(i, e),
            if marked(indices, i) {
                hl
            } else {
                base
            },
        );
        crate::style::lemma_line_text_join(head, runs(text, indices, base, hl, e));
        lemma_one_span(head[0]);
        assert(text.subrange(i, e) + text.skip(e) =~= text.skip(i));
    } else {
        assert(text.skip(i) =~= Seq::empty());
    }
}

/// Highlighting changes no character: the spans together say the text.
pub proof fn highlighting_keeps_text(text: Seq<char>, indices: Seq<usize>, base: Style, hl: Style)
    ensures
        line_text(highlighted(text, indices, base, hl)) == text,
{
    if indices.len() == 0 {
        lemma_one_span(sp(text, base));
    } else {
        lemma_runs_text(text, indices, base, hl, 0);
        assert(text.skip(0) =~= text);
    }
}

// ---------------------------------------------------------------------------
// The popup
// ---------------------------------------------------------------------------

/// What is inside the border: a header, and the list two rows below it.
#[derive(Debug)]
pub struct PickerContent {
    pub header_area: Rect,
    pub header: Line,
    /// What stands at the right end of the header.
    pub count: Line,
    pub list_area: Rect,
    pub list: Lines,
}

#[derive(Debug)]
pub struct PickerPopup {
    pub area: Rect,
    pub title: String,
    pub footer: String,
    pub inner: Rect,
    /// None where fewer than three rows are inside the border.
    pub content: Option<PickerContent>,
}

/// The first entry on the screen, so that the selected one is among the
/// `visible` that fit.
pub open spec fn first_shown(sel: int, visible: int) -> int {
    minus(sel, minus(visible, 1))
}

/// How many entries are on the screen.
pub open spec fn how_many(count: int, sel: int, visible: int) -> int {
    at_most(visible, minus(count, first_shown(sel, visible)))
}

/// The selected entry is on the screen.
pub proof fn picker_shows_selection(count: int, sel: int, visible: int)
    requires
        0 <= sel < count,
        1 <= visible,
    ensures
        first_shown(sel, visible) <= sel < first_shown(sel, visible) + how_many(count, sel, visible),
{
}

pub open spec fn header_row(inner: Rect) -> Rect {
    Rect { height: 1, ..inner }
}

pub open spec fn list_rows(inner: Rect) -> Rect {
    Rect { y: (inner.y + 2) as u16, height: (inner.height - 2) as u16, ..inner }
}

/// `p` fills the box in `area` with these texts.
pub open spec fn picker_shows(
    p: PickerPopup,
    area: Rect,
    title: Seq<char>,
    footer: Seq<char>,
    header: Seq<SpanView>,
    count: Seq<SpanView>,
    list: Seq<Seq<SpanView>>,
) -> bool {
    let inner = inside(boxed(area, 80, 24));
    &&& p.area == boxed(area, 80, 24)
    &&& p.title@ == title
    &&& p.footer@ == footer
    &&& p.inner == inner
    &&& match p.content {
        Some(c) => {
            &&& inner.height >= 3
            &&& c.header_area == header_row(inner)
            &&& c.header@ == header
            &&& c.count@ == count
            &&& c.list_area == list_rows(inner)
            &&& c.list@ == list
        },
        None => inner.height < 3,
    }
}

/// The entries that a picker has room for.
pub open spec fn room(area: Rect) -> int {
    inside(boxed(area, 80, 24)).height - 2
}

fn start_of(sel: usize, visible: usize) -> (r: usize)
    ensures
        r == first_shown(sel as int, visible as int),
{
    sel.saturating_sub(visible.saturating_sub(1))
}

fn shown_of(count: usize, start: usize, visible: usize) -> (r: usize)
    ensures
        r == at_most(visible as int, minus(count as int, start as int)),
{
    let left: usize = count.saturating_sub(start);
    if visible < left {
        visible
    } else {
        left
    }
}

// ---------------------------------------------------------------------------
// Folders
// ---------------------------------------------------------------------------

/// A directory of the list, and whether it is a bookmark.
#[derive(Debug)]
pub struct FolderEntry {
    pub name: String,
    pub bookmarked: bool,
}

/// The picker while it lists bookmarks or the directories below another.
#[derive(Debug)]
pub struct FolderList {
    pub bookmarks: bool,
    pub current_dir: String,
    pub entries: Vec<FolderEntry>,
    pub selection: usize,
}

pub open spec fn folder_title(bookmarks: bool, assigning: bool) -> Seq<char> {
    if bookmarks {
        " New session · bookmarks "@
    } else if assigning {
        " Assign task · pick folder "@
    } else {
        " New session · pick folder "@
    }
}

pub open spec fn folder_footer(bookmarks: bool, assigning: bool) -> Seq<char> {
    if bookmarks {
        " j/k:move · enter/space:pick · m:unbookmark · esc:cancel "@
    } else if assigning {
        " enter:descend · bksp:parent · space/.:pick · tab:projects · esc:cancel "@
    } else {
        " enter:descend · bksp:parent · space:pick · .:pick cwd · m:bookmark · c/C:gh new · esc:cancel "@
    }
}

pub open spec fn no_folders(bookmarks: bool) -> Seq<char> {
    if bookmarks {
        "  (no bookmarks — press N to browse, then m on a folder)"@
    } else {
        "  (no subdirectories)"@
    }
}

pub open spec fn folder_header(f: FolderList) -> Seq<SpanView> {
    if f.bookmarks {
        ln(" ★ "@, fg(Color::Yellow)) + ln(
            dec(f.entries@.len()) + " bookmark(s)"@,
            fg(Color::White).bold(),
        )
    } else {
        ln(" 󰉋 "@, fg(Color::Cyan)) + ln(f.current_dir@, fg(Color::White).bold())
    }
}

/// A directory of the list. While directories are listed, those that are
/// bookmarks carry a star.
pub open spec fn folder_line(e: FolderEntry, selected: bool, bookmarks: bool) -> Seq<SpanView> {
    let style = if selected {
        fg(Color::Black).on(Color::White).bold()
    } else {
        fg(rgb(200, 200, 210))
    };
    ln(
        if selected {
            "▶ "@
        } else {
            "  "@
        },
        style,
    ) + (if !bookmarks && e.bookmarked {
        ln("★ "@, fg(Color::Yellow).bold())
    } else {
        ln(""@, plain())
    }) + ln(
        if bookmarks {
            e.name@
        } else {
            e.name@ + "/"@
        },
        style,
    )
}

/// The directories on the screen.
pub open spec fn folder_rows(f: FolderList, visible: int) -> Seq<Seq<SpanView>> {
    if f.entries@.len() == 0 {
        seq![ln(no_folders(f.bookmarks), fg(Color::DarkGray))]
    } else {
        Seq::new(
            how_many(f.entries@.len() as int, f.selection as int, visible) as nat,
            |k: int| shown_folder(f, first_shown(f.selection as int, visible) + k),
        )
    }
}

pub open spec fn shown_folder(f: FolderList, i: int) -> Seq<SpanView> {
    folder_line(f.entries@[i], i == f.selection, f.bookmarks)
}

fn build_folder(e: &FolderEntry, selected: bool, bookmarks: bool) -> (r: Line)
    ensures
        r@ == folder_line(*e, selected, bookmarks),
{
    let (mark, style) = if selected {
        ("▶ ", fg(Color::Black).on(Color::White).bold())
    } else {
        ("  ", fg(rgb(200, 200, 210)))
    };
    let star = if !bookmarks && e.bookmarked {
        Line::of("★ ", fg(Color::Yellow).bold())
    } else {
        Line::of("", plain())
    };
    let mut l = Line::of(mark, style);
    l.join(star);
    if bookmarks {
        l.put(&e.name, style);
    } else {
        l.put(&cat2(&e.name, "/"), style);
    }
    l
}

fn build_folders(f: &FolderList, visible: usize) -> (r: Lines)
    ensures
        r@ == folder_rows(*f, visible as int),
{
    if f.entries.len() == 0 {
        let none = if f.bookmarks {
            "  (no bookmarks — press N to browse, then m on a folder)"
        } else {
            "  (no subdirectories)"
        };
        return Lines::of(Line::of(none, fg(Color::DarkGray)));
    }
    let start: usize = start_of(f.selection, visible);
    let n: usize = shown_of(f.entries.len(), start, visible);
    let ghost rows = folder_rows(*f, visible as int);
    let mut out = Lines::none();
    let mut k: usize = 0;
    assert(out@ =~= rows.take(0));
    while k < n
        invariant
            k <= n,
            n == rows.len(),
            n > 0 ==> start + n <= f.entries@.len(),
            start == first_shown(f.selection as int, visible as int),
            rows == folder_rows(*f, visible as int),
            f.entries@.len() > 0,
            out@ == rows.take(k as int),
        decreases n - k,
    {
        let i: usize = start + k;
        out.put(build_folder(&f.entries[i], i == f.selection, f.bookmarks));
        assert(rows[k as int] == shown_folder(*f, i as int));
        k += 1;
        assert(out@ =~= rows.take(k as int));
    }
    assert(rows.take(k as int) =~= rows);
    out
}

/// Lays out the picker while it lists bookmarks or directories.
pub fn render_folder_picker(area: Rect, f: &FolderList, assigning: bool) -> (r: PickerPopup)
    requires
        area.fits(),
    ensures
        picker_shows(
            r,
            area,
            folder_title(f.bookmarks, assigning),
            folder_footer(f.bookmarks, assigning),
            folder_header(*f),
            no_count(),
            folder_rows(*f, room(area)),
        ),
{
    let popup = centered_fixed(area, 80, 24);
    let (title, footer) = if f.bookmarks {
        (" New session · bookmarks ", " j/k:move · enter/space:pick · m:unbookmark · esc:cancel ")
    } else if assigning {
        (
            " Assign task · pick folder ",
            " enter:descend · bksp:parent · space/.:pick · tab:projects · esc:cancel ",
        )
    } else {
        (
            " New session · pick folder ",
            " enter:descend · bksp:parent · space:pick · .:pick cwd · m:bookmark · c/C:gh new · esc:cancel ",
        )
    };
    let inner = inner_of(popup);
    let content = if inner.height < 3 {
        None
    } else {
        let header = if f.bookmarks {
            let mut l = Line::of(" ★ ", fg(Color::Yellow));
            l.put(&cat2(&text_count(f.entries.len()), " bookmark(s)"), fg(Color::White).bold());
            l
        } else {
            let mut l = Line::of(" 󰉋 ", fg(Color::Cyan));
            l.put(&f.current_dir, fg(Color::White).bold());
            l
        };
        let rows: u16 = inner.height - 2;
        Some(
            PickerContent {
                header_area: Rect { x: inner.x, y: inner.y, width: inner.width, height: 1 },
                header,
                count: Line::empty(),
                list_area: Rect { x: inner.x, y: inner.y + 2, width: inner.width, height: rows },
                list: build_folders(f, rows as usize),
            },
        )
    };
    PickerPopup { area: popup, title: title.to_owned(), footer: footer.to_owned(), inner, content }
}

/// Nothing at the right end of the header.
pub open spec fn no_count() -> Seq<SpanView> {
    Seq::empty()
}

// ---------------------------------------------------------------------------
// Places
// ---------------------------------------------------------------------------

/// Where a place is known from.
#[derive(Clone, Copy, Debug, PartialEq, Eq, Structural)]
pub enum PlaceSource {
    Project,
    Bookmark,
    Recent,
}

#[derive(Debug)]
pub struct Place {
    pub name: String,
    pub display_path: String,
    pub source: PlaceSource,
}

/// A place that the filter lets through, and the characters that it matched.
#[derive(Debug)]
pub struct PlaceRow {
    pub place: usize,
    pub name_indices: Vec<usize>,
    pub path_indices: Vec<usize>,
}

/// The picker while it lists known places.
#[derive(Debug)]
pub struct PlaceList {
    pub filter: String,
    pub places: Vec<Place>,
    pub rows: Vec<PlaceRow>,
    pub selection: usize,
}

pub open spec fn places_title(assigning: bool) -> Seq<char> {
    if assigning {
        " Assign task · pick project "@
    } else {
        " New session · pick project "@
    }
}

pub open spec fn places_header(filter: Seq<char>) -> Seq<SpanView> {
    ln(" ❯ "@, fg(accent_blue()).bold()) + ln(typed(filter), fg(Color::White).bold())
}

/// How many of the places the filter lets through.
pub open spec fn places_count(rows: int, places: int) -> Seq<SpanView> {
    ln(dec(rows as nat) + "/"@ + dec(places as nat) + " "@, fg(dim_text()))
}

pub open spec fn place_badge(source: PlaceSource, bar: Style) -> Seq<SpanView> {
    match source {
        PlaceSource::Project => ln("◆ "@, bar.with(Color::Cyan)),
        PlaceSource::Bookmark => ln("★ "@, bar.with(Color::Yellow)),
        PlaceSource::Recent => ln("· "@, bar.with(Color::DarkGray)),
    }
}

/// A place of the list. The selected one is a solid bar, so every span of it
/// carries the bar's background.
pub open spec fn place_line(p: Place, r: PlaceRow, selected: bool) -> Seq<SpanView> {
    let bar = if selected {
        bg(Color::White)
    } else {
        plain()
    };
    ln(
        if selected {
            "▶ "@
        } else {
            "  "@
        },
        bar.with(Color::Black).bold(),
    ) + place_badge(p.source, bar) + (if selected {
        highlighted(
            p.name@,
            r.name_indices@,
            bar.with(Color::Black).bold(),
            bar.with(Color::Blue).bold(),
        )
    } else {
        highlighted(p.name@, r.name_indices@, fg(rgb(200, 200, 210)), fg(Color::Cyan).bold())
    }) + ln("  "@, bar) + (if selected {
        highlighted(
            p.display_path@,
            r.path_indices@,
            bar.with(rgb(90, 90, 100)),
            bar.with(Color::Blue),
        )
    } else {
        highlighted(p.display_path@, r.path_indices@, fg(Color::DarkGray), fg(Color::Cyan))
    })
}

/// The rows of the first `n` places from `start` on. A row whose place is
/// gone is left out.
pub open spec fn place_lines(l: PlaceList, start: int, n: int) -> Seq<Seq<SpanView>>
    decreases n,
{
    if n <= 0 {
        no_lines()
    } else {
        let row = l.rows@[start + n - 1];
        place_lines(l, start, n - 1) + if row.place < l.places@.len() {
            seq![place_line(l.places@[row.place as int], row, start + n - 1 == l.selection)]
        } else {
            no_lines()
        }
    }
}

/// The places on the screen.
pub open spec fn place_rows(l: PlaceList, visible: int) -> Seq<Seq<SpanView>> {
    if l.rows@.len() == 0 {
        seq![ln("  (no matches — backspace to widen, tab to browse)"@, fg(Color::DarkGray))]
    } else {
        place_lines(
            l,
            first_shown(l.selection as int, visible),
            how_many(l.rows@.len() as int, l.selection as int, visible),
        )
    }
}

fn build_place(p: &Place, r: &PlaceRow, selected: bool) -> (l: Line)
    ensures
        l@ == place_line(*p, *r, selected),
{
    let bar = if selected {
        bg(Color::White)
    } else {
        plain()
    };
    let mark = if selected {
        "▶ "
    } else {
        "  "
    };
    let mut l = Line::of(mark, bar.with(Color::Black).bold());
    let badge = match p.source {
        PlaceSource::Project => Line::of("◆ ", bar.with(Color::Cyan)),
        PlaceSource::Bookmark => Line::of("★ ", bar.with(Color::Yellow)),
        PlaceSource::Recent => Line::of("· ", bar.with(Color::DarkGray)),
    };
    l.join(badge);
    let (name_base, name_hl, path_base, path_hl) = if selected {
        (
            bar.with(Color::Black).bold(),
            bar.with(Color::Blue).bold(),
            bar.with(rgb(90, 90, 100)),
            bar.with(Color::Blue),
        )
    } else {
        (fg(rgb(200, 200, 210)), fg(Color::Cyan).bold(), fg(Color::DarkGray), fg(Color::Cyan))
    };
    l.join(highlight_spans(&p.name, &r.name_indices, name_base, name_hl));
    l.put("  ", bar);
    l.join(highlight_spans(&p.display_path, &r.path_indices, path_base, path_hl));
    l
}

fn build_places(l: &PlaceList, visible: usize) -> (r: Lines)
    ensures
        r@ == place_rows(*l, visible as int),
{
    if l.rows.len() == 0 {
        return Lines::of(
            Line::of("  (no matches — backspace to widen, tab to browse)", fg(Color::DarkGray)),
        );
    }
    let start: usize = start_of(l.selection, visible);
    let count: usize = l.rows.len();
    let n: usize = shown_of(count, start, visible);
    let mut out = Lines::none();
    let mut k: usize = 0;
    while k < n
        invariant
            k <= n,
            count == l.rows@.len(),
            n > 0 ==> start + n <= count,
            out@ == place_lines(*l, start as int, k as int),
        decreases n - k,
    {
        let i: usize = start + k;
        let row = &l.rows[i];
        let line = if row.place < l.places.len() {
            Lines::of(build_place(&l.places[row.place], row, i == l.selection))
        } else {
            Lines::none()
        };
        out.join(line);
        k += 1;
    }
    out
}

/// Lays out the picker while it lists known places.
pub fn render_places_picker(area: Rect, l: &PlaceList, assigning: bool) -> (r: PickerPopup)
    requires
        area.fits(),
    ensures
        picker_shows(
            r,
            area,
            places_title(assigning),
            " type:filter · ↑/↓:move · enter/space:pick · tab:browse · esc:cancel "@,
            places_header(l.filter@),
            places_count(l.rows@.len() as int, l.places@.len() as int),
            place_rows(*l, room(area)),
        ),
{
    let popup = centered_fixed(area, 80, 24);
    let title = if assigning {
        " Assign task · pick project "
    } else {
        " New session · pick project "
    };
    let footer = " type:filter · ↑/↓:move · enter/space:pick · tab:browse · esc:cancel ";
    let inner = inner_of(popup);
    let content = if inner.height < 3 {
        None
    } else {
        let mut header = Line::of(" ❯ ", fg(accent_blue()).bold());
        header.put(&cat2(&l.filter, "▎"), fg(Color::White).bold());
        let count = Line::of(
            &cat4(&text_count(l.rows.len()), "/", &text_count(l.places.len()), " "),
            fg(dim_text()),
        );
        let rows: u16 = inner.height - 2;
        Some(
            PickerContent {
                header_area: Rect { x: inner.x, y: inner.y, width: inner.width, height: 1 },
                header,
                count,
                list_area: Rect { x: inner.x, y: inner.y + 2, width: inner.width, height: rows },
                list: build_places(l, rows as usize),
            },
        )
    };
    PickerPopup { area: popup, title: title.to_owned(), footer: footer.to_owned(), inner, content }
}

// ---------------------------------------------------------------------------
// What the pickers tell
// ---------------------------------------------------------------------------

proof fn lemma_run_is_alike(indices: Seq<usize>, len: int, from: int, i: int)
    requires
        from < i <= len,
        forall|p: int| from <= p < i ==> marked(indices, p) == marked(indices, from),
    ensures
        forall|p: int| from <= p < run_end(indices, len, from, i) ==> marked(indices, p) == marked(indices, from),
    decreases len - i,
{
    if i < len && marked(indices, i) == marked(indices, from) {
        lemma_run_is_alike(indices, len, from, i + 1);
    }
}

proof fn lemma_runs_are_marked(text: Seq<char>, indices: Seq<usize>, base: Style, hl: Style, i: int, k: int, j: int)
    requires
        0 <= i,
        0 <= k < runs(text, indices, base, hl, i).len(),
        0 <= j < runs(text, indices, base, hl, i)[k].text.len(),
    ensures
        ({
            let all = runs(text, indices, base, hl, i);
            let p = i + line_text(all.take(k)).len() + j;
            &&& p < text.len()
            &&& all[k].text[j] == text[p]
            &&& all[k].style == if marked(indices, p) {
                hl
            } else {
                base
            }
        }),
    decreases text.len() - i,
{
    let all = runs(text, indices, base, hl, i);
    let len = text.len() as int;
    assert(i < len);
    let e = run_end(indices, len, i, i + 1);
    lemma_run_end(indices, len, i, i + 1);
    lemma_run_is_alike(indices, len, i, i + 1);
    let first = ln(
        text.subrange(i, e),
        if marked(indices, i) {
            hl
        } else {
            base
        },
    );
    let rest = runs(text, indices, base, hl, e);
    assert(all == first + rest);
    if k == 0 {
        assert(all.take(0) =~= Seq::<SpanView>::empty());
        assert(all[0] == first[0]);
    } else {
        assert(all[k] == rest[k - 1]);
        lemma_runs_are_marked(text, indices, base, hl, e, k - 1, j);
        assert(all.take(k) =~= first + rest.take(k - 1));
        crate::style::lemma_line_text_join(first, rest.take(k - 1));
        lemma_one_span(first[0]);
    }
}

/// Exactly the characters at the indices are highlighted: character `j` of span `k` stands
/// behind those of the spans before it, and has the style of its own index.
pub proof fn highlighting_marks_the_indices(
    text: Seq<char>,
    indices: Seq<usize>,
    base: Style,
    hl: Style,
    k: int,
    j: int,
)
    requires
        0 <= k < highlighted(text, indices, base, hl).len(),
        0 <= j < highlighted(text, indices, base, hl)[k].text.len(),
    ensures
        ({
            let all = highlighted(text, indices, base, hl);
            let p = line_text(all.take(k)).len() + j;
            &&& p < text.len()
            &&& all[k].text[j] == text[p]
            &&& all[k].style == if exists|x: int| 0 <= x < indices.len() && #[trigger] indices[x] == p {
                hl
            } else {
                base
            }
        }),
{
    if indices.len() > 0 {
        lemma_runs_are_marked(text, indices, base, hl, 0, k, j);
    } else {
        let all = highlighted(text, indices, base, hl);
        assert(all.take(0) =~= Seq::<SpanView>::empty());
    }
}

/// The list of directories shows those that fit, in their order and the selected one among
/// them, which alone has an arrow. A directory ends in a slash and carries a star where it
/// is a bookmark; in the list of bookmarks it does neither.
pub proof fn folders_are_listed(f: FolderList, visible: int, k: int)
    requires
        0 <= f.selection < f.entries@.len(),
        1 <= visible,
        0 <= k < folder_rows(f, visible).len(),
    ensures
        ({
            let rows = folder_rows(f, visible);
            let top: int = if f.selection < visible {
                0
            } else {
                f.selection + 1 - visible
            };
            let e = f.entries@[top + k];
            &&& top <= f.selection < top + rows.len() <= f.entries@.len()
            &&& rows.len() == visible || top + rows.len() == f.entries@.len()
            &&& line_text(rows[k]) == (if top + k == f.selection {
                "▶ "@
            } else {
                "  "@
            }) + (if !f.bookmarks && e.bookmarked {
                "★ "@
            } else {
                ""@
            }) + (if f.bookmarks {
                e.name@
            } else {
                e.name@ + "/"@
            })
        }),
{
    broadcast use {crate::style::joined_line_text, crate::style::span_line_text, crate::style::blank_line_text};

    let top = first_shown(f.selection as int, visible);
    assert(folder_rows(f, visible)[k] == shown_folder(f, top + k));
}

/// What the picker of directories says above the list, and in place of an empty one.
pub proof fn folder_pickers_name_their_place(f: FolderList, visible: int, assigning: bool)
    ensures
        line_text(folder_header(f)) == if f.bookmarks {
            " ★ "@ + (dec(f.entries@.len()) + " bookmark(s)"@)
        } else {
            " 󰉋 "@ + f.current_dir@
        },
        f.entries@.len() == 0 ==> line_text(folder_rows(f, visible)[0]) == if f.bookmarks {
            "  (no bookmarks — press N to browse, then m on a folder)"@
        } else {
            "  (no subdirectories)"@
        },
        folder_title(true, assigning) == " New session · bookmarks "@,
        folder_title(false, true) == " Assign task · pick folder "@,
        folder_title(false, false) == " New session · pick folder "@,
        places_title(true) == " Assign task · pick project "@,
        places_title(false) == " New session · pick project "@,
{
    broadcast use {crate::style::joined_line_text, crate::style::span_line_text, crate::style::blank_line_text};

}

proof fn lemma_place_lines(l: PlaceList, start: int, n: int, k: int)
    requires
        0 <= k < n,
        forall|i: int| start <= i < start + n ==> (#[trigger] l.rows@[i]).place < l.places@.len(),
    ensures
        place_lines(l, start, n).len() == n,
        place_lines(l, start, n)[k] == place_line(
            l.places@[l.rows@[start + k].place as int],
            l.rows@[start + k],
            start + k == l.selection,
        ),
    decreases n,
{
    reveal_with_fuel(place_lines, 2);
    assert(l.rows@[start + n - 1].place < l.places@.len());
    if n > 1 {
        lemma_place_lines(l, start, n - 1, if k < n - 1 {
            k
        } else {
            0
        });
    }
}

/// The list of places shows those that the filter lets through and that fit, in their order
/// and the selected one among them, which alone has an arrow: what kind of place it is, its
/// name and its path.
pub proof fn places_are_listed(l: PlaceList, visible: int, k: int)
    requires
        0 <= l.selection < l.rows@.len(),
        1 <= visible,
        forall|i: int| 0 <= i < l.rows@.len() ==> (#[trigger] l.rows@[i]).place < l.places@.len(),
        0 <= k < place_rows(l, visible).len(),
    ensures
        ({
            let rows = place_rows(l, visible);
            let top: int = if l.selection < visible {
                0
            } else {
                l.selection + 1 - visible
            };
            let p = l.places@[l.rows@[top + k].place as int];
            &&& top <= l.selection < top + rows.len() <= l.rows@.len()
            &&& rows.len() == visible || top + rows.len() == l.rows@.len()
            &&& line_text(rows[k]) == (if top + k == l.selection {
                "▶ "@
            } else {
                "  "@
            }) + (match p.source {
                PlaceSource::Project => "◆ "@,
                PlaceSource::Bookmark => "★ "@,
                PlaceSource::Recent => "· "@,
            }) + p.name@ + "  "@ + p.display_path@
        }),
{
    broadcast use {crate::style::joined_line_text, crate::style::span_line_text, crate::style::blank_line_text};

    let top = first_shown(l.selection as int, visible);
    let n = how_many(l.rows@.len() as int, l.selection as int, visible);
    lemma_place_lines(l, top, n, 0);
    lemma_place_lines(l, top, n, k);
    let r = l.rows@[top + k];
    let p = l.places@[r.place as int];
    let selected = top + k == l.selection;
    let bar = if selected {
        bg(Color::White)
    } else {
        plain()
    };
    highlighting_keeps_text(
        p.name@,
        r.name_indices@,
        bar.with(Color::Black).bold(),
        bar.with(Color::Blue).bold(),
    );
    highlighting_keeps_text(p.name@, r.name_indices@, fg(rgb(200, 200, 210)), fg(Color::Cyan).bold());
    highlighting_keeps_text(
        p.display_path@,
        r.path_indices@,
        bar.with(rgb(90, 90, 100)),
        bar.with(Color::Blue),
    );
    highlighting_keeps_text(p.display_path@, r.path_indices@, fg(Color::DarkGray), fg(Color::Cyan));
}

/// Above the places stand the filter, with a cursor behind it, and how many of how many
/// places it lets through.
pub proof fn filters_are_told(filter: Seq<char>, rows: int, places: int)
    requires
        0 <= rows <= places,
    ensures
        line_text(places_header(filter)) == " ❯ "@ + (filter + "▎"@),
        line_text(places_count(rows, places)) == dec(rows as nat) + "/"@ + dec(places as nat) + " "@,
{
    broadcast use {crate::style::joined_line_text, crate::style::span_line_text, crate::style::blank_line_text};

}

/// A picker has its header on the first row, and its list from the third row on to the last.
pub proof fn pickers_have_a_header(
    p: PickerPopup,
    area: Rect,
    title: Seq<char>,
    footer: Seq<char>,
    header: Seq<SpanView>,
    count: Seq<SpanView>,
    list: Seq<Seq<SpanView>>,
)
    requires
        picker_shows(p, area, title, footer, header, count, list),
        p.inner.y + p.inner.height <= 0xffff,
    ensures
        p.title@ == title && p.footer@ == footer,
        p.content matches Some(c) ==> {
            &&& c.header@ == header && c.count@ == count && c.list@ == list
            &&& c.header_area.y == p.inner.y && c.header_area.height == 1
            &&& c.list_area.y == p.inner.y + 2
            &&& c.list_area.y + c.list_area.height == p.inner.y + p.inner.height
            &&& c.list_area.width == p.inner.width && c.list_area.height == room(area)
        },
        p.content is None <==> p.inner.height < 3,
{
}

} // verus!
