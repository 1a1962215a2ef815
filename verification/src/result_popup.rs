//! The result popup of a task: its header and note, its artifacts as cards
//! with the lead artifact first, and its summary at the end.

use crate::artifacts::{
    artifact_card, artifact_preview_total_lines, basename, card_body_height, card_header, classify_artifact,
    evidence_card_header, excerpt_counts, excerpt_view, lead_card_body_height, preview_rows, CardKind,
};
use crate::geometry::{centered_rect, inner_of, inside, middle, scaled, share_85, Rect};
use crate::models::{filled, filled_of, or_empty, or_empty_of};
use crate::palette::{backlog_blue, faint_purple_gray, purple};
use crate::parts::{first_line, first_line_of, lines, lines_of, texts, trim, trimmed};
use crate::style::{blank, fg, line_text, ln, no_lines, plain, Color, Line, Lines, SpanView};
use crate::tasks::{shipped_version_span, version_span, Task, TaskStatus};
use crate::text::{
    at_least, at_most, cat2, cat3, cat4, cat5, dec, minus, plural, text_count, text_plural,
};
use vstd::prelude::*;

verus! {

broadcast use vstd::string::group_string_axioms;

#[verifier::allow_in_spec]
pub fn status_color(s: TaskStatus) -> Color
    returns
        (match s {
            TaskStatus::Planning => purple(),
            TaskStatus::Running => Color::LightYellow,
            TaskStatus::Review => Color::LightCyan,
            TaskStatus::Merging => Color::LightMagenta,
            TaskStatus::Done => Color::LightGreen,
            TaskStatus::Backlog => backlog_blue(),
        }),
{
    match s {
        TaskStatus::Planning => purple(),
        TaskStatus::Running => Color::LightYellow,
        TaskStatus::Review => Color::LightCyan,
        TaskStatus::Merging => Color::LightMagenta,
        TaskStatus::Done => Color::LightGreen,
        TaskStatus::Backlog => backlog_blue(),
    }
}

pub open spec fn popup_title(t: Task) -> Seq<char> {
    match filled(t.title) {
        Some(name) => " Result · "@ + t.short_id@ + " · "@ + name + " "@,
        None => " Result · "@ + t.short_id@ + " "@,
    }
}

fn build_title(t: &Task) -> (r: String)
    ensures
        r@ == popup_title(*t),
{
    match filled_of(&t.title) {
        Some(name) => cat5(" Result · ", &t.short_id, " · ", &name, " "),
        None => cat3(" Result · ", &t.short_id, " "),
    }
}

// ---------------------------------------------------------------------------
// Header and summary
// ---------------------------------------------------------------------------

/// The proof in one line: the first line of the note, or of the prompt where
/// there is no note.
pub open spec fn note_line(t: Task) -> Seq<char> {
    let note = trimmed(or_empty(t.note));
    if note.len() > 0 {
        first_line(note)
    } else {
        trimmed(first_line(t.prompt@))
    }
}

pub open spec fn status_row(t: Task) -> Seq<SpanView> {
    ln("["@ + t.status_label@ + "]"@, fg(status_color(t.status)).bold()) + ln("  "@, plain()) + ln(
        t.age@,
        fg(faint_purple_gray()),
    ) + (match filled(t.shipped_version) {
        Some(v) => ln("  "@, plain()) + version_span(v),
        None => blank(),
    }) + ln("  "@, plain()) + ln(
        "("@ + dec(t.artifacts@.len()) + " artifact"@ + plural(t.artifacts@.len() as int) + ")"@,
        fg(Color::Rgb(150, 130, 200)),
    )
}

/// Status, age and number of artifacts, then the note.
pub open spec fn header(t: Task) -> Seq<Seq<SpanView>> {
    seq![status_row(t)] + seq![blank()] + if note_line(t).len() > 0 {
        seq![ln(note_line(t), fg(Color::Rgb(220, 220, 230)).italic())] + seq![blank()]
    } else {
        no_lines()
    }
}

fn build_header(t: &Task) -> (r: Lines)
    ensures
        r@ == header(*t),
{
    let mut l = Line::of(&cat3("[", &t.status_label, "]"), fg(status_color(t.status)).bold());
    l.put("  ", plain());
    l.put(&t.age, fg(faint_purple_gray()));
    let version = match filled_of(&t.shipped_version) {
        Some(v) => {
            let mut m = Line::of("  ", plain());
            m.join(shipped_version_span(&v));
            m
        },
        None => Line::empty(),
    };
    l.join(version);
    l.put("  ", plain());
    let n: usize = t.artifacts.len();
    l.put(
        &cat5("(", &text_count(n), " artifact", &text_plural(n), ")"),
        fg(Color::Rgb(150, 130, 200)),
    );
    let mut lines = Lines::of(l);
    lines.put(Line::empty());
    let note = trim(&or_empty_of(&t.note));
    let said = if !note.as_str().is_empty() {
        first_line_of(&note)
    } else {
        trim(&first_line_of(&t.prompt))
    };
    let tail = if !said.as_str().is_empty() {
        let mut m = Lines::of(Line::of(&said, fg(Color::Rgb(220, 220, 230)).italic()));
        m.put(Line::empty());
        m
    } else {
        Lines::none()
    };
    lines.join(tail);
    lines
}

pub open spec fn summary_rows(text: Seq<Seq<char>>) -> Seq<Seq<SpanView>> {
    text.map_values(|s: Seq<char>| ln("  "@ + s, fg(faint_purple_gray())))
}

/// The summary, where there is one, under a heading.
pub open spec fn summary(t: Task) -> Seq<Seq<SpanView>> {
    let text = trimmed(or_empty(t.summary));
    if text.len() > 0 {
        seq![blank()] + seq![ln("summary"@, fg(Color::Rgb(120, 120, 140)))] + summary_rows(lines(text))
    } else {
        no_lines()
    }
}

fn build_summary(t: &Task) -> (r: Lines)
    ensures
        r@ == summary(*t),
{
    let text = trim(&or_empty_of(&t.summary));
    if text.as_str().is_empty() {
        return Lines::none();
    }
    let mut out = Lines::of(Line::empty());
    out.put(Line::of("summary", fg(Color::Rgb(120, 120, 140))));
    let said = lines_of(&text);
    let ghost head = out@;
    let ghost rows = summary_rows(texts(said@));
    let mut i: usize = 0;
    assert(out@ =~= head + rows.take(0));
    while i < said.len()
        invariant
            i <= said@.len(),
            rows == summary_rows(texts(said@)),
            out@ == head + rows.take(i as int),
        decreases said@.len() - i,
    {
        out.put(Line::of(&cat2("  ", &said[i]), fg(faint_purple_gray())));
        i += 1;
        assert(out@ =~= head + rows.take(i as int));
    }
    assert(rows.take(i as int) =~= rows);
    out
}

// ---------------------------------------------------------------------------
// Cards on the canvas
// ---------------------------------------------------------------------------

/// The lead artifact, where the task names one that it has.
pub open spec fn lead(t: Task) -> Option<int> {
    match t.lead_artifact {
        Some(i) => if i < t.artifacts@.len() {
            Some(i as int)
        } else {
            None
        },
        None => None,
    }
}

/// The artifact at place `k`: the lead one first, the others in their order.
pub open spec fn at_place(t: Task, k: int) -> int {
    match lead(t) {
        Some(i) => if k == 0 {
            i
        } else if k <= i {
            k - 1
        } else {
            k
        },
        None => k,
    }
}

/// The place of artifact `a`.
pub open spec fn place_of(t: Task, a: int) -> int {
    match lead(t) {
        Some(i) => if a == i {
            0
        } else if a < i {
            a + 1
        } else {
            a
        },
        None => a,
    }
}

/// Every artifact has one place, and every place one artifact; the lead
/// artifact has the first.
pub proof fn places_are_a_permutation(t: Task, k: int)
    requires
        0 <= k < t.artifacts@.len(),
    ensures
        0 <= at_place(t, k) < t.artifacts@.len(),
        0 <= place_of(t, k) < t.artifacts@.len(),
        at_place(t, place_of(t, k)) == k,
        place_of(t, at_place(t, k)) == k,
        lead(t) matches Some(i) ==> at_place(t, 0) == i,
{
}

/// The rows of the artifact's card below its header: more for the lead one,
/// and most of the screen for the selected one where it is expanded.
pub open spec fn card_height(t: Task, a: int, selected: int, expanded: bool, body_h: int) -> int {
    let kind = artifact_card(t.artifacts@[a]);
    let usual = if lead(t) == Some(a) {
        lead_card_body_height(kind) as int
    } else {
        card_body_height(kind) as int
    };
    if expanded && a == selected {
        at_least(at_most(minus(body_h, 6), 40), usual)
    } else {
        usual
    }
}

/// The row of the canvas on which the card at place `k` begins, where the
/// header takes `head` rows. A card has a header, its body and an empty row.
pub open spec fn card_top(t: Task, k: int, head: int, selected: int, expanded: bool, body_h: int) -> int
    decreases k,
{
    if k <= 0 {
        head
    } else {
        card_top(t, k - 1, head, selected, expanded, body_h) + 2 + card_height(
            t,
            at_place(t, k - 1),
            selected,
            expanded,
            body_h,
        )
    }
}

/// A card's rows on the canvas: its header, then empty rows that its body is
/// drawn over.
pub open spec fn card_lines(t: Task, a: int, selected: int, expanded: bool, body_h: int) -> Seq<
    Seq<SpanView>,
> {
    seq![
        card_header(
            t.artifacts@[a],
            basename(t.artifacts@[a].path@),
            a == selected,
            lead(t) == Some(a),
        ),
    ] + Seq::new(
        (card_height(t, a, selected, expanded, body_h) + 1) as nat,
        |i: int| blank(),
    )
}

pub open spec fn cards_lines(t: Task, k: int, selected: int, expanded: bool, body_h: int) -> Seq<
    Seq<SpanView>,
>
    decreases k,
{
    if k <= 0 {
        no_lines()
    } else {
        cards_lines(t, k - 1, selected, expanded, body_h) + card_lines(
            t,
            at_place(t, k - 1),
            selected,
            expanded,
            body_h,
        )
    }
}

/// The cards, or a line that says there are none.
pub open spec fn evidence(t: Task, selected: int, expanded: bool, body_h: int) -> Seq<Seq<SpanView>> {
    if t.artifacts@.len() == 0 {
        seq![ln("  (no artifacts attached)"@, fg(Color::DarkGray))]
    } else {
        cards_lines(t, t.artifacts@.len() as int, selected, expanded, body_h)
    }
}

/// Everything that the popup scrolls through.
pub open spec fn canvas(t: Task, selected: int, expanded: bool, body_h: int) -> Seq<Seq<SpanView>> {
    header(t) + evidence(t, selected, expanded, body_h) + summary(t)
}

pub open spec fn top_of(t: Task, k: int, selected: int, expanded: bool, body_h: int) -> int {
    card_top(t, k, header(t).len() as int, selected, expanded, body_h)
}

proof fn lemma_card_height(t: Task, a: int, selected: int, expanded: bool, body_h: int)
    ensures
        1 <= card_height(t, a, selected, expanded, body_h) <= 40,
{
}

proof fn lemma_cards(t: Task, k: int, head: int, selected: int, expanded: bool, body_h: int)
    requires
        0 <= k,
    ensures
        head + cards_lines(t, k, selected, expanded, body_h).len() == card_top(
            t,
            k,
            head,
            selected,
            expanded,
            body_h,
        ),
    decreases k,
{
    if k > 0 {
        lemma_cards(t, k - 1, head, selected, expanded, body_h);
        lemma_card_height(t, at_place(t, k - 1), selected, expanded, body_h);
    }
}

proof fn lemma_tops_grow(t: Task, j: int, k: int, head: int, selected: int, expanded: bool, body_h: int)
    requires
        0 <= j < k,
    ensures
        card_top(t, j, head, selected, expanded, body_h) + 2 + card_height(
            t,
            at_place(t, j),
            selected,
            expanded,
            body_h,
        ) <= card_top(t, k, head, selected, expanded, body_h),
    decreases k,
{
    if j < k - 1 {
        lemma_tops_grow(t, j, k - 1, head, selected, expanded, body_h);
        lemma_card_height(t, at_place(t, k - 1), selected, expanded, body_h);
    }
}

proof fn lemma_header_on_canvas(t: Task, j: int, k: int, selected: int, expanded: bool, body_h: int)
    requires
        0 <= j < k,
    ensures
        ({
            let row = card_top(t, j, 0, selected, expanded, body_h);
            &&& 0 <= row < cards_lines(t, k, selected, expanded, body_h).len()
            &&& cards_lines(t, k, selected, expanded, body_h)[row] == card_lines(
                t,
                at_place(t, j),
                selected,
                expanded,
                body_h,
            )[0]
        }),
    decreases k,
{
    lemma_card_height(t, at_place(t, k - 1), selected, expanded, body_h);
    lemma_cards(t, k - 1, 0, selected, expanded, body_h);
    if j < k - 1 {
        lemma_header_on_canvas(t, j, k - 1, selected, expanded, body_h);
    }
}

proof fn lemma_top_shift(t: Task, k: int, head: int, selected: int, expanded: bool, body_h: int)
    requires
        0 <= k,
    ensures
        card_top(t, k, head, selected, expanded, body_h) == head + card_top(
            t,
            k,
            0,
            selected,
            expanded,
            body_h,
        ),
    decreases k,
{
    if k > 0 {
        lemma_top_shift(t, k - 1, head, selected, expanded, body_h);
    }
}

/// The canvas and the places of the cards agree: the header of the card at
/// place `k` stands on the row on which that card begins, and no two cards
/// share a row.
pub proof fn cards_stand_on_their_rows(t: Task, k: int, selected: int, expanded: bool, body_h: int)
    requires
        0 <= k < t.artifacts@.len(),
    ensures
        ({
            let a = at_place(t, k);
            let row = top_of(t, k, selected, expanded, body_h);
            &&& 0 <= row < canvas(t, selected, expanded, body_h).len()
            &&& canvas(t, selected, expanded, body_h)[row] == card_header(
                t.artifacts@[a],
                basename(t.artifacts@[a].path@),
                a == selected,
                lead(t) == Some(a),
            )
            &&& k + 1 < t.artifacts@.len() ==> row + 2 + card_height(
                t,
                a,
                selected,
                expanded,
                body_h,
            ) == top_of(t, k + 1, selected, expanded, body_h)
        }),
{
    let n = t.artifacts@.len() as int;
    lemma_header_on_canvas(t, k, n, selected, expanded, body_h);
    lemma_top_shift(t, k, header(t).len() as int, selected, expanded, body_h);
    let row0 = card_top(t, k, 0, selected, expanded, body_h);
    assert(canvas(t, selected, expanded, body_h)[header(t).len() + row0] == evidence(
        t,
        selected,
        expanded,
        body_h,
    )[row0]);
}

// ---------------------------------------------------------------------------
// Scrolling
// ---------------------------------------------------------------------------

/// The scroll position that keeps the rows from `top` to `top + h` on the
/// screen.
pub open spec fn keep_visible(scroll: int, top: int, h: int, body_h: int) -> int {
    if top < scroll {
        top
    } else if top + h > scroll + body_h {
        top + h - body_h
    } else {
        scroll
    }
}

/// How far an expanded card can be scrolled beyond the canvas: as many rows
/// as its preview has more than the card.
pub open spec fn overscroll(
    t: Task,
    selected: int,
    expanded: bool,
    body_h: int,
    width: int,
    excerpt: Option<(Seq<Seq<char>>, int)>,
) -> int {
    if expanded && 0 <= selected < t.artifacts@.len() {
        match preview_rows(excerpt, artifact_card(t.artifacts@[selected]), minus(width, 2)) {
            Some(total) => at_most(
                minus(total, card_height(t, selected, selected, expanded, body_h)),
                0xffff,
            ),
            None => 0,
        }
    } else {
        0
    }
}

/// The selected artifact, or the last one where there are not so many.
pub open spec fn nearest_artifact(t: Task, selected: int) -> int {
    at_most(selected, t.artifacts@.len() - 1)
}

/// The row of the canvas below an artifact's card.
pub open spec fn card_ends(t: Task, a: int, selected: int, expanded: bool, body_h: int) -> int {
    top_of(t, place_of(t, a), selected, expanded, body_h) + 2 + card_height(
        t,
        a,
        selected,
        expanded,
        body_h,
    )
}

/// The scroll position, moved so that the selected card is on the screen
/// unless a card is expanded, and no further than there is anything to see.
pub open spec fn scrolled(
    t: Task,
    selected: int,
    expanded: bool,
    body_h: int,
    scroll: int,
    extra: int,
) -> int {
    let s = if t.artifacts@.len() > 0 && body_h > 0 && !expanded {
        let a = nearest_artifact(t, selected);
        keep_visible(
            scroll,
            top_of(t, place_of(t, a), selected, expanded, body_h),
            2 + card_height(t, a, selected, expanded, body_h),
            body_h,
        )
    } else {
        scroll
    };
    at_most(s, at_most(base_scroll(t, selected, expanded, body_h) + extra, 0xffff))
}

/// The rows of the canvas as sixteen bits count them, the summary's apart from
/// the others.
pub open spec fn canvas_rows(t: Task, selected: int, expanded: bool, body_h: int) -> int {
    let above = header(t).len() + evidence(t, selected, expanded, body_h).len();
    at_most(above + summary(t).len() as int % 0x1_0000, 0xffff)
}

/// The largest scroll position of the canvas itself.
pub open spec fn base_scroll(t: Task, selected: int, expanded: bool, body_h: int) -> int {
    minus(canvas_rows(t, selected, expanded, body_h), body_h)
}

/// While no card is expanded, the selected card is on the screen wherever it
/// fits there.
pub proof fn selected_card_is_visible(t: Task, selected: int, body_h: int, scroll: int)
    requires
        0 <= selected,
        t.artifacts@.len() > 0,
        0 <= scroll,
        2 + card_height(t, nearest_artifact(t, selected), selected, false, body_h) <= body_h,
        card_ends(t, nearest_artifact(t, selected), selected, false, body_h) <= 0xffff,
    ensures
        ({
            let a = nearest_artifact(t, selected);
            let top = top_of(t, place_of(t, a), selected, false, body_h);
            let s = scrolled(t, selected, false, body_h, scroll, 0);
            s <= top && top + 2 + card_height(t, a, selected, false, body_h) <= s + body_h
        }),
{
    let a = nearest_artifact(t, selected);
    let n = t.artifacts@.len() as int;
    places_are_a_permutation(t, a);
    let k = place_of(t, a);
    lemma_tops_grow(t, k, n, header(t).len() as int, selected, false, body_h);
    lemma_cards(t, n, header(t).len() as int, selected, false, body_h);
}

/// A card on the screen: where its body is drawn, and from which of its lines.
#[derive(Clone, Copy, Debug, PartialEq, Eq, Structural)]
pub struct CardSlot {
    pub artifact: usize,
    pub kind: CardKind,
    pub rect: Rect,
    pub fully_visible: bool,
    pub scroll_lines: usize,
    /// How many bytes of a file the card reads.
    pub max_bytes: usize,
}

/// The first and the last screen row but one of a card's body, before the
/// screen's edges cut it.
pub open spec fn body_span(
    t: Task,
    k: int,
    selected: int,
    expanded: bool,
    area: Rect,
    shift: int,
) -> (int, int) {
    let top = area.y + top_of(t, k, selected, expanded, area.height as int) + 1 - shift;
    (top, top + card_height(t, at_place(t, k), selected, expanded, area.height as int))
}

/// The slot of the card at place `k`, where any of its body is on the screen.
pub open spec fn slot(
    t: Task,
    k: int,
    selected: int,
    expanded: bool,
    area: Rect,
    shift: int,
    over: int,
) -> Option<CardSlot> {
    let (top, bottom) = body_span(t, k, selected, expanded, area, shift);
    let view_top = area.y as int;
    let view_bottom = area.y + area.height;
    let a = at_place(t, k);
    if at_most(bottom, view_bottom) <= at_least(top, view_top) {
        None
    } else {
        Some(
            CardSlot {
                artifact: a as usize,
                kind: artifact_card(t.artifacts@[a]),
                rect: Rect {
                    x: at_most(area.x + 2, 0xffff) as u16,
                    y: at_least(top, view_top) as u16,
                    width: minus(area.width as int, 2) as u16,
                    height: (at_most(bottom, view_bottom) - at_least(top, view_top)) as u16,
                },
                fully_visible: top >= view_top && bottom <= view_bottom,
                scroll_lines: (minus(view_top, top) + over) as usize,
                max_bytes: if expanded && a == selected {
                    0x1_0000
                } else {
                    0x2000
                },
            },
        )
    }
}

/// The slots of the first `k` cards.
pub open spec fn slots(
    t: Task,
    k: int,
    selected: int,
    expanded: bool,
    area: Rect,
    shift: int,
    over: int,
) -> Seq<CardSlot>
    decreases k,
{
    if k <= 0 {
        Seq::empty()
    } else {
        let before = slots(t, k - 1, selected, expanded, area, shift, over);
        match slot(t, k - 1, selected, expanded, area, shift, over) {
            Some(s) => before.push(s),
            None => before,
        }
    }
}

/// A card's body is drawn inside the body of the popup.
pub proof fn slots_stay_inside(
    t: Task,
    k: int,
    selected: int,
    expanded: bool,
    area: Rect,
    shift: int,
    over: int,
)
    requires
        area.fits(),
        area.width >= 2,
    ensures
        slot(t, k, selected, expanded, area, shift, over) matches Some(s) ==> s.rect.within(area)
            && s.rect.height >= 1,
{
    lemma_card_height(t, at_place(t, k), selected, expanded, area.height as int);
}

/// While no card is expanded, the body of the selected card is drawn, and all
/// of it, wherever the card fits on the screen.
pub proof fn selected_card_is_drawn(t: Task, selected: int, area: Rect, scroll: int)
    requires
        area.fits(),
        0 <= selected,
        t.artifacts@.len() > 0,
        0 <= scroll,
        2 + card_height(t, nearest_artifact(t, selected), selected, false, area.height as int)
            <= area.height,
        card_ends(t, nearest_artifact(t, selected), selected, false, area.height as int) <= 0xffff,
    ensures
        ({
            let a = nearest_artifact(t, selected);
            let h = area.height as int;
            let s = scrolled(t, selected, false, h, scroll, 0);
            let shift = at_most(s, base_scroll(t, selected, false, h));
            let over = minus(s, base_scroll(t, selected, false, h));
            &&& over == 0
            &&& slot(t, place_of(t, a), selected, false, area, shift, over) matches Some(c)
                && c.artifact == a && c.fully_visible && c.scroll_lines == 0 && c.rect.height
                == card_height(t, a, selected, false, h)
        }),
{
    let a = nearest_artifact(t, selected);
    selected_card_is_visible(t, selected, area.height as int, scroll);
    places_are_a_permutation(t, a);
    lemma_card_height(t, a, selected, false, area.height as int);
    lemma_cards(t, place_of(t, a), header(t).len() as int, selected, false, area.height as int);
    assert(t.artifacts.len() <= usize::MAX);
}

/// A card that is expanded can be scrolled to its end: as far down as the
/// popup scrolls, what is drawn of the card ends with the last line of its
/// preview, or has room for more.
pub proof fn expanded_card_scrolls_to_its_end(
    t: Task,
    selected: int,
    area: Rect,
    scroll: int,
    excerpt: Option<(Seq<Seq<char>>, int)>,
    total: int,
)
    requires
        area.fits(),
        0 <= selected < t.artifacts@.len(),
        preview_rows(excerpt, artifact_card(t.artifacts@[selected]), minus(area.width as int, 2))
            == Some(total),
        total - card_height(t, selected, selected, true, area.height as int) <= 0xffff,
        card_ends(t, selected, selected, true, area.height as int) <= 0xffff,
        ({
            let h = area.height as int;
            let extra = overscroll(t, selected, true, h, area.width as int, excerpt);
            base_scroll(t, selected, true, h) + extra <= scroll <= 0xffff
        }),
    ensures
        ({
            let h = area.height as int;
            let base = base_scroll(t, selected, true, h);
            let extra = overscroll(t, selected, true, h, area.width as int, excerpt);
            let s = scrolled(t, selected, true, h, scroll, extra);
            slot(
                t,
                place_of(t, selected),
                selected,
                true,
                area,
                at_most(s, base),
                minus(s, base),
            ) matches Some(c) ==> c.scroll_lines + c.rect.height >= total
        }),
{
    let n = t.artifacts@.len() as int;
    let h = area.height as int;
    let k = place_of(t, selected);
    places_are_a_permutation(t, selected);
    lemma_card_height(t, selected, selected, true, h);
    lemma_tops_grow(t, k, n, header(t).len() as int, selected, true, h);
    lemma_cards(t, n, header(t).len() as int, selected, true, h);
    lemma_cards(t, k, header(t).len() as int, selected, true, h);
    let base = base_scroll(t, selected, true, h);
    let extra = overscroll(t, selected, true, h, area.width as int, excerpt);
    let s = scrolled(t, selected, true, h, scroll, extra);
    assert(s == base + extra);
    let (top, bottom) = body_span(t, k, selected, true, area, base);
    assert(card_ends(t, selected, selected, true, h) <= canvas_rows(t, selected, true, h));
    assert(bottom <= area.y + area.height);
}

// ---------------------------------------------------------------------------
// The popup
// ---------------------------------------------------------------------------

/// What is drawn inside the popup's border.
#[derive(Debug)]
pub struct ResultBody {
    pub canvas: Lines,
    /// The first row of the canvas on the screen.
    pub canvas_scroll: u16,
    /// The new scroll position.
    pub scroll: u16,
    pub body_area: Rect,
    pub footer_area: Rect,
    pub cards: Vec<CardSlot>,
    pub hint: String,
}

#[derive(Debug)]
pub struct ResultPopup {
    pub area: Rect,
    pub title: String,
    pub body: Option<ResultBody>,
}

pub open spec fn popup_area(area: Rect) -> Rect {
    middle(area, scaled(area.width as int, share_85()), scaled(area.height as int, share_85()))
}

/// The rows of the popup above its footer.
pub open spec fn body_of(area: Rect) -> Rect {
    let inner = inside(popup_area(area));
    Rect { height: minus(inner.height as int, 1) as u16, ..inner }
}

pub open spec fn hint_text(t: Task, selected: int) -> Seq<char> {
    " "@ + (if t.artifacts@.len() == 0 {
        "artifact —"@
    } else {
        "artifact "@ + dec((nearest_artifact(t, selected) + 1) as nat) + "/"@ + dec(
            t.artifacts@.len(),
        )
    }) + "   esc/r:close   j/k:artifact   e:expand   PgUp/PgDn:scroll   c:copy path   o:xdg-open "@
}

fn build_hint(t: &Task, selected: usize) -> (r: String)
    ensures
        r@ == hint_text(*t, selected as int),
{
    let n: usize = t.artifacts.len();
    let pos = if n == 0 {
        "artifact —".to_owned()
    } else {
        let a: usize = if selected < n - 1 {
            selected
        } else {
            n - 1
        };
        cat4("artifact ", &text_count(a + 1), "/", &text_count(n))
    };
    cat3(
        " ",
        &pos,
        "   esc/r:close   j/k:artifact   e:expand   PgUp/PgDn:scroll   c:copy path   o:xdg-open ",
    )
}

/// What the popup shows of a task in `area`.
pub open spec fn shows_task(
    p: ResultPopup,
    area: Rect,
    t: Task,
    selected: int,
    expanded: bool,
    scroll: int,
    excerpt: Option<(Seq<Seq<char>>, int)>,
) -> bool {
    let inner = inside(popup_area(area));
    let body = body_of(area);
    let body_h = body.height as int;
    let extra = overscroll(t, selected, expanded, body_h, body.width as int, excerpt);
    let base = base_scroll(t, selected, expanded, body_h);
    let s = scrolled(t, selected, expanded, body_h, scroll, extra);
    &&& p.area == popup_area(area)
    &&& p.title@ == popup_title(t)
    &&& p.body is Some <==> inner.height > 0
    &&& match p.body {
        None => true,
        Some(b) => {
            &&& b.canvas@ == canvas(t, selected, expanded, body_h)
            &&& b.scroll == s
            &&& b.canvas_scroll == at_most(s, base)
            &&& b.body_area == body
            &&& b.footer_area == (Rect {
                x: inner.x,
                y: (inner.y + body_h) as u16,
                width: inner.width,
                height: 1,
            })
            &&& b.cards@ == slots(
                t,
                t.artifacts@.len() as int,
                selected,
                expanded,
                body,
                at_most(s, base),
                minus(s, base),
            )
            &&& b.hint@ == hint_text(t, selected)
        },
    }
}

/// An artifact's card as the popup lays it out.
struct Placed {
    artifact: usize,
    kind: CardKind,
    height: u16,
    top: u16,
}

spec fn placed_ok(
    p: Placed,
    t: Task,
    k: int,
    head: int,
    selected: int,
    expanded: bool,
    body_h: int,
) -> bool {
    &&& p.artifact == at_place(t, k)
    &&& p.artifact < t.artifacts@.len()
    &&& p.kind == artifact_card(t.artifacts@[at_place(t, k)])
    &&& p.height == card_height(t, at_place(t, k), selected, expanded, body_h)
    &&& p.height <= 40
    &&& p.top == at_most(card_top(t, k, head, selected, expanded, body_h), 0xffff)
}

/// Every card begins on a row that sixteen bits count, and so does its body.
pub open spec fn tops_fit(t: Task, selected: int, expanded: bool, body_h: int) -> bool {
    t.artifacts@.len() > 0 ==> top_of(t, t.artifacts@.len() - 1, selected, expanded, body_h) < 0xffff
}

/// Where the popup is scrolled down to the end of the selected card, sixteen
/// bits count its row.
pub open spec fn selected_fits(t: Task, selected: int, expanded: bool, body_h: int, scroll: int) -> bool {
    let a = nearest_artifact(t, selected);
    ||| t.artifacts@.len() == 0
    ||| body_h == 0
    ||| expanded
    ||| top_of(t, place_of(t, a), selected, expanded, body_h) < scroll
    ||| card_ends(t, a, selected, expanded, body_h) <= 0xffff
}

/// The rows of the popup can be counted, where it has any.
pub open spec fn result_fits(area: Rect, t: Task, selected: int, expanded: bool, scroll: int) -> bool {
    let body_h = body_of(area).height as int;
    inside(popup_area(area)).height > 0 ==> tops_fit(t, selected, expanded, body_h) && selected_fits(
        t,
        selected,
        expanded,
        body_h,
        scroll,
    )
}

proof fn lemma_tops_fit(t: Task, k: int, selected: int, expanded: bool, body_h: int)
    requires
        0 <= k < t.artifacts@.len(),
        tops_fit(t, selected, expanded, body_h),
    ensures
        top_of(t, k, selected, expanded, body_h) < 0xffff,
{
    let last = t.artifacts@.len() - 1;
    if k < last {
        lemma_tops_grow(t, k, last, header(t).len() as int, selected, expanded, body_h);
        lemma_card_height(t, at_place(t, k), selected, expanded, body_h);
    }
}

fn lead_of(t: &Task) -> (r: Option<usize>)
    ensures
        match r {
            Some(i) => lead(*t) == Some(i as int) && i < t.artifacts@.len(),
            None => lead(*t) is None,
        },
{
    match t.lead_artifact {
        Some(i) => if i < t.artifacts.len() {
            Some(i)
        } else {
            None
        },
        None => None,
    }
}

fn place_cards(t: &Task, head: u16, selected: usize, expanded: bool, body_h: u16) -> (r: Vec<Placed>)
    ensures
        r@.len() == t.artifacts@.len(),
        forall|k: int|
            0 <= k < r@.len() ==> placed_ok(
                #[trigger] r@[k],
                *t,
                k,
                head as int,
                selected as int,
                expanded,
                body_h as int,
            ),
{
    let lead_idx = lead_of(t);
    let n: usize = t.artifacts.len();
    let grown: u16 = body_h.saturating_sub(6);
    let grown: u16 = if grown < 40 {
        grown
    } else {
        40
    };
    let mut out: Vec<Placed> = Vec::new();
    let mut top: u16 = head;
    let mut k: usize = 0;
    while k < n
        invariant
            k <= n,
            n == t.artifacts@.len(),
            out@.len() == k,
            grown == at_most(minus(body_h as int, 6), 40),
            match lead_idx {
                Some(i) => lead(*t) == Some(i as int) && i < n,
                None => lead(*t) is None,
            },
            top == at_most(
                card_top(*t, k as int, head as int, selected as int, expanded, body_h as int),
                0xffff,
            ),
            forall|j: int|
                0 <= j < out@.len() ==> placed_ok(
                    #[trigger] out@[j],
                    *t,
                    j,
                    head as int,
                    selected as int,
                    expanded,
                    body_h as int,
                ),
        decreases n - k,
    {
        let a: usize = match lead_idx {
            Some(i) => if k == 0 {
                i
            } else if k <= i {
                k - 1
            } else {
                k
            },
            None => k,
        };
        let kind = classify_artifact(&t.artifacts[a]);
        let is_lead = match lead_idx {
            Some(i) => i == a,
            None => false,
        };
        let usual: u16 = if is_lead {
            lead_card_body_height(kind)
        } else {
            card_body_height(kind)
        };
        let height: u16 = if expanded && a == selected && grown > usual {
            grown
        } else {
            usual
        };
        assert(height == card_height(*t, a as int, selected as int, expanded, body_h as int));
        let ghost was = out@;
        out.push(Placed { artifact: a, kind, height, top });
        assert forall|j: int| 0 <= j < out@.len() implies placed_ok(
            #[trigger] out@[j],
            *t,
            j,
            head as int,
            selected as int,
            expanded,
            body_h as int,
        ) by {
            if j < k {
                assert(out@[j] == was[j]);
            }
        }
        top = top.saturating_add(2 + height);
        k += 1;
    }
    out
}

fn build_evidence(t: &Task, placed: &Vec<Placed>, selected: usize, expanded: bool, body_h: u16, head: u16) -> (r:
    Lines)
    requires
        placed@.len() == t.artifacts@.len(),
        forall|k: int|
            0 <= k < placed@.len() ==> placed_ok(
                #[trigger] placed@[k],
                *t,
                k,
                head as int,
                selected as int,
                expanded,
                body_h as int,
            ),
    ensures
        r@ == evidence(*t, selected as int, expanded, body_h as int),
{
    if t.artifacts.len() == 0 {
        return Lines::of(Line::of("  (no artifacts attached)", fg(Color::DarkGray)));
    }
    let lead_idx = lead_of(t);
    let mut out = Lines::none();
    let mut k: usize = 0;
    while k < placed.len()
        invariant
            k <= placed@.len(),
            placed@.len() == t.artifacts@.len(),
            match lead_idx {
                Some(i) => lead(*t) == Some(i as int),
                None => lead(*t) is None,
            },
            forall|k: int|
                0 <= k < placed@.len() ==> placed_ok(
                    #[trigger] placed@[k],
                    *t,
                    k,
                    head as int,
                    selected as int,
                    expanded,
                    body_h as int,
                ),
            out@ == cards_lines(*t, k as int, selected as int, expanded, body_h as int),
        decreases placed@.len() - k,
    {
        assert(placed_ok(
            placed@[k as int],
            *t,
            k as int,
            head as int,
            selected as int,
            expanded,
            body_h as int,
        ));
        let a: usize = placed[k].artifact;
        let h: u16 = placed[k].height;
        let is_lead = match lead_idx {
            Some(i) => i == a,
            None => false,
        };
        let mut card = Lines::of(evidence_card_header(&t.artifacts[a], a == selected, is_lead));
        let ghost first = card@;
        let mut i: u16 = 0;
        assert(card@ =~= first + Seq::new(0, |i: int| blank()));
        while i < h + 1
            invariant
                i <= h + 1,
                h <= 40,
                card@ == first + Seq::new(i as nat, |i: int| blank()),
            decreases h + 1 - i,
        {
            card.put(Line::empty());
            i += 1;
            assert(card@ =~= first + Seq::new(i as nat, |i: int| blank()));
        }
        assert(card@ == card_lines(*t, a as int, selected as int, expanded, body_h as int));
        out.join(card);
        k += 1;
    }
    out
}

fn build_slots(
    t: &Task,
    placed: &Vec<Placed>,
    selected: usize,
    expanded: bool,
    area: Rect,
    head: u16,
    shift: u16,
    over: u16,
) -> (r: Vec<CardSlot>)
    requires
        area.fits(),
        head == header(*t).len(),
        tops_fit(*t, selected as int, expanded, area.height as int),
        placed@.len() == t.artifacts@.len(),
        forall|k: int|
            0 <= k < placed@.len() ==> placed_ok(
                #[trigger] placed@[k],
                *t,
                k,
                head as int,
                selected as int,
                expanded,
                area.height as int,
            ),
    ensures
        r@ == slots(
            *t,
            t.artifacts@.len() as int,
            selected as int,
            expanded,
            area,
            shift as int,
            over as int,
        ),
{
    let mut out: Vec<CardSlot> = Vec::new();
    let view_top: i64 = area.y as i64;
    let view_bottom: i64 = area.y as i64 + area.height as i64;
    let mut k: usize = 0;
    while k < placed.len()
        invariant
            area.fits(),
            head == header(*t).len(),
            tops_fit(*t, selected as int, expanded, area.height as int),
            view_top == area.y,
            view_bottom == area.y + area.height,
            k <= placed@.len(),
            placed@.len() == t.artifacts@.len(),
            forall|k: int|
                0 <= k < placed@.len() ==> placed_ok(
                    #[trigger] placed@[k],
                    *t,
                    k,
                    head as int,
                    selected as int,
                    expanded,
                    area.height as int,
                ),
            out@ == slots(
                *t,
                k as int,
                selected as int,
                expanded,
                area,
                shift as int,
                over as int,
            ),
        decreases placed@.len() - k,
    {
        assert(placed_ok(
            placed@[k as int],
            *t,
            k as int,
            head as int,
            selected as int,
            expanded,
            area.height as int,
        ));
        proof {
            lemma_tops_fit(*t, k as int, selected as int, expanded, area.height as int);
        }
        let p = &placed[k];
        let top: i64 = view_top + p.top as i64 + 1 - shift as i64;
        let bottom: i64 = top + p.height as i64;
        let from: i64 = if top > view_top {
            top
        } else {
            view_top
        };
        let to: i64 = if bottom < view_bottom {
            bottom
        } else {
            view_bottom
        };
        if from < to {
            let clipped: i64 = if top < view_top {
                view_top - top
            } else {
                0
            };
            let s = CardSlot {
                artifact: p.artifact,
                kind: p.kind,
                rect: Rect {
                    x: area.x.saturating_add(2),
                    y: from as u16,
                    width: area.width.saturating_sub(2),
                    height: (to - from) as u16,
                },
                fully_visible: top >= view_top && bottom <= view_bottom,
                scroll_lines: (clipped + over as i64) as usize,
                max_bytes: if expanded && p.artifact == selected {
                    0x1_0000
                } else {
                    0x2000
                },
            };
            out.push(s);
        }
        k += 1;
    }
    out
}

fn extra_scroll(
    t: &Task,
    selected: usize,
    expanded: bool,
    body_h: u16,
    width: u16,
    excerpt: &Option<(Vec<String>, usize)>,
) -> (r: u16)
    requires
        excerpt_counts(*excerpt),
    ensures
        r == overscroll(
            *t,
            selected as int,
            expanded,
            body_h as int,
            width as int,
            excerpt_view(*excerpt),
        ),
{
    if !expanded || selected >= t.artifacts.len() {
        return 0;
    }
    let kind = classify_artifact(&t.artifacts[selected]);
    let h: u16 = card_height_of(t, selected, body_h);
    match artifact_preview_total_lines(excerpt, kind, width.saturating_sub(2)) {
        Some(rows) => {
            let more: usize = rows.saturating_sub(h as usize);
            if more < 0xffff {
                more as u16
            } else {
                0xffff
            }
        },
        None => 0,
    }
}

/// The place of the selected artifact, or of the last one where there are not so
/// many.
fn place_of_nearest(t: &Task, selected: usize) -> (r: usize)
    requires
        t.artifacts@.len() > 0,
    ensures
        r == place_of(*t, nearest_artifact(*t, selected as int)),
        r < t.artifacts@.len(),
{
    let last: usize = t.artifacts.len() - 1;
    let a: usize = if selected < last {
        selected
    } else {
        last
    };
    match lead_of(t) {
        Some(i) => if a == i {
            0
        } else if a < i {
            a + 1
        } else {
            a
        },
        None => a,
    }
}

fn new_scroll(
    t: &Task,
    placed: &Vec<Placed>,
    head: u16,
    selected: usize,
    expanded: bool,
    body_h: u16,
    scroll: u16,
    extra: u16,
    base: u16,
) -> (r: u16)
    requires
        head == header(*t).len(),
        base == base_scroll(*t, selected as int, expanded, body_h as int),
        tops_fit(*t, selected as int, expanded, body_h as int),
        selected_fits(*t, selected as int, expanded, body_h as int, scroll as int),
        placed@.len() == t.artifacts@.len(),
        forall|k: int|
            0 <= k < placed@.len() ==> placed_ok(
                #[trigger] placed@[k],
                *t,
                k,
                head as int,
                selected as int,
                expanded,
                body_h as int,
            ),
    ensures
        r == scrolled(
            *t,
            selected as int,
            expanded,
            body_h as int,
            scroll as int,
            extra as int,
        ),
{
    let mut s: u16 = scroll;
    if t.artifacts.len() > 0 && body_h > 0 && !expanded {
        let k: usize = place_of_nearest(t, selected);
        proof {
            places_are_a_permutation(*t, nearest_artifact(*t, selected as int));
            lemma_tops_fit(*t, k as int, selected as int, expanded, body_h as int);
        }
        assert(placed_ok(
            placed@[k as int],
            *t,
            k as int,
            head as int,
            selected as int,
            expanded,
            body_h as int,
        ));
        let top: u16 = placed[k].top;
        let h: u16 = 2 + placed[k].height;
        if top < s {
            s = top;
        } else if (top + h) as u32 > s as u32 + body_h as u32 {
            s = top + h - body_h;
        }
    }
    let max: u16 = base.saturating_add(extra);
    if s > max {
        max
    } else {
        s
    }
}

/// Whether the rows of the popup can be counted.
pub fn result_can_fit(area: Rect, t: &Task, selected: usize, expanded: bool, scroll: u16) -> (r: bool)
    requires
        area.fits(),
    ensures
        r == result_fits(area, *t, selected as int, expanded, scroll as int),
{
    let inner = inner_of(centered_rect(area, share_85()));
    let n: usize = t.artifacts.len();
    if inner.height == 0 || n == 0 {
        return true;
    }
    let body_h: u16 = inner.height - 1;
    let head: u16 = build_header(t).len() as u16;
    let placed = place_cards(t, head, selected, expanded, body_h);
    assert(placed_ok(
        placed@[n - 1],
        *t,
        n - 1,
        head as int,
        selected as int,
        expanded,
        body_h as int,
    ));
    if placed[n - 1].top == 0xffff {
        return false;
    }
    if body_h == 0 || expanded {
        return true;
    }
    let k: usize = place_of_nearest(t, selected);
    proof {
        places_are_a_permutation(*t, nearest_artifact(*t, selected as int));
        lemma_tops_fit(*t, k as int, selected as int, expanded, body_h as int);
    }
    assert(placed_ok(
        placed@[k as int],
        *t,
        k as int,
        head as int,
        selected as int,
        expanded,
        body_h as int,
    ));
    placed[k].top < scroll || placed[k].top as u32 + 2 + placed[k].height as u32 <= 0xffff
}

/// Lays the result popup out. `excerpt` is what an expanded text or diff card
/// reads of the selected artifact.
#[verifier::rlimit(50)]
pub fn render_projects_result(
    area: Rect,
    task: &Option<Task>,
    selected: usize,
    expanded: bool,
    scroll: u16,
    excerpt: &Option<(Vec<String>, usize)>,
) -> (r: ResultPopup)
    requires
        area.fits(),
        excerpt_counts(*excerpt),
        *task matches Some(t) ==> result_fits(area, t, selected as int, expanded, scroll as int),
    ensures
        match *task {
            None => r.area == popup_area(area) && r.title@ == " Result — no task selected "@
                && r.body is None,
            Some(t) => shows_task(
                r,
                area,
                t,
                selected as int,
                expanded,
                scroll as int,
                excerpt_view(*excerpt),
            ),
        },
{
    let popup = centered_rect(area, share_85());
    let t = match task {
        None => {
            return ResultPopup {
                area: popup,
                title: " Result — no task selected ".to_owned(),
                body: None,
            };
        },
        Some(t) => t,
    };
    let title = build_title(t);
    let inner = inner_of(popup);
    if inner.height == 0 {
        return ResultPopup { area: popup, title, body: None };
    }
    let body_h: u16 = inner.height - 1;
    let body_area = Rect { x: inner.x, y: inner.y, width: inner.width, height: body_h };
    let footer_area = Rect { x: inner.x, y: inner.y + body_h, width: inner.width, height: 1 };
    let mut lines = build_header(t);
    let head: u16 = lines.len() as u16;
    let tail = build_summary(t);
    let ghost n = t.artifacts@.len() as int;
    proof {
        lemma_cards(*t, n, head as int, selected as int, expanded, body_h as int);
    }
    let placed = place_cards(t, head, selected, expanded, body_h);
    lines.join(build_evidence(t, &placed, selected, expanded, body_h, head));
    let above: u16 = if lines.len() < 0xffff {
        lines.len() as u16
    } else {
        0xffff
    };
    let below: u16 = (tail.len() % 0x1_0000) as u16;
    lines.join(tail);
    let total: u16 = above.saturating_add(below);
    let extra: u16 = extra_scroll(t, selected, expanded, body_h, inner.width, excerpt);
    let base: u16 = total.saturating_sub(body_h);
    let s: u16 = new_scroll(t, &placed, head, selected, expanded, body_h, scroll, extra, base);
    let shift: u16 = if s < base {
        s
    } else {
        base
    };
    let over: u16 = s.saturating_sub(base);
    let cards = build_slots(t, &placed, selected, expanded, body_area, head, shift, over);
    let body = ResultBody {
        canvas: lines,
        canvas_scroll: shift,
        scroll: s,
        body_area,
        footer_area,
        cards,
        hint: build_hint(t, selected),
    };
    ResultPopup { area: popup, title, body: Some(body) }
}

/// The height of the selected card where it is expanded.
fn card_height_of(t: &Task, selected: usize, body_h: u16) -> (r: u16)
    requires
        selected < t.artifacts@.len(),
    ensures
        r == card_height(*t, selected as int, selected as int, true, body_h as int),
{
    let kind = classify_artifact(&t.artifacts[selected]);
    let is_lead = match lead_of(t) {
        Some(i) => i == selected,
        None => false,
    };
    let usual: u16 = if is_lead {
        lead_card_body_height(kind)
    } else {
        card_body_height(kind)
    };
    let grown: u16 = body_h.saturating_sub(6);
    let grown: u16 = if grown < 40 {
        grown
    } else {
        40
    };
    if grown > usual {
        grown
    } else {
        usual
    }
}

// ---------------------------------------------------------------------------
// What the popup tells
// ---------------------------------------------------------------------------

/// The title names the task, the hint the number of the selected artifact.
pub proof fn result_names_the_task(
    p: ResultPopup,
    area: Rect,
    t: Task,
    selected: int,
    expanded: bool,
    scroll: int,
    excerpt: Option<(Seq<Seq<char>>, int)>,
)
    requires
        shows_task(p, area, t, selected, expanded, scroll, excerpt),
        0 <= selected,
    ensures
        t.title matches Some(name) ==> name@.len() > 0 ==> p.title@ == " Result · "@ + t.short_id@ + " · "@ + name@
            + " "@,
        t.title is None ==> p.title@ == " Result · "@ + t.short_id@ + " "@,
        p.body matches Some(b) ==> t.artifacts@.len() == 0 ==> b.hint@ == " "@ + "artifact —"@
            + "   esc/r:close   j/k:artifact   e:expand   PgUp/PgDn:scroll   c:copy path   o:xdg-open "@,
        p.body matches Some(b) ==> selected < t.artifacts@.len() ==> b.hint@ == " "@ + ("artifact "@ + dec(
            (selected + 1) as nat,
        ) + "/"@ + dec(t.artifacts@.len()))
            + "   esc/r:close   j/k:artifact   e:expand   PgUp/PgDn:scroll   c:copy path   o:xdg-open "@,
{
}

/// What the popup scrolls through begins with the task's status, its age, the version in
/// which it was shipped and the number of its artifacts.
pub proof fn result_begins_with_the_status(
    p: ResultPopup,
    area: Rect,
    t: Task,
    selected: int,
    expanded: bool,
    scroll: int,
    excerpt: Option<(Seq<Seq<char>>, int)>,
)
    requires
        shows_task(p, area, t, selected, expanded, scroll, excerpt),
        t.shipped_version matches Some(v) ==> v@.len() > 0 && v@[0] != 'v',
    ensures
        p.body matches Some(b) ==> line_text(b.canvas@[0]) == ("["@ + t.status_label@ + "]"@) + "  "@ + t.age@ + (
        match t.shipped_version {
            Some(v) => "  "@ + ("v"@ + v@),
            None => Seq::empty(),
        }) + "  "@ + ("("@ + dec(t.artifacts@.len()) + " artifact"@ + (if t.artifacts@.len() == 1 {
            Seq::empty()
        } else {
            "s"@
        }) + ")"@),
        p.body matches Some(b) ==> line_text(b.canvas@[1]) == Seq::<char>::empty(),
{
    broadcast use {crate::style::joined_line_text, crate::style::span_line_text, crate::style::blank_line_text};

    match t.shipped_version {
        Some(v) => crate::tasks::versions_have_one_v(v@),
        None => {},
    }
}

/// Below it stands the first line of the note, `said`, where there is a note, and else
/// the first line of the prompt.
pub proof fn result_tells_the_note(
    p: ResultPopup,
    area: Rect,
    t: Task,
    selected: int,
    expanded: bool,
    scroll: int,
    excerpt: Option<(Seq<Seq<char>>, int)>,
    said: Seq<char>,
)
    requires
        shows_task(p, area, t, selected, expanded, scroll, excerpt),
        crate::parts::is_plain_line(said),
        match t.note {
            Some(n) => n@ == said,
            None => t.prompt@ == said,
        },
    ensures
        p.body matches Some(b) ==> b.canvas@.len() >= 4 && line_text(b.canvas@[2]) == said,
{
    broadcast use {crate::style::joined_line_text, crate::style::span_line_text, crate::style::blank_line_text};

    crate::parts::plain_line_is_itself(said);
    crate::parts::first_line_ends_at_a_line_feed(said, Seq::empty());
    assert(trimmed(Seq::<char>::empty()) =~= Seq::<char>::empty());
}

/// It ends with every line of the summary, under a heading.
pub proof fn result_ends_with_the_summary(
    p: ResultPopup,
    area: Rect,
    t: Task,
    selected: int,
    expanded: bool,
    scroll: int,
    excerpt: Option<(Seq<Seq<char>>, int)>,
    k: int,
)
    requires
        shows_task(p, area, t, selected, expanded, scroll, excerpt),
        t.summary is Some,
        trimmed(t.summary->Some_0@).len() > 0,
        0 <= k < lines(trimmed(t.summary->Some_0@)).len(),
    ensures
        ({
            let n = lines(trimmed(t.summary->Some_0@)).len();
            p.body matches Some(b) ==> {
                &&& b.canvas@.len() >= n + 2
                &&& line_text(b.canvas@[b.canvas@.len() - n - 1]) == "summary"@
                &&& line_text(b.canvas@[b.canvas@.len() - n + k]) == "  "@ + lines(trimmed(t.summary->Some_0@))[k]
            }
        }),
{
    broadcast use {crate::style::joined_line_text, crate::style::span_line_text, crate::style::blank_line_text};

    let text = lines(trimmed(t.summary->Some_0@));
    let rows = summary_rows(text);
    assert(rows[k] == ln("  "@ + text[k], fg(faint_purple_gray())));
    if p.body is Some {
        let all = p.body->Some_0.canvas@;
        let own = summary(t);
        assert(own.len() == 2 + text.len());
        assert(own[2 + k] == rows[k]);
        assert(all[all.len() - text.len() + k] == own[2 + k]);
        assert(all[all.len() - text.len() - 1] == own[1]);
    }
}

/// Without artifacts it says so.
pub proof fn result_tells_of_no_artifacts(t: Task, selected: int, expanded: bool, body_h: int)
    requires
        t.artifacts@.len() == 0,
    ensures
        line_text(canvas(t, selected, expanded, body_h)[header(t).len() as int]) == "  (no artifacts attached)"@,
{
    broadcast use {crate::style::joined_line_text, crate::style::span_line_text, crate::style::blank_line_text};

}

/// The lead artifact comes first and the others keep their order: of two that are not
/// the lead one, that with the lower number stands above.
pub proof fn lead_artifact_comes_first(t: Task, i: int, a: int, b: int)
    requires
        t.lead_artifact matches Some(l) && l == i,
        0 <= i < t.artifacts@.len(),
        0 <= a < b < t.artifacts@.len(),
        a != i && b != i,
    ensures
        place_of(t, i) == 0,
        place_of(t, i) < place_of(t, a) < place_of(t, b) < t.artifacts@.len(),
        at_place(t, 0) == i,
        at_place(t, place_of(t, a)) == a,
        at_place(t, place_of(t, b)) == b,
{
}

/// The status has the colour of its column.
pub proof fn colours_tell_the_column()
    ensures
        status_color(TaskStatus::Planning) == crate::board::column_meta(0).1,
        status_color(TaskStatus::Running) == crate::board::column_meta(1).1,
        status_color(TaskStatus::Review) == crate::board::column_meta(2).1,
        status_color(TaskStatus::Merging) == crate::board::column_meta(3).1,
        status_color(TaskStatus::Done) == crate::board::column_meta(4).1,
        status_color(TaskStatus::Done) == Color::LightGreen && status_color(TaskStatus::Review) == Color::LightCyan,
{
}

} // verus!
