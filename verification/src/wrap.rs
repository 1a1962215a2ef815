//! Breaking text into rows of a given width.

use crate::parts::{
    chomp, find_char, joined, lemma_find_char, lemma_one_word, lemma_skip_white, lemma_skip_word,
    lemma_words_hold_ink, lemma_words_push, lemma_words_white_end, lines, lines_from, lines_of, push_text, skip_white,
    skip_word, texts, words, words_from, words_of,
};
use crate::style::{blank, line_text, Line, Lines, SpanView};
use crate::text::{at_least, at_most, cat2, chars_of, same, slice_of, white};
use vstd::prelude::*;

verus! {

broadcast use vstd::string::group_string_axioms;

// ---------------------------------------------------------------------------
// Word wrap
// ---------------------------------------------------------------------------

/// Finished rows and the row being filled.
#[verifier::ext_equal]
pub struct Filling {
    pub rows: Seq<Seq<char>>,
    pub row: Seq<char>,
}

/// A word that is too long for a row, cut into rows of `w` characters, of
/// which the last is still being filled.
pub open spec fn chop(done: Seq<Seq<char>>, word: Seq<char>, w: int) -> Filling
    decreases word.len(),
{
    if w < 1 || word.len() <= w {
        Filling { rows: done, row: word }
    } else {
        chop(done.push(word.take(w)), word.skip(w), w)
    }
}

/// Puts one more word down: on the row being filled where it fits behind a
/// blank, else on a row of its own, or on several where none is wide enough.
pub open spec fn place(f: Filling, word: Seq<char>, w: int) -> Filling {
    if word.len() > w {
        if f.row.len() > 0 {
            chop(f.rows.push(f.row), word, w)
        } else {
            chop(f.rows, word, w)
        }
    } else if f.row.len() == 0 {
        Filling { rows: f.rows, row: word }
    } else if f.row.len() + 1 + word.len() > w {
        Filling { rows: f.rows.push(f.row), row: word }
    } else {
        Filling { rows: f.rows, row: f.row.push(' ') + word }
    }
}

/// Puts words down one after the other.
pub open spec fn place_all(ws: Seq<Seq<char>>, w: int) -> Filling
    decreases ws.len(),
{
    if ws.len() == 0 {
        Filling { rows: Seq::empty(), row: Seq::empty() }
    } else {
        place(place_all(ws.drop_last(), w), ws.last(), w)
    }
}

/// The rows of a filling, with the last one where it holds anything or is
/// the only one.
pub open spec fn all_rows(f: Filling) -> Seq<Seq<char>> {
    if f.row.len() > 0 || f.rows.len() == 0 {
        f.rows.push(f.row)
    } else {
        f.rows
    }
}

/// `s` broken at white space into rows of at most `width` characters.
pub open spec fn wrapped(s: Seq<char>, width: int) -> Seq<Seq<char>> {
    all_rows(place_all(words(s), at_least(width, 1)))
}

fn chop_word(rows: &mut Vec<String>, word: &str, w: usize) -> (row: String)
    requires
        w >= 1,
    ensures
        chop(texts(old(rows)@), word@, w as int) == (Filling { rows: texts(final(rows)@), row: row@ }),
{
    let v = chars_of(word);
    let n: usize = v.len();
    let mut i: usize = 0;
    let ghost start = texts(rows@);
    assert(word@.skip(0) =~= word@);
    while n - i > w
        invariant
            w >= 1,
            v@ == word@,
            n == v@.len(),
            i <= n,
            chop(start, word@, w as int) == chop(texts(rows@), word@.skip(i as int), w as int),
        decreases n - i,
    {
        let part = slice_of(&v, i, i + w);
        assert(part@ =~= word@.skip(i as int).take(w as int));
        assert(word@.skip(i as int).skip(w as int) =~= word@.skip(i + w));
        push_text(rows, part);
        i += w;
    }
    let row = slice_of(&v, i, n);
    assert(row@ =~= word@.skip(i as int));
    row
}

/// Puts the words of a text down on rows of `w` characters.
fn fill_rows(text: &str, w: usize) -> (r: (Vec<String>, String))
    requires
        w >= 1,
    ensures
        place_all(words(text@), w as int) == (Filling { rows: texts(r.0@), row: r.1@ }),
{
    let ws = words_of(text);
    let mut rows: Vec<String> = Vec::new();
    let mut row = String::new();
    let mut i: usize = 0;
    assert(texts(rows@) =~= Seq::empty());
    assert(texts(ws@).take(0) =~= Seq::empty());
    while i < ws.len()
        invariant
            w >= 1,
            i <= ws@.len(),
            place_all(texts(ws@).take(i as int), w as int) == (Filling {
                rows: texts(rows@),
                row: row@,
            }),
            row@.len() <= w,
        decreases ws@.len() - i,
    {
        let ghost f = Filling { rows: texts(rows@), row: row@ };
        let ghost word = ws@[i as int]@;
        let n: usize = ws[i].unicode_len();
        let have: usize = row.as_str().unicode_len();
        if n > w {
            if have > 0 {
                push_text(&mut rows, row);
            }
            row = chop_word(&mut rows, &ws[i], w);
            proof {
                if f.row.len() > 0 {
                    lemma_chop(f.rows.push(f.row), word, w as int);
                } else {
                    lemma_chop(f.rows, word, w as int);
                }
            }
        } else if have == 0 {
            row = ws[i].clone();
        } else if n > w - have || n + 1 > w - have {
            push_text(&mut rows, row);
            row = ws[i].clone();
        } else {
            row.push(' ');
            row.append(&ws[i]);
        }
        i += 1;
        assert(texts(ws@).take(i as int).drop_last() =~= texts(ws@).take(i - 1));
        assert(texts(ws@).take(i as int).last() == word);
    }
    assert(texts(ws@).take(i as int) =~= texts(ws@));
    (rows, row)
}

/// Word-wraps `text` to `width` columns: breaks on white space, splits any
/// single word longer than `width`, and counts each character as one column.
pub fn wrap_text(text: &str, width: usize) -> (r: Vec<String>)
    ensures
        texts(r@) == wrapped(text@, width as int),
        r@.len() >= 1,
{
    let w: usize = if width >= 1 {
        width
    } else {
        1
    };
    let (mut rows, row) = fill_rows(text, w);
    if row.as_str().unicode_len() > 0 || rows.len() == 0 {
        push_text(&mut rows, row);
    }
    rows
}

/// The rows of one paragraph, of which an empty one has one.
pub open spec fn paragraph_rows(s: Seq<char>, w: int) -> Seq<Seq<char>> {
    let f = place_all(words(s), w);
    f.rows.push(f.row)
}

/// The rows of paragraphs, one below the other.
pub open spec fn paragraphs_rows(ps: Seq<Seq<char>>, w: int) -> Seq<Seq<char>>
    decreases ps.len(),
{
    if ps.len() == 0 {
        Seq::empty()
    } else {
        paragraphs_rows(ps.drop_last(), w) + paragraph_rows(ps.last(), w)
    }
}

/// Rows without the empty ones at the end.
pub open spec fn without_blank_end(rows: Seq<Seq<char>>) -> Seq<Seq<char>>
    decreases rows.len(),
{
    if rows.len() > 0 && rows.last().len() == 0 {
        without_blank_end(rows.drop_last())
    } else {
        rows
    }
}

/// `s` wrapped line by line, on rows of at least eight columns.
pub open spec fn wrapped_lines(s: Seq<char>, width: int) -> Seq<Seq<char>> {
    without_blank_end(paragraphs_rows(lines(s), at_least(width, 8)))
}

/// Word-wraps plain text and keeps its line breaks.
pub fn wrap_lines(text: &str, width: usize) -> (r: Vec<String>)
    ensures
        texts(r@) == wrapped_lines(text@, width as int),
{
    let w: usize = if width >= 8 {
        width
    } else {
        8
    };
    let paras = lines_of(text);
    let mut out: Vec<String> = Vec::new();
    let mut i: usize = 0;
    assert(texts(out@) =~= Seq::empty());
    assert(texts(paras@).take(0) =~= Seq::empty());
    while i < paras.len()
        invariant
            w >= 8,
            i <= paras@.len(),
            texts(out@) == paragraphs_rows(texts(paras@).take(i as int), w as int),
        decreases paras@.len() - i,
    {
        let ghost before = texts(out@);
        let (mut rows, row) = fill_rows(&paras[i], w);
        push_text(&mut rows, row);
        let ghost added = texts(rows@);
        out.append(&mut rows);
        assert(texts(out@) =~= before + added);
        i += 1;
        assert(texts(paras@).take(i as int).drop_last() =~= texts(paras@).take(i - 1));
    }
    assert(texts(paras@).take(i as int) =~= texts(paras@));
    let ghost all = texts(out@);
    while out.len() > 0 && out[out.len() - 1].as_str().unicode_len() == 0
        invariant
            without_blank_end(texts(out@)) == without_blank_end(all),
        decreases out@.len(),
    {
        let ghost before = texts(out@);
        let _ = out.pop();
        assert(texts(out@) =~= before.drop_last());
    }
    out
}

proof fn lemma_chop(done: Seq<Seq<char>>, word: Seq<char>, w: int)
    requires
        w >= 1,
    ensures
        chop(done, word, w).row.len() <= w,
        word.len() > 0 ==> chop(done, word, w).row.len() > 0,
        chop(done, word, w).rows.len() >= done.len(),
        chop(done, word, w).rows.take(done.len() as int) == done,
        forall|k: int|
            done.len() <= k < chop(done, word, w).rows.len() ==> (#[trigger] chop(
                done,
                word,
                w,
            ).rows[k]).len() == w,
    decreases word.len(),
{
    if word.len() > w {
        let next = done.push(word.take(w));
        lemma_chop(next, word.skip(w), w);
        let f = chop(next, word.skip(w), w);
        assert(f.rows.take(next.len() as int)[done.len() as int] == word.take(w));
        assert(f.rows.take(done.len() as int) =~= f.rows.take(next.len() as int).take(
            done.len() as int,
        ));
        assert(next.take(done.len() as int) =~= done);
        assert(chop(done, word, w) == f);
    } else {
        assert(done.take(done.len() as int) =~= done);
    }
}

// ---------------------------------------------------------------------------
// Rows of a paragraph
// ---------------------------------------------------------------------------

/// Whether a paragraph can count its rows in sixteen bits: where the width is
/// not, or no line is, beyond 16383. On the way a row's word and blanks are
/// added up to less than four times the width, and never to more than the whole
/// line, of which no character is wider than four columns.
pub open spec fn can_wrap(lines: Seq<Seq<SpanView>>, width: u16) -> bool {
    width <= 0x3fff || forall|i: int|
        0 <= i < lines.len() ==> line_text(#[trigger] lines[i]).len() <= 0x3fff
}

/// How many characters a line has, or 16384 where it has more.
fn line_len(l: &Line) -> (r: usize)
    ensures
        r == at_most(line_text(l@).len() as int, 0x4000),
{
    let mut n: usize = 0;
    let mut i: usize = 0;
    assert(l@.take(0) =~= blank());
    while i < l.spans.len()
        invariant
            i <= l.spans@.len(),
            l@.len() == l.spans@.len(),
            n == at_most(line_text(l@.take(i as int)).len() as int, 0x4000),
        decreases l.spans@.len() - i,
    {
        let k: usize = l.spans[i].text.as_str().unicode_len();
        proof {
            assert(l@.take(i + 1).drop_last() =~= l@.take(i as int));
            assert(l@.take(i + 1).last() == l.spans@[i as int]@);
        }
        n = if k >= 0x4000 - n {
            0x4000
        } else {
            n + k
        };
        i += 1;
    }
    assert(l@.take(i as int) =~= l@);
    n
}

/// Whether a paragraph can count the rows of these lines.
pub fn wraps(lines: &Lines, width: u16) -> (r: bool)
    ensures
        r == can_wrap(lines@, width),
{
    if width <= 0x3fff {
        return true;
    }
    let mut i: usize = 0;
    while i < lines.rows.len()
        invariant
            i <= lines.rows@.len(),
            lines@.len() == lines.rows@.len(),
            width > 0x3fff,
            forall|k: int| 0 <= k < i ==> line_text(#[trigger] lines@[k]).len() <= 0x3fff,
        decreases lines.rows@.len() - i,
    {
        let n: usize = line_len(&lines.rows[i]);
        assert(lines@[i as int] == lines.rows@[i as int]@);
        if n > 0x3fff {
            return false;
        }
        i += 1;
    }
    true
}

/// Whether a character is one that never makes up one character on the screen
/// with another such one beside it: no mark, modifier, joiner, flag letter or
/// Hangul letter, nor one that takes what follows along. Not all of those are
/// here.
pub open spec fn stands_alone(c: char) -> bool {
    ||| c <= '\u{2ff}'
    ||| '\u{370}' <= c <= '\u{482}'
    ||| '\u{48a}' <= c <= '\u{590}'
    ||| '\u{5d0}' <= c <= '\u{5ea}'
    ||| '\u{620}' <= c <= '\u{64a}'
    ||| '\u{671}' <= c <= '\u{6d5}'
    ||| '\u{904}' <= c <= '\u{939}'
    ||| '\u{e01}' <= c <= '\u{e30}'
    ||| '\u{1e00}' <= c <= '\u{200b}'
    ||| '\u{200e}' <= c <= '\u{20cf}'
    ||| '\u{20f1}' <= c <= '\u{2cee}'
    ||| '\u{2e00}' <= c <= '\u{3029}'
    ||| '\u{3030}' <= c <= '\u{3098}'
    ||| '\u{309b}' <= c <= '\u{a66e}'
    ||| '\u{ac00}' <= c <= '\u{d7a3}'
    ||| '\u{e000}' <= c <= '\u{fb1d}'
    ||| '\u{1f200}' <= c <= '\u{1f3fa}'
    ||| '\u{1f400}' <= c <= '\u{e001f}'
}

/// A text taken apart between each two characters that stand alone.
pub open spec fn apart(t: Seq<char>) -> Seq<Seq<char>>
    decreases t.len(),
{
    if t.len() == 0 {
        Seq::empty()
    } else {
        let before = apart(t.drop_last());
        let c = t.last();
        if t.len() > 1 && !(stands_alone(t[t.len() - 2]) && stands_alone(c)) {
            before.drop_last().push(before.last().push(c))
        } else {
            before.push(seq![c])
        }
    }
}

/// Lists put together.
pub open spec fn in_a_row(lists: Seq<Seq<Seq<char>>>) -> Seq<Seq<char>>
    decreases lists.len(),
{
    if lists.len() == 0 {
        Seq::empty()
    } else {
        in_a_row(lists.drop_last()) + lists.last()
    }
}

/// The grapheme clusters that `ratatui::text::Span::styled_graphemes` finds in a
/// text.
pub uninterp spec fn clusters(text: Seq<char>) -> Seq<Seq<char>>;

/// `ratatui::text::Span::styled_graphemes`: the extended grapheme clusters of a
/// text, less those with a control character. They are a function of the text,
/// and none reaches from a character that stands alone into the next such one,
/// but for a carriage return with its line feed, which is left out whole as each
/// of the two would be.
#[verifier::external_body]
fn find_clusters(text: &str) -> (r: Vec<String>)
    ensures
        texts(r@) == in_a_row(apart(text@).map_values(|a: Seq<char>| clusters(a))),
{
    let span = ratatui::text::Span::raw(text);
    let all = span.styled_graphemes(ratatui::style::Style::default());
    all.map(|g| g.symbol.to_owned()).collect()
}

/// What a reader takes for the characters of a text.
pub open spec fn graphemes(t: Seq<char>) -> Seq<Seq<char>> {
    in_a_row(apart(t).map_values(|a: Seq<char>| clusters(a)))
}

/// What a reader takes for the characters of a line, span by span.
pub open spec fn line_graphemes(l: Seq<SpanView>) -> Seq<Seq<char>> {
    in_a_row(l.map_values(|s: SpanView| graphemes(s.text)))
}

/// How many rows `ratatui::widgets::Paragraph` breaks a line with the given
/// grapheme clusters into.
pub uninterp spec fn line_rows(graphemes: Seq<Seq<char>>, width: u16) -> nat;

/// The rows of lines that have so many each, and at least one.
pub open spec fn rows_in_all(rows: Seq<nat>) -> int
    decreases rows.len(),
{
    if rows.len() == 0 {
        0
    } else {
        rows_in_all(rows.drop_last()) + at_least(rows.last() as int, 1)
    }
}

/// The rows that a paragraph breaks lines into: those of one line after the
/// other.
pub open spec fn paragraph_height(lines: Seq<Seq<SpanView>>, width: u16) -> int {
    rows_in_all(Seq::new(lines.len(), |i: int| line_rows(line_graphemes(lines[i]), width)))
}

/// `ratatui::widgets::Paragraph::line_count` of a paragraph that wraps and
/// does not trim. It breaks each line on its own, into at least one row, by the
/// grapheme clusters that `Span::styled_graphemes` finds in its spans and by the
/// width, and counts no row where there is no width. Widths are added up in
/// sixteen bits, which `can_wrap` keeps from overflowing.
#[verifier::external_body]
fn paragraph_line_count(lines: &Lines, width: u16) -> (r: usize)
    requires
        can_wrap(lines@, width),
    ensures
        width >= 1 ==> r == rows_in_all(
            Seq::new(lines@.len(), |i: int| line_rows(line_graphemes(lines@[i]), width)),
        ),
        width == 0 ==> r == 0,
{
    let span = |s: &crate::style::Span| ratatui::text::Span::raw(s.text.clone());
    let line = |l: &crate::style::Line| {
        ratatui::text::Line::from(l.spans.iter().map(span).collect::<Vec<_>>())
    };
    let text = ratatui::text::Text::from(lines.rows.iter().map(line).collect::<Vec<_>>());
    let wrap = ratatui::widgets::Wrap { trim: false };
    ratatui::widgets::Paragraph::new(text).wrap(wrap).line_count(width)
}

/// The rows that lines take, for what the paragraph counts: at least one
/// where there is a line, one for each line where there is no width.
pub open spec fn rows_taken(lines: int, width: int, counted: int) -> int {
    if width == 0 {
        at_most(lines, 0xffff)
    } else {
        at_most(at_least(counted, at_most(lines, 1)), 0xffff)
    }
}

/// The rows that lines take on the screen.
pub open spec fn screen_rows(lines: Seq<Seq<SpanView>>, width: u16) -> int {
    rows_taken(lines.len() as int, width as int, paragraph_height(lines, width))
}

/// The rows for what a paragraph counts.
pub fn rows_for(lines: usize, width: u16, counted: usize) -> (r: u16)
    ensures
        r == rows_taken(lines as int, width as int, counted as int),
{
    let n: usize = if width == 0 {
        lines
    } else if counted == 0 && lines > 0 {
        1
    } else {
        counted
    };
    if n < 0xffff {
        n as u16
    } else {
        0xffff
    }
}

/// The rows that lines take on the screen when they are broken to `width`
/// columns. A wrapped paragraph scrolls by these rows, not by lines.
pub fn wrapped_total_rows(lines: &Lines, width: u16) -> (r: u16)
    requires
        can_wrap(lines@, width),
    ensures
        r == screen_rows(lines@, width),
{
    let counted: usize = paragraph_line_count(lines, width);
    rows_for(lines.len(), width, counted)
}

proof fn lemma_rows_in_all(a: Seq<nat>, b: Seq<nat>)
    ensures
        rows_in_all(a + b) == rows_in_all(a) + rows_in_all(b),
        rows_in_all(a) >= a.len(),
    decreases a.len() + b.len(),
{
    if b.len() > 0 {
        lemma_rows_in_all(a, b.drop_last());
        assert((a + b).drop_last() =~= a + b.drop_last());
    } else {
        assert(a + b =~= a);
        if a.len() > 0 {
            lemma_rows_in_all(a.drop_last(), b);
        }
    }
}

spec fn rows_of(lines: Seq<Seq<SpanView>>, width: u16) -> Seq<nat> {
    Seq::new(lines.len(), |i: int| line_rows(line_graphemes(lines[i]), width))
}

proof fn lemma_heights_add_up(a: Seq<Seq<SpanView>>, b: Seq<Seq<SpanView>>, width: u16)
    ensures
        paragraph_height(a + b, width) == paragraph_height(a, width) + paragraph_height(b, width),
        paragraph_height(a, width) >= a.len(),
{
    lemma_rows_in_all(rows_of(a, width), rows_of(b, width));
    assert(rows_of(a + b, width) =~= rows_of(a, width) + rows_of(b, width));
}

/// The rows of lines add up, as long as they are not too many to count.
pub proof fn rows_add_up(a: Seq<Seq<SpanView>>, b: Seq<Seq<SpanView>>, width: u16)
    requires
        width >= 1,
        screen_rows(a, width) + screen_rows(b, width) <= 0xffff,
    ensures
        screen_rows(a + b, width) == screen_rows(a, width) + screen_rows(b, width),
{
    lemma_heights_add_up(a, b, width);
    lemma_heights_add_up(b, a, width);
    if b.len() == 0 {
        assert(a + b =~= a);
    }
    if a.len() == 0 {
        assert(a + b =~= b);
    }
}

proof fn lemma_in_a_row(a: Seq<Seq<Seq<char>>>, b: Seq<Seq<Seq<char>>>)
    ensures
        in_a_row(a + b) == in_a_row(a) + in_a_row(b),
    decreases b.len(),
{
    if b.len() == 0 {
        assert(a + b =~= a);
        assert(in_a_row(a) + in_a_row(b) =~= in_a_row(a));
    } else {
        lemma_in_a_row(a, b.drop_last());
        assert((a + b).drop_last() =~= a + b.drop_last());
        assert(in_a_row(a) + in_a_row(b.drop_last()) + b.last() =~= in_a_row(a) + in_a_row(b));
    }
}

proof fn lemma_apart_join(x: Seq<char>, y: Seq<char>)
    requires
        x.len() > 0 && y.len() > 0 ==> stands_alone(x.last()) && stands_alone(y[0]),
    ensures
        apart(x + y) == apart(x) + apart(y),
        y.len() > 0 ==> apart(y).len() > 0,
    decreases y.len(),
{
    if y.len() == 0 {
        assert(x + y =~= x);
        assert(apart(x) + apart(y) =~= apart(x));
    } else {
        let front = y.drop_last();
        let c = y.last();
        lemma_apart_join(x, front);
        assert((x + y).drop_last() =~= x + front);
        assert((x + y).last() == c);
        if y.len() > 1 {
            assert((x + y)[(x + y).len() - 2] == y[y.len() - 2]);
            let a = apart(x);
            let b = apart(front);
            assert(b.len() > 0);
            assert((a + b).last() == b.last());
            assert((a + b).drop_last().push(b.last().push(c)) =~= a + b.drop_last().push(b.last().push(c)));
            assert((a + b).push(seq![c]) =~= a + b.push(seq![c]));
        } else {
            assert(front =~= Seq::empty());
            assert(apart(y) =~= seq![seq![c]]);
            assert(x + front =~= x);
            if x.len() > 0 {
                assert((x + y)[(x + y).len() - 2] == x.last());
            }
            assert(apart(x + y) =~= apart(x) + apart(y));
        }
    }
}

/// Two texts have the characters, as a reader takes them, that they have put
/// together: what is between them is no cut through one.
pub open spec fn splits(x: Seq<char>, y: Seq<char>) -> bool {
    graphemes(x + y) == graphemes(x) + graphemes(y)
}

/// A text may be cut between any two characters that stand alone, and at its
/// beginning and its end.
pub proof fn plain_characters_split(x: Seq<char>, y: Seq<char>)
    requires
        x.len() > 0 && y.len() > 0 ==> stands_alone(x.last()) && stands_alone(y[0]),
    ensures
        splits(x, y),
{
    lemma_apart_join(x, y);
    let f = |a: Seq<char>| clusters(a);
    lemma_in_a_row(apart(x).map_values(f), apart(y).map_values(f));
    assert(apart(x + y).map_values(f) =~= apart(x).map_values(f) + apart(y).map_values(f));
}

/// Whether a text may be cut between its two parts: whether no character, as a
/// reader takes it, is cut in two there.
pub fn splits_between(left: &str, right: &str) -> (r: bool)
    ensures
        r == splits(left@, right@),
{
    let whole = find_clusters(&cat2(left, right));
    let mut parts = find_clusters(left);
    let mut rest = find_clusters(right);
    let ghost want = texts(parts@) + texts(rest@);
    parts.append(&mut rest);
    assert(texts(parts@) =~= want);
    if whole.len() != parts.len() {
        assert(texts(whole@).len() != texts(parts@).len());
        return false;
    }
    let mut i: usize = 0;
    while i < whole.len()
        invariant
            i <= whole@.len(),
            whole@.len() == parts@.len(),
            texts(whole@) == graphemes(left@ + right@),
            texts(parts@) == graphemes(left@) + graphemes(right@),
            forall|k: int| 0 <= k < i ==> #[trigger] texts(whole@)[k] == texts(parts@)[k],
        decreases whole@.len() - i,
    {
        assert(texts(whole@)[i as int] == whole@[i as int]@);
        assert(texts(parts@)[i as int] == parts@[i as int]@);
        if !same(&whole[i], &parts[i]) {
            return false;
        }
        i += 1;
    }
    assert(texts(whole@) =~= texts(parts@));
    true
}

proof fn lemma_divided_graphemes(left: Seq<SpanView>, whole: SpanView, x: SpanView, y: SpanView, right: Seq<SpanView>)
    requires
        whole.text == x.text + y.text,
        splits(x.text, y.text),
    ensures
        line_graphemes(left + seq![whole] + right) == line_graphemes(left + seq![x, y] + right),
{
    let f = |s: SpanView| graphemes(s.text);
    let l = left.map_values(f);
    let r = right.map_values(f);
    let one = seq![graphemes(whole.text)];
    let two = seq![graphemes(x.text), graphemes(y.text)];
    assert((left + seq![whole] + right).map_values(f) =~= l + one + r);
    assert((left + seq![x, y] + right).map_values(f) =~= l + two + r);
    lemma_in_a_row(l + one, r);
    lemma_in_a_row(l, one);
    lemma_in_a_row(l + two, r);
    lemma_in_a_row(l, two);
    reveal_with_fuel(in_a_row, 3);
    assert(in_a_row(one) =~= graphemes(whole.text));
    assert(two.drop_last().last() == graphemes(x.text));
    assert(in_a_row(two) =~= graphemes(x.text) + graphemes(y.text));
}

/// To divide a span of a line into two does not change the rows that the lines
/// take, wherever no character, as a reader takes it, is cut in two.
pub proof fn divided_span_takes_the_same_rows(
    above: Seq<Seq<SpanView>>,
    left: Seq<SpanView>,
    whole: SpanView,
    x: SpanView,
    y: SpanView,
    right: Seq<SpanView>,
    below: Seq<Seq<SpanView>>,
    width: u16,
)
    requires
        whole.text == x.text + y.text,
        splits(x.text, y.text),
    ensures
        screen_rows(above + seq![left + seq![whole] + right] + below, width) == screen_rows(
            above + seq![left + seq![x, y] + right] + below,
            width,
        ),
{
    let a = above + seq![left + seq![whole] + right];
    let b = above + seq![left + seq![x, y] + right];
    lemma_divided_graphemes(left, whole, x, y, right);
    lemma_heights_add_up(a, below, width);
    lemma_heights_add_up(b, below, width);
    assert(rows_of(a, width) =~= rows_of(b, width));
}

// ---------------------------------------------------------------------------
// What wrapping keeps
// ---------------------------------------------------------------------------

/// The characters of `s` that are no white space.
pub open spec fn ink(s: Seq<char>) -> Seq<char> {
    s.filter(|c: char| !white(c))
}

/// Texts put together.
pub open spec fn flat(parts: Seq<Seq<char>>) -> Seq<char>
    decreases parts.len(),
{
    if parts.len() == 0 {
        Seq::empty()
    } else {
        flat(parts.drop_last()) + parts.last()
    }
}

proof fn lemma_place_fits(f: Filling, word: Seq<char>, w: int)
    requires
        w >= 1,
        f.row.len() <= w,
        forall|k: int| 0 <= k < f.rows.len() ==> (#[trigger] f.rows[k]).len() <= w,
    ensures
        place(f, word, w).row.len() <= w,
        forall|k: int|
            0 <= k < place(f, word, w).rows.len() ==> (#[trigger] place(f, word, w).rows[k]).len()
                <= w,
{
    let g = place(f, word, w);
    if word.len() > w {
        let done = if f.row.len() > 0 {
            f.rows.push(f.row)
        } else {
            f.rows
        };
        lemma_chop(done, word, w);
        assert forall|k: int| 0 <= k < g.rows.len() implies (#[trigger] g.rows[k]).len() <= w by {
            if k < done.len() {
                assert(g.rows.take(done.len() as int)[k] == done[k]);
            }
        }
    }
}

proof fn lemma_place_all_fits(ws: Seq<Seq<char>>, w: int)
    requires
        w >= 1,
    ensures
        place_all(ws, w).row.len() <= w,
        forall|k: int|
            0 <= k < place_all(ws, w).rows.len() ==> (#[trigger] place_all(ws, w).rows[k]).len()
                <= w,
    decreases ws.len(),
{
    if ws.len() > 0 {
        lemma_place_all_fits(ws.drop_last(), w);
        lemma_place_fits(place_all(ws.drop_last(), w), ws.last(), w);
    }
}

/// No row of a wrapped text is wider than the width, which counts as one
/// where it is zero.
pub proof fn wrapped_rows_fit(s: Seq<char>, width: int, k: int)
    requires
        0 <= k < wrapped(s, width).len(),
    ensures
        wrapped(s, width)[k].len() <= at_least(width, 1),
{
    lemma_place_all_fits(words(s), at_least(width, 1));
}

/// A text always has at least one row, and a text of white space alone has
/// one that is empty.
pub proof fn wrapped_has_a_row(s: Seq<char>, width: int)
    ensures
        wrapped(s, width).len() >= 1,
        words(s).len() == 0 ==> wrapped(s, width) == seq![Seq::<char>::empty()],
{
    let w = at_least(width, 1);
    if words(s).len() == 0 {
        assert(wrapped(s, width) =~= seq![Seq::<char>::empty()]);
    }
}

proof fn lemma_flat_push(a: Seq<Seq<char>>, x: Seq<char>)
    ensures
        flat(a.push(x)) == flat(a) + x,
{
    assert(a.push(x).drop_last() =~= a);
}

/// All characters of a filling, in order.
spec fn contents(f: Filling) -> Seq<char> {
    flat(f.rows) + f.row
}

proof fn lemma_chop_contents(done: Seq<Seq<char>>, word: Seq<char>, w: int)
    requires
        w >= 1,
    ensures
        contents(chop(done, word, w)) == flat(done) + word,
    decreases word.len(),
{
    if word.len() > w {
        let head = word.take(w);
        lemma_chop_contents(done.push(head), word.skip(w), w);
        lemma_flat_push(done, head);
        assert(flat(done) + head + word.skip(w) =~= flat(done) + word);
    }
}

proof fn lemma_place_ink(f: Filling, word: Seq<char>, w: int)
    requires
        w >= 1,
    ensures
        ink(contents(place(f, word, w))) == ink(contents(f)) + ink(word),
{
    let g = place(f, word, w);
    let pred = |c: char| !white(c);
    lemma_flat_push(f.rows, f.row);
    lemma_ink_join(contents(f), word);
    if word.len() > w {
        if f.row.len() > 0 {
            lemma_chop_contents(f.rows.push(f.row), word, w);
        } else {
            lemma_chop_contents(f.rows, word, w);
            assert(contents(f) =~= flat(f.rows));
        }
    } else if f.row.len() == 0 {
        assert(contents(f) =~= flat(f.rows));
    } else if f.row.len() + 1 + word.len() > w {
    } else {
        assert(contents(g) =~= contents(f) + (seq![' '] + word));
        lemma_ink_join(contents(f), seq![' '] + word);
        lemma_ink_join(seq![' '], word);
        assert(ink(seq![' ']) =~= Seq::<char>::empty()) by {
            reveal_with_fuel(Seq::filter, 2);
            assert(seq![' '].drop_last() =~= Seq::<char>::empty());
        }
        assert(Seq::<char>::empty() + ink(word) =~= ink(word));
    }
}

/// The ink of two texts put together.
pub proof fn lemma_ink_join(a: Seq<char>, b: Seq<char>)
    ensures
        ink(a + b) == ink(a) + ink(b),
{
    Seq::filter_distributes_over_add(a, b, |c: char| !white(c));
}

proof fn lemma_place_all_ink(ws: Seq<Seq<char>>, w: int)
    requires
        w >= 1,
    ensures
        ink(contents(place_all(ws, w))) == ink(flat(ws)),
    decreases ws.len(),
{
    if ws.len() > 0 {
        lemma_place_all_ink(ws.drop_last(), w);
        lemma_place_ink(place_all(ws.drop_last(), w), ws.last(), w);
        lemma_ink_join(flat(ws.drop_last()), ws.last());
    } else {
        assert(contents(place_all(ws, w)) =~= flat(ws));
    }
}

proof fn lemma_paragraphs_fit(ps: Seq<Seq<char>>, w: int)
    requires
        w >= 1,
    ensures
        forall|k: int|
            0 <= k < paragraphs_rows(ps, w).len() ==> (#[trigger] paragraphs_rows(ps, w)[k]).len()
                <= w,
    decreases ps.len(),
{
    if ps.len() > 0 {
        lemma_paragraphs_fit(ps.drop_last(), w);
        lemma_place_all_fits(words(ps.last()), w);
        let head = paragraphs_rows(ps.drop_last(), w);
        assert forall|k: int| 0 <= k < paragraphs_rows(ps, w).len() implies (
        #[trigger] paragraphs_rows(ps, w)[k]).len() <= w by {
            if k < head.len() {
                assert(paragraphs_rows(ps, w)[k] == head[k]);
            } else {
                assert(paragraphs_rows(ps, w)[k] == paragraph_rows(ps.last(), w)[k - head.len()]);
            }
        }
    }
}

proof fn lemma_blank_end_prefix(rows: Seq<Seq<char>>)
    ensures
        without_blank_end(rows).len() <= rows.len(),
        forall|k: int|
            0 <= k < without_blank_end(rows).len() ==> #[trigger] without_blank_end(rows)[k]
                == rows[k],
    decreases rows.len(),
{
    if rows.len() > 0 && rows.last().len() == 0 {
        lemma_blank_end_prefix(rows.drop_last());
    }
}

/// No row of a text wrapped line by line is wider than the width, which
/// counts as eight where it is less, and the last row is not empty.
pub proof fn wrapped_lines_fit(s: Seq<char>, width: int, k: int)
    requires
        0 <= k < wrapped_lines(s, width).len(),
    ensures
        wrapped_lines(s, width)[k].len() <= at_least(width, 8),
        wrapped_lines(s, width).last().len() > 0,
{
    let rows = paragraphs_rows(lines(s), at_least(width, 8));
    lemma_paragraphs_fit(lines(s), at_least(width, 8));
    lemma_blank_end_prefix(rows);
    lemma_blank_end_last(rows);
}

proof fn lemma_blank_end_last(rows: Seq<Seq<char>>)
    ensures
        without_blank_end(rows).len() > 0 ==> without_blank_end(rows).last().len() > 0,
    decreases rows.len(),
{
    if rows.len() > 0 && rows.last().len() == 0 {
        lemma_blank_end_last(rows.drop_last());
    }
}

proof fn lemma_flat_front(x: Seq<char>, rest: Seq<Seq<char>>)
    ensures
        flat(seq![x] + rest) == x + flat(rest),
    decreases rest.len(),
{
    if rest.len() == 0 {
        assert((seq![x] + rest).drop_last() =~= Seq::<Seq<char>>::empty());
        assert((seq![x] + rest).last() == x);
        assert(flat(Seq::<Seq<char>>::empty()) =~= Seq::<char>::empty());
        assert(flat(seq![x] + rest) =~= x + flat(rest));
    } else {
        lemma_flat_front(x, rest.drop_last());
        assert((seq![x] + rest).drop_last() =~= seq![x] + rest.drop_last());
        assert((seq![x] + rest).last() == rest.last());
        assert(x + flat(rest.drop_last()) + rest.last() =~= x + flat(rest));
    }
}

proof fn lemma_blank_ink(s: Seq<char>)
    requires
        forall|j: int| 0 <= j < s.len() ==> white(#[trigger] s[j]),
    ensures
        ink(s) == Seq::<char>::empty(),
    decreases s.len(),
{
    reveal(Seq::filter);
    if s.len() > 0 {
        lemma_blank_ink(s.drop_last());
        assert(white(s[s.len() - 1]));
    }
}

proof fn lemma_words_ink(s: Seq<char>, i: int)
    requires
        0 <= i <= s.len(),
    ensures
        ink(flat(words_from(s, i))) == ink(s.skip(i)),
    decreases s.len() - i,
{
    let a = skip_white(s, i);
    lemma_skip_white(s, i);
    let gap = s.subrange(i, a);
    lemma_blank_ink(gap);
    assert(s.skip(i) =~= gap + s.skip(a));
    lemma_ink_join(gap, s.skip(a));
    assert(Seq::<char>::empty() + ink(s.skip(a)) =~= ink(s.skip(a)));
    if a >= s.len() {
        assert(s.skip(a) =~= Seq::<char>::empty());
    } else {
        let b = skip_word(s, a);
        lemma_skip_word(s, a);
        let word = s.subrange(a, b);
        lemma_words_ink(s, b);
        lemma_flat_front(word, words_from(s, b));
        lemma_ink_join(word, flat(words_from(s, b)));
        assert(s.skip(a) =~= word + s.skip(b));
        lemma_ink_join(word, s.skip(b));
    }
}

/// Wrapping loses no character and adds none but blanks: the rows put
/// together hold the same characters outside white space, in the same order,
/// as the text.
pub proof fn wrapped_keeps_ink(s: Seq<char>, width: int)
    ensures
        ink(flat(wrapped(s, width))) == ink(s),
{
    lemma_words_ink(s, 0);
    assert(s.skip(0) =~= s);
    let f = place_all(words(s), at_least(width, 1));
    lemma_place_all_ink(words(s), at_least(width, 1));
    lemma_flat_push(f.rows, f.row);
    if f.row.len() == 0 {
        assert(contents(f) =~= flat(f.rows));
    }
}

// ---------------------------------------------------------------------------
// Wrapping what is wrapped
// ---------------------------------------------------------------------------

/// A word cut into parts of `w` characters, of which the last may have fewer.
spec fn cut(word: Seq<char>, w: int) -> Seq<Seq<char>>
    decreases word.len(),
{
    if w < 1 || word.len() <= w {
        seq![word]
    } else {
        seq![word.take(w)] + cut(word.skip(w), w)
    }
}

/// Words, of which each is cut.
spec fn cut_all(ws: Seq<Seq<char>>, w: int) -> Seq<Seq<char>>
    decreases ws.len(),
{
    if ws.len() == 0 {
        Seq::empty()
    } else {
        cut_all(ws.drop_last(), w) + cut(ws.last(), w)
    }
}

/// Whether a row can hold the word as it is.
spec fn small(word: Seq<char>, w: int) -> bool {
    &&& 0 < word.len() <= w
    &&& forall|j: int| 0 <= j < word.len() ==> !white(#[trigger] word[j])
}

spec fn all_small(ws: Seq<Seq<char>>, w: int) -> bool {
    forall|k: int| 0 <= k < ws.len() ==> small(#[trigger] ws[k], w)
}

proof fn lemma_place_cut(f: Filling, word: Seq<char>, w: int)
    requires
        w >= 1,
        word.len() > w,
    ensures
        place(f, word, w) == place(place(f, word.take(w), w), word.skip(w), w),
{
    let done = if f.row.len() > 0 {
        f.rows.push(f.row)
    } else {
        f.rows
    };
    assert(place(f, word.take(w), w) == (Filling { rows: done, row: word.take(w) }));
    assert(chop(done, word, w) == chop(done.push(word.take(w)), word.skip(w), w));
}

proof fn lemma_place_all_push(ws: Seq<Seq<char>>, word: Seq<char>, w: int)
    ensures
        place_all(ws.push(word), w) == place(place_all(ws, w), word, w),
{
    assert(ws.push(word).drop_last() =~= ws);
}

proof fn lemma_place_parts(ws: Seq<Seq<char>>, word: Seq<char>, w: int)
    requires
        w >= 1,
    ensures
        place_all(ws + cut(word, w), w) == place(place_all(ws, w), word, w),
    decreases word.len(),
{
    if word.len() <= w {
        assert(ws + cut(word, w) =~= ws.push(word));
        lemma_place_all_push(ws, word, w);
    } else {
        let head = word.take(w);
        lemma_place_parts(ws.push(head), word.skip(w), w);
        assert(ws + cut(word, w) =~= ws.push(head) + cut(word.skip(w), w));
        lemma_place_all_push(ws, head, w);
        lemma_place_cut(place_all(ws, w), word, w);
    }
}

proof fn lemma_place_all_parts(ws: Seq<Seq<char>>, w: int)
    requires
        w >= 1,
    ensures
        place_all(cut_all(ws, w), w) == place_all(ws, w),
    decreases ws.len(),
{
    if ws.len() > 0 {
        lemma_place_all_parts(ws.drop_last(), w);
        lemma_place_parts(cut_all(ws.drop_last(), w), ws.last(), w);
    }
}

proof fn lemma_cut_small(word: Seq<char>, w: int)
    requires
        w >= 1,
        word.len() > 0,
        forall|j: int| 0 <= j < word.len() ==> !white(#[trigger] word[j]),
    ensures
        all_small(cut(word, w), w),
    decreases word.len(),
{
    if word.len() > w {
        assert(small(word.take(w), w));
        let rest = word.skip(w);
        assert forall|j: int| 0 <= j < rest.len() implies !white(#[trigger] rest[j]) by {
            assert(rest[j] == word[w + j]);
        }
        lemma_cut_small(rest, w);
        assert forall|k: int| 0 <= k < cut(word, w).len() implies small(#[trigger] cut(word, w)[k], w) by {
            if k > 0 {
                assert(cut(word, w)[k] == cut(rest, w)[k - 1]);
            }
        }
    } else {
        assert(small(word, w));
    }
}

proof fn lemma_cut_all_small(ws: Seq<Seq<char>>, w: int)
    requires
        w >= 1,
        forall|k: int| 0 <= k < ws.len() ==> (#[trigger] ws[k]).len() > 0,
        forall|k: int, j: int| 0 <= k < ws.len() && 0 <= j < ws[k].len() ==> !white(#[trigger] ws[k][j]),
    ensures
        all_small(cut_all(ws, w), w),
    decreases ws.len(),
{
    if ws.len() > 0 {
        let front = ws.drop_last();
        assert forall|k: int, j: int| 0 <= k < front.len() && 0 <= j < front[k].len() implies !white(
            #[trigger] front[k][j],
        ) by {
            assert(front[k] == ws[k]);
        }
        lemma_cut_all_small(front, w);
        let word = ws.last();
        assert forall|j: int| 0 <= j < word.len() implies !white(#[trigger] word[j]) by {
            assert(word[j] == ws[ws.len() - 1][j]);
        }
        lemma_cut_small(word, w);
        assert forall|k: int| 0 <= k < cut_all(ws, w).len() implies small(#[trigger] cut_all(ws, w)[k], w) by {
            let n = cut_all(front, w).len();
            if k < n {
                assert(cut_all(ws, w)[k] == cut_all(front, w)[k]);
            } else {
                assert(cut_all(ws, w)[k] == cut(word, w)[k - n]);
            }
        }
    }
}

proof fn lemma_joined_push(a: Seq<Seq<char>>, x: Seq<char>)
    requires
        a.len() > 0,
    ensures
        joined(a.push(x), seq![' ']) == joined(a, seq![' ']) + seq![' '] + x,
{
    assert(a.push(x).drop_last() =~= a);
}

/// The rows of small words, put together again, are the words put together.
proof fn lemma_rows_joined(ws: Seq<Seq<char>>, w: int)
    requires
        w >= 1,
        all_small(ws, w),
    ensures
        joined(all_rows(place_all(ws, w)), seq![' ']) == joined(ws, seq![' ']),
        ws.len() > 0 ==> place_all(ws, w).row.len() > 0,
        words(joined(ws, seq![' '])) == ws,
    decreases ws.len(),
{
    let blank = seq![' '];
    let f = place_all(ws, w);
    if ws.len() == 0 {
        assert(all_rows(f) =~= seq![Seq::<char>::empty()]);
        assert(joined(all_rows(f), blank) =~= joined(ws, blank));
        assert(words(Seq::<char>::empty()) =~= Seq::empty());
    } else {
        let front = ws.drop_last();
        let word = ws.last();
        let g = place_all(front, w);
        assert(all_small(front, w)) by {
            assert forall|k: int| 0 <= k < front.len() implies small(#[trigger] front[k], w) by {
                assert(front[k] == ws[k]);
            }
        }
        assert(small(word, w));
        lemma_rows_joined(front, w);
        if front.len() == 0 {
            assert(f == (Filling { rows: Seq::empty(), row: word }));
            assert(all_rows(f) =~= seq![word]);
            assert(ws =~= seq![word]);
            lemma_one_word(word);
        } else {
            assert(front.push(word) =~= ws);
            lemma_joined_push(front, word);
            lemma_words_push(joined(front, blank), word);
            if g.row.len() + 1 + word.len() > w {
                lemma_joined_push(g.rows.push(g.row), word);
            } else {
                let row = g.row.push(' ') + word;
                if g.rows.len() > 0 {
                    lemma_joined_push(g.rows, g.row);
                    lemma_joined_push(g.rows, row);
                    let a = joined(g.rows, blank) + blank;
                    assert(a + row =~= a + g.row + blank + word);
                } else {
                    assert(g.rows.push(g.row) =~= seq![g.row]);
                    assert(g.rows.push(row) =~= seq![row]);
                    assert(row =~= g.row + blank + word);
                }
            }
        }
    }
}

/// To wrap the rows of a wrapped text, put together with blanks, gives the same
/// rows.
pub proof fn wrapping_is_settled(s: Seq<char>, width: int)
    ensures
        wrapped(joined(wrapped(s, width), seq![' ']), width) == wrapped(s, width),
{
    let w = at_least(width, 1);
    let ws = words(s);
    lemma_words_hold_ink(s, 0);
    lemma_cut_all_small(ws, w);
    lemma_place_all_parts(ws, w);
    lemma_rows_joined(cut_all(ws, w), w);
}

// ---------------------------------------------------------------------------
// Line breaks
// ---------------------------------------------------------------------------

/// Whether the last line of a text holds something besides white space.
pub open spec fn ends_in_ink(s: Seq<char>) -> bool {
    exists|k: int|
        0 <= k < s.len() && !white(#[trigger] s[k]) && forall|j: int| k < j < s.len() ==> s[j] != '\n'
}

proof fn lemma_lines_behind(a: Seq<char>, b: Seq<char>, i: int)
    requires
        0 <= i <= b.len(),
    ensures
        lines_from(a + b, a.len() + i) == lines_from(b, i),
    decreases b.len() - i,
{
    let s = a + b;
    let n = a.len();
    lemma_find_char(b, '\n', i);
    lemma_find_char(s, '\n', n + i);
    let e = find_char(b, '\n', i);
    let d = find_char(s, '\n', n + i);
    if i < b.len() {
        assert(d == n + e) by {
            if d < n + e {
                assert(s[d] == b[d - n]);
            }
            if n + e < d {
                assert(s[n + e] == b[e]);
            }
        }
        assert(s.subrange(n + i, n + e) =~= b.subrange(i, e));
        if e < b.len() {
            lemma_lines_behind(a, b, e + 1);
        }
    }
}

/// The lines of a text, of which the last loses its carriage return.
spec fn closed_lines(s: Seq<char>, i: int) -> Seq<Seq<char>> {
    let ls = lines_from(s, i);
    ls.drop_last().push(chomp(ls.last()))
}

proof fn lemma_lines_join(a: Seq<char>, b: Seq<char>, i: int, k: int)
    requires
        0 <= i <= k < a.len(),
        !white(a[k]),
        forall|j: int| k < j < a.len() ==> a[j] != '\n',
    ensures
        lines_from(a, i).len() > 0,
        lines_from(a + seq!['\n'] + b, i) == closed_lines(a, i) + lines(b),
        words(lines_from(a, i).last()).len() > 0,
    decreases a.len() - i,
{
    let t = a + seq!['\n'] + b;
    let n = a.len() as int;
    assert(t =~= a + (seq!['\n'] + b));
    assert(t[n] == '\n');
    lemma_find_char(a, '\n', i);
    lemma_find_char(t, '\n', i);
    let e = find_char(a, '\n', i);
    let d = find_char(t, '\n', i);
    assert(d == e) by {
        if d < e {
            assert(t[d] == a[d]);
        }
        if e < d {
            assert(e < n ==> t[e] == a[e]);
        }
    }
    if e < n {
        assert(e < k);
        lemma_lines_join(a, b, e + 1, k);
        let head = seq![chomp(a.subrange(i, e))];
        assert(t.subrange(i, e) =~= a.subrange(i, e));
        assert(lines_from(a, i) == head + lines_from(a, e + 1));
        assert(lines_from(a, i).last() == lines_from(a, e + 1).last());
        assert(head + (closed_lines(a, e + 1) + lines(b)) =~= closed_lines(a, i) + lines(b));
    } else {
        let last = a.subrange(i, n);
        assert(t.subrange(i, n) =~= last);
        lemma_lines_behind(a + seq!['\n'], b, 0);
        assert(lines_from(a, i) =~= seq![last]);
        assert(closed_lines(a, i) =~= seq![chomp(last)]);
        assert(last[k - i] == a[k]);
        lemma_skip_white(last, 0);
    }
}

proof fn lemma_chomp_words(s: Seq<char>)
    ensures
        words(chomp(s)) == words(s),
{
    if s.len() > 0 && s.last() == '\r' {
        assert(s.drop_last().push('\r') =~= s);
        lemma_words_white_end(s.drop_last(), '\r');
    }
}

proof fn lemma_paragraphs_add_up(a: Seq<Seq<char>>, b: Seq<Seq<char>>, w: int)
    ensures
        paragraphs_rows(a + b, w) == paragraphs_rows(a, w) + paragraphs_rows(b, w),
    decreases b.len(),
{
    if b.len() == 0 {
        assert(a + b =~= a);
        assert(paragraphs_rows(a, w) + paragraphs_rows(b, w) =~= paragraphs_rows(a, w));
    } else {
        lemma_paragraphs_add_up(a, b.drop_last(), w);
        assert((a + b).drop_last() =~= a + b.drop_last());
        assert(paragraphs_rows(a, w) + paragraphs_rows(b.drop_last(), w) + paragraph_rows(b.last(), w)
            =~= paragraphs_rows(a, w) + paragraphs_rows(b, w));
    }
}

proof fn lemma_blank_end_behind(a: Seq<Seq<char>>, b: Seq<Seq<char>>)
    requires
        a.len() > 0,
        a.last().len() > 0,
    ensures
        without_blank_end(a + b) == a + without_blank_end(b),
    decreases b.len(),
{
    if b.len() == 0 {
        assert(a + b =~= a);
        assert(a + without_blank_end(b) =~= a);
    } else {
        assert((a + b).last() == b.last());
        if b.last().len() == 0 {
            lemma_blank_end_behind(a, b.drop_last());
            assert((a + b).drop_last() =~= a + b.drop_last());
        }
    }
}

/// A line break divides the rows in two, where the line before it holds
/// something besides white space: the rows of what stands before it, and below
/// them the rows of what stands behind it.
pub proof fn line_break_divides(a: Seq<char>, b: Seq<char>, width: int)
    requires
        ends_in_ink(a),
    ensures
        wrapped_lines(a + seq!['\n'] + b, width) == wrapped_lines(a, width) + wrapped_lines(b, width),
{
    let w = at_least(width, 8);
    let k = choose|k: int|
        0 <= k < a.len() && !white(#[trigger] a[k]) && forall|j: int| k < j < a.len() ==> a[j] != '\n';
    lemma_lines_join(a, b, 0, k);
    let ls = lines(a);
    let last = ls.last();
    lemma_chomp_words(last);
    lemma_paragraphs_add_up(closed_lines(a, 0), lines(b), w);
    assert(closed_lines(a, 0).drop_last() =~= ls.drop_last());
    assert(paragraphs_rows(closed_lines(a, 0), w) == paragraphs_rows(ls, w));
    lemma_words_hold_ink(last, 0);
    let ws = words(last);
    let f = place_all(ws.drop_last(), w);
    let word = ws.last();
    assert(word == ws[ws.len() - 1]);
    if word.len() > w {
        if f.row.len() > 0 {
            lemma_chop(f.rows.push(f.row), word, w);
        } else {
            lemma_chop(f.rows, word, w);
        }
    }
    assert(place_all(ws, w).row.len() > 0);
    let rows = paragraphs_rows(ls, w);
    assert(rows.last() == place_all(ws, w).row);
    lemma_blank_end_behind(rows, paragraphs_rows(lines(b), w));
    assert(without_blank_end(rows) == rows);
}

} // verus!
