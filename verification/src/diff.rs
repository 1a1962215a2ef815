//! Diffs as styled rows: line numbers, a marker and the line itself.

use crate::models::{first_line_truncated, short_line};
use crate::palette::context_gray;
use crate::parts::{
    after_prefix, begins, number, parse_number, pieces, pieces_of, replace, replaced, starts_with,
    strip_prefix, texts, words, words_of,
};
use crate::style::{bg, blank, fg, line_text, ln, no_lines, plain, Color, Line, Lines, SpanView, Style};
use crate::text::{at_most, cat5, chars_of, dec, fill, minus, right, slice_of, text_dec, text_fill, text_right};
use vstd::prelude::*;

verus! {

broadcast use vstd::string::group_string_axioms;

#[verifier::allow_in_spec]
pub fn diff_gutter_fg() -> Color
    returns
        Color::Rgb(120, 120, 130),
{
    Color::Rgb(120, 120, 130)
}

/// The columns before a line's text.
pub const DIFF_GUTTER_W: usize = 11;

#[derive(Clone, Copy, Debug, PartialEq, Eq, Structural)]
pub enum DiffRowKind {
    Added,
    Removed,
    Context,
}

impl DiffRowKind {
    pub open spec fn mark(self) -> Seq<char> {
        match self {
            DiffRowKind::Added => "+"@,
            DiffRowKind::Removed => "-"@,
            DiffRowKind::Context => " "@,
        }
    }

    pub fn marker(self) -> (r: String)
        ensures
            r@ == self.mark(),
    {
        let m = match self {
            DiffRowKind::Added => "+",
            DiffRowKind::Removed => "-",
            DiffRowKind::Context => " ",
        };
        m.to_owned()
    }

    /// The background, where there is one, and the foreground of a row.
    #[verifier::allow_in_spec]
    pub fn palette(self) -> (Option<Color>, Color)
        returns
            (match self {
                DiffRowKind::Added => (Some(Color::Rgb(34, 92, 43)), Color::Rgb(180, 235, 190)),
                DiffRowKind::Removed => (Some(Color::Rgb(122, 41, 54)), Color::Rgb(245, 195, 200)),
                DiffRowKind::Context => (None, context_gray()),
            }),
    {
        match self {
            DiffRowKind::Added => (Some(Color::Rgb(34, 92, 43)), Color::Rgb(180, 235, 190)),
            DiffRowKind::Removed => (Some(Color::Rgb(122, 41, 54)), Color::Rgb(245, 195, 200)),
            DiffRowKind::Context => (None, context_gray()),
        }
    }
}

/// The first lines of the old and of the new file that a hunk header names:
/// its second word is a minus sign and a number, its third a plus sign and a
/// number, each as far as a comma.
pub open spec fn hunk_start(line: Seq<char>) -> Option<(u32, u32)> {
    let w = words(line);
    if w.len() < 3 {
        None
    } else {
        match (after_prefix(w[1], "-"@), after_prefix(w[2], "+"@)) {
            (Some(old), Some(new)) => match (
                number(pieces(old, ',')[0]),
                number(pieces(new, ',')[0]),
            ) {
                (Some(o), Some(n)) => Some((o, n)),
                _ => None,
            },
            _ => None,
        }
    }
}

fn first_number(s: &str) -> (r: Option<u32>)
    ensures
        r == number(pieces(s@, ',')[0]),
{
    let p = pieces_of(s, ',');
    assert(texts(p@)[0] == p@[0]@);
    parse_number(&p[0])
}

pub fn parse_hunk_header(line: &str) -> (r: Option<(u32, u32)>)
    ensures
        r == hunk_start(line@),
{
    let w = words_of(line);
    assert(texts(w@).len() == w@.len());
    if w.len() < 3 {
        return None;
    }
    assert(texts(w@)[1] == w@[1]@);
    assert(texts(w@)[2] == w@[2]@);
    let old = strip_prefix(&w[1], "-");
    let new = strip_prefix(&w[2], "+");
    match (old, new) {
        (Some(old), Some(new)) => match (first_number(&old), first_number(&new)) {
            (Some(o), Some(n)) => Some((o, n)),
            _ => None,
        },
        _ => None,
    }
}

pub open spec fn row_base(kind: DiffRowKind) -> Style {
    match kind.palette().0 {
        Some(b) => bg(b),
        None => plain(),
    }
}

pub open spec fn line_number(n: Option<u32>) -> Seq<char> {
    match n {
        None => "   "@,
        Some(v) => right(dec(v as nat), 3),
    }
}

fn number_text(n: Option<u32>) -> (r: String)
    ensures
        r@ == line_number(n),
{
    match n {
        None => "   ".to_owned(),
        Some(v) => text_right(&text_dec(v as u64), 3),
    }
}

/// The text of a row: tabs as four blanks, cut to what the gutter leaves.
pub open spec fn row_body(width: int, content: Seq<char>) -> Seq<char> {
    short_line(replaced(content, '\t', "    "@), minus(width, DIFF_GUTTER_W as int))
}

pub open spec fn body_style(kind: DiffRowKind) -> Style {
    if kind is Context {
        row_base(kind).with(kind.palette().1).dim()
    } else {
        row_base(kind).with(kind.palette().1)
    }
}

/// Blanks that carry the background of an added or removed row to the edge.
pub open spec fn row_fill(width: int, content: Seq<char>, kind: DiffRowKind) -> Seq<SpanView> {
    let pad = minus(minus(width, DIFF_GUTTER_W as int), row_body(width, content).len() as int);
    if kind !is Context && pad > 0 {
        ln(fill(' ', pad), row_base(kind))
    } else {
        blank()
    }
}

/// One line of a diff.
pub open spec fn row(
    width: int,
    old: Option<u32>,
    new: Option<u32>,
    content: Seq<char>,
    kind: DiffRowKind,
) -> Seq<SpanView> {
    let base = row_base(kind);
    ln(line_number(old), base.with(diff_gutter_fg())) + ln(" "@, base) + ln(
        line_number(new),
        base.with(diff_gutter_fg()),
    ) + ln(" "@, base) + ln(kind.mark(), base.with(kind.palette().1)) + ln("  "@, base) + ln(
        row_body(width, content),
        body_style(kind),
    ) + row_fill(width, content, kind)
}

pub fn diff_row(
    area_width: u16,
    old: Option<u32>,
    new: Option<u32>,
    content: &str,
    kind: DiffRowKind,
) -> (r: Line)
    ensures
        r@ == row(area_width as int, old, new, content@, kind),
{
    let (back, content_fg) = kind.palette();
    let base = match back {
        Some(b) => bg(b),
        None => plain(),
    };
    let mut l = Line::of(&number_text(old), base.with(diff_gutter_fg()));
    l.put(" ", base);
    l.put(&number_text(new), base.with(diff_gutter_fg()));
    l.put(" ", base);
    l.put(&kind.marker(), base.with(content_fg));
    l.put("  ", base);
    let avail: usize = (area_width as usize).saturating_sub(DIFF_GUTTER_W);
    let body = first_line_truncated(&replace(content, '\t', "    "), avail);
    let body_w: usize = body.as_str().unicode_len();
    let style = match kind {
        DiffRowKind::Context => base.with(content_fg).dim(),
        _ => base.with(content_fg),
    };
    l.put(&body, style);
    let pad: usize = avail.saturating_sub(body_w);
    let tail = match kind {
        DiffRowKind::Context => Line::empty(),
        _ => if pad > 0 {
            Line::of(&text_fill(' ', pad), base)
        } else {
            Line::empty()
        },
    };
    l.join(tail);
    l
}

pub open spec fn separator() -> Seq<SpanView> {
    ln(fill(' ', DIFF_GUTTER_W - 3), plain()) + ln("..."@, fg(diff_gutter_fg()).dim())
}

pub fn diff_separator_row() -> (r: Line)
    ensures
        r@ == separator(),
{
    let mut l = Line::of(&text_fill(' ', DIFF_GUTTER_W - 3), plain());
    l.put("...", fg(diff_gutter_fg()).dim());
    l
}

/// Lines of a diff that are neither hunk headers nor lines of a file.
pub open spec fn is_meta(s: Seq<char>) -> bool {
    ||| begins(s, "diff --git"@)
    ||| begins(s, "index "@)
    ||| begins(s, "--- "@)
    ||| begins(s, "+++ "@)
    ||| begins(s, "\\ No newline"@)
    ||| begins(s, "similarity index"@)
    ||| begins(s, "dissimilarity index"@)
    ||| begins(s, "rename from"@)
    ||| begins(s, "rename to"@)
    ||| begins(s, "copy from"@)
    ||| begins(s, "copy to"@)
    ||| begins(s, "new file mode"@)
    ||| begins(s, "deleted file mode"@)
    ||| begins(s, "old mode"@)
    ||| begins(s, "new mode"@)
    ||| begins(s, "Binary files"@)
    ||| begins(s, "GIT binary patch"@)
}

pub fn is_diff_meta_line(s: &str) -> (r: bool)
    ensures
        r == is_meta(s@),
{
    starts_with(s, "diff --git") || starts_with(s, "index ") || starts_with(s, "--- ")
        || starts_with(s, "+++ ") || starts_with(s, "\\ No newline") || starts_with(
        s,
        "similarity index",
    ) || starts_with(s, "dissimilarity index") || starts_with(s, "rename from") || starts_with(
        s,
        "rename to",
    ) || starts_with(s, "copy from") || starts_with(s, "copy to") || starts_with(s, "new file mode")
        || starts_with(s, "deleted file mode") || starts_with(s, "old mode") || starts_with(
        s,
        "new mode",
    ) || starts_with(s, "Binary files") || starts_with(s, "GIT binary patch")
}

// ---------------------------------------------------------------------------
// A whole diff
// ---------------------------------------------------------------------------

/// What has been read of a diff: the file it is about, how many lines it adds
/// and removes, the rows so far, the next line numbers, and whether no hunk
/// has begun.
#[verifier::ext_equal]
pub struct DiffState {
    pub path: Option<Seq<char>>,
    pub added: int,
    pub removed: int,
    pub rows: Seq<Seq<SpanView>>,
    pub old: int,
    pub new: int,
    pub first_hunk: bool,
}

/// One more line of a file, as 32 bits count them.
pub open spec fn count_on(n: int, by: int) -> int {
    at_most(n + by, u32::MAX as int)
}

/// The file that a line names, unless one was named before.
pub open spec fn named_path(path: Option<Seq<char>>, raw: Seq<char>) -> Option<Seq<char>> {
    match path {
        Some(p) => Some(p),
        None => match after_prefix(raw, "+++ b/"@) {
            Some(rest) => Some(rest),
            None => match after_prefix(raw, "+++ "@) {
                Some(rest) => if rest.len() > 0 && rest != "/dev/null"@ {
                    Some(rest)
                } else {
                    None
                },
                None => None,
            },
        },
    }
}

/// What kind of row a line of a hunk is, by its first character.
pub open spec fn line_kind(raw: Seq<char>) -> DiffRowKind {
    if raw.len() > 0 && raw[0] == '+' {
        DiffRowKind::Added
    } else if raw.len() > 0 && raw[0] == '-' {
        DiffRowKind::Removed
    } else {
        DiffRowKind::Context
    }
}

/// The line of the file that a line of a hunk holds.
pub open spec fn line_body(raw: Seq<char>) -> Seq<char> {
    if raw.len() > 0 && (raw[0] == '+' || raw[0] == '-' || raw[0] == ' ') {
        raw.skip(1)
    } else {
        raw
    }
}

pub open spec fn diff_step(s: DiffState, raw: Seq<char>, width: int) -> DiffState {
    let path = named_path(s.path, raw);
    if is_meta(raw) {
        DiffState { path, ..s }
    } else if begins(raw, "@@"@) {
        let (o, n) = match hunk_start(raw) {
            Some((o, n)) => (o as int, n as int),
            None => (s.old, s.new),
        };
        DiffState {
            path,
            old: o,
            new: n,
            rows: if s.first_hunk {
                s.rows
            } else {
                s.rows.push(separator())
            },
            first_hunk: false,
            ..s
        }
    } else {
        match line_kind(raw) {
            DiffRowKind::Added => DiffState {
                path,
                added: count_on(s.added, 1),
                rows: s.rows.push(
                    row(width, None, Some(s.new as u32), line_body(raw), DiffRowKind::Added),
                ),
                new: count_on(s.new, 1),
                ..s
            },
            DiffRowKind::Removed => DiffState {
                path,
                removed: count_on(s.removed, 1),
                rows: s.rows.push(
                    row(width, Some(s.old as u32), None, line_body(raw), DiffRowKind::Removed),
                ),
                old: count_on(s.old, 1),
                ..s
            },
            DiffRowKind::Context => DiffState {
                path,
                rows: s.rows.push(
                    row(
                        width,
                        Some(s.old as u32),
                        Some(s.new as u32),
                        line_body(raw),
                        DiffRowKind::Context,
                    ),
                ),
                old: count_on(s.old, 1),
                new: count_on(s.new, 1),
                ..s
            },
        }
    }
}

pub open spec fn diff_read(content: Seq<Seq<char>>, width: int) -> DiffState
    decreases content.len(),
{
    if content.len() == 0 {
        DiffState {
            path: None,
            added: 0,
            removed: 0,
            rows: no_lines(),
            old: 0,
            new: 0,
            first_hunk: true,
        }
    } else {
        diff_step(diff_read(content.drop_last(), width), content.last(), width)
    }
}

/// The file's name and how much changed, where the diff names a file.
pub open spec fn diff_head(s: DiffState) -> Seq<Seq<SpanView>> {
    match s.path {
        Some(p) => seq![ln(p, fg(Color::Rgb(140, 180, 230)).bold())] + seq![
            ln(
                "Added "@ + dec(s.added as nat) + " lines, removed "@ + dec(s.removed as nat) + " lines"@,
                fg(diff_gutter_fg()).bold(),
            ),
        ],
        None => no_lines(),
    }
}

/// The rows of a diff.
pub open spec fn diff_lines(content: Seq<Seq<char>>, width: int) -> Seq<Seq<SpanView>> {
    let s = diff_read(content, width);
    diff_head(s) + s.rows
}

fn next_path(path: &Option<String>, raw: &str) -> (r: Option<String>)
    ensures
        crate::models::opt(r) == named_path(crate::models::opt(*path), raw@),
{
    match path {
        Some(p) => Some(p.clone()),
        None => match strip_prefix(raw, "+++ b/") {
            Some(rest) => Some(rest),
            None => match strip_prefix(raw, "+++ ") {
                Some(rest) => if !rest.as_str().is_empty() && !crate::text::same(&rest, "/dev/null") {
                    Some(rest)
                } else {
                    None
                },
                None => None,
            },
        },
    }
}

fn body_of(raw: &str) -> (r: (DiffRowKind, String))
    ensures
        r.0 == line_kind(raw@),
        r.1@ == line_body(raw@),
{
    let v = chars_of(raw);
    if v.len() == 0 {
        return (DiffRowKind::Context, raw.to_owned());
    }
    let c: char = v[0];
    let rest = slice_of(&v, 1, v.len());
    assert(rest@ =~= raw@.skip(1));
    if c == '+' {
        (DiffRowKind::Added, rest)
    } else if c == '-' {
        (DiffRowKind::Removed, rest)
    } else if c == ' ' {
        (DiffRowKind::Context, rest)
    } else {
        (DiffRowKind::Context, raw.to_owned())
    }
}

/// The rows of a diff: a head that names the file and counts what changed,
/// then one row for each line of a hunk, with a gap between hunks.
#[verifier::rlimit(40)]
pub fn build_diff_lines(content: &Vec<String>, area_width: u16) -> (r: Lines)
    ensures
        r@ == diff_lines(texts(content@), area_width as int),
{
    let mut path: Option<String> = None;
    let mut added: u32 = 0;
    let mut removed: u32 = 0;
    let mut rows = Lines::none();
    let mut old: u32 = 0;
    let mut new: u32 = 0;
    let mut first_hunk: bool = true;
    let ghost all = texts(content@);
    let mut i: usize = 0;
    assert(all.take(0) =~= Seq::empty());
    while i < content.len()
        invariant
            i <= content@.len(),
            all == texts(content@),
            diff_read(all.take(i as int), area_width as int) == (DiffState {
                path: crate::models::opt(path),
                added: added as int,
                removed: removed as int,
                rows: rows@,
                old: old as int,
                new: new as int,
                first_hunk,
            }),
        decreases content@.len() - i,
    {
        let raw = content[i].as_str();
        let ghost before = DiffState {
            path: crate::models::opt(path),
            added: added as int,
            removed: removed as int,
            rows: rows@,
            old: old as int,
            new: new as int,
            first_hunk,
        };
        assert(all.take(i + 1).drop_last() =~= all.take(i as int));
        assert(all.take(i + 1).last() == raw@);
        assert(diff_read(all.take(i + 1), area_width as int) == diff_step(before, raw@, area_width as int));
        path = next_path(&path, raw);
        if is_diff_meta_line(raw) {
        } else if starts_with(raw, "@@") {
            match parse_hunk_header(raw) {
                Some((o, n)) => {
                    old = o;
                    new = n;
                },
                None => {},
            }
            if !first_hunk {
                let ghost was = rows@;
                rows.put(diff_separator_row());
                assert(rows@ =~= was.push(separator()));
            }
            first_hunk = false;
        } else {
            let (kind, body) = body_of(raw);
            let (o, n) = match kind {
                DiffRowKind::Added => (None, Some(new)),
                DiffRowKind::Removed => (Some(old), None),
                DiffRowKind::Context => (Some(old), Some(new)),
            };
            let ghost was = rows@;
            rows.put(diff_row(area_width, o, n, &body, kind));
            assert(rows@ =~= was.push(row(area_width as int, o, n, body@, kind)));
            match kind {
                DiffRowKind::Added => {
                    added = added.saturating_add(1);
                    new = new.saturating_add(1);
                },
                DiffRowKind::Removed => {
                    removed = removed.saturating_add(1);
                    old = old.saturating_add(1);
                },
                DiffRowKind::Context => {
                    old = old.saturating_add(1);
                    new = new.saturating_add(1);
                },
            }
        }
        i += 1;
    }
    assert(all.take(i as int) =~= all);
    let mut out = match &path {
        Some(p) => {
            let mut head = Lines::of(Line::of(p, fg(Color::Rgb(140, 180, 230)).bold()));
            head.put(
                Line::of(
                    &cat5(
                        "Added ",
                        &text_dec(added as u64),
                        " lines, removed ",
                        &text_dec(removed as u64),
                        " lines",
                    ),
                    fg(diff_gutter_fg()).bold(),
                ),
            );
            head
        },
        None => Lines::none(),
    };
    out.join(rows);
    out
}

/// The width decides how rows are cut, never how many there are, what they
/// are about or how they are counted.
pub proof fn diff_rows_at_any_width(content: Seq<Seq<char>>, a: int, b: int)
    ensures
        diff_lines(content, a).len() == diff_lines(content, b).len(),
        diff_read(content, a).added == diff_read(content, b).added,
        diff_read(content, a).removed == diff_read(content, b).removed,
        diff_read(content, a).path == diff_read(content, b).path,
{
    lemma_read_at_any_width(content, a, b);
}

proof fn lemma_read_at_any_width(content: Seq<Seq<char>>, a: int, b: int)
    ensures
        ({
            let s = diff_read(content, a);
            let t = diff_read(content, b);
            &&& s.path == t.path
            &&& s.added == t.added
            &&& s.removed == t.removed
            &&& s.rows.len() == t.rows.len()
            &&& s.old == t.old
            &&& s.new == t.new
            &&& s.first_hunk == t.first_hunk
        }),
    decreases content.len(),
{
    if content.len() > 0 {
        lemma_read_at_any_width(content.drop_last(), a, b);
    }
}

/// A diff has no more body rows than lines: each line gives at most one.
pub proof fn diff_row_per_line(content: Seq<Seq<char>>, width: int)
    ensures
        diff_read(content, width).rows.len() <= content.len(),
        diff_lines(content, width).len() <= content.len() + 2,
    decreases content.len(),
{
    if content.len() > 0 {
        diff_row_per_line(content.drop_last(), width);
    }
}

// ---------------------------------------------------------------------------
// What a diff is shown as
// ---------------------------------------------------------------------------

/// A line of a diff that begins with the character `c`, and is not the one that
/// begins with three of it and a blank and names a file.
pub open spec fn is_change(raw: Seq<char>, c: char) -> bool {
    raw.len() > 0 && raw[0] == c && !(raw.len() >= 4 && raw[1] == c && raw[2] == c && raw[3] == ' ')
}

/// How many lines of a diff there are of that kind.
pub open spec fn changes(content: Seq<Seq<char>>, c: char) -> int
    decreases content.len(),
{
    if content.len() == 0 {
        0
    } else {
        changes(content.drop_last(), c) + if is_change(content.last(), c) {
            1int
        } else {
            0int
        }
    }
}

proof fn lemma_change(raw: Seq<char>)
    ensures
        raw.len() > 0 && raw[0] == '+' ==> (is_meta(raw) <==> !is_change(raw, '+')) && !begins(raw, "@@"@),
        raw.len() > 0 && raw[0] == '-' ==> (is_meta(raw) <==> !is_change(raw, '-')) && !begins(raw, "@@"@),
        is_change(raw, '+') ==> !begins(raw, "+++ "@) && !begins(raw, "+++ b/"@),
{
    reveal_strlit("diff --git");
    reveal_strlit("index ");
    reveal_strlit("--- ");
    reveal_strlit("+++ ");
    reveal_strlit("\\ No newline");
    reveal_strlit("similarity index");
    reveal_strlit("dissimilarity index");
    reveal_strlit("rename from");
    reveal_strlit("rename to");
    reveal_strlit("copy from");
    reveal_strlit("copy to");
    reveal_strlit("new file mode");
    reveal_strlit("deleted file mode");
    reveal_strlit("old mode");
    reveal_strlit("new mode");
    reveal_strlit("Binary files");
    reveal_strlit("GIT binary patch");
    reveal_strlit("@@");
    reveal_strlit("+++ b/");
    if raw.len() > 0 && (raw[0] == '+' || raw[0] == '-') {
        assert forall|p: Seq<char>| p.len() > 0 && p[0] != raw[0] implies !#[trigger] begins(raw, p) by {
            if p.len() <= raw.len() {
                assert(raw.take(p.len() as int)[0] == raw[0]);
            }
        }
        let p = "+++ "@;
        let m = "--- "@;
        if raw.len() >= 4 {
            let t = raw.take(4);
            assert(t[0] == raw[0] && t[1] == raw[1] && t[2] == raw[2] && t[3] == raw[3]);
            assert(raw[1] == '+' && raw[2] == '+' && raw[3] == ' ' && raw[0] == '+' ==> t =~= p);
            assert(raw[1] == '-' && raw[2] == '-' && raw[3] == ' ' && raw[0] == '-' ==> t =~= m);
        }
        if raw.len() >= 6 {
            let t = raw.take(6);
            assert(t[0] == raw[0] && t[1] == raw[1] && t[2] == raw[2] && t[3] == raw[3]);
        }
    }
}

proof fn lemma_counts(content: Seq<Seq<char>>, width: int)
    ensures
        diff_read(content, width).added == at_most(changes(content, '+'), u32::MAX as int),
        diff_read(content, width).removed == at_most(changes(content, '-'), u32::MAX as int),
        0 <= changes(content, '+'),
        0 <= changes(content, '-'),
    decreases content.len(),
{
    if content.len() > 0 {
        lemma_counts(content.drop_last(), width);
        lemma_change(content.last());
    }
}

proof fn lemma_unnamed(content: Seq<Seq<char>>, width: int)
    requires
        forall|k: int| 0 <= k < content.len() ==> !begins(#[trigger] content[k], "+++ "@),
    ensures
        diff_read(content, width).path is None,
    decreases content.len(),
{
    if content.len() > 0 {
        lemma_unnamed(content.drop_last(), width);
        let raw = content.last();
        assert(raw == content[content.len() - 1]);
        reveal_strlit("+++ ");
        reveal_strlit("+++ b/");
        if begins(raw, "+++ b/"@) {
            assert(raw.take(4) =~= raw.take(6).take(4));
            assert("+++ b/"@.take(4) =~= "+++ "@);
        }
    }
}

proof fn lemma_named(content: Seq<Seq<char>>, i: int, file: Seq<char>, width: int)
    requires
        0 <= i < content.len(),
        content[i] == "+++ b/"@ + file,
        forall|k: int| 0 <= k < i ==> !begins(#[trigger] content[k], "+++ "@),
    ensures
        diff_read(content, width).path == Some(file),
    decreases content.len(),
{
    if i < content.len() - 1 {
        lemma_named(content.drop_last(), i, file, width);
    } else {
        let raw = content.last();
        lemma_unnamed(content.drop_last(), width);
        let p = "+++ b/"@;
        assert(raw.take(p.len() as int) =~= p);
        assert(raw.skip(p.len() as int) =~= file);
    }
}

/// The head of a diff names the first file that it gives a new version of, and
/// counts the lines that begin with a plus sign as added and those that begin
/// with a minus sign as removed.
pub proof fn head_counts_changes(content: Seq<Seq<char>>, i: int, file: Seq<char>, width: int)
    requires
        0 <= i < content.len(),
        content[i] == "+++ b/"@ + file,
        forall|k: int| 0 <= k < i ==> !begins(#[trigger] content[k], "+++ "@),
        changes(content, '+') <= u32::MAX,
        changes(content, '-') <= u32::MAX,
    ensures
        diff_lines(content, width).len() >= 2,
        line_text(diff_lines(content, width)[0]) == file,
        line_text(diff_lines(content, width)[1]) == "Added "@ + dec(changes(content, '+') as nat)
            + " lines, removed "@ + dec(changes(content, '-') as nat) + " lines"@,
{
    broadcast use crate::style::span_line_text;

    lemma_counts(content, width);
    lemma_named(content, i, file, width);
}

/// One more line that begins with a plus sign is a green row with a plus sign
/// and a new line number alone; one with a minus sign a red row with a minus sign
/// and an old line number alone. Rows above stay as they are.
pub proof fn changes_are_marked(content: Seq<Seq<char>>, raw: Seq<char>, width: int)
    requires
        is_change(raw, '+') || is_change(raw, '-'),
    ensures
        ({
            let before = diff_read(content, width).rows;
            let rows = diff_read(content.push(raw), width).rows;
            let r = rows.last();
            &&& rows == before.push(r)
            &&& diff_lines(content.push(raw), width).last() == r
            &&& r.len() >= 7
            &&& r[4].text == seq![raw[0]]
            &&& is_change(raw, '+') ==> r[0].text == seq![' ', ' ', ' '] && r[2].text != seq![' ', ' ', ' ']
            &&& is_change(raw, '-') ==> r[2].text == seq![' ', ' ', ' '] && r[0].text != seq![' ', ' ', ' ']
            &&& forall|k: int|
                0 <= k < r.len() ==> (#[trigger] r[k]).style.bg == Some(
                    if raw[0] == '+' {
                        Color::Rgb(34, 92, 43)
                    } else {
                        Color::Rgb(122, 41, 54)
                    },
                )
        }),
{
    let all = content.push(raw);
    assert(all.drop_last() =~= content);
    lemma_change(raw);
    reveal_strlit("   ");
    reveal_strlit("+");
    reveal_strlit("-");
    let s = diff_read(content, width);
    let r = diff_read(all, width).rows.last();
    assert("   "@ =~= seq![' ', ' ', ' ']);
    assert("+"@ =~= seq!['+']);
    assert("-"@ =~= seq!['-']);
    lemma_number_shows(s.new as u32);
    lemma_number_shows(s.old as u32);
    let kind = if raw[0] == '+' {
        DiffRowKind::Added
    } else {
        DiffRowKind::Removed
    };
    let old = if raw[0] == '+' {
        None
    } else {
        Some(s.old as u32)
    };
    let new = if raw[0] == '+' {
        Some(s.new as u32)
    } else {
        None
    };
    assert(r == row(width, old, new, line_body(raw), kind));
    assert(diff_lines(all, width).last() == r);
}

proof fn lemma_number_shows(n: u32)
    ensures
        line_number(Some(n)) != seq![' ', ' ', ' '],
{
    let d = dec(n as nat);
    let t = line_number(Some(n));
    assert(d.len() > 0);
    assert(t.last() == d.last());
    assert(d.last() == crate::text::digit((n % 10) as int));
    assert(crate::text::digit((n % 10) as int) != ' ') by {
        let k = (n % 10) as int;
        assert(48 <= 48 + k <= 57);
    }
}

/// A changed line stands in its row without its sign, where it has room.
pub proof fn changed_lines_are_shown(content: Seq<Seq<char>>, sign: char, line: Seq<char>, width: int)
    requires
        sign == '+' || sign == '-' || sign == ' ',
        is_change(seq![sign] + line, sign),
        !line.contains('\t'),
        !line.contains('\n'),
        line.len() > 0 ==> line.last() != '\r',
        line.len() + 11 <= width,
        sign == ' ' ==> !is_meta(seq![sign] + line) && !begins(seq![sign] + line, "@@"@),
    ensures
        diff_lines(content.push(seq![sign] + line), width).last()[6].text == line,
{
    let raw = seq![sign] + line;
    let all = content.push(raw);
    assert(all.drop_last() =~= content);
    lemma_change(raw);
    assert(raw.skip(1) =~= line);
    crate::parts::nothing_to_replace(line, '\t', "    "@);
    crate::models::short_line_keeps_the_first_line(line, Seq::empty(), width - 11);
    let s = diff_read(content, width);
    let t = diff_read(all, width);
    assert(diff_lines(all, width).last() == t.rows.last());
}

/// Whether lines belong to one hunk: none is a header or about the file.
pub open spec fn one_hunk(body: Seq<Seq<char>>) -> bool {
    forall|k: int| 0 <= k < body.len() ==> !is_meta(#[trigger] body[k]) && !begins(body[k], "@@"@)
}

/// How many lines of a hunk there are besides those with this sign.
pub open spec fn lines_without(body: Seq<Seq<char>>, sign: char) -> int
    decreases body.len(),
{
    if body.len() == 0 {
        0
    } else {
        lines_without(body.drop_last(), sign) + if body.last().len() > 0 && body.last()[0] == sign {
            0int
        } else {
            1int
        }
    }
}

/// Behind a header that gives the first lines of the two files, every line of the
/// hunk but an added one counts in the old file, and every one but a removed one
/// in the new file.
pub proof fn hunks_count_lines_of_both_files(
    content: Seq<Seq<char>>,
    header: Seq<char>,
    body: Seq<Seq<char>>,
    width: int,
)
    requires
        begins(header, "@@"@),
        !is_meta(header),
        hunk_start(header) is Some,
        one_hunk(body),
    ensures
        ({
            let s = diff_read(content.push(header) + body, width);
            let (o, n) = hunk_start(header)->Some_0;
            &&& s.old == at_most(o + lines_without(body, '+'), u32::MAX as int)
            &&& s.new == at_most(n + lines_without(body, '-'), u32::MAX as int)
            &&& lines_without(body, '+') >= 0 && lines_without(body, '-') >= 0
        }),
    decreases body.len(),
{
    let all = content.push(header) + body;
    if body.len() == 0 {
        assert(all =~= content.push(header));
        assert(content.push(header).drop_last() =~= content);
    } else {
        let front = body.drop_last();
        assert forall|k: int| 0 <= k < front.len() implies !is_meta(#[trigger] front[k]) && !begins(
            front[k],
            "@@"@,
        ) by {
            assert(front[k] == body[k]);
        }
        hunks_count_lines_of_both_files(content, header, front, width);
        assert(all.drop_last() =~= content.push(header) + front);
        assert(all.last() == body[body.len() - 1]);
    }
}

/// The numbers in the last row of a hunk: those of the line in the old and in
/// the new file, as far as it stands in them.
pub proof fn rows_are_numbered(
    content: Seq<Seq<char>>,
    header: Seq<char>,
    body: Seq<Seq<char>>,
    raw: Seq<char>,
    width: int,
)
    requires
        begins(header, "@@"@),
        !is_meta(header),
        hunk_start(header) is Some,
        one_hunk(body),
        !is_meta(raw),
        !begins(raw, "@@"@),
        hunk_start(header)->Some_0.0 + lines_without(body, '+') <= u32::MAX,
        hunk_start(header)->Some_0.1 + lines_without(body, '-') <= u32::MAX,
    ensures
        ({
            let r = diff_lines(content.push(header) + body.push(raw), width).last();
            let (o, n) = hunk_start(header)->Some_0;
            let added = raw.len() > 0 && raw[0] == '+';
            let removed = raw.len() > 0 && raw[0] == '-';
            &&& !added ==> r[0].text == right(dec((o + lines_without(body, '+')) as nat), 3)
            &&& !removed ==> r[2].text == right(dec((n + lines_without(body, '-')) as nat), 3)
            &&& !added && !removed ==> r[0].style.bg is None
        }),
{
    let before = content.push(header) + body;
    let all = content.push(header) + body.push(raw);
    hunks_count_lines_of_both_files(content, header, body, width);
    assert(all.drop_last() =~= before);
    assert(all.last() == raw);
    let t = diff_read(all, width);
    assert(diff_lines(all, width).last() == t.rows.last());
}

/// Between two hunks stands a gap of three dots, before the first none.
pub proof fn hunks_are_set_apart(content: Seq<Seq<char>>, header: Seq<char>, width: int)
    requires
        begins(header, "@@"@),
        !is_meta(header),
    ensures
        ({
            let first = forall|k: int|
                0 <= k < content.len() ==> is_meta(#[trigger] content[k]) || !begins(content[k], "@@"@);
            let before = diff_read(content, width).rows;
            let rows = diff_read(content.push(header), width).rows;
            &&& first ==> rows == before
            &&& !first ==> rows.len() == before.len() + 1 && rows.take(before.len() as int) == before
                && line_text(rows.last()) == seq![' ', ' ', ' ', ' ', ' ', ' ', ' ', ' ', '.', '.', '.']
        }),
{
    broadcast use {crate::style::joined_line_text, crate::style::span_line_text};

    assert(content.push(header).drop_last() =~= content);
    lemma_first_hunk(content, width);
    let before = diff_read(content, width).rows;
    assert(before.push(separator()).take(before.len() as int) =~= before);
    reveal_strlit("...");
    assert(line_text(separator()) =~= seq![' ', ' ', ' ', ' ', ' ', ' ', ' ', ' ', '.', '.', '.']);
}

proof fn lemma_first_hunk(content: Seq<Seq<char>>, width: int)
    ensures
        diff_read(content, width).first_hunk <==> (forall|k: int|
            0 <= k < content.len() ==> is_meta(#[trigger] content[k]) || !begins(content[k], "@@"@)),
    decreases content.len(),
{
    if content.len() > 0 {
        let front = content.drop_last();
        lemma_first_hunk(front, width);
        let last = content[content.len() - 1];
        assert(content.last() == last);
        if diff_read(front, width).first_hunk {
            assert forall|k: int| 0 <= k < front.len() implies is_meta(#[trigger] content[k]) || !begins(
                content[k],
                "@@"@,
            ) by {
                assert(front[k] == content[k]);
            }
        } else {
            let k = choose|k: int|
                0 <= k < front.len() && !(is_meta(#[trigger] front[k]) || !begins(front[k], "@@"@));
            assert(content[k] == front[k]);
        }
    }
}

/// Lines about the files, and not of them, have no row and change no count.
pub proof fn lines_about_files_have_no_row(content: Seq<Seq<char>>, start: Seq<char>, rest: Seq<char>, width: int)
    requires
        start == "diff --git"@
            || start == "index "@
            || start == "--- "@
            || start == "+++ "@
            || start == "\\ No newline"@
            || start == "similarity index"@
            || start == "dissimilarity index"@
            || start == "rename from"@
            || start == "rename to"@
            || start == "copy from"@
            || start == "copy to"@
            || start == "new file mode"@
            || start == "deleted file mode"@
            || start == "old mode"@
            || start == "new mode"@
            || start == "Binary files"@
            || start == "GIT binary patch"@,
    ensures
        diff_read(content.push(start + rest), width).rows == diff_read(content, width).rows,
        diff_read(content.push(start + rest), width).added == diff_read(content, width).added,
        diff_read(content.push(start + rest), width).removed == diff_read(content, width).removed,
{
    let raw = start + rest;
    assert(content.push(raw).drop_last() =~= content);
    assert(raw.take(start.len() as int) =~= start);
    assert(begins(raw, start));
}

} // verus!
