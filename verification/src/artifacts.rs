//! The artifacts of a task: what kind of card shows one, and what the card
//! holds.

use crate::diff::{build_diff_lines, diff_lines};
use crate::palette::{faint_purple_gray, faint_text};
use crate::parts::{begins, lines, lines_of, lower_ascii, lowered, starts_with, texts};
use crate::style::{blank, fg, line_text, ln, no_lines, Color, Line, Lines, SpanView};
use crate::text::{at_most, cat2, cat3, cat5, dec, minus, plural, same, text_count, text_plural};
use vstd::prelude::*;
use vstd::utf8::{decode_utf8, valid_utf8};

verus! {

broadcast use vstd::string::group_string_axioms;

/// A file or a link that a task has to show.
#[derive(Debug)]
pub struct Artifact {
    pub kind: String,
    pub path: String,
    pub caption: Option<String>,
}

/// How an artifact is shown.
#[derive(Clone, Copy, Debug, PartialEq, Eq, Structural)]
pub enum CardKind {
    Image,
    Video,
    Text,
    Diff,
    Url,
    Fallback,
}

// ---------------------------------------------------------------------------
// Paths
// ---------------------------------------------------------------------------

/// What `Path::extension` finds in a path.
pub uninterp spec fn path_extension(path: Seq<char>) -> Option<Seq<char>>;

/// `std::path::Path::extension`, a function of the path alone.
#[verifier::external_body]
fn extension(path: &str) -> (r: Option<String>)
    ensures
        crate::models::opt(r) == path_extension(path@),
{
    Some(std::path::Path::new(path).extension()?.to_str()?.to_string())
}

/// What `Path::file_name` finds in a path.
pub uninterp spec fn path_file_name(path: Seq<char>) -> Option<Seq<char>>;

/// `std::path::Path::file_name`, a function of the path alone.
#[verifier::external_body]
fn file_name(path: &str) -> (r: Option<String>)
    ensures
        crate::models::opt(r) == path_file_name(path@),
{
    Some(std::path::Path::new(path).file_name()?.to_string_lossy().into_owned())
}

/// The last part of a path for a file name found in it, or the whole path.
pub open spec fn name_or_path(name: Option<Seq<char>>, path: Seq<char>) -> Seq<char> {
    match name {
        Some(n) => n,
        None => path,
    }
}

pub open spec fn basename(path: Seq<char>) -> Seq<char> {
    name_or_path(path_file_name(path), path)
}

pub fn basename_of(path: &str) -> (r: String)
    ensures
        r@ == basename(path@),
{
    match file_name(path) {
        Some(n) => n,
        None => path.to_owned(),
    }
}

// ---------------------------------------------------------------------------
// Kinds
// ---------------------------------------------------------------------------

/// The card of an artifact: links first, then by the kind that it was given,
/// then by the extension of its path. Case does not matter.
pub open spec fn card_of(kind: Seq<char>, path: Seq<char>, extension: Option<Seq<char>>) -> CardKind {
    let k = lowered(kind);
    let e = match extension {
        Some(e) => lowered(e),
        None => Seq::empty(),
    };
    if begins(path, "http://"@) || begins(path, "https://"@) || k == "url"@ {
        CardKind::Url
    } else if k == "screenshot"@ || k == "image"@ || k == "photo"@ {
        CardKind::Image
    } else if k == "video"@ {
        CardKind::Video
    } else if k == "diff"@ || k == "patch"@ {
        CardKind::Diff
    } else if k == "log"@ || k == "build"@ || k == "test"@ || k == "text"@ || k == "output"@ || k
        == "note"@ {
        CardKind::Text
    } else if e == "png"@ || e == "jpg"@ || e == "jpeg"@ || e == "gif"@ || e == "webp"@ || e
        == "bmp"@ {
        CardKind::Image
    } else if e == "mp4"@ || e == "mov"@ || e == "webm"@ || e == "mkv"@ {
        CardKind::Video
    } else if e == "diff"@ || e == "patch"@ {
        CardKind::Diff
    } else if e == "log"@ || e == "txt"@ || e == "md"@ || e == "json"@ || e == "yaml"@ || e
        == "yml"@ {
        CardKind::Text
    } else {
        CardKind::Fallback
    }
}

/// The card of an artifact whose path has the given extension.
pub fn classify(kind: &str, path: &str, extension: &Option<String>) -> (r: CardKind)
    ensures
        r == card_of(kind@, path@, crate::models::opt(*extension)),
{
    let k = lower_ascii(kind);
    let e = match extension {
        Some(e) => lower_ascii(e),
        None => String::new(),
    };
    if starts_with(path, "http://") || starts_with(path, "https://") || same(&k, "url") {
        CardKind::Url
    } else if same(&k, "screenshot") || same(&k, "image") || same(&k, "photo") {
        CardKind::Image
    } else if same(&k, "video") {
        CardKind::Video
    } else if same(&k, "diff") || same(&k, "patch") {
        CardKind::Diff
    } else if same(&k, "log") || same(&k, "build") || same(&k, "test") || same(&k, "text") || same(
        &k,
        "output",
    ) || same(&k, "note") {
        CardKind::Text
    } else if same(&e, "png") || same(&e, "jpg") || same(&e, "jpeg") || same(&e, "gif") || same(
        &e,
        "webp",
    ) || same(&e, "bmp") {
        CardKind::Image
    } else if same(&e, "mp4") || same(&e, "mov") || same(&e, "webm") || same(&e, "mkv") {
        CardKind::Video
    } else if same(&e, "diff") || same(&e, "patch") {
        CardKind::Diff
    } else if same(&e, "log") || same(&e, "txt") || same(&e, "md") || same(&e, "json") || same(
        &e,
        "yaml",
    ) || same(&e, "yml") {
        CardKind::Text
    } else {
        CardKind::Fallback
    }
}

pub open spec fn artifact_card(a: Artifact) -> CardKind {
    card_of(a.kind@, a.path@, path_extension(a.path@))
}

pub fn classify_artifact(a: &Artifact) -> (r: CardKind)
    ensures
        r == artifact_card(*a),
{
    let e = extension(&a.path);
    classify(&a.kind, &a.path, &e)
}

/// The rows of a card below its header.
#[verifier::allow_in_spec]
pub fn card_body_height(kind: CardKind) -> u16
    returns
        (match kind {
            CardKind::Image => 10u16,
            CardKind::Text => 12u16,
            CardKind::Diff => 14u16,
            CardKind::Video => 2u16,
            CardKind::Url => 2u16,
            CardKind::Fallback => 1u16,
        }),
{
    match kind {
        CardKind::Image => 10,
        CardKind::Text => 12,
        CardKind::Diff => 14,
        CardKind::Video => 2,
        CardKind::Url => 2,
        CardKind::Fallback => 1,
    }
}

/// The rows of the lead card, which has more room for images and text.
#[verifier::allow_in_spec]
pub fn lead_card_body_height(kind: CardKind) -> u16
    returns
        (match kind {
            CardKind::Image => 18u16,
            CardKind::Text => 16u16,
            _ => card_body_height(kind),
        }),
{
    match kind {
        CardKind::Image => 18,
        CardKind::Text => 16,
        _ => card_body_height(kind),
    }
}

// ---------------------------------------------------------------------------
// Excerpts
// ---------------------------------------------------------------------------

/// What `String::from_utf8_lossy` reads in bytes.
pub uninterp spec fn utf8_lossy(bytes: Seq<u8>) -> Seq<char>;

/// `String::from_utf8_lossy`, a function of the bytes alone. Of valid UTF-8
/// it gives the text; what it puts in place of other bytes is not stated.
#[verifier::external_body]
pub(crate) fn from_utf8_lossy(bytes: &[u8]) -> (r: String)
    ensures
        r@ == utf8_lossy(bytes@),
        valid_utf8(bytes@) ==> r@ == decode_utf8(bytes@),
{
    String::from_utf8_lossy(bytes).into_owned()
}

/// A byte that text does not hold: a control other than line feed, carriage
/// return and tab.
pub open spec fn is_binary_byte(b: u8) -> bool {
    b < 0x20 && b != 0x0a && b != 0x0d && b != 0x09
}

/// How many bytes of `s` text does not hold.
pub open spec fn binary_bytes(s: Seq<u8>) -> int
    decreases s.len(),
{
    if s.len() == 0 {
        0
    } else {
        binary_bytes(s.drop_last()) + if is_binary_byte(s.last()) {
            1int
        } else {
            0int
        }
    }
}

/// More than one in twenty of the first 1024 bytes are none of text.
pub open spec fn looks_binary(s: Seq<u8>) -> bool {
    let probe = at_most(s.len() as int, 1024);
    binary_bytes(s.take(probe)) * 20 > probe
}

/// How many line feeds `s` holds.
pub open spec fn line_feeds(s: Seq<u8>) -> int
    decreases s.len(),
{
    if s.len() == 0 {
        0
    } else {
        line_feeds(s.drop_last()) + if s.last() == 0x0a {
            1int
        } else {
            0int
        }
    }
}

/// The bytes of an excerpt.
pub open spec fn excerpt_bytes(bytes: Seq<u8>, max: int) -> Seq<u8> {
    bytes.take(at_most(bytes.len() as int, max))
}

/// The lines of an excerpt whose text was read as `head`, and how many more the
/// file is taken to have: one more than its line feeds, less those lines. A file
/// that ends in a line feed is so taken to have a line too many, and the number
/// is 1 though all of it was read. There is none of what looks binary.
pub open spec fn excerpt(bytes: Seq<u8>, head: Seq<char>) -> Option<(Seq<Seq<char>>, int)> {
    if looks_binary(bytes) {
        None
    } else {
        Some((lines(head), minus(line_feeds(bytes) + 1, lines(head).len() as int)))
    }
}

fn count_binary(bytes: &Vec<u8>, n: usize) -> (r: usize)
    requires
        n <= bytes@.len(),
    ensures
        r == binary_bytes(bytes@.take(n as int)),
        r <= n,
{
    let mut c: usize = 0;
    let mut i: usize = 0;
    while i < n
        invariant
            i <= n <= bytes@.len(),
            c == binary_bytes(bytes@.take(i as int)),
            c <= i,
        decreases n - i,
    {
        let b: u8 = bytes[i];
        if b < 0x20 && b != 0x0a && b != 0x0d && b != 0x09 {
            c += 1;
        }
        i += 1;
        assert(bytes@.take(i as int).drop_last() =~= bytes@.take(i - 1));
        assert(bytes@.take(i as int).last() == b);
    }
    c
}

fn count_feeds(bytes: &Vec<u8>) -> (r: usize)
    ensures
        r == line_feeds(bytes@),
        r <= bytes@.len(),
{
    let mut c: usize = 0;
    let mut i: usize = 0;
    while i < bytes.len()
        invariant
            i <= bytes@.len(),
            c == line_feeds(bytes@.take(i as int)),
            c <= i,
        decreases bytes@.len() - i,
    {
        let b: u8 = bytes[i];
        if b == 0x0a {
            c += 1;
        }
        i += 1;
        assert(bytes@.take(i as int).drop_last() =~= bytes@.take(i - 1));
        assert(bytes@.take(i as int).last() == b);
    }
    assert(bytes@.take(i as int) =~= bytes@);
    c
}

/// The excerpt of a file whose first bytes read as `head`.
pub fn excerpt_of(bytes: &Vec<u8>, head: &str) -> (r: Option<(Vec<String>, usize)>)
    requires
        bytes@.len() < usize::MAX,
    ensures
        match r {
            None => excerpt(bytes@, head@) is None,
            Some((v, n)) => excerpt(bytes@, head@) == Some((texts(v@), n as int)),
        },
{
    let probe: usize = if bytes.len() < 1024 {
        bytes.len()
    } else {
        1024
    };
    if count_binary(bytes, probe) * 20 > probe {
        return None;
    }
    let total: usize = count_feeds(bytes) + 1;
    let v = lines_of(head);
    assert(texts(v@).len() == v@.len());
    let cut: usize = total.saturating_sub(v.len());
    Some((v, cut))
}

/// The lines in the first `max_bytes` bytes of a file and how many lines it
/// has beyond them, or nothing where it looks binary.
pub fn read_text_excerpt(bytes: &Vec<u8>, max_bytes: usize) -> (r: Option<(Vec<String>, usize)>)
    requires
        bytes@.len() < usize::MAX,
    ensures
        match r {
            None => excerpt(bytes@, utf8_lossy(excerpt_bytes(bytes@, max_bytes as int))) is None,
            Some((v, n)) => excerpt(bytes@, utf8_lossy(excerpt_bytes(bytes@, max_bytes as int)))
                == Some((texts(v@), n as int)),
        },
{
    let take: usize = if bytes.len() < max_bytes {
        bytes.len()
    } else {
        max_bytes
    };
    let part = vstd::slice::slice_subrange(bytes.as_slice(), 0, take);
    assert(part@ =~= excerpt_bytes(bytes@, max_bytes as int));
    let head = from_utf8_lossy(part);
    excerpt_of(bytes, &head)
}

// ---------------------------------------------------------------------------
// Cards
// ---------------------------------------------------------------------------

pub open spec fn lead_mark(is_lead: bool) -> Seq<SpanView> {
    if is_lead {
        ln(" · "@, fg(Color::DarkGray)) + ln("lead"@, fg(Color::Rgb(150, 195, 160)))
    } else {
        blank()
    }
}

pub open spec fn caption_mark(caption: Option<Seq<char>>) -> Seq<SpanView> {
    match caption {
        Some(c) => ln(" · "@, fg(Color::DarkGray)) + ln(c, fg(faint_text())),
        None => blank(),
    }
}

/// The header of a card: a stripe where it is selected, the artifact's kind
/// and name, and its caption.
pub open spec fn card_header(
    a: Artifact,
    name: Seq<char>,
    selected: bool,
    is_lead: bool,
) -> Seq<SpanView> {
    (if selected {
        ln("▌ "@, fg(Color::LightCyan))
    } else {
        ln("  "@, fg(Color::DarkGray))
    }) + ln(a.kind@, fg(Color::LightMagenta)) + ln(" · "@, fg(Color::DarkGray)) + ln(
        name,
        if selected {
            fg(Color::White).bold()
        } else {
            fg(Color::Gray)
        },
    ) + lead_mark(is_lead) + caption_mark(crate::models::filled(a.caption))
}

/// The header of a card for an artifact of the given name.
pub fn named_card_header(a: &Artifact, name: &str, selected: bool, is_lead: bool) -> (r: Line)
    ensures
        r@ == card_header(*a, name@, selected, is_lead),
{
    let mut l = if selected {
        Line::of("▌ ", fg(Color::LightCyan))
    } else {
        Line::of("  ", fg(Color::DarkGray))
    };
    l.put(&a.kind, fg(Color::LightMagenta));
    l.put(" · ", fg(Color::DarkGray));
    let name_style = if selected {
        fg(Color::White).bold()
    } else {
        fg(Color::Gray)
    };
    l.put(name, name_style);
    let mark = if is_lead {
        let mut m = Line::of(" · ", fg(Color::DarkGray));
        m.put("lead", fg(Color::Rgb(150, 195, 160)));
        m
    } else {
        Line::empty()
    };
    l.join(mark);
    let caption = match crate::models::filled_of(&a.caption) {
        Some(c) => {
            let mut m = Line::of(" · ", fg(Color::DarkGray));
            m.put(&c, fg(faint_text()));
            m
        },
        None => Line::empty(),
    };
    l.join(caption);
    l
}

pub fn evidence_card_header(a: &Artifact, selected: bool, is_lead: bool) -> (r: Line)
    ensures
        r@ == card_header(*a, basename(a.path@), selected, is_lead),
{
    let name = basename_of(&a.path);
    named_card_header(a, &name, selected, is_lead)
}

pub open spec fn cut_footer(n: int) -> Seq<SpanView> {
    ln(
        "  … (truncated, "@ + dec(n as nat) + " more line"@ + plural(n) + ")"@,
        fg(Color::DarkGray).italic(),
    )
}

pub fn truncated_footer(n: usize) -> (r: Line)
    ensures
        r@ == cut_footer(n as int),
{
    Line::of(
        &cat5("  … (truncated, ", &text_count(n), " more line", &text_plural(n), ")"),
        fg(Color::DarkGray).italic(),
    )
}

/// What fits of `rows` on `height` rows from row `start` on. Where rows are
/// left below, or lines that were never read, the last row says how many.
pub open spec fn window(
    rows: Seq<Seq<SpanView>>,
    truncated: int,
    height: int,
    scroll: int,
) -> Seq<Seq<SpanView>> {
    let start = at_most(scroll, rows.len() as int);
    let hidden = minus(rows.len() as int, start + height) + truncated;
    let shown = minus(
        height,
        if hidden > 0 {
            1
        } else {
            0
        },
    );
    rows.subrange(start, at_most(start + shown, rows.len() as int)) + if hidden > 0 {
        seq![cut_footer(hidden)]
    } else {
        no_lines()
    }
}

/// A card never takes more rows than it has.
pub proof fn window_fits(rows: Seq<Seq<SpanView>>, truncated: int, height: int, scroll: int)
    requires
        0 <= truncated,
        0 < height,
        0 <= scroll,
    ensures
        window(rows, truncated, height, scroll).len() <= height,
{
}

/// A card that is scrolled far enough ends with the last of its rows, where no
/// further lines are taken to be cut off.
pub proof fn window_reaches_the_end(rows: Seq<Seq<SpanView>>, height: int, scroll: int)
    requires
        0 <= scroll < rows.len(),
        rows.len() <= scroll + height,
    ensures
        window(rows, 0, height, scroll) == rows.skip(scroll),
        window(rows, 0, height, scroll).last() == rows.last(),
{
    assert(window(rows, 0, height, scroll) =~= rows.skip(scroll));
}

fn build_window(rows: &Lines, truncated: usize, height: u16, scroll: usize) -> (r: Lines)
    requires
        rows@.len() + truncated <= usize::MAX,
    ensures
        r@ == window(rows@, truncated as int, height as int, scroll as int),
{
    let n: usize = rows.len();
    let start: usize = if scroll < n {
        scroll
    } else {
        n
    };
    let rest: usize = n - start;
    let h: usize = height as usize;
    let hidden: usize = rest.saturating_sub(h) + truncated;
    let shown: usize = h.saturating_sub(
        if hidden > 0 {
            1
        } else {
            0
        },
    );
    let end: usize = if shown < rest {
        start + shown
    } else {
        n
    };
    let mut out = Lines::none();
    let mut i: usize = start;
    assert(out@ =~= rows@.subrange(start as int, start as int));
    while i < end
        invariant
            start <= i <= end <= n,
            n == rows@.len(),
            n == rows.rows@.len(),
            out@ == rows@.subrange(start as int, i as int),
        decreases end - i,
    {
        out.put(rows.rows[i].copy());
        i += 1;
        assert(out@ =~= rows@.subrange(start as int, i as int));
    }
    if hidden > 0 {
        out.put(truncated_footer(hidden));
    } else {
        assert(out@ + no_lines() =~= out@);
    }
    out
}

pub open spec fn text_rows(content: Seq<Seq<char>>) -> Seq<Seq<SpanView>> {
    content.map_values(|s: Seq<char>| ln("  "@ + s, fg(Color::Gray)))
}

fn build_text_rows(content: &Vec<String>) -> (r: Lines)
    ensures
        r@ == text_rows(texts(content@)),
{
    let mut out = Lines::none();
    let ghost rows = text_rows(texts(content@));
    let mut i: usize = 0;
    assert(out@ =~= rows.take(0));
    while i < content.len()
        invariant
            i <= content@.len(),
            rows == text_rows(texts(content@)),
            out@ == rows.take(i as int),
        decreases content@.len() - i,
    {
        out.put(Line::of(&cat2("  ", &content[i]), fg(Color::Gray)));
        i += 1;
        assert(out@ =~= rows.take(i as int));
    }
    assert(rows.take(i as int) =~= rows);
    out
}

/// What a card says of a file that has no excerpt: that it is binary where it
/// is there, else that it cannot be read.
pub open spec fn no_excerpt(path: Seq<char>, exists: bool) -> Seq<Seq<SpanView>> {
    if exists {
        seq![ln("  (binary file — open externally with `o`)"@, fg(Color::DarkGray))]
    } else {
        seq![ln("  (cannot read "@ + path + ")"@, fg(Color::Rgb(220, 100, 100)))]
    }
}

fn build_no_excerpt(path: &str, exists: bool) -> (r: Lines)
    ensures
        r@ == no_excerpt(path@, exists),
{
    if exists {
        Lines::of(Line::of("  (binary file — open externally with `o`)", fg(Color::DarkGray)))
    } else {
        Lines::of(Line::of(&cat3("  (cannot read ", path, ")"), fg(Color::Rgb(220, 100, 100))))
    }
}

/// The body of a text card of the given height, for an excerpt.
pub open spec fn text_body(
    excerpt: Option<(Seq<Seq<char>>, int)>,
    path: Seq<char>,
    exists: bool,
    height: int,
    scroll: int,
) -> Seq<Seq<SpanView>> {
    if height == 0 {
        no_lines()
    } else {
        match excerpt {
            None => no_excerpt(path, exists),
            Some((content, truncated)) => window(text_rows(content), truncated, height, scroll),
        }
    }
}

/// The body of a diff card of the given height, for an excerpt.
pub open spec fn diff_body(
    excerpt: Option<(Seq<Seq<char>>, int)>,
    path: Seq<char>,
    exists: bool,
    width: int,
    height: int,
    scroll: int,
) -> Seq<Seq<SpanView>> {
    if height == 0 {
        no_lines()
    } else {
        match excerpt {
            None => no_excerpt(path, exists),
            Some((content, truncated)) => window(
                diff_lines(content, width),
                truncated,
                height,
                scroll,
            ),
        }
    }
}

/// The views of an excerpt's lines.
pub open spec fn excerpt_view(e: Option<(Vec<String>, usize)>) -> Option<(Seq<Seq<char>>, int)> {
    match e {
        None => None,
        Some((v, n)) => Some((texts(v@), n as int)),
    }
}

/// The lines of an excerpt and those beyond it can be counted.
pub open spec fn excerpt_counts(e: Option<(Vec<String>, usize)>) -> bool {
    e matches Some((v, n)) ==> v@.len() + n + 2 <= usize::MAX
}

pub fn render_text_card_body(
    excerpt: &Option<(Vec<String>, usize)>,
    path: &str,
    exists: bool,
    height: u16,
    scroll_lines: usize,
) -> (r: Lines)
    requires
        excerpt_counts(*excerpt),
    ensures
        r@ == text_body(excerpt_view(*excerpt), path@, exists, height as int, scroll_lines as int),
{
    if height == 0 {
        return Lines::none();
    }
    match excerpt {
        None => build_no_excerpt(path, exists),
        Some((content, truncated)) => {
            let rows = build_text_rows(content);
            assert(rows@.len() == content@.len());
            build_window(&rows, *truncated, height, scroll_lines)
        },
    }
}

pub fn render_diff_card_body(
    excerpt: &Option<(Vec<String>, usize)>,
    path: &str,
    exists: bool,
    width: u16,
    height: u16,
    scroll_lines: usize,
) -> (r: Lines)
    requires
        excerpt_counts(*excerpt),
    ensures
        r@ == diff_body(
            excerpt_view(*excerpt),
            path@,
            exists,
            width as int,
            height as int,
            scroll_lines as int,
        ),
{
    if height == 0 {
        return Lines::none();
    }
    match excerpt {
        None => build_no_excerpt(path, exists),
        Some((content, truncated)) => {
            let rows = build_diff_lines(content, width);
            proof {
                crate::diff::diff_row_per_line(texts(content@), width as int);
            }
            build_window(&rows, *truncated, height, scroll_lines)
        },
    }
}

/// How many rows the preview of a text or a diff has in all, with one for the
/// note on what is not in the excerpt.
pub open spec fn preview_rows(
    excerpt: Option<(Seq<Seq<char>>, int)>,
    kind: CardKind,
    width: int,
) -> Option<int> {
    match excerpt {
        None => None,
        Some((content, truncated)) => {
            let note = if truncated > 0 {
                1int
            } else {
                0int
            };
            match kind {
                CardKind::Text => Some(content.len() + note),
                CardKind::Diff => Some(diff_lines(content, width).len() + note),
                _ => None,
            }
        },
    }
}

pub fn artifact_preview_total_lines(
    excerpt: &Option<(Vec<String>, usize)>,
    kind: CardKind,
    area_width: u16,
) -> (r: Option<usize>)
    requires
        excerpt_counts(*excerpt),
    ensures
        match r {
            None => preview_rows(excerpt_view(*excerpt), kind, area_width as int) is None,
            Some(n) => preview_rows(excerpt_view(*excerpt), kind, area_width as int) == Some(n as int),
        },
{
    match excerpt {
        None => None,
        Some((content, truncated)) => {
            let note: usize = if *truncated > 0 {
                1
            } else {
                0
            };
            match kind {
                CardKind::Text => Some(content.len() + note),
                CardKind::Diff => {
                    proof {
                        crate::diff::diff_row_per_line(texts(content@), area_width as int);
                    }
                    Some(build_diff_lines(content, area_width).len() + note)
                },
                _ => None,
            }
        },
    }
}

pub open spec fn video_body(name: Seq<char>) -> Seq<Seq<SpanView>> {
    seq![ln("  ▶ press `o` to play in external player"@, fg(Color::LightCyan))] + seq![
        ln("  "@ + name, fg(faint_purple_gray())),
    ]
}

pub fn render_video_card_body(a: &Artifact) -> (r: Lines)
    ensures
        r@ == video_body(basename(a.path@)),
{
    let mut out = Lines::of(Line::of("  ▶ press `o` to play in external player", fg(Color::LightCyan)));
    out.put(Line::of(&cat2("  ", &basename_of(&a.path)), fg(faint_purple_gray())));
    out
}

pub open spec fn url_body(path: Seq<char>) -> Seq<Seq<SpanView>> {
    seq![ln("  "@ + path, fg(Color::LightBlue).underlined())] + seq![
        ln("  press `o` to open in browser"@, fg(Color::DarkGray)),
    ]
}

pub fn render_url_card_body(a: &Artifact) -> (r: Lines)
    ensures
        r@ == url_body(a.path@),
{
    let mut out = Lines::of(Line::of(&cat2("  ", &a.path), fg(Color::LightBlue).underlined()));
    out.put(Line::of("  press `o` to open in browser", fg(Color::DarkGray)));
    out
}

pub fn render_fallback_card_body(a: &Artifact) -> (r: Lines)
    ensures
        r@ == seq![ln("  "@ + basename(a.path@), fg(faint_purple_gray()))],
{
    Lines::of(Line::of(&cat2("  ", &basename_of(&a.path)), fg(faint_purple_gray())))
}

pub fn render_image_placeholder(msg: &str) -> (r: Lines)
    ensures
        r@ == seq![ln("  "@ + msg@, fg(Color::DarkGray).italic())],
{
    Lines::of(Line::of(&cat2("  ", msg), fg(Color::DarkGray).italic()))
}

// ---------------------------------------------------------------------------
// Images
// ---------------------------------------------------------------------------

/// What is known of an image when its card is drawn.
#[derive(Clone, Copy, Debug, PartialEq, Eq, Structural)]
pub struct ImageState {
    /// The whole card is on the screen.
    pub fully_visible: bool,
    /// The terminal can show images.
    pub has_picker: bool,
    /// The image was decoded before.
    pub cached: bool,
    /// Decoding it failed before.
    pub failed: bool,
}

/// What to do for an image.
#[derive(Clone, Copy, Debug, PartialEq, Eq, Structural)]
pub enum ImageStep {
    /// It is not drawn in part: the rows say so.
    Hidden,
    /// The terminal cannot show it.
    Unsupported,
    /// It cannot be decoded.
    Undecodable,
    /// It has to be decoded, and is drawn where that succeeds.
    Decode,
    Draw,
}

/// An image is decoded once: neither a decoded image nor one that failed is
/// tried again.
#[verifier::allow_in_spec]
pub fn image_step(s: ImageState) -> ImageStep
    returns
        (if !s.fully_visible {
            ImageStep::Hidden
        } else if !s.has_picker {
            ImageStep::Unsupported
        } else if s.cached {
            ImageStep::Draw
        } else if s.failed {
            ImageStep::Undecodable
        } else {
            ImageStep::Decode
        }),
{
    if !s.fully_visible {
        ImageStep::Hidden
    } else if !s.has_picker {
        ImageStep::Unsupported
    } else if s.cached {
        ImageStep::Draw
    } else if s.failed {
        ImageStep::Undecodable
    } else {
        ImageStep::Decode
    }
}

/// What an image's card says in place of the image.
pub open spec fn image_note(step: ImageStep) -> Option<Seq<char>> {
    match step {
        ImageStep::Hidden => Some("[image hidden — scroll to view]"@),
        ImageStep::Unsupported => Some(
            "[image preview unavailable — terminal doesn't support graphics]"@,
        ),
        ImageStep::Undecodable => Some(
            "[image preview unavailable — decode failed; press `o` to open]"@,
        ),
        ImageStep::Decode | ImageStep::Draw => None,
    }
}

pub fn image_message(step: ImageStep) -> (r: Option<String>)
    ensures
        crate::models::opt(r) == image_note(step),
{
    match step {
        ImageStep::Hidden => Some("[image hidden — scroll to view]".to_owned()),
        ImageStep::Unsupported => Some(
            "[image preview unavailable — terminal doesn't support graphics]".to_owned(),
        ),
        ImageStep::Undecodable => Some(
            "[image preview unavailable — decode failed; press `o` to open]".to_owned(),
        ),
        ImageStep::Decode | ImageStep::Draw => None,
    }
}

// ---------------------------------------------------------------------------
// What the cards tell
// ---------------------------------------------------------------------------

/// A link has a link's card, whatever its kind and its extension.
pub proof fn links_have_link_cards(kind: Seq<char>, rest: Seq<char>, extension: Option<Seq<char>>)
    ensures
        card_of(kind, "http://"@ + rest, extension) == CardKind::Url,
        card_of(kind, "https://"@ + rest, extension) == CardKind::Url,
{
    assert(("http://"@ + rest).take("http://"@.len() as int) =~= "http://"@);
    assert(("https://"@ + rest).take("https://"@.len() as int) =~= "https://"@);
}

/// The kind decides before the extension, and where it decides nothing a file without
/// an extension has a plain card.
pub proof fn kinds_decide_first(kind: Seq<char>, path: Seq<char>, a: Option<Seq<char>>, b: Option<Seq<char>>)
    requires
        card_of(kind, path, None) != CardKind::Fallback,
    ensures
        card_of(kind, path, a) == card_of(kind, path, b),
{
    assert(Seq::<char>::empty().len() == 0);
    reveal_strlit("png");
    reveal_strlit("jpg");
    reveal_strlit("jpeg");
    reveal_strlit("gif");
    reveal_strlit("webp");
    reveal_strlit("bmp");
    reveal_strlit("mp4");
    reveal_strlit("mov");
    reveal_strlit("webm");
    reveal_strlit("mkv");
    reveal_strlit("diff");
    reveal_strlit("patch");
    reveal_strlit("log");
    reveal_strlit("txt");
    reveal_strlit("md");
    reveal_strlit("json");
    reveal_strlit("yaml");
    reveal_strlit("yml");
}

/// One more byte makes one more that text does not hold where it is a control, but not
/// where it ends a line or is a tab; and one more line feed where it is one.
pub proof fn one_more_byte(s: Seq<u8>, b: u8)
    ensures
        binary_bytes(s.push(b)) == binary_bytes(s) + if b < 32 && b != 9 && b != 10 && b != 13 {
            1int
        } else {
            0int
        },
        line_feeds(s.push(b)) == line_feeds(s) + if b == 10 {
            1int
        } else {
            0int
        },
        binary_bytes(Seq::empty()) == 0 && line_feeds(Seq::empty()) == 0,
{
    assert(s.push(b).drop_last() =~= s);
}

/// What stands behind the first 1024 bytes does not make a file binary, nor text.
pub proof fn only_the_beginning_is_probed(s: Seq<u8>, rest: Seq<u8>)
    requires
        s.len() >= 1024,
    ensures
        looks_binary(s + rest) == looks_binary(s),
        looks_binary(s) <==> binary_bytes(s.take(1024)) * 20 > 1024,
{
    assert((s + rest).take(1024) =~= s.take(1024));
}

/// A file of at most 1024 bytes is binary where more than one in twenty of them are none
/// of text.
pub proof fn short_files_are_probed_whole(s: Seq<u8>)
    requires
        s.len() <= 1024,
    ensures
        looks_binary(s) <==> binary_bytes(s) * 20 > s.len(),
{
    assert(s.take(s.len() as int) =~= s);
}

/// An excerpt holds the lines that were read, and with those that it leaves out one more
/// than the file has line feeds, where the file has so many.
pub proof fn excerpts_count_what_they_leave_out(bytes: Seq<u8>, head: Seq<char>)
    requires
        !looks_binary(bytes),
        lines(head).len() <= line_feeds(bytes) + 1,
    ensures
        excerpt(bytes, head) matches Some((content, more)) && content == lines(head) && content.len() + more
            == line_feeds(bytes) + 1,
{
}

/// The header of a card: a bar where it is selected, the kind and the name, whether it is
/// the lead one, and the caption.
pub proof fn headers_tell_the_artifact(a: Artifact, name: Seq<char>, selected: bool, is_lead: bool)
    ensures
        line_text(card_header(a, name, selected, is_lead)) == (if selected {
            "▌ "@
        } else {
            "  "@
        }) + a.kind@ + " · "@ + name + (if is_lead {
            " · "@ + "lead"@
        } else {
            Seq::empty()
        }) + (match a.caption {
            Some(c) => if c@.len() > 0 {
                " · "@ + c@
            } else {
                Seq::empty()
            },
            None => Seq::empty(),
        }),
{
    broadcast use {crate::style::joined_line_text, crate::style::span_line_text, crate::style::blank_line_text};

}

/// A text card shows the lines of the excerpt from the scroll position on, two columns in;
/// where some are left, its last row says how many, with those that were never read.
pub proof fn text_cards_show_the_lines(
    content: Seq<Seq<char>>,
    truncated: int,
    path: Seq<char>,
    exists: bool,
    height: int,
    scroll: int,
    k: int,
)
    requires
        truncated >= 0,
        height > 0,
        0 <= scroll <= content.len(),
        0 <= k < text_body(Some((content, truncated)), path, exists, height, scroll).len(),
    ensures
        ({
            let rows = text_body(Some((content, truncated)), path, exists, height, scroll);
            let below = if content.len() > scroll + height {
                content.len() - scroll - height
            } else {
                0
            };
            let hidden = below + truncated;
            &&& rows.len() <= height
            &&& hidden == 0 ==> rows.len() == content.len() - scroll
            &&& k < rows.len() - 1 || hidden == 0 ==> line_text(rows[k]) == "  "@ + content[scroll + k]
            &&& hidden > 0 ==> line_text(rows.last()) == "  … (truncated, "@ + dec(hidden as nat) + " more line"@
                + (if hidden == 1 {
                Seq::empty()
            } else {
                "s"@
            }) + ")"@
        }),
{
    broadcast use {crate::style::joined_line_text, crate::style::span_line_text, crate::style::blank_line_text};

    let all = text_rows(content);
    let rows = text_body(Some((content, truncated)), path, exists, height, scroll);
    if scroll + k < content.len() {
        assert(all[scroll + k] == ln("  "@ + content[scroll + k], fg(Color::Gray)));
    }
}

/// A diff card shows the rows of the diff in the same way.
pub proof fn diff_cards_show_the_rows(
    content: Seq<Seq<char>>,
    truncated: int,
    path: Seq<char>,
    exists: bool,
    width: int,
    height: int,
    scroll: int,
    k: int,
)
    requires
        truncated >= 0,
        height > 0,
        0 <= scroll <= diff_lines(content, width).len(),
        0 <= k < diff_body(Some((content, truncated)), path, exists, width, height, scroll).len(),
    ensures
        ({
            let rows = diff_body(Some((content, truncated)), path, exists, width, height, scroll);
            let all = diff_lines(content, width);
            let below = if all.len() > scroll + height {
                all.len() - scroll - height
            } else {
                0
            };
            let hidden = below + truncated;
            &&& rows.len() <= height
            &&& hidden == 0 ==> rows.len() == all.len() - scroll
            &&& k < rows.len() - 1 || hidden == 0 ==> rows[k] == all[scroll + k]
            &&& hidden > 0 ==> line_text(rows.last()) == "  … (truncated, "@ + dec(hidden as nat) + " more line"@
                + (if hidden == 1 {
                Seq::empty()
            } else {
                "s"@
            }) + ")"@
        }),
{
    broadcast use {crate::style::joined_line_text, crate::style::span_line_text, crate::style::blank_line_text};

}

/// A preview has a row for each line of a text and for each row of a diff, and one more
/// where something was never read; other cards have none.
pub proof fn previews_are_counted(content: Seq<Seq<char>>, truncated: int, width: int)
    requires
        truncated >= 0,
    ensures
        preview_rows(Some((content, truncated)), CardKind::Text, width) == Some(
            content.len() + if truncated > 0 {
                1int
            } else {
                0int
            },
        ),
        preview_rows(Some((content, truncated)), CardKind::Diff, width) == Some(
            diff_lines(content, width).len() + if truncated > 0 {
                1int
            } else {
                0int
            },
        ),
        preview_rows(Some((content, truncated)), CardKind::Image, width) is None,
        preview_rows(Some((content, truncated)), CardKind::Video, width) is None,
        preview_rows(Some((content, truncated)), CardKind::Url, width) is None,
        preview_rows(Some((content, truncated)), CardKind::Fallback, width) is None,
{
}

/// Cards whose file has no excerpt, and those of links and videos, say what can be done.
pub proof fn other_cards_tell_what_to_do(path: Seq<char>, name: Seq<char>, height: int, scroll: int)
    requires
        height > 0,
    ensures
        line_text(text_body(None, path, true, height, scroll)[0])
            == "  (binary file — open externally with `o`)"@,
        line_text(text_body(None, path, false, height, scroll)[0]) == "  (cannot read "@ + path + ")"@,
        line_text(diff_body(None, path, true, 80, height, scroll)[0])
            == "  (binary file — open externally with `o`)"@,
        line_text(diff_body(None, path, false, 80, height, scroll)[0]) == "  (cannot read "@ + path + ")"@,
        line_text(video_body(name)[0]) == "  ▶ press `o` to play in external player"@,
        line_text(video_body(name)[1]) == "  "@ + name,
        line_text(url_body(path)[0]) == "  "@ + path,
        line_text(url_body(path)[1]) == "  press `o` to open in browser"@,
{
    broadcast use {crate::style::joined_line_text, crate::style::span_line_text, crate::style::blank_line_text};

}

/// An image is drawn where all of it is on the screen, the terminal can show it and it is
/// decoded; else its card says why it is not, and it is decoded once at most.
pub proof fn images_are_drawn_when_decoded(s: ImageState)
    ensures
        image_step(s) == ImageStep::Draw <==> s.fully_visible && s.has_picker && s.cached,
        image_step(s) == ImageStep::Decode <==> s.fully_visible && s.has_picker && !s.cached && !s.failed,
        !s.fully_visible ==> image_note(image_step(s)) == Some("[image hidden — scroll to view]"@),
        s.fully_visible && !s.has_picker ==> image_note(image_step(s)) == Some(
            "[image preview unavailable — terminal doesn't support graphics]"@,
        ),
        s.fully_visible && s.has_picker && !s.cached && s.failed ==> image_note(image_step(s)) == Some(
            "[image preview unavailable — decode failed; press `o` to open]"@,
        ),
        image_step(s) == ImageStep::Draw || image_step(s) == ImageStep::Decode ==> image_note(image_step(s)) is None,
{
}

/// An excerpt is the beginning of a file, at most so many bytes of it.
pub proof fn excerpts_are_beginnings(bytes: Seq<u8>, max: int)
    requires
        0 <= max,
    ensures
        bytes.len() <= max ==> excerpt_bytes(bytes, max) == bytes,
        bytes.len() > max ==> excerpt_bytes(bytes, max).len() == max,
        excerpt_bytes(bytes, max).is_prefix_of(bytes),
{
    assert(bytes.take(bytes.len() as int) =~= bytes);
}

/// The lead card is never lower than another of its kind, and higher for images and text
/// alone; what only says what to do has few rows.
pub proof fn lead_cards_have_more_room(kind: CardKind)
    ensures
        lead_card_body_height(kind) >= card_body_height(kind) > 0,
        lead_card_body_height(kind) > card_body_height(kind) <==> kind == CardKind::Image || kind == CardKind::Text,
        kind == CardKind::Video || kind == CardKind::Url ==> card_body_height(kind) == 2,
        kind == CardKind::Fallback ==> card_body_height(kind) == 1,
        kind == CardKind::Diff ==> card_body_height(kind) == 14,
        kind == CardKind::Text ==> card_body_height(kind) == 12 && lead_card_body_height(kind) == 16,
        kind == CardKind::Image ==> card_body_height(kind) == 10 && lead_card_body_height(kind) == 18,
{
}

} // verus!
