//! The builds tab: a card for each recipe, the form that runs one, and the
//! log of a build.

use crate::agent_detail::home_dir;
use crate::agents::{age, age_text, or_else, scrolled, text_or_else};
use crate::geometry::{
    centered_fixed, centered_rect, inner_of, inner_padded, inside, inside_padded, middle, scaled, share_92, Rect,
};
use crate::models::{first_line_truncated, opt, short_line};
use crate::palette::{accent_blue, dim_text, faint_text, label_gray, muted_text, sep_gray};
use crate::parts::{begins, join, joined, push_text, starts_with, strip_prefix, texts};
use crate::rounding::{lemma_ratio_nonnegative, ratio_rounded, round_ratio};
use crate::sessions::{spinner, spinner_frame};
use crate::style::{blank, fg, line_text, ln, no_lines, plain, Border, Color, Line, Lines, SpanView, Style};
use crate::text::{
    at_least, at_most, byte_len, bytes_front, cat2, cat3, cat4, cat5, cuts, dec, dec_int, fill, front, left, minus,
    text_count, text_dec, text_fill, text_int, text_left,
};
use vstd::prelude::*;

verus! {

broadcast use vstd::string::group_string_axioms;

/// The narrowest that a card gets before the cards stack in fewer columns.
pub const CARD_W: u16 = 72;

/// Four lines and the border.
pub const CARD_H: u16 = 6;

pub const BAR_W: usize = 10;

#[derive(Clone, Copy, Debug, PartialEq, Eq, Structural)]
pub enum BuildStatus {
    Queued,
    Running,
    Succeeded,
    Failed,
    Cancelled,
}

#[derive(Debug)]
pub struct Build {
    pub id: String,
    pub status: BuildStatus,
    /// The status in words.
    pub status_label: String,
    /// What is built, in words.
    pub target: String,
    pub ref_name: Option<String>,
    pub commit: Option<String>,
    pub subject: Option<String>,
    /// The route that was asked for, and the one taken.
    pub route: Option<String>,
    pub taken: Option<String>,
    pub phase: Option<String>,
    pub error: Option<String>,
    pub exit_code: Option<i32>,
    pub created_at: i64,
    pub finished_at: Option<i64>,
    /// The seconds that it has run or ran.
    pub elapsed: Option<i64>,
}

#[derive(Debug)]
pub struct Recipe {
    /// What only one build can hold at a time.
    pub resource: Option<String>,
    pub description: String,
}

/// A claim on a resource: held since then, or waiting behind somebody.
#[derive(Debug)]
pub struct Hold {
    pub granted: bool,
    pub since: i64,
    pub behind: Option<String>,
}

/// What a card is made from.
#[derive(Debug)]
pub struct RecipeState {
    pub name: String,
    pub recipe: Option<Recipe>,
    /// The build that matters now.
    pub shown: Option<Build>,
    /// The seconds that such a build usually takes.
    pub typical: Option<i64>,
    /// The builds that wait behind it.
    pub queued: usize,
    /// The commit that something else has run since.
    pub drifted: Option<String>,
    pub builds: Vec<Build>,
    pub last_success: Option<Build>,
    pub hold: Option<Hold>,
    /// Who else holds the resource.
    pub holder: Option<String>,
}

// ---------------------------------------------------------------------------
// Words
// ---------------------------------------------------------------------------

/// Seconds as a person says them: in seconds, in minutes and seconds, or in
/// hours and minutes.
pub open spec fn spoken(secs: int) -> Seq<char> {
    if secs < 60 {
        dec_int(secs) + "s"@
    } else if secs < 3600 {
        if secs % 60 == 0 {
            dec((secs / 60) as nat) + "m"@
        } else {
            dec((secs / 60) as nat) + "m "@ + dec((secs % 60) as nat) + "s"@
        }
    } else {
        dec((secs / 3600) as nat) + "h "@ + dec((secs % 3600 / 60) as nat) + "m"@
    }
}

pub fn duration(secs: i64) -> (r: String)
    ensures
        r@ == spoken(secs as int),
{
    if secs < 60 {
        return cat2(&text_int(secs), "s");
    }
    let s: u64 = secs as u64;
    if s < 3600 {
        if s % 60 == 0 {
            cat2(&text_dec(s / 60), "m")
        } else {
            cat4(&text_dec(s / 60), "m ", &text_dec(s % 60), "s")
        }
    } else {
        cat4(&text_dec(s / 3600), "h ", &text_dec((s % 3600) / 60), "m")
    }
}

/// A commit can be shortened: its eleventh byte ends a character.
pub open spec fn can_shorten(commit: Seq<char>) -> bool {
    byte_len(commit) > 11 ==> cuts(commit, 11)
}

/// The first eleven bytes of a commit.
pub open spec fn short_commit(commit: Seq<char>) -> Seq<char> {
    if byte_len(commit) > 11 {
        front(commit, 11)
    } else {
        commit
    }
}

pub fn short(commit: &str) -> (r: String)
    requires
        can_shorten(commit@),
    ensures
        r@ == short_commit(commit@),
{
    if commit.len() > 11 {
        bytes_front(commit, 11)
    } else {
        commit.to_owned()
    }
}

pub open spec fn shortenable(o: Option<String>) -> bool {
    match o {
        Some(c) => can_shorten(c@),
        None => true,
    }
}

impl RecipeState {
    /// Every commit that the card shows can be shortened.
    pub open spec fn ok(self) -> bool {
        &&& (match self.shown {
            Some(b) => shortenable(b.commit),
            None => true,
        })
        &&& (match self.last_success {
            Some(b) => shortenable(b.commit),
            None => true,
        })
        &&& shortenable(self.drifted)
    }
}

/// A text, cut to `width` columns.
pub open spec fn said(s: Seq<char>, width: int, style: Style) -> Seq<SpanView> {
    ln(short_line(s, width), style)
}

fn text(s: &str, width: usize, style: Style) -> (r: Line)
    ensures
        r@ == said(s@, width as int, style),
{
    Line::of(&first_line_truncated(s, width), style)
}

pub open spec fn mark_of(s: BuildStatus, now_ms: int) -> Seq<char> {
    match s {
        BuildStatus::Queued => "󰔟"@,
        BuildStatus::Running => spinner(now_ms),
        BuildStatus::Succeeded => "✓"@,
        BuildStatus::Failed => "✗"@,
        BuildStatus::Cancelled => "⊘"@,
    }
}

#[verifier::allow_in_spec]
pub fn color_of(s: BuildStatus) -> Color
    returns
        (match s {
            BuildStatus::Queued => Color::Yellow,
            BuildStatus::Running => Color::Green,
            BuildStatus::Succeeded => Color::Green,
            BuildStatus::Failed => Color::Red,
            BuildStatus::Cancelled => label_gray(),
        }),
{
    match s {
        BuildStatus::Queued => Color::Yellow,
        BuildStatus::Running => Color::Green,
        BuildStatus::Succeeded => Color::Green,
        BuildStatus::Failed => Color::Red,
        BuildStatus::Cancelled => label_gray(),
    }
}

/// The mark and the colour of a status.
pub fn status_mark(s: BuildStatus, now_ms: u64) -> (r: (String, Color))
    ensures
        r.0@ == mark_of(s, now_ms as int),
        r.1 == color_of(s),
{
    let mark = match s {
        BuildStatus::Queued => "󰔟".to_owned(),
        BuildStatus::Running => spinner_frame(now_ms),
        BuildStatus::Succeeded => "✓".to_owned(),
        BuildStatus::Failed => "✗".to_owned(),
        BuildStatus::Cancelled => "⊘".to_owned(),
    };
    (mark, color_of(s))
}

// ---------------------------------------------------------------------------
// The lines of a card
// ---------------------------------------------------------------------------

pub open spec fn some_text(o: Option<Seq<char>>) -> Seq<Seq<char>> {
    match o {
        Some(s) => seq![s],
        None => Seq::empty(),
    }
}

pub open spec fn opt_short(o: Option<String>) -> Option<Seq<char>> {
    match o {
        Some(c) => Some(short_commit(c@)),
        None => None,
    }
}

/// The ref, the commit and the subject of a build, as far as they are known.
pub open spec fn commit_parts(b: Build) -> Seq<Seq<char>> {
    some_text(opt(b.ref_name)) + some_text(opt_short(b.commit)) + some_text(opt(b.subject))
}

/// What is built: in words, until the recipe says it.
pub open spec fn commit_text(b: Build) -> Seq<char> {
    if commit_parts(b).len() == 0 {
        b.target@
    } else {
        joined(commit_parts(b), " · "@)
    }
}

pub fn commit_line(b: &Build, color: Color, width: usize) -> (r: Line)
    requires
        shortenable(b.commit),
    ensures
        r@ == said(commit_text(*b), width as int, fg(color).bold()),
{
    let mut parts: Vec<String> = Vec::new();
    match &b.ref_name {
        Some(s) => push_text(&mut parts, s.as_str().to_owned()),
        None => {},
    }
    match &b.commit {
        Some(s) => push_text(&mut parts, short(s)),
        None => {},
    }
    match &b.subject {
        Some(s) => push_text(&mut parts, s.as_str().to_owned()),
        None => {},
    }
    assert(texts(parts@) =~= commit_parts(*b));
    assert(texts(parts@).len() == parts@.len());
    let s = if parts.len() == 0 {
        b.target.as_str().to_owned()
    } else {
        join(&parts, " · ")
    };
    text(&s, width, fg(color).bold())
}

pub open spec fn route_text(b: Build) -> Seq<char> {
    match b.taken {
        Some(s) => s@,
        None => or_else(b.route, "auto"@),
    }
}

/// How much of the bar is full: never all of it while the build runs.
pub open spec fn bar_filled(elapsed: int, usual: int) -> int {
    if elapsed <= 0 {
        0
    } else {
        at_most(ratio_rounded(elapsed as nat, usual as nat, BAR_W as nat), BAR_W - 1)
    }
}

/// How long a build runs, beside how long it usually does.
pub open spec fn running_time(elapsed: int, typical: Option<i64>) -> Seq<SpanView> {
    match typical {
        Some(usual) => if usual > 0 {
            let n = bar_filled(elapsed, usual as int);
            ln(
                fill('▰', n),
                fg(
                    if elapsed > usual {
                        Color::Yellow
                    } else {
                        Color::Green
                    },
                ),
            ) + ln(fill('▱', BAR_W - n), fg(sep_gray())) + ln(
                "  "@ + spoken(elapsed) + " / ~"@ + spoken(usual as int),
                fg(faint_text()),
            )
        } else {
            ln(spoken(elapsed), fg(faint_text()))
        },
        None => ln(spoken(elapsed), fg(faint_text())),
    }
}

pub open spec fn or_zero(n: Option<i64>) -> int {
    match n {
        Some(x) => x as int,
        None => 0,
    }
}

pub open spec fn time_spans(b: Build, typical: Option<i64>, now: int) -> Seq<SpanView> {
    match b.status {
        BuildStatus::Queued => ln("queued "@ + age_text(now, b.created_at as int), fg(dim_text())),
        BuildStatus::Running => running_time(or_zero(b.elapsed), typical),
        _ => match (b.elapsed, b.finished_at) {
            (Some(elapsed), Some(at)) => ln(
                spoken(elapsed as int) + " · "@ + age_text(now, at as int) + " ago"@,
                fg(dim_text()),
            ),
            _ => blank(),
        },
    }
}

/// The route, then how long.
pub open spec fn time_text(b: Build, typical: Option<i64>, now: int) -> Seq<SpanView> {
    ln(route_text(b), fg(faint_text())) + ln("  "@, plain()) + time_spans(b, typical, now)
}

fn filled_of_bar(elapsed: i64, usual: i64) -> (r: usize)
    requires
        usual > 0,
    ensures
        r == bar_filled(elapsed as int, usual as int),
        r < BAR_W,
{
    if elapsed <= 0 {
        return 0;
    }
    let n: u128 = round_ratio(elapsed as u64, usual as u64, BAR_W as u64);
    if n < (BAR_W - 1) as u128 {
        n as usize
    } else {
        BAR_W - 1
    }
}

fn build_running(elapsed: i64, typical: Option<i64>) -> (r: Line)
    ensures
        r@ == running_time(elapsed as int, typical),
{
    match typical {
        Some(usual) => if usual > 0 {
            let n: usize = filled_of_bar(elapsed, usual);
            let color = if elapsed > usual {
                Color::Yellow
            } else {
                Color::Green
            };
            let mut l = Line::of(&text_fill('▰', n), fg(color));
            l.put(&text_fill('▱', BAR_W - n), fg(sep_gray()));
            l.put(
                &cat4("  ", &duration(elapsed), " / ~", &duration(usual)),
                fg(faint_text()),
            );
            l
        } else {
            Line::of(&duration(elapsed), fg(faint_text()))
        },
        None => Line::of(&duration(elapsed), fg(faint_text())),
    }
}

pub fn time_line(b: &Build, typical: Option<i64>, now: i64) -> (r: Line)
    ensures
        r@ == time_text(*b, typical, now as int),
{
    let route = match &b.taken {
        Some(s) => s.as_str().to_owned(),
        None => text_or_else(&b.route, "auto"),
    };
    let mut l = Line::of(&route, fg(faint_text()));
    l.put("  ", plain());
    let time = match b.status {
        BuildStatus::Queued => Line::of(&cat2("queued ", &age(now, b.created_at)), fg(dim_text())),
        BuildStatus::Running => {
            let elapsed: i64 = match b.elapsed {
                Some(x) => x,
                None => 0,
            };
            build_running(elapsed, typical)
        },
        _ => match (b.elapsed, b.finished_at) {
            (Some(elapsed), Some(at)) => Line::of(
                &cat4(&duration(elapsed), " · ", &age(now, at), " ago"),
                fg(dim_text()),
            ),
            _ => Line::empty(),
        },
    };
    l.join(time);
    l
}

/// A running build never looks finished: its bar is ten wide and keeps at
/// least one empty place.
pub proof fn running_bar_is_never_full(elapsed: int, usual: int)
    ensures
        0 <= bar_filled(elapsed, usual) < BAR_W,
        fill('▰', bar_filled(elapsed, usual)).len() + fill('▱', BAR_W - bar_filled(elapsed, usual)).len()
            == BAR_W,
{
    lemma_ratio_nonnegative(elapsed as nat, usual as nat, BAR_W as nat);
}

/// What the build is doing, or why it did not work; nothing where it did.
pub open spec fn say_text(b: Build) -> Option<(Seq<char>, Style)> {
    match b.status {
        BuildStatus::Queued | BuildStatus::Running => Some(
            (or_else(b.phase, "starting"@), fg(Color::White)),
        ),
        BuildStatus::Failed => Some(
            (
                match b.error {
                    Some(e) => e@,
                    None => match b.exit_code {
                        Some(c) => "exited with "@ + dec_int(c as int),
                        None => "failed"@,
                    },
                },
                fg(Color::Red),
            ),
        ),
        BuildStatus::Cancelled => Some(("cancelled"@, fg(label_gray()))),
        BuildStatus::Succeeded => None,
    }
}

pub open spec fn say_lines(b: Build, width: int) -> Seq<Seq<SpanView>> {
    match say_text(b) {
        Some((s, style)) => seq![said(s, width, style)],
        None => no_lines(),
    }
}

pub fn say_line(b: &Build, width: usize) -> (r: Lines)
    ensures
        r@ == say_lines(*b, width as int),
{
    match b.status {
        BuildStatus::Queued | BuildStatus::Running => Lines::of(
            text(&text_or_else(&b.phase, "starting"), width, fg(Color::White)),
        ),
        BuildStatus::Failed => {
            let why = match &b.error {
                Some(e) => e.as_str().to_owned(),
                None => match b.exit_code {
                    Some(c) => cat2("exited with ", &text_int(c as i64)),
                    None => "failed".to_owned(),
                },
            };
            Lines::of(text(&why, width, fg(Color::Red)))
        },
        BuildStatus::Cancelled => Lines::of(text("cancelled", width, fg(label_gray()))),
        BuildStatus::Succeeded => Lines::none(),
    }
}

/// The commits may be the same, one of them shortened.
pub open spec fn same_commit(commit: Option<String>, current: Seq<char>) -> bool {
    match commit {
        Some(c) => begins(c@, current) || begins(current, c@),
        None => false,
    }
}

/// The subject of the first build from `i` on of the commit.
pub open spec fn known_subject(builds: Seq<Build>, current: Seq<char>, i: int) -> Option<Seq<char>>
    decreases builds.len() - i,
{
    if i >= builds.len() {
        None
    } else if same_commit(builds[i].commit, current) {
        opt(builds[i].subject)
    } else {
        known_subject(builds, current, i + 1)
    }
}

pub open spec fn drift_text(builds: Seq<Build>, current: Seq<char>) -> Seq<char> {
    "now at "@ + short_commit(current) + (match known_subject(builds, current, 0) {
        Some(s) => " · "@ + s,
        None => " · not run from here"@,
    })
}

pub open spec fn success_text(b: Build, now: int) -> Seq<char> {
    "last ✓ "@ + (match b.commit {
        Some(c) => short_commit(c@),
        None => b.target@,
    }) + (match b.subject {
        Some(s) => " · "@ + s@,
        None => ""@,
    }) + (match b.finished_at {
        Some(at) => " · "@ + age_text(now, at as int) + " ago"@,
        None => ""@,
    })
}

pub open spec fn did_not_work(shown: Option<Build>) -> bool {
    match shown {
        Some(b) => b.status == BuildStatus::Failed || b.status == BuildStatus::Cancelled,
        None => false,
    }
}

/// What comes after the build: those that wait behind it, or the commit that
/// something else has run since, or, where it did not work, the last that did.
pub open spec fn after_lines(c: RecipeState, now: int, width: int) -> Seq<Seq<SpanView>> {
    if c.queued > 0 {
        seq![said("+"@ + dec(c.queued as nat) + " queued"@, width, fg(Color::Yellow))]
    } else {
        match c.drifted {
            Some(current) => seq![said(drift_text(c.builds@, current@), width, fg(Color::Yellow))],
            None => match c.last_success {
                Some(b) => if did_not_work(c.shown) {
                    seq![said(success_text(b, now), width, fg(dim_text()))]
                } else {
                    no_lines()
                },
                None => no_lines(),
            },
        }
    }
}

fn find_subject(builds: &Vec<Build>, current: &str) -> (r: Option<String>)
    ensures
        opt(r) == known_subject(builds@, current@, 0),
{
    let mut i: usize = 0;
    while i < builds.len()
        invariant
            i <= builds@.len(),
            known_subject(builds@, current@, 0) == known_subject(builds@, current@, i as int),
        decreases builds@.len() - i,
    {
        let hit = match &builds[i].commit {
            Some(c) => starts_with(c, current) || starts_with(current, c),
            None => false,
        };
        if hit {
            return match &builds[i].subject {
                Some(s) => Some(s.as_str().to_owned()),
                None => None,
            };
        }
        i += 1;
    }
    None
}

fn build_success(b: &Build, now: i64) -> (r: String)
    requires
        shortenable(b.commit),
    ensures
        r@ == success_text(*b, now as int),
{
    let what = match &b.commit {
        Some(c) => short(c),
        None => b.target.as_str().to_owned(),
    };
    let subject = match &b.subject {
        Some(s) => cat2(" · ", s),
        None => "".to_owned(),
    };
    let when = match b.finished_at {
        Some(at) => cat3(" · ", &age(now, at), " ago"),
        None => "".to_owned(),
    };
    cat4("last ✓ ", &what, &subject, &when)
}

pub fn after_line(c: &RecipeState, now: i64, width: usize) -> (r: Lines)
    requires
        c.ok(),
    ensures
        r@ == after_lines(*c, now as int, width as int),
{
    if c.queued > 0 {
        let s = cat3("+", &text_count(c.queued), " queued");
        return Lines::of(text(&s, width, fg(Color::Yellow)));
    }
    match &c.drifted {
        Some(current) => {
            let about = match find_subject(&c.builds, current) {
                Some(s) => cat2(" · ", &s),
                None => " · not run from here".to_owned(),
            };
            let s = cat3("now at ", &short(current), &about);
            Lines::of(text(&s, width, fg(Color::Yellow)))
        },
        None => {
            let failed = match &c.shown {
                Some(b) => b.status == BuildStatus::Failed || b.status == BuildStatus::Cancelled,
                None => false,
            };
            match &c.last_success {
                Some(b) => if failed {
                    Lines::of(text(&build_success(b, now), width, fg(dim_text())))
                } else {
                    Lines::none()
                },
                None => Lines::none(),
            }
        },
    }
}

/// Who has the resource.
pub open spec fn hold_text(c: RecipeState, resource: Seq<char>, now: int) -> (Seq<char>, Color) {
    match c.hold {
        Some(h) => if h.granted {
            ("󰌾 "@ + resource + " · "@ + age_text(now, h.since as int), Color::Green)
        } else {
            (
                match h.behind {
                    Some(who) => "󰔟 "@ + resource + " · behind "@ + who@,
                    None => "󰔟 "@ + resource,
                },
                Color::Yellow,
            )
        },
        None => match c.holder {
            Some(who) => ("󰌾 "@ + resource + " held by "@ + who@, Color::Yellow),
            None => (resource + " free"@, dim_text()),
        },
    }
}

pub fn hold_title(c: &RecipeState, resource: &str, now: i64) -> (r: Line)
    ensures
        r@ == ln(
            " "@ + hold_text(*c, resource@, now as int).0 + " "@,
            fg(hold_text(*c, resource@, now as int).1),
        ),
{
    let (s, color) = match &c.hold {
        Some(h) => if h.granted {
            (cat4("󰌾 ", resource, " · ", &age(now, h.since)), Color::Green)
        } else {
            match &h.behind {
                Some(who) => (cat4("󰔟 ", resource, " · behind ", who), Color::Yellow),
                None => (cat2("󰔟 ", resource), Color::Yellow),
            }
        },
        None => match &c.holder {
            Some(who) => (cat4("󰌾 ", resource, " held by ", who), Color::Yellow),
            None => (cat2(resource, " free"), dim_text()),
        },
    };
    Line::of(&cat3(" ", &s, " "), fg(color))
}

// ---------------------------------------------------------------------------
// Cards
// ---------------------------------------------------------------------------

#[derive(Debug)]
pub struct BuildCard {
    pub border: Border,
    pub border_color: Color,
    pub title: Line,
    /// At the right end of the upper border.
    pub hold: Option<Line>,
    /// In the lower border.
    pub about: Option<Line>,
    pub inner: Rect,
    pub lines: Lines,
}

pub open spec fn line_view(o: Option<Line>) -> Option<Seq<SpanView>> {
    match o {
        Some(l) => Some(l@),
        None => None,
    }
}

pub open spec fn card_mark(shown: Option<Build>, now_ms: int) -> (Seq<char>, Color) {
    match shown {
        Some(b) => (mark_of(b.status, now_ms), color_of(b.status)),
        None => ("○"@, dim_text()),
    }
}

pub open spec fn card_border(shown: Option<Build>, selected: bool) -> Color {
    if selected {
        Color::White
    } else {
        match shown {
            Some(b) => if b.status == BuildStatus::Running {
                Color::Green
            } else {
                sep_gray()
            },
            None => sep_gray(),
        }
    }
}

pub open spec fn card_hold(c: RecipeState, now: int) -> Option<Seq<SpanView>> {
    match c.recipe {
        Some(r) => match r.resource {
            Some(resource) => {
                let (s, color) = hold_text(c, resource@, now);
                Some(ln(" "@ + s + " "@, fg(color)))
            },
            None => None,
        },
        None => None,
    }
}

pub open spec fn card_about(c: RecipeState, width: int) -> Option<Seq<SpanView>> {
    match c.recipe {
        Some(r) => if r.description@.len() > 0 {
            Some(ln(" "@ + short_line(r.description@, minus(width, 2)) + " "@, fg(dim_text())))
        } else {
            None
        },
        None => None,
    }
}

pub open spec fn card_lines(c: RecipeState, now: int, width: int) -> Seq<Seq<SpanView>> {
    (match c.shown {
        Some(b) => seq![said(commit_text(b), width, fg(color_of(b.status)).bold())] + seq![
            time_text(b, c.typical, now),
        ] + say_lines(b, width),
        None => seq![said("never run — r runs it"@, width, fg(dim_text()))],
    }) + after_lines(c, now, width)
}

/// `k` is the card of a recipe in `area`.
pub open spec fn card_shows(k: BuildCard, area: Rect, c: RecipeState, selected: bool, now: int, now_ms: int) -> bool {
    let width = minus(area.width as int, 4);
    let (mark, color) = card_mark(c.shown, now_ms);
    &&& k.border == if selected {
        Border::Double
    } else {
        Border::Rounded
    }
    &&& k.border_color == card_border(c.shown, selected)
    &&& k.title@ == ln(" "@ + mark + " "@ + c.name@ + " "@, fg(color).bold())
    &&& line_view(k.hold) == card_hold(c, now)
    &&& line_view(k.about) == card_about(c, width)
    &&& k.inner == inside_padded(area, 1)
    &&& k.lines@ == card_lines(c, now, width)
}

fn build_card_lines(c: &RecipeState, now: i64, width: usize) -> (r: Lines)
    requires
        c.ok(),
    ensures
        r@ == card_lines(*c, now as int, width as int),
{
    let mut out = match &c.shown {
        Some(b) => {
            let mut l = Lines::of(commit_line(b, color_of(b.status), width));
            l.put(time_line(b, c.typical, now));
            l.join(say_line(b, width));
            l
        },
        None => Lines::of(text("never run — r runs it", width, fg(dim_text()))),
    };
    out.join(after_line(c, now, width));
    out
}

/// The card of a recipe.
pub fn render_card(area: Rect, c: &RecipeState, selected: bool, now: i64, now_ms: u64) -> (r: BuildCard)
    requires
        area.fits(),
        c.ok(),
    ensures
        card_shows(r, area, *c, selected, now as int, now_ms as int),
{
    let width: usize = (area.width as usize).saturating_sub(4);
    let (mark, color) = match &c.shown {
        Some(b) => status_mark(b.status, now_ms),
        None => ("○".to_owned(), dim_text()),
    };
    let running = match &c.shown {
        Some(b) => b.status == BuildStatus::Running,
        None => false,
    };
    let border_color = if selected {
        Color::White
    } else if running {
        Color::Green
    } else {
        sep_gray()
    };
    let border = if selected {
        Border::Double
    } else {
        Border::Rounded
    };
    let title = Line::of(&cat5(" ", &mark, " ", &c.name, " "), fg(color).bold());
    let hold = match &c.recipe {
        Some(r) => match &r.resource {
            Some(resource) => Some(hold_title(c, resource, now)),
            None => None,
        },
        None => None,
    };
    let about = match &c.recipe {
        Some(r) => if !r.description.as_str().is_empty() {
            let s = first_line_truncated(&r.description, width.saturating_sub(2));
            Some(Line::of(&cat3(" ", &s, " "), fg(dim_text())))
        } else {
            None
        },
        None => None,
    };
    let lines = build_card_lines(c, now, width);
    BuildCard { border, border_color, title, hold, about, inner: inner_padded(area, 1), lines }
}

// ---------------------------------------------------------------------------
// The tab
// ---------------------------------------------------------------------------

/// The place of a card.
#[derive(Clone, Copy, Debug, PartialEq, Eq, Structural)]
pub struct BuildCell {
    pub recipe: usize,
    pub area: Rect,
}

#[derive(Debug)]
pub enum BuildsBody {
    /// The area has no room.
    Nothing,
    /// There are no recipes, or none have been read yet.
    Message(Line),
    /// How many columns and how many rows of cards there are above the
    /// screen, and those on it.
    Cards { cols: u16, scroll: u16, cells: Vec<BuildCell> },
}

pub open spec fn no_recipes(loaded: bool) -> Seq<char> {
    if loaded {
        " No recipes. Add one under [builds.recipes] in config.toml — see `cc-hub help build`."@
    } else {
        " Reading builds …"@
    }
}

/// What is left below the first row.
pub open spec fn cards_area(area: Rect) -> Rect {
    Rect { y: (area.y + 1) as u16, height: minus(area.height as int, 1) as u16, ..area }
}

pub open spec fn columns(width: int) -> int {
    at_least(width / 72, 1)
}

pub open spec fn rows_on_screen(height: int) -> int {
    at_least(height / 6, 1)
}

/// The row of a card and its place in it.
pub open spec fn card_row(i: usize, cols: int) -> int {
    i as u16 as int / cols
}

pub open spec fn card_col(i: usize, cols: int) -> int {
    i as u16 as int % cols
}

/// The rows of cards above the screen.
pub open spec fn cards_scroll(body: Rect, selected: usize, scroll: int) -> int {
    scrolled(
        card_row(selected, columns(body.width as int)),
        scroll,
        rows_on_screen(body.height as int),
    )
}

/// A card is on the screen: its row is, and all of it fits.
pub open spec fn is_shown(body: Rect, scroll: int, i: usize) -> bool {
    let row = card_row(i, columns(body.width as int));
    &&& scroll <= row < scroll + rows_on_screen(body.height as int)
    &&& (row - scroll) * 6 + 6 <= body.height
}

/// The columns are equally wide, but the last takes what is left.
pub open spec fn card_area(body: Rect, scroll: int, i: usize) -> Rect {
    let cols = columns(body.width as int);
    let w = body.width as int / cols;
    let col = card_col(i, cols);
    Rect {
        x: (body.x + col * w) as u16,
        y: (body.y + (card_row(i, cols) - scroll) * 6) as u16,
        width: (if col == cols - 1 {
            body.width - col * w
        } else {
            w
        }) as u16,
        height: 6,
    }
}

/// The first `n` cards, as far as they are on the screen.
pub open spec fn cells(body: Rect, scroll: int, n: int) -> Seq<BuildCell>
    decreases n,
{
    if n <= 0 {
        Seq::empty()
    } else {
        let i = (n - 1) as usize;
        let before = cells(body, scroll, n - 1);
        if is_shown(body, scroll, i) {
            before.push(BuildCell { recipe: i, area: card_area(body, scroll, i) })
        } else {
            before
        }
    }
}

proof fn lemma_card_x(width: int, col: int)
    requires
        0 <= width,
        0 <= col < columns(width),
    ensures
        0 <= col * (width / columns(width)) <= width,
        col * (width / columns(width)) + width / columns(width) <= width,
{
    let cols = columns(width);
    let w = width / cols;
    assert(0 <= w && cols * w <= width) by (nonlinear_arith)
        requires
            0 <= width,
            1 <= cols,
            w == width / cols,
    ;
    assert(0 <= col * w && col * w + w <= cols * w) by (nonlinear_arith)
        requires
            0 <= col < cols,
            0 <= w,
    ;
}

/// Every card lies inside the body.
pub proof fn cards_stay_inside(body: Rect, scroll: int, i: usize)
    requires
        body.fits(),
        0 <= scroll,
        is_shown(body, scroll, i),
    ensures
        card_area(body, scroll, i).within(body),
{
    let cols = columns(body.width as int);
    lemma_card_x(body.width as int, card_col(i, cols));
}

/// The row of the selected card is on the screen.
pub proof fn selected_build_is_visible(body: Rect, selected: usize, scroll: int)
    requires
        0 <= scroll,
    ensures
        ({
            let s = cards_scroll(body, selected, scroll);
            let row = card_row(selected, columns(body.width as int));
            0 <= s <= row < s + rows_on_screen(body.height as int)
        }),
        body.height >= 6 ==> is_shown(body, cards_scroll(body, selected, scroll), selected),
{
    let cols = columns(body.width as int);
    assert(card_row(selected, cols) >= 0) by (nonlinear_arith)
        requires
            cols >= 1,
            card_row(selected, cols) == selected as u16 as int / cols,
    ;
}

fn build_cells(body: Rect, cols: u16, rows: u16, scroll: u16, n: usize) -> (r: Vec<BuildCell>)
    requires
        body.fits(),
        cols == columns(body.width as int),
        rows == rows_on_screen(body.height as int),
    ensures
        r@ == cells(body, scroll as int, n as int),
{
    let cell_w: u16 = body.width / cols;
    let mut out: Vec<BuildCell> = Vec::new();
    let mut i: usize = 0;
    while i < n
        invariant
            i <= n,
            body.fits(),
            cols == columns(body.width as int),
            rows == rows_on_screen(body.height as int),
            cell_w == body.width as int / cols as int,
            out@ == cells(body, scroll as int, i as int),
        decreases n - i,
    {
        let k: u16 = #[verifier::truncate] (i as u16);
        let row: u16 = k / cols;
        let col: u16 = k % cols;
        if scroll <= row && (row as u32) < scroll as u32 + rows as u32 {
            let down: u16 = row - scroll;
            if down as u32 * 6 + 6 <= body.height as u32 {
                proof {
                    lemma_card_x(body.width as int, col as int);
                }
                let across: u16 = col * cell_w;
                let w: u16 = if col == cols - 1 {
                    body.width - across
                } else {
                    cell_w
                };
                out.push(
                    BuildCell {
                        recipe: i,
                        area: Rect {
                            x: body.x + across,
                            y: body.y + down * 6,
                            width: w,
                            height: CARD_H,
                        },
                    },
                );
            }
        }
        i += 1;
    }
    out
}

/// Lays out the cards of so many recipes.
pub fn render_builds_body(area: Rect, recipes: usize, loaded: bool, selected: usize, scroll: u16) -> (r: BuildsBody)
    requires
        area.fits(),
    ensures
        match r {
            BuildsBody::Nothing => area.height < 2 || area.width < 20,
            BuildsBody::Message(l) => {
                &&& area.height >= 2 && area.width >= 20
                &&& recipes == 0
                &&& l@ == ln(no_recipes(loaded), fg(dim_text()))
            },
            BuildsBody::Cards { cols, scroll: s, cells: c } => {
                &&& area.height >= 2 && area.width >= 20
                &&& recipes > 0
                &&& cols == columns(area.width as int)
                &&& s == cards_scroll(cards_area(area), selected, scroll as int)
                &&& c@ == cells(cards_area(area), s as int, recipes as int)
            },
        },
{
    if area.height < 2 || area.width < 20 {
        return BuildsBody::Nothing;
    }
    if recipes == 0 {
        let msg = if loaded {
            " No recipes. Add one under [builds.recipes] in config.toml — see `cc-hub help build`."
        } else {
            " Reading builds …"
        };
        return BuildsBody::Message(Line::of(msg, fg(dim_text())));
    }
    let body = Rect { x: area.x, y: area.y + 1, width: area.width, height: area.height - 1 };
    let cols: u16 = if body.width >= CARD_W {
        body.width / CARD_W
    } else {
        1
    };
    let rows: u16 = if body.height >= CARD_H {
        body.height / CARD_H
    } else {
        1
    };
    let k: u16 = #[verifier::truncate] (selected as u16);
    let sel: u16 = k / cols;
    let s: u16 = if sel < scroll {
        sel
    } else if sel as u32 >= scroll as u32 + rows as u32 {
        sel - (rows - 1)
    } else {
        scroll
    };
    BuildsBody::Cards { cols, scroll: s, cells: build_cells(body, cols, rows, s, recipes) }
}

/// What the space bar does to the resource of the selected recipe, if it has
/// one: `held` says whether this tab holds it or waits for it.
pub open spec fn space_text(held: Option<bool>) -> Option<Seq<char>> {
    match held {
        Some(true) => Some("release "@),
        Some(false) => Some("reserve "@),
        None => None,
    }
}

pub fn space_verb(held: Option<bool>) -> (r: Option<String>)
    ensures
        opt(r) == space_text(held),
{
    match held {
        Some(true) => Some("release ".to_owned()),
        Some(false) => Some("reserve ".to_owned()),
        None => None,
    }
}

/// What is open over the tab.
#[derive(Clone, Copy, Debug, PartialEq, Eq, Structural)]
pub enum BuildsOverlay {
    Nothing,
    Form,
    Log,
}

pub open spec fn build_keys(o: BuildsOverlay) -> Seq<char> {
    match o {
        BuildsOverlay::Form => "tab/↑↓:field  ←/→:change  type:edit  enter:run  esc:cancel"@,
        BuildsOverlay::Log => "j/k:scroll  PgUp/PgDn:page  G:follow  esc:close"@,
        BuildsOverlay::Nothing => "r:run  n:run with…  c:cancel  enter/f:log  h/j/k/l:nav  tab:next  q:quit"@,
    }
}

pub fn hints(o: BuildsOverlay) -> (r: String)
    ensures
        r@ == build_keys(o),
{
    match o {
        BuildsOverlay::Form => "tab/↑↓:field  ←/→:change  type:edit  enter:run  esc:cancel".to_owned(),
        BuildsOverlay::Log => "j/k:scroll  PgUp/PgDn:page  G:follow  esc:close".to_owned(),
        BuildsOverlay::Nothing => "r:run  n:run with…  c:cancel  enter/f:log  h/j/k/l:nav  tab:next  q:quit".to_owned(),
    }
}

// ---------------------------------------------------------------------------
// The form
// ---------------------------------------------------------------------------

#[derive(Clone, Copy, Debug, PartialEq, Eq, Structural)]
pub enum FormField {
    Recipe,
    Checkout,
    Ref,
    Route,
}

/// What the fields are called.
#[derive(Debug)]
pub struct FormLabels {
    pub recipe: String,
    pub checkout: String,
    pub ref_name: String,
    pub route: String,
}

#[derive(Debug)]
pub struct BuildForm {
    pub recipe: String,
    pub cwd: String,
    pub ref_name: String,
    pub route: Option<String>,
    /// The field that has the focus.
    pub field: FormField,
}

/// A path, with `~` for the home directory it begins with.
pub open spec fn tilde_text(path: Seq<char>, home: Option<Seq<char>>) -> Seq<char> {
    match home {
        Some(h) => if begins(path, h) && (path.len() == h.len() || path[h.len() as int] == '/') {
            "~"@ + path.skip(h.len() as int)
        } else {
            path
        },
        None => path,
    }
}

/// A path as a person types it who lives in `home`.
pub fn tilde(path: &str, home: &Option<String>) -> (r: String)
    ensures
        r@ == tilde_text(path@, opt(*home)),
{
    match home {
        Some(h) => match strip_prefix(path, h) {
            Some(rest) => {
                let n: usize = rest.as_str().unicode_len();
                if n == 0 || rest.as_str().get_char(0) == '/' {
                    cat2("~", &rest)
                } else {
                    path.to_owned()
                }
            },
            None => path.to_owned(),
        },
        None => path.to_owned(),
    }
}

pub open spec fn is_text(f: FormField) -> bool {
    f == FormField::Checkout || f == FormField::Ref
}

pub open spec fn field_label(l: FormLabels, f: FormField) -> Seq<char> {
    match f {
        FormField::Recipe => l.recipe@,
        FormField::Checkout => l.checkout@,
        FormField::Ref => l.ref_name@,
        FormField::Route => l.route@,
    }
}

/// No ref stands for the working tree.
pub open spec fn is_placeholder(form: BuildForm, f: FormField) -> bool {
    f == FormField::Ref && form.ref_name@.len() == 0 && form.field != f
}

pub open spec fn field_value(form: BuildForm, f: FormField, home: Option<Seq<char>>) -> Seq<char> {
    match f {
        FormField::Recipe => form.recipe@,
        FormField::Checkout => if form.field == f {
            form.cwd@
        } else {
            tilde_text(form.cwd@, home)
        },
        FormField::Ref => if is_placeholder(form, f) {
            "working tree"@
        } else {
            form.ref_name@
        },
        FormField::Route => or_else(form.route, "auto"@),
    }
}

/// A value with its cursor, or with the arrows that change it.
pub open spec fn field_shown(form: BuildForm, f: FormField, home: Option<Seq<char>>) -> Seq<char> {
    let v = field_value(form, f, home);
    if is_text(f) {
        v + if form.field == f {
            "▎"@
        } else {
            ""@
        }
    } else if form.field == f {
        "‹ "@ + v + " ›"@
    } else {
        v
    }
}

pub open spec fn field_row(
    form: BuildForm,
    labels: FormLabels,
    f: FormField,
    width: int,
    home: Option<Seq<char>>,
) -> Seq<SpanView> {
    let style = if form.field == f {
        fg(accent_blue()).bold()
    } else {
        fg(label_gray())
    };
    ln(
        " "@ + (if form.field == f {
            "▸"@
        } else {
            " "@
        }) + " "@,
        style,
    ) + ln(left(field_label(labels, f), 9), style) + ln(
        short_line(field_shown(form, f, home), minus(width, 13)),
        if form.field == f {
            fg(Color::White)
        } else if is_placeholder(form, f) {
            fg(dim_text()).italic()
        } else {
            fg(faint_text())
        },
    )
}

fn value_of(form: &BuildForm, f: FormField, home: &Option<String>) -> (r: String)
    ensures
        r@ == field_value(*form, f, opt(*home)),
{
    let focused = form.field == f;
    match f {
        FormField::Recipe => form.recipe.as_str().to_owned(),
        FormField::Checkout => if focused {
            form.cwd.as_str().to_owned()
        } else {
            tilde(&form.cwd, home)
        },
        FormField::Ref => if form.ref_name.as_str().is_empty() && !focused {
            "working tree".to_owned()
        } else {
            form.ref_name.as_str().to_owned()
        },
        FormField::Route => text_or_else(&form.route, "auto"),
    }
}

pub fn field_line(
    form: &BuildForm,
    labels: &FormLabels,
    f: FormField,
    width: usize,
    home: &Option<String>,
) -> (r: Line)
    ensures
        r@ == field_row(*form, *labels, f, width as int, opt(*home)),
{
    let focused = form.field == f;
    let value = value_of(form, f, home);
    let shown = match f {
        FormField::Checkout | FormField::Ref => {
            let cursor = if focused {
                "▎"
            } else {
                ""
            };
            cat2(&value, cursor)
        },
        _ => if focused {
            cat3("‹ ", &value, " ›")
        } else {
            value
        },
    };
    let placeholder = f == FormField::Ref && form.ref_name.as_str().is_empty() && !focused;
    let (mark, label_style, value_style) = if focused {
        ("▸", fg(accent_blue()).bold(), fg(Color::White))
    } else if placeholder {
        (" ", fg(label_gray()), fg(dim_text()).italic())
    } else {
        (" ", fg(label_gray()), fg(faint_text()))
    };
    let label = match f {
        FormField::Recipe => labels.recipe.as_str(),
        FormField::Checkout => labels.checkout.as_str(),
        FormField::Ref => labels.ref_name.as_str(),
        FormField::Route => labels.route.as_str(),
    };
    let mut l = Line::of(&cat3(" ", mark, " "), label_style);
    l.put(&text_left(label, 9), label_style);
    l.put(&first_line_truncated(&shown, width.saturating_sub(13)), value_style);
    l
}

#[derive(Debug)]
pub struct FormPopup {
    pub area: Rect,
    pub inner: Rect,
    pub lines: Lines,
}

pub open spec fn form_area(area: Rect) -> Rect {
    middle(area, at_most(72, area.width as int), at_most(10, area.height as int))
}

/// The fields, and what the recipe is for.
pub open spec fn form_lines(
    form: BuildForm,
    labels: FormLabels,
    about: Option<String>,
    width: int,
    home: Option<Seq<char>>,
) -> Seq<Seq<SpanView>> {
    seq![field_row(form, labels, FormField::Recipe, width, home)] + seq![
        field_row(form, labels, FormField::Checkout, width, home),
    ] + seq![field_row(form, labels, FormField::Ref, width, home)] + seq![
        field_row(form, labels, FormField::Route, width, home),
    ] + seq![blank()] + (match about {
        Some(d) => seq![ln(" "@ + short_line(d@, width - 2), fg(dim_text()))],
        None => no_lines(),
    })
}

pub open spec fn form_shows(
    p: FormPopup,
    area: Rect,
    form: BuildForm,
    labels: FormLabels,
    about: Option<String>,
    home: Option<Seq<char>>,
) -> bool {
    &&& p.area == form_area(area)
    &&& p.inner == inside(p.area)
    &&& p.lines@ == form_lines(form, labels, about, p.inner.width as int, home)
}

/// The description of the recipe has room.
pub open spec fn has_room(area: Rect, about: Option<String>) -> bool {
    about is Some ==> inside(form_area(area)).width >= 2
}

/// The form for somebody who lives in `home`. `about` is the description of
/// the recipe.
pub fn build_form_at(
    area: Rect,
    form: &BuildForm,
    labels: &FormLabels,
    about: &Option<String>,
    home: &Option<String>,
) -> (r: FormPopup)
    requires
        area.fits(),
        has_room(area, *about),
    ensures
        form_shows(r, area, *form, *labels, *about, opt(*home)),
{
    let popup = centered_fixed(area, 72, 10);
    let inner = inner_of(popup);
    let width: usize = inner.width as usize;
    let mut lines = Lines::of(field_line(form, labels, FormField::Recipe, width, home));
    lines.put(field_line(form, labels, FormField::Checkout, width, home));
    lines.put(field_line(form, labels, FormField::Ref, width, home));
    lines.put(field_line(form, labels, FormField::Route, width, home));
    lines.put(Line::empty());
    let last = match about {
        Some(d) => Lines::of(
            Line::of(&cat2(" ", &first_line_truncated(d, width - 2)), fg(dim_text())),
        ),
        None => Lines::none(),
    };
    lines.join(last);
    FormPopup { area: popup, inner, lines }
}

/// The form, with the paths below the user's home shortened.
pub fn render_build_form(area: Rect, form: &BuildForm, labels: &FormLabels, about: &Option<String>) -> (r: FormPopup)
    requires
        area.fits(),
        has_room(area, *about),
    ensures
        exists|home: Option<Seq<char>>| #[trigger] form_shows(r, area, *form, *labels, *about, home),
{
    let home = home_dir();
    let r = build_form_at(area, form, labels, about, &home);
    assert(form_shows(r, area, *form, *labels, *about, opt(home)));
    r
}

// ---------------------------------------------------------------------------
// The log
// ---------------------------------------------------------------------------

/// The log of a build, and how many lines up the user has scrolled.
#[derive(Debug)]
pub struct LogView {
    pub id: String,
    pub lines: Vec<String>,
    pub back: usize,
}

pub open spec fn log_style(line: Seq<char>) -> Style {
    if begins(line, "$ "@) {
        fg(accent_blue()).bold()
    } else if begins(line, "cc-hub: "@) {
        fg(muted_text())
    } else {
        fg(faint_text())
    }
}

/// The lines of the log that end `back` lines above its end.
pub open spec fn log_text(log: LogView, width: int, height: int) -> Seq<Seq<SpanView>> {
    if log.lines@.len() == 0 {
        seq![ln(" nothing written yet"@, fg(dim_text()))]
    } else {
        let end = log.lines@.len() - log.back;
        let start = minus(end, height);
        Seq::new(
            (end - start) as nat,
            |k: int| nth_log_line(log, width, start + k),
        )
    }
}

pub open spec fn nth_log_line(log: LogView, width: int, i: int) -> Seq<SpanView> {
    ln(short_line(log.lines@[i]@, width), log_style(log.lines@[i]@))
}

pub fn log_lines(log: &LogView, area: Rect) -> (r: Lines)
    requires
        log.lines@.len() > 0 ==> log.back <= log.lines@.len(),
    ensures
        r@ == log_text(*log, area.width as int, area.height as int),
{
    let total: usize = log.lines.len();
    if total == 0 {
        return Lines::of(Line::of(" nothing written yet", fg(dim_text())));
    }
    let end: usize = total - log.back;
    let start: usize = end.saturating_sub(area.height as usize);
    let width: usize = area.width as usize;
    let ghost all = log_text(*log, width as int, area.height as int);
    let mut out = Lines::none();
    let mut i: usize = start;
    assert(out@ =~= all.take(0));
    while i < end
        invariant
            start <= i <= end <= log.lines@.len(),
            end == log.lines@.len() - log.back,
            start == minus(end as int, area.height as int),
            log.lines@.len() > 0,
            all == log_text(*log, width as int, area.height as int),
            out@ == all.take(i - start),
        decreases end - i,
    {
        let line = &log.lines[i];
        let style = if starts_with(line, "$ ") {
            fg(accent_blue()).bold()
        } else if starts_with(line, "cc-hub: ") {
            fg(muted_text())
        } else {
            fg(faint_text())
        };
        out.put(Line::of(&first_line_truncated(line, width), style));
        assert(all[i - start] == nth_log_line(*log, width as int, i as int));
        i += 1;
        assert(out@ =~= all.take(i - start));
    }
    assert(all.take(i - start) =~= all);
    out
}

/// While the user has not scrolled, the last line of the log is on the
/// screen.
pub proof fn log_follows_its_end(log: LogView, width: int, height: int)
    requires
        log.lines@.len() > 0,
        log.back == 0,
        1 <= height,
    ensures
        log_text(log, width, height).len() > 0,
        log_text(log, width, height).last() == nth_log_line(log, width, log.lines@.len() - 1),
{
}

#[derive(Debug)]
pub struct LogPopup {
    pub area: Rect,
    pub title: String,
    pub footer: String,
    pub inner: Rect,
    pub lines: Lines,
}

/// The popup with the log of a build, if that is still known.
pub fn render_build_log(area: Rect, log: &LogView, build: &Option<Build>) -> (r: LogPopup)
    requires
        area.fits(),
        log.lines@.len() > 0 ==> log.back <= log.lines@.len(),
    ensures
        r.area == middle(
            area,
            scaled(area.width as int, share_92()),
            scaled(area.height as int, share_92()),
        ),
        r.title@ == match *build {
            Some(b) => " "@ + b.target@ + " · "@ + b.status_label@ + " "@,
            None => " "@ + log.id@ + " "@,
        },
        r.footer@ == if log.back == 0 {
            " following "@
        } else {
            " "@ + dec(log.back as nat) + " lines up · G follows "@
        },
        r.inner == inside(r.area),
        r.lines@ == log_text(*log, r.inner.width as int, r.inner.height as int),
{
    let popup = centered_rect(area, share_92());
    let title = match build {
        Some(b) => cat5(" ", &b.target, " · ", &b.status_label, " "),
        None => cat3(" ", &log.id, " "),
    };
    let footer = if log.back == 0 {
        " following ".to_owned()
    } else {
        cat3(" ", &text_count(log.back), " lines up · G follows ")
    };
    let inner = inner_of(popup);
    LogPopup { area: popup, title, footer, inner, lines: log_lines(log, inner) }
}

// ---------------------------------------------------------------------------
// What the cards tell
// ---------------------------------------------------------------------------

/// The title of a card: how the build stands and the name of the recipe.
pub proof fn build_titles_tell_the_status(
    k: BuildCard,
    area: Rect,
    c: RecipeState,
    selected: bool,
    now: int,
    now_ms: int,
)
    requires
        card_shows(k, area, c, selected, now, now_ms),
    ensures
        line_text(k.title@) == " "@ + (match c.shown {
            None => "○"@,
            Some(b) => match b.status {
                BuildStatus::Queued => "󰔟"@,
                BuildStatus::Running => spinner(now_ms),
                BuildStatus::Succeeded => "✓"@,
                BuildStatus::Failed => "✗"@,
                BuildStatus::Cancelled => "⊘"@,
            },
        }) + " "@ + c.name@ + " "@,
        selected ==> k.border == Border::Double && k.border_color == Color::White,
        !selected ==> k.border == Border::Rounded && k.border_color != Color::White,
        c.recipe matches Some(r) ==> (r.description@.len() > 0 ==> (k.about matches Some(l) && line_text(l@) == " "@
            + short_line(
            r.description@,
            if area.width >= 6 {
                area.width - 6
            } else {
                0
            },
        ) + " "@)),
{
    broadcast use {crate::style::joined_line_text, crate::style::span_line_text, crate::style::blank_line_text};

}

/// A build is told by its ref, its commit and its subject, as far as they are known, and by
/// its target where none is.
pub proof fn builds_tell_their_commit(b: Build)
    ensures
        b.ref_name is None && b.commit is None && b.subject is None ==> commit_text(b) == b.target@,
        b.ref_name matches Some(r) ==> (b.commit matches Some(c) ==> (b.subject matches Some(s) ==> commit_text(b)
            == r@ + " · "@ + short_commit(c@) + " · "@ + s@)),
        b.ref_name is None ==> (b.commit matches Some(c) ==> (b.subject matches Some(s) ==> commit_text(b)
            == short_commit(c@) + " · "@ + s@)),
        b.ref_name matches Some(r) ==> (b.commit is None ==> (b.subject matches Some(s) ==> commit_text(b) == r@
            + " · "@ + s@)),
        b.ref_name matches Some(r) ==> (b.commit matches Some(c) ==> (b.subject is None ==> commit_text(b) == r@
            + " · "@ + short_commit(c@))),
        b.ref_name is None ==> (b.commit matches Some(c) ==> (b.subject is None ==> commit_text(b) == short_commit(
            c@,
        ))),
        b.ref_name matches Some(r) ==> (b.commit is None && b.subject is None ==> commit_text(b) == r@),
{
    reveal_with_fuel(joined, 4);
    let p = commit_parts(b);
    if p.len() == 3 {
        assert(p.drop_last() =~= seq![p[0], p[1]]);
        assert(p.drop_last().drop_last() =~= seq![p[0]]);
    } else if p.len() == 2 {
        assert(p.drop_last() =~= seq![p[0]]);
    }
}

/// The rows of a card on a build: what is built, then the route and how long, then what it
/// does or why it did not work. A build that worked has no such third row.
pub proof fn build_cards_tell_the_build(
    k: BuildCard,
    area: Rect,
    c: RecipeState,
    selected: bool,
    now: int,
    now_ms: int,
)
    requires
        card_shows(k, area, c, selected, now, now_ms),
        area.width >= 4,
    ensures
        c.shown is None ==> line_text(k.lines@[0]) == short_line("never run — r runs it"@, area.width - 4),
        c.shown matches Some(b) ==> {
            let route = match b.taken {
                Some(s) => s@,
                None => match b.route {
                    Some(s) => s@,
                    None => "auto"@,
                },
            };
            let width = area.width - 4;
            &&& k.lines@.len() >= 2
            &&& line_text(k.lines@[0]) == short_line(commit_text(b), width)
            &&& line_text(k.lines@[1]) == route + "  "@ + line_text(time_spans(b, c.typical, now))
            &&& b.status == BuildStatus::Queued || b.status == BuildStatus::Running ==> line_text(k.lines@[2])
                == short_line(
                match b.phase {
                    Some(p) => p@,
                    None => "starting"@,
                },
                width,
            )
            &&& b.status == BuildStatus::Failed ==> line_text(k.lines@[2]) == short_line(
                match b.error {
                    Some(e) => e@,
                    None => match b.exit_code {
                        Some(n) => "exited with "@ + dec_int(n as int),
                        None => "failed"@,
                    },
                },
                width,
            )
            &&& b.status == BuildStatus::Cancelled ==> line_text(k.lines@[2]) == short_line("cancelled"@, width)
            &&& b.status == BuildStatus::Succeeded && c.queued == 0 && c.drifted is None ==> k.lines@.len() == 2
        },
{
    broadcast use {crate::style::joined_line_text, crate::style::span_line_text, crate::style::blank_line_text};

    let rows = card_lines(c, now, area.width - 4);
    match c.shown {
        Some(b) => {
            let third = say_lines(b, area.width - 4);
            if third.len() > 0 {
                assert(rows[2] == third[0]);
            }
        },
        None => {},
    }
}

/// How long a build waits, runs beside how long it usually does, or ran and how long ago
/// that was.
pub proof fn builds_tell_their_time(b: Build, typical: Option<i64>, now: int)
    ensures
        b.status == BuildStatus::Queued ==> line_text(time_spans(b, typical, now)) == "queued "@ + age_text(
            now,
            b.created_at as int,
        ),
        b.status == BuildStatus::Running && typical is None ==> line_text(time_spans(b, typical, now)) == spoken(
            match b.elapsed {
                Some(n) => n as int,
                None => 0,
            },
        ),
        b.status == BuildStatus::Running ==> (typical matches Some(usual) ==> (usual > 0 ==> ({
            let elapsed = match b.elapsed {
                Some(n) => n as int,
                None => 0,
            };
            let full = bar_filled(elapsed, usual as int);
            line_text(time_spans(b, typical, now)) == fill('▰', full) + fill('▱', BAR_W - full) + ("  "@ + spoken(
                elapsed,
            ) + " / ~"@ + spoken(usual as int))
        }))),
        b.status != BuildStatus::Queued && b.status != BuildStatus::Running ==> (b.elapsed matches Some(n) ==> (
        b.finished_at matches Some(at) ==> line_text(time_spans(b, typical, now)) == spoken(n as int) + " · "@
            + age_text(now, at as int) + " ago"@)),
{
    broadcast use {crate::style::joined_line_text, crate::style::span_line_text, crate::style::blank_line_text};

}

/// The bar is empty when a build starts, and all but full once it takes its usual time.
pub proof fn bars_fill_up(usual: int)
    requires
        0 < usual <= i64::MAX,
    ensures
        bar_filled(0, usual) == 0,
        bar_filled(usual, usual) == BAR_W - 1,
{
    crate::rounding::ratio_of_whole(usual as nat, BAR_W as nat);
}

/// The last row of a card: the builds that wait; else the commit that something else has
/// run since; else, below one that did not work, the last that did.
pub proof fn build_cards_tell_what_comes_after(c: RecipeState, now: int, width: int)
    ensures
        ({
            let rows = card_lines(c, now, width);
            &&& c.queued > 0 ==> line_text(rows.last()) == short_line("+"@ + dec(c.queued as nat) + " queued"@, width)
            &&& c.queued == 0 ==> (c.drifted matches Some(current) ==> line_text(rows.last()) == short_line(
                "now at "@ + short_commit(current@) + (match known_subject(c.builds@, current@, 0) {
                    Some(s) => " · "@ + s,
                    None => " · not run from here"@,
                }),
                width,
            ))
            &&& c.queued == 0 && c.drifted is None ==> (c.last_success matches Some(g) ==> (c.shown matches Some(b)
                ==> (b.status == BuildStatus::Failed || b.status == BuildStatus::Cancelled ==> line_text(rows.last())
                == short_line(
                "last ✓ "@ + (match g.commit {
                    Some(x) => short_commit(x@),
                    None => g.target@,
                }) + (match g.subject {
                    Some(s) => " · "@ + s@,
                    None => ""@,
                }) + (match g.finished_at {
                    Some(at) => " · "@ + age_text(now, at as int) + " ago"@,
                    None => ""@,
                }),
                width,
            ))))
        }),
{
    broadcast use {crate::style::joined_line_text, crate::style::span_line_text, crate::style::blank_line_text};

}

/// The subject of a commit is that of the first build of it, one of the two ids being the
/// beginning of the other.
pub proof fn subjects_are_of_the_first_build(builds: Seq<Build>, current: Seq<char>, i: int, k: int)
    requires
        0 <= i <= k < builds.len(),
        builds[k].commit matches Some(c) && (begins(c@, current) || begins(current, c@)),
        forall|j: int| i <= j < k ==> ((#[trigger] builds[j]).commit matches Some(c) ==> !begins(c@, current) && !begins(
            current,
            c@,
        )),
    ensures
        known_subject(builds, current, i) == (match builds[k].subject {
            Some(s) => Some(s@),
            None => None,
        }),
    decreases k - i,
{
    if i < k {
        subjects_are_of_the_first_build(builds, current, i + 1, k);
    }
}

/// Who has the resource of a recipe: this tab and since when, someone that it waits for,
/// someone else, or nobody.
pub proof fn holds_are_told(k: BuildCard, area: Rect, c: RecipeState, selected: bool, now: int, now_ms: int)
    requires
        card_shows(k, area, c, selected, now, now_ms),
        c.recipe is Some && c.recipe->Some_0.resource is Some,
    ensures
        ({
            let what = c.recipe->Some_0.resource->Some_0@;
            let told = match c.hold {
                Some(h) => if h.granted {
                    "󰌾 "@ + what + " · "@ + age_text(now, h.since as int)
                } else {
                    match h.behind {
                        Some(who) => "󰔟 "@ + what + " · behind "@ + who@,
                        None => "󰔟 "@ + what,
                    }
                },
                None => match c.holder {
                    Some(who) => "󰌾 "@ + what + " held by "@ + who@,
                    None => what + " free"@,
                },
            };
            k.hold matches Some(l) && line_text(l@) == " "@ + told + " "@
        }),
{
    broadcast use {crate::style::joined_line_text, crate::style::span_line_text, crate::style::blank_line_text};

}

/// A long commit is shortened to its first eleven bytes, and a short one is not.
pub proof fn commits_are_shortened(c: Seq<char>)
    requires
        can_shorten(c),
    ensures
        byte_len(c) <= 11 ==> short_commit(c) == c,
        byte_len(c) > 11 ==> byte_len(short_commit(c)) == 11 && short_commit(c).len() <= c.len() && c.take(
            short_commit(c).len() as int,
        ) == short_commit(c),
{
    if byte_len(c) > 11 {
        crate::text::front_is_a_beginning(c, 11);
        assert(c.take(short_commit(c).len() as int) =~= short_commit(c));
    }
}

/// The form has a row for each field, in its order, the selected one with a mark: its label
/// and its value, behind which the selected one has a cursor where it is typed, and around
/// which it has arrows where it is chosen.
pub proof fn form_rows_tell_the_fields(
    p: FormPopup,
    area: Rect,
    form: BuildForm,
    labels: FormLabels,
    about: Option<String>,
    home: Option<Seq<char>>,
)
    requires
        form_shows(p, area, form, labels, about, home),
    ensures
        ({
            let max = minus(p.inner.width as int, 13);
            let mark = |f: FormField|
                if form.field == f {
                    " "@ + "▸"@ + " "@
                } else {
                    " "@ + " "@ + " "@
                };
            let route = match form.route {
                Some(r) => r@,
                None => "auto"@,
            };
            &&& p.lines@.len() >= 5
            &&& line_text(p.lines@[0]) == mark(FormField::Recipe) + left(labels.recipe@, 9) + short_line(
                if form.field == FormField::Recipe {
                    "‹ "@ + form.recipe@ + " ›"@
                } else {
                    form.recipe@
                },
                max,
            )
            &&& line_text(p.lines@[1]) == mark(FormField::Checkout) + left(labels.checkout@, 9) + short_line(
                if form.field == FormField::Checkout {
                    form.cwd@ + "▎"@
                } else {
                    tilde_text(form.cwd@, home) + ""@
                },
                max,
            )
            &&& line_text(p.lines@[2]) == mark(FormField::Ref) + left(labels.ref_name@, 9) + short_line(
                if form.field == FormField::Ref {
                    form.ref_name@ + "▎"@
                } else if form.ref_name@.len() == 0 {
                    "working tree"@ + ""@
                } else {
                    form.ref_name@ + ""@
                },
                max,
            )
            &&& line_text(p.lines@[3]) == mark(FormField::Route) + left(labels.route@, 9) + short_line(
                if form.field == FormField::Route {
                    "‹ "@ + route + " ›"@
                } else {
                    route
                },
                max,
            )
            &&& about matches Some(d) ==> line_text(p.lines@[5]) == " "@ + short_line(d@, p.inner.width - 2)
        }),
{
    broadcast use {crate::style::joined_line_text, crate::style::span_line_text, crate::style::blank_line_text};

}

/// A path below the home directory begins with a tilde, and no other does.
pub proof fn homes_are_shortened(home: Seq<char>, rest: Seq<char>, path: Seq<char>)
    ensures
        tilde_text(home + seq!['/'] + rest, Some(home)) == "~"@ + (seq!['/'] + rest),
        tilde_text(home, Some(home)) == "~"@,
        tilde_text(path, None) == path,
        !begins(path, home) ==> tilde_text(path, Some(home)) == path,
{
    let p = home + seq!['/'] + rest;
    assert(p.take(home.len() as int) =~= home);
    assert(home.take(home.len() as int) =~= home);
    assert(p.skip(home.len() as int) =~= seq!['/'] + rest);
    assert("~"@ + home.skip(home.len() as int) =~= "~"@);
}

/// The log shows the lines that end `back` lines above its end, each on a row, commands and
/// the hub's own lines apart from the others.
pub proof fn log_lines_are_shown(log: LogView, width: int, height: int, k: int)
    requires
        log.lines@.len() > 0,
        log.back <= log.lines@.len(),
        0 < height,
        0 <= k < log_text(log, width, height).len(),
    ensures
        ({
            let rows = log_text(log, width, height);
            let end = log.lines@.len() - log.back;
            let i = end - rows.len() + k;
            &&& rows.len() == if end < height {
                end
            } else {
                height
            }
            &&& line_text(rows[k]) == short_line(log.lines@[i]@, width)
            &&& begins(log.lines@[i]@, "$ "@) ==> rows[k][0].style == fg(accent_blue()).bold()
            &&& begins(log.lines@[i]@, "cc-hub: "@) ==> rows[k][0].style == fg(muted_text())
        }),
{
    broadcast use {crate::style::joined_line_text, crate::style::span_line_text, crate::style::blank_line_text};

    reveal_strlit("$ ");
    reveal_strlit("cc-hub: ");
    let rows = log_text(log, width, height);
    let end = log.lines@.len() - log.back;
    let i = end - rows.len() + k;
    assert(rows[k] == nth_log_line(log, width, i));
    let line = log.lines@[i]@;
    if begins(line, "cc-hub: "@) && begins(line, "$ "@) {
        assert(line.take(8)[0] == 'c');
        assert(line.take(2)[0] == '$');
    }
}

/// The space bar releases what is held and reserves what is not.
pub proof fn space_bar_toggles()
    ensures
        space_text(Some(true)) == Some("release "@),
        space_text(Some(false)) == Some("reserve "@),
        space_text(None) is None,
        build_keys(BuildsOverlay::Form) == "tab/↑↓:field  ←/→:change  type:edit  enter:run  esc:cancel"@,
        build_keys(BuildsOverlay::Log) == "j/k:scroll  PgUp/PgDn:page  G:follow  esc:close"@,
        build_keys(BuildsOverlay::Nothing)
            == "r:run  n:run with…  c:cancel  enter/f:log  h/j/k/l:nav  tab:next  q:quit"@,
{
}

proof fn lemma_cell_is_listed(body: Rect, scroll: int, n: int, i: int)
    requires
        0 <= i < n <= usize::MAX,
    ensures
        is_shown(body, scroll, i as usize) ==> cells(body, scroll, n).contains(
            BuildCell { recipe: i as usize, area: card_area(body, scroll, i as usize) },
        ),
        forall|k: int|
            0 <= k < cells(body, scroll, n).len() ==> (#[trigger] cells(body, scroll, n)[k]).recipe < n && is_shown(
                body,
                scroll,
                cells(body, scroll, n)[k].recipe,
            ),
    decreases n,
{
    let all = cells(body, scroll, n);
    let before = cells(body, scroll, n - 1);
    let c = BuildCell { recipe: i as usize, area: card_area(body, scroll, i as usize) };
    if n > 1 {
        lemma_cell_is_listed(body, scroll, n - 1, if i < n - 1 {
            i
        } else {
            0
        });
    } else {
        assert(before.len() == 0);
    }
    assert(forall|k: int| 0 <= k < before.len() ==> all[k] == before[k]);
    if is_shown(body, scroll, i as usize) {
        if i == n - 1 {
            assert(all[all.len() - 1] == c);
        } else {
            let k = choose|k: int| 0 <= k < before.len() && before[k] == c;
            assert(all[k] == c);
        }
    }
}

/// Exactly the cards that are on the screen are drawn, each in its place.
pub proof fn cards_on_screen_are_drawn(body: Rect, scroll: int, recipes: usize, i: int)
    requires
        0 <= i < recipes,
    ensures
        is_shown(body, scroll, i as usize) ==> cells(body, scroll, recipes as int).contains(
            BuildCell { recipe: i as usize, area: card_area(body, scroll, i as usize) },
        ),
        forall|k: int|
            0 <= k < cells(body, scroll, recipes as int).len() ==> is_shown(
                body,
                scroll,
                (#[trigger] cells(body, scroll, recipes as int)[k]).recipe,
            ),
{
    lemma_cell_is_listed(body, scroll, recipes as int, i);
}

/// Without recipes the tab says that it still reads them, or how to add one.
pub proof fn empty_builds_tell_how_to_begin()
    ensures
        no_recipes(false) == " Reading builds …"@,
        no_recipes(true)
            == " No recipes. Add one under [builds.recipes] in config.toml — see `cc-hub help build`."@,
{
}

/// A build that waits is yellow, one that runs or worked is green, one that failed is red, and
/// one that was cancelled is gray.
pub proof fn colours_tell_the_build()
    ensures
        color_of(BuildStatus::Queued) == Color::Yellow,
        color_of(BuildStatus::Running) == Color::Green,
        color_of(BuildStatus::Succeeded) == Color::Green,
        color_of(BuildStatus::Failed) == Color::Red,
        color_of(BuildStatus::Cancelled) == label_gray(),
{
}

} // verus!
