//! The agents tab: a row for each persistent agent.

use crate::common::{has_calendar_time, in_calendar, is_offset, text_at, zone_offset, zoned_text};
use crate::geometry::Rect;
use crate::models::{first_line_truncated, opt, short_line};
use crate::palette::{dim_text, faint_text, label_gray, muted_text, purple, sep_gray};
use crate::parts::{begins, find_text, is_digit, join, joined, position_of, starts_with, words, words_of};
use crate::sessions::{spinner, spinner_frame};
use crate::style::{blank, fg, line_text, ln, plain, Color, Line, Lines, SpanView, Style};
use crate::text::{
    at_least, at_most, byte_len, cat2, cat3, chars_of, dec, fill, left, minus, right, same, slice_of, text_count,
    text_dec, text_fill, text_left, text_right,
};
use vstd::prelude::*;

verus! {

broadcast use vstd::string::group_string_axioms;

// ---------------------------------------------------------------------------
// Agents
// ---------------------------------------------------------------------------

#[derive(Clone, Copy, Debug, PartialEq, Eq, Structural)]
pub enum AgentStatus {
    Ticking,
    Sleeping,
    Halted,
    Paused,
    Disabled,
    Broken,
}

/// A run that goes on, since when and on which event.
#[derive(Debug)]
pub struct Ticking {
    pub since: i64,
    pub event: Option<String>,
}

/// A run that is over.
#[derive(Debug)]
pub struct TickRecord {
    pub at: i64,
    pub event: Option<String>,
    pub ok: bool,
    pub subtype: Option<String>,
    pub turns: u64,
    pub compactions: u64,
    /// What it cost, as it is shown.
    pub cost: String,
    pub context_start: u64,
    pub context_end: u64,
    pub duration_s: u64,
    pub result: String,
    pub detail: Option<String>,
}

/// A run with its number.
#[derive(Debug)]
pub enum Run {
    InFlight { n: u64, ticking: Ticking },
    Done { n: u64, rec: TickRecord },
}

/// Something that an agent reported.
#[derive(Debug)]
pub struct Note {
    pub at: i64,
    pub level: String,
    pub text: String,
    /// What it refers to.
    pub link: Option<String>,
    pub tick: u64,
}

#[derive(Debug)]
pub struct LogLine {
    pub at: i64,
    pub level: String,
    pub text: String,
}

/// The command that a polling agent runs, and how often.
#[derive(Debug)]
pub struct PollTrigger {
    pub command: Option<String>,
    pub every: String,
}

/// A setting as the screen shows it.
#[derive(Debug)]
pub struct SettingRow {
    pub label: String,
    pub value: String,
    /// Why it cannot be changed, if it cannot.
    pub locked: Option<String>,
    pub help: String,
    /// Whether this is the switch that turns the agent on.
    pub is_switch: bool,
}

/// What an agent is set to do.
#[derive(Debug)]
pub struct AgentSpec {
    pub enabled: bool,
    pub trigger_label: String,
    /// The trigger, where it is a poll.
    pub poll: Option<PollTrigger>,
    pub workdir: String,
    pub settings: Vec<SettingRow>,
}

#[derive(Debug)]
pub struct AgentSnapshot {
    pub name: String,
    /// The assistant that can be opened in the agent's folder.
    pub assistant: String,
    pub dir: String,
    pub description: String,
    pub status: AgentStatus,
    pub needs_attention: bool,
    /// The agent's settings, or why they do not load.
    pub spec: Result<AgentSpec, String>,
    pub stopped_reason: Option<String>,
    pub ticking: Option<Ticking>,
    pub last_run: Option<TickRecord>,
    pub last_result: String,
    /// The newest first.
    pub runs: Vec<Run>,
    /// The newest first.
    pub notes: Vec<Note>,
    pub events: Vec<LogLine>,
    pub inbox_pending: usize,
    /// What the runs of today cost, as it is shown, and whether they cost
    /// anything.
    pub cost_today: String,
    pub spent_today: bool,
    pub ticks_today: u64,
    /// What all runs cost, as it is shown.
    pub cost_total: String,
}

/// The agent is switched off.
pub open spec fn is_off(s: AgentStatus) -> bool {
    s == AgentStatus::Disabled || s == AgentStatus::Paused
}

pub open spec fn status_icon(s: AgentStatus) -> Seq<char> {
    match s {
        AgentStatus::Ticking => "󰒓"@,
        AgentStatus::Sleeping => "󰒲"@,
        AgentStatus::Halted => "󰂞"@,
        AgentStatus::Paused => "󰏤"@,
        AgentStatus::Disabled => "󰜎"@,
        AgentStatus::Broken => "󰅙"@,
    }
}

#[verifier::allow_in_spec]
pub fn status_color(s: AgentStatus) -> Color
    returns
        (match s {
            AgentStatus::Ticking => Color::Green,
            AgentStatus::Sleeping => muted_text(),
            AgentStatus::Halted => Color::Yellow,
            AgentStatus::Paused => purple(),
            AgentStatus::Disabled => sep_gray(),
            AgentStatus::Broken => Color::Red,
        }),
{
    match s {
        AgentStatus::Ticking => Color::Green,
        AgentStatus::Sleeping => muted_text(),
        AgentStatus::Halted => Color::Yellow,
        AgentStatus::Paused => purple(),
        AgentStatus::Disabled => sep_gray(),
        AgentStatus::Broken => Color::Red,
    }
}

/// The icon and the colour of a status.
pub fn status_indicator(s: AgentStatus) -> (r: (String, Color))
    ensures
        r.0@ == status_icon(s),
        r.1 == status_color(s),
{
    let icon = match s {
        AgentStatus::Ticking => "󰒓",
        AgentStatus::Sleeping => "󰒲",
        AgentStatus::Halted => "󰂞",
        AgentStatus::Paused => "󰏤",
        AgentStatus::Disabled => "󰜎",
        AgentStatus::Broken => "󰅙",
    };
    (icon.to_owned(), status_color(s))
}

// ---------------------------------------------------------------------------
// Words
// ---------------------------------------------------------------------------

/// How long ago `at` was in its largest unit; nothing lies in the future.
pub open spec fn age_text(now: int, at: int) -> Seq<char> {
    let d = at_least(now - at, 0);
    if d < 60 {
        dec(d as nat) + "s"@
    } else if d < 3600 {
        dec((d / 60) as nat) + "m"@
    } else if d < 86400 {
        dec((d / 3600) as nat) + "h"@
    } else {
        dec((d / 86400) as nat) + "d"@
    }
}

pub fn age(now: i64, at: i64) -> (r: String)
    ensures
        r@ == age_text(now as int, at as int),
{
    let d: u64 = if now > at {
        (now as i128 - at as i128) as u64
    } else {
        0
    };
    if d < 60 {
        cat2(&text_dec(d), "s")
    } else if d < 3600 {
        cat2(&text_dec(d / 60), "m")
    } else if d < 86400 {
        cat2(&text_dec(d / 3600), "h")
    } else {
        cat2(&text_dec(d / 86400), "d")
    }
}

/// The id begins with a stamp: eight digits, then a `T`, and more behind.
pub open spec fn is_stamped(id: Seq<char>) -> bool {
    &&& byte_len(id) > 16
    &&& id.len() > 8
    &&& id[8] == 'T'
    &&& forall|i: int| 0 <= i < 8 ==> is_digit(#[trigger] id[i])
}

/// What a person reads of an event's id: `poll` and `timer` for the events
/// that are made by a poll or a timer, and what follows the stamp of others.
pub open spec fn event_text(id: Option<Seq<char>>) -> Seq<char> {
    match id {
        None => "manual"@,
        Some(s) => if begins(s, "poll-"@) {
            "poll"@
        } else if begins(s, "tick-"@) {
            "timer"@
        } else {
            let z = find_text(s, "Z-"@, 0);
            if z >= 0 && is_stamped(s) && z + 2 < s.len() {
                s.skip(z + 2)
            } else {
                s
            }
        },
    }
}

pub fn event_label(id: &Option<String>) -> (r: String)
    ensures
        r@ == event_text(opt(*id)),
{
    let s = match id {
        None => {
            return "manual".to_owned();
        },
        Some(s) => s,
    };
    if starts_with(s, "poll-") {
        return "poll".to_owned();
    }
    if starts_with(s, "tick-") {
        return "timer".to_owned();
    }
    let v = chars_of(s);
    let mut stamped = s.as_str().len() > 16 && v.len() > 8 && v[8] == 'T';
    if stamped {
        let mut i: usize = 0;
        let mut digits = true;
        while i < 8
            invariant
                i <= 8,
                v@.len() > 8,
                digits == forall|j: int| 0 <= j < i ==> is_digit(#[trigger] v@[j]),
            decreases 8 - i,
        {
            if !('0' <= v[i] && v[i] <= '9') {
                digits = false;
                assert(!is_digit(v@[i as int]));
            }
            i += 1;
        }
        stamped = digits;
    }
    let z = chars_of("Z-");
    proof {
        reveal_strlit("Z-");
    }
    match position_of(&v, &z, 0) {
        Some(k) => if stamped && k + 2 < v.len() {
            let rest = slice_of(&v, k + 2, v.len());
            assert(rest@ =~= s@.skip(k + 2));
            rest
        } else {
            s.as_str().to_owned()
        },
        None => s.as_str().to_owned(),
    }
}

/// The words of a text on one line.
pub open spec fn on_one_line(s: Seq<char>) -> Seq<char> {
    joined(words(s), " "@)
}

pub fn one_line(s: &str) -> (r: String)
    ensures
        r@ == on_one_line(s@),
{
    join(&words_of(s), " ")
}

/// The day of a moment on a clock of the given offset, counted from the epoch.
pub open spec fn day_at(secs: int, offset: int) -> int {
    (secs + offset) / 86400
}

/// A moment on a clock that is `offset` seconds ahead of UTC: the time of day,
/// or with the date where the clock shows another day now, at which it is
/// `now_offset` seconds ahead; nothing where the calendar does not have the
/// moment.
pub open spec fn clock_text(at: i64, now: i64, offset: int, now_offset: int) -> Seq<char> {
    if !has_calendar_time(at) {
        ""@
    } else if has_calendar_time(now) && day_at(at as int, offset) == day_at(now as int, now_offset) {
        zoned_text(at as int, offset, "%H:%M"@)
    } else {
        zoned_text(at as int, offset, "%b %d %H:%M"@)
    }
}

fn local_day(secs: i64, offset: i32) -> (r: i64)
    requires
        has_calendar_time(secs),
        is_offset(offset as int),
    ensures
        r == day_at(secs as int, offset as int),
{
    let local: i64 = secs + offset as i64;
    if local >= 0 {
        local / 86400
    } else {
        -((-1 - local) / 86400) - 1
    }
}

/// A moment as a clock shows it, for given offsets of the clock then and now.
pub fn clock_at(at: i64, now: i64, offset: i32, now_offset: i32) -> (r: String)
    requires
        is_offset(offset as int),
        is_offset(now_offset as int),
    ensures
        r@ == clock_text(at, now, offset as int, now_offset as int),
{
    if !in_calendar(at) {
        "".to_owned()
    } else if in_calendar(now) && local_day(at, offset) == local_day(now, now_offset) {
        text_at(at, offset, "%H:%M")
    } else {
        text_at(at, offset, "%b %d %H:%M")
    }
}

/// `s` is what a clock in some time zone shows of the moment `at`: there are
/// offsets of that clock at the two moments for which it reads so.
pub open spec fn reads_clock(s: Seq<char>, at: i64, now: i64) -> bool {
    exists|offset: int, now_offset: int|
        {
            &&& is_offset(offset)
            &&& is_offset(now_offset)
            &&& s == #[trigger] clock_text(at, now, offset, now_offset)
        }
}

/// A moment as a clock shows it, in the machine's time zone.
pub fn clock(at: i64, now: i64) -> (r: String)
    ensures
        reads_clock(r@, at, now),
{
    clock_at(at, now, zone_offset(at), zone_offset(now))
}

// ---------------------------------------------------------------------------
// Cells
// ---------------------------------------------------------------------------

/// The spans of a line that fit in `width` columns. The first one that does
/// not is cut, with an ellipsis, where at least two columns are left for it.
pub open spec fn cut_line(l: Seq<SpanView>, width: int) -> Seq<SpanView>
    decreases l.len(),
{
    if l.len() == 0 {
        blank()
    } else if l[0].text.len() <= width {
        seq![l[0]] + cut_line(l.drop_first(), width - l[0].text.len())
    } else if width > 1 {
        ln(l[0].text.take(width - 1) + "…"@, l[0].style)
    } else {
        blank()
    }
}

pub fn truncate_line(line: Line, width: usize) -> (r: Line)
    ensures
        r@ == cut_line(line@, width as int),
{
    let ghost whole = line@;
    let mut out = Line::empty();
    let mut room: usize = width;
    let mut i: usize = 0;
    assert(whole.skip(0) =~= whole);
    assert(out@ + cut_line(whole.skip(0), room as int) =~= cut_line(whole, width as int));
    while i < line.spans.len()
        invariant
            i <= line.spans@.len(),
            whole == line@,
            out@ + cut_line(whole.skip(i as int), room as int) == cut_line(whole, width as int),
        decreases line.spans@.len() - i,
    {
        let span = &line.spans[i];
        let n: usize = span.text.as_str().unicode_len();
        let ghost before = out@;
        let ghost rest = whole.skip(i as int);
        assert(rest[0] == span@);
        assert(rest.drop_first() =~= whole.skip(i + 1));
        if n <= room {
            out.put(&span.text, span.style);
            room = room - n;
            assert(before + (seq![rest[0]] + cut_line(rest.drop_first(), room as int)) =~= out@ + cut_line(
                whole.skip(i + 1),
                room as int,
            ));
        } else {
            if room > 1 {
                let v = chars_of(&span.text);
                let head = slice_of(&v, 0, room - 1);
                assert(head@ =~= span.text@.take(room - 1));
                out.put(&cat2(&head, "…"), span.style);
            } else {
                assert(before + blank() =~= before);
            }
            return out;
        }
        i += 1;
    }
    assert(whole.skip(i as int) =~= blank());
    assert(out@ + blank() =~= out@);
    out
}

proof fn lemma_text_front(l: Seq<SpanView>)
    requires
        l.len() > 0,
    ensures
        line_text(l) == l[0].text + line_text(l.drop_first()),
{
    assert(l =~= seq![l[0]] + l.drop_first());
    crate::style::lemma_line_text_join(seq![l[0]], l.drop_first());
    crate::style::lemma_one_span(l[0]);
}

/// A cut line is never wider than its room, and a line that fits is not cut.
pub proof fn cut_lines_fit(l: Seq<SpanView>, width: int)
    requires
        0 <= width,
    ensures
        line_text(cut_line(l, width)).len() <= width,
        line_text(l).len() <= width ==> cut_line(l, width) == l,
    decreases l.len(),
{
    if l.len() == 0 {
        assert(cut_line(l, width) =~= l);
    } else {
        lemma_text_front(l);
        if l[0].text.len() <= width {
            cut_lines_fit(l.drop_first(), width - l[0].text.len());
            let c = cut_line(l, width);
            lemma_text_front(c);
            assert(c.drop_first() =~= cut_line(l.drop_first(), width - l[0].text.len()));
            assert(seq![l[0]] + l.drop_first() =~= l);
        } else if width > 1 {
            reveal_strlit("…");
            let c = cut_line(l, width);
            lemma_text_front(c);
            assert(c.drop_first() =~= blank());
        }
    }
}

/// The first line of `s`, cut or filled up to `w` characters.
pub open spec fn padded(s: Seq<char>, w: int) -> Seq<char> {
    left(short_line(s, w), w)
}

pub fn pad(s: &str, w: usize) -> (r: String)
    ensures
        r@ == padded(s@, w as int),
{
    text_left(&first_line_truncated(s, w), w)
}

/// A cell is as wide as its column.
pub proof fn padded_is_wide(s: Seq<char>, w: int)
    requires
        0 < w,
    ensures
        padded(s, w).len() == w,
{
    crate::models::ellipsized_fits(crate::parts::first_line(s), w);
}

/// `s` at the right end of `w` characters.
pub fn pad_left(s: &str, w: usize) -> (r: String)
    ensures
        r@ == right(s@, w as int),
{
    text_right(s, w)
}

// ---------------------------------------------------------------------------
// Rows
// ---------------------------------------------------------------------------

/// The gap between columns.
pub const COL_SEP: usize = 2;

pub const NAME_W: usize = 18;

/// The last run: a mark and its age.
pub const LAST_W: usize = 6;

pub const TRIGGER_W: usize = 16;

pub const COST_W: usize = 7;

/// The selection stripe, the status icon and a blank.
pub const LEFT_FIXED: usize = 3;

/// What is kept for what the agent says.
pub const MIN_SAY: usize = 20;

/// The columns at the right that a row has room for.
#[derive(Clone, Copy, Debug, PartialEq, Eq, Structural)]
pub struct Columns {
    pub trigger: bool,
    pub cost: bool,
}

/// The columns that are left beside the others.
pub open spec fn spare(width: int) -> int {
    minus(width, LEFT_FIXED + NAME_W + COL_SEP + LAST_W + MIN_SAY)
}

/// The trigger gets room first, then the cost.
pub open spec fn planned(width: int) -> Columns {
    let trigger = spare(width) >= TRIGGER_W + COL_SEP;
    Columns {
        trigger,
        cost: (if trigger {
            spare(width) - TRIGGER_W - COL_SEP
        } else {
            spare(width)
        }) >= COST_W + COL_SEP,
    }
}

pub fn plan_columns(width: usize) -> (r: Columns)
    ensures
        r == planned(width as int),
{
    let mut avail: usize = width.saturating_sub(LEFT_FIXED + NAME_W + COL_SEP + LAST_W + MIN_SAY);
    let trigger = avail >= TRIGGER_W + COL_SEP;
    if trigger {
        avail -= TRIGGER_W + COL_SEP;
    }
    let cost = avail >= COST_W + COL_SEP;
    Columns { trigger, cost }
}

/// Whatever columns a row has, what the agent says keeps its room.
pub proof fn columns_leave_room(width: int)
    requires
        LEFT_FIXED + NAME_W + COL_SEP + LAST_W + MIN_SAY <= width,
    ensures
        cluster(planned(width)) + LEFT_FIXED + NAME_W + COL_SEP + LAST_W + MIN_SAY <= width,
{
}

/// How wide the columns at the right are.
pub open spec fn cluster(cols: Columns) -> int {
    (if cols.trigger {
        TRIGGER_W + COL_SEP
    } else {
        0
    }) + (if cols.cost {
        COST_W + COL_SEP
    } else {
        0
    })
}

pub open spec fn or_else(o: Option<String>, default: Seq<char>) -> Seq<char> {
    match o {
        Some(s) => s@,
        None => default,
    }
}

pub(crate) fn text_or_else(o: &Option<String>, default: &str) -> (r: String)
    ensures
        r@ == or_else(*o, default@),
{
    match o {
        Some(s) => s.as_str().to_owned(),
        None => default.to_owned(),
    }
}

pub open spec fn quiet_style(s: AgentStatus) -> Style {
    fg(
        if is_off(s) {
            dim_text()
        } else {
            faint_text()
        },
    )
}

/// What the agent has to say, the most urgent first: settings that do not
/// load, a halt, a failed run, its newest report, its last answer, and what it
/// is for.
pub open spec fn says(a: AgentSnapshot) -> (Seq<char>, Style) {
    match a.spec {
        Err(e) => (e@, fg(Color::Red)),
        Ok(_) => match a.stopped_reason {
            Some(reason) => (reason@, fg(Color::Yellow)),
            None => match a.last_run {
                Some(run) => if !run.ok {
                    (
                        or_else(run.subtype, "failed"@) + ": "@ + on_one_line(run.result@),
                        fg(Color::Red),
                    )
                } else {
                    says_quietly(a)
                },
                None => says_quietly(a),
            },
        },
    }
}

/// What an agent without trouble has to say.
pub open spec fn says_quietly(a: AgentSnapshot) -> (Seq<char>, Style) {
    if a.notes@.len() > 0 {
        (
            a.notes@[0].text@,
            if a.notes@[0].level@ == "warn"@ && !is_off(a.status) {
                fg(Color::Yellow)
            } else {
                quiet_style(a.status)
            },
        )
    } else if a.last_result@.len() > 0 {
        (a.last_result@, quiet_style(a.status))
    } else {
        (a.description@, fg(dim_text()))
    }
}

/// Trouble is never hidden by a report: where the settings do not load, that
/// is said; else a halt; else a failed run.
pub proof fn trouble_comes_first(a: AgentSnapshot)
    ensures
        a.spec matches Err(e) ==> says(a).0 == e@,
        a.spec is Ok ==> (a.stopped_reason matches Some(r) ==> says(a).0 == r@),
        a.spec is Ok && a.stopped_reason is None ==> (a.last_run matches Some(run) ==> (!run.ok
            ==> says(a).1 == fg(Color::Red))),
{
}

fn off(s: AgentStatus) -> (r: bool)
    ensures
        r == is_off(s),
{
    match s {
        AgentStatus::Disabled | AgentStatus::Paused => true,
        _ => false,
    }
}

fn say_quietly(a: &AgentSnapshot) -> (r: (String, Style))
    ensures
        (r.0@, r.1) == says_quietly(*a),
{
    let quiet = if off(a.status) {
        fg(dim_text())
    } else {
        fg(faint_text())
    };
    if a.notes.len() > 0 {
        let note = &a.notes[0];
        let style = if same(&note.level, "warn") && !off(a.status) {
            fg(Color::Yellow)
        } else {
            quiet
        };
        (note.text.as_str().to_owned(), style)
    } else if !a.last_result.as_str().is_empty() {
        (a.last_result.as_str().to_owned(), quiet)
    } else {
        (a.description.as_str().to_owned(), fg(dim_text()))
    }
}

pub fn say(a: &AgentSnapshot) -> (r: (String, Style))
    ensures
        (r.0@, r.1) == says(*a),
{
    match &a.spec {
        Err(e) => (e.as_str().to_owned(), fg(Color::Red)),
        Ok(_) => match &a.stopped_reason {
            Some(reason) => (reason.as_str().to_owned(), fg(Color::Yellow)),
            None => match &a.last_run {
                Some(run) => if !run.ok {
                    let why = text_or_else(&run.subtype, "failed");
                    (cat3(&why, ": ", &one_line(&run.result)), fg(Color::Red))
                } else {
                    say_quietly(a)
                },
                None => say_quietly(a),
            },
        },
    }
}

/// The cell of the last run: how long a run goes on, or the mark and the age
/// of the last one.
pub open spec fn last_run_cell(a: AgentSnapshot, now: int) -> Seq<SpanView> {
    match a.ticking {
        Some(t) => ln(
            padded("▸ "@ + age_text(now, t.since as int), LAST_W as int),
            fg(Color::Green),
        ),
        None => match a.last_run {
            Some(rec) => (if rec.ok {
                ln("✓"@, fg(Color::Green))
            } else {
                ln("✗"@, fg(Color::Red))
            }) + ln(padded(" "@ + age_text(now, rec.at as int), LAST_W - 1), fg(dim_text())),
            None => ln(fill(' ', LAST_W as int), plain()),
        },
    }
}

pub fn last_run_spans(a: &AgentSnapshot, now: i64) -> (r: Line)
    ensures
        r@ == last_run_cell(*a, now as int),
{
    match &a.ticking {
        Some(t) => Line::of(&pad(&cat2("▸ ", &age(now, t.since)), LAST_W), fg(Color::Green)),
        None => match &a.last_run {
            Some(rec) => {
                let mut l = if rec.ok {
                    Line::of("✓", fg(Color::Green))
                } else {
                    Line::of("✗", fg(Color::Red))
                };
                l.put(&pad(&cat2(" ", &age(now, rec.at)), LAST_W - 1), fg(dim_text()));
                l
            },
            None => Line::of(&text_fill(' ', LAST_W), plain()),
        },
    }
}

/// The events that wait, behind the trigger that they will set off.
pub open spec fn waiting(pending: int) -> Seq<char> {
    if pending > 0 {
        " +"@ + dec(pending as nat)
    } else {
        Seq::empty()
    }
}

pub open spec fn trigger_name(a: AgentSnapshot) -> Seq<char> {
    match a.spec {
        Ok(spec) => spec.trigger_label@,
        Err(_) => ""@,
    }
}

/// The cell of the trigger, always as wide as its column.
pub open spec fn trigger_cell(a: AgentSnapshot) -> Seq<SpanView> {
    let queued = waiting(a.inbox_pending as int);
    let label = short_line(trigger_name(a), minus(TRIGGER_W as int, queued.len() as int));
    ln(fill(' ', COL_SEP as int), plain()) + ln(label, fg(muted_text())) + (if a.inbox_pending > 0 {
        ln(queued, fg(Color::Yellow))
    } else {
        blank()
    }) + ln(fill(' ', TRIGGER_W - (label.len() + queued.len())), plain())
}

fn build_trigger(a: &AgentSnapshot) -> (r: Line)
    ensures
        r@ == trigger_cell(*a),
{
    let name = match &a.spec {
        Ok(spec) => spec.trigger_label.as_str().to_owned(),
        Err(_) => "".to_owned(),
    };
    let queued = if a.inbox_pending > 0 {
        cat2(" +", &text_count(a.inbox_pending))
    } else {
        String::new()
    };
    let taken: usize = queued.as_str().unicode_len();
    let label = first_line_truncated(&name, TRIGGER_W.saturating_sub(taken));
    let used: usize = label.as_str().unicode_len().saturating_add(taken);
    let mut l = Line::of(&text_fill(' ', COL_SEP), plain());
    l.put(&label, fg(muted_text()));
    let more = if a.inbox_pending > 0 {
        Line::of(&queued, fg(Color::Yellow))
    } else {
        Line::empty()
    };
    l.join(more);
    let gap = text_fill(' ', TRIGGER_W.saturating_sub(used));
    assert(gap@ =~= fill(' ', TRIGGER_W - (label@.len() + queued@.len())));
    l.put(&gap, plain());
    l
}

/// What today's runs cost, at the right end of its column.
pub open spec fn cost_cell(a: AgentSnapshot) -> Seq<SpanView> {
    ln(fill(' ', COL_SEP as int), plain()) + ln(
        right(
            if a.spent_today {
                a.cost_today@
            } else {
                ""@
            },
            COST_W as int,
        ),
        fg(dim_text()),
    )
}

pub open spec fn name_style(a: AgentSnapshot) -> Style {
    if a.needs_attention {
        fg(status_color(a.status)).bold()
    } else if is_off(a.status) {
        fg(label_gray())
    } else {
        fg(Color::White).bold()
    }
}

/// The icon of an agent; while it runs, a spinner.
pub open spec fn row_icon(s: AgentStatus, now_ms: int) -> Seq<char> {
    if s == AgentStatus::Ticking {
        spinner(now_ms)
    } else {
        status_icon(s)
    }
}

/// The room for what the agent says.
pub open spec fn say_room(width: int, cols: Columns) -> int {
    minus(width, LEFT_FIXED + NAME_W + COL_SEP + LAST_W + COL_SEP + cluster(cols))
}

/// A row before it is cut.
pub open spec fn whole_row(
    a: AgentSnapshot,
    cols: Columns,
    selected: bool,
    now: int,
    now_ms: int,
    width: int,
) -> Seq<SpanView> {
    let said = short_line(on_one_line(says(a).0), say_room(width, cols));
    (if selected {
        ln("▌"@, fg(Color::White))
    } else {
        ln(" "@, plain())
    }) + ln(row_icon(a.status, now_ms) + " "@, fg(status_color(a.status))) + ln(
        padded(a.name@, NAME_W as int),
        name_style(a),
    ) + ln(fill(' ', COL_SEP as int), plain()) + last_run_cell(a, now) + ln(
        fill(' ', COL_SEP as int),
        plain(),
    ) + ln(said, says(a).1) + ln(fill(' ', say_room(width, cols) - said.len()), plain()) + (if cols.trigger {
        trigger_cell(a)
    } else {
        blank()
    }) + (if cols.cost {
        cost_cell(a)
    } else {
        blank()
    })
}

pub open spec fn row(
    a: AgentSnapshot,
    cols: Columns,
    selected: bool,
    now: int,
    now_ms: int,
    width: int,
) -> Seq<SpanView> {
    cut_line(whole_row(a, cols, selected, now, now_ms, width), width)
}

#[verifier::rlimit(40)]
#[verifier::spinoff_prover]
fn build_row(
    a: &AgentSnapshot,
    cols: Columns,
    selected: bool,
    now: i64,
    now_ms: u64,
    width: usize,
) -> (r: Line)
    ensures
        r@ == whole_row(*a, cols, selected, now as int, now_ms as int, width as int),
{
    let (icon, color) = status_indicator(a.status);
    let glyph = if a.status == AgentStatus::Ticking {
        spinner_frame(now_ms)
    } else {
        icon
    };
    let style = if a.needs_attention {
        fg(color).bold()
    } else if off(a.status) {
        fg(label_gray())
    } else {
        fg(Color::White).bold()
    };
    let taken: usize = (if cols.trigger {
        TRIGGER_W + COL_SEP
    } else {
        0
    }) + (if cols.cost {
        COST_W + COL_SEP
    } else {
        0
    });
    let room: usize = width.saturating_sub(LEFT_FIXED + NAME_W + COL_SEP + LAST_W + COL_SEP + taken);
    let (text, say_style) = say(a);
    let said = first_line_truncated(&one_line(&text), room);
    let gap = text_fill(' ', room.saturating_sub(said.as_str().unicode_len()));
    assert(gap@ =~= fill(' ', room - said@.len()));
    let mut l = if selected {
        Line::of("▌", fg(Color::White))
    } else {
        Line::of(" ", plain())
    };
    l.put(&cat2(&glyph, " "), fg(color));
    l.put(&pad(&a.name, NAME_W), style);
    l.put(&text_fill(' ', COL_SEP), plain());
    l.join(last_run_spans(a, now));
    l.put(&text_fill(' ', COL_SEP), plain());
    l.put(&said, say_style);
    l.put(&gap, plain());
    let trigger = if cols.trigger {
        build_trigger(a)
    } else {
        Line::empty()
    };
    l.join(trigger);
    let cost = if cols.cost {
        let mut c = Line::of(&text_fill(' ', COL_SEP), plain());
        let spent = if a.spent_today {
            a.cost_today.as_str()
        } else {
            ""
        };
        c.put(&pad_left(spent, COST_W), fg(dim_text()));
        c
    } else {
        Line::empty()
    };
    l.join(cost);
    l
}

/// The row of an agent, `width` columns wide. A row that is selected lies on
/// a band.
pub fn render_row(
    a: &AgentSnapshot,
    cols: Columns,
    selected: bool,
    now: i64,
    now_ms: u64,
    width: usize,
) -> (r: Line)
    ensures
        r@ == row(*a, cols, selected, now as int, now_ms as int, width as int),
{
    truncate_line(build_row(a, cols, selected, now, now_ms, width), width)
}

// ---------------------------------------------------------------------------
// The tab
// ---------------------------------------------------------------------------

#[derive(Debug)]
pub enum AgentsBody {
    /// The area has no room.
    Nothing,
    /// There are no agents, or none have been read yet.
    Message(Line),
    /// The rows from the top of the area down, and how many agents are above
    /// them.
    Rows { scroll: u16, rows: Lines },
}

pub open spec fn no_agents(loaded: bool, root: Option<String>) -> Seq<char> {
    if !loaded {
        " Reading agents …"@
    } else {
        " No agents yet. Scaffold one with `cc-hub agent new <name>` — specs live in "@ + or_else(
            root,
            "~/.cc-hub/agents"@,
        )
    }
}

/// How many agents are above the screen, so that the selected one is on it.
pub open spec fn scrolled(sel: int, scroll: int, height: int) -> int {
    if sel < scroll {
        sel
    } else if sel >= scroll + height {
        sel + 1 - height
    } else {
        scroll
    }
}

/// The selected agent is on the screen.
pub proof fn selected_agent_is_visible(sel: int, scroll: int, height: int)
    requires
        0 <= sel,
        0 <= scroll,
        1 <= height,
    ensures
        0 <= scrolled(sel, scroll, height) <= sel < scrolled(sel, scroll, height) + height,
{
}

pub open spec fn nth_row(
    agents: Seq<AgentSnapshot>,
    sel: int,
    now: int,
    now_ms: int,
    width: int,
    i: int,
) -> Seq<SpanView> {
    row(agents[i], planned(width), i == sel, now, now_ms, width)
}

/// The rows of `height` agents from `first` on, as far as there are any.
pub open spec fn rows_from(
    agents: Seq<AgentSnapshot>,
    sel: int,
    now: int,
    now_ms: int,
    width: int,
    first: int,
    height: int,
) -> Seq<Seq<SpanView>> {
    Seq::new(
        at_most(height, minus(agents.len() as int, first)) as nat,
        |k: int| nth_row(agents, sel, now, now_ms, width, first + k),
    )
}

/// Lays out the tab. `root` is where agents are kept.
pub fn render_agents_body(
    area: Rect,
    agents: &Vec<AgentSnapshot>,
    loaded: bool,
    root: &Option<String>,
    selected: usize,
    scroll: u16,
    now: i64,
    now_ms: u64,
) -> (r: AgentsBody)
    ensures
        match r {
            AgentsBody::Nothing => area.height < 1 || area.width < 10,
            AgentsBody::Message(l) => {
                &&& area.height >= 1 && area.width >= 10
                &&& agents@.len() == 0
                &&& l@ == ln(no_agents(loaded, *root), fg(dim_text()))
            },
            AgentsBody::Rows { scroll: s, rows } => {
                &&& area.height >= 1 && area.width >= 10
                &&& agents@.len() > 0
                &&& s == scrolled(selected as u16 as int, scroll as int, area.height as int)
                &&& rows@ == rows_from(
                    agents@,
                    selected as int,
                    now as int,
                    now_ms as int,
                    area.width as int,
                    s as int,
                    area.height as int,
                )
            },
        },
        r matches AgentsBody::Rows { scroll: s, rows } ==> selected < agents@.len() && selected <= 0xffff ==> s
            <= selected < s + rows@.len() && rows@[selected - s].len() > 0 && rows@[selected - s][0].text == "▌"@,
{
    if area.height < 1 || area.width < 10 {
        return AgentsBody::Nothing;
    }
    if agents.len() == 0 {
        let text = if !loaded {
            " Reading agents …".to_owned()
        } else {
            cat2(
                " No agents yet. Scaffold one with `cc-hub agent new <name>` — specs live in ",
                &text_or_else(root, "~/.cc-hub/agents"),
            )
        };
        return AgentsBody::Message(Line::of(&text, fg(dim_text())));
    }
    let sel: u16 = #[verifier::truncate] (selected as u16);
    let s: u16 = if sel < scroll {
        sel
    } else if sel as u32 >= scroll as u32 + area.height as u32 {
        sel - (area.height - 1)
    } else {
        scroll
    };
    let width: usize = area.width as usize;
    let cols = plan_columns(width);
    let first: usize = s as usize;
    let count: usize = agents.len();
    let behind: usize = count.saturating_sub(first);
    let n: usize = if (area.height as usize) < behind {
        area.height as usize
    } else {
        behind
    };
    let ghost all = rows_from(
        agents@,
        selected as int,
        now as int,
        now_ms as int,
        width as int,
        first as int,
        area.height as int,
    );
    let mut rows = Lines::none();
    let mut k: usize = 0;
    assert(rows@ =~= all.take(0));
    while k < n
        invariant
            k <= n,
            n == all.len(),
            count == agents@.len(),
            n > 0 ==> first + n <= count,
            cols == planned(width as int),
            all == rows_from(
                agents@,
                selected as int,
                now as int,
                now_ms as int,
                width as int,
                first as int,
                area.height as int,
            ),
            rows@ == all.take(k as int),
        decreases n - k,
    {
        let i: usize = first + k;
        rows.put(render_row(&agents[i], cols, i == selected, now, now_ms, width));
        assert(all[k as int] == nth_row(
            agents@,
            selected as int,
            now as int,
            now_ms as int,
            width as int,
            i as int,
        ));
        k += 1;
        assert(rows@ =~= all.take(k as int));
    }
    assert(all.take(k as int) =~= all);
    proof {
        if selected < agents@.len() && selected <= 0xffff {
            agents_are_listed(
                agents@,
                selected as int,
                now as int,
                now_ms as int,
                width as int,
                first as int,
                area.height as int,
                selected - first,
            );
        }
    }
    AgentsBody::Rows { scroll: s, rows }
}

// ---------------------------------------------------------------------------
// What the rows tell
// ---------------------------------------------------------------------------

/// A failed run says why and what it left. An agent without trouble says its newest report;
/// one without reports its last answer, and one without an answer what it is for.
pub proof fn agents_say_the_newest(a: AgentSnapshot)
    requires
        a.spec is Ok,
        a.stopped_reason is None,
    ensures
        a.last_run matches Some(run) ==> (!run.ok ==> says(a).0 == (match run.subtype {
            Some(s) => s@,
            None => "failed"@,
        }) + ": "@ + on_one_line(run.result@)),
        a.last_run is None || a.last_run->Some_0.ok ==> {
            &&& a.notes@.len() > 0 ==> says(a).0 == a.notes@[0].text@
            &&& a.notes@.len() == 0 && a.last_result@.len() > 0 ==> says(a).0 == a.last_result@
            &&& a.notes@.len() == 0 && a.last_result@.len() == 0 ==> says(a).0 == a.description@
            &&& a.notes@.len() > 0 && a.notes@[0].level@ == "warn"@ && a.status != AgentStatus::Disabled && a.status
                != AgentStatus::Paused ==> says(a).1 == fg(Color::Yellow)
        },
{
}

proof fn lemma_icon_is_one(s: AgentStatus, now_ms: int)
    ensures
        row_icon(s, now_ms).len() == 1,
{
    reveal_strlit("󰒓");
    reveal_strlit("󰒲");
    reveal_strlit("󰂞");
    reveal_strlit("󰏤");
    reveal_strlit("󰜎");
    reveal_strlit("󰅙");
    reveal_strlit("⠋");
    reveal_strlit("⠙");
    reveal_strlit("⠹");
    reveal_strlit("⠸");
    reveal_strlit("⠼");
    reveal_strlit("⠴");
    reveal_strlit("⠦");
    reveal_strlit("⠧");
    reveal_strlit("⠇");
    reveal_strlit("⠏");
}

/// What the cell of the last run reads: how long a run goes on, else whether the last one
/// went well and how long ago it was.
pub open spec fn last_run_reads(a: AgentSnapshot, now: int) -> Seq<char> {
    if a.ticking is Some {
        padded("▸ "@ + age_text(now, a.ticking->Some_0.since as int), 6)
    } else if a.last_run is Some {
        (if a.last_run->Some_0.ok {
            "✓"@
        } else {
            "✗"@
        }) + padded(" "@ + age_text(now, a.last_run->Some_0.at as int), 5)
    } else {
        fill(' ', 6)
    }
}

proof fn lemma_last_run(a: AgentSnapshot, now: int)
    ensures
        line_text(last_run_cell(a, now)) == last_run_reads(a, now),
        last_run_reads(a, now).len() == 6,
{
    broadcast use {crate::style::joined_line_text, crate::style::span_line_text, crate::style::blank_line_text};

    reveal_strlit("✓");
    reveal_strlit("✗");
    if a.ticking is Some {
        padded_is_wide("▸ "@ + age_text(now, a.ticking->Some_0.since as int), 6);
    } else if a.last_run is Some {
        padded_is_wide(" "@ + age_text(now, a.last_run->Some_0.at as int), 5);
    }
}

/// On a wide screen the row of an agent tells, from left to right: whether it is selected,
/// its status, its name, its last run, what it says, its trigger with the events that wait
/// for it, and what it cost today. It is as wide as the screen.
pub proof fn rows_tell_the_agent(a: AgentSnapshot, selected: bool, now: int, now_ms: int, width: int)
    requires
        width >= 76,
        a.cost_today@.len() <= 7,
        dec(a.inbox_pending as nat).len() <= 12,
    ensures
        ({
            let mark = if selected {
                "▌"@
            } else {
                " "@
            };
            let said = short_line(on_one_line(says(a).0), width - 58);
            let queued = if a.inbox_pending > 0 {
                " +"@ + dec(a.inbox_pending as nat)
            } else {
                Seq::empty()
            };
            let trigger = short_line(
                match a.spec {
                    Ok(spec) => spec.trigger_label@,
                    Err(_) => ""@,
                },
                16 - queued.len(),
            );
            let cost = if a.spent_today {
                a.cost_today@
            } else {
                ""@
            };
            let told = line_text(row(a, planned(width), selected, now, now_ms, width));
            &&& told.len() == width
            &&& told == mark + (row_icon(a.status, now_ms) + " "@) + padded(a.name@, 18) + fill(' ', 2)
                + last_run_reads(a, now) + fill(' ', 2) + said + fill(' ', width - 58 - said.len()) + (fill(' ', 2)
                + trigger + queued + fill(' ', 16 - (trigger.len() + queued.len()))) + (fill(' ', 2) + right(cost, 7))
        }),
{
    broadcast use {crate::style::joined_line_text, crate::style::span_line_text, crate::style::blank_line_text};

    reveal_strlit("▌");
    reveal_strlit(" ");
    reveal_strlit("");
    reveal_strlit(" +");
    lemma_icon_is_one(a.status, now_ms);
    lemma_last_run(a, now);
    padded_is_wide(a.name@, 18);
    let cols = planned(width);
    assert(cols.trigger && cols.cost);
    let room = say_room(width, cols);
    assert(room == width - 58);
    crate::models::ellipsized_fits(crate::parts::first_line(on_one_line(says(a).0)), room);
    let queued = waiting(a.inbox_pending as int);
    crate::models::ellipsized_fits(crate::parts::first_line(trigger_name(a)), 16 - queued.len());
    let whole = whole_row(a, cols, selected, now, now_ms, width);
    assert(line_text(whole).len() == width);
    cut_lines_fit(whole, width);
}

/// The tab has a row for each agent from the scroll position on, and the selected one alone
/// has a bar before it.
pub proof fn agents_are_listed(
    agents: Seq<AgentSnapshot>,
    sel: int,
    now: int,
    now_ms: int,
    width: int,
    first: int,
    height: int,
    k: int,
)
    requires
        width >= 10,
        0 <= first,
        0 <= height,
        0 <= k < rows_from(agents, sel, now, now_ms, width, first, height).len(),
    ensures
        ({
            let rows = rows_from(agents, sel, now, now_ms, width, first, height);
            &&& first + height >= agents.len() ==> first + rows.len() == agents.len()
            &&& first + height < agents.len() ==> rows.len() == height
            &&& rows[k] == row(agents[first + k], planned(width), first + k == sel, now, now_ms, width)
            &&& rows[k].len() > 0
            &&& rows[k][0].text == if first + k == sel {
                "▌"@
            } else {
                " "@
            }
        }),
{
    reveal_strlit("▌");
    reveal_strlit(" ");
    let a = agents[first + k];
    let selected = first + k == sel;
    let whole = whole_row(a, planned(width), selected, now, now_ms, width);
    assert(whole[0].text == if selected {
        "▌"@
    } else {
        " "@
    });
    let rows = rows_from(agents, sel, now, now_ms, width, first, height);
    assert(rows[k] == nth_row(agents, sel, now, now_ms, width, first + k));
    assert(rows[k] == row(a, planned(width), selected, now, now_ms, width));
    assert(cut_line(whole, width)[0] == whole[0]);
}

/// Whatever is cut off, a row begins as the whole one does.
pub proof fn cut_lines_keep_their_beginning(l: Seq<SpanView>, width: int)
    requires
        0 <= width,
    ensures
        ({
            let t = line_text(cut_line(l, width));
            let n = if t.len() > 0 && cut_line(l, width) != l {
                t.len() - 1
            } else {
                t.len() as int
            };
            n <= line_text(l).len() && t.take(n) == line_text(l).take(n)
        }),
    decreases l.len(),
{
    let c = cut_line(l, width);
    if l.len() == 0 {
        assert(c =~= l);
    } else {
        lemma_text_front(l);
        let head = l[0].text;
        let rest = l.drop_first();
        if head.len() <= width {
            let inner = cut_line(rest, width - head.len());
            cut_lines_keep_their_beginning(rest, width - head.len());
            assert(c == seq![l[0]] + inner);
            lemma_text_front(c);
            assert(c.drop_first() =~= inner);
            assert(c == l <==> inner == rest) by {
                assert(seq![l[0]] + rest =~= l);
                assert((seq![l[0]] + inner).drop_first() =~= inner);
            }
            let t = line_text(inner);
            assert(line_text(c) == head + t);
            let m = if t.len() > 0 && inner != rest {
                t.len() - 1
            } else {
                t.len() as int
            };
            assert((head + t).take(head.len() + m) =~= head + t.take(m));
            assert((head + line_text(rest)).take(head.len() + m) =~= head + line_text(rest).take(m));
            let n = if line_text(c).len() > 0 && c != l {
                line_text(c).len() - 1
            } else {
                line_text(c).len() as int
            };
            assert(n <= head.len() + m);
            assert(line_text(c).take(n) =~= line_text(c).take(head.len() + m).take(n));
            assert(line_text(l).take(n) =~= line_text(l).take(head.len() + m).take(n));
        } else if width > 1 {
            reveal_strlit("…");
            lemma_text_front(c);
            assert(c.drop_first() =~= blank());
            assert(line_text(c) =~= head.take(width - 1) + "…"@);
            assert(line_text(c).take(width - 1) =~= head.take(width - 1));
            assert(line_text(l).take(width - 1) =~= head.take(width - 1));
            assert(line_text(c).len() == width);
            assert(line_text(l).len() > width);
        } else {
            assert(line_text(c).len() == 0);
            assert(line_text(c).take(0) =~= line_text(l).take(0));
        }
    }
}

/// A clock shows the time of day alone where it is the same day now, and the date with it
/// where it is another; nothing of a moment that no calendar has.
pub proof fn clocks_add_the_date(at: i64, now: i64, offset: int)
    requires
        has_calendar_time(now),
    ensures
        has_calendar_time(at) && (at + offset) / 86400 == (now + offset) / 86400 ==> clock_text(at, now, offset, offset)
            == zoned_text(at as int, offset, "%H:%M"@),
        has_calendar_time(at) && (at + offset) / 86400 != (now + offset) / 86400 ==> clock_text(at, now, offset, offset)
            == zoned_text(at as int, offset, "%b %d %H:%M"@),
        !has_calendar_time(at) ==> clock_text(at, now, offset, offset) == ""@,
{
}

/// Without agents the tab says that it still reads them, or how to make one.
pub proof fn empty_tab_tells_how_to_begin(root: Option<String>)
    ensures
        no_agents(false, root) == " Reading agents …"@,
        no_agents(true, root) == " No agents yet. Scaffold one with `cc-hub agent new <name>` — specs live in "@ + (
        match root {
            Some(r) => r@,
            None => "~/.cc-hub/agents"@,
        }),
{
}

/// A status is told by its colour: green at work, yellow where the agent was halted, red where
/// its settings do not load; no two are alike.
pub proof fn colours_tell_the_status(a: AgentStatus, b: AgentStatus)
    ensures
        status_color(AgentStatus::Ticking) == Color::Green,
        status_color(AgentStatus::Halted) == Color::Yellow,
        status_color(AgentStatus::Broken) == Color::Red,
        status_color(AgentStatus::Disabled) == sep_gray(),
        status_color(AgentStatus::Paused) == purple(),
        a != b ==> status_color(a) != status_color(b),
{
}

} // verus!
