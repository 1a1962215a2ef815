//! What several screens share: the usage line, state colours, tool and model
//! names, context bars, durations.

use crate::models::{
    first_line_truncated, mcp_leaf, mcp_leaf_of, short_line, CurrentTool, SessionState,
};
use crate::palette::{gray_80, muted_text, sep_gray};
use crate::parts::{after_prefix, contains, holds, lower_ascii, lowered, strip_prefix};
use crate::style::{blank, fg, line_text, ln, plain, Color, Line, SpanView, Style};
use crate::text::{
    at_least, at_most, cat2, cat3, cat4, chars_of, dec, fill, minus, slice_of, text_dec, text_fill,
};
use chrono::TimeZone;
use vstd::prelude::*;

verus! {

broadcast use vstd::string::group_string_axioms;

// ---------------------------------------------------------------------------
// Usage
// ---------------------------------------------------------------------------

/// How much of the two usage windows is spent, and when each is reset.
#[derive(Debug)]
pub struct UsageInfo {
    pub five_hour_pct: u8,
    pub five_hour_resets_at: Option<String>,
    pub seven_day_pct: u8,
    pub seven_day_resets_at: Option<String>,
}

/// How many of `width` columns a bar of `pct` percent fills: its share, cut
/// off, but one where it would be none and `pct` is not zero.
pub open spec fn bar_fill(pct: int, width: int) -> int {
    let filled = pct * width / 100;
    if pct > 0 && filled == 0 {
        1
    } else {
        filled
    }
}

#[verifier::allow_in_spec]
pub fn bar_color(pct: u8) -> Color
    returns
        (if pct > 80 {
            Color::Red
        } else if pct >= 50 {
            Color::Yellow
        } else {
            Color::Green
        }),
{
    if pct > 80 {
        Color::Red
    } else if pct >= 50 {
        Color::Yellow
    } else {
        Color::Green
    }
}

/// A bar of thin lines, solid as far as it is filled.
pub open spec fn bar(pct: u8, width: int) -> Seq<SpanView> {
    let p = at_most(pct as int, 100) as u8;
    let color = bar_color(p);
    ln(fill('━', bar_fill(p as int, width)), fg(color)) + ln(
        fill('╌', width - bar_fill(p as int, width)),
        fg(color),
    )
}

/// Puts a bar of `width` columns behind the other spans.
pub fn append_bar(line: &mut Line, pct: u8, width: u16)
    requires
        pct > 0 ==> width > 0,
        at_most(pct as int, 100) * width <= u16::MAX,
    ensures
        final(line)@ == old(line)@ + bar(pct, width as int),
{
    let p: u8 = if pct < 100 {
        pct
    } else {
        100
    };
    assert(0 <= p * width <= 100 * width) by (nonlinear_arith)
        requires
            0 <= p <= 100,
            0 <= width,
    ;
    assert(p as u16 * width <= u16::MAX);
    let mut filled: u16 = (p as u16 * width) / 100;
    if p > 0 && filled == 0 {
        filled = 1;
    }
    let empty: u16 = width - filled;
    let color = bar_color(p);
    let ghost before = line@;
    line.put(&text_fill('━', filled as usize), fg(color));
    line.put(&text_fill('╌', empty as usize), fg(color));
    assert(line@ =~= before + bar(pct, width as int));
}

/// The bar of a usage window takes exactly its width.
pub proof fn bar_width(pct: u8, width: int)
    requires
        0 <= width,
        pct > 0 ==> width > 0,
    ensures
        bar(pct, width)[0].text.len() + bar(pct, width)[1].text.len() == width,
        pct > 0 ==> bar(pct, width)[0].text.len() > 0,
        pct == 0 ==> bar(pct, width)[0].text.len() == 0,
        pct >= 100 ==> bar(pct, width)[1].text.len() == 0,
{
    let p = at_most(pct as int, 100);
    assert(0 <= p * width <= 100 * width) by (nonlinear_arith)
        requires
            0 <= p <= 100,
            0 <= width,
    ;
    if p == 0 {
        assert(0 * width == 0);
    }
}

/// The formats that reset times are shown in.
pub open spec fn reset_format(fmt: Seq<char>) -> bool {
    fmt == "%-l%p"@ || fmt == "%a %-l%p"@
}

/// The seconds since the epoch at the moment that chrono reads `iso` as, where
/// that is an RFC 3339 date and time.
pub uninterp spec fn rfc3339_secs(iso: Seq<char>) -> Option<i64>;

/// `chrono::DateTime::parse_from_rfc3339`, as seconds since the epoch: a
/// function of the text alone. RFC 3339 years have four digits, so chrono has
/// a date and time for every moment that is read.
#[verifier::external_body]
fn parse_rfc3339(iso: &str) -> (r: Option<i64>)
    ensures
        r == rfc3339_secs(iso@),
        r matches Some(secs) ==> has_calendar_time(secs),
{
    Some(chrono::DateTime::parse_from_rfc3339(iso).ok()?.timestamp())
}

/// What `str::to_lowercase` makes of a text.
pub uninterp spec fn lower_case(s: Seq<char>) -> Seq<char>;

/// `str::to_lowercase`, a function of the text alone.
#[verifier::external_body]
fn to_lowercase(s: &str) -> (r: String)
    ensures
        r@ == lower_case(s@),
{
    s.to_lowercase()
}

/// When a usage window is reset, on a clock of the given offset and in lower
/// case; none where `iso` is not a date and time.
pub open spec fn reset_text(iso: Seq<char>, offset: int, fmt: Seq<char>) -> Option<Seq<char>> {
    match rfc3339_secs(iso) {
        Some(secs) => Some(lower_case(zoned_text(secs as int, offset, fmt))),
        None => None,
    }
}

/// When a usage window is reset, on a clock of the given offset.
pub fn reset_at(iso: &str, fmt: &str, offset: i32) -> (r: Option<String>)
    requires
        reset_format(fmt@),
        is_offset(offset as int),
    ensures
        crate::models::opt(r) == reset_text(iso@, offset as int, fmt@),
{
    match parse_rfc3339(iso) {
        Some(secs) => Some(to_lowercase(&text_at(secs, offset, fmt))),
        None => None,
    }
}

/// When a usage window is reset, in local time and lower case.
pub fn format_reset(iso: &str, fmt: &str) -> (r: Option<String>)
    requires
        reset_format(fmt@),
    ensures
        exists|offset: int|
            is_offset(offset) && crate::models::opt(r) == #[trigger] reset_text(iso@, offset, fmt@),
{
    let offset: i32 = match parse_rfc3339(iso) {
        Some(secs) => zone_offset(secs),
        None => 0,
    };
    reset_at(iso, fmt, offset)
}

pub open spec fn pct_style() -> Style {
    fg(Color::White).bold()
}

/// When a window is reset, where that is known.
pub open spec fn reset_span(reset: Option<Seq<char>>) -> Seq<SpanView> {
    match reset {
        Some(t) => ln(" "@ + t, fg(Color::Rgb(90, 90, 100))),
        None => blank(),
    }
}

/// The usage of the two windows, each with its reset time where it is known.
pub open spec fn usage_spans(
    u: UsageInfo,
    five: Option<Seq<char>>,
    week: Option<Seq<char>>,
) -> Seq<SpanView> {
    ln(" 5h"@, fg(Color::DarkGray)) + reset_span(five) + ln(" "@, plain()) + bar(u.five_hour_pct, 10)
        + ln(" "@ + dec(u.five_hour_pct as nat) + "%"@, pct_style()) + ln(" │ "@, fg(sep_gray())) + ln(
        "wk"@,
        fg(Color::DarkGray),
    ) + reset_span(week) + ln(" "@, plain()) + bar(u.seven_day_pct, 10) + ln(
        " "@ + dec(u.seven_day_pct as nat) + "% "@,
        pct_style(),
    )
}

fn reset_line(reset: &Option<String>) -> (r: Line)
    ensures
        r@ == reset_span(crate::models::opt(*reset)),
{
    match reset {
        Some(t) => Line::of(&cat2(" ", t), fg(Color::Rgb(90, 90, 100))),
        None => Line::empty(),
    }
}

/// The usage line for given reset times.
pub fn usage_line(u: &UsageInfo, five: &Option<String>, week: &Option<String>) -> (r: Line)
    ensures
        r@ == usage_spans(*u, crate::models::opt(*five), crate::models::opt(*week)),
{
    let strong = fg(Color::White).bold();
    let mut l = Line::of(" 5h", fg(Color::DarkGray));
    l.join(reset_line(five));
    l.put(" ", plain());
    append_bar(&mut l, u.five_hour_pct, 10);
    l.put(&cat3(" ", &text_dec(u.five_hour_pct as u64), "%"), strong);
    l.put(" │ ", fg(sep_gray()));
    l.put("wk", fg(Color::DarkGray));
    l.join(reset_line(week));
    l.put(" ", plain());
    append_bar(&mut l, u.seven_day_pct, 10);
    l.put(&cat3(" ", &text_dec(u.seven_day_pct as u64), "% "), strong);
    l
}

/// When a window is reset, on a clock of the given offset; none where that is
/// not given or not a date and time.
pub open spec fn reset_known(at: Option<String>, offset: int, fmt: Seq<char>) -> Option<Seq<char>> {
    match at {
        Some(iso) => reset_text(iso@, offset, fmt),
        None => None,
    }
}

/// The usage line with the reset of the five hours, its hour alone, and that
/// of the week, its day and hour, on clocks of the given offsets.
pub open spec fn usage_at(u: UsageInfo, five: int, week: int) -> Seq<SpanView> {
    usage_spans(
        u,
        reset_known(u.five_hour_resets_at, five, "%-l%p"@),
        reset_known(u.seven_day_resets_at, week, "%a %-l%p"@),
    )
}

fn reset_of(at: &Option<String>, fmt: &str) -> (r: Option<String>)
    requires
        reset_format(fmt@),
    ensures
        exists|offset: int|
            is_offset(offset) && crate::models::opt(r) == #[trigger] reset_known(*at, offset, fmt@),
{
    match at {
        Some(iso) => {
            let r = format_reset(iso, fmt);
            proof {
                let offset = choose|offset: int|
                    is_offset(offset) && crate::models::opt(r) == #[trigger] reset_text(iso@, offset, fmt@);
                assert(crate::models::opt(r) == reset_known(*at, offset, fmt@));
            }
            r
        },
        None => {
            assert(reset_known(*at, 0, fmt@) is None);
            None
        },
    }
}

/// The title bar's usage line, with the reset times in local time.
pub fn build_usage_line(u: &UsageInfo) -> (r: Line)
    ensures
        exists|five: int, week: int|
            is_offset(five) && is_offset(week) && r@ == #[trigger] usage_at(*u, five, week),
{
    let five = reset_of(&u.five_hour_resets_at, "%-l%p");
    let week = reset_of(&u.seven_day_resets_at, "%a %-l%p");
    let r = usage_line(u, &five, &week);
    proof {
        let f = choose|offset: int|
            is_offset(offset) && crate::models::opt(five) == #[trigger] reset_known(
                u.five_hour_resets_at,
                offset,
                "%-l%p"@,
            );
        let w = choose|offset: int|
            is_offset(offset) && crate::models::opt(week) == #[trigger] reset_known(
                u.seven_day_resets_at,
                offset,
                "%a %-l%p"@,
            );
        assert(r@ == usage_at(*u, f, w));
    }
    r
}

// ---------------------------------------------------------------------------
// States, models, tools
// ---------------------------------------------------------------------------

/// The icon of a state.
pub open spec fn state_icon(state: SessionState) -> Seq<char> {
    match state {
        SessionState::Processing => "󰒓"@,
        SessionState::WaitingForInput => "󰂞"@,
        SessionState::Question => "󰋗"@,
        SessionState::Starting | SessionState::Idle => "󰒲"@,
        SessionState::Inactive => "󰜎"@,
    }
}

#[verifier::allow_in_spec]
pub fn state_color(state: SessionState) -> Color
    returns
        (match state {
            SessionState::Processing => Color::Green,
            SessionState::WaitingForInput => Color::Yellow,
            SessionState::Question => Color::LightBlue,
            SessionState::Starting | SessionState::Idle => muted_text(),
            SessionState::Inactive => gray_80(),
        }),
{
    match state {
        SessionState::Processing => Color::Green,
        SessionState::WaitingForInput => Color::Yellow,
        SessionState::Question => Color::LightBlue,
        SessionState::Starting | SessionState::Idle => muted_text(),
        SessionState::Inactive => gray_80(),
    }
}

pub fn state_indicator(state: SessionState) -> (r: (String, Color))
    ensures
        r.0@ == state_icon(state),
        r.1 == state_color(state),
{
    let icon = match state {
        SessionState::Processing => "󰒓",
        SessionState::WaitingForInput => "󰂞",
        SessionState::Question => "󰋗",
        SessionState::Starting | SessionState::Idle => "󰒲",
        SessionState::Inactive => "󰜎",
    };
    (icon.to_owned(), state_color(state))
}

/// A model's name without the name of its vendor and a hyphen before it.
pub open spec fn model_name(vendor: Seq<char>, model: Seq<char>) -> Seq<char> {
    match after_prefix(model, vendor + "-"@) {
        Some(rest) => rest,
        None => model,
    }
}

pub fn short_model(vendor: &str, model: &str) -> (r: String)
    ensures
        r@ == model_name(vendor@, model@),
{
    match strip_prefix(model, &cat2(vendor, "-")) {
        Some(rest) => rest,
        None => model.to_owned(),
    }
}

/// A tool's name for a card: without its server, and at most 18 characters.
pub open spec fn tool_name(tool: Seq<char>) -> Seq<char> {
    let leaf = mcp_leaf(tool);
    if leaf.len() <= 18 {
        leaf
    } else {
        leaf.take(17).push('…')
    }
}

pub fn short_tool(tool: &str) -> (r: String)
    ensures
        r@ == tool_name(tool@),
        r@.len() <= 18,
{
    let leaf = mcp_leaf_of(tool);
    let v = chars_of(&leaf);
    if v.len() <= 18 {
        return leaf;
    }
    let mut s = slice_of(&v, 0, 17);
    assert(s@ =~= leaf@.take(17));
    s.push('…');
    s
}

/// The running tool, with what it runs on where that is known. The hint is
/// cut so that the label fits on `inner_w` columns, but to no less than six
/// characters.
pub open spec fn tool_label(tool: CurrentTool, inner_w: int) -> Seq<char> {
    let name = tool_name(tool.name@);
    match crate::models::filled(tool.hint) {
        None => "󰖷 "@ + name,
        Some(hint) => "󰖷 "@ + name + ": "@ + short_line(
            hint,
            at_least(minus(inner_w, 5 + name.len() as int), 6),
        ),
    }
}

/// The label of a tool is no longer than its row, wherever the row has room
/// for the name and for six characters of the hint.
pub proof fn tool_label_fits(tool: CurrentTool, inner_w: int)
    requires
        tool_name(tool.name@).len() + 11 <= inner_w,
    ensures
        tool_name(tool.name@).len() <= 18,
        tool_label(tool, inner_w).len() <= inner_w,
{
    reveal_strlit("󰖷 ");
    reveal_strlit(": ");
    if let Some(hint) = crate::models::filled(tool.hint) {
        let room = minus(inner_w, 5 + tool_name(tool.name@).len() as int);
        crate::models::ellipsized_fits(crate::parts::first_line(hint), room);
    }
}

pub fn format_tool_label(tool: &CurrentTool, inner_w: usize) -> (r: String)
    ensures
        r@ == tool_label(*tool, inner_w as int),
{
    let name = short_tool(&tool.name);
    match crate::models::filled_of(&tool.hint) {
        None => cat2("󰖷 ", &name),
        Some(hint) => {
            let prefix_cols: usize = 2 + 1 + name.as_str().unicode_len() + 2;
            let budget: usize = inner_w.saturating_sub(prefix_cols);
            let budget: usize = if budget > 6 {
                budget
            } else {
                6
            };
            cat4("󰖷 ", &name, ": ", &first_line_truncated(&hint, budget))
        },
    }
}

/// The size of a model's context window in tokens. The names of models do not
/// always say which of the two sizes a session runs on.
pub open spec fn window_size(model: Seq<char>) -> u64 {
    let m = lowered(model);
    if holds(m, "[1m]"@) || holds(m, "-1m"@) || holds(m, "opus-4-7"@) {
        1_000_000
    } else {
        200_000
    }
}

pub fn context_window_size(model: &str) -> (r: u64)
    ensures
        r == window_size(model@),
{
    let m = lower_ascii(model);
    if contains(&m, "[1m]") || contains(&m, "-1m") || contains(&m, "opus-4-7") {
        1_000_000
    } else {
        200_000
    }
}

/// The colour of a context share: green, yellow, orange, red.
#[verifier::allow_in_spec]
pub fn ctx_color(pct: u8) -> Color
    returns
        (if pct >= 90 {
            Color::Rgb(220, 120, 120)
        } else if pct >= 70 {
            Color::Rgb(220, 200, 120)
        } else if pct >= 40 {
            Color::Rgb(180, 200, 140)
        } else {
            Color::Rgb(120, 180, 200)
        }),
{
    if pct >= 90 {
        Color::Rgb(220, 120, 120)
    } else if pct >= 70 {
        Color::Rgb(220, 200, 120)
    } else if pct >= 40 {
        Color::Rgb(180, 200, 140)
    } else {
        Color::Rgb(120, 180, 200)
    }
}

/// A bar of `width` columns filled to `pct` percent, rounded to the nearest
/// column.
pub open spec fn context_bar(pct: u8, width: int) -> Seq<SpanView> {
    let p = at_most(pct as int, 100);
    let filled = (p * width + 50) / 100;
    if width == 0 {
        blank()
    } else if filled < width {
        ln(fill('━', filled), fg(ctx_color(p as u8))) + ln(
            fill('╌', width - filled),
            fg(Color::Rgb(50, 50, 65)),
        )
    } else {
        ln(fill('━', filled), fg(ctx_color(p as u8)))
    }
}

pub fn ctx_bar(pct: u8, width: usize) -> (r: Line)
    requires
        at_most(pct as int, 100) * width + 50 <= usize::MAX,
    ensures
        r@ == context_bar(pct, width as int),
{
    if width == 0 {
        return Line::empty();
    }
    let p: usize = if pct < 100 {
        pct as usize
    } else {
        100
    };
    assert(0 <= p * width <= 100 * width) by (nonlinear_arith)
        requires
            0 <= p <= 100,
            0 <= width,
    ;
    let filled: usize = (p * width + 50) / 100;
    let mut l = Line::of(&text_fill('━', filled), fg(ctx_color(p as u8)));
    if filled < width {
        l.put(&text_fill('╌', width - filled), fg(Color::Rgb(50, 50, 65)));
    }
    l
}

/// A context bar takes exactly its width.
pub proof fn context_bar_width(pct: u8, width: int)
    requires
        0 <= width,
    ensures
        crate::style::line_text(context_bar(pct, width)).len() == width,
{
    let p = at_most(pct as int, 100);
    let filled = (p * width + 50) / 100;
    assert(0 <= p * width <= 100 * width) by (nonlinear_arith)
        requires
            0 <= p <= 100,
            0 <= width,
    ;
    reveal_with_fuel(crate::style::line_text, 3);
    if width > 0 {
        if filled < width {
            let a = ln(fill('━', filled), fg(ctx_color(p as u8)));
            let b = ln(fill('╌', width - filled), fg(Color::Rgb(50, 50, 65)));
            assert((a + b).drop_last() =~= a);
            assert(a.drop_last() =~= blank());
            assert((a + b).last() == b[0]);
        } else {
            let a = ln(fill('━', filled), fg(ctx_color(p as u8)));
            assert(a.drop_last() =~= blank());
            assert(filled == width);
        }
    }
}

// ---------------------------------------------------------------------------
// Times
// ---------------------------------------------------------------------------

/// The seconds since the epoch for which chrono has a date and time: from the
/// beginning of the year -262143 to the end of the year 262142.
pub open spec fn has_calendar_time(secs: i64) -> bool {
    -8334601228800 <= secs <= 8210266876799
}

pub(crate) fn in_calendar(secs: i64) -> (r: bool)
    ensures
        r == has_calendar_time(secs),
{
    -8334601228800 <= secs && secs <= 8210266876799
}

/// Whether a clock can be so many seconds ahead of UTC: less than a day, either
/// way.
pub open spec fn is_offset(offset: int) -> bool {
    -86400 < offset < 86400
}

/// The formats that message and session times are shown in.
pub open spec fn clock_format(fmt: Seq<char>) -> bool {
    fmt == "%l:%M %p"@ || fmt == "%b %d %l:%M %p"@ || fmt == "%H:%M"@ || fmt == "%b %d %H:%M"@
}

/// What chrono writes, in the given format, for the moment so many seconds
/// after the epoch on a clock that is `offset` seconds ahead of UTC.
pub uninterp spec fn zoned_text(secs: int, offset: int, fmt: Seq<char>) -> Seq<char>;

/// `chrono::DateTime::format` of the moment in a `chrono::FixedOffset`: a
/// function of the moment, the offset and the format.
#[verifier::external_body]
pub(crate) fn text_at(secs: i64, offset: i32, fmt: &str) -> (r: String)
    requires
        has_calendar_time(secs),
        is_offset(offset as int),
        clock_format(fmt@) || reset_format(fmt@),
    ensures
        r@ == zoned_text(secs as int, offset as int, fmt@),
{
    let zone = chrono::FixedOffset::east_opt(offset).unwrap();
    zone.timestamp_opt(secs, 0).unwrap().format(fmt).to_string()
}

/// `chrono::TimeZone::timestamp_opt` of the machine's time zone, and how many
/// seconds that zone is ahead of UTC at the moment: there is such a number, of
/// less than a day, exactly where the seconds are in chrono's range. Which it is
/// depends on the machine's time zone and is not stated.
#[verifier::external_body]
pub(crate) fn local_offset(secs: i64) -> (r: Option<i32>)
    ensures
        r is Some <==> has_calendar_time(secs),
        r matches Some(offset) ==> is_offset(offset as int),
{
    Some(chrono::Local.timestamp_opt(secs, 0).single()?.offset().local_minus_utc())
}

/// How far the machine's time zone is ahead of UTC at a moment, zero where the
/// calendar does not have it.
pub(crate) fn zone_offset(secs: i64) -> (r: i32)
    ensures
        is_offset(r as int),
{
    match local_offset(secs) {
        Some(offset) => offset,
        None => 0,
    }
}

/// A moment on a clock of the given offset, or what stands for one that the
/// calendar does not have.
pub open spec fn moment_text(secs: i64, offset: int, fmt: Seq<char>, missing: Seq<char>) -> Seq<char> {
    if has_calendar_time(secs) {
        zoned_text(secs as int, offset, fmt)
    } else {
        missing
    }
}

fn moment_at(secs: i64, offset: i32, fmt: &str, missing: &str) -> (r: String)
    requires
        is_offset(offset as int),
        clock_format(fmt@),
    ensures
        r@ == moment_text(secs, offset as int, fmt@, missing@),
{
    if in_calendar(secs) {
        text_at(secs, offset, fmt)
    } else {
        missing.to_owned()
    }
}

/// The time of day of a moment in milliseconds since the epoch, on a clock of
/// the given offset.
pub open spec fn time_text(timestamp_ms: u64, offset: int) -> Seq<char> {
    moment_text((timestamp_ms / 1000) as i64, offset, "%l:%M %p"@, "??:??"@)
}

/// The date and time of a moment in milliseconds since the epoch, on a clock of
/// the given offset.
pub open spec fn datetime_text(timestamp_ms: u64, offset: int) -> Seq<char> {
    moment_text((timestamp_ms / 1000) as i64, offset, "%b %d %l:%M %p"@, "unknown"@)
}

/// `s` is the time of day of the moment on a clock of some offset.
pub open spec fn reads_time(s: Seq<char>, timestamp_ms: u64) -> bool {
    exists|offset: int| is_offset(offset) && s == #[trigger] time_text(timestamp_ms, offset)
}

/// `s` is the date and time of the moment on a clock of some offset.
pub open spec fn reads_datetime(s: Seq<char>, timestamp_ms: u64) -> bool {
    exists|offset: int| is_offset(offset) && s == #[trigger] datetime_text(timestamp_ms, offset)
}

/// The time of day of a moment, on a clock of the given offset.
pub fn time_at(timestamp_ms: u64, offset: i32) -> (r: String)
    requires
        is_offset(offset as int),
    ensures
        r@ == time_text(timestamp_ms, offset as int),
{
    moment_at((timestamp_ms / 1000) as i64, offset, "%l:%M %p", "??:??")
}

/// The date and time of a moment, on a clock of the given offset.
pub fn datetime_at(timestamp_ms: u64, offset: i32) -> (r: String)
    requires
        is_offset(offset as int),
    ensures
        r@ == datetime_text(timestamp_ms, offset as int),
{
    moment_at((timestamp_ms / 1000) as i64, offset, "%b %d %l:%M %p", "unknown")
}

/// The local time of day of a moment in milliseconds since the epoch.
pub fn format_time(timestamp_ms: u64) -> (r: String)
    ensures
        reads_time(r@, timestamp_ms),
{
    time_at(timestamp_ms, zone_offset((timestamp_ms / 1000) as i64))
}

/// The local date and time of a moment in milliseconds since the epoch.
pub fn format_datetime(timestamp_ms: u64) -> (r: String)
    ensures
        reads_datetime(r@, timestamp_ms),
{
    datetime_at(timestamp_ms, zone_offset((timestamp_ms / 1000) as i64))
}

/// A duration in its two largest units: seconds, minutes, hours and minutes,
/// or days and hours. A second unit of zero is left out.
pub open spec fn duration_text(secs: nat) -> Seq<char> {
    if secs < 60 {
        dec(secs) + "s"@
    } else if secs < 3600 {
        dec(secs / 60) + "m"@
    } else if secs < 86400 {
        if secs % 3600 / 60 == 0 {
            dec(secs / 3600) + "h"@
        } else {
            dec(secs / 3600) + "h "@ + dec(secs % 3600 / 60) + "m"@
        }
    } else if secs % 86400 / 3600 == 0 {
        dec(secs / 86400) + "d"@
    } else {
        dec(secs / 86400) + "d "@ + dec(secs % 86400 / 3600) + "h"@
    }
}

pub fn format_duration_secs(secs: u64) -> (r: String)
    ensures
        r@ == duration_text(secs as nat),
{
    if secs < 60 {
        cat2(&text_dec(secs), "s")
    } else if secs < 3600 {
        cat2(&text_dec(secs / 60), "m")
    } else if secs < 86400 {
        let h: u64 = secs / 3600;
        let m: u64 = (secs % 3600) / 60;
        if m == 0 {
            cat2(&text_dec(h), "h")
        } else {
            cat4(&text_dec(h), "h ", &text_dec(m), "m")
        }
    } else {
        let d: u64 = secs / 86400;
        let h: u64 = (secs % 86400) / 3600;
        if h == 0 {
            cat2(&text_dec(d), "d")
        } else {
            cat4(&text_dec(d), "d ", &text_dec(h), "h")
        }
    }
}

/// The time from one moment to another, both in milliseconds.
pub fn format_elapsed(now: u64, from_ms: u64) -> (r: String)
    ensures
        r@ == duration_text((minus(now as int, from_ms as int) / 1000) as nat),
{
    format_duration_secs(now.saturating_sub(from_ms) / 1000)
}

// ---------------------------------------------------------------------------
// What is said of windows, names and times
// ---------------------------------------------------------------------------

/// The usage line tells of the five hours first and of the week behind them: when each is
/// reset, where that is known, a bar of ten columns, and the share itself.
pub proof fn usage_tells_both_windows(u: UsageInfo, five: Option<Seq<char>>, week: Option<Seq<char>>)
    ensures
        ({
            let reset = |t: Option<Seq<char>>|
                match t {
                    Some(s) => " "@ + s,
                    None => Seq::empty(),
                };
            line_text(usage_spans(u, five, week)) == " 5h"@ + reset(five) + " "@ + line_text(bar(u.five_hour_pct, 10))
                + (" "@ + dec(u.five_hour_pct as nat) + "%"@) + " │ "@ + "wk"@ + reset(week) + " "@ + line_text(
                bar(u.seven_day_pct, 10),
            ) + (" "@ + dec(u.seven_day_pct as nat) + "% "@)
        }),
{
    broadcast use {crate::style::joined_line_text, crate::style::span_line_text, crate::style::blank_line_text};

    let a = line_text(bar(u.five_hour_pct, 10));
    let b = line_text(bar(u.seven_day_pct, 10));
}

/// A bar of a whole number of columns has as many solid ones as its share is, and says
/// by its colour whether that is high.
pub proof fn bars_tell_the_share(pct: u8, width: int)
    requires
        0 < width,
        pct <= 100,
    ensures
        ({
            let solid = bar(pct, width)[0].text.len();
            &&& solid * 100 <= pct * width || solid == 1
            &&& pct * width < (solid + 1) * 100
            &&& pct > 0 ==> solid > 0
            &&& line_text(bar(pct, width)) == fill('━', solid as int) + fill('╌', width - solid)
            &&& bar(pct, width)[0].style.fg == Some(
                if pct > 80 {
                    Color::Red
                } else if pct >= 50 {
                    Color::Yellow
                } else {
                    Color::Green
                },
            )
        }),
{
    broadcast use {crate::style::joined_line_text, crate::style::span_line_text};

    assert(0 <= pct * width) by (nonlinear_arith)
        requires
            0 <= pct,
            0 < width,
    ;
}

/// The bar of a context has the columns nearest to its share.
pub proof fn context_bars_tell_the_share(pct: u8, width: int)
    requires
        0 < width,
        pct <= 100,
    ensures
        ({
            let solid = context_bar(pct, width)[0].text.len();
            &&& 100 * solid - 50 <= pct * width < 100 * solid + 50
            &&& line_text(context_bar(pct, width)) == fill('━', solid as int) + fill('╌', width - solid)
        }),
{
    broadcast use {crate::style::joined_line_text, crate::style::span_line_text};

    assert(0 <= pct * width <= 100 * width) by (nonlinear_arith)
        requires
            0 <= pct <= 100,
            0 < width,
    ;
    let solid = (pct * width + 50) / 100;
    assert(fill('╌', 0) =~= Seq::<char>::empty());
    assert(fill('━', solid) + Seq::<char>::empty() =~= fill('━', solid));
}

/// A model of the vendor loses the vendor's name, and no other model changes.
pub proof fn models_lose_their_vendor(vendor: Seq<char>, rest: Seq<char>, other: Seq<char>)
    ensures
        model_name(vendor, vendor + "-"@ + rest) == rest,
        !crate::parts::begins(other, vendor + "-"@) ==> model_name(vendor, other) == other,
{
    let p = vendor + "-"@;
    assert((p + rest).take(p.len() as int) =~= p);
    assert((p + rest).skip(p.len() as int) =~= rest);
}

/// The label of a tool names it, with its hint behind it where that fits.
pub proof fn labels_tell_the_tool(tool: CurrentTool, inner_w: int)
    ensures
        tool.hint is None ==> tool_label(tool, inner_w) == "󰖷 "@ + tool_name(tool.name@),
        tool.hint matches Some(hint) ==> (hint@.len() > 0 && !hint@.contains('\n') && hint@.last() != '\r' && 5
            + tool_name(tool.name@).len() + hint@.len() <= inner_w ==> tool_label(tool, inner_w) == "󰖷 "@ + tool_name(
            tool.name@,
        ) + ": "@ + hint@),
        tool.name@.len() <= 18 && !crate::parts::begins(tool.name@, "mcp__"@) ==> tool_name(tool.name@) == tool.name@,
{
    match tool.hint {
        Some(hint) => {
            let max = at_least(minus(inner_w, 5 + tool_name(tool.name@).len() as int), 6);
            if hint@.len() > 0 && !hint@.contains('\n') && hint@.last() != '\r' && hint@.len() <= max {
                crate::models::short_line_keeps_the_first_line(hint@, Seq::empty(), max);
            }
        },
        None => {},
    }
}

proof fn lemma_days(d: nat, h: nat, r: nat)
    requires
        h < 24 && r < 3600,
    ensures
        (86400 * d + 3600 * h + r) / 86400 == d,
        (86400 * d + 3600 * h + r) % 86400 == 3600 * h + r,
        (3600 * h + r) / 3600 == h,
        (3600 * h + r) % 3600 == r,
{
    vstd::arithmetic::div_mod::lemma_fundamental_div_mod_converse(
        (86400 * d + 3600 * h + r) as int,
        86400,
        d as int,
        (3600 * h + r) as int,
    );
    vstd::arithmetic::div_mod::lemma_fundamental_div_mod_converse((3600 * h + r) as int, 3600, h as int, r as int);
}

proof fn lemma_minutes(m: nat, s: nat)
    requires
        s < 60,
    ensures
        (60 * m + s) / 60 == m,
{
    vstd::arithmetic::div_mod::lemma_fundamental_div_mod_converse((60 * m + s) as int, 60, m as int, s as int);
}

/// A duration of days tells days and hours, the hours only where there are any.
pub proof fn days_are_told_with_hours(d: nat, h: nat, r: nat)
    requires
        0 < d && h < 24 && r < 3600,
    ensures
        duration_text((86400 * d + 3600 * h + r) as nat) == if h > 0 {
            dec(d) + "d "@ + dec(h) + "h"@
        } else {
            dec(d) + "d"@
        },
{
    lemma_days(d, h, r);
}

/// A duration of hours tells hours and minutes, the minutes only where there are any.
pub proof fn hours_are_told_with_minutes(h: nat, m: nat, s: nat)
    requires
        0 < h < 24 && m < 60 && s < 60,
    ensures
        duration_text((3600 * h + (60 * m + s)) as nat) == if m > 0 {
            dec(h) + "h "@ + dec(m) + "m"@
        } else {
            dec(h) + "h"@
        },
{
    lemma_days(0, h, (60 * m + s) as nat);
    lemma_minutes(m, s);
}

/// A duration of minutes tells those alone, and a shorter one its seconds.
pub proof fn minutes_are_told_alone(m: nat, s: nat)
    requires
        m < 60 && s < 60,
    ensures
        duration_text((60 * m + s) as nat) == if m > 0 {
            dec(m) + "m"@
        } else {
            dec(s) + "s"@
        },
{
    lemma_minutes(m, s);
}

/// A moment is told to the second: two within one second read alike.
pub proof fn moments_are_told_to_the_second(ms: u64, offset: int)
    ensures
        ms as int / 1000 <= 8210266876799 ==> time_text(ms, offset) == zoned_text(
            ms as int / 1000,
            offset,
            "%l:%M %p"@,
        ),
        ms as int / 1000 <= 8210266876799 ==> datetime_text(ms, offset) == zoned_text(
            ms as int / 1000,
            offset,
            "%b %d %l:%M %p"@,
        ),
        ms as int / 1000 > 8210266876799 ==> time_text(ms, offset) == "??:??"@ && datetime_text(ms, offset)
            == "unknown"@,
        time_text(ms, offset) == time_text((ms - ms % 1000) as u64, offset),
{
}

/// The fuller a context is, the warmer its colour: there are four, from 40, from 70 and from
/// 90 percent on.
pub proof fn colours_tell_the_context(pct: u8)
    ensures
        pct < 40 ==> ctx_color(pct) == Color::Rgb(120, 180, 200),
        40 <= pct < 70 ==> ctx_color(pct) == Color::Rgb(180, 200, 140),
        70 <= pct < 90 ==> ctx_color(pct) == Color::Rgb(220, 200, 120),
        90 <= pct ==> ctx_color(pct) == Color::Rgb(220, 120, 120),
{
}

/// A session at work is green, one that waits is yellow, and one that asks is blue, each with
/// its own icon; one that starts looks like one that is idle.
pub proof fn colours_tell_the_state(a: SessionState, b: SessionState)
    ensures
        state_color(SessionState::Processing) == Color::Green,
        state_color(SessionState::WaitingForInput) == Color::Yellow,
        state_color(SessionState::Question) == Color::LightBlue,
        state_color(SessionState::Starting) == state_color(SessionState::Idle),
        state_icon(SessionState::Starting) == state_icon(SessionState::Idle),
        a != b && !(a == SessionState::Starting && b == SessionState::Idle) && !(a == SessionState::Idle && b
            == SessionState::Starting) ==> state_color(a) != state_color(b),
        state_icon(SessionState::Processing) == "󰒓"@,
        state_icon(SessionState::WaitingForInput) == "󰂞"@,
        state_icon(SessionState::Question) == "󰋗"@,
        state_icon(SessionState::Inactive) == "󰜎"@,
{
}

} // verus!
