//! Session cards: what a session is doing, what it was asked, and what it is.

use crate::common::{
    context_bar, context_window_size, ctx_bar, ctx_color, duration_text, format_elapsed, format_tool_label,
    model_name, short_model, state_color, state_icon, state_indicator, tool_label, window_size,
};
use crate::geometry::{inner_of, inside, Rect};
use crate::models::{
    filled, filled_of, first_line_truncated, opt, or_empty, or_empty_of, short_line, short_sid, short_sid_of,
    SessionInfo, SessionState,
};
use crate::palette::{context_gray, muted_text, purple, sep_gray};
use crate::parts::{replace, replaced};
use crate::rounding::{half_even, ratio, ratio_num, ratio_unit};
use crate::style::{blank, fg, line_text, ln, no_lines, plain, Border, Color, Line, Lines, SpanView};
use crate::task_cards::{body_view, Card};
use crate::text::{
    at_least, at_most, cat2, cat3, cat5, chars_of, dec, fill, minus, same, slice_of, text_dec, text_dec_wide,
    text_fill,
};
use vstd::prelude::*;

verus! {

broadcast use vstd::string::group_string_axioms;

/// What a session does for a task.
#[derive(Debug)]
pub enum SessionRole {
    Orchestrator { short_task_id: String },
    Worker { short_task_id: String, worktree: Option<String>, readonly: bool },
}

// ---------------------------------------------------------------------------
// Title and border
// ---------------------------------------------------------------------------

/// The glyphs of a spinner, one after the other.
pub open spec fn spinner_glyph(i: int) -> Seq<char> {
    if i == 0 {
        "⠋"@
    } else if i == 1 {
        "⠙"@
    } else if i == 2 {
        "⠹"@
    } else if i == 3 {
        "⠸"@
    } else if i == 4 {
        "⠼"@
    } else if i == 5 {
        "⠴"@
    } else if i == 6 {
        "⠦"@
    } else if i == 7 {
        "⠧"@
    } else if i == 8 {
        "⠇"@
    } else {
        "⠏"@
    }
}

/// The spinner at a moment in milliseconds: a new glyph every 120, ten in a
/// turn.
pub open spec fn spinner(now: int) -> Seq<char> {
    spinner_glyph(now / 120 % 10)
}

pub fn spinner_frame(now: u64) -> (r: String)
    ensures
        r@ == spinner(now as int),
{
    let i: u64 = now / 120 % 10;
    let g = if i == 0 {
        "⠋"
    } else if i == 1 {
        "⠙"
    } else if i == 2 {
        "⠹"
    } else if i == 3 {
        "⠸"
    } else if i == 4 {
        "⠼"
    } else if i == 5 {
        "⠴"
    } else if i == 6 {
        "⠦"
    } else if i == 7 {
        "⠧"
    } else if i == 8 {
        "⠇"
    } else {
        "⠏"
    };
    g.to_owned()
}

pub open spec fn card_indicator(s: SessionInfo, now: int) -> Seq<char> {
    if s.state is Processing {
        spinner(now)
    } else {
        state_icon(s.state)
    }
}

/// The box of a card. A double border marks the selected session, a thick one
/// a session that waits for the user, a dashed one a session that is gone.
pub open spec fn card_border(s: SessionInfo, selected: bool) -> (Border, Color) {
    (
        if selected {
            Border::Double
        } else if s.needs_attention {
            Border::Thick
        } else if s.state is Inactive {
            Border::LightDoubleDashed
        } else {
            Border::Rounded
        },
        if selected {
            Color::White
        } else if s.needs_attention || s.state is Processing {
            state_color(s.state)
        } else {
            sep_gray()
        },
    )
}

fn border_of(s: &SessionInfo, selected: bool) -> (r: (Border, Color))
    ensures
        r == card_border(*s, selected),
{
    let processing = match s.state {
        SessionState::Processing => true,
        _ => false,
    };
    let inactive = match s.state {
        SessionState::Inactive => true,
        _ => false,
    };
    let border = if selected {
        Border::Double
    } else if s.needs_attention {
        Border::Thick
    } else if inactive {
        Border::LightDoubleDashed
    } else {
        Border::Rounded
    };
    let color = if selected {
        Color::White
    } else if s.needs_attention || processing {
        state_color(s.state)
    } else {
        sep_gray()
    };
    (border, color)
}

/// Whether a session is an orchestrator or a worker, and of which task.
pub open spec fn role_text(role: Option<SessionRole>) -> Seq<char> {
    match role {
        Some(SessionRole::Orchestrator { short_task_id }) => "★ orch["@ + short_task_id@ + "] "@,
        Some(SessionRole::Worker { short_task_id, worktree, readonly }) => "↳ wkr["@
            + short_task_id@ + "/"@ + (if readonly {
            "RO"@
        } else {
            match worktree {
                Some(w) => w@,
                None => "wt"@,
            }
        }) + "] "@,
        None => Seq::empty(),
    }
}

fn build_role(role: &Option<SessionRole>) -> (r: String)
    ensures
        r@ == role_text(*role),
{
    match role {
        Some(SessionRole::Orchestrator { short_task_id }) => cat3("★ orch[", short_task_id, "] "),
        Some(SessionRole::Worker { short_task_id, worktree, readonly }) => {
            let suffix = if *readonly {
                "RO".to_owned()
            } else {
                match worktree {
                    Some(w) => w.clone(),
                    None => "wt".to_owned(),
                }
            };
            cat5("↳ wkr[", short_task_id, "/", &suffix, "] ")
        },
        None => String::new(),
    }
}

/// The agent of a session, unless it is the usual one.
pub open spec fn badge_text(s: SessionInfo) -> Seq<char> {
    if s.agent_id@ == s.vendor@ {
        Seq::empty()
    } else {
        "["@ + s.agent_badge@ + "] "@
    }
}

fn build_badge(s: &SessionInfo) -> (r: String)
    ensures
        r@ == badge_text(*s),
{
    if same(&s.agent_id, &s.vendor) {
        String::new()
    } else {
        cat3("[", &s.agent_badge, "] ")
    }
}

/// Role, agent and state, then the title, a pencil while one is being made,
/// or a blank. A blank always follows the state's icon, which some terminals
/// draw over two columns.
pub open spec fn title_text(s: SessionInfo, role: Option<SessionRole>, now: int) -> Seq<char> {
    let front = role_text(role) + badge_text(s) + card_indicator(s, now);
    match filled(s.title) {
        Some(t) => front + " "@ + t,
        None => if s.titling {
            front + " ✎ …"@
        } else {
            front + " "@
        },
    }
}

fn build_title_text(s: &SessionInfo, role: &Option<SessionRole>, now: u64) -> (r: String)
    ensures
        r@ == title_text(*s, *role, now as int),
{
    let (icon, _) = state_indicator(s.state);
    let indicator = match s.state {
        SessionState::Processing => spinner_frame(now),
        _ => icon,
    };
    let front = cat3(&build_role(role), &build_badge(s), &indicator);
    match filled_of(&s.title) {
        Some(t) => cat3(&front, " ", &t),
        None => if s.titling {
            cat2(&front, " ✎ …")
        } else {
            cat2(&front, " ")
        },
    }
}

/// Text between blanks: one before it, and one behind it unless it ends in
/// one.
pub open spec fn chip(t: Seq<char>) -> Seq<char> {
    if t.len() > 0 && t.last() == ' ' {
        " "@ + t
    } else {
        " "@ + t + " "@
    }
}

fn build_chip(t: &str) -> (r: String)
    ensures
        r@ == chip(t@),
{
    let v = chars_of(t);
    if v.len() > 0 && v[v.len() - 1] == ' ' {
        cat2(" ", t)
    } else {
        cat3(" ", t, " ")
    }
}

/// The title of a card: a solid chip where the session waits for the user.
pub open spec fn card_title(s: SessionInfo, role: Option<SessionRole>, now: int) -> Seq<SpanView> {
    let text = title_text(s, role, now);
    if s.needs_attention {
        ln(chip(text), fg(Color::Black).on(state_color(s.state)).bold())
    } else {
        ln(text, fg(state_color(s.state)).bold())
    }
}

fn build_title(s: &SessionInfo, role: &Option<SessionRole>, now: u64) -> (r: Line)
    ensures
        r@ == card_title(*s, *role, now as int),
{
    let text = build_title_text(s, role, now);
    if s.needs_attention {
        Line::of(&build_chip(&text), fg(Color::Black).on(state_color(s.state)).bold())
    } else {
        Line::of(&text, fg(state_color(s.state)).bold())
    }
}

// ---------------------------------------------------------------------------
// Rows
// ---------------------------------------------------------------------------

/// What the border cannot say: the question to answer, the tool to approve or
/// the tool that runs.
pub open spec fn activity(s: SessionInfo, w: int) -> Seq<Seq<SpanView>> {
    match s.state {
        SessionState::Question => match s.current_tool {
            Some(tool) => match tool.hint {
                Some(hint) => seq![
                    ln(
                        state_icon(s.state) + " "@ + short_line(hint@, at_least(minus(w, 3), 6)),
                        fg(Color::White).bold(),
                    ),
                ],
                None => no_lines(),
            },
            None => no_lines(),
        },
        SessionState::WaitingForInput => match s.current_tool {
            Some(tool) => seq![ln(tool_label(tool, w), fg(Color::White).bold())],
            None => no_lines(),
        },
        SessionState::Processing => match s.current_tool {
            Some(tool) => seq![ln(tool_label(tool, w), fg(Color::White))],
            None => if s.is_thinking {
                seq![ln("󰛨 thinking…"@, fg(purple()))]
            } else {
                no_lines()
            },
        },
        SessionState::Starting | SessionState::Idle | SessionState::Inactive => no_lines(),
    }
}

pub fn activity_line(s: &SessionInfo, inner_w: usize) -> (r: Lines)
    ensures
        r@ == activity(*s, inner_w as int),
{
    match s.state {
        SessionState::Question => match &s.current_tool {
            Some(tool) => match &tool.hint {
                Some(hint) => {
                    let (icon, _) = state_indicator(s.state);
                    let room: usize = inner_w.saturating_sub(3);
                    let room: usize = if room > 6 {
                        room
                    } else {
                        6
                    };
                    Lines::of(
                        Line::of(
                            &cat3(&icon, " ", &first_line_truncated(hint, room)),
                            fg(Color::White).bold(),
                        ),
                    )
                },
                None => Lines::none(),
            },
            None => Lines::none(),
        },
        SessionState::WaitingForInput => match &s.current_tool {
            Some(tool) => Lines::of(
                Line::of(&format_tool_label(tool, inner_w), fg(Color::White).bold()),
            ),
            None => Lines::none(),
        },
        SessionState::Processing => match &s.current_tool {
            Some(tool) => Lines::of(Line::of(&format_tool_label(tool, inner_w), fg(Color::White))),
            None => if s.is_thinking {
                Lines::of(Line::of("󰛨 thinking…", fg(purple())))
            } else {
                Lines::none()
            },
        },
        SessionState::Starting | SessionState::Idle | SessionState::Inactive => Lines::none(),
    }
}

pub open spec fn branch_row(s: SessionInfo, w: int) -> Seq<Seq<SpanView>> {
    match filled(s.git_branch) {
        Some(b) => seq![
            ln("󰘦 "@, fg(muted_text())) + ln(short_line(b, minus(w, 3)), fg(Color::Cyan)),
        ],
        None => no_lines(),
    }
}

pub fn branch_line(s: &SessionInfo, inner_w: usize) -> (r: Lines)
    ensures
        r@ == branch_row(*s, inner_w as int),
{
    match filled_of(&s.git_branch) {
        Some(b) => {
            let mut l = Line::of("󰘦 ", fg(muted_text()));
            l.put(&first_line_truncated(&b, inner_w.saturating_sub(3)), fg(Color::Cyan));
            Lines::of(l)
        },
        None => Lines::none(),
    }
}

/// Process and session, as they are told apart.
pub open spec fn id_text(s: SessionInfo) -> Seq<char> {
    dec(s.pid as nat) + ":"@ + short_sid(s.session_id@)
}

/// The id at the right edge, behind `taken` columns.
pub open spec fn id_part(s: SessionInfo, w: int, taken: int) -> Seq<SpanView> {
    ln(fill(' ', minus(w, taken + id_text(s).len())), plain()) + ln(
        id_text(s),
        fg(Color::Rgb(50, 50, 60)),
    )
}

fn build_id(s: &SessionInfo, inner_w: usize, taken: usize, Ghost(exact): Ghost<int>) -> (r: Line)
    requires
        taken == at_most(exact, usize::MAX as int),
        exact >= 0,
    ensures
        r@ == id_part(*s, inner_w as int, exact),
{
    let id = cat3(&text_dec(s.pid as u64), ":", &short_sid_of(&s.session_id));
    let used: usize = taken.saturating_add(id.as_str().unicode_len());
    let pad: usize = inner_w.saturating_sub(used);
    let mut l = Line::of(&text_fill(' ', pad), plain());
    l.put(&id, fg(Color::Rgb(50, 50, 60)));
    l
}

/// The model, with the id at the right edge. An icon counts for two columns.
pub open spec fn model_row(s: SessionInfo, w: int) -> Seq<SpanView> {
    match filled(s.model) {
        Some(m) => ln("󰧑 "@ + model_name(s.vendor@, m), fg(Color::DarkGray)) + id_part(
            s,
            w,
            (3 + model_name(s.vendor@, m).len()) as int,
        ),
        None => id_part(s, w, 0),
    }
}

pub fn model_line(s: &SessionInfo, inner_w: usize) -> (r: Line)
    ensures
        r@ == model_row(*s, inner_w as int),
{
    match filled_of(&s.model) {
        Some(m) => {
            let short = short_model(&s.vendor, &m);
            let mut l = Line::of(&cat2("󰧑 ", &short), fg(Color::DarkGray));
            let taken: usize = short.as_str().unicode_len().saturating_add(3);
            l.join(build_id(s, inner_w, taken, Ghost((3 + short@.len()) as int)));
            l
        },
        None => build_id(s, inner_w, 0, Ghost(0)),
    }
}

pub open spec fn branch_part(s: SessionInfo) -> Seq<SpanView> {
    match filled(s.git_branch) {
        Some(b) => ln("󰘦 "@, fg(muted_text())) + ln(b, fg(Color::Cyan)),
        None => blank(),
    }
}

pub open spec fn branch_cols(s: SessionInfo) -> int {
    match filled(s.git_branch) {
        Some(b) => (3 + b.len()) as int,
        None => 0,
    }
}

/// Branch, model and id on one row, for cards with few rows.
pub open spec fn meta_row(s: SessionInfo, w: int) -> Seq<SpanView> {
    match filled(s.model) {
        Some(m) => {
            let sep = if filled(s.git_branch) is Some {
                " · "@
            } else {
                ""@
            };
            branch_part(s) + ln(sep + "󰧑 "@ + model_name(s.vendor@, m), fg(Color::DarkGray)) + id_part(
                s,
                w,
                branch_cols(s) + sep.len() + 3 + model_name(s.vendor@, m).len(),
            )
        },
        None => branch_part(s) + id_part(s, w, branch_cols(s)),
    }
}

pub fn meta_line(s: &SessionInfo, inner_w: usize) -> (r: Line)
    ensures
        r@ == meta_row(*s, inner_w as int),
{
    let branch = filled_of(&s.git_branch);
    let (mut l, cols, sep) = match &branch {
        Some(b) => {
            let mut l = Line::of("󰘦 ", fg(muted_text()));
            l.put(b, fg(Color::Cyan));
            (l, b.as_str().unicode_len().saturating_add(3), " · ")
        },
        None => (Line::empty(), 0, ""),
    };
    match filled_of(&s.model) {
        Some(m) => {
            let short = short_model(&s.vendor, &m);
            l.put(&cat3(sep, "󰧑 ", &short), fg(Color::DarkGray));
            let taken: usize = cols.saturating_add(sep.unicode_len()).saturating_add(3).saturating_add(
                short.as_str().unicode_len(),
            );
            l.join(build_id(s, inner_w, taken, Ghost(branch_cols(*s) + sep@.len() + 3 + short@.len())));
            l
        },
        None => {
            l.join(build_id(s, inner_w, cols, Ghost(branch_cols(*s))));
            l
        },
    }
}

// ---------------------------------------------------------------------------
// Footer
// ---------------------------------------------------------------------------

pub open spec fn clock_part(s: SessionInfo, now: int) -> Seq<SpanView> {
    match s.last_activity {
        Some(ts) => ln(
            "󰔟 "@ + duration_text((minus(now, ts as int) / 1000) as nat),
            fg(Color::DarkGray),
        ),
        None => blank(),
    }
}

pub open spec fn clock_cols(s: SessionInfo, now: int) -> int {
    match s.last_activity {
        Some(ts) => (3 + duration_text((minus(now, ts as int) / 1000) as nat).len()) as int,
        None => 0,
    }
}

pub open spec fn odometer_sep(s: SessionInfo) -> Seq<char> {
    if s.last_activity is Some {
        "  "@
    } else {
        ""@
    }
}

/// How many tools the session has used.
pub open spec fn odometer_part(s: SessionInfo) -> Seq<SpanView> {
    if s.tool_uses_count > 0 {
        ln(odometer_sep(s) + "󰖷 "@ + dec(s.tool_uses_count as nat), fg(Color::DarkGray))
    } else {
        blank()
    }
}

pub open spec fn odometer_cols(s: SessionInfo) -> int {
    if s.tool_uses_count > 0 {
        (odometer_sep(s).len() + 3 + dec(s.tool_uses_count as nat).len()) as int
    } else {
        0
    }
}

/// Whether the context is 999 percent of the window or more.
pub open spec fn off_scale(ctx: u64, window: u64) -> bool {
    ratio_num(ctx as nat, window as nat, 100) >= 999 * ratio_unit(ctx as nat, window as nat)
}

/// The share of the context window in percent, computed in doubles, cut off
/// and at most 100.
pub open spec fn context_pct(ctx: u64, window: u64) -> u8 {
    at_most(ratio_num(ctx as nat, window as nat, 100) / ratio_unit(ctx as nat, window as nat), 100) as u8
}

/// The share of the context window in percent, rounded, at most 999.
pub open spec fn context_label(ctx: u64, window: u64) -> Seq<char> {
    if off_scale(ctx, window) {
        dec(999)
    } else {
        dec(
            half_even(
                ratio_num(ctx as nat, window as nat, 100),
                ratio_unit(ctx as nat, window as nat),
            ) as nat,
        )
    }
}

fn context_numbers(ctx: u64, window: u64) -> (r: (u8, String))
    requires
        window > 0,
    ensures
        r.0 == context_pct(ctx, window),
        r.1@ == context_label(ctx, window),
{
    let x = ratio(ctx, window, 100);
    let share: u128 = x.num / x.unit;
    assert(share >= 0);
    let pct: u8 = if share < 100 {
        share as u8
    } else {
        100
    };
    let text = if x.num >= 999 * x.unit {
        text_dec(999)
    } else {
        text_dec_wide(crate::rounding::nearest_of(x))
    };
    (pct, text)
}

/// The context in use behind `taken` columns: icon, bar of eight columns and
/// percent at the right edge, or icon and percent where the bar has no room.
pub open spec fn context_part(ctx: u64, window: u64, w: int, taken: int) -> Seq<SpanView> {
    let pct = context_pct(ctx, window);
    let label = " "@ + context_label(ctx, window) + "%"@;
    let cols = 11 + label.len();
    let avail = minus(w, taken);
    if avail > cols {
        ln(fill(' ', avail - cols), plain()) + ln("󰍛 "@, fg(ctx_color(pct))) + context_bar(pct, 8) + ln(
            label,
            fg(ctx_color(pct)),
        )
    } else {
        let short = "󰍛 "@ + context_label(ctx, window) + "%"@;
        ln(fill(' ', minus(avail, 1 + short.len() as int)), plain()) + ln(short, fg(ctx_color(pct)))
    }
}

fn build_context(ctx: u64, window: u64, w: usize, taken: usize, Ghost(exact): Ghost<int>) -> (r: Line)
    requires
        window > 0,
        exact >= 0,
        taken == at_most(exact, usize::MAX as int),
    ensures
        r@ == context_part(ctx, window, w as int, exact),
{
    let (pct, number) = context_numbers(ctx, window);
    let label = cat3(" ", &number, "%");
    let cols: usize = label.as_str().unicode_len().saturating_add(11);
    let avail: usize = w.saturating_sub(taken);
    if avail > cols {
        let mut l = Line::of(&text_fill(' ', avail - cols), plain());
        l.put("󰍛 ", fg(ctx_color(pct)));
        l.join(ctx_bar(pct, 8));
        l.put(&label, fg(ctx_color(pct)));
        l
    } else {
        let short = cat3("󰍛 ", &number, "%");
        let pad: usize = avail.saturating_sub(short.as_str().unicode_len().saturating_add(1));
        let mut l = Line::of(&text_fill(' ', pad), plain());
        l.put(&short, fg(ctx_color(pct)));
        l
    }
}

/// The bottom row: the time since the last activity, the tools used, and the
/// context in use.
pub open spec fn footer_row(s: SessionInfo, now: int, w: int) -> Seq<SpanView> {
    clock_part(s, now) + odometer_part(s) + match s.context_tokens {
        Some(ctx) => context_part(
            ctx,
            window_size(or_empty(s.model)),
            w,
            clock_cols(s, now) + odometer_cols(s),
        ),
        None => blank(),
    }
}

pub fn footer_line(s: &SessionInfo, now: u64, inner_w: usize) -> (r: Line)
    ensures
        r@ == footer_row(*s, now as int, inner_w as int),
{
    let (mut l, cols, sep) = match s.last_activity {
        Some(ts) => {
            let elapsed = format_elapsed(now, ts);
            (
                Line::of(&cat2("󰔟 ", &elapsed), fg(Color::DarkGray)),
                elapsed.as_str().unicode_len().saturating_add(3),
                "  ",
            )
        },
        None => (Line::empty(), 0, ""),
    };
    let mut taken: usize = cols;
    let odometer = if s.tool_uses_count > 0 {
        let count = text_dec(s.tool_uses_count);
        taken = taken.saturating_add(sep.unicode_len()).saturating_add(3).saturating_add(
            count.as_str().unicode_len(),
        );
        Line::of(&cat3(sep, "󰖷 ", &count), fg(Color::DarkGray))
    } else {
        Line::empty()
    };
    l.join(odometer);
    let context = match s.context_tokens {
        Some(ctx) => {
            let window: u64 = context_window_size(&or_empty_of(&s.model));
            build_context(
                ctx,
                window,
                inner_w,
                taken,
                Ghost(clock_cols(*s, now as int) + odometer_cols(*s)),
            )
        },
        None => Line::empty(),
    };
    l.join(context);
    l
}

// ---------------------------------------------------------------------------
// Message
// ---------------------------------------------------------------------------

/// A message on one row, or on two where it does not fit on one and there is
/// room for both.
pub open spec fn message(msg: Seq<char>, w: int, budget: int) -> Seq<Seq<SpanView>> {
    let max = minus(w, 3);
    let text = replaced(msg, '\n', " "@);
    if budget == 0 || max == 0 {
        no_lines()
    } else if budget == 1 || text.len() <= max {
        seq![ln("󰍡 "@, fg(muted_text())) + ln(short_line(text, max), fg(context_gray()))]
    } else {
        seq![ln("󰍡 "@, fg(muted_text())) + ln(text.take(max), fg(context_gray()))] + seq![
            ln("  "@, plain()) + ln(short_line(text.skip(max), max), fg(context_gray())),
        ]
    }
}

pub fn message_lines(msg: &str, inner_w: usize, budget: usize) -> (r: Lines)
    ensures
        r@ == message(msg@, inner_w as int, budget as int),
{
    let max: usize = inner_w.saturating_sub(3);
    if budget == 0 || max == 0 {
        return Lines::none();
    }
    let text = replace(msg, '\n', " ");
    let v = chars_of(&text);
    let style = fg(context_gray());
    if budget == 1 || v.len() <= max {
        let mut l = Line::of("󰍡 ", fg(muted_text()));
        l.put(&first_line_truncated(&text, max), style);
        return Lines::of(l);
    }
    let first = slice_of(&v, 0, max);
    let rest = slice_of(&v, max, v.len());
    assert(first@ =~= text@.take(max as int));
    assert(rest@ =~= text@.skip(max as int));
    let mut l = Line::of("󰍡 ", fg(muted_text()));
    l.put(&first, style);
    let mut out = Lines::of(l);
    let mut l = Line::of("  ", plain());
    l.put(&first_line_truncated(&rest, max), style);
    out.put(l);
    out
}

/// What an untitled card shows of the conversation: the last message, or the
/// summary.
pub open spec fn shown_message(s: SessionInfo) -> Option<Seq<char>> {
    if filled(s.title) is Some {
        None
    } else {
        match s.last_user_message {
            Some(m) => Some(m@),
            None => opt(s.summary),
        }
    }
}

fn message_of(s: &SessionInfo) -> (r: Option<String>)
    ensures
        opt(r) == shown_message(*s),
{
    match filled_of(&s.title) {
        Some(_) => None,
        None => match &s.last_user_message {
            Some(m) => Some(m.clone()),
            None => match &s.summary {
                Some(m) => Some(m.clone()),
                None => None,
            },
        },
    }
}

// ---------------------------------------------------------------------------
// The card
// ---------------------------------------------------------------------------

/// The rows that say what a session is, pinned to the bottom of its card.
pub open spec fn identity_rows(s: SessionInfo, now: int, w: int, h: int) -> Seq<Seq<SpanView>> {
    (if h >= 4 {
        branch_row(s, w) + seq![model_row(s, w)]
    } else {
        seq![meta_row(s, w)]
    }) + seq![footer_row(s, now, w)]
}

fn build_identity(s: &SessionInfo, now: u64, w: usize, h: usize) -> (r: Lines)
    ensures
        r@ == identity_rows(*s, now as int, w as int, h as int),
{
    let mut out = if h >= 4 {
        let mut l = branch_line(s, w);
        l.put(model_line(s, w));
        l
    } else {
        Lines::of(meta_line(s, w))
    };
    out.put(footer_line(s, now, w));
    out
}

pub open spec fn blanks(n: int) -> Seq<Seq<SpanView>> {
    Seq::new(at_least(n, 0) as nat, |i: int| blank())
}

/// The message, in the rows that are left between activity and identity.
pub open spec fn message_rows(s: SessionInfo, w: int, left: int) -> Seq<Seq<SpanView>> {
    match shown_message(s) {
        Some(m) => message(m, w, at_most(left, 2)),
        None => no_lines(),
    }
}

/// The rows of a card: activity, message, empty rows, identity.
pub open spec fn card_rows(s: SessionInfo, now: int, w: int, h: int) -> Seq<Seq<SpanView>> {
    let top = activity(s, w);
    let bottom = identity_rows(s, now, w, h);
    let middle = message_rows(s, w, minus(h, (bottom.len() + top.len()) as int));
    top + middle + blanks(minus(h, (top.len() + middle.len() + bottom.len()) as int)) + bottom
}

/// A card fills exactly its rows where activity and identity fit, and its
/// last rows are always those that say what the session is.
pub proof fn card_rows_fill(s: SessionInfo, now: int, w: int, h: int)
    requires
        activity(s, w).len() + identity_rows(s, now, w, h).len() <= h,
    ensures
        card_rows(s, now, w, h).len() == h,
        card_rows(s, now, w, h).last() == footer_row(s, now, w),
        forall|k: int|
            0 <= k < identity_rows(s, now, w, h).len() ==> #[trigger] identity_rows(s, now, w, h)[k]
                == card_rows(s, now, w, h)[h - identity_rows(s, now, w, h).len() + k],
{
}

fn build_card_rows(s: &SessionInfo, now: u64, w: usize, h: usize) -> (r: Lines)
    requires
        h <= 0xffff,
    ensures
        r@ == card_rows(*s, now as int, w as int, h as int),
{
    let mut lines = activity_line(s, w);
    let bottom = build_identity(s, now, w, h);
    assert(lines@.len() <= 1);
    assert(bottom@.len() <= 3);
    let left: usize = h.saturating_sub(bottom.len() + lines.len());
    let budget: usize = if left < 2 {
        left
    } else {
        2
    };
    let middle = match message_of(s) {
        Some(m) => message_lines(&m, w, budget),
        None => Lines::none(),
    };
    assert(middle@.len() <= 2);
    lines.join(middle);
    let pad: usize = h.saturating_sub(lines.len() + bottom.len());
    let ghost above = lines@;
    let mut i: usize = 0;
    assert(lines@ =~= above + blanks(0));
    while i < pad
        invariant
            i <= pad,
            lines@ == above + blanks(i as int),
        decreases pad - i,
    {
        lines.put(Line::empty());
        i += 1;
        assert(lines@ =~= above + blanks(i as int));
    }
    lines.join(bottom);
    lines
}

/// The card of a session.
pub fn render_card(
    area: Rect,
    s: &SessionInfo,
    role: &Option<SessionRole>,
    selected: bool,
    now: u64,
) -> (r: Card)
    requires
        area.fits(),
    ensures
        (r.border, r.border_color) == card_border(*s, selected),
        r.title@ == card_title(*s, *role, now as int),
        r.inner == inside(area),
        body_view(r.body) == if inside(area).height > 0 && inside(area).width > 0 {
            Some(card_rows(*s, now as int, inside(area).width as int, inside(area).height as int))
        } else {
            None
        },
{
    let (border, border_color) = border_of(s, selected);
    let title = build_title(s, role, now);
    let inner = inner_of(area);
    let body = if inner.height == 0 || inner.width == 0 {
        None
    } else {
        Some(build_card_rows(s, now, inner.width as usize, inner.height as usize))
    };
    Card { border, border_color, title, inner, body }
}

// ---------------------------------------------------------------------------
// What the cards tell
// ---------------------------------------------------------------------------

/// The title of a card: which task the session works for, its agent unless it is the
/// usual one, its state, and its title, between blanks where it waits for the user.
pub proof fn titles_tell_the_session(s: SessionInfo, role: Option<SessionRole>, now: int, icon: Seq<char>)
    requires
        s.title matches Some(t) && t@.len() > 0 && t@.last() != ' ',
        match s.state {
            SessionState::Processing => icon == spinner(now),
            SessionState::WaitingForInput => icon == "󰂞"@,
            SessionState::Question => icon == "󰋗"@,
            SessionState::Starting | SessionState::Idle => icon == "󰒲"@,
            SessionState::Inactive => icon == "󰜎"@,
        },
    ensures
        ({
            let work = match role {
                Some(SessionRole::Orchestrator { short_task_id }) => "★ orch["@ + short_task_id@ + "] "@,
                Some(SessionRole::Worker { short_task_id, worktree, readonly }) => "↳ wkr["@ + short_task_id@ + "/"@
                    + (if readonly {
                    "RO"@
                } else {
                    match worktree {
                        Some(w) => w@,
                        None => "wt"@,
                    }
                }) + "] "@,
                None => Seq::empty(),
            };
            let agent = if s.agent_id@ == s.vendor@ {
                Seq::empty()
            } else {
                "["@ + s.agent_badge@ + "] "@
            };
            let told = work + agent + icon + " "@ + s.title->Some_0@;
            line_text(card_title(s, role, now)) == if s.needs_attention {
                " "@ + told + " "@
            } else {
                told
            }
        }),
{
    broadcast use {crate::style::joined_line_text, crate::style::span_line_text, crate::style::blank_line_text};

}

/// A card without a title ends its icon with a blank, or with a pencil while a title is
/// being made.
pub proof fn untitled_cards_keep_their_icon(s: SessionInfo, role: Option<SessionRole>, now: int)
    requires
        s.title is None,
        !s.needs_attention,
    ensures
        line_text(card_title(s, role, now)) == role_text(role) + badge_text(s) + card_indicator(s, now) + if s.titling {
            " ✎ …"@
        } else {
            " "@
        },
{
    broadcast use {crate::style::joined_line_text, crate::style::span_line_text, crate::style::blank_line_text};

}

/// The box of the selected card is double and white; of the others, that of a session
/// that waits for the user is thick, and that of one that is gone is dashed.
pub proof fn boxes_tell_the_state(s: SessionInfo, selected: bool)
    ensures
        selected ==> card_border(s, selected) == (Border::Double, Color::White),
        !selected && s.needs_attention ==> card_border(s, selected) == (Border::Thick, state_color(s.state)),
        !selected && !s.needs_attention ==> card_border(s, selected).0 == if s.state == SessionState::Inactive {
            Border::LightDoubleDashed
        } else {
            Border::Rounded
        },
        !selected && !s.needs_attention ==> card_border(s, selected).1 == if s.state == SessionState::Processing {
            Color::Green
        } else {
            sep_gray()
        },
{
}

/// What a session does stands on the first row of its card: the question that it asks,
/// the tool that it wants to use or uses, or that it thinks. A session that starts, is
/// idle or is gone has no such row.
pub proof fn activity_comes_first(s: SessionInfo, now: int, w: int, h: int)
    requires
        w >= 9,
    ensures
        ({
            let first = line_text(card_rows(s, now, w, h)[0]);
            &&& s.state == SessionState::Question ==> (s.current_tool matches Some(tool) ==> (tool.hint matches Some(
                hint,
            ) ==> (!hint@.contains('\n') && 0 < hint@.len() <= w - 3 && hint@.last() != '\r' ==> first == "󰋗"@ + " "@
                + hint@)))
            &&& s.state == SessionState::WaitingForInput || s.state == SessionState::Processing ==> (
            s.current_tool matches Some(tool) ==> first == tool_label(tool, w))
            &&& s.state == SessionState::Processing && s.current_tool is None && s.is_thinking ==> first
                == "󰛨 thinking…"@
            &&& s.state == SessionState::Starting || s.state == SessionState::Idle || s.state
                == SessionState::Inactive ==> activity(s, w).len() == 0
        }),
{
    broadcast use {crate::style::joined_line_text, crate::style::span_line_text, crate::style::blank_line_text};

    match s.current_tool {
        Some(tool) => match tool.hint {
            Some(hint) => {
                if !hint@.contains('\n') && 0 < hint@.len() <= w - 3 && hint@.last() != '\r' {
                    crate::models::short_line_keeps_the_first_line(hint@, Seq::empty(), w - 3);
                }
            },
            None => {},
        },
        None => {},
    }
    let top = activity(s, w);
    if top.len() > 0 {
        assert(card_rows(s, now, w, h)[0] == top[0]);
    }
}

/// On a card without a title the message stands below the activity: the last one of the
/// user, or else the summary. One that fits is told whole.
pub proof fn messages_are_told(s: SessionInfo, now: int, w: int, h: int, said: Seq<char>)
    requires
        s.title is None,
        match s.last_user_message {
            Some(m) => m@ == said,
            None => s.summary matches Some(m) && m@ == said,
        },
        crate::parts::is_plain_line(said),
        said.len() <= w - 3,
        activity(s, w).len() + identity_rows(s, now, w, h).len() < h,
    ensures
        line_text(card_rows(s, now, w, h)[activity(s, w).len() as int]) == "󰍡 "@ + said,
{
    broadcast use {crate::style::joined_line_text, crate::style::span_line_text, crate::style::blank_line_text};

    crate::parts::nothing_to_replace(said, '\n', " "@);
    assert(said.last() != '\r');
    crate::models::short_line_keeps_the_first_line(said, Seq::empty(), w - 3);
    let top = activity(s, w);
    let bottom = identity_rows(s, now, w, h);
    let middle = message_rows(s, w, minus(h, (bottom.len() + top.len()) as int));
    assert(card_rows(s, now, w, h)[top.len() as int] == middle[0]);
}

/// A message that needs two rows and has them goes on where the first row ends.
pub proof fn messages_go_on(said: Seq<char>, w: int)
    requires
        crate::parts::is_plain_line(said),
        0 < w - 3 < said.len() <= 2 * (w - 3),
    ensures
        message(said, w, 2).len() == 2,
        line_text(message(said, w, 2)[0]) == "󰍡 "@ + said.take(w - 3),
        line_text(message(said, w, 2)[1]) == "  "@ + said.skip(w - 3),
{
    broadcast use {crate::style::joined_line_text, crate::style::span_line_text, crate::style::blank_line_text};

    crate::parts::nothing_to_replace(said, '\n', " "@);
    let rest = said.skip(w - 3);
    assert(rest.last() == said.last());
    assert(!rest.contains('\n')) by {
        if rest.contains('\n') {
            let k = choose|k: int| 0 <= k < rest.len() && rest[k] == '\n';
            assert(said[w - 3 + k] == '\n');
        }
    }
    crate::models::short_line_keeps_the_first_line(rest, Seq::empty(), w - 3);
}

/// A card with a title shows no message.
pub proof fn titled_cards_have_no_message(s: SessionInfo, w: int, left: int)
    requires
        s.title matches Some(t) && t@.len() > 0,
    ensures
        message_rows(s, w, left).len() == 0,
{
}

proof fn lemma_front(a: Seq<char>, b: Seq<char>)
    ensures
        (a + b).len() == a.len() + b.len(),
        (a + b).take(a.len() as int) == a,
        (a + b).skip(a.len() as int) == b,
{
    assert((a + b).take(a.len() as int) =~= a);
    assert((a + b).skip(a.len() as int) =~= b);
}

/// The last row of a card: how long ago its session was active, how many tools it has
/// used, and at the right edge how full its context is.
pub proof fn footers_tell_the_session(s: SessionInfo, now: int, w: int)
    ensures
        ({
            let age = match s.last_activity {
                Some(ts) => "󰔟 "@ + duration_text(
                    ((if now > ts {
                        now - ts
                    } else {
                        0
                    }) / 1000) as nat,
                ),
                None => Seq::empty(),
            };
            let tools = if s.tool_uses_count > 0 {
                (if s.last_activity is Some {
                    "  "@
                } else {
                    ""@
                }) + "󰖷 "@ + dec(s.tool_uses_count as nat)
            } else {
                Seq::empty()
            };
            let row = line_text(footer_row(s, now, w));
            let front = age + tools;
            &&& row.len() >= front.len() && row.take(front.len() as int) == front
            &&& s.context_tokens is None ==> row == front
            &&& s.context_tokens matches Some(ctx) ==> {
                let label = context_label(ctx, window_size(or_empty(s.model))) + "%"@;
                row.len() >= label.len() && row.skip(row.len() - label.len()) == label
            }
        }),
{
    broadcast use {crate::style::joined_line_text, crate::style::span_line_text, crate::style::blank_line_text};

    let front = line_text(clock_part(s, now)) + line_text(odometer_part(s));
    match s.context_tokens {
        Some(ctx) => {
            let window = window_size(or_empty(s.model));
            let taken = clock_cols(s, now) + odometer_cols(s);
            let part = line_text(context_part(ctx, window, w, taken));
            let label = context_label(ctx, window) + "%"@;
            lemma_front(front, part);
            let row = front + part;
            assert(line_text(footer_row(s, now, w)) == row);
            assert(part.len() >= label.len() && part.skip(part.len() - label.len()) =~= label);
            assert(row.skip(row.len() - label.len()) =~= part.skip(part.len() - label.len()));
        },
        None => {
            assert(front + Seq::<char>::empty() =~= front);
            assert(front.take(front.len() as int) =~= front);
        },
    }
}

/// A full context is a hundred percent, and an empty one none.
pub proof fn full_contexts_are_a_hundred_percent(window: u64)
    requires
        window > 0,
    ensures
        context_label(window, window) == dec(100),
        context_pct(window, window) == 100,
{
    crate::rounding::ratio_of_whole(window as nat, 100);
    let u = crate::rounding::ratio_unit(window as nat, window as nat);
    assert((u * 100) / u == 100 && (u * 100) % u == 0) by (nonlinear_arith)
        requires
            u > 0,
    ;
    assert(u * 100 < 999 * u) by (nonlinear_arith)
        requires
            u > 0,
    ;
}

/// The row above it: the model, without its vendor, and at the right edge the process and
/// the first eight characters of the session's id.
pub proof fn models_are_told(s: SessionInfo, now: int, w: int, h: int, name: Seq<char>)
    requires
        h >= 4,
        s.model matches Some(m) && m@.len() > 0 && model_name(s.vendor@, m@) == name,
        s.session_id@.len() >= 8,
        3 + name.len() + dec(s.pid as nat).len() + 9 <= w,
    ensures
        ({
            let rows = identity_rows(s, now, w, h);
            let row = line_text(rows[rows.len() - 2]);
            let id = dec(s.pid as nat) + ":"@ + s.session_id@.take(8);
            &&& rows.len() == if s.git_branch is Some && s.git_branch->Some_0@.len() > 0 {
                3int
            } else {
                2int
            }
            &&& row == "󰧑 "@ + name + (fill(' ', w - 3 - name.len() - id.len()) + id)
            &&& s.git_branch matches Some(b) ==> (!b@.contains('\n') && 0 < b@.len() <= w - 3 && b@.last() != '\r'
                ==> line_text(rows[0]) == "󰘦 "@ + b@)
        }),
{
    broadcast use {crate::style::joined_line_text, crate::style::span_line_text, crate::style::blank_line_text};

    reveal_strlit(":");
    match s.git_branch {
        Some(b) => {
            if !b@.contains('\n') && 0 < b@.len() <= w - 3 && b@.last() != '\r' {
                crate::models::short_line_keeps_the_first_line(b@, Seq::empty(), w - 3);
            }
        },
        None => {},
    }
    let rows = identity_rows(s, now, w, h);
    assert(rows[rows.len() - 2] == model_row(s, w));
}

/// A card of few rows has branch, model and id on one of them.
pub proof fn low_cards_share_a_row(s: SessionInfo, now: int, w: int, h: int, name: Seq<char>)
    requires
        h < 4,
        s.model matches Some(m) && m@.len() > 0 && model_name(s.vendor@, m@) == name,
        s.git_branch matches Some(b) && b@.len() > 0,
        s.session_id@.len() >= 8,
        s.git_branch->Some_0@.len() + name.len() + dec(s.pid as nat).len() + 18 <= w,
    ensures
        ({
            let rows = identity_rows(s, now, w, h);
            let id = dec(s.pid as nat) + ":"@ + s.session_id@.take(8);
            &&& rows.len() == 2
            &&& line_text(rows[0]) == "󰘦 "@ + s.git_branch->Some_0@ + (" · "@ + "󰧑 "@ + name) + (fill(
                ' ',
                w - 9 - s.git_branch->Some_0@.len() - name.len() - id.len(),
            ) + id)
        }),
{
    broadcast use {crate::style::joined_line_text, crate::style::span_line_text, crate::style::blank_line_text};

    reveal_strlit(":");
    reveal_strlit(" · ");
}

} // verus!
