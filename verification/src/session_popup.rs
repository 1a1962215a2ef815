//! The popup with everything about one session.

use crate::common::{
    format_datetime, format_time, model_name, reads_datetime, reads_time, short_model, state_color, state_icon,
    state_indicator,
};
use crate::geometry::{centered_rect, inner_of, inside, middle, scaled, share_85, Rect};
use crate::models::{or_empty, or_empty_of, SessionInfo, SessionState};
use crate::palette::muted_text;
use crate::parts::{lines, lines_of, push_text, texts};
use crate::rounding::{format_tokens, tokens};
use crate::style::{blank, fg, line_text, ln, no_lines, plain, Color, Line, Lines, SpanView};
use crate::text::{cat2, cat4, cat5, dec, fill, minus, same, text_dec, text_fill};
use vstd::prelude::*;

verus! {

broadcast use vstd::string::group_string_axioms;

/// One message of a conversation.
#[derive(Debug)]
pub struct Message {
    pub role: String,
    /// Milliseconds since the epoch.
    pub timestamp: u64,
    pub model: Option<String>,
    /// What the name of the model begins with.
    pub vendor: String,
    pub stop_reason: Option<String>,
    pub input_tokens: Option<u64>,
    pub output_tokens: Option<u64>,
    pub content_preview: String,
}

#[derive(Debug)]
pub struct SessionDetail {
    pub info: SessionInfo,
    pub total_input_tokens: u64,
    pub total_output_tokens: u64,
    pub recent_messages: Vec<Message>,
}

// ---------------------------------------------------------------------------
// The session
// ---------------------------------------------------------------------------

pub open spec fn agent_row(s: SessionInfo) -> Seq<SpanView> {
    ln("󰚩  "@, fg(muted_text())) + ln("Agent:  "@, fg(Color::DarkGray)) + ln(
        s.agent_badge@,
        fg(Color::White),
    ) + ln("   󰘦  "@, fg(muted_text())) + ln("Branch:  "@, fg(Color::DarkGray)) + ln(
        or_empty(s.git_branch),
        fg(Color::Cyan),
    ) + (match s.model {
        Some(m) => ln("   󰧑 Model: "@, fg(Color::DarkGray)) + ln(model_name(s.vendor@, m@), fg(Color::White)),
        None => blank(),
    }) + (match s.version {
        Some(v) => ln("   v"@, fg(Color::DarkGray)) + ln(v@, fg(Color::DarkGray)),
        None => blank(),
    })
}

fn build_agent_row(s: &SessionInfo) -> (r: Line)
    ensures
        r@ == agent_row(*s),
{
    let mut l = Line::of("󰚩  ", fg(muted_text()));
    l.put("Agent:  ", fg(Color::DarkGray));
    l.put(&s.agent_badge, fg(Color::White));
    l.put("   󰘦  ", fg(muted_text()));
    l.put("Branch:  ", fg(Color::DarkGray));
    l.put(&or_empty_of(&s.git_branch), fg(Color::Cyan));
    let model = match &s.model {
        Some(m) => {
            let mut p = Line::of("   󰧑 Model: ", fg(Color::DarkGray));
            p.put(&short_model(&s.vendor, m), fg(Color::White));
            p
        },
        None => Line::empty(),
    };
    l.join(model);
    let version = match &s.version {
        Some(v) => {
            let mut p = Line::of("   v", fg(Color::DarkGray));
            p.put(v, fg(Color::DarkGray));
            p
        },
        None => Line::empty(),
    };
    l.join(version);
    l
}

pub open spec fn state_row(s: SessionInfo, started: Seq<char>) -> Seq<SpanView> {
    ln(state_icon(s.state) + " "@, fg(state_color(s.state))) + ln(
        "State:   "@,
        fg(Color::DarkGray),
    ) + ln(s.state_label@, fg(state_color(s.state))) + ln(
        "   󰥔 Started: "@,
        fg(Color::DarkGray),
    ) + ln(started, fg(Color::White))
}

/// Path, agent, state, tokens and topic, above a line across.
pub open spec fn session_head(d: SessionDetail, started: Seq<char>, width: int) -> Seq<Seq<SpanView>> {
    let s = d.info;
    seq![
        ln("  "@, fg(muted_text())) + ln("Path:    "@, fg(Color::DarkGray)) + ln(
            s.cwd@,
            fg(Color::White),
        ),
    ] + seq![agent_row(s)] + seq![state_row(s, started)] + seq![
        ln("󰆏 "@, fg(muted_text())) + ln("Tokens:  "@, fg(Color::DarkGray)) + ln(
            tokens(d.total_input_tokens as nat) + "in / "@ + tokens(d.total_output_tokens as nat)
                + "out"@,
            fg(Color::White),
        ),
    ] + (match s.summary {
        Some(t) => seq![
            ln("󰍡 "@, fg(muted_text())) + ln("Topic:   "@, fg(Color::DarkGray)) + ln(
                t@,
                fg(Color::White),
            ),
        ],
        None => no_lines(),
    }) + seq![ln(fill('─', minus(width, 1)), fg(Color::Rgb(50, 50, 60)))] + seq![blank()]
}

fn build_session_head(d: &SessionDetail, started: &str, width: u16) -> (r: Lines)
    ensures
        r@ == session_head(*d, started@, width as int),
{
    let s = &d.info;
    let mut l = Line::of("  ", fg(muted_text()));
    l.put("Path:    ", fg(Color::DarkGray));
    l.put(&s.cwd, fg(Color::White));
    let mut out = Lines::of(l);
    out.put(build_agent_row(s));
    let (icon, color) = state_indicator(s.state);
    let mut l = Line::of(&cat2(&icon, " "), fg(color));
    l.put("State:   ", fg(Color::DarkGray));
    l.put(&s.state_label, fg(color));
    l.put("   󰥔 Started: ", fg(Color::DarkGray));
    l.put(started, fg(Color::White));
    out.put(l);
    let mut l = Line::of("󰆏 ", fg(muted_text()));
    l.put("Tokens:  ", fg(Color::DarkGray));
    l.put(
        &cat4(&format_tokens(d.total_input_tokens), "in / ", &format_tokens(d.total_output_tokens), "out"),
        fg(Color::White),
    );
    out.put(l);
    let topic = match &s.summary {
        Some(t) => {
            let mut l = Line::of("󰍡 ", fg(muted_text()));
            l.put("Topic:   ", fg(Color::DarkGray));
            l.put(t, fg(Color::White));
            Lines::of(l)
        },
        None => Lines::none(),
    };
    out.join(topic);
    out.put(Line::of(&text_fill('─', (width as usize).saturating_sub(1)), fg(Color::Rgb(50, 50, 60))));
    out.put(Line::empty());
    out
}

// ---------------------------------------------------------------------------
// Messages
// ---------------------------------------------------------------------------

/// The icon, the label and the colour of whoever said a message.
pub open spec fn role_look(role: Seq<char>) -> (Seq<char>, Seq<char>, Color) {
    if role == "user"@ {
        (""@, "user"@, Color::Yellow)
    } else if role == "assistant"@ {
        ("󰧑"@, "asst"@, Color::Green)
    } else if role == "system"@ {
        (""@, "sys "@, Color::DarkGray)
    } else {
        (""@, "??? "@, Color::DarkGray)
    }
}

pub open spec fn message_head(m: Message, time: Seq<char>) -> Seq<SpanView> {
    let (icon, label, color) = role_look(m.role@);
    ln(icon + " "@ + label + " "@, fg(color).bold()) + ln("󰥔 "@ + time, fg(Color::DarkGray)) + (
    match m.model {
        Some(x) => ln("  󰧑 "@ + model_name(m.vendor@, x@), fg(Color::Rgb(80, 80, 80))),
        None => blank(),
    }) + (match m.stop_reason {
        Some(x) => if x@ == "tool_use"@ {
            ln("   tools"@, fg(Color::Cyan))
        } else {
            blank()
        },
        None => blank(),
    }) + (match (m.input_tokens, m.output_tokens) {
        (Some(i), Some(o)) => ln(
            "  "@ + tokens(i as nat) + "in/"@ + tokens(o as nat) + "out"@,
            fg(Color::Rgb(60, 60, 60)),
        ),
        _ => blank(),
    })
}

fn build_message_head(m: &Message, time: &str) -> (r: Line)
    ensures
        r@ == message_head(*m, time@),
{
    let (icon, label, color) = if same(&m.role, "user") {
        ("", "user", Color::Yellow)
    } else if same(&m.role, "assistant") {
        ("󰧑", "asst", Color::Green)
    } else if same(&m.role, "system") {
        ("", "sys ", Color::DarkGray)
    } else {
        ("", "??? ", Color::DarkGray)
    };
    let mut l = Line::of(&cat4(icon, " ", label, " "), fg(color).bold());
    l.put(&cat2("󰥔 ", time), fg(Color::DarkGray));
    let model = match &m.model {
        Some(x) => Line::of(&cat2("  󰧑 ", &short_model(&m.vendor, x)), fg(Color::Rgb(80, 80, 80))),
        None => Line::empty(),
    };
    l.join(model);
    let stop = match &m.stop_reason {
        Some(x) => if same(x, "tool_use") {
            Line::of("   tools", fg(Color::Cyan))
        } else {
            Line::empty()
        },
        None => Line::empty(),
    };
    l.join(stop);
    let used = match (m.input_tokens, m.output_tokens) {
        (Some(i), Some(o)) => Line::of(
            &cat5("  ", &format_tokens(i), "in/", &format_tokens(o), "out"),
            fg(Color::Rgb(60, 60, 60)),
        ),
        _ => Line::empty(),
    };
    l.join(used);
    l
}

pub open spec fn content_rows(text: Seq<Seq<char>>) -> Seq<Seq<SpanView>> {
    text.map_values(|s: Seq<char>| ln("  "@, plain()) + ln(s, fg(Color::Rgb(200, 200, 210))))
}

/// A message: its head, its lines and an empty row.
pub open spec fn message_rows(m: Message, time: Seq<char>) -> Seq<Seq<SpanView>> {
    seq![message_head(m, time)] + content_rows(lines(m.content_preview@)) + seq![blank()]
}

fn build_message_rows(m: &Message, time: &str) -> (r: Lines)
    ensures
        r@ == message_rows(*m, time@),
{
    let mut out = Lines::of(build_message_head(m, time));
    let said = lines_of(&m.content_preview);
    let ghost head = out@;
    let ghost rows = content_rows(texts(said@));
    let mut i: usize = 0;
    assert(out@ =~= head + rows.take(0));
    while i < said.len()
        invariant
            i <= said@.len(),
            rows == content_rows(texts(said@)),
            out@ == head + rows.take(i as int),
        decreases said@.len() - i,
    {
        let mut l = Line::of("  ", plain());
        l.put(&said[i], fg(Color::Rgb(200, 200, 210)));
        out.put(l);
        i += 1;
        assert(out@ =~= head + rows.take(i as int));
    }
    assert(rows.take(i as int) =~= rows);
    out.put(Line::empty());
    out
}

/// The first `n` messages.
pub open spec fn messages_rows(ms: Seq<Message>, times: Seq<Seq<char>>, n: int) -> Seq<Seq<SpanView>>
    decreases n,
{
    if n <= 0 {
        no_lines()
    } else {
        messages_rows(ms, times, n - 1) + message_rows(ms[n - 1], times[n - 1])
    }
}

// ---------------------------------------------------------------------------
// The popup
// ---------------------------------------------------------------------------

/// Everything about a session, with its times in local time.
pub open spec fn popup_content(
    d: SessionDetail,
    started: Seq<char>,
    times: Seq<Seq<char>>,
    width: int,
) -> Seq<Seq<SpanView>> {
    session_head(d, started, width) + messages_rows(
        d.recent_messages@,
        times,
        d.recent_messages@.len() as int,
    )
}

/// The popup's lines for given local times: that of the session's start and
/// those of its messages.
pub fn popup_lines(d: &SessionDetail, started: &str, times: &Vec<String>, width: u16) -> (r: Lines)
    requires
        times@.len() == d.recent_messages@.len(),
    ensures
        r@ == popup_content(*d, started@, texts(times@), width as int),
{
    let mut out = build_session_head(d, started, width);
    let ghost head = out@;
    let mut i: usize = 0;
    assert(out@ =~= head + messages_rows(d.recent_messages@, texts(times@), 0));
    while i < d.recent_messages.len()
        invariant
            i <= d.recent_messages@.len(),
            times@.len() == d.recent_messages@.len(),
            out@ == head + messages_rows(d.recent_messages@, texts(times@), i as int),
        decreases d.recent_messages@.len() - i,
    {
        let ghost before = messages_rows(d.recent_messages@, texts(times@), i as int);
        let rows = build_message_rows(&d.recent_messages[i], &times[i]);
        assert(texts(times@)[i as int] == times@[i as int]@);
        let ghost added = rows@;
        out.join(rows);
        i += 1;
        assert(head + before + added =~= head + (before + added));
    }
    out
}

/// `times` are the times of day of the messages, each on a clock of some offset.
pub open spec fn message_times(ms: Seq<Message>, times: Seq<Seq<char>>) -> bool {
    &&& times.len() == ms.len()
    &&& forall|i: int| 0 <= i < ms.len() ==> reads_time(#[trigger] times[i], ms[i].timestamp)
}

/// The popup's lines, with times in the machine's time zone.
pub fn build_popup_content(d: &SessionDetail, width: u16) -> (r: Lines)
    ensures
        exists|started: Seq<char>, times: Seq<Seq<char>>|
            {
                &&& r@ == #[trigger] popup_content(*d, started, times, width as int)
                &&& message_times(d.recent_messages@, times)
                &&& reads_datetime(started, d.info.started_at)
            },
{
    let started = format_datetime(d.info.started_at);
    let mut times: Vec<String> = Vec::new();
    let mut i: usize = 0;
    while i < d.recent_messages.len()
        invariant
            i <= d.recent_messages@.len(),
            times@.len() == i,
            forall|k: int|
                0 <= k < i ==> reads_time(#[trigger] texts(times@)[k], d.recent_messages@[k].timestamp),
        decreases d.recent_messages@.len() - i,
    {
        let ghost was = texts(times@);
        push_text(&mut times, format_time(d.recent_messages[i].timestamp));
        i += 1;
        assert forall|k: int| 0 <= k < i implies reads_time(
            #[trigger] texts(times@)[k],
            d.recent_messages@[k].timestamp,
        ) by {
            if k < i - 1 {
                assert(texts(times@)[k] == was[k]);
            }
        }
    }
    assert(message_times(d.recent_messages@, texts(times@)));
    popup_lines(d, &started, &times, width)
}

/// The title of the popup.
pub open spec fn popup_title(s: SessionInfo) -> Seq<char> {
    " "@ + s.project_name@ + " (PID "@ + dec(s.pid as nat) + ") "@
}

pub fn build_popup_title(s: &SessionInfo) -> (r: String)
    ensures
        r@ == popup_title(*s),
{
    cat5(" ", &s.project_name, " (PID ", &text_dec(s.pid as u64), ") ")
}

/// Where a popup is, where its lines are, and where on its border it says
/// which of how many lines is at the top.
#[derive(Debug)]
pub struct PopupFrame {
    pub area: Rect,
    pub inner: Rect,
    pub indicator: String,
    /// None where the border has no row inside.
    pub indicator_area: Option<Rect>,
}

pub open spec fn popup_rect(area: Rect) -> Rect {
    middle(area, scaled(area.width as int, share_85()), scaled(area.height as int, share_85()))
}

/// The popup's frame for so many lines.
pub fn render_popup(area: Rect, total: usize, scroll: u16) -> (r: PopupFrame)
    requires
        area.fits(),
    ensures
        r.area == popup_rect(area),
        r.inner == inside(r.area),
        r.indicator@ == crate::metrics::position_text(
            scroll as int,
            total as u16 as int,
        ),
        r.indicator_area == if r.inner.height > 0 {
            Some(
                Rect {
                    x: r.inner.x,
                    y: (r.area.y + r.area.height - 1) as u16,
                    width: r.inner.width,
                    height: 1,
                },
            )
        } else {
            None
        },
{
    let popup = centered_rect(area, share_85());
    let inner = inner_of(popup);
    let shown: u16 = #[verifier::truncate] (total as u16);
    let last: u16 = shown.saturating_sub(1);
    let at: u16 = if scroll < last {
        scroll
    } else {
        last
    };
    let indicator = cat5(" ", &text_dec(at as u64 + 1), "/", &text_dec(shown as u64), " ");
    let indicator_area = if inner.height > 0 {
        Some(Rect { x: inner.x, y: popup.y + popup.height - 1, width: inner.width, height: 1 })
    } else {
        None
    };
    PopupFrame { area: popup, inner, indicator, indicator_area }
}

// ---------------------------------------------------------------------------
// What the popup tells
// ---------------------------------------------------------------------------

/// The popup begins with where the session runs, its agent, branch, model and version,
/// its state and its start, and the tokens that it took and gave.
pub proof fn popup_begins_with_the_session(d: SessionDetail, started: Seq<char>, times: Seq<Seq<char>>, width: int)
    ensures
        ({
            let rows = popup_content(d, started, times, width);
            let s = d.info;
            let icon = match s.state {
                SessionState::Processing => "󰒓"@,
                SessionState::WaitingForInput => "󰂞"@,
                SessionState::Question => "󰋗"@,
                SessionState::Starting | SessionState::Idle => "󰒲"@,
                SessionState::Inactive => "󰜎"@,
            };
            let branch = match s.git_branch {
                Some(b) => b@,
                None => Seq::empty(),
            };
            let model = match s.model {
                Some(m) => "   󰧑 Model: "@ + model_name(s.vendor@, m@),
                None => Seq::empty(),
            };
            let version = match s.version {
                Some(v) => "   v"@ + v@,
                None => Seq::empty(),
            };
            &&& rows.len() >= 6
            &&& line_text(rows[0]) == "  "@ + "Path:    "@ + s.cwd@
            &&& line_text(rows[1]) == "󰚩  "@ + "Agent:  "@ + s.agent_badge@ + "   󰘦  "@ + "Branch:  "@ + branch + model
                + version
            &&& line_text(rows[2]) == (icon + " "@) + "State:   "@ + s.state_label@ + "   󰥔 Started: "@ + started
            &&& line_text(rows[3]) == "󰆏 "@ + "Tokens:  "@ + (tokens(d.total_input_tokens as nat) + "in / "@ + tokens(
                d.total_output_tokens as nat,
            ) + "out"@)
            &&& s.summary matches Some(t) ==> line_text(rows[4]) == "󰍡 "@ + "Topic:   "@ + t@
        }),
{
    broadcast use {crate::style::joined_line_text, crate::style::span_line_text, crate::style::blank_line_text};

    let head = session_head(d, started, width);
    let rows = popup_content(d, started, times, width);
    assert(forall|i: int| 0 <= i < head.len() ==> rows[i] == head[i]);
}

proof fn lemma_messages_before(a: Seq<Message>, b: Seq<Message>, s: Seq<Seq<char>>, t: Seq<Seq<char>>, n: int)
    requires
        0 <= n <= a.len(),
        a.len() <= b.len() && s.len() <= t.len() && n <= s.len(),
        forall|i: int| 0 <= i < a.len() ==> a[i] == b[i],
        forall|i: int| 0 <= i < s.len() ==> s[i] == t[i],
    ensures
        messages_rows(a, s, n) == messages_rows(b, t, n),
    decreases n,
{
    if n > 0 {
        lemma_messages_before(a, b, s, t, n - 1);
    }
}

/// One more message adds a head, each of its lines two columns in, and an empty row, below
/// what is there: who says it and when, with which model, whether it calls tools, and the
/// tokens that it took and gave.
pub proof fn messages_are_appended(
    a: SessionDetail,
    b: SessionDetail,
    m: Message,
    started: Seq<char>,
    times: Seq<Seq<char>>,
    time: Seq<char>,
    width: int,
    k: int,
)
    requires
        b.info == a.info,
        b.total_input_tokens == a.total_input_tokens && b.total_output_tokens == a.total_output_tokens,
        b.recent_messages@ == a.recent_messages@.push(m),
        times.len() == a.recent_messages@.len(),
        0 <= k < lines(m.content_preview@).len(),
    ensures
        ({
            let before = popup_content(a, started, times, width);
            let after = popup_content(b, started, times.push(time), width);
            let who = if m.role@ == "user"@ {
                ""@ + " "@ + "user"@ + " "@
            } else if m.role@ == "assistant"@ {
                "󰧑"@ + " "@ + "asst"@ + " "@
            } else if m.role@ == "system"@ {
                ""@ + " "@ + "sys "@ + " "@
            } else {
                ""@ + " "@ + "??? "@ + " "@
            };
            let model = match m.model {
                Some(x) => "  󰧑 "@ + model_name(m.vendor@, x@),
                None => Seq::empty(),
            };
            let tools = if m.stop_reason is Some && m.stop_reason->Some_0@ == "tool_use"@ {
                "   tools"@
            } else {
                Seq::empty()
            };
            let cost = if m.input_tokens is Some && m.output_tokens is Some {
                "  "@ + tokens(m.input_tokens->Some_0 as nat) + "in/"@ + tokens(m.output_tokens->Some_0 as nat)
                    + "out"@
            } else {
                Seq::empty()
            };
            let n = lines(m.content_preview@).len();
            &&& after.len() == before.len() + 2 + n
            &&& after.take(before.len() as int) == before
            &&& line_text(after[before.len() as int]) == who + ("󰥔 "@ + time) + model + tools + cost
            &&& line_text(after[before.len() + 1 + k]) == "  "@ + lines(m.content_preview@)[k]
            &&& line_text(after.last()) == Seq::<char>::empty()
        }),
{
    broadcast use {crate::style::joined_line_text, crate::style::span_line_text, crate::style::blank_line_text};

    let n = a.recent_messages@.len() as int;
    lemma_messages_before(a.recent_messages@, b.recent_messages@, times, times.push(time), n);
    let before = popup_content(a, started, times, width);
    let after = popup_content(b, started, times.push(time), width);
    let added = message_rows(m, time);
    assert(after =~= before + added);
    let text = lines(m.content_preview@);
    let rows = content_rows(text);
    assert(rows[k] == ln("  "@, plain()) + ln(text[k], fg(Color::Rgb(200, 200, 210))));
    assert(after[before.len() as int] == added[0]);
    assert(after[before.len() + 1 + k] == added[1 + k]);
    assert(added[1 + k] == rows[k]);
    assert(after.take(before.len() as int) =~= before);
}

/// The title names the project and the process.
pub proof fn popup_titles_tell_the_process(s: SessionInfo)
    ensures
        popup_title(s) == " "@ + s.project_name@ + " (PID "@ + dec(s.pid as nat) + ") "@,
{
}

} // verus!
