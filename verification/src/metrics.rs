//! The metrics report: what was spent on what, with bars, and the rows of the
//! sessions that can be opened from it.

use crate::common::{model_name, short_model};
use crate::geometry::Rect;
use crate::models::{first_line_truncated, short_line, short_sid, short_sid_of};
use crate::ordering::{as_ints, descending, descending_of, descending_sorts};
use crate::palette::{dot_idle, faint_text};
use crate::parts::{contains, holds};
use crate::rounding::{
    format_tokens, one_decimal, ratio_rounded, ratio_tenths, round_ratio, tenths_ratio, tokens,
};
use crate::style::{blank, fg, line_text, ln, no_lines, plain, Color, Line, Lines, SpanView, Style};
use crate::text::{
    at_least, at_most, cat2, cat3, cat4, cat5, cat6, cat7, dec, fill, left, minus, right, text_count, text_dec,
    text_fill, text_left, text_right,
};
use vstd::prelude::*;
use vstd::utf8::encode_utf8;

verus! {

broadcast use vstd::string::group_string_axioms;

// ---------------------------------------------------------------------------
// The analysis
// ---------------------------------------------------------------------------

#[derive(Debug)]
pub struct TokenTotals {
    pub input: u64,
    pub output: u64,
    pub cache_read: u64,
    pub cache_creation: u64,
}

/// What one model cost. `rank` orders models as their costs do; `bar` is the
/// length of the bar that stands for the cost.
#[derive(Debug)]
pub struct ModelStats {
    pub name: String,
    /// What the name begins with.
    pub vendor: String,
    pub cost: String,
    pub rank: u64,
    pub bar: usize,
    /// The share of the total cost in percent, with one decimal.
    pub share: String,
    pub messages: u64,
}

#[derive(Debug)]
pub struct ProjectStats {
    pub name: String,
    pub cost: String,
    pub bar: usize,
    pub sessions: u64,
    pub messages: u64,
}

/// How often a tool, a command or a server was called, and in how many
/// sessions.
#[derive(Debug)]
pub struct ToolStats {
    pub name: String,
    pub count: u64,
    pub sessions: u64,
}

#[derive(Debug)]
pub struct InterruptedSession {
    pub session_id: String,
    pub wasted_cost: String,
    pub orphan_count: u64,
    pub last_tool_name: String,
    pub project: String,
}

#[derive(Debug)]
pub struct Interruptions {
    pub total_wasted_cost: String,
    pub total_interrupted_turns: u64,
    pub sessions_affected: u64,
    pub by_session: Vec<InterruptedSession>,
}

#[derive(Debug)]
pub struct PeakFinding {
    pub session_id: String,
    pub peak_ctx_tokens: u64,
    pub total_cost: String,
    pub peak_turn_index: u64,
    pub assistant_turns: u64,
    pub project: String,
}

#[derive(Debug)]
pub struct SpikeFinding {
    pub session_id: String,
    /// The score with one decimal.
    pub score: String,
    pub total_cost: String,
    pub peak_delta_tokens: u64,
    pub peak_turn_index: u64,
    pub assistant_turns: u64,
    pub project: String,
}

#[derive(Debug)]
pub struct ContextGrowth {
    pub sessions_scored: u64,
    pub anomalous_cost: String,
    pub findings: Vec<SpikeFinding>,
}

#[derive(Debug)]
pub struct SessionSummary {
    pub session_id: String,
    pub is_subagent: bool,
    pub cost: String,
    pub total_tokens: u64,
    pub model: String,
    /// What the name of the model begins with.
    pub vendor: String,
    pub project: String,
}

/// The spending of the last thirty days: for each day the height of its block
/// from 0 to 7, or none where nothing was spent.
#[derive(Debug)]
pub struct DailySpending {
    pub levels: Vec<Option<u8>>,
    pub last_7: String,
    pub last_30: String,
    pub peak_day: String,
}

/// Everything that the report shows. Costs are amounts as they are printed.
#[derive(Debug)]
pub struct MetricsAnalysis {
    pub total_cost: String,
    pub total_sessions: u64,
    pub total_messages: u64,
    /// The share of cached input in percent, without decimals.
    pub cache_hit: String,
    pub total_tokens: TokenTotals,
    pub by_model: Vec<ModelStats>,
    pub daily: DailySpending,
    pub top_projects: Vec<ProjectStats>,
    pub by_tool: Vec<ToolStats>,
    pub by_shell: Vec<ToolStats>,
    pub by_mcp: Vec<ToolStats>,
    pub interruptions: Interruptions,
    pub peak_context: Vec<PeakFinding>,
    pub context_growth: ContextGrowth,
    pub top_sessions: Vec<SessionSummary>,
}

impl MetricsAnalysis {
    /// The call counts of each chart have a sum.
    pub open spec fn ok(self) -> bool {
        &&& calls(counts(self.by_tool@)) <= u64::MAX
        &&& calls(counts(self.by_shell@)) <= u64::MAX
        &&& calls(counts(self.by_mcp@)) <= u64::MAX
    }
}

// ---------------------------------------------------------------------------
// Styles and small parts
// ---------------------------------------------------------------------------

/// The style of secondary text.
#[verifier::allow_in_spec]
pub fn dim() -> Style
    returns
        fg(Color::DarkGray),
{
    fg(Color::DarkGray)
}

/// The style of labels.
#[verifier::allow_in_spec]
pub fn label() -> Style
    returns
        fg(dot_idle()),
{
    fg(dot_idle())
}

/// The style of values.
#[verifier::allow_in_spec]
pub fn val() -> Style
    returns
        fg(Color::White).bold(),
{
    fg(Color::White).bold()
}

/// The style of values, in another colour.
#[verifier::allow_in_spec]
pub fn val_in(c: Color) -> Style
    returns
        fg(c).bold(),
{
    fg(c).bold()
}

pub open spec fn section(title: Seq<char>) -> Seq<SpanView> {
    ln("▎ "@, fg(Color::Rgb(120, 140, 180))) + ln(title, fg(Color::White).bold())
}

pub fn section_header(title: &str) -> (r: Line)
    ensures
        r@ == section(title@),
{
    let mut l = Line::of("▎ ", fg(Color::Rgb(120, 140, 180)));
    l.put(title, fg(Color::White).bold());
    l
}

/// The colour of a model's family.
pub open spec fn family_color(vendor: Seq<char>, model: Seq<char>) -> Color {
    let s = model_name(vendor, model);
    if holds(s, "opus"@) {
        Color::Rgb(220, 150, 220)
    } else if holds(s, "sonnet"@) {
        Color::Rgb(150, 200, 240)
    } else if holds(s, "haiku"@) {
        Color::Rgb(160, 220, 180)
    } else {
        Color::Rgb(180, 180, 180)
    }
}

pub fn model_color(vendor: &str, model: &str) -> (r: Color)
    ensures
        r == family_color(vendor@, model@),
{
    let s = short_model(vendor, model);
    if contains(&s, "opus") {
        Color::Rgb(220, 150, 220)
    } else if contains(&s, "sonnet") {
        Color::Rgb(150, 200, 240)
    } else if contains(&s, "haiku") {
        Color::Rgb(160, 220, 180)
    } else {
        Color::Rgb(180, 180, 180)
    }
}

/// The 32-bit FNV-1a hash of bytes.
pub open spec fn fnv(bytes: Seq<u8>) -> u32
    decreases bytes.len(),
{
    if bytes.len() == 0 {
        0x811c_9dc5
    } else {
        (fnv(bytes.drop_last()) ^ bytes.last() as u32).wrapping_mul(0x0100_0193)
    }
}

/// One of eight colours.
pub open spec fn chart_color(i: int) -> Color {
    if i == 0 {
        Color::Rgb(120, 200, 240)
    } else if i == 1 {
        Color::Rgb(240, 180, 120)
    } else if i == 2 {
        Color::Rgb(160, 220, 160)
    } else if i == 3 {
        Color::Rgb(220, 160, 200)
    } else if i == 4 {
        Color::Rgb(200, 180, 240)
    } else if i == 5 {
        Color::Rgb(240, 220, 140)
    } else if i == 6 {
        Color::Rgb(140, 220, 220)
    } else {
        Color::Rgb(220, 160, 140)
    }
}

/// The colour of a tool, which depends on its name alone.
pub open spec fn name_color(name: Seq<char>) -> Color {
    chart_color(fnv(encode_utf8(name)) as int % 8)
}

pub fn tool_color(name: &str) -> (r: Color)
    ensures
        r == name_color(name@),
{
    let bytes = name.as_bytes();
    let mut h: u32 = 0x811c_9dc5;
    let mut i: usize = 0;
    while i < bytes.len()
        invariant
            i <= bytes@.len(),
            h == fnv(bytes@.take(i as int)),
        decreases bytes@.len() - i,
    {
        let b: u8 = bytes[i];
        h = (h ^ b as u32).wrapping_mul(0x0100_0193);
        i += 1;
        assert(bytes@.take(i as int).drop_last() =~= bytes@.take(i - 1));
        assert(bytes@.take(i as int).last() == b);
    }
    assert(bytes@.take(i as int) =~= bytes@);
    let k: u32 = h % 8;
    if k == 0 {
        Color::Rgb(120, 200, 240)
    } else if k == 1 {
        Color::Rgb(240, 180, 120)
    } else if k == 2 {
        Color::Rgb(160, 220, 160)
    } else if k == 3 {
        Color::Rgb(220, 160, 200)
    } else if k == 4 {
        Color::Rgb(200, 180, 240)
    } else if k == 5 {
        Color::Rgb(240, 220, 140)
    } else if k == 6 {
        Color::Rgb(140, 220, 220)
    } else {
        Color::Rgb(220, 160, 140)
    }
}

/// What stands before the id of a session's row.
pub open spec fn row_marker(selected: bool) -> Seq<char> {
    if selected {
        "  ▸ "@
    } else {
        "    "@
    }
}

#[verifier::allow_in_spec]
pub fn row_style(selected: bool) -> Style
    returns
        (if selected {
            fg(Color::Black).on(Color::Cyan).bold()
        } else {
            fg(Color::Cyan)
        }),
{
    if selected {
        fg(Color::Black).on(Color::Cyan).bold()
    } else {
        fg(Color::Cyan)
    }
}

pub fn selection_row_style(selected: bool) -> (r: (String, Style))
    ensures
        r.0@ == row_marker(selected),
        r.1 == row_style(selected),
{
    let marker = if selected {
        "  ▸ "
    } else {
        "    "
    };
    (marker.to_owned(), row_style(selected))
}

/// A bar of `n` columns.
pub open spec fn solid(n: int) -> Seq<char> {
    fill('━', n)
}

// ---------------------------------------------------------------------------
// Overview, breakdown, models, days, projects
// ---------------------------------------------------------------------------

pub open spec fn overview(m: MetricsAnalysis) -> Seq<Seq<SpanView>> {
    seq![section("Overview"@)] + seq![
        ln("  Total cost   "@, label()) + ln(m.total_cost@, val_in(Color::Green)) + ln(
            "    Sessions "@,
            label(),
        ) + ln(dec(m.total_sessions as nat), val()) + ln("    Messages "@, label()) + ln(
            dec(m.total_messages as nat),
            val(),
        ) + ln("    Cache hit "@, label()) + ln(m.cache_hit@ + "%"@, val()),
    ] + seq![
        ln("  Tokens      "@, label()) + ln(
            tokens(m.total_tokens.input as nat) + " in / "@ + tokens(m.total_tokens.output as nat)
                + " out / "@ + tokens(m.total_tokens.cache_read as nat) + " cache_r / "@ + (tokens(
                m.total_tokens.cache_creation as nat,
            ) + " cache_w"@),
            val(),
        ),
    ] + seq![blank()]
}

fn build_overview(m: &MetricsAnalysis) -> (r: Lines)
    ensures
        r@ == overview(*m),
{
    let mut lines = Lines::of(section_header("Overview"));
    let mut l = Line::of("  Total cost   ", label());
    l.put(&m.total_cost, val_in(Color::Green));
    l.put("    Sessions ", label());
    l.put(&text_dec(m.total_sessions), val());
    l.put("    Messages ", label());
    l.put(&text_dec(m.total_messages), val());
    l.put("    Cache hit ", label());
    l.put(&cat2(&m.cache_hit, "%"), val());
    lines.put(l);
    let mut l = Line::of("  Tokens      ", label());
    let tail = cat2(&format_tokens(m.total_tokens.cache_creation), " cache_w");
    let t = cat7(
        &format_tokens(m.total_tokens.input),
        " in / ",
        &format_tokens(m.total_tokens.output),
        " out / ",
        &format_tokens(m.total_tokens.cache_read),
        " cache_r / ",
        &tail,
    );
    l.put(&t, val());
    lines.put(l);
    lines.put(Line::empty());
    lines
}

/// The largest of the four token totals, at least one.
pub open spec fn most_tokens(t: TokenTotals) -> int {
    at_least(
        at_least(at_least(at_least(t.input as int, t.output as int), t.cache_read as int), t.cache_creation as int),
        1,
    )
}

pub open spec fn breakdown_row(name: Seq<char>, toks: u64, most: int, c: Color) -> Seq<SpanView> {
    ln("  "@ + name, label()) + ln(solid(ratio_rounded(toks as nat, most as nat, 30)), fg(c)) + ln(
        " "@,
        plain(),
    ) + ln(tokens(toks as nat), dim())
}

fn build_breakdown_row(name: &str, toks: u64, most: u64, c: Color) -> (r: Line)
    requires
        most > 0,
        toks <= most,
    ensures
        r@ == breakdown_row(name@, toks, most as int, c),
{
    let w: u128 = round_ratio(toks, most, 30);
    proof {
        crate::rounding::ratio_of_part(toks as nat, most as nat, 30);
    }
    let mut l = Line::of(&cat2("  ", name), label());
    l.put(&text_fill('━', w as usize), fg(c));
    l.put(" ", plain());
    l.put(&format_tokens(toks), dim());
    l
}

pub open spec fn breakdown(t: TokenTotals) -> Seq<Seq<SpanView>> {
    let most = most_tokens(t);
    seq![section("Cost breakdown"@)] + seq![
        breakdown_row("input        "@, t.input, most, Color::Rgb(120, 200, 240)),
    ] + seq![breakdown_row("output       "@, t.output, most, Color::Rgb(240, 180, 120))] + seq![
        breakdown_row("cache read   "@, t.cache_read, most, Color::Rgb(160, 220, 160)),
    ] + seq![breakdown_row("cache create "@, t.cache_creation, most, Color::Rgb(220, 160, 200))]
        + seq![blank()]
}

fn larger(a: u64, b: u64) -> (r: u64)
    ensures
        r == at_least(a as int, b as int),
{
    if a >= b {
        a
    } else {
        b
    }
}

fn build_breakdown(t: &TokenTotals) -> (r: Lines)
    ensures
        r@ == breakdown(*t),
{
    let most: u64 = larger(larger(larger(larger(t.input, t.output), t.cache_read), t.cache_creation), 1);
    let mut lines = Lines::of(section_header("Cost breakdown"));
    lines.put(build_breakdown_row("input        ", t.input, most, Color::Rgb(120, 200, 240)));
    lines.put(build_breakdown_row("output       ", t.output, most, Color::Rgb(240, 180, 120)));
    lines.put(build_breakdown_row("cache read   ", t.cache_read, most, Color::Rgb(160, 220, 160)));
    lines.put(build_breakdown_row("cache create ", t.cache_creation, most, Color::Rgb(220, 160, 200)));
    lines.put(Line::empty());
    lines
}

pub open spec fn model_row(s: ModelStats) -> Seq<SpanView> {
    ln("  "@ + left(short_line(model_name(s.vendor@, s.name@), 22), 22), label()) + ln(
        solid(s.bar as int),
        fg(family_color(s.vendor@, s.name@)),
    ) + ln(" "@, plain()) + ln(s.cost@, val()) + ln(" "@ + right(s.share@, 4) + "%"@, dim()) + ln(
        "  "@ + dec(s.messages as nat) + " msgs"@,
        dim(),
    )
}

fn build_model_row(s: &ModelStats) -> (r: Line)
    ensures
        r@ == model_row(*s),
{
    let name = first_line_truncated(&short_model(&s.vendor, &s.name), 22);
    let mut l = Line::of(&cat2("  ", &text_left(&name, 22)), label());
    l.put(&text_fill('━', s.bar), fg(model_color(&s.vendor, &s.name)));
    l.put(" ", plain());
    l.put(&s.cost, val());
    l.put(&cat3(" ", &text_right(&s.share, 4), "%"), dim());
    l.put(&cat3("  ", &text_dec(s.messages), " msgs"), dim());
    l
}

/// The ranks of models.
pub open spec fn ranks(models: Seq<ModelStats>) -> Seq<u64> {
    models.map_values(|s: ModelStats| s.rank)
}

/// The eight models that cost most, the dearest first.
pub open spec fn models_section(models: Seq<ModelStats>) -> Seq<Seq<SpanView>> {
    seq![section("Cost by model"@)] + Seq::new(
        at_most(models.len() as int, 8) as nat,
        |k: int| model_row(models[descending(ranks(models))[k]]),
    ) + seq![blank()]
}

fn build_models(models: &Vec<ModelStats>) -> (r: Lines)
    ensures
        r@ == models_section(models@),
{
    let mut lines = Lines::of(section_header("Cost by model"));
    let mut keys: Vec<u64> = Vec::new();
    let mut i: usize = 0;
    while i < models.len()
        invariant
            i <= models@.len(),
            keys@ == ranks(models@.take(i as int)),
        decreases models@.len() - i,
    {
        keys.push(models[i].rank);
        i += 1;
        assert(keys@ =~= ranks(models@.take(i as int)));
    }
    assert(models@.take(i as int) =~= models@);
    let order = descending_of(&keys);
    let n: usize = if models.len() < 8 {
        models.len()
    } else {
        8
    };
    let ghost row = |k: int| model_row(models@[descending(ranks(models@))[k]]);
    let ghost head = lines@;
    let mut k: usize = 0;
    assert(lines@ =~= head + Seq::new(0, row));
    while k < n
        invariant
            k <= n <= order@.len(),
            n <= models@.len(),
            as_ints(order@) == descending(ranks(models@)),
            order@.len() == models@.len(),
            forall|j: int| 0 <= j < order@.len() ==> (#[trigger] order@[j]) < models@.len(),
            row == (|k: int| model_row(models@[descending(ranks(models@))[k]])),
            lines@ == head + Seq::new(k as nat, row),
        decreases n - k,
    {
        let j: usize = order[k];
        assert(as_ints(order@)[k as int] == j);
        lines.put(build_model_row(&models[j]));
        k += 1;
        assert(lines@ =~= head + Seq::new(k as nat, row));
    }
    lines.put(Line::empty());
    lines
}

/// The block that stands for a day.
pub open spec fn day_block(level: Option<u8>) -> char {
    match level {
        None => ' ',
        Some(n) => if n == 0 {
            '▁'
        } else if n == 1 {
            '▂'
        } else if n == 2 {
            '▃'
        } else if n == 3 {
            '▄'
        } else if n == 4 {
            '▅'
        } else if n == 5 {
            '▆'
        } else if n == 6 {
            '▇'
        } else {
            '█'
        },
    }
}

pub open spec fn spark(levels: Seq<Option<u8>>) -> Seq<char> {
    levels.map_values(|l: Option<u8>| day_block(l))
}

fn build_spark(levels: &Vec<Option<u8>>) -> (r: String)
    ensures
        r@ == spark(levels@),
{
    let mut s = String::new();
    let mut i: usize = 0;
    while i < levels.len()
        invariant
            i <= levels@.len(),
            s@ == spark(levels@.take(i as int)),
        decreases levels@.len() - i,
    {
        let c: char = match levels[i] {
            None => ' ',
            Some(n) => if n == 0 {
                '▁'
            } else if n == 1 {
                '▂'
            } else if n == 2 {
                '▃'
            } else if n == 3 {
                '▄'
            } else if n == 4 {
                '▅'
            } else if n == 5 {
                '▆'
            } else if n == 6 {
                '▇'
            } else {
                '█'
            },
        };
        s.push(c);
        i += 1;
        assert(s@ =~= spark(levels@.take(i as int)));
    }
    assert(levels@.take(i as int) =~= levels@);
    s
}

pub open spec fn daily_section(d: DailySpending) -> Seq<Seq<SpanView>> {
    seq![section("Daily spending (last 30 days)"@)] + seq![
        ln("  "@, dim()) + ln(spark(d.levels@), fg(Color::Rgb(150, 200, 240))),
    ] + seq![
        ln("  last 7d "@, label()) + ln(d.last_7@, val()) + ln("    last 30d "@, label()) + ln(
            d.last_30@,
            val(),
        ) + ln("    peak day "@, label()) + ln(d.peak_day@, val()),
    ] + seq![blank()]
}

fn build_daily(d: &DailySpending) -> (r: Lines)
    ensures
        r@ == daily_section(*d),
{
    let mut lines = Lines::of(section_header("Daily spending (last 30 days)"));
    let mut l = Line::of("  ", dim());
    l.put(&build_spark(&d.levels), fg(Color::Rgb(150, 200, 240)));
    lines.put(l);
    let mut l = Line::of("  last 7d ", label());
    l.put(&d.last_7, val());
    l.put("    last 30d ", label());
    l.put(&d.last_30, val());
    l.put("    peak day ", label());
    l.put(&d.peak_day, val());
    lines.put(l);
    lines.put(Line::empty());
    lines
}

pub open spec fn project_row(s: ProjectStats) -> Seq<SpanView> {
    ln("  "@ + left(short_line(s.name@, 26), 26), label()) + ln(
        solid(s.bar as int),
        fg(Color::Rgb(120, 180, 220)),
    ) + ln(" "@, plain()) + ln(s.cost@, val()) + ln("  "@ + dec(s.sessions as nat) + " sess"@, dim())
        + ln("  "@ + dec(s.messages as nat) + " msgs"@, dim())
}

fn build_project_row(s: &ProjectStats) -> (r: Line)
    ensures
        r@ == project_row(*s),
{
    let mut l = Line::of(&cat2("  ", &text_left(&first_line_truncated(&s.name, 26), 26)), label());
    l.put(&text_fill('━', s.bar), fg(Color::Rgb(120, 180, 220)));
    l.put(" ", plain());
    l.put(&s.cost, val());
    l.put(&cat3("  ", &text_dec(s.sessions), " sess"), dim());
    l.put(&cat3("  ", &text_dec(s.messages), " msgs"), dim());
    l
}

pub open spec fn projects_section(projects: Seq<ProjectStats>) -> Seq<Seq<SpanView>> {
    seq![section("Top projects"@)] + projects.map_values(|s: ProjectStats| project_row(s)) + seq![blank()]
}

fn build_projects(projects: &Vec<ProjectStats>) -> (r: Lines)
    ensures
        r@ == projects_section(projects@),
{
    let mut lines = Lines::of(section_header("Top projects"));
    let ghost head = lines@;
    let ghost rows = projects@.map_values(|s: ProjectStats| project_row(s));
    let mut i: usize = 0;
    assert(lines@ =~= head + rows.take(0));
    while i < projects.len()
        invariant
            i <= projects@.len(),
            rows == projects@.map_values(|s: ProjectStats| project_row(s)),
            lines@ == head + rows.take(i as int),
        decreases projects@.len() - i,
    {
        lines.put(build_project_row(&projects[i]));
        i += 1;
        assert(lines@ =~= head + rows.take(i as int));
    }
    assert(rows.take(i as int) =~= rows);
    lines.put(Line::empty());
    lines
}

// ---------------------------------------------------------------------------
// Charts of calls
// ---------------------------------------------------------------------------

pub const TOOLS_DISPLAY_LIMIT: usize = 15;

/// The call counts of tools.
pub open spec fn counts(stats: Seq<ToolStats>) -> Seq<u64> {
    stats.map_values(|s: ToolStats| s.count)
}

/// The sum of call counts.
pub open spec fn calls(c: Seq<u64>) -> int
    decreases c.len(),
{
    if c.len() == 0 {
        0
    } else {
        calls(c.drop_last()) + c.last()
    }
}

/// The largest call count, at least one.
pub open spec fn most_calls(stats: Seq<ToolStats>) -> int {
    if stats.len() == 0 {
        1
    } else {
        at_least(stats[descending(counts(stats))[0]].count as int, 1)
    }
}

/// The share of all calls in percent, in tenths.
pub open spec fn call_share(count: u64, total: int) -> int {
    if total > 0 {
        ratio_tenths(count as nat, total as nat, 100)
    } else {
        0
    }
}

pub open spec fn tool_row(s: ToolStats, most: int, total: int) -> Seq<SpanView> {
    ln("  "@ + left(short_line(s.name@, 22), 22), label()) + ln(
        solid(ratio_rounded(s.count as nat, most as nat, 24)),
        fg(name_color(s.name@)),
    ) + ln(" "@, plain()) + ln(right(dec(s.count as nat), 6) + " calls"@, val()) + ln(
        "  "@ + right(one_decimal(call_share(s.count, total)), 4) + "%"@,
        dim(),
    ) + ln("  "@ + dec(s.sessions as nat) + " sess"@, dim())
}

fn build_tool_row(s: &ToolStats, most: u64, total: u64) -> (r: Line)
    requires
        most > 0,
        s.count <= most,
    ensures
        r@ == tool_row(*s, most as int, total as int),
{
    let w: u128 = round_ratio(s.count, most, 24);
    proof {
        crate::rounding::ratio_of_part(s.count as nat, most as nat, 24);
    }
    let t: u128 = if total > 0 {
        tenths_ratio(s.count, total, 100)
    } else {
        0
    };
    let share = tenths_text(t);
    let mut l = Line::of(&cat2("  ", &text_left(&first_line_truncated(&s.name, 22), 22)), label());
    l.put(&text_fill('━', w as usize), fg(tool_color(&s.name)));
    l.put(" ", plain());
    l.put(&cat2(&text_right(&text_dec(s.count), 6), " calls"), val());
    l.put(&cat3("  ", &text_right(&share, 4), "%"), dim());
    l.put(&cat3("  ", &text_dec(s.sessions), " sess"), dim());
    l
}

fn tenths_text(t: u128) -> (r: String)
    ensures
        r@ == one_decimal(t as int),
{
    cat3(&crate::text::text_dec_wide(t / 10), ".", &text_dec((t % 10) as u64))
}

/// What a chart holds below its header.
pub open spec fn chart_rows(
    stats: Seq<ToolStats>,
    empty_noun: Seq<char>,
    overflow_noun: Seq<char>,
) -> Seq<Seq<SpanView>> {
    if stats.len() == 0 {
        seq![ln("  (no "@ + empty_noun + " recorded)"@, dim())]
    } else {
        Seq::new(
            at_most(stats.len() as int, TOOLS_DISPLAY_LIMIT as int) as nat,
            |k: int|
                tool_row(
                    stats[descending(counts(stats))[k]],
                    most_calls(stats),
                    calls(counts(stats)),
                ),
        ) + if stats.len() > TOOLS_DISPLAY_LIMIT {
            seq![
                ln(
                    "  … "@ + dec((stats.len() - TOOLS_DISPLAY_LIMIT) as nat) + " more "@ + overflow_noun,
                    dim(),
                ),
            ]
        } else {
            no_lines()
        }
    }
}

/// The most called tools, the most called first, with how often each was
/// called, its share of all calls and the number of sessions.
pub open spec fn chart(
    header: Seq<char>,
    empty_noun: Seq<char>,
    overflow_noun: Seq<char>,
    stats: Seq<ToolStats>,
) -> Seq<Seq<SpanView>> {
    seq![section(header)] + chart_rows(stats, empty_noun, overflow_noun) + seq![blank()]
}

fn count_calls(stats: &Vec<ToolStats>) -> (r: (Vec<u64>, u64))
    requires
        calls(counts(stats@)) <= u64::MAX,
    ensures
        r.0@ == counts(stats@),
        r.1 == calls(counts(stats@)),
{
    let mut keys: Vec<u64> = Vec::new();
    let mut total: u64 = 0;
    let mut i: usize = 0;
    while i < stats.len()
        invariant
            i <= stats@.len(),
            keys@ == counts(stats@.take(i as int)),
            total == calls(keys@),
            calls(counts(stats@)) <= u64::MAX,
        decreases stats@.len() - i,
    {
        let ghost before = keys@;
        let c: u64 = stats[i].count;
        keys.push(c);
        assert(keys@.drop_last() =~= before);
        assert(keys@ =~= counts(stats@.take(i + 1)));
        proof {
            lemma_calls_grow(counts(stats@), i + 1);
            assert(counts(stats@).take(i + 1) =~= keys@);
        }
        total = total + c;
        i += 1;
    }
    assert(stats@.take(i as int) =~= stats@);
    (keys, total)
}

proof fn lemma_calls_grow(c: Seq<u64>, n: int)
    requires
        0 <= n <= c.len(),
    ensures
        calls(c.take(n)) <= calls(c),
    decreases c.len() - n,
{
    if n == c.len() {
        assert(c.take(n) =~= c);
    } else {
        lemma_calls_grow(c, n + 1);
        assert(c.take(n + 1).drop_last() =~= c.take(n));
    }
}

/// Puts a chart of calls below the other lines.
pub fn render_bar_chart_section(
    lines: &mut Lines,
    header: &str,
    empty_noun: &str,
    overflow_noun: &str,
    stats: &Vec<ToolStats>,
)
    requires
        calls(counts(stats@)) <= u64::MAX,
    ensures
        final(lines)@ == old(lines)@ + chart(header@, empty_noun@, overflow_noun@, stats@),
{
    let ghost start = lines@;
    lines.put(section_header(header));
    let (keys, total) = count_calls(stats);
    if stats.len() == 0 {
        lines.put(Line::of(&cat3("  (no ", empty_noun, " recorded)"), dim()));
    } else {
        let order = descending_of(&keys);
        proof {
            descending_sorts(keys@);
        }
        assert(as_ints(order@)[0] == order@[0]);
        let first: u64 = stats[order[0]].count;
        let most: u64 = larger(first, 1);
        let n: usize = if stats.len() < TOOLS_DISPLAY_LIMIT {
            stats.len()
        } else {
            TOOLS_DISPLAY_LIMIT
        };
        let ghost head = lines@;
        let ghost row = |k: int|
            tool_row(stats@[descending(counts(stats@))[k]], most_calls(stats@), calls(counts(stats@)));
        let mut k: usize = 0;
        assert(lines@ =~= head + Seq::new(0, row));
        while k < n
            invariant
                k <= n <= stats@.len(),
                order@.len() == stats@.len(),
                keys@ == counts(stats@),
                as_ints(order@) == descending(keys@),
                forall|j: int| 0 <= j < order@.len() ==> (#[trigger] order@[j]) < stats@.len(),
                forall|j: int, k: int|
                    0 <= j < k < keys@.len() ==> crate::ordering::precedes(
                        keys@,
                        #[trigger] descending(keys@)[j],
                        #[trigger] descending(keys@)[k],
                    ),
                most == most_calls(stats@),
                most >= stats@[descending(keys@)[0]].count,
                most >= 1,
                total == calls(counts(stats@)),
                row == (|k: int|
                    tool_row(
                        stats@[descending(counts(stats@))[k]],
                        most_calls(stats@),
                        calls(counts(stats@)),
                    )),
                lines@ == head + Seq::new(k as nat, row),
            decreases n - k,
        {
            let j: usize = order[k];
            assert(as_ints(order@)[k as int] == j);
            assert(as_ints(order@)[0] == order@[0]);
            assert(stats@[j as int].count <= most) by {
                assert(keys@[j as int] == stats@[j as int].count);
                assert(keys@[order@[0] as int] == stats@[order@[0] as int].count);
                if k > 0 {
                    assert(crate::ordering::precedes(
                        keys@,
                        descending(keys@)[0],
                        descending(keys@)[k as int],
                    ));
                }
            }
            lines.put(build_tool_row(&stats[j], most, total));
            k += 1;
            assert(lines@ =~= head + Seq::new(k as nat, row));
        }
        if stats.len() > TOOLS_DISPLAY_LIMIT {
            lines.put(
                Line::of(
                    &cat4("  … ", &text_count(stats.len() - TOOLS_DISPLAY_LIMIT), " more ", overflow_noun),
                    dim(),
                ),
            );
        }
    }
    lines.put(Line::empty());
    assert(lines@ =~= start + chart(header@, empty_noun@, overflow_noun@, stats@));
}

// ---------------------------------------------------------------------------
// Session rows
// ---------------------------------------------------------------------------

/// Whether row `k` of a section is the selected one, given which row of the
/// section is selected.
pub open spec fn is_row(selected: Option<usize>, k: int) -> bool {
    selected matches Some(i) && i == k
}

/// The selection of the sections behind one of `n` rows.
pub open spec fn past(selected: Option<usize>, n: int) -> Option<usize> {
    match selected {
        Some(i) => if i >= n {
            Some((i - n) as usize)
        } else {
            None
        },
        None => None,
    }
}

fn past_rows(selected: Option<usize>, n: usize) -> (r: Option<usize>)
    ensures
        r == past(selected, n as int),
{
    match selected {
        Some(i) => if i >= n {
            Some(i - n)
        } else {
            None
        },
        None => None,
    }
}

fn is_selected(selected: Option<usize>, k: usize) -> (r: bool)
    ensures
        r == is_row(selected, k as int),
{
    match selected {
        Some(i) => i == k,
        None => false,
    }
}

pub open spec fn id_span(id: Seq<char>, selected: bool) -> Seq<SpanView> {
    ln(row_marker(selected) + left(short_sid(id), 10), row_style(selected))
}

fn build_id(id: &str, selected: bool) -> (r: Line)
    ensures
        r@ == id_span(id@, selected),
{
    let (marker, style) = selection_row_style(selected);
    Line::of(&cat2(&marker, &text_left(&short_sid_of(id), 10)), style)
}

pub open spec fn interrupted_row(e: InterruptedSession, selected: bool) -> Seq<SpanView> {
    id_span(e.session_id@, selected) + ln(
        right(e.wasted_cost@, 8),
        val_in(Color::Rgb(220, 140, 140)),
    ) + ln("  "@ + right(dec(e.orphan_count as nat), 3) + " orphan"@, dim()) + ln("  "@, plain()) + ln(
        left(short_line(e.last_tool_name@, 18), 18),
        fg(faint_text()),
    ) + ln(left(short_line(e.project@, 24), 24), fg(faint_text()))
}

fn build_interrupted_row(e: &InterruptedSession, selected: bool) -> (r: Line)
    ensures
        r@ == interrupted_row(*e, selected),
{
    let mut l = build_id(&e.session_id, selected);
    l.put(&text_right(&e.wasted_cost, 8), val_in(Color::Rgb(220, 140, 140)));
    l.put(&cat3("  ", &text_right(&text_dec(e.orphan_count), 3), " orphan"), dim());
    l.put("  ", plain());
    l.put(&text_left(&first_line_truncated(&e.last_tool_name, 18), 18), fg(faint_text()));
    l.put(&text_left(&first_line_truncated(&e.project, 24), 24), fg(faint_text()));
    l
}

pub open spec fn interrupted_rows(
    es: Seq<InterruptedSession>,
    selected: Option<usize>,
) -> Seq<Seq<SpanView>> {
    Seq::new(es.len(), |k: int| interrupted_row(es[k], is_row(selected, k)))
}

fn build_interrupted_rows(es: &Vec<InterruptedSession>, selected: Option<usize>) -> (r: Lines)
    ensures
        r@ == interrupted_rows(es@, selected),
{
    let mut lines = Lines::none();
    let ghost rows = interrupted_rows(es@, selected);
    let mut k: usize = 0;
    assert(lines@ =~= rows.take(0));
    while k < es.len()
        invariant
            k <= es@.len(),
            rows == interrupted_rows(es@, selected),
            lines@ == rows.take(k as int),
        decreases es@.len() - k,
    {
        lines.put(build_interrupted_row(&es[k], is_selected(selected, k)));
        k += 1;
        assert(lines@ =~= rows.take(k as int));
    }
    assert(rows.take(k as int) =~= rows);
    lines
}

pub open spec fn peak_row(f: PeakFinding, selected: bool) -> Seq<SpanView> {
    id_span(f.session_id@, selected) + ln(
        right(tokens(f.peak_ctx_tokens as nat), 8) + " ctx"@,
        val_in(Color::Rgb(220, 180, 130)),
    ) + ln("  "@ + right(f.total_cost@, 8), val_in(Color::Green)) + ln(
        "  @ turn "@ + dec(f.peak_turn_index as nat) + "/"@ + dec(f.assistant_turns as nat),
        dim(),
    ) + ln("  "@, plain()) + ln(left(short_line(f.project@, 24), 24), fg(faint_text()))
}

fn build_peak_row(f: &PeakFinding, selected: bool) -> (r: Line)
    ensures
        r@ == peak_row(*f, selected),
{
    let mut l = build_id(&f.session_id, selected);
    l.put(
        &cat2(&text_right(&format_tokens(f.peak_ctx_tokens), 8), " ctx"),
        val_in(Color::Rgb(220, 180, 130)),
    );
    l.put(&cat2("  ", &text_right(&f.total_cost, 8)), val_in(Color::Green));
    l.put(
        &cat4("  @ turn ", &text_dec(f.peak_turn_index), "/", &text_dec(f.assistant_turns)),
        dim(),
    );
    l.put("  ", plain());
    l.put(&text_left(&first_line_truncated(&f.project, 24), 24), fg(faint_text()));
    l
}

pub open spec fn peak_rows(fs: Seq<PeakFinding>, selected: Option<usize>) -> Seq<Seq<SpanView>> {
    Seq::new(fs.len(), |k: int| peak_row(fs[k], is_row(selected, k)))
}

fn build_peak_rows(fs: &Vec<PeakFinding>, selected: Option<usize>) -> (r: Lines)
    ensures
        r@ == peak_rows(fs@, selected),
{
    let mut lines = Lines::none();
    let ghost rows = peak_rows(fs@, selected);
    let mut k: usize = 0;
    assert(lines@ =~= rows.take(0));
    while k < fs.len()
        invariant
            k <= fs@.len(),
            rows == peak_rows(fs@, selected),
            lines@ == rows.take(k as int),
        decreases fs@.len() - k,
    {
        lines.put(build_peak_row(&fs[k], is_selected(selected, k)));
        k += 1;
        assert(lines@ =~= rows.take(k as int));
    }
    assert(rows.take(k as int) =~= rows);
    lines
}

pub open spec fn spike_row(f: SpikeFinding, selected: bool) -> Seq<SpanView> {
    id_span(f.session_id@, selected) + ln(
        right(f.score@, 5) + "x"@,
        val_in(Color::Rgb(220, 180, 130)),
    ) + ln("  "@ + right(f.total_cost@, 8), val_in(Color::Green)) + ln(
        "  +"@ + right(tokens(f.peak_delta_tokens as nat), 8) + " @ turn "@ + dec(
            f.peak_turn_index as nat,
        ) + "/"@ + dec(f.assistant_turns as nat),
        dim(),
    ) + ln("  "@, plain()) + ln(left(short_line(f.project@, 24), 24), fg(faint_text()))
}

fn build_spike_row(f: &SpikeFinding, selected: bool) -> (r: Line)
    ensures
        r@ == spike_row(*f, selected),
{
    let mut l = build_id(&f.session_id, selected);
    l.put(&cat2(&text_right(&f.score, 5), "x"), val_in(Color::Rgb(220, 180, 130)));
    l.put(&cat2("  ", &text_right(&f.total_cost, 8)), val_in(Color::Green));
    l.put(
        &cat6(
            "  +",
            &text_right(&format_tokens(f.peak_delta_tokens), 8),
            " @ turn ",
            &text_dec(f.peak_turn_index),
            "/",
            &text_dec(f.assistant_turns),
        ),
        dim(),
    );
    l.put("  ", plain());
    l.put(&text_left(&first_line_truncated(&f.project, 24), 24), fg(faint_text()));
    l
}

pub open spec fn spike_rows(fs: Seq<SpikeFinding>, selected: Option<usize>) -> Seq<Seq<SpanView>> {
    Seq::new(fs.len(), |k: int| spike_row(fs[k], is_row(selected, k)))
}

fn build_spike_rows(fs: &Vec<SpikeFinding>, selected: Option<usize>) -> (r: Lines)
    ensures
        r@ == spike_rows(fs@, selected),
{
    let mut lines = Lines::none();
    let ghost rows = spike_rows(fs@, selected);
    let mut k: usize = 0;
    assert(lines@ =~= rows.take(0));
    while k < fs.len()
        invariant
            k <= fs@.len(),
            rows == spike_rows(fs@, selected),
            lines@ == rows.take(k as int),
        decreases fs@.len() - k,
    {
        lines.put(build_spike_row(&fs[k], is_selected(selected, k)));
        k += 1;
        assert(lines@ =~= rows.take(k as int));
    }
    assert(rows.take(k as int) =~= rows);
    lines
}

pub open spec fn session_row(s: SessionSummary, selected: bool) -> Seq<SpanView> {
    ln(
        (if selected {
            "▸ "@
        } else {
            "  "@
        }) + (if s.is_subagent {
            "⑂"@
        } else {
            " "@
        }) + left(short_sid(s.session_id@), 8),
        row_style(selected),
    ) + ln(" "@, plain()) + ln(right(s.cost@, 8), val_in(Color::Green)) + ln(" "@, plain()) + ln(
        right(tokens(s.total_tokens as nat), 10),
        dim(),
    ) + ln(" "@, plain()) + ln(left(short_line(model_name(s.vendor@, s.model@), 22), 22), dim()) + ln(
        " "@,
        plain(),
    ) + ln(left(short_line(s.project@, 24), 24), fg(faint_text()))
}

pub fn format_session_row(s: &SessionSummary, selected: bool) -> (r: Line)
    ensures
        r@ == session_row(*s, selected),
{
    let mark = if selected {
        "▸ "
    } else {
        "  "
    };
    let subagent = if s.is_subagent {
        "⑂"
    } else {
        " "
    };
    let id = text_left(&short_sid_of(&s.session_id), 8);
    let mut l = Line::of(&cat3(mark, subagent, &id), row_style(selected));
    l.put(" ", plain());
    l.put(&text_right(&s.cost, 8), val_in(Color::Green));
    l.put(" ", plain());
    l.put(&text_right(&format_tokens(s.total_tokens), 10), dim());
    l.put(" ", plain());
    l.put(&text_left(&first_line_truncated(&short_model(&s.vendor, &s.model), 22), 22), dim());
    l.put(" ", plain());
    l.put(&text_left(&first_line_truncated(&s.project, 24), 24), fg(faint_text()));
    l
}

pub open spec fn session_rows(ss: Seq<SessionSummary>, selected: Option<usize>) -> Seq<Seq<SpanView>> {
    Seq::new(ss.len(), |k: int| session_row(ss[k], is_row(selected, k)))
}

fn build_session_rows(ss: &Vec<SessionSummary>, selected: Option<usize>) -> (r: Lines)
    ensures
        r@ == session_rows(ss@, selected),
{
    let mut lines = Lines::none();
    let ghost rows = session_rows(ss@, selected);
    let mut k: usize = 0;
    assert(lines@ =~= rows.take(0));
    while k < ss.len()
        invariant
            k <= ss@.len(),
            rows == session_rows(ss@, selected),
            lines@ == rows.take(k as int),
        decreases ss@.len() - k,
    {
        lines.put(format_session_row(&ss[k], is_selected(selected, k)));
        k += 1;
        assert(lines@ =~= rows.take(k as int));
    }
    assert(rows.take(k as int) =~= rows);
    lines
}

// ---------------------------------------------------------------------------
// The report
// ---------------------------------------------------------------------------

/// The sections above the first session row.
pub open spec fn report_head(m: MetricsAnalysis) -> Seq<Seq<SpanView>> {
    overview(m) + breakdown(m.total_tokens) + models_section(m.by_model@) + daily_section(m.daily)
        + projects_section(m.top_projects@) + chart(
        "Tool usage"@,
        "tool calls"@,
        "tools"@,
        m.by_tool@,
    ) + chart("Shell commands"@, "shell commands"@, "commands"@, m.by_shell@) + chart(
        "MCP servers"@,
        "MCP calls"@,
        "servers"@,
        m.by_mcp@,
    )
}

/// The interrupted sessions that have rows: none where no turn was
/// interrupted.
pub open spec fn interrupted_listed(i: Interruptions) -> Seq<InterruptedSession> {
    if i.total_interrupted_turns == 0 {
        Seq::empty()
    } else {
        i.by_session@
    }
}

pub open spec fn interruptions_head(i: Interruptions) -> Seq<Seq<SpanView>> {
    seq![section("Interruptions (Esc'd mid-tool-call)"@)] + if i.total_interrupted_turns == 0 {
        seq![ln("  (none detected)"@, dim())]
    } else {
        seq![
            ln("  Wasted "@, label()) + ln(i.total_wasted_cost@, val_in(Color::Rgb(220, 140, 140)))
                + ln("    Turns "@, label()) + ln(dec(i.total_interrupted_turns as nat), val()) + ln(
                "    Sessions "@,
                label(),
            ) + ln(dec(i.sessions_affected as nat), val()),
        ]
    }
}

pub open spec fn peak_head(fs: Seq<PeakFinding>) -> Seq<Seq<SpanView>> {
    seq![blank()] + seq![section("Peak context reached"@)] + if fs.len() == 0 {
        seq![ln("  (no sessions)"@, dim())]
    } else {
        no_lines()
    }
}

pub open spec fn growth_head(g: ContextGrowth) -> Seq<Seq<SpanView>> {
    seq![blank()] + seq![section("Token spikes (outlier single-turn deltas)"@)] + seq![
        ln("  Scored "@, label()) + ln(dec(g.sessions_scored as nat), val()) + ln(
            "    Spikes "@,
            label(),
        ) + ln(dec(g.findings@.len()), val()) + ln("    Cost in flagged sessions "@, label()) + ln(
            g.anomalous_cost@,
            val_in(Color::Rgb(220, 180, 130)),
        ),
    ] + seq![
        ln(
            "  score = peak turn delta / median turn delta — flags one-shot bursts, not total growth"@,
            dim(),
        ),
    ] + if g.findings@.len() == 0 {
        seq![ln("  (no spikes)"@, dim())]
    } else {
        no_lines()
    }
}

pub open spec fn sessions_head() -> Seq<Seq<SpanView>> {
    seq![blank()] + seq![section("Top sessions"@)] + seq![
        ln(
            "  "@ + left("session"@, 10) + " "@ + right("cost"@, 8) + " "@ + right("tokens"@, 10)
                + (" "@ + left("model"@, 22) + " "@ + left("project"@, 24)),
            dim(),
        ),
    ]
}

/// What stands below `head`: the sections with session rows.
pub open spec fn below(
    head: Seq<Seq<SpanView>>,
    m: MetricsAnalysis,
    selected: Option<usize>,
) -> Seq<Seq<SpanView>> {
    let after_i = past(selected, interrupted_listed(m.interruptions).len() as int);
    let after_p = past(after_i, m.peak_context@.len() as int);
    let after_g = past(after_p, m.context_growth.findings@.len() as int);
    head + interruptions_head(m.interruptions) + interrupted_rows(
        interrupted_listed(m.interruptions),
        selected,
    ) + peak_head(m.peak_context@) + peak_rows(m.peak_context@, after_i) + growth_head(
        m.context_growth,
    ) + spike_rows(m.context_growth.findings@, after_p) + sessions_head() + session_rows(
        m.top_sessions@,
        after_g,
    )
}

/// The lines of the report.
pub open spec fn report(m: MetricsAnalysis, selected: Option<usize>) -> Seq<Seq<SpanView>> {
    below(report_head(m), m, selected)
}

/// `n` consecutive numbers from `start` on.
pub open spec fn run(start: int, n: nat) -> Seq<int> {
    Seq::new(n, |k: int| start + k)
}

/// The lines on which the session rows stand below `h` other lines.
pub open spec fn rows_below(h: int, m: MetricsAnalysis) -> Seq<int> {
    let ni = interrupted_listed(m.interruptions).len();
    let np = m.peak_context@.len();
    let ng = m.context_growth.findings@.len();
    let i0 = h + interruptions_head(m.interruptions).len();
    let p0 = i0 + ni + peak_head(m.peak_context@).len();
    let g0 = p0 + np + growth_head(m.context_growth).len();
    let s0 = g0 + ng + sessions_head().len();
    run(i0, ni) + run(p0, np) + run(g0, ng) + run(s0, m.top_sessions@.len())
}

/// The lines on which the session rows stand.
pub open spec fn row_numbers(m: MetricsAnalysis) -> Seq<int> {
    rows_below(report_head(m).len() as int, m)
}

/// Puts session rows below the other lines and notes on which lines they are.
fn append_rows(lines: &mut Lines, row_lines: &mut Vec<usize>, rows: Lines)
    ensures
        final(lines)@ == old(lines)@ + rows@,
        as_ints(final(row_lines)@) == as_ints(old(row_lines)@) + run(
            old(lines)@.len() as int,
            rows@.len(),
        ),
{
    let ghost before = as_ints(row_lines@);
    let ghost start = lines@.len() as int;
    let n: usize = rows.len();
    let first: usize = lines.len();
    lines.join(rows);
    let total: usize = lines.len();
    let mut k: usize = 0;
    assert(as_ints(row_lines@) =~= before + run(start, 0));
    while k < n
        invariant
            k <= n,
            first == start,
            total == first + n,
            as_ints(row_lines@) == before + run(start, k as nat),
        decreases n - k,
    {
        let ghost was = row_lines@;
        row_lines.push(first + k);
        assert(as_ints(row_lines@) =~= as_ints(was).push(start + k));
        k += 1;
        assert(as_ints(row_lines@) =~= before + run(start, k as nat));
    }
}

fn build_interruptions_head(i: &Interruptions) -> (r: Lines)
    ensures
        r@ == interruptions_head(*i),
{
    let mut lines = Lines::of(section_header("Interruptions (Esc'd mid-tool-call)"));
    if i.total_interrupted_turns == 0 {
        lines.put(Line::of("  (none detected)", dim()));
    } else {
        let mut l = Line::of("  Wasted ", label());
        l.put(&i.total_wasted_cost, val_in(Color::Rgb(220, 140, 140)));
        l.put("    Turns ", label());
        l.put(&text_dec(i.total_interrupted_turns), val());
        l.put("    Sessions ", label());
        l.put(&text_dec(i.sessions_affected), val());
        lines.put(l);
    }
    lines
}

fn build_growth_head(g: &ContextGrowth) -> (r: Lines)
    ensures
        r@ == growth_head(*g),
{
    let mut lines = Lines::of(Line::empty());
    lines.put(section_header("Token spikes (outlier single-turn deltas)"));
    let mut l = Line::of("  Scored ", label());
    l.put(&text_dec(g.sessions_scored), val());
    l.put("    Spikes ", label());
    l.put(&text_count(g.findings.len()), val());
    l.put("    Cost in flagged sessions ", label());
    l.put(&g.anomalous_cost, val_in(Color::Rgb(220, 180, 130)));
    lines.put(l);
    lines.put(
        Line::of(
            "  score = peak turn delta / median turn delta — flags one-shot bursts, not total growth",
            dim(),
        ),
    );
    if g.findings.len() == 0 {
        lines.put(Line::of("  (no spikes)", dim()));
    } else {
        assert(lines@ + no_lines() =~= lines@);
    }
    lines
}

fn build_peak_head(fs: &Vec<PeakFinding>) -> (r: Lines)
    ensures
        r@ == peak_head(fs@),
{
    let mut lines = Lines::of(Line::empty());
    lines.put(section_header("Peak context reached"));
    if fs.len() == 0 {
        lines.put(Line::of("  (no sessions)", dim()));
    } else {
        assert(lines@ + no_lines() =~= lines@);
    }
    lines
}

fn build_sessions_head() -> (r: Lines)
    ensures
        r@ == sessions_head(),
{
    let mut lines = Lines::of(Line::empty());
    lines.put(section_header("Top sessions"));
    let tail = cat4(" ", &text_left("model", 22), " ", &text_left("project", 24));
    let t = cat7(
        "  ",
        &text_left("session", 10),
        " ",
        &text_right("cost", 8),
        " ",
        &text_right("tokens", 10),
        &tail,
    );
    lines.put(Line::of(&t, dim()));
    lines
}

fn build_report_head(m: &MetricsAnalysis) -> (r: Lines)
    requires
        m.ok(),
    ensures
        r@ == report_head(*m),
{
    let mut lines = build_overview(m);
    lines.join(build_breakdown(&m.total_tokens));
    lines.join(build_models(&m.by_model));
    lines.join(build_daily(&m.daily));
    lines.join(build_projects(&m.top_projects));
    render_bar_chart_section(&mut lines, "Tool usage", "tool calls", "tools", &m.by_tool);
    render_bar_chart_section(&mut lines, "Shell commands", "shell commands", "commands", &m.by_shell);
    render_bar_chart_section(&mut lines, "MCP servers", "MCP calls", "servers", &m.by_mcp);
    lines
}

#[verifier::spinoff_prover]
#[verifier::rlimit(60)]
fn build_below(lines: &mut Lines, m: &MetricsAnalysis, selected: Option<usize>) -> (r: Vec<usize>)
    ensures
        final(lines)@ == below(old(lines)@, *m, selected),
        as_ints(r@) == rows_below(old(lines)@.len() as int, *m),
{
    let mut row_lines: Vec<usize> = Vec::new();
    lines.join(build_interruptions_head(&m.interruptions));
    let ghost before = lines@;
    let mut next = selected;
    if m.interruptions.total_interrupted_turns > 0 {
        append_rows(lines, &mut row_lines, build_interrupted_rows(&m.interruptions.by_session, selected));
        next = past_rows(selected, m.interruptions.by_session.len());
    }
    proof {
        let listed = interrupted_listed(m.interruptions);
        assert(lines@ =~= before + interrupted_rows(listed, selected));
        assert(as_ints(row_lines@) =~= run(before.len() as int, listed.len()));
        assert(next == past(selected, listed.len() as int));
    }
    lines.join(build_peak_head(&m.peak_context));
    append_rows(lines, &mut row_lines, build_peak_rows(&m.peak_context, next));
    next = past_rows(next, m.peak_context.len());
    lines.join(build_growth_head(&m.context_growth));
    append_rows(lines, &mut row_lines, build_spike_rows(&m.context_growth.findings, next));
    next = past_rows(next, m.context_growth.findings.len());
    lines.join(build_sessions_head());
    append_rows(lines, &mut row_lines, build_session_rows(&m.top_sessions, next));
    row_lines
}

/// The lines of the report, and the line number of every session row in the
/// order of the sections. `selected` counts those rows and says which one, if
/// any, is highlighted.
pub fn build_metrics_content(m: &MetricsAnalysis, selected: Option<usize>) -> (r: (Lines, Vec<usize>))
    requires
        m.ok(),
    ensures
        r.0@ == report(*m, selected),
        as_ints(r.1@) == row_numbers(*m),
{
    let mut lines = build_report_head(m);
    let row_lines = build_below(&mut lines, m, selected);
    (lines, row_lines)
}

/// How many session rows the report has.
pub open spec fn row_count(m: MetricsAnalysis) -> nat {
    interrupted_listed(m.interruptions).len() + m.peak_context@.len()
        + m.context_growth.findings@.len() + m.top_sessions@.len()
}

/// Every session row has a line of its own in the report, each below the one
/// before it, whichever row is selected.
pub proof fn row_numbers_are_lines(m: MetricsAnalysis, selected: Option<usize>)
    ensures
        row_numbers(m).len() == row_count(m),
        forall|k: int|
            0 <= k < row_count(m) ==> 0 <= #[trigger] row_numbers(m)[k] < report(m, selected).len(),
        forall|j: int, k: int|
            0 <= j < k < row_count(m) ==> #[trigger] row_numbers(m)[j] < #[trigger] row_numbers(m)[k],
{
}

/// A session row of the report is the selected one's, in its style, exactly
/// where its number is selected.
pub proof fn selected_row_is_marked(m: MetricsAnalysis, selected: Option<usize>, k: int)
    requires
        0 <= k < row_count(m),
    ensures
        report(m, selected)[row_numbers(m)[k]].len() > 0,
        report(m, selected)[row_numbers(m)[k]][0].style == row_style(selected matches Some(i) && i == k),
{
    let ni = interrupted_listed(m.interruptions).len() as int;
    let np = m.peak_context@.len() as int;
    let ng = m.context_growth.findings@.len() as int;
    let after_i = past(selected, ni);
    let after_p = past(after_i, np);
    let after_g = past(after_p, ng);
    let line = report(m, selected)[row_numbers(m)[k]];
    if k < ni {
        assert(line == interrupted_rows(interrupted_listed(m.interruptions), selected)[k]);
    } else if k < ni + np {
        assert(line == peak_rows(m.peak_context@, after_i)[k - ni]);
    } else if k < ni + np + ng {
        assert(line == spike_rows(m.context_growth.findings@, after_p)[k - ni - np]);
    } else {
        assert(line == session_rows(m.top_sessions@, after_g)[k - ni - np - ng]);
    }
}

// ---------------------------------------------------------------------------
// The body of the tab
// ---------------------------------------------------------------------------

/// What is shown before there is a report: how far the scan has come.
pub open spec fn scanning(progress: Option<(usize, usize)>) -> Seq<char> {
    match progress {
        Some((scanned, total)) => if total > 0 {
            " Scanning agent transcripts … "@ + dec(scanned as nat) + " / "@ + dec(total as nat)
                + " sessions ("@ + dec(ratio_rounded(scanned as nat, total as nat, 100) as nat) + "%)"@
        } else {
            " Scanning agent transcripts …"@
        },
        None => " Scanning agent transcripts …"@,
    }
}

pub fn scanning_text(progress: Option<(usize, usize)>) -> (r: String)
    ensures
        r@ == scanning(progress),
{
    match progress {
        Some((scanned, total)) => if total > 0 {
            let pct: u128 = round_ratio(scanned as u64, total as u64, 100);
            cat7(
                " Scanning agent transcripts … ",
                &text_count(scanned),
                " / ",
                &text_count(total),
                " sessions (",
                &crate::text::text_dec_wide(pct),
                "%)",
            )
        } else {
            " Scanning agent transcripts …".to_owned()
        },
        None => " Scanning agent transcripts …".to_owned(),
    }
}

/// The scroll position that keeps line `row` on the screen, where there is
/// one, and that leaves no empty rows below the last line.
pub open spec fn follow(total: int, height: int, row: Option<int>, scroll: int) -> int {
    let wanted = match row {
        Some(line) => if line < scroll {
            line
        } else if height > 0 && line >= scroll + height {
            line + 1 - height
        } else {
            scroll
        },
        None => scroll,
    };
    at_most(wanted, minus(total, height))
}

/// A selected line is always on the screen.
pub proof fn follow_keeps_row_visible(total: int, height: int, line: int, scroll: int)
    requires
        0 <= line < total,
        0 < height,
        0 <= scroll,
    ensures
        0 <= follow(total, height, Some(line), scroll) <= line < follow(total, height, Some(line), scroll)
            + height,
{
}

/// A report on the screen: its lines, from which one it is shown, and where.
#[derive(Debug)]
pub struct MetricsView {
    pub lines: Lines,
    pub row_lines: Vec<usize>,
    pub scroll: u16,
    pub view_height: u16,
    pub indicator: String,
    pub indicator_area: Rect,
    pub body_area: Rect,
}

#[derive(Debug)]
pub enum MetricsBody {
    /// The area has no room.
    Nothing,
    /// There is no report yet.
    Scanning(String),
    Report(MetricsView),
}

/// The line of the selected row, where the selection names one.
pub open spec fn selected_line(rows: Seq<int>, selected: Option<usize>) -> Option<int> {
    match selected {
        Some(i) => if i < rows.len() {
            Some(rows[i as int])
        } else {
            None
        },
        None => None,
    }
}

/// The shown line and the number of lines, both counted from one.
pub open spec fn position_text(scroll: int, total: int) -> Seq<char> {
    " "@ + dec((at_most(scroll, minus(total, 1)) + 1) as nat) + "/"@ + dec(total as nat) + " "@
}

/// A number of lines as sixteen bits count it.
pub open spec fn counted(lines: int) -> int {
    lines % 0x1_0000
}

/// `v` shows the report on `m` in `area`.
pub open spec fn shows(
    v: MetricsView,
    m: MetricsAnalysis,
    area: Rect,
    selected: Option<usize>,
    scroll: int,
) -> bool {
    let total = counted(report(m, selected).len() as int);
    let row = match selected_line(row_numbers(m), selected) {
        Some(line) => Some(counted(line)),
        None => None,
    };
    let height = area.height - 1;
    &&& v.lines@ == report(m, selected)
    &&& as_ints(v.row_lines@) == row_numbers(m)
    &&& v.scroll == follow(total, height, row, scroll)
    &&& v.view_height == height
    &&& v.indicator@ == position_text(v.scroll as int, total)
    &&& v.indicator_area == (Rect {
        x: area.x,
        y: (area.y + height) as u16,
        width: area.width,
        height: 1,
    })
    &&& v.body_area == (Rect { height: height as u16, ..area })
}

/// Lays the tab out: nothing in less than two rows, the progress of the scan
/// while there is no analysis, else the report, scrolled so that a selected
/// row is visible, above one row that says where it is.
pub fn render_metrics_body(
    area: Rect,
    analysis: &Option<MetricsAnalysis>,
    progress: Option<(usize, usize)>,
    selected: Option<usize>,
    scroll: u16,
) -> (r: MetricsBody)
    requires
        area.fits(),
        *analysis matches Some(m) ==> m.ok(),
    ensures
        match r {
            MetricsBody::Nothing => area.height < 2,
            MetricsBody::Scanning(t) => area.height >= 2 && *analysis is None && t@ == scanning(
                progress,
            ),
            MetricsBody::Report(v) => area.height >= 2 && *analysis is Some && shows(
                v,
                analysis->Some_0,
                area,
                selected,
                scroll as int,
            ),
        },
{
    if area.height < 2 {
        return MetricsBody::Nothing;
    }
    let m = match analysis {
        None => {
            return MetricsBody::Scanning(scanning_text(progress));
        },
        Some(m) => m,
    };
    let (lines, row_lines) = build_metrics_content(m, selected);
    proof {
        row_numbers_are_lines(*m, selected);
    }
    let total: usize = lines.len() % 0x1_0000;
    let height: u16 = area.height - 1;
    let h: usize = height as usize;
    let current: usize = scroll as usize;
    let row: Option<usize> = match selected {
        Some(i) => if i < row_lines.len() {
            assert(as_ints(row_lines@)[i as int] == row_lines@[i as int]);
            Some(row_lines[i] % 0x1_0000)
        } else {
            None
        },
        None => None,
    };
    let wanted: usize = match row {
        Some(line) => if line < current {
            line
        } else if line >= current + h {
            line + 1 - h
        } else {
            current
        },
        None => current,
    };
    let max_scroll: usize = total.saturating_sub(h);
    let scroll: usize = if wanted < max_scroll {
        wanted
    } else {
        max_scroll
    };
    let last: usize = total.saturating_sub(1);
    let at: usize = if scroll < last {
        scroll
    } else {
        last
    };
    let indicator = cat5(" ", &text_count(at + 1), "/", &text_count(total), " ");
    MetricsBody::Report(
        MetricsView {
            lines,
            row_lines,
            scroll: scroll as u16,
            view_height: height,
            indicator,
            indicator_area: Rect { x: area.x, y: area.y + height, width: area.width, height: 1 },
            body_area: Rect { x: area.x, y: area.y, width: area.width, height },
        },
    )
}

// ---------------------------------------------------------------------------
// What the report says
// ---------------------------------------------------------------------------

/// The first lines of the report: what was spent in all, on how many sessions and
/// messages, and how many tokens went in, came out, were read from the cache and
/// written to it.
pub proof fn report_begins_with_totals(m: MetricsAnalysis, selected: Option<usize>)
    ensures
        ({
            let r = report(m, selected);
            let t = m.total_tokens;
            &&& r.len() >= 4
            &&& line_text(r[0]) == "▎ "@ + "Overview"@
            &&& line_text(r[1]) == "  Total cost   "@ + m.total_cost@ + "    Sessions "@ + dec(
                m.total_sessions as nat,
            ) + "    Messages "@ + dec(m.total_messages as nat) + "    Cache hit "@ + (m.cache_hit@ + "%"@)
            &&& line_text(r[2]) == "  Tokens      "@ + (tokens(t.input as nat) + " in / "@ + tokens(
                t.output as nat,
            ) + " out / "@ + tokens(t.cache_read as nat) + " cache_r / "@ + (tokens(t.cache_creation as nat)
                + " cache_w"@))
        }),
{
    broadcast use {crate::style::joined_line_text, crate::style::span_line_text};

    lemma_report_parts(m, selected);
    let r = report(m, selected);
    let o = overview(m);
    assert(r[0] == o[0] && r[1] == o[1] && r[2] == o[2]);
}

/// The lengths of the sections above the first session row.
proof fn lemma_report_parts(m: MetricsAnalysis, selected: Option<usize>)
    ensures
        ({
            let r = report(m, selected);
            let o = overview(m);
            let b = breakdown(m.total_tokens);
            let c = models_section(m.by_model@);
            let d = daily_section(m.daily);
            let p = projects_section(m.top_projects@);
            &&& o.len() == 4
            &&& b.len() == 6
            &&& c.len() == 2 + at_most(m.by_model@.len() as int, 8)
            &&& d.len() == 4
            &&& p.len() == 2 + m.top_projects@.len()
            &&& report_head(m).is_prefix_of(r)
            &&& r.len() >= 16 + c.len() + p.len() - 2
            &&& forall|i: int| 0 <= i < 4 ==> #[trigger] r[i] == o[i]
            &&& forall|i: int| 4 <= i < 10 ==> #[trigger] r[i] == b[i - 4]
            &&& forall|i: int| 10 <= i < 10 + c.len() ==> #[trigger] r[i] == c[i - 10]
            &&& forall|i: int| 10 + c.len() <= i < 14 + c.len() ==> #[trigger] r[i] == d[i - 10 - c.len()]
            &&& forall|i: int|
                14 + c.len() <= i < 14 + c.len() + p.len() ==> #[trigger] r[i] == p[i - 14 - c.len()]
        }),
{
    let o = overview(m);
    let b = breakdown(m.total_tokens);
    let c = models_section(m.by_model@);
    let d = daily_section(m.daily);
    let p = projects_section(m.top_projects@);
    let e = chart("Tool usage"@, "tool calls"@, "tools"@, m.by_tool@);
    let f = chart("Shell commands"@, "shell commands"@, "commands"@, m.by_shell@);
    let g = chart("MCP servers"@, "MCP calls"@, "servers"@, m.by_mcp@);
    lemma_head_is_first(m, selected);
    lemma_parts(o, b, c, d, p, e, f, g);
    let h = report_head(m);
    assert(h == o + b + c + d + p + e + f + g);
    let r = report(m, selected);
    assert(forall|i: int| 0 <= i < h.len() ==> #[trigger] r[i] == h[i]);
}

proof fn lemma_head_is_first(m: MetricsAnalysis, selected: Option<usize>)
    ensures
        report_head(m).is_prefix_of(report(m, selected)),
        report_head(m).len() <= report(m, selected).len(),
        forall|i: int| 0 <= i < report_head(m).len() ==> #[trigger] report(m, selected)[i] == report_head(m)[i],
{
    let h = report_head(m);
    lemma_first_of_nine(
        h,
        interruptions_head(m.interruptions),
        interrupted_rows(interrupted_listed(m.interruptions), selected),
        peak_head(m.peak_context@),
        peak_rows(m.peak_context@, past(selected, interrupted_listed(m.interruptions).len() as int)),
        growth_head(m.context_growth),
        spike_rows(
            m.context_growth.findings@,
            past(
                past(selected, interrupted_listed(m.interruptions).len() as int),
                m.peak_context@.len() as int,
            ),
        ),
        sessions_head(),
        session_rows(
            m.top_sessions@,
            past(
                past(
                    past(selected, interrupted_listed(m.interruptions).len() as int),
                    m.peak_context@.len() as int,
                ),
                m.context_growth.findings@.len() as int,
            ),
        ),
    );
}

proof fn lemma_first_of_nine(
    a: Seq<Seq<SpanView>>,
    b: Seq<Seq<SpanView>>,
    c: Seq<Seq<SpanView>>,
    d: Seq<Seq<SpanView>>,
    e: Seq<Seq<SpanView>>,
    f: Seq<Seq<SpanView>>,
    g: Seq<Seq<SpanView>>,
    h: Seq<Seq<SpanView>>,
    i: Seq<Seq<SpanView>>,
)
    ensures
        ({
            let x = a + b + c + d + e + f + g + h + i;
            &&& a.is_prefix_of(x)
            &&& a.len() <= x.len()
            &&& forall|k: int| 0 <= k < a.len() ==> #[trigger] x[k] == a[k]
        }),
{
    let x = a + b + c + d + e + f + g + h + i;
    assert(a =~= x.take(a.len() as int));
}

proof fn lemma_parts(
    a: Seq<Seq<SpanView>>,
    b: Seq<Seq<SpanView>>,
    c: Seq<Seq<SpanView>>,
    d: Seq<Seq<SpanView>>,
    e: Seq<Seq<SpanView>>,
    f: Seq<Seq<SpanView>>,
    g: Seq<Seq<SpanView>>,
    h: Seq<Seq<SpanView>>,
)
    ensures
        ({
            let x = a + b + c + d + e + f + g + h;
            let ab = a.len() + b.len();
            &&& x.len() == ab + c.len() + d.len() + e.len() + f.len() + g.len() + h.len()
            &&& forall|k: int| 0 <= k < a.len() ==> #[trigger] x[k] == a[k]
            &&& forall|k: int| a.len() <= k < ab ==> #[trigger] x[k] == b[k - a.len()]
            &&& forall|k: int| ab <= k < ab + c.len() ==> #[trigger] x[k] == c[k - ab]
            &&& forall|k: int|
                ab + c.len() <= k < ab + c.len() + d.len() ==> #[trigger] x[k] == d[k - ab - c.len()]
            &&& forall|k: int|
                ab + c.len() + d.len() <= k < ab + c.len() + d.len() + e.len() ==> #[trigger] x[k] == e[k - ab
                    - c.len() - d.len()]
        }),
{
}

/// The bar of a number of tokens beside the largest such number: no longer than
/// thirty columns, and thirty for the largest.
pub open spec fn bar_fits(bar: int, value: u64, largest: int) -> bool {
    0 <= bar <= 30 && (value == largest ==> bar == 30)
}

/// The breakdown has a row for each of the four totals, which begins with what it
/// counts and ends with the count, behind a bar that is thirty columns long for
/// the largest of them.
pub proof fn breakdown_rows_tell_their_totals(m: MetricsAnalysis, selected: Option<usize>)
    requires
        m.total_tokens.input + m.total_tokens.output + m.total_tokens.cache_read + m.total_tokens.cache_creation
            > 0,
    ensures
        ({
            let r = report(m, selected);
            let t = m.total_tokens;
            let largest = at_least(
                at_least(t.input as int, t.output as int),
                at_least(t.cache_read as int, t.cache_creation as int),
            );
            &&& line_text(r[4]) == "▎ "@ + "Cost breakdown"@
            &&& exists|bar: int|
                #[trigger] bar_fits(bar, t.input, largest) && line_text(r[5]) == "  "@ + "input        "@ + fill(
                    '━',
                    bar,
                ) + " "@ + tokens(t.input as nat)
            &&& exists|bar: int|
                #[trigger] bar_fits(bar, t.output, largest) && line_text(r[6]) == "  "@ + "output       "@ + fill(
                    '━',
                    bar,
                ) + " "@ + tokens(t.output as nat)
            &&& exists|bar: int|
                #[trigger] bar_fits(bar, t.cache_read, largest) && line_text(r[7]) == "  "@ + "cache read   "@ + fill(
                    '━',
                    bar,
                ) + " "@ + tokens(t.cache_read as nat)
            &&& exists|bar: int|
                #[trigger] bar_fits(bar, t.cache_creation, largest) && line_text(r[8]) == "  "@ + "cache create "@
                    + fill('━', bar) + " "@ + tokens(t.cache_creation as nat)
        }),
{
    broadcast use {crate::style::joined_line_text, crate::style::span_line_text};

    lemma_report_parts(m, selected);
    let r = report(m, selected);
    let t = m.total_tokens;
    let b = breakdown(t);
    let most = most_tokens(t);
    assert(r[4] == b[0] && r[5] == b[1] && r[6] == b[2] && r[7] == b[3] && r[8] == b[4]);
    crate::rounding::ratio_of_whole(most as nat, 30);
    crate::rounding::ratio_of_part(t.input as nat, most as nat, 30);
    crate::rounding::ratio_of_part(t.output as nat, most as nat, 30);
    crate::rounding::ratio_of_part(t.cache_read as nat, most as nat, 30);
    crate::rounding::ratio_of_part(t.cache_creation as nat, most as nat, 30);
    let largest = at_least(
        at_least(t.input as int, t.output as int),
        at_least(t.cache_read as int, t.cache_creation as int),
    );
    assert(largest == most);
    assert(bar_fits(ratio_rounded(t.input as nat, most as nat, 30), t.input, largest));
    assert(bar_fits(ratio_rounded(t.output as nat, most as nat, 30), t.output, largest));
    assert(bar_fits(ratio_rounded(t.cache_read as nat, most as nat, 30), t.cache_read, largest));
    assert(bar_fits(ratio_rounded(t.cache_creation as nat, most as nat, 30), t.cache_creation, largest));
}

/// The models that cost most come first, up to eight, each with its bar, its cost,
/// its share and its messages.
pub proof fn models_are_listed_by_cost(m: MetricsAnalysis, selected: Option<usize>, k: int)
    requires
        0 <= k < m.by_model@.len(),
        k < 8,
    ensures
        ({
            let r = report(m, selected);
            let order = descending(ranks(m.by_model@));
            let s = m.by_model@[order[k]];
            &&& line_text(r[10]) == "▎ "@ + "Cost by model"@
            &&& line_text(r[11 + k]) == "  "@ + left(short_line(model_name(s.vendor@, s.name@), 22), 22) + fill(
                '━',
                s.bar as int,
            ) + " "@ + s.cost@ + (" "@ + right(s.share@, 4) + "%"@) + ("  "@ + dec(s.messages as nat) + " msgs"@)
            &&& 0 <= order[k] < m.by_model@.len()
            &&& k > 0 ==> m.by_model@[order[k - 1]].rank >= s.rank && order[k - 1] != order[k]
            &&& forall|j: int|
                0 <= j < m.by_model@.len() && (#[trigger] m.by_model@[j]).rank > s.rank ==> exists|i: int|
                    0 <= i < k && #[trigger] order[i] == j
        }),
{
    broadcast use {crate::style::joined_line_text, crate::style::span_line_text};

    lemma_report_parts(m, selected);
    let r = report(m, selected);
    let c = models_section(m.by_model@);
    assert(r[10] == c[0]);
    assert(r[11 + k] == c[1 + k]);
    let keys = ranks(m.by_model@);
    descending_sorts(keys);
    let order = descending(keys);
    let s = m.by_model@[order[k]];
    assert(keys[order[k]] == s.rank);
    if k > 0 {
        assert(keys[order[k - 1]] == m.by_model@[order[k - 1]].rank);
    }
    assert forall|j: int| 0 <= j < m.by_model@.len() && (#[trigger] m.by_model@[j]).rank > s.rank implies exists|i: int|
        0 <= i < k && #[trigger] order[i] == j by {
        crate::ordering::every_index_is_listed(keys, j);
        let i = choose|i: int| 0 <= i < order.len() && #[trigger] order[i] == j;
        assert(keys[j] == m.by_model@[j].rank);
        if i > k {
            assert(crate::ordering::precedes(keys, order[k], order[i]));
        }
    }
}

/// The days and what was spent on the last seven and thirty of them.
pub proof fn days_are_summed_up(m: MetricsAnalysis, selected: Option<usize>)
    ensures
        ({
            let r = report(m, selected);
            let at = 12 + at_most(m.by_model@.len() as int, 8);
            &&& line_text(r[at]) == "▎ "@ + "Daily spending (last 30 days)"@
            &&& line_text(r[at + 1]).len() == 2 + m.daily.levels@.len()
            &&& line_text(r[at + 2]) == "  last 7d "@ + m.daily.last_7@ + "    last 30d "@ + m.daily.last_30@
                + "    peak day "@ + m.daily.peak_day@
            &&& forall|i: int, j: int|
                0 <= i < m.daily.levels@.len() && 0 <= j < m.daily.levels@.len() ==> {
                    let a = #[trigger] m.daily.levels@[i];
                    let b = #[trigger] m.daily.levels@[j];
                    let row = line_text(r[at + 1]).skip(2);
                    &&& a is None <==> row[i] == ' '
                    &&& a matches Some(x) ==> b matches Some(y) ==> x < y < 8 ==> row[i] < row[j]
                }
        }),
{
    broadcast use {crate::style::joined_line_text, crate::style::span_line_text};

    lemma_report_parts(m, selected);
    let r = report(m, selected);
    let d = daily_section(m.daily);
    let at = 12 + at_most(m.by_model@.len() as int, 8);
    assert(r[at] == d[0] && r[at + 1] == d[1] && r[at + 2] == d[2]);
    reveal_strlit("  ");
    let row = line_text(r[at + 1]).skip(2);
    assert(row =~= spark(m.daily.levels@));
    assert(forall|i: int| 0 <= i < m.daily.levels@.len() ==> row[i] == day_block(#[trigger] m.daily.levels@[i]));
}

/// The projects come in the given order, each with its bar, its cost, its sessions
/// and its messages.
pub proof fn projects_are_listed(m: MetricsAnalysis, selected: Option<usize>, k: int)
    requires
        0 <= k < m.top_projects@.len(),
    ensures
        ({
            let r = report(m, selected);
            let at = 16 + at_most(m.by_model@.len() as int, 8);
            let s = m.top_projects@[k];
            &&& line_text(r[at]) == "▎ "@ + "Top projects"@
            &&& line_text(r[at + 1 + k]) == "  "@ + left(short_line(s.name@, 26), 26) + fill('━', s.bar as int) + " "@
                + s.cost@ + ("  "@ + dec(s.sessions as nat) + " sess"@) + ("  "@ + dec(s.messages as nat) + " msgs"@)
        }),
{
    broadcast use {crate::style::joined_line_text, crate::style::span_line_text};

    lemma_report_parts(m, selected);
    let r = report(m, selected);
    let p = projects_section(m.top_projects@);
    let at = 16 + at_most(m.by_model@.len() as int, 8);
    assert(r[at] == p[0] && r[at + 1 + k] == p[1 + k]);
    assert(p[1 + k] == project_row(m.top_projects@[k]));
}

proof fn lemma_calls_of_all(stats: Seq<ToolStats>)
    ensures
        forall|j: int| 0 <= j < stats.len() ==> (#[trigger] stats[j]).count <= calls(counts(stats)),
        0 <= calls(counts(stats)),
    decreases stats.len(),
{
    if stats.len() > 0 {
        let front = stats.drop_last();
        lemma_calls_of_all(front);
        assert(counts(stats).drop_last() =~= counts(front));
        assert forall|j: int| 0 <= j < stats.len() implies (#[trigger] stats[j]).count <= calls(counts(stats)) by {
            if j < front.len() {
                assert(front[j] == stats[j]);
            }
        }
    }
}

/// A chart lists what was called most first, up to fifteen, each with its name, how
/// often it was called, the share of all calls and in how many sessions; the bar of
/// the most called is twenty-four columns long.
pub proof fn charts_list_the_most_called(
    header: Seq<char>,
    empty_noun: Seq<char>,
    overflow_noun: Seq<char>,
    stats: Seq<ToolStats>,
    k: int,
)
    requires
        0 <= k < stats.len(),
        k < 15,
        calls(counts(stats)) <= u64::MAX,
    ensures
        ({
            let c = chart(header, empty_noun, overflow_noun, stats);
            let order = descending(counts(stats));
            let s = stats[order[k]];
            let t = line_text(c[1 + k]);
            let share = if calls(counts(stats)) > 0 {
                ratio_tenths(s.count as nat, calls(counts(stats)) as nat, 100)
            } else {
                0
            };
            let bar = ratio_rounded(s.count as nat, at_least(stats[order[0]].count as int, 1) as nat, 24);
            &&& line_text(c[0]) == "▎ "@ + header
            &&& t == "  "@ + left(short_line(s.name@, 22), 22) + fill('━', bar) + " "@ + (right(
                dec(s.count as nat),
                6,
            ) + " calls"@) + ("  "@ + right(one_decimal(share), 4) + "%"@) + ("  "@ + dec(s.sessions as nat)
                + " sess"@)
            &&& 0 <= bar <= 24
            &&& k == 0 && s.count > 0 ==> bar == 24
            &&& k > 0 ==> stats[order[k - 1]].count >= s.count && order[k - 1] != order[k]
            &&& forall|j: int| 0 <= j < stats.len() ==> (#[trigger] stats[j]).count <= stats[order[0]].count
        }),
{
    broadcast use {crate::style::joined_line_text, crate::style::span_line_text};

    let keys = counts(stats);
    descending_sorts(keys);
    let order = descending(keys);
    let c = chart(header, empty_noun, overflow_noun, stats);
    let rows = chart_rows(stats, empty_noun, overflow_noun);
    assert(c[1 + k] == rows[k]);
    assert(rows[k] == tool_row(stats[order[k]], most_calls(stats), calls(keys)));
    let s = stats[order[k]];
    let most = most_calls(stats);
    lemma_calls_of_all(stats);
    assert(keys[order[0]] == stats[order[0]].count);
    assert(keys[order[k]] == s.count);
    if k > 0 {
        assert(crate::ordering::precedes(keys, order[0], order[k]));
        assert(keys[order[k - 1]] == stats[order[k - 1]].count);
    }
    assert forall|j: int| 0 <= j < stats.len() implies (#[trigger] stats[j]).count <= stats[order[0]].count by {
        crate::ordering::every_index_is_listed(keys, j);
        let i = choose|i: int| 0 <= i < order.len() && #[trigger] order[i] == j;
        assert(keys[j] == stats[j].count);
        if i > 0 {
            assert(crate::ordering::precedes(keys, order[0], order[i]));
        }
    }
    crate::rounding::ratio_of_part(s.count as nat, most as nat, 24);
    crate::rounding::ratio_of_whole(most as nat, 24);
}

/// Beyond fifteen rows a chart says how many more there are; without any it says so.
pub proof fn charts_count_the_rest(
    header: Seq<char>,
    empty_noun: Seq<char>,
    overflow_noun: Seq<char>,
    stats: Seq<ToolStats>,
)
    ensures
        ({
            let c = chart(header, empty_noun, overflow_noun, stats);
            &&& stats.len() == 0 ==> c.len() == 3 && line_text(c[1]) == "  (no "@ + empty_noun + " recorded)"@
            &&& 0 < stats.len() <= 15 ==> c.len() == 2 + stats.len()
            &&& stats.len() > 15 ==> c.len() == 18 && line_text(c[16]) == "  … "@ + dec((stats.len() - 15) as nat)
                + " more "@ + overflow_noun
        }),
{
    broadcast use {crate::style::joined_line_text, crate::style::span_line_text};

    let c = chart(header, empty_noun, overflow_noun, stats);
    let rows = chart_rows(stats, empty_noun, overflow_noun);
    if stats.len() > 15 {
        assert(c[16] == rows[15]);
    } else if stats.len() == 0 {
        assert(c[1] == rows[0]);
    }
}

/// Below the projects stand the charts of the tools, of the shell commands and of
/// the servers, each about its own calls.
pub proof fn report_has_three_charts(m: MetricsAnalysis, selected: Option<usize>)
    ensures
        ({
            let r = report(m, selected);
            let at = 18 + at_most(m.by_model@.len() as int, 8) + m.top_projects@.len();
            let a = chart("Tool usage"@, "tool calls"@, "tools"@, m.by_tool@);
            let b = chart("Shell commands"@, "shell commands"@, "commands"@, m.by_shell@);
            let c = chart("MCP servers"@, "MCP calls"@, "servers"@, m.by_mcp@);
            &&& r.len() >= at + a.len() + b.len() + c.len()
            &&& r.subrange(at, at + a.len()) == a
            &&& r.subrange(at + a.len(), at + a.len() + b.len()) == b
            &&& r.subrange(at + a.len() + b.len(), at + a.len() + b.len() + c.len()) == c
        }),
{
    lemma_report_parts(m, selected);
    let r = report(m, selected);
    let at = 18 + at_most(m.by_model@.len() as int, 8) + m.top_projects@.len();
    let a = chart("Tool usage"@, "tool calls"@, "tools"@, m.by_tool@);
    let b = chart("Shell commands"@, "shell commands"@, "commands"@, m.by_shell@);
    let c = chart("MCP servers"@, "MCP calls"@, "servers"@, m.by_mcp@);
    let h = report_head(m);
    let x = overview(m) + breakdown(m.total_tokens) + models_section(m.by_model@) + daily_section(m.daily)
        + projects_section(m.top_projects@);
    assert(x.len() == at);
    assert(h =~= x + a + b + c);
    assert(forall|i: int| 0 <= i < h.len() ==> #[trigger] r[i] == h[i]);
    assert(r.subrange(at, at + a.len()) =~= a);
    assert(r.subrange(at + a.len(), at + a.len() + b.len()) =~= b);
    assert(r.subrange(at + a.len() + b.len(), at + a.len() + b.len() + c.len()) =~= c);
}

/// What the rows of sessions say: of an interrupted session what was wasted, how
/// many calls were left behind, the last tool and the project; of one with a large
/// context how large it was, what the session cost and at which turn of how many;
/// of one with a spike its score, cost, growth and turn; of a dear one its cost, its
/// tokens, its model and its project.
pub proof fn session_rows_tell_their_own(
    e: InterruptedSession,
    p: PeakFinding,
    f: SpikeFinding,
    s: SessionSummary,
    selected: bool,
)
    ensures
        ({
            let mark = if selected {
                "  ▸ "@
            } else {
                "    "@
            };
            &&& line_text(interrupted_row(e, selected)) == mark + left(short_sid(e.session_id@), 10) + right(
                e.wasted_cost@,
                8,
            ) + ("  "@ + right(dec(e.orphan_count as nat), 3) + " orphan"@) + "  "@ + left(
                short_line(e.last_tool_name@, 18),
                18,
            ) + left(short_line(e.project@, 24), 24)
            &&& line_text(peak_row(p, selected)) == mark + left(short_sid(p.session_id@), 10) + (right(
                tokens(p.peak_ctx_tokens as nat),
                8,
            ) + " ctx"@) + ("  "@ + right(p.total_cost@, 8)) + ("  @ turn "@ + dec(p.peak_turn_index as nat) + "/"@
                + dec(p.assistant_turns as nat)) + "  "@ + left(short_line(p.project@, 24), 24)
            &&& line_text(spike_row(f, selected)) == mark + left(short_sid(f.session_id@), 10) + (right(f.score@, 5)
                + "x"@) + ("  "@ + right(f.total_cost@, 8)) + ("  +"@ + right(tokens(f.peak_delta_tokens as nat), 8)
                + " @ turn "@ + dec(f.peak_turn_index as nat) + "/"@ + dec(f.assistant_turns as nat)) + "  "@ + left(
                short_line(f.project@, 24),
                24,
            )
            &&& line_text(session_row(s, selected)) == (if selected {
                "▸ "@
            } else {
                "  "@
            }) + (if s.is_subagent {
                "⑂"@
            } else {
                " "@
            }) + left(short_sid(s.session_id@), 8) + " "@ + right(s.cost@, 8) + " "@ + right(
                tokens(s.total_tokens as nat),
                10,
            ) + " "@ + left(short_line(model_name(s.vendor@, s.model@), 22), 22) + " "@ + left(
                short_line(s.project@, 24),
                24,
            )
        }),
{
    broadcast use {crate::style::joined_line_text, crate::style::span_line_text};

}

/// The session rows of the report, from the top: those of interrupted sessions, where
/// any turn was interrupted, of large contexts, of spikes and of the dearest sessions.
pub proof fn session_rows_come_in_order(m: MetricsAnalysis, selected: Option<usize>, k: int)
    requires
        0 <= k < row_count(m),
    ensures
        ({
            let ni = if m.interruptions.total_interrupted_turns == 0 {
                0
            } else {
                m.interruptions.by_session@.len() as int
            };
            let np = m.peak_context@.len() as int;
            let ng = m.context_growth.findings@.len() as int;
            let here = selected matches Some(i) && i == k;
            let row = report(m, selected)[row_numbers(m)[k]];
            if k < ni {
                row == interrupted_row(m.interruptions.by_session@[k], here)
            } else if k < ni + np {
                row == peak_row(m.peak_context@[k - ni], here)
            } else if k < ni + np + ng {
                row == spike_row(m.context_growth.findings@[k - ni - np], here)
            } else {
                row == session_row(m.top_sessions@[k - ni - np - ng], here)
            }
        }),
{
    let ni = interrupted_listed(m.interruptions).len() as int;
    let np = m.peak_context@.len() as int;
    let ng = m.context_growth.findings@.len() as int;
    let h = report_head(m);
    let after_i = past(selected, ni);
    let after_p = past(after_i, np);
    let after_g = past(after_p, ng);
    let x0 = h + interruptions_head(m.interruptions);
    let x1 = x0 + interrupted_rows(interrupted_listed(m.interruptions), selected);
    let x2 = x1 + peak_head(m.peak_context@);
    let x3 = x2 + peak_rows(m.peak_context@, after_i);
    let x4 = x3 + growth_head(m.context_growth);
    let x5 = x4 + spike_rows(m.context_growth.findings@, after_p);
    let x6 = x5 + sessions_head();
    let r = report(m, selected);
    assert(r == x6 + session_rows(m.top_sessions@, after_g));
    let at = row_numbers(m)[k];
    if k < ni {
        assert(at == x0.len() + k);
        assert(r[at] == x1[at]);
    } else if k < ni + np {
        assert(at == x2.len() + (k - ni));
        assert(r[at] == x3[at]);
    } else if k < ni + np + ng {
        assert(at == x4.len() + (k - ni - np));
        assert(r[at] == x5[at]);
    } else {
        assert(at == x6.len() + (k - ni - np - ng));
    }
}

/// What stands above the session rows: what interruptions wasted, in how many turns
/// and sessions, and how many sessions were scored, how many spiked and what those
/// cost.
pub proof fn session_sections_are_summed_up(i: Interruptions, g: ContextGrowth)
    ensures
        line_text(interruptions_head(i)[0]) == "▎ "@ + "Interruptions (Esc'd mid-tool-call)"@,
        interruptions_head(i).len() == 2,
        i.total_interrupted_turns == 0 ==> line_text(interruptions_head(i)[1]) == "  (none detected)"@,
        i.total_interrupted_turns > 0 ==> line_text(interruptions_head(i)[1]) == "  Wasted "@ + i.total_wasted_cost@
            + "    Turns "@ + dec(i.total_interrupted_turns as nat) + "    Sessions "@ + dec(i.sessions_affected as nat),
        line_text(growth_head(g)[1]) == "▎ "@ + "Token spikes (outlier single-turn deltas)"@,
        line_text(growth_head(g)[2]) == "  Scored "@ + dec(g.sessions_scored as nat) + "    Spikes "@ + dec(
            g.findings@.len(),
        ) + "    Cost in flagged sessions "@ + g.anomalous_cost@,
        g.findings@.len() == 0 ==> growth_head(g).len() == 5 && line_text(growth_head(g)[4]) == "  (no spikes)"@,
        g.findings@.len() > 0 ==> growth_head(g).len() == 4,
{
    broadcast use {crate::style::joined_line_text, crate::style::span_line_text};

}

/// How far a scan has come: sessions scanned, of how many.
pub proof fn scans_tell_how_far_they_are(scanned: usize, total: usize)
    requires
        total > 0,
        scanned <= total,
    ensures
        scanning(Some((scanned, total))) == " Scanning agent transcripts … "@ + dec(scanned as nat) + " / "@ + dec(
            total as nat,
        ) + " sessions ("@ + dec(ratio_rounded(scanned as nat, total as nat, 100) as nat) + "%)"@,
        scanned == total ==> ratio_rounded(scanned as nat, total as nat, 100) == 100,
{
    crate::rounding::ratio_of_whole(total as nat, 100);
}

/// The border tells which of how many lines is at the top, counted from one.
pub proof fn positions_are_counted_from_one(scroll: int, total: int)
    requires
        0 <= scroll < total,
    ensures
        position_text(scroll, total) == " "@ + dec((scroll + 1) as nat) + "/"@ + dec(total as nat) + " "@,
        position_text(0, 0) == " "@ + dec(1) + "/"@ + dec(0) + " "@,
{
}

/// The selected session of a report is on the screen, above the row that tells the position.
#[verifier::rlimit(40)]
pub proof fn selected_session_is_on_screen(
    v: MetricsView,
    m: MetricsAnalysis,
    area: Rect,
    selected: Option<usize>,
    scroll: int,
    k: int,
)
    requires
        shows(v, m, area, selected, scroll),
        area.height > 1,
        0 <= scroll,
        selected == Some(k as usize),
        0 <= k < row_numbers(m).len(),
        k <= usize::MAX,
        report(m, selected).len() <= 0xffff,
    ensures
        v.lines@ == report(m, selected),
        v.scroll <= row_numbers(m)[k] < v.scroll + v.view_height,
        v.view_height == area.height - 1,
        v.body_area.height + v.indicator_area.height == area.height,
{
    row_numbers_are_lines(m, selected);
    lemma_line_on_screen(
        row_numbers(m),
        report(m, selected).len() as int,
        selected,
        area.height - 1,
        scroll,
        v.scroll as int,
        k,
    );
}

proof fn lemma_line_on_screen(
    rows: Seq<int>,
    total: int,
    selected: Option<usize>,
    height: int,
    scroll: int,
    s: int,
    k: int,
)
    requires
        0 <= k < rows.len(),
        k <= usize::MAX,
        selected == Some(k as usize),
        0 <= rows[k] < total <= 0xffff,
        0 < height,
        0 <= scroll,
        s == follow(
            counted(total),
            height,
            match selected_line(rows, selected) {
                Some(line) => Some(counted(line)),
                None => None,
            },
            scroll,
        ),
    ensures
        s <= rows[k] < s + height,
{
    follow_keeps_row_visible(total, height, rows[k], scroll);
}

} // verus!
