//! Tasks, their agents and the spans that summarise them.

use crate::artifacts::Artifact;
use crate::common::{context_window_size, window_size};
use crate::models::{opt, SessionInfo, SessionState};
use crate::palette::{accent_blue, dim_text, dot_idle, faint_text, label_gray, meta_gray};
use crate::style::{blank, fg, line_text, ln, Color, Line, SpanView};
use crate::text::{at_least, at_most, cat2, cat4, chars_of, dec, same, slice_of, text_count, text_dec};
use vstd::prelude::*;

verus! {

broadcast use vstd::string::group_string_axioms;

#[derive(Clone, Copy, Debug, PartialEq, Eq, Structural)]
pub enum TaskStatus {
    Backlog,
    Planning,
    Running,
    Review,
    Merging,
    Done,
}

#[derive(Debug)]
pub struct Worker {
    pub tmux_name: String,
    pub worktree: Option<String>,
}

#[derive(Clone, Copy, Debug, PartialEq, Eq, Structural)]
pub enum MergeOutcome {
    Merged,
    Failed,
}

#[derive(Debug)]
pub struct Merge {
    pub worktree: String,
    pub outcome: MergeOutcome,
}

#[derive(Debug)]
pub struct TodoItem {
    pub text: String,
    pub done: bool,
}

/// A task of a project.
#[derive(Debug)]
pub struct Task {
    pub task_id: String,
    /// The id as cards show it.
    pub short_id: String,
    pub status: TaskStatus,
    /// The status in words.
    pub status_label: String,
    pub title: Option<String>,
    pub prompt: String,
    pub note: Option<String>,
    pub summary: Option<String>,
    pub shipped_version: Option<String>,
    pub orchestrator_tmux: Option<String>,
    pub workers: Vec<Worker>,
    pub merges: Vec<Merge>,
    pub artifacts: Vec<Artifact>,
    /// The index of the artifact that is shown first.
    pub lead_artifact: Option<usize>,
    pub todos: Vec<TodoItem>,
    /// How long ago the task changed, in words.
    pub age: String,
    /// How long ago the task was made, in a few characters.
    pub made_age: String,
}

/// A pull request as a card shows it.
#[derive(Clone, Copy, Debug, PartialEq, Eq, Structural)]
pub struct PrCardSummary {
    pub id: u32,
    pub review_state: ReviewState,
    pub comments: u16,
}

#[derive(Clone, Copy, Debug, PartialEq, Eq, Structural)]
pub enum ReviewState {
    Open,
    ChangesRequested,
    Approved,
    Merged,
    Closed,
}

// ---------------------------------------------------------------------------
// Versions and to-dos
// ---------------------------------------------------------------------------

/// The first index from `i` on that holds no `v`, or the length.
pub open spec fn skip_v(s: Seq<char>, i: int) -> int
    decreases s.len() - i,
{
    if i >= s.len() || s[i] != 'v' {
        i
    } else {
        skip_v(s, i + 1)
    }
}

/// A version with exactly one `v` before it.
pub open spec fn version_text(v: Seq<char>) -> Seq<char> {
    "v"@ + v.skip(skip_v(v, 0))
}

pub open spec fn version_span(v: Seq<char>) -> Seq<SpanView> {
    ln(version_text(v), fg(Color::Rgb(150, 200, 165)))
}

pub fn shipped_version_span(v: &str) -> (r: Line)
    ensures
        r@ == version_span(v@),
{
    let c = chars_of(v);
    let mut i: usize = 0;
    while i < c.len() && c[i] == 'v'
        invariant
            c@ == v@,
            i <= c@.len(),
            skip_v(v@, 0) == skip_v(v@, i as int),
        decreases c@.len() - i,
    {
        i += 1;
    }
    let rest = slice_of(&c, i, c.len());
    assert(rest@ =~= v@.skip(skip_v(v@, 0)));
    Line::of(&cat2("v", &rest), fg(Color::Rgb(150, 200, 165)))
}

proof fn lemma_skip_v_shift(s: Seq<char>, t: Seq<char>, i: int)
    requires
        t == seq!['v'] + s,
        0 <= i <= s.len(),
    ensures
        skip_v(t, i + 1) == skip_v(s, i) + 1,
        i <= skip_v(s, i) <= s.len(),
    decreases s.len() - i,
{
    if i < s.len() && s[i] == 'v' {
        lemma_skip_v_shift(s, t, i + 1);
    }
}

/// A `v` before a version changes nothing.
pub proof fn version_prefix_is_idempotent(v: Seq<char>)
    ensures
        version_text(seq!['v'] + v) == version_text(v),
{
    let t = seq!['v'] + v;
    lemma_skip_v_shift(v, t, 0);
    assert(skip_v(t, 0) == skip_v(t, 1));
    assert(t.skip(skip_v(t, 0)) =~= v.skip(skip_v(v, 0)));
}

/// How many items of a list are done.
pub open spec fn done_items(todos: Seq<TodoItem>) -> int
    decreases todos.len(),
{
    if todos.len() == 0 {
        0
    } else {
        done_items(todos.drop_last()) + if todos.last().done {
            1int
        } else {
            0int
        }
    }
}

/// How many of how many items are done, where there are any.
pub open spec fn progress(t: Task) -> Option<(int, int)> {
    if t.todos@.len() == 0 {
        None
    } else {
        Some((done_items(t.todos@), t.todos@.len() as int))
    }
}

pub fn todos_progress(t: &Task) -> (r: Option<(usize, usize)>)
    ensures
        match r {
            None => progress(*t) is None,
            Some((d, n)) => progress(*t) == Some((d as int, n as int)) && d <= n,
        },
{
    if t.todos.len() == 0 {
        return None;
    }
    let mut done: usize = 0;
    let mut i: usize = 0;
    while i < t.todos.len()
        invariant
            i <= t.todos@.len(),
            done == done_items(t.todos@.take(i as int)),
            done <= i,
        decreases t.todos@.len() - i,
    {
        if t.todos[i].done {
            done += 1;
        }
        i += 1;
        assert(t.todos@.take(i as int).drop_last() =~= t.todos@.take(i - 1));
        assert(t.todos@.take(i as int).last() == t.todos@[i - 1]);
    }
    assert(t.todos@.take(i as int) =~= t.todos@);
    Some((done, t.todos.len()))
}

// ---------------------------------------------------------------------------
// Agents
// ---------------------------------------------------------------------------

/// The index from `i` on of the session that runs under a tmux name.
pub open spec fn session_at(sessions: Seq<SessionInfo>, tmux: Seq<char>, i: int) -> Option<int>
    decreases sessions.len() - i,
{
    if i >= sessions.len() {
        None
    } else if opt(sessions[i].tmux_session) == Some(tmux) {
        Some(i)
    } else {
        session_at(sessions, tmux, i + 1)
    }
}

fn find_session(sessions: &Vec<SessionInfo>, tmux: &str) -> (r: Option<usize>)
    ensures
        match r {
            None => session_at(sessions@, tmux@, 0) is None,
            Some(k) => session_at(sessions@, tmux@, 0) == Some(k as int) && k < sessions@.len(),
        },
{
    let mut i: usize = 0;
    while i < sessions.len()
        invariant
            i <= sessions@.len(),
            session_at(sessions@, tmux@, 0) == session_at(sessions@, tmux@, i as int),
        decreases sessions@.len() - i,
    {
        match &sessions[i].tmux_session {
            Some(name) => if same(name, tmux) {
                return Some(i);
            },
            None => {},
        }
        i += 1;
    }
    None
}

/// The indices of the sessions of a task: its orchestrator's, then those of
/// its first `n` workers, as far as they run.
pub open spec fn agents_of(t: Task, sessions: Seq<SessionInfo>, n: int) -> Seq<int>
    decreases n,
{
    if n <= 0 {
        match t.orchestrator_tmux {
            Some(name) => match session_at(sessions, name@, 0) {
                Some(k) => seq![k],
                None => Seq::empty(),
            },
            None => Seq::empty(),
        }
    } else {
        let before = agents_of(t, sessions, n - 1);
        match session_at(sessions, t.workers@[n - 1].tmux_name@, 0) {
            Some(k) => before.push(k),
            None => before,
        }
    }
}

/// The sessions of a task.
pub open spec fn task_agents(t: Task, sessions: Seq<SessionInfo>) -> Seq<SessionInfo> {
    agents_of(t, sessions, t.workers@.len() as int).map_values(|k: int| sessions[k])
}

fn collect_agents(t: &Task, sessions: &Vec<SessionInfo>) -> (r: Vec<usize>)
    ensures
        crate::ordering::as_ints(r@) == agents_of(*t, sessions@, t.workers@.len() as int),
        forall|i: int| 0 <= i < r@.len() ==> (#[trigger] r@[i]) < sessions@.len(),
{
    let mut out: Vec<usize> = Vec::new();
    match &t.orchestrator_tmux {
        Some(name) => match find_session(sessions, name) {
            Some(k) => {
                out.push(k);
            },
            None => {},
        },
        None => {},
    }
    assert(crate::ordering::as_ints(out@) =~= agents_of(*t, sessions@, 0));
    let mut i: usize = 0;
    while i < t.workers.len()
        invariant
            i <= t.workers@.len(),
            crate::ordering::as_ints(out@) == agents_of(*t, sessions@, i as int),
            forall|j: int| 0 <= j < out@.len() ==> (#[trigger] out@[j]) < sessions@.len(),
        decreases t.workers@.len() - i,
    {
        let ghost was = out@;
        match find_session(sessions, &t.workers[i].tmux_name) {
            Some(k) => {
                out.push(k);
                assert(crate::ordering::as_ints(out@) =~= crate::ordering::as_ints(was).push(k as int));
            },
            None => {},
        }
        i += 1;
    }
    out
}

/// What the agents of a task are doing, taken together.
#[derive(Debug)]
pub struct AgentSummary {
    pub alive: u64,
    pub processing: u64,
    pub waiting: u64,
    pub idle: u64,
    pub inactive: u64,
    pub total: u64,
    pub total_ctx: u64,
    pub max_ctx: u64,
    /// The largest share of its context window that an agent which is alive
    /// uses, in percent.
    pub max_ctx_pct: u8,
    pub current_tool: Option<(String, Option<String>)>,
    pub is_thinking: bool,
    pub tool_uses: u64,
}

/// How many sessions are in a state of a set.
pub open spec fn count_states(agents: Seq<SessionInfo>, set: Set<SessionState>) -> int
    decreases agents.len(),
{
    if agents.len() == 0 {
        0
    } else {
        count_states(agents.drop_last(), set) + if set.contains(agents.last().state) {
            1int
        } else {
            0int
        }
    }
}

pub open spec fn working() -> Set<SessionState> {
    set![SessionState::Processing]
}

/// Waiting for the user, a question included.
pub open spec fn waiting() -> Set<SessionState> {
    set![SessionState::WaitingForInput, SessionState::Question]
}

pub open spec fn resting() -> Set<SessionState> {
    set![SessionState::Starting, SessionState::Idle]
}

pub open spec fn gone() -> Set<SessionState> {
    set![SessionState::Inactive]
}

/// `a + b` as 64 bits hold it.
pub open spec fn capped(a: int, b: int) -> int {
    at_most(a + b, u64::MAX as int)
}

/// The context of all sessions, their largest one, and the tools they used.
pub open spec fn sum_context(agents: Seq<SessionInfo>) -> int
    decreases agents.len(),
{
    if agents.len() == 0 {
        0
    } else {
        match agents.last().context_tokens {
            Some(c) => capped(sum_context(agents.drop_last()), c as int),
            None => sum_context(agents.drop_last()),
        }
    }
}

pub open spec fn largest_context(agents: Seq<SessionInfo>) -> int
    decreases agents.len(),
{
    if agents.len() == 0 {
        0
    } else {
        match agents.last().context_tokens {
            Some(c) => at_least(largest_context(agents.drop_last()), c as int),
            None => largest_context(agents.drop_last()),
        }
    }
}

/// The share of its context window that a session uses, in percent, cut off
/// and at most 100.
pub open spec fn context_share(s: SessionInfo, c: u64) -> int {
    let window = window_size(crate::models::or_empty(s.model)) as int;
    at_most(at_most(c * 100, u64::MAX as int) / window, 100)
}

/// The share that counts for a session: none where it is gone.
pub open spec fn alive_share(s: SessionInfo) -> int {
    match s.context_tokens {
        Some(c) => if s.state is Inactive {
            0
        } else {
            context_share(s, c)
        },
        None => 0,
    }
}

/// The largest share among the sessions that are alive.
pub open spec fn largest_share(agents: Seq<SessionInfo>) -> int
    decreases agents.len(),
{
    if agents.len() == 0 {
        0
    } else {
        at_least(largest_share(agents.drop_last()), alive_share(agents.last()))
    }
}

pub open spec fn tools_used(agents: Seq<SessionInfo>) -> int
    decreases agents.len(),
{
    if agents.len() == 0 {
        0
    } else {
        capped(tools_used(agents.drop_last()), agents.last().tool_uses_count as int)
    }
}

/// How much a session's activity is worth showing.
pub open spec fn priority(state: SessionState) -> int {
    match state {
        SessionState::Processing => 3,
        SessionState::WaitingForInput | SessionState::Question => 2,
        SessionState::Starting | SessionState::Idle => 1,
        SessionState::Inactive => 0,
    }
}

/// The activity to show: the tool of a session, whether one is thinking, and
/// the priority of what was chosen last.
#[verifier::ext_equal]
pub struct Activity {
    pub tool: Option<(Seq<char>, Option<Seq<char>>)>,
    pub thinking: bool,
    pub priority: int,
}

/// Goes through the sessions in order; one with a higher priority than what
/// was chosen before gives its tool, or else that it is thinking.
pub open spec fn shown_activity(agents: Seq<SessionInfo>) -> Activity
    decreases agents.len(),
{
    if agents.len() == 0 {
        Activity { tool: None, thinking: false, priority: 0 }
    } else {
        let a = shown_activity(agents.drop_last());
        let s = agents.last();
        if priority(s.state) > a.priority {
            match s.current_tool {
                Some(tool) => Activity {
                    tool: Some((tool.name@, opt(tool.hint))),
                    priority: priority(s.state),
                    ..a
                },
                None => if s.is_thinking {
                    Activity { thinking: true, priority: priority(s.state), ..a }
                } else {
                    a
                },
            }
        } else {
            a
        }
    }
}

pub open spec fn tool_view(t: Option<(String, Option<String>)>) -> Option<(Seq<char>, Option<Seq<char>>)> {
    match t {
        None => None,
        Some((name, hint)) => Some((name@, opt(hint))),
    }
}

/// `sum` summarises these sessions.
pub open spec fn summarises(sum: AgentSummary, agents: Seq<SessionInfo>) -> bool {
    &&& sum.total == agents.len()
    &&& sum.processing == count_states(agents, working())
    &&& sum.waiting == count_states(agents, waiting())
    &&& sum.idle == count_states(agents, resting())
    &&& sum.inactive == count_states(agents, gone())
    &&& sum.alive == sum.processing + sum.waiting + sum.idle
    &&& sum.total == sum.alive + sum.inactive
    &&& sum.total_ctx == sum_context(agents)
    &&& sum.max_ctx == largest_context(agents)
    &&& sum.max_ctx_pct == largest_share(agents)
    &&& tool_view(sum.current_tool) == shown_activity(agents).tool
    &&& sum.is_thinking == shown_activity(agents).thinking
    &&& sum.tool_uses == tools_used(agents)
}

fn copy_hint(h: &Option<String>) -> (r: Option<String>)
    ensures
        opt(r) == opt(*h),
{
    match h {
        Some(s) => Some(s.clone()),
        None => None,
    }
}

/// Summarises a task's orchestrator and workers, as far as they run.
pub fn collect_agent_summary(t: &Task, sessions: &Vec<SessionInfo>) -> (r: AgentSummary)
    ensures
        summarises(r, task_agents(*t, sessions@)),
{
    let order = collect_agents(t, sessions);
    let ghost agents = task_agents(*t, sessions@);
    assert(agents.len() == order@.len());
    let mut sum = AgentSummary {
        alive: 0,
        processing: 0,
        waiting: 0,
        idle: 0,
        inactive: 0,
        total: 0,
        total_ctx: 0,
        max_ctx: 0,
        max_ctx_pct: 0,
        current_tool: None,
        is_thinking: false,
        tool_uses: 0,
    };
    let mut chosen: u8 = 0;
    let mut i: usize = 0;
    assert(agents.take(0) =~= Seq::empty());
    while i < order.len()
        invariant
            i <= order@.len(),
            agents == task_agents(*t, sessions@),
            agents.len() == order@.len(),
            crate::ordering::as_ints(order@) == agents_of(*t, sessions@, t.workers@.len() as int),
            forall|j: int| 0 <= j < order@.len() ==> (#[trigger] order@[j]) < sessions@.len(),
            summarises(sum, agents.take(i as int)),
            chosen == shown_activity(agents.take(i as int)).priority,
        decreases order@.len() - i,
    {
        let ghost before = agents.take(i as int);
        let k: usize = order[i];
        assert(crate::ordering::as_ints(order@)[i as int] == k);
        let s = &sessions[k];
        assert(agents[i as int] == *s);
        assert(agents.take(i + 1).drop_last() =~= before);
        assert(agents.take(i + 1).last() == *s);
        sum.total = sum.total + 1;
        match s.state {
            SessionState::Processing => {
                sum.processing = sum.processing + 1;
                sum.alive = sum.alive + 1;
            },
            SessionState::WaitingForInput | SessionState::Question => {
                sum.waiting = sum.waiting + 1;
                sum.alive = sum.alive + 1;
            },
            SessionState::Starting | SessionState::Idle => {
                sum.idle = sum.idle + 1;
                sum.alive = sum.alive + 1;
            },
            SessionState::Inactive => {
                sum.inactive = sum.inactive + 1;
            },
        }
        match s.context_tokens {
            Some(c) => {
                sum.total_ctx = sum.total_ctx.saturating_add(c);
                if c > sum.max_ctx {
                    sum.max_ctx = c;
                }
                let model = crate::models::or_empty_of(&s.model);
                let window: u64 = context_window_size(&model);
                let hundredfold: u64 = if c <= u64::MAX / 100 {
                    c * 100
                } else {
                    u64::MAX
                };
                let share: u64 = hundredfold / window;
                let pct: u8 = if share < 100 {
                    share as u8
                } else {
                    100
                };
                assert(pct == context_share(*s, c));
                let alive = match s.state {
                    SessionState::Inactive => false,
                    _ => true,
                };
                if alive && pct > sum.max_ctx_pct {
                    sum.max_ctx_pct = pct;
                }
            },
            None => {},
        }
        sum.tool_uses = sum.tool_uses.saturating_add(s.tool_uses_count);
        let pri: u8 = match s.state {
            SessionState::Processing => 3,
            SessionState::WaitingForInput | SessionState::Question => 2,
            SessionState::Starting | SessionState::Idle => 1,
            SessionState::Inactive => 0,
        };
        if pri > chosen {
            match &s.current_tool {
                Some(tool) => {
                    sum.current_tool = Some((tool.name.clone(), copy_hint(&tool.hint)));
                    chosen = pri;
                },
                None => if s.is_thinking {
                    sum.is_thinking = true;
                    chosen = pri;
                },
            }
        }
        i += 1;
    }
    assert(agents.take(i as int) =~= agents);
    sum
}

/// The tool uses of a task's agents alone.
pub fn sum_tool_uses(t: &Task, sessions: &Vec<SessionInfo>) -> (r: u64)
    ensures
        r == tools_used(task_agents(*t, sessions@)),
{
    let order = collect_agents(t, sessions);
    let ghost agents = task_agents(*t, sessions@);
    assert(agents.len() == order@.len());
    let mut sum: u64 = 0;
    let mut i: usize = 0;
    assert(agents.take(0) =~= Seq::empty());
    while i < order.len()
        invariant
            i <= order@.len(),
            agents == task_agents(*t, sessions@),
            agents.len() == order@.len(),
            crate::ordering::as_ints(order@) == agents_of(*t, sessions@, t.workers@.len() as int),
            forall|j: int| 0 <= j < order@.len() ==> (#[trigger] order@[j]) < sessions@.len(),
            sum == tools_used(agents.take(i as int)),
        decreases order@.len() - i,
    {
        let k: usize = order[i];
        assert(crate::ordering::as_ints(order@)[i as int] == k);
        assert(agents[i as int] == sessions@[k as int]);
        sum = sum.saturating_add(sessions[k].tool_uses_count);
        i += 1;
        assert(agents.take(i as int).drop_last() =~= agents.take(i - 1));
        assert(agents.take(i as int).last() == agents[i - 1]);
    }
    assert(agents.take(i as int) =~= agents);
    sum
}

/// The summary and the cheap count agree on tool uses.
pub proof fn summary_counts_tool_uses(t: Task, sessions: Seq<SessionInfo>, sum: AgentSummary)
    requires
        summarises(sum, task_agents(t, sessions)),
    ensures
        sum.tool_uses == tools_used(task_agents(t, sessions)),
        sum.max_ctx_pct <= 100,
        sum.max_ctx <= sum.total_ctx,
{
    lemma_share_at_most_100(task_agents(t, sessions));
    lemma_context_bounds(task_agents(t, sessions));
}

/// The share is the worst one among the agents that are alive: each of them
/// uses no more, and it is zero or one of them uses that much.
pub proof fn worst_share_of_the_living(agents: Seq<SessionInfo>)
    ensures
        forall|i: int| 0 <= i < agents.len() ==> alive_share(#[trigger] agents[i]) <= largest_share(agents),
        largest_share(agents) == 0 || exists|i: int|
            0 <= i < agents.len() && !((#[trigger] agents[i]).state is Inactive) && alive_share(agents[i])
                == largest_share(agents),
        (forall|i: int| 0 <= i < agents.len() ==> (#[trigger] agents[i]).state is Inactive)
            ==> largest_share(agents) == 0,
    decreases agents.len(),
{
    if agents.len() > 0 {
        let before = agents.drop_last();
        worst_share_of_the_living(before);
        assert forall|i: int| 0 <= i < agents.len() implies alive_share(#[trigger] agents[i])
            <= largest_share(agents) by {
            if i < before.len() {
                assert(before[i] == agents[i]);
            }
        }
        if largest_share(agents) != 0 {
            if largest_share(agents) == largest_share(before) {
                let i = choose|i: int|
                    0 <= i < before.len() && !((#[trigger] before[i]).state is Inactive) && alive_share(
                        before[i],
                    ) == largest_share(before);
                assert(agents[i] == before[i]);
            } else {
                assert(alive_share(agents[agents.len() - 1]) == largest_share(agents));
            }
        }
        if forall|i: int| 0 <= i < agents.len() ==> (#[trigger] agents[i]).state is Inactive {
            assert forall|i: int| 0 <= i < before.len() implies (#[trigger] before[i]).state is Inactive by {
                assert(agents[i] == before[i]);
            }
            assert(agents[agents.len() - 1].state is Inactive);
        }
    }
}

proof fn lemma_share_at_most_100(agents: Seq<SessionInfo>)
    ensures
        0 <= largest_share(agents) <= 100,
    decreases agents.len(),
{
    if agents.len() > 0 {
        lemma_share_at_most_100(agents.drop_last());
    }
}

proof fn lemma_context_bounds(agents: Seq<SessionInfo>)
    ensures
        0 <= largest_context(agents) <= sum_context(agents) <= u64::MAX,
    decreases agents.len(),
{
    if agents.len() > 0 {
        lemma_context_bounds(agents.drop_last());
    }
}

// ---------------------------------------------------------------------------
// Spans
// ---------------------------------------------------------------------------

/// `n` equal dots.
pub open spec fn dots(n: int, glyph: Seq<char>, c: Color) -> Seq<SpanView> {
    Seq::new(at_least(n, 0) as nat, |i: int| crate::style::sp(glyph, fg(c)))
}

fn build_dots(n: usize, glyph: &str, c: Color) -> (r: Line)
    ensures
        r@ == dots(n as int, glyph@, c),
{
    let mut l = Line::empty();
    let mut i: usize = 0;
    assert(l@ =~= dots(0, glyph@, c));
    while i < n
        invariant
            i <= n,
            l@ == dots(i as int, glyph@, c),
        decreases n - i,
    {
        l.put(glyph, fg(c));
        i += 1;
        assert(l@ =~= dots(i as int, glyph@, c));
    }
    l
}

/// One dot for each agent, the busy ones first, twelve at most, then the
/// number of those that have no dot.
pub open spec fn dot_strip(s: AgentSummary) -> Seq<SpanView> {
    let shown = at_most(s.total as int, 12);
    let p = at_most(s.processing as int, shown);
    let w = at_most(s.waiting as int, shown - p);
    let i = at_most(s.idle as int, shown - p - w);
    let g = at_most(s.inactive as int, shown - p - w - i);
    dots(p, "▶"@, Color::LightGreen) + dots(w, "●"@, Color::LightYellow) + dots(
        i,
        "○"@,
        dot_idle(),
    ) + dots(g, "·"@, Color::Rgb(80, 80, 95)) + if s.total > 12 {
        ln(" +"@ + dec((s.total - 12) as nat), fg(dot_idle()))
    } else {
        blank()
    }
}

fn smaller(a: u64, b: usize) -> (r: usize)
    ensures
        r == at_most(a as int, b as int),
{
    if a < b as u64 {
        a as usize
    } else {
        b
    }
}

pub fn agent_dot_strip(s: &AgentSummary) -> (r: Line)
    ensures
        r@ == dot_strip(*s),
{
    let shown: usize = smaller(s.total, 12);
    let p: usize = smaller(s.processing, shown);
    let w: usize = smaller(s.waiting, shown - p);
    let i: usize = smaller(s.idle, shown - p - w);
    let g: usize = smaller(s.inactive, shown - p - w - i);
    let mut l = build_dots(p, "▶", Color::LightGreen);
    l.join(build_dots(w, "●", Color::LightYellow));
    l.join(build_dots(i, "○", dot_idle()));
    l.join(build_dots(g, "·", Color::Rgb(80, 80, 95)));
    let tail = if s.total > 12 {
        Line::of(&cat2(" +", &text_dec(s.total - 12)), fg(dot_idle()))
    } else {
        Line::empty()
    };
    l.join(tail);
    l
}

/// A summary of sessions shows a dot for every agent, up to twelve.
pub proof fn dot_strip_shows_all(s: AgentSummary, agents: Seq<SessionInfo>)
    requires
        summarises(s, agents),
    ensures
        s.total <= 12 ==> dot_strip(s).len() == s.total,
        s.total > 12 ==> dot_strip(s).len() == 13,
{
}

/// A worker whose worktree was merged.
pub open spec fn was_merged(w: Worker, t: Task) -> bool {
    exists|i: int|
        0 <= i < t.merges@.len() && opt(w.worktree) == Some((#[trigger] t.merges@[i]).worktree@)
            && t.merges@[i].outcome is Merged
}

pub fn worker_was_merged(w: &Worker, t: &Task) -> (r: bool)
    ensures
        r == was_merged(*w, *t),
{
    let name = match &w.worktree {
        Some(n) => n,
        None => {
            return false;
        },
    };
    let mut i: usize = 0;
    while i < t.merges.len()
        invariant
            i <= t.merges@.len(),
            opt(w.worktree) == Some(name@),
            forall|j: int|
                0 <= j < i ==> !(name@ == (#[trigger] t.merges@[j]).worktree@
                    && t.merges@[j].outcome is Merged),
        decreases t.merges@.len() - i,
    {
        let merged = match t.merges[i].outcome {
            MergeOutcome::Merged => true,
            MergeOutcome::Failed => false,
        };
        if merged && same(name, &t.merges[i].worktree) {
            return true;
        }
        i += 1;
    }
    false
}

/// How many of the first `n` workers were merged.
pub open spec fn merged_workers(t: Task, n: int) -> int
    decreases n,
{
    if n <= 0 {
        0
    } else {
        merged_workers(t, n - 1) + if was_merged(t.workers@[n - 1], t) {
            1int
        } else {
            0int
        }
    }
}

pub fn count_merged(t: &Task) -> (r: usize)
    ensures
        r == merged_workers(*t, t.workers@.len() as int),
        r <= t.workers@.len(),
{
    let mut c: usize = 0;
    let mut i: usize = 0;
    while i < t.workers.len()
        invariant
            i <= t.workers@.len(),
            c == merged_workers(*t, i as int),
            c <= i,
        decreases t.workers@.len() - i,
    {
        if worker_was_merged(&t.workers[i], t) {
            c += 1;
        }
        i += 1;
    }
    c
}

/// How many of `shown` segments stand for `merged` of `total` workers,
/// rounded to the nearest.
pub open spec fn merged_segments(merged: int, total: int, shown: int) -> int {
    (merged * shown + total / 2) / total
}

/// Merge progress: a full segment for each merged worker and an empty one for
/// each other, eight at most, then the numbers.
pub open spec fn merge_progress(t: Task) -> Seq<SpanView> {
    let total = t.workers@.len() as int;
    let merged = merged_workers(t, total);
    let shown = at_most(total, 8);
    if total == 0 {
        ln("merges —"@, fg(dim_text()))
    } else {
        let full = merged_segments(merged, total, shown);
        ln("merges "@, fg(label_gray())) + dots(at_most(full, shown), "▰"@, Color::LightGreen) + dots(
            shown - full,
            "▱"@,
            Color::Rgb(90, 90, 110),
        ) + ln(" "@ + dec(merged as nat) + "/"@ + dec(total as nat), fg(label_gray()))
    }
}

pub fn merge_progress_spans(t: &Task) -> (r: Line)
    ensures
        r@ == merge_progress(*t),
{
    let total: usize = t.workers.len();
    if total == 0 {
        return Line::of("merges —", fg(dim_text()));
    }
    let merged: usize = count_merged(t);
    let shown: usize = if total < 8 {
        total
    } else {
        8
    };
    proof {
        lemma_segments(merged as int, total as int, shown as int);
        assert(0 <= merged * shown <= merged * 8) by (nonlinear_arith)
            requires
                0 <= merged,
                0 <= shown <= 8,
        ;
    }
    let full: u128 = (merged as u128 * shown as u128 + total as u128 / 2) / total as u128;
    let full: usize = full as usize;
    let mut l = Line::of("merges ", fg(label_gray()));
    l.join(build_dots(full, "▰", Color::LightGreen));
    l.join(build_dots(shown - full, "▱", Color::Rgb(90, 90, 110)));
    l.put(&cat4(" ", &text_count(merged), "/", &text_count(total)), fg(label_gray()));
    l
}

proof fn lemma_segments(merged: int, total: int, shown: int)
    requires
        0 <= merged <= total,
        0 < total,
        0 <= shown,
    ensures
        0 <= merged_segments(merged, total, shown) <= shown,
        merged == total ==> merged_segments(merged, total, shown) == shown,
        merged == 0 ==> merged_segments(merged, total, shown) == 0,
{
    let n = merged * shown + total / 2;
    assert(0 <= merged * shown <= total * shown) by (nonlinear_arith)
        requires
            0 <= merged <= total,
            0 <= shown,
    ;
    assert(total * shown + total / 2 < total * (shown + 1)) by (nonlinear_arith)
        requires
            total > 0,
    ;
    assert(n / total < shown + 1) by (nonlinear_arith)
        requires
            n < total * (shown + 1),
            total > 0,
    ;
    assert(n / total >= 0) by (nonlinear_arith)
        requires
            n >= 0,
            total > 0,
    ;
    if merged == total {
        assert(n / total >= shown) by (nonlinear_arith)
            requires
                n >= total * shown,
                total > 0,
        ;
    }
    if merged == 0 {
        assert(0 * shown == 0);
        assert(n / total == 0) by (nonlinear_arith)
            requires
                n == total / 2,
                total > 0,
        ;
    }
}

/// Merge progress always has as many segments as workers, up to eight; all
/// are full when every worker was merged and none when no worker was.
pub proof fn merge_progress_segments(t: Task)
    requires
        t.workers@.len() > 0,
    ensures
        merge_progress(t).len() == at_most(t.workers@.len() as int, 8) + 2,
        merged_workers(t, t.workers@.len() as int) == t.workers@.len() ==> merged_segments(
            merged_workers(t, t.workers@.len() as int),
            t.workers@.len() as int,
            at_most(t.workers@.len() as int, 8),
        ) == at_most(t.workers@.len() as int, 8),
        merged_workers(t, t.workers@.len() as int) == 0 ==> merged_segments(
            0,
            t.workers@.len() as int,
            at_most(t.workers@.len() as int, 8),
        ) == 0,
{
    let total = t.workers@.len() as int;
    lemma_merged_bounds(t, total);
    lemma_segments(merged_workers(t, total), total, at_most(total, 8));
}

proof fn lemma_merged_bounds(t: Task, n: int)
    requires
        0 <= n,
    ensures
        0 <= merged_workers(t, n) <= n,
    decreases n,
{
    if n > 0 {
        lemma_merged_bounds(t, n - 1);
    }
}

/// How many comments a pull request has, where it has any.
pub open spec fn comments_span(n: u16, c: Color) -> Seq<SpanView> {
    if n > 0 {
        ln(" · 󰭹 "@ + dec(n as nat), fg(c))
    } else {
        blank()
    }
}

fn build_comments(n: u16, c: Color) -> (r: Line)
    ensures
        r@ == comments_span(n, c),
{
    if n > 0 {
        Line::of(&cat2(" · 󰭹 ", &text_dec(n as u64)), fg(c))
    } else {
        Line::empty()
    }
}

/// The state of a pull request's review. Requested changes are loud, an open
/// one is calm and shows its comments instead where it has any.
pub open spec fn review_spans(pr: PrCardSummary) -> Seq<SpanView> {
    match pr.review_state {
        ReviewState::ChangesRequested => ln(
            " · changes requested"@,
            fg(Color::Rgb(230, 150, 110)).bold(),
        ) + comments_span(pr.comments, faint_text()),
        ReviewState::Open => if pr.comments > 0 {
            comments_span(pr.comments, accent_blue())
        } else {
            ln(" · open"@, fg(Color::Rgb(150, 170, 200)))
        },
        ReviewState::Approved => ln(" · approved"@, fg(Color::LightGreen)) + comments_span(
            pr.comments,
            faint_text(),
        ),
        ReviewState::Merged => ln(" · merged"@, fg(Color::Rgb(140, 160, 145))),
        ReviewState::Closed => ln(" · closed"@, fg(meta_gray())),
    }
}

pub open spec fn pr_badge(pr: PrCardSummary) -> Seq<SpanView> {
    ln("󰊢 PR #"@ + dec(pr.id as nat), fg(Color::Rgb(150, 170, 200))) + review_spans(pr)
}

pub fn pr_badge_spans(pr: &PrCardSummary) -> (r: Line)
    ensures
        r@ == pr_badge(*pr),
{
    let mut l = Line::of(&cat2("󰊢 PR #", &text_dec(pr.id as u64)), fg(Color::Rgb(150, 170, 200)));
    let review = match pr.review_state {
        ReviewState::ChangesRequested => {
            let mut m = Line::of(" · changes requested", fg(Color::Rgb(230, 150, 110)).bold());
            m.join(build_comments(pr.comments, faint_text()));
            m
        },
        ReviewState::Open => if pr.comments > 0 {
            build_comments(pr.comments, accent_blue())
        } else {
            Line::of(" · open", fg(Color::Rgb(150, 170, 200)))
        },
        ReviewState::Approved => {
            let mut m = Line::of(" · approved", fg(Color::LightGreen));
            m.join(build_comments(pr.comments, faint_text()));
            m
        },
        ReviewState::Merged => Line::of(" · merged", fg(Color::Rgb(140, 160, 145))),
        ReviewState::Closed => Line::of(" · closed", fg(meta_gray())),
    };
    l.join(review);
    l
}

// ---------------------------------------------------------------------------
// What is counted, and how it is shown
// ---------------------------------------------------------------------------

/// Nobody at work makes a summary of nothing.
pub proof fn nobody_is_summed_up(sum: AgentSummary)
    requires
        summarises(sum, Seq::empty()),
    ensures
        sum.total == 0 && sum.alive == 0 && sum.processing == 0 && sum.waiting == 0 && sum.idle == 0
            && sum.inactive == 0,
        sum.total_ctx == 0 && sum.max_ctx == 0 && sum.max_ctx_pct == 0 && sum.tool_uses == 0,
        sum.current_tool is None && !sum.is_thinking,
{
}

/// One more agent counts once, by its state: as processing, as waiting where it
/// waits or asks, as idle where it starts or is idle, as inactive where it is gone;
/// alive unless it is gone. Its context and its tool uses are added, and the largest
/// context and the largest share of an agent that is alive are kept.
pub proof fn one_more_agent_counts_once(
    agents: Seq<SessionInfo>,
    s: SessionInfo,
    before: AgentSummary,
    after: AgentSummary,
)
    requires
        summarises(before, agents),
        summarises(after, agents.push(s)),
    ensures
        after.total == before.total + 1,
        after.processing == before.processing + if s.state == SessionState::Processing {
            1int
        } else {
            0int
        },
        after.waiting == before.waiting + if s.state == SessionState::WaitingForInput || s.state
            == SessionState::Question {
            1int
        } else {
            0int
        },
        after.idle == before.idle + if s.state == SessionState::Starting || s.state == SessionState::Idle {
            1int
        } else {
            0int
        },
        after.inactive == before.inactive + if s.state == SessionState::Inactive {
            1int
        } else {
            0int
        },
        after.alive == before.alive + if s.state == SessionState::Inactive {
            0int
        } else {
            1int
        },
        s.context_tokens is None ==> after.total_ctx == before.total_ctx && after.max_ctx == before.max_ctx
            && after.max_ctx_pct == before.max_ctx_pct,
        s.context_tokens matches Some(c) ==> after.total_ctx == at_most(before.total_ctx + c, u64::MAX as int)
            && after.max_ctx == at_least(before.max_ctx as int, c as int),
        s.context_tokens matches Some(c) ==> s.state == SessionState::Inactive ==> after.max_ctx_pct
            == before.max_ctx_pct,
        s.context_tokens matches Some(c) ==> s.state != SessionState::Inactive && c * 100 <= u64::MAX
            ==> after.max_ctx_pct == at_least(
            before.max_ctx_pct as int,
            at_most(c * 100 / window_size(crate::models::or_empty(s.model)) as int, 100),
        ),
        after.tool_uses == at_most(before.tool_uses + s.tool_uses_count, u64::MAX as int),
{
    assert(agents.push(s).drop_last() =~= agents);
}

proof fn lemma_activity_priority(agents: Seq<SessionInfo>)
    ensures
        0 <= shown_activity(agents).priority <= 3,
        shown_activity(agents).priority == 3 ==> exists|i: int|
            0 <= i < agents.len() && (#[trigger] agents[i]).state == SessionState::Processing,
    decreases agents.len(),
{
    if agents.len() > 0 {
        let front = agents.drop_last();
        lemma_activity_priority(front);
        let last = agents[agents.len() - 1];
        assert(agents.last() == last);
        if shown_activity(front).priority == 3 {
            let i = choose|i: int| 0 <= i < front.len() && (#[trigger] front[i]).state == SessionState::Processing;
            assert(agents[i] == front[i]);
        }
    }
}

proof fn lemma_activity_keeps(agents: Seq<SessionInfo>, more: Seq<SessionInfo>)
    requires
        shown_activity(agents).priority == 3,
    ensures
        shown_activity(agents + more) == shown_activity(agents),
    decreases more.len(),
{
    if more.len() == 0 {
        assert(agents + more =~= agents);
    } else {
        lemma_activity_keeps(agents, more.drop_last());
        assert((agents + more).drop_last() =~= agents + more.drop_last());
        lemma_activity_priority(agents + more.drop_last());
    }
}

/// The tool that is shown is that of the first agent at work that uses one: no idle,
/// waiting or gone agent hides it.
pub proof fn first_tool_at_work_is_shown(
    before: Seq<SessionInfo>,
    s: SessionInfo,
    behind: Seq<SessionInfo>,
    sum: AgentSummary,
)
    requires
        summarises(sum, before.push(s) + behind),
        s.state == SessionState::Processing,
        s.current_tool is Some,
        forall|i: int| 0 <= i < before.len() ==> (#[trigger] before[i]).state != SessionState::Processing,
    ensures
        sum.current_tool matches Some((name, hint)) && name@ == s.current_tool->Some_0.name@ && opt(hint) == opt(
            s.current_tool->Some_0.hint,
        ),
{
    let all = before.push(s);
    assert(all.drop_last() =~= before);
    assert(all.last() == s);
    lemma_activity_priority(before);
    assert(shown_activity(before).priority < 3);
    assert(shown_activity(all).priority == 3);
    lemma_activity_keeps(all, behind);
}

/// An agent is among those of a task where it runs for the orchestrator or for a
/// worker of the task, and nowhere else.
pub proof fn agents_are_the_tasks_own(t: Task, sessions: Seq<SessionInfo>, s: SessionInfo)
    requires
        task_agents(t, sessions).contains(s),
    ensures
        sessions.contains(s),
        s.tmux_session matches Some(name) && (t.orchestrator_tmux matches Some(o) && o@ == name@) || (exists|w: int|
            0 <= w < t.workers@.len() && opt(s.tmux_session) == Some((#[trigger] t.workers@[w]).tmux_name@)),
{
    lemma_agents_are_own(t, sessions, t.workers@.len() as int);
    let at = agents_of(t, sessions, t.workers@.len() as int);
    let k = choose|k: int| 0 <= k < task_agents(t, sessions).len() && task_agents(t, sessions)[k] == s;
    assert(task_agents(t, sessions)[k] == sessions[at[k]]);
    assert(sessions.contains(sessions[at[k]]));
}

proof fn lemma_session_at(sessions: Seq<SessionInfo>, tmux: Seq<char>, i: int)
    requires
        0 <= i,
    ensures
        session_at(sessions, tmux, i) matches Some(k) ==> i <= k < sessions.len() && opt(sessions[k].tmux_session)
            == Some(tmux),
        (exists|k: int| i <= k < sessions.len() && opt((#[trigger] sessions[k]).tmux_session) == Some(tmux))
            ==> session_at(sessions, tmux, i) is Some,
    decreases sessions.len() - i,
{
    if i < sessions.len() && opt(sessions[i].tmux_session) != Some(tmux) {
        lemma_session_at(sessions, tmux, i + 1);
    }
}

proof fn lemma_agents_are_own(t: Task, sessions: Seq<SessionInfo>, n: int)
    requires
        0 <= n <= t.workers@.len(),
    ensures
        forall|k: int| 0 <= k < agents_of(t, sessions, n).len() ==> {
            let i = #[trigger] agents_of(t, sessions, n)[k];
            &&& 0 <= i < sessions.len()
            &&& (t.orchestrator_tmux matches Some(o) && opt(sessions[i].tmux_session) == Some(o@)) || (exists|w: int|
                0 <= w < t.workers@.len() && opt(sessions[i].tmux_session) == Some(
                    (#[trigger] t.workers@[w]).tmux_name@,
                ))
        },
    decreases n,
{
    if n > 0 {
        lemma_agents_are_own(t, sessions, n - 1);
        lemma_session_at(sessions, t.workers@[n - 1].tmux_name@, 0);
        let before = agents_of(t, sessions, n - 1);
        let all = agents_of(t, sessions, n);
        assert(forall|k: int| 0 <= k < before.len() ==> all[k] == before[k]);
    } else {
        match t.orchestrator_tmux {
            Some(name) => lemma_session_at(sessions, name@, 0),
            None => {},
        }
    }
}

proof fn lemma_workers_run(t: Task, sessions: Seq<SessionInfo>, n: int, w: int)
    requires
        0 <= w < n <= t.workers@.len(),
        session_at(sessions, t.workers@[w].tmux_name@, 0) is Some,
    ensures
        agents_of(t, sessions, n).contains(session_at(sessions, t.workers@[w].tmux_name@, 0)->Some_0),
    decreases n,
{
    let all = agents_of(t, sessions, n);
    let k = session_at(sessions, t.workers@[w].tmux_name@, 0)->Some_0;
    if w == n - 1 {
        assert(all[all.len() - 1] == k);
    } else {
        lemma_workers_run(t, sessions, n - 1, w);
        let before = agents_of(t, sessions, n - 1);
        let i = choose|i: int| 0 <= i < before.len() && before[i] == k;
        assert(all[i] == k);
    }
}

/// Every worker whose session runs has it among the agents of its task.
pub proof fn running_workers_are_agents(t: Task, sessions: Seq<SessionInfo>, w: int, k: int)
    requires
        0 <= w < t.workers@.len(),
        0 <= k < sessions.len(),
        opt(sessions[k].tmux_session) == Some(t.workers@[w].tmux_name@),
    ensures
        exists|j: int|
            0 <= j < task_agents(t, sessions).len() && opt((#[trigger] task_agents(t, sessions)[j]).tmux_session)
                == Some(t.workers@[w].tmux_name@),
{
    let name = t.workers@[w].tmux_name@;
    lemma_session_at(sessions, name, 0);
    lemma_workers_run(t, sessions, t.workers@.len() as int, w);
    let at = agents_of(t, sessions, t.workers@.len() as int);
    let i = session_at(sessions, name, 0)->Some_0;
    let j = choose|j: int| 0 <= j < at.len() && at[j] == i;
    assert(task_agents(t, sessions)[j] == sessions[i]);
}

/// Up to twelve agents have a dot each: first those that process, then those that
/// wait, then those that are idle, last those that are gone.
pub proof fn dots_tell_states(s: AgentSummary, agents: Seq<SessionInfo>, i: int)
    requires
        summarises(s, agents),
        s.total <= 12,
        0 <= i < s.total,
    ensures
        ({
            let d = dot_strip(s)[i];
            &&& i < s.processing ==> d.text == "▶"@ && d.style.fg == Some(Color::LightGreen)
            &&& s.processing <= i < s.processing + s.waiting ==> d.text == "●"@ && d.style.fg == Some(
                Color::LightYellow,
            )
            &&& s.processing + s.waiting <= i < s.processing + s.waiting + s.idle ==> d.text == "○"@
            &&& s.processing + s.waiting + s.idle <= i ==> d.text == "·"@
        }),
{
}

/// Beyond twelve agents the strip ends with how many have no dot.
pub proof fn dots_count_the_rest(s: AgentSummary, agents: Seq<SessionInfo>)
    requires
        summarises(s, agents),
        s.total > 12,
    ensures
        dot_strip(s).last().text == " +"@ + dec((s.total - 12) as nat),
{
}

/// The merges end with how many of how many workers were merged, and a worker counts
/// where one of the task's merges of its worktree went well.
pub proof fn merges_are_counted(t: Task)
    requires
        t.workers@.len() > 0,
    ensures
        merge_progress(t).last().text == " "@ + dec(merged_workers(t, t.workers@.len() as int) as nat) + "/"@ + dec(
            t.workers@.len(),
        ),
        merge_progress(t)[0].text == "merges "@,
        forall|k: int|
            0 < k < merge_progress(t).len() - 1 ==> (#[trigger] merge_progress(t)[k]).text == "▰"@
                || merge_progress(t)[k].text == "▱"@,
{
    merge_progress_segments(t);
}

/// Among the first workers, one more counts where its worktree has a merge that went
/// well, and else not.
pub proof fn one_more_merge(t: Task, n: int)
    requires
        0 <= n < t.workers@.len(),
    ensures
        merged_workers(t, 0) == 0,
        merged_workers(t, n + 1) == merged_workers(t, n) + if exists|i: int|
            0 <= i < t.merges@.len() && t.workers@[n].worktree is Some && t.workers@[n].worktree->Some_0@
                == (#[trigger] t.merges@[i]).worktree@ && t.merges@[i].outcome == MergeOutcome::Merged {
            1int
        } else {
            0int
        },
{
    let w = t.workers@[n];
    if was_merged(w, t) {
        let i = choose|i: int|
            0 <= i < t.merges@.len() && opt(w.worktree) == Some((#[trigger] t.merges@[i]).worktree@)
                && t.merges@[i].outcome is Merged;
        assert(w.worktree is Some && w.worktree->Some_0@ == t.merges@[i].worktree@);
    }
}

/// One more to-do counts among all of them, and among those done where it is done.
pub proof fn one_more_todo(a: Task, b: Task, item: TodoItem)
    requires
        b.todos@ == a.todos@.push(item),
    ensures
        progress(b) matches Some((done, total)) && total == a.todos@.len() + 1 && done == (match progress(a) {
            Some((d, n)) => d,
            None => 0,
        }) + if item.done {
            1int
        } else {
            0int
        },
        progress(a) is None <==> a.todos@.len() == 0,
{
    assert(b.todos@.drop_last() =~= a.todos@);
}

/// What a pull request's badge says: its number, then how its review stands, and how
/// many comments it has unless it is merged or closed.
pub proof fn badges_tell_the_review(pr: PrCardSummary)
    ensures
        ({
            let comments = if pr.comments > 0 {
                " · 󰭹 "@ + dec(pr.comments as nat)
            } else {
                Seq::empty()
            };
            let said = match pr.review_state {
                ReviewState::ChangesRequested => " · changes requested"@ + comments,
                ReviewState::Open => if pr.comments > 0 {
                    comments
                } else {
                    " · open"@
                },
                ReviewState::Approved => " · approved"@ + comments,
                ReviewState::Merged => " · merged"@,
                ReviewState::Closed => " · closed"@,
            };
            line_text(pr_badge(pr)) == "󰊢 PR #"@ + dec(pr.id as nat) + said
        }),
{
    broadcast use {crate::style::joined_line_text, crate::style::span_line_text, crate::style::blank_line_text};

}

/// A version without a `v` before it gets one.
pub proof fn versions_have_one_v(v: Seq<char>)
    requires
        v.len() > 0 ==> v[0] != 'v',
    ensures
        line_text(version_span(v)) == "v"@ + v,
{
    broadcast use crate::style::span_line_text;

    assert(v.skip(0) =~= v);
}

/// Agents that are gone show nothing of what they did.
pub proof fn gone_agents_show_nothing(agents: Seq<SessionInfo>, sum: AgentSummary)
    requires
        summarises(sum, agents),
        forall|i: int| 0 <= i < agents.len() ==> (#[trigger] agents[i]).state == SessionState::Inactive,
    ensures
        sum.current_tool is None && !sum.is_thinking && sum.alive == 0 && sum.max_ctx_pct == 0,
    decreases agents.len(),
{
    lemma_quiet(agents);
}

proof fn lemma_quiet(agents: Seq<SessionInfo>)
    requires
        forall|i: int| 0 <= i < agents.len() ==> (#[trigger] agents[i]).state == SessionState::Inactive,
    ensures
        shown_activity(agents) == (Activity { tool: None, thinking: false, priority: 0 }),
        largest_share(agents) == 0,
        count_states(agents, working()) == 0,
        count_states(agents, waiting()) == 0,
        count_states(agents, resting()) == 0,
    decreases agents.len(),
{
    if agents.len() > 0 {
        let front = agents.drop_last();
        assert(forall|i: int| 0 <= i < front.len() ==> #[trigger] front[i] == agents[i]);
        lemma_quiet(front);
        assert(agents.last() == agents[agents.len() - 1]);
    }
}

proof fn lemma_activity_bound(agents: Seq<SessionInfo>, most: int)
    requires
        0 <= most,
        forall|i: int| 0 <= i < agents.len() ==> priority((#[trigger] agents[i]).state) <= most,
    ensures
        shown_activity(agents).priority <= most,
    decreases agents.len(),
{
    if agents.len() > 0 {
        let front = agents.drop_last();
        assert(forall|i: int| 0 <= i < front.len() ==> #[trigger] front[i] == agents[i]);
        lemma_activity_bound(front, most);
        assert(agents.last() == agents[agents.len() - 1]);
    }
}

/// An agent that waits or asks shows its tool before those that start, are idle or
/// are gone; one that starts or is idle before those that are gone.
pub proof fn busier_agents_are_shown(agents: Seq<SessionInfo>, s: SessionInfo, sum: AgentSummary)
    requires
        summarises(sum, agents.push(s)),
        s.current_tool is Some,
        s.state == SessionState::WaitingForInput || s.state == SessionState::Question || s.state
            == SessionState::Starting || s.state == SessionState::Idle,
        forall|i: int|
            0 <= i < agents.len() ==> (#[trigger] agents[i]).state == SessionState::Inactive || ((s.state
                == SessionState::WaitingForInput || s.state == SessionState::Question) && (agents[i].state
                == SessionState::Starting || agents[i].state == SessionState::Idle)),
    ensures
        sum.current_tool matches Some((name, hint)) && name@ == s.current_tool->Some_0.name@ && opt(hint) == opt(
            s.current_tool->Some_0.hint,
        ),
{
    assert(agents.push(s).drop_last() =~= agents);
    lemma_activity_bound(agents, priority(s.state) - 1);
}

/// An agent at work that uses no tool but thinks shows that it does, where nobody
/// before it is at work.
pub proof fn thoughts_are_shown(agents: Seq<SessionInfo>, s: SessionInfo, sum: AgentSummary)
    requires
        summarises(sum, agents.push(s)),
        s.state == SessionState::Processing,
        s.current_tool is None,
        s.is_thinking,
        forall|i: int| 0 <= i < agents.len() ==> (#[trigger] agents[i]).state != SessionState::Processing,
    ensures
        sum.is_thinking,
{
    assert(agents.push(s).drop_last() =~= agents);
    lemma_activity_bound(agents, 2);
}

/// Where no worker is merged all segments are empty, and where all are all are full.
pub proof fn segments_tell_the_merges(t: Task, k: int)
    requires
        t.workers@.len() > 0,
        0 < k < merge_progress(t).len() - 1,
    ensures
        merge_progress(t).len() - 2 == if t.workers@.len() > 8 {
            8
        } else {
            t.workers@.len() as int
        },
        merged_workers(t, t.workers@.len() as int) == 0 ==> merge_progress(t)[k].text == "▱"@,
        merged_workers(t, t.workers@.len() as int) == t.workers@.len() ==> merge_progress(t)[k].text == "▰"@,
        t.workers@.len() <= 8 ==> merge_progress(t)[k].text == if k <= merged_workers(
            t,
            t.workers@.len() as int,
        ) {
            "▰"@
        } else {
            "▱"@
        },
{
    let total = t.workers@.len() as int;
    let shown = at_most(total, 8);
    let merged = merged_workers(t, total);
    merge_progress_segments(t);
    if merged == 0 {
        assert((0 * shown + total / 2) / total == 0) by (nonlinear_arith)
            requires
                total > 0,
        ;
    }
    if merged == total {
        assert((total * shown + total / 2) / total == shown) by (nonlinear_arith)
            requires
                total > 0,
        ;
    }
    if total <= 8 {
        assert((merged * total + total / 2) / total == merged) by (nonlinear_arith)
            requires
                total > 0,
        ;
    }
}

} // verus!
