//! Backlog triage: once in a while an agent is asked which task of a backlog
//! to start next.
//!
//! A pass is a small machine. [`tick`] takes what has happened and says what
//! to do next; the caller scans the projects, asks the agent, stamps tasks and
//! starts one. Every task that was considered is stamped, but for the one that
//! is started, so that a backlog nobody wants is not asked about again before
//! its time. At most one task is started in a pass.

use crate::models::opt;
use crate::parts::{find_char, index_of, lemma_find_char, push_text, texts};
use crate::tasks::TaskStatus;
use crate::text::{
    at_most, byte_len, bytes_front, cat2, cat3, cat4, cat5, cat6, chars_of, cuts, dec, front, same, slice_of,
    text_count,
};
use vstd::prelude::*;

verus! {

broadcast use vstd::string::group_string_axioms;

// ---------------------------------------------------------------------------
// The answer
// ---------------------------------------------------------------------------

/// What the agent wants.
#[derive(Debug)]
pub enum ParsedDecision {
    Promote(String),
    Hold,
}

pub enum ParsedView {
    Promote(Seq<char>),
    Hold,
}

impl View for ParsedDecision {
    type V = ParsedView;

    open spec fn view(&self) -> ParsedView {
        match *self {
            ParsedDecision::Promote(s) => ParsedView::Promote(s@),
            ParsedDecision::Hold => ParsedView::Hold,
        }
    }
}

pub open spec fn parsed_view(p: Option<ParsedDecision>) -> Option<ParsedView> {
    match p {
        Some(d) => Some(d@),
        None => None,
    }
}

/// A member of a JSON object.
#[derive(Debug)]
pub enum JsonField {
    Null,
    Text(String),
    /// Anything else.
    Other,
}

pub enum FieldView {
    Null,
    Text(Seq<char>),
    Other,
}

pub open spec fn field_view(f: Option<JsonField>) -> Option<FieldView> {
    match f {
        Some(JsonField::Null) => Some(FieldView::Null),
        Some(JsonField::Text(s)) => Some(FieldView::Text(s@)),
        Some(JsonField::Other) => Some(FieldView::Other),
        None => None,
    }
}

/// The member `key` of the object that `serde_json` reads in a text, if the
/// text is JSON, an object, and has such a member.
pub uninterp spec fn json_member(text: Seq<char>, key: Seq<char>) -> Option<FieldView>;

/// `serde_json::from_str` into a `serde_json::Value`, and of that the member
/// `key`: a function of the two texts.
#[verifier::external_body]
fn json_field(text: &str, key: &str) -> (r: Option<JsonField>)
    ensures
        field_view(r) == json_member(text@, key@),
{
    let value: serde_json::Value = serde_json::from_str(text).ok()?;
    match value.get(key)? {
        serde_json::Value::Null => Some(JsonField::Null),
        serde_json::Value::String(s) => Some(JsonField::Text(s.clone())),
        _ => Some(JsonField::Other),
    }
}

/// Null holds the backlog, a text that is not empty promotes a task.
pub open spec fn field_decision(f: Option<FieldView>) -> Option<ParsedView> {
    match f {
        Some(FieldView::Null) => Some(ParsedView::Hold),
        Some(FieldView::Text(s)) => if s.len() > 0 {
            Some(ParsedView::Promote(s))
        } else {
            None
        },
        _ => None,
    }
}

/// The decision for a member that has been read.
pub fn decision_of(f: Option<JsonField>) -> (r: Option<ParsedDecision>)
    ensures
        parsed_view(r) == field_decision(field_view(f)),
{
    match f {
        Some(JsonField::Null) => Some(ParsedDecision::Hold),
        Some(JsonField::Text(s)) => if !s.as_str().is_empty() {
            Some(ParsedDecision::Promote(s))
        } else {
            None
        },
        _ => None,
    }
}

/// The last `c` before index `i`, or -1.
pub open spec fn last_char(s: Seq<char>, c: char, i: int) -> int
    decreases i,
{
    if i <= 0 {
        -1
    } else if s[i - 1] == c {
        i - 1
    } else {
        last_char(s, c, i - 1)
    }
}

/// What stands from the first opening brace to the last closing one.
pub open spec fn braced(raw: Seq<char>) -> Option<Seq<char>> {
    let start = find_char(raw, '{', 0);
    let end = last_char(raw, '}', raw.len() as int);
    if start < end {
        Some(raw.subrange(start, end + 1))
    } else {
        None
    }
}

/// The decision in an answer, whatever prose stands around it.
pub open spec fn parsed(raw: Seq<char>) -> Option<ParsedView> {
    match braced(raw) {
        Some(blob) => field_decision(json_member(blob, "start_task_id"@)),
        None => None,
    }
}

proof fn lemma_last_char(s: Seq<char>, c: char, i: int, at: int)
    requires
        0 <= at < i <= s.len(),
        s[at] == c,
        forall|j: int| at < j < i ==> s[j] != c,
    ensures
        last_char(s, c, i) == at,
    decreases i,
{
    if i - 1 > at {
        lemma_last_char(s, c, i - 1, at);
    }
}

/// An answer may stand in prose: what comes before the object and what comes
/// after it do not change the decision, as long as the one opens no brace and
/// the other closes none.
pub proof fn prose_around_is_ignored(before: Seq<char>, object: Seq<char>, after: Seq<char>)
    requires
        object.len() >= 2,
        object.first() == '{',
        object.last() == '}',
        !before.contains('{'),
        !after.contains('}'),
    ensures
        braced(before + object + after) == Some(object),
        parsed(before + object + after) == parsed(object),
{
    let raw = before + object + after;
    let n = before.len() as int;
    let m = object.len() as int;
    assert(raw[n] == '{');
    assert(raw[n + m - 1] == '}');
    lemma_find_char(raw, '{', 0);
    assert(forall|j: int| 0 <= j < n ==> raw[j] == before[j]);
    assert(find_char(raw, '{', 0) == n) by {
        let at = find_char(raw, '{', 0);
        if at < n {
            assert(before.contains(before[at]));
        }
    }
    assert forall|j: int| n + m - 1 < j < raw.len() implies raw[j] != '}' by {
        assert(raw[j] == after[j - n - m]);
        assert(after.contains(after[j - n - m]));
    }
    lemma_last_char(raw, '}', raw.len() as int, n + m - 1);
    assert(raw.subrange(n, n + m) =~= object);
    lemma_find_char(object, '{', 0);
    assert(find_char(object, '{', 0) == 0);
    lemma_last_char(object, '}', m, m - 1);
    assert(object.subrange(0, m) =~= object);
}

/// What stands between the outermost braces of an answer.
pub fn braced_part(raw: &str) -> (r: Option<String>)
    ensures
        opt(r) == braced(raw@),
{
    let v = chars_of(raw);
    let n: usize = v.len();
    let start: usize = index_of(&v, '{', 0);
    let mut i: usize = n;
    while i > 0 && v[i - 1] != '}'
        invariant
            i <= n,
            n == v@.len(),
            last_char(v@, '}', n as int) == last_char(v@, '}', i as int),
        decreases i,
    {
        i -= 1;
    }
    if i == 0 || i - 1 <= start {
        return None;
    }
    Some(slice_of(&v, start, i))
}

/// Reads the chosen task, or that none is to be started, out of the agent's
/// answer. None where it cannot be read.
pub fn parse_response(raw: &str) -> (r: Option<ParsedDecision>)
    ensures
        parsed_view(r) == parsed(raw@),
{
    match braced_part(raw) {
        Some(blob) => decision_of(json_field(&blob, "start_task_id")),
        None => None,
    }
}

// ---------------------------------------------------------------------------
// Tasks
// ---------------------------------------------------------------------------

/// A task as the triage sees it. Times are seconds since the epoch.
#[derive(Debug)]
pub struct BacklogTask {
    pub task_id: String,
    pub title: Option<String>,
    pub prompt: String,
    pub status: TaskStatus,
    /// When it was last considered.
    pub triaged_at: Option<i64>,
}

#[derive(Debug)]
pub struct TriageProject {
    pub id: String,
    pub name: String,
    pub root: String,
    pub tasks: Vec<BacklogTask>,
}

#[derive(Clone, Copy, Debug, PartialEq, Eq, Structural)]
pub struct TriageConfig {
    pub enabled: bool,
    /// How long a task that was considered is left alone.
    pub ttl_secs: u64,
}

/// A task waits in the backlog, and has not been considered for `ttl`
/// seconds.
pub open spec fn eligible(t: BacklogTask, now: i64, ttl: u64) -> bool {
    t.status == TaskStatus::Backlog && match t.triaged_at {
        None => true,
        Some(at) => now - at >= ttl,
    }
}

/// The indices of the tasks to consider among the first `n`.
pub open spec fn picks(tasks: Seq<BacklogTask>, now: i64, ttl: u64, n: int) -> Seq<int>
    decreases n,
{
    if n <= 0 {
        Seq::empty()
    } else {
        let before = picks(tasks, now, ttl, n - 1);
        if eligible(tasks[n - 1], now, ttl) {
            before.push(n - 1)
        } else {
            before
        }
    }
}

/// The indices of all the tasks of a project to consider.
pub open spec fn candidates(p: TriageProject, now: i64, ttl: u64) -> Seq<int> {
    picks(p.tasks@, now, ttl, p.tasks@.len() as int)
}

/// The first project from `i` on with a task to consider.
pub open spec fn first_with_work(projects: Seq<TriageProject>, now: i64, ttl: u64, i: int) -> int
    decreases projects.len() - i,
{
    if i >= projects.len() || candidates(projects[i], now, ttl).len() > 0 {
        i
    } else {
        first_with_work(projects, now, ttl, i + 1)
    }
}

pub open spec fn as_ints(v: Seq<usize>) -> Seq<int> {
    v.map_values(|i: usize| i as int)
}

fn is_eligible(t: &BacklogTask, now: i64, ttl: u64) -> (r: bool)
    ensures
        r == eligible(*t, now, ttl),
{
    if t.status != TaskStatus::Backlog {
        return false;
    }
    match t.triaged_at {
        None => true,
        Some(at) => {
            let d: i128 = now as i128 - at as i128;
            d >= ttl as i128
        },
    }
}

fn find_candidates(p: &TriageProject, now: i64, ttl: u64) -> (r: Vec<usize>)
    ensures
        as_ints(r@) == candidates(*p, now, ttl),
        forall|k: int| 0 <= k < r@.len() ==> #[trigger] r@[k] < p.tasks@.len(),
{
    let mut out: Vec<usize> = Vec::new();
    let mut i: usize = 0;
    assert(as_ints(out@) =~= Seq::empty());
    while i < p.tasks.len()
        invariant
            i <= p.tasks@.len(),
            as_ints(out@) == picks(p.tasks@, now, ttl, i as int),
            forall|k: int| 0 <= k < out@.len() ==> #[trigger] out@[k] < i,
        decreases p.tasks@.len() - i,
    {
        let ghost before = as_ints(out@);
        if is_eligible(&p.tasks[i], now, ttl) {
            out.push(i);
            assert(as_ints(out@) =~= before.push(i as int));
        }
        i += 1;
    }
    out
}

/// Every candidate is a task of the project that waits in the backlog and has
/// been left alone long enough, and every such task is a candidate.
pub proof fn candidates_are_eligible(p: TriageProject, now: i64, ttl: u64)
    ensures
        forall|k: int| 0 <= k < candidates(p, now, ttl).len() ==> {
            let i = #[trigger] candidates(p, now, ttl)[k];
            0 <= i < p.tasks@.len() && eligible(p.tasks@[i], now, ttl)
        },
        forall|i: int| 0 <= i < p.tasks@.len() && eligible(#[trigger] p.tasks@[i], now, ttl)
            ==> candidates(p, now, ttl).contains(i),
{
    lemma_picks(p.tasks@, now, ttl, p.tasks@.len() as int);
}

proof fn lemma_picks(tasks: Seq<BacklogTask>, now: i64, ttl: u64, n: int)
    requires
        0 <= n <= tasks.len(),
    ensures
        forall|k: int| 0 <= k < picks(tasks, now, ttl, n).len() ==> {
            let i = #[trigger] picks(tasks, now, ttl, n)[k];
            0 <= i < n && eligible(tasks[i], now, ttl)
        },
        forall|i: int| 0 <= i < n && eligible(#[trigger] tasks[i], now, ttl) ==> picks(
            tasks,
            now,
            ttl,
            n,
        ).contains(i),
    decreases n,
{
    if n > 0 {
        lemma_picks(tasks, now, ttl, n - 1);
        let before = picks(tasks, now, ttl, n - 1);
        let all = picks(tasks, now, ttl, n);
        assert forall|i: int| 0 <= i < n && eligible(#[trigger] tasks[i], now, ttl) implies all.contains(i) by {
            if i == n - 1 {
                assert(all[all.len() - 1] == i);
            } else {
                assert(before.contains(i));
                let k = choose|k: int| 0 <= k < before.len() && before[k] == i;
                assert(all[k] == i);
            }
        }
    }
}

/// A task that was stamped is not considered again before its time.
pub proof fn stamped_tasks_rest(t: BacklogTask, at: i64, now: i64, ttl: u64)
    requires
        t.triaged_at == Some(at),
        now - at < ttl,
    ensures
        !eligible(t, now, ttl),
{
}

/// A task of the backlog that was never stamped, or was stamped long enough
/// ago, is considered.
pub proof fn rested_tasks_are_considered(t: BacklogTask, now: i64, ttl: u64)
    requires
        t.status == TaskStatus::Backlog,
        t.triaged_at matches Some(at) ==> now - at >= ttl,
    ensures
        eligible(t, now, ttl),
{
}

// ---------------------------------------------------------------------------
// The prompt
// ---------------------------------------------------------------------------

/// The tasks that a prompt describes at most.
pub const MAX_TASKS_IN_PROMPT: usize = 50;

pub open spec fn instructions() -> Seq<char> {
    "You are the backlog triage agent for cc-hub. Below is the current backlog for a project. Decide which ONE task should be started next, considering:\n- dependencies (a task that depends on the output of another should wait)\n- whether enough context exists to act now without more user input\n- obvious sequencing (e.g. a refactor that should land before a feature on top)\n\nOutput STRICT JSON on a single line, nothing else, no prose, no fences:\n{\"start_task_id\": \"<id>\"}   — to promote that task\n{\"start_task_id\": null}       — to hold the entire backlog this round\n\n"@
}

/// A prompt of a task can be cut where it has to be.
pub open spec fn can_cut(prompt: Seq<char>) -> bool {
    byte_len(prompt) > 800 ==> cuts(prompt, 800)
}

/// The first 800 bytes of a prompt, with an ellipsis where there are more.
pub open spec fn cut_prompt(prompt: Seq<char>) -> Seq<char> {
    if byte_len(prompt) > 800 {
        front(prompt, 800) + "…"@
    } else {
        prompt
    }
}

pub open spec fn entry(t: BacklogTask) -> Seq<char> {
    "- id="@ + t.task_id@ + "\n  title: "@ + (match t.title {
        Some(s) => s@,
        None => "(untitled)"@,
    }) + "\n  prompt: "@ + cut_prompt(t.prompt@) + "\n"@
}

pub open spec fn entries(tasks: Seq<BacklogTask>, which: Seq<int>, n: int) -> Seq<char>
    decreases n,
{
    if n <= 0 {
        Seq::empty()
    } else {
        entries(tasks, which, n - 1) + entry(tasks[which[n - 1]])
    }
}

/// What the agent is asked.
pub open spec fn prompt_text(p: TriageProject, which: Seq<int>) -> Seq<char> {
    let shown = at_most(which.len() as int, MAX_TASKS_IN_PROMPT as int);
    instructions() + ("Project: "@ + p.name@ + "\nRoot: "@ + p.root@ + "\n\nBacklog:\n"@) + entries(
        p.tasks@,
        which,
        shown,
    ) + if which.len() > shown {
        "(+"@ + dec((which.len() - shown) as nat) + " more not shown)\n"@
    } else {
        Seq::empty()
    }
}

/// Every prompt that the agent is shown can be cut.
pub open spec fn can_describe(p: TriageProject, which: Seq<int>) -> bool {
    forall|k: int| 0 <= k < at_most(which.len() as int, MAX_TASKS_IN_PROMPT as int) ==> can_cut(
        p.tasks@[#[trigger] which[k]].prompt@,
    )
}

fn build_entry(t: &BacklogTask) -> (r: String)
    requires
        can_cut(t.prompt@),
    ensures
        r@ == entry(*t),
{
    let title = match &t.title {
        Some(s) => s.as_str().to_owned(),
        None => "(untitled)".to_owned(),
    };
    let prompt = if t.prompt.as_str().len() > 800 {
        cat2(&bytes_front(&t.prompt, 800), "…")
    } else {
        t.prompt.as_str().to_owned()
    };
    let s = cat6("- id=", &t.task_id, "\n  title: ", &title, "\n  prompt: ", &prompt);
    cat2(&s, "\n")
}

/// The prompt that asks which of the tasks at `which` to start.
pub fn build_prompt(p: &TriageProject, which: &Vec<usize>) -> (r: String)
    requires
        forall|k: int| 0 <= k < which@.len() ==> #[trigger] which@[k] < p.tasks@.len(),
        can_describe(*p, as_ints(which@)),
    ensures
        r@ == prompt_text(*p, as_ints(which@)),
{
    let head = cat2(
        "You are the backlog triage agent for cc-hub. Below is the current backlog for a project. Decide which ONE task should be started next, considering:\n- dependencies (a task that depends on the output of another should wait)\n- whether enough context exists to act now without more user input\n- obvious sequencing (e.g. a refactor that should land before a feature on top)\n\nOutput STRICT JSON on a single line, nothing else, no prose, no fences:\n{\"start_task_id\": \"<id>\"}   — to promote that task\n{\"start_task_id\": null}       — to hold the entire backlog this round\n\n",
        &cat5("Project: ", &p.name, "\nRoot: ", &p.root, "\n\nBacklog:\n"),
    );
    let total: usize = which.len();
    let shown: usize = if total < MAX_TASKS_IN_PROMPT {
        total
    } else {
        MAX_TASKS_IN_PROMPT
    };
    let ghost ints = as_ints(which@);
    let mut list = String::new();
    let mut k: usize = 0;
    assert(list@ =~= entries(p.tasks@, ints, 0));
    while k < shown
        invariant
            k <= shown <= which@.len(),
            shown == at_most(ints.len() as int, MAX_TASKS_IN_PROMPT as int),
            ints == as_ints(which@),
            forall|k: int| 0 <= k < which@.len() ==> #[trigger] which@[k] < p.tasks@.len(),
            can_describe(*p, ints),
            list@ == entries(p.tasks@, ints, k as int),
        decreases shown - k,
    {
        let i: usize = which[k];
        assert(ints[k as int] == i);
        let e = build_entry(&p.tasks[i]);
        list.append(&e);
        k += 1;
    }
    let more = if total > shown {
        cat3("(+", &text_count(total - shown), " more not shown)\n")
    } else {
        String::new()
    };
    cat3(&head, &list, &more)
}

// ---------------------------------------------------------------------------
// Outcomes
// ---------------------------------------------------------------------------

/// A task of the backlog that was started.
#[derive(Debug, Clone)]
pub struct Promotion {
    pub tmux: String,
    pub orchestrator_prompt: Option<String>,
}

/// What a pass came to.
#[derive(Debug)]
pub struct TickOutcome {
    /// There is one exactly where the agent picked a task and its session was
    /// started.
    pub promotion: Option<Promotion>,
    /// A line for the user, where anything happened.
    pub status: Option<String>,
}

impl Default for TickOutcome {
    fn default() -> (r: TickOutcome)
        ensures
            r@ == nothing(),
    {
        TickOutcome { promotion: None, status: None }
    }
}

pub struct OutcomeView {
    pub promotion: Option<(Seq<char>, Option<Seq<char>>)>,
    pub status: Option<Seq<char>>,
}

impl View for TickOutcome {
    type V = OutcomeView;

    open spec fn view(&self) -> OutcomeView {
        OutcomeView {
            promotion: match self.promotion {
                Some(p) => Some((p.tmux@, opt(p.orchestrator_prompt))),
                None => None,
            },
            status: opt(self.status),
        }
    }
}

/// Nothing happened that is worth a word.
pub open spec fn nothing() -> OutcomeView {
    OutcomeView { promotion: None, status: None }
}

// ---------------------------------------------------------------------------
// The machine
// ---------------------------------------------------------------------------

/// Where a pass stands.
#[derive(Debug)]
pub enum TriageState {
    /// It has not begun.
    Idle,
    /// The agent has been asked about these tasks of a project.
    Asking { project_id: String, project_name: String, task_ids: Vec<String>, now: i64 },
    /// A task is being started.
    Starting { task_id: String },
    Done,
}

/// A task that was started: its id, its session and the prompt for it.
#[derive(Debug)]
pub struct StartedTask {
    pub task_id: String,
    pub tmux: String,
    pub orchestrator_prompt: Option<String>,
}

/// What has happened.
#[derive(Debug)]
pub enum TriageEvent {
    /// The projects were scanned.
    Scanned { projects: Vec<TriageProject>, now: i64 },
    /// The agent answered, or did not.
    Answered(Option<String>),
    /// The task was started, or why it was not.
    Started(Result<StartedTask, String>),
}

/// Tasks of a project to stamp, and with which time.
#[derive(Debug)]
pub struct Stamps {
    pub project_id: String,
    pub task_ids: Vec<String>,
    pub at: i64,
}

/// What to do next.
#[derive(Debug)]
pub enum TriageAction {
    /// Ask the agent.
    Ask { prompt: String },
    /// Stamp the tasks, then start this one.
    Start { stamps: Stamps, task_id: String },
    /// Stamp the tasks that are left, if there are any, and be done.
    Finish { left: Option<Stamps>, outcome: TickOutcome },
}

/// What the answer comes to: a failure, an answer that cannot be read and a
/// task that was not asked about are all the same.
pub enum DecisionView {
    Promote(Seq<char>),
    Hold,
    Failed,
}

pub open spec fn decided(answer: Option<Seq<char>>, ids: Seq<Seq<char>>) -> DecisionView {
    match answer {
        Some(raw) => chosen_from(parsed(raw), ids),
        None => DecisionView::Failed,
    }
}

pub open spec fn chosen_from(p: Option<ParsedView>, ids: Seq<Seq<char>>) -> DecisionView {
    match p {
        Some(ParsedView::Hold) => DecisionView::Hold,
        Some(ParsedView::Promote(id)) => if ids.contains(id) {
            DecisionView::Promote(id)
        } else {
            DecisionView::Failed
        },
        None => DecisionView::Failed,
    }
}

/// What an answer comes to.
#[derive(Debug)]
pub enum Decision {
    Promote(String),
    Hold,
    Failed,
}

impl View for Decision {
    type V = DecisionView;

    open spec fn view(&self) -> DecisionView {
        match *self {
            Decision::Promote(s) => DecisionView::Promote(s@),
            Decision::Hold => DecisionView::Hold,
            Decision::Failed => DecisionView::Failed,
        }
    }
}

/// Whether a text is among others.
fn is_among(ids: &Vec<String>, id: &str) -> (r: bool)
    ensures
        r == texts(ids@).contains(id@),
{
    let mut i: usize = 0;
    while i < ids.len()
        invariant
            i <= ids@.len(),
            forall|j: int| 0 <= j < i ==> #[trigger] texts(ids@)[j] != id@,
        decreases ids@.len() - i,
    {
        if same(&ids[i], id) {
            assert(texts(ids@)[i as int] == id@);
            return true;
        }
        assert(texts(ids@)[i as int] != id@);
        i += 1;
    }
    false
}

/// The decision for an answer that has been read.
pub fn choose_task(p: Option<ParsedDecision>, task_ids: &Vec<String>) -> (r: Decision)
    ensures
        r@ == chosen_from(parsed_view(p), texts(task_ids@)),
{
    match p {
        None => Decision::Failed,
        Some(ParsedDecision::Hold) => Decision::Hold,
        Some(ParsedDecision::Promote(id)) => if is_among(task_ids, &id) {
            Decision::Promote(id)
        } else {
            Decision::Failed
        },
    }
}

/// The decision for an answer, if there is one.
pub fn decide(answer: &Option<String>, task_ids: &Vec<String>) -> (r: Decision)
    ensures
        r@ == decided(opt(*answer), texts(task_ids@)),
{
    match answer {
        Some(raw) => choose_task(parse_response(raw), task_ids),
        None => Decision::Failed,
    }
}

/// The tasks among the first `n` that were not chosen.
pub open spec fn passed_over(ids: Seq<Seq<char>>, chosen: Option<Seq<char>>, n: int) -> Seq<Seq<char>>
    decreases n,
{
    if n <= 0 {
        Seq::empty()
    } else {
        let before = passed_over(ids, chosen, n - 1);
        if chosen == Some(ids[n - 1]) {
            before
        } else {
            before.push(ids[n - 1])
        }
    }
}

/// All the tasks that were not chosen.
pub open spec fn to_stamp(ids: Seq<Seq<char>>, chosen: Option<Seq<char>>) -> Seq<Seq<char>> {
    passed_over(ids, chosen, ids.len() as int)
}

fn list_stamps(ids: &Vec<String>, chosen: &Option<String>) -> (r: Vec<String>)
    ensures
        texts(r@) == to_stamp(texts(ids@), opt(*chosen)),
{
    let mut out: Vec<String> = Vec::new();
    let mut i: usize = 0;
    assert(texts(out@) =~= Seq::empty());
    assert(texts(ids@).len() == ids@.len());
    while i < ids.len()
        invariant
            i <= ids@.len(),
            texts(out@) == passed_over(texts(ids@), opt(*chosen), i as int),
        decreases ids@.len() - i,
    {
        let is_chosen = match chosen {
            Some(c) => same(&ids[i], c),
            None => false,
        };
        assert(texts(ids@)[i as int] == ids@[i as int]@);
        if !is_chosen {
            push_text(&mut out, ids[i].as_str().to_owned());
        }
        i += 1;
    }
    out
}

proof fn lemma_passed_over(ids: Seq<Seq<char>>, chosen: Option<Seq<char>>, n: int)
    requires
        0 <= n <= ids.len(),
    ensures
        forall|i: int| 0 <= i < n && chosen != Some(#[trigger] ids[i]) ==> passed_over(
            ids,
            chosen,
            n,
        ).contains(ids[i]),
        forall|k: int| 0 <= k < passed_over(ids, chosen, n).len() ==> {
            let s = #[trigger] passed_over(ids, chosen, n)[k];
            ids.contains(s) && chosen != Some(s)
        },
    decreases n,
{
    if n > 0 {
        lemma_passed_over(ids, chosen, n - 1);
        let before = passed_over(ids, chosen, n - 1);
        let all = passed_over(ids, chosen, n);
        assert forall|i: int| 0 <= i < n && chosen != Some(#[trigger] ids[i]) implies all.contains(ids[i]) by {
            if i == n - 1 {
                assert(all[all.len() - 1] == ids[i]);
            } else {
                assert(before.contains(ids[i]));
                let k = choose|k: int| 0 <= k < before.len() && before[k] == ids[i];
                assert(all[k] == ids[i]);
            }
        }
        assert forall|k: int| 0 <= k < all.len() implies {
            let s = #[trigger] all[k];
            ids.contains(s) && chosen != Some(s)
        } by {
            if k < before.len() {
                assert(all[k] == before[k]);
            } else {
                assert(all[k] == ids[n - 1]);
            }
        }
    }
}

/// Every task that was considered is stamped, but for the one that was chosen,
/// and no other task is.
pub proof fn all_but_the_chosen_are_stamped(ids: Seq<Seq<char>>, chosen: Option<Seq<char>>, id: Seq<char>)
    ensures
        to_stamp(ids, chosen).contains(id) <==> ids.contains(id) && chosen != Some(id),
{
    lemma_passed_over(ids, chosen, ids.len() as int);
    if ids.contains(id) && chosen != Some(id) {
        let i = choose|i: int| 0 <= i < ids.len() && ids[i] == id;
        assert(to_stamp(ids, chosen).contains(ids[i]));
    }
    if to_stamp(ids, chosen).contains(id) {
        let s = to_stamp(ids, chosen);
        let k = choose|k: int| 0 <= k < s.len() && s[k] == id;
        assert(ids.contains(s[k]));
    }
}

/// Only a task that was asked about is ever chosen.
pub proof fn only_candidates_are_chosen(answer: Option<Seq<char>>, ids: Seq<Seq<char>>)
    ensures
        decided(answer, ids) matches DecisionView::Promote(id) ==> ids.contains(id),
        answer is None ==> decided(answer, ids) is Failed,
        answer matches Some(raw) ==> (parsed(raw) is None ==> decided(answer, ids) is Failed),
{
}

/// The ids of the tasks at `which`.
pub open spec fn ids_of(tasks: Seq<BacklogTask>, which: Seq<int>) -> Seq<Seq<char>> {
    which.map_values(|i: int| tasks[i].task_id@)
}

fn list_ids(p: &TriageProject, which: &Vec<usize>) -> (r: Vec<String>)
    requires
        forall|k: int| 0 <= k < which@.len() ==> #[trigger] which@[k] < p.tasks@.len(),
    ensures
        texts(r@) == ids_of(p.tasks@, as_ints(which@)),
{
    let ghost all = ids_of(p.tasks@, as_ints(which@));
    let mut out: Vec<String> = Vec::new();
    let mut k: usize = 0;
    assert(texts(out@) =~= all.take(0));
    while k < which.len()
        invariant
            k <= which@.len(),
            all == ids_of(p.tasks@, as_ints(which@)),
            forall|k: int| 0 <= k < which@.len() ==> #[trigger] which@[k] < p.tasks@.len(),
            texts(out@) == all.take(k as int),
        decreases which@.len() - k,
    {
        let i: usize = which[k];
        push_text(&mut out, p.tasks[i].task_id.as_str().to_owned());
        k += 1;
        assert(texts(out@) =~= all.take(k as int));
    }
    assert(all.take(k as int) =~= all);
    out
}

pub open spec fn is_stamps(s: Stamps, project_id: Seq<char>, ids: Seq<Seq<char>>, at: i64) -> bool {
    s.project_id@ == project_id && texts(s.task_ids@) == ids && s.at == at
}

/// A pass ends without a word and without a stamp.
pub open spec fn ends_quietly(state: TriageState, action: TriageAction) -> bool {
    state is Done && match action {
        TriageAction::Finish { left, outcome } => left is None && outcome@ == nothing(),
        _ => false,
    }
}

/// After a scan: the agent is asked about the first project with tasks to
/// consider, where triage is switched on.
pub open spec fn after_scan(
    cfg: TriageConfig,
    projects: Seq<TriageProject>,
    now: i64,
    state: TriageState,
    action: TriageAction,
) -> bool {
    let ttl = cfg.ttl_secs;
    let at = first_with_work(projects, now, ttl, 0);
    if !cfg.enabled || at >= projects.len() {
        ends_quietly(state, action)
    } else {
        let p = projects[at];
        let which = candidates(p, now, ttl);
        &&& match action {
            TriageAction::Ask { prompt } => prompt@ == prompt_text(p, which),
            _ => false,
        }
        &&& match state {
            TriageState::Asking { project_id, project_name, task_ids, now: asked } => {
                &&& project_id@ == p.id@
                &&& project_name@ == p.name@
                &&& texts(task_ids@) == ids_of(p.tasks@, which)
                &&& asked == now
            },
            _ => false,
        }
    }
}

pub open spec fn held_text(count: int, project: Seq<char>) -> Seq<char> {
    "triage: held "@ + dec(count as nat) + " backlog task(s) in "@ + project
}

/// After an answer: every task that was considered is stamped, but for a
/// chosen one, which is started.
pub open spec fn after_answer(
    project_id: Seq<char>,
    project_name: Seq<char>,
    ids: Seq<Seq<char>>,
    now: i64,
    answer: Option<Seq<char>>,
    state: TriageState,
    action: TriageAction,
) -> bool {
    match decided(answer, ids) {
        DecisionView::Promote(id) => {
            &&& match state {
                TriageState::Starting { task_id } => task_id@ == id,
                _ => false,
            }
            &&& match action {
                TriageAction::Start { stamps, task_id } => task_id@ == id && is_stamps(
                    stamps,
                    project_id,
                    to_stamp(ids, Some(id)),
                    now,
                ),
                _ => false,
            }
        },
        DecisionView::Hold => state is Done && match action {
            TriageAction::Finish { left: Some(s), outcome } => is_stamps(
                s,
                project_id,
                to_stamp(ids, None),
                now,
            ) && outcome@ == (OutcomeView {
                promotion: None,
                status: Some(held_text(ids.len() as int, project_name)),
            }),
            _ => false,
        },
        DecisionView::Failed => state is Done && match action {
            TriageAction::Finish { left: Some(s), outcome } => is_stamps(
                s,
                project_id,
                to_stamp(ids, None),
                now,
            ) && outcome@ == nothing(),
            _ => false,
        },
    }
}

/// What is reported of a start.
pub open spec fn start_outcome(task_id: Seq<char>, started: Result<StartedTask, String>) -> OutcomeView {
    match started {
        Ok(t) => OutcomeView {
            promotion: Some((t.tmux@, opt(t.orchestrator_prompt))),
            status: Some(
                "triage: promoted ["@ + t.task_id@ + "], orchestrator ["@ + t.tmux@ + "] starting…"@,
            ),
        },
        Err(e) => OutcomeView {
            promotion: None,
            status: Some("triage: failed to promote "@ + task_id + ": "@ + e@),
        },
    }
}

/// After a start: the pass is over.
pub open spec fn after_start(
    task_id: Seq<char>,
    started: Result<StartedTask, String>,
    state: TriageState,
    action: TriageAction,
) -> bool {
    state is Done && match action {
        TriageAction::Finish { left, outcome } => left is None && outcome@ == start_outcome(
            task_id,
            started,
        ),
        _ => false,
    }
}

/// The prompts that the agent would be shown after a scan can be cut.
pub open spec fn can_ask(cfg: TriageConfig, projects: Seq<TriageProject>, now: i64) -> bool {
    let at = first_with_work(projects, now, cfg.ttl_secs, 0);
    cfg.enabled && at < projects.len() ==> can_describe(
        projects[at],
        candidates(projects[at], now, cfg.ttl_secs),
    )
}

fn describable(p: &TriageProject, which: &Vec<usize>) -> (r: bool)
    requires
        forall|k: int| 0 <= k < which@.len() ==> #[trigger] which@[k] < p.tasks@.len(),
    ensures
        r == can_describe(*p, as_ints(which@)),
{
    let mut k: usize = 0;
    while k < which.len() && k < MAX_TASKS_IN_PROMPT
        invariant
            k <= which@.len(),
            k <= MAX_TASKS_IN_PROMPT,
            forall|j: int| 0 <= j < which@.len() ==> #[trigger] which@[j] < p.tasks@.len(),
            forall|j: int| 0 <= j < k ==> can_cut(p.tasks@[#[trigger] as_ints(which@)[j]].prompt@),
        decreases which@.len() - k,
    {
        let prompt = p.tasks[which[k]].prompt.as_str();
        assert(as_ints(which@)[k as int] == which@[k as int]);
        if prompt.len() > 800 && !prompt.is_char_boundary(800) {
            return false;
        }
        k += 1;
    }
    true
}

/// Whether the prompts that the agent would be shown after a scan can be cut.
pub fn scan_can_ask(cfg: &TriageConfig, projects: &Vec<TriageProject>, now: i64) -> (r: bool)
    ensures
        r == can_ask(*cfg, projects@, now),
{
    if !cfg.enabled {
        return true;
    }
    let mut i: usize = 0;
    while i < projects.len()
        invariant
            i <= projects@.len(),
            cfg.enabled,
            first_with_work(projects@, now, cfg.ttl_secs, 0) == first_with_work(
                projects@,
                now,
                cfg.ttl_secs,
                i as int,
            ),
        decreases projects@.len() - i,
    {
        let which = find_candidates(&projects[i], now, cfg.ttl_secs);
        assert(as_ints(which@).len() == which@.len());
        if which.len() > 0 {
            return describable(&projects[i], &which);
        }
        i += 1;
    }
    true
}

/// The event is the one that the state waits for, and where it is a scan, the
/// prompts that the agent would be shown can be cut.
pub open spec fn awaits(cfg: TriageConfig, state: TriageState, event: TriageEvent) -> bool {
    match (state, event) {
        (TriageState::Idle, TriageEvent::Scanned { projects, now }) => can_ask(cfg, projects@, now),
        (TriageState::Asking { .. }, TriageEvent::Answered(_)) => true,
        (TriageState::Starting { .. }, TriageEvent::Started(_)) => true,
        _ => false,
    }
}

/// The step of a pass.
pub open spec fn steps(
    cfg: TriageConfig,
    state: TriageState,
    event: TriageEvent,
    next: TriageState,
    action: TriageAction,
) -> bool {
    match (state, event) {
        (TriageState::Idle, TriageEvent::Scanned { projects, now }) => after_scan(
            cfg,
            projects@,
            now,
            next,
            action,
        ),
        (
            TriageState::Asking { project_id, project_name, task_ids, now },
            TriageEvent::Answered(answer),
        ) => after_answer(
            project_id@,
            project_name@,
            texts(task_ids@),
            now,
            opt(answer),
            next,
            action,
        ),
        (TriageState::Starting { task_id }, TriageEvent::Started(started)) => after_start(
            task_id@,
            started,
            next,
            action,
        ),
        _ => ends_quietly(next, action),
    }
}

fn quiet() -> (r: (TriageState, TriageAction))
    ensures
        ends_quietly(r.0, r.1),
{
    (TriageState::Done, TriageAction::Finish { left: None, outcome: TickOutcome::default() })
}

fn scan_step(cfg: &TriageConfig, projects: &Vec<TriageProject>, now: i64) -> (r: (TriageState, TriageAction))
    requires
        can_ask(*cfg, projects@, now),
    ensures
        after_scan(*cfg, projects@, now, r.0, r.1),
{
    if !cfg.enabled {
        return quiet();
    }
    let ttl: u64 = cfg.ttl_secs;
    let mut i: usize = 0;
    while i < projects.len()
        invariant
            i <= projects@.len(),
            cfg.enabled,
            ttl == cfg.ttl_secs,
            first_with_work(projects@, now, ttl, 0) == first_with_work(projects@, now, ttl, i as int),
            can_ask(*cfg, projects@, now),
        decreases projects@.len() - i,
    {
        let p = &projects[i];
        let which = find_candidates(p, now, ttl);
        assert(as_ints(which@).len() == which@.len());
        if which.len() > 0 {
            let prompt = build_prompt(p, &which);
            let state = TriageState::Asking {
                project_id: p.id.as_str().to_owned(),
                project_name: p.name.as_str().to_owned(),
                task_ids: list_ids(p, &which),
                now,
            };
            return (state, TriageAction::Ask { prompt });
        }
        i += 1;
    }
    quiet()
}

fn answer_step(
    project_id: String,
    project_name: String,
    task_ids: Vec<String>,
    now: i64,
    answer: Option<String>,
) -> (r: (TriageState, TriageAction))
    ensures
        after_answer(
            project_id@,
            project_name@,
            texts(task_ids@),
            now,
            opt(answer),
            r.0,
            r.1,
        ),
{
    assert(texts(task_ids@).len() == task_ids@.len());
    match decide(&answer, &task_ids) {
        Decision::Promote(id) => {
            let chosen = Some(id.as_str().to_owned());
            let stamps = Stamps { project_id, task_ids: list_stamps(&task_ids, &chosen), at: now };
            (
                TriageState::Starting { task_id: id.as_str().to_owned() },
                TriageAction::Start { stamps, task_id: id },
            )
        },
        Decision::Hold => {
            let status = cat4(
                "triage: held ",
                &text_count(task_ids.len()),
                " backlog task(s) in ",
                &project_name,
            );
            let stamps = Stamps { project_id, task_ids: list_stamps(&task_ids, &None), at: now };
            let outcome = TickOutcome { promotion: None, status: Some(status) };
            (TriageState::Done, TriageAction::Finish { left: Some(stamps), outcome })
        },
        Decision::Failed => {
            let stamps = Stamps { project_id, task_ids: list_stamps(&task_ids, &None), at: now };
            (
                TriageState::Done,
                TriageAction::Finish { left: Some(stamps), outcome: TickOutcome::default() },
            )
        },
    }
}

fn start_step(task_id: String, started: Result<StartedTask, String>) -> (r: (TriageState, TriageAction))
    ensures
        after_start(task_id@, started, r.0, r.1),
{
    let outcome = match started {
        Ok(t) => {
            let status = cat5(
                "triage: promoted [",
                &t.task_id,
                "], orchestrator [",
                &t.tmux,
                "] starting…",
            );
            TickOutcome {
                promotion: Some(
                    Promotion { tmux: t.tmux, orchestrator_prompt: t.orchestrator_prompt },
                ),
                status: Some(status),
            }
        },
        Err(e) => TickOutcome {
            promotion: None,
            status: Some(cat4("triage: failed to promote ", &task_id, ": ", &e)),
        },
    };
    (TriageState::Done, TriageAction::Finish { left: None, outcome })
}

/// One step of a pass: what has happened, and what to do next.
pub fn tick(cfg: &TriageConfig, state: TriageState, event: TriageEvent) -> (r: (TriageState, TriageAction))
    requires
        awaits(*cfg, state, event),
    ensures
        steps(*cfg, state, event, r.0, r.1),
{
    match (state, event) {
        (TriageState::Idle, TriageEvent::Scanned { projects, now }) => scan_step(cfg, &projects, now),
        (
            TriageState::Asking { project_id, project_name, task_ids, now },
            TriageEvent::Answered(answer),
        ) => answer_step(project_id, project_name, task_ids, now, answer),
        (TriageState::Starting { task_id }, TriageEvent::Started(started)) => start_step(
            task_id,
            started,
        ),
        _ => quiet(),
    }
}

/// A task is promoted exactly where it was started.
pub proof fn promoted_only_when_started(
    cfg: TriageConfig,
    state: TriageState,
    event: TriageEvent,
    next: TriageState,
    action: TriageAction,
)
    requires
        awaits(cfg, state, event),
        steps(cfg, state, event, next, action),
    ensures
        action matches TriageAction::Finish { left, outcome } ==> (outcome@.promotion is Some
            <==> started_well(event)),
{
}

/// The event is that a task was started.
pub open spec fn started_well(event: TriageEvent) -> bool {
    match event {
        TriageEvent::Started(Ok(_)) => true,
        _ => false,
    }
}

/// Task `i` of project `p` has this id and was eligible.
pub open spec fn was_eligible(
    projects: Seq<TriageProject>,
    p: int,
    i: int,
    id: Seq<char>,
    now: i64,
    ttl: u64,
) -> bool {
    &&& 0 <= p < projects.len()
    &&& 0 <= i < projects[p].tasks@.len()
    &&& projects[p].tasks@[i].task_id@ == id
    &&& eligible(projects[p].tasks@[i], now, ttl)
}

pub open spec fn some_was_eligible(projects: Seq<TriageProject>, id: Seq<char>, now: i64, ttl: u64) -> bool {
    exists|p: int, i: int| #[trigger] was_eligible(projects, p, i, id, now, ttl)
}

/// Whatever the agent answers, only a task is started that was eligible when
/// the projects were scanned.
pub proof fn only_eligible_tasks_are_started(
    cfg: TriageConfig,
    projects: Seq<TriageProject>,
    now: i64,
    asking: TriageState,
    ask: TriageAction,
    answer: Option<String>,
    next: TriageState,
    action: TriageAction,
)
    requires
        after_scan(cfg, projects, now, asking, ask),
        asking is Asking,
        steps(cfg, asking, TriageEvent::Answered(answer), next, action),
    ensures
        action matches TriageAction::Start { stamps, task_id } ==> some_was_eligible(
            projects,
            task_id@,
            now,
            cfg.ttl_secs,
        ),
{
    let ttl = cfg.ttl_secs;
    let at = first_with_work(projects, now, ttl, 0);
    lemma_first_with_work(projects, now, ttl, 0);
    let p = projects[at];
    let which = candidates(p, now, ttl);
    let ids = ids_of(p.tasks@, which);
    candidates_are_eligible(p, now, ttl);
    only_candidates_are_chosen(opt(answer), ids);
    match action {
        TriageAction::Start { stamps, task_id } => {
            assert(ids.contains(task_id@));
            let k = choose|k: int| 0 <= k < ids.len() && ids[k] == task_id@;
            assert(ids[k] == p.tasks@[which[k]].task_id@);
            assert(was_eligible(projects, at, which[k], task_id@, now, ttl));
        },
        _ => {},
    }
}

proof fn lemma_first_with_work(projects: Seq<TriageProject>, now: i64, ttl: u64, i: int)
    requires
        0 <= i,
    ensures
        i <= first_with_work(projects, now, ttl, i),
    decreases projects.len() - i,
{
    if i < projects.len() && candidates(projects[i], now, ttl).len() == 0 {
        lemma_first_with_work(projects, now, ttl, i + 1);
    }
}

/// A pass over projects whose triage is switched off asks nobody and changes
/// nothing.
pub proof fn switched_off_is_quiet(
    cfg: TriageConfig,
    projects: Seq<TriageProject>,
    now: i64,
    next: TriageState,
    action: TriageAction,
)
    requires
        !cfg.enabled,
        after_scan(cfg, projects, now, next, action),
    ensures
        ends_quietly(next, action),
{
}

/// What is started was asked about, and is not stamped; everything else that
/// was asked about is.
pub proof fn started_task_was_considered(
    cfg: TriageConfig,
    state: TriageState,
    event: TriageEvent,
    next: TriageState,
    action: TriageAction,
)
    requires
        awaits(cfg, state, event),
        steps(cfg, state, event, next, action),
    ensures
        action matches TriageAction::Start { stamps, task_id } ==> asked_about(state, task_id@)
            && !texts(stamps.task_ids@).contains(task_id@) && forall|id: Seq<char>|
            #![trigger texts(stamps.task_ids@).contains(id)]
            asked_about(state, id) && id != task_id@ ==> texts(stamps.task_ids@).contains(id),
{
    match action {
        TriageAction::Start { stamps, task_id } => match state {
            TriageState::Asking { project_id, project_name, task_ids, now } => {
                let ids = texts(task_ids@);
                assert forall|id: Seq<char>|
                    #![trigger texts(stamps.task_ids@).contains(id)]
                    texts(stamps.task_ids@).contains(id) <==> ids.contains(id) && id != task_id@ by {
                    all_but_the_chosen_are_stamped(ids, Some(task_id@), id);
                }
                all_but_the_chosen_are_stamped(ids, Some(task_id@), task_id@);
            },
            _ => {},
        },
        _ => {},
    }
}

pub open spec fn asked_about(state: TriageState, id: Seq<char>) -> bool {
    match state {
        TriageState::Asking { project_id, project_name, task_ids, now } => texts(task_ids@).contains(
            id,
        ),
        _ => false,
    }
}

// ---------------------------------------------------------------------------
// What a pass promises
// ---------------------------------------------------------------------------

/// A task is due where it waits in the backlog and either was never stamped or
/// was stamped at least `ttl` seconds ago, and nowhere else.
pub proof fn due_tasks(t: BacklogTask, now: i64, ttl: u64)
    ensures
        eligible(t, now, ttl) <==> t.status == TaskStatus::Backlog && (t.triaged_at is None || now
            - t.triaged_at->Some_0 >= ttl),
{
}

/// The agent is asked about a project without any task: who it is, and that its
/// answer is the id of a task or null.
pub proof fn question_names_the_project(p: TriageProject)
    ensures
        ({
            let q = prompt_text(p, Seq::empty());
            let end = "Project: "@ + p.name@ + "\nRoot: "@ + p.root@ + "\n\nBacklog:\n"@;
            &&& q.len() >= end.len()
            &&& q.skip(q.len() - end.len()) == end
        }),
{
    let q = prompt_text(p, Seq::empty());
    let end = "Project: "@ + p.name@ + "\nRoot: "@ + p.root@ + "\n\nBacklog:\n"@;
    assert(entries(p.tasks@, Seq::empty(), 0) =~= Seq::empty());
    assert(q =~= instructions() + end);
    assert(q.skip(q.len() - end.len()) =~= end);
}

/// With one more task, up to fifty, the question grows by that task: its id, its
/// title, and its prompt to the last character, or where that takes more than
/// 800 bytes the beginning of 800 bytes and an ellipsis.
pub proof fn question_grows_by_the_whole_task(p: TriageProject, which: Seq<int>, k: int, shown: Seq<char>)
    requires
        0 <= k < which.len(),
        k < 50,
        ({
            let prompt = p.tasks@[which[k]].prompt@;
            let bytes = vstd::utf8::encode_utf8(prompt).len();
            &&& bytes <= usize::MAX
            &&& bytes <= 800 ==> shown == prompt
            &&& bytes > 800 ==> shown.is_prefix_of(prompt) && vstd::utf8::encode_utf8(shown).len() == 800
        }),
    ensures
        ({
            let t = p.tasks@[which[k]];
            let title = if t.title is Some {
                t.title->Some_0@
            } else {
                "(untitled)"@
            };
            let end = if vstd::utf8::encode_utf8(t.prompt@).len() > 800 {
                "…\n"@
            } else {
                "\n"@
            };
            prompt_text(p, which.take(k + 1)) == prompt_text(p, which.take(k)) + ("- id="@ + t.task_id@
                + "\n  title: "@ + title + "\n  prompt: "@ + shown + end)
        }),
{
    let a = which.take(k);
    let b = which.take(k + 1);
    let t = p.tasks@[which[k]];
    lemma_entries_agree(p.tasks@, a, b, k);
    assert(b[k] == which[k]);
    let head = instructions() + ("Project: "@ + p.name@ + "\nRoot: "@ + p.root@ + "\n\nBacklog:\n"@);
    assert(prompt_text(p, a) =~= head + entries(p.tasks@, a, k));
    assert(prompt_text(p, b) =~= head + (entries(p.tasks@, a, k) + entry(t)));
    if vstd::utf8::encode_utf8(t.prompt@).len() > 800 {
        crate::text::front_takes_its_bytes(t.prompt@, shown);
        reveal_strlit("…\n");
        reveal_strlit("…");
        reveal_strlit("\n");
        assert("…"@ + "\n"@ =~= "…\n"@);
        assert(shown + "…"@ + "\n"@ =~= shown + "…\n"@);
    }
    assert(prompt_text(p, b) =~= prompt_text(p, a) + entry(t));
    let title = if t.title is Some {
        t.title->Some_0@
    } else {
        "(untitled)"@
    };
    let end = if vstd::utf8::encode_utf8(t.prompt@).len() > 800 {
        "…\n"@
    } else {
        "\n"@
    };
    assert(entry(t) =~= "- id="@ + t.task_id@ + "\n  title: "@ + title + "\n  prompt: "@ + shown + end);
}

proof fn lemma_entries_agree(tasks: Seq<BacklogTask>, a: Seq<int>, b: Seq<int>, n: int)
    requires
        n <= a.len(),
        n <= b.len(),
        forall|i: int| 0 <= i < n ==> a[i] == b[i],
    ensures
        entries(tasks, a, n) == entries(tasks, b, n),
    decreases n,
{
    if n > 0 {
        lemma_entries_agree(tasks, a, b, n - 1);
    }
}

/// Beyond fifty tasks the question says how many there are more, and nothing
/// else of them.
pub proof fn question_counts_what_it_leaves_out(p: TriageProject, which: Seq<int>)
    requires
        which.len() > 50,
    ensures
        prompt_text(p, which) == prompt_text(p, which.take(50)) + ("(+"@ + dec((which.len() - 50) as nat)
            + " more not shown)\n"@),
{
    lemma_entries_agree(p.tasks@, which, which.take(50), 50);
    let more = "(+"@ + dec((which.len() - 50) as nat) + " more not shown)\n"@;
    assert(prompt_text(p, which) =~= prompt_text(p, which.take(50)) + more);
}

/// Two tasks with the same id and title whose prompts differ, neither beyond 800
/// bytes, are not described alike: the agent sees the difference.
pub proof fn prompts_are_told_apart(p: TriageProject, q: TriageProject, i: int, j: int)
    requires
        p.name@ == q.name@,
        p.root@ == q.root@,
        p.tasks@[i].task_id@ == q.tasks@[j].task_id@,
        opt(p.tasks@[i].title) == opt(q.tasks@[j].title),
        vstd::utf8::encode_utf8(p.tasks@[i].prompt@).len() <= 800,
        vstd::utf8::encode_utf8(q.tasks@[j].prompt@).len() <= 800,
        p.tasks@[i].prompt@ != q.tasks@[j].prompt@,
    ensures
        prompt_text(p, seq![i]) != prompt_text(q, seq![j]),
{
    let a = seq![i];
    let b = seq![j];
    let t = p.tasks@[i];
    let u = q.tasks@[j];
    question_grows_by_the_whole_task(p, a, 0, t.prompt@);
    question_grows_by_the_whole_task(q, b, 0, u.prompt@);
    assert(a.take(1) =~= a && a.take(0) =~= Seq::empty());
    assert(b.take(1) =~= b && b.take(0) =~= Seq::empty());
    let none = Seq::<int>::empty();
    assert(entries(p.tasks@, none, 0) == entries(q.tasks@, none, 0));
    assert(prompt_text(p, none) == prompt_text(q, none));
    let title = if t.title is Some {
        t.title->Some_0@
    } else {
        "(untitled)"@
    };
    let head = prompt_text(p, none) + ("- id="@ + t.task_id@ + "\n  title: "@ + title + "\n  prompt: "@);
    assert(prompt_text(p, a) =~= head + t.prompt@ + "\n"@);
    assert(prompt_text(q, b) =~= head + u.prompt@ + "\n"@);
    if prompt_text(p, a) == prompt_text(q, b) {
        reveal_strlit("\n");
        let n = prompt_text(p, a).len() - 1;
        assert(prompt_text(p, a).subrange(head.len() as int, n) =~= t.prompt@);
        assert(prompt_text(q, b).subrange(head.len() as int, n) =~= u.prompt@);
    }
}

proof fn lemma_picks_in_order(tasks: Seq<BacklogTask>, now: i64, ttl: u64, n: int)
    requires
        0 <= n <= tasks.len(),
    ensures
        forall|k: int| 0 <= k < picks(tasks, now, ttl, n).len() ==> 0 <= #[trigger] picks(tasks, now, ttl, n)[k]
            < n,
        forall|k: int, l: int|
            0 <= k < l < picks(tasks, now, ttl, n).len() ==> #[trigger] picks(tasks, now, ttl, n)[k]
                < #[trigger] picks(tasks, now, ttl, n)[l],
    decreases n,
{
    if n > 0 {
        lemma_picks_in_order(tasks, now, ttl, n - 1);
        let before = picks(tasks, now, ttl, n - 1);
        let all = picks(tasks, now, ttl, n);
        assert(forall|k: int| 0 <= k < before.len() ==> all[k] == before[k]);
        assert(forall|k: int| before.len() <= k < all.len() ==> all[k] == n - 1);
    }
}

/// The tasks that the agent is asked about come in the order of the backlog, and
/// each once.
pub proof fn candidates_keep_their_order(p: TriageProject, now: i64, ttl: u64)
    ensures
        forall|k: int, l: int|
            0 <= k < l < candidates(p, now, ttl).len() ==> #[trigger] candidates(p, now, ttl)[k]
                < #[trigger] candidates(p, now, ttl)[l],
{
    lemma_picks_in_order(p.tasks@, now, ttl, p.tasks@.len() as int);
}

/// A project with a task that is due.
pub open spec fn has_due(p: TriageProject, now: i64, ttl: u64) -> bool {
    exists|i: int|
        0 <= i < p.tasks@.len() && (#[trigger] p.tasks@[i]).status == TaskStatus::Backlog && (
        p.tasks@[i].triaged_at is None || now - p.tasks@[i].triaged_at->Some_0 >= ttl)
}

proof fn lemma_first_due(projects: Seq<TriageProject>, now: i64, ttl: u64, i: int)
    requires
        0 <= i <= projects.len(),
    ensures
        ({
            let at = first_with_work(projects, now, ttl, i);
            &&& i <= at <= projects.len()
            &&& at < projects.len() ==> has_due(projects[at], now, ttl)
            &&& forall|j: int| i <= j < at ==> !has_due(#[trigger] projects[j], now, ttl)
        }),
    decreases projects.len() - i,
{
    if i < projects.len() {
        let p = projects[i];
        candidates_are_eligible(p, now, ttl);
        let c = candidates(p, now, ttl);
        if c.len() > 0 {
            let t = p.tasks@[c[0]];
            assert(has_due(p, now, ttl));
        } else {
            if has_due(p, now, ttl) {
                let t = choose|t: int|
                    0 <= t < p.tasks@.len() && (#[trigger] p.tasks@[t]).status == TaskStatus::Backlog && (
                    p.tasks@[t].triaged_at is None || now - p.tasks@[t].triaged_at->Some_0 >= ttl);
                assert(c.contains(t));
            }
            lemma_first_due(projects, now, ttl, i + 1);
        }
    }
}

/// Where triage is on, the agent is asked about the first project that has a
/// task that is due, about exactly its due tasks, and where no project has one
/// nobody is asked and nothing is stamped.
pub proof fn first_project_with_due_tasks_is_asked_about(
    cfg: TriageConfig,
    projects: Vec<TriageProject>,
    now: i64,
    next: TriageState,
    action: TriageAction,
)
    requires
        cfg.enabled,
        steps(cfg, TriageState::Idle, TriageEvent::Scanned { projects, now }, next, action),
    ensures
        (exists|j: int| 0 <= j < projects@.len() && has_due(#[trigger] projects@[j], now, cfg.ttl_secs))
            <==> action is Ask,
        action is Ask <==> next is Asking,
        next matches TriageState::Asking { project_id, project_name, task_ids, now: asked } ==> asked == now
            && exists|at: int|
            {
                let p = #[trigger] projects@[at];
                &&& 0 <= at < projects@.len()
                &&& project_id@ == p.id@
                &&& project_name@ == p.name@
                &&& has_due(p, now, cfg.ttl_secs)
                &&& forall|j: int| 0 <= j < at ==> !has_due(#[trigger] projects@[j], now, cfg.ttl_secs)
                &&& forall|i: int|
                    0 <= i < p.tasks@.len() && (#[trigger] p.tasks@[i]).status == TaskStatus::Backlog && (
                    p.tasks@[i].triaged_at is None || now - p.tasks@[i].triaged_at->Some_0 >= cfg.ttl_secs)
                        ==> texts(task_ids@).contains(p.tasks@[i].task_id@)
            },
        !(action is Ask) ==> (action matches TriageAction::Finish { left, outcome } && left is None
            && outcome.promotion is None && outcome.status is None),
{
    let ttl = cfg.ttl_secs;
    let at = first_with_work(projects@, now, ttl, 0);
    lemma_first_due(projects@, now, ttl, 0);
    if at < projects@.len() {
        let p = projects@[at];
        assert(has_due(p, now, ttl));
        candidates_are_eligible(p, now, ttl);
        let c = candidates(p, now, ttl);
        match next {
            TriageState::Asking { project_id, project_name, task_ids, now: asked } => {
                assert forall|i: int|
                    0 <= i < p.tasks@.len() && (#[trigger] p.tasks@[i]).status == TaskStatus::Backlog && (
                    p.tasks@[i].triaged_at is None || now - p.tasks@[i].triaged_at->Some_0 >= ttl) implies texts(
                    task_ids@,
                ).contains(p.tasks@[i].task_id@) by {
                    assert(eligible(p.tasks@[i], now, ttl));
                    assert(c.contains(i));
                    let k = choose|k: int| 0 <= k < c.len() && c[k] == i;
                    assert(ids_of(p.tasks@, c)[k] == p.tasks@[i].task_id@);
                }
            },
            _ => {},
        }
    }
}

/// What an answer leads to. The id of a task that was asked about starts that
/// task and stamps the others with the time of the scan; null stamps all of them
/// and says how many were held, and where; anything else stamps all of them
/// without a word.
pub proof fn answers_lead_to(
    cfg: TriageConfig,
    project_id: String,
    project_name: String,
    task_ids: Vec<String>,
    now: i64,
    answer: String,
    next: TriageState,
    action: TriageAction,
)
    requires
        answer@.len() >= 2,
        answer@.first() == '{',
        answer@.last() == '}',
        steps(
            cfg,
            TriageState::Asking { project_id, project_name, task_ids, now },
            TriageEvent::Answered(Some(answer)),
            next,
            action,
        ),
    ensures
        ({
            let field = json_member(answer@, "start_task_id"@);
            let ids = texts(task_ids@);
            let promoted = field matches Some(FieldView::Text(id)) && id.len() > 0 && ids.contains(id);
            &&& promoted <==> action is Start
            &&& action matches TriageAction::Start { stamps, task_id } ==> field == Some(
                FieldView::Text(task_id@),
            ) && stamps.at == now && stamps.project_id@ == project_id@ && (next matches TriageState::Starting {
                task_id: starting,
            } && starting@ == task_id@)
            &&& action matches TriageAction::Finish { left, outcome } ==> next is Done && outcome.promotion is None
                && (left matches Some(s) && s.at == now && s.project_id@ == project_id@ && texts(s.task_ids@)
                == ids) && (field == Some(FieldView::Null) <==> outcome.status is Some) && (
            outcome.status matches Some(said) ==> said@ == "triage: held "@ + dec(ids.len()) + " backlog task(s) in "@
                + project_name@)
            &&& !(action is Ask)
        }),
{
    prose_around_is_ignored(Seq::empty(), answer@, Seq::empty());
    assert(Seq::<char>::empty() + answer@ + Seq::<char>::empty() =~= answer@);
    lemma_nobody_chosen(texts(task_ids@), texts(task_ids@).len() as int);
    assert(texts(task_ids@).take(texts(task_ids@).len() as int) =~= texts(task_ids@));
}

proof fn lemma_nobody_chosen(ids: Seq<Seq<char>>, n: int)
    requires
        0 <= n <= ids.len(),
    ensures
        passed_over(ids, None, n) == ids.take(n),
    decreases n,
{
    if n > 0 {
        lemma_nobody_chosen(ids, n - 1);
        assert(ids.take(n - 1).push(ids[n - 1]) =~= ids.take(n));
    } else {
        assert(ids.take(0) =~= Seq::empty());
    }
}

/// Without an answer, or with one that has no braces, all tasks are stamped and
/// nothing is said.
pub proof fn no_answer_stamps_all(
    cfg: TriageConfig,
    project_id: String,
    project_name: String,
    task_ids: Vec<String>,
    now: i64,
    answer: Option<String>,
    next: TriageState,
    action: TriageAction,
)
    requires
        answer matches Some(raw) ==> !raw@.contains('{') || !raw@.contains('}'),
        steps(
            cfg,
            TriageState::Asking { project_id, project_name, task_ids, now },
            TriageEvent::Answered(answer),
            next,
            action,
        ),
    ensures
        next is Done,
        action matches TriageAction::Finish { left, outcome } && outcome.promotion is None && outcome.status is None
            && (left matches Some(s) && s.at == now && s.project_id@ == project_id@ && texts(s.task_ids@)
            == texts(task_ids@)),
{
    lemma_nobody_chosen(texts(task_ids@), texts(task_ids@).len() as int);
    assert(texts(task_ids@).take(texts(task_ids@).len() as int) =~= texts(task_ids@));
    match answer {
        Some(raw) => {
            let s = raw@;
            lemma_find_char(s, '{', 0);
            lemma_last_char_found(s, '}', s.len() as int);
            if braced(s) is Some {
                let a = find_char(s, '{', 0);
                let b = last_char(s, '}', s.len() as int);
                assert(s.contains(s[a]));
                assert(s.contains(s[b]));
            }
        },
        None => {},
    }
}

proof fn lemma_last_char_found(s: Seq<char>, c: char, i: int)
    requires
        0 <= i <= s.len(),
    ensures
        -1 <= last_char(s, c, i) < i || last_char(s, c, i) == -1,
        last_char(s, c, i) >= 0 ==> s[last_char(s, c, i)] == c,
    decreases i,
{
    if i > 0 && s[i - 1] != c {
        lemma_last_char_found(s, c, i - 1);
    }
}

/// What is reported of a start: the session that was started and its prompt, or
/// which task was not started and why. Nothing is stamped any more.
pub proof fn starts_are_reported(
    cfg: TriageConfig,
    task_id: String,
    started: Result<StartedTask, String>,
    next: TriageState,
    action: TriageAction,
)
    requires
        steps(cfg, TriageState::Starting { task_id }, TriageEvent::Started(started), next, action),
    ensures
        next is Done,
        action matches TriageAction::Finish { left, outcome } && left is None && (outcome.status matches Some(said)
            && match started {
            Ok(t) => (outcome.promotion matches Some(p) && p.tmux@ == t.tmux@ && opt(p.orchestrator_prompt) == opt(
                t.orchestrator_prompt,
            )) && said@ == "triage: promoted ["@ + t.task_id@ + "], orchestrator ["@ + t.tmux@ + "] starting…"@,
            Err(e) => outcome.promotion is None && said@ == "triage: failed to promote "@ + task_id@ + ": "@ + e@,
        }),
{
}

} // verus!
