//! Sessions and how their names are shortened.

use crate::parts::{first_line, first_line_of, find_text, position_of, starts_with, begins};
use crate::text::{at_most, cat2, chars_of, minus, slice_of};
use vstd::prelude::*;

verus! {

broadcast use vstd::string::group_string_axioms;

/// What a session is doing.
#[derive(Clone, Copy, Debug, PartialEq, Eq, Structural)]
pub enum SessionState {
    Starting,
    Processing,
    WaitingForInput,
    Question,
    Idle,
    Inactive,
}

/// A tool call that has no result yet, with what it is called on.
#[derive(Debug)]
pub struct CurrentTool {
    pub name: String,
    pub hint: Option<String>,
}

/// One agent session. Times are milliseconds since the epoch.
#[derive(Debug)]
pub struct SessionInfo {
    pub agent_id: String,
    /// The id of the usual agent, which the names of its models begin with.
    pub vendor: String,
    /// The agent's name as a badge shows it.
    pub agent_badge: String,
    pub pid: u32,
    pub session_id: String,
    pub cwd: String,
    pub project_name: String,
    pub started_at: u64,
    pub last_activity: Option<u64>,
    pub state: SessionState,
    /// The state in words.
    pub state_label: String,
    /// Whether the session waits for the user.
    pub needs_attention: bool,
    pub last_user_message: Option<String>,
    pub summary: Option<String>,
    pub title: Option<String>,
    /// Whether a title is being made.
    pub titling: bool,
    pub model: Option<String>,
    pub git_branch: Option<String>,
    pub version: Option<String>,
    pub tmux_session: Option<String>,
    pub current_tool: Option<CurrentTool>,
    pub is_thinking: bool,
    pub context_tokens: Option<u64>,
    pub tool_uses_count: u64,
    /// The session's log.
    pub jsonl_path: Option<String>,
}

/// The text of an optional string.
pub open spec fn opt(o: Option<String>) -> Option<Seq<char>> {
    match o {
        Some(s) => Some(s@),
        None => None,
    }
}

/// The text of an optional string that is not empty.
pub open spec fn filled(o: Option<String>) -> Option<Seq<char>> {
    match o {
        Some(s) => if s@.len() > 0 {
            Some(s@)
        } else {
            None
        },
        None => None,
    }
}

/// The text of an optional string, empty where there is none.
pub open spec fn or_empty(o: Option<String>) -> Seq<char> {
    match o {
        Some(s) => s@,
        None => Seq::empty(),
    }
}

pub fn filled_of(o: &Option<String>) -> (r: Option<String>)
    ensures
        opt(r) == filled(*o),
{
    match o {
        Some(s) => if s.as_str().is_empty() {
            None
        } else {
            Some(s.clone())
        },
        None => None,
    }
}

pub fn or_empty_of(o: &Option<String>) -> (r: String)
    ensures
        r@ == or_empty(*o),
{
    match o {
        Some(s) => s.clone(),
        None => String::new(),
    }
}

/// `s`, or where it has more than `max` characters its first `max - 1` and an
/// ellipsis.
pub open spec fn ellipsized(s: Seq<char>, max: int) -> Seq<char> {
    if s.len() <= max {
        s
    } else {
        s.take(minus(max, 1)) + "…"@
    }
}

/// The first line of `s`, ellipsized to `max` characters.
pub open spec fn short_line(s: Seq<char>, max: int) -> Seq<char> {
    ellipsized(first_line(s), max)
}

pub fn ellipsize(s: &str, max: usize) -> (r: String)
    ensures
        r@ == ellipsized(s@, max as int),
{
    let v = chars_of(s);
    if v.len() <= max {
        s.to_owned()
    } else {
        let n: usize = if max > 0 {
            max - 1
        } else {
            0
        };
        let head = slice_of(&v, 0, n);
        assert(head@ =~= s@.take(minus(max as int, 1)));
        cat2(&head, "…")
    }
}

pub fn first_line_truncated(s: &str, max: usize) -> (r: String)
    ensures
        r@ == short_line(s@, max as int),
{
    ellipsize(&first_line_of(s), max)
}

/// An ellipsized text has at most `max` characters, and one where `max` is 0.
pub proof fn ellipsized_fits(s: Seq<char>, max: int)
    requires
        max >= 0,
    ensures
        ellipsized(s, max).len() <= max || ellipsized(s, max).len() == 1,
        s.len() <= max ==> ellipsized(s, max) == s,
{
    reveal_strlit("…");
}

/// The first eight characters of a session's id.
pub open spec fn short_sid(id: Seq<char>) -> Seq<char> {
    id.take(at_most(8, id.len() as int))
}

pub fn short_sid_of(id: &str) -> (r: String)
    ensures
        r@ == short_sid(id@),
{
    let v = chars_of(id);
    let n: usize = if v.len() < 8 {
        v.len()
    } else {
        8
    };
    let r = slice_of(&v, 0, n);
    assert(r@ =~= short_sid(id@));
    r
}

/// The name of a tool without the server it comes from: the last part of
/// `mcp__<server>__<name>`, any other name as it is.
pub open spec fn mcp_leaf(tool: Seq<char>) -> Seq<char> {
    if begins(tool, "mcp__"@) {
        after_last(tool, "__"@, 0)
    } else {
        tool
    }
}

/// What stands in `s` behind the last `sep` from index `i` on, all of it from
/// there where no `sep` follows.
pub open spec fn after_last(s: Seq<char>, sep: Seq<char>, i: int) -> Seq<char>
    decreases s.len() - i,
    when 0 <= i <= s.len() && sep.len() > 0
    via after_last_decreases
{
    let k = find_text(s, sep, i);
    if k < 0 {
        s.skip(i)
    } else {
        after_last(s, sep, k + sep.len())
    }
}

#[via_fn]
proof fn after_last_decreases(s: Seq<char>, sep: Seq<char>, i: int) {
    crate::parts::lemma_find_text(s, sep, i);
}

pub fn mcp_leaf_of(tool: &str) -> (r: String)
    ensures
        r@ == mcp_leaf(tool@),
{
    if !starts_with(tool, "mcp__") {
        return tool.to_owned();
    }
    let v = chars_of(tool);
    let sep = chars_of("__");
    proof {
        reveal_strlit("__");
    }
    let n: usize = v.len();
    let mut i: usize = 0;
    loop
        invariant_except_break
            n == v@.len(),
            v@ == tool@,
            sep@ == "__"@,
            sep@.len() == 2,
            i <= v@.len(),
            after_last(tool@, "__"@, 0) == after_last(tool@, "__"@, i as int),
        ensures
            i <= v@.len(),
            after_last(tool@, "__"@, 0) == tool@.skip(i as int),
        decreases v@.len() - i,
    {
        match position_of(&v, &sep, i) {
            None => {
                break;
            },
            Some(k) => {
                i = k + 2;
            },
        }
    }
    let r = slice_of(&v, i, n);
    assert(r@ =~= tool@.skip(i as int));
    r
}

/// A line that has room is shown as it is, and of a longer text its first line.
pub proof fn short_line_keeps_the_first_line(a: Seq<char>, b: Seq<char>, max: int)
    requires
        !a.contains('\n'),
        a.len() > 0 ==> a.last() != '\r',
        a.len() <= max,
    ensures
        short_line(a, max) == a,
        short_line(a + seq!['\n'] + b, max) == a,
{
    crate::parts::first_line_ends_at_a_line_feed(a, b);
}

/// A line that is too long loses its end to an ellipsis.
pub proof fn short_line_cuts_longer_lines(a: Seq<char>, b: Seq<char>, max: int)
    requires
        !a.contains('\n'),
        a.last() != '\r',
        0 <= max < a.len(),
    ensures
        short_line(a, max) == a.take(if max > 0 {
            max - 1
        } else {
            0
        }) + "…"@,
        short_line(a + seq!['\n'] + b, max) == short_line(a, max),
{
    crate::parts::first_line_ends_at_a_line_feed(a, b);
}

proof fn lemma_after_last(s: Seq<char>, sep: Seq<char>, i: int)
    requires
        0 <= i <= s.len(),
        sep.len() > 0,
        i == 0 || crate::parts::stands_at(s, sep, i - sep.len()),
    ensures
        ({
            let r = after_last(s, sep, i);
            let at = s.len() - r.len();
            &&& i <= at <= s.len()
            &&& r == s.skip(at)
            &&& at == 0 || crate::parts::stands_at(s, sep, at - sep.len())
            &&& !crate::parts::holds(r, sep)
        }),
    decreases s.len() - i,
{
    crate::parts::lemma_find_text(s, sep, i);
    let k = find_text(s, sep, i);
    if k < 0 {
        let r = s.skip(i);
        assert forall|j: int| !crate::parts::stands_at(r, sep, j) by {
            if crate::parts::stands_at(r, sep, j) {
                assert(r.subrange(j, j + sep.len()) =~= s.subrange(i + j, i + j + sep.len()));
                assert(crate::parts::stands_at(s, sep, i + j));
            }
        }
    } else {
        lemma_after_last(s, sep, k + sep.len());
    }
}

/// Of a tool that a server offers only what follows the last two underscores is told; no
/// other tool is shortened.
pub proof fn servers_are_left_out(tool: Seq<char>)
    ensures
        !begins(tool, "mcp__"@) ==> mcp_leaf(tool) == tool,
        begins(tool, "mcp__"@) ==> {
            let at = tool.len() - mcp_leaf(tool).len();
            &&& 5 <= at <= tool.len()
            &&& mcp_leaf(tool) == tool.skip(at)
            &&& tool.subrange(at - 2, at) == "__"@
            &&& !crate::parts::holds(mcp_leaf(tool), "__"@)
        },
{
    if begins(tool, "mcp__"@) {
        reveal_strlit("mcp__");
        reveal_strlit("__");
        lemma_after_last(tool, "__"@, 0);
        let r = mcp_leaf(tool);
        let at = tool.len() - r.len();
        if at < 5 {
            assert(tool.take(5)[3] == '_' && tool.take(5)[4] == '_');
            if at <= 3 {
                assert(r[3 - at] == tool[3] && r[4 - at] == tool[4]);
                assert(r.subrange(3 - at, 5 - at) =~= "__"@);
                assert(crate::parts::stands_at(r, "__"@, 3 - at));
            } else {
                assert(tool.subrange(2, 4)[0] == tool[2]);
                assert(tool.take(5)[2] == 'p');
            }
        }
    }
}

} // verus!
