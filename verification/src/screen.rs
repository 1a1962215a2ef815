//! The frame of the screen: the title bar, the tabs and the status bar.

use crate::geometry::{asked, has_spare, layout_split, part, Constraint, Rect};
use crate::palette::{accent_blue, band_bg, rgb, sep_gray};
use crate::style::{bg, blank, fg, line_text, ln, Color, Line, SpanView, Style};
use crate::tasks::TaskStatus;
use crate::text::{cat2, cat3, dec, text_count, text_dec};
use vstd::prelude::*;

verus! {

broadcast use vstd::string::group_string_axioms;

/// The screens that the tabs switch between.
#[derive(Clone, Copy, Debug, PartialEq, Eq, Structural)]
pub enum Tab {
    Tasks,
    Projects,
    Sessions,
    Metrics,
}

/// A tab with its label.
#[derive(Debug)]
pub struct TabLabel {
    pub tab: Tab,
    pub label: String,
}

// ---------------------------------------------------------------------------
// Tabs
// ---------------------------------------------------------------------------

pub open spec fn tab_style(active: bool) -> Style {
    if active {
        fg(Color::Black).on(accent_blue()).bold()
    } else {
        fg(rgb(170, 170, 190)).on(rgb(40, 40, 52))
    }
}

/// The first `n` tabs, with a gap behind each but the last of all.
pub open spec fn tab_spans(tabs: Seq<TabLabel>, current: Tab, n: int) -> Seq<SpanView>
    decreases n,
{
    if n <= 0 {
        blank()
    } else {
        tab_spans(tabs, current, n - 1) + ln(
            " "@ + tabs[n - 1].label@ + " "@,
            tab_style(tabs[n - 1].tab == current),
        ) + if n < tabs.len() {
            ln(" "@, bg(band_bg()))
        } else {
            blank()
        }
    }
}

/// The row of tabs and the keys that switch between them.
pub open spec fn tab_strip(tabs: Seq<TabLabel>, current: Tab) -> Seq<SpanView> {
    ln("  "@, bg(band_bg())) + tab_spans(tabs, current, tabs.len() as int) + ln(
        "   ⇥/K next · ⇧⇥/J prev tab"@,
        fg(rgb(80, 80, 95)).on(band_bg()),
    )
}

/// The row of the tabs in the middle of their band, or nothing where the band
/// has no row.
pub fn render_tab_strip(area: Rect, tabs: &Vec<TabLabel>, current: Tab) -> (r: Option<(Rect, Line)>)
    requires
        area.fits(),
    ensures
        match r {
            None => area.height == 0,
            Some((row, line)) => {
                &&& area.height > 0
                &&& row == (Rect {
                    y: (area.y + area.height as int / 2) as u16,
                    height: 1,
                    ..area
                })
                &&& line@ == tab_strip(tabs@, current)
            },
        },
{
    if area.height == 0 {
        return None;
    }
    let mut line = Line::of("  ", bg(band_bg()));
    let mut all = Line::empty();
    let mut i: usize = 0;
    while i < tabs.len()
        invariant
            i <= tabs@.len(),
            all@ == tab_spans(tabs@, current, i as int),
        decreases tabs@.len() - i,
    {
        let style = if tabs[i].tab == current {
            fg(Color::Black).on(accent_blue()).bold()
        } else {
            fg(rgb(170, 170, 190)).on(rgb(40, 40, 52))
        };
        all.put(&cat3(" ", &tabs[i].label, " "), style);
        let gap = if i + 1 < tabs.len() {
            Line::of(" ", bg(band_bg()))
        } else {
            Line::empty()
        };
        all.join(gap);
        i += 1;
    }
    line.join(all);
    line.put("   ⇥/K next · ⇧⇥/J prev tab", fg(rgb(80, 80, 95)).on(band_bg()));
    let row = Rect { x: area.x, y: area.y + area.height / 2, width: area.width, height: 1 };
    Some((row, line))
}

// ---------------------------------------------------------------------------
// The title bar
// ---------------------------------------------------------------------------

/// How many sessions were begun today and this week.
#[derive(Clone, Copy, Debug, PartialEq, Eq, Structural)]
pub struct SessionCounts {
    pub today: u64,
    pub week: u64,
}

pub open spec fn session_counts(c: SessionCounts) -> Seq<SpanView> {
    if c.today == 0 && c.week == 0 {
        blank()
    } else {
        ln(" today "@, fg(Color::DarkGray)) + ln(dec(c.today as nat), fg(Color::White).bold()) + ln(
            " │ "@,
            fg(sep_gray()),
        ) + ln("this wk "@, fg(Color::DarkGray)) + ln(dec(c.week as nat), fg(Color::White).bold())
    }
}

pub fn build_session_count_spans(c: SessionCounts) -> (r: Line)
    ensures
        r@ == session_counts(c),
{
    if c.today == 0 && c.week == 0 {
        return Line::empty();
    }
    let mut l = Line::of(" today ", fg(Color::DarkGray));
    l.put(&text_dec(c.today), fg(Color::White).bold());
    l.put(" │ ", fg(sep_gray()));
    l.put("this wk ", fg(Color::DarkGray));
    l.put(&text_dec(c.week), fg(Color::White).bold());
    l
}

pub open spec fn title_left(total: int, attention: int) -> Seq<SpanView> {
    ln(" 󰚩 cc-hub "@, fg(Color::White).bold()) + ln(
        dec(total as nat) + " sessions"@,
        fg(Color::DarkGray),
    ) + if attention > 0 {
        ln("  󰂞 "@ + dec(attention as nat) + " need attention"@, fg(Color::Yellow).bold())
    } else {
        blank()
    }
}

/// The counts and the usage, with a bar between them where both take room.
pub open spec fn title_right(c: SessionCounts, usage: Seq<SpanView>, usage_width: int) -> Seq<SpanView> {
    session_counts(c) + (if session_counts(c).len() > 0 && usage_width > 0 {
        ln(" │ "@, fg(sep_gray()))
    } else {
        blank()
    }) + usage
}

/// The columns that `ratatui::text::Line` says a line takes.
pub uninterp spec fn line_width(line: Seq<SpanView>) -> usize;

/// `ratatui::text::Line::width`: the columns that the line takes, a function
/// of its spans, and none where it has none.
#[verifier::external_body]
fn width_of(line: &Line) -> (r: usize)
    ensures
        r == line_width(line@),
        line@.len() == 0 ==> r == 0,
{
    let span = |s: &crate::style::Span| ratatui::text::Span::raw(s.text.clone());
    ratatui::text::Line::from(line.spans.iter().map(span).collect::<Vec<_>>()).width()
}

/// A line of the title bar and its place.
#[derive(Debug)]
pub struct TitleBar {
    pub left_area: Rect,
    pub left: Line,
    /// Where the right line goes, if it fits beside the left one.
    pub right_area: Option<Rect>,
    pub right: Line,
}

/// The right line stands beside the left one.
pub open spec fn both_fit(left: u16, right: u16, width: u16) -> bool {
    right != 0 && left + right <= width
}

/// The places of two lines of these widths: the whole bar for the left one
/// where they do not both fit.
pub fn title_areas(area: Rect, left: u16, right: u16) -> (r: (Rect, Option<Rect>))
    requires
        area.fits(),
    ensures
        if both_fit(left, right, area.width) {
            r == (
                part(area, false, 0, area.width - right),
                Some(part(area, false, area.width - right, right as int)),
            )
        } else {
            r == (area, None::<Rect>)
        },
        r.1 is Some <==> 0 < right && left + right <= area.width,
        r.1 matches Some(q) ==> q.width == right && r.0.width >= left && r.0.x == area.x && q.x == area.x + r.0.width
            && r.0.width + q.width == area.width,
{
    if right == 0 || left as u32 + right as u32 > area.width as u32 {
        return (area, None);
    }
    let mut parts: Vec<Constraint> = Vec::new();
    parts.push(Constraint::Min(0));
    parts.push(Constraint::Length(right));
    let areas = layout_split(area, false, &parts);
    proof {
        reveal_with_fuel(asked, 3);
        assert(has_spare(parts@, 0));
    }
    (areas[0], Some(areas[1]))
}

/// The title bar. `usage` is what the limits say.
pub fn render_title_bar(
    area: Rect,
    total: usize,
    attention: usize,
    counts: SessionCounts,
    usage: &Line,
) -> (r: TitleBar)
    requires
        area.fits(),
    ensures
        r.left@ == title_left(total as int, attention as int),
        r.right@ == title_right(counts, usage@, line_width(usage@) as int),
        ({
            let left = line_width(r.left@) as u16;
            let right = line_width(r.right@) as u16;
            if both_fit(left, right, area.width) {
                &&& r.left_area == part(area, false, 0, area.width - right)
                &&& r.right_area == Some(part(area, false, area.width - right, right as int))
            } else {
                &&& r.left_area == area
                &&& r.right_area is None
            }
        }),
{
    let mut left = Line::of(" 󰚩 cc-hub ", fg(Color::White).bold());
    left.put(&cat2(&text_count(total), " sessions"), fg(Color::DarkGray));
    let calls = if attention > 0 {
        Line::of(
            &cat3("  󰂞 ", &text_count(attention), " need attention"),
            fg(Color::Yellow).bold(),
        )
    } else {
        Line::empty()
    };
    left.join(calls);
    let mut right = build_session_count_spans(counts);
    let gap = if right.spans.len() > 0 && width_of(usage) > 0 {
        Line::of(" │ ", fg(sep_gray()))
    } else {
        Line::empty()
    };
    right.join(gap);
    right.join(usage.copy());
    let left_w: u16 = #[verifier::truncate] (width_of(&left) as u16);
    let right_w: u16 = #[verifier::truncate] (width_of(&right) as u16);
    let (left_area, right_area) = title_areas(area, left_w, right_w);
    TitleBar { left_area, left, right_area, right }
}

// ---------------------------------------------------------------------------
// The status bar
// ---------------------------------------------------------------------------

#[derive(Clone, Copy, Debug, PartialEq, Eq, Structural)]
pub enum PickerMode {
    Browse,
    Bookmarks,
    Places,
}

/// What lies over the tab, with what the status bar has to know of it.
#[derive(Clone, Copy, Debug, PartialEq, Eq, Structural)]
pub enum Overlay {
    /// The tab itself.
    Grid,
    Popup,
    LiveTail,
    ConfirmClose,
    StateDebug,
    PromptInput,
    ModelPicker { several_agents: bool },
    AgentPicker,
    TaskLinkPicker,
    RenameSession,
    TmuxPane,
    FolderPicker { mode: PickerMode, assigning: bool },
    GhCreateInput,
    ProjectsResult,
    Backlog,
    TodoPanel { adding: bool },
    TaskInput { renaming: bool },
    TaskTags,
    TaskInfo,
    TaskAttachInput { note: bool },
    TaskFilter,
}

/// The keys of the tab. Those used most come first, so that a narrow screen
/// cuts the others.
pub open spec fn tab_keys(tab: Tab) -> Seq<char> {
    match tab {
        Tab::Tasks => "a/n:add  enter/f:focus agent  v:info  s:assign agent  S:agent in ~  h/l:col  j/k:task  H/L:move  /:filter  1-4:priority  t:tags  r:rename  A:attach  p:paste note  x:delete  u:undo  c:clear done  tab:next  q:quit"@,
        Tab::Projects => "enter:focus orch  n:new task  r:result  f:agent terminal/resurrect  R:restart  b:backlog  h/l:col  j/k:task  H/L:project  N:register project  c:copy id  x:delete task  X:remove project  tab:next  q:quit"@,
        Tab::Sessions => "enter/f:focus/resume  n:new  A:default agent  N:new+model  p:new in…  i:info  r:rename  L:link task  t:to-do  o:shell  M:bookmarks  D:why?  h/j/k/l:nav  v:layout  x:close  H:inactive  W:workers  tab:next  q:quit"@,
        Tab::Metrics => "enter:view transcript  j/k:select  r:refresh  tab:next  q:quit"@,
    }
}

/// The keys of a folder picker.
pub open spec fn picker_keys(mode: PickerMode, assigning: bool) -> Seq<char> {
    match mode {
        PickerMode::Bookmarks => "j/k:move  enter/space:pick  m:unbookmark  esc:cancel"@,
        PickerMode::Places => "type:filter  ↑/↓:move  enter/space:pick  tab:browse folders  esc:cancel"@,
        PickerMode::Browse => if assigning {
            "j/k:move  enter:descend  bksp:parent  space:pick  .:pick cwd  tab:projects  esc:cancel"@
        } else {
            "j/k:move  enter:descend  bksp:parent  space:pick  .:pick cwd  m:bookmark  c/C:gh new (pub/priv)  esc:cancel"@
        },
    }
}

/// The keys of what is on the screen.
pub open spec fn keys(view: Overlay, tab: Tab) -> Seq<char> {
    match view {
        Overlay::Grid => tab_keys(tab),
        Overlay::Popup => "j/k:scroll  esc:close  q:close"@,
        Overlay::LiveTail => "j/k:scroll  G:bottom  esc:close"@,
        Overlay::ConfirmClose => "y:confirm  n/esc:cancel"@,
        Overlay::StateDebug => "j/k:scroll  esc:close  q:close"@,
        Overlay::PromptInput => "type prompt  enter:create task  esc:cancel"@,
        Overlay::ModelPicker { several_agents } => if several_agents {
            "type:filter  ↑/↓:move  tab:agent  enter/space:start  esc:cancel"@
        } else {
            "type:filter  ↑/↓:move  enter/space:start  esc:cancel"@
        },
        Overlay::AgentPicker => "j/k:move  enter/space:select default  esc:cancel"@,
        Overlay::TaskLinkPicker => "type:filter  ↑/↓:move  enter/space:link  esc:cancel"@,
        Overlay::RenameSession => "edit title  enter:rename  esc:cancel"@,
        Overlay::TodoPanel { adding } => if adding {
            "type task  enter:add  esc:cancel"@
        } else {
            "j/k:move  space/enter:toggle  a:add  d:delete  c:clear done  t/esc:close"@
        },
        Overlay::TmuxPane => "forwarding keys to tmux · F1: detach & close"@,
        Overlay::FolderPicker { mode, assigning } => picker_keys(mode, assigning),
        Overlay::GhCreateInput => "type name  tab:toggle public/private  enter:create  esc:cancel"@,
        Overlay::TaskInput { renaming } => if renaming {
            "edit task  enter:rename  esc:cancel"@
        } else {
            "type task  enter:add  esc:cancel"@
        },
        Overlay::TaskTags => "edit tags  space/comma separates  enter:save  esc:cancel"@,
        Overlay::TaskInfo => "j/k:attachment  a:attach  p:paste note  c:copy path  o:open  x:remove  PgUp/PgDn:scroll  esc/v:close"@,
        Overlay::TaskAttachInput { note } => if note {
            "type note  tab:file/URL  enter:attach  esc:cancel"@
        } else {
            "paste path or URL  tab:note  enter:attach  esc:cancel"@
        },
        Overlay::TaskFilter => "type to filter (text or #tag)  enter:apply  esc:clear"@,
        Overlay::ProjectsResult => "j/k:artifact  e:expand  PgUp/PgDn:scroll  c:copy path  o:xdg-open  esc/r:close"@,
        Overlay::Backlog => "j/k:select  s/enter:start  x:delete  esc/q:close"@,
    }
}

fn tab_keys_text(tab: Tab) -> (r: String)
    ensures
        r@ == tab_keys(tab),
{
    match tab {
        Tab::Tasks => "a/n:add  enter/f:focus agent  v:info  s:assign agent  S:agent in ~  h/l:col  j/k:task  H/L:move  /:filter  1-4:priority  t:tags  r:rename  A:attach  p:paste note  x:delete  u:undo  c:clear done  tab:next  q:quit".to_owned(),
        Tab::Projects => "enter:focus orch  n:new task  r:result  f:agent terminal/resurrect  R:restart  b:backlog  h/l:col  j/k:task  H/L:project  N:register project  c:copy id  x:delete task  X:remove project  tab:next  q:quit".to_owned(),
        Tab::Sessions => "enter/f:focus/resume  n:new  A:default agent  N:new+model  p:new in…  i:info  r:rename  L:link task  t:to-do  o:shell  M:bookmarks  D:why?  h/j/k/l:nav  v:layout  x:close  H:inactive  W:workers  tab:next  q:quit".to_owned(),
        Tab::Metrics => "enter:view transcript  j/k:select  r:refresh  tab:next  q:quit".to_owned(),
    }
}

fn picker_keys_text(mode: PickerMode, assigning: bool) -> (r: String)
    ensures
        r@ == picker_keys(mode, assigning),
{
    match mode {
        PickerMode::Bookmarks => "j/k:move  enter/space:pick  m:unbookmark  esc:cancel".to_owned(),
        PickerMode::Places => "type:filter  ↑/↓:move  enter/space:pick  tab:browse folders  esc:cancel".to_owned(),
        PickerMode::Browse => if assigning {
            "j/k:move  enter:descend  bksp:parent  space:pick  .:pick cwd  tab:projects  esc:cancel".to_owned()
        } else {
            "j/k:move  enter:descend  bksp:parent  space:pick  .:pick cwd  m:bookmark  c/C:gh new (pub/priv)  esc:cancel".to_owned()
        },
    }
}

/// The keys of what is on the screen.
pub fn keybinds(view: Overlay, tab: Tab) -> (r: String)
    ensures
        r@ == keys(view, tab),
{
    match view {
        Overlay::Grid => tab_keys_text(tab),
        Overlay::Popup => "j/k:scroll  esc:close  q:close".to_owned(),
        Overlay::LiveTail => "j/k:scroll  G:bottom  esc:close".to_owned(),
        Overlay::ConfirmClose => "y:confirm  n/esc:cancel".to_owned(),
        Overlay::StateDebug => "j/k:scroll  esc:close  q:close".to_owned(),
        Overlay::PromptInput => "type prompt  enter:create task  esc:cancel".to_owned(),
        Overlay::ModelPicker { several_agents } => if several_agents {
            "type:filter  ↑/↓:move  tab:agent  enter/space:start  esc:cancel".to_owned()
        } else {
            "type:filter  ↑/↓:move  enter/space:start  esc:cancel".to_owned()
        },
        Overlay::AgentPicker => "j/k:move  enter/space:select default  esc:cancel".to_owned(),
        Overlay::TaskLinkPicker => "type:filter  ↑/↓:move  enter/space:link  esc:cancel".to_owned(),
        Overlay::RenameSession => "edit title  enter:rename  esc:cancel".to_owned(),
        Overlay::TodoPanel { adding } => if adding {
            "type task  enter:add  esc:cancel".to_owned()
        } else {
            "j/k:move  space/enter:toggle  a:add  d:delete  c:clear done  t/esc:close".to_owned()
        },
        Overlay::TmuxPane => "forwarding keys to tmux · F1: detach & close".to_owned(),
        Overlay::FolderPicker { mode, assigning } => picker_keys_text(mode, assigning),
        Overlay::GhCreateInput => "type name  tab:toggle public/private  enter:create  esc:cancel".to_owned(),
        Overlay::TaskInput { renaming } => if renaming {
            "edit task  enter:rename  esc:cancel".to_owned()
        } else {
            "type task  enter:add  esc:cancel".to_owned()
        },
        Overlay::TaskTags => "edit tags  space/comma separates  enter:save  esc:cancel".to_owned(),
        Overlay::TaskInfo => "j/k:attachment  a:attach  p:paste note  c:copy path  o:open  x:remove  PgUp/PgDn:scroll  esc/v:close".to_owned(),
        Overlay::TaskAttachInput { note } => if note {
            "type note  tab:file/URL  enter:attach  esc:cancel".to_owned()
        } else {
            "paste path or URL  tab:note  enter:attach  esc:cancel".to_owned()
        },
        Overlay::TaskFilter => "type to filter (text or #tag)  enter:apply  esc:clear".to_owned(),
        Overlay::ProjectsResult => "j/k:artifact  e:expand  PgUp/PgDn:scroll  c:copy path  o:xdg-open  esc/r:close".to_owned(),
        Overlay::Backlog => "j/k:select  s/enter:start  x:delete  esc/q:close".to_owned(),
    }
}

/// A message for the user and how long ago it came.
#[derive(Debug)]
pub struct StatusMessage {
    pub text: String,
    pub age_ms: u64,
}

/// Prompts that wait for their session: the first one's target and age, and
/// how many there are.
#[derive(Debug)]
pub struct PendingDispatch {
    pub target: String,
    pub age_secs: u64,
    pub queued: usize,
}

#[derive(Debug)]
pub struct Status {
    pub view: Overlay,
    pub tab: Tab,
    /// The status of the task that is selected on the tasks board.
    pub board_task: Option<TaskStatus>,
    pub message: Option<StatusMessage>,
    /// How long a message stays.
    pub message_ttl_ms: u64,
    pub dispatch: Option<PendingDispatch>,
    pub refreshed_secs: u64,
    /// The time since the last refresh in words.
    pub refreshed: String,
}

/// The message, while it is fresh.
pub open spec fn fresh(s: Status) -> Option<Seq<char>> {
    match s.message {
        Some(m) => if m.age_ms < s.message_ttl_ms {
            Some(m.text@)
        } else {
            None
        },
        None => None,
    }
}

/// What the space bar does on the tab itself: it approves a task's plan while
/// one is selected that is being planned.
pub open spec fn space_verb(s: Status) -> Option<Seq<char>> {
    match (s.view, s.tab) {
        (Overlay::Grid, Tab::Tasks) => Some(
            if s.board_task == Some(TaskStatus::Planning) {
                "proceed "@
            } else {
                "done "@
            },
        ),
        (Overlay::Grid, Tab::Projects) => Some("approve "@),
        (Overlay::Grid, Tab::Sessions) => Some("ack "@),
        _ => None,
    }
}

pub open spec fn space_chip(verb: Option<Seq<char>>) -> Seq<SpanView> {
    match verb {
        Some(v) => ln(" Space "@, fg(Color::White).bold()) + ln(v, fg(Color::LightCyan).bold()),
        None => blank(),
    }
}

/// The fresh message, or else the keys behind what the space bar does.
pub open spec fn status_head(s: Status) -> Seq<SpanView> {
    match fresh(s) {
        Some(m) => ln(" "@ + m + " "@, fg(Color::Green).bold()),
        None => space_chip(space_verb(s)) + ln(
            " "@ + keys(s.view, s.tab) + " "@,
            fg(Color::DarkGray),
        ),
    }
}

pub open spec fn queued_suffix(queued: int) -> Seq<char> {
    if queued > 1 {
        " +"@ + dec((queued - 1) as nat)
    } else {
        ""@
    }
}

pub open spec fn dispatch_notice(d: Option<PendingDispatch>) -> Seq<SpanView> {
    match d {
        Some(p) => ln(
            " ↻ dispatch waiting ["@ + p.target@ + queued_suffix(p.queued as int) + "] "@ + dec(
                p.age_secs as nat,
            ) + "s "@,
            fg(Color::Yellow).bold(),
        ),
        None => blank(),
    }
}

pub open spec fn refresh_notice(s: Status) -> Seq<SpanView> {
    ln(
        "refreshed "@ + (if s.refreshed_secs < 2 {
            "just now"@
        } else {
            s.refreshed@
        }) + " "@,
        fg(Color::DarkGray),
    )
}

pub open spec fn status_line(s: Status) -> Seq<SpanView> {
    status_head(s) + dispatch_notice(s.dispatch) + refresh_notice(s)
}

fn space_verb_text(s: &Status) -> (r: Option<String>)
    ensures
        crate::models::opt(r) == space_verb(*s),
{
    match (s.view, s.tab) {
        (Overlay::Grid, Tab::Tasks) => {
            let planning = match s.board_task {
                Some(status) => status == TaskStatus::Planning,
                None => false,
            };
            if planning {
                Some("proceed ".to_owned())
            } else {
                Some("done ".to_owned())
            }
        },
        (Overlay::Grid, Tab::Projects) => Some("approve ".to_owned()),
        (Overlay::Grid, Tab::Sessions) => Some("ack ".to_owned()),
        _ => None,
    }
}

fn build_head(s: &Status) -> (r: Line)
    ensures
        r@ == status_head(*s),
{
    let is_fresh = match &s.message {
        Some(m) => m.age_ms < s.message_ttl_ms,
        None => false,
    };
    match &s.message {
        Some(m) => if is_fresh {
            return Line::of(&cat3(" ", &m.text, " "), fg(Color::Green).bold());
        },
        None => {},
    }
    let mut l = match space_verb_text(s) {
        Some(verb) => {
            let mut chip = Line::of(" Space ", fg(Color::White).bold());
            chip.put(&verb, fg(Color::LightCyan).bold());
            chip
        },
        None => Line::empty(),
    };
    l.put(&cat3(" ", &keybinds(s.view, s.tab), " "), fg(Color::DarkGray));
    l
}

/// The status bar.
pub fn render_status_bar(s: &Status) -> (r: Line)
    ensures
        r@ == status_line(*s),
{
    let mut l = build_head(s);
    let notice = match &s.dispatch {
        Some(p) => {
            let suffix = if p.queued > 1 {
                cat2(" +", &text_count(p.queued - 1))
            } else {
                "".to_owned()
            };
            let text = cat2(
                &cat2(&cat3(" ↻ dispatch waiting [", &p.target, &suffix), "] "),
                &text_dec(p.age_secs),
            );
            Line::of(&cat2(&text, "s "), fg(Color::Yellow).bold())
        },
        None => Line::empty(),
    };
    l.join(notice);
    let when = if s.refreshed_secs < 2 {
        "just now"
    } else {
        s.refreshed.as_str()
    };
    l.put(&cat3("refreshed ", when, " "), fg(Color::DarkGray));
    l
}

/// Where the space bar does something and no message is fresh, that stands
/// first, so that a narrow screen never cuts it before the other keys.
pub proof fn space_chip_comes_first(s: Status)
    requires
        fresh(s) is None,
        space_verb(s) is Some,
    ensures
        status_line(s)[0].text == " Space "@,
        Some(status_line(s)[1].text) == space_verb(s),
{
}

/// A fresh message takes the place of the keys, and the time of the refresh
/// is always last.
pub proof fn message_replaces_keys(s: Status)
    ensures
        fresh(s) matches Some(m) ==> status_line(s)[0].text == " "@ + m + " "@ && status_line(s).len()
            <= 3,
        status_line(s).last() == refresh_notice(s)[0],
{
}

// ---------------------------------------------------------------------------
// What the bars tell
// ---------------------------------------------------------------------------

proof fn lemma_tab(tabs: Seq<TabLabel>, current: Tab, n: int, i: int)
    requires
        0 <= i < n <= tabs.len(),
    ensures
        tab_spans(tabs, current, n).len() == if n < tabs.len() {
            2 * n
        } else {
            2 * n - 1
        },
        tab_spans(tabs, current, n)[2 * i].text == " "@ + tabs[i].label@ + " "@,
        tab_spans(tabs, current, n)[2 * i].style == tab_style(tabs[i].tab == current),
    decreases n,
{
    reveal_with_fuel(tab_spans, 2);
    if n > 1 {
        lemma_tab(tabs, current, n - 1, if i < n - 1 {
            i
        } else {
            0
        });
    }
}

/// The tabs stand in their order, and only the one that is open is marked.
pub proof fn tabs_stand_in_order(tabs: Seq<TabLabel>, current: Tab, i: int)
    requires
        0 <= i < tabs.len(),
    ensures
        tab_strip(tabs, current)[1 + 2 * i].text == " "@ + tabs[i].label@ + " "@,
        tabs[i].tab == current ==> tab_strip(tabs, current)[1 + 2 * i].style.bg == Some(accent_blue()),
        tabs[i].tab != current ==> tab_strip(tabs, current)[1 + 2 * i].style.bg == Some(rgb(40, 40, 52)),
        tab_strip(tabs, current).last().text == "   ⇥/K next · ⇧⇥/J prev tab"@,
{
    lemma_tab(tabs, current, tabs.len() as int, i);
    let spans = tab_spans(tabs, current, tabs.len() as int);
    assert(tab_strip(tabs, current)[1 + 2 * i] == spans[2 * i]);
}

/// The title bar: how many sessions there are and how many need attention, where any does;
/// at the other end how many were active today and this week, and the usage.
pub proof fn title_bar_tells_the_counts(
    total: int,
    attention: int,
    c: SessionCounts,
    usage: Seq<SpanView>,
    usage_width: int,
)
    requires
        total >= 0,
        c.today > 0 || c.week > 0,
        usage_width > 0,
    ensures
        line_text(title_left(total, attention)) == " 󰚩 cc-hub "@ + (dec(total as nat) + " sessions"@) + (if attention
            > 0 {
            "  󰂞 "@ + dec(attention as nat) + " need attention"@
        } else {
            Seq::empty()
        }),
        line_text(title_right(c, usage, usage_width)) == (" today "@ + dec(c.today as nat) + " │ "@ + "this wk "@ + dec(
            c.week as nat,
        )) + " │ "@ + line_text(usage),
{
    broadcast use {crate::style::joined_line_text, crate::style::span_line_text, crate::style::blank_line_text};

}

/// Without any session to count, the usage stands alone.
pub proof fn title_bar_leaves_out_nothing(usage: Seq<SpanView>, usage_width: int)
    ensures
        line_text(title_right(SessionCounts { today: 0, week: 0 }, usage, usage_width)) == line_text(usage),
{
    broadcast use {crate::style::joined_line_text, crate::style::span_line_text, crate::style::blank_line_text};

    assert(Seq::<char>::empty() + Seq::<char>::empty() + line_text(usage) =~= line_text(usage));
}

/// Only the board itself has the keys of its tab: those of anything above it do not depend
/// on the tab.
pub proof fn overlays_have_their_own_keys(view: Overlay, a: Tab, b: Tab)
    ensures
        !(view is Grid) ==> keys(view, a) == keys(view, b),
        view is Grid && a != b ==> keys(view, a) != keys(view, b),
{
    reveal_strlit("a/n:add  enter/f:focus agent  v:info  s:assign agent  S:agent in ~  h/l:col  j/k:task  H/L:move  /:filter  1-4:priority  t:tags  r:rename  A:attach  p:paste note  x:delete  u:undo  c:clear done  tab:next  q:quit");
    reveal_strlit("enter:focus orch  n:new task  r:result  f:agent terminal/resurrect  R:restart  b:backlog  h/l:col  j/k:task  H/L:project  N:register project  c:copy id  x:delete task  X:remove project  tab:next  q:quit");
    reveal_strlit("enter/f:focus/resume  n:new  A:default agent  N:new+model  p:new in…  i:info  r:rename  L:link task  t:to-do  o:shell  M:bookmarks  D:why?  h/j/k/l:nav  v:layout  x:close  H:inactive  W:workers  tab:next  q:quit");
    reveal_strlit("enter:view transcript  j/k:select  r:refresh  tab:next  q:quit");
    assert(tab_keys(Tab::Tasks)[0] == 'a');
    assert(tab_keys(Tab::Projects)[0] == 'e' && tab_keys(Tab::Projects)[5] == ':' && tab_keys(Tab::Projects)[6]
        == 'f');
    assert(tab_keys(Tab::Sessions)[0] == 'e' && tab_keys(Tab::Sessions)[5] == '/');
    assert(tab_keys(Tab::Metrics)[0] == 'e' && tab_keys(Tab::Metrics)[5] == ':' && tab_keys(Tab::Metrics)[6] == 'v');
}

/// The status bar: a fresh message, or else what the space bar does and the keys; then a
/// dispatch that waits, and when the screen was refreshed.
pub proof fn status_bar_tells_the_state(s: Status)
    ensures
        ({
            let head = if s.message is Some && s.message->Some_0.age_ms < s.message_ttl_ms {
                " "@ + s.message->Some_0.text@ + " "@
            } else {
                (match (s.view, s.tab) {
                    (Overlay::Grid, Tab::Tasks) => " Space "@ + if s.board_task == Some(TaskStatus::Planning) {
                        "proceed "@
                    } else {
                        "done "@
                    },
                    (Overlay::Grid, Tab::Projects) => " Space "@ + "approve "@,
                    (Overlay::Grid, Tab::Sessions) => " Space "@ + "ack "@,
                    _ => Seq::empty(),
                }) + (" "@ + keys(s.view, s.tab) + " "@)
            };
            let waits = match s.dispatch {
                Some(p) => " ↻ dispatch waiting ["@ + p.target@ + (if p.queued > 1 {
                    " +"@ + dec((p.queued - 1) as nat)
                } else {
                    ""@
                }) + "] "@ + dec(p.age_secs as nat) + "s "@,
                None => Seq::empty(),
            };
            let since = "refreshed "@ + (if s.refreshed_secs < 2 {
                "just now"@
            } else {
                s.refreshed@
            }) + " "@;
            line_text(status_line(s)) == head + waits + since
        }),
{
    broadcast use {crate::style::joined_line_text, crate::style::span_line_text, crate::style::blank_line_text};

}

} // verus!
