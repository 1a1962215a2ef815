//! The small popups: the inputs for prompts, tasks, tags, titles and
//! repositories, the confirmations, and the frame of the embedded terminal.

use crate::geometry::{centered_fixed, centered_rect, inner_of, inside, middle, scaled, share_92, Rect};
use crate::palette::{accent_blue, dim_text, rgb};
use crate::parts::{pieces, pieces_of, texts};
use crate::style::{blank, fg, line_text, ln, no_lines, plain, Border, Color, Line, Lines, SpanView};
use crate::task_cards::body_view;
use crate::text::{at_least, at_most, cat2, cat3, cat5, cat7, dec, text_dec};
use vstd::prelude::*;

verus! {

broadcast use vstd::string::group_string_axioms;

/// A popup: its box, and its rows where the box has room for them.
#[derive(Debug)]
pub struct Dialog {
    pub area: Rect,
    pub border: Border,
    pub border_color: Color,
    pub title: Line,
    pub footer: Line,
    pub inner: Rect,
    pub body: Option<Lines>,
}

/// What a popup says.
pub struct DialogView {
    pub border: Border,
    pub border_color: Color,
    pub title: Seq<SpanView>,
    pub footer: Seq<SpanView>,
    pub body: Seq<Seq<SpanView>>,
}

impl Dialog {
    /// It fills `area` and says what `v` does, its rows only where at least
    /// `w` by `h` cells are inside its border.
    pub open spec fn shows(self, area: Rect, v: DialogView, w: int, h: int) -> bool {
        &&& self.area == area
        &&& self.border == v.border
        &&& self.border_color == v.border_color
        &&& self.title@ == v.title
        &&& self.footer@ == v.footer
        &&& self.inner == inside(area)
        &&& body_view(self.body) == if inside(area).width >= w && inside(area).height >= h {
            Some(v.body)
        } else {
            None
        }
    }
}

fn dialog(
    area: Rect,
    border: Border,
    border_color: Color,
    title: Line,
    footer: Line,
    body: Lines,
    w: u16,
    h: u16,
) -> (r: Dialog)
    requires
        area.fits(),
    ensures
        r.shows(
            area,
            (DialogView { border, border_color, title: title@, footer: footer@, body: body@ }),
            w as int,
            h as int,
        ),
{
    let inner = inner_of(area);
    let body = if inner.width >= w && inner.height >= h {
        Some(body)
    } else {
        None
    };
    Dialog { area, border, border_color, title, footer, inner, body }
}

/// The popup of `w` by `h` cells in the middle of the screen.
pub open spec fn boxed(area: Rect, w: int, h: int) -> Rect {
    middle(area, at_most(w, area.width as int), at_most(h, area.height as int))
}

/// What has been typed, with the cursor behind it.
pub open spec fn typed(text: Seq<char>) -> Seq<char> {
    text + "▎"@
}

// ---------------------------------------------------------------------------
// Repositories
// ---------------------------------------------------------------------------

#[derive(Debug)]
pub struct GhCreateInput {
    pub cwd: String,
    pub name: String,
    pub private: bool,
}

pub open spec fn gh_create(input: GhCreateInput) -> DialogView {
    DialogView {
        border: Border::Double,
        border_color: Color::White,
        title: ln(" gh repo create "@, fg(Color::White).bold()),
        footer: ln(
            " type name · tab: toggle public/private · enter: create · esc: cancel "@,
            fg(dim_text()),
        ),
        body: seq![ln(" in "@, fg(Color::DarkGray)) + ln(input.cwd@, fg(accent_blue()))] + seq![
            blank(),
        ] + seq![
            ln(" name: "@, fg(Color::DarkGray)) + ln(typed(input.name@), fg(Color::White).bold()),
        ] + seq![
            ln(" visibility: "@, fg(Color::DarkGray)) + if input.private {
                ln("private"@, fg(rgb(220, 170, 90)).bold())
            } else {
                ln("public"@, fg(rgb(120, 200, 140)).bold())
            },
        ],
    }
}

/// Asks for the name of a repository to create.
pub fn render_gh_create_input(area: Rect, input: &GhCreateInput) -> (r: Dialog)
    requires
        area.fits(),
    ensures
        r.shows(boxed(area, 70, 9), gh_create(*input), 1, 4),
{
    let popup = centered_fixed(area, 70, 9);
    let mut cwd = Line::of(" in ", fg(Color::DarkGray));
    cwd.put(&input.cwd, fg(accent_blue()));
    let mut name = Line::of(" name: ", fg(Color::DarkGray));
    name.put(&cat2(&input.name, "▎"), fg(Color::White).bold());
    let mut visibility = Line::of(" visibility: ", fg(Color::DarkGray));
    let shown = if input.private {
        Line::of("private", fg(rgb(220, 170, 90)).bold())
    } else {
        Line::of("public", fg(rgb(120, 200, 140)).bold())
    };
    visibility.join(shown);
    let mut body = Lines::of(cwd);
    body.put(Line::empty());
    body.put(name);
    body.put(visibility);
    dialog(
        popup,
        Border::Double,
        Color::White,
        Line::of(" gh repo create ", fg(Color::White).bold()),
        Line::of(
            " type name · tab: toggle public/private · enter: create · esc: cancel ",
            fg(dim_text()),
        ),
        body,
        1,
        4,
    )
}

// ---------------------------------------------------------------------------
// Sizes
// ---------------------------------------------------------------------------

/// The rows that `len` characters take in rows of `w`, at least one.
pub open spec fn rows_of(len: int, w: int) -> int {
    if len <= w {
        1
    } else if len % w == 0 {
        len / w
    } else {
        len / w + 1
    }
}

/// The rows that several lines of text take.
pub open spec fn rows_of_all(parts: Seq<Seq<char>>, w: int) -> int
    decreases parts.len(),
{
    if parts.len() == 0 {
        0
    } else {
        rows_of_all(parts.drop_last(), w) + rows_of(parts.last().len() as int, w)
    }
}

/// The rows that what has been typed takes in a box `width` wide that keeps
/// `margin` columns for itself.
pub open spec fn input_rows(parts: Seq<Seq<char>>, width: int, margin: int) -> int {
    if width <= margin {
        1
    } else {
        at_most(rows_of_all(parts, width - margin), 0xffff)
    }
}

/// The height of an input box for so many rows of text.
pub open spec fn input_height(rows: int, height: int) -> int {
    at_most(at_least(at_most(rows + 5, 0xffff), 9), height)
}

/// Where the screen is high enough, an input box grows so that its border, an
/// empty row above and below the text, and its footer all fit.
pub proof fn input_box_fits_text(rows: int, height: int)
    requires
        0 <= rows <= 0xffff - 5,
        rows + 5 <= height,
    ensures
        input_height(rows, height) - 2 >= rows + 3,
{
}

proof fn lemma_rows_of(len: int, w: int)
    requires
        0 <= len,
        1 <= w,
    ensures
        1 <= rows_of(len, w) <= at_least(len, 1),
{
    if len > w {
        assert(1 <= len / w && len / w + (if len % w == 0 { 0int } else { 1 }) <= len) by (nonlinear_arith)
            requires
                len > w,
                w >= 1,
        ;
    }
}

fn count_rows(len: usize, w: usize) -> (r: usize)
    requires
        1 <= w,
    ensures
        r == rows_of(len as int, w as int),
        r >= 1,
{
    proof {
        lemma_rows_of(len as int, w as int);
    }
    if len <= w {
        1
    } else if len % w == 0 {
        len / w
    } else {
        len / w + 1
    }
}

proof fn lemma_rows_of_all(parts: Seq<Seq<char>>, w: int)
    requires
        1 <= w,
    ensures
        rows_of_all(parts, w) >= parts.len(),
    decreases parts.len(),
{
    if parts.len() > 0 {
        lemma_rows_of_all(parts.drop_last(), w);
        lemma_rows_of(parts.last().len() as int, w);
    }
}

fn count_input_rows(parts: &Vec<String>, width: u16, margin: u16) -> (r: u16)
    ensures
        r == input_rows(texts(parts@), width as int, margin as int),
{
    if width <= margin {
        return 1;
    }
    let w: usize = (width - margin) as usize;
    let mut total: usize = 0;
    let mut i: usize = 0;
    assert(texts(parts@).take(0) =~= Seq::empty());
    while i < parts.len()
        invariant
            i <= parts@.len(),
            1 <= w,
            total == at_most(rows_of_all(texts(parts@).take(i as int), w as int), 0xffff),
        decreases parts@.len() - i,
    {
        let len: usize = parts[i].as_str().unicode_len();
        let rows: usize = count_rows(len, w);
        proof {
            assert(texts(parts@).take(i + 1).drop_last() =~= texts(parts@).take(i as int));
            assert(texts(parts@).take(i + 1).last() == parts@[i as int]@);
            lemma_rows_of_all(texts(parts@).take(i as int), w as int);
        }
        total = if rows < 0xffff - total {
            total + rows
        } else {
            0xffff
        };
        i += 1;
    }
    assert(texts(parts@).take(i as int) =~= texts(parts@));
    total as u16
}

fn box_height(rows: u16, height: u16) -> (r: u16)
    ensures
        r == input_height(rows as int, height as int),
{
    let h: u16 = rows.saturating_add(5);
    let h: u16 = if h < 9 {
        9
    } else {
        h
    };
    if h < height {
        h
    } else {
        height
    }
}

fn lesser(a: u16, b: u16) -> (r: u16)
    ensures
        r == at_most(a as int, b as int),
{
    if a < b {
        a
    } else {
        b
    }
}

// ---------------------------------------------------------------------------
// Prompts
// ---------------------------------------------------------------------------

/// The session that a prompt goes to.
#[derive(Debug)]
pub struct DispatchTarget {
    pub pid: u32,
    pub name: String,
    pub tmux: String,
}

#[derive(Debug)]
pub enum PromptTarget {
    /// A new task of a project, for one of several agents or the only one.
    Project { agent: Option<String>, cwd: Option<String>, several_agents: bool },
    /// A session, or a new one where none is idle.
    Session(Option<DispatchTarget>),
}

pub open spec fn or_question(o: Option<String>) -> Seq<char> {
    match o {
        Some(s) => s@,
        None => "?"@,
    }
}

/// Where the prompt goes.
pub open spec fn target_line(t: PromptTarget) -> Seq<SpanView> {
    match t {
        PromptTarget::Project { agent, cwd, several_agents } => ln(
            " → "@ + or_question(agent) + " orchestrator in "@ + or_question(cwd) + " "@,
            fg(Color::Cyan).bold(),
        ),
        PromptTarget::Session(Some(s)) => ln(
            " → "@ + s.name@ + " (PID "@ + dec(s.pid as nat) + ") ["@ + s.tmux@ + "] "@,
            fg(Color::Green).bold(),
        ),
        PromptTarget::Session(None) => ln(
            " → no idle agent — will spawn a new one "@,
            fg(Color::Yellow).bold(),
        ),
    }
}

/// The two keys of every input, the first with what it does.
pub open spec fn input_keys(does: Seq<char>) -> Seq<SpanView> {
    ln("  "@, plain()) + ln("[enter]"@, fg(Color::Green).bold()) + ln(does, fg(Color::DarkGray)) + ln(
        "[esc]"@,
        fg(Color::White).bold(),
    ) + ln(" cancel"@, fg(Color::DarkGray))
}

pub open spec fn agent_keys(t: PromptTarget) -> Seq<SpanView> {
    match t {
        PromptTarget::Project { agent, cwd, several_agents: true } => ln(
            "   "@,
            fg(Color::DarkGray),
        ) + ln("[tab]"@, fg(Color::LightCyan).bold()) + ln(" cycle agent"@, fg(Color::DarkGray)),
        _ => blank(),
    }
}

/// The rows of an input: what has been typed behind a mark, and the keys.
pub open spec fn input_body(mark: Seq<SpanView>, text: Seq<char>, keys: Seq<SpanView>) -> Seq<Seq<SpanView>> {
    seq![blank()] + seq![mark + ln(typed(text), fg(Color::White).bold())] + seq![blank()] + seq![keys]
}

pub open spec fn prompt_view(text: Seq<char>, t: PromptTarget) -> DialogView {
    DialogView {
        border: Border::Double,
        border_color: Color::White,
        title: ln(
            if t is Project {
                " New project task "@
            } else {
                " Dispatch prompt "@
            },
            fg(Color::White).bold(),
        ),
        footer: target_line(t),
        body: input_body(
            ln("  "@, fg(Color::DarkGray)),
            text,
            input_keys(" dispatch   "@) + agent_keys(t),
        ),
    }
}

/// The box of a prompt, wide enough for 76 characters in a row and as high as
/// its lines need.
pub open spec fn prompt_area(area: Rect, text: Seq<char>) -> Rect {
    let w = at_most(80, area.width as int);
    boxed(area, w, input_height(input_rows(pieces(typed(text), '\n'), w, 4), area.height as int))
}

fn build_target(t: &PromptTarget) -> (r: Line)
    ensures
        r@ == target_line(*t),
{
    match t {
        PromptTarget::Project { agent, cwd, several_agents } => {
            let a = text_or_question(agent);
            let c = text_or_question(cwd);
            Line::of(&cat5(" → ", &a, " orchestrator in ", &c, " "), fg(Color::Cyan).bold())
        },
        PromptTarget::Session(Some(s)) => Line::of(
            &cat7(" → ", &s.name, " (PID ", &text_dec(s.pid as u64), ") [", &s.tmux, "] "),
            fg(Color::Green).bold(),
        ),
        PromptTarget::Session(None) => Line::of(
            " → no idle agent — will spawn a new one ",
            fg(Color::Yellow).bold(),
        ),
    }
}

fn text_or_question(o: &Option<String>) -> (r: String)
    ensures
        r@ == or_question(*o),
{
    match o {
        Some(s) => s.as_str().to_owned(),
        None => "?".to_owned(),
    }
}

fn build_keys(does: &str) -> (r: Line)
    ensures
        r@ == input_keys(does@),
{
    let mut l = Line::of("  ", plain());
    l.put("[enter]", fg(Color::Green).bold());
    l.put(does, fg(Color::DarkGray));
    l.put("[esc]", fg(Color::White).bold());
    l.put(" cancel", fg(Color::DarkGray));
    l
}

fn build_input(mark: Line, text: &str, keys: Line) -> (r: Lines)
    ensures
        r@ == input_body(mark@, text@, keys@),
{
    let mut typed_line = mark;
    typed_line.put(&cat2(text, "▎"), fg(Color::White).bold());
    let mut body = Lines::of(Line::empty());
    body.put(typed_line);
    body.put(Line::empty());
    body.put(keys);
    body
}

/// Asks for a prompt.
pub fn render_prompt_input(area: Rect, text: &str, target: &PromptTarget) -> (r: Dialog)
    requires
        area.fits(),
    ensures
        r.shows(prompt_area(area, text@), prompt_view(text@, *target), 1, 1),
{
    let w: u16 = lesser(80, area.width);
    let parts = pieces_of(&cat2(text, "▎"), '\n');
    let rows: u16 = count_input_rows(&parts, w, 4);
    let popup = centered_fixed(area, w, box_height(rows, area.height));
    let title = match target {
        PromptTarget::Project { agent, cwd, several_agents } => " New project task ",
        PromptTarget::Session(s) => " Dispatch prompt ",
    };
    let mut keys = build_keys(" dispatch   ");
    let more = match target {
        PromptTarget::Project { agent, cwd, several_agents: true } => {
            let mut l = Line::of("   ", fg(Color::DarkGray));
            l.put("[tab]", fg(Color::LightCyan).bold());
            l.put(" cycle agent", fg(Color::DarkGray));
            l
        },
        _ => Line::empty(),
    };
    keys.join(more);
    let body = build_input(Line::of("  ", fg(Color::DarkGray)), text, keys);
    dialog(
        popup,
        Border::Double,
        Color::White,
        Line::of(title, fg(Color::White).bold()),
        build_target(target),
        body,
        1,
        1,
    )
}

// ---------------------------------------------------------------------------
// Tasks, tags and titles
// ---------------------------------------------------------------------------

/// The box of a task or of tags.
pub open spec fn task_area(area: Rect, text: Seq<char>) -> Rect {
    let w = at_most(70, area.width as int);
    boxed(area, w, input_height(input_rows(seq![typed(text)], w, 6), area.height as int))
}

pub open spec fn input_view(
    title: Seq<char>,
    hint: Seq<char>,
    mark: Seq<SpanView>,
    text: Seq<char>,
    does: Seq<char>,
) -> DialogView {
    DialogView {
        border: Border::Double,
        border_color: Color::White,
        title: ln(title, fg(Color::White).bold()),
        footer: ln(hint, fg(Color::DarkGray).italic()),
        body: input_body(mark, text, input_keys(does)),
    }
}

pub open spec fn task_view(text: Seq<char>, renaming: bool) -> DialogView {
    if renaming {
        input_view(
            " Rename task "@,
            " edits the text in place "@,
            ln("  + "@, fg(Color::Green)),
            text,
            " rename   "@,
        )
    } else {
        input_view(
            " New task "@,
            " lands in To-Do · #tag !1–!4 inline "@,
            ln("  + "@, fg(Color::Green)),
            text,
            " add   "@,
        )
    }
}

pub open spec fn tags_view(text: Seq<char>) -> DialogView {
    input_view(
        " Edit tags "@,
        " space or comma separates tags "@,
        ln("  # "@, fg(Color::Cyan)),
        text,
        " save   "@,
    )
}

fn task_popup(area: Rect, text: &str) -> (r: Rect)
    requires
        area.fits(),
    ensures
        r == task_area(area, text@),
        r.fits(),
{
    let w: u16 = lesser(70, area.width);
    let mut parts: Vec<String> = Vec::new();
    parts.push(cat2(text, "▎"));
    assert(texts(parts@) =~= seq![typed(text@)]);
    let rows: u16 = count_input_rows(&parts, w, 6);
    centered_fixed(area, w, box_height(rows, area.height))
}

/// Asks for the text of a task, new or not.
pub fn render_task_input(area: Rect, text: &str, renaming: bool) -> (r: Dialog)
    requires
        area.fits(),
    ensures
        r.shows(task_area(area, text@), task_view(text@, renaming), 1, 1),
{
    let popup = task_popup(area, text);
    let (title, hint, does) = if renaming {
        (" Rename task ", " edits the text in place ", " rename   ")
    } else {
        (" New task ", " lands in To-Do · #tag !1–!4 inline ", " add   ")
    };
    let body = build_input(Line::of("  + ", fg(Color::Green)), text, build_keys(does));
    dialog(
        popup,
        Border::Double,
        Color::White,
        Line::of(title, fg(Color::White).bold()),
        Line::of(hint, fg(Color::DarkGray).italic()),
        body,
        1,
        1,
    )
}

/// Asks for the tags of a task.
pub fn render_task_tags(area: Rect, text: &str) -> (r: Dialog)
    requires
        area.fits(),
    ensures
        r.shows(task_area(area, text@), tags_view(text@), 1, 1),
{
    let popup = task_popup(area, text);
    let body = build_input(Line::of("  # ", fg(Color::Cyan)), text, build_keys(" save   "));
    dialog(
        popup,
        Border::Double,
        Color::White,
        Line::of(" Edit tags ", fg(Color::White).bold()),
        Line::of(" space or comma separates tags ", fg(Color::DarkGray).italic()),
        body,
        1,
        1,
    )
}

/// What a session was called.
pub open spec fn former_title(title: Option<String>) -> Seq<char> {
    match title {
        Some(t) => if t@.len() > 0 {
            " was “"@ + t@ + "” "@
        } else {
            " untitled "@
        },
        None => " untitled "@,
    }
}

pub open spec fn rename_view(text: Seq<char>, title: Option<String>) -> DialogView {
    input_view(
        " Rename session "@,
        former_title(title),
        ln("  "@, fg(Color::DarkGray)),
        text,
        " rename   "@,
    )
}

/// Asks for the title of a session.
pub fn render_rename_session(area: Rect, text: &str, original: &Option<String>) -> (r: Dialog)
    requires
        area.fits(),
    ensures
        r.shows(boxed(area, 70, 9), rename_view(text@, *original), 1, 1),
{
    let popup = centered_fixed(area, 70, 9);
    let subtitle = match original {
        Some(t) => if !t.as_str().is_empty() {
            cat3(" was “", t, "” ")
        } else {
            " untitled ".to_owned()
        },
        None => " untitled ".to_owned(),
    };
    let body = build_input(Line::of("  ", fg(Color::DarkGray)), text, build_keys(" rename   "));
    dialog(
        popup,
        Border::Double,
        Color::White,
        Line::of(" Rename session ", fg(Color::White).bold()),
        Line::of(&subtitle, fg(Color::DarkGray).italic()),
        body,
        1,
        1,
    )
}

// ---------------------------------------------------------------------------
// Confirmations
// ---------------------------------------------------------------------------

/// What waits for a confirmation, with the name of what it is done to.
#[derive(Debug)]
pub enum PendingConfirm {
    ProjectDelete(String),
    TaskDelete(String),
    TaskRestart(String),
    Close(String),
}

pub open spec fn confirm_view(p: PendingConfirm) -> DialogView {
    let (title, display, consequence, color) = match p {
        PendingConfirm::ProjectDelete(d) => (
            " Delete project? "@,
            d@,
            "Removes this project from cc-hub and deletes its hub \
             state. The repository directory is not deleted."@,
            Color::Red,
        ),
        PendingConfirm::TaskDelete(d) => (
            " Delete task? "@,
            d@,
            "Kills the orchestrator if it is live and removes this \
             task's state directory. Worker sessions are left alone."@,
            Color::Red,
        ),
        PendingConfirm::TaskRestart(d) => (
            " Restart orchestrator? "@,
            d@,
            "Kills the current orchestrator if it is live, then \
             starts a new one from the original task prompt. Task \
             history is preserved."@,
            Color::Yellow,
        ),
        PendingConfirm::Close(d) => (
            " Close terminal? "@,
            d@,
            "Closes the OS terminal window hosting this session when \
             the platform can resolve it. The tmux session may \
             survive."@,
            Color::Red,
        ),
    };
    DialogView {
        border: Border::Double,
        border_color: color,
        title: ln(title, fg(color).bold()),
        footer: ln(" [Y]es · [N]o · Esc cancel "@, fg(Color::DarkGray)),
        body: seq![blank()] + seq![
            ln("  "@, plain()) + ln(display, fg(Color::White).bold()),
        ] + seq![blank()] + seq![
            ln("  "@, plain()) + ln(consequence, fg(rgb(170, 170, 185))),
        ],
    }
}

/// Asks for a confirmation.
pub fn render_confirm_close(area: Rect, pending: &PendingConfirm) -> (r: Dialog)
    requires
        area.fits(),
    ensures
        r.shows(boxed(area, 76, 8), confirm_view(*pending), 0, 0),
{
    let (title, display, consequence, color) = match pending {
        PendingConfirm::ProjectDelete(d) => (
            " Delete project? ",
            d,
            "Removes this project from cc-hub and deletes its hub \
             state. The repository directory is not deleted.",
            Color::Red,
        ),
        PendingConfirm::TaskDelete(d) => (
            " Delete task? ",
            d,
            "Kills the orchestrator if it is live and removes this \
             task's state directory. Worker sessions are left alone.",
            Color::Red,
        ),
        PendingConfirm::TaskRestart(d) => (
            " Restart orchestrator? ",
            d,
            "Kills the current orchestrator if it is live, then \
             starts a new one from the original task prompt. Task \
             history is preserved.",
            Color::Yellow,
        ),
        PendingConfirm::Close(d) => (
            " Close terminal? ",
            d,
            "Closes the OS terminal window hosting this session when \
             the platform can resolve it. The tmux session may \
             survive.",
            Color::Red,
        ),
    };
    let popup = centered_fixed(area, 76, 8);
    let mut name = Line::of("  ", plain());
    name.put(display, fg(Color::White).bold());
    let mut effect = Line::of("  ", plain());
    effect.put(consequence, fg(rgb(170, 170, 185)));
    let mut body = Lines::of(Line::empty());
    body.put(name);
    body.put(Line::empty());
    body.put(effect);
    dialog(
        popup,
        Border::Double,
        color,
        Line::of(title, fg(color).bold()),
        Line::of(" [Y]es · [N]o · Esc cancel ", fg(Color::DarkGray)),
        body,
        0,
        0,
    )
}

// ---------------------------------------------------------------------------
// The terminal
// ---------------------------------------------------------------------------

pub open spec fn tmux_view(name: Seq<char>) -> DialogView {
    DialogView {
        border: Border::Rounded,
        border_color: rgb(120, 140, 180),
        title: ln(" tmux · "@ + name + " "@, fg(Color::White).bold()),
        footer: ln(" F1 detach & close "@, fg(dim_text())),
        body: no_lines(),
    }
}

/// The frame of the embedded terminal, which fills what is inside the border
/// where there is anything.
pub fn render_tmux_pane(area: Rect, session_name: &str) -> (r: Dialog)
    requires
        area.fits(),
    ensures
        r.shows(
            middle(
                area,
                scaled(area.width as int, share_92()),
                scaled(area.height as int, share_92()),
            ),
            tmux_view(session_name@),
            1,
            1,
        ),
{
    let popup = centered_rect(area, share_92());
    dialog(
        popup,
        Border::Rounded,
        rgb(120, 140, 180),
        Line::of(&cat3(" tmux · ", session_name, " "), fg(Color::White).bold()),
        Line::of(" F1 detach & close ", fg(dim_text())),
        Lines::none(),
        1,
        1,
    )
}

// ---------------------------------------------------------------------------
// What the dialogs tell
// ---------------------------------------------------------------------------

/// Before a repository is made: where, under which name, and whether it is private.
pub proof fn repository_dialog_tells_its_input(input: GhCreateInput)
    ensures
        ({
            let rows = gh_create(input).body;
            &&& line_text(gh_create(input).title) == " gh repo create "@
            &&& rows.len() == 4
            &&& line_text(rows[0]) == " in "@ + input.cwd@
            &&& line_text(rows[2]) == " name: "@ + (input.name@ + "▎"@)
            &&& line_text(rows[3]) == " visibility: "@ + if input.private {
                "private"@
            } else {
                "public"@
            }
        }),
{
    broadcast use {crate::style::joined_line_text, crate::style::span_line_text, crate::style::blank_line_text};

}

/// The prompt dialog shows what is typed, with a cursor behind it, and where it will go.
pub proof fn prompt_dialog_tells_its_target(text: Seq<char>, t: PromptTarget)
    ensures
        ({
            let v = prompt_view(text, t);
            let agent = |o: Option<String>|
                match o {
                    Some(s) => s@,
                    None => "?"@,
                };
            &&& v.body.len() == 4
            &&& line_text(v.body[1]) == "  "@ + (text + "▎"@)
            &&& t matches PromptTarget::Project { agent: a, cwd, several_agents } ==> {
                &&& line_text(v.title) == " New project task "@
                &&& line_text(v.footer) == " → "@ + agent(a) + " orchestrator in "@ + agent(cwd) + " "@
                &&& line_text(v.body[3]) == "  "@ + "[enter]"@ + " dispatch   "@ + "[esc]"@ + " cancel"@ + (
                if several_agents {
                    "   "@ + "[tab]"@ + " cycle agent"@
                } else {
                    Seq::empty()
                })
            }
            &&& t matches PromptTarget::Session(Some(s)) ==> line_text(v.title) == " Dispatch prompt "@ && line_text(
                v.footer,
            ) == " → "@ + s.name@ + " (PID "@ + dec(s.pid as nat) + ") ["@ + s.tmux@ + "] "@
            &&& t matches PromptTarget::Session(None) ==> line_text(v.footer)
                == " → no idle agent — will spawn a new one "@
        }),
{
    broadcast use {crate::style::joined_line_text, crate::style::span_line_text, crate::style::blank_line_text};

}

/// The dialogs that take a line of text show it with a cursor behind it and say what enter
/// does with it.
pub proof fn input_dialogs_tell_their_text(text: Seq<char>, title: Option<String>)
    ensures
        line_text(task_view(text, false).title) == " New task "@,
        line_text(task_view(text, false).footer) == " lands in To-Do · #tag !1–!4 inline "@,
        line_text(task_view(text, false).body[1]) == "  + "@ + (text + "▎"@),
        line_text(task_view(text, false).body[3]) == "  "@ + "[enter]"@ + " add   "@ + "[esc]"@ + " cancel"@,
        line_text(task_view(text, true).title) == " Rename task "@,
        line_text(task_view(text, true).footer) == " edits the text in place "@,
        line_text(task_view(text, true).body[1]) == "  + "@ + (text + "▎"@),
        line_text(task_view(text, true).body[3]) == "  "@ + "[enter]"@ + " rename   "@ + "[esc]"@ + " cancel"@,
        line_text(tags_view(text).title) == " Edit tags "@,
        line_text(tags_view(text).footer) == " space or comma separates tags "@,
        line_text(tags_view(text).body[1]) == "  # "@ + (text + "▎"@),
        line_text(tags_view(text).body[3]) == "  "@ + "[enter]"@ + " save   "@ + "[esc]"@ + " cancel"@,
        line_text(rename_view(text, title).title) == " Rename session "@,
        line_text(rename_view(text, title).body[1]) == "  "@ + (text + "▎"@),
        line_text(rename_view(text, title).footer) == if title is Some && title->Some_0@.len() > 0 {
            " was “"@ + title->Some_0@ + "” "@
        } else {
            " untitled "@
        },
{
    broadcast use {crate::style::joined_line_text, crate::style::span_line_text, crate::style::blank_line_text};

}

/// A dialog that asks names what it is about; it is yellow where nothing is deleted and
/// red elsewhere.
pub proof fn questions_name_their_subject(p: PendingConfirm)
    ensures
        ({
            let v = confirm_view(p);
            let what = match p {
                PendingConfirm::ProjectDelete(d) => d@,
                PendingConfirm::TaskDelete(d) => d@,
                PendingConfirm::TaskRestart(d) => d@,
                PendingConfirm::Close(d) => d@,
            };
            let asked = match p {
                PendingConfirm::ProjectDelete(_) => " Delete project? "@,
                PendingConfirm::TaskDelete(_) => " Delete task? "@,
                PendingConfirm::TaskRestart(_) => " Restart orchestrator? "@,
                PendingConfirm::Close(_) => " Close terminal? "@,
            };
            &&& line_text(v.title) == asked
            &&& line_text(v.footer) == " [Y]es · [N]o · Esc cancel "@
            &&& v.body.len() == 4
            &&& line_text(v.body[1]) == "  "@ + what
            &&& v.border_color == if p is TaskRestart {
                Color::Yellow
            } else {
                Color::Red
            }
        }),
{
    broadcast use {crate::style::joined_line_text, crate::style::span_line_text, crate::style::blank_line_text};

}

/// The pane of a session names it and says how to leave it.
pub proof fn panes_name_their_session(name: Seq<char>)
    ensures
        line_text(tmux_view(name).title) == " tmux · "@ + name + " "@,
        line_text(tmux_view(name).footer) == " F1 detach & close "@,
{
    broadcast use {crate::style::joined_line_text, crate::style::span_line_text, crate::style::blank_line_text};

}

/// A line that is `n` rows and a part of one long takes `n + 1` rows, one that fills its
/// rows no more than they are; an empty one takes a row.
pub proof fn rows_are_counted(n: int, rest: int, w: int)
    requires
        0 < w,
        0 <= n,
        0 < rest <= w,
    ensures
        rows_of(n * w + rest, w) == n + 1,
        rows_of(0, w) == 1,
{
    let len = n * w + rest;
    if n == 0 {
        assert(0 * w == 0);
    } else {
        assert(len > w) by (nonlinear_arith)
            requires
                len == n * w + rest,
                n >= 1,
                rest > 0,
                w > 0,
        ;
        if rest == w {
            assert(len == (n + 1) * w) by (nonlinear_arith)
                requires
                    len == n * w + rest,
                    rest == w,
            ;
            vstd::arithmetic::div_mod::lemma_fundamental_div_mod_converse(len, w, n + 1, 0);
        } else {
            assert(len == w * n + rest) by (nonlinear_arith)
                requires
                    len == n * w + rest,
            ;
            vstd::arithmetic::div_mod::lemma_fundamental_div_mod_converse(len, w, n, rest);
        }
    }
}

/// One more line of text takes its own rows below the others.
pub proof fn lines_take_their_rows(parts: Seq<Seq<char>>, p: Seq<char>, w: int)
    ensures
        rows_of_all(Seq::empty(), w) == 0,
        rows_of_all(parts.push(p), w) == rows_of_all(parts, w) + rows_of(p.len() as int, w),
{
    assert(parts.push(p).drop_last() =~= parts);
}

/// The box of an input is in the middle of the screen, as wide as it may be, and five rows
/// higher than its text, at least nine.
pub proof fn input_boxes_grow(area: Rect, text: Seq<char>)
    requires
        area.fits(),
        area.width >= 80,
    ensures
        ({
            let rows = rows_of_all(pieces(text + "▎"@, '\n'), 76);
            let r = prompt_area(area, text);
            &&& r.width == 80
            &&& 0 <= rows && rows + 5 <= 9 && area.height >= 9 ==> r.height == 9
            &&& 9 <= rows + 5 <= area.height ==> r.height == rows + 5
            &&& rows + 5 > area.height && area.height >= 9 ==> r.height == area.height || rows < 0
        }),
        task_area(area, text).width == 70,
        0 < text.len() < 64 && area.height >= 9 ==> task_area(area, text).height == 9,
{
    reveal_strlit("▎");
    reveal_with_fuel(rows_of_all, 2);
    let one = seq![typed(text)];
    assert(one.drop_last() =~= Seq::<Seq<char>>::empty());
}

} // verus!
