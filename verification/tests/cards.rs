use cc_hub::board::render_task_card;
use cc_hub::geometry::Rect;
use cc_hub::models::{CurrentTool, SessionInfo, SessionState};
use cc_hub::sessions::{render_card, spinner_frame};
use cc_hub::style::{Color, Line, Lines, Style};
use cc_hub::task_cards::{
    render_task_card_active, render_task_card_collapsed, Card, MergeLockBanner, MergePhase,
};
use cc_hub::tasks::{PrCardSummary, ReviewState, Task, TaskStatus, TodoItem, Worker};

fn to_color(c: Color) -> ratatui::style::Color {
    match c {
        Color::Reset => ratatui::style::Color::Reset,
        Color::Black => ratatui::style::Color::Black,
        Color::Red => ratatui::style::Color::Red,
        Color::Green => ratatui::style::Color::Green,
        Color::Yellow => ratatui::style::Color::Yellow,
        Color::Blue => ratatui::style::Color::Blue,
        Color::Cyan => ratatui::style::Color::Cyan,
        Color::Gray => ratatui::style::Color::Gray,
        Color::DarkGray => ratatui::style::Color::DarkGray,
        Color::LightGreen => ratatui::style::Color::LightGreen,
        Color::LightYellow => ratatui::style::Color::LightYellow,
        Color::LightBlue => ratatui::style::Color::LightBlue,
        Color::LightMagenta => ratatui::style::Color::LightMagenta,
        Color::LightCyan => ratatui::style::Color::LightCyan,
        Color::White => ratatui::style::Color::White,
        Color::Rgb(r, g, b) => ratatui::style::Color::Rgb(r, g, b),
    }
}

fn to_style(s: Style) -> ratatui::style::Style {
    let mut out = ratatui::style::Style::default();
    if let Some(c) = s.fg {
        out = out.fg(to_color(c));
    }
    if let Some(c) = s.bg {
        out = out.bg(to_color(c));
    }
    for (on, m) in [
        (s.bold, ratatui::style::Modifier::BOLD),
        (s.italic, ratatui::style::Modifier::ITALIC),
        (s.dim, ratatui::style::Modifier::DIM),
        (s.underlined, ratatui::style::Modifier::UNDERLINED),
    ] {
        if on {
            out = out.add_modifier(m);
        }
    }
    out
}

fn to_line(l: &Line) -> ratatui::text::Line<'static> {
    let spans: Vec<ratatui::text::Span<'static>> = l
        .spans
        .iter()
        .map(|s| ratatui::text::Span::styled(s.text.clone(), to_style(s.style)))
        .collect();
    ratatui::text::Line::from(spans)
}

fn to_lines(l: &Lines) -> Vec<ratatui::text::Line<'static>> {
    l.rows.iter().map(to_line).collect()
}

fn to_rect(r: Rect) -> ratatui::layout::Rect {
    ratatui::layout::Rect::new(r.x, r.y, r.width, r.height)
}

fn screen(w: u16, h: u16) -> Rect {
    Rect { x: 0, y: 0, width: w, height: h }
}

fn draw(w: u16, h: u16, f: impl FnOnce(&mut ratatui::Frame)) -> ratatui::buffer::Buffer {
    let backend = ratatui::backend::TestBackend::new(w, h);
    let mut terminal = ratatui::Terminal::new(backend).unwrap();
    terminal.draw(f).unwrap();
    terminal.backend().buffer().clone()
}

fn buffer_to_string(buf: &ratatui::buffer::Buffer) -> String {
    let mut out = String::new();
    for y in 0..buf.area().height {
        out.push_str(&row(buf, y));
        out.push('\n');
    }
    out
}

fn row(buf: &ratatui::buffer::Buffer, y: u16) -> String {
    (0..buf.area().width).map(|x| buf[(x, y)].symbol().to_string()).collect()
}

fn boxed(title: &Line, footer: &Line) -> ratatui::widgets::Block<'static> {
    ratatui::widgets::Block::default()
        .borders(ratatui::widgets::Borders::ALL)
        .title(to_line(title))
        .title_bottom(to_line(footer))
}

fn show(card: &Card, w: u16, h: u16) -> ratatui::buffer::Buffer {
    draw(w, h, |f| {
        let block = boxed(&card.title, &Line::empty()).border_style(
            ratatui::style::Style::default().fg(to_color(card.border_color)),
        );
        f.render_widget(block, f.area());
        if let Some(body) = &card.body {
            let text = ratatui::widgets::Paragraph::new(to_lines(body))
                .wrap(ratatui::widgets::Wrap { trim: false });
            f.render_widget(text, to_rect(card.inner));
        }
    })
}

fn a_task(status: TaskStatus) -> Task {
    Task {
        task_id: "t-1".to_string(),
        short_id: "1".to_string(),
        status,
        status_label: "status".to_string(),
        title: Some("test card".to_string()),
        prompt: "prompt".to_string(),
        note: None,
        summary: None,
        shipped_version: None,
        orchestrator_tmux: None,
        workers: Vec::new(),
        merges: Vec::new(),
        artifacts: Vec::new(),
        lead_artifact: None,
        todos: Vec::new(),
        age: "now".to_string(),
        made_age: "now".to_string(),
    }
}

fn task_with_todos(status: TaskStatus, done: usize, total: usize) -> Task {
    let mut t = a_task(status);
    t.todos = (0..total)
        .map(|i| TodoItem { text: format!("step {}", i), done: i < done })
        .collect();
    t
}

fn task_with_worker(status: TaskStatus, worker_tmux: &str) -> Task {
    let mut t = a_task(status);
    t.workers.push(Worker { tmux_name: worker_tmux.to_string(), worktree: None });
    t
}

fn fake_session(tmux: &str, tool_uses: u64) -> SessionInfo {
    SessionInfo {
        agent_id: "house".to_string(),
        vendor: "house".to_string(),
        agent_badge: "House".to_string(),
        pid: 0,
        session_id: "sid-x".to_string(),
        cwd: "/tmp".to_string(),
        project_name: "p".to_string(),
        started_at: 0,
        last_activity: None,
        state: SessionState::Processing,
        state_label: "processing".to_string(),
        needs_attention: false,
        last_user_message: None,
        summary: None,
        title: None,
        titling: false,
        model: None,
        git_branch: None,
        version: None,
        tmux_session: Some(tmux.to_string()),
        current_tool: None,
        is_thinking: false,
        context_tokens: None,
        tool_uses_count: tool_uses,
        jsonl_path: None,
    }
}

fn collapsed(
    t: &Task,
    w: u16,
    col: usize,
    sessions: &Vec<SessionInfo>,
    pr: Option<PrCardSummary>,
    now: u64,
    lock: Option<MergeLockBanner>,
) -> String {
    let card = render_task_card_collapsed(screen(w, 6), t, false, col, sessions, pr, now, false, &lock);
    buffer_to_string(&show(&card, w, 6))
}

fn active(t: &Task, w: u16, sessions: &Vec<SessionInfo>, pr: Option<PrCardSummary>) -> String {
    let card = render_task_card_active(screen(w, 8), t, false, 1, sessions, pr, false);
    buffer_to_string(&show(&card, w, 8))
}

fn merging_task(task_id: &str) -> Task {
    let mut t = a_task(TaskStatus::Merging);
    t.task_id = task_id.to_string();
    t.short_id = task_id[task_id.len() - 6..].to_string();
    t.title = Some("waiting card".to_string());
    t
}

fn holder(
    task_id: &str,
    short_id: &str,
    title: &str,
    now: u64,
    ago: u64,
    age: &str,
    phase: MergePhase,
    pr_id: Option<u32>,
) -> MergeLockBanner {
    MergeLockBanner {
        task_id: task_id.to_string(),
        short_id: short_id.to_string(),
        title: Some(title.to_string()),
        acquired_at: (now - ago) as i64,
        age: age.to_string(),
        phase,
        pr_id,
    }
}

#[test]
fn columns_of_tasks_at_work_have_tall_cards() {
    let t = task_with_todos(TaskStatus::Running, 1, 3);
    let none = Vec::new();
    for col in 0..5 {
        let card = render_task_card(screen(60, 8), &t, false, col, &none, None, 1_000, false, &None);
        let same = if col <= 1 {
            render_task_card_active(screen(60, 8), &t, false, col, &none, None, false)
        } else {
            render_task_card_collapsed(screen(60, 8), &t, false, col, &none, None, 1_000, false, &None)
        };
        assert_eq!(show(&card, 60, 8), show(&same, 60, 8));
    }
}

#[test]
fn task_cards_collapsed_card_shows_todos_badge() {
    let t = task_with_todos(TaskStatus::Review, 2, 4);
    let plain = collapsed(&t, 40, 2, &Vec::new(), None, 1_000_000_000, None);
    assert!(plain.contains("2/4"), "collapsed card should show 2/4 badge:\n{}", plain);
}

#[test]
fn ui_collapsed_card_shows_todos_badge() {
    let t = task_with_todos(TaskStatus::Review, 2, 4);
    let plain = collapsed(&t, 40, 2, &Vec::new(), None, 1_000_000_000, None);
    assert!(plain.contains("2/4"), "collapsed card should show 2/4 badge:\n{}", plain);
}

#[test]
fn task_cards_collapsed_card_omits_badge_when_no_todos() {
    let t = task_with_todos(TaskStatus::Review, 0, 0);
    let plain = collapsed(&t, 40, 2, &Vec::new(), None, 1_000_000_000, None);
    assert!(!plain.contains("☑"), "no todos => no badge:\n{}", plain);
}

#[test]
fn ui_collapsed_card_omits_badge_when_no_todos() {
    let t = task_with_todos(TaskStatus::Review, 0, 0);
    let plain = collapsed(&t, 40, 2, &Vec::new(), None, 1_000_000_000, None);
    assert!(!plain.contains("☑"), "no todos => no badge:\n{}", plain);
}

#[test]
fn task_cards_card_title_keeps_a_blank_after_the_state_icon() {
    for agent in ["house", "codex"] {
        for (titling, title) in [
            (false, None),
            (true, None),
            (false, Some("Fix the parser".to_string())),
        ] {
            let mut s = fake_session("wk-1", 0);
            s.state = SessionState::WaitingForInput;
            s.needs_attention = true;
            s.project_name = "cc-hub".to_string();
            s.agent_id = agent.to_string();
            s.agent_badge = agent.to_string();
            s.titling = titling;
            s.title = title.clone();
            for w in [42u16, 24, 16, 13] {
                let card = render_card(screen(w, 6), &s, &None, false, 1_000_000_000);
                let buf = show(&card, w, 6);
                let gx = (0..w).find(|&x| buf[(x, 0)].symbol() == "󰂞").unwrap();
                assert_eq!(buf[(gx + 1, 0)].symbol(), " ", "{} {} {:?} {}", agent, titling, title, w);
            }
        }
    }
}

#[test]
fn ui_card_title_keeps_a_blank_after_the_state_icon() {
    for agent in ["house", "codex"] {
        for (titling, title) in [
            (false, None),
            (true, None),
            (false, Some("Fix the parser".to_string())),
        ] {
            let mut s = fake_session("wk-1", 0);
            s.state = SessionState::WaitingForInput;
            s.needs_attention = true;
            s.project_name = "cc-hub".to_string();
            s.agent_id = agent.to_string();
            s.agent_badge = agent.to_string();
            s.titling = titling;
            s.title = title.clone();
            for w in [42u16, 24, 16, 13] {
                let card = render_card(screen(w, 6), &s, &None, false, 1_000_000_000);
                let buf = show(&card, w, 6);
                let gx = (0..w).find(|&x| buf[(x, 0)].symbol() == "󰂞").unwrap();
                assert_eq!(buf[(gx + 1, 0)].symbol(), " ", "{} {} {:?} {}", agent, titling, title, w);
            }
        }
    }
}

#[test]
fn task_cards_card_title_omits_claude_badge_and_project_name() {
    let mut s = fake_session("wk-1", 0);
    s.project_name = "cc-hub".to_string();
    s.title = Some("Fix the parser".to_string());
    let house = row(&show(&render_card(screen(60, 6), &s, &None, false, 1_000_000_000), 60, 6), 0);
    assert!(!house.contains("House") && !house.contains("cc-hub"), "{}", house);
    assert!(house.contains("Fix the parser"), "{}", house);
    s.agent_id = "codex".to_string();
    s.agent_badge = "codex".to_string();
    let codex = row(&show(&render_card(screen(60, 6), &s, &None, false, 1_000_000_000), 60, 6), 0);
    assert!(codex.contains("codex"), "{}", codex);
}

#[test]
fn ui_card_title_omits_claude_badge_and_project_name() {
    let mut s = fake_session("wk-1", 0);
    s.project_name = "cc-hub".to_string();
    s.title = Some("Fix the parser".to_string());
    let house = row(&show(&render_card(screen(60, 6), &s, &None, false, 1_000_000_000), 60, 6), 0);
    assert!(!house.contains("House") && !house.contains("cc-hub"), "{}", house);
    assert!(house.contains("Fix the parser"), "{}", house);
    s.agent_id = "codex".to_string();
    s.agent_badge = "codex".to_string();
    let codex = row(&show(&render_card(screen(60, 6), &s, &None, false, 1_000_000_000), 60, 6), 0);
    assert!(codex.contains("codex"), "{}", codex);
}

#[test]
fn task_cards_active_card_shows_tool_calls_badge() {
    let t = task_with_worker(TaskStatus::Running, "wk-1");
    let plain = active(&t, 80, &vec![fake_session("wk-1", 7)], None);
    assert!(plain.contains("󰖷 7") || plain.contains(" 7"), "{}", plain);
    assert!(plain.contains("󰖷"), "active card should show tool glyph:\n{}", plain);
}

#[test]
fn task_cards_active_card_omits_tool_calls_when_zero() {
    let t = task_with_todos(TaskStatus::Running, 0, 0);
    let plain = active(&t, 80, &Vec::new(), None);
    assert!(!plain.contains("󰖷"), "no tool uses => no badge:\n{}", plain);
}

#[test]
fn ui_active_card_omits_tool_calls_when_zero() {
    let t = task_with_todos(TaskStatus::Running, 0, 0);
    let plain = active(&t, 80, &Vec::new(), None);
    assert!(!plain.contains("󰠰"), "no tool uses => no badge:\n{}", plain);
}

#[test]
fn task_cards_collapsed_card_shows_tool_calls_badge() {
    let t = task_with_worker(TaskStatus::Review, "wk-2");
    let plain = collapsed(&t, 60, 2, &vec![fake_session("wk-2", 5)], None, 1_000_000_000, None);
    assert!(plain.contains("󰖷") && plain.contains("5"), "{}", plain);
}

#[test]
fn task_cards_active_card_shows_todos_badge() {
    let t = task_with_todos(TaskStatus::Running, 2, 4);
    let plain = active(&t, 60, &Vec::new(), None);
    assert!(plain.contains("2/4"), "active card should show 2/4 badge:\n{}", plain);
}

#[test]
fn ui_active_card_shows_todos_badge() {
    let t = task_with_todos(TaskStatus::Running, 2, 4);
    let plain = active(&t, 60, &Vec::new(), None);
    assert!(plain.contains("2/4"), "active card should show 2/4 badge:\n{}", plain);
}

#[test]
fn task_cards_collapsed_card_shows_holder_context_when_queued() {
    let t = merging_task("t-self-000111");
    let now: u64 = 1_700_000_000;
    let banner = holder("t-blocker-123456", "123456", "fix flaky tests", now, 180, "3m", MergePhase::Merging, None);
    let plain = collapsed(&t, 60, 3, &Vec::new(), None, now, Some(banner));
    assert!(plain.contains("behind"), "queued card should name the holder:\n{}", plain);
    assert!(plain.contains("123456"), "queued card should show holder short id:\n{}", plain);
    assert!(plain.contains("3m"), "queued card should show 3m lock age:\n{}", plain);
    assert!(plain.contains("queued"), "queued card should keep the queued pill:\n{}", plain);
}

#[test]
fn ui_collapsed_card_shows_holder_context_when_queued() {
    let t = merging_task("t-self-000111");
    let now: u64 = 1_700_000_000;
    let banner = holder("t-blocker-123456", "123456", "fix flaky tests", now, 180, "3m", MergePhase::Merging, None);
    let plain = collapsed(&t, 60, 3, &Vec::new(), None, now, Some(banner));
    assert!(plain.contains("behind"), "queued card should name the holder:\n{}", plain);
    assert!(plain.contains("123456"), "queued card should show holder short id:\n{}", plain);
    assert!(plain.contains("3m"), "queued card should show 3m lock age:\n{}", plain);
    assert!(plain.contains("queued"), "queued card should keep the queued pill:\n{}", plain);
}

#[test]
fn task_cards_queued_collapsed_card_shows_holder_phase_and_pr() {
    let t = merging_task("t-self-000222");
    let now: u64 = 1_700_000_000;
    let banner = holder("t-other-000333", "000333", "blocking work", now, 240, "4m", MergePhase::Simplify, Some(7));
    let plain = collapsed(&t, 70, 3, &Vec::new(), None, now, Some(banner));
    assert!(plain.contains("PR #7"), "queued card should show holder PR id:\n{}", plain);
    assert!(plain.contains("/simplify"), "queued card should show holder phase:\n{}", plain);
    assert!(plain.contains("4m"), "queued card should show holder age:\n{}", plain);
}

#[test]
fn ui_queued_collapsed_card_shows_holder_phase_and_pr() {
    let t = merging_task("t-self-000222");
    let now: u64 = 1_700_000_000;
    let banner = holder("t-other-000333", "000333", "blocking work", now, 240, "4m", MergePhase::Simplify, Some(7));
    let plain = collapsed(&t, 70, 3, &Vec::new(), None, now, Some(banner));
    assert!(plain.contains("PR #7"), "queued card should show holder PR id:\n{}", plain);
    assert!(plain.contains("/simplify"), "queued card should show holder phase:\n{}", plain);
    assert!(plain.contains("4m"), "queued card should show holder age:\n{}", plain);
}

#[test]
fn task_cards_collapsed_card_shows_merging_pill_when_self_is_holder() {
    let t = merging_task("t-self-654321");
    let now: u64 = 1_700_000_000;
    let banner = holder("t-self-654321", "654321", "self merge", now, 5, "5s", MergePhase::Merging, None);
    let plain = collapsed(&t, 60, 3, &Vec::new(), None, now, Some(banner));
    assert!(plain.contains("merging"), "self-holder card should show the merging pill:\n{}", plain);
    assert!(!plain.contains("behind"), "self-holder card must not render a waiting line:\n{}", plain);
}

#[test]
fn ui_collapsed_card_shows_merging_pill_when_self_is_holder() {
    let t = merging_task("t-self-654321");
    let now: u64 = 1_700_000_000;
    let banner = holder("t-self-654321", "654321", "self merge", now, 5, "5s", MergePhase::Merging, None);
    let plain = collapsed(&t, 60, 3, &Vec::new(), None, now, Some(banner));
    assert!(plain.contains("merging"), "self-holder card should show the merging pill:\n{}", plain);
    assert!(!plain.contains("behind"), "self-holder card must not render a waiting line:\n{}", plain);
}

#[test]
fn task_cards_collapsed_card_no_holder_context_when_no_lock() {
    let t = merging_task("t-only-999999");
    let plain = collapsed(&t, 60, 3, &Vec::new(), None, 1_700_000_000, None);
    assert!(!plain.contains("behind"), "no holder => no waiting line:\n{}", plain);
    assert!(!plain.contains("queued"), "no holder => no queued pill:\n{}", plain);
}

#[test]
fn ui_collapsed_card_no_holder_context_when_no_lock() {
    let t = merging_task("t-only-999999");
    let plain = collapsed(&t, 60, 3, &Vec::new(), None, 1_700_000_000, None);
    assert!(!plain.contains("behind"), "no holder => no waiting line:\n{}", plain);
    assert!(!plain.contains("queued"), "no holder => no queued pill:\n{}", plain);
}

#[test]
fn task_cards_active_card_shows_pr_changes_requested_badge() {
    let t = task_with_todos(TaskStatus::Running, 0, 0);
    let pr = PrCardSummary { id: 42, review_state: ReviewState::ChangesRequested, comments: 3 };
    let plain = active(&t, 70, &Vec::new(), Some(pr));
    assert!(plain.contains("PR #42") && plain.contains("changes requested"), "{}", plain);
    assert!(plain.contains("3"), "comment count missing:\n{}", plain);
}

#[test]
fn ui_active_card_shows_pr_changes_requested_badge() {
    let t = task_with_todos(TaskStatus::Running, 0, 0);
    let pr = PrCardSummary { id: 42, review_state: ReviewState::ChangesRequested, comments: 3 };
    let plain = active(&t, 70, &Vec::new(), Some(pr));
    assert!(plain.contains("PR #42") && plain.contains("changes requested"), "{}", plain);
    assert!(plain.contains("3"), "comment count missing:\n{}", plain);
}

#[test]
fn task_cards_collapsed_card_shows_pr_open_with_comment_count() {
    let t = task_with_todos(TaskStatus::Review, 0, 0);
    let pr = PrCardSummary { id: 7, review_state: ReviewState::Open, comments: 2 };
    let plain = collapsed(&t, 70, 2, &Vec::new(), Some(pr), 1_000_000_000, None);
    assert!(plain.contains("PR #7"), "PR id missing:\n{}", plain);
    assert!(plain.contains("2"), "comment count missing on open PR:\n{}", plain);
}

#[test]
fn ui_collapsed_card_shows_pr_open_with_comment_count() {
    let t = task_with_todos(TaskStatus::Review, 0, 0);
    let pr = PrCardSummary { id: 7, review_state: ReviewState::Open, comments: 2 };
    let plain = collapsed(&t, 70, 2, &Vec::new(), Some(pr), 1_000_000_000, None);
    assert!(plain.contains("PR #7"), "PR id missing:\n{}", plain);
    assert!(plain.contains("2"), "comment count missing on open PR:\n{}", plain);
}

#[test]
fn task_cards_collapsed_card_open_without_comments_shows_open_label() {
    let t = task_with_todos(TaskStatus::Review, 0, 0);
    let pr = PrCardSummary { id: 9, review_state: ReviewState::Open, comments: 0 };
    let plain = collapsed(&t, 70, 2, &Vec::new(), Some(pr), 1_000_000_000, None);
    assert!(plain.contains("PR #9"), "PR id missing:\n{}", plain);
    assert!(plain.contains("open"), "open label missing when no comments:\n{}", plain);
}

#[test]
fn ui_collapsed_card_open_without_comments_shows_open_label() {
    let t = task_with_todos(TaskStatus::Review, 0, 0);
    let pr = PrCardSummary { id: 9, review_state: ReviewState::Open, comments: 0 };
    let plain = collapsed(&t, 70, 2, &Vec::new(), Some(pr), 1_000_000_000, None);
    assert!(plain.contains("PR #9"), "PR id missing:\n{}", plain);
    assert!(plain.contains("open"), "open label missing when no comments:\n{}", plain);
}

#[test]
fn task_cards_active_card_omits_pr_badge_when_no_pr() {
    let t = task_with_todos(TaskStatus::Running, 0, 0);
    let plain = active(&t, 70, &Vec::new(), None);
    assert!(!plain.contains("PR #"), "no PR ⇒ no badge:\n{}", plain);
}

#[test]
fn ui_active_card_omits_pr_badge_when_no_pr() {
    let t = task_with_todos(TaskStatus::Running, 0, 0);
    let plain = active(&t, 70, &Vec::new(), None);
    assert!(!plain.contains("PR #"), "no PR ⇒ no badge:\n{}", plain);
}

const NOW: u64 = 10_000_000_000;

fn session() -> SessionInfo {
    let mut s = fake_session("x", 0);
    s.pid = 4242;
    s.session_id = "abcd1234efgh".to_string();
    s.cwd = "/tmp/p".to_string();
    s.started_at = NOW - 3_600_000;
    s.last_activity = Some(NOW - 720_000);
    s.model = Some("house-opus-4-8".to_string());
    s.git_branch = Some("main".to_string());
    s.tmux_session = None;
    set_state(&mut s, SessionState::Idle);
    s
}

fn set_state(s: &mut SessionInfo, state: SessionState) {
    s.state = state;
    s.needs_attention = matches!(state, SessionState::WaitingForInput | SessionState::Question);
    s.state_label = match state {
        SessionState::Starting => "starting",
        SessionState::Processing => "working",
        SessionState::WaitingForInput => "needs input",
        SessionState::Question => "question",
        SessionState::Idle => "idle",
        SessionState::Inactive => "inactive",
    }
    .to_string();
}

fn tool(name: &str, hint: &str) -> Option<CurrentTool> {
    Some(CurrentTool { name: name.to_string(), hint: Some(hint.to_string()) })
}

fn render(s: &SessionInfo, w: u16, h: u16) -> ratatui::buffer::Buffer {
    show(&render_card(screen(w, h), s, &None, false, NOW), w, h)
}

#[test]
fn footer_shows_tool_counter_only_when_nonzero() {
    let mut s = session();
    s.tool_uses_count = 142;
    let plain = buffer_to_string(&render(&s, 42, 7));
    assert!(plain.contains("\u{f05b7} 142"), "counter missing:\n{}", plain);
    s.tool_uses_count = 0;
    let plain = buffer_to_string(&render(&s, 42, 7));
    assert!(!plain.contains('\u{f05b7}'), "no uses => no badge:\n{}", plain);
}

#[test]
fn waiting_card_shows_pending_tool_not_state_label() {
    let mut s = session();
    set_state(&mut s, SessionState::WaitingForInput);
    let plain = buffer_to_string(&render(&s, 42, 7));
    assert!(!plain.contains("needs input"), "label repeated:\n{}", plain);
    s.current_tool = tool("Bash", "cargo build");
    let plain = buffer_to_string(&render(&s, 42, 7));
    assert!(plain.contains("Bash: cargo build"), "pending tool missing:\n{}", plain);
}

#[test]
fn footer_clock_stays_gray_even_on_attention_cards() {
    let mut s = session();
    for state in [SessionState::WaitingForInput, SessionState::Idle] {
        set_state(&mut s, state);
        let buf = render(&s, 42, 7);
        let cx = (0..buf.area().width).find(|&x| buf[(x, 5)].symbol() == "1").unwrap();
        assert_eq!(buf[(cx, 5)].style().fg, Some(ratatui::style::Color::DarkGray));
    }
}

#[test]
fn question_card_shows_question_text_not_tool_name() {
    let mut s = session();
    set_state(&mut s, SessionState::Question);
    s.current_tool = tool("AskUserQuestion", "keep the old endpoint?");
    let plain = buffer_to_string(&render(&s, 42, 7));
    assert!(plain.contains("keep the old endpoint?"), "question text missing:\n{}", plain);
    assert!(!plain.contains("AskUserQuestion"), "tool leaked:\n{}", plain);
}

#[test]
fn attention_title_is_a_background_chip() {
    let mut s = session();
    set_state(&mut s, SessionState::WaitingForInput);
    s.title = Some("Fix auth".to_string());
    let buf = render(&s, 42, 7);
    let fx = (0..buf.area().width).find(|&x| buf[(x, 0)].symbol() == "F").unwrap();
    assert_eq!(buf[(fx, 0)].style().bg, Some(ratatui::style::Color::Yellow));
    set_state(&mut s, SessionState::Processing);
    let buf = render(&s, 42, 7);
    let fx = (0..buf.area().width).find(|&x| buf[(x, 0)].symbol() == "F").unwrap();
    assert_ne!(buf[(fx, 0)].style().bg, Some(ratatui::style::Color::Yellow));
}

#[test]
fn processing_card_animates_spinner_and_shows_tool() {
    let mut s = session();
    set_state(&mut s, SessionState::Processing);
    s.current_tool = tool("Bash", "cargo test");
    let buf = render(&s, 42, 7);
    let title = row(&buf, 0);
    assert!(title.contains(&spinner_frame(NOW)), "spinner missing from title:\n{}", title);
    let plain = buffer_to_string(&buf);
    assert!(plain.contains("Bash: cargo test"), "tool line:\n{}", plain);
}

#[test]
fn message_only_renders_on_untitled_cards() {
    let mut s = session();
    s.last_user_message = Some("please rerun the suite".to_string());
    let plain = buffer_to_string(&render(&s, 42, 7));
    assert!(plain.contains("please rerun the suite"), "{}", plain);
    s.title = Some("Fix auth".to_string());
    let plain = buffer_to_string(&render(&s, 42, 7));
    assert!(!plain.contains("please rerun the suite"), "{}", plain);
}

#[test]
fn default_cell_height_gives_branch_its_own_row() {
    let mut s = session();
    set_state(&mut s, SessionState::Processing);
    s.title = Some("Fix auth".to_string());
    s.git_branch = Some("refactor/architecture-cleanup".to_string());
    s.current_tool = tool("Bash", "cargo test");
    s.tool_uses_count = 12;
    let buf = render(&s, 42, 6);
    assert!(row(&buf, 1).contains("Bash: cargo test"), "{}", row(&buf, 1));
    assert!(row(&buf, 2).contains("refactor/architecture-cleanup"), "{}", row(&buf, 2));
    assert!(!row(&buf, 2).contains("opus") && !row(&buf, 2).contains("4242"), "{}", row(&buf, 2));
    assert!(row(&buf, 3).contains("opus-4-8"), "{}", row(&buf, 3));
    assert!(row(&buf, 3).contains("4242:abcd1234"), "{}", row(&buf, 3));
    assert!(row(&buf, 4).contains("12m"), "{}", row(&buf, 4));

    let mut s = session();
    s.last_user_message = Some("ship it".to_string());
    let buf = render(&s, 42, 6);
    assert!(row(&buf, 1).contains("ship it"), "{}", row(&buf, 1));
}

#[test]
fn compact_height_merges_identity_rows() {
    let mut s = session();
    s.title = Some("Fix auth".to_string());
    let buf = render(&s, 42, 5);
    let merged = row(&buf, 2);
    assert!(merged.contains("main") && merged.contains("opus-4-8"), "{}", merged);
    assert!(row(&buf, 3).contains("12m"), "{}", row(&buf, 3));
}

#[test]
fn processing_without_payload_has_no_filler_row() {
    let mut s = session();
    set_state(&mut s, SessionState::Processing);
    s.title = Some("Fix auth".to_string());
    let plain = buffer_to_string(&render(&s, 42, 6));
    assert!(!plain.contains("working"), "filler row:\n{}", plain);
}

#[test]
fn identity_rows_pin_to_card_floor() {
    let s = session();
    let buf = render(&s, 42, 7);
    assert!(row(&buf, 3).contains("main"), "branch row:\n{}", row(&buf, 3));
    assert!(row(&buf, 4).contains("4242:abcd1234"), "pid:sid:\n{}", row(&buf, 4));
    assert!(row(&buf, 5).contains("\u{f051f} 12m"), "footer clock:\n{}", row(&buf, 5));
}

#[test]
fn dormant_cards_skip_the_state_label_and_lead_with_message() {
    let mut s = session();
    s.last_user_message = Some("ship it".to_string());
    for state in [SessionState::Idle, SessionState::Inactive] {
        set_state(&mut s, state);
        let buf = render(&s, 42, 7);
        let plain = buffer_to_string(&buf);
        assert!(!plain.contains("idle"), "label repeated:\n{}", plain);
        assert!(!plain.contains("inactive"), "label repeated:\n{}", plain);
        assert!(row(&buf, 1).contains("ship it"), "message not on row 1:\n{}", plain);
    }
}

#[test]
fn footer_renders_context_bar_with_percent() {
    let mut s = session();
    s.context_tokens = Some(140_000);
    let buf = render(&s, 42, 7);
    let footer = row(&buf, 5);
    assert!(footer.contains("70%"), "pct missing:\n{}", footer);
    assert!(footer.contains('━'), "bar missing:\n{}", footer);
}
