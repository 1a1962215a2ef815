use cc_hub::board::{
    card_height, column_banner, empty_hint, kanban_column_meta, merge_banner, render_kanban_board, render_kanban_column,
    render_projects_body, too_narrow, MergeLock, ProjectsBody,
};
use cc_hub::chips::{render_project_chip_strip, ProjectChip};
use cc_hub::geometry::{main_layout, Rect};
use cc_hub::metrics::{
    build_metrics_content, model_color, render_metrics_body, scanning_text, tool_color, ContextGrowth,
    DailySpending, InterruptedSession, Interruptions, MetricsAnalysis, MetricsBody, ModelStats, PeakFinding,
    ProjectStats, SessionSummary, SpikeFinding, TokenTotals, ToolStats,
};
use cc_hub::models::{CurrentTool, SessionInfo, SessionState};
use cc_hub::screen::{
    build_session_count_spans, keybinds, render_status_bar, render_tab_strip, render_title_bar, title_areas,
    Overlay, PendingDispatch, PickerMode, SessionCounts, Status, StatusMessage, Tab, TabLabel,
};
use cc_hub::session_grid::{cell_height, grid_fits, render_grid, Grid, GridBody, SessionGroup};
use cc_hub::session_popup::{
    build_popup_content, build_popup_title, popup_lines, render_popup, Message, SessionDetail,
};
use cc_hub::style::{fg, Border, Color, Line, Lines};
use cc_hub::task_cards::MergePhase;
use cc_hub::tasks::{
    agent_dot_strip, collect_agent_summary, count_merged, merge_progress_spans, pr_badge_spans,
    shipped_version_span, sum_tool_uses, todos_progress, Merge, MergeOutcome, PrCardSummary, ReviewState, Task,
    TaskStatus, TodoItem, Worker,
};

fn words(l: &Line) -> String {
    l.spans.iter().map(|s| s.text.as_str()).collect()
}

fn all(l: &Lines) -> Vec<String> {
    l.rows.iter().map(words).collect()
}

fn screen(w: u16, h: u16) -> Rect {
    Rect { x: 0, y: 0, width: w, height: h }
}

fn task(id: &str, status: TaskStatus, workers: usize) -> Task {
    Task {
        task_id: id.to_string(),
        short_id: id.to_string(),
        status,
        status_label: String::new(),
        title: Some(format!("title of {}", id)),
        prompt: String::new(),
        note: None,
        summary: None,
        shipped_version: None,
        orchestrator_tmux: Some("orch".to_string()),
        workers: (0..workers)
            .map(|i| Worker { tmux_name: format!("w{}", i), worktree: Some(format!("tree{}", i)) })
            .collect(),
        merges: Vec::new(),
        artifacts: Vec::new(),
        lead_artifact: None,
        todos: Vec::new(),
        age: "0s".to_string(),
        made_age: "0s".to_string(),
    }
}

fn session(tmux: &str, state: SessionState) -> SessionInfo {
    SessionInfo {
        agent_id: "a".to_string(),
        vendor: "house".to_string(),
        agent_badge: "A".to_string(),
        pid: 7,
        session_id: "s".to_string(),
        cwd: "/src".to_string(),
        project_name: "p".to_string(),
        started_at: 0,
        last_activity: None,
        state,
        state_label: "busy".to_string(),
        needs_attention: state == SessionState::WaitingForInput,
        last_user_message: None,
        summary: None,
        title: None,
        titling: false,
        model: None,
        git_branch: None,
        version: None,
        tmux_session: Some(tmux.to_string()),
        current_tool: None,
        is_thinking: false,
        context_tokens: None,
        tool_uses_count: 2,
        jsonl_path: None,
    }
}

#[test]
fn agents_are_summed_up() {
    let t = task("t", TaskStatus::Running, 3);
    let mut sessions = vec![
        session("orch", SessionState::Idle),
        session("w0", SessionState::Processing),
        session("w1", SessionState::Question),
        session("w9", SessionState::Processing),
    ];
    sessions[0].context_tokens = Some(150_000);
    sessions[1].context_tokens = Some(50_000);
    sessions[1].model = Some("house-opus-4-7".to_string());
    sessions[2].current_tool = Some(CurrentTool { name: "Read".to_string(), hint: None });
    let sum = collect_agent_summary(&t, &sessions);
    assert_eq!((sum.alive, sum.processing, sum.waiting, sum.idle, sum.inactive), (3, 1, 1, 1, 0));
    assert_eq!((sum.total, sum.total_ctx, sum.max_ctx, sum.max_ctx_pct), (3, 200_000, 150_000, 75));
    assert_eq!(sum.current_tool, Some(("Read".to_string(), None)));
    assert!(!sum.is_thinking);
    assert_eq!(sum.tool_uses, 6);
    assert_eq!(sum_tool_uses(&t, &sessions), 6);
    assert_eq!(words(&agent_dot_strip(&sum)), "▶●○");
    let many = collect_agent_summary(
        &task("t", TaskStatus::Running, 20),
        &(0..20).map(|i| session(&format!("w{}", i), SessionState::Inactive)).collect(),
    );
    assert_eq!(words(&agent_dot_strip(&many)), format!("{} +8", "·".repeat(12)));
    let mut gone = session("w0", SessionState::Inactive);
    gone.context_tokens = Some(180_000);
    let sum = collect_agent_summary(&task("t", TaskStatus::Running, 1), &vec![gone]);
    assert_eq!((sum.alive, sum.max_ctx_pct), (0, 0));
    assert_eq!((sum.inactive, sum.total_ctx, sum.max_ctx), (1, 180_000, 180_000));
    let none = collect_agent_summary(&t, &Vec::new());
    assert_eq!(agent_dot_strip(&none).spans.len(), 0);
}

#[test]
fn merges_are_counted() {
    let mut t = task("t", TaskStatus::Merging, 3);
    assert_eq!(words(&merge_progress_spans(&t)), "merges ▱▱▱ 0/3");
    t.merges.push(Merge { worktree: "tree1".to_string(), outcome: MergeOutcome::Merged });
    t.merges.push(Merge { worktree: "tree2".to_string(), outcome: MergeOutcome::Failed });
    assert_eq!(count_merged(&t), 1);
    assert_eq!(words(&merge_progress_spans(&t)), "merges ▰▱▱ 1/3");
    let mut big = task("t", TaskStatus::Merging, 20);
    for i in 0..9 {
        big.merges.push(Merge { worktree: format!("tree{}", i), outcome: MergeOutcome::Merged });
    }
    assert_eq!(words(&merge_progress_spans(&big)), "merges ▰▰▰▰▱▱▱▱ 9/20");
    assert_eq!(words(&merge_progress_spans(&task("t", TaskStatus::Done, 0))), "merges —");
}

#[test]
fn badges_of_tasks() {
    let pr = |review_state: ReviewState, comments: u16| {
        words(&pr_badge_spans(&PrCardSummary { id: 12, review_state, comments }))
    };
    assert_eq!(pr(ReviewState::Open, 0), "󰊢 PR #12 · open");
    assert_eq!(pr(ReviewState::Open, 3), "󰊢 PR #12 · 󰭹 3");
    assert_eq!(pr(ReviewState::ChangesRequested, 3), "󰊢 PR #12 · changes requested · 󰭹 3");
    assert_eq!(pr(ReviewState::Approved, 0), "󰊢 PR #12 · approved");
    assert_eq!(pr(ReviewState::Merged, 3), "󰊢 PR #12 · merged");
    assert_eq!(pr(ReviewState::Closed, 3), "󰊢 PR #12 · closed");
    let mut t = task("t", TaskStatus::Done, 0);
    assert_eq!(todos_progress(&t), None);
    for done in [true, false, true] {
        t.todos.push(TodoItem { text: String::new(), done });
    }
    assert_eq!(todos_progress(&t), Some((2, 3)));
    assert_eq!(words(&shipped_version_span("v1.2")), words(&shipped_version_span("1.2")));
}

#[test]
fn board_has_five_columns() {
    let cols = render_kanban_board(screen(110, 30));
    let widths: Vec<u16> = cols.iter().map(|c| c.width).collect();
    assert_eq!(widths, vec![20, 30, 20, 20, 20]);
    assert!(too_narrow(screen(29, 30)) && too_narrow(screen(90, 2)) && !too_narrow(screen(30, 3)));
    assert_eq!((card_height(1), card_height(2)), (6, 4));
    assert_eq!(kanban_column_meta(1).1, Color::LightYellow);
    assert_eq!(empty_hint(3), "No merges queued");
    match render_projects_body(screen(100, 30), 0) {
        ProjectsBody::Empty(l) => {
            assert!(words(&l).starts_with("No projects registered yet. Press N to register"))
        }
        ProjectsBody::Bands { .. } => panic!("no projects"),
    }
    match render_projects_body(screen(100, 30), 1) {
        ProjectsBody::Bands { chips, board } => assert_eq!((chips.height, board.height), (2, 28)),
        ProjectsBody::Empty(_) => panic!("one project"),
    }
}

#[test]
fn areas_are_split_exactly() {
    for w in (0..700).chain([4095, 65_534]) {
        let cols = render_kanban_board(Rect { x: 1, y: 2, width: w, height: 9 });
        let edge = |k: u32| 1 + (k as f64 * w as f64 / 11.0).round() as u16;
        for (c, (from, to)) in cols.iter().zip([(0, 2), (2, 5), (5, 7), (7, 9), (9, 11)]) {
            assert_eq!((c.x, c.x + c.width, c.y, c.height), (edge(from), edge(to), 2, 9), "width {}", w);
        }
    }
    for h in 5..300 {
        let bands = main_layout(Rect { x: 3, y: 7, width: 20, height: h });
        let rows: Vec<(u16, u16)> = bands.iter().map(|b| (b.y - 7, b.height)).collect();
        assert_eq!(rows, vec![(0, 1), (1, 3), (4, h - 5), (h - 1, 1)]);
    }
    let small = [
        [(0, 0), (0, 0), (0, 0), (0, 0)],
        [(0, 1), (1, 0), (1, 0), (1, 0)],
        [(0, 1), (1, 1), (2, 0), (2, 0)],
        [(0, 1), (1, 1), (2, 0), (2, 1)],
        [(0, 1), (1, 2), (3, 0), (3, 1)],
        [(0, 1), (1, 3), (4, 0), (4, 1)],
    ];
    for y in [0, 7, 99, 1_000, 65_530] {
        for (h, want) in small.iter().enumerate() {
            for width in 0..20 {
                let bands = main_layout(Rect { x: 3, y, width, height: h as u16 });
                let rows: Vec<(u16, u16)> = bands.iter().map(|b| (b.y - y, b.height)).collect();
                assert_eq!(rows, want.to_vec());
                assert!(bands.iter().all(|b| (b.x, b.width) == (3, width)));
            }
        }
    }
    for (h, rows) in [(0, 0), (1, 1), (2, 2), (3, 2)] {
        match render_projects_body(Rect { x: 0, y: 5, width: 9, height: h }, 1) {
            ProjectsBody::Bands { chips, board } => {
                assert_eq!((chips.y, chips.height, board.y, board.height), (5, rows, 5 + rows, h - rows));
            }
            ProjectsBody::Empty(_) => panic!("one project"),
        }
    }
    for right in 1..90 {
        let (left, right_area) = title_areas(Rect { x: 4, y: 0, width: 90, height: 1 }, 0, right);
        let r = right_area.unwrap();
        assert_eq!((left.x, left.width, r.x, r.width), (4, 90 - right, 94 - right, right));
    }
}

#[test]
fn column_scrolls_to_the_selection() {
    let area = screen(40, 24);
    let c = render_kanban_column(area, "Review", 2, 9, true, 7);
    let shown: Vec<usize> = c.slots.iter().map(|s| s.task).collect();
    assert_eq!(shown, vec![4, 5, 6, 7]);
    assert!(c.slots[3].selected && !c.slots[0].selected);
    assert_eq!(c.slots[1].rect, Rect { x: 1, y: 6, width: 38, height: 4 });
    assert!(words(&c.title).ends_with("Review (9)  · 5-8 "), "{}", words(&c.title));
    assert!(matches!(c.border, Border::Double));
    let c = render_kanban_column(area, "Review", 2, 9, false, 7);
    assert_eq!(c.slots[0].task, 0);
    assert!(c.slots.iter().all(|s| !s.selected));
    let c = render_kanban_column(area, "Review", 2, 0, true, 7);
    assert_eq!(c.hint.unwrap(), "No reviews pending");
    assert!(c.slots.is_empty());
}

#[test]
fn lock_holder_is_named() {
    let tasks = vec![task("t1", TaskStatus::Merging, 0), task("t2", TaskStatus::Merging, 0)];
    let lock = |id: &str| {
        Some(MergeLock {
            task_id: id.to_string(),
            short_id: id.to_string(),
            acquired_at: 5,
            age: "1m".to_string(),
            phase: MergePhase::Bump,
        })
    };
    let b = merge_banner(&lock("t2"), &tasks, Some(9)).unwrap();
    assert_eq!(b.title, Some("title of t2".to_string()));
    assert_eq!((b.acquired_at, b.pr_id), (5, Some(9)));
    assert_eq!(merge_banner(&lock("t3"), &tasks, None).unwrap().title, None);
    assert!(merge_banner(&None, &tasks, None).is_none());
    for col in 0..6 {
        assert_eq!(column_banner(col, &lock("t2"), &tasks, Some(9)).is_some(), col == 3);
    }
}

fn chip(name: &str, tasks: Vec<Task>) -> ProjectChip {
    ProjectChip { name: name.to_string(), root: format!("/home/me/{}", name), tasks }
}

#[test]
fn chips_count_tasks() {
    let tasks = vec![
        task("a", TaskStatus::Running, 0),
        task("b", TaskStatus::Running, 1),
        task("c", TaskStatus::Backlog, 0),
        task("d", TaskStatus::Done, 0),
        task("e", TaskStatus::Done, 0),
    ];
    let projects = vec![chip("one", tasks), chip("two", Vec::new())];
    let s = render_project_chip_strip(screen(80, 2), &projects, 1).unwrap();
    assert_eq!(words(&s.line), "  󰉋  P·R·Rv·M·D   one  1·1·0·0·2  󰒲 1   two  0·0·0·0·0  ");
    assert_eq!(s.scroll, 0);
    assert_eq!(s.path.unwrap().0, "     /home/me/two");
    let s = render_project_chip_strip(screen(10, 2), &projects, 1).unwrap();
    let start = words(&s.line).chars().take_while(|c| *c != 't').count() - 1;
    assert_eq!(s.scroll as usize, start - 4);
    assert_eq!(s.path.unwrap().0, "    …e/two");
    assert!(render_project_chip_strip(screen(80, 1), &projects, 0).unwrap().path.is_none());
    assert!(render_project_chip_strip(screen(80, 2), &projects, 5).unwrap().path.is_none());
    assert!(render_project_chip_strip(screen(80, 0), &projects, 0).is_none());
}

fn groups(sizes: &[usize]) -> Vec<SessionGroup> {
    sizes
        .iter()
        .map(|n| SessionGroup {
            name: "g".to_string(),
            cwd: "/g".to_string(),
            sessions: (0..*n).map(|_| session("x", SessionState::WaitingForInput)).collect(),
        })
        .collect()
}

fn grid(area: Rect, sizes: &[usize], sel: (usize, usize), scroll: u16) -> Grid {
    match render_grid(area, &groups(sizes), 3, 5, sel.0, sel.1, scroll) {
        GridBody::Cards(g) => g,
        GridBody::Empty(_) => panic!("there are groups"),
    }
}

#[test]
fn grid_of_sessions() {
    let area = Rect { x: 2, y: 4, width: 100, height: 20 };
    let g = grid(area, &[4, 2], (0, 0), 0);
    assert_eq!(g.scroll, 0);
    let rows: Vec<u16> = g.headers.iter().map(|h| h.y).collect();
    assert_eq!(rows, vec![4, 16]);
    assert_eq!(words(&g.headers[0].line), " 󰉋 g  4 sessions  󰂞 4  /g");
    let rects: Vec<Rect> = g.cells.iter().map(|c| c.rect).collect();
    assert_eq!(
        rects,
        vec![
            Rect { x: 2, y: 5, width: 33, height: 5 },
            Rect { x: 35, y: 5, width: 33, height: 5 },
            Rect { x: 68, y: 5, width: 34, height: 5 },
            Rect { x: 2, y: 10, width: 33, height: 5 },
            Rect { x: 2, y: 17, width: 33, height: 5 },
            Rect { x: 35, y: 17, width: 33, height: 5 },
        ]
    );
    let g = grid(area, &[4, 20], (1, 19), 0);
    let last = g.cells.last().unwrap();
    assert!(last.selected && last.rect.y + 5 == 24);
    assert_eq!(grid(area, &[4, 20], (1, 0), 60_000).scroll, 12);
    assert_eq!(grid(area, &[4, 2], (1, 1), u16::MAX).scroll, 12);
    assert_eq!(cell_height(0), 1);
    match render_grid(area, &Vec::new(), 3, 5, 0, 0, 0) {
        GridBody::Empty(s) => assert_eq!(s, "No sessions found. Start an agent session to see it here."),
        GridBody::Cards(_) => panic!("there are no groups"),
    }
}

#[test]
fn grid_counts_rows_in_sixteen_bits() {
    let fits = |sizes: &[usize], high: u16, sel: (usize, usize)| grid_fits(&groups(sizes), 1, high, sel.0, sel.1);
    assert!(fits(&[1, 1], 30_000, (0, 0)));
    assert!(fits(&[1, 1, 0], 40_000, (0, 0)));
    assert!(!fits(&[1, 1, 1], 40_000, (0, 0)));
    assert!(!fits(&[1, 1], 40_000, (1, 0)));
    assert!(!fits(&[2], 40_000, (0, 0)));
    let area = Rect { x: 0, y: 0, width: 10, height: 20 };
    match render_grid(area, &groups(&[1, 1, 0, 0]), 1, 40_000, 0, 0, 0) {
        GridBody::Cards(g) => assert_eq!((g.scroll, g.headers.len()), (39_981, 0)),
        GridBody::Empty(_) => panic!("there are groups"),
    }
}

fn detail() -> SessionDetail {
    let mut info = session("x", SessionState::Processing);
    info.model = Some("house-opus-4-7".to_string());
    info.version = Some("2.0".to_string());
    info.summary = Some("topic".to_string());
    SessionDetail {
        info,
        total_input_tokens: 1500,
        total_output_tokens: 20,
        recent_messages: vec![Message {
            role: "assistant".to_string(),
            timestamp: 0,
            model: Some("house-haiku".to_string()),
            vendor: "house".to_string(),
            stop_reason: Some("tool_use".to_string()),
            input_tokens: Some(5),
            output_tokens: Some(6),
            content_preview: "one\ntwo".to_string(),
        }],
    }
}

#[test]
fn session_details() {
    let d = detail();
    let rows = all(&popup_lines(&d, "Jan 01", &vec!["10:00".to_string()], 6));
    assert!(rows[0].ends_with("Path:    /src"), "{}", rows[0]);
    assert_eq!(rows[1], "󰚩  Agent:  A   󰘦  Branch:     󰧑 Model: opus-4-7   v2.0");
    assert_eq!(rows[2], "󰒓 State:   busy   󰥔 Started: Jan 01");
    assert_eq!(rows[3], "󰆏 Tokens:  1.5kin / 20out");
    assert_eq!(rows[4], "󰍡 Topic:   topic");
    assert_eq!(rows[5], "─────");
    assert_eq!(rows[6], "");
    assert!(rows[7].starts_with("󰧑 asst 󰥔 10:00  󰧑 haiku"), "{}", rows[7]);
    assert!(rows[7].ends_with("tools  5in/6out"), "{}", rows[7]);
    assert_eq!(rows[8..].to_vec(), vec!["  one", "  two", ""]);
    assert_eq!(build_popup_content(&d, 6).len(), rows.len());
    assert_eq!(build_popup_title(&d.info), " p (PID 7) ");
    let f = render_popup(screen(100, 40), 50, 9);
    assert_eq!(f.indicator, " 10/50 ");
    assert_eq!(f.indicator_area.unwrap().y, f.area.y + f.area.height - 1);
    assert_eq!(render_popup(screen(100, 40), 50, 900).indicator, " 50/50 ");
    assert!(render_popup(screen(2, 2), 50, 0).indicator_area.is_none());
}

fn analysis() -> MetricsAnalysis {
    let model = |name: &str, rank: u64| ModelStats {
        name: name.to_string(),
        vendor: "house".to_string(),
        cost: format!("${}", rank),
        rank,
        bar: 2,
        share: "50.0".to_string(),
        messages: 3,
    };
    let tool = |name: &str, count: u64| ToolStats { name: name.to_string(), count, sessions: 1 };
    let row = |id: &str| SessionSummary {
        session_id: id.to_string(),
        is_subagent: id == "sub",
        cost: "$1.00".to_string(),
        total_tokens: 1234,
        model: "house-opus".to_string(),
        vendor: "house".to_string(),
        project: "proj".to_string(),
    };
    MetricsAnalysis {
        total_cost: "$3.00".to_string(),
        total_sessions: 2,
        total_messages: 9,
        cache_hit: "40".to_string(),
        total_tokens: TokenTotals { input: 10, output: 5, cache_read: 0, cache_creation: 1 },
        by_model: vec![model("house-haiku", 1), model("house-opus", 2)],
        daily: DailySpending {
            levels: vec![None, Some(0), Some(7)],
            last_7: "$1.00".to_string(),
            last_30: "$2.00".to_string(),
            peak_day: "$0.50".to_string(),
        },
        top_projects: vec![ProjectStats {
            name: "proj".to_string(),
            cost: "$1.00".to_string(),
            bar: 3,
            sessions: 1,
            messages: 2,
        }],
        by_tool: vec![tool("Bash", 1), tool("Read", 3)],
        by_shell: Vec::new(),
        by_mcp: (0..17).map(|i| tool(&format!("srv{:02}", i), 1)).collect(),
        interruptions: Interruptions {
            total_wasted_cost: "$0.10".to_string(),
            total_interrupted_turns: 1,
            sessions_affected: 1,
            by_session: vec![InterruptedSession {
                session_id: "abcdefghij".to_string(),
                wasted_cost: "$0.10".to_string(),
                orphan_count: 2,
                last_tool_name: "Bash".to_string(),
                project: "proj".to_string(),
            }],
        },
        peak_context: vec![PeakFinding {
            session_id: "peak".to_string(),
            peak_ctx_tokens: 150_000,
            total_cost: "$0.20".to_string(),
            peak_turn_index: 3,
            assistant_turns: 9,
            project: "proj".to_string(),
        }],
        context_growth: ContextGrowth {
            sessions_scored: 4,
            anomalous_cost: "$0.00".to_string(),
            findings: vec![SpikeFinding {
                session_id: "spike".to_string(),
                score: "12.5".to_string(),
                total_cost: "$0.30".to_string(),
                peak_delta_tokens: 2000,
                peak_turn_index: 1,
                assistant_turns: 2,
                project: "proj".to_string(),
            }],
        },
        top_sessions: vec![row("one"), row("sub")],
    }
}

#[test]
fn report_is_laid_out() {
    let (lines, rows) = build_metrics_content(&analysis(), Some(4));
    let text = all(&lines);
    let find = |s: &str| text.iter().position(|l| l.contains(s)).unwrap();
    assert_eq!(text[0], "▎ Overview");
    assert_eq!(text[1], "  Total cost   $3.00    Sessions 2    Messages 9    Cache hit 40%");
    assert_eq!(text[2], "  Tokens      10 in / 5 out / 0 cache_r / 1 cache_w");
    assert_eq!(text[5], format!("  input        {} 10", "━".repeat(30)));
    assert_eq!(text[6], format!("  output       {} 5", "━".repeat(15)));
    assert_eq!(text[8], format!("  cache create {} 1", "━".repeat(3)));
    let by_model = find("Cost by model");
    assert_eq!(text[by_model + 1], format!("  {:<22}━━ $2 50.0%  3 msgs", "opus"));
    assert_eq!(text[by_model + 2], format!("  {:<22}━━ $1 50.0%  3 msgs", "haiku"));
    assert_eq!(text[find("Daily spending") + 1], "   ▁█");
    let tools = find("Tool usage");
    assert_eq!(text[tools + 1], format!("  {:<22}{} {:>6} calls  75.0%  1 sess", "Read", "━".repeat(24), 3));
    assert_eq!(text[tools + 2], format!("  {:<22}{} {:>6} calls  25.0%  1 sess", "Bash", "━".repeat(8), 1));
    assert_eq!(text[find("Shell commands") + 1], "  (no shell commands recorded)");
    assert_eq!(text[find("MCP servers") + 16], "  … 2 more servers");
    assert_eq!(rows.len(), 5);
    assert!(text[rows[0]].starts_with("    abcdefgh  "), "{}", text[rows[0]]);
    assert!(text[rows[1]].contains("150.0k ctx"));
    assert!(text[rows[2]].contains(" 12.5x"));
    assert!(text[rows[3]].starts_with("   one"), "{}", text[rows[3]]);
    assert!(text[rows[4]].starts_with("▸ ⑂sub"), "{}", text[rows[4]]);
}

#[test]
fn report_follows_the_selection() {
    let m = Some(analysis());
    let at = |selected: Option<usize>, scroll: u16| {
        match render_metrics_body(screen(100, 11), &m, None, selected, scroll) {
            MetricsBody::Report(v) => v,
            _ => panic!("there is a report"),
        }
    };
    let total = at(None, 0).lines.len();
    assert_eq!(at(None, u16::MAX).scroll as usize, total - 10);
    assert_eq!(at(None, 3).indicator, format!(" 4/{} ", total));
    let v = at(Some(1), 0);
    assert_eq!(v.scroll as usize, v.row_lines[1] - 9);
    let v = at(Some(0), 60_000);
    assert_eq!(v.scroll as usize, v.row_lines[0]);
    assert_eq!(v.view_height, 10);
    assert!(matches!(render_metrics_body(screen(9, 1), &m, None, None, 0), MetricsBody::Nothing));
    let s = render_metrics_body(screen(9, 9), &None, Some((1, 3)), None, 0);
    assert!(matches!(s, MetricsBody::Scanning(_)));
    assert_eq!(scanning_text(Some((1, 3))), " Scanning agent transcripts … 1 / 3 sessions (33%)");
    assert_eq!(scanning_text(Some((1, 0))), " Scanning agent transcripts …");
}

#[test]
fn colours_of_names() {
    assert_eq!(model_color("house", "house-sonnet-4"), Color::Rgb(150, 200, 240));
    let hash = |s: &str| {
        s.bytes().fold(0x811c_9dc5u32, |h, b| (h ^ b as u32).wrapping_mul(0x0100_0193)) as usize % 8
    };
    let names = ["", "Bash", "Read", "Edit", "mcp__x", "日本", "zz", "a b"];
    for a in names {
        for b in names {
            assert_eq!(tool_color(a) == tool_color(b), hash(a) == hash(b));
        }
    }
    assert_eq!(hash(""), 5);
    assert_eq!(tool_color(""), Color::Rgb(240, 220, 140));
}

#[test]
fn tabs_and_title() {
    let tabs = vec![
        TabLabel { tab: Tab::Tasks, label: "Tasks".to_string() },
        TabLabel { tab: Tab::Sessions, label: "Sessions".to_string() },
    ];
    let (area, line) = render_tab_strip(Rect { x: 0, y: 1, width: 80, height: 3 }, &tabs, Tab::Sessions).unwrap();
    assert_eq!((area.y, area.height), (2, 1));
    assert_eq!(words(&line), "   Tasks   Sessions    ⇥/K next · ⇧⇥/J prev tab");
    assert!(render_tab_strip(screen(80, 0), &tabs, Tab::Tasks).is_none());
    assert_eq!(build_session_count_spans(SessionCounts { today: 0, week: 0 }).spans.len(), 0);
    let counts = SessionCounts { today: 1, week: 12 };
    assert_eq!(words(&build_session_count_spans(counts)), " today 1 │ this wk 12");
    let usage = Line::of("use", fg(Color::White));
    let bar = render_title_bar(screen(80, 1), 4, 1, counts, &usage);
    assert_eq!(words(&bar.left), " 󰚩 cc-hub 4 sessions  󰂞 1 need attention");
    assert_eq!(words(&bar.right), " today 1 │ this wk 12 │ use");
    assert_eq!(bar.right_area.unwrap(), Rect { x: 53, y: 0, width: 27, height: 1 });
    assert_eq!(bar.left_area.width, 53);
    let narrow = render_title_bar(screen(66, 1), 4, 1, counts, &usage);
    assert!(narrow.right_area.is_none());
    assert_eq!(narrow.left_area.width, 66);
    let none = SessionCounts { today: 0, week: 0 };
    assert_eq!(words(&render_title_bar(screen(80, 1), 4, 0, none, &usage).right), "use");
    assert!(render_title_bar(screen(80, 1), 4, 0, none, &Line::empty()).right_area.is_none());
    assert!(title_areas(screen(80, 1), 50, 31).1.is_none());
    assert!(title_areas(screen(80, 1), 50, 30).1.is_some());
    let wide = Line::of("日本", fg(Color::White));
    assert_eq!(render_title_bar(screen(80, 1), 4, 0, none, &wide).right_area.unwrap().width, 4);
}

fn status(view: Overlay, tab: Tab) -> Status {
    Status {
        view,
        tab,
        board_task: None,
        message: None,
        message_ttl_ms: 1000,
        dispatch: None,
        refreshed_secs: 1,
        refreshed: "9s ago".to_string(),
    }
}

#[test]
fn status_line() {
    let s = status(Overlay::Grid, Tab::Metrics);
    assert_eq!(
        words(&render_status_bar(&s)),
        " enter:view transcript  j/k:select  r:refresh  tab:next  q:quit refreshed just now "
    );
    let mut s = status(Overlay::Grid, Tab::Tasks);
    s.refreshed_secs = 9;
    let line = words(&render_status_bar(&s));
    assert!(line.starts_with(" Space done  a/n:add"), "{}", line);
    assert!(line.ends_with("refreshed 9s ago "), "{}", line);
    s.board_task = Some(TaskStatus::Planning);
    assert!(words(&render_status_bar(&s)).starts_with(" Space proceed "));
    let mut s = status(Overlay::Popup, Tab::Tasks);
    s.dispatch = Some(PendingDispatch { target: "cc-1".to_string(), age_secs: 3, queued: 3 });
    assert_eq!(
        words(&render_status_bar(&s)),
        " j/k:scroll  esc:close  q:close  ↻ dispatch waiting [cc-1 +2] 3s refreshed just now "
    );
    s.message = Some(StatusMessage { text: "saved".to_string(), age_ms: 999 });
    assert!(words(&render_status_bar(&s)).starts_with(" saved  ↻ dispatch"));
    s.message = Some(StatusMessage { text: "saved".to_string(), age_ms: 1000 });
    assert!(words(&render_status_bar(&s)).starts_with(" j/k:scroll"));
}

#[test]
fn keys_of_overlays() {
    let keys = |v: Overlay| keybinds(v, Tab::Tasks);
    assert_eq!(keys(Overlay::ConfirmClose), "y:confirm  n/esc:cancel");
    assert!(keys(Overlay::ModelPicker { several_agents: true }).contains("tab:agent"));
    assert!(!keys(Overlay::ModelPicker { several_agents: false }).contains("tab:agent"));
    let picker = |mode: PickerMode, assigning: bool| keys(Overlay::FolderPicker { mode, assigning });
    assert!(picker(PickerMode::Bookmarks, true).contains("unbookmark"));
    assert!(picker(PickerMode::Places, true).contains("browse folders"));
    assert!(picker(PickerMode::Browse, true).contains("tab:projects"));
    assert!(picker(PickerMode::Browse, false).contains("gh new"));
    assert!(keys(Overlay::TaskAttachInput { note: true }).starts_with("type note"));
    assert!(keys(Overlay::TodoPanel { adding: false }).contains("clear done"));
}
