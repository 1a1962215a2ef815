use cc_hub::dialogs::{
    render_confirm_close, render_gh_create_input, render_prompt_input, render_rename_session, render_task_input,
    render_task_tags, render_tmux_pane, Dialog, DispatchTarget, GhCreateInput, PendingConfirm, PromptTarget,
};
use cc_hub::geometry::Rect;
use cc_hub::live_tail::{
    build_live_tail_content, is_placeholder_preview, parse_preview, render_live_tail, render_turn_stats,
    ConversationMessage, LiveView, Markers, PreviewPart,
};
use cc_hub::models::{SessionInfo, SessionState};
use cc_hub::pickers::{
    highlight_spans, render_folder_picker, render_places_picker, FolderEntry, FolderList, PickerPopup, Place,
    PlaceList, PlaceRow, PlaceSource,
};
use cc_hub::state_debug::{
    build_state_debug_content, render_state_debug, render_state_debug_loading, ExplainStep, NamedState,
    StateExplanation, TailEntry, Verdict,
};
use cc_hub::style::{fg, plain, Color, Line, Lines, Style};
use cc_hub::todo_panel::{render_todo_panel, todo_panel, TodoEntry, TodoState};

fn to_color(c: Color) -> ratatui::style::Color {
    match c {
        Color::Reset => ratatui::style::Color::Reset,
        Color::Black => ratatui::style::Color::Black,
        Color::Red => ratatui::style::Color::Red,
        Color::Green => ratatui::style::Color::Green,
        Color::Yellow => ratatui::style::Color::Yellow,
        Color::Blue => ratatui::style::Color::Blue,
        Color::Cyan => ratatui::style::Color::Cyan,
        Color::Gray => ratatui::style::Color::Gray,
        Color::DarkGray => ratatui::style::Color::DarkGray,
        Color::LightGreen => ratatui::style::Color::LightGreen,
        Color::LightYellow => ratatui::style::Color::LightYellow,
        Color::LightBlue => ratatui::style::Color::LightBlue,
        Color::LightMagenta => ratatui::style::Color::LightMagenta,
        Color::LightCyan => ratatui::style::Color::LightCyan,
        Color::White => ratatui::style::Color::White,
        Color::Rgb(r, g, b) => ratatui::style::Color::Rgb(r, g, b),
    }
}

fn to_style(s: Style) -> ratatui::style::Style {
    let mut out = ratatui::style::Style::default();
    if let Some(c) = s.fg {
        out = out.fg(to_color(c));
    }
    if let Some(c) = s.bg {
        out = out.bg(to_color(c));
    }
    for (on, m) in [
        (s.bold, ratatui::style::Modifier::BOLD),
        (s.italic, ratatui::style::Modifier::ITALIC),
        (s.dim, ratatui::style::Modifier::DIM),
        (s.underlined, ratatui::style::Modifier::UNDERLINED),
    ] {
        if on {
            out = out.add_modifier(m);
        }
    }
    out
}

fn to_line(l: &Line) -> ratatui::text::Line<'static> {
    let spans: Vec<ratatui::text::Span<'static>> = l
        .spans
        .iter()
        .map(|s| ratatui::text::Span::styled(s.text.clone(), to_style(s.style)))
        .collect();
    ratatui::text::Line::from(spans)
}

fn to_lines(l: &Lines) -> Vec<ratatui::text::Line<'static>> {
    l.rows.iter().map(to_line).collect()
}

fn to_rect(r: Rect) -> ratatui::layout::Rect {
    ratatui::layout::Rect::new(r.x, r.y, r.width, r.height)
}

fn screen(w: u16, h: u16) -> Rect {
    Rect { x: 0, y: 0, width: w, height: h }
}

fn draw(w: u16, h: u16, f: impl FnOnce(&mut ratatui::Frame)) -> ratatui::buffer::Buffer {
    let backend = ratatui::backend::TestBackend::new(w, h);
    let mut terminal = ratatui::Terminal::new(backend).unwrap();
    terminal.draw(f).unwrap();
    terminal.backend().buffer().clone()
}

fn buffer_to_string(buf: &ratatui::buffer::Buffer) -> String {
    let mut out = String::new();
    for y in 0..buf.area().height {
        out.push_str(&row(buf, y));
        out.push('\n');
    }
    out
}

fn row(buf: &ratatui::buffer::Buffer, y: u16) -> String {
    (0..buf.area().width).map(|x| buf[(x, y)].symbol().to_string()).collect()
}

fn boxed(title: &Line, footer: &Line) -> ratatui::widgets::Block<'static> {
    ratatui::widgets::Block::default()
        .borders(ratatui::widgets::Borders::ALL)
        .title(to_line(title))
        .title_bottom(to_line(footer))
}

fn words(l: &Line) -> String {
    l.spans.iter().map(|s| s.text.as_str()).collect()
}

fn all(l: &Lines) -> Vec<String> {
    l.rows.iter().map(words).collect()
}

fn show(d: &Dialog, w: u16, h: u16) -> String {
    buffer_to_string(&draw(w, h, |f| {
        f.render_widget(boxed(&d.title, &d.footer), to_rect(d.area));
        if let Some(body) = &d.body {
            let text = ratatui::widgets::Paragraph::new(to_lines(body))
                .wrap(ratatui::widgets::Wrap { trim: false });
            f.render_widget(text, to_rect(d.inner));
        }
    }))
}

fn show_picker(p: &PickerPopup, w: u16, h: u16) -> String {
    buffer_to_string(&draw(w, h, |f| {
        let title = Line::of(&p.title, plain());
        let footer = Line::of(&p.footer, plain());
        f.render_widget(boxed(&title, &footer), to_rect(p.area));
        if let Some(c) = &p.content {
            let header = ratatui::widgets::Paragraph::new(to_line(&c.header));
            f.render_widget(header, to_rect(c.header_area));
            let count = ratatui::widgets::Paragraph::new(to_line(&c.count))
                .alignment(ratatui::layout::Alignment::Right);
            f.render_widget(count, to_rect(c.header_area));
            f.render_widget(ratatui::widgets::Paragraph::new(to_lines(&c.list)), to_rect(c.list_area));
        }
    }))
}

#[test]
fn renders_filter_match_count_and_surviving_rows() {
    let list = PlaceList {
        filter: "hub".to_string(),
        places: vec![
            Place {
                name: "cc-hub".to_string(),
                display_path: "/g/self/cc-hub".to_string(),
                source: PlaceSource::Project,
            },
            Place {
                name: "reddit".to_string(),
                display_path: "/g/self/reddit".to_string(),
                source: PlaceSource::Recent,
            },
        ],
        rows: vec![PlaceRow { place: 0, name_indices: vec![3, 4, 5], path_indices: Vec::new() }],
        selection: 0,
    };
    let rendered = show_picker(&render_places_picker(screen(90, 26), &list, false), 90, 26);
    assert!(rendered.contains("cc-hub"), "name row:\n{}", rendered);
    assert!(rendered.contains("/g/self/cc-hub"), "path:\n{}", rendered);
    assert!(rendered.contains("hub▎"), "filter line:\n{}", rendered);
    assert!(rendered.contains("1/2"), "match count:\n{}", rendered);
    assert!(!rendered.contains("reddit"), "filtered-out row must not render:\n{}", rendered);
}

#[test]
fn popup_grows_to_fit_long_input_instead_of_clipping() {
    let long = "investigate why the orchestrator retry backoff logic \
        keeps hammering the upstream scheduler after a transient \
        network partition and document every observed failure mode \
        plus the exact sequence of reconnect attempts so we can \
        finally write a deterministic regression test for it";
    let rendered = show(&render_task_input(screen(90, 26), long, false), 90, 26);
    for word in long.split_whitespace() {
        assert!(rendered.contains(word), "word {:?} should appear in the popup:\n{}", word, rendered);
    }
    for hint in ["[enter]", "add", "[esc]", "cancel"] {
        assert!(rendered.contains(hint), "footer hint {:?} should stay visible:\n{}", hint, rendered);
    }
}

fn long_todo() -> (String, String) {
    let long = "remember to refactor the orchestrator retry backoff logic today";
    let todo = TodoState {
        items: vec![TodoEntry { text: long.to_string(), done: false }],
        selected: 0,
        adding: false,
        input: String::new(),
    };
    let panel = render_todo_panel(screen(60, 12), &todo).unwrap();
    let rendered = buffer_to_string(&draw(60, 12, |f| {
        let title = Line::of(&panel.title, plain());
        let footer = Line::of(&panel.footer, plain());
        f.render_widget(boxed(&title, &footer), to_rect(panel.area));
        let text = ratatui::widgets::Paragraph::new(to_lines(panel.body.as_ref().unwrap()));
        f.render_widget(text, to_rect(panel.inner));
    }));
    (long.to_string(), rendered)
}

#[test]
fn popups_long_item_wraps_instead_of_clipping() {
    let (long, rendered) = long_todo();
    for word in long.split_whitespace() {
        assert!(rendered.contains(word), "word {:?} should appear in the wrapped panel:\n{}", word, rendered);
    }
}

#[test]
fn ui_long_item_wraps_instead_of_clipping() {
    let (long, rendered) = long_todo();
    for word in long.split_whitespace() {
        assert!(rendered.contains(word), "word {:?} should appear in the wrapped panel:\n{}", word, rendered);
    }
}

#[test]
fn highlighting_splits_into_runs() {
    let base = fg(Color::White);
    let hl = fg(Color::Blue);
    let l = highlight_spans("cc-hub", &vec![0, 1, 4], base, hl);
    let runs: Vec<(&str, Style)> = l.spans.iter().map(|s| (s.text.as_str(), s.style)).collect();
    assert_eq!(runs, vec![("cc", hl), ("-h", base), ("u", hl), ("b", base)]);
    assert_eq!(highlight_spans("ab", &Vec::new(), base, hl).spans.len(), 1);
    assert_eq!(highlight_spans("", &Vec::new(), base, hl).spans.len(), 1);
    assert_eq!(highlight_spans("", &vec![0], base, hl).spans.len(), 0);
    assert_eq!(words(&highlight_spans("日本語", &vec![1, 9], base, hl)), "日本語");
}

fn folders(n: usize, bookmarks: bool, selection: usize) -> FolderList {
    FolderList {
        bookmarks,
        current_dir: "/src".to_string(),
        entries: (0..n)
            .map(|i| FolderEntry { name: format!("dir{}", i), bookmarked: i % 2 == 0 })
            .collect(),
        selection,
    }
}

#[test]
fn folder_picker_keeps_the_selection_in_view() {
    let p = render_folder_picker(screen(90, 26), &folders(50, false, 30), false);
    let c = p.content.unwrap();
    assert_eq!(c.list_area.height, 20);
    let rows = all(&c.list);
    assert_eq!(rows.len(), 20);
    assert_eq!(rows[0], "  dir11/");
    assert_eq!(rows[19], "▶ ★ dir30/");
    assert_eq!(words(&c.header), " 󰉋 /src");
    assert_eq!(p.title, " New session · pick folder ");
    let p = render_folder_picker(screen(90, 26), &folders(2, true, 0), true);
    assert_eq!(p.title, " New session · bookmarks ");
    assert_eq!(all(&p.content.unwrap().list), vec!["▶ dir0", "  dir1"]);
    let p = render_folder_picker(screen(90, 26), &folders(0, false, 0), true);
    assert_eq!(p.title, " Assign task · pick folder ");
    assert_eq!(all(&p.content.unwrap().list), vec!["  (no subdirectories)"]);
    assert!(render_folder_picker(screen(90, 4), &folders(5, false, 0), false).content.is_none());
}

#[test]
fn places_that_are_gone_are_left_out() {
    let list = PlaceList {
        filter: String::new(),
        places: vec![Place {
            name: "a".to_string(),
            display_path: "/a".to_string(),
            source: PlaceSource::Bookmark,
        }],
        rows: vec![
            PlaceRow { place: 7, name_indices: Vec::new(), path_indices: Vec::new() },
            PlaceRow { place: 0, name_indices: Vec::new(), path_indices: Vec::new() },
        ],
        selection: 1,
    };
    let p = render_places_picker(screen(90, 26), &list, true);
    assert_eq!(p.title, " Assign task · pick project ");
    assert_eq!(all(&p.content.unwrap().list), vec!["▶ ★ a  /a"]);
}

#[test]
fn repository_input() {
    let input = |private: bool| GhCreateInput { cwd: "/src".to_string(), name: "new".to_string(), private };
    let d = render_gh_create_input(screen(100, 30), &input(true));
    assert_eq!(all(&d.body.unwrap()), vec![" in /src", "", " name: new▎", " visibility: private"]);
    let d = render_gh_create_input(screen(100, 30), &input(false));
    assert_eq!(all(&d.body.unwrap())[3], " visibility: public");
    assert!(render_gh_create_input(screen(100, 5), &input(true)).body.is_none());
}

#[test]
fn prompt_box_grows_with_its_lines() {
    let none = PromptTarget::Session(None);
    let height = |text: &str| render_prompt_input(screen(100, 40), text, &none).area.height;
    assert_eq!(height(""), 9);
    assert_eq!(height("a\nb\nc\nd"), 9);
    assert_eq!(height("a\nb\nc\nd\ne"), 10);
    assert_eq!(height(&"x".repeat(76 * 5 - 1)), 10);
    assert_eq!(height(&"x".repeat(76 * 5)), 11);
    assert_eq!(height(&"\n".repeat(100_000)), 40);
    let d = render_prompt_input(screen(100, 40), "hi", &none);
    assert_eq!(words(&d.title), " Dispatch prompt ");
    assert_eq!(words(&d.footer), " → no idle agent — will spawn a new one ");
    assert_eq!(all(&d.body.unwrap())[3], "  [enter] dispatch   [esc] cancel");
    let target = PromptTarget::Session(Some(DispatchTarget {
        pid: 42,
        name: "p".to_string(),
        tmux: "cc-1".to_string(),
    }));
    let d = render_prompt_input(screen(100, 40), "hi", &target);
    assert_eq!(words(&d.footer), " → p (PID 42) [cc-1] ");
    let project = PromptTarget::Project {
        agent: Some("codex".to_string()),
        cwd: None,
        several_agents: true,
    };
    let d = render_prompt_input(screen(100, 40), "hi", &project);
    assert_eq!(words(&d.title), " New project task ");
    assert_eq!(words(&d.footer), " → codex orchestrator in ? ");
    let body = all(&d.body.unwrap());
    assert_eq!(body[1], "  hi▎");
    assert_eq!(body[3], "  [enter] dispatch   [esc] cancel   [tab] cycle agent");
}

#[test]
fn task_tag_and_title_inputs() {
    let d = render_task_input(screen(100, 40), "x", true);
    assert_eq!(words(&d.title), " Rename task ");
    assert_eq!(all(&d.body.unwrap())[3], "  [enter] rename   [esc] cancel");
    let d = render_task_tags(screen(100, 40), "a, b");
    assert_eq!(words(&d.footer), " space or comma separates tags ");
    assert_eq!(all(&d.body.unwrap())[1], "  # a, b▎");
    let d = render_rename_session(screen(100, 40), "new", &Some("old".to_string()));
    assert_eq!(words(&d.footer), " was “old” ");
    assert_eq!(words(&render_rename_session(screen(9, 40), "", &Some(String::new())).footer), " untitled ");
    assert_eq!(words(&render_rename_session(screen(9, 40), "", &None).footer), " untitled ");
}

#[test]
fn confirmations_say_what_happens() {
    let say = |p: PendingConfirm| {
        let d = render_confirm_close(screen(100, 40), &p);
        (words(&d.title), d.border_color, all(&d.body.unwrap())[3].clone())
    };
    let (title, color, what) = say(PendingConfirm::ProjectDelete("p".to_string()));
    assert_eq!((title.as_str(), color), (" Delete project? ", Color::Red));
    assert_eq!(what, "  Removes this project from cc-hub and deletes its hub state. The repository directory is not deleted.");
    let (title, _, what) = say(PendingConfirm::TaskDelete("t".to_string()));
    assert_eq!(title, " Delete task? ");
    assert!(what.starts_with("  Kills the orchestrator if it is live and removes this"));
    assert!(what.ends_with("state directory. Worker sessions are left alone."));
    let (_, color, what) = say(PendingConfirm::TaskRestart("t".to_string()));
    assert_eq!(color, Color::Yellow);
    assert!(what.contains("live, then starts a new one from"));
    assert!(what.ends_with("Task history is preserved."));
    let (title, _, what) = say(PendingConfirm::Close("s".to_string()));
    assert_eq!(title, " Close terminal? ");
    assert!(what.contains("when the platform can resolve it. The tmux session may survive."));
}

#[test]
fn terminal_frame_takes_most_of_the_screen() {
    let d = render_tmux_pane(screen(100, 50), "cc-1");
    assert_eq!((d.area.width, d.area.height), (92, 46));
    assert_eq!(words(&d.title), " tmux · cc-1 ");
    assert!(d.body.is_some());
    assert!(render_tmux_pane(screen(2, 2), "cc-1").body.is_none());
}

fn todo(n: usize, selected: usize, adding: bool, input: &str) -> TodoState {
    TodoState {
        items: (0..n)
            .map(|i| TodoEntry { text: format!("item {}", i), done: i % 3 == 0 })
            .collect(),
        selected,
        adding,
        input: input.to_string(),
    }
}

fn panel(t: &TodoState, h: u16) -> Vec<String> {
    let body = Rect { x: 10, y: 4, width: 60, height: h };
    let p = todo_panel(body, t).unwrap();
    assert_eq!((p.area.x, p.area.width), (24, 46));
    all(&p.body.unwrap())
}

#[test]
fn panel_scrolls_to_the_selection() {
    assert_eq!(panel(&todo(3, 1, false, ""), 10), vec!["  [x] item 0", "› [ ] item 1", "  [ ] item 2"]);
    let rows = panel(&todo(20, 15, false, ""), 8);
    assert_eq!(rows.len(), 6);
    assert_eq!(rows[5], "› [x] item 15");
    assert_eq!(panel(&todo(20, 99, false, ""), 8)[5], "› [ ] item 19");
    assert_eq!(panel(&todo(0, 0, false, ""), 8), vec!["", "  No tasks yet — press a to add one."]);
    let mut t = todo(2, 0, false, "");
    t.items[0].text = "word ".repeat(60);
    let rows = panel(&t, 6);
    assert_eq!(rows.len(), 4);
    assert!(rows[0].starts_with("› [x] word"));
    assert!(rows[1].starts_with("      word"));
}

#[test]
fn panel_keeps_the_input_on_screen() {
    let rows = panel(&todo(20, 0, true, "abc"), 8);
    assert_eq!(rows.len(), 6);
    assert_eq!(rows[4], "");
    assert_eq!(rows[5], "+ abc▎");
    assert!(rows[0].starts_with("  [x] item 0"));
    let long: String = ('a'..='z').cycle().take(100).collect();
    let last = panel(&todo(0, 0, true, &long), 8).pop().unwrap();
    assert_eq!(last.chars().count(), 44);
    assert!(last.starts_with("+ …") && last.ends_with("▎"));
    assert!(todo_panel(Rect { x: 0, y: 0, width: 0, height: 9 }, &todo(1, 0, false, "")).is_none());
    let p = todo_panel(screen(60, 10), &todo(4, 0, false, "")).unwrap();
    assert_eq!(p.title, " To-Do · 2/4 done ");
}

#[test]
fn todo_panel_lies_on_the_body_band() {
    for h in 0..8 {
        assert_eq!(render_todo_panel(screen(100, h), &todo(1, 0, false, "")).is_some(), h > 5);
        assert!(render_todo_panel(screen(0, h), &todo(1, 0, false, "")).is_none());
    }
    let p = render_todo_panel(screen(100, 30), &todo(1, 0, false, "")).unwrap();
    assert_eq!(p.area, Rect { x: 54, y: 4, width: 46, height: 25 });
}

fn markers() -> Markers {
    Markers {
        thinking: "[thinking]".to_string(),
        tool_prefix: "[tool: ".to_string(),
        no_content: "(no content)".to_string(),
        no_text_content: "(no text content)".to_string(),
    }
}

fn parts(s: &str) -> Vec<String> {
    parse_preview(&markers(), s)
        .into_iter()
        .map(|p| match p {
            PreviewPart::Thinking => "*".to_string(),
            PreviewPart::Tool(t) => format!("T {}", t),
            PreviewPart::Text(t) => format!("X {}", t),
        })
        .collect()
}

#[test]
fn previews_are_taken_apart() {
    assert_eq!(parts(" hello "), vec!["X hello"]);
    assert!(parts("").is_empty());
    assert!(parts("(no content)").is_empty());
    assert_eq!(parts("[thinking] so [tool: Bash(ls)] [tool:  ] done"), vec!["*", "X so", "T Bash(ls)", "X done"]);
    assert_eq!(parts("a [tool: open"), vec!["X a"]);
    assert_eq!(parts("(no text content)[tool: Read]"), vec!["T Read"]);
    assert_eq!(parts("[tool: a][thinking]"), vec!["T a", "*"]);
    assert!(is_placeholder_preview(&markers(), "(no text content)"));
    assert!(!is_placeholder_preview(&markers(), " "));
}

fn msg(role: &str, text: &str, tokens: Option<u64>) -> ConversationMessage {
    ConversationMessage {
        role: role.to_string(),
        content_preview: text.to_string(),
        input_tokens: tokens,
        output_tokens: tokens,
        cache_read_input_tokens: Some(1000),
        cache_creation_input_tokens: None,
    }
}

#[test]
fn tail_shows_turns_and_their_cost() {
    let messages = vec![
        msg("system", "hidden", None),
        msg("user", "do it\n\n  please  ", None),
        msg("assistant", "[thinking]ok[tool: Bash(ls -l)]", Some(10)),
        msg("assistant", "done", Some(5)),
    ];
    let (lines, marked) = build_live_tail_content(&messages, &markers(), Some(2));
    assert_eq!(
        all(&lines),
        vec![
            "> do it",
            "    please",
            "",
            "  ◆ peak context-growth turn",
            "",
            "✻ thinking…",
            "",
            "● ok",
            "",
            "● Bash(ls -l)",
            "  └─ ctx 1.0k  · turn +10 in / 10 out  · Σ 10 in / 10 out",
            "",
            "● done",
            "  └─ ctx 1.0k  · turn +5 in / 5 out  · Σ 15 in / 15 out",
        ]
    );
    assert_eq!(marked, Some((2, 11)));
    let (lines, marked) = build_live_tail_content(&Vec::new(), &markers(), Some(0));
    assert_eq!(all(&lines), vec!["Waiting for messages…"]);
    assert_eq!(marked, None);
    assert_eq!(
        words(&render_turn_stats(1, 2, 3, 4_000, 5_000_000)),
        "  └─ ctx 3  · turn +1 in / 2 out  · Σ 4.0k in / 5.0M out"
    );
}

fn live(n: usize, auto_scroll: bool, scroll: u16, jump: bool) -> LiveView {
    LiveView {
        messages: (0..n).map(|i| msg("assistant", &format!("turn {}", i), None)).collect(),
        highlight_msg_idx: Some(20),
        review_mode: false,
        auto_scroll,
        scroll,
        scroll_to_highlight: jump,
    }
}

#[test]
fn tail_follows_and_jumps() {
    let at = |lv: &LiveView| render_live_tail(screen(100, 40), lv, &markers());
    let p = at(&live(40, true, 0, false));
    assert_eq!(p.title, " Live Tail · streaming ");
    let b = p.body.unwrap();
    assert_eq!(b.total_rows, 40 * 3 - 1 + 2);
    assert_eq!(b.scroll, b.total_rows - b.content_area.height);
    assert_eq!(b.indicator, format!(" {}/{} ", b.scroll + 1, b.total_rows));
    let b = at(&live(40, false, 7, false)).body.unwrap();
    assert_eq!(b.scroll, 7);
    let b = at(&live(40, false, 7, true)).body.unwrap();
    assert_eq!(b.scroll, 59 - b.content_area.height / 3);
    assert!(!b.scroll_to_highlight);
    let b = at(&live(40, false, 9999, false)).body.unwrap();
    assert_eq!(b.scroll, b.total_rows - b.content_area.height);
    let b = at(&live(0, true, 3, true)).body.unwrap();
    assert_eq!(b.scroll, 0);
    assert!(b.scroll_to_highlight);
    assert_eq!(b.hint_area.width, 35);
    assert!(render_live_tail(screen(4, 4), &live(1, true, 0, false), &markers()).body.is_none());
}

fn info() -> SessionInfo {
    SessionInfo {
        agent_id: "a".to_string(),
        vendor: "a".to_string(),
        agent_badge: "A".to_string(),
        pid: 7,
        session_id: "s".to_string(),
        cwd: "/".to_string(),
        project_name: "p".to_string(),
        started_at: 0,
        last_activity: None,
        state: SessionState::Idle,
        state_label: "idle".to_string(),
        needs_attention: false,
        last_user_message: None,
        summary: None,
        title: None,
        titling: false,
        model: None,
        git_branch: None,
        version: None,
        tmux_session: None,
        current_tool: None,
        is_thinking: false,
        context_tokens: None,
        tool_uses_count: 0,
        jsonl_path: Some("/log.jsonl".to_string()),
    }
}

fn named(state: SessionState, label: &str) -> NamedState {
    NamedState { state, label: label.to_string() }
}

fn explained() -> StateExplanation {
    StateExplanation {
        final_state: named(SessionState::Idle, "idle"),
        entry_count: 12,
        mtime_age_secs: Some(4),
        steps: vec![
            ExplainStep {
                name: "alive".to_string(),
                verdict: Verdict::Passed,
                details: vec!["pid 7".to_string()],
            },
            ExplainStep {
                name: "tail".to_string(),
                verdict: Verdict::Decided(named(SessionState::Idle, "idle")),
                details: Vec::new(),
            },
            ExplainStep { name: "rest".to_string(), verdict: Verdict::Skipped, details: Vec::new() },
        ],
        tail: vec![TailEntry {
            idx: 9,
            timestamp: None,
            kind: "assistant".to_string(),
            stop_reason: Some("end_turn".to_string()),
            blocks: vec!["text".to_string(), "tool_use".to_string()],
        }],
    }
}

#[test]
fn state_is_explained() {
    let lines = build_state_debug_content(&info(), &explained());
    assert_eq!(
        all(&lines),
        vec![
            "Final state: idle",
            "JSONL:       /log.jsonl",
            "Tail size:   12 entries (last 64 KiB)",
            "mtime age:   4s",
            "",
            "─── decision tree ───",
            "",
            "[PASS] alive",
            "  pid 7",
            "",
            "[DECIDE → idle] tail",
            "",
            "[SKIP] rest",
            "",
            "─── tail entries (most recent last) ───",
            "",
            "    9            assistant stop=end_turn [text, tool_use]",
        ]
    );
    let p = render_state_debug(screen(100, 12), &info(), &explained(), &lines, 99);
    assert_eq!(p.title, " Why · p · PID 7 · state idle ");
    let b = p.body.unwrap();
    assert_eq!(b.total_rows, 17);
    assert_eq!(b.scroll, 17 - p.inner.height);
    assert_eq!(b.indicator, format!(" {}/17 ", b.scroll + 1));
    assert!(render_state_debug(screen(2, 2), &info(), &explained(), &lines, 0).body.is_none());
    assert_eq!(render_state_debug_loading(screen(100, 12)).1, " Why this state? — loading… ");
}
