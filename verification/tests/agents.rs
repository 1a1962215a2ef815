use cc_hub::agent_detail::{
    hints, level_style, render_agent_detail, render_agent_detail_at, render_list, split_body, tilde, Detail,
    DetailPopup, DetailTimes, Section, SectionView,
};
use cc_hub::agents::{
    age, clock, clock_at, event_label, one_line, pad, pad_left, plan_columns, render_agents_body, render_row,
    truncate_line, AgentSnapshot, AgentSpec, AgentStatus, AgentsBody, LogLine, Note, PollTrigger, Run, SettingRow,
    TickRecord, Ticking,
};
use cc_hub::geometry::Rect;
use cc_hub::style::{plain, Color, Line, Lines, Style};

fn to_color(c: Color) -> ratatui::style::Color {
    match c {
        Color::Reset => ratatui::style::Color::Reset,
        Color::Black => ratatui::style::Color::Black,
        Color::Red => ratatui::style::Color::Red,
        Color::Green => ratatui::style::Color::Green,
        Color::Yellow => ratatui::style::Color::Yellow,
        Color::Blue => ratatui::style::Color::Blue,
        Color::Cyan => ratatui::style::Color::Cyan,
        Color::Gray => ratatui::style::Color::Gray,
        Color::DarkGray => ratatui::style::Color::DarkGray,
        Color::LightGreen => ratatui::style::Color::LightGreen,
        Color::LightYellow => ratatui::style::Color::LightYellow,
        Color::LightBlue => ratatui::style::Color::LightBlue,
        Color::LightMagenta => ratatui::style::Color::LightMagenta,
        Color::LightCyan => ratatui::style::Color::LightCyan,
        Color::White => ratatui::style::Color::White,
        Color::Rgb(r, g, b) => ratatui::style::Color::Rgb(r, g, b),
    }
}

fn to_style(s: Style) -> ratatui::style::Style {
    let mut out = ratatui::style::Style::default();
    if let Some(c) = s.fg {
        out = out.fg(to_color(c));
    }
    if let Some(c) = s.bg {
        out = out.bg(to_color(c));
    }
    for (on, m) in [
        (s.bold, ratatui::style::Modifier::BOLD),
        (s.italic, ratatui::style::Modifier::ITALIC),
        (s.dim, ratatui::style::Modifier::DIM),
        (s.underlined, ratatui::style::Modifier::UNDERLINED),
    ] {
        if on {
            out = out.add_modifier(m);
        }
    }
    out
}

fn to_line(l: &Line) -> ratatui::text::Line<'static> {
    let spans: Vec<ratatui::text::Span<'static>> = l
        .spans
        .iter()
        .map(|s| ratatui::text::Span::styled(s.text.clone(), to_style(s.style)))
        .collect();
    ratatui::text::Line::from(spans)
}

fn to_lines(l: &Lines) -> Vec<ratatui::text::Line<'static>> {
    l.rows.iter().map(to_line).collect()
}

fn to_rect(r: Rect) -> ratatui::layout::Rect {
    ratatui::layout::Rect::new(r.x, r.y, r.width, r.height)
}

fn screen(w: u16, h: u16) -> Rect {
    Rect { x: 0, y: 0, width: w, height: h }
}

fn draw(w: u16, h: u16, f: impl FnOnce(&mut ratatui::Frame)) -> ratatui::buffer::Buffer {
    let backend = ratatui::backend::TestBackend::new(w, h);
    let mut terminal = ratatui::Terminal::new(backend).unwrap();
    terminal.draw(f).unwrap();
    terminal.backend().buffer().clone()
}

fn buffer_to_string(buf: &ratatui::buffer::Buffer) -> String {
    let mut out = String::new();
    for y in 0..buf.area().height {
        out.push_str(&row(buf, y));
        out.push('\n');
    }
    out
}

fn row(buf: &ratatui::buffer::Buffer, y: u16) -> String {
    (0..buf.area().width).map(|x| buf[(x, y)].symbol().to_string()).collect()
}

fn boxed(title: &Line, footer: &Line) -> ratatui::widgets::Block<'static> {
    ratatui::widgets::Block::default()
        .borders(ratatui::widgets::Borders::ALL)
        .title(to_line(title))
        .title_bottom(to_line(footer))
}

const NOW: i64 = 1_800_000_000;

fn rec(ok: bool, result: &str) -> TickRecord {
    TickRecord {
        at: NOW - 300,
        event: Some("20260903T191749.728Z-poke".to_string()),
        ok,
        subtype: Some(if ok { "success" } else { "error_max_budget_usd" }.to_string()),
        turns: 4,
        compactions: 0,
        cost: "$0.07".to_string(),
        context_start: 4000,
        context_end: 13_000,
        duration_s: 12,
        result: result.to_string(),
        detail: if ok { None } else { Some("exit 1 · boom".to_string()) },
    }
}

fn setting(label: &str, value: &str) -> SettingRow {
    SettingRow {
        label: label.to_string(),
        value: value.to_string(),
        locked: None,
        help: format!("{} help", label),
        is_switch: label == "enabled",
    }
}

fn snap(name: &str, ok: bool) -> AgentSnapshot {
    let result = if ok { "NOCHANGE" } else { "ran out of budget" };
    AgentSnapshot {
        name: name.to_string(),
        assistant: "Helper".to_string(),
        dir: format!("/tmp/agents/{}", name),
        description: "Watches things".to_string(),
        status: AgentStatus::Sleeping,
        needs_attention: false,
        spec: Ok(AgentSpec {
            enabled: true,
            trigger_label: "poll 5m".to_string(),
            poll: Some(PollTrigger {
                command: Some("./watch.sh".to_string()),
                every: "5m".to_string(),
            }),
            workdir: format!("/tmp/agents/{}", name),
            settings: vec![
                setting("enabled", "on"),
                setting("model", "sonnet"),
                setting("budget / day", "$5.00"),
            ],
        }),
        stopped_reason: None,
        ticking: None,
        last_run: Some(rec(ok, result)),
        last_result: "NOCHANGE".to_string(),
        runs: vec![Run::Done { n: 3, rec: rec(ok, result) }],
        notes: vec![Note {
            at: NOW - 120,
            level: "warn".to_string(),
            text: "PR #418 lint fails".to_string(),
            link: Some("https://example.com/pr/418".to_string()),
            tick: 3,
        }],
        events: vec![LogLine {
            at: NOW - 60,
            level: "warn".to_string(),
            text: "poll `./watch.sh` failed (exit status: 1): token expired".to_string(),
        }],
        inbox_pending: 2,
        cost_today: "$0.07".to_string(),
        spent_today: true,
        ticks_today: 1,
        cost_total: "$0.31".to_string(),
    }
}

fn render_row_to_string(agent: &AgentSnapshot, w: u16) -> String {
    let cols = plan_columns(w as usize);
    let line = render_row(agent, cols, false, NOW, 0, w as usize);
    buffer_to_string(&draw(w, 1, |f| {
        f.render_widget(ratatui::widgets::Paragraph::new(to_line(&line)), f.area())
    }))
}

fn show(p: &DetailPopup, w: u16, h: u16) -> String {
    buffer_to_string(&draw(w, h, |f| {
        f.render_widget(boxed(&p.title, &Line::empty()), to_rect(p.area));
        if let Some(b) = &p.body {
            f.render_widget(ratatui::widgets::Paragraph::new(to_lines(&b.head)), to_rect(b.head_area));
            match &b.section {
                SectionView::Text(l) => {
                    f.render_widget(ratatui::widgets::Paragraph::new(to_lines(l)), to_rect(b.area))
                }
                SectionView::List { area, list, pane } => {
                    f.render_widget(
                        ratatui::widgets::Paragraph::new(to_lines(&list.lines)),
                        to_rect(*area),
                    );
                    if let Some(p) = pane {
                        f.render_widget(
                            ratatui::widgets::Paragraph::new(to_line(&p.rule)),
                            to_rect(p.rule_area),
                        );
                        let text = ratatui::widgets::Paragraph::new(to_lines(&p.lines))
                            .wrap(ratatui::widgets::Wrap { trim: false });
                        f.render_widget(text, to_rect(p.area));
                    }
                }
            }
        }
    }))
}

fn detail(section: Section) -> Detail {
    Detail { section, run: 0, artifact: 0, log_scroll: 0, setting: 0, editing: None }
}

fn render_detail(agent: &AgentSnapshot, d: &Detail, w: u16, h: u16) -> String {
    show(&render_agent_detail(screen(w, h), agent, d, 0, NOW, 0), w, h)
}

#[test]
fn row_shows_last_run_note_trigger_and_queue() {
    let out = render_row_to_string(&snap("bb-prs", true), 120);
    assert!(out.contains("bb-prs"), "{}", out);
    assert!(out.contains("✓ 5m"), "{}", out);
    assert!(out.contains("PR #418 lint fails"), "{}", out);
    assert!(out.contains("poll 5m"), "{}", out);
    assert!(out.contains("+2"), "{}", out);
}

#[test]
fn a_failed_last_run_says_why_in_the_row() {
    let out = render_row_to_string(&snap("bb-prs", false), 120);
    assert!(out.contains("✗ 5m"), "{}", out);
    assert!(out.contains("error_max_budget_usd: ran out of budget"), "{}", out);
}

#[test]
fn halted_row_leads_with_the_reason() {
    let mut s = snap("jira", true);
    s.status = AgentStatus::Halted;
    s.needs_attention = true;
    s.stopped_reason = Some("5 consecutive failed ticks".to_string());
    let out = render_row_to_string(&s, 100);
    assert!(out.contains("5 consecutive failed ticks"), "{}", out);
}

#[test]
fn broken_spec_is_visible_not_hidden() {
    let mut s = snap("broken", true);
    s.status = AgentStatus::Broken;
    s.spec = Err("agent.toml: expected `=`".to_string());
    let out = render_row_to_string(&s, 100);
    assert!(out.contains("agent.toml: expected"), "{}", out);
}

#[test]
fn narrow_rows_drop_columns_and_do_not_panic() {
    let wide = plan_columns(120);
    assert!(wide.trigger && wide.cost);
    let narrow = plan_columns(50);
    assert!(!narrow.trigger && !narrow.cost);
    for w in [12, 40, 60] {
        let _ = render_row_to_string(&snap("x", true), w);
    }
}

#[test]
fn detail_leads_with_the_failure_and_its_reason() {
    let out = render_detail(&snap("bb-prs", false), &detail(Section::Runs), 120, 36);
    assert!(out.contains("Last run failed 5m ago"), "{}", out);
    assert!(out.contains("ran out of budget"), "{}", out);
    assert!(out.contains("Runs 1"), "{}", out);
    assert!(out.contains("5m ago   poke"), "{}", out);
    assert!(out.contains("event 20260903T191749.728Z-poke"), "{}", out);
}

#[test]
fn detail_says_off_and_how_to_turn_it_on() {
    let mut agent = snap("bb-prs", true);
    agent.status = AgentStatus::Disabled;
    let out = render_detail(&agent, &detail(Section::Runs), 120, 36);
    assert!(out.contains("Off — space turns it on"), "{}", out);
}

#[test]
fn every_section_renders_at_any_size() {
    let mut agent = snap("x", false);
    agent.status = AgentStatus::Ticking;
    agent.ticking = Some(Ticking { since: NOW - 30, event: Some("poll-abc".to_string()) });
    agent.runs.insert(
        0,
        Run::InFlight {
            n: 4,
            ticking: Ticking { since: NOW - 30, event: Some("poll-abc".to_string()) },
        },
    );
    for section in [Section::Runs, Section::Artifacts, Section::Log, Section::Settings] {
        for (w, h) in [(120, 40), (60, 16), (24, 6), (10, 3)] {
            let d = Detail { section, run: 5, artifact: 5, log_scroll: 5, setting: 99, editing: None };
            let _ = render_detail(&agent, &d, w, h);
        }
    }
}

#[test]
fn settings_show_values_and_the_edit_box() {
    let d = Detail {
        section: Section::Settings,
        run: 0,
        artifact: 0,
        log_scroll: 0,
        setting: 1,
        editing: Some("opus".to_string()),
    };
    let out = render_detail(&snap("bb-prs", true), &d, 120, 40);
    assert!(out.contains("enabled"), "{}", out);
    assert!(out.contains("opus▏"), "{}", out);
    assert!(out.contains("enter saves"), "{}", out);
    assert!(out.contains("budget / day"), "{}", out);
    assert!(out.contains("$5.00"), "{}", out);
    assert!(out.contains("poll `./watch.sh` every 5m"), "{}", out);
    assert!(out.contains("$0.07 today (1 runs) · $0.31 in total"), "{}", out);
}

#[test]
fn log_and_artifacts_show_their_lines() {
    let out = render_detail(&snap("a", true), &detail(Section::Log), 120, 36);
    assert!(out.contains("token expired"), "{}", out);
    let out = render_detail(&snap("a", true), &detail(Section::Artifacts), 120, 36);
    assert!(out.contains("https://example.com/pr/418"), "{}", out);
}

#[test]
fn event_labels_are_readable() {
    let label = |s: &str| event_label(&Some(s.to_string()));
    assert_eq!(label("20260903T191749.728Z-poke"), "poke");
    assert_eq!(label("poll-1f2e3d"), "poll");
    assert_eq!(label("tick-4"), "timer");
    assert_eq!(label("once"), "once");
    assert_eq!(event_label(&None), "manual");
}

#[test]
fn ages_are_compact() {
    assert_eq!(age(NOW, NOW - 5), "5s");
    assert_eq!(age(NOW, NOW - 600), "10m");
    assert_eq!(age(NOW, NOW - 7200), "2h");
    assert_eq!(age(NOW, NOW - 200_000), "2d");
    assert_eq!(age(NOW, NOW + 50), "0s");
}

#[test]
fn only_stamped_ids_lose_their_stamp() {
    let label = |s: &str| event_label(&Some(s.to_string()));
    assert_eq!(label("2026090xT191749.728Z-poke"), "2026090xT191749.728Z-poke");
    assert_eq!(label("20260903T1Z-poke"), "20260903T1Z-poke");
    assert_eq!(label("20260903T191749.728Z-"), "20260903T191749.728Z-");
    assert_eq!(label("20260903T191749.728Z-a Z-b"), "a Z-b");
    assert_eq!(label("éééééééé"), "éééééééé");
}

#[test]
fn whitespace_becomes_single_blanks() {
    assert_eq!(one_line("  a\n\tb \u{3000} c "), "a b c");
    assert_eq!(one_line(""), "");
}

#[test]
fn cells_are_as_wide_as_their_columns() {
    assert_eq!(pad("ab", 4), "ab  ");
    assert_eq!(pad("abcdef", 4), "abc…");
    assert_eq!(pad("a\nb", 3), "a  ");
    assert_eq!(pad_left("ab", 4), "  ab");
    assert_eq!(pad_left("abcdef", 4), "abcdef");
}

fn spans(l: &Line) -> Vec<String> {
    l.spans.iter().map(|s| s.text.clone()).collect()
}

#[test]
fn lines_are_cut_inside_a_span() {
    let line = || {
        let mut l = Line::of("abc", plain());
        l.put("defg", plain());
        l.put("h", plain());
        l
    };
    assert_eq!(spans(&truncate_line(line(), 8)), vec!["abc", "defg", "h"]);
    assert_eq!(spans(&truncate_line(line(), 7)), vec!["abc", "defg"]);
    assert_eq!(spans(&truncate_line(line(), 6)), vec!["abc", "de…"]);
    assert_eq!(spans(&truncate_line(line(), 4)), vec!["abc"]);
    assert_eq!(spans(&truncate_line(line(), 2)), vec!["a…"]);
    assert!(spans(&truncate_line(line(), 0)).is_empty());
}

#[test]
fn columns_go_one_after_the_other() {
    assert!(!plan_columns(66).trigger);
    assert!(plan_columns(66).cost);
    assert!(plan_columns(67).trigger && !plan_columns(67).cost);
    assert!(plan_columns(75).trigger && !plan_columns(75).cost);
    assert!(plan_columns(76).trigger && plan_columns(76).cost);
}

#[test]
fn clock_shows_the_date_of_another_day() {
    let at = 1_700_000_000;
    assert_eq!(clock_at(at, at, 0, 0), "22:13");
    assert_eq!(clock_at(at, at + 6_399, 0, 0), "22:13");
    assert_eq!(clock_at(at, at + 6_400, 0, 0), "Nov 14 22:13");
    assert_eq!(clock_at(at, at + 6_400, 7_200, 7_200), "00:13");
    assert_eq!(clock_at(at, at, 0, 7_200), "Nov 14 22:13");
    assert_eq!(clock_at(at, i64::MAX, 0, 0), "Nov 14 22:13");
    assert_eq!(clock_at(-1, 0, 0, 0), "Dec 31 23:59");
    assert_eq!(clock_at(-1, -86_400, 0, 0), "23:59");
    assert_eq!(clock_at(-1, -86_401, 0, 0), "Dec 31 23:59");
    assert_eq!(clock_at(i64::MAX, at, 0, 0), "");
}

#[test]
fn clock_reads_the_local_time() {
    let here = clock(NOW, NOW);
    assert_eq!(here.len(), 5);
    assert_eq!(&here[2..3], ":");
    let then = clock(NOW - 10 * 86_400, NOW);
    assert_eq!(then.len(), 12);
    assert!(then.ends_with(&here), "{} {}", then, here);
    assert_eq!(clock(i64::MAX, NOW), "");
    assert_eq!(clock(-8_334_601_228_801, NOW), "");
    assert_ne!(clock(-8_334_601_228_800 + 86_400, NOW), "");
}

#[test]
fn home_is_written_as_a_tilde() {
    let home = Some("/home/me".to_string());
    assert_eq!(tilde("/home/me/agents/x", &home), "~/agents/x");
    assert_eq!(tilde("/home/me", &home), "~/");
    assert_eq!(tilde("/home/meow", &home), "/home/meow");
    assert_eq!(tilde("/tmp", &home), "/tmp");
    assert_eq!(tilde("/tmp", &None), "/tmp");
}

#[test]
fn pane_keeps_its_share() {
    let body = |h: u16| Rect { x: 2, y: 3, width: 50, height: h };
    let (list, pane) = split_body(body(30), 100);
    assert_eq!((list.height, pane.height), (20, 10));
    assert_eq!((list.y, pane.y), (3, 23));
    let (list, pane) = split_body(body(30), 4);
    assert_eq!((list.height, pane.height), (4, 26));
    let (list, pane) = split_body(body(9), 100);
    assert_eq!((list.height, pane.height), (4, 5));
    let (list, pane) = split_body(body(3), 100);
    assert_eq!((list.height, pane.height), (1, 2));
    let (list, pane) = split_body(body(0), 100);
    assert_eq!((list.height, pane.height), (0, 0));
}

#[test]
fn list_follows_its_cursor() {
    let area = |h: u16| Rect { x: 0, y: 0, width: 20, height: h };
    let mut rows = Lines::none();
    let none = render_list(area(3), &rows, 4, 9);
    assert_eq!((none.cursor, none.scroll, none.lines.rows.len()), (0, 0, 0));
    let flat = render_list(area(0), &rows, 4, 9);
    assert_eq!((flat.cursor, flat.scroll, flat.lines.rows.len()), (0, 9, 0));
    for i in 0..5 {
        rows.put(Line::of(&format!("row {}", i), plain()));
    }
    let end = render_list(area(3), &rows, 9, 0);
    assert_eq!((end.cursor, end.scroll, end.lines.rows.len()), (4, 2, 3));
    let top = render_list(area(3), &rows, 1, 4);
    assert_eq!((top.cursor, top.scroll), (1, 1));
}

fn times(a: &AgentSnapshot) -> DetailTimes {
    DetailTimes {
        run: "07:55".to_string(),
        note: "07:58".to_string(),
        events: a.events.iter().map(|_| "07:59".to_string()).collect(),
        home: Some("/tmp".to_string()),
    }
}

#[test]
fn popup_is_exact_for_known_times() {
    let a = snap("bb-prs", false);
    let at = |s: Section| {
        show(&render_agent_detail_at(screen(120, 36), &a, &detail(s), 0, NOW, 0, &times(&a)), 120, 36)
    };
    let runs = at(Section::Runs);
    assert!(
        runs.contains("#3 error_max_budget_usd · 07:55 · 12s · 4 turns · $0.07 · context 4.0k → 13.0k"),
        "{}",
        runs
    );
    assert!(runs.contains("stderr: exit 1 · boom"), "{}", runs);
    assert!(at(Section::Artifacts).contains("run #3 · 07:58"));
    assert!(at(Section::Log).contains("07:59         poll `./watch.sh` failed"));
    let settings = at(Section::Settings);
    assert!(settings.contains("~/agents/bb-prs"), "{}", settings);
    assert!(settings.contains("enabled help"), "{}", settings);
}

#[test]
fn empty_sections_say_so() {
    let mut a = snap("x", true);
    a.runs.clear();
    a.notes.clear();
    a.events.clear();
    a.last_run = None;
    let at = |s: Section| render_detail(&a, &detail(s), 140, 36);
    assert!(at(Section::Runs).contains(" No runs yet. p queues one now."));
    assert!(at(Section::Runs).contains("No runs yet — p runs it now"));
    assert!(at(Section::Artifacts).contains("Nothing reported yet."));
    assert!(at(Section::Log).contains("Nothing logged yet."));
    a.status = AgentStatus::Broken;
    a.spec = Err("bad".to_string());
    let broken = render_detail(&a, &detail(Section::Settings), 140, 36);
    assert!(broken.contains("agent.toml doesn't load — n opens Helper in its folder to fix it"));
    assert!(broken.contains("Settings need a spec that loads. n opens Helper in the agent's folder to fix it."));
}

#[test]
fn keys_follow_the_section() {
    assert_eq!(
        hints(&None, "helper"),
        "f/enter:open  space:on/off  p:run now  n:helper here  j/k:nav  tab:next  q:quit"
    );
    assert_eq!(
        hints(&Some(detail(Section::Log)), "helper"),
        "j/k:scroll  h/l:section  space:on/off  p:run now  n:helper here  esc:close"
    );
    let mut d = detail(Section::Settings);
    d.editing = Some("x".to_string());
    assert_eq!(hints(&Some(d), "helper"), "type a value  enter:save  esc:cancel");
}

#[test]
fn levels_have_colors() {
    assert_eq!(level_style("error").fg, Some(Color::Red));
    assert_eq!(level_style("warn").fg, Some(Color::Yellow));
    assert_eq!(level_style("info").fg, level_style("").fg);
}

#[test]
fn selected_agent_stays_on_screen() {
    let agents: Vec<AgentSnapshot> = (0..30).map(|i| snap(&format!("agent-{}", i), true)).collect();
    let area = screen(80, 10);
    let at = |sel: usize, scroll: u16| match render_agents_body(area, &agents, true, &None, sel, scroll, NOW, 0) {
        AgentsBody::Rows { scroll, rows } => (scroll, rows),
        b => panic!("{:?}", b),
    };
    assert_eq!(at(0, 0).0, 0);
    assert_eq!(at(12, 0).0, 3);
    assert_eq!(at(5, 20).0, 5);
    assert_eq!(at(25, 20).0, 20);
    let rows = at(12, 0).1;
    assert_eq!(rows.len(), 10);
    assert_eq!(rows.rows[9].spans[0].text, "▌");
    assert_eq!(rows.rows[8].spans[0].text, " ");
    assert_eq!(at(29, 25).1.len(), 5);
}

#[test]
fn no_agents_say_where_they_live() {
    let none: Vec<AgentSnapshot> = Vec::new();
    let at = |loaded: bool, root: Option<String>| {
        match render_agents_body(screen(80, 10), &none, loaded, &root, 0, 0, NOW, 0) {
            AgentsBody::Message(l) => l.spans[0].text.clone(),
            b => panic!("{:?}", b),
        }
    };
    assert_eq!(at(false, None), " Reading agents …");
    assert!(at(true, None).ends_with("specs live in ~/.cc-hub/agents"));
    assert!(at(true, Some("/x".to_string())).ends_with("specs live in /x"));
    assert!(matches!(
        render_agents_body(screen(9, 10), &none, true, &None, 0, 0, NOW, 0),
        AgentsBody::Nothing
    ));
}
