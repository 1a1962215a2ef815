use cc_hub::backlog::{backlog_body, backlog_list, render_backlog, BacklogContent, BacklogPopup};
use cc_hub::geometry::Rect;
use cc_hub::style::{plain, Color, Line, Lines, Style};
use cc_hub::tasks::{Task, TaskStatus};

fn to_color(c: Color) -> ratatui::style::Color {
    match c {
        Color::Reset => ratatui::style::Color::Reset,
        Color::Black => ratatui::style::Color::Black,
        Color::Red => ratatui::style::Color::Red,
        Color::Green => ratatui::style::Color::Green,
        Color::Yellow => ratatui::style::Color::Yellow,
        Color::Blue => ratatui::style::Color::Blue,
        Color::Cyan => ratatui::style::Color::Cyan,
        Color::Gray => ratatui::style::Color::Gray,
        Color::DarkGray => ratatui::style::Color::DarkGray,
        Color::LightGreen => ratatui::style::Color::LightGreen,
        Color::LightYellow => ratatui::style::Color::LightYellow,
        Color::LightBlue => ratatui::style::Color::LightBlue,
        Color::LightMagenta => ratatui::style::Color::LightMagenta,
        Color::LightCyan => ratatui::style::Color::LightCyan,
        Color::White => ratatui::style::Color::White,
        Color::Rgb(r, g, b) => ratatui::style::Color::Rgb(r, g, b),
    }
}

fn to_style(s: Style) -> ratatui::style::Style {
    let mut out = ratatui::style::Style::default();
    if let Some(c) = s.fg {
        out = out.fg(to_color(c));
    }
    if let Some(c) = s.bg {
        out = out.bg(to_color(c));
    }
    for (on, m) in [
        (s.bold, ratatui::style::Modifier::BOLD),
        (s.italic, ratatui::style::Modifier::ITALIC),
        (s.dim, ratatui::style::Modifier::DIM),
        (s.underlined, ratatui::style::Modifier::UNDERLINED),
    ] {
        if on {
            out = out.add_modifier(m);
        }
    }
    out
}

fn to_line(l: &Line) -> ratatui::text::Line<'static> {
    let spans: Vec<ratatui::text::Span<'static>> = l
        .spans
        .iter()
        .map(|s| ratatui::text::Span::styled(s.text.clone(), to_style(s.style)))
        .collect();
    ratatui::text::Line::from(spans)
}

fn to_lines(l: &Lines) -> Vec<ratatui::text::Line<'static>> {
    l.rows.iter().map(to_line).collect()
}

fn to_rect(r: Rect) -> ratatui::layout::Rect {
    ratatui::layout::Rect::new(r.x, r.y, r.width, r.height)
}

fn screen(w: u16, h: u16) -> Rect {
    Rect { x: 0, y: 0, width: w, height: h }
}

fn draw(w: u16, h: u16, f: impl FnOnce(&mut ratatui::Frame)) -> ratatui::buffer::Buffer {
    let backend = ratatui::backend::TestBackend::new(w, h);
    let mut terminal = ratatui::Terminal::new(backend).unwrap();
    terminal.draw(f).unwrap();
    terminal.backend().buffer().clone()
}

fn buffer_to_string(buf: &ratatui::buffer::Buffer) -> String {
    let mut out = String::new();
    for y in 0..buf.area().height {
        out.push_str(&row(buf, y));
        out.push('\n');
    }
    out
}

fn row(buf: &ratatui::buffer::Buffer, y: u16) -> String {
    (0..buf.area().width).map(|x| buf[(x, y)].symbol().to_string()).collect()
}

fn boxed(title: &Line, footer: &Line) -> ratatui::widgets::Block<'static> {
    ratatui::widgets::Block::default()
        .borders(ratatui::widgets::Borders::ALL)
        .title(to_line(title))
        .title_bottom(to_line(footer))
}

fn task(prompt: &str, title: Option<&str>, age: &str) -> Task {
    Task {
        task_id: "t-000001".to_string(),
        short_id: "000001".to_string(),
        status: TaskStatus::Backlog,
        status_label: "backlog".to_string(),
        title: title.map(|s| s.to_string()),
        prompt: prompt.to_string(),
        note: None,
        summary: None,
        shipped_version: None,
        orchestrator_tmux: None,
        workers: Vec::new(),
        merges: Vec::new(),
        artifacts: Vec::new(),
        lead_artifact: None,
        todos: Vec::new(),
        age: age.to_string(),
        made_age: age.to_string(),
    }
}

fn show(p: &BacklogPopup, w: u16, h: u16) -> String {
    buffer_to_string(&draw(w, h, |f| {
        let title = Line::of(&p.title, plain());
        let footer = Line::of(&p.footer, plain());
        f.render_widget(boxed(&title, &footer), to_rect(p.area));
        match &p.content {
            BacklogContent::Empty(l) => {
                f.render_widget(ratatui::widgets::Paragraph::new(to_lines(l)), to_rect(p.inner))
            }
            BacklogContent::Panes(panes) => {
                let list = ratatui::widgets::Paragraph::new(to_lines(&panes.list));
                f.render_widget(list, to_rect(panes.list_area));
                if let Some(inner) = panes.body_inner {
                    let body = ratatui::widgets::Paragraph::new(to_lines(&panes.body))
                        .wrap(ratatui::widgets::Wrap { trim: false });
                    f.render_widget(body, to_rect(inner));
                }
            }
        }
    }))
}

fn render_popup(prompts: &[&str], titles: &[Option<&str>]) -> String {
    let tasks: Vec<Task> = prompts.iter().zip(titles).map(|(p, t)| task(p, *t, "0s")).collect();
    show(&render_backlog(screen(100, 22), &Some("backlog".to_string()), &tasks, 0), 100, 22)
}

fn untitled() {
    let prompts = [
        "wire up exporter for daily reports",
        "refactor the merge-lock retry policy",
        "investigate flaky CI on macOS runners",
    ];
    let titles: [Option<&str>; 3] = [None, None, None];
    let plain = render_popup(&prompts, &titles);
    for (i, p) in prompts.iter().enumerate() {
        let count = plain.matches(p).count();
        let expected = if i == 0 { 1 } else { 0 };
        assert_eq!(count, expected, "prompt {:?}:\n{}", p, plain);
    }
    assert_eq!(plain.matches("pending title").count(), prompts.len(), "{}", plain);
}

fn titled() {
    let plain = render_popup(&["ship the new exporter"], &[Some("Exporter rollout")]);
    assert!(plain.contains("Exporter rollout"), "title should render on row 1:\n{}", plain);
    assert!(plain.contains("ship the new exporter"), "prompt preview should still render on row 2:\n{}", plain);
    assert!(!plain.contains("pending title"), "{}", plain);
}

fn ages() {
    let tokens = ["45s", "12m", "3h", "2d"];
    let tasks: Vec<Task> = tokens
        .iter()
        .enumerate()
        .map(|(i, a)| task(&format!("prompt number {}", i), None, a))
        .collect();
    let popup = render_backlog(screen(90, 22), &Some("demo".to_string()), &tasks, 0);
    let rendered = show(&popup, 90, 22);
    for token in tokens {
        let padded = format!("{:>4}", token);
        assert!(rendered.contains(&padded), "expected right-justified age {:?}:\n{}", padded, rendered);
    }
}

#[test]
fn backlog_untitled_entries_do_not_duplicate_prompt_preview() {
    untitled();
}

#[test]
fn ui_untitled_entries_do_not_duplicate_prompt_preview() {
    untitled();
}

#[test]
fn backlog_titled_entries_keep_title_then_id_prompt_layout() {
    titled();
}

#[test]
fn ui_titled_entries_keep_title_then_id_prompt_layout() {
    titled();
}

#[test]
fn backlog_backlog_entries_show_right_justified_age_column() {
    ages();
}

#[test]
fn ui_backlog_entries_show_right_justified_age_column() {
    ages();
}

#[test]
fn nothing_queued_says_how_to_queue() {
    let p = render_backlog(screen(100, 22), &None, &Vec::new(), 0);
    assert_eq!(p.title, " Backlog · no project ");
    let out = show(&p, 100, 22);
    assert!(out.contains("No backlog tasks for this project."), "{}", out);
    assert!(out.contains("cc-hub task create --backlog"), "{}", out);
}

#[test]
fn list_scrolls_to_the_selection() {
    let tasks: Vec<Task> = (0..10).map(|i| task("p", Some(&format!("title {}", i)), "1h")).collect();
    let list = backlog_list(&tasks, 7, 40, 9);
    assert_eq!(list.len(), 9);
    let title = |k: usize| list.rows[k].spans[1].text.clone();
    assert_eq!((title(0), title(3), title(6)), ("title 5".to_string(), "title 6".to_string(), "title 7".to_string()));
    assert_eq!(list.rows[6].spans[0].text, "▌ ");
    assert_eq!(list.rows[0].spans[0].text, "  ");
}

#[test]
fn body_shows_the_whole_prompt() {
    let body = backlog_body(&task("one\n\nthree", Some("T"), "1h"));
    let rows: Vec<String> = body
        .rows
        .iter()
        .map(|l| l.spans.iter().map(|s| s.text.as_str()).collect())
        .collect();
    assert_eq!(rows, vec!["T", "000001", "", "one", "", "three"]);
}
