use cc_hub::artifacts::{
    artifact_preview_total_lines, basename_of, card_body_height, classify_artifact, evidence_card_header,
    image_message, image_step, lead_card_body_height, read_text_excerpt, render_diff_card_body,
    render_fallback_card_body, render_image_placeholder, render_text_card_body, render_url_card_body,
    render_video_card_body, truncated_footer, Artifact, CardKind, ImageState, ImageStep,
};
use cc_hub::diff::{build_diff_lines, diff_row, is_diff_meta_line, parse_hunk_header, DiffRowKind};
use cc_hub::geometry::Rect;
use cc_hub::result_popup::{render_projects_result, result_can_fit, status_color, ResultPopup};
use cc_hub::style::{plain, Color, Line, Lines, Style};
use cc_hub::tasks::{Task, TaskStatus};

fn to_color(c: Color) -> ratatui::style::Color {
    match c {
        Color::Reset => ratatui::style::Color::Reset,
        Color::Black => ratatui::style::Color::Black,
        Color::Red => ratatui::style::Color::Red,
        Color::Green => ratatui::style::Color::Green,
        Color::Yellow => ratatui::style::Color::Yellow,
        Color::Blue => ratatui::style::Color::Blue,
        Color::Cyan => ratatui::style::Color::Cyan,
        Color::Gray => ratatui::style::Color::Gray,
        Color::DarkGray => ratatui::style::Color::DarkGray,
        Color::LightGreen => ratatui::style::Color::LightGreen,
        Color::LightYellow => ratatui::style::Color::LightYellow,
        Color::LightBlue => ratatui::style::Color::LightBlue,
        Color::LightMagenta => ratatui::style::Color::LightMagenta,
        Color::LightCyan => ratatui::style::Color::LightCyan,
        Color::White => ratatui::style::Color::White,
        Color::Rgb(r, g, b) => ratatui::style::Color::Rgb(r, g, b),
    }
}

fn to_style(s: Style) -> ratatui::style::Style {
    let mut out = ratatui::style::Style::default();
    if let Some(c) = s.fg {
        out = out.fg(to_color(c));
    }
    if let Some(c) = s.bg {
        out = out.bg(to_color(c));
    }
    for (on, m) in [
        (s.bold, ratatui::style::Modifier::BOLD),
        (s.italic, ratatui::style::Modifier::ITALIC),
        (s.dim, ratatui::style::Modifier::DIM),
        (s.underlined, ratatui::style::Modifier::UNDERLINED),
    ] {
        if on {
            out = out.add_modifier(m);
        }
    }
    out
}

fn to_line(l: &Line) -> ratatui::text::Line<'static> {
    let spans: Vec<ratatui::text::Span<'static>> = l
        .spans
        .iter()
        .map(|s| ratatui::text::Span::styled(s.text.clone(), to_style(s.style)))
        .collect();
    ratatui::text::Line::from(spans)
}

fn to_lines(l: &Lines) -> Vec<ratatui::text::Line<'static>> {
    l.rows.iter().map(to_line).collect()
}

fn to_rect(r: Rect) -> ratatui::layout::Rect {
    ratatui::layout::Rect::new(r.x, r.y, r.width, r.height)
}

fn screen(w: u16, h: u16) -> Rect {
    Rect { x: 0, y: 0, width: w, height: h }
}

fn draw(w: u16, h: u16, f: impl FnOnce(&mut ratatui::Frame)) -> ratatui::buffer::Buffer {
    let backend = ratatui::backend::TestBackend::new(w, h);
    let mut terminal = ratatui::Terminal::new(backend).unwrap();
    terminal.draw(f).unwrap();
    terminal.backend().buffer().clone()
}

fn buffer_to_string(buf: &ratatui::buffer::Buffer) -> String {
    let mut out = String::new();
    for y in 0..buf.area().height {
        out.push_str(&row(buf, y));
        out.push('\n');
    }
    out
}

fn row(buf: &ratatui::buffer::Buffer, y: u16) -> String {
    (0..buf.area().width).map(|x| buf[(x, y)].symbol().to_string()).collect()
}

fn boxed(title: &Line, footer: &Line) -> ratatui::widgets::Block<'static> {
    ratatui::widgets::Block::default()
        .borders(ratatui::widgets::Borders::ALL)
        .title(to_line(title))
        .title_bottom(to_line(footer))
}

fn words(l: &Line) -> String {
    l.spans.iter().map(|s| s.text.as_str()).collect()
}

fn all(l: &Lines) -> Vec<String> {
    l.rows.iter().map(words).collect()
}

fn artifact(kind: &str, path: &str, caption: Option<&str>) -> Artifact {
    Artifact { kind: kind.to_string(), path: path.to_string(), caption: caption.map(|s| s.to_string()) }
}

fn task(prompt: &str, artifacts: Vec<Artifact>) -> Task {
    Task {
        task_id: "t-000001".to_string(),
        short_id: "000001".to_string(),
        status: TaskStatus::Done,
        status_label: "done".to_string(),
        title: None,
        prompt: prompt.to_string(),
        note: None,
        summary: None,
        shipped_version: None,
        orchestrator_tmux: None,
        workers: Vec::new(),
        merges: Vec::new(),
        artifacts,
        lead_artifact: None,
        todos: Vec::new(),
        age: "0s".to_string(),
        made_age: "0s".to_string(),
    }
}

/// Draws the popup with `files[i]` as the content of artifact `i`, and no
/// way to show images.
fn show(t: &Task, files: &[&str], p: &ResultPopup, w: u16, h: u16) -> ratatui::buffer::Buffer {
    draw(w, h, |f| {
        f.render_widget(boxed(&Line::of(&p.title, plain()), &Line::empty()), to_rect(p.area));
        let b = match &p.body {
            Some(b) => b,
            None => return,
        };
        let canvas = ratatui::widgets::Paragraph::new(to_lines(&b.canvas)).scroll((b.canvas_scroll, 0));
        f.render_widget(canvas, to_rect(b.body_area));
        for c in &b.cards {
            let a = &t.artifacts[c.artifact];
            let body = match c.kind {
                CardKind::Text | CardKind::Diff => {
                    let bytes = files[c.artifact].as_bytes().to_vec();
                    let excerpt = read_text_excerpt(&bytes, c.max_bytes);
                    if c.kind == CardKind::Text {
                        render_text_card_body(&excerpt, &a.path, true, c.rect.height, c.scroll_lines)
                    } else {
                        render_diff_card_body(
                            &excerpt, &a.path, true, c.rect.width, c.rect.height, c.scroll_lines,
                        )
                    }
                }
                CardKind::Video => render_video_card_body(a),
                CardKind::Url => render_url_card_body(a),
                CardKind::Fallback => render_fallback_card_body(a),
                CardKind::Image => {
                    let step = image_step(ImageState {
                        fully_visible: c.fully_visible,
                        has_picker: false,
                        cached: false,
                        failed: false,
                    });
                    render_image_placeholder(&image_message(step).unwrap())
                }
            };
            f.render_widget(ratatui::widgets::Paragraph::new(to_lines(&body)), to_rect(c.rect));
        }
        f.render_widget(ratatui::widgets::Paragraph::new(b.hint.clone()), to_rect(b.footer_area));
    })
}

fn row_of(buf: &ratatui::buffer::Buffer, needle: &str) -> Option<u16> {
    (0..buf.area().height).find(|y| row(buf, *y).contains(needle))
}

#[test]
fn result_popup_expanded_text_artifact_scrolls_with_popup_scroll() {
    let body = (1..=80).map(|n| format!("line {:02}", n)).collect::<Vec<_>>().join("\n");
    let mut t = task("scroll prompt", vec![artifact("file", "/tmp/tour.md", Some("long doc"))]);
    t.note = Some("headline".to_string());
    t.lead_artifact = Some(0);
    let some = Some(t);
    let t = some.as_ref().unwrap();
    let excerpt = read_text_excerpt(&body.as_bytes().to_vec(), 64 * 1024);
    let at = |scroll: u16| {
        let p = render_projects_result(screen(100, 28), &some, 0, true, scroll, &excerpt);
        let scroll = p.body.as_ref().unwrap().scroll;
        (scroll, buffer_to_string(&show(t, &[&body], &p, 100, 28)))
    };
    let (scroll, first) = at(0);
    assert!(first.contains("line 01"), "top of doc should be visible\n{}", first);
    let (scroll, second) = at(scroll + 30);
    assert!(
        second.contains("line 29") || second.contains("line 30"),
        "expanded overscroll should advance the excerpt ~1:1 with the popup scroll\n{}",
        second
    );
    assert!(
        !second.contains("line 01"),
        "once scrolled down, the preview should not stay pinned to the first line\n{}",
        second
    );
    let (_, third) = at(scroll + 1000);
    assert!(
        third.contains("line 80"),
        "max overscroll should reveal the final line of the excerpt\n{}",
        third
    );
}

#[test]
fn result_popup_evidence_inlines_log_url_and_image_fallback() {
    let log = "compiling cc-hub-lib\nfinished release in 12.3s\n";
    let mut t = task(
        "test prompt body",
        vec![
            artifact("build", "/tmp/build.log", Some("cargo build --release")),
            artifact("url", "https://example.com/ci/build/42", Some("CI build")),
            artifact("screenshot", "/nonexistent/missing-screenshot.png", Some("preview")),
        ],
    );
    t.note = Some("PROOF-LINE: build is green".to_string());
    t.summary = Some("WHY this works: build green; popup shows evidence cards.".to_string());
    t.lead_artifact = Some(0);
    let some = Some(t);
    let p = render_projects_result(screen(120, 60), &some, 0, false, 0, &None);
    let buf = show(some.as_ref().unwrap(), &[log, "", ""], &p, 120, 60);
    let dump = buffer_to_string(&buf);
    assert!(dump.contains("Result"), "should render Result title");
    assert!(dump.contains("PROOF-LINE: build is green"), "note headline should appear above evidence\n{}", dump);
    assert!(dump.contains("WHY this works"), "summary text should be inlined as appendix\n{}", dump);
    assert!(dump.contains("cargo build"), "log card should inline file caption\n{}", dump);
    assert!(dump.contains("compiling cc-hub-lib"), "log card body should inline file content\n{}", dump);
    assert!(dump.contains("lead"), "lead artifact card header should carry a `lead` tag\n{}", dump);
    assert!(dump.contains("press"), "url/video card should hint at `o`\n{}", dump);
    assert!(dump.contains("https://example.com/ci/build/42"), "url card should show URL\n{}", dump);
    assert!(
        dump.contains("[image preview unavailable") || dump.contains("[image hidden"),
        "image fallback placeholder should appear\n{}",
        dump
    );
    let y_note = row_of(&buf, "PROOF-LINE").expect("note row");
    let y_lead_body = row_of(&buf, "compiling cc-hub-lib").expect("lead body row");
    let y_url = row_of(&buf, "https://example.com").expect("url body row");
    let y_summary = row_of(&buf, "WHY this works").expect("summary appendix row");
    assert!(
        y_note < y_lead_body && y_lead_body < y_url && y_url < y_summary,
        "expected order note({}) < lead({}) < url({}) < summary({})\n{}",
        y_note, y_lead_body, y_url, y_summary, dump
    );
}

const PATCH: &str = "\
diff --git a/lib/src/ui.rs b/lib/src/ui.rs
index 0000001..0000002 100644
--- a/lib/src/ui.rs
+++ b/lib/src/ui.rs
@@ -42,3 +42,5 @@ fn render_status() {
     let mut spans = Vec::new();
-    spans.push(span_dim(&state.title));
+    spans.push(span_bold(&state.title));
+    if let Some(badge) = &state.badge {
+        spans.push(span_subtle(badge));
+    }
     Line::from(spans)
@@ -101,3 +103,3 @@ fn render_bar() {
     let bar = renderer.bar();
-    bar.draw(area);
+    bar.draw_with_offset(area, offset);
     Ok(())
";

fn buffer_bg_map(buf: &ratatui::buffer::Buffer) -> String {
    let mut out = String::new();
    for y in 0..buf.area().height {
        for x in 0..buf.area().width {
            out.push(match buf[(x, y)].bg {
                ratatui::style::Color::Rgb(34, 92, 43) => '+',
                ratatui::style::Color::Rgb(122, 41, 54) => '-',
                ratatui::style::Color::Reset => '.',
                _ => '?',
            });
        }
        out.push('\n');
    }
    out
}

#[test]
fn result_popup_diff_artifact_renders_with_claude_style_backgrounds() {
    let mut t = task(
        "diff prompt",
        vec![artifact("diff", "/tmp/sample.patch", Some("ui.rs: structured diff"))],
    );
    t.summary = Some("WHY: diff renderer matches house style.".to_string());
    let some = Some(t);
    let p = render_projects_result(screen(120, 40), &some, 0, false, 0, &None);
    let buf = show(some.as_ref().unwrap(), &[PATCH], &p, 120, 40);
    let plain = buffer_to_string(&buf);
    let bg_map = buffer_bg_map(&buf);
    assert!(plain.contains("Result"), "should render Result title\n{}", plain);
    assert!(plain.contains("lib/src/ui.rs"), "diff per-file header path should be visible\n{}", plain);
    assert!(
        plain.contains("Added") && plain.contains("removed"),
        "diff header counts line should be visible\n{}",
        plain
    );
    assert!(!plain.contains("@@ -"), "raw @@ hunk header should be suppressed\n{}", plain);
    assert!(bg_map.contains('+'), "added rows should paint the diffAdded bg across cells\n{}", bg_map);
    assert!(bg_map.contains('-'), "removed rows should paint the diffRemoved bg across cells\n{}", bg_map);
    assert!(bg_map.contains("..."), "hunk separator marker should render in dim gray\n{}", bg_map);
}

#[test]
fn popup_without_a_task_says_so() {
    let p = render_projects_result(screen(100, 30), &None, 0, false, 0, &None);
    assert_eq!(p.title, " Result — no task selected ");
    assert!(p.body.is_none());
    assert_eq!(p.area, Rect { x: 7, y: 2, width: 85, height: 25 });
}

#[test]
fn popup_without_artifacts_says_so() {
    let mut t = task("first\nsecond", Vec::new());
    t.title = Some("Name".to_string());
    t.shipped_version = Some("1.2".to_string());
    let p = render_projects_result(screen(100, 30), &Some(t), 3, true, 50, &None);
    assert_eq!(p.title, " Result · 000001 · Name ");
    let b = p.body.unwrap();
    assert_eq!(b.scroll, 0);
    let rows = all(&b.canvas);
    assert!(rows[0].starts_with("[done]  0s  ") && rows[0].ends_with("v1.2  (0 artifacts)"), "{}", rows[0]);
    assert_eq!(rows[1..].to_vec(), vec!["", "first", "", "  (no artifacts attached)"]);
    assert!(b.hint.starts_with(" artifact —   esc/r:close"));
}

#[test]
fn selected_card_comes_into_view() {
    let many: Vec<Artifact> = (0..12).map(|i| artifact("log", &format!("/l/{}.log", i), None)).collect();
    let mut t = task("p", many);
    t.lead_artifact = Some(5);
    let some = Some(t);
    let at = |sel: usize, scroll: u16| {
        render_projects_result(screen(100, 30), &some, sel, false, scroll, &None).body.unwrap()
    };
    let b = at(0, 0);
    assert_eq!(b.cards[0].artifact, 5);
    assert_eq!(b.cards[1].artifact, 0);
    let b = at(11, 0);
    let last = b.cards.last().unwrap();
    assert_eq!(last.artifact, 11);
    assert!(last.fully_visible);
    assert_eq!(at(5, b.scroll).scroll, 4);
    assert_eq!(at(40, 0).hint, at(11, 0).hint);
    assert!(at(11, 0).hint.starts_with(" artifact 12/12 "));
}

#[test]
fn only_rows_that_cannot_be_counted_are_too_many() {
    let fits = |n: usize, sel: usize, expanded: bool, scroll: u16| {
        let many: Vec<Artifact> = (0..n).map(|i| artifact("url", &format!("http://l/{}", i), None)).collect();
        let t = Some(task("p", many));
        let can = result_can_fit(screen(100, 30), t.as_ref().unwrap(), sel, expanded, scroll);
        if can {
            let b = render_projects_result(screen(100, 30), &t, sel, expanded, scroll, &None).body.unwrap();
            assert!(b.scroll >= scroll.min(b.canvas_scroll));
        }
        can
    };
    let high = usize::from(card_body_height(CardKind::Url)) + 2;
    let below = |n: usize| 4 + (n - 1) * high;
    let most = (0xfffe - 4) / high + 1;
    assert!(below(most) < 0xffff && below(most + 1) >= 0xffff);
    assert!(fits(most, 0, false, 0));
    assert!(!fits(most + 1, 0, false, 0));
    assert_eq!(fits(most, most - 1, false, 0), below(most) + high <= 0xffff);
    assert!(fits(most, most - 1, false, 0xffff));
    assert!(fits(0, 0, false, 0));
}

#[test]
fn status_colours() {
    assert_eq!(status_color(TaskStatus::Running), Color::LightYellow);
    assert_eq!(status_color(TaskStatus::Review), Color::LightCyan);
    assert_eq!(status_color(TaskStatus::Merging), Color::LightMagenta);
    assert_eq!(status_color(TaskStatus::Done), Color::LightGreen);
}

#[test]
fn artifacts_are_classified() {
    let kind = |k: &str, p: &str| classify_artifact(&artifact(k, p, None));
    assert_eq!(kind("x", "http://a/b.png"), CardKind::Url);
    assert_eq!(kind("URL", "/a"), CardKind::Url);
    assert_eq!(kind("Screenshot", "/a.log"), CardKind::Image);
    assert_eq!(kind("video", "/a"), CardKind::Video);
    assert_eq!(kind("patch", "/a"), CardKind::Diff);
    assert_eq!(kind("Output", "/a"), CardKind::Text);
    assert_eq!(kind("file", "/a.JPEG"), CardKind::Image);
    assert_eq!(kind("file", "/a.b/c.webm"), CardKind::Video);
    assert_eq!(kind("file", "/a.diff"), CardKind::Diff);
    assert_eq!(kind("file", "/a.yml"), CardKind::Text);
    assert_eq!(kind("file", "/.png"), CardKind::Fallback);
    assert_eq!(kind("file", "/a.png/"), CardKind::Image);
    assert_eq!(kind("file", "/a.rs"), CardKind::Fallback);
    assert_eq!(kind("file", ""), CardKind::Fallback);
}

#[test]
fn names_of_paths() {
    assert_eq!(basename_of("/a/b.txt"), "b.txt");
    assert_eq!(basename_of("/a/b/"), "b");
    assert_eq!(basename_of("/a/.."), "/a/..");
    assert_eq!(basename_of("/"), "/");
    let head = evidence_card_header(&artifact("log", "/a/b.txt", Some("why")), true, true);
    assert_eq!(words(&head), "▌ log · b.txt · lead · why");
    let head = evidence_card_header(&artifact("log", "/a/b.txt", Some("")), false, false);
    assert_eq!(words(&head), "  log · b.txt");
}

#[test]
fn excerpts_of_files() {
    let read = |b: &[u8], max: usize| read_text_excerpt(&b.to_vec(), max);
    assert_eq!(read(b"", 10), Some((vec![], 1)));
    let ab = vec!["a".to_string(), "b".to_string()];
    assert_eq!(read(b"a\r\nb\n", 10), Some((ab.clone(), 1)));
    assert_eq!(read(b"a\nb\nc\nd", 3), Some((ab, 2)));
    assert_eq!(read(b"\x00\x01\x02abc", 10), None);
    let mut bytes = vec![b'x'; 40];
    bytes[0] = 0;
    bytes[1] = 7;
    assert!(read(&bytes, 10).is_some());
    bytes[2] = 1;
    assert!(read(&bytes, 10).is_none());
    let lossy = read(b"caf\xc3\xa9 \xff!", 20).unwrap().0;
    assert_eq!(lossy, vec!["café \u{fffd}!".to_string()]);
    assert_eq!(read("é".as_bytes(), 1).unwrap().0, vec!["\u{fffd}".to_string()]);
}

fn numbered(n: usize) -> Option<(Vec<String>, usize)> {
    Some(((0..n).map(|i| format!("l{}", i)).collect(), 0))
}

#[test]
fn text_cards_are_windows() {
    let show = |n: usize, h: u16, s: usize| all(&render_text_card_body(&numbered(n), "/p", true, h, s));
    assert_eq!(show(3, 5, 0), vec!["  l0", "  l1", "  l2"]);
    assert_eq!(show(5, 3, 0), vec!["  l0", "  l1", "  … (truncated, 2 more lines)"]);
    assert_eq!(show(5, 3, 1), vec!["  l1", "  l2", "  … (truncated, 1 more line)"]);
    assert_eq!(show(5, 3, 2), vec!["  l2", "  l3", "  l4"]);
    assert!(show(5, 3, 99).is_empty());
    assert!(show(5, 0, 0).is_empty());
    let gone = render_text_card_body(&None, "/p", false, 3, 0);
    assert_eq!(all(&gone), vec!["  (cannot read /p)"]);
    let binary = render_text_card_body(&None, "/p", true, 3, 0);
    assert_eq!(all(&binary), vec!["  (binary file — open externally with `o`)"]);
    assert_eq!(words(&truncated_footer(1)), "  … (truncated, 1 more line)");
}

#[test]
fn previews_are_counted() {
    assert_eq!(artifact_preview_total_lines(&numbered(7), CardKind::Text, 80), Some(7));
    assert_eq!(artifact_preview_total_lines(&numbered(7), CardKind::Video, 80), None);
    assert_eq!(artifact_preview_total_lines(&None, CardKind::Text, 80), None);
    let patch: Vec<String> = PATCH.lines().map(|s| s.to_string()).collect();
    let rows = build_diff_lines(&patch, 80).len();
    assert_eq!(artifact_preview_total_lines(&Some((patch, 0)), CardKind::Diff, 3), Some(rows));
}

#[test]
fn card_heights() {
    let kinds =
        [CardKind::Image, CardKind::Video, CardKind::Text, CardKind::Diff, CardKind::Url, CardKind::Fallback];
    for k in kinds {
        assert!(lead_card_body_height(k) >= card_body_height(k));
        assert!(card_body_height(k) > 0);
    }
}

#[test]
fn images_are_decoded_once() {
    let at = |fully_visible: bool, has_picker: bool, cached: bool, failed: bool| {
        image_step(ImageState { fully_visible, has_picker, cached, failed })
    };
    assert!(at(false, true, true, false) == ImageStep::Hidden);
    assert!(at(true, false, true, false) == ImageStep::Unsupported);
    assert!(at(true, true, true, true) == ImageStep::Draw);
    assert!(at(true, true, false, true) == ImageStep::Undecodable);
    assert!(at(true, true, false, false) == ImageStep::Decode);
    assert_eq!(image_message(ImageStep::Hidden).unwrap(), "[image hidden — scroll to view]");
    assert!(image_message(ImageStep::Draw).is_none());
}

#[test]
fn hunk_headers() {
    assert_eq!(parse_hunk_header("@@ -42,3 +43,5 @@ fn f()"), Some((42, 43)));
    assert_eq!(parse_hunk_header("@@ -1 +2 @@"), Some((1, 2)));
    assert_eq!(parse_hunk_header("@@ -1,2 @@"), None);
    assert_eq!(parse_hunk_header("@@ -x +2 @@"), None);
    assert_eq!(parse_hunk_header("-- -1 +2"), Some((1, 2)));
    assert_eq!(parse_hunk_header("@@ -+5 ++6 @@"), Some((5, 6)));
    assert_eq!(parse_hunk_header("@@ - + @@"), None);
    assert_eq!(parse_hunk_header(""), None);
    assert_eq!(parse_hunk_header("@@ -4294967296 +2 @@"), None);
    assert!(is_diff_meta_line("index 1..2"));
    assert!(!is_diff_meta_line("+x"));
}

#[test]
fn diff_rows_are_numbered() {
    let patch: Vec<String> = PATCH.lines().map(|s| s.to_string()).collect();
    let rows = all(&build_diff_lines(&patch, 60));
    assert_eq!(rows.len(), 14);
    assert!(rows[0].contains("lib/src/ui.rs"));
    assert!(rows.iter().any(|r| r.contains("42") && r.contains("let mut spans")));
    assert!(rows.iter().any(|r| r.contains("103") && r.contains("let bar")));
    let added = diff_row(30, None, Some(7), "x", DiffRowKind::Added);
    assert_eq!(words(&added).chars().count(), 30);
    assert_eq!(DiffRowKind::Added.marker(), "+");
    assert_eq!(DiffRowKind::Added.palette().0, Some(Color::Rgb(34, 92, 43)));
    assert_eq!(DiffRowKind::Removed.palette().0, Some(Color::Rgb(122, 41, 54)));
    assert_eq!(DiffRowKind::Context.palette().0, None);
}
