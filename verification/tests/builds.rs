use cc_hub::builds::{
    after_line, build_form_at, commit_line, duration, field_line, hints, hold_title, log_lines, render_build_form,
    render_build_log, render_builds_body, render_card, say_line, short, space_verb, tilde, time_line, Build,
    BuildForm, BuildStatus, BuildsBody, BuildsOverlay, FormField, FormLabels, Hold, LogView, Recipe, RecipeState,
};
use cc_hub::geometry::Rect;
use cc_hub::style::{Border, Color, Line, Lines};

const NOW: i64 = 1_800_000_000;

#[test]
fn durations_read_like_a_person_says_them() {
    assert_eq!(duration(42), "42s");
    assert_eq!(duration(120), "2m");
    assert_eq!(duration(200), "3m 20s");
    assert_eq!(duration(3900), "1h 5m");
}

#[test]
fn durations_at_their_edges() {
    assert_eq!(duration(-3), "-3s");
    assert_eq!(duration(0), "0s");
    assert_eq!(duration(59), "59s");
    assert_eq!(duration(60), "1m");
    assert_eq!(duration(3599), "59m 59s");
    assert_eq!(duration(3600), "1h 0m");
}

fn words(l: &Line) -> String {
    l.spans.iter().map(|s| s.text.as_str()).collect()
}

fn all(l: &Lines) -> Vec<String> {
    l.rows.iter().map(words).collect()
}

fn build(status: BuildStatus) -> Build {
    Build {
        id: "b-1".to_string(),
        status,
        status_label: "failed".to_string(),
        target: "working tree".to_string(),
        ref_name: None,
        commit: None,
        subject: None,
        route: None,
        taken: None,
        phase: None,
        error: None,
        exit_code: None,
        created_at: NOW - 90,
        finished_at: None,
        elapsed: None,
    }
}

fn state(shown: Option<Build>) -> RecipeState {
    RecipeState {
        name: "app".to_string(),
        recipe: Some(Recipe {
            resource: Some("build-box".to_string()),
            description: "Builds the app".to_string(),
        }),
        shown,
        typical: None,
        queued: 0,
        drifted: None,
        builds: Vec::new(),
        last_success: None,
        hold: None,
        holder: None,
    }
}

#[test]
fn commits_are_cut_to_eleven() {
    assert_eq!(short("0123456789abcdef"), "0123456789a");
    assert_eq!(short("0123456789a"), "0123456789a");
    assert_eq!(short("abc"), "abc");
}

#[test]
fn commit_line_says_what_is_known() {
    let mut b = build(BuildStatus::Running);
    assert_eq!(words(&commit_line(&b, Color::Green, 60)), "working tree");
    b.commit = Some("0123456789abcdef".to_string());
    b.subject = Some("Fix it".to_string());
    assert_eq!(words(&commit_line(&b, Color::Green, 60)), "0123456789a · Fix it");
    b.ref_name = Some("main".to_string());
    assert_eq!(words(&commit_line(&b, Color::Green, 60)), "main · 0123456789a · Fix it");
    assert_eq!(words(&commit_line(&b, Color::Green, 8)), "main · …");
}

#[test]
fn bar_grows_with_the_usual_time() {
    let mut b = build(BuildStatus::Running);
    for (elapsed, usual) in [(0i64, 100i64), (4, 100), (5, 100), (50, 100), (94, 100), (95, 100), (400, 100), (1, 3)] {
        b.elapsed = Some(elapsed);
        let line = time_line(&b, Some(usual), NOW);
        let filled = ((elapsed as f64 / usual as f64) * 10.0).round().clamp(0.0, 9.0) as usize;
        assert_eq!(line.spans[2].text, "▰".repeat(filled), "{}/{}", elapsed, usual);
        assert_eq!(line.spans[3].text, "▱".repeat(10 - filled));
        let over = if elapsed > usual { Color::Yellow } else { Color::Green };
        assert_eq!(line.spans[2].style.fg, Some(over));
    }
    b.elapsed = Some(200);
    assert_eq!(words(&time_line(&b, Some(300), NOW)), "auto  ▰▰▰▰▰▰▰▱▱▱  3m 20s / ~5m");
    assert_eq!(words(&time_line(&b, None, NOW)), "auto  3m 20s");
    assert_eq!(words(&time_line(&b, Some(0), NOW)), "auto  3m 20s");
}

#[test]
fn time_line_of_builds_that_do_not_run() {
    let mut b = build(BuildStatus::Queued);
    b.route = Some("fast".to_string());
    assert_eq!(words(&time_line(&b, None, NOW)), "fast  queued 1m");
    b.status = BuildStatus::Succeeded;
    assert_eq!(words(&time_line(&b, None, NOW)), "fast  ");
    b.taken = Some("slow".to_string());
    b.elapsed = Some(65);
    b.finished_at = Some(NOW - 7200);
    assert_eq!(words(&time_line(&b, None, NOW)), "slow  1m 5s · 2h ago");
}

#[test]
fn failures_say_why() {
    let mut b = build(BuildStatus::Failed);
    assert_eq!(all(&say_line(&b, 60)), vec!["failed"]);
    b.exit_code = Some(-2);
    assert_eq!(all(&say_line(&b, 60)), vec!["exited with -2"]);
    b.error = Some("no disk".to_string());
    assert_eq!(all(&say_line(&b, 60)), vec!["no disk"]);
    assert_eq!(all(&say_line(&build(BuildStatus::Running), 60)), vec!["starting"]);
    assert_eq!(all(&say_line(&build(BuildStatus::Cancelled), 60)), vec!["cancelled"]);
    assert!(all(&say_line(&build(BuildStatus::Succeeded), 60)).is_empty());
}

#[test]
fn after_line_tells_what_comes_next() {
    let mut s = state(Some(build(BuildStatus::Failed)));
    assert!(all(&after_line(&s, NOW, 60)).is_empty());
    let mut good = build(BuildStatus::Succeeded);
    good.commit = Some("aaaaaaaaaaaaaa".to_string());
    good.subject = Some("Good one".to_string());
    good.finished_at = Some(NOW - 3600);
    s.last_success = Some(good);
    assert_eq!(all(&after_line(&s, NOW, 60)), vec!["last ✓ aaaaaaaaaaa · Good one · 1h ago"]);
    s.drifted = Some("bbbbbbb".to_string());
    assert_eq!(all(&after_line(&s, NOW, 60)), vec!["now at bbbbbbb · not run from here"]);
    let mut known = build(BuildStatus::Succeeded);
    known.commit = Some("bbbbbbbccccccc".to_string());
    known.subject = Some("Known".to_string());
    s.builds.push(build(BuildStatus::Failed));
    s.builds.push(known);
    assert_eq!(all(&after_line(&s, NOW, 60)), vec!["now at bbbbbbb · Known"]);
    s.queued = 3;
    assert_eq!(all(&after_line(&s, NOW, 60)), vec!["+3 queued"]);
    let ok = state(Some(build(BuildStatus::Succeeded)));
    assert!(all(&after_line(&ok, NOW, 60)).is_empty());
}

#[test]
fn resource_is_in_the_border() {
    let mut s = state(None);
    assert_eq!(words(&hold_title(&s, "build-box", NOW)), " build-box free ");
    s.holder = Some("ann".to_string());
    assert_eq!(words(&hold_title(&s, "build-box", NOW)), " 󰌾 build-box held by ann ");
    s.hold = Some(Hold { granted: false, since: NOW, behind: None });
    assert_eq!(words(&hold_title(&s, "build-box", NOW)), " 󰔟 build-box ");
    s.hold = Some(Hold { granted: false, since: NOW, behind: Some("bob".to_string()) });
    assert_eq!(words(&hold_title(&s, "build-box", NOW)), " 󰔟 build-box · behind bob ");
    s.hold = Some(Hold { granted: true, since: NOW - 720, behind: None });
    assert_eq!(words(&hold_title(&s, "build-box", NOW)), " 󰌾 build-box · 12m ");
}

#[test]
fn card_puts_everything_in_its_place() {
    let area = Rect { x: 5, y: 7, width: 72, height: 6 };
    let card = render_card(area, &state(None), false, NOW, 0);
    assert_eq!(words(&card.title), " ○ app ");
    assert_eq!(card.border, Border::Rounded);
    assert_eq!(words(&card.hold.unwrap()), " build-box free ");
    assert_eq!(words(&card.about.unwrap()), " Builds the app ");
    assert_eq!(all(&card.lines), vec!["never run — r runs it"]);
    let block = ratatui::widgets::Block::default()
        .borders(ratatui::widgets::Borders::ALL)
        .padding(ratatui::widgets::Padding::horizontal(1));
    let inner = block.inner(ratatui::layout::Rect::new(5, 7, 72, 6));
    assert_eq!(
        (card.inner.x, card.inner.y, card.inner.width, card.inner.height),
        (inner.x, inner.y, inner.width, inner.height)
    );
    let mut s = state(Some(build(BuildStatus::Running)));
    s.recipe = None;
    let card = render_card(area, &s, false, NOW, 120);
    assert_eq!(words(&card.title), " ⠙ app ");
    assert_eq!(card.border_color, Color::Green);
    assert!(card.hold.is_none() && card.about.is_none());
    assert_eq!(render_card(area, &s, true, NOW, 0).border_color, Color::White);
    assert_eq!(render_card(area, &s, true, NOW, 0).border, Border::Double);
}

fn body(area: Rect, n: usize, sel: usize, scroll: u16) -> (u16, u16, Vec<(usize, Rect)>) {
    match render_builds_body(area, n, true, sel, scroll) {
        BuildsBody::Cards { cols, scroll, cells } => {
            (cols, scroll, cells.iter().map(|c| (c.recipe, c.area)).collect())
        }
        b => panic!("{:?}", b),
    }
}

#[test]
fn cards_fill_rows() {
    let area = Rect { x: 0, y: 2, width: 145, height: 14 };
    let (cols, scroll, cells) = body(area, 7, 0, 0);
    assert_eq!((cols, scroll), (2, 0));
    assert_eq!(cells.len(), 4);
    assert_eq!(cells[0], (0, Rect { x: 0, y: 3, width: 72, height: 6 }));
    assert_eq!(cells[1], (1, Rect { x: 72, y: 3, width: 73, height: 6 }));
    assert_eq!(cells[3], (3, Rect { x: 72, y: 9, width: 73, height: 6 }));
    let (_, scroll, cells) = body(area, 7, 6, 0);
    assert_eq!(scroll, 2);
    assert_eq!(cells.iter().map(|c| c.0).collect::<Vec<_>>(), vec![4, 5, 6]);
    let (_, scroll, _) = body(area, 7, 1, 2);
    assert_eq!(scroll, 0);
    let (cols, _, cells) = body(Rect { x: 0, y: 0, width: 40, height: 4 }, 3, 0, 0);
    assert_eq!(cols, 1);
    assert!(cells.is_empty());
}

#[test]
fn no_recipes_say_so() {
    let area = Rect { x: 0, y: 0, width: 80, height: 10 };
    let at = |loaded: bool| match render_builds_body(area, 0, loaded, 0, 0) {
        BuildsBody::Message(l) => words(&l),
        b => panic!("{:?}", b),
    };
    assert_eq!(at(false), " Reading builds …");
    assert!(at(true).starts_with(" No recipes."));
    let small = Rect { x: 0, y: 0, width: 19, height: 10 };
    assert!(matches!(render_builds_body(small, 3, true, 0, 0), BuildsBody::Nothing));
}

#[test]
fn space_and_keys() {
    assert_eq!(space_verb(None), None);
    assert_eq!(space_verb(Some(true)), Some("release ".to_string()));
    assert_eq!(space_verb(Some(false)), Some("reserve ".to_string()));
    assert!(hints(BuildsOverlay::Nothing).starts_with("r:run  n:run with…"));
    assert!(hints(BuildsOverlay::Form).starts_with("tab/↑↓:field"));
    assert!(hints(BuildsOverlay::Log).ends_with("G:follow  esc:close"));
}

fn form(field: FormField) -> BuildForm {
    BuildForm {
        recipe: "app".to_string(),
        cwd: "/home/me/src".to_string(),
        ref_name: String::new(),
        route: None,
        field,
    }
}

fn labels() -> FormLabels {
    FormLabels {
        recipe: "recipe".to_string(),
        checkout: "checkout".to_string(),
        ref_name: "ref".to_string(),
        route: "route".to_string(),
    }
}

#[test]
fn fields_show_what_can_be_done_with_them() {
    let home = Some("/home/me".to_string());
    let at = |focus: FormField, f: FormField| words(&field_line(&form(focus), &labels(), f, 60, &home));
    assert_eq!(at(FormField::Recipe, FormField::Recipe), " ▸ recipe   ‹ app ›");
    assert_eq!(at(FormField::Ref, FormField::Recipe), "   recipe   app");
    assert_eq!(at(FormField::Recipe, FormField::Checkout), "   checkout ~/src");
    assert_eq!(at(FormField::Checkout, FormField::Checkout), " ▸ checkout /home/me/src▎");
    assert_eq!(at(FormField::Recipe, FormField::Ref), "   ref      working tree");
    assert_eq!(at(FormField::Ref, FormField::Ref), " ▸ ref      ▎");
    assert_eq!(at(FormField::Route, FormField::Route), " ▸ route    ‹ auto ›");
}

#[test]
fn form_lists_its_fields() {
    let area = Rect { x: 0, y: 0, width: 100, height: 30 };
    let about = Some("Builds the app".to_string());
    let p = build_form_at(area, &form(FormField::Recipe), &labels(), &about, &None);
    assert_eq!((p.area.x, p.area.y, p.area.width, p.area.height), (14, 10, 72, 10));
    let lines = all(&p.lines);
    assert_eq!(lines.len(), 6);
    assert_eq!(lines[1], "   checkout /home/me/src");
    assert_eq!(lines[5], " Builds the app");
    let q = render_build_form(area, &form(FormField::Recipe), &labels(), &None);
    assert_eq!(all(&q.lines).len(), 5);
}

#[test]
fn tilde_wants_a_whole_directory() {
    let home = Some("/home/me".to_string());
    assert_eq!(tilde("/home/me", &home), "~");
    assert_eq!(tilde("/home/me/x", &home), "~/x");
    assert_eq!(tilde("/home/meow", &home), "/home/meow");
    assert_eq!(tilde("/x", &None), "/x");
}

#[test]
fn log_follows_or_stays() {
    let area = Rect { x: 0, y: 0, width: 20, height: 3 };
    let mut log = LogView {
        id: "b-1".to_string(),
        lines: (0..10).map(|i| format!("line {}", i)).collect(),
        back: 0,
    };
    log.lines[8] = "$ make all the things there are".to_string();
    log.lines[9] = "cc-hub: done".to_string();
    let lines = log_lines(&log, area);
    assert_eq!(all(&lines), vec!["line 7", "$ make all the thin…", "cc-hub: done"]);
    assert!(lines.rows[1].spans[0].style.bold);
    assert!(!lines.rows[2].spans[0].style.bold);
    log.back = 9;
    assert_eq!(all(&log_lines(&log, area)), vec!["line 0"]);
    log.back = 4;
    let screen = Rect { x: 0, y: 0, width: 100, height: 30 };
    let p = render_build_log(screen, &log, &Some(build(BuildStatus::Failed)));
    assert_eq!(p.title, " working tree · failed ");
    assert_eq!(p.footer, " 4 lines up · G follows ");
    log.back = 0;
    log.lines.clear();
    let p = render_build_log(screen, &log, &None);
    assert_eq!(p.title, " b-1 ");
    assert_eq!(p.footer, " following ");
    assert_eq!(all(&p.lines), vec![" nothing written yet"]);
}
