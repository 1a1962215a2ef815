use cc_hub::tasks::TaskStatus;
use cc_hub::triage::{
    braced_part, build_prompt, choose_task, decide, decision_of, parse_response, scan_can_ask, tick, BacklogTask, Decision,
    JsonField, ParsedDecision, StartedTask, TickOutcome, TriageAction, TriageConfig, TriageEvent, TriageProject,
    TriageState,
};

fn promotes(p: Option<ParsedDecision>, id: &str) -> bool {
    match p {
        Some(ParsedDecision::Promote(s)) => s == id,
        _ => false,
    }
}

#[test]
fn parse_response_picks_id() {
    assert!(promotes(parse_response("{\"start_task_id\":\"abc123\"}"), "abc123"));
}

#[test]
fn parse_response_handles_null() {
    assert!(matches!(
        parse_response("{\"start_task_id\":null}"),
        Some(ParsedDecision::Hold)
    ));
}

#[test]
fn parse_response_tolerates_prose() {
    assert!(promotes(
        parse_response("Here you go:\n{\"start_task_id\":\"t-42\"}\n"),
        "t-42"
    ));
}

#[test]
fn parse_response_rejects_garbage() {
    assert!(parse_response("").is_none());
    assert!(parse_response("no json here").is_none());
    assert!(parse_response("{not json}").is_none());
    assert!(parse_response("{\"other\":1}").is_none());
    assert!(parse_response("{\"start_task_id\":\"\"}").is_none());
}

#[test]
fn only_null_and_texts_decide() {
    assert!(parse_response("{\"start_task_id\": 7}").is_none());
    assert!(parse_response("{\"start_task_id\": [\"a\"]}").is_none());
    assert!(parse_response("}{").is_none());
    assert!(promotes(parse_response("x {\"a\": {\"b\": 1}, \"start_task_id\": \"ü\"} y"), "ü"));
    assert!(decision_of(Some(JsonField::Other)).is_none());
    assert!(decision_of(None).is_none());
    assert!(matches!(decision_of(Some(JsonField::Null)), Some(ParsedDecision::Hold)));
    assert!(promotes(decision_of(Some(JsonField::Text("a".to_string()))), "a"));
}

#[test]
fn braces_are_the_outermost() {
    assert_eq!(braced_part("a {b} c {d} e"), Some("{b} c {d}".to_string()));
    assert_eq!(braced_part("{}"), Some("{}".to_string()));
    assert_eq!(braced_part("}a{"), None);
    assert_eq!(braced_part("{"), None);
}

fn task(id: &str, status: TaskStatus, triaged_at: Option<i64>) -> BacklogTask {
    BacklogTask {
        task_id: id.to_string(),
        title: None,
        prompt: format!("do {}", id),
        status,
        triaged_at,
    }
}

fn project(id: &str, tasks: Vec<BacklogTask>) -> TriageProject {
    TriageProject {
        id: id.to_string(),
        name: format!("{} name", id),
        root: format!("/r/{}", id),
        tasks,
    }
}

const NOW: i64 = 1_000_000;
const CFG: TriageConfig = TriageConfig { enabled: true, ttl_secs: 600 };

fn scan(cfg: &TriageConfig) -> (TriageState, TriageAction) {
    let projects = vec![
        project("quiet", vec![task("q1", TaskStatus::Running, None)]),
        project("busy", vec![
            task("t1", TaskStatus::Backlog, None),
            task("t2", TaskStatus::Backlog, Some(NOW - 599)),
            task("t3", TaskStatus::Backlog, Some(NOW - 600)),
            task("t4", TaskStatus::Done, None),
        ]),
        project("later", vec![task("l1", TaskStatus::Backlog, None)]),
    ];
    tick(cfg, TriageState::Idle, TriageEvent::Scanned { projects, now: NOW })
}

fn answer(text: Option<&str>) -> (TriageState, TriageAction) {
    let (state, _) = scan(&CFG);
    tick(&CFG, state, TriageEvent::Answered(text.map(|s| s.to_string())))
}

fn is_quiet(o: &TickOutcome) -> bool {
    o.promotion.is_none() && o.status.is_none()
}

#[test]
fn first_project_with_eligible_tasks_is_asked_about() {
    let (state, action) = scan(&CFG);
    match state {
        TriageState::Asking { project_id, project_name, task_ids, now } => {
            assert_eq!(project_id, "busy");
            assert_eq!(project_name, "busy name");
            assert_eq!(task_ids, vec!["t1", "t3"]);
            assert_eq!(now, NOW);
        }
        _ => panic!("{:?}", state),
    }
    match action {
        TriageAction::Ask { prompt } => {
            assert!(prompt.starts_with("You are the backlog triage agent for cc-hub. Below is the current backlog for a project. Decide which ONE task should be started next, considering:\n- dependencies"));
            assert!(prompt.ends_with("Project: busy name\nRoot: /r/busy\n\nBacklog:\n- id=t1\n  title: (untitled)\n  prompt: do t1\n- id=t3\n  title: (untitled)\n  prompt: do t3\n"));
            assert!(prompt.contains("no fences:\n{\"start_task_id\": \"<id>\"}   — to promote that task\n{\"start_task_id\": null}       — to hold the entire backlog this round\n\n"));
        }
        _ => panic!("{:?}", action),
    }
}

#[test]
fn a_stamped_task_rests_for_as_long_as_is_set() {
    let asked = |ttl_secs: u64, at: i64, now: i64| {
        let projects = vec![project("p", vec![task("t", TaskStatus::Backlog, Some(at))])];
        let (_, action) = tick(&TriageConfig { enabled: true, ttl_secs }, TriageState::Idle, TriageEvent::Scanned { projects, now });
        matches!(action, TriageAction::Ask { .. })
    };
    assert!(!asked(600, NOW - 599, NOW));
    assert!(asked(600, NOW - 600, NOW));
    assert!(!asked(u64::MAX, 0, NOW));
    assert!(!asked(i64::MAX as u64 + 1, 0, i64::MAX));
    assert!(asked(i64::MAX as u64, 0, i64::MAX));
    assert!(asked(600, i64::MIN, i64::MAX));
}

#[test]
fn only_prompts_that_are_shown_have_to_be_cut() {
    let long = |id: &str, at: Option<i64>| BacklogTask { prompt: format!("{}é", "x".repeat(799)), ..task(id, TaskStatus::Backlog, at) };
    let able = |tasks: Vec<BacklogTask>| scan_can_ask(&CFG, &vec![project("p", tasks), project("q", vec![long("q1", None)])], NOW);
    assert!(able(vec![task("t", TaskStatus::Backlog, None)]));
    assert!(!able(vec![long("t", None)]));
    assert!(able(vec![task("t", TaskStatus::Backlog, None), long("rests", Some(NOW))]));
    assert!(!able(vec![]));
    let mut many: Vec<BacklogTask> = (0..50).map(|i| task(&format!("t{}", i), TaskStatus::Backlog, None)).collect();
    many.push(long("last", None));
    assert!(able(many));
    assert!(scan_can_ask(&TriageConfig { enabled: false, ttl_secs: 600 }, &vec![project("p", vec![long("t", None)])], NOW));
}

#[test]
fn switched_off_or_empty_ends_quietly() {
    let (state, action) = scan(&TriageConfig { enabled: false, ttl_secs: 600 });
    assert!(matches!(state, TriageState::Done));
    match action {
        TriageAction::Finish { left, outcome } => assert!(left.is_none() && is_quiet(&outcome)),
        _ => panic!("{:?}", action),
    }
    let none = TriageEvent::Scanned { projects: vec![project("p", vec![])], now: NOW };
    match tick(&CFG, TriageState::Idle, none).1 {
        TriageAction::Finish { left, outcome } => assert!(left.is_none() && is_quiet(&outcome)),
        a => panic!("{:?}", a),
    }
}

#[test]
fn chosen_task_is_started_and_the_others_are_stamped() {
    let (state, action) = answer(Some("{\"start_task_id\": \"t3\"}"));
    assert!(matches!(&state, TriageState::Starting { task_id } if task_id == "t3"));
    match action {
        TriageAction::Start { stamps, task_id } => {
            assert_eq!(task_id, "t3");
            assert_eq!(stamps.project_id, "busy");
            assert_eq!(stamps.task_ids, vec!["t1"]);
            assert_eq!(stamps.at, NOW);
        }
        _ => panic!("{:?}", action),
    }
}

#[test]
fn hold_and_failure_stamp_everything() {
    match answer(Some("{\"start_task_id\": null}")).1 {
        TriageAction::Finish { left: Some(stamps), outcome } => {
            assert_eq!(stamps.task_ids, vec!["t1", "t3"]);
            assert_eq!(outcome.status, Some("triage: held 2 backlog task(s) in busy name".to_string()));
            assert!(outcome.promotion.is_none());
        }
        a => panic!("{:?}", a),
    }
    for bad in [None, Some("?"), Some("{\"start_task_id\": \"t2\"}"), Some("{\"start_task_id\": \"l1\"}")] {
        match answer(bad).1 {
            TriageAction::Finish { left: Some(stamps), outcome } => {
                assert_eq!(stamps.task_ids, vec!["t1", "t3"]);
                assert!(is_quiet(&outcome));
            }
            a => panic!("{:?}", a),
        }
    }
}

#[test]
fn start_is_reported() {
    let starting = || TriageState::Starting { task_id: "t3".to_string() };
    let started = StartedTask {
        task_id: "t3".to_string(),
        tmux: "cc-t3".to_string(),
        orchestrator_prompt: Some("go".to_string()),
    };
    match tick(&CFG, starting(), TriageEvent::Started(Ok(started))).1 {
        TriageAction::Finish { left, outcome } => {
            assert!(left.is_none());
            assert_eq!(
                outcome.status,
                Some("triage: promoted [t3], orchestrator [cc-t3] starting…".to_string())
            );
            let p = outcome.promotion.unwrap();
            assert_eq!(p.tmux, "cc-t3");
            assert_eq!(p.orchestrator_prompt, Some("go".to_string()));
        }
        a => panic!("{:?}", a),
    }
    match tick(&CFG, starting(), TriageEvent::Started(Err("no tmux".to_string()))).1 {
        TriageAction::Finish { left, outcome } => {
            assert!(left.is_none() && outcome.promotion.is_none());
            assert_eq!(outcome.status, Some("triage: failed to promote t3: no tmux".to_string()));
        }
        a => panic!("{:?}", a),
    }
    assert!(is_quiet(&TickOutcome::default()));
}

#[test]
fn decisions_name_known_tasks_only() {
    let ids = vec!["a".to_string(), "b".to_string()];
    assert!(matches!(decide(&None, &ids), Decision::Failed));
    assert!(matches!(
        choose_task(Some(ParsedDecision::Promote("c".to_string())), &ids),
        Decision::Failed
    ));
    assert!(matches!(
        choose_task(Some(ParsedDecision::Promote("b".to_string())), &ids),
        Decision::Promote(id) if id == "b"
    ));
    assert!(matches!(choose_task(Some(ParsedDecision::Hold), &ids), Decision::Hold));
    assert!(matches!(choose_task(None, &ids), Decision::Failed));
}

#[test]
fn prompts_are_cut_and_long_backlogs_too() {
    let mut tasks: Vec<BacklogTask> =
        (0..53).map(|i| task(&format!("t{}", i), TaskStatus::Backlog, None)).collect();
    tasks[0].prompt = format!("{}tail", "x".repeat(799) + "y");
    tasks[0].title = Some("Long".to_string());
    tasks[1].prompt = "é".repeat(400);
    let p = project("p", tasks);
    let which: Vec<usize> = (0..53).collect();
    let text = build_prompt(&p, &which);
    assert!(text.contains(&format!("- id=t0\n  title: Long\n  prompt: {}y…\n- id=t1", "x".repeat(799))));
    assert!(text.contains(&format!("prompt: {}\n- id=t2", "é".repeat(400))));
    assert!(text.contains("id=t49") && !text.contains("id=t50"));
    assert!(text.ends_with("(+3 more not shown)\n"));
}
