use cloudex::app::{
    both, env_modal_options, find_label, App, ApplyModalState, ApplyStage, Effect, EnvModalState,
    EnvModalTarget, NewTaskState,
};
use cloudex::app_event::{AppEvent, TaskDetailsPayload};
use cloudex::app_key::{Key, KeyCode};
use cloudex::details::{
    number_messages, task_attempts, AttemptInfo, DetailTab, DetailsState,
};
use cloudex::env_api::Environment;
use cloudex::model::{
    ApplyOutcome, ApplyStatus, AttemptStatus, DiffSummary, TaskStatus, TaskSummary, TaskText,
    TurnAttempt,
};
use cloudex::pr::PrCreateResult;
use cloudex::screen::{
    apply_footer, apply_head, apply_text, apply_title, can_truncate, details_footer,
    details_header, details_page, footer_line, header_line, new_task_head, option_row,
    popup_margin, preview_text, submitting_title, task_row, truncate, HELP,
};
use cloudex::scroll::{ScrollViewState, ScrollableText};
use cloudex::time::Timestamp;
use cloudex::wrap::{wrap_line, wrap_lines, Wrapping};

const SECOND: u128 = 1_000_000_000;

fn at(secs: i64) -> Timestamp {
    Timestamp::new(secs, 0).unwrap()
}

fn texts(v: &[&str]) -> Vec<String> {
    v.iter().map(|s| s.to_string()).collect()
}

fn task(id: &str, updated: i64) -> TaskSummary {
    TaskSummary {
        id: id.to_string(),
        title: format!("Title {id}"),
        status: TaskStatus::Ready,
        updated_at: at(updated),
        environment_id: None,
        environment_label: Some("prod".to_string()),
        summary: DiffSummary { files_changed: 1, lines_added: 2, lines_removed: 3 },
        is_review: false,
        attempt_total: None,
    }
}

fn env(id: &str, label: Option<&str>, pinned: bool) -> Environment {
    Environment {
        id: id.to_string(),
        label: label.map(str::to_string),
        is_pinned: Some(pinned),
        task_count: None,
    }
}

fn app() -> App {
    App::new("http://h".to_string(), 20, 5, 3, "/w".to_string(), 0)
}

fn key(code: KeyCode) -> Key {
    Key { code, control: false, alt: false }
}

fn ch(c: char) -> Key {
    key(KeyCode::Char(c))
}

fn ctrl(c: char) -> Key {
    Key { code: KeyCode::Char(c), control: true, alt: false }
}

fn attempt(placement: Option<i64>, diff: Option<&str>) -> AttemptInfo {
    AttemptInfo {
        placement,
        turn_id: None,
        status: AttemptStatus::Completed,
        prompt: Some("p1\np2".to_string()),
        messages: texts(&["m"]),
        diff: diff.map(str::to_string),
    }
}

fn load(a: &mut App, tasks: Vec<TaskSummary>) {
    let generation = a.list_generation;
    let effects = a.on_app_event(
        AppEvent::TasksLoaded { generation, env: None, result: Ok(tasks) },
        0,
        at(0),
    );
    assert!(effects.is_empty());
}

fn opened(diff: Option<&str>) -> App {
    let mut a = app();
    load(&mut a, vec![task("t1", 10)]);
    let r = a.handle_key(key(KeyCode::Enter), 7);
    assert!(matches!(&r.effects[..], [Effect::LoadDetails { task_id }] if task_id == "t1"));
    a.on_app_event(
        AppEvent::DetailsLoaded {
            task_id: "t1".to_string(),
            result: Ok(TaskDetailsPayload {
                summary: task("t1", 11),
                attempts: vec![attempt(Some(1), diff), attempt(Some(2), None)],
            }),
        },
        9,
        at(0),
    );
    a
}

fn outcome(status: ApplyStatus) -> ApplyOutcome {
    ApplyOutcome {
        applied: false,
        status,
        message: "msg".to_string(),
        skipped_paths: texts(&["s"]),
        conflict_paths: Vec::new(),
    }
}

#[test]
fn texts_are_wrapped() {
    assert_eq!(wrap_line("hello world", 7), vec!["hello", "world"]);
    assert_eq!(wrap_line("abcdefghij", 4), vec!["abcd", "efgh", "ij"]);
    assert_eq!(wrap_line("", 4), vec![""]);
    assert_eq!(wrap_line("a\tb", 10), vec!["a    b"]);
    assert_eq!(wrap_line("ab\ncd", 10), vec!["ab", "cd"]);
    assert_eq!(wrap_line("ab\n", 10), vec!["ab"]);
    assert_eq!(wrap_line("日本語", 4), vec!["日本", "語"]);
    assert_eq!(wrap_line("a\u{7}b", 2), vec!["a\u{7}", "b"]);
    let raw = texts(&["one, two-three", "", "four five"]);
    assert_eq!(wrap_lines(&raw, 0), raw);
    for width in 1..20 {
        let wrapped = wrap_lines(&raw, width);
        let visible = |v: &Vec<String>| {
            v.join("").chars().filter(|c| !c.is_whitespace()).collect::<String>()
        };
        assert_eq!(visible(&wrapped), visible(&raw));
    }
}

#[test]
fn wrapping_goes_character_by_character() {
    let mut w = Wrapping::new();
    for c in "ab".chars() {
        w.put(c, 1, 3);
        w.cols += 1;
    }
    w.put(' ', 1, 3);
    w.cols = 3;
    assert_eq!(w.soft, Some(2));
    w.put('c', 1, 3);
    assert_eq!(w.out, vec!["ab"]);
    assert_eq!(w.line, vec!['c']);
    assert_eq!(w.soft, None);
    w.end_line();
    assert_eq!(w.out, vec!["ab", "c"]);
    let mut w = Wrapping::new();
    w.put('x', 9, 3);
    assert!(w.out.is_empty());
    assert_eq!(w.line, vec!['x']);
}

#[test]
fn views_scroll() {
    let mut s = ScrollableText::new();
    s.set_content(texts(&["1", "2", "3", "4", "5"]));
    s.set_width(10);
    s.set_viewport(2);
    assert_eq!(s.wrapped_lines().len(), 5);
    assert_eq!(s.max_scroll(), 3);
    s.scroll_by(2);
    assert_eq!(s.visible_text(), "3\n4");
    s.scroll_by(9);
    assert_eq!(s.state.scroll, 3);
    s.scroll_by(-1);
    assert_eq!(s.state.scroll, 2);
    s.page_up();
    assert_eq!(s.state.scroll, 1);
    s.page_down();
    assert_eq!(s.state.scroll, 2);
    s.to_bottom();
    assert_eq!(s.visible_text(), "4\n5");
    s.set_viewport(4);
    assert_eq!(s.state.scroll, 1);
    s.to_top();
    assert_eq!(s.state.scroll, 0);
    s.set_content(texts(&["x"]));
    assert_eq!(s.visible_text(), "");
    assert_eq!(s.state.content_h, 0);
    let mut v = ScrollViewState { scroll: 9, viewport_h: 3, content_h: 5 };
    v.clamp();
    assert_eq!(v.scroll, 2);
    assert_eq!(v.max_scroll(), 2);
    let mut s = ScrollableText::new();
    s.set_content(vec![String::new(); 65_537]);
    s.set_width(0);
    assert_eq!(s.state.content_h, 1);
}

#[test]
fn tabs() {
    assert_eq!(DetailTab::Prompt.left(), DetailTab::Prompt);
    assert_eq!(DetailTab::Prompt.right().left(), DetailTab::Prompt);
    assert_eq!(DetailTab::Diff.right(), DetailTab::Diff);
    assert_eq!(DetailTab::Messages.title(), "Messages");
    assert_eq!(DetailTab::Diff.index(), 2);
}

#[test]
fn attempts_are_shown() {
    let mut a = attempt(None, None);
    assert_eq!(a.label(), "?");
    a.turn_id = Some("turn".to_string());
    assert_eq!(a.label(), "turn");
    a.placement = Some(2);
    assert_eq!(a.label(), "2");
    assert_eq!(a.shown_lines(DetailTab::Prompt), vec!["p1", "p2"]);
    assert_eq!(a.shown_lines(DetailTab::Messages), vec!["[0] m"]);
    assert_eq!(a.shown_lines(DetailTab::Diff), vec!["(no diff)"]);
    a.diff = Some(" \n".to_string());
    assert_eq!(a.shown_lines(DetailTab::Diff), vec!["(no diff)"]);
    a.diff = Some("x\ny".to_string());
    assert_eq!(a.shown_lines(DetailTab::Diff), vec!["x", "y"]);
    let u = AttemptInfo::unknown();
    assert_eq!(u.shown_lines(DetailTab::Prompt), vec!["(prompt unavailable)"]);
    assert_eq!(u.shown_lines(DetailTab::Messages), vec!["(no messages yet)"]);
    assert_eq!(number_messages(&texts(&["a", "b"])), vec!["[0] a", "[1] b"]);
}

#[test]
fn attempts_are_gathered() {
    let text = TaskText {
        prompt: Some("p".to_string()),
        messages: Vec::new(),
        turn_id: Some("base".to_string()),
        sibling_turn_ids: Vec::new(),
        attempt_placement: Some(2),
        attempt_status: AttemptStatus::Pending,
    };
    let sib = |turn: &str, place: Option<i64>| TurnAttempt {
        turn_id: turn.to_string(),
        attempt_placement: place,
        created_at: None,
        status: AttemptStatus::Completed,
        diff: Some(format!("d-{turn}")),
        messages: texts(&["said"]),
    };
    let all = task_attempts(
        text,
        None,
        vec![sib("z", None), sib("base", Some(2)), sib("one", Some(1)), sib("a", None)],
    );
    let labels: Vec<String> = all.iter().map(|a| a.label()).collect();
    assert_eq!(labels, vec!["1", "2", "a", "z"]);
    assert_eq!(all[1].diff.as_deref(), Some("d-base"));
    assert_eq!(all[1].messages, vec!["said"]);
    assert_eq!(all[1].status, AttemptStatus::Completed);
    assert_eq!(all[1].prompt.as_deref(), Some("p"));
    let text = TaskText {
        prompt: None,
        messages: texts(&["mine"]),
        turn_id: None,
        sibling_turn_ids: Vec::new(),
        attempt_placement: None,
        attempt_status: AttemptStatus::Unknown,
    };
    let all = task_attempts(text, Some("D".to_string()), vec![sib("x", None)]);
    assert_eq!(all.len(), 1);
    assert_eq!(all[0].diff.as_deref(), Some("D"));
}

#[test]
fn details_step_round() {
    let mut d = DetailsState::new(&task("t", 1), 3, 5);
    assert!(d.loading);
    assert_eq!(d.scroll.raw, vec!["Loading…"]);
    assert_eq!(d.attempt_display_total(), 1);
    d.refresh(
        &task("t", 2),
        vec![attempt(Some(1), None), attempt(Some(2), Some("x")), attempt(Some(3), None)],
        6,
    );
    assert_eq!(d.attempt_display_total(), 3);
    d.step_attempt(-1);
    assert_eq!(d.selected_attempt, 2);
    d.step_attempt(1);
    assert_eq!(d.selected_attempt, 0);
    d.step_attempt(-4);
    assert_eq!(d.selected_attempt, 2);
    d.step_attempt(3);
    assert_eq!(d.selected_attempt, 2);
    d.step_attempt(isize::MIN);
    let expected = (2i128 + isize::MIN as i128).rem_euclid(3) as usize;
    assert_eq!(d.selected_attempt, expected);
    d.select_attempt_idx(1);
    d.select_attempt_idx(7);
    assert_eq!(d.selected_attempt, 1);
    d.set_tab(DetailTab::Diff);
    assert_eq!(d.scroll.raw, vec!["x"]);
    assert_eq!(d.current_attempt().unwrap().label(), "2");
    d.refresh(&task("t", 3), Vec::new(), 7);
    assert!(d.current_attempt().is_none());
    assert_eq!(d.scroll.raw, vec!["(no data)"]);
    assert_eq!(d.last_refresh, 7);
}

#[test]
fn the_interface_starts() {
    let (a, effects) = App::start(
        "http://h".to_string(), 99, 0, 0, "/home", None, Some("e".to_string()), 4,
    );
    assert_eq!(a.limit, 50);
    assert_eq!(a.list_refresh_interval, 1);
    assert_eq!(a.detail_refresh_interval, 1);
    assert_eq!(a.worktree_dir, "/home/worktrees");
    assert_eq!(a.status, "Loading tasks…");
    assert!(matches!(&effects[..], [
        Effect::LoadEnvs,
        Effect::ListTasks { generation: 1, env: Some(e), limit: 50 },
    ] if e == "e"));
    let (a, _) = App::start(
        "http://h".to_string(), -3, 9, 8, "/home", Some("/w".to_string()), None, 4,
    );
    assert_eq!((a.limit, a.list_refresh_interval, a.detail_refresh_interval), (1, 9, 8));
    assert_eq!(a.worktree_dir, "/w");
}

#[test]
fn the_clock_ticks() {
    let mut a = app();
    assert_eq!(a.spinner_char(), '|');
    let (redraw, effects) = a.tick(5 * SECOND - 1);
    assert!(!redraw && effects.is_empty());
    assert_eq!(a.spinner_char(), '/');
    assert!(a.auto_refresh_due(5 * SECOND));
    let (redraw, effects) = a.tick(5 * SECOND);
    assert!(redraw);
    assert!(matches!(&effects[..], [Effect::ListTasks { generation: 1, env: None, limit: 20 }]));
    assert_eq!(a.spinner_char(), '-');
    let (redraw, effects) = a.tick(99 * SECOND);
    assert!(!redraw && effects.is_empty());
    assert_eq!(a.spinner_char(), '\\');
    a.spinner = usize::MAX;
    a.tick(0);
    assert_eq!(a.spinner, 0);
    let mut a = opened(None);
    assert!(!a.details_refresh_due(9 + 3 * SECOND - 1));
    assert!(a.details_refresh_due(9 + 3 * SECOND));
    a.list_refresh_inflight = true;
    let (redraw, effects) = a.tick(9 + 3 * SECOND);
    assert!(redraw);
    assert!(matches!(&effects[..], [Effect::LoadDetails { .. }]));
    assert!(!a.details_refresh_due(99 * SECOND));
}

#[test]
fn tasks_arrive() {
    let mut a = app();
    load(&mut a, vec![task("old", 1), task("new", 9), task("mid", 5)]);
    let ids: Vec<&str> = a.tasks.iter().map(|t| t.id.as_str()).collect();
    assert_eq!(ids, vec!["new", "mid", "old"]);
    assert_eq!(a.status, "3 task(s) loaded");
    a.handle_key(key(KeyCode::Down), 0);
    assert_eq!(a.selected_task().unwrap().id, "mid");
    load(&mut a, vec![task("mid", 20), task("x", 30), task("old", 1)]);
    assert_eq!(a.selected_task().unwrap().id, "mid");
    load(&mut a, vec![task("y", 1)]);
    assert_eq!(a.selected, 0);
    load(&mut a, Vec::new());
    assert!(a.selected_task().is_none());
    a.envs = vec![env("e", Some("Label"), false)];
    a.on_app_event(
        AppEvent::TasksLoaded {
            generation: 0, env: Some("e".to_string()), result: Ok(Vec::new()),
        },
        0,
        at(0),
    );
    assert_eq!(a.env_filter_label.as_deref(), Some("Label"));
    a.on_app_event(
        AppEvent::TasksLoaded { generation: 8, env: None, result: Ok(vec![task("late", 1)]) },
        0,
        at(0),
    );
    assert!(a.tasks.is_empty());
    a.on_app_event(
        AppEvent::TasksLoaded { generation: 0, env: None, result: Err("boom".to_string()) },
        0,
        at(0),
    );
    assert_eq!(a.status, "Refresh failed: boom");
}

#[test]
fn environments_arrive() {
    let mut a = app();
    a.env_loading = true;
    a.on_app_event(
        AppEvent::EnvsLoaded(Ok(vec![env("b", Some("B"), false), env("a", None, true)])),
        0,
        at(0),
    );
    assert!(!a.env_loading);
    assert_eq!(a.envs[0].id, "a");
    a.on_app_event(AppEvent::EnvsLoaded(Err("no".to_string())), 0, at(0));
    assert_eq!(a.env_error.as_deref(), Some("no"));
    assert_eq!(a.envs.len(), 2);
    assert_eq!(find_label(&a.envs, "b").as_deref(), Some("B"));
    assert_eq!(find_label(&a.envs, "z"), None);
}

#[test]
fn a_task_is_created() {
    let mut a = app();
    a.envs = vec![env("e1", Some("One"), false), env("e2", Some("Two"), true)];
    let r = a.handle_key(ch('n'), 0);
    assert!(matches!(&r.effects[..], [Effect::OpenNewTask]));
    a.open_new_task("dev".to_string());
    let t = a.new_task.as_ref().unwrap();
    assert_eq!(t.env_id.as_deref(), Some("e2"));
    assert_eq!(t.env_label.as_deref(), Some("Two"));
    assert!(matches!(&a.handle_key(ch('x'), 0).effects[..], [Effect::Compose]));
    a.handle_key(ctrl('q'), 0);
    assert!(a.new_task.as_ref().unwrap().qa_mode);
    a.handle_key(ctrl('N'), 0);
    assert_eq!(a.attempts_modal.unwrap().selected, 0);
    for _ in 0..9 {
        a.handle_key(ch('j'), 0);
    }
    assert_eq!(a.attempts_modal.unwrap().selected, 3);
    a.handle_key(key(KeyCode::Up), 0);
    a.handle_key(key(KeyCode::Enter), 0);
    assert_eq!(a.new_task.as_ref().unwrap().attempts, 3);
    a.handle_key(ctrl('n'), 0);
    a.handle_key(ch('4'), 0);
    assert_eq!(a.new_task.as_ref().unwrap().attempts, 4);
    assert!(a.attempts_modal.is_none());
    assert!(a.submit_prompt(" \n").is_empty());
    assert_eq!(a.status, "Prompt is empty");
    let effects = a.submit_prompt(" go ");
    assert!(matches!(&effects[..], [
        Effect::CreateTask { env_id, prompt, git_ref, qa_mode: true, attempts: 4 },
    ] if env_id == "e2" && prompt == "go" && git_ref == "dev"));
    assert!(a.new_task.as_ref().unwrap().submitting);
    assert!(a.handle_key(ch('x'), 0).effects.is_empty());
    let mut failed = app();
    failed.open_new_task("dev".to_string());
    assert!(failed.submit_prompt("go").is_empty());
    assert_eq!(failed.status, "No environment selected");
    failed.on_app_event(AppEvent::NewTaskCreated(Err("no".to_string())), 0, at(0));
    assert_eq!(failed.status, "Task create failed: no");
    assert!(failed.new_task.is_some());
    let effects =
        a.on_app_event(AppEvent::NewTaskCreated(Ok("t9".to_string())), 3, at(77));
    assert!(matches!(&effects[..], [
        Effect::ListTasks { .. }, Effect::LoadDetails { task_id },
    ] if task_id == "t9"));
    assert_eq!(a.status, "Created task t9");
    assert!(a.new_task.is_none());
    let d = a.details.as_ref().unwrap();
    assert_eq!(d.title, "(loading…)");
    assert_eq!(d.updated_at.secs(), 77);
    let mut closing = app();
    closing.open_new_task("dev".to_string());
    closing.handle_key(key(KeyCode::Esc), 0);
    assert!(closing.new_task.is_none());
    let t = NewTaskState::new(None, None, "r".to_string());
    assert_eq!(t.attempts, 1);
}

#[test]
fn details_arrive() {
    let mut a = opened(Some("d"));
    let d = a.details.as_ref().unwrap();
    assert!(!d.loading);
    assert_eq!(d.updated_at.secs(), 11);
    assert_eq!(d.last_refresh, 9);
    a.handle_key(ch('r'), 50);
    assert!(a.details.as_ref().unwrap().loading);
    a.on_app_event(
        AppEvent::DetailsLoaded { task_id: "other".to_string(), result: Err("x".to_string()) },
        60,
        at(0),
    );
    assert!(a.details.as_ref().unwrap().loading);
    a.on_app_event(
        AppEvent::DetailsLoaded {
            task_id: "t1".to_string(),
            result: Ok(TaskDetailsPayload { summary: task("else", 99), attempts: Vec::new() }),
        },
        60,
        at(0),
    );
    assert!(!a.details.as_ref().unwrap().loading);
    assert_eq!(a.details.as_ref().unwrap().updated_at.secs(), 11);
    a.on_app_event(
        AppEvent::DetailsLoaded { task_id: "t1".to_string(), result: Err("x".to_string()) },
        60,
        at(0),
    );
    assert_eq!(a.status, "Failed to load task details: x");
}

#[test]
fn keys_in_details() {
    let mut a = opened(Some("d"));
    a.handle_key(key(KeyCode::Right), 0);
    assert_eq!(a.details.as_ref().unwrap().tab, DetailTab::Messages);
    a.handle_key(key(KeyCode::Left), 0);
    assert_eq!(a.details.as_ref().unwrap().tab, DetailTab::Prompt);
    a.handle_key(key(KeyCode::Tab), 0);
    assert_eq!(a.status, "Viewing attempt 2 of 2");
    a.handle_key(key(KeyCode::BackTab), 0);
    assert_eq!(a.status, "Viewing attempt 1 of 2");
    a.handle_key(ch(']'), 0);
    assert_eq!(a.details.as_ref().unwrap().selected_attempt, 1);
    a.handle_key(ch('{'), 0);
    assert_eq!(a.details.as_ref().unwrap().selected_attempt, 0);
    a.handle_key(ch('2'), 0);
    assert_eq!(a.details.as_ref().unwrap().selected_attempt, 1);
    a.handle_key(ch('4'), 0);
    assert_eq!(a.details.as_ref().unwrap().selected_attempt, 1);
    let r = a.handle_key(ch('a'), 0);
    assert!(r.effects.is_empty());
    assert_eq!(a.status, "No diff available for this attempt");
    {
        let d = a.details.as_mut().unwrap();
        d.scroll.set_content(texts(&["1", "2", "3", "4", "5"]));
        assert_eq!(details_page(d, 12, 5), "1\n2\n3");
    }
    let line = |a: &App| a.details.as_ref().unwrap().scroll.state.scroll;
    a.handle_key(ch('j'), 0);
    assert_eq!(line(&a), 1);
    a.handle_key(key(KeyCode::PageDown), 0);
    assert_eq!(line(&a), 2);
    a.handle_key(key(KeyCode::PageUp), 0);
    assert_eq!(line(&a), 0);
    a.handle_key(key(KeyCode::End), 0);
    assert_eq!(line(&a), 2);
    a.handle_key(ch('k'), 0);
    assert_eq!(line(&a), 1);
    a.handle_key(key(KeyCode::Home), 0);
    assert_eq!(line(&a), 0);
    let r = a.handle_key(ch('q'), 0);
    assert!(!r.quit);
    assert!(a.details.is_none());
}

#[test]
fn a_diff_is_applied() {
    let mut a = opened(Some("diff"));
    let r = a.handle_key(ch('a'), 0);
    assert!(matches!(&r.effects[..], [
        Effect::RunApply { task_id, diff, use_worktree: true, worktree_dir, preflight: true },
    ] if task_id == "t1" && diff == "diff" && worktree_dir == "/w"));
    for c in ['w', 'c', 'p', 'y', 'q'] {
        assert!(a.handle_key(ch(c), 0).effects.is_empty());
    }
    a.handle_key(ch('p'), 0);
    assert_eq!(a.status, "Finish the current apply/preflight first.");
    a.handle_key(key(KeyCode::Esc), 0);
    assert_eq!(a.status, "Apply is running…");
    assert!(a.apply_modal.is_some());
    a.on_app_event(
        AppEvent::ApplyPreflightDone {
            task_id: "t1".to_string(),
            result: Ok((outcome(ApplyStatus::Success), Some("/w/t".to_string()))),
        },
        0,
        at(0),
    );
    assert_eq!(a.apply_modal.as_ref().unwrap().stage, ApplyStage::PreflightDone);
    let r = a.handle_key(ch('w'), 0);
    assert!(matches!(&r.effects[..], [Effect::RunApply { use_worktree: false, .. }]));
    a.on_app_event(
        AppEvent::ApplyPreflightDone { task_id: "t1".to_string(), result: Err("e".to_string()) },
        0,
        at(0),
    );
    assert_eq!(a.apply_modal.as_ref().unwrap().error.as_deref(), Some("e"));
    a.handle_key(ch('c'), 0);
    assert!(a.apply_modal.as_ref().unwrap().create_pr);
    let r = a.handle_key(ch('y'), 0);
    assert!(matches!(&r.effects[..], [Effect::RunApply { preflight: false, .. }]));
    let effects = a.on_app_event(
        AppEvent::ApplyDone {
            task_id: "t1".to_string(),
            result: Ok((outcome(ApplyStatus::Partial), None)),
        },
        0,
        at(0),
    );
    assert!(matches!(&effects[..], [Effect::CreatePr { task_id, dir: None, plan }]
        if task_id == "t1" && plan.branch == "codex/task_t1"
            && plan.title == "Codex: Title t1 (t1)"));
    a.on_app_event(
        AppEvent::PrDone { task_id: "t1".to_string(), result: Err("no gh".to_string()) },
        0,
        at(0),
    );
    assert_eq!(
        a.apply_modal.as_ref().unwrap().error.as_deref(),
        Some("PR create failed: no gh")
    );
    assert!(a.handle_key(ch('y'), 0).effects.is_empty());
    assert!(matches!(&a.handle_key(ch('P'), 0).effects[..],
        [Effect::RunApply { preflight: true, .. }]));
    let effects = a.on_app_event(
        AppEvent::ApplyDone { task_id: "t1".to_string(), result: Err("bad".to_string()) },
        0,
        at(0),
    );
    assert!(effects.is_empty());
    assert_eq!(a.apply_modal.as_ref().unwrap().stage, ApplyStage::Done);
    a.on_app_event(
        AppEvent::PrDone {
            task_id: "zzz".to_string(),
            result: Err("other".to_string()),
        },
        0,
        at(0),
    );
    assert_eq!(a.apply_modal.as_ref().unwrap().error.as_deref(), Some("bad"));
    a.handle_key(ch('Q'), 0);
    assert!(a.apply_modal.is_none());
    assert!(a.create_pr().is_empty());
    assert!(a.run_apply().is_empty());
    assert!(a.run_preflight().is_empty());
}

#[test]
fn an_environment_is_chosen() {
    let mut a = app();
    a.handle_key(ch('o'), 0);
    assert!(a.env_loading);
    a.envs = vec![env("e1", Some("Alpha"), false), env("e2", Some("Beta"), false)];
    assert_eq!(env_modal_options(&a.envs, " BET ").len(), 2);
    assert_eq!(env_modal_options(&a.envs, "").len(), 3);
    assert_eq!(env_modal_options(&a.envs, " \t").len(), 3);
    for c in "betax".chars() {
        a.handle_key(ch(c), 0);
    }
    a.handle_key(key(KeyCode::Backspace), 0);
    assert_eq!(a.env_modal.as_ref().unwrap().query, "beta");
    a.handle_key(ctrl('z'), 0);
    assert_eq!(a.env_modal.as_ref().unwrap().query, "beta");
    a.handle_key(key(KeyCode::End), 0);
    assert_eq!(a.env_modal.as_ref().unwrap().selected, 9999);
    a.settle_env_selection();
    assert_eq!(a.env_modal.as_ref().unwrap().selected, 1);
    a.handle_key(key(KeyCode::Home), 0);
    a.handle_key(key(KeyCode::Up), 0);
    assert_eq!(a.env_modal.as_ref().unwrap().selected, 0);
    a.handle_key(ch('j'), 0);
    let r = a.handle_key(key(KeyCode::Enter), 0);
    assert!(matches!(&r.effects[..], [Effect::ListTasks { env: Some(e), .. }] if e == "e2"));
    assert_eq!(a.env_filter_label.as_deref(), Some("Beta"));
    assert!(a.env_modal.is_none());
    a.handle_key(ch('O'), 0);
    let r = a.handle_key(key(KeyCode::Enter), 0);
    assert!(r.effects.is_empty());
    assert_eq!(a.env_filter, None);
    a.open_new_task("dev".to_string());
    a.handle_key(ctrl('o'), 0);
    a.handle_key(key(KeyCode::Down), 0);
    a.handle_key(key(KeyCode::Down), 0);
    a.handle_key(key(KeyCode::Enter), 0);
    assert_eq!(a.new_task.as_ref().unwrap().env_id.as_deref(), Some("e2"));
    a.handle_key(ctrl('o'), 0);
    a.handle_key(key(KeyCode::Enter), 0);
    assert_eq!(a.new_task.as_ref().unwrap().env_id, None);
    a.handle_key(ctrl('o'), 0);
    a.handle_key(key(KeyCode::Esc), 0);
    assert!(a.env_modal.is_none() && a.new_task.is_some());
}

#[test]
fn the_list_and_the_way_out() {
    let mut a = app();
    assert!(a.handle_key(key(KeyCode::Enter), 0).effects.is_empty());
    assert_eq!(a.status, "No task selected");
    a.handle_key(ch('j'), 0);
    assert_eq!(a.selected, 0);
    load(&mut a, vec![task("a", 2), task("b", 1)]);
    a.handle_key(ch('j'), 0);
    a.handle_key(ch('j'), 0);
    assert_eq!(a.selected, 1);
    a.handle_key(ch('k'), 0);
    a.handle_key(key(KeyCode::Up), 0);
    assert_eq!(a.selected, 0);
    a.handle_key(ch('?'), 0);
    assert!(a.show_help);
    a.handle_key(ch('?'), 0);
    assert!(!a.show_help);
    let r = a.handle_key(ch('r'), 0);
    assert!(matches!(&r.effects[..], [Effect::ListTasks { .. }]));
    assert!(a.handle_key(ch('R'), 0).effects.is_empty());
    assert!(a.handle_key(ch('q'), 0).quit);
    assert!(a.handle_key(key(KeyCode::Esc), 0).quit);
    assert!(!a.handle_key(key(KeyCode::Other), 0).quit);
    for mut b in [app(), opened(Some("d"))] {
        assert!(b.handle_key(ctrl('c'), 0).quit);
        b.env_modal = Some(EnvModalState {
            query: String::new(), selected: 0, target: EnvModalTarget::Filter,
        });
        assert!(b.handle_key(ctrl('C'), 0).quit);
        assert!(!b.handle_key(ch('q'), 0).quit);
    }
    assert_eq!(both(vec![Effect::Compose], vec![Effect::LoadEnvs]).len(), 2);
}

#[test]
fn texts_are_shortened() {
    assert_eq!(truncate("abc", 3), "abc");
    assert_eq!(truncate("abcd", 3), "abc…");
    assert_eq!(truncate("aüb", 3), "aü…");
    assert!(!can_truncate("aüb", 2));
    assert!(can_truncate("aü", 3));
    assert!(can_truncate("", 0));
    for s in ["héllo wörld", "日本語", "🦀🦀"] {
        for max in 0..20 {
            let fits = s.len() <= max || s.is_char_boundary(max);
            assert_eq!(can_truncate(s, max), fits, "{s} {max}");
            if fits {
                let expected = if s.len() <= max {
                    s.to_string()
                } else {
                    format!("{}…", &s[..max])
                };
                assert_eq!(truncate(s, max), expected);
            }
        }
    }
}

#[test]
fn the_screen() {
    let mut a = app();
    assert_eq!(header_line(&a), "cloudex  •  env: (all)");
    a.env_filter = Some("e".to_string());
    assert_eq!(header_line(&a), "cloudex  •  env: e");
    a.env_filter_label = Some("L".to_string());
    a.list_refresh_inflight = true;
    assert_eq!(header_line(&a), "cloudex  •  env: L (e)    | refreshing");
    assert_eq!(
        footer_line(&a),
        "q: quit • o: env • n: new • enter: details • r: refresh • ?: help"
    );
    a.say("hi");
    assert_eq!(footer_line(&a), "hi");
    let now = at(100);
    assert_eq!(preview_text(&a, &now), "(no tasks)");
    let t = task("t", 40);
    assert_eq!(
        task_row(&t, &now),
        vec!["[READY] Title t", "prod  •  1m ago  •  +2/-3 • 1 files"]
    );
    let mut plain = task("t", 40);
    plain.summary.files_changed = 0;
    assert_eq!(task_row(&plain, &now)[1], "prod  •  1m ago  •  no diff");
    plain.attempt_total = Some(3);
    a.tasks = vec![plain];
    assert_eq!(
        preview_text(&a, &now),
        "id: t\nstatus: Ready\nupdated: 1m ago\nenv: prod\ndiff: files=0 +2 -3\n\nurl: http://h/codex/tasks/t\n\nenter: open details\nattempts: best-of-3"
    );
    assert!(HELP.starts_with("Global\nq / Esc           Quit\n"));
    assert!(HELP.ends_with("\nEsc              Close\n"));
    assert!(HELP.contains("\n←/→              Switch Prompt / Messages / Diff\n"));
    let d = DetailsState::new(&t, 3, 0);
    assert_eq!(
        details_header(&d, "http://h", &now),
        "Title t\nReady  •  prod  •  1m ago\nhttp://h/codex/tasks/t"
    );
    assert_eq!(
        details_footer(&d, '/'),
        "attempt 1/1  •  a: apply  •  tab: next attempt  •  q: close   / loading…"
    );
    let mut n = NewTaskState::new(None, None, "dev".to_string());
    assert_eq!(
        new_task_head(&n),
        "New task\nenv: (none)\nagents: 1\nref: dev\nqa_mode: false\n"
    );
    assert_eq!(submitting_title(&n, '-'), None);
    n.submitting = true;
    n.env_id = Some("e".to_string());
    assert_eq!(submitting_title(&n, '-').as_deref(), Some("Create task   - submitting…"));
    assert!(new_task_head(&n).contains("env: e\n"));
    n.env_label = Some("L".to_string());
    assert!(new_task_head(&n).contains("env: L (e)\n"));
    assert_eq!(option_row(&None), "(all environments)");
    assert_eq!(option_row(&Some(env("e", Some("L"), true))), "* e  L");
    assert_eq!(option_row(&Some(env("e", None, false))), "  e  ");
    assert_eq!(popup_margin(80), 10);
    assert_eq!(popup_margin(95), 2);
}

#[test]
fn an_apply_is_shown() {
    let mut m = ApplyModalState::new(
        "t".to_string(), "Fix".to_string(), "2".to_string(), "d".to_string(), true,
    );
    assert_eq!(apply_title(&m), "Apply • Fix • attempt 2");
    assert_eq!(apply_head(&m), "worktree: on\ncreate_pr: off\nbranch: codex/task_t\n");
    assert_eq!(apply_text(&m, '|'), "| preflighting…");
    assert_eq!(apply_footer(&m), "(running…) esc: close disabled");
    m.stage = ApplyStage::Applying;
    assert_eq!(apply_text(&m, '|'), "| applying…");
    m.stage = ApplyStage::Done;
    assert_eq!(apply_text(&m, '|'), "(no output)");
    assert_eq!(
        apply_footer(&m),
        "w: worktree • c: PR • p: preflight • y: apply • esc: close"
    );
    m.worktree_path = Some("/w".to_string());
    m.preflight = Some(outcome(ApplyStatus::Success));
    m.apply = Some(outcome(ApplyStatus::Error));
    m.pr = Some(PrCreateResult {
        branch: "b".to_string(),
        remote: "origin".to_string(),
        pr_url: None,
        used_gh: false,
        stdout: "o1\no2".to_string(),
        stderr: " ".to_string(),
    });
    m.error = Some("e".to_string());
    assert_eq!(
        apply_text(&m, '|'),
        "worktree_path: /w\n\npreflight: Success\nmsg\nskipped: s\n\napply: Error\nmsg\nskipped: s\n\nbranch: b\nremote: origin\ncreated_with_gh: false\nPR: created (no URL detected)\n\nstdout:\no1\no2\nerror: e"
    );
}

#[test]
fn steps_visit_each_attempt_once() {
    let mut d = DetailsState::new(&task("t", 1), 3, 5);
    d.refresh(
        &task("t", 2),
        vec![attempt(Some(1), None), attempt(Some(2), None), attempt(Some(3), None)],
        6,
    );
    d.step_attempt(1);
    let mut visited = Vec::new();
    for _ in 0..3 {
        visited.push(d.selected_attempt);
        d.step_attempt(1);
    }
    assert_eq!(visited, vec![1, 2, 0]);
    assert_eq!(d.selected_attempt, 1);
}

#[test]
fn wrapped_lines_are_flat() {
    let raw = texts(&["a\tb\n\tc", "", "\n", "long\tline of words"]);
    for width in 1..12 {
        let wrapped = wrap_lines(&raw, width);
        assert!(wrapped.len() >= raw.len());
        for l in &wrapped {
            assert!(!l.contains('\t') && !l.contains('\n'));
        }
    }
}
