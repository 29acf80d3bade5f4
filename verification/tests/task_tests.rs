use cloudex::apply::{
    apply_report, apply_result, attempts_summary, git_failure, is_unified_diff, needed_diff,
    no_diff_message, pick_attempt_diff, placement_name, refuse_diff, turn_to_pick_from, GitApplied, PickError,
};
use cloudex::input::{Narration, BAD_METHOD};
use cloudex::job::{run_report, ApplyJob, DiffChoice, JobNeed, WorktreeArgs};
use cloudex::model::{
    counts_line, environment_name, ApplyOutcome, ApplyStatus, AttemptStatus, DiffSummary,
    TaskStatus, TaskSummary, TaskText, TurnAttempt,
};
use cloudex::report::{
    created_lines, diff_output, external_pull_requests, list_lines, listed_tasks, pr_lines_in,
    pull_requests_in, requirements_text,
    show_lines, task_line, task_prs, usage_lines, watched_lines, Credits, LimitWindow, RateLimit,
    ShowParts,
};
use cloudex::run::{created_line, Run, RunArgs, RunNeed, RunNews, Telling};
use cloudex::time::{
    format_relative_time, format_relative_time_now, relative_time_ago, Timestamp,
};
use cloudex::watch::{poll_interval, Channel, Need, WatchEvent, WatchOptions, Watcher};

fn at(secs: i64) -> Timestamp {
    Timestamp::new(secs, 0).unwrap()
}

fn texts(v: &[&str]) -> Vec<String> {
    v.iter().map(|s| s.to_string()).collect()
}

fn task(id: &str, status: TaskStatus) -> TaskSummary {
    TaskSummary {
        id: id.to_string(),
        title: "Fix it".to_string(),
        status,
        updated_at: at(1_431_648_000),
        environment_id: Some("e1".to_string()),
        environment_label: None,
        summary: DiffSummary { files_changed: 2, lines_added: 10, lines_removed: 3 },
        is_review: false,
        attempt_total: None,
    }
}

fn attempt(turn: &str, placement: Option<i64>, diff: Option<&str>) -> TurnAttempt {
    TurnAttempt {
        turn_id: turn.to_string(),
        attempt_placement: placement,
        created_at: None,
        status: AttemptStatus::Completed,
        diff: diff.map(str::to_string),
        messages: texts(&["m"]),
    }
}

fn text() -> TaskText {
    TaskText {
        prompt: Some("do".to_string()),
        messages: texts(&["one", "two"]),
        turn_id: Some("turn".to_string()),
        sibling_turn_ids: texts(&["a", "b"]),
        attempt_placement: Some(1),
        attempt_status: AttemptStatus::InProgress,
    }
}

#[test]
fn points_in_time() {
    let t = Timestamp::new(1_431_648_000, 0).unwrap();
    assert_eq!(t.to_rfc3339(), "2015-05-15T00:00:00+00:00");
    assert_eq!(t.shown(), "2015-05-15 00:00:00 UTC");
    assert_eq!((t.secs(), t.nanos()), (1_431_648_000, 0));
    let half = Timestamp::new(0, 500_000_000).unwrap();
    assert_eq!(half.to_rfc3339(), "1970-01-01T00:00:00.500+00:00");
    assert!(half.is_after(&at(0)));
    assert!(!at(0).is_after(&half));
    assert!(at(1).is_after(&half));
    for (secs, nanos) in [
        (8_210_266_876_799, 999_999_999), (8_210_266_876_800, 0), (-8_334_601_228_800, 0),
        (-8_334_601_228_801, 0), (0, 1_000_000_000), (59, 1_999_999_999), (59, 2_000_000_000),
        (-1, 1_000_000_000), (-2, 1_000_000_000), (119, 1_000_000_000),
    ] {
        let there = chrono::DateTime::from_timestamp(secs, nanos).is_some();
        assert_eq!(Timestamp::new(secs, nanos).is_some(), there, "{secs} {nanos}");
    }
}

#[test]
fn seconds_between_agree_with_chrono() {
    let points = [
        (0, 0), (0, 1), (59, 999_999_999), (59, 1_500_000_000), (60, 0), (86_399, 1_700_000_000),
        (86_400, 0), (-1, 1_200_000_000), (-1, 0), (-86_400, 5), (1_700_000_000, 123_456_789),
        (119, 1_000_000_000),
    ];
    for (s, n) in points {
        for (t, m) in points {
            let a = chrono::DateTime::from_timestamp(s, n).unwrap();
            let b = chrono::DateTime::from_timestamp(t, m).unwrap();
            let x = Timestamp::new(s, n).unwrap();
            let y = Timestamp::new(t, m).unwrap();
            assert_eq!(x.seconds_since(&y), (a - b).num_seconds());
            // Counted by hand: days, the clock, and the leap second that one of them tells of.
            let clock = |k: i64| k.rem_euclid(86_400);
            let leap: i128 = if clock(s) > clock(t) && m >= 1_000_000_000 {
                1
            } else if clock(s) < clock(t) && n >= 1_000_000_000 {
                -1
            } else {
                0
            };
            let nanos = ((s - t) as i128 + leap) * 1_000_000_000 + n as i128 - m as i128;
            assert_eq!(x.seconds_since(&y) as i128, nanos / 1_000_000_000);
            assert_eq!(x.is_after(&y), a > b);
        }
    }
}

#[test]
fn ages() {
    let date = || "D".to_string();
    for (secs, text) in [
        (-5, "0s"), (0, "0s"), (59, "59s"), (60, "1m"), (3_599, "59m"), (3_600, "1h"),
        (86_399, "23h"), (86_400, "D"),
    ] {
        assert_eq!(format_relative_time(secs, "", date()), text);
    }
    assert_eq!(format_relative_time(61, " ago", date()), "1m ago");
    assert_eq!(format_relative_time_now(&at(100), &at(40)), "1m");
    assert_eq!(relative_time_ago(&at(100), &at(200)), "0s ago");
    assert_eq!(
        relative_time_ago(&at(1_431_648_000 + 90_000), &at(1_431_648_000)),
        "2015-05-15T00:00:00+00:00"
    );
}

#[test]
fn names() {
    assert_eq!(TaskStatus::Pending.name(), "Pending");
    assert_eq!(TaskStatus::Applied.upper_name(), "APPLIED");
    assert!(!TaskStatus::Pending.is_terminal());
    assert!(TaskStatus::Ready.is_terminal());
    assert!(TaskStatus::Applied.is_terminal());
    assert!(TaskStatus::Error.is_terminal());
    assert_eq!(AttemptStatus::InProgress.name(), "InProgress");
    assert_eq!(AttemptStatus::Unknown.name(), "Unknown");
    assert_eq!(ApplyStatus::Partial.name(), "Partial");
    assert!(ApplyStatus::Partial.applied_some());
    assert!(!ApplyStatus::Error.applied_some());
    assert_eq!(counts_line(task("t", TaskStatus::Ready).summary), "files=2 +10 -3");
    let some = |s: &str| Some(s.to_string());
    assert_eq!(environment_name(&some("l"), &some("i")), "l");
    assert_eq!(environment_name(&None, &some("i")), "i");
    assert_eq!(environment_name(&None, &None), "");
}

#[test]
fn unified_diffs() {
    assert!(is_unified_diff("\n diff --git a/x b/x"));
    assert!(is_unified_diff("x\n--- a\n+++ b\n@@ -1 +1 @@"));
    assert!(is_unified_diff("@@ -1 @@\n--- a\n+++ b\n"));
    assert!(!is_unified_diff("--- a\n+++ b\n@@ x"));
    assert!(!is_unified_diff("*** Begin Patch"));
    assert!(!is_unified_diff(""));
    assert!(refuse_diff("diff --git a b").is_none());
    let o = refuse_diff("nonsense").unwrap();
    assert_eq!(o.status, ApplyStatus::Error);
    assert!(!o.applied);
    assert_eq!(o.message, "Expected unified git diff; backend returned an incompatible format.");
}

fn git(code: i32, applied: usize, skipped: usize, conflicts: usize) -> GitApplied {
    GitApplied {
        exit_code: code,
        applied_paths: vec!["a".to_string(); applied],
        skipped_paths: vec!["s".to_string(); skipped],
        conflicted_paths: vec!["c".to_string(); conflicts],
    }
}

#[test]
fn applied_diffs() {
    let o = apply_result("t", git(0, 2, 0, 0), false);
    assert!(o.applied);
    assert_eq!(o.message, "Applied task t locally (2 files)");
    let o = apply_result("t", git(0, 2, 0, 0), true);
    assert!(!o.applied);
    assert_eq!(o.message, "Preflight passed for task t (applies cleanly)");
    let o = apply_result("t", git(1, 1, 2, 3), false);
    assert_eq!(o.status, ApplyStatus::Partial);
    assert_eq!(
        o.message,
        "Apply partially succeeded for task t (applied=1, skipped=2, conflicts=3)"
    );
    assert_eq!(o.skipped_paths.len(), 2);
    assert_eq!(o.conflict_paths.len(), 3);
    let o = apply_result("t", git(1, 0, 0, 1), true);
    assert_eq!(
        o.message,
        "Preflight: patch does not fully apply for task t (applied=0, skipped=0, conflicts=1)"
    );
    let o = apply_result("t", git(1, 0, 1, 0), true);
    assert_eq!(o.status, ApplyStatus::Error);
    assert_eq!(o.message, "Preflight failed for task t (applied=0, skipped=1, conflicts=0)");
    let o = apply_result("t", git(-1, 0, 1, 0), false);
    assert_eq!(o.message, "Apply failed for task t (applied=0, skipped=1, conflicts=0)");
    assert_eq!(apply_report(&o), vec![o.message.clone(), "skipped_paths: s".to_string()]);
    let o = apply_result("t", git(1, 0, 0, 2), false);
    assert_eq!(apply_report(&o)[1], "conflict_paths: c, c");
    assert_eq!(git_failure("boom"), "git apply failed to run: boom");
}

#[test]
fn attempts_are_picked() {
    let all = vec![
        attempt("x", Some(1), Some("d1")),
        attempt("2", None, Some("dt")),
        attempt("y", Some(2), None),
        attempt("z", Some(2), Some("late")),
    ];
    assert_eq!(pick_attempt_diff(&all, "1").unwrap(), "d1");
    assert_eq!(pick_attempt_diff(&all, "x").unwrap(), "d1");
    let e = pick_attempt_diff(&all, "2").unwrap_err();
    assert!(matches!(e, PickError::NoPlacement(2)));
    assert_eq!(e.message(), "no diff found for attempt placement 2");
    let e = pick_attempt_diff(&all, "nobody").unwrap_err();
    assert!(matches!(e, PickError::NoAttempt(_)));
    assert_eq!(e.message(), "no diff found for attempt 'nobody'");
    assert_eq!(turn_to_pick_from(&text()).unwrap(), "turn");
    let mut t = text();
    t.turn_id = None;
    let e = turn_to_pick_from(&t).unwrap_err();
    assert!(matches!(e, PickError::NoTurn));
    assert_eq!(e.message(), "task has no assistant turn yet; cannot pick attempt");
    assert_eq!(no_diff_message("t"), "No diff available for task t");
    assert_eq!(attempts_summary(&all), "1:Completed ?:Completed 2:Completed 2:Completed");
    assert_eq!(placement_name(Some(-3)), "-3");
    assert_eq!(placement_name(None), "?");
}

fn options(exit: bool, messages: bool, attempts: bool) -> WatchOptions {
    WatchOptions { exit_on_done: exit, stream_messages: messages, show_attempts: attempts }
}

#[test]
fn a_task_is_watched() {
    let mut w = Watcher::new(options(true, true, true));
    assert_eq!(w.need, Need::Summary);
    let e = w.take_summary(task("t", TaskStatus::Pending));
    assert_eq!(e.len(), 1);
    assert_eq!(e[0].kind(), "status");
    assert_eq!(e[0].line_for(Narration::Words), Some((Channel::Stderr, "Pending: Fix it".to_string())));
    assert_eq!(w.need, Need::Messages);
    let e = w.take_messages(&texts(&["a", "b"]));
    assert_eq!(e.len(), 2);
    assert_eq!(e[1].line_for(Narration::Words), Some((Channel::Stdout, "b".to_string())));
    assert!(matches!(&e[1], WatchEvent::Message { index: 1, .. }));
    assert_eq!(w.need, Need::Attempts);
    let e = w.take_attempts(Some(vec![attempt("x", Some(1), Some("d"))]));
    assert_eq!(e.len(), 1);
    assert_eq!(e[0].line_for(Narration::Words), Some((Channel::Stderr, "attempts: 1:Completed".to_string())));
    match &e[0] {
        WatchEvent::Attempts { attempts, .. } => {
            assert!(attempts[0].has_diff);
            assert_eq!(attempts[0].message_count, 1);
            assert_eq!(attempts[0].turn_id, "x");
        }
        _ => panic!("no attempts"),
    }
    assert_eq!(w.need, Need::Pause);
    w.resume();
    assert_eq!(w.need, Need::Summary);
    // The same again: nothing is told.
    assert!(w.take_summary(task("t", TaskStatus::Pending)).is_empty());
    assert!(w.take_messages(&texts(&["a"])).is_empty());
    assert!(w.take_attempts(Some(vec![attempt("other", Some(1), None)])).is_empty());
    w.resume();
    let e = w.take_summary(task("t", TaskStatus::Ready));
    assert_eq!(e.len(), 1);
    let e = w.take_messages(&texts(&["a", "b", "c"]));
    assert_eq!(e.len(), 1);
    assert!(matches!(&e[0], WatchEvent::Message { index: 2, .. }));
    let e = w.take_attempts(None);
    assert_eq!(e.len(), 1);
    assert_eq!(e[0].kind(), "done");
    assert_eq!(e[0].line_for(Narration::Words), None);
    assert_eq!(w.need, Need::Nothing);
}

#[test]
fn watching_leaves_other_output_alone() {
    let mut w = Watcher::new(options(true, true, true));
    let status = w.take_summary(task("t", TaskStatus::Ready));
    let message = w.take_messages(&texts(&["m"]));
    for e in [&status[0], &message[0]] {
        assert_eq!(e.line_for(Narration::Event), None);
        assert_eq!(e.line_for(Narration::Nothing).unwrap().0, Channel::Stderr);
    }
    assert_eq!(message[0].line_for(Narration::Nothing).unwrap().1, "m");
    assert_eq!(message[0].line_for(Narration::Words).unwrap().0, Channel::Stdout);
}

#[test]
fn a_run_prints_what_came_of_it() {
    let mut r = Run::new(run_args(true, true, 1));
    let mut news = r.take_task("t1".to_string());
    news.extend(r.take_status(TaskStatus::Ready));
    r.take_title("Fix".to_string());
    news.extend(r.take_outcome(outcome(ApplyStatus::Success)));
    news.extend(r.take_pr());
    let told = |n: Narration| news.iter().map(|x| x.telling(n)).collect::<Vec<Telling>>();
    assert_eq!(
        told(Narration::Nothing),
        vec![Telling::Nothing, Telling::Nothing, Telling::Nothing, Telling::Summary]
    );
    assert_eq!(
        told(Narration::Words),
        vec![Telling::Address, Telling::Report, Telling::Nothing, Telling::Nothing]
    );
    assert_eq!(told(Narration::Event), vec![Telling::Event; 4]);
}

#[test]
fn watching_goes_on_where_it_should() {
    let mut w = Watcher::new(options(false, false, false));
    let e = w.take_summary(task("t", TaskStatus::Error));
    assert_eq!(e.len(), 1);
    assert_eq!(w.need, Need::Pause);
    let mut w = Watcher::new(options(true, false, false));
    let e = w.take_summary(task("t", TaskStatus::Error));
    assert_eq!(e.len(), 2);
    assert_eq!(e[1].kind(), "done");
    assert_eq!(w.need, Need::Nothing);
    let mut w = Watcher::new(options(true, false, true));
    w.take_summary(task("t", TaskStatus::Pending));
    assert_eq!(w.need, Need::Attempts);
    assert_eq!(poll_interval(0), 1);
    assert_eq!(poll_interval(7), 7);
}

#[test]
fn a_status_is_told_once() {
    let mut w = Watcher::new(options(false, false, false));
    assert_eq!(w.take_summary(task("t", TaskStatus::Pending)).len(), 1);
    w.resume();
    assert_eq!(w.take_summary(task("t", TaskStatus::Pending)).len(), 0);
    w.resume();
    assert_eq!(w.take_summary(task("t", TaskStatus::Ready))[0].kind(), "status");
}

#[test]
fn the_future_is_now() {
    let before_midnight = Timestamp::new(86399, 1_500_000_000).unwrap();
    let midnight = at(86400);
    assert_eq!(format_relative_time_now(&before_midnight, &midnight), "0s");
    assert_eq!(relative_time_ago(&at(5), &at(500)), "0s ago");
}

fn worktree(on: bool) -> WorktreeArgs {
    WorktreeArgs { worktree: on, path: None, dir: None, base_ref: "dev".to_string(), clean: false }
}

fn outcome(status: ApplyStatus) -> ApplyOutcome {
    ApplyOutcome {
        applied: false,
        status,
        message: "msg".to_string(),
        skipped_paths: Vec::new(),
        conflict_paths: Vec::new(),
    }
}

fn job(attempt: Option<&str>, preflight: bool, pr: bool, w: WorktreeArgs) -> ApplyJob {
    ApplyJob::new(
        "t1".to_string(),
        "http://u".to_string(),
        attempt.map(str::to_string),
        preflight,
        pr,
        None,
        "/home".to_string(),
        w,
    )
}

#[test]
fn jobs_with_a_worktree() {
    let mut j = job(Some("2"), false, true, worktree(true));
    assert_eq!(j.need, JobNeed::Root);
    j.take_root("/src/repo", Some("git@github.com:o/r"));
    assert_eq!(j.need, JobNeed::Worktree);
    assert_eq!(j.path.as_deref(), Some("/home/worktrees/o__r/task_t1_attempt_2"));
    j.take_worktree();
    assert_eq!(j.need, JobNeed::Outcome);
    j.take_outcome(outcome(ApplyStatus::Partial));
    assert_eq!(j.need, JobNeed::Title);
    j.take_title("Fix");
    assert_eq!(j.need, JobNeed::PullRequest);
    assert_eq!(j.plan.as_ref().unwrap().title, "Codex: Fix (t1)");
    j.take_pr();
    assert_eq!(j.need, JobNeed::Nothing);
    assert!(j.pr_created);
    assert!(j.tells_all());
    assert_eq!(
        j.report(),
        vec!["worktree: /home/worktrees/o__r/task_t1_attempt_2", "msg"]
    );
    let mut w = worktree(false);
    w.dir = Some("/w".to_string());
    let mut j = job(None, false, false, w);
    assert_eq!(j.need, JobNeed::Root);
    j.take_root("/src/repo", None);
    assert_eq!(j.path.as_deref(), Some("/w/repo/task_t1"));
    let mut w = worktree(false);
    w.path = Some("/p".to_string());
    let mut j = job(None, false, false, w);
    j.take_root("/src/repo", None);
    assert_eq!(j.path.as_deref(), Some("/p"));
}

#[test]
fn jobs_without_a_pull_request() {
    let mut j = job(None, true, true, worktree(false));
    assert_eq!(j.need, JobNeed::Outcome);
    j.take_outcome(outcome(ApplyStatus::Success));
    assert_eq!(j.need, JobNeed::Nothing);
    assert!(j.tells_all());
    assert!(j.applied_some());
    assert_eq!(j.report(), vec!["msg"]);
    let mut j = job(None, false, true, worktree(false));
    j.take_outcome(outcome(ApplyStatus::Error));
    assert_eq!(j.need, JobNeed::Nothing);
    assert!(!j.applied_some());
    let mut j = job(None, false, false, worktree(false));
    j.take_outcome(outcome(ApplyStatus::Success));
    assert_eq!(j.need, JobNeed::Nothing);
    assert!(!j.tells_all());
    let r = run_report("t1".to_string(), "u".to_string(), TaskStatus::Ready, Some(&j));
    assert!(r.applied && !r.pr_created);
    assert_eq!(r.worktree_path, None);
}

fn run_args(apply: bool, pr: bool, agents: u8) -> RunArgs {
    RunArgs {
        apply,
        create_pr: pr,
        pr_branch: Some("b".to_string()),
        agents,
        qa_mode: true,
        base_url: "http://h".to_string(),
        codex_home: "/home".to_string(),
        env_id: "e1".to_string(),
        git_ref: "dev".to_string(),
        worktree: worktree(true),
    }
}

#[test]
fn a_run_goes_all_the_way() {
    let mut r = Run::new(run_args(true, true, 2));
    assert_eq!(r.need, RunNeed::Task);
    assert!(r.watch_options().show_attempts);
    let news = r.take_task("t1".to_string());
    assert_eq!(news.len(), 1);
    assert_eq!(news[0].kind(), "created");
    match &news[0] {
        RunNews::Created { task_id, url, env_id, git_ref, agents, qa_mode } => {
            assert_eq!(task_id, "t1");
            assert_eq!(url, "http://h/codex/tasks/t1");
            assert_eq!((env_id.as_str(), git_ref.as_str(), *agents, *qa_mode),
                ("e1", "dev", 2, true));
        }
        _ => panic!("not created"),
    }
    assert_eq!(created_line(&r.url()), "Created http://h/codex/tasks/t1");
    assert_eq!(r.need, RunNeed::Status);
    assert!(r.take_status(TaskStatus::Ready).is_empty());
    assert_eq!(r.need, RunNeed::Title);
    r.take_title("Fix".to_string());
    assert_eq!(r.need, RunNeed::Job);
    assert_eq!(r.job.as_ref().unwrap().need, JobNeed::Root);
    r.take_root("/src/repo", None);
    r.take_worktree();
    let news = r.take_outcome(outcome(ApplyStatus::Success));
    assert_eq!(news.len(), 1);
    assert_eq!(news[0].kind(), "apply_result");
    assert_eq!(r.job.as_ref().unwrap().need, JobNeed::PullRequest);
    assert_eq!(r.job.as_ref().unwrap().plan.as_ref().unwrap().branch, "b");
    let news = r.take_pr();
    assert_eq!(news.len(), 2);
    assert_eq!(news[0].kind(), "pr_created");
    match &news[1] {
        RunNews::Complete(c) => {
            assert!(c.applied && c.pr_created);
            assert_eq!(c.worktree_path.as_deref(), Some("/home/worktrees/repo/task_t1"));
            assert_eq!(c.status, TaskStatus::Ready);
        }
        _ => panic!("not complete"),
    }
    assert_eq!(r.need, RunNeed::Nothing);
}

#[test]
fn a_run_stops_where_it_should() {
    let mut r = Run::new(run_args(false, true, 1));
    assert!(!r.watch_options().show_attempts);
    r.take_task("t1".to_string());
    let news = r.take_status(TaskStatus::Error);
    assert_eq!(news.len(), 1);
    assert_eq!(news[0].kind(), "run_complete");
    assert!(matches!(&news[0], RunNews::Complete(c) if !c.applied && !c.pr_created));
    let mut r = Run::new(run_args(true, true, 1));
    r.take_task("t1".to_string());
    r.take_status(TaskStatus::Ready);
    r.take_title("Fix".to_string());
    let news = r.take_outcome(outcome(ApplyStatus::Error));
    assert_eq!(news.len(), 2);
    assert!(matches!(&news[1], RunNews::Complete(c) if !c.applied && !c.pr_created));
    assert!(Run::new(run_args(true, true, 1)).take_pr().is_empty());
}

#[test]
fn tasks_are_listed() {
    let now = at(1_431_648_000 + 120);
    let mut review = task("r", TaskStatus::Ready);
    review.is_review = true;
    let all = vec![task("t", TaskStatus::Ready), review];
    assert_eq!(
        task_line(&all[0], &now),
        "t\tReady\t2m\te1\tfiles=2 +10 -3\tFix it"
    );
    let kept = listed_tasks(all, false);
    assert_eq!(kept.len(), 1);
    assert_eq!(list_lines(&kept, &Some("c".to_string()), &now)[1], "cursor: c");
    assert_eq!(list_lines(&kept, &None, &now).len(), 1);
    assert_eq!(listed_tasks(vec![task("t", TaskStatus::Ready)], true).len(), 1);
}

#[test]
fn tasks_are_shown() {
    let t = task("other", TaskStatus::Ready);
    let nothing = ShowParts { text: None, attempts: None, diff: None };
    assert_eq!(
        show_lines("t", "http://h", &t, "ready", &nothing),
        vec![
            "id: t",
            "url: http://h/codex/tasks/t",
            "title: Fix it",
            "status: ready",
            "updated_at: 2015-05-15 00:00:00 UTC",
            "environment_id: e1",
            "diff_summary: files=2 +10 -3",
        ]
    );
    let parts = ShowParts {
        text: Some(text()),
        attempts: Some(vec![attempt("x", None, None)]),
        diff: Some(Some("D".to_string())),
    };
    let lines = show_lines("t", "http://h", &t, "ready", &parts);
    assert_eq!(
        lines[7..],
        [
            "\n--- prompt ---\ndo",
            "\n--- messages ---",
            "[0] one",
            "[1] two",
            "turn_id: turn",
            "sibling_turn_ids: a,b",
            "attempt_status: InProgress",
            "\n--- attempts ---",
            "?\tCompleted\tx",
            "\n--- diff ---\nD",
        ]
    );
    let empty = TaskText {
        prompt: None,
        messages: Vec::new(),
        turn_id: None,
        sibling_turn_ids: Vec::new(),
        attempt_placement: None,
        attempt_status: AttemptStatus::Unknown,
    };
    let parts = ShowParts { text: Some(empty), attempts: None, diff: Some(None) };
    let lines = show_lines("t", "http://h", &t, "ready", &parts);
    assert_eq!(lines[7..], ["attempt_status: Unknown", "\n(no diff)"]);
    assert_eq!(
        watched_lines(TaskStatus::Ready, "http://h", "t"),
        vec!["status: Ready", "url: http://h/codex/tasks/t"]
    );
}

#[test]
fn other_output() {
    assert_eq!(
        created_lines("t", "e", "r", 3, Some("u")),
        vec!["task_id: t", "environment: e", "ref: r", "agents: 3", "url: u"]
    );
    assert_eq!(created_lines("t", "e", "r", 1, None).len(), 4);
    assert_eq!(requirements_text(Some("x".to_string())), "x");
    assert_eq!(requirements_text(None), "(no requirements file returned)\n");
    assert_eq!(diff_output(Some("d".to_string())), "d");
    assert_eq!(diff_output(None), "(no diff)\n");
    assert_eq!(BAD_METHOD, "invalid --method");
}

#[test]
fn limits_are_shown() {
    let l = RateLimit {
        limit_id: None,
        limit_name: Some("n".to_string()),
        primary: Some(LimitWindow {
            used_percent: "12.5".to_string(),
            window_minutes: Some(300),
            resets_at: None,
        }),
        secondary: None,
        credits: Some(Credits { has_credits: true, unlimited: false, balance: None }),
    };
    assert_eq!(
        usage_lines(&l),
        vec![
            "<unknown>\tn",
            "  primary: used_percent=12.5 window_minutes=Some(300) resets_at=None",
            "  credits: has_credits=true unlimited=false balance=<none>",
        ]
    );
}

#[test]
fn pull_requests_of_a_task() {
    let body = "{\"task\":{\"external_pull_requests\":[\
{\"pull_request\":{\"url\":\"http://p\",\"number\":5,\"state\":\"open\"}},{}, \
{\"pull_request\":{\"url\":3,\"number\":\"x\",\"state\":null}}]}}";
    assert_eq!(
        task_prs(body).unwrap(),
        vec!["#5\topen\thttp://p", "#?\t\t<unknown>", "#?\t\t<unknown>"]
    );
    for none in ["{}", "{\"task\":{\"external_pull_requests\":[]}}",
        "{\"task\":{\"external_pull_requests\":1}}", "[]"] {
        assert_eq!(task_prs(none).unwrap(), vec!["(no external pull requests)"]);
    }
    assert!(task_prs("{").is_err());
    let prs = external_pull_requests(body).unwrap();
    assert_eq!(prs.len(), 3);
    assert_eq!(prs[0]["pull_request"]["number"].as_i64(), Some(5));
    assert_eq!(prs[1], serde_json::Value::Object(serde_json::Map::new()));
    assert_eq!(pull_requests_in(&prs[0]).len(), 0);
    assert!(external_pull_requests("{}").unwrap().is_empty());
    assert!(external_pull_requests("{").is_err());
    let v: serde_json::Value = serde_json::from_str(body).unwrap();
    assert_eq!(pr_lines_in(&v).len(), 3);
}

#[test]
fn diffs_are_applied_where_the_job_stands() {
    let mut j = job(Some("2"), true, false, worktree(true));
    j.take_root("/src/repo", None);
    let a = j.apply_action();
    assert_eq!(a.dir.as_deref(), Some("/home/worktrees/repo/task_t1_attempt_2"));
    assert!(matches!(a.diff, DiffChoice::Attempt(s) if s == "2"));
    assert!(a.preflight);
    let mut j = job(None, false, false, worktree(true));
    j.take_root("/src/repo", None);
    let a = j.apply_action();
    assert_eq!(a.dir.as_deref(), Some("/home/worktrees/repo/task_t1"));
    assert!(matches!(a.diff, DiffChoice::Task));
    assert!(!a.preflight);
    let a = job(None, true, false, worktree(false)).apply_action();
    assert_eq!(a.dir, None);
    assert!(matches!(a.diff, DiffChoice::Found));
    assert!(a.preflight);
    let a = job(Some("x"), false, false, worktree(false)).apply_action();
    assert_eq!(a.dir, None);
    assert!(matches!(a.diff, DiffChoice::Attempt(s) if s == "x"));
    assert_eq!(needed_diff(Some("d".to_string()), "t1"), Ok("d".to_string()));
    assert_eq!(needed_diff(None, "t1"), Err("No diff available for task t1".to_string()));
}

fn seen_kinds() -> Vec<&'static str> {
    let mut w = Watcher::new(options(true, true, true));
    let mut all = w.take_summary(task("t1", TaskStatus::Pending));
    all.extend(w.take_messages(&texts(&["a"])));
    all.extend(w.take_attempts(Some(vec![attempt("x", Some(1), None)])));
    w.resume();
    all.extend(w.take_summary(task("t1", TaskStatus::Ready)));
    all.extend(w.take_messages(&texts(&["a", "b"])));
    all.extend(w.take_attempts(None));
    assert_eq!(w.need, Need::Nothing);
    all.iter().map(|e| e.kind()).collect()
}

#[test]
fn done_is_told_once_and_last() {
    assert_eq!(seen_kinds(), vec!["status", "message", "attempts", "status", "message", "done"]);
}

#[test]
fn the_events_of_a_run_come_in_order() {
    for (apply, pr, status, end) in [
        (false, true, ApplyStatus::Success, vec!["run_complete"]),
        (true, false, ApplyStatus::Success, vec!["apply_result", "run_complete"]),
        (true, true, ApplyStatus::Error, vec!["apply_result", "run_complete"]),
        (true, true, ApplyStatus::Partial, vec!["apply_result", "pr_created", "run_complete"]),
    ] {
        let mut r = Run::new(run_args(apply, pr, 2));
        let mut kinds: Vec<&'static str> =
            r.take_task("t1".to_string()).iter().map(|n| n.kind()).collect();
        kinds.extend(seen_kinds());
        let mut news = r.take_status(TaskStatus::Ready);
        if r.need != RunNeed::Nothing {
            r.take_title("Fix".to_string());
            r.take_root("/src/repo", None);
            r.take_worktree();
            news.extend(r.take_outcome(outcome(status)));
        }
        if r.need != RunNeed::Nothing {
            news.extend(r.take_pr());
        }
        assert_eq!(r.need, RunNeed::Nothing);
        kinds.extend(news.iter().map(|n| n.kind()));
        assert_eq!(kinds[0], "created");
        assert_eq!(kinds[1..7], seen_kinds());
        assert_eq!(kinds[7..], end);
    }
}
