use cloudex::command::Ran;
use cloudex::ensure::{Action, EnsureWorktree, Outcome, Phase, WorktreeError};
use cloudex::pr::{
    default_branch, keeps_output, manual_pr_note, parse_first_pr_url, plan_for_task, CreatePrPlan,
    PrError, PrFlow, Stage,
};
use cloudex::worktree::{
    join_path, normalize_repo_slug, parse_github_owner_repo, repo_name_from_root, repo_slug,
    resolve_repo_root, sanitize_component, worktree_path_in, RootError,
};

fn ran(ok: bool, stdout: &str, stderr: &str) -> Ran {
    Ran { ok, stdout: stdout.to_string(), stderr: stderr.to_string() }
}

#[test]
fn roots_and_slugs() {
    assert_eq!(resolve_repo_root(Some("/a/b\n")), Ok("/a/b".to_string()));
    assert_eq!(resolve_repo_root(None), Err(RootError::NotInside));
    assert_eq!(RootError::NotInside.message(), "not inside a git repository");
    assert_eq!(repo_name_from_root("/a/b"), "b");
    assert_eq!(repo_name_from_root("/a/b/."), "b");
    assert_eq!(repo_name_from_root("/a/b/"), "b");
    assert_eq!(repo_name_from_root("/"), "repo");
    assert_eq!(repo_name_from_root("/a/.."), "repo");
    assert_eq!(normalize_repo_slug(" o/r.git "), "o__r");
    assert_eq!(normalize_repo_slug("a\\b"), "a__b");
    assert_eq!(parse_github_owner_repo("git@github.com:o/r.git").as_deref(), Some("o/r"));
    assert_eq!(parse_github_owner_repo("https://github.com/o/r").as_deref(), Some("o/r"));
    assert_eq!(parse_github_owner_repo("https://example.com/o/r"), None);
    assert_eq!(repo_slug(Some("https://github.com/o/r.git"), "/x/y"), "o__r");
    assert_eq!(repo_slug(Some("https://example.com/o/r"), "/x/y"), "y");
    assert_eq!(repo_slug(None, "/x/y"), "y");
}

#[test]
fn components_are_sanitized() {
    assert_eq!(sanitize_component("task 1/2"), "task_1_2");
    assert_eq!(sanitize_component("__"), "x");
    assert_eq!(sanitize_component("é"), "x");
    assert_eq!(sanitize_component("_a.b-c_"), "a.b-c");
    assert_eq!(sanitize_component(&"a".repeat(90)).len(), 80);
    let once = sanitize_component("a b/c");
    assert_eq!(sanitize_component(&once), once);
}

#[test]
fn sanitizing_twice() {
    let plain = "a".repeat(100);
    let once = sanitize_component(&plain);
    assert_eq!(once.len(), 80);
    assert_eq!(sanitize_component(&once), once);
    let cut = format!("{}_{}", "a".repeat(79), "b".repeat(9));
    let once = sanitize_component(&cut);
    assert_eq!(once, format!("{}_", "a".repeat(79)));
    assert_eq!(sanitize_component(&once), "a".repeat(79));
}

#[test]
fn output_is_kept_of_what_changes_something() {
    assert!(keeps_output(Stage::Switch { existing: true }));
    assert!(keeps_output(Stage::Push));
    assert!(!keeps_output(Stage::AskStatus));
    assert!(!keeps_output(Stage::AskGh));
}

#[test]
fn paths_agree_with_std() {
    for base in ["", "/", "/a", "a/", "a/b"] {
        for part in ["", "x", "/x", "x/y"] {
            let expected = std::path::Path::new(base).join(part);
            assert_eq!(join_path(base, part), expected.to_str().unwrap());
        }
    }
}

#[test]
fn worktrees_have_their_place() {
    assert_eq!(
        worktree_path_in("/w", Some("git@github.com:o/r.git"), "/x/y", "t1", None),
        "/w/o__r/task_t1"
    );
    assert_eq!(
        worktree_path_in("/w", None, "/x/y", "t/1", Some("2")),
        "/w/y/task_t_1_attempt_2"
    );
}

#[test]
fn a_new_worktree_is_added() {
    let mut e = EnsureWorktree::new("/w/t".to_string(), " dev ".to_string(), true);
    assert!(matches!(e.action(), Action::Look));
    e.step(Outcome::Looked { exists: false, is_worktree: false });
    assert!(matches!(e.action(), Action::MakeParent));
    e.step(Outcome::MadeParent { ok: true });
    match e.action() {
        Action::GitInRepo(a) => {
            assert_eq!(a, vec!["worktree", "add", "--detach", "/w/t", "dev"])
        }
        _ => panic!("not adding"),
    }
    e.step(Outcome::Ran(ran(true, "", "")));
    assert!(matches!(e.action(), Action::Finish));
}

#[test]
fn an_old_worktree_is_removed_on_request_only() {
    let mut e = EnsureWorktree::new("/w/t".to_string(), "dev".to_string(), true);
    e.step(Outcome::Looked { exists: true, is_worktree: true });
    match e.action() {
        Action::GitInRepo(a) => assert_eq!(a, vec!["worktree", "remove", "-f", "/w/t"]),
        _ => panic!("not removing"),
    }
    e.step(Outcome::Ran(ran(true, "", "")));
    match e.action() {
        Action::GitInRepo(a) => assert_eq!(a, vec!["worktree", "prune"]),
        _ => panic!("not pruning"),
    }
    e.step(Outcome::Ran(ran(false, "", "")));
    assert!(matches!(e.action(), Action::Look));
    e.step(Outcome::Looked { exists: false, is_worktree: false });
    assert!(matches!(e.action(), Action::MakeParent));

    let mut e = EnsureWorktree::new("/w/t".to_string(), "dev".to_string(), false);
    e.step(Outcome::Looked { exists: true, is_worktree: true });
    match e.action() {
        Action::GitInWorktree(a) => assert_eq!(a, vec!["status", "--porcelain"]),
        _ => panic!("not checking"),
    }
    e.step(Outcome::Ran(ran(true, "\n", "")));
    assert_eq!(e.phase, Phase::Ready);
}

#[test]
fn worktrees_are_refused() {
    let start = |clean: bool| EnsureWorktree::new("/p".to_string(), " ".to_string(), clean);
    let mut e = start(true);
    e.step(Outcome::Looked { exists: true, is_worktree: false });
    assert_eq!(e.phase, Phase::Failed(WorktreeError::NotOurs));
    let mut e = start(true);
    e.step(Outcome::Looked { exists: true, is_worktree: true });
    e.step(Outcome::Ran(ran(false, "", "")));
    assert_eq!(e.phase, Phase::Failed(WorktreeError::RemoveFailed));
    let mut e = start(false);
    e.step(Outcome::Looked { exists: true, is_worktree: false });
    assert_eq!(e.phase, Phase::Failed(WorktreeError::NotAWorktree));
    let mut e = start(false);
    e.step(Outcome::Looked { exists: true, is_worktree: true });
    e.step(Outcome::Ran(ran(true, " M x", "")));
    assert_eq!(e.phase, Phase::Failed(WorktreeError::NotClean));
    let mut e = start(false);
    e.step(Outcome::Looked { exists: false, is_worktree: false });
    e.step(Outcome::MadeParent { ok: false });
    assert_eq!(e.phase, Phase::Failed(WorktreeError::ParentFailed));
    let mut e = start(false);
    e.step(Outcome::Looked { exists: false, is_worktree: false });
    e.step(Outcome::MadeParent { ok: true });
    assert_eq!(e.phase, Phase::Failed(WorktreeError::EmptyRef));
    assert!(matches!(e.action(), Action::Refuse(WorktreeError::EmptyRef)));
    let mut e = EnsureWorktree::new("/p".to_string(), "r".to_string(), false);
    e.step(Outcome::Looked { exists: false, is_worktree: false });
    e.step(Outcome::MadeParent { ok: true });
    e.step(Outcome::Ran(ran(false, "", "")));
    assert_eq!(e.phase, Phase::Failed(WorktreeError::AddFailed));
    let texts = [
        (WorktreeError::NotOurs,
            "refusing to delete existing directory that doesn't look like a git worktree: /p"),
        (WorktreeError::RemoveFailed, "git worktree remove failed"),
        (WorktreeError::NotAWorktree,
            "worktree path exists but doesn't look like a git worktree: /p"),
        (WorktreeError::NotClean,
            "worktree is not clean: /p (use --worktree-clean to recreate it)"),
        (WorktreeError::ParentFailed, "failed to create worktree parent dir: /p"),
        (WorktreeError::EmptyRef, "worktree base ref must not be empty"),
        (WorktreeError::AddFailed, "git worktree add failed"),
    ];
    for (error, text) in texts {
        assert_eq!(error.message("/p"), text);
    }
}

fn plan() -> CreatePrPlan {
    plan_for_task(None, "Fix", "t1", "http://h/codex/tasks/t1")
}

fn command(f: &PrFlow) -> String {
    match f.command() {
        Some(p) => format!("{} {}", p.name, p.args.join("|")),
        None => "-".to_string(),
    }
}

#[test]
fn plans_are_made() {
    let p = plan();
    assert_eq!(p.branch, "codex/task_t1");
    assert_eq!(p.title, "Codex: Fix (t1)");
    assert_eq!(p.body.as_deref(), Some("Created from Codex cloud task: http://h/codex/tasks/t1"));
    assert_eq!(p.remote, "origin");
    assert_eq!(plan_for_task(Some("b".to_string()), "", "", "").branch, "b");
    assert_eq!(default_branch("x"), "codex/task_x");
    assert_eq!(
        manual_pr_note(&p),
        "`gh` not found. Branch pushed; create a PR manually (or install GitHub CLI).\n  branch: codex/task_t1\n  remote: origin"
    );
}

#[test]
fn addresses_of_pull_requests_are_found() {
    assert_eq!(
        parse_first_pr_url("see https://github.com/o/r/pull/5. ok").as_deref(),
        Some("https://github.com/o/r/pull/5")
    );
    assert_eq!(
        parse_first_pr_url("x\nhttps://github.com/o/r/pulls/9").as_deref(),
        Some("https://github.com/o/r/pulls/9")
    );
    assert_eq!(parse_first_pr_url("http://github.com/o/r/pull/5"), None);
    assert_eq!(parse_first_pr_url("https://gitlab.com/o/r/pull/5"), None);
    assert_eq!(parse_first_pr_url("https://github.com/o/r"), None);
}

#[test]
fn a_pull_request_is_created() {
    let mut f = PrFlow::new(plan());
    assert_eq!(command(&f), "git rev-parse|--is-inside-work-tree");
    f.step(ran(true, "true\n", ""));
    assert_eq!(command(&f), "git rev-parse|--verify|codex/task_t1");
    f.step(ran(false, "", "no such ref"));
    assert_eq!(command(&f), "git switch|-c|codex/task_t1");
    f.step(ran(false, "x", "y"));
    assert_eq!(command(&f), "git checkout|-b|codex/task_t1");
    f.step(ran(true, "o1", "e1"));
    assert_eq!(command(&f), "git add|-A");
    f.step(ran(true, "", ""));
    assert_eq!(command(&f), "git status|--porcelain");
    f.step(ran(true, "M x", ""));
    assert_eq!(command(&f), "git -c|commit.gpgsign=false|commit|-m|Codex: Fix (t1)");
    f.step(ran(true, "o2", ""));
    assert_eq!(command(&f), "git push|-u|origin|codex/task_t1");
    f.step(ran(true, "", "e2"));
    assert_eq!(command(&f), "gh --version");
    f.step(ran(true, "gh 2", ""));
    assert_eq!(
        command(&f),
        "gh pr|create|--title|Codex: Fix (t1)|--body|Created from Codex cloud task: http://h/codex/tasks/t1"
    );
    f.step(ran(true, "done", "https://github.com/o/r/pull/7"));
    assert_eq!(command(&f), "-");
    match f.finish() {
        Some(Ok(r)) => {
            assert_eq!(r.stdout, "o1o2done");
            assert_eq!(r.stderr, "e1e2https://github.com/o/r/pull/7");
            assert_eq!(r.pr_url.as_deref(), Some("https://github.com/o/r/pull/7"));
            assert!(r.used_gh);
            assert_eq!(r.branch, "codex/task_t1");
            assert_eq!(r.remote, "origin");
        }
        _ => panic!("no result"),
    }
}

#[test]
fn without_gh_the_branch_is_pushed() {
    let mut p = plan();
    p.body = None;
    let mut f = PrFlow::new(p);
    for r in [
        ran(true, "true", ""), ran(true, "", ""), ran(true, "", ""), ran(true, "", ""),
        ran(true, "M x", ""), ran(true, "", ""), ran(true, "", ""),
    ] {
        f.step(r);
    }
    assert_eq!(f.stage, Stage::AskGh);
    f.step(ran(false, "", ""));
    match f.finish() {
        Some(Ok(r)) => {
            assert!(!r.used_gh);
            assert_eq!(r.pr_url, None);
            assert!(r.stderr.starts_with("`gh` not found."));
        }
        _ => panic!("no result"),
    }
    let mut f = PrFlow::new(CreatePrPlan { body: None, ..plan() });
    f.stage = Stage::CreatePr;
    assert_eq!(command(&f), "gh pr|create|--title|Codex: Fix (t1)|--fill");
    f.stage = Stage::Switch { existing: true };
    assert_eq!(command(&f), "git switch|codex/task_t1");
    f.stage = Stage::Checkout { existing: true };
    assert_eq!(command(&f), "git checkout|codex/task_t1");
}

#[test]
fn pull_requests_fail() {
    let mut f = PrFlow::new(plan());
    f.step(ran(true, "false", ""));
    assert_eq!(f.stage, Stage::Failed(PrError::NotARepository));
    assert!(matches!(f.finish(), Some(Err(PrError::NotARepository))));
    let mut f = PrFlow::new(plan());
    f.stage = Stage::AskStatus;
    f.step(ran(true, " \n", ""));
    assert_eq!(f.stage, Stage::Failed(PrError::NothingToCommit));
    for stage in [Stage::Checkout { existing: true }, Stage::Add, Stage::Commit, Stage::Push,
        Stage::CreatePr] {
        let mut f = PrFlow::new(plan());
        f.stage = stage;
        f.step(ran(false, "", ""));
        assert_eq!(f.stage, Stage::Failed(PrError::CommandFailed));
    }
    assert!(PrFlow::new(plan()).finish().is_none());
    assert_eq!(PrError::NotARepository.message("/d", "c"), "Not inside a git repository: /d");
    assert_eq!(
        PrError::NothingToCommit.message("/d", "c"),
        "No local changes to commit (working tree clean)."
    );
    assert_eq!(PrError::CommandFailed.message("/d", "c"), "c");
}

#[test]
fn slugs_name_owner_and_repository() {
    for start in [
        "git@github.com:",
        "https://github.com/",
        "http://github.com/",
        "ssh://git@github.com/",
    ] {
        for end in ["", ".git"] {
            let remote = format!("{start}o-1/r.x{end}");
            assert_eq!(repo_slug(Some(&remote), "/src/elsewhere"), "o-1__r.x");
        }
    }
}

#[test]
fn components_do_not_start_with_an_underscore() {
    for s in ["_a", "__ a", "/a", "_", "", "é/_a"] {
        assert!(!sanitize_component(s).starts_with('_'));
    }
}
