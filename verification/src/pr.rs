//! Creating a pull request out of local changes: branch, commit, push, `gh`.
use vstd::prelude::*;

use crate::command::{arg_list, Ran};
use crate::pieces::{split_whitespace, words};
use crate::text::{
    blank, contains, end_trimmed, has_prefix, has_suffix, is_blank, lemma_two_parts, occurs, same,
    starts_with, trim, trim_end, trimmed, Class,
};

verus! {

/// What came of creating a pull request.
#[derive(Debug, Clone)]
pub struct PrCreateResult {
    pub branch: String,
    pub remote: String,
    pub pr_url: Option<String>,
    pub used_gh: bool,
    pub stdout: String,
    pub stderr: String,
}

/// The pull request that is to be created.
#[derive(Debug, Clone)]
pub struct CreatePrPlan {
    pub branch: String,
    pub title: String,
    pub body: Option<String>,
    pub remote: String,
}

/// A [`CreatePrPlan`] as the contracts speak of it.
pub struct PlanView {
    pub branch: Seq<char>,
    pub title: Seq<char>,
    pub body: Option<Seq<char>>,
    pub remote: Seq<char>,
}

impl DeepView for CreatePrPlan {
    type V = PlanView;

    open spec fn deep_view(&self) -> PlanView {
        PlanView {
            branch: self.branch@,
            title: self.title@,
            body: self.body.deep_view(),
            remote: self.remote@,
        }
    }
}

/// A [`PrCreateResult`] as the contracts speak of it.
pub struct PrResultView {
    pub branch: Seq<char>,
    pub remote: Seq<char>,
    pub pr_url: Option<Seq<char>>,
    pub used_gh: bool,
    pub stdout: Seq<char>,
    pub stderr: Seq<char>,
}

impl DeepView for PrCreateResult {
    type V = PrResultView;

    open spec fn deep_view(&self) -> PrResultView {
        PrResultView {
            branch: self.branch@,
            remote: self.remote@,
            pr_url: self.pr_url.deep_view(),
            used_gh: self.used_gh,
            stdout: self.stdout@,
            stderr: self.stderr@,
        }
    }
}

/// The branch that a task is put on where none was named.
pub open spec fn task_branch(task_id: Seq<char>) -> Seq<char> {
    "codex/task_"@ + task_id
}

/// The branch that a task is put on where none was named.
pub fn default_branch(task_id: &str) -> (r: String)
    ensures
        r@ == task_branch(task_id@),
{
    let mut s = "codex/task_".to_string();
    s.append(task_id);
    s
}

/// The pull request of a task.
pub open spec fn task_plan(
    branch: Option<Seq<char>>,
    title: Seq<char>,
    task_id: Seq<char>,
    url: Seq<char>,
) -> PlanView {
    PlanView {
        branch: match branch {
            Some(b) => b,
            None => task_branch(task_id),
        },
        title: "Codex: "@ + title + " ("@ + task_id + ")"@,
        body: Some("Created from Codex cloud task: "@ + url),
        remote: "origin"@,
    }
}

/// The pull request of a task: on the branch that was named, or on one named after the task.
pub fn plan_for_task(branch: Option<String>, title: &str, task_id: &str, url: &str) -> (r:
    CreatePrPlan)
    ensures
        r.deep_view() == task_plan(branch.deep_view(), title@, task_id@, url@),
{
    let branch = match branch {
        Some(b) => b,
        None => default_branch(task_id),
    };
    let mut t = "Codex: ".to_string();
    t.append(title);
    t.append(" (");
    t.append(task_id);
    t.append(")");
    let mut body = "Created from Codex cloud task: ".to_string();
    body.append(url);
    CreatePrPlan { branch, title: t, body: Some(body), remote: "origin".to_string() }
}

/// Whether a word is the address of a pull request on GitHub.
pub open spec fn is_pr_url(w: Seq<char>) -> bool {
    &&& has_prefix(w, "https://"@)
    &&& occurs(w, "github.com"@)
    &&& occurs(w, "/pull/"@) || occurs(w, "/pulls/"@)
}

/// The first of `ws` that is the address of a pull request, without full stops at its end.
pub open spec fn first_pr_url(ws: Seq<Seq<char>>) -> Option<Seq<char>>
    decreases ws.len(),
{
    if ws.len() == 0 {
        None
    } else if is_pr_url(ws[0]) {
        Some(end_trimmed(trimmed(ws[0]), Class::Only('.')))
    } else {
        first_pr_url(ws.drop_first())
    }
}

/// The first address of a pull request among the words of `s`.
pub fn parse_first_pr_url(s: &str) -> (r: Option<String>)
    ensures
        r.deep_view() == first_pr_url(words(s@)),
{
    let tokens = split_whitespace(s);
    let ghost ws = tokens.deep_view();
    let mut i: usize = 0;
    assert(ws.skip(0) == ws);
    while i < tokens.len()
        invariant
            ws == tokens.deep_view(),
            ws == words(s@),
            i <= tokens@.len(),
            first_pr_url(ws) == first_pr_url(ws.skip(i as int)),
        decreases tokens@.len() - i,
    {
        let token = &tokens[i];
        assert(ws.skip(i as int)[0] == token@);
        assert(ws.skip(i as int).drop_first() == ws.skip(i + 1));
        if starts_with(token, "https://") && contains(token, "github.com") && (contains(
            token,
            "/pull/",
        ) || contains(token, "/pulls/")) {
            return Some(trim_end(&trim(token), Class::Only('.')));
        }
        i += 1;
    }
    None
}

/// Why no pull request was created.
#[derive(Clone, Copy, Debug, PartialEq, Eq, Structural)]
pub enum PrError {
    /// The directory is not inside a git repository.
    NotARepository,
    /// There is nothing to commit.
    NothingToCommit,
    /// The command of the stage failed.
    CommandFailed,
}

/// How far the pull request is. Each stage is the command that is run in it.
#[derive(Clone, Copy, Debug, PartialEq, Eq, Structural)]
pub enum Stage {
    AskInside,
    AskBranch,
    Switch { existing: bool },
    Checkout { existing: bool },
    Add,
    AskStatus,
    Commit,
    Push,
    AskGh,
    CreatePr,
    Done { used_gh: bool },
    Failed(PrError),
}

/// The stage that follows once the command of a stage has been run.
pub open spec fn next_stage(stage: Stage, ok: bool, stdout: Seq<char>) -> Stage {
    let failed = Stage::Failed(PrError::CommandFailed);
    match stage {
        Stage::AskInside => if ok && trimmed(stdout) == "true"@ {
            Stage::AskBranch
        } else {
            Stage::Failed(PrError::NotARepository)
        },
        Stage::AskBranch => Stage::Switch { existing: ok },
        Stage::Switch { existing } => if ok {
            Stage::Add
        } else {
            Stage::Checkout { existing }
        },
        Stage::Checkout { existing } => if ok {
            Stage::Add
        } else {
            failed
        },
        Stage::Add => if ok {
            Stage::AskStatus
        } else {
            failed
        },
        Stage::AskStatus => if ok && !is_blank(stdout) {
            Stage::Commit
        } else {
            Stage::Failed(PrError::NothingToCommit)
        },
        Stage::Commit => if ok {
            Stage::Push
        } else {
            failed
        },
        Stage::Push => if ok {
            Stage::AskGh
        } else {
            failed
        },
        Stage::AskGh => if ok {
            Stage::CreatePr
        } else {
            Stage::Done { used_gh: false }
        },
        Stage::CreatePr => if ok {
            Stage::Done { used_gh: true }
        } else {
            failed
        },
        Stage::Done { used_gh } => stage,
        Stage::Failed(e) => stage,
    }
}

/// Whether what the command of a stage prints is kept where it succeeds.
pub open spec fn is_kept(stage: Stage) -> bool {
    match stage {
        Stage::Switch { existing } => true,
        Stage::Checkout { existing } => true,
        Stage::Add | Stage::Commit | Stage::Push | Stage::CreatePr => true,
        _ => false,
    }
}

/// Whether what the command of a stage prints is kept where it succeeds.
pub fn keeps_output(stage: Stage) -> (r: bool)
    ensures
        r == is_kept(stage),
{
    match stage {
        Stage::Switch { existing: _ } => true,
        Stage::Checkout { existing: _ } => true,
        Stage::Add => true,
        Stage::Commit => true,
        Stage::Push => true,
        Stage::CreatePr => true,
        _ => false,
    }
}

/// What is added to the kept errors where there is no `gh`.
pub open spec fn no_gh_note() -> Seq<char> {
    "`gh` not found. Branch pushed; create a PR manually (or install GitHub CLI).\n"@
}

/// What is kept of what the command of a stage printed.
pub open spec fn kept_output(stage: Stage, ok: bool, stdout: Seq<char>) -> Seq<char> {
    if ok && is_kept(stage) {
        stdout
    } else {
        Seq::empty()
    }
}

/// What is kept of the errors that the command of a stage printed.
pub open spec fn kept_errors(stage: Stage, ok: bool, stderr: Seq<char>) -> Seq<char> {
    if ok && is_kept(stage) {
        stderr
    } else if stage == Stage::AskGh && !ok {
        no_gh_note()
    } else {
        Seq::empty()
    }
}

/// The address of the pull request once the command of a stage has been run.
pub open spec fn url_after(
    stage: Stage,
    ok: bool,
    stdout: Seq<char>,
    stderr: Seq<char>,
    url: Option<Seq<char>>,
) -> Option<Seq<char>> {
    if ok && stage == Stage::CreatePr {
        match first_pr_url(words(stdout)) {
            Some(url) => Some(url),
            None => first_pr_url(words(stderr)),
        }
    } else {
        url
    }
}

/// What came of a plan that was carried out.
pub open spec fn created_pr(
    plan: PlanView,
    used_gh: bool,
    pr_url: Option<Seq<char>>,
    stdout: Seq<char>,
    stderr: Seq<char>,
) -> PrResultView {
    PrResultView {
        branch: plan.branch,
        remote: plan.remote,
        pr_url,
        used_gh,
        stdout,
        stderr,
    }
}

/// A program with its arguments.
#[derive(Debug)]
pub struct Program {
    pub name: String,
    pub args: Vec<String>,
}

/// The program and the arguments of a stage.
pub open spec fn command_in(stage: Stage, plan: PlanView) -> Option<(Seq<char>, Seq<Seq<char>>)> {
    match stage {
        Stage::AskInside => Some(("git"@, seq!["rev-parse"@, "--is-inside-work-tree"@])),
        Stage::AskBranch => Some(("git"@, seq!["rev-parse"@, "--verify"@, plan.branch])),
        Stage::Switch { existing } => if existing {
            Some(("git"@, seq!["switch"@, plan.branch]))
        } else {
            Some(("git"@, seq!["switch"@, "-c"@, plan.branch]))
        },
        Stage::Checkout { existing } => if existing {
            Some(("git"@, seq!["checkout"@, plan.branch]))
        } else {
            Some(("git"@, seq!["checkout"@, "-b"@, plan.branch]))
        },
        Stage::Add => Some(("git"@, seq!["add"@, "-A"@])),
        Stage::AskStatus => Some(("git"@, seq!["status"@, "--porcelain"@])),
        Stage::Commit => Some(
            ("git"@, seq!["-c"@, "commit.gpgsign=false"@, "commit"@, "-m"@, plan.title]),
        ),
        Stage::Push => Some(("git"@, seq!["push"@, "-u"@, plan.remote, plan.branch])),
        Stage::AskGh => Some(("gh"@, seq!["--version"@])),
        Stage::CreatePr => match plan.body {
            Some(body) => Some(
                ("gh"@, seq!["pr"@, "create"@, "--title"@, plan.title, "--body"@, body]),
            ),
            None => Some(("gh"@, seq!["pr"@, "create"@, "--title"@, plan.title, "--fill"@])),
        },
        Stage::Done { used_gh } => None,
        Stage::Failed(e) => None,
    }
}

/// A pull request that is being created.
#[derive(Debug)]
pub struct PrFlow {
    pub plan: CreatePrPlan,
    pub stage: Stage,
    pub stdout: String,
    pub stderr: String,
    pub pr_url: Option<String>,
}

fn git(args: Vec<String>) -> (r: Option<Program>)
    ensures
        r matches Some(p) && p.name@ == "git"@ && p.args == args,
{
    Some(Program { name: "git".to_string(), args })
}

fn gh(args: Vec<String>) -> (r: Option<Program>)
    ensures
        r matches Some(p) && p.name@ == "gh"@ && p.args == args,
{
    Some(Program { name: "gh".to_string(), args })
}

impl PrFlow {
    /// Starts on a pull request.
    pub fn new(plan: CreatePrPlan) -> (r: Self)
        ensures
            r.plan == plan,
            r.stage == Stage::AskInside,
            r.stdout@.len() == 0,
            r.stderr@.len() == 0,
            r.pr_url is None,
    {
        PrFlow {
            plan,
            stage: Stage::AskInside,
            stdout: String::new(),
            stderr: String::new(),
            pr_url: None,
        }
    }

    /// The command that is to be run next; none at the end.
    pub fn command(&self) -> (r: Option<Program>)
        ensures
            match r {
                Some(p) => command_in(self.stage, self.plan.deep_view()) == Some(
                    (p.name@, p.args.deep_view()),
                ),
                None => command_in(self.stage, self.plan.deep_view()) is None,
            },
    {
        let plan = &self.plan;
        match self.stage {
            Stage::AskInside => {
                let a = arg_list(&["rev-parse", "--is-inside-work-tree"]);
                assert(a.deep_view() =~= seq!["rev-parse"@, "--is-inside-work-tree"@]);
                git(a)
            },
            Stage::AskBranch => {
                let a = arg_list(&["rev-parse", "--verify", &plan.branch]);
                assert(a.deep_view() =~= seq!["rev-parse"@, "--verify"@, plan.branch@]);
                git(a)
            },
            Stage::Switch { existing } => if existing {
                let a = arg_list(&["switch", &plan.branch]);
                assert(a.deep_view() =~= seq!["switch"@, plan.branch@]);
                git(a)
            } else {
                let a = arg_list(&["switch", "-c", &plan.branch]);
                assert(a.deep_view() =~= seq!["switch"@, "-c"@, plan.branch@]);
                git(a)
            },
            Stage::Checkout { existing } => if existing {
                let a = arg_list(&["checkout", &plan.branch]);
                assert(a.deep_view() =~= seq!["checkout"@, plan.branch@]);
                git(a)
            } else {
                let a = arg_list(&["checkout", "-b", &plan.branch]);
                assert(a.deep_view() =~= seq!["checkout"@, "-b"@, plan.branch@]);
                git(a)
            },
            Stage::Add => {
                let a = arg_list(&["add", "-A"]);
                assert(a.deep_view() =~= seq!["add"@, "-A"@]);
                git(a)
            },
            Stage::AskStatus => {
                let a = arg_list(&["status", "--porcelain"]);
                assert(a.deep_view() =~= seq!["status"@, "--porcelain"@]);
                git(a)
            },
            Stage::Commit => {
                let a = arg_list(&["-c", "commit.gpgsign=false", "commit", "-m", &plan.title]);
                assert(a.deep_view() =~= seq![
                    "-c"@,
                    "commit.gpgsign=false"@,
                    "commit"@,
                    "-m"@,
                    plan.title@,
                ]);
                git(a)
            },
            Stage::Push => {
                let a = arg_list(&["push", "-u", &plan.remote, &plan.branch]);
                assert(a.deep_view() =~= seq!["push"@, "-u"@, plan.remote@, plan.branch@]);
                git(a)
            },
            Stage::AskGh => {
                let a = arg_list(&["--version"]);
                assert(a.deep_view() =~= seq!["--version"@]);
                gh(a)
            },
            Stage::CreatePr => match &plan.body {
                Some(body) => {
                    let a = arg_list(&["pr", "create", "--title", &plan.title, "--body", body]);
                    assert(a.deep_view() =~= seq![
                        "pr"@,
                        "create"@,
                        "--title"@,
                        plan.title@,
                        "--body"@,
                        body@,
                    ]);
                    gh(a)
                },
                None => {
                    let a = arg_list(&["pr", "create", "--title", &plan.title, "--fill"]);
                    assert(a.deep_view() =~= seq![
                        "pr"@,
                        "create"@,
                        "--title"@,
                        plan.title@,
                        "--fill"@,
                    ]);
                    gh(a)
                },
            },
            Stage::Done { used_gh: _ } => None,
            Stage::Failed(_) => None,
        }
    }

    /// Takes what came of the command of the stage.
    pub fn step(&mut self, ran: Ran)
        ensures
            final(self).plan == old(self).plan,
            final(self).stage == next_stage(old(self).stage, ran.ok, ran.stdout@),
            final(self).stdout@ == old(self).stdout@ + kept_output(
                old(self).stage,
                ran.ok,
                ran.stdout@,
            ),
            final(self).stderr@ == old(self).stderr@ + kept_errors(
                old(self).stage,
                ran.ok,
                ran.stderr@,
            ),
            final(self).pr_url.deep_view() == url_after(
                old(self).stage,
                ran.ok,
                ran.stdout@,
                ran.stderr@,
                old(self).pr_url.deep_view(),
            ),
    {
        let ghost out = self.stdout@;
        let ghost err = self.stderr@;
        assert(out + Seq::<char>::empty() =~= out);
        assert(err + Seq::<char>::empty() =~= err);
        if ran.ok && keeps_output(self.stage) {
            self.stdout.append(&ran.stdout);
            self.stderr.append(&ran.stderr);
        }
        let failed = Stage::Failed(PrError::CommandFailed);
        let next = match self.stage {
            Stage::AskInside => if ran.ok && same(&trim(&ran.stdout), "true") {
                Stage::AskBranch
            } else {
                Stage::Failed(PrError::NotARepository)
            },
            Stage::AskBranch => Stage::Switch { existing: ran.ok },
            Stage::Switch { existing } => if ran.ok {
                Stage::Add
            } else {
                Stage::Checkout { existing }
            },
            Stage::Checkout { existing: _ } => if ran.ok {
                Stage::Add
            } else {
                failed
            },
            Stage::Add => if ran.ok {
                Stage::AskStatus
            } else {
                failed
            },
            Stage::AskStatus => if ran.ok && !blank(&ran.stdout) {
                Stage::Commit
            } else {
                Stage::Failed(PrError::NothingToCommit)
            },
            Stage::Commit => if ran.ok {
                Stage::Push
            } else {
                failed
            },
            Stage::Push => if ran.ok {
                Stage::AskGh
            } else {
                failed
            },
            Stage::AskGh => if ran.ok {
                Stage::CreatePr
            } else {
                self.stderr.append(
                    "`gh` not found. Branch pushed; create a PR manually (or install GitHub CLI).\n",
                );
                Stage::Done { used_gh: false }
            },
            Stage::CreatePr => if ran.ok {
                self.pr_url = match parse_first_pr_url(&ran.stdout) {
                    Some(url) => Some(url),
                    None => parse_first_pr_url(&ran.stderr),
                };
                Stage::Done { used_gh: true }
            } else {
                failed
            },
            Stage::Done { used_gh: _ } => self.stage,
            Stage::Failed(_) => self.stage,
        };
        self.stage = next;
    }

    /// What came of it: the result once it is done, the error once it has failed.
    pub fn finish(self) -> (r: Option<Result<PrCreateResult, PrError>>)
        ensures
            match r {
                None => self.stage !is Done && self.stage !is Failed,
                Some(Ok(p)) => self.stage is Done && p.deep_view() == created_pr(
                    self.plan.deep_view(),
                    self.stage->used_gh,
                    self.pr_url.deep_view(),
                    self.stdout@,
                    self.stderr@,
                ),
                Some(Err(e)) => self.stage == Stage::Failed(e),
            },
    {
        match self.stage {
            Stage::Done { used_gh } => Some(
                Ok(
                    PrCreateResult {
                        branch: self.plan.branch,
                        remote: self.plan.remote,
                        pr_url: self.pr_url,
                        used_gh,
                        stdout: self.stdout,
                        stderr: self.stderr,
                    },
                ),
            ),
            Stage::Failed(e) => Some(Err(e)),
            _ => None,
        }
    }
}

/// What the user of a terminal is told where there is no `gh`.
pub fn manual_pr_note(plan: &CreatePrPlan) -> (r: String)
    ensures
        r@ == no_gh_note() + "  branch: "@ + plan.branch@ + "\n  remote: "@ + plan.remote@,
{
    let mut s =
        "`gh` not found. Branch pushed; create a PR manually (or install GitHub CLI).\n".to_string();
    s.append("  branch: ");
    s.append(&plan.branch);
    s.append("\n  remote: ");
    s.append(&plan.remote);
    s
}

impl PrError {
    pub open spec fn text(self, dir: Seq<char>, command: Seq<char>) -> Seq<char> {
        match self {
            PrError::NotARepository => "Not inside a git repository: "@ + dir,
            PrError::NothingToCommit => "No local changes to commit (working tree clean)."@,
            PrError::CommandFailed => command,
        }
    }

    /// What the user is told; of a failed command, what it said itself.
    pub fn message(self, dir: &str, command: &str) -> (r: String)
        ensures
            r@ == self.text(dir@, command@),
    {
        match self {
            PrError::NotARepository => {
                let mut s = "Not inside a git repository: ".to_string();
                s.append(dir);
                s
            },
            PrError::NothingToCommit =>
                "No local changes to commit (working tree clean).".to_string(),
            PrError::CommandFailed => command.to_string(),
        }
    }
}

/// The stages through which a run goes, one command after the other.
pub open spec fn run(stage: Stage, ran: Seq<(bool, Seq<char>)>) -> Stage
    decreases ran.len(),
{
    if ran.len() == 0 {
        stage
    } else {
        let last = ran.last();
        next_stage(run(stage, ran.drop_last()), last.0, last.1)
    }
}

/// How far a stage is along the way.
pub open spec fn rank(stage: Stage) -> nat {
    match stage {
        Stage::AskInside => 0,
        Stage::AskBranch => 1,
        Stage::Switch { existing } => 2,
        Stage::Checkout { existing } => 3,
        Stage::Add => 4,
        Stage::AskStatus => 5,
        Stage::Commit => 6,
        Stage::Push => 7,
        Stage::AskGh => 8,
        Stage::CreatePr => 9,
        Stage::Done { used_gh } => 10,
        Stage::Failed(e) => 10,
    }
}

/// Every command that is run brings the end nearer.
pub proof fn law_creating_a_pr_ends(stage: Stage, ok: bool, stdout: Seq<char>)
    ensures
        rank(stage) < 10 ==> rank(stage) < rank(next_stage(stage, ok, stdout)),
        rank(stage) == 10 ==> next_stage(stage, ok, stdout) == stage,
{
}

/// A pull request is asked for only after a commit and a push that both succeeded, and a commit
/// is made only where git reported changes: a run that reaches `gh pr create` or its end has gone
/// through all of these.
pub proof fn law_a_pr_follows_commit_and_push(ran: Seq<(bool, Seq<char>)>)
    requires
        run(Stage::AskInside, ran) == Stage::CreatePr || run(Stage::AskInside, ran) is Done,
    ensures
        exists|i: int, j: int, k: int|
            0 <= i < j < k < ran.len() && #[trigger] run(Stage::AskInside, ran.take(i))
                == Stage::AskStatus && ran[i].0 && !is_blank(ran[i].1) && #[trigger] run(
                Stage::AskInside,
                ran.take(j),
            ) == Stage::Commit && ran[j].0 && #[trigger] run(Stage::AskInside, ran.take(k))
                == Stage::Push && ran[k].0,
{
    let s = Stage::AskInside;
    let k = lemma_came_through(ran, Stage::Push, 8);
    let j = lemma_came_through(ran.take(k), Stage::Commit, 7);
    let i = lemma_came_through(ran.take(k).take(j), Stage::AskStatus, 6);
    assert(ran.take(k).take(j) == ran.take(j));
    assert(ran.take(j).take(i) == ran.take(i));
    assert(run(s, ran.take(i)) == Stage::AskStatus);
    assert(run(s, ran.take(j)) == Stage::Commit);
    assert(run(s, ran.take(k)) == Stage::Push);
}

/// A run that has got past `stage`, without having failed, has run its command with success.
proof fn lemma_came_through(ran: Seq<(bool, Seq<char>)>, stage: Stage, least: nat) -> (i: int)
    requires
        stage == Stage::Push && least == 8 || stage == Stage::Commit && least == 7 || stage
            == Stage::AskStatus && least == 6,
        rank(run(Stage::AskInside, ran)) >= least,
        run(Stage::AskInside, ran) !is Failed,
    ensures
        0 <= i < ran.len(),
        run(Stage::AskInside, ran.take(i)) == stage,
        ran[i].0,
        next_stage(stage, ran[i].0, ran[i].1) !is Failed,
    decreases ran.len(),
{
    let s = Stage::AskInside;
    let before = run(s, ran.drop_last());
    if before == stage {
        let i = ran.len() - 1;
        assert(ran.take(i) == ran.drop_last());
        i
    } else {
        let i = lemma_came_through(ran.drop_last(), stage, least);
        assert(ran.drop_last().take(i) == ran.take(i));
        i
    }
}

/// The pull request of a task is titled with the title and the id of the task, stands on the branch
/// that was named or on one named after the task, and tells the address of the task.
pub proof fn law_a_pull_request_names_its_task(
    branch: Option<Seq<char>>,
    title: Seq<char>,
    task_id: Seq<char>,
    url: Seq<char>,
)
    ensures
        ({
            let p = task_plan(branch, title, task_id, url);
            &&& p.title == "Codex: "@ + title + " ("@ + task_id + ")"@
            &&& branch is Some ==> p.branch == branch->0
            &&& branch is None ==> has_prefix(p.branch, "codex/task_"@) && has_suffix(
                p.branch,
                task_id,
            ) && p.branch.len() == "codex/task_"@.len() + task_id.len()
            &&& p.body matches Some(b) && has_suffix(b, url)
            &&& p.remote == "origin"@
        }),
{
    lemma_two_parts("codex/task_"@, task_id);
    lemma_two_parts("Created from Codex cloud task: "@, url);
}

/// The commands carry out the plan: the branch is switched to, or created where there is none, all
/// is added, the commit and the pull request have the title, and the branch is pushed to the
/// remote.
pub proof fn law_commands_carry_out_the_plan(plan: PlanView, existing: bool)
    ensures
        command_in(Stage::AskBranch, plan) matches Some((p, a)) && p == "git"@ && a.last()
            == plan.branch,
        command_in(Stage::Switch { existing }, plan) matches Some((p, a)) && p == "git"@ && a[0]
            == "switch"@ && a.last() == plan.branch && (existing <==> a.len() == 2) && (!existing
            ==> a.len() == 3 && a[1] == "-c"@),
        command_in(Stage::Checkout { existing }, plan) matches Some((p, a)) && p == "git"@ && a[0]
            == "checkout"@ && a.last() == plan.branch && (existing <==> a.len() == 2) && (!existing
            ==> a.len() == 3 && a[1] == "-b"@),
        command_in(Stage::Add, plan) matches Some((p, a)) && p == "git"@ && a == seq![
            "add"@,
            "-A"@,
        ],
        command_in(Stage::Commit, plan) matches Some((p, a)) && p == "git"@ && a.contains(
            "commit"@,
        ) && a[a.len() - 2] == "-m"@ && a.last() == plan.title,
        command_in(Stage::Push, plan) matches Some((p, a)) && p == "git"@ && a[0] == "push"@
            && a[a.len() - 2] == plan.remote && a.last() == plan.branch,
        command_in(Stage::AskGh, plan) matches Some((p, a)) && p == "gh"@,
        command_in(Stage::CreatePr, plan) matches Some((p, a)) && p == "gh"@ && a[0] == "pr"@ && a[1]
            == "create"@ && a[2] == "--title"@ && a[3] == plan.title && (plan.body is Some ==> a[4]
            == "--body"@ && a.last() == plan.body->0) && (plan.body is None ==> a.last()
            == "--fill"@),
        command_in(Stage::Done { used_gh: existing }, plan) is None,
{
    let (p, a) = command_in(Stage::Commit, plan)->0;
    assert(a[2] == "commit"@);
}

/// Whether the branch is there decides how it is switched to; where that fails it is checked out in
/// the same way, and the changes are added only once one of the two has succeeded.
pub proof fn law_the_branch_comes_before_the_changes(ok: bool, out: Seq<char>, existing: bool)
    ensures
        next_stage(Stage::AskBranch, ok, out) == (Stage::Switch { existing: ok }),
        next_stage(Stage::Switch { existing }, true, out) == Stage::Add,
        next_stage(Stage::Switch { existing }, false, out) == (Stage::Checkout { existing }),
        next_stage(Stage::Checkout { existing }, true, out) == Stage::Add,
        next_stage(Stage::Checkout { existing }, false, out) == Stage::Failed(
            PrError::CommandFailed,
        ),
        next_stage(Stage::AskInside, ok, out) == if ok && trimmed(out) == "true"@ {
            Stage::AskBranch
        } else {
            Stage::Failed(PrError::NotARepository)
        },
{
}

/// A clean tree ends it: nothing is committed where git reports no changes; and any command that
/// fails on the way to the pull request ends it with an error, but for asking for `gh`, without
/// which the branch is just pushed.
pub proof fn law_a_failure_ends_the_pull_request(out: Seq<char>)
    ensures
        is_blank(out) ==> next_stage(Stage::AskStatus, true, out) == Stage::Failed(
            PrError::NothingToCommit,
        ),
        !is_blank(out) ==> next_stage(Stage::AskStatus, true, out) == Stage::Commit,
        next_stage(Stage::Add, false, out) == Stage::Failed(PrError::CommandFailed),
        next_stage(Stage::Commit, false, out) == Stage::Failed(PrError::CommandFailed),
        next_stage(Stage::Push, false, out) == Stage::Failed(PrError::CommandFailed),
        next_stage(Stage::CreatePr, false, out) == Stage::Failed(PrError::CommandFailed),
        next_stage(Stage::AskGh, false, out) == (Stage::Done { used_gh: false }),
        next_stage(Stage::AskGh, true, out) == Stage::CreatePr,
        next_stage(Stage::CreatePr, true, out) == (Stage::Done { used_gh: true }),
{
}

/// The address of the pull request is the first word that is one, without white space and full
/// stops at its end; there is none where no word is one.
pub proof fn law_the_first_address_is_taken(before: Seq<Seq<char>>, w: Seq<char>, after: Seq<Seq<char>>)
    requires
        forall|i: int|
            0 <= i < before.len() ==> !(has_prefix(#[trigger] before[i], "https://"@) && occurs(
                before[i],
                "github.com"@,
            ) && (occurs(before[i], "/pull/"@) || occurs(before[i], "/pulls/"@))),
    ensures
        has_prefix(w, "https://"@) && occurs(w, "github.com"@) && (occurs(w, "/pull/"@) || occurs(
            w,
            "/pulls/"@,
        )) ==> first_pr_url(before.push(w) + after) == Some(
            end_trimmed(trimmed(w), Class::Only('.')),
        ),
        first_pr_url(before) is None,
    decreases before.len(),
{
    let all = before.push(w) + after;
    if before.len() == 0 {
        assert(all[0] == w);
    } else {
        let rest = before.drop_first();
        assert(all[0] == before[0]);
        assert forall|i: int| 0 <= i < rest.len() implies #[trigger] rest[i] == before[i + 1] by {}
        law_the_first_address_is_taken(rest, w, after);
        assert(all.drop_first() =~= rest.push(w) + after);
    }
}

/// Only what changes something is kept of what commands print; what is just asked is not.
pub proof fn law_answers_are_not_kept(existing: bool)
    ensures
        !is_kept(Stage::AskInside) && !is_kept(Stage::AskBranch) && !is_kept(Stage::AskStatus)
            && !is_kept(Stage::AskGh),
        is_kept(Stage::Switch { existing }) && is_kept(Stage::Checkout { existing }),
        is_kept(Stage::Add) && is_kept(Stage::Commit) && is_kept(Stage::Push) && is_kept(
            Stage::CreatePr,
        ),
{
}

/// What the user is told names the directory where it is no repository, and passes on what a failed
/// command said.
pub proof fn law_a_failed_command_speaks_for_itself(dir: Seq<char>, command: Seq<char>)
    ensures
        PrError::CommandFailed.text(dir, command) == command,
        has_suffix(PrError::NotARepository.text(dir, command), dir),
{
    lemma_two_parts("Not inside a git repository: "@, dir);
}

/// What a command that changes something prints is kept where it succeeds. Of the others nothing
/// is, but for a note where there is no `gh`.
pub proof fn law_what_succeeds_is_kept(stage: Stage, ok: bool, out: Seq<char>, err: Seq<char>)
    ensures
        ok && (stage is Switch || stage is Checkout || stage is Add || stage is Commit || stage is Push
            || stage is CreatePr) ==> kept_output(stage, ok, out) == out && kept_errors(
            stage,
            ok,
            err,
        ) == err,
        !ok || stage is AskInside || stage is AskBranch || stage is AskStatus || stage is AskGh
            || stage is Done || stage is Failed ==> kept_output(stage, ok, out).len() == 0,
        !(stage is AskGh) && (!ok || stage is AskInside || stage is AskBranch || stage is AskStatus
            || stage is Done || stage is Failed) ==> kept_errors(stage, ok, err).len() == 0,
        stage is AskGh && ok ==> kept_errors(stage, ok, err).len() == 0,
        stage is AskGh && !ok ==> has_prefix(kept_errors(stage, ok, err), "`gh` not found."@)
            && has_suffix(kept_errors(stage, ok, err), "\n"@),
{
    reveal_strlit(
        "`gh` not found. Branch pushed; create a PR manually (or install GitHub CLI).\n",
    );
    reveal_strlit("`gh` not found.");
    reveal_strlit("\n");
    let note = no_gh_note();
    assert(note.take("`gh` not found."@.len() as int) =~= "`gh` not found."@);
    assert(note.skip(note.len() - 1) =~= "\n"@);
    lemma_two_parts("`gh` not found."@, note.skip("`gh` not found."@.len() as int));
    assert(note =~= "`gh` not found."@ + note.skip("`gh` not found."@.len() as int));
    lemma_two_parts(note.take(note.len() - 1), "\n"@);
    assert(note =~= note.take(note.len() - 1) + "\n"@);
}

/// Only creating the pull request tells its address: what is printed counts before the errors, and
/// any other command leaves the address as it was.
pub proof fn law_only_creating_tells_the_address(
    stage: Stage,
    ok: bool,
    out: Seq<char>,
    err: Seq<char>,
    url: Option<Seq<char>>,
)
    ensures
        !ok || !(stage is CreatePr) ==> url_after(stage, ok, out, err, url) == url,
        first_pr_url(words(out)) is Some ==> url_after(Stage::CreatePr, true, out, err, url)
            == first_pr_url(words(out)),
        first_pr_url(words(out)) is None ==> url_after(Stage::CreatePr, true, out, err, url)
            == first_pr_url(words(err)),
{
}

/// What came of a plan tells its branch and its remote, and what was found and kept on the way.
pub proof fn law_a_created_pull_request_is_that_of_its_plan(
    plan: PlanView,
    used_gh: bool,
    url: Option<Seq<char>>,
    out: Seq<char>,
    err: Seq<char>,
)
    ensures
        ({
            let p = created_pr(plan, used_gh, url, out, err);
            &&& p.branch == plan.branch
            &&& p.remote == plan.remote
            &&& p.pr_url == url
            &&& p.used_gh == used_gh
            &&& p.stdout == out
            &&& p.stderr == err
        }),
{
}

} // verus!
