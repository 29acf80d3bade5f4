//! Applying the diff of a task as one job: where, with which diff, and whether a pull request
//! follows.
use vstd::prelude::*;

use crate::apply::{apply_report, apply_report_lines};
use crate::model::{copy_text, ApplyOutcome, ApplyStatus, ApplyView, TaskStatus};
use crate::pr::{plan_for_task, task_plan, CreatePrPlan, PlanView};
use crate::row::{no_items, one_item, put_all};
use crate::text::{has_suffix, lemma_two_parts};
use crate::worktree::{join_path, path_join, worktree_path_in, worktree_place};

verus! {

/// How a worktree is asked for.
#[derive(Debug)]
pub struct WorktreeArgs {
    pub worktree: bool,
    pub path: Option<String>,
    pub dir: Option<String>,
    pub base_ref: String,
    pub clean: bool,
}

/// A [`WorktreeArgs`] as the contracts speak of it.
pub struct WorktreeArgsView {
    pub worktree: bool,
    pub path: Option<Seq<char>>,
    pub dir: Option<Seq<char>>,
    pub base_ref: Seq<char>,
    pub clean: bool,
}

impl DeepView for WorktreeArgs {
    type V = WorktreeArgsView;

    open spec fn deep_view(&self) -> WorktreeArgsView {
        WorktreeArgsView {
            worktree: self.worktree,
            path: self.path.deep_view(),
            dir: self.dir.deep_view(),
            base_ref: self.base_ref@,
            clean: self.clean,
        }
    }
}

impl WorktreeArgsView {
    /// Whether a worktree is used: where one is asked for, or where its path or the directory of
    /// worktrees is named.
    pub open spec fn wanted(self) -> bool {
        self.worktree || self.path is Some || self.dir is Some
    }
}

impl WorktreeArgs {
    /// Whether a worktree is used.
    pub fn is_wanted(&self) -> (r: bool)
        ensures
            r == self.deep_view().wanted(),
    {
        self.worktree || self.path.is_some() || self.dir.is_some()
    }
}

/// What is needed next to go on with the job.
#[derive(Clone, Copy, Debug, PartialEq, Eq, Structural)]
pub enum JobNeed {
    /// The root of the repository, and the address of its remote.
    Root,
    /// The worktree, made ready.
    Worktree,
    /// What came of applying the diff.
    Outcome,
    /// The title of the task.
    Title,
    /// The pull request.
    PullRequest,
    /// Nothing: the job is done.
    Nothing,
}

/// A diff that is applied as one job.
#[derive(Debug)]
pub struct ApplyJob {
    pub task_id: String,
    pub url: String,
    pub attempt: Option<String>,
    pub preflight: bool,
    pub create_pr: bool,
    pub pr_branch: Option<String>,
    pub codex_home: String,
    pub worktree: WorktreeArgs,
    pub need: JobNeed,
    pub path: Option<String>,
    pub outcome: Option<ApplyOutcome>,
    pub plan: Option<CreatePrPlan>,
    pub pr_created: bool,
}

/// An [`ApplyJob`] as the contracts speak of it.
pub struct JobView {
    pub task_id: Seq<char>,
    pub url: Seq<char>,
    pub attempt: Option<Seq<char>>,
    pub preflight: bool,
    pub create_pr: bool,
    pub pr_branch: Option<Seq<char>>,
    pub codex_home: Seq<char>,
    pub worktree: WorktreeArgsView,
    pub need: JobNeed,
    pub path: Option<Seq<char>>,
    pub outcome: Option<ApplyView>,
    pub plan: Option<PlanView>,
    pub pr_created: bool,
}

impl DeepView for ApplyJob {
    type V = JobView;

    open spec fn deep_view(&self) -> JobView {
        JobView {
            task_id: self.task_id@,
            url: self.url@,
            attempt: self.attempt.deep_view(),
            preflight: self.preflight,
            create_pr: self.create_pr,
            pr_branch: self.pr_branch.deep_view(),
            codex_home: self.codex_home@,
            worktree: self.worktree.deep_view(),
            need: self.need,
            path: self.path.deep_view(),
            outcome: self.outcome.deep_view(),
            plan: self.plan.deep_view(),
            pr_created: self.pr_created,
        }
    }
}

/// Which diff is applied.
#[derive(Debug)]
pub enum DiffChoice {
    /// The one of an attempt.
    Attempt(String),
    /// The one of the task.
    Task,
    /// The one that the backend client finds.
    Found,
}

/// A [`DiffChoice`] as the contracts speak of it.
pub enum ChoiceView {
    Attempt(Seq<char>),
    Task,
    Found,
}

impl DeepView for DiffChoice {
    type V = ChoiceView;

    open spec fn deep_view(&self) -> ChoiceView {
        match self {
            DiffChoice::Attempt(a) => ChoiceView::Attempt(a@),
            DiffChoice::Task => ChoiceView::Task,
            DiffChoice::Found => ChoiceView::Found,
        }
    }
}

/// How a diff is applied: by git in a directory, or by the backend client where none is named; and
/// whether it is just tried.
#[derive(Debug)]
pub struct ApplyAction {
    pub dir: Option<String>,
    pub diff: DiffChoice,
    pub preflight: bool,
}

/// An [`ApplyAction`] as the contracts speak of it.
pub struct ActionView {
    pub dir: Option<Seq<char>>,
    pub diff: ChoiceView,
    pub preflight: bool,
}

impl DeepView for ApplyAction {
    type V = ActionView;

    open spec fn deep_view(&self) -> ActionView {
        ActionView {
            dir: self.dir.deep_view(),
            diff: self.diff.deep_view(),
            preflight: self.preflight,
        }
    }
}

impl JobView {
    /// How the diff is applied: in the worktree where there is one, and otherwise by the backend
    /// client. It is that of the attempt where one is named, and otherwise that of the task, which
    /// the backend client finds by itself.
    pub open spec fn action(self) -> ActionView {
        ActionView {
            dir: self.path,
            diff: match self.attempt {
                Some(a) => ChoiceView::Attempt(a),
                None => if self.path is Some {
                    ChoiceView::Task
                } else {
                    ChoiceView::Found
                },
            },
            preflight: self.preflight,
        }
    }

    /// A job that is about to start.
    pub open spec fn fresh(
        task_id: Seq<char>,
        url: Seq<char>,
        attempt: Option<Seq<char>>,
        preflight: bool,
        create_pr: bool,
        pr_branch: Option<Seq<char>>,
        codex_home: Seq<char>,
        worktree: WorktreeArgsView,
    ) -> JobView {
        JobView {
            task_id,
            url,
            attempt,
            preflight,
            create_pr,
            pr_branch,
            codex_home,
            worktree,
            need: if worktree.wanted() {
                JobNeed::Root
            } else {
                JobNeed::Outcome
            },
            path: None,
            outcome: None,
            plan: None,
            pr_created: false,
        }
    }

    /// The path of the worktree: the one that is named, else one below the directory of worktrees
    /// that is named, else one below the home directory.
    pub open spec fn worktree_path(self, root: Seq<char>, remote: Option<Seq<char>>) -> Seq<char> {
        match self.worktree.path {
            Some(p) => p,
            None => worktree_place(
                match self.worktree.dir {
                    Some(d) => d,
                    None => path_join(self.codex_home, "worktrees"@),
                },
                remote,
                root,
                self.task_id,
                self.attempt,
            ),
        }
    }

    /// With the root of the repository.
    pub open spec fn with_root(self, root: Seq<char>, remote: Option<Seq<char>>) -> JobView {
        JobView {
            path: Some(self.worktree_path(root, remote)),
            need: JobNeed::Worktree,
            ..self
        }
    }

    /// With the worktree ready.
    pub open spec fn with_worktree(self) -> JobView {
        JobView { need: JobNeed::Outcome, ..self }
    }

    /// With what came of the diff: a pull request follows where one is wanted, the diff was not
    /// just tried, and anything of it was applied.
    pub open spec fn with_outcome(self, o: ApplyView) -> JobView {
        JobView {
            outcome: Some(o),
            need: if self.create_pr && !self.preflight && o.status.some_applied() {
                JobNeed::Title
            } else {
                JobNeed::Nothing
            },
            ..self
        }
    }

    /// With the title of the task.
    pub open spec fn with_title(self, title: Seq<char>) -> JobView {
        JobView {
            plan: Some(task_plan(self.pr_branch, title, self.task_id, self.url)),
            need: JobNeed::PullRequest,
            ..self
        }
    }

    /// With the pull request created.
    pub open spec fn with_pr(self) -> JobView {
        JobView { pr_created: true, need: JobNeed::Nothing, ..self }
    }
}

impl ApplyJob {
    /// A job that is about to start.
    pub fn new(
        task_id: String,
        url: String,
        attempt: Option<String>,
        preflight: bool,
        create_pr: bool,
        pr_branch: Option<String>,
        codex_home: String,
        worktree: WorktreeArgs,
    ) -> (r: Self)
        ensures
            r.deep_view() == JobView::fresh(
                task_id@,
                url@,
                attempt.deep_view(),
                preflight,
                create_pr,
                pr_branch.deep_view(),
                codex_home@,
                worktree.deep_view(),
            ),
    {
        let need = if worktree.is_wanted() {
            JobNeed::Root
        } else {
            JobNeed::Outcome
        };
        ApplyJob {
            task_id,
            url,
            attempt,
            preflight,
            create_pr,
            pr_branch,
            codex_home,
            worktree,
            need,
            path: None,
            outcome: None,
            plan: None,
            pr_created: false,
        }
    }

    /// Takes the root of the repository and the address of its remote.
    pub fn take_root(&mut self, root: &str, remote: Option<&str>)
        ensures
            final(self).deep_view() == old(self).deep_view().with_root(root@, remote.deep_view()),
    {
        let path = match &self.worktree.path {
            Some(p) => p.clone(),
            None => {
                let dir = match &self.worktree.dir {
                    Some(d) => d.clone(),
                    None => join_path(&self.codex_home, "worktrees"),
                };
                match &self.attempt {
                    Some(a) => worktree_path_in(&dir, remote, root, &self.task_id, Some(a)),
                    None => worktree_path_in(&dir, remote, root, &self.task_id, None),
                }
            },
        };
        self.path = Some(path);
        self.need = JobNeed::Worktree;
    }

    /// Goes on once the worktree is ready.
    pub fn take_worktree(&mut self)
        ensures
            final(self).deep_view() == old(self).deep_view().with_worktree(),
    {
        self.need = JobNeed::Outcome;
    }

    /// How the diff is applied.
    pub fn apply_action(&self) -> (r: ApplyAction)
        ensures
            r.deep_view() == self.deep_view().action(),
    {
        let diff = match &self.attempt {
            Some(a) => DiffChoice::Attempt(a.clone()),
            None => if self.path.is_some() {
                DiffChoice::Task
            } else {
                DiffChoice::Found
            },
        };
        ApplyAction { dir: copy_text(&self.path), diff, preflight: self.preflight }
    }

    /// Takes what came of the diff.
    pub fn take_outcome(&mut self, o: ApplyOutcome)
        ensures
            final(self).deep_view() == old(self).deep_view().with_outcome(o.deep_view()),
    {
        self.need = if self.create_pr && !self.preflight && o.status.applied_some() {
            JobNeed::Title
        } else {
            JobNeed::Nothing
        };
        self.outcome = Some(o);
    }

    /// Takes the title of the task.
    pub fn take_title(&mut self, title: &str)
        ensures
            final(self).deep_view() == old(self).deep_view().with_title(title@),
    {
        self.plan =
        Some(plan_for_task(copy_text(&self.pr_branch), title, &self.task_id, &self.url));
        self.need = JobNeed::PullRequest;
    }

    /// Goes on once the pull request is created.
    pub fn take_pr(&mut self)
        ensures
            final(self).deep_view() == old(self).deep_view().with_pr(),
    {
        self.pr_created = true;
        self.need = JobNeed::Nothing;
    }

    /// Whether what is printed as JSON tells of the worktree and of the pull request too.
    pub fn tells_all(&self) -> (r: bool)
        ensures
            r == (self.deep_view().worktree.wanted() || self.create_pr),
    {
        self.worktree.is_wanted() || self.create_pr
    }

    /// What is printed of the job in words.
    pub fn report(&self) -> (r: Vec<String>)
        ensures
            r.deep_view() == job_lines(self.deep_view()),
    {
        let mut out: Vec<String> = match &self.path {
            Some(p) => {
                let mut s = "worktree: ".to_string();
                s.append(p);
                one_item(s)
            },
            None => no_items(),
        };
        match &self.outcome {
            Some(o) => {
                put_all(&mut out, apply_report(o));
            },
            None => {
                put_all(&mut out, no_items());
            },
        }
        out
    }

    /// Whether anything of the diff was applied.
    pub fn applied_some(&self) -> (r: bool)
        ensures
            r == (self.deep_view().outcome matches Some(o) && o.status.some_applied()),
    {
        match &self.outcome {
            Some(o) => o.status.applied_some(),
            None => false,
        }
    }
}

/// What is printed of a job in words.
pub open spec fn job_lines(j: JobView) -> Seq<Seq<char>> {
    (match j.path {
        Some(p) => seq!["worktree: "@ + p],
        None => Seq::empty(),
    }) + (match j.outcome {
        Some(o) => apply_report_lines(o),
        None => Seq::empty(),
    })
}

/// What is told at the end of a run.
#[derive(Debug)]
pub struct RunReport {
    pub task_id: String,
    pub url: String,
    pub status: TaskStatus,
    pub applied: bool,
    pub pr_created: bool,
    pub worktree_path: Option<String>,
}

/// What a run that has ended tells of its job: whether anything was applied, whether there is a
/// pull request, and where the worktree is.
pub open spec fn run_end(job: Option<JobView>) -> (bool, bool, Option<Seq<char>>) {
    match job {
        Some(j) => (
            j.outcome matches Some(o) && o.status.some_applied(),
            j.pr_created,
            j.path,
        ),
        None => (false, false, None),
    }
}

/// What is told at the end of a run: of the task that was watched, and of the job where its diff
/// was to be applied.
pub fn run_report(task_id: String, url: String, status: TaskStatus, job: Option<&ApplyJob>) -> (r:
    RunReport)
    ensures
        r.task_id == task_id,
        r.url == url,
        r.status == status,
        (r.applied, r.pr_created, r.worktree_path.deep_view()) == run_end(
            match job {
                Some(j) => Some(j.deep_view()),
                None => None,
            },
        ),
{
    match job {
        Some(j) => RunReport {
            task_id,
            url,
            status,
            applied: j.applied_some(),
            pr_created: j.pr_created,
            worktree_path: copy_text(&j.path),
        },
        None => RunReport {
            task_id,
            url,
            status,
            applied: false,
            pr_created: false,
            worktree_path: None,
        },
    }
}

/// A diff that is just tried brings about no pull request, and neither does one of which nothing
/// was applied, nor a job that wants none.
pub proof fn law_a_pr_needs_an_applied_diff(j: JobView, o: ApplyView)
    ensures
        j.with_outcome(o).need == JobNeed::Title <==> j.create_pr && !j.preflight
            && o.status.some_applied(),
        j.with_outcome(o).need == JobNeed::Title || j.with_outcome(o).need == JobNeed::Nothing,
{
}

/// A job without a worktree never asks for the root of the repository, and has no path to report;
/// one with a worktree applies the diff only after both.
pub proof fn law_a_worktree_comes_before_the_diff(
    task_id: Seq<char>,
    url: Seq<char>,
    attempt: Option<Seq<char>>,
    preflight: bool,
    create_pr: bool,
    pr_branch: Option<Seq<char>>,
    home: Seq<char>,
    w: WorktreeArgsView,
    root: Seq<char>,
    remote: Option<Seq<char>>,
)
    ensures
        ({
            let j = JobView::fresh(
                task_id,
                url,
                attempt,
                preflight,
                create_pr,
                pr_branch,
                home,
                w,
            );
            &&& w.wanted() ==> j.need == JobNeed::Root && j.with_root(root, remote).need
                == JobNeed::Worktree && j.with_root(root, remote).with_worktree().need
                == JobNeed::Outcome && j.with_root(root, remote).with_worktree().path is Some
            &&& !w.wanted() ==> j.need == JobNeed::Outcome && j.path is None
        }),
{
}

/// A job applies its diff in its worktree, where it uses one, and nowhere else; and one that just
/// tries the diff never applies it.
pub proof fn law_a_diff_is_applied_where_the_job_stands(
    task_id: Seq<char>,
    url: Seq<char>,
    attempt: Option<Seq<char>>,
    preflight: bool,
    create_pr: bool,
    pr_branch: Option<Seq<char>>,
    home: Seq<char>,
    w: WorktreeArgsView,
    root: Seq<char>,
    remote: Option<Seq<char>>,
)
    ensures
        ({
            let j = JobView::fresh(
                task_id,
                url,
                attempt,
                preflight,
                create_pr,
                pr_branch,
                home,
                w,
            );
            let k = if w.wanted() {
                j.with_root(root, remote).with_worktree()
            } else {
                j
            };
            &&& k.need == JobNeed::Outcome
            &&& k.action().dir == if w.wanted() {
                Some(j.worktree_path(root, remote))
            } else {
                None
            }
            &&& k.action().preflight == preflight
        }),
{
}

/// A worktree is used where one is asked for, where its path is named, and where its directory is.
pub proof fn law_a_worktree_is_used_on_request(w: WorktreeArgsView)
    ensures
        w.worktree ==> w.wanted(),
        w.path is Some ==> w.wanted(),
        w.dir is Some ==> w.wanted(),
        !w.worktree && w.path is None && w.dir is None ==> !w.wanted(),
{
}

/// The worktree of a job stands where it is said to stand; else below the directory of worktrees
/// that is named, and else below that of the home directory, at a place of its own for each
/// repository, task and attempt. The rest of the job is left alone.
pub proof fn law_a_worktree_stands_where_it_is_put(
    j: JobView,
    root: Seq<char>,
    remote: Option<Seq<char>>,
)
    ensures
        ({
            let k = j.with_root(root, remote);
            &&& j.worktree.path is Some ==> k.path == j.worktree.path
            &&& j.worktree.path is None && j.worktree.dir is Some ==> k.path == Some(
                worktree_place(j.worktree.dir->0, remote, root, j.task_id, j.attempt),
            )
            &&& j.worktree.path is None && j.worktree.dir is None ==> k.path == Some(
                worktree_place(
                    path_join(j.codex_home, "worktrees"@),
                    remote,
                    root,
                    j.task_id,
                    j.attempt,
                ),
            )
            &&& k.task_id == j.task_id && k.url == j.url && k.attempt == j.attempt
            &&& k.preflight == j.preflight && k.create_pr == j.create_pr
            &&& k.pr_branch == j.pr_branch && k.worktree == j.worktree
        }),
{
}

/// The diff that is applied is that of the attempt that is named; where none is, it is that of the
/// task, which is asked for where git applies it in a worktree, and found by the backend client
/// where that applies it.
pub proof fn law_the_named_attempt_is_applied(j: JobView)
    ensures
        j.attempt matches Some(a) ==> j.action().diff == ChoiceView::Attempt(a),
        j.attempt is None && j.path is Some ==> j.action().diff == ChoiceView::Task,
        j.attempt is None && j.path is None ==> j.action().diff == ChoiceView::Found,
        j.action().dir == j.path,
        j.action().preflight == j.preflight,
{
}

/// The pull request of a job is that of its task: titled with the title and the id of the task, on
/// the branch that was named or on one named after the task, and with the address of the task in
/// its body. It counts as created only once it is.
pub proof fn law_the_pull_request_of_a_job_is_that_of_its_task(
    j: JobView,
    o: ApplyView,
    title: Seq<char>,
)
    requires
        j.create_pr,
        !j.preflight,
        o.status != ApplyStatus::Error,
    ensures
        ({
            let k = j.with_outcome(o);
            let p = k.with_title(title);
            &&& k.need == JobNeed::Title
            &&& k.outcome == Some(o)
            &&& k.path == j.path
            &&& p.need == JobNeed::PullRequest
            &&& p.pr_created == j.pr_created
            &&& p.outcome == Some(o)
            &&& p.plan matches Some(plan) && {
                &&& plan.title == "Codex: "@ + title + " ("@ + j.task_id + ")"@
                &&& j.pr_branch is Some ==> plan.branch == j.pr_branch->0
                &&& j.pr_branch is None ==> plan.branch == "codex/task_"@ + j.task_id
                &&& plan.body matches Some(b) && has_suffix(b, j.url)
                &&& plan.remote == "origin"@
            }
            &&& p.with_pr().pr_created
            &&& p.with_pr().need == JobNeed::Nothing
            &&& p.with_pr().plan == p.plan
            &&& p.with_pr().outcome == Some(o)
        }),
{
    lemma_two_parts("Created from Codex cloud task: "@, j.url);
}

/// A job starts with what it is given, with nothing applied and no pull request created; what came
/// of its diff is kept, whether a pull request follows or not.
pub proof fn law_a_job_keeps_what_it_is_given(
    task_id: Seq<char>,
    url: Seq<char>,
    attempt: Option<Seq<char>>,
    preflight: bool,
    create_pr: bool,
    pr_branch: Option<Seq<char>>,
    home: Seq<char>,
    w: WorktreeArgsView,
    o: ApplyView,
)
    ensures
        ({
            let j = JobView::fresh(
                task_id,
                url,
                attempt,
                preflight,
                create_pr,
                pr_branch,
                home,
                w,
            );
            &&& j.task_id == task_id && j.url == url && j.attempt == attempt
            &&& j.preflight == preflight && j.create_pr == create_pr && j.pr_branch == pr_branch
            &&& j.codex_home == home && j.worktree == w
            &&& j.path is None && j.outcome is None && j.plan is None && !j.pr_created
            &&& j.with_outcome(o).outcome == Some(o)
            &&& j.with_outcome(o).task_id == task_id
            &&& j.with_outcome(o).url == url
            &&& j.with_worktree().path == j.path
            &&& j.with_worktree().attempt == attempt
        }),
{
}

/// A job is reported by its worktree, where it has one, and by what came of its diff.
pub proof fn law_a_job_is_reported_by_place_and_outcome(j: JobView)
    ensures
        j.path matches Some(p) ==> job_lines(j).len() > 0 && job_lines(j)[0] == "worktree: "@ + p,
        j.outcome matches Some(o) ==> job_lines(j).skip(
            if j.path is Some {
                1
            } else {
                0
            },
        ) == apply_report_lines(o),
        j.outcome is None ==> job_lines(j).len() == if j.path is Some {
            1int
        } else {
            0
        },
{
    match j.outcome {
        Some(o) => {
            assert(job_lines(j).skip(
                if j.path is Some {
                    1
                } else {
                    0
                },
            ) =~= apply_report_lines(o));
        },
        None => {},
    }
}

/// A run is told to have applied something where git said that all or part of the diff went in, to
/// have created a pull request where the job did, and to have the worktree of the job; without a
/// job nothing was done.
pub proof fn law_the_end_of_a_run_is_that_of_its_job(j: JobView)
    ensures
        run_end(Some(j)).0 <==> j.outcome is Some && (j.outcome->0.status == ApplyStatus::Success
            || j.outcome->0.status == ApplyStatus::Partial),
        run_end(Some(j)).1 == j.pr_created,
        run_end(Some(j)).2 == j.path,
        !run_end(None).0 && !run_end(None).1 && run_end(None).2 is None,
{
}

} // verus!
