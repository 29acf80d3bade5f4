//! A task from its prompt to its pull request, as one run.
use vstd::prelude::*;

use crate::auth::{task_address, task_url};
use crate::input::Narration;
use crate::job::{run_report, ApplyJob, JobNeed, JobView, RunReport, WorktreeArgs};
use crate::model::{copy_text, ApplyOutcome, ApplyStatus, ApplyView, TaskStatus};
use crate::row::{no_items, one_item, put_last};
use crate::watch::{
    law_done_is_told_once_and_last, Look, Need, WatchEventView, WatchOptions, WatchView,
};

verus! {

/// What a run is asked to do once its task is done.
#[derive(Debug)]
pub struct RunArgs {
    pub apply: bool,
    pub create_pr: bool,
    pub pr_branch: Option<String>,
    pub agents: u8,
    pub qa_mode: bool,
    pub base_url: String,
    pub codex_home: String,
    pub env_id: String,
    pub git_ref: String,
    pub worktree: WorktreeArgs,
}

/// What is told on the way.
#[derive(Debug)]
pub enum RunNews {
    /// The task was created.
    Created {
        task_id: String,
        url: String,
        env_id: String,
        git_ref: String,
        agents: u8,
        qa_mode: bool,
    },
    /// The diff was applied, as far as that went; what is told of it stands in the job.
    Applied { task_id: String, url: String, worktree_path: Option<String> },
    /// The pull request was created.
    PrCreated { task_id: String, branch: String, remote: String },
    /// The run is done.
    Complete(RunReport),
}

/// A [`RunNews`] as the contracts speak of it.
pub enum NewsView {
    Created {
        task_id: Seq<char>,
        url: Seq<char>,
        env_id: Seq<char>,
        git_ref: Seq<char>,
        agents: u8,
        qa_mode: bool,
    },
    Applied { task_id: Seq<char>, url: Seq<char>, worktree_path: Option<Seq<char>> },
    PrCreated { task_id: Seq<char>, branch: Seq<char>, remote: Seq<char> },
    Complete {
        task_id: Seq<char>,
        url: Seq<char>,
        status: TaskStatus,
        applied: bool,
        pr_created: bool,
        worktree_path: Option<Seq<char>>,
    },
}

impl DeepView for RunNews {
    type V = NewsView;

    open spec fn deep_view(&self) -> NewsView {
        match self {
            RunNews::Created { task_id, url, env_id, git_ref, agents, qa_mode } =>
                NewsView::Created {
                    task_id: task_id@,
                    url: url@,
                    env_id: env_id@,
                    git_ref: git_ref@,
                    agents: *agents,
                    qa_mode: *qa_mode,
                },
            RunNews::Applied { task_id, url, worktree_path } => NewsView::Applied {
                task_id: task_id@,
                url: url@,
                worktree_path: worktree_path.deep_view(),
            },
            RunNews::PrCreated { task_id, branch, remote } => NewsView::PrCreated {
                task_id: task_id@,
                branch: branch@,
                remote: remote@,
            },
            RunNews::Complete(r) => NewsView::Complete {
                task_id: r.task_id@,
                url: r.url@,
                status: r.status,
                applied: r.applied,
                pr_created: r.pr_created,
                worktree_path: r.worktree_path.deep_view(),
            },
        }
    }
}

/// What is printed of a piece of news on the standard output.
#[derive(Clone, Copy, Debug, PartialEq, Eq, Structural)]
pub enum Telling {
    /// The news as an event.
    Event,
    /// A line with the address of the task.
    Address,
    /// What the job has to report, in words.
    Report,
    /// What came of the run, as JSON.
    Summary,
    /// Nothing.
    Nothing,
}

impl NewsView {
    /// The type of the event in JSON.
    pub open spec fn kind(self) -> Seq<char> {
        match self {
            NewsView::Created { .. } => "created"@,
            NewsView::Applied { .. } => "apply_result"@,
            NewsView::PrCreated { .. } => "pr_created"@,
            NewsView::Complete { .. } => "run_complete"@,
        }
    }

    /// What is printed of the news: each as an event; or, in words, that the task was created and
    /// what came of its diff; or nothing but what came of the run.
    pub open spec fn telling(self, n: Narration) -> Telling {
        match n {
            Narration::Event => Telling::Event,
            Narration::Words => match self {
                NewsView::Created { .. } => Telling::Address,
                NewsView::Applied { .. } => Telling::Report,
                _ => Telling::Nothing,
            },
            Narration::Nothing => match self {
                NewsView::Complete { .. } => Telling::Summary,
                _ => Telling::Nothing,
            },
        }
    }
}

impl RunNews {
    /// What is printed of the news on the standard output.
    pub fn telling(&self, n: Narration) -> (r: Telling)
        ensures
            r == self.deep_view().telling(n),
    {
        match n {
            Narration::Event => Telling::Event,
            Narration::Words => match self {
                RunNews::Created { .. } => Telling::Address,
                RunNews::Applied { .. } => Telling::Report,
                _ => Telling::Nothing,
            },
            Narration::Nothing => match self {
                RunNews::Complete(_) => Telling::Summary,
                _ => Telling::Nothing,
            },
        }
    }

    /// The type of the event in JSON.
    pub fn kind(&self) -> (r: &'static str)
        ensures
            r@ == self.deep_view().kind(),
    {
        match self {
            RunNews::Created { .. } => "created",
            RunNews::Applied { .. } => "apply_result",
            RunNews::PrCreated { .. } => "pr_created",
            RunNews::Complete(_) => "run_complete",
        }
    }
}

/// What is needed next to go on with the run.
#[derive(Clone, Copy, Debug, PartialEq, Eq, Structural)]
pub enum RunNeed {
    /// The task, created.
    Task,
    /// The status in which the task was done.
    Status,
    /// The title of the task.
    Title,
    /// What the job needs.
    Job,
    /// Nothing: the run is done.
    Nothing,
}

/// A run.
#[derive(Debug)]
pub struct Run {
    pub args: RunArgs,
    pub need: RunNeed,
    pub task_id: String,
    pub status: TaskStatus,
    pub title: String,
    pub job: Option<ApplyJob>,
}

/// A [`Run`] as the contracts speak of it.
pub struct RunView {
    pub args: RunArgs,
    pub need: RunNeed,
    pub task_id: Seq<char>,
    pub status: TaskStatus,
    pub title: Seq<char>,
    pub job: Option<JobView>,
}

impl DeepView for Run {
    type V = RunView;

    open spec fn deep_view(&self) -> RunView {
        RunView {
            args: self.args,
            need: self.need,
            task_id: self.task_id@,
            status: self.status,
            title: self.title@,
            job: self.job.deep_view(),
        }
    }
}

/// A run, and what is told of it.
pub struct RunStep {
    pub run: RunView,
    pub news: Seq<NewsView>,
}

impl RunView {
    /// The address of the task.
    pub open spec fn url(self) -> Seq<char> {
        task_address(self.args.base_url@, self.task_id)
    }

    /// What is told at the end.
    pub open spec fn report(self) -> NewsView {
        NewsView::Complete {
            task_id: self.task_id,
            url: self.url(),
            status: self.status,
            applied: self.job matches Some(j) && (j.outcome matches Some(o)
                && o.status.some_applied()),
            pr_created: self.job matches Some(j) && j.pr_created,
            worktree_path: match self.job {
                Some(j) => j.path,
                None => None,
            },
        }
    }

    /// At its end.
    pub open spec fn ended(self) -> RunStep {
        RunStep { run: RunView { need: RunNeed::Nothing, ..self }, news: seq![self.report()] }
    }

    /// With the task created.
    pub open spec fn with_task(self, task_id: Seq<char>) -> RunStep {
        let run = RunView { task_id, need: RunNeed::Status, ..self };
        RunStep {
            run,
            news: seq![
                NewsView::Created {
                    task_id,
                    url: run.url(),
                    env_id: self.args.env_id@,
                    git_ref: self.args.git_ref@,
                    agents: self.args.agents,
                    qa_mode: self.args.qa_mode,
                },
            ],
        }
    }

    /// With the task done: its diff is applied only where that is asked for.
    pub open spec fn with_status(self, status: TaskStatus) -> RunStep {
        let run = RunView { status, ..self };
        if self.args.apply {
            RunStep { run: RunView { need: RunNeed::Title, ..run }, news: Seq::empty() }
        } else {
            run.ended()
        }
    }

    /// With the title of the task.
    pub open spec fn with_title(self, title: Seq<char>) -> RunView {
        RunView {
            title,
            need: RunNeed::Job,
            job: Some(
                JobView::fresh(
                    self.task_id,
                    self.url(),
                    None,
                    false,
                    self.args.create_pr,
                    self.args.pr_branch.deep_view(),
                    self.args.codex_home@,
                    self.args.worktree.deep_view(),
                ),
            ),
            ..self
        }
    }

    /// With the diff applied, as far as that went: told, and followed by a pull request or by the
    /// end.
    pub open spec fn with_outcome(self, o: ApplyView) -> RunStep {
        match self.job {
            None => RunStep { run: self, news: Seq::empty() },
            Some(j) => {
                let done = j.with_outcome(o);
                let told = NewsView::Applied {
                    task_id: self.task_id,
                    url: self.url(),
                    worktree_path: j.path,
                };
                if done.need == JobNeed::Title {
                    RunStep {
                        run: RunView { job: Some(done.with_title(self.title)), ..self },
                        news: seq![told],
                    }
                } else {
                    let e = (RunView { job: Some(done), ..self }).ended();
                    RunStep { run: e.run, news: seq![told, e.news[0]] }
                }
            },
        }
    }

    /// With the pull request created.
    pub open spec fn with_pr(self) -> RunStep {
        match self.job {
            None => RunStep { run: self, news: Seq::empty() },
            Some(j) => {
                let e = (RunView { job: Some(j.with_pr()), ..self }).ended();
                let told = match j.plan {
                    Some(p) => seq![
                        NewsView::PrCreated {
                            task_id: self.task_id,
                            branch: p.branch,
                            remote: p.remote,
                        },
                    ],
                    None => Seq::empty(),
                };
                RunStep { run: e.run, news: told + e.news }
            },
        }
    }
}

/// A copy of what is said of a worktree.
fn copy_worktree(w: &WorktreeArgs) -> (r: WorktreeArgs)
    ensures
        r.deep_view() == w.deep_view(),
{
    WorktreeArgs {
        worktree: w.worktree,
        path: copy_text(&w.path),
        dir: copy_text(&w.dir),
        base_ref: w.base_ref.clone(),
        clean: w.clean,
    }
}

impl Run {
    /// A run that is about to start.
    pub fn new(args: RunArgs) -> (r: Self)
        ensures
            r.deep_view() == (RunView {
                args,
                need: RunNeed::Task,
                task_id: Seq::empty(),
                status: TaskStatus::Pending,
                title: Seq::empty(),
                job: None,
            }),
    {
        Run {
            args,
            need: RunNeed::Task,
            task_id: String::new(),
            status: TaskStatus::Pending,
            title: String::new(),
            job: None,
        }
    }

    /// The address of the task.
    pub fn url(&self) -> (r: String)
        ensures
            r@ == self.deep_view().url(),
    {
        task_url(&self.args.base_url, &self.task_id)
    }

    /// How the task is watched: to its end, with its messages, and with its attempts where there
    /// are many.
    pub fn watch_options(&self) -> (r: WatchOptions)
        ensures
            r == (WatchOptions {
                exit_on_done: true,
                stream_messages: true,
                show_attempts: self.args.agents > 1,
            }),
    {
        WatchOptions {
            exit_on_done: true,
            stream_messages: true,
            show_attempts: self.args.agents > 1,
        }
    }

    fn end(&mut self) -> (r: RunNews)
        ensures
            final(self).deep_view() == old(self).deep_view().ended().run,
            r.deep_view() == old(self).deep_view().report(),
    {
        let url = self.url();
        let report = match &self.job {
            Some(j) => run_report(self.task_id.clone(), url, self.status, Some(j)),
            None => run_report(self.task_id.clone(), url, self.status, None),
        };
        self.need = RunNeed::Nothing;
        RunNews::Complete(report)
    }

    /// Takes the id of the task that was created.
    pub fn take_task(&mut self, task_id: String) -> (r: Vec<RunNews>)
        ensures
            final(self).deep_view() == old(self).deep_view().with_task(task_id@).run,
            r.deep_view() == old(self).deep_view().with_task(task_id@).news,
    {
        self.task_id = task_id;
        self.need = RunNeed::Status;
        one_item(
            RunNews::Created {
                task_id: self.task_id.clone(),
                url: self.url(),
                env_id: self.args.env_id.clone(),
                git_ref: self.args.git_ref.clone(),
                agents: self.args.agents,
                qa_mode: self.args.qa_mode,
            },
        )
    }

    /// Takes the status in which the task was done.
    pub fn take_status(&mut self, status: TaskStatus) -> (r: Vec<RunNews>)
        ensures
            final(self).deep_view() == old(self).deep_view().with_status(status).run,
            r.deep_view() == old(self).deep_view().with_status(status).news,
    {
        self.status = status;
        if self.args.apply {
            self.need = RunNeed::Title;
            no_items()
        } else {
            one_item(self.end())
        }
    }

    /// Takes the title of the task.
    pub fn take_title(&mut self, title: String)
        ensures
            final(self).deep_view() == old(self).deep_view().with_title(title@),
    {
        let job = ApplyJob::new(
            self.task_id.clone(),
            self.url(),
            None,
            false,
            self.args.create_pr,
            copy_text(&self.args.pr_branch),
            self.args.codex_home.clone(),
            copy_worktree(&self.args.worktree),
        );
        self.title = title;
        self.job = Some(job);
        self.need = RunNeed::Job;
    }

    /// Takes the root of the repository and the address of its remote.
    pub fn take_root(&mut self, root: &str, remote: Option<&str>)
        ensures
            final(self).deep_view() == (RunView {
                job: match old(self).deep_view().job {
                    Some(j) => Some(j.with_root(root@, remote.deep_view())),
                    None => None,
                },
                ..old(self).deep_view()
            }),
    {
        if let Some(j) = &mut self.job {
            j.take_root(root, remote);
        }
    }

    /// Goes on once the worktree is ready.
    pub fn take_worktree(&mut self)
        ensures
            final(self).deep_view() == (RunView {
                job: match old(self).deep_view().job {
                    Some(j) => Some(j.with_worktree()),
                    None => None,
                },
                ..old(self).deep_view()
            }),
    {
        if let Some(j) = &mut self.job {
            j.take_worktree();
        }
    }

    /// Takes what came of the diff.
    pub fn take_outcome(&mut self, o: ApplyOutcome) -> (r: Vec<RunNews>)
        ensures
            final(self).deep_view() == old(self).deep_view().with_outcome(o.deep_view()).run,
            r.deep_view() == old(self).deep_view().with_outcome(o.deep_view()).news,
    {
        let url = self.url();
        let task_id = self.task_id.clone();
        let title = self.title.clone();
        let mut more = false;
        let told: RunNews = match &mut self.job {
            None => {
                return no_items();
            },
            Some(j) => {
                let path = copy_text(&j.path);
                j.take_outcome(o);
                if j.need == JobNeed::Title {
                    j.take_title(&title);
                    more = true;
                }
                RunNews::Applied { task_id, url, worktree_path: path }
            },
        };
        let mut news = one_item(told);
        if !more {
            let last = self.end();
            put_last(&mut news, last);
        }
        assert(news.deep_view() =~= old(self).deep_view().with_outcome(o.deep_view()).news);
        news
    }

    /// Goes on once the pull request is created.
    pub fn take_pr(&mut self) -> (r: Vec<RunNews>)
        ensures
            final(self).deep_view() == old(self).deep_view().with_pr().run,
            r.deep_view() == old(self).deep_view().with_pr().news,
    {
        let task_id = self.task_id.clone();
        let mut news: Vec<RunNews> = match &mut self.job {
            None => {
                return no_items();
            },
            Some(j) => {
                j.take_pr();
                match &j.plan {
                    Some(p) => one_item(
                        RunNews::PrCreated {
                            task_id,
                            branch: p.branch.clone(),
                            remote: p.remote.clone(),
                        },
                    ),
                    None => no_items(),
                }
            },
        };
        let last = self.end();
        put_last(&mut news, last);
        assert(news.deep_view() =~= old(self).deep_view().with_pr().news);
        news
    }
}

/// What is printed of a task that was created, in words.
pub fn created_line(url: &str) -> (r: String)
    ensures
        r@ == "Created "@ + url@,
{
    let mut s = "Created ".to_string();
    s.append(url);
    s
}

/// A run that is not asked to apply anything ends with its task: nothing is applied, and no pull
/// request is created.
pub proof fn law_a_run_applies_only_on_request(r: RunView, status: TaskStatus)
    requires
        !r.args.apply,
        r.job is None,
    ensures
        r.with_status(status).run.need == RunNeed::Nothing,
        r.with_status(status).run.job is None,
        r.with_status(status).news == seq![r.with_status(status).run.report()],
        r.with_status(status).run.report() matches NewsView::Complete { applied, pr_created, .. }
            && !applied && !pr_created,
{
}

/// A run creates a pull request only where one is wanted and anything of the diff was applied; it
/// ends without one otherwise, and then says so.
pub proof fn law_a_run_creates_a_pr_only_for_an_applied_diff(r: RunView, title: Seq<char>, o: ApplyView)
    ensures
        ({
            let s = r.with_title(title).with_outcome(o);
            &&& (s.run.job matches Some(j) && (j.need == JobNeed::PullRequest <==> r.args.create_pr
                && o.status.some_applied()))
            &&& s.run.need == RunNeed::Nothing <==> !(r.args.create_pr && o.status.some_applied())
            &&& s.run.need == RunNeed::Nothing ==> (s.news.last() matches NewsView::Complete {
                applied,
                pr_created,
                ..
            } && applied == o.status.some_applied() && !pr_created)
        }),
{
}

/// How many pieces of news are printed.
pub open spec fn printed(news: Seq<NewsView>, n: Narration) -> nat {
    news.filter(|x: NewsView| x.telling(n) != Telling::Nothing).len()
}

proof fn lemma_printed_push(news: Seq<NewsView>, x: NewsView, n: Narration)
    ensures
        printed(news.push(x), n) == printed(news, n) + if x.telling(n) != Telling::Nothing {
            1nat
        } else {
            0nat
        },
        printed(Seq::empty(), n) == 0,
{
    reveal(Seq::filter);
    assert(news.push(x).drop_last() =~= news);
}

/// Where neither events nor words are asked for, a run prints what came of it, and that once: with
/// the step that ends it, and nothing with any other one.
pub proof fn law_a_run_prints_what_came_of_it(
    r: RunView,
    task_id: Seq<char>,
    status: TaskStatus,
    o: ApplyView,
)
    requires
        r.need != RunNeed::Nothing,
    ensures
        printed(r.with_task(task_id).news, Narration::Nothing) == 0,
        ({
            let s = r.with_status(status);
            printed(s.news, Narration::Nothing) == if s.run.need == RunNeed::Nothing {
                1nat
            } else {
                0nat
            }
        }),
        ({
            let s = r.with_outcome(o);
            printed(s.news, Narration::Nothing) == if s.run.need == RunNeed::Nothing {
                1nat
            } else {
                0nat
            }
        }),
        ({
            let s = r.with_pr();
            printed(s.news, Narration::Nothing) == if s.run.need == RunNeed::Nothing {
                1nat
            } else {
                0nat
            }
        }),
{
    let n = Narration::Nothing;
    let none = Seq::<NewsView>::empty();
    let a = r.with_task(task_id).news;
    lemma_printed_push(none, a[0], n);
    assert(none.push(a[0]) =~= a);
    let b = r.with_status(status).news;
    if b.len() > 0 {
        lemma_printed_push(none, b[0], n);
        assert(none.push(b[0]) =~= b);
    } else {
        assert(b =~= none);
    }
    let c = r.with_outcome(o).news;
    lemma_printed_push(none, c[0], n);
    lemma_printed_push(none.push(c[0]), c[1], n);
    if c.len() == 0 {
        assert(c =~= none);
    } else if c.len() == 2 {
        assert(none.push(c[0]).push(c[1]) =~= c);
    } else {
        assert(none.push(c[0]) =~= c);
    }
    let d = r.with_pr().news;
    lemma_printed_push(none, d[0], n);
    lemma_printed_push(none.push(d[0]), d[1], n);
    if d.len() == 0 {
        assert(d =~= none);
    } else if d.len() == 2 {
        assert(none.push(d[0]).push(d[1]) =~= d);
    } else {
        assert(none.push(d[0]) =~= d);
    }
}

impl RunView {
    /// What is told once the task is done, up to the end of the run: with the title of the task,
    /// the root of the repository where there is a worktree, and what came of the diff.
    pub open spec fn told_after(
        self,
        status: TaskStatus,
        title: Seq<char>,
        root: Seq<char>,
        remote: Option<Seq<char>>,
        o: ApplyView,
    ) -> Seq<NewsView> {
        let a = self.with_status(status);
        if a.run.need == RunNeed::Nothing {
            a.news
        } else {
            let b = a.run.with_title(title);
            let j = b.job->0;
            let k = if j.need == JobNeed::Root {
                j.with_root(root, remote).with_worktree()
            } else {
                j
            };
            let c = (RunView { job: Some(k), ..b }).with_outcome(o);
            if c.run.need == RunNeed::Nothing {
                c.news
            } else {
                c.news + c.run.with_pr().news
            }
        }
    }
}

/// The types of the events of a whole run: that the task is created, what is seen of it, and the
/// rest.
pub open spec fn run_kinds(
    created: Seq<NewsView>,
    seen: Seq<WatchEventView>,
    rest: Seq<NewsView>,
) -> Seq<Seq<char>> {
    created.map_values(|x: NewsView| x.kind()) + seen.map_values(|e: WatchEventView| e.kind())
        + rest.map_values(|x: NewsView| x.kind())
}

/// The events of a run come in one order: that the task is created; what is seen of it, with that
/// it is done as the last of these; then what came of its diff and the pull request, as far as
/// these are asked for and happen; and at last that the run is complete.
pub proof fn law_the_events_of_a_run_have_an_order(
    r: RunView,
    task_id: Seq<char>,
    w: WatchView,
    looks: Seq<Look>,
    status: TaskStatus,
    title: Seq<char>,
    root: Seq<char>,
    remote: Option<Seq<char>>,
    o: ApplyView,
)
    requires
        w.need == Need::Summary,
        w.watched(looks).state.need == Need::Nothing,
    ensures
        ({
            let s = r.with_task(task_id);
            let seen = w.watched(looks).events;
            let all = run_kinds(s.news, seen, s.run.told_after(status, title, root, remote, o));
            let n = seen.len() as int;
            let end = all.skip(n + 1);
            &&& s.run.need == RunNeed::Status
            &&& all[0] == "created"@
            &&& forall|i: int| 0 <= i < n ==> #[trigger] all[i + 1] == seen[i].kind()
            &&& n > 0 && seen[n - 1] is Done
            &&& forall|i: int| 0 <= i < n - 1 ==> (#[trigger] seen[i]) !is Done
            &&& end == if !r.args.apply {
                seq!["run_complete"@]
            } else if r.args.create_pr && o.status.some_applied() {
                seq!["apply_result"@, "pr_created"@, "run_complete"@]
            } else {
                seq!["apply_result"@, "run_complete"@]
            }
        }),
{
    law_done_is_told_once_and_last(w, looks);
    let s = r.with_task(task_id);
    let seen = w.watched(looks).events;
    let rest = s.run.told_after(status, title, root, remote, o);
    let all = run_kinds(s.news, seen, rest);
    let tail = rest.map_values(|x: NewsView| x.kind());
    assert(all.skip(seen.len() as int + 1) =~= tail);
    assert(tail =~= if !r.args.apply {
        seq!["run_complete"@]
    } else if r.args.create_pr && o.status.some_applied() {
        seq!["apply_result"@, "pr_created"@, "run_complete"@]
    } else {
        seq!["apply_result"@, "run_complete"@]
    });
}

impl RunView {
    /// With the root of the repository, and the worktree ready, where the run uses one.
    pub open spec fn placed(self, root: Seq<char>, remote: Option<Seq<char>>) -> RunView {
        match self.job {
            Some(j) if j.need == JobNeed::Root => RunView {
                job: Some(j.with_root(root, remote).with_worktree()),
                ..self
            },
            _ => self,
        }
    }
}

/// The pull request of a run is that of the task: its title is the title that was taken, with the
/// id of the task, it stands on the branch that was named, or on one named after the task, and its
/// body tells the address of the task. This is so in a worktree and without one.
pub proof fn law_the_pull_request_of_a_run_is_that_of_its_task(
    r: RunView,
    task_id: Seq<char>,
    status: TaskStatus,
    title: Seq<char>,
    root: Seq<char>,
    remote: Option<Seq<char>>,
    o: ApplyView,
)
    requires
        r.args.apply,
        r.args.create_pr,
        o.status != ApplyStatus::Error,
    ensures
        ({
            let a = r.with_task(task_id).run.with_status(status).run.with_title(title);
            let s = a.placed(root, remote).with_outcome(o).run;
            &&& s.job matches Some(j) && j.need == JobNeed::PullRequest && (j.plan matches Some(p)
                && {
                &&& p.title == "Codex: "@ + title + " ("@ + task_id + ")"@
                &&& r.args.pr_branch.deep_view() matches Some(b) ==> p.branch == b
                &&& r.args.pr_branch.deep_view() is None ==> p.branch == "codex/task_"@ + task_id
                &&& p.body == Some(
                    "Created from Codex cloud task: "@ + task_address(r.args.base_url@, task_id),
                )
                &&& p.remote == "origin"@
            })
            &&& s.title == title
            &&& s.task_id == task_id
        }),
{
}

/// What is told at the start is the task that was created, its address, and what it was asked with.
pub proof fn law_a_created_task_is_told_as_it_was_asked(r: RunView, task_id: Seq<char>)
    ensures
        ({
            let s = r.with_task(task_id);
            &&& s.news.len() == 1
            &&& s.news[0] == (NewsView::Created {
                task_id,
                url: task_address(r.args.base_url@, task_id),
                env_id: r.args.env_id@,
                git_ref: r.args.git_ref@,
                agents: r.args.agents,
                qa_mode: r.args.qa_mode,
            })
            &&& s.run.task_id == task_id
            &&& s.run.args == r.args
            &&& s.run.need == RunNeed::Status
        }),
{
}

/// What is told at the end of a run is what happened in it: of which task, in which status it was
/// done, whether anything of its diff was applied, whether a pull request was created, and where
/// the worktree stands.
pub proof fn law_a_run_is_told_as_it_went(
    r: RunView,
    task_id: Seq<char>,
    status: TaskStatus,
    title: Seq<char>,
    root: Seq<char>,
    remote: Option<Seq<char>>,
    o: ApplyView,
)
    requires
        r.job is None,
    ensures
        ({
            let url = task_address(r.args.base_url@, task_id);
            let a = r.with_task(task_id).run.with_status(status);
            let b = a.run.with_title(title).placed(root, remote);
            let c = b.with_outcome(o);
            let d = c.run.with_pr();
            let place = match b.job {
                Some(j) => j.path,
                None => None,
            };
            let some = o.status == ApplyStatus::Success || o.status == ApplyStatus::Partial;
            &&& !r.args.apply ==> a.news == seq![
                NewsView::Complete {
                    task_id,
                    url,
                    status,
                    applied: false,
                    pr_created: false,
                    worktree_path: None,
                },
            ] && a.run.need == RunNeed::Nothing
            &&& r.args.apply ==> a.news.len() == 0 && a.run.need == RunNeed::Title
            &&& b.need == RunNeed::Job
            &&& b.job matches Some(j) && {
                &&& j.task_id == task_id && j.url == url && j.attempt is None && !j.preflight
                &&& j.create_pr == r.args.create_pr
                &&& j.pr_branch == r.args.pr_branch.deep_view()
                &&& j.codex_home == r.args.codex_home@
                &&& j.worktree == r.args.worktree.deep_view()
                &&& j.path is Some <==> r.args.worktree.deep_view().wanted()
                &&& j.need == JobNeed::Outcome
            }
            &&& c.news.len() > 0 && c.news[0] == (NewsView::Applied {
                task_id,
                url,
                worktree_path: place,
            })
            &&& c.run.job matches Some(j) && j.outcome == Some(o)
            &&& !(r.args.create_pr && some) ==> c.news.len() == 2 && c.news[1] == (
            NewsView::Complete {
                task_id,
                url,
                status,
                applied: some,
                pr_created: false,
                worktree_path: place,
            }) && c.run.need == RunNeed::Nothing
            &&& r.args.create_pr && some ==> c.news.len() == 1 && d.news.len() == 2 && (d.news[0]
                matches NewsView::PrCreated { task_id: t, branch, remote: m } && t == task_id && m
                == "origin"@ && (r.args.pr_branch.deep_view() matches Some(n) ==> branch == n) && (
            r.args.pr_branch.deep_view() is None ==> branch == "codex/task_"@ + task_id))
                && d.news[1] == (NewsView::Complete {
                task_id,
                url,
                status,
                applied: true,
                pr_created: true,
                worktree_path: place,
            }) && d.run.need == RunNeed::Nothing
        }),
{
}

/// In words the address of a new task and what came of its diff are printed, and nothing else;
/// where events are told, every piece of news is one, and otherwise only the end is printed. Each
/// kind of news has a name of its own.
pub proof fn law_news_are_printed_as_asked(x: NewsView, y: NewsView)
    ensures
        x.telling(Narration::Event) == Telling::Event,
        x is Created ==> x.telling(Narration::Words) == Telling::Address,
        x is Applied ==> x.telling(Narration::Words) == Telling::Report,
        x is PrCreated || x is Complete ==> x.telling(Narration::Words) == Telling::Nothing,
        x is Complete ==> x.telling(Narration::Nothing) == Telling::Summary,
        x !is Complete ==> x.telling(Narration::Nothing) == Telling::Nothing,
        x.kind() == y.kind() ==> (x is Created <==> y is Created) && (x is Applied <==> y is Applied)
            && (x is PrCreated <==> y is PrCreated) && (x is Complete <==> y is Complete),
{
    reveal_strlit("created");
    reveal_strlit("apply_result");
    reveal_strlit("pr_created");
    reveal_strlit("run_complete");
    assert("created"@.len() == 7);
    assert("pr_created"@.len() == 10);
    assert("apply_result"@[0] == 'a');
    assert("run_complete"@[0] == 'r');
}

} // verus!
