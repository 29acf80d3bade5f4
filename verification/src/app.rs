//! The state of the terminal interface.
use vstd::prelude::*;

use crate::auth::{task_address, task_url};
use crate::details::{least_one, DetailsState, DetailsView};
use crate::env_api::{
    copy_env, fill, filled, find_env, find_pinned, first_pinned, place, EnvView, Environment,
};
use crate::env_list::{is_listed, listed};
use crate::model::{copy_text, ApplyOutcome, ApplyView, TaskSummary, TaskView};
use crate::pr::{
    default_branch, plan_for_task, task_branch, task_plan, CreatePrPlan, PlanView, PrCreateResult,
    PrResultView,
};
use crate::row::{no_items, one_item, put_all, put_last};
use crate::text::{blank, is_blank, occurs, trim, trimmed};
use crate::unicode::lowercase;
use crate::worktree::{join_path, path_join};

verus! {

/// What an environment is picked for.
#[derive(Clone, Copy, Debug, PartialEq, Eq, Structural)]
pub enum EnvModalTarget {
    Filter,
    NewTask,
}

/// The choice of an environment.
#[derive(Debug)]
pub struct EnvModalState {
    pub query: String,
    pub selected: usize,
    pub target: EnvModalTarget,
}

/// An [`EnvModalState`] as the contracts speak of it.
pub struct EnvModalView {
    pub query: Seq<char>,
    pub selected: int,
    pub target: EnvModalTarget,
}

impl DeepView for EnvModalState {
    type V = EnvModalView;

    open spec fn deep_view(&self) -> EnvModalView {
        EnvModalView {
            query: self.query@,
            selected: self.selected as int,
            target: self.target,
        }
    }
}

/// The choice of a number of attempts: the first place stands for one attempt, the last for four.
#[derive(Clone, Copy, Debug, PartialEq, Eq, Structural)]
pub struct AttemptsModalState {
    pub selected: usize,
}

impl DeepView for AttemptsModalState {
    type V = int;

    open spec fn deep_view(&self) -> int {
        self.selected as int
    }
}

/// A task that is being written, but for its prompt.
#[derive(Debug)]
pub struct NewTaskState {
    pub env_id: Option<String>,
    pub env_label: Option<String>,
    pub attempts: usize,
    pub qa_mode: bool,
    pub git_ref: String,
    pub submitting: bool,
}

/// A [`NewTaskState`] as the contracts speak of it.
pub struct NewTaskView {
    pub env_id: Option<Seq<char>>,
    pub env_label: Option<Seq<char>>,
    pub attempts: int,
    pub qa_mode: bool,
    pub git_ref: Seq<char>,
    pub submitting: bool,
}

impl DeepView for NewTaskState {
    type V = NewTaskView;

    open spec fn deep_view(&self) -> NewTaskView {
        NewTaskView {
            env_id: self.env_id.deep_view(),
            env_label: self.env_label.deep_view(),
            attempts: self.attempts as int,
            qa_mode: self.qa_mode,
            git_ref: self.git_ref@,
            submitting: self.submitting,
        }
    }
}

impl NewTaskView {
    /// A task of which nothing has been written.
    pub open spec fn fresh(
        env_id: Option<Seq<char>>,
        env_label: Option<Seq<char>>,
        git_ref: Seq<char>,
    ) -> NewTaskView {
        NewTaskView { env_id, env_label, attempts: 1, qa_mode: false, git_ref, submitting: false }
    }
}

impl NewTaskState {
    /// A task of which nothing has been written.
    pub fn new(env_id: Option<String>, env_label: Option<String>, git_ref: String) -> (r: Self)
        ensures
            r.deep_view() == NewTaskView::fresh(env_id.deep_view(), env_label.deep_view(), git_ref@),
    {
        NewTaskState { env_id, env_label, attempts: 1, qa_mode: false, git_ref, submitting: false }
    }
}

/// How far applying a diff is.
#[derive(Clone, Copy, Debug, PartialEq, Eq, Structural)]
pub enum ApplyStage {
    PreflightRunning,
    PreflightDone,
    Applying,
    Done,
}

impl ApplyStage {
    /// Whether something is being run.
    pub open spec fn running(self) -> bool {
        self == ApplyStage::PreflightRunning || self == ApplyStage::Applying
    }

    /// Whether something is being run.
    pub fn is_running(self) -> (r: bool)
        ensures
            r == self.running(),
    {
        match self {
            ApplyStage::PreflightRunning => true,
            ApplyStage::Applying => true,
            ApplyStage::PreflightDone => false,
            ApplyStage::Done => false,
        }
    }
}

/// A diff that is being applied.
#[derive(Debug)]
pub struct ApplyModalState {
    pub task_id: String,
    pub title: String,
    pub attempt_label: String,
    pub diff: String,
    pub use_worktree: bool,
    pub worktree_path: Option<String>,
    pub create_pr: bool,
    pub pr_branch: String,
    pub stage: ApplyStage,
    pub preflight: Option<ApplyOutcome>,
    pub apply: Option<ApplyOutcome>,
    pub pr: Option<PrCreateResult>,
    pub error: Option<String>,
}

/// An [`ApplyModalState`] as the contracts speak of it.
pub struct ApplyModalView {
    pub task_id: Seq<char>,
    pub title: Seq<char>,
    pub attempt_label: Seq<char>,
    pub diff: Seq<char>,
    pub use_worktree: bool,
    pub worktree_path: Option<Seq<char>>,
    pub create_pr: bool,
    pub pr_branch: Seq<char>,
    pub stage: ApplyStage,
    pub preflight: Option<ApplyView>,
    pub apply: Option<ApplyView>,
    pub pr: Option<PrResultView>,
    pub error: Option<Seq<char>>,
}

impl DeepView for ApplyModalState {
    type V = ApplyModalView;

    open spec fn deep_view(&self) -> ApplyModalView {
        ApplyModalView {
            task_id: self.task_id@,
            title: self.title@,
            attempt_label: self.attempt_label@,
            diff: self.diff@,
            use_worktree: self.use_worktree,
            worktree_path: self.worktree_path.deep_view(),
            create_pr: self.create_pr,
            pr_branch: self.pr_branch@,
            stage: self.stage,
            preflight: self.preflight.deep_view(),
            apply: self.apply.deep_view(),
            pr: self.pr.deep_view(),
            error: self.error.deep_view(),
        }
    }
}

impl ApplyModalView {
    /// A diff that is about to be tried.
    pub open spec fn fresh(
        task_id: Seq<char>,
        title: Seq<char>,
        attempt_label: Seq<char>,
        diff: Seq<char>,
        use_worktree: bool,
    ) -> ApplyModalView {
        ApplyModalView {
            task_id,
            title,
            attempt_label,
            diff,
            use_worktree,
            worktree_path: None,
            create_pr: false,
            pr_branch: task_branch(task_id),
            stage: ApplyStage::PreflightRunning,
            preflight: None,
            apply: None,
            pr: None,
            error: None,
        }
    }

    /// Being tried.
    pub open spec fn preflighting(self) -> ApplyModalView {
        ApplyModalView {
            stage: ApplyStage::PreflightRunning,
            preflight: None,
            apply: None,
            pr: None,
            error: None,
            ..self
        }
    }

    /// Being applied.
    pub open spec fn applying(self) -> ApplyModalView {
        ApplyModalView {
            stage: ApplyStage::Applying,
            apply: None,
            pr: None,
            error: None,
            ..self
        }
    }
}

impl ApplyModalState {
    /// A diff that is about to be tried.
    pub fn new(
        task_id: String,
        title: String,
        attempt_label: String,
        diff: String,
        default_worktree: bool,
    ) -> (r: Self)
        ensures
            r.deep_view() == ApplyModalView::fresh(
                task_id@,
                title@,
                attempt_label@,
                diff@,
                default_worktree,
            ),
    {
        let pr_branch = default_branch(&task_id);
        ApplyModalState {
            task_id,
            title,
            attempt_label,
            diff,
            use_worktree: default_worktree,
            worktree_path: None,
            create_pr: false,
            pr_branch,
            stage: ApplyStage::PreflightRunning,
            preflight: None,
            apply: None,
            pr: None,
            error: None,
        }
    }
}

/// What is to be done outside of the state.
#[derive(Debug)]
pub enum Effect {
    /// Ask for all environments.
    LoadEnvs,
    /// Ask for the tasks of an environment, or of all of them.
    ListTasks { generation: u64, env: Option<String>, limit: i64 },
    /// Ask for all that is known of a task.
    LoadDetails { task_id: String },
    /// Create a task.
    CreateTask {
        env_id: String,
        prompt: String,
        git_ref: String,
        qa_mode: bool,
        attempts: usize,
    },
    /// Try a diff, or apply it.
    RunApply {
        task_id: String,
        diff: String,
        use_worktree: bool,
        worktree_dir: String,
        preflight: bool,
    },
    /// Create a pull request from a directory, or from the current one.
    CreatePr { task_id: String, dir: Option<String>, plan: CreatePrPlan },
    /// Ask git for the current branch, and open a new task on it.
    OpenNewTask,
    /// Hand the key to the text of the new task.
    Compose,
}

/// An [`Effect`] as the contracts speak of it.
pub enum EffectView {
    LoadEnvs,
    ListTasks { generation: u64, env: Option<Seq<char>>, limit: i64 },
    LoadDetails { task_id: Seq<char> },
    CreateTask {
        env_id: Seq<char>,
        prompt: Seq<char>,
        git_ref: Seq<char>,
        qa_mode: bool,
        attempts: int,
    },
    RunApply {
        task_id: Seq<char>,
        diff: Seq<char>,
        use_worktree: bool,
        worktree_dir: Seq<char>,
        preflight: bool,
    },
    CreatePr { task_id: Seq<char>, dir: Option<Seq<char>>, plan: PlanView },
    OpenNewTask,
    Compose,
}

impl DeepView for Effect {
    type V = EffectView;

    open spec fn deep_view(&self) -> EffectView {
        match self {
            Effect::LoadEnvs => EffectView::LoadEnvs,
            Effect::ListTasks { generation, env, limit } => EffectView::ListTasks {
                generation: *generation,
                env: env.deep_view(),
                limit: *limit,
            },
            Effect::LoadDetails { task_id } => EffectView::LoadDetails { task_id: task_id@ },
            Effect::CreateTask { env_id, prompt, git_ref, qa_mode, attempts } =>
                EffectView::CreateTask {
                    env_id: env_id@,
                    prompt: prompt@,
                    git_ref: git_ref@,
                    qa_mode: *qa_mode,
                    attempts: *attempts as int,
                },
            Effect::RunApply { task_id, diff, use_worktree, worktree_dir, preflight } =>
                EffectView::RunApply {
                    task_id: task_id@,
                    diff: diff@,
                    use_worktree: *use_worktree,
                    worktree_dir: worktree_dir@,
                    preflight: *preflight,
                },
            Effect::CreatePr { task_id, dir, plan } => EffectView::CreatePr {
                task_id: task_id@,
                dir: dir.deep_view(),
                plan: plan.deep_view(),
            },
            Effect::OpenNewTask => EffectView::OpenNewTask,
            Effect::Compose => EffectView::Compose,
        }
    }
}

/// All that the terminal interface knows. Points in time are counted in nanoseconds from any fixed
/// one, intervals in seconds.
#[derive(Debug)]
pub struct App {
    pub base_url: String,
    pub tasks: Vec<TaskSummary>,
    pub selected: usize,
    pub list_generation: u64,
    pub list_refresh_inflight: bool,
    pub last_list_refresh: u128,
    pub list_refresh_interval: u64,
    pub detail_refresh_interval: u64,
    pub limit: i64,
    pub env_filter: Option<String>,
    pub env_filter_label: Option<String>,
    pub envs: Vec<Environment>,
    pub env_loading: bool,
    pub env_error: Option<String>,
    pub env_modal: Option<EnvModalState>,
    pub attempts_modal: Option<AttemptsModalState>,
    pub new_task: Option<NewTaskState>,
    pub details: Option<DetailsState>,
    pub apply_modal: Option<ApplyModalState>,
    pub show_help: bool,
    pub status: String,
    pub spinner: usize,
    pub worktree_dir: String,
}

/// An [`App`] as the contracts speak of it.
pub struct AppView {
    pub base_url: Seq<char>,
    pub tasks: Seq<TaskView>,
    pub selected: int,
    pub list_generation: u64,
    pub list_refresh_inflight: bool,
    pub last_list_refresh: int,
    pub list_refresh_interval: int,
    pub detail_refresh_interval: int,
    pub limit: i64,
    pub env_filter: Option<Seq<char>>,
    pub env_filter_label: Option<Seq<char>>,
    pub envs: Seq<EnvView>,
    pub env_loading: bool,
    pub env_error: Option<Seq<char>>,
    pub env_modal: Option<EnvModalView>,
    pub attempts_modal: Option<int>,
    pub new_task: Option<NewTaskView>,
    pub details: Option<DetailsView>,
    pub apply_modal: Option<ApplyModalView>,
    pub show_help: bool,
    pub status: Seq<char>,
    pub spinner: usize,
    pub worktree_dir: Seq<char>,
}

impl DeepView for App {
    type V = AppView;

    open spec fn deep_view(&self) -> AppView {
        AppView {
            base_url: self.base_url@,
            tasks: self.tasks.deep_view(),
            selected: self.selected as int,
            list_generation: self.list_generation,
            list_refresh_inflight: self.list_refresh_inflight,
            last_list_refresh: self.last_list_refresh as int,
            list_refresh_interval: self.list_refresh_interval as int,
            detail_refresh_interval: self.detail_refresh_interval as int,
            limit: self.limit,
            env_filter: self.env_filter.deep_view(),
            env_filter_label: self.env_filter_label.deep_view(),
            envs: self.envs.deep_view(),
            env_loading: self.env_loading,
            env_error: self.env_error.deep_view(),
            env_modal: self.env_modal.deep_view(),
            attempts_modal: self.attempts_modal.deep_view(),
            new_task: self.new_task.deep_view(),
            details: self.details.deep_view(),
            apply_modal: self.apply_modal.deep_view(),
            show_help: self.show_help,
            status: self.status@,
            spinner: self.spinner,
            worktree_dir: self.worktree_dir@,
        }
    }
}

/// A state, and what is to be done outside of it.
pub struct Step {
    pub app: AppView,
    pub effects: Seq<EffectView>,
}

/// Whether an interval of this many seconds has passed.
pub open spec fn is_due(last: int, interval: int, now: int) -> bool {
    (if now > last {
        now - last
    } else {
        0
    }) >= interval * 1000000000
}

fn due(last: u128, interval: u64, now: u128) -> (r: bool)
    ensures
        r == is_due(last as int, interval as int, now as int),
{
    let passed: u128 = if now > last {
        now - last
    } else {
        0
    };
    let needed: u128 = interval as u128 * 1000000000;
    passed >= needed
}

/// The label of an environment.
pub open spec fn label_of(envs: Seq<EnvView>, id: Seq<char>) -> Option<Seq<char>> {
    if place(envs, id) < envs.len() {
        envs[place(envs, id)].label
    } else {
        None
    }
}

/// The label of an environment.
pub fn find_label(envs: &Vec<Environment>, id: &str) -> (r: Option<String>)
    ensures
        r.deep_view() == label_of(envs.deep_view(), id@),
{
    let i: usize = find_env(envs, id);
    assert(envs.deep_view().len() == envs@.len());
    if i < envs.len() {
        assert(envs.deep_view()[i as int] == envs@[i as int].deep_view());
        copy_text(&envs[i].label)
    } else {
        None
    }
}

impl AppView {
    /// Whether what is selected is there: a task, where there is any, and an attempt of the task
    /// that is looked at; and whether a new task has one to four attempts.
    pub open spec fn wf(self) -> bool {
        &&& 0 <= self.selected < least_one(self.tasks.len() as int)
        &&& self.details matches Some(d) ==> d.wf()
        &&& self.attempts_modal matches Some(n) ==> 0 <= n <= 3
        &&& self.new_task matches Some(t) ==> 1 <= t.attempts <= 4
    }

    /// The state at the start.
    pub open spec fn fresh(
        base_url: Seq<char>,
        limit: i64,
        list_refresh_interval: int,
        detail_refresh_interval: int,
        worktree_dir: Seq<char>,
        now: int,
    ) -> AppView {
        AppView {
            base_url,
            tasks: Seq::empty(),
            selected: 0,
            list_generation: 0,
            list_refresh_inflight: false,
            last_list_refresh: now,
            list_refresh_interval,
            detail_refresh_interval,
            limit,
            env_filter: None,
            env_filter_label: None,
            envs: Seq::empty(),
            env_loading: false,
            env_error: None,
            env_modal: None,
            attempts_modal: None,
            new_task: None,
            details: None,
            apply_modal: None,
            show_help: false,
            status: Seq::empty(),
            spinner: 0,
            worktree_dir,
        }
    }

    /// The task that is selected.
    pub open spec fn selected_task(self) -> Option<TaskView> {
        if 0 <= self.selected < self.tasks.len() {
            Some(self.tasks[self.selected])
        } else {
            None
        }
    }

    /// With this in the line at the bottom.
    pub open spec fn saying(self, status: Seq<char>) -> AppView {
        AppView { status, ..self }
    }

    /// Nothing to do outside.
    pub open spec fn quiet(self) -> Step {
        Step { app: self, effects: Seq::empty() }
    }

    /// Asking for the tasks, unless they have been asked for already.
    pub open spec fn listing_tasks(self, now: int) -> Step {
        if self.list_refresh_inflight {
            self.quiet()
        } else {
            let generation = if self.list_generation < u64::MAX {
                (self.list_generation + 1) as u64
            } else {
                u64::MAX
            };
            Step {
                app: AppView {
                    list_refresh_inflight: true,
                    last_list_refresh: now,
                    list_generation: generation,
                    ..self
                },
                effects: seq![
                    EffectView::ListTasks { generation, env: self.env_filter, limit: self.limit },
                ],
            }
        }
    }

    /// Asking for all that is known of the task that is looked at, or of the one that is selected.
    pub open spec fn loading_details(self, now: int) -> Step {
        match self.details {
            Some(d) => Step {
                app: AppView { details: Some(d.asked(now)), ..self },
                effects: seq![EffectView::LoadDetails { task_id: d.task_id }],
            },
            None => match self.selected_task() {
                Some(t) => Step {
                    app: self,
                    effects: seq![EffectView::LoadDetails { task_id: t.id }],
                },
                None => self.quiet(),
            },
        }
    }

    /// With an environment to be picked.
    pub open spec fn picking_env(self, target: EnvModalTarget) -> AppView {
        AppView {
            env_modal: Some(EnvModalView { query: Seq::empty(), selected: 0, target }),
            env_loading: self.env_loading || self.envs.len() == 0,
            ..self
        }
    }

    /// The environment that a new task gets: the one that tasks are shown of, else a pinned one,
    /// else the first one.
    pub open spec fn default_env(self) -> Option<Seq<char>> {
        if self.env_filter is Some {
            self.env_filter
        } else if first_pinned(self.envs) is Some {
            Some(first_pinned(self.envs)->0.id)
        } else if self.envs.len() > 0 {
            Some(self.envs[0].id)
        } else {
            None
        }
    }

    /// With a new task to be written.
    pub open spec fn writing(self, git_ref: Seq<char>) -> AppView {
        let label = match self.default_env() {
            Some(id) => label_of(self.envs, id),
            None => None,
        };
        AppView { new_task: Some(NewTaskView::fresh(self.default_env(), label, git_ref)), ..self }
    }

    /// With the selected task opened and all else closed.
    pub open spec fn opening(self, now: int) -> AppView {
        match self.selected_task() {
            None => self.saying("No task selected"@),
            Some(t) => AppView {
                new_task: None,
                apply_modal: None,
                env_modal: None,
                attempts_modal: None,
                details: Some(DetailsView::opened(t, self.detail_refresh_interval, now)),
                ..self
            },
        }
    }

    /// With a prompt sent off.
    pub open spec fn creating(self, prompt: Seq<char>) -> Step {
        match self.new_task {
            None => self.quiet(),
            Some(t) => match t.env_id {
                None => self.saying("No environment selected"@).quiet(),
                Some(env_id) => Step {
                    app: AppView {
                        new_task: Some(NewTaskView { submitting: true, ..t }),
                        ..self
                    },
                    effects: seq![
                        EffectView::CreateTask {
                            env_id,
                            prompt,
                            git_ref: t.git_ref,
                            qa_mode: t.qa_mode,
                            attempts: t.attempts,
                        },
                    ],
                },
            },
        }
    }

    /// With a text taken as the prompt of the new task.
    pub open spec fn submitting(self, text: Seq<char>) -> Step {
        if is_blank(text) {
            self.saying("Prompt is empty"@).quiet()
        } else {
            self.creating(trimmed(text))
        }
    }

    /// With the diff being tried.
    pub open spec fn preflighting(self) -> Step {
        match self.apply_modal {
            None => self.quiet(),
            Some(m) => Step {
                app: AppView { apply_modal: Some(m.preflighting()), ..self },
                effects: seq![
                    EffectView::RunApply {
                        task_id: m.task_id,
                        diff: m.diff,
                        use_worktree: m.use_worktree,
                        worktree_dir: self.worktree_dir,
                        preflight: true,
                    },
                ],
            },
        }
    }

    /// With the diff being applied.
    pub open spec fn applying(self) -> Step {
        match self.apply_modal {
            None => self.quiet(),
            Some(m) => Step {
                app: AppView { apply_modal: Some(m.applying()), ..self },
                effects: seq![
                    EffectView::RunApply {
                        task_id: m.task_id,
                        diff: m.diff,
                        use_worktree: m.use_worktree,
                        worktree_dir: self.worktree_dir,
                        preflight: false,
                    },
                ],
            },
        }
    }

    /// With a pull request being created from what was applied.
    pub open spec fn creating_pr(self) -> Step {
        match self.apply_modal {
            None => self.quiet(),
            Some(m) => Step {
                app: self,
                effects: seq![
                    EffectView::CreatePr {
                        task_id: m.task_id,
                        dir: m.worktree_path,
                        plan: task_plan(
                            Some(m.pr_branch),
                            m.title,
                            m.task_id,
                            task_address(self.base_url, m.task_id),
                        ),
                    },
                ],
            },
        }
    }

    /// After a tick of the clock: whether anything has changed that is shown, and the step.
    pub open spec fn ticked(self, now: int) -> (bool, Step) {
        let a = AppView {
            spinner: if self.spinner == usize::MAX {
                0
            } else {
                (self.spinner + 1) as usize
            },
            ..self
        };
        let list = !a.list_refresh_inflight && is_due(
            a.last_list_refresh,
            a.list_refresh_interval,
            now,
        );
        let s = if list {
            a.listing_tasks(now)
        } else {
            a.quiet()
        };
        let look = a.details matches Some(d) && !d.loading && is_due(
            d.last_refresh,
            d.refresh_interval,
            now,
        );
        let t = if look {
            s.app.loading_details(now)
        } else {
            s.app.quiet()
        };
        (list || look, Step { app: t.app, effects: s.effects + t.effects })
    }
}

/// What can be picked: all environments, or one of those that match a query, where it is not blank.
pub open spec fn env_options(envs: Seq<EnvView>, query: Seq<char>) -> Seq<Option<EnvView>> {
    seq![None] + envs.filter(|e: EnvView| is_listed(e, filled(query))).map_values(
        |e: EnvView| Some(e),
    )
}

/// What can be picked: all environments, or one of those that match a query, where it is not blank.
pub fn env_modal_options(envs: &Vec<Environment>, query: &str) -> (r: Vec<Option<Environment>>)
    ensures
        r.deep_view() == env_options(envs.deep_view(), query@),
        r@.len() >= 1,
{
    let q = fill(query);
    let ghost all = envs.deep_view();
    let ghost p = |e: EnvView| is_listed(e, filled(query@));
    let ghost g = |e: EnvView| Some(e);
    let mut out: Vec<Option<Environment>> = one_item(None);
    let mut i: usize = 0;
    assert(all.len() == envs@.len());
    proof {
        reveal(Seq::filter);
        assert(out.deep_view() =~= seq![None] + all.take(0).filter(p).map_values(g));
    }
    while i < envs.len()
        invariant
            q.deep_view() == filled(query@),
            all == envs.deep_view(),
            all.len() == envs@.len(),
            p == (|e: EnvView| is_listed(e, filled(query@))),
            g == (|e: EnvView| Some(e)),
            i <= envs@.len(),
            out.deep_view() == seq![None] + all.take(i as int).filter(p).map_values(g),
        decreases envs@.len() - i,
    {
        let ghost before = all.take(i as int).filter(p);
        proof {
            reveal(Seq::filter);
            assert(all.take(i + 1).drop_last() =~= all.take(i as int));
            assert(all.take(i + 1).last() == envs@[i as int].deep_view());
        }
        let hit: bool = match &q {
            Some(f) => listed(&envs[i], Some(f)),
            None => true,
        };
        if hit {
            let e = copy_env(&envs[i]);
            let ghost v = e.deep_view();
            put_last(&mut out, Some(e));
            assert((seq![None] + before.map_values(g)).push(Some(v)) =~= seq![None] + before.push(
                v,
            ).map_values(g));
        }
        i += 1;
    }
    assert(all.take(i as int) =~= all);
    assert(out.deep_view().len() == out@.len());
    out
}

/// The state that the terminal starts in, and what is asked for at once: the environments, and the
/// tasks of the environment that they are to be shown of.
pub open spec fn started(
    base_url: Seq<char>,
    limit: i64,
    refresh: int,
    poll: int,
    codex_home: Seq<char>,
    worktree_dir: Option<Seq<char>>,
    env_filter: Option<Seq<char>>,
    now: int,
) -> Step {
    let fresh = AppView::fresh(
        base_url,
        if limit < 1 {
            1
        } else if limit > 50 {
            50
        } else {
            limit
        },
        least_one(refresh),
        least_one(poll),
        match worktree_dir {
            Some(d) => d,
            None => path_join(codex_home, "worktrees"@),
        },
        now,
    );
    let s = (AppView { env_filter, status: "Loading tasks\u{2026}"@, ..fresh }).listing_tasks(now);
    Step { app: s.app, effects: seq![EffectView::LoadEnvs] + s.effects }
}

impl App {
    /// The state at the start.
    pub fn new(
        base_url: String,
        limit: i64,
        list_refresh_interval: u64,
        detail_refresh_interval: u64,
        worktree_dir: String,
        now: u128,
    ) -> (r: Self)
        ensures
            r.deep_view() == AppView::fresh(
                base_url@,
                limit,
                list_refresh_interval as int,
                detail_refresh_interval as int,
                worktree_dir@,
                now as int,
            ),
            r.deep_view().wf(),
    {
        App {
            base_url,
            tasks: no_items(),
            selected: 0,
            list_generation: 0,
            list_refresh_inflight: false,
            last_list_refresh: now,
            list_refresh_interval,
            detail_refresh_interval,
            limit,
            env_filter: None,
            env_filter_label: None,
            envs: no_items(),
            env_loading: false,
            env_error: None,
            env_modal: None,
            attempts_modal: None,
            new_task: None,
            details: None,
            apply_modal: None,
            show_help: false,
            status: String::new(),
            spinner: 0,
            worktree_dir,
        }
    }

    /// Starts: the limit lies between 1 and 50, intervals are a second at least, and worktrees
    /// stand under the home directory unless another one is named. Asks for the environments and
    /// for the tasks.
    pub fn start(
        base_url: String,
        limit: i64,
        refresh: u64,
        poll: u64,
        codex_home: &str,
        worktree_dir: Option<String>,
        env_filter: Option<String>,
        now: u128,
    ) -> (r: (Self, Vec<Effect>))
        ensures
            ({
                let s = started(
                    base_url@,
                    limit,
                    refresh as int,
                    poll as int,
                    codex_home@,
                    worktree_dir.deep_view(),
                    env_filter.deep_view(),
                    now as int,
                );
                r.0.deep_view() == s.app && r.1.deep_view() == s.effects
            }),
            r.0.deep_view().wf(),
    {
        let limit: i64 = if limit < 1 {
            1
        } else if limit > 50 {
            50
        } else {
            limit
        };
        let dir = match worktree_dir {
            Some(d) => d,
            None => join_path(codex_home, "worktrees"),
        };
        let refresh: u64 = if refresh < 1 {
            1
        } else {
            refresh
        };
        let poll: u64 = if poll < 1 {
            1
        } else {
            poll
        };
        let mut app = App::new(base_url, limit, refresh, poll, dir, now);
        app.env_filter = env_filter;
        app.status = "Loading tasks\u{2026}".to_string();
        let effects = app.refresh_tasks(now);
        (app, both(one_item(Effect::LoadEnvs), effects))
    }

    /// Says something in the line at the bottom.
    pub fn say(&mut self, status: &str)
        ensures
            final(self).deep_view() == old(self).deep_view().saying(status@),
    {
        self.status = status.to_string();
    }

    /// The task that is selected.
    pub fn selected_task(&self) -> (r: Option<&TaskSummary>)
        ensures
            match r {
                Some(t) => self.deep_view().selected_task() == Some(t.deep_view()),
                None => self.deep_view().selected_task() is None,
            },
    {
        assert(self.tasks.deep_view().len() == self.tasks@.len());
        if self.selected < self.tasks.len() {
            assert(self.tasks.deep_view()[self.selected as int]
                == self.tasks@[self.selected as int].deep_view());
            Some(&self.tasks[self.selected])
        } else {
            None
        }
    }

    /// The sign that turns while something is loading.
    pub fn spinner_char(&self) -> (r: char)
        ensures
            r == spinner_sign(self.spinner as int),
    {
        let n: usize = self.spinner % 4;
        if n == 0 {
            '|'
        } else if n == 1 {
            '/'
        } else if n == 2 {
            '-'
        } else {
            '\\'
        }
    }

    /// Whether the tasks are to be asked for again.
    pub fn auto_refresh_due(&self, now: u128) -> (r: bool)
        ensures
            r == (!self.list_refresh_inflight && is_due(
                self.last_list_refresh as int,
                self.list_refresh_interval as int,
                now as int,
            )),
    {
        !self.list_refresh_inflight && due(self.last_list_refresh, self.list_refresh_interval, now)
    }

    /// Whether the task that is looked at is to be asked for again.
    pub fn details_refresh_due(&self, now: u128) -> (r: bool)
        ensures
            r == (self.deep_view().details matches Some(d) && !d.loading && is_due(
                d.last_refresh,
                d.refresh_interval,
                now as int,
            )),
    {
        match &self.details {
            Some(d) => !d.loading && due(d.last_refresh, d.refresh_interval, now),
            None => false,
        }
    }

    /// Takes a tick of the clock, and says whether anything has changed that is shown.
    pub fn tick(&mut self, now: u128) -> (r: (bool, Vec<Effect>))
        ensures
            r.0 == old(self).deep_view().ticked(now as int).0,
            final(self).deep_view() == old(self).deep_view().ticked(now as int).1.app,
            r.1.deep_view() == old(self).deep_view().ticked(now as int).1.effects,
            old(self).deep_view().wf() ==> final(self).deep_view().wf(),
    {
        self.spinner = if self.spinner == usize::MAX {
            0
        } else {
            self.spinner + 1
        };
        let list = self.auto_refresh_due(now);
        let first = if list {
            self.refresh_tasks(now)
        } else {
            no_items()
        };
        let look = self.details_refresh_due(now);
        let second = if look {
            self.refresh_details(now)
        } else {
            no_items()
        };
        (list || look, both(first, second))
    }

    /// Asks for the tasks, unless they have been asked for already.
    pub fn refresh_tasks(&mut self, now: u128) -> (r: Vec<Effect>)
        ensures
            final(self).deep_view() == old(self).deep_view().listing_tasks(now as int).app,
            r.deep_view() == old(self).deep_view().listing_tasks(now as int).effects,
            old(self).deep_view().wf() ==> final(self).deep_view().wf(),
    {
        if self.list_refresh_inflight {
            return no_items();
        }
        self.list_refresh_inflight = true;
        self.last_list_refresh = now;
        if self.list_generation < u64::MAX {
            self.list_generation = self.list_generation + 1;
        }
        one_item(
            Effect::ListTasks {
                generation: self.list_generation,
                env: copy_text(&self.env_filter),
                limit: self.limit,
            },
        )
    }

    /// Asks for all that is known of the task that is looked at, or of the one that is selected.
    pub fn refresh_details(&mut self, now: u128) -> (r: Vec<Effect>)
        ensures
            final(self).deep_view() == old(self).deep_view().loading_details(now as int).app,
            r.deep_view() == old(self).deep_view().loading_details(now as int).effects,
            old(self).deep_view().wf() ==> final(self).deep_view().wf(),
    {
        if let Some(d) = &mut self.details {
            d.loading = true;
            d.last_refresh = now;
            return one_item(Effect::LoadDetails { task_id: d.task_id.clone() });
        }
        match self.selected_task() {
            Some(t) => one_item(Effect::LoadDetails { task_id: t.id.clone() }),
            None => no_items(),
        }
    }

    /// Lets an environment be picked.
    pub fn open_env_modal(&mut self, target: EnvModalTarget)
        ensures
            final(self).deep_view() == old(self).deep_view().picking_env(target),
    {
        assert(self.envs.deep_view().len() == self.envs@.len());
        self.env_modal = Some(EnvModalState { query: String::new(), selected: 0, target });
        if self.envs.len() == 0 {
            self.env_loading = true;
        }
    }

    fn default_env(&self) -> (r: Option<String>)
        ensures
            r.deep_view() == self.deep_view().default_env(),
    {
        assert(self.envs.deep_view().len() == self.envs@.len());
        if let Some(id) = &self.env_filter {
            return Some(id.clone());
        }
        if let Some(id) = find_pinned(&self.envs) {
            return Some(id);
        }
        if self.envs.len() > 0 {
            assert(self.envs.deep_view()[0] == self.envs@[0].deep_view());
            return Some(self.envs[0].id.clone());
        }
        None
    }

    /// Lets a new task be written, on a branch or commit.
    pub fn open_new_task(&mut self, git_ref: String)
        ensures
            final(self).deep_view() == old(self).deep_view().writing(git_ref@),
            old(self).deep_view().wf() ==> final(self).deep_view().wf(),
    {
        let env_id = self.default_env();
        let label = match &env_id {
            Some(id) => find_label(&self.envs, id),
            None => None,
        };
        self.new_task = Some(NewTaskState::new(env_id, label, git_ref));
    }

    /// Opens the task that is selected, and closes all else.
    pub fn open_details_for_selected(&mut self, now: u128)
        ensures
            final(self).deep_view() == old(self).deep_view().opening(now as int),
            old(self).deep_view().wf() ==> final(self).deep_view().wf(),
    {
        let d = match self.selected_task() {
            Some(t) => DetailsState::new(t, self.detail_refresh_interval, now),
            None => {
                self.say("No task selected");
                return;
            },
        };
        self.new_task = None;
        self.apply_modal = None;
        self.env_modal = None;
        self.attempts_modal = None;
        self.details = Some(d);
    }

    fn create_task(&mut self, prompt: String) -> (r: Vec<Effect>)
        ensures
            final(self).deep_view() == old(self).deep_view().creating(prompt@).app,
            r.deep_view() == old(self).deep_view().creating(prompt@).effects,
    {
        let missing = match &mut self.new_task {
            None => {
                return no_items();
            },
            Some(t) => match &t.env_id {
                None => true,
                Some(id) => {
                    let e = Effect::CreateTask {
                        env_id: id.clone(),
                        prompt,
                        git_ref: t.git_ref.clone(),
                        qa_mode: t.qa_mode,
                        attempts: t.attempts,
                    };
                    t.submitting = true;
                    return one_item(e);
                },
            },
        };
        if missing {
            self.say("No environment selected");
        }
        no_items()
    }

    /// Takes a text as the prompt of the new task.
    pub fn submit_prompt(&mut self, text: &str) -> (r: Vec<Effect>)
        ensures
            final(self).deep_view() == old(self).deep_view().submitting(text@).app,
            r.deep_view() == old(self).deep_view().submitting(text@).effects,
            old(self).deep_view().wf() ==> final(self).deep_view().wf(),
    {
        if blank(text) {
            self.say("Prompt is empty");
            no_items()
        } else {
            self.create_task(trim(text))
        }
    }

    /// Tries the diff.
    pub fn run_preflight(&mut self) -> (r: Vec<Effect>)
        ensures
            final(self).deep_view() == old(self).deep_view().preflighting().app,
            r.deep_view() == old(self).deep_view().preflighting().effects,
    {
        let dir = self.worktree_dir.clone();
        match &mut self.apply_modal {
            None => no_items(),
            Some(m) => {
                m.stage = ApplyStage::PreflightRunning;
                m.preflight = None;
                m.apply = None;
                m.pr = None;
                m.error = None;
                one_item(
                    Effect::RunApply {
                        task_id: m.task_id.clone(),
                        diff: m.diff.clone(),
                        use_worktree: m.use_worktree,
                        worktree_dir: dir,
                        preflight: true,
                    },
                )
            },
        }
    }

    /// Applies the diff.
    pub fn run_apply(&mut self) -> (r: Vec<Effect>)
        ensures
            final(self).deep_view() == old(self).deep_view().applying().app,
            r.deep_view() == old(self).deep_view().applying().effects,
    {
        let dir = self.worktree_dir.clone();
        match &mut self.apply_modal {
            None => no_items(),
            Some(m) => {
                m.stage = ApplyStage::Applying;
                m.apply = None;
                m.pr = None;
                m.error = None;
                one_item(
                    Effect::RunApply {
                        task_id: m.task_id.clone(),
                        diff: m.diff.clone(),
                        use_worktree: m.use_worktree,
                        worktree_dir: dir,
                        preflight: false,
                    },
                )
            },
        }
    }

    /// Creates a pull request from what was applied.
    pub fn create_pr(&self) -> (r: Vec<Effect>)
        ensures
            r.deep_view() == self.deep_view().creating_pr().effects,
    {
        match &self.apply_modal {
            None => no_items(),
            Some(m) => {
                let url = task_url(&self.base_url, &m.task_id);
                let plan = plan_for_task(Some(m.pr_branch.clone()), &m.title, &m.task_id, &url);
                one_item(
                    Effect::CreatePr {
                        task_id: m.task_id.clone(),
                        dir: copy_text(&m.worktree_path),
                        plan,
                    },
                )
            },
        }
    }
}

/// The sign that turns while something is loading.
pub open spec fn spinner_sign(n: int) -> char {
    if n % 4 == 0 {
        '|'
    } else if n % 4 == 1 {
        '/'
    } else if n % 4 == 2 {
        '-'
    } else {
        '\\'
    }
}

/// One row of effects behind the other.
pub fn both(first: Vec<Effect>, second: Vec<Effect>) -> (r: Vec<Effect>)
    ensures
        r.deep_view() == first.deep_view() + second.deep_view(),
{
    let mut r = first;
    put_all(&mut r, second);
    r
}

/// A task is created only from a text that is not blank, with the environment of the new task, and
/// the new task then waits for what comes of it.
pub proof fn law_a_task_needs_a_prompt_and_an_environment(a: AppView, text: Seq<char>, i: int)
    requires
        0 <= i < a.submitting(text).effects.len(),
    ensures
        !is_blank(text),
        a.new_task matches Some(t) && (a.submitting(text).effects[i] matches EffectView::CreateTask {
            env_id,
            prompt,
            ..
        } && t.env_id == Some(env_id) && prompt == trimmed(text)),
        a.submitting(text).app.new_task matches Some(t) && t.submitting,
{
}

/// The clock asks for the tasks exactly where they have not been asked for and their interval has
/// passed, and for the task that is looked at exactly where the same holds of it.
pub proof fn law_the_clock_asks_for_what_is_due(a: AppView, now: int)
    ensures
        (exists|i: int|
            0 <= i < a.ticked(now).1.effects.len() && (#[trigger] a.ticked(now).1.effects[i])
                is ListTasks) <==> (!a.list_refresh_inflight && is_due(
            a.last_list_refresh,
            a.list_refresh_interval,
            now,
        )),
        (exists|i: int|
            0 <= i < a.ticked(now).1.effects.len() && (#[trigger] a.ticked(now).1.effects[i])
                is LoadDetails) <==> (a.details matches Some(d) && !d.loading && is_due(
            d.last_refresh,
            d.refresh_interval,
            now,
        )),
{
    let e = a.ticked(now).1.effects;
    let list = !a.list_refresh_inflight && is_due(
        a.last_list_refresh,
        a.list_refresh_interval,
        now,
    );
    let look = a.details matches Some(d) && !d.loading && is_due(
        d.last_refresh,
        d.refresh_interval,
        now,
    );
    if list {
        assert(e[0] is ListTasks);
    }
    if look {
        assert(e[e.len() - 1] is LoadDetails);
    }
}

/// A blank query offers every environment, in the order in which they are listed, behind the choice
/// of all of them.
pub proof fn law_a_blank_query_offers_all(envs: Seq<EnvView>, query: Seq<char>)
    requires
        is_blank(query),
    ensures
        env_options(envs, query) == seq![None] + envs.map_values(|e: EnvView| Some(e)),
{
    let p = |e: EnvView| is_listed(e, filled(query));
    lemma_filter_keeps_all(envs, p);
}

proof fn lemma_filter_keeps_all(envs: Seq<EnvView>, p: spec_fn(EnvView) -> bool)
    requires
        forall|e: EnvView| #[trigger] p(e),
    ensures
        envs.filter(p) == envs,
    decreases envs.len(),
{
    reveal(Seq::filter);
    if envs.len() > 0 {
        lemma_filter_keeps_all(envs.drop_last(), p);
        assert(p(envs.last()));
        assert(envs.drop_last().push(envs.last()) =~= envs);
    }
}

/// Tasks are asked for with the filter and the limit that are set, once at a time; each time is
/// numbered by itself, and the number is remembered to know the answer by. Nothing else changes.
pub proof fn law_tasks_are_asked_for_as_filtered(a: AppView, now: int)
    ensures
        ({
            let s = a.listing_tasks(now);
            &&& a.list_refresh_inflight ==> s.app == a && s.effects.len() == 0
            &&& !a.list_refresh_inflight ==> {
                &&& s.effects.len() == 1
                &&& s.effects[0] == (EffectView::ListTasks {
                    generation: s.app.list_generation,
                    env: a.env_filter,
                    limit: a.limit,
                })
                &&& s.app.list_refresh_inflight
                &&& s.app.last_list_refresh == now
                &&& a.list_generation < u64::MAX ==> s.app.list_generation == a.list_generation + 1
            }
            &&& s.app.tasks == a.tasks && s.app.selected == a.selected
            &&& s.app.env_filter == a.env_filter && s.app.details == a.details
            &&& s.app.status == a.status && s.app.new_task == a.new_task
            &&& s.app.apply_modal == a.apply_modal && s.app.env_modal == a.env_modal
        }),
{
}

/// All that is known is asked for of the task that is looked at, and else of the one that is
/// selected.
pub proof fn law_details_are_asked_for_of_the_right_task(a: AppView, now: int)
    ensures
        ({
            let s = a.loading_details(now);
            &&& a.details matches Some(d) ==> s.effects == seq![
                EffectView::LoadDetails { task_id: d.task_id },
            ] && (s.app.details matches Some(e) && e.loading && e.last_refresh == now && e.task_id
                == d.task_id && e.attempts == d.attempts && e.tab == d.tab)
            &&& a.details is None && 0 <= a.selected < a.tasks.len() ==> s.effects == seq![
                EffectView::LoadDetails { task_id: a.tasks[a.selected].id },
            ]
            &&& a.details is None && !(0 <= a.selected < a.tasks.len()) ==> s.effects.len() == 0
            &&& s.app.tasks == a.tasks && s.app.selected == a.selected
        }),
{
}

/// An interval has passed once as many seconds have, and not before.
pub proof fn law_an_interval_passes_with_its_seconds(last: int, interval: int, now: int)
    requires
        interval > 0,
    ensures
        is_due(last, interval, now) <==> now >= last + interval * 1000000000,
{
}

/// A tick turns the sign and leaves what is shown alone; it says that something has changed just
/// where something is asked for.
pub proof fn law_a_tick_asks_and_turns_the_sign(a: AppView, now: int)
    ensures
        ({
            let (changed, s) = a.ticked(now);
            &&& a.spinner < usize::MAX ==> s.app.spinner == a.spinner + 1
            &&& changed <==> s.effects.len() > 0
            &&& s.app.tasks == a.tasks && s.app.selected == a.selected
            &&& s.app.status == a.status && s.app.env_filter == a.env_filter
            &&& s.app.details is Some <==> a.details is Some
            &&& s.app.apply_modal == a.apply_modal && s.app.new_task == a.new_task
        }),
{
}

/// The first environment with an id gives its label.
proof fn lemma_label(envs: Seq<EnvView>, id: Seq<char>, i: int)
    requires
        0 <= i < envs.len(),
        envs[i].id == id,
        forall|k: int| 0 <= k < i ==> (#[trigger] envs[k]).id != id,
    ensures
        label_of(envs, id) == envs[i].label,
        place(envs, id) == i,
    decreases i,
{
    if i > 0 {
        let t = envs.drop_first();
        assert(envs[0].id != id);
        assert forall|k: int| 0 <= k < i - 1 implies (#[trigger] t[k]).id != id by {
            assert(t[k] == envs[k + 1]);
        }
        assert(t[i - 1] == envs[i]);
        lemma_label(t, id, i - 1);
    }
}

/// The label of an environment is that of the first one with its id; where there is none with this
/// id there is no label.
pub proof fn law_a_label_belongs_to_its_id(envs: Seq<EnvView>, id: Seq<char>, i: int)
    ensures
        0 <= i < envs.len() && envs[i].id == id && (forall|k: int|
            0 <= k < i ==> (#[trigger] envs[k]).id != id) ==> label_of(envs, id) == envs[i].label,
        (forall|k: int| 0 <= k < envs.len() ==> (#[trigger] envs[k]).id != id) ==> label_of(
            envs,
            id,
        ) is None,
{
    if 0 <= i < envs.len() && envs[i].id == id && (forall|k: int|
        0 <= k < i ==> (#[trigger] envs[k]).id != id) {
        lemma_label(envs, id, i);
    }
    if forall|k: int| 0 <= k < envs.len() ==> (#[trigger] envs[k]).id != id {
        lemma_no_label(envs, id);
    }
}

proof fn lemma_no_label(envs: Seq<EnvView>, id: Seq<char>)
    requires
        forall|k: int| 0 <= k < envs.len() ==> (#[trigger] envs[k]).id != id,
    ensures
        place(envs, id) == envs.len(),
    decreases envs.len(),
{
    if envs.len() > 0 {
        let t = envs.drop_first();
        assert(envs[0].id != id);
        assert forall|k: int| 0 <= k < t.len() implies (#[trigger] t[k]).id != id by {
            assert(t[k] == envs[k + 1]);
        }
        lemma_no_label(t, id);
    }
}

proof fn lemma_pinned_first(envs: Seq<EnvView>, i: int)
    requires
        0 <= i <= envs.len(),
        forall|k: int| 0 <= k < i ==> (#[trigger] envs[k]).is_pinned != Some(true),
        i < envs.len() ==> envs[i].is_pinned == Some(true),
    ensures
        i < envs.len() ==> first_pinned(envs) == Some(envs[i]),
        i == envs.len() ==> first_pinned(envs) is None,
    decreases i,
{
    if i > 0 {
        let t = envs.drop_first();
        assert(envs[0].is_pinned != Some(true));
        assert forall|k: int| 0 <= k < i - 1 implies (#[trigger] t[k]).is_pinned != Some(true) by {
            assert(t[k] == envs[k + 1]);
        }
        lemma_pinned_first(t, i - 1);
    }
}

/// A new task gets the environment that tasks are shown of; else the first one that is pinned; else
/// the first one. It starts on the branch that is given, with one attempt and without a check.
pub proof fn law_a_new_task_starts_in_the_shown_environment(a: AppView, git_ref: Seq<char>, i: int)
    ensures
        a.env_filter is Some ==> a.default_env() == a.env_filter,
        a.env_filter is None && 0 <= i < a.envs.len() && a.envs[i].is_pinned == Some(true) && (
        forall|k: int| 0 <= k < i ==> (#[trigger] a.envs[k]).is_pinned != Some(true))
            ==> a.default_env() == Some(a.envs[i].id),
        a.env_filter is None && a.envs.len() > 0 && (forall|k: int|
            0 <= k < a.envs.len() ==> (#[trigger] a.envs[k]).is_pinned != Some(true))
            ==> a.default_env() == Some(a.envs[0].id),
        a.env_filter is None && a.envs.len() == 0 ==> a.default_env() is None,
        a.writing(git_ref).new_task matches Some(t) && {
            &&& t.env_id == a.default_env()
            &&& t.env_id matches Some(id) ==> t.env_label == label_of(a.envs, id)
            &&& t.env_id is None ==> t.env_label is None
            &&& t.attempts == 1
            &&& !t.qa_mode
            &&& !t.submitting
            &&& t.git_ref == git_ref
        },
        a.writing(git_ref).tasks == a.tasks,
        a.writing(git_ref).details == a.details,
{
    if 0 <= i < a.envs.len() && a.envs[i].is_pinned == Some(true) && (forall|k: int|
        0 <= k < i ==> (#[trigger] a.envs[k]).is_pinned != Some(true)) {
        lemma_pinned_first(a.envs, i);
    }
    if forall|k: int| 0 <= k < a.envs.len() ==> (#[trigger] a.envs[k]).is_pinned != Some(true) {
        lemma_pinned_first(a.envs, a.envs.len() as int);
    }
}

/// A task is created with its prompt, in its environment, on its branch, with its check and as many
/// attempts as were picked; without an environment none is created, and that is said.
pub proof fn law_a_task_is_created_as_it_was_written(a: AppView, text: Seq<char>)
    ensures
        a.new_task matches Some(t) ==> {
            &&& trimmed(text).len() > 0 && !is_blank(text) ==> (t.env_id matches Some(env_id)
                ==> a.submitting(text).effects == seq![
                EffectView::CreateTask {
                    env_id,
                    prompt: trimmed(text),
                    git_ref: t.git_ref,
                    qa_mode: t.qa_mode,
                    attempts: t.attempts,
                },
            ])
            &&& t.env_id is None ==> a.submitting(text).effects.len() == 0
            &&& !is_blank(text) && t.env_id is None ==> a.submitting(text).app.status
                == "No environment selected"@
            &&& a.submitting(text).app.new_task matches Some(u) && u.env_id == t.env_id && u.attempts
                == t.attempts && u.git_ref == t.git_ref && u.qa_mode == t.qa_mode
        },
        is_blank(text) ==> a.submitting(text).effects.len() == 0 && a.submitting(text).app.status
            == "Prompt is empty"@,
        a.new_task is None ==> a.submitting(text).effects.len() == 0,
{
}

/// The task that is opened is the one that is selected, and all else is closed.
pub proof fn law_the_selected_task_is_opened(a: AppView, now: int)
    ensures
        0 <= a.selected < a.tasks.len() ==> {
            let b = a.opening(now);
            let t = a.tasks[a.selected];
            &&& b.details matches Some(d) && d.task_id == t.id && d.title == t.title && d.status
                == t.status && d.loading && d.refresh_interval == a.detail_refresh_interval
            &&& b.new_task is None && b.apply_modal is None && b.env_modal is None
                && b.attempts_modal is None
            &&& b.tasks == a.tasks && b.selected == a.selected
        },
        !(0 <= a.selected < a.tasks.len()) ==> a.opening(now).details == a.details && a.opening(
            now,
        ).status == "No task selected"@,
{
}

/// A diff is tried and applied as it stands in the box: that of its task, in a worktree where that
/// is switched on; trying is told from applying, and what came of it before is forgotten.
pub proof fn law_the_diff_in_the_box_is_run(a: AppView, m: ApplyModalView)
    requires
        a.apply_modal == Some(m),
    ensures
        ({
            let t = a.preflighting();
            let s = a.applying();
            &&& t.effects == seq![
                EffectView::RunApply {
                    task_id: m.task_id,
                    diff: m.diff,
                    use_worktree: m.use_worktree,
                    worktree_dir: a.worktree_dir,
                    preflight: true,
                },
            ]
            &&& s.effects == seq![
                EffectView::RunApply {
                    task_id: m.task_id,
                    diff: m.diff,
                    use_worktree: m.use_worktree,
                    worktree_dir: a.worktree_dir,
                    preflight: false,
                },
            ]
            &&& t.app.apply_modal matches Some(n) && n.stage == ApplyStage::PreflightRunning
                && n.preflight is None && n.apply is None && n.pr is None && n.error is None
                && n.diff == m.diff && n.task_id == m.task_id && n.create_pr == m.create_pr
                && n.pr_branch == m.pr_branch && n.title == m.title
            &&& s.app.apply_modal matches Some(n) && n.stage == ApplyStage::Applying && n.preflight
                == m.preflight && n.apply is None && n.pr is None && n.error is None && n.diff
                == m.diff && n.task_id == m.task_id && n.create_pr == m.create_pr && n.pr_branch
                == m.pr_branch && n.title == m.title
        }),
{
}

/// The pull request is that of the task in the box: on the branch that is shown there, with the
/// title of the task, and out of the worktree in which the diff was applied.
pub proof fn law_the_pull_request_is_that_of_the_box(a: AppView, m: ApplyModalView)
    requires
        a.apply_modal == Some(m),
    ensures
        a.creating_pr().app == a,
        a.creating_pr().effects.len() == 1,
        a.creating_pr().effects[0] matches EffectView::CreatePr { task_id, dir, plan } && {
            &&& task_id == m.task_id
            &&& dir == m.worktree_path
            &&& plan.branch == m.pr_branch
            &&& plan.title == "Codex: "@ + m.title + " ("@ + m.task_id + ")"@
            &&& plan.body == Some(
                "Created from Codex cloud task: "@ + task_address(a.base_url, m.task_id),
            )
            &&& plan.remote == "origin"@
        },
{
}

/// A diff that is about to be tried is the one that was given, on a branch named after its task,
/// without a pull request, and with nothing done yet.
pub proof fn law_a_box_starts_with_its_diff(
    task_id: Seq<char>,
    title: Seq<char>,
    label: Seq<char>,
    diff: Seq<char>,
    worktree: bool,
)
    ensures
        ({
            let m = ApplyModalView::fresh(task_id, title, label, diff, worktree);
            &&& m.task_id == task_id && m.title == title && m.attempt_label == label && m.diff == diff
            &&& m.use_worktree == worktree && !m.create_pr
            &&& m.pr_branch == "codex/task_"@ + task_id
            &&& m.stage == ApplyStage::PreflightRunning
            &&& m.preflight is None && m.apply is None && m.pr is None && m.error is None
            &&& m.worktree_path is None
        }),
{
}

/// All environments can be picked, and each one that matches the query: whose id or label holds it,
/// in lower case.
pub proof fn law_matching_environments_are_offered(envs: Seq<EnvView>, query: Seq<char>, e: EnvView)
    ensures
        env_options(envs, query).len() > 0,
        env_options(envs, query)[0] is None,
        env_options(envs, query).contains(Some(e)) <==> envs.contains(e) && (is_blank(query)
            || occurs(lowercase(e.id), lowercase(trimmed(query))) || occurs(
            lowercase(
                match e.label {
                    Some(l) => l,
                    None => Seq::empty(),
                },
            ),
            lowercase(trimmed(query)),
        )),
        forall|i: int|
            0 < i < env_options(envs, query).len() ==> (#[trigger] env_options(envs, query)[i])
                is Some,
{
    broadcast use vstd::seq_lib::group_filter_ensures;

    let p = |x: EnvView| is_listed(x, filled(query));
    let kept = envs.filter(p);
    let all = env_options(envs, query);
    assert forall|i: int| 0 <= i < kept.len() implies #[trigger] all[i + 1] == Some(kept[i]) by {}
    assert forall|i: int| 0 < i < all.len() implies (#[trigger] all[i]) is Some by {
        assert(all[i] == Some(kept[i - 1]));
    }
    if all.contains(Some(e)) {
        let k = choose|k: int| 0 <= k < all.len() && all[k] == Some(e);
        assert(all[k] == Some(kept[k - 1]));
        assert(kept.contains(kept[k - 1]));
        envs.lemma_filter_contains_rev(p, e);
        assert(p(kept[k - 1]));
    }
    if envs.contains(e) && p(e) {
        let k = choose|k: int| 0 <= k < envs.len() && envs[k] == e;
        assert(p(envs[k]));
        assert(kept.contains(envs[k]));
        let l = choose|l: int| 0 <= l < kept.len() && kept[l] == e;
        assert(all[l + 1] == Some(e));
    }
}

/// Environments are offered in the order in which they are listed.
pub proof fn law_environments_are_offered_in_order(
    a: Seq<EnvView>,
    b: Seq<EnvView>,
    query: Seq<char>,
)
    ensures
        env_options(a + b, query) == env_options(a, query) + env_options(b, query).skip(1),
{
    let p = |x: EnvView| is_listed(x, filled(query));
    Seq::filter_distributes_over_add(a, b, p);
    let g = |e: EnvView| Some(e);
    assert((a.filter(p) + b.filter(p)).map_values(g) =~= a.filter(p).map_values(g) + b.filter(
        p,
    ).map_values(g));
    assert(env_options(b, query).skip(1) =~= b.filter(p).map_values(g));
    assert(env_options(a + b, query) =~= env_options(a, query) + env_options(b, query).skip(1));
}

/// The choice of an environment starts with an empty query, for what it is made for; the
/// environments count as loading where there are none yet.
pub proof fn law_the_choice_starts_empty(a: AppView, target: EnvModalTarget)
    ensures
        a.picking_env(target).env_modal matches Some(m) && m.query.len() == 0 && m.selected == 0
            && m.target == target,
        a.envs.len() == 0 ==> a.picking_env(target).env_loading,
        a.envs.len() > 0 ==> a.picking_env(target).env_loading == a.env_loading,
        a.picking_env(target).envs == a.envs,
        a.picking_env(target).env_filter == a.env_filter,
        a.picking_env(target).new_task == a.new_task,
{
}

/// Something is being run while a diff is tried and while it is applied, and at no other time.
pub proof fn law_trying_and_applying_are_running(s: ApplyStage)
    ensures
        s.running() <==> s == ApplyStage::PreflightRunning || s == ApplyStage::Applying,
{
}

/// The sign turns through four shapes, and comes round after them.
pub proof fn law_the_sign_turns_round(n: int)
    requires
        n >= 0,
    ensures
        spinner_sign(n + 4) == spinner_sign(n),
        spinner_sign(n + 1) != spinner_sign(n),
        spinner_sign(n + 2) != spinner_sign(n),
        spinner_sign(n + 3) != spinner_sign(n),
        spinner_sign(n) == '|' ==> spinner_sign(n + 1) == '/',
        spinner_sign(n) == '/' ==> spinner_sign(n + 1) == '-',
        spinner_sign(n) == '-' ==> spinner_sign(n + 1) == '\\',
        spinner_sign(0) == '|',
{
}

/// The terminal starts with no task, with what was asked for on the command line, and within
/// bounds: one to fifty tasks, and at least a second between two looks. The environments are asked
/// for first, then the tasks of the environment that was named.
pub proof fn law_the_terminal_starts_as_asked(
    base_url: Seq<char>,
    limit: i64,
    refresh: int,
    poll: int,
    codex_home: Seq<char>,
    worktree_dir: Option<Seq<char>>,
    env_filter: Option<Seq<char>>,
    now: int,
)
    ensures
        ({
            let s = started(
                base_url,
                limit,
                refresh,
                poll,
                codex_home,
                worktree_dir,
                env_filter,
                now,
            );
            &&& s.app.wf()
            &&& s.app.base_url == base_url
            &&& 1 <= s.app.limit <= 50
            &&& 1 <= limit <= 50 ==> s.app.limit == limit
            &&& limit < 1 ==> s.app.limit == 1
            &&& limit > 50 ==> s.app.limit == 50
            &&& refresh >= 1 ==> s.app.list_refresh_interval == refresh
            &&& refresh < 1 ==> s.app.list_refresh_interval == 1
            &&& poll >= 1 ==> s.app.detail_refresh_interval == poll
            &&& poll < 1 ==> s.app.detail_refresh_interval == 1
            &&& worktree_dir matches Some(d) ==> s.app.worktree_dir == d
            &&& worktree_dir is None ==> s.app.worktree_dir == path_join(
                codex_home,
                "worktrees"@,
            )
            &&& s.app.env_filter == env_filter
            &&& s.app.tasks.len() == 0 && s.app.envs.len() == 0
            &&& s.app.details is None && s.app.new_task is None && s.app.apply_modal is None
            &&& s.app.env_modal is None && s.app.attempts_modal is None && !s.app.show_help
            &&& s.app.status == "Loading tasks\u{2026}"@
            &&& s.app.list_refresh_inflight
            &&& s.app.last_list_refresh == now
            &&& s.app.list_generation == 1
            &&& s.app.spinner == 0 && !s.app.env_loading && s.app.env_error is None
            &&& s.effects.len() == 2
            &&& s.effects[0] == EffectView::LoadEnvs
            &&& s.effects[1] == (EffectView::ListTasks {
                generation: s.app.list_generation,
                env: env_filter,
                limit: s.app.limit,
            })
        }),
{
}

/// A task of which nothing has been written has one attempt, asks no question and is not sent.
pub proof fn law_a_new_task_starts_plain(
    env_id: Option<Seq<char>>,
    env_label: Option<Seq<char>>,
    git_ref: Seq<char>,
)
    ensures
        ({
            let t = NewTaskView::fresh(env_id, env_label, git_ref);
            &&& t.env_id == env_id && t.env_label == env_label && t.git_ref == git_ref
            &&& t.attempts == 1 && !t.qa_mode && !t.submitting
        }),
{
}

} // verus!
