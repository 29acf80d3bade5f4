//! What the terminal interface does with news from outside.
use vstd::prelude::*;

use crate::app::{
    both, find_label, label_of, App, AppView, ApplyModalView, ApplyStage, Effect, EffectView,
    NewTaskView, Step,
};
use crate::details::{AttemptInfo, AttemptView, DetailsState, DetailsView};
use crate::env_api::{EnvView, Environment};
use crate::env_list::{env_order, law_environments_have_an_order};
use crate::model::{
    ApplyOutcome, ApplyStatus, ApplyView, DiffSummary, TaskStatus, TaskSummary, TaskView,
};
use crate::number::{decimal, usize_text};
use crate::order::{
    in_order, is_order, law_sort_keeps_items, law_sort_orders, ordered, sort, Before, Ranked,
};
use crate::outcome::outcome;
use crate::pr::{PrCreateResult, PrResultView};
use crate::row::no_items;
use crate::text::{has_suffix, lemma_two_parts, same};
use crate::time::{later, Timestamp};

verus! {

/// The order in which tasks are listed: what was changed last comes first.
pub open spec fn task_order() -> Before<TaskView> {
    |a: TaskView, b: TaskView| later(a.updated_at, b.updated_at)
}

impl Ranked for TaskSummary {
    open spec fn order() -> Before<TaskView> {
        task_order()
    }

    fn is_before(&self, other: &Self) -> (r: bool) {
        self.updated_at.is_after(&other.updated_at)
    }
}

/// The order in which tasks are listed is an order.
pub proof fn law_tasks_have_an_order()
    ensures
        is_order(task_order()),
{
}

/// All that is known of a task.
#[derive(Debug)]
pub struct TaskDetailsPayload {
    pub summary: TaskSummary,
    pub attempts: Vec<AttemptInfo>,
}

impl DeepView for TaskDetailsPayload {
    type V = (TaskView, Seq<AttemptView>);

    open spec fn deep_view(&self) -> (TaskView, Seq<AttemptView>) {
        (self.summary.deep_view(), self.attempts.deep_view())
    }
}

/// News from outside. An error is what is said of it.
#[allow(inconsistent_fields)]
#[derive(Debug)]
pub enum AppEvent {
    TasksLoaded {
        generation: u64,
        env: Option<String>,
        result: Result<Vec<TaskSummary>, String>,
    },
    EnvsLoaded(Result<Vec<Environment>, String>),
    /// The id of the task that was created.
    NewTaskCreated(Result<String, String>),
    DetailsLoaded { task_id: String, result: Result<TaskDetailsPayload, String> },
    ApplyPreflightDone {
        task_id: String,
        result: Result<(ApplyOutcome, Option<String>), String>,
    },
    ApplyDone { task_id: String, result: Result<(ApplyOutcome, Option<String>), String> },
    PrDone { task_id: String, result: Result<PrCreateResult, String> },
}

/// An [`AppEvent`] as the contracts speak of it.
#[allow(inconsistent_fields)]
pub enum EventView {
    TasksLoaded {
        generation: u64,
        env: Option<Seq<char>>,
        result: Result<Seq<TaskView>, Seq<char>>,
    },
    EnvsLoaded(Result<Seq<EnvView>, Seq<char>>),
    NewTaskCreated(Result<Seq<char>, Seq<char>>),
    DetailsLoaded {
        task_id: Seq<char>,
        result: Result<(TaskView, Seq<AttemptView>), Seq<char>>,
    },
    ApplyPreflightDone {
        task_id: Seq<char>,
        result: Result<(ApplyView, Option<Seq<char>>), Seq<char>>,
    },
    ApplyDone {
        task_id: Seq<char>,
        result: Result<(ApplyView, Option<Seq<char>>), Seq<char>>,
    },
    PrDone { task_id: Seq<char>, result: Result<PrResultView, Seq<char>> },
}

impl DeepView for AppEvent {
    type V = EventView;

    open spec fn deep_view(&self) -> EventView {
        match self {
            AppEvent::TasksLoaded { generation, env, result } => EventView::TasksLoaded {
                generation: *generation,
                env: env.deep_view(),
                result: outcome(*result),
            },
            AppEvent::EnvsLoaded(result) => EventView::EnvsLoaded(outcome(*result)),
            AppEvent::NewTaskCreated(result) => EventView::NewTaskCreated(outcome(*result)),
            AppEvent::DetailsLoaded { task_id, result } => EventView::DetailsLoaded {
                task_id: task_id@,
                result: outcome(*result),
            },
            AppEvent::ApplyPreflightDone { task_id, result } => EventView::ApplyPreflightDone {
                task_id: task_id@,
                result: outcome(*result),
            },
            AppEvent::ApplyDone { task_id, result } => EventView::ApplyDone {
                task_id: task_id@,
                result: outcome(*result),
            },
            AppEvent::PrDone { task_id, result } => EventView::PrDone {
                task_id: task_id@,
                result: outcome(*result),
            },
        }
    }
}

/// Where in `s` the first task with this id stands; its length where there is none.
pub open spec fn task_place(s: Seq<TaskView>, id: Seq<char>) -> int
    decreases s.len(),
{
    if s.len() == 0 || s[0].id == id {
        0
    } else {
        1 + task_place(s.drop_first(), id)
    }
}

proof fn lemma_task_place(s: Seq<TaskView>, id: Seq<char>, i: int)
    requires
        0 <= i <= s.len(),
        forall|j: int| 0 <= j < i ==> (#[trigger] s[j]).id != id,
        i == s.len() || s[i].id == id,
    ensures
        task_place(s, id) == i,
    decreases s.len(),
{
    if i > 0 {
        assert(s[0].id != id);
        assert forall|j: int| 0 <= j < i - 1 implies (#[trigger] s.drop_first()[j]).id != id by {
            assert(s.drop_first()[j] == s[j + 1]);
        }
        lemma_task_place(s.drop_first(), id, i - 1);
    }
}

proof fn lemma_task_place_bounds(s: Seq<TaskView>, id: Seq<char>)
    ensures
        0 <= task_place(s, id) <= s.len(),
        task_place(s, id) < s.len() ==> s[task_place(s, id)].id == id,
        forall|j: int| 0 <= j < task_place(s, id) ==> (#[trigger] s[j]).id != id,
    decreases s.len(),
{
    if s.len() > 0 && s[0].id != id {
        lemma_task_place_bounds(s.drop_first(), id);
        assert forall|j: int| 0 <= j < task_place(s, id) implies (#[trigger] s[j]).id != id by {
            if j > 0 {
                assert(s.drop_first()[j - 1] == s[j]);
            }
        }
    }
}

fn find_task(tasks: &Vec<TaskSummary>, id: &str) -> (r: usize)
    ensures
        r == task_place(tasks.deep_view(), id@),
        r <= tasks@.len(),
{
    assert(tasks.deep_view().len() == tasks@.len());
    let mut i: usize = 0;
    while i < tasks.len() && !same(&tasks[i].id, id)
        invariant
            i <= tasks@.len(),
            forall|j: int| 0 <= j < i ==> (#[trigger] tasks.deep_view()[j]).id != id@,
        decreases tasks@.len() - i,
    {
        assert(tasks.deep_view()[i as int] == tasks@[i as int].deep_view());
        i += 1;
    }
    proof {
        if i < tasks@.len() {
            assert(tasks.deep_view()[i as int] == tasks@[i as int].deep_view());
        }
        lemma_task_place(tasks.deep_view(), id@, i as int);
    }
    i
}

/// A task that was just created, before anything is known of it.
pub open spec fn placeholder(id: Seq<char>, date: (int, int)) -> TaskView {
    TaskView {
        id,
        title: "(loading\u{2026})"@,
        status: TaskStatus::Pending,
        updated_at: date,
        environment_id: None,
        environment_label: None,
        summary: DiffSummary { files_changed: 0, lines_added: 0, lines_removed: 0 },
        is_review: false,
        attempt_total: None,
    }
}

impl AppView {
    /// The place of the selection among other tasks: on the same task, where it is among them, and
    /// otherwise where it stood, as far as that goes.
    pub open spec fn reselected(self, tasks: Seq<TaskView>) -> int {
        let last = if tasks.len() > 0 {
            tasks.len() - 1
        } else {
            0
        };
        if self.selected_task() is Some && task_place(tasks, self.selected_task()->0.id)
            < tasks.len() {
            task_place(tasks, self.selected_task()->0.id)
        } else if self.selected < last {
            self.selected
        } else {
            last
        }
    }

    /// With the tasks that were asked for.
    pub open spec fn with_tasks(
        self,
        generation: u64,
        env: Option<Seq<char>>,
        result: Result<Seq<TaskView>, Seq<char>>,
    ) -> AppView {
        let a = AppView { list_refresh_inflight: false, ..self };
        if generation != self.list_generation {
            self
        } else {
            match result {
                Err(e) => a.saying("Refresh failed: "@ + e),
                Ok(loaded) => {
                    let tasks = in_order(loaded, task_order());
                    AppView {
                        tasks,
                        selected: self.reselected(tasks),
                        env_filter_label: match env {
                            Some(id) => label_of(self.envs, id),
                            None => None,
                        },
                        status: decimal(tasks.len() as int) + " task(s) loaded"@,
                        ..a
                    }
                },
            }
        }
    }

    /// With the environments that were asked for.
    pub open spec fn with_envs(self, result: Result<Seq<EnvView>, Seq<char>>) -> AppView {
        match result {
            Ok(envs) => AppView {
                env_loading: false,
                envs: in_order(envs, env_order()),
                env_error: None,
                ..self
            },
            Err(e) => AppView { env_loading: false, env_error: Some(e), ..self },
        }
    }

    /// With what came of creating a task.
    pub open spec fn with_created(
        self,
        result: Result<Seq<char>, Seq<char>>,
        now: int,
        date: (int, int),
    ) -> Step {
        let a = AppView {
            new_task: match self.new_task {
                Some(t) => Some(NewTaskView { submitting: false, ..t }),
                None => None,
            },
            ..self
        };
        match result {
            Err(e) => a.saying("Task create failed: "@ + e).quiet(),
            Ok(id) => {
                let s = a.saying("Created task "@ + id).listing_tasks(now);
                let t = (AppView {
                    details: Some(
                        DetailsView::opened(
                            placeholder(id, date),
                            self.detail_refresh_interval,
                            now,
                        ),
                    ),
                    new_task: None,
                    ..s.app
                }).loading_details(now);
                Step { app: t.app, effects: s.effects + t.effects }
            },
        }
    }

    /// With all that is known of a task.
    pub open spec fn with_details(
        self,
        task_id: Seq<char>,
        result: Result<(TaskView, Seq<AttemptView>), Seq<char>>,
        now: int,
    ) -> AppView {
        match self.details {
            Some(d) if d.task_id == task_id => {
                let seen = DetailsView { loading: false, ..d };
                match result {
                    Err(e) => (AppView { details: Some(seen), ..self }).saying(
                        "Failed to load task details: "@ + e,
                    ),
                    Ok(p) => if p.0.id == task_id {
                        AppView { details: Some(seen.refreshed(p.0, p.1, now)), ..self }
                    } else {
                        AppView { details: Some(seen), ..self }
                    },
                }
            },
            _ => self,
        }
    }

    /// With what came of trying the diff.
    pub open spec fn with_preflight(
        self,
        task_id: Seq<char>,
        result: Result<(ApplyView, Option<Seq<char>>), Seq<char>>,
    ) -> AppView {
        match self.apply_modal {
            Some(m) if m.task_id == task_id => {
                let n = ApplyModalView { stage: ApplyStage::PreflightDone, ..m };
                AppView {
                    apply_modal: Some(
                        match result {
                            Ok(p) => ApplyModalView {
                                preflight: Some(p.0),
                                worktree_path: p.1,
                                error: None,
                                ..n
                            },
                            Err(e) => ApplyModalView { error: Some(e), ..n },
                        },
                    ),
                    ..self
                }
            },
            _ => self,
        }
    }

    /// With what came of applying the diff: a pull request follows where one is wanted and anything
    /// was applied.
    pub open spec fn with_applied(
        self,
        task_id: Seq<char>,
        result: Result<(ApplyView, Option<Seq<char>>), Seq<char>>,
    ) -> Step {
        match self.apply_modal {
            Some(m) if m.task_id == task_id => {
                let n = ApplyModalView { stage: ApplyStage::Done, ..m };
                match result {
                    Ok(p) => {
                        let a = AppView {
                            apply_modal: Some(
                                ApplyModalView {
                                    apply: Some(p.0),
                                    worktree_path: p.1,
                                    error: None,
                                    ..n
                                },
                            ),
                            ..self
                        };
                        if m.create_pr && p.0.status.some_applied() {
                            a.creating_pr()
                        } else {
                            a.quiet()
                        }
                    },
                    Err(e) => (AppView {
                        apply_modal: Some(ApplyModalView { error: Some(e), ..n }),
                        ..self
                    }).quiet(),
                }
            },
            _ => self.quiet(),
        }
    }

    /// With what came of creating a pull request.
    pub open spec fn with_pr(
        self,
        task_id: Seq<char>,
        result: Result<PrResultView, Seq<char>>,
    ) -> AppView {
        match self.apply_modal {
            Some(m) if m.task_id == task_id => AppView {
                apply_modal: Some(
                    match result {
                        Ok(r) => ApplyModalView { pr: Some(r), ..m },
                        Err(e) => ApplyModalView {
                            error: Some("PR create failed: "@ + e),
                            ..m
                        },
                    },
                ),
                ..self
            },
            _ => self,
        }
    }

    /// What comes of news from outside.
    pub open spec fn on_event(self, e: EventView, now: int, date: (int, int)) -> Step {
        match e {
            EventView::TasksLoaded { generation, env, result } => self.with_tasks(
                generation,
                env,
                result,
            ).quiet(),
            EventView::EnvsLoaded(result) => self.with_envs(result).quiet(),
            EventView::NewTaskCreated(result) => self.with_created(result, now, date),
            EventView::DetailsLoaded { task_id, result } => self.with_details(
                task_id,
                result,
                now,
            ).quiet(),
            EventView::ApplyPreflightDone { task_id, result } => self.with_preflight(
                task_id,
                result,
            ).quiet(),
            EventView::ApplyDone { task_id, result } => self.with_applied(task_id, result),
            EventView::PrDone { task_id, result } => self.with_pr(task_id, result).quiet(),
        }
    }
}

impl App {
    fn on_tasks(
        &mut self,
        generation: u64,
        env: Option<String>,
        result: Result<Vec<TaskSummary>, String>,
    )
        requires
            old(self).deep_view().wf(),
        ensures
            final(self).deep_view() == old(self).deep_view().with_tasks(
                generation,
                env.deep_view(),
                outcome(result),
            ),
            final(self).deep_view().wf(),
    {
        if generation != self.list_generation {
            return;
        }
        let ghost before = self.deep_view();
        self.list_refresh_inflight = false;
        match result {
            Err(e) => {
                let mut s = "Refresh failed: ".to_string();
                s.append(&e);
                self.status = s;
            },
            Ok(loaded) => {
                let tasks = sort(loaded);
                let n: usize = tasks.len();
                assert(tasks.deep_view().len() == tasks@.len());
                let last: usize = if n > 0 {
                    n - 1
                } else {
                    0
                };
                let at: usize = match self.selected_task() {
                    Some(t) => find_task(&tasks, &t.id),
                    None => n,
                };
                proof {
                    if before.selected_task() is Some {
                        lemma_task_place_bounds(tasks.deep_view(), before.selected_task()->0.id);
                    }
                }
                self.tasks = tasks;
                if at < n {
                    self.selected = at;
                } else if self.selected >= last {
                    self.selected = last;
                }
                self.env_filter_label = match &env {
                    Some(id) => find_label(&self.envs, id),
                    None => None,
                };
                let mut s = usize_text(n);
                s.append(" task(s) loaded");
                self.status = s;
            },
        }
    }

    fn on_created(&mut self, result: Result<String, String>, now: u128, date: Timestamp) -> (r: Vec<
        Effect,
    >)
        requires
            old(self).deep_view().wf(),
        ensures
            final(self).deep_view() == old(self).deep_view().with_created(
                outcome(result),
                now as int,
                date@,
            ).app,
            r.deep_view() == old(self).deep_view().with_created(
                outcome(result),
                now as int,
                date@,
            ).effects,
            final(self).deep_view().wf(),
    {
        if let Some(t) = &mut self.new_task {
            t.submitting = false;
        }
        match result {
            Err(e) => {
                let mut s = "Task create failed: ".to_string();
                s.append(&e);
                self.status = s;
                no_items()
            },
            Ok(id) => {
                let mut s = "Created task ".to_string();
                s.append(&id);
                self.status = s;
                let first = self.refresh_tasks(now);
                let task = TaskSummary {
                    id,
                    title: "(loading\u{2026})".to_string(),
                    status: TaskStatus::Pending,
                    updated_at: date,
                    environment_id: None,
                    environment_label: None,
                    summary: DiffSummary { files_changed: 0, lines_added: 0, lines_removed: 0 },
                    is_review: false,
                    attempt_total: None,
                };
                self.details = Some(DetailsState::new(&task, self.detail_refresh_interval, now));
                self.new_task = None;
                let second = self.refresh_details(now);
                both(first, second)
            },
        }
    }

    fn on_details(
        &mut self,
        task_id: String,
        result: Result<TaskDetailsPayload, String>,
        now: u128,
    )
        requires
            old(self).deep_view().wf(),
        ensures
            final(self).deep_view() == old(self).deep_view().with_details(
                task_id@,
                outcome(result),
                now as int,
            ),
            final(self).deep_view().wf(),
    {
        let mut failure: Option<String> = None;
        match &mut self.details {
            None => {
                return;
            },
            Some(d) => {
                if !same(&d.task_id, &task_id) {
                    return;
                }
                d.loading = false;
                match result {
                    Ok(p) => {
                        if same(&p.summary.id, &task_id) {
                            d.refresh(&p.summary, p.attempts, now);
                        }
                    },
                    Err(e) => {
                        failure = Some(e);
                    },
                }
            },
        }
        match failure {
            Some(e) => {
                let mut s = "Failed to load task details: ".to_string();
                s.append(&e);
                self.status = s;
            },
            None => {},
        }
    }

    fn on_preflight(
        &mut self,
        task_id: String,
        result: Result<(ApplyOutcome, Option<String>), String>,
    )
        ensures
            final(self).deep_view() == old(self).deep_view().with_preflight(
                task_id@,
                outcome(result),
            ),
    {
        if let Some(m) = &mut self.apply_modal {
            if !same(&m.task_id, &task_id) {
                return;
            }
            m.stage = ApplyStage::PreflightDone;
            match result {
                Ok((o, path)) => {
                    m.preflight = Some(o);
                    m.worktree_path = path;
                    m.error = None;
                },
                Err(e) => {
                    m.error = Some(e);
                },
            }
        }
    }

    fn on_applied(
        &mut self,
        task_id: String,
        result: Result<(ApplyOutcome, Option<String>), String>,
    ) -> (r: Vec<Effect>)
        ensures
            final(self).deep_view() == old(self).deep_view().with_applied(
                task_id@,
                outcome(result),
            ).app,
            r.deep_view() == old(self).deep_view().with_applied(task_id@, outcome(result)).effects,
    {
        let mut wanted = false;
        match &mut self.apply_modal {
            None => {
                return no_items();
            },
            Some(m) => {
                if !same(&m.task_id, &task_id) {
                    return no_items();
                }
                m.stage = ApplyStage::Done;
                match result {
                    Ok((o, path)) => {
                        wanted = m.create_pr && o.status.applied_some();
                        m.apply = Some(o);
                        m.worktree_path = path;
                        m.error = None;
                    },
                    Err(e) => {
                        m.error = Some(e);
                    },
                }
            },
        }
        if wanted {
            self.create_pr()
        } else {
            no_items()
        }
    }

    fn on_pr(&mut self, task_id: String, result: Result<PrCreateResult, String>)
        ensures
            final(self).deep_view() == old(self).deep_view().with_pr(task_id@, outcome(result)),
    {
        if let Some(m) = &mut self.apply_modal {
            if !same(&m.task_id, &task_id) {
                return;
            }
            match result {
                Ok(r) => {
                    m.pr = Some(r);
                },
                Err(e) => {
                    let mut s = "PR create failed: ".to_string();
                    s.append(&e);
                    m.error = Some(s);
                },
            }
        }
    }

    /// Takes news from outside. `now` is the point in time by the clock of the intervals, and
    /// `date` by that of the calendar.
    pub fn on_app_event(&mut self, e: AppEvent, now: u128, date: Timestamp) -> (r: Vec<Effect>)
        requires
            old(self).deep_view().wf(),
        ensures
            final(self).deep_view() == old(self).deep_view().on_event(
                e.deep_view(),
                now as int,
                date@,
            ).app,
            r.deep_view() == old(self).deep_view().on_event(
                e.deep_view(),
                now as int,
                date@,
            ).effects,
            final(self).deep_view().wf(),
    {
        match e {
            AppEvent::TasksLoaded { generation, env, result } => {
                self.on_tasks(generation, env, result);
                no_items()
            },
            AppEvent::EnvsLoaded(result) => {
                self.env_loading = false;
                match result {
                    Ok(envs) => {
                        self.envs = sort(envs);
                        self.env_error = None;
                    },
                    Err(e) => {
                        self.env_error = Some(e);
                    },
                }
                no_items()
            },
            AppEvent::NewTaskCreated(result) => self.on_created(result, now, date),
            AppEvent::DetailsLoaded { task_id, result } => {
                self.on_details(task_id, result, now);
                no_items()
            },
            AppEvent::ApplyPreflightDone { task_id, result } => {
                self.on_preflight(task_id, result);
                no_items()
            },
            AppEvent::ApplyDone { task_id, result } => self.on_applied(task_id, result),
            AppEvent::PrDone { task_id, result } => {
                self.on_pr(task_id, result);
                no_items()
            },
        }
    }
}

/// News keep the state in shape.
pub proof fn law_news_keep_the_state_in_shape(a: AppView, e: EventView, now: int, date: (int, int))
    requires
        a.wf(),
    ensures
        a.on_event(e, now, date).app.wf(),
{
    if let EventView::TasksLoaded { generation, env, result } = e {
        if result is Ok {
            let tasks = in_order(result->Ok_0, task_order());
            if a.selected_task() is Some {
                lemma_task_place_bounds(tasks, a.selected_task()->0.id);
            }
        }
    }
}

/// Tasks that were asked for before the last time change nothing.
pub proof fn law_late_tasks_change_nothing(
    a: AppView,
    generation: u64,
    env: Option<Seq<char>>,
    result: Result<Seq<TaskView>, Seq<char>>,
    now: int,
    date: (int, int),
)
    requires
        generation != a.list_generation,
    ensures
        a.on_event(EventView::TasksLoaded { generation, env, result }, now, date) == a.quiet(),
{
}

/// News of a task that is not looked at, and of a diff that is not being applied, change nothing.
pub proof fn law_news_of_other_tasks_change_nothing(
    a: AppView,
    task_id: Seq<char>,
    details: Result<(TaskView, Seq<AttemptView>), Seq<char>>,
    applied: Result<(ApplyView, Option<Seq<char>>), Seq<char>>,
    pr: Result<PrResultView, Seq<char>>,
    now: int,
    date: (int, int),
)
    ensures
        !(a.details matches Some(d) && d.task_id == task_id) ==> a.on_event(
            EventView::DetailsLoaded { task_id, result: details },
            now,
            date,
        ) == a.quiet(),
        !(a.apply_modal matches Some(m) && m.task_id == task_id) ==> {
            &&& a.on_event(
                EventView::ApplyPreflightDone { task_id, result: applied },
                now,
                date,
            ) == a.quiet()
            &&& a.on_event(EventView::ApplyDone { task_id, result: applied }, now, date)
                == a.quiet()
            &&& a.on_event(EventView::PrDone { task_id, result: pr }, now, date) == a.quiet()
        },
{
}

/// The selection stays on the same task wherever the list still holds it.
pub proof fn law_the_selection_stays_on_its_task(
    a: AppView,
    env: Option<Seq<char>>,
    loaded: Seq<TaskView>,
    now: int,
    date: (int, int),
)
    requires
        a.selected_task() is Some,
        exists|i: int|
            0 <= i < loaded.len() && (#[trigger] loaded[i]).id == a.selected_task()->0.id,
    ensures
        ({
            let b = a.on_event(
                EventView::TasksLoaded { generation: a.list_generation, env, result: Ok(loaded) },
                now,
                date,
            ).app;
            b.selected_task() is Some && b.selected_task()->0.id == a.selected_task()->0.id
        }),
{
    let id = a.selected_task()->0.id;
    let tasks = in_order(loaded, task_order());
    let i = choose|i: int| 0 <= i < loaded.len() && (#[trigger] loaded[i]).id == id;
    law_sort_keeps_items(loaded, task_order());
    broadcast use vstd::seq_lib::group_to_multiset_ensures;

    assert(loaded.to_multiset().count(loaded[i]) > 0);
    assert(tasks.contains(loaded[i]));
    let k = choose|k: int| 0 <= k < tasks.len() && tasks[k] == loaded[i];
    lemma_task_place_bounds(tasks, id);
    assert(tasks[k].id == id);
}

/// The list shows each task that was loaded, and what was changed last first.
pub proof fn law_tasks_are_listed_newest_first(
    a: AppView,
    env: Option<Seq<char>>,
    loaded: Seq<TaskView>,
    now: int,
    date: (int, int),
)
    ensures
        ({
            let b = a.on_event(
                EventView::TasksLoaded { generation: a.list_generation, env, result: Ok(loaded) },
                now,
                date,
            ).app;
            &&& b.tasks.to_multiset() == loaded.to_multiset()
            &&& ordered(b.tasks, task_order())
        }),
{
    law_tasks_have_an_order();
    law_sort_keeps_items(loaded, task_order());
    law_sort_orders(loaded, task_order());
}

/// A pull request follows an applied diff only where one is wanted and anything of the diff was
/// applied; and no other news brings one about.
pub proof fn law_a_pr_follows_what_was_applied(
    a: AppView,
    e: EventView,
    now: int,
    date: (int, int),
    i: int,
)
    requires
        0 <= i < a.on_event(e, now, date).effects.len(),
        a.on_event(e, now, date).effects[i] is CreatePr,
    ensures
        e matches EventView::ApplyDone { task_id, result } && result is Ok
            && result->Ok_0.0.status.some_applied() && a.apply_modal is Some
            && a.apply_modal->0.create_pr && a.apply_modal->0.task_id == task_id,
{
}

/// Tasks that were asked for last replace those of the list, newest first, and their number is told;
/// the label of the environment that they are of is shown. Where they could not be had, the list
/// stays, and that is said. Either way they can be asked for again.
pub proof fn law_loaded_tasks_are_listed(
    a: AppView,
    env: Option<Seq<char>>,
    loaded: Seq<TaskView>,
    error: Seq<char>,
    i: int,
    j: int,
)
    ensures
        ({
            let b = a.with_tasks(a.list_generation, env, Ok(loaded));
            let c = a.with_tasks(a.list_generation, env, Err(error));
            &&& b.tasks.to_multiset() == loaded.to_multiset()
            &&& b.tasks.len() == loaded.len()
            &&& 0 <= i < j < b.tasks.len() ==> b.tasks[i].updated_at.0 > b.tasks[j].updated_at.0
                || b.tasks[i].updated_at.0 == b.tasks[j].updated_at.0 && b.tasks[i].updated_at.1
                >= b.tasks[j].updated_at.1
            &&& !b.list_refresh_inflight
            &&& b.status == decimal(loaded.len() as int) + " task(s) loaded"@
            &&& env matches Some(id) ==> b.env_filter_label == label_of(a.envs, id)
            &&& env is None ==> b.env_filter_label is None
            &&& b.env_filter == a.env_filter && b.details == a.details && b.envs == a.envs
            &&& !c.list_refresh_inflight
            &&& c.tasks == a.tasks && c.selected == a.selected
            &&& has_suffix(c.status, error)
        }),
{
    law_tasks_have_an_order();
    law_sort_keeps_items(loaded, task_order());
    law_sort_orders(loaded, task_order());
    let t = in_order(loaded, task_order());
    if 0 <= i < j < t.len() {
        assert(!task_order()(t[j], t[i]));
    }
    lemma_two_parts("Refresh failed: "@, error);
}

/// Where the selected task is no longer listed, the selection stays at its place, or goes to the
/// last task where there are fewer.
pub proof fn law_the_selection_stays_at_its_place(a: AppView, tasks: Seq<TaskView>)
    requires
        0 <= a.selected < a.tasks.len(),
        forall|i: int| 0 <= i < tasks.len() ==> (#[trigger] tasks[i]).id != a.tasks[a.selected].id,
    ensures
        a.selected < tasks.len() ==> a.reselected(tasks) == a.selected,
        a.selected >= tasks.len() && tasks.len() > 0 ==> a.reselected(tasks) == tasks.len() - 1,
        tasks.len() == 0 ==> a.reselected(tasks) == 0,
{
    lemma_task_place(tasks, a.tasks[a.selected].id, tasks.len() as int);
}

/// Environments that were loaded replace those that were known, pinned ones first, and clear an
/// error; an error is kept, and leaves those that were known alone. Either way they are no longer
/// being loaded.
pub proof fn law_loaded_environments_are_known(
    a: AppView,
    envs: Seq<EnvView>,
    error: Seq<char>,
    i: int,
    j: int,
)
    ensures
        a.with_envs(Ok(envs)).envs.to_multiset() == envs.to_multiset(),
        0 <= i < j < a.with_envs(Ok(envs)).envs.len() && a.with_envs(Ok(envs)).envs[j].is_pinned
            == Some(true) ==> a.with_envs(Ok(envs)).envs[i].is_pinned == Some(true),
        !a.with_envs(Ok(envs)).env_loading,
        a.with_envs(Ok(envs)).env_error is None,
        a.with_envs(Err(error)).envs == a.envs,
        !a.with_envs(Err(error)).env_loading,
        a.with_envs(Err(error)).env_error == Some(error),
        a.with_envs(Ok(envs)).tasks == a.tasks,
        a.with_envs(Ok(envs)).env_filter == a.env_filter,
{
    law_environments_have_an_order();
    law_sort_keeps_items(envs, env_order());
    law_sort_orders(envs, env_order());
    let s = in_order(envs, env_order());
    if 0 <= i < j < s.len() {
        assert(!env_order()(s[j], s[i]));
    }
}

/// Nothing is known yet of a task that was just created but its id and when it was: it is pending,
/// belongs to no environment, changes nothing and is no review.
pub proof fn law_a_created_task_is_still_unknown(id: Seq<char>, date: (int, int))
    ensures
        ({
            let t = placeholder(id, date);
            &&& t.id == id
            &&& t.updated_at == date
            &&& t.title == "(loading\u{2026})"@
            &&& t.status == TaskStatus::Pending
            &&& t.environment_id is None && t.environment_label is None
            &&& t.summary.files_changed == 0 && t.summary.lines_added == 0
                && t.summary.lines_removed == 0
            &&& !t.is_review && t.attempt_total is None
        }),
{
}

/// A task that was created is opened at once, and all that is known of it and of the list is asked
/// for; where it could not be created it stays as it was written, and can be sent again.
pub proof fn law_a_created_task_is_opened(
    a: AppView,
    id: Seq<char>,
    error: Seq<char>,
    now: int,
    date: (int, int),
)
    ensures
        ({
            let s = a.with_created(Ok(id), now, date);
            let f = a.with_created(Err(error), now, date);
            &&& s.app.details matches Some(d) && d.task_id == id && d.loading && d.status
                == TaskStatus::Pending && d.updated_at == date && d.refresh_interval
                == a.detail_refresh_interval
            &&& s.app.new_task is None
            &&& has_suffix(s.app.status, id)
            &&& s.effects.len() > 0 && s.effects.last() == (EffectView::LoadDetails { task_id: id })
            &&& !a.list_refresh_inflight ==> s.effects.len() == 2 && s.effects[0] is ListTasks
            &&& a.list_refresh_inflight ==> s.effects.len() == 1
            &&& f.effects.len() == 0
            &&& has_suffix(f.app.status, error)
            &&& f.app.details == a.details
            &&& a.new_task matches Some(t) ==> (f.app.new_task matches Some(u) && !u.submitting
                && u.env_id == t.env_id && u.attempts == t.attempts && u.git_ref == t.git_ref
                && u.qa_mode == t.qa_mode)
        }),
{
    lemma_two_parts("Created task "@, id);
    lemma_two_parts("Task create failed: "@, error);
}

/// What was asked for of the task that is looked at is taken in, with its attempts; an answer of
/// another task is not, and an error is said. Either way it is no longer being loaded.
pub proof fn law_loaded_details_are_shown(
    a: AppView,
    d: DetailsView,
    t: TaskView,
    attempts: Seq<AttemptView>,
    error: Seq<char>,
    now: int,
)
    requires
        a.details == Some(d),
        d.wf(),
    ensures
        ({
            let b = a.with_details(d.task_id, Ok((t, attempts)), now);
            let c = a.with_details(d.task_id, Err(error), now);
            &&& b.details matches Some(e) && {
                &&& !e.loading
                &&& e.task_id == d.task_id
                &&& t.id == d.task_id ==> e.attempts == attempts && e.title == t.title && e.status
                    == t.status && e.last_refresh == now && e.summary == t.summary
                &&& t.id != d.task_id ==> e.attempts == d.attempts && e.title == d.title
                &&& e.tab == d.tab
            }
            &&& c.details matches Some(e) && !e.loading && e.attempts == d.attempts && e.task_id
                == d.task_id
            &&& has_suffix(c.status, error)
            &&& b.tasks == a.tasks && c.tasks == a.tasks
        }),
{
    lemma_two_parts("Failed to load task details: "@, error);
}

/// What came of trying and of applying the diff in the box is kept there, each in its place, with
/// the worktree in which that was; an error is kept too. The diff itself is left alone.
pub proof fn law_what_came_of_the_diff_is_kept(
    a: AppView,
    m: ApplyModalView,
    o: ApplyView,
    path: Option<Seq<char>>,
    error: Seq<char>,
)
    requires
        a.apply_modal == Some(m),
    ensures
        a.with_preflight(m.task_id, Ok((o, path))).apply_modal matches Some(n) && n.stage
            == ApplyStage::PreflightDone && n.preflight == Some(o) && n.worktree_path == path
            && n.error is None && n.apply == m.apply && n.diff == m.diff && n.task_id == m.task_id
            && n.create_pr == m.create_pr,
        a.with_preflight(m.task_id, Err(error)).apply_modal matches Some(n) && n.stage
            == ApplyStage::PreflightDone && n.error == Some(error) && n.diff == m.diff,
        a.with_applied(m.task_id, Ok((o, path))).app.apply_modal matches Some(n) && n.stage
            == ApplyStage::Done && n.apply == Some(o) && n.worktree_path == path && n.error is None
            && n.preflight == m.preflight && n.diff == m.diff && n.task_id == m.task_id
            && n.create_pr == m.create_pr,
        a.with_applied(m.task_id, Err(error)).app.apply_modal matches Some(n) && n.stage
            == ApplyStage::Done && n.error == Some(error) && n.diff == m.diff,
        a.with_applied(m.task_id, Err(error)).effects.len() == 0,
{
}

/// A pull request is asked for where one is wanted and anything of the diff was applied, and out of
/// the worktree in which that was; what comes of it is kept in the box.
pub proof fn law_a_wanted_pull_request_is_asked_for(
    a: AppView,
    m: ApplyModalView,
    o: ApplyView,
    path: Option<Seq<char>>,
    pr: PrResultView,
    error: Seq<char>,
)
    requires
        a.apply_modal == Some(m),
    ensures
        ({
            let s = a.with_applied(m.task_id, Ok((o, path)));
            &&& m.create_pr && o.status != ApplyStatus::Error ==> s.effects.len() == 1 && (
            s.effects[0] matches EffectView::CreatePr { task_id, dir, plan } && task_id == m.task_id
                && dir == path && plan.branch == m.pr_branch && plan.title == "Codex: "@ + m.title
                + " ("@ + m.task_id + ")"@)
            &&& !m.create_pr || o.status == ApplyStatus::Error ==> s.effects.len() == 0
        }),
        a.with_pr(m.task_id, Ok(pr)).apply_modal matches Some(n) && n.pr == Some(pr) && n.apply
            == m.apply && n.stage == m.stage,
        a.with_pr(m.task_id, Err(error)).apply_modal matches Some(n) && n.pr == m.pr && (n.error
            matches Some(e) && has_suffix(e, error)),
{
    lemma_two_parts("PR create failed: "@, error);
}

/// Each kind of news goes to what it is news of.
pub proof fn law_news_go_where_they_belong(
    a: AppView,
    tasks: Result<Seq<TaskView>, Seq<char>>,
    envs: Result<Seq<EnvView>, Seq<char>>,
    created: Result<Seq<char>, Seq<char>>,
    details: Result<(TaskView, Seq<AttemptView>), Seq<char>>,
    applied: Result<(ApplyView, Option<Seq<char>>), Seq<char>>,
    pr: Result<PrResultView, Seq<char>>,
    id: Seq<char>,
    env: Option<Seq<char>>,
    generation: u64,
    now: int,
    date: (int, int),
)
    ensures
        a.on_event(EventView::TasksLoaded { generation, env, result: tasks }, now, date).app
            == a.with_tasks(generation, env, tasks),
        a.on_event(EventView::EnvsLoaded(envs), now, date).app == a.with_envs(envs),
        a.on_event(EventView::NewTaskCreated(created), now, date) == a.with_created(
            created,
            now,
            date,
        ),
        a.on_event(EventView::DetailsLoaded { task_id: id, result: details }, now, date).app
            == a.with_details(id, details, now),
        a.on_event(EventView::ApplyPreflightDone { task_id: id, result: applied }, now, date).app
            == a.with_preflight(id, applied),
        a.on_event(EventView::ApplyDone { task_id: id, result: applied }, now, date)
            == a.with_applied(id, applied),
        a.on_event(EventView::PrDone { task_id: id, result: pr }, now, date).app == a.with_pr(
            id,
            pr,
        ),
{
}

} // verus!
