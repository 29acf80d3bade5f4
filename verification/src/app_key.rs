//! What the terminal interface does with keys.
use vstd::arithmetic::div_mod::lemma_mod_bound;
use vstd::prelude::*;

use crate::app::{
    env_modal_options, env_options, App, AppView, ApplyModalState, ApplyModalView, ApplyStage,
    AttemptsModalState, Effect, EffectView, EnvModalTarget, EnvModalView, NewTaskView, Step,
};
use crate::details::{least_one, DetailsView};
use crate::env_api::EnvView;
use crate::number::{decimal, usize_text};
use crate::row::{no_items, one_item};
use crate::scroll::{opposite, page_step, ScrollView};
use crate::text::{blank, chars_of, is_blank, text_of};

verus! {

/// A key that the interface knows; any other one is the same to it.
#[derive(Clone, Copy, Debug, PartialEq, Eq, Structural)]
pub enum KeyCode {
    Char(char),
    Esc,
    Enter,
    Backspace,
    Tab,
    BackTab,
    Up,
    Down,
    Left,
    Right,
    PageUp,
    PageDown,
    Home,
    End,
    Other,
}

/// A key that was pressed, and what was held down with it.
#[derive(Clone, Copy, Debug, PartialEq, Eq, Structural)]
pub struct Key {
    pub code: KeyCode,
    pub control: bool,
    pub alt: bool,
}

impl Key {
    /// Whether the key is this letter, in lower or upper case.
    pub open spec fn letter(self, lower: char, upper: char) -> bool {
        self.code == KeyCode::Char(lower) || self.code == KeyCode::Char(upper)
    }

    fn is_letter(self, lower: char, upper: char) -> (r: bool)
        ensures
            r == self.letter(lower, upper),
    {
        match self.code {
            KeyCode::Char(c) => c == lower || c == upper,
            _ => false,
        }
    }

    /// Whether the key quits, wherever it is pressed.
    pub open spec fn quits(self) -> bool {
        self.control && self.letter('c', 'C')
    }
}

/// What comes of a key.
pub struct KeyStep {
    pub step: Step,
    pub quit: bool,
}

/// What is to be done after a key.
#[derive(Debug)]
pub struct Reply {
    pub quit: bool,
    pub effects: Vec<Effect>,
}

/// How many attempts a digit stands for.
pub open spec fn digit_value(code: KeyCode) -> Option<int> {
    match code {
        KeyCode::Char('1') => Some(1),
        KeyCode::Char('2') => Some(2),
        KeyCode::Char('3') => Some(3),
        KeyCode::Char('4') => Some(4),
        _ => None,
    }
}

fn digit_of(code: KeyCode) -> (r: Option<usize>)
    ensures
        match r {
            Some(n) => digit_value(code) == Some(n as int),
            None => digit_value(code) is None,
        },
{
    match code {
        KeyCode::Char(c) => if c == '1' {
            Some(1)
        } else if c == '2' {
            Some(2)
        } else if c == '3' {
            Some(3)
        } else if c == '4' {
            Some(4)
        } else {
            None
        },
        _ => None,
    }
}

impl EnvModalView {
    /// With the selection moved or the query changed by a key.
    pub open spec fn keyed(self, key: Key) -> EnvModalView {
        match key.code {
            KeyCode::Backspace => EnvModalView {
                query: if self.query.len() > 0 {
                    self.query.drop_last()
                } else {
                    self.query
                },
                ..self
            },
            KeyCode::Down | KeyCode::Char('j') => EnvModalView {
                selected: if self.selected < usize::MAX {
                    self.selected + 1
                } else {
                    self.selected
                },
                ..self
            },
            KeyCode::Up | KeyCode::Char('k') => EnvModalView {
                selected: if self.selected > 0 {
                    self.selected - 1
                } else {
                    0
                },
                ..self
            },
            KeyCode::Home => EnvModalView { selected: 0, ..self },
            KeyCode::End => EnvModalView { selected: 9999, ..self },
            KeyCode::Char(c) => if !key.control && !key.alt {
                EnvModalView { query: self.query.push(c), ..self }
            } else {
                self
            },
            _ => self,
        }
    }
}

impl AppView {
    /// A key while a diff is being applied.
    pub open spec fn key_in_apply(self, m: ApplyModalView, key: Key) -> Step {
        let wait = self.saying("Finish the current apply/preflight first."@).quiet();
        if key.code == KeyCode::Esc || key.letter('q', 'Q') {
            if m.stage.running() {
                self.saying("Apply is running\u{2026}"@).quiet()
            } else {
                (AppView { apply_modal: None, ..self }).quiet()
            }
        } else if key.letter('w', 'W') {
            if m.stage.running() {
                wait
            } else {
                (AppView {
                    apply_modal: Some(ApplyModalView { use_worktree: !m.use_worktree, ..m }),
                    ..self
                }).preflighting()
            }
        } else if key.letter('c', 'C') {
            if m.stage.running() {
                wait
            } else {
                (AppView {
                    apply_modal: Some(ApplyModalView { create_pr: !m.create_pr, ..m }),
                    ..self
                }).quiet()
            }
        } else if key.letter('p', 'P') {
            if m.stage.running() {
                wait
            } else {
                self.preflighting()
            }
        } else if key.letter('y', 'Y') && m.stage == ApplyStage::PreflightDone {
            self.applying()
        } else {
            self.quiet()
        }
    }

    /// With an environment picked, or all of them.
    pub open spec fn with_env(self, target: EnvModalTarget, env: Option<EnvView>, now: int) -> Step {
        let id = match env {
            Some(e) => Some(e.id),
            None => None,
        };
        let label = match env {
            Some(e) => e.label,
            None => None,
        };
        match target {
            EnvModalTarget::Filter => (AppView {
                env_filter: id,
                env_filter_label: label,
                env_modal: None,
                ..self
            }).listing_tasks(now),
            EnvModalTarget::NewTask => (AppView {
                new_task: match self.new_task {
                    Some(t) => Some(NewTaskView { env_id: id, env_label: label, ..t }),
                    None => None,
                },
                env_modal: None,
                ..self
            }).quiet(),
        }
    }

    /// A key while an environment is picked.
    pub open spec fn key_in_env(self, em: EnvModalView, key: Key, now: int) -> Step {
        match key.code {
            KeyCode::Esc => (AppView { env_modal: None, ..self }).quiet(),
            KeyCode::Enter => {
                let options = env_options(self.envs, em.query);
                let idx = if em.selected < options.len() {
                    em.selected
                } else {
                    options.len() - 1
                };
                self.with_env(em.target, options[idx], now)
            },
            _ => (AppView { env_modal: Some(em.keyed(key)), ..self }).quiet(),
        }
    }

    /// With a number of attempts picked.
    pub open spec fn with_attempts(self, n: int) -> AppView {
        AppView {
            new_task: match self.new_task {
                Some(t) => Some(NewTaskView { attempts: n, ..t }),
                None => None,
            },
            attempts_modal: None,
            ..self
        }
    }

    /// A key while a number of attempts is picked.
    pub open spec fn key_in_attempts(self, selected: int, key: Key) -> AppView {
        match key.code {
            KeyCode::Esc => AppView { attempts_modal: None, ..self },
            KeyCode::Down | KeyCode::Char('j') => AppView {
                attempts_modal: Some(
                    if selected < 3 {
                        selected + 1
                    } else {
                        3
                    },
                ),
                ..self
            },
            KeyCode::Up | KeyCode::Char('k') => AppView {
                attempts_modal: Some(
                    if selected > 0 {
                        selected - 1
                    } else {
                        0
                    },
                ),
                ..self
            },
            KeyCode::Enter => self.with_attempts(selected + 1),
            _ => match digit_value(key.code) {
                Some(n) => self.with_attempts(n),
                None => self,
            },
        }
    }

    /// A key while a new task is written.
    pub open spec fn key_in_new_task(self, t: NewTaskView, key: Key) -> Step {
        if key.code == KeyCode::Esc {
            (AppView { new_task: None, ..self }).quiet()
        } else if key.control && key.letter('o', 'O') {
            self.picking_env(EnvModalTarget::NewTask).quiet()
        } else if key.control && key.letter('n', 'N') {
            (AppView {
                attempts_modal: Some(
                    if t.attempts < 1 {
                        0
                    } else if t.attempts > 4 {
                        3
                    } else {
                        t.attempts - 1
                    },
                ),
                ..self
            }).quiet()
        } else if key.control && key.letter('q', 'Q') {
            (AppView {
                new_task: Some(NewTaskView { qa_mode: !t.qa_mode, ..t }),
                ..self
            }).quiet()
        } else if t.submitting {
            self.quiet()
        } else {
            Step { app: self, effects: seq![EffectView::Compose] }
        }
    }

    /// With the attempt selected that stands `delta` further on, and its number told.
    pub open spec fn stepping(self, d: DetailsView, delta: int) -> AppView {
        let e = d.stepped(delta);
        (AppView { details: Some(e), ..self }).saying(
            "Viewing attempt "@ + decimal(e.selected_attempt + 1) + " of "@ + decimal(e.total()),
        )
    }

    /// With the diff of the selected attempt being tried.
    pub open spec fn trying(self, d: DetailsView) -> Step {
        match d.current() {
            None => self.quiet(),
            Some(a) => match a.diff {
                Some(diff) if !is_blank(diff) => (AppView {
                    apply_modal: Some(
                        ApplyModalView::fresh(d.task_id, d.title, a.name(), diff, true),
                    ),
                    ..self
                }).preflighting(),
                _ => self.saying("No diff available for this attempt"@).quiet(),
            },
        }
    }

    /// A key while a task is looked at.
    pub open spec fn key_in_details(self, d: DetailsView, key: Key, now: int) -> Step {
        let with = |e: DetailsView| (AppView { details: Some(e), ..self }).quiet();
        let h = d.scroll.state.viewport_h;
        match key.code {
            KeyCode::Esc | KeyCode::Char('q') => (AppView { details: None, ..self }).quiet(),
            KeyCode::Left => with(d.on_tab(d.tab.to_left())),
            KeyCode::Right => with(d.on_tab(d.tab.to_right())),
            KeyCode::Tab => self.stepping(d, 1).quiet(),
            KeyCode::BackTab => self.stepping(d, -1).quiet(),
            KeyCode::Char(']') | KeyCode::Char('}') => with(d.stepped(1)),
            KeyCode::Char('[') | KeyCode::Char('{') => with(d.stepped(-1)),
            KeyCode::Char('r') | KeyCode::Char('R') => self.loading_details(now),
            KeyCode::Down | KeyCode::Char('j') => with(d.scrolled(d.scroll.moved(1))),
            KeyCode::Up | KeyCode::Char('k') => with(d.scrolled(d.scroll.moved(-1))),
            KeyCode::PageDown | KeyCode::Char(' ') => with(
                d.scrolled(d.scroll.moved(page_step(h))),
            ),
            KeyCode::PageUp => with(d.scrolled(d.scroll.moved(opposite(page_step(h))))),
            KeyCode::Home => with(d.scrolled(d.scroll.top())),
            KeyCode::End => with(d.scrolled(d.scroll.bottom())),
            KeyCode::Char('a') | KeyCode::Char('A') => self.trying(d),
            _ => match digit_value(key.code) {
                Some(n) => with(d.picked(n - 1)),
                None => self.quiet(),
            },
        }
    }

    /// A key in the list of tasks.
    pub open spec fn key_in_list(self, key: Key, now: int) -> KeyStep {
        let go = |step: Step| KeyStep { step, quit: false };
        match key.code {
            KeyCode::Esc | KeyCode::Char('q') => KeyStep { step: self.quiet(), quit: true },
            KeyCode::Down | KeyCode::Char('j') => go(
                (AppView {
                    selected: if self.tasks.len() == 0 {
                        self.selected
                    } else if self.selected + 1 < self.tasks.len() {
                        self.selected + 1
                    } else {
                        self.tasks.len() - 1
                    },
                    ..self
                }).quiet(),
            ),
            KeyCode::Up | KeyCode::Char('k') => go(
                (AppView {
                    selected: if self.selected > 0 {
                        self.selected - 1
                    } else {
                        0
                    },
                    ..self
                }).quiet(),
            ),
            KeyCode::Char('r') | KeyCode::Char('R') => go(self.listing_tasks(now)),
            KeyCode::Char('o') | KeyCode::Char('O') => go(
                self.picking_env(EnvModalTarget::Filter).quiet(),
            ),
            KeyCode::Char('n') | KeyCode::Char('N') => go(
                Step { app: self, effects: seq![EffectView::OpenNewTask] },
            ),
            KeyCode::Enter => go(self.opening(now).loading_details(now)),
            KeyCode::Char('?') => go((AppView { show_help: !self.show_help, ..self }).quiet()),
            _ => go(self.quiet()),
        }
    }

    /// What comes of a key: it goes to what lies on top.
    pub open spec fn on_key(self, key: Key, now: int) -> KeyStep {
        let go = |step: Step| KeyStep { step, quit: false };
        if key.quits() {
            KeyStep { step: self.quiet(), quit: true }
        } else if self.apply_modal is Some {
            go(self.key_in_apply(self.apply_modal->0, key))
        } else if self.env_modal is Some {
            go(self.key_in_env(self.env_modal->0, key, now))
        } else if self.attempts_modal is Some {
            go(self.key_in_attempts(self.attempts_modal->0, key).quiet())
        } else if self.new_task is Some {
            go(self.key_in_new_task(self.new_task->0, key))
        } else if self.details is Some {
            go(self.key_in_details(self.details->0, key, now))
        } else {
            self.key_in_list(key, now)
        }
    }
}

/// The state with its choice of environments kept within what is offered.
pub open spec fn settled(a: AppView) -> AppView {
    AppView {
        env_modal: match a.env_modal {
            None => None,
            Some(em) => {
                let n = env_options(a.envs, em.query).len();
                Some(
                    EnvModalView {
                        selected: if em.selected < n {
                            em.selected
                        } else {
                            n - 1
                        },
                        ..em
                    },
                )
            },
        },
        ..a
    }
}

impl App {
    fn apply_key(&mut self, key: Key) -> (r: Vec<Effect>)
        requires
            old(self).apply_modal is Some,
        ensures
            final(self).deep_view() == old(self).deep_view().key_in_apply(
                old(self).deep_view().apply_modal->0,
                key,
            ).app,
            r.deep_view() == old(self).deep_view().key_in_apply(
                old(self).deep_view().apply_modal->0,
                key,
            ).effects,
    {
        let stage = match &self.apply_modal {
            Some(m) => m.stage,
            None => ApplyStage::Done,
        };
        let esc: bool = match key.code {
            KeyCode::Esc => true,
            _ => false,
        };
        if esc || key.is_letter('q', 'Q') {
            if stage.is_running() {
                self.say("Apply is running\u{2026}");
            } else {
                self.apply_modal = None;
            }
        } else if key.is_letter('w', 'W') {
            if stage.is_running() {
                self.say("Finish the current apply/preflight first.");
            } else {
                if let Some(m) = &mut self.apply_modal {
                    m.use_worktree = !m.use_worktree;
                }
                return self.run_preflight();
            }
        } else if key.is_letter('c', 'C') {
            if stage.is_running() {
                self.say("Finish the current apply/preflight first.");
            } else {
                if let Some(m) = &mut self.apply_modal {
                    m.create_pr = !m.create_pr;
                }
            }
        } else if key.is_letter('p', 'P') {
            if stage.is_running() {
                self.say("Finish the current apply/preflight first.");
            } else {
                return self.run_preflight();
            }
        } else if key.is_letter('y', 'Y') {
            if stage == ApplyStage::PreflightDone {
                return self.run_apply();
            }
        }
        no_items()
    }

    fn pick_env(&mut self, now: u128) -> (r: Vec<Effect>)
        requires
            old(self).env_modal is Some,
        ensures
            ({
                let a = old(self).deep_view();
                let em = a.env_modal->0;
                let options = env_options(a.envs, em.query);
                let idx = if em.selected < options.len() {
                    em.selected
                } else {
                    options.len() - 1
                };
                let s = a.with_env(em.target, options[idx], now as int);
                final(self).deep_view() == s.app && r.deep_view() == s.effects
            }),
    {
        let (target, choice) = match &self.env_modal {
            Some(em) => {
                let mut options = env_modal_options(&self.envs, &em.query);
                let n: usize = options.len();
                let idx: usize = if em.selected < n {
                    em.selected
                } else {
                    n - 1
                };
                let ghost all = options.deep_view();
                assert(all.len() == options@.len());
                assert(all[idx as int] == options@[idx as int].deep_view());
                let choice = options.swap_remove(idx);
                (em.target, choice)
            },
            None => (EnvModalTarget::Filter, None),
        };
        let (id, label) = match choice {
            Some(e) => (Some(e.id), e.label),
            None => (None, None),
        };
        self.env_modal = None;
        match target {
            EnvModalTarget::Filter => {
                self.env_filter = id;
                self.env_filter_label = label;
                self.refresh_tasks(now)
            },
            EnvModalTarget::NewTask => {
                if let Some(t) = &mut self.new_task {
                    t.env_id = id;
                    t.env_label = label;
                }
                no_items()
            },
        }
    }

    fn env_key(&mut self, key: Key, now: u128) -> (r: Vec<Effect>)
        requires
            old(self).env_modal is Some,
        ensures
            final(self).deep_view() == old(self).deep_view().key_in_env(
                old(self).deep_view().env_modal->0,
                key,
                now as int,
            ).app,
            r.deep_view() == old(self).deep_view().key_in_env(
                old(self).deep_view().env_modal->0,
                key,
                now as int,
            ).effects,
    {
        match key.code {
            KeyCode::Esc => {
                self.env_modal = None;
                return no_items();
            },
            KeyCode::Enter => {
                return self.pick_env(now);
            },
            _ => {},
        }
        if let Some(em) = &mut self.env_modal {
            match key.code {
                KeyCode::Backspace => {
                    let v = chars_of(&em.query);
                    let n: usize = v.len();
                    if n > 0 {
                        let shorter = text_of(&v, 0, n - 1);
                        assert(shorter@ =~= em.query@.drop_last());
                        em.query = shorter;
                    }
                },
                KeyCode::Down => {
                    if em.selected < usize::MAX {
                        em.selected = em.selected + 1;
                    }
                },
                KeyCode::Up => {
                    if em.selected > 0 {
                        em.selected = em.selected - 1;
                    }
                },
                KeyCode::Home => {
                    em.selected = 0;
                },
                KeyCode::End => {
                    em.selected = 9999;
                },
                KeyCode::Char(c) => {
                    if c == 'j' {
                        if em.selected < usize::MAX {
                            em.selected = em.selected + 1;
                        }
                    } else if c == 'k' {
                        if em.selected > 0 {
                            em.selected = em.selected - 1;
                        }
                    } else if !key.control && !key.alt {
                        em.query.push(c);
                    }
                },
                _ => {},
            }
        }
        no_items()
    }

    fn set_attempts(&mut self, n: usize)
        ensures
            final(self).deep_view() == old(self).deep_view().with_attempts(n as int),
    {
        if let Some(t) = &mut self.new_task {
            t.attempts = n;
        }
        self.attempts_modal = None;
    }

    fn attempts_key(&mut self, key: Key)
        requires
            old(self).attempts_modal is Some,
            old(self).deep_view().wf(),
        ensures
            final(self).deep_view() == old(self).deep_view().key_in_attempts(
                old(self).deep_view().attempts_modal->0,
                key,
            ),
            final(self).deep_view().wf(),
    {
        let selected: usize = match self.attempts_modal {
            Some(m) => m.selected,
            None => 0,
        };
        let down: usize = if selected < 3 {
            selected + 1
        } else {
            3
        };
        let up: usize = if selected > 0 {
            selected - 1
        } else {
            0
        };
        match key.code {
            KeyCode::Esc => {
                self.attempts_modal = None;
            },
            KeyCode::Down => {
                self.attempts_modal = Some(AttemptsModalState { selected: down });
            },
            KeyCode::Up => {
                self.attempts_modal = Some(AttemptsModalState { selected: up });
            },
            KeyCode::Enter => {
                self.set_attempts(selected + 1);
            },
            KeyCode::Char(c) => {
                if c == 'j' {
                    self.attempts_modal = Some(AttemptsModalState { selected: down });
                } else if c == 'k' {
                    self.attempts_modal = Some(AttemptsModalState { selected: up });
                } else {
                    match digit_of(key.code) {
                        Some(n) => {
                            self.set_attempts(n);
                        },
                        None => {},
                    }
                }
            },
            _ => {},
        }
    }

    fn new_task_key(&mut self, key: Key) -> (r: Vec<Effect>)
        requires
            old(self).new_task is Some,
        ensures
            final(self).deep_view() == old(self).deep_view().key_in_new_task(
                old(self).deep_view().new_task->0,
                key,
            ).app,
            r.deep_view() == old(self).deep_view().key_in_new_task(
                old(self).deep_view().new_task->0,
                key,
            ).effects,
    {
        let esc: bool = match key.code {
            KeyCode::Esc => true,
            _ => false,
        };
        if esc {
            self.new_task = None;
            return no_items();
        }
        if key.control && key.is_letter('o', 'O') {
            self.open_env_modal(EnvModalTarget::NewTask);
            return no_items();
        }
        let (attempts, submitting): (usize, bool) = match &self.new_task {
            Some(t) => (t.attempts, t.submitting),
            None => (1, false),
        };
        if key.control && key.is_letter('n', 'N') {
            let selected: usize = if attempts < 1 {
                0
            } else if attempts > 4 {
                3
            } else {
                attempts - 1
            };
            self.attempts_modal = Some(AttemptsModalState { selected });
            return no_items();
        }
        if key.control && key.is_letter('q', 'Q') {
            if let Some(t) = &mut self.new_task {
                t.qa_mode = !t.qa_mode;
            }
            return no_items();
        }
        if submitting {
            return no_items();
        }
        one_item(Effect::Compose)
    }

    fn step_and_tell(&mut self, delta: isize)
        requires
            old(self).details is Some,
            old(self).deep_view().wf(),
        ensures
            final(self).deep_view() == old(self).deep_view().stepping(
                old(self).deep_view().details->0,
                delta as int,
            ),
            final(self).deep_view().wf(),
    {
        let (cur, total): (usize, usize) = match &mut self.details {
            Some(d) => {
                d.step_attempt(delta);
                let n: usize = d.attempts.len();
                assert(d.attempts.deep_view().len() == n);
                (d.selected_attempt + 1, d.attempt_display_total())
            },
            None => (1, 1),
        };
        let mut s = "Viewing attempt ".to_string();
        s.append(&usize_text(cur));
        s.append(" of ");
        s.append(&usize_text(total));
        self.status = s;
    }

    fn try_diff(&mut self) -> (r: Vec<Effect>)
        requires
            old(self).details is Some,
        ensures
            final(self).deep_view() == old(self).deep_view().trying(
                old(self).deep_view().details->0,
            ).app,
            r.deep_view() == old(self).deep_view().trying(
                old(self).deep_view().details->0,
            ).effects,
    {
        let modal: Option<ApplyModalState> = match &self.details {
            None => None,
            Some(d) => match d.current_attempt() {
                None => {
                    return no_items();
                },
                Some(a) => match &a.diff {
                    None => None,
                    Some(diff) => if blank(diff) {
                        None
                    } else {
                        Some(
                            ApplyModalState::new(
                                d.task_id.clone(),
                                d.title.clone(),
                                a.label(),
                                diff.clone(),
                                true,
                            ),
                        )
                    },
                },
            },
        };
        match modal {
            Some(m) => {
                self.apply_modal = Some(m);
                self.run_preflight()
            },
            None => {
                self.say("No diff available for this attempt");
                no_items()
            },
        }
    }

    fn details_key(&mut self, key: Key, now: u128) -> (r: Vec<Effect>)
        requires
            old(self).details is Some,
            old(self).deep_view().wf(),
        ensures
            final(self).deep_view() == old(self).deep_view().key_in_details(
                old(self).deep_view().details->0,
                key,
                now as int,
            ).app,
            r.deep_view() == old(self).deep_view().key_in_details(
                old(self).deep_view().details->0,
                key,
                now as int,
            ).effects,
            final(self).deep_view().wf(),
    {
        match key.code {
            KeyCode::Esc => {
                self.details = None;
                return no_items();
            },
            KeyCode::Tab => {
                self.step_and_tell(1);
                return no_items();
            },
            KeyCode::BackTab => {
                self.step_and_tell(-1);
                return no_items();
            },
            KeyCode::Char(c) => {
                if c == 'q' {
                    self.details = None;
                    return no_items();
                }
                if c == 'r' || c == 'R' {
                    return self.refresh_details(now);
                }
                if c == 'a' || c == 'A' {
                    return self.try_diff();
                }
            },
            _ => {},
        }
        if let Some(d) = &mut self.details {
            match key.code {
                KeyCode::Left => {
                    d.set_tab(d.tab.left());
                },
                KeyCode::Right => {
                    d.set_tab(d.tab.right());
                },
                KeyCode::Down => {
                    d.scroll.scroll_by(1);
                },
                KeyCode::Up => {
                    d.scroll.scroll_by(-1);
                },
                KeyCode::PageDown => {
                    d.scroll.page_down();
                },
                KeyCode::PageUp => {
                    d.scroll.page_up();
                },
                KeyCode::Home => {
                    d.scroll.to_top();
                },
                KeyCode::End => {
                    d.scroll.to_bottom();
                },
                KeyCode::Char(c) => {
                    if c == ']' || c == '}' {
                        d.step_attempt(1);
                    } else if c == '[' || c == '{' {
                        d.step_attempt(-1);
                    } else if c == 'j' {
                        d.scroll.scroll_by(1);
                    } else if c == 'k' {
                        d.scroll.scroll_by(-1);
                    } else if c == ' ' {
                        d.scroll.page_down();
                    } else {
                        match digit_of(key.code) {
                            Some(n) => {
                                d.select_attempt_idx(n - 1);
                            },
                            None => {},
                        }
                    }
                },
                _ => {},
            }
        }
        no_items()
    }

    fn list_key(&mut self, key: Key, now: u128) -> (r: Reply)
        requires
            old(self).deep_view().wf(),
        ensures
            final(self).deep_view() == old(self).deep_view().key_in_list(key, now as int).step.app,
            r.effects.deep_view() == old(self).deep_view().key_in_list(
                key,
                now as int,
            ).step.effects,
            r.quit == old(self).deep_view().key_in_list(key, now as int).quit,
            final(self).deep_view().wf(),
    {
        assert(self.tasks.deep_view().len() == self.tasks@.len());
        let n: usize = self.tasks.len();
        let down: usize = if n == 0 {
            self.selected
        } else if self.selected < n - 1 {
            self.selected + 1
        } else {
            n - 1
        };
        let up: usize = if self.selected > 0 {
            self.selected - 1
        } else {
            0
        };
        let effects = match key.code {
            KeyCode::Esc => {
                return Reply { quit: true, effects: no_items() };
            },
            KeyCode::Down => {
                self.selected = down;
                no_items()
            },
            KeyCode::Up => {
                self.selected = up;
                no_items()
            },
            KeyCode::Enter => {
                self.open_details_for_selected(now);
                self.refresh_details(now)
            },
            KeyCode::Char(c) => {
                if c == 'q' {
                    return Reply { quit: true, effects: no_items() };
                }
                if c == 'j' {
                    self.selected = down;
                    no_items()
                } else if c == 'k' {
                    self.selected = up;
                    no_items()
                } else if c == 'r' || c == 'R' {
                    self.refresh_tasks(now)
                } else if c == 'o' || c == 'O' {
                    self.open_env_modal(EnvModalTarget::Filter);
                    no_items()
                } else if c == 'n' || c == 'N' {
                    one_item(Effect::OpenNewTask)
                } else if c == '?' {
                    self.show_help = !self.show_help;
                    no_items()
                } else {
                    no_items()
                }
            },
            _ => no_items(),
        };
        Reply { quit: false, effects }
    }

    /// Takes a key: it goes to what lies on top.
    pub fn handle_key(&mut self, key: Key, now: u128) -> (r: Reply)
        requires
            old(self).deep_view().wf(),
        ensures
            final(self).deep_view() == old(self).deep_view().on_key(key, now as int).step.app,
            r.effects.deep_view() == old(self).deep_view().on_key(key, now as int).step.effects,
            r.quit == old(self).deep_view().on_key(key, now as int).quit,
            final(self).deep_view().wf(),
    {
        proof {
            law_keys_keep_the_state_in_shape(self.deep_view(), key, now as int);
        }
        if key.control && key.is_letter('c', 'C') {
            return Reply { quit: true, effects: no_items() };
        }
        if self.apply_modal.is_some() {
            return Reply { quit: false, effects: self.apply_key(key) };
        }
        if self.env_modal.is_some() {
            return Reply { quit: false, effects: self.env_key(key, now) };
        }
        if self.attempts_modal.is_some() {
            self.attempts_key(key);
            return Reply { quit: false, effects: no_items() };
        }
        if self.new_task.is_some() {
            return Reply { quit: false, effects: self.new_task_key(key) };
        }
        if self.details.is_some() {
            return Reply { quit: false, effects: self.details_key(key, now) };
        }
        self.list_key(key, now)
    }

    /// Moves the selection among the environments to the last one where it stands behind it.
    pub fn settle_env_selection(&mut self)
        ensures
            final(self).deep_view() == settled(old(self).deep_view()),
    {
        if let Some(em) = &mut self.env_modal {
            let options = env_modal_options(&self.envs, &em.query);
            let n: usize = options.len();
            assert(options.deep_view().len() == options@.len());
            if em.selected >= n {
                em.selected = n - 1;
            }
        }
    }
}

proof fn lemma_apply_key(a: AppView, m: ApplyModalView, key: Key)
    requires
        a.wf(),
    ensures
        a.key_in_apply(m, key).app.wf(),
{
}

proof fn lemma_env_key(a: AppView, em: EnvModalView, key: Key, now: int)
    requires
        a.wf(),
    ensures
        a.key_in_env(em, key, now).app.wf(),
{
}

proof fn lemma_attempts_key(a: AppView, n: int, key: Key)
    requires
        a.wf(),
        0 <= n <= 3,
    ensures
        a.key_in_attempts(n, key).wf(),
{
}

proof fn lemma_new_task_key(a: AppView, t: NewTaskView, key: Key)
    requires
        a.wf(),
        a.new_task == Some(t),
    ensures
        a.key_in_new_task(t, key).app.wf(),
{
}

proof fn lemma_stepped(d: DetailsView, delta: int)
    requires
        d.wf(),
    ensures
        d.stepped(delta).wf(),
{
    lemma_mod_bound(d.selected_attempt + delta, least_one(d.attempts.len() as int));
}

proof fn lemma_with_details(a: AppView, d: DetailsView)
    requires
        a.wf(),
        d.wf(),
    ensures
        (AppView { details: Some(d), ..a }).wf(),
{
}

proof fn lemma_tab_key(a: AppView, d: DetailsView, key: Key, now: int)
    requires
        a.wf(),
        d.wf(),
        key.code == KeyCode::Left || key.code == KeyCode::Right,
    ensures
        a.key_in_details(d, key, now).app.wf(),
{
    let tab = if key.code == KeyCode::Left {
        d.tab.to_left()
    } else {
        d.tab.to_right()
    };
    assert(d.on_tab(tab).wf());
    lemma_with_details(a, d.on_tab(tab));
}

proof fn lemma_step_key(a: AppView, d: DetailsView, key: Key, now: int)
    requires
        a.wf(),
        d.wf(),
        key.code == KeyCode::Tab || key.code == KeyCode::BackTab || key.letter(']', '}')
            || key.letter('[', '{'),
    ensures
        a.key_in_details(d, key, now).app.wf(),
{
    let delta = if key.code == KeyCode::Tab || key.letter(']', '}') {
        1
    } else {
        -1
    };
    lemma_stepped(d, delta);
    lemma_with_details(a, d.stepped(delta));
}

/// Whether a key moves the view of the text.
spec fn scrolls(code: KeyCode) -> bool {
    ||| code == KeyCode::Down || code == KeyCode::Char('j')
    ||| code == KeyCode::Up || code == KeyCode::Char('k')
    ||| code == KeyCode::PageDown || code == KeyCode::Char(' ') || code == KeyCode::PageUp
    ||| code == KeyCode::Home || code == KeyCode::End
}

proof fn lemma_scroll_key(a: AppView, d: DetailsView, key: Key, now: int)
    requires
        a.wf(),
        d.wf(),
        scrolls(key.code),
    ensures
        a.key_in_details(d, key, now).app.wf(),
{
    let v = d.scroll;
    let step = page_step(v.state.viewport_h);
    let s: ScrollView = match key.code {
        KeyCode::Down | KeyCode::Char('j') => v.moved(1),
        KeyCode::Up | KeyCode::Char('k') => v.moved(-1),
        KeyCode::PageDown | KeyCode::Char(' ') => v.moved(step),
        KeyCode::PageUp => v.moved(opposite(step)),
        KeyCode::Home => v.top(),
        _ => v.bottom(),
    };
    lemma_with_details(a, d.scrolled(s));
}

proof fn lemma_digit_key(a: AppView, d: DetailsView, key: Key, now: int)
    requires
        a.wf(),
        d.wf(),
        digit_value(key.code) is Some,
    ensures
        a.key_in_details(d, key, now).app.wf(),
{
    let e = d.picked(digit_value(key.code)->0 - 1);
    assert(e.wf());
    lemma_with_details(a, e);
}

proof fn lemma_details_key(a: AppView, d: DetailsView, key: Key, now: int)
    requires
        a.wf(),
        a.details == Some(d),
    ensures
        a.key_in_details(d, key, now).app.wf(),
{
    if key.code == KeyCode::Left || key.code == KeyCode::Right {
        lemma_tab_key(a, d, key, now);
    } else if key.code == KeyCode::Tab || key.code == KeyCode::BackTab || key.letter(']', '}')
        || key.letter('[', '{') {
        lemma_step_key(a, d, key, now);
    } else if scrolls(key.code) {
        lemma_scroll_key(a, d, key, now);
    } else if digit_value(key.code) is Some {
        lemma_digit_key(a, d, key, now);
    }
}

proof fn lemma_list_key(a: AppView, key: Key, now: int)
    requires
        a.wf(),
    ensures
        a.key_in_list(key, now).step.app.wf(),
{
}

/// Keys keep the state in shape.
pub proof fn law_keys_keep_the_state_in_shape(a: AppView, key: Key, now: int)
    requires
        a.wf(),
    ensures
        a.on_key(key, now).step.app.wf(),
{
    if a.apply_modal is Some {
        lemma_apply_key(a, a.apply_modal->0, key);
    } else if a.env_modal is Some {
        lemma_env_key(a, a.env_modal->0, key, now);
    } else if a.attempts_modal is Some {
        lemma_attempts_key(a, a.attempts_modal->0, key);
    } else if a.new_task is Some {
        lemma_new_task_key(a, a.new_task->0, key);
    } else if a.details is Some {
        lemma_details_key(a, a.details->0, key, now);
    } else {
        lemma_list_key(a, key, now);
    }
}

/// Control and C quit from every state, and change nothing.
pub proof fn law_control_c_quits(a: AppView, key: Key, now: int)
    requires
        key.quits(),
    ensures
        a.on_key(key, now) == (KeyStep { step: a.quiet(), quit: true }),
{
}

/// Nothing else quits while anything lies over the list of tasks.
pub proof fn law_only_the_list_is_left_by_other_keys(a: AppView, key: Key, now: int)
    requires
        !key.quits(),
        a.on_key(key, now).quit,
    ensures
        a.apply_modal is None,
        a.env_modal is None,
        a.attempts_modal is None,
        a.new_task is None,
        a.details is None,
        key.code == KeyCode::Esc || key.code == KeyCode::Char('q'),
{
}

/// While a diff is being tried or applied, no key closes it, changes it or starts anything.
pub proof fn law_a_running_apply_is_left_alone(a: AppView, key: Key, now: int)
    requires
        a.apply_modal matches Some(m) && m.stage.running(),
    ensures
        a.on_key(key, now).step.app.apply_modal == a.apply_modal,
        a.on_key(key, now).step.effects.len() == 0,
{
}

/// A diff is applied only once it has been tried, and only on the key for it.
pub proof fn law_a_diff_is_tried_before_it_is_applied(a: AppView, key: Key, now: int, i: int)
    requires
        0 <= i < a.on_key(key, now).step.effects.len(),
        a.on_key(key, now).step.effects[i] matches EffectView::RunApply { preflight, .. }
            && !preflight,
    ensures
        a.apply_modal matches Some(m) && m.stage == ApplyStage::PreflightDone,
        key.letter('y', 'Y'),
{
}

/// Asking for help twice changes nothing.
pub proof fn law_help_is_toggled(a: AppView, key: Key, now: int)
    requires
        key.code == KeyCode::Char('?'),
        !key.quits(),
        a.apply_modal is None,
        a.env_modal is None,
        a.attempts_modal is None,
        a.new_task is None,
        a.details is None,
    ensures
        a.on_key(key, now).step.app.on_key(key, now).step.app == a,
{
}

/// While the tasks are being asked for, no key asks for them again.
pub proof fn law_tasks_are_asked_for_once(a: AppView, key: Key, now: int, i: int)
    requires
        a.list_refresh_inflight,
        0 <= i < a.on_key(key, now).step.effects.len(),
    ensures
        a.on_key(key, now).step.effects[i] !is ListTasks,
{
}

/// Keys alone create no task, and while one is being created no key reaches its text.
pub proof fn law_a_new_task_is_sent_once(a: AppView, key: Key, now: int, i: int)
    requires
        0 <= i < a.on_key(key, now).step.effects.len(),
    ensures
        a.on_key(key, now).step.effects[i] !is CreateTask,
        a.on_key(key, now).step.effects[i] is Compose ==> a.new_task is Some
            && !a.new_task->0.submitting,
{
}

/// A key goes to what lies on top: to the diff that is applied, else to the choice of an
/// environment, else to that of a number, else to the new task, else to the task that is looked at,
/// and else to the list.
pub proof fn law_a_key_goes_to_what_lies_on_top(a: AppView, key: Key, now: int)
    requires
        !(key.control && (key.code == KeyCode::Char('c') || key.code == KeyCode::Char('C'))),
    ensures
        a.apply_modal matches Some(m) ==> a.on_key(key, now).step == a.key_in_apply(m, key),
        a.apply_modal is None ==> {
            &&& a.env_modal matches Some(m) ==> a.on_key(key, now).step == a.key_in_env(m, key, now)
            &&& a.env_modal is None ==> {
                &&& a.attempts_modal matches Some(n) ==> a.on_key(key, now).step.app
                    == a.key_in_attempts(n, key)
                &&& a.attempts_modal is None ==> {
                    &&& a.new_task matches Some(t) ==> a.on_key(key, now).step == a.key_in_new_task(
                        t,
                        key,
                    )
                    &&& a.new_task is None ==> {
                        &&& a.details matches Some(d) ==> a.on_key(key, now).step
                            == a.key_in_details(d, key, now)
                        &&& a.details is None ==> a.on_key(key, now) == a.key_in_list(key, now)
                    }
                }
            }
        },
{
}

/// Control and C, in either case, is what quits everywhere.
pub proof fn law_control_c_is_what_quits(key: Key)
    ensures
        key.quits() <==> key.control && (key.code == KeyCode::Char('c') || key.code
            == KeyCode::Char('C')),
{
}

/// In the list the selection moves by one task and stops at its ends; the task that is selected is
/// opened, and the other keys ask for what they stand for.
pub proof fn law_keys_move_through_the_list(a: AppView, key: Key, now: int)
    requires
        a.wf(),
        a.tasks.len() > 0,
    ensures
        key.code == KeyCode::Down || key.code == KeyCode::Char('j') ==> a.key_in_list(
            key,
            now,
        ).step.app.selected == (if a.selected + 1 < a.tasks.len() {
            a.selected + 1
        } else {
            a.selected
        }),
        key.code == KeyCode::Up || key.code == KeyCode::Char('k') ==> a.key_in_list(
            key,
            now,
        ).step.app.selected == (if a.selected > 0 {
            a.selected - 1
        } else {
            0
        }),
        key.code == KeyCode::Enter ==> ({
            let s = a.key_in_list(key, now).step;
            let t = a.tasks[a.selected];
            &&& s.app.details matches Some(d) && d.task_id == t.id && d.loading
            &&& s.effects == seq![EffectView::LoadDetails { task_id: t.id }]
        }),
        key.code == KeyCode::Char('r') || key.code == KeyCode::Char('R') ==> a.key_in_list(
            key,
            now,
        ).step == a.listing_tasks(now),
        key.code == KeyCode::Char('n') || key.code == KeyCode::Char('N') ==> a.key_in_list(
            key,
            now,
        ).step.effects == seq![EffectView::OpenNewTask],
        key.code == KeyCode::Char('o') || key.code == KeyCode::Char('O') ==> (a.key_in_list(
            key,
            now,
        ).step.app.env_modal matches Some(m) && m.target == EnvModalTarget::Filter),
        key.code == KeyCode::Esc || key.code == KeyCode::Char('q') <==> a.key_in_list(
            key,
            now,
        ).quit,
        key.code == KeyCode::Char('?') ==> a.key_in_list(key, now).step.app.show_help
            == !a.show_help,
        a.key_in_list(key, now).step.app.tasks == a.tasks,
{
}

/// The keys of a task that is looked at: to the side to another tab, tab and brackets to another
/// attempt, a digit to the attempt with that number, up and down and by pages through the text, `r`
/// for news of it, and escape to close it.
pub proof fn law_keys_move_through_a_task(a: AppView, d: DetailsView, key: Key, now: int)
    requires
        a.details == Some(d),
    ensures
        ({
            let s = a.key_in_details(d, key, now);
            &&& key.code == KeyCode::Esc || key.code == KeyCode::Char('q') ==> s.app.details is None
            &&& key.code == KeyCode::Left ==> s.app.details == Some(d.on_tab(d.tab.to_left()))
            &&& key.code == KeyCode::Right ==> s.app.details == Some(d.on_tab(d.tab.to_right()))
            &&& key.code == KeyCode::Tab || key.code == KeyCode::Char(']') || key.code
                == KeyCode::Char('}') ==> s.app.details == Some(d.stepped(1))
            &&& key.code == KeyCode::BackTab || key.code == KeyCode::Char('[') || key.code
                == KeyCode::Char('{') ==> s.app.details == Some(d.stepped(-1))
            &&& key.code == KeyCode::Char('r') || key.code == KeyCode::Char('R') ==> s
                == a.loading_details(now)
        }),
{
}

/// Up and down move the text by a line, the page keys by a page, and the others to its ends.
pub proof fn law_keys_scroll_a_task(a: AppView, d: DetailsView, key: Key, now: int)
    requires
        a.details == Some(d),
    ensures
        ({
            let s = a.key_in_details(d, key, now);
            let h = d.scroll.state.viewport_h;
            &&& key.code == KeyCode::Down || key.code == KeyCode::Char('j') ==> s.app.details
                == Some(d.scrolled(d.scroll.moved(1)))
            &&& key.code == KeyCode::Up || key.code == KeyCode::Char('k') ==> s.app.details == Some(
                d.scrolled(d.scroll.moved(-1)),
            )
            &&& (key.code == KeyCode::PageDown || key.code == KeyCode::Char(' ')) && 0 < h <= 32768
                ==> s.app.details == Some(d.scrolled(d.scroll.moved(h - 1)))
            &&& key.code == KeyCode::PageUp && 0 < h <= 32768 ==> s.app.details == Some(
                d.scrolled(d.scroll.moved(1 - h)),
            )
            &&& key.code == KeyCode::Home ==> s.app.details == Some(d.scrolled(d.scroll.top()))
            &&& key.code == KeyCode::End ==> s.app.details == Some(d.scrolled(d.scroll.bottom()))
        }),
        d.scrolled(d.scroll).attempts == d.attempts,
        d.scrolled(d.scroll.top()).selected_attempt == d.selected_attempt,
        d.scrolled(d.scroll.top()).scroll == d.scroll.top(),
{
}

/// A digit picks the attempt with this number, counted from one, where there is such an attempt.
pub proof fn law_a_digit_picks_its_attempt(a: AppView, d: DetailsView, key: Key, now: int)
    requires
        a.details == Some(d),
    ensures
        ({
            let e = a.key_in_details(d, key, now).app.details;
            &&& key.code == KeyCode::Char('1') && d.attempts.len() >= 1 ==> (e matches Some(x)
                && x.selected_attempt == 0)
            &&& key.code == KeyCode::Char('2') && d.attempts.len() >= 2 ==> (e matches Some(x)
                && x.selected_attempt == 1)
            &&& key.code == KeyCode::Char('3') && d.attempts.len() >= 3 ==> (e matches Some(x)
                && x.selected_attempt == 2)
            &&& key.code == KeyCode::Char('4') && d.attempts.len() >= 4 ==> (e matches Some(x)
                && x.selected_attempt == 3)
            &&& key.code == KeyCode::Char('4') && d.attempts.len() < 4 ==> e == Some(d)
        }),
{
}

/// The diff of the selected attempt is the one that is tried: it goes into the box with the task,
/// its title, and the name of the attempt; an attempt without a diff is not tried, and that is said.
pub proof fn law_the_selected_attempt_is_tried(a: AppView, d: DetailsView, key: Key, now: int)
    requires
        d.wf(),
        d.attempts.len() > 0,
        key.code == KeyCode::Char('a') || key.code == KeyCode::Char('A'),
    ensures
        ({
            let s = a.key_in_details(d, key, now);
            let x = d.attempts[d.selected_attempt];
            &&& x.diff matches Some(diff) ==> (!is_blank(diff) ==> {
                &&& s.app.apply_modal matches Some(m) && m.diff == diff && m.task_id == d.task_id
                    && m.title == d.title && m.attempt_label == x.name() && m.use_worktree
                    && !m.create_pr
                &&& s.effects.len() == 1 && (s.effects[0] matches EffectView::RunApply {
                    task_id,
                    diff: e,
                    use_worktree,
                    worktree_dir,
                    preflight,
                } && task_id == d.task_id && e == diff && use_worktree && worktree_dir
                    == a.worktree_dir && preflight)
            })
            &&& x.diff is None || is_blank(x.diff->0) ==> s.app.apply_modal == a.apply_modal
                && s.effects.len() == 0 && s.app.status == "No diff available for this attempt"@
        }),
{
}

/// In the box, unless something is being run: `w` switches the worktree and tries the diff anew,
/// `c` switches the pull request, `p` tries the diff again, `y` applies it once it has been tried,
/// and escape closes the box.
pub proof fn law_keys_in_the_box(a: AppView, m: ApplyModalView, key: Key)
    requires
        a.apply_modal == Some(m),
        m.stage == ApplyStage::PreflightDone || m.stage == ApplyStage::Done,
    ensures
        ({
            let s = a.key_in_apply(m, key);
            &&& key.code == KeyCode::Esc || key.code == KeyCode::Char('q') || key.code
                == KeyCode::Char('Q') ==> s.app.apply_modal is None && s.effects.len() == 0
            &&& key.code == KeyCode::Char('w') || key.code == KeyCode::Char('W') ==> (
            s.app.apply_modal matches Some(n) && n.use_worktree == !m.use_worktree && n.stage
                == ApplyStage::PreflightRunning) && s.effects.len() == 1 && (s.effects[0] matches
                EffectView::RunApply { use_worktree, preflight, .. } && use_worktree
                == !m.use_worktree && preflight)
            &&& key.code == KeyCode::Char('c') || key.code == KeyCode::Char('C') ==> (
            s.app.apply_modal matches Some(n) && n.create_pr == !m.create_pr && n.stage == m.stage
                && n.use_worktree == m.use_worktree) && s.effects.len() == 0
            &&& key.code == KeyCode::Char('p') || key.code == KeyCode::Char('P') ==> s
                == a.preflighting()
            &&& (key.code == KeyCode::Char('y') || key.code == KeyCode::Char('Y')) && m.stage
                == ApplyStage::PreflightDone ==> s == a.applying()
            &&& (key.code == KeyCode::Char('y') || key.code == KeyCode::Char('Y')) && m.stage
                == ApplyStage::Done ==> s == a.quiet()
        }),
{
}

/// An environment that is picked as the filter is the one that tasks are asked for with, and one
/// that is picked for a new task is the one of that task; to pick all of them clears it.
pub proof fn law_the_picked_environment_is_used(a: AppView, env: Option<EnvView>, now: int)
    ensures
        ({
            let f = a.with_env(EnvModalTarget::Filter, env, now);
            let n = a.with_env(EnvModalTarget::NewTask, env, now);
            &&& env matches Some(e) ==> f.app.env_filter == Some(e.id) && f.app.env_filter_label
                == e.label
            &&& env is None ==> f.app.env_filter is None && f.app.env_filter_label is None
            &&& f.app.env_modal is None && n.app.env_modal is None
            &&& !a.list_refresh_inflight ==> f.effects.len() == 1 && (f.effects[0] matches
                EffectView::ListTasks { generation, env: x, limit } && x == f.app.env_filter
                && limit == a.limit)
            &&& f.app.new_task == a.new_task
            &&& n.app.env_filter == a.env_filter
            &&& n.effects.len() == 0
            &&& a.new_task matches Some(t) ==> (n.app.new_task matches Some(u) && (env matches Some(
                e,
            ) ==> u.env_id == Some(e.id) && u.env_label == e.label) && (env is None
                ==> u.env_id is None && u.env_label is None) && u.attempts == t.attempts && u.git_ref
                == t.git_ref && u.qa_mode == t.qa_mode)
        }),
{
}

/// Enter takes what is selected among what is offered, or the last of it where the selection lies
/// beyond; escape takes nothing.
pub proof fn law_enter_takes_the_selected_environment(a: AppView, em: EnvModalView, key: Key, now: int)
    requires
        em.selected >= 0,
    ensures
        key.code == KeyCode::Enter && em.selected < env_options(a.envs, em.query).len()
            ==> a.key_in_env(em, key, now) == a.with_env(
            em.target,
            env_options(a.envs, em.query)[em.selected],
            now,
        ),
        key.code == KeyCode::Enter && em.selected >= env_options(a.envs, em.query).len()
            ==> a.key_in_env(em, key, now) == a.with_env(
            em.target,
            env_options(a.envs, em.query).last(),
            now,
        ),
        key.code == KeyCode::Esc ==> a.key_in_env(em, key, now).app.env_modal is None
            && a.key_in_env(em, key, now).app.env_filter == a.env_filter && a.key_in_env(
            em,
            key,
            now,
        ).app.new_task == a.new_task && a.key_in_env(em, key, now).effects.len() == 0,
{
}

/// A letter that is typed goes to the end of the query, and backspace takes the last one away; the
/// selection moves by one, to the start or beyond the end. The letters for up and down move too.
pub proof fn law_a_query_is_typed(em: EnvModalView, c: char, key: Key)
    ensures
        key.code == KeyCode::Char(c) && c != 'j' && c != 'k' && !key.control && !key.alt
            ==> em.keyed(key).query == em.query.push(c) && em.keyed(key).selected == em.selected,
        key.code == KeyCode::Char(c) && c != 'j' && c != 'k' && (key.control || key.alt)
            ==> em.keyed(key) == em,
        key.code == KeyCode::Backspace && em.query.len() > 0 ==> em.keyed(key).query
            == em.query.drop_last(),
        key.code == KeyCode::Down && em.selected < usize::MAX ==> em.keyed(key).selected
            == em.selected + 1 && em.keyed(key).query == em.query,
        key.code == KeyCode::Up && em.selected > 0 ==> em.keyed(key).selected == em.selected - 1
            && em.keyed(key).query == em.query,
        key.code == KeyCode::Up && em.selected == 0 ==> em.keyed(key).selected == 0,
        key.code == KeyCode::Home ==> em.keyed(key).selected == 0,
        key.code == KeyCode::End ==> em.keyed(key).selected == 9999,
        em.keyed(key).target == em.target,
{
}

/// The number that is picked is the number of attempts of the new task: by a digit, or by the place
/// of the selection, counted from one.
pub proof fn law_the_picked_number_is_used(a: AppView, n: int, key: Key, t: NewTaskView)
    requires
        a.new_task == Some(t),
        0 <= n <= 3,
    ensures
        ({
            let b = a.key_in_attempts(n, key);
            &&& key.code == KeyCode::Enter ==> (b.new_task matches Some(u) && u.attempts == n + 1
                && u.env_id == t.env_id && u.git_ref == t.git_ref && u.qa_mode == t.qa_mode)
                && b.attempts_modal is None
            &&& key.code == KeyCode::Char('1') ==> (b.new_task matches Some(u) && u.attempts == 1)
            &&& key.code == KeyCode::Char('2') ==> (b.new_task matches Some(u) && u.attempts == 2)
            &&& key.code == KeyCode::Char('3') ==> (b.new_task matches Some(u) && u.attempts == 3)
            &&& key.code == KeyCode::Char('4') ==> (b.new_task matches Some(u) && u.attempts == 4)
            &&& key.code == KeyCode::Down && n < 3 ==> b.attempts_modal == Some(n + 1)
            &&& key.code == KeyCode::Up && n > 0 ==> b.attempts_modal == Some(n - 1)
            &&& key.code == KeyCode::Esc ==> b.attempts_modal is None && b.new_task == a.new_task
        }),
{
}

/// While a task is written, control opens the choices and switches the check, escape drops the
/// task, and every other key goes to its text.
pub proof fn law_keys_while_a_task_is_written(a: AppView, t: NewTaskView, key: Key)
    requires
        a.new_task == Some(t),
    ensures
        ({
            let s = a.key_in_new_task(t, key);
            &&& key.code == KeyCode::Esc ==> s.app.new_task is None && s.effects.len() == 0
            &&& key.control && (key.code == KeyCode::Char('o') || key.code == KeyCode::Char('O'))
                ==> (s.app.env_modal matches Some(m) && m.target == EnvModalTarget::NewTask)
            &&& key.control && (key.code == KeyCode::Char('n') || key.code == KeyCode::Char('N'))
                && 1 <= t.attempts <= 4 ==> s.app.attempts_modal == Some(t.attempts - 1)
            &&& key.control && (key.code == KeyCode::Char('n') || key.code == KeyCode::Char('N'))
                ==> (s.app.attempts_modal matches Some(k) && 0 <= k <= 3)
            &&& key.control && (key.code == KeyCode::Char('q') || key.code == KeyCode::Char('Q'))
                ==> (s.app.new_task matches Some(u) && u.qa_mode == !t.qa_mode && u.env_id
                == t.env_id && u.attempts == t.attempts)
            &&& !key.control && key.code != KeyCode::Esc && !t.submitting ==> s.effects == seq![
                EffectView::Compose,
            ] && s.app == a
            &&& !key.control && key.code != KeyCode::Esc && t.submitting ==> s == a.quiet()
        }),
{
}

/// The choice of environments stays on what is offered: on its place where that is there, else on
/// the last one; nothing else changes.
pub proof fn law_the_choice_stays_on_what_is_offered(a: AppView, em: EnvModalView)
    requires
        a.env_modal == Some(em),
    ensures
        settled(a).env_modal matches Some(m) && {
            let n = env_options(a.envs, em.query).len();
            &&& em.selected < n ==> m.selected == em.selected
            &&& em.selected >= n ==> m.selected == n - 1
            &&& m.query == em.query
            &&& m.target == em.target
        },
        (AppView { env_modal: a.env_modal, ..settled(a) }) == a,
        settled(settled(a)) == settled(a),
{
}

} // verus!
