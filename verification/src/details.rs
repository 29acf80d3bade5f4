//! What is shown of one task: its prompt, its messages and its diff, for each attempt at it.
use vstd::arithmetic::div_mod::{
    lemma_add_mod_noop_right, lemma_mod_add_multiples_vanish, lemma_mod_bound, lemma_small_mod,
    lemma_sub_mod_noop_right,
};
use vstd::prelude::*;

use crate::model::{
    copy_text, AttemptStatus, DiffSummary, TaskStatus, TaskSummary, TaskText, TaskView, TextView,
    TurnAttempt, TurnView,
};
use crate::number::{decimal, i64_text, usize_text};
use crate::order::{
    in_order, is_order, law_sort_keeps_items, law_sort_orders, law_text_order_is_total,
    law_text_order_is_transitive, ordered, precedes, sort, text_before, Before, Ranked,
};
use crate::pieces::{lines, text_lines};
use crate::row::{no_items, one_item, put_last, take_first};
use crate::scroll::{ScrollView, ScrollableText};
use crate::text::{blank, has_prefix, has_suffix, is_blank, lemma_two_parts, same};
use crate::time::Timestamp;

verus! {

/// What of an attempt is shown.
#[derive(Clone, Copy, Debug, PartialEq, Eq, Structural)]
pub enum DetailTab {
    Prompt,
    Messages,
    Diff,
}

impl DetailTab {
    /// The tab to the left; the first one has none.
    pub open spec fn to_left(self) -> DetailTab {
        match self {
            DetailTab::Prompt => DetailTab::Prompt,
            DetailTab::Messages => DetailTab::Prompt,
            DetailTab::Diff => DetailTab::Messages,
        }
    }

    /// The tab to the right; the last one has none.
    pub open spec fn to_right(self) -> DetailTab {
        match self {
            DetailTab::Prompt => DetailTab::Messages,
            DetailTab::Messages => DetailTab::Diff,
            DetailTab::Diff => DetailTab::Diff,
        }
    }

    /// The tab to the left; the first one has none.
    pub fn left(self) -> (r: DetailTab)
        ensures
            r == self.to_left(),
    {
        match self {
            DetailTab::Prompt => DetailTab::Prompt,
            DetailTab::Messages => DetailTab::Prompt,
            DetailTab::Diff => DetailTab::Messages,
        }
    }

    /// The tab to the right; the last one has none.
    pub fn right(self) -> (r: DetailTab)
        ensures
            r == self.to_right(),
    {
        match self {
            DetailTab::Prompt => DetailTab::Messages,
            DetailTab::Messages => DetailTab::Diff,
            DetailTab::Diff => DetailTab::Diff,
        }
    }

    /// The name of the tab.
    pub open spec fn text(self) -> Seq<char> {
        match self {
            DetailTab::Prompt => "Prompt"@,
            DetailTab::Messages => "Messages"@,
            DetailTab::Diff => "Diff"@,
        }
    }

    /// The name of the tab.
    pub fn title(self) -> (r: &'static str)
        ensures
            r@ == self.text(),
    {
        match self {
            DetailTab::Prompt => "Prompt",
            DetailTab::Messages => "Messages",
            DetailTab::Diff => "Diff",
        }
    }

    /// The place of the tab among the tabs.
    pub fn index(self) -> (r: usize)
        ensures
            r == match self {
                DetailTab::Prompt => 0usize,
                DetailTab::Messages => 1,
                DetailTab::Diff => 2,
            },
    {
        match self {
            DetailTab::Prompt => 0,
            DetailTab::Messages => 1,
            DetailTab::Diff => 2,
        }
    }
}

/// The way to the right leads back to the left, but for the last tab; and so the other way round,
/// but for the first one.
pub proof fn law_tabs_lead_back(tab: DetailTab)
    ensures
        tab != DetailTab::Diff ==> tab.to_right().to_left() == tab,
        tab != DetailTab::Prompt ==> tab.to_left().to_right() == tab,
{
}

/// What is known of an attempt.
#[derive(Debug)]
pub struct AttemptInfo {
    pub placement: Option<i64>,
    pub turn_id: Option<String>,
    pub status: AttemptStatus,
    pub prompt: Option<String>,
    pub messages: Vec<String>,
    pub diff: Option<String>,
}

/// An [`AttemptInfo`] as the contracts speak of it.
pub struct AttemptView {
    pub placement: Option<i64>,
    pub turn_id: Option<Seq<char>>,
    pub status: AttemptStatus,
    pub prompt: Option<Seq<char>>,
    pub messages: Seq<Seq<char>>,
    pub diff: Option<Seq<char>>,
}

impl DeepView for AttemptInfo {
    type V = AttemptView;

    open spec fn deep_view(&self) -> AttemptView {
        AttemptView {
            placement: self.placement,
            turn_id: self.turn_id.deep_view(),
            status: self.status,
            prompt: self.prompt.deep_view(),
            messages: self.messages.deep_view(),
            diff: self.diff.deep_view(),
        }
    }
}

impl AttemptView {
    /// An attempt of which nothing is known.
    pub open spec fn unknown() -> AttemptView {
        AttemptView {
            placement: None,
            turn_id: None,
            status: AttemptStatus::Unknown,
            prompt: None,
            messages: Seq::empty(),
            diff: None,
        }
    }

    /// What the attempt is called: by its place, else by its turn.
    pub open spec fn name(self) -> Seq<char> {
        if self.placement is Some {
            decimal(self.placement->0 as int)
        } else if self.turn_id is Some {
            self.turn_id->0
        } else {
            "?"@
        }
    }

    /// The lines that are shown of the attempt under a tab.
    pub open spec fn shown(self, tab: DetailTab) -> Seq<Seq<char>> {
        match tab {
            DetailTab::Prompt => text_lines(
                match self.prompt {
                    Some(p) => p,
                    None => "(prompt unavailable)"@,
                },
            ),
            DetailTab::Messages => if self.messages.len() == 0 {
                seq!["(no messages yet)"@]
            } else {
                numbered(self.messages)
            },
            DetailTab::Diff => match self.diff {
                Some(d) if !is_blank(d) => text_lines(d),
                _ => seq!["(no diff)"@],
            },
        }
    }
}

/// A message behind its number.
pub open spec fn numbered_message(i: int, m: Seq<char>) -> Seq<char> {
    "["@ + decimal(i) + "] "@ + m
}

/// Messages, each behind its number, counted from zero.
pub open spec fn numbered(messages: Seq<Seq<char>>) -> Seq<Seq<char>> {
    Seq::new(messages.len(), |i: int| numbered_message(i, messages[i]))
}

/// Messages, each behind its number, counted from zero.
pub fn number_messages(messages: &Vec<String>) -> (r: Vec<String>)
    ensures
        r.deep_view() == numbered(messages.deep_view()),
{
    let ghost all = messages.deep_view();
    let mut out: Vec<String> = no_items();
    let mut i: usize = 0;
    assert(all.len() == messages@.len());
    while i < messages.len()
        invariant
            all == messages.deep_view(),
            all.len() == messages@.len(),
            i <= messages@.len(),
            out.deep_view() == numbered(all).take(i as int),
        decreases messages@.len() - i,
    {
        let mut s = "[".to_string();
        s.append(&usize_text(i));
        s.append("] ");
        s.append(&messages[i]);
        assert(all[i as int] == messages@[i as int]@);
        assert(s@ == numbered(all)[i as int]);
        put_last(&mut out, s);
        assert(numbered(all).take(i as int).push(numbered(all)[i as int]) =~= numbered(all).take(
            i + 1,
        ));
        i += 1;
    }
    assert(numbered(all).take(i as int) =~= numbered(all));
    out
}

impl AttemptInfo {
    /// An attempt of which nothing is known.
    pub fn unknown() -> (r: Self)
        ensures
            r.deep_view() == AttemptView::unknown(),
    {
        AttemptInfo {
            placement: None,
            turn_id: None,
            status: AttemptStatus::Unknown,
            prompt: None,
            messages: no_items(),
            diff: None,
        }
    }

    /// What the attempt is called: by its place, else by its turn.
    pub fn label(&self) -> (r: String)
        ensures
            r@ == self.deep_view().name(),
    {
        match self.placement {
            Some(p) => i64_text(p),
            None => match &self.turn_id {
                Some(t) => t.clone(),
                None => "?".to_string(),
            },
        }
    }

    /// The lines that are shown of the attempt under a tab.
    pub fn shown_lines(&self, tab: DetailTab) -> (r: Vec<String>)
        ensures
            r.deep_view() == self.deep_view().shown(tab),
    {
        match tab {
            DetailTab::Prompt => match &self.prompt {
                Some(p) => lines(p),
                None => lines("(prompt unavailable)"),
            },
            DetailTab::Messages => {
                assert(self.messages.deep_view().len() == self.messages@.len());
                if self.messages.len() == 0 {
                    one_item("(no messages yet)".to_string())
                } else {
                    number_messages(&self.messages)
                }
            },
            DetailTab::Diff => match &self.diff {
                Some(d) => if !blank(d) {
                    lines(d)
                } else {
                    one_item("(no diff)".to_string())
                },
                None => one_item("(no diff)".to_string()),
            },
        }
    }
}

/// One task that is looked at.
#[derive(Debug)]
pub struct DetailsState {
    pub task_id: String,
    pub title: String,
    pub status: TaskStatus,
    pub updated_at: Timestamp,
    pub env_label: Option<String>,
    pub env_id: Option<String>,
    pub summary: DiffSummary,
    pub attempt_total_hint: Option<usize>,
    pub tab: DetailTab,
    pub attempts: Vec<AttemptInfo>,
    pub selected_attempt: usize,
    pub scroll: ScrollableText,
    pub last_refresh: u128,
    pub refresh_interval: u64,
    pub loading: bool,
}

/// A [`DetailsState`] as the contracts speak of it.
#[verifier::ext_equal]
pub struct DetailsView {
    pub task_id: Seq<char>,
    pub title: Seq<char>,
    pub status: TaskStatus,
    pub updated_at: (int, int),
    pub env_label: Option<Seq<char>>,
    pub env_id: Option<Seq<char>>,
    pub summary: DiffSummary,
    pub attempt_total_hint: Option<usize>,
    pub tab: DetailTab,
    pub attempts: Seq<AttemptView>,
    pub selected_attempt: int,
    pub scroll: ScrollView,
    pub last_refresh: int,
    pub refresh_interval: int,
    pub loading: bool,
}

impl DeepView for DetailsState {
    type V = DetailsView;

    open spec fn deep_view(&self) -> DetailsView {
        DetailsView {
            task_id: self.task_id@,
            title: self.title@,
            status: self.status,
            updated_at: self.updated_at@,
            env_label: self.env_label.deep_view(),
            env_id: self.env_id.deep_view(),
            summary: self.summary,
            attempt_total_hint: self.attempt_total_hint,
            tab: self.tab,
            attempts: self.attempts.deep_view(),
            selected_attempt: self.selected_attempt as int,
            scroll: self.scroll.deep_view(),
            last_refresh: self.last_refresh as int,
            refresh_interval: self.refresh_interval as int,
            loading: self.loading,
        }
    }
}

/// At least one.
pub open spec fn least_one(n: int) -> int {
    if n < 1 {
        1
    } else {
        n
    }
}

impl DetailsView {
    /// A task that has just been opened.
    pub open spec fn opened(task: TaskView, refresh_interval: int, now: int) -> DetailsView {
        DetailsView {
            task_id: task.id,
            title: task.title,
            status: task.status,
            updated_at: task.updated_at,
            env_label: task.environment_label,
            env_id: task.environment_id,
            summary: task.summary,
            attempt_total_hint: task.attempt_total,
            tab: DetailTab::Prompt,
            attempts: seq![AttemptView::unknown()],
            selected_attempt: 0,
            scroll: ScrollView::empty().with_content(seq!["Loading\u{2026}"@]),
            last_refresh: now,
            refresh_interval,
            loading: true,
        }
    }

    /// Whether an attempt is selected that there is, where there is any.
    pub open spec fn wf(self) -> bool {
        0 <= self.selected_attempt < least_one(self.attempts.len() as int)
    }

    /// The attempt that is selected.
    pub open spec fn current(self) -> Option<AttemptView> {
        if 0 <= self.selected_attempt < self.attempts.len() {
            Some(self.attempts[self.selected_attempt])
        } else {
            None
        }
    }

    /// How many attempts the task is said to have.
    pub open spec fn total(self) -> int {
        match self.attempt_total_hint {
            Some(n) => least_one(n as int),
            None => least_one(self.attempts.len() as int),
        }
    }

    /// With what is selected shown from its top.
    pub open spec fn reshown(self) -> DetailsView {
        let shown = match self.current() {
            Some(a) => a.shown(self.tab),
            None => seq!["(no data)"@],
        };
        DetailsView { scroll: self.scroll.with_content(shown).top(), ..self }
    }

    /// Under another tab.
    pub open spec fn on_tab(self, tab: DetailTab) -> DetailsView {
        (DetailsView { tab, ..self }).reshown()
    }

    /// With the attempt selected that stands `delta` further on, round and round.
    pub open spec fn stepped(self, delta: int) -> DetailsView {
        let total = least_one(self.attempts.len() as int);
        (DetailsView {
            selected_attempt: (self.selected_attempt + delta) % total,
            ..self
        }).reshown()
    }

    /// With an attempt selected, where there is such a one.
    pub open spec fn picked(self, idx: int) -> DetailsView {
        if idx < self.attempts.len() {
            (DetailsView { selected_attempt: idx, ..self }).reshown()
        } else {
            self
        }
    }

    /// With the view of the text moved.
    pub open spec fn scrolled(self, scroll: ScrollView) -> DetailsView {
        DetailsView { scroll, ..self }
    }

    /// Waiting for news of the task.
    pub open spec fn asked(self, now: int) -> DetailsView {
        DetailsView { loading: true, last_refresh: now, ..self }
    }

    /// With news of the task.
    pub open spec fn refreshed(
        self,
        task: TaskView,
        attempts: Seq<AttemptView>,
        now: int,
    ) -> DetailsView {
        let last = attempts.len() - 1;
        let shown = (DetailsView {
            title: task.title,
            status: task.status,
            updated_at: task.updated_at,
            env_label: task.environment_label,
            env_id: task.environment_id,
            summary: task.summary,
            attempt_total_hint: task.attempt_total,
            attempts,
            selected_attempt: if attempts.len() == 0 {
                0
            } else if self.selected_attempt > last {
                last
            } else {
                self.selected_attempt
            },
            ..self
        }).reshown();
        DetailsView { last_refresh: now, ..shown }
    }
}

impl DetailsState {
    /// Opens a task.
    pub fn new(task: &TaskSummary, refresh_interval: u64, now: u128) -> (r: Self)
        ensures
            r.deep_view() == DetailsView::opened(
                task.deep_view(),
                refresh_interval as int,
                now as int,
            ),
            r.deep_view().wf(),
    {
        let mut scroll = ScrollableText::new();
        scroll.set_content(one_item("Loading\u{2026}".to_string()));
        let r = DetailsState {
            task_id: task.id.clone(),
            title: task.title.clone(),
            status: task.status,
            updated_at: task.updated_at,
            env_label: copy_text(&task.environment_label),
            env_id: copy_text(&task.environment_id),
            summary: task.summary,
            attempt_total_hint: task.attempt_total,
            tab: DetailTab::Prompt,
            attempts: one_item(AttemptInfo::unknown()),
            selected_attempt: 0,
            scroll,
            last_refresh: now,
            refresh_interval,
            loading: true,
        };
        r
    }

    /// The attempt that is selected.
    pub fn current_attempt(&self) -> (r: Option<&AttemptInfo>)
        ensures
            match r {
                Some(a) => self.deep_view().current() == Some(a.deep_view()),
                None => self.deep_view().current() is None,
            },
    {
        assert(self.attempts.deep_view().len() == self.attempts@.len());
        if self.selected_attempt < self.attempts.len() {
            assert(self.attempts.deep_view()[self.selected_attempt as int]
                == self.attempts@[self.selected_attempt as int].deep_view());
            Some(&self.attempts[self.selected_attempt])
        } else {
            None
        }
    }

    /// How many attempts the task is said to have.
    pub fn attempt_display_total(&self) -> (r: usize)
        ensures
            r == self.deep_view().total(),
    {
        assert(self.attempts.deep_view().len() == self.attempts@.len());
        let n: usize = match self.attempt_total_hint {
            Some(n) => n,
            None => self.attempts.len(),
        };
        if n < 1 {
            1
        } else {
            n
        }
    }

    /// Goes to another tab.
    pub fn set_tab(&mut self, tab: DetailTab)
        ensures
            final(self).deep_view() == old(self).deep_view().on_tab(tab),
    {
        self.tab = tab;
        self.apply_selection_to_scroll();
    }

    /// Selects the attempt that stands `delta` further on, round and round.
    pub fn step_attempt(&mut self, delta: isize)
        requires
            old(self).deep_view().wf(),
        ensures
            final(self).deep_view() == old(self).deep_view().stepped(delta as int),
            final(self).deep_view().wf(),
    {
        assert(self.attempts.deep_view().len() == self.attempts@.len());
        let n: usize = self.attempts.len();
        let total: usize = if n < 1 {
            1
        } else {
            n
        };
        self.selected_attempt = step_round(self.selected_attempt, delta, total);
        self.apply_selection_to_scroll();
    }

    /// Selects an attempt, where there is such a one.
    pub fn select_attempt_idx(&mut self, idx: usize)
        ensures
            final(self).deep_view() == old(self).deep_view().picked(idx as int),
            old(self).deep_view().wf() ==> final(self).deep_view().wf(),
    {
        assert(self.attempts.deep_view().len() == self.attempts@.len());
        if idx < self.attempts.len() {
            self.selected_attempt = idx;
            self.apply_selection_to_scroll();
        }
    }

    /// Shows what is selected from its top.
    pub fn apply_selection_to_scroll(&mut self)
        ensures
            final(self).deep_view() == old(self).deep_view().reshown(),
    {
        let shown = match self.current_attempt() {
            Some(a) => a.shown_lines(self.tab),
            None => one_item("(no data)".to_string()),
        };
        self.scroll.set_content(shown);
        self.scroll.to_top();
    }

    /// Takes news of the task.
    pub fn refresh(&mut self, task: &TaskSummary, attempts: Vec<AttemptInfo>, now: u128)
        requires
            old(self).deep_view().wf(),
        ensures
            final(self).deep_view() == old(self).deep_view().refreshed(
                task.deep_view(),
                attempts.deep_view(),
                now as int,
            ),
            final(self).deep_view().wf(),
    {
        assert(attempts.deep_view().len() == attempts@.len());
        self.title = task.title.clone();
        self.status = task.status;
        self.updated_at = task.updated_at;
        self.env_label = copy_text(&task.environment_label);
        self.env_id = copy_text(&task.environment_id);
        self.summary = task.summary;
        self.attempt_total_hint = task.attempt_total;
        let n: usize = attempts.len();
        self.attempts = attempts;
        if n == 0 {
            self.selected_attempt = 0;
        } else if self.selected_attempt > n - 1 {
            self.selected_attempt = n - 1;
        }
        self.apply_selection_to_scroll();
        self.last_refresh = now;
    }
}

/// The place `delta` further on than `cur` on a round of `total` places.
fn step_round(cur: usize, delta: isize, total: usize) -> (r: usize)
    requires
        cur < total,
    ensures
        r == (cur + delta) % (total as int),
{
    let ghost m = total as int;
    if delta >= 0 {
        let k: usize = delta as usize % total;
        proof {
            lemma_add_mod_noop_right(cur as int, delta as int, m);
        }
        if cur < total - k {
            proof {
                lemma_small_mod((cur + k) as nat, m as nat);
            }
            cur + k
        } else {
            proof {
                lemma_mod_add_multiples_vanish(cur + k - m, m);
                lemma_small_mod((cur + k - m) as nat, m as nat);
            }
            cur - (total - k)
        }
    } else {
        let back: usize = (-(delta + 1)) as usize + 1;
        let k: usize = back % total;
        proof {
            lemma_sub_mod_noop_right(cur as int, back as int, m);
        }
        if cur >= k {
            proof {
                lemma_small_mod((cur - k) as nat, m as nat);
            }
            cur - k
        } else {
            proof {
                lemma_mod_add_multiples_vanish(cur - k, m);
                lemma_small_mod((cur - k + m) as nat, m as nat);
            }
            cur + (total - k)
        }
    }
}

/// A step back undoes a step forth.
pub proof fn law_stepping_back(d: DetailsView, delta: int)
    requires
        d.wf(),
    ensures
        d.stepped(delta).stepped(-delta) == d.reshown(),
{
    let m = least_one(d.attempts.len() as int);
    let cur = d.selected_attempt;
    lemma_add_mod_noop_right(-delta, cur + delta, m);
    assert((cur + delta) % m + -delta == -delta + (cur + delta) % m);
    assert(-delta + (cur + delta) == cur);
    lemma_small_mod(cur as nat, m as nat);
    let s = d.stepped(delta);
    assert(s.stepped(-delta).selected_attempt == cur);
    assert(s.stepped(-delta) =~= d.reshown());
}

/// As many steps as there are attempts lead back to the attempt that was selected.
pub proof fn law_stepping_round(d: DetailsView)
    requires
        d.wf(),
    ensures
        d.stepped(least_one(d.attempts.len() as int)) == d.reshown(),
{
    let m = least_one(d.attempts.len() as int);
    lemma_mod_add_multiples_vanish(d.selected_attempt, m);
    lemma_small_mod(d.selected_attempt as nat, m as nat);
}

/// What comes from elsewhere to the first attempt of a task: the diff and the messages where it
/// has none, and the status.
pub open spec fn completed(base: AttemptView, s: TurnView) -> AttemptView {
    AttemptView {
        diff: if base.diff is None {
            s.diff
        } else {
            base.diff
        },
        messages: if base.messages.len() == 0 {
            s.messages
        } else {
            base.messages
        },
        status: s.status,
        ..base
    }
}

/// Whether a sibling is the first attempt itself.
pub open spec fn is_base(text: TextView, s: TurnView) -> bool {
    text.turn_id == Some(s.turn_id) || text.attempt_placement is Some && text.attempt_placement
        == s.attempt_placement
}

/// What is known of a sibling.
pub open spec fn sibling(s: TurnView) -> AttemptView {
    AttemptView {
        placement: s.attempt_placement,
        turn_id: Some(s.turn_id),
        status: s.status,
        prompt: None,
        messages: s.messages,
        diff: s.diff,
    }
}

/// The first attempt and its siblings, each attempt once, in the order in which they came.
pub open spec fn gathered(text: TextView, diff: Option<Seq<char>>, sibs: Seq<TurnView>) -> Seq<
    AttemptView,
>
    decreases sibs.len(),
{
    if sibs.len() == 0 {
        seq![
            AttemptView {
                placement: text.attempt_placement,
                turn_id: text.turn_id,
                status: text.attempt_status,
                prompt: text.prompt,
                messages: text.messages,
                diff,
            },
        ]
    } else {
        let before = gathered(text, diff, sibs.drop_last());
        let s = sibs.last();
        if is_base(text, s) {
            before.update(0, completed(before[0], s))
        } else {
            before.push(sibling(s))
        }
    }
}

/// Whether a turn comes before another one: none before any, and otherwise by their ids.
pub open spec fn turn_before(a: Option<Seq<char>>, b: Option<Seq<char>>) -> bool {
    match (a, b) {
        (Some(x), Some(y)) => precedes(x, y),
        (None, Some(_)) => true,
        (_, None) => false,
    }
}

/// Whether an attempt is shown before another one: by their places, those without one last and by
/// their turns.
pub open spec fn attempt_before(a: AttemptView, b: AttemptView) -> bool {
    match (a.placement, b.placement) {
        (Some(x), Some(y)) => x < y,
        (Some(_), None) => true,
        (None, Some(_)) => false,
        (None, None) => turn_before(a.turn_id, b.turn_id),
    }
}

/// The order in which attempts are shown.
pub open spec fn attempt_order() -> Before<AttemptView> {
    |a: AttemptView, b: AttemptView| attempt_before(a, b)
}

impl Ranked for AttemptInfo {
    open spec fn order() -> Before<AttemptView> {
        attempt_order()
    }

    fn is_before(&self, other: &Self) -> (r: bool) {
        match (self.placement, other.placement) {
            (Some(x), Some(y)) => x < y,
            (Some(_), None) => true,
            (None, Some(_)) => false,
            (None, None) => match (&self.turn_id, &other.turn_id) {
                (Some(x), Some(y)) => text_before(x, y),
                (None, Some(_)) => true,
                (_, None) => false,
            },
        }
    }
}

/// The attempts at a task in the order in which they are shown. Siblings are asked for only where
/// the task has a turn.
pub open spec fn attempts_of(text: TextView, diff: Option<Seq<char>>, sibs: Seq<TurnView>) -> Seq<
    AttemptView,
> {
    in_order(
        gathered(
            text,
            diff,
            if text.turn_id is Some {
                sibs
            } else {
                Seq::empty()
            },
        ),
        attempt_order(),
    )
}

fn gather(text: TaskText, diff: Option<String>, siblings: Vec<TurnAttempt>) -> (r: Vec<AttemptInfo>)
    ensures
        r.deep_view() == gathered(text.deep_view(), diff.deep_view(), siblings.deep_view()),
{
    let ghost t = text.deep_view();
    let ghost d = diff.deep_view();
    let ghost all = siblings.deep_view();
    let base_turn_id = copy_text(&text.turn_id);
    let base_placement = text.attempt_placement;
    let mut out = one_item(
        AttemptInfo {
            placement: text.attempt_placement,
            turn_id: text.turn_id,
            status: text.attempt_status,
            prompt: text.prompt,
            messages: text.messages,
            diff,
        },
    );
    let mut rest = siblings;
    let ghost mut done: int = 0;
    assert(all.take(0) =~= Seq::<TurnView>::empty());
    assert(all.skip(0) =~= all);
    while rest.len() > 0
        invariant
            0 <= done <= all.len(),
            rest.deep_view() == all.skip(done),
            base_turn_id.deep_view() == t.turn_id,
            base_placement == t.attempt_placement,
            out.deep_view() == gathered(t, d, all.take(done)),
            out@.len() > 0,
        decreases rest@.len(),
    {
        let s = take_first(&mut rest);
        let ghost v = s.deep_view();
        proof {
            assert(v == all[done]);
            assert(all.take(done + 1).drop_last() =~= all.take(done));
            assert(all.take(done + 1).last() == v);
            assert(all.skip(done).drop_first() =~= all.skip(done + 1));
            done = done + 1;
        }
        let same_turn: bool = match &base_turn_id {
            Some(b) => same(b, &s.turn_id),
            None => false,
        };
        let same_place: bool = match (base_placement, s.attempt_placement) {
            (Some(x), Some(y)) => x == y,
            _ => false,
        };
        if same_turn || same_place {
            let ghost before = out.deep_view();
            let base = take_first(&mut out);
            let ghost b = base.deep_view();
            assert(base.messages.deep_view().len() == base.messages@.len());
            let full = AttemptInfo {
                placement: base.placement,
                turn_id: base.turn_id,
                status: s.status,
                prompt: base.prompt,
                messages: if base.messages.len() == 0 {
                    s.messages
                } else {
                    base.messages
                },
                diff: match base.diff {
                    Some(x) => Some(x),
                    None => s.diff,
                },
            };
            assert(full.deep_view() == completed(b, v));
            let ghost tail = out.deep_view();
            out.insert(0, full);
            assert(out.deep_view() =~= before.update(0, completed(before[0], v)));
        } else {
            put_last(
                &mut out,
                AttemptInfo {
                    placement: s.attempt_placement,
                    turn_id: Some(s.turn_id),
                    status: s.status,
                    prompt: None,
                    messages: s.messages,
                    diff: s.diff,
                },
            );
        }
    }
    assert(all.take(done) =~= all);
    out
}

/// The attempts at a task in the order in which they are shown, given what was asked and answered,
/// its diff and its siblings.
pub fn task_attempts(text: TaskText, diff: Option<String>, siblings: Vec<TurnAttempt>) -> (r: Vec<
    AttemptInfo,
>)
    ensures
        r.deep_view() == attempts_of(text.deep_view(), diff.deep_view(), siblings.deep_view()),
{
    let sibs = match &text.turn_id {
        Some(_) => siblings,
        None => no_items(),
    };
    sort(gather(text, diff, sibs))
}

/// The order in which attempts are shown is an order.
pub proof fn law_attempts_have_an_order()
    ensures
        is_order(attempt_order()),
{
    let f = attempt_order();
    assert forall|a: AttemptView, b: AttemptView| !(#[trigger] f(a, b) && f(b, a)) by {
        if a.turn_id is Some && b.turn_id is Some {
            law_text_order_is_total(a.turn_id->0, b.turn_id->0);
        }
    }
    assert forall|a: AttemptView, b: AttemptView, c: AttemptView|
        #![trigger f(a, b), f(b, c)]
        !f(a, b) && !f(b, c) implies !f(a, c) by {
        if a.turn_id is Some && b.turn_id is Some && c.turn_id is Some {
            let x = a.turn_id->0;
            let y = b.turn_id->0;
            let z = c.turn_id->0;
            law_text_order_is_total(x, y);
            law_text_order_is_total(y, z);
            law_text_order_is_total(x, z);
            if precedes(y, x) && precedes(z, y) {
                law_text_order_is_transitive(z, y, x);
            }
        }
    }
}

proof fn lemma_gathered(text: TextView, diff: Option<Seq<char>>, sibs: Seq<TurnView>)
    ensures
        gathered(text, diff, sibs).len() >= 1,
        gathered(text, diff, sibs).len() <= sibs.len() + 1,
        gathered(text, diff, sibs)[0].prompt == text.prompt,
        gathered(text, diff, sibs)[0].placement == text.attempt_placement,
        gathered(text, diff, sibs)[0].turn_id == text.turn_id,
    decreases sibs.len(),
{
    if sibs.len() > 0 {
        lemma_gathered(text, diff, sibs.drop_last());
    }
}

/// There is always at least one attempt to show, and attempts are shown in order.
pub proof fn law_attempts_are_shown_in_order(
    text: TextView,
    diff: Option<Seq<char>>,
    sibs: Seq<TurnView>,
)
    ensures
        attempts_of(text, diff, sibs).len() >= 1,
        ordered(attempts_of(text, diff, sibs), attempt_order()),
{
    let used = if text.turn_id is Some {
        sibs
    } else {
        Seq::empty()
    };
    lemma_gathered(text, diff, used);
    law_attempts_have_an_order();
    law_sort_keeps_items(gathered(text, diff, used), attempt_order());
    law_sort_orders(gathered(text, diff, used), attempt_order());
}

/// After a number of single steps.
pub open spec fn after_steps(d: DetailsView, k: nat) -> DetailsView
    decreases k,
{
    if k == 0 {
        d
    } else {
        after_steps(d, (k - 1) as nat).stepped(1)
    }
}

proof fn lemma_after_steps(d: DetailsView, k: nat)
    requires
        d.wf(),
    ensures
        after_steps(d, k).attempts == d.attempts,
        after_steps(d, k).selected_attempt == (d.selected_attempt + k) % least_one(
            d.attempts.len() as int,
        ),
    decreases k,
{
    let m = least_one(d.attempts.len() as int);
    if k == 0 {
        lemma_small_mod(d.selected_attempt as nat, m as nat);
    } else {
        lemma_after_steps(d, (k - 1) as nat);
        lemma_add_mod_noop_right(1, d.selected_attempt + k - 1, m);
    }
}

/// As many single steps as there are attempts visit each attempt, and each of them once.
pub proof fn law_steps_visit_each_attempt_once(d: DetailsView, i: int)
    requires
        d.wf(),
        0 <= i < d.attempts.len(),
    ensures
        exists|k: nat|
            k < d.attempts.len() && (#[trigger] after_steps(d, k)).selected_attempt == i,
        forall|k: nat, l: nat|
            k < l < d.attempts.len() ==> (#[trigger] after_steps(d, k)).selected_attempt != (
            #[trigger] after_steps(d, l)).selected_attempt,
{
    let m = d.attempts.len() as int;
    let cur = d.selected_attempt;
    let k = if i >= cur {
        (i - cur) as nat
    } else {
        (i - cur + m) as nat
    };
    lemma_after_steps(d, k);
    if i >= cur {
        lemma_small_mod(i as nat, m as nat);
    } else {
        lemma_mod_add_multiples_vanish(i, m);
        lemma_small_mod(i as nat, m as nat);
    }
    assert(after_steps(d, k).selected_attempt == i);
    assert forall|k: nat, l: nat| k < l < m implies (#[trigger] after_steps(d, k)).selected_attempt
        != (#[trigger] after_steps(d, l)).selected_attempt by {
        lemma_after_steps(d, k);
        lemma_after_steps(d, l);
        lemma_round(cur, k as int, m);
        lemma_round(cur, l as int, m);
    }
}

proof fn lemma_round(cur: int, k: int, m: int)
    requires
        0 <= cur < m,
        0 <= k < m,
    ensures
        (cur + k) % m == if cur + k < m {
            cur + k
        } else {
            cur + k - m
        },
{
    if cur + k < m {
        lemma_small_mod((cur + k) as nat, m as nat);
    } else {
        lemma_mod_add_multiples_vanish(cur + k - m, m);
        lemma_small_mod((cur + k - m) as nat, m as nat);
    }
}

/// Whether a sibling is of the turn of the task itself: it has the same turn, or the same place.
pub open spec fn is_own(text: TextView, s: TurnView) -> bool {
    ||| text.turn_id == Some(s.turn_id)
    ||| text.attempt_placement == s.attempt_placement && s.attempt_placement is Some
}

/// Whether an attempt is a sibling, with all that it came with.
pub open spec fn tells_all_of(a: AttemptView, s: TurnView) -> bool {
    &&& a.placement == s.attempt_placement
    &&& a.turn_id == Some(s.turn_id)
    &&& a.status == s.status
    &&& a.messages == s.messages
    &&& a.diff == s.diff
}

proof fn lemma_gathered_holds(text: TextView, diff: Option<Seq<char>>, sibs: Seq<TurnView>, k: int)
    requires
        0 <= k < sibs.len(),
        !is_own(text, sibs[k]),
    ensures
        exists|i: int|
            0 < i < gathered(text, diff, sibs).len() && tells_all_of(
                #[trigger] gathered(text, diff, sibs)[i],
                sibs[k],
            ),
    decreases sibs.len(),
{
    let t = sibs.drop_last();
    let before = gathered(text, diff, t);
    let all = gathered(text, diff, sibs);
    lemma_gathered(text, diff, t);
    if k == sibs.len() - 1 {
        assert(tells_all_of(all[all.len() - 1], sibs[k]));
    } else {
        assert(t[k] == sibs[k]);
        lemma_gathered_holds(text, diff, t, k);
        let i = choose|i: int| 0 < i < before.len() && tells_all_of(#[trigger] before[i], t[k]);
        assert(all[i] == before[i]);
    }
}

proof fn lemma_shown_holds(text: TextView, diff: Option<Seq<char>>, sibs: Seq<TurnView>, i: int)
    requires
        text.turn_id is Some,
        0 <= i < gathered(text, diff, sibs).len(),
    ensures
        attempts_of(text, diff, sibs).contains(gathered(text, diff, sibs)[i]),
{
    broadcast use vstd::seq_lib::group_to_multiset_ensures;

    let g = gathered(text, diff, sibs);
    law_sort_keeps_items(g, attempt_order());
    assert(g.to_multiset().count(g[i]) > 0) by {
        assert(g.contains(g[i]));
    }
    assert(attempts_of(text, diff, sibs).to_multiset().count(g[i]) > 0);
}

/// Every sibling that is not the turn of the task itself is among the attempts that are shown, with
/// its place, its turn, its status, its messages and its diff.
pub proof fn law_every_sibling_is_shown_with_all_of_it(
    text: TextView,
    diff: Option<Seq<char>>,
    sibs: Seq<TurnView>,
    k: int,
)
    requires
        text.turn_id is Some,
        0 <= k < sibs.len(),
        !is_own(text, sibs[k]),
    ensures
        exists|i: int|
            0 <= i < attempts_of(text, diff, sibs).len() && tells_all_of(
                #[trigger] attempts_of(text, diff, sibs)[i],
                sibs[k],
            ),
{
    let g = gathered(text, diff, sibs);
    let shown = attempts_of(text, diff, sibs);
    lemma_gathered_holds(text, diff, sibs, k);
    let i = choose|i: int| 0 < i < g.len() && tells_all_of(#[trigger] g[i], sibs[k]);
    lemma_shown_holds(text, diff, sibs, i);
    let j = choose|j: int| 0 <= j < shown.len() && shown[j] == g[i];
    assert(tells_all_of(shown[j], sibs[k]));
}

/// How many siblings are not the turn of the task itself.
pub open spec fn others(text: TextView, sibs: Seq<TurnView>) -> nat
    decreases sibs.len(),
{
    if sibs.len() == 0 {
        0
    } else {
        others(text, sibs.drop_last()) + if is_own(text, sibs.last()) {
            0nat
        } else {
            1nat
        }
    }
}

/// Whether an attempt is the one that the task itself tells of: its place, its turn and its prompt,
/// with its diff and its messages where it tells them, and otherwise those that come with the
/// siblings that are this same turn.
pub open spec fn tells_the_task(
    a: AttemptView,
    text: TextView,
    diff: Option<Seq<char>>,
    sibs: Seq<TurnView>,
) -> bool {
    &&& a.placement == text.attempt_placement
    &&& a.turn_id == text.turn_id
    &&& a.prompt == text.prompt
    &&& diff is Some ==> a.diff == diff
    &&& text.messages.len() > 0 ==> a.messages == text.messages
    &&& (forall|k: int| 0 <= k < sibs.len() ==> !is_own(text, #[trigger] sibs[k])) ==> a.diff
        == diff && a.messages == text.messages && a.status == text.attempt_status
    &&& forall|k: int|
        0 <= k < sibs.len() && is_own(text, #[trigger] sibs[k]) && (forall|l: int|
            0 <= l < sibs.len() && is_own(text, #[trigger] sibs[l]) ==> l == k) ==> a.status
            == sibs[k].status && (diff is None ==> a.diff == sibs[k].diff) && (text.messages.len()
            == 0 ==> a.messages == sibs[k].messages)
}

proof fn lemma_no_own(text: TextView, diff: Option<Seq<char>>, sibs: Seq<TurnView>)
    requires
        forall|k: int| 0 <= k < sibs.len() ==> !is_own(text, #[trigger] sibs[k]),
    ensures
        gathered(text, diff, sibs).len() >= 1,
        gathered(text, diff, sibs)[0].diff == diff,
        gathered(text, diff, sibs)[0].messages == text.messages,
        gathered(text, diff, sibs)[0].status == text.attempt_status,
    decreases sibs.len(),
{
    if sibs.len() > 0 {
        let t = sibs.drop_last();
        assert forall|k: int| 0 <= k < t.len() implies !is_own(text, #[trigger] t[k]) by {
            assert(t[k] == sibs[k]);
        }
        lemma_no_own(text, diff, t);
        assert(!is_own(text, sibs[sibs.len() - 1]));
    }
}

proof fn lemma_one_own(text: TextView, diff: Option<Seq<char>>, sibs: Seq<TurnView>, k: int)
    requires
        0 <= k < sibs.len(),
        is_own(text, sibs[k]),
        forall|l: int| 0 <= l < sibs.len() && is_own(text, #[trigger] sibs[l]) ==> l == k,
    ensures
        ({
            let a = gathered(text, diff, sibs)[0];
            &&& gathered(text, diff, sibs).len() >= 1
            &&& a.status == sibs[k].status
            &&& diff is None ==> a.diff == sibs[k].diff
            &&& text.messages.len() == 0 ==> a.messages == sibs[k].messages
        }),
    decreases sibs.len(),
{
    let t = sibs.drop_last();
    lemma_gathered(text, diff, t);
    assert forall|l: int| 0 <= l < t.len() implies #[trigger] t[l] == sibs[l] by {}
    if k == sibs.len() - 1 {
        assert forall|l: int| 0 <= l < t.len() implies !is_own(text, #[trigger] t[l]) by {
            assert(t[l] == sibs[l]);
        }
        lemma_no_own(text, diff, t);
    } else {
        assert(t[k] == sibs[k]);
        lemma_one_own(text, diff, t, k);
        assert(!is_own(text, sibs[sibs.len() - 1]));
    }
}

proof fn lemma_base_kept(text: TextView, diff: Option<Seq<char>>, sibs: Seq<TurnView>)
    ensures
        gathered(text, diff, sibs).len() == 1 + others(text, sibs),
        diff is Some ==> gathered(text, diff, sibs)[0].diff == diff,
        text.messages.len() > 0 ==> gathered(text, diff, sibs)[0].messages == text.messages,
    decreases sibs.len(),
{
    if sibs.len() > 0 {
        lemma_base_kept(text, diff, sibs.drop_last());
    }
}

/// The attempt that the task itself tells of is among those that are shown, and there is one more
/// attempt for each sibling that is another one.
pub proof fn law_the_attempt_of_the_task_is_shown(
    text: TextView,
    diff: Option<Seq<char>>,
    sibs: Seq<TurnView>,
)
    requires
        text.turn_id is Some,
    ensures
        attempts_of(text, diff, sibs).len() == 1 + others(text, sibs),
        exists|i: int|
            0 <= i < attempts_of(text, diff, sibs).len() && tells_the_task(
                #[trigger] attempts_of(text, diff, sibs)[i],
                text,
                diff,
                sibs,
            ),
{
    let g = gathered(text, diff, sibs);
    let shown = attempts_of(text, diff, sibs);
    lemma_gathered(text, diff, sibs);
    lemma_base_kept(text, diff, sibs);
    law_sort_keeps_items(g, attempt_order());
    if forall|k: int| 0 <= k < sibs.len() ==> !is_own(text, #[trigger] sibs[k]) {
        lemma_no_own(text, diff, sibs);
    }
    assert forall|k: int|
        0 <= k < sibs.len() && is_own(text, #[trigger] sibs[k]) && (forall|l: int|
            0 <= l < sibs.len() && is_own(text, #[trigger] sibs[l]) ==> l == k) implies g[0].status
        == sibs[k].status && (diff is None ==> g[0].diff == sibs[k].diff) && (text.messages.len()
        == 0 ==> g[0].messages == sibs[k].messages) by {
        lemma_one_own(text, diff, sibs, k);
    }
    assert(tells_the_task(g[0], text, diff, sibs));
    lemma_shown_holds(text, diff, sibs, 0);
    let j = choose|j: int| 0 <= j < shown.len() && shown[j] == g[0];
    assert(tells_the_task(shown[j], text, diff, sibs));
}

/// A task without a turn has one attempt: what it tells itself.
pub proof fn law_a_task_without_a_turn_has_one_attempt(
    text: TextView,
    diff: Option<Seq<char>>,
    sibs: Seq<TurnView>,
)
    requires
        text.turn_id is None,
    ensures
        attempts_of(text, diff, sibs).len() == 1,
        ({
            let a = attempts_of(text, diff, sibs)[0];
            &&& a.placement == text.attempt_placement
            &&& a.turn_id is None
            &&& a.status == text.attempt_status
            &&& a.prompt == text.prompt
            &&& a.messages == text.messages
            &&& a.diff == diff
        }),
{
    let g = gathered(text, diff, Seq::empty());
    assert(g.drop_last() =~= Seq::<AttemptView>::empty());
    assert(in_order(g.drop_last(), attempt_order()) =~= Seq::<AttemptView>::empty());
}

/// Attempts with a place are shown by their places, smaller ones first; those without one follow,
/// by their turns.
pub proof fn law_attempts_are_shown_by_place(
    text: TextView,
    diff: Option<Seq<char>>,
    sibs: Seq<TurnView>,
    i: int,
    j: int,
)
    requires
        0 <= i < j < attempts_of(text, diff, sibs).len(),
    ensures
        ({
            let a = attempts_of(text, diff, sibs)[i];
            let b = attempts_of(text, diff, sibs)[j];
            match (a.placement, b.placement) {
                (Some(x), Some(y)) => x <= y,
                (None, Some(_)) => false,
                (Some(_), None) => true,
                (None, None) => match (a.turn_id, b.turn_id) {
                    (Some(x), Some(y)) => x == y || precedes(x, y),
                    (Some(_), None) => false,
                    (None, _) => true,
                },
            }
        }),
{
    law_attempts_are_shown_in_order(text, diff, sibs);
    let s = attempts_of(text, diff, sibs);
    let f = attempt_order();
    assert(!f(s[j], s[i]));
    if s[i].turn_id is Some && s[j].turn_id is Some {
        law_text_order_is_total(s[i].turn_id->0, s[j].turn_id->0);
    }
}

/// A step forth selects the next attempt, or the first one behind the last one; a step back does
/// the opposite.
pub proof fn law_a_step_leads_to_the_next_attempt(d: DetailsView)
    requires
        d.wf(),
        d.attempts.len() > 0,
    ensures
        d.stepped(1).selected_attempt == if d.selected_attempt + 1 < d.attempts.len() {
            d.selected_attempt + 1
        } else {
            0
        },
        d.stepped(-1).selected_attempt == if d.selected_attempt > 0 {
            d.selected_attempt - 1
        } else {
            d.attempts.len() - 1
        },
        d.stepped(1).attempts == d.attempts,
        d.stepped(1).tab == d.tab,
        d.stepped(1).task_id == d.task_id,
{
    let m = d.attempts.len() as int;
    let cur = d.selected_attempt;
    if m == 1 {
        assert((cur + 1) % m == 0);
        assert((cur - 1) % m == 0);
    } else {
        lemma_round(cur, 1, m);
        if cur > 0 {
            lemma_small_mod((cur - 1) as nat, m as nat);
        } else {
            lemma_mod_add_multiples_vanish(cur - 1, m);
            lemma_small_mod((m - 1) as nat, m as nat);
        }
    }
}

/// What is shown is what the selected attempt tells under the tab, from its top; no step, no pick
/// and no other tab changes what the attempts tell.
pub proof fn law_what_is_selected_is_shown(d: DetailsView, tab: DetailTab, delta: int, idx: int)
    requires
        d.wf(),
        d.attempts.len() > 0,
        0 <= idx < d.attempts.len(),
    ensures
        d.on_tab(tab).tab == tab,
        d.on_tab(tab).selected_attempt == d.selected_attempt,
        d.on_tab(tab).scroll.raw == d.attempts[d.selected_attempt].shown(tab),
        d.on_tab(tab).scroll.state.scroll == 0,
        d.picked(idx).selected_attempt == idx,
        d.picked(idx).tab == d.tab,
        d.picked(idx).scroll.raw == d.attempts[idx].shown(d.tab),
        d.picked(idx).scroll.state.scroll == 0,
        d.stepped(delta).scroll.raw == d.attempts[d.stepped(delta).selected_attempt].shown(d.tab),
        d.stepped(delta).scroll.state.scroll == 0,
        d.on_tab(tab).attempts == d.attempts,
        d.picked(idx).attempts == d.attempts,
        d.stepped(delta).attempts == d.attempts,
{
    let m = least_one(d.attempts.len() as int);
    lemma_mod_bound(d.selected_attempt + delta, m);
}

/// Under each tab its own part of an attempt is shown: the lines of its prompt, its messages behind
/// their numbers, or the lines of its diff, unless that is blank; and where there is none, that.
pub proof fn law_each_tab_shows_its_part(a: AttemptView)
    ensures
        a.prompt matches Some(p) ==> a.shown(DetailTab::Prompt) == text_lines(p),
        a.prompt is None ==> a.shown(DetailTab::Prompt) == text_lines("(prompt unavailable)"@),
        a.messages.len() == 0 ==> a.shown(DetailTab::Messages) == seq!["(no messages yet)"@],
        a.messages.len() > 0 ==> a.shown(DetailTab::Messages).len() == a.messages.len() && forall|
            i: int,
        |
            0 <= i < a.messages.len() ==> has_suffix(
                #[trigger] a.shown(DetailTab::Messages)[i],
                a.messages[i],
            ) && has_prefix(a.shown(DetailTab::Messages)[i], "["@ + decimal(i) + "] "@),
        a.diff matches Some(d) ==> (!is_blank(d) ==> a.shown(DetailTab::Diff) == text_lines(d)),
        a.diff is None || is_blank(a.diff->0) ==> a.shown(DetailTab::Diff) == seq!["(no diff)"@],
{
    assert forall|i: int| 0 <= i < a.messages.len() implies has_suffix(
        #[trigger] numbered(a.messages)[i],
        a.messages[i],
    ) && has_prefix(numbered(a.messages)[i], "["@ + decimal(i) + "] "@) by {
        lemma_two_parts("["@ + decimal(i) + "] "@, a.messages[i]);
    }
}

/// An attempt is called by its place, which reads as the number that it is; without one by its
/// turn.
pub proof fn law_an_attempt_is_called_by_its_place(a: AttemptView)
    ensures
        a.placement matches Some(n) ==> a.name() == decimal(n as int),
        a.placement is None ==> (a.turn_id matches Some(t) ==> a.name() == t),
        a.placement is None && a.turn_id is None ==> a.name() == "?"@,
{
}

/// A task that is opened is shown under its first tab, as what the list says of it, until its
/// attempts are known.
pub proof fn law_an_opened_task_is_that_of_the_list(t: TaskView, every: int, now: int)
    ensures
        ({
            let d = DetailsView::opened(t, every, now);
            &&& d.wf()
            &&& d.loading
            &&& d.task_id == t.id
            &&& d.title == t.title
            &&& d.status == t.status
            &&& d.updated_at == t.updated_at
            &&& d.env_label == t.environment_label
            &&& d.env_id == t.environment_id
            &&& d.summary == t.summary
            &&& d.tab == DetailTab::Prompt
            &&& d.last_refresh == now
            &&& d.refresh_interval == every
            &&& d.attempts.len() == 1
            &&& d.attempts[0].diff is None
            &&& d.total() == (match t.attempt_total {
                Some(n) => if n == 0 {
                    1
                } else {
                    n as int
                },
                None => 1,
            })
        }),
{
}

/// News of a task replace what was known of it, and leave the tab and the selected attempt alone,
/// as long as there is such an attempt; otherwise the last one is selected.
pub proof fn law_news_keep_the_selected_attempt(
    d: DetailsView,
    t: TaskView,
    attempts: Seq<AttemptView>,
    now: int,
)
    requires
        d.wf(),
    ensures
        ({
            let n = d.refreshed(t, attempts, now);
            &&& n.wf()
            &&& n.attempts == attempts
            &&& n.tab == d.tab
            &&& n.task_id == d.task_id
            &&& d.selected_attempt < attempts.len() ==> n.selected_attempt == d.selected_attempt
            &&& attempts.len() > 0 && d.selected_attempt >= attempts.len() ==> n.selected_attempt
                == attempts.len() - 1
            &&& n.title == t.title
            &&& n.status == t.status
            &&& n.updated_at == t.updated_at
            &&& n.env_label == t.environment_label
            &&& n.env_id == t.environment_id
            &&& n.summary == t.summary
            &&& n.attempt_total_hint == t.attempt_total
            &&& n.last_refresh == now
            &&& attempts.len() > 0 ==> n.scroll.raw == attempts[n.selected_attempt].shown(d.tab)
        }),
{
}

/// Asking for news of a task is remembered, with the time, and changes nothing that is shown.
pub proof fn law_asking_changes_nothing_shown(d: DetailsView, now: int)
    ensures
        d.asked(now).loading,
        d.asked(now).last_refresh == now,
        d.asked(now).attempts == d.attempts,
        d.asked(now).selected_attempt == d.selected_attempt,
        d.asked(now).scroll == d.scroll,
        d.asked(now).tab == d.tab,
{
}

/// The tabs stand in one row: the prompt, the messages, the diff.
pub proof fn law_the_tabs_stand_in_a_row()
    ensures
        DetailTab::Prompt.to_right() == DetailTab::Messages,
        DetailTab::Messages.to_right() == DetailTab::Diff,
        DetailTab::Diff.to_right() == DetailTab::Diff,
        DetailTab::Prompt.to_left() == DetailTab::Prompt,
{
}

/// What is not among the attempts cannot be picked: the task stays as it is shown.
pub proof fn law_a_missing_attempt_is_not_picked(d: DetailsView, idx: int)
    requires
        idx >= d.attempts.len(),
    ensures
        d.picked(idx) == d,
{
}

} // verus!
