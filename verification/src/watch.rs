//! Watching a task until it is done.
use vstd::prelude::*;

use crate::apply::{attempt_words, attempts_summary};
use crate::input::Narration;
use crate::model::{
    AttemptStatus, DiffSummary, TaskStatus, TaskSummary, TaskView, TurnAttempt, TurnView,
};
use crate::pieces::joined;
use crate::row::{no_items, one_item, put_all, put_last};
use crate::text::{has_prefix, has_suffix, lemma_two_parts};
use crate::time::Timestamp;

verus! {

/// The place and the status of an attempt.
#[derive(Clone, Copy, Debug, PartialEq, Eq, Structural)]
pub struct Standing {
    pub placement: Option<i64>,
    pub status: AttemptStatus,
}

/// The places and statuses of attempts.
pub open spec fn standings(attempts: Seq<TurnView>) -> Seq<Standing> {
    Seq::new(
        attempts.len(),
        |i: int|
            Standing { placement: attempts[i].attempt_placement, status: attempts[i].status },
    )
}

/// What is told of an attempt.
#[derive(Debug)]
pub struct AttemptBrief {
    pub turn_id: String,
    pub attempt_placement: Option<i64>,
    pub created_at: Option<Timestamp>,
    pub status: AttemptStatus,
    pub has_diff: bool,
    pub message_count: usize,
}

/// An [`AttemptBrief`] as the contracts speak of it.
pub struct BriefView {
    pub turn_id: Seq<char>,
    pub attempt_placement: Option<i64>,
    pub created_at: Option<(int, int)>,
    pub status: AttemptStatus,
    pub has_diff: bool,
    pub message_count: int,
}

impl DeepView for AttemptBrief {
    type V = BriefView;

    open spec fn deep_view(&self) -> BriefView {
        BriefView {
            turn_id: self.turn_id@,
            attempt_placement: self.attempt_placement,
            created_at: self.created_at.deep_view(),
            status: self.status,
            has_diff: self.has_diff,
            message_count: self.message_count as int,
        }
    }
}

/// What is told of attempts.
pub open spec fn briefs(attempts: Seq<TurnView>) -> Seq<BriefView> {
    Seq::new(
        attempts.len(),
        |i: int|
            BriefView {
                turn_id: attempts[i].turn_id,
                attempt_placement: attempts[i].attempt_placement,
                created_at: attempts[i].created_at,
                status: attempts[i].status,
                has_diff: attempts[i].diff is Some,
                message_count: attempts[i].messages.len() as int,
            },
    )
}

/// What is told while a task is watched.
#[derive(Debug)]
pub enum WatchEvent {
    /// The task has another status.
    Status { status: TaskStatus, title: String, updated_at: Timestamp },
    /// The task has said something.
    Message { index: usize, text: String },
    /// The attempts at the task stand otherwise.
    Attempts { attempts: Vec<AttemptBrief>, standing: String },
    /// The task is done.
    Done { status: TaskStatus, title: String, updated_at: Timestamp, summary: DiffSummary },
}

/// A [`WatchEvent`] as the contracts speak of it.
pub enum WatchEventView {
    Status { status: TaskStatus, title: Seq<char>, updated_at: (int, int) },
    Message { index: int, text: Seq<char> },
    Attempts { attempts: Seq<BriefView>, standing: Seq<char> },
    Done { status: TaskStatus, title: Seq<char>, updated_at: (int, int), summary: DiffSummary },
}

impl DeepView for WatchEvent {
    type V = WatchEventView;

    open spec fn deep_view(&self) -> WatchEventView {
        match self {
            WatchEvent::Status { status, title, updated_at } => WatchEventView::Status {
                status: *status,
                title: title@,
                updated_at: updated_at@,
            },
            WatchEvent::Message { index, text } => WatchEventView::Message {
                index: *index as int,
                text: text@,
            },
            WatchEvent::Attempts { attempts, standing } => WatchEventView::Attempts {
                attempts: attempts.deep_view(),
                standing: standing@,
            },
            WatchEvent::Done { status, title, updated_at, summary } => WatchEventView::Done {
                status: *status,
                title: title@,
                updated_at: updated_at@,
                summary: *summary,
            },
        }
    }
}

/// Where a line goes.
#[derive(Clone, Copy, Debug, PartialEq, Eq, Structural)]
pub enum Channel {
    Stdout,
    Stderr,
}

impl WatchEventView {
    /// The type of the event in JSON.
    pub open spec fn kind(self) -> Seq<char> {
        match self {
            WatchEventView::Status { status, title, updated_at } => "status"@,
            WatchEventView::Message { index, text } => "message"@,
            WatchEventView::Attempts { attempts, standing } => "attempts"@,
            WatchEventView::Done { status, title, updated_at, summary } => "done"@,
        }
    }

    /// The line that is printed of the event, and where it goes. None is printed where the event is
    /// told as such. What the task has said goes to the standard output only where that is told in
    /// words; all else never does.
    pub open spec fn line_for(self, n: Narration) -> Option<(Channel, Seq<char>)> {
        if n == Narration::Event {
            None
        } else {
            match self {
                WatchEventView::Status { status, title, updated_at } => Some(
                    (Channel::Stderr, status.text() + ": "@ + title),
                ),
                WatchEventView::Message { index, text } => Some(
                    (
                        if n == Narration::Words {
                            Channel::Stdout
                        } else {
                            Channel::Stderr
                        },
                        text,
                    ),
                ),
                WatchEventView::Attempts { attempts, standing } => Some(
                    (Channel::Stderr, "attempts: "@ + standing),
                ),
                WatchEventView::Done { status, title, updated_at, summary } => None,
            }
        }
    }
}

impl WatchEvent {
    /// The type of the event in JSON.
    pub fn kind(&self) -> (r: &'static str)
        ensures
            r@ == self.deep_view().kind(),
    {
        match self {
            WatchEvent::Status { status: _, title: _, updated_at: _ } => "status",
            WatchEvent::Message { index: _, text: _ } => "message",
            WatchEvent::Attempts { attempts: _, standing: _ } => "attempts",
            WatchEvent::Done { status: _, title: _, updated_at: _, summary: _ } => "done",
        }
    }

    /// The line that is printed of the event, and where it goes. None is printed where the event is
    /// told as such. What the task has said goes to the standard output only where that is told in
    /// words; all else never does.
    pub fn line_for(&self, n: Narration) -> (r: Option<(Channel, String)>)
        ensures
            match r {
                Some((c, s)) => self.deep_view().line_for(n) == Some((c, s@)),
                None => self.deep_view().line_for(n) is None,
            },
    {
        if n == Narration::Event {
            return None;
        }
        match self {
            WatchEvent::Status { status, title, updated_at: _ } => {
                let mut s = status.name().to_string();
                s.append(": ");
                s.append(title);
                Some((Channel::Stderr, s))
            },
            WatchEvent::Message { index: _, text } => {
                let channel = if n == Narration::Words {
                    Channel::Stdout
                } else {
                    Channel::Stderr
                };
                Some((channel, text.clone()))
            },
            WatchEvent::Attempts { attempts: _, standing } => {
                let mut s = "attempts: ".to_string();
                s.append(standing);
                Some((Channel::Stderr, s))
            },
            WatchEvent::Done { status: _, title: _, updated_at: _, summary: _ } => None,
        }
    }
}

/// What is needed next to go on watching.
#[derive(Clone, Copy, Debug, PartialEq, Eq, Structural)]
pub enum Need {
    /// What the list says of the task.
    Summary,
    /// What the task has said; nothing where that could not be had.
    Messages,
    /// The attempts at the task, where they could be had.
    Attempts,
    /// A pause.
    Pause,
    /// Nothing: the task is done.
    Nothing,
}

/// How a task is watched.
#[derive(Clone, Copy, Debug, PartialEq, Eq, Structural)]
pub struct WatchOptions {
    pub exit_on_done: bool,
    pub stream_messages: bool,
    pub show_attempts: bool,
}

/// A task that is watched.
#[derive(Debug)]
pub struct Watcher {
    pub options: WatchOptions,
    pub need: Need,
    pub last: Option<TaskSummary>,
    pub last_status: Option<TaskStatus>,
    pub printed: usize,
    pub last_attempts: Option<Vec<Standing>>,
}

/// A [`Watcher`] as the contracts speak of it.
pub struct WatchView {
    pub options: WatchOptions,
    pub need: Need,
    pub last: Option<TaskView>,
    pub last_status: Option<TaskStatus>,
    pub printed: int,
    pub last_attempts: Option<Seq<Standing>>,
}

impl DeepView for Watcher {
    type V = WatchView;

    open spec fn deep_view(&self) -> WatchView {
        WatchView {
            options: self.options,
            need: self.need,
            last: self.last.deep_view(),
            last_status: self.last_status,
            printed: self.printed as int,
            last_attempts: match self.last_attempts {
                Some(v) => Some(v@),
                None => None,
            },
        }
    }
}

/// The messages from a place on, with their numbers.
pub open spec fn told_from(messages: Seq<Seq<char>>, from: int) -> Seq<WatchEventView> {
    if from < messages.len() {
        Seq::new(
            (messages.len() - from) as nat,
            |i: int| WatchEventView::Message { index: from + i, text: messages[from + i] },
        )
    } else {
        Seq::empty()
    }
}

/// What is known, what is told.
pub struct WatchStep {
    pub state: WatchView,
    pub events: Seq<WatchEventView>,
}

impl WatchView {
    /// Whether the task that was seen last ends the watching.
    pub open spec fn ends(self) -> bool {
        self.options.exit_on_done && (self.last matches Some(t) && t.status.terminal())
    }

    /// What is told at the end.
    pub open spec fn farewell(self) -> Seq<WatchEventView> {
        match self.last {
            Some(t) if self.ends() => seq![
                WatchEventView::Done {
                    status: t.status,
                    title: t.title,
                    updated_at: t.updated_at,
                    summary: t.summary,
                },
            ],
            _ => Seq::empty(),
        }
    }

    /// Once all has been asked for.
    pub open spec fn asked_all(self) -> WatchStep {
        WatchStep {
            state: WatchView {
                need: if self.ends() {
                    Need::Nothing
                } else {
                    Need::Pause
                },
                ..self
            },
            events: self.farewell(),
        }
    }

    /// Once the messages have been seen, or are not wanted.
    pub open spec fn after_messages(self) -> WatchStep {
        if self.options.show_attempts {
            WatchStep { state: WatchView { need: Need::Attempts, ..self }, events: Seq::empty() }
        } else {
            self.asked_all()
        }
    }

    /// With what the list says of the task: another status is told.
    pub open spec fn with_summary(self, t: TaskView) -> WatchStep {
        let told = if self.last_status == Some(t.status) {
            Seq::empty()
        } else {
            seq![
                WatchEventView::Status {
                    status: t.status,
                    title: t.title,
                    updated_at: t.updated_at,
                },
            ]
        };
        let s = WatchView { last: Some(t), last_status: Some(t.status), ..self };
        if self.options.stream_messages {
            WatchStep { state: WatchView { need: Need::Messages, ..s }, events: told }
        } else {
            let n = s.after_messages();
            WatchStep { state: n.state, events: told + n.events }
        }
    }

    /// With what the task has said: messages that have not been told are told.
    pub open spec fn with_messages(self, messages: Seq<Seq<char>>) -> WatchStep {
        let s = WatchView {
            printed: if self.printed < messages.len() {
                messages.len() as int
            } else {
                self.printed
            },
            ..self
        };
        let n = s.after_messages();
        WatchStep { state: n.state, events: told_from(messages, self.printed) + n.events }
    }

    /// With the attempts at the task, where they could be had: they are told where they stand
    /// otherwise than before.
    pub open spec fn with_attempts(self, attempts: Option<Seq<TurnView>>) -> WatchStep {
        match attempts {
            Some(a) if self.last_attempts != Some(standings(a)) => {
                let s = WatchView { last_attempts: Some(standings(a)), ..self };
                let n = s.asked_all();
                WatchStep {
                    state: n.state,
                    events: seq![
                        WatchEventView::Attempts {
                            attempts: briefs(a),
                            standing: joined(attempt_words(a), " "@),
                        },
                    ] + n.events,
                }
            },
            _ => self.asked_all(),
        }
    }
}

fn standings_of(attempts: &Vec<TurnAttempt>) -> (r: Vec<Standing>)
    ensures
        r@ == standings(attempts.deep_view()),
{
    let ghost all = attempts.deep_view();
    let mut out: Vec<Standing> = Vec::new();
    let mut i: usize = 0;
    assert(all.len() == attempts@.len());
    while i < attempts.len()
        invariant
            all == attempts.deep_view(),
            all.len() == attempts@.len(),
            i <= attempts@.len(),
            out@ == standings(all).take(i as int),
        decreases attempts@.len() - i,
    {
        assert(all[i as int] == attempts@[i as int].deep_view());
        out.push(
            Standing { placement: attempts[i].attempt_placement, status: attempts[i].status },
        );
        i += 1;
        assert(out@ =~= standings(all).take(i as int));
    }
    assert(standings(all).take(i as int) =~= standings(all));
    out
}

fn briefs_of(attempts: &Vec<TurnAttempt>) -> (r: Vec<AttemptBrief>)
    ensures
        r.deep_view() == briefs(attempts.deep_view()),
{
    let ghost all = attempts.deep_view();
    let mut out: Vec<AttemptBrief> = no_items();
    let mut i: usize = 0;
    assert(all.len() == attempts@.len());
    while i < attempts.len()
        invariant
            all == attempts.deep_view(),
            all.len() == attempts@.len(),
            i <= attempts@.len(),
            out.deep_view() == briefs(all).take(i as int),
        decreases attempts@.len() - i,
    {
        let a = &attempts[i];
        assert(all[i as int] == a.deep_view());
        assert(a.messages.deep_view().len() == a.messages@.len());
        put_last(
            &mut out,
            AttemptBrief {
                turn_id: a.turn_id.clone(),
                attempt_placement: a.attempt_placement,
                created_at: a.created_at,
                status: a.status,
                has_diff: a.diff.is_some(),
                message_count: a.messages.len(),
            },
        );
        assert(briefs(all).take(i as int).push(briefs(all)[i as int]) =~= briefs(all).take(i + 1));
        i += 1;
    }
    assert(briefs(all).take(i as int) =~= briefs(all));
    out
}

fn same_standings(a: &Vec<Standing>, b: &Vec<Standing>) -> (r: bool)
    ensures
        r == (a@ == b@),
{
    if a.len() != b.len() {
        return false;
    }
    let mut i: usize = 0;
    while i < a.len()
        invariant
            a@.len() == b@.len(),
            i <= a@.len(),
            a@.take(i as int) == b@.take(i as int),
        decreases a@.len() - i,
    {
        if a[i] != b[i] {
            return false;
        }
        i += 1;
        assert(a@.take(i as int) =~= b@.take(i as int));
    }
    assert(a@.take(i as int) =~= a@);
    assert(b@.take(i as int) =~= b@);
    true
}

/// How many seconds lie between two looks at a task.
pub fn poll_interval(secs: u64) -> (r: u64)
    ensures
        r == if secs < 1 {
            1
        } else {
            secs
        },
{
    if secs < 1 {
        1
    } else {
        secs
    }
}

impl Watcher {
    /// A task that is about to be watched.
    pub fn new(options: WatchOptions) -> (r: Self)
        ensures
            r.deep_view() == (WatchView {
                options,
                need: Need::Summary,
                last: None,
                last_status: None,
                printed: 0,
                last_attempts: None,
            }),
    {
        Watcher {
            options,
            need: Need::Summary,
            last: None,
            last_status: None,
            printed: 0,
            last_attempts: None,
        }
    }

    fn asked_all(&mut self) -> (r: Vec<WatchEvent>)
        ensures
            final(self).deep_view() == old(self).deep_view().asked_all().state,
            r.deep_view() == old(self).deep_view().asked_all().events,
    {
        match &self.last {
            Some(t) => if self.options.exit_on_done && t.status.is_terminal() {
                let e = WatchEvent::Done {
                    status: t.status,
                    title: t.title.clone(),
                    updated_at: t.updated_at,
                    summary: t.summary,
                };
                self.need = Need::Nothing;
                return one_item(e);
            },
            None => {},
        }
        self.need = Need::Pause;
        no_items()
    }

    fn after_messages(&mut self) -> (r: Vec<WatchEvent>)
        ensures
            final(self).deep_view() == old(self).deep_view().after_messages().state,
            r.deep_view() == old(self).deep_view().after_messages().events,
    {
        if self.options.show_attempts {
            self.need = Need::Attempts;
            no_items()
        } else {
            self.asked_all()
        }
    }

    /// Takes what the list says of the task.
    pub fn take_summary(&mut self, t: TaskSummary) -> (r: Vec<WatchEvent>)
        ensures
            final(self).deep_view() == old(self).deep_view().with_summary(t.deep_view()).state,
            r.deep_view() == old(self).deep_view().with_summary(t.deep_view()).events,
    {
        let seen: bool = match self.last_status {
            Some(s) => s == t.status,
            None => false,
        };
        let mut told: Vec<WatchEvent> = if seen {
            no_items()
        } else {
            one_item(
                WatchEvent::Status {
                    status: t.status,
                    title: t.title.clone(),
                    updated_at: t.updated_at,
                },
            )
        };
        self.last_status = Some(t.status);
        self.last = Some(t);
        if self.options.stream_messages {
            self.need = Need::Messages;
        } else {
            let more = self.after_messages();
            put_all(&mut told, more);
        }
        told
    }

    /// Takes what the task has said.
    pub fn take_messages(&mut self, messages: &Vec<String>) -> (r: Vec<WatchEvent>)
        ensures
            final(self).deep_view() == old(self).deep_view().with_messages(
                messages.deep_view(),
            ).state,
            r.deep_view() == old(self).deep_view().with_messages(messages.deep_view()).events,
    {
        let ghost all = messages.deep_view();
        assert(all.len() == messages@.len());
        let mut told: Vec<WatchEvent> = no_items();
        let from: usize = self.printed;
        let ghost events = told_from(all, from as int);
        if from < messages.len() {
            let mut i: usize = from;
            assert(events.take(0) =~= Seq::<WatchEventView>::empty());
            while i < messages.len()
                invariant
                    all == messages.deep_view(),
                    all.len() == messages@.len(),
                    from <= i <= messages@.len(),
                    from < messages@.len(),
                    events == told_from(all, from as int),
                    told.deep_view() == events.take(i - from),
                decreases messages@.len() - i,
            {
                assert(all[i as int] == messages@[i as int]@);
                put_last(&mut told, WatchEvent::Message { index: i, text: messages[i].clone() });
                assert(events.take(i - from).push(events[i - from]) =~= events.take(i + 1 - from));
                i += 1;
            }
            assert(events.take(i - from) =~= events);
            self.printed = messages.len();
        }
        let more = self.after_messages();
        put_all(&mut told, more);
        told
    }

    /// Takes the attempts at the task, where they could be had.
    pub fn take_attempts(&mut self, attempts: Option<Vec<TurnAttempt>>) -> (r: Vec<WatchEvent>)
        ensures
            final(self).deep_view() == old(self).deep_view().with_attempts(
                attempts.deep_view(),
            ).state,
            r.deep_view() == old(self).deep_view().with_attempts(attempts.deep_view()).events,
    {
        let mut told: Vec<WatchEvent> = no_items();
        match &attempts {
            None => {},
            Some(a) => {
                let now = standings_of(a);
                let seen: bool = match &self.last_attempts {
                    Some(v) => same_standings(v, &now),
                    None => false,
                };
                if !seen {
                    self.last_attempts = Some(now);
                    told =
                    one_item(
                        WatchEvent::Attempts {
                            attempts: briefs_of(a),
                            standing: attempts_summary(a),
                        },
                    );
                }
            },
        }
        let more = self.asked_all();
        put_all(&mut told, more);
        told
    }

    /// Goes on after a pause.
    pub fn resume(&mut self)
        ensures
            final(self).deep_view() == (WatchView { need: Need::Summary, ..old(self).deep_view() }),
    {
        self.need = Need::Summary;
    }
}

/// Unless news are told in words, watching prints no line on the standard output: it is left to
/// events, or to the result.
pub proof fn law_watching_leaves_other_output_alone(e: WatchEventView, n: Narration)
    requires
        n != Narration::Words,
    ensures
        !(e.line_for(n) matches Some((c, s)) && c == Channel::Stdout),
{
}

/// Messages and attempts are asked for, and so told, only where that is wanted.
pub proof fn law_only_what_is_wanted_is_asked_for(w: WatchView, t: TaskView, m: Seq<Seq<char>>)
    ensures
        w.with_summary(t).state.need == Need::Messages <==> w.options.stream_messages,
        w.with_summary(t).state.need == Need::Attempts <==> !w.options.stream_messages
            && w.options.show_attempts,
        w.with_messages(m).state.need == Need::Attempts <==> w.options.show_attempts,
{
}

/// A status is told once, until it changes, whatever else is seen between two looks.
pub proof fn law_a_status_is_told_once(
    w: WatchView,
    t: TaskView,
    m: Seq<Seq<char>>,
    a: Option<Seq<TurnView>>,
    u: TaskView,
    i: int,
)
    requires
        t.status == u.status,
    ensures
        ({
            let seen = w.with_summary(t).state.with_messages(m).state.with_attempts(a).state;
            let told = seen.with_summary(u).events;
            0 <= i < told.len() ==> told[i] !is Status
        }),
        ({
            let told = w.with_summary(t).state.with_summary(u).events;
            0 <= i < told.len() ==> told[i] !is Status
        }),
{
}

/// A task that is pending is never done, and one that is done is so as soon as all has been asked
/// for, where that ends the watching.
pub proof fn law_watching_ends_with_the_task(w: WatchView, t: TaskView)
    requires
        w.last == Some(t),
    ensures
        t.status == TaskStatus::Pending ==> w.asked_all().state.need == Need::Pause
            && w.asked_all().events.len() == 0,
        w.asked_all().state.need == Need::Nothing <==> t.status.terminal()
            && w.options.exit_on_done,
{
}

/// Attempts are told once, until they stand otherwise.
pub proof fn law_attempts_are_told_once(w: WatchView, a: Seq<TurnView>, b: Seq<TurnView>)
    requires
        standings(a) == standings(b),
    ensures
        w.with_attempts(Some(a)).state.with_attempts(Some(b)).events == w.with_attempts(
            Some(a),
        ).state.farewell(),
{
}

/// What is told of messages over many looks, with other news of the task between them or without.
pub open spec fn told_over(w: WatchView, looks: Seq<Seq<Seq<char>>>) -> Seq<WatchEventView>
    decreases looks.len(),
{
    if looks.len() == 0 {
        Seq::empty()
    } else {
        told_from(looks[0], w.printed) + told_over(
            w.with_messages(looks[0]).state,
            looks.drop_first(),
        )
    }
}

/// News of other things than messages leave the number of the messages that were told alone.
pub proof fn law_other_news_leave_messages_alone(
    w: WatchView,
    t: TaskView,
    a: Option<Seq<TurnView>>,
)
    ensures
        w.with_summary(t).state.printed == w.printed,
        w.with_attempts(a).state.printed == w.printed,
{
}

/// Where what a task has said only grows, every message is told once, in order: over all looks
/// just what the last look would have told alone.
pub proof fn law_messages_are_told_once(w: WatchView, looks: Seq<Seq<Seq<char>>>)
    requires
        w.printed >= 0,
        looks.len() > 0,
        forall|i: int, j: int|
            0 <= i <= j < looks.len() ==> (#[trigger] looks[i]).len() <= (#[trigger] looks[j]).len()
                && looks[j].take(looks[i].len() as int) == looks[i],
    ensures
        told_over(w, looks) == told_from(looks.last(), w.printed),
    decreases looks.len(),
{
    let from = w.printed;
    let m = looks[0];
    let rest = looks.drop_first();
    let next = w.with_messages(m).state;
    if rest.len() == 0 {
        assert(told_over(next, rest) =~= Seq::<WatchEventView>::empty());
        assert(told_over(w, looks) =~= told_from(m, from));
    } else {
        assert forall|i: int, j: int| 0 <= i <= j < rest.len() implies (#[trigger] rest[i]).len()
            <= (#[trigger] rest[j]).len() && rest[j].take(rest[i].len() as int) == rest[i] by {
            assert(rest[i] == looks[i + 1]);
            assert(rest[j] == looks[j + 1]);
        }
        law_messages_are_told_once(next, rest);
        let l = looks.last();
        assert(rest.last() == l);
        assert(l.take(m.len() as int) == m) by {
            assert(looks[0] == m);
            assert(looks[looks.len() - 1] == l);
        }
        assert(m.len() <= l.len());
        let a = told_from(m, from);
        let b = told_from(l, next.printed);
        let c = told_from(l, from);
        assert forall|i: int| 0 <= i < c.len() implies #[trigger] (a + b)[i] == c[i] by {
            if from + i < m.len() {
                assert(l.take(m.len() as int)[from + i] == l[from + i]);
            }
        }
        assert(a + b =~= c);
    }
}

/// What is seen of a task in one look.
pub struct Look {
    pub task: TaskView,
    pub messages: Seq<Seq<char>>,
    pub attempts: Option<Seq<TurnView>>,
}

impl WatchView {
    /// After one look, and the pause behind it: all that is asked for is seen.
    pub open spec fn looked(self, l: Look) -> WatchStep {
        let a = self.with_summary(l.task);
        let b = if a.state.need == Need::Messages {
            a.state.with_messages(l.messages)
        } else {
            WatchStep { state: a.state, events: Seq::empty() }
        };
        let c = if b.state.need == Need::Attempts {
            b.state.with_attempts(l.attempts)
        } else {
            WatchStep { state: b.state, events: Seq::empty() }
        };
        WatchStep {
            state: if c.state.need == Need::Pause {
                WatchView { need: Need::Summary, ..c.state }
            } else {
                c.state
            },
            events: a.events + b.events + c.events,
        }
    }

    /// After many looks, or as many of them as the watching takes.
    pub open spec fn watched(self, looks: Seq<Look>) -> WatchStep
        decreases looks.len(),
    {
        if looks.len() == 0 || self.need == Need::Nothing {
            WatchStep { state: self, events: Seq::empty() }
        } else {
            let first = self.looked(looks[0]);
            let rest = first.state.watched(looks.drop_first());
            WatchStep { state: rest.state, events: first.events + rest.events }
        }
    }
}

/// Whether a task is told to be done once and last, where the watching has ended, and not at all
/// where it has not.
pub open spec fn done_last(s: WatchStep) -> bool {
    &&& s.state.need == Need::Nothing ==> s.events.len() > 0 && s.events.last() is Done
    &&& forall|i: int|
        0 <= i < s.events.len() && (#[trigger] s.events[i]) is Done ==> s.state.need
            == Need::Nothing && i == s.events.len() - 1
}

proof fn lemma_look_is_done_last(w: WatchView, l: Look)
    requires
        w.need == Need::Summary,
    ensures
        done_last(w.looked(l)),
        w.looked(l).state.need == Need::Summary || w.looked(l).state.need == Need::Nothing,
{
}

/// Whatever is seen of a task, that it is done is told once, as the last thing, and where the
/// watching ends; and the watching goes on until then.
pub proof fn law_done_is_told_once_and_last(w: WatchView, looks: Seq<Look>)
    requires
        w.need == Need::Summary,
    ensures
        done_last(w.watched(looks)),
        w.watched(looks).state.need == Need::Summary || w.watched(looks).state.need
            == Need::Nothing,
    decreases looks.len(),
{
    if looks.len() > 0 {
        lemma_look_is_done_last(w, looks[0]);
        let first = w.looked(looks[0]);
        let rest = first.state.watched(looks.drop_first());
        if first.state.need == Need::Summary {
            law_done_is_told_once_and_last(first.state, looks.drop_first());
        }
        let all = first.events + rest.events;
        assert forall|i: int| 0 <= i < all.len() && (#[trigger] all[i]) is Done implies
            rest.state.need == Need::Nothing && i == all.len() - 1 by {
            if i < first.events.len() {
                assert(first.events[i] is Done);
            } else {
                assert(rest.events[i - first.events.len()] is Done);
            }
        }
    }
}

/// Once all has been asked for, the watching ends just where the task that was seen last is ready,
/// applied or failed, and where that is to end it; what is told of it then is that task: its
/// status, its title, its time, and how much it changes. Nothing else is told.
pub proof fn law_the_done_event_tells_of_the_task(w: WatchView, t: TaskView)
    requires
        w.last == Some(t),
    ensures
        ({
            let s = w.asked_all();
            let over = w.options.exit_on_done && (t.status == TaskStatus::Ready || t.status
                == TaskStatus::Applied || t.status == TaskStatus::Error);
            &&& s.state.need == if over {
                Need::Nothing
            } else {
                Need::Pause
            }
            &&& s.events.len() == if over {
                1int
            } else {
                0
            }
            &&& over ==> (s.events[0] matches WatchEventView::Done {
                status,
                title,
                updated_at,
                summary,
            } && status == t.status && title == t.title && updated_at == t.updated_at && summary
                == t.summary)
            &&& s.state.last == w.last
            &&& s.state.last_status == w.last_status
        }),
{
}

/// A status that was not seen last is told first, with the title and the time of the task, and
/// remembered; one that was seen last is not told again.
pub proof fn law_a_new_status_is_told(w: WatchView, t: TaskView)
    ensures
        ({
            let s = w.with_summary(t);
            &&& w.last_status != Some(t.status) ==> s.events.len() > 0 && (s.events[0] matches
                WatchEventView::Status { status, title, updated_at } && status == t.status && title
                == t.title && updated_at == t.updated_at)
            &&& forall|i: int|
                0 <= i < s.events.len() && (i > 0 || w.last_status == Some(t.status)) ==> (
                #[trigger] s.events[i]) is Done
            &&& s.state.last == Some(t)
            &&& s.state.last_status == Some(t.status)
            &&& s.state.options == w.options
        }),
{
}

/// Messages beyond those that were told are told in their order, each with its number and as it was
/// said; at most that the task is done follows.
pub proof fn law_new_messages_are_told_in_order(w: WatchView, m: Seq<Seq<char>>, i: int)
    requires
        0 <= w.printed,
    ensures
        ({
            let told = w.with_messages(m).events;
            let n = if w.printed < m.len() {
                m.len() - w.printed
            } else {
                0
            };
            &&& told.len() >= n
            &&& 0 <= i < n ==> told[i] == (WatchEventView::Message {
                index: w.printed + i,
                text: m[w.printed + i],
            })
            &&& n <= i < told.len() ==> told[i] is Done
            &&& w.with_messages(m).state.printed >= m.len()
            &&& w.with_messages(m).state.last == w.last
        }),
{
}

/// Whether attempts stand as others do: as many of them, each at the same place and in the same
/// status.
pub open spec fn stand_alike(a: Seq<TurnView>, s: Seq<Standing>) -> bool {
    &&& a.len() == s.len()
    &&& forall|i: int|
        0 <= i < a.len() ==> (#[trigger] a[i]).attempt_placement == s[i].placement && a[i].status
            == s[i].status
}

/// Attempts are told where they stand otherwise than those that were told last, each with its turn,
/// its place, its time, its status, whether it has a diff, and the number of its messages; and how
/// they stand is remembered.
pub proof fn law_attempts_are_told_as_they_stand(w: WatchView, a: Seq<TurnView>, i: int)
    ensures
        ({
            let s = w.with_attempts(Some(a));
            let told = !(w.last_attempts matches Some(l) && stand_alike(a, l));
            &&& told ==> s.events.len() > 0 && s.events[0] is Attempts && s.events[0]->attempts.len()
                == a.len() && s.events[0]->standing == joined(attempt_words(a), " "@)
            &&& told && 0 <= i < a.len() ==> ({
                let b = s.events[0]->attempts[i];
                &&& b.turn_id == a[i].turn_id
                &&& b.attempt_placement == a[i].attempt_placement
                &&& b.created_at == a[i].created_at
                &&& b.status == a[i].status
                &&& b.has_diff <==> a[i].diff is Some
                &&& b.message_count == a[i].messages.len()
            })
            &&& !told && 0 <= i < s.events.len() ==> s.events[i] is Done
            &&& told && 1 <= i < s.events.len() ==> s.events[i] is Done
            &&& s.state.last_attempts matches Some(l) && stand_alike(a, l)
            &&& s.state.last == w.last
        }),
        w.with_attempts(None).events == w.asked_all().events,
        w.with_attempts(None).state == w.asked_all().state,
{
    match w.last_attempts {
        Some(l) => {
            if stand_alike(a, l) {
                assert(standings(a) =~= l);
            }
            if standings(a) == l {
                assert forall|k: int| 0 <= k < a.len() implies (
                #[trigger] a[k]).attempt_placement == l[k].placement && a[k].status
                    == l[k].status by {
                    assert(standings(a)[k] == l[k]);
                }
            }
        },
        None => {},
    }
    assert forall|k: int| 0 <= k < a.len() implies (#[trigger] a[k]).attempt_placement == standings(
        a,
    )[k].placement && a[k].status == standings(a)[k].status by {}
}

/// The line that is printed of news: the status and the title of the task, a message as it was said,
/// or how the attempts stand; none where events are told, and none once the task is done.
pub proof fn law_lines_tell_the_news(e: WatchEventView, n: Narration)
    ensures
        n == Narration::Event || e is Done <==> e.line_for(n) is None,
        e.line_for(n) matches Some((c, s)) ==> {
            &&& e matches WatchEventView::Message { index, text } ==> s == text
            &&& e matches WatchEventView::Status { status, title, updated_at } ==> has_prefix(
                s,
                status.text() + ": "@,
            ) && has_suffix(s, title)
            &&& e matches WatchEventView::Attempts { attempts, standing } ==> has_prefix(
                s,
                "attempts: "@,
            ) && has_suffix(s, standing)
            &&& c == Channel::Stdout <==> e is Message && n == Narration::Words
        },
{
    match e {
        WatchEventView::Status { status, title, updated_at } => lemma_two_parts(
            status.text() + ": "@,
            title,
        ),
        WatchEventView::Attempts { attempts, standing } => lemma_two_parts(
            "attempts: "@,
            standing,
        ),
        _ => {},
    }
}

/// The status that was told last, or the one that was told before.
pub open spec fn status_told_last(events: Seq<WatchEventView>, before: Option<TaskStatus>) -> Option<
    TaskStatus,
>
    decreases events.len(),
{
    if events.len() == 0 {
        before
    } else {
        match events.last() {
            WatchEventView::Status { status, title, updated_at } => Some(status),
            _ => status_told_last(events.drop_last(), before),
        }
    }
}

proof fn lemma_told_last_of_two(
    a: Seq<WatchEventView>,
    b: Seq<WatchEventView>,
    before: Option<TaskStatus>,
)
    ensures
        status_told_last(a + b, before) == status_told_last(b, status_told_last(a, before)),
    decreases b.len(),
{
    if b.len() == 0 {
        assert(a + b =~= a);
    } else {
        assert((a + b).drop_last() =~= a + b.drop_last());
        assert((a + b).last() == b.last());
        lemma_told_last_of_two(a, b.drop_last(), before);
    }
}

proof fn lemma_none_told(events: Seq<WatchEventView>, before: Option<TaskStatus>)
    requires
        forall|i: int| 0 <= i < events.len() ==> (#[trigger] events[i]) !is Status,
    ensures
        status_told_last(events, before) == before,
    decreases events.len(),
{
    if events.len() > 0 {
        let t = events.drop_last();
        assert(events[events.len() - 1] !is Status);
        assert forall|i: int| 0 <= i < t.len() implies (#[trigger] t[i]) !is Status by {
            assert(t[i] == events[i]);
        }
        lemma_none_told(t, before);
    }
}

/// After one look the task that was seen is the one of that look, and its status the one that was
/// told last; where it is done, that is told of it too.
proof fn lemma_looked(w: WatchView, l: Look)
    ensures
        ({
            let s = w.looked(l);
            &&& s.state.last == Some(l.task)
            &&& s.state.last_status == Some(l.task.status)
            &&& s.state.options == w.options
            &&& status_told_last(s.events, w.last_status) == Some(l.task.status)
            &&& s.state.need == Need::Nothing <==> w.options.exit_on_done && l.task.status
                != TaskStatus::Pending
            &&& s.state.need == Need::Nothing ==> s.events.len() > 0 && s.events.last() == (
            WatchEventView::Done {
                status: l.task.status,
                title: l.task.title,
                updated_at: l.task.updated_at,
                summary: l.task.summary,
            })
        }),
{
    let a = w.with_summary(l.task);
    let b = if a.state.need == Need::Messages {
        a.state.with_messages(l.messages)
    } else {
        WatchStep { state: a.state, events: Seq::empty() }
    };
    let c = if b.state.need == Need::Attempts {
        b.state.with_attempts(l.attempts)
    } else {
        WatchStep { state: b.state, events: Seq::empty() }
    };
    let t = l.task;
    lemma_told_last_of_two(a.events + b.events, c.events, w.last_status);
    lemma_told_last_of_two(a.events, b.events, w.last_status);
    lemma_none_told(b.events, Some(t.status));
    lemma_none_told(c.events, Some(t.status));
    assert(status_told_last(a.events, w.last_status) == Some(t.status)) by {
        if w.last_status == Some(t.status) {
            lemma_none_told(a.events, w.last_status);
        } else {
            let first = seq![a.events[0]];
            let rest = a.events.skip(1);
            assert(a.events =~= first + rest);
            lemma_told_last_of_two(first, rest, w.last_status);
            assert(first.last() == a.events[0]);
            assert forall|i: int| 0 <= i < rest.len() implies (#[trigger] rest[i]) !is Status by {
                assert(rest[i] == a.events[i + 1]);
            }
            lemma_none_told(rest, Some(t.status));
        }
    }
}

/// Whether an event tells that a task is done, and of that task its status, its title, its time and
/// how much it changes.
pub open spec fn tells_done(e: WatchEventView, t: TaskView) -> bool {
    e matches WatchEventView::Done { status, title, updated_at, summary } && status == t.status
        && title == t.title && updated_at == t.updated_at && summary == t.summary
}

/// Where watching ends, it ends with the first look at which the task is no longer pending, and the
/// last event tells of the task as it was seen then; the status in it is the one that was told last.
pub proof fn law_watching_ends_with_the_task_that_was_seen_last(w: WatchView, looks: Seq<Look>)
    requires
        w.need == Need::Summary,
        w.watched(looks).state.need == Need::Nothing,
    ensures
        w.watched(looks).events.len() > 0,
        exists|k: int|
            0 <= k < looks.len() && (#[trigger] looks[k]).task.status != TaskStatus::Pending && (
            forall|j: int| 0 <= j < k ==> (#[trigger] looks[j]).task.status == TaskStatus::Pending)
                && tells_done(w.watched(looks).events.last(), looks[k].task) && status_told_last(
                w.watched(looks).events,
                w.last_status,
            ) == Some(looks[k].task.status),
        w.options.exit_on_done,
    decreases looks.len(),
{
    let first = w.looked(looks[0]);
    let rest_looks = looks.drop_first();
    let rest = first.state.watched(rest_looks);
    let all = w.watched(looks).events;
    lemma_look_is_done_last(w, looks[0]);
    lemma_looked(w, looks[0]);
    lemma_told_last_of_two(first.events, rest.events, w.last_status);
    if first.state.need == Need::Nothing {
        assert(all =~= first.events);
        assert(tells_done(all.last(), looks[0].task));
    } else {
        law_watching_ends_with_the_task_that_was_seen_last(first.state, rest_looks);
        let k = choose|k: int|
            0 <= k < rest_looks.len() && (#[trigger] rest_looks[k]).task.status
                != TaskStatus::Pending && (forall|j: int|
                0 <= j < k ==> (#[trigger] rest_looks[j]).task.status == TaskStatus::Pending)
                && tells_done(rest.events.last(), rest_looks[k].task) && status_told_last(
                rest.events,
                first.state.last_status,
            ) == Some(rest_looks[k].task.status);
        assert(rest_looks[k] == looks[k + 1]);
        assert(all.last() == rest.events.last());
        assert forall|j: int| 0 <= j < k + 1 implies (#[trigger] looks[j]).task.status
            == TaskStatus::Pending by {
            if j > 0 {
                assert(looks[j] == rest_looks[j - 1]);
            }
        }
    }
}

} // verus!
