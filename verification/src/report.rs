//! What the commands print.
use vstd::prelude::*;

use crate::apply::{placement_name, placement_text};
use crate::auth::{task_address, task_url, Session};
use crate::details::{number_messages, numbered};
use crate::json;
use crate::json::{at, list_in, number_in, read_text, text_in, tree, trees, Tree};
use crate::model::{
    copy_text, counts_line, counts_text, env_name, environment_name, TaskStatus, TaskSummary,
    TaskText, TaskView, TextView, TurnAttempt, TurnView,
};
use crate::number::{decimal, i64_text, usize_text};
use crate::pieces::{join, joined};
use crate::row::{no_items, one_item, put_all, put_last, take_first};
use crate::screen::{bool_name, bool_text, labelled};
use crate::text::{
    has_prefix, has_suffix, lemma_grouped, lemma_part_within, lemma_two_parts, occurs,
};
use crate::time::{age, date_text, format_relative_time_now, Timestamp};

verus! {

/// A line behind a label, where there is anything to put behind it.
pub open spec fn optional_line(label: Seq<char>, text: Option<Seq<char>>) -> Seq<Seq<char>> {
    match text {
        Some(t) => seq![label + t],
        None => Seq::empty(),
    }
}

fn optional_row(label: &str, text: &Option<String>) -> (r: Vec<String>)
    ensures
        r.deep_view() == optional_line(label@, text.deep_view()),
{
    match text {
        Some(t) => one_item(labelled(label, t)),
        None => no_items(),
    }
}

/// What is printed of a session in words; the token only where it is asked for.
pub open spec fn auth_text(s: Session, show_token: bool) -> Seq<Seq<char>> {
    seq![
        "base_url: "@ + s.base_url@,
        "codex_home: "@ + s.codex_home@,
        "account_id: "@ + match s.account_id.deep_view() {
            Some(a) => a,
            None => Seq::empty(),
        },
    ] + (if show_token {
        seq!["bearer_token: "@ + s.bearer_token@]
    } else {
        Seq::empty()
    })
}

/// What is printed of a session in words; the token only where it is asked for.
pub fn auth_lines(session: &Session, show_token: bool) -> (r: Vec<String>)
    ensures
        r.deep_view() == auth_text(*session, show_token),
{
    let account = match &session.account_id {
        Some(a) => a.clone(),
        None => String::new(),
    };
    let mut out = one_item(labelled("base_url: ", &session.base_url));
    put_last(&mut out, labelled("codex_home: ", &session.codex_home));
    put_last(&mut out, labelled("account_id: ", &account));
    assert(out.deep_view() =~= seq![
        "base_url: "@ + session.base_url@,
        "codex_home: "@ + session.codex_home@,
        "account_id: "@ + account@,
    ]);
    let token: Vec<String> = if show_token {
        one_item(labelled("bearer_token: ", &session.bearer_token))
    } else {
        no_items()
    };
    put_all(&mut out, token);
    out
}

/// The members of the JSON object that is printed of a session, a missing text being null; the
/// token only where it is asked for.
pub open spec fn auth_members(s: Session, show_token: bool) -> Seq<(Seq<char>, Option<Seq<char>>)> {
    seq![
        ("base_url"@, Some(s.base_url@)),
        ("codex_home"@, Some(s.codex_home@)),
        ("account_id"@, s.account_id.deep_view()),
        ("user_agent"@, Some(s.user_agent@)),
    ] + (if show_token {
        seq![("bearer_token"@, Some(s.bearer_token@))]
    } else {
        Seq::empty()
    })
}

/// The members of the JSON object that is printed of a session, a missing text being null; the
/// token only where it is asked for.
pub fn auth_fields(session: &Session, show_token: bool) -> (r: Vec<(String, Option<String>)>)
    ensures
        r.deep_view() == auth_members(*session, show_token),
{
    let mut out: Vec<(String, Option<String>)> = one_item(
        ("base_url".to_string(), Some(session.base_url.clone())),
    );
    put_last(&mut out, ("codex_home".to_string(), Some(session.codex_home.clone())));
    put_last(&mut out, ("account_id".to_string(), copy_text(&session.account_id)));
    put_last(&mut out, ("user_agent".to_string(), Some(session.user_agent.clone())));
    assert(out.deep_view() =~= seq![
        ("base_url"@, Some(session.base_url@)),
        ("codex_home"@, Some(session.codex_home@)),
        ("account_id"@, session.account_id.deep_view()),
        ("user_agent"@, Some(session.user_agent@)),
    ]);
    let token: Vec<(String, Option<String>)> = if show_token {
        one_item(("bearer_token".to_string(), Some(session.bearer_token.clone())))
    } else {
        no_items()
    };
    put_all(&mut out, token);
    out
}

/// Unless it is asked for, the token has no part in what is printed of a session: two sessions that
/// differ in nothing else are printed alike, in words and as JSON.
pub proof fn law_the_token_is_kept_back(a: Session, b: Session)
    requires
        a.base_url@ == b.base_url@,
        a.codex_home@ == b.codex_home@,
        a.account_id.deep_view() == b.account_id.deep_view(),
        a.user_agent@ == b.user_agent@,
    ensures
        auth_text(a, false) == auth_text(b, false),
        auth_members(a, false) == auth_members(b, false),
{
}

/// Where it is asked for, the token stands in the last line, and in the last member.
pub proof fn law_the_token_is_shown_on_request(s: Session)
    ensures
        has_suffix(auth_text(s, true).last(), s.bearer_token@),
        auth_members(s, true).last() == ("bearer_token"@, Some(s.bearer_token@)),
{
    let line = "bearer_token: "@ + s.bearer_token@;
    assert(auth_text(s, true).last() == line);
    assert(line.subrange("bearer_token: "@.len() as int, line.len() as int) =~= s.bearer_token@);
}

/// How much of a limit is used: a share that has been written out, and when the limit starts anew.
#[derive(Debug)]
pub struct LimitWindow {
    pub used_percent: String,
    pub window_minutes: Option<i64>,
    pub resets_at: Option<i64>,
}

/// A [`LimitWindow`] as the contracts speak of it.
pub struct WindowView {
    pub used_percent: Seq<char>,
    pub window_minutes: Option<i64>,
    pub resets_at: Option<i64>,
}

impl DeepView for LimitWindow {
    type V = WindowView;

    open spec fn deep_view(&self) -> WindowView {
        WindowView {
            used_percent: self.used_percent@,
            window_minutes: self.window_minutes,
            resets_at: self.resets_at,
        }
    }
}

/// What is left to spend.
#[derive(Debug)]
pub struct Credits {
    pub has_credits: bool,
    pub unlimited: bool,
    pub balance: Option<String>,
}

/// A [`Credits`] as the contracts speak of it.
pub struct CreditsView {
    pub has_credits: bool,
    pub unlimited: bool,
    pub balance: Option<Seq<char>>,
}

impl DeepView for Credits {
    type V = CreditsView;

    open spec fn deep_view(&self) -> CreditsView {
        CreditsView {
            has_credits: self.has_credits,
            unlimited: self.unlimited,
            balance: self.balance.deep_view(),
        }
    }
}

/// A limit on the use of the backend.
#[derive(Debug)]
pub struct RateLimit {
    pub limit_id: Option<String>,
    pub limit_name: Option<String>,
    pub primary: Option<LimitWindow>,
    pub secondary: Option<LimitWindow>,
    pub credits: Option<Credits>,
}

/// A [`RateLimit`] as the contracts speak of it.
pub struct LimitView {
    pub limit_id: Option<Seq<char>>,
    pub limit_name: Option<Seq<char>>,
    pub primary: Option<WindowView>,
    pub secondary: Option<WindowView>,
    pub credits: Option<CreditsView>,
}

impl DeepView for RateLimit {
    type V = LimitView;

    open spec fn deep_view(&self) -> LimitView {
        LimitView {
            limit_id: self.limit_id.deep_view(),
            limit_name: self.limit_name.deep_view(),
            primary: self.primary.deep_view(),
            secondary: self.secondary.deep_view(),
            credits: self.credits.deep_view(),
        }
    }
}

/// A number that may be missing, told apart from a missing one.
pub open spec fn maybe_number(n: Option<i64>) -> Seq<char> {
    match n {
        Some(k) => "Some("@ + decimal(k as int) + ")"@,
        None => "None"@,
    }
}

fn maybe_name(n: Option<i64>) -> (r: String)
    ensures
        r@ == maybe_number(n),
{
    match n {
        Some(k) => {
            let mut s = labelled("Some(", &i64_text(k));
            s.append(")");
            s
        },
        None => "None".to_string(),
    }
}

/// What is printed of a part of a limit.
pub open spec fn window_line(label: Seq<char>, w: Option<WindowView>) -> Seq<Seq<char>> {
    match w {
        Some(w) => seq![
            label + w.used_percent + " window_minutes="@ + maybe_number(w.window_minutes)
                + " resets_at="@ + maybe_number(w.resets_at),
        ],
        None => Seq::empty(),
    }
}

fn window_row(label: &str, w: &Option<LimitWindow>) -> (r: Vec<String>)
    ensures
        r.deep_view() == window_line(label@, w.deep_view()),
{
    match w {
        Some(w) => {
            let mut s = labelled(label, &w.used_percent);
            s.append(" window_minutes=");
            s.append(&maybe_name(w.window_minutes));
            s.append(" resets_at=");
            s.append(&maybe_name(w.resets_at));
            one_item(s)
        },
        None => no_items(),
    }
}

/// What is printed of what is left to spend.
pub open spec fn credits_line(c: Option<CreditsView>) -> Seq<Seq<char>> {
    match c {
        Some(c) => seq![
            "  credits: has_credits="@ + bool_text(c.has_credits) + " unlimited="@ + bool_text(
                c.unlimited,
            ) + " balance="@ + (match c.balance {
                Some(b) => b,
                None => "<none>"@,
            }),
        ],
        None => Seq::empty(),
    }
}

fn credits_row(c: &Option<Credits>) -> (r: Vec<String>)
    ensures
        r.deep_view() == credits_line(c.deep_view()),
{
    match c {
        Some(c) => {
            let mut s = labelled("  credits: has_credits=", bool_name(c.has_credits));
            s.append(" unlimited=");
            s.append(bool_name(c.unlimited));
            s.append(" balance=");
            match &c.balance {
                Some(b) => {
                    s.append(b);
                },
                None => {
                    s.append("<none>");
                },
            }
            one_item(s)
        },
        None => no_items(),
    }
}

/// What is printed of a limit.
pub open spec fn limit_lines(l: LimitView) -> Seq<Seq<char>> {
    seq![
        (match l.limit_id {
            Some(i) => i,
            None => "<unknown>"@,
        }) + "\t"@ + (match l.limit_name {
            Some(n) => n,
            None => Seq::empty(),
        }),
    ] + window_line("  primary: used_percent="@, l.primary) + window_line(
        "  secondary: used_percent="@,
        l.secondary,
    ) + credits_line(l.credits)
}

/// What is printed of a limit.
pub fn usage_lines(l: &RateLimit) -> (r: Vec<String>)
    ensures
        r.deep_view() == limit_lines(l.deep_view()),
{
    let mut s = match &l.limit_id {
        Some(i) => i.clone(),
        None => "<unknown>".to_string(),
    };
    s.append("\t");
    let name = match &l.limit_name {
        Some(n) => n.clone(),
        None => String::new(),
    };
    s.append(&name);
    let mut out = one_item(s);
    put_all(&mut out, window_row("  primary: used_percent=", &l.primary));
    put_all(&mut out, window_row("  secondary: used_percent=", &l.secondary));
    put_all(&mut out, credits_row(&l.credits));
    out
}

/// What is printed of a task that has been created: a line for its id, its environment, its ref and
/// the number of its agents, and one for its address where that is known.
pub open spec fn created_text(
    task_id: Seq<char>,
    env_id: Seq<char>,
    git_ref: Seq<char>,
    agents: int,
    url: Option<Seq<char>>,
) -> Seq<Seq<char>> {
    seq![
        "task_id: "@ + task_id,
        "environment: "@ + env_id,
        "ref: "@ + git_ref,
        "agents: "@ + decimal(agents),
    ] + optional_line("url: "@, url)
}

/// What is printed of a task that was created.
pub fn created_lines(
    task_id: &str,
    env_id: &str,
    git_ref: &str,
    agents: u8,
    url: Option<&str>,
) -> (r: Vec<String>)
    ensures
        r.deep_view() == created_text(
            task_id@,
            env_id@,
            git_ref@,
            agents as int,
            url.deep_view(),
        ),
{
    let mut out = one_item(labelled("task_id: ", task_id));
    put_last(&mut out, labelled("environment: ", env_id));
    put_last(&mut out, labelled("ref: ", git_ref));
    put_last(&mut out, labelled("agents: ", &usize_text(agents as usize)));
    assert(out.deep_view() =~= seq![
        "task_id: "@ + task_id@,
        "environment: "@ + env_id@,
        "ref: "@ + git_ref@,
        "agents: "@ + decimal(agents as int),
    ]);
    let address: Vec<String> = match url {
        Some(u) => one_item(labelled("url: ", u)),
        None => no_items(),
    };
    put_all(&mut out, address);
    out
}

/// Tasks without those that are reviews.
pub open spec fn not_reviews(tasks: Seq<TaskView>) -> Seq<TaskView> {
    tasks.filter(|t: TaskView| !t.is_review)
}

/// Tasks without those that are reviews.
pub fn without_reviews(tasks: Vec<TaskSummary>) -> (r: Vec<TaskSummary>)
    ensures
        r.deep_view() == not_reviews(tasks.deep_view()),
{
    let ghost all = tasks.deep_view();
    let ghost p = |t: TaskView| !t.is_review;
    let mut rest = tasks;
    let mut kept: Vec<TaskSummary> = no_items();
    let ghost mut done: int = 0;
    assert(all.skip(0) =~= all);
    proof {
        reveal(Seq::filter);
        assert(kept.deep_view() =~= all.take(0).filter(p));
    }
    while rest.len() > 0
        invariant
            0 <= done <= all.len(),
            rest.deep_view() == all.skip(done),
            p == (|t: TaskView| !t.is_review),
            kept.deep_view() == all.take(done).filter(p),
        decreases rest@.len(),
    {
        let t = take_first(&mut rest);
        proof {
            reveal(Seq::filter);
            assert(t.deep_view() == all[done]);
            assert(all.take(done + 1).drop_last() =~= all.take(done));
            assert(all.take(done + 1).last() == t.deep_view());
            assert(all.skip(done).drop_first() =~= all.skip(done + 1));
            done = done + 1;
        }
        if !t.is_review {
            put_last(&mut kept, t);
        }
    }
    assert(all.take(done) =~= all);
    kept
}

/// The tasks of a list: without reviews, unless they are wanted.
pub open spec fn tasks_to_list(tasks: Seq<TaskView>, include_reviews: bool) -> Seq<TaskView> {
    if include_reviews {
        tasks
    } else {
        not_reviews(tasks)
    }
}

/// The tasks of a list: without reviews, unless they are wanted.
pub fn listed_tasks(tasks: Vec<TaskSummary>, include_reviews: bool) -> (r: Vec<TaskSummary>)
    ensures
        r.deep_view() == tasks_to_list(tasks.deep_view(), include_reviews),
{
    if include_reviews {
        tasks
    } else {
        without_reviews(tasks)
    }
}

/// The line of a task in a list.
pub open spec fn task_line_text(t: TaskView, now: (int, int)) -> Seq<char> {
    t.id + "\t"@ + t.status.text() + "\t"@ + age(now, t.updated_at) + "\t"@ + env_name(
        t.environment_label,
        t.environment_id,
    ) + "\t"@ + counts_text(t.summary) + "\t"@ + t.title
}

/// The line of a task in a list.
pub fn task_line(t: &TaskSummary, now: &Timestamp) -> (r: String)
    ensures
        r@ == task_line_text(t.deep_view(), now@),
{
    let mut s = t.id.clone();
    s.append("\t");
    s.append(t.status.name());
    s.append("\t");
    s.append(&format_relative_time_now(now, &t.updated_at));
    s.append("\t");
    s.append(&environment_name(&t.environment_label, &t.environment_id));
    s.append("\t");
    s.append(&counts_line(t.summary));
    s.append("\t");
    s.append(&t.title);
    s
}

/// The lines of a list of tasks, with the cursor to its next page.
pub open spec fn list_text(tasks: Seq<TaskView>, cursor: Option<Seq<char>>, now: (int, int)) -> Seq<
    Seq<char>,
> {
    tasks.map_values(|t: TaskView| task_line_text(t, now)) + optional_line("cursor: "@, cursor)
}

/// The lines of a list of tasks, with the cursor to its next page.
pub fn list_lines(tasks: &Vec<TaskSummary>, cursor: &Option<String>, now: &Timestamp) -> (r: Vec<
    String,
>)
    ensures
        r.deep_view() == list_text(tasks.deep_view(), cursor.deep_view(), now@),
{
    let ghost all = tasks.deep_view();
    let ghost g = |t: TaskView| task_line_text(t, now@);
    let mut out: Vec<String> = no_items();
    let mut i: usize = 0;
    assert(all.len() == tasks@.len());
    assert(out.deep_view() =~= all.take(0).map_values(g));
    while i < tasks.len()
        invariant
            all == tasks.deep_view(),
            all.len() == tasks@.len(),
            g == (|t: TaskView| task_line_text(t, now@)),
            i <= tasks@.len(),
            out.deep_view() == all.take(i as int).map_values(g),
        decreases tasks@.len() - i,
    {
        assert(all[i as int] == tasks@[i as int].deep_view());
        put_last(&mut out, task_line(&tasks[i], now));
        assert(all.take(i as int).map_values(g).push(task_line_text(all[i as int], now@))
            =~= all.take(i + 1).map_values(g));
        i += 1;
    }
    assert(all.take(i as int) =~= all);
    put_all(&mut out, optional_row("cursor: ", cursor));
    out
}

/// The head of a task that is shown.
pub open spec fn show_head(
    task_id: Seq<char>,
    base_url: Seq<char>,
    t: TaskView,
    status: Seq<char>,
) -> Seq<Seq<char>> {
    (seq![
        "id: "@ + task_id,
        "url: "@ + task_address(base_url, task_id),
        "title: "@ + t.title,
        "status: "@ + status,
        "updated_at: "@ + date_text(t.updated_at.0, t.updated_at.1),
    ] + optional_line("environment_id: "@, t.environment_id) + optional_line(
        "environment_label: "@,
        t.environment_label,
    )).push("diff_summary: "@ + counts_text(t.summary))
}

fn show_head_rows(task_id: &str, base_url: &str, t: &TaskSummary, status: &str) -> (r: Vec<String>)
    ensures
        r.deep_view() == show_head(task_id@, base_url@, t.deep_view(), status@),
{
    let mut out = one_item(labelled("id: ", task_id));
    put_last(&mut out, labelled("url: ", &task_url(base_url, task_id)));
    put_last(&mut out, labelled("title: ", &t.title));
    put_last(&mut out, labelled("status: ", status));
    put_last(&mut out, labelled("updated_at: ", &t.updated_at.shown()));
    assert(out.deep_view() =~= seq![
        "id: "@ + task_id@,
        "url: "@ + task_address(base_url@, task_id@),
        "title: "@ + t.title@,
        "status: "@ + status@,
        "updated_at: "@ + date_text(t.updated_at@.0, t.updated_at@.1),
    ]);
    put_all(&mut out, optional_row("environment_id: ", &t.environment_id));
    put_all(&mut out, optional_row("environment_label: ", &t.environment_label));
    put_last(&mut out, labelled("diff_summary: ", &counts_line(t.summary)));
    out
}

/// What was asked of a task and what it answered, as it is shown.
pub open spec fn show_text(t: TextView) -> Seq<Seq<char>> {
    (optional_line("\n--- prompt ---\n"@, t.prompt) + (if t.messages.len() == 0 {
        Seq::empty()
    } else {
        seq!["\n--- messages ---"@] + numbered(t.messages)
    }) + optional_line("turn_id: "@, t.turn_id) + (if t.sibling_turn_ids.len() == 0 {
        Seq::empty()
    } else {
        seq!["sibling_turn_ids: "@ + joined(t.sibling_turn_ids, ","@)]
    })).push("attempt_status: "@ + t.attempt_status.text())
}

fn show_text_rows(t: &TaskText) -> (r: Vec<String>)
    ensures
        r.deep_view() == show_text(t.deep_view()),
{
    assert(t.messages.deep_view().len() == t.messages@.len());
    assert(t.sibling_turn_ids.deep_view().len() == t.sibling_turn_ids@.len());
    let mut out = optional_row("\n--- prompt ---\n", &t.prompt);
    let messages: Vec<String> = if t.messages.len() == 0 {
        no_items()
    } else {
        let mut v = one_item("\n--- messages ---".to_string());
        put_all(&mut v, number_messages(&t.messages));
        v
    };
    put_all(&mut out, messages);
    put_all(&mut out, optional_row("turn_id: ", &t.turn_id));
    let siblings: Vec<String> = if t.sibling_turn_ids.len() == 0 {
        no_items()
    } else {
        one_item(labelled("sibling_turn_ids: ", &join(&t.sibling_turn_ids, ",")))
    };
    put_all(&mut out, siblings);
    put_last(&mut out, labelled("attempt_status: ", t.attempt_status.name()));
    out
}

/// The line of an attempt that is shown.
pub open spec fn attempt_line(a: TurnView) -> Seq<char> {
    placement_text(a.attempt_placement) + "\t"@ + a.status.text() + "\t"@ + a.turn_id
}

/// The attempts at a task, as they are shown.
pub open spec fn show_attempts(attempts: Seq<TurnView>) -> Seq<Seq<char>> {
    seq!["\n--- attempts ---"@] + attempts.map_values(|a: TurnView| attempt_line(a))
}

fn show_attempts_rows(attempts: &Vec<TurnAttempt>) -> (r: Vec<String>)
    ensures
        r.deep_view() == show_attempts(attempts.deep_view()),
{
    let ghost all = attempts.deep_view();
    let ghost g = |a: TurnView| attempt_line(a);
    let ghost first = seq!["\n--- attempts ---"@];
    let mut out = one_item("\n--- attempts ---".to_string());
    let mut i: usize = 0;
    assert(all.len() == attempts@.len());
    assert(out.deep_view() =~= first + all.take(0).map_values(g));
    while i < attempts.len()
        invariant
            all == attempts.deep_view(),
            all.len() == attempts@.len(),
            g == (|a: TurnView| attempt_line(a)),
            first == seq!["\n--- attempts ---"@],
            i <= attempts@.len(),
            out.deep_view() == first + all.take(i as int).map_values(g),
        decreases attempts@.len() - i,
    {
        let a = &attempts[i];
        assert(all[i as int] == a.deep_view());
        let mut s = placement_name(a.attempt_placement);
        s.append("\t");
        s.append(a.status.name());
        s.append("\t");
        s.append(&a.turn_id);
        put_last(&mut out, s);
        assert((first + all.take(i as int).map_values(g)).push(attempt_line(all[i as int]))
            =~= first + all.take(i + 1).map_values(g));
        i += 1;
    }
    assert(all.take(i as int) =~= all);
    out
}

/// A diff, as it is shown.
pub open spec fn show_diff(diff: Option<Seq<char>>) -> Seq<char> {
    match diff {
        Some(d) => "\n--- diff ---\n"@ + d,
        None => "\n(no diff)"@,
    }
}

/// What is asked for beside the head of a task: what was said, the attempts, and the diff.
#[derive(Debug)]
pub struct ShowParts {
    pub text: Option<TaskText>,
    pub attempts: Option<Vec<TurnAttempt>>,
    pub diff: Option<Option<String>>,
}

/// A task, as it is shown.
pub open spec fn show_all(
    task_id: Seq<char>,
    base_url: Seq<char>,
    t: TaskView,
    status: Seq<char>,
    text: Option<TextView>,
    attempts: Option<Seq<TurnView>>,
    diff: Option<Option<Seq<char>>>,
) -> Seq<Seq<char>> {
    show_head(task_id, base_url, t, status) + (match text {
        Some(x) => show_text(x),
        None => Seq::empty(),
    }) + (match attempts {
        Some(a) => show_attempts(a),
        None => Seq::empty(),
    }) + (match diff {
        Some(d) => seq![show_diff(d)],
        None => Seq::empty(),
    })
}

/// A task, as it is shown. `status` is the name that its status has in JSON.
pub fn show_lines(
    task_id: &str,
    base_url: &str,
    t: &TaskSummary,
    status: &str,
    parts: &ShowParts,
) -> (r: Vec<String>)
    ensures
        r.deep_view() == show_all(
            task_id@,
            base_url@,
            t.deep_view(),
            status@,
            parts.text.deep_view(),
            parts.attempts.deep_view(),
            parts.diff.deep_view(),
        ),
{
    let mut out = show_head_rows(task_id, base_url, t, status);
    let text: Vec<String> = match &parts.text {
        Some(x) => show_text_rows(x),
        None => no_items(),
    };
    put_all(&mut out, text);
    let attempts: Vec<String> = match &parts.attempts {
        Some(a) => show_attempts_rows(a),
        None => no_items(),
    };
    put_all(&mut out, attempts);
    let diff: Vec<String> = match &parts.diff {
        Some(d) => one_item(
            match d {
                Some(x) => labelled("\n--- diff ---\n", x),
                None => "\n(no diff)".to_string(),
            },
        ),
        None => no_items(),
    };
    put_all(&mut out, diff);
    out
}

/// What is printed at the end of watching.
pub fn watched_lines(status: TaskStatus, base_url: &str, task_id: &str) -> (r: Vec<String>)
    ensures
        r.deep_view() == seq![
            "status: "@ + status.text(),
            "url: "@ + task_address(base_url@, task_id@),
        ],
{
    let mut out = one_item(labelled("status: ", status.name()));
    put_last(&mut out, labelled("url: ", &task_url(base_url, task_id)));
    assert(out.deep_view() =~= seq![
        "status: "@ + status.text(),
        "url: "@ + task_address(base_url@, task_id@),
    ]);
    out
}

/// The pull requests that a description of a task holds.
pub open spec fn external_prs(description: Tree) -> Seq<Tree> {
    match at(description, seq!["task"@, "external_pull_requests"@]) {
        Some(t) => match list_in(t) {
            Some(s) => s,
            None => Seq::empty(),
        },
        None => Seq::empty(),
    }
}

/// The line of a pull request.
pub open spec fn pr_line(pr: Tree) -> Seq<char> {
    let url = match at(pr, seq!["pull_request"@, "url"@]) {
        Some(t) => match text_in(t) {
            Some(s) => s,
            None => "<unknown>"@,
        },
        None => "<unknown>"@,
    };
    let number = match at(pr, seq!["pull_request"@, "number"@]) {
        Some(t) => match number_in(t, i64::MIN as int, i64::MAX as int) {
            Some(n) => decimal(n),
            None => "?"@,
        },
        None => "?"@,
    };
    let state = match at(pr, seq!["pull_request"@, "state"@]) {
        Some(t) => match text_in(t) {
            Some(s) => s,
            None => Seq::empty(),
        },
        None => Seq::empty(),
    };
    "#"@ + number + "\t"@ + state + "\t"@ + url
}

/// The lines of the pull requests of a task.
pub open spec fn prs_text(description: Tree) -> Seq<Seq<char>> {
    let prs = external_prs(description);
    if prs.len() == 0 {
        seq!["(no external pull requests)"@]
    } else {
        prs.map_values(|t: Tree| pr_line(t))
    }
}

proof fn lemma_at_two(t: Tree, a: Seq<char>, b: Seq<char>)
    ensures
        at(t, seq![a, b]) == (match json::member(t, a) {
            Some(m) => json::member(m, b),
            None => None,
        }),
{
    reveal_with_fuel(at, 3);
    assert(seq![a, b].drop_first() =~= seq![b]);
    assert(seq![b].drop_first() =~= Seq::<Seq<char>>::empty());
}

fn two_down<'a>(v: &'a serde_json::Value, a: &str, b: &str) -> (r: Option<&'a serde_json::Value>)
    ensures
        match r {
            Some(m) => at(tree(*v), seq![a@, b@]) == Some(tree(*m)),
            None => at(tree(*v), seq![a@, b@]) is None,
        },
{
    proof {
        lemma_at_two(tree(*v), a@, b@);
    }
    match json::get(v, a) {
        None => None,
        Some(m) => json::get(m, b),
    }
}

fn pr_row(pr: &serde_json::Value) -> (r: String)
    ensures
        r@ == pr_line(tree(*pr)),
{
    let url = match two_down(pr, "pull_request", "url") {
        Some(t) => match json::as_str(t) {
            Some(s) => s.to_string(),
            None => "<unknown>".to_string(),
        },
        None => "<unknown>".to_string(),
    };
    let number = match two_down(pr, "pull_request", "number") {
        Some(t) => match json::as_i64(t) {
            Some(n) => i64_text(n),
            None => "?".to_string(),
        },
        None => "?".to_string(),
    };
    let state = match two_down(pr, "pull_request", "state") {
        Some(t) => match json::as_str(t) {
            Some(s) => s.to_string(),
            None => String::new(),
        },
        None => String::new(),
    };
    let mut s = labelled("#", &number);
    s.append("\t");
    s.append(&state);
    s.append("\t");
    s.append(&url);
    s
}

/// The pull requests that a description of a task holds.
pub fn pull_requests_in(description: &serde_json::Value) -> (r: Vec<serde_json::Value>)
    ensures
        trees(r@) == external_prs(tree(*description)),
{
    let mut out: Vec<serde_json::Value> = Vec::new();
    if let Some(t) = two_down(description, "task", "external_pull_requests") {
        if let Some(items) = json::as_array(t) {
            let mut i: usize = 0;
            while i < items.len()
                invariant
                    i <= items@.len(),
                    trees(out@) == trees(items@).take(i as int),
                decreases items@.len() - i,
            {
                let ghost before = out@;
                out.push(json::copy(&items[i]));
                assert(trees(out@) =~= trees(before).push(tree(items@[i as int])));
                i += 1;
                assert(trees(out@) =~= trees(items@).take(i as int));
            }
            assert(trees(items@).take(i as int) =~= trees(items@));
        }
    }
    out
}

/// The pull requests of a task that the backend describes in `body`.
pub fn external_pull_requests(body: &str) -> (r: Result<Vec<serde_json::Value>, serde_json::Error>)
    ensures
        match r {
            Ok(prs) => read_text(body@) is Some && trees(prs@) == external_prs(
                read_text(body@)->0,
            ),
            Err(_) => read_text(body@) is None,
        },
{
    match json::from_str(body) {
        Ok(v) => Ok(pull_requests_in(&v)),
        Err(e) => Err(e),
    }
}

/// The lines of the pull requests that a description of a task holds.
pub fn pr_lines_in(description: &serde_json::Value) -> (r: Vec<String>)
    ensures
        r.deep_view() == prs_text(tree(*description)),
{
    let prs = pull_requests_in(description);
    let ghost all = external_prs(tree(*description)).map_values(|t: Tree| pr_line(t));
    assert(trees(prs@).len() == prs@.len());
    if prs.len() == 0 {
        return one_item("(no external pull requests)".to_string());
    }
    let mut out: Vec<String> = no_items();
    let mut i: usize = 0;
    while i < prs.len()
        invariant
            i <= prs@.len(),
            trees(prs@) == external_prs(tree(*description)),
            all == external_prs(tree(*description)).map_values(|t: Tree| pr_line(t)),
            out.deep_view() == all.take(i as int),
        decreases prs@.len() - i,
    {
        assert(trees(prs@)[i as int] == tree(prs@[i as int]));
        put_last(&mut out, pr_row(&prs[i]));
        assert(all.take(i as int).push(all[i as int]) =~= all.take(i + 1));
        i += 1;
    }
    assert(all.take(i as int) =~= prs_text(tree(*description)));
    out
}

/// The lines of the pull requests of a task that the backend describes in `body`.
pub fn task_prs(body: &str) -> (r: Result<Vec<String>, serde_json::Error>)
    ensures
        match r {
            Ok(lines) => read_text(body@) is Some && lines.deep_view() == prs_text(
                read_text(body@)->0,
            ),
            Err(_) => read_text(body@) is None,
        },
{
    match json::from_str(body) {
        Ok(v) => Ok(pr_lines_in(&v)),
        Err(e) => Err(e),
    }
}

/// A text as it is, or a note where there is none.
pub open spec fn text_or(text: Option<Seq<char>>, note: Seq<char>) -> Seq<char> {
    match text {
        Some(t) => t,
        None => note,
    }
}

/// What is printed of a file of requirements: its contents, where there is one.
pub fn requirements_text(contents: Option<String>) -> (r: String)
    ensures
        r@ == text_or(contents.deep_view(), "(no requirements file returned)\n"@),
{
    match contents {
        Some(c) => c,
        None => "(no requirements file returned)\n".to_string(),
    }
}

/// What is printed of a diff: the diff itself, where there is one.
pub fn diff_output(diff: Option<String>) -> (r: String)
    ensures
        r@ == text_or(diff.deep_view(), "(no diff)\n"@),
{
    match diff {
        Some(d) => d,
        None => "(no diff)\n".to_string(),
    }
}

/// Without reviews, a task is listed just where it is given and is no review.
pub proof fn law_reviews_are_left_out(tasks: Seq<TaskView>, t: TaskView)
    ensures
        not_reviews(tasks).contains(t) <==> tasks.contains(t) && !t.is_review,
        forall|i: int|
            0 <= i < not_reviews(tasks).len() ==> !(#[trigger] not_reviews(tasks)[i]).is_review,
{
    broadcast use vstd::seq_lib::group_filter_ensures;

    let p = |t: TaskView| !t.is_review;
    let kept = tasks.filter(p);
    if tasks.contains(t) && !t.is_review {
        let i = choose|i: int| 0 <= i < tasks.len() && tasks[i] == t;
        assert(p(tasks[i]));
        assert(kept.contains(t));
    }
    if kept.contains(t) {
        tasks.lemma_filter_contains_rev(p, t);
        let i = choose|i: int| 0 <= i < kept.len() && kept[i] == t;
        assert(p(kept[i]));
    }
    assert forall|i: int| 0 <= i < kept.len() implies !(#[trigger] kept[i]).is_review by {
        assert(p(kept[i]));
    }
}

/// Tasks are listed in the order in which they are given: what is listed of two rows of tasks is
/// what is listed of the first one, and behind it what is listed of the second one; and a row of
/// one task is listed unless it is a review.
pub proof fn law_tasks_keep_their_order(a: Seq<TaskView>, b: Seq<TaskView>, t: TaskView)
    ensures
        not_reviews(a + b) == not_reviews(a) + not_reviews(b),
        t.is_review ==> not_reviews(seq![t]).len() == 0,
        !t.is_review ==> not_reviews(seq![t]) == seq![t],
{
    let p = |t: TaskView| !t.is_review;
    Seq::filter_distributes_over_add(a, b, p);
    reveal_with_fuel(Seq::filter, 2);
    assert(seq![t].drop_last() =~= Seq::<TaskView>::empty());
    assert(seq![t].last() == t);
    assert(Seq::<TaskView>::empty().push(t) =~= seq![t]);
}

/// The line of a task starts with its id and its status, tells how old it is and where it runs, and
/// ends with how much it changes and its title.
pub proof fn law_a_task_is_told_in_one_line(t: TaskView, now: (int, int))
    ensures
        has_prefix(task_line_text(t, now), t.id + "\t"@ + t.status.text() + "\t"@),
        occurs(
            task_line_text(t, now),
            "\t"@ + (age(now, t.updated_at) + ("\t"@ + (env_name(
                t.environment_label,
                t.environment_id,
            ) + "\t"@))),
        ),
        has_suffix(task_line_text(t, now), "\t"@ + (counts_text(t.summary) + ("\t"@ + t.title))),
{
    let tab = "\t"@;
    let x = t.id + tab + t.status.text();
    let a = age(now, t.updated_at);
    let e = env_name(t.environment_label, t.environment_id);
    let c = counts_text(t.summary);
    let whole = task_line_text(t, now);
    let mid = tab + (a + (tab + (e + tab)));
    lemma_grouped(x + tab + a + tab, e, tab);
    lemma_grouped(x + tab + a, tab, e + tab);
    lemma_grouped(x + tab, a, tab + (e + tab));
    lemma_grouped(x, tab, a + (tab + (e + tab)));
    assert(x + tab + a + tab + e + tab == x + mid);
    let end = c + (tab + t.title);
    lemma_grouped(x + mid + c, tab, t.title);
    lemma_grouped(x + mid, c, tab + t.title);
    assert(whole == x + mid + end);
    lemma_part_within(x, mid, end);
    let y = x + tab + a + tab + e;
    lemma_grouped(y, tab, end);
    assert(whole == y + (tab + end));
    lemma_two_parts(y, tab + end);
    let rest = a + (tab + (e + tab));
    lemma_grouped(x + tab, rest, end);
    assert(x + mid == x + tab + rest);
    lemma_two_parts(x + tab, rest + end);
}

/// A list has a line for each task, in their order, and at its end one for the cursor, where there
/// is a next page.
pub proof fn law_a_list_has_a_line_for_each_task(
    tasks: Seq<TaskView>,
    cursor: Option<Seq<char>>,
    now: (int, int),
    i: int,
)
    ensures
        0 <= i < tasks.len() ==> list_text(tasks, cursor, now)[i] == task_line_text(tasks[i], now),
        cursor is None ==> list_text(tasks, cursor, now).len() == tasks.len(),
        cursor matches Some(c) ==> list_text(tasks, cursor, now).len() == tasks.len() + 1
            && list_text(tasks, cursor, now).last() == "cursor: "@ + c,
{
}

/// A session is printed with its address, its home and its account, in words and as JSON.
pub proof fn law_a_session_is_told(s: Session, show_token: bool)
    ensures
        auth_text(s, show_token).len() == if show_token {
            4int
        } else {
            3
        },
        auth_text(s, show_token)[0] == "base_url: "@ + s.base_url@,
        auth_text(s, show_token)[1] == "codex_home: "@ + s.codex_home@,
        s.account_id.deep_view() matches Some(a) ==> has_suffix(auth_text(s, show_token)[2], a),
        has_prefix(auth_text(s, show_token)[2], "account_id: "@),
        auth_members(s, show_token).contains(("base_url"@, Some(s.base_url@))),
        auth_members(s, show_token).contains(("codex_home"@, Some(s.codex_home@))),
        auth_members(s, show_token).contains(("account_id"@, s.account_id.deep_view())),
        auth_members(s, show_token).contains(("user_agent"@, Some(s.user_agent@))),
        auth_members(s, show_token).len() == if show_token {
            5int
        } else {
            4
        },
{
    let m = auth_members(s, show_token);
    assert(m[0] == ("base_url"@, Some(s.base_url@)));
    assert(m[1] == ("codex_home"@, Some(s.codex_home@)));
    assert(m[2] == ("account_id"@, s.account_id.deep_view()));
    assert(m[3] == ("user_agent"@, Some(s.user_agent@)));
    let account = match s.account_id.deep_view() {
        Some(a) => a,
        None => Seq::empty(),
    };
    assert(auth_text(s, show_token)[2] == "account_id: "@ + account);
    lemma_two_parts("account_id: "@, account);
}

/// Each part of a task that is shown stands behind the one before it: its head, what was said, its
/// attempts, and its diff; and a part that is not asked for is left out.
pub proof fn law_only_what_is_asked_for_is_shown(
    task_id: Seq<char>,
    base_url: Seq<char>,
    t: TaskView,
    status: Seq<char>,
    text: Option<TextView>,
    attempts: Option<Seq<TurnView>>,
    diff: Option<Option<Seq<char>>>,
)
    ensures
        ({
            let all = show_all(task_id, base_url, t, status, text, attempts, diff);
            let head = show_head(task_id, base_url, t, status);
            &&& all.take(head.len() as int) == head
            &&& text is None && attempts is None && diff is None ==> all == head
            &&& diff matches Some(Some(d)) ==> has_suffix(all.last(), d)
            &&& diff matches Some(None) ==> all.last() == "\n(no diff)"@
            &&& diff is None && text is None ==> (attempts matches Some(a) ==> all.len()
                == head.len() + 1 + a.len())
        }),
        show_head(task_id, base_url, t, status)[0] == "id: "@ + task_id,
        show_head(task_id, base_url, t, status)[1] == "url: "@ + task_address(base_url, task_id),
        show_head(task_id, base_url, t, status)[2] == "title: "@ + t.title,
        show_head(task_id, base_url, t, status)[3] == "status: "@ + status,
        has_suffix(show_head(task_id, base_url, t, status).last(), counts_text(t.summary)),
        t.environment_id matches Some(e) ==> show_head(task_id, base_url, t, status).contains(
            "environment_id: "@ + e,
        ),
        t.environment_label matches Some(e) ==> show_head(task_id, base_url, t, status).contains(
            "environment_label: "@ + e,
        ),
{
    let all = show_all(task_id, base_url, t, status, text, attempts, diff);
    let head = show_head(task_id, base_url, t, status);
    assert(all.take(head.len() as int) =~= head);
    if text is None && attempts is None && diff is None {
        assert(all =~= head);
    }
    match diff {
        Some(Some(d)) => {
            assert(all.last() == "\n--- diff ---\n"@ + d);
            lemma_two_parts("\n--- diff ---\n"@, d);
        },
        _ => {},
    }
    lemma_two_parts("diff_summary: "@, counts_text(t.summary));
    match t.environment_id {
        Some(e) => {
            assert(head[5] == "environment_id: "@ + e);
        },
        None => {},
    }
    match t.environment_label {
        Some(e) => {
            assert(head[head.len() - 2] == "environment_label: "@ + e);
        },
        None => {},
    }
}

/// What was said is shown with every message behind its number, the turn, and the status of the
/// attempt at the end.
pub proof fn law_what_was_said_is_shown(t: TextView, i: int)
    ensures
        has_suffix(show_text(t).last(), t.attempt_status.text()),
        t.prompt matches Some(p) ==> has_suffix(show_text(t)[0], p),
        0 <= i < t.messages.len() ==> show_text(t).contains(numbered(t.messages)[i]),
        t.turn_id matches Some(u) ==> show_text(t).contains("turn_id: "@ + u),
        t.sibling_turn_ids.len() > 0 ==> show_text(t).contains(
            "sibling_turn_ids: "@ + joined(t.sibling_turn_ids, ","@),
        ),
{
    lemma_two_parts("attempt_status: "@, t.attempt_status.text());
    let all = show_text(t);
    let p = optional_line("\n--- prompt ---\n"@, t.prompt);
    let m = if t.messages.len() == 0 {
        Seq::empty()
    } else {
        seq!["\n--- messages ---"@] + numbered(t.messages)
    };
    match t.prompt {
        Some(x) => {
            assert(all[0] == "\n--- prompt ---\n"@ + x);
            lemma_two_parts("\n--- prompt ---\n"@, x);
        },
        None => {},
    }
    if 0 <= i < t.messages.len() {
        assert(m[i + 1] == numbered(t.messages)[i]);
        assert(all[p.len() + i + 1] == numbered(t.messages)[i]);
    }
    match t.turn_id {
        Some(u) => {
            assert(all[(p.len() + m.len()) as int] == "turn_id: "@ + u);
        },
        None => {},
    }
    if t.sibling_turn_ids.len() > 0 {
        assert(all[all.len() - 2] == "sibling_turn_ids: "@ + joined(t.sibling_turn_ids, ","@));
    }
}

/// The attempts are shown in their order, each by its place, its status and its turn.
pub proof fn law_each_attempt_is_shown_in_a_line(attempts: Seq<TurnView>, i: int)
    requires
        0 <= i < attempts.len(),
    ensures
        show_attempts(attempts).len() == attempts.len() + 1,
        has_prefix(
            show_attempts(attempts)[i + 1],
            placement_text(attempts[i].attempt_placement) + "\t"@ + attempts[i].status.text()
                + "\t"@,
        ),
        has_suffix(show_attempts(attempts)[i + 1], "\t"@ + attempts[i].turn_id),
{
    let a = attempts[i];
    let x = placement_text(a.attempt_placement) + "\t"@ + a.status.text();
    assert(show_attempts(attempts)[i + 1] == x + "\t"@ + a.turn_id);
    lemma_grouped(x, "\t"@, a.turn_id);
    lemma_two_parts(x, "\t"@ + a.turn_id);
    lemma_two_parts(x + "\t"@, a.turn_id);
}

/// The pull requests of a task are those that its description lists under the task; each is shown
/// in a line of its own, with its number first and its address last, and where there are none that
/// is said.
pub proof fn law_the_listed_pull_requests_are_shown(d: Tree, i: int)
    ensures
        at(d, seq!["task"@, "external_pull_requests"@]) matches Some(t) ==> (list_in(t) matches Some(
            s,
        ) ==> external_prs(d) == s),
        at(d, seq!["task"@, "external_pull_requests"@]) is None ==> external_prs(d).len() == 0,
        external_prs(d).len() == 0 ==> prs_text(d) == seq!["(no external pull requests)"@],
        external_prs(d).len() > 0 ==> prs_text(d).len() == external_prs(d).len(),
        0 <= i < external_prs(d).len() ==> {
            let pr = external_prs(d)[i];
            let line = prs_text(d)[i];
            &&& has_prefix(line, "#"@)
            &&& at(pr, seq!["pull_request"@, "url"@]) matches Some(t) ==> (text_in(t) matches Some(
                u,
            ) ==> has_suffix(line, "\t"@ + u))
            &&& at(pr, seq!["pull_request"@, "number"@]) matches Some(t) ==> (number_in(
                t,
                i64::MIN as int,
                i64::MAX as int,
            ) matches Some(n) ==> has_prefix(line, "#"@ + decimal(n) + "\t"@))
            &&& at(pr, seq!["pull_request"@, "state"@]) matches Some(t) ==> (text_in(t) matches Some(
                u,
            ) ==> occurs(line, "\t"@ + u + "\t"@))
        },
{
    if 0 <= i < external_prs(d).len() {
        let pr = external_prs(d)[i];
        let line = prs_text(d)[i];
        assert(line == pr_line(pr));
        let tab = "\t"@;
        let url = match at(pr, seq!["pull_request"@, "url"@]) {
            Some(t) => match text_in(t) {
                Some(s) => s,
                None => "<unknown>"@,
            },
            None => "<unknown>"@,
        };
        let number = match at(pr, seq!["pull_request"@, "number"@]) {
            Some(t) => match number_in(t, i64::MIN as int, i64::MAX as int) {
                Some(n) => decimal(n),
                None => "?"@,
            },
            None => "?"@,
        };
        let state = match at(pr, seq!["pull_request"@, "state"@]) {
            Some(t) => match text_in(t) {
                Some(s) => s,
                None => Seq::empty(),
            },
            None => Seq::empty(),
        };
        let x = "#"@ + number;
        assert(line == x + tab + state + tab + url);
        lemma_grouped(x + tab + state, tab, url);
        lemma_two_parts(x + tab + state, tab + url);
        lemma_grouped(x + tab, state, tab);
        lemma_grouped(x + tab, state + tab, url);
        lemma_two_parts(x + tab, state + tab + url);
        lemma_grouped(x, tab, state);
        lemma_grouped(x, tab + state, tab);
        lemma_part_within(x, tab + state + tab, url);
        let rest = number + tab + state + tab + url;
        lemma_grouped("#"@, number, tab);
        lemma_grouped("#"@, number + tab, state);
        lemma_grouped("#"@, number + tab + state, tab);
        lemma_grouped("#"@, number + tab + state + tab, url);
        lemma_two_parts("#"@, rest);
    }
}

/// A limit is told by its id and its name first, then by its two parts, and by what is left to
/// spend, as far as there is any of these.
pub proof fn law_a_limit_is_told(l: LimitView)
    ensures
        ({
            let all = limit_lines(l);
            &&& all.len() == 1 + (if l.primary is Some {
                1int
            } else {
                0
            }) + (if l.secondary is Some {
                1int
            } else {
                0
            }) + (if l.credits is Some {
                1int
            } else {
                0
            })
            &&& l.limit_id matches Some(i) ==> has_prefix(all[0], i + "\t"@)
            &&& l.limit_name matches Some(n) ==> has_suffix(all[0], "\t"@ + n)
            &&& l.primary matches Some(w) ==> has_prefix(
                all[1],
                "  primary: used_percent="@ + w.used_percent,
            ) && has_suffix(all[1], " resets_at="@ + maybe_number(w.resets_at))
            &&& l.secondary matches Some(w) ==> ({
                let line = all[if l.primary is Some {
                    2
                } else {
                    1
                }];
                has_prefix(line, "  secondary: used_percent="@ + w.used_percent) && has_suffix(
                    line,
                    " resets_at="@ + maybe_number(w.resets_at),
                )
            })
            &&& l.credits matches Some(c) ==> has_prefix(
                all.last(),
                "  credits: has_credits="@ + bool_text(c.has_credits) + " unlimited="@ + bool_text(
                    c.unlimited,
                ),
            ) && (c.balance matches Some(b) ==> has_suffix(all.last(), " balance="@ + b))
        }),
{
    let all = limit_lines(l);
    let id = match l.limit_id {
        Some(i) => i,
        None => "<unknown>"@,
    };
    let name = match l.limit_name {
        Some(n) => n,
        None => Seq::empty(),
    };
    assert(all[0] == id + "\t"@ + name);
    lemma_two_parts(id + "\t"@, name);
    lemma_grouped(id, "\t"@, name);
    lemma_two_parts(id, "\t"@ + name);
    match l.primary {
        Some(w) => lemma_window("  primary: used_percent="@, w),
        None => {},
    }
    match l.secondary {
        Some(w) => lemma_window("  secondary: used_percent="@, w),
        None => {},
    }
    match l.credits {
        Some(c) => {
            let x = "  credits: has_credits="@ + bool_text(c.has_credits) + " unlimited="@
                + bool_text(c.unlimited);
            let b = match c.balance {
                Some(b) => b,
                None => "<none>"@,
            };
            assert(all.last() == x + " balance="@ + b);
            lemma_grouped(x, " balance="@, b);
            lemma_two_parts(x, " balance="@ + b);
        },
        None => {},
    }
}

proof fn lemma_window(label: Seq<char>, w: WindowView)
    ensures
        has_prefix(window_line(label, Some(w))[0], label + w.used_percent),
        has_suffix(
            window_line(label, Some(w))[0],
            " resets_at="@ + maybe_number(w.resets_at),
        ),
{
    let x = label + w.used_percent;
    let m = maybe_number(w.window_minutes);
    let e = " resets_at="@ + maybe_number(w.resets_at);
    lemma_grouped(x + " window_minutes="@ + m, " resets_at="@, maybe_number(w.resets_at));
    lemma_two_parts(x + " window_minutes="@ + m, e);
    lemma_grouped(x, " window_minutes="@, m);
    lemma_grouped(x, " window_minutes="@ + m, e);
    lemma_two_parts(x, " window_minutes="@ + m + e);
}

/// Reviews are listed on request only: where they are wanted every task is listed, and where they
/// are not just those that are no reviews are.
pub proof fn law_reviews_are_listed_on_request(tasks: Seq<TaskView>, t: TaskView)
    ensures
        tasks_to_list(tasks, true) == tasks,
        tasks_to_list(tasks, false).contains(t) <==> tasks.contains(t) && !t.is_review,
{
    law_reviews_are_left_out(tasks, t);
}

/// A text is printed as it is, and a note only where there is none.
pub proof fn law_a_text_is_printed_as_it_is(text: Seq<char>, note: Seq<char>)
    ensures
        text_or(Some(text), note) == text,
        text_or(None, note) == note,
{
}

/// A created task is told by its id, its environment, its ref and the number of its agents, in this
/// order, and by its address at the end where that is known.
pub proof fn law_a_created_task_is_told(
    task_id: Seq<char>,
    env_id: Seq<char>,
    git_ref: Seq<char>,
    agents: int,
    url: Option<Seq<char>>,
)
    ensures
        ({
            let t = created_text(task_id, env_id, git_ref, agents, url);
            &&& t[0] == "task_id: "@ + task_id
            &&& t[1] == "environment: "@ + env_id
            &&& t[2] == "ref: "@ + git_ref
            &&& t[3] == "agents: "@ + decimal(agents)
            &&& url matches Some(u) ==> t.len() == 5 && t[4] == "url: "@ + u
            &&& url is None ==> t.len() == 4
        }),
{
}

/// A number that is there is told by its digits, between round brackets; a missing one is not.
pub proof fn law_a_missing_number_is_told_apart(k: i64)
    ensures
        occurs(maybe_number(Some(k)), decimal(k as int)),
        has_prefix(maybe_number(Some(k)), "Some("@),
        has_suffix(maybe_number(Some(k)), ")"@),
        maybe_number(Some(k)).len() == "Some("@.len() + decimal(k as int).len() + ")"@.len(),
        maybe_number(None) == "None"@,
{
    let n = decimal(k as int);
    lemma_part_within("Some("@, n, ")"@);
    lemma_two_parts("Some("@ + n, ")"@);
    lemma_grouped("Some("@, n, ")"@);
    lemma_two_parts("Some("@, n + ")"@);
}

} // verus!
