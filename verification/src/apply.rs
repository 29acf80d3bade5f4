//! Applying the diff of a task: which diff, and what came of it.
use vstd::prelude::*;

use crate::model::{
    copy_text, ApplyOutcome, ApplyStatus, ApplyView, TaskText, TurnAttempt, TurnView,
};
use crate::number::{decimal, i64_text, law_parse_decimal, parse_i64, parsed, usize_text};
use crate::outcome::outcome;
use crate::pieces::{join, joined};
use crate::row::{no_items, one_item, put_all, put_last};
use crate::screen::{list_line, list_row};
use crate::text::{
    contains, has_prefix, has_suffix, is_space, law_trimming_takes_only_the_ends, lemma_grouped,
    lemma_part_within, lemma_two_parts, occurs, same, stands_at, start_trimmed, starts_with,
    trim_start, Class,
};

verus! {

/// Whether a text is a diff that git can apply: it starts with the head of a git diff, or it holds
/// the heads of two files and of a hunk.
pub open spec fn unified(diff: Seq<char>) -> bool {
    has_prefix(start_trimmed(diff, Class::Space), "diff --git "@) || occurs(diff, "\n--- "@)
        && occurs(diff, "\n+++ "@) && (occurs(diff, "\n@@ "@) || has_prefix(diff, "@@ "@))
}

/// Whether a text is a diff that git can apply.
pub fn is_unified_diff(diff: &str) -> (r: bool)
    ensures
        r == unified(diff@),
{
    if starts_with(&trim_start(diff, Class::Space), "diff --git ") {
        return true;
    }
    contains(diff, "\n--- ") && contains(diff, "\n+++ ") && (contains(diff, "\n@@ ")
        || starts_with(diff, "@@ "))
}

/// What git says of a diff that was applied.
#[derive(Debug)]
pub struct GitApplied {
    pub exit_code: i32,
    pub applied_paths: Vec<String>,
    pub skipped_paths: Vec<String>,
    pub conflicted_paths: Vec<String>,
}

/// A [`GitApplied`] as the contracts speak of it.
pub struct GitView {
    pub exit_code: i32,
    pub applied_paths: Seq<Seq<char>>,
    pub skipped_paths: Seq<Seq<char>>,
    pub conflicted_paths: Seq<Seq<char>>,
}

impl DeepView for GitApplied {
    type V = GitView;

    open spec fn deep_view(&self) -> GitView {
        GitView {
            exit_code: self.exit_code,
            applied_paths: self.applied_paths.deep_view(),
            skipped_paths: self.skipped_paths.deep_view(),
            conflicted_paths: self.conflicted_paths.deep_view(),
        }
    }
}

/// What comes of a text that is no diff.
pub open spec fn refusal() -> ApplyView {
    ApplyView {
        applied: false,
        status: ApplyStatus::Error,
        message: "Expected unified git diff; backend returned an incompatible format."@,
        skipped_paths: Seq::empty(),
        conflict_paths: Seq::empty(),
    }
}

/// What comes of a text that is no diff; nothing of any other one, which is given to git.
pub fn refuse_diff(diff: &str) -> (r: Option<ApplyOutcome>)
    ensures
        r.deep_view() == if unified(diff@) {
            None
        } else {
            Some(refusal())
        },
{
    if is_unified_diff(diff) {
        return None;
    }
    Some(
        ApplyOutcome {
            applied: false,
            status: ApplyStatus::Error,
            message:
                "Expected unified git diff; backend returned an incompatible format.".to_string(),
            skipped_paths: no_items(),
            conflict_paths: no_items(),
        },
    )
}

/// Whether a diff could be applied: in whole where git succeeded, and in part where it applied some
/// file or found a conflict in one.
pub open spec fn status_of(g: GitView) -> ApplyStatus {
    if g.exit_code == 0 {
        ApplyStatus::Success
    } else if g.applied_paths.len() > 0 || g.conflicted_paths.len() > 0 {
        ApplyStatus::Partial
    } else {
        ApplyStatus::Error
    }
}

/// The numbers of files behind a sentence on a task.
pub open spec fn counted(start: Seq<char>, task_id: Seq<char>, g: GitView) -> Seq<char> {
    start + task_id + " (applied="@ + decimal(g.applied_paths.len() as int) + ", skipped="@
        + decimal(g.skipped_paths.len() as int) + ", conflicts="@ + decimal(
        g.conflicted_paths.len() as int,
    ) + ")"@
}

/// What is said of a diff that was tried or applied.
pub open spec fn apply_message(task_id: Seq<char>, g: GitView, preflight: bool) -> Seq<char> {
    match status_of(g) {
        ApplyStatus::Success => if preflight {
            "Preflight passed for task "@ + task_id + " (applies cleanly)"@
        } else {
            "Applied task "@ + task_id + " locally ("@ + decimal(g.applied_paths.len() as int)
                + " files)"@
        },
        ApplyStatus::Partial => if preflight {
            counted("Preflight: patch does not fully apply for task "@, task_id, g)
        } else {
            counted("Apply partially succeeded for task "@, task_id, g)
        },
        ApplyStatus::Error => if preflight {
            counted("Preflight failed for task "@, task_id, g)
        } else {
            counted("Apply failed for task "@, task_id, g)
        },
    }
}

/// What comes of a diff that was given to git.
pub open spec fn applied(task_id: Seq<char>, g: GitView, preflight: bool) -> ApplyView {
    ApplyView {
        applied: status_of(g) == ApplyStatus::Success && !preflight,
        status: status_of(g),
        message: apply_message(task_id, g, preflight),
        skipped_paths: g.skipped_paths,
        conflict_paths: g.conflicted_paths,
    }
}

fn count_files(start: &str, task_id: &str, g: &GitApplied) -> (r: String)
    ensures
        r@ == counted(start@, task_id@, g.deep_view()),
{
    assert(g.applied_paths.deep_view().len() == g.applied_paths@.len());
    assert(g.skipped_paths.deep_view().len() == g.skipped_paths@.len());
    assert(g.conflicted_paths.deep_view().len() == g.conflicted_paths@.len());
    let mut s = start.to_string();
    s.append(task_id);
    s.append(" (applied=");
    s.append(&usize_text(g.applied_paths.len()));
    s.append(", skipped=");
    s.append(&usize_text(g.skipped_paths.len()));
    s.append(", conflicts=");
    s.append(&usize_text(g.conflicted_paths.len()));
    s.append(")");
    s
}

fn git_status(g: &GitApplied) -> (r: ApplyStatus)
    ensures
        r == status_of(g.deep_view()),
{
    assert(g.applied_paths.deep_view().len() == g.applied_paths@.len());
    assert(g.conflicted_paths.deep_view().len() == g.conflicted_paths@.len());
    if g.exit_code == 0 {
        ApplyStatus::Success
    } else if g.applied_paths.len() > 0 || g.conflicted_paths.len() > 0 {
        ApplyStatus::Partial
    } else {
        ApplyStatus::Error
    }
}

fn git_message(task_id: &str, g: &GitApplied, preflight: bool) -> (r: String)
    ensures
        r@ == apply_message(task_id@, g.deep_view(), preflight),
{
    match git_status(g) {
        ApplyStatus::Success => if preflight {
            let mut s = "Preflight passed for task ".to_string();
            s.append(task_id);
            s.append(" (applies cleanly)");
            s
        } else {
            assert(g.applied_paths.deep_view().len() == g.applied_paths@.len());
            let mut s = "Applied task ".to_string();
            s.append(task_id);
            s.append(" locally (");
            s.append(&usize_text(g.applied_paths.len()));
            s.append(" files)");
            s
        },
        ApplyStatus::Partial => if preflight {
            count_files("Preflight: patch does not fully apply for task ", task_id, g)
        } else {
            count_files("Apply partially succeeded for task ", task_id, g)
        },
        ApplyStatus::Error => if preflight {
            count_files("Preflight failed for task ", task_id, g)
        } else {
            count_files("Apply failed for task ", task_id, g)
        },
    }
}

/// What comes of a diff that was given to git.
pub fn apply_result(task_id: &str, g: GitApplied, preflight: bool) -> (r: ApplyOutcome)
    ensures
        r.deep_view() == applied(task_id@, g.deep_view(), preflight),
{
    let status = git_status(&g);
    let message = git_message(task_id, &g, preflight);
    ApplyOutcome {
        applied: status == ApplyStatus::Success && !preflight,
        status,
        message,
        skipped_paths: g.skipped_paths,
        conflict_paths: g.conflicted_paths,
    }
}

/// A diff counts as applied only where git succeeded and was not just trying; trying never does.
pub proof fn law_trying_applies_nothing(task_id: Seq<char>, g: GitView)
    ensures
        !applied(task_id, g, true).applied,
        !refusal().applied,
        applied(task_id, g, false).applied <==> g.exit_code == 0,
        applied(task_id, g, true).status == applied(task_id, g, false).status,
{
}

/// What is reported where git could not be run.
pub fn git_failure(error: &str) -> (r: String)
    ensures
        r@ == "git apply failed to run: "@ + error@,
{
    let mut s = "git apply failed to run: ".to_string();
    s.append(error);
    s
}

/// Why an attempt has no diff.
#[derive(Debug)]
pub enum PickError {
    /// The task has no turn yet.
    NoTurn,
    /// No attempt stands at this place with a diff.
    NoPlacement(i64),
    /// No attempt has this turn and a diff.
    NoAttempt(String),
}

/// A [`PickError`] as the contracts speak of it.
pub enum PickErrorView {
    NoTurn,
    NoPlacement(i64),
    NoAttempt(Seq<char>),
}

impl DeepView for PickError {
    type V = PickErrorView;

    open spec fn deep_view(&self) -> PickErrorView {
        match self {
            PickError::NoTurn => PickErrorView::NoTurn,
            PickError::NoPlacement(n) => PickErrorView::NoPlacement(*n),
            PickError::NoAttempt(s) => PickErrorView::NoAttempt(s@),
        }
    }
}

impl PickErrorView {
    /// What is printed of the error.
    pub open spec fn text(self) -> Seq<char> {
        match self {
            PickErrorView::NoTurn => "task has no assistant turn yet; cannot pick attempt"@,
            PickErrorView::NoPlacement(n) => "no diff found for attempt placement "@ + decimal(
                n as int,
            ),
            PickErrorView::NoAttempt(s) => "no diff found for attempt '"@ + s + "'"@,
        }
    }
}

impl PickError {
    /// What is printed of the error.
    pub fn message(&self) -> (r: String)
        ensures
            r@ == self.deep_view().text(),
    {
        match self {
            PickError::NoTurn => "task has no assistant turn yet; cannot pick attempt".to_string(),
            PickError::NoPlacement(n) => {
                let mut s = "no diff found for attempt placement ".to_string();
                s.append(&i64_text(*n));
                s
            },
            PickError::NoAttempt(a) => {
                let mut s = "no diff found for attempt '".to_string();
                s.append(a);
                s.append("'");
                s
            },
        }
    }
}

/// Whether an attempt is the one that a selector stands for: a number is a place, anything else a
/// turn.
pub open spec fn is_selected(selector: Seq<char>, a: TurnView) -> bool {
    match parsed_i64(selector) {
        Some(n) => a.attempt_placement == Some(n),
        None => a.turn_id == selector,
    }
}

/// The number that a text is, where it fits 64 bits with a sign.
pub open spec fn parsed_i64(s: Seq<char>) -> Option<i64> {
    match parsed(s) {
        Some(n) => Some(n as i64),
        None => None,
    }
}

/// The diff of the first attempt that a selector stands for.
pub open spec fn first_diff(attempts: Seq<TurnView>, selector: Seq<char>) -> Option<Seq<char>>
    decreases attempts.len(),
{
    if attempts.len() == 0 {
        None
    } else if is_selected(selector, attempts[0]) {
        attempts[0].diff
    } else {
        first_diff(attempts.drop_first(), selector)
    }
}

/// The diff of the attempt that a selector stands for.
pub open spec fn picked_diff(attempts: Seq<TurnView>, selector: Seq<char>) -> Result<
    Seq<char>,
    PickErrorView,
> {
    match first_diff(attempts, selector) {
        Some(d) => Ok(d),
        None => match parsed_i64(selector) {
            Some(n) => Err(PickErrorView::NoPlacement(n)),
            None => Err(PickErrorView::NoAttempt(selector)),
        },
    }
}

/// The diff of the attempt that a selector stands for: a number is the place of an attempt, and
/// anything else its turn.
pub fn pick_attempt_diff(attempts: &Vec<TurnAttempt>, selector: &str) -> (r: Result<
    String,
    PickError,
>)
    ensures
        outcome(r) == picked_diff(attempts.deep_view(), selector@),
{
    let place = parse_i64(selector);
    let ghost all = attempts.deep_view();
    let mut found: Option<String> = None;
    let mut i: usize = 0;
    assert(all.len() == attempts@.len());
    assert(all.skip(0) =~= all);
    while i < attempts.len()
        invariant_except_break
            first_diff(all, selector@) == first_diff(all.skip(i as int), selector@),
            found is None,
        invariant
            all == attempts.deep_view(),
            all.len() == attempts@.len(),
            i <= attempts@.len(),
            place == parsed_i64(selector@),
        ensures
            found.deep_view() == first_diff(all, selector@),
        decreases attempts@.len() - i,
    {
        assert(all.skip(i as int)[0] == attempts@[i as int].deep_view());
        assert(all.skip(i as int).drop_first() =~= all.skip(i + 1));
        let hit: bool = match place {
            Some(n) => match attempts[i].attempt_placement {
                Some(p) => p == n,
                None => false,
            },
            None => same(&attempts[i].turn_id, selector),
        };
        if hit {
            found = copy_text(&attempts[i].diff);
            break;
        }
        i += 1;
    }
    match found {
        Some(d) => Ok(d),
        None => match place {
            Some(n) => Err(PickError::NoPlacement(n)),
            None => Err(PickError::NoAttempt(selector.to_string())),
        },
    }
}

/// The turn whose siblings are asked for to pick an attempt.
pub fn turn_to_pick_from(text: &TaskText) -> (r: Result<String, PickError>)
    ensures
        outcome(r) == match text.deep_view().turn_id {
            Some(t) => Ok::<Seq<char>, PickErrorView>(t),
            None => Err(PickErrorView::NoTurn),
        },
{
    match &text.turn_id {
        Some(t) => Ok(t.clone()),
        None => Err(PickError::NoTurn),
    }
}

/// What is reported of a task without a diff.
pub fn no_diff_message(task_id: &str) -> (r: String)
    ensures
        r@ == "No diff available for task "@ + task_id@,
{
    let mut s = "No diff available for task ".to_string();
    s.append(task_id);
    s
}

/// The diff of a task that is to be applied, where it has one; otherwise what is reported.
pub fn needed_diff(diff: Option<String>, task_id: &str) -> (r: Result<String, String>)
    ensures
        match r {
            Ok(d) => diff is Some && d@ == diff->0@,
            Err(m) => diff is None && m@ == "No diff available for task "@ + task_id@,
        },
{
    match diff {
        Some(d) => Ok(d),
        None => Err(no_diff_message(task_id)),
    }
}

/// The place of an attempt, or a question mark.
pub open spec fn placement_text(placement: Option<i64>) -> Seq<char> {
    match placement {
        Some(n) => decimal(n as int),
        None => "?"@,
    }
}

/// The place of an attempt, or a question mark.
pub fn placement_name(placement: Option<i64>) -> (r: String)
    ensures
        r@ == placement_text(placement),
{
    match placement {
        Some(n) => i64_text(n),
        None => "?".to_string(),
    }
}

/// The places and statuses of attempts.
pub open spec fn attempt_words(attempts: Seq<TurnView>) -> Seq<Seq<char>> {
    Seq::new(
        attempts.len(),
        |i: int| placement_text(attempts[i].attempt_placement) + ":"@ + attempts[i].status.text(),
    )
}

/// The places and statuses of attempts, in one line.
pub fn attempts_summary(attempts: &Vec<TurnAttempt>) -> (r: String)
    ensures
        r@ == joined(attempt_words(attempts.deep_view()), " "@),
{
    let ghost all = attempts.deep_view();
    let ghost words = attempt_words(all);
    let mut parts: Vec<String> = no_items();
    let mut i: usize = 0;
    assert(all.len() == attempts@.len());
    while i < attempts.len()
        invariant
            all == attempts.deep_view(),
            all.len() == attempts@.len(),
            words == attempt_words(all),
            i <= attempts@.len(),
            parts.deep_view() == words.take(i as int),
        decreases attempts@.len() - i,
    {
        assert(all[i as int] == attempts@[i as int].deep_view());
        let mut s = placement_name(attempts[i].attempt_placement);
        s.append(":");
        s.append(attempts[i].status.name());
        assert(s@ == words[i as int]);
        put_last(&mut parts, s);
        assert(words.take(i as int).push(words[i as int]) =~= words.take(i + 1));
        i += 1;
    }
    assert(words.take(i as int) =~= words);
    join(&parts, " ")
}

/// What is printed of a diff that was applied.
pub open spec fn apply_report_lines(o: ApplyView) -> Seq<Seq<char>> {
    seq![o.message] + list_line("skipped_paths: "@, o.skipped_paths) + list_line(
        "conflict_paths: "@,
        o.conflict_paths,
    )
}

/// What is printed of a diff that was applied.
pub fn apply_report(o: &ApplyOutcome) -> (r: Vec<String>)
    ensures
        r.deep_view() == apply_report_lines(o.deep_view()),
{
    let mut out = one_item(o.message.clone());
    put_all(&mut out, list_row("skipped_paths: ", &o.skipped_paths));
    put_all(&mut out, list_row("conflict_paths: ", &o.conflict_paths));
    out
}

/// The attempt that a selector stands for gives its diff: where it is the first such attempt, its
/// diff is the result, wherever it stands; where it has none, or there is no such attempt, that is
/// reported.
pub proof fn law_the_selected_attempt_gives_its_diff(
    attempts: Seq<TurnView>,
    selector: Seq<char>,
    i: int,
)
    requires
        0 <= i <= attempts.len(),
        match parsed(selector) {
            Some(n) => {
                &&& i < attempts.len() ==> attempts[i].attempt_placement == Some(n as i64)
                &&& forall|j: int|
                    0 <= j < i ==> (#[trigger] attempts[j]).attempt_placement != Some(n as i64)
            },
            None => {
                &&& i < attempts.len() ==> attempts[i].turn_id == selector
                &&& forall|j: int| 0 <= j < i ==> (#[trigger] attempts[j]).turn_id != selector
            },
        },
    ensures
        i < attempts.len() ==> (attempts[i].diff matches Some(d) ==> picked_diff(attempts, selector)
            == Ok::<Seq<char>, PickErrorView>(d)),
        i == attempts.len() || attempts[i].diff is None ==> picked_diff(attempts, selector)
            == match parsed(selector) {
            Some(n) => Err::<Seq<char>, PickErrorView>(PickErrorView::NoPlacement(n as i64)),
            None => Err(PickErrorView::NoAttempt(selector)),
        },
    decreases attempts.len(),
{
    if attempts.len() > 0 && i > 0 {
        let rest = attempts.drop_first();
        assert(attempts[0] == attempts[0]);
        assert forall|j: int| 0 <= j < i - 1 implies #[trigger] rest[j] == attempts[j + 1] by {}
        if i < attempts.len() {
            assert(rest[i - 1] == attempts[i]);
        }
        law_the_selected_attempt_gives_its_diff(rest, selector, i - 1);
        assert(!is_selected(selector, attempts[0]));
    }
}

/// An attempt is picked by its place, written in decimal, and one whose turn is no number by its
/// turn.
pub proof fn law_an_attempt_is_picked_by_place_or_turn(before: Seq<TurnView>, a: TurnView, after: Seq<TurnView>, n: i64)
    requires
        a.diff is Some,
    ensures
        a.attempt_placement == Some(n) && (forall|j: int|
            0 <= j < before.len() ==> (#[trigger] before[j]).attempt_placement != Some(n))
            ==> picked_diff(before.push(a) + after, decimal(n as int)) == Ok::<
            Seq<char>,
            PickErrorView,
        >(a.diff->0),
        parsed(a.turn_id) is None && (forall|j: int|
            0 <= j < before.len() ==> (#[trigger] before[j]).turn_id != a.turn_id) ==> picked_diff(
            before.push(a) + after,
            a.turn_id,
        ) == Ok::<Seq<char>, PickErrorView>(a.diff->0),
{
    let all = before.push(a) + after;
    let i = before.len() as int;
    law_parse_decimal(n);
    assert(all[i] == a);
    assert forall|j: int| 0 <= j < i implies #[trigger] all[j] == before[j] by {}
    if a.attempt_placement == Some(n) && (forall|j: int|
        0 <= j < before.len() ==> (#[trigger] before[j]).attempt_placement != Some(n)) {
        law_the_selected_attempt_gives_its_diff(all, decimal(n as int), i);
    }
    if parsed(a.turn_id) is None && (forall|j: int|
        0 <= j < before.len() ==> (#[trigger] before[j]).turn_id != a.turn_id) {
        law_the_selected_attempt_gives_its_diff(all, a.turn_id, i);
    }
}

/// A text that starts with the head of a git diff is one, whether white space stands before it or
/// not.
pub proof fn law_a_git_diff_is_known_by_its_head(c: char, a: Seq<char>)
    requires
        is_space(c),
    ensures
        unified("diff --git "@ + a),
        unified(seq![c] + ("diff --git "@ + a)),
{
    reveal_strlit("diff --git ");
    let g = "diff --git "@ + a;
    lemma_two_parts("diff --git "@, a);
    assert(g[0] == 'd');
    assert(!is_space('d'));
    assert(start_trimmed(g, Class::Space) == g);
    let n = seq![c] + g;
    assert(n.drop_first() =~= g);
    assert(start_trimmed(n, Class::Space) == g);
}

/// A text with the heads of two files and of a hunk, each at the start of a line, is a diff.
pub proof fn law_a_diff_is_known_by_its_files(
    a: Seq<char>,
    b: Seq<char>,
    c: Seq<char>,
    d: Seq<char>,
)
    ensures
        unified(a + "\n--- "@ + b + "\n+++ "@ + c + "\n@@ "@ + d),
{
    let x = "\n--- "@;
    let y = "\n+++ "@;
    let z = "\n@@ "@;
    let s = a + x + b + y + c + z + d;
    assert(occurs(s, z)) by {
        lemma_part_within(a + x + b + y + c, z, d);
    }
    assert(occurs(s, y)) by {
        assert(s =~= (a + x + b) + y + (c + z + d));
        lemma_part_within(a + x + b, y, c + z + d);
    }
    assert(occurs(s, x)) by {
        assert(s =~= a + x + (b + y + c + z + d));
        lemma_part_within(a, x, b + y + c + z + d);
    }
}

/// A text without the head of a git diff is no diff, unless it holds the heads of two files and of
/// a hunk.
pub proof fn law_other_texts_are_no_diffs(s: Seq<char>)
    requires
        !occurs(s, "diff --git "@),
        !occurs(s, "\n--- "@) || !occurs(s, "\n+++ "@) || !occurs(s, "@@ "@),
    ensures
        !unified(s),
{
    let g = "diff --git "@;
    let t = start_trimmed(s, Class::Space);
    law_trimming_takes_only_the_ends(s, Class::Space);
    if has_prefix(t, g) {
        let n = s.len() - t.len();
        assert(s.subrange(n, n + t.len()) == t);
        assert(s.subrange(n, n + g.len()) =~= t.subrange(0, g.len() as int));
        assert(stands_at(s, g, n));
    }
    if occurs(s, "\n@@ "@) {
        reveal_strlit("\n@@ ");
        reveal_strlit("@@ ");
        let i = choose|i: int| stands_at(s, "\n@@ "@, i);
        assert(s.subrange(i + 1, i + 4) =~= s.subrange(i, i + 4).skip(1));
        assert("\n@@ "@.skip(1) =~= "@@ "@);
        assert(stands_at(s, "@@ "@, i + 1));
    }
}

/// What came of a diff follows from what git said: all of it was applied just where git succeeded,
/// nothing where it failed without having touched or having found a conflict in any file, and some
/// otherwise. What was skipped and what is in conflict is passed on.
pub proof fn law_the_outcome_is_what_git_said(task_id: Seq<char>, g: GitView, preflight: bool)
    ensures
        ({
            let o = applied(task_id, g, preflight);
            &&& o.status == ApplyStatus::Success <==> g.exit_code == 0
            &&& o.status == ApplyStatus::Error <==> g.exit_code != 0 && g.applied_paths.len() == 0
                && g.conflicted_paths.len() == 0
            &&& o.applied <==> g.exit_code == 0 && !preflight
            &&& o.skipped_paths == g.skipped_paths
            &&& o.conflict_paths == g.conflicted_paths
        }),
{
}

/// How the message on a diff starts: with what came of it, for a trial and for the real thing.
pub open spec fn message_start(status: ApplyStatus, preflight: bool) -> Seq<char> {
    match (status, preflight) {
        (ApplyStatus::Success, true) => "Preflight passed for task "@,
        (ApplyStatus::Partial, true) => "Preflight: patch does not fully apply for task "@,
        (ApplyStatus::Error, true) => "Preflight failed for task "@,
        (ApplyStatus::Success, false) => "Applied task "@,
        (ApplyStatus::Partial, false) => "Apply partially succeeded for task "@,
        (ApplyStatus::Error, false) => "Apply failed for task "@,
    }
}

/// The message on a diff says what came of it, tells a trial from the real thing, names the task,
/// and gives the number of the files: of those that were applied where all went well, and otherwise
/// also of those that were skipped or are in conflict.
pub proof fn law_the_message_tells_what_git_said(task_id: Seq<char>, g: GitView, preflight: bool)
    ensures
        ({
            let o = applied(task_id, g, preflight);
            let files = decimal(g.applied_paths.len() as int);
            &&& has_prefix(o.message, message_start(o.status, preflight) + task_id)
            &&& g.exit_code == 0 && !preflight ==> has_suffix(
                o.message,
                " locally ("@ + files + " files)"@,
            )
            &&& g.exit_code != 0 ==> has_suffix(
                o.message,
                " (applied="@ + (files + (", skipped="@ + (decimal(g.skipped_paths.len() as int) + (
                ", conflicts="@ + (decimal(g.conflicted_paths.len() as int) + ")"@))))),
            )
        }),
{
    let m = applied(task_id, g, preflight).message;
    let x = message_start(status_of(g), preflight) + task_id;
    let a = decimal(g.applied_paths.len() as int);
    let b = decimal(g.skipped_paths.len() as int);
    let c = decimal(g.conflicted_paths.len() as int);
    if g.exit_code == 0 {
        if preflight {
            lemma_two_parts(x, " (applies cleanly)"@);
        } else {
            lemma_grouped(x, " locally ("@, a);
            lemma_grouped(x, " locally ("@ + a, " files)"@);
            lemma_two_parts(x, " locally ("@ + a + " files)"@);
        }
    } else {
        let e6 = c + ")"@;
        let e5 = ", conflicts="@ + e6;
        let e4 = b + e5;
        let e3 = ", skipped="@ + e4;
        let e2 = a + e3;
        let e1 = " (applied="@ + e2;
        lemma_grouped(x + " (applied="@ + a + ", skipped="@ + b + ", conflicts="@, c, ")"@);
        lemma_grouped(x + " (applied="@ + a + ", skipped="@ + b, ", conflicts="@, e6);
        lemma_grouped(x + " (applied="@ + a + ", skipped="@, b, e5);
        lemma_grouped(x + " (applied="@ + a, ", skipped="@, e4);
        lemma_grouped(x + " (applied="@, a, e3);
        lemma_grouped(x, " (applied="@, e2);
        assert(m == x + e1);
        lemma_two_parts(x, e1);
    }
}

/// A text that is no diff is refused: nothing is applied, and no files are named.
pub proof fn law_a_refusal_is_an_error()
    ensures
        refusal().status == ApplyStatus::Error,
        !refusal().applied,
        refusal().skipped_paths.len() == 0,
        refusal().conflict_paths.len() == 0,
{
}

/// What is said of an attempt without a diff names it as it was asked for.
pub proof fn law_a_missing_attempt_is_named(n: i64, s: Seq<char>)
    ensures
        has_suffix(PickErrorView::NoPlacement(n).text(), decimal(n as int)),
        has_suffix(PickErrorView::NoAttempt(s).text(), s + "'"@),
{
    lemma_two_parts("no diff found for attempt placement "@, decimal(n as int));
    lemma_grouped("no diff found for attempt '"@, s, "'"@);
    lemma_two_parts("no diff found for attempt '"@, s + "'"@);
}

/// Of each attempt its place and its status are told, in their order; the place reads back as the
/// number that it is.
pub proof fn law_attempts_are_told_by_place_and_status(attempts: Seq<TurnView>, i: int)
    requires
        0 <= i < attempts.len(),
    ensures
        attempt_words(attempts).len() == attempts.len(),
        attempts[i].attempt_placement matches Some(n) ==> has_prefix(
            attempt_words(attempts)[i],
            decimal(n as int) + ":"@,
        ) && parsed(placement_text(Some(n))) == Some(n as int),
        attempts[i].attempt_placement is None ==> has_prefix(attempt_words(attempts)[i], "?"@ + ":"@),
        has_suffix(attempt_words(attempts)[i], attempts[i].status.text()),
{
    let p = placement_text(attempts[i].attempt_placement);
    let t = attempts[i].status.text();
    assert(attempt_words(attempts)[i] == p + ":"@ + t);
    lemma_two_parts(p + ":"@, t);
    match attempts[i].attempt_placement {
        Some(n) => law_parse_decimal(n),
        None => {},
    }
}

/// The first line on a diff that was applied is its message; a line follows for the files that were
/// skipped, and one for those in conflict, where there are any.
pub proof fn law_a_report_starts_with_the_message(o: ApplyView)
    ensures
        apply_report_lines(o)[0] == o.message,
        apply_report_lines(o).len() == 1 + (if o.skipped_paths.len() > 0 {
            1int
        } else {
            0
        }) + (if o.conflict_paths.len() > 0 {
            1int
        } else {
            0
        }),
        o.skipped_paths.len() > 0 ==> has_prefix(apply_report_lines(o)[1], "skipped_paths: "@)
            && has_suffix(apply_report_lines(o)[1], joined(o.skipped_paths, ", "@)),
        o.conflict_paths.len() > 0 ==> has_prefix(apply_report_lines(o).last(), "conflict_paths: "@)
            && has_suffix(apply_report_lines(o).last(), joined(o.conflict_paths, ", "@)),
{
    lemma_two_parts("skipped_paths: "@, joined(o.skipped_paths, ", "@));
    lemma_two_parts("conflict_paths: "@, joined(o.conflict_paths, ", "@));
}

} // verus!
