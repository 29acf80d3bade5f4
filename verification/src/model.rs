//! Tasks, their attempts, and what came of applying a diff.
use vstd::prelude::*;

use crate::number::{decimal, usize_text};
use crate::text::{
    has_prefix, has_suffix, lemma_grouped, lemma_part_within, lemma_two_parts, occurs,
};
use crate::time::Timestamp;

verus! {

/// How far a task is.
#[derive(Clone, Copy, Debug, PartialEq, Eq, Structural)]
pub enum TaskStatus {
    Pending,
    Ready,
    Applied,
    Error,
}

impl TaskStatus {
    /// The name of the status.
    pub open spec fn text(self) -> Seq<char> {
        match self {
            TaskStatus::Pending => "Pending"@,
            TaskStatus::Ready => "Ready"@,
            TaskStatus::Applied => "Applied"@,
            TaskStatus::Error => "Error"@,
        }
    }

    /// The name of the status.
    pub fn name(self) -> (r: &'static str)
        ensures
            r@ == self.text(),
    {
        match self {
            TaskStatus::Pending => "Pending",
            TaskStatus::Ready => "Ready",
            TaskStatus::Applied => "Applied",
            TaskStatus::Error => "Error",
        }
    }

    /// The name of the status in capitals.
    pub open spec fn capitals(self) -> Seq<char> {
        match self {
            TaskStatus::Pending => "PENDING"@,
            TaskStatus::Ready => "READY"@,
            TaskStatus::Applied => "APPLIED"@,
            TaskStatus::Error => "ERROR"@,
        }
    }

    /// The name of the status in capitals.
    pub fn upper_name(self) -> (r: &'static str)
        ensures
            r@ == self.capitals(),
    {
        match self {
            TaskStatus::Pending => "PENDING",
            TaskStatus::Ready => "READY",
            TaskStatus::Applied => "APPLIED",
            TaskStatus::Error => "ERROR",
        }
    }

    /// Whether the task will not go on by itself.
    pub open spec fn terminal(self) -> bool {
        self != TaskStatus::Pending
    }

    /// Whether the task will not go on by itself.
    pub fn is_terminal(self) -> (r: bool)
        ensures
            r == self.terminal(),
    {
        match self {
            TaskStatus::Ready => true,
            TaskStatus::Applied => true,
            TaskStatus::Error => true,
            TaskStatus::Pending => false,
        }
    }
}

/// How far an attempt at a task is.
#[derive(Clone, Copy, Debug, PartialEq, Eq, Structural)]
pub enum AttemptStatus {
    Pending,
    InProgress,
    Completed,
    Failed,
    Cancelled,
    Unknown,
}

impl AttemptStatus {
    /// The name of the status.
    pub open spec fn text(self) -> Seq<char> {
        match self {
            AttemptStatus::Pending => "Pending"@,
            AttemptStatus::InProgress => "InProgress"@,
            AttemptStatus::Completed => "Completed"@,
            AttemptStatus::Failed => "Failed"@,
            AttemptStatus::Cancelled => "Cancelled"@,
            AttemptStatus::Unknown => "Unknown"@,
        }
    }

    /// The name of the status.
    pub fn name(self) -> (r: &'static str)
        ensures
            r@ == self.text(),
    {
        match self {
            AttemptStatus::Pending => "Pending",
            AttemptStatus::InProgress => "InProgress",
            AttemptStatus::Completed => "Completed",
            AttemptStatus::Failed => "Failed",
            AttemptStatus::Cancelled => "Cancelled",
            AttemptStatus::Unknown => "Unknown",
        }
    }
}

/// What came of applying a diff.
#[derive(Clone, Copy, Debug, PartialEq, Eq, Structural)]
pub enum ApplyStatus {
    Success,
    Partial,
    Error,
}

impl ApplyStatus {
    /// The name of the status.
    pub open spec fn text(self) -> Seq<char> {
        match self {
            ApplyStatus::Success => "Success"@,
            ApplyStatus::Partial => "Partial"@,
            ApplyStatus::Error => "Error"@,
        }
    }

    /// The name of the status.
    pub fn name(self) -> (r: &'static str)
        ensures
            r@ == self.text(),
    {
        match self {
            ApplyStatus::Success => "Success",
            ApplyStatus::Partial => "Partial",
            ApplyStatus::Error => "Error",
        }
    }

    /// Whether anything of the diff could be applied.
    pub open spec fn some_applied(self) -> bool {
        self != ApplyStatus::Error
    }

    /// Whether anything of the diff could be applied.
    pub fn applied_some(self) -> (r: bool)
        ensures
            r == self.some_applied(),
    {
        match self {
            ApplyStatus::Success => true,
            ApplyStatus::Partial => true,
            ApplyStatus::Error => false,
        }
    }
}

/// How much a diff changes.
#[derive(Clone, Copy, Debug, PartialEq, Eq, Structural)]
pub struct DiffSummary {
    pub files_changed: usize,
    pub lines_added: usize,
    pub lines_removed: usize,
}

/// How much a diff changes, in numbers.
pub open spec fn counts_text(d: DiffSummary) -> Seq<char> {
    "files="@ + decimal(d.files_changed as int) + " +"@ + decimal(d.lines_added as int) + " -"@
        + decimal(d.lines_removed as int)
}

/// How much a diff changes, in numbers.
pub fn counts_line(d: DiffSummary) -> (r: String)
    ensures
        r@ == counts_text(d),
{
    let mut s = "files=".to_string();
    s.append(&usize_text(d.files_changed));
    s.append(" +");
    s.append(&usize_text(d.lines_added));
    s.append(" -");
    s.append(&usize_text(d.lines_removed));
    s
}

/// A copy of a text that may be missing.
pub fn copy_text(s: &Option<String>) -> (r: Option<String>)
    ensures
        r.deep_view() == s.deep_view(),
        r == *s,
{
    match s {
        Some(t) => Some(t.clone()),
        None => None,
    }
}

/// A copy of a row of texts.
pub fn copy_texts(v: &Vec<String>) -> (r: Vec<String>)
    ensures
        r.deep_view() == v.deep_view(),
        r@ == v@,
{
    let mut out: Vec<String> = Vec::new();
    let mut i: usize = 0;
    while i < v.len()
        invariant
            i <= v@.len(),
            out@ == v@.take(i as int),
        decreases v@.len() - i,
    {
        out.push(v[i].clone());
        i += 1;
        assert(out@ =~= v@.take(i as int));
    }
    assert(out@ =~= v@);
    assert(out.deep_view() =~= v.deep_view());
    out
}

/// What a list says of a task.
#[derive(Debug)]
pub struct TaskSummary {
    pub id: String,
    pub title: String,
    pub status: TaskStatus,
    pub updated_at: Timestamp,
    pub environment_id: Option<String>,
    pub environment_label: Option<String>,
    pub summary: DiffSummary,
    pub is_review: bool,
    pub attempt_total: Option<usize>,
}

/// A [`TaskSummary`] as the contracts speak of it.
pub struct TaskView {
    pub id: Seq<char>,
    pub title: Seq<char>,
    pub status: TaskStatus,
    pub updated_at: (int, int),
    pub environment_id: Option<Seq<char>>,
    pub environment_label: Option<Seq<char>>,
    pub summary: DiffSummary,
    pub is_review: bool,
    pub attempt_total: Option<usize>,
}

impl DeepView for TaskSummary {
    type V = TaskView;

    open spec fn deep_view(&self) -> TaskView {
        TaskView {
            id: self.id@,
            title: self.title@,
            status: self.status,
            updated_at: self.updated_at@,
            environment_id: self.environment_id.deep_view(),
            environment_label: self.environment_label.deep_view(),
            summary: self.summary,
            is_review: self.is_review,
            attempt_total: self.attempt_total,
        }
    }
}

/// What an environment is called: by its label, else by its id, else not at all.
pub open spec fn env_name(label: Option<Seq<char>>, id: Option<Seq<char>>) -> Seq<char> {
    match label {
        Some(l) => l,
        None => match id {
            Some(i) => i,
            None => Seq::empty(),
        },
    }
}

/// What an environment is called: by its label, else by its id, else not at all.
pub fn environment_name(label: &Option<String>, id: &Option<String>) -> (r: String)
    ensures
        r@ == env_name(label.deep_view(), id.deep_view()),
{
    match label {
        Some(l) => l.clone(),
        None => match id {
            Some(i) => i.clone(),
            None => String::new(),
        },
    }
}

/// One attempt at a task.
#[derive(Debug)]
pub struct TurnAttempt {
    pub turn_id: String,
    pub attempt_placement: Option<i64>,
    pub created_at: Option<Timestamp>,
    pub status: AttemptStatus,
    pub diff: Option<String>,
    pub messages: Vec<String>,
}

/// A [`TurnAttempt`] as the contracts speak of it.
pub struct TurnView {
    pub turn_id: Seq<char>,
    pub attempt_placement: Option<i64>,
    pub created_at: Option<(int, int)>,
    pub status: AttemptStatus,
    pub diff: Option<Seq<char>>,
    pub messages: Seq<Seq<char>>,
}

impl DeepView for TurnAttempt {
    type V = TurnView;

    open spec fn deep_view(&self) -> TurnView {
        TurnView {
            turn_id: self.turn_id@,
            attempt_placement: self.attempt_placement,
            created_at: self.created_at.deep_view(),
            status: self.status,
            diff: self.diff.deep_view(),
            messages: self.messages.deep_view(),
        }
    }
}

/// What was asked of a task and what it answered.
#[derive(Debug)]
pub struct TaskText {
    pub prompt: Option<String>,
    pub messages: Vec<String>,
    pub turn_id: Option<String>,
    pub sibling_turn_ids: Vec<String>,
    pub attempt_placement: Option<i64>,
    pub attempt_status: AttemptStatus,
}

/// A [`TaskText`] as the contracts speak of it.
pub struct TextView {
    pub prompt: Option<Seq<char>>,
    pub messages: Seq<Seq<char>>,
    pub turn_id: Option<Seq<char>>,
    pub sibling_turn_ids: Seq<Seq<char>>,
    pub attempt_placement: Option<i64>,
    pub attempt_status: AttemptStatus,
}

impl DeepView for TaskText {
    type V = TextView;

    open spec fn deep_view(&self) -> TextView {
        TextView {
            prompt: self.prompt.deep_view(),
            messages: self.messages.deep_view(),
            turn_id: self.turn_id.deep_view(),
            sibling_turn_ids: self.sibling_turn_ids.deep_view(),
            attempt_placement: self.attempt_placement,
            attempt_status: self.attempt_status,
        }
    }
}

/// What came of applying a diff.
#[derive(Debug)]
pub struct ApplyOutcome {
    pub applied: bool,
    pub status: ApplyStatus,
    pub message: String,
    pub skipped_paths: Vec<String>,
    pub conflict_paths: Vec<String>,
}

/// An [`ApplyOutcome`] as the contracts speak of it.
pub struct ApplyView {
    pub applied: bool,
    pub status: ApplyStatus,
    pub message: Seq<char>,
    pub skipped_paths: Seq<Seq<char>>,
    pub conflict_paths: Seq<Seq<char>>,
}

impl DeepView for ApplyOutcome {
    type V = ApplyView;

    open spec fn deep_view(&self) -> ApplyView {
        ApplyView {
            applied: self.applied,
            status: self.status,
            message: self.message@,
            skipped_paths: self.skipped_paths.deep_view(),
            conflict_paths: self.conflict_paths.deep_view(),
        }
    }
}

/// A task goes on by itself as long as it is pending, and in no other status.
pub proof fn law_only_pending_tasks_go_on(s: TaskStatus)
    ensures
        s == TaskStatus::Pending ==> !s.terminal(),
        s == TaskStatus::Ready || s == TaskStatus::Applied || s == TaskStatus::Error ==> s.terminal(),
{
}

/// Something of a diff was applied where all of it was, and where a part of it was.
pub proof fn law_something_is_applied_in_whole_or_in_part(s: ApplyStatus)
    ensures
        s.some_applied() <==> s == ApplyStatus::Success || s == ApplyStatus::Partial,
{
}

/// The capital of a small letter of ASCII; any other character itself.
pub open spec fn capital(c: char) -> char {
    if 'a' <= c && c <= 'z' {
        (c as u32 - 32) as char
    } else {
        c
    }
}

/// The name of a status in capitals is its name, letter for letter.
pub proof fn law_capitals_spell_the_name(s: TaskStatus)
    ensures
        s.capitals().len() == s.text().len(),
        forall|i: int|
            0 <= i < s.text().len() ==> #[trigger] s.capitals()[i] == capital(s.text()[i]),
{
    reveal_strlit("Pending");
    reveal_strlit("Ready");
    reveal_strlit("Applied");
    reveal_strlit("Error");
    reveal_strlit("PENDING");
    reveal_strlit("READY");
    reveal_strlit("APPLIED");
    reveal_strlit("ERROR");
}

/// Different statuses have different names.
pub proof fn law_names_tell_statuses_apart(
    a: TaskStatus,
    b: TaskStatus,
    c: AttemptStatus,
    d: AttemptStatus,
    e: ApplyStatus,
    f: ApplyStatus,
)
    ensures
        a.text() == b.text() ==> a == b,
        c.text() == d.text() ==> c == d,
        e.text() == f.text() ==> e == f,
{
    reveal_strlit("Pending");
    reveal_strlit("Ready");
    reveal_strlit("Applied");
    reveal_strlit("Error");
    reveal_strlit("InProgress");
    reveal_strlit("Completed");
    reveal_strlit("Failed");
    reveal_strlit("Cancelled");
    reveal_strlit("Unknown");
    reveal_strlit("Success");
    reveal_strlit("Partial");
    assert("Pending"@[0] == 'P');
    assert("Ready"@[0] == 'R');
    assert("Applied"@[0] == 'A');
    assert("Error"@[0] == 'E');
    assert("InProgress"@[0] == 'I');
    assert("Completed"@[1] == 'o');
    assert("Failed"@[0] == 'F');
    assert("Cancelled"@[1] == 'a');
    assert("Unknown"@[0] == 'U');
    assert("Success"@[0] == 'S');
    assert("Partial"@[0] == 'P');
}

/// How much a diff changes is told by three numbers: the files first, the lines that came behind a
/// plus, and at last the lines that went behind a minus.
pub proof fn law_counts_are_told_in_their_order(d: DiffSummary)
    ensures
        has_prefix(counts_text(d), "files="@ + decimal(d.files_changed as int)),
        occurs(counts_text(d), " +"@ + decimal(d.lines_added as int)),
        has_suffix(counts_text(d), " -"@ + decimal(d.lines_removed as int)),
{
    let a = "files="@ + decimal(d.files_changed as int);
    let b = " +"@ + decimal(d.lines_added as int);
    let c = " -"@ + decimal(d.lines_removed as int);
    lemma_grouped(a, " +"@, decimal(d.lines_added as int));
    lemma_grouped(a + b, " -"@, decimal(d.lines_removed as int));
    assert(counts_text(d) == a + b + c);
    lemma_grouped(a, b, c);
    lemma_two_parts(a, b + c);
    lemma_part_within(a, b, c);
    lemma_two_parts(a + b, c);
}

/// An environment is called by its label where it has one, and only otherwise by its id.
pub proof fn law_a_label_names_an_environment(label: Option<Seq<char>>, id: Option<Seq<char>>)
    ensures
        label is Some ==> env_name(label, id) == label->0,
        label is None && id is Some ==> env_name(label, id) == id->0,
        label is None && id is None ==> env_name(label, id).len() == 0,
{
}

} // verus!
