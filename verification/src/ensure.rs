//! Making a worktree ready to apply a diff in: the steps, one at a time.
use vstd::prelude::*;

use crate::command::{arg_list, Ran};
use crate::text::{
    blank, has_suffix, is_blank, lemma_part_within, lemma_two_parts, occurs, trim, trimmed,
};

verus! {

/// Why no worktree was made ready.
#[derive(Clone, Copy, Debug, PartialEq, Eq, Structural)]
pub enum WorktreeError {
    /// The directory that was to be removed is no git worktree.
    NotOurs,
    /// `git worktree remove` failed.
    RemoveFailed,
    /// The path exists and is no git worktree.
    NotAWorktree,
    /// The worktree holds changes.
    NotClean,
    /// The directory above the worktree could not be made.
    ParentFailed,
    /// There is no ref to check out.
    EmptyRef,
    /// `git worktree add` failed.
    AddFailed,
}

impl WorktreeError {
    pub open spec fn text(self, path: Seq<char>) -> Seq<char> {
        match self {
            WorktreeError::NotOurs =>
                "refusing to delete existing directory that doesn't look like a git worktree: "@
                    + path,
            WorktreeError::RemoveFailed => "git worktree remove failed"@,
            WorktreeError::NotAWorktree =>
                "worktree path exists but doesn't look like a git worktree: "@ + path,
            WorktreeError::NotClean => "worktree is not clean: "@ + path
                + " (use --worktree-clean to recreate it)"@,
            WorktreeError::ParentFailed => "failed to create worktree parent dir: "@ + path,
            WorktreeError::EmptyRef => "worktree base ref must not be empty"@,
            WorktreeError::AddFailed => "git worktree add failed"@,
        }
    }

    /// What the user is told of the worktree at `path`.
    pub fn message(self, path: &str) -> (r: String)
        ensures
            r@ == self.text(path@),
    {
        match self {
            WorktreeError::NotOurs => {
                let mut s =
                    "refusing to delete existing directory that doesn't look like a git worktree: ".to_string();
                s.append(path);
                s
            },
            WorktreeError::RemoveFailed => "git worktree remove failed".to_string(),
            WorktreeError::NotAWorktree => {
                let mut s =
                    "worktree path exists but doesn't look like a git worktree: ".to_string();
                s.append(path);
                s
            },
            WorktreeError::NotClean => {
                let mut s = "worktree is not clean: ".to_string();
                s.append(path);
                s.append(" (use --worktree-clean to recreate it)");
                s
            },
            WorktreeError::ParentFailed => {
                let mut s = "failed to create worktree parent dir: ".to_string();
                s.append(path);
                s
            },
            WorktreeError::EmptyRef => "worktree base ref must not be empty".to_string(),
            WorktreeError::AddFailed => "git worktree add failed".to_string(),
        }
    }
}

/// How far the worktree is.
#[derive(Clone, Copy, Debug, PartialEq, Eq, Structural)]
pub enum Phase {
    Start,
    Removing,
    Pruning,
    Looking,
    Checking,
    MakingParent,
    Adding,
    Ready,
    Failed(WorktreeError),
}

/// What is to be done next.
#[derive(Debug)]
pub enum Action {
    /// Find out whether the path exists and holds `.git`.
    Look,
    /// Run git in the repository.
    GitInRepo(Vec<String>),
    /// Run git in the worktree.
    GitInWorktree(Vec<String>),
    /// Make the directory above the worktree, and those above it.
    MakeParent,
    /// The worktree is ready.
    Finish,
    /// No worktree can be made ready.
    Refuse(WorktreeError),
}

/// An [`Action`] as the contracts speak of it.
pub enum ActionView {
    Look,
    GitInRepo(Seq<Seq<char>>),
    GitInWorktree(Seq<Seq<char>>),
    MakeParent,
    Finish,
    Refuse(WorktreeError),
}

impl DeepView for Action {
    type V = ActionView;

    open spec fn deep_view(&self) -> ActionView {
        match *self {
            Action::Look => ActionView::Look,
            Action::GitInRepo(a) => ActionView::GitInRepo(a.deep_view()),
            Action::GitInWorktree(a) => ActionView::GitInWorktree(a.deep_view()),
            Action::MakeParent => ActionView::MakeParent,
            Action::Finish => ActionView::Finish,
            Action::Refuse(e) => ActionView::Refuse(e),
        }
    }
}

/// What came of an action.
#[derive(Debug)]
pub enum Outcome {
    Looked { exists: bool, is_worktree: bool },
    Ran(Ran),
    MadeParent { ok: bool },
}

/// Where a path leads that is not to be removed first.
pub open spec fn after_look(exists: bool, is_worktree: bool) -> Phase {
    if !exists {
        Phase::MakingParent
    } else if is_worktree {
        Phase::Checking
    } else {
        Phase::Failed(WorktreeError::NotAWorktree)
    }
}

/// The phase that follows. An outcome that does not belong to the phase changes nothing.
pub open spec fn next_phase(phase: Phase, clean: bool, base_ref: Seq<char>, o: Outcome) -> Phase {
    match (phase, o) {
        (Phase::Start, Outcome::Looked { exists, is_worktree }) => if clean && exists {
            if is_worktree {
                Phase::Removing
            } else {
                Phase::Failed(WorktreeError::NotOurs)
            }
        } else {
            after_look(exists, is_worktree)
        },
        (Phase::Removing, Outcome::Ran(ran)) => if ran.ok {
            Phase::Pruning
        } else {
            Phase::Failed(WorktreeError::RemoveFailed)
        },
        (Phase::Pruning, Outcome::Ran(_)) => Phase::Looking,
        (Phase::Looking, Outcome::Looked { exists, is_worktree }) => after_look(
            exists,
            is_worktree,
        ),
        (Phase::Checking, Outcome::Ran(ran)) => if ran.ok && !is_blank(ran.stdout@) {
            Phase::Failed(WorktreeError::NotClean)
        } else {
            Phase::Ready
        },
        (Phase::MakingParent, Outcome::MadeParent { ok }) => if !ok {
            Phase::Failed(WorktreeError::ParentFailed)
        } else if is_blank(base_ref) {
            Phase::Failed(WorktreeError::EmptyRef)
        } else {
            Phase::Adding
        },
        (Phase::Adding, Outcome::Ran(ran)) => if ran.ok {
            Phase::Ready
        } else {
            Phase::Failed(WorktreeError::AddFailed)
        },
        _ => phase,
    }
}

/// What is done in a phase.
pub open spec fn action_in(phase: Phase, path: Seq<char>, base_ref: Seq<char>) -> ActionView {
    match phase {
        Phase::Start => ActionView::Look,
        Phase::Removing => ActionView::GitInRepo(seq!["worktree"@, "remove"@, "-f"@, path]),
        Phase::Pruning => ActionView::GitInRepo(seq!["worktree"@, "prune"@]),
        Phase::Looking => ActionView::Look,
        Phase::Checking => ActionView::GitInWorktree(seq!["status"@, "--porcelain"@]),
        Phase::MakingParent => ActionView::MakeParent,
        Phase::Adding => ActionView::GitInRepo(
            seq!["worktree"@, "add"@, "--detach"@, path, trimmed(base_ref)],
        ),
        Phase::Ready => ActionView::Finish,
        Phase::Failed(e) => ActionView::Refuse(e),
    }
}

/// A worktree that is being made ready.
#[derive(Debug)]
pub struct EnsureWorktree {
    pub path: String,
    pub base_ref: String,
    pub clean: bool,
    pub phase: Phase,
}

impl EnsureWorktree {
    /// A worktree at `path` that is to be checked out at `base_ref`, and removed first where it
    /// exists and `clean` is set.
    pub fn new(path: String, base_ref: String, clean: bool) -> (r: Self)
        ensures
            r.path == path,
            r.base_ref == base_ref,
            r.clean == clean,
            r.phase == Phase::Start,
    {
        EnsureWorktree { path, base_ref, clean, phase: Phase::Start }
    }

    /// What is to be done next.
    pub fn action(&self) -> (r: Action)
        ensures
            r.deep_view() == action_in(self.phase, self.path@, self.base_ref@),
    {
        match self.phase {
            Phase::Start => Action::Look,
            Phase::Removing => {
                let a = arg_list(&["worktree", "remove", "-f", &self.path]);
                assert(a.deep_view() =~= seq!["worktree"@, "remove"@, "-f"@, self.path@]);
                Action::GitInRepo(a)
            },
            Phase::Pruning => {
                let a = arg_list(&["worktree", "prune"]);
                assert(a.deep_view() =~= seq!["worktree"@, "prune"@]);
                Action::GitInRepo(a)
            },
            Phase::Looking => Action::Look,
            Phase::Checking => {
                let a = arg_list(&["status", "--porcelain"]);
                assert(a.deep_view() =~= seq!["status"@, "--porcelain"@]);
                Action::GitInWorktree(a)
            },
            Phase::MakingParent => Action::MakeParent,
            Phase::Adding => {
                let base = trim(&self.base_ref);
                let a = arg_list(&["worktree", "add", "--detach", &self.path, &base]);
                assert(a.deep_view() =~= seq![
                    "worktree"@,
                    "add"@,
                    "--detach"@,
                    self.path@,
                    trimmed(self.base_ref@),
                ]);
                Action::GitInRepo(a)
            },
            Phase::Ready => Action::Finish,
            Phase::Failed(e) => Action::Refuse(e),
        }
    }

    /// Takes what came of the last action.
    pub fn step(&mut self, o: Outcome)
        ensures
            final(self).phase == next_phase(old(self).phase, old(self).clean, old(self).base_ref@, o),
            final(self).path == old(self).path,
            final(self).base_ref == old(self).base_ref,
            final(self).clean == old(self).clean,
    {
        let next = match (self.phase, o) {
            (Phase::Start, Outcome::Looked { exists, is_worktree }) => if self.clean && exists {
                if is_worktree {
                    Phase::Removing
                } else {
                    Phase::Failed(WorktreeError::NotOurs)
                }
            } else {
                look_result(exists, is_worktree)
            },
            (Phase::Removing, Outcome::Ran(ran)) => if ran.ok {
                Phase::Pruning
            } else {
                Phase::Failed(WorktreeError::RemoveFailed)
            },
            (Phase::Pruning, Outcome::Ran(_)) => Phase::Looking,
            (Phase::Looking, Outcome::Looked { exists, is_worktree }) => look_result(
                exists,
                is_worktree,
            ),
            (Phase::Checking, Outcome::Ran(ran)) => if ran.ok && !blank(&ran.stdout) {
                Phase::Failed(WorktreeError::NotClean)
            } else {
                Phase::Ready
            },
            (Phase::MakingParent, Outcome::MadeParent { ok }) => if !ok {
                Phase::Failed(WorktreeError::ParentFailed)
            } else if blank(&self.base_ref) {
                Phase::Failed(WorktreeError::EmptyRef)
            } else {
                Phase::Adding
            },
            (Phase::Adding, Outcome::Ran(ran)) => if ran.ok {
                Phase::Ready
            } else {
                Phase::Failed(WorktreeError::AddFailed)
            },
            _ => self.phase,
        };
        self.phase = next;
    }
}

fn look_result(exists: bool, is_worktree: bool) -> (r: Phase)
    ensures
        r == after_look(exists, is_worktree),
{
    if !exists {
        Phase::MakingParent
    } else if is_worktree {
        Phase::Checking
    } else {
        Phase::Failed(WorktreeError::NotAWorktree)
    }
}

/// A directory is removed only where that was asked for and where it is a git worktree.
pub proof fn law_only_a_worktree_is_removed(
    phase: Phase,
    clean: bool,
    base_ref: Seq<char>,
    o: Outcome,
)
    requires
        phase != Phase::Removing,
        next_phase(phase, clean, base_ref, o) == Phase::Removing,
    ensures
        phase == Phase::Start,
        clean,
        o == (Outcome::Looked { exists: true, is_worktree: true }),
{
}

/// A worktree that was there already is used only where git reports no changes in it, or no
/// report could be had; any other is ready only once git has added it.
pub proof fn law_ready_is_clean_or_added(
    phase: Phase,
    clean: bool,
    base_ref: Seq<char>,
    o: Outcome,
)
    requires
        phase != Phase::Ready,
        next_phase(phase, clean, base_ref, o) == Phase::Ready,
    ensures
        o matches Outcome::Ran(ran) && ((phase == Phase::Checking && (ran.ok ==> is_blank(
            ran.stdout@,
        ))) || (phase == Phase::Adding && ran.ok)),
{
}

/// A worktree is added only where nothing stands at its path, and at a ref that is not blank.
pub proof fn law_nothing_is_added_over_something(
    phase: Phase,
    clean: bool,
    base_ref: Seq<char>,
    look: Outcome,
    made: Outcome,
)
    requires
        phase == Phase::Start || phase == Phase::Looking,
        next_phase(phase, clean, base_ref, look) == Phase::MakingParent,
        next_phase(Phase::MakingParent, clean, base_ref, made) == Phase::Adding,
    ensures
        look matches Outcome::Looked { exists, is_worktree } && !exists,
        !is_blank(base_ref),
{
}

/// How many steps a phase is away from the end at most.
pub open spec fn steps_left(phase: Phase) -> nat {
    match phase {
        Phase::Start => 6,
        Phase::Removing => 5,
        Phase::Pruning => 4,
        Phase::Looking => 3,
        Phase::Checking => 2,
        Phase::MakingParent => 2,
        Phase::Adding => 1,
        Phase::Ready => 0,
        Phase::Failed(_) => 0,
    }
}

/// Whether an outcome is one of the action of a phase.
pub open spec fn belongs(phase: Phase, o: Outcome) -> bool {
    match phase {
        Phase::Start | Phase::Looking => o is Looked,
        Phase::MakingParent => o is MadeParent,
        Phase::Ready | Phase::Failed(_) => false,
        _ => o is Ran,
    }
}

/// Every action that is carried out brings the end nearer.
pub proof fn law_making_ready_ends(phase: Phase, clean: bool, base_ref: Seq<char>, o: Outcome)
    requires
        belongs(phase, o),
    ensures
        steps_left(next_phase(phase, clean, base_ref, o)) < steps_left(phase),
{
}

/// What stands at the path decides: nothing there leads to a new worktree; a worktree is checked,
/// or removed first where it is to be made anew; and anything else is left alone and refused.
pub proof fn law_what_stands_there_decides(clean: bool, base_ref: Seq<char>, is_worktree: bool)
    ensures
        next_phase(
            Phase::Start,
            clean,
            base_ref,
            Outcome::Looked { exists: false, is_worktree },
        ) == Phase::MakingParent,
        next_phase(
            Phase::Start,
            false,
            base_ref,
            Outcome::Looked { exists: true, is_worktree: true },
        ) == Phase::Checking,
        next_phase(
            Phase::Start,
            true,
            base_ref,
            Outcome::Looked { exists: true, is_worktree: true },
        ) == Phase::Removing,
        next_phase(
            Phase::Start,
            false,
            base_ref,
            Outcome::Looked { exists: true, is_worktree: false },
        ) == Phase::Failed(WorktreeError::NotAWorktree),
        next_phase(
            Phase::Start,
            true,
            base_ref,
            Outcome::Looked { exists: true, is_worktree: false },
        ) == Phase::Failed(WorktreeError::NotOurs),
        next_phase(
            Phase::Looking,
            clean,
            base_ref,
            Outcome::Looked { exists: false, is_worktree },
        ) == Phase::MakingParent,
        next_phase(
            Phase::Looking,
            clean,
            base_ref,
            Outcome::Looked { exists: true, is_worktree: true },
        ) == Phase::Checking,
        next_phase(
            Phase::Looking,
            clean,
            base_ref,
            Outcome::Looked { exists: true, is_worktree: false },
        ) == Phase::Failed(WorktreeError::NotAWorktree),
{
}

/// A worktree with changes in it is refused, and one without is taken as it is; a failed removal
/// and a failed addition are refused, a failed pruning is not.
pub proof fn law_a_dirty_worktree_is_refused(clean: bool, base_ref: Seq<char>, ran: Ran)
    ensures
        ran.ok && !is_blank(ran.stdout@) ==> next_phase(
            Phase::Checking,
            clean,
            base_ref,
            Outcome::Ran(ran),
        ) == Phase::Failed(WorktreeError::NotClean),
        ran.ok && is_blank(ran.stdout@) ==> next_phase(
            Phase::Checking,
            clean,
            base_ref,
            Outcome::Ran(ran),
        ) == Phase::Ready,
        !ran.ok ==> next_phase(Phase::Checking, clean, base_ref, Outcome::Ran(ran)) == Phase::Ready,
        next_phase(Phase::Removing, clean, base_ref, Outcome::Ran(ran)) == if ran.ok {
            Phase::Pruning
        } else {
            Phase::Failed(WorktreeError::RemoveFailed)
        },
        next_phase(Phase::Pruning, clean, base_ref, Outcome::Ran(ran)) == Phase::Looking,
        next_phase(Phase::Adding, clean, base_ref, Outcome::Ran(ran)) == if ran.ok {
            Phase::Ready
        } else {
            Phase::Failed(WorktreeError::AddFailed)
        },
{
}

/// A worktree is added once its parent is there, at a ref that is not blank.
pub proof fn law_a_worktree_is_added_at_a_ref(clean: bool, base_ref: Seq<char>, ok: bool)
    ensures
        !ok ==> next_phase(Phase::MakingParent, clean, base_ref, Outcome::MadeParent { ok })
            == Phase::Failed(WorktreeError::ParentFailed),
        ok && is_blank(base_ref) ==> next_phase(
            Phase::MakingParent,
            clean,
            base_ref,
            Outcome::MadeParent { ok },
        ) == Phase::Failed(WorktreeError::EmptyRef),
        ok && !is_blank(base_ref) ==> next_phase(
            Phase::MakingParent,
            clean,
            base_ref,
            Outcome::MadeParent { ok },
        ) == Phase::Adding,
{
}

/// Each command does what its phase is called after: it removes the worktree at the path, or adds
/// one there, detached at the ref; the check is made in the worktree, and the rest in the
/// repository.
pub proof fn law_commands_act_on_the_path(path: Seq<char>, base_ref: Seq<char>, e: WorktreeError)
    ensures
        action_in(Phase::Removing, path, base_ref) matches ActionView::GitInRepo(a) && a[0]
            == "worktree"@ && a[1] == "remove"@ && a.last() == path,
        action_in(Phase::Pruning, path, base_ref) matches ActionView::GitInRepo(a) && a[0]
            == "worktree"@ && a.last() == "prune"@,
        action_in(Phase::Checking, path, base_ref) matches ActionView::GitInWorktree(a) && a[0]
            == "status"@ && a.last() == "--porcelain"@,
        action_in(Phase::Adding, path, base_ref) matches ActionView::GitInRepo(a) && a[0]
            == "worktree"@ && a[1] == "add"@ && a[2] == "--detach"@ && a[a.len() - 2] == path
            && a.last() == trimmed(base_ref),
        action_in(Phase::Start, path, base_ref) is Look,
        action_in(Phase::Looking, path, base_ref) is Look,
        action_in(Phase::MakingParent, path, base_ref) is MakeParent,
        action_in(Phase::Ready, path, base_ref) is Finish,
        action_in(Phase::Failed(e), path, base_ref) == ActionView::Refuse(e),
{
}

/// What is said of a path that cannot be used names it.
pub proof fn law_a_refused_path_is_named(path: Seq<char>)
    ensures
        has_suffix(WorktreeError::NotOurs.text(path), path),
        has_suffix(WorktreeError::NotAWorktree.text(path), path),
        has_suffix(WorktreeError::ParentFailed.text(path), path),
        occurs(WorktreeError::NotClean.text(path), path),
{
    lemma_two_parts(
        "refusing to delete existing directory that doesn't look like a git worktree: "@,
        path,
    );
    lemma_two_parts("worktree path exists but doesn't look like a git worktree: "@, path);
    lemma_two_parts("failed to create worktree parent dir: "@, path);
    lemma_part_within(
        "worktree is not clean: "@,
        path,
        " (use --worktree-clean to recreate it)"@,
    );
}

} // verus!
