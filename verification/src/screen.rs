//! What the terminal interface shows.
use vstd::prelude::*;

use crate::app::{
    App, AppView, ApplyModalState, ApplyModalView, ApplyStage, NewTaskState, NewTaskView,
};
use crate::auth::{task_address, task_url};
use crate::details::{DetailsState, DetailsView};
use crate::env_api::{EnvView, Environment};
use crate::model::{
    counts_line, counts_text, env_name, environment_name, ApplyOutcome, ApplyView, DiffSummary,
    TaskSummary, TaskView,
};
use crate::number::{decimal, usize_text};
use crate::pieces::{join, joined, lines, text_lines};
use crate::pr::{PrCreateResult, PrResultView};
use crate::row::{no_items, one_item, put_all, put_last};
use crate::text::{
    blank, chars_of, has_prefix, has_suffix, is_blank, lemma_grouped, lemma_part_within,
    lemma_two_parts, occurs, text_of,
};
use crate::time::{age_ago, relative_time_ago, Timestamp};

verus! {

/// How many bytes a character takes in UTF-8.
pub open spec fn utf8_len(c: char) -> int {
    let u = c as u32;
    if u < 0x80 {
        1
    } else if u < 0x800 {
        2
    } else if u < 0x10000 {
        3
    } else {
        4
    }
}

/// How many bytes a text takes in UTF-8.
pub open spec fn byte_len(s: Seq<char>) -> int
    decreases s.len(),
{
    if s.len() == 0 {
        0
    } else {
        byte_len(s.drop_last()) + utf8_len(s.last())
    }
}

/// Whether the first `k` characters of a text take just `max` bytes.
pub open spec fn cuts_at(s: Seq<char>, max: int, k: int) -> bool {
    0 <= k <= s.len() && byte_len(s.take(k)) == max
}

/// Whether a text is no longer than `max` bytes, or some of its characters take just as many.
pub open spec fn is_cuttable(s: Seq<char>, max: int) -> bool {
    byte_len(s) <= max || exists|k: int| cuts_at(s, max, k)
}

/// A text, or its first `max` bytes and an ellipsis where it is longer.
pub open spec fn shortened(s: Seq<char>, max: int) -> Seq<char> {
    if byte_len(s) <= max {
        s
    } else {
        s.take(choose|k: int| cuts_at(s, max, k)).push('\u{2026}')
    }
}

proof fn lemma_byte_len_grows(s: Seq<char>, i: int, j: int)
    requires
        0 <= i <= j <= s.len(),
    ensures
        byte_len(s.take(i)) + (j - i) <= byte_len(s.take(j)),
        byte_len(s.take(j)) <= byte_len(s),
    decreases s.len() - i,
{
    if i < j {
        assert(s.take(i + 1).drop_last() =~= s.take(i));
        lemma_byte_len_grows(s, i + 1, j);
    } else if j < s.len() {
        assert(s.take(j + 1).drop_last() =~= s.take(j));
        lemma_byte_len_grows(s, j + 1, s.len() as int);
        assert(s.take(s.len() as int) =~= s);
    } else {
        assert(s.take(j) =~= s);
    }
}

fn width_of(c: char) -> (r: usize)
    ensures
        r == utf8_len(c),
{
    let u: u32 = c as u32;
    if u < 0x80 {
        1
    } else if u < 0x800 {
        2
    } else if u < 0x10000 {
        3
    } else {
        4
    }
}

/// How many of the first characters fit into `max` bytes, and how many bytes these take.
fn fitting(v: &Vec<char>, max: usize) -> (r: (usize, usize))
    ensures
        r.0 <= v@.len(),
        r.1 == byte_len(v@.take(r.0 as int)),
        r.1 <= max,
        r.0 < v@.len() ==> byte_len(v@.take(r.0 + 1)) > max,
{
    let mut k: usize = 0;
    let mut used: usize = 0;
    while k < v.len()
        invariant
            k <= v@.len(),
            used == byte_len(v@.take(k as int)),
            used <= max,
        decreases v@.len() - k,
    {
        assert(v@.take(k + 1).drop_last() =~= v@.take(k as int));
        let w: usize = width_of(v[k]);
        if w > max - used {
            return (k, used);
        }
        used += w;
        k += 1;
    }
    (k, used)
}

proof fn lemma_fitting(s: Seq<char>, max: int, n: int)
    requires
        0 <= n <= s.len(),
        byte_len(s.take(n)) <= max,
        n < s.len() ==> byte_len(s.take(n + 1)) > max,
    ensures
        n == s.len() <==> byte_len(s) <= max,
        forall|k: int| #[trigger] cuts_at(s, max, k) && n < s.len() ==> k == n,
{
    assert(s.take(s.len() as int) =~= s);
    if n < s.len() {
        lemma_byte_len_grows(s, n + 1, s.len() as int);
    }
    assert forall|k: int| #[trigger] cuts_at(s, max, k) && n < s.len() implies k == n by {
        if k < n {
            lemma_byte_len_grows(s, k, n);
        } else if k > n {
            lemma_byte_len_grows(s, n + 1, k);
        }
    }
}

/// Whether a text can be shortened to `max` bytes: whether no character would be cut in two.
pub fn can_truncate(s: &str, max: usize) -> (r: bool)
    ensures
        r == is_cuttable(s@, max as int),
{
    let v = chars_of(s);
    let (k, used) = fitting(&v, max);
    proof {
        lemma_fitting(s@, max as int, k as int);
        if used == max {
            assert(cuts_at(s@, max as int, k as int));
        }
    }
    k == v.len() || used == max
}

/// A text, or its first `max` bytes and an ellipsis where it is longer.
pub fn truncate(s: &str, max: usize) -> (r: String)
    requires
        is_cuttable(s@, max as int),
    ensures
        r@ == shortened(s@, max as int),
{
    let v = chars_of(s);
    let (k, used) = fitting(&v, max);
    proof {
        lemma_fitting(s@, max as int, k as int);
    }
    if k == v.len() {
        return s.to_string();
    }
    let mut out = text_of(&v, 0, k);
    proof {
        let c = choose|c: int| cuts_at(s@, max as int, c);
        assert(cuts_at(s@, max as int, c));
        assert(out@ =~= s@.take(k as int));
    }
    out.push('\u{2026}');
    out
}

/// A shortened text takes no more than its bytes and those of the ellipsis, and starts as the text
/// does.
pub proof fn law_shortened_is_short(s: Seq<char>, max: int)
    requires
        is_cuttable(s, max),
    ensures
        byte_len(shortened(s, max)) <= max + 3,
        byte_len(s) <= max ==> shortened(s, max) == s,
        byte_len(s) > max ==> shortened(s, max).drop_last() == s.take(
            shortened(s, max).len() - 1,
        ) && byte_len(shortened(s, max).drop_last()) == max,
{
    if byte_len(s) > max {
        let k = choose|k: int| cuts_at(s, max, k);
        let r = shortened(s, max);
        assert(r.drop_last() =~= s.take(k));
    }
}

/// The environment that tasks are shown of.
pub open spec fn filter_text(id: Option<Seq<char>>, label: Option<Seq<char>>) -> Seq<char> {
    match id {
        None => "env: (all)"@,
        Some(i) => match label {
            Some(l) => "env: "@ + l + " ("@ + i + ")"@,
            None => "env: "@ + i,
        },
    }
}

fn filter_line(id: &Option<String>, label: &Option<String>) -> (r: String)
    ensures
        r@ == filter_text(id.deep_view(), label.deep_view()),
{
    match id {
        None => "env: (all)".to_string(),
        Some(i) => {
            let mut s = "env: ".to_string();
            match label {
                Some(l) => {
                    s.append(l);
                    s.append(" (");
                    s.append(i);
                    s.append(")");
                },
                None => {
                    s.append(i);
                },
            }
            s
        },
    }
}

/// The line at the top: of which environment the tasks are shown, and whether they are being asked
/// for.
pub open spec fn header_text(a: AppView) -> Seq<char> {
    let left = "cloudex  \u{2022}  "@ + filter_text(a.env_filter, a.env_filter_label);
    if a.list_refresh_inflight {
        left + "    "@ + seq![crate::app::spinner_sign(a.spinner as int)] + " refreshing"@
    } else {
        left
    }
}

/// The line at the top.
pub fn header_line(app: &App) -> (r: String)
    ensures
        r@ == header_text(app.deep_view()),
{
    let mut s = "cloudex  \u{2022}  ".to_string();
    s.append(&filter_line(&app.env_filter, &app.env_filter_label));
    if app.list_refresh_inflight {
        s.append("    ");
        let ghost before = s@;
        s.push(app.spinner_char());
        assert(s@ =~= before + seq![crate::app::spinner_sign(app.spinner as int)]);
        s.append(" refreshing");
    }
    s
}

/// The line at the bottom: what is said, or the keys where nothing is.
pub open spec fn footer_text(status: Seq<char>) -> Seq<char> {
    if status.len() == 0 {
        "q: quit \u{2022} o: env \u{2022} n: new \u{2022} enter: details \u{2022} r: refresh \u{2022} ?: help"@
    } else {
        status
    }
}

/// The line at the bottom: what is said, or else the keys.
pub fn footer_line(app: &App) -> (r: String)
    ensures
        r@ == footer_text(app.status@),
{
    if app.status.as_str().is_empty() {
        "q: quit \u{2022} o: env \u{2022} n: new \u{2022} enter: details \u{2022} r: refresh \u{2022} ?: help".to_string()
    } else {
        app.status.clone()
    }
}

/// How much a diff changes.
pub open spec fn diff_text(d: DiffSummary) -> Seq<char> {
    if d.files_changed > 0 {
        "+"@ + decimal(d.lines_added as int) + "/-"@ + decimal(d.lines_removed as int)
            + " \u{2022} "@ + decimal(d.files_changed as int) + " files"@
    } else {
        "no diff"@
    }
}

fn diff_line(d: DiffSummary) -> (r: String)
    ensures
        r@ == diff_text(d),
{
    if d.files_changed > 0 {
        let mut s = "+".to_string();
        s.append(&usize_text(d.lines_added));
        s.append("/-");
        s.append(&usize_text(d.lines_removed));
        s.append(" \u{2022} ");
        s.append(&usize_text(d.files_changed));
        s.append(" files");
        s
    } else {
        "no diff".to_string()
    }
}

/// The two lines of a task in the list.
pub open spec fn task_lines(t: TaskView, now: (int, int)) -> Seq<Seq<char>> {
    seq![
        "["@ + t.status.capitals() + "] "@ + shortened(t.title, 80),
        env_name(t.environment_label, t.environment_id) + "  \u{2022}  "@ + age_ago(
            now,
            t.updated_at,
        ) + "  \u{2022}  "@ + diff_text(t.summary),
    ]
}

/// The two lines of a task in the list.
pub fn task_row(t: &TaskSummary, now: &Timestamp) -> (r: Vec<String>)
    requires
        is_cuttable(t.title@, 80),
    ensures
        r.deep_view() == task_lines(t.deep_view(), now@),
{
    let mut a = "[".to_string();
    a.append(t.status.upper_name());
    a.append("] ");
    a.append(&truncate(&t.title, 80));
    let mut b = environment_name(&t.environment_label, &t.environment_id);
    b.append("  \u{2022}  ");
    b.append(&relative_time_ago(now, &t.updated_at));
    b.append("  \u{2022}  ");
    b.append(&diff_line(t.summary));
    let mut out = one_item(a);
    put_last(&mut out, b);
    assert(out.deep_view() =~= task_lines(t.deep_view(), now@));
    out
}

/// The preview of a task.
pub open spec fn preview_lines(t: TaskView, base_url: Seq<char>, now: (int, int)) -> Seq<Seq<char>> {
    let main = seq![
        "id: "@ + t.id,
        "status: "@ + t.status.text(),
        "updated: "@ + age_ago(now, t.updated_at),
        "env: "@ + env_name(t.environment_label, t.environment_id),
        "diff: "@ + counts_text(t.summary),
        Seq::empty(),
        "url: "@ + task_address(base_url, t.id),
        Seq::empty(),
        "enter: open details"@,
    ];
    match t.attempt_total {
        Some(n) if n > 1 => main.push("attempts: best-of-"@ + decimal(n as int)),
        _ => main,
    }
}

/// A text behind a label.
pub fn labelled(label: &str, text: &str) -> (r: String)
    ensures
        r@ == label@ + text@,
{
    let mut s = label.to_string();
    s.append(text);
    s
}

/// The preview of the task that is selected.
pub fn preview_text(app: &App, now: &Timestamp) -> (r: String)
    ensures
        r@ == match app.deep_view().selected_task() {
            Some(t) => joined(preview_lines(t, app.base_url@, now@), "\n"@),
            None => "(no tasks)"@,
        },
{
    match app.selected_task() {
        None => "(no tasks)".to_string(),
        Some(t) => {
            let mut out = one_item(labelled("id: ", &t.id));
            put_last(&mut out, labelled("status: ", t.status.name()));
            put_last(&mut out, labelled("updated: ", &relative_time_ago(now, &t.updated_at)));
            put_last(
                &mut out,
                labelled("env: ", &environment_name(&t.environment_label, &t.environment_id)),
            );
            put_last(&mut out, labelled("diff: ", &counts_line(t.summary)));
            put_last(&mut out, String::new());
            put_last(&mut out, labelled("url: ", &task_url(&app.base_url, &t.id)));
            put_last(&mut out, String::new());
            put_last(&mut out, "enter: open details".to_string());
            match t.attempt_total {
                Some(n) => if n > 1 {
                    put_last(&mut out, labelled("attempts: best-of-", &usize_text(n)));
                },
                None => {},
            }
            assert(out.deep_view() =~= preview_lines(t.deep_view(), app.base_url@, now@));
            join(&out, "\n")
        },
    }
}

/// The keys, and what they do.
pub const HELP: &'static str =
    "Global\nq / Esc           Quit\nr                Refresh task list\no                Select environment filter\nn                New task\nenter            Open task details\n\nTask details\n\u{2190}/\u{2192}              Switch Prompt / Messages / Diff\nTab/Shift+Tab     Cycle attempts\n[ / ]            Cycle attempts\nj/k or \u{2191}/\u{2193}        Scroll\na                Preflight/apply diff (supports worktrees + PR)\n\nNew task\nCtrl+O           Select environment\nCtrl+N           Set agents (best-of-N)\nCtrl+Q           Toggle QA mode\nEsc              Cancel\n\nApply modal\nw                Toggle worktree mode\nc                Toggle create PR\np                Re-run preflight\ny                Apply\nEsc              Close\n";

/// The head of the task that is looked at.
pub open spec fn details_head(d: DetailsView, base_url: Seq<char>, now: (int, int)) -> Seq<char> {
    shortened(d.title, 120) + "\n"@ + d.status.text() + "  \u{2022}  "@ + env_name(
        d.env_label,
        d.env_id,
    ) + "  \u{2022}  "@ + age_ago(now, d.updated_at) + "\n"@ + task_address(base_url, d.task_id)
}

/// The head of the task that is looked at.
pub fn details_header(d: &DetailsState, base_url: &str, now: &Timestamp) -> (r: String)
    requires
        is_cuttable(d.title@, 120),
    ensures
        r@ == details_head(d.deep_view(), base_url@, now@),
{
    let mut s = truncate(&d.title, 120);
    s.append("\n");
    s.append(d.status.name());
    s.append("  \u{2022}  ");
    s.append(&environment_name(&d.env_label, &d.env_id));
    s.append("  \u{2022}  ");
    s.append(&relative_time_ago(now, &d.updated_at));
    s.append("\n");
    s.append(&task_url(base_url, &d.task_id));
    s
}

impl DetailsView {
    /// Fitted into an area of the screen, which has a border.
    pub open spec fn fitted(self, width: u16, height: u16) -> DetailsView {
        let w = if width > 2 {
            (width - 2) as u16
        } else {
            0u16
        };
        let h = if height > 2 {
            (height - 2) as u16
        } else {
            0u16
        };
        DetailsView { scroll: self.scroll.with_width(w).with_viewport(h), ..self }
    }
}

/// Fits the text of the task that is looked at into an area of the screen, and gives what is in
/// view of it.
pub fn details_page(d: &mut DetailsState, width: u16, height: u16) -> (r: String)
    ensures
        final(d).deep_view() == old(d).deep_view().fitted(width, height),
        r@ == joined(old(d).deep_view().fitted(width, height).scroll.in_view(), "\n"@),
{
    let w: u16 = if width > 2 {
        width - 2
    } else {
        0
    };
    let h: u16 = if height > 2 {
        height - 2
    } else {
        0
    };
    d.scroll.set_width(w);
    d.scroll.set_viewport(h);
    d.scroll.visible_text()
}

/// The line below a task that is looked at: which of its attempts is shown, the keys, and whether
/// more is being asked for.
pub open spec fn details_foot(d: DetailsView, spinner: char) -> Seq<char> {
    let keys = "attempt "@ + decimal(d.selected_attempt + 1) + "/"@ + decimal(d.total())
        + "  \u{2022}  a: apply  \u{2022}  tab: next attempt  \u{2022}  q: close"@;
    if d.loading {
        keys + "   "@ + seq![spinner] + " loading\u{2026}"@
    } else {
        keys
    }
}

/// The line below the task that is looked at.
pub fn details_footer(d: &DetailsState, spinner: char) -> (r: String)
    requires
        d.deep_view().wf(),
    ensures
        r@ == details_foot(d.deep_view(), spinner),
{
    let n: usize = d.attempts.len();
    assert(d.attempts.deep_view().len() == n);
    let mut s = labelled("attempt ", &usize_text(d.selected_attempt + 1));
    s.append("/");
    s.append(&usize_text(d.attempt_display_total()));
    s.append("  \u{2022}  a: apply  \u{2022}  tab: next attempt  \u{2022}  q: close");
    if d.loading {
        s.append("   ");
        let ghost before = s@;
        s.push(spinner);
        assert(s@ =~= before + seq![spinner]);
        s.append(" loading\u{2026}");
    }
    s
}

/// `true` or `false`.
pub open spec fn bool_text(b: bool) -> Seq<char> {
    if b {
        "true"@
    } else {
        "false"@
    }
}

/// `true` or `false`.
pub fn bool_name(b: bool) -> (r: &'static str)
    ensures
        r@ == bool_text(b),
{
    if b {
        "true"
    } else {
        "false"
    }
}

/// The environment that a new task runs in, as it is told above its prompt.
pub open spec fn new_task_env(t: NewTaskView) -> Seq<char> {
    match t.env_id {
        Some(id) => match t.env_label {
            Some(l) => l + " ("@ + id + ")"@,
            None => id,
        },
        None => "(none)"@,
    }
}

/// What stands above the prompt of a new task.
pub open spec fn new_task_text(t: NewTaskView) -> Seq<char> {
    "New task\nenv: "@ + new_task_env(t) + "\nagents: "@ + decimal(t.attempts) + "\nref: "@
        + t.git_ref + "\nqa_mode: "@ + bool_text(t.qa_mode) + "\n"@
}

/// What a new task is made with.
pub fn new_task_head(t: &NewTaskState) -> (r: String)
    ensures
        r@ == new_task_text(t.deep_view()),
{
    let env = match &t.env_id {
        Some(id) => match &t.env_label {
            Some(l) => {
                let mut s = l.clone();
                s.append(" (");
                s.append(id);
                s.append(")");
                s
            },
            None => id.clone(),
        },
        None => "(none)".to_string(),
    };
    let mut s = labelled("New task\nenv: ", &env);
    s.append("\nagents: ");
    s.append(&usize_text(t.attempts));
    s.append("\nref: ");
    s.append(&t.git_ref);
    s.append("\nqa_mode: ");
    s.append(bool_name(t.qa_mode));
    s.append("\n");
    s
}

/// The second title of the box for a new task, which is there while the task is being created.
pub fn submitting_title(t: &NewTaskState, spinner: char) -> (r: Option<String>)
    ensures
        match r {
            Some(s) => t.submitting && s@ == "Create task   "@ + seq![spinner]
                + " submitting\u{2026}"@,
            None => !t.submitting,
        },
{
    if !t.submitting {
        return None;
    }
    let mut s = "Create task   ".to_string();
    let ghost before = s@;
    s.push(spinner);
    assert(s@ =~= before + seq![spinner]);
    s.append(" submitting\u{2026}");
    Some(s)
}

/// How an environment is offered.
pub open spec fn option_text(e: Option<EnvView>) -> Seq<char> {
    match e {
        Some(e) => (if e.pinned() {
            "*"@
        } else {
            " "@
        }) + " "@ + e.id + "  "@ + e.label_text(),
        None => "(all environments)"@,
    }
}

/// How an environment is offered.
pub fn option_row(e: &Option<Environment>) -> (r: String)
    ensures
        r@ == option_text(e.deep_view()),
{
    match e {
        Some(e) => {
            let mut s = if e.pinned() {
                "*".to_string()
            } else {
                " ".to_string()
            };
            s.append(" ");
            s.append(&e.id);
            s.append("  ");
            s.append(&e.label_text());
            s
        },
        None => "(all environments)".to_string(),
    }
}

/// The title of the box in which a diff is applied.
pub fn apply_title(m: &ApplyModalState) -> (r: String)
    requires
        is_cuttable(m.title@, 60),
    ensures
        r@ == "Apply \u{2022} "@ + shortened(m.title@, 60) + " \u{2022} attempt "@
            + m.attempt_label@,
{
    let mut s = labelled("Apply \u{2022} ", &truncate(&m.title, 60));
    s.append(" \u{2022} attempt ");
    s.append(&m.attempt_label);
    s
}

/// `on` or `off`.
pub open spec fn switch_text(b: bool) -> Seq<char> {
    if b {
        "on"@
    } else {
        "off"@
    }
}

fn switch_name(b: bool) -> (r: &'static str)
    ensures
        r@ == switch_text(b),
{
    if b {
        "on"
    } else {
        "off"
    }
}

/// How a diff is to be applied.
pub fn apply_head(m: &ApplyModalState) -> (r: String)
    ensures
        r@ == "worktree: "@ + switch_text(m.use_worktree) + "\ncreate_pr: "@ + switch_text(
            m.create_pr,
        ) + "\nbranch: "@ + m.pr_branch@ + "\n"@,
{
    let mut s = labelled("worktree: ", switch_name(m.use_worktree));
    s.append("\ncreate_pr: ");
    s.append(switch_name(m.create_pr));
    s.append("\nbranch: ");
    s.append(&m.pr_branch);
    s.append("\n");
    s
}

/// What is being run.
pub open spec fn stage_lines(stage: ApplyStage, spinner: char) -> Seq<Seq<char>> {
    match stage {
        ApplyStage::PreflightRunning => seq![seq![spinner] + " preflighting\u{2026}"@],
        ApplyStage::Applying => seq![seq![spinner] + " applying\u{2026}"@],
        _ => Seq::empty(),
    }
}

fn turning(spinner: char, text: &str) -> (r: String)
    ensures
        r@ == seq![spinner] + text@,
{
    let mut s = String::new();
    s.push(spinner);
    assert(s@ =~= seq![spinner]);
    s.append(text);
    s
}

fn stage_rows(stage: ApplyStage, spinner: char) -> (r: Vec<String>)
    ensures
        r.deep_view() == stage_lines(stage, spinner),
{
    match stage {
        ApplyStage::PreflightRunning => one_item(turning(spinner, " preflighting\u{2026}")),
        ApplyStage::Applying => one_item(turning(spinner, " applying\u{2026}")),
        ApplyStage::PreflightDone => no_items(),
        ApplyStage::Done => no_items(),
    }
}

/// A line with a list behind a label, where the list holds anything.
pub open spec fn list_line(label: Seq<char>, items: Seq<Seq<char>>) -> Seq<Seq<char>> {
    if items.len() == 0 {
        Seq::empty()
    } else {
        seq![label + joined(items, ", "@)]
    }
}

/// A line with a list behind a label, where the list holds anything.
pub fn list_row(label: &str, items: &Vec<String>) -> (r: Vec<String>)
    ensures
        r.deep_view() == list_line(label@, items.deep_view()),
{
    assert(items.deep_view().len() == items@.len());
    if items.len() == 0 {
        no_items()
    } else {
        one_item(labelled(label, &join(items, ", ")))
    }
}

/// What came of a diff.
pub open spec fn outcome_lines(label: Seq<char>, o: Option<ApplyView>) -> Seq<Seq<char>> {
    match o {
        None => Seq::empty(),
        Some(o) => (seq![label + o.status.text(), o.message] + list_line(
            "skipped: "@,
            o.skipped_paths,
        ) + list_line("conflicts: "@, o.conflict_paths)).push(Seq::empty()),
    }
}

fn outcome_rows(label: &str, o: &Option<ApplyOutcome>) -> (r: Vec<String>)
    ensures
        r.deep_view() == outcome_lines(label@, o.deep_view()),
{
    match o {
        None => no_items(),
        Some(o) => {
            let mut out = one_item(labelled(label, o.status.name()));
            put_last(&mut out, o.message.clone());
            assert(out.deep_view() =~= seq![label@ + o.status.text(), o.message@]);
            put_all(&mut out, list_row("skipped: ", &o.skipped_paths));
            put_all(&mut out, list_row("conflicts: ", &o.conflict_paths));
            put_last(&mut out, String::new());
            out
        },
    }
}

/// What a command printed, under a label, where it printed anything.
pub open spec fn printed_lines(label: Seq<char>, s: Seq<char>) -> Seq<Seq<char>> {
    if is_blank(s) {
        Seq::empty()
    } else {
        seq![Seq::empty(), label] + text_lines(s)
    }
}

fn printed_rows(label: &str, s: &str) -> (r: Vec<String>)
    ensures
        r.deep_view() == printed_lines(label@, s@),
{
    if blank(s) {
        no_items()
    } else {
        let mut out = one_item(String::new());
        put_last(&mut out, label.to_string());
        assert(out.deep_view() =~= seq![Seq::<char>::empty(), label@]);
        put_all(&mut out, lines(s));
        out
    }
}

/// What came of a pull request.
pub open spec fn pr_lines(pr: Option<PrResultView>) -> Seq<Seq<char>> {
    match pr {
        None => Seq::empty(),
        Some(p) => seq![
            "branch: "@ + p.branch,
            "remote: "@ + p.remote,
            "created_with_gh: "@ + bool_text(p.used_gh),
            match p.pr_url {
                Some(url) => "PR: "@ + url,
                None => "PR: created (no URL detected)"@,
            },
        ] + printed_lines("stdout:"@, p.stdout) + printed_lines("stderr:"@, p.stderr),
    }
}

fn pr_rows(pr: &Option<PrCreateResult>) -> (r: Vec<String>)
    ensures
        r.deep_view() == pr_lines(pr.deep_view()),
{
    match pr {
        None => no_items(),
        Some(p) => {
            let mut out = one_item(labelled("branch: ", &p.branch));
            put_last(&mut out, labelled("remote: ", &p.remote));
            put_last(&mut out, labelled("created_with_gh: ", bool_name(p.used_gh)));
            put_last(
                &mut out,
                match &p.pr_url {
                    Some(url) => labelled("PR: ", url),
                    None => "PR: created (no URL detected)".to_string(),
                },
            );
            let ghost v = p.deep_view();
            assert(out.deep_view() =~= seq![
                "branch: "@ + v.branch,
                "remote: "@ + v.remote,
                "created_with_gh: "@ + bool_text(v.used_gh),
                match v.pr_url {
                    Some(url) => "PR: "@ + url,
                    None => "PR: created (no URL detected)"@,
                },
            ]);
            put_all(&mut out, printed_rows("stdout:", &p.stdout));
            put_all(&mut out, printed_rows("stderr:", &p.stderr));
            out
        },
    }
}

/// All that is told of a diff that is applied.
pub open spec fn apply_lines(m: ApplyModalView, spinner: char) -> Seq<Seq<char>> {
    let told = stage_lines(m.stage, spinner) + (match m.worktree_path {
        Some(p) => seq!["worktree_path: "@ + p, Seq::empty()],
        None => Seq::empty(),
    }) + outcome_lines("preflight: "@, m.preflight) + outcome_lines("apply: "@, m.apply) + pr_lines(
        m.pr,
    ) + (match m.error {
        Some(e) => seq!["error: "@ + e],
        None => Seq::empty(),
    });
    if told.len() == 0 {
        seq!["(no output)"@]
    } else {
        told
    }
}

/// All that is told of a diff that is applied.
pub fn apply_text(m: &ApplyModalState, spinner: char) -> (r: String)
    ensures
        r@ == joined(apply_lines(m.deep_view(), spinner), "\n"@),
{
    let mut out = stage_rows(m.stage, spinner);
    let path: Vec<String> = match &m.worktree_path {
        Some(p) => {
            let mut v = one_item(labelled("worktree_path: ", p));
            put_last(&mut v, String::new());
            assert(v.deep_view() =~= seq!["worktree_path: "@ + p@, Seq::empty()]);
            v
        },
        None => no_items(),
    };
    put_all(&mut out, path);
    put_all(&mut out, outcome_rows("preflight: ", &m.preflight));
    put_all(&mut out, outcome_rows("apply: ", &m.apply));
    put_all(&mut out, pr_rows(&m.pr));
    let error: Vec<String> = match &m.error {
        Some(e) => one_item(labelled("error: ", e)),
        None => no_items(),
    };
    put_all(&mut out, error);
    assert(out.deep_view().len() == out@.len());
    if out.len() == 0 {
        out = one_item("(no output)".to_string());
    }
    join(&out, "\n")
}

/// The line below the box of a diff: the keys, or that none helps while something is run.
pub open spec fn apply_foot(stage: ApplyStage) -> Seq<char> {
    if stage.running() {
        "(running\u{2026}) esc: close disabled"@
    } else {
        "w: worktree \u{2022} c: PR \u{2022} p: preflight \u{2022} y: apply \u{2022} esc: close"@
    }
}

/// The keys while a diff is applied.
pub fn apply_footer(m: &ApplyModalState) -> (r: &'static str)
    ensures
        r@ == apply_foot(m.stage),
{
    if m.stage.is_running() {
        "(running\u{2026}) esc: close disabled"
    } else {
        "w: worktree \u{2022} c: PR \u{2022} p: preflight \u{2022} y: apply \u{2022} esc: close"
    }
}

/// The share of the screen on either side of a box that takes so many hundredths of it.
pub fn popup_margin(percent: u16) -> (r: u16)
    requires
        percent <= 100,
    ensures
        r == (100 - percent) / 2,
{
    (100 - percent) / 2
}

/// The environment that tasks are shown of is told by its label and its id, by its id alone where
/// it has no label, and as all of them where none is set.
pub proof fn law_the_filter_is_told(id: Option<Seq<char>>, label: Option<Seq<char>>)
    ensures
        id matches Some(i) ==> {
            &&& label matches Some(l) ==> has_prefix(filter_text(id, label), "env: "@ + l)
                && has_suffix(filter_text(id, label), " ("@ + (i + ")"@))
            &&& label is None ==> filter_text(id, label) == "env: "@ + i
        },
        id is None ==> filter_text(id, label) == "env: (all)"@,
{
    match (id, label) {
        (Some(i), Some(l)) => {
            let x = "env: "@ + l;
            lemma_grouped(x + " ("@, i, ")"@);
            lemma_grouped(x, " ("@, i + ")"@);
            lemma_two_parts(x, " ("@ + (i + ")"@));
        },
        _ => {},
    }
}

/// How much a diff changes is told by the lines that came, those that went, and the files; a task
/// that changes no file has no diff.
pub proof fn law_changes_are_told(d: DiffSummary)
    ensures
        d.files_changed == 0 ==> diff_text(d) == "no diff"@,
        d.files_changed > 0 ==> has_prefix(
            diff_text(d),
            "+"@ + decimal(d.lines_added as int) + "/-"@ + decimal(d.lines_removed as int),
        ) && has_suffix(diff_text(d), decimal(d.files_changed as int) + " files"@),
{
    if d.files_changed > 0 {
        let x = "+"@ + decimal(d.lines_added as int) + "/-"@ + decimal(d.lines_removed as int);
        let n = decimal(d.files_changed as int);
        lemma_grouped(x + " \u{2022} "@, n, " files"@);
        lemma_two_parts(x + " \u{2022} "@, n + " files"@);
        lemma_grouped(x, " \u{2022} "@, n + " files"@);
        lemma_two_parts(x, " \u{2022} "@ + (n + " files"@));
    }
}

/// In the list a task takes two lines: its status and its title in the first one; where it runs,
/// how old it is and how much it changes in the second one.
pub proof fn law_a_task_takes_two_lines(t: TaskView, now: (int, int))
    ensures
        task_lines(t, now).len() == 2,
        has_prefix(task_lines(t, now)[0], "["@ + t.status.capitals() + "] "@),
        has_suffix(task_lines(t, now)[0], shortened(t.title, 80)),
        has_prefix(task_lines(t, now)[1], env_name(t.environment_label, t.environment_id)),
        occurs(task_lines(t, now)[1], age_ago(now, t.updated_at)),
        has_suffix(task_lines(t, now)[1], diff_text(t.summary)),
{
    let dot = "  \u{2022}  "@;
    lemma_two_parts("["@ + t.status.capitals() + "] "@, shortened(t.title, 80));
    let e = env_name(t.environment_label, t.environment_id);
    let a = age_ago(now, t.updated_at);
    let d = diff_text(t.summary);
    lemma_two_parts(e + dot + a + dot, d);
    lemma_grouped(e + dot + a, dot, d);
    lemma_part_within(e + dot, a, dot + d);
    lemma_grouped(e + dot, a, dot + d);
    lemma_grouped(e, dot, a + (dot + d));
    lemma_two_parts(e, dot + (a + (dot + d)));
}

/// The preview of a task tells its id, its status, its age, where it runs, how much it changes and
/// its address, and at the end how many attempts it has where there is more than one.
pub proof fn law_the_preview_tells_of_the_task(t: TaskView, base_url: Seq<char>, now: (int, int))
    ensures
        ({
            let p = preview_lines(t, base_url, now);
            &&& p[0] == "id: "@ + t.id
            &&& has_suffix(p[1], t.status.text())
            &&& has_suffix(p[2], age_ago(now, t.updated_at))
            &&& has_suffix(p[3], env_name(t.environment_label, t.environment_id))
            &&& has_suffix(p[4], counts_text(t.summary))
            &&& p[6] == "url: "@ + task_address(base_url, t.id)
            &&& t.attempt_total matches Some(n) ==> (n > 1 ==> p.len() == 10 && has_suffix(
                p.last(),
                decimal(n as int),
            ))
            &&& t.attempt_total is None || t.attempt_total->0 <= 1 ==> p.len() == 9
        }),
{
    lemma_two_parts("status: "@, t.status.text());
    lemma_two_parts("updated: "@, age_ago(now, t.updated_at));
    lemma_two_parts("env: "@, env_name(t.environment_label, t.environment_id));
    lemma_two_parts("diff: "@, counts_text(t.summary));
    match t.attempt_total {
        Some(n) => lemma_two_parts("attempts: best-of-"@, decimal(n as int)),
        None => {},
    }
}

/// The head of a task that is looked at starts with its title and its status, tells where it runs
/// and how old it is, and ends with its address.
pub proof fn law_the_head_tells_of_the_task(d: DetailsView, base_url: Seq<char>, now: (int, int))
    ensures
        has_prefix(
            details_head(d, base_url, now),
            shortened(d.title, 120) + "\n"@ + d.status.text(),
        ),
        occurs(details_head(d, base_url, now), env_name(d.env_label, d.env_id)),
        occurs(details_head(d, base_url, now), age_ago(now, d.updated_at)),
        has_suffix(details_head(d, base_url, now), "\n"@ + task_address(base_url, d.task_id)),
{
    let dot = "  \u{2022}  "@;
    let x = shortened(d.title, 120) + "\n"@ + d.status.text();
    let e = env_name(d.env_label, d.env_id);
    let a = age_ago(now, d.updated_at);
    let u = "\n"@ + task_address(base_url, d.task_id);
    let whole = details_head(d, base_url, now);
    lemma_grouped(x + dot + e + dot + a, "\n"@, task_address(base_url, d.task_id));
    assert(whole == x + dot + e + dot + a + u);
    lemma_two_parts(x + dot + e + dot + a, u);
    lemma_part_within(x + dot + e + dot, a, u);
    lemma_grouped(x + dot + e + dot, a, u);
    lemma_grouped(x + dot + e, dot, a + u);
    lemma_part_within(x + dot, e, dot + (a + u));
    lemma_grouped(x + dot, e, dot + (a + u));
    lemma_grouped(x, dot, e + (dot + (a + u)));
    lemma_two_parts(x, dot + (e + (dot + (a + u))));
}

/// The text of a task is fitted into what the border leaves of its area: two columns and two lines
/// less.
pub proof fn law_the_border_takes_two_lines_and_columns(d: DetailsView, width: u16, height: u16)
    ensures
        width > 2 && height > 2 ==> d.fitted(width, height).scroll == d.scroll.with_width(
            (width - 2) as u16,
        ).with_viewport((height - 2) as u16),
        width <= 2 && height <= 2 ==> d.fitted(width, height).scroll == d.scroll.with_width(
            0,
        ).with_viewport(0),
        d.fitted(width, height).selected_attempt == d.selected_attempt,
        d.fitted(width, height).tab == d.tab,
        d.fitted(width, height).attempts == d.attempts,
{
}

/// An environment is offered with a star where it is pinned, with its id and its label.
pub proof fn law_an_option_tells_of_its_environment(e: EnvView)
    ensures
        e.is_pinned == Some(true) ==> has_prefix(option_text(Some(e)), "*"@ + " "@ + e.id),
        e.is_pinned != Some(true) ==> has_prefix(option_text(Some(e)), " "@ + " "@ + e.id),
        e.label matches Some(l) ==> has_suffix(option_text(Some(e)), "  "@ + l),
        option_text(None) == "(all environments)"@,
{
    let x = (if e.pinned() {
        "*"@
    } else {
        " "@
    }) + " "@ + e.id;
    lemma_grouped(x, "  "@, e.label_text());
    lemma_two_parts(x, "  "@ + e.label_text());
}

/// What came of a diff is told by its status behind a label, then by its message, by the files that
/// were skipped or are in conflict, and by an empty line.
pub proof fn law_an_outcome_is_told(label: Seq<char>, o: ApplyView)
    ensures
        outcome_lines(label, None).len() == 0,
        outcome_lines(label, Some(o))[0] == label + o.status.text(),
        outcome_lines(label, Some(o))[1] == o.message,
        outcome_lines(label, Some(o)).last().len() == 0,
        outcome_lines(label, Some(o)).len() == 3 + (if o.skipped_paths.len() > 0 {
            1int
        } else {
            0
        }) + (if o.conflict_paths.len() > 0 {
            1int
        } else {
            0
        }),
        o.skipped_paths.len() > 0 ==> outcome_lines(label, Some(o))[2] == "skipped: "@ + joined(
            o.skipped_paths,
            ", "@,
        ),
        o.conflict_paths.len() > 0 ==> outcome_lines(label, Some(o))[outcome_lines(
            label,
            Some(o),
        ).len() - 2] == "conflicts: "@ + joined(o.conflict_paths, ", "@),
{
}

/// A list stands behind its label, and nothing is told of an empty one.
pub proof fn law_empty_lists_are_not_told(label: Seq<char>, items: Seq<Seq<char>>)
    ensures
        items.len() == 0 ==> list_line(label, items).len() == 0,
        items.len() > 0 ==> list_line(label, items) == seq![label + joined(items, ", "@)],
{
}

/// What a command printed is told line by line under its label, unless it is blank.
pub proof fn law_blank_output_is_not_told(label: Seq<char>, s: Seq<char>)
    ensures
        is_blank(s) ==> printed_lines(label, s).len() == 0,
        !is_blank(s) ==> printed_lines(label, s).len() == text_lines(s).len() + 2 && printed_lines(
            label,
            s,
        )[1] == label && printed_lines(label, s).skip(2) == text_lines(s),
{
    if !is_blank(s) {
        assert(printed_lines(label, s).skip(2) =~= text_lines(s));
    }
}

/// What came of a pull request is told by its branch, its remote, whether `gh` created it, its
/// address, and what the commands printed.
pub proof fn law_a_pull_request_is_told(p: PrResultView)
    ensures
        pr_lines(None).len() == 0,
        pr_lines(Some(p))[0] == "branch: "@ + p.branch,
        pr_lines(Some(p))[1] == "remote: "@ + p.remote,
        p.used_gh ==> pr_lines(Some(p))[2] == "created_with_gh: "@ + "true"@,
        !p.used_gh ==> pr_lines(Some(p))[2] == "created_with_gh: "@ + "false"@,
        p.pr_url matches Some(u) ==> pr_lines(Some(p))[3] == "PR: "@ + u,
        p.pr_url is None ==> pr_lines(Some(p))[3] == "PR: created (no URL detected)"@,
        pr_lines(Some(p)).skip(4) == printed_lines("stdout:"@, p.stdout) + printed_lines(
            "stderr:"@,
            p.stderr,
        ),
{
    assert(pr_lines(Some(p)).skip(4) =~= printed_lines("stdout:"@, p.stdout) + printed_lines(
        "stderr:"@,
        p.stderr,
    ));
}

/// The box tells first what is being run, then all that is known of the diff, and an error at the
/// end; it is never empty.
pub proof fn law_the_box_tells_all(m: ApplyModalView, spinner: char)
    ensures
        apply_lines(m, spinner).len() > 0,
        m.stage == ApplyStage::PreflightRunning ==> apply_lines(m, spinner)[0] == seq![spinner]
            + " preflighting\u{2026}"@,
        m.stage == ApplyStage::Applying ==> apply_lines(m, spinner)[0] == seq![spinner]
            + " applying\u{2026}"@,
        m.error matches Some(e) ==> apply_lines(m, spinner).last() == "error: "@ + e,
        m.worktree_path matches Some(p) ==> apply_lines(m, spinner).contains(
            "worktree_path: "@ + p,
        ),
        m.preflight matches Some(o) ==> apply_lines(m, spinner).contains(o.message)
            && apply_lines(m, spinner).contains("preflight: "@ + o.status.text()),
        m.apply matches Some(o) ==> apply_lines(m, spinner).contains(o.message) && apply_lines(
            m,
            spinner,
        ).contains("apply: "@ + o.status.text()),
        m.pr matches Some(p) ==> apply_lines(m, spinner).contains("branch: "@ + p.branch),
{
    let a = stage_lines(m.stage, spinner);
    let b = match m.worktree_path {
        Some(p) => seq!["worktree_path: "@ + p, Seq::empty()],
        None => Seq::empty(),
    };
    let c = outcome_lines("preflight: "@, m.preflight);
    let d = outcome_lines("apply: "@, m.apply);
    let e = pr_lines(m.pr);
    let f = match m.error {
        Some(e) => seq!["error: "@ + e],
        None => Seq::empty(),
    };
    let all = apply_lines(m, spinner);
    let told = a + b + c + d + e + f;
    let nb = a.len() as int;
    let nc = nb + b.len();
    let nd = nc + c.len();
    let ne = nd + d.len();
    match m.worktree_path {
        Some(p) => {
            assert(told[nb] == b[0]);
        },
        None => {},
    }
    match m.preflight {
        Some(o) => {
            assert(told[nc] == c[0]);
            assert(told[nc + 1] == c[1]);
        },
        None => {},
    }
    match m.apply {
        Some(o) => {
            assert(told[nd] == d[0]);
            assert(told[nd + 1] == d[1]);
        },
        None => {},
    }
    match m.pr {
        Some(p) => {
            assert(told[ne] == e[0]);
        },
        None => {},
    }
}

/// Characters take one byte to four, by their numbers; a text takes what its characters take.
pub proof fn law_bytes_are_counted(s: Seq<char>, c: char)
    ensures
        byte_len(s.push(c)) == byte_len(s) + utf8_len(c),
        byte_len(Seq::<char>::empty()) == 0,
        (c as u32) < 128 ==> utf8_len(c) == 1,
        128 <= c as u32 && (c as u32) < 2048 ==> utf8_len(c) == 2,
        2048 <= c as u32 && (c as u32) < 65536 ==> utf8_len(c) == 3,
        65536 <= c as u32 ==> utf8_len(c) == 4,
{
    assert(s.push(c).drop_last() =~= s);
}

/// Switches and truths are told by the words for them.
pub proof fn law_switches_are_told_apart()
    ensures
        switch_text(true) == "on"@,
        switch_text(false) == "off"@,
        bool_text(true) == "true"@,
        bool_text(false) == "false"@,
{
}

/// The line at the top ends with the environment that tasks are shown of, or tells behind it that
/// they are being asked for.
pub proof fn law_the_top_tells_of_the_list(a: AppView)
    ensures
        !a.list_refresh_inflight ==> has_suffix(
            header_text(a),
            filter_text(a.env_filter, a.env_filter_label),
        ),
        a.list_refresh_inflight ==> occurs(
            header_text(a),
            filter_text(a.env_filter, a.env_filter_label),
        ) && has_suffix(
            header_text(a),
            seq![crate::app::spinner_sign(a.spinner as int)] + " refreshing"@,
        ),
{
    let p = "cloudex  \u{2022}  "@;
    let f = filter_text(a.env_filter, a.env_filter_label);
    lemma_two_parts(p, f);
    if a.list_refresh_inflight {
        let s = seq![crate::app::spinner_sign(a.spinner as int)];
        let t = s + " refreshing"@;
        lemma_grouped(p + f + "    "@, s, " refreshing"@);
        lemma_two_parts(p + f + "    "@, t);
        lemma_grouped(p + f, "    "@, t);
        lemma_part_within(p, f, "    "@ + t);
    }
}

/// What is said stands at the bottom; the keys stand there only where nothing is said.
pub proof fn law_what_is_said_stands_at_the_bottom(status: Seq<char>)
    ensures
        status.len() > 0 ==> footer_text(status) == status,
        status.len() == 0 ==> has_prefix(footer_text(status), "q: quit"@) && has_suffix(
            footer_text(status),
            "?: help"@,
        ),
{
    if status.len() == 0 {
        let t = footer_text(status);
        reveal_strlit(
            "q: quit \u{2022} o: env \u{2022} n: new \u{2022} enter: details \u{2022} r: refresh \u{2022} ?: help",
        );
        reveal_strlit("q: quit");
        reveal_strlit("?: help");
        assert(t =~= "q: quit"@ + t.skip(7));
        lemma_two_parts("q: quit"@, t.skip(7));
        assert(t =~= t.take(t.len() - 7) + "?: help"@);
        lemma_two_parts(t.take(t.len() - 7), "?: help"@);
    }
}

/// The line below a task counts the attempt that is shown from one, tells how many there are, and
/// ends with the sign for loading while more is asked for.
pub proof fn law_the_shown_attempt_is_counted(d: DetailsView, spinner: char)
    ensures
        has_prefix(
            details_foot(d, spinner),
            "attempt "@ + decimal(d.selected_attempt + 1) + "/"@ + decimal(d.total()),
        ),
        d.loading ==> has_suffix(details_foot(d, spinner), seq![spinner] + " loading\u{2026}"@),
        !d.loading ==> has_suffix(details_foot(d, spinner), "q: close"@),
{
    let x = "attempt "@ + decimal(d.selected_attempt + 1) + "/"@ + decimal(d.total());
    let k = "  \u{2022}  a: apply  \u{2022}  tab: next attempt  \u{2022}  q: close"@;
    lemma_two_parts(x, k);
    if d.loading {
        let t = seq![spinner] + " loading\u{2026}"@;
        lemma_grouped(x + k + "   "@, seq![spinner], " loading\u{2026}"@);
        lemma_two_parts(x + k + "   "@, t);
        lemma_grouped(x + k, "   "@, t);
        lemma_grouped(x, k, "   "@ + t);
        lemma_two_parts(x, k + ("   "@ + t));
    } else {
        reveal_strlit("  \u{2022}  a: apply  \u{2022}  tab: next attempt  \u{2022}  q: close");
        reveal_strlit("q: close");
        let h = k.take(k.len() - 8);
        assert(k =~= h + "q: close"@);
        lemma_grouped(x, h, "q: close"@);
        lemma_two_parts(x + h, "q: close"@);
    }
}

/// Above the prompt of a new task stand, in this order, its environment, the number of its agents,
/// its ref, and whether it is a question.
pub proof fn law_a_new_task_is_told_as_it_is_set(t: NewTaskView)
    ensures
        has_prefix(new_task_text(t), "New task\nenv: "@ + new_task_env(t)),
        occurs(new_task_text(t), "\nagents: "@ + decimal(t.attempts)),
        occurs(new_task_text(t), "\nref: "@ + t.git_ref),
        has_suffix(new_task_text(t), "\nqa_mode: "@ + (bool_text(t.qa_mode) + "\n"@)),
        t.env_id is None ==> new_task_env(t) == "(none)"@,
        t.env_id matches Some(id) ==> {
            &&& t.env_label is None ==> new_task_env(t) == id
            &&& t.env_label matches Some(l) ==> has_prefix(new_task_env(t), l) && has_suffix(
                new_task_env(t),
                " ("@ + (id + ")"@),
            )
        },
{
    let e = "New task\nenv: "@ + new_task_env(t);
    let n = "\nagents: "@ + decimal(t.attempts);
    let r = "\nref: "@ + t.git_ref;
    let q = "\nqa_mode: "@ + (bool_text(t.qa_mode) + "\n"@);
    lemma_grouped(e, "\nagents: "@, decimal(t.attempts));
    lemma_grouped(e + n, "\nref: "@, t.git_ref);
    lemma_grouped(e + n + r + "\nqa_mode: "@, bool_text(t.qa_mode), "\n"@);
    lemma_grouped(e + n + r, "\nqa_mode: "@, bool_text(t.qa_mode) + "\n"@);
    assert(new_task_text(t) == e + n + r + q);
    lemma_two_parts(e + n + r, q);
    lemma_part_within(e + n, r, q);
    lemma_grouped(e + n, r, q);
    lemma_part_within(e, n, r + q);
    lemma_grouped(e, n, r + q);
    lemma_two_parts(e, n + (r + q));
    match (t.env_id, t.env_label) {
        (Some(id), Some(l)) => {
            lemma_grouped(l + " ("@, id, ")"@);
            lemma_grouped(l, " ("@, id + ")"@);
            lemma_two_parts(l, " ("@ + (id + ")"@));
        },
        _ => {},
    }
}

/// The keys of the box stand below it unless its diff is being tried or applied.
pub proof fn law_a_running_box_offers_no_keys(stage: ApplyStage)
    ensures
        stage == ApplyStage::PreflightRunning || stage == ApplyStage::Applying ==> has_prefix(
            apply_foot(stage),
            "(running"@,
        ),
        stage == ApplyStage::PreflightDone || stage == ApplyStage::Done ==> has_suffix(
            apply_foot(stage),
            "y: apply \u{2022} esc: close"@,
        ),
{
    reveal_strlit("(running\u{2026}) esc: close disabled");
    reveal_strlit("(running");
    reveal_strlit(
        "w: worktree \u{2022} c: PR \u{2022} p: preflight \u{2022} y: apply \u{2022} esc: close",
    );
    reveal_strlit("y: apply \u{2022} esc: close");
    let t = apply_foot(stage);
    if stage.running() {
        assert(t =~= "(running"@ + t.skip(8));
        lemma_two_parts("(running"@, t.skip(8));
    } else {
        let n = "y: apply \u{2022} esc: close"@.len() as int;
        assert(t =~= t.take(t.len() - n) + "y: apply \u{2022} esc: close"@);
        lemma_two_parts(t.take(t.len() - n), "y: apply \u{2022} esc: close"@);
    }
}

} // verus!
