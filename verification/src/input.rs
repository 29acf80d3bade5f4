//! What a command is given: the prompt, the branch, the address of a request.
use vstd::prelude::*;

use crate::auth::{normalize_base_url, normalized};
use crate::env_api::{fill, filled};
use crate::json;
use crate::json::{read_text, tree};
use crate::outcome::outcome;
use crate::text::{
    blank, has_prefix, has_suffix, is_blank, law_nothing_is_left_of_a_blank_text, lemma_grouped,
    lemma_two_parts, same, starts_with, trimmed,
};

verus! {

/// How results are printed.
#[derive(Clone, Copy, Debug, PartialEq, Eq, Structural)]
pub enum OutputFormat {
    Table,
    Json,
}

/// How progress is told.
#[derive(Clone, Copy, Debug, PartialEq, Eq, Structural)]
pub enum EventsFormat {
    /// Not as events.
    Silent,
    /// As one JSON object per line.
    Jsonl,
}

/// What is done with a piece of news on the way.
#[derive(Clone, Copy, Debug, PartialEq, Eq, Structural)]
pub enum Narration {
    /// It is told as an event.
    Event,
    /// It is told in words.
    Words,
    /// Nothing is told of it on the standard output, which is left to the result.
    Nothing,
}

/// What is done with a piece of news on the way: events come before words, and words are for tables.
pub open spec fn narrated(events: EventsFormat, format: OutputFormat) -> Narration {
    if events == EventsFormat::Jsonl {
        Narration::Event
    } else if format == OutputFormat::Table {
        Narration::Words
    } else {
        Narration::Nothing
    }
}

/// What is done with a piece of news on the way: events come before words, and words are for tables.
pub fn narration(events: EventsFormat, format: OutputFormat) -> (r: Narration)
    ensures
        r == narrated(events, format),
{
    match events {
        EventsFormat::Jsonl => Narration::Event,
        EventsFormat::Silent => match format {
            OutputFormat::Table => Narration::Words,
            OutputFormat::Json => Narration::Nothing,
        },
    }
}

/// Why there is no prompt.
#[derive(Clone, Copy, Debug, PartialEq, Eq, Structural)]
pub enum PromptError {
    /// None was given, and nothing is piped in.
    NotGiven,
    /// What was piped in is blank.
    Blank,
}

impl DeepView for PromptError {
    type V = PromptError;

    open spec fn deep_view(&self) -> PromptError {
        *self
    }
}

impl PromptError {
    /// What is printed of the error.
    pub open spec fn text(self) -> Seq<char> {
        match self {
            PromptError::NotGiven =>
                "no prompt provided. Pass one as an argument or pipe it via stdin (use '-' to force stdin)."@,
            PromptError::Blank => "no prompt provided via stdin (received empty input)"@,
        }
    }

    /// What is printed of the error.
    pub fn message(self) -> (r: String)
        ensures
            r@ == self.text(),
    {
        match self {
            PromptError::NotGiven =>
                "no prompt provided. Pass one as an argument or pipe it via stdin (use '-' to force stdin).".to_string(),
            PromptError::Blank =>
                "no prompt provided via stdin (received empty input)".to_string(),
        }
    }
}

/// Where the prompt comes from: from the argument, unless that is missing or `-`; then from the
/// standard input, which a terminal is only where it is asked for.
pub open spec fn prompt_source(arg: Option<Seq<char>>, stdin_is_terminal: bool) -> Result<
    Option<Seq<char>>,
    PromptError,
> {
    match arg {
        Some(p) if p != "-"@ => Ok(Some(p)),
        Some(_) => Ok(None),
        None => if stdin_is_terminal {
            Err(PromptError::NotGiven)
        } else {
            Ok(None)
        },
    }
}

/// The prompt, where the argument is it; none where it is to be read from the standard input.
pub fn prompt_argument(arg: Option<String>, stdin_is_terminal: bool) -> (r: Result<
    Option<String>,
    PromptError,
>)
    ensures
        outcome(r) == prompt_source(arg.deep_view(), stdin_is_terminal),
{
    match arg {
        Some(p) => if same(&p, "-") {
            Ok(None)
        } else {
            Ok(Some(p))
        },
        None => if stdin_is_terminal {
            Err(PromptError::NotGiven)
        } else {
            Ok(None)
        },
    }
}

/// The prompt that was read from the standard input: as it is, unless it is blank.
pub open spec fn piped_prompt(text: Seq<char>) -> Result<Seq<char>, PromptError> {
    if is_blank(text) {
        Err(PromptError::Blank)
    } else {
        Ok(text)
    }
}

/// The prompt that was read from the standard input: as it is, unless it is blank.
pub fn prompt_from_stdin(text: String) -> (r: Result<String, PromptError>)
    ensures
        outcome(r) == piped_prompt(text@),
{
    if blank(&text) {
        Err(PromptError::Blank)
    } else {
        Ok(text)
    }
}

/// The branch or commit that is named, unless that is blank.
pub fn named_git_ref(name: Option<&str>) -> (r: Option<String>)
    ensures
        r.deep_view() == match name {
            Some(n) => filled(n@),
            None => None,
        },
{
    match name {
        Some(n) => fill(n),
        None => None,
    }
}

/// The branch or commit to work on: the one that is named, else the current branch, else the
/// default one, else `main`.
pub open spec fn ref_to_use(
    name: Option<Seq<char>>,
    current: Option<Seq<char>>,
    default: Option<Seq<char>>,
) -> Seq<char> {
    match name {
        Some(n) if !is_blank(n) => trimmed(n),
        _ => match current {
            Some(b) => b,
            None => match default {
                Some(b) => b,
                None => "main"@,
            },
        },
    }
}

/// The branch or commit to work on: the one that is named, else the current branch, else the
/// default one, else `main`.
pub fn resolve_git_ref(name: Option<&str>, current: Option<String>, default: Option<String>) -> (r:
    String)
    ensures
        r@ == ref_to_use(name.deep_view(), current.deep_view(), default.deep_view()),
{
    if let Some(b) = named_git_ref(name) {
        return b;
    }
    match current {
        Some(b) => b,
        None => match default {
            Some(b) => b,
            None => "main".to_string(),
        },
    }
}

/// The current branch: the one that is shown, else the one that the head is on, else `main`.
pub open spec fn current_ref(shown: Option<Seq<char>>, head: Option<Seq<char>>) -> Seq<char> {
    match shown {
        Some(s) if !is_blank(s) => trimmed(s),
        _ => match head {
            Some(h) if !is_blank(h) && trimmed(h) != "HEAD"@ => trimmed(h),
            _ => "main"@,
        },
    }
}

/// The current branch, given what `git branch --show-current` and `git rev-parse --abbrev-ref HEAD`
/// printed where they succeeded; `main` where neither tells.
pub fn current_git_ref(shown: Option<&str>, head: Option<&str>) -> (r: String)
    ensures
        r@ == current_ref(shown.deep_view(), head.deep_view()),
{
    if let Some(b) = named_git_ref(shown) {
        return b;
    }
    if let Some(b) = named_git_ref(head) {
        if !same(&b, "HEAD") {
            return b;
        }
    }
    "main".to_string()
}

/// The ref that a worktree starts from: the one that is named, unless that is blank, else the one
/// of the task.
pub open spec fn worktree_start(name: Option<Seq<char>>, task_ref: Seq<char>) -> Seq<char> {
    match name {
        Some(n) if !is_blank(n) => n,
        _ => task_ref,
    }
}

/// The ref that a worktree starts from: the one that is named, unless that is blank, else the one
/// of the task.
pub fn worktree_ref(name: Option<&str>, task_ref: &str) -> (r: String)
    ensures
        r@ == worktree_start(name.deep_view(), task_ref@),
{
    match name {
        Some(n) => if blank(n) {
            task_ref.to_string()
        } else {
            n.to_string()
        },
        None => task_ref.to_string(),
    }
}

/// Whether a character can stand in the name of an HTTP method.
pub open spec fn is_token_char(c: char) -> bool {
    ('0' <= c && c <= '9') || ('A' <= c && c <= 'Z') || ('a' <= c && c <= 'z') || c == '!' || c
        == '#' || c == '$' || c == '%' || c == '&' || c == '\'' || c == '*' || c == '+' || c == '-'
        || c == '.' || c == '^' || c == '_' || c == '`' || c == '|' || c == '~'
}

/// Whether a text is the name of an HTTP method.
pub open spec fn is_method(s: Seq<char>) -> bool {
    s.len() > 0 && forall|i: int| 0 <= i < s.len() ==> is_token_char(#[trigger] s[i])
}

/// `str::parse` for a `reqwest::Method`: it succeeds for texts that are not empty and hold only
/// letters and digits of ASCII and the signs that HTTP allows in a token.
#[verifier::external_body]
fn method_ok(s: &str) -> (r: bool)
    ensures
        r == is_method(s@),
{
    s.parse::<reqwest::Method>().is_ok()
}

/// Why a request cannot be made.
#[derive(Clone, Copy, Debug, PartialEq, Eq, Structural)]
pub enum RequestError {
    /// The method is none.
    BadMethod,
}

/// What is printed where the method of a request is none.
pub const BAD_METHOD: &'static str = "invalid --method";

impl DeepView for RequestError {
    type V = RequestError;

    open spec fn deep_view(&self) -> RequestError {
        *self
    }
}

/// The address of a path at the backend.
pub open spec fn request_address(base: Seq<char>, path: Seq<char>) -> Seq<char> {
    normalized(base) + (if has_prefix(path, "/"@) {
        path
    } else {
        "/"@ + path
    })
}

/// The address that a request with this method goes to.
pub fn request_url(base_url: &str, method: &str, path: &str) -> (r: Result<String, RequestError>)
    ensures
        outcome(r) == if is_method(method@) {
            Ok::<Seq<char>, RequestError>(request_address(base_url@, path@))
        } else {
            Err(RequestError::BadMethod)
        },
{
    if !method_ok(method) {
        return Err(RequestError::BadMethod);
    }
    let mut url = normalize_base_url(base_url);
    if starts_with(path, "/") {
        url.append(path);
    } else {
        let mut p = "/".to_string();
        p.append(path);
        url.append(&p);
    }
    Ok(url)
}

/// The body of a request that is given as JSON text.
pub fn raw_body(raw: &str) -> (r: Result<serde_json::Value, serde_json::Error>)
    ensures
        match r {
            Ok(v) => read_text(raw@) == Some(tree(v)),
            Err(_) => read_text(raw@) is None,
        },
{
    json::from_str(raw)
}

/// What is printed above the answer to a request.
pub fn request_line(method: &str, url: &str, status: &str) -> (r: String)
    ensures
        r@ == method@ + " "@ + url@ + " -> "@ + status@,
{
    let mut s = method.to_string();
    s.append(" ");
    s.append(url);
    s.append(" -> ");
    s.append(status);
    s
}

/// Where events are asked for, news are events, whatever else is printed; otherwise they are told in
/// words beside a table, and not at all beside JSON.
pub proof fn law_events_come_before_words(format: OutputFormat)
    ensures
        narrated(EventsFormat::Jsonl, format) == Narration::Event,
        narrated(EventsFormat::Silent, OutputFormat::Table) == Narration::Words,
        narrated(EventsFormat::Silent, OutputFormat::Json) == Narration::Nothing,
{
}

/// A prompt that is given is the prompt, and not read elsewhere, unless it is a dash; a dash is
/// always read from the standard input, a missing prompt only where that is no terminal.
pub proof fn law_a_given_prompt_is_the_prompt(p: Seq<char>, terminal: bool)
    ensures
        p != "-"@ ==> prompt_source(Some(p), terminal) == Ok::<Option<Seq<char>>, PromptError>(
            Some(p),
        ),
        prompt_source(Some("-"@), terminal) == Ok::<Option<Seq<char>>, PromptError>(None),
        prompt_source(None, true) == Err::<Option<Seq<char>>, PromptError>(PromptError::NotGiven),
        prompt_source(None, false) == Ok::<Option<Seq<char>>, PromptError>(None),
        trimmed(p).len() == 0 ==> piped_prompt(p) == Err::<Seq<char>, PromptError>(
            PromptError::Blank,
        ),
        trimmed(p).len() > 0 ==> piped_prompt(p) == Ok::<Seq<char>, PromptError>(p),
{
    law_nothing_is_left_of_a_blank_text(p);
}

/// A branch that is named is the one to work on, unless it is blank; else the current one is, else
/// the default one, and `main` where nothing is known.
pub proof fn law_a_named_branch_is_worked_on(
    name: Option<Seq<char>>,
    current: Option<Seq<char>>,
    default: Option<Seq<char>>,
)
    ensures
        name matches Some(n) ==> (trimmed(n).len() > 0 ==> ref_to_use(name, current, default)
            == trimmed(n)),
        name is None || trimmed(name->0).len() == 0 ==> {
            &&& current matches Some(b) ==> ref_to_use(name, current, default) == b
            &&& current is None ==> (default matches Some(b) ==> ref_to_use(name, current, default)
                == b)
            &&& current is None && default is None ==> ref_to_use(name, current, default)
                == "main"@
        },
{
    match name {
        Some(n) => law_nothing_is_left_of_a_blank_text(n),
        None => {},
    }
}

/// The current branch is the one that git shows; a head that is on no branch tells none, and `main`
/// stands for that.
pub proof fn law_the_current_branch_is_what_git_shows(
    shown: Option<Seq<char>>,
    head: Option<Seq<char>>,
)
    ensures
        shown matches Some(s) ==> (trimmed(s).len() > 0 ==> current_ref(shown, head) == trimmed(s)),
        shown is None || trimmed(shown->0).len() == 0 ==> {
            &&& head matches Some(h) ==> (trimmed(h).len() > 0 && trimmed(h) != "HEAD"@
                ==> current_ref(shown, head) == trimmed(h))
            &&& head matches Some(h) ==> (trimmed(h) == "HEAD"@ || trimmed(h).len() == 0
                ==> current_ref(shown, head) == "main"@)
            &&& head is None ==> current_ref(shown, head) == "main"@
        },
{
    match shown {
        Some(s) => law_nothing_is_left_of_a_blank_text(s),
        None => {},
    }
    match head {
        Some(h) => law_nothing_is_left_of_a_blank_text(h),
        None => {},
    }
}

/// A worktree starts from the ref that is named for it, as it is, and else from the one of the task.
pub proof fn law_a_worktree_starts_from_its_own_ref(name: Option<Seq<char>>, task_ref: Seq<char>)
    ensures
        name matches Some(n) ==> (trimmed(n).len() > 0 ==> worktree_start(name, task_ref) == n),
        name is None || trimmed(name->0).len() == 0 ==> worktree_start(name, task_ref) == task_ref,
{
    match name {
        Some(n) => law_nothing_is_left_of_a_blank_text(n),
        None => {},
    }
}

/// A request goes to a path below the backend, with one slash between them, whether the path starts
/// with one or not.
pub proof fn law_a_path_stands_below_the_backend(base: Seq<char>, path: Seq<char>)
    ensures
        has_prefix(request_address(base, path), normalized(base) + (if has_prefix(path, "/"@) {
            Seq::empty()
        } else {
            "/"@
        })),
        has_suffix(request_address(base, path), path),
        has_prefix(path, "/"@) ==> request_address(base, path).len() == normalized(base).len()
            + path.len(),
        !has_prefix(path, "/"@) ==> request_address(base, path) == request_address(
            base,
            "/"@ + path,
        ),
{
    let n = normalized(base);
    lemma_two_parts(n, path);
    lemma_two_parts("/"@, path);
    lemma_grouped(n, "/"@, path);
    lemma_two_parts(n + "/"@, path);
    assert(n + Seq::<char>::empty() =~= n);
}

/// The name of a method is one word of letters, digits and a few signs of ASCII.
pub proof fn law_a_method_is_one_word(s: Seq<char>, i: int)
    ensures
        s.len() == 0 ==> !is_method(s),
        0 <= i < s.len() && (s[i] as u32 <= 32 || s[i] as u32 >= 127 || s[i] == '/' || s[i] == ':'
            || s[i] == '(' || s[i] == '"') ==> !is_method(s),
        s.len() > 0 && (forall|k: int|
            0 <= k < s.len() ==> 'A' <= #[trigger] s[k] && s[k] <= 'Z') ==> is_method(s),
{
    if 0 <= i < s.len() && is_method(s) {
        assert(is_token_char(s[i]));
    }
}

} // verus!
