//! Environments: their addresses, finding one, listing, creating and deleting them.
use vstd::prelude::*;

use crate::auth::{normalize_base_url, normalized};
use crate::json;
use crate::json::{at, member, number_in, read_text, text_in, tree, Tree};
use crate::number::{decimal, u64_text};
use crate::order::{eq_ignore_ascii_case, same_but_case};
use crate::outcome::outcome;
use crate::pieces::{
    after_first, before_first, law_pieces_make_up_the_text, lemma_first_of_bounds, lines, pieces,
    split, split_once, split_whitespace, text_lines, words,
};
use crate::row::{no_items, put_last};
use crate::text::{
    blank, both_trimmed, contains, has_prefix, has_suffix, is_blank,
    law_nothing_is_left_of_a_blank_text, law_trimming_takes_only_the_ends, lemma_grouped,
    lemma_part_within, lemma_two_parts, occurs, same, stands_at, start_trimmed, strip_prefix,
    suffix_trimmed, trim, trim_both, trim_start, trim_suffix, trimmed, Class,
};

verus! {

/// An environment that tasks run in.
#[derive(Debug, Clone)]
pub struct Environment {
    pub id: String,
    pub label: Option<String>,
    pub is_pinned: Option<bool>,
    pub task_count: Option<i64>,
}

/// An [`Environment`] as the contracts speak of it.
pub struct EnvView {
    pub id: Seq<char>,
    pub label: Option<Seq<char>>,
    pub is_pinned: Option<bool>,
    pub task_count: Option<i64>,
}

impl EnvView {
    /// Whether the environment is known to be pinned.
    pub open spec fn pinned(self) -> bool {
        self.is_pinned == Some(true)
    }

    /// The label, or nothing where there is none.
    pub open spec fn label_text(self) -> Seq<char> {
        match self.label {
            Some(l) => l,
            None => Seq::empty(),
        }
    }

    /// Whether the environment carries this label, whatever the case of its letters.
    pub open spec fn is_labelled(self, label: Seq<char>) -> bool {
        self.label is Some && same_but_case(self.label->0, label)
    }
}

impl DeepView for Environment {
    type V = EnvView;

    open spec fn deep_view(&self) -> EnvView {
        EnvView {
            id: self.id@,
            label: self.label.deep_view(),
            is_pinned: self.is_pinned,
            task_count: self.task_count,
        }
    }
}

impl Environment {
    /// Whether the environment is known to be pinned.
    pub fn pinned(&self) -> (r: bool)
        ensures
            r == self.deep_view().pinned(),
    {
        match self.is_pinned {
            Some(p) => p,
            None => false,
        }
    }

    /// The label, or nothing where there is none.
    pub fn label_text(&self) -> (r: String)
        ensures
            r@ == self.deep_view().label_text(),
    {
        match &self.label {
            Some(l) => l.clone(),
            None => String::new(),
        }
    }

    fn has_label(&self, label: &str) -> (r: bool)
        ensures
            r == self.deep_view().is_labelled(label@),
    {
        match &self.label {
            Some(l) => eq_ignore_ascii_case(l, label),
            None => false,
        }
    }
}

/// Whether requests go through ChatGPT's own paths.
pub open spec fn is_wham(base: Seq<char>) -> bool {
    occurs(normalized(base), "/backend-api"@)
}

/// The address of all environments.
pub open spec fn env_address(base: Seq<char>) -> Seq<char> {
    if is_wham(base) {
        normalized(base) + "/wham/environments"@
    } else {
        normalized(base) + "/api/codex/environments"@
    }
}

/// The address of all environments.
pub fn env_base_path(base_url: &str) -> (r: String)
    ensures
        r@ == env_address(base_url@),
{
    let mut n = normalize_base_url(base_url);
    if contains(&n, "/backend-api") {
        n.append("/wham/environments");
    } else {
        n.append("/api/codex/environments");
    }
    n
}

/// The address of the environments of a GitHub repository.
pub open spec fn env_repo_address(base: Seq<char>, owner: Seq<char>, repo: Seq<char>) -> Seq<char> {
    env_address(base) + "/by-repo/github/"@ + owner + "/"@ + repo
}

/// The address of the environments of a GitHub repository.
pub fn env_by_repo_path(base_url: &str, owner: &str, repo: &str) -> (r: String)
    ensures
        r@ == env_repo_address(base_url@, owner@, repo@),
{
    let mut n = env_base_path(base_url);
    n.append("/by-repo/github/");
    n.append(owner);
    n.append("/");
    n.append(repo);
    n
}

/// The address of one environment.
pub fn env_path(base_url: &str, env_id: &str) -> (r: String)
    ensures
        r@ == env_address(base_url@) + "/"@ + env_id@,
{
    let mut n = env_base_path(base_url);
    n.append("/");
    n.append(env_id);
    n
}

/// What is reported of a request that failed: with the status and the text of the answer.
pub open spec fn failure_text(
    method: Seq<char>,
    url: Seq<char>,
    status: Seq<char>,
    body: Seq<char>,
) -> Seq<char> {
    method + " "@ + url + " failed: "@ + status + "; body="@ + body
}

/// What is reported of a request that failed: with the status and the text of the answer.
pub fn request_failure(method: &str, url: &str, status: &str, body: &str) -> (r: String)
    ensures
        r@ == failure_text(method@, url@, status@, body@),
{
    let mut s = method.to_string();
    s.append(" ");
    s.append(url);
    s.append(" failed: ");
    s.append(status);
    s.append("; body=");
    s.append(body);
    s
}

/// What a successful deletion answered.
pub enum DeleteReply {
    /// Nothing: the environment is deleted.
    Deleted,
    /// A JSON value.
    Answer(serde_json::Value),
}

/// Reads the answer to a successful deletion.
pub fn delete_reply(text: &str) -> (r: Result<DeleteReply, serde_json::Error>)
    ensures
        match r {
            Ok(DeleteReply::Deleted) => is_blank(text@),
            Ok(DeleteReply::Answer(v)) => !is_blank(text@) && read_text(text@) == Some(tree(v)),
            Err(_) => !is_blank(text@) && read_text(text@) is None,
        },
{
    if blank(text) {
        return Ok(DeleteReply::Deleted);
    }
    match json::from_str(text) {
        Ok(v) => Ok(DeleteReply::Answer(v)),
        Err(e) => Err(e),
    }
}

/// The machine that an environment gets where none is configured.
pub const DEFAULT_MACHINE_ID: &'static str = "wham-public/wham-universal";

/// `s` without white space around it, where anything is left.
pub open spec fn filled(s: Seq<char>) -> Option<Seq<char>> {
    if is_blank(s) {
        None
    } else {
        Some(trimmed(s))
    }
}

/// `s` without white space around it, where anything is left.
pub fn fill(s: &str) -> (r: Option<String>)
    ensures
        r.deep_view() == filled(s@),
{
    if blank(s) {
        None
    } else {
        Some(trim(s))
    }
}

/// The machine id that the persisted state holds.
pub open spec fn machine_in_state(state: Tree) -> Option<Seq<char>> {
    match at(state, seq!["electron-persisted-atom-state"@, "environment"@, "machine_id"@]) {
        Some(t) => match text_in(t) {
            Some(s) => filled(s),
            None => None,
        },
        None => None,
    }
}

/// The machine id that the persisted state holds.
pub fn machine_id_in_state(state: &serde_json::Value) -> (r: Option<String>)
    ensures
        r.deep_view() == machine_in_state(tree(*state)),
{
    let ghost path = seq!["electron-persisted-atom-state"@, "environment"@, "machine_id"@];
    proof {
        reveal_with_fuel(at, 4);
        assert(path.drop_first() == seq!["environment"@, "machine_id"@]);
        assert(path.drop_first().drop_first() == seq!["machine_id"@]);
        assert(path.drop_first().drop_first().drop_first() == Seq::<Seq<char>>::empty());
    }
    match json::get(state, "electron-persisted-atom-state") {
        None => None,
        Some(a) => match json::get(a, "environment") {
            None => None,
            Some(b) => match json::get(b, "machine_id") {
                None => None,
                Some(c) => match json::as_str(c) {
                    None => None,
                    Some(s) => fill(s),
                },
            },
        },
    }
}

/// The machine id that the text of the persisted state holds.
pub open spec fn machine_in_text(raw: Seq<char>) -> Option<Seq<char>> {
    match read_text(raw) {
        Some(state) => machine_in_state(state),
        None => None,
    }
}

/// The machine id that the text of `.codex-global-state.json` holds.
pub fn machine_id_from_codex_state(raw: &str) -> (r: Option<String>)
    ensures
        r.deep_view() == machine_in_text(raw@),
{
    match json::from_str(raw) {
        Ok(state) => machine_id_in_state(&state),
        Err(_) => None,
    }
}

/// The machine that a new environment gets: the one that the variable names, else the one of the
/// text of the persisted state, else the default.
pub open spec fn machine_for(variable: Option<Seq<char>>, state: Option<Seq<char>>) -> Seq<char> {
    match variable {
        Some(v) if !is_blank(v) => trimmed(v),
        _ => match state {
            Some(s) => match machine_in_text(s) {
                Some(id) => id,
                None => DEFAULT_MACHINE_ID@,
            },
            None => DEFAULT_MACHINE_ID@,
        },
    }
}

/// The machine that a new environment gets: the one that the environment variable names, else the
/// one of the persisted state, else the default. `state` is the text of that state, where it
/// could be read.
pub fn resolve_machine_id(variable: Option<&str>, state: Option<&str>) -> (r: String)
    ensures
        r@ == machine_for(variable.deep_view(), state.deep_view()),
{
    if let Some(v) = variable {
        if let Some(id) = fill(v) {
            return id;
        }
    }
    if let Some(s) = state {
        if let Some(id) = machine_id_from_codex_state(s) {
            return id;
        }
    }
    DEFAULT_MACHINE_ID.to_string()
}

/// The token that GitHub is asked with: of the first variable that is set, where it is not blank.
pub open spec fn token_for(github: Option<Seq<char>>, gh: Option<Seq<char>>) -> Option<Seq<char>> {
    match (github, gh) {
        (Some(t), _) => filled(t),
        (None, Some(t)) => filled(t),
        (None, None) => None,
    }
}

/// The token that GitHub is asked with: of the first variable that is set, where it is not blank.
pub fn github_token(github: Option<&str>, gh: Option<&str>) -> (r: Option<String>)
    ensures
        r.deep_view() == token_for(github.deep_view(), gh.deep_view()),
{
    match github {
        Some(t) => fill(t),
        None => match gh {
            Some(t) => fill(t),
            None => None,
        },
    }
}

/// The address at which GitHub describes a repository.
pub open spec fn repo_address(owner: Seq<char>, repo: Seq<char>) -> Seq<char> {
    "https://api.github.com/repos/"@ + owner + "/"@ + repo
}

/// The address at which GitHub describes a repository.
pub fn github_repo_url(owner: &str, repo: &str) -> (r: String)
    ensures
        r@ == repo_address(owner@, repo@),
{
    let mut s = "https://api.github.com/repos/".to_string();
    s.append(owner);
    s.append("/");
    s.append(repo);
    s
}

/// What is reported where GitHub's description of a repository holds no number.
pub const NO_REPO_ID: &'static str = "GitHub API response did not include a numeric repo id";

/// Why GitHub's description of a repository gives no selector.
pub enum SelectorError {
    /// It is no JSON.
    NoJson(serde_json::Error),
    /// It holds no number under `id` that fits.
    NoId,
}

/// The number of a repository in GitHub's description of it.
pub open spec fn repo_number(description: Tree) -> Option<int> {
    match member(description, "id"@) {
        Some(id) => number_in(id, 0, u64::MAX as int),
        None => None,
    }
}

/// The selector of a repository: `github-` and the number in GitHub's description of it.
pub fn selector_in(description: &serde_json::Value) -> (r: Option<String>)
    ensures
        match r {
            Some(s) => repo_number(tree(*description)) is Some && s@ == "github-"@ + decimal(
                repo_number(tree(*description))->0,
            ),
            None => repo_number(tree(*description)) is None,
        },
{
    match json::get(description, "id") {
        None => None,
        Some(id) => match json::as_u64(id) {
            None => None,
            Some(n) => {
                let mut s = "github-".to_string();
                s.append(&u64_text(n));
                Some(s)
            },
        },
    }
}

/// The selector of a repository that GitHub describes in `body`.
pub fn github_repo_selector(body: &str) -> (r: Result<String, SelectorError>)
    ensures
        match r {
            Ok(s) => read_text(body@) is Some && repo_number(read_text(body@)->0) is Some && s@
                == "github-"@ + decimal(repo_number(read_text(body@)->0)->0),
            Err(SelectorError::NoJson(_)) => read_text(body@) is None,
            Err(SelectorError::NoId) => read_text(body@) is Some && repo_number(
                read_text(body@)->0,
            ) is None,
        },
{
    match json::from_str(body) {
        Err(e) => Err(SelectorError::NoJson(e)),
        Ok(description) => match selector_in(&description) {
            Some(s) => Ok(s),
            None => Err(SelectorError::NoId),
        },
    }
}

/// `s` without the first of the three ways in which a GitHub address can start.
pub open spec fn without_github(s: Seq<char>) -> Seq<char> {
    if has_prefix(s, "git@github.com:"@) {
        s.skip("git@github.com:"@.len() as int)
    } else if has_prefix(s, "https://github.com/"@) {
        s.skip("https://github.com/"@.len() as int)
    } else if has_prefix(s, "http://github.com/"@) {
        s.skip("http://github.com/"@.len() as int)
    } else {
        s
    }
}

fn strip_github(s: &str) -> (r: String)
    ensures
        r@ == without_github(s@),
{
    if let Some(rest) = strip_prefix(s, "git@github.com:") {
        return rest;
    }
    if let Some(rest) = strip_prefix(s, "https://github.com/") {
        return rest;
    }
    if let Some(rest) = strip_prefix(s, "http://github.com/") {
        return rest;
    }
    s.to_string()
}

/// Without slashes around it, then without `.git` at its end.
pub open spec fn bare(s: Seq<char>) -> Seq<char> {
    suffix_trimmed(both_trimmed(s, Class::Only('/')), ".git"@)
}

/// Owner and repository, where `input` is of the form `owner/repo` or such an address on GitHub.
pub open spec fn owner_repo(input: Seq<char>) -> Option<(Seq<char>, Seq<char>)> {
    let p = pieces(bare(without_github(bare(trimmed(input)))), '/');
    if p.len() == 2 && p[0].len() > 0 && p[1].len() > 0 {
        Some((p[0], p[1]))
    } else {
        None
    }
}

/// Owner and repository, where `input` is of the form `owner/repo` or such an address on GitHub.
pub fn parse_owner_repo(input: &str) -> (r: Option<(String, String)>)
    ensures
        r.deep_view() == owner_repo(input@),
{
    let s = trim(input);
    let s = trim_suffix(&trim_both(&s, Class::Only('/')), ".git");
    let s = strip_github(&s);
    let s = trim_suffix(&trim_both(&s, Class::Only('/')), ".git");
    let parts = split(&s, '/');
    assert(forall|i: int|
        0 <= i < parts@.len() ==> #[trigger] parts.deep_view()[i] == parts@[i]@);
    if parts.len() != 2 || parts[0].as_str().is_empty() || parts[1].as_str().is_empty() {
        return None;
    }
    Some((parts[0].clone(), parts[1].clone()))
}

/// The URL of a line of `git remote -v`, where it is one that is fetched from.
pub open spec fn fetch_url(line: Seq<char>) -> Option<Seq<char>> {
    let w = words(line);
    if w.len() >= 3 && occurs(w[2], "(fetch)"@) {
        Some(w[1])
    } else {
        None
    }
}

/// The URLs that the lines of `git remote -v` fetch from, each of them once.
pub open spec fn fetch_urls(ls: Seq<Seq<char>>) -> Seq<Seq<char>>
    decreases ls.len(),
{
    if ls.len() == 0 {
        Seq::empty()
    } else {
        let before = fetch_urls(ls.drop_last());
        match fetch_url(ls.last()) {
            Some(url) => if before.contains(url) {
                before
            } else {
                before.push(url)
            },
            None => before,
        }
    }
}

fn holds_text(items: &Vec<String>, s: &str) -> (r: bool)
    ensures
        r == items.deep_view().contains(s@),
{
    let mut i: usize = 0;
    while i < items.len()
        invariant
            i <= items@.len(),
            forall|j: int| 0 <= j < i ==> items@[j]@ != s@,
        decreases items@.len() - i,
    {
        if same(&items[i], s) {
            assert(items.deep_view()[i as int] == s@);
            return true;
        }
        i += 1;
    }
    assert forall|j: int| 0 <= j < items.deep_view().len() implies items.deep_view()[j] != s@ by {
        assert(items.deep_view()[j] == items@[j]@);
    }
    false
}

/// The URLs that `git remote -v` fetches from, given what it printed.
pub fn git_remotes(stdout: &str) -> (r: Vec<String>)
    ensures
        r.deep_view() == fetch_urls(text_lines(stdout@)),
{
    let all = lines(stdout);
    let ghost ls = all.deep_view();
    let mut out: Vec<String> = Vec::new();
    let mut i: usize = 0;
    assert(out.deep_view() == fetch_urls(ls.take(0)));
    while i < all.len()
        invariant
            ls == all.deep_view(),
            i <= all@.len(),
            out.deep_view() == fetch_urls(ls.take(i as int)),
        decreases all@.len() - i,
    {
        let parts = split_whitespace(&all[i]);
        proof {
            assert(ls.take(i + 1).drop_last() == ls.take(i as int));
            assert(ls.take(i + 1).last() == all@[i as int]@);
            assert(forall|j: int|
                0 <= j < parts@.len() ==> #[trigger] parts.deep_view()[j] == parts@[j]@);
        }
        if parts.len() >= 3 && contains(&parts[2], "(fetch)") {
            if !holds_text(&out, &parts[1]) {
                let ghost before = out.deep_view();
                out.push(parts[1].clone());
                assert(out.deep_view() == before.push(parts@[1]@));
            }
        }
        i += 1;
    }
    assert(ls.take(i as int) == ls);
    out
}

/// No URL is listed twice.
pub proof fn law_remotes_are_listed_once(ls: Seq<Seq<char>>)
    ensures
        fetch_urls(ls).no_duplicates(),
    decreases ls.len(),
{
    if ls.len() > 0 {
        law_remotes_are_listed_once(ls.drop_last());
    }
}

/// The two sides of the first slash, without slashes in front and without `.git` at the end.
pub open spec fn cut_path(rest: Seq<char>) -> Option<(Seq<char>, Seq<char>)> {
    let s = suffix_trimmed(start_trimmed(rest, Class::Only('/')), ".git"@);
    if s.contains('/') {
        Some((before_first(s, '/'), after_first(s, '/')))
    } else {
        None
    }
}

fn cut(rest: &str) -> (r: Option<(String, String)>)
    ensures
        r.deep_view() == cut_path(rest@),
{
    split_once(&trim_suffix(&trim_start(rest, Class::Only('/')), ".git"), '/')
}

/// Owner and repository of the URL of a GitHub remote.
pub open spec fn remote_owner_repo(url: Seq<char>) -> Option<(Seq<char>, Seq<char>)> {
    let s = trimmed(url);
    if has_prefix(s, "git@github.com:"@) {
        cut_path(s.skip("git@github.com:"@.len() as int))
    } else if has_prefix(s, "https://github.com/"@) {
        cut_path(s.skip("https://github.com/"@.len() as int))
    } else if has_prefix(s, "http://github.com/"@) {
        cut_path(s.skip("http://github.com/"@.len() as int))
    } else {
        None
    }
}

/// Owner and repository of the URL of a GitHub remote.
pub fn parse_github_owner_repo(remote_url: &str) -> (r: Option<(String, String)>)
    ensures
        r.deep_view() == remote_owner_repo(remote_url@),
{
    let s = trim(remote_url);
    if let Some(rest) = strip_prefix(&s, "git@github.com:") {
        return cut(&rest);
    }
    if let Some(rest) = strip_prefix(&s, "https://github.com/") {
        return cut(&rest);
    }
    if let Some(rest) = strip_prefix(&s, "http://github.com/") {
        return cut(&rest);
    }
    None
}

/// Where in `s` the first environment with this id stands; its length where there is none.
pub open spec fn place(s: Seq<EnvView>, id: Seq<char>) -> int
    decreases s.len(),
{
    if s.len() == 0 || s[0].id == id {
        0
    } else {
        1 + place(s.drop_first(), id)
    }
}

proof fn lemma_place(s: Seq<EnvView>, id: Seq<char>, i: int)
    requires
        0 <= i <= s.len(),
        forall|j: int| 0 <= j < i ==> (#[trigger] s[j]).id != id,
        i == s.len() || s[i].id == id,
    ensures
        place(s, id) == i,
    decreases s.len(),
{
    if i > 0 {
        assert(s[0].id != id);
        assert forall|j: int| 0 <= j < i - 1 implies (#[trigger] s.drop_first()[j]).id != id by {
            assert(s.drop_first()[j] == s[j + 1]);
        }
        lemma_place(s.drop_first(), id, i - 1);
    }
}

proof fn lemma_place_bounds(s: Seq<EnvView>, id: Seq<char>)
    ensures
        0 <= place(s, id) <= s.len(),
        place(s, id) < s.len() ==> s[place(s, id)].id == id,
        forall|j: int| 0 <= j < place(s, id) ==> (#[trigger] s[j]).id != id,
    decreases s.len(),
{
    if s.len() > 0 && s[0].id != id {
        lemma_place_bounds(s.drop_first(), id);
        assert forall|j: int| 0 <= j < place(s, id) implies (#[trigger] s[j]).id != id by {
            if j > 0 {
                assert(s.drop_first()[j - 1] == s[j]);
            }
        }
    }
}

/// Where the first environment with this id stands; the number of environments where there is none.
pub fn find_env(envs: &Vec<Environment>, id: &str) -> (r: usize)
    ensures
        r == place(envs.deep_view(), id@),
        r <= envs@.len(),
{
    let mut i: usize = 0;
    while i < envs.len() && !same(&envs[i].id, id)
        invariant
            i <= envs@.len(),
            forall|j: int| 0 <= j < i ==> (#[trigger] envs.deep_view()[j]).id != id@,
        decreases envs@.len() - i,
    {
        assert(envs.deep_view()[i as int] == envs@[i as int].deep_view());
        i += 1;
    }
    proof {
        if i < envs@.len() {
            assert(envs.deep_view()[i as int] == envs@[i as int].deep_view());
        }
        lemma_place(envs.deep_view(), id@, i as int);
    }
    i
}

/// `s` with `e` in the place of the environment with its id, or at the end.
pub open spec fn replaced_env(s: Seq<EnvView>, e: EnvView) -> Seq<EnvView> {
    let i = place(s, e.id);
    if i < s.len() {
        s.update(i, e)
    } else {
        s.push(e)
    }
}

/// An environment and what the list for a repository says of it: what is not known of its label
/// and its count comes from there, and it is pinned where either says so.
pub open spec fn joined_env(known: EnvView, e: EnvView) -> EnvView {
    EnvView {
        id: known.id,
        label: if known.label is None {
            e.label
        } else {
            known.label
        },
        is_pinned: Some(known.pinned() || e.pinned()),
        task_count: if known.task_count is None {
            e.task_count
        } else {
            known.task_count
        },
    }
}

/// `s` with what the list for a repository says of an environment.
pub open spec fn extended_env(s: Seq<EnvView>, e: EnvView) -> Seq<EnvView> {
    let i = place(s, e.id);
    if i < s.len() {
        s.update(i, joined_env(s[i], e))
    } else {
        s.push(e)
    }
}

/// All environments of the general list and of the lists for repositories, one for each id.
pub open spec fn merged(global: Seq<EnvView>, by_repo: Seq<EnvView>) -> Seq<EnvView>
    decreases global.len() + by_repo.len(),
{
    if by_repo.len() > 0 {
        extended_env(merged(global, by_repo.drop_last()), by_repo.last())
    } else if global.len() > 0 {
        replaced_env(merged(global.drop_last(), by_repo), global.last())
    } else {
        Seq::empty()
    }
}

fn join_env(known: &Environment, e: &Environment) -> (r: Environment)
    ensures
        r.deep_view() == joined_env(known.deep_view(), e.deep_view()),
{
    Environment {
        id: known.id.clone(),
        label: match &known.label {
            Some(l) => Some(l.clone()),
            None => match &e.label {
                Some(l) => Some(l.clone()),
                None => None,
            },
        },
        is_pinned: Some(known.pinned() || e.pinned()),
        task_count: match known.task_count {
            Some(n) => Some(n),
            None => e.task_count,
        },
    }
}

/// A copy of an environment.
pub fn copy_env(e: &Environment) -> (r: Environment)
    ensures
        r.deep_view() == e.deep_view(),
{
    Environment {
        id: e.id.clone(),
        label: match &e.label {
            Some(l) => Some(l.clone()),
            None => None,
        },
        is_pinned: e.is_pinned,
        task_count: e.task_count,
    }
}

/// Joins the general list of environments with those for repositories, one for each id.
pub fn merge_environments(global: &Vec<Environment>, by_repo: &Vec<Environment>) -> (r: Vec<
    Environment,
>)
    ensures
        r.deep_view() == merged(global.deep_view(), by_repo.deep_view()),
{
    let ghost g = global.deep_view();
    let ghost b = by_repo.deep_view();
    let mut all: Vec<Environment> = Vec::new();
    let mut i: usize = 0;
    assert(all.deep_view() == merged(g.take(0), b.take(0)));
    while i < global.len()
        invariant
            g == global.deep_view(),
            i <= global@.len(),
            all.deep_view() == merged(g.take(i as int), b.take(0)),
        decreases global@.len() - i,
    {
        let e = copy_env(&global[i]);
        let p: usize = find_env(&all, &e.id);
        let ghost before = all.deep_view();
        proof {
            assert(g.take(i + 1).drop_last() == g.take(i as int));
            assert(g.take(i + 1).last() == global@[i as int].deep_view());
        }
        let ghost v = e.deep_view();
        if p < all.len() {
            all.set(p, e);
            assert(all.deep_view() == before.update(p as int, v));
        } else {
            all.push(e);
            assert(all.deep_view() == before.push(v));
        }
        i += 1;
    }
    assert(g.take(i as int) == g);
    i = 0;
    while i < by_repo.len()
        invariant
            b == by_repo.deep_view(),
            i <= by_repo@.len(),
            all.deep_view() == merged(g, b.take(i as int)),
        decreases by_repo@.len() - i,
    {
        let p: usize = find_env(&all, &by_repo[i].id);
        let ghost before = all.deep_view();
        let ghost e = by_repo@[i as int].deep_view();
        proof {
            assert(b.take(i + 1).drop_last() == b.take(i as int));
            assert(b.take(i + 1).last() == e);
        }
        if p < all.len() {
            let known = join_env(&all[p], &by_repo[i]);
            assert(before[p as int] == all@[p as int].deep_view());
            all.set(p, known);
            assert(all.deep_view() == before.update(p as int, joined_env(before[p as int], e)));
        } else {
            all.push(copy_env(&by_repo[i]));
            assert(all.deep_view() == before.push(e));
        }
        i += 1;
    }
    assert(b.take(i as int) == b);
    all
}

/// Whether an environment with this id is listed.
pub open spec fn lists(s: Seq<EnvView>, id: Seq<char>) -> bool {
    exists|i: int| 0 <= i < s.len() && (#[trigger] s[i]).id == id
}

/// Whether no two environments have the same id.
pub open spec fn ids_differ(s: Seq<EnvView>) -> bool {
    forall|i: int, j: int| 0 <= i < j < s.len() ==> (#[trigger] s[i]).id != (#[trigger] s[j]).id
}

proof fn lemma_put(s: Seq<EnvView>, e: EnvView, known: EnvView, t: Seq<EnvView>)
    requires
        ids_differ(s),
        place(s, e.id) < s.len() ==> known.id == e.id && t == s.update(place(s, e.id), known),
        place(s, e.id) >= s.len() ==> t == s.push(e),
    ensures
        ids_differ(t),
        forall|id: Seq<char>| #[trigger] lists(t, id) == (lists(s, id) || id == e.id),
{
    lemma_place_bounds(s, e.id);
    let i = place(s, e.id);
    assert(t[i].id == e.id);
    assert forall|id: Seq<char>| #[trigger] lists(t, id) == (lists(s, id) || id == e.id) by {
        if lists(s, id) {
            let k = choose|k: int| 0 <= k < s.len() && (#[trigger] s[k]).id == id;
            assert(t[k].id == id);
        }
        if lists(t, id) {
            let k = choose|k: int| 0 <= k < t.len() && (#[trigger] t[k]).id == id;
            if k != i {
                assert(s[k].id == id);
            }
        }
    }
}

/// Joining the lists leaves one environment for each id that any of them holds, and no other.
pub proof fn law_merging_keeps_each_id_once(global: Seq<EnvView>, by_repo: Seq<EnvView>)
    ensures
        ids_differ(merged(global, by_repo)),
        forall|id: Seq<char>| #[trigger]
            lists(merged(global, by_repo), id) == (lists(global, id) || lists(by_repo, id)),
    decreases global.len() + by_repo.len(),
{
    if by_repo.len() > 0 {
        let t = by_repo.drop_last();
        let e = by_repo.last();
        law_merging_keeps_each_id_once(global, t);
        let m = merged(global, t);
        lemma_place_bounds(m, e.id);
        lemma_put(m, e, joined_env(m[place(m, e.id)], e), merged(global, by_repo));
        assert forall|id: Seq<char>| #[trigger]
            lists(merged(global, by_repo), id) == (lists(global, id) || lists(by_repo, id)) by {
            lemma_lists_last(by_repo, id);
            assert(lists(m, id) == (lists(global, id) || lists(t, id)));
        }
    } else if global.len() > 0 {
        let m = merged(global.drop_last(), by_repo);
        law_merging_keeps_each_id_once(global.drop_last(), by_repo);
        lemma_put(m, global.last(), global.last(), merged(global, by_repo));
        assert forall|id: Seq<char>| #[trigger]
            lists(merged(global, by_repo), id) == (lists(global, id) || lists(by_repo, id)) by {
            lemma_lists_last(global, id);
            assert(lists(m, id) == (lists(global.drop_last(), id) || lists(by_repo, id)));
        }
    }
}

proof fn lemma_lists_last(s: Seq<EnvView>, id: Seq<char>)
    requires
        s.len() > 0,
    ensures
        lists(s, id) == (lists(s.drop_last(), id) || s.last().id == id),
{
    let t = s.drop_last();
    if lists(s, id) {
        let k = choose|k: int| 0 <= k < s.len() && (#[trigger] s[k]).id == id;
        if k < t.len() {
            assert(t[k].id == id);
        }
    }
    if lists(t, id) {
        let k = choose|k: int| 0 <= k < t.len() && (#[trigger] t[k]).id == id;
        assert(s[k].id == id);
    }
    if s.last().id == id {
        assert(s[s.len() - 1].id == id);
    }
}

/// Why no environment was picked.
#[derive(Debug)]
pub enum EnvError {
    /// The selector is blank.
    EmptySelector,
    /// Nothing has this id or label.
    NotFound(String),
    /// More than one environment has this label.
    Ambiguous(String),
    /// There is no environment at all.
    NoEnvironments,
}

/// An [`EnvError`] as the contracts speak of it.
pub enum EnvErrorView {
    EmptySelector,
    NotFound(Seq<char>),
    Ambiguous(Seq<char>),
    NoEnvironments,
}

impl DeepView for EnvError {
    type V = EnvErrorView;

    open spec fn deep_view(&self) -> EnvErrorView {
        match self {
            EnvError::EmptySelector => EnvErrorView::EmptySelector,
            EnvError::NotFound(s) => EnvErrorView::NotFound(s@),
            EnvError::Ambiguous(s) => EnvErrorView::Ambiguous(s@),
            EnvError::NoEnvironments => EnvErrorView::NoEnvironments,
        }
    }
}

impl EnvErrorView {
    /// What is printed of the error.
    pub open spec fn text(self) -> Seq<char> {
        match self {
            EnvErrorView::EmptySelector => "--env must not be empty"@,
            EnvErrorView::NotFound(s) => "environment '"@ + s
                + "' not found; run `cloudex env list` to see available environments"@,
            EnvErrorView::Ambiguous(s) => "environment label '"@ + s
                + "' is ambiguous; use the environment id instead"@,
            EnvErrorView::NoEnvironments => "no environments available"@,
        }
    }
}

impl EnvError {
    /// What is printed of the error.
    pub fn message(&self) -> (r: String)
        ensures
            r@ == self.deep_view().text(),
    {
        match self {
            EnvError::EmptySelector => "--env must not be empty".to_string(),
            EnvError::NotFound(s) => {
                let mut m = "environment '".to_string();
                m.append(s);
                m.append("' not found; run `cloudex env list` to see available environments");
                m
            },
            EnvError::Ambiguous(s) => {
                let mut m = "environment label '".to_string();
                m.append(s);
                m.append("' is ambiguous; use the environment id instead");
                m
            },
            EnvError::NoEnvironments => "no environments available".to_string(),
        }
    }
}

/// The environments that carry a label.
pub open spec fn labelled(all: Seq<EnvView>, label: Seq<char>) -> Seq<EnvView> {
    all.filter(|e: EnvView| e.is_labelled(label))
}

/// The first pinned environment.
pub open spec fn first_pinned(all: Seq<EnvView>) -> Option<EnvView>
    decreases all.len(),
{
    if all.len() == 0 {
        None
    } else if all[0].pinned() {
        Some(all[0])
    } else {
        first_pinned(all.drop_first())
    }
}

/// The id that a selector stands for: an id, else the label of one environment alone.
pub open spec fn selected(all: Seq<EnvView>, selector: Seq<char>) -> Result<
    Seq<char>,
    EnvErrorView,
> {
    let sel = trimmed(selector);
    let m = labelled(all, sel);
    if is_blank(selector) {
        Err(EnvErrorView::EmptySelector)
    } else if lists(all, sel) {
        Ok(sel)
    } else if m.len() == 0 {
        Err(EnvErrorView::NotFound(sel))
    } else if m.len() == 1 {
        Ok(m[0].id)
    } else {
        Err(EnvErrorView::Ambiguous(sel))
    }
}

/// The first environment of `by_repo` whose id `among` lists too.
pub open spec fn first_shared(by_repo: Seq<EnvView>, among: Seq<EnvView>) -> Option<EnvView>
    decreases by_repo.len(),
{
    if by_repo.len() == 0 {
        None
    } else if lists(among, by_repo[0].id) {
        Some(by_repo[0])
    } else {
        first_shared(by_repo.drop_first(), among)
    }
}

/// The id that is picked among environments: of a pinned one; else of the first one of the
/// repository; else of the first one at all.
pub open spec fn picked_among(among: Seq<EnvView>, by_repo: Seq<EnvView>) -> Result<
    Seq<char>,
    EnvErrorView,
> {
    if first_pinned(among) is Some {
        Ok(first_pinned(among)->0.id)
    } else if first_shared(by_repo, among) is Some {
        Ok(first_shared(by_repo, among)->0.id)
    } else if among.len() > 0 {
        Ok(among[0].id)
    } else {
        Err(EnvErrorView::NoEnvironments)
    }
}

/// The id that is picked without a selector: among the environments with the label that is looked
/// for, where there are any, and otherwise among all of them.
pub open spec fn preferred(
    all: Seq<EnvView>,
    by_repo: Seq<EnvView>,
    label: Option<Seq<char>>,
) -> Result<Seq<char>, EnvErrorView> {
    if label is Some && labelled(all, label->0).len() > 0 {
        picked_among(labelled(all, label->0), by_repo)
    } else {
        picked_among(all, by_repo)
    }
}

/// The id of the environment to use.
pub open spec fn resolved(
    global: Seq<EnvView>,
    by_repo: Seq<EnvView>,
    selector: Option<Seq<char>>,
    label: Option<Seq<char>>,
) -> Result<Seq<char>, EnvErrorView> {
    match selector {
        Some(s) => selected(merged(global, by_repo), s),
        None => preferred(merged(global, by_repo), by_repo, label),
    }
}

/// The environments that carry a label.
fn with_label(all: &Vec<Environment>, label: &str) -> (r: Vec<Environment>)
    ensures
        r.deep_view() == labelled(all.deep_view(), label@),
{
    let ghost s = all.deep_view();
    let ghost p = |e: EnvView| e.is_labelled(label@);
    let mut out: Vec<Environment> = no_items();
    let mut i: usize = 0;
    proof {
        reveal(Seq::filter);
        assert(out.deep_view() =~= s.take(0).filter(p));
    }
    while i < all.len()
        invariant
            s == all.deep_view(),
            p == (|e: EnvView| e.is_labelled(label@)),
            i <= all@.len(),
            out.deep_view() == s.take(i as int).filter(p),
        decreases all@.len() - i,
    {
        proof {
            reveal(Seq::filter);
            assert(s.take(i + 1).drop_last() == s.take(i as int));
            assert(s.take(i + 1).last() == all@[i as int].deep_view());
        }
        if all[i].has_label(label) {
            put_last(&mut out, copy_env(&all[i]));
        }
        i += 1;
    }
    assert(s.take(i as int) == s);
    out
}

fn select_env(all: &Vec<Environment>, selector: &str) -> (r: Result<String, EnvError>)
    ensures
        outcome(r) == selected(all.deep_view(), selector@),
{
    if blank(selector) {
        return Err(EnvError::EmptySelector);
    }
    let sel = trim(selector);
    let i: usize = find_env(all, &sel);
    proof {
        lemma_place_bounds(all.deep_view(), sel@);
    }
    if i < all.len() {
        assert(lists(all.deep_view(), sel@));
        return Ok(sel);
    }
    assert(!lists(all.deep_view(), sel@));
    let found = with_label(all, &sel);
    assert(found.deep_view().len() == found@.len());
    if found.len() == 0 {
        Err(EnvError::NotFound(sel))
    } else if found.len() == 1 {
        assert(found.deep_view()[0] == found@[0].deep_view());
        Ok(found[0].id.clone())
    } else {
        Err(EnvError::Ambiguous(sel))
    }
}

/// The id of the first pinned environment.
pub fn find_pinned(all: &Vec<Environment>) -> (r: Option<String>)
    ensures
        match r {
            Some(id) => first_pinned(all.deep_view()) is Some && id@ == first_pinned(
                all.deep_view(),
            )->0.id,
            None => first_pinned(all.deep_view()) is None,
        },
{
    let ghost s = all.deep_view();
    let mut i: usize = 0;
    assert(s.skip(0) == s);
    while i < all.len()
        invariant
            s == all.deep_view(),
            i <= all@.len(),
            first_pinned(s) == first_pinned(s.skip(i as int)),
        decreases all@.len() - i,
    {
        assert(s.skip(i as int)[0] == all@[i as int].deep_view());
        assert(s.skip(i as int).drop_first() == s.skip(i + 1));
        if all[i].pinned() {
            return Some(all[i].id.clone());
        }
        i += 1;
    }
    None
}

/// The id of the first environment of `by_repo` that `among` lists too.
fn find_shared(by_repo: &Vec<Environment>, among: &Vec<Environment>) -> (r: Option<String>)
    ensures
        match r {
            Some(id) => first_shared(by_repo.deep_view(), among.deep_view()) is Some && id@
                == first_shared(by_repo.deep_view(), among.deep_view())->0.id,
            None => first_shared(by_repo.deep_view(), among.deep_view()) is None,
        },
{
    let ghost s = by_repo.deep_view();
    let ghost t = among.deep_view();
    let mut i: usize = 0;
    assert(t.len() == among@.len());
    assert(s.skip(0) == s);
    while i < by_repo.len()
        invariant
            s == by_repo.deep_view(),
            t == among.deep_view(),
            t.len() == among@.len(),
            i <= by_repo@.len(),
            first_shared(s, t) == first_shared(s.skip(i as int), t),
        decreases by_repo@.len() - i,
    {
        assert(s.skip(i as int)[0] == by_repo@[i as int].deep_view());
        assert(s.skip(i as int).drop_first() == s.skip(i + 1));
        let k: usize = find_env(among, &by_repo[i].id);
        proof {
            lemma_place_bounds(t, by_repo@[i as int].id@);
            if k < among@.len() {
                assert(t[k as int].id == by_repo@[i as int].id@);
            }
        }
        if k < among.len() {
            return Some(by_repo[i].id.clone());
        }
        i += 1;
    }
    None
}

fn pick_among(among: &Vec<Environment>, by_repo: &Vec<Environment>) -> (r: Result<String, EnvError>)
    ensures
        outcome(r) == picked_among(among.deep_view(), by_repo.deep_view()),
{
    if let Some(id) = find_pinned(among) {
        return Ok(id);
    }
    if let Some(id) = find_shared(by_repo, among) {
        return Ok(id);
    }
    assert(among.deep_view().len() == among@.len());
    if among.len() > 0 {
        assert(among.deep_view()[0] == among@[0].deep_view());
        return Ok(among[0].id.clone());
    }
    Err(EnvError::NoEnvironments)
}

/// The id of the environment to use. With a selector: the environment with that id, else the only
/// one with that label, whatever the case of its letters. Without one: a pinned environment; else
/// one of the repository; else the first one; and that among those with the desired label, whatever
/// the case of its letters, where there are any.
///
/// `global` is the general list, and `by_repo` what the lists for the repositories hold.
pub fn resolve_environment_id(
    global: &Vec<Environment>,
    by_repo: &Vec<Environment>,
    selector: Option<&str>,
    desired_label: Option<&str>,
) -> (r: Result<String, EnvError>)
    ensures
        outcome(r) == resolved(
            global.deep_view(),
            by_repo.deep_view(),
            selector.deep_view(),
            desired_label.deep_view(),
        ),
{
    let all = merge_environments(global, by_repo);
    if let Some(s) = selector {
        return select_env(&all, s);
    }
    if let Some(label) = desired_label {
        let wanted = with_label(&all, label);
        assert(wanted.deep_view().len() == wanted@.len());
        if wanted.len() > 0 {
            return pick_among(&wanted, by_repo);
        }
    }
    pick_among(&all, by_repo)
}

/// Whether an environment with this id carries a label.
pub open spec fn carries(all: Seq<EnvView>, id: Seq<char>, label: Seq<char>) -> bool {
    exists|i: int| 0 <= i < all.len() && (#[trigger] all[i]).id == id && all[i].is_labelled(label)
}

proof fn lemma_labelled_listed(all: Seq<EnvView>, label: Seq<char>, id: Seq<char>)
    requires
        lists(labelled(all, label), id),
    ensures
        carries(all, id, label),
{
    let p = |e: EnvView| e.is_labelled(label);
    broadcast use vstd::seq_lib::group_filter_ensures;

    let m = labelled(all, label);
    let k = choose|k: int| 0 <= k < m.len() && (#[trigger] m[k]).id == id;
    assert(p(m[k]));
    assert(m.contains(m[k]));
    all.lemma_filter_contains_rev(p, m[k]);
}

proof fn lemma_pinned_listed(all: Seq<EnvView>)
    ensures
        first_pinned(all) is Some ==> lists(all, first_pinned(all)->0.id),
    decreases all.len(),
{
    if all.len() > 0 {
        if all[0].pinned() {
            assert(all[0].id == first_pinned(all)->0.id);
        } else {
            lemma_pinned_listed(all.drop_first());
            if first_pinned(all) is Some {
                let id = first_pinned(all)->0.id;
                let k = choose|k: int|
                    0 <= k < all.drop_first().len() && (#[trigger] all.drop_first()[k]).id == id;
                assert(all[k + 1].id == id);
            }
        }
    }
}

proof fn lemma_shared_listed(by_repo: Seq<EnvView>, among: Seq<EnvView>)
    ensures
        first_shared(by_repo, among) is Some ==> lists(among, first_shared(by_repo, among)->0.id),
    decreases by_repo.len(),
{
    if by_repo.len() > 0 {
        lemma_shared_listed(by_repo.drop_first(), among);
    }
}

proof fn lemma_picked_among(among: Seq<EnvView>, by_repo: Seq<EnvView>)
    ensures
        among.len() > 0 <==> picked_among(among, by_repo) is Ok,
        picked_among(among, by_repo) matches Ok(id) ==> lists(among, id),
{
    lemma_pinned_listed(among);
    lemma_shared_listed(by_repo, among);
    if among.len() > 0 {
        assert(lists(among, among[0].id));
    }
}

/// The environment that is picked is one of those that were listed.
pub proof fn law_the_picked_environment_is_listed(
    global: Seq<EnvView>,
    by_repo: Seq<EnvView>,
    selector: Option<Seq<char>>,
    label: Option<Seq<char>>,
)
    ensures
        resolved(global, by_repo, selector, label) matches Ok(id) ==> lists(global, id) || lists(
            by_repo,
            id,
        ),
{
    let all = merged(global, by_repo);
    law_merging_keeps_each_id_once(global, by_repo);
    if resolved(global, by_repo, selector, label) is Ok {
        let id = resolved(global, by_repo, selector, label)->Ok_0;
        if selector is Some {
            let sel = trimmed(selector->0);
            let m = labelled(all, sel);
            if !lists(all, sel) {
                assert(m[0].id == id);
                lemma_labelled_listed(all, sel, id);
            }
        } else {
            lemma_picked_among(all, by_repo);
            if label is Some && labelled(all, label->0).len() > 0 {
                lemma_picked_among(labelled(all, label->0), by_repo);
                lemma_labelled_listed(all, label->0, id);
            }
        }
        assert(lists(all, id));
    }
}

/// Where any environment carries the label that is looked for, one that carries it is picked,
/// whatever else is pinned or belongs to the repository.
pub proof fn law_a_wanted_label_is_picked(
    global: Seq<EnvView>,
    by_repo: Seq<EnvView>,
    label: Seq<char>,
)
    requires
        exists|i: int|
            0 <= i < merged(global, by_repo).len() && (#[trigger] merged(
                global,
                by_repo,
            )[i]).is_labelled(label),
    ensures
        resolved(global, by_repo, None, Some(label)) matches Ok(id) && carries(
            merged(global, by_repo),
            id,
            label,
        ),
{
    let all = merged(global, by_repo);
    let p = |e: EnvView| e.is_labelled(label);
    let k = choose|k: int| 0 <= k < all.len() && (#[trigger] all[k]).is_labelled(label);
    broadcast use vstd::seq_lib::group_filter_ensures;

    assert(p(all[k]));
    assert(all.filter(p).contains(all[k]));
    let m = labelled(all, label);
    assert(m.len() > 0);
    lemma_picked_among(m, by_repo);
    lemma_labelled_listed(all, label, picked_among(m, by_repo)->Ok_0);
}

/// Without a selector an environment is picked wherever any is listed.
pub proof fn law_some_environment_is_picked(
    global: Seq<EnvView>,
    by_repo: Seq<EnvView>,
    label: Option<Seq<char>>,
)
    ensures
        resolved(global, by_repo, None, label) is Ok <==> global.len() + by_repo.len() > 0,
{
    law_merging_keeps_each_id_once(global, by_repo);
    let all = merged(global, by_repo);
    if global.len() > 0 {
        assert(lists(global, global[0].id));
        assert(lists(all, global[0].id));
    }
    if by_repo.len() > 0 {
        assert(lists(by_repo, by_repo[0].id));
        assert(lists(all, by_repo[0].id));
    }
    lemma_picked_among(all, by_repo);
    if label is Some {
        lemma_picked_among(labelled(all, label->0), by_repo);
        if labelled(all, label->0).len() > 0 {
            assert(lists(labelled(all, label->0), labelled(all, label->0)[0].id));
            lemma_labelled_listed(all, label->0, labelled(all, label->0)[0].id);
        }
    }
}

/// An id that is listed selects itself, whatever the labels are.
pub proof fn law_an_id_selects_itself(
    global: Seq<EnvView>,
    by_repo: Seq<EnvView>,
    id: Seq<char>,
    label: Option<Seq<char>>,
)
    requires
        lists(global, id) || lists(by_repo, id),
        !is_blank(id),
        trimmed(id) == id,
    ensures
        resolved(global, by_repo, Some(id), label) == Ok::<Seq<char>, EnvErrorView>(id),
{
    law_merging_keeps_each_id_once(global, by_repo);
    assert(lists(merged(global, by_repo), id));
}

proof fn lemma_filter_none(s: Seq<EnvView>, p: spec_fn(EnvView) -> bool)
    requires
        forall|i: int| 0 <= i < s.len() ==> !p(#[trigger] s[i]),
    ensures
        s.filter(p).len() == 0,
    decreases s.len(),
{
    reveal(Seq::filter);
    if s.len() > 0 {
        let t = s.drop_last();
        assert(!p(s[s.len() - 1]));
        assert forall|i: int| 0 <= i < t.len() implies !p(#[trigger] t[i]) by {
            assert(t[i] == s[i]);
        }
        lemma_filter_none(t, p);
    }
}

proof fn lemma_filter_split(s: Seq<EnvView>, p: spec_fn(EnvView) -> bool, i: int)
    requires
        0 <= i < s.len(),
        p(s[i]),
    ensures
        s.filter(p) == s.take(i).filter(p) + seq![s[i]] + s.skip(i + 1).filter(p),
{
    let a = s.take(i);
    let x = seq![s[i]];
    let b = s.skip(i + 1);
    assert(s =~= a + x + b);
    Seq::filter_distributes_over_add(a + x, b, p);
    Seq::filter_distributes_over_add(a, x, p);
    reveal_with_fuel(Seq::filter, 2);
    assert(x.drop_last() =~= Seq::<EnvView>::empty());
    assert(x.filter(p) =~= x);
}

/// A selector that is no id selects the environment that alone carries it as its label, whatever
/// the case of its letters; where more than one does it is ambiguous, where none does it is not
/// found, and a blank one is refused.
pub proof fn law_a_label_selects_its_environment(
    all: Seq<EnvView>,
    selector: Seq<char>,
    i: int,
    j: int,
)
    requires
        !lists(all, trimmed(selector)),
    ensures
        is_blank(selector) ==> selected(all, selector) == Err::<Seq<char>, EnvErrorView>(
            EnvErrorView::EmptySelector,
        ),
        !is_blank(selector) && 0 <= i < all.len() && all[i].label is Some && same_but_case(
            all[i].label->0,
            trimmed(selector),
        ) && (forall|k: int|
            0 <= k < all.len() && k != i ==> !((#[trigger] all[k]).label is Some && same_but_case(
                all[k].label->0,
                trimmed(selector),
            ))) ==> selected(all, selector) == Ok::<Seq<char>, EnvErrorView>(all[i].id),
        !is_blank(selector) && 0 <= i < j < all.len() && all[i].label is Some && same_but_case(
            all[i].label->0,
            trimmed(selector),
        ) && all[j].label is Some && same_but_case(all[j].label->0, trimmed(selector))
            ==> selected(all, selector) == Err::<Seq<char>, EnvErrorView>(
            EnvErrorView::Ambiguous(trimmed(selector)),
        ),
        !is_blank(selector) && (forall|k: int|
            0 <= k < all.len() ==> !((#[trigger] all[k]).label is Some && same_but_case(
                all[k].label->0,
                trimmed(selector),
            ))) ==> selected(all, selector) == Err::<Seq<char>, EnvErrorView>(
            EnvErrorView::NotFound(trimmed(selector)),
        ),
{
    let sel = trimmed(selector);
    let p = |e: EnvView| e.is_labelled(sel);
    if 0 <= i < all.len() && all[i].is_labelled(sel) {
        lemma_filter_split(all, p, i);
        if forall|k: int| 0 <= k < all.len() && k != i ==> !(#[trigger] all[k]).is_labelled(sel) {
            let a = all.take(i);
            let b = all.skip(i + 1);
            assert forall|k: int| 0 <= k < a.len() implies !p(#[trigger] a[k]) by {
                assert(a[k] == all[k]);
            }
            assert forall|k: int| 0 <= k < b.len() implies !p(#[trigger] b[k]) by {
                assert(b[k] == all[k + i + 1]);
            }
            lemma_filter_none(a, p);
            lemma_filter_none(b, p);
            assert(labelled(all, sel) =~= seq![all[i]]);
        }
        if i < j < all.len() && all[j].is_labelled(sel) {
            let b = all.skip(i + 1);
            assert(b[j - i - 1] == all[j]);
            lemma_filter_split(b, p, j - i - 1);
        }
    }
    if forall|k: int| 0 <= k < all.len() ==> !(#[trigger] all[k]).is_labelled(sel) {
        lemma_filter_none(all, p);
    }
}

proof fn lemma_first_pinned(among: Seq<EnvView>, i: int)
    requires
        0 <= i <= among.len(),
        forall|k: int| 0 <= k < i ==> (#[trigger] among[k]).is_pinned != Some(true),
        i < among.len() ==> among[i].is_pinned == Some(true),
    ensures
        i < among.len() ==> first_pinned(among) == Some(among[i]),
        i == among.len() ==> first_pinned(among) is None,
    decreases i,
{
    if i > 0 {
        let t = among.drop_first();
        assert(among[0].is_pinned != Some(true));
        assert forall|k: int| 0 <= k < i - 1 implies (#[trigger] t[k]).is_pinned != Some(true) by {
            assert(t[k] == among[k + 1]);
        }
        lemma_first_pinned(t, i - 1);
    }
}

proof fn lemma_first_shared(by_repo: Seq<EnvView>, among: Seq<EnvView>, i: int)
    requires
        0 <= i <= by_repo.len(),
        forall|k: int| 0 <= k < i ==> !lists(among, (#[trigger] by_repo[k]).id),
        i < by_repo.len() ==> lists(among, by_repo[i].id),
    ensures
        i < by_repo.len() ==> first_shared(by_repo, among) == Some(by_repo[i]),
        i == by_repo.len() ==> first_shared(by_repo, among) is None,
    decreases i,
{
    if i > 0 {
        let t = by_repo.drop_first();
        assert(!lists(among, by_repo[0].id));
        assert forall|k: int| 0 <= k < i - 1 implies !lists(among, (#[trigger] t[k]).id) by {
            assert(t[k] == by_repo[k + 1]);
        }
        lemma_first_shared(t, among, i - 1);
    }
}

/// Without a selector the first pinned environment is picked; where none is pinned, the first one
/// of the repository; and where there is none of these either, the first one of all.
pub proof fn law_pinned_environments_come_first(
    among: Seq<EnvView>,
    by_repo: Seq<EnvView>,
    i: int,
    k: int,
)
    ensures
        0 <= i < among.len() && among[i].is_pinned == Some(true) && (forall|l: int|
            0 <= l < i ==> (#[trigger] among[l]).is_pinned != Some(true)) ==> picked_among(
            among,
            by_repo,
        ) == Ok::<Seq<char>, EnvErrorView>(among[i].id),
        (forall|l: int| 0 <= l < among.len() ==> (#[trigger] among[l]).is_pinned != Some(true)) ==> {
            &&& 0 <= k < by_repo.len() && lists(among, by_repo[k].id) && (forall|l: int|
                0 <= l < k ==> !lists(among, (#[trigger] by_repo[l]).id)) ==> picked_among(
                among,
                by_repo,
            ) == Ok::<Seq<char>, EnvErrorView>(by_repo[k].id)
            &&& among.len() > 0 && (forall|l: int|
                0 <= l < by_repo.len() ==> !lists(among, (#[trigger] by_repo[l]).id))
                ==> picked_among(among, by_repo) == Ok::<Seq<char>, EnvErrorView>(among[0].id)
        },
        among.len() == 0 ==> picked_among(among, by_repo) == Err::<Seq<char>, EnvErrorView>(
            EnvErrorView::NoEnvironments,
        ),
{
    if 0 <= i < among.len() && among[i].is_pinned == Some(true) && (forall|l: int|
        0 <= l < i ==> (#[trigger] among[l]).is_pinned != Some(true)) {
        lemma_first_pinned(among, i);
    }
    if forall|l: int| 0 <= l < among.len() ==> (#[trigger] among[l]).is_pinned != Some(true) {
        lemma_first_pinned(among, among.len() as int);
        if 0 <= k < by_repo.len() && lists(among, by_repo[k].id) && (forall|l: int|
            0 <= l < k ==> !lists(among, (#[trigger] by_repo[l]).id)) {
            lemma_first_shared(by_repo, among, k);
        }
        if forall|l: int| 0 <= l < by_repo.len() ==> !lists(among, (#[trigger] by_repo[l]).id) {
            lemma_first_shared(by_repo, among, by_repo.len() as int);
        }
    }
    if among.len() == 0 {
        lemma_first_pinned(among, 0);
        lemma_first_shared(by_repo, among, by_repo.len() as int);
    }
}

/// An environment is picked out of all that are listed; or, where a label is looked for and any of
/// them carries it, out of those that do.
pub proof fn law_a_label_narrows_the_choice(
    global: Seq<EnvView>,
    by_repo: Seq<EnvView>,
    label: Option<Seq<char>>,
    e: EnvView,
)
    ensures
        label is None ==> resolved(global, by_repo, None, label) == picked_among(
            merged(global, by_repo),
            by_repo,
        ),
        label matches Some(l) ==> {
            let wanted = labelled(merged(global, by_repo), l);
            &&& wanted.contains(e) <==> merged(global, by_repo).contains(e) && e.label is Some
                && same_but_case(e.label->0, l)
            &&& wanted.len() > 0 ==> resolved(global, by_repo, None, label) == picked_among(
                wanted,
                by_repo,
            )
            &&& wanted.len() == 0 ==> resolved(global, by_repo, None, label) == picked_among(
                merged(global, by_repo),
                by_repo,
            )
        },
{
    broadcast use vstd::seq_lib::group_filter_ensures;

    let all = merged(global, by_repo);
    match label {
        Some(l) => {
            let p = |e: EnvView| e.is_labelled(l);
            let wanted = all.filter(p);
            if all.contains(e) && e.is_labelled(l) {
                let i = choose|i: int| 0 <= i < all.len() && all[i] == e;
                assert(p(all[i]));
                assert(wanted.contains(all[i]));
            }
            if wanted.contains(e) {
                all.lemma_filter_contains_rev(p, e);
                let i = choose|i: int| 0 <= i < wanted.len() && wanted[i] == e;
                assert(p(wanted[i]));
            }
        },
        None => {},
    }
}

proof fn lemma_global_alone(global: Seq<EnvView>)
    requires
        ids_differ(global),
    ensures
        merged(global, Seq::empty()) == global,
    decreases global.len(),
{
    let none = Seq::<EnvView>::empty();
    if global.len() > 0 {
        let t = global.drop_last();
        assert(ids_differ(t)) by {
            assert forall|i: int, j: int| 0 <= i < j < t.len() implies (#[trigger] t[i]).id != (
            #[trigger] t[j]).id by {
                assert(t[i] == global[i] && t[j] == global[j]);
            }
        }
        lemma_global_alone(t);
        let e = global.last();
        lemma_place_bounds(t, e.id);
        let k = place(t, e.id);
        if k < t.len() {
            assert(global[k] == t[k]);
            assert(global[global.len() - 1].id == e.id);
        }
        assert(t.push(e) =~= global);
    } else {
        assert(merged(global, none) =~= global);
    }
}

/// The general list stays as it is and in its order where it says something; what a list for a
/// repository says of the same environment fills in the label and the count that are missing, and
/// an environment is pinned where any of the lists says so. Environments that only those lists hold
/// follow.
pub proof fn law_lists_fill_in_each_other(global: Seq<EnvView>, by_repo: Seq<EnvView>, i: int)
    requires
        ids_differ(global),
        0 <= i < merged(global, by_repo).len(),
    ensures
        ({
            let m = merged(global, by_repo)[i];
            &&& merged(global, by_repo).len() >= global.len()
            &&& i < global.len() ==> {
                &&& m.id == global[i].id
                &&& global[i].label is Some ==> m.label == global[i].label
                &&& global[i].task_count is Some ==> m.task_count == global[i].task_count
                &&& global[i].is_pinned == Some(true) ==> m.is_pinned == Some(true)
                &&& !lists(by_repo, m.id) ==> m == global[i]
            }
            &&& forall|k: int|
                0 <= k < by_repo.len() && (#[trigger] by_repo[k]).id == m.id ==> {
                    &&& by_repo[k].is_pinned == Some(true) ==> m.is_pinned == Some(true)
                    &&& by_repo[k].label is Some ==> m.label is Some
                    &&& by_repo[k].task_count is Some ==> m.task_count is Some
                }
            &&& m.is_pinned == Some(true) ==> i < global.len() && global[i].is_pinned == Some(true)
                || exists|k: int|
                0 <= k < by_repo.len() && (#[trigger] by_repo[k]).id == m.id && by_repo[k].is_pinned
                    == Some(true)
            &&& m.label is Some ==> i < global.len() && global[i].label == m.label || exists|k: int|
                0 <= k < by_repo.len() && (#[trigger] by_repo[k]).id == m.id && by_repo[k].label
                    == m.label
        }),
    decreases by_repo.len(),
{
    if by_repo.len() == 0 {
        lemma_global_alone(global);
        assert(by_repo =~= Seq::<EnvView>::empty());
    } else {
        let t = by_repo.drop_last();
        let e = by_repo.last();
        let before = merged(global, t);
        let after = merged(global, by_repo);
        let p = place(before, e.id);
        lemma_place_bounds(before, e.id);
        law_merging_keeps_each_id_once(global, t);
        assert forall|k: int| 0 <= k < t.len() implies #[trigger] t[k] == by_repo[k] by {}
        lemma_global_len(global, t);
        let m = after[i];
        if i < before.len() {
            law_lists_fill_in_each_other(global, t, i);
            let b = before[i];
            assert(m.id == b.id);
            if i != p {
                assert(b.id != e.id) by {
                    if p < before.len() {
                        assert(before[p].id == e.id);
                    }
                }
                assert(m == b);
            }
            if m.is_pinned == Some(true) && !(i < global.len() && global[i].is_pinned == Some(
                true,
            )) {
                if b.is_pinned == Some(true) {
                    let k = choose|k: int|
                        0 <= k < t.len() && (#[trigger] t[k]).id == b.id && t[k].is_pinned == Some(
                            true,
                        );
                    assert(by_repo[k].id == m.id && by_repo[k].is_pinned == Some(true));
                } else {
                    assert(by_repo[by_repo.len() - 1] == e);
                }
            }
            if m.label is Some && !(i < global.len() && global[i].label == m.label) {
                if b.label is Some {
                    assert(b.label == m.label);
                    let k = choose|k: int|
                        0 <= k < t.len() && (#[trigger] t[k]).id == b.id && t[k].label == b.label;
                    assert(by_repo[k].id == m.id && by_repo[k].label == m.label);
                } else {
                    assert(by_repo[by_repo.len() - 1] == e);
                }
            }
            assert forall|k: int| 0 <= k < by_repo.len() && (#[trigger] by_repo[k]).id == m.id implies {
                &&& by_repo[k].is_pinned == Some(true) ==> m.is_pinned == Some(true)
                &&& by_repo[k].label is Some ==> m.label is Some
                &&& by_repo[k].task_count is Some ==> m.task_count is Some
            } by {
                if k < t.len() {
                    assert(t[k] == by_repo[k]);
                }
            }
            if i < global.len() && !lists(by_repo, m.id) {
                lemma_lists_last(by_repo, m.id);
            }
        } else {
            assert(m == e);
            assert(by_repo[by_repo.len() - 1] == e);
            assert forall|k: int| 0 <= k < by_repo.len() && (#[trigger] by_repo[k]).id == m.id implies {
                &&& by_repo[k].is_pinned == Some(true) ==> m.is_pinned == Some(true)
                &&& by_repo[k].label is Some ==> m.label is Some
                &&& by_repo[k].task_count is Some ==> m.task_count is Some
            } by {
                if k < t.len() {
                    assert(t[k].id == e.id);
                    assert(lists(t, e.id));
                    assert(lists(before, e.id));
                    let l = choose|l: int| 0 <= l < before.len() && (#[trigger] before[l]).id == e.id;
                    assert(false);
                }
            }
        }
    }
}

proof fn lemma_global_len(global: Seq<EnvView>, by_repo: Seq<EnvView>)
    requires
        ids_differ(global),
    ensures
        merged(global, by_repo).len() >= global.len(),
    decreases by_repo.len(),
{
    if by_repo.len() == 0 {
        lemma_global_alone(global);
        assert(by_repo =~= Seq::<EnvView>::empty());
    } else {
        lemma_global_len(global, by_repo.drop_last());
        lemma_place_bounds(merged(global, by_repo.drop_last()), by_repo.last().id);
    }
}

/// The remotes are the second words of the lines whose third word says that they are fetched from,
/// and no others; a further line leaves those before it alone.
pub proof fn law_remotes_are_those_that_are_fetched_from(ls: Seq<Seq<char>>, url: Seq<char>)
    ensures
        fetch_urls(ls).contains(url) <==> exists|i: int|
            0 <= i < ls.len() && words(#[trigger] ls[i]).len() >= 3 && words(ls[i])[1] == url
                && occurs(words(ls[i])[2], "(fetch)"@),
        ls.len() > 0 ==> fetch_urls(ls).take(fetch_urls(ls.drop_last()).len() as int) == fetch_urls(
            ls.drop_last(),
        ),
    decreases ls.len(),
{
    if ls.len() > 0 {
        let t = ls.drop_last();
        law_remotes_are_those_that_are_fetched_from(t, url);
        let before = fetch_urls(t);
        let all = fetch_urls(ls);
        assert(all.take(before.len() as int) =~= before);
        assert forall|i: int| 0 <= i < t.len() implies #[trigger] t[i] == ls[i] by {}
        let here = words(ls.last()).len() >= 3 && words(ls.last())[1] == url && occurs(
            words(ls.last())[2],
            "(fetch)"@,
        );
        if here {
            assert(ls[ls.len() - 1] == ls.last());
            assert(fetch_url(ls.last()) == Some(url));
            if !before.contains(url) {
                assert(all[all.len() - 1] == url);
            }
        }
        if before.contains(url) {
            let k = choose|k: int| 0 <= k < before.len() && before[k] == url;
            assert(all[k] == url);
            let i = choose|i: int|
                0 <= i < t.len() && words(#[trigger] t[i]).len() >= 3 && words(t[i])[1] == url
                    && occurs(words(t[i])[2], "(fetch)"@);
            assert(ls[i] == t[i]);
        }
        if all.contains(url) && !before.contains(url) {
            let k = choose|k: int| 0 <= k < all.len() && all[k] == url;
            assert(k == all.len() - 1) by {
                if k < before.len() {
                    assert(before[k] == url);
                }
            }
            assert(here);
        }
        if exists|i: int|
            0 <= i < ls.len() && words(#[trigger] ls[i]).len() >= 3 && words(ls[i])[1] == url
                && occurs(words(ls[i])[2], "(fetch)"@) {
            let i = choose|i: int|
                0 <= i < ls.len() && words(#[trigger] ls[i]).len() >= 3 && words(ls[i])[1] == url
                    && occurs(words(ls[i])[2], "(fetch)"@);
            if i < t.len() {
                assert(t[i] == ls[i]);
            }
        }
    } else {
        assert(fetch_urls(ls) =~= Seq::<Seq<char>>::empty());
    }
}

/// Owner and repository are two texts with something in them and no slash.
pub proof fn law_owner_and_repository_hold_no_slash(input: Seq<char>)
    ensures
        owner_repo(input) matches Some((o, r)) ==> o.len() > 0 && r.len() > 0 && !o.contains('/')
            && !r.contains('/'),
        remote_owner_repo(input) matches Some((o, r)) ==> !o.contains('/'),
{
    let s = bare(without_github(bare(trimmed(input))));
    law_pieces_make_up_the_text(s, '/');
    let url = trimmed(input);
    if has_prefix(url, "git@github.com:"@) {
        lemma_cut(url.skip("git@github.com:"@.len() as int));
    } else if has_prefix(url, "https://github.com/"@) {
        lemma_cut(url.skip("https://github.com/"@.len() as int));
    } else if has_prefix(url, "http://github.com/"@) {
        lemma_cut(url.skip("http://github.com/"@.len() as int));
    }
}

proof fn lemma_cut(rest: Seq<char>)
    ensures
        cut_path(rest) matches Some((o, r)) ==> !o.contains('/'),
{
    let s = suffix_trimmed(start_trimmed(rest, Class::Only('/')), ".git"@);
    lemma_first_of_bounds(s, '/');
    let o = before_first(s, '/');
    if o.contains('/') {
        let i = choose|i: int| 0 <= i < o.len() && o[i] == '/';
        assert(s[i] == '/');
    }
}

/// A remote that is not one of GitHub tells no repository.
pub proof fn law_other_hosts_tell_no_repository(url: Seq<char>)
    requires
        !occurs(url, "github.com"@),
    ensures
        remote_owner_repo(url) is None,
{
    let s = trimmed(url);
    let h = "github.com"@;
    law_trimming_takes_only_the_ends(url, Class::Space);
    let (i, j) = choose|i: int, j: int|
        0 <= i <= j <= url.len() && both_trimmed(url, Class::Space) == #[trigger] url.subrange(i, j)
            && (forall|l: int| 0 <= l < i || j <= l < url.len() ==> Class::Space.has(#[trigger] url[l]));
    reveal_strlit("github.com");
    reveal_strlit("git@github.com:");
    reveal_strlit("https://github.com/");
    reveal_strlit("http://github.com/");
    if has_prefix(s, "git@github.com:"@) {
        lemma_host_within(url, s, i, j, "git@github.com:"@, 4);
    }
    if has_prefix(s, "https://github.com/"@) {
        lemma_host_within(url, s, i, j, "https://github.com/"@, 8);
    }
    if has_prefix(s, "http://github.com/"@) {
        lemma_host_within(url, s, i, j, "http://github.com/"@, 7);
    }
}

proof fn lemma_host_within(
    url: Seq<char>,
    s: Seq<char>,
    i: int,
    j: int,
    p: Seq<char>,
    k: int,
)
    requires
        0 <= i <= j <= url.len(),
        s == url.subrange(i, j),
        has_prefix(s, p),
        0 <= k,
        k + "github.com"@.len() <= p.len(),
        p.subrange(k, k + "github.com"@.len()) =~= "github.com"@,
    ensures
        occurs(url, "github.com"@),
{
    let h = "github.com"@;
    assert(url.subrange(i + k, i + k + h.len()) =~= s.subrange(0, p.len() as int).subrange(
        k,
        k + h.len(),
    ));
    assert(stands_at(url, h, i + k));
}

/// The environments of a backend stand below its address: under ChatGPT's own path where the
/// address holds that path, and under the public one otherwise; those of a repository stand below
/// them, by owner and name.
pub proof fn law_environments_stand_below_the_backend(
    base: Seq<char>,
    owner: Seq<char>,
    repo: Seq<char>,
)
    ensures
        has_prefix(env_address(base), normalized(base)),
        occurs(normalized(base), "/backend-api"@) ==> has_suffix(
            env_address(base),
            "/wham/environments"@,
        ),
        !occurs(normalized(base), "/backend-api"@) ==> has_suffix(
            env_address(base),
            "/api/codex/environments"@,
        ),
        has_prefix(env_repo_address(base, owner, repo), env_address(base)),
        has_suffix(
            env_repo_address(base, owner, repo),
            "/by-repo/github/"@ + (owner + ("/"@ + repo)),
        ),
        has_suffix(repo_address(owner, repo), owner + ("/"@ + repo)),
        has_prefix(repo_address(owner, repo), "https://api.github.com/repos/"@),
{
    lemma_two_parts(normalized(base), "/wham/environments"@);
    lemma_two_parts(normalized(base), "/api/codex/environments"@);
    let a = env_address(base);
    let g = "/by-repo/github/"@;
    lemma_grouped(a + g + owner, "/"@, repo);
    lemma_grouped(a + g, owner, "/"@ + repo);
    lemma_grouped(a, g, owner + ("/"@ + repo));
    lemma_two_parts(a, g + (owner + ("/"@ + repo)));
    let h = "https://api.github.com/repos/"@;
    lemma_grouped(h + owner, "/"@, repo);
    lemma_grouped(h, owner, "/"@ + repo);
    lemma_two_parts(h, owner + ("/"@ + repo));
}

/// A failed request is reported with its method, its address, the status, and the text of the
/// answer at the end.
pub proof fn law_a_failed_request_is_reported(
    method: Seq<char>,
    url: Seq<char>,
    status: Seq<char>,
    body: Seq<char>,
)
    ensures
        has_prefix(failure_text(method, url, status, body), method + " "@ + url),
        occurs(failure_text(method, url, status, body), " failed: "@ + status),
        has_suffix(failure_text(method, url, status, body), "; body="@ + body),
{
    let x = method + " "@ + url;
    let f = " failed: "@ + status;
    let b = "; body="@ + body;
    lemma_grouped(x, " failed: "@, status);
    lemma_grouped(x + f, "; body="@, body);
    assert(failure_text(method, url, status, body) == x + f + b);
    lemma_grouped(x, f, b);
    lemma_two_parts(x, f + b);
    lemma_part_within(x, f, b);
    lemma_two_parts(x + f, b);
}

/// A text counts only where something is left of it once it is trimmed, and then as what is left.
pub proof fn law_blank_texts_do_not_count(s: Seq<char>)
    ensures
        filled(s) is Some <==> trimmed(s).len() > 0,
        filled(s) matches Some(t) ==> t == trimmed(s),
{
    law_nothing_is_left_of_a_blank_text(s);
}

/// The machine in the persisted state is the text at its place in it, trimmed; blank ones and
/// everything else than a text do not count.
pub proof fn law_the_machine_stands_in_the_state(state: Tree)
    ensures
        ({
            let t = at(
                state,
                seq!["electron-persisted-atom-state"@, "environment"@, "machine_id"@],
            );
            match machine_in_state(state) {
                Some(m) => t matches Some(x) && (text_in(x) matches Some(s) && m == trimmed(s)
                    && !is_blank(s)),
                None => t is None || text_in(t->0) is None || is_blank(text_in(t->0)->0),
            }
        }),
{
}

/// The number of a repository is the one under `id`, where it is one without a sign.
pub proof fn law_the_number_of_a_repository_is_its_id(d: Tree)
    ensures
        repo_number(d) matches Some(n) ==> 0 <= n <= u64::MAX && (member(d, "id"@) matches Some(t)
            && number_in(t, 0, u64::MAX as int) == Some(n)),
        repo_number(d) is None ==> member(d, "id"@) is None || number_in(
            member(d, "id"@)->0,
            0,
            u64::MAX as int,
        ) is None,
{
}

/// What is said of a selector that selects nothing names it.
pub proof fn law_a_bad_selector_is_named(s: Seq<char>)
    ensures
        occurs(EnvErrorView::NotFound(s).text(), s),
        occurs(EnvErrorView::Ambiguous(s).text(), s),
        EnvErrorView::NotFound(s).text() != EnvErrorView::Ambiguous(s).text(),
{
    lemma_part_within(
        "environment '"@,
        s,
        "' not found; run `cloudex env list` to see available environments"@,
    );
    lemma_part_within("environment label '"@, s, "' is ambiguous; use the environment id instead"@);
    reveal_strlit("environment '");
    reveal_strlit("environment label '");
    assert(EnvErrorView::NotFound(s).text()[12] == '\'');
    assert(EnvErrorView::Ambiguous(s).text()[12] == 'l');
}

/// The machine of a new environment is the one that the variable names, unless that is blank; else
/// the one of the persisted state; and else the general one. Nothing blank is ever taken.
pub proof fn law_the_named_machine_is_taken(variable: Option<Seq<char>>, state: Option<Seq<char>>)
    ensures
        variable matches Some(v) ==> (trimmed(v).len() > 0 ==> machine_for(variable, state)
            == trimmed(v)),
        variable is None || trimmed(variable->0).len() == 0 ==> {
            &&& state matches Some(s) ==> (machine_in_text(s) matches Some(m) ==> machine_for(
                variable,
                state,
            ) == m)
            &&& state is None || machine_in_text(state->0) is None ==> machine_for(variable, state)
                == "wham-public/wham-universal"@
        },
{
    match variable {
        Some(v) => law_nothing_is_left_of_a_blank_text(v),
        None => {},
    }
}

/// The token is that of the first variable that is set, trimmed; a blank one is none, even where
/// the second variable is set.
pub proof fn law_the_first_token_counts(github: Option<Seq<char>>, gh: Option<Seq<char>>)
    ensures
        github matches Some(t) ==> token_for(github, gh) == (if trimmed(t).len() > 0 {
            Some(trimmed(t))
        } else {
            None
        }),
        github is None ==> (gh matches Some(t) ==> token_for(github, gh) == (if trimmed(t).len()
            > 0 {
            Some(trimmed(t))
        } else {
            None
        })),
        github is None && gh is None ==> token_for(github, gh) is None,
{
    match github {
        Some(t) => law_nothing_is_left_of_a_blank_text(t),
        None => {},
    }
    match gh {
        Some(t) => law_nothing_is_left_of_a_blank_text(t),
        None => {},
    }
}

} // verus!
