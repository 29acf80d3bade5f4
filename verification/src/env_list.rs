//! Listing environments, and what a new one is made from.
use vstd::prelude::*;

use crate::auth::{normalize_base_url, normalized};
use crate::env_api::{is_wham, owner_repo, parse_owner_repo, EnvView, Environment};
use crate::number::{decimal, i64_text};
use crate::order::{
    in_order, is_order, law_sort_keeps_items, law_sort_orders, law_text_order_is_total,
    law_text_order_is_transitive, ordered, precedes, sort, text_before, Before, Ranked,
};
use crate::outcome::outcome;
use crate::row::{no_items, put_last, take_first};
use crate::text::{
    contains, has_prefix, has_suffix, lemma_grouped, lemma_part_within, lemma_two_parts, occurs,
    same,
};
use crate::unicode::lowercase;

verus! {

/// Whether an environment is listed before another: pinned ones first, then by label, then by id.
pub open spec fn env_before(a: EnvView, b: EnvView) -> bool {
    if a.pinned() != b.pinned() {
        a.pinned()
    } else if a.label_text() != b.label_text() {
        precedes(a.label_text(), b.label_text())
    } else {
        precedes(a.id, b.id)
    }
}

/// The order in which environments are listed.
pub open spec fn env_order() -> Before<EnvView> {
    |a: EnvView, b: EnvView| env_before(a, b)
}

impl Ranked for Environment {
    open spec fn order() -> Before<EnvView> {
        env_order()
    }

    fn is_before(&self, other: &Self) -> (r: bool) {
        if self.pinned() != other.pinned() {
            return self.pinned();
        }
        let a = self.label_text();
        let b = other.label_text();
        if !same(&a, &b) {
            return text_before(&a, &b);
        }
        text_before(&self.id, &other.id)
    }
}

/// The order in which environments are listed is an order.
pub proof fn law_environments_have_an_order()
    ensures
        is_order(env_order()),
{
    let f = env_order();
    assert forall|a: EnvView, b: EnvView| !(#[trigger] f(a, b) && f(b, a)) by {
        law_text_order_is_total(a.label_text(), b.label_text());
        law_text_order_is_total(a.id, b.id);
    }
    assert forall|a: EnvView, b: EnvView, c: EnvView|
        #![trigger f(a, b), f(b, c)]
        !f(a, b) && !f(b, c) implies !f(a, c) by {
        lemma_not_before(a.label_text(), b.label_text(), c.label_text());
        lemma_not_before(a.id, b.id, c.id);
    }
}

proof fn lemma_not_before(a: Seq<char>, b: Seq<char>, c: Seq<char>)
    ensures
        !precedes(a, b) && !precedes(b, c) ==> !precedes(a, c),
        !precedes(a, b) && a != b ==> precedes(b, a),
        !precedes(b, c) && b != c ==> precedes(c, b),
        !precedes(a, b) && !precedes(b, c) && a == c ==> a == b,
        !(precedes(a, c) && precedes(c, a)),
        !precedes(a, b) && !precedes(b, c) && (a != b || b != c) ==> precedes(c, a),
{
    law_text_order_is_total(a, b);
    law_text_order_is_total(b, c);
    law_text_order_is_total(a, c);
    if precedes(b, a) && precedes(c, b) {
        law_text_order_is_transitive(c, b, a);
    }
}

/// Whether an environment is listed under a filter, given the lower case of its id, of its label
/// and of the filter.
pub fn passes(id: &str, label: &str, filter: &str) -> (r: bool)
    ensures
        r == (occurs(id@, filter@) || occurs(label@, filter@)),
{
    contains(id, filter) || contains(label, filter)
}

/// Whether an environment is listed under a filter: where its id or its label holds it, in lower
/// case.
pub open spec fn is_listed(e: EnvView, filter: Option<Seq<char>>) -> bool {
    match filter {
        Some(f) => occurs(lowercase(e.id), lowercase(f)) || occurs(
            lowercase(e.label_text()),
            lowercase(f),
        ),
        None => true,
    }
}

/// Whether an environment is listed under a filter.
pub fn listed(e: &Environment, filter: Option<&str>) -> (r: bool)
    ensures
        r == is_listed(e.deep_view(), filter.deep_view()),
{
    match filter {
        Some(f) => passes(
            &e.id.as_str().to_lowercase(),
            &e.label_text().as_str().to_lowercase(),
            &f.to_lowercase(),
        ),
        None => true,
    }
}

/// The environments that pass a filter, in order.
pub open spec fn listing(envs: Seq<EnvView>, filter: Option<Seq<char>>) -> Seq<EnvView> {
    in_order(envs.filter(|e: EnvView| is_listed(e, filter)), env_order())
}

/// The environments to list: those that pass the filter, in order.
pub fn env_listing(envs: Vec<Environment>, filter: Option<&str>) -> (r: Vec<Environment>)
    ensures
        r.deep_view() == listing(envs.deep_view(), filter.deep_view()),
{
    let ghost all = envs.deep_view();
    let ghost p = |e: EnvView| is_listed(e, filter.deep_view());
    let mut rest = envs;
    let mut kept: Vec<Environment> = no_items();
    let ghost mut done: int = 0;
    assert(all.skip(0) =~= all);
    proof {
        reveal(Seq::filter);
        assert(kept.deep_view() =~= all.take(0).filter(p));
    }
    while rest.len() > 0
        invariant
            0 <= done <= all.len(),
            rest.deep_view() == all.skip(done),
            p == (|e: EnvView| is_listed(e, filter.deep_view())),
            kept.deep_view() == all.take(done).filter(p),
        decreases rest@.len(),
    {
        let e = take_first(&mut rest);
        proof {
            reveal(Seq::filter);
            assert(e.deep_view() == all[done]);
            assert(all.take(done + 1).drop_last() =~= all.take(done));
            assert(all.take(done + 1).last() == e.deep_view());
            assert(all.skip(done).drop_first() =~= all.skip(done + 1));
            done = done + 1;
        }
        if listed(&e, filter) {
            put_last(&mut kept, e);
        }
    }
    assert(all.take(done) =~= all);
    sort(kept)
}

/// The listing holds the environments that pass the filter, each as often as it was given, with
/// every pinned one in front of every other one and each part ordered by label and id.
pub proof fn law_the_listing_is_sorted(envs: Seq<EnvView>, filter: Option<Seq<char>>)
    ensures
        listing(envs, filter).to_multiset() == envs.filter(
            |e: EnvView| is_listed(e, filter),
        ).to_multiset(),
        ordered(listing(envs, filter), env_order()),
        forall|i: int, j: int|
            0 <= i < j < listing(envs, filter).len() && (#[trigger] listing(
                envs,
                filter,
            )[j]).pinned() ==> (#[trigger] listing(envs, filter)[i]).pinned(),
{
    let kept = envs.filter(|e: EnvView| is_listed(e, filter));
    law_environments_have_an_order();
    law_sort_keeps_items(kept, env_order());
    law_sort_orders(kept, env_order());
    let r = listing(envs, filter);
    assert forall|i: int, j: int|
        0 <= i < j < r.len() && (#[trigger] r[j]).pinned() implies (#[trigger] r[i]).pinned() by {
        assert(!env_order()(r[j], r[i]));
    }
}

/// How an environment is listed.
pub open spec fn env_row_text(e: EnvView) -> Seq<char> {
    (if e.pinned() {
        "*"@
    } else {
        " "@
    }) + " "@ + e.id + "\t"@ + e.label_text() + "\t"@ + (match e.task_count {
        Some(n) => decimal(n as int),
        None => Seq::empty(),
    })
}

/// How an environment is listed: whether it is pinned, its id, its label and its count of tasks.
pub fn env_row(e: &Environment) -> (r: String)
    ensures
        r@ == env_row_text(e.deep_view()),
{
    let mut s = if e.pinned() {
        "*".to_string()
    } else {
        " ".to_string()
    };
    s.append(" ");
    s.append(&e.id);
    s.append("\t");
    s.append(&e.label_text());
    s.append("\t");
    match e.task_count {
        Some(n) => {
            s.append(&i64_text(n));
        },
        None => {},
    }
    assert(s@ =~= env_row_text(e.deep_view()));
    s
}

/// Why a new environment cannot be described.
#[derive(Debug, Clone, Copy, PartialEq, Eq, Structural)]
pub enum CreateError {
    /// There is neither a label nor a repository.
    NoLabel,
    /// The repository is not of the form `owner/repo`.
    BadRepo,
}

impl CreateError {
    /// What is printed of the error.
    pub open spec fn text(self) -> Seq<char> {
        match self {
            CreateError::NoLabel =>
                "--label is required when --raw-json is not set (or pass --repo to use it as the label)"@,
            CreateError::BadRepo => "--repo must be in owner/repo form"@,
        }
    }

    /// What is printed of the error.
    pub fn message(&self) -> (r: String)
        ensures
            r@ == self.text(),
    {
        match self {
            CreateError::NoLabel =>
                "--label is required when --raw-json is not set (or pass --repo to use it as the label)".to_string(),
            CreateError::BadRepo => "--repo must be in owner/repo form".to_string(),
        }
    }
}

impl DeepView for CreateError {
    type V = CreateError;

    open spec fn deep_view(&self) -> CreateError {
        *self
    }
}

/// The label of a new environment, and its repository as owner and name.
pub open spec fn create_plan(label: Option<Seq<char>>, repo: Option<Seq<char>>) -> Result<
    (Seq<char>, Option<(Seq<char>, Seq<char>)>),
    CreateError,
> {
    if label is None && repo is None {
        Err(CreateError::NoLabel)
    } else if repo is Some && owner_repo(repo->0) is None {
        Err(CreateError::BadRepo)
    } else {
        Ok(
            (
                if label is Some {
                    label->0
                } else {
                    repo->0
                },
                if repo is Some {
                    owner_repo(repo->0)
                } else {
                    None
                },
            ),
        )
    }
}

/// The label of a new environment, and its repository as owner and name: the repository is the
/// label where none is given.
pub fn plan_create(label: Option<&str>, repo: Option<&str>) -> (r: Result<
    (String, Option<(String, String)>),
    CreateError,
>)
    ensures
        outcome(r) == create_plan(label.deep_view(), repo.deep_view()),
{
    let name = match label {
        Some(l) => l.to_string(),
        None => match repo {
            Some(r) => r.to_string(),
            None => {
                return Err(CreateError::NoLabel);
            },
        },
    };
    match repo {
        None => Ok((name, None)),
        Some(r) => match parse_owner_repo(r) {
            None => Err(CreateError::BadRepo),
            Some(p) => Ok((name, Some(p))),
        },
    }
}

/// What is sent to create an environment.
#[derive(Debug)]
pub struct EnvCreateBody {
    pub label: String,
    pub machine_id: Option<String>,
    pub repos: Option<Vec<String>>,
    /// Owner and name of the repository on GitHub.
    pub repo: Option<(String, String)>,
}

/// Whether creating an environment takes a machine and the selectors of repositories.
pub fn takes_machine(base_url: &str) -> (r: bool)
    ensures
        r == is_wham(base_url@),
{
    contains(&normalize_base_url(base_url), "/backend-api")
}

/// The machine that a request for a new environment names.
pub open spec fn body_machine(base_url: Seq<char>, machine_id: Seq<char>) -> Option<Seq<char>> {
    if is_wham(base_url) {
        Some(machine_id)
    } else {
        None
    }
}

/// The repositories that a request for a new environment selects.
pub open spec fn body_repos(base_url: Seq<char>, selector: Option<Seq<char>>) -> Option<
    Seq<Seq<char>>,
> {
    if is_wham(base_url) {
        Some(
            match selector {
                Some(s) => seq![s],
                None => Seq::empty(),
            },
        )
    } else {
        None
    }
}

/// What is sent to create an environment. The machine and the selector are sent only where the
/// base URL is that of ChatGPT.
pub fn create_body(
    base_url: &str,
    label: String,
    repo: Option<(String, String)>,
    machine_id: String,
    selector: Option<String>,
) -> (r: EnvCreateBody)
    ensures
        r.label == label,
        r.repo == repo,
        r.machine_id.deep_view() == body_machine(base_url@, machine_id@),
        r.repos.deep_view() == body_repos(base_url@, selector.deep_view()),
{
    if takes_machine(base_url) {
        let mut repos: Vec<String> = Vec::new();
        match selector {
            Some(s) => {
                repos.push(s);
                assert(repos.deep_view() =~= seq![s@]);
            },
            None => {
                assert(repos.deep_view() =~= Seq::<Seq<char>>::empty());
            },
        }
        EnvCreateBody { label, machine_id: Some(machine_id), repos: Some(repos), repo }
    } else {
        EnvCreateBody { label, machine_id: None, repos: None, repo }
    }
}

/// What is reported where the id of a repository cannot be found out.
pub open spec fn no_selector_text(owner: Seq<char>, repo: Seq<char>) -> Seq<char> {
    "failed to resolve GitHub repo id for "@ + owner + "/"@ + repo
        + "; set GITHUB_TOKEN or GH_TOKEN for private repos, or pass --raw-json with repos=[\"github-<id>\"]"@
}

/// What is reported where GitHub gives no selector for a repository.
pub fn selector_failure(owner: &str, repo: &str) -> (r: String)
    ensures
        r@ == no_selector_text(owner@, repo@),
{
    let mut s = "failed to resolve GitHub repo id for ".to_string();
    s.append(owner);
    s.append("/");
    s.append(repo);
    s.append(
        "; set GITHUB_TOKEN or GH_TOKEN for private repos, or pass --raw-json with repos=[\"github-<id>\"]",
    );
    s
}

/// An environment is listed just where it is given and passes the filter: its id or its label holds
/// the filter, all in lower case; without a filter every environment is listed.
pub proof fn law_environments_are_listed_by_id_or_label(
    envs: Seq<EnvView>,
    filter: Option<Seq<char>>,
    e: EnvView,
)
    ensures
        listing(envs, filter).contains(e) <==> envs.contains(e) && (filter matches Some(f) ==> (
        occurs(lowercase(e.id), lowercase(f)) || occurs(
            lowercase(
                match e.label {
                    Some(l) => l,
                    None => Seq::empty(),
                },
            ),
            lowercase(f),
        ))),
        filter is None ==> listing(envs, filter).to_multiset() == envs.to_multiset(),
        listing(envs, filter).len() <= envs.len(),
{
    broadcast use vstd::seq_lib::group_to_multiset_ensures;
    broadcast use vstd::seq_lib::group_filter_ensures;

    let p = |x: EnvView| is_listed(x, filter);
    let kept = envs.filter(p);
    let all = listing(envs, filter);
    law_sort_keeps_items(kept, env_order());
    envs.lemma_filter_len(p);
    assert(all.contains(e) <==> kept.contains(e)) by {
        assert(all.to_multiset().count(e) == kept.to_multiset().count(e));
    }
    if kept.contains(e) {
        envs.lemma_filter_contains_rev(p, e);
        let i = choose|i: int| 0 <= i < kept.len() && kept[i] == e;
        assert(p(kept[i]));
    }
    if envs.contains(e) && is_listed(e, filter) {
        let i = choose|i: int| 0 <= i < envs.len() && envs[i] == e;
        assert(p(envs[i]));
        assert(kept.contains(envs[i]));
    }
    if filter is None {
        lemma_all_kept(envs, p);
    }
}

proof fn lemma_all_kept(s: Seq<EnvView>, p: spec_fn(EnvView) -> bool)
    requires
        forall|i: int| 0 <= i < s.len() ==> p(#[trigger] s[i]),
    ensures
        s.filter(p) == s,
    decreases s.len(),
{
    reveal(Seq::filter);
    if s.len() > 0 {
        let t = s.drop_last();
        assert forall|i: int| 0 <= i < t.len() implies p(#[trigger] t[i]) by {
            assert(t[i] == s[i]);
        }
        assert(p(s[s.len() - 1]));
        lemma_all_kept(t, p);
        assert(s.drop_last().push(s.last()) =~= s);
    } else {
        assert(s.filter(p) =~= s);
    }
}

/// Pinned environments are listed first; those alike in that are listed by their labels, and those
/// with the same label by their ids.
pub proof fn law_environments_are_listed_by_pin_label_and_id(
    envs: Seq<EnvView>,
    filter: Option<Seq<char>>,
    i: int,
    j: int,
)
    requires
        0 <= i < j < listing(envs, filter).len(),
    ensures
        ({
            let a = listing(envs, filter)[i];
            let b = listing(envs, filter)[j];
            let la = match a.label {
                Some(l) => l,
                None => Seq::empty(),
            };
            let lb = match b.label {
                Some(l) => l,
                None => Seq::empty(),
            };
            &&& b.is_pinned == Some(true) ==> a.is_pinned == Some(true)
            &&& (a.is_pinned == Some(true) <==> b.is_pinned == Some(true)) ==> la == lb || precedes(
                la,
                lb,
            )
            &&& (a.is_pinned == Some(true) <==> b.is_pinned == Some(true)) && la == lb ==> a.id
                == b.id || precedes(a.id, b.id)
        }),
{
    law_the_listing_is_sorted(envs, filter);
    let s = listing(envs, filter);
    assert(!env_order()(s[j], s[i]));
    law_text_order_is_total(s[i].label_text(), s[j].label_text());
    law_text_order_is_total(s[i].id, s[j].id);
}

/// A row tells of an environment whether it is pinned, its id, its label, and how many tasks it
/// has.
pub proof fn law_a_row_tells_of_its_environment(e: EnvView)
    ensures
        e.is_pinned == Some(true) ==> has_prefix(env_row_text(e), "*"@ + " "@ + e.id + "\t"@),
        e.is_pinned != Some(true) ==> has_prefix(env_row_text(e), " "@ + " "@ + e.id + "\t"@),
        e.label matches Some(l) ==> (e.task_count matches Some(n) ==> has_suffix(
            env_row_text(e),
            "\t"@ + (l + ("\t"@ + decimal(n as int))),
        )),
        e.label matches Some(l) ==> (e.task_count is None ==> has_suffix(
            env_row_text(e),
            "\t"@ + (l + ("\t"@ + Seq::empty())),
        )),
        e.label is None ==> (e.task_count matches Some(n) ==> has_suffix(
            env_row_text(e),
            "\t"@ + decimal(n as int),
        )),
{
    let x = (if e.pinned() {
        "*"@
    } else {
        " "@
    }) + " "@ + e.id;
    let l = e.label_text();
    let n = match e.task_count {
        Some(n) => decimal(n as int),
        None => Seq::empty(),
    };
    let tab = "\t"@;
    assert(env_row_text(e) == x + tab + l + tab + n);
    lemma_grouped(x + tab + l, tab, n);
    lemma_two_parts(x + tab + l, tab + n);
    lemma_grouped(x + tab, l, tab + n);
    lemma_two_parts(x + tab, l + (tab + n));
    lemma_grouped(x, tab, l + (tab + n));
    lemma_two_parts(x, tab + (l + (tab + n)));
}

/// A new environment has the label that is given, and else the repository as its label; a
/// repository has to tell owner and name, and without label and repository there is none.
pub proof fn law_a_new_environment_needs_a_name(
    label: Option<Seq<char>>,
    repo: Option<Seq<char>>,
)
    ensures
        label is None && repo is None <==> create_plan(label, repo) == Err::<
            (Seq<char>, Option<(Seq<char>, Seq<char>)>),
            CreateError,
        >(CreateError::NoLabel),
        repo matches Some(r) ==> (owner_repo(r) is None <==> create_plan(label, repo) == Err::<
            (Seq<char>, Option<(Seq<char>, Seq<char>)>),
            CreateError,
        >(CreateError::BadRepo)),
        create_plan(label, repo) matches Ok((l, p)) ==> {
            &&& label matches Some(x) ==> l == x
            &&& label is None ==> repo == Some(l)
            &&& repo is None ==> p is None
            &&& repo matches Some(r) ==> p == owner_repo(r) && p is Some
        },
{
}

/// The service below `/backend-api` takes a machine and the repository that was selected, if any;
/// another one takes neither.
pub proof fn law_a_machine_and_a_repository_are_named(
    base_url: Seq<char>,
    machine_id: Seq<char>,
    selector: Option<Seq<char>>,
)
    ensures
        occurs(normalized(base_url), "/backend-api"@) <==> body_machine(base_url, machine_id) is Some,
        occurs(normalized(base_url), "/backend-api"@) <==> body_repos(base_url, selector) is Some,
        body_machine(base_url, machine_id) matches Some(m) ==> m == machine_id,
        body_repos(base_url, selector) matches Some(r) ==> {
            &&& selector matches Some(s) ==> r == seq![s]
            &&& selector is None ==> r.len() == 0
        },
{
}

/// Where the id of a repository cannot be found out, the report names the repository.
pub proof fn law_the_missing_repository_is_named(owner: Seq<char>, repo: Seq<char>)
    ensures
        occurs(no_selector_text(owner, repo), owner + ("/"@ + repo)),
        has_prefix(no_selector_text(owner, repo), "failed to resolve GitHub repo id for "@),
{
    let p = "failed to resolve GitHub repo id for "@;
    let e
        = "; set GITHUB_TOKEN or GH_TOKEN for private repos, or pass --raw-json with repos=[\"github-<id>\"]"@;
    lemma_grouped(p + owner, "/"@, repo);
    lemma_grouped(p, owner, "/"@ + repo);
    lemma_part_within(p, owner + ("/"@ + repo), e);
    lemma_grouped(p, owner + ("/"@ + repo), e);
    lemma_two_parts(p, owner + ("/"@ + repo) + e);
}

} // verus!
