//! Git worktrees: where they stand, and when one is made, reused or refused.
use vstd::prelude::*;

use crate::pieces::{
    law_a_piece_ends_at_its_separator, law_a_separator_parts_the_pieces, lemma_replaced_lacks,
    pieces, replace, replaced, split,
};
use crate::text::{
    both_trimmed, chars_of, end_trimmed, find, has_prefix, has_suffix, is_first, is_space,
    lemma_end_trimmed_shape, lemma_grouped, lemma_start_trimmed_shape, lemma_two_parts, occurs,
    same, stands_at, start_trimmed, strip_prefix, suffix_trimmed, text_of, trim, trim_both,
    trim_start, trim_suffix, trimmed, Class,
};

verus! {

/// Why there is no root.
#[derive(Clone, Copy, Debug, PartialEq, Eq, Structural)]
pub enum RootError {
    /// The directory is not inside a git repository.
    NotInside,
}

impl RootError {
    /// What the user is told.
    pub fn message(self) -> (r: String)
        ensures
            r@ == "not inside a git repository"@,
    {
        "not inside a git repository".to_string()
    }
}

/// The root of the repository: what `git rev-parse --show-toplevel` printed, where it succeeded.
/// Where it did not, the directory is not inside a git repository.
pub fn resolve_repo_root(toplevel: Option<&str>) -> (r: Result<String, RootError>)
    ensures
        match r {
            Ok(s) => toplevel is Some && s@ == trimmed(toplevel->0@),
            Err(RootError::NotInside) => toplevel is None,
        },
{
    match toplevel {
        Some(s) => Ok(trim(s)),
        None => Err(RootError::NotInside),
    }
}

/// Whether a part of a path names something: neither empty nor the directory itself.
pub open spec fn names_something(part: Seq<char>) -> bool {
    part.len() > 0 && part != "."@
}

/// The last of `parts` that names something.
pub open spec fn last_name(parts: Seq<Seq<char>>) -> Option<Seq<char>>
    decreases parts.len(),
{
    if parts.len() == 0 {
        None
    } else if names_something(parts.last()) {
        Some(parts.last())
    } else {
        last_name(parts.drop_last())
    }
}

/// The name of the last directory of a path, where it has one that is not `..`; `repo` otherwise.
pub open spec fn root_name(path: Seq<char>) -> Seq<char> {
    match last_name(pieces(path, '/')) {
        Some(name) => if name == ".."@ {
            "repo"@
        } else {
            name
        },
        None => "repo"@,
    }
}

/// The name of the repository whose root is `root`.
pub fn repo_name_from_root(root: &str) -> (r: String)
    ensures
        r@ == root_name(root@),
{
    let parts = split(root, '/');
    let mut i: usize = parts.len();
    let ghost p = parts.deep_view();
    assert(p.take(i as int) == p);
    while i > 0
        invariant
            p == parts.deep_view(),
            p == pieces(root@, '/'),
            i <= parts@.len(),
            last_name(p.take(i as int)) == last_name(p),
        decreases i,
    {
        let ghost t = p.take(i as int);
        assert(t.last() == parts@[i - 1]@);
        assert(t.drop_last() == p.take(i - 1));
        if !parts[i - 1].as_str().is_empty() && !same(&parts[i - 1], ".") {
            if same(&parts[i - 1], "..") {
                return "repo".to_string();
            }
            return parts[i - 1].clone();
        }
        i -= 1;
    }
    "repo".to_string()
}

/// The name of a directory that stands for a repository.
pub open spec fn slug_of(name: Seq<char>) -> Seq<char> {
    replaced(replaced(suffix_trimmed(trimmed(name), ".git"@), '/', "__"@), '\\', "__"@)
}

/// The name of a directory that stands for a repository.
pub fn normalize_repo_slug(owner_repo: &str) -> (r: String)
    ensures
        r@ == slug_of(owner_repo@),
{
    replace(&replace(&trim_suffix(&trim(owner_repo), ".git"), '/', "__"), '\\', "__")
}

/// The first two parts of a path, where there are two.
pub open spec fn first_two(path: Seq<char>) -> Option<Seq<char>> {
    let p = pieces(path, '/');
    if p.len() >= 2 {
        Some(p[0] + "/"@ + p[1])
    } else {
        None
    }
}

fn take_two(path: &str) -> (r: Option<String>)
    ensures
        r.deep_view() == first_two(path@),
{
    let parts = split(path, '/');
    assert(forall|i: int|
        0 <= i < parts@.len() ==> #[trigger] parts.deep_view()[i] == parts@[i]@);
    if parts.len() < 2 {
        return None;
    }
    let mut out = parts[0].clone();
    out.append("/");
    out.append(&parts[1]);
    Some(out)
}

/// What stands behind the first `github.com/` of `s`, without slashes in front of it.
pub open spec fn github_path(s: Seq<char>) -> Option<Seq<char>> {
    if occurs(s, "github.com/"@) {
        let i = choose|i: int| is_first(s, "github.com/"@, i);
        Some(start_trimmed(s.skip(i + "github.com/"@.len()), Class::Only('/')))
    } else {
        None
    }
}

pub proof fn lemma_first_is_unique(s: Seq<char>, p: Seq<char>, i: int, j: int)
    requires
        is_first(s, p, i),
        is_first(s, p, j),
    ensures
        i == j,
{
}

fn after_github(s: &str) -> (r: Option<String>)
    ensures
        r.deep_view() == github_path(s@),
{
    let v = chars_of(s);
    let w = chars_of("github.com/");
    let n: usize = v.len();
    match find(&v, &w) {
        None => None,
        Some(i) => {
            proof {
                assert(stands_at(s@, "github.com/"@, i as int));
                let c = choose|c: int| is_first(s@, "github.com/"@, c);
                lemma_first_is_unique(s@, "github.com/"@, i as int, c);
                assert(v@.subrange(i + w@.len(), v@.len() as int) == s@.skip(i + w@.len()));
            }
            Some(trim_start(&text_of(&v, i + w.len(), n), Class::Only('/')))
        },
    }
}

/// `owner/repo` of a GitHub remote: `git@github.com:owner/repo.git`,
/// `https://github.com/owner/repo.git`, `ssh://git@github.com/owner/repo.git`.
pub open spec fn github_owner_repo(remote: Seq<char>) -> Option<Seq<char>> {
    let r = trimmed(remote);
    let ssh = if has_prefix(r, "git@github.com:"@) {
        first_two(suffix_trimmed(r.skip("git@github.com:"@.len() as int), ".git"@))
    } else {
        None
    };
    match ssh {
        Some(x) => Some(x),
        None => match github_path(r) {
            Some(path) => first_two(suffix_trimmed(path, ".git"@)),
            None => None,
        },
    }
}

/// `owner/repo` of a GitHub remote.
pub fn parse_github_owner_repo(remote: &str) -> (r: Option<String>)
    ensures
        r.deep_view() == github_owner_repo(remote@),
{
    let r = trim(remote);
    if let Some(rest) = strip_prefix(&r, "git@github.com:") {
        if let Some(two) = take_two(&trim_suffix(&rest, ".git")) {
            return Some(two);
        }
    }
    match after_github(&r) {
        None => None,
        Some(path) => take_two(&trim_suffix(&path, ".git")),
    }
}

/// The slug of a repository: of its GitHub remote where it has one, else of its directory.
pub open spec fn repo_slug_of(remote: Option<Seq<char>>, root: Seq<char>) -> Seq<char> {
    match remote {
        Some(url) => match github_owner_repo(url) {
            Some(owner_repo) => slug_of(owner_repo),
            None => slug_of(root_name(root)),
        },
        None => slug_of(root_name(root)),
    }
}

/// The slug of a repository. `remote` is the URL of its remote `origin`, where git knows one.
pub fn repo_slug(remote: Option<&str>, repo_root: &str) -> (r: String)
    ensures
        r@ == repo_slug_of(
            match remote {
                Some(u) => Some(u@),
                None => None,
            },
            repo_root@,
        ),
{
    if let Some(url) = remote {
        if let Some(owner_repo) = parse_github_owner_repo(url) {
            return normalize_repo_slug(&owner_repo);
        }
    }
    normalize_repo_slug(&repo_name_from_root(repo_root))
}

/// The characters that a sanitized name is made of.
pub open spec fn is_plain(c: char) -> bool {
    ||| 'a' <= c <= 'z'
    ||| 'A' <= c <= 'Z'
    ||| '0' <= c <= '9'
    ||| c == '-'
    ||| c == '_'
    ||| c == '.'
}

/// `s` with an underscore in place of everything that is not plain.
pub open spec fn plain_text(s: Seq<char>) -> Seq<char> {
    s.map_values(
        |c: char|
            if is_plain(c) {
                c
            } else {
                '_'
            },
    )
}

/// A name for a directory: plain, without underscores at its ends, at most 80 characters long and
/// never empty.
pub open spec fn sanitized(s: Seq<char>) -> Seq<char> {
    let t = both_trimmed(plain_text(s), Class::Only('_'));
    if t.len() == 0 {
        "x"@
    } else if t.len() > 80 {
        t.take(80)
    } else {
        t
    }
}

/// A name for a directory made out of any text.
pub fn sanitize_component(s: &str) -> (r: String)
    ensures
        r@ == sanitized(s@),
{
    let v = chars_of(s);
    let mut out = String::new();
    let mut i: usize = 0;
    while i < v.len()
        invariant
            v@ == s@,
            i <= v@.len(),
            out@ == plain_text(s@).take(i as int),
        decreases v@.len() - i,
    {
        let c = v[i];
        if ('a' <= c && c <= 'z') || ('A' <= c && c <= 'Z') || ('0' <= c && c <= '9') || c == '-'
            || c == '_' || c == '.' {
            out.push(c);
        } else {
            out.push('_');
        }
        assert(plain_text(s@).take(i + 1) == plain_text(s@).take(i as int).push(
            plain_text(s@)[i as int],
        ));
        i += 1;
    }
    assert(plain_text(s@).take(i as int) == plain_text(s@));
    let out = trim_both(&out, Class::Only('_'));
    if out.as_str().is_empty() {
        return "x".to_string();
    }
    let w = chars_of(&out);
    if w.len() > 80 {
        assert(w@.subrange(0, 80) == w@.take(80));
        return text_of(&w, 0, 80);
    }
    out
}

/// `base` and `part` as one path. A part that starts with a slash is a path of its own.
pub open spec fn path_join(base: Seq<char>, part: Seq<char>) -> Seq<char> {
    if part.len() > 0 && part[0] == '/' {
        part
    } else if base.len() == 0 || base.last() == '/' {
        base + part
    } else {
        base + "/"@ + part
    }
}

/// `base` and `part` as one path.
pub fn join_path(base: &str, part: &str) -> (r: String)
    ensures
        r@ == path_join(base@, part@),
{
    let v = chars_of(base);
    let w = chars_of(part);
    if w.len() > 0 && w[0] == '/' {
        return part.to_string();
    }
    let mut out = base.to_string();
    if v.len() > 0 && v[v.len() - 1] != '/' {
        out.append("/");
    }
    out.append(part);
    out
}

/// The name of the worktree of a task, or of one attempt at it.
pub open spec fn worktree_name(task_id: Seq<char>, attempt: Option<Seq<char>>) -> Seq<char> {
    let name = "task_"@ + sanitized(task_id);
    match attempt {
        Some(a) => name + "_attempt_"@ + sanitized(a),
        None => name,
    }
}

/// Where the worktree of a task stands below the directory of worktrees.
pub open spec fn worktree_place(
    worktrees_root: Seq<char>,
    remote: Option<Seq<char>>,
    repo_root: Seq<char>,
    task_id: Seq<char>,
    attempt: Option<Seq<char>>,
) -> Seq<char> {
    path_join(
        path_join(worktrees_root, repo_slug_of(remote, repo_root)),
        worktree_name(task_id, attempt),
    )
}

/// Compute a deterministic worktree path under an explicit `worktrees_root`.
///
/// The final shape is:
///
///   `<worktrees_root>/<repo_slug>/task_<task_id>[_attempt_<selector>]`
///
/// `remote` is the URL of the remote `origin` of the repository, where git knows one.
pub fn worktree_path_in(
    worktrees_root: &str,
    remote: Option<&str>,
    repo_root: &str,
    task_id: &str,
    attempt: Option<&str>,
) -> (r: String)
    ensures
        r@ == worktree_place(
            worktrees_root@,
            remote.deep_view(),
            repo_root@,
            task_id@,
            attempt.deep_view(),
        ),
{
    let slug = repo_slug(remote, repo_root);
    let mut name = "task_".to_string();
    name.append(&sanitize_component(task_id));
    if let Some(a) = attempt {
        name.append("_attempt_");
        name.append(&sanitize_component(a));
    }
    join_path(&join_path(worktrees_root, &slug), &name)
}

/// A sanitized name is never empty, at most 80 characters long, plain throughout, and never starts
/// with an underscore.
pub proof fn law_sanitized_is_a_plain_name(s: Seq<char>)
    ensures
        1 <= sanitized(s).len() <= 80,
        forall|i: int| 0 <= i < sanitized(s).len() ==> is_plain(#[trigger] sanitized(s)[i]),
        sanitized(s)[0] != '_',
{
    reveal_strlit("x");
    let p = plain_text(s);
    let a = start_trimmed(p, Class::Only('_'));
    let t = both_trimmed(p, Class::Only('_'));
    lemma_start_trimmed_shape(p, Class::Only('_'));
    lemma_end_trimmed_shape(a, Class::Only('_'));
    if t.len() > 0 {
        assert(t[0] == a[0]);
    }
    assert forall|i: int| 0 <= i < t.len() implies is_plain(#[trigger] t[i]) by {
        assert(t[i] == a[i]);
        assert(a[i] == p[p.len() - a.len() + i]);
    }
}

/// A sanitized name is left as it is when it is sanitized again, unless it was cut short right
/// behind an underscore.
pub proof fn law_sanitizing_is_idempotent(s: Seq<char>)
    requires
        ({
            let t = both_trimmed(plain_text(s), Class::Only('_'));
            t.len() <= 80 || t[79] != '_'
        }),
    ensures
        sanitized(sanitized(s)) == sanitized(s),
{
    reveal_strlit("x");
    law_sanitized_is_a_plain_name(s);
    let n = sanitized(s);
    assert(plain_text(n) == n);
    let p = plain_text(s);
    let a = start_trimmed(p, Class::Only('_'));
    let t = both_trimmed(p, Class::Only('_'));
    lemma_start_trimmed_shape(p, Class::Only('_'));
    lemma_end_trimmed_shape(a, Class::Only('_'));
    if t.len() > 0 {
        assert(t[0] == a[0]);
    }
    assert(start_trimmed(n, Class::Only('_')) == n);
    assert(end_trimmed(n, Class::Only('_')) == n);
}

/// The name of a worktree starts with `task_` and holds no slash: it stands right under the
/// directory of its repository.
pub proof fn law_worktree_name_holds_no_slash(task_id: Seq<char>, attempt: Option<Seq<char>>)
    ensures
        has_prefix(worktree_name(task_id, attempt), "task_"@),
        !worktree_name(task_id, attempt).contains('/'),
{
    reveal_strlit("task_");
    reveal_strlit("_attempt_");
    law_sanitized_is_a_plain_name(task_id);
    if attempt is Some {
        law_sanitized_is_a_plain_name(attempt->0);
    }
    let n = worktree_name(task_id, attempt);
    assert(n.subrange(0, "task_"@.len() as int) == "task_"@);
    assert forall|i: int| 0 <= i < n.len() implies n[i] != '/' by {
        let k = "task_"@.len() as int;
        let m = k + sanitized(task_id).len();
        if k <= i < m {
            assert(n[i] == sanitized(task_id)[i - k]);
        } else if i >= m + "_attempt_"@.len() {
            assert(n[i] == sanitized(attempt->0)[i - m - "_attempt_"@.len()]);
        }
    }
}

/// The path of a worktree starts with the directory of worktrees, and the two names that are added
/// to it, one for the repository and one for the task, hold no slash.
pub proof fn law_a_worktree_stands_under_its_directory(
    worktrees_root: Seq<char>,
    remote: Option<Seq<char>>,
    repo_root: Seq<char>,
    task_id: Seq<char>,
    attempt: Option<Seq<char>>,
)
    ensures
        has_prefix(
            worktree_place(worktrees_root, remote, repo_root, task_id, attempt),
            worktrees_root,
        ),
        !repo_slug_of(remote, repo_root).contains('/'),
        !worktree_name(task_id, attempt).contains('/'),
{
    let slug = repo_slug_of(remote, repo_root);
    let name = worktree_name(task_id, attempt);
    let of = match remote {
        Some(url) => match github_owner_repo(url) {
            Some(owner_repo) => owner_repo,
            None => root_name(repo_root),
        },
        None => root_name(repo_root),
    };
    reveal_strlit("__");
    let t = suffix_trimmed(trimmed(of), ".git"@);
    lemma_replaced_lacks(t, '/', "__"@, '/');
    lemma_replaced_lacks(replaced(t, '/', "__"@), '\\', "__"@, '/');
    law_worktree_name_holds_no_slash(task_id, attempt);
    if slug.len() > 0 {
        assert(slug.contains(slug[0]));
    }
    if name.len() > 0 {
        assert(name.contains(name[0]));
    }
    let r = worktree_place(worktrees_root, remote, repo_root, task_id, attempt);
    assert(r.subrange(0, worktrees_root.len() as int) =~= worktrees_root);
}

/// Whether a text is a name of one directory: not empty, without a slash, and neither `.` nor `..`.
pub open spec fn is_dir_name(s: Seq<char>) -> bool {
    s.len() > 0 && !s.contains('/') && s != "."@ && s != ".."@
}

/// A repository is called after the last directory of its root, whether a slash or a dot follows or
/// not.
pub proof fn law_a_repository_is_called_after_its_directory(dir: Seq<char>, name: Seq<char>)
    requires
        is_dir_name(name),
    ensures
        root_name(name) == name,
        root_name(dir + seq!['/'] + name) == name,
        root_name(dir + seq!['/'] + name + seq!['/'] + Seq::empty()) == name,
        root_name(dir + seq!['/'] + name + seq!['/'] + "."@) == name,
        root_name(Seq::empty()) == "repo"@,
        root_name(dir + seq!['/'] + ".."@) == "repo"@,
{
    let none = Seq::<char>::empty();
    let path = dir + seq!['/'] + name;
    reveal_strlit(".");
    reveal_strlit("..");
    reveal_strlit("repo");
    law_a_piece_ends_at_its_separator(name, '/', none);
    law_a_piece_ends_at_its_separator(none, '/', none);
    law_a_piece_ends_at_its_separator("."@, '/', none);
    law_a_piece_ends_at_its_separator(".."@, '/', none);
    law_a_separator_parts_the_pieces(dir, '/', name);
    law_a_separator_parts_the_pieces(dir, '/', ".."@);
    law_a_separator_parts_the_pieces(path, '/', none);
    law_a_separator_parts_the_pieces(path, '/', "."@);
    let p = pieces(path, '/');
    assert(p.last() == name);
    assert(last_name(p) == Some(name));
    let q = pieces(path + seq!['/'] + none, '/');
    assert(q.last() == none);
    assert(q.drop_last() =~= p);
    let r = pieces(path + seq!['/'] + "."@, '/');
    assert(r.last() == "."@);
    assert(r.drop_last() =~= p);
    assert(last_name(seq![name]) == Some(name));
    let u = pieces(dir + seq!['/'] + ".."@, '/');
    assert(u.last() == ".."@);
    assert(last_name(u) == Some(".."@));
    assert(seq![none].drop_last() =~= Seq::<Seq<char>>::empty());
    assert(last_name(Seq::<Seq<char>>::empty()) is None);
    assert(last_name(seq![none]) is None);
}

proof fn lemma_no_replacing(s: Seq<char>, c: char, by: Seq<char>)
    requires
        forall|i: int| 0 <= i < s.len() ==> (#[trigger] s[i]) != c,
    ensures
        replaced(s, c, by) == s,
    decreases s.len(),
{
    if s.len() > 0 {
        lemma_no_replacing(s.drop_last(), c, by);
        assert(s.drop_last().push(s.last()) =~= s);
    }
}

/// A repository without a remote on GitHub gets a directory named as its own one is, where that is
/// a plain name.
pub proof fn law_without_github_the_directory_names_the_slug(
    remote: Option<Seq<char>>,
    dir: Seq<char>,
    name: Seq<char>,
)
    requires
        is_dir_name(name),
        forall|i: int| 0 <= i < name.len() ==> is_plain(#[trigger] name[i]),
        !has_suffix(name, ".git"@),
        remote matches Some(url) ==> github_owner_repo(url) is None,
    ensures
        repo_slug_of(remote, dir + seq!['/'] + name) == name,
{
    law_a_repository_is_called_after_its_directory(dir, name);
    assert(!is_space(name[0]));
    assert(is_plain(name[name.len() - 1]));
    assert(!is_space(name.last()));
    assert(start_trimmed(name, Class::Space) == name);
    assert(end_trimmed(name, Class::Space) == name);
    assert(suffix_trimmed(name, ".git"@) == name);
    lemma_no_replacing(name, '/', "__"@);
    lemma_no_replacing(name, '\\', "__"@);
}

/// A plain name of up to 80 characters without underscores at its ends is kept as it is; in any
/// other one each character that is not plain counts as an underscore.
pub proof fn law_a_plain_name_is_kept(s: Seq<char>, i: int)
    ensures
        0 < s.len() <= 80 && s[0] != '_' && s.last() != '_' && (forall|k: int|
            0 <= k < s.len() ==> is_plain(#[trigger] s[k])) ==> sanitized(s) == s,
        plain_text(s).len() == s.len(),
        0 <= i < s.len() ==> plain_text(s)[i] == if is_plain(s[i]) {
            s[i]
        } else {
            '_'
        },
        sanitized(plain_text(s)) == sanitized(s),
        has_prefix(both_trimmed(plain_text(s), Class::Only('_')), sanitized(s)) || sanitized(s)
            == "x"@,
{
    let k = Class::Only('_');
    assert(plain_text(plain_text(s)) =~= plain_text(s));
    if 0 < s.len() <= 80 && s[0] != '_' && s.last() != '_' && (forall|k: int|
        0 <= k < s.len() ==> is_plain(#[trigger] s[k])) {
        assert(plain_text(s) =~= s);
        assert(start_trimmed(s, k) == s);
        assert(end_trimmed(s, k) == s);
    }
    let t = both_trimmed(plain_text(s), k);
    assert(t.subrange(0, t.len() as int) =~= t);
    if t.len() > 80 {
        assert(t.subrange(0, 80) =~= t.take(80));
    }
}

/// Letters, digits, the dash, the underscore and the full stop are plain, and nothing else is: no
/// slash, no white space, and no character beyond ASCII.
pub proof fn law_plain_characters_are_safe_in_names(c: char)
    ensures
        'a' <= c && c <= 'z' || 'A' <= c && c <= 'Z' || '0' <= c && c <= '9' ==> is_plain(c),
        is_plain('-') && is_plain('_') && is_plain('.'),
        is_plain(c) ==> c != '/' && c != '\\' && c != ':' && c != '~' && !is_space(c) && (c as u32)
            < 128,
{
}

/// A part below a directory stands behind it with one slash between them, and a part that starts
/// with a slash stands alone.
pub proof fn law_paths_are_joined_with_one_slash(base: Seq<char>, part: Seq<char>)
    ensures
        has_suffix(path_join(base, part), part),
        part.len() > 0 && part[0] == '/' ==> path_join(base, part) == part,
        part.len() == 0 || part[0] != '/' ==> {
            &&& has_prefix(path_join(base, part), base)
            &&& base.len() > 0 && base.last() == '/' ==> path_join(base, part).len() == base.len()
                + part.len()
            &&& base.len() > 0 && base.last() != '/' ==> path_join(base, part) == base + "/"@ + part
            &&& base.len() == 0 ==> path_join(base, part) == part
        },
{
    lemma_two_parts(base, part);
    lemma_two_parts(base + "/"@, part);
    lemma_grouped(base, "/"@, part);
    lemma_two_parts(base, "/"@ + part);
    assert(part.subrange(0, part.len() as int) =~= part);
    assert(Seq::<char>::empty() + part =~= part);
    if base.len() == 0 {
        assert(base + part =~= part);
    }
}

/// The worktree of a task is named after the task; that of an attempt is named after both.
pub proof fn law_a_worktree_is_named_after_its_task(task_id: Seq<char>, a: Seq<char>)
    ensures
        worktree_name(task_id, None) == "task_"@ + sanitized(task_id),
        has_prefix(worktree_name(task_id, Some(a)), worktree_name(task_id, None) + "_attempt_"@),
        has_suffix(worktree_name(task_id, Some(a)), sanitized(a)),
        worktree_name(task_id, Some(a)).len() == worktree_name(task_id, None).len()
            + "_attempt_"@.len() + sanitized(a).len(),
{
    lemma_two_parts(worktree_name(task_id, None) + "_attempt_"@, sanitized(a));
}

/// A worktree stands in the directory of its repository, which stands in that of all worktrees.
pub proof fn law_a_worktree_stands_in_its_repository(
    base: Seq<char>,
    remote: Option<Seq<char>>,
    root: Seq<char>,
    task_id: Seq<char>,
    attempt: Option<Seq<char>>,
)
    requires
        base.len() > 0,
        base.last() != '/',
        repo_slug_of(remote, root).len() > 0,
    ensures
        worktree_place(base, remote, root, task_id, attempt) == base + "/"@ + repo_slug_of(
            remote,
            root,
        ) + "/"@ + worktree_name(task_id, attempt),
{
    law_a_worktree_stands_under_its_directory(base, remote, root, task_id, attempt);
    let slug = repo_slug_of(remote, root);
    let name = worktree_name(task_id, attempt);
    assert(slug.contains(slug[0]));
    assert(slug.contains(slug.last()));
    law_worktree_name_holds_no_slash(task_id, attempt);
    if name.len() > 0 {
        assert(name.contains(name[0]));
    }
    law_paths_are_joined_with_one_slash(base, slug);
    let dir = base + "/"@ + slug;
    assert(dir.last() == slug.last());
    law_paths_are_joined_with_one_slash(dir, name);
}

} // verus!
