//! The forms in which a repository on GitHub can be named: each leads to its owner and its name.
use vstd::prelude::*;

use crate::env_api::{bare, cut_path, owner_repo, remote_owner_repo, without_github};
use crate::pieces::{after_first, before_first, first_of, lemma_first_of, pieces, replaced};
use crate::text::{
    both_trimmed, end_trimmed, has_prefix, has_suffix, is_first, is_space, stands_at, start_trimmed,
    suffix_trimmed, trimmed, Class,
};
use crate::worktree::{
    first_two, github_owner_repo, github_path, is_plain, lemma_first_is_unique, repo_slug_of,
    slug_of,
};

verus! {

/// Whether a text can be the name of an owner or of a repository: letters, digits, `-`, `_` and
/// `.`, and at least one of them.
pub open spec fn is_name(s: Seq<char>) -> bool {
    s.len() > 0 && forall|i: int| 0 <= i < s.len() ==> is_plain(#[trigger] s[i])
}

/// Whether two texts name an owner and a repository. The name of a repository does not end with
/// `.git`.
pub open spec fn is_repo(owner: Seq<char>, repo: Seq<char>) -> bool {
    is_name(owner) && is_name(repo) && !has_suffix(repo, ".git"@)
}

/// `owner/repo`.
pub open spec fn repo_path(owner: Seq<char>, repo: Seq<char>) -> Seq<char> {
    owner + "/"@ + repo
}

/// Whether a text can stand behind a path: nothing, or `.git`.
pub open spec fn is_ending(s: Seq<char>) -> bool {
    s.len() == 0 || s == ".git"@
}

/// Whether a text can stand in front of the path of a remote.
pub open spec fn is_github_start(s: Seq<char>) -> bool {
    s == "git@github.com:"@ || s == "https://github.com/"@ || s == "http://github.com/"@
}

proof fn lemma_starts()
    ensures
        "git@github.com:"@.len() == 15,
        "git@github.com:"@[0] == 'g',
        "git@github.com:"@[14] == ':',
        "https://github.com/"@.len() == 19,
        "https://github.com/"@[0] == 'h',
        "https://github.com/"@[4] == 's',
        "https://github.com/"@[5] == ':',
        "http://github.com/"@.len() == 18,
        "http://github.com/"@[0] == 'h',
        "http://github.com/"@[4] == ':',
        "ssh://git@github.com/"@.len() == 21,
        "ssh://git@github.com/"@[0] == 's',
        ".git"@ == seq!['.', 'g', 'i', 't'],
        "/"@ == seq!['/'],
{
    reveal_strlit("git@github.com:");
    reveal_strlit("https://github.com/");
    reveal_strlit("http://github.com/");
    reveal_strlit("ssh://git@github.com/");
    reveal_strlit(".git");
    reveal_strlit("/");
    assert(".git"@ =~= seq!['.', 'g', 'i', 't']);
    assert("/"@ =~= seq!['/']);
}

proof fn lemma_path_chars(owner: Seq<char>, repo: Seq<char>, i: int)
    requires
        is_repo(owner, repo),
        0 <= i < repo_path(owner, repo).len(),
    ensures
        is_plain(repo_path(owner, repo)[i]) || repo_path(owner, repo)[i] == '/',
        !is_space(repo_path(owner, repo)[i]),
{
    lemma_starts();
    let p = repo_path(owner, repo);
    if i < owner.len() {
        assert(p[i] == owner[i]);
    } else if i > owner.len() {
        assert(p[i] == repo[i - owner.len() - 1]);
    }
}

proof fn lemma_untrimmed(s: Seq<char>, k: Class)
    requires
        s.len() > 0,
        !k.has(s[0]),
        !k.has(s.last()),
    ensures
        start_trimmed(s, k) == s,
        end_trimmed(s, k) == s,
        both_trimmed(s, k) == s,
{
}

/// A path behind anything that is not ended by `.git` is not ended so itself.
proof fn lemma_no_ending(pre: Seq<char>, owner: Seq<char>, repo: Seq<char>)
    requires
        is_repo(owner, repo),
    ensures
        !has_suffix(pre + repo_path(owner, repo), ".git"@),
{
    lemma_starts();
    let g = ".git"@;
    let s = pre + repo_path(owner, repo);
    if has_suffix(s, g) {
        let n = s.len() - 4;
        let t = s.subrange(n, s.len() as int);
        if repo.len() >= 4 {
            assert(repo.subrange(repo.len() - 4, repo.len() as int) =~= t);
        } else {
            let i = 4 - repo.len() - 1;
            assert(t[i] == s[n + i]);
            assert(s[n + i] == '/');
            assert(g[i] == '/');
        }
    }
}

proof fn lemma_ending(x: Seq<char>, post: Seq<char>)
    requires
        !has_suffix(x, ".git"@),
        is_ending(post),
    ensures
        suffix_trimmed(x + post, ".git"@) == x,
{
    lemma_starts();
    if post.len() > 0 {
        let s = x + post;
        assert(s.subrange(s.len() - 4, s.len() as int) =~= ".git"@);
        assert(s.take(s.len() - 4) =~= x);
        assert(suffix_trimmed(x, ".git"@) == x);
    } else {
        assert(x + post =~= x);
    }
}

proof fn lemma_pieces(owner: Seq<char>, repo: Seq<char>)
    requires
        is_repo(owner, repo),
    ensures
        first_of(repo_path(owner, repo), '/') == owner.len(),
        pieces(repo_path(owner, repo), '/') == seq![owner, repo],
        repo_path(owner, repo).take(owner.len() as int) == owner,
        repo_path(owner, repo).skip(owner.len() as int + 1) == repo,
{
    lemma_starts();
    let p = repo_path(owner, repo);
    assert forall|j: int| 0 <= j < owner.len() implies p[j] != '/' by {
        assert(p[j] == owner[j]);
    }
    lemma_first_of(p, '/', owner.len() as int);
    lemma_first_of(repo, '/', repo.len() as int);
    assert(p.take(owner.len() as int) =~= owner);
    assert(p.skip(owner.len() as int + 1) =~= repo);
    assert(pieces(repo, '/') == seq![repo]);
    assert(pieces(p, '/') =~= seq![owner, repo]);
}

/// A path with anything around it that is in order: nothing is trimmed but the ending.
proof fn lemma_whole(pre: Seq<char>, owner: Seq<char>, repo: Seq<char>, post: Seq<char>)
    requires
        is_repo(owner, repo),
        is_ending(post),
        pre.len() == 0 || !is_space(pre[0]) && pre[0] != '/',
    ensures
        trimmed(pre + repo_path(owner, repo) + post) == pre + repo_path(owner, repo) + post,
        both_trimmed(pre + repo_path(owner, repo) + post, Class::Only('/')) == pre + repo_path(
            owner,
            repo,
        ) + post,
        start_trimmed(pre + repo_path(owner, repo) + post, Class::Only('/')) == pre + repo_path(
            owner,
            repo,
        ) + post,
        suffix_trimmed(pre + repo_path(owner, repo) + post, ".git"@) == pre + repo_path(owner, repo),
{
    lemma_starts();
    let p = repo_path(owner, repo);
    let s = pre + p + post;
    lemma_no_ending(pre, owner, repo);
    lemma_ending(pre + p, post);
    if pre.len() == 0 {
        assert(s[0] == owner[0]);
    } else {
        assert(s[0] == pre[0]);
    }
    if post.len() == 0 {
        assert(s.last() == repo.last());
        assert(is_plain(repo[repo.len() - 1]));
    } else {
        assert(s.last() == 't');
    }
    lemma_untrimmed(s, Class::Space);
    lemma_untrimmed(s, Class::Only('/'));
}

proof fn lemma_no_start(owner: Seq<char>, repo: Seq<char>)
    requires
        is_repo(owner, repo),
    ensures
        without_github(repo_path(owner, repo)) == repo_path(owner, repo),
{
    lemma_starts();
    let p = repo_path(owner, repo);
    let a = "git@github.com:"@;
    let b = "https://github.com/"@;
    let c = "http://github.com/"@;
    if has_prefix(p, a) {
        lemma_path_chars(owner, repo, 14);
        assert(p.subrange(0, 15)[14] == a[14]);
    }
    if has_prefix(p, b) {
        lemma_path_chars(owner, repo, 5);
        assert(p.subrange(0, 19)[5] == b[5]);
    }
    if has_prefix(p, c) {
        lemma_path_chars(owner, repo, 4);
        assert(p.subrange(0, 18)[4] == c[4]);
    }
}

/// Behind one of the three starts stands what follows it.
proof fn lemma_start(pre: Seq<char>, rest: Seq<char>)
    requires
        is_github_start(pre),
    ensures
        has_prefix(pre + rest, pre),
        (pre + rest).skip(pre.len() as int) == rest,
        without_github(pre + rest) == rest,
        pre != "git@github.com:"@ ==> !has_prefix(pre + rest, "git@github.com:"@),
        pre == "http://github.com/"@ ==> !has_prefix(pre + rest, "https://github.com/"@),
{
    lemma_starts();
    let s = pre + rest;
    assert(s.subrange(0, pre.len() as int) =~= pre);
    assert(s.skip(pre.len() as int) =~= rest);
    let a = "git@github.com:"@;
    let b = "https://github.com/"@;
    if pre != a && has_prefix(s, a) {
        assert(s.subrange(0, 15)[0] == a[0]);
        assert(s[0] == pre[0]);
    }
    if pre == "http://github.com/"@ && has_prefix(s, b) {
        assert(s.subrange(0, 19)[4] == b[4]);
        assert(s[4] == pre[4]);
    }
}

/// A repository is told by `owner/repo`, by its address on GitHub and by its remote there, each
/// with `.git` at its end or without.
pub proof fn law_a_repository_is_told_by_its_path(
    pre: Seq<char>,
    owner: Seq<char>,
    repo: Seq<char>,
    post: Seq<char>,
)
    requires
        is_repo(owner, repo),
        pre.len() == 0 || is_github_start(pre),
        is_ending(post),
    ensures
        owner_repo(pre + repo_path(owner, repo) + post) == Some((owner, repo)),
{
    let p = repo_path(owner, repo);
    let none = Seq::<char>::empty();
    assert(pre.len() == 0 || !is_space(pre[0]) && pre[0] != '/') by {
        lemma_starts();
    }
    assert(bare(trimmed(pre + p + post)) == pre + p) by {
        lemma_whole(pre, owner, repo, post);
    }
    assert(without_github(pre + p) == p) by {
        if pre.len() > 0 {
            lemma_start(pre, p);
        } else {
            assert(pre + p =~= p);
            lemma_no_start(owner, repo);
        }
    }
    assert(bare(p) == p) by {
        lemma_whole(none, owner, repo, none);
        assert(none + p + none =~= p);
        assert(none + p =~= p);
    }
    lemma_pieces(owner, repo);
}

/// The remote of a repository on GitHub tells its owner and its name, with `.git` at its end or
/// without.
pub proof fn law_a_remote_tells_its_repository(
    pre: Seq<char>,
    owner: Seq<char>,
    repo: Seq<char>,
    post: Seq<char>,
)
    requires
        is_repo(owner, repo),
        is_github_start(pre),
        is_ending(post),
    ensures
        remote_owner_repo(pre + repo_path(owner, repo) + post) == Some((owner, repo)),
{
    lemma_starts();
    let p = repo_path(owner, repo);
    let none = Seq::<char>::empty();
    lemma_whole(pre, owner, repo, post);
    assert(pre + p + post =~= pre + (p + post));
    lemma_start(pre, p + post);
    lemma_whole(none, owner, repo, post);
    assert(none + p + post =~= p + post);
    assert(none + p =~= p);
    lemma_pieces(owner, repo);
    assert(p[owner.len() as int] == '/');
    assert(before_first(p, '/') == owner);
    assert(after_first(p, '/') == repo);
    assert(cut_path(p + post) == Some((owner, repo)));
}

proof fn lemma_replaced_sum(a: Seq<char>, b: Seq<char>, c: char, by: Seq<char>)
    ensures
        replaced(a + b, c, by) == replaced(a, c, by) + replaced(b, c, by),
    decreases b.len(),
{
    if b.len() == 0 {
        assert(a + b =~= a);
        assert(replaced(a, c, by) + replaced(b, c, by) =~= replaced(a, c, by));
    } else {
        let t = b.drop_last();
        lemma_replaced_sum(a, t, c, by);
        assert((a + b).drop_last() =~= a + t);
        assert(replaced(a + b, c, by) =~= replaced(a, c, by) + replaced(b, c, by));
    }
}

proof fn lemma_nothing_replaced(s: Seq<char>, c: char, by: Seq<char>)
    requires
        forall|i: int| 0 <= i < s.len() ==> (#[trigger] s[i]) != c,
    ensures
        replaced(s, c, by) == s,
    decreases s.len(),
{
    if s.len() > 0 {
        lemma_nothing_replaced(s.drop_last(), c, by);
        assert(s.drop_last().push(s.last()) =~= s);
    }
}

proof fn lemma_slug(owner: Seq<char>, repo: Seq<char>)
    requires
        is_repo(owner, repo),
    ensures
        slug_of(repo_path(owner, repo)) == owner + "__"@ + repo,
{
    lemma_starts();
    reveal_strlit("__");
    let p = repo_path(owner, repo);
    let none = Seq::<char>::empty();
    let u = "__"@;
    lemma_whole(none, owner, repo, none);
    assert(none + p + none =~= p);
    assert(none + p =~= p);
    lemma_replaced_sum(owner + "/"@, repo, '/', u);
    lemma_replaced_sum(owner, "/"@, '/', u);
    lemma_nothing_replaced(owner, '/', u);
    lemma_nothing_replaced(repo, '/', u);
    assert("/"@.drop_last() =~= none);
    assert(replaced(none, '/', u) == none);
    assert(replaced("/"@, '/', u) =~= u);
    let s = owner + u + repo;
    assert(replaced(p, '/', u) =~= s);
    assert forall|i: int| 0 <= i < s.len() implies (#[trigger] s[i]) != '\\' by {
        if i < owner.len() {
            assert(s[i] == owner[i]);
        } else if i >= owner.len() + 2 {
            assert(s[i] == repo[i - owner.len() - 2]);
        } else {
            assert(s[i] == u[i - owner.len()]);
        }
    }
    lemma_nothing_replaced(s, '\\', u);
}

/// Behind the first `github.com/` stands what follows it.
proof fn lemma_host(pre: Seq<char>, rest: Seq<char>)
    requires
        pre == "https://github.com/"@ || pre == "http://github.com/"@ || pre
            == "ssh://git@github.com/"@,
        rest.len() > 0,
        rest[0] != '/',
    ensures
        github_path(pre + rest) == Some(rest),
        !has_prefix(pre + rest, "git@github.com:"@),
{
    lemma_starts();
    reveal_strlit("https://github.com/");
    reveal_strlit("http://github.com/");
    reveal_strlit("ssh://git@github.com/");
    reveal_strlit("github.com/");
    let h = "github.com/"@;
    let s = pre + rest;
    let k = pre.len() - 11;
    assert(s.subrange(k, k + 11) =~= h);
    assert(stands_at(s, h, k));
    assert forall|j: int| 0 <= j < k implies !stands_at(s, h, j) by {
        if stands_at(s, h, j) {
            let t = s.subrange(j, j + 11);
            assert(t[0] == s[j] && s[j] == pre[j]);
            assert(t[3] == s[j + 3]);
            assert(t[0] == 'g' && t[3] == 'h');
            assert(s[j + 3] == pre[j + 3]);
        }
    }
    assert(is_first(s, h, k));
    let i = choose|i: int| is_first(s, h, i);
    lemma_first_is_unique(s, h, k, i);
    assert(s.skip(k + 11) =~= rest);
    assert(start_trimmed(rest, Class::Only('/')) == rest);
    if has_prefix(s, "git@github.com:"@) {
        assert(s.subrange(0, 15)[0] == 'g');
        assert(s[0] == pre[0]);
    }
}

proof fn lemma_first_two(owner: Seq<char>, repo: Seq<char>)
    requires
        is_repo(owner, repo),
    ensures
        first_two(repo_path(owner, repo)) == Some(repo_path(owner, repo)),
{
    lemma_pieces(owner, repo);
}

proof fn lemma_remote_path(pre: Seq<char>, owner: Seq<char>, repo: Seq<char>, post: Seq<char>)
    requires
        is_repo(owner, repo),
        is_github_start(pre) || pre == "ssh://git@github.com/"@,
        is_ending(post),
    ensures
        github_owner_repo(pre + repo_path(owner, repo) + post) == Some(repo_path(owner, repo)),
{
    let p = repo_path(owner, repo);
    let none = Seq::<char>::empty();
    let rest = p + post;
    let s = pre + p + post;
    assert(pre.len() > 0 && !is_space(pre[0]) && pre[0] != '/') by {
        lemma_starts();
    }
    assert(trimmed(s) == s) by {
        lemma_whole(pre, owner, repo, post);
    }
    assert(s == pre + rest);
    assert(suffix_trimmed(rest, ".git"@) == p) by {
        lemma_whole(none, owner, repo, post);
        assert(none + p + post =~= rest);
        assert(none + p =~= p);
    }
    lemma_first_two(owner, repo);
    if pre == "git@github.com:"@ {
        lemma_start(pre, rest);
    } else {
        assert(rest.len() > 0 && rest[0] != '/') by {
            lemma_starts();
            assert(rest[0] == owner[0]);
        }
        lemma_host(pre, rest);
    }
}

/// The worktrees of a repository on GitHub stand in a directory named after its owner and its name,
/// in whichever form its remote is written, and wherever its own directory is.
pub proof fn law_a_slug_is_made_of_owner_and_name(
    pre: Seq<char>,
    owner: Seq<char>,
    repo: Seq<char>,
    post: Seq<char>,
    root: Seq<char>,
)
    requires
        is_repo(owner, repo),
        is_github_start(pre) || pre == "ssh://git@github.com/"@,
        is_ending(post),
    ensures
        repo_slug_of(Some(pre + repo_path(owner, repo) + post), root) == owner + "__"@ + repo,
{
    lemma_remote_path(pre, owner, repo, post);
    lemma_slug(owner, repo);
}

} // verus!
