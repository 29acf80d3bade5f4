//! Naming a task: by its id or by its address.
use vstd::prelude::*;

use crate::auth::{law_task_address_ends_with_the_task, task_address};
use crate::pieces::{after_last, before_first, head, lemma_after_last, lemma_first_of, tail};
use crate::text::{
    blank, end_trimmed, is_blank, is_space, law_trimming_takes_only_the_ends,
    lemma_end_trimmed_shape, lemma_start_trimmed_shape, start_trimmed, trim, trimmed, Class,
};

verus! {

/// What is said where a task is named by nothing.
pub const EMPTY_TASK_ID: &'static str = "task id must not be empty";

/// The id of the task that a text names: what follows its last slash, up to a fragment.
pub open spec fn task_id_of(raw: Seq<char>) -> Option<Seq<char>> {
    if is_blank(raw) {
        None
    } else {
        Some(trimmed(after_last(before_first(trimmed(raw), '#'), '/')))
    }
}

/// The id of the task that a text names, either by the id itself or by an address that ends with
/// it; none where the text is blank.
pub fn parse_task_id(raw: &str) -> (r: Option<String>)
    ensures
        r.deep_view() == task_id_of(raw@),
{
    if blank(raw) {
        return None;
    }
    Some(trim(&tail(&head(&trim(raw), '#'), '/')))
}

proof fn lemma_start_stops(s: Seq<char>, p: int)
    requires
        0 <= p < s.len(),
        !is_space(s[p]),
    ensures
        start_trimmed(s, Class::Space).len() >= s.len() - p,
    decreases s.len(),
{
    if is_space(s[0]) {
        assert(s.drop_first()[p - 1] == s[p]);
        lemma_start_stops(s.drop_first(), p - 1);
    }
}

proof fn lemma_end_stops(s: Seq<char>, p: int)
    requires
        0 <= p < s.len(),
        !is_space(s[p]),
    ensures
        end_trimmed(s, Class::Space).len() > p,
    decreases s.len(),
{
    if is_space(s.last()) {
        lemma_end_stops(s.drop_last(), p);
    }
}

/// Trimming leaves a part of a text that holds all that is no white space.
proof fn lemma_trimmed_part(s: Seq<char>, p: int, q: int) -> (r: (int, int))
    requires
        0 <= p <= q < s.len(),
        !is_space(s[p]),
        !is_space(s[q]),
    ensures
        0 <= r.0 <= p,
        q < r.1 <= s.len(),
        trimmed(s) == s.subrange(r.0, r.1),
{
    let t = start_trimmed(s, Class::Space);
    lemma_start_trimmed_shape(s, Class::Space);
    lemma_start_stops(s, p);
    let a = s.len() - t.len();
    assert(t[q - a] == s[q]);
    let u = end_trimmed(t, Class::Space);
    lemma_end_trimmed_shape(t, Class::Space);
    lemma_end_stops(t, q - a);
    let b = a + u.len();
    assert(u =~= s.subrange(a, b));
    (a, b)
}

/// Whether a text can be the id of a task: it is not empty, holds no slash and no `#`, and has no
/// white space at its ends.
pub open spec fn is_task_id(id: Seq<char>) -> bool {
    &&& id.len() > 0
    &&& !is_space(id[0])
    &&& !is_space(id.last())
    &&& !id.contains('/')
    &&& !id.contains('#')
}

proof fn lemma_names(pre: Seq<char>, id: Seq<char>, rest: Seq<char>)
    requires
        is_task_id(id),
        !pre.contains('#'),
        pre.len() == 0 || pre.last() == '/',
        rest.len() == 0 || rest[0] == '#',
    ensures
        task_id_of(pre + id + rest) == Some(id),
{
    let s = pre + id + rest;
    let n = pre.len() as int;
    let m = n + id.len();
    assert(s[n] == id[0]);
    assert(s[m - 1] == id.last());
    assert(!is_blank(s));
    let p = if n > 0 {
        n - 1
    } else {
        0
    };
    let q = if rest.len() > 0 {
        m
    } else {
        m - 1
    };
    if n > 0 {
        assert(s[n - 1] == pre.last());
    }
    if rest.len() > 0 {
        assert(s[m] == rest[0]);
    }
    let (a, b) = lemma_trimmed_part(s, p, q);
    let t = s.subrange(a, b);
    assert forall|j: int| 0 <= j < m - a implies t[j] != '#' by {
        assert(t[j] == s[a + j]);
        if a + j < n {
            assert(s[a + j] == pre[a + j]);
            assert(pre.contains(pre[a + j]));
        } else {
            assert(s[a + j] == id[a + j - n]);
            assert(id.contains(id[a + j - n]));
        }
    }
    if rest.len() > 0 {
        assert(t[m - a] == '#');
    }
    lemma_first_of(t, '#', m - a);
    let u = before_first(t, '#');
    assert(u =~= s.subrange(a, m));
    assert forall|j: int| n - a <= j < u.len() implies u[j] != '/' by {
        assert(u[j] == id[j + a - n]);
        assert(id.contains(id[j + a - n]));
    }
    if n - a > 0 {
        assert(u[n - a - 1] == s[n - 1]);
    }
    lemma_after_last(u, '/', n - a);
    assert(u.skip(n - a) =~= id);
    let (c, d) = lemma_trimmed_part(id, 0, id.len() - 1);
    assert(id.subrange(c, d) =~= id);
}

/// An id names its task.
pub proof fn law_an_id_names_its_task(id: Seq<char>)
    requires
        is_task_id(id),
    ensures
        task_id_of(id) == Some(id),
{
    lemma_names(Seq::empty(), id, Seq::empty());
    assert(Seq::<char>::empty() + id + Seq::<char>::empty() =~= id);
}

proof fn lemma_address_parts(base: Seq<char>, id: Seq<char>)
    requires
        !base.contains('#'),
    ensures
        ({
            let u = task_address(base, id);
            let pre = u.take(u.len() - id.len());
            &&& u.len() > id.len()
            &&& u == pre + id
            &&& pre.last() == '/'
            &&& !pre.contains('#')
        }),
{
    reveal_strlit("/codex/tasks/");
    let u = task_address(base, id);
    let e = "/codex/tasks/"@ + id;
    let n = u.len() - e.len();
    let k = u.len() - id.len();
    law_task_address_ends_with_the_task(base, id);
    assert(u.subrange(n, n + e.len()) == e);
    assert(u.take(k).last() == e[12]);
    assert forall|j: int| 0 <= j < id.len() implies u[k + j] == id[j] by {
        assert(u.subrange(n, n + e.len())[13 + j] == e[13 + j]);
    }
    assert(u =~= u.take(k) + id);
    lemma_address_start(base, id);
}

/// The address of a task names it, with or without a fragment behind it.
pub proof fn law_an_address_names_its_task(base: Seq<char>, id: Seq<char>, fragment: Seq<char>)
    requires
        is_task_id(id),
        !base.contains('#'),
    ensures
        task_id_of(task_address(base, id)) == Some(id),
        task_id_of(task_address(base, id) + "#"@ + fragment) == Some(id),
{
    let u = task_address(base, id);
    let pre = u.take(u.len() - id.len());
    lemma_address_parts(base, id);
    let rest = "#"@ + fragment;
    assert(rest[0] == '#') by {
        reveal_strlit("#");
    }
    assert(task_id_of(u) == Some(id)) by {
        lemma_names(pre, id, Seq::empty());
        assert(pre + id + Seq::<char>::empty() =~= u);
    }
    assert(pre + id + rest =~= u + "#"@ + fragment);
    lemma_names(pre, id, rest);
}

proof fn lemma_address_start(base: Seq<char>, id: Seq<char>)
    requires
        !base.contains('#'),
    ensures
        !task_address(base, id).take(task_address(base, id).len() - id.len()).contains('#'),
{
    reveal_strlit("/backend-api");
    reveal_strlit("/codex/tasks/");
    reveal_strlit("/tasks/");
    let b = end_trimmed(base, Class::Only('/'));
    lemma_end_trimmed_shape(base, Class::Only('/'));
    let n = crate::auth::normalized(base);
    let u = task_address(base, id);
    let pre = u.take(u.len() - id.len());
    assert forall|j: int| 0 <= j < n.len() implies n[j] != '#' by {
        if j < b.len() {
            assert(n[j] == base[j]);
            assert(base.contains(base[j]));
        } else {
            assert(n[j] == "/backend-api"@[j - b.len()]);
        }
    }
    assert forall|j: int| 0 <= j < pre.len() implies pre[j] != '#' by {
        assert(pre[j] == u[j]);
    }
}

/// A blank text names no task, and any other one names what stands behind its last slash, up to a
/// fragment, without white space around it.
pub proof fn law_only_blank_texts_name_no_task(raw: Seq<char>)
    ensures
        task_id_of(raw) is None <==> is_blank(raw),
        task_id_of(raw) matches Some(id) ==> id.len() == 0 || !is_space(id[0]) && !is_space(
            id.last(),
        ),
{
    let s = after_last(before_first(trimmed(raw), '#'), '/');
    law_trimming_takes_only_the_ends(s, Class::Space);
}

} // verus!
