//! Order: comparing texts, and a stable sort.
use vstd::prelude::*;

use crate::row::{no_items, take_first};
use crate::text::chars_of;

verus! {

/// Whether `a` comes before `b` in the order of their characters.
pub open spec fn precedes(a: Seq<char>, b: Seq<char>) -> bool
    decreases b.len(),
{
    if b.len() == 0 {
        false
    } else if a.len() == 0 {
        true
    } else if a[0] != b[0] {
        a[0] < b[0]
    } else {
        precedes(a.drop_first(), b.drop_first())
    }
}

/// Whether `a` comes before `b` in the order of their characters.
pub fn text_before(a: &str, b: &str) -> (r: bool)
    ensures
        r == precedes(a@, b@),
{
    let v = chars_of(a);
    let w = chars_of(b);
    let mut i: usize = 0;
    assert(v@.skip(0) == v@);
    assert(w@.skip(0) == w@);
    while i < v.len() && i < w.len() && v[i] == w[i]
        invariant
            i <= v@.len(),
            i <= w@.len(),
            precedes(v@, w@) == precedes(v@.skip(i as int), w@.skip(i as int)),
        decreases v@.len() - i,
    {
        assert(v@.skip(i as int).drop_first() == v@.skip(i + 1));
        assert(w@.skip(i as int).drop_first() == w@.skip(i + 1));
        i += 1;
    }
    if i >= w.len() {
        return false;
    }
    if i >= v.len() {
        return true;
    }
    v[i] < w[i]
}

/// No text comes before itself, two texts come before each other never, and of two different
/// texts one comes before the other.
pub proof fn law_text_order_is_total(a: Seq<char>, b: Seq<char>)
    ensures
        !precedes(a, a),
        !(precedes(a, b) && precedes(b, a)),
        a != b ==> precedes(a, b) || precedes(b, a),
    decreases a.len() + b.len(),
{
    if a.len() > 0 {
        law_text_order_is_total(a.drop_first(), Seq::empty());
        lemma_irreflexive(a);
    }
    if a.len() > 0 && b.len() > 0 {
        if a[0] == b[0] {
            law_text_order_is_total(a.drop_first(), b.drop_first());
            if a.drop_first() == b.drop_first() {
                assert(a == seq![a[0]] + a.drop_first());
                assert(b == seq![b[0]] + b.drop_first());
            }
        }
    } else if a.len() == 0 && b.len() == 0 {
        assert(a == b);
    }
}

proof fn lemma_irreflexive(a: Seq<char>)
    ensures
        !precedes(a, a),
    decreases a.len(),
{
    if a.len() > 0 {
        lemma_irreflexive(a.drop_first());
    }
}

/// What comes before something that comes before `c` comes before `c`.
pub proof fn law_text_order_is_transitive(a: Seq<char>, b: Seq<char>, c: Seq<char>)
    requires
        precedes(a, b),
        precedes(b, c),
    ensures
        precedes(a, c),
    decreases a.len(),
{
    if a.len() > 0 && a[0] == b[0] && b[0] == c[0] {
        law_text_order_is_transitive(a.drop_first(), b.drop_first(), c.drop_first());
    }
}

/// The lower case of an ASCII letter; any other character itself.
pub open spec fn ascii_lower(c: char) -> char {
    if 65 <= c as u32 <= 90 {
        (c as u32 + 32) as char
    } else {
        c
    }
}

/// Whether two texts differ in the case of ASCII letters at most.
pub open spec fn same_but_case(a: Seq<char>, b: Seq<char>) -> bool {
    &&& a.len() == b.len()
    &&& forall|i: int|
        0 <= i < a.len() ==> ascii_lower(#[trigger] a[i]) == ascii_lower(#[trigger] b[i])
}

fn lower(c: char) -> (r: u32)
    ensures
        r == ascii_lower(c) as u32,
{
    let u: u32 = c as u32;
    if 65 <= u && u <= 90 {
        u + 32
    } else {
        u
    }
}

/// Whether two texts differ in the case of ASCII letters at most.
pub fn eq_ignore_ascii_case(a: &str, b: &str) -> (r: bool)
    ensures
        r == same_but_case(a@, b@),
{
    let v = chars_of(a);
    let w = chars_of(b);
    if v.len() != w.len() {
        return false;
    }
    let mut i: usize = 0;
    while i < v.len()
        invariant
            v@ == a@,
            w@ == b@,
            v@.len() == w@.len(),
            i <= v@.len(),
            forall|j: int|
                0 <= j < i ==> ascii_lower(#[trigger] v@[j]) == ascii_lower(#[trigger] w@[j]),
        decreases v@.len() - i,
    {
        if lower(v[i]) != lower(w[i]) {
            assert(ascii_lower(a@[i as int]) != ascii_lower(b@[i as int]));
            return false;
        }
        i += 1;
    }
    true
}

/// An order: `f(x, y)` where `x` has to stand in front of `y`.
pub type Before<V> = spec_fn(V, V) -> bool;

/// Items with an order among them, which goes by their views.
pub trait Ranked: DeepView + Sized {
    spec fn order() -> Before<Self::V>;

    fn is_before(&self, other: &Self) -> (r: bool)
        ensures
            r == Self::order()(self.deep_view(), other.deep_view()),
    ;
}

/// `s` with `x` put in: behind every item at its end that does not have to stand behind `x`.
pub open spec fn put_in<V>(s: Seq<V>, x: V, f: Before<V>) -> Seq<V>
    decreases s.len(),
{
    if s.len() > 0 && f(x, s.last()) {
        put_in(s.drop_last(), x, f).push(s.last())
    } else {
        s.push(x)
    }
}

/// The items of `s` in order; items of which neither comes before the other keep their places
/// relative to each other.
pub open spec fn in_order<V>(s: Seq<V>, f: Before<V>) -> Seq<V>
    decreases s.len(),
{
    if s.len() == 0 {
        s
    } else {
        put_in(in_order(s.drop_last(), f), s.last(), f)
    }
}

proof fn lemma_put_in<V>(s: Seq<V>, x: V, f: Before<V>, i: int)
    requires
        0 <= i <= s.len(),
        forall|j: int| i <= j < s.len() ==> f(x, #[trigger] s[j]),
        i == 0 || !f(x, s[i - 1]),
    ensures
        put_in(s, x, f) == s.insert(i, x),
    decreases s.len() - i,
{
    if i < s.len() {
        assert(f(x, s[s.len() - 1]));
        lemma_put_in(s.drop_last(), x, f, i);
        assert(s.drop_last().insert(i, x).push(s.last()) == s.insert(i, x));
    } else {
        assert(s.insert(i, x) == s.push(x));
    }
}

/// Sorts `items`, keeping the places of items of which neither comes before the other.
pub fn sort<T: Ranked>(items: Vec<T>) -> (r: Vec<T>)
    ensures
        r.deep_view() == in_order(items.deep_view(), T::order()),
{
    let ghost all = items.deep_view();
    let ghost f = T::order();
    let mut rest = items;
    let mut out: Vec<T> = no_items();
    let ghost mut done: int = 0;
    assert(all.skip(0) =~= all);
    assert(out.deep_view() =~= in_order(all.take(0), f));
    while rest.len() > 0
        invariant
            f == T::order(),
            0 <= done <= all.len(),
            rest.deep_view() == all.skip(done),
            out.deep_view() == in_order(all.take(done), f),
        decreases rest@.len(),
    {
        let ghost sorted = out.deep_view();
        let x = take_first(&mut rest);
        let mut i: usize = out.len();
        while i > 0 && x.is_before(&out[i - 1])
            invariant
                f == T::order(),
                i <= out@.len(),
                sorted == out.deep_view(),
                forall|j: int| i <= j < out@.len() ==> f(x.deep_view(), #[trigger] sorted[j]),
            decreases i,
        {
            assert(sorted[i - 1] == out@[i - 1].deep_view());
            i -= 1;
        }
        proof {
            if i > 0 {
                assert(sorted[i - 1] == out@[i - 1].deep_view());
            }
            assert(x.deep_view() == all[done]);
            lemma_put_in(sorted, x.deep_view(), f, i as int);
            assert(all.take(done + 1).drop_last() =~= all.take(done));
            assert(all.take(done + 1).last() == x.deep_view());
            assert(all.skip(done).drop_first() =~= all.skip(done + 1));
            done = done + 1;
        }
        let ghost v = x.deep_view();
        out.insert(i, x);
        assert(out.deep_view() =~= sorted.insert(i as int, v));
    }
    assert(all.take(done) =~= all);
    out
}

/// Sorting keeps every item, as often as it was there.
pub proof fn law_sort_keeps_items<V>(s: Seq<V>, f: Before<V>)
    ensures
        in_order(s, f).len() == s.len(),
        in_order(s, f).to_multiset() == s.to_multiset(),
    decreases s.len(),
{
    broadcast use vstd::seq_lib::group_to_multiset_ensures;

    if s.len() > 0 {
        law_sort_keeps_items(s.drop_last(), f);
        lemma_put_in_keeps_items(in_order(s.drop_last(), f), s.last(), f);
        assert(s == s.drop_last().push(s.last()));
    }
}

proof fn lemma_put_in_keeps_items<V>(s: Seq<V>, x: V, f: Before<V>)
    ensures
        put_in(s, x, f).len() == s.len() + 1,
        put_in(s, x, f).to_multiset() == s.to_multiset().insert(x),
    decreases s.len(),
{
    broadcast use vstd::seq_lib::group_to_multiset_ensures;

    if s.len() > 0 && f(x, s.last()) {
        lemma_put_in_keeps_items(s.drop_last(), x, f);
        assert(s == s.drop_last().push(s.last()));
        assert(put_in(s, x, f).to_multiset() =~= s.to_multiset().insert(x));
    }
}

/// Whether a sort makes sense in an order.
pub open spec fn is_order<V>(f: Before<V>) -> bool {
    &&& forall|x: V, y: V| !(#[trigger] f(x, y) && f(y, x))
    &&& forall|x: V, y: V, z: V|
        #![trigger f(x, y), f(y, z)]
        !f(x, y) && !f(y, z) ==> !f(x, z)
}

/// Whether no item stands behind one that it comes before.
pub open spec fn ordered<V>(s: Seq<V>, f: Before<V>) -> bool {
    forall|i: int, j: int| 0 <= i < j < s.len() ==> !f(#[trigger] s[j], #[trigger] s[i])
}

/// Sorting puts no item behind one that it comes before.
pub proof fn law_sort_orders<V>(s: Seq<V>, f: Before<V>)
    requires
        is_order(f),
    ensures
        ordered(in_order(s, f), f),
    decreases s.len(),
{
    if s.len() > 0 {
        law_sort_orders(s.drop_last(), f);
        lemma_put_in_orders(in_order(s.drop_last(), f), s.last(), f);
    }
}

proof fn lemma_put_in_orders<V>(s: Seq<V>, x: V, f: Before<V>)
    requires
        is_order(f),
        ordered(s, f),
    ensures
        ordered(put_in(s, x, f), f),
    decreases s.len(),
{
    let r = put_in(s, x, f);
    if s.len() > 0 && f(x, s.last()) {
        let t = s.drop_last();
        lemma_put_in_orders(t, x, f);
        lemma_put_in_members(t, x, f);
        let u = put_in(t, x, f);
        assert forall|i: int, j: int| 0 <= i < j < r.len() implies !f(
            #[trigger] r[j],
            #[trigger] r[i],
        ) by {
            assert(r[i] == u[i]);
            if j == u.len() {
                if u[i] != x {
                    let l = choose|l: int| 0 <= l < t.len() && t[l] == u[i];
                    assert(s[l] == u[i]);
                }
            } else {
                assert(r[j] == u[j]);
            }
        }
    } else {
        assert forall|i: int, j: int| 0 <= i < j < r.len() implies !f(
            #[trigger] r[j],
            #[trigger] r[i],
        ) by {
            if j == s.len() {
                assert(r[i] == s[i]);
                if i < s.len() - 1 {
                    assert(!f(x, s[s.len() - 1]));
                    assert(!f(s[s.len() - 1], s[i]));
                }
            }
        }
    }
}

proof fn lemma_put_in_members<V>(s: Seq<V>, x: V, f: Before<V>)
    ensures
        put_in(s, x, f).len() == s.len() + 1,
        forall|i: int|
            0 <= i <= s.len() ==> #[trigger] put_in(s, x, f)[i] == x || exists|l: int|
                0 <= l < s.len() && s[l] == put_in(s, x, f)[i],
    decreases s.len(),
{
    let r = put_in(s, x, f);
    if s.len() > 0 && f(x, s.last()) {
        lemma_put_in_members(s.drop_last(), x, f);
        let u = put_in(s.drop_last(), x, f);
        assert forall|i: int| 0 <= i <= s.len() implies #[trigger] r[i] == x || exists|l: int|
            0 <= l < s.len() && s[l] == r[i] by {
            if i < u.len() {
                assert(r[i] == u[i]);
                if u[i] != x {
                    let l = choose|l: int| 0 <= l < s.drop_last().len() && s.drop_last()[l] == u[i];
                    assert(s[l] == u[i]);
                }
            } else {
                assert(s[s.len() - 1] == r[i]);
            }
        }
    } else {
        assert forall|i: int| 0 <= i <= s.len() implies #[trigger] r[i] == x || exists|l: int|
            0 <= l < s.len() && s[l] == r[i] by {
            if i < s.len() {
                assert(s[i] == r[i]);
            }
        }
    }
}

/// Whether neither of two items comes before the other.
pub open spec fn level<V>(x: V, y: V, f: Before<V>) -> bool {
    !f(x, y) && !f(y, x)
}

proof fn lemma_put_in_is_stable<V>(s: Seq<V>, x: V, a: V, f: Before<V>)
    requires
        is_order(f),
    ensures
        put_in(s, x, f).filter(|y: V| level(a, y, f)) == s.push(x).filter(|y: V| level(a, y, f)),
    decreases s.len(),
{
    if s.len() > 0 && f(x, s.last()) {
        let t = s.drop_last();
        lemma_put_in_is_stable(t, x, a, f);
        reveal_with_fuel(Seq::filter, 3);
        assert(put_in(s, x, f).drop_last() == put_in(t, x, f));
        assert(s.push(x).drop_last() == s);
        assert(t.push(x).drop_last() == t);
        if level(a, x, f) && level(a, s.last(), f) {
            assert(!f(x, a) && !f(a, s.last()));
            assert(false);
        }
    }
}

/// Sorting keeps items of which neither comes before the other in the order in which they came.
pub proof fn law_sort_is_stable<V>(s: Seq<V>, a: V, f: Before<V>)
    requires
        is_order(f),
    ensures
        in_order(s, f).filter(|y: V| level(a, y, f)) == s.filter(|y: V| level(a, y, f)),
    decreases s.len(),
{
    if s.len() > 0 {
        let t = s.drop_last();
        law_sort_is_stable(t, a, f);
        lemma_put_in_is_stable(in_order(t, f), s.last(), a, f);
        reveal_with_fuel(Seq::filter, 2);
        assert(in_order(t, f).push(s.last()).drop_last() == in_order(t, f));
    }
}

/// Texts are ordered by the first character in which they differ, and one that ends before that
/// comes first.
pub proof fn law_the_first_difference_orders_texts(
    p: Seq<char>,
    x: char,
    a: Seq<char>,
    y: char,
    b: Seq<char>,
)
    ensures
        x != y ==> (precedes(p + seq![x] + a, p + seq![y] + b) <==> x < y),
        precedes(p, p + seq![x] + a),
        !precedes(p + seq![x] + a, p),
    decreases p.len(),
{
    let s = p + seq![x] + a;
    let t = p + seq![y] + b;
    if p.len() > 0 {
        let q = p.drop_first();
        law_the_first_difference_orders_texts(q, x, a, y, b);
        assert(s.drop_first() =~= q + seq![x] + a);
        assert(t.drop_first() =~= q + seq![y] + b);
    } else {
        assert(s[0] == x);
        assert(t[0] == y);
    }
}

/// Whether one character is a capital of ASCII and the other its small letter, which stands 32
/// places behind it.
pub open spec fn is_capital_of(x: char, y: char) -> bool {
    65 <= x as u32 <= 90 && y as u32 == x as u32 + 32
}

proof fn lemma_case(x: char, y: char)
    ensures
        ascii_lower(x) == ascii_lower(y) <==> x == y || is_capital_of(x, y) || is_capital_of(y, x),
{
    if 65 <= x as u32 <= 90 {
        assert(ascii_lower(x) as u32 == x as u32 + 32);
    }
    if 65 <= y as u32 <= 90 {
        assert(ascii_lower(y) as u32 == y as u32 + 32);
    }
}

/// Texts that differ in case at most are as long as each other, and where their characters differ
/// these are a capital of ASCII and its small letter.
pub proof fn law_only_the_case_may_differ(a: Seq<char>, b: Seq<char>)
    ensures
        same_but_case(a, b) <==> a.len() == b.len() && forall|i: int|
            0 <= i < a.len() ==> #[trigger] a[i] == b[i] || is_capital_of(a[i], b[i])
                || is_capital_of(b[i], a[i]),
{
    assert forall|i: int| 0 <= i < a.len() && a.len() == b.len() implies (ascii_lower(
        #[trigger] a[i],
    ) == ascii_lower(#[trigger] b[i]) <==> a[i] == b[i] || is_capital_of(a[i], b[i])
        || is_capital_of(b[i], a[i])) by {
        lemma_case(a[i], b[i]);
    }
    if a.len() == b.len() {
        assert forall|i: int|
            0 <= i < a.len() && same_but_case(a, b) implies #[trigger] a[i] == b[i]
            || is_capital_of(a[i], b[i]) || is_capital_of(b[i], a[i]) by {
            lemma_case(a[i], b[i]);
            assert(ascii_lower(a[i]) == ascii_lower(b[i]));
        }
    }
}

} // verus!
