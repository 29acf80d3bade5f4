//! Taking text apart and putting it together: pieces between separators, words, lines, joins.
use vstd::prelude::*;

use crate::text::{
    chars_of, is_space, is_whitespace, lemma_start_trimmed_shape, start_trimmed, text_of, Class,
};

verus! {

/// The position of the first `c` in `s`, or the length of `s` where there is none.
pub open spec fn first_of(s: Seq<char>, c: char) -> int
    decreases s.len(),
{
    if s.len() == 0 || s[0] == c {
        0
    } else {
        1 + first_of(s.drop_first(), c)
    }
}

pub proof fn lemma_first_of(s: Seq<char>, c: char, i: int)
    requires
        0 <= i <= s.len(),
        forall|j: int| 0 <= j < i ==> s[j] != c,
        i == s.len() || s[i] == c,
    ensures
        first_of(s, c) == i,
    decreases i,
{
    if i > 0 {
        assert(s[0] != c);
        let t = s.drop_first();
        assert forall|j: int| 0 <= j < i - 1 implies t[j] != c by {
            assert(t[j] == s[j + 1]);
        }
        lemma_first_of(t, c, i - 1);
    }
}

pub proof fn lemma_first_of_bounds(s: Seq<char>, c: char)
    ensures
        0 <= first_of(s, c) <= s.len(),
        first_of(s, c) < s.len() ==> s[first_of(s, c)] == c,
        forall|j: int| 0 <= j < first_of(s, c) ==> s[j] != c,
    decreases s.len(),
{
    if s.len() > 0 && s[0] != c {
        let t = s.drop_first();
        lemma_first_of_bounds(t, c);
        assert forall|j: int| 0 <= j < first_of(s, c) implies s[j] != c by {
            if j > 0 {
                assert(s[j] == t[j - 1]);
            }
        }
    }
}

/// The position of the first `c` in `v` at or after `from`, or the length of `v`.
fn next_of(v: &Vec<char>, from: usize, c: char) -> (i: usize)
    requires
        from <= v@.len(),
    ensures
        from <= i <= v@.len(),
        i - from == first_of(v@.skip(from as int), c),
{
    let mut i: usize = from;
    while i < v.len() && v[i] != c
        invariant
            from <= i <= v@.len(),
            forall|j: int| from <= j < i ==> v@[j] != c,
        decreases v@.len() - i,
    {
        i += 1;
    }
    proof {
        let s = v@.skip(from as int);
        assert forall|j: int| 0 <= j < i - from implies s[j] != c by {
            assert(s[j] == v@[j + from]);
        }
        lemma_first_of(s, c, i - from);
    }
    i
}

/// The pieces of `s` between the characters `c`: one more than there are such characters.
pub open spec fn pieces(s: Seq<char>, c: char) -> Seq<Seq<char>>
    decreases s.len(),
    via pieces_decreases
{
    let i = first_of(s, c);
    if i < s.len() {
        seq![s.take(i)] + pieces(s.skip(i + 1), c)
    } else {
        seq![s]
    }
}

#[via_fn]
proof fn pieces_decreases(s: Seq<char>, c: char) {
    lemma_first_of_bounds(s, c);
}

/// The pieces of `s` between the characters `c`.
pub fn split(s: &str, c: char) -> (r: Vec<String>)
    ensures
        r.deep_view() == pieces(s@, c),
        r@.len() >= 1,
{
    let v = chars_of(s);
    let mut out: Vec<String> = Vec::new();
    let mut from: usize = 0;
    assert(v@.skip(0) == v@);
    assert(out.deep_view() + pieces(v@, c) == pieces(v@, c));
    loop
        invariant
            v@ == s@,
            from <= v@.len(),
            out.deep_view() + pieces(v@.skip(from as int), c) == pieces(s@, c),
        decreases v@.len() - from,
    {
        let i = next_of(&v, from, c);
        let piece = text_of(&v, from, i);
        let ghost rest = v@.skip(from as int);
        let ghost before = out.deep_view();
        assert(rest.take(i - from) == v@.subrange(from as int, i as int));
        out.push(piece);
        assert(out.deep_view() == before.push(piece@));
        if i == v.len() {
            assert(rest.take(i - from) == rest);
            assert(out.deep_view() == before + seq![rest]);
            return out;
        }
        assert(rest.skip(i - from + 1) == v@.skip(i + 1));
        assert(out.deep_view() + pieces(v@.skip(i + 1), c) == before + (seq![rest.take(i - from)]
            + pieces(rest.skip(i - from + 1), c)));
        from = i + 1;
    }
}

/// What precedes the first `c` of `s`: all of it where there is none.
pub open spec fn before_first(s: Seq<char>, c: char) -> Seq<char> {
    s.take(first_of(s, c))
}

/// What follows the first `c` of `s`.
pub open spec fn after_first(s: Seq<char>, c: char) -> Seq<char> {
    s.skip(first_of(s, c) + 1)
}

/// What follows the last `c` of `s`: all of it where there is none.
pub open spec fn after_last(s: Seq<char>, c: char) -> Seq<char>
    decreases s.len(),
{
    if s.len() == 0 || s.last() == c {
        Seq::empty()
    } else {
        after_last(s.drop_last(), c).push(s.last())
    }
}

/// What precedes the first `c` of `s`: all of it where there is none.
pub fn head(s: &str, c: char) -> (r: String)
    ensures
        r@ == before_first(s@, c),
{
    let v = chars_of(s);
    let i = next_of(&v, 0, c);
    assert(v@.skip(0) == v@);
    assert(s@.take(i as int) == v@.subrange(0, i as int));
    text_of(&v, 0, i)
}

/// The two sides of the first `c` of `s`, where there is one.
pub fn split_once(s: &str, c: char) -> (r: Option<(String, String)>)
    ensures
        match r {
            Some((a, b)) => s@.contains(c) && a@ == before_first(s@, c) && b@ == after_first(
                s@,
                c,
            ),
            None => !s@.contains(c),
        },
{
    let v = chars_of(s);
    let i = next_of(&v, 0, c);
    assert(v@.skip(0) == v@);
    proof {
        lemma_first_of_bounds(s@, c);
    }
    if i == v.len() {
        return None;
    }
    assert(s@[i as int] == c);
    assert(s@.take(i as int) == v@.subrange(0, i as int));
    assert(s@.skip(i + 1) == v@.subrange(i + 1, v@.len() as int));
    Some((text_of(&v, 0, i), text_of(&v, i + 1, v.len())))
}

pub proof fn lemma_after_last(s: Seq<char>, c: char, i: int)
    requires
        0 <= i <= s.len(),
        forall|j: int| i <= j < s.len() ==> s[j] != c,
        i == 0 || s[i - 1] == c,
    ensures
        after_last(s, c) == s.skip(i),
    decreases s.len() - i,
{
    if i < s.len() {
        assert(s[s.len() - 1] != c);
        lemma_after_last(s.drop_last(), c, i);
        assert(s.drop_last().skip(i).push(s.last()) == s.skip(i));
    } else {
        assert(s.skip(i) == Seq::<char>::empty());
    }
}

/// What follows the last `c` of `s`: all of it where there is none.
pub fn tail(s: &str, c: char) -> (r: String)
    ensures
        r@ == after_last(s@, c),
{
    let v = chars_of(s);
    let mut i: usize = v.len();
    while i > 0 && v[i - 1] != c
        invariant
            i <= v@.len(),
            forall|j: int| i <= j < v@.len() ==> v@[j] != c,
        decreases i,
    {
        i -= 1;
    }
    proof {
        lemma_after_last(v@, c, i as int);
        assert(v@.skip(i as int) == v@.subrange(i as int, v@.len() as int));
    }
    text_of(&v, i, v.len())
}

/// The number of characters that `s` starts with before any white space.
pub open spec fn word_len(s: Seq<char>) -> int
    decreases s.len(),
{
    if s.len() == 0 || is_space(s[0]) {
        0
    } else {
        1 + word_len(s.drop_first())
    }
}

proof fn lemma_word_len(s: Seq<char>, i: int)
    requires
        0 <= i <= s.len(),
        forall|j: int| 0 <= j < i ==> !is_space(#[trigger] s[j]),
        i == s.len() || is_space(s[i]),
    ensures
        word_len(s) == i,
    decreases i,
{
    if i > 0 {
        assert(!is_space(s[0]));
        let t = s.drop_first();
        assert forall|j: int| 0 <= j < i - 1 implies !is_space(#[trigger] t[j]) by {
            assert(t[j] == s[j + 1]);
        }
        lemma_word_len(t, i - 1);
    }
}

pub proof fn lemma_word_len_bounds(s: Seq<char>)
    ensures
        0 <= word_len(s) <= s.len(),
        s.len() > 0 && !is_space(s[0]) ==> word_len(s) > 0,
        forall|j: int| 0 <= j < word_len(s) ==> !is_space(#[trigger] s[j]),
    decreases s.len(),
{
    if s.len() > 0 && !is_space(s[0]) {
        let t = s.drop_first();
        lemma_word_len_bounds(t);
        assert forall|j: int| 0 <= j < word_len(s) implies !is_space(#[trigger] s[j]) by {
            if j > 0 {
                assert(s[j] == t[j - 1]);
            }
        }
    }
}

/// The words of `s`: its longest runs without white space.
pub open spec fn words(s: Seq<char>) -> Seq<Seq<char>>
    decreases s.len(),
    via words_decreases
{
    let t = start_trimmed(s, Class::Space);
    if t.len() == 0 {
        Seq::empty()
    } else {
        seq![t.take(word_len(t))] + words(t.skip(word_len(t)))
    }
}

#[via_fn]
proof fn words_decreases(s: Seq<char>) {
    lemma_start_trimmed_shape(s, Class::Space);
    lemma_word_len_bounds(start_trimmed(s, Class::Space));
}

proof fn lemma_words_skip_space(s: Seq<char>)
    requires
        s.len() > 0,
        is_space(s[0]),
    ensures
        words(s) == words(s.skip(1)),
{
    assert(s.skip(1) == s.drop_first());
    assert(start_trimmed(s, Class::Space) == start_trimmed(s.skip(1), Class::Space));
}

/// The words of `s`: its longest runs without white space.
pub fn split_whitespace(s: &str) -> (r: Vec<String>)
    ensures
        r.deep_view() == words(s@),
{
    let v = chars_of(s);
    let mut out: Vec<String> = Vec::new();
    let mut i: usize = 0;
    assert(v@.skip(0) == v@);
    assert(out.deep_view() + words(v@) == words(v@));
    while i < v.len()
        invariant
            v@ == s@,
            i <= v@.len(),
            out.deep_view() + words(v@.skip(i as int)) == words(s@),
        decreases v@.len() - i,
    {
        let ghost rest = v@.skip(i as int);
        if is_whitespace(v[i]) {
            proof {
                assert(rest[0] == v@[i as int]);
                lemma_words_skip_space(rest);
                assert(rest.skip(1) == v@.skip(i + 1));
            }
            i += 1;
        } else {
            let mut j: usize = i;
            while j < v.len() && !is_whitespace(v[j])
                invariant
                    i <= j <= v@.len(),
                    forall|l: int| i <= l < j ==> !is_space(#[trigger] v@[l]),
                decreases v@.len() - j,
            {
                j += 1;
            }
            let word = text_of(&v, i, j);
            let ghost before = out.deep_view();
            out.push(word);
            proof {
                assert(rest[0] == v@[i as int]);
                assert forall|l: int| 0 <= l < j - i implies !is_space(#[trigger] rest[l]) by {
                    assert(rest[l] == v@[l + i]);
                }
                lemma_word_len(rest, j - i);
                assert(start_trimmed(rest, Class::Space) == rest);
                assert(rest.take(j - i) == word@);
                assert(rest.skip(j - i) == v@.skip(j as int));
                assert(out.deep_view() == before.push(word@));
                assert(out.deep_view() + words(v@.skip(j as int)) == before + (seq![word@]
                    + words(v@.skip(j as int))));
            }
            i = j;
        }
    }
    assert(words(v@.skip(i as int)) == Seq::<Seq<char>>::empty()) by {
        assert(v@.skip(i as int).len() == 0);
    }
    assert(out.deep_view() + Seq::<Seq<char>>::empty() == out.deep_view());
    out
}

/// A line without the carriage return that a line ending may start with.
pub open spec fn without_return(s: Seq<char>) -> Seq<char> {
    if s.len() > 0 && s.last() == '\r' {
        s.drop_last()
    } else {
        s
    }
}

/// The lines of `s`. A line ends at a line feed, or at a carriage return and a line feed; the
/// last line may end with the text.
pub open spec fn text_lines(s: Seq<char>) -> Seq<Seq<char>>
    decreases s.len(),
    via text_lines_decreases
{
    let i = first_of(s, '\n');
    if s.len() == 0 {
        Seq::empty()
    } else if i < s.len() {
        seq![without_return(s.take(i))] + text_lines(s.skip(i + 1))
    } else {
        seq![s]
    }
}

#[via_fn]
proof fn text_lines_decreases(s: Seq<char>) {
    lemma_first_of_bounds(s, '\n');
}

/// The lines of `s`.
pub fn lines(s: &str) -> (r: Vec<String>)
    ensures
        r.deep_view() == text_lines(s@),
{
    let v = chars_of(s);
    let mut out: Vec<String> = Vec::new();
    let mut from: usize = 0;
    assert(v@.skip(0) == v@);
    assert(out.deep_view() + text_lines(v@) == text_lines(v@));
    while from < v.len()
        invariant
            v@ == s@,
            from <= v@.len(),
            out.deep_view() + text_lines(v@.skip(from as int)) == text_lines(s@),
        decreases v@.len() - from,
    {
        let i = next_of(&v, from, '\n');
        let ghost rest = v@.skip(from as int);
        let ghost before = out.deep_view();
        assert(rest.take(i - from) == v@.subrange(from as int, i as int));
        if i == v.len() {
            let line = text_of(&v, from, i);
            out.push(line);
            assert(rest.take(i - from) == rest);
            assert(out.deep_view() == before.push(line@));
            assert(out.deep_view() == before + seq![rest]);
            return out;
        }
        let end: usize = if i > from && v[i - 1] == '\r' {
            i - 1
        } else {
            i
        };
        let line = text_of(&v, from, end);
        out.push(line);
        proof {
            let whole = v@.subrange(from as int, i as int);
            assert(line@ == without_return(whole)) by {
                if whole.len() > 0 {
                    assert(whole.last() == v@[i - 1]);
                    assert(whole.drop_last() == v@.subrange(from as int, i - 1));
                }
            }
            assert(out.deep_view() == before.push(line@));
            assert(rest.skip(i - from + 1) == v@.skip(i + 1));
            assert(out.deep_view() + text_lines(v@.skip(i + 1)) == before + (seq![
                without_return(rest.take(i - from)),
            ] + text_lines(rest.skip(i - from + 1))));
        }
        from = i + 1;
    }
    assert(v@.skip(from as int).len() == 0);
    assert(out.deep_view() + Seq::<Seq<char>>::empty() == out.deep_view());
    out
}

/// `s` with every `c` replaced by `by`.
pub open spec fn replaced(s: Seq<char>, c: char, by: Seq<char>) -> Seq<char>
    decreases s.len(),
{
    if s.len() == 0 {
        Seq::empty()
    } else if s.last() == c {
        replaced(s.drop_last(), c, by) + by
    } else {
        replaced(s.drop_last(), c, by).push(s.last())
    }
}

/// `s` with every `c` replaced by `by`.
pub fn replace(s: &str, c: char, by: &str) -> (r: String)
    ensures
        r@ == replaced(s@, c, by@),
{
    let v = chars_of(s);
    let mut out = String::new();
    let mut i: usize = 0;
    while i < v.len()
        invariant
            i <= v@.len(),
            out@ == replaced(v@.take(i as int), c, by@),
        decreases v@.len() - i,
    {
        let ghost t = v@.take(i + 1);
        assert(t.drop_last() == v@.take(i as int));
        assert(t.last() == v@[i as int]);
        if v[i] == c {
            out.append(by);
        } else {
            out.push(v[i]);
        }
        i += 1;
    }
    assert(v@.take(i as int) == v@);
    out
}

/// The texts of `parts` with `sep` between them.
pub open spec fn joined(parts: Seq<Seq<char>>, sep: Seq<char>) -> Seq<char>
    decreases parts.len(),
{
    if parts.len() == 0 {
        Seq::empty()
    } else if parts.len() == 1 {
        parts[0]
    } else {
        joined(parts.drop_last(), sep) + sep + parts.last()
    }
}

/// The texts of `parts` with `sep` between them.
pub fn join(parts: &Vec<String>, sep: &str) -> (r: String)
    ensures
        r@ == joined(parts.deep_view(), sep@),
{
    let mut out = String::new();
    let mut i: usize = 0;
    let ghost p = parts.deep_view();
    while i < parts.len()
        invariant
            p == parts.deep_view(),
            i <= parts@.len(),
            out@ == joined(p.take(i as int), sep@),
        decreases parts@.len() - i,
    {
        let ghost t = p.take(i + 1);
        assert(t.drop_last() == p.take(i as int));
        assert(t.last() == parts@[i as int]@);
        if i > 0 {
            out.append(sep);
        }
        let ghost before = out@;
        out.append(parts[i].as_str());
        assert(i == 0 ==> before + parts@[i as int]@ == parts@[i as int]@);
        i += 1;
    }
    assert(p.take(i as int) == p);
    out
}

/// Replacing brings in no character that is neither there nor in what is put in.
pub proof fn lemma_replaced_lacks(s: Seq<char>, c: char, by: Seq<char>, d: char)
    requires
        !by.contains(d),
        d == c || !s.contains(d),
    ensures
        !replaced(s, c, by).contains(d),
    decreases s.len(),
{
    if s.len() > 0 {
        let t = s.drop_last();
        assert(!t.contains(d) || d == c) by {
            if t.contains(d) {
                let i = choose|i: int| 0 <= i < t.len() && t[i] == d;
                assert(s[i] == d);
            }
        }
        lemma_replaced_lacks(t, c, by, d);
        let a = replaced(t, c, by);
        let r = replaced(s, c, by);
        if r.contains(d) {
            let i = choose|i: int| 0 <= i < r.len() && r[i] == d;
            if i < a.len() {
                assert(a[i] == d);
            } else if s.last() == c {
                assert(by[i - a.len()] == d);
            } else {
                assert(s[s.len() - 1] == d);
            }
        }
    }
}

/// Behind a piece without separators stand the other pieces.
pub proof fn law_a_piece_ends_at_its_separator(a: Seq<char>, c: char, rest: Seq<char>)
    requires
        !a.contains(c),
    ensures
        pieces(a + seq![c] + rest, c) == seq![a] + pieces(rest, c),
        pieces(a, c) == seq![a],
        before_first(a + seq![c] + rest, c) == a,
        after_first(a + seq![c] + rest, c) == rest,
        before_first(a, c) == a,
{
    let s = a + seq![c] + rest;
    let n = a.len() as int;
    assert forall|j: int| 0 <= j < n implies s[j] != c by {
        assert(s[j] == a[j]);
        assert(a.contains(a[j]));
    }
    assert forall|j: int| 0 <= j < n implies a[j] != c by {
        assert(a.contains(a[j]));
    }
    lemma_first_of(s, c, n);
    lemma_first_of(a, c, n);
    assert(s.take(n) =~= a);
    assert(s.skip(n + 1) =~= rest);
    assert(a.take(n) =~= a);
}

/// What follows the last separator is what stands behind it, or all where there is none.
pub proof fn law_the_tail_stands_behind_the_last_separator(a: Seq<char>, c: char, rest: Seq<char>)
    requires
        !rest.contains(c),
    ensures
        after_last(a + seq![c] + rest, c) == rest,
        after_last(rest, c) == rest,
{
    let s = a + seq![c] + rest;
    let n = a.len() + 1;
    assert forall|j: int| n <= j < s.len() implies s[j] != c by {
        assert(s[j] == rest[j - n]);
        assert(rest.contains(rest[j - n]));
    }
    assert forall|j: int| 0 <= j < rest.len() implies rest[j] != c by {
        assert(rest.contains(rest[j]));
    }
    lemma_after_last(s, c, n as int);
    lemma_after_last(rest, c, 0);
    assert(s.skip(n as int) =~= rest);
    assert(rest.skip(0) =~= rest);
}

/// Words are told by the white space between them: none before the first one counts, each ends
/// before the next white space, and nothing in them is lost.
pub proof fn law_words_end_at_white_space(w: Seq<char>, c: char, rest: Seq<char>)
    requires
        w.len() > 0,
        forall|i: int| 0 <= i < w.len() ==> !is_space(#[trigger] w[i]),
        is_space(c),
    ensures
        words(w + seq![c] + rest) == seq![w] + words(rest),
        words(seq![c] + rest) == words(rest),
        words(w) == seq![w],
        words(Seq::<char>::empty()).len() == 0,
{
    let s = w + seq![c] + rest;
    let n = w.len() as int;
    let none = Seq::<char>::empty();
    assert forall|j: int| 0 <= j < n implies !is_space(#[trigger] s[j]) by {
        assert(s[j] == w[j]);
    }
    lemma_word_len(s, n);
    lemma_word_len(w, n);
    assert(start_trimmed(s, Class::Space) == s);
    assert(start_trimmed(w, Class::Space) == w);
    assert(s.take(n) =~= w);
    assert(w.take(n) =~= w);
    let t = seq![c] + rest;
    assert(s.skip(n) =~= t);
    lemma_words_skip_space(t);
    assert(t.skip(1) =~= rest);
    assert(w.skip(n) =~= none);
    assert(start_trimmed(none, Class::Space) =~= none);
    assert(words(none) =~= Seq::<Seq<char>>::empty());
    assert(words(w) =~= seq![w]);
}

/// A line ends at a line feed, with a carriage return before it or without; an unfinished last line
/// counts, and nothing behind the last line feed does not.
pub proof fn law_lines_end_at_line_feeds(l: Seq<char>, rest: Seq<char>)
    requires
        !l.contains('\n'),
        l.len() == 0 || l.last() != '\r',
    ensures
        text_lines(l + seq!['\n'] + rest) == seq![l] + text_lines(rest),
        text_lines(l + seq!['\r', '\n'] + rest) == seq![l] + text_lines(rest),
        l.len() > 0 ==> text_lines(l) == seq![l],
        text_lines(Seq::<char>::empty()).len() == 0,
{
    let s = l + seq!['\n'] + rest;
    let t = l + seq!['\r', '\n'] + rest;
    let n = l.len() as int;
    assert forall|j: int| 0 <= j < n implies l[j] != '\n' && s[j] != '\n' && t[j] != '\n' by {
        assert(l.contains(l[j]));
        assert(s[j] == l[j] && t[j] == l[j]);
    }
    assert(t[n] == '\r' && t[n + 1] == '\n');
    lemma_first_of(s, '\n', n);
    lemma_first_of(t, '\n', n + 1);
    lemma_first_of(l, '\n', n);
    assert(s.take(n) =~= l);
    assert(s.skip(n + 1) =~= rest);
    assert(t.take(n + 1) =~= l.push('\r'));
    assert(t.take(n + 1).drop_last() =~= l);
    assert(t.skip(n + 2) =~= rest);
}

/// Replacing goes through a text part by part: a character that is to go is replaced, and any other
/// one stays.
pub proof fn law_replacing_goes_part_by_part(
    a: Seq<char>,
    b: Seq<char>,
    c: char,
    by: Seq<char>,
    d: char,
)
    ensures
        replaced(a + b, c, by) == replaced(a, c, by) + replaced(b, c, by),
        replaced(seq![c], c, by) == by,
        d != c ==> replaced(seq![d], c, by) == seq![d],
        replaced(Seq::<char>::empty(), c, by).len() == 0,
    decreases b.len(),
{
    let none = Seq::<char>::empty();
    assert(seq![c].drop_last() =~= none);
    assert(seq![d].drop_last() =~= none);
    assert(replaced(none, c, by) == none);
    assert(none + by =~= by);
    assert(none.push(d) =~= seq![d]);
    if b.len() == 0 {
        assert(a + b =~= a);
        assert(replaced(a, c, by) + replaced(b, c, by) =~= replaced(a, c, by));
    } else {
        let t = b.drop_last();
        law_replacing_goes_part_by_part(a, t, c, by, d);
        assert((a + b).drop_last() =~= a + t);
        assert(replaced(a + b, c, by) =~= replaced(a, c, by) + replaced(b, c, by));
    }
}

/// Texts are joined in their order, with the separator between each two and nowhere else.
pub proof fn law_a_separator_stands_between_texts(
    a: Seq<Seq<char>>,
    b: Seq<Seq<char>>,
    sep: Seq<char>,
)
    requires
        a.len() > 0,
        b.len() > 0,
    ensures
        joined(a + b, sep) == joined(a, sep) + sep + joined(b, sep),
        a.len() == 1 ==> joined(a, sep) == a[0],
        joined(Seq::<Seq<char>>::empty(), sep).len() == 0,
    decreases b.len(),
{
    let s = a + b;
    let t = b.drop_last();
    assert(s.drop_last() =~= a + t);
    assert(s.last() == b.last());
    if b.len() == 1 {
        assert(a + t =~= a);
    } else {
        law_a_separator_stands_between_texts(a, t, sep);
        assert(joined(s, sep) =~= joined(a, sep) + sep + joined(b, sep));
    }
}

/// Pieces with their separators put back make up the text again, and no piece holds a separator.
pub proof fn law_pieces_make_up_the_text(s: Seq<char>, c: char)
    ensures
        joined(pieces(s, c), seq![c]) == s,
        pieces(s, c).len() > 0,
        forall|i: int| 0 <= i < pieces(s, c).len() ==> !(#[trigger] pieces(s, c)[i]).contains(c),
    decreases s.len(),
{
    lemma_first_of_bounds(s, c);
    let i = first_of(s, c);
    if i < s.len() {
        let a = s.take(i);
        let rest = s.skip(i + 1);
        law_pieces_make_up_the_text(rest, c);
        law_a_separator_stands_between_texts(seq![a], pieces(rest, c), seq![c]);
        assert(a + seq![c] + rest =~= s);
        assert(!a.contains(c)) by {
            if a.contains(c) {
                let j = choose|j: int| 0 <= j < a.len() && a[j] == c;
                assert(s[j] == c);
            }
        }
        assert forall|k: int| 0 <= k < pieces(s, c).len() implies !(#[trigger] pieces(
            s,
            c,
        )[k]).contains(c) by {
            if k > 0 {
                assert(pieces(s, c)[k] == pieces(rest, c)[k - 1]);
            }
        }
    } else {
        assert(!s.contains(c)) by {
            if s.contains(c) {
                let j = choose|j: int| 0 <= j < s.len() && s[j] == c;
                assert(s[j] == c);
            }
        }
    }
}

/// The pieces of two texts with a separator between them are those of the first one, and behind
/// them those of the second one.
pub proof fn law_a_separator_parts_the_pieces(a: Seq<char>, c: char, b: Seq<char>)
    ensures
        pieces(a + seq![c] + b, c) == pieces(a, c) + pieces(b, c),
    decreases a.len(),
{
    lemma_first_of_bounds(a, c);
    let i = first_of(a, c);
    let x = a.take(i);
    assert(!x.contains(c)) by {
        if x.contains(c) {
            let j = choose|j: int| 0 <= j < x.len() && x[j] == c;
            assert(a[j] == c);
        }
    }
    if i < a.len() {
        let rest = a.skip(i + 1);
        assert(a =~= x + seq![c] + rest);
        assert(a + seq![c] + b =~= x + seq![c] + (rest + seq![c] + b));
        law_a_piece_ends_at_its_separator(x, c, rest + seq![c] + b);
        law_a_piece_ends_at_its_separator(x, c, rest);
        law_a_separator_parts_the_pieces(rest, c, b);
        assert(seq![x] + (pieces(rest, c) + pieces(b, c)) =~= (seq![x] + pieces(rest, c)) + pieces(
            b,
            c,
        ));
    } else {
        assert(x =~= a);
        law_a_piece_ends_at_its_separator(a, c, b);
    }
}

} // verus!
