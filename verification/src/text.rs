//! Text: the string operations that the rest of the library is written with.
//!
//! Every operation is stated over the sequence of characters of its arguments.
use vstd::prelude::*;

verus! {

/// `String::push` appends one character.
pub assume_specification[ String::push ](s: &mut String, c: char)
    ensures
        final(s)@ == old(s)@.push(c),
;

/// The characters of `s`, in order.
pub fn chars_of(s: &str) -> (r: Vec<char>)
    ensures
        r@ == s@,
{
    let mut out: Vec<char> = Vec::new();
    for c in iter: s.chars()
        invariant
            out@ == iter.seq().take(iter.index() as int),
            iter.seq() == s@,
    {
        out.push(c);
        assert(out@ == iter.seq().take(iter.index() as int + 1));
    }
    out
}

/// The text that the characters of `v` spell from `from` up to `to`.
pub fn text_of(v: &Vec<char>, from: usize, to: usize) -> (r: String)
    requires
        from <= to <= v@.len(),
    ensures
        r@ == v@.subrange(from as int, to as int),
{
    let mut out = String::new();
    let mut i: usize = from;
    while i < to
        invariant
            from <= i <= to <= v@.len(),
            out@ == v@.subrange(from as int, i as int),
        decreases to - i,
    {
        out.push(v[i]);
        i += 1;
        assert(out@ == v@.subrange(from as int, i as int));
    }
    out
}

/// Whether two texts are the same, character for character.
pub fn same(a: &str, b: &str) -> (r: bool)
    ensures
        r == (a@ == b@),
{
    let x = chars_of(a);
    let y = chars_of(b);
    same_chars(&x, &y)
}

fn same_chars(x: &Vec<char>, y: &Vec<char>) -> (r: bool)
    ensures
        r == (x@ == y@),
{
    if x.len() != y.len() {
        return false;
    }
    let mut i: usize = 0;
    while i < x.len()
        invariant
            x@.len() == y@.len(),
            i <= x@.len(),
            forall|j: int| 0 <= j < i ==> x@[j] == y@[j],
        decreases x@.len() - i,
    {
        if x[i] != y[i] {
            return false;
        }
        i += 1;
    }
    assert(x@ =~= y@);
    true
}

/// The characters that Unicode calls white space.
pub open spec fn is_space(c: char) -> bool {
    let u = c as u32;
    ||| 0x9 <= u <= 0xd
    ||| u == 0x20
    ||| u == 0x85
    ||| u == 0xa0
    ||| u == 0x1680
    ||| 0x2000 <= u <= 0x200a
    ||| u == 0x2028
    ||| u == 0x2029
    ||| u == 0x202f
    ||| u == 0x205f
    ||| u == 0x3000
}

/// Whether `c` is white space.
pub fn is_whitespace(c: char) -> (r: bool)
    ensures
        r == is_space(c),
{
    let u: u32 = c as u32;
    (0x9 <= u && u <= 0xd) || u == 0x20 || u == 0x85 || u == 0xa0 || u == 0x1680 || (0x2000 <= u
        && u <= 0x200a) || u == 0x2028 || u == 0x2029 || u == 0x202f || u == 0x205f || u == 0x3000
}

/// The characters that a trim removes: white space, or one given character.
#[derive(Clone, Copy)]
pub enum Class {
    Space,
    Only(char),
}

impl Class {
    pub open spec fn has(self, c: char) -> bool {
        match self {
            Class::Space => is_space(c),
            Class::Only(x) => c == x,
        }
    }

    fn holds(self, c: char) -> (r: bool)
        ensures
            r == self.has(c),
    {
        match self {
            Class::Space => is_whitespace(c),
            Class::Only(x) => c == x,
        }
    }
}

/// `s` without the characters of `k` at its start.
pub open spec fn start_trimmed(s: Seq<char>, k: Class) -> Seq<char>
    decreases s.len(),
{
    if s.len() > 0 && k.has(s[0]) {
        start_trimmed(s.drop_first(), k)
    } else {
        s
    }
}

/// `s` without the characters of `k` at its end.
pub open spec fn end_trimmed(s: Seq<char>, k: Class) -> Seq<char>
    decreases s.len(),
{
    if s.len() > 0 && k.has(s.last()) {
        end_trimmed(s.drop_last(), k)
    } else {
        s
    }
}

/// `s` without the characters of `k` at its two ends.
pub open spec fn both_trimmed(s: Seq<char>, k: Class) -> Seq<char> {
    end_trimmed(start_trimmed(s, k), k)
}

/// `s` without the white space at its two ends.
pub open spec fn trimmed(s: Seq<char>) -> Seq<char> {
    both_trimmed(s, Class::Space)
}

/// Whether `s` holds nothing but white space.
pub open spec fn is_blank(s: Seq<char>) -> bool {
    forall|i: int| 0 <= i < s.len() ==> is_space(#[trigger] s[i])
}

proof fn lemma_start_trimmed(s: Seq<char>, k: Class, i: int)
    requires
        0 <= i <= s.len(),
        forall|j: int| 0 <= j < i ==> k.has(#[trigger] s[j]),
        i == s.len() || !k.has(s[i]),
    ensures
        start_trimmed(s, k) == s.skip(i),
    decreases i,
{
    if i > 0 {
        assert(k.has(s[0]));
        let t = s.drop_first();
        assert forall|j: int| 0 <= j < i - 1 implies k.has(#[trigger] t[j]) by {
            assert(t[j] == s[j + 1]);
        }
        lemma_start_trimmed(t, k, i - 1);
        assert(t.skip(i - 1) == s.skip(i));
    } else {
        assert(s.skip(0) == s);
    }
}

proof fn lemma_end_trimmed(s: Seq<char>, k: Class, i: int)
    requires
        0 <= i <= s.len(),
        forall|j: int| i <= j < s.len() ==> k.has(#[trigger] s[j]),
        i == 0 || !k.has(s[i - 1]),
    ensures
        end_trimmed(s, k) == s.take(i),
    decreases s.len() - i,
{
    if i < s.len() {
        assert(k.has(s[s.len() - 1]));
        let t = s.drop_last();
        lemma_end_trimmed(t, k, i);
        assert(t.take(i) == s.take(i));
    } else {
        assert(s.take(i) == s);
    }
}

/// Trimming the start leaves an end of the text that does not start with what was trimmed.
pub proof fn lemma_start_trimmed_shape(s: Seq<char>, k: Class)
    ensures
        start_trimmed(s, k).len() <= s.len(),
        start_trimmed(s, k) == s.skip(s.len() - start_trimmed(s, k).len()),
        start_trimmed(s, k).len() > 0 ==> !k.has(start_trimmed(s, k)[0]),
    decreases s.len(),
{
    if s.len() > 0 && k.has(s[0]) {
        lemma_start_trimmed_shape(s.drop_first(), k);
        let a = start_trimmed(s, k);
        assert(s.drop_first().skip(s.len() - 1 - a.len()) == s.skip(s.len() - a.len()));
    } else {
        assert(s.skip(0) == s);
    }
}

/// Trimming the end leaves a start of the text that does not end with what was trimmed.
pub proof fn lemma_end_trimmed_shape(s: Seq<char>, k: Class)
    ensures
        end_trimmed(s, k).len() <= s.len(),
        end_trimmed(s, k) == s.take(end_trimmed(s, k).len() as int),
        end_trimmed(s, k).len() > 0 ==> !k.has(end_trimmed(s, k).last()),
    decreases s.len(),
{
    if s.len() > 0 && k.has(s.last()) {
        lemma_end_trimmed_shape(s.drop_last(), k);
        let a = end_trimmed(s, k);
        assert(s.drop_last().take(a.len() as int) == s.take(a.len() as int));
    } else {
        assert(s.take(s.len() as int) == s);
    }
}

/// The number of characters of `k` that `v` starts with.
fn leading(v: &Vec<char>, k: Class) -> (i: usize)
    ensures
        i <= v@.len(),
        start_trimmed(v@, k) == v@.skip(i as int),
{
    let mut i: usize = 0;
    while i < v.len() && k.holds(v[i])
        invariant
            i <= v@.len(),
            forall|j: int| 0 <= j < i ==> k.has(#[trigger] v@[j]),
        decreases v@.len() - i,
    {
        i += 1;
    }
    proof {
        lemma_start_trimmed(v@, k, i as int);
    }
    i
}

/// Where the part of `v` from `from` on ends once the characters of `k` are taken from its end.
fn trailing(v: &Vec<char>, from: usize, k: Class) -> (i: usize)
    requires
        from <= v@.len(),
    ensures
        from <= i <= v@.len(),
        end_trimmed(v@.skip(from as int), k) == v@.subrange(from as int, i as int),
{
    let mut i: usize = v.len();
    while i > from && k.holds(v[i - 1])
        invariant
            from <= i <= v@.len(),
            forall|j: int| i <= j < v@.len() ==> k.has(#[trigger] v@[j]),
        decreases i,
    {
        i -= 1;
    }
    proof {
        let s = v@.skip(from as int);
        assert forall|j: int| i - from <= j < s.len() implies k.has(#[trigger] s[j]) by {
            assert(s[j] == v@[j + from]);
        }
        lemma_end_trimmed(s, k, i - from);
        assert(s.take(i - from) == v@.subrange(from as int, i as int));
    }
    i
}

/// `s` without the characters of `k` at its start.
pub fn trim_start(s: &str, k: Class) -> (r: String)
    ensures
        r@ == start_trimmed(s@, k),
{
    let v = chars_of(s);
    let i = leading(&v, k);
    assert(v@.skip(i as int) == v@.subrange(i as int, v@.len() as int));
    text_of(&v, i, v.len())
}

/// `s` without the characters of `k` at its end.
pub fn trim_end(s: &str, k: Class) -> (r: String)
    ensures
        r@ == end_trimmed(s@, k),
{
    let v = chars_of(s);
    let i = trailing(&v, 0, k);
    assert(v@.skip(0) == v@);
    text_of(&v, 0, i)
}

/// `s` without the characters of `k` at its two ends.
pub fn trim_both(s: &str, k: Class) -> (r: String)
    ensures
        r@ == both_trimmed(s@, k),
{
    let v = chars_of(s);
    let i = leading(&v, k);
    let j = trailing(&v, i, k);
    text_of(&v, i, j)
}

/// `s` without the white space at its two ends.
pub fn trim(s: &str) -> (r: String)
    ensures
        r@ == trimmed(s@),
{
    trim_both(s, Class::Space)
}

/// Trimming leaves nothing exactly where there was nothing but white space.
pub proof fn lemma_blank_trims_to_nothing(s: Seq<char>)
    ensures
        trimmed(s).len() == 0 <==> is_blank(s),
    decreases s.len(),
{
    if s.len() > 0 && is_space(s[0]) {
        let t = s.drop_first();
        lemma_blank_trims_to_nothing(t);
        if is_blank(t) {
            assert forall|i: int| 0 <= i < s.len() implies is_space(#[trigger] s[i]) by {
                if i > 0 {
                    assert(s[i] == t[i - 1]);
                }
            }
        }
        if is_blank(s) {
            assert forall|i: int| 0 <= i < t.len() implies is_space(#[trigger] t[i]) by {
                assert(t[i] == s[i + 1]);
            }
        }
    } else if s.len() > 0 {
        lemma_end_trimmed_keeps_first(s, Class::Space);
    }
}

proof fn lemma_end_trimmed_keeps_first(s: Seq<char>, k: Class)
    requires
        s.len() > 0,
        !k.has(s[0]),
    ensures
        end_trimmed(s, k).len() > 0,
        end_trimmed(s, k)[0] == s[0],
    decreases s.len(),
{
    if k.has(s.last()) {
        lemma_end_trimmed_keeps_first(s.drop_last(), k);
    }
}

/// Whether `s` holds nothing but white space.
pub fn blank(s: &str) -> (r: bool)
    ensures
        r == is_blank(s@),
        r == (trimmed(s@).len() == 0),
{
    let v = chars_of(s);
    proof {
        lemma_blank_trims_to_nothing(s@);
    }
    let mut i: usize = 0;
    while i < v.len()
        invariant
            v@ == s@,
            i <= v@.len(),
            is_blank(s@) == (trimmed(s@).len() == 0),
            forall|j: int| 0 <= j < i ==> is_space(#[trigger] v@[j]),
        decreases v@.len() - i,
    {
        if !is_whitespace(v[i]) {
            return false;
        }
        i += 1;
    }
    true
}

/// Whether `p` stands in `s` at position `i`.
pub open spec fn stands_at(s: Seq<char>, p: Seq<char>, i: int) -> bool {
    0 <= i && i + p.len() <= s.len() && s.subrange(i, i + p.len()) == p
}

/// Whether `p` stands somewhere in `s`.
pub open spec fn occurs(s: Seq<char>, p: Seq<char>) -> bool {
    exists|i: int| stands_at(s, p, i)
}

/// Whether `s` starts with `p`.
pub open spec fn has_prefix(s: Seq<char>, p: Seq<char>) -> bool {
    stands_at(s, p, 0)
}

/// Whether `s` ends with `p`.
pub open spec fn has_suffix(s: Seq<char>, p: Seq<char>) -> bool {
    stands_at(s, p, s.len() - p.len())
}

fn chars_at(s: &Vec<char>, p: &Vec<char>, i: usize) -> (r: bool)
    requires
        i <= s@.len(),
    ensures
        r == stands_at(s@, p@, i as int),
{
    let n: usize = s.len();
    if p.len() > n - i {
        return false;
    }
    let mut j: usize = 0;
    while j < p.len()
        invariant
            n == s@.len(),
            i + p@.len() <= n,
            j <= p@.len(),
            forall|l: int| 0 <= l < j ==> s@[i + l] == #[trigger] p@[l],
        decreases p@.len() - j,
    {
        if s[i + j] != p[j] {
            assert(s@.subrange(i as int, i + p@.len())[j as int] == s@[i + j]);
            return false;
        }
        j += 1;
    }
    assert(s@.subrange(i as int, i + p@.len()) =~= p@);
    true
}

/// Where `p` first stands in `s`, if it does.
pub open spec fn is_first(s: Seq<char>, p: Seq<char>, i: int) -> bool {
    &&& stands_at(s, p, i)
    &&& forall|j: int| 0 <= j < i ==> !stands_at(s, p, j)
}

/// The position at which `p` first stands in `s`.
pub fn find(s: &Vec<char>, p: &Vec<char>) -> (r: Option<usize>)
    ensures
        match r {
            Some(i) => is_first(s@, p@, i as int),
            None => !occurs(s@, p@),
        },
{
    let mut i: usize = 0;
    while i < s.len()
        invariant
            i <= s@.len(),
            forall|j: int| 0 <= j < i ==> !stands_at(s@, p@, j),
        decreases s@.len() - i,
    {
        if chars_at(s, p, i) {
            return Some(i);
        }
        i += 1;
    }
    if p.len() == 0 {
        assert(s@.subrange(i as int, i + p@.len()) =~= p@);
        return Some(i);
    }
    None
}

/// Whether `p` stands somewhere in `s`.
pub fn contains(s: &str, p: &str) -> (r: bool)
    ensures
        r == occurs(s@, p@),
{
    let v = chars_of(s);
    let w = chars_of(p);
    find(&v, &w).is_some()
}

/// Whether `s` starts with `p`.
pub fn starts_with(s: &str, p: &str) -> (r: bool)
    ensures
        r == has_prefix(s@, p@),
{
    let v = chars_of(s);
    let w = chars_of(p);
    chars_at(&v, &w, 0)
}

/// Whether `s` ends with `p`.
pub fn ends_with(s: &str, p: &str) -> (r: bool)
    ensures
        r == has_suffix(s@, p@),
{
    let v = chars_of(s);
    let w = chars_of(p);
    if w.len() > v.len() {
        return false;
    }
    chars_at(&v, &w, v.len() - w.len())
}

/// What follows `p` in `s`, where `s` starts with it.
pub fn strip_prefix(s: &str, p: &str) -> (r: Option<String>)
    ensures
        match r {
            Some(t) => has_prefix(s@, p@) && t@ == s@.skip(p@.len() as int),
            None => !has_prefix(s@, p@),
        },
{
    let v = chars_of(s);
    let w = chars_of(p);
    if !chars_at(&v, &w, 0) {
        return None;
    }
    assert(s@.skip(p@.len() as int) == v@.subrange(p@.len() as int, v@.len() as int));
    Some(text_of(&v, w.len(), v.len()))
}

/// What precedes `p` in `s`, where `s` ends with it.
pub fn strip_suffix(s: &str, p: &str) -> (r: Option<String>)
    ensures
        match r {
            Some(t) => has_suffix(s@, p@) && t@ == s@.take(s@.len() - p@.len()),
            None => !has_suffix(s@, p@),
        },
{
    let v = chars_of(s);
    let w = chars_of(p);
    if w.len() > v.len() || !chars_at(&v, &w, v.len() - w.len()) {
        return None;
    }
    assert(s@.take(s@.len() - p@.len()) == v@.subrange(0, s@.len() - p@.len()));
    Some(text_of(&v, 0, v.len() - w.len()))
}

/// `s` without any `p` at its end, however often it stands there.
pub open spec fn suffix_trimmed(s: Seq<char>, p: Seq<char>) -> Seq<char>
    decreases s.len(),
{
    if p.len() > 0 && has_suffix(s, p) {
        suffix_trimmed(s.take(s.len() - p.len()), p)
    } else {
        s
    }
}

/// `s` without any `p` at its end, however often it stands there.
pub fn trim_suffix(s: &str, p: &str) -> (r: String)
    ensures
        r@ == suffix_trimmed(s@, p@),
{
    let v = chars_of(s);
    let w = chars_of(p);
    let mut n: usize = v.len();
    assert(v@.take(n as int) == v@);
    if w.len() > 0 {
        while n >= w.len() && chars_upto(&v, &w, n)
            invariant
                w@ == p@,
                w@.len() > 0,
                n <= v@.len(),
                suffix_trimmed(v@, p@) == suffix_trimmed(v@.take(n as int), p@),
            ensures
                n <= v@.len(),
                suffix_trimmed(v@, p@) == suffix_trimmed(v@.take(n as int), p@),
                n < w@.len() || !has_suffix(v@.take(n as int), w@),
            decreases n,
        {
            n -= w.len();
            assert(v@.take(n + w@.len()).take(n as int) == v@.take(n as int));
        }
    }
    assert(v@.take(n as int) == v@.subrange(0, n as int));
    text_of(&v, 0, n)
}

fn chars_upto(v: &Vec<char>, w: &Vec<char>, n: usize) -> (r: bool)
    requires
        w@.len() <= n <= v@.len(),
    ensures
        r == has_suffix(v@.take(n as int), w@),
{
    let ghost t = v@.take(n as int);
    assert(t.subrange(n - w@.len(), n as int) == v@.subrange(n - w@.len(), n as int));
    chars_at(v, w, n - w.len())
}

/// What is put together holds its parts: the first at its start, the last at its end, and each
/// somewhere.
pub proof fn law_a_text_holds_its_parts(a: Seq<char>, b: Seq<char>, c: Seq<char>)
    ensures
        has_prefix(a + b, a),
        has_suffix(a + b, b),
        occurs(a + b + c, a),
        occurs(a + b + c, b),
        occurs(a + b + c, c),
{
    let s = a + b + c;
    let n = a.len() as int;
    let m = n + b.len();
    assert((a + b).subrange(0, n) =~= a);
    assert((a + b).subrange(n, m) =~= b);
    assert(s.subrange(0, n) =~= a);
    assert(s.subrange(n, m) =~= b);
    assert(s.subrange(m, s.len() as int) =~= c);
    assert(stands_at(s, a, 0));
    assert(stands_at(s, b, n));
    assert(stands_at(s, c, m));
}

/// A text stands in another one only where that one is made of it and of what is around it.
pub proof fn law_what_stands_in_a_text_is_part_of_it(s: Seq<char>, p: Seq<char>)
    ensures
        has_prefix(s, p) ==> s == p + s.skip(p.len() as int),
        has_suffix(s, p) ==> s == s.take(s.len() - p.len()) + p,
        occurs(s, p) ==> exists|a: Seq<char>, b: Seq<char>| s == #[trigger] (a + p + b),
{
    if has_prefix(s, p) {
        assert(s =~= s.subrange(0, p.len() as int) + s.skip(p.len() as int));
    }
    if has_suffix(s, p) {
        let i = s.len() - p.len();
        assert(s =~= s.take(i) + s.subrange(i, i + p.len()));
    }
    if occurs(s, p) {
        let i = choose|i: int| stands_at(s, p, i);
        let a = s.take(i);
        let b = s.skip(i + p.len());
        assert(s =~= a + s.subrange(i, i + p.len()) + b);
        assert(s == a + p + b);
    }
}

/// Among the characters of ASCII, white space is the blank and what moves along a line or to
/// another one.
pub proof fn law_blanks_tabs_and_line_ends_are_space(c: char)
    requires
        c as u32 <= 127,
    ensures
        is_space(c) <==> c == ' ' || c == '\t' || c == '\n' || c == '\r' || c as u32 == 11 || c
            as u32 == 12,
{
}

proof fn lemma_start_trim_splits(s: Seq<char>, k: Class)
    ensures
        ({
            let n = s.len() - start_trimmed(s, k).len();
            &&& 0 <= n <= s.len()
            &&& start_trimmed(s, k) == s.skip(n)
            &&& forall|i: int| 0 <= i < n ==> k.has(#[trigger] s[i])
            &&& n < s.len() ==> !k.has(s[n])
        }),
    decreases s.len(),
{
    if s.len() > 0 && k.has(s[0]) {
        let t = s.drop_first();
        lemma_start_trim_splits(t, k);
        let n = s.len() - start_trimmed(s, k).len();
        assert(t.skip(n - 1) =~= s.skip(n));
        assert forall|i: int| 0 <= i < n implies k.has(#[trigger] s[i]) by {
            if i > 0 {
                assert(s[i] == t[i - 1]);
            }
        }
        if n < s.len() {
            assert(s[n] == t[n - 1]);
        }
    } else {
        assert(s.skip(0) =~= s);
    }
}

proof fn lemma_end_trim_splits(s: Seq<char>, k: Class)
    ensures
        ({
            let n = end_trimmed(s, k).len() as int;
            &&& 0 <= n <= s.len()
            &&& end_trimmed(s, k) == s.take(n)
            &&& forall|i: int| n <= i < s.len() ==> k.has(#[trigger] s[i])
            &&& n > 0 ==> !k.has(s[n - 1])
        }),
    decreases s.len(),
{
    if s.len() > 0 && k.has(s.last()) {
        let t = s.drop_last();
        lemma_end_trim_splits(t, k);
        let n = end_trimmed(s, k).len() as int;
        assert(t.take(n) =~= s.take(n));
        assert forall|i: int| n <= i < s.len() implies k.has(#[trigger] s[i]) by {
            if i < t.len() {
                assert(s[i] == t[i]);
            }
        }
    } else {
        assert(s.take(s.len() as int) =~= s);
    }
}

/// Trimming takes away characters of its class at the ends, all of them, and nothing else.
pub proof fn law_trimming_takes_only_the_ends(s: Seq<char>, k: Class)
    ensures
        exists|i: int, j: int|
            0 <= i <= j <= s.len() && both_trimmed(s, k) == #[trigger] s.subrange(i, j) && (forall|
                l: int,
            |
                0 <= l < i || j <= l < s.len() ==> k.has(#[trigger] s[l])),
        both_trimmed(s, k).len() > 0 ==> !k.has(both_trimmed(s, k)[0]) && !k.has(
            both_trimmed(s, k).last(),
        ),
        start_trimmed(s, k).len() > 0 ==> !k.has(start_trimmed(s, k)[0]),
        has_suffix(s, start_trimmed(s, k)),
        end_trimmed(s, k).len() > 0 ==> !k.has(end_trimmed(s, k).last()),
        has_prefix(s, end_trimmed(s, k)),
{
    let t = start_trimmed(s, k);
    lemma_start_trim_splits(s, k);
    lemma_end_trim_splits(t, k);
    lemma_end_trim_splits(s, k);
    let i = s.len() - t.len();
    let n = end_trimmed(t, k).len() as int;
    let j = i + n;
    assert(t.take(n) =~= s.subrange(i, j));
    assert forall|l: int| 0 <= l < i || j <= l < s.len() implies k.has(#[trigger] s[l]) by {
        if l >= j {
            assert(s[l] == t[l - i]);
        }
    }
    assert(both_trimmed(s, k) == s.subrange(i, j));
    if n > 0 {
        assert(both_trimmed(s, k)[0] == t[0]);
        assert(t[0] == s[i]);
        assert(both_trimmed(s, k).last() == t[n - 1]);
    }
    assert(s.subrange(i, s.len() as int) =~= t);
    assert(s.subrange(0, end_trimmed(s, k).len() as int) =~= end_trimmed(s, k));
}

/// A blank text is one of which trimming leaves nothing.
pub proof fn law_nothing_is_left_of_a_blank_text(s: Seq<char>)
    ensures
        is_blank(s) <==> trimmed(s).len() == 0,
{
    let k = Class::Space;
    law_trimming_takes_only_the_ends(s, k);
    let (i, j) = choose|i: int, j: int|
        0 <= i <= j <= s.len() && both_trimmed(s, k) == #[trigger] s.subrange(i, j) && (forall|
            l: int,
        |
            0 <= l < i || j <= l < s.len() ==> k.has(#[trigger] s[l]));
    if is_blank(s) && trimmed(s).len() > 0 {
        assert(is_space(s[i]));
    }
    if trimmed(s).len() == 0 {
        assert forall|l: int| 0 <= l < s.len() implies is_space(#[trigger] s[l]) by {
            assert(k.has(s[l]));
        }
    }
}

/// A text at the end is trimmed as often as it stands there, and nothing else is.
pub proof fn law_endings_are_trimmed(s: Seq<char>, p: Seq<char>)
    requires
        p.len() > 0,
    ensures
        !has_suffix(suffix_trimmed(s, p), p),
        !has_suffix(s, p) ==> suffix_trimmed(s, p) == s,
        suffix_trimmed(s + p, p) == suffix_trimmed(s, p),
    decreases s.len(),
{
    let w = s + p;
    law_a_text_holds_its_parts(s, p, Seq::empty());
    assert(w.take(w.len() - p.len()) =~= s);
    if has_suffix(s, p) {
        law_endings_are_trimmed(s.take(s.len() - p.len()), p);
    }
}

pub proof fn lemma_two_parts(a: Seq<char>, b: Seq<char>)
    ensures
        has_prefix(a + b, a),
        has_suffix(a + b, b),
{
    assert((a + b).subrange(0, a.len() as int) =~= a);
    assert((a + b).subrange(a.len() as int, (a + b).len() as int) =~= b);
}

pub proof fn lemma_part_within(a: Seq<char>, b: Seq<char>, c: Seq<char>)
    ensures
        occurs(a + b + c, b),
{
    let s = a + b + c;
    let n = a.len() as int;
    assert(s.subrange(n, n + b.len()) =~= b);
    assert(stands_at(s, b, n));
}

pub proof fn lemma_grouped(a: Seq<char>, b: Seq<char>, c: Seq<char>)
    ensures
        a + b + c == a + (b + c),
{
    assert(a + b + c =~= a + (b + c));
}

} // verus!
