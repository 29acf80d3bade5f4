//! Wrapping text to a width.
use vstd::prelude::*;

use crate::model::copy_texts;
use crate::pieces::{lemma_replaced_lacks, replace, replaced};
use crate::text::{
    chars_of, end_trimmed, is_space, is_whitespace, lemma_end_trimmed_shape,
    lemma_start_trimmed_shape, start_trimmed, text_of, trim_end, trim_start, Class,
};
use crate::unicode::{char_columns, char_width, text_columns, text_width};

verus! {

/// Whether a line can be broken in front of a character.
pub open spec fn is_soft(c: char) -> bool {
    is_space(c) || c == ',' || c == ';' || c == '.' || c == ':' || c == ')' || c == ']' || c == '}'
        || c == '|' || c == '/' || c == '?' || c == '!' || c == '-' || c == '_'
}

fn soft(c: char) -> (r: bool)
    ensures
        r == is_soft(c),
{
    is_whitespace(c) || c == ',' || c == ';' || c == '.' || c == ':' || c == ')' || c == ']' || c
        == '}' || c == '|' || c == '/' || c == '?' || c == '!' || c == '-' || c == '_'
}

/// A text that is being wrapped: the lines that are done, the line that is being filled, the last
/// place in it where it can be broken, and the columns that it takes.
#[verifier::ext_equal]
pub struct WrapView {
    pub out: Seq<Seq<char>>,
    pub line: Seq<char>,
    pub soft: Option<int>,
    pub cols: int,
}

impl WrapView {
    /// Nothing yet.
    pub open spec fn start() -> WrapView {
        WrapView { out: Seq::empty(), line: Seq::empty(), soft: None, cols: 0 }
    }

    /// Whether the place where the line can be broken lies in it.
    pub open spec fn wf(self) -> bool {
        self.soft matches Some(k) ==> 0 <= k <= self.line.len()
    }

    /// With the line ended where it stands.
    pub open spec fn ended(self) -> WrapView {
        WrapView { out: self.out.push(self.line), line: Seq::empty(), soft: None, cols: 0 }
    }

    /// With room made for a character of `w` columns: where it does not fit, the line is broken at
    /// the last place where it can be, and otherwise in front of the character.
    pub open spec fn with_room(self, w: int, max: int) -> WrapView {
        if self.cols + w <= max {
            self
        } else if self.soft is Some {
            let k = self.soft->0;
            WrapView {
                out: self.out.push(end_trimmed(self.line.take(k), Class::Space)),
                line: start_trimmed(self.line.skip(k), Class::Space),
                soft: None,
                cols: self.cols,
            }
        } else if self.line.len() > 0 {
            WrapView { out: self.out.push(self.line), line: Seq::empty(), soft: None, cols: self.cols }
        } else {
            self
        }
    }

    /// With a character of `w` columns added to the line.
    pub open spec fn with_char(self, c: char, w: int, max: int) -> WrapView {
        let s = self.with_room(w, max);
        WrapView {
            line: s.line.push(c),
            soft: if is_soft(c) {
                Some(s.line.len() as int)
            } else {
                s.soft
            },
            ..s
        }
    }

    /// With the next character of the text taken in.
    pub open spec fn with_next(self, c: char, max: int) -> WrapView {
        if c == '\n' {
            self.ended()
        } else {
            let w = match char_columns(c) {
                Some(n) => n as int,
                None => 0,
            };
            let s = self.with_char(c, w, max);
            WrapView { cols: text_columns(s.line) as int, ..s }
        }
    }
}

/// A text that is being wrapped.
pub struct Wrapping {
    pub out: Vec<String>,
    pub line: Vec<char>,
    pub soft: Option<usize>,
    pub cols: usize,
}

impl DeepView for Wrapping {
    type V = WrapView;

    open spec fn deep_view(&self) -> WrapView {
        WrapView {
            out: self.out.deep_view(),
            line: self.line@,
            soft: match self.soft {
                Some(k) => Some(k as int),
                None => None,
            },
            cols: self.cols as int,
        }
    }
}

impl Wrapping {
    /// Nothing yet.
    pub fn new() -> (r: Self)
        ensures
            r.deep_view() == WrapView::start(),
    {
        let r = Wrapping { out: Vec::new(), line: Vec::new(), soft: None, cols: 0 };
        assert(r.deep_view() =~= WrapView::start());
        r
    }

    fn push_line(&mut self, line: String)
        ensures
            final(self).deep_view() == (WrapView {
                out: old(self).deep_view().out.push(line@),
                ..old(self).deep_view()
            }),
    {
        let ghost before = self.deep_view();
        self.out.push(line);
        assert(self.deep_view() =~= (WrapView { out: before.out.push(line@), ..before }));
    }

    /// Ends the line where it stands.
    pub fn end_line(&mut self)
        ensures
            final(self).deep_view() == old(self).deep_view().ended(),
    {
        let n: usize = self.line.len();
        let line = text_of(&self.line, 0, n);
        assert(line@ =~= self.line@);
        self.push_line(line);
        self.line = Vec::new();
        self.soft = None;
        self.cols = 0;
        assert(self.deep_view() =~= old(self).deep_view().ended());
    }

    fn make_room(&mut self, w: usize, max: usize)
        requires
            old(self).deep_view().wf(),
        ensures
            final(self).deep_view() == old(self).deep_view().with_room(w as int, max as int),
    {
        let ghost before = self.deep_view();
        if w <= max && self.cols <= max - w {
            return;
        }
        let n: usize = self.line.len();
        match self.soft {
            Some(k) => {
                let prefix = text_of(&self.line, 0, k);
                let rest = text_of(&self.line, k, n);
                assert(prefix@ =~= before.line.take(k as int));
                assert(rest@ =~= before.line.skip(k as int));
                self.push_line(trim_end(&prefix, Class::Space));
                self.line = chars_of(&trim_start(&rest, Class::Space));
                self.soft = None;
            },
            None => {
                if n > 0 {
                    let line = text_of(&self.line, 0, n);
                    assert(line@ =~= before.line);
                    self.push_line(line);
                    self.line = Vec::new();
                }
            },
        }
        assert(self.deep_view() =~= before.with_room(w as int, max as int));
    }

    /// Adds a character of `w` columns to the line, which is broken first where the character does
    /// not fit. The columns of the line are left as they were.
    pub fn put(&mut self, c: char, w: usize, max: usize)
        requires
            old(self).deep_view().wf(),
        ensures
            final(self).deep_view() == old(self).deep_view().with_char(c, w as int, max as int),
            final(self).deep_view().wf(),
    {
        self.make_room(w, max);
        let ghost before = self.deep_view();
        if soft(c) {
            self.soft = Some(self.line.len());
        }
        self.line.push(c);
        assert(self.deep_view() =~= old(self).deep_view().with_char(c, w as int, max as int));
    }

    /// Takes the next character of the text.
    pub fn next(&mut self, c: char, max: usize)
        requires
            old(self).deep_view().wf(),
        ensures
            final(self).deep_view() == old(self).deep_view().with_next(c, max as int),
            final(self).deep_view().wf(),
    {
        if c == '\n' {
            self.end_line();
        } else {
            let w: usize = match char_width(c) {
                Some(n) => n,
                None => 0,
            };
            self.put(c, w, max);
            let n: usize = self.line.len();
            let line = text_of(&self.line, 0, n);
            assert(line@ =~= self.line@);
            self.cols = text_width(&line);
        }
        assert(self.deep_view() =~= old(self).deep_view().with_next(c, max as int));
    }
}

/// A text on its way through the wrapping, one character after the other.
pub open spec fn wrapping(s: Seq<char>, max: int) -> WrapView
    decreases s.len(),
{
    if s.len() == 0 {
        WrapView::start()
    } else {
        wrapping(s.drop_last(), max).with_next(s.last(), max)
    }
}

/// The lines of one text, wrapped to a width. A tab stands for four blanks.
pub open spec fn wrapped_line(raw: Seq<char>, max: int) -> Seq<Seq<char>> {
    let s = replaced(raw, '\t', "    "@);
    let w = wrapping(s, max);
    if s.len() == 0 {
        seq![Seq::empty()]
    } else if w.line.len() > 0 {
        w.out.push(w.line)
    } else {
        w.out
    }
}

/// The lines of texts, wrapped to a width; as they are where the width is zero.
pub open spec fn wrapped_lines(raws: Seq<Seq<char>>, max: int) -> Seq<Seq<char>>
    decreases raws.len(),
{
    if max == 0 {
        raws
    } else if raws.len() == 0 {
        Seq::empty()
    } else {
        wrapped_lines(raws.drop_last(), max) + wrapped_line(raws.last(), max)
    }
}

/// The lines of one text, wrapped to a width.
pub fn wrap_line(raw: &str, max: usize) -> (r: Vec<String>)
    ensures
        r.deep_view() == wrapped_line(raw@, max as int),
{
    let s = replace(raw, '\t', "    ");
    let v = chars_of(&s);
    if v.len() == 0 {
        let mut out: Vec<String> = Vec::new();
        out.push(String::new());
        assert(out.deep_view() =~= seq![Seq::<char>::empty()]);
        return out;
    }
    let mut w = Wrapping::new();
    let mut i: usize = 0;
    while i < v.len()
        invariant
            i <= v@.len(),
            w.deep_view() == wrapping(v@.take(i as int), max as int),
            w.deep_view().wf(),
        decreases v@.len() - i,
    {
        assert(v@.take(i + 1).drop_last() =~= v@.take(i as int));
        w.next(v[i], max);
        i += 1;
    }
    assert(v@.take(i as int) =~= v@);
    let n: usize = w.line.len();
    if n > 0 {
        w.end_line();
    }
    w.out
}

/// The lines of texts, wrapped to a width.
pub fn wrap_lines(raws: &Vec<String>, max: usize) -> (r: Vec<String>)
    ensures
        r.deep_view() == wrapped_lines(raws.deep_view(), max as int),
{
    if max == 0 {
        return copy_texts(raws);
    }
    let ghost all = raws.deep_view();
    let mut out: Vec<String> = Vec::new();
    let mut i: usize = 0;
    assert(out.deep_view() =~= wrapped_lines(all.take(0), max as int));
    while i < raws.len()
        invariant
            max > 0,
            all == raws.deep_view(),
            i <= raws@.len(),
            out.deep_view() == wrapped_lines(all.take(i as int), max as int),
        decreases raws@.len() - i,
    {
        let mut lines = wrap_line(&raws[i], max);
        proof {
            assert(all.take(i + 1).drop_last() =~= all.take(i as int));
            assert(all.take(i + 1).last() == raws@[i as int]@);
        }
        let ghost before = out.deep_view();
        let ghost added = lines.deep_view();
        out.append(&mut lines);
        assert(out.deep_view() =~= before + added);
        i += 1;
    }
    assert(all.take(i as int) =~= all);
    out
}

/// The characters of a text that are no white space.
pub open spec fn visible(s: Seq<char>) -> Seq<char> {
    s.filter(|c: char| !is_space(c))
}

/// The characters of all lines, one line after the other.
pub open spec fn flat(lines: Seq<Seq<char>>) -> Seq<char>
    decreases lines.len(),
{
    if lines.len() == 0 {
        Seq::empty()
    } else {
        flat(lines.drop_last()) + lines.last()
    }
}

proof fn lemma_visible_push(s: Seq<char>, c: char)
    ensures
        visible(s.push(c)) == if is_space(c) {
            visible(s)
        } else {
            visible(s).push(c)
        },
{
    reveal(Seq::filter);
    assert(s.push(c).drop_last() =~= s);
}

proof fn lemma_visible_sum(a: Seq<char>, b: Seq<char>)
    ensures
        visible(a + b) == visible(a) + visible(b),
    decreases b.len(),
{
    reveal(Seq::filter);
    if b.len() == 0 {
        assert(a + b =~= a);
        assert(visible(b) =~= Seq::<char>::empty());
    } else {
        let t = b.drop_last();
        lemma_visible_sum(a, t);
        lemma_visible_push(a + t, b.last());
        lemma_visible_push(t, b.last());
        assert((a + t).push(b.last()) =~= a + b);
        assert(t.push(b.last()) =~= b);
    }
}

proof fn lemma_visible_end_trimmed(s: Seq<char>)
    ensures
        visible(end_trimmed(s, Class::Space)) == visible(s),
    decreases s.len(),
{
    if s.len() > 0 && is_space(s.last()) {
        lemma_visible_end_trimmed(s.drop_last());
        lemma_visible_push(s.drop_last(), s.last());
        assert(s.drop_last().push(s.last()) =~= s);
    }
}

proof fn lemma_visible_start_trimmed(s: Seq<char>)
    ensures
        visible(start_trimmed(s, Class::Space)) == visible(s),
    decreases s.len(),
{
    if s.len() > 0 && is_space(s[0]) {
        let first = seq![s[0]];
        lemma_visible_start_trimmed(s.drop_first());
        lemma_visible_sum(first, s.drop_first());
        lemma_visible_push(Seq::empty(), s[0]);
        reveal(Seq::filter);
        assert(Seq::<char>::empty().push(s[0]) =~= first);
        assert(visible(first) =~= Seq::<char>::empty());
        assert(first + s.drop_first() =~= s);
        assert(Seq::<char>::empty() + visible(s.drop_first()) =~= visible(s.drop_first()));
    }
}

proof fn lemma_visible_replaced(s: Seq<char>)
    ensures
        visible(replaced(s, '\t', "    "@)) == visible(s),
    decreases s.len(),
{
    if s.len() > 0 {
        let t = s.drop_last();
        lemma_visible_replaced(t);
        lemma_visible_push(t, s.last());
        assert(t.push(s.last()) =~= s);
        if s.last() == '\t' {
            reveal_strlit("    ");
            let r = replaced(t, '\t', "    "@);
            lemma_visible_push(r, ' ');
            lemma_visible_push(r.push(' '), ' ');
            lemma_visible_push(r.push(' ').push(' '), ' ');
            lemma_visible_push(r.push(' ').push(' ').push(' '), ' ');
            assert(r + "    "@ =~= r.push(' ').push(' ').push(' ').push(' '));
        } else {
            lemma_visible_push(replaced(t, '\t', "    "@), s.last());
        }
    }
}

proof fn lemma_flat_push(lines: Seq<Seq<char>>, line: Seq<char>)
    ensures
        flat(lines.push(line)) == flat(lines) + line,
{
    assert(lines.push(line).drop_last() =~= lines);
}

/// What of the text has been taken in so far.
spec fn taken(w: WrapView) -> Seq<char> {
    visible(flat(w.out)) + visible(w.line)
}

proof fn lemma_next_keeps(w: WrapView, c: char, max: int)
    requires
        w.wf(),
    ensures
        w.with_next(c, max).wf(),
        taken(w.with_next(c, max)) == taken(w) + visible(seq![c]),
{
    let none = Seq::<char>::empty();
    reveal(Seq::filter);
    lemma_visible_push(none, c);
    assert(none.push(c) =~= seq![c]);
    assert(visible(none) =~= none);
    lemma_flat_push(w.out, w.line);
    lemma_visible_sum(flat(w.out), w.line);
    if c == '\n' {
        assert(visible(seq![c]) =~= none);
        assert(taken(w.ended()) =~= taken(w) + visible(seq![c]));
    } else {
        let n = match char_columns(c) {
            Some(n) => n as int,
            None => 0,
        };
        let s = w.with_room(n, max);
        assert(taken(s) =~= taken(w)) by {
            if w.cols + n > max && w.soft is Some {
                let k = w.soft->0;
                let a = w.line.take(k);
                let b = w.line.skip(k);
                assert(a + b =~= w.line);
                lemma_visible_sum(a, b);
                lemma_visible_end_trimmed(a);
                lemma_visible_start_trimmed(b);
                lemma_flat_push(w.out, end_trimmed(a, Class::Space));
                lemma_visible_sum(flat(w.out), end_trimmed(a, Class::Space));
            }
        }
        lemma_visible_push(s.line, c);
        assert(taken(w.with_next(c, max)) =~= taken(w) + visible(seq![c]));
    }
}

proof fn lemma_wrapping_keeps(s: Seq<char>, max: int)
    ensures
        wrapping(s, max).wf(),
        taken(wrapping(s, max)) == visible(s),
    decreases s.len(),
{
    if s.len() > 0 {
        let t = s.drop_last();
        lemma_wrapping_keeps(t, max);
        lemma_next_keeps(wrapping(t, max), s.last(), max);
        lemma_visible_sum(t, seq![s.last()]);
        assert(t + seq![s.last()] =~= s);
    } else {
        reveal(Seq::filter);
        assert(taken(WrapView::start()) =~= visible(s));
    }
}

/// Wrapping loses, adds and moves no character but white space: the others follow each other
/// through all lines as they did before, whatever the width.
pub proof fn law_wrapping_keeps_what_is_visible(raws: Seq<Seq<char>>, max: int)
    requires
        max >= 0,
    ensures
        visible(flat(wrapped_lines(raws, max))) == visible(flat(raws)),
    decreases raws.len(),
{
    if max > 0 && raws.len() > 0 {
        let before = raws.drop_last();
        let raw = raws.last();
        law_wrapping_keeps_what_is_visible(before, max);
        lemma_visible_sum(flat(before), raw);
        let s = replaced(raw, '\t', "    "@);
        lemma_visible_replaced(raw);
        lemma_wrapping_keeps(s, max);
        let w = wrapping(s, max);
        let lines = wrapped_line(raw, max);
        lemma_flat_push(w.out, w.line);
        lemma_visible_sum(flat(w.out), w.line);
        assert(visible(flat(lines)) == visible(s)) by {
            reveal(Seq::filter);
            reveal_with_fuel(flat, 2);
            if s.len() == 0 {
                assert(flat(lines) =~= s);
            } else if w.line.len() == 0 {
                assert(visible(w.line) =~= Seq::<char>::empty());
                assert(taken(w) =~= visible(flat(w.out)));
            }
        }
        lemma_flat_sum(wrapped_lines(before, max), lines);
        lemma_visible_sum(flat(wrapped_lines(before, max)), flat(lines));
    }
}

proof fn lemma_flat_sum(a: Seq<Seq<char>>, b: Seq<Seq<char>>)
    ensures
        flat(a + b) == flat(a) + flat(b),
    decreases b.len(),
{
    if b.len() == 0 {
        assert(a + b =~= a);
        assert(flat(a) + flat(b) =~= flat(a));
    } else {
        let t = b.drop_last();
        lemma_flat_sum(a, t);
        lemma_flat_push(a + t, b.last());
        assert((a + t).push(b.last()) =~= a + b);
        assert(flat(a) + flat(t) + b.last() =~= flat(a) + (flat(t) + b.last()));
    }
}

/// Whether a line holds neither a tab nor a line feed.
pub open spec fn is_flat(s: Seq<char>) -> bool {
    forall|i: int| 0 <= i < s.len() ==> (#[trigger] s[i]) != '\t' && s[i] != '\n'
}

spec fn all_flat(w: WrapView) -> bool {
    &&& w.wf()
    &&& is_flat(w.line)
    &&& forall|i: int| 0 <= i < w.out.len() ==> is_flat(#[trigger] w.out[i])
}

proof fn lemma_next_is_flat(w: WrapView, c: char, max: int)
    requires
        all_flat(w),
        c != '\t',
    ensures
        all_flat(w.with_next(c, max)),
        w.with_next(c, max).line.len() > 0 || w.with_next(c, max).out.len() > 0,
{
    if w.soft is Some {
        let k = w.soft->0;
        let a = w.line.take(k);
        let b = w.line.skip(k);
        lemma_end_trimmed_shape(a, Class::Space);
        lemma_start_trimmed_shape(b, Class::Space);
        let e = end_trimmed(a, Class::Space);
        let f = start_trimmed(b, Class::Space);
        assert forall|i: int| 0 <= i < e.len() implies (#[trigger] e[i]) != '\t' && e[i] != '\n' by {
            assert(e[i] == w.line[i]);
        }
        assert forall|i: int| 0 <= i < f.len() implies (#[trigger] f[i]) != '\t' && f[i] != '\n' by {
            assert(f[i] == w.line[k + b.len() - f.len() + i]);
        }
    }
}

proof fn lemma_wrapping_is_flat(s: Seq<char>, max: int)
    requires
        !s.contains('\t'),
    ensures
        all_flat(wrapping(s, max)),
        s.len() > 0 ==> wrapping(s, max).line.len() > 0 || wrapping(s, max).out.len() > 0,
    decreases s.len(),
{
    if s.len() > 0 {
        let t = s.drop_last();
        assert forall|i: int| 0 <= i < t.len() implies t[i] != '\t' by {
            assert(s[i] == t[i]);
            assert(s.contains(s[i]));
        }
        assert(s.contains(s[s.len() - 1]));
        lemma_wrapping_is_flat(t, max);
        lemma_next_is_flat(wrapping(t, max), s.last(), max);
    }
}

/// Lines that are wrapped to a width hold neither tabs nor line feeds, and there is at least one of
/// them for each text.
pub proof fn law_wrapped_lines_are_flat(raws: Seq<Seq<char>>, max: int)
    requires
        max > 0,
    ensures
        wrapped_lines(raws, max).len() >= raws.len(),
        forall|i: int|
            0 <= i < wrapped_lines(raws, max).len() ==> is_flat(
                #[trigger] wrapped_lines(raws, max)[i],
            ),
    decreases raws.len(),
{
    if raws.len() > 0 {
        law_wrapped_lines_are_flat(raws.drop_last(), max);
        let s = replaced(raws.last(), '\t', "    "@);
        reveal_strlit("    ");
        lemma_replaced_lacks(raws.last(), '\t', "    "@, '\t');
        lemma_wrapping_is_flat(s, max);
    }
}

/// Texts are wrapped one by one, in their order; without a width they are left as they are.
pub proof fn law_texts_are_wrapped_one_by_one(a: Seq<Seq<char>>, b: Seq<Seq<char>>, max: int)
    requires
        max > 0,
    ensures
        wrapped_lines(a + b, max) == wrapped_lines(a, max) + wrapped_lines(b, max),
        b.len() == 1 ==> wrapped_lines(b, max) == wrapped_line(b[0], max),
        wrapped_lines(a, 0) == a,
    decreases b.len(),
{
    if b.len() == 0 {
        assert(a + b =~= a);
        assert(wrapped_lines(a, max) + wrapped_lines(b, max) =~= wrapped_lines(a, max));
    } else {
        let t = b.drop_last();
        law_texts_are_wrapped_one_by_one(a, t, max);
        assert((a + b).drop_last() =~= a + t);
        assert((a + b).last() == b.last());
        assert(wrapped_lines(a, max) + wrapped_lines(t, max) + wrapped_line(b.last(), max)
            =~= wrapped_lines(a, max) + (wrapped_lines(t, max) + wrapped_line(b.last(), max)));
        if b.len() == 1 {
            assert(t =~= Seq::<Seq<char>>::empty());
            assert(wrapped_lines(t, max) =~= Seq::<Seq<char>>::empty());
            assert(wrapped_lines(b, max) =~= wrapped_line(b[0], max));
        }
    }
}

/// How many columns a character takes.
pub open spec fn columns_of(c: char) -> int {
    match char_columns(c) {
        Some(n) => n as int,
        None => 0,
    }
}

proof fn lemma_fits(s: Seq<char>, max: int)
    requires
        !s.contains('\n'),
        forall|i: int|
            0 < i < s.len() ==> text_columns(#[trigger] s.take(i)) + columns_of(s[i]) <= max,
    ensures
        wrapping(s, max).out.len() == 0,
        wrapping(s, max).line == s,
        wrapping(s, max).cols == if s.len() == 0 {
            0
        } else {
            text_columns(s) as int
        },
        s.len() == 0 ==> wrapping(s, max).soft is None,
    decreases s.len(),
{
    if s.len() > 0 {
        let t = s.drop_last();
        let n = t.len() as int;
        assert(s.contains(s.last()));
        assert(!t.contains('\n')) by {
            if t.contains('\n') {
                let j = choose|j: int| 0 <= j < t.len() && t[j] == '\n';
                assert(s[j] == '\n');
            }
        }
        assert forall|i: int| 0 < i < t.len() implies text_columns(#[trigger] t.take(i))
            + columns_of(t[i]) <= max by {
            assert(t.take(i) =~= s.take(i));
            assert(t[i] == s[i]);
        }
        lemma_fits(t, max);
        assert(s.take(n) =~= t);
        assert(t.push(s.last()) =~= s);
    }
}

/// A text without tabs and line feeds that fits the width is one line, and stays as it is.
pub proof fn law_a_text_that_fits_is_left_alone(s: Seq<char>, max: int)
    requires
        s.len() > 0,
        !s.contains('\n'),
        !s.contains('\t'),
        forall|i: int|
            0 < i < s.len() ==> text_columns(#[trigger] s.take(i)) + columns_of(s[i]) <= max,
    ensures
        wrapped_line(s, max) == seq![s],
{
    lemma_fits(s, max);
    lemma_untouched(s);
}

proof fn lemma_untouched(s: Seq<char>)
    requires
        !s.contains('\t'),
    ensures
        replaced(s, '\t', "    "@) == s,
    decreases s.len(),
{
    if s.len() > 0 {
        let t = s.drop_last();
        assert(s.contains(s.last()));
        assert(!t.contains('\t')) by {
            if t.contains('\t') {
                let j = choose|j: int| 0 <= j < t.len() && t[j] == '\t';
                assert(s[j] == '\t');
            }
        }
        lemma_untouched(t);
        assert(t.push(s.last()) =~= s);
    }
}

/// A line feed ends the line that is being filled, and what follows is wrapped as if it stood
/// alone.
pub proof fn law_a_line_feed_ends_the_line(a: Seq<char>, b: Seq<char>, max: int)
    ensures
        ({
            let w = wrapping(a + seq!['\n'] + b, max);
            &&& w.out == wrapping(a, max).out.push(wrapping(a, max).line) + wrapping(b, max).out
            &&& w.line == wrapping(b, max).line
            &&& w.soft == wrapping(b, max).soft
            &&& w.cols == wrapping(b, max).cols
        }),
    decreases b.len(),
{
    let s = a + seq!['\n'] + b;
    if b.len() == 0 {
        assert(s.drop_last() =~= a);
        assert(s.last() == '\n');
        assert(wrapping(b, max) == WrapView::start());
        assert(wrapping(s, max).out =~= wrapping(a, max).out.push(wrapping(a, max).line) + wrapping(
            b,
            max,
        ).out);
    } else {
        let t = b.drop_last();
        law_a_line_feed_ends_the_line(a, t, max);
        assert(s.drop_last() =~= a + seq!['\n'] + t);
        assert(s.last() == b.last());
        let x = wrapping(a, max).out.push(wrapping(a, max).line);
        let u = wrapping(t, max);
        let w = wrapping(s.drop_last(), max);
        lemma_next_behind(w, u, x, b.last(), max);
    }
}

proof fn lemma_next_behind(w: WrapView, u: WrapView, x: Seq<Seq<char>>, c: char, max: int)
    requires
        w.out == x + u.out,
        w.line == u.line,
        w.soft == u.soft,
        w.cols == u.cols,
    ensures
        w.with_next(c, max).out == x + u.with_next(c, max).out,
        w.with_next(c, max).line == u.with_next(c, max).line,
        w.with_next(c, max).soft == u.with_next(c, max).soft,
        w.with_next(c, max).cols == u.with_next(c, max).cols,
{
    assert(w.with_next(c, max).out =~= x + u.with_next(c, max).out);
}

/// A character that does not fit goes to the next line: with what stands behind the last place
/// where the line can be broken, where there is one, and else alone; where it fits it stays.
pub proof fn law_a_full_line_is_broken_where_it_can_be(w: WrapView, c: char, n: int, max: int)
    requires
        w.wf(),
    ensures
        w.cols + n <= max ==> w.with_char(c, n, max).line == w.line.push(c) && w.with_char(
            c,
            n,
            max,
        ).out == w.out,
        w.cols + n > max && w.soft is None && w.line.len() > 0 ==> w.with_char(c, n, max).line
            == seq![c] && w.with_char(c, n, max).out == w.out.push(w.line),
        w.cols + n > max ==> (w.soft matches Some(k) ==> w.with_char(c, n, max).out == w.out.push(
            end_trimmed(w.line.take(k), Class::Space),
        ) && w.with_char(c, n, max).line == start_trimmed(w.line.skip(k), Class::Space).push(c)),
        w.cols + n > max && w.soft is None && w.line.len() == 0 ==> w.with_char(c, n, max).line
            == seq![c] && w.with_char(c, n, max).out == w.out,
        is_space(c) || c == ',' || c == '-' || c == '/' || c == '.' ==> w.with_char(
            c,
            n,
            max,
        ).soft == Some(w.with_char(c, n, max).line.len() - 1),
        'a' <= c && c <= 'z' || '0' <= c && c <= '9' ==> (w.cols + n <= max ==> w.with_char(
            c,
            n,
            max,
        ).soft == w.soft),
{
}

/// A line can be broken in front of white space and of the signs that part words, and of nothing
/// else: never within a word.
pub proof fn law_lines_break_between_words(c: char)
    ensures
        is_soft(c) <==> is_space(c) || ",;.:)]}|/?!-_"@.contains(c),
{
    reveal_strlit(",;.:)]}|/?!-_");
    let s = ",;.:)]}|/?!-_"@;
    assert(s[0] == ',' && s[1] == ';' && s[2] == '.' && s[3] == ':' && s[4] == ')' && s[5] == ']'
        && s[6] == '}' && s[7] == '|' && s[8] == '/' && s[9] == '?' && s[10] == '!' && s[11] == '-'
        && s[12] == '_');
}

} // verus!
