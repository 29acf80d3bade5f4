//! A text that is shown a page at a time.
use vstd::prelude::*;

use crate::pieces::{join, joined};
use crate::row::{no_items, put_last};
use crate::wrap::{wrap_lines, wrapped_lines};

verus! {

/// Where a view stands in its content: all in lines.
#[derive(Clone, Copy, Debug, PartialEq, Eq, Structural)]
pub struct ScrollViewState {
    pub scroll: u16,
    pub viewport_h: u16,
    pub content_h: u16,
}

impl ScrollViewState {
    /// How far the view can go down.
    pub open spec fn lowest(self) -> int {
        if self.content_h > self.viewport_h {
            self.content_h - self.viewport_h
        } else {
            0
        }
    }

    /// With the view moved up where it stands below the lowest place.
    pub open spec fn clamped(self) -> ScrollViewState {
        ScrollViewState {
            scroll: if self.scroll > self.lowest() {
                self.lowest() as u16
            } else {
                self.scroll
            },
            ..self
        }
    }

    /// Moves the view up where it stands below the lowest place.
    pub fn clamp(&mut self)
        ensures
            *final(self) == old(self).clamped(),
    {
        let max: u16 = self.max_scroll();
        if self.scroll > max {
            self.scroll = max;
        }
    }

    /// How far the view can go down.
    pub fn max_scroll(&self) -> (r: u16)
        ensures
            r == self.lowest(),
    {
        if self.content_h > self.viewport_h {
            self.content_h - self.viewport_h
        } else {
            0
        }
    }
}

/// A [`ScrollableText`] as the contracts speak of it.
#[verifier::ext_equal]
pub struct ScrollView {
    pub raw: Seq<Seq<char>>,
    pub wrapped: Seq<Seq<char>>,
    pub wrap_cols: Option<u16>,
    pub state: ScrollViewState,
}

/// A number of lines, counted in 16 bits.
pub open spec fn height(n: nat) -> u16 {
    (n % 65536) as u16
}

/// By how much a page moves the view: one line less than it is high, counted in 16 bits with a
/// sign.
pub open spec fn page_step(viewport_h: u16) -> int {
    let n = if viewport_h > 0 {
        viewport_h - 1
    } else {
        0
    };
    if n < 32768 {
        n
    } else {
        n - 65536
    }
}

/// The opposite of a step, counted in 16 bits with a sign.
pub open spec fn opposite(step: int) -> int {
    if step == -32768 {
        -32768
    } else {
        -step
    }
}

impl ScrollView {
    /// Nothing.
    pub open spec fn empty() -> ScrollView {
        ScrollView {
            raw: Seq::empty(),
            wrapped: Seq::empty(),
            wrap_cols: None,
            state: ScrollViewState { scroll: 0, viewport_h: 0, content_h: 0 },
        }
    }

    /// With other content, which is yet to be wrapped.
    pub open spec fn with_content(self, lines: Seq<Seq<char>>) -> ScrollView {
        ScrollView {
            raw: lines,
            wrapped: Seq::empty(),
            wrap_cols: None,
            state: ScrollViewState { content_h: 0, ..self.state },
        }
    }

    /// Wrapped to a width.
    pub open spec fn with_width(self, width: u16) -> ScrollView {
        if self.wrap_cols == Some(width) {
            self
        } else {
            let wrapped = wrapped_lines(self.raw, width as int);
            ScrollView {
                raw: self.raw,
                wrapped,
                wrap_cols: Some(width),
                state: (ScrollViewState {
                    content_h: height(wrapped.len()),
                    ..self.state
                }).clamped(),
            }
        }
    }

    /// Shown in a view of this height.
    pub open spec fn with_viewport(self, h: u16) -> ScrollView {
        ScrollView { state: (ScrollViewState { viewport_h: h, ..self.state }).clamped(), ..self }
    }

    /// At a place in the content.
    pub open spec fn at_line(self, n: int) -> ScrollView {
        ScrollView { state: ScrollViewState { scroll: n as u16, ..self.state }, ..self }
    }

    /// Moved down by a number of lines, or up where it is negative, as far as that goes.
    pub open spec fn moved(self, delta: int) -> ScrollView {
        let n = self.state.scroll + delta;
        self.at_line(
            if n < 0 {
                0
            } else if n > self.state.lowest() {
                self.state.lowest()
            } else {
                n
            },
        )
    }

    /// At the top.
    pub open spec fn top(self) -> ScrollView {
        self.at_line(0)
    }

    /// At the bottom.
    pub open spec fn bottom(self) -> ScrollView {
        self.at_line(self.state.lowest())
    }

    /// The lines that are in view.
    pub open spec fn in_view(self) -> Seq<Seq<char>> {
        let n = self.wrapped.len() as int;
        let from = if self.state.scroll <= n {
            self.state.scroll as int
        } else {
            n
        };
        let to = if from + self.state.viewport_h <= n {
            from + self.state.viewport_h
        } else {
            n
        };
        self.wrapped.subrange(from, to)
    }
}

/// A text that is shown a page at a time.
#[derive(Debug)]
pub struct ScrollableText {
    pub raw: Vec<String>,
    pub wrapped: Vec<String>,
    pub wrap_cols: Option<u16>,
    pub state: ScrollViewState,
}

impl DeepView for ScrollableText {
    type V = ScrollView;

    open spec fn deep_view(&self) -> ScrollView {
        ScrollView {
            raw: self.raw.deep_view(),
            wrapped: self.wrapped.deep_view(),
            wrap_cols: self.wrap_cols,
            state: self.state,
        }
    }
}

fn height_of(n: usize) -> (r: u16)
    ensures
        r == height(n as nat),
{
    let r: u16 = (n % 65536) as u16;
    r
}

impl ScrollableText {
    /// Nothing.
    pub fn new() -> (r: Self)
        ensures
            r.deep_view() == ScrollView::empty(),
    {
        ScrollableText {
            raw: no_items(),
            wrapped: no_items(),
            wrap_cols: None,
            state: ScrollViewState { scroll: 0, viewport_h: 0, content_h: 0 },
        }
    }

    /// Takes other content, which is wrapped once a width is set.
    pub fn set_content(&mut self, lines: Vec<String>)
        ensures
            final(self).deep_view() == old(self).deep_view().with_content(lines.deep_view()),
    {
        self.raw = lines;
        self.wrapped = no_items();
        self.state.content_h = 0;
        self.wrap_cols = None;
    }

    /// Wraps the content to a width.
    pub fn set_width(&mut self, width: u16)
        ensures
            final(self).deep_view() == old(self).deep_view().with_width(width),
    {
        if let Some(w) = self.wrap_cols {
            if w == width {
                return;
            }
        }
        self.wrap_cols = Some(width);
        self.rewrap(width);
        self.state.clamp();
    }

    /// Shows the content in a view of this height.
    pub fn set_viewport(&mut self, h: u16)
        ensures
            final(self).deep_view() == old(self).deep_view().with_viewport(h),
    {
        self.state.viewport_h = h;
        self.state.clamp();
    }

    /// The lines as they are shown.
    pub fn wrapped_lines(&self) -> (r: &Vec<String>)
        ensures
            r.deep_view() == self.deep_view().wrapped,
    {
        &self.wrapped
    }

    /// How far the view can go down.
    pub fn max_scroll(&self) -> (r: u16)
        ensures
            r == self.deep_view().state.lowest(),
    {
        self.state.max_scroll()
    }

    /// Moves the view down by a number of lines, or up where it is negative, as far as that goes.
    pub fn scroll_by(&mut self, delta: i16)
        ensures
            final(self).deep_view() == old(self).deep_view().moved(delta as int),
    {
        let s: i32 = self.state.scroll as i32 + delta as i32;
        let max: u16 = self.max_scroll();
        self.state.scroll = if s < 0 {
            0
        } else if s > max as i32 {
            max
        } else {
            s as u16
        };
    }

    /// Moves the view down by a page.
    pub fn page_down(&mut self)
        ensures
            final(self).deep_view() == old(self).deep_view().moved(
                page_step(old(self).state.viewport_h),
            ),
    {
        let step: i16 = self.page_step();
        self.scroll_by(step);
    }

    /// Moves the view up by a page.
    pub fn page_up(&mut self)
        ensures
            final(self).deep_view() == old(self).deep_view().moved(
                opposite(page_step(old(self).state.viewport_h)),
            ),
    {
        let step: i16 = self.page_step();
        if step == i16::MIN {
            self.scroll_by(step);
        } else {
            self.scroll_by(-step);
        }
    }

    fn page_step(&self) -> (r: i16)
        ensures
            r == page_step(self.state.viewport_h),
    {
        let h: u16 = self.state.viewport_h;
        let n: i32 = if h > 0 {
            h as i32 - 1
        } else {
            0
        };
        if n < 32768 {
            n as i16
        } else {
            (n - 65536) as i16
        }
    }

    /// Moves the view to the top.
    pub fn to_top(&mut self)
        ensures
            final(self).deep_view() == old(self).deep_view().top(),
    {
        self.state.scroll = 0;
    }

    /// Moves the view to the bottom.
    pub fn to_bottom(&mut self)
        ensures
            final(self).deep_view() == old(self).deep_view().bottom(),
    {
        self.state.scroll = self.max_scroll();
    }

    fn rewrap(&mut self, width: u16)
        ensures
            final(self).deep_view() == (ScrollView {
                wrapped: wrapped_lines(old(self).deep_view().raw, width as int),
                state: (ScrollViewState {
                    content_h: height(
                        wrapped_lines(old(self).deep_view().raw, width as int).len(),
                    ),
                    ..old(self).state
                }),
                ..old(self).deep_view()
            }),
    {
        self.wrapped = wrap_lines(&self.raw, width as usize);
        assert(self.wrapped.deep_view().len() == self.wrapped@.len());
        self.state.content_h = height_of(self.wrapped.len());
    }

    /// The lines that are in view, as one text.
    pub fn visible_text(&self) -> (r: String)
        ensures
            r@ == joined(self.deep_view().in_view(), "\n"@),
    {
        let ghost all = self.wrapped.deep_view();
        assert(all.len() == self.wrapped@.len());
        let n: usize = self.wrapped.len();
        let from: usize = if self.state.scroll as usize <= n {
            self.state.scroll as usize
        } else {
            n
        };
        let room: usize = n - from;
        let to: usize = if self.state.viewport_h as usize <= room {
            from + self.state.viewport_h as usize
        } else {
            n
        };
        let mut out: Vec<String> = no_items();
        let mut i: usize = from;
        while i < to
            invariant
                all == self.wrapped.deep_view(),
                from <= i <= to <= self.wrapped@.len(),
                all.len() == self.wrapped@.len(),
                out.deep_view() == all.subrange(from as int, i as int),
            decreases to - i,
        {
            assert(all[i as int] == self.wrapped@[i as int]@);
            put_last(&mut out, self.wrapped[i].clone());
            assert(all.subrange(from as int, i as int).push(all[i as int]) =~= all.subrange(
                from as int,
                i + 1,
            ));
            i += 1;
        }
        join(&out, "\n")
    }
}

/// Whether the view stands no lower than it can. A text whose content has been set but not yet
/// been wrapped has no height, so only its top is such a place.
pub open spec fn in_bounds(s: ScrollView) -> bool {
    s.state.scroll <= s.state.lowest()
}

/// Moving, going to the top or the bottom, wrapping and changing the height of the view leave the
/// view no lower than it can stand.
pub proof fn law_the_view_stays_in_bounds(s: ScrollView, delta: int, width: u16, h: u16)
    ensures
        in_bounds(s.moved(delta)),
        in_bounds(s.top()),
        in_bounds(s.bottom()),
        in_bounds(s.with_viewport(h)),
        in_bounds(s) || s.wrap_cols != Some(width) ==> in_bounds(s.with_width(width)),
{
}

/// A view that stands where it can is moved back by the opposite move, unless an end was in the
/// way.
pub proof fn law_moving_back(s: ScrollView, delta: int)
    requires
        in_bounds(s),
        0 <= s.state.scroll + delta <= s.state.lowest(),
    ensures
        s.moved(delta).moved(-delta) == s,
{
}

/// Wrapping to the width that the text has already changes nothing.
pub proof fn law_wrapping_twice(s: ScrollView, width: u16)
    ensures
        s.with_width(width).with_width(width) == s.with_width(width),
{
}

/// Content with fewer than 65536 lines is shown in full on the way from the top to the bottom: the
/// last line is in view at the bottom.
pub proof fn law_the_bottom_shows_the_last_line(s: ScrollView)
    requires
        s.state.content_h == s.wrapped.len(),
        s.state.viewport_h > 0,
        s.wrapped.len() > 0,
    ensures
        s.bottom().in_view().len() > 0,
        s.bottom().in_view().last() == s.wrapped.last(),
{
}

/// Other content is wrapped anew to whatever width it is shown in, and nothing of the old content
/// is left.
pub proof fn law_new_content_is_wrapped_anew(s: ScrollView, lines: Seq<Seq<char>>, width: u16)
    ensures
        s.with_content(lines).raw == lines,
        s.with_content(lines).wrapped.len() == 0,
        s.with_content(lines).with_width(width).wrapped == wrapped_lines(lines, width as int),
        wrapped_lines(lines, width as int).len() < 65536 ==> s.with_content(lines).with_width(
            width,
        ).state.content_h == wrapped_lines(lines, width as int).len(),
        s.with_content(lines).with_width(width).state.viewport_h == s.state.viewport_h,
{
}

/// Content that is shown in another width is wrapped to that width.
pub proof fn law_content_is_wrapped_to_its_width(s: ScrollView, width: u16)
    requires
        s.wrap_cols != Some(width),
    ensures
        s.with_width(width).raw == s.raw,
        s.with_width(width).wrapped == wrapped_lines(s.raw, width as int),
        s.with_width(width).wrap_cols == Some(width),
{
}

/// The view is moved by as many lines as it is told to, down or up, and stops at the top and at the
/// lowest place; the content is left alone.
pub proof fn law_a_view_moves_line_by_line(s: ScrollView, delta: int)
    ensures
        ({
            let to = s.state.scroll + delta;
            let last = if s.state.content_h > s.state.viewport_h {
                s.state.content_h - s.state.viewport_h
            } else {
                0
            };
            &&& 0 <= to <= last ==> s.moved(delta).state.scroll == to
            &&& to < 0 ==> s.moved(delta).state.scroll == 0
            &&& to > last && to >= 0 ==> s.moved(delta).state.scroll == last
            &&& s.top().state.scroll == 0
            &&& s.bottom().state.scroll == last
            &&& s.moved(delta).wrapped == s.wrapped
            &&& s.moved(delta).raw == s.raw
            &&& s.top().wrapped == s.wrapped
            &&& s.bottom().wrapped == s.wrapped
        }),
{
}

/// A page moves the view by one line less than it is high, down or up.
pub proof fn law_a_page_is_one_line_less_than_the_view(h: u16, step: int)
    requires
        -32768 < step,
    ensures
        0 < h <= 32768 ==> page_step(h) == h - 1,
        page_step(0) == 0,
        opposite(step) == -step,
{
}

/// What is in view are the lines from the place of the view on, as many as the view is high, or as
/// there are.
pub proof fn law_the_view_shows_the_lines_at_its_place(s: ScrollView, i: int)
    requires
        s.state.scroll <= s.wrapped.len(),
    ensures
        s.in_view().len() == if s.state.scroll + s.state.viewport_h <= s.wrapped.len() {
            s.state.viewport_h as int
        } else {
            s.wrapped.len() - s.state.scroll
        },
        0 <= i < s.in_view().len() ==> s.in_view()[i] == s.wrapped[s.state.scroll + i],
{
}

/// A view of another height shows as much of the content as fits, and stays where it is as far as
/// it can.
pub proof fn law_a_higher_view_shows_more(s: ScrollView, h: u16)
    ensures
        s.with_viewport(h).state.viewport_h == h,
        s.with_viewport(h).wrapped == s.wrapped,
        s.with_viewport(h).state.content_h == s.state.content_h,
        s.state.scroll + h <= s.state.content_h ==> s.with_viewport(h).state.scroll
            == s.state.scroll,
        s.state.content_h <= h ==> s.with_viewport(h).state.scroll == 0,
{
}

} // verus!
