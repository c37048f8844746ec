//! The scrollable conversation on the screen.
use vstd::prelude::*;

use crate::ansi::{ansi_to_line, plain, styled_spans, Line, SpanView};
use crate::model::{group_views, views};
use crate::text::{split, split_at_char};

verus! {

broadcast use group_views;

/// The widest screen that lines are wrapped to.
pub const WIDEST: u16 = 16383;

/// The number of rows that `ratatui` needs for lines, each given as the texts
/// of its spans, wrapped to a width.
pub uninterp spec fn wrapped_rows(lines: Seq<Seq<Seq<char>>>, width: u16) -> usize;

/// The texts of the spans of some lines.
pub open spec fn span_texts(lines: Seq<Seq<SpanView>>) -> Seq<Seq<Seq<char>>> {
    lines.map_values(|l: Seq<SpanView>| l.map_values(|s: SpanView| s.content))
}

/// A list of the texts of the spans of one line.
pub struct SpanTexts {
    pub texts: Vec<String>,
}

impl View for SpanTexts {
    type V = Seq<Seq<char>>;

    open spec fn view(&self) -> Seq<Seq<char>> {
        views(self.texts@)
    }
}

/// `ratatui::widgets::Paragraph::line_count` of the lines, wrapped without
/// trimming: the number of rows that they fill at a width. It depends on the
/// texts and the width alone. The widths that it adds up on the way stay below
/// four times the width, and that must fit in sixteen bits.
#[verifier::external_body]
fn count_rows(lines: &Vec<SpanTexts>, width: u16) -> (r: usize)
    requires
        4 * width <= u16::MAX,
    ensures
        r == wrapped_rows(views(lines@), width),
{
    let text: Vec<ratatui::text::Line> = lines.iter().map(
        |l| ratatui::text::Line::from(
            l.texts.iter().map(|t| ratatui::text::Span::raw(t.as_str())).collect::<Vec<_>>(),
        ),
    ).collect();
    ratatui::widgets::Paragraph::new(text).wrap(ratatui::widgets::Wrap { trim: false }).line_count(
        width,
    )
}

/// The conversation as it is shown.
pub struct Transcript {
    pub lines: Vec<Line>,
    /// Whether the view sticks to the end.
    pub follow: bool,
    /// The first row that is shown, where it does not.
    pub scroll: u16,
}

#[verifier::ext_equal]
pub struct TranscriptView {
    pub lines: Seq<Seq<SpanView>>,
    pub follow: bool,
    pub scroll: u16,
}

impl View for Transcript {
    type V = TranscriptView;

    open spec fn view(&self) -> TranscriptView {
        TranscriptView { lines: views(self.lines@), follow: self.follow, scroll: self.scroll }
    }
}

/// The rows of a transcript at a width, as many as can be counted in sixteen
/// bits.
pub open spec fn rows(lines: Seq<Seq<SpanView>>, width: u16) -> u16 {
    if width == 0 || lines.len() == 0 {
        0
    } else {
        clamped(wrapped_rows(span_texts(lines), width) as int, u16::MAX)
    }
}

/// The last row that can be the first on the screen.
pub open spec fn last_offset(total: u16, height: u16) -> u16 {
    if total >= height {
        (total - height) as u16
    } else {
        0
    }
}

/// A number within bounds.
pub open spec fn clamped(x: int, max: u16) -> u16 {
    if x < 0 {
        0
    } else if x > max {
        max
    } else {
        x as u16
    }
}

/// The transcript after scrolling by `delta` rows, of `total` rows, on a screen
/// of `height` rows. At the last row it follows new lines, elsewhere it does
/// not.
pub open spec fn scrolled(t: TranscriptView, delta: i32, total: u16, height: u16) -> TranscriptView {
    let max = last_offset(total, height);
    let current = if t.follow {
        max
    } else {
        t.scroll
    };
    let next = clamped(current + delta, max);
    TranscriptView { scroll: next, follow: next >= max, ..t }
}

/// The transcript when it is shown: the first row, at the end where it follows.
pub open spec fn placed(t: TranscriptView, total: u16, height: u16) -> TranscriptView {
    let max = last_offset(total, height);
    TranscriptView {
        scroll: if t.follow {
            max
        } else if t.scroll <= max {
            t.scroll
        } else {
            max
        },
        ..t
    }
}

impl Default for Transcript {
    fn default() -> (r: Transcript)
        ensures
            r@ == (TranscriptView { lines: Seq::empty(), follow: true, scroll: 0 }),
    {
        Transcript { lines: Vec::new(), follow: true, scroll: 0 }
    }
}

impl Transcript {
    /// Appends lines.
    pub fn push(&mut self, new_lines: Vec<Line>)
        ensures
            final(self)@ == (TranscriptView {
                lines: old(self)@.lines + views(new_lines@),
                ..old(self)@
            }),
    {
        let mut new_lines = new_lines;
        self.lines.append(&mut new_lines);
    }

    /// The rows that the lines fill at a width.
    pub fn wrapped_line_count(&self, width: u16) -> (r: u16)
        requires
            width <= WIDEST,
        ensures
            r == rows(self@.lines, width),
    {
        if width == 0 || self.lines.len() == 0 {
            return 0;
        }
        let mut lines: Vec<SpanTexts> = Vec::new();
        for i in 0..self.lines.len()
            invariant
                lines@.len() == i,
                forall|k: int|
                    0 <= k < i ==> (#[trigger] lines@[k])@ == self.lines@[k]@.map_values(
                        |s: SpanView| s.content,
                    ),
        {
            let spans = &self.lines[i].spans;
            let mut texts: Vec<String> = Vec::new();
            for j in 0..spans.len()
                invariant
                    texts@.len() == j,
                    forall|k: int| 0 <= k < j ==> (#[trigger] texts@[k])@ == spans@[k].content@,
            {
                texts.push(spans[j].content.clone());
            }
            assert(views(texts@) =~= self.lines@[i as int]@.map_values(|s: SpanView| s.content));
            lines.push(SpanTexts { texts });
        }
        assert(views(lines@) =~= span_texts(self@.lines));
        let count: usize = count_rows(&lines, width);
        if count > u16::MAX as usize {
            u16::MAX
        } else {
            count as u16
        }
    }

    /// Scrolls by `delta` rows of `total`.
    pub fn scroll_within(&mut self, delta: i32, total: u16, visible_height: u16)
        ensures
            final(self)@ == scrolled(old(self)@, delta, total, visible_height),
    {
        let max: u16 = total.saturating_sub(visible_height);
        let current: u16 = if self.follow {
            max
        } else {
            self.scroll
        };
        let wanted: i64 = current as i64 + delta as i64;
        let next: u16 = if wanted < 0 {
            0
        } else if wanted > max as i64 {
            max
        } else {
            wanted as u16
        };
        self.scroll = next;
        self.follow = next >= max;
    }

    /// Scrolls by `delta` rows, back for a negative number. A screen without
    /// width scrolls nothing.
    pub fn scroll_by(&mut self, delta: i32, width: u16, visible_height: u16)
        requires
            width <= WIDEST,
        ensures
            final(self)@ == if width == 0 {
                old(self)@
            } else {
                scrolled(old(self)@, delta, rows(old(self)@.lines, width), visible_height)
            },
    {
        if width == 0 {
            return;
        }
        let total: u16 = self.wrapped_line_count(width);
        self.scroll_within(delta, total, visible_height);
    }

    /// Settles the first row that is shown, of `total` rows.
    pub fn place_within(&mut self, total: u16, height: u16)
        ensures
            final(self)@ == placed(old(self)@, total, height),
    {
        let max: u16 = total.saturating_sub(height);
        self.scroll = if self.follow {
            max
        } else if self.scroll <= max {
            self.scroll
        } else {
            max
        };
    }

    /// Settles the first row that is shown on a screen of this size.
    pub fn place(&mut self, width: u16, height: u16)
        requires
            width <= WIDEST,
        ensures
            final(self)@ == if width == 0 || height == 0 {
                old(self)@
            } else {
                placed(old(self)@, rows(old(self)@.lines, width), height)
            },
    {
        if width == 0 || height == 0 {
            return;
        }
        let total: u16 = self.wrapped_line_count(width);
        self.place_within(total, height);
    }

    /// Appends a printed text, line by line; the line feed at its end starts no
    /// line. Says whether there was anything to append.
    pub fn print(&mut self, text: &str) -> (r: bool)
        ensures
            final(self)@ == (TranscriptView {
                lines: old(self)@.lines + printed_lines(text@),
                ..old(self)@
            }),
            r == (printed_lines(text@).len() > 0),
    {
        if text.unicode_len() == 0 {
            assert(old(self)@.lines + printed_lines(text@) =~= old(self)@.lines);
            return false;
        }
        let mut parts = split_at_char(text, '\n');
        proof {
            lemma_split_nonempty(text@);
        }
        let ghost all = views(parts@);
        if parts.len() > 0 && parts[parts.len() - 1].as_str().unicode_len() == 0 {
            parts.pop();
            assert(views(parts@) =~= all.drop_last());
        }
        assert(views(parts@) =~= printed_parts(text@));
        let mut lines: Vec<Line> = Vec::new();
        for i in 0..parts.len()
            invariant
                lines@.len() == i,
                forall|k: int|
                    0 <= k < i ==> (#[trigger] lines@[k])@ == styled_spans(parts@[k]@, plain()),
        {
            lines.push(ansi_to_line(parts[i].as_str()));
        }
        assert(views(lines@) =~= printed_lines(text@));
        let any = lines.len() > 0;
        self.push(lines);
        any
    }
}

/// The parts of a printed text: what its line feeds separate, without an empty
/// last part.
pub open spec fn printed_parts(text: Seq<char>) -> Seq<Seq<char>> {
    if text.len() == 0 {
        Seq::empty()
    } else {
        let parts = split(text, '\n');
        if parts.last().len() == 0 {
            parts.drop_last()
        } else {
            parts
        }
    }
}

/// The lines of a printed text.
pub open spec fn printed_lines(text: Seq<char>) -> Seq<Seq<SpanView>> {
    printed_parts(text).map_values(|p: Seq<char>| styled_spans(p, plain()))
}

proof fn lemma_split_nonempty(s: Seq<char>)
    ensures
        split(s, '\n').len() > 0,
    decreases s.len(),
{
}

/// Scrolling never leaves the transcript, and it follows new lines exactly
/// where the last row is shown.
pub proof fn law_scrolling_stays_in_bounds(t: TranscriptView, delta: i32, total: u16, height: u16)
    ensures
        scrolled(t, delta, total, height).scroll <= last_offset(total, height),
        scrolled(t, delta, total, height).follow == (scrolled(t, delta, total, height).scroll
            == last_offset(total, height)),
        scrolled(t, delta, total, height).lines == t.lines,
{
}

/// A transcript that follows shows its last rows, however many there are.
pub proof fn law_following_shows_the_end(t: TranscriptView, total: u16, height: u16)
    requires
        t.follow,
    ensures
        placed(t, total, height).scroll == last_offset(total, height),
        placed(t, total, height).follow,
{
}

/// What a key or the wheel asks for.
#[derive(Clone, Copy, Debug, PartialEq, Eq, Structural)]
pub enum Scroll {
    PageUp,
    PageDown,
    WheelUp,
    WheelDown,
}

/// The rows of a notch of the wheel.
pub const MOUSE_SCROLL_LINES: i32 = 3;

/// The rows to scroll by: a screen for a page, a few for the wheel.
pub open spec fn scroll_delta(action: Scroll, height: u16) -> int {
    let page: int = if height >= 1 {
        height as int
    } else {
        1
    };
    match action {
        Scroll::PageUp => -page,
        Scroll::PageDown => page,
        Scroll::WheelUp => -MOUSE_SCROLL_LINES as int,
        Scroll::WheelDown => MOUSE_SCROLL_LINES as int,
    }
}

/// The rows to scroll by.
pub fn delta_for(action: Scroll, height: u16) -> (r: i32)
    ensures
        r == scroll_delta(action, height),
{
    let page: i32 = if height >= 1 {
        height as i32
    } else {
        1
    };
    match action {
        Scroll::PageUp => -page,
        Scroll::PageDown => page,
        Scroll::WheelUp => -MOUSE_SCROLL_LINES,
        Scroll::WheelDown => MOUSE_SCROLL_LINES,
    }
}

} // verus!
