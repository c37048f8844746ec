//! Areas of the screen.
use vstd::prelude::*;

use crate::input_text::{lines_in, total_lines};

verus! {

/// The most lines of the input that are shown at once.
pub const MAX_INPUT_LINES: usize = 6;

/// The most waiting questions that are shown at once.
pub const MAX_PENDING_LINES: usize = 3;

/// A rectangle of cells.
#[derive(Clone, Copy, Debug, PartialEq, Eq, Structural)]
pub struct Rect {
    pub x: u16,
    pub y: u16,
    pub width: u16,
    pub height: u16,
}

impl Rect {
    /// Whether the far edges can be counted.
    pub open spec fn fits(self) -> bool {
        self.x + self.width <= u16::MAX && self.y + self.height <= u16::MAX
    }

    /// Whether the rectangle lies in another one.
    pub open spec fn within(self, outer: Rect) -> bool {
        outer.x <= self.x && outer.y <= self.y && self.x + self.width <= outer.x + outer.width
            && self.y + self.height <= outer.y + outer.height
    }
}

/// The number of lines for waiting questions.
pub open spec fn pending_rows(pending: nat) -> nat {
    if pending < MAX_PENDING_LINES {
        pending
    } else {
        MAX_PENDING_LINES as nat
    }
}

/// The number of lines for waiting questions.
pub fn pending_line_count(pending: &Vec<String>) -> (r: usize)
    ensures
        r == pending_rows(pending@.len()),
{
    if pending.len() < MAX_PENDING_LINES {
        pending.len()
    } else {
        MAX_PENDING_LINES
    }
}

/// The number of lines of the input that are shown.
pub open spec fn input_rows(buffer: Seq<char>) -> nat {
    if lines_in(buffer) < MAX_INPUT_LINES {
        lines_in(buffer)
    } else {
        MAX_INPUT_LINES as nat
    }
}

/// The number of lines of the input that are shown.
pub fn visible_line_count(buffer: &str) -> (r: usize)
    requires
        buffer@.len() < usize::MAX,
    ensures
        r == input_rows(buffer@),
{
    let n: usize = total_lines(buffer);
    if n < MAX_INPUT_LINES {
        n
    } else {
        MAX_INPUT_LINES
    }
}

/// The height of the bottom of the screen: status, waiting questions, and the
/// input in its border, as far as there is room.
pub open spec fn bottom_rows(frame_height: u16, buffer: Seq<char>, pending: nat) -> int {
    let wanted = 1 + pending_rows(pending) + 2 + input_rows(buffer);
    if wanted < frame_height {
        wanted as int
    } else {
        frame_height as int
    }
}

/// The bottom of the screen.
pub open spec fn bottom_of(frame: Rect, buffer: Seq<char>, pending: nat) -> Rect {
    let height = bottom_rows(frame.height, buffer, pending) as u16;
    Rect { y: (frame.y + frame.height - height) as u16, height, ..frame }
}

/// The part of the screen above its bottom.
pub open spec fn top_of(frame: Rect, buffer: Seq<char>, pending: nat) -> Rect {
    Rect { height: (frame.height - bottom_rows(frame.height, buffer, pending)) as u16, ..frame }
}

/// The rows reserved at the bottom of a frame.
pub fn bottom_area(frame_area: Rect, buffer: &str, pending: &Vec<String>) -> (r: Rect)
    requires
        frame_area.fits(),
        buffer@.len() < usize::MAX,
    ensures
        r == bottom_of(frame_area, buffer@, pending@.len()),
        r.fits(),
        r.within(frame_area),
{
    let content: u16 = visible_line_count(buffer) as u16;
    let waiting: u16 = pending_line_count(pending) as u16;
    let wanted: u16 = 1 + waiting + 2 + content;
    let height: u16 = if wanted < frame_area.height {
        wanted
    } else {
        frame_area.height
    };
    Rect {
        x: frame_area.x,
        y: frame_area.y + frame_area.height - height,
        width: frame_area.width,
        height,
    }
}

/// Everything above the bottom: the conversation.
pub fn transcript_area(frame_area: Rect, buffer: &str, pending: &Vec<String>) -> (r: Rect)
    requires
        frame_area.fits(),
        buffer@.len() < usize::MAX,
    ensures
        r == top_of(frame_area, buffer@, pending@.len()),
        r.fits(),
        r.within(frame_area),
{
    let bottom = bottom_area(frame_area, buffer, pending);
    Rect {
        x: frame_area.x,
        y: frame_area.y,
        width: frame_area.width,
        height: frame_area.height - bottom.height,
    }
}

/// The conversation and the bottom fill the screen without overlapping.
pub proof fn law_areas_fill_the_frame(frame: Rect, buffer: Seq<char>, pending: nat)
    requires
        frame.fits(),
    ensures
        top_of(frame, buffer, pending).y == frame.y,
        top_of(frame, buffer, pending).y + top_of(frame, buffer, pending).height == bottom_of(
            frame,
            buffer,
            pending,
        ).y,
        bottom_of(frame, buffer, pending).y + bottom_of(frame, buffer, pending).height == frame.y
            + frame.height,
        top_of(frame, buffer, pending).width == frame.width,
        bottom_of(frame, buffer, pending).width == frame.width,
{
}

/// The parts of the bottom; each is missing where there is no room for it.
#[derive(Clone, Copy, Debug, PartialEq, Eq, Structural)]
pub struct BottomParts {
    pub status: Option<Rect>,
    pub pending: Option<Rect>,
    /// The input with its border.
    pub input: Option<Rect>,
    /// The input within its border.
    pub interior: Option<Rect>,
}

/// A rectangle without its outermost cells; empty where there is nothing else.
pub open spec fn inner_of(r: Rect) -> Rect {
    if r.width < 2 || r.height < 2 {
        Rect { x: 0, y: 0, width: 0, height: 0 }
    } else {
        Rect {
            x: (r.x + 1) as u16,
            y: (r.y + 1) as u16,
            width: (r.width - 2) as u16,
            height: (r.height - 2) as u16,
        }
    }
}

/// The rows that waiting questions get below the status: they leave one for the
/// input.
pub open spec fn pending_height(area: Rect, pending: nat) -> int {
    let room = area.height - 2;
    if pending_rows(pending) < room {
        pending_rows(pending) as int
    } else {
        room
    }
}

/// The parts of the bottom.
pub open spec fn parts_of(area: Rect, pending: nat) -> BottomParts {
    if area.height == 0 {
        BottomParts { status: None, pending: None, input: None, interior: None }
    } else {
        let status = Some(Rect { height: 1, ..area });
        if area.height == 1 {
            BottomParts { status, pending: None, input: None, interior: None }
        } else {
            let take = pending_height(area, pending);
            let input = Rect {
                y: (area.y + 1 + take) as u16,
                height: (area.height - 1 - take) as u16,
                ..area
            };
            BottomParts {
                status,
                pending: if take == 0 {
                    None
                } else {
                    Some(Rect { y: (area.y + 1) as u16, height: take as u16, ..area })
                },
                input: Some(input),
                interior: if input.height > 2 {
                    Some(inner_of(input))
                } else {
                    None
                },
            }
        }
    }
}

/// Splits the bottom into its parts.
pub fn split_bottom(area: Rect, pending: &Vec<String>) -> (r: BottomParts)
    requires
        area.fits(),
    ensures
        r == parts_of(area, pending@.len()),
        r.interior matches Some(i) ==> i.fits(),
{
    if area.height == 0 {
        return BottomParts { status: None, pending: None, input: None, interior: None };
    }
    let status = Some(Rect { height: 1, ..area });
    if area.height == 1 {
        return BottomParts { status, pending: None, input: None, interior: None };
    }
    let wanted: u16 = pending_line_count(pending) as u16;
    let room: u16 = area.height - 2;
    let take: u16 = if wanted < room {
        wanted
    } else {
        room
    };
    let pending_area = if take == 0 {
        None
    } else {
        Some(Rect { x: area.x, y: area.y + 1, width: area.width, height: take })
    };
    let input = Rect {
        x: area.x,
        y: area.y + 1 + take,
        width: area.width,
        height: area.height - 1 - take,
    };
    let interior = if input.height > 2 {
        Some(
            if input.width < 2 {
                Rect { x: 0, y: 0, width: 0, height: 0 }
            } else {
                Rect {
                    x: input.x + 1,
                    y: input.y + 1,
                    width: input.width - 2,
                    height: input.height - 2,
                }
            },
        )
    } else {
        None
    };
    BottomParts { status, pending: pending_area, input: Some(input), interior }
}

/// A rectangle of a size in the middle of an area, as far as it fits.
pub open spec fn centered_in(area: Rect, width: u16, height: u16) -> Rect {
    let w = if width < area.width {
        width
    } else {
        area.width
    };
    let h = if height < area.height {
        height
    } else {
        area.height
    };
    Rect {
        x: (area.x + (area.width - w) / 2) as u16,
        y: (area.y + (area.height - h) / 2) as u16,
        width: w,
        height: h,
    }
}

/// A rectangle of a size in the middle of an area, as far as it fits.
pub fn centered(area: Rect, width: u16, height: u16) -> (r: Rect)
    requires
        area.fits(),
    ensures
        r == centered_in(area, width, height),
        r.within(area),
{
    let w: u16 = if width < area.width {
        width
    } else {
        area.width
    };
    let h: u16 = if height < area.height {
        height
    } else {
        area.height
    };
    Rect { x: area.x + (area.width - w) / 2, y: area.y + (area.height - h) / 2, width: w, height: h }
}

} // verus!
