//! Rectangles of terminal cells.
use vstd::prelude::*;

verus! {

/// A rectangle of cells, its top left corner first.
#[derive(Debug, Clone, Copy, PartialEq, Eq, Structural)]
pub struct Rect {
    pub x: u16,
    pub y: u16,
    pub width: u16,
    pub height: u16,
}

/// The difference, or zero where it would be negative.
pub open spec fn monus(a: int, b: int) -> int {
    if a >= b {
        a - b
    } else {
        0
    }
}

/// The lesser of two numbers.
pub open spec fn least(a: int, b: int) -> int {
    if a <= b {
        a
    } else {
        b
    }
}

impl Rect {
    /// Whether all cells of the rectangle can be addressed.
    pub open spec fn addressable(self) -> bool {
        self.x + self.width <= u16::MAX && self.y + self.height <= u16::MAX
    }

    /// Whether a cell lies in the rectangle.
    pub open spec fn covers(self, x: int, y: int) -> bool {
        self.x <= x < self.x + self.width && self.y <= y < self.y + self.height
    }

    /// Whether another rectangle lies in this one.
    pub open spec fn encloses(self, inner: Rect) -> bool {
        self.x <= inner.x && inner.x + inner.width <= self.x + self.width && self.y <= inner.y && inner.y
            + inner.height <= self.y + self.height
    }

    /// Cuts columns off the left edge, as many as there are at most.
    pub fn clip_left(self, columns: u16) -> (clipped: Rect)
        ensures
            ({
                let cut = least(columns as int, self.width as int);
                &&& clipped.x == least(self.x + cut, u16::MAX as int)
                &&& clipped.width == self.width - cut
                &&& clipped.y == self.y
                &&& clipped.height == self.height
            }),
    {
        let cut: u16 = if columns <= self.width { columns } else { self.width };
        Rect { x: self.x.saturating_add(cut), y: self.y, width: self.width - cut, height: self.height }
    }

    /// Cuts columns off the right edge, as many as there are at most.
    pub fn clip_right(self, columns: u16) -> (clipped: Rect)
        ensures
            clipped == (Rect { width: clipped.width, ..self }),
            clipped.width == monus(self.width as int, columns as int),
    {
        Rect {
            x: self.x,
            y: self.y,
            width: self.width.saturating_sub(columns),
            height: self.height,
        }
    }

    /// Cuts rows off the top edge, as many as there are at most.
    pub fn clip_top(self, rows: u16) -> (clipped: Rect)
        ensures
            ({
                let cut = least(rows as int, self.height as int);
                &&& clipped.y == least(self.y + cut, u16::MAX as int)
                &&& clipped.height == self.height - cut
                &&& clipped.x == self.x
                &&& clipped.width == self.width
            }),
    {
        let cut: u16 = if rows <= self.height { rows } else { self.height };
        Rect { x: self.x, y: self.y.saturating_add(cut), width: self.width, height: self.height - cut }
    }

    /// Cuts rows off the bottom edge, as many as there are at most.
    pub fn clip_bottom(self, rows: u16) -> (clipped: Rect)
        ensures
            clipped == (Rect { height: clipped.height, ..self }),
            clipped.height == monus(self.height as int, rows as int),
    {
        Rect {
            x: self.x,
            y: self.y,
            width: self.width,
            height: self.height.saturating_sub(rows),
        }
    }

    /// The rectangle with another width.
    pub fn with_width(self, width: u16) -> (changed: Rect)
        ensures
            changed == (Rect { width, ..self }),
    {
        Rect { x: self.x, y: self.y, width, height: self.height }
    }

    /// The rectangle with another height.
    pub fn with_height(self, height: u16) -> (changed: Rect)
        ensures
            changed == (Rect { height, ..self }),
    {
        Rect { x: self.x, y: self.y, width: self.width, height }
    }

    /// The cells inside a border of one cell on every side.
    pub open spec fn framed(self) -> Rect {
        Rect {
            x: least(self.x + 1, least(self.x + self.width, u16::MAX as int)) as u16,
            y: least(self.y + 1, least(self.y + self.height, u16::MAX as int)) as u16,
            width: monus(self.width as int, 2) as u16,
            height: monus(self.height as int, 2) as u16,
        }
    }

    /// The cells inside a border of one cell on every side.
    pub fn inside_border(self) -> (inner: Rect)
        ensures
            inner == self.framed(),
    {
        let right: u16 = self.x.saturating_add(self.width);
        let bottom: u16 = self.y.saturating_add(self.height);
        let x: u16 = self.x.saturating_add(1);
        let y: u16 = self.y.saturating_add(1);
        Rect {
            x: if x <= right { x } else { right },
            y: if y <= bottom { y } else { bottom },
            width: self.width.saturating_sub(2),
            height: self.height.saturating_sub(2),
        }
    }

    /// The cells inside a gap of one column on either side; nothing where
    /// there is no room for the gap.
    pub open spec fn gapped(self) -> Rect {
        if self.width < 2 {
            Rect { x: 0, y: 0, width: 0, height: 0 }
        } else {
            Rect { x: (self.x + 1) as u16, width: (self.width - 2) as u16, ..self }
        }
    }

    /// The cells inside a gap of one column on either side.
    pub fn inside_gap(self) -> (inner: Rect)
        requires
            self.width >= 2 ==> self.x < u16::MAX,
        ensures
            inner == self.gapped(),
    {
        if self.width < 2 {
            Rect { x: 0, y: 0, width: 0, height: 0 }
        } else {
            Rect { x: self.x + 1, y: self.y, width: self.width - 2, height: self.height }
        }
    }
}

/// The difference is never negative, and never more than what is left.
pub proof fn law_differences_stop_at_zero(a: int, b: int)
    ensures
        monus(a, b) >= 0,
        monus(a, b) >= a - b,
        monus(a, b) == 0 || monus(a, b) + b == a,
{
}

/// The lesser of two numbers is one of them, and exceeds neither.
pub proof fn law_the_lesser_exceeds_neither(a: int, b: int)
    ensures
        least(a, b) <= a,
        least(a, b) <= b,
        least(a, b) == a || least(a, b) == b,
        least(a, b) == least(b, a),
{
}

/// A cell lies inside the border exactly if the cells around it are all in the
/// rectangle, and inside the gap exactly if the two beside it are.
pub proof fn law_inner_cells_have_neighbours(area: Rect, x: int, y: int)
    requires
        area.x + area.width <= u16::MAX,
        area.y + area.height <= u16::MAX,
    ensures
        area.framed().covers(x, y) <==> area.covers(x - 1, y) && area.covers(x + 1, y)
            && area.covers(x, y - 1) && area.covers(x, y + 1),
        area.gapped().covers(x, y) <==> area.covers(x - 1, y) && area.covers(x + 1, y),
        area.encloses(area.framed()),
{
}

/// A rectangle covers its corners and the cells between them; it encloses
/// another exactly if it covers the corners of that.
pub proof fn law_rectangles_cover_from_corner_to_corner(area: Rect, inner: Rect, x: int, y: int)
    ensures
        area.covers(x, y) <==> area.x <= x && x - area.x < area.width && area.y <= y && y - area.y
            < area.height,
        inner.width > 0 && inner.height > 0 ==> (area.encloses(inner) <==> area.covers(
            inner.x as int,
            inner.y as int,
        ) && area.covers(inner.x + inner.width - 1, inner.y + inner.height - 1)),
{
}

} // verus!
