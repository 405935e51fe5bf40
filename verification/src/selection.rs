//! Rectangles of pixels.

use vstd::prelude::*;

verus! {

/// A rectangle in pixel coordinates. It may reach outside an image.
#[derive(Debug, Clone, Copy, PartialEq, Eq, Structural)]
pub struct PixelRect {
    pub x: i32,
    pub y: i32,
    pub width: i32,
    pub height: i32,
}

/// A number moved into a range.
pub open spec fn clamp(v: int, lo: int, hi: int) -> int {
    if v < lo {
        lo
    } else if v > hi {
        hi
    } else {
        v
    }
}

/// Where a span ends after both its ends are moved into the range from zero to
/// `max`.
pub open spec fn span_end(start: int, len: int, max: int) -> int {
    let lo = clamp(start, 0, max);
    let hi = clamp(start + len, 0, max);
    if hi > lo {
        hi
    } else {
        lo
    }
}

fn clamp_to(v: i64, hi: i64) -> (r: i64)
    requires
        0 <= hi,
    ensures
        r == clamp(v as int, 0, hi as int),
{
    if v < 0 {
        0
    } else if v > hi {
        hi
    } else {
        v
    }
}

impl PixelRect {
    /// The pixel lies in the rectangle.
    pub open spec fn holds(&self, x: int, y: int) -> bool {
        self.x <= x < self.x + self.width && self.y <= y < self.y + self.height
    }

    /// The column behind the last one.
    pub open spec fn right_edge(&self) -> int {
        self.x + self.width
    }

    /// The row behind the last one.
    pub open spec fn bottom_edge(&self) -> int {
        self.y + self.height
    }

    /// The rectangle lies in an image of the given size.
    pub open spec fn inside(&self, width: int, height: int) -> bool {
        &&& 0 <= self.x <= self.right_edge() <= width
        &&& 0 <= self.y <= self.bottom_edge() <= height
    }

    /// The part of the rectangle that lies in an image of the given size.
    pub fn clamped(&self, width: u32, height: u32) -> (r: PixelRect)
        requires
            width <= i32::MAX,
            height <= i32::MAX,
        ensures
            r.inside(width as int, height as int),
            r.x == clamp(self.x as int, 0, width as int),
            r.y == clamp(self.y as int, 0, height as int),
            r.right_edge() == span_end(self.x as int, self.width as int, width as int),
            r.bottom_edge() == span_end(self.y as int, self.height as int, height as int),
            forall|x: int, y: int| #[trigger]
                r.holds(x, y) <==> (self.holds(x, y) && 0 <= x < width && 0 <= y < height),
    {
        let x0: i64 = clamp_to(self.x as i64, width as i64);
        let y0: i64 = clamp_to(self.y as i64, height as i64);
        let x1: i64 = clamp_to(self.x as i64 + self.width as i64, width as i64);
        let y1: i64 = clamp_to(self.y as i64 + self.height as i64, height as i64);
        let w: i64 = if x1 > x0 {
            x1 - x0
        } else {
            0
        };
        let h: i64 = if y1 > y0 {
            y1 - y0
        } else {
            0
        };
        PixelRect { x: x0 as i32, y: y0 as i32, width: w as i32, height: h as i32 }
    }

    /// The column behind the last one.
    pub fn right(&self) -> (r: i32)
        requires
            i32::MIN <= self.right_edge() <= i32::MAX,
        ensures
            r == self.right_edge(),
    {
        self.x + self.width
    }

    /// The row behind the last one.
    pub fn bottom(&self) -> (r: i32)
        requires
            i32::MIN <= self.bottom_edge() <= i32::MAX,
        ensures
            r == self.bottom_edge(),
    {
        self.y + self.height
    }

    /// Whether the rectangle holds a pixel.
    pub fn is_valid(&self) -> (r: bool)
        ensures
            r == (self.width > 0 && self.height > 0),
    {
        self.width > 0 && self.height > 0
    }
}

} // verus!
