//! Coordinate and rectangle utilities: unsigned/signed 2-d vectors, an
//! axis-aligned rectangle with intersection, center and containment tests,
//! and a point enumerator walking a rectangle row by row.

use vstd::prelude::*;

verus! {

/// A 2-d vector of unsigned tile coordinates.
#[derive(Debug, Clone, Copy, PartialEq, Eq, Structural)]
pub struct UVec2 {
    pub x: u32,
    pub y: u32,
}

impl UVec2 {
    pub fn new(x: u32, y: u32) -> (v: UVec2)
        ensures
            v == (UVec2 { x, y }),
    {
        UVec2 { x, y }
    }
}

/// A 2-d vector of signed coordinates, used for camera arithmetic.
#[derive(Debug, Clone, Copy, PartialEq, Eq, Structural)]
pub struct IVec2 {
    pub x: i32,
    pub y: i32,
}

impl IVec2 {
    pub fn new(x: i32, y: i32) -> (v: IVec2)
        ensures
            v == (IVec2 { x, y }),
    {
        IVec2 { x, y }
    }
}

/// An axis-aligned rectangle, stored by its left/bottom/right/top edges.
/// Built through [`Rect::with_dimension`], so the left edge never exceeds
/// the right edge and the bottom never exceeds the top.
#[derive(Debug, Clone, Copy)]
pub struct Rect {
    x_left: u32,
    y_bottom: u32,
    x_right: u32,
    y_top: u32,
}

impl Rect {
    pub closed spec fn left(self) -> u32 {
        self.x_left
    }

    pub closed spec fn bottom(self) -> u32 {
        self.y_bottom
    }

    pub closed spec fn right(self) -> u32 {
        self.x_right
    }

    pub closed spec fn top(self) -> u32 {
        self.y_top
    }

    /// Edges ordered as construction guarantees.
    pub open spec fn wf(self) -> bool {
        self.left() <= self.right() && self.bottom() <= self.top()
    }

    /// Whether two rectangles overlap or touch, edges included.
    pub open spec fn spec_intersect(self, other: Rect) -> bool {
        &&& self.left() <= other.right()
        &&& self.right() >= other.left()
        &&& self.bottom() <= other.top()
        &&& self.top() >= other.bottom()
    }

    /// Whether a point lies inside the rectangle; the left and bottom edges
    /// are inside, the right and top edges are not.
    pub open spec fn spec_contains(self, point: UVec2) -> bool {
        &&& point.x >= self.left()
        &&& point.x < self.right()
        &&& point.y >= self.bottom()
        &&& point.y < self.top()
    }

    /// Creates a `Rect` with `(x, y)` at the bottom left and the given
    /// dimensions.
    pub fn with_dimension(x: u32, y: u32, width: u32, height: u32) -> (r: Rect)
        requires
            x + width <= u32::MAX,
            y + height <= u32::MAX,
        ensures
            r.left() == x,
            r.bottom() == y,
            r.right() == x + width,
            r.top() == y + height,
            r.wf(),
    {
        Rect { x_left: x, y_bottom: y, x_right: x + width, y_top: y + height }
    }

    /// Returns true if this intersects with another `Rect`.
    pub fn intersect(&self, other: &Rect) -> (r: bool)
        ensures
            r == self.spec_intersect(*other),
    {
        self.x_left <= other.x_right && self.x_right >= other.x_left && self.y_bottom
            <= other.y_top && self.y_top >= other.y_bottom
    }

    /// Returns the center of the `Rect`.
    pub fn center(&self) -> (c: UVec2)
        requires
            self.left() + self.right() <= u32::MAX,
            self.bottom() + self.top() <= u32::MAX,
        ensures
            c.x == (self.left() + self.right()) / 2,
            c.y == (self.bottom() + self.top()) / 2,
    {
        UVec2::new((self.x_left + self.x_right) / 2, (self.y_bottom + self.y_top) / 2)
    }

    /// Returns true if a point is inside the `Rect`.
    pub fn point_in_rect(&self, point: UVec2) -> (r: bool)
        ensures
            r == self.spec_contains(point),
    {
        point.x >= self.x_left && point.x < self.x_right && point.y >= self.y_bottom && point.y
            < self.y_top
    }

    /// Returns an enumerator that yields each point inside the `Rect`,
    /// row by row from the bottom left.
    pub fn points(&self) -> (p: Points)
        requires
            self.wf(),
            (self.right() - self.left()) * (self.top() - self.bottom()) <= u32::MAX,
        ensures
            p.wf(),
            p.start_x() == self.left(),
            p.start_y() == self.bottom(),
            p.row_width() == self.right() - self.left(),
            p.total() == (self.right() - self.left()) * (self.top() - self.bottom()),
            p.index() == 0,
    {
        let width = self.width();
        let height = self.height();
        proof {
            lemma_row_major_fits(width as int, height as int);
            if width as int * height as int > 0 {
                assert(width > 0) by (nonlinear_arith)
                    requires
                        width as int * height as int > 0,
                ;
            }
        }
        Points { curr_index: 0, width, len: width * height, x: self.x_left, y: self.y_bottom }
    }

    /// Returns the `Rect` width.
    pub fn width(&self) -> (w: u32)
        ensures
            w == abs_diff(self.right() as int, self.left() as int),
            self.wf() ==> w == self.right() - self.left(),
    {
        if self.x_right >= self.x_left {
            self.x_right - self.x_left
        } else {
            self.x_left - self.x_right
        }
    }

    /// Returns the `Rect` height.
    pub fn height(&self) -> (h: u32)
        ensures
            h == abs_diff(self.top() as int, self.bottom() as int),
            self.wf() ==> h == self.top() - self.bottom(),
    {
        if self.y_top >= self.y_bottom {
            self.y_top - self.y_bottom
        } else {
            self.y_bottom - self.y_top
        }
    }
}

/// The absolute difference of two integers.
pub open spec fn abs_diff(a: int, b: int) -> int {
    if a >= b {
        a - b
    } else {
        b - a
    }
}

/// Any slot of a `width * height` row-major grid stays within its row and
/// column counts.
proof fn lemma_row_major_fits(width: int, height: int)
    requires
        width >= 0,
        height >= 0,
    ensures
        forall|k: int| 0 <= k < width * height ==> #[trigger] (k % width) < width,
        forall|k: int| 0 <= k < width * height ==> #[trigger] (k / width) < height,
{
    assert forall|k: int| 0 <= k < width * height implies #[trigger] (k % width) < width by {
        assert(width > 0 && (k % width) < width) by (nonlinear_arith)
            requires
                width >= 0,
                height >= 0,
                0 <= k < width * height,
        ;
    }
    assert forall|k: int| 0 <= k < width * height implies #[trigger] (k / width) < height by {
        assert(width > 0 && (k / width) < height) by (nonlinear_arith)
            requires
                width >= 0,
                height >= 0,
                0 <= k < width * height,
        ;
    }
}

/// Enumerates the points of a rectangle in row-major order: the point for
/// slot `k` is `(start_x + k % row_width, start_y + k / row_width)`.
pub struct Points {
    curr_index: u32,
    width: u32,
    len: u32,
    x: u32,
    y: u32,
}

impl Points {
    pub closed spec fn index(self) -> u32 {
        self.curr_index
    }

    pub closed spec fn row_width(self) -> u32 {
        self.width
    }

    pub closed spec fn total(self) -> u32 {
        self.len
    }

    pub closed spec fn start_x(self) -> u32 {
        self.x
    }

    pub closed spec fn start_y(self) -> u32 {
        self.y
    }

    /// The point yielded for slot `k`.
    pub open spec fn point_at(self, k: int) -> UVec2 {
        UVec2 {
            x: (self.start_x() + k % (self.row_width() as int)) as u32,
            y: (self.start_y() + k / (self.row_width() as int)) as u32,
        }
    }

    /// Every slot's point stays within `u32` coordinates.
    pub closed spec fn wf(self) -> bool {
        &&& (self.len > 0 ==> self.width > 0)
        &&& forall|k: int|
            0 <= k < self.len ==> {
                &&& #[trigger] (k % (self.width as int)) < self.width
                &&& self.x + k % (self.width as int) <= u32::MAX
                &&& self.y + k / (self.width as int) <= u32::MAX
            }
    }

    /// Yields the next point, or `None` once every slot has been returned.
    pub fn next(&mut self) -> (r: Option<UVec2>)
        requires
            old(self).wf(),
        ensures
            final(self).wf(),
            final(self).row_width() == old(self).row_width(),
            final(self).total() == old(self).total(),
            final(self).start_x() == old(self).start_x(),
            final(self).start_y() == old(self).start_y(),
            old(self).index() >= old(self).total() ==> r is None && final(self).index() == old(
                self,
            ).index(),
            old(self).index() < old(self).total() ==> r == Some(
                old(self).point_at(old(self).index() as int),
            ) && final(self).index() == old(self).index() + 1,
    {
        if self.curr_index >= self.len {
            None
        } else {
            proof {
                let k = self.curr_index as int;
                let w = self.width as int;
                assert((k % w) < self.width && self.x + k % w <= u32::MAX && self.y + k / w
                    <= u32::MAX);
            }
            let x = self.curr_index % self.width;
            let y = self.curr_index / self.width;
            self.curr_index = self.curr_index + 1;
            Some(UVec2::new(self.x + x, self.y + y))
        }
    }
}

} // verus!
