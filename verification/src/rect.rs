use vstd::prelude::*;

verus! {

/// The smaller of two integers.
pub open spec fn min_int(a: int, b: int) -> int {
    if a <= b { a } else { b }
}

/// The larger of two integers.
pub open spec fn max_int(a: int, b: int) -> int {
    if a >= b { a } else { b }
}

/// A rectangle on the screen, given by its top left corner and its size.
#[derive(Debug, Clone, Copy, PartialEq, Eq, Structural)]
pub struct Rect {
    pub x: usize,
    pub y: usize,
    pub width: usize,
    pub height: usize,
}

impl Rect {
    /// Whether the right and bottom edges of the rectangle fit in a `usize`.
    pub open spec fn fits(self) -> bool {
        self.x + self.width <= usize::MAX && self.y + self.height <= usize::MAX
    }

    pub fn new(x: usize, y: usize, width: usize, height: usize) -> (r: Self)
        ensures
            r == (Rect { x, y, width, height }),
    {
        Self { x, y, width, height }
    }

    pub fn area(self) -> (a: usize)
        requires
            self.width * self.height <= usize::MAX,
        ensures
            a == self.width * self.height,
    {
        self.width * self.height
    }

    pub fn left(self) -> (l: usize)
        ensures
            l == self.x,
    {
        self.x
    }

    pub fn right(self) -> (r: usize)
        requires
            self.x + self.width <= usize::MAX,
        ensures
            r == self.x + self.width,
    {
        self.x + self.width
    }

    pub fn top(self) -> (t: usize)
        ensures
            t == self.y,
    {
        self.y
    }

    pub fn bottom(self) -> (b: usize)
        requires
            self.y + self.height <= usize::MAX,
        ensures
            b == self.y + self.height,
    {
        self.y + self.height
    }

    /// The smallest rectangle that holds both rectangles.
    pub open spec fn spec_union(self, other: Self) -> Self {
        let x1 = min_int(self.x as int, other.x as int);
        let y1 = min_int(self.y as int, other.y as int);
        let x2 = max_int(self.x + self.width, other.x + other.width);
        let y2 = max_int(self.y + self.height, other.y + other.height);
        Rect { x: x1 as usize, y: y1 as usize, width: (x2 - x1) as usize, height: (y2 - y1) as usize }
    }

    /// The overlap of two rectangles, which must overlap or touch.
    pub open spec fn spec_intersection(self, other: Self) -> Self {
        let x1 = max_int(self.x as int, other.x as int);
        let y1 = max_int(self.y as int, other.y as int);
        let x2 = min_int(self.x + self.width, other.x + other.width);
        let y2 = min_int(self.y + self.height, other.y + other.height);
        Rect { x: x1 as usize, y: y1 as usize, width: (x2 - x1) as usize, height: (y2 - y1) as usize }
    }

    /// Whether the two rectangles overlap in the horizontal and the vertical extent.
    pub open spec fn spec_intersects(self, other: Self) -> bool {
        &&& self.x < other.x + other.width
        &&& self.x + self.width > other.x
        &&& self.y < other.y + other.height
        &&& self.y + self.height > other.y
    }

    /// Whether the rectangles overlap or touch, so that their intersection has no negative size.
    pub open spec fn touches(self, other: Self) -> bool {
        &&& max_int(self.x as int, other.x as int) <= min_int(self.x + self.width, other.x + other.width)
        &&& max_int(self.y as int, other.y as int) <= min_int(self.y + self.height, other.y + other.height)
    }

    pub fn union(self, other: Self) -> (r: Self)
        requires
            self.fits(),
            other.fits(),
        ensures
            r == self.spec_union(other),
    {
        let x1 = if self.x <= other.x { self.x } else { other.x };
        let y1 = if self.y <= other.y { self.y } else { other.y };
        let x2 = if self.x + self.width >= other.x + other.width { self.x + self.width } else { other.x + other.width };
        let y2 = if self.y + self.height >= other.y + other.height { self.y + self.height } else { other.y + other.height };
        Self { x: x1, y: y1, width: x2 - x1, height: y2 - y1 }
    }

    pub fn intersection(self, other: Rect) -> (r: Rect)
        requires
            self.fits(),
            other.fits(),
            self.touches(other),
        ensures
            r == self.spec_intersection(other),
    {
        let x1 = if self.x >= other.x { self.x } else { other.x };
        let y1 = if self.y >= other.y { self.y } else { other.y };
        let x2 = if self.x + self.width <= other.x + other.width { self.x + self.width } else { other.x + other.width };
        let y2 = if self.y + self.height <= other.y + other.height { self.y + self.height } else { other.y + other.height };
        Rect { x: x1, y: y1, width: x2 - x1, height: y2 - y1 }
    }

    pub fn insersects(self, other: Rect) -> (b: bool)
        requires
            self.fits(),
            other.fits(),
        ensures
            b == self.spec_intersects(other),
    {
        self.x < other.x + other.width && self.x + self.width > other.x && self.y < other.y + other.height
            && self.y + self.height > other.y
    }
}

/// The union of two rectangles does not depend on their order.
pub proof fn lemma_union_commutes(a: Rect, b: Rect)
    ensures
        a.spec_union(b) == b.spec_union(a),
{
}

/// The union of two rectangles holds each of them.
pub proof fn lemma_union_contains(a: Rect, b: Rect)
    requires
        a.fits(),
        b.fits(),
    ensures
        a.spec_union(b).x <= a.x,
        a.spec_union(b).y <= a.y,
        a.spec_union(b).x + a.spec_union(b).width >= a.x + a.width,
        a.spec_union(b).y + a.spec_union(b).height >= a.y + a.height,
{
}

/// The intersection of two touching rectangles does not depend on their order, and lies in both.
pub proof fn lemma_intersection_inside(a: Rect, b: Rect)
    requires
        a.fits(),
        b.fits(),
        a.touches(b),
    ensures
        a.spec_intersection(b) == b.spec_intersection(a),
        a.spec_intersection(b).x >= a.x,
        a.spec_intersection(b).y >= a.y,
        a.spec_intersection(b).x + a.spec_intersection(b).width <= a.x + a.width,
        a.spec_intersection(b).y + a.spec_intersection(b).height <= a.y + a.height,
{
}

/// Overlap is symmetric.
pub proof fn lemma_intersects_symmetric(a: Rect, b: Rect)
    ensures
        a.spec_intersects(b) == b.spec_intersects(a),
{
}

/// Overlapping rectangles touch, so their intersection is defined.
pub proof fn lemma_intersects_touches(a: Rect, b: Rect)
    requires
        a.spec_intersects(b),
    ensures
        a.touches(b),
{
}

} // verus!
