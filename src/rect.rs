use vstd::prelude::*;
use crate::scalar::{in_range, Point, Scalar};
use crate::size::Size;

verus! {

/// An axis-aligned box: `point` is its top-left corner, `size` its extent.
#[derive(Clone, Copy, PartialEq, Eq, Structural, Debug, Hash)]
pub struct Rect {
    pub point: Point,
    pub size: Size,
}

/// The four corners of a rectangle.
#[derive(Clone, Copy, PartialEq, Eq, Structural, Debug, Hash)]
pub enum Corner {
    TopLeft,
    TopRight,
    BottomLeft,
    BottomRight,
}

pub open spec fn min_int(a: int, b: int) -> int {
    if a <= b { a } else { b }
}

pub open spec fn max_int(a: int, b: int) -> int {
    if a >= b { a } else { b }
}

pub open spec fn abs_int(a: int) -> int {
    if a >= 0 { a } else { -a }
}

/// The rectangle spanned by two opposite corners, whichever two they are.
pub open spec fn span(a: Point, b: Point) -> Rect {
    Rect {
        point: Point {
            x: Scalar { units: min_int(a.x.units as int, b.x.units as int) as i32 },
            y: Scalar { units: min_int(a.y.units as int, b.y.units as int) as i32 },
        },
        size: Size {
            width: Scalar { units: abs_int(a.x.units - b.x.units) as i32 },
            height: Scalar { units: abs_int(a.y.units - b.y.units) as i32 },
        },
    }
}

/// True when the rectangle spanned by `a` and `b` has a representable size.
pub open spec fn span_fits(a: Point, b: Point) -> bool {
    abs_int(a.x.units - b.x.units) <= i32::MAX && abs_int(a.y.units - b.y.units) <= i32::MAX
}

impl Rect {
    pub open spec fn left_of(self) -> int {
        self.point.x.units as int
    }

    pub open spec fn top_of(self) -> int {
        self.point.y.units as int
    }

    pub open spec fn right_of(self) -> int {
        self.point.x.units + self.size.width.units
    }

    pub open spec fn bottom_of(self) -> int {
        self.point.y.units + self.size.height.units
    }

    /// Its right and bottom edges are representable.
    pub open spec fn edges_fit(self) -> bool {
        in_range(self.right_of()) && in_range(self.bottom_of())
    }

    /// Inclusive containment on all four edges.
    pub open spec fn holds(self, p: Point) -> bool {
        self.left_of() <= p.x.units <= self.right_of() && self.top_of() <= p.y.units
            <= self.bottom_of()
    }

    pub open spec fn corner_of(self, c: Corner) -> (int, int) {
        match c {
            Corner::TopLeft => (self.left_of(), self.top_of()),
            Corner::TopRight => (self.right_of(), self.top_of()),
            Corner::BottomLeft => (self.left_of(), self.bottom_of()),
            Corner::BottomRight => (self.right_of(), self.bottom_of()),
        }
    }

    /// Inclusive containment of a position given in units.
    pub open spec fn holds_at(self, xy: (int, int)) -> bool {
        self.left_of() <= xy.0 <= self.right_of() && self.top_of() <= xy.1 <= self.bottom_of()
    }

    /// The midpoint of the diagonal, rounded down to a whole unit.
    pub open spec fn center_of(self) -> (int, int) {
        (
            self.point.x.units + self.size.width.units / 2,
            self.point.y.units + self.size.height.units / 2,
        )
    }

    /// The extent of the smallest rectangle covering `r1` and `r2`:
    /// left, top, right, bottom.
    pub open spec fn hull_of(r1: Rect, r2: Rect) -> (int, int, int, int) {
        (
            min_int(r1.left_of(), r2.left_of()),
            min_int(r1.top_of(), r2.top_of()),
            max_int(r1.right_of(), r2.right_of()),
            max_int(r1.bottom_of(), r2.bottom_of()),
        )
    }

    /// Both rectangles have representable edges and so has their hull.
    pub open spec fn hull_fits(r1: Rect, r2: Rect) -> bool {
        let h = Rect::hull_of(r1, r2);
        r1.edges_fit() && r2.edges_fit() && abs_int(h.2 - h.0) <= i32::MAX && abs_int(h.3 - h.1)
            <= i32::MAX
    }

    pub fn from_values(x: Scalar, y: Scalar, width: Scalar, height: Scalar) -> (r: Rect)
        ensures
            r.point.x == x && r.point.y == y,
            r.size.width == width && r.size.height == height,
    {
        Rect { point: Point { x, y }, size: Size { width, height } }
    }

    pub fn from_pos_and_size(point: Point, size: Size) -> (r: Rect)
        ensures
            r.point == point,
            r.size == size,
    {
        Rect { point, size }
    }

    /// The rectangle spanned by two opposite corners: the smaller coordinates
    /// give its top-left, the distances its size.
    pub fn from_corners(a: Point, b: Point) -> (r: Rect)
        requires
            span_fits(a, b),
        ensures
            r == span(a, b),
            r.left_of() == min_int(a.x.units as int, b.x.units as int),
            r.top_of() == min_int(a.y.units as int, b.y.units as int),
            r.size.width.units == abs_int(a.x.units - b.x.units),
            r.size.height.units == abs_int(a.y.units - b.y.units),
    {
        let x = if a.x.units <= b.x.units { a.x } else { b.x };
        let y = if a.y.units <= b.y.units { a.y } else { b.y };
        let dx: i64 = a.x.units as i64 - b.x.units as i64;
        let dy: i64 = a.y.units as i64 - b.y.units as i64;
        let w: i64 = if dx >= 0 { dx } else { -dx };
        let h: i64 = if dy >= 0 { dy } else { -dy };
        Rect {
            point: Point { x, y },
            size: Size { width: Scalar { units: w as i32 }, height: Scalar { units: h as i32 } },
        }
    }

    /// The rectangle spanned by the smallest left and top edges and the
    /// largest right and bottom edges of the two.
    pub open spec fn hull(r1: Rect, r2: Rect) -> Rect {
        let h = Rect::hull_of(r1, r2);
        span(
            Point { x: Scalar { units: h.0 as i32 }, y: Scalar { units: h.1 as i32 } },
            Point { x: Scalar { units: h.2 as i32 }, y: Scalar { units: h.3 as i32 } },
        )
    }

    /// The smallest rectangle covering both `r1` and `r2`, made with
    /// `from_corners` from their extreme edges.
    pub fn from_rects(r1: &Rect, r2: &Rect) -> (r: Rect)
        requires
            Rect::hull_fits(*r1, *r2),
        ensures
            r == Rect::hull(*r1, *r2),
            ({
                let h = Rect::hull_of(*r1, *r2);
                h.0 <= h.2 && h.1 <= h.3 ==> {
                    &&& r.left_of() == h.0
                    &&& r.top_of() == h.1
                    &&& r.right_of() == h.2
                    &&& r.bottom_of() == h.3
                }
            }),
    {
        let l = if r1.left().units <= r2.left().units { r1.left() } else { r2.left() };
        let t = if r1.top().units <= r2.top().units { r1.top() } else { r2.top() };
        let rt = if r1.right().units >= r2.right().units { r1.right() } else { r2.right() };
        let b = if r1.bottom().units >= r2.bottom().units { r1.bottom() } else { r2.bottom() };
        Self::from_corners(Point { x: l, y: t }, Point { x: rt, y: b })
    }

    /// The same size, placed at `point`.
    pub fn move_to(&self, point: Point) -> (r: Rect)
        ensures
            r.point == point,
            r.size == self.size,
    {
        Rect { point, ..*self }
    }

    /// The midpoint of the diagonal, rounded down to a whole unit.
    pub fn center(&self) -> (r: Point)
        requires
            in_range(self.center_of().0),
            in_range(self.center_of().1),
        ensures
            r.x.units == self.center_of().0,
            r.y.units == self.center_of().1,
    {
        let x = self.point.x.units as i64 + half_down(self.size.width.units);
        let y = self.point.y.units as i64 + half_down(self.size.height.units);
        Point { x: Scalar { units: x as i32 }, y: Scalar { units: y as i32 } }
    }

    /// Whether `p` lies inside, the four edges included.
    pub fn contains_point(&self, p: Point) -> (r: bool)
        ensures
            r == self.holds(p),
    {
        let right: i64 = self.point.x.units as i64 + self.size.width.units as i64;
        let bottom: i64 = self.point.y.units as i64 + self.size.height.units as i64;
        if p.x.units < self.point.x.units {
            return false;
        }
        if p.x.units as i64 > right {
            return false;
        }
        if p.y.units < self.point.y.units {
            return false;
        }
        if p.y.units as i64 > bottom {
            return false;
        }
        true
    }

    pub fn bottom_right(&self) -> (r: Point)
        requires
            self.edges_fit(),
        ensures
            r.x.units == self.right_of(),
            r.y.units == self.bottom_of(),
    {
        Point { x: self.right(), y: self.bottom() }
    }

    pub fn top(&self) -> (r: Scalar)
        ensures
            r.units == self.top_of(),
    {
        self.point.y
    }

    pub fn bottom(&self) -> (r: Scalar)
        requires
            in_range(self.bottom_of()),
        ensures
            r.units == self.bottom_of(),
    {
        Scalar { units: self.point.y.units + self.size.height.units }
    }

    pub fn left(&self) -> (r: Scalar)
        ensures
            r.units == self.left_of(),
    {
        self.point.x
    }

    pub fn right(&self) -> (r: Scalar)
        requires
            in_range(self.right_of()),
        ensures
            r.units == self.right_of(),
    {
        Scalar { units: self.point.x.units + self.size.width.units }
    }

    pub fn height(&self) -> (r: Scalar)
        ensures
            r == self.size.height,
    {
        self.size.height
    }

    pub fn width(&self) -> (r: Scalar)
        ensures
            r == self.size.width,
    {
        self.size.width
    }
}

/// `v / 2` rounded towards negative infinity.
fn half_down(v: i32) -> (r: i64)
    ensures
        r == v / 2,
{
    let w = v as i64;
    if w >= 0 {
        w / 2
    } else {
        let q = (1 - w) / 2;
        assert(-q == w / 2) by (nonlinear_arith)
            requires
                w < 0,
                q == (1 - w) / 2,
        ;
        -q
    }
}

/// Containment is closed: a rectangle of non-negative size holds its own
/// top-left and bottom-right corners (indeed all four), and holds no point
/// lying strictly outside its edges.
pub proof fn lemma_contains_boundary(r: Rect, p: Point)
    requires
        r.size.is_non_negative(),
    ensures
        r.holds_at(r.corner_of(Corner::TopLeft)),
        r.holds_at(r.corner_of(Corner::TopRight)),
        r.holds_at(r.corner_of(Corner::BottomLeft)),
        r.holds_at(r.corner_of(Corner::BottomRight)),
        r.holds(r.point),
        r.holds(p) == r.holds_at((p.x.units as int, p.y.units as int)),
        (p.x.units < r.left_of() || p.x.units > r.right_of() || p.y.units < r.top_of()
            || p.y.units > r.bottom_of()) ==> !r.holds(p),
{
}

/// Which corner is passed first does not matter to `from_corners`.
pub proof fn lemma_span_symmetric(a: Point, b: Point)
    ensures
        span(a, b) == span(b, a),
        span_fits(a, b) == span_fits(b, a),
{
}

/// The rectangle made by `from_rects` holds every corner of both inputs.
pub proof fn lemma_hull_covers(r1: Rect, r2: Rect)
    requires
        Rect::hull_fits(r1, r2),
        r1.size.is_non_negative(),
        r2.size.is_non_negative(),
    ensures
        forall|c: Corner|
            Rect::hull(r1, r2).holds_at(#[trigger] r1.corner_of(c)) && Rect::hull(
                r1,
                r2,
            ).holds_at(r2.corner_of(c)),
{
}

/// No rectangle of non-negative size that holds every corner of `r1` and of
/// `r2` is narrower or lower than the one made by `from_rects`, so none has
/// a smaller area.
pub proof fn lemma_hull_minimal(r1: Rect, r2: Rect, q: Rect)
    requires
        Rect::hull_fits(r1, r2),
        r1.size.is_non_negative(),
        r2.size.is_non_negative(),
        q.size.is_non_negative(),
        forall|c: Corner| q.holds_at(#[trigger] r1.corner_of(c)) && q.holds_at(r2.corner_of(c)),
    ensures
        q.size.width.units >= Rect::hull(r1, r2).size.width.units,
        q.size.height.units >= Rect::hull(r1, r2).size.height.units,
        q.size.width.units * q.size.height.units >= Rect::hull(r1, r2).size.width.units
            * Rect::hull(r1, r2).size.height.units,
{
    assert(q.holds_at(r1.corner_of(Corner::TopLeft)));
    assert(q.holds_at(r2.corner_of(Corner::TopLeft)));
    assert(q.holds_at(r1.corner_of(Corner::BottomRight)));
    assert(q.holds_at(r2.corner_of(Corner::BottomRight)));
    let hw = Rect::hull(r1, r2).size.width.units as int;
    let hh = Rect::hull(r1, r2).size.height.units as int;
    let qw = q.size.width.units as int;
    let qh = q.size.height.units as int;
    assert(hw >= 0 && hh >= 0);
    assert(qw >= hw && qh >= hh);
    assert(qw * qh >= hw * hh) by (nonlinear_arith)
        requires
            qw >= hw >= 0,
            qh >= hh >= 0,
    ;
}

impl Default for Rect {
    fn default() -> (r: Rect)
        ensures
            r.point.x.units == 0,
            r.point.y.units == 0,
            r.size.width.units == 0,
            r.size.height.units == 0,
    {
        Rect { point: Point::default(), size: Size::default() }
    }
}

} // verus!
