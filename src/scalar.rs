use vstd::prelude::*;

verus! {

/// Number of sub-pixel steps in one pixel.
pub const SUBPIXELS: i32 = 64;

/// True when `v` can be held by a `Scalar`.
pub open spec fn in_range(v: int) -> bool {
    i32::MIN <= v <= i32::MAX
}

/// A coordinate or a length in fixed point: `units` sub-pixel steps,
/// `SUBPIXELS` of which make one pixel.
#[derive(Clone, Copy, PartialEq, Eq, Structural, Debug, Hash)]
pub struct Scalar {
    pub units: i32,
}

impl Scalar {
    pub fn from_units(units: i32) -> (r: Scalar)
        ensures
            r.units == units,
    {
        Scalar { units }
    }

    pub fn from_pixels(pixels: i32) -> (r: Scalar)
        requires
            in_range(pixels * SUBPIXELS),
        ensures
            r.units == pixels * SUBPIXELS,
    {
        Scalar { units: pixels * SUBPIXELS }
    }

    pub fn zero() -> (r: Scalar)
        ensures
            r.units == 0,
    {
        Scalar { units: 0 }
    }
}

impl Default for Scalar {
    fn default() -> (r: Scalar)
        ensures
            r.units == 0,
    {
        Scalar { units: 0 }
    }
}

/// A 2D position.
#[derive(Clone, Copy, PartialEq, Eq, Structural, Debug, Hash)]
pub struct Point {
    pub x: Scalar,
    pub y: Scalar,
}

impl Point {
    pub fn from_xy(x: Scalar, y: Scalar) -> (r: Point)
        ensures
            r.x == x,
            r.y == y,
    {
        Point { x, y }
    }
}

impl Default for Point {
    fn default() -> (r: Point)
        ensures
            r.x.units == 0,
            r.y.units == 0,
    {
        Point { x: Scalar::zero(), y: Scalar::zero() }
    }
}

} // verus!
