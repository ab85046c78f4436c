use vstd::prelude::*;
use crate::scalar::{in_range, Scalar};

verus! {

/// A width and a height. Sizes are meant to be non-negative, but nothing
/// enforces it.
#[derive(Clone, Copy, PartialEq, Eq, Structural, Debug, Hash)]
pub struct Size {
    pub width: Scalar,
    pub height: Scalar,
}

impl Size {
    pub open spec fn is_non_negative(self) -> bool {
        self.width.units >= 0 && self.height.units >= 0
    }

    pub fn from_wh(w: Scalar, h: Scalar) -> (r: Size)
        ensures
            r.width == w,
            r.height == h,
    {
        Size { width: w, height: h }
    }

    /// A size larger by `w` and `h`.
    pub fn grow(&self, w: Scalar, h: Scalar) -> (r: Size)
        requires
            in_range(self.width.units + w.units),
            in_range(self.height.units + h.units),
        ensures
            r.width.units == self.width.units + w.units,
            r.height.units == self.height.units + h.units,
    {
        Self::from_wh(
            Scalar::from_units(self.width.units + w.units),
            Scalar::from_units(self.height.units + h.units),
        )
    }

    /// A size smaller by `width` and `height`.
    pub fn shrink(&self, width: Scalar, height: Scalar) -> (r: Size)
        requires
            in_range(self.width.units - width.units),
            in_range(self.height.units - height.units),
        ensures
            r.width.units == self.width.units - width.units,
            r.height.units == self.height.units - height.units,
    {
        Self::from_wh(
            Scalar::from_units(self.width.units - width.units),
            Scalar::from_units(self.height.units - height.units),
        )
    }

    pub fn with_height(&self, h: Scalar) -> (r: Size)
        ensures
            r.width == self.width,
            r.height == h,
    {
        Size { height: h, ..*self }
    }

    pub fn with_width(&self, w: Scalar) -> (r: Size)
        ensures
            r.width == w,
            r.height == self.height,
    {
        Size { width: w, ..*self }
    }
}

impl Default for Size {
    fn default() -> (r: Size)
        ensures
            r.width.units == 0,
            r.height.units == 0,
    {
        Size { width: Scalar::zero(), height: Scalar::zero() }
    }
}

} // verus!
