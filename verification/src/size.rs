//! Two-dimensional character-cell extents used by the widget layer.

use vstd::prelude::*;

verus! {

/// A width and height measured in character cells.
#[derive(Copy, Clone, PartialEq, Eq, Structural, Debug)]
pub struct Size {
    pub width: usize,
    pub height: usize,
}

impl Size {
    /// A square extent: the same number of cells in both directions.
    pub fn square(size: usize) -> (r: Size)
        ensures
            r.width == size,
            r.height == size,
    {
        Size { width: size, height: size }
    }

    /// Shrinks both dimensions by the same amount.
    pub fn shrink(self, rhs: usize) -> (r: Size)
        requires
            rhs <= self.width,
            rhs <= self.height,
        ensures
            r.width == self.width - rhs,
            r.height == self.height - rhs,
    {
        Size { width: self.width - rhs, height: self.height - rhs }
    }

    /// Componentwise difference of two extents.
    pub fn minus(self, rhs: Size) -> (r: Size)
        requires
            rhs.width <= self.width,
            rhs.height <= self.height,
        ensures
            r.width == self.width - rhs.width,
            r.height == self.height - rhs.height,
    {
        Size { width: self.width - rhs.width, height: self.height - rhs.height }
    }
}

} // verus!
