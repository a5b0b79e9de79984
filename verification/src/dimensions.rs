use vstd::prelude::*;

verus! {

/// A terminal cell-grid size.
#[derive(Clone, Copy, Debug, PartialEq, Eq, Structural)]
pub struct Dimensions {
    pub width: usize,
    pub height: usize,
}

/// Selects which [`Dimensions`] axis an operation applies to.
#[derive(Clone, Copy, Debug, PartialEq, Eq, Structural)]
pub enum Direction {
    Horizontal,
    Vertical,
}

impl Dimensions {
    pub fn new(width: usize, height: usize) -> (d: Dimensions)
        ensures
            d == (Dimensions { width, height }),
    {
        Dimensions { width, height }
    }

    /// Shrink one axis by `n`, stopping at zero rather than underflowing.
    pub fn saturating_sub(self, n: usize, direction: Direction) -> (d: Dimensions)
        ensures
            direction == Direction::Horizontal ==> d == (Dimensions {
                width: if self.width >= n { (self.width - n) as usize } else { 0 },
                height: self.height,
            }),
            direction == Direction::Vertical ==> d == (Dimensions {
                width: self.width,
                height: if self.height >= n { (self.height - n) as usize } else { 0 },
            }),
    {
        match direction {
            Direction::Horizontal => Dimensions { width: self.width.saturating_sub(n), height: self.height },
            Direction::Vertical => Dimensions { width: self.width, height: self.height.saturating_sub(n) },
        }
    }
}

} // verus!
