use vstd::prelude::*;

verus! {

/// Height of a block in a chain; genesis stands at height zero.
#[derive(Debug, Clone, Copy, PartialEq, Eq, Structural, PartialOrd, Ord, Hash)]
pub struct BlockHeight(pub u64);

impl BlockHeight {
    pub fn new(height: u64) -> (r: BlockHeight)
        ensures
            r.0 == height,
    {
        BlockHeight(height)
    }

    pub fn zero() -> (r: BlockHeight)
        ensures
            r.0 == 0,
    {
        BlockHeight(0)
    }

    pub fn one() -> (r: BlockHeight)
        ensures
            r.0 == 1,
    {
        BlockHeight(1)
    }

    pub fn max() -> (r: BlockHeight)
        ensures
            r.0 == u64::MAX,
    {
        BlockHeight(u64::MAX)
    }

    pub fn inner(self) -> (r: u64)
        ensures
            r == self.0,
    {
        self.0
    }

    /// The height `rhs` blocks above this one, if it is representable.
    pub fn checked_add(&self, rhs: u64) -> (r: Option<BlockHeight>)
        ensures
            r.is_some() == (self.0 + rhs <= u64::MAX),
            r.is_some() ==> r.unwrap().0 == self.0 + rhs,
    {
        match self.0.checked_add(rhs) {
            Some(h) => Some(BlockHeight(h)),
            None => None,
        }
    }

    /// Moves one block up.
    pub fn increment(&mut self)
        requires
            old(self).0 < u64::MAX,
        ensures
            final(self).0 == old(self).0 + 1,
    {
        self.0 = self.0 + 1;
    }

    /// The height one block up.
    pub fn next_height(&self) -> (r: BlockHeight)
        requires
            self.0 < u64::MAX,
        ensures
            r.0 == self.0 + 1,
    {
        BlockHeight(self.0 + 1)
    }
}

} // verus!
