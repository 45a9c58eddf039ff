//! The number of the level being played.
use vstd::prelude::*;

verus! {

/// The level being played, numbered from one.
#[derive(Copy, Clone, Debug, Default, PartialEq, Eq, Hash, Structural)]
pub struct LevelNum(pub usize);

impl LevelNum {
    /// The position of this level in a cycle of `count` levels: the levels
    /// are played in order and start over after the last.
    pub fn slot(&self, count: usize) -> (r: usize)
        requires
            self.0 >= 1,
            count > 0,
        ensures
            r == (self.0 - 1) % (count as int),
            r < count,
    {
        (self.0 - 1) % count
    }

    /// Moves on to the next level.
    pub fn advance(&mut self)
        requires
            old(self).0 < usize::MAX,
        ensures
            final(self).0 == old(self).0 + 1,
    {
        self.0 = self.0 + 1;
    }
}

} // verus!
