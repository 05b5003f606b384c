use vstd::prelude::*;

verus! {

/// One cell of the grid: either dead or alive, nothing more.
#[derive(Clone, Copy, Debug, PartialEq, Eq, Structural)]
pub enum Cell {
    Dead,
    Alive,
}

impl Cell {
    /// The opposite state.
    pub open spec fn flipped(self) -> Cell {
        match self {
            Cell::Dead => Cell::Alive,
            Cell::Alive => Cell::Dead,
        }
    }

    /// How much this cell contributes to a live-neighbor sum: alive counts
    /// as one, dead as zero. The conversion is explicit; the enum carries no
    /// numeric value of its own.
    pub open spec fn count(self) -> int {
        match self {
            Cell::Dead => 0,
            Cell::Alive => 1,
        }
    }

    /// Flip the cell in place between dead and alive.
    pub fn toggle(&mut self)
        ensures
            *final(self) == old(self).flipped(),
    {
        *self = match *self {
            Cell::Dead => Cell::Alive,
            Cell::Alive => Cell::Dead,
        };
    }

    /// The executable form of `count`.
    pub fn as_count(self) -> (n: u8)
        ensures
            n as int == self.count(),
    {
        match self {
            Cell::Dead => 0,
            Cell::Alive => 1,
        }
    }
}

} // verus!
