use vstd::prelude::*;

verus! {

/// One square of the grid: dead or alive, and where it sits.
///
/// `x` counts columns from the left and `y` rows from the top, both from zero.
#[derive(Clone, Copy, Debug, PartialEq, Eq, Structural)]
pub struct Cell {
    pub alive: bool,
    pub x: usize,
    pub y: usize,
}

impl Cell {
    pub fn new(x: usize, y: usize, alive: bool) -> (cell: Cell)
        ensures
            cell.x == x,
            cell.y == y,
            cell.alive == alive,
    {
        Cell { alive, x, y }
    }

    /// Marks the cell dead; its position is untouched.
    pub fn kill(&mut self)
        ensures
            !final(self).alive,
            final(self).x == old(self).x,
            final(self).y == old(self).y,
    {
        self.alive = false;
    }

    /// Marks the cell alive; its position is untouched.
    pub fn revive(&mut self)
        ensures
            final(self).alive,
            final(self).x == old(self).x,
            final(self).y == old(self).y,
    {
        self.alive = true;
    }

    pub fn is_alive(&self) -> (alive: bool)
        ensures
            alive == self.alive,
    {
        self.alive
    }
}

} // verus!
