use vstd::prelude::*;

verus! {

/// The fixed B3/S23 rule: a living cell survives with two or three living
/// neighbors, a dead cell is born with exactly three, every other cell is dead
/// in the next generation.
pub open spec fn next_state(living: bool, living_neighbors: int) -> bool {
    if living {
        living_neighbors == 2 || living_neighbors == 3
    } else {
        living_neighbors == 3
    }
}

/// Something that can be advanced one generation given its living-neighbor count.
pub trait CellLike {
    fn tick(&self, n: u8) -> Cell;
}

/// Marker for the living state of a cell.
#[derive(Clone, Copy, Debug, PartialEq, Eq, Structural)]
pub struct LiveCell {}

/// Marker for the dead state of a cell.
#[derive(Clone, Copy, Debug, PartialEq, Eq, Structural)]
pub struct DeadCell {}

/// A cell of the grid: alive or dead.
#[derive(Clone, Copy, Debug, PartialEq, Eq, Structural)]
pub enum Cell {
    LiveCell(LiveCell),
    DeadCell(DeadCell),
}

impl Cell {
    pub open spec fn is_living(self) -> bool {
        self is LiveCell
    }

    /// The cell whose state is `living`.
    pub open spec fn of_state(living: bool) -> Cell {
        if living {
            Cell::LiveCell(LiveCell {  })
        } else {
            Cell::DeadCell(DeadCell {  })
        }
    }

    /// A living cell.
    pub fn living() -> (r: Cell)
        ensures
            r.is_living(),
    {
        Cell::LiveCell(LiveCell {  })
    }

    /// A living cell; the same value as `living`.
    pub fn alive() -> (r: Cell)
        ensures
            r.is_living(),
    {
        Cell::living()
    }

    /// A dead cell.
    pub fn dead() -> (r: Cell)
        ensures
            !r.is_living(),
    {
        Cell::DeadCell(DeadCell {  })
    }

    /// Whether the cell is alive.
    pub fn is_alive(&self) -> (r: bool)
        ensures
            r == self.is_living(),
    {
        match self {
            Cell::LiveCell(_) => true,
            Cell::DeadCell(_) => false,
        }
    }

    /// The character that renders the cell: `X` when alive, `O` when dead.
    pub fn state(&self) -> (r: char)
        ensures
            r == state_char(self.is_living()),
    {
        if self.is_alive() {
            'X'
        } else {
            'O'
        }
    }
}

/// The character of a cell whose state is `living`.
pub open spec fn state_char(living: bool) -> char {
    if living {
        'X'
    } else {
        'O'
    }
}

impl CellLike for Cell {
    /// The cell's state in the next generation, given `n` living neighbors.
    fn tick(&self, n: u8) -> (r: Cell)
        ensures
            r.is_living() == next_state(self.is_living(), n as int),
    {
        let living = self.is_alive();
        if (living && (n == 2 || n == 3)) || (!living && n == 3) {
            Cell::living()
        } else {
            Cell::dead()
        }
    }
}

} // verus!
