use vstd::prelude::*;
use crate::cell::{next_state, state_char};

verus! {

/// The mathematical model of one generation: the grid's dimensions and the set
/// of coordinates `(x, y)` whose cell is alive.
pub struct Generation {
    pub width: nat,
    pub height: nat,
    pub live: Set<(int, int)>,
}

impl Generation {
    /// Whether `(x, y)` is a coordinate of the grid.
    pub open spec fn in_bounds(self, x: int, y: int) -> bool {
        0 <= x < self.width && 0 <= y < self.height
    }

    /// Only coordinates of the grid can hold a living cell.
    pub open spec fn wf(self) -> bool {
        forall|p: (int, int)| #[trigger] self.live.contains(p) ==> self.in_bounds(p.0, p.1)
    }

    pub open spec fn is_alive(self, x: int, y: int) -> bool {
        self.live.contains((x, y))
    }

    /// 1 when `(x, y)` holds a living cell, else 0; absent coordinates count 0.
    pub open spec fn alive_count(self, x: int, y: int) -> int {
        if self.is_alive(x, y) {
            1
        } else {
            0
        }
    }

    /// The number of living cells in the 8-connected neighborhood of `(x, y)`.
    pub open spec fn living_neighbors(self, x: int, y: int) -> int {
        self.alive_count(x - 1, y - 1) + self.alive_count(x, y - 1) + self.alive_count(x + 1, y - 1)
            + self.alive_count(x - 1, y) + self.alive_count(x + 1, y)
            + self.alive_count(x - 1, y + 1) + self.alive_count(x, y + 1)
            + self.alive_count(x + 1, y + 1)
    }

    /// The generation that follows this one under the rule.
    pub open spec fn next(self) -> Generation {
        Generation {
            width: self.width,
            height: self.height,
            live: Set::new(
                |p: (int, int)|
                    self.in_bounds(p.0, p.1) && next_state(
                        self.is_alive(p.0, p.1),
                        self.living_neighbors(p.0, p.1),
                    ),
            ),
        }
    }

    /// The generation `n` advances after this one.
    pub open spec fn advance(self, n: nat) -> Generation
        decreases n,
    {
        if n == 0 {
            self
        } else {
            self.next().advance((n - 1) as nat)
        }
    }

    /// Whether no cell is alive.
    pub open spec fn is_empty(self) -> bool {
        forall|x: int, y: int| !#[trigger] self.is_alive(x, y)
    }

    /// The text of row `y`: one character per cell, left to right.
    pub open spec fn row_text(self, y: int) -> Seq<char> {
        Seq::new(self.width, |x: int| state_char(self.is_alive(x, y)))
    }

    /// The first `n` rows, joined by line breaks, with none after the last.
    pub open spec fn rows_text(self, n: nat) -> Seq<char>
        decreases n,
    {
        if n == 0 {
            Seq::empty()
        } else if n == 1 {
            self.row_text(0)
        } else {
            self.rows_text((n - 1) as nat) + seq!['\n'] + self.row_text(n - 1)
        }
    }

    /// The text form of the generation: every row, top to bottom.
    pub open spec fn render(self) -> Seq<char> {
        self.rows_text(self.height)
    }
}

} // verus!
