use vstd::prelude::*;
use crate::cell::{Cell, state_char};
use crate::generation::Generation;
use crate::location::{Location, lemma_filter_take_step, moore, positions, representable};

verus! {

/// Why a write to the grid was refused.
#[derive(Clone, Copy, Debug, PartialEq, Eq, Structural)]
pub enum GridError {
    /// The coordinate lies outside the grid.
    OutOfBounds,
}

/// The grid: `height` rows of `width` cells each, addressed by `Location`.
pub struct World {
    width: usize,
    height: usize,
    rows: Vec<Vec<Cell>>,
}

impl View for World {
    type V = Generation;

    closed spec fn view(&self) -> Generation {
        Generation {
            width: self.width as nat,
            height: self.height as nat,
            live: Set::new(
                |p: (int, int)|
                    0 <= p.0 < self.width && 0 <= p.1 < self.height
                        && self.rows@[p.1]@[p.0].is_living(),
            ),
        }
    }
}

/// The cells at the coordinates of `s`, as the generation `g` holds them.
pub open spec fn cells_at(g: Generation, s: Seq<(int, int)>) -> Seq<Cell> {
    s.map_values(|p: (int, int)| Cell::of_state(g.is_alive(p.0, p.1)))
}

/// The coordinates of `s` that lie in the grid of `g`.
pub open spec fn within(g: Generation, s: Seq<(int, int)>) -> Seq<(int, int)> {
    s.filter(|p: (int, int)| g.in_bounds(p.0, p.1))
}

/// Filtering by `p` and then by a stronger `q` is filtering by `q` alone.
pub proof fn lemma_filter_filter<A>(s: Seq<A>, p: spec_fn(A) -> bool, q: spec_fn(A) -> bool)
    requires
        forall|a: A| #[trigger] q(a) ==> p(a),
    ensures
        s.filter(p).filter(q) == s.filter(q),
    decreases s.len(),
{
    reveal(Seq::filter);
    if s.len() > 0 {
        lemma_filter_filter(s.drop_last(), p, q);
        if p(s.last()) {
            assert(s.filter(p).drop_last() =~= s.drop_last().filter(p));
        }
    }
}

impl World {
    /// Every row holds exactly `width` cells, and there are `height` rows.
    pub closed spec fn wf(&self) -> bool {
        &&& self.rows@.len() == self.height
        &&& forall|y: int| 0 <= y < self.height ==> (#[trigger] self.rows@[y])@.len() == self.width
    }

    pub proof fn lemma_view_wf(&self)
        requires
            self.wf(),
        ensures
            self@.wf(),
    {
    }

    /// A grid of `width` by `height` cells, all dead. A zero dimension gives a
    /// grid without cells.
    pub fn new(width: usize, height: usize) -> (r: World)
        ensures
            r.wf(),
            r@ == (Generation { width: width as nat, height: height as nat, live: Set::empty() }),
    {
        let mut rows: Vec<Vec<Cell>> = Vec::new();
        for y in 0..height
            invariant
                rows@.len() == y,
                forall|j: int| 0 <= j < y ==> (#[trigger] rows@[j])@.len() == width,
                forall|j: int, i: int|
                    0 <= j < y && 0 <= i < width ==> !(#[trigger] rows@[j]@[i]).is_living(),
        {
            let mut row: Vec<Cell> = Vec::new();
            for x in 0..width
                invariant
                    row@.len() == x,
                    forall|i: int| 0 <= i < x ==> !(#[trigger] row@[i]).is_living(),
            {
                row.push(Cell::dead());
            }
            rows.push(row);
        }
        let r = World { width, height, rows };
        assert(r@.live =~= Set::empty());
        r
    }

    pub fn width(&self) -> (r: usize)
        ensures
            r == self@.width,
    {
        self.width
    }

    pub fn height(&self) -> (r: usize)
        ensures
            r == self@.height,
    {
        self.height
    }

    /// Writes `cell` at `location`. A coordinate outside the grid is refused
    /// with `OutOfBounds` and leaves the grid unchanged.
    pub fn add_cell(&mut self, cell: Cell, location: &Location) -> (r: Result<(), GridError>)
        requires
            old(self).wf(),
        ensures
            final(self).wf(),
            old(self)@.in_bounds(location.x as int, location.y as int) ==> r is Ok && final(self)@
                == (Generation {
                    live: if cell.is_living() {
                        old(self)@.live.insert(location.pos())
                    } else {
                        old(self)@.live.remove(location.pos())
                    },
                    ..old(self)@
                }),
            !old(self)@.in_bounds(location.x as int, location.y as int) ==> r == Err::<(), GridError>(
                GridError::OutOfBounds,
            ) && final(self)@ == old(self)@,
    {
        if location.x < self.width && location.y < self.height {
            let ghost before = *self;
            self.rows[location.y][location.x] = cell;
            assert(self@.live =~= (if cell.is_living() {
                before@.live.insert(location.pos())
            } else {
                before@.live.remove(location.pos())
            }));
            Ok(())
        } else {
            Err(GridError::OutOfBounds)
        }
    }

    /// The cell at `location`, or `None` when the coordinate is not part of the grid.
    pub fn cell_at(&self, location: &Location) -> (r: Option<Cell>)
        requires
            self.wf(),
        ensures
            self@.in_bounds(location.x as int, location.y as int) ==> r == Some(
                Cell::of_state(self@.is_alive(location.x as int, location.y as int)),
            ),
            !self@.in_bounds(location.x as int, location.y as int) ==> r is None,
    {
        if location.y < self.rows.len() {
            let row = &self.rows[location.y];
            if location.x < row.len() {
                let c = row[location.x];
                assert(c == Cell::of_state(c.is_living()));
                Some(c)
            } else {
                None
            }
        } else {
            None
        }
    }

    /// The cells adjacent to `location` (its Moore neighborhood) that lie in the
    /// grid, in row-major order. Coordinates off the grid contribute nothing.
    pub fn neighbors_of(&self, location: &Location) -> (r: Vec<Cell>)
        requires
            self.wf(),
        ensures
            r@ == cells_at(self@, within(self@, moore(location.x as int, location.y as int))),
    {
        let ghost g = self@;
        let ghost inb = |p: (int, int)| g.in_bounds(p.0, p.1);
        let ns = location.neighbors();
        let ghost ps = positions(ns@);
        let mut r: Vec<Cell> = Vec::new();
        for i in 0..ns.len()
            invariant
                self.wf(),
                g == self@,
                inb == (|p: (int, int)| g.in_bounds(p.0, p.1)),
                ps == positions(ns@),
                r@ == cells_at(g, ps.take(i as int).filter(inb)),
        {
            proof {
                lemma_filter_take_step(ps, i as int, inb);
            }
            assert(ps[i as int] == ns@[i as int].pos());
            match self.cell_at(&ns[i]) {
                Some(c) => {
                    r.push(c);
                    assert(r@ =~= cells_at(g, ps.take(i as int).filter(inb).push(ps[i as int])));
                },
                None => {},
            }
        }
        proof {
            assert(ps.take(ns.len() as int) =~= ps);
            lemma_filter_filter(
                moore(location.x as int, location.y as int),
                |p: (int, int)| representable(p),
                inb,
            );
        }
        r
    }

    /// The text form of the grid: one line per row, top to bottom, one
    /// character per cell (`X` alive, `O` dead), lines joined by `\n` with
    /// none after the last.
    pub fn render(&self) -> (r: String)
        requires
            self.wf(),
        ensures
            r@ == self@.render(),
    {
        let ghost g = self@;
        let mut text = String::new();
        for y in 0..self.height
            invariant
                self.wf(),
                g == self@,
                text@ == g.rows_text(y as nat),
        {
            let ghost head = if y == 0 {
                Seq::<char>::empty()
            } else {
                text@ + seq!['\n']
            };
            proof {
                reveal_strlit("\n");
            }
            if y > 0 {
                text.append("\n");
            }
            let row = &self.rows[y];
            assert(text@ =~= head + g.row_text(y as int).take(0));
            for x in 0..self.width
                invariant
                    self.wf(),
                    g == self@,
                    y < self.height,
                    row == self.rows@[y as int],
                    text@ == head + g.row_text(y as int).take(x as int),
            {
                proof {
                    reveal_strlit("X");
                    reveal_strlit("O");
                }
                assert(g.is_alive(x as int, y as int) == row@[x as int].is_living());
                if row[x].is_alive() {
                    text.append("X");
                } else {
                    text.append("O");
                }
                assert(text@ =~= head + g.row_text(y as int).take(x + 1));
            }
            assert(g.row_text(y as int).take(self.width as int) =~= g.row_text(y as int));
            assert(text@ =~= g.rows_text((y + 1) as nat));
        }
        text
    }
}

} // verus!
