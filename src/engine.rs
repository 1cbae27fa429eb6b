use vstd::prelude::*;
use crate::cell::{Cell, CellLike};
use crate::generation::Generation;
use crate::location::{Location, moore};
use crate::world::{GridError, World, cells_at, within};

verus! {

/// The width of the grids that `Conway::new` makes.
pub const DEFAULT_WIDTH: usize = 20;

/// The number of living cells in `s`.
pub open spec fn count_living(s: Seq<Cell>) -> int
    decreases s.len(),
{
    if s.len() == 0 {
        0
    } else {
        count_living(s.drop_last()) + if s.last().is_living() {
            1int
        } else {
            0int
        }
    }
}

/// The number of coordinates of `s` that hold a living cell in `g`.
pub open spec fn count_alive_in(g: Generation, s: Seq<(int, int)>) -> int
    decreases s.len(),
{
    if s.len() == 0 {
        0
    } else {
        count_alive_in(g, s.drop_last()) + g.alive_count(s.last().0, s.last().1)
    }
}

/// Leaving out the coordinates off the grid does not change the count of living cells.
pub proof fn lemma_count_within(g: Generation, s: Seq<(int, int)>)
    requires
        g.wf(),
    ensures
        count_living(cells_at(g, within(g, s))) == count_alive_in(g, s),
    decreases s.len(),
{
    reveal(Seq::filter);
    if s.len() > 0 {
        lemma_count_within(g, s.drop_last());
        let a = s.last();
        let w = within(g, s.drop_last());
        if g.in_bounds(a.0, a.1) {
            assert(within(g, s) == w.push(a));
            assert(cells_at(g, w.push(a)).drop_last() =~= cells_at(g, w));
        } else {
            assert(within(g, s) == w);
            assert(!g.live.contains(a));
        }
    }
}

/// Counting over the Moore neighborhood gives the living-neighbor count.
pub proof fn lemma_count_moore(g: Generation, x: int, y: int)
    ensures
        count_alive_in(g, moore(x, y)) == g.living_neighbors(x, y),
{
    reveal_with_fuel(count_alive_in, 9);
}

/// A simulation: a grid that advances one generation at a time.
pub struct Conway {
    world: World,
}

impl View for Conway {
    type V = Generation;

    closed spec fn view(&self) -> Generation {
        self.world@
    }
}

impl Conway {
    pub closed spec fn wf(&self) -> bool {
        self.world.wf()
    }

    /// The generation of a well-formed simulation has living cells only on the grid.
    pub proof fn lemma_view_wf(&self)
        requires
            self.wf(),
        ensures
            self@.wf(),
    {
        self.world.lemma_view_wf();
    }

    /// A simulation on a grid `width` cells wide and `row_count` rows high, all dead.
    pub fn with_width(width: usize, row_count: usize) -> (r: Conway)
        ensures
            r.wf(),
            r@ == (Generation { width: width as nat, height: row_count as nat, live: Set::empty() }),
    {
        Conway { world: World::new(width, row_count) }
    }

    /// A simulation on a grid `DEFAULT_WIDTH` cells wide and `row_count` rows high,
    /// all dead.
    pub fn new(row_count: usize) -> (r: Conway)
        ensures
            r.wf(),
            r@ == (Generation {
                width: DEFAULT_WIDTH as nat,
                height: row_count as nat,
                live: Set::empty(),
            }),
    {
        Conway::with_width(DEFAULT_WIDTH, row_count)
    }

    /// The text form of the current generation (see `World::render`).
    pub fn to_string(&self) -> (r: String)
        requires
            self.wf(),
        ensures
            r@ == self@.render(),
    {
        self.world.render()
    }

    /// Makes the cell at `l` alive. A coordinate off the grid is refused with
    /// `OutOfBounds` and changes nothing.
    pub fn add_living(&mut self, l: &Location) -> (r: Result<(), GridError>)
        requires
            old(self).wf(),
        ensures
            final(self).wf(),
            old(self)@.in_bounds(l.x as int, l.y as int) ==> r is Ok && final(self)@ == (Generation {
                live: old(self)@.live.insert(l.pos()),
                ..old(self)@
            }),
            !old(self)@.in_bounds(l.x as int, l.y as int) ==> r == Err::<(), GridError>(
                GridError::OutOfBounds,
            ) && final(self)@ == old(self)@,
    {
        self.world.add_cell(Cell::alive(), l)
    }

    /// The number of living cells adjacent to `location`; cells off the grid count none.
    pub fn living_neighbor_count(&self, location: &Location) -> (r: usize)
        requires
            self.wf(),
        ensures
            r == self@.living_neighbors(location.x as int, location.y as int),
            r <= 8,
    {
        let ghost g = self@;
        let cells = self.world.neighbors_of(location);
        proof {
            self.lemma_view_wf();
            lemma_count_within(g, moore(location.x as int, location.y as int));
            lemma_count_moore(g, location.x as int, location.y as int);
            moore(location.x as int, location.y as int).lemma_filter_len(
                |p: (int, int)| g.in_bounds(p.0, p.1),
            );
        }
        let mut n: usize = 0;
        for i in 0..cells.len()
            invariant
                cells.len() <= 8,
                n <= i,
                n == count_living(cells@.take(i as int)),
        {
            assert(cells@.take(i + 1).drop_last() =~= cells@.take(i as int));
            if cells[i].is_alive() {
                n = n + 1;
            }
        }
        assert(cells@.take(cells.len() as int) =~= cells@);
        n
    }

    /// The next generation, computed from this one alone into a new grid of the
    /// same dimensions; this simulation is left unchanged.
    pub fn tick(&self) -> (r: Conway)
        requires
            self.wf(),
        ensures
            r.wf(),
            r@ == self@.next(),
    {
        let ghost g = self@;
        let width = self.world.width();
        let height = self.world.height();
        let mut next = Conway::with_width(width, height);
        assert(next@.live =~= done_before(g, 0, 0));
        for y in 0..height
            invariant
                self.wf(),
                g == self@,
                width == g.width,
                height == g.height,
                next.wf(),
                next@ == (Generation { width: g.width, height: g.height, live: done_before(g, 0, y as int) }),
        {
            for x in 0..width
                invariant
                    self.wf(),
                    g == self@,
                    width == g.width,
                    height == g.height,
                    y < height,
                    next.wf(),
                    next@ == (Generation { width: g.width, height: g.height, live: done_before(g, x as int, y as int) }),
            {
                let location = Location::new(x, y);
                if let Some(cell) = self.world.cell_at(&location) {
                    let living_neighbors = self.living_neighbor_count(&location);
                    let successor = cell.tick(living_neighbors as u8);
                    if successor.is_alive() {
                        let _ = next.add_living(&location);
                    }
                    assert(next@.live =~= done_before(g, x + 1, y as int));
                }
            }
            assert(done_before(g, width as int, y as int) =~= done_before(g, 0, y + 1));
        }
        assert(done_before(g, 0, height as int) =~= g.next().live);
        next
    }
}

/// The cells of `g.next()` that lie before `(x, y)` in row-major order.
pub open spec fn done_before(g: Generation, x: int, y: int) -> Set<(int, int)> {
    Set::new(|p: (int, int)| (p.1 < y || (p.1 == y && p.0 < x)) && g.next().live.contains(p))
}

} // verus!
