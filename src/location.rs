use vstd::prelude::*;

verus! {

/// A coordinate of the grid: column `x`, row `y`.
#[derive(Clone, Copy, Debug, PartialEq, Eq, Structural)]
pub struct Location {
    pub x: usize,
    pub y: usize,
}

/// Horizontal offset of the `k`-th neighbor, in row-major order.
pub open spec fn dx(k: int) -> int {
    if k < 3 {
        k - 1
    } else if k == 3 {
        -1
    } else if k == 4 {
        1
    } else {
        k - 6
    }
}

/// Vertical offset of the `k`-th neighbor, in row-major order.
pub open spec fn dy(k: int) -> int {
    if k < 3 {
        -1
    } else if k < 5 {
        0
    } else {
        1
    }
}

/// The eight coordinates of the Moore neighborhood of `(x, y)`, row by row.
pub open spec fn moore(x: int, y: int) -> Seq<(int, int)> {
    Seq::new(8, |k: int| (x + dx(k), y + dy(k)))
}

/// Whether both components of `p` can be held by a `Location`.
pub open spec fn representable(p: (int, int)) -> bool {
    0 <= p.0 <= usize::MAX && 0 <= p.1 <= usize::MAX
}

pub open spec fn positions(s: Seq<Location>) -> Seq<(int, int)> {
    s.map_values(|l: Location| l.pos())
}

/// Filtering `s.take(k + 1)` adds `s[k]` to the filtered `s.take(k)` when it passes.
pub proof fn lemma_filter_take_step<A>(s: Seq<A>, k: int, pred: spec_fn(A) -> bool)
    requires
        0 <= k < s.len(),
    ensures
        s.take(k + 1).filter(pred) == if pred(s[k]) {
            s.take(k).filter(pred).push(s[k])
        } else {
            s.take(k).filter(pred)
        },
{
    reveal(Seq::filter);
    assert(s.take(k + 1).drop_last() =~= s.take(k));
}

/// `v + d - 1` when it lies in `0..=usize::MAX`.
fn shift(v: usize, d: usize) -> (r: Option<usize>)
    requires
        d < 3,
    ensures
        0 <= v + d - 1 <= usize::MAX ==> r == Some((v + d - 1) as usize),
        !(0 <= v + d - 1 <= usize::MAX) ==> r is None,
{
    if d == 0 {
        v.checked_sub(1)
    } else if d == 1 {
        Some(v)
    } else {
        v.checked_add(1)
    }
}

impl Location {
    pub open spec fn pos(self) -> (int, int) {
        (self.x as int, self.y as int)
    }

    pub fn new(x: usize, y: usize) -> (r: Location)
        ensures
            r.x == x,
            r.y == y,
    {
        Location { x: x, y: y }
    }

    /// The `k`-th coordinate of the neighborhood, when a `Location` can hold it.
    fn neighbor(&self, k: usize) -> (r: Option<Location>)
        requires
            k < 8,
        ensures
            representable(moore(self.x as int, self.y as int)[k as int]) ==> r is Some && r->0.pos()
                == moore(self.x as int, self.y as int)[k as int],
            !representable(moore(self.x as int, self.y as int)[k as int]) ==> r is None,
    {
        let (ox, oy): (usize, usize) = if k < 3 {
            (k, 0)
        } else if k == 3 {
            (0, 1)
        } else if k == 4 {
            (2, 1)
        } else {
            (k - 5, 2)
        };
        match (shift(self.x, ox), shift(self.y, oy)) {
            (Some(x), Some(y)) => Some(Location::new(x, y)),
            _ => None,
        }
    }

    /// The coordinates adjacent to this one (the Moore neighborhood), in row-major
    /// order, leaving out those with a negative component (or one past `usize::MAX`).
    /// No wraparound: a location at an edge has fewer neighbors.
    pub fn neighbors(&self) -> (r: Vec<Location>)
        ensures
            positions(r@) == moore(self.x as int, self.y as int).filter(
                |p: (int, int)| representable(p),
            ),
    {
        let ghost m = moore(self.x as int, self.y as int);
        let ghost pred = |p: (int, int)| representable(p);
        let mut r: Vec<Location> = Vec::new();
        for k in 0..8
            invariant
                m == moore(self.x as int, self.y as int),
                pred == (|p: (int, int)| representable(p)),
                positions(r@) == m.take(k as int).filter(pred),
        {
            proof {
                lemma_filter_take_step(m, k as int, pred);
            }
            match self.neighbor(k) {
                Some(l) => {
                    let ghost before = r@;
                    r.push(l);
                    assert(positions(r@) =~= positions(before).push(l.pos()));
                },
                None => {},
            }
        }
        assert(m.take(8) =~= m);
        r
    }
}

} // verus!
