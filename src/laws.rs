use vstd::prelude::*;
use crate::cell::state_char;
use crate::generation::Generation;

verus! {

/// The live set of a 2×2 block whose top-left cell is `(x, y)`.
pub open spec fn block(x: int, y: int) -> Set<(int, int)> {
    Set::new(|p: (int, int)| x <= p.0 <= x + 1 && y <= p.1 <= y + 1)
}

/// The live set of three vertically adjacent cells centred on `(x, y)`.
pub open spec fn vertical_bar(x: int, y: int) -> Set<(int, int)> {
    Set::new(|p: (int, int)| p.0 == x && y - 1 <= p.1 <= y + 1)
}

/// The live set of three horizontally adjacent cells centred on `(x, y)`.
pub open spec fn horizontal_bar(x: int, y: int) -> Set<(int, int)> {
    Set::new(|p: (int, int)| p.1 == y && x - 1 <= p.0 <= x + 1)
}

/// An all-dead generation advanced one generation stays all-dead.
pub proof fn lemma_empty_stays_empty(g: Generation)
    requires
        g.is_empty(),
    ensures
        g.next().is_empty(),
{
    assert forall|x: int, y: int| !#[trigger] g.next().is_alive(x, y) by {
        assert(g.living_neighbors(x, y) == 0);
    }
}

/// A living cell with fewer than two living neighbors is dead in the next generation.
pub proof fn lemma_underpopulation(g: Generation, x: int, y: int)
    requires
        g.is_alive(x, y),
        g.living_neighbors(x, y) <= 1,
    ensures
        !g.next().is_alive(x, y),
{
}

/// A living cell with two or three living neighbors survives.
pub proof fn lemma_survival(g: Generation, x: int, y: int)
    requires
        g.wf(),
        g.is_alive(x, y),
        g.living_neighbors(x, y) == 2 || g.living_neighbors(x, y) == 3,
    ensures
        g.next().is_alive(x, y),
{
}

/// A dead cell of the grid with exactly three living neighbors comes alive.
pub proof fn lemma_birth(g: Generation, x: int, y: int)
    requires
        g.in_bounds(x, y),
        !g.is_alive(x, y),
        g.living_neighbors(x, y) == 3,
    ensures
        g.next().is_alive(x, y),
{
}

/// A 2×2 block that fits in the grid, alone on it, is unchanged by one advance.
pub proof fn lemma_block_next(g: Generation, x: int, y: int)
    requires
        0 <= x && x + 1 < g.width,
        0 <= y && y + 1 < g.height,
        g.live == block(x, y),
    ensures
        g.next() == g,
{
    assert(g.next().live =~= g.live);
}

/// A 2×2 block that fits in the grid, alone on it, is unchanged by any number
/// of advances.
pub proof fn lemma_block_is_still(g: Generation, x: int, y: int, n: nat)
    requires
        0 <= x && x + 1 < g.width,
        0 <= y && y + 1 < g.height,
        g.live == block(x, y),
    ensures
        g.advance(n) == g,
    decreases n,
{
    lemma_block_next(g, x, y);
    if n > 0 {
        lemma_block_is_still(g, x, y, (n - 1) as nat);
    }
}

/// Three vertically adjacent living cells, alone on a grid with room around the
/// middle one, become a horizontal line of three, and after a second advance
/// are back where they started.
pub proof fn lemma_blinker(g: Generation, x: int, y: int)
    requires
        1 <= x && x + 1 < g.width,
        1 <= y && y + 1 < g.height,
        g.live == vertical_bar(x, y),
    ensures
        g.next() == (Generation { live: horizontal_bar(x, y), ..g }),
        g.next() != g,
        g.advance(2) == g,
{
    let h = g.next();
    assert(h.live =~= horizontal_bar(x, y));
    assert(h.next().live =~= vertical_bar(x, y));
    assert(h.is_alive(x - 1, y) && !g.is_alive(x - 1, y));
    assert(h.next() == g);
    reveal_with_fuel(Generation::advance, 3);
}

/// The text form has `height` lines of `width` characters each: the character
/// of cell `(x, y)` stands at `y * (width + 1) + x`, a line break follows every
/// line but the last, and nothing else is in the text.
pub proof fn lemma_render_dimensions(g: Generation)
    ensures
        g.render().len() == if g.height == 0 {
            0
        } else {
            g.height * (g.width + 1) - 1
        },
        forall|x: int, y: int|
            0 <= x < g.width && 0 <= y < g.height ==> #[trigger] g.render()[y * (g.width + 1) + x]
                == state_char(g.is_alive(x, y)),
        forall|y: int|
            0 <= y < g.height - 1 ==> #[trigger] g.render()[y * (g.width + 1) + g.width] == '\n',
{
    lemma_rows_text(g, g.height);
}

proof fn lemma_rows_text(g: Generation, n: nat)
    ensures
        g.rows_text(n).len() == if n == 0 {
            0
        } else {
            n * (g.width + 1) - 1
        },
        forall|x: int, y: int|
            0 <= x < g.width && 0 <= y < n ==> #[trigger] g.rows_text(n)[y * (g.width + 1) + x]
                == state_char(g.is_alive(x, y)),
        forall|y: int|
            0 <= y < n - 1 ==> #[trigger] g.rows_text(n)[y * (g.width + 1) + g.width] == '\n',
    decreases n,
{
    let w = g.width as int;
    if n > 1 {
        lemma_rows_text(g, (n - 1) as nat);
        let prev = g.rows_text((n - 1) as nat);
        assert(prev.len() == (n - 1) * (w + 1) - 1);
        assert((n - 1) * (w + 1) == n * (w + 1) - (w + 1)) by (nonlinear_arith);
        assert forall|x: int, y: int|
            0 <= x < w && 0 <= y < n implies #[trigger] g.rows_text(n)[y * (w + 1) + x]
                == state_char(g.is_alive(x, y)) by {
            if y < n - 1 {
                assert(y * (w + 1) + x < (n - 1) * (w + 1) - 1) by (nonlinear_arith)
                    requires
                        0 <= x < w,
                        0 <= y < n - 1,
                ;
            } else {
                assert(y * (w + 1) == (n - 1) * (w + 1));
            }
        }
        assert forall|y: int| 0 <= y < n - 1 implies #[trigger] g.rows_text(n)[y * (w + 1) + w]
            == '\n' by {
            if y < n - 2 {
                assert(y * (w + 1) + w < (n - 1) * (w + 1) - 1) by (nonlinear_arith)
                    requires
                        0 <= y < n - 2,
                        0 <= w,
                ;
            } else {
                assert(y * (w + 1) + w == (n - 1) * (w + 1) - 1) by (nonlinear_arith)
                    requires
                        y == n - 2,
                ;
            }
        }
    } else if n == 1 {
        assert forall|x: int, y: int|
            0 <= x < w && 0 <= y < n implies #[trigger] g.rows_text(n)[y * (w + 1) + x]
                == state_char(g.is_alive(x, y)) by {
            assert(y == 0);
        }
    }
}

} // verus!
