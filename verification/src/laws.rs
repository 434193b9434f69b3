//! Properties of the grid that relate several of its operations: bounds
//! on the neighbour count, the absence of wraparound at the edges, the
//! behaviour of whole-board patterns under the generation rule, and the
//! shape of the viewport snapshot.

use vstd::math::min;
use vstd::prelude::*;

use crate::grid::count_bool;
use crate::grid::rule;
use crate::grid::symbol;
use crate::grid::Grid;

verus! {

/// A neighbour count always lies between 0 and 8: there are only eight
/// Moore neighbours, and off-board positions count as dead.
pub proof fn lemma_neighbour_count_range(g: Grid, x: int, y: int)
    ensures
        0 <= g.live_neighbours(x, y) <= 8,
{
}

/// The neighbour count never counts the cell itself: two boards of the
/// same dimensions that agree on every cell except (`x`, `y`) have the
/// same neighbour count there.
pub proof fn lemma_neighbour_count_ignores_self(g1: Grid, g2: Grid, x: int, y: int)
    requires
        g1.width == g2.width,
        g1.height == g2.height,
        forall|a: int, b: int|
            !(a == x && b == y) ==> #[trigger] g1.alive(a, b) == g2.alive(a, b),
    ensures
        g1.live_neighbours(x, y) == g2.live_neighbours(x, y),
{
}

/// No wraparound: the corner cell (0, 0) draws its count from its only
/// three on-board neighbours, (1, 0), (0, 1) and (1, 1) — so it can never
/// exceed 3.
pub proof fn lemma_corner_neighbours(g: Grid)
    ensures
        g.live_neighbours(0, 0) == count_bool(g.alive(1, 0)) + count_bool(g.alive(0, 1))
            + count_bool(g.alive(1, 1)),
        g.live_neighbours(0, 0) <= 3,
{
}

/// No wraparound along a side either: a cell on any edge of the board
/// has at most five on-board neighbours.
pub proof fn lemma_edge_neighbour_bound(g: Grid, x: int, y: int)
    requires
        x == 0 || y == 0 || x == g.width - 1 || y == g.height - 1,
    ensures
        g.live_neighbours(x, y) <= 5,
{
}

/// A board with no live cell at all stays that way: every cell's next
/// state is dead.
pub proof fn lemma_dead_board_stays_dead(g: Grid)
    requires
        g.wf(),
        g.width > 0,
        forall|i: int| 0 <= i < g.cells@.len() ==> !g.cells@[i],
    ensures
        forall|i: int| 0 <= i < g.cells@.len() ==> !g.next_cell(i),
{
    assert forall|a: int, b: int| !g.alive(a, b) by {
        if g.in_bounds(a, b) {
            g.lemma_coord_index(a, b);
        }
    }
}

/// The update is deterministic: the next generation is a function of the
/// dimensions and the current cells alone, with no hidden input.
pub proof fn lemma_update_deterministic(g1: Grid, g2: Grid)
    requires
        g1.width == g2.width,
        g1.height == g2.height,
        g1.cells@ == g2.cells@,
    ensures
        forall|i: int| #[trigger] g1.next_cell(i) == g2.next_cell(i),
{
    assert forall|a: int, b: int| #[trigger] g1.alive(a, b) == g2.alive(a, b) by {}
    assert forall|i: int| #[trigger] g1.next_cell(i) == g2.next_cell(i) by {
        let x = i % g1.width as int;
        let y = i / g1.width as int;
        assert(g1.live_neighbours(x, y) == g2.live_neighbours(x, y));
    }
}

/// A board holding exactly one two-by-two block of live cells, away from
/// every edge, with everything else dead.
pub open spec fn is_block_at(g: Grid, bx: int, by: int) -> bool {
    &&& g.wf()
    &&& 1 <= bx
    &&& bx + 2 <= g.width - 1
    &&& 1 <= by
    &&& by + 2 <= g.height - 1
    &&& forall|x: int, y: int|
        g.in_bounds(x, y) ==> (#[trigger] g.alive(x, y) <==> (bx <= x <= bx + 1 && by <= y <= by
            + 1))
}

/// The two-by-two block is a still life: on a board that holds exactly
/// one block with a margin of dead cells around it, every cell's next
/// state equals its current state, whole generations over.
pub proof fn lemma_block_still_life(g: Grid, bx: int, by: int)
    requires
        is_block_at(g, bx, by),
    ensures
        forall|i: int| 0 <= i < g.cells@.len() ==> #[trigger] g.next_cell(i) == g.cells@[i],
{
    assert(g.width > 0);
    assert forall|i: int| 0 <= i < g.cells@.len() implies #[trigger] g.next_cell(i) == g.cells@[i]
        by {
        let x = i % g.width as int;
        let y = i / g.width as int;
        g.lemma_index_coord(i);
        lemma_block_next_at_coord(g, bx, by, x, y);
    }
}

/// Together with the previous lemma this covers any number of advances:
/// if `g2` is the generation after a board holding a single block, `g2`
/// holds the very same block, so the argument repeats forever.
pub proof fn lemma_block_preserved(g1: Grid, g2: Grid, bx: int, by: int)
    requires
        is_block_at(g1, bx, by),
        g2.width == g1.width,
        g2.height == g1.height,
        g2.cells@.len() == g1.cells@.len(),
        forall|i: int| 0 <= i < g1.cells@.len() ==> g2.cells@[i] == g1.next_cell(i),
    ensures
        is_block_at(g2, bx, by),
        g2.cells@ =~= g1.cells@,
{
    lemma_block_still_life(g1, bx, by);
    assert forall|i: int| 0 <= i < g2.cells@.len() implies g2.cells@[i] == g1.cells@[i] by {
        assert(g2.cells@[i] == g1.next_cell(i));
    }
    assert forall|x: int, y: int| g2.in_bounds(x, y) implies (#[trigger] g2.alive(x, y) <==> (bx
        <= x <= bx + 1 && by <= y <= by + 1)) by {
        g1.lemma_coord_index(x, y);
        assert(g1.alive(x, y) <==> (bx <= x <= bx + 1 && by <= y <= by + 1));
    }
}

/// The coordinate form of the still-life argument: within the board, a
/// block cell sees exactly three live neighbours and survives, and every
/// other cell sees at most two and stays dead.
proof fn lemma_block_next_at_coord(g: Grid, bx: int, by: int, x: int, y: int)
    requires
        is_block_at(g, bx, by),
        g.in_bounds(x, y),
    ensures
        rule(g.alive(x, y), g.live_neighbours(x, y)) == g.alive(x, y),
{
    assert forall|a: int, b: int| x - 1 <= a <= x + 1 && y - 1 <= b <= y + 1 implies (
    #[trigger] g.alive(a, b) <==> (g.in_bounds(a, b) && bx <= a <= bx + 1 && by <= b <= by + 1))
        by {}
}

/// The viewport snapshot reports exactly the cells inside both the board
/// and the viewport: an entry exists for position (`x`, `y`) precisely
/// when both coordinates fall short of the board's and the viewport's
/// bounds, and it carries that cell's glyph.
pub proof fn lemma_render_covers_viewport(
    g: Grid,
    area_width: int,
    area_height: int,
    out: Seq<(usize, usize, char)>,
    x: int,
    y: int,
)
    requires
        g.wf(),
        0 <= area_width,
        0 <= area_height,
        out.len() == min(g.width as int, area_width) * min(g.height as int, area_height),
        forall|k: int|
            0 <= k < out.len() ==> out[k] == g.render_entry(k, min(g.width as int, area_width)),
        0 <= x < min(g.width as int, area_width),
        0 <= y < min(g.height as int, area_height),
    ensures
        0 <= y * min(g.width as int, area_width) + x < out.len(),
        out[y * min(g.width as int, area_width) + x] == (
            x as usize,
            y as usize,
            symbol(g.alive(x, y)),
        ),
{
    let mw = min(g.width as int, area_width);
    let mh = min(g.height as int, area_height);
    assert(0 <= y * mw + x < mw * mh) by (nonlinear_arith)
        requires
            0 <= x < mw,
            0 <= y < mh,
    ;
    vstd::arithmetic::div_mod::lemma_fundamental_div_mod_converse(y * mw + x, mw, y, x);
}

} // verus!
