//! Facts about the rule that hold of every grid.

use vstd::prelude::*;

use crate::world::{
    generations, in_grid, in_live_region, neighbor_count, next_generation, padding_dead,
    well_formed_grid, Cell, Grid,
};

verus! {

/// The cells of a 2×2 square whose top-left cell is `(x, y)`.
pub open spec fn in_block(x: int, y: int, a: int, b: int) -> bool {
    x <= a <= x + 1 && y <= b <= y + 1
}

/// The three cells of a horizontal line centred on `(x, y)`.
pub open spec fn in_horizontal_bar(x: int, y: int, a: int, b: int) -> bool {
    b == y && x - 1 <= a <= x + 1
}

/// The three cells of a vertical line centred on `(x, y)`.
pub open spec fn in_vertical_bar(x: int, y: int, a: int, b: int) -> bool {
    a == x && y - 1 <= b <= y + 1
}

/// Where exactly one cell `(x, y)` is alive, each of the eight cells around it counts one
/// live neighbour, and every other cell of the live region, `(x, y)` itself included,
/// counts none.
pub proof fn lemma_single_cell_neighbors(g: Grid, x: int, y: int)
    requires
        well_formed_grid(g),
        in_live_region(x, y),
        forall|a: int, b: int|
            in_grid(a, b) ==> (#[trigger] g[b][a] == Cell::AliveCell <==> a == x && b == y),
    ensures
        forall|a: int, b: int|
            in_live_region(a, b) ==> #[trigger] neighbor_count(g, a, b) == if !(a == x && b == y)
                && x - 1 <= a <= x + 1 && y - 1 <= b <= y + 1 {
                1int
            } else {
                0int
            },
{
}

/// A live cell with fewer than two live neighbours is dead in the next generation.
pub proof fn lemma_underpopulation(g: Grid, x: int, y: int)
    requires
        well_formed_grid(g),
        in_live_region(x, y),
        g[y][x] == Cell::AliveCell,
        neighbor_count(g, x, y) < 2,
    ensures
        next_generation(g)[y][x] == Cell::DeadCell,
{
}

/// A live cell with two or three live neighbours stays alive in the next generation.
pub proof fn lemma_survival(g: Grid, x: int, y: int)
    requires
        well_formed_grid(g),
        in_live_region(x, y),
        g[y][x] == Cell::AliveCell,
        2 <= neighbor_count(g, x, y) <= 3,
    ensures
        next_generation(g)[y][x] == Cell::AliveCell,
{
}

/// A live cell with four or more live neighbours is dead in the next generation.
pub proof fn lemma_overpopulation(g: Grid, x: int, y: int)
    requires
        well_formed_grid(g),
        in_live_region(x, y),
        g[y][x] == Cell::AliveCell,
        neighbor_count(g, x, y) >= 4,
    ensures
        next_generation(g)[y][x] == Cell::DeadCell,
{
}

/// A dead cell with exactly three live neighbours is alive in the next generation.
pub proof fn lemma_reproduction(g: Grid, x: int, y: int)
    requires
        well_formed_grid(g),
        in_live_region(x, y),
        g[y][x] == Cell::DeadCell,
        neighbor_count(g, x, y) == 3,
    ensures
        next_generation(g)[y][x] == Cell::AliveCell,
{
}

/// The next generation of a well-formed grid is well formed: the border stays dead.
pub proof fn lemma_next_generation_well_formed(g: Grid)
    requires
        well_formed_grid(g),
    ensures
        well_formed_grid(next_generation(g)),
{
}

/// However many generations pass, the grid keeps its shape and every border cell stays dead.
pub proof fn lemma_border_stays_dead(g: Grid, n: nat)
    requires
        well_formed_grid(g),
    ensures
        well_formed_grid(generations(g, n)),
        padding_dead(generations(g, n)),
    decreases n,
{
    if n > 0 {
        lemma_border_stays_dead(g, (n - 1) as nat);
        lemma_next_generation_well_formed(generations(g, (n - 1) as nat));
    }
}

/// A 2×2 square of live cells with nothing else alive is its own next generation.
pub proof fn lemma_block_is_still(g: Grid, x: int, y: int)
    requires
        well_formed_grid(g),
        in_live_region(x, y),
        in_live_region(x + 1, y + 1),
        forall|a: int, b: int|
            in_grid(a, b) ==> (#[trigger] g[b][a] == Cell::AliveCell <==> in_block(x, y, a, b)),
    ensures
        next_generation(g) == g,
{
    let n = next_generation(g);
    assert forall|a: int, b: int| in_grid(a, b) implies #[trigger] n[b][a] == g[b][a] by {
        if in_live_region(a, b) {
            assert(neighbor_count(g, a, b) <= 3);
        }
    }
    assert(n =~~= g);
}

proof fn lemma_bar_turns(g: Grid, x: int, y: int, horizontal: bool)
    requires
        well_formed_grid(g),
        in_live_region(x - 1, y - 1),
        in_live_region(x + 1, y + 1),
        forall|a: int, b: int|
            in_grid(a, b) ==> (#[trigger] g[b][a] == Cell::AliveCell <==> if horizontal {
                in_horizontal_bar(x, y, a, b)
            } else {
                in_vertical_bar(x, y, a, b)
            }),
    ensures
        well_formed_grid(next_generation(g)),
        forall|a: int, b: int|
            in_grid(a, b) ==> (#[trigger] next_generation(g)[b][a] == Cell::AliveCell
                <==> if horizontal {
                in_vertical_bar(x, y, a, b)
            } else {
                in_horizontal_bar(x, y, a, b)
            }),
{
    lemma_next_generation_well_formed(g);
    let n = next_generation(g);
    assert forall|a: int, b: int| in_grid(a, b) implies (#[trigger] n[b][a] == Cell::AliveCell
        <==> if horizontal {
        in_vertical_bar(x, y, a, b)
    } else {
        in_horizontal_bar(x, y, a, b)
    }) by {
        if in_live_region(a, b) {
        }
    }
}

/// A line of three live cells with nothing else alive turns from horizontal to vertical
/// in one generation and is back where it started after two.
pub proof fn lemma_blinker_oscillates(g: Grid, x: int, y: int)
    requires
        well_formed_grid(g),
        in_live_region(x - 1, y - 1),
        in_live_region(x + 1, y + 1),
        forall|a: int, b: int|
            in_grid(a, b) ==> (#[trigger] g[b][a] == Cell::AliveCell <==> in_horizontal_bar(
                x,
                y,
                a,
                b,
            )),
    ensures
        forall|a: int, b: int|
            in_grid(a, b) ==> (#[trigger] next_generation(g)[b][a] == Cell::AliveCell
                <==> in_vertical_bar(x, y, a, b)),
        next_generation(g) != g,
        generations(g, 2) == g,
{
    lemma_bar_turns(g, x, y, true);
    let n = next_generation(g);
    lemma_bar_turns(n, x, y, false);
    let m = next_generation(n);
    assert(n[y][x - 1] != g[y][x - 1]);
    lemma_same_live_cells(m, g);
    assert(generations(g, 0) == g);
    assert(generations(g, 1) == n);
}

proof fn lemma_same_live_cells(g1: Grid, g2: Grid)
    requires
        well_formed_grid(g1),
        well_formed_grid(g2),
        forall|a: int, b: int|
            in_grid(a, b) ==> (#[trigger] g1[b][a] == Cell::AliveCell <==> g2[b][a]
                == Cell::AliveCell),
    ensures
        g1 == g2,
{
    assert forall|a: int, b: int| in_grid(a, b) implies #[trigger] g1[b][a] == g2[b][a] by {
        if g1[b][a] == Cell::AliveCell {
        } else {
            assert(g2[b][a] != Cell::AliveCell);
        }
    }
    assert(g1 =~~= g2);
}

} // verus!
