//! The simulation state and its generational update.

use vstd::prelude::*;

verus! {

/// Number of columns of the live region.
pub const WIDTH: usize = 20;

/// Number of rows of the live region.
pub const HEIGHT: usize = 20;

/// Number of columns of the grid, border included.
pub const PADDED_WIDTH: usize = WIDTH + 2;

/// Number of rows of the grid, border included.
pub const PADDED_HEIGHT: usize = HEIGHT + 2;

/// The state of one cell.
#[derive(Debug, Clone, Copy, PartialEq, Eq, Structural)]
pub enum Cell {
    DeadCell,
    AliveCell,
}

/// A cell of the padded grid: its column (`.0`) and its row (`.1`).
#[derive(Debug, Clone, Copy, PartialEq, Eq, Structural)]
pub struct Position(pub usize, pub usize);

/// The whole padded grid, indexed first by row, then by column.
pub type Grid = Seq<Seq<Cell>>;

/// The cell is one of the `WIDTH` by `HEIGHT` cells that the rule evolves.
pub open spec fn in_live_region(x: int, y: int) -> bool {
    1 <= x <= WIDTH && 1 <= y <= HEIGHT
}

/// The cell lies in the padded grid, border included.
pub open spec fn in_grid(x: int, y: int) -> bool {
    0 <= x < WIDTH + 2 && 0 <= y < HEIGHT + 2
}

/// The cell belongs to the one-cell border around the live region.
pub open spec fn is_padding(x: int, y: int) -> bool {
    in_grid(x, y) && !in_live_region(x, y)
}

/// The grid has `HEIGHT + 2` rows of `WIDTH + 2` cells each.
pub open spec fn grid_shape(g: Grid) -> bool {
    &&& g.len() == HEIGHT + 2
    &&& forall|y: int| 0 <= y < g.len() ==> #[trigger] g[y].len() == WIDTH + 2
}

/// Every border cell is dead.
pub open spec fn padding_dead(g: Grid) -> bool {
    forall|x: int, y: int| is_padding(x, y) ==> #[trigger] g[y][x] == Cell::DeadCell
}

/// A grid of the right shape whose border is dead.
pub open spec fn well_formed_grid(g: Grid) -> bool {
    grid_shape(g) && padding_dead(g)
}

/// `1` for a live cell at `(x, y)`, `0` otherwise.
pub open spec fn alive_at(g: Grid, x: int, y: int) -> int {
    if g[y][x] == Cell::AliveCell {
        1
    } else {
        0
    }
}

/// The number of live cells among the eight cells around `(x, y)`.
pub open spec fn neighbor_count(g: Grid, x: int, y: int) -> int {
    alive_at(g, x - 1, y - 1) + alive_at(g, x, y - 1) + alive_at(g, x + 1, y - 1)
        + alive_at(g, x - 1, y) + alive_at(g, x + 1, y)
        + alive_at(g, x - 1, y + 1) + alive_at(g, x, y + 1) + alive_at(g, x + 1, y + 1)
}

/// The rule: a live cell with fewer than two or more than three live neighbours dies,
/// a dead cell with exactly three comes alive; every other cell keeps its state.
pub open spec fn flips(c: Cell, n: int) -> bool {
    match c {
        Cell::AliveCell => n < 2 || n > 3,
        Cell::DeadCell => n == 3,
    }
}

/// The other state.
pub open spec fn toggled(c: Cell) -> Cell {
    match c {
        Cell::AliveCell => Cell::DeadCell,
        Cell::DeadCell => Cell::AliveCell,
    }
}

/// The state of `(x, y)` one generation after `g`.
pub open spec fn next_cell(g: Grid, x: int, y: int) -> Cell {
    if in_live_region(x, y) && flips(g[y][x], neighbor_count(g, x, y)) {
        toggled(g[y][x])
    } else {
        g[y][x]
    }
}

/// The generation that follows `g`, every cell computed from `g` alone.
pub open spec fn next_generation(g: Grid) -> Grid {
    Seq::new(g.len(), |y: int| Seq::new(g[y].len(), |x: int| next_cell(g, x, y)))
}

/// The grid after `n` generations.
pub open spec fn generations(g: Grid, n: nat) -> Grid
    decreases n,
{
    if n == 0 {
        g
    } else {
        next_generation(generations(g, (n - 1) as nat))
    }
}

/// Some entry of `ps` is `(x, y)`.
pub open spec fn pattern_contains(ps: Seq<Position>, x: int, y: int) -> bool {
    exists|i: int| 0 <= i < ps.len() && ps[i].0 == x && ps[i].1 == y
}

/// How many times `(x, y)` occurs in `ps`.
pub open spec fn occurrences(ps: Seq<Position>, x: int, y: int) -> nat
    decreases ps.len(),
{
    if ps.len() == 0 {
        0
    } else {
        occurrences(ps.drop_last(), x, y) + if ps.last().0 == x && ps.last().1 == y {
            1nat
        } else {
            0nat
        }
    }
}

/// The grid with each cell toggled once for each time it occurs in `ps`.
pub open spec fn apply_flips(g: Grid, ps: Seq<Position>) -> Grid {
    Seq::new(
        g.len(),
        |y: int|
            Seq::new(
                g[y].len(),
                |x: int|
                    if occurrences(ps, x, y) % 2 == 1 {
                        toggled(g[y][x])
                    } else {
                        g[y][x]
                    },
            ),
    )
}

proof fn lemma_occurrences_push(ps: Seq<Position>, p: Position, x: int, y: int)
    ensures
        occurrences(ps.push(p), x, y) == occurrences(ps, x, y) + if p.0 == x && p.1 == y {
            1nat
        } else {
            0nat
        },
{
    assert(ps.push(p).drop_last() =~= ps);
}

proof fn lemma_occurrences_outside(ps: Seq<Position>, x: int, y: int)
    requires
        forall|i: int| 0 <= i < ps.len() ==> in_live_region(#[trigger] ps[i].0 as int, ps[i].1 as int),
        !in_live_region(x, y),
    ensures
        occurrences(ps, x, y) == 0,
    decreases ps.len(),
{
    if ps.len() > 0 {
        let rest = ps.drop_last();
        assert forall|i: int| 0 <= i < rest.len() implies in_live_region(
            #[trigger] rest[i].0 as int,
            rest[i].1 as int,
        ) by {
            assert(rest[i] == ps[i]);
        }
        lemma_occurrences_outside(rest, x, y);
        assert(in_live_region(ps[ps.len() - 1].0 as int, ps[ps.len() - 1].1 as int));
    }
}

impl Cell {
    /// Whether the cell is alive.
    pub fn is_alive(&self) -> (r: bool)
        ensures
            r == (*self == Cell::AliveCell),
    {
        match self {
            Cell::AliveCell => true,
            Cell::DeadCell => false,
        }
    }
}

/// The simulation state: a padded grid whose border stays dead.
#[derive(Debug, Clone)]
pub struct World {
    cells: Vec<Vec<Cell>>,
}

impl View for World {
    type V = Grid;

    closed spec fn view(&self) -> Grid {
        self.cells@.map_values(|row: Vec<Cell>| row@)
    }
}

impl World {
    /// The grid has its full size and a dead border.
    pub open spec fn wf(&self) -> bool {
        well_formed_grid(self@)
    }

    /// A world in which every cell is dead.
    pub fn new() -> (w: World)
        ensures
            w.wf(),
            forall|x: int, y: int| in_grid(x, y) ==> #[trigger] w@[y][x] == Cell::DeadCell,
    {
        let mut cells: Vec<Vec<Cell>> = Vec::new();
        let mut y: usize = 0;
        while y < PADDED_HEIGHT
            invariant
                y <= HEIGHT + 2,
                cells@.len() == y,
                forall|j: int| 0 <= j < y ==> #[trigger] cells@[j]@.len() == PADDED_WIDTH,
                forall|j: int, i: int|
                    0 <= j < y && 0 <= i < PADDED_WIDTH ==> #[trigger] cells@[j]@[i] == Cell::DeadCell,
            decreases HEIGHT + 2 - y,
        {
            cells.push(vec![Cell::DeadCell; PADDED_WIDTH]);
            y = y + 1;
        }
        World { cells }
    }

    /// A world whose live cells are exactly those of `pattern`, or `None` where an entry of
    /// `pattern` lies outside the live region.
    pub fn from_pattern(pattern: &Vec<Position>) -> (r: Option<World>)
        ensures
            r is None <==> exists|i: int|
                0 <= i < pattern@.len() && !in_live_region(
                    #[trigger] pattern@[i].0 as int,
                    pattern@[i].1 as int,
                ),
            r matches Some(w) ==> w.wf() && forall|x: int, y: int|
                in_grid(x, y) ==> #[trigger] w@[y][x] == if in_live_region(x, y)
                    && pattern_contains(pattern@, x, y) {
                    Cell::AliveCell
                } else {
                    Cell::DeadCell
                },
    {
        let mut w = World::new();
        let mut i: usize = 0;
        while i < pattern.len()
            invariant
                i <= pattern@.len(),
                w.wf(),
                forall|k: int|
                    0 <= k < i ==> in_live_region(
                        #[trigger] pattern@[k].0 as int,
                        pattern@[k].1 as int,
                    ),
                forall|x: int, y: int|
                    in_grid(x, y) ==> #[trigger] w@[y][x] == if in_live_region(x, y)
                        && pattern_contains(pattern@.subrange(0, i as int), x, y) {
                        Cell::AliveCell
                    } else {
                        Cell::DeadCell
                    },
            decreases pattern@.len() - i,
        {
            let p = pattern[i];
            let ghost prev = w@;
            if !w.set(p, Cell::AliveCell) {
                return None;
            }
            proof {
                let done = pattern@.subrange(0, i as int);
                let more = pattern@.subrange(0, i + 1);
                assert forall|x: int, y: int| in_grid(x, y) implies #[trigger] w@[y][x] == if in_live_region(x, y)
                    && pattern_contains(more, x, y) {
                    Cell::AliveCell
                } else {
                    Cell::DeadCell
                } by {
                    if pattern_contains(done, x, y) {
                        let j = choose|j: int| 0 <= j < done.len() && done[j].0 == x && done[j].1 == y;
                        assert(more[j] == done[j]);
                    }
                    if x == p.0 && y == p.1 {
                        assert(more[i as int] == p);
                    } else if pattern_contains(more, x, y) {
                        let j = choose|j: int| 0 <= j < more.len() && more[j].0 == x && more[j].1 == y;
                        assert(done[j] == more[j]);
                    }
                }
            }
            i = i + 1;
        }
        assert(pattern@.subrange(0, i as int) =~= pattern@);
        Some(w)
    }

    /// The cell at column `x` and row `y` of the padded grid.
    pub fn get(&self, x: usize, y: usize) -> (c: Cell)
        requires
            in_grid(x as int, y as int),
            self.wf(),
        ensures
            c == self@[y as int][x as int],
    {
        self.cells[y][x]
    }

    /// Sets the cell at `pos` to `cell` where `pos` lies in the live region, and reports
    /// whether it did; the border cannot be written.
    pub fn set(&mut self, pos: Position, cell: Cell) -> (ok: bool)
        requires
            old(self).wf(),
        ensures
            ok == in_live_region(pos.0 as int, pos.1 as int),
            final(self).wf(),
            final(self)@ == if ok {
                old(self)@.update(pos.1 as int, old(self)@[pos.1 as int].update(pos.0 as int, cell))
            } else {
                old(self)@
            },
    {
        if pos.0 < 1 || pos.0 > WIDTH || pos.1 < 1 || pos.1 > HEIGHT {
            return false;
        }
        let ghost prev = self@;
        assert(self@[pos.1 as int] == self.cells@[pos.1 as int]@);
        self.cells[pos.1][pos.0] = cell;
        assert(self.cells@[pos.1 as int]@ == prev[pos.1 as int].update(pos.0 as int, cell));
        assert(self@ =~= prev.update(pos.1 as int, prev[pos.1 as int].update(pos.0 as int, cell)));
        true
    }

    /// The live region, row by row from the top, each row from the left; the border is left out.
    pub fn visible_cells(&self) -> (v: Vec<Vec<Cell>>)
        requires
            self.wf(),
        ensures
            v@.len() == HEIGHT,
            forall|j: int| 0 <= j < HEIGHT ==> #[trigger] v@[j]@.len() == WIDTH,
            forall|j: int, i: int|
                0 <= j < HEIGHT && 0 <= i < WIDTH ==> #[trigger] v@[j]@[i] == self@[j + 1][i + 1],
    {
        let mut v: Vec<Vec<Cell>> = Vec::new();
        let mut y: usize = 1;
        while y <= HEIGHT
            invariant
                1 <= y <= HEIGHT + 1,
                self.wf(),
                v@.len() == y - 1,
                forall|j: int| 0 <= j < y - 1 ==> #[trigger] v@[j]@.len() == WIDTH,
                forall|j: int, i: int|
                    0 <= j < y - 1 && 0 <= i < WIDTH ==> #[trigger] v@[j]@[i] == self@[j + 1][i + 1],
            decreases HEIGHT + 1 - y,
        {
            let src = &self.cells[y];
            assert(src@ == self@[y as int]);
            let mut line: Vec<Cell> = Vec::new();
            let mut x: usize = 1;
            while x <= WIDTH
                invariant
                    1 <= x <= WIDTH + 1,
                    src@ == self@[y as int],
                    src@.len() == PADDED_WIDTH,
                    line@.len() == x - 1,
                    forall|i: int| 0 <= i < x - 1 ==> #[trigger] line@[i] == src@[i + 1],
                decreases WIDTH + 1 - x,
            {
                line.push(src[x]);
                x = x + 1;
            }
            v.push(line);
            y = y + 1;
        }
        v
    }

    /// Advances the world by one generation. Every flip is decided from the grid as it was
    /// before the call, and the flips are applied afterwards in a second pass.
    pub fn step(&mut self)
        requires
            old(self).wf(),
        ensures
            final(self).wf(),
            final(self)@ == next_generation(old(self)@),
    {
        let ghost g = self@;
        let mut switch_cells: Vec<Position> = Vec::new();
        let mut y: usize = 1;
        while y <= HEIGHT
            invariant
                1 <= y <= HEIGHT + 1,
                self@ == g,
                well_formed_grid(g),
                forall|i: int|
                    0 <= i < switch_cells@.len() ==> in_live_region(
                        #[trigger] switch_cells@[i].0 as int,
                        switch_cells@[i].1 as int,
                    ),
                forall|a: int, b: int|
                    #[trigger] occurrences(switch_cells@, a, b) == if b < y && in_live_region(a, b)
                        && flips(g[b][a], neighbor_count(g, a, b)) {
                        1nat
                    } else {
                        0nat
                    },
            decreases HEIGHT + 1 - y,
        {
            let mut x: usize = 1;
            while x <= WIDTH
                invariant
                    1 <= x <= WIDTH + 1,
                    1 <= y <= HEIGHT,
                    self@ == g,
                    well_formed_grid(g),
                    forall|i: int|
                        0 <= i < switch_cells@.len() ==> in_live_region(
                            #[trigger] switch_cells@[i].0 as int,
                            switch_cells@[i].1 as int,
                        ),
                    forall|a: int, b: int|
                        #[trigger] occurrences(switch_cells@, a, b) == if (b < y || (b == y && a
                            < x)) && in_live_region(a, b) && flips(g[b][a], neighbor_count(g, a, b)) {
                            1nat
                        } else {
                            0nat
                        },
                decreases WIDTH + 1 - x,
            {
                let n = self.live_neighbors(Position(x, y));
                let alive = self.cells[y][x].is_alive();
                assert(self.cells@[y as int]@ == g[y as int]);
                let ghost before = switch_cells@;
                if (alive && (n < 2 || n > 3)) || (!alive && n == 3) {
                    switch_cells.push(Position(x, y));
                    assert forall|a: int, b: int|
                        #[trigger] occurrences(switch_cells@, a, b) == occurrences(before, a, b) + if a
                            == x && b == y {
                            1nat
                        } else {
                            0nat
                        } by {
                        lemma_occurrences_push(before, Position(x, y), a, b);
                    }
                }
                x = x + 1;
            }
            y = y + 1;
        }
        self.update(switch_cells);
        assert(self@ =~~= next_generation(g));
    }

    /// Toggles the cell at each of `positions`, once for each time it occurs there.
    pub fn update(&mut self, positions: Vec<Position>)
        requires
            old(self).wf(),
            forall|i: int|
                0 <= i < positions@.len() ==> in_live_region(
                    #[trigger] positions@[i].0 as int,
                    positions@[i].1 as int,
                ),
        ensures
            final(self).wf(),
            final(self)@ == apply_flips(old(self)@, positions@),
    {
        let ghost g = self@;
        let mut i: usize = 0;
        while i < positions.len()
            invariant
                0 <= i <= positions@.len(),
                well_formed_grid(g),
                grid_shape(self@),
                forall|k: int|
                    0 <= k < positions@.len() ==> in_live_region(
                        #[trigger] positions@[k].0 as int,
                        positions@[k].1 as int,
                    ),
                forall|a: int, b: int|
                    in_grid(a, b) ==> #[trigger] self@[b][a] == if occurrences(
                        positions@.subrange(0, i as int),
                        a,
                        b,
                    ) % 2 == 1 {
                        toggled(g[b][a])
                    } else {
                        g[b][a]
                    },
            decreases positions@.len() - i,
        {
            let p = positions[i];
            let ghost prev = self@;
            assert(in_live_region(positions@[i as int].0 as int, positions@[i as int].1 as int));
            assert(self@[p.1 as int] == self.cells@[p.1 as int]@);
            let next = match self.cells[p.1][p.0] {
                Cell::AliveCell => Cell::DeadCell,
                Cell::DeadCell => Cell::AliveCell,
            };
            self.cells[p.1][p.0] = next;
            assert(self.cells@[p.1 as int]@ == prev[p.1 as int].update(p.0 as int, next));
            assert(self@ =~= prev.update(p.1 as int, prev[p.1 as int].update(p.0 as int, next)));
            proof {
                let done = positions@.subrange(0, i as int);
                assert(positions@.subrange(0, i + 1) =~= done.push(p));
                assert forall|a: int, b: int| in_grid(a, b) implies #[trigger] self@[b][a] == if occurrences(
                    positions@.subrange(0, i + 1),
                    a,
                    b,
                ) % 2 == 1 {
                    toggled(g[b][a])
                } else {
                    g[b][a]
                } by {
                    lemma_occurrences_push(done, p, a, b);
                }
            }
            i = i + 1;
        }
        assert(positions@.subrange(0, i as int) =~= positions@);
        assert forall|a: int, b: int| is_padding(a, b) implies #[trigger] self@[b][a]
            == Cell::DeadCell by {
            lemma_occurrences_outside(positions@, a, b);
        }
        assert(self@ =~~= apply_flips(g, positions@));
    }

    /// The number of live cells among the eight cells around `pos`.
    pub fn live_neighbors(&self, pos: Position) -> (n: usize)
        requires
            self.wf(),
            in_live_region(pos.0 as int, pos.1 as int),
        ensures
            n == neighbor_count(self@, pos.0 as int, pos.1 as int),
    {
        let x = pos.0;
        let y = pos.1;
        let above = &self.cells[y - 1];
        let row = &self.cells[y];
        let below = &self.cells[y + 1];
        assert(above@ == self@[y - 1] && row@ == self@[y as int] && below@ == self@[y + 1]);
        let mut n: usize = 0;
        if above[x - 1].is_alive() {
            n = n + 1;
        }
        if above[x].is_alive() {
            n = n + 1;
        }
        if above[x + 1].is_alive() {
            n = n + 1;
        }
        if row[x - 1].is_alive() {
            n = n + 1;
        }
        if row[x + 1].is_alive() {
            n = n + 1;
        }
        if below[x - 1].is_alive() {
            n = n + 1;
        }
        if below[x].is_alive() {
            n = n + 1;
        }
        if below[x + 1].is_alive() {
            n = n + 1;
        }
        n
    }
}

} // verus!
