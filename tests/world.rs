use game_of_life::{Cell, Position, World, HEIGHT, PADDED_HEIGHT, PADDED_WIDTH, WIDTH};

fn world_of(cells: &[(usize, usize)]) -> World {
    let pattern: Vec<Position> = cells.iter().map(|&(x, y)| Position(x, y)).collect();
    World::from_pattern(&pattern).expect("pattern inside the live region")
}

fn live_cells(w: &World) -> Vec<(usize, usize)> {
    let mut out = Vec::new();
    for y in 0..PADDED_HEIGHT {
        for x in 0..PADDED_WIDTH {
            if w.get(x, y) == Cell::AliveCell {
                out.push((x, y));
            }
        }
    }
    out
}

fn sorted(mut v: Vec<(usize, usize)>) -> Vec<(usize, usize)> {
    v.sort();
    v
}

fn assert_border_dead(w: &World) {
    for y in 0..PADDED_HEIGHT {
        for x in 0..PADDED_WIDTH {
            if x == 0 || y == 0 || x == WIDTH + 1 || y == HEIGHT + 1 {
                assert_eq!(w.get(x, y), Cell::DeadCell, "border cell ({}, {})", x, y);
            }
        }
    }
}

#[test]
fn new_world_is_all_dead() {
    let w = World::new();
    assert!(live_cells(&w).is_empty());
    assert_border_dead(&w);
}

#[test]
fn from_pattern_places_cells() {
    let w = world_of(&[(6, 5), (6, 4), (1, 1), (WIDTH, HEIGHT)]);
    assert_eq!(
        sorted(live_cells(&w)),
        sorted(vec![(6, 5), (6, 4), (1, 1), (WIDTH, HEIGHT)])
    );
}

#[test]
fn from_pattern_accepts_repeated_positions() {
    let w = world_of(&[(4, 3), (4, 2), (4, 3)]);
    assert_eq!(sorted(live_cells(&w)), vec![(4, 2), (4, 3)]);
}

#[test]
fn from_pattern_rejects_border_and_outside() {
    assert!(World::from_pattern(&vec![Position(0, 5)]).is_none());
    assert!(World::from_pattern(&vec![Position(5, 0)]).is_none());
    assert!(World::from_pattern(&vec![Position(3, 3), Position(WIDTH + 1, 3)]).is_none());
    assert!(World::from_pattern(&vec![Position(3, HEIGHT + 1)]).is_none());
    assert!(World::from_pattern(&vec![Position(100, 100)]).is_none());
    assert!(World::from_pattern(&vec![]).is_some());
}

#[test]
fn set_writes_live_region_only() {
    let mut w = World::new();
    assert!(w.set(Position(3, 4), Cell::AliveCell));
    assert_eq!(w.get(3, 4), Cell::AliveCell);
    assert!(!w.set(Position(0, 4), Cell::AliveCell));
    assert!(!w.set(Position(3, HEIGHT + 1), Cell::AliveCell));
    assert_eq!(live_cells(&w), vec![(3, 4)]);
    assert!(w.set(Position(3, 4), Cell::DeadCell));
    assert!(live_cells(&w).is_empty());
}

#[test]
fn single_cell_neighbor_counts() {
    let (cx, cy) = (7, 9);
    let w = world_of(&[(cx, cy)]);
    for y in 1..=HEIGHT {
        for x in 1..=WIDTH {
            let adjacent = (x, y) != (cx, cy) && x.abs_diff(cx) <= 1 && y.abs_diff(cy) <= 1;
            let expected = if adjacent { 1 } else { 0 };
            assert_eq!(w.live_neighbors(Position(x, y)), expected, "at ({}, {})", x, y);
        }
    }
}

#[test]
fn neighbor_count_at_far_corner() {
    let w = world_of(&[(WIDTH - 1, HEIGHT), (WIDTH, HEIGHT - 1), (WIDTH - 1, HEIGHT - 1)]);
    assert_eq!(w.live_neighbors(Position(WIDTH, HEIGHT)), 3);
    assert_eq!(w.live_neighbors(Position(1, 1)), 0);
}

#[test]
fn neighbor_count_full_ring() {
    let w = world_of(&[(4, 4), (5, 4), (6, 4), (4, 5), (6, 5), (4, 6), (5, 6), (6, 6), (5, 5)]);
    assert_eq!(w.live_neighbors(Position(5, 5)), 8);
    assert_eq!(w.live_neighbors(Position(3, 3)), 1);
    assert_eq!(w.live_neighbors(Position(3, 5)), 3);
}

#[test]
fn lone_cell_dies() {
    let mut w = world_of(&[(10, 10)]);
    w.step();
    assert!(live_cells(&w).is_empty());
}

#[test]
fn cell_with_one_neighbor_dies() {
    let mut w = world_of(&[(10, 10), (11, 10)]);
    w.step();
    assert!(live_cells(&w).is_empty());
}

#[test]
fn cell_with_two_neighbors_survives() {
    // A diagonal of three: the middle cell has two neighbours, the ends one each.
    let mut w = world_of(&[(9, 9), (10, 10), (11, 11)]);
    w.step();
    assert_eq!(live_cells(&w), vec![(10, 10)]);
}

#[test]
fn cell_with_three_neighbors_survives() {
    // (10, 10) has neighbours (9, 9), (11, 9) and (10, 11).
    let mut w = world_of(&[(10, 10), (9, 9), (11, 9), (10, 11)]);
    assert_eq!(w.live_neighbors(Position(10, 10)), 3);
    w.step();
    assert_eq!(w.get(10, 10), Cell::AliveCell);
}

#[test]
fn cell_with_four_neighbors_dies() {
    let mut w = world_of(&[(10, 10), (9, 10), (11, 10), (10, 9), (10, 11)]);
    assert_eq!(w.live_neighbors(Position(10, 10)), 4);
    w.step();
    assert_eq!(w.get(10, 10), Cell::DeadCell);
}

#[test]
fn cell_with_eight_neighbors_dies() {
    let mut w = world_of(&[(4, 4), (5, 4), (6, 4), (4, 5), (6, 5), (4, 6), (5, 6), (6, 6), (5, 5)]);
    w.step();
    assert_eq!(w.get(5, 5), Cell::DeadCell);
}

#[test]
fn dead_cell_with_three_neighbors_is_born() {
    let mut w = world_of(&[(3, 3), (4, 3), (3, 4)]);
    assert_eq!(w.get(4, 4), Cell::DeadCell);
    assert_eq!(w.live_neighbors(Position(4, 4)), 3);
    w.step();
    assert_eq!(
        sorted(live_cells(&w)),
        sorted(vec![(3, 3), (4, 3), (3, 4), (4, 4)])
    );
}

#[test]
fn dead_cell_with_two_neighbors_stays_dead() {
    let mut w = world_of(&[(3, 3), (5, 3)]);
    w.step();
    assert_eq!(w.get(4, 3), Cell::DeadCell);
    assert_eq!(w.get(4, 4), Cell::DeadCell);
}

#[test]
fn block_is_still() {
    let block = vec![(8, 8), (9, 8), (8, 9), (9, 9)];
    let mut w = world_of(&block);
    for _ in 0..5 {
        w.step();
        assert_eq!(sorted(live_cells(&w)), sorted(block.clone()));
    }
}

#[test]
fn block_in_far_corner_is_still() {
    let block = vec![(WIDTH - 1, HEIGHT - 1), (WIDTH, HEIGHT - 1), (WIDTH - 1, HEIGHT), (WIDTH, HEIGHT)];
    let mut w = world_of(&block);
    w.step();
    assert_eq!(sorted(live_cells(&w)), sorted(block));
}

#[test]
fn blinker_oscillates() {
    let horizontal = vec![(9, 10), (10, 10), (11, 10)];
    let vertical = vec![(10, 9), (10, 10), (10, 11)];
    let mut w = world_of(&horizontal);
    w.step();
    assert_eq!(sorted(live_cells(&w)), sorted(vertical.clone()));
    w.step();
    assert_eq!(sorted(live_cells(&w)), sorted(horizontal.clone()));
    w.step();
    assert_eq!(sorted(live_cells(&w)), sorted(vertical));
}

#[test]
fn blinker_reaches_last_column() {
    // A vertical bar next to the right edge grows into the last column of the live region.
    let mut w = world_of(&[(WIDTH - 1, 5), (WIDTH - 1, 6), (WIDTH - 1, 7)]);
    w.step();
    assert_eq!(
        sorted(live_cells(&w)),
        sorted(vec![(WIDTH - 2, 6), (WIDTH - 1, 6), (WIDTH, 6)])
    );
}

#[test]
fn birth_in_last_row() {
    let mut w = world_of(&[(5, HEIGHT - 1), (6, HEIGHT - 1), (7, HEIGHT - 1)]);
    w.step();
    assert_eq!(
        sorted(live_cells(&w)),
        sorted(vec![(6, HEIGHT - 2), (6, HEIGHT - 1), (6, HEIGHT)])
    );
}

#[test]
fn border_stays_dead_over_many_steps() {
    // A glider heading for the bottom-right corner, plus cells along every edge.
    let mut w = world_of(&[
        (2, 1), (3, 2), (1, 3), (2, 3), (3, 3),
        (WIDTH, 1), (WIDTH, 2), (WIDTH, 3),
        (1, HEIGHT), (2, HEIGHT), (3, HEIGHT),
        (WIDTH - 1, HEIGHT), (WIDTH, HEIGHT), (WIDTH, HEIGHT - 1),
    ]);
    for _ in 0..100 {
        w.step();
        assert_border_dead(&w);
    }
}

#[test]
fn step_uses_previous_generation_only() {
    // Scanning row by row and writing each flip at once would kill (10, 9) first and then
    // find (10, 10) with too few neighbours; the two-pass step turns the bar vertical.
    let mut w = world_of(&[(10, 9), (10, 10), (10, 11)]);
    w.step();
    assert_eq!(sorted(live_cells(&w)), sorted(vec![(9, 10), (10, 10), (11, 10)]));
}

#[test]
fn update_toggles_each_listed_cell() {
    let mut w = world_of(&[(2, 2)]);
    w.update(vec![Position(2, 2), Position(3, 3)]);
    assert_eq!(live_cells(&w), vec![(3, 3)]);
}

#[test]
fn update_twice_listed_cell_is_unchanged() {
    let mut w = world_of(&[(2, 2)]);
    w.update(vec![Position(2, 2), Position(5, 5), Position(2, 2)]);
    assert_eq!(sorted(live_cells(&w)), vec![(2, 2), (5, 5)]);
}

#[test]
fn visible_cells_leave_out_border() {
    let w = world_of(&[(1, 1), (WIDTH, HEIGHT), (3, 2)]);
    let v = w.visible_cells();
    assert_eq!(v.len(), HEIGHT);
    for row in &v {
        assert_eq!(row.len(), WIDTH);
    }
    assert_eq!(v[0][0], Cell::AliveCell);
    assert_eq!(v[HEIGHT - 1][WIDTH - 1], Cell::AliveCell);
    assert_eq!(v[1][2], Cell::AliveCell);
    assert_eq!(v[0][1], Cell::DeadCell);
    let alive: usize = v.iter().flatten().filter(|c| c.is_alive()).count();
    assert_eq!(alive, 3);
}

#[test]
fn is_alive_matches_state() {
    assert!(Cell::AliveCell.is_alive());
    assert!(!Cell::DeadCell.is_alive());
}
