use game_of_life::Universe;

fn dead_grid(width: u32, height: u32) -> Universe {
    let seed = vec![false; (width * height) as usize];
    Universe::new(Some(width), Some(height), &seed)
}

fn is_live(u: &Universe, row: u32, col: u32) -> bool {
    u.get_cells().contains((row * u.width() + col) as usize)
}

fn live_cells(u: &Universe) -> Vec<(u32, u32)> {
    let mut out = Vec::new();
    for row in 0..u.height() {
        for col in 0..u.width() {
            if is_live(u, row, col) {
                out.push((row, col));
            }
        }
    }
    out
}

#[test]
fn size_invariant_after_construction_and_resize() {
    let mut u = dead_grid(5, 7);
    assert_eq!(u.get_cells().len(), 35);
    u.set_width(3);
    assert_eq!(u.width(), 3);
    assert_eq!(u.height(), 7);
    assert_eq!(u.get_cells().len(), 21);
    u.set_height(2);
    assert_eq!(u.width(), 3);
    assert_eq!(u.height(), 2);
    assert_eq!(u.get_cells().len(), 6);
}

#[test]
fn set_width_clears_all_cells() {
    let mut u = dead_grid(4, 4);
    u.set_cells(&[(0, 0), (1, 2), (3, 3)]);
    assert!(!live_cells(&u).is_empty());
    u.set_width(4);
    assert!(live_cells(&u).is_empty());
}

#[test]
fn set_height_clears_all_cells() {
    let mut u = dead_grid(4, 4);
    u.set_cells(&[(2, 1), (3, 0)]);
    assert!(!live_cells(&u).is_empty());
    u.set_height(4);
    assert!(live_cells(&u).is_empty());
}

#[test]
fn toroidal_wraparound_neighbor_count() {
    let mut u = dead_grid(3, 3);
    u.set_cells(&[(0, 0)]);
    // (2,2) sees (0,0) as its diagonal wrap neighbor; (1,1) sees it directly.
    assert_eq!(u.live_neighbor_count(2, 2), 1);
    assert_eq!(u.live_neighbor_count(1, 1), 1);
}

#[test]
fn blinker_oscillates_under_forward_rule() {
    // On a torus the blinker needs clearance from the wrapping edges: a
    // horizontal line spanning the full width would feed every row.
    let mut u = dead_grid(5, 5);
    u.set_cells(&[(2, 1), (2, 2), (2, 3)]);
    u.tick(true);
    assert_eq!(live_cells(&u), vec![(1, 2), (2, 2), (3, 2)]);
    u.tick(true);
    assert_eq!(live_cells(&u), vec![(2, 1), (2, 2), (2, 3)]);
}

#[test]
fn full_width_line_floods_a_three_by_three_torus() {
    // The same three live cells on a 3x3 grid wrap: every cell then counts
    // 2 or 3 live neighbors, so one forward tick turns the whole grid live.
    let mut u = dead_grid(3, 3);
    u.set_cells(&[(1, 0), (1, 1), (1, 2)]);
    u.tick(true);
    assert_eq!(live_cells(&u).len(), 9);
}

#[test]
fn forward_and_reverse_ticks_differ_on_survivor() {
    let mut fwd = dead_grid(3, 3);
    fwd.set_cells(&[(1, 0), (1, 1), (1, 2)]);
    let mut rev = dead_grid(3, 3);
    rev.set_cells(&[(1, 0), (1, 1), (1, 2)]);
    // (1,1) has exactly 2 live neighbors before the tick.
    assert_eq!(fwd.live_neighbor_count(1, 1), 2);
    fwd.tick(true);
    rev.tick(false);
    assert!(is_live(&fwd, 1, 1));
    assert!(!is_live(&rev, 1, 1));
}

#[test]
fn toggle_asymmetry_on_dead_and_live_cells() {
    let mut u = dead_grid(2, 2);
    u.toggle_cell(0, 0, true);
    assert!(is_live(&u, 0, 0), "dead cell with live_only comes up live");
    u.toggle_cell(0, 0, true);
    assert!(is_live(&u, 0, 0), "live cell with live_only stays live");
    u.toggle_cell(0, 0, false);
    assert!(!is_live(&u, 0, 0), "live cell without live_only is turned off");
    u.toggle_cell(0, 0, false);
    assert!(is_live(&u, 0, 0), "dead cell without live_only comes up live");
}

#[test]
fn bulk_set_is_idempotent() {
    let list = [(0, 1), (2, 2), (0, 1), (3, 0)];
    let mut once = dead_grid(4, 4);
    once.toggle_cell(1, 1, true);
    let mut twice = dead_grid(4, 4);
    twice.toggle_cell(1, 1, true);
    once.set_cells(&list);
    twice.set_cells(&list);
    twice.set_cells(&list);
    assert_eq!(once.cells(), twice.cells());
    assert_eq!(live_cells(&once), vec![(0, 1), (1, 1), (2, 2), (3, 0)]);
}

#[test]
fn spaceship_stamp_sets_exactly_five_cells() {
    let mut u = dead_grid(6, 6);
    u.spawn_spaceship(2, 1);
    let mut expected = vec![(1, 3), (2, 1), (2, 3), (3, 2), (3, 3)];
    expected.sort();
    assert_eq!(live_cells(&u), expected);
}

#[test]
fn new_seeds_cells_from_the_given_bits() {
    let seed: Vec<bool> = (0..12).map(|i| i % 3 == 0).collect();
    let u = Universe::new(Some(4), Some(3), &seed);
    for k in 0..12u32 {
        assert_eq!(is_live(&u, k / 4, k % 4), k % 3 == 0);
    }
}

#[test]
fn new_defaults_to_64_by_64() {
    let seed = vec![false; 64 * 64];
    let u = Universe::new(None, None, &seed);
    assert_eq!(u.width(), 64);
    assert_eq!(u.height(), 64);
    assert_eq!(u.get_cells().len(), 64 * 64);
}

#[test]
fn cells_exports_packed_blocks() {
    let mut u = dead_grid(8, 8);
    u.set_cells(&[(0, 0), (4, 1)]);
    // Linear indices 0 and 33: bit 0 of block 0, bit 1 of block 1.
    assert_eq!(u.cells(), vec![1, 2]);
}

#[test]
fn one_by_one_grid_wraps_to_itself() {
    let mut u = dead_grid(1, 1);
    assert_eq!(u.live_neighbor_count(0, 0), 0);
    u.toggle_cell(0, 0, false);
    // All 8 offsets wrap back to the single cell, each counted once.
    assert_eq!(u.live_neighbor_count(0, 0), 8);
    u.tick(true);
    assert!(!is_live(&u, 0, 0), "overcrowded live cell dies");
}

#[test]
fn reverse_rule_revives_a_dead_grid() {
    let mut u = dead_grid(3, 3);
    u.tick(false);
    // Every dead cell has 0 live neighbors, which is not 3, so all come up.
    assert_eq!(live_cells(&u).len(), 9);
}

#[test]
fn forward_rule_keeps_a_dead_grid_dead() {
    let mut u = dead_grid(3, 3);
    u.tick(true);
    assert!(live_cells(&u).is_empty());
}

#[test]
fn empty_grid_operations() {
    let mut u = dead_grid(4, 4);
    u.set_width(0);
    assert_eq!(u.width(), 0);
    assert_eq!(u.get_cells().len(), 0);
    u.tick(true);
    u.tick(false);
    assert_eq!(u.get_cells().len(), 0);
    assert_eq!(u.cells(), Vec::<u32>::new());
}

#[test]
fn tick_preserves_dimensions() {
    let mut u = dead_grid(5, 2);
    u.tick(true);
    assert_eq!((u.width(), u.height()), (5, 2));
    u.tick(false);
    assert_eq!((u.width(), u.height()), (5, 2));
}
