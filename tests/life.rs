use life_grid::{
    advance, commit, count_live_neighbors, next_alive_set, next_state_of, CellStore, Grid,
    GridError, Life, SimState,
};

fn alive_ids(life: &Life) -> Vec<usize> {
    let mut ids = Vec::new();
    for id in 0..life.store().cell_count() {
        if life.get_alive(id) == Some(true) {
            ids.push(id);
        }
    }
    ids
}

fn running_life(n: usize, seeds: &[usize]) -> Life {
    let mut life = Life::new(n, 32).unwrap();
    for &id in seeds {
        assert!(life.toggle(id));
    }
    life.start_pause();
    life
}

#[test]
fn addressing_round_trips() {
    let grid = Grid::new(20).unwrap();
    for id in 0..400 {
        let (c, r) = grid.coordinate_of(id).unwrap();
        assert!(c < 20 && r < 20);
        assert_eq!(grid.id_of(c, r), Some(id));
    }
    for c in 0..20 {
        for r in 0..20 {
            let id = grid.id_of(c, r).unwrap();
            assert_eq!(grid.coordinate_of(id), Some((c, r)));
        }
    }
}

#[test]
fn addressing_is_row_fastest() {
    let grid = Grid::new(20).unwrap();
    assert_eq!(grid.id_of(0, 1), Some(1));
    assert_eq!(grid.id_of(1, 0), Some(20));
    assert_eq!(grid.id_of(3, 7), Some(67));
    assert_eq!(grid.coordinate_of(67), Some((3, 7)));
    assert_eq!(grid.coordinate_of(399), Some((19, 19)));
}

#[test]
fn addressing_rejects_off_grid() {
    let grid = Grid::new(20).unwrap();
    assert_eq!(grid.id_of(20, 0), None);
    assert_eq!(grid.id_of(0, 20), None);
    assert_eq!(grid.coordinate_of(400), None);
    assert_eq!(grid.coordinate_of(usize::MAX), None);
}

#[test]
fn grid_size_errors() {
    assert_eq!(Grid::new(0), Err(GridError::ZeroSize));
    assert_eq!(Grid::new(usize::MAX), Err(GridError::TooLarge));
    assert!(matches!(Life::new(0, 32), Err(GridError::ZeroSize)));
    assert!(matches!(Life::new(usize::MAX, 1), Err(GridError::TooLarge)));
    assert!(matches!(CellStore::new(4, usize::MAX), Err(GridError::TooLarge)));
    assert!(CellStore::new(4, 0).is_ok());
}

#[test]
fn new_store_is_all_dead_with_positions() {
    let store = CellStore::new(20, 32).unwrap();
    assert_eq!(store.cell_count(), 400);
    assert_eq!(store.cell_size(), 32);
    for id in 0..400 {
        assert_eq!(store.get_alive(id), Some(false));
    }
    assert_eq!(store.get_alive(400), None);
    assert_eq!(store.position_of(0), Some((0, 0)));
    assert_eq!(store.position_of(1), Some((0, 32)));
    assert_eq!(store.position_of(20), Some((32, 0)));
    assert_eq!(store.position_of(399), Some((608, 608)));
    assert_eq!(store.position_of(400), None);
}

#[test]
fn position_table_reads_back_what_was_stored() {
    let store = CellStore::new(4, 10).unwrap();
    assert_eq!(store.position_of(6), Some((10, 20)));
    assert_eq!(store.position_of(11), Some((20, 30)));
}

#[test]
fn set_alive_in_and_out_of_range() {
    let mut store = CellStore::new(4, 10).unwrap();
    assert!(store.set_alive(3, true));
    assert_eq!(store.get_alive(3), Some(true));
    assert!(!store.set_alive(16, true));
    assert_eq!(store.get_alive(16), None);
    assert!(store.set_alive(3, false));
    assert_eq!(store.get_alive(3), Some(false));
}

#[test]
fn point_to_cell_uses_half_open_squares() {
    let store = CellStore::new(20, 32).unwrap();
    assert_eq!(store.point_to_cell(0, 0), Some(0));
    assert_eq!(store.point_to_cell(31, 31), Some(0));
    assert_eq!(store.point_to_cell(32, 0), Some(20));
    assert_eq!(store.point_to_cell(0, 32), Some(1));
    assert_eq!(store.point_to_cell(100, 70), Some(3 * 20 + 2));
    assert_eq!(store.point_to_cell(639, 639), Some(399));
    assert_eq!(store.point_to_cell(640, 10), None);
    assert_eq!(store.point_to_cell(10, 640), None);
    let empty = CellStore::new(3, 0).unwrap();
    assert_eq!(empty.point_to_cell(0, 0), None);
}

#[test]
fn counting_is_symmetric() {
    for n in 1..7 {
        let mut store = CellStore::new(n, 8).unwrap();
        let total = n * n;
        for a in 0..total {
            for b in 0..total {
                store.set_alive(b, true);
                let b_seen_from_a = count_live_neighbors(&store, a);
                store.set_alive(b, false);
                store.set_alive(a, true);
                let a_seen_from_b = count_live_neighbors(&store, b);
                store.set_alive(a, false);
                assert_eq!(b_seen_from_a > 0, a_seen_from_b > 0, "n={} a={} b={}", n, a, b);
            }
        }
    }
}

#[test]
fn counting_rejects_wrap_over_edges() {
    let mut store = CellStore::new(4, 8).unwrap();
    store.set_alive(3, true);
    assert_eq!(count_live_neighbors(&store, 4), 0);
    assert_eq!(count_live_neighbors(&store, 2), 1);
    assert_eq!(count_live_neighbors(&store, 6), 1);
    assert_eq!(count_live_neighbors(&store, 7), 1);
}

#[test]
fn counting_matches_moore_neighbourhood() {
    let n = 6;
    let mut store = CellStore::new(n, 8).unwrap();
    for id in 0..n * n {
        store.set_alive(id, true);
    }
    for c in 0..n {
        for r in 0..n {
            let id = c * n + r;
            let cols = if c == 0 || c == n - 1 { 2 } else { 3 };
            let rows = if r == 0 || r == n - 1 { 2 } else { 3 };
            assert_eq!(count_live_neighbors(&store, id), cols * rows - 1);
        }
    }
}

#[test]
fn rule_table() {
    for k in 0..9 {
        assert_eq!(next_state_of(true, k), k == 2 || k == 3);
        assert_eq!(next_state_of(false, k), k == 3);
    }
}

#[test]
fn scenario_small_cluster() {
    let mut store = CellStore::new(4, 10).unwrap();
    for id in [1, 2, 5] {
        store.set_alive(id, true);
    }
    let expected = [2, 2, 2, 1, 2, 2, 3, 1, 1, 1, 1, 0, 0, 0, 0, 0];
    for id in 0..16 {
        assert_eq!(count_live_neighbors(&store, id), expected[id], "cell {}", id);
    }
    assert_eq!(next_alive_set(&store), vec![1, 2, 5, 6]);

    let mut life = running_life(4, &[1, 2, 5]);
    life.step();
    assert_eq!(alive_ids(&life), vec![1, 2, 5, 6]);
}

#[test]
fn three_neighbours_give_life() {
    // A blinker: column 2 rows 1..=3 alive.
    let mut life = running_life(5, &[11, 12, 13]);
    life.step();
    // (1,2) and (3,2) are born, (2,2) survives with two.
    assert_eq!(alive_ids(&life), vec![7, 12, 17]);
    life.step();
    assert_eq!(alive_ids(&life), vec![11, 12, 13]);
}

#[test]
fn live_cell_fates() {
    // Lonely cell dies.
    let mut life = running_life(5, &[12]);
    life.step();
    assert!(alive_ids(&life).is_empty());
    // A block is stable: each live cell has three neighbours.
    let mut block = running_life(5, &[6, 7, 11, 12]);
    block.step();
    assert_eq!(alive_ids(&block), vec![6, 7, 11, 12]);
    // Centre of a plus shape has four neighbours and dies.
    let mut plus = running_life(5, &[7, 11, 12, 13, 17]);
    plus.step();
    assert_eq!(plus.get_alive(12), Some(false));
}

#[test]
fn dead_cell_without_three_stays_dead() {
    let mut life = running_life(5, &[6, 8]);
    life.step();
    assert_eq!(life.get_alive(7), Some(false));
    assert!(alive_ids(&life).is_empty());
}

#[test]
fn reset_from_any_state() {
    let mut life = running_life(5, &[6, 7, 11, 12]);
    assert_eq!(life.state(), SimState::Running);
    life.reset();
    assert_eq!(life.state(), SimState::Paused);
    assert!(alive_ids(&life).is_empty());
    life.reset();
    assert_eq!(life.state(), SimState::Paused);
    assert!(alive_ids(&life).is_empty());
}

#[test]
fn step_while_paused_changes_nothing() {
    let mut life = Life::new(5, 8).unwrap();
    life.toggle(12);
    life.toggle(13);
    assert!(!life.is_running());
    life.step();
    life.step();
    assert_eq!(alive_ids(&life), vec![12, 13]);
}

#[test]
fn toggle_twice_restores() {
    let mut life = Life::new(4, 8).unwrap();
    life.toggle(5);
    for id in 0..16 {
        let before = life.get_alive(id);
        assert!(life.toggle(id));
        assert_ne!(life.get_alive(id), before);
        assert!(life.toggle(id));
        assert_eq!(life.get_alive(id), before);
    }
    assert!(!life.toggle(16));
    assert_eq!(alive_ids(&life), vec![5]);
}

#[test]
fn start_pause_flips_and_labels() {
    let mut life = Life::new(3, 8).unwrap();
    assert_eq!(life.state().label(), "Paused");
    life.start_pause();
    assert_eq!(life.state(), SimState::Running);
    assert_eq!(life.state().label(), "Running");
    life.start_pause();
    assert_eq!(life.state(), SimState::Paused);
}

#[test]
fn commit_and_advance_on_store() {
    let mut store = CellStore::new(4, 8).unwrap();
    commit(&mut store, &vec![0, 15]);
    assert_eq!(store.get_alive(0), Some(true));
    assert_eq!(store.get_alive(15), Some(true));
    assert_eq!(store.get_alive(5), Some(false));
    commit(&mut store, &vec![]);
    for id in 0..16 {
        assert_eq!(store.get_alive(id), Some(false));
    }
    for id in [1, 2, 5] {
        store.set_alive(id, true);
    }
    advance(&mut store);
    let alive: Vec<usize> = (0..16).filter(|&i| store.get_alive(i) == Some(true)).collect();
    assert_eq!(alive, vec![1, 2, 5, 6]);
}

#[test]
fn guard_admits_wrap_on_three_rows() {
    // With three rows the cell across the edge is only two rows away, so the
    // row-distance guard lets it through.
    let mut store = CellStore::new(3, 8).unwrap();
    store.set_alive(2, true);
    assert_eq!(count_live_neighbors(&store, 3), 1);
    let mut wide = CellStore::new(4, 8).unwrap();
    wide.set_alive(3, true);
    assert_eq!(count_live_neighbors(&wide, 4), 0);
}
