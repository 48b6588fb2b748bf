use game_of_life::Pattern;
use game_of_life::State;

/// Collects the coordinates of all live cells, row by row.
fn alive_set(state: &State) -> Vec<(usize, usize)> {
    let mut out = Vec::new();
    for y in 0..state.height {
        for x in 0..state.width {
            if state.is_alive(x, y) {
                out.push((x, y));
            }
        }
    }
    out
}

#[test]
fn test_new_all_dead() {
    let state = State::new(4, 3);
    assert_eq!(state.width, 4);
    assert_eq!(state.height, 3);
    assert_eq!(state.generation, 0);
    let cells = state.get_cells();
    assert_eq!(cells.len(), 12);
    assert!(cells.iter().all(|&c| !c));
}

#[test]
fn test_toggle_cell() {
    let mut state = State::new(3, 3);
    state.toggle_cell(1, 2);
    assert!(state.is_alive(1, 2));
    assert_eq!(alive_set(&state), vec![(1, 2)]);
    assert_eq!(state.generation, 0);
    state.toggle_cell(1, 2);
    assert!(!state.is_alive(1, 2));
    assert!(alive_set(&state).is_empty());
}

#[test]
fn test_set_cells() {
    let mut state = State::new(3, 2);
    state.set_cells(&[(0, 0), (2, 1)], true);
    assert_eq!(alive_set(&state), vec![(0, 0), (2, 1)]);
    let cells = state.get_cells();
    // row-major flattening: index = x + width * y
    assert!(cells[0]);
    assert!(cells[2 + 3 * 1]);
    assert_eq!(cells.iter().filter(|&&c| c).count(), 2);
    // the same batch can clear again
    state.set_cells(&[(0, 0)], false);
    assert_eq!(alive_set(&state), vec![(2, 1)]);
}

#[test]
fn test_next() {
    // a glider, advanced one generation
    let mut state = State::new(6, 6);
    state.set_cells(&[(1, 2), (2, 3), (3, 1), (3, 2), (3, 3)], true);

    let mut expected_state = State::new(6, 6);
    expected_state.set_cells(&[(2, 1), (2, 3), (3, 2), (3, 3), (4, 2)], true);

    state.next();
    assert_eq!(state.get_cells(), expected_state.get_cells());
    assert_eq!(state.generation, 1);
}

#[test]
fn test_determinism() {
    let mut a = State::new(5, 5);
    let mut b = State::new(5, 5);
    let seed: &[(usize, usize)] = &[(1, 1), (2, 1), (3, 1), (2, 2), (0, 4)];
    a.set_cells(seed, true);
    b.set_cells(seed, true);
    let gen_a = a.generation;
    let gen_b = b.generation;
    a.next();
    b.next();
    assert_eq!(a.get_cells(), b.get_cells());
    assert_eq!(a.generation, gen_a + 1);
    assert_eq!(b.generation, gen_b + 1);
}

#[test]
fn test_neighbor_count_bounds() {
    // an all-alive 4x4 grid: interior cells see 8 neighbors, non-corner
    // edge cells 5, corners 3
    let mut state = State::new(4, 4);
    let mut all = Vec::new();
    for y in 0..4 {
        for x in 0..4 {
            all.push((x, y));
        }
    }
    state.set_cells(&all, true);
    assert_eq!(state.neighbor_count(1, 1), 8);
    assert_eq!(state.neighbor_count(2, 2), 8);
    assert_eq!(state.neighbor_count(0, 0), 3);
    assert_eq!(state.neighbor_count(3, 0), 3);
    assert_eq!(state.neighbor_count(0, 3), 3);
    assert_eq!(state.neighbor_count(3, 3), 3);
    assert_eq!(state.neighbor_count(1, 0), 5);
    assert_eq!(state.neighbor_count(0, 2), 5);
    assert_eq!(state.neighbor_count(3, 1), 5);
    assert_eq!(state.neighbor_count(2, 3), 5);
    for y in 0..4 {
        for x in 0..4 {
            assert!(state.neighbor_count(x, y) <= 8);
        }
    }
}

#[test]
fn test_neighbor_count_exact() {
    let mut state = State::new(3, 3);
    state.toggle_cell(1, 1);
    // the live cell itself is not its own neighbor
    assert_eq!(state.neighbor_count(1, 1), 0);
    // every other cell of the 3x3 grid touches the center
    assert_eq!(state.neighbor_count(0, 0), 1);
    assert_eq!(state.neighbor_count(2, 2), 1);
    assert_eq!(state.neighbor_count(1, 0), 1);
    assert_eq!(state.neighbor_count(0, 1), 1);
}

#[test]
fn test_block_still_life() {
    // a 2x2 block is a known still life
    let mut state = State::new(3, 3);
    state.set_cells(&[(1, 1), (2, 1), (1, 2), (2, 2)], true);
    let block = state.get_cells();
    for step in 0..5 {
        state.next();
        assert_eq!(state.get_cells(), block);
        assert_eq!(state.generation, step + 1);
    }
}

#[test]
fn test_zero_size_grid() {
    let mut empty = State::new(0, 0);
    empty.next();
    assert_eq!(empty.generation, 1);
    assert!(empty.get_cells().is_empty());

    let mut flat = State::new(4, 0);
    flat.next();
    assert_eq!(flat.generation, 1);
    assert!(flat.get_cells().is_empty());

    let mut thin = State::new(0, 4);
    thin.next();
    assert_eq!(thin.generation, 1);
    assert!(thin.get_cells().is_empty());
}

#[test]
fn test_edge_clipping() {
    let mut state = State::new(3, 3);
    state.set_cells(&[(1, 1)], true);
    let before = state.get_cells();
    // every coordinate out of bounds: nothing changes, nothing panics
    state.set_cells(&[(3, 0), (0, 3), (9, 9), (usize::MAX, 0)], true);
    assert_eq!(state.get_cells(), before);
    // a partially clipped batch writes only its in-bounds part
    state.set_cells(&[(2, 2), (5, 1)], true);
    assert_eq!(alive_set(&state), vec![(1, 1), (2, 2)]);
}

#[test]
fn test_set_pattern() {
    let mut state = State::new(4, 4);
    state.set_pattern(vec![(0, 0, true), (1, 1, true), (1, 1, false), (3, 3, true), (7, 7, true)]);
    // later entries win, out-of-bounds entries are skipped
    assert_eq!(alive_set(&state), vec![(0, 0), (3, 3)]);
}

#[test]
fn test_pattern_cells_glider() {
    let cells = Pattern::cells(Pattern::Glider, 2, 2);
    assert_eq!(
        cells,
        vec![
            (1, 1, false),
            (2, 1, true),
            (3, 1, false),
            (1, 2, false),
            (2, 2, false),
            (3, 2, true),
            (1, 3, true),
            (2, 3, true),
            (3, 3, true),
        ]
    );
}

#[test]
fn test_pattern_cells_pulsar_empty() {
    let cells = Pattern::cells(Pattern::Pulsar, 3, 3);
    assert!(cells.is_empty());
    // the empty stamp needs no room around its anchor
    let at_origin = Pattern::cells(Pattern::Pulsar, 0, 0);
    assert!(at_origin.is_empty());
}

#[test]
fn test_add_pattern() {
    let mut state = State::new(6, 6);
    state.add_pattern(2, 2, Pattern::Glider);
    assert_eq!(alive_set(&state), vec![(2, 1), (3, 2), (1, 3), (2, 3), (3, 3)]);
    assert_eq!(state.generation, 0);

    let mut unchanged = State::new(6, 6);
    unchanged.add_pattern(2, 2, Pattern::Pulsar);
    assert!(alive_set(&unchanged).is_empty());
    unchanged.add_pattern(0, 0, Pattern::Pulsar);
    assert!(alive_set(&unchanged).is_empty());
}

#[test]
fn test_try_new() {
    let state = State::try_new(3, 2).unwrap();
    assert_eq!(state.width, 3);
    assert_eq!(state.height, 2);
    assert_eq!(state.generation, 0);
    assert!(state.get_cells().iter().all(|&c| !c));
}

#[test]
fn test_try_new_overflow() {
    // the requested cell count would overflow the index type
    assert!(State::try_new(usize::MAX, 2).is_none());
    assert!(State::try_new(usize::MAX, usize::MAX).is_none());
    // a zero-area grid never overflows, whatever the other dimension
    assert!(State::try_new(usize::MAX, 0).is_some());
}

#[test]
fn test_set_width_resets_cells() {
    let mut state = State::new(3, 3);
    state.toggle_cell(1, 1);
    state.next();
    let gen = state.generation;
    state.set_width(5);
    assert_eq!(state.width, 5);
    assert_eq!(state.height, 3);
    assert_eq!(state.generation, gen);
    let cells = state.get_cells();
    assert_eq!(cells.len(), 15);
    assert!(cells.iter().all(|&c| !c));
}

#[test]
fn test_set_height_resets_cells() {
    let mut state = State::new(3, 3);
    state.toggle_cell(0, 0);
    state.set_height(2);
    assert_eq!(state.width, 3);
    assert_eq!(state.height, 2);
    let cells = state.get_cells();
    assert_eq!(cells.len(), 6);
    assert!(cells.iter().all(|&c| !c));
}

#[test]
fn test_cells_matches_get_cells() {
    let mut state = State::new(3, 2);
    state.set_cells(&[(2, 0), (0, 1)], true);
    assert_eq!(state.cells(), state.get_cells());
    assert_eq!(state.cells(), vec![false, false, true, true, false, false]);
}

#[test]
fn test_generation_strictly_increments() {
    let mut state = State::new(2, 2);
    for expected in 1..=4u32 {
        state.next();
        assert_eq!(state.generation, expected);
    }
}
