use game_of_life::State;

/// Parses a rendering back into the alive/dead set, reading one glyph token
/// per cell, row by row.
fn parse_render(text: &str) -> Vec<Vec<bool>> {
    text.lines()
        .map(|line| line.split(' ').map(|token| token == "\u{25fc}").collect())
        .collect()
}

#[test]
fn test_render_golden() {
    let mut state = State::new(2, 2);
    state.set_cells(&[(1, 0)], true);
    assert_eq!(state.render(), "\u{25fb} \u{25fc}\n\u{25fb} \u{25fb}\n");
}

#[test]
fn test_render_line_structure() {
    let mut state = State::new(4, 3);
    state.set_cells(&[(0, 0), (3, 2), (1, 1)], true);
    let text = state.render();
    let lines: Vec<&str> = text.lines().collect();
    assert_eq!(lines.len(), state.height);
    for line in &lines {
        assert_eq!(line.split(' ').count(), state.width);
    }
    assert!(text.ends_with('\n'));
}

#[test]
fn test_render_round_trip() {
    let mut state = State::new(5, 4);
    state.set_cells(&[(0, 0), (4, 0), (2, 2), (1, 3), (4, 3)], true);
    let rows = parse_render(&state.render());
    assert_eq!(rows.len(), 4);
    for (y, row) in rows.iter().enumerate() {
        assert_eq!(row.len(), 5);
        for (x, &alive) in row.iter().enumerate() {
            assert_eq!(alive, state.is_alive(x, y), "cell ({x}, {y})");
        }
    }
}

#[test]
fn test_render_zero_width() {
    // a grid with no columns still shows one (empty) line per row
    let state = State::new(0, 3);
    assert_eq!(state.render(), "\n\n\n");
    assert_eq!(state.render().lines().count(), 3);
}

#[test]
fn test_render_zero_height() {
    let state = State::new(4, 0);
    assert_eq!(state.render(), "");
    let empty = State::new(0, 0);
    assert_eq!(empty.render(), "");
}

#[test]
fn test_render_is_pure() {
    let mut state = State::new(3, 3);
    state.toggle_cell(1, 1);
    let first = state.render();
    let second = state.render();
    assert_eq!(first, second);
    assert_eq!(state.generation, 0);
}

#[test]
fn test_render_after_next() {
    // a horizontal blinker flips to vertical
    let mut state = State::new(3, 3);
    state.set_cells(&[(0, 1), (1, 1), (2, 1)], true);
    state.next();
    assert_eq!(
        state.render(),
        "\u{25fb} \u{25fc} \u{25fb}\n\u{25fb} \u{25fc} \u{25fb}\n\u{25fb} \u{25fc} \u{25fb}\n"
    );
}
