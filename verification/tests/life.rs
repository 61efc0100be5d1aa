use game_of_life::codec::{parse_grid, render, render_row, LoadError};
use game_of_life::engine::{advance, advance_band, advance_into, advance_with, run, update_single_cell};
use game_of_life::grid::{CellState, Grid};

/// Builds a grid from its data rows through the textual loader.
fn grid_from(rows: &[&str]) -> Grid {
    let mut lines: Vec<String> = Vec::new();
    lines.push(rows.len().to_string());
    for r in rows {
        lines.push((*r).to_string());
    }
    parse_grid(&lines).expect("the description should be usable")
}

fn rendered(g: &Grid) -> Vec<String> {
    render(g)
}

#[test]
fn new_dead_is_all_dead() {
    let g = Grid::new_dead(2, 3);
    assert_eq!(g.num_rows(), 2);
    assert_eq!(g.num_columns(), 3);
    for r in 0..2 {
        for c in 0..3 {
            assert_eq!(g.get(r, c), CellState::Dead);
        }
    }
    assert_eq!(rendered(&g), vec!["ooo".to_string(), "ooo".to_string()]);
}

#[test]
fn set_then_get_round_trip() {
    let mut g = Grid::new_dead(3, 3);
    g.set(1, 2, CellState::Live);
    assert_eq!(g.get(1, 2), CellState::Live);
    assert_eq!(g.get(2, 1), CellState::Dead);
    g.set(1, 2, CellState::Dead);
    assert_eq!(g.get(1, 2), CellState::Dead);
}

#[test]
fn clone_copies_and_detaches() {
    let mut g = grid_from(&["xo", "ox"]);
    let copy = g.clone();
    g.set(0, 0, CellState::Dead);
    assert_eq!(copy.get(0, 0), CellState::Live);
    assert_eq!(rendered(&copy), vec!["xo".to_string(), "ox".to_string()]);
}

#[test]
fn neighbor_count_excludes_center_and_edges() {
    let g = grid_from(&["xx", "xx"]);
    // every corner of the all-live 2x2 grid has exactly its 3 in-bounds
    // neighbours live; the centre cell itself is never counted
    assert_eq!(g.count_live_neighbors(0, 0), 3);
    assert_eq!(g.count_live_neighbors(0, 1), 3);
    assert_eq!(g.count_live_neighbors(1, 0), 3);
    assert_eq!(g.count_live_neighbors(1, 1), 3);
}

#[test]
fn corner_cell_counts_no_outside_neighbors() {
    let g = grid_from(&["xoo", "ooo", "oox"]);
    assert_eq!(g.count_live_neighbors(0, 0), 0);
    assert_eq!(g.count_live_neighbors(2, 2), 0);
}

#[test]
fn rule_table_on_single_cells() {
    // a live cell with two live neighbours stays live
    let g = grid_from(&["xxx", "ooo", "ooo"]);
    assert_eq!(g.next_state(0, 1), CellState::Live);
    // a live cell with three live neighbours stays live
    let g = grid_from(&["xx", "xx"]);
    assert_eq!(g.next_state(0, 0), CellState::Live);
    // an isolated live cell dies
    let g = grid_from(&["ooo", "oxo", "ooo"]);
    assert_eq!(g.next_state(1, 1), CellState::Dead);
    // a dead cell with three live neighbours becomes live
    let g = grid_from(&["xxo", "xoo", "ooo"]);
    assert_eq!(g.next_state(1, 1), CellState::Live);
    // a live cell with four live neighbours dies
    let g = grid_from(&["xxx", "xxo", "ooo"]);
    assert_eq!(g.next_state(0, 1), CellState::Dead);
    // a dead cell with two live neighbours stays dead
    let g = grid_from(&["xox", "ooo", "ooo"]);
    assert_eq!(g.next_state(0, 1), CellState::Dead);
}

#[test]
fn one_by_one_grid_decays() {
    let g = grid_from(&["x"]);
    let next = advance(&g);
    assert_eq!(next.get(0, 0), CellState::Dead);
}

#[test]
fn empty_grid_is_fixed_point() {
    let g = Grid::new_dead(4, 5);
    let next = advance(&g);
    assert_eq!(rendered(&next), rendered(&g));
}

#[test]
fn block_is_still_life() {
    let g = grid_from(&["oooo", "oxxo", "oxxo", "oooo"]);
    let next = advance(&g);
    assert_eq!(rendered(&next), rendered(&g));
    // the same block touching the grid's corner is also a fixed point
    let g = grid_from(&["xxo", "xxo", "ooo"]);
    let next = advance(&g);
    assert_eq!(rendered(&next), rendered(&g));
}

#[test]
fn blinker_oscillates_with_period_two() {
    let horizontal = grid_from(&["ooooo", "ooooo", "oxxxo", "ooooo", "ooooo"]);
    let after_one = advance(&horizontal);
    assert_eq!(
        rendered(&after_one),
        vec![
            "ooooo".to_string(),
            "ooxoo".to_string(),
            "ooxoo".to_string(),
            "ooxoo".to_string(),
            "ooooo".to_string(),
        ]
    );
    let after_two = advance(&after_one);
    assert_eq!(rendered(&after_two), rendered(&horizontal));
}

#[test]
fn worker_count_does_not_change_the_result() {
    let g = grid_from(&["oxooo", "ooxoo", "xxxoo", "ooooo", "ooooo"]);
    let baseline = rendered(&advance_with(&g, 1));
    for workers in [2, 3, 4, 5, 7, 16, 100] {
        assert_eq!(rendered(&advance_with(&g, workers)), baseline);
    }
}

#[test]
fn advance_into_overwrites_the_whole_target() {
    let g = grid_from(&["oxo", "oxo", "oxo"]);
    let mut next = grid_from(&["xxx", "xxx", "xxx"]);
    advance_into(&mut next, &g, 2);
    assert_eq!(
        rendered(&next),
        vec!["ooo".to_string(), "xxx".to_string(), "ooo".to_string()]
    );
}

#[test]
fn advance_band_touches_only_its_rows() {
    let g = grid_from(&["oxo", "oxo", "oxo"]);
    let mut next = Grid::new_dead(3, 3);
    advance_band(&mut next, &g, 1, 2);
    assert_eq!(
        rendered(&next),
        vec!["ooo".to_string(), "xxx".to_string(), "ooo".to_string()]
    );
}

#[test]
fn update_single_cell_changes_one_cell() {
    let g = grid_from(&["xxo", "xoo", "ooo"]);
    let mut next = Grid::new_dead(3, 3);
    update_single_cell(&mut next, &g, 1, 1);
    assert_eq!(next.get(1, 1), CellState::Live);
    for r in 0..3 {
        for c in 0..3 {
            if (r, c) != (1, 1) {
                assert_eq!(next.get(r, c), CellState::Dead);
            }
        }
    }
}

#[test]
fn run_replays_generations() {
    let horizontal = grid_from(&["ooooo", "ooooo", "oxxxo", "ooooo", "ooooo"]);
    let zero = run(&horizontal, 0, 4);
    assert_eq!(rendered(&zero), rendered(&horizontal));
    let two = run(&horizontal, 2, 4);
    assert_eq!(rendered(&two), rendered(&horizontal));
    let three = run(&horizontal, 3, 4);
    assert_eq!(rendered(&three), rendered(&advance(&horizontal)));
}

#[test]
fn load_round_trip_reproduces_the_text() {
    let lines: Vec<String> = vec![
        "3".to_string(),
        "xox".to_string(),
        "oxo".to_string(),
        "xxo".to_string(),
    ];
    let g = parse_grid(&lines).expect("usable description");
    assert_eq!(rendered(&g), lines[1..].to_vec());
    assert_eq!(render_row(&g, 0), "xox".to_string());
}

#[test]
fn parse_rejects_missing_header() {
    let lines: Vec<String> = Vec::new();
    assert_eq!(parse_grid(&lines), Err(LoadError::MissingHeader));
}

#[test]
fn parse_rejects_bad_dimension() {
    assert_eq!(
        parse_grid(&vec!["abc".to_string()]),
        Err(LoadError::BadDimension)
    );
    assert_eq!(
        parse_grid(&vec!["".to_string()]),
        Err(LoadError::BadDimension)
    );
    assert_eq!(
        parse_grid(&vec!["0".to_string()]),
        Err(LoadError::BadDimension)
    );
    assert_eq!(
        parse_grid(&vec!["2x".to_string(), "xx".to_string(), "oo".to_string()]),
        Err(LoadError::BadDimension)
    );
    // far too large to square, and too large for the machine's word
    assert_eq!(
        parse_grid(&vec!["99999999999999999999999999".to_string()]),
        Err(LoadError::BadDimension)
    );
}

#[test]
fn parse_rejects_wrong_line_count() {
    assert_eq!(
        parse_grid(&vec!["2".to_string(), "xx".to_string()]),
        Err(LoadError::WrongLineCount)
    );
    assert_eq!(
        parse_grid(&vec![
            "1".to_string(),
            "x".to_string(),
            "o".to_string()
        ]),
        Err(LoadError::WrongLineCount)
    );
}

#[test]
fn parse_rejects_bad_line_length() {
    assert_eq!(
        parse_grid(&vec!["2".to_string(), "xxx".to_string(), "oo".to_string()]),
        Err(LoadError::BadLineLength)
    );
}

#[test]
fn parse_rejects_bad_symbol() {
    assert_eq!(
        parse_grid(&vec!["2".to_string(), "xo".to_string(), "o?".to_string()]),
        Err(LoadError::BadSymbol)
    );
}

#[test]
fn first_unusable_line_decides_the_error() {
    // line 1 has the wrong length, line 2 a bad symbol: length wins
    assert_eq!(
        parse_grid(&vec!["2".to_string(), "x".to_string(), "o?".to_string()]),
        Err(LoadError::BadLineLength)
    );
    // line 1 has a bad symbol, line 2 the wrong length: the symbol wins
    assert_eq!(
        parse_grid(&vec!["2".to_string(), "x?".to_string(), "o".to_string()]),
        Err(LoadError::BadSymbol)
    );
}
