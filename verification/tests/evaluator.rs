use deadcells::board::CellMark;
use deadcells::board::Configuration;
use deadcells::board::Outcome;
use deadcells::classify::grid_state;
use deadcells::classify::incident_line_count;
use deadcells::classify::is_dead_row;
use deadcells::classify::is_possible_state;
use deadcells::board::line_cells;

const E: CellMark = CellMark::Empty;
const A: CellMark = CellMark::MarkA;
const B: CellMark = CellMark::MarkB;
const D: CellMark = CellMark::Dead;

fn cfg(cells: [CellMark; 9]) -> Configuration {
    Configuration { cells }
}

#[test]
fn evaluate_empty_board_is_undecided() {
    let c = cfg([E, E, E, E, E, E, E, E, E]);
    assert_eq!(grid_state(c), Outcome::Undecided(c));
}

#[test]
fn evaluate_row_wins() {
    assert_eq!(grid_state(cfg([A, A, A, E, E, E, B, B, E])), Outcome::WonByA);
    assert_eq!(grid_state(cfg([E, E, A, B, B, B, A, E, E])), Outcome::WonByB);
}

#[test]
fn evaluate_column_wins() {
    assert_eq!(grid_state(cfg([A, B, E, A, B, E, A, E, E])), Outcome::WonByA);
    assert_eq!(grid_state(cfg([E, E, B, A, A, B, E, E, B])), Outcome::WonByB);
}

#[test]
fn evaluate_diagonal_wins() {
    assert_eq!(grid_state(cfg([A, B, B, E, A, E, E, E, A])), Outcome::WonByA);
    assert_eq!(grid_state(cfg([A, A, B, E, B, E, B, E, E])), Outcome::WonByB);
}

#[test]
fn evaluate_undecided_keeps_board_unchanged() {
    let c = cfg([A, B, A, A, B, B, B, A, A]);
    assert_eq!(grid_state(c), Outcome::Undecided(c));
}

#[test]
fn evaluate_dead_marks_complete_no_line() {
    let c = cfg([D, D, D, E, E, E, E, E, E]);
    assert_eq!(grid_state(c), Outcome::Undecided(c));
}

#[test]
fn evaluate_checks_lines_in_fixed_order() {
    // Malformed boards holding completed lines for both players are decided
    // by the first completed line in the fixed order: rows before columns.
    assert_eq!(grid_state(cfg([A, A, A, B, B, B, E, E, E])), Outcome::WonByA);
    assert_eq!(grid_state(cfg([B, B, B, A, A, A, E, E, E])), Outcome::WonByB);
}

#[test]
fn all_mark_a_board_is_impossible() {
    // Reverting any single cell still leaves a completed line of A intact,
    // so the board sits one move after a finished game.
    assert!(!is_possible_state(cfg([A, A, A, A, A, A, A, A, A])));
}

#[test]
fn boards_within_reach_are_possible() {
    assert!(is_possible_state(cfg([E, E, E, E, E, E, E, E, E])));
    assert!(is_possible_state(cfg([E, E, E, E, A, E, E, E, E])));
    // A freshly completed line with nothing else on the board is still
    // possible: reverting any of its marks undoes the win.
    assert!(is_possible_state(cfg([A, A, A, E, E, E, E, E, E])));
    assert!(is_possible_state(cfg([A, B, A, A, B, B, B, A, A])));
}

#[test]
fn mark_beyond_completed_line_is_impossible() {
    // A completed row plus one further mark: reverting that further mark
    // leaves the row complete, so play had already stopped.
    assert!(!is_possible_state(cfg([A, A, A, B, B, B, A, E, E])));
    assert!(!is_possible_state(cfg([A, A, A, E, E, E, E, B, E])));
}

#[test]
fn boards_won_by_both_players_are_impossible() {
    // Completed lines for both players are mutually exclusive on filtered
    // boards: reverting any one cell leaves at least one of the two
    // disjoint lines complete.
    assert!(!is_possible_state(cfg([A, A, A, B, B, B, E, E, E])));
    assert!(!is_possible_state(cfg([A, B, E, A, B, E, A, B, E])));
}

#[test]
fn dead_row_needs_both_sides() {
    assert!(is_dead_row(A, B, E));
    assert!(is_dead_row(A, B, A));
    assert!(is_dead_row(D, E, E));
    assert!(is_dead_row(D, A, E));
    assert!(!is_dead_row(A, A, A));
    assert!(!is_dead_row(A, E, E));
    assert!(!is_dead_row(B, B, E));
    assert!(!is_dead_row(E, E, E));
}

#[test]
fn incidence_matches_hand_written_table() {
    let expected: [usize; 9] = [3, 2, 3, 2, 4, 2, 3, 2, 3];
    for k in 0..9 {
        assert_eq!(incident_line_count(k), expected[k]);
    }
}

#[test]
fn line_table_covers_rows_columns_diagonals() {
    let expected: [(usize, usize, usize); 8] = [
        (0, 1, 2),
        (3, 4, 5),
        (6, 7, 8),
        (0, 3, 6),
        (1, 4, 7),
        (2, 5, 8),
        (0, 4, 8),
        (2, 4, 6),
    ];
    for l in 0..8 {
        assert_eq!(line_cells(l), expected[l]);
    }
}
