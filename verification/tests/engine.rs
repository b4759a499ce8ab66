use tictactoe::engine::Cell;
use tictactoe::engine::Coord;
use tictactoe::engine::GameState;
use tictactoe::engine::MoveResult;
use tictactoe::engine::Outcome;
use tictactoe::engine::Phase;
use tictactoe::engine::Player;
use tictactoe::engine::WinLine;

fn line(c0: (usize, usize), c1: (usize, usize), c2: (usize, usize)) -> WinLine {
    WinLine {
        first: Coord { row: c0.0, col: c0.1 },
        second: Coord { row: c1.0, col: c1.1 },
        third: Coord { row: c2.0, col: c2.1 },
    }
}

fn play_all(g: &mut GameState, moves: &[(usize, usize)]) {
    for &(r, c) in moves {
        let placed = g.apply_move(r, c);
        assert!(matches!(placed, MoveResult::Accepted(_)));
    }
}

#[test]
fn initial_state_is_empty_x_to_move() {
    let g = GameState::new();
    for r in 0..3 {
        for c in 0..3 {
            assert_eq!(g.cell(r, c), Cell::Empty);
        }
    }
    assert_eq!(g.turn(), Player::X);
    assert_eq!(g.phase(), Phase::InProgress);
}

#[test]
fn first_move_places_mark_and_flips_turn() {
    let mut g = GameState::new();
    let r = g.apply_move(1, 2);
    assert_eq!(r, MoveResult::Accepted(Player::X));
    assert_eq!(g.cell(1, 2), Cell::Marked(Player::X));
    assert_eq!(g.turn(), Player::O);
    assert_eq!(g.phase(), Phase::InProgress);
}

#[test]
fn turn_alternates_starting_with_x() {
    let mut g = GameState::new();
    let moves = [(0usize, 0usize), (1, 1), (0, 1), (2, 2), (1, 0), (2, 0)];
    for (k, &(r, c)) in moves.iter().enumerate() {
        let expected = if k % 2 == 0 { Player::X } else { Player::O };
        assert_eq!(g.turn(), expected);
        assert_eq!(g.apply_move(r, c), MoveResult::Accepted(expected));
    }
    assert_eq!(g.turn(), Player::X);
}

#[test]
fn occupied_cell_is_rejected_and_state_unchanged() {
    let mut g = GameState::new();
    assert_eq!(g.apply_move(0, 0), MoveResult::Accepted(Player::X));
    assert_eq!(g.apply_move(0, 0), MoveResult::Rejected);
    assert_eq!(g.cell(0, 0), Cell::Marked(Player::X));
    for r in 0..3 {
        for c in 0..3 {
            if (r, c) != (0, 0) {
                assert_eq!(g.cell(r, c), Cell::Empty);
            }
        }
    }
    assert_eq!(g.turn(), Player::O);
    assert_eq!(g.phase(), Phase::InProgress);
}

#[test]
fn moves_after_game_end_are_rejected() {
    let mut g = GameState::new();
    play_all(&mut g, &[(0, 0), (1, 1), (0, 1), (2, 2), (0, 2)]);
    assert!(matches!(g.evaluate(), Outcome::Win(_, _)));
    assert_eq!(g.phase(), Phase::Won);
    assert_eq!(g.apply_move(1, 0), MoveResult::Rejected);
    assert_eq!(g.cell(1, 0), Cell::Empty);
    assert_eq!(g.apply_move(2, 1), MoveResult::Rejected);
    assert_eq!(g.cell(2, 1), Cell::Empty);
}

#[test]
fn top_row_win_scenario() {
    let mut g = GameState::new();
    play_all(&mut g, &[(0, 0), (1, 1), (0, 1), (2, 2), (0, 2)]);
    let outcome = g.evaluate();
    assert_eq!(outcome, Outcome::Win(Player::X, line((0, 0), (0, 1), (0, 2))));
    assert_eq!(g.phase(), Phase::Won);
}

#[test]
fn column_win_scenario() {
    let mut g = GameState::new();
    play_all(&mut g, &[(0, 1), (0, 0), (1, 1), (1, 0), (2, 1)]);
    let outcome = g.evaluate();
    assert_eq!(outcome, Outcome::Win(Player::X, line((0, 1), (1, 1), (2, 1))));
}

#[test]
fn main_diagonal_win_scenario() {
    let mut g = GameState::new();
    play_all(&mut g, &[(0, 0), (0, 1), (1, 1), (0, 2), (2, 2)]);
    let outcome = g.evaluate();
    assert_eq!(outcome, Outcome::Win(Player::X, line((0, 0), (1, 1), (2, 2))));
}

#[test]
fn anti_diagonal_win_scenario() {
    let mut g = GameState::new();
    play_all(&mut g, &[(0, 2), (0, 0), (1, 1), (0, 1), (2, 0)]);
    let outcome = g.evaluate();
    assert_eq!(outcome, Outcome::Win(Player::X, line((0, 2), (1, 1), (2, 0))));
}

#[test]
fn o_wins_middle_row_scenario() {
    let mut g = GameState::new();
    play_all(&mut g, &[(0, 0), (1, 0), (0, 1), (1, 1), (2, 2), (1, 2)]);
    let outcome = g.evaluate();
    assert_eq!(outcome, Outcome::Win(Player::O, line((1, 0), (1, 1), (1, 2))));
    assert_eq!(g.phase(), Phase::Won);
}

#[test]
fn full_board_without_line_is_a_tie() {
    let mut g = GameState::new();
    play_all(
        &mut g,
        &[(0, 0), (0, 2), (0, 1), (1, 0), (1, 2), (1, 1), (2, 0), (2, 1), (2, 2)],
    );
    let outcome = g.evaluate();
    assert_eq!(outcome, Outcome::Tie);
    assert_eq!(g.phase(), Phase::Tied);
}

#[test]
fn row_is_reported_before_column_on_a_double_win() {
    let mut g = GameState::new();
    play_all(
        &mut g,
        &[(0, 1), (1, 1), (0, 2), (1, 2), (1, 0), (2, 1), (2, 0), (2, 2), (0, 0)],
    );
    let outcome = g.evaluate();
    assert_eq!(outcome, Outcome::Win(Player::X, line((0, 0), (0, 1), (0, 2))));
}

#[test]
fn evaluate_on_an_open_board_changes_nothing() {
    let mut g = GameState::new();
    play_all(&mut g, &[(0, 0), (1, 1)]);
    let outcome = g.evaluate();
    assert_eq!(outcome, Outcome::Undecided);
    assert_eq!(g.phase(), Phase::InProgress);
    assert_eq!(g.cell(0, 0), Cell::Marked(Player::X));
    assert_eq!(g.cell(1, 1), Cell::Marked(Player::O));
    assert_eq!(g.turn(), Player::X);
}

#[test]
fn reset_after_win_restores_initial_state() {
    let mut g = GameState::new();
    play_all(&mut g, &[(0, 0), (1, 1), (0, 1), (2, 2), (0, 2)]);
    assert!(matches!(g.evaluate(), Outcome::Win(_, _)));
    g.reset();
    for r in 0..3 {
        for c in 0..3 {
            assert_eq!(g.cell(r, c), Cell::Empty);
        }
    }
    assert_eq!(g.turn(), Player::X);
    assert_eq!(g.phase(), Phase::InProgress);
    assert_eq!(g.apply_move(2, 2), MoveResult::Accepted(Player::X));
}

#[test]
fn glyphs_match_marks() {
    assert_eq!(Player::X.glyph(), 'X');
    assert_eq!(Player::O.glyph(), 'O');
}
