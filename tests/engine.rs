use tictactoe::{Game, MoveError, Outcome, Tile};

const E: Tile = Tile::Empty;
const O: Tile = Tile::O;
const X: Tile = Tile::X;

fn board(tiles: [Tile; 9]) -> Game {
    Game { tiles: tiles.to_vec() }
}

/// The human's choice when playing perfectly: the first empty cell whose
/// minimax value is least for the computer.
fn human_best(game: &Game) -> Option<usize> {
    let mut best: Option<(usize, i32)> = None;
    for i in 0..9 {
        if game.tiles[i] == Tile::Empty {
            let mut next = game.clone();
            next.tiles[i] = Tile::O;
            let v = next.minmax(true);
            if best.map_or(true, |(_, b)| v < b) {
                best = Some((i, v));
            }
        }
    }
    best.map(|(i, _)| i)
}

fn play_out(mut game: Game, mut computer_turn: bool) -> Outcome {
    while game.outcome() == Outcome::Undecided && !game.is_full() {
        if computer_turn {
            let i = game.get_best_move_index().unwrap();
            game.apply_move(i as i32, Tile::X).unwrap();
        } else {
            let i = human_best(&game).unwrap();
            game.apply_move(i as i32, Tile::O).unwrap();
        }
        computer_turn = !computer_turn;
    }
    game.outcome()
}

#[test]
fn empty_board_is_undecided_and_not_full() {
    let game = Game::new();
    assert_eq!(game.tiles, vec![E; 9]);
    assert_eq!(game.evaluate(), 0);
    assert_eq!(game.outcome(), Outcome::Undecided);
    assert!(!game.is_full());
}

#[test]
fn every_line_wins_for_its_owner() {
    let lines = [
        [0, 1, 2],
        [3, 4, 5],
        [6, 7, 8],
        [0, 3, 6],
        [1, 4, 7],
        [2, 5, 8],
        [0, 4, 8],
        [2, 4, 6],
    ];
    for line in lines.iter() {
        for (mark, score, outcome) in [
            (O, -1, Outcome::FirstPlayerWins),
            (X, 1, Outcome::SecondPlayerWins),
        ] {
            let mut tiles = [E; 9];
            for &i in line.iter() {
                tiles[i] = mark;
            }
            let game = board(tiles);
            assert_eq!(game.evaluate(), score);
            assert_eq!(game.outcome(), outcome);
        }
    }
}

#[test]
fn line_wins_beside_other_marks() {
    let game = board([X, O, X, O, O, O, X, X, E]);
    assert_eq!(game.evaluate(), -1);
    let game = board([X, O, O, X, O, E, X, E, E]);
    assert_eq!(game.evaluate(), 1);
    let game = board([O, X, X, E, X, O, X, O, O]);
    assert_eq!(game.evaluate(), 1);
}

#[test]
fn rows_decide_before_columns_when_both_have_lines() {
    let game = board([X, X, X, O, O, O, E, E, E]);
    assert_eq!(game.evaluate(), -1);
    let game = board([O, X, E, O, X, E, X, X, X]);
    assert_eq!(game.evaluate(), 1);
}

#[test]
fn board_without_line_is_undecided() {
    let game = board([O, X, O, O, X, X, X, O, O]);
    assert_eq!(game.evaluate(), 0);
    assert!(game.is_full());
    let game = board([O, X, E, E, E, E, E, E, E]);
    assert_eq!(game.evaluate(), 0);
}

#[test]
fn move_on_taken_cell_is_refused() {
    let mut game = board([O, X, E, E, E, E, E, E, E]);
    let before = game.tiles.clone();
    assert_eq!(game.apply_move(0, X), Err(MoveError::CellOccupiedError));
    assert_eq!(game.apply_move(1, O), Err(MoveError::CellOccupiedError));
    assert_eq!(game.tiles, before);
}

#[test]
fn move_outside_board_is_refused() {
    let mut game = Game::new();
    assert_eq!(game.apply_move(-1, O), Err(MoveError::InvalidIndexError));
    assert_eq!(game.apply_move(9, X), Err(MoveError::InvalidIndexError));
    assert_eq!(game.apply_move(i32::MIN, X), Err(MoveError::InvalidIndexError));
    assert_eq!(game.apply_move(i32::MAX, X), Err(MoveError::InvalidIndexError));
    assert_eq!(game.tiles, vec![E; 9]);
}

#[test]
fn move_marks_the_cell() {
    let mut game = Game::new();
    assert_eq!(game.apply_move(4, O), Ok(()));
    assert_eq!(game.apply_move(8, X), Ok(()));
    assert_eq!(game.tiles, vec![E, E, E, E, O, E, E, E, X]);
}

#[test]
fn get_mut_reaches_cells_in_range_only() {
    let mut game = Game::new();
    assert!(game.get_mut(-1).is_none());
    assert!(game.get_mut(9).is_none());
    *game.get_mut(3).unwrap() = X;
    assert_eq!(game.tiles, vec![E, E, E, X, E, E, E, E, E]);
}

#[test]
fn full_exactly_when_no_cell_is_empty() {
    let order = [4, 0, 8, 2, 6, 1, 7, 3, 5];
    let mut game = Game::new();
    for (n, &i) in order.iter().enumerate() {
        assert!(!game.is_full());
        let mark = if n % 2 == 0 { O } else { X };
        game.apply_move(i, mark).unwrap();
    }
    assert!(game.is_full());
    for i in 0..9 {
        let mut tiles = [X; 9];
        tiles[i] = E;
        assert!(!board(tiles).is_full());
    }
}

#[test]
fn computer_completes_its_row() {
    let mut game = board([X, X, E, O, O, E, E, E, E]);
    assert_eq!(game.get_best_move_index(), Some(2));
    game.apply_move(2, X).unwrap();
    assert_eq!(game.evaluate(), 1);
    assert_eq!(game.outcome(), Outcome::SecondPlayerWins);
}

#[test]
fn computer_blocks_the_corner_fork() {
    let game = board([O, E, E, E, X, E, E, E, O]);
    let i = game.get_best_move_index().unwrap();
    assert!([1, 3, 5, 7].contains(&i));
    let mut next = game.clone();
    next.apply_move(i as i32, X).unwrap();
    assert!(next.minmax(false) >= 0);
    for reply in 0..9 {
        if next.tiles[reply] == E {
            let mut after = next.clone();
            after.apply_move(reply as i32, O).unwrap();
            assert_ne!(play_out(after, true), Outcome::FirstPlayerWins);
        }
    }
}

#[test]
fn perfect_play_from_empty_board_is_a_tie() {
    let end = play_out(Game::new(), true);
    assert_eq!(end, Outcome::Undecided);
    assert_eq!(Game::new().minmax(true), 0);
}

#[test]
fn perfect_play_with_human_first_is_a_tie() {
    assert_eq!(play_out(Game::new(), false), Outcome::Undecided);
    assert_eq!(Game::new().minmax(false), 0);
}

#[test]
fn best_move_on_full_board_is_none() {
    let game = board([O, X, O, O, X, X, X, O, O]);
    assert_eq!(game.get_best_move_index(), None);
}

#[test]
fn lost_position_still_yields_a_move() {
    let game = board([O, O, E, O, X, E, E, E, X]);
    assert_eq!(game.get_best_move_index(), Some(2));
}

#[test]
fn minimax_values_of_small_positions() {
    assert_eq!(board([X, X, E, O, O, E, E, E, E]).minmax(true), 1);
    assert_eq!(board([X, X, E, O, O, E, E, E, E]).minmax(false), -1);
    assert_eq!(board([X, X, X, O, O, E, E, E, E]).minmax(false), 1);
    assert_eq!(board([O, X, O, O, X, X, X, O, O]).minmax(true), 0);
}

#[test]
fn tiles_draw_as_their_letters() {
    assert_eq!(O.to_string(), "O");
    assert_eq!(X.to_string(), "X");
    assert_eq!(E.to_string(), " ");
}

#[test]
fn rows_hold_cell_texts() {
    let game = board([O, X, E, E, O, E, X, E, E]);
    assert_eq!(
        game.rows(),
        vec![vec!["O", "X", " "], vec![" ", "O", " "], vec!["X", " ", " "]]
    );
}

#[test]
fn render_draws_a_bordered_grid() {
    let game = board([O, X, E, E, O, E, X, E, E]);
    let text = game.render();
    let lines: Vec<&str> = text.lines().collect();
    assert_eq!(lines.len(), 7);
    assert_eq!(lines[0], "+---+---+---+");
    assert_eq!(lines[1], "| O | X |   |");
    assert_eq!(lines[3], "|   | O |   |");
    assert_eq!(lines[5], "| X |   |   |");
    assert_ne!(Game::new().render(), text);
}
