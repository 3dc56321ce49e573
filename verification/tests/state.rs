use tictactoe::state::{BoardState, GameError, Player, TileState};
use tictactoe::state::TileState::{Empty, O, X};

#[test]
fn display() {
    assert_eq!(TileState::X.render(), "X");
    assert_eq!(TileState::O.render(), "O");
    assert_eq!(TileState::Empty.render(), " ");
}

#[test]
fn opponent() {
    assert_eq!(Player::X.opponent(), Player::O);
    assert_eq!(Player::X.opponent().opponent(), Player::X);
}

#[test]
fn state_display() {
    let mut board = BoardState::new();
    board.play((1, 1)).unwrap();
    assert_eq!(
        board.render(),
        " | | \n\
-+-+-
 |X| \n\
-+-+-
 | | \
"
    );
}

#[test]
fn next() {
    assert_eq!(BoardState::new().next(), Player::X);
    let mut board = BoardState::new();
    board.play((0, 0)).unwrap();
    assert_eq!(board.next(), Player::O);
}

#[test]
fn iter_row() {
    let board = BoardState::from_tiles(
        vec![X, X, Empty, O, X, Empty, Empty, Empty, O],
        Player::O,
    );
    assert_eq!(board.iter_row(0), vec![X, X, Empty]);
    assert_eq!(board.iter_row(1), vec![O, X, Empty]);
}

#[test]
fn iter_col() {
    let board = BoardState::from_tiles(
        vec![X, X, Empty, O, X, Empty, Empty, Empty, O],
        Player::O,
    );
    assert_eq!(board.iter_col(0), vec![X, O, Empty]);
    assert_eq!(board.iter_col(1), vec![X, X, Empty]);
}

#[test]
fn iter_diag() {
    let board = BoardState::from_tiles(
        vec![X, X, Empty, O, X, Empty, Empty, Empty, O],
        Player::O,
    );
    assert_eq!(board.iter_diag(false), vec![X, X, O]);
    assert_eq!(board.iter_diag(true), vec![Empty, X, Empty]);
}

#[test]
fn won() {
    assert_eq!(BoardState::new().won(), None);
    let board = BoardState::from_tiles(vec![X, O, X, O, X, X, O, X, O], Player::O);
    assert_eq!(board.won(), None);
    let board = BoardState::from_tiles(vec![X, O, X, O, X, O, X, Empty, Empty], Player::O);
    assert_eq!(board.won(), Some(Player::X));
}

#[test]
fn won_column() {
    let board = BoardState::from_tiles(vec![O, X, O, Empty, X, Empty, Empty, X, Empty], Player::O);
    assert_eq!(board.won(), Some(Player::X));
}

#[test]
fn won_no_full_line() {
    let board = BoardState::from_tiles(
        vec![X, X, Empty, O, X, Empty, Empty, Empty, O],
        Player::O,
    );
    assert_eq!(board.won(), None);
}

#[test]
fn play_success_toggles_turn_and_marks_one_tile() {
    let mut board = BoardState::new();
    assert_eq!(board.next(), Player::X);
    board.play((2, 0)).unwrap();
    assert_eq!(board.next(), Player::O);
    assert_eq!(board.get(2, 0), TileState::X);
    for y in 0..3 {
        for x in 0..3 {
            if (x, y) != (2, 0) {
                assert_eq!(board.get(x, y), TileState::Empty);
            }
        }
    }
    board.play((0, 2)).unwrap();
    assert_eq!(board.next(), Player::X);
    assert_eq!(board.get(0, 2), TileState::O);
}

#[test]
fn play_occupied_cell_rejected() {
    let mut board = BoardState::new();
    board.play((1, 1)).unwrap();
    let result = board.play((1, 1));
    assert_eq!(result, Err(GameError::CellOccupied(1, 1)));
    assert_eq!(board.next(), Player::O);
    assert_eq!(board.get(1, 1), TileState::X);
}

#[test]
fn play_out_of_bounds_rejected() {
    let mut board = BoardState::new();
    assert_eq!(board.play((3, 0)), Err(GameError::OutOfBounds(3, 0)));
    assert_eq!(board.play((0, 4)), Err(GameError::OutOfBounds(0, 4)));
    assert_eq!(board.next(), Player::X);
    for y in 0..3 {
        for x in 0..3 {
            assert_eq!(board.get(x, y), TileState::Empty);
        }
    }
}

#[test]
fn drawn_iff_board_full() {
    assert!(!BoardState::new().drawn());
    let full_no_winner = BoardState::from_tiles(vec![X, O, X, O, X, X, O, X, O], Player::O);
    assert!(full_no_winner.drawn());
    assert_eq!(full_no_winner.won(), None);
    // A full board with a won line still counts as drawn: callers must
    // consult won() first.
    let full_with_winner = BoardState::from_tiles(vec![X, X, X, O, O, X, O, X, O], Player::O);
    assert!(full_with_winner.drawn());
    assert_eq!(full_with_winner.won(), Some(Player::X));
    let one_empty = BoardState::from_tiles(vec![X, O, X, O, X, O, X, Empty, O], Player::O);
    assert!(!one_empty.drawn());
}

#[test]
fn player_render() {
    assert_eq!(Player::X.render(), "X");
    assert_eq!(Player::O.render(), "O");
}

#[test]
fn tile_player_round_trip() {
    assert_eq!(Player::X.tile().player(), Some(Player::X));
    assert_eq!(Player::O.tile().player(), Some(Player::O));
    assert_eq!(TileState::Empty.player(), None);
}

#[test]
fn new_board_empty_render() {
    let board = BoardState::new();
    assert_eq!(board.render(), " | | \n-+-+-\n | | \n-+-+-\n | | ");
}
