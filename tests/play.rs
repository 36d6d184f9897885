use tictactoe::board::{Board, PlayerMoveError, Symbol};
use tictactoe::game::{parse_player_move, Game, Player, PlayerInputParseError, TurnOutcome};

fn invalid_format() -> PlayerInputParseError {
    PlayerInputParseError::InvalidFormat("Invalid format".to_string())
}

#[test]
fn fresh_board_is_empty_without_winner() {
    let board = Board::new();
    for row in board.tiles {
        for cell in row {
            assert_eq!(cell, Symbol::Empty);
        }
    }
    assert_eq!(board.winner(), None);
}

#[test]
fn outside_board_wins_over_filled_cell() {
    let mut board = Board::new();
    for r in 0..3 {
        for c in 0..3 {
            board.place(Symbol::Circle, [r, c]);
        }
    }
    assert_eq!(
        board.is_valid_move([2, 3]),
        Err(PlayerMoveError::OutsideBoard(
            "The move is invalid because it is outside the board.".to_string()
        ))
    );
    assert_eq!(
        board.is_valid_move([usize::MAX, 0]),
        Err(PlayerMoveError::OutsideBoard(
            "The move is invalid because it is outside the board.".to_string()
        ))
    );
    assert_eq!(
        board.is_valid_move([2, 2]),
        Err(PlayerMoveError::FilledPosition(
            "The position is already filled.".to_string()
        ))
    );
}

#[test]
fn placed_cell_is_refused() {
    let mut board = Board::new();
    board.place(Symbol::Circle, [0, 2]);
    assert_eq!(
        board.is_valid_move([0, 2]),
        Err(PlayerMoveError::FilledPosition(
            "The position is already filled.".to_string()
        ))
    );
    assert_eq!(board.is_valid_move([2, 0]), Ok(true));
}

#[test]
fn place_changes_only_its_cell() {
    let mut board = Board::new();
    board.place(Symbol::Plus, [0, 0]);
    board.place(Symbol::Circle, [2, 1]);
    board.place(Symbol::Circle, [0, 0]);
    for r in 0..3 {
        for c in 0..3 {
            let expected = match (r, c) {
                (0, 0) => Symbol::Circle,
                (2, 1) => Symbol::Circle,
                _ => Symbol::Empty,
            };
            assert_eq!(board.tiles[r][c], expected);
        }
    }
}

#[test]
fn row_zero_of_circles_wins() {
    let mut board = Board::new();
    board.place(Symbol::Circle, [0, 0]);
    board.place(Symbol::Circle, [0, 1]);
    board.place(Symbol::Circle, [0, 2]);
    assert_eq!(board.winner(), Some(Symbol::Circle));
}

#[test]
fn column_one_of_pluses_wins() {
    let mut board = Board::new();
    board.place(Symbol::Plus, [0, 1]);
    board.place(Symbol::Plus, [1, 1]);
    board.place(Symbol::Plus, [2, 1]);
    assert_eq!(board.winner(), Some(Symbol::Plus));
}

#[test]
fn board_without_full_line_has_no_winner() {
    let mut board = Board::new();
    board.place(Symbol::Plus, [0, 0]);
    board.place(Symbol::Circle, [0, 1]);
    board.place(Symbol::Plus, [0, 2]);
    board.place(Symbol::Plus, [1, 0]);
    board.place(Symbol::Circle, [1, 1]);
    board.place(Symbol::Circle, [1, 2]);
    board.place(Symbol::Circle, [2, 0]);
    board.place(Symbol::Plus, [2, 1]);
    board.place(Symbol::Plus, [2, 2]);
    assert_eq!(board.winner(), None);
}

#[test]
fn first_line_in_scan_order_wins() {
    let mut board = Board::new();
    for c in 0..3 {
        board.place(Symbol::Plus, [2, c]);
        board.place(Symbol::Circle, [0, c]);
    }
    assert_eq!(board.winner(), Some(Symbol::Circle));

    let mut board = Board::new();
    for r in 0..3 {
        board.place(Symbol::Plus, [r, 2]);
        board.place(Symbol::Circle, [r, 0]);
    }
    assert_eq!(board.winner(), Some(Symbol::Circle));
}

#[test]
fn empty_board_renders_three_dash_rows() {
    let board = Board::new();
    assert_eq!(
        board.render(),
        "| - | - | - |\n| - | - | - |\n| - | - | - |"
    );
}

#[test]
fn marks_render_as_glyphs() {
    let mut board = Board::new();
    board.place(Symbol::Plus, [0, 0]);
    board.place(Symbol::Circle, [1, 2]);
    board.place(Symbol::Plus, [2, 1]);
    assert_eq!(
        board.render(),
        "| + | - | - |\n| - | - | o |\n| - | + | - |"
    );
}

#[test]
fn parse_trims_any_unicode_whitespace() {
    assert_eq!(parse_player_move("1,2\n"), Ok([1, 2]));
    assert_eq!(parse_player_move("\t 9 ,\u{3000}7\r\n"), Ok([9, 7]));
    assert_eq!(parse_player_move("\u{a0}0,\u{2009}1"), Ok([0, 1]));
}

#[test]
fn parse_rejects_malformed_lines() {
    let lines = [
        ",1",
        "2,",
        "30",
        "a,b",
        "",
        "1,2,3",
        "1,,2",
        "12,1",
        "1 2,1",
        "\u{661},1",
        "1,\u{ff11}",
        "-1,1",
        "1.2",
    ];
    for line in lines {
        assert_eq!(parse_player_move(line), Err(invalid_format()));
    }
}

#[test]
fn marks_and_turns_alternate() {
    assert_eq!(Symbol::from(Player::One), Symbol::Plus);
    assert_eq!(Symbol::from(Player::Two), Symbol::Circle);
    assert_eq!(Player::One.next(), Player::Two);
    assert_eq!(Player::Two.next(), Player::One);
}

#[test]
fn three_in_a_row_wins_on_the_third_placement() {
    let mut board = Board::new();
    board.place(Symbol::Plus, [0, 0]);
    assert_eq!(board.winner(), None);
    board.place(Symbol::Plus, [0, 1]);
    assert_eq!(board.winner(), None);
    board.place(Symbol::Plus, [0, 2]);
    assert_eq!(board.winner(), Some(Symbol::Plus));
}

#[test]
fn bad_lines_keep_the_turn() {
    let mut game = Game::new();
    assert_eq!(
        game.play_turn("x,1\n"),
        TurnOutcome::InvalidInput(invalid_format())
    );
    assert_eq!(
        game.play_turn("4,1\n"),
        TurnOutcome::InvalidMove(PlayerMoveError::OutsideBoard(
            "The move is invalid because it is outside the board.".to_string()
        ))
    );
    assert_eq!(game.player_turn, Player::One);
    assert_eq!(game.play_turn("1,1\n"), TurnOutcome::Played);
    assert_eq!(game.player_turn, Player::Two);
    assert_eq!(
        game.play_turn("1,1\n"),
        TurnOutcome::InvalidMove(PlayerMoveError::FilledPosition(
            "The position is already filled.".to_string()
        ))
    );
    assert_eq!(game.player_turn, Player::Two);
    assert_eq!(game.board.tiles[1][1], Symbol::Plus);
}

#[test]
fn game_ends_when_first_player_fills_a_row() {
    let mut game = Game::new();
    let moves = ["0,0", "1,0", "0,1", "1,1"];
    for line in moves {
        assert_eq!(game.play_turn(line), TurnOutcome::Played);
    }
    assert_eq!(game.player_turn, Player::One);
    assert_eq!(game.play_turn("0,2"), TurnOutcome::Won(Player::One));
    assert_eq!(game.board.winner(), Some(Symbol::Plus));
    assert_eq!(
        game.board.render(),
        "| + | + | + |\n| o | o | - |\n| - | - | - |"
    );
}
