use tictactoe::game::{parse_player_move, Player, PlayerInputParseError};

#[test]
fn valid_player_moves_test() {
    let valid_moves = [
        ("0,1", [0, 1]),
        ("2,2", [2, 2]),
        ("3,0", [3, 0]),
        ("0,0", [0, 0]),
        ("0 , 0", [0, 0]),
        ("3, 0", [3, 0]),
        ("3 ,0", [3, 0]),
        ("2 ,0", [2, 0]),
    ];

    for (player_move, expected) in valid_moves {
        assert_eq!(parse_player_move(player_move).unwrap(), expected);
    }
}

#[test]
fn invalid_player_moves_test() {
    let invalid_moves = [",1", "2,", "30", "sdfss,sfsdfs", "a,b", ""];

    for invalid_move in invalid_moves {
        assert_eq!(
            parse_player_move(invalid_move),
            Err(PlayerInputParseError::InvalidFormat(
                "Invalid format".to_string()
            ))
        );
    }
}

#[test]
fn player_alias_for_shoutout_test() {
    assert_eq!("Player 1", Player::One.alias());
    assert_eq!("Player 2", Player::Two.alias());
}
