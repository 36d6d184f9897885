use vstd::prelude::*;

use crate::board::{
    empty_grid, move_allowed, placed, rejection_for, winner_of, Board, PlayerMoveError, Symbol,
};

verus! {

/// One of the two players; the first to move is `One`.
#[derive(Clone, Copy, Debug, PartialEq, Eq, Structural)]
pub enum Player {
    One,
    Two,
}

/// The name by which a player is addressed.
pub open spec fn alias_of(p: Player) -> Seq<char> {
    match p {
        Player::One => "Player 1"@,
        Player::Two => "Player 2"@,
    }
}

/// The player who moves after `p`.
pub open spec fn opponent(p: Player) -> Player {
    match p {
        Player::One => Player::Two,
        Player::Two => Player::One,
    }
}

/// The mark that a player places.
pub open spec fn mark_of(p: Player) -> Symbol {
    match p {
        Player::One => Symbol::Plus,
        Player::Two => Symbol::Circle,
    }
}

impl Player {
    /// The name by which the player is addressed.
    pub fn alias(&self) -> (r: &'static str)
        ensures
            r@ == alias_of(*self),
    {
        match self {
            Player::One => "Player 1",
            Player::Two => "Player 2",
        }
    }

    /// The player who moves next.
    pub fn next(self) -> (r: Player)
        ensures
            r == opponent(self),
    {
        match self {
            Player::One => Player::Two,
            Player::Two => Player::One,
        }
    }
}

impl From<Player> for Symbol {
    fn from(val: Player) -> (r: Symbol)
        ensures
            r == mark_of(val),
    {
        match val {
            Player::One => Symbol::Plus,
            Player::Two => Symbol::Circle,
        }
    }
}

impl vstd::std_specs::convert::FromSpecImpl<Player> for Symbol {
    open spec fn obeys_from_spec() -> bool {
        true
    }

    open spec fn from_spec(v: Player) -> Symbol {
        mark_of(v)
    }
}

/// Why a line of input is not a move.
#[derive(Debug, PartialEq, Eq)]
pub enum PlayerInputParseError {
    InvalidFormat(String),
}

/// The message of `PlayerInputParseError::InvalidFormat`.
pub open spec fn invalid_format_message() -> Seq<char> {
    "Invalid format"@
}

/// Whitespace as the Unicode property White_Space defines it: what trimming
/// removes from either end of a field.
pub open spec fn is_blank(c: char) -> bool {
    ||| '\u{9}' <= c <= '\u{d}'
    ||| c == ' '
    ||| c == '\u{85}'
    ||| c == '\u{a0}'
    ||| c == '\u{1680}'
    ||| '\u{2000}' <= c <= '\u{200a}'
    ||| c == '\u{2028}'
    ||| c == '\u{2029}'
    ||| c == '\u{202f}'
    ||| c == '\u{205f}'
    ||| c == '\u{3000}'
}

/// An ASCII decimal digit.
pub open spec fn is_digit(c: char) -> bool {
    '0' <= c <= '9'
}

/// The value of a decimal digit.
pub open spec fn digit_value(c: char) -> int {
    c as int - '0' as int
}

/// `field[i]` is a digit and every other character of `field` is whitespace:
/// trimmed, the field is that one digit.
pub open spec fn lone_digit_at(field: Seq<char>, i: int) -> bool {
    &&& 0 <= i < field.len()
    &&& is_digit(field[i])
    &&& forall|j: int| 0 <= j < field.len() && j != i ==> is_blank(#[trigger] field[j])
}

/// The value of a field that, trimmed of whitespace, is one decimal digit.
pub open spec fn field_value(field: Seq<char>) -> Option<int> {
    if exists|i: int| lone_digit_at(field, i) {
        Some(digit_value(field[choose|i: int| lone_digit_at(field, i)]))
    } else {
        None
    }
}

/// `s[k]` is the only comma of `s`.
pub open spec fn sole_comma_at(s: Seq<char>, k: int) -> bool {
    &&& 0 <= k < s.len()
    &&& s[k] == ','
    &&& forall|j: int| 0 <= j < s.len() && j != k ==> #[trigger] s[j] != ','
}

/// The move that a line of input names: two fields split by the only comma,
/// each one digit once trimmed, giving the row and then the column.
pub open spec fn parsed_move(s: Seq<char>) -> Option<(int, int)> {
    if exists|k: int| sole_comma_at(s, k) {
        let k = choose|k: int| sole_comma_at(s, k);
        match (field_value(s.take(k)), field_value(s.skip(k + 1))) {
            (Some(r), Some(c)) => Some((r, c)),
            _ => None,
        }
    } else {
        None
    }
}

fn is_blank_char(c: char) -> (r: bool)
    ensures
        r == is_blank(c),
{
    ('\u{9}' <= c && c <= '\u{d}') || c == ' ' || c == '\u{85}' || c == '\u{a0}' || c
        == '\u{1680}' || ('\u{2000}' <= c && c <= '\u{200a}') || c == '\u{2028}' || c
        == '\u{2029}' || c == '\u{202f}' || c == '\u{205f}' || c == '\u{3000}'
}

/// The value of the one digit in `s[from..to]` when every other character
/// there is whitespace.
fn field_digit(s: &str, from: usize, to: usize) -> (r: Option<usize>)
    requires
        from <= to <= s@.len(),
    ensures
        match r {
            Some(v) => field_value(s@.subrange(from as int, to as int)) == Some(v as int),
            None => field_value(s@.subrange(from as int, to as int)) is None,
        },
{
    let ghost field = s@.subrange(from as int, to as int);
    let mut found: Option<usize> = None;
    let mut j: usize = from;
    while j < to
        invariant
            from <= j <= to <= s@.len(),
            field == s@.subrange(from as int, to as int),
            match found {
                None => forall|q: int| from <= q < j ==> is_blank(#[trigger] s@[q]),
                Some(p) => {
                    &&& from <= p < j
                    &&& is_digit(s@[p as int])
                    &&& forall|q: int| from <= q < j && q != p ==> is_blank(#[trigger] s@[q])
                },
            },
        decreases to - j,
    {
        let c = s.get_char(j);
        if !is_blank_char(c) {
            if found.is_some() || !('0' <= c && c <= '9') {
                proof {
                    assert forall|i: int| !lone_digit_at(field, i) by {
                        if lone_digit_at(field, i) {
                            assert(field[j - from] == c);
                            if let Some(p) = found {
                                assert(field[p - from] == s@[p as int]);
                            }
                        }
                    }
                }
                return None;
            }
            found = Some(j);
        }
        j = j + 1;
    }
    match found {
        None => {
            proof {
                assert forall|i: int| !lone_digit_at(field, i) by {
                    if lone_digit_at(field, i) {
                        assert(field[i] == s@[from + i]);
                    }
                }
            }
            None
        },
        Some(p) => {
            let c = s.get_char(p);
            proof {
                assert(lone_digit_at(field, p - from)) by {
                    assert forall|q: int| 0 <= q < field.len() && q != p - from implies is_blank(
                        #[trigger] field[q],
                    ) by {
                        assert(field[q] == s@[from + q]);
                    }
                }
                let i = choose|i: int| lone_digit_at(field, i);
                if i != p - from {
                    assert(field[p - from] == s@[p as int]);
                }
            }
            Some((c as u32 - '0' as u32) as usize)
        },
    }
}

fn invalid_format() -> (e: PlayerInputParseError)
    ensures
        e matches PlayerInputParseError::InvalidFormat(msg) && msg@ == invalid_format_message(),
{
    PlayerInputParseError::InvalidFormat("Invalid format".to_owned())
}

/// Reads a move written as `row,column`: two fields split by a single comma,
/// each a single decimal digit once surrounding whitespace is trimmed.
/// Digits above 2 are accepted here; the board rejects them.
pub fn parse_player_move(player_move: &str) -> (r: Result<[usize; 2], PlayerInputParseError>)
    ensures
        match r {
            Ok(m) => parsed_move(player_move@) == Some((m[0] as int, m[1] as int)),
            Err(PlayerInputParseError::InvalidFormat(msg)) => {
                &&& parsed_move(player_move@) is None
                &&& msg@ == invalid_format_message()
            },
        },
{
    let ghost s = player_move@;
    let n = player_move.unicode_len();
    let mut comma: Option<usize> = None;
    let mut i: usize = 0;
    while i < n
        invariant
            i <= n == s.len(),
            s == player_move@,
            match comma {
                None => forall|q: int| 0 <= q < i ==> #[trigger] s[q] != ',',
                Some(k) => {
                    &&& k < i
                    &&& s[k as int] == ','
                    &&& forall|q: int| 0 <= q < i && q != k ==> #[trigger] s[q] != ','
                },
            },
        decreases n - i,
    {
        if player_move.get_char(i) == ',' {
            if let Some(k) = comma {
                proof {
                    assert forall|k2: int| !sole_comma_at(s, k2) by {
                        if sole_comma_at(s, k2) {
                            assert(s[k as int] == ',');
                            assert(s[i as int] == ',');
                        }
                    }
                }
                return Err(invalid_format());
            }
            comma = Some(i);
        }
        i = i + 1;
    }
    let k = match comma {
        None => {
            proof {
                assert forall|k2: int| !sole_comma_at(s, k2) by {
                    if sole_comma_at(s, k2) {
                        assert(s[k2] == ',');
                    }
                }
            }
            return Err(invalid_format());
        },
        Some(k) => k,
    };
    proof {
        assert(sole_comma_at(s, k as int));
        let k2 = choose|k2: int| sole_comma_at(s, k2);
        if k2 != k {
            assert(s[k as int] == ',');
        }
        assert(s.take(k as int) =~= s.subrange(0, k as int));
        assert(s.skip(k + 1) =~= s.subrange(k + 1, n as int));
    }
    let row = field_digit(player_move, 0, k);
    let col = field_digit(player_move, k + 1, n);
    match (row, col) {
        (Some(r), Some(c)) => Ok([r, c]),
        _ => Err(invalid_format()),
    }
}

/// A game in progress: the board and the player whose turn it is.
pub struct Game {
    pub board: Board,
    pub player_turn: Player,
}

/// What came of one line of input.
#[derive(Debug, PartialEq, Eq)]
pub enum TurnOutcome {
    /// The line is not a move; the same player tries again.
    InvalidInput(PlayerInputParseError),
    /// The move may not be made; the same player tries again.
    InvalidMove(PlayerMoveError),
    /// The move was made and completed a line: the player has won.
    Won(Player),
    /// The move was made and the turn passed to the other player.
    Played,
}

impl Game {
    /// The first player to move, on an empty board.
    pub fn new() -> (g: Game)
        ensures
            g.board@ == empty_grid(),
            g.player_turn == Player::One,
    {
        Game { board: Board::new(), player_turn: Player::One }
    }

    /// Plays one line of input for the player on turn. A line that is not a
    /// move, or names a move that may not be made, changes nothing. Otherwise
    /// the player's mark is placed; the player wins if that completes a line,
    /// and else the turn passes.
    pub fn play_turn(&mut self, input: &str) -> (out: TurnOutcome)
        ensures
            match parsed_move(input@) {
                None => {
                    &&& out matches TurnOutcome::InvalidInput(PlayerInputParseError::InvalidFormat(msg))
                        && msg@ == invalid_format_message()
                    &&& *final(self) == *old(self)
                },
                Some((r, c)) => if !move_allowed(old(self).board@, r, c) {
                    &&& out matches TurnOutcome::InvalidMove(e) && rejection_for(
                        old(self).board@,
                        r,
                        c,
                        e,
                    )
                    &&& *final(self) == *old(self)
                } else {
                    let after = placed(old(self).board@, mark_of(old(self).player_turn), r, c);
                    &&& final(self).board@ == after
                    &&& if winner_of(after) is Some {
                        &&& out == TurnOutcome::Won(old(self).player_turn)
                        &&& final(self).player_turn == old(self).player_turn
                    } else {
                        &&& out == TurnOutcome::Played
                        &&& final(self).player_turn == opponent(old(self).player_turn)
                    }
                },
            },
    {
        let player_move = match parse_player_move(input) {
            Ok(m) => m,
            Err(e) => return TurnOutcome::InvalidInput(e),
        };
        match self.board.is_valid_move(player_move) {
            Ok(_) => {},
            Err(e) => return TurnOutcome::InvalidMove(e),
        }
        self.board.place(self.player_turn.into(), player_move);
        if self.board.winner().is_some() {
            return TurnOutcome::Won(self.player_turn);
        }
        self.player_turn = self.player_turn.next();
        TurnOutcome::Played
    }
}

} // verus!
