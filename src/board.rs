use vstd::prelude::*;

verus! {

/// What a cell of the board holds.
#[derive(Clone, Copy, Debug, PartialEq, Eq, Structural)]
pub enum Symbol {
    Empty,
    Plus,
    Circle,
}

/// Why a move cannot be made; each variant carries the message shown to the
/// player.
#[derive(Debug, PartialEq, Eq)]
pub enum PlayerMoveError {
    FilledPosition(String),
    OutsideBoard(String),
}

/// The message of `PlayerMoveError::FilledPosition`.
pub open spec fn filled_position_message() -> Seq<char> {
    "The position is already filled."@
}

/// The message of `PlayerMoveError::OutsideBoard`.
pub open spec fn outside_board_message() -> Seq<char> {
    "The move is invalid because it is outside the board."@
}

/// The glyph that shows a mark on the rendered board.
pub open spec fn glyph(s: Symbol) -> &'static str {
    match s {
        Symbol::Empty => "-",
        Symbol::Plus => "+",
        Symbol::Circle => "o",
    }
}

impl From<Symbol> for &'static str {
    fn from(val: Symbol) -> (r: &'static str)
        ensures
            r == glyph(val),
    {
        match val {
            Symbol::Empty => "-",
            Symbol::Plus => "+",
            Symbol::Circle => "o",
        }
    }
}

impl vstd::std_specs::convert::FromSpecImpl<Symbol> for &'static str {
    open spec fn obeys_from_spec() -> bool {
        true
    }

    open spec fn from_spec(v: Symbol) -> &'static str {
        glyph(v)
    }
}

/// The board as rows of cells, row by row.
pub type Grid = Seq<Seq<Symbol>>;

/// Three rows of three cells.
pub open spec fn is_grid(g: Grid) -> bool {
    &&& g.len() == 3
    &&& forall|r: int| 0 <= r < 3 ==> (#[trigger] g[r]).len() == 3
}

/// The board on which nothing has been placed.
pub open spec fn empty_grid() -> Grid {
    Seq::new(3, |_r: int| Seq::new(3, |_c: int| Symbol::Empty))
}

/// The mark in row `r`, column `c`.
pub open spec fn cell(g: Grid, r: int, c: int) -> Symbol {
    g[r][c]
}

/// The position lies beyond the last row or the last column.
pub open spec fn off_board(r: int, c: int) -> bool {
    r > 2 || c > 2
}

/// The cell at the position holds a mark.
pub open spec fn cell_taken(g: Grid, r: int, c: int) -> bool {
    cell(g, r, c) != Symbol::Empty
}

/// A mark may be placed at the position.
pub open spec fn move_allowed(g: Grid, r: int, c: int) -> bool {
    !off_board(r, c) && !cell_taken(g, r, c)
}

/// `e` is the error for a move at the position that may not be made: the
/// position is off the board, or else its cell is taken.
pub open spec fn rejection_for(g: Grid, r: int, c: int, e: PlayerMoveError) -> bool {
    match e {
        PlayerMoveError::OutsideBoard(msg) => off_board(r, c) && msg@ == outside_board_message(),
        PlayerMoveError::FilledPosition(msg) => {
            &&& !off_board(r, c)
            &&& cell_taken(g, r, c)
            &&& msg@ == filled_position_message()
        },
    }
}

/// The board after `m` is written into row `r`, column `c`.
pub open spec fn placed(g: Grid, m: Symbol, r: int, c: int) -> Grid {
    g.update(r, g[r].update(c, m))
}

/// The cells of the `k`-th line in the order in which lines are scanned for a
/// winner: row 0, column 0, row 1, column 1, row 2, column 2, then the
/// diagonal from the top left and the one from the top right.
pub open spec fn line(k: int) -> ((int, int), (int, int), (int, int)) {
    if k < 6 {
        let i = k / 2;
        if k % 2 == 0 {
            ((i, 0), (i, 1), (i, 2))
        } else {
            ((0, i), (1, i), (2, i))
        }
    } else if k == 6 {
        ((0, 0), (1, 1), (2, 2))
    } else {
        ((0, 2), (1, 1), (2, 0))
    }
}

/// All three cells of line `k` hold the mark `m`, which is not `Empty`.
pub open spec fn line_held_by(g: Grid, k: int, m: Symbol) -> bool {
    let (a, b, c) = line(k);
    &&& m != Symbol::Empty
    &&& cell(g, a.0, a.1) == m
    &&& cell(g, b.0, b.1) == m
    &&& cell(g, c.0, c.1) == m
}

/// The mark that holds the first full line from the `k`-th on, if any.
pub open spec fn first_winner_from(g: Grid, k: int) -> Option<Symbol>
    decreases 8 - k,
{
    if k < 0 || k >= 8 {
        None
    } else {
        let (a, _, _) = line(k);
        let m = cell(g, a.0, a.1);
        if line_held_by(g, k, m) {
            Some(m)
        } else {
            first_winner_from(g, k + 1)
        }
    }
}

/// The winner of a board: the mark of the first full line in scan order.
pub open spec fn winner_of(g: Grid) -> Option<Symbol> {
    first_winner_from(g, 0)
}

/// One row as text: its three glyphs between bars.
pub open spec fn row_text(row: Seq<Symbol>) -> Seq<char> {
    "| "@ + glyph(row[0])@ + " | "@ + glyph(row[1])@ + " | "@ + glyph(row[2])@ + " |"@
}

/// The board as text: its three rows, one per line.
pub open spec fn board_text(g: Grid) -> Seq<char> {
    row_text(g[0]) + "\n"@ + row_text(g[1]) + "\n"@ + row_text(g[2])
}

/// Appends one row of the board as text.
fn push_row(out: &mut String, row: &[Symbol; 3])
    ensures
        final(out)@ == old(out)@ + row_text(row@),
{
    out.append("| ");
    out.append(<&str>::from(row[0]));
    out.append(" | ");
    out.append(<&str>::from(row[1]));
    out.append(" | ");
    out.append(<&str>::from(row[2]));
    out.append(" |");
    assert(out@ =~= old(out)@ + row_text(row@));
}

/// The 3×3 board: `tiles[r][c]` is the cell in row `r`, column `c`.
pub struct Board {
    pub tiles: [[Symbol; 3]; 3],
}

impl View for Board {
    type V = Grid;

    open spec fn view(&self) -> Grid {
        Seq::new(3, |r: int| self.tiles@[r]@)
    }
}

impl Board {
    pub fn new() -> (b: Board)
        ensures
            b@ == empty_grid(),
    {
        let row = [Symbol::Empty; 3];
        let b = Board { tiles: [row; 3] };
        assert(row@ =~= Seq::new(3, |_c: int| Symbol::Empty));
        assert(b@ =~~= empty_grid());
        b
    }

    /// Writes `symbol` into the cell at `player_move` (row, then column),
    /// whatever the cell held.
    pub fn place(&mut self, symbol: Symbol, player_move: [usize; 2])
        requires
            player_move[0] < 3,
            player_move[1] < 3,
        ensures
            final(self)@ == placed(old(self)@, symbol, player_move[0] as int, player_move[1] as int),
    {
        self.tiles[player_move[0]][player_move[1]] = symbol;
        assert(self@ =~~= placed(old(self)@, symbol, player_move[0] as int, player_move[1] as int));
    }

    /// `Ok(true)` where a mark may be placed at `player_move`; otherwise the
    /// reason, the bounds being checked before the cell.
    pub fn is_valid_move(&self, player_move: [usize; 2]) -> (r: Result<bool, PlayerMoveError>)
        ensures
            match r {
                Ok(b) => b && move_allowed(self@, player_move[0] as int, player_move[1] as int),
                Err(e) => rejection_for(self@, player_move[0] as int, player_move[1] as int, e),
            },
            off_board(player_move[0] as int, player_move[1] as int) <==> r matches Err(
                PlayerMoveError::OutsideBoard(_),
            ),
    {
        if player_move[0] > 2 || player_move[1] > 2 {
            return Err(PlayerMoveError::OutsideBoard(
                "The move is invalid because it is outside the board.".to_owned(),
            ));
        }
        if self.tiles[player_move[0]][player_move[1]] != Symbol::Empty {
            return Err(PlayerMoveError::FilledPosition("The position is already filled.".to_owned()));
        }
        Ok(true)
    }

    /// The board as three lines of text, such as `| + | - | o |`.
    pub fn render(&self) -> (text: String)
        ensures
            text@ == board_text(self@),
    {
        let mut text = String::new();
        push_row(&mut text, &self.tiles[0]);
        text.append("\n");
        push_row(&mut text, &self.tiles[1]);
        text.append("\n");
        push_row(&mut text, &self.tiles[2]);
        assert(text@ =~= board_text(self@));
        text
    }

    /// The mark of the first of the eight lines whose cells all hold one
    /// mark other than `Empty`, or `None`.
    pub fn winner(&self) -> (w: Option<Symbol>)
        ensures
            w == winner_of(self@),
    {
        let t = &self.tiles;
        let mut i: usize = 0;
        while i < 3
            invariant
                i <= 3,
                *t == self.tiles,
                winner_of(self@) == first_winner_from(self@, 2 * i),
            decreases 3 - i,
        {
            if t[i][0] == t[i][1] && t[i][0] == t[i][2] {
                if t[i][0] != Symbol::Empty {
                    return Some(t[i][0]);
                }
            }
            assert(first_winner_from(self@, 2 * i) == first_winner_from(self@, 2 * i + 1));
            if t[0][i] == t[1][i] && t[0][i] == t[2][i] {
                if t[0][i] != Symbol::Empty {
                    return Some(t[0][i]);
                }
            }
            assert(first_winner_from(self@, 2 * i + 1) == first_winner_from(self@, 2 * i + 2));
            i = i + 1;
        }
        if t[0][0] != Symbol::Empty && t[0][0] == t[1][1] && t[0][0] == t[2][2] {
            return Some(t[0][0]);
        }
        assert(first_winner_from(self@, 6) == first_winner_from(self@, 7));
        if t[0][2] != Symbol::Empty && t[0][2] == t[1][1] && t[0][2] == t[2][0] {
            return Some(t[0][2]);
        }
        assert(first_winner_from(self@, 7) == first_winner_from(self@, 8));
        None
    }
}

/// A fresh board has every cell empty and no winner.
pub proof fn lemma_fresh_board_is_empty()
    ensures
        is_grid(empty_grid()),
        forall|r: int, c: int|
            0 <= r < 3 && 0 <= c < 3 ==> cell(empty_grid(), r, c) == Symbol::Empty,
        winner_of(empty_grid()) is None,
{
    reveal_with_fuel(first_winner_from, 9);
}

/// On a fresh board a mark may be placed at every position of the board.
pub proof fn lemma_fresh_board_allows_every_cell(r: int, c: int)
    requires
        0 <= r <= 2,
        0 <= c <= 2,
    ensures
        move_allowed(empty_grid(), r, c),
{
}

/// Placing a mark sets that cell to the mark and leaves every other cell as
/// it was.
pub proof fn lemma_place_sets_one_cell(g: Grid, m: Symbol, r: int, c: int)
    requires
        is_grid(g),
        0 <= r <= 2,
        0 <= c <= 2,
    ensures
        is_grid(placed(g, m, r, c)),
        cell(placed(g, m, r, c), r, c) == m,
        forall|r2: int, c2: int|
            0 <= r2 < 3 && 0 <= c2 < 3 && (r2 != r || c2 != c) ==> cell(placed(g, m, r, c), r2, c2)
                == cell(g, r2, c2),
{
}

/// Once a mark is placed in a cell, a move there is refused as a taken cell.
pub proof fn lemma_placed_cell_is_refused(g: Grid, m: Symbol, r: int, c: int)
    requires
        is_grid(g),
        0 <= r <= 2,
        0 <= c <= 2,
        m != Symbol::Empty,
    ensures
        !off_board(r, c),
        cell_taken(placed(g, m, r, c), r, c),
        !move_allowed(placed(g, m, r, c), r, c),
{
}

proof fn lemma_first_winner_from(g: Grid, k: int)
    requires
        0 <= k <= 8,
    ensures
        first_winner_from(g, k) is None <==> forall|k2: int, m: Symbol|
            k <= k2 < 8 ==> !#[trigger] line_held_by(g, k2, m),
        first_winner_from(g, k) matches Some(m) ==> exists|k2: int|
            k <= k2 < 8 && #[trigger] line_held_by(g, k2, m),
        forall|k2: int, m: Symbol|
            k <= k2 < 8 && #[trigger] line_held_by(g, k2, m) && (forall|k3: int, m3: Symbol|
                k <= k3 < 8 && #[trigger] line_held_by(g, k3, m3) ==> m3 == m) ==> first_winner_from(
                g,
                k,
            ) == Some(m),
    decreases 8 - k,
{
    if k < 8 {
        lemma_first_winner_from(g, k + 1);
        let (a, _, _) = line(k);
        let m = cell(g, a.0, a.1);
        assert forall|m2: Symbol| #[trigger] line_held_by(g, k, m2) implies m2 == m by {}
    }
}

/// The winner is a mark that fills a whole row, column or diagonal; there is
/// no winner exactly when no line is filled by one mark; and a mark that
/// fills a line while no other mark fills one is the winner.
pub proof fn lemma_winner_fills_a_line(g: Grid)
    ensures
        winner_of(g) is None <==> forall|k: int, m: Symbol|
            0 <= k < 8 ==> !#[trigger] line_held_by(g, k, m),
        winner_of(g) matches Some(m) ==> exists|k: int|
            0 <= k < 8 && #[trigger] line_held_by(g, k, m),
        forall|k: int, m: Symbol|
            0 <= k < 8 && #[trigger] line_held_by(g, k, m) && (forall|k2: int, m2: Symbol|
                0 <= k2 < 8 && #[trigger] line_held_by(g, k2, m2) ==> m2 == m) ==> winner_of(g)
                == Some(m),
{
    lemma_first_winner_from(g, 0);
}

} // verus!
