//! The rules of the game, stated over mathematical values.
//!
//! A board is a sequence of three rows of three tiles, and a game state is a
//! board together with the piece to move and the outcome, if there is one.
//! Everything the executable game does is specified by the functions here.

use crate::game::{MoveError, Piece, Tile, Tiles, Winner};
use vstd::prelude::*;

verus! {

/// The board as a mathematical value: rows of tiles, both indexed from zero.
pub type Board = Seq<Seq<Tile>>;

/// The board that an array of tiles stands for.
pub open spec fn board_of(tiles: Tiles) -> Board {
    Seq::new(3, |r: int| Seq::new(3, |c: int| tiles[r][c]))
}

/// The board with no piece on it.
pub open spec fn empty_board() -> Board {
    Seq::new(3, |r: int| Seq::new(3, |c: int| None))
}

/// `b` has three rows of three tiles.
pub open spec fn is_grid(b: Board) -> bool {
    &&& b.len() == 3
    &&& b[0].len() == 3
    &&& b[1].len() == 3
    &&& b[2].len() == 3
}

/// `(row, col)` names a tile of the board.
pub open spec fn on_board(row: int, col: int) -> bool {
    0 <= row < 3 && 0 <= col < 3
}

/// The board `b` with piece `p` put on the tile `(row, col)`.
pub open spec fn place(b: Board, row: int, col: int, p: Piece) -> Board {
    b.update(row, b[row].update(col, Some(p)))
}

/// Every tile of `b` holds a piece.
pub open spec fn is_full(b: Board) -> bool {
    forall|r: int, c: int| on_board(r, c) ==> (#[trigger] b[r][c]) is Some
}

/// The three tiles are held by one and the same piece, which is returned.
pub open spec fn line_owner(a: Tile, b: Tile, c: Tile) -> Option<Piece> {
    if a == b && b == c {
        a
    } else {
        None
    }
}

/// The piece that holds all of row `r`, if there is one.
pub open spec fn row_owner(b: Board, r: int) -> Option<Piece> {
    line_owner(b[r][0], b[r][1], b[r][2])
}

/// The piece that holds all of column `c`, if there is one.
pub open spec fn col_owner(b: Board, c: int) -> Option<Piece> {
    line_owner(b[0][c], b[1][c], b[2][c])
}

/// The piece that holds the diagonal from the top left, if there is one.
pub open spec fn diagonal_owner(b: Board) -> Option<Piece> {
    line_owner(b[0][0], b[1][1], b[2][2])
}

/// The piece that holds the diagonal from the top right, if there is one.
pub open spec fn anti_diagonal_owner(b: Board) -> Option<Piece> {
    line_owner(b[0][2], b[1][1], b[2][0])
}

/// Piece `p` holds one of the eight lines of the board.
pub open spec fn owns_line(b: Board, p: Piece) -> bool {
    ||| row_owner(b, 0) == Some(p)
    ||| row_owner(b, 1) == Some(p)
    ||| row_owner(b, 2) == Some(p)
    ||| col_owner(b, 0) == Some(p)
    ||| col_owner(b, 1) == Some(p)
    ||| col_owner(b, 2) == Some(p)
    ||| diagonal_owner(b) == Some(p)
    ||| anti_diagonal_owner(b) == Some(p)
}

/// Piece `p` holds a line that passes through the tile `(row, col)`.
pub open spec fn owns_line_through(b: Board, p: Piece, row: int, col: int) -> bool {
    ||| row_owner(b, row) == Some(p)
    ||| col_owner(b, col) == Some(p)
    ||| (row == col && diagonal_owner(b) == Some(p))
    ||| (row + col == 2 && anti_diagonal_owner(b) == Some(p))
}

/// The outcome in which piece `p` has won.
pub open spec fn win_of(p: Piece) -> Winner {
    match p {
        Piece::X => Winner::X,
        Piece::O => Winner::O,
    }
}

/// The piece that holds a line through `(row, col)`: the first such line
/// decides, taken in the order row, column, diagonal, anti-diagonal.
pub open spec fn line_owner_through(b: Board, row: int, col: int) -> Option<Piece> {
    if row_owner(b, row) is Some {
        row_owner(b, row)
    } else if col_owner(b, col) is Some {
        col_owner(b, col)
    } else if row == col && diagonal_owner(b) is Some {
        diagonal_owner(b)
    } else if row + col == 2 {
        anti_diagonal_owner(b)
    } else {
        None
    }
}

/// The outcome after a piece was put on `(row, col)`, giving board `b`, when
/// the outcome before was `prior`. An outcome that is set stays as it is.
/// Otherwise a line through the tile decides, and a full board without one
/// is a tie.
pub open spec fn updated_outcome(b: Board, prior: Option<Winner>, row: int, col: int) -> Option<
    Winner,
> {
    if prior is Some {
        prior
    } else if let Some(p) = line_owner_through(b, row, col) {
        Some(win_of(p))
    } else if is_full(b) {
        Some(Winner::Tie)
    } else {
        None
    }
}

/// The state of a game as a mathematical value.
pub struct GameState {
    /// The tiles.
    pub board: Board,
    /// The piece that moves next.
    pub turn: Piece,
    /// How the game ended, once it has.
    pub outcome: Option<Winner>,
}

/// The state in which every game starts: an empty board, `X` to move.
pub open spec fn initial_state() -> GameState {
    GameState { board: empty_board(), turn: Piece::X, outcome: None }
}

/// What a move to `(row, col)` in state `s` returns. The tests are made in
/// this order: a finished game refuses every move; then a position off the
/// board is refused; then a tile that is taken, naming the piece on it.
pub open spec fn move_result(s: GameState, row: usize, col: usize) -> Result<(), MoveError> {
    if s.outcome is Some {
        Err(MoveError::GameAlreadyOver)
    } else if row >= 3 || col >= 3 {
        Err(MoveError::InvalidPosition { row, col })
    } else if let Some(other_piece) = s.board[row as int][col as int] {
        Err(MoveError::TileNotEmpty { other_piece, row, col })
    } else {
        Ok(())
    }
}

/// The state after a move to `(row, col)` in state `s`. A refused move
/// leaves the state as it was. An accepted one puts the mover's piece on the
/// tile, passes the turn, and ends the game if the mover now holds a line
/// through the tile (a win) or the board is full (a tie).
pub open spec fn after_move(s: GameState, row: usize, col: usize) -> GameState {
    if move_result(s, row, col) is Ok {
        let b = place(s.board, row as int, col as int, s.turn);
        GameState {
            board: b,
            turn: s.turn.spec_other(),
            outcome: if owns_line_through(b, s.turn, row as int, col as int) {
                Some(win_of(s.turn))
            } else if is_full(b) {
                Some(Winner::Tie)
            } else {
                None
            },
        }
    } else {
        s
    }
}

/// How many of the three tiles `a`, `b`, `c` hold piece `p`.
pub open spec fn count_three(a: Tile, b: Tile, c: Tile, p: Piece) -> nat {
    (if a == Some(p) { 1nat } else { 0nat })
    + (if b == Some(p) { 1nat } else { 0nat })
    + (if c == Some(p) { 1nat } else { 0nat })
}

/// How many tiles of `b` hold piece `p`.
pub open spec fn count(b: Board, p: Piece) -> nat {
    count_three(b[0][0], b[0][1], b[0][2], p)
    + count_three(b[1][0], b[1][1], b[1][2], p)
    + count_three(b[2][0], b[2][1], b[2][2], p)
}

/// The outcome that a board shows by itself: a win for the piece that holds
/// a line, a tie if the board is full and no line is held, else none.
pub open spec fn verdict(b: Board) -> Option<Winner> {
    if owns_line(b, Piece::X) {
        Some(Winner::X)
    } else if owns_line(b, Piece::O) {
        Some(Winner::O)
    } else if is_full(b) {
        Some(Winner::Tie)
    } else {
        None
    }
}

impl GameState {
    /// What holds of every state that play can reach.
    ///
    /// The board is a grid. `X` has put down as many pieces as `O` when it is
    /// `X`'s turn, and one more when it is `O`'s. The two pieces never both hold
    /// a line, the outcome is the one that the board shows, and the winner, if
    /// there is one, made the last move.
    pub open spec fn well_formed(self) -> bool {
        &&& is_grid(self.board)
        &&& match self.turn {
            Piece::X => count(self.board, Piece::X) == count(self.board, Piece::O),
            Piece::O => count(self.board, Piece::X) == count(self.board, Piece::O) + 1,
        }
        &&& !(owns_line(self.board, Piece::X) && owns_line(self.board, Piece::O))
        &&& self.outcome == verdict(self.board)
        &&& (self.outcome == Some(Winner::X) ==> self.turn == Piece::O)
        &&& (self.outcome == Some(Winner::O) ==> self.turn == Piece::X)
    }
}

/// The starting state is well formed.
pub proof fn lemma_initial_state_well_formed()
    ensures
        initial_state().well_formed(),
{
    let b = empty_board();
    assert(b[0][0] is None);
}

/// Placing a piece changes the one tile and no other.
pub proof fn lemma_place(b: Board, row: int, col: int, p: Piece)
    requires
        is_grid(b),
        on_board(row, col),
    ensures
        is_grid(place(b, row, col, p)),
        place(b, row, col, p)[row][col] == Some(p),
        forall|r: int, c: int|
            on_board(r, c) && !(r == row && c == col) ==> #[trigger] place(b, row, col, p)[r][c]
                == b[r][c],
{
}

/// Placing a piece on an empty tile adds one to that piece's count and
/// leaves the other piece's count as it was.
pub proof fn lemma_place_count(b: Board, row: int, col: int, p: Piece)
    requires
        is_grid(b),
        on_board(row, col),
        b[row][col] is None,
    ensures
        count(place(b, row, col, p), p) == count(b, p) + 1,
        count(place(b, row, col, p), p.spec_other()) == count(b, p.spec_other()),
{
    if row == 0 {
        lemma_update_count(b[0], col, p);
    } else if row == 1 {
        lemma_update_count(b[1], col, p);
    } else {
        lemma_update_count(b[2], col, p);
    }
}

/// Within one row, placing a piece on an empty tile adds one to that
/// piece's count and leaves the other piece's count as it was.
proof fn lemma_update_count(line: Seq<Tile>, col: int, p: Piece)
    requires
        line.len() == 3,
        0 <= col < 3,
        line[col] is None,
    ensures
        ({
            let after = line.update(col, Some(p));
            &&& count_three(after[0], after[1], after[2], p) == count_three(
                line[0],
                line[1],
                line[2],
                p,
            ) + 1
            &&& count_three(after[0], after[1], after[2], p.spec_other()) == count_three(
                line[0],
                line[1],
                line[2],
                p.spec_other(),
            )
        }),
{
}

/// After a piece is placed on an empty tile, the other piece holds a line
/// exactly if it held one before, and the placed piece holds a line exactly
/// if it held one before or now holds one through the tile.
pub proof fn lemma_place_lines(b: Board, row: int, col: int, p: Piece)
    requires
        is_grid(b),
        on_board(row, col),
        b[row][col] is None,
    ensures
        owns_line(place(b, row, col, p), p.spec_other()) == owns_line(b, p.spec_other()),
        owns_line(place(b, row, col, p), p) == (owns_line(b, p) || owns_line_through(
            place(b, row, col, p),
            p,
            row,
            col,
        )),
{
    lemma_place(b, row, col, p);
}

/// When piece `p` has just been put on `(row, col)`, giving board `b`, and
/// no outcome was set, the outcome is a win for `p` exactly if `p` holds a
/// line through the tile: every line through the tile holds `p` there, so
/// the order in which the lines are looked at makes no difference.
pub proof fn lemma_updated_outcome_of_move(before: Board, row: int, col: int, p: Piece)
    requires
        is_grid(before),
        on_board(row, col),
    ensures
        ({
            let b = place(before, row, col, p);
            updated_outcome(b, None, row, col) == if owns_line_through(b, p, row, col) {
                Some(win_of(p))
            } else if is_full(b) {
                Some(Winner::Tie)
            } else {
                None
            }
        }),
{
    lemma_place(before, row, col, p);
}

/// A move, accepted or refused, leads from a well-formed state to a
/// well-formed state.
pub proof fn lemma_move_preserves_well_formed(s: GameState, row: usize, col: usize)
    requires
        s.well_formed(),
    ensures
        after_move(s, row, col).well_formed(),
{
    if move_result(s, row, col) is Ok {
        lemma_place_count(s.board, row as int, col as int, s.turn);
        lemma_place_lines(s.board, row as int, col as int, s.turn);
    }
}

} // verus!
