//! The pieces, the board and the game state.

use crate::rules::{
    after_move, board_of, initial_state, is_full, lemma_initial_state_well_formed,
    lemma_move_preserves_well_formed, lemma_updated_outcome_of_move, line_owner, move_result,
    place, updated_outcome, win_of, GameState,
};
use vstd::prelude::*;

verus! {

/// The side length of the board.
pub const BOARD_SIZE: usize = 3;

/// One of the two players' marks. `X` moves first.
#[derive(Debug, Clone, Copy, PartialEq, Eq, Hash, Structural)]
pub enum Piece {
    X,
    O,
}

impl Piece {
    /// The opposing piece.
    pub open spec fn spec_other(self) -> Piece {
        match self {
            Piece::X => Piece::O,
            Piece::O => Piece::X,
        }
    }

    /// The opposing piece.
    #[verifier::when_used_as_spec(spec_other)]
    pub fn other(self) -> (p: Piece)
        ensures
            p == self.spec_other(),
    {
        match self {
            Piece::X => Piece::O,
            Piece::O => Piece::X,
        }
    }
}

/// Taking the other piece twice gives the piece back, and no piece is its
/// own opposite.
pub proof fn lemma_other_is_involution(p: Piece)
    ensures
        p.spec_other().spec_other() == p,
        p.spec_other() != p,
{
}

/// A cell of the board: empty, or holding one piece.
pub type Tile = Option<Piece>;

/// The board, as rows of tiles.
pub type Tiles = [[Tile; BOARD_SIZE]; BOARD_SIZE];

/// How a finished game ended.
#[derive(Debug, Clone, Copy, PartialEq, Eq, Hash, Structural)]
pub enum Winner {
    X,
    O,
    Tie,
}

/// Why a move was refused.
#[derive(Debug, PartialEq, Eq, Structural)]
pub enum MoveError {
    /// The game was already over when the move was attempted.
    GameAlreadyOver,
    /// The position lies outside the board.
    InvalidPosition { row: usize, col: usize },
    /// The tile already holds a piece.
    TileNotEmpty { other_piece: Piece, row: usize, col: usize },
}

impl Clone for MoveError {
    fn clone(&self) -> (res: MoveError)
        ensures
            res == *self,
    {
        match self {
            MoveError::GameAlreadyOver => MoveError::GameAlreadyOver,
            MoveError::InvalidPosition { row, col } => MoveError::InvalidPosition {
                row: *row,
                col: *col,
            },
            MoveError::TileNotEmpty { other_piece, row, col } => MoveError::TileNotEmpty {
                other_piece: *other_piece,
                row: *row,
                col: *col,
            },
        }
    }
}

/// A game in progress or finished.
///
/// Its value is a [`GameState`], and every `Game` is well formed in the sense
/// of [`GameState::well_formed`].
#[derive(Debug)]
pub struct Game {
    tiles: Tiles,
    current_piece: Piece,
    winner: Option<Winner>,
}

impl Clone for Game {
    fn clone(&self) -> (res: Game)
        ensures
            res@ == self@,
    {
        proof {
            use_type_invariant(self);
        }
        Game { tiles: self.tiles, current_piece: self.current_piece, winner: self.winner }
    }
}

impl View for Game {
    type V = GameState;

    closed spec fn view(&self) -> GameState {
        GameState { board: board_of(self.tiles), turn: self.current_piece, outcome: self.winner }
    }
}

impl Game {
    #[verifier::type_invariant]
    closed spec fn inv(&self) -> bool {
        self@.well_formed()
    }

    /// A fresh game: an empty board, `X` to move, no outcome.
    pub fn new() -> (game: Game)
        ensures
            game@ == initial_state(),
            game@.well_formed(),
    {
        let tiles: Tiles = [[None; BOARD_SIZE]; BOARD_SIZE];
        proof {
            lemma_initial_state_well_formed();
            assert(board_of(tiles) =~~= initial_state().board);
        }
        Game { tiles, current_piece: Piece::X, winner: None }
    }

    /// Puts the current piece on the tile `(row, col)`, both counted from
    /// zero, and passes the turn; the game ends when that completes a line
    /// or fills the board. A move is refused, and the game left as it was,
    /// when the game is over, when the position is off the board, or when the
    /// tile is taken.
    pub fn make_move(&mut self, row: usize, col: usize) -> (res: Result<(), MoveError>)
        ensures
            res == move_result(old(self)@, row, col),
            final(self)@ == after_move(old(self)@, row, col),
            final(self)@.well_formed(),
    {
        proof {
            use_type_invariant(&*self);
        }
        if self.is_finished() {
            return Err(MoveError::GameAlreadyOver);
        } else if row >= self.tiles.len() || col >= self.tiles[0].len() {
            return Err(MoveError::InvalidPosition { row, col });
        } else if let Some(other_piece) = self.tiles[row][col] {
            return Err(MoveError::TileNotEmpty { other_piece, row, col });
        }
        let mover = self.current_piece;
        let mut tiles = self.tiles;
        tiles[row][col] = Some(mover);
        let winner = Self::update_winner(&tiles, self.winner, row, col);
        proof {
            assert(board_of(tiles) =~~= place(old(self)@.board, row as int, col as int, mover));
            lemma_updated_outcome_of_move(old(self)@.board, row as int, col as int, mover);
            lemma_move_preserves_well_formed(old(self)@, row, col);
        }
        *self = Game { tiles, current_piece: mover.other(), winner };
        Ok(())
    }

    /// The winner that a line of three tiles shows: the piece that holds all
    /// three, if one does.
    pub fn check_winner(line: &[Tile; BOARD_SIZE]) -> (res: Option<Winner>)
        ensures
            res == match line_owner(line[0], line[1], line[2]) {
                Some(p) => Some(win_of(p)),
                None => None,
            },
    {
        if line[0] == line[1] && line[1] == line[2] {
            match line[0] {
                Some(Piece::X) => Some(Winner::X),
                Some(Piece::O) => Some(Winner::O),
                None => None,
            }
        } else {
            None
        }
    }

    /// Whether every tile holds a piece.
    pub fn all_occupied(tiles: &Tiles) -> (res: bool)
        ensures
            res == is_full(board_of(*tiles)),
    {
        let mut row: usize = 0;
        while row < BOARD_SIZE
            invariant
                row <= BOARD_SIZE,
                forall|r: int, c: int|
                    0 <= r < row && 0 <= c < 3 ==> (#[trigger] tiles[r][c]) is Some,
            decreases BOARD_SIZE - row,
        {
            let mut col: usize = 0;
            while col < BOARD_SIZE
                invariant
                    row < BOARD_SIZE,
                    col <= BOARD_SIZE,
                    forall|r: int, c: int|
                        0 <= r < row && 0 <= c < 3 ==> (#[trigger] tiles[r][c]) is Some,
                    forall|c: int| 0 <= c < col ==> (#[trigger] tiles[row as int][c]) is Some,
                decreases BOARD_SIZE - col,
            {
                if tiles[row][col].is_none() {
                    proof {
                        assert(board_of(*tiles)[row as int][col as int] is None);
                    }
                    return false;
                }
                col += 1;
            }
            row += 1;
        }
        true
    }

    /// The outcome after a piece was put on `(row, col)`, when the outcome
    /// before was `winner`. An outcome that is set is kept. Otherwise the
    /// row, the column and, where the tile lies on them, the two diagonals
    /// are looked at in that order, and the first that one piece holds
    /// decides; failing that, a full board is a tie.
    pub fn update_winner(tiles: &Tiles, winner: Option<Winner>, row: usize, col: usize) -> (res:
        Option<Winner>)
        requires
            row < BOARD_SIZE,
            col < BOARD_SIZE,
        ensures
            res == updated_outcome(board_of(*tiles), winner, row as int, col as int),
    {
        let rows = tiles.len();
        let cols = tiles[0].len();

        let tiles_row = tiles[row];
        let tiles_col = [tiles[0][col], tiles[1][col], tiles[2][col]];

        assert(rows == 3 && cols == 3);

        let tiles_diagonal_1 = if row == col {
            [tiles[0][0], tiles[1][1], tiles[2][2]]
        } else {
            // Never shows a winner, so it can stand in when the tile is not
            // on this diagonal.
            [None, None, None]
        };

        let tiles_diagonal_2 = if (rows - row - 1) == col {
            [tiles[0][2], tiles[1][1], tiles[2][0]]
        } else {
            [None, None, None]
        };

        let mut res = winner;
        if res.is_none() {
            res = Self::check_winner(&tiles_row);
        }
        if res.is_none() {
            res = Self::check_winner(&tiles_col);
        }
        if res.is_none() {
            res = Self::check_winner(&tiles_diagonal_1);
        }
        if res.is_none() {
            res = Self::check_winner(&tiles_diagonal_2);
        }
        if res.is_none() && Self::all_occupied(tiles) {
            res = Some(Winner::Tie);
        }
        res
    }

    /// Whether the game is over.
    pub fn is_finished(&self) -> (res: bool)
        ensures
            res == self@.outcome.is_some(),
            self@.well_formed(),
    {
        proof {
            use_type_invariant(self);
        }
        self.winner.is_some()
    }

    /// How the game ended, or `None` while it is going on.
    pub fn winner(&self) -> (res: Option<Winner>)
        ensures
            res == self@.outcome,
            self@.well_formed(),
    {
        proof {
            use_type_invariant(self);
        }
        self.winner
    }

    /// The piece that moves next.
    pub fn current_piece(&self) -> (res: Piece)
        ensures
            res == self@.turn,
            self@.well_formed(),
    {
        proof {
            use_type_invariant(self);
        }
        self.current_piece
    }

    /// The tiles of the board.
    pub fn tiles(&self) -> (res: &Tiles)
        ensures
            board_of(*res) == self@.board,
            self@.well_formed(),
    {
        proof {
            use_type_invariant(self);
        }
        &self.tiles
    }
}

} // verus!
