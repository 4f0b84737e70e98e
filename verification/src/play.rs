//! Whole games: sequences of moves, and what holds of every one of them.

use crate::game::{MoveError, Piece, Winner};
use crate::rules::{
    after_move, initial_state, is_full, lemma_initial_state_well_formed,
    lemma_move_preserves_well_formed, move_result, owns_line, GameState,
};
use vstd::prelude::*;

verus! {

/// The state reached from `s` when the moves are made one after the other,
/// each as a `(row, col)` pair. Refused moves are passed over.
pub open spec fn play(s: GameState, moves: Seq<(usize, usize)>) -> GameState
    decreases moves.len(),
{
    if moves.len() == 0 {
        s
    } else {
        after_move(play(s, moves.drop_last()), moves.last().0, moves.last().1)
    }
}

/// What the move with index `i` returns when `moves` are made from `s`.
pub open spec fn result_at(s: GameState, moves: Seq<(usize, usize)>, i: int) -> Result<
    (),
    MoveError,
> {
    move_result(play(s, moves.take(i)), moves[i].0, moves[i].1)
}

/// Every one of `moves`, made in turn from `s`, is accepted.
pub open spec fn all_accepted(s: GameState, moves: Seq<(usize, usize)>) -> bool {
    forall|i: int| 0 <= i < moves.len() ==> (#[trigger] result_at(s, moves, i)) is Ok
}

/// The piece that moves after `n` accepted moves when `first` made the first.
pub open spec fn mover_after(first: Piece, n: nat) -> Piece {
    if n % 2 == 0 {
        first
    } else {
        first.spec_other()
    }
}

/// The move to `(row, col)`, made `n` times over.
pub open spec fn repeated(row: usize, col: usize, n: nat) -> Seq<(usize, usize)> {
    Seq::new(n, |i: int| (row, col))
}

/// Playing two sequences one after the other is playing them joined.
pub proof fn lemma_play_append(
    s: GameState,
    first: Seq<(usize, usize)>,
    rest: Seq<(usize, usize)>,
)
    ensures
        play(s, first + rest) == play(play(s, first), rest),
    decreases rest.len(),
{
    if rest.len() == 0 {
        assert(first + rest =~= first);
    } else {
        assert((first + rest).drop_last() =~= first + rest.drop_last());
        lemma_play_append(s, first, rest.drop_last());
    }
}

/// The turn alternates: after any number of accepted moves from `s`, the
/// piece to move is the one that moved first if that number is even, and the
/// other one if it is odd.
pub proof fn lemma_turn_alternates(s: GameState, moves: Seq<(usize, usize)>)
    requires
        all_accepted(s, moves),
    ensures
        play(s, moves).turn == mover_after(s.turn, moves.len()),
    decreases moves.len(),
{
    if moves.len() > 0 {
        let before = moves.drop_last();
        assert forall|i: int| 0 <= i < before.len() implies (#[trigger] result_at(
            s,
            before,
            i,
        )) is Ok by {
            assert(before.take(i) =~= moves.take(i));
            assert(result_at(s, moves, i) is Ok);
        }
        lemma_turn_alternates(s, before);
        assert(moves.take(moves.len() - 1) =~= before);
        assert(result_at(s, moves, moves.len() - 1) is Ok);
    }
}

/// In a game played from the start with accepted moves only, `X` is to move
/// after every even number of moves and `O` after every odd number.
pub proof fn lemma_turn_alternates_from_start(moves: Seq<(usize, usize)>, n: int)
    requires
        all_accepted(initial_state(), moves),
        0 <= n <= moves.len(),
    ensures
        play(initial_state(), moves.take(n)).turn == (if n % 2 == 0 {
            Piece::X
        } else {
            Piece::O
        }),
{
    let prefix = moves.take(n);
    assert forall|i: int| 0 <= i < prefix.len() implies (#[trigger] result_at(
        initial_state(),
        prefix,
        i,
    )) is Ok by {
        assert(prefix.take(i) =~= moves.take(i));
        assert(result_at(initial_state(), moves, i) is Ok);
    }
    lemma_turn_alternates(initial_state(), prefix);
}

/// A finished game refuses every move, whatever its coordinates, with
/// `GameAlreadyOver`, and stays exactly as it is.
pub proof fn lemma_finished_game_refuses_all(s: GameState, moves: Seq<(usize, usize)>)
    requires
        s.outcome is Some,
    ensures
        play(s, moves) == s,
        forall|i: int|
            0 <= i < moves.len() ==> #[trigger] result_at(s, moves, i) == Err::<(), MoveError>(
                MoveError::GameAlreadyOver,
            ),
    decreases moves.len(),
{
    if moves.len() > 0 {
        lemma_finished_game_refuses_all(s, moves.drop_last());
    }
    assert forall|i: int| 0 <= i < moves.len() implies #[trigger] result_at(s, moves, i) == Err::<
        (),
        MoveError,
    >(MoveError::GameAlreadyOver) by {
        lemma_finished_game_refuses_all(s, moves.take(i));
    }
}

/// An outcome, once set, is never taken back or changed: whatever moves
/// follow the ones that ended the game, the outcome is the same.
pub proof fn lemma_outcome_is_final(
    s: GameState,
    first: Seq<(usize, usize)>,
    rest: Seq<(usize, usize)>,
)
    requires
        play(s, first).outcome is Some,
    ensures
        play(s, first + rest).outcome == play(s, first).outcome,
        play(s, first + rest) == play(s, first),
{
    lemma_play_append(s, first, rest);
    lemma_finished_game_refuses_all(play(s, first), rest);
}

/// While the game is going on, a move to a position off the board is refused
/// with `InvalidPosition`, naming the position, and changes nothing; so
/// making it again, any number of times, gives the same each time.
pub proof fn lemma_off_board_refused_each_time(s: GameState, row: usize, col: usize, n: nat)
    requires
        s.outcome is None,
        row >= 3 || col >= 3,
    ensures
        play(s, repeated(row, col, n)) == s,
        forall|i: int|
            0 <= i < n ==> #[trigger] result_at(s, repeated(row, col, n), i) == Err::<
                (),
                MoveError,
            >(MoveError::InvalidPosition { row, col }),
    decreases n,
{
    let moves = repeated(row, col, n);
    if n > 0 {
        let fewer = (n - 1) as nat;
        assert(moves.drop_last() =~= repeated(row, col, fewer));
        lemma_off_board_refused_each_time(s, row, col, fewer);
    }
    assert forall|i: int| 0 <= i < n implies #[trigger] result_at(s, moves, i) == Err::<
        (),
        MoveError,
    >(MoveError::InvalidPosition { row, col }) by {
        assert(moves.take(i) =~= repeated(row, col, i as nat));
        lemma_off_board_refused_each_time(s, row, col, i as nat);
    }
}

/// Every state that a game reaches from the start is well formed.
pub proof fn lemma_play_well_formed(moves: Seq<(usize, usize)>)
    ensures
        play(initial_state(), moves).well_formed(),
    decreases moves.len(),
{
    if moves.len() == 0 {
        lemma_initial_state_well_formed();
    } else {
        lemma_play_well_formed(moves.drop_last());
        lemma_move_preserves_well_formed(
            play(initial_state(), moves.drop_last()),
            moves.last().0,
            moves.last().1,
        );
    }
}

/// In every state that a game reaches from the start, the three ways to end
/// exclude one another, and the board alone tells which one holds: `X` has
/// won exactly if `X` holds a line, `O` has won exactly if `O` holds a line,
/// the two never hold a line at once, and the game is tied exactly if the
/// board is full and neither holds a line.
pub proof fn lemma_outcomes_exclude_one_another(moves: Seq<(usize, usize)>)
    ensures
        ({
            let s = play(initial_state(), moves);
            &&& s.outcome == Some(Winner::X) <==> owns_line(s.board, Piece::X)
            &&& s.outcome == Some(Winner::O) <==> owns_line(s.board, Piece::O)
            &&& s.outcome == Some(Winner::Tie) <==> is_full(s.board) && !owns_line(
                s.board,
                Piece::X,
            ) && !owns_line(s.board, Piece::O)
            &&& !(owns_line(s.board, Piece::X) && owns_line(s.board, Piece::O))
        }),
{
    lemma_play_well_formed(moves);
}

} // verus!
