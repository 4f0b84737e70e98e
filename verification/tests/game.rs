use tictactoe::game::{Game, MoveError, Piece, Tile, Tiles, Winner, BOARD_SIZE};

const E: Tile = None;
const X: Tile = Some(Piece::X);
const O: Tile = Some(Piece::O);

fn play(moves: &[(usize, usize)]) -> Game {
    let mut game = Game::new();
    for &(row, col) in moves {
        game.make_move(row, col).unwrap();
    }
    game
}

#[test]
fn col_3_o_wins() {
    let mut game = Game::new();
    game.make_move(0, 0).unwrap();
    game.make_move(2, 2).unwrap();
    game.make_move(2, 1).unwrap();
    game.make_move(1, 2).unwrap();
    game.make_move(0, 1).unwrap();
    game.make_move(0, 2).unwrap();
    assert_eq!(game.winner().unwrap(), Winner::O);
}

#[test]
fn diag_1_x_wins() {
    let mut game = Game::new();
    game.make_move(0, 0).unwrap();
    game.make_move(0, 1).unwrap();
    game.make_move(2, 2).unwrap();
    game.make_move(2, 1).unwrap();
    game.make_move(1, 1).unwrap();
    assert_eq!(game.winner().unwrap(), Winner::X);
}

#[test]
fn diag_2_x_wins() {
    let mut game = Game::new();
    game.make_move(0, 2).unwrap();
    game.make_move(0, 1).unwrap();
    game.make_move(2, 0).unwrap();
    game.make_move(2, 1).unwrap();
    game.make_move(1, 1).unwrap();
    assert_eq!(game.winner().unwrap(), Winner::X);
}

#[test]
fn row_2_o_wins() {
    let mut game = Game::new();
    game.make_move(0, 0).unwrap();
    game.make_move(1, 0).unwrap();
    game.make_move(2, 1).unwrap();
    game.make_move(1, 1).unwrap();
    game.make_move(0, 2).unwrap();
    game.make_move(1, 2).unwrap();
    assert_eq!(game.winner().unwrap(), Winner::O);
}

#[test]
fn tie() {
    let mut game = Game::new();
    game.make_move(0, 0).unwrap();
    game.make_move(0, 1).unwrap();
    game.make_move(0, 2).unwrap();
    game.make_move(2, 0).unwrap();
    game.make_move(2, 1).unwrap();
    game.make_move(2, 2).unwrap();
    game.make_move(1, 0).unwrap();
    game.make_move(1, 2).unwrap();
    game.make_move(1, 1).unwrap();
    assert_eq!(game.winner().unwrap(), Winner::Tie);
}

#[test]
fn board_size_is_three() {
    assert_eq!(BOARD_SIZE, 3);
    let game = Game::new();
    assert_eq!(game.tiles().len(), 3);
    assert_eq!(game.tiles()[0].len(), 3);
}

#[test]
fn other_piece_swaps_and_is_an_involution() {
    assert_eq!(Piece::X.other(), Piece::O);
    assert_eq!(Piece::O.other(), Piece::X);
    for p in [Piece::X, Piece::O] {
        assert_eq!(p.other().other(), p);
        assert_ne!(p.other(), p);
    }
}

#[test]
fn new_game_is_empty_with_x_to_move() {
    let game = Game::new();
    assert_eq!(*game.tiles(), [[E; 3]; 3]);
    assert_eq!(game.current_piece(), Piece::X);
    assert_eq!(game.winner(), None);
    assert!(!game.is_finished());
}

#[test]
fn accepted_move_places_piece_and_passes_turn() {
    let mut game = Game::new();
    assert_eq!(game.make_move(1, 2), Ok(()));
    assert_eq!(*game.tiles(), [[E, E, E], [E, E, X], [E, E, E]]);
    assert_eq!(game.current_piece(), Piece::O);
    assert_eq!(game.winner(), None);
    assert_eq!(game.make_move(2, 0), Ok(()));
    assert_eq!(*game.tiles(), [[E, E, E], [E, E, X], [O, E, E]]);
    assert_eq!(game.current_piece(), Piece::X);
    assert!(!game.is_finished());
}

#[test]
fn turn_alternates_over_accepted_moves() {
    let moves = [(0, 0), (0, 1), (0, 2), (2, 0), (2, 1), (2, 2), (1, 0), (1, 2), (1, 1)];
    let mut game = Game::new();
    for (i, &(row, col)) in moves.iter().enumerate() {
        let expected = if i % 2 == 0 { Piece::X } else { Piece::O };
        assert_eq!(game.current_piece(), expected);
        assert_eq!(game.make_move(row, col), Ok(()));
        assert_eq!(game.tiles()[row][col], Some(expected));
        assert_eq!(game.current_piece(), expected.other());
    }
}

#[test]
fn refused_move_does_not_pass_the_turn() {
    let mut game = Game::new();
    game.make_move(0, 0).unwrap();
    assert_eq!(game.current_piece(), Piece::O);
    assert!(game.make_move(0, 0).is_err());
    assert_eq!(game.current_piece(), Piece::O);
    assert!(game.make_move(0, 3).is_err());
    assert_eq!(game.current_piece(), Piece::O);
}

#[test]
fn o_wins_with_the_middle_row() {
    let moves = [(0, 0), (1, 0), (2, 1), (1, 1), (0, 2), (1, 2)];
    let mut game = Game::new();
    for &(row, col) in &moves[..5] {
        assert_eq!(game.make_move(row, col), Ok(()));
        assert_eq!(game.winner(), None);
        assert!(!game.is_finished());
    }
    assert_eq!(game.make_move(1, 2), Ok(()));
    assert_eq!(game.winner(), Some(Winner::O));
    assert!(game.is_finished());
    assert_eq!(*game.tiles(), [[X, E, X], [O, O, O], [E, X, E]]);
}

#[test]
fn x_wins_with_the_main_diagonal() {
    let mut game = play(&[(0, 0), (0, 1), (2, 2), (2, 1)]);
    assert_eq!(game.winner(), None);
    assert_eq!(game.make_move(1, 1), Ok(()));
    assert_eq!(game.winner(), Some(Winner::X));
    assert!(game.is_finished());
    assert_eq!(*game.tiles(), [[X, O, E], [E, X, E], [E, O, X]]);
}

#[test]
fn anti_diagonal_win_through_the_corner() {
    // The last piece goes on a corner of the anti-diagonal, not on the centre.
    let mut game = play(&[(1, 1), (0, 0), (2, 0), (0, 1)]);
    assert_eq!(game.winner(), None);
    assert_eq!(game.make_move(0, 2), Ok(()));
    assert_eq!(game.winner(), Some(Winner::X));
}

#[test]
fn column_win_for_x() {
    let game = play(&[(0, 1), (0, 0), (1, 1), (2, 2), (2, 1)]);
    assert_eq!(game.winner(), Some(Winner::X));
}

#[test]
fn full_board_without_a_line_is_a_tie() {
    let moves = [(0, 0), (0, 1), (0, 2), (2, 0), (2, 1), (2, 2), (1, 0), (1, 2), (1, 1)];
    let mut game = Game::new();
    for &(row, col) in &moves[..8] {
        assert_eq!(game.make_move(row, col), Ok(()));
        assert_eq!(game.winner(), None);
    }
    assert_eq!(game.make_move(1, 1), Ok(()));
    assert_eq!(game.winner(), Some(Winner::Tie));
    assert!(game.is_finished());
    let tiles = *game.tiles();
    assert_eq!(tiles, [[X, O, X], [X, X, O], [O, X, O]]);
    assert!(tiles.iter().all(|row| row.iter().all(|tile| tile.is_some())));
    let lines: [[(usize, usize); 3]; 8] = [
        [(0, 0), (0, 1), (0, 2)],
        [(1, 0), (1, 1), (1, 2)],
        [(2, 0), (2, 1), (2, 2)],
        [(0, 0), (1, 0), (2, 0)],
        [(0, 1), (1, 1), (2, 1)],
        [(0, 2), (1, 2), (2, 2)],
        [(0, 0), (1, 1), (2, 2)],
        [(0, 2), (1, 1), (2, 0)],
    ];
    for line in lines {
        let [a, b, c] = line.map(|(row, col)| tiles[row][col]);
        assert!(!(a == b && b == c));
    }
}

#[test]
fn full_board_is_a_tie_only_without_a_line() {
    let game = play(&[(0, 0), (0, 1), (0, 2), (1, 1), (1, 0), (1, 2), (2, 1), (2, 0), (2, 2)]);
    assert_eq!(*game.tiles(), [[X, O, X], [X, O, O], [O, X, X]]);
    assert_eq!(game.winner(), Some(Winner::Tie));
    let game = play(&[(0, 0), (0, 1), (0, 2), (1, 0), (1, 1), (1, 2), (2, 1), (2, 0), (2, 2)]);
    assert_eq!(*game.tiles(), [[X, O, X], [O, X, O], [O, X, X]]);
    assert_eq!(game.winner(), Some(Winner::X));
}

#[test]
fn occupied_tile_is_refused() {
    let mut game = Game::new();
    assert_eq!(game.make_move(0, 0), Ok(()));
    let before = *game.tiles();
    assert_eq!(
        game.make_move(0, 0),
        Err(MoveError::TileNotEmpty { other_piece: Piece::X, row: 0, col: 0 })
    );
    assert_eq!(*game.tiles(), before);
    assert_eq!(*game.tiles(), [[X, E, E], [E, E, E], [E, E, E]]);
    assert_eq!(game.current_piece(), Piece::O);
    assert_eq!(game.winner(), None);
}

#[test]
fn occupied_tile_names_the_piece_on_it() {
    let mut game = play(&[(0, 0), (1, 1)]);
    assert_eq!(
        game.make_move(1, 1),
        Err(MoveError::TileNotEmpty { other_piece: Piece::O, row: 1, col: 1 })
    );
    assert_eq!(
        game.make_move(0, 0),
        Err(MoveError::TileNotEmpty { other_piece: Piece::X, row: 0, col: 0 })
    );
}

#[test]
fn position_off_the_board_is_refused() {
    let mut game = Game::new();
    assert_eq!(game.make_move(3, 0), Err(MoveError::InvalidPosition { row: 3, col: 0 }));
    assert_eq!(*game.tiles(), [[E; 3]; 3]);
    assert_eq!(game.current_piece(), Piece::X);
    assert_eq!(game.winner(), None);
}

#[test]
fn position_off_the_board_is_refused_each_time() {
    let mut game = play(&[(1, 1)]);
    let before = *game.tiles();
    for _ in 0..5 {
        assert_eq!(game.make_move(0, 3), Err(MoveError::InvalidPosition { row: 0, col: 3 }));
        assert_eq!(*game.tiles(), before);
        assert_eq!(game.current_piece(), Piece::O);
        assert_eq!(game.winner(), None);
    }
    assert_eq!(
        game.make_move(usize::MAX, usize::MAX),
        Err(MoveError::InvalidPosition { row: usize::MAX, col: usize::MAX })
    );
    assert_eq!(game.make_move(3, 3), Err(MoveError::InvalidPosition { row: 3, col: 3 }));
    assert_eq!(*game.tiles(), before);
}

#[test]
fn finished_game_refuses_every_move() {
    let mut game = play(&[(0, 0), (0, 1), (2, 2), (2, 1), (1, 1)]);
    assert_eq!(game.winner(), Some(Winner::X));
    let before = *game.tiles();
    let turn = game.current_piece();
    // A free tile, a taken tile, and positions off the board.
    for (row, col) in [(0, 2), (0, 0), (3, 0), (0, 3), (7, 9)] {
        assert_eq!(game.make_move(row, col), Err(MoveError::GameAlreadyOver));
        assert_eq!(*game.tiles(), before);
        assert_eq!(game.current_piece(), turn);
        assert_eq!(game.winner(), Some(Winner::X));
        assert!(game.is_finished());
    }
}

#[test]
fn tied_game_refuses_every_move() {
    let mut game =
        play(&[(0, 0), (0, 1), (0, 2), (2, 0), (2, 1), (2, 2), (1, 0), (1, 2), (1, 1)]);
    assert_eq!(game.make_move(1, 1), Err(MoveError::GameAlreadyOver));
    assert_eq!(game.make_move(5, 5), Err(MoveError::GameAlreadyOver));
    assert_eq!(game.winner(), Some(Winner::Tie));
}

#[test]
fn off_the_board_comes_before_occupied() {
    let mut game = play(&[(0, 0)]);
    assert_eq!(game.make_move(0, 3), Err(MoveError::InvalidPosition { row: 0, col: 3 }));
    assert_eq!(game.make_move(3, 0), Err(MoveError::InvalidPosition { row: 3, col: 0 }));
}

#[test]
fn clone_is_an_independent_copy() {
    let mut game = play(&[(0, 0), (1, 1)]);
    let copy = game.clone();
    assert_eq!(*copy.tiles(), *game.tiles());
    assert_eq!(copy.current_piece(), game.current_piece());
    assert_eq!(copy.winner(), game.winner());
    game.make_move(2, 2).unwrap();
    assert_eq!(copy.tiles()[2][2], None);
    assert_eq!(game.tiles()[2][2], X);
}

#[test]
fn check_winner_wants_three_equal_pieces() {
    assert_eq!(Game::check_winner(&[X, X, X]), Some(Winner::X));
    assert_eq!(Game::check_winner(&[O, O, O]), Some(Winner::O));
    assert_eq!(Game::check_winner(&[E, E, E]), None);
    assert_eq!(Game::check_winner(&[X, X, O]), None);
    assert_eq!(Game::check_winner(&[X, O, X]), None);
    assert_eq!(Game::check_winner(&[O, X, X]), None);
    assert_eq!(Game::check_winner(&[X, X, E]), None);
    assert_eq!(Game::check_winner(&[E, O, O]), None);
}

#[test]
fn all_occupied_wants_every_tile() {
    assert!(!Game::all_occupied(&[[E; 3]; 3]));
    assert!(Game::all_occupied(&[[X, O, X], [X, X, O], [O, X, O]]));
    assert!(!Game::all_occupied(&[[X, O, X], [X, X, O], [O, X, E]]));
    assert!(!Game::all_occupied(&[[E, O, X], [X, X, O], [O, X, O]]));
    assert!(!Game::all_occupied(&[[X, O, X], [X, E, O], [O, X, O]]));
}

#[test]
fn update_winner_looks_only_at_lines_through_the_tile() {
    let tiles: Tiles = [[X, X, X], [O, O, E], [E, E, E]];
    for col in 0..3 {
        assert_eq!(Game::update_winner(&tiles, None, 0, col), Some(Winner::X));
    }
    // Row 0 is complete, but it does not pass through these tiles.
    assert_eq!(Game::update_winner(&tiles, None, 1, 0), None);
    assert_eq!(Game::update_winner(&tiles, None, 1, 1), None);
    assert_eq!(Game::update_winner(&tiles, None, 2, 2), None);
}

#[test]
fn update_winner_takes_a_diagonal_only_through_its_tiles() {
    let main: Tiles = [[X, O, E], [E, X, O], [E, E, X]];
    assert_eq!(Game::update_winner(&main, None, 0, 0), Some(Winner::X));
    assert_eq!(Game::update_winner(&main, None, 1, 1), Some(Winner::X));
    assert_eq!(Game::update_winner(&main, None, 2, 2), Some(Winner::X));
    assert_eq!(Game::update_winner(&main, None, 0, 1), None);
    assert_eq!(Game::update_winner(&main, None, 2, 0), None);
    let anti: Tiles = [[X, X, O], [E, O, E], [O, E, X]];
    assert_eq!(Game::update_winner(&anti, None, 0, 2), Some(Winner::O));
    assert_eq!(Game::update_winner(&anti, None, 1, 1), Some(Winner::O));
    assert_eq!(Game::update_winner(&anti, None, 2, 0), Some(Winner::O));
    assert_eq!(Game::update_winner(&anti, None, 0, 0), None);
    assert_eq!(Game::update_winner(&anti, None, 2, 2), None);
}

#[test]
fn update_winner_keeps_an_outcome_that_is_set() {
    let tiles: Tiles = [[X, X, X], [O, O, E], [E, E, E]];
    assert_eq!(Game::update_winner(&tiles, Some(Winner::O), 0, 0), Some(Winner::O));
    assert_eq!(Game::update_winner(&tiles, Some(Winner::Tie), 0, 0), Some(Winner::Tie));
    assert_eq!(Game::update_winner(&tiles, Some(Winner::X), 1, 0), Some(Winner::X));
}

#[test]
fn update_winner_prefers_a_line_to_a_tie() {
    let full: Tiles = [[X, O, X], [O, X, O], [O, X, X]];
    assert_eq!(Game::update_winner(&full, None, 2, 2), Some(Winner::X));
    assert_eq!(Game::update_winner(&full, None, 0, 1), Some(Winner::Tie));
    let tied: Tiles = [[X, O, X], [X, X, O], [O, X, O]];
    for row in 0..3 {
        for col in 0..3 {
            assert_eq!(Game::update_winner(&tied, None, row, col), Some(Winner::Tie));
        }
    }
}

#[test]
fn update_winner_takes_the_row_before_the_column() {
    // On a board that no game reaches, the row is looked at first; the
    // column holds the same piece on the shared tile, so it cannot name
    // another winner.
    let tiles: Tiles = [[O, O, O], [O, X, X], [O, X, E]];
    assert_eq!(Game::update_winner(&tiles, None, 0, 0), Some(Winner::O));
    let tiles: Tiles = [[X, O, O], [X, O, E], [X, E, E]];
    assert_eq!(Game::update_winner(&tiles, None, 2, 0), Some(Winner::X));
    assert_eq!(Game::update_winner(&tiles, None, 0, 2), None);
}
