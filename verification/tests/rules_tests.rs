use morris::board::Board;
use morris::enums::{Color, Phase, State};
use morris::errors::{MovingError, PlacingError, RemovingError};
use morris::game::{Game, Outcome};

fn state_at(board: &Board, position: &str) -> State {
    board.get_node_ref(position).unwrap().state
}

#[test]
fn test_place_unknown_label() {
    let mut board = Board::new();
    assert_eq!(board.place_piece(Color::White, "notaposition"), Err(PlacingError::InvalidPosition));
    assert_eq!(board.place_piece(Color::Black, "notaposition"), Err(PlacingError::InvalidPosition));
    assert_eq!(board.place_piece(Color::White, "a7"), Ok(()));
    assert_eq!(board.place_piece(Color::Black, "notaposition"), Err(PlacingError::InvalidPosition));
    assert_eq!(board.place_piece(Color::White, ""), Err(PlacingError::InvalidPosition));
    assert_eq!(board.place_piece(Color::White, "A7"), Err(PlacingError::InvalidPosition));
}

#[test]
fn test_place_every_position() {
    // every one of the 24 positions accepts a first placement and rejects a
    // second one, whichever color tries it
    let labels = [
        "a7", "d7", "g7", "b6", "d6", "f6", "c5", "d5", "e5", "a4", "b4", "c4", "e4", "f4", "g4",
        "c3", "d3", "e3", "b2", "d2", "f2", "a1", "d1", "g1",
    ];
    for (k, label) in labels.iter().enumerate() {
        let mut board = Board::new();
        let first = if k % 2 == 0 { Color::White } else { Color::Black };
        assert_eq!(board.place_piece(first, label), Ok(()));
        assert_eq!(state_at(&board, label), State::Occupied(first));
        assert_eq!(board.place_piece(first, label), Err(PlacingError::PlaceAtOccupied));
        assert_eq!(board.place_piece(first.other(), label), Err(PlacingError::PlaceAtOccupied));
    }
}

#[test]
fn test_move_precedence() {
    let mut board = Board::new();
    assert_eq!(board.place_piece(Color::White, "a7"), Ok(()));
    assert_eq!(board.place_piece(Color::White, "a4"), Ok(()));
    assert_eq!(board.place_piece(Color::Black, "g1"), Ok(()));

    assert_eq!(board.move_piece(Color::White, "a7", "a8", false), Err(MovingError::InvalidMoveTo));
    assert_eq!(board.move_piece(Color::White, "a1", "d1", false), Err(MovingError::MoveFromEmpty));
    assert_eq!(
        board.move_piece(Color::White, "g1", "d1", false),
        Err(MovingError::MoveFromWrongColor)
    );
    assert_eq!(board.move_piece(Color::White, "a7", "a4", false), Err(MovingError::MoveToOccupied));
    assert_eq!(board.move_piece(Color::White, "a7", "a7", false), Err(MovingError::MoveToSame));
    assert_eq!(board.move_piece(Color::White, "a7", "a1", false), Err(MovingError::NotAdjacent));

    assert_eq!(board.move_piece(Color::White, "a7", "d7", false), Ok(()));
    assert_eq!(state_at(&board, "a7"), State::Empty);
    assert_eq!(state_at(&board, "d7"), State::Occupied(Color::White));
}

#[test]
fn test_game_flying_move() {
    let mut game = Game::new();
    assert_eq!(game.place_piece("d7"), Ok(()));
    game.current = game.current.other();
    assert_eq!(game.place_piece("b4"), Ok(()));
    game.current = game.current.other();

    // white has placed at most 3 pieces, so the move may fly: d7 and d1 are
    // not adjacent, yet the move succeeds
    assert_eq!(game.move_piece("d7", "d1"), Ok(()));
    assert_eq!(game.board.get_node_ref("d7").unwrap().state, State::Empty);
    assert_eq!(game.board.get_node_ref("d1").unwrap().state, State::Occupied(Color::White));
}

#[test]
fn test_all_in_mills_exception() {
    let mut game = Game::new();
    game.current = Color::Black;
    assert_eq!(game.place_piece("a7"), Ok(()));
    assert_eq!(game.place_piece("d7"), Ok(()));
    assert_eq!(game.place_piece("g7"), Ok(()));
    assert!(game.board.in_mill(Color::Black, "d7"));

    game.current = Color::White;
    assert_eq!(game.place_piece("a1"), Ok(()));

    // every black piece sits in the same mill, so mill protection is waived
    // and the removal of a mill member succeeds
    assert_eq!(game.remove_piece("d7"), Ok(()));
    assert_eq!(game.board.get_node_ref("d7").unwrap().state, State::Empty);
    assert_eq!(game.black.placed, 2);
}

#[test]
fn test_mill_protection_with_loose_piece() {
    let mut game = Game::new();
    game.current = Color::Black;
    assert_eq!(game.place_piece("a7"), Ok(()));
    assert_eq!(game.place_piece("d7"), Ok(()));
    assert_eq!(game.place_piece("g7"), Ok(()));
    assert_eq!(game.place_piece("b2"), Ok(()));

    game.current = Color::White;
    // b2 is outside the mill, so protection applies to the mill members
    assert_eq!(game.remove_piece("d7"), Err(RemovingError::RemoveFromMill));
    assert_eq!(game.remove_piece("b2"), Ok(()));
    assert_eq!(game.black.placed, 3);
}

#[test]
fn test_two_pieces_lose() {
    let mut game = Game::new();
    assert_eq!(game.place_piece("a7"), Ok(()));
    assert_eq!(game.place_piece("d7"), Ok(()));
    // white holds only 2 pieces: black wins immediately, even though white
    // could still move
    assert!(game.can_move(Color::White));
    assert_eq!(game.outcome(), Some(Outcome::Victory(Color::Black)));

    let mut game2 = Game::new();
    game2.current = Color::Black;
    assert_eq!(game2.place_piece("a1"), Ok(()));
    assert_eq!(game2.place_piece("d1"), Ok(()));
    game2.current = Color::White;
    assert_eq!(game2.place_piece("a7"), Ok(()));
    assert_eq!(game2.place_piece("d7"), Ok(()));
    assert_eq!(game2.place_piece("g7"), Ok(()));
    // black holds only 2 pieces: white wins
    assert_eq!(game2.outcome(), Some(Outcome::Victory(Color::White)));
}

#[test]
fn test_failed_operations_leave_state_unchanged() {
    let mut game = Game::new();
    assert_eq!(game.place_piece("a7"), Ok(()));
    game.current = game.current.other();
    assert_eq!(game.place_piece("a4"), Ok(()));
    game.current = game.current.other();

    let white_before = (game.white.unplaced, game.white.placed);
    let black_before = (game.black.unplaced, game.black.placed);

    assert_eq!(game.place_piece("a7"), Err(PlacingError::PlaceAtOccupied));
    assert_eq!(game.place_piece("zz9"), Err(PlacingError::InvalidPosition));
    assert_eq!(game.move_piece("a4", "b4"), Err(MovingError::MoveFromWrongColor));
    assert_eq!(game.move_piece("a4", "a4"), Err(MovingError::MoveToSame));
    assert_eq!(game.remove_piece("d7"), Err(RemovingError::RemoveFromEmpty));
    assert_eq!(game.remove_piece("a7"), Err(RemovingError::RemoveFromWrongColor));

    assert_eq!((game.white.unplaced, game.white.placed), white_before);
    assert_eq!((game.black.unplaced, game.black.placed), black_before);
    assert_eq!(game.board.get_node_ref("a7").unwrap().state, State::Occupied(Color::White));
    assert_eq!(game.board.get_node_ref("a4").unwrap().state, State::Occupied(Color::Black));
    assert_eq!(game.current, Color::White);
    assert_eq!(game.phase, Phase::Placing);
}

#[test]
fn test_placement_phase_transition() {
    let mut game = Game::new();
    let whites = ["a7", "d7", "g7", "b6", "d6", "f6", "c5", "d5", "e5"];
    let blacks = ["a4", "b4", "c4", "e4", "f4", "g4", "c3", "d3", "e3"];
    for k in 0..9 {
        assert_eq!(game.phase, Phase::Placing);
        assert!(game.can_continue());
        assert_eq!(game.place_piece(whites[k]), Ok(()));
        game.advance_turn();
        assert_eq!(game.place_piece(blacks[k]), Ok(()));
        game.advance_turn();
    }
    assert_eq!(game.white.unplaced, 0);
    assert_eq!(game.black.unplaced, 0);
    assert_eq!(game.phase, Phase::Moving);

    // in this filled-up position every white piece is blocked while black
    // can still step down to the first rank: black wins on mobility
    assert!(!game.can_move(Color::White));
    assert!(game.can_move(Color::Black));
    assert!(!game.can_continue());
    assert_eq!(game.outcome(), Some(Outcome::Victory(Color::Black)));
}

#[test]
fn test_outcome_open_game() {
    let mut game = Game::new();
    assert_eq!(game.place_piece("a7"), Ok(()));
    game.advance_turn();
    assert_eq!(game.place_piece("g1"), Ok(()));
    game.advance_turn();
    assert_eq!(game.place_piece("d7"), Ok(()));
    game.advance_turn();
    assert_eq!(game.place_piece("d1"), Ok(()));
    game.advance_turn();
    assert_eq!(game.place_piece("a1"), Ok(()));
    game.advance_turn();
    assert_eq!(game.place_piece("g7"), Ok(()));
    // three placed pieces each and open positions everywhere: nobody has
    // won and nobody is stuck
    assert_eq!(game.outcome(), None);
}
