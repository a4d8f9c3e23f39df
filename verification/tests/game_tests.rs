use morris::enums::{Color, State};
use morris::game::Game;

fn state_at(game: &Game, position: &str) -> State {
    game.board.get_node_ref(position).unwrap().state
}

#[test]
fn game_test_place() {
    let mut game = Game::new();

    assert_eq!(game.place_piece("a7"), Ok(()));
    game.current = game.current.other();
    assert_eq!(state_at(&game, "a7"), State::Occupied(Color::White));

    assert_eq!(game.place_piece("a1"), Ok(()));
    game.current = game.current.other();
    assert_eq!(state_at(&game, "a1"), State::Occupied(Color::Black));

    assert_eq!(game.place_piece("d7"), Ok(()));
    game.current = game.current.other();
    assert_eq!(state_at(&game, "d7"), State::Occupied(Color::White));

    assert_eq!(game.place_piece("d1"), Ok(()));
    game.current = game.current.other();
    assert_eq!(state_at(&game, "d1"), State::Occupied(Color::Black));

    assert_eq!(game.place_piece("g7"), Ok(()));
    game.current = game.current.other();
    assert_eq!(state_at(&game, "g7"), State::Occupied(Color::White));
    assert!(game.board.in_mill(Color::White, "g7"));
}

#[test]
fn game_test_move() {
    let mut game = Game::new();

    assert_eq!(game.place_piece("a7"), Ok(()));
    game.current = game.current.other();
    assert_eq!(game.place_piece("a1"), Ok(()));
    game.current = game.current.other();

    assert_eq!(game.move_piece("a7", "a4"), Ok(()));
    game.current = game.current.other();
    assert_eq!(state_at(&game, "a7"), State::Empty);
    assert_eq!(state_at(&game, "a4"), State::Occupied(Color::White));

    assert_eq!(game.move_piece("a1", "d1"), Ok(()));
    game.current = game.current.other();
    assert_eq!(state_at(&game, "a1"), State::Empty);
    assert_eq!(state_at(&game, "d1"), State::Occupied(Color::Black));
}

#[test]
fn game_test_remove() {
    let mut game = Game::new();

    assert_eq!(game.place_piece("a7"), Ok(()));
    game.current = game.current.other();
    assert_eq!(game.place_piece("a1"), Ok(()));
    game.current = game.current.other();

    assert_eq!(game.place_piece("d7"), Ok(()));
    game.current = game.current.other();
    assert_eq!(game.place_piece("d1"), Ok(()));
    game.current = game.current.other();

    assert_eq!(game.place_piece("g7"), Ok(()));
    assert!(game.board.in_mill(Color::White, "g7"));
    assert_eq!(game.remove_piece("d1"), Ok(()));
    assert_eq!(state_at(&game, "d1"), State::Empty);

    game.current = game.current.other();
}

#[test]
fn game_test_can_move() {
    let mut game = Game::new();

    assert_eq!(game.place_piece("a1"), Ok(()));
    assert_eq!(game.place_piece("a4"), Ok(()));
    assert_eq!(game.place_piece("a7"), Ok(()));
    assert_eq!(game.place_piece("b4"), Ok(()));

    game.current = game.current.other();
    assert_eq!(game.place_piece("d1"), Ok(()));
    assert_eq!(game.place_piece("d7"), Ok(()));
    assert_eq!(game.place_piece("b2"), Ok(()));
    assert_eq!(game.place_piece("b6"), Ok(()));
    assert_eq!(game.place_piece("c4"), Ok(()));

    assert!(game.can_move(Color::White) == false);
    assert!(game.can_move(Color::Black));
}

#[test]
fn test_can_move_flying() {
    let mut game = Game::new();

    assert_eq!(game.place_piece("a1"), Ok(()));
    assert_eq!(game.place_piece("a4"), Ok(()));
    assert_eq!(game.place_piece("a7"), Ok(()));

    game.current = game.current.other();
    assert_eq!(game.place_piece("d1"), Ok(()));
    assert_eq!(game.place_piece("b4"), Ok(()));
    assert_eq!(game.place_piece("d7"), Ok(()));

    assert!(game.can_move(Color::White));
    assert!(game.can_move(Color::Black));
}

#[test]
fn test_can_play() {
    let mut game = Game::new();

    assert_eq!(game.place_piece("a1"), Ok(()));
    assert_eq!(game.place_piece("a4"), Ok(()));
    assert_eq!(game.place_piece("a7"), Ok(()));

    game.current = game.current.other();
    assert_eq!(game.place_piece("d1"), Ok(()));
    assert_eq!(game.place_piece("b4"), Ok(()));
    assert_eq!(game.place_piece("d7"), Ok(()));

    assert!(game.can_play(Color::White));
    assert!(game.can_play(Color::Black));

    game.current = game.current.other();
    assert_eq!(game.remove_piece("b4"), Ok(()));

    assert!(game.can_play(Color::Black) == false);
}
