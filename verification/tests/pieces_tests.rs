use std::collections::HashSet;
use morris::pieces::Pieces;

fn held_set(pieces: &Pieces) -> HashSet<String> {
    pieces.positions.iter().cloned().collect()
}

#[test]
fn pieces_test_place() {
    let mut pieces = Pieces::new();

    assert_eq!(pieces.unplaced, 9);
    assert_eq!(pieces.placed, 0);
    assert!(pieces.positions.is_empty());

    pieces.place_piece("a7".to_string());
    assert_eq!(pieces.unplaced, 8);
    assert_eq!(pieces.placed, 1);
    assert_eq!(held_set(&pieces), ["a7".to_string()].iter().cloned().collect());

    pieces.place_piece("g7".to_string());
    assert_eq!(pieces.unplaced, 7);
    assert_eq!(pieces.placed, 2);
    assert_eq!(
        held_set(&pieces),
        ["a7".to_string(), "g7".to_string()].iter().cloned().collect()
    );

    pieces.place_piece("a1".to_string());
    pieces.place_piece("a4".to_string());
    pieces.place_piece("g1".to_string());
    pieces.place_piece("g4".to_string());
    pieces.place_piece("d1".to_string());
    pieces.place_piece("d7".to_string());
    pieces.place_piece("d3".to_string());
    assert_eq!(pieces.unplaced, 0);
    assert_eq!(pieces.placed, 9);
    assert_eq!(
        held_set(&pieces),
        [
            "a1".to_string(),
            "a4".to_string(),
            "a7".to_string(),
            "g1".to_string(),
            "g4".to_string(),
            "g7".to_string(),
            "d1".to_string(),
            "d3".to_string(),
            "d7".to_string()
        ]
        .iter()
        .cloned()
        .collect()
    );

    pieces.place_piece("d6".to_string());
    assert_eq!(pieces.unplaced, 0);
    assert_eq!(pieces.placed, 9);
    assert_eq!(
        held_set(&pieces),
        [
            "a1".to_string(),
            "a4".to_string(),
            "a7".to_string(),
            "g1".to_string(),
            "g4".to_string(),
            "g7".to_string(),
            "d1".to_string(),
            "d3".to_string(),
            "d7".to_string()
        ]
        .iter()
        .cloned()
        .collect()
    );
}

#[test]
fn pieces_test_remove() {
    let mut pieces = Pieces::new();
    pieces.place_piece("a7".to_string());
    assert_eq!(pieces.unplaced, 8);
    assert_eq!(pieces.placed, 1);
    assert_eq!(held_set(&pieces), ["a7".to_string()].iter().cloned().collect());

    pieces.remove_piece("a7".to_string());
    assert_eq!(pieces.unplaced, 8);
    assert_eq!(pieces.placed, 0);
    assert!(pieces.positions.is_empty());

    pieces.place_piece("a1".to_string());
    pieces.place_piece("a4".to_string());
    pieces.place_piece("d1".to_string());
    assert_eq!(pieces.unplaced, 5);
    assert_eq!(pieces.placed, 3);
    assert_eq!(
        held_set(&pieces),
        ["a1".to_string(), "a4".to_string(), "d1".to_string()].iter().cloned().collect()
    );

    pieces.remove_piece("a1".to_string());
    pieces.remove_piece("a4".to_string());
    assert_eq!(pieces.unplaced, 5);
    assert_eq!(pieces.placed, 1);
    assert_eq!(held_set(&pieces), ["d1".to_string()].iter().cloned().collect());

    pieces.remove_piece("d1".to_string());
    assert_eq!(pieces.unplaced, 5);
    assert_eq!(pieces.placed, 0);
    assert!(pieces.positions.is_empty());

    pieces.remove_piece("d6".to_string());
    assert_eq!(pieces.unplaced, 5);
    assert_eq!(pieces.placed, 0);
    assert!(pieces.positions.is_empty());
}

#[test]
fn pieces_test_move() {
    let mut pieces = Pieces::new();
    pieces.place_piece("a1".to_string());
    pieces.place_piece("d7".to_string());
    assert_eq!(pieces.unplaced, 7);
    assert_eq!(pieces.placed, 2);
    assert_eq!(
        held_set(&pieces),
        ["a1".to_string(), "d7".to_string()].iter().cloned().collect()
    );

    pieces.move_piece("a1".to_string(), "a4".to_string());
    assert_eq!(pieces.unplaced, 7);
    assert_eq!(pieces.placed, 2);
    assert_eq!(
        held_set(&pieces),
        ["a4".to_string(), "d7".to_string()].iter().cloned().collect()
    );

    pieces.move_piece("a4".to_string(), "a7".to_string());
    assert_eq!(pieces.unplaced, 7);
    assert_eq!(pieces.placed, 2);
    assert_eq!(
        held_set(&pieces),
        ["a7".to_string(), "d7".to_string()].iter().cloned().collect()
    );
}
