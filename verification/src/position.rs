//! The 24 board positions and their fixed directional topology.
//!
//! A position is named by a two-character label: a column letter `a`-`g`
//! and a row digit `1`-`7` (e.g. `"a7"`). Internally each position is
//! identified by a fixed index `0..24`; the tables below define the label
//! of each index and the up-to-four directional neighbours of each index.

use vstd::prelude::*;
use vstd::string::StrSliceExecFns;
use crate::enums::Direction;

verus! {

/// The index, if any, of the position whose label is the two characters
/// `col` and `row`.
pub open spec fn pair_index(col: char, row: char) -> Option<int> {
    if col == 'a' && row == '7' {
        Some(0)
    } else if col == 'd' && row == '7' {
        Some(1)
    } else if col == 'g' && row == '7' {
        Some(2)
    } else if col == 'b' && row == '6' {
        Some(3)
    } else if col == 'd' && row == '6' {
        Some(4)
    } else if col == 'f' && row == '6' {
        Some(5)
    } else if col == 'c' && row == '5' {
        Some(6)
    } else if col == 'd' && row == '5' {
        Some(7)
    } else if col == 'e' && row == '5' {
        Some(8)
    } else if col == 'a' && row == '4' {
        Some(9)
    } else if col == 'b' && row == '4' {
        Some(10)
    } else if col == 'c' && row == '4' {
        Some(11)
    } else if col == 'e' && row == '4' {
        Some(12)
    } else if col == 'f' && row == '4' {
        Some(13)
    } else if col == 'g' && row == '4' {
        Some(14)
    } else if col == 'c' && row == '3' {
        Some(15)
    } else if col == 'd' && row == '3' {
        Some(16)
    } else if col == 'e' && row == '3' {
        Some(17)
    } else if col == 'b' && row == '2' {
        Some(18)
    } else if col == 'd' && row == '2' {
        Some(19)
    } else if col == 'f' && row == '2' {
        Some(20)
    } else if col == 'a' && row == '1' {
        Some(21)
    } else if col == 'd' && row == '1' {
        Some(22)
    } else if col == 'g' && row == '1' {
        Some(23)
    } else {
        None
    }
}

/// The index of the position labelled `s`, or `None` when `s` is not one of
/// the 24 known labels.
pub open spec fn pos_index(s: Seq<char>) -> Option<int> {
    if s.len() == 2 {
        pair_index(s[0], s[1])
    } else {
        None
    }
}

/// The label of the position with index `i` (for `0 <= i < 24`).
pub open spec fn label_of(i: int) -> Seq<char> {
    if i == 0 {
        seq!['a', '7']
    } else if i == 1 {
        seq!['d', '7']
    } else if i == 2 {
        seq!['g', '7']
    } else if i == 3 {
        seq!['b', '6']
    } else if i == 4 {
        seq!['d', '6']
    } else if i == 5 {
        seq!['f', '6']
    } else if i == 6 {
        seq!['c', '5']
    } else if i == 7 {
        seq!['d', '5']
    } else if i == 8 {
        seq!['e', '5']
    } else if i == 9 {
        seq!['a', '4']
    } else if i == 10 {
        seq!['b', '4']
    } else if i == 11 {
        seq!['c', '4']
    } else if i == 12 {
        seq!['e', '4']
    } else if i == 13 {
        seq!['f', '4']
    } else if i == 14 {
        seq!['g', '4']
    } else if i == 15 {
        seq!['c', '3']
    } else if i == 16 {
        seq!['d', '3']
    } else if i == 17 {
        seq!['e', '3']
    } else if i == 18 {
        seq!['b', '2']
    } else if i == 19 {
        seq!['d', '2']
    } else if i == 20 {
        seq!['f', '2']
    } else if i == 21 {
        seq!['a', '1']
    } else if i == 22 {
        seq!['d', '1']
    } else if i == 23 {
        seq!['g', '1']
    } else {
        seq![]
    }
}

/// Each label names exactly one position: a string that parses to index `i`
/// is the label of `i`, and the label of `i` parses back to `i`.
pub proof fn lemma_pos_index_inverse(s: Seq<char>)
    requires
        pos_index(s) is Some,
    ensures
        s == label_of(pos_index(s).unwrap()),
        pos_index(label_of(pos_index(s).unwrap())) == pos_index(s),
{
    let i = pos_index(s).unwrap();
    assert(s =~= label_of(i));
}

/// The label table and the parse function agree on every index.
pub proof fn lemma_label_of_index(i: int)
    requires
        0 <= i < 24,
    ensures
        pos_index(label_of(i)) == Some(i),
{
}

/// Parses a position label: returns the index of the position named by `s`,
/// or `None` when `s` is not one of the 24 known labels.
pub fn parse_position(s: &str) -> (r: Option<usize>)
    ensures
        match r {
            Some(u) => u < 24 && pos_index(s@) == Some(u as int),
            None => pos_index(s@) is None,
        },
{
    if s.unicode_len() != 2 {
        return None;
    }
    let col = s.get_char(0);
    let row = s.get_char(1);
    if col == 'a' && row == '7' {
        Some(0)
    } else if col == 'd' && row == '7' {
        Some(1)
    } else if col == 'g' && row == '7' {
        Some(2)
    } else if col == 'b' && row == '6' {
        Some(3)
    } else if col == 'd' && row == '6' {
        Some(4)
    } else if col == 'f' && row == '6' {
        Some(5)
    } else if col == 'c' && row == '5' {
        Some(6)
    } else if col == 'd' && row == '5' {
        Some(7)
    } else if col == 'e' && row == '5' {
        Some(8)
    } else if col == 'a' && row == '4' {
        Some(9)
    } else if col == 'b' && row == '4' {
        Some(10)
    } else if col == 'c' && row == '4' {
        Some(11)
    } else if col == 'e' && row == '4' {
        Some(12)
    } else if col == 'f' && row == '4' {
        Some(13)
    } else if col == 'g' && row == '4' {
        Some(14)
    } else if col == 'c' && row == '3' {
        Some(15)
    } else if col == 'd' && row == '3' {
        Some(16)
    } else if col == 'e' && row == '3' {
        Some(17)
    } else if col == 'b' && row == '2' {
        Some(18)
    } else if col == 'd' && row == '2' {
        Some(19)
    } else if col == 'f' && row == '2' {
        Some(20)
    } else if col == 'a' && row == '1' {
        Some(21)
    } else if col == 'd' && row == '1' {
        Some(22)
    } else if col == 'g' && row == '1' {
        Some(23)
    } else {
        None
    }
}

/// The neighbour above position `i`, if any.
pub open spec fn above_of(i: int) -> Option<int> {
    if i == 4 {
        Some(1)
    } else if i == 7 {
        Some(4)
    } else if i == 9 {
        Some(0)
    } else if i == 10 {
        Some(3)
    } else if i == 11 {
        Some(6)
    } else if i == 12 {
        Some(8)
    } else if i == 13 {
        Some(5)
    } else if i == 14 {
        Some(2)
    } else if i == 15 {
        Some(11)
    } else if i == 17 {
        Some(12)
    } else if i == 18 {
        Some(10)
    } else if i == 19 {
        Some(16)
    } else if i == 20 {
        Some(13)
    } else if i == 21 {
        Some(9)
    } else if i == 22 {
        Some(19)
    } else if i == 23 {
        Some(14)
    } else {
        None
    }
}

/// The neighbour to the left of position `i`, if any.
pub open spec fn left_of(i: int) -> Option<int> {
    if i == 1 {
        Some(0)
    } else if i == 2 {
        Some(1)
    } else if i == 4 {
        Some(3)
    } else if i == 5 {
        Some(4)
    } else if i == 7 {
        Some(6)
    } else if i == 8 {
        Some(7)
    } else if i == 10 {
        Some(9)
    } else if i == 11 {
        Some(10)
    } else if i == 13 {
        Some(12)
    } else if i == 14 {
        Some(13)
    } else if i == 16 {
        Some(15)
    } else if i == 17 {
        Some(16)
    } else if i == 19 {
        Some(18)
    } else if i == 20 {
        Some(19)
    } else if i == 22 {
        Some(21)
    } else if i == 23 {
        Some(22)
    } else {
        None
    }
}

/// The neighbour to the right of position `i`, if any.
pub open spec fn right_of(i: int) -> Option<int> {
    if i == 0 {
        Some(1)
    } else if i == 1 {
        Some(2)
    } else if i == 3 {
        Some(4)
    } else if i == 4 {
        Some(5)
    } else if i == 6 {
        Some(7)
    } else if i == 7 {
        Some(8)
    } else if i == 9 {
        Some(10)
    } else if i == 10 {
        Some(11)
    } else if i == 12 {
        Some(13)
    } else if i == 13 {
        Some(14)
    } else if i == 15 {
        Some(16)
    } else if i == 16 {
        Some(17)
    } else if i == 18 {
        Some(19)
    } else if i == 19 {
        Some(20)
    } else if i == 21 {
        Some(22)
    } else if i == 22 {
        Some(23)
    } else {
        None
    }
}

/// The neighbour below position `i`, if any.
pub open spec fn below_of(i: int) -> Option<int> {
    if i == 0 {
        Some(9)
    } else if i == 1 {
        Some(4)
    } else if i == 2 {
        Some(14)
    } else if i == 3 {
        Some(10)
    } else if i == 4 {
        Some(7)
    } else if i == 5 {
        Some(13)
    } else if i == 6 {
        Some(11)
    } else if i == 8 {
        Some(12)
    } else if i == 9 {
        Some(21)
    } else if i == 10 {
        Some(18)
    } else if i == 11 {
        Some(15)
    } else if i == 12 {
        Some(17)
    } else if i == 13 {
        Some(20)
    } else if i == 14 {
        Some(23)
    } else if i == 16 {
        Some(19)
    } else if i == 19 {
        Some(22)
    } else {
        None
    }
}

/// The neighbour of position `i` in direction `d`, if any.
pub open spec fn nbr(i: int, d: Direction) -> Option<int> {
    match d {
        Direction::Above => above_of(i),
        Direction::Left => left_of(i),
        Direction::Right => right_of(i),
        Direction::Below => below_of(i),
    }
}

/// Two positions are adjacent when one is the other's neighbour in some
/// direction.
pub open spec fn is_adjacent(i: int, j: int) -> bool {
    nbr(i, Direction::Above) == Some(j) || nbr(i, Direction::Left) == Some(j) || nbr(
        i,
        Direction::Right,
    ) == Some(j) || nbr(i, Direction::Below) == Some(j)
}

} // verus!
