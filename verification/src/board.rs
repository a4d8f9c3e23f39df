//! Board occupancy over the fixed topology: place/move/remove operations
//! with legality checks, and mill (three-in-a-row) detection.
//!
//! The board is modelled as the sequence of the 24 position states (its
//! view); every operation's contract says exactly which result it returns
//! for which inputs and how the view changes, and every failing operation
//! leaves the board unchanged.

use vstd::prelude::*;
use vstd::pervasive::VecAdditionalExecFns;
use crate::enums::{Color, Direction, State};
use crate::errors::{MovingError, PlacingError, RemovingError};
use crate::node::{label_index, node_nbr, Node};
use crate::position::{is_adjacent, nbr, parse_position, pos_index};

verus! {

#[derive(Clone)]
pub struct Board {
    pub nodes: Vec<Node>,
}

/// The node stored at index `i` carries exactly the canonical neighbour
/// references of position `i`.
pub open spec fn node_ok(n: Node, i: int) -> bool {
    &&& node_nbr(n, Direction::Above) == nbr(i, Direction::Above)
    &&& node_nbr(n, Direction::Left) == nbr(i, Direction::Left)
    &&& node_nbr(n, Direction::Right) == nbr(i, Direction::Right)
    &&& node_nbr(n, Direction::Below) == nbr(i, Direction::Below)
}

impl View for Board {
    type V = Seq<State>;

    /// The board is abstractly the sequence of its 24 position states.
    open spec fn view(&self) -> Seq<State> {
        self.nodes@.map_values(|n: Node| n.state)
    }
}

impl Board {
    /// Well-formedness: one node per position, each carrying the canonical
    /// topology.
    pub open spec fn wf(self) -> bool {
        &&& self.nodes@.len() == 24
        &&& forall|i: int| 0 <= i < 24 ==> #[trigger] node_ok(self.nodes@[i], i)
    }

    pub fn new() -> (r: Self)
        ensures
            r.wf(),
            r@.len() == 24,
            forall|i: int| 0 <= i < 24 ==> r@[i] == State::Empty,
    {
        let mut nodes: Vec<Node> = Vec::new();
        // neighbours:            above       left        right       below
        nodes.push(Node::new(None, None, Some("d7"), Some("a4")));  // a7
        nodes.push(Node::new(None, Some("a7"), Some("g7"), Some("d6")));  // d7
        nodes.push(Node::new(None, Some("d7"), None, Some("g4")));  // g7
        nodes.push(Node::new(None, None, Some("d6"), Some("b4")));  // b6
        nodes.push(Node::new(Some("d7"), Some("b6"), Some("f6"), Some("d5")));  // d6
        nodes.push(Node::new(None, Some("d6"), None, Some("f4")));  // f6
        nodes.push(Node::new(None, None, Some("d5"), Some("c4")));  // c5
        nodes.push(Node::new(Some("d6"), Some("c5"), Some("e5"), None));  // d5
        nodes.push(Node::new(None, Some("d5"), None, Some("e4")));  // e5
        nodes.push(Node::new(Some("a7"), None, Some("b4"), Some("a1")));  // a4
        nodes.push(Node::new(Some("b6"), Some("a4"), Some("c4"), Some("b2")));  // b4
        nodes.push(Node::new(Some("c5"), Some("b4"), None, Some("c3")));  // c4
        nodes.push(Node::new(Some("e5"), None, Some("f4"), Some("e3")));  // e4
        nodes.push(Node::new(Some("f6"), Some("e4"), Some("g4"), Some("f2")));  // f4
        nodes.push(Node::new(Some("g7"), Some("f4"), None, Some("g1")));  // g4
        nodes.push(Node::new(Some("c4"), None, Some("d3"), None));  // c3
        nodes.push(Node::new(None, Some("c3"), Some("e3"), Some("d2")));  // d3
        nodes.push(Node::new(Some("e4"), Some("d3"), None, None));  // e3
        nodes.push(Node::new(Some("b4"), None, Some("d2"), None));  // b2
        nodes.push(Node::new(Some("d3"), Some("b2"), Some("f2"), Some("d1")));  // d2
        nodes.push(Node::new(Some("f4"), Some("d2"), None, None));  // f2
        nodes.push(Node::new(Some("a4"), None, Some("d1"), None));  // a1
        nodes.push(Node::new(Some("d2"), Some("a1"), Some("g1"), None));  // d1
        nodes.push(Node::new(Some("g4"), Some("d1"), None, None));  // g1
        let r = Self { nodes };
        proof {
            reveal_strlit("a7");
            reveal_strlit("d7");
            reveal_strlit("g7");
            reveal_strlit("b6");
            reveal_strlit("d6");
            reveal_strlit("f6");
            reveal_strlit("c5");
            reveal_strlit("d5");
            reveal_strlit("e5");
            reveal_strlit("a4");
            reveal_strlit("b4");
            reveal_strlit("c4");
            reveal_strlit("e4");
            reveal_strlit("f4");
            reveal_strlit("g4");
            reveal_strlit("c3");
            reveal_strlit("d3");
            reveal_strlit("e3");
            reveal_strlit("b2");
            reveal_strlit("d2");
            reveal_strlit("f2");
            reveal_strlit("a1");
            reveal_strlit("d1");
            reveal_strlit("g1");
            assert(r.nodes@.len() == 24);
            assert forall|i: int| 0 <= i < 24 implies #[trigger] node_ok(r.nodes@[i], i) by {
                assert(i == 0 || i == 1 || i == 2 || i == 3 || i == 4 || i == 5 || i == 6 || i == 7
                    || i == 8 || i == 9 || i == 10 || i == 11 || i == 12 || i == 13 || i == 14
                    || i == 15 || i == 16 || i == 17 || i == 18 || i == 19 || i == 20 || i == 21
                    || i == 22 || i == 23);
            }
            assert forall|i: int| 0 <= i < 24 implies r@[i] == State::Empty by {
                assert(i == 0 || i == 1 || i == 2 || i == 3 || i == 4 || i == 5 || i == 6 || i == 7
                    || i == 8 || i == 9 || i == 10 || i == 11 || i == 12 || i == 13 || i == 14
                    || i == 15 || i == 16 || i == 17 || i == 18 || i == 19 || i == 20 || i == 21
                    || i == 22 || i == 23);
            }
        }
        r
    }

    /// Looks up the node at a position; `None` when the label is unknown.
    pub fn get_node_ref(&self, position: &str) -> (r: Option<&Node>)
        requires
            self.wf(),
        ensures
            match r {
                Some(n) => pos_index(position@) is Some && *n == self.nodes@[pos_index(
                    position@,
                ).unwrap()],
                None => pos_index(position@) is None,
            },
    {
        match parse_position(position) {
            None => None,
            Some(i) => Some(&self.nodes[i]),
        }
    }
}

/// The result of placing `color` at the position labelled `s` on board `b`:
/// the index to occupy, or the error the attempt fails with.
pub open spec fn place_outcome(b: Seq<State>, color: Color, s: Seq<char>) -> Result<
    int,
    PlacingError,
> {
    match pos_index(s) {
        Some(i) => if b[i] is Occupied {
            Err(PlacingError::PlaceAtOccupied)
        } else {
            Ok(i)
        },
        None => Err(PlacingError::InvalidPosition),
    }
}

/// The result of moving `color` from `from` to `to` on board `b`, with the
/// checks applied in the fixed precedence order: unknown `from`, `from ==
/// to`, unknown `to`, empty `from`, wrong color at `from`, occupied `to`,
/// and (unless flying) non-adjacency.
pub open spec fn move_outcome(
    b: Seq<State>,
    color: Color,
    from: Seq<char>,
    to: Seq<char>,
    flying: bool,
) -> Result<(int, int), MovingError> {
    match pos_index(from) {
        None => Err(MovingError::InvalidMoveFrom),
        Some(i) => if pos_index(to) == pos_index(from) {
            Err(MovingError::MoveToSame)
        } else {
            match pos_index(to) {
                None => Err(MovingError::InvalidMoveTo),
                Some(j) => if b[i] is Empty {
                    Err(MovingError::MoveFromEmpty)
                } else if b[i] != State::Occupied(color) {
                    Err(MovingError::MoveFromWrongColor)
                } else if b[j] is Occupied {
                    Err(MovingError::MoveToOccupied)
                } else if !flying && !is_adjacent(i, j) {
                    Err(MovingError::NotAdjacent)
                } else {
                    Ok((i, j))
                },
            }
        },
    }
}

/// The result of removing a piece of `color` from the position labelled `s`
/// on board `b`: the index to empty, or the error the attempt fails with.
/// When `check_for_mills` is set, a piece currently in a mill is protected.
pub open spec fn remove_outcome(
    b: Seq<State>,
    color: Color,
    s: Seq<char>,
    check_for_mills: bool,
) -> Result<int, RemovingError> {
    match pos_index(s) {
        None => Err(RemovingError::InvalidPosition),
        Some(i) => if b[i] is Empty {
            Err(RemovingError::RemoveFromEmpty)
        } else if b[i] != State::Occupied(color) {
            Err(RemovingError::RemoveFromWrongColor)
        } else if check_for_mills && in_mill_at(b, color, i) {
            Err(RemovingError::RemoveFromMill)
        } else {
            Ok(i)
        },
    }
}

impl Board {  // game logic - manipulating pieces
    /// Places a piece of the given color at the given position; fails with
    /// `InvalidPosition` for an unknown label and `PlaceAtOccupied` for an
    /// occupied node, leaving the board unchanged on failure.
    pub fn place_piece(&mut self, color: Color, position: &str) -> (r: Result<(), PlacingError>)
        requires
            old(self).wf(),
        ensures
            final(self).wf(),
            match place_outcome(old(self)@, color, position@) {
                Ok(i) => r is Ok && final(self)@ == old(self)@.update(i, State::Occupied(color)),
                Err(e) => r == Err::<(), PlacingError>(e) && *final(self) == *old(self),
            },
    {
        match parse_position(position) {
            None => Err(PlacingError::InvalidPosition),
            Some(i) => {
                let node = self.nodes[i];
                match node.state {
                    State::Occupied(_) => Err(PlacingError::PlaceAtOccupied),
                    State::Empty => {
                        let mut updated = node;
                        updated.state = State::Occupied(color);
                        self.nodes.set(i, updated);
                        proof {
                            assert(self@ =~= old(self)@.update(i as int, State::Occupied(color)));
                            assert forall|k: int| 0 <= k < 24 implies #[trigger] node_ok(
                                self.nodes@[k],
                                k,
                            ) by {
                                assert(node_ok(old(self).nodes@[k], k));
                            }
                        }
                        Ok(())
                    },
                }
            },
        }
    }

    /// Moves a piece of the given color between two positions, applying the
    /// legality checks in the fixed precedence order; the boolean argument
    /// allows the piece to "fly", skipping the adjacency check. On failure
    /// the board is unchanged.
    pub fn move_piece(&mut self, color: Color, from: &str, to: &str, flying: bool) -> (r: Result<
        (),
        MovingError,
    >)
        requires
            old(self).wf(),
        ensures
            final(self).wf(),
            match move_outcome(old(self)@, color, from@, to@, flying) {
                Ok((i, j)) => r is Ok && final(self)@ == old(self)@.update(i, State::Empty).update(
                    j,
                    State::Occupied(color),
                ),
                Err(e) => r == Err::<(), MovingError>(e) && *final(self) == *old(self),
            },
    {
        let i = match parse_position(from) {
            None => {
                return Err(MovingError::InvalidMoveFrom);
            },
            Some(i) => i,
        };
        let j = match parse_position(to) {
            None => {
                return Err(MovingError::InvalidMoveTo);
            },
            Some(j) => {
                if j == i {
                    return Err(MovingError::MoveToSame);
                }
                j
            },
        };
        let start = self.nodes[i];
        match start.state {
            State::Empty => Err(MovingError::MoveFromEmpty),
            State::Occupied(start_color) => {
                if start_color != color {
                    return Err(MovingError::MoveFromWrongColor);
                }
                let end = self.nodes[j];
                match end.state {
                    State::Occupied(_) => Err(MovingError::MoveToOccupied),
                    State::Empty => {
                        if !flying && !self.adjacent_to(i, j) {
                            return Err(MovingError::NotAdjacent);
                        }
                        let mut emptied = start;
                        emptied.state = State::Empty;
                        self.nodes.set(i, emptied);
                        let mut occupied = end;
                        occupied.state = State::Occupied(color);
                        self.nodes.set(j, occupied);
                        proof {
                            assert(self@ =~= old(self)@.update(i as int, State::Empty).update(
                                j as int,
                                State::Occupied(color),
                            ));
                            assert forall|k: int| 0 <= k < 24 implies #[trigger] node_ok(
                                self.nodes@[k],
                                k,
                            ) by {
                                assert(node_ok(old(self).nodes@[k], k));
                            }
                        }
                        Ok(())
                    },
                }
            },
        }
    }

    /// Removes a piece of the given color from the given position; when
    /// `check_for_mills` is set, a piece currently in a mill is protected
    /// and the removal fails with `RemoveFromMill`. On failure the board is
    /// unchanged.
    pub fn remove_piece(&mut self, color: Color, from: &str, check_for_mills: bool) -> (r: Result<
        (),
        RemovingError,
    >)
        requires
            old(self).wf(),
        ensures
            final(self).wf(),
            match remove_outcome(old(self)@, color, from@, check_for_mills) {
                Ok(i) => r is Ok && final(self)@ == old(self)@.update(i, State::Empty),
                Err(e) => r == Err::<(), RemovingError>(e) && *final(self) == *old(self),
            },
    {
        let position_in_mill = self.in_mill(color, from);
        match parse_position(from) {
            None => Err(RemovingError::InvalidPosition),
            Some(i) => {
                let node = self.nodes[i];
                match node.state {
                    State::Empty => Err(RemovingError::RemoveFromEmpty),
                    State::Occupied(node_color) => {
                        if node_color != color {
                            return Err(RemovingError::RemoveFromWrongColor);
                        }
                        if check_for_mills && position_in_mill {
                            return Err(RemovingError::RemoveFromMill);
                        }
                        let mut emptied = node;
                        emptied.state = State::Empty;
                        self.nodes.set(i, emptied);
                        proof {
                            assert(self@ =~= old(self)@.update(i as int, State::Empty));
                            assert forall|k: int| 0 <= k < 24 implies #[trigger] node_ok(
                                self.nodes@[k],
                                k,
                            ) by {
                                assert(node_ok(old(self).nodes@[k], k));
                            }
                        }
                        Ok(())
                    },
                }
            },
        }
    }

    /// True when the node at `position` is occupied by `color` and at least
    /// one directional neighbour is currently empty.
    pub fn can_move(&self, color: Color, position: &str) -> (r: bool)
        requires
            self.wf(),
        ensures
            r == can_move_spec(self@, color, position@),
    {
        match parse_position(position) {
            None => false,
            Some(i) => {
                let node = self.nodes[i];
                proof {
                    assert(node_ok(self.nodes@[i as int], i as int));
                }
                if node.state == State::Occupied(color) {
                    self.label_empty(node.above) || self.label_empty(node.left) || self.label_empty(
                        node.right,
                    ) || self.label_empty(node.below)
                } else {
                    false
                }
            },
        }
    }

    /// True when `j` is a directional neighbour of `i`.
    fn adjacent_to(&self, i: usize, j: usize) -> (r: bool)
        requires
            self.wf(),
            i < 24,
        ensures
            r == is_adjacent(i as int, j as int),
    {
        let node = self.nodes[i];
        proof {
            assert(node_ok(self.nodes@[i as int], i as int));
        }
        label_is(node.above, j) || label_is(node.left, j) || label_is(node.right, j) || label_is(
            node.below,
            j,
        )
    }

    /// True when the position the label names is currently empty.
    fn label_empty(&self, l: Option<&'static str>) -> (r: bool)
        requires
            self.wf(),
        ensures
            r == empty_at(self@, label_index(l)),
    {
        match l {
            None => false,
            Some(s) => match parse_position(s) {
                None => false,
                Some(k) => self.nodes[k].state == State::Empty,
            },
        }
    }

    /// True when the position the label names is currently occupied by
    /// `color`.
    fn label_occupied(&self, l: Option<&'static str>, color: Color) -> (r: bool)
        requires
            self.wf(),
        ensures
            r == occ_at(self@, label_index(l), color),
    {
        match l {
            None => false,
            Some(s) => match parse_position(s) {
                None => false,
                Some(k) => self.nodes[k].state == State::Occupied(color),
            },
        }
    }
}

/// True when the label names the position with index `j`.
fn label_is(l: Option<&'static str>, j: usize) -> (r: bool)
    ensures
        r == (label_index(l) == Some(j as int)),
{
    match l {
        None => false,
        Some(s) => match parse_position(s) {
            None => false,
            Some(k) => k == j,
        },
    }
}

/// Whether the (optional) position `j` is occupied by `c` on board `b`.
pub open spec fn occ_at(b: Seq<State>, j: Option<int>, c: Color) -> bool {
    match j {
        Some(j) => b[j] == State::Occupied(c),
        None => false,
    }
}

/// Whether the (optional) position `j` is empty on board `b`.
pub open spec fn empty_at(b: Seq<State>, j: Option<int>) -> bool {
    match j {
        Some(j) => b[j] is Empty,
        None => false,
    }
}

/// Whether some directional neighbour of `i` is empty.
pub open spec fn can_move_at(b: Seq<State>, i: int) -> bool {
    ||| empty_at(b, nbr(i, Direction::Above))
    ||| empty_at(b, nbr(i, Direction::Left))
    ||| empty_at(b, nbr(i, Direction::Right))
    ||| empty_at(b, nbr(i, Direction::Below))
}

/// Whether a piece of `c` at the position labelled `s` has an empty
/// directional neighbour to step to.
pub open spec fn can_move_spec(b: Seq<State>, c: Color, s: Seq<char>) -> bool {
    match pos_index(s) {
        Some(i) => b[i] == State::Occupied(c) && can_move_at(b, i),
        None => false,
    }
}

/// Whether, walking `steps` hops from position `i` in direction `d`, every
/// stepped-to position exists and is occupied by `c`.
pub open spec fn chain_at(b: Seq<State>, c: Color, i: int, d: Direction, steps: nat) -> bool
    decreases steps,
{
    steps == 0 || (match nbr(i, d) {
        Some(j) => b[j] == State::Occupied(c) && chain_at(b, c, j, d, (steps - 1) as nat),
        None => false,
    })
}

/// Position `i` is the middle of a mill of `c`: both the left and right
/// neighbours, or both the above and below neighbours, exist and are
/// occupied by `c`.
pub open spec fn middle_mill_at(b: Seq<State>, c: Color, i: int) -> bool {
    ||| (occ_at(b, nbr(i, Direction::Left), c) && occ_at(b, nbr(i, Direction::Right), c))
    ||| (occ_at(b, nbr(i, Direction::Above), c) && occ_at(b, nbr(i, Direction::Below), c))
}

/// Position `i` is an endpoint of a mill of `c`: two consecutive hops in a
/// single direction both land on positions occupied by `c`.
pub open spec fn edge_mill_at(b: Seq<State>, c: Color, i: int) -> bool {
    ||| chain_at(b, c, i, Direction::Above, 2)
    ||| chain_at(b, c, i, Direction::Left, 2)
    ||| chain_at(b, c, i, Direction::Right, 2)
    ||| chain_at(b, c, i, Direction::Below, 2)
}

/// Position `i` participates in a mill of `c`.
pub open spec fn in_mill_at(b: Seq<State>, c: Color, i: int) -> bool {
    middle_mill_at(b, c, i) || edge_mill_at(b, c, i)
}

/// Whether the position labelled `s` participates in a mill of `c`; false
/// for unknown labels.
pub open spec fn in_mill_spec(b: Seq<State>, c: Color, s: Seq<char>) -> bool {
    match pos_index(s) {
        Some(i) => in_mill_at(b, c, i),
        None => false,
    }
}

/// All three of `x`, `y`, `z` are occupied by `c`.
pub open spec fn filled3(b: Seq<State>, c: Color, x: int, y: int, z: int) -> bool {
    b[x] == State::Occupied(c) && b[y] == State::Occupied(c) && b[z] == State::Occupied(c)
}

/// `i` is one of `x`, `y`, `z`.
pub open spec fn line_through(x: int, y: int, z: int, i: int) -> bool {
    i == x || i == y || i == z
}

/// A mill stated globally: one of the sixteen straight lines of the board
/// runs through `i` and is entirely occupied by `c`. The lines are the
/// eight horizontal rows and the eight vertical columns of the three
/// nested squares and their four spokes.
pub open spec fn on_filled_line(b: Seq<State>, c: Color, i: int) -> bool {
    ||| (line_through(0, 1, 2, i) && filled3(b, c, 0, 1, 2))
    ||| (line_through(3, 4, 5, i) && filled3(b, c, 3, 4, 5))
    ||| (line_through(6, 7, 8, i) && filled3(b, c, 6, 7, 8))
    ||| (line_through(9, 10, 11, i) && filled3(b, c, 9, 10, 11))
    ||| (line_through(12, 13, 14, i) && filled3(b, c, 12, 13, 14))
    ||| (line_through(15, 16, 17, i) && filled3(b, c, 15, 16, 17))
    ||| (line_through(18, 19, 20, i) && filled3(b, c, 18, 19, 20))
    ||| (line_through(21, 22, 23, i) && filled3(b, c, 21, 22, 23))
    ||| (line_through(0, 9, 21, i) && filled3(b, c, 0, 9, 21))
    ||| (line_through(3, 10, 18, i) && filled3(b, c, 3, 10, 18))
    ||| (line_through(6, 11, 15, i) && filled3(b, c, 6, 11, 15))
    ||| (line_through(1, 4, 7, i) && filled3(b, c, 1, 4, 7))
    ||| (line_through(16, 19, 22, i) && filled3(b, c, 16, 19, 22))
    ||| (line_through(8, 12, 17, i) && filled3(b, c, 8, 12, 17))
    ||| (line_through(5, 13, 20, i) && filled3(b, c, 5, 13, 20))
    ||| (line_through(2, 14, 23, i) && filled3(b, c, 2, 14, 23))
}

/// The local neighbourhood test agrees with the global definition of a
/// mill: a position occupied by `c` is in a mill exactly when a fully
/// occupied straight line runs through it.
pub proof fn lemma_mill_is_filled_line(b: Seq<State>, c: Color, i: int)
    requires
        b.len() == 24,
        0 <= i < 24,
        b[i] == State::Occupied(c),
    ensures
        in_mill_at(b, c, i) == on_filled_line(b, c, i),
{
    reveal_with_fuel(chain_at, 4);
    assert(i == 0 || i == 1 || i == 2 || i == 3 || i == 4 || i == 5 || i == 6 || i == 7 || i == 8
        || i == 9 || i == 10 || i == 11 || i == 12 || i == 13 || i == 14 || i == 15 || i == 16
        || i == 17 || i == 18 || i == 19 || i == 20 || i == 21 || i == 22 || i == 23);
}

/// As `middle_mill_at`, but relative to a node value's own neighbour
/// labels.
pub open spec fn node_middle_mill(b: Seq<State>, c: Color, n: Node) -> bool {
    ||| (occ_at(b, node_nbr(n, Direction::Left), c) && occ_at(b, node_nbr(n, Direction::Right), c))
    ||| (occ_at(b, node_nbr(n, Direction::Above), c) && occ_at(b, node_nbr(n, Direction::Below), c))
}

/// As `chain_at`, but with the first hop taken from a node value's own
/// neighbour labels.
pub open spec fn node_chain(b: Seq<State>, c: Color, n: Node, d: Direction, steps: nat) -> bool {
    steps == 0 || (match node_nbr(n, d) {
        Some(j) => b[j] == State::Occupied(c) && chain_at(b, c, j, d, (steps - 1) as nat),
        None => false,
    })
}

/// As `edge_mill_at`, but relative to a node value's own neighbour labels.
pub open spec fn node_edge_mill(b: Seq<State>, c: Color, n: Node) -> bool {
    ||| node_chain(b, c, n, Direction::Above, 2)
    ||| node_chain(b, c, n, Direction::Left, 2)
    ||| node_chain(b, c, n, Direction::Right, 2)
    ||| node_chain(b, c, n, Direction::Below, 2)
}

/// A node that carries the canonical neighbour references of position `i`
/// chains exactly as position `i` does.
pub proof fn lemma_node_chain_eq(
    b: Seq<State>,
    c: Color,
    n: Node,
    i: int,
    d: Direction,
    steps: nat,
)
    requires
        node_nbr(n, d) == nbr(i, d),
    ensures
        node_chain(b, c, n, d, steps) == chain_at(b, c, i, d, steps),
{
}

/// For every valid position and all colors: placing on an empty position
/// succeeds, and placing at the same position immediately afterwards fails
/// with `PlaceAtOccupied`, whichever color tries.
pub proof fn lemma_place_then_replace(b: Seq<State>, c1: Color, c2: Color, s: Seq<char>)
    requires
        b.len() == 24,
        pos_index(s) is Some,
        b[pos_index(s).unwrap()] is Empty,
    ensures
        place_outcome(b, c1, s) == Ok::<int, PlacingError>(pos_index(s).unwrap()),
        place_outcome(b.update(pos_index(s).unwrap(), State::Occupied(c1)), c2, s) == Err::<
            int,
            PlacingError,
        >(PlacingError::PlaceAtOccupied),
{
}

/// Flying: a move with the flying flag set is never rejected for
/// non-adjacency, whatever the board and positions are.
pub proof fn lemma_flying_ignores_adjacency(
    b: Seq<State>,
    c: Color,
    from: Seq<char>,
    to: Seq<char>,
)
    ensures
        move_outcome(b, c, from, to, true) != Err::<(int, int), MovingError>(
            MovingError::NotAdjacent,
        ),
{
}

impl Board {  // game logic - mills
    /// Checks if a piece is in a mill, either as the middle or as an
    /// endpoint of a three-in-a-row of its color.
    pub fn in_mill(&self, color: Color, position: &str) -> (r: bool)
        requires
            self.wf(),
        ensures
            r == in_mill_spec(self@, color, position@),
    {
        match parse_position(position) {
            None => false,
            Some(i) => {
                let node = self.nodes[i];
                proof {
                    assert(node_ok(self.nodes@[i as int], i as int));
                    lemma_node_chain_eq(self@, color, node, i as int, Direction::Above, 2);
                    lemma_node_chain_eq(self@, color, node, i as int, Direction::Left, 2);
                    lemma_node_chain_eq(self@, color, node, i as int, Direction::Right, 2);
                    lemma_node_chain_eq(self@, color, node, i as int, Direction::Below, 2);
                }
                self.middle_of_mill(color, node) || self.edge_of_mill(color, node)
            },
        }
    }

    /// Checks if a piece is in the middle of a mill, i.e. if it forms a
    /// mill with two of its neighbours (either the ones to the left and to
    /// the right, or above and below).
    pub fn middle_of_mill(&self, color: Color, node: Node) -> (r: bool)
        requires
            self.wf(),
        ensures
            r == node_middle_mill(self@, color, node),
    {
        // check for horizontal mill, then vertical mill
        (self.label_occupied(node.left, color) && self.label_occupied(node.right, color))
            || (self.label_occupied(node.above, color) && self.label_occupied(node.below, color))
    }

    /// Checks if a piece is the edge of a mill, i.e. if it forms a mill
    /// with a neighbour and that neighbour's neighbour in one of the four
    /// directions.
    pub fn edge_of_mill(&self, color: Color, node: Node) -> (r: bool)
        requires
            self.wf(),
        ensures
            r == node_edge_mill(self@, color, node),
    {
        self.check_direction(color, node, Direction::Above, 1) || self.check_direction(
            color,
            node,
            Direction::Left,
            1,
        ) || self.check_direction(color, node, Direction::Right, 1) || self.check_direction(
            color,
            node,
            Direction::Below,
            1,
        )
    }

    /// Checks if the given node forms a mill in the given direction (i.e.
    /// the neighbour and that neighbour's neighbour in said direction are
    /// the same color). The `found` parameter has to be 1 at the first
    /// call.
    pub fn check_direction(&self, color: Color, node: Node, direction: Direction, found: u8) -> (r:
        bool)
        requires
            self.wf(),
            1 <= found <= 3,
        ensures
            r == node_chain(self@, color, node, direction, (3 - found) as nat),
        decreases 3 - found,
    {
        if found == 3 {
            return true;
        }
        match node.get_neighbour(direction) {
            None => false,
            Some(neighbour) => match parse_position(neighbour) {
                None => false,
                Some(j) => {
                    let neighbour_node = self.nodes[j];
                    proof {
                        assert(node_ok(self.nodes@[j as int], j as int));
                        lemma_node_chain_eq(
                            self@,
                            color,
                            neighbour_node,
                            j as int,
                            direction,
                            (3 - (found + 1)) as nat,
                        );
                    }
                    neighbour_node.state == State::Occupied(color) && self.check_direction(
                        color,
                        neighbour_node,
                        direction,
                        found + 1,
                    )
                },
            },
        }
    }
}

} // verus!
