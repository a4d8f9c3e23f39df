//! The per-position topology record: up to four directional neighbour
//! labels plus the mutable occupancy state.

use vstd::prelude::*;
use crate::enums::{Direction, State};
use crate::position::pos_index;

verus! {

#[derive(Clone, Copy, Debug)]
pub struct Node {
    pub state: State,
    // neighbours
    pub above: Option<&'static str>,
    pub left: Option<&'static str>,
    pub right: Option<&'static str>,
    pub below: Option<&'static str>,
}

/// The neighbour label stored in `n` for direction `d`.
pub open spec fn neighbour_label(n: Node, d: Direction) -> Option<&'static str> {
    match d {
        Direction::Above => n.above,
        Direction::Left => n.left,
        Direction::Right => n.right,
        Direction::Below => n.below,
    }
}

/// The index of the position that an optional neighbour label names, or
/// `None` when there is no label or it names no position.
pub open spec fn label_index(l: Option<&'static str>) -> Option<int> {
    match l {
        Some(s) => pos_index(s@),
        None => None,
    }
}

/// The index of the position that `n`'s neighbour label in direction `d`
/// names, or `None` when there is no label or it names no position.
pub open spec fn node_nbr(n: Node, d: Direction) -> Option<int> {
    label_index(neighbour_label(n, d))
}

impl Node {
    pub fn new(
        above: Option<&'static str>,
        left: Option<&'static str>,
        right: Option<&'static str>,
        below: Option<&'static str>,
    ) -> (r: Self)
        ensures
            r.state == State::Empty,
            r.above == above,
            r.left == left,
            r.right == right,
            r.below == below,
    {
        Self { state: State::Empty, above, left, right, below }
    }

    /// The labels of the neighbours that exist, in the fixed order above,
    /// left, right, below.
    pub fn adjacent(&self) -> (r: Vec<&'static str>)
        ensures
            r@ == adjacent_labels(*self),
    {
        let mut neighbours: Vec<&'static str> = Vec::new();
        if let Some(l) = self.above {
            neighbours.push(l);
        }
        if let Some(l) = self.left {
            neighbours.push(l);
        }
        if let Some(l) = self.right {
            neighbours.push(l);
        }
        if let Some(l) = self.below {
            neighbours.push(l);
        }
        proof {
            assert(neighbours@ =~= adjacent_labels(*self));
        }
        neighbours
    }

    /// Returns the neighbour in a given direction: `None` if there is no
    /// neighbour in that direction, or `Some(label of the neighbour)`.
    pub fn get_neighbour(&self, direction: Direction) -> (r: Option<&'static str>)
        ensures
            r == neighbour_label(*self, direction),
    {
        match direction {
            Direction::Above => self.above,
            Direction::Left => self.left,
            Direction::Right => self.right,
            Direction::Below => self.below,
        }
    }
}

/// The neighbour labels of `n` that exist, in the fixed order above, left,
/// right, below.
pub open spec fn adjacent_labels(n: Node) -> Seq<&'static str> {
    label_seq(n.above) + label_seq(n.left) + label_seq(n.right) + label_seq(n.below)
}

pub open spec fn label_seq(o: Option<&'static str>) -> Seq<&'static str> {
    match o {
        Some(l) => seq![l],
        None => Seq::empty(),
    }
}

} // verus!
