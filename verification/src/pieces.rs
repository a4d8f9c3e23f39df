//! Per-player piece bookkeeping: the unplaced and placed counts and the set
//! of positions currently held by that player.
//!
//! A `Pieces` value is abstractly the pair of counts together with the set
//! of held position labels (`held`). The mutators mirror successful board
//! operations; they are exact: each contract says how counts and held set
//! change for every input.

use vstd::prelude::*;

verus! {

/// Stores information about the pieces of a player.
pub struct Pieces {
    pub unplaced: u8,
    pub placed: u8,
    pub positions: Vec<String>,
}

impl Pieces {
    /// The labels of the held positions, in storage order.
    pub open spec fn pos_views(self) -> Seq<Seq<char>> {
        self.positions@.map_values(|p: String| p@)
    }

    /// The held positions, as a set of labels.
    pub open spec fn held(self) -> Set<Seq<char>> {
        self.pos_views().to_set()
    }

    /// Validity: the counts stay within the starting allotment of 9, and no
    /// position is held twice.
    pub open spec fn inv(self) -> bool {
        &&& self.unplaced + self.placed <= 9
        &&& self.pos_views().no_duplicates()
    }

    pub fn new() -> (r: Self)
        ensures
            r.inv(),
            r.unplaced == 9,
            r.placed == 0,
            r.positions@.len() == 0,
            r.held() == Set::<Seq<char>>::empty(),
    {
        let r = Self { unplaced: 9, placed: 0, positions: Vec::new() };
        proof {
            assert(r.held() =~= Set::<Seq<char>>::empty());
        }
        r
    }

    /// True when `position` is one of the held positions.
    fn contains_pos(&self, position: &String) -> (r: bool)
        ensures
            r == self.held().contains(position@),
    {
        let n = self.positions.len();
        let mut k: usize = 0;
        while k < n
            invariant
                n == self.positions.len(),
                0 <= k <= n,
                forall|m: int| 0 <= m < k ==> self.pos_views()[m] != position@,
            decreases n - k,
        {
            if self.positions[k].eq(position) {
                assert(self.pos_views()[k as int] == position@);
                return true;
            }
            k += 1;
        }
        false
    }

    /// Adds a position to the held set, keeping it duplicate-free.
    fn insert_pos(&mut self, position: String)
        requires
            old(self).pos_views().no_duplicates(),
        ensures
            final(self).unplaced == old(self).unplaced,
            final(self).placed == old(self).placed,
            final(self).pos_views().no_duplicates(),
            final(self).held() == old(self).held().insert(position@),
            final(self).positions@.len() == old(self).positions@.len() + (
            if old(self).held().contains(position@) {
                0int
            } else {
                1int
            }),
    {
        if !self.contains_pos(&position) {
            let ghost prev = self.pos_views();
            self.positions.push(position);
            proof {
                assert(self.pos_views() =~= prev.push(position@));
                assert forall|x: Seq<char>| self.held().contains(x) implies old(
                    self,
                ).held().insert(position@).contains(x) by {
                    let m = choose|m: int|
                        0 <= m < self.pos_views().len() && self.pos_views()[m] == x;
                    if m < prev.len() {
                        assert(prev[m] == x);
                    }
                }
                assert forall|x: Seq<char>| old(self).held().insert(position@).contains(
                    x,
                ) implies self.held().contains(x) by {
                    if old(self).held().contains(x) {
                        let m = choose|m: int| 0 <= m < prev.len() && prev[m] == x;
                        assert(self.pos_views()[m] == x);
                    } else {
                        assert(self.pos_views()[prev.len() as int] == position@);
                    }
                }
                assert(self.held() =~= old(self).held().insert(position@));
            }
        } else {
            proof {
                assert(self.held() =~= old(self).held().insert(position@));
            }
        }
    }

    /// Erases a position from the held set; a no-op when it is not held.
    fn erase_pos(&mut self, position: &String)
        requires
            old(self).pos_views().no_duplicates(),
        ensures
            final(self).unplaced == old(self).unplaced,
            final(self).placed == old(self).placed,
            final(self).pos_views().no_duplicates(),
            final(self).held() == old(self).held().remove(position@),
            final(self).positions@.len() == old(self).positions@.len() - (
            if old(self).held().contains(position@) {
                1int
            } else {
                0int
            }),
    {
        let n = self.positions.len();
        let mut k: usize = 0;
        while k < n
            invariant
                n == self.positions.len(),
                0 <= k <= n,
                forall|m: int| 0 <= m < k ==> self.pos_views()[m] != position@,
                *self == *old(self),
                self.pos_views().no_duplicates(),
            decreases n - k,
        {
            if self.positions[k].eq(position) {
                let ghost prev = self.pos_views();
                self.positions.remove(k);
                proof {
                    assert(prev.no_duplicates());
                    assert(prev[k as int] == position@);
                    assert(self.pos_views() =~= prev.remove(k as int));
                    prev.remove_ensures(k as int);
                    assert forall|x: Seq<char>| self.held().contains(x) implies old(
                        self,
                    ).held().remove(position@).contains(x) by {
                        let m = choose|m: int|
                            0 <= m < self.pos_views().len() && self.pos_views()[m] == x;
                        if m < k {
                            assert(prev[m] == x);
                            assert(prev[m] != position@);
                        } else {
                            assert(prev[m + 1] == x);
                            assert(prev[m + 1] != prev[k as int]);
                        }
                    }
                    assert forall|x: Seq<char>| old(self).held().remove(position@).contains(
                        x,
                    ) implies self.held().contains(x) by {
                        let m = choose|m: int| 0 <= m < prev.len() && prev[m] == x;
                        if m < k {
                            assert(self.pos_views()[m] == x);
                        } else {
                            assert(m != k);
                            assert(self.pos_views()[m - 1] == x);
                        }
                    }
                    assert(self.held() =~= old(self).held().remove(position@));
                    assert forall|a: int, b: int|
                        0 <= a < self.pos_views().len() && 0 <= b < self.pos_views().len() && a
                            != b implies self.pos_views()[a] != self.pos_views()[b] by {
                        let pa: int = if a < k { a } else { a + 1 };
                        let pb: int = if b < k { b } else { b + 1 };
                        assert(self.pos_views()[a] == prev[pa]);
                        assert(self.pos_views()[b] == prev[pb]);
                        assert(prev[pa] != prev[pb]);
                    }
                }
                return ;
            }
            k += 1;
        }
        proof {
            assert(!self.held().contains(position@));
            assert(self.held() =~= old(self).held().remove(position@));
        }
    }
}

/// How a successful `place_piece` call relates the old `Pieces` value `p`
/// to the new one `q`: while any piece is unplaced, one moves from the
/// unplaced to the placed count and the position joins the held set; once
/// the allotment is exhausted the call is a no-op.
pub open spec fn placed_rel(p: Pieces, q: Pieces, s: Seq<char>) -> bool {
    if p.unplaced == 0 {
        q == p
    } else {
        &&& q.unplaced == p.unplaced - 1
        &&& q.placed == p.placed + 1
        &&& q.held() == p.held().insert(s)
        &&& q.positions@.len() == p.positions@.len() + (if p.held().contains(s) {
            0int
        } else {
            1int
        })
    }
}

/// How a `remove_piece` call relates the old `Pieces` value `p` to the new
/// one `q`: while any piece is placed, the placed count decrements and the
/// position leaves the held set; with no piece placed the call is a no-op.
pub open spec fn removed_rel(p: Pieces, q: Pieces, s: Seq<char>) -> bool {
    if p.placed == 0 {
        q == p
    } else {
        &&& q.unplaced == p.unplaced
        &&& q.placed == p.placed - 1
        &&& q.held() == p.held().remove(s)
        &&& q.positions@.len() == p.positions@.len() - (if p.held().contains(s) {
            1int
        } else {
            0int
        })
    }
}

/// How a `move_piece` call relates the old `Pieces` value `p` to the new
/// one `q`: `from` leaves the held set, `to` joins it, and the counts never
/// change.
pub open spec fn moved_rel(p: Pieces, q: Pieces, from: Seq<char>, to: Seq<char>) -> bool {
    &&& q.unplaced == p.unplaced
    &&& q.placed == p.placed
    &&& q.held() == p.held().remove(from).insert(to)
    &&& q.positions@.len() == p.positions@.len() - (if p.held().contains(from) {
        1int
    } else {
        0int
    }) + (if p.held().remove(from).contains(to) {
        0int
    } else {
        1int
    })
}

impl Pieces {
    // manipulating pieces - these functions are called by the game in order
    // to reflect successful board mutations
    /// Records a placement: while any piece is unplaced, moves one from the
    /// unplaced to the placed count and adds the position to the held set;
    /// a no-op once the allotment is exhausted.
    pub fn place_piece(&mut self, position: String)
        requires
            old(self).inv(),
        ensures
            final(self).inv(),
            placed_rel(*old(self), *final(self), position@),
    {
        if self.unplaced > 0 {
            self.unplaced = self.unplaced - 1;
            self.placed = self.placed + 1;
            self.insert_pos(position);
        }
    }

    /// Records a removal: while any piece is placed, decrements the placed
    /// count and erases the position from the held set; a no-op when no
    /// piece is placed.
    pub fn remove_piece(&mut self, position: String)
        requires
            old(self).inv(),
        ensures
            final(self).inv(),
            removed_rel(*old(self), *final(self), position@),
    {
        if self.placed > 0 {
            self.placed = self.placed - 1;
            self.erase_pos(&position);
        }
    }

    /// Records a movement: erases `from` and adds `to`, never changing the
    /// counts.
    pub fn move_piece(&mut self, from: String, to: String)
        requires
            old(self).inv(),
        ensures
            final(self).inv(),
            moved_rel(*old(self), *final(self), from@, to@),
    {
        self.erase_pos(&from);
        self.insert_pos(to);
    }
}

} // verus!
