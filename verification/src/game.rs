//! The turn/phase state machine: dispatches placements, movements and
//! removals for the player whose turn it is, mirrors successful board
//! mutations into the per-player piece bookkeeping, advances turn and
//! phase, and evaluates whether the game can continue and who has won.

use vstd::prelude::*;
use crate::board::{
    can_move_spec, in_mill_spec, move_outcome, place_outcome, remove_outcome, Board,
};
use crate::enums::{Color, Phase, State};
use crate::errors::{MovingError, PlacingError, RemovingError};
use crate::pieces::{moved_rel, placed_rel, removed_rel, Pieces};
use crate::position::{label_of, lemma_label_of_index, lemma_pos_index_inverse, pos_index};

verus! {

/// The bookkeeping `p` mirrors board `b` for color `c`: every held label
/// names a position occupied by `c`, every position occupied by `c` is
/// held, and the placed count is the number of held positions.
pub open spec fn color_synced(p: Pieces, b: Seq<State>, c: Color) -> bool {
    &&& p.placed == p.positions@.len()
    &&& forall|s: Seq<char>| #[trigger]
        p.held().contains(s) ==> pos_index(s) is Some && b[pos_index(s).unwrap()]
            == State::Occupied(c)
    &&& forall|i: int|
        0 <= i < 24 && (#[trigger] b[i]) == State::Occupied(c) ==> p.held().contains(label_of(i))
}

/// How a finished game ended: victory for one color, or a draw.
#[derive(PartialEq, Eq, Clone, Copy, Debug, Structural)]
pub enum Outcome {
    Victory(Color),
    Draw,
}

pub struct Game {
    /// Information about the white player's pieces.
    pub white: Pieces,
    /// Information about the black player's pieces.
    pub black: Pieces,
    pub board: Board,
    pub phase: Phase,
    /// The player who should play on the current turn; changes to the other
    /// color every turn.
    pub current: Color,
}

impl Game {
    /// The piece bookkeeping of the given player.
    pub open spec fn pieces_of(self, c: Color) -> Pieces {
        match c {
            Color::White => self.white,
            Color::Black => self.black,
        }
    }

    /// Validity: the board is well-formed and both players' bookkeeping is
    /// valid.
    pub open spec fn wf(self) -> bool {
        &&& self.board.wf()
        &&& self.white.inv()
        &&& self.black.inv()
    }

    /// Flying eligibility: a player with at most 3 placed pieces may move
    /// to any empty position, ignoring adjacency.
    pub open spec fn flying(self, c: Color) -> bool {
        self.pieces_of(c).placed <= 3
    }

    /// The data-model invariant: each player's bookkeeping mirrors the
    /// board exactly. It holds for a fresh game and is preserved by every
    /// operation of the normal turn protocol (for placements: while the
    /// acting player still has unplaced pieces).
    pub open spec fn synced(self) -> bool {
        &&& color_synced(self.white, self.board@, Color::White)
        &&& color_synced(self.black, self.board@, Color::Black)
    }

    /// Whether a removal against `opponent` must respect mill protection:
    /// it must, unless every piece currently held by the opponent is in a
    /// mill (the all-in-mills exception).
    pub open spec fn checks_mills(self, opponent: Color) -> bool {
        !(forall|s: Seq<char>| #[trigger]
            self.pieces_of(opponent).held().contains(s) ==> in_mill_spec(self.board@, opponent, s))
    }

    /// Whether the player can move at least one held piece: always when
    /// flying-eligible, else when some held position has an empty
    /// neighbour.
    pub open spec fn can_move_color(self, c: Color) -> bool {
        ||| self.flying(c)
        ||| exists|s: Seq<char>| #[trigger]
            self.pieces_of(c).held().contains(s) && can_move_spec(self.board@, c, s)
    }

    /// Whether the player can continue playing: enough pieces, and at least
    /// one of them can move.
    pub open spec fn can_play_color(self, c: Color) -> bool {
        self.pieces_of(c).placed >= 3 && self.can_move_color(c)
    }

    /// The game goes on while pieces are still being placed, or both
    /// players can still play.
    pub open spec fn can_continue_spec(self) -> bool {
        ||| self.phase == Phase::Placing
        ||| (self.phase == Phase::Moving && self.can_play_color(Color::White)
            && self.can_play_color(Color::Black))
    }

    /// How the game ended: a player with only 2 placed pieces loses
    /// immediately; otherwise a player who cannot move loses if the other
    /// still can, and when neither can move the game is a draw. `None`
    /// when none of these hold (the game is not over).
    pub open spec fn outcome_spec(self) -> Option<Outcome> {
        if self.white.placed == 2 {
            Some(Outcome::Victory(Color::Black))
        } else if self.black.placed == 2 {
            Some(Outcome::Victory(Color::White))
        } else if !self.can_move_color(Color::White) && self.can_move_color(Color::Black) {
            Some(Outcome::Victory(Color::Black))
        } else if self.can_move_color(Color::White) && !self.can_move_color(Color::Black) {
            Some(Outcome::Victory(Color::White))
        } else if !self.can_move_color(Color::White) && !self.can_move_color(Color::Black) {
            Some(Outcome::Draw)
        } else {
            None
        }
    }

    pub fn new() -> (r: Self)
        ensures
            r.wf(),
            r.white.unplaced == 9 && r.white.placed == 0 && r.white.held() == Set::<
                Seq<char>,
            >::empty(),
            r.black.unplaced == 9 && r.black.placed == 0 && r.black.held() == Set::<
                Seq<char>,
            >::empty(),
            r.board@.len() == 24,
            forall|i: int| 0 <= i < 24 ==> r.board@[i] == State::Empty,
            r.phase == Phase::Placing,
            r.current == Color::White,
            r.synced(),
    {
        let r = Self {
            white: Pieces::new(),
            black: Pieces::new(),
            board: Board::new(),
            phase: Phase::Placing,
            current: Color::White,
        };
        proof {
            assert(color_synced(r.white, r.board@, Color::White));
            assert(color_synced(r.black, r.board@, Color::Black));
        }
        r
    }
}

impl Game {  // game actions
    /// Places a piece for the current player and, on success, records it in
    /// that player's bookkeeping. On failure nothing changes.
    pub fn place_piece(&mut self, position: &str) -> (r: Result<(), PlacingError>)
        requires
            old(self).wf(),
        ensures
            final(self).wf(),
            final(self).phase == old(self).phase,
            final(self).current == old(self).current,
            match place_outcome(old(self).board@, old(self).current, position@) {
                Ok(i) => {
                    &&& r is Ok
                    &&& final(self).board@ == old(self).board@.update(
                        i,
                        State::Occupied(old(self).current),
                    )
                    &&& placed_rel(
                        old(self).pieces_of(old(self).current),
                        final(self).pieces_of(old(self).current),
                        position@,
                    )
                    &&& final(self).pieces_of(old(self).current.spec_other()) == old(
                        self,
                    ).pieces_of(old(self).current.spec_other())
                },
                Err(e) => r == Err::<(), PlacingError>(e) && *final(self) == *old(self),
            },
            old(self).synced() && old(self).pieces_of(old(self).current).unplaced > 0
                ==> final(self).synced(),
    {
        let color = self.current;
        match self.board.place_piece(color, position) {
            Err(e) => Err(e),
            Ok(()) => {
                match color {
                    Color::White => self.white.place_piece(position.to_owned()),
                    Color::Black => self.black.place_piece(position.to_owned()),
                }
                proof {
                    if old(self).synced() && old(self).pieces_of(old(self).current).unplaced > 0 {
                        lemma_place_sync(*old(self), *self, position@);
                    }
                }
                Ok(())
            },
        }
    }

    /// Moves a piece for the current player, flying when that player has at
    /// most 3 placed pieces, and records a successful movement in that
    /// player's bookkeeping. On failure nothing changes.
    pub fn move_piece(&mut self, from: &str, to: &str) -> (r: Result<(), MovingError>)
        requires
            old(self).wf(),
        ensures
            final(self).wf(),
            final(self).phase == old(self).phase,
            final(self).current == old(self).current,
            match move_outcome(
                old(self).board@,
                old(self).current,
                from@,
                to@,
                old(self).flying(old(self).current),
            ) {
                Ok((i, j)) => {
                    &&& r is Ok
                    &&& final(self).board@ == old(self).board@.update(i, State::Empty).update(
                        j,
                        State::Occupied(old(self).current),
                    )
                    &&& moved_rel(
                        old(self).pieces_of(old(self).current),
                        final(self).pieces_of(old(self).current),
                        from@,
                        to@,
                    )
                    &&& final(self).pieces_of(old(self).current.spec_other()) == old(
                        self,
                    ).pieces_of(old(self).current.spec_other())
                },
                Err(e) => r == Err::<(), MovingError>(e) && *final(self) == *old(self),
            },
            old(self).synced() ==> final(self).synced(),
    {
        let color = self.current;
        let flying = match color {
            Color::White => self.white.placed <= 3,
            Color::Black => self.black.placed <= 3,
        };
        match self.board.move_piece(color, from, to, flying) {
            Err(e) => Err(e),
            Ok(()) => {
                match color {
                    Color::White => self.white.move_piece(from.to_owned(), to.to_owned()),
                    Color::Black => self.black.move_piece(from.to_owned(), to.to_owned()),
                }
                proof {
                    if old(self).synced() {
                        lemma_move_sync(*old(self), *self, from@, to@);
                    }
                }
                Ok(())
            },
        }
    }

    /// Removes an opponent piece for the current player. Mill protection is
    /// applied unless every opponent piece is currently in a mill; a
    /// successful removal is recorded in the opponent's bookkeeping. On
    /// failure nothing changes.
    pub fn remove_piece(&mut self, position: &str) -> (r: Result<(), RemovingError>)
        requires
            old(self).wf(),
        ensures
            final(self).wf(),
            final(self).phase == old(self).phase,
            final(self).current == old(self).current,
            match remove_outcome(
                old(self).board@,
                old(self).current.spec_other(),
                position@,
                old(self).checks_mills(old(self).current.spec_other()),
            ) {
                Ok(i) => {
                    &&& r is Ok
                    &&& final(self).board@ == old(self).board@.update(i, State::Empty)
                    &&& removed_rel(
                        old(self).pieces_of(old(self).current.spec_other()),
                        final(self).pieces_of(old(self).current.spec_other()),
                        position@,
                    )
                    &&& final(self).pieces_of(old(self).current) == old(self).pieces_of(
                        old(self).current,
                    )
                },
                Err(e) => r == Err::<(), RemovingError>(e) && *final(self) == *old(self),
            },
            old(self).synced() ==> final(self).synced(),
    {
        let opponent = self.current.other();
        // If all of the other player's pieces are in a mill, they can be
        // removed without issue, so mill protection is off. Otherwise only
        // pieces not in a mill can be removed.
        let check_for_mills = !self.all_in_mills(opponent);
        match self.board.remove_piece(opponent, position, check_for_mills) {
            Err(e) => Err(e),
            Ok(()) => {
                match opponent {
                    Color::White => self.white.remove_piece(position.to_owned()),
                    Color::Black => self.black.remove_piece(position.to_owned()),
                }
                proof {
                    if old(self).synced() {
                        lemma_remove_sync(*old(self), *self, position@);
                    }
                }
                Ok(())
            },
        }
    }

    /// True when every piece currently held by `color` is in a mill.
    fn all_in_mills(&self, color: Color) -> (r: bool)
        requires
            self.wf(),
        ensures
            r == !self.checks_mills(color),
    {
        let pieces = match color {
            Color::White => &self.white,
            Color::Black => &self.black,
        };
        let n = pieces.positions.len();
        let mut k: usize = 0;
        while k < n
            invariant
                self.wf(),
                *pieces == self.pieces_of(color),
                n == pieces.positions.len(),
                0 <= k <= n,
                forall|m: int|
                    0 <= m < k ==> in_mill_spec(self.board@, color, pieces.pos_views()[m]),
            decreases n - k,
        {
            if !self.board.in_mill(color, pieces.positions[k].as_str()) {
                assert(pieces.held().contains(pieces.pos_views()[k as int]));
                return false;
            }
            k += 1;
        }
        proof {
            assert forall|s: Seq<char>| #[trigger]
                self.pieces_of(color).held().contains(s) implies in_mill_spec(
                self.board@,
                color,
                s,
            ) by {
                let m = choose|m: int|
                    0 <= m < pieces.pos_views().len() && pieces.pos_views()[m] == s;
                assert(in_mill_spec(self.board@, color, pieces.pos_views()[m]));
            }
        }
        true
    }
}

impl Game {  // checking if the game can continue
    /// Checks if the player of the given color can move at least one of
    /// their pieces; a flying-eligible player always can, since an empty
    /// destination always exists.
    pub fn can_move(&self, color: Color) -> (r: bool)
        requires
            self.wf(),
        ensures
            r == self.can_move_color(color),
    {
        let flying = match color {
            Color::White => self.white.placed <= 3,
            Color::Black => self.black.placed <= 3,
        };
        if flying {
            return true;
        }
        let pieces = match color {
            Color::White => &self.white,
            Color::Black => &self.black,
        };
        let n = pieces.positions.len();
        let mut k: usize = 0;
        while k < n
            invariant
                self.wf(),
                *pieces == self.pieces_of(color),
                n == pieces.positions.len(),
                0 <= k <= n,
                forall|m: int|
                    0 <= m < k ==> !can_move_spec(self.board@, color, pieces.pos_views()[m]),
            decreases n - k,
        {
            if self.board.can_move(color, pieces.positions[k].as_str()) {
                assert(pieces.held().contains(pieces.pos_views()[k as int]));
                return true;
            }
            k += 1;
        }
        proof {
            assert forall|s: Seq<char>| #[trigger]
                self.pieces_of(color).held().contains(s) implies !can_move_spec(
                self.board@,
                color,
                s,
            ) by {
                let m = choose|m: int|
                    0 <= m < pieces.pos_views().len() && pieces.pos_views()[m] == s;
                assert(!can_move_spec(self.board@, color, pieces.pos_views()[m]));
            }
        }
        false
    }

    /// Checks if the player of the given color can continue playing the
    /// game, i.e. if they have enough pieces and can move at least one.
    pub fn can_play(&self, color: Color) -> (r: bool)
        requires
            self.wf(),
        ensures
            r == self.can_play_color(color),
    {
        let enough = match color {
            Color::White => self.white.placed >= 3,
            Color::Black => self.black.placed >= 3,
        };
        enough && self.can_move(color)
    }

    /// The game loop condition: pieces are still being placed, or both
    /// players can still play.
    pub fn can_continue(&self) -> (r: bool)
        requires
            self.wf(),
        ensures
            r == self.can_continue_spec(),
    {
        self.phase == Phase::Placing || (self.phase == Phase::Moving && self.can_play(Color::White)
            && self.can_play(Color::Black))
    }

    /// Ends the current turn: the other player is up next, and once both
    /// players have exhausted their unplaced allotment the phase moves
    /// (once, and permanently) from placing to moving.
    pub fn advance_turn(&mut self)
        requires
            old(self).wf(),
        ensures
            final(self).wf(),
            final(self).board == old(self).board,
            final(self).white == old(self).white,
            final(self).black == old(self).black,
            final(self).current == old(self).current.spec_other(),
            final(self).phase == (if old(self).white.unplaced == 0 && old(self).black.unplaced
                == 0 {
                Phase::Moving
            } else {
                old(self).phase
            }),
            old(self).synced() ==> final(self).synced(),
    {
        self.current = self.current.other();
        if self.white.unplaced == 0 && self.black.unplaced == 0 {
            self.phase = Phase::Moving;
        }
    }

    /// How the game ended: `None` while it is not over.
    pub fn outcome(&self) -> (r: Option<Outcome>)
        requires
            self.wf(),
        ensures
            r == self.outcome_spec(),
    {
        if self.white.placed == 2 {
            Some(Outcome::Victory(Color::Black))
        } else if self.black.placed == 2 {
            Some(Outcome::Victory(Color::White))
        } else {
            let white_moves = self.can_move(Color::White);
            let black_moves = self.can_move(Color::Black);
            if !white_moves && black_moves {
                Some(Outcome::Victory(Color::Black))
            } else if white_moves && !black_moves {
                Some(Outcome::Victory(Color::White))
            } else if !white_moves && !black_moves {
                Some(Outcome::Draw)
            } else {
                None
            }
        }
    }
}

/// A successful placement by a player who still has unplaced pieces keeps
/// the bookkeeping in step with the board.
proof fn lemma_place_sync(pre: Game, post: Game, position: Seq<char>)
    requires
        pre.synced(),
        pre.pieces_of(pre.current).unplaced > 0,
        place_outcome(pre.board@, pre.current, position) is Ok,
        post.board@ == pre.board@.update(
            place_outcome(pre.board@, pre.current, position).unwrap(),
            State::Occupied(pre.current),
        ),
        placed_rel(pre.pieces_of(pre.current), post.pieces_of(pre.current), position),
        post.pieces_of(pre.current.spec_other()) == pre.pieces_of(pre.current.spec_other()),
        pre.board@.len() == 24,
    ensures
        post.synced(),
{
    let c = pre.current;
    let o = c.spec_other();
    let i = pos_index(position).unwrap();
    let b = pre.board@;
    let b2 = post.board@;
    let p = pre.pieces_of(c);
    let q = post.pieces_of(c);
    let po = pre.pieces_of(o);
    assert(color_synced(p, b, c) && color_synced(po, b, o));
    lemma_pos_index_inverse(position);
    assert(!p.held().contains(position));
    assert(color_synced(q, b2, c)) by {
        assert forall|s: Seq<char>| #[trigger] q.held().contains(s) implies pos_index(s) is Some
            && b2[pos_index(s).unwrap()] == State::Occupied(c) by {
            if s != position {
                assert(p.held().contains(s));
                lemma_pos_index_inverse(s);
            }
        }
        assert forall|i2: int|
            0 <= i2 < 24 && (#[trigger] b2[i2]) == State::Occupied(c) implies q.held().contains(
            label_of(i2),
        ) by {
            if i2 == i {
                assert(q.held().contains(position));
            } else {
                assert(b[i2] == State::Occupied(c));
            }
        }
    }
    assert(color_synced(post.pieces_of(o), b2, o)) by {
        assert forall|s: Seq<char>| #[trigger] po.held().contains(s) implies pos_index(s) is Some
            && b2[pos_index(s).unwrap()] == State::Occupied(o) by {}
        assert forall|i2: int|
            0 <= i2 < 24 && (#[trigger] b2[i2]) == State::Occupied(o) implies po.held().contains(
            label_of(i2),
        ) by {
            assert(i2 != i);
            assert(b[i2] == State::Occupied(o));
        }
    }
}

/// A successful movement keeps the bookkeeping in step with the board.
proof fn lemma_move_sync(pre: Game, post: Game, from: Seq<char>, to: Seq<char>)
    requires
        pre.synced(),
        move_outcome(pre.board@, pre.current, from, to, pre.flying(pre.current)) is Ok,
        post.board@ == ({
            let (i, j) = move_outcome(
                pre.board@,
                pre.current,
                from,
                to,
                pre.flying(pre.current),
            ).unwrap();
            pre.board@.update(i, State::Empty).update(j, State::Occupied(pre.current))
        }),
        moved_rel(pre.pieces_of(pre.current), post.pieces_of(pre.current), from, to),
        post.pieces_of(pre.current.spec_other()) == pre.pieces_of(pre.current.spec_other()),
        pre.board@.len() == 24,
    ensures
        post.synced(),
{
    let c = pre.current;
    let o = c.spec_other();
    let (i, j) = move_outcome(pre.board@, c, from, to, pre.flying(c)).unwrap();
    let b = pre.board@;
    let b2 = post.board@;
    let p = pre.pieces_of(c);
    let q = post.pieces_of(c);
    let po = pre.pieces_of(o);
    assert(color_synced(p, b, c) && color_synced(po, b, o));
    lemma_pos_index_inverse(from);
    lemma_pos_index_inverse(to);
    assert(i != j);
    assert(p.held().contains(from)) by {
        assert(b[i] == State::Occupied(c));
        lemma_label_of_index(i);
    }
    assert(!p.held().remove(from).contains(to));
    assert(q.placed == q.positions@.len());
    assert(color_synced(q, b2, c)) by {
        assert forall|s: Seq<char>| #[trigger] q.held().contains(s) implies pos_index(s) is Some
            && b2[pos_index(s).unwrap()] == State::Occupied(c) by {
            if s != to {
                assert(p.held().contains(s) && s != from);
                lemma_pos_index_inverse(s);
            }
        }
        assert forall|i2: int|
            0 <= i2 < 24 && (#[trigger] b2[i2]) == State::Occupied(c) implies q.held().contains(
            label_of(i2),
        ) by {
            if i2 == j {
                assert(q.held().contains(to));
            } else {
                assert(i2 != i);
                assert(b[i2] == State::Occupied(c));
                lemma_label_of_index(i2);
                assert(label_of(i2) != from && label_of(i2) != to);
            }
        }
    }
    assert(color_synced(post.pieces_of(o), b2, o)) by {
        assert forall|s: Seq<char>| #[trigger] po.held().contains(s) implies pos_index(s) is Some
            && b2[pos_index(s).unwrap()] == State::Occupied(o) by {
            let k = pos_index(s).unwrap();
            assert(b[k] == State::Occupied(o));
            assert(k != i && k != j);
        }
        assert forall|i2: int|
            0 <= i2 < 24 && (#[trigger] b2[i2]) == State::Occupied(o) implies po.held().contains(
            label_of(i2),
        ) by {
            assert(i2 != i && i2 != j);
            assert(b[i2] == State::Occupied(o));
        }
    }
}

/// A successful removal keeps the bookkeeping in step with the board.
proof fn lemma_remove_sync(pre: Game, post: Game, position: Seq<char>)
    requires
        pre.synced(),
        remove_outcome(
            pre.board@,
            pre.current.spec_other(),
            position,
            pre.checks_mills(pre.current.spec_other()),
        ) is Ok,
        post.board@ == pre.board@.update(
            remove_outcome(
                pre.board@,
                pre.current.spec_other(),
                position,
                pre.checks_mills(pre.current.spec_other()),
            ).unwrap(),
            State::Empty,
        ),
        removed_rel(
            pre.pieces_of(pre.current.spec_other()),
            post.pieces_of(pre.current.spec_other()),
            position,
        ),
        post.pieces_of(pre.current) == pre.pieces_of(pre.current),
        pre.board@.len() == 24,
    ensures
        post.synced(),
{
    let c = pre.current;
    let o = c.spec_other();
    let i = pos_index(position).unwrap();
    let b = pre.board@;
    let b2 = post.board@;
    let po = pre.pieces_of(o);
    let qo = post.pieces_of(o);
    let pc = pre.pieces_of(c);
    assert(color_synced(pc, b, c) && color_synced(po, b, o));
    lemma_pos_index_inverse(position);
    assert(po.held().contains(position)) by {
        assert(b[i] == State::Occupied(o));
        lemma_label_of_index(i);
    }
    assert(po.placed > 0) by {
        assert(exists|m: int| 0 <= m < po.pos_views().len() && po.pos_views()[m] == position);
    }
    assert(color_synced(qo, b2, o)) by {
        assert forall|s: Seq<char>| #[trigger] qo.held().contains(s) implies pos_index(s) is Some
            && b2[pos_index(s).unwrap()] == State::Occupied(o) by {
            assert(po.held().contains(s) && s != position);
            lemma_pos_index_inverse(s);
        }
        assert forall|i2: int|
            0 <= i2 < 24 && (#[trigger] b2[i2]) == State::Occupied(o) implies qo.held().contains(
            label_of(i2),
        ) by {
            assert(i2 != i);
            assert(b[i2] == State::Occupied(o));
            lemma_label_of_index(i2);
            assert(label_of(i2) != position);
        }
    }
    assert(color_synced(post.pieces_of(c), b2, c)) by {
        assert forall|s: Seq<char>| #[trigger] pc.held().contains(s) implies pos_index(s) is Some
            && b2[pos_index(s).unwrap()] == State::Occupied(c) by {
            let k = pos_index(s).unwrap();
            assert(b[k] == State::Occupied(c));
            assert(k != i);
        }
        assert forall|i2: int|
            0 <= i2 < 24 && (#[trigger] b2[i2]) == State::Occupied(c) implies pc.held().contains(
            label_of(i2),
        ) by {
            assert(i2 != i);
            assert(b[i2] == State::Occupied(c));
        }
    }
}

/// In a synced game no position is held by both players: the two held sets
/// are disjoint.
pub proof fn lemma_synced_disjoint(g: Game)
    requires
        g.synced(),
    ensures
        forall|s: Seq<char>| !(#[trigger] g.white.held().contains(s) && g.black.held().contains(s)),
{
    assert forall|s: Seq<char>|
        !(#[trigger] g.white.held().contains(s) && g.black.held().contains(s)) by {
        if g.white.held().contains(s) && g.black.held().contains(s) {
            assert(g.board@[pos_index(s).unwrap()] == State::Occupied(Color::White));
            assert(g.board@[pos_index(s).unwrap()] == State::Occupied(Color::Black));
        }
    }
}

/// All-in-mills exception: when every piece currently held by the opponent
/// participates in a mill, mill protection is waived, and removing any held
/// opponent piece succeeds.
pub proof fn lemma_all_in_mills_removal(g: Game, s: Seq<char>)
    requires
        g.board@.len() == 24,
        forall|t: Seq<char>| #[trigger]
            g.pieces_of(g.current.spec_other()).held().contains(t) ==> in_mill_spec(
                g.board@,
                g.current.spec_other(),
                t,
            ),
        g.pieces_of(g.current.spec_other()).held().contains(s),
        pos_index(s) is Some,
        g.board@[pos_index(s).unwrap()] == State::Occupied(g.current.spec_other()),
    ensures
        !g.checks_mills(g.current.spec_other()),
        remove_outcome(
            g.board@,
            g.current.spec_other(),
            s,
            g.checks_mills(g.current.spec_other()),
        ) == Ok::<int, RemovingError>(pos_index(s).unwrap()),
{
}

/// Win condition: a player whose placed count drops to 2 loses immediately,
/// independent of mobility, and the game cannot continue.
pub proof fn lemma_two_pieces_loses(g: Game)
    ensures
        g.white.placed == 2 ==> g.outcome_spec() == Some(Outcome::Victory(Color::Black)),
        g.black.placed == 2 && g.white.placed != 2 ==> g.outcome_spec() == Some(
            Outcome::Victory(Color::White),
        ),
        (g.white.placed == 2 || g.black.placed == 2) && g.phase == Phase::Moving
            ==> !g.can_continue_spec(),
{
}

} // verus!
