use vstd::prelude::*;

use crate::field::Field;
use crate::field::Pos;
use crate::field::is_win;
use crate::field::occupied_count;
use crate::field::pos_index;
use crate::field::pos_valid;
use crate::piece::Piece;
use crate::piece::canonical_piece;
use crate::piece::canonical_pieces;
use crate::piece::lemma_canonical_pieces_distinct;

verus! {

/// One of the two players.
#[derive(Debug, PartialEq, Eq, Copy, Clone, Structural)]
pub enum Player {
    PlayerOne,
    PlayerTwo,
}

/// The opponent of a player.
pub open spec fn player_next(p: Player) -> Player {
    match p {
        Player::PlayerOne => Player::PlayerTwo,
        Player::PlayerTwo => Player::PlayerOne,
    }
}

impl Player {
    /// The opponent of this player.
    pub fn next(self) -> (r: Self)
        ensures
            r == player_next(self),
    {
        match self {
            Self::PlayerOne => Self::PlayerTwo,
            Self::PlayerTwo => Self::PlayerOne,
        }
    }
}

/// The phase of a game. In `Move`, `next_piece` was chosen by the
/// previous mover and is what `next_player` must place this turn.
#[derive(Debug, PartialEq, Eq, Copy, Clone, Structural)]
pub enum Status {
    InitialMove { starting_player: Player },
    Move { next_player: Player, next_piece: Piece },
    Won { winner: Player },
    Draw { last_player: Player },
}

/// A recoverable failure of a transition operation. A failed transition
/// leaves the game exactly as it was.
#[derive(Debug, PartialEq, Eq, Copy, Clone, Structural)]
pub enum GameError {
    /// The placement target already holds a piece.
    CellOccupied,
    /// The operation does not match the current phase.
    IllegalTransition,
    /// The named piece is not among the remaining pieces.
    UnknownPiece,
}

/// Whether game indices shown to people start at 0 or at 1. This is pure
/// presentation: it must never flow into the core operations themselves.
#[derive(Debug, Copy, Clone, PartialEq, Eq, Structural)]
pub enum ArrayBase {
    Zero,
    One,
}

impl ArrayBase {
    /// Maps an internal 0-based value to the displayed base (wrapping).
    #[inline]
    pub fn based(self, zero_based_val: usize) -> (r: usize)
        ensures
            self == ArrayBase::Zero ==> r == zero_based_val,
            self == ArrayBase::One && zero_based_val < usize::MAX ==> r == zero_based_val + 1,
            self == ArrayBase::One && zero_based_val == usize::MAX ==> r == 0,
    {
        if self == ArrayBase::Zero {
            zero_based_val
        } else {
            zero_based_val.wrapping_add(1)
        }
    }

    /// Maps a displayed value back to the internal 0-based one (wrapping).
    #[inline]
    pub fn unbased(self, based_val: usize) -> (r: usize)
        ensures
            self == ArrayBase::Zero ==> r == based_val,
            self == ArrayBase::One && based_val >= 1 ==> r == based_val - 1,
            self == ArrayBase::One && based_val == 0 ==> r == usize::MAX,
    {
        if self == ArrayBase::Zero {
            based_val
        } else {
            based_val.wrapping_sub(1)
        }
    }
}

/// The player an operation concerns in each phase: the one to move, or
/// the one the terminal phase names.
pub open spec fn current_player(st: Status) -> Player {
    match st {
        Status::InitialMove { starting_player } => starting_player,
        Status::Move { next_player, .. } => next_player,
        Status::Won { winner } => winner,
        Status::Draw { last_player } => last_player,
    }
}

/// The game is still running in the two non-terminal phases.
pub open spec fn status_running(st: Status) -> bool {
    st is InitialMove || st is Move
}

/// How many pieces the status itself holds: exactly the forced piece of a
/// `Move` phase, which is neither on the board nor among the remaining.
pub open spec fn status_hand(st: Status) -> int {
    if st is Move {
        1int
    } else {
        0int
    }
}

/// How many of the 16 pieces a well-formed state still accounts for. A
/// win consumes the hand-off piece the moment it is declared, so `Won`
/// accounts for one piece fewer.
pub open spec fn status_total(st: Status) -> int {
    if st is Won {
        15int
    } else {
        16int
    }
}

/// Whether some cell of the board holds the given piece.
pub open spec fn on_board(s: Seq<Option<Piece>>, p: Piece) -> bool {
    exists|i: int| 0 <= i < 16 && s[i] == Some(p)
}

/// `new_s` is `old_s` with one occurrence of `p` removed. Under
/// `no_duplicates` this pins `new_s` completely.
pub open spec fn removed_one(old_s: Seq<Piece>, new_s: Seq<Piece>, p: Piece) -> bool {
    exists|i: int| 0 <= i < old_s.len() && old_s[i] == p && new_s == old_s.remove(i)
}

/// The full game state: the board, the ordered remaining pieces
/// (canonical order with placed and handed-off pieces excised), and the
/// phase. `ai_reasoning`, `seed` and `pvp` are presentation and driver
/// configuration carried for the surrounding layers; the core never reads
/// them.
#[derive(Debug)]
pub struct Game {
    pub array_base: ArrayBase,
    pub field: Field,
    pub remaining_pieces: Vec<Piece>,
    pub status: Status,
    pub ai_reasoning: bool,
    pub seed: Option<u64>,
    pub pvp: bool,
}

impl Game {
    /// Well-formedness, maintained by `new` and the two transition
    /// operations: the remaining pieces, the forced piece of a `Move`
    /// phase and the occupied cells account for all pieces in play; the
    /// remaining pieces are distinct and disjoint from the board; the
    /// forced piece is neither remaining nor placed.
    pub open spec fn wf(self) -> bool {
        &&& self.field@.len() == 16
        &&& self.remaining_pieces@.len() + status_hand(self.status) + occupied_count(self.field@)
            == status_total(self.status)
        &&& self.remaining_pieces@.no_duplicates()
        &&& forall|j: int|
            0 <= j < self.remaining_pieces@.len() ==> !on_board(
                self.field@,
                #[trigger] self.remaining_pieces@[j],
            )
        &&& match self.status {
            Status::Move { next_piece, .. } => !self.remaining_pieces@.contains(next_piece)
                && !on_board(self.field@, next_piece),
            _ => true,
        }
    }

    /// Starts a new game: a fresh full 16-piece set, an empty board, and
    /// the `InitialMove` phase for the given starting player.
    pub fn new(starting_player: Player) -> (r: Self)
        ensures
            r.wf(),
            r.status == (Status::InitialMove { starting_player }),
            r.field@.len() == 16,
            forall|i: int| 0 <= i < 16 ==> r.field@[i] is None,
            !r.field.square_mode,
            r.remaining_pieces@.len() == 16,
            forall|i: int| 0 <= i < 16 ==> r.remaining_pieces@[i] == canonical_piece(i as u8),
            r.array_base == ArrayBase::One,
            !r.ai_reasoning,
            r.seed is None,
            !r.pvp,
    {
        let remaining_pieces = canonical_pieces();
        let field = Field::new();
        let r = Self {
            array_base: ArrayBase::One,
            remaining_pieces,
            field,
            status: Status::InitialMove { starting_player },
            ai_reasoning: false,
            seed: None,
            pvp: false,
        };
        proof {
            lemma_count_all_none(r.field@, 16);
            lemma_canonical_pieces_distinct();
            assert forall|i: int, j: int|
                0 <= i < 16 && 0 <= j < 16 && i != j implies r.remaining_pieces@[i]
                != r.remaining_pieces@[j] by {
                assert(canonical_piece(i as u8) != canonical_piece(j as u8));
            }
        }
        r
    }

    /// The displayed round number: placements advance it every other ply.
    pub fn round(&self) -> (r: u8)
        requires
            self.wf(),
        ensures
            r as int == (16 - self.remaining_pieces@.len() as int) / 2 + 1,
    {
        proof {
            lemma_count_bounds(self.field@, 16);
        }
        ((16 - self.remaining_pieces.len()) / 2 + 1) as u8
    }

    /// The player the current phase concerns.
    pub fn player(&self) -> (r: Player)
        ensures
            r == current_player(self.status),
    {
        match self.status {
            Status::InitialMove { starting_player } => starting_player,
            Status::Move { next_player, .. } => next_player,
            Status::Won { winner } => winner,
            Status::Draw { last_player } => last_player,
        }
    }

    /// True while the game is running, false once it is `Won` or `Draw`.
    pub fn running(&self) -> (r: bool)
        ensures
            r == status_running(self.status),
    {
        match self.status {
            Status::InitialMove { .. } | Status::Move { .. } => true,
            Status::Won { .. } | Status::Draw { .. } => false,
        }
    }

    /// The winner, if the game is over and was not drawn.
    pub fn winner(&self) -> (r: Option<Player>)
        ensures
            match self.status {
                Status::Won { winner } => r == Some(winner),
                _ => r is None,
            },
    {
        if let Status::Won { winner } = self.status {
            Some(winner)
        } else {
            None
        }
    }

    /// Whether the game still awaits the very first hand-off.
    pub fn is_initial_move(&self) -> (r: bool)
        ensures
            r == (self.status is InitialMove),
    {
        matches!(self.status, Status::InitialMove { .. })
    }

    /// The piece the current mover must place, if the phase is `Move`.
    pub fn next_piece(&self) -> (r: Option<Piece>)
        ensures
            match self.status {
                Status::Move { next_piece, .. } => r == Some(next_piece),
                _ => r is None,
            },
    {
        if let Status::Move { next_piece, .. } = self.status {
            Some(next_piece)
        } else {
            None
        }
    }

    /// The ordered remaining (unplaced, un-handed-off) pieces. The order
    /// is stable: canonical order with removed pieces excised, so indices
    /// shown to people stay meaningful.
    pub fn remaining_pieces(&self) -> (r: &Vec<Piece>)
        ensures
            r@ == self.remaining_pieces@,
    {
        &self.remaining_pieces
    }

    /// The index of the first remaining piece equal to `p`, if any.
    fn find_remaining(&self, p: Piece) -> (r: Option<usize>)
        ensures
            match r {
                Some(i) => i < self.remaining_pieces@.len() && self.remaining_pieces@[i as int]
                    == p,
                None => !self.remaining_pieces@.contains(p),
            },
    {
        let mut i: usize = 0;
        while i < self.remaining_pieces.len()
            invariant
                i <= self.remaining_pieces@.len(),
                forall|j: int| 0 <= j < i as int ==> self.remaining_pieces@[j] != p,
            decreases self.remaining_pieces@.len() - i as int,
        {
            if self.remaining_pieces[i] == p {
                return Some(i);
            }
            i = i + 1;
        }
        None
    }

    /// Hands the initial piece to the opponent; no placement happens on
    /// the very first move. Valid only in the `InitialMove` phase and for
    /// a remaining piece; a failure leaves the game unchanged.
    pub fn initial_move(&mut self, next_piece: Piece) -> (r: Result<(), GameError>)
        requires
            old(self).wf(),
        ensures
            final(self).wf(),
            match old(self).status {
                Status::InitialMove { starting_player } => {
                    if old(self).remaining_pieces@.contains(next_piece) {
                        &&& r is Ok
                        &&& removed_one(
                            old(self).remaining_pieces@,
                            final(self).remaining_pieces@,
                            next_piece,
                        )
                        &&& final(self).status == (Status::Move {
                            next_player: player_next(starting_player),
                            next_piece,
                        })
                        &&& final(self).field == old(self).field
                        &&& final(self).array_base == old(self).array_base
                        &&& final(self).ai_reasoning == old(self).ai_reasoning
                        &&& final(self).seed == old(self).seed
                        &&& final(self).pvp == old(self).pvp
                    } else {
                        r == Err::<(), GameError>(GameError::UnknownPiece) && *final(self) == *old(
                            self,
                        )
                    }
                },
                _ => r == Err::<(), GameError>(GameError::IllegalTransition) && *final(self)
                    == *old(self),
            },
    {
        if let Status::InitialMove { starting_player } = self.status {
            let i = match self.find_remaining(next_piece) {
                Some(i) => i,
                None => { return Err(GameError::UnknownPiece) },
            };
            proof {
                lemma_remove_keeps(self.remaining_pieces@, i as int);
            }
            self.remaining_pieces.remove(i);
            self.status = Status::Move { next_player: starting_player.next(), next_piece };
            Ok(())
        } else {
            Err(GameError::IllegalTransition)
        }
    }

    /// Places the forced piece of the `Move` phase at `pos`, then removes
    /// the caller-supplied `next_piece` from the remaining pieces and
    /// hands it over — or ends the game: a `Draw` when this was the 16th
    /// placement (the hand-off argument is then ignored), a `Won` when the
    /// placement completed a line. A failure leaves the game unchanged.
    pub fn do_move(&mut self, pos: Pos, next_piece: Piece) -> (r: Result<(), GameError>)
        requires
            old(self).wf(),
            pos_valid(pos),
        ensures
            final(self).wf(),
            !(old(self).status is Move) ==> r == Err::<(), GameError>(GameError::IllegalTransition)
                && *final(self) == *old(self),
            old(self).status is Move && old(self).field@[pos_index(pos)] is Some ==> r == Err::<
                (),
                GameError,
            >(GameError::CellOccupied) && *final(self) == *old(self),
            old(self).status is Move && old(self).field@[pos_index(pos)] is None && old(
                self,
            ).remaining_pieces@.len() > 0 && !old(self).remaining_pieces@.contains(next_piece)
                ==> r == Err::<(), GameError>(GameError::UnknownPiece) && *final(self) == *old(
                self,
            ),
            old(self).status is Move && old(self).field@[pos_index(pos)] is None && (old(
                self,
            ).remaining_pieces@.len() == 0 || old(self).remaining_pieces@.contains(next_piece))
                ==> r is Ok && move_result(*old(self), *final(self), pos, next_piece),
    {
        let (pl, forced) = match self.status {
            Status::Move { next_player, next_piece } => (next_player, next_piece),
            _ => { return Err(GameError::IllegalTransition) },
        };
        if self.field.get(pos).is_some() {
            return Err(GameError::CellOccupied);
        }
        let ghost f0 = self.field@;
        if self.remaining_pieces.len() == 0 {
            let _ = self.field.put(pos, forced);
            self.status = Status::Draw { last_player: pl };
            proof {
                lemma_count_update(f0, pos_index(pos), Some(forced), 16);
                lemma_on_board_update(f0, pos_index(pos), forced);
            }
            return Ok(());
        }
        let i = match self.find_remaining(next_piece) {
            Some(i) => i,
            None => { return Err(GameError::UnknownPiece) },
        };
        proof {
            lemma_remove_keeps(self.remaining_pieces@, i as int);
        }
        let _ = self.field.put(pos, forced);
        self.remaining_pieces.remove(i);
        proof {
            lemma_count_update(f0, pos_index(pos), Some(forced), 16);
            lemma_on_board_update(f0, pos_index(pos), forced);
        }
        if self.field.check_field_for_win() {
            self.status = Status::Won { winner: pl };
        } else {
            self.status = Status::Move { next_player: pl.next(), next_piece };
        }
        Ok(())
    }

    /// Undoes the placement of the immediately preceding `do_move`: the
    /// cleared piece returns to the remaining pieces and the prior phase
    /// is recomputed. A test-construction aid, not part of the game's
    /// lifecycle; it is not available for an `InitialMove` phase.
    pub fn unmove(&mut self, last_pos: Pos)
        requires
            old(self).wf(),
            pos_valid(last_pos),
            old(self).field@[pos_index(last_pos)] is Some,
            !(old(self).status is InitialMove),
        ensures
            final(self).field@ == old(self).field@.update(pos_index(last_pos), None),
            final(self).field.square_mode == old(self).field.square_mode,
            match old(self).field@[pos_index(last_pos)] {
                Some(p) => {
                    &&& final(self).remaining_pieces@ == old(self).remaining_pieces@.push(p)
                    &&& final(self).status == (if old(self).remaining_pieces@.len() + 1 == 16 {
                        Status::InitialMove { starting_player: current_player(old(self).status) }
                    } else {
                        Status::Move {
                            next_player: player_next(current_player(old(self).status)),
                            next_piece: p,
                        }
                    })
                },
                None => false,
            },
            final(self).array_base == old(self).array_base,
            final(self).ai_reasoning == old(self).ai_reasoning,
            final(self).seed == old(self).seed,
            final(self).pvp == old(self).pvp,
    {
        let next_player = match self.status {
            Status::InitialMove { .. } => { vstd::pervasive::unreached() },
            Status::Won { winner } => winner,
            Status::Draw { last_player } => last_player,
            Status::Move { next_player, .. } => next_player,
        };
        // There are only two players, so next is also prev.
        let prev_player = next_player.next();
        let last_piece = match self.field.clear(last_pos) {
            Some(p) => p,
            None => { vstd::pervasive::unreached() },
        };
        self.remaining_pieces.push(last_piece);
        if self.remaining_pieces.len() == 16 {
            self.status = Status::InitialMove { starting_player: next_player };
        } else {
            self.status = Status::Move { next_piece: last_piece, next_player: prev_player };
        }
    }
}

impl Clone for Game {
    /// An exact copy: every component equals the original's.
    fn clone(&self) -> (r: Self)
        ensures
            r.field == self.field,
            r.remaining_pieces@ == self.remaining_pieces@,
            r.status == self.status,
            r.array_base == self.array_base,
            r.ai_reasoning == self.ai_reasoning,
            r.seed == self.seed,
            r.pvp == self.pvp,
    {
        let mut pieces: Vec<Piece> = Vec::new();
        let mut i: usize = 0;
        while i < self.remaining_pieces.len()
            invariant
                i <= self.remaining_pieces@.len(),
                pieces@ == self.remaining_pieces@.subrange(0, i as int),
            decreases self.remaining_pieces@.len() - i as int,
        {
            pieces.push(self.remaining_pieces[i]);
            proof {
                assert(pieces@ =~= self.remaining_pieces@.subrange(0, i as int + 1));
            }
            i = i + 1;
        }
        proof {
            assert(pieces@ =~= self.remaining_pieces@);
        }
        Game {
            array_base: self.array_base,
            field: self.field,
            remaining_pieces: pieces,
            status: self.status,
            ai_reasoning: self.ai_reasoning,
            seed: self.seed,
            pvp: self.pvp,
        }
    }
}

/// The success outcome of `do_move(pos, q)` from state `g0`: the forced
/// piece of `g0`'s `Move` phase stands at `pos`, and either the board was
/// completed (a `Draw`, the hand-off ignored), or `q` left the remaining
/// pieces and the phase advanced to `Won` or to the opponent's `Move`
/// depending on the win condition.
pub open spec fn move_result(g0: Game, g1: Game, pos: Pos, q: Piece) -> bool {
    match g0.status {
        Status::Move { next_player, next_piece } => {
            let f1 = g0.field@.update(pos_index(pos), Some(next_piece));
            &&& g1.field@ == f1
            &&& g1.field.square_mode == g0.field.square_mode
            &&& g1.array_base == g0.array_base
            &&& g1.ai_reasoning == g0.ai_reasoning
            &&& g1.seed == g0.seed
            &&& g1.pvp == g0.pvp
            &&& if g0.remaining_pieces@.len() == 0 {
                g1.remaining_pieces@ == g0.remaining_pieces@ && g1.status == (Status::Draw {
                    last_player: next_player,
                })
            } else {
                removed_one(g0.remaining_pieces@, g1.remaining_pieces@, q) && g1.status == (if
                is_win(f1, g0.field.square_mode) {
                    Status::Won { winner: next_player }
                } else {
                    Status::Move { next_player: player_next(next_player), next_piece: q }
                })
            }
        },
        _ => false,
    }
}

/// Law (piece conservation): at every point of a game's lifecycle the
/// remaining pieces, the forced piece held by a `Move` phase and the
/// occupied cells together account for 16 pieces — except in `Won`, where
/// the hand-off consumed by the winning call leaves 15.
pub proof fn lemma_piece_accounting(g: Game)
    requires
        g.wf(),
    ensures
        g.remaining_pieces@.len() + status_hand(g.status) + occupied_count(g.field@)
            == status_total(g.status),
{
}

/// Law (round number): whenever the phase holds no forced piece
/// (`InitialMove`, `Draw`) or an even number of cells is occupied, the
/// round is exactly `occupied / 2 + 1`. In a `Move` or `Won` phase with
/// an odd occupied count the hand-off piece shifts the count by one and
/// the displayed round is one further.
pub proof fn lemma_round_occupied(g: Game)
    requires
        g.wf(),
        g.status is InitialMove || g.status is Draw || occupied_count(g.field@) % 2 == 0,
    ensures
        (16 - g.remaining_pieces@.len() as int) / 2 + 1 == occupied_count(g.field@) / 2 + 1,
{
}

/// All-empty prefixes hold no pieces.
proof fn lemma_count_all_none(s: Seq<Option<Piece>>, k: int)
    requires
        0 <= k <= 16,
        forall|i: int| 0 <= i < 16 ==> s[i] is None,
    ensures
        crate::field::count_occupied_upto(s, k) == 0,
    decreases k,
{
    if k > 0 {
        lemma_count_all_none(s, k - 1);
    }
}

/// The occupied count of a `k`-prefix lies between 0 and `k`.
pub proof fn lemma_count_bounds(s: Seq<Option<Piece>>, k: int)
    requires
        0 <= k,
    ensures
        0 <= crate::field::count_occupied_upto(s, k) <= k,
    decreases k,
{
    if k > 0 {
        lemma_count_bounds(s, k - 1);
    }
}

/// Updating one cell changes the occupied count of a prefix that covers
/// it by the difference between the new and the old occupancy.
proof fn lemma_count_update(s: Seq<Option<Piece>>, i: int, v: Option<Piece>, k: int)
    requires
        0 <= i < s.len(),
        0 <= k <= s.len(),
    ensures
        k <= i ==> crate::field::count_occupied_upto(s.update(i, v), k)
            == crate::field::count_occupied_upto(s, k),
        k > i ==> crate::field::count_occupied_upto(s.update(i, v), k)
            == crate::field::count_occupied_upto(s, k) + (if v is Some {
            1int
        } else {
            0int
        }) - (if s[i] is Some {
            1int
        } else {
            0int
        }),
    decreases k,
{
    if k > 0 {
        lemma_count_update(s, i, v, k - 1);
    }
}

/// Filling a previously empty cell puts exactly that piece on the board,
/// besides what already stood there.
proof fn lemma_on_board_update(s: Seq<Option<Piece>>, i: int, piece: Piece)
    requires
        0 <= i < 16,
        s.len() == 16,
        s[i] is None,
    ensures
        forall|p: Piece|
            #[trigger] on_board(s.update(i, Some(piece)), p) <==> (on_board(s, p) || p == piece),
{
    let s1 = s.update(i, Some(piece));
    assert forall|p: Piece| #[trigger] on_board(s1, p) implies (on_board(s, p) || p == piece) by {
        let j = choose|j: int| 0 <= j < 16 && s1[j] == Some(p);
        if j != i {
            assert(s[j] == Some(p));
        }
    }
    assert forall|p: Piece| on_board(s, p) || p == piece implies #[trigger] on_board(s1, p) by {
        if p == piece {
            assert(s1[i] == Some(p));
        } else {
            let j = choose|j: int| 0 <= j < 16 && s[j] == Some(p);
            assert(s1[j] == Some(p));
        }
    }
}

/// Removing an index from a duplicate-free sequence keeps it
/// duplicate-free, removes exactly that element, and keeps the rest.
proof fn lemma_remove_keeps(s: Seq<Piece>, i: int)
    requires
        s.no_duplicates(),
        0 <= i < s.len(),
    ensures
        s.remove(i).no_duplicates(),
        !s.remove(i).contains(s[i]),
        forall|j: int| 0 <= j < s.remove(i).len() ==> s.contains(#[trigger] s.remove(i)[j]),
        forall|p: Piece| p != s[i] && s.contains(p) ==> s.remove(i).contains(p),
{
    s.remove_ensures(i);
    let s1 = s.remove(i);
    assert forall|j: int| 0 <= j < s1.len() implies s.contains(#[trigger] s1[j]) by {
        if j < i {
            assert(s1[j] == s[j]);
        } else {
            assert(s1[j] == s[j + 1]);
        }
    }
    assert forall|j: int| 0 <= j < s1.len() implies s1[j] != s[i] by {
        if j < i {
            assert(s1[j] == s[j]);
        } else {
            assert(s1[j] == s[j + 1]);
        }
    }
    assert forall|p: Piece| p != s[i] && s.contains(p) implies s1.contains(p) by {
        let j = choose|j: int| 0 <= j < s.len() && s[j] == p;
        if j < i {
            assert(s1[j] == p);
        } else {
            assert(s1[j - 1] == p);
        }
    }
    assert forall|j1: int, j2: int|
        0 <= j1 < s1.len() && 0 <= j2 < s1.len() && j1 != j2 implies s1[j1] != s1[j2] by {
        let k1 = if j1 < i {
            j1
        } else {
            j1 + 1
        };
        let k2 = if j2 < i {
            j2
        } else {
            j2 + 1
        };
        assert(s1[j1] == s[k1] && s1[j2] == s[k2]);
    }
}

} // verus!
