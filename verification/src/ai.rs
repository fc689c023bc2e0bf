use vstd::prelude::*;

use crate::field::Field;
use crate::field::Pos;
use crate::field::empties;
use crate::field::is_win;
use crate::field::lemma_empties;
use crate::field::pos_index;
use crate::field::pos_valid;
use crate::game::Game;
use crate::game::Player;
use crate::game::Status;
use crate::game::move_result;
use crate::game::player_next;
use crate::game::removed_one;
use crate::piece::Piece;
use crate::rng::RomuDuoJrRand;
use crate::rng::seeded;

verus! {

/// The board after a piece is placed on a cell.
pub open spec fn placed(s: Seq<Option<Piece>>, pos: Pos, piece: Piece) -> Seq<Option<Piece>> {
    s.update(pos_index(pos), Some(piece))
}

/// Placing `piece` at `pos` completes a winning line.
pub open spec fn wins_at(s: Seq<Option<Piece>>, pos: Pos, piece: Piece, sm: bool) -> bool {
    is_win(placed(s, pos, piece), sm)
}

/// Some empty cell of `s` lets whoever holds `q` win by placing it there.
pub open spec fn can_win_with(s: Seq<Option<Piece>>, q: Piece, sm: bool) -> bool {
    exists|p2: Pos|
        pos_valid(p2) && s[pos_index(p2)] is None && is_win(#[trigger] placed(s, p2, q), sm)
}

/// After the mover places the forced piece `fp` on the empty cell `p1`,
/// handing `q` to the opponent lets the opponent win somewhere.
pub open spec fn piece_unsafe_after(
    s: Seq<Option<Piece>>,
    fp: Piece,
    p1: Pos,
    q: Piece,
    sm: bool,
) -> bool {
    can_win_with(placed(s, p1, fp), q, sm)
}

/// Like `candidate_unsafe`, over the first `j` remaining pieces only.
pub open spec fn cand_unsafe_upto(
    s: Seq<Option<Piece>>,
    fp: Piece,
    p1: Pos,
    rem: Seq<Piece>,
    sm: bool,
    j: int,
) -> bool {
    exists|jj: int| 0 <= jj < j && piece_unsafe_after(s, fp, p1, #[trigger] rem[jj], sm)
}

/// Placing the forced piece on `p1` is an unsafe candidate: some remaining
/// piece would then let the opponent win.
pub open spec fn candidate_unsafe(
    s: Seq<Option<Piece>>,
    fp: Piece,
    p1: Pos,
    rem: Seq<Piece>,
    sm: bool,
) -> bool {
    cand_unsafe_upto(s, fp, p1, rem, sm, rem.len() as int)
}

/// Like `piece_unsafe`, over the first `m` candidate placements only.
pub open spec fn piece_unsafe_among(
    s: Seq<Option<Piece>>,
    fp: Piece,
    q: Piece,
    sm: bool,
    m: int,
) -> bool {
    exists|mm: int| 0 <= mm < m && piece_unsafe_after(s, fp, #[trigger] empties(s)[mm], q, sm)
}

/// `q` is globally unsafe to hand off: after some candidate placement of
/// the forced piece the opponent could win with `q`. Deliberately global:
/// the moment `q` is unsafe for any one candidate it is avoided for all of
/// them, which may over-reject safe options — kept as a faithful part of
/// the heuristic rather than corrected.
pub open spec fn piece_unsafe(s: Seq<Option<Piece>>, fp: Piece, q: Piece, sm: bool) -> bool {
    piece_unsafe_among(s, fp, q, sm, empties(s).len() as int)
}

/// Scanning one more remaining piece extends the unsafe-candidate test by
/// exactly that piece.
proof fn lemma_cand_upto_step(
    s: Seq<Option<Piece>>,
    fp: Piece,
    p1: Pos,
    rem: Seq<Piece>,
    sm: bool,
    j: int,
)
    requires
        0 <= j < rem.len(),
    ensures
        cand_unsafe_upto(s, fp, p1, rem, sm, j + 1) == (cand_unsafe_upto(s, fp, p1, rem, sm, j)
            || piece_unsafe_after(s, fp, p1, rem[j], sm)),
{
    if cand_unsafe_upto(s, fp, p1, rem, sm, j + 1) {
        let jj = choose|jj: int|
            0 <= jj < j + 1 && piece_unsafe_after(s, fp, p1, #[trigger] rem[jj], sm);
        if jj < j {
            assert(cand_unsafe_upto(s, fp, p1, rem, sm, j));
        }
    }
    if cand_unsafe_upto(s, fp, p1, rem, sm, j) {
        let jj = choose|jj: int| 0 <= jj < j && piece_unsafe_after(s, fp, p1, #[trigger] rem[jj], sm);
        assert(cand_unsafe_upto(s, fp, p1, rem, sm, j + 1));
    }
    if piece_unsafe_after(s, fp, p1, rem[j], sm) {
        assert(cand_unsafe_upto(s, fp, p1, rem, sm, j + 1));
    }
}

/// Scanning one more candidate placement extends the globally-unsafe test
/// by exactly that placement.
proof fn lemma_among_step(s: Seq<Option<Piece>>, fp: Piece, q: Piece, sm: bool, m: int)
    requires
        0 <= m < empties(s).len(),
    ensures
        piece_unsafe_among(s, fp, q, sm, m + 1) == (piece_unsafe_among(s, fp, q, sm, m)
            || piece_unsafe_after(s, fp, empties(s)[m], q, sm)),
{
    if piece_unsafe_among(s, fp, q, sm, m + 1) {
        let mm = choose|mm: int|
            0 <= mm < m + 1 && piece_unsafe_after(s, fp, #[trigger] empties(s)[mm], q, sm);
        if mm < m {
            assert(piece_unsafe_among(s, fp, q, sm, m));
        }
    }
    if piece_unsafe_among(s, fp, q, sm, m) {
        let mm = choose|mm: int|
            0 <= mm < m && piece_unsafe_after(s, fp, #[trigger] empties(s)[mm], q, sm);
        assert(piece_unsafe_among(s, fp, q, sm, m + 1));
    }
    if piece_unsafe_after(s, fp, empties(s)[m], q, sm) {
        assert(piece_unsafe_among(s, fp, q, sm, m + 1));
    }
}

/// Every remaining piece is unsafe to hand off.
pub open spec fn all_pieces_unsafe(
    s: Seq<Option<Piece>>,
    fp: Piece,
    rem: Seq<Piece>,
    sm: bool,
) -> bool {
    forall|j: int| 0 <= j < rem.len() ==> piece_unsafe(s, fp, #[trigger] rem[j], sm)
}

/// Every candidate placement is unsafe.
pub open spec fn all_candidates_unsafe(
    s: Seq<Option<Piece>>,
    fp: Piece,
    rem: Seq<Piece>,
    sm: bool,
) -> bool {
    forall|m: int|
        0 <= m < empties(s).len() ==> candidate_unsafe(s, fp, #[trigger] empties(s)[m], rem, sm)
}

/// Placing the forced piece somewhere wins at once.
pub open spec fn has_immediate_win(s: Seq<Option<Piece>>, fp: Piece, sm: bool) -> bool {
    exists|m: int| 0 <= m < empties(s).len() && wins_at(s, #[trigger] empties(s)[m], fp, sm)
}

/// `m` is the first index (in row-major empty-cell order) at which the
/// forced piece wins at once.
pub open spec fn first_win_index(s: Seq<Option<Piece>>, fp: Piece, sm: bool, m: int) -> bool {
    &&& 0 <= m < empties(s).len()
    &&& wins_at(s, empties(s)[m], fp, sm)
    &&& forall|mm: int| 0 <= mm < m ==> !wins_at(s, #[trigger] empties(s)[mm], fp, sm)
}

/// Law: the first winning index is unique, so in the immediate-win branch
/// of `ai_choice_ok` the committed position is a function of the board and
/// the forced piece alone — no randomness enters that decision.
pub proof fn lemma_first_win_unique(s: Seq<Option<Piece>>, fp: Piece, sm: bool, m1: int, m2: int)
    requires
        first_win_index(s, fp, sm, m1),
        first_win_index(s, fp, sm, m2),
    ensures
        m1 == m2,
{
    if m1 < m2 {
        assert(!wins_at(s, empties(s)[m1], fp, sm));
    } else if m2 < m1 {
        assert(!wins_at(s, empties(s)[m2], fp, sm));
    }
}

/// What the heuristic promises of the move it commits from game `g`
/// (which must be in the `Move` phase): `pos` is where the forced piece
/// went, `q` what was handed to the opponent.
///
/// - A placement that wins at once is taken at the first opportunity in
///   enumeration order, and the hand-off is then the first remaining piece
///   (or the forced piece itself when none remain — the engine resolves a
///   draw).
/// - Otherwise, when every remaining piece is unsafe (or none remain), the
///   first candidate position is taken with an arbitrary remaining piece,
///   or the forced piece when none remain.
/// - Otherwise, when every candidate placement is unsafe, any empty cell
///   and any remaining piece may be taken — a loss cannot be avoided.
/// - Otherwise both the placement and the hand-off are safe: the position
///   survives the one-ply lookahead and the piece is not globally unsafe.
pub open spec fn ai_choice_ok(g: Game, pos: Pos, q: Piece) -> bool {
    match g.status {
        Status::Move { next_piece: fp, .. } => {
            let s = g.field@;
            let sm = g.field.square_mode;
            let rem = g.remaining_pieces@;
            if has_immediate_win(s, fp, sm) {
                (exists|m: int| #[trigger] first_win_index(s, fp, sm, m) && pos == empties(s)[m])
                    && (if rem.len() == 0 {
                    q == fp
                } else {
                    q == rem[0]
                })
            } else if all_pieces_unsafe(s, fp, rem, sm) {
                pos == empties(s)[0] && (if rem.len() == 0 {
                    q == fp
                } else {
                    rem.contains(q)
                })
            } else if all_candidates_unsafe(s, fp, rem, sm) {
                rem.contains(q)
            } else {
                !candidate_unsafe(s, fp, pos, rem, sm) && rem.contains(q) && !piece_unsafe(
                    s,
                    fp,
                    q,
                    sm,
                )
            }
        },
        _ => false,
    }
}

/// The outcome of the hand-off the heuristic makes on the very first move
/// of a game: some remaining piece `p` was handed over.
pub open spec fn initial_hand_result(g0: Game, g1: Game, p: Piece) -> bool {
    match g0.status {
        Status::InitialMove { starting_player } => {
            &&& removed_one(g0.remaining_pieces@, g1.remaining_pieces@, p)
            &&& g1.status == (Status::Move { next_player: player_next(starting_player), next_piece: p })
            &&& g1.field == g0.field
            &&& g1.array_base == g0.array_base
            &&& g1.ai_reasoning == g0.ai_reasoning
            &&& g1.seed == g0.seed
            &&& g1.pvp == g0.pvp
        },
        _ => false,
    }
}

/// Component-wise equality of two game values.
pub open spec fn game_like(a: Game, b: Game) -> bool {
    &&& a.field == b.field
    &&& a.remaining_pieces@ == b.remaining_pieces@
    &&& a.status == b.status
    &&& a.array_base == b.array_base
    &&& a.ai_reasoning == b.ai_reasoning
    &&& a.seed == b.seed
    &&& a.pvp == b.pvp
}

/// The heuristic move selector: one owned random source and the identity
/// of the player it controls.
pub struct SimpleAi {
    pub own_player: Player,
    pub rng: RomuDuoJrRand,
}

/// The first empty position, in row-major order, where placing `piece`
/// completes a line — if any.
fn first_winning_space(f: &Field, piece: Piece) -> (r: Option<Pos>)
    requires
        f@.len() == 16,
    ensures
        match r {
            Some(pos) => exists|m: int|
                #[trigger] first_win_index(f@, piece, f.square_mode, m) && pos == empties(f@)[m],
            None => !has_immediate_win(f@, piece, f.square_mode),
        },
{
    let spaces = f.empty_spaces();
    let mut m: usize = 0;
    while m < spaces.len()
        invariant
            f@.len() == 16,
            spaces@ == empties(f@),
            m <= spaces@.len(),
            forall|mm: int|
                0 <= mm < m as int ==> !wins_at(f@, #[trigger] empties(f@)[mm], piece, f.square_mode),
        decreases spaces@.len() - m as int,
    {
        proof {
            lemma_empties(f@);
        }
        let pos = spaces[m];
        let mut hyp: Field = *f;
        let _ = hyp.put(pos, piece);
        if hyp.check_field_for_win() {
            proof {
                assert(first_win_index(f@, piece, f.square_mode, m as int));
            }
            return Some(pos);
        }
        m = m + 1;
    }
    None
}

/// Whether the opponent, handed `q` on board `f`, could place it on some
/// empty cell and win.
fn opponent_wins_somewhere(f: &Field, q: Piece) -> (r: bool)
    requires
        f@.len() == 16,
    ensures
        r == can_win_with(f@, q, f.square_mode),
{
    let spaces = f.empty_spaces();
    let mut k: usize = 0;
    while k < spaces.len()
        invariant
            f@.len() == 16,
            spaces@ == empties(f@),
            k <= spaces@.len(),
            forall|kk: int|
                0 <= kk < k as int ==> !is_win(
                    placed(f@, #[trigger] empties(f@)[kk], q),
                    f.square_mode,
                ),
        decreases spaces@.len() - k as int,
    {
        proof {
            lemma_empties(f@);
        }
        let mut hyp: Field = *f;
        let _ = hyp.put(spaces[k], q);
        if hyp.check_field_for_win() {
            proof {
                assert(is_win(placed(f@, spaces@[k as int], q), f.square_mode));
            }
            return true;
        }
        k = k + 1;
    }
    proof {
        lemma_empties(f@);
        assert forall|p2: Pos|
            pos_valid(p2) && f@[pos_index(p2)] is None implies !is_win(
            placed(f@, p2, q),
            f.square_mode,
        ) by {
            let i = pos_index(p2);
            assert(empties(f@).contains(((i / 4) as usize, (i % 4) as usize)));
            assert(((i / 4) as usize, (i % 4) as usize) == p2);
            let mm = choose|mm: int| 0 <= mm < empties(f@).len() && empties(f@)[mm] == p2;
            assert(!is_win(placed(f@, empties(f@)[mm], q), f.square_mode));
        }
    }
    false
}

/// The one-ply adversary scan: for every candidate placement of the
/// forced piece and every remaining piece, whether the opponent could
/// reply with a win. Returns one flag per candidate (position unsafe) and
/// one per remaining piece (hand-off globally unsafe).
#[verifier::rlimit(60)]
fn scan_threats(f: &Field, fp: Piece, rem: &Vec<Piece>) -> (r: ([bool; 16], [bool; 16]))
    requires
        f@.len() == 16,
        empties(f@).len() <= 16,
        rem@.len() <= 16,
    ensures
        forall|m: int|
            0 <= m < empties(f@).len() ==> r.0@[m] == candidate_unsafe(
                f@,
                fp,
                #[trigger] empties(f@)[m],
                rem@,
                f.square_mode,
            ),
        forall|j: int|
            0 <= j < rem@.len() ==> r.1@[j] == piece_unsafe(f@, fp, #[trigger] rem@[j], f.square_mode),
{
    let ghost s = f@;
    let ghost sm = f.square_mode;
    let spaces = f.empty_spaces();
    let mut marked: [bool; 16] = [false;16];
    let mut piece_bad: [bool; 16] = [false;16];
    let mut m: usize = 0;
    while m < spaces.len()
        invariant
            s == f@,
            sm == f.square_mode,
            s.len() == 16,
            spaces@ == empties(s),
            spaces@.len() <= 16,
            rem@.len() <= 16,
            m <= spaces@.len(),
            forall|mm: int|
                0 <= mm < m as int ==> marked@[mm] == candidate_unsafe(
                    s,
                    fp,
                    #[trigger] empties(s)[mm],
                    rem@,
                    sm,
                ),
            forall|mm: int| m as int <= mm < 16 ==> !marked@[mm],
            forall|j: int|
                0 <= j < rem@.len() ==> piece_bad@[j] == piece_unsafe_among(
                    s,
                    fp,
                    #[trigger] rem@[j],
                    sm,
                    m as int,
                ),
        decreases spaces@.len() - m as int,
    {
        proof {
            lemma_empties(s);
        }
        let cpos = spaces[m];
        let mut hyp: Field = *f;
        let _ = hyp.put(cpos, fp);
        let mut j: usize = 0;
        while j < rem.len()
            invariant
                s == f@,
                sm == f.square_mode,
                s.len() == 16,
                spaces@ == empties(s),
                spaces@.len() <= 16,
                rem@.len() <= 16,
                m < spaces@.len(),
                cpos == empties(s)[m as int],
                hyp@ == placed(s, cpos, fp),
                hyp.square_mode == sm,
                hyp@.len() == 16,
                j <= rem@.len(),
                forall|mm: int|
                    0 <= mm < m as int ==> marked@[mm] == candidate_unsafe(
                        s,
                        fp,
                        #[trigger] empties(s)[mm],
                        rem@,
                        sm,
                    ),
                forall|mm: int| (m as int) < mm < 16 ==> !marked@[mm],
                marked@[m as int] == cand_unsafe_upto(s, fp, cpos, rem@, sm, j as int),
                forall|jj: int|
                    0 <= jj < rem@.len() ==> piece_bad@[jj] == (piece_unsafe_among(
                        s,
                        fp,
                        #[trigger] rem@[jj],
                        sm,
                        m as int,
                    ) || (jj < j as int && piece_unsafe_after(s, fp, cpos, rem@[jj], sm))),
        decreases rem@.len() - j as int,
        {
            let q = rem[j];
            proof {
                lemma_cand_upto_step(s, fp, cpos, rem@, sm, j as int);
            }
            if opponent_wins_somewhere(&hyp, q) {
                marked[m] = true;
                piece_bad[j] = true;
            }
            j = j + 1;
        }
        proof {
            assert(marked@[m as int] == candidate_unsafe(s, fp, empties(s)[m as int], rem@, sm));
            assert forall|jj: int| 0 <= jj < rem@.len() implies piece_bad@[jj]
                == piece_unsafe_among(s, fp, #[trigger] rem@[jj], sm, m as int + 1) by {
                lemma_among_step(s, fp, rem@[jj], sm, m as int);
            }
        }
        m = m + 1;
    }
    (marked, piece_bad)
}

impl SimpleAi {
    /// A selector for `own_player`, its random source seeded with `seed`:
    /// the decision stream is fully determined by the seed and the game
    /// states shown.
    pub fn with_seed(own_player: Player, seed: u64) -> (r: Self)
        ensures
            r.own_player == own_player,
            r.rng == seeded(seed),
    {
        Self { rng: RomuDuoJrRand::with_seed(seed), own_player }
    }

    /// Plays one turn: commits exactly one legal transition on `game` and
    /// returns the resulting state. On the initial move any remaining
    /// piece is handed over; in the `Move` phase the placement and the
    /// hand-off obey the one-ply lookahead stated by `ai_choice_ok`.
    /// Every move committed here succeeds: a failure would be a logic
    /// defect, and none can occur.
    pub fn play_iteratively(&mut self, game: &mut Game) -> (r: Game)
        requires
            old(game).wf(),
            crate::game::status_running(old(game).status),
            match old(game).status {
                Status::InitialMove { starting_player } => starting_player == old(self).own_player
                    && old(game).remaining_pieces@.len() > 0,
                _ => true,
            },
        ensures
            final(game).wf(),
            game_like(r, *final(game)),
            old(game).status is InitialMove ==> exists|p: Piece|
                old(game).remaining_pieces@.contains(p) && #[trigger] initial_hand_result(
                    *old(game),
                    *final(game),
                    p,
                ),
            old(game).status is Move ==> exists|pos: Pos, q: Piece|
                pos_valid(pos) && old(game).field@[pos_index(pos)] is None
                    && #[trigger] move_result(*old(game), *final(game), pos, q) && ai_choice_ok(
                    *old(game),
                    pos,
                    q,
                ),
    {
        let ghost g0 = *game;
        match game.status {
            Status::InitialMove { .. } => {
                let random_piece = self.rng.pick(&game.remaining_pieces);
                proof {
                    assert(g0.remaining_pieces@.contains(random_piece));
                }
                let res = game.initial_move(random_piece);
                match res {
                    Ok(()) => {},
                    Err(_) => vstd::pervasive::unreached(),
                }
                proof {
                    assert(initial_hand_result(g0, *game, random_piece));
                }
                game.clone()
            },
            Status::Move { next_player: _, next_piece: our_piece } => {
                self.play_move(game, our_piece)
            },
            Status::Won { .. } | Status::Draw { .. } => vstd::pervasive::unreached(),
        }
    }

    /// One turn of the `Move` phase: the immediate-win scan, then the
    /// one-ply lookahead.
    fn play_move(&mut self, game: &mut Game, our_piece: Piece) -> (r: Game)
        requires
            old(game).wf(),
            old(game).status matches Status::Move { next_piece: fp, .. } && fp == our_piece,
        ensures
            final(game).wf(),
            game_like(r, *final(game)),
            exists|pos: Pos, q: Piece|
                pos_valid(pos) && old(game).field@[pos_index(pos)] is None
                    && #[trigger] move_result(*old(game), *final(game), pos, q) && ai_choice_ok(
                    *old(game),
                    pos,
                    q,
                ),
    {
        let ghost g0 = *game;
        let ghost s = g0.field@;
        let ghost sm = g0.field.square_mode;
        let ghost rem = g0.remaining_pieces@;
        proof {
            lemma_empties(s);
            crate::game::lemma_count_bounds(s, 16);
        }
        match first_winning_space(&game.field, our_piece) {
            Some(pos) => {
                proof {
                    let m = choose|m: int|
                        #[trigger] first_win_index(s, our_piece, sm, m) && pos == empties(s)[m];
                    assert(pos_valid(pos) && s[pos_index(pos)] is None);
                    assert(has_immediate_win(s, our_piece, sm));
                }
                let next_piece = if game.remaining_pieces.len() == 0 {
                    our_piece
                } else {
                    game.remaining_pieces[0]
                };
                proof {
                    if rem.len() > 0 {
                        assert(rem.contains(rem[0]));
                    }
                }
                let res = game.do_move(pos, next_piece);
                match res {
                    Ok(()) => {},
                    Err(_) => vstd::pervasive::unreached(),
                }
                proof {
                    assert(ai_choice_ok(g0, pos, next_piece));
                }
                game.clone()
            },
            None => self.play_lookahead(game, our_piece),
        }
    }

    /// The one-ply lookahead, reached when no placement of the forced
    /// piece wins at once: filter globally unsafe hand-offs and unsafe
    /// placements, then commit per `ai_choice_ok`.
    #[verifier::loop_isolation(false)]
    #[verifier::rlimit(100)]
    fn play_lookahead(&mut self, game: &mut Game, our_piece: Piece) -> (r: Game)
        requires
            old(game).wf(),
            old(game).status matches Status::Move { next_piece: fp, .. } && fp == our_piece,
            !has_immediate_win(old(game).field@, our_piece, old(game).field.square_mode),
        ensures
            final(game).wf(),
            game_like(r, *final(game)),
            exists|pos: Pos, q: Piece|
                pos_valid(pos) && old(game).field@[pos_index(pos)] is None
                    && #[trigger] move_result(*old(game), *final(game), pos, q) && ai_choice_ok(
                    *old(game),
                    pos,
                    q,
                ),
    {
        let ghost g0 = *game;
        let ghost s = g0.field@;
        let ghost sm = g0.field.square_mode;
        let ghost rem = g0.remaining_pieces@;
        proof {
            lemma_empties(s);
            crate::game::lemma_count_bounds(s, 16);
        }
        let (marked, piece_bad) = scan_threats(&game.field, our_piece, &game.remaining_pieces);
        let empty_spaces = game.field.empty_spaces();
        proof {
            assert(empty_spaces@.len() >= 1);
        }
        let mut potential_picks: Vec<Piece> = Vec::new();
        let mut j: usize = 0;
        while j < game.remaining_pieces.len()
            invariant
                j <= rem.len(),
                forall|t: int|
                    0 <= t < potential_picks@.len() ==> rem.contains(
                        #[trigger] potential_picks@[t],
                    ) && !piece_unsafe(s, our_piece, potential_picks@[t], sm),
                potential_picks@.len() == 0 ==> forall|jj: int|
                    0 <= jj < j as int ==> piece_bad@[jj],
            decreases rem.len() - j as int,
        {
            if !piece_bad[j] {
                potential_picks.push(game.remaining_pieces[j]);
                proof {
                    assert(rem.contains(rem[j as int]));
                }
            }
            j = j + 1;
        }
        if potential_picks.len() == 0 {
            proof {
                assert(all_pieces_unsafe(s, our_piece, rem, sm));
            }
            if game.remaining_pieces.len() == 0 {
                let res = game.do_move(empty_spaces[0], our_piece);
                match res {
                    Ok(()) => {},
                    Err(_) => vstd::pervasive::unreached(),
                }
                proof {
                    assert(ai_choice_ok(g0, empties(s)[0], our_piece));
                }
                return game.clone();
            }
            let random_piece = self.rng.pick(&game.remaining_pieces);
            proof {
                assert(rem.contains(random_piece));
            }
            let res = game.do_move(empty_spaces[0], random_piece);
            match res {
                Ok(()) => {},
                Err(_) => vstd::pervasive::unreached(),
            }
            proof {
                assert(ai_choice_ok(g0, empties(s)[0], random_piece));
            }
            return game.clone();
        }
        let random_potential_pick = self.rng.pick(&potential_picks);
        proof {
            assert(rem.contains(random_potential_pick) && !piece_unsafe(
                s,
                our_piece,
                random_potential_pick,
                sm,
            ));
            let t = choose|t: int| 0 <= t < rem.len() && rem[t] == random_potential_pick;
            assert(!piece_unsafe(s, our_piece, rem[t], sm));
            assert(!all_pieces_unsafe(s, our_piece, rem, sm));
        }
        let mut surviving: Vec<Pos> = Vec::new();
        let mut m2: usize = 0;
        while m2 < empty_spaces.len()
            invariant
                m2 <= empties(s).len(),
                forall|t: int|
                    0 <= t < surviving@.len() ==> pos_valid(#[trigger] surviving@[t]) && s[pos_index(
                        surviving@[t],
                    )] is None && !candidate_unsafe(s, our_piece, surviving@[t], rem, sm),
                surviving@.len() == 0 ==> forall|t: int| 0 <= t < m2 as int ==> marked@[t],
            decreases empties(s).len() - m2 as int,
        {
            if !marked[m2] {
                surviving.push(empty_spaces[m2]);
            }
            m2 = m2 + 1;
        }
        if surviving.len() == 0 {
            proof {
                assert(all_candidates_unsafe(s, our_piece, rem, sm));
            }
            let random_piece = self.rng.pick(&game.remaining_pieces);
            let random_pos = self.rng.pick(&empty_spaces);
            proof {
                assert(rem.contains(random_piece));
                let t = choose|t: int| 0 <= t < empties(s).len() && random_pos == empties(s)[t];
                assert(pos_valid(random_pos) && s[pos_index(random_pos)] is None);
            }
            let res = game.do_move(random_pos, random_piece);
            match res {
                Ok(()) => {},
                Err(_) => vstd::pervasive::unreached(),
            }
            proof {
                assert(ai_choice_ok(g0, random_pos, random_piece));
            }
            return game.clone();
        }
        let chosen_pos = self.rng.pick(&surviving);
        proof {
            assert(pos_valid(chosen_pos) && s[pos_index(chosen_pos)] is None && !candidate_unsafe(
                s,
                our_piece,
                chosen_pos,
                rem,
                sm,
            ));
            let i0 = pos_index(surviving@[0]);
            assert(empties(s).contains(((i0 / 4) as usize, (i0 % 4) as usize)));
            assert(((i0 / 4) as usize, (i0 % 4) as usize) == surviving@[0]);
            let t = choose|t: int| 0 <= t < empties(s).len() && empties(s)[t] == surviving@[0];
            assert(!candidate_unsafe(s, our_piece, empties(s)[t], rem, sm));
            assert(!all_candidates_unsafe(s, our_piece, rem, sm));
        }
        let res = game.do_move(chosen_pos, random_potential_pick);
        match res {
            Ok(()) => {},
            Err(_) => vstd::pervasive::unreached(),
        }
        proof {
            assert(ai_choice_ok(g0, chosen_pos, random_potential_pick));
        }
        game.clone()
    }
}

} // verus!
