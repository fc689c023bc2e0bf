use vstd::prelude::*;

use crate::piece::Piece;

verus! {

/// A board position as `(row, column)`, both in `[0, 4)`.
pub type Pos = (usize, usize);

/// The 4x4 board. Cells are stored row-major; `square_mode` switches the
/// nine overlapping 2x2 blocks on as additional winning lines.
#[derive(Debug, Copy, Clone, PartialEq, Eq)]
pub struct Field {
    pub cells: [Option<Piece>; 16],
    pub square_mode: bool,
}

impl View for Field {
    type V = Seq<Option<Piece>>;

    closed spec fn view(&self) -> Seq<Option<Piece>> {
        self.cells@
    }
}

/// The row-major cell index of a position.
pub open spec fn pos_index(p: Pos) -> int {
    p.0 * 4 + p.1
}

/// Whether both coordinates of a position lie on the board.
pub open spec fn pos_valid(p: Pos) -> bool {
    p.0 < 4 && p.1 < 4
}

/// The attribute byte of the piece in a cell, 0 for an empty cell.
pub open spec fn props_at(s: Seq<Option<Piece>>, i: int) -> u8 {
    match s[i] {
        Some(p) => p.properties,
        None => 0,
    }
}

/// A line of four cells wins when all four are occupied and the bitwise
/// AND of their attribute bytes is non-zero: some attribute value is
/// shared by all four pieces.
pub open spec fn quad_wins(s: Seq<Option<Piece>>, a: int, b: int, c: int, d: int) -> bool {
    s[a] is Some && s[b] is Some && s[c] is Some && s[d] is Some && (props_at(s, a) & props_at(
        s,
        b,
    ) & props_at(s, c) & props_at(s, d)) != 0
}

/// Row `r` is a winning line.
pub open spec fn row_wins(s: Seq<Option<Piece>>, r: int) -> bool {
    quad_wins(s, 4 * r, 4 * r + 1, 4 * r + 2, 4 * r + 3)
}

/// Column `c` is a winning line.
pub open spec fn col_wins(s: Seq<Option<Piece>>, c: int) -> bool {
    quad_wins(s, c, c + 4, c + 8, c + 12)
}

/// The main diagonal is a winning line.
pub open spec fn diag_wins(s: Seq<Option<Piece>>) -> bool {
    quad_wins(s, 0, 5, 10, 15)
}

/// The anti-diagonal is a winning line.
pub open spec fn anti_diag_wins(s: Seq<Option<Piece>>) -> bool {
    quad_wins(s, 3, 6, 9, 12)
}

/// The 2x2 block whose top-left cell is `(i, k)` is a winning line.
pub open spec fn square_wins(s: Seq<Option<Piece>>, i: int, k: int) -> bool {
    quad_wins(s, 4 * i + k, 4 * i + k + 1, 4 * i + k + 4, 4 * i + k + 5)
}

/// The win condition: some line — a row, a column, one of the two
/// diagonals, or (with `square_mode`) one of the nine 2x2 blocks — is
/// fully occupied with an attribute shared by all four pieces.
pub open spec fn is_win(s: Seq<Option<Piece>>, square_mode: bool) -> bool {
    (exists|r: int| 0 <= r < 4 && #[trigger] row_wins(s, r)) || (exists|c: int|
        0 <= c < 4 && #[trigger] col_wins(s, c)) || diag_wins(s) || anti_diag_wins(s) || (
    square_mode && exists|i: int, k: int| 0 <= i < 3 && 0 <= k < 3 && #[trigger] square_wins(
        s,
        i,
        k,
    ))
}

/// The unoccupied positions among the first `k` cells, in row-major order.
pub open spec fn empties_upto(s: Seq<Option<Piece>>, k: int) -> Seq<Pos>
    decreases k,
{
    if k <= 0 {
        Seq::empty()
    } else {
        empties_upto(s, k - 1) + (if s[k - 1] is None {
            seq![(((k - 1) / 4) as usize, ((k - 1) % 4) as usize)]
        } else {
            Seq::empty()
        })
    }
}

/// All unoccupied positions of the board, in row-major order.
pub open spec fn empties(s: Seq<Option<Piece>>) -> Seq<Pos> {
    empties_upto(s, 16)
}

/// How many of the first `k` cells are occupied.
pub open spec fn count_occupied_upto(s: Seq<Option<Piece>>, k: int) -> int
    decreases k,
{
    if k <= 0 {
        0
    } else {
        count_occupied_upto(s, k - 1) + (if s[k - 1] is Some {
            1int
        } else {
            0int
        })
    }
}

/// How many cells of the board are occupied.
pub open spec fn occupied_count(s: Seq<Option<Piece>>) -> int {
    count_occupied_upto(s, 16)
}

/// The shape of the row-major empty-position listing over the first `k`
/// cells: together with the occupied cells it accounts for every index,
/// its members are exactly the empty cells, and it is strictly ordered.
pub proof fn lemma_empties_upto(s: Seq<Option<Piece>>, k: int)
    requires
        0 <= k <= 16,
    ensures
        empties_upto(s, k).len() + count_occupied_upto(s, k) == k,
        forall|m: int|
            0 <= m < empties_upto(s, k).len() ==> pos_valid(#[trigger] empties_upto(s, k)[m])
                && pos_index(empties_upto(s, k)[m]) < k && s[pos_index(empties_upto(s, k)[m])]
                is None,
        forall|m1: int, m2: int|
            0 <= m1 < m2 < empties_upto(s, k).len() ==> pos_index(
                #[trigger] empties_upto(s, k)[m1],
            ) < pos_index(#[trigger] empties_upto(s, k)[m2]),
        forall|i: int|
            0 <= i < k && s[i] is None ==> empties_upto(s, k).contains(
                ((i / 4) as usize, (i % 4) as usize),
            ),
    decreases k,
{
    if k > 0 {
        lemma_empties_upto(s, k - 1);
        let prev = empties_upto(s, k - 1);
        let cur = empties_upto(s, k);
        if s[k - 1] is None {
            let p = (((k - 1) / 4) as usize, ((k - 1) % 4) as usize);
            assert(pos_index(p) == k - 1);
            assert(cur == prev + seq![p]);
            assert(cur[cur.len() - 1] == p);
            assert forall|i: int|
                0 <= i < k && s[i] is None implies cur.contains(
                ((i / 4) as usize, (i % 4) as usize),
            ) by {
                if i < k - 1 {
                    let q = ((i / 4) as usize, (i % 4) as usize);
                    let m = choose|m: int| 0 <= m < prev.len() && prev[m] == q;
                    assert(cur[m] == q);
                } else {
                    assert(cur[cur.len() - 1] == ((i / 4) as usize, (i % 4) as usize));
                }
            }
        } else {
            assert(cur == prev + Seq::<Pos>::empty());
            assert(cur =~= prev);
            assert forall|i: int|
                0 <= i < k && s[i] is None implies cur.contains(
                ((i / 4) as usize, (i % 4) as usize),
            ) by {
                let q = ((i / 4) as usize, (i % 4) as usize);
                let m = choose|m: int| 0 <= m < prev.len() && prev[m] == q;
                assert(cur[m] == q);
            }
        }
    }
}

/// The corollaries used throughout: the empty listing pairs with the
/// occupied count, lists exactly the empty cells, and is strictly ordered.
pub proof fn lemma_empties(s: Seq<Option<Piece>>)
    ensures
        empties(s).len() + occupied_count(s) == 16,
        forall|m: int|
            0 <= m < empties(s).len() ==> pos_valid(#[trigger] empties(s)[m]) && s[pos_index(
                empties(s)[m],
            )] is None,
        forall|m1: int, m2: int|
            0 <= m1 < m2 < empties(s).len() ==> pos_index(#[trigger] empties(s)[m1]) < pos_index(
                #[trigger] empties(s)[m2],
            ),
        forall|i: int|
            0 <= i < 16 && s[i] is None ==> empties(s).contains(((i / 4) as usize, (i % 4) as usize)),
{
    lemma_empties_upto(s, 16);
}

impl Field {
    /// A fresh, fully empty board with `square_mode` off.
    pub fn new() -> (r: Self)
        ensures
            r@.len() == 16,
            forall|i: int| 0 <= i < 16 ==> r@[i] is None,
            !r.square_mode,
    {
        Field { cells: [None;16], square_mode: false }
    }

    /// Places a piece on an empty cell; an occupied target is reported and
    /// the board is left unchanged.
    pub fn put(&mut self, pos: Pos, piece: Piece) -> (r: Result<(), ()>)
        requires
            pos_valid(pos),
        ensures
            old(self)@[pos_index(pos)] is None ==> r is Ok && final(self)@ == old(self)@.update(
                pos_index(pos),
                Some(piece),
            ),
            old(self)@[pos_index(pos)] is Some ==> r is Err && *final(self) == *old(self),
            final(self).square_mode == old(self).square_mode,
            final(self)@.len() == 16,
    {
        let i = pos.0 * 4 + pos.1;
        if self.cells[i].is_none() {
            self.cells[i] = Some(piece);
            return Ok(());
        }
        Err(())
    }

    /// Reads a cell.
    pub fn get(&self, pos: Pos) -> (r: Option<Piece>)
        requires
            pos_valid(pos),
        ensures
            r == self@[pos_index(pos)],
    {
        self.cells[pos.0 * 4 + pos.1]
    }

    /// Empties a cell, returning what it held.
    pub fn clear(&mut self, pos: Pos) -> (r: Option<Piece>)
        requires
            pos_valid(pos),
        ensures
            r == old(self)@[pos_index(pos)],
            final(self)@ == old(self)@.update(pos_index(pos), None),
            final(self).square_mode == old(self).square_mode,
    {
        let ret = self.get(pos);
        self.cells[pos.0 * 4 + pos.1] = None;
        ret
    }

    /// Whether the four given cells form a winning line.
    fn check_quad(&self, a: usize, b: usize, c: usize, d: usize) -> (r: bool)
        requires
            a < 16,
            b < 16,
            c < 16,
            d < 16,
        ensures
            r == quad_wins(self@, a as int, b as int, c as int, d as int),
    {
        let pa = match self.cells[a] {
            Some(p) => p.properties,
            None => { return false },
        };
        let pb = match self.cells[b] {
            Some(p) => p.properties,
            None => { return false },
        };
        let pc = match self.cells[c] {
            Some(p) => p.properties,
            None => { return false },
        };
        let pd = match self.cells[d] {
            Some(p) => p.properties,
            None => { return false },
        };
        (pa & pb & pc & pd) != 0
    }

    /// Evaluates the win condition over rows, columns, the two diagonals
    /// and — when `square_mode` is on — the nine 2x2 blocks, in that
    /// fixed order. A pure query: the board is not touched.
    pub fn check_field_for_win(&self) -> (r: bool)
        ensures
            r == is_win(self@, self.square_mode),
    {
        let mut r: usize = 0;
        while r < 4
            invariant
                r <= 4,
                forall|rr: int| 0 <= rr < r as int ==> !row_wins(self@, rr),
            decreases 4 - r as int,
        {
            if self.check_quad(4 * r, 4 * r + 1, 4 * r + 2, 4 * r + 3) {
                proof {
                    assert(row_wins(self@, r as int));
                }
                return true;
            }
            r = r + 1;
        }
        let mut c: usize = 0;
        while c < 4
            invariant
                c <= 4,
                forall|cc: int| 0 <= cc < c as int ==> !col_wins(self@, cc),
            decreases 4 - c as int,
        {
            if self.check_quad(c, c + 4, c + 8, c + 12) {
                proof {
                    assert(col_wins(self@, c as int));
                }
                return true;
            }
            c = c + 1;
        }
        if self.check_quad(0, 5, 10, 15) {
            return true;
        }
        if self.check_quad(3, 6, 9, 12) {
            return true;
        }
        if self.square_mode {
            let mut i: usize = 0;
            while i < 3
                invariant
                    i <= 3,
                    self.square_mode,
                    forall|ii: int, kk: int|
                        0 <= ii < i as int && 0 <= kk < 3 ==> !square_wins(self@, ii, kk),
                decreases 3 - i as int,
            {
                let mut k: usize = 0;
                while k < 3
                    invariant
                        i < 3,
                        k <= 3,
                        self.square_mode,
                        forall|ii: int, kk: int|
                            0 <= ii < i as int && 0 <= kk < 3 ==> !square_wins(self@, ii, kk),
                        forall|kk: int| 0 <= kk < k as int ==> !square_wins(self@, i as int, kk),
                    decreases 3 - k as int,
                {
                    if self.check_quad(4 * i + k, 4 * i + k + 1, 4 * i + k + 4, 4 * i + k + 5) {
                        proof {
                            assert(square_wins(self@, i as int, k as int));
                        }
                        return true;
                    }
                    k = k + 1;
                }
                i = i + 1;
            }
        }
        false
    }

    /// The unoccupied positions in row-major order (row 0 left to right,
    /// then row 1, and so on). This order is load-bearing: it is the
    /// deterministic enumeration the move selector falls back on.
    pub fn empty_spaces(&self) -> (r: Vec<Pos>)
        ensures
            r@ == empties(self@),
    {
        let mut ret: Vec<Pos> = Vec::new();
        let mut x: usize = 0;
        while x < 4
            invariant
                x <= 4,
                ret@ == empties_upto(self@, 4 * x as int),
            decreases 4 - x as int,
        {
            let mut y: usize = 0;
            while y < 4
                invariant
                    x < 4,
                    y <= 4,
                    ret@ == empties_upto(self@, 4 * x as int + y as int),
                decreases 4 - y as int,
            {
                if self.cells[4 * x + y].is_none() {
                    ret.push((x, y));
                }
                proof {
                    let k = 4 * x as int + y as int + 1;
                    assert(empties_upto(self@, k) == empties_upto(self@, k - 1) + (if self@[k - 1]
                        is None {
                        seq![(((k - 1) / 4) as usize, ((k - 1) % 4) as usize)]
                    } else {
                        Seq::<Pos>::empty()
                    }));
                    if self@[k - 1] is None {
                        assert((((k - 1) / 4) as usize, ((k - 1) % 4) as usize) == (x, y));
                        assert(ret@ =~= empties_upto(self@, k));
                    } else {
                        assert(ret@ =~= empties_upto(self@, k));
                    }
                }
                y = y + 1;
            }
            x = x + 1;
        }
        ret
    }
}

} // verus!
