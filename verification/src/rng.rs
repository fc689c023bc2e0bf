use vstd::prelude::*;

verus! {

/// How many draws a single rejection-sampling call may make before it
/// settles for the last draw. The bound exists only so that every loop in
/// the library provably terminates; with draws accepted at least half the
/// time it is unreachable in practice.
pub const DRAW_CAP: u64 = 0xFFFF_FFFF_FFFF_FFFF;

/// A deterministic, seeded two-word generator: the same seed always yields
/// the same output stream.
#[derive(Debug, Copy, Clone, PartialEq, Eq, Structural)]
pub struct RomuDuoJrRand {
    x_state: u64,
    y_state: u64,
}

/// The state obtained by expanding a 64-bit seed with fixed XOR constants.
pub closed spec fn seeded(seed: u64) -> RomuDuoJrRand {
    RomuDuoJrRand { x_state: seed ^ 0x12345, y_state: seed ^ 0x6789A }
}

/// Left rotation of a 64-bit word by 27 bits.
pub open spec fn rotl27(x: u64) -> u64 {
    (x << 27) | (x >> 37)
}

/// The state one `next` call ahead of `s`: the new first word is a fixed
/// multiple of the second, the new second word is the rotated difference.
pub closed spec fn stepped(s: RomuDuoJrRand) -> RomuDuoJrRand {
    RomuDuoJrRand {
        x_state: vstd::wrapping::u64_specs::wrapping_mul(15241094284759029579u64, s.y_state),
        y_state: rotl27(vstd::wrapping::u64_specs::wrapping_sub(s.y_state, s.x_state)),
    }
}

/// The state `k` calls of `next` ahead of `s`.
pub open spec fn state_after(s: RomuDuoJrRand, k: nat) -> RomuDuoJrRand
    decreases k,
{
    if k == 0 {
        s
    } else {
        stepped(state_after(s, (k - 1) as nat))
    }
}

/// What the `k`-th call of `next` (counting from 0) returns when started
/// from state `s`.
pub closed spec fn out_at(s: RomuDuoJrRand, k: nat) -> u64 {
    state_after(s, k).x_state
}

/// Whether a raw draw is kept by the rejection sampling for bound `n`:
/// draws at or above the largest multiple of `n` that fits are discarded,
/// which removes the modulo bias.
pub open spec fn draw_accepted(draw: u64, n: u64) -> bool {
    draw < u64::MAX - (u64::MAX % n)
}

/// The first `k` draws from `s` are all rejected for bound `n`.
pub open spec fn draws_rejected_below(s: RomuDuoJrRand, n: u64, k: nat) -> bool {
    forall|j: nat| j < k ==> !draw_accepted(#[trigger] out_at(s, j), n)
}

/// `k` is the index of the first accepted draw from `s` for bound `n`.
pub open spec fn first_accepted(s: RomuDuoJrRand, n: u64, k: nat) -> bool {
    draw_accepted(out_at(s, k), n) && draws_rejected_below(s, n, k)
}

/// The relation `below(n)` establishes between its starting state `s`, its
/// final state `s1` and its result `r`, for `n >= 2`: either some draw
/// among the first `DRAW_CAP` was accepted, and then the first such draw
/// was reduced modulo `n`; or every draw was rejected and the last one was
/// reduced (unreachable in practice, see `DRAW_CAP`).
pub open spec fn below_rel(s: RomuDuoJrRand, n: u64, s1: RomuDuoJrRand, r: u64) -> bool {
    (exists|k: nat|
        k < DRAW_CAP && #[trigger] first_accepted(s, n, k) && r == out_at(s, k) % n && s1
            == state_after(s, (k + 1) as nat)) || (draws_rejected_below(s, n, DRAW_CAP as nat) && r
        == out_at(s, (DRAW_CAP - 1) as nat) % n && s1 == state_after(s, DRAW_CAP as nat))
}

/// Law: the index of the first accepted draw is unique, so `below_rel`
/// pins the result and the final state as functions of the starting state
/// and the bound alone — the output stream is fully determined by the seed.
pub proof fn lemma_below_deterministic(
    s: RomuDuoJrRand,
    n: u64,
    s1: RomuDuoJrRand,
    r1: u64,
    s2: RomuDuoJrRand,
    r2: u64,
)
    requires
        below_rel(s, n, s1, r1),
        below_rel(s, n, s2, r2),
    ensures
        s1 == s2,
        r1 == r2,
{
    assert forall|k1: nat, k2: nat|
        first_accepted(s, n, k1) && first_accepted(s, n, k2) implies k1 == k2 by {
        if k1 < k2 {
            assert(!draw_accepted(out_at(s, k1), n));
        } else if k2 < k1 {
            assert(!draw_accepted(out_at(s, k2), n));
        }
    }
    if exists|k: nat| k < DRAW_CAP && #[trigger] first_accepted(s, n, k) {
        let k = choose|k: nat| k < DRAW_CAP && #[trigger] first_accepted(s, n, k);
        assert(!draws_rejected_below(s, n, DRAW_CAP as nat)) by {
            assert(draw_accepted(out_at(s, k), n));
        }
    }
}

impl RomuDuoJrRand {
    /// Creates a new generator from the given seed.
    pub fn with_seed(seed: u64) -> (r: Self)
        ensures
            r == seeded(seed),
    {
        let mut rand = Self { x_state: 0, y_state: 0 };
        rand.set_seed(seed);
        rand
    }

    fn set_seed(&mut self, seed: u64)
        ensures
            *final(self) == seeded(seed),
    {
        self.x_state = seed ^ 0x12345;
        self.y_state = seed ^ 0x6789A;
    }

    /// Advances the state one step and returns the next 64-bit value.
    #[inline]
    pub fn next(&mut self) -> (r: u64)
        ensures
            r == out_at(*old(self), 0),
            *final(self) == stepped(*old(self)),
    {
        let xp = self.x_state;
        self.x_state = 15241094284759029579u64.wrapping_mul(self.y_state);
        self.y_state = (self.y_state.wrapping_sub(xp) << 27) | (self.y_state.wrapping_sub(xp)
            >> 37);
        xp
    }

    /// Returns a value uniformly distributed in `[0, n)` for `n >= 2`,
    /// using rejection sampling to avoid modulo bias; returns 0 for
    /// `n <= 1` without touching the state.
    pub fn below(&mut self, upper_bound_excl: u64) -> (r: u64)
        ensures
            upper_bound_excl >= 1 ==> r < upper_bound_excl,
            upper_bound_excl <= 1 ==> r == 0 && *final(self) == *old(self),
            upper_bound_excl >= 2 ==> below_rel(*old(self), upper_bound_excl, *final(self), r),
    {
        if upper_bound_excl <= 1 {
            return 0;
        }
        let ghost s0 = *self;
        let ghost n = upper_bound_excl;
        let limit = u64::MAX - (u64::MAX % upper_bound_excl);
        let mut i: u64 = 0;
        let mut unbiased_rnd: u64 = 0;
        loop
            invariant_except_break
                n == upper_bound_excl,
                2 <= n,
                limit == u64::MAX - (u64::MAX % n),
                i < DRAW_CAP,
                *self == state_after(s0, i as nat),
                draws_rejected_below(s0, n, i as nat),
            ensures
                n == upper_bound_excl,
                limit == u64::MAX - (u64::MAX % n),
                (first_accepted(s0, n, (i - 1) as nat) && i >= 1 && i - 1 < DRAW_CAP && unbiased_rnd
                    == out_at(s0, (i - 1) as nat) && *self == state_after(s0, i as nat)) || (i
                    == DRAW_CAP && draws_rejected_below(s0, n, DRAW_CAP as nat) && unbiased_rnd
                    == out_at(s0, (DRAW_CAP - 1) as nat) && *self == state_after(
                    s0,
                    DRAW_CAP as nat,
                )),
            decreases DRAW_CAP - i,
        {
            proof {
                assert(state_after(s0, (i + 1) as nat) == stepped(state_after(s0, i as nat)));
            }
            unbiased_rnd = self.next();
            i = i + 1;
            if unbiased_rnd < limit {
                break ;
            }
            proof {
                assert forall|j: nat| j < i as nat implies !draw_accepted(
                    #[trigger] out_at(s0, j),
                    n,
                ) by {
                    if j == (i - 1) as nat {
                        assert(out_at(s0, j) == unbiased_rnd);
                    }
                }
            }
            if i == DRAW_CAP {
                break ;
            }
        }
        proof {
            assert(unbiased_rnd % n < n);
        }
        unbiased_rnd % upper_bound_excl
    }

    /// Picks one element of a non-empty vector, the index drawn through
    /// `below` on the vector's length; with `lemma_below_deterministic`
    /// the chosen element is a function of the state and the vector alone.
    /// Asking for an element of an empty vector is a programmer error and
    /// is ruled out by contract.
    pub fn pick<T: Copy>(&mut self, from: &Vec<T>) -> (r: T)
        requires
            from@.len() >= 1,
        ensures
            exists|i: int| 0 <= i < from@.len() && r == from@[i],
            from@.len() == 1 ==> r == from@[0] && *final(self) == *old(self),
            from@.len() >= 2 ==> exists|idx: u64|
                #[trigger] below_rel(*old(self), from@.len() as u64, *final(self), idx) && idx
                    < from@.len() && r == from@[idx as int],
    {
        let index = self.below(from.len() as u64) as usize;
        from[index]
    }
}

} // verus!
