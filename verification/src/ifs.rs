//! Weighted affine maps and the system that selects among them.

use vstd::prelude::*;

use crate::fixed::{fx_mul, fx_mul_spec, sat64, sat_add3, sat_i64, SCALE};
use crate::rng::{draw_at, state_after, step_state, XorShift128};
use crate::vertex::Vertex;

verus! {

use vstd::arithmetic::div_mod::{
    lemma_div_pos_is_pos, lemma_multiply_divide_le, lemma_multiply_divide_lt,
};
use vstd::arithmetic::mul::{
    lemma_mul_inequality, lemma_mul_nonnegative, lemma_mul_strict_inequality,
    lemma_mul_upper_bound,
};

/// The seed every plain `generate` pass starts from. Reseeding the same
/// stream each pass is a deliberate reproducibility choice: callers that
/// want frame-to-frame variety pass their own seed to
/// [`IFS::generate_seeded`].
pub const DEFAULT_SEED: u64 = 0;

/// One equation of an iterated function system: the affine map
/// `x' = a*x + b*y + e`, `y' = c*x + d*y + f` plus a relative selection
/// weight `p`. All fields are fixed-point raw values.
#[derive(Clone, Copy, PartialEq, Eq, Structural, Debug)]
pub struct Eqn {
    pub a: i64,
    pub b: i64,
    pub c: i64,
    pub d: i64,
    pub e: i64,
    pub f: i64,
    pub p: i64,
}

/// What `Eqn::eval` returns: each output coordinate is the fixed-point
/// affine combination of the input coordinates, saturated into `i64`;
/// the hue tag passes through unchanged.
pub open spec fn spec_eval(q: Eqn, v: Vertex) -> Vertex {
    Vertex {
        x: sat_i64(
            fx_mul_spec(q.a as int, v.x as int) + fx_mul_spec(q.b as int, v.y as int)
                + q.e as int,
        ) as i64,
        y: sat_i64(
            fx_mul_spec(q.c as int, v.x as int) + fx_mul_spec(q.d as int, v.y as int)
                + q.f as int,
        ) as i64,
        hue: v.hue,
    }
}

impl Default for Eqn {
    /// The all-zero map with zero weight, the blank row a user edits.
    fn default() -> (r: Eqn)
        ensures
            r == (Eqn { a: 0, b: 0, c: 0, d: 0, e: 0, f: 0, p: 0 }),
    {
        Eqn { a: 0, b: 0, c: 0, d: 0, e: 0, f: 0, p: 0 }
    }
}

impl Eqn {
    /// Apply the affine map to a point. Pure and total: products are
    /// rescaled with truncation and the sums saturate, so degenerate
    /// (non-contracting) coefficients are accepted and at worst pin the
    /// result to the ends of the fixed-point range.
    pub fn eval(&self, v: Vertex) -> (r: Vertex)
        ensures
            r == spec_eval(*self, v),
    {
        Vertex {
            x: sat_add3(fx_mul(self.a, v.x), fx_mul(self.b, v.y), self.e),
            y: sat_add3(fx_mul(self.c, v.x), fx_mul(self.d, v.y), self.f),
            hue: v.hue,
        }
    }
}

/// The sum of the selection weights of a sequence of equations.
pub open spec fn sum_weights(s: Seq<Eqn>) -> int
    decreases s.len(),
{
    if s.len() == 0 {
        0
    } else {
        sum_weights(s.drop_last()) + s.last().p
    }
}

/// The cumulative weight in front of index `i`: the sum of the first
/// `i` selection weights, the left end of equation `i`'s selection
/// interval.
pub open spec fn cum_weight(s: Seq<Eqn>, i: int) -> int {
    sum_weights(s.take(i))
}

/// The index the cumulative scan settles on for a draw `d`: the first
/// equation whose half-open cumulative interval `[s_i, s_i + p_i)`
/// contains `d` (strict `<`, so a draw exactly on a boundary falls into
/// the next interval), or the last index as the defined fallback when no
/// interval matches.
pub open spec fn pick_index(s: Seq<Eqn>, d: int) -> int
    decreases s.len(),
{
    if s.len() <= 1 {
        0
    } else if d < s[0].p {
        0
    } else {
        1 + pick_index(s.skip(1), d - s[0].p)
    }
}

/// The scan's result is always a valid index of a nonempty sequence.
pub proof fn lemma_pick_index_in_range(s: Seq<Eqn>, d: int)
    requires
        s.len() > 0,
    ensures
        0 <= pick_index(s, d) < s.len(),
    decreases s.len(),
{
    if s.len() > 1 && !(d < s[0].p) {
        lemma_pick_index_in_range(s.skip(1), d - s[0].p);
    }
}

/// The draw point a unit draw `u` in `[0, SCALE)` is scaled to:
/// `u * total / SCALE`, a value in `[0, total)` when `total > 0`.
pub open spec fn draw_of_unit(u: int, total: int) -> int {
    (u * total) / (SCALE as int)
}

/// A unit draw scales to a draw point inside `[0, total)`.
pub proof fn lemma_draw_of_unit_in_range(u: int, total: int)
    requires
        0 <= u < SCALE,
        0 < total,
    ensures
        0 <= draw_of_unit(u, total) < total,
{
    lemma_mul_nonnegative(u, total);
    lemma_div_pos_is_pos(u * total, SCALE as int);
    lemma_mul_strict_inequality(u, SCALE as int, total);
    lemma_multiply_divide_lt(u * total, SCALE as int, total);
}

/// The draw point a 32-bit draw `u` is scaled to: `u * total / 2^32`,
/// a value in `[0, total)` when `total > 0`.
pub open spec fn draw_of_u32(u: int, total: int) -> int {
    (u * total) / 0x1_0000_0000
}

/// A 32-bit draw scales to a draw point inside `[0, total)`.
pub proof fn lemma_draw_of_u32_in_range(u: int, total: int)
    requires
        0 <= u < 0x1_0000_0000,
        0 < total,
    ensures
        0 <= draw_of_u32(u, total) < total,
{
    lemma_mul_nonnegative(u, total);
    lemma_div_pos_is_pos(u * total, 0x1_0000_0000);
    lemma_mul_strict_inequality(u, 0x1_0000_0000, total);
    lemma_multiply_divide_lt(u * total, 0x1_0000_0000, total);
}

/// The hue tag of output slot `k - 1` in a buffer of length `n`: the
/// fixed-point rendering of the fraction `k / n`, truncated.
pub open spec fn hue_of(k: int, n: int) -> int {
    (k * (SCALE as int)) / n
}

/// For `1 <= k <= n` the hue fraction lies in `(0, SCALE]`.
pub proof fn lemma_hue_of_in_range(k: int, n: int)
    requires
        1 <= k <= n,
    ensures
        0 <= hue_of(k, n) <= SCALE as int,
{
    lemma_mul_nonnegative(k, SCALE as int);
    lemma_div_pos_is_pos(k * (SCALE as int), n);
    lemma_mul_inequality(k, n, SCALE as int);
    lemma_multiply_divide_le(k * (SCALE as int), n, SCALE as int);
}

/// The point written into output slot `k` of a generation pass: the
/// previous point (slot `k - 1`, or the origin for the first slot) run
/// through the equation the `k`-th draw selects, with the hue tag set to
/// the fixed-point value of `(k + 1) / n`.
pub open spec fn point_at(eqns: Seq<Eqn>, total: int, seed: u64, n: nat, k: nat) -> Vertex
    decreases k,
{
    let prev = if k == 0 {
        Vertex { x: 0, y: 0, hue: 0 }
    } else {
        point_at(eqns, total, seed, n, (k - 1) as nat)
    };
    let d = draw_of_u32(draw_at(seed, k) as int, total);
    let ev = spec_eval(eqns[pick_index(eqns, d)], prev);
    Vertex { x: ev.x, y: ev.y, hue: hue_of(k as int + 1, n as int) as i64 }
}

/// The whole output of a generation pass over `eqns` into a buffer of
/// length `n` with the given seed: a pure function of those three
/// values, which is what makes `generate` reproducible.
pub open spec fn generate_out(eqns: Seq<Eqn>, n: nat, seed: u64) -> Seq<Vertex> {
    Seq::new(n, |k: int| point_at(eqns, sat_i64(sum_weights(eqns)), seed, n, k as nat))
}

/// The ways a generation or selection call can be refused.
#[derive(Clone, Copy, PartialEq, Eq, Structural, Debug)]
pub enum IfsError {
    /// The weights sum to zero or less, so no selection interval exists.
    InvalidTotalWeight,
    /// The system holds no equation, so not even a fallback can be
    /// returned; only a stale cached total can reach this.
    EmptySystem,
}

/// An ordered set of weighted equations with a cached total weight.
/// The order is irrelevant to the attractor but fixes the cumulative
/// intervals the selection scan walks, so it must be stable. The cached
/// total is a derived value: it is recomputed by [`IFS::new`],
/// [`IFS::update_sum`] and [`IFS::generate`], not kept valid through
/// edits of the public `eqns` field.
#[derive(Clone, Debug)]
pub struct IFS {
    pub eqns: Vec<Eqn>,
    /// The cached total weight; a derived value, see [`IFS::update_sum`].
    pub sum: i64,
}

impl IFS {
    /// The cached total weight, as last computed: the saturated sum of
    /// the member weights at that time.
    pub open spec fn total(&self) -> int {
        self.sum as int
    }

    /// Build a system and compute its total weight.
    pub fn new(e: Vec<Eqn>) -> (r: IFS)
        ensures
            r.eqns == e,
            r.total() == sat_i64(sum_weights(e@)),
    {
        let mut l = IFS { eqns: e, sum: 0 };
        l.update_sum();
        l
    }

    /// The cached total weight as a raw value.
    pub fn total_weight(&self) -> (r: i64)
        ensures
            r as int == self.total(),
    {
        self.sum
    }

    /// Recompute the cached total as the sum of all member weights
    /// (saturated into `i64`). Required after any structural or weight
    /// edit, before `select`; `generate` performs it itself.
    pub fn update_sum(&mut self)
        ensures
            final(self).eqns == old(self).eqns,
            final(self).total() == sat_i64(sum_weights(old(self).eqns@)),
    {
        let n: usize = self.eqns.len();
        let mut acc: i128 = 0;
        let mut i: usize = 0;
        while i < n
            invariant
                i <= n,
                n == self.eqns@.len(),
                self.eqns == old(self).eqns,
                self.sum == old(self).sum,
                acc as int == sum_weights(self.eqns@.take(i as int)),
                -0x8000_0000_0000_0000 * (i as int) <= acc as int
                    <= 0x8000_0000_0000_0000 * (i as int),
            decreases n - i,
        {
            let ghost prefix = self.eqns@.take(i as int);
            acc = acc + (self.eqns[i].p as i128);
            i = i + 1;
            proof {
                assert(self.eqns@.take(i as int).drop_last() =~= prefix);
                assert(self.eqns@.take(i as int).last() == self.eqns@[i - 1]);
            }
        }
        proof {
            assert(self.eqns@.take(n as int) =~= self.eqns@);
        }
        self.sum = sat64(acc);
    }

    /// Walk the cumulative intervals for a draw point `d` and return the
    /// selected index: the first interval containing `d`, or the last
    /// index as the defined fallback.
    fn scan(&self, d: i64) -> (idx: usize)
        requires
            self.eqns.len() > 0,
        ensures
            idx < self.eqns@.len(),
            idx as int == pick_index(self.eqns@, d as int),
    {
        let n: usize = self.eqns.len();
        let mut i: usize = 0;
        let mut rem: i128 = d as i128;
        proof {
            assert(self.eqns@.skip(0) =~= self.eqns@);
        }
        while i < n - 1
            invariant
                0 <= i < n,
                n == self.eqns@.len(),
                pick_index(self.eqns@, d as int) == i + pick_index(
                    self.eqns@.skip(i as int),
                    rem as int,
                ),
                -0x8000_0000_0000_0000 <= rem as int
                    <= 0x8000_0000_0000_0000 * (1 + i as int),
            decreases n - i,
        {
            let ghost tail = self.eqns@.skip(i as int);
            let w: i128 = self.eqns[i].p as i128;
            proof {
                assert(tail[0] == self.eqns@[i as int]);
                assert(tail.len() > 1);
            }
            if rem < w {
                return i;
            }
            proof {
                assert(tail.skip(1) =~= self.eqns@.skip(i as int + 1));
            }
            rem = rem - w;
            i = i + 1;
        }
        proof {
            assert(self.eqns@.skip(i as int).len() == 1);
        }
        i
    }

    /// Weighted selection. Scales the unit draw by the cached total to a
    /// draw point, then returns the equation whose cumulative interval
    /// contains it (fallback: the last equation). Refused when the
    /// cached total is zero or less — an invalid configuration — or when
    /// the system is empty while the cached total is stale-positive.
    pub fn select(&self, random_unit: i64) -> (r: Result<Eqn, IfsError>)
        requires
            0 <= random_unit < SCALE,
        ensures
            match r {
                Ok(q) => self.total() > 0 && self.eqns@.len() > 0 && q == self.eqns@[pick_index(
                    self.eqns@,
                    draw_of_unit(random_unit as int, self.total()),
                )],
                Err(IfsError::InvalidTotalWeight) => self.total() <= 0,
                Err(IfsError::EmptySystem) => self.total() > 0 && self.eqns@.len() == 0,
            },
    {
        if self.sum <= 0 {
            return Err(IfsError::InvalidTotalWeight);
        }
        if self.eqns.len() == 0 {
            return Err(IfsError::EmptySystem);
        }
        proof {
            lemma_draw_of_unit_in_range(random_unit as int, self.total());
            lemma_mul_nonnegative(random_unit as int, self.total());
        }
        let d128: u128 = (random_unit as u128) * (self.sum as u128) / (SCALE as u128);
        let d: i64 = d128 as i64;
        let idx: usize = self.scan(d);
        Ok(self.eqns[idx])
    }

    /// Run one chaos-game pass with the fixed default seed, overwriting
    /// the buffer in place. Two calls with the same system and buffer
    /// length produce identical output, element for element.
    pub fn generate(&mut self, v: &mut Vec<Vertex>) -> (r: Result<(), IfsError>)
        ensures
            final(self).eqns == old(self).eqns,
            final(self).total() == sat_i64(sum_weights(old(self).eqns@)),
            final(v)@.len() == old(v)@.len(),
            match r {
                Ok(()) => final(self).total() > 0 && final(v)@ == generate_out(
                    old(self).eqns@,
                    old(v)@.len() as nat,
                    DEFAULT_SEED,
                ),
                Err(err) => err == IfsError::InvalidTotalWeight && final(self).total() <= 0
                    && final(v)@ == old(v)@,
            },
    {
        self.generate_seeded(v, DEFAULT_SEED)
    }

    /// Run one chaos-game pass with a caller-chosen seed. Recomputes the
    /// total weight, then, starting from the origin, repeatedly draws,
    /// selects an equation, applies it, tags the point with its position
    /// in the sequence and writes it into the next slot. Refused — with
    /// the buffer untouched — exactly when the recomputed total weight
    /// is zero or less.
    pub fn generate_seeded(&mut self, v: &mut Vec<Vertex>, seed: u64) -> (r: Result<
        (),
        IfsError,
    >)
        ensures
            final(self).eqns == old(self).eqns,
            final(self).total() == sat_i64(sum_weights(old(self).eqns@)),
            final(v)@.len() == old(v)@.len(),
            match r {
                Ok(()) => final(self).total() > 0 && final(v)@ == generate_out(
                    old(self).eqns@,
                    old(v)@.len() as nat,
                    seed,
                ),
                Err(err) => err == IfsError::InvalidTotalWeight && final(self).total() <= 0
                    && final(v)@ == old(v)@,
            },
    {
        self.update_sum();
        if self.sum <= 0 {
            return Err(IfsError::InvalidTotalWeight);
        }
        let ghost eqs = self.eqns@;
        let ghost total = self.sum as int;
        proof {
            assert(eqs.len() > 0);
        }
        let n: usize = v.len();
        let mut rng_st = XorShift128::new(seed);
        let mut current = Vertex { x: 0, y: 0, hue: 0 };
        let mut i: usize = 0;
        while i < n
            invariant
                i <= n,
                n == v@.len(),
                v@.len() == old(v)@.len(),
                self.eqns@ == eqs,
                self.sum as int == total,
                eqs == old(self).eqns@,
                eqs.len() > 0,
                total == sat_i64(sum_weights(eqs)),
                total > 0,
                rng_st == state_after(seed, i as nat),
                i == 0 ==> current == (Vertex { x: 0, y: 0, hue: 0 }),
                i > 0 ==> current == point_at(eqs, total, seed, n as nat, (i - 1) as nat),
                forall|j: int|
                    0 <= j < i ==> v@[j] == point_at(eqs, total, seed, n as nat, j as nat),
            decreases n - i,
        {
            let u: u32 = rng_st.next_u32();
            proof {
                assert(state_after(seed, (i + 1) as nat) == step_state(state_after(seed, i as nat)));
                assert(u == draw_at(seed, i as nat));
            }
            let d: i64 = draw_point(u, self.sum);
            let idx: usize = self.scan(d);
            current = self.eqns[idx].eval(current);
            current.hue = hue_value(i + 1, n);
            v.set(i, current);
            i = i + 1;
        }
        proof {
            assert(v@ =~= generate_out(old(self).eqns@, old(v)@.len() as nat, seed));
        }
        Ok(())
    }
}

/// Scale a 32-bit draw into a draw point in `[0, total)`.
fn draw_point(u: u32, total: i64) -> (d: i64)
    requires
        total > 0,
    ensures
        d as int == draw_of_u32(u as int, total as int),
        0 <= d < total,
{
    proof {
        lemma_draw_of_u32_in_range(u as int, total as int);
        lemma_mul_nonnegative(u as int, total as int);
        lemma_mul_upper_bound(u as int, 0xFFFF_FFFF, total as int, 0x7FFF_FFFF_FFFF_FFFF);
    }
    (((u as u128) * (total as u128)) / 0x1_0000_0000u128) as i64
}

/// The fixed-point hue tag for slot `k - 1` of `n`: `k * SCALE / n`.
fn hue_value(k: usize, n: usize) -> (r: i64)
    requires
        1 <= k <= n,
    ensures
        r as int == hue_of(k as int, n as int),
        0 <= r <= SCALE,
{
    proof {
        lemma_hue_of_in_range(k as int, n as int);
        lemma_mul_nonnegative(k as int, SCALE as int);
        lemma_mul_upper_bound(k as int, u64::MAX as int, SCALE as int, SCALE as int);
    }
    ((k as u128) * (SCALE as u128) / (n as u128)) as i64
}

} // verus!
