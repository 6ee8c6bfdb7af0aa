//! The library's stated laws: what the selection rule, the generator
//! and the parameter adapter guarantee, proved once and for all inputs.

use vstd::prelude::*;

use crate::fixed::{div_trunc, fx_mul_spec, sat_i64, SCALE};
use crate::ifs::{
    cum_weight, draw_of_u32, generate_out, hue_of, lemma_hue_of_in_range,
    lemma_pick_index_in_range, pick_index, point_at, spec_eval, sum_weights, Eqn,
};
use crate::state::norm_spec;
use crate::vertex::Vertex;

verus! {

use vstd::arithmetic::div_mod::{
    lemma_basic_div, lemma_div_is_ordered, lemma_div_multiples_vanish,
    lemma_fundamental_div_mod,
};
use vstd::arithmetic::mul::{lemma_mul_inequality, lemma_mul_is_commutative};

/// The weight sum splits off its first element.
proof fn lemma_sum_weights_front(s: Seq<Eqn>)
    requires
        s.len() > 0,
    ensures
        sum_weights(s) == s[0].p + sum_weights(s.skip(1)),
    decreases s.len(),
{
    if s.len() == 1 {
        assert(s.drop_last().len() == 0);
        assert(s.skip(1).len() == 0);
        assert(s.last() == s[0]);
        assert(sum_weights(s.drop_last()) == 0);
        assert(sum_weights(s.skip(1)) == 0);
        assert(sum_weights(s) == sum_weights(s.drop_last()) + s.last().p);
    } else {
        lemma_sum_weights_front(s.drop_last());
        assert(s.drop_last()[0] == s[0]);
        assert(s.drop_last().skip(1) =~= s.skip(1).drop_last());
        assert(s.skip(1).last() == s.last());
        assert(sum_weights(s) == sum_weights(s.drop_last()) + s.last().p);
        assert(sum_weights(s.skip(1)) == sum_weights(s.skip(1).drop_last())
            + s.skip(1).last().p);
        assert(sum_weights(s.drop_last()) == s[0].p + sum_weights(s.drop_last().skip(1)));
    }
}

/// A sum of nonnegative weights is nonnegative.
proof fn lemma_sum_weights_nonneg(s: Seq<Eqn>)
    requires
        forall|j: int| 0 <= j < s.len() ==> s[j].p >= 0,
    ensures
        sum_weights(s) >= 0,
    decreases s.len(),
{
    if s.len() > 0 {
        lemma_sum_weights_nonneg(s.drop_last());
    }
}

/// The cumulative weight in front of index `i + 1` splits off the first
/// weight: `cum(s, i + 1) == s[0].p + cum(s.skip(1), i)`.
proof fn lemma_cum_weight_front(s: Seq<Eqn>, i: int)
    requires
        0 <= i,
        i + 1 <= s.len(),
    ensures
        cum_weight(s, i + 1) == s[0].p + cum_weight(s.skip(1), i),
{
    lemma_sum_weights_front(s.take(i + 1));
    assert(s.take(i + 1)[0] == s[0]);
    assert(s.take(i + 1).skip(1) =~= s.skip(1).take(i));
}

/// LAW (selection intervals). For nonnegative weights and a draw `d` in
/// `[0, totalWeight)`, the scan selects map `i` exactly when `d` lies in
/// the half-open cumulative interval `[cum_i, cum_i + p_i)`. The draws
/// selecting map `i` therefore form an interval of length `p_i` out of
/// `totalWeight`, which is what makes observed selection frequencies
/// converge to `p_i / totalWeight` under uniform draws.
pub proof fn lemma_select_interval(s: Seq<Eqn>, d: int, i: int)
    requires
        0 <= i < s.len(),
        forall|j: int| 0 <= j < s.len() ==> s[j].p >= 0,
        0 <= d < sum_weights(s),
    ensures
        pick_index(s, d) == i <==> (cum_weight(s, i) <= d < cum_weight(s, i) + s[i].p),
    decreases s.len(),
{
    assert(s.take(0).len() == 0);
    if s.len() == 1 {
        assert(sum_weights(s) == s[0].p) by {
            lemma_sum_weights_front(s);
        }
    } else {
        lemma_sum_weights_front(s);
        let tail = s.skip(1);
        assert(forall|j: int| 0 <= j < tail.len() ==> tail[j].p >= 0);
        if d < s[0].p {
            assert(pick_index(s, d) == 0);
            if i > 0 {
                // d lies under the first weight, in front of interval i.
                lemma_cum_weight_front(s, i - 1);
                lemma_sum_weights_nonneg(tail.take(i - 1));
                assert(tail.take(i - 1) =~= s.skip(1).take(i - 1));
                assert(cum_weight(s, i) >= s[0].p);
            }
        } else {
            let d2 = d - s[0].p;
            assert(pick_index(s, d) == 1 + pick_index(tail, d2));
            lemma_pick_index_in_range(tail, d2);
            if i == 0 {
                assert(pick_index(s, d) != 0);
                assert(!(d < cum_weight(s, 0) + s[0].p));
            } else {
                lemma_select_interval(tail, d2, i - 1);
                lemma_cum_weight_front(s, i - 1);
                assert(tail[i - 1] == s[i]);
            }
        }
    }
}

/// LAW (tie-break). A draw exactly equal to a cumulative boundary
/// selects the following interval's map, never the preceding one: with
/// the draw at the boundary in front of map `i + 1` (and that map's
/// weight positive), the scan returns `i + 1`.
pub proof fn lemma_boundary_selects_next(s: Seq<Eqn>, i: int)
    requires
        0 <= i < s.len() - 1,
        forall|j: int| 0 <= j < s.len() ==> s[j].p >= 0,
        s[i + 1].p > 0,
        cum_weight(s, i + 1) < sum_weights(s),
    ensures
        pick_index(s, cum_weight(s, i + 1)) == i + 1,
{
    let d = cum_weight(s, i + 1);
    assert(forall|j: int| 0 <= j < s.take(i + 1).len() ==> (#[trigger] s.take(i + 1)[j]).p >= 0);
    lemma_sum_weights_nonneg(s.take(i + 1));
    lemma_select_interval(s, d, i + 1);
}

/// LAW (determinism). The generator's output is a pure function of the
/// equation set, the buffer length and the seed: two passes with the
/// same inputs produce identical buffers, element for element.
pub proof fn lemma_generate_deterministic(
    eqns: Seq<Eqn>,
    n: nat,
    seed: u64,
    out1: Seq<Vertex>,
    out2: Seq<Vertex>,
)
    requires
        out1 == generate_out(eqns, n, seed),
        out2 == generate_out(eqns, n, seed),
    ensures
        out1 == out2,
{
}

/// LAW (translation-only check). From the origin, an affine map returns
/// exactly its translation components `(e, f)`, whatever its linear
/// coefficients; the hue tag passes through.
pub proof fn lemma_eval_origin(q: Eqn, v: Vertex)
    requires
        v.x == 0,
        v.y == 0,
    ensures
        spec_eval(q, v) == (Vertex { x: q.e, y: q.f, hue: v.hue }),
{
    lemma_fx_mul_zero(q.a);
    lemma_fx_mul_zero(q.b);
    lemma_fx_mul_zero(q.c);
    lemma_fx_mul_zero(q.d);
}

/// A fixed-point product with zero is zero.
proof fn lemma_fx_mul_zero(a: i64)
    ensures
        fx_mul_spec(a as int, 0) == 0,
{
    assert((a as int) * 0 == 0);
    lemma_basic_div(0, SCALE as int);
}

/// LAW (hue values). In a generated buffer of length `n`, slot `k`
/// carries the fixed-point rendering of the fraction `(k + 1) / n`; the
/// hue sequence is monotonically nondecreasing and the final slot is
/// exactly one.
pub proof fn lemma_hue_values(eqns: Seq<Eqn>, n: nat, seed: u64)
    requires
        n > 0,
    ensures
        forall|k: int|
            0 <= k < n ==> (#[trigger] generate_out(eqns, n, seed)[k]).hue == hue_of(
                k + 1,
                n as int,
            ),
        forall|k1: int, k2: int|
            0 <= k1 <= k2 < n ==> generate_out(eqns, n, seed)[k1].hue <= generate_out(
                eqns,
                n,
                seed,
            )[k2].hue,
        generate_out(eqns, n, seed)[n - 1].hue == SCALE as int,
{
    let out = generate_out(eqns, n, seed);
    assert forall|k: int| 0 <= k < n implies (#[trigger] out[k]).hue == hue_of(k + 1, n as int)
    by {
        lemma_hue_of_in_range(k + 1, n as int);
    }
    assert forall|k1: int, k2: int| 0 <= k1 <= k2 < n implies out[k1].hue <= out[k2].hue by {
        lemma_hue_of_in_range(k1 + 1, n as int);
        lemma_hue_of_in_range(k2 + 1, n as int);
        lemma_mul_inequality(k1 + 1, k2 + 1, SCALE as int);
        lemma_div_is_ordered((k1 + 1) * (SCALE as int), (k2 + 1) * (SCALE as int), n as int);
    }
    assert(out[n - 1].hue == SCALE as int) by {
        lemma_hue_of_in_range(n as int, n as int);
        lemma_mul_is_commutative(n as int, SCALE as int);
        lemma_div_multiples_vanish(SCALE as int, n as int);
    }
}

/// Every point of a single all-zero-row map's run stays at the origin.
proof fn lemma_origin_point_at(eqns: Seq<Eqn>, total: int, seed: u64, n: nat, k: nat)
    requires
        eqns.len() == 1,
        eqns[0].a == 0,
        eqns[0].b == 0,
        eqns[0].c == 0,
        eqns[0].e == 0,
        eqns[0].f == 0,
    ensures
        point_at(eqns, total, seed, n, k).x == 0,
        point_at(eqns, total, seed, n, k).y == 0,
    decreases k,
{
    if k > 0 {
        lemma_origin_point_at(eqns, total, seed, n, (k - 1) as nat);
    }
    let prev = if k == 0 {
        Vertex { x: 0, y: 0, hue: 0 }
    } else {
        point_at(eqns, total, seed, n, (k - 1) as nat)
    };
    let d = draw_of_u32(crate::rng::draw_at(seed, k) as int, total);
    assert(pick_index(eqns, d) == 0);
    lemma_fx_mul_zero(eqns[0].a);
    lemma_fx_mul_zero(eqns[0].b);
    lemma_fx_mul_zero(eqns[0].c);
    lemma_fx_mul_zero(eqns[0].d);
}

/// LAW (single-map boundary case). A system holding one map whose only
/// nonzero coefficient is the `y`-contraction (such as
/// `y' = 0.16 * y`, the fern's stem map alone) collapses every
/// generated point onto the map's fixed point, the origin: the whole
/// buffer is `(0, 0)` with only the hue varying.
pub proof fn lemma_single_map_fixed_point(eqns: Seq<Eqn>, n: nat, seed: u64)
    requires
        eqns.len() == 1,
        eqns[0].a == 0,
        eqns[0].b == 0,
        eqns[0].c == 0,
        eqns[0].e == 0,
        eqns[0].f == 0,
    ensures
        forall|k: int|
            0 <= k < n ==> (#[trigger] generate_out(eqns, n, seed)[k]).x == 0 && generate_out(
                eqns,
                n,
                seed,
            )[k].y == 0,
{
    let total = sat_i64(sum_weights(eqns));
    assert forall|k: int|
        0 <= k < n implies (#[trigger] generate_out(eqns, n, seed)[k]).x == 0 && generate_out(
        eqns,
        n,
        seed,
    )[k].y == 0 by {
        lemma_origin_point_at(eqns, total, seed, n, k as nat);
    }
}

/// LAW (adapter exactness). On coefficients that are whole multiples of
/// 100 raw units — every integer-step slider value is one — the adapter
/// divides exactly: 100 times the adapted coefficient gives back the
/// input; and the weight always passes through unchanged.
pub proof fn lemma_norm_exact(q: Eqn)
    requires
        q.a as int % 100 == 0,
        q.b as int % 100 == 0,
        q.c as int % 100 == 0,
        q.d as int % 100 == 0,
        q.e as int % 100 == 0,
        q.f as int % 100 == 0,
    ensures
        100 * norm_spec(q).a == q.a as int,
        100 * norm_spec(q).b == q.b as int,
        100 * norm_spec(q).c == q.c as int,
        100 * norm_spec(q).d == q.d as int,
        100 * norm_spec(q).e == q.e as int,
        100 * norm_spec(q).f == q.f as int,
        norm_spec(q).p == q.p,
{
    lemma_div_trunc_exact(q.a as int);
    lemma_div_trunc_exact(q.b as int);
    lemma_div_trunc_exact(q.c as int);
    lemma_div_trunc_exact(q.d as int);
    lemma_div_trunc_exact(q.e as int);
    lemma_div_trunc_exact(q.f as int);
    crate::fixed::lemma_div_trunc_bounds(q.a as int, 100);
    crate::fixed::lemma_div_trunc_bounds(q.b as int, 100);
    crate::fixed::lemma_div_trunc_bounds(q.c as int, 100);
    crate::fixed::lemma_div_trunc_bounds(q.d as int, 100);
    crate::fixed::lemma_div_trunc_bounds(q.e as int, 100);
    crate::fixed::lemma_div_trunc_bounds(q.f as int, 100);
}

/// Truncating division by 100 is exact on multiples of 100.
proof fn lemma_div_trunc_exact(v: int)
    requires
        v % 100 == 0,
    ensures
        100 * div_trunc(v, 100) == v,
{
    lemma_fundamental_div_mod(v, 100);
    if v < 0 {
        let q = v / 100;
        assert(v == 100 * q);
        assert(-v == 100 * (-q));
        lemma_div_multiples_vanish(-q, 100);
    }
}

} // verus!
