//! The externally-edited configuration and its adapter into the
//! mathematical coefficient domain.
//!
//! A UI edits coefficients on a `[-100, 100]` scale, chosen for integer
//! slider steps; the generator consumes coefficients around `[-1, 1]`.
//! [`norm`] maps one domain into the other by dividing the six affine
//! coefficients by 100; the selection weight is used directly and is
//! not rescaled.

use vstd::prelude::*;

use crate::fixed::{div_trunc, lemma_div_trunc_bounds, sat_i64, tdiv64};
use crate::ifs::{sum_weights, Eqn, IFS};

verus! {

/// What `norm` returns: every affine coefficient divided by 100 with
/// truncation toward zero, the weight unchanged.
pub open spec fn norm_spec(q: Eqn) -> Eqn {
    Eqn {
        a: div_trunc(q.a as int, 100) as i64,
        b: div_trunc(q.b as int, 100) as i64,
        c: div_trunc(q.c as int, 100) as i64,
        d: div_trunc(q.d as int, 100) as i64,
        e: div_trunc(q.e as int, 100) as i64,
        f: div_trunc(q.f as int, 100) as i64,
        p: q.p,
    }
}

/// Adapt one UI-scaled equation into the mathematical domain. A pure,
/// stateless, per-call transform: `a..f` become `v / 100`, `p` passes
/// through unchanged.
pub fn norm(q: Eqn) -> (r: Eqn)
    ensures
        r == norm_spec(q),
{
    proof {
        lemma_div_trunc_bounds(q.a as int, 100);
        lemma_div_trunc_bounds(q.b as int, 100);
        lemma_div_trunc_bounds(q.c as int, 100);
        lemma_div_trunc_bounds(q.d as int, 100);
        lemma_div_trunc_bounds(q.e as int, 100);
        lemma_div_trunc_bounds(q.f as int, 100);
    }
    Eqn {
        a: tdiv64(q.a, 100),
        b: tdiv64(q.b, 100),
        c: tdiv64(q.c, 100),
        d: tdiv64(q.d, 100),
        e: tdiv64(q.e, 100),
        f: tdiv64(q.f, 100),
        p: q.p,
    }
}

/// The generator state a UI edits: a system held on the UI scale, and
/// the target point count.
#[derive(Clone, Debug)]
pub struct State {
    pub sys: IFS,
    pub num_points: usize,
}

/// The starting configuration: a classic fern, on the UI scale (raw
/// values are the slider value times `SCALE`).
pub open spec fn default_eqns() -> Seq<Eqn> {
    seq![
        Eqn {
            a: 85_000_000,
            b: 4_000_000,
            c: -4_000_000i64,
            d: 85_000_000,
            e: 0,
            f: 160_000_000,
            p: 85_000_000,
        },
        Eqn { a: 0, b: 0, c: 0, d: 16_000_000, e: 0, f: 0, p: 1_000_000 },
        Eqn {
            a: 20_000_000,
            b: -26_000_000i64,
            c: 23_000_000,
            d: 22_000_000,
            e: 0,
            f: 160_000_000,
            p: 7_000_000,
        },
        Eqn {
            a: -15_000_000i64,
            b: 28_000_000,
            c: 26_000_000,
            d: 24_000_000,
            e: 0,
            f: 44_000_000,
            p: 7_000_000,
        },
    ]
}

impl Default for State {
    /// The fern configuration with a million points.
    fn default() -> (r: State)
        ensures
            r.sys.eqns@ == default_eqns(),
            r.sys.total() == sat_i64(sum_weights(default_eqns())),
            r.num_points == 1_000_000usize,
    {
        let mut eqs: Vec<Eqn> = Vec::new();
        eqs.push(
            Eqn {
                a: 85_000_000,
                b: 4_000_000,
                c: -4_000_000,
                d: 85_000_000,
                e: 0,
                f: 160_000_000,
                p: 85_000_000,
            },
        );
        eqs.push(Eqn { a: 0, b: 0, c: 0, d: 16_000_000, e: 0, f: 0, p: 1_000_000 });
        eqs.push(
            Eqn {
                a: 20_000_000,
                b: -26_000_000,
                c: 23_000_000,
                d: 22_000_000,
                e: 0,
                f: 160_000_000,
                p: 7_000_000,
            },
        );
        eqs.push(
            Eqn {
                a: -15_000_000,
                b: 28_000_000,
                c: 26_000_000,
                d: 24_000_000,
                e: 0,
                f: 44_000_000,
                p: 7_000_000,
            },
        );
        proof {
            assert(eqs@ =~= default_eqns());
        }
        State { sys: IFS::new(eqs), num_points: 1_000_000 }
    }
}

impl State {
    /// The mathematical system this state denotes: every equation
    /// adapted through [`norm`], with a freshly computed total weight.
    pub fn get_sys(&self) -> (r: IFS)
        ensures
            r.eqns@.len() == self.sys.eqns@.len(),
            forall|i: int|
                0 <= i < r.eqns@.len() ==> r.eqns@[i] == norm_spec(self.sys.eqns@[i]),
            r.total() == sat_i64(sum_weights(r.eqns@)),
    {
        let mut out: Vec<Eqn> = Vec::new();
        let n: usize = self.sys.eqns.len();
        let mut i: usize = 0;
        while i < n
            invariant
                i <= n,
                n == self.sys.eqns@.len(),
                out@.len() == i as int,
                forall|j: int| 0 <= j < i ==> out@[j] == norm_spec(self.sys.eqns@[j]),
            decreases n - i,
        {
            out.push(norm(self.sys.eqns[i]));
            i = i + 1;
        }
        IFS::new(out)
    }
}

} // verus!
