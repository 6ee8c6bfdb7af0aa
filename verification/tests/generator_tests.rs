use ifs_gen::fixed::SCALE;
use ifs_gen::ifs::{Eqn, IfsError, IFS};
use ifs_gen::rng::XorShift128;
use ifs_gen::vertex::Vertex;

fn eqn(a: i64, b: i64, c: i64, d: i64, e: i64, f: i64, p: i64) -> Eqn {
    Eqn { a, b, c, d, e, f, p }
}

fn zero_map(p: i64) -> Eqn {
    eqn(0, 0, 0, 0, 0, 0, p)
}

#[test]
fn eval_from_origin_returns_translation() {
    // Whatever the linear part, the origin maps to exactly (e, f).
    let q = eqn(SCALE / 2, -SCALE, 3 * SCALE, 7, 250_000, 500_000, SCALE);
    let v = Vertex { x: 0, y: 0, hue: 7 };
    let r = q.eval(v);
    assert_eq!(r.x, 250_000);
    assert_eq!(r.y, 500_000);
    assert_eq!(r.hue, 7);
}

#[test]
fn eval_exact_products() {
    // 0.5 * 0.5 == 0.25 in fixed point.
    let q = eqn(500_000, 0, 0, 0, 0, 0, SCALE);
    let v = Vertex { x: 500_000, y: 123, hue: 0 };
    assert_eq!(q.eval(v).x, 250_000);
    // Truncation is toward zero on negative products.
    let qn = eqn(-500_000, 0, 0, 0, 0, 0, SCALE);
    assert_eq!(qn.eval(v).x, -250_000);
    let tiny = eqn(1, 0, 0, 0, 0, 0, SCALE);
    // 1 raw unit times 123 raw units rescales to 123 / SCALE, truncated to 0.
    assert_eq!(tiny.eval(Vertex { x: 123, y: 0, hue: 0 }).x, 0);
    let tiny_neg = eqn(-1, 0, 0, 0, 0, 0, SCALE);
    assert_eq!(tiny_neg.eval(Vertex { x: 123, y: 0, hue: 0 }).x, 0);
}

#[test]
fn eval_saturates_instead_of_overflowing() {
    let q = eqn(i64::MAX, 0, 0, 0, 0, 0, SCALE);
    let v = Vertex { x: i64::MAX, y: 0, hue: 0 };
    assert_eq!(q.eval(v).x, i64::MAX);
    let qn = eqn(i64::MIN, 0, 0, 0, 0, 0, SCALE);
    assert_eq!(qn.eval(v).x, i64::MIN);
}

#[test]
fn select_tie_break_takes_following_interval() {
    // Two equal weights; a draw exactly on the cumulative boundary
    // (unit draw 0.5 scales to draw point SCALE == first weight) must
    // select the second map, not the first.
    let sys = IFS::new(vec![eqn(0, 0, 0, 0, 1, 0, SCALE), eqn(0, 0, 0, 0, 2, 0, SCALE)]);
    let on_boundary = sys.select(SCALE / 2).unwrap();
    assert_eq!(on_boundary.e, 2);
    let below_boundary = sys.select(SCALE / 2 - 1).unwrap();
    assert_eq!(below_boundary.e, 1);
}

#[test]
fn select_frequencies_match_weights_under_uniform_sweep() {
    // Weights 1 and 3: a uniform sweep of unit draws must select the
    // first map in exactly a quarter of the trials.
    let sys = IFS::new(vec![eqn(0, 0, 0, 0, 1, 0, SCALE), eqn(0, 0, 0, 0, 2, 0, 3 * SCALE)]);
    let trials: i64 = 100_000;
    let mut first: i64 = 0;
    for t in 0..trials {
        let u = t * SCALE / trials;
        if sys.select(u).unwrap().e == 1 {
            first += 1;
        }
    }
    assert_eq!(first, trials / 4);
}

#[test]
fn select_frequencies_match_weights_under_rng_draws() {
    let sys = IFS::new(vec![eqn(0, 0, 0, 0, 1, 0, SCALE), eqn(0, 0, 0, 0, 2, 0, 3 * SCALE)]);
    let mut rng = XorShift128::new(99);
    let trials = 100_000;
    let mut first = 0i64;
    for _ in 0..trials {
        let u = ((rng.next_u32() as u64 * SCALE as u64) >> 32) as i64;
        if sys.select(u).unwrap().e == 1 {
            first += 1;
        }
    }
    // Expected share 25%; allow 2 percentage points of statistical slack.
    assert!(first > 23_000 && first < 27_000, "first map selected {} times", first);
}

#[test]
fn select_refuses_nonpositive_total() {
    let sys = IFS::new(vec![zero_map(0), zero_map(0)]);
    assert_eq!(sys.select(0), Err(IfsError::InvalidTotalWeight));
    let neg = IFS::new(vec![zero_map(-SCALE)]);
    assert_eq!(neg.select(123), Err(IfsError::InvalidTotalWeight));
}

#[test]
fn select_refuses_emptied_system_with_stale_total() {
    let mut sys = IFS::new(vec![zero_map(SCALE)]);
    sys.eqns.clear();
    // The cached total is stale-positive; selection still fails cleanly.
    assert_eq!(sys.select(0), Err(IfsError::EmptySystem));
}

#[test]
fn select_falls_back_to_last_on_stale_total() {
    // A stale, too-large cached total can push the draw past every
    // interval; the defined fallback is the last equation, not a panic.
    let mut sys = IFS::new(vec![eqn(0, 0, 0, 0, 1, 0, SCALE), eqn(0, 0, 0, 0, 2, 0, SCALE)]);
    sys.sum = 10 * SCALE;
    let picked = sys.select(SCALE - 1).unwrap();
    assert_eq!(picked.e, 2);
}

#[test]
fn total_weight_is_recomputed_on_demand() {
    let mut sys = IFS::new(vec![zero_map(3), zero_map(4)]);
    assert_eq!(sys.total_weight(), 7);
    sys.eqns.push(zero_map(5));
    // Still stale until update_sum runs.
    assert_eq!(sys.total_weight(), 7);
    sys.update_sum();
    assert_eq!(sys.total_weight(), 12);
}

#[test]
fn total_weight_saturates() {
    let mut sys = IFS::new(vec![zero_map(i64::MAX), zero_map(i64::MAX)]);
    assert_eq!(sys.total_weight(), i64::MAX);
    sys.eqns = vec![zero_map(i64::MIN), zero_map(i64::MIN)];
    sys.update_sum();
    assert_eq!(sys.total_weight(), i64::MIN);
}

#[test]
fn generate_is_deterministic() {
    let mut sys = ifs_gen::state::State::default().get_sys();
    let blank = Vertex { x: 0, y: 0, hue: 0 };
    let mut a = vec![blank; 1000];
    let mut b = vec![blank; 1000];
    sys.generate(&mut a).unwrap();
    sys.generate(&mut b).unwrap();
    assert_eq!(a, b);
}

#[test]
fn generate_seeded_streams_differ_between_seeds() {
    let mut sys = ifs_gen::state::State::default().get_sys();
    let blank = Vertex { x: 0, y: 0, hue: 0 };
    let mut a = vec![blank; 64];
    let mut b = vec![blank; 64];
    sys.generate_seeded(&mut a, 0).unwrap();
    sys.generate_seeded(&mut b, 12345).unwrap();
    assert_ne!(a, b);
}

#[test]
fn generate_hue_is_slot_fraction() {
    let mut sys = IFS::new(vec![eqn(0, 0, 0, 160_000, 0, 0, SCALE)]);
    let blank = Vertex { x: 0, y: 0, hue: 0 };
    let mut buf = vec![blank; 8];
    sys.generate(&mut buf).unwrap();
    for (i, v) in buf.iter().enumerate() {
        assert_eq!(v.hue, (i as i64 + 1) * SCALE / 8);
    }
    assert_eq!(buf[7].hue, SCALE);
    // An uneven length: truncated fractions, still ending exactly at one.
    let mut buf3 = vec![blank; 3];
    sys.generate(&mut buf3).unwrap();
    assert_eq!(buf3[0].hue, 333_333);
    assert_eq!(buf3[1].hue, 666_666);
    assert_eq!(buf3[2].hue, SCALE);
    for w in buf3.windows(2) {
        assert!(w[0].hue <= w[1].hue);
    }
}

#[test]
fn generate_single_map_collapses_to_fixed_point() {
    // One map, weight one, y' = 0.16 * y and everything else zero: from
    // the origin every generated point is exactly the fixed point (0, 0).
    let mut sys = IFS::new(vec![eqn(0, 0, 0, 160_000, 0, 0, SCALE)]);
    let blank = Vertex { x: 9, y: 9, hue: 9 };
    let mut buf = vec![blank; 100];
    sys.generate(&mut buf).unwrap();
    for v in &buf {
        assert_eq!(v.x, 0);
        assert_eq!(v.y, 0);
    }
}

#[test]
fn generate_chains_points_exactly() {
    // One map: x' = 0.5x + 0.1, y' = 0.5y + 0.2. The first point is the
    // translation, the second its image, each value exact.
    let mut sys = IFS::new(vec![eqn(500_000, 0, 0, 500_000, 100_000, 200_000, SCALE)]);
    let blank = Vertex { x: 0, y: 0, hue: 0 };
    let mut buf = vec![blank; 2];
    sys.generate(&mut buf).unwrap();
    assert_eq!(buf[0], Vertex { x: 100_000, y: 200_000, hue: 500_000 });
    assert_eq!(buf[1], Vertex { x: 150_000, y: 300_000, hue: SCALE });
}

#[test]
fn generate_refuses_invalid_configuration_and_keeps_buffer() {
    let sentinel = Vertex { x: 7, y: 8, hue: 9 };
    let mut buf = vec![sentinel; 5];
    let mut empty = IFS::new(vec![]);
    assert_eq!(empty.generate(&mut buf), Err(IfsError::InvalidTotalWeight));
    assert!(buf.iter().all(|v| *v == sentinel));
    let mut zeroed = IFS::new(vec![zero_map(0)]);
    assert_eq!(zeroed.generate(&mut buf), Err(IfsError::InvalidTotalWeight));
    assert!(buf.iter().all(|v| *v == sentinel));
}

#[test]
fn generate_recomputes_stale_total_itself() {
    // The system is built valid, then silently emptied: generate must
    // recompute the total and refuse, not trust the stale cache.
    let mut sys = IFS::new(vec![zero_map(SCALE)]);
    sys.eqns.clear();
    let mut buf = vec![Vertex { x: 0, y: 0, hue: 0 }; 4];
    assert_eq!(sys.generate(&mut buf), Err(IfsError::InvalidTotalWeight));
}

#[test]
fn generate_accepts_empty_buffer() {
    let mut sys = IFS::new(vec![zero_map(SCALE)]);
    let mut buf: Vec<Vertex> = vec![];
    assert_eq!(sys.generate(&mut buf), Ok(()));
    assert!(buf.is_empty());
}

#[test]
fn generate_overwrites_buffer_in_place() {
    let mut sys = ifs_gen::state::State::default().get_sys();
    let mut fresh = vec![Vertex { x: 0, y: 0, hue: 0 }; 256];
    sys.generate(&mut fresh).unwrap();
    let mut reused = vec![Vertex { x: -1, y: -2, hue: -3 }; 256];
    sys.generate(&mut reused).unwrap();
    assert_eq!(fresh, reused);
}

#[test]
fn default_eqn_and_vertex_are_blank() {
    assert_eq!(Eqn::default(), zero_map(0));
    assert_eq!(Vertex::default(), Vertex { x: 0, y: 0, hue: 0 });
}
