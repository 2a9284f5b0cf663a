//! The evidence algebra: belief distributions over accept / restrict /
//! unknown and their Dempster-Shafer combination.
//!
//! Mass is carried in fixed point, as parts per billion of belief: a valid
//! [`Decision`] has components that sum to exactly [`SCALE`].  One part per
//! billion is finer than the tolerance the engine asks of its distributions,
//! and fixed point keeps the algebra exact: combination of two weighted
//! inputs is proved commutative on the nose, not merely up to rounding.

use vstd::prelude::*;
use vstd::arithmetic::div_mod::{
    lemma_div_is_ordered, lemma_div_multiples_vanish, lemma_div_nonincreasing,
    lemma_div_pos_is_pos, lemma_fundamental_div_mod, lemma_mod_bound,
};
use vstd::arithmetic::mul::{
    lemma_mul_inequality, lemma_mul_is_distributive_add, lemma_mul_nonnegative,
    lemma_mul_upper_bound,
};

verus! {

/// The whole of one unit of belief mass: all components of a valid
/// [`Decision`] sum to this, and a weight of `SCALE` is a weight of one.
pub const SCALE: u64 = 1_000_000_000;

/// A belief distribution over the frame {accept, restrict}, with `unknown`
/// the mass left on the whole frame.  Components are parts per billion.
#[derive(Clone, Copy, Debug, PartialEq, Eq, Structural)]
pub struct Decision {
    /// Mass in favour of accepting the request.
    pub accept: u64,
    /// Mass in favour of restricting the request.
    pub restrict: u64,
    /// Mass not committed either way.
    pub unknown: u64,
}

/// The distribution that commits to nothing: all mass on `unknown`.
/// It is the neutral element of combination.
pub open spec fn spec_vacuous() -> Decision {
    Decision { accept: 0, restrict: 0, unknown: SCALE }
}

/// The conflict between two distributions: the mass each assigns to the
/// alternative the other has committed against.
pub open spec fn spec_conflict(d1: Decision, d2: Decision) -> int {
    d1.accept * d2.restrict + d1.restrict * d2.accept
}

/// The unnormalized mass the combination assigns to `accept`.
pub open spec fn spec_mass_accept(d1: Decision, d2: Decision) -> int {
    d1.accept * d2.accept + d1.accept * d2.unknown + d1.unknown * d2.accept
}

/// The unnormalized mass the combination assigns to `restrict`.
pub open spec fn spec_mass_restrict(d1: Decision, d2: Decision) -> int {
    d1.restrict * d2.restrict + d1.restrict * d2.unknown + d1.unknown * d2.restrict
}

/// The normalizer of the combination: one minus the conflict, in squared
/// fixed-point units.
pub open spec fn spec_normalizer(d1: Decision, d2: Decision) -> int {
    SCALE * SCALE - spec_conflict(d1, d2)
}

/// Dempster-Shafer combination of two distributions.  Full conflict (a zero
/// normalizer) resets to the vacuous distribution instead of failing.  The
/// `unknown` component absorbs what fixed-point rounding shaves off the
/// other two, so a combination of valid inputs stays exactly valid.
pub open spec fn spec_pair(d1: Decision, d2: Decision) -> Decision {
    let n = spec_normalizer(d1, d2);
    if n <= 0 {
        spec_vacuous()
    } else {
        let a = spec_mass_accept(d1, d2) * (SCALE as int) / n;
        let r = spec_mass_restrict(d1, d2) * (SCALE as int) / n;
        Decision { accept: a as u64, restrict: r as u64, unknown: (SCALE - a - r) as u64 }
    }
}

/// A distribution scaled by a fixed-point weight: `accept` and `restrict`
/// are multiplied by the weight, and the result is renormalized, `unknown`
/// taking up whatever mass is left.
pub open spec fn spec_weighted(d: Decision, w: u64) -> Decision {
    let a = d.accept * w / (SCALE as int);
    let r = d.restrict * w / (SCALE as int);
    if a + r <= SCALE {
        Decision { accept: a as u64, restrict: r as u64, unknown: (SCALE - a - r) as u64 }
    } else {
        let t = a + r;
        let a2 = a * (SCALE as int) / t;
        let r2 = r * (SCALE as int) / t;
        Decision { accept: a2 as u64, restrict: r2 as u64, unknown: (SCALE - a2 - r2) as u64 }
    }
}

/// The combination of a sequence of distributions under per-plugin weights:
/// each input is weighted, then folded into the running combination.  An
/// empty sequence yields the vacuous distribution.
pub open spec fn spec_combine(ds: Seq<Decision>, ws: Seq<u64>) -> Decision
    decreases ds.len(),
{
    if ds.len() == 0 {
        spec_vacuous()
    } else {
        spec_pair(
            spec_combine(ds.drop_last(), ws.drop_last()),
            spec_weighted(ds.last(), ws.last()),
        )
    }
}

impl Decision {
    /// A distribution is valid when its three masses sum to exactly one
    /// unit.  Non-negativity is carried by the component type.
    pub open spec fn is_valid(self) -> bool {
        self.accept + self.restrict + self.unknown == SCALE
    }

    /// The vacuous distribution, as a value.
    pub fn vacuous() -> (d: Decision)
        ensures
            d == spec_vacuous(),
            d.is_valid(),
    {
        Decision { accept: 0, restrict: 0, unknown: SCALE }
    }

    /// Builds a distribution from raw masses, accepting exactly those
    /// triples that sum to one unit.
    pub fn new(accept: u64, restrict: u64, unknown: u64) -> (r: Option<Decision>)
        ensures
            r is Some <==> accept + restrict + unknown == SCALE,
            r is Some ==> r->Some_0 == (Decision { accept, restrict, unknown }),
            r is Some ==> r->Some_0.is_valid(),
    {
        if accept as u128 + restrict as u128 + unknown as u128 == SCALE as u128 {
            Some(Decision { accept, restrict, unknown })
        } else {
            None
        }
    }
}

/// Truncating division rounds a sum of quotients down no further than the
/// quotient of the sum.
proof fn lemma_quotient_sum(x: int, y: int, d: int)
    requires
        x >= 0,
        y >= 0,
        d > 0,
    ensures
        x / d + y / d <= (x + y) / d,
{
    let q = x / d + y / d;
    lemma_fundamental_div_mod(x, d);
    lemma_fundamental_div_mod(y, d);
    lemma_mod_bound(x, d);
    lemma_mod_bound(y, d);
    lemma_mul_is_distributive_add(d, x / d, y / d);
    assert(d * q <= x + y);
    lemma_div_multiples_vanish(q, d);
    lemma_div_is_ordered(d * q, x + y, d);
}

/// The three unnormalized masses of a combination of valid distributions
/// partition the normalizer.
proof fn lemma_mass_partition(d1: Decision, d2: Decision)
    requires
        d1.is_valid(),
        d2.is_valid(),
    ensures
        spec_mass_accept(d1, d2) + spec_mass_restrict(d1, d2) + d1.unknown * d2.unknown
            == spec_normalizer(d1, d2),
        spec_mass_accept(d1, d2) >= 0,
        spec_mass_restrict(d1, d2) >= 0,
        spec_normalizer(d1, d2) >= 0,
{
    let (a1, r1, u1) = (d1.accept as int, d1.restrict as int, d1.unknown as int);
    let (a2, r2, u2) = (d2.accept as int, d2.restrict as int, d2.unknown as int);
    assert((a1 + r1 + u1) * (a2 + r2 + u2) == a1 * a2 + a1 * r2 + a1 * u2 + r1 * a2 + r1 * r2
        + r1 * u2 + u1 * a2 + u1 * r2 + u1 * u2) by (nonlinear_arith);
    lemma_mul_nonnegative(u1, u2);
    lemma_mul_nonnegative(u1, r2);
    lemma_mul_nonnegative(a1, u2);
}

/// A combination of valid distributions is valid, and its committed masses
/// stay within one unit even before `unknown` takes up the slack.
pub proof fn lemma_pair_valid(d1: Decision, d2: Decision)
    requires
        d1.is_valid(),
        d2.is_valid(),
    ensures
        spec_pair(d1, d2).is_valid(),
        spec_normalizer(d1, d2) > 0 ==> {
            let a = spec_mass_accept(d1, d2) * (SCALE as int) / spec_normalizer(d1, d2);
            let r = spec_mass_restrict(d1, d2) * (SCALE as int) / spec_normalizer(d1, d2);
            0 <= a && 0 <= r && a + r <= SCALE
        },
{
    lemma_mass_partition(d1, d2);
    let n = spec_normalizer(d1, d2);
    if n > 0 {
        let na = spec_mass_accept(d1, d2);
        let nr = spec_mass_restrict(d1, d2);
        let s = SCALE as int;
        let a = na * s / n;
        let r = nr * s / n;
        lemma_mul_nonnegative(na, s);
        lemma_mul_nonnegative(nr, s);
        lemma_div_pos_is_pos(na * s, n);
        lemma_div_pos_is_pos(nr * s, n);
        lemma_quotient_sum(na * s, nr * s, n);
        assert(na * s + nr * s == (na + nr) * s);
        lemma_mul_inequality(na + nr, n, s);
        lemma_div_is_ordered((na + nr) * s, n * s, n);
        lemma_div_multiples_vanish(s, n);
        assert(n * s == s * n);
        assert(a + r <= SCALE);
    }
}

/// Combination is commutative, exactly: both orders give the same
/// fixed-point distribution.
pub proof fn lemma_pair_commutes(d1: Decision, d2: Decision)
    ensures
        spec_pair(d1, d2) == spec_pair(d2, d1),
{
    assert(spec_conflict(d1, d2) == spec_conflict(d2, d1));
    assert(spec_mass_accept(d1, d2) == spec_mass_accept(d2, d1));
    assert(spec_mass_restrict(d1, d2) == spec_mass_restrict(d2, d1));
}

/// The vacuous distribution is a left identity of combination on valid
/// distributions.
pub proof fn lemma_pair_vacuous_identity(d: Decision)
    requires
        d.is_valid(),
    ensures
        spec_pair(spec_vacuous(), d) == d,
{
    let v = spec_vacuous();
    let s = SCALE as int;
    assert(spec_conflict(v, d) == 0);
    assert(spec_normalizer(v, d) == s * s);
    assert(s * s > 0);
    assert(spec_mass_accept(v, d) == s * d.accept);
    assert(spec_mass_restrict(v, d) == s * d.restrict);
    assert(s * d.accept * s == (s * s) * d.accept) by (nonlinear_arith);
    assert(s * d.restrict * s == (s * s) * d.restrict) by (nonlinear_arith);
    lemma_div_multiples_vanish(d.accept as int, s * s);
    lemma_div_multiples_vanish(d.restrict as int, s * s);
}

/// A weighted distribution is valid, whatever the weight, whenever the
/// input was.
pub proof fn lemma_weighted_valid(d: Decision, w: u64)
    requires
        d.is_valid(),
    ensures
        spec_weighted(d, w).is_valid(),
        ({
            let a = d.accept * w / (SCALE as int);
            let r = d.restrict * w / (SCALE as int);
            0 <= a && 0 <= r && (a + r > SCALE ==> {
                let a2 = a * (SCALE as int) / (a + r);
                let r2 = r * (SCALE as int) / (a + r);
                0 <= a2 && 0 <= r2 && a2 + r2 <= SCALE
            })
        }),
{
    let s = SCALE as int;
    let a = d.accept * w / s;
    let r = d.restrict * w / s;
    lemma_mul_nonnegative(d.accept as int, w as int);
    lemma_mul_nonnegative(d.restrict as int, w as int);
    lemma_div_pos_is_pos(d.accept * w, s);
    lemma_div_pos_is_pos(d.restrict * w, s);
    if a + r > s {
        let t = a + r;
        lemma_mul_nonnegative(a, s);
        lemma_mul_nonnegative(r, s);
        lemma_div_pos_is_pos(a * s, t);
        lemma_div_pos_is_pos(r * s, t);
        lemma_quotient_sum(a * s, r * s, t);
        lemma_mul_is_distributive_add(s, a, r);
        assert(a * s == s * a && r * s == s * r && t * s == s * t);
        lemma_div_multiples_vanish(s, t);
    }
}

/// A weight of one leaves a valid distribution exactly as it was.
pub proof fn lemma_weight_one_identity(d: Decision)
    requires
        d.is_valid(),
    ensures
        spec_weighted(d, SCALE) == d,
{
    let s = SCALE as int;
    assert(d.accept * s == s * d.accept) by (nonlinear_arith);
    assert(d.restrict * s == s * d.restrict) by (nonlinear_arith);
    lemma_div_multiples_vanish(d.accept as int, s);
    lemma_div_multiples_vanish(d.restrict as int, s);
}

/// A combination of valid inputs is valid: the masses of the combined
/// distribution are non-negative and sum to exactly one unit.
pub proof fn lemma_combine_valid(ds: Seq<Decision>, ws: Seq<u64>)
    requires
        forall|i: int| 0 <= i < ds.len() ==> (#[trigger] ds[i]).is_valid(),
    ensures
        spec_combine(ds, ws).is_valid(),
    decreases ds.len(),
{
    if ds.len() == 0 {
    } else {
        lemma_combine_valid(ds.drop_last(), ws.drop_last());
        lemma_weighted_valid(ds.last(), ws.last());
        lemma_pair_valid(spec_combine(ds.drop_last(), ws.drop_last()), spec_weighted(ds.last(), ws.last()));
    }
}

/// Combining no evidence yields the vacuous distribution.
pub proof fn lemma_combine_empty()
    ensures
        spec_combine(Seq::<Decision>::empty(), Seq::<u64>::empty()) == spec_vacuous(),
{
}

/// Combining a single valid distribution under a weight of one returns it
/// unchanged.
pub proof fn lemma_combine_single(d: Decision)
    requires
        d.is_valid(),
    ensures
        spec_combine(seq![d], seq![SCALE]) == d,
{
    let ds = seq![d];
    let ws = seq![SCALE];
    assert(ds.drop_last() =~= Seq::<Decision>::empty());
    assert(ws.drop_last() =~= Seq::<u64>::empty());
    lemma_combine_empty();
    assert(ds.last() == d);
    assert(spec_combine(ds, ws) == spec_pair(spec_vacuous(), spec_weighted(d, SCALE)));
    lemma_weight_one_identity(d);
    lemma_pair_vacuous_identity(d);
}

/// Combining two weighted distributions does not depend on their order:
/// both orders give exactly the same fixed-point distribution.
pub proof fn lemma_combine_two_commutes(d1: Decision, w1: u64, d2: Decision, w2: u64)
    requires
        d1.is_valid(),
        d2.is_valid(),
    ensures
        spec_combine(seq![d1, d2], seq![w1, w2]) == spec_combine(seq![d2, d1], seq![w2, w1]),
{
    let fwd_ds = seq![d1, d2];
    let fwd_ws = seq![w1, w2];
    let rev_ds = seq![d2, d1];
    let rev_ws = seq![w2, w1];
    assert(fwd_ds.drop_last() =~= seq![d1]);
    assert(fwd_ws.drop_last() =~= seq![w1]);
    assert(rev_ds.drop_last() =~= seq![d2]);
    assert(rev_ws.drop_last() =~= seq![w2]);
    assert(seq![d1].drop_last() =~= Seq::<Decision>::empty());
    assert(seq![w1].drop_last() =~= Seq::<u64>::empty());
    assert(seq![d2].drop_last() =~= Seq::<Decision>::empty());
    assert(seq![w2].drop_last() =~= Seq::<u64>::empty());
    lemma_combine_empty();
    lemma_weighted_valid(d1, w1);
    lemma_weighted_valid(d2, w2);
    lemma_pair_vacuous_identity(spec_weighted(d1, w1));
    lemma_pair_vacuous_identity(spec_weighted(d2, w2));
    assert(spec_combine(seq![d1], seq![w1]) == spec_weighted(d1, w1));
    assert(spec_combine(seq![d2], seq![w2]) == spec_weighted(d2, w2));
    assert(spec_combine(fwd_ds, fwd_ws) == spec_pair(spec_weighted(d1, w1), spec_weighted(d2, w2)));
    assert(spec_combine(rev_ds, rev_ws) == spec_pair(spec_weighted(d2, w2), spec_weighted(d1, w1)));
    lemma_pair_commutes(spec_weighted(d1, w1), spec_weighted(d2, w2));
}

/// Scales a distribution by a fixed-point weight (a weight of [`SCALE`] is
/// one) and renormalizes, `unknown` absorbing the slack.
pub fn weighted(d: &Decision, w: u64) -> (r: Decision)
    requires
        d.is_valid(),
    ensures
        r == spec_weighted(*d, w),
        r.is_valid(),
{
    proof {
        lemma_weighted_valid(*d, w);
        assert(d.accept <= SCALE && d.restrict <= SCALE);
        lemma_mul_upper_bound(d.accept as int, SCALE as int, w as int, u64::MAX as int);
        lemma_mul_upper_bound(d.restrict as int, SCALE as int, w as int, u64::MAX as int);
    }
    let qa: u128 = d.accept as u128 * w as u128;
    let qr: u128 = d.restrict as u128 * w as u128;
    let a: u128 = qa / (SCALE as u128);
    let r: u128 = qr / (SCALE as u128);
    proof {
        lemma_div_nonincreasing(qa as int, SCALE as int);
        lemma_div_nonincreasing(qr as int, SCALE as int);
    }
    if a + r <= SCALE as u128 {
        Decision {
            accept: a as u64,
            restrict: r as u64,
            unknown: SCALE - a as u64 - r as u64,
        }
    } else {
        let t: u128 = a + r;
        proof {
            lemma_mul_upper_bound(a as int, qa as int, SCALE as int, SCALE as int);
            lemma_mul_upper_bound(r as int, qr as int, SCALE as int, SCALE as int);
        }
        let a2: u128 = a * (SCALE as u128) / t;
        let r2: u128 = r * (SCALE as u128) / t;
        Decision {
            accept: a2 as u64,
            restrict: r2 as u64,
            unknown: SCALE - a2 as u64 - r2 as u64,
        }
    }
}

/// Dempster-Shafer combination of two valid distributions.  A full-conflict
/// pair resets to the vacuous distribution.
pub fn pair_combine(d1: &Decision, d2: &Decision) -> (r: Decision)
    requires
        d1.is_valid(),
        d2.is_valid(),
    ensures
        r == spec_pair(*d1, *d2),
        r.is_valid(),
{
    proof {
        lemma_mass_partition(*d1, *d2);
        lemma_pair_valid(*d1, *d2);
        assert(d1.accept <= SCALE && d1.restrict <= SCALE && d1.unknown <= SCALE);
        assert(d2.accept <= SCALE && d2.restrict <= SCALE && d2.unknown <= SCALE);
        lemma_mul_upper_bound(d1.accept as int, SCALE as int, d2.restrict as int, SCALE as int);
        lemma_mul_upper_bound(d1.restrict as int, SCALE as int, d2.accept as int, SCALE as int);
        lemma_mul_upper_bound(d1.accept as int, SCALE as int, d2.accept as int, SCALE as int);
        lemma_mul_upper_bound(d1.accept as int, SCALE as int, d2.unknown as int, SCALE as int);
        lemma_mul_upper_bound(d1.unknown as int, SCALE as int, d2.accept as int, SCALE as int);
        lemma_mul_upper_bound(d1.restrict as int, SCALE as int, d2.restrict as int, SCALE as int);
        lemma_mul_upper_bound(d1.restrict as int, SCALE as int, d2.unknown as int, SCALE as int);
        lemma_mul_upper_bound(d1.unknown as int, SCALE as int, d2.restrict as int, SCALE as int);
    }
    let conflict: u128 = d1.accept as u128 * d2.restrict as u128
        + d1.restrict as u128 * d2.accept as u128;
    let whole: u128 = SCALE as u128 * SCALE as u128;
    if conflict >= whole {
        Decision::vacuous()
    } else {
        let n: u128 = whole - conflict;
        let na: u128 = d1.accept as u128 * d2.accept as u128
            + d1.accept as u128 * d2.unknown as u128 + d1.unknown as u128 * d2.accept as u128;
        let nr: u128 = d1.restrict as u128 * d2.restrict as u128
            + d1.restrict as u128 * d2.unknown as u128 + d1.unknown as u128 * d2.restrict as u128;
        proof {
            lemma_mul_upper_bound(na as int, 3 * (SCALE as int) * (SCALE as int), SCALE as int, SCALE as int);
            lemma_mul_upper_bound(nr as int, 3 * (SCALE as int) * (SCALE as int), SCALE as int, SCALE as int);
        }
        let a: u128 = na * (SCALE as u128) / n;
        let r: u128 = nr * (SCALE as u128) / n;
        Decision {
            accept: a as u64,
            restrict: r as u64,
            unknown: SCALE - a as u64 - r as u64,
        }
    }
}

/// Combines a sequence of valid distributions under per-plugin fixed-point
/// weights.  The result is exactly [`spec_combine`] of the inputs, and an
/// empty input yields the vacuous distribution.
pub fn combine(decisions: &Vec<Decision>, weights: &Vec<u64>) -> (r: Decision)
    requires
        decisions@.len() == weights@.len(),
        forall|i: int| 0 <= i < decisions@.len() ==> (#[trigger] decisions@[i]).is_valid(),
    ensures
        r == spec_combine(decisions@, weights@),
        r.is_valid(),
{
    let mut acc = Decision::vacuous();
    let mut i: usize = 0;
    while i < decisions.len()
        invariant
            decisions@.len() == weights@.len(),
            forall|k: int| 0 <= k < decisions@.len() ==> (#[trigger] decisions@[k]).is_valid(),
            0 <= i <= decisions@.len(),
            acc == spec_combine(decisions@.take(i as int), weights@.take(i as int)),
            acc.is_valid(),
        decreases decisions@.len() - i,
    {
        let w = weighted(&decisions[i], weights[i]);
        acc = pair_combine(&acc, &w);
        i = i + 1;
        proof {
            let dpre = decisions@.take(i as int);
            let wpre = weights@.take(i as int);
            assert(dpre.drop_last() =~= decisions@.take(i as int - 1));
            assert(wpre.drop_last() =~= weights@.take(i as int - 1));
            assert(dpre.last() == decisions@[i as int - 1]);
        }
    }
    proof {
        assert(decisions@.take(decisions@.len() as int) =~= decisions@);
        assert(weights@.take(weights@.len() as int) =~= weights@);
    }
    acc
}

} // verus!
