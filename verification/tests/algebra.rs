//! The evidence algebra on concrete distributions.

use plugin_host::decision::{combine, pair_combine, weighted, Decision, SCALE};
use plugin_host::interfaces::{combine_components, DecisionComponents};

fn d(accept: u64, restrict: u64, unknown: u64) -> Decision {
    Decision { accept, restrict, unknown }
}

#[test]
fn vacuous_is_valid_unit() {
    let v = Decision::vacuous();
    assert_eq!(v, d(0, 0, SCALE));
    assert_eq!(v.accept + v.restrict + v.unknown, SCALE);
}

#[test]
fn new_accepts_exactly_unit_triples() {
    assert_eq!(Decision::new(0, 0, SCALE), Some(d(0, 0, SCALE)));
    assert_eq!(
        Decision::new(400_000_000, 600_000_000, 0),
        Some(d(400_000_000, 600_000_000, 0))
    );
    assert_eq!(Decision::new(1, 1, SCALE), None);
    assert_eq!(Decision::new(0, 0, SCALE - 1), None);
}

#[test]
fn combine_of_nothing_is_vacuous() {
    let r = combine(&Vec::new(), &Vec::new());
    assert_eq!(r, d(0, 0, SCALE));
}

#[test]
fn combine_single_unit_weight_is_identity() {
    let one = d(250_000_000, 250_000_000, 500_000_000);
    let r = combine(&vec![one], &vec![SCALE]);
    assert_eq!(r, one);
}

#[test]
fn combine_two_exact_value() {
    // Each input commits half its mass against the other: the conflict is
    // a quarter, and the remaining mass splits evenly with the rounding
    // slack absorbed by unknown.
    let d1 = d(500_000_000, 0, 500_000_000);
    let d2 = d(0, 500_000_000, 500_000_000);
    let r = combine(&vec![d1, d2], &vec![SCALE, SCALE]);
    assert_eq!(r, d(333_333_333, 333_333_333, 333_333_334));
    assert_eq!(r.accept + r.restrict + r.unknown, SCALE);
}

#[test]
fn combine_is_order_independent_for_two() {
    let d1 = d(700_000_000, 100_000_000, 200_000_000);
    let d2 = d(50_000_000, 900_000_000, 50_000_000);
    let w1 = SCALE;
    let w2 = SCALE / 4;
    let fwd = combine(&vec![d1, d2], &vec![w1, w2]);
    let rev = combine(&vec![d2, d1], &vec![w2, w1]);
    assert_eq!(fwd, rev);
}

#[test]
fn full_conflict_resets_to_vacuous() {
    let all_accept = d(SCALE, 0, 0);
    let all_restrict = d(0, SCALE, 0);
    let r = pair_combine(&all_accept, &all_restrict);
    assert_eq!(r, d(0, 0, SCALE));
}

#[test]
fn weighting_scales_committed_mass() {
    let one = d(400_000_000, 600_000_000, 0);
    let half = weighted(&one, SCALE / 2);
    assert_eq!(half, d(200_000_000, 300_000_000, 500_000_000));
    let whole = weighted(&one, SCALE);
    assert_eq!(whole, one);
}

#[test]
fn overweighting_renormalizes() {
    // Doubling a fully committed distribution renormalizes back to a unit.
    let one = d(400_000_000, 600_000_000, 0);
    let double = weighted(&one, 2 * SCALE);
    assert_eq!(double.accept + double.restrict + double.unknown, SCALE);
    assert_eq!(double, d(400_000_000, 600_000_000, 0));
}

#[test]
fn components_combine_decisions_and_tags_together() {
    let c1 = DecisionComponents {
        decision: d(0, SCALE, 0),
        tags: vec!["evil".to_string(), "bot".to_string()],
    };
    let c2 = DecisionComponents { decision: d(0, 0, SCALE), tags: vec!["evil".to_string()] };
    let r = combine_components(&vec![c1, c2], &vec![SCALE, SCALE]);
    assert_eq!(r.decision, d(0, SCALE, 0));
    assert_eq!(r.tags, vec!["bot".to_string(), "evil".to_string()]);

    let empty = combine_components(&Vec::new(), &Vec::new());
    assert_eq!(empty.decision, d(0, 0, SCALE));
    assert!(empty.tags.is_empty());
}

#[test]
fn combined_mass_always_sums_to_unit() {
    let inputs = vec![
        d(SCALE, 0, 0),
        d(0, SCALE, 0),
        d(100_000_000, 200_000_000, 700_000_000),
        d(0, 0, SCALE),
    ];
    let weights = vec![SCALE, SCALE / 3, 2 * SCALE, SCALE];
    let r = combine(&inputs, &weights);
    assert_eq!(r.accept + r.restrict + r.unknown, SCALE);
}
