use aspect360::Angle360;
use aspect360::Aspect360;
use aspect360::AspectOrb;
use aspect360::AspectResult;
use aspect360::to_aspect_orbs;

// Check that aspects are correctly calculated whether or not they fall within the defined range
#[test]
fn test_aspects() {
    let lng_1: i64 = 98_202_928;
    let lng_2: i64 = 187_932_742;
    let lng_3: i64 = 7_932_742;
    let angle_1 = Angle360::new(lng_1);
    let angle_2 = Angle360::new(lng_2);
    let target: i64 = 90_000_000;
    let aspect = angle_1.calc_aspect(&angle_2, target, 2_000_000);
    assert!(aspect.matched());
    assert!(aspect.distance() < 2_000_000);
    assert_eq!(aspect.distance(), lng_2 - lng_1 - 90_000_000);
    assert_eq!(aspect.target(), 90_000_000);

    let aspect_2 = angle_1.calc_aspect_raw(lng_3, target, 2_000_000);

    assert!(aspect_2.matched());

    let target_2: i64 = 120_000_000;
    let aspect_3 = angle_1.calc_aspect(&angle_2, target_2, 2_000_000);

    assert_eq!(aspect_3.matched(), false);
}

// Check that one of three aspect definitions is matched and has the expected value
#[test]
fn test_find_aspects() {
    let lng_1: i64 = 98_202_928;
    let lng_2: i64 = 249_325_729;

    let angle_1 = Angle360::new(lng_1);
    let angle_2 = Angle360::new(lng_2);

    let targets = [
        AspectOrb::new(90_000_000, 5_000_000),
        AspectOrb::new(120_000_000, 2_000_000),
        AspectOrb::new(150_000_000, 2_000_000),
    ];

    let aspect_match = angle_1.find_aspect(&angle_2, &targets);

    assert!(aspect_match.is_some());

    assert!(aspect_match.unwrap().matched());

    assert_eq!(aspect_match.unwrap().target(), 150_000_000);
}

// Check that the best aspect out of 7 options is matched
#[test]
fn test_best_aspects() {
    let lng_1: i64 = 192_928_202;
    let lng_2: i64 = 249_325_729;

    let angle_1 = Angle360::new(lng_1);
    let angle_2 = Angle360::new(lng_2);

    let septile_degree: i64 = 360_000_000 / 7;

    let targets = [
        AspectOrb::new(30_000_000, 5_000_000), // semisextile
        AspectOrb::new(45_000_000, 8_000_000), // semisquare
        AspectOrb::new(septile_degree, 9_000_000), // septile
        AspectOrb::new(60_000_000, 8_000_000), // sextile
        AspectOrb::new(90_000_000, 8_000_000), // square
        AspectOrb::new(120_000_000, 8_000_000), // trine
        AspectOrb::new(150_000_000, 10_000_000), // quincunx
    ];

    let aspect_matches = angle_1.find_aspects(&angle_2, &targets);

    // Two aspects are matched
    assert_eq!(aspect_matches.len(), 2);

    let first_match = angle_1.find_aspect(&angle_2, &targets);

    // Two aspects are matched
    assert_eq!(first_match.unwrap().target(), septile_degree);

    // However, this best match is sextile and not septile, which would have been matched first
    let aspect_match = angle_1.find_best_aspect(&angle_2, &targets);

    assert!(aspect_match.is_some());

    assert!(aspect_match.unwrap().matched());

    assert_eq!(aspect_match.unwrap().target(), 60_000_000);
}

// Test simple arrays of tuple pairs are converted to a vector of AspectOrb objects
#[test]
fn test_aspect_orbs_converter() {
    let aspect_orbs = to_aspect_orbs(&[
        (90_000_000, 4_000_000),
        (120_000_000, 3_000_000),
        (180_000_000, 4_000_000),
    ]);
    let angle_1 = Angle360::new(97_900_000);
    let angle_2 = Angle360::new(217_100_000);
    let best_aspect = angle_1.find_best_aspect(&angle_2, &aspect_orbs);
    // check an aspect has been matched and the best aspect target is 120 degrees (trine)
    assert_eq!(best_aspect.unwrap().target(), 120_000_000);
}

// Repeated evaluation of the same inputs yields identical results
#[test]
fn test_determinism() {
    let first = AspectResult::calculate(90_000_000, 89_729_814, 2_000_000);
    let second = AspectResult::calculate(90_000_000, 89_729_814, 2_000_000);
    assert_eq!(first, second);
    assert_eq!(first.distance(), second.distance());
    assert_eq!(first.matched(), second.matched());
}

// A target and its complement resolve to the same divergence when the
// complement reading is the closer one
#[test]
fn test_symmetry_resolution() {
    let angle_1 = Angle360::new(0);
    let angle_2 = Angle360::new(240_000_000);
    // separation reads as -120 degrees; the complement of 120 degrees matches it exactly
    let direct = angle_1.calc_aspect(&angle_2, 120_000_000, 1_000_000);
    let complement = angle_1.calc_aspect(&angle_2, 240_000_000, 1_000_000);
    assert_eq!(direct.distance(), 0);
    assert_eq!(complement.distance(), 0);
    assert_eq!(direct.divergence(), complement.divergence());
    assert!(direct.matched());
    assert!(complement.matched());
}

// A divergence exactly equal to the orb still counts as a match, on both sides
#[test]
fn test_match_boundary_inclusive() {
    let above = AspectResult::calculate(90_000_000, 92_000_000, 2_000_000);
    assert_eq!(above.distance(), 2_000_000);
    assert!(above.matched());
    let below = AspectResult::calculate(90_000_000, 88_000_000, 2_000_000);
    assert_eq!(below.distance(), -2_000_000);
    assert!(below.matched());
    let outside = AspectResult::calculate(90_000_000, 92_000_001, 2_000_000);
    assert_eq!(outside.matched(), false);
}

// A negative orb never matches, even at zero distance
#[test]
fn test_negative_orb_never_matches() {
    let result = AspectResult::calculate(90_000_000, 90_000_000, -1);
    assert_eq!(result.distance(), 0);
    assert_eq!(result.matched(), false);
}

// find_aspect returns the first match in candidate order even when a later
// candidate diverges less
#[test]
fn test_find_aspect_order_sensitive() {
    let angle_1 = Angle360::new(0);
    let angle_2 = Angle360::new(62_000_000);
    let targets = [
        AspectOrb::new(90_000_000, 40_000_000),
        AspectOrb::new(60_000_000, 10_000_000),
    ];
    let first = angle_1.find_aspect(&angle_2, &targets).unwrap();
    assert_eq!(first.target(), 90_000_000);
    let best = angle_1.find_best_aspect(&angle_2, &targets).unwrap();
    assert_eq!(best.target(), 60_000_000);
    assert!(best.divergence() <= first.divergence());
}

// find_aspects returns every candidate that matches on its own, in order
#[test]
fn test_find_aspects_complete() {
    let angle_1 = Angle360::new(192_928_202);
    let angle_2 = Angle360::new(249_325_729);
    let targets = [
        AspectOrb::new(30_000_000, 5_000_000),
        AspectOrb::new(45_000_000, 8_000_000),
        AspectOrb::new(360_000_000 / 7, 9_000_000),
        AspectOrb::new(60_000_000, 8_000_000),
        AspectOrb::new(90_000_000, 8_000_000),
        AspectOrb::new(120_000_000, 8_000_000),
        AspectOrb::new(150_000_000, 10_000_000),
    ];
    let mut independently_matched: usize = 0;
    for t in &targets {
        if angle_1.is_aspected(&angle_2, t.target(), t.orb()) {
            independently_matched += 1;
        }
    }
    let all = angle_1.find_aspects(&angle_2, &targets);
    assert_eq!(all.len(), independently_matched);
    assert_eq!(all[0].target(), 360_000_000 / 7);
    assert_eq!(all[1].target(), 60_000_000);
    for r in &all {
        assert!(r.matched());
    }
}

// With no candidates, every search comes back empty rather than failing
#[test]
fn test_empty_candidates() {
    let angle_1 = Angle360::new(10_000_000);
    let angle_2 = Angle360::new(100_000_000);
    let targets: [AspectOrb; 0] = [];
    assert!(angle_1.find_aspect(&angle_2, &targets).is_none());
    assert_eq!(angle_1.find_aspects(&angle_2, &targets).len(), 0);
    assert!(angle_1.find_best_aspect(&angle_2, &targets).is_none());
}

// Raw values are reduced into the canonical range before use
#[test]
fn test_raw_normalization() {
    assert_eq!(Angle360::new(-90_000_000).value(), 270_000_000);
    assert_eq!(Angle360::new(360_000_000).value(), 0);
    assert_eq!(Angle360::new(725_000_000).value(), 5_000_000);
    let angle_1 = Angle360::new(98_202_928);
    // a raw value one turn below 7.932742 degrees evaluates the same
    assert!(angle_1.is_aspected_raw(7_932_742 - 360_000_000, 90_000_000, 2_000_000));
    assert!(angle_1.is_aspected(&Angle360::new(7_932_742), 90_000_000, 2_000_000));
}

// The remaining accessors expose exactly what the evaluation recorded
#[test]
fn test_result_accessors() {
    let result = AspectResult::calculate(90_000_000, 89_729_814, 2_000_000);
    assert_eq!(result.aspect(), 89_729_814);
    assert_eq!(result.target(), 90_000_000);
    assert_eq!(result.orb(), 2_000_000);
    assert_eq!(result.distance(), -270_186);
    assert_eq!(result.divergence(), 270_186);
    let orb = AspectOrb::new(120_000_000, 2_000_000);
    assert_eq!(orb.target(), 120_000_000);
    assert_eq!(orb.orb(), 2_000_000);
}
