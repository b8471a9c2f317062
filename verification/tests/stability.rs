use rgscan::util::polysolver::{
    solve_cubic, solve_linear, solve_quadratic, solve_quartic, CubicCandidates,
    QuadraticCandidates, QuarticCandidates,
};
use rgscan::util::scalar::Scalar;
use rgscan::util::stability::{
    settle, stab2vev, stab3vev, Direction, FinalStabilityResult, StabilityError, StabilityResult,
    ThreeFieldForm, Witness,
};

fn s(x: f64) -> Scalar {
    Scalar::from_bits(x.to_bits())
}

fn f(x: Scalar) -> f64 {
    f64::from_bits(x.to_bits())
}

fn direction(w: &Witness) -> [f64; 3] {
    [f(w.direction[0]), f(w.direction[1]), f(w.direction[2])]
}

/// Derives what `stab2vev` takes from the three coefficients of the form.
fn two_field(a0: f64, a1: f64, a2: f64) -> StabilityResult {
    stab2vev(
        s(a0),
        s(a2),
        s(a1 + 2. * (a0 * a2).sqrt()),
        s(a0.powf(0.25)),
        s(a2.powf(0.25)),
    )
}

fn quiet_form() -> ThreeFieldForm {
    let nan = s(f64::NAN);
    ThreeFieldForm {
        alpha: s(1.0),
        b0: s(1.0),
        b1: s(0.0),
        b2: s(1.0),
        c0: s(1.0),
        c1: s(-1.0),
        c2: s(1.0),
        mixed: s(1.0),
        end0: s(3.0),
        end2: s(3.0),
        a0: s(1.0),
        a4: s(1.0),
        quartic_roots: [nan, nan, nan, nan],
        quadratic_roots: [nan, nan],
        root_alpha: s(1.0),
        root_c0: s(1.0),
        root_c2: s(1.0),
        gaps: [nan, nan, nan],
        midpoints: [nan, nan, nan],
        heights: [nan, nan, nan],
        midpoint_gaps: [nan, nan, nan],
        root_gap: s(0.0),
        root_sum: s(2.0),
    }
}

#[test]
fn two_fields_first_coefficient_not_positive() {
    match two_field(-1.0, 5.0, 1.0) {
        StabilityResult::Violated1(w) => {
            assert_eq!(direction(&w), [1.0, 0.0, 0.0]);
            assert_eq!(f(w.gap), 0.0);
        }
        other => panic!("unexpected {:?}", other),
    }
    assert!(matches!(two_field(0.0, 5.0, 1.0), StabilityResult::Violated1(_)));
}

#[test]
fn two_fields_last_coefficient_not_positive() {
    match two_field(1.0, 5.0, -2.0) {
        StabilityResult::Violated1(w) => {
            assert_eq!(direction(&w), [0.0, 1.0, 0.0]);
            assert_eq!(f(w.gap), 1.0);
        }
        other => panic!("unexpected {:?}", other),
    }
}

#[test]
fn two_fields_mixed_direction_gives_mirrored_pair() {
    match two_field(16.0, -9.0, 1.0) {
        StabilityResult::Violated2(w1, w2) => {
            assert_eq!(direction(&w1), [1.0, 2.0, 0.0]);
            assert_eq!(direction(&w2), [1.0, -2.0, 0.0]);
            assert_eq!(f(w1.gap), 2.0);
            assert_eq!(f(w2.gap), 2.0);
        }
        other => panic!("unexpected {:?}", other),
    }
}

#[test]
fn two_fields_boundary_of_the_mixed_test_is_violated() {
    // a1 + 2 sqrt(a0 a2) = -8 + 2 * 4 = 0
    assert!(matches!(two_field(16.0, -8.0, 1.0), StabilityResult::Violated2(_, _)));
    assert_eq!(two_field(16.0, -7.0, 1.0), StabilityResult::Stable);
}

#[test]
fn two_fields_stable() {
    assert_eq!(two_field(1.0, 0.0, 1.0), StabilityResult::Stable);
    assert_eq!(two_field(2.0, -1.0, 3.0), StabilityResult::Stable);
}

#[test]
fn two_fields_nan_coefficient_passes_the_sign_tests() {
    // A NaN compares false, so no test fires.
    assert_eq!(
        stab2vev(s(f64::NAN), s(1.0), s(f64::NAN), s(f64::NAN), s(1.0)),
        StabilityResult::Stable
    );
}

#[test]
fn three_fields_sign_tests_come_in_order() {
    let mut form = quiet_form();
    form.alpha = s(0.0);
    form.c0 = s(-1.0);
    match stab3vev(&form) {
        Ok(StabilityResult::Violated1(w)) => assert_eq!(direction(&w), [1.0, 0.0, 0.0]),
        other => panic!("unexpected {:?}", other),
    }
    form.alpha = s(1.0);
    match stab3vev(&form) {
        Ok(StabilityResult::Violated1(w)) => assert_eq!(direction(&w), [0.0, 1.0, 0.0]),
        other => panic!("unexpected {:?}", other),
    }
    form.c0 = s(1.0);
    form.c2 = s(-3.0);
    match stab3vev(&form) {
        Ok(StabilityResult::Violated1(w)) => {
            assert_eq!(direction(&w), [0.0, 0.0, 1.0]);
            assert_eq!(f(w.gap), 1.0);
        }
        other => panic!("unexpected {:?}", other),
    }
}

#[test]
fn three_fields_mixed_test_gives_pair_mirrored_in_last_component() {
    let mut form = quiet_form();
    form.mixed = s(-0.5);
    form.root_c2 = s(3.0);
    form.root_c0 = s(2.0);
    form.root_gap = s(1.0);
    form.root_sum = s(5.0);
    match stab3vev(&form) {
        Ok(StabilityResult::Violated2(w1, w2)) => {
            assert_eq!(direction(&w1), [0.0, 3.0, 2.0]);
            assert_eq!(direction(&w2), [0.0, 3.0, -2.0]);
            assert_eq!(f(w1.gap), 1.0);
            assert_eq!(f(w2.gap), 5.0);
        }
        other => panic!("unexpected {:?}", other),
    }
}

#[test]
fn three_fields_without_real_roots() {
    // No quartic root and no quadratic root: stable unless b2 <= 0.
    let mut form = quiet_form();
    assert_eq!(stab3vev(&form), Ok(StabilityResult::Stable));
    form.b2 = s(-1.0);
    form.a0 = s(-1.0);
    assert!(matches!(stab3vev(&form), Ok(StabilityResult::Violated2(_, _))));
    // Quartic roots, no quadratic root: stable exactly where b2 > 0.
    let mut form = quiet_form();
    form.quartic_roots = [s(-1.0), s(1.0), s(f64::NAN), s(f64::NAN)];
    assert_eq!(stab3vev(&form), Ok(StabilityResult::Stable));
    // No quartic root, but quadratic roots: stable.
    let mut form = quiet_form();
    form.b2 = s(-1.0);
    form.quadratic_roots = [s(0.5), s(0.75)];
    assert_eq!(stab3vev(&form), Ok(StabilityResult::Stable));
}

#[test]
fn three_fields_two_quartic_roots() {
    let mut form = quiet_form();
    form.quartic_roots = [s(-1.0), s(1.0), s(f64::NAN), s(f64::NAN)];
    form.a0 = s(-1.0);
    // b2 > 0, a4 > 0: both quadratic roots below, or both above.
    form.quadratic_roots = [s(-3.0), s(-2.0)];
    assert_eq!(stab3vev(&form), Ok(StabilityResult::Stable));
    form.quadratic_roots = [s(2.0), s(3.0)];
    assert_eq!(stab3vev(&form), Ok(StabilityResult::Stable));
    form.quadratic_roots = [s(-0.5), s(0.5)];
    assert!(matches!(stab3vev(&form), Ok(StabilityResult::Violated2(_, _))));
    // b2 > 0, a4 <= 0: both quadratic roots between the quartic roots.
    form.a4 = s(-1.0);
    assert_eq!(stab3vev(&form), Ok(StabilityResult::Stable));
    form.quadratic_roots = [s(-3.0), s(0.5)];
    assert!(matches!(stab3vev(&form), Ok(StabilityResult::Violated2(_, _))));
    // b2 <= 0, a4 > 0: beta2 < d1 and beta1 > d2 cannot both hold here.
    form.a4 = s(1.0);
    form.b2 = s(-1.0);
    form.quadratic_roots = [s(2.0), s(-2.0)];
    assert_eq!(stab3vev(&form), Ok(StabilityResult::Stable));
    form.quadratic_roots = [s(-2.0), s(2.0)];
    assert!(matches!(stab3vev(&form), Ok(StabilityResult::Violated2(_, _))));
}

#[test]
fn three_fields_four_quartic_roots() {
    let mut form = quiet_form();
    form.quartic_roots = [s(-2.0), s(-1.0), s(1.0), s(2.0)];
    form.a0 = s(-1.0);
    form.quadratic_roots = [s(-0.5), s(0.5)];
    assert_eq!(stab3vev(&form), Ok(StabilityResult::Stable));
    form.quadratic_roots = [s(3.0), s(4.0)];
    assert_eq!(stab3vev(&form), Ok(StabilityResult::Stable));
    form.quadratic_roots = [s(-1.5), s(0.5)];
    assert!(matches!(stab3vev(&form), Ok(StabilityResult::Violated2(_, _))));
    form.a4 = s(-1.0);
    form.quadratic_roots = [s(-1.75), s(-1.25)];
    assert_eq!(stab3vev(&form), Ok(StabilityResult::Stable));
    form.quadratic_roots = [s(1.25), s(1.75)];
    assert_eq!(stab3vev(&form), Ok(StabilityResult::Stable));
    form.quadratic_roots = [s(-0.5), s(0.5)];
    assert!(matches!(stab3vev(&form), Ok(StabilityResult::Violated2(_, _))));
    form.a4 = s(1.0);
    form.b2 = s(-1.0);
    form.quadratic_roots = [s(-3.0), s(0.0)];
    assert_eq!(stab3vev(&form), Ok(StabilityResult::Stable));
    form.quadratic_roots = [s(0.0), s(3.0)];
    assert_eq!(stab3vev(&form), Ok(StabilityResult::Stable));
    form.quadratic_roots = [s(-1.0), s(1.0)];
    assert!(matches!(stab3vev(&form), Ok(StabilityResult::Violated2(_, _))));
}

fn unstable_form() -> ThreeFieldForm {
    let mut form = quiet_form();
    form.quartic_roots = [s(-2.0), s(-1.0), s(1.0), s(2.0)];
    form.quadratic_roots = [s(-1.5), s(0.5)];
    form.root_c0 = s(3.0);
    form.root_alpha = s(2.0);
    form
}

#[test]
fn three_fields_unstable_at_one_end() {
    let mut form = unstable_form();
    form.a0 = s(0.0);
    match stab3vev(&form) {
        Ok(StabilityResult::Violated2(w1, w2)) => {
            assert_eq!(direction(&w1), [3.0, 2.0, 0.0]);
            assert_eq!(direction(&w2), [3.0, -2.0, 0.0]);
            assert_eq!(f(w1.gap), 2.0);
        }
        other => panic!("unexpected {:?}", other),
    }
    let mut form = unstable_form();
    form.b2 = s(-1.0);
    form.quadratic_roots = [s(-1.0), s(1.0)];
    form.a4 = s(-0.25);
    match stab3vev(&form) {
        Ok(StabilityResult::Violated2(w1, w2)) => {
            assert_eq!(direction(&w1), [3.0, 0.0, 2.0]);
            assert_eq!(direction(&w2), [3.0, 0.0, -2.0]);
            assert_eq!(f(w2.gap), 2.0);
        }
        other => panic!("unexpected {:?}", other),
    }
}

#[test]
fn three_fields_repeated_root_gives_pair_mirrored_in_first_component() {
    let mut form = unstable_form();
    form.gaps = [s(1.0), s(5.0e-11), s(0.0)];
    form.midpoints = [s(-1.5), s(0.25), s(1.5)];
    form.heights = [s(7.0), s(8.0), s(9.0)];
    form.midpoint_gaps = [s(2.5), s(0.75), s(0.5)];
    match stab3vev(&form) {
        Ok(StabilityResult::Violated2(w1, w2)) => {
            assert_eq!(direction(&w1), [8.0, 1.0, 0.25]);
            assert_eq!(direction(&w2), [-8.0, 1.0, 0.25]);
            assert_eq!(f(w1.gap), 0.75);
            assert_eq!(f(w2.gap), 0.75);
        }
        other => panic!("unexpected {:?}", other),
    }
    // The threshold itself is not below the threshold.
    form.gaps = [s(1.0e-10), s(1.0), s(9.9e-11)];
    match stab3vev(&form) {
        Ok(StabilityResult::Violated2(w1, _)) => assert_eq!(direction(&w1), [9.0, 1.0, 1.5]),
        other => panic!("unexpected {:?}", other),
    }
}

#[test]
fn three_fields_without_repeated_root_is_an_error() {
    let mut form = unstable_form();
    form.gaps = [s(1.0), s(2.0), s(1.0)];
    match stab3vev(&form) {
        Err(StabilityError::NoRepeatedRoot(offending)) => {
            assert_eq!(offending, form);
            assert_eq!(offending.quartic_roots, [s(-2.0), s(-1.0), s(1.0), s(2.0)]);
            assert_eq!((f(offending.alpha), f(offending.b0), f(offending.c1)), (1.0, 1.0, -1.0));
        }
        other => panic!("unexpected {:?}", other),
    }
    form.gaps = [s(f64::NAN), s(f64::NAN), s(f64::NAN)];
    assert!(matches!(stab3vev(&form), Err(StabilityError::NoRepeatedRoot(_))));
}

#[test]
fn two_witnesses_always_mirror_each_other() {
    let mut results = vec![two_field(16.0, -9.0, 1.0), two_field(1.0, -20.0, 81.0)];
    let mut form = quiet_form();
    form.mixed = s(-0.5);
    results.push(stab3vev(&form).unwrap());
    let mut form = unstable_form();
    form.a0 = s(-1.0);
    results.push(stab3vev(&form).unwrap());
    let mut form = unstable_form();
    form.gaps = [s(0.0), s(0.0), s(0.0)];
    form.midpoints = [s(-1.5), s(0.25), s(1.5)];
    form.heights = [s(7.0), s(8.0), s(9.0)];
    results.push(stab3vev(&form).unwrap());
    for result in results {
        match result {
            StabilityResult::Violated2(w1, w2) => {
                let differing: Vec<usize> =
                    (0..3).filter(|&k| w1.direction[k] != w2.direction[k]).collect();
                assert_eq!(differing.len(), 1);
                let k = differing[0];
                assert_eq!(f(w1.direction[k]), -f(w2.direction[k]));
                assert_eq!(w1.direction[k].neg(), w2.direction[k]);
                assert_eq!(w2.direction[k].neg(), w1.direction[k]);
            }
            other => panic!("unexpected {:?}", other),
        }
    }
}

#[test]
fn kinds_of_direction() {
    let witness = |x: f64, y: f64, z: f64| Witness {
        direction: [s(x), s(y), s(z)],
        gap: s((y - z).abs()),
    };
    assert_eq!(witness(0.0, 1.0, 2.0).classify(), Direction::FirstVanishes);
    assert_eq!(witness(-9.0e-13, 1.0, 2.0).classify(), Direction::FirstVanishes);
    assert_eq!(witness(1.0e-12, 0.0, 2.0).classify(), Direction::SecondVanishes);
    assert_eq!(witness(1.0, 1.0, -1.0e-13).classify(), Direction::ThirdVanishes);
    assert_eq!(witness(1.0, 2.0, 2.0).classify(), Direction::LastTwoAgree);
    assert_eq!(witness(1.0, 2.0, -2.0).classify(), Direction::Generic);
    assert_eq!(witness(1.0, f64::NAN, 2.0).classify(), Direction::Generic);
    // The first test that holds names the kind.
    assert_eq!(witness(0.0, 0.0, 0.0).classify(), Direction::FirstVanishes);
}

#[test]
fn first_witness_stands_for_the_result() {
    assert_eq!(StabilityResult::Stable.witness(), None);
    assert!(StabilityResult::Stable.is_stable());
    match two_field(16.0, -9.0, 1.0) {
        result @ StabilityResult::Violated2(w1, _) => {
            assert_eq!(result.witness(), Some(w1));
            assert!(!result.is_stable());
        }
        other => panic!("unexpected {:?}", other),
    }
}

#[test]
fn first_test_that_is_not_stable_decides() {
    let first = two_field(-1.0, 5.0, 1.0);
    let second = two_field(1.0, 5.0, -2.0);
    let error = StabilityError::NoRepeatedRoot(quiet_form());
    assert_eq!(settle::<0>(&[]), Ok(FinalStabilityResult::Stable));
    assert_eq!(
        settle(&[(Ok(StabilityResult::Stable), true), (Ok(StabilityResult::Stable), false)]),
        Ok(FinalStabilityResult::Stable)
    );
    assert_eq!(
        settle(&[(Ok(StabilityResult::Stable), true), (Ok(first), false), (Ok(second), true)]),
        Ok(FinalStabilityResult::UnstableDisallowed(first))
    );
    assert_eq!(
        settle(&[(Ok(second), true), (Ok(first), false), (Err(error), true)]),
        Ok(FinalStabilityResult::UnstableAllowed(second))
    );
    assert_eq!(
        settle(&[(Ok(StabilityResult::Stable), true), (Err(error), false), (Ok(first), true)]),
        Err(error)
    );
}

#[test]
fn unstable_end_direction_is_never_stable() {
    // The roots say stable, the end terms do not.
    let mut form = quiet_form();
    assert_eq!(stab3vev(&form), Ok(StabilityResult::Stable));
    form.end0 = s(-1.0);
    form.root_c0 = s(3.0);
    form.root_alpha = s(2.0);
    match stab3vev(&form) {
        Ok(StabilityResult::Violated2(w1, w2)) => {
            assert_eq!(direction(&w1), [3.0, 2.0, 0.0]);
            assert_eq!(direction(&w2), [3.0, -2.0, 0.0]);
        }
        other => panic!("unexpected {:?}", other),
    }
    form.end0 = s(1.0);
    form.end2 = s(0.0);
    match stab3vev(&form) {
        Ok(StabilityResult::Violated2(w1, w2)) => {
            assert_eq!(direction(&w1), [3.0, 0.0, 2.0]);
            assert_eq!(direction(&w2), [3.0, 0.0, -2.0]);
        }
        other => panic!("unexpected {:?}", other),
    }
}

#[test]
fn resolvent_without_root_and_positive_at_zero_is_stable() {
    let mut form = quiet_form();
    form.b2 = s(0.0);
    assert_eq!(stab3vev(&form), Ok(StabilityResult::Stable));
    form.b2 = s(-5.0);
    assert_eq!(stab3vev(&form), Ok(StabilityResult::Stable));
    form.a0 = s(-1.0);
    assert!(matches!(stab3vev(&form), Ok(StabilityResult::Violated2(_, _))));
}

fn linear(a0: f64, a1: f64) -> f64 {
    f(solve_linear(s(a1), s(-a0 / a1)))
}

fn quadratic(a0: f64, a1: f64, a2: f64) -> (f64, f64) {
    let d = a1 * a1 - 4.0 * a2 * a0;
    let candidates = QuadraticCandidates {
        discriminant: s(d),
        linear: s(linear(a0, a1)),
        lower: s((-a1 - d.sqrt()) / (2.0 * a2)),
        upper: s((-a1 + d.sqrt()) / (2.0 * a2)),
    };
    let (x1, x2) = solve_quadratic(s(a2), &candidates);
    (f(x1), f(x2))
}

fn refine(coefficients: [f64; 5], root: f64) -> f64 {
    let [a0, a1, a2, a3, a4] = coefficients;
    let value = |x: f64| a0 + a1 * x + a2 * x.powi(2) + a3 * x.powi(3) + a4 * x.powi(4);
    let slope = |x: f64| a1 + 2. * a2 * x + 3. * a3 * x.powi(2) + 4. * a4 * x.powi(3);
    let mut best = root;
    for _ in 0..64 {
        let next = best - value(best) / slope(best);
        if !(value(next).abs() < value(best).abs()) {
            break;
        }
        best = next;
    }
    best
}

fn cubic(a0: f64, a1: f64, a2: f64, a3: f64) -> (f64, f64, f64) {
    let p = (3. * a3 * a1 - a2 * a2) / (3. * a3 * a3);
    let q = (2. * a2 * a2 * a2 - 9. * a3 * a2 * a1 + 27. * a3 * a3 * a0) / (27. * a3 * a3 * a3);
    let d = 4. * p.powi(3) + 27. * q.powi(2);
    let shift = -a2 / (3. * a3);
    let prefac = 2.0 * (-p / 3.).sqrt();
    let theta = (1. / 3.) * (3. * q / (2. * p) * (-3. / p).sqrt()).acos();
    let cosh_root = -2.
        * q.signum()
        * (-p / 3.).sqrt()
        * ((1. / 3.) * (-3. * q.abs() / (2. * p) * (-3. / p).sqrt()).acosh()).cosh();
    let sinh_root =
        -2. * (p / 3.).sqrt() * ((1. / 3.) * (3. * q / (2. * p) * (3. / p).sqrt()).asinh()).sinh();
    let (q1, q2) = quadratic(a0, a1, a2);
    let refined = |x: f64| s(refine([a0, a1, a2, a3, 0.], x));
    let candidates = CubicCandidates {
        p: s(p),
        discriminant: s(d),
        quadratic: (s(q1), s(q2)),
        cube_root: refined(-q.cbrt() + shift),
        trigonometric: (
            refined(prefac * theta.cos() + shift),
            refined(prefac * (theta - std::f64::consts::TAU / 3.).cos() + shift),
            refined(prefac * (theta - 2.0 * std::f64::consts::TAU / 3.).cos() + shift),
        ),
        hyperbolic_cosh: refined(cosh_root + shift),
        hyperbolic_sinh: refined(sinh_root + shift),
    };
    let (x1, x2, x3) = solve_cubic(s(a3), &candidates);
    (f(x1), f(x2), f(x3))
}

fn quartic(a0: f64, a1: f64, a2: f64, a3: f64, a4: f64) -> [f64; 4] {
    let a = -3. * a3 * a3 / (8. * a4 * a4) + a2 / a4;
    let b = a3 * a3 * a3 / (8. * a4 * a4 * a4) - a3 * a2 / (2. * a4 * a4) + a1 / a4;
    let c = -3. * a3 * a3 * a3 * a3 / (256. * a4 * a4 * a4 * a4)
        + a3 * a3 * a2 / (16. * a4 * a4 * a4)
        - a3 * a1 / (4. * a4 * a4)
        + a0 / a4;
    let shift = -a3 / (4. * a4);
    let (z1, z2) = quadratic(c, a, 1.);
    let (y1, _, _) = cubic(a * c - 1. / 4. * b * b, -2. * c, -a, 2.);
    let s1 = (2. * y1 - a).sqrt();
    let s2 = (-2. * y1 - a + 2. * b / s1).sqrt();
    let s3 = (-2. * y1 - a - 2. * b / s1).sqrt();
    let (c1, c2, c3) = cubic(a0, a1, a2, a3);
    let refined = |x: f64| s(refine([a0, a1, a2, a3, a4], x));
    let candidates = QuarticCandidates {
        b: s(b),
        cubic: (s(c1), s(c2), s(c3)),
        squares: (s(z1), s(z2)),
        inner_pair: (refined(-z1.sqrt() + shift), refined(z1.sqrt() + shift)),
        outer_pair: (refined(-z2.sqrt() + shift), refined(z2.sqrt() + shift)),
        s1: s(s1),
        s2: s(s2),
        s3: s(s3),
        x: [
            refined(0.5 * (-s1 + s2) + shift),
            refined(0.5 * (-s1 - s2) + shift),
            refined(0.5 * (s1 + s3) + shift),
            refined(0.5 * (s1 - s3) + shift),
        ],
    };
    let (x1, x2, x3, x4) = solve_quartic(s(a4), &candidates);
    [f(x1), f(x2), f(x3), f(x4)]
}

/// Derives what `stab3vev` takes from the seven coefficients of the form.
fn three_field(
    alpha: f64,
    b: [f64; 3],
    c: [f64; 3],
) -> Result<StabilityResult, StabilityError> {
    let [b0, b1, b2] = b;
    let [c0, c1, c2] = c;
    let a0 = -b0 * b0 + 4. * alpha * c0;
    let a1 = -2. * b0 * b1;
    let a2 = -b1 * b1 - 2. * b0 * b2 + 4. * alpha * c1;
    let a3 = -2. * b1 * b2;
    let a4 = -b2 * b2 + 4. * alpha * c2;
    let d = quartic(a0, a1, a2, a3, a4);
    let (beta1, beta2) = quadratic(b0, b1, b2);
    let midpoint = |k: usize| (d[k] + d[k + 1]) / 2.;
    let height = |k: usize| {
        let m = midpoint(k);
        ((c0 + c1 * m.powi(2) + c2 * m.powi(4)) / alpha).powf(0.25)
    };
    let (root_c0, root_c2) = (c0.powf(0.25), c2.powf(0.25));
    stab3vev(&ThreeFieldForm {
        alpha: s(alpha),
        b0: s(b0),
        b1: s(b1),
        b2: s(b2),
        c0: s(c0),
        c1: s(c1),
        c2: s(c2),
        mixed: s(c1 + 2. * (c0 * c2).sqrt()),
        end0: s(b0 + 2. * (alpha * c0).sqrt()),
        end2: s(b2 + 2. * (alpha * c2).sqrt()),
        a0: s(a0),
        a4: s(a4),
        quartic_roots: d.map(s),
        quadratic_roots: [s(beta1), s(beta2)],
        root_alpha: s(alpha.powf(0.25)),
        root_c0: s(root_c0),
        root_c2: s(root_c2),
        gaps: [0, 1, 2].map(|k| s((d[k] - d[k + 1]).abs())),
        midpoints: [0, 1, 2].map(|k| s(midpoint(k))),
        heights: [0, 1, 2].map(|k| s(height(k))),
        midpoint_gaps: [0, 1, 2].map(|k| s((1. - midpoint(k)).abs())),
        root_gap: s((root_c2 - root_c0).abs()),
        root_sum: s((root_c2 + root_c0).abs()),
    })
}

#[test]
fn form_with_an_unstable_end_is_violated_along_it() {
    // The resolvent 3 t^4 + 10 t^2 - 5 has two real roots, the quadratic
    // t^2 - 3 has the roots -sqrt(3) and sqrt(3), and a0 = -5.
    match three_field(1.0, [-3.0, 0.0, 1.0], [1.0, 1.0, 1.0]) {
        Ok(StabilityResult::Violated2(w1, w2)) => {
            assert_eq!(direction(&w1), [1.0, 1.0, 0.0]);
            assert_eq!(direction(&w2), [1.0, -1.0, 0.0]);
        }
        other => panic!("unexpected {:?}", other),
    }
}

#[test]
fn decoupled_positive_form_is_stable() {
    assert_eq!(three_field(1.0, [0.0, 0.0, 0.0], [1.0, 1.0, 1.0]), Ok(StabilityResult::Stable));
    assert_eq!(three_field(2.0, [1.0, 0.0, 1.0], [1.0, 0.5, 3.0]), Ok(StabilityResult::Stable));
}

#[test]
fn form_that_dips_between_its_ends_is_violated() {
    // b(t) = 1 - 6 t + t^2 is below -2 sqrt(c(t)) around t = 1, with c = 1 + t^4.
    match three_field(1.0, [1.0, -6.0, 1.0], [1.0, 0.0, 1.0]) {
        Ok(StabilityResult::Stable) => panic!("an unstable form was found stable"),
        _ => {}
    }
}

#[test]
fn a_pair_whose_mirrored_component_is_zero_is_one_direction() {
    match stab2vev(s(1.0), s(1.0), s(-1.0), s(0.0), s(2.0)) {
        StabilityResult::Violated1(w) => assert_eq!(direction(&w), [2.0, 0.0, 0.0]),
        other => panic!("unexpected {:?}", other),
    }
    match stab2vev(s(1.0), s(1.0), s(-1.0), s(-0.0), s(2.0)) {
        StabilityResult::Violated1(w) => assert_eq!(direction(&w), [2.0, 0.0, 0.0]),
        other => panic!("unexpected {:?}", other),
    }
    assert!(matches!(
        stab2vev(s(1.0), s(1.0), s(-1.0), s(5.0e-324), s(2.0)),
        StabilityResult::Violated2(_, _)
    ));
    let mut form = quiet_form();
    form.mixed = s(-0.5);
    form.root_c0 = s(0.0);
    form.root_c2 = s(3.0);
    match stab3vev(&form) {
        Ok(StabilityResult::Violated1(w)) => assert_eq!(direction(&w), [0.0, 3.0, 0.0]),
        other => panic!("unexpected {:?}", other),
    }
}
