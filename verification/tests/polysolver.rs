use rgscan::util::polysolver::{
    is_negligible, solve_cubic, solve_linear, solve_quadratic, solve_quartic, CubicCandidates,
    QuadraticCandidates, QuarticCandidates,
};
use rgscan::util::scalar::Scalar;

fn s(x: f64) -> Scalar {
    Scalar::from_bits(x.to_bits())
}

fn f(x: Scalar) -> f64 {
    f64::from_bits(x.to_bits())
}

fn linear(a0: f64, a1: f64) -> f64 {
    f(solve_linear(s(a1), s(-a0 / a1)))
}

fn quadratic(a0: f64, a1: f64, a2: f64) -> (f64, f64) {
    let d = a1 * a1 - 4.0 * a2 * a0;
    let sqrt_d = d.sqrt();
    let candidates = QuadraticCandidates {
        discriminant: s(d),
        linear: s(linear(a0, a1)),
        lower: s((-a1 - sqrt_d) / (2.0 * a2)),
        upper: s((-a1 + sqrt_d) / (2.0 * a2)),
    };
    let (x1, x2) = solve_quadratic(s(a2), &candidates);
    (f(x1), f(x2))
}

/// Newton steps on the polynomial from a value of a root formula, for as
/// long as they bring the value of the polynomial closer to zero.
fn refine(coefficients: [f64; 5], root: f64) -> f64 {
    let [a0, a1, a2, a3, a4] = coefficients;
    let value = |x: f64| a0 + a1 * x + a2 * x.powi(2) + a3 * x.powi(3) + a4 * x.powi(4);
    let slope = |x: f64| a1 + 2. * a2 * x + 3. * a3 * x.powi(2) + 4. * a4 * x.powi(3);
    let mut best = root;
    for _ in 0..64 {
        let next = best - value(best) / slope(best);
        if !(value(next).abs() < value(best).abs()) {
            break;
        }
        best = next;
    }
    best
}

fn cubic(a0: f64, a1: f64, a2: f64, a3: f64) -> (f64, f64, f64) {
    let p = (3. * a3 * a1 - a2 * a2) / (3. * a3 * a3);
    let q = (2. * a2 * a2 * a2 - 9. * a3 * a2 * a1 + 27. * a3 * a3 * a0) / (27. * a3 * a3 * a3);
    let d = 4. * p.powi(3) + 27. * q.powi(2);
    let shift = -a2 / (3. * a3);
    let prefac = 2.0 * (-p / 3.).sqrt();
    let theta = (1. / 3.) * (3. * q / (2. * p) * (-3. / p).sqrt()).acos();
    let cosh_root = -2.
        * q.signum()
        * (-p / 3.).sqrt()
        * ((1. / 3.) * (-3. * q.abs() / (2. * p) * (-3. / p).sqrt()).acosh()).cosh();
    let sinh_root =
        -2. * (p / 3.).sqrt() * ((1. / 3.) * (3. * q / (2. * p) * (3. / p).sqrt()).asinh()).sinh();
    let (q1, q2) = quadratic(a0, a1, a2);
    let refined = |x: f64| s(refine([a0, a1, a2, a3, 0.], x));
    let candidates = CubicCandidates {
        p: s(p),
        discriminant: s(d),
        quadratic: (s(q1), s(q2)),
        cube_root: refined(-q.cbrt() + shift),
        trigonometric: (
            refined(prefac * theta.cos() + shift),
            refined(prefac * (theta - std::f64::consts::TAU / 3.).cos() + shift),
            refined(prefac * (theta - 2.0 * std::f64::consts::TAU / 3.).cos() + shift),
        ),
        hyperbolic_cosh: refined(cosh_root + shift),
        hyperbolic_sinh: refined(sinh_root + shift),
    };
    let (x1, x2, x3) = solve_cubic(s(a3), &candidates);
    (f(x1), f(x2), f(x3))
}

fn quartic(a0: f64, a1: f64, a2: f64, a3: f64, a4: f64) -> (f64, f64, f64, f64) {
    let a = -3. * a3 * a3 / (8. * a4 * a4) + a2 / a4;
    let b = a3 * a3 * a3 / (8. * a4 * a4 * a4) - a3 * a2 / (2. * a4 * a4) + a1 / a4;
    let c = -3. * a3 * a3 * a3 * a3 / (256. * a4 * a4 * a4 * a4)
        + a3 * a3 * a2 / (16. * a4 * a4 * a4)
        - a3 * a1 / (4. * a4 * a4)
        + a0 / a4;
    let shift = -a3 / (4. * a4);
    let (z1, z2) = quadratic(c, a, 1.);
    let (y1, _, _) = cubic(a * c - 1. / 4. * b * b, -2. * c, -a, 2.);
    let s1 = (2. * y1 - a).sqrt();
    let s2 = (-2. * y1 - a + 2. * b / s1).sqrt();
    let s3 = (-2. * y1 - a - 2. * b / s1).sqrt();
    let (c1, c2, c3) = cubic(a0, a1, a2, a3);
    let refined = |x: f64| s(refine([a0, a1, a2, a3, a4], x));
    let candidates = QuarticCandidates {
        b: s(b),
        cubic: (s(c1), s(c2), s(c3)),
        squares: (s(z1), s(z2)),
        inner_pair: (refined(-z1.sqrt() + shift), refined(z1.sqrt() + shift)),
        outer_pair: (refined(-z2.sqrt() + shift), refined(z2.sqrt() + shift)),
        s1: s(s1),
        s2: s(s2),
        s3: s(s3),
        x: [
            refined(0.5 * (-s1 + s2) + shift),
            refined(0.5 * (-s1 - s2) + shift),
            refined(0.5 * (s1 + s3) + shift),
            refined(0.5 * (s1 - s3) + shift),
        ],
    };
    let (x1, x2, x3, x4) = solve_quartic(s(a4), &candidates);
    (f(x1), f(x2), f(x3), f(x4))
}

#[test]
fn test_solve_quartic() {
    let coeffs = [
        0.3364831008218681,
        -0.9868269363515232,
        -0.6980929773084139,
        -1.006931810296128,
        0.0000007415144538114316,
    ];
    let (x1, x2, x3, x4) = quartic(coeffs[0], coeffs[1], coeffs[2], coeffs[3], coeffs[4]);

    println!("Roots: {:?}, {:?}, {:?}, {:?}", x1, x2, x3, x4);

    for root in [x1, x2, x3, x4] {
        if root.is_nan() {
            continue;
        }
        let value = coeffs[0]
            + coeffs[1] * root
            + coeffs[2] * root.powi(2)
            + coeffs[3] * root.powi(3)
            + coeffs[4] * root.powi(4);
        assert!(
            value.abs() < 1e-10,
            "Root {} does not satisfy the equation: {}",
            root,
            value
        );
    }
}

#[test]
fn test_solve_cubic() {
    let coeffs = [-18.086502522062556, 7.650661100021841, 6.775250896636531, 2.0];
    let (x1, x2, x3) = cubic(coeffs[0], coeffs[1], coeffs[2], coeffs[3]);

    println!("Roots: {:?}, {:?}, {:?}", x1, x2, x3);

    for root in [x1, x2, x3] {
        if root.is_nan() {
            continue;
        }
        let value =
            coeffs[0] + coeffs[1] * root + coeffs[2] * root.powi(2) + coeffs[3] * root.powi(3);
        assert!(
            value.abs() < 1e-10,
            "Root {} does not satisfy the equation: {}",
            root,
            value
        );
    }
}

#[test]
fn coefficients_below_the_threshold_count_as_zero() {
    assert!(is_negligible(s(0.0)));
    assert!(is_negligible(s(-0.0)));
    assert!(is_negligible(s(9.9e-16)));
    assert!(is_negligible(s(-9.9e-16)));
    assert!(!is_negligible(s(1.0e-15)));
    assert!(!is_negligible(s(-1.0)));
    assert!(!is_negligible(s(f64::NAN)));
}

#[test]
fn linear_root_or_none() {
    assert_eq!(linear(6.0, -3.0), 2.0);
    assert!(linear(6.0, 0.0).is_nan());
    assert!(linear(6.0, 1.0e-16).is_nan());
}

#[test]
fn quadratic_roots_come_in_ascending_order() {
    assert_eq!(quadratic(-4.0, 0.0, 1.0), (-2.0, 2.0));
    assert_eq!(quadratic(6.0, -5.0, 1.0), (2.0, 3.0));
    assert_eq!(quadratic(1.0, 2.0, 1.0), (-1.0, -1.0));
    let (x1, x2) = quadratic(1.0, 0.0, 1.0);
    assert!(x1.is_nan() && x2.is_nan());
    let (x1, x2) = quadratic(6.0, -3.0, 0.0);
    assert_eq!(x1, 2.0);
    assert!(x2.is_nan());
}

#[test]
fn cubic_with_three_real_roots() {
    // (x - 1)(x - 2)(x - 3)
    let (x1, x2, x3) = cubic(-6.0, 11.0, -6.0, 1.0);
    let mut roots = [x1, x2, x3];
    roots.sort_by(|a, b| a.partial_cmp(b).unwrap());
    for (root, expected) in roots.iter().zip([1.0, 2.0, 3.0]) {
        assert!((root - expected).abs() < 1e-12);
    }
}

#[test]
fn cubic_with_one_real_root() {
    // (x - 2)(x^2 + 1) has p > 0, (x - 3)(x^2 + x + 1) - shifted - has p < 0.
    let (x1, x2, x3) = cubic(-2.0, 1.0, -2.0, 1.0);
    assert!((x1 - 2.0).abs() < 1e-12);
    assert!(x2.is_nan() && x3.is_nan());
    let (x1, x2, x3) = cubic(-10.0, -3.0, 0.0, 1.0);
    assert!((x1 * x1 * x1 - 3.0 * x1 - 10.0).abs() < 1e-10);
    assert!(x2.is_nan() && x3.is_nan());
    // x^3 = 8: p counts as zero.
    let (x1, x2, x3) = cubic(-8.0, 0.0, 0.0, 1.0);
    assert_eq!(x1, 2.0);
    assert!(x2.is_nan() && x3.is_nan());
    // (x + 1)^3 + 8: p counts as zero, and the cube root -2 is shifted by -1.
    let (x1, x2, x3) = cubic(9.0, 3.0, 3.0, 1.0);
    assert!((x1 - (-3.0)).abs() < 1e-10);
    assert!(x2.is_nan() && x3.is_nan());
}

#[test]
fn cube_root_is_taken_where_p_counts_as_zero() {
    let nan = s(f64::NAN);
    let candidates = CubicCandidates {
        p: s(0.0),
        discriminant: s(1728.0),
        quadratic: (nan, nan),
        cube_root: s(-3.0),
        trigonometric: (s(7.0), s(8.0), s(9.0)),
        hyperbolic_cosh: s(5.0),
        hyperbolic_sinh: s(6.0),
    };
    let (x1, x2, x3) = solve_cubic(s(1.0), &candidates);
    assert_eq!(f(x1), -3.0);
    assert!(f(x2).is_nan() && f(x3).is_nan());
}

#[test]
fn quartic_without_leading_coefficient_is_its_cubic() {
    for coefficients in [
        (-6.0, 11.0, -6.0, 1.0),
        (-2.0, 1.0, -2.0, 1.0),
        (-18.086502522062556, 7.650661100021841, 6.775250896636531, 2.0),
        (6.0, -5.0, 1.0, 0.0),
        (6.0, -3.0, 0.0, 0.0),
    ] {
        let (a0, a1, a2, a3) = coefficients;
        let (c1, c2, c3) = cubic(a0, a1, a2, a3);
        let (x1, x2, x3, x4) = quartic(a0, a1, a2, a3, 0.0);
        // The same roots, the numbers in ascending order.
        let mut of_cubic: Vec<f64> = [c1, c2, c3].into_iter().filter(|x| !x.is_nan()).collect();
        of_cubic.sort_by(|a, b| a.partial_cmp(b).unwrap());
        let of_quartic: Vec<f64> = [x1, x2, x3, x4].into_iter().filter(|x| !x.is_nan()).collect();
        assert_eq!(
            of_quartic.iter().map(|x| x.to_bits()).collect::<Vec<u64>>(),
            of_cubic.iter().map(|x| x.to_bits()).collect::<Vec<u64>>()
        );
        for (k, x) in [x1, x2, x3, x4].into_iter().enumerate() {
            assert_eq!(x.is_nan(), k >= of_cubic.len());
        }
    }
}

#[test]
fn biquadratic_gives_none_two_or_four_roots() {
    // (x^2 - 1)(x^2 - 4)
    assert_eq!(quartic(4.0, 0.0, -5.0, 0.0, 1.0), (-2.0, -1.0, 1.0, 2.0));
    // (x^2 + 1)(x^2 - 4): the roots of the quadratic in x^2 are -1 and 4, and
    // only the negative one is discarded.
    let (x1, x2, x3, x4) = quartic(-4.0, 0.0, -3.0, 0.0, 1.0);
    assert_eq!((x1, x2), (-2.0, 2.0));
    assert!(x3.is_nan() && x4.is_nan());
    // x^4 - 1
    let (x1, x2, x3, x4) = quartic(-1.0, 0.0, 0.0, 0.0, 1.0);
    assert_eq!((x1, x2), (-1.0, 1.0));
    assert!(x3.is_nan() && x4.is_nan());
    // x^4: the double root of the quadratic at zero gives zero four times.
    let (x1, x2, x3, x4) = quartic(0.0, 0.0, 0.0, 0.0, 1.0);
    assert_eq!([x1.abs(), x2.abs(), x3.abs(), x4.abs()], [0.0; 4]);
    // (x^2 + 1)(x^2 + 4)
    let (x1, x2, x3, x4) = quartic(4.0, 0.0, 5.0, 0.0, 1.0);
    assert!(x1.is_nan() && x2.is_nan() && x3.is_nan() && x4.is_nan());
    // x^4 + x^2 + 1 has no real square.
    let (x1, _, _, _) = quartic(1.0, 0.0, 1.0, 0.0, 1.0);
    assert!(x1.is_nan());
}

#[test]
fn general_quartic_roots_are_sorted_and_satisfy_the_equation() {
    // (x + 3)(x + 2)(x - 1)(x - 5) = x^4 - x^3 - 19 x^2 - 11 x + 30
    let coefficients = [30.0, -11.0, -19.0, -1.0, 1.0];
    let (x1, x2, x3, x4) =
        quartic(coefficients[0], coefficients[1], coefficients[2], coefficients[3], coefficients[4]);
    let roots = [x1, x2, x3, x4];
    for (root, expected) in roots.iter().zip([-3.0, -2.0, 1.0, 5.0]) {
        assert!((root - expected).abs() < 1e-9, "{} is not {}", root, expected);
        let value = coefficients[0]
            + coefficients[1] * root
            + coefficients[2] * root.powi(2)
            + coefficients[3] * root.powi(3)
            + coefficients[4] * root.powi(4);
        assert!(value.abs() < 1e-10);
    }
    // (x^2 + x + 1)(x - 1)(x - 2): two real roots, in the first two slots.
    let (x1, x2, x3, x4) = quartic(2.0, -1.0, 0.0, -2.0, 1.0);
    assert!((x1 - 1.0).abs() < 1e-9 && (x2 - 2.0).abs() < 1e-9);
    assert!(x3.is_nan() && x4.is_nan());
}

#[test]
fn selection_reads_only_what_its_branch_names() {
    let nan = s(f64::NAN);
    let candidates = QuarticCandidates {
        b: s(1.0),
        cubic: (nan, nan, nan),
        squares: (nan, nan),
        inner_pair: (nan, nan),
        outer_pair: (nan, nan),
        s1: s(1.0),
        s2: s(2.0),
        s3: s(3.0),
        x: [s(0.5), s(-1.5), s(2.0), s(-1.0)],
    };
    // x1 < x4 fails: the second pair goes inside.
    let (r1, r2, r3, r4) = solve_quartic(s(1.0), &candidates);
    assert_eq!((f(r1), f(r2), f(r3), f(r4)), (-1.5, -1.0, 0.5, 2.0));
    let infinite = QuarticCandidates { s1: s(f64::INFINITY), ..candidates };
    let (r1, r2, r3, r4) = solve_quartic(s(1.0), &infinite);
    assert!(f(r1).is_nan() && f(r2).is_nan() && f(r3).is_nan() && f(r4).is_nan());
    let second_only = QuarticCandidates { s2: nan, ..candidates };
    let (r1, r2, r3, r4) = solve_quartic(s(1.0), &second_only);
    assert_eq!((f(r1), f(r2)), (-1.0, 2.0));
    assert!(f(r3).is_nan() && f(r4).is_nan());
    let first_only = QuarticCandidates { s3: nan, ..candidates };
    let (r1, r2, r3, r4) = solve_quartic(s(1.0), &first_only);
    assert_eq!((f(r1), f(r2)), (-1.5, 0.5));
    assert!(f(r3).is_nan() && f(r4).is_nan());
}

#[test]
fn chosen_values_come_out_in_ascending_order() {
    let nan = s(f64::NAN);
    let candidates = QuarticCandidates {
        b: s(1.0),
        cubic: (s(3.0), s(-1.0), s(2.0)),
        squares: (nan, nan),
        inner_pair: (nan, nan),
        outer_pair: (nan, nan),
        s1: s(1.0),
        s2: s(2.0),
        s3: s(3.0),
        x: [s(9.0), s(-10.0), s(1.0), s(0.0)],
    };
    let (r1, r2, r3, r4) = solve_quartic(s(1.0), &candidates);
    assert_eq!((f(r1), f(r2), f(r3), f(r4)), (-10.0, 0.0, 1.0, 9.0));
    // The roots of the cubic rest are put in order too.
    let (r1, r2, r3, r4) = solve_quartic(s(0.0), &candidates);
    assert_eq!((f(r1), f(r2), f(r3)), (-1.0, 2.0, 3.0));
    assert!(f(r4).is_nan());
    // A candidate that is no number goes to the end.
    let holed = QuarticCandidates { x: [s(9.0), nan, s(1.0), s(-4.0)], ..candidates };
    let (r1, r2, r3, r4) = solve_quartic(s(1.0), &holed);
    assert_eq!((f(r1), f(r2), f(r3)), (-4.0, 1.0, 9.0));
    assert!(f(r4).is_nan());
}

#[test]
fn biquadratic_selection_discards_only_the_negative_square() {
    let nan = s(f64::NAN);
    let candidates = QuarticCandidates {
        b: s(0.0),
        cubic: (nan, nan, nan),
        squares: (s(-1.0), s(4.0)),
        inner_pair: (nan, nan),
        outer_pair: (s(-2.0), s(2.0)),
        s1: nan,
        s2: nan,
        s3: nan,
        x: [nan, nan, nan, nan],
    };
    let (r1, r2, r3, r4) = solve_quartic(s(1.0), &candidates);
    assert_eq!((f(r1), f(r2)), (-2.0, 2.0));
    assert!(f(r3).is_nan() && f(r4).is_nan());
    let both = QuarticCandidates {
        squares: (s(1.0), s(4.0)),
        inner_pair: (s(-1.0), s(1.0)),
        ..candidates
    };
    let (r1, r2, r3, r4) = solve_quartic(s(1.0), &both);
    assert_eq!((f(r1), f(r2), f(r3), f(r4)), (-2.0, -1.0, 1.0, 2.0));
    let neither = QuarticCandidates { squares: (s(-4.0), s(-1.0)), ..both };
    let (r1, r2, r3, r4) = solve_quartic(s(1.0), &neither);
    assert!(f(r1).is_nan() && f(r2).is_nan() && f(r3).is_nan() && f(r4).is_nan());
    let unreal = QuarticCandidates { squares: (nan, nan), ..both };
    let (r1, _, _, _) = solve_quartic(s(1.0), &unreal);
    assert!(f(r1).is_nan());
}
