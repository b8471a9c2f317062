//! Which formula gives the real roots of a polynomial of degree one to four,
//! and which of its values are roots.
//!
//! The caller evaluates the closed-form formulas of every branch; the
//! functions here make the comparisons that choose between them. A slot
//! without a root holds the NaN marker.

use vstd::prelude::*;
use crate::util::scalar::Scalar;

verus! {

/// Bit pattern of `1e-15`: a coefficient smaller than this in magnitude
/// counts as zero.
pub const EPSILON_BITS: u64 = 0x3CD2_03AF_9EE7_5616;

/// The coefficient counts as zero.
pub open spec fn negligible(a: Scalar) -> bool {
    a.absolute().less(Scalar { bits: EPSILON_BITS })
}

/// Whether the coefficient counts as zero.
pub fn is_negligible(a: Scalar) -> (b: bool)
    ensures
        b == negligible(a),
{
    a.abs().lt(Scalar::from_bits(EPSILON_BITS))
}

/// A coefficient counts as zero exactly where the number it encodes lies
/// strictly between the threshold and its negative.
pub proof fn negligible_is_numeric(a: Scalar)
    requires
        !a.nan(),
    ensures
        negligible(a) <==> -(Scalar { bits: EPSILON_BITS }).value() < a.value() < (Scalar {
            bits: EPSILON_BITS,
        }).value(),
{
    let epsilon = Scalar { bits: EPSILON_BITS };
    a.negation_is_involution();
    Scalar::comparisons_are_numeric(a.absolute(), epsilon);
}

/// The root of `a1 x + a0`, where `quotient` is `-a0 / a1`.
pub open spec fn linear_root(a1: Scalar, quotient: Scalar) -> Scalar {
    if negligible(a1) {
        Scalar::nan_value()
    } else {
        quotient
    }
}

/// The root of `a1 x + a0`: the quotient `-a0 / a1` that the caller worked
/// out, or no root where `a1` counts as zero.
pub fn solve_linear(a1: Scalar, quotient: Scalar) -> (root: Scalar)
    ensures
        root == linear_root(a1, quotient),
{
    if is_negligible(a1) {
        Scalar::nan_marker()
    } else {
        quotient
    }
}

/// What the caller worked out for a quadratic `a2 x^2 + a1 x + a0`.
#[derive(Clone, Copy, Debug, PartialEq, Eq)]
pub struct QuadraticCandidates {
    /// The discriminant `a1^2 - 4 a2 a0`.
    pub discriminant: Scalar,
    /// The root of the linear rest `a1 x + a0`.
    pub linear: Scalar,
    /// `(-a1 - sqrt(d)) / (2 a2)`.
    pub lower: Scalar,
    /// `(-a1 + sqrt(d)) / (2 a2)`.
    pub upper: Scalar,
}

/// The real roots of a quadratic: those of the linear rest where `a2` counts
/// as zero, none where the discriminant is negative, else the two values of
/// the root formula, the one with the minus sign first.
pub open spec fn quadratic_roots(a2: Scalar, c: QuadraticCandidates) -> (Scalar, Scalar) {
    if negligible(a2) {
        (c.linear, Scalar::nan_value())
    } else if c.discriminant.less(Scalar::zero_value()) {
        (Scalar::nan_value(), Scalar::nan_value())
    } else {
        (c.lower, c.upper)
    }
}

/// Chooses the real roots of a quadratic among the candidates.
pub fn solve_quadratic(a2: Scalar, candidates: &QuadraticCandidates) -> (roots: (Scalar, Scalar))
    ensures
        roots == quadratic_roots(a2, *candidates),
{
    if is_negligible(a2) {
        (candidates.linear, Scalar::nan_marker())
    } else if candidates.discriminant.lt(Scalar::zero()) {
        (Scalar::nan_marker(), Scalar::nan_marker())
    } else {
        (candidates.lower, candidates.upper)
    }
}

/// What the caller worked out for a cubic `a3 x^3 + a2 x^2 + a1 x + a0`.
#[derive(Clone, Copy, Debug, PartialEq, Eq)]
pub struct CubicCandidates {
    /// The coefficient `p` of the depressed cubic `t^3 + p t + q`.
    pub p: Scalar,
    /// The discriminant `4 p^3 + 27 q^2`.
    pub discriminant: Scalar,
    /// The roots of the quadratic rest `a2 x^2 + a1 x + a0`.
    pub quadratic: (Scalar, Scalar),
    /// `-cbrt(q) - a2 / (3 a3)`, the root where `p` counts as zero: the cube
    /// root of the depressed cubic, shifted back like the values of the other
    /// formulas.
    pub cube_root: Scalar,
    /// The three values of the trigonometric formula.
    pub trigonometric: (Scalar, Scalar, Scalar),
    /// The value of the hyperbolic formula with `cosh`, for negative `p`.
    pub hyperbolic_cosh: Scalar,
    /// The value of the hyperbolic formula with `sinh`, for positive `p`.
    pub hyperbolic_sinh: Scalar,
}

/// The real roots of a cubic: those of the quadratic rest where `a3` counts
/// as zero; one cube root where `p` does; three from the trigonometric
/// formula where the discriminant is not positive; else one from the
/// hyperbolic formula, by the sign of `p`.
pub open spec fn cubic_roots(a3: Scalar, c: CubicCandidates) -> (Scalar, Scalar, Scalar) {
    let nan = Scalar::nan_value();
    let zero = Scalar::zero_value();
    if negligible(a3) {
        (c.quadratic.0, c.quadratic.1, nan)
    } else if negligible(c.p) {
        (c.cube_root, nan, nan)
    } else if c.discriminant.at_most(zero) {
        c.trigonometric
    } else if c.p.less(zero) {
        (c.hyperbolic_cosh, nan, nan)
    } else {
        (c.hyperbolic_sinh, nan, nan)
    }
}

/// Chooses the real roots of a cubic among the candidates.
pub fn solve_cubic(a3: Scalar, candidates: &CubicCandidates) -> (roots: (Scalar, Scalar, Scalar))
    ensures
        roots == cubic_roots(a3, *candidates),
{
    let nan = Scalar::nan_marker();
    let zero = Scalar::zero();
    if is_negligible(a3) {
        (candidates.quadratic.0, candidates.quadratic.1, nan)
    } else if is_negligible(candidates.p) {
        (candidates.cube_root, nan, nan)
    } else if candidates.discriminant.le(zero) {
        candidates.trigonometric
    } else if candidates.p.lt(zero) {
        (candidates.hyperbolic_cosh, nan, nan)
    } else {
        (candidates.hyperbolic_sinh, nan, nan)
    }
}

/// What the caller worked out for a quartic
/// `a4 x^4 + a3 x^3 + a2 x^2 + a1 x + a0`.
#[derive(Clone, Copy, Debug, PartialEq, Eq)]
pub struct QuarticCandidates {
    /// The coefficient `b` of the depressed quartic `y^4 + a y^2 + b y + c`.
    pub b: Scalar,
    /// The roots of the cubic rest `a3 x^3 + a2 x^2 + a1 x + a0`.
    pub cubic: (Scalar, Scalar, Scalar),
    /// For `b = 0`: the roots of the quadratic `z^2 + a z + c` in `z = y^2`.
    pub squares: (Scalar, Scalar),
    /// For `b = 0`: the two roots `-sqrt(z) + shift`, `sqrt(z) + shift` from
    /// the first root of the quadratic.
    pub inner_pair: (Scalar, Scalar),
    /// For `b = 0`: the same from the second root of the quadratic.
    pub outer_pair: (Scalar, Scalar),
    /// The three nested square roots of the general case.
    pub s1: Scalar,
    pub s2: Scalar,
    pub s3: Scalar,
    /// The four values of the general case: `(-s1 + s2) / 2`, `(-s1 - s2) / 2`,
    /// `(s1 + s3) / 2`, `(s1 - s3) / 2`, each shifted.
    pub x: [Scalar; 4],
}

/// Four slots for roots.
pub type Slots = (Scalar, Scalar, Scalar, Scalar);

/// The four slots without a root.
pub open spec fn no_roots() -> Slots {
    (Scalar::nan_value(), Scalar::nan_value(), Scalar::nan_value(), Scalar::nan_value())
}

/// The square can be a root's square: it is a number and not negative.
pub open spec fn radicand(square: Scalar) -> bool {
    Scalar::zero_value().at_most(square)
}

/// The values that a quartic without its odd terms takes for roots, in no
/// order: each root of the quadratic in `y^2` that is not negative gives
/// its pair, and a negative one gives nothing.
pub open spec fn biquadratic_chosen(c: QuarticCandidates) -> Slots {
    let nan = Scalar::nan_value();
    let (inner_low, inner_high) = if radicand(c.squares.0) {
        c.inner_pair
    } else {
        (nan, nan)
    };
    let (outer_low, outer_high) = if radicand(c.squares.1) {
        c.outer_pair
    } else {
        (nan, nan)
    };
    (inner_low, inner_high, outer_low, outer_high)
}

/// The values that the general case takes for roots, in no order: each of
/// the two inner square roots that is real gives its pair.
pub open spec fn ferrari_chosen(c: QuarticCandidates) -> Slots {
    let nan = Scalar::nan_value();
    if c.s1.nan() || c.s1.magnitude() == crate::util::scalar::INFINITY_BITS {
        no_roots()
    } else {
        let (first_low, first_high) = if c.s2.nan() {
            (nan, nan)
        } else {
            (c.x[1], c.x[0])
        };
        let (second_low, second_high) = if c.s3.nan() {
            (nan, nan)
        } else {
            (c.x[3], c.x[2])
        };
        (first_low, first_high, second_low, second_high)
    }
}

/// The values that a quartic takes for roots, in no order: those of the
/// cubic rest where `a4` counts as zero, else those of the depressed
/// quartic, without its odd terms where `b` counts as zero.
pub open spec fn quartic_chosen(a4: Scalar, c: QuarticCandidates) -> Slots {
    if negligible(a4) {
        (c.cubic.0, c.cubic.1, c.cubic.2, Scalar::nan_value())
    } else if negligible(c.b) {
        biquadratic_chosen(c)
    } else {
        ferrari_chosen(c)
    }
}

/// `b` belongs before `a`: it is a number, and `a` is none or a greater one.
pub open spec fn precedes(b: Scalar, a: Scalar) -> bool {
    !b.nan() && (a.nan() || b.less(a))
}

/// The two values with the one that belongs first in front.
pub open spec fn in_order(a: Scalar, b: Scalar) -> (Scalar, Scalar) {
    if precedes(b, a) {
        (b, a)
    } else {
        (a, b)
    }
}

/// The four values put in order: the numbers ascending, then the slots
/// without a number.
pub open spec fn arranged(t: Slots) -> Slots {
    let (a, b) = in_order(t.0, t.1);
    let (c, d) = in_order(t.2, t.3);
    let (a, c) = in_order(a, c);
    let (b, d) = in_order(b, d);
    let (b, c) = in_order(b, c);
    (a, b, c, d)
}

/// `b` may follow `a`: `b` is no number, or both are numbers and `a` is at
/// most `b`.
pub open spec fn follows(a: Scalar, b: Scalar) -> bool {
    b.nan() || (!a.nan() && a.at_most(b))
}

/// The numbers in the slots ascend, and no number follows a free slot.
pub open spec fn ascending(t: Slots) -> bool {
    follows(t.0, t.1) && follows(t.1, t.2) && follows(t.2, t.3)
}

/// How often the pattern `v` stands in the slots.
pub open spec fn occurrences(t: Slots, v: Scalar) -> int {
    (if t.0 == v {
        1int
    } else {
        0int
    }) + (if t.1 == v {
        1int
    } else {
        0int
    }) + (if t.2 == v {
        1int
    } else {
        0int
    }) + (if t.3 == v {
        1int
    } else {
        0int
    })
}

/// The two groups of slots hold the same values, each as often.
pub open spec fn same_values(a: Slots, b: Slots) -> bool {
    forall|v: Scalar| occurrences(a, v) == occurrences(b, v)
}

/// Putting four values in order keeps the values, and leaves them ascending
/// with the free slots at the end.
pub proof fn arranged_is_in_order(t: Slots)
    ensures
        ascending(arranged(t)),
        same_values(arranged(t), t),
{
}

/// The real roots of a quartic in ascending order, free slots at the end.
pub open spec fn quartic_roots(a4: Scalar, c: QuarticCandidates) -> Slots {
    arranged(quartic_chosen(a4, c))
}

fn put_in_order(a: Scalar, b: Scalar) -> (pair: (Scalar, Scalar))
    ensures
        pair == in_order(a, b),
{
    if !b.is_nan() && (a.is_nan() || b.lt(a)) {
        (b, a)
    } else {
        (a, b)
    }
}

fn arrange(t: Slots) -> (sorted: Slots)
    ensures
        sorted == arranged(t),
{
    let (a, b) = put_in_order(t.0, t.1);
    let (c, d) = put_in_order(t.2, t.3);
    let (a, c) = put_in_order(a, c);
    let (b, d) = put_in_order(b, d);
    let (b, c) = put_in_order(b, c);
    (a, b, c, d)
}

fn choose_biquadratic(c: &QuarticCandidates) -> (chosen: Slots)
    ensures
        chosen == biquadratic_chosen(*c),
{
    let nan = Scalar::nan_marker();
    let zero = Scalar::zero();
    let inner = if zero.le(c.squares.0) {
        c.inner_pair
    } else {
        (nan, nan)
    };
    let outer = if zero.le(c.squares.1) {
        c.outer_pair
    } else {
        (nan, nan)
    };
    (inner.0, inner.1, outer.0, outer.1)
}

fn choose_ferrari(c: &QuarticCandidates) -> (chosen: Slots)
    ensures
        chosen == ferrari_chosen(*c),
{
    let nan = Scalar::nan_marker();
    if c.s1.is_nan() || c.s1.is_infinite() {
        (nan, nan, nan, nan)
    } else {
        let first = if c.s2.is_nan() {
            (nan, nan)
        } else {
            (c.x[1], c.x[0])
        };
        let second = if c.s3.is_nan() {
            (nan, nan)
        } else {
            (c.x[3], c.x[2])
        };
        (first.0, first.1, second.0, second.1)
    }
}

/// Chooses the real roots of a quartic among the candidates and puts them in
/// ascending order, with the free slots at the end.
pub fn solve_quartic(a4: Scalar, candidates: &QuarticCandidates) -> (roots: Slots)
    ensures
        roots == quartic_roots(a4, *candidates),
        same_values(roots, quartic_chosen(a4, *candidates)),
        ascending(roots),
{
    let chosen = if is_negligible(a4) {
        (candidates.cubic.0, candidates.cubic.1, candidates.cubic.2, Scalar::nan_marker())
    } else if is_negligible(candidates.b) {
        choose_biquadratic(candidates)
    } else {
        choose_ferrari(candidates)
    };
    proof {
        arranged_is_in_order(chosen);
    }
    arrange(chosen)
}

/// A quartic whose leading coefficient is zero has the roots of its cubic
/// rest, put in order, and a cubic and a quadratic without leading
/// coefficient have those of their rests in the same slots.
pub proof fn vanishing_leading_coefficient_lowers_the_degree(
    leading: Scalar,
    quartic: QuarticCandidates,
    cubic: CubicCandidates,
    quadratic: QuadraticCandidates,
    quotient: Scalar,
)
    requires
        leading.magnitude() == 0,
    ensures
        same_values(
            quartic_roots(leading, quartic),
            (quartic.cubic.0, quartic.cubic.1, quartic.cubic.2, Scalar::nan_value()),
        ),
        ascending(quartic_roots(leading, quartic)),
        cubic_roots(leading, cubic) == (cubic.quadratic.0, cubic.quadratic.1, Scalar::nan_value()),
        quadratic_roots(leading, quadratic) == (quadratic.linear, Scalar::nan_value()),
        linear_root(leading, quotient) == Scalar::nan_value(),
{
    arranged_is_in_order(quartic_chosen(leading, quartic));
}

/// The candidates that the taken branch of a quartic reads are numbers.
pub open spec fn candidates_are_numbers(c: QuarticCandidates) -> bool {
    if negligible(c.b) {
        &&& radicand(c.squares.0) ==> !c.inner_pair.0.nan() && !c.inner_pair.1.nan()
        &&& radicand(c.squares.1) ==> !c.outer_pair.0.nan() && !c.outer_pair.1.nan()
    } else {
        &&& !c.s2.nan() ==> !c.x[0].nan() && !c.x[1].nan()
        &&& !c.s3.nan() ==> !c.x[2].nan() && !c.x[3].nan()
    }
}

/// The roots of a quartic fill the first slots: a free slot is never
/// followed by a root. Where the leading coefficient does not count as
/// zero and the candidates read are numbers, none, two or four slots are
/// filled.
pub proof fn free_slots_trail(a4: Scalar, c: QuarticCandidates)
    ensures
        ({
            let r = quartic_roots(a4, c);
            &&& r.0.nan() ==> r.1.nan()
            &&& r.1.nan() ==> r.2.nan()
            &&& r.2.nan() ==> r.3.nan()
            &&& !negligible(a4) && candidates_are_numbers(c) ==> (r.0.nan() == r.1.nan() && r.2.nan()
                == r.3.nan())
        }),
{
    arranged_is_in_order(quartic_chosen(a4, c));
}

} // verus!
