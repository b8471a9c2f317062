//! Vacuum-stability verdicts for quartic forms along two- and three-field
//! directions.

use vstd::prelude::*;
use crate::util::scalar::Scalar;

verus! {

/// A direction in field space along which the potential is unbounded.
#[derive(Clone, Copy, Debug, PartialEq, Eq)]
pub struct Witness {
    /// The three components of the direction.
    pub direction: [Scalar; 3],
    /// The distance `|direction[1] - direction[2]|` between the last two
    /// components, as binary64 arithmetic gives it.
    pub gap: Scalar,
}

/// Outcome of one stability test.
#[derive(Clone, Copy, Debug, PartialEq, Eq)]
pub enum StabilityResult {
    Stable,
    /// One broken direction.
    Violated1(Witness),
    /// Two broken directions that mirror each other in one component.
    Violated2(Witness, Witness),
}

/// Outcome of a model's whole stability condition: whether the vacuum is
/// unstable and, if so, whether the minimum lies in the allowed region.
#[derive(Clone, Copy, Debug, PartialEq, Eq)]
pub enum FinalStabilityResult {
    Stable,
    UnstableAllowed(StabilityResult),
    UnstableDisallowed(StabilityResult),
}

/// `w2` is `w1` with the sign of component `k` flipped, and nothing else changed.
pub open spec fn mirrored_at(w1: Witness, w2: Witness, k: int) -> bool {
    &&& 0 <= k < 3
    &&& w2.direction[k] == w1.direction[k].negated()
    &&& forall|i: int| 0 <= i < 3 && i != k ==> w2.direction[i] == w1.direction[i]
}

/// The two witnesses differ by the sign of exactly one component, and that
/// component is not zero.
pub open spec fn mirrored(w1: Witness, w2: Witness) -> bool {
    exists|k: int| mirrored_at(w1, w2, k) && w1.direction[k].magnitude() != 0
}

/// The violation along a direction and its mirror image in component `k`:
/// the two as a pair, or the one direction where the component is zero and
/// the two would be the same.
pub open spec fn pair_of(w: Witness, reflected: Witness, k: int) -> StabilityResult {
    if w.direction[k].magnitude() == 0 {
        StabilityResult::Violated1(w)
    } else {
        StabilityResult::Violated2(w, reflected)
    }
}

/// Bit pattern of `1e-12`: a component smaller than this counts as vanishing.
pub const VEV_EPSILON_BITS: u64 = 0x3D71_9799_812D_EA11;

/// The kinds of direction that a witness can point in. The tests are made in
/// this order, and the first that holds names the kind.
#[derive(Clone, Copy, Debug, PartialEq, Eq, Structural)]
pub enum Direction {
    /// The first component vanishes.
    FirstVanishes,
    /// The second component vanishes.
    SecondVanishes,
    /// The third component vanishes.
    ThirdVanishes,
    /// The last two components agree.
    LastTwoAgree,
    /// None of these.
    Generic,
}

impl Witness {
    /// The kind of the direction.
    pub open spec fn kind(self) -> Direction {
        let epsilon = Scalar { bits: VEV_EPSILON_BITS };
        if self.direction[0].absolute().less(epsilon) {
            Direction::FirstVanishes
        } else if self.direction[1].absolute().less(epsilon) {
            Direction::SecondVanishes
        } else if self.direction[2].absolute().less(epsilon) {
            Direction::ThirdVanishes
        } else if self.gap.less(epsilon) {
            Direction::LastTwoAgree
        } else {
            Direction::Generic
        }
    }

    /// Computes the kind of the direction.
    pub fn classify(&self) -> (kind: Direction)
        ensures
            kind == self.kind(),
    {
        let epsilon = Scalar::from_bits(VEV_EPSILON_BITS);
        if self.direction[0].abs().lt(epsilon) {
            Direction::FirstVanishes
        } else if self.direction[1].abs().lt(epsilon) {
            Direction::SecondVanishes
        } else if self.direction[2].abs().lt(epsilon) {
            Direction::ThirdVanishes
        } else if self.gap.lt(epsilon) {
            Direction::LastTwoAgree
        } else {
            Direction::Generic
        }
    }
}

impl StabilityResult {
    /// The witness that stands for the result: the only one, or the first of
    /// a mirrored pair.
    pub open spec fn first_witness(self) -> Option<Witness> {
        match self {
            StabilityResult::Stable => None,
            StabilityResult::Violated1(w) => Some(w),
            StabilityResult::Violated2(w, _) => Some(w),
        }
    }

    pub fn witness(&self) -> (w: Option<Witness>)
        ensures
            w == self.first_witness(),
    {
        match self {
            StabilityResult::Stable => None,
            StabilityResult::Violated1(w) => Some(*w),
            StabilityResult::Violated2(w, _) => Some(*w),
        }
    }

    /// Two witnesses, where there are two, mirror each other in a component
    /// that is not zero.
    pub open spec fn well_formed(self) -> bool {
        match self {
            StabilityResult::Violated2(w1, w2) => mirrored(w1, w2),
            _ => true,
        }
    }

    pub open spec fn stable(self) -> bool {
        self is Stable
    }

    pub fn is_stable(&self) -> (b: bool)
        ensures
            b == self.stable(),
    {
        match self {
            StabilityResult::Stable => true,
            _ => false,
        }
    }
}

pub open spec fn witness_of(x: Scalar, y: Scalar, z: Scalar, gap: Scalar) -> Witness {
    Witness { direction: [x, y, z], gap }
}

fn witness(x: Scalar, y: Scalar, z: Scalar, gap: Scalar) -> (w: Witness)
    ensures
        w == witness_of(x, y, z, gap),
{
    Witness { direction: [x, y, z], gap }
}

/// Mirroring is mutual: each witness of a pair is the other with the sign of
/// one component flipped. The two components are the same number but for
/// the sign, and flipping the sign twice gives the component back.
pub proof fn mirror_is_symmetric(w1: Witness, w2: Witness, k: int)
    requires
        mirrored_at(w1, w2, k),
    ensures
        mirrored_at(w2, w1, k),
        w1.direction[k].magnitude() == w2.direction[k].magnitude(),
        w2.direction[k].value() == -w1.direction[k].value(),
        w1.direction[k].negated().negated() == w1.direction[k],
{
    w1.direction[k].negation_is_involution();
}

/// The two witnesses of a result are two directions and not one twice: they
/// differ in one component, which is a number other than zero in both or no
/// number in both, and negating it maps each witness onto the other.
pub proof fn two_witnesses_are_two_directions(result: StabilityResult)
    requires
        result.well_formed(),
    ensures
        result matches StabilityResult::Violated2(w1, w2) ==> exists|k: int|
            {
                &&& #[trigger] mirrored_at(w1, w2, k)
                &&& mirrored_at(w2, w1, k)
                &&& w1.direction != w2.direction
                &&& !w1.direction[k].nan() ==> w1.direction[k].value() != 0
                    && w2.direction[k].value() == -w1.direction[k].value()
            },
{
    match result {
        StabilityResult::Violated2(w1, w2) => {
            let k = choose|k: int| mirrored_at(w1, w2, k) && w1.direction[k].magnitude() != 0;
            w1.direction[k].negation_is_involution();
            if !w1.direction[k].nan() {
                Scalar::comparisons_are_numeric(w1.direction[k], Scalar::zero_value());
            }
            assert(w1.direction[k] != w2.direction[k]);
        },
        _ => {},
    }
}

/// The verdict of [`stab2vev`].
pub open spec fn stab2vev_verdict(
    a0: Scalar,
    a2: Scalar,
    mixed: Scalar,
    root0: Scalar,
    root2: Scalar,
) -> StabilityResult {
    let zero = Scalar::zero_value();
    let one = Scalar::one_value();
    if a0.at_most(zero) {
        StabilityResult::Violated1(witness_of(one, zero, zero, zero))
    } else if a2.at_most(zero) {
        StabilityResult::Violated1(witness_of(zero, one, zero, one))
    } else if mixed.at_most(zero) {
        pair_of(
            witness_of(root2, root0, zero, root0.absolute()),
            witness_of(root2, root0.negated(), zero, root0.absolute()),
            1,
        )
    } else {
        StabilityResult::Stable
    }
}

/// Stability of the form `a0 x^4 + a1 x^2 y^2 + a2 y^4` along a two-field
/// direction.
///
/// The caller hands in the two outer coefficients and three quantities
/// derived from all of them: `mixed` is `a1 + 2 sqrt(a0 a2)`, `root0` and
/// `root2` are the fourth roots of `a0` and `a2`. The derived quantities are
/// read only where `a0` and `a2` are positive. Along the mixed direction
/// the two witnesses mirror each other in the second component; where that
/// component is handed in as zero, the two would be one, and one comes
/// back. The gap of each witness is exact: its last component is zero, or
/// both of its last components are.
pub fn stab2vev(a0: Scalar, a2: Scalar, mixed: Scalar, root0: Scalar, root2: Scalar) -> (result:
    StabilityResult)
    ensures
        result == stab2vev_verdict(a0, a2, mixed, root0, root2),
        result.well_formed(),
{
    let zero = Scalar::zero();
    let one = Scalar::one();
    if a0.le(zero) {
        StabilityResult::Violated1(witness(one, zero, zero, zero))
    } else if a2.le(zero) {
        StabilityResult::Violated1(witness(zero, one, zero, one))
    } else if mixed.le(zero) {
        mirrored_pair(
            witness(root2, root0, zero, root0.abs()),
            witness(root2, root0.neg(), zero, root0.abs()),
            1,
        )
    } else {
        StabilityResult::Stable
    }
}

/// Bit pattern of `1e-10`: two roots closer than this count as one repeated root.
pub const THRESHOLD_BITS: u64 = 0x3DDB_7CDF_D9D7_BDBB;

/// What [`stab3vev`] decides on: the coefficients whose signs matter, and the
/// quantities the caller derived from the seven coefficients
/// `(alpha, b0, b1, b2, c0, c1, c2)` of the form.
#[derive(Clone, Copy, Debug, PartialEq, Eq)]
pub struct ThreeFieldForm {
    pub alpha: Scalar,
    pub b0: Scalar,
    pub b1: Scalar,
    pub b2: Scalar,
    pub c0: Scalar,
    pub c1: Scalar,
    pub c2: Scalar,
    /// `c1 + 2 sqrt(c0 c2)`.
    pub mixed: Scalar,
    /// The term of the direction in which the third field vanishes,
    /// `b0 + 2 sqrt(alpha c0)`: the direction is stable where it is positive.
    pub end0: Scalar,
    /// The term of the direction in which the second field vanishes,
    /// `b2 + 2 sqrt(alpha c2)`.
    pub end2: Scalar,
    /// Constant coefficient of the resolvent quartic, `-b0^2 + 4 alpha c0`.
    pub a0: Scalar,
    /// Leading coefficient of the resolvent quartic, `-b2^2 + 4 alpha c2`.
    pub a4: Scalar,
    /// Real roots of the resolvent quartic in ascending order; free slots at
    /// the end hold a NaN.
    pub quartic_roots: [Scalar; 4],
    /// Real roots of `b2 x^2 + b1 x + b0` in ascending order; free slots hold a NaN.
    pub quadratic_roots: [Scalar; 2],
    /// Fourth roots of `alpha`, `c0` and `c2`.
    pub root_alpha: Scalar,
    pub root_c0: Scalar,
    pub root_c2: Scalar,
    /// Distance between neighbouring quartic roots: `|d[i] - d[i+1]|`.
    pub gaps: [Scalar; 3],
    /// Mean of neighbouring quartic roots: `(d[i] + d[i+1]) / 2`.
    pub midpoints: [Scalar; 3],
    /// At each midpoint `m`, the fourth root of `(c0 + c1 m^2 + c2 m^4) / alpha`.
    pub heights: [Scalar; 3],
    /// At each midpoint `m`, the distance `|1 - m|`.
    pub midpoint_gaps: [Scalar; 3],
    /// The distance `|root_c2 - root_c0|` between two of the fourth roots.
    pub root_gap: Scalar,
    /// Their sum in magnitude, `|root_c2 + root_c0|`.
    pub root_sum: Scalar,
}

/// The classifier found itself in a state that its own rules exclude.
#[derive(Clone, Copy, Debug, PartialEq, Eq)]
pub enum StabilityError {
    /// The form is unstable with a positive resolvent at both ends, yet no two
    /// neighbouring roots of the resolvent coincide. Carries the form: its
    /// seven coefficients and everything derived from them.
    NoRepeatedRoot(ThreeFieldForm),
}

impl ThreeFieldForm {
    /// One of the four sign tests on `alpha`, `c0`, `c2` and `mixed` already
    /// shows a broken direction.
    pub open spec fn quick_verdict(self) -> Option<StabilityResult> {
        let zero = Scalar::zero_value();
        let one = Scalar::one_value();
        if self.alpha.at_most(zero) {
            Some(StabilityResult::Violated1(witness_of(one, zero, zero, zero)))
        } else if self.c0.at_most(zero) {
            Some(StabilityResult::Violated1(witness_of(zero, one, zero, one)))
        } else if self.c2.at_most(zero) {
            Some(StabilityResult::Violated1(witness_of(zero, zero, one, one)))
        } else if self.mixed.at_most(zero) {
            Some(
                pair_of(
                    witness_of(zero, self.root_c2, self.root_c0, self.root_gap),
                    witness_of(zero, self.root_c2, self.root_c0.negated(), self.root_sum),
                    2,
                ),
            )
        } else {
            None
        }
    }

    /// Both quadratic roots lie strictly between the quartic roots `lo` and `hi`.
    pub open spec fn enclosed(self, lo: int, hi: int) -> bool {
        self.quartic_roots[lo].less(self.quadratic_roots[0]) && self.quadratic_roots[1].less(
            self.quartic_roots[hi],
        )
    }

    /// Where the quartic has two real roots: the quadratic's roots avoid the
    /// region in which the resolvent has the wrong sign.
    pub open spec fn placed_among_two(self) -> bool {
        let zero = Scalar::zero_value();
        let d = self.quartic_roots;
        let beta = self.quadratic_roots;
        if zero.less(self.b2) {
            if zero.less(self.a4) {
                beta[1].less(d[0]) || d[1].less(beta[0])
            } else {
                self.enclosed(0, 1)
            }
        } else {
            zero.less(self.a4) && beta[1].less(d[0]) && d[1].less(beta[0])
        }
    }

    /// Where the quartic has four real roots: the same for its three gaps.
    pub open spec fn placed_among_four(self) -> bool {
        let zero = Scalar::zero_value();
        let d = self.quartic_roots;
        let beta = self.quadratic_roots;
        if zero.less(self.b2) {
            if zero.less(self.a4) {
                beta[1].less(d[0]) || d[3].less(beta[0]) || self.enclosed(1, 2)
            } else {
                self.enclosed(0, 1) || self.enclosed(2, 3)
            }
        } else {
            zero.less(self.a4) && (beta[0].less(d[0]) || d[3].less(beta[1]))
        }
    }

    /// No sign test finds a broken direction: `alpha`, `c0`, `c2`, the mixed
    /// term and both end terms are not zero or negative. That is what the
    /// two-field test asks along each of the three directions in which one
    /// field vanishes.
    pub open spec fn passes_sign_tests(self) -> bool {
        let zero = Scalar::zero_value();
        &&& !self.alpha.at_most(zero)
        &&& !self.c0.at_most(zero)
        &&& !self.c2.at_most(zero)
        &&& !self.mixed.at_most(zero)
        &&& !self.end0.at_most(zero)
        &&& !self.end2.at_most(zero)
    }

    /// Both end directions are stable: neither end term is zero or negative.
    pub open spec fn ends_stable(self) -> bool {
        !self.end0.at_most(Scalar::zero_value()) && !self.end2.at_most(Scalar::zero_value())
    }

    /// The roots of the resolvent quartic and of the quadratic are placed so
    /// that the form is bounded below. Read only where no sign test fired.
    /// A resolvent without real root that is positive at zero is positive
    /// everywhere, and the form is stable whatever the quadratic is.
    pub open spec fn placed_stably(self) -> bool {
        let zero = Scalar::zero_value();
        let no_quartic_root = self.quartic_roots[0].nan();
        let no_quadratic_root = self.quadratic_roots[0].nan();
        if no_quartic_root && zero.less(self.a0) {
            true
        } else if no_quadratic_root {
            zero.less(self.b2) || (no_quartic_root && !self.b2.at_most(zero))
        } else if no_quartic_root {
            true
        } else if self.quartic_roots[2].nan() {
            self.placed_among_two()
        } else {
            self.placed_among_four()
        }
    }

    /// Index of the first pair of neighbouring quartic roots that lie closer
    /// together than the threshold, or 3 where there is none.
    pub open spec fn repeated_pair(self) -> int {
        let threshold = Scalar { bits: THRESHOLD_BITS };
        if self.gaps[0].less(threshold) {
            0
        } else if self.gaps[1].less(threshold) {
            1
        } else if self.gaps[2].less(threshold) {
            2
        } else {
            3
        }
    }

    /// The witnesses of an unstable form on which no sign test fired.
    pub open spec fn broken_directions(self) -> Result<StabilityResult, StabilityError> {
        let zero = Scalar::zero_value();
        let one = Scalar::one_value();
        let k = self.repeated_pair();
        if self.a0.at_most(zero) || self.end0.at_most(zero) {
            Ok(
                pair_of(
                    witness_of(self.root_c0, self.root_alpha, zero, self.root_alpha.absolute()),
                    witness_of(
                        self.root_c0,
                        self.root_alpha.negated(),
                        zero,
                        self.root_alpha.absolute(),
                    ),
                    1,
                ),
            )
        } else if self.a4.at_most(zero) || self.end2.at_most(zero) {
            Ok(
                pair_of(
                    witness_of(self.root_c0, zero, self.root_alpha, self.root_alpha.absolute()),
                    witness_of(
                        self.root_c0,
                        zero,
                        self.root_alpha.negated(),
                        self.root_alpha.absolute(),
                    ),
                    2,
                ),
            )
        } else if k < 3 {
            Ok(
                pair_of(
                    witness_of(self.heights[k], one, self.midpoints[k], self.midpoint_gaps[k]),
                    witness_of(
                        self.heights[k].negated(),
                        one,
                        self.midpoints[k],
                        self.midpoint_gaps[k],
                    ),
                    0,
                ),
            )
        } else {
            Err(StabilityError::NoRepeatedRoot(self))
        }
    }

    /// The verdict of [`stab3vev`].
    pub open spec fn verdict(self) -> Result<StabilityResult, StabilityError> {
        match self.quick_verdict() {
            Some(result) => Ok(result),
            None => if self.placed_stably() && self.ends_stable() {
                Ok(StabilityResult::Stable)
            } else {
                self.broken_directions()
            },
        }
    }

    fn is_enclosed(&self, lo: usize, hi: usize) -> (b: bool)
        requires
            lo < 4,
            hi < 4,
        ensures
            b == self.enclosed(lo as int, hi as int),
    {
        self.quartic_roots[lo].lt(self.quadratic_roots[0]) && self.quadratic_roots[1].lt(
            self.quartic_roots[hi],
        )
    }

    fn is_placed_stably(&self) -> (b: bool)
        ensures
            b == self.placed_stably(),
    {
        let zero = Scalar::zero();
        let d = &self.quartic_roots;
        let beta = &self.quadratic_roots;
        let opens_up = zero.lt(self.b2);
        let leading_positive = zero.lt(self.a4);
        if d[0].is_nan() && zero.lt(self.a0) {
            true
        } else if beta[0].is_nan() {
            opens_up || (d[0].is_nan() && !self.b2.le(zero))
        } else if d[0].is_nan() {
            true
        } else if d[2].is_nan() {
            if opens_up {
                if leading_positive {
                    beta[1].lt(d[0]) || d[1].lt(beta[0])
                } else {
                    self.is_enclosed(0, 1)
                }
            } else {
                leading_positive && beta[1].lt(d[0]) && d[1].lt(beta[0])
            }
        } else {
            if opens_up {
                if leading_positive {
                    beta[1].lt(d[0]) || d[3].lt(beta[0]) || self.is_enclosed(1, 2)
                } else {
                    self.is_enclosed(0, 1) || self.is_enclosed(2, 3)
                }
            } else {
                leading_positive && (beta[0].lt(d[0]) || d[3].lt(beta[1]))
            }
        }
    }

    fn find_repeated_pair(&self) -> (k: usize)
        ensures
            k == self.repeated_pair(),
            k <= 3,
    {
        let threshold = Scalar::from_bits(THRESHOLD_BITS);
        if self.gaps[0].lt(threshold) {
            0
        } else if self.gaps[1].lt(threshold) {
            1
        } else if self.gaps[2].lt(threshold) {
            2
        } else {
            3
        }
    }
}

/// Pairs `w` with `reflected`, its mirror image in component `k`.
/// A form that is found stable has stable directions wherever one field
/// vanishes: along each of them the two-field test finds the form stable,
/// and the terms it reads are positive numbers if they are numbers at all.
pub proof fn stable_form_has_stable_ends(form: ThreeFieldForm, root: Scalar, other: Scalar)
    requires
        form.verdict() == Ok::<StabilityResult, StabilityError>(StabilityResult::Stable),
    ensures
        form.passes_sign_tests(),
        stab2vev_verdict(form.c0, form.c2, form.mixed, root, other) == StabilityResult::Stable,
        stab2vev_verdict(form.alpha, form.c0, form.end0, root, other) == StabilityResult::Stable,
        stab2vev_verdict(form.alpha, form.c2, form.end2, root, other) == StabilityResult::Stable,
        !form.alpha.nan() ==> form.alpha.value() > 0,
        !form.c0.nan() ==> form.c0.value() > 0,
        !form.c2.nan() ==> form.c2.value() > 0,
        !form.mixed.nan() ==> form.mixed.value() > 0,
        !form.end0.nan() ==> form.end0.value() > 0,
        !form.end2.nan() ==> form.end2.value() > 0,
{
    let zero = Scalar::zero_value();
    Scalar::comparisons_are_numeric(zero, zero);
    if !form.alpha.nan() {
        Scalar::comparisons_are_numeric(form.alpha, zero);
    }
    if !form.c0.nan() {
        Scalar::comparisons_are_numeric(form.c0, zero);
    }
    if !form.c2.nan() {
        Scalar::comparisons_are_numeric(form.c2, zero);
    }
    if !form.mixed.nan() {
        Scalar::comparisons_are_numeric(form.mixed, zero);
    }
    if !form.end0.nan() {
        Scalar::comparisons_are_numeric(form.end0, zero);
    }
    if !form.end2.nan() {
        Scalar::comparisons_are_numeric(form.end2, zero);
    }
}

fn mirrored_pair(w: Witness, reflected: Witness, k: usize) -> (result: StabilityResult)
    requires
        mirrored_at(w, reflected, k as int),
    ensures
        result == pair_of(w, reflected, k as int),
        result.well_formed(),
{
    if w.direction[k].abs().to_bits() == 0 {
        StabilityResult::Violated1(w)
    } else {
        StabilityResult::Violated2(w, reflected)
    }
}

/// Stability of a quartic form along a three-field direction.
///
/// Four sign tests come first, in the order `alpha`, `c0`, `c2`, `mixed`; each
/// that fires names a broken direction. Otherwise the form is stable where
/// the real roots of the resolvent quartic and of the quadratic are placed as
/// [`ThreeFieldForm::placed_stably`] says and both end directions are stable.
/// Otherwise it is unstable: along a two-field direction where the resolvent
/// or the end term is not positive at one end, else along the direction of
/// the first repeated root of the resolvent. Where the rules expect a
/// repeated root and there is none, the form comes back in an error. The gap
/// of a witness is taken from the form where it takes a subtraction, and is
/// exact everywhere else.
pub fn stab3vev(form: &ThreeFieldForm) -> (result: Result<StabilityResult, StabilityError>)
    ensures
        result == form.verdict(),
        result matches Ok(r) ==> r.well_formed(),
        result == Ok::<StabilityResult, StabilityError>(StabilityResult::Stable)
            ==> form.passes_sign_tests(),
{
    let zero = Scalar::zero();
    let one = Scalar::one();
    if form.alpha.le(zero) {
        return Ok(StabilityResult::Violated1(witness(one, zero, zero, zero)));
    }
    if form.c0.le(zero) {
        return Ok(StabilityResult::Violated1(witness(zero, one, zero, one)));
    }
    if form.c2.le(zero) {
        return Ok(StabilityResult::Violated1(witness(zero, zero, one, one)));
    }
    if form.mixed.le(zero) {
        return Ok(
            mirrored_pair(
                witness(zero, form.root_c2, form.root_c0, form.root_gap),
                witness(zero, form.root_c2, form.root_c0.neg(), form.root_sum),
                2,
            ),
        );
    }
    if form.is_placed_stably() && !form.end0.le(zero) && !form.end2.le(zero) {
        return Ok(StabilityResult::Stable);
    }
    if form.a0.le(zero) || form.end0.le(zero) {
        return Ok(
            mirrored_pair(
                witness(form.root_c0, form.root_alpha, zero, form.root_alpha.abs()),
                witness(form.root_c0, form.root_alpha.neg(), zero, form.root_alpha.abs()),
                1,
            ),
        );
    }
    if form.a4.le(zero) || form.end2.le(zero) {
        return Ok(
            mirrored_pair(
                witness(form.root_c0, zero, form.root_alpha, form.root_alpha.abs()),
                witness(form.root_c0, zero, form.root_alpha.neg(), form.root_alpha.abs()),
                2,
            ),
        );
    }
    let k = form.find_repeated_pair();
    if k < 3 {
        Ok(
            mirrored_pair(
                witness(form.heights[k], one, form.midpoints[k], form.midpoint_gaps[k]),
                witness(form.heights[k].neg(), one, form.midpoints[k], form.midpoint_gaps[k]),
                0,
            ),
        )
    } else {
        Err(StabilityError::NoRepeatedRoot(*form))
    }
}

/// One stability test of a model: its outcome, and whether a violation it
/// finds lies in the allowed region.
pub type StabilityTest = (Result<StabilityResult, StabilityError>, bool);

/// The verdict of one test, or `None` where the test found the form stable.
pub open spec fn test_verdict(test: StabilityTest) -> Option<
    Result<FinalStabilityResult, StabilityError>,
> {
    match test.0 {
        Err(error) => Some(Err(error)),
        Ok(StabilityResult::Stable) => None,
        Ok(violation) => if test.1 {
            Some(Ok(FinalStabilityResult::UnstableAllowed(violation)))
        } else {
            Some(Ok(FinalStabilityResult::UnstableDisallowed(violation)))
        },
    }
}

/// The verdict of the first `n` tests: that of the first test that did not
/// find the form stable, or stable where there is none.
pub open spec fn verdict_of(tests: Seq<StabilityTest>, n: int) -> Result<
    FinalStabilityResult,
    StabilityError,
>
    decreases n,
{
    if n <= 0 {
        Ok(FinalStabilityResult::Stable)
    } else {
        match verdict_of(tests, n - 1) {
            Ok(FinalStabilityResult::Stable) => match test_verdict(tests[n - 1]) {
                Some(verdict) => verdict,
                None => Ok(FinalStabilityResult::Stable),
            },
            earlier => earlier,
        }
    }
}

/// Combines the stability tests of a model, taken in order: the first that
/// fails to find the form stable decides, with its violation marked as
/// allowed or disallowed, or with its error.
pub fn settle<const K: usize>(tests: &[StabilityTest; K]) -> (verdict: Result<
    FinalStabilityResult,
    StabilityError,
>)
    ensures
        verdict == verdict_of(tests@, K as int),
{
    let mut k: usize = 0;
    while k < K
        invariant
            k <= K,
            verdict_of(tests@, k as int) == Ok::<FinalStabilityResult, StabilityError>(
                FinalStabilityResult::Stable,
            ),
        decreases K - k,
    {
        let (outcome, allowed) = tests[k];
        match outcome {
            Err(error) => {
                proof {
                    settled_verdict_stays(tests@, k as int + 1, K as int);
                }
                return Err(error);
            },
            Ok(StabilityResult::Stable) => {},
            Ok(violation) => {
                proof {
                    settled_verdict_stays(tests@, k as int + 1, K as int);
                }
                return Ok(
                    if allowed {
                        FinalStabilityResult::UnstableAllowed(violation)
                    } else {
                        FinalStabilityResult::UnstableDisallowed(violation)
                    },
                );
            },
        }
        k += 1;
    }
    Ok(FinalStabilityResult::Stable)
}

/// Once a test has decided, later tests change nothing.
pub proof fn settled_verdict_stays(tests: Seq<StabilityTest>, n: int, m: int)
    requires
        0 <= n <= m,
        verdict_of(tests, n) != Ok::<FinalStabilityResult, StabilityError>(
            FinalStabilityResult::Stable,
        ),
    ensures
        verdict_of(tests, m) == verdict_of(tests, n),
    decreases m - n,
{
    if n < m {
        settled_verdict_stays(tests, n, m - 1);
    }
}

} // verus!
