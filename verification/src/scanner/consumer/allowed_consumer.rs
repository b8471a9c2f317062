//! Counts, for every pair of axes, the samples whose vacuum broke into the
//! allowed and into the disallowed region.

use vstd::prelude::*;
use crate::scanner::consumer::{
    blank_matrix, blank_matrix_has_shape, matrix_has_shape, matrix_merge_blank_is_identity,
    matrix_merge_laws, matrix_mergeable, matrix_merged, matrix_placeable, matrix_placed,
    matrix_shape_is_kept, matrix_write_commutes_with_merge, CouplingRanges, GridPoint, LayerMatrix,
    Matrix, ScanConsumer,
};
use crate::scanner::scanner::{scan_keeps_valid, scanned};
use crate::simulation::IntegrationResult;
use crate::util::image::{
    blended, clamped, has_shape, mergeable, placeable, Cell, Image, Layer, BACKGROUND,
};
use crate::util::scalar::Scalar;
use crate::util::stability::FinalStabilityResult;

verus! {

/// What an [`AllowedConsumer`] has collected: for each pair of axes, the
/// number of samples in each cell that broke one way and the other.
pub struct AllowedCounts {
    pub broken_allowed: Matrix<int>,
    pub broken_disallowed: Matrix<int>,
}

/// Counts broken samples by the region their minimum lies in.
pub struct AllowedConsumer<const N: usize, const NX: usize, const NY: usize> {
    broken_allowed: LayerMatrix<i64, N, NX, NY>,
    broken_disallowed: LayerMatrix<i64, N, NX, NY>,
}

impl<const N: usize, const NX: usize, const NY: usize> AllowedConsumer<N, NX, NY> {
    pub closed spec fn counts(self) -> AllowedCounts {
        AllowedCounts {
            broken_allowed: self.broken_allowed@,
            broken_disallowed: self.broken_disallowed@,
        }
    }

    /// The ranges that the layers of the pair `(i, j)` cover, each as the
    /// range along `x` and the range along `y`, in the order of the layers.
    pub closed spec fn ranges_of(self, i: int, j: int) -> Seq<
        ((Scalar, Scalar), (Scalar, Scalar)),
    > {
        seq![self.broken_allowed.axes(i, j), self.broken_disallowed.axes(i, j)]
    }

    /// A consumer that has seen no sample: the layers of the pair `(i, j)`
    /// cover the range of axis `i` along `x` and that of axis `j` along `y`.
    pub fn new(ranges: CouplingRanges<N>) -> (consumer: Self)
        ensures
            consumer.counts() == Self::fresh(),
            forall|i: int, j: int|
                0 <= i < N && 0 <= j < N ==> #[trigger] consumer.ranges_of(i, j) == seq![
                    (ranges[i], ranges[j]), (ranges[i], ranges[j]),
                ],
    {
        AllowedConsumer {
            broken_allowed: LayerMatrix::new(&ranges),
            broken_disallowed: LayerMatrix::new(&ranges),
        }
    }

    fn render_pair<F: Fn(i64, i64) -> u32>(&self, i: usize, j: usize, blend: &F) -> (image: Image<
        NX,
        NY,
    >)
        requires
            i < N,
            j < N,
            forall|first: i64, second: i64| call_requires(*blend, (first, second)),
        ensures
            self.pictured(*blend, i as int, j as int, image@),
    {
        let mut image: Image<NX, NY> = Image::new();
        match (self.broken_allowed.layer(i, j), self.broken_disallowed.layer(i, j)) {
            (Some(allowed), Some(disallowed)) => {
                image.draw_count_layers(allowed, disallowed, blend);
                assert forall|k: int, l: int| 0 <= k < NX && 0 <= l < NY implies blended(
                    *blend,
                    self.counts().broken_allowed[i as int][j as int][k][l] as i64,
                    self.counts().broken_disallowed[i as int][j as int][k][l] as i64,
                    BACKGROUND,
                    #[trigger] image@[k][l],
                ) by {
                    assert(allowed@[k][l] == allowed.stored(k, l));
                    assert(disallowed@[k][l] == disallowed.stored(k, l));
                }
            },
            _ => {},
        }
        image
    }

    /// One picture for every pair of axes: `images[i][j]` shows, on a white
    /// ground, every cell of the pair `(i, j)` with a count in the colour
    /// that `blend` makes of its two counts, the allowed one first.
    pub fn render<F: Fn(i64, i64) -> u32>(&self, blend: &F) -> (images: Vec<Vec<Image<NX, NY>>>)
        requires
            forall|first: i64, second: i64| call_requires(*blend, (first, second)),
        ensures
            images@.len() == N,
            forall|i: int| 0 <= i < N ==> (#[trigger] images@[i])@.len() == N,
            forall|i: int, j: int|
                0 <= i < N && 0 <= j < N ==> self.pictured(*blend, i, j, (#[trigger] images@[i]@[j])@),
    {
        let mut images: Vec<Vec<Image<NX, NY>>> = Vec::new();
        let mut i: usize = 0;
        while i < N
            invariant
                i <= N,
                images@.len() == i,
                forall|first: i64, second: i64| call_requires(*blend, (first, second)),
                forall|k: int| 0 <= k < i ==> (#[trigger] images@[k])@.len() == N,
                forall|k: int, l: int|
                    0 <= k < i && 0 <= l < N ==> self.pictured(
                        *blend,
                        k,
                        l,
                        (#[trigger] images@[k]@[l])@,
                    ),
            decreases N - i,
        {
            let mut row: Vec<Image<NX, NY>> = Vec::new();
            let mut j: usize = 0;
            while j < N
                invariant
                    i < N,
                    j <= N,
                    row@.len() == j,
                    forall|first: i64, second: i64| call_requires(*blend, (first, second)),
                    forall|l: int|
                        0 <= l < j ==> self.pictured(*blend, i as int, l, (#[trigger] row@[l])@),
                decreases N - j,
            {
                row.push(self.render_pair(i, j, blend));
                j += 1;
            }
            images.push(row);
            i += 1;
        }
        images
    }

    /// `picture` shows the two count layers of the pair `(i, j)`: white
    /// where both counts are zero, else a colour that `blend` can give for
    /// the two counts.
    pub open spec fn pictured<F: Fn(i64, i64) -> u32>(
        self,
        blend: F,
        i: int,
        j: int,
        picture: crate::util::image::Grid<u32>,
    ) -> bool {
        forall|k: int, l: int|
            0 <= k < NX && 0 <= l < NY ==> blended(
                blend,
                self.counts().broken_allowed[i][j][k][l] as i64,
                self.counts().broken_disallowed[i][j][k][l] as i64,
                BACKGROUND,
                #[trigger] picture[k][l],
            )
    }

    /// The counts of allowed breakings for the axes `(i, j)`.
    pub fn broken_allowed(&self, i: usize, j: usize) -> (layer: Option<&Layer<i64, NX, NY>>)
        ensures
            i < N && j < N ==> layer.is_some() && layer.unwrap()@
                == self.counts().broken_allowed[i as int][j as int] && (
                layer.unwrap().axis_x(),
                layer.unwrap().axis_y(),
            ) == self.ranges_of(i as int, j as int)[0],
            !(i < N && j < N) ==> layer.is_none(),
    {
        self.broken_allowed.layer(i, j)
    }

    /// The counts of disallowed breakings for the axes `(i, j)`.
    pub fn broken_disallowed(&self, i: usize, j: usize) -> (layer: Option<&Layer<i64, NX, NY>>)
        ensures
            i < N && j < N ==> layer.is_some() && layer.unwrap()@
                == self.counts().broken_disallowed[i as int][j as int] && (
                layer.unwrap().axis_x(),
                layer.unwrap().axis_y(),
            ) == self.ranges_of(i as int, j as int)[1],
            !(i < N && j < N) ==> layer.is_none(),
    {
        self.broken_disallowed.layer(i, j)
    }
}

impl<const N: usize, const NX: usize, const NY: usize> ScanConsumer<N> for AllowedConsumer<
    N,
    NX,
    NY,
> {
    type State = AllowedCounts;

    type Setup = ();

    open spec fn state(&self) -> AllowedCounts {
        self.counts()
    }

    open spec fn setup(&self) -> () {
        ()
    }

    open spec fn fresh() -> AllowedCounts {
        AllowedCounts {
            broken_allowed: blank_matrix::<i64>(N as int, NX as int, NY as int),
            broken_disallowed: blank_matrix::<i64>(N as int, NX as int, NY as int),
        }
    }

    open spec fn valid(state: AllowedCounts) -> bool {
        &&& matrix_has_shape(state.broken_allowed, N as int, NX as int, NY as int)
        &&& matrix_has_shape(state.broken_disallowed, N as int, NX as int, NY as int)
    }

    open spec fn accepts(
        setup: (),
        state: AllowedCounts,
        point: GridPoint<N>,
        result: IntegrationResult,
    ) -> bool {
        match result {
            IntegrationResult::Broken(_, FinalStabilityResult::UnstableAllowed(_)) => {
                matrix_placeable::<i64, N>(state.broken_allowed, point, NX as int, NY as int, 1)
            },
            IntegrationResult::Broken(_, FinalStabilityResult::UnstableDisallowed(_)) => {
                matrix_placeable::<i64, N>(state.broken_disallowed, point, NX as int, NY as int, 1)
            },
            _ => true,
        }
    }

    /// A broken sample adds one to its cell in every pair of axes, in the
    /// layer of its region; every other sample adds nothing.
    open spec fn consumed(
        setup: (),
        state: AllowedCounts,
        point: GridPoint<N>,
        result: IntegrationResult,
    ) -> AllowedCounts {
        match result {
            IntegrationResult::Broken(_, FinalStabilityResult::UnstableAllowed(_)) => AllowedCounts {
                broken_allowed: matrix_placed::<i64, N>(
                    state.broken_allowed,
                    point,
                    NX as int,
                    NY as int,
                    1,
                ),
                ..state
            },
            IntegrationResult::Broken(_, FinalStabilityResult::UnstableDisallowed(_)) => AllowedCounts {
                broken_disallowed: matrix_placed::<i64, N>(
                    state.broken_disallowed,
                    point,
                    NX as int,
                    NY as int,
                    1,
                ),
                ..state
            },
            _ => state,
        }
    }

    open spec fn takes(a: AllowedCounts, b: AllowedCounts) -> bool {
        matrix_mergeable::<i64>(a.broken_allowed, b.broken_allowed) && matrix_mergeable::<i64>(
            a.broken_disallowed,
            b.broken_disallowed,
        )
    }

    open spec fn combined(a: AllowedCounts, b: AllowedCounts) -> AllowedCounts {
        AllowedCounts {
            broken_allowed: matrix_merged::<i64>(a.broken_allowed, b.broken_allowed),
            broken_disallowed: matrix_merged::<i64>(a.broken_disallowed, b.broken_disallowed),
        }
    }

    fn can_consume(&self, point: GridPoint<N>, result: IntegrationResult) -> (ok: bool) {
        let one: i64 = 1;
        match result {
            IntegrationResult::Broken(_, FinalStabilityResult::UnstableAllowed(_)) => {
                self.broken_allowed.can_write(&point, &one)
            },
            IntegrationResult::Broken(_, FinalStabilityResult::UnstableDisallowed(_)) => {
                self.broken_disallowed.can_write(&point, &one)
            },
            _ => true,
        }
    }

    fn consume(&mut self, point: GridPoint<N>, result: IntegrationResult)
        ensures
            forall|i: int, j: int|
                0 <= i < N && 0 <= j < N ==> #[trigger] final(self).ranges_of(i, j) == old(
                    self,
                ).ranges_of(i, j),
    {
        match result {
            IntegrationResult::Broken(_, FinalStabilityResult::UnstableAllowed(_)) => {
                self.broken_allowed.write(&point, 1);
            },
            IntegrationResult::Broken(_, FinalStabilityResult::UnstableDisallowed(_)) => {
                self.broken_disallowed.write(&point, 1);
            },
            _ => {},
        }
    }

    fn can_merge(&self, other: &Self) -> (ok: bool) {
        self.broken_allowed.can_merge(&other.broken_allowed) && self.broken_disallowed.can_merge(
            &other.broken_disallowed,
        )
    }

    fn duplicate(&self) -> (copy: Self) {
        self.clone()
    }

    fn merge(&mut self, other: Self)
        ensures
            forall|i: int, j: int|
                0 <= i < N && 0 <= j < N ==> #[trigger] final(self).ranges_of(i, j) == old(
                    self,
                ).ranges_of(i, j),
    {
        self.broken_allowed.merge(&other.broken_allowed);
        self.broken_disallowed.merge(&other.broken_disallowed);
    }

    proof fn fresh_is_valid() {
        blank_matrix_has_shape::<i64>(N as int, NX as int, NY as int);
    }

    proof fn validity_is_kept(
        setup: (),
        a: AllowedCounts,
        b: AllowedCounts,
        point: GridPoint<N>,
        result: IntegrationResult,
    ) {
        let (n, nx, ny) = (N as int, NX as int, NY as int);
        matrix_shape_is_kept::<i64, N>(a.broken_allowed, b.broken_allowed, point, nx, ny, 1);
        matrix_shape_is_kept::<i64, N>(a.broken_disallowed, b.broken_disallowed, point, nx, ny, 1);
    }

    proof fn merge_laws(a: AllowedCounts, b: AllowedCounts, c: AllowedCounts) {
        let (n, nx, ny) = (N as int, NX as int, NY as int);
        matrix_merge_blank_is_identity::<i64>(a.broken_allowed, n, nx, ny);
        matrix_merge_blank_is_identity::<i64>(a.broken_disallowed, n, nx, ny);
        matrix_merge_laws::<i64>(a.broken_allowed, b.broken_allowed, c.broken_allowed, n, nx, ny);
        matrix_merge_laws::<i64>(
            a.broken_disallowed,
            b.broken_disallowed,
            c.broken_disallowed,
            n,
            nx,
            ny,
        );
    }

    proof fn consume_commutes_with_merge(
        setup: (),
        a: AllowedCounts,
        b: AllowedCounts,
        point: GridPoint<N>,
        result: IntegrationResult,
    ) {
        let (nx, ny) = (NX as int, NY as int);
        matrix_write_commutes_with_merge::<i64, N>(
            a.broken_allowed,
            b.broken_allowed,
            point,
            nx,
            ny,
            1,
        );
        matrix_write_commutes_with_merge::<i64, N>(
            a.broken_disallowed,
            b.broken_disallowed,
            point,
            nx,
            ny,
            1,
        );
    }
}

impl<const N: usize, const NX: usize, const NY: usize> Clone for AllowedConsumer<N, NX, NY> {
    fn clone(&self) -> (consumer: Self)
        ensures
            consumer.counts() == self.counts(),
            forall|i: int, j: int|
                0 <= i < N && 0 <= j < N ==> #[trigger] consumer.ranges_of(i, j) == self.ranges_of(
                    i,
                    j,
                ),
    {
        AllowedConsumer {
            broken_allowed: self.broken_allowed.clone(),
            broken_disallowed: self.broken_disallowed.clone(),
        }
    }
}

/// No count of the matrix is negative or above `bound`.
pub open spec fn matrix_within(matrix: Matrix<int>, n: int, nx: int, ny: int, bound: int) -> bool {
    forall|i: int, j: int, k: int, l: int|
        0 <= i < n && 0 <= j < n && 0 <= k < nx && 0 <= l < ny ==> 0
            <= #[trigger] matrix[i][j][k][l] <= bound
}

/// No count is negative or above `bound`.
pub open spec fn counts_within(counts: AllowedCounts, n: int, nx: int, ny: int, bound: int) -> bool {
    matrix_within(counts.broken_allowed, n, nx, ny, bound) && matrix_within(
        counts.broken_disallowed,
        n,
        nx,
        ny,
        bound,
    )
}

proof fn placed_count_grows_by_one<const N: usize>(
    matrix: Matrix<int>,
    point: GridPoint<N>,
    nx: int,
    ny: int,
    bound: int,
)
    requires
        matrix_has_shape(matrix, N as int, nx, ny),
        matrix_within(matrix, N as int, nx, ny, bound),
    ensures
        matrix_within(matrix_placed::<i64, N>(matrix, point, nx, ny, 1), N as int, nx, ny, bound + 1),
        bound < i64::MAX ==> matrix_placeable::<i64, N>(matrix, point, nx, ny, 1),
{
    let next = matrix_placed::<i64, N>(matrix, point, nx, ny, 1);
    assert forall|i: int, j: int, k: int, l: int|
        0 <= i < N && 0 <= j < N && 0 <= k < nx && 0 <= l < ny implies 0
        <= #[trigger] next[i][j][k][l] <= bound + 1 by {
        assert(has_shape(matrix[i][j], nx, ny));
        assert(0 <= matrix[i][j][k][l] <= bound);
        let x = clamped(point.x[i] as int, nx);
        let y = clamped(point.y[j] as int, ny);
        assert(0 <= matrix[i][j][x][y] <= bound);
    }
    if bound < i64::MAX {
        assert forall|i: int, j: int| 0 <= i < N && 0 <= j < N implies placeable::<i64>(
            #[trigger] matrix[i][j],
            point.x[i] as int,
            point.y[j] as int,
            nx,
            ny,
            1,
        ) by {
            if nx > 0 && ny > 0 {
                let x = clamped(point.x[i] as int, nx);
                let y = clamped(point.y[j] as int, ny);
                assert(0 <= matrix[i][j][x][y] <= bound);
            }
        }
    }
}

/// A sample raises no count by more than one, and a consumer whose counts
/// are below the largest count can take every sample.
pub proof fn sample_adds_at_most_one<const N: usize, const NX: usize, const NY: usize>(
    counts: AllowedCounts,
    point: GridPoint<N>,
    result: IntegrationResult,
    bound: int,
)
    requires
        AllowedConsumer::<N, NX, NY>::valid(counts),
        counts_within(counts, N as int, NX as int, NY as int, bound),
    ensures
        counts_within(
            AllowedConsumer::<N, NX, NY>::consumed((), counts, point, result),
            N as int,
            NX as int,
            NY as int,
            bound + 1,
        ),
        bound < i64::MAX ==> AllowedConsumer::<N, NX, NY>::accepts((), counts, point, result),
{
    placed_count_grows_by_one::<N>(counts.broken_allowed, point, NX as int, NY as int, bound);
    placed_count_grows_by_one::<N>(counts.broken_disallowed, point, NX as int, NY as int, bound);
}

proof fn merged_counts_add(
    a: Matrix<int>,
    b: Matrix<int>,
    n: int,
    nx: int,
    ny: int,
    bound_a: int,
    bound_b: int,
)
    requires
        matrix_has_shape(a, n, nx, ny),
        matrix_within(a, n, nx, ny, bound_a),
        matrix_within(b, n, nx, ny, bound_b),
    ensures
        matrix_within(matrix_merged::<i64>(a, b), n, nx, ny, bound_a + bound_b),
        bound_a + bound_b <= i64::MAX ==> matrix_mergeable::<i64>(a, b),
{
    let both = matrix_merged::<i64>(a, b);
    assert forall|i: int, j: int, k: int, l: int|
        0 <= i < n && 0 <= j < n && 0 <= k < nx && 0 <= l < ny implies 0
        <= #[trigger] both[i][j][k][l] <= bound_a + bound_b by {
        assert(has_shape(a[i][j], nx, ny));
        assert(0 <= a[i][j][k][l] <= bound_a);
        assert(0 <= b[i][j][k][l] <= bound_b);
    }
    if bound_a + bound_b <= i64::MAX {
        assert forall|i: int, j: int| 0 <= i < n && 0 <= j < n implies mergeable::<i64>(
            #[trigger] a[i][j],
            #[trigger] b[i][j],
        ) by {
            assert(has_shape(a[i][j], nx, ny));
            assert forall|k: int, l: int|
                0 <= k < a[i][j].len() && 0 <= l < a[i][j][k].len() implies <i64 as Cell>::fits(
                #[trigger] a[i][j][k][l],
                #[trigger] b[i][j][k][l],
            ) by {
                assert(0 <= a[i][j][k][l] <= bound_a);
                assert(0 <= b[i][j][k][l] <= bound_b);
            }
        }
    }
}

/// A merge adds the counts: where the bounds of the two sides together do
/// not exceed the largest count, the merge can be made.
pub proof fn merge_adds_the_bounds<const N: usize, const NX: usize, const NY: usize>(
    a: AllowedCounts,
    b: AllowedCounts,
    bound_a: int,
    bound_b: int,
)
    requires
        AllowedConsumer::<N, NX, NY>::valid(a),
        counts_within(a, N as int, NX as int, NY as int, bound_a),
        counts_within(b, N as int, NX as int, NY as int, bound_b),
    ensures
        counts_within(
            AllowedConsumer::<N, NX, NY>::combined(a, b),
            N as int,
            NX as int,
            NY as int,
            bound_a + bound_b,
        ),
        bound_a + bound_b <= i64::MAX ==> AllowedConsumer::<N, NX, NY>::takes(a, b),
{
    let (n, nx, ny) = (N as int, NX as int, NY as int);
    merged_counts_add(a.broken_allowed, b.broken_allowed, n, nx, ny, bound_a, bound_b);
    merged_counts_add(a.broken_disallowed, b.broken_disallowed, n, nx, ny, bound_a, bound_b);
}

/// After a scan no count exceeds the number of samples: a fresh consumer can
/// take every sample of a scan of fewer than `2^63` samples.
pub proof fn counts_are_bounded_by_samples<const N: usize, const NX: usize, const NY: usize>(
    samples: Seq<(GridPoint<N>, IntegrationResult)>,
)
    ensures
        counts_within(
            scanned::<AllowedConsumer<N, NX, NY>, N>(
                (),
                AllowedConsumer::<N, NX, NY>::fresh(),
                samples,
            ),
            N as int,
            NX as int,
            NY as int,
            samples.len() as int,
        ),
    decreases samples.len(),
{
    if samples.len() > 0 {
        let earlier = samples.drop_last();
        counts_are_bounded_by_samples::<N, NX, NY>(earlier);
        scan_keeps_valid::<AllowedConsumer<N, NX, NY>, N>((), earlier);
        sample_adds_at_most_one::<N, NX, NY>(
            scanned::<AllowedConsumer<N, NX, NY>, N>(
                (),
                AllowedConsumer::<N, NX, NY>::fresh(),
                earlier,
            ),
            samples.last().0,
            samples.last().1,
            earlier.len() as int,
        );
    }
}

} // verus!
