//! Averages, for every pair of axes, the scale at which the vacuum broke
//! into the allowed region.

use vstd::prelude::*;
use crate::scanner::consumer::{
    blank_matrix, blank_matrix_has_shape, matrix_has_shape, matrix_merge_blank_is_identity,
    matrix_merge_laws, matrix_mergeable, matrix_merged, matrix_placeable, matrix_placed,
    matrix_shape_is_kept, matrix_write_commutes_with_merge, CouplingRanges, GridPoint, LayerMatrix,
    Matrix, ScanConsumer,
};
use crate::simulation::IntegrationResult;
use crate::util::image::{gradient_between, gradient_of, Average, Image, Layer};
use crate::util::scalar::Scalar;
use crate::util::stability::FinalStabilityResult;

verus! {

/// What a [`BreakingScaleConsumer`] has collected: for each pair of axes and
/// each cell, the sum of the breaking scales and the number of samples.
pub struct BreakingScales {
    pub breaking_scale: Matrix<(int, int)>,
}

/// Collects the termination scale of every sample whose vacuum broke into
/// the allowed region. A scale is the number of steps the trajectory took.
pub struct BreakingScaleConsumer<const N: usize, const NX: usize, const NY: usize> {
    breaking_scale: LayerMatrix<Average, N, NX, NY>,
}

impl<const N: usize, const NX: usize, const NY: usize> BreakingScaleConsumer<N, NX, NY> {
    pub closed spec fn scales(self) -> BreakingScales {
        BreakingScales { breaking_scale: self.breaking_scale@ }
    }

    /// The ranges that the layers of the pair `(i, j)` cover, each as the
    /// range along `x` and the range along `y`, in the order of the layers.
    pub closed spec fn ranges_of(self, i: int, j: int) -> Seq<
        ((Scalar, Scalar), (Scalar, Scalar)),
    > {
        seq![self.breaking_scale.axes(i, j)]
    }

    /// A consumer that has seen no sample: the layers of the pair `(i, j)`
    /// cover the range of axis `i` along `x` and that of axis `j` along `y`.
    pub fn new(ranges: CouplingRanges<N>) -> (consumer: Self)
        ensures
            consumer.scales() == Self::fresh(),
            forall|i: int, j: int|
                0 <= i < N && 0 <= j < N ==> #[trigger] consumer.ranges_of(i, j) == seq![
                    (ranges[i], ranges[j]),
                ],
    {
        BreakingScaleConsumer { breaking_scale: LayerMatrix::new(&ranges) }
    }

    /// The layer of the averages for the axes `(i, j)`.
    pub closed spec fn layer_of(self, i: int, j: int) -> Layer<Average, NX, NY> {
        self.breaking_scale.stored(i, j)
    }

    fn render_pair<F: Fn(Average, Average, Average) -> u32>(&self, i: usize, j: usize, shade: &F) -> (image:
        Image<NX, NY>)
        requires
            i < N,
            j < N,
            forall|cell: Average, least: Average, greatest: Average|
                call_requires(*shade, (cell, least, greatest)),
        ensures
            gradient_of(*shade, self.layer_of(i as int, j as int), image@),
    {
        let mut image: Image<NX, NY> = Image::new();
        match self.breaking_scale.layer(i, j) {
            Some(layer) => {
                let extremes = image.draw_gradient_layer(layer, shade);
                assert(gradient_between(*shade, *layer, extremes, image@));
            },
            None => {},
        }
        image
    }

    /// One picture for every pair of axes: `images[i][j]` shows the averages
    /// of the pair `(i, j)` as a gradient on a white ground.
    pub fn render<F: Fn(Average, Average, Average) -> u32>(&self, shade: &F) -> (images: Vec<
        Vec<Image<NX, NY>>,
    >)
        requires
            forall|cell: Average, least: Average, greatest: Average|
                call_requires(*shade, (cell, least, greatest)),
        ensures
            images@.len() == N,
            forall|i: int| 0 <= i < N ==> (#[trigger] images@[i])@.len() == N,
            forall|i: int, j: int|
                0 <= i < N && 0 <= j < N ==> gradient_of(
                    *shade,
                    self.layer_of(i, j),
                    (#[trigger] images@[i]@[j])@,
                ),
    {
        let mut images: Vec<Vec<Image<NX, NY>>> = Vec::new();
        let mut i: usize = 0;
        while i < N
            invariant
                i <= N,
                images@.len() == i,
                forall|cell: Average, least: Average, greatest: Average|
                    call_requires(*shade, (cell, least, greatest)),
                forall|k: int| 0 <= k < i ==> (#[trigger] images@[k])@.len() == N,
                forall|k: int, l: int|
                    0 <= k < i && 0 <= l < N ==> gradient_of(
                        *shade,
                        self.layer_of(k, l),
                        (#[trigger] images@[k]@[l])@,
                    ),
            decreases N - i,
        {
            let mut row: Vec<Image<NX, NY>> = Vec::new();
            let mut j: usize = 0;
            while j < N
                invariant
                    i < N,
                    j <= N,
                    row@.len() == j,
                    forall|cell: Average, least: Average, greatest: Average|
                        call_requires(*shade, (cell, least, greatest)),
                    forall|l: int|
                        0 <= l < j ==> gradient_of(
                            *shade,
                            self.layer_of(i as int, l),
                            (#[trigger] row@[l])@,
                        ),
                decreases N - j,
            {
                row.push(self.render_pair(i, j, shade));
                j += 1;
            }
            images.push(row);
            i += 1;
        }
        images
    }

    /// The averages for the axes `(i, j)`.
    pub fn breaking_scale(&self, i: usize, j: usize) -> (layer: Option<&Layer<Average, NX, NY>>)
        ensures
            i < N && j < N ==> layer.is_some() && *layer.unwrap() == self.layer_of(i as int, j as int)
                && layer.unwrap()@ == self.scales().breaking_scale[i as int][j as int] && (
                layer.unwrap().axis_x(),
                layer.unwrap().axis_y(),
            ) == self.ranges_of(i as int, j as int)[0],
            !(i < N && j < N) ==> layer.is_none(),
    {
        self.breaking_scale.layer(i, j)
    }
}

impl<const N: usize, const NX: usize, const NY: usize> ScanConsumer<N> for BreakingScaleConsumer<
    N,
    NX,
    NY,
> {
    type State = BreakingScales;

    type Setup = ();

    open spec fn state(&self) -> BreakingScales {
        self.scales()
    }

    open spec fn setup(&self) -> () {
        ()
    }

    open spec fn fresh() -> BreakingScales {
        BreakingScales { breaking_scale: blank_matrix::<Average>(N as int, NX as int, NY as int) }
    }

    open spec fn valid(state: BreakingScales) -> bool {
        matrix_has_shape(state.breaking_scale, N as int, NX as int, NY as int)
    }

    open spec fn accepts(
        setup: (),
        state: BreakingScales,
        point: GridPoint<N>,
        result: IntegrationResult,
    ) -> bool {
        match result {
            IntegrationResult::Broken(steps, FinalStabilityResult::UnstableAllowed(_)) => {
                matrix_placeable::<Average, N>(
                    state.breaking_scale,
                    point,
                    NX as int,
                    NY as int,
                    (steps as int, 1),
                )
            },
            _ => true,
        }
    }

    /// A sample that broke into the allowed region adds its scale to the sum
    /// and one to the number of samples of its cell, in every pair of axes;
    /// every other sample adds nothing.
    open spec fn consumed(
        setup: (),
        state: BreakingScales,
        point: GridPoint<N>,
        result: IntegrationResult,
    ) -> BreakingScales {
        match result {
            IntegrationResult::Broken(
                steps,
                FinalStabilityResult::UnstableAllowed(_),
            ) => BreakingScales {
                breaking_scale: matrix_placed::<Average, N>(
                    state.breaking_scale,
                    point,
                    NX as int,
                    NY as int,
                    (steps as int, 1),
                ),
            },
            _ => state,
        }
    }

    open spec fn takes(a: BreakingScales, b: BreakingScales) -> bool {
        matrix_mergeable::<Average>(a.breaking_scale, b.breaking_scale)
    }

    open spec fn combined(a: BreakingScales, b: BreakingScales) -> BreakingScales {
        BreakingScales {
            breaking_scale: matrix_merged::<Average>(a.breaking_scale, b.breaking_scale),
        }
    }

    fn can_consume(&self, point: GridPoint<N>, result: IntegrationResult) -> (ok: bool) {
        match result {
            IntegrationResult::Broken(steps, FinalStabilityResult::UnstableAllowed(_)) => {
                let sample = Average { sum: steps as u64, count: 1 };
                self.breaking_scale.can_write(&point, &sample)
            },
            _ => true,
        }
    }

    fn consume(&mut self, point: GridPoint<N>, result: IntegrationResult)
        ensures
            forall|i: int, j: int|
                0 <= i < N && 0 <= j < N ==> #[trigger] final(self).ranges_of(i, j) == old(
                    self,
                ).ranges_of(i, j),
    {
        match result {
            IntegrationResult::Broken(steps, FinalStabilityResult::UnstableAllowed(_)) => {
                self.breaking_scale.write(&point, Average { sum: steps as u64, count: 1 });
            },
            _ => {},
        }
    }

    fn can_merge(&self, other: &Self) -> (ok: bool) {
        self.breaking_scale.can_merge(&other.breaking_scale)
    }

    fn duplicate(&self) -> (copy: Self) {
        self.clone()
    }

    fn merge(&mut self, other: Self)
        ensures
            forall|i: int, j: int|
                0 <= i < N && 0 <= j < N ==> #[trigger] final(self).ranges_of(i, j) == old(
                    self,
                ).ranges_of(i, j),
    {
        self.breaking_scale.merge(&other.breaking_scale);
    }

    proof fn fresh_is_valid() {
        blank_matrix_has_shape::<Average>(N as int, NX as int, NY as int);
    }

    proof fn validity_is_kept(
        setup: (),
        a: BreakingScales,
        b: BreakingScales,
        point: GridPoint<N>,
        result: IntegrationResult,
    ) {
        let (n, nx, ny) = (N as int, NX as int, NY as int);
        match result {
            IntegrationResult::Broken(steps, _) => {
                matrix_shape_is_kept::<Average, N>(
                    a.breaking_scale,
                    b.breaking_scale,
                    point,
                    nx,
                    ny,
                    (steps as int, 1),
                );
            },
            _ => {
                matrix_shape_is_kept::<Average, N>(
                    a.breaking_scale,
                    b.breaking_scale,
                    point,
                    nx,
                    ny,
                    (0, 0),
                );
            },
        }
    }

    proof fn merge_laws(a: BreakingScales, b: BreakingScales, c: BreakingScales) {
        let (n, nx, ny) = (N as int, NX as int, NY as int);
        matrix_merge_blank_is_identity::<Average>(a.breaking_scale, n, nx, ny);
        matrix_merge_laws::<Average>(
            a.breaking_scale,
            b.breaking_scale,
            c.breaking_scale,
            n,
            nx,
            ny,
        );
    }

    proof fn consume_commutes_with_merge(
        setup: (),
        a: BreakingScales,
        b: BreakingScales,
        point: GridPoint<N>,
        result: IntegrationResult,
    ) {
        match result {
            IntegrationResult::Broken(steps, _) => {
                matrix_write_commutes_with_merge::<Average, N>(
                    a.breaking_scale,
                    b.breaking_scale,
                    point,
                    NX as int,
                    NY as int,
                    (steps as int, 1),
                );
            },
            _ => {},
        }
    }
}

impl<const N: usize, const NX: usize, const NY: usize> Clone for BreakingScaleConsumer<
    N,
    NX,
    NY,
> {
    fn clone(&self) -> (consumer: Self)
        ensures
            consumer.scales() == self.scales(),
            forall|i: int, j: int|
                0 <= i < N && 0 <= j < N ==> #[trigger] consumer.ranges_of(i, j) == self.ranges_of(
                    i,
                    j,
                ),
    {
        BreakingScaleConsumer { breaking_scale: self.breaking_scale.clone() }
    }
}

} // verus!
