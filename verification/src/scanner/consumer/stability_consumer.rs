//! Records, for every pair of axes, where a trajectory stopped and why.

use vstd::prelude::*;
use crate::scanner::consumer::{
    blank_matrix, blank_matrix_has_shape, matrix_has_shape, matrix_merge_blank_is_identity,
    matrix_merge_laws, matrix_merged, matrix_placed, matrix_shape_is_kept,
    matrix_write_commutes_with_merge, CouplingRanges, GridPoint, LayerMatrix, Matrix, ScanConsumer,
};
use crate::simulation::IntegrationResult;
use crate::util::image::{Grid, Image, BACKGROUND};
use crate::util::scalar::Scalar;

verus! {

/// Colour of a cell in which a sample was unstable from the first step.
pub const STABILITY_VIOLATED_COLOR: u32 = 0xFF0000;

/// Colour of a cell in which a sample left the perturbative regime.
pub const PERTURBATIVITY_VIOLATED_COLOR: u32 = 0xFFFFFF;

/// Colour of a cell in which the vacuum of a sample broke.
pub const BROKEN_COLOR: u32 = 0x00FF00;

/// What a [`StabilityConsumer`] has collected: for each pair of axes, the
/// cells in which at least one sample ended in each of the three ways.
pub struct StabilityLayers {
    pub perturbativity_violated: Matrix<bool>,
    pub stability_violated: Matrix<bool>,
    pub broken: Matrix<bool>,
}

/// Sorts every sample that did not run to the end into one of three layers,
/// for every pair of axes.
pub struct StabilityConsumer<const N: usize, const NX: usize, const NY: usize> {
    perturbativity_violated: LayerMatrix<bool, N, NX, NY>,
    stability_violated: LayerMatrix<bool, N, NX, NY>,
    broken: LayerMatrix<bool, N, NX, NY>,
}

/// The picture of one pair of axes: a broken cell is drawn over a
/// non-perturbative one, and that over an initially unstable one.
pub open spec fn stability_picture(layers: StabilityLayers, i: int, j: int, nx: int, ny: int)
    -> Grid<u32> {
    Seq::new(
        nx as nat,
        |k: int|
            Seq::new(
                ny as nat,
                |l: int|
                    if layers.broken[i][j][k][l] {
                        BROKEN_COLOR
                    } else if layers.perturbativity_violated[i][j][k][l] {
                        PERTURBATIVITY_VIOLATED_COLOR
                    } else if layers.stability_violated[i][j][k][l] {
                        STABILITY_VIOLATED_COLOR
                    } else {
                        BACKGROUND
                    },
            ),
    )
}

impl<const N: usize, const NX: usize, const NY: usize> StabilityConsumer<N, NX, NY> {
    pub closed spec fn layers(self) -> StabilityLayers {
        StabilityLayers {
            perturbativity_violated: self.perturbativity_violated@,
            stability_violated: self.stability_violated@,
            broken: self.broken@,
        }
    }

    /// The ranges that the layers of the pair `(i, j)` cover, each as the
    /// range along `x` and the range along `y`, in the order of the layers.
    pub closed spec fn ranges_of(self, i: int, j: int) -> Seq<
        ((Scalar, Scalar), (Scalar, Scalar)),
    > {
        seq![
            self.perturbativity_violated.axes(i, j),
            self.stability_violated.axes(i, j),
            self.broken.axes(i, j),
        ]
    }

    /// A consumer that has seen no sample: the layers of the pair `(i, j)`
    /// cover the range of axis `i` along `x` and that of axis `j` along `y`.
    pub fn new(ranges: CouplingRanges<N>) -> (consumer: Self)
        ensures
            consumer.layers() == Self::fresh(),
            forall|i: int, j: int|
                0 <= i < N && 0 <= j < N ==> #[trigger] consumer.ranges_of(i, j) == seq![
                    (ranges[i], ranges[j]), (ranges[i], ranges[j]), (ranges[i], ranges[j]),
                ],
    {
        StabilityConsumer {
            perturbativity_violated: LayerMatrix::new(&ranges),
            stability_violated: LayerMatrix::new(&ranges),
            broken: LayerMatrix::new(&ranges),
        }
    }

    fn render_pair(&self, i: usize, j: usize) -> (image: Image<NX, NY>)
        requires
            i < N,
            j < N,
        ensures
            image@ == stability_picture(self.layers(), i as int, j as int, NX as int, NY as int),
    {
        let mut image: Image<NX, NY> = Image::new();
        match self.stability_violated.layer(i, j) {
            Some(layer) => image.draw_boolean_layer(layer, STABILITY_VIOLATED_COLOR),
            None => {},
        }
        match self.perturbativity_violated.layer(i, j) {
            Some(layer) => image.draw_boolean_layer(layer, PERTURBATIVITY_VIOLATED_COLOR),
            None => {},
        }
        match self.broken.layer(i, j) {
            Some(layer) => image.draw_boolean_layer(layer, BROKEN_COLOR),
            None => {},
        }
        assert(image@ =~~= stability_picture(
            self.layers(),
            i as int,
            j as int,
            NX as int,
            NY as int,
        ));
        image
    }

    /// One picture for every pair of axes: `images[i][j]` shows the layers of
    /// the pair `(i, j)`.
    pub fn render(&self) -> (images: Vec<Vec<Image<NX, NY>>>)
        ensures
            images@.len() == N,
            forall|i: int| 0 <= i < N ==> (#[trigger] images@[i])@.len() == N,
            forall|i: int, j: int|
                0 <= i < N && 0 <= j < N ==> (#[trigger] images@[i]@[j])@ == stability_picture(
                    self.layers(),
                    i,
                    j,
                    NX as int,
                    NY as int,
                ),
    {
        let mut images: Vec<Vec<Image<NX, NY>>> = Vec::new();
        let mut i: usize = 0;
        while i < N
            invariant
                i <= N,
                images@.len() == i,
                forall|k: int| 0 <= k < i ==> (#[trigger] images@[k])@.len() == N,
                forall|k: int, l: int|
                    0 <= k < i && 0 <= l < N ==> (#[trigger] images@[k]@[l])@ == stability_picture(
                        self.layers(),
                        k,
                        l,
                        NX as int,
                        NY as int,
                    ),
            decreases N - i,
        {
            let mut row: Vec<Image<NX, NY>> = Vec::new();
            let mut j: usize = 0;
            while j < N
                invariant
                    i < N,
                    j <= N,
                    row@.len() == j,
                    forall|l: int|
                        0 <= l < j ==> (#[trigger] row@[l])@ == stability_picture(
                            self.layers(),
                            i as int,
                            l,
                            NX as int,
                            NY as int,
                        ),
                decreases N - j,
            {
                row.push(self.render_pair(i, j));
                j += 1;
            }
            images.push(row);
            i += 1;
        }
        images
    }
}

impl<const N: usize, const NX: usize, const NY: usize> ScanConsumer<N> for StabilityConsumer<
    N,
    NX,
    NY,
> {
    type State = StabilityLayers;

    type Setup = ();

    open spec fn state(&self) -> StabilityLayers {
        self.layers()
    }

    open spec fn setup(&self) -> () {
        ()
    }

    open spec fn fresh() -> StabilityLayers {
        StabilityLayers {
            perturbativity_violated: blank_matrix::<bool>(N as int, NX as int, NY as int),
            stability_violated: blank_matrix::<bool>(N as int, NX as int, NY as int),
            broken: blank_matrix::<bool>(N as int, NX as int, NY as int),
        }
    }

    open spec fn valid(state: StabilityLayers) -> bool {
        &&& matrix_has_shape(state.perturbativity_violated, N as int, NX as int, NY as int)
        &&& matrix_has_shape(state.stability_violated, N as int, NX as int, NY as int)
        &&& matrix_has_shape(state.broken, N as int, NX as int, NY as int)
    }

    open spec fn accepts(
        setup: (),
        state: StabilityLayers,
        point: GridPoint<N>,
        result: IntegrationResult,
    ) -> bool {
        true
    }

    /// A sample marks its cell in every pair of axes, in the layer that its
    /// outcome names; a sample that ran to the end, or is to be discarded,
    /// marks nothing.
    open spec fn consumed(
        setup: (),
        state: StabilityLayers,
        point: GridPoint<N>,
        result: IntegrationResult,
    ) -> StabilityLayers {
        match result {
            IntegrationResult::PerturbativityViolated(_) => StabilityLayers {
                perturbativity_violated: matrix_placed::<bool, N>(
                    state.perturbativity_violated,
                    point,
                    NX as int,
                    NY as int,
                    true,
                ),
                ..state
            },
            IntegrationResult::Broken(_, _) => StabilityLayers {
                broken: matrix_placed::<bool, N>(state.broken, point, NX as int, NY as int, true),
                ..state
            },
            IntegrationResult::InitiallyUnstable => StabilityLayers {
                stability_violated: matrix_placed::<bool, N>(
                    state.stability_violated,
                    point,
                    NX as int,
                    NY as int,
                    true,
                ),
                ..state
            },
            _ => state,
        }
    }

    open spec fn takes(a: StabilityLayers, b: StabilityLayers) -> bool {
        true
    }

    open spec fn combined(a: StabilityLayers, b: StabilityLayers) -> StabilityLayers {
        StabilityLayers {
            perturbativity_violated: matrix_merged::<bool>(
                a.perturbativity_violated,
                b.perturbativity_violated,
            ),
            stability_violated: matrix_merged::<bool>(a.stability_violated, b.stability_violated),
            broken: matrix_merged::<bool>(a.broken, b.broken),
        }
    }

    fn can_consume(&self, point: GridPoint<N>, result: IntegrationResult) -> (ok: bool) {
        true
    }

    fn consume(&mut self, point: GridPoint<N>, result: IntegrationResult)
        ensures
            forall|i: int, j: int|
                0 <= i < N && 0 <= j < N ==> #[trigger] final(self).ranges_of(i, j) == old(
                    self,
                ).ranges_of(i, j),
    {
        match result {
            IntegrationResult::PerturbativityViolated(_) => {
                self.perturbativity_violated.write(&point, true);
            },
            IntegrationResult::Broken(_, _) => {
                self.broken.write(&point, true);
            },
            IntegrationResult::InitiallyUnstable => {
                self.stability_violated.write(&point, true);
            },
            _ => {},
        }
    }

    fn can_merge(&self, other: &Self) -> (ok: bool) {
        true
    }

    fn duplicate(&self) -> (copy: Self) {
        self.clone()
    }

    fn merge(&mut self, other: Self)
        ensures
            forall|i: int, j: int|
                0 <= i < N && 0 <= j < N ==> #[trigger] final(self).ranges_of(i, j) == old(
                    self,
                ).ranges_of(i, j),
    {
        self.perturbativity_violated.merge(&other.perturbativity_violated);
        self.stability_violated.merge(&other.stability_violated);
        self.broken.merge(&other.broken);
    }

    proof fn fresh_is_valid() {
        blank_matrix_has_shape::<bool>(N as int, NX as int, NY as int);
    }

    proof fn validity_is_kept(
        setup: (),
        a: StabilityLayers,
        b: StabilityLayers,
        point: GridPoint<N>,
        result: IntegrationResult,
    ) {
        let (n, nx, ny) = (N as int, NX as int, NY as int);
        matrix_shape_is_kept::<bool, N>(
            a.perturbativity_violated,
            b.perturbativity_violated,
            point,
            nx,
            ny,
            true,
        );
        matrix_shape_is_kept::<bool, N>(
            a.stability_violated,
            b.stability_violated,
            point,
            nx,
            ny,
            true,
        );
        matrix_shape_is_kept::<bool, N>(a.broken, b.broken, point, nx, ny, true);
    }

    proof fn merge_laws(a: StabilityLayers, b: StabilityLayers, c: StabilityLayers) {
        let (n, nx, ny) = (N as int, NX as int, NY as int);
        matrix_merge_blank_is_identity::<bool>(a.perturbativity_violated, n, nx, ny);
        matrix_merge_blank_is_identity::<bool>(a.stability_violated, n, nx, ny);
        matrix_merge_blank_is_identity::<bool>(a.broken, n, nx, ny);
        matrix_merge_laws::<bool>(
            a.perturbativity_violated,
            b.perturbativity_violated,
            c.perturbativity_violated,
            n,
            nx,
            ny,
        );
        matrix_merge_laws::<bool>(
            a.stability_violated,
            b.stability_violated,
            c.stability_violated,
            n,
            nx,
            ny,
        );
        matrix_merge_laws::<bool>(a.broken, b.broken, c.broken, n, nx, ny);
    }

    proof fn consume_commutes_with_merge(
        setup: (),
        a: StabilityLayers,
        b: StabilityLayers,
        point: GridPoint<N>,
        result: IntegrationResult,
    ) {
        let (nx, ny) = (NX as int, NY as int);
        matrix_write_commutes_with_merge::<bool, N>(
            a.perturbativity_violated,
            b.perturbativity_violated,
            point,
            nx,
            ny,
            true,
        );
        matrix_write_commutes_with_merge::<bool, N>(
            a.stability_violated,
            b.stability_violated,
            point,
            nx,
            ny,
            true,
        );
        matrix_write_commutes_with_merge::<bool, N>(a.broken, b.broken, point, nx, ny, true);
    }
}

impl<const N: usize, const NX: usize, const NY: usize> Clone for StabilityConsumer<N, NX, NY> {
    fn clone(&self) -> (consumer: Self)
        ensures
            consumer.layers() == self.layers(),
            forall|i: int, j: int|
                0 <= i < N && 0 <= j < N ==> #[trigger] consumer.ranges_of(i, j) == self.ranges_of(
                    i,
                    j,
                ),
    {
        StabilityConsumer {
            perturbativity_violated: self.perturbativity_violated.clone(),
            stability_violated: self.stability_violated.clone(),
            broken: self.broken.clone(),
        }
    }
}

} // verus!
