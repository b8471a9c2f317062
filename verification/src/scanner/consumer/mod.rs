//! Consumers collect the outcomes of a scan in layers over pairs of coupling
//! axes.

use vstd::prelude::*;
use crate::simulation::IntegrationResult;
use crate::util::image::{
    blank_grid, clamped, has_shape, merge_blank_is_identity, merge_is_associative,
    merge_is_commutative, mergeable, merged, placeable, placed, write_commutes_with_merge, Cell,
    Grid, Layer,
};
use crate::util::scalar::Scalar;

pub mod allowed_consumer;
pub mod breaking_scale_consumer;
pub mod multi_special_allowed_consumer;
pub mod special_allowed_consumer;
pub mod stability_consumer;

verus! {

/// The range of each of `N` coupling axes: its lower and upper bound.
pub type CouplingRanges<const N: usize> = [(Scalar, Scalar); N];

/// Where a sample falls in the layers: for each coupling axis the index of
/// the cell that holds the sample's value, once for the axis laid along `x`
/// and once for it laid along `y`.
#[derive(Clone, Copy, Debug, PartialEq, Eq)]
pub struct GridPoint<const N: usize> {
    pub x: [usize; N],
    pub y: [usize; N],
}

impl<const N: usize> GridPoint<N> {
    /// The cells of a sample whose position on each axis is given in units
    /// of cells from the lower bound of the axis, once for the axis laid
    /// along `x` and once for it laid along `y`. A position names the cell
    /// it lies in; a position below the axis, or one that is no number,
    /// names the first cell.
    pub fn locate(along_x: &[Scalar; N], along_y: &[Scalar; N]) -> (point: Self)
        ensures
            forall|k: int| 0 <= k < N ==> (#[trigger] point.x[k]) == along_x[k].index(),
            forall|k: int| 0 <= k < N ==> (#[trigger] point.y[k]) == along_y[k].index(),
    {
        let mut x = [0usize; N];
        let mut y = [0usize; N];
        let mut k: usize = 0;
        while k < N
            invariant
                k <= N,
                forall|i: int| 0 <= i < k ==> (#[trigger] x[i]) == along_x[i].index(),
                forall|i: int| 0 <= i < k ==> (#[trigger] y[i]) == along_y[i].index(),
            decreases N - k,
        {
            x[k] = along_x[k].to_index();
            y[k] = along_y[k].to_index();
            k += 1;
        }
        GridPoint { x, y }
    }
}

/// One grid for each ordered pair of axes: `matrix[i][j]` has axis `i` along
/// `x` and axis `j` along `y`.
pub type Matrix<V> = Seq<Seq<Grid<V>>>;

/// `matrix` holds `n` by `n` grids of `nx` by `ny` cells.
pub open spec fn matrix_has_shape<V>(matrix: Matrix<V>, n: int, nx: int, ny: int) -> bool {
    &&& matrix.len() == n
    &&& forall|i: int| 0 <= i < n ==> (#[trigger] matrix[i]).len() == n
    &&& forall|i: int, j: int| 0 <= i < n && 0 <= j < n ==> has_shape(#[trigger] matrix[i][j], nx, ny)
}

/// The matrix of `n` by `n` blank grids.
pub open spec fn blank_matrix<T: Cell>(n: int, nx: int, ny: int) -> Matrix<T::Value> {
    Seq::new(n as nat, |i: int| Seq::new(n as nat, |j: int| blank_grid::<T>(nx, ny)))
}

/// Whether every grid can take the write of `v` at the sample's cell.
pub open spec fn matrix_placeable<T: Cell, const N: usize>(
    matrix: Matrix<T::Value>,
    point: GridPoint<N>,
    nx: int,
    ny: int,
    v: T::Value,
) -> bool {
    forall|i: int, j: int|
        0 <= i < N && 0 <= j < N ==> placeable::<T>(
            #[trigger] matrix[i][j],
            point.x[i] as int,
            point.y[j] as int,
            nx,
            ny,
            v,
        )
}

/// The matrix after `v` was written into every grid at the sample's cell:
/// in grid `(i, j)` at the cell of axis `i` along `x` and of axis `j` along `y`.
pub open spec fn matrix_placed<T: Cell, const N: usize>(
    matrix: Matrix<T::Value>,
    point: GridPoint<N>,
    nx: int,
    ny: int,
    v: T::Value,
) -> Matrix<T::Value> {
    Seq::new(
        N as nat,
        |i: int|
            Seq::new(
                N as nat,
                |j: int| placed::<T>(matrix[i][j], point.x[i] as int, point.y[j] as int, nx, ny, v),
            ),
    )
}

/// Whether every grid of `a` can take up the grid of `b` at the same place.
pub open spec fn matrix_mergeable<T: Cell>(a: Matrix<T::Value>, b: Matrix<T::Value>) -> bool {
    forall|i: int, j: int|
        0 <= i < a.len() && 0 <= j < a[i].len() ==> mergeable::<T>(
            #[trigger] a[i][j],
            #[trigger] b[i][j],
        )
}

/// Grid by grid, the merge of `a` and `b`, in the shape of `a`.
pub open spec fn matrix_merged<T: Cell>(a: Matrix<T::Value>, b: Matrix<T::Value>) -> Matrix<
    T::Value,
> {
    Seq::new(a.len(), |i: int| Seq::new(a[i].len(), |j: int| merged::<T>(a[i][j], b[i][j])))
}

/// The layers of one row of a [`LayerMatrix`].
struct LayerRow<T, const N: usize, const NX: usize, const NY: usize> {
    layers: Vec<Layer<T, NX, NY>>,
}

impl<T, const N: usize, const NX: usize, const NY: usize> LayerRow<T, N, NX, NY> {
    #[verifier::type_invariant]
    spec fn full(self) -> bool {
        self.layers@.len() == N
    }
}

impl<T: Cell, const N: usize, const NX: usize, const NY: usize> LayerRow<T, N, NX, NY> {
    spec fn grids(self) -> Seq<Grid<T::Value>> {
        Seq::new(N as nat, |j: int| self.layers@[j]@)
    }

    spec fn ranges(self) -> Seq<((Scalar, Scalar), (Scalar, Scalar))> {
        Seq::new(N as nat, |j: int| (self.layers@[j].axis_x(), self.layers@[j].axis_y()))
    }

    fn new(range_x: (Scalar, Scalar), ranges: &CouplingRanges<N>) -> (row: Self)
        ensures
            row.grids() == Seq::new(N as nat, |j: int| blank_grid::<T>(NX as int, NY as int)),
            row.ranges() == Seq::new(N as nat, |j: int| (range_x, ranges[j])),
    {
        let mut layers: Vec<Layer<T, NX, NY>> = Vec::new();
        let mut j: usize = 0;
        while j < N
            invariant
                j <= N,
                layers@.len() == j,
                forall|k: int|
                    0 <= k < j ==> (#[trigger] layers@[k])@ == blank_grid::<T>(
                        NX as int,
                        NY as int,
                    ),
                forall|k: int|
                    0 <= k < j ==> (#[trigger] layers@[k]).axis_x() == range_x && layers@[k].axis_y()
                        == ranges[k],
            decreases N - j,
        {
            layers.push(Layer::new(range_x, ranges[j]));
            j += 1;
        }
        let row = LayerRow { layers };
        assert(row.grids() =~= Seq::new(N as nat, |j: int| blank_grid::<T>(NX as int, NY as int)));
        assert(row.ranges() =~= Seq::new(N as nat, |j: int| (range_x, ranges[j])));
        row
    }

    fn layer(&self, j: usize) -> (layer: &Layer<T, NX, NY>)
        requires
            j < N,
        ensures
            *layer == self.layers@[j as int],
            layer@ == self.grids()[j as int],
            (layer.axis_x(), layer.axis_y()) == self.ranges()[j as int],
    {
        proof {
            use_type_invariant(self);
        }
        &self.layers[j]
    }

    fn write(&mut self, j: usize, x: usize, y: usize, data: T)
        requires
            j < N,
            placeable::<T>(
                old(self).grids()[j as int],
                x as int,
                y as int,
                NX as int,
                NY as int,
                data.value(),
            ),
        ensures
            final(self).grids() == old(self).grids().update(
                j as int,
                placed::<T>(
                    old(self).grids()[j as int],
                    x as int,
                    y as int,
                    NX as int,
                    NY as int,
                    data.value(),
                ),
            ),
            final(self).ranges() == old(self).ranges(),
    {
        proof {
            use_type_invariant(&*self);
        }
        self.layers[j].write(x, y, data);
        assert(self.grids() =~= old(self).grids().update(
            j as int,
            placed::<T>(
                old(self).grids()[j as int],
                x as int,
                y as int,
                NX as int,
                NY as int,
                data.value(),
            ),
        ));
        assert(self.ranges() =~= old(self).ranges());
    }

    fn merge(&mut self, j: usize, other: &Layer<T, NX, NY>)
        requires
            j < N,
            mergeable::<T>(old(self).grids()[j as int], other@),
        ensures
            final(self).grids() == old(self).grids().update(
                j as int,
                merged::<T>(old(self).grids()[j as int], other@),
            ),
            final(self).ranges() == old(self).ranges(),
    {
        proof {
            use_type_invariant(&*self);
        }
        self.layers[j].merge(other);
        assert(self.grids() =~= old(self).grids().update(
            j as int,
            merged::<T>(old(self).grids()[j as int], other@),
        ));
        assert(self.ranges() =~= old(self).ranges());
    }

    fn duplicate(&self) -> (row: Self)
        ensures
            row.grids() == self.grids(),
            row.ranges() == self.ranges(),
    {
        proof {
            use_type_invariant(self);
        }
        let mut layers: Vec<Layer<T, NX, NY>> = Vec::new();
        let mut j: usize = 0;
        while j < N
            invariant
                j <= N,
                self.layers@.len() == N,
                layers@.len() == j,
                forall|k: int| 0 <= k < j ==> (#[trigger] layers@[k])@ == self.layers@[k]@,
                forall|k: int|
                    0 <= k < j ==> (#[trigger] layers@[k]).axis_x() == self.layers@[k].axis_x()
                        && layers@[k].axis_y() == self.layers@[k].axis_y(),
            decreases N - j,
        {
            layers.push(self.layers[j].clone());
            j += 1;
        }
        let row = LayerRow { layers };
        assert(row.grids() =~= self.grids());
        assert(row.ranges() =~= self.ranges());
        row
    }
}

/// One layer for every ordered pair of `N` coupling axes.
pub struct LayerMatrix<T, const N: usize, const NX: usize, const NY: usize> {
    rows: Vec<LayerRow<T, N, NX, NY>>,
}

impl<T, const N: usize, const NX: usize, const NY: usize> LayerMatrix<T, N, NX, NY> {
    #[verifier::type_invariant]
    spec fn full(self) -> bool {
        self.rows@.len() == N
    }
}

impl<T: Cell, const N: usize, const NX: usize, const NY: usize> LayerMatrix<T, N, NX, NY> {
    /// The grid of the layer for the axes `(i, j)`.
    pub closed spec fn grid(self, i: int, j: int) -> Grid<T::Value> {
        self.rows@[i].grids()[j]
    }

    /// The layer for the axes `(i, j)`.
    pub closed spec fn stored(self, i: int, j: int) -> Layer<T, NX, NY> {
        self.rows@[i].layers@[j]
    }

    /// The ranges of the two axes of the layer for `(i, j)`.
    pub closed spec fn axes(self, i: int, j: int) -> ((Scalar, Scalar), (Scalar, Scalar)) {
        self.rows@[i].ranges()[j]
    }

    /// All grids, as `N` rows of `N`.
    pub open spec fn view(self) -> Matrix<T::Value> {
        Seq::new(N as nat, |i: int| Seq::new(N as nat, |j: int| self.grid(i, j)))
    }

    /// A matrix of blank layers; the layer for `(i, j)` covers the range of
    /// axis `i` along `x` and that of axis `j` along `y`.
    pub fn new(ranges: &CouplingRanges<N>) -> (matrix: Self)
        ensures
            matrix@ == blank_matrix::<T>(N as int, NX as int, NY as int),
            forall|i: int, j: int|
                0 <= i < N && 0 <= j < N ==> #[trigger] matrix.axes(i, j) == (ranges[i], ranges[j]),
    {
        let mut rows: Vec<LayerRow<T, N, NX, NY>> = Vec::new();
        let mut i: usize = 0;
        while i < N
            invariant
                i <= N,
                rows@.len() == i,
                forall|k: int|
                    0 <= k < i ==> (#[trigger] rows@[k]).grids() == Seq::new(
                        N as nat,
                        |j: int| blank_grid::<T>(NX as int, NY as int),
                    ),
                forall|k: int|
                    0 <= k < i ==> (#[trigger] rows@[k]).ranges() == Seq::new(
                        N as nat,
                        |j: int| (ranges[k], ranges[j]),
                    ),
            decreases N - i,
        {
            rows.push(LayerRow::new(ranges[i], ranges));
            i += 1;
        }
        let matrix = LayerMatrix { rows };
        assert(matrix@ =~~= blank_matrix::<T>(N as int, NX as int, NY as int));
        matrix
    }

    /// The layer for the axes `(i, j)`, or `None` where there is no such pair.
    pub fn layer(&self, i: usize, j: usize) -> (layer: Option<&Layer<T, NX, NY>>)
        ensures
            i < N && j < N ==> layer.is_some() && *layer.unwrap() == self.stored(i as int, j as int)
                && layer.unwrap()@ == self@[i as int][j as int] && (
                layer.unwrap().axis_x(),
                layer.unwrap().axis_y(),
            ) == self.axes(i as int, j as int),
            !(i < N && j < N) ==> layer.is_none(),
    {
        proof {
            use_type_invariant(self);
        }
        if i < N && j < N {
            Some(self.rows[i].layer(j))
        } else {
            None
        }
    }

    /// Whether [`LayerMatrix::write`] can take `data` at the sample's cells.
    pub fn can_write(&self, point: &GridPoint<N>, data: &T) -> (ok: bool)
        ensures
            ok == matrix_placeable::<T, N>(self@, *point, NX as int, NY as int, data.value()),
    {
        proof {
            use_type_invariant(self);
        }
        let mut i: usize = 0;
        while i < N
            invariant
                i <= N,
                self.rows@.len() == N,
                forall|k: int, l: int|
                    0 <= k < i && 0 <= l < N ==> placeable::<T>(
                        #[trigger] self@[k][l],
                        point.x[k] as int,
                        point.y[l] as int,
                        NX as int,
                        NY as int,
                        data.value(),
                    ),
            decreases N - i,
        {
            let mut j: usize = 0;
            while j < N
                invariant
                    i < N,
                    j <= N,
                    self.rows@.len() == N,
                    forall|k: int, l: int|
                        0 <= k < i && 0 <= l < N ==> placeable::<T>(
                            #[trigger] self@[k][l],
                            point.x[k] as int,
                            point.y[l] as int,
                            NX as int,
                            NY as int,
                            data.value(),
                        ),
                    forall|l: int|
                        0 <= l < j ==> placeable::<T>(
                            #[trigger] self@[i as int][l],
                            point.x[i as int] as int,
                            point.y[l] as int,
                            NX as int,
                            NY as int,
                            data.value(),
                        ),
                decreases N - j,
            {
                if !self.rows[i].layer(j).can_write(point.x[i], point.y[j], data) {
                    assert(!placeable::<T>(
                        self@[i as int][j as int],
                        point.x[i as int] as int,
                        point.y[j as int] as int,
                        NX as int,
                        NY as int,
                        data.value(),
                    ));
                    return false;
                }
                j += 1;
            }
            i += 1;
        }
        true
    }

    /// Writes `data` into every layer at the sample's cell.
    pub fn write(&mut self, point: &GridPoint<N>, data: T)
        requires
            matrix_placeable::<T, N>(old(self)@, *point, NX as int, NY as int, data.value()),
        ensures
            final(self)@ == matrix_placed::<T, N>(
                old(self)@,
                *point,
                NX as int,
                NY as int,
                data.value(),
            ),
            forall|i: int, j: int|
                0 <= i < N && 0 <= j < N ==> #[trigger] final(self).axes(i, j) == old(self).axes(
                    i,
                    j,
                ),
    {
        proof {
            use_type_invariant(&*self);
        }
        let ghost target = matrix_placed::<T, N>(
            old(self)@,
            *point,
            NX as int,
            NY as int,
            data.value(),
        );
        let mut i: usize = 0;
        while i < N
            invariant
                i <= N,
                self.rows@.len() == N,
                matrix_placeable::<T, N>(old(self)@, *point, NX as int, NY as int, data.value()),
                target == matrix_placed::<T, N>(
                    old(self)@,
                    *point,
                    NX as int,
                    NY as int,
                    data.value(),
                ),
                forall|k: int, l: int|
                    0 <= k < i && 0 <= l < N ==> #[trigger] self.grid(k, l) == target[k][l],
                forall|k: int, l: int|
                    i <= k < N && 0 <= l < N ==> #[trigger] self.grid(k, l) == old(self).grid(k, l),
                forall|k: int, l: int|
                    0 <= k < N && 0 <= l < N ==> #[trigger] self.axes(k, l) == old(self).axes(k, l),
            decreases N - i,
        {
            let mut j: usize = 0;
            while j < N
                invariant
                    i < N,
                    j <= N,
                    self.rows@.len() == N,
                    matrix_placeable::<T, N>(
                        old(self)@,
                        *point,
                        NX as int,
                        NY as int,
                        data.value(),
                    ),
                    target == matrix_placed::<T, N>(
                        old(self)@,
                        *point,
                        NX as int,
                        NY as int,
                        data.value(),
                    ),
                    forall|k: int, l: int|
                        0 <= k < i && 0 <= l < N ==> #[trigger] self.grid(k, l) == target[k][l],
                    forall|k: int, l: int|
                        i < k < N && 0 <= l < N ==> #[trigger] self.grid(k, l) == old(self).grid(
                            k,
                            l,
                        ),
                    forall|l: int| 0 <= l < j ==> #[trigger] self.grid(i as int, l) == target[i as int][l],
                    forall|l: int|
                        j <= l < N ==> #[trigger] self.grid(i as int, l) == old(self).grid(
                            i as int,
                            l,
                        ),
                    forall|k: int, l: int|
                    0 <= k < N && 0 <= l < N ==> #[trigger] self.axes(k, l) == old(self).axes(k, l),
                decreases N - j,
            {
                let ghost before = *self;
                assert(old(self)@[i as int][j as int] == old(self).grid(i as int, j as int));
                assert(self.grid(i as int, j as int) == old(self).grid(i as int, j as int));
                self.rows[i].write(j, point.x[i], point.y[j], data);
                assert forall|k: int, l: int| 0 <= k < N && 0 <= l < N implies #[trigger] self.grid(
                    k,
                    l,
                ) == if k == i && l == j {
                    target[k][l]
                } else {
                    before.grid(k, l)
                } by {}
                assert forall|k: int, l: int| 0 <= k < N && 0 <= l < N implies #[trigger] self.axes(
                    k,
                    l,
                ) == before.axes(k, l) by {}
                j += 1;
            }
            i += 1;
        }
        assert(self@ =~~= target);
    }

    /// Whether [`LayerMatrix::merge`] can take `other`.
    pub fn can_merge(&self, other: &LayerMatrix<T, N, NX, NY>) -> (ok: bool)
        ensures
            ok == matrix_mergeable::<T>(self@, other@),
    {
        proof {
            use_type_invariant(self);
            use_type_invariant(other);
        }
        let mut i: usize = 0;
        while i < N
            invariant
                i <= N,
                self.rows@.len() == N,
                other.rows@.len() == N,
                forall|k: int, l: int|
                    0 <= k < i && 0 <= l < N ==> mergeable::<T>(
                        #[trigger] self@[k][l],
                        #[trigger] other@[k][l],
                    ),
            decreases N - i,
        {
            let mut j: usize = 0;
            while j < N
                invariant
                    i < N,
                    j <= N,
                    self.rows@.len() == N,
                    other.rows@.len() == N,
                    forall|k: int, l: int|
                        0 <= k < i && 0 <= l < N ==> mergeable::<T>(
                            #[trigger] self@[k][l],
                            #[trigger] other@[k][l],
                        ),
                    forall|l: int|
                        0 <= l < j ==> mergeable::<T>(
                            #[trigger] self@[i as int][l],
                            #[trigger] other@[i as int][l],
                        ),
                decreases N - j,
            {
                if !self.rows[i].layer(j).can_merge(other.rows[i].layer(j)) {
                    assert(!mergeable::<T>(self@[i as int][j as int], other@[i as int][j as int]));
                    return false;
                }
                j += 1;
            }
            i += 1;
        }
        true
    }

    /// Merges every layer of `other` into the layer of `self` for the same
    /// pair of axes.
    pub fn merge(&mut self, other: &LayerMatrix<T, N, NX, NY>)
        requires
            matrix_mergeable::<T>(old(self)@, other@),
        ensures
            final(self)@ == matrix_merged::<T>(old(self)@, other@),
            forall|i: int, j: int|
                0 <= i < N && 0 <= j < N ==> #[trigger] final(self).axes(i, j) == old(self).axes(
                    i,
                    j,
                ),
    {
        proof {
            use_type_invariant(&*self);
            use_type_invariant(other);
        }
        let ghost target = matrix_merged::<T>(old(self)@, other@);
        let mut i: usize = 0;
        while i < N
            invariant
                i <= N,
                self.rows@.len() == N,
                other.rows@.len() == N,
                matrix_mergeable::<T>(old(self)@, other@),
                target == matrix_merged::<T>(old(self)@, other@),
                forall|k: int, l: int|
                    0 <= k < i && 0 <= l < N ==> #[trigger] self.grid(k, l) == target[k][l],
                forall|k: int, l: int|
                    i <= k < N && 0 <= l < N ==> #[trigger] self.grid(k, l) == old(self).grid(k, l),
                forall|k: int, l: int|
                    0 <= k < N && 0 <= l < N ==> #[trigger] self.axes(k, l) == old(self).axes(k, l),
            decreases N - i,
        {
            let mut j: usize = 0;
            while j < N
                invariant
                    i < N,
                    j <= N,
                    self.rows@.len() == N,
                    other.rows@.len() == N,
                    matrix_mergeable::<T>(old(self)@, other@),
                    target == matrix_merged::<T>(old(self)@, other@),
                    forall|k: int, l: int|
                        0 <= k < i && 0 <= l < N ==> #[trigger] self.grid(k, l) == target[k][l],
                    forall|k: int, l: int|
                        i < k < N && 0 <= l < N ==> #[trigger] self.grid(k, l) == old(self).grid(
                            k,
                            l,
                        ),
                    forall|l: int| 0 <= l < j ==> #[trigger] self.grid(i as int, l) == target[i as int][l],
                    forall|l: int|
                        j <= l < N ==> #[trigger] self.grid(i as int, l) == old(self).grid(
                            i as int,
                            l,
                        ),
                    forall|k: int, l: int|
                    0 <= k < N && 0 <= l < N ==> #[trigger] self.axes(k, l) == old(self).axes(k, l),
                decreases N - j,
            {
                let ghost before = *self;
                assert(old(self)@[i as int][j as int] == old(self).grid(i as int, j as int));
                assert(other@[i as int][j as int] == other.grid(i as int, j as int));
                assert(mergeable::<T>(old(self)@[i as int][j as int], other@[i as int][j as int]));
                assert(self.grid(i as int, j as int) == old(self).grid(i as int, j as int));
                self.rows[i].merge(j, other.rows[i].layer(j));
                assert forall|k: int, l: int| 0 <= k < N && 0 <= l < N implies #[trigger] self.grid(
                    k,
                    l,
                ) == if k == i && l == j {
                    target[k][l]
                } else {
                    before.grid(k, l)
                } by {}
                assert forall|k: int, l: int| 0 <= k < N && 0 <= l < N implies #[trigger] self.axes(
                    k,
                    l,
                ) == before.axes(k, l) by {}
                j += 1;
            }
            i += 1;
        }
        assert(self@ =~~= target);
    }
}

impl<T: Cell, const N: usize, const NX: usize, const NY: usize> Clone for LayerMatrix<
    T,
    N,
    NX,
    NY,
> {
    fn clone(&self) -> (matrix: Self)
        ensures
            matrix@ == self@,
            forall|i: int, j: int|
                0 <= i < N && 0 <= j < N ==> #[trigger] matrix.axes(i, j) == self.axes(i, j),
    {
        proof {
            use_type_invariant(self);
        }
        let mut rows: Vec<LayerRow<T, N, NX, NY>> = Vec::new();
        let mut i: usize = 0;
        while i < N
            invariant
                i <= N,
                self.rows@.len() == N,
                rows@.len() == i,
                forall|k: int| 0 <= k < i ==> (#[trigger] rows@[k]).grids() == self.rows@[k].grids(),
                forall|k: int|
                    0 <= k < i ==> (#[trigger] rows@[k]).ranges() == self.rows@[k].ranges(),
            decreases N - i,
        {
            rows.push(self.rows[i].duplicate());
            i += 1;
        }
        let matrix = LayerMatrix { rows };
        assert(matrix@ =~~= self@);
        matrix
    }
}

/// A blank matrix has its shape.
pub proof fn blank_matrix_has_shape<T: Cell>(n: int, nx: int, ny: int)
    requires
        0 <= n,
        0 <= nx,
        0 <= ny,
    ensures
        matrix_has_shape(blank_matrix::<T>(n, nx, ny), n, nx, ny),
{
}

/// Writing a sample and merging keep the shape of a matrix.
pub proof fn matrix_shape_is_kept<T: Cell, const N: usize>(
    a: Matrix<T::Value>,
    b: Matrix<T::Value>,
    point: GridPoint<N>,
    nx: int,
    ny: int,
    v: T::Value,
)
    requires
        matrix_has_shape(a, N as int, nx, ny),
    ensures
        matrix_has_shape(matrix_placed::<T, N>(a, point, nx, ny, v), N as int, nx, ny),
        matrix_has_shape(matrix_merged::<T>(a, b), N as int, nx, ny),
{
    let written = matrix_placed::<T, N>(a, point, nx, ny, v);
    assert forall|i: int, j: int| 0 <= i < N && 0 <= j < N implies has_shape(
        #[trigger] written[i][j],
        nx,
        ny,
    ) by {
        assert(has_shape(a[i][j], nx, ny));
    }
    let both = matrix_merged::<T>(a, b);
    assert forall|i: int, j: int| 0 <= i < N && 0 <= j < N implies has_shape(
        #[trigger] both[i][j],
        nx,
        ny,
    ) by {
        assert(has_shape(a[i][j], nx, ny));
    }
}

/// Merging a blank matrix into a matrix leaves it as it was.
pub proof fn matrix_merge_blank_is_identity<T: Cell>(a: Matrix<T::Value>, n: int, nx: int, ny: int)
    requires
        matrix_has_shape(a, n, nx, ny),
    ensures
        matrix_merged::<T>(a, blank_matrix::<T>(n, nx, ny)) == a,
{
    let blank = blank_matrix::<T>(n, nx, ny);
    assert forall|i: int, j: int| 0 <= i < n && 0 <= j < n implies merged::<T>(
        #[trigger] a[i][j],
        blank[i][j],
    ) == a[i][j] by {
        merge_blank_is_identity::<T>(a[i][j], nx, ny);
    }
    assert(matrix_merged::<T>(a, blank) =~~= a);
}

/// Matrices of one shape merge to the same matrix in every order and
/// grouping.
pub proof fn matrix_merge_laws<T: Cell>(
    a: Matrix<T::Value>,
    b: Matrix<T::Value>,
    c: Matrix<T::Value>,
    n: int,
    nx: int,
    ny: int,
)
    requires
        matrix_has_shape(a, n, nx, ny),
        matrix_has_shape(b, n, nx, ny),
        matrix_has_shape(c, n, nx, ny),
    ensures
        matrix_merged::<T>(a, b) == matrix_merged::<T>(b, a),
        matrix_merged::<T>(matrix_merged::<T>(a, b), c) == matrix_merged::<T>(
            a,
            matrix_merged::<T>(b, c),
        ),
        matrix_merged::<T>(a, matrix_merged::<T>(b, c)) == matrix_merged::<T>(
            b,
            matrix_merged::<T>(a, c),
        ),
{
    assert forall|i: int, j: int| 0 <= i < n && 0 <= j < n implies {
        &&& merged::<T>(#[trigger] a[i][j], b[i][j]) == merged::<T>(b[i][j], a[i][j])
        &&& merged::<T>(merged::<T>(a[i][j], b[i][j]), c[i][j]) == merged::<T>(
            a[i][j],
            merged::<T>(b[i][j], c[i][j]),
        )
        &&& merged::<T>(a[i][j], merged::<T>(b[i][j], c[i][j])) == merged::<T>(
            b[i][j],
            merged::<T>(a[i][j], c[i][j]),
        )
    } by {
        assert(has_shape(a[i][j], nx, ny));
        assert(has_shape(b[i][j], nx, ny));
        assert(has_shape(c[i][j], nx, ny));
        merge_is_commutative::<T>(a[i][j], b[i][j], nx, ny);
        merge_is_associative::<T>(a[i][j], b[i][j], c[i][j], nx, ny);
    }
    assert(matrix_merged::<T>(a, b) =~~= matrix_merged::<T>(b, a));
    assert(matrix_merged::<T>(matrix_merged::<T>(a, b), c) =~~= matrix_merged::<T>(
        a,
        matrix_merged::<T>(b, c),
    ));
    assert(matrix_merged::<T>(a, matrix_merged::<T>(b, c)) =~~= matrix_merged::<T>(
        b,
        matrix_merged::<T>(a, c),
    ));
}

/// A sample may be written into either side of a merge, or into the merged
/// matrix: the result is the same.
pub proof fn matrix_write_commutes_with_merge<T: Cell, const N: usize>(
    a: Matrix<T::Value>,
    b: Matrix<T::Value>,
    point: GridPoint<N>,
    nx: int,
    ny: int,
    v: T::Value,
)
    requires
        matrix_has_shape(a, N as int, nx, ny),
        matrix_has_shape(b, N as int, nx, ny),
    ensures
        matrix_merged::<T>(matrix_placed::<T, N>(a, point, nx, ny, v), b) == matrix_placed::<T, N>(
            matrix_merged::<T>(a, b),
            point,
            nx,
            ny,
            v,
        ),
        matrix_merged::<T>(a, matrix_placed::<T, N>(b, point, nx, ny, v)) == matrix_placed::<T, N>(
            matrix_merged::<T>(a, b),
            point,
            nx,
            ny,
            v,
        ),
{
    let target = matrix_placed::<T, N>(matrix_merged::<T>(a, b), point, nx, ny, v);
    let left = matrix_merged::<T>(matrix_placed::<T, N>(a, point, nx, ny, v), b);
    let right = matrix_merged::<T>(a, matrix_placed::<T, N>(b, point, nx, ny, v));
    assert forall|i: int, j: int| 0 <= i < N && 0 <= j < N implies #[trigger] left[i][j]
        == target[i][j] && right[i][j] == target[i][j] by {
        assert(has_shape(a[i][j], nx, ny));
        assert(has_shape(b[i][j], nx, ny));
        let x = point.x[i] as int;
        let y = point.y[j] as int;
        if nx > 0 && ny > 0 {
            write_commutes_with_merge::<T>(
                a[i][j],
                b[i][j],
                nx,
                ny,
                clamped(x, nx),
                clamped(y, ny),
                v,
            );
        }
        assert(left[i][j] == merged::<T>(placed::<T>(a[i][j], x, y, nx, ny, v), b[i][j]));
        assert(right[i][j] == merged::<T>(a[i][j], placed::<T>(b[i][j], x, y, nx, ny, v)));
        assert(target[i][j] == placed::<T>(merged::<T>(a[i][j], b[i][j]), x, y, nx, ny, v));
    }
    assert(left =~~= target);
    assert(right =~~= target);
}

/// What a scan hands its results to.
///
/// A consumer is made once for each worker, takes every valid sample of that
/// worker, and is merged into the consumer of the whole scan when the worker
/// is done. `State` is what the consumer has collected, as mathematical
/// values, and `Setup` what it was made with and never changes; `consumed`
/// and `combined` say what a sample and a merge do to the state.
pub trait ScanConsumer<const N: usize>: Sized {
    type State;

    type Setup;

    spec fn state(&self) -> Self::State;

    spec fn setup(&self) -> Self::Setup;

    /// Whether the consumer can take the sample: every cell that the sample
    /// goes to can hold the new value.
    spec fn accepts(
        setup: Self::Setup,
        state: Self::State,
        point: GridPoint<N>,
        result: IntegrationResult,
    ) -> bool;

    spec fn consumed(
        setup: Self::Setup,
        state: Self::State,
        point: GridPoint<N>,
        result: IntegrationResult,
    ) -> Self::State;

    /// Whether every cell of `a` can hold its value joined with that of `b`.
    spec fn takes(a: Self::State, b: Self::State) -> bool;

    spec fn combined(a: Self::State, b: Self::State) -> Self::State;

    /// The state of a consumer that has seen no sample.
    spec fn fresh() -> Self::State;

    /// Whether the state has the shape of this consumer's layers.
    spec fn valid(state: Self::State) -> bool;

    fn can_consume(&self, point: GridPoint<N>, result: IntegrationResult) -> (ok: bool)
        ensures
            ok == Self::accepts(self.setup(), self.state(), point, result),
    ;

    fn consume(&mut self, point: GridPoint<N>, result: IntegrationResult)
        requires
            Self::accepts(old(self).setup(), old(self).state(), point, result),
        ensures
            final(self).state() == Self::consumed(
                old(self).setup(),
                old(self).state(),
                point,
                result,
            ),
            final(self).setup() == old(self).setup(),
    ;

    fn can_merge(&self, other: &Self) -> (ok: bool)
        ensures
            ok == Self::takes(self.state(), other.state()),
    ;

    /// A consumer of its own for one more worker: it holds what this one
    /// holds, with the same setup.
    fn duplicate(&self) -> (copy: Self)
        ensures
            copy.state() == self.state(),
            copy.setup() == self.setup(),
    ;

    fn merge(&mut self, other: Self)
        requires
            Self::takes(old(self).state(), other.state()),
        ensures
            final(self).state() == Self::combined(old(self).state(), other.state()),
            final(self).setup() == old(self).setup(),
    ;

    /// The fresh state is valid.
    proof fn fresh_is_valid()
        ensures
            Self::valid(Self::fresh()),
    ;

    /// Samples and merges keep a state valid.
    proof fn validity_is_kept(
        setup: Self::Setup,
        a: Self::State,
        b: Self::State,
        point: GridPoint<N>,
        result: IntegrationResult,
    )
        requires
            Self::valid(a),
        ensures
            Self::valid(Self::consumed(setup, a, point, result)),
            Self::valid(Self::combined(a, b)),
    ;

    /// Merging is independent of order and grouping, and merging a fresh
    /// state changes nothing.
    proof fn merge_laws(a: Self::State, b: Self::State, c: Self::State)
        requires
            Self::valid(a),
            Self::valid(b),
            Self::valid(c),
        ensures
            Self::combined(a, Self::fresh()) == a,
            Self::combined(a, b) == Self::combined(b, a),
            Self::combined(Self::combined(a, b), c) == Self::combined(a, Self::combined(b, c)),
            Self::combined(a, Self::combined(b, c)) == Self::combined(b, Self::combined(a, c)),
    ;

    /// A sample may be consumed on either side of a merge, or after it: the
    /// merged state is the same.
    proof fn consume_commutes_with_merge(
        setup: Self::Setup,
        a: Self::State,
        b: Self::State,
        point: GridPoint<N>,
        result: IntegrationResult,
    )
        requires
            Self::valid(a),
            Self::valid(b),
        ensures
            Self::combined(Self::consumed(setup, a, point, result), b) == Self::consumed(
                setup,
                Self::combined(a, b),
                point,
                result,
            ),
            Self::combined(a, Self::consumed(setup, b, point, result)) == Self::consumed(
                setup,
                Self::combined(a, b),
                point,
                result,
            ),
    ;
}

} // verus!
