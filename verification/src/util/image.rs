//! Two-dimensional histograms over a pair of coupling axes, and the pixel
//! grids they are drawn on.

use vstd::prelude::*;
use crate::util::scalar::Scalar;

verus! {

/// What one cell of a [`Layer`] holds, and how two such contents combine.
///
/// `joined` is the combine function on the mathematical values; `fits` says
/// when the joined value is one that a cell can hold.
pub trait Cell: Copy {
    /// The mathematical value of a cell.
    type Value;

    spec fn value(self) -> Self::Value;

    /// The value of a cell nothing was written to.
    spec fn blank() -> Self::Value;

    spec fn joined(a: Self::Value, b: Self::Value) -> Self::Value;

    spec fn fits(a: Self::Value, b: Self::Value) -> bool;

    fn empty() -> (cell: Self)
        ensures
            cell.value() == Self::blank(),
    ;

    fn can_combine(&self, other: &Self) -> (ok: bool)
        ensures
            ok == Self::fits(self.value(), other.value()),
    ;

    fn combine(&self, other: Self) -> (cell: Self)
        requires
            Self::fits(self.value(), other.value()),
        ensures
            cell.value() == Self::joined(self.value(), other.value()),
    ;

    /// `joined` is associative and commutative, and `blank` is its neutral
    /// element.
    proof fn join_laws(a: Self::Value, b: Self::Value, c: Self::Value)
        ensures
            Self::joined(a, Self::blank()) == a,
            Self::joined(Self::blank(), a) == a,
            Self::joined(a, b) == Self::joined(b, a),
            Self::joined(Self::joined(a, b), c) == Self::joined(a, Self::joined(b, c)),
    ;

    /// A blank cell can be joined to every cell.
    proof fn blank_fits(cell: Self)
        ensures
            Self::fits(cell.value(), Self::blank()),
    ;
}

/// A flag: cells combine by logical or.
impl Cell for bool {
    type Value = bool;

    open spec fn value(self) -> bool {
        self
    }

    open spec fn blank() -> bool {
        false
    }

    open spec fn joined(a: bool, b: bool) -> bool {
        a || b
    }

    open spec fn fits(a: bool, b: bool) -> bool {
        true
    }

    fn empty() -> (cell: bool) {
        false
    }

    fn can_combine(&self, other: &bool) -> (ok: bool) {
        true
    }

    fn combine(&self, other: bool) -> (cell: bool) {
        *self || other
    }

    proof fn join_laws(a: bool, b: bool, c: bool) {
    }

    proof fn blank_fits(cell: bool) {
    }
}

/// A count: cells combine by addition.
impl Cell for i64 {
    type Value = int;

    open spec fn value(self) -> int {
        self as int
    }

    open spec fn blank() -> int {
        0
    }

    open spec fn joined(a: int, b: int) -> int {
        a + b
    }

    open spec fn fits(a: int, b: int) -> bool {
        i64::MIN <= a + b <= i64::MAX
    }

    fn empty() -> (cell: i64) {
        0
    }

    fn can_combine(&self, other: &i64) -> (ok: bool) {
        self.checked_add(*other).is_some()
    }

    fn combine(&self, other: i64) -> (cell: i64) {
        *self + other
    }

    proof fn join_laws(a: int, b: int, c: int) {
    }

    proof fn blank_fits(cell: i64) {
    }
}

/// A running average, kept as the sum of the samples and their number.
#[derive(Clone, Copy, Debug, PartialEq, Eq, Structural)]
pub struct Average {
    pub sum: u64,
    pub count: u64,
}

impl Average {
    /// The mean of `self` is not above the mean of `other`, for two averages
    /// with samples: compared without rounding.
    pub open spec fn mean_at_most(self, other: Average) -> bool {
        self.sum * other.count <= other.sum * self.count
    }

    /// Whether the mean of `self` is not above the mean of `other`.
    pub fn mean_le(&self, other: &Average) -> (b: bool)
        ensures
            b == self.mean_at_most(*other),
    {
        assert(self.sum * other.count <= u64::MAX * u64::MAX) by (nonlinear_arith)
            requires
                self.sum <= u64::MAX,
                other.count <= u64::MAX,
        ;
        assert(other.sum * self.count <= u64::MAX * u64::MAX) by (nonlinear_arith)
            requires
                other.sum <= u64::MAX,
                self.count <= u64::MAX,
        ;
        (self.sum as u128) * (other.count as u128) <= (other.sum as u128) * (self.count as u128)
    }

    /// The order of the means is an order: every mean is at most itself, and
    /// at most every mean above a mean above it.
    pub proof fn mean_order(a: Average, b: Average, c: Average)
        requires
            b.count > 0,
        ensures
            a.mean_at_most(a),
            a.mean_at_most(b) && b.mean_at_most(c) ==> a.mean_at_most(c),
            a.mean_at_most(b) || b.mean_at_most(a),
    {
        if a.mean_at_most(b) && b.mean_at_most(c) {
            let (x, p) = (a.sum as int, a.count as int);
            let (y, q) = (b.sum as int, b.count as int);
            let (z, r) = (c.sum as int, c.count as int);
            assert(x * q * r <= y * p * r) by (nonlinear_arith)
                requires
                    x * q <= y * p,
                    0 <= r,
            ;
            assert(y * r * p <= z * q * p) by (nonlinear_arith)
                requires
                    y * r <= z * q,
                    0 <= p,
            ;
            assert(y * p * r == y * r * p) by (nonlinear_arith);
            assert(x * q * r == (x * r) * q) by (nonlinear_arith);
            assert(z * q * p == (z * p) * q) by (nonlinear_arith);
            assert(x * r <= z * p) by (nonlinear_arith)
                requires
                    (x * r) * q <= (z * p) * q,
                    q > 0,
            ;
        }
    }
}

impl Cell for Average {
    type Value = (int, int);

    open spec fn value(self) -> (int, int) {
        (self.sum as int, self.count as int)
    }

    open spec fn blank() -> (int, int) {
        (0, 0)
    }

    open spec fn joined(a: (int, int), b: (int, int)) -> (int, int) {
        (a.0 + b.0, a.1 + b.1)
    }

    open spec fn fits(a: (int, int), b: (int, int)) -> bool {
        a.0 + b.0 <= u64::MAX && a.1 + b.1 <= u64::MAX
    }

    fn empty() -> (cell: Average) {
        Average { sum: 0, count: 0 }
    }

    fn can_combine(&self, other: &Average) -> (ok: bool) {
        self.sum <= u64::MAX - other.sum && self.count <= u64::MAX - other.count
    }

    fn combine(&self, other: Average) -> (cell: Average) {
        Average { sum: self.sum + other.sum, count: self.count + other.count }
    }

    proof fn join_laws(a: (int, int), b: (int, int), c: (int, int)) {
    }

    proof fn blank_fits(cell: Average) {
    }
}

/// The cells of a grid, as columns of mathematical values: `grid[i][j]` is
/// the cell at column `i` and row `j`.
pub type Grid<V> = Seq<Seq<V>>;

/// `grid` has `nx` columns of `ny` cells each.
pub open spec fn has_shape<V>(grid: Grid<V>, nx: int, ny: int) -> bool {
    &&& grid.len() == nx
    &&& forall|i: int| 0 <= i < nx ==> (#[trigger] grid[i]).len() == ny
}

/// The grid that holds `blank` everywhere.
pub open spec fn blank_grid<T: Cell>(nx: int, ny: int) -> Grid<T::Value> {
    Seq::new(nx as nat, |i: int| Seq::new(ny as nat, |j: int| T::blank()))
}

/// Cell by cell, the join of `a` and `b`, in the shape of `a`.
pub open spec fn merged<T: Cell>(a: Grid<T::Value>, b: Grid<T::Value>) -> Grid<T::Value> {
    Seq::new(a.len(), |i: int| Seq::new(a[i].len(), |j: int| T::joined(a[i][j], b[i][j])))
}

/// Every cell of `a` can take up the cell of `b` at the same place.
pub open spec fn mergeable<T: Cell>(a: Grid<T::Value>, b: Grid<T::Value>) -> bool {
    forall|i: int, j: int|
        0 <= i < a.len() && 0 <= j < a[i].len() ==> T::fits(#[trigger] a[i][j], #[trigger] b[i][j])
}

/// `grid` after `v` was joined into the cell at `(i, j)`.
pub open spec fn written<T: Cell>(grid: Grid<T::Value>, i: int, j: int, v: T::Value) -> Grid<
    T::Value,
> {
    grid.update(i, grid[i].update(j, T::joined(grid[i][j], v)))
}

/// The index of the cell that takes a write at `index` on an axis of `n`
/// cells: the index itself, or the last cell for an index beyond the axis.
pub open spec fn clamped(index: int, n: int) -> int {
    if index < n {
        index
    } else {
        n - 1
    }
}

/// Whether a grid of `nx` by `ny` cells can take the write of `v` at index
/// `(x, y)`: the cell the write goes to can hold the joined value.
pub open spec fn placeable<T: Cell>(grid: Grid<T::Value>, x: int, y: int, nx: int, ny: int, v: T::Value)
    -> bool {
    nx > 0 && ny > 0 ==> T::fits(grid[clamped(x, nx)][clamped(y, ny)], v)
}

/// A grid of `nx` by `ny` cells after the write of `v` at index `(x, y)`: an
/// index beyond an axis goes to the last cell of that axis, and a grid
/// without cells stays as it is.
pub open spec fn placed<T: Cell>(grid: Grid<T::Value>, x: int, y: int, nx: int, ny: int, v: T::Value)
    -> Grid<T::Value> {
    if nx > 0 && ny > 0 {
        written::<T>(grid, clamped(x, nx), clamped(y, ny), v)
    } else {
        grid
    }
}

/// One column of a grid: `NY` items.
struct Column<T, const NY: usize> {
    cells: Vec<T>,
}

impl<T, const NY: usize> Column<T, NY> {
    #[verifier::type_invariant]
    spec fn full(self) -> bool {
        self.cells@.len() == NY
    }
}

impl<T: Copy, const NY: usize> Column<T, NY> {
    spec fn items(self) -> Seq<T> {
        Seq::new(NY as nat, |j: int| self.cells@[j])
    }

    fn new(fill: T) -> (column: Self)
        ensures
            column.items() == Seq::new(NY as nat, |j: int| fill),
    {
        let mut cells: Vec<T> = Vec::new();
        let mut j: usize = 0;
        while j < NY
            invariant
                j <= NY,
                cells@.len() == j,
                forall|k: int| 0 <= k < j ==> cells@[k] == fill,
            decreases NY - j,
        {
            cells.push(fill);
            j += 1;
        }
        let column = Column { cells };
        assert(column.items() =~= Seq::new(NY as nat, |j: int| fill));
        column
    }

    fn get(&self, j: usize) -> (item: T)
        requires
            j < NY,
        ensures
            item == self.items()[j as int],
    {
        proof {
            use_type_invariant(self);
        }
        self.cells[j]
    }

    fn set(&mut self, j: usize, item: T)
        requires
            j < NY,
        ensures
            final(self).items() == old(self).items().update(j as int, item),
    {
        proof {
            use_type_invariant(&*self);
        }
        self.cells[j] = item;
        assert(self.items() =~= old(self).items().update(j as int, item));
    }

    fn duplicate(&self) -> (column: Self)
        ensures
            column.items() == self.items(),
    {
        proof {
            use_type_invariant(self);
        }
        let mut cells: Vec<T> = Vec::new();
        let mut j: usize = 0;
        while j < NY
            invariant
                j <= NY,
                self.cells@.len() == NY,
                cells@.len() == j,
                forall|k: int| 0 <= k < j ==> cells@[k] == self.cells@[k],
            decreases NY - j,
        {
            cells.push(self.cells[j]);
            j += 1;
        }
        let column = Column { cells };
        assert(column.items() =~= self.items());
        column
    }
}

/// A dense grid of `NX` by `NY` cells over two coupling axes.
///
/// Samples are written into single cells, and two layers of one shape merge
/// cell by cell; both use the combine function of the cell type.
pub struct Layer<T, const NX: usize, const NY: usize> {
    columns: Vec<Column<T, NY>>,
    range_x: (Scalar, Scalar),
    range_y: (Scalar, Scalar),
}

impl<T, const NX: usize, const NY: usize> Layer<T, NX, NY> {
    #[verifier::type_invariant]
    spec fn full(self) -> bool {
        self.columns@.len() == NX
    }
}

impl<T: Cell, const NX: usize, const NY: usize> Layer<T, NX, NY> {
    /// The cell at `(i, j)` as it is stored.
    pub closed spec fn stored(self, i: int, j: int) -> T {
        self.columns@[i].items()[j]
    }

    /// The value of the cell at `(i, j)`.
    pub open spec fn cell(self, i: int, j: int) -> T::Value {
        self.stored(i, j).value()
    }

    /// The range of the first axis: its lower and upper bound.
    pub closed spec fn axis_x(self) -> (Scalar, Scalar) {
        self.range_x
    }

    /// The range of the second axis.
    pub closed spec fn axis_y(self) -> (Scalar, Scalar) {
        self.range_y
    }

    /// The cells as a grid of `NX` columns and `NY` rows.
    pub open spec fn view(self) -> Grid<T::Value> {
        Seq::new(NX as nat, |i: int| Seq::new(NY as nat, |j: int| self.cell(i, j)))
    }

    /// A layer over the given axis ranges with every cell blank.
    pub fn new(range_x: (Scalar, Scalar), range_y: (Scalar, Scalar)) -> (layer: Self)
        ensures
            layer@ == blank_grid::<T>(NX as int, NY as int),
            layer.axis_x() == range_x,
            layer.axis_y() == range_y,
    {
        let blank = T::empty();
        let mut columns: Vec<Column<T, NY>> = Vec::new();
        let mut i: usize = 0;
        while i < NX
            invariant
                i <= NX,
                columns@.len() == i,
                blank.value() == T::blank(),
                forall|k: int|
                    0 <= k < i ==> (#[trigger] columns@[k]).items() == Seq::new(
                        NY as nat,
                        |j: int| blank,
                    ),
            decreases NX - i,
        {
            columns.push(Column::new(blank));
            i += 1;
        }
        let layer = Layer { columns, range_x, range_y };
        assert(layer@ =~~= blank_grid::<T>(NX as int, NY as int));
        layer
    }

    pub fn range_x(&self) -> (range: (Scalar, Scalar))
        ensures
            range == self.axis_x(),
    {
        self.range_x
    }

    pub fn range_y(&self) -> (range: (Scalar, Scalar))
        ensures
            range == self.axis_y(),
    {
        self.range_y
    }

    /// Whether the two layers cover the same ranges on both axes, bound for
    /// bound. Only such layers hold cells that mean the same.
    pub fn same_axes(&self, other: &Layer<T, NX, NY>) -> (same: bool)
        ensures
            same == (self.axis_x() == other.axis_x() && self.axis_y() == other.axis_y()),
    {
        self.range_x.0 == other.range_x.0 && self.range_x.1 == other.range_x.1 && self.range_y.0
            == other.range_y.0 && self.range_y.1 == other.range_y.1
    }

    /// The cell at `(i, j)`, or `None` outside the grid.
    pub fn get(&self, i: usize, j: usize) -> (cell: Option<T>)
        ensures
            i < NX && j < NY ==> cell == Some(self.stored(i as int, j as int)),
            !(i < NX && j < NY) ==> cell.is_none(),
    {
        proof {
            use_type_invariant(self);
        }
        if i < NX && j < NY {
            Some(self.columns[i].get(j))
        } else {
            None
        }
    }

    /// Whether [`Layer::write`] can take `data` at `(x, y)`: the joined value
    /// is one the cell can hold.
    pub fn can_write(&self, x: usize, y: usize, data: &T) -> (ok: bool)
        ensures
            ok == placeable::<T>(self@, x as int, y as int, NX as int, NY as int, data.value()),
    {
        proof {
            use_type_invariant(self);
        }
        if NX == 0 || NY == 0 {
            return true;
        }
        let i = if x < NX { x } else { NX - 1 };
        let j = if y < NY { y } else { NY - 1 };
        self.columns[i].get(j).can_combine(data)
    }

    /// Joins `data` into the cell with index `(x, y)`.
    ///
    /// An index beyond the last cell of an axis is taken as the last cell, so
    /// a sample on or above the upper bound of a range counts for the
    /// outermost cell. A layer without cells takes no write.
    pub fn write(&mut self, x: usize, y: usize, data: T)
        requires
            placeable::<T>(old(self)@, x as int, y as int, NX as int, NY as int, data.value()),
        ensures
            final(self)@ == placed::<T>(
                old(self)@,
                x as int,
                y as int,
                NX as int,
                NY as int,
                data.value(),
            ),
            final(self).axis_x() == old(self).axis_x(),
            final(self).axis_y() == old(self).axis_y(),
    {
        proof {
            use_type_invariant(&*self);
        }
        if NX == 0 || NY == 0 {
            assert(self@ =~~= old(self)@);
            return ;
        }
        let i = if x < NX { x } else { NX - 1 };
        let j = if y < NY { y } else { NY - 1 };
        let joined = self.columns[i].get(j).combine(data);
        self.columns[i].set(j, joined);
        assert(self@ =~~= written::<T>(old(self)@, i as int, j as int, data.value()));
    }

    /// Whether [`Layer::merge`] can take `other`: every joined value is one
    /// its cell can hold.
    pub fn can_merge(&self, other: &Layer<T, NX, NY>) -> (ok: bool)
        ensures
            ok == mergeable::<T>(self@, other@),
    {
        proof {
            use_type_invariant(self);
            use_type_invariant(other);
        }
        let mut i: usize = 0;
        while i < NX
            invariant
                i <= NX,
                self.columns@.len() == NX,
                other.columns@.len() == NX,
                forall|k: int, j: int|
                    0 <= k < i && 0 <= j < NY ==> T::fits(
                        #[trigger] self@[k][j],
                        #[trigger] other@[k][j],
                    ),
            decreases NX - i,
        {
            let mut j: usize = 0;
            while j < NY
                invariant
                    i < NX,
                    j <= NY,
                    self.columns@.len() == NX,
                    other.columns@.len() == NX,
                    forall|k: int, j: int|
                        0 <= k < i && 0 <= j < NY ==> T::fits(
                            #[trigger] self@[k][j],
                            #[trigger] other@[k][j],
                        ),
                    forall|l: int|
                        0 <= l < j ==> T::fits(
                            #[trigger] self@[i as int][l],
                            #[trigger] other@[i as int][l],
                        ),
                decreases NY - j,
            {
                let mine = self.columns[i].get(j);
                let theirs = other.columns[i].get(j);
                if !mine.can_combine(&theirs) {
                    assert(!T::fits(self@[i as int][j as int], other@[i as int][j as int]));
                    return false;
                }
                j += 1;
            }
            i += 1;
        }
        true
    }

    /// Joins every cell of `other` into the cell of `self` at the same place.
    /// The axis ranges of `self` stay, whatever those of `other` are; see
    /// [`Layer::same_axes`]. Merging a layer that nothing was written to
    /// changes no cell.
    pub fn merge(&mut self, other: &Layer<T, NX, NY>)
        requires
            mergeable::<T>(old(self)@, other@),
        ensures
            final(self)@ == merged::<T>(old(self)@, other@),
            other@ == blank_grid::<T>(NX as int, NY as int) ==> final(self)@ == old(self)@,
            final(self).axis_x() == old(self).axis_x(),
            final(self).axis_y() == old(self).axis_y(),
    {
        proof {
            use_type_invariant(&*self);
            use_type_invariant(other);
        }
        let mut i: usize = 0;
        while i < NX
            invariant
                i <= NX,
                self.columns@.len() == NX,
                other.columns@.len() == NX,
                self.range_x == old(self).range_x,
                self.range_y == old(self).range_y,
                mergeable::<T>(old(self)@, other@),
                forall|k: int, j: int|
                    0 <= k < i && 0 <= j < NY ==> #[trigger] self.cell(k, j) == T::joined(
                        old(self).cell(k, j),
                        other.cell(k, j),
                    ),
                forall|k: int, j: int|
                    i <= k < NX && 0 <= j < NY ==> #[trigger] self.cell(k, j) == old(self).cell(
                        k,
                        j,
                    ),
            decreases NX - i,
        {
            let mut j: usize = 0;
            while j < NY
                invariant
                    i < NX,
                    j <= NY,
                    self.columns@.len() == NX,
                    other.columns@.len() == NX,
                    self.range_x == old(self).range_x,
                    self.range_y == old(self).range_y,
                    mergeable::<T>(old(self)@, other@),
                    forall|k: int, j: int|
                        0 <= k < i && 0 <= j < NY ==> #[trigger] self.cell(k, j) == T::joined(
                            old(self).cell(k, j),
                            other.cell(k, j),
                        ),
                    forall|k: int, j: int|
                        i < k < NX && 0 <= j < NY ==> #[trigger] self.cell(k, j) == old(
                            self,
                        ).cell(k, j),
                    forall|l: int|
                        0 <= l < j ==> #[trigger] self.cell(i as int, l) == T::joined(
                            old(self).cell(i as int, l),
                            other.cell(i as int, l),
                        ),
                    forall|l: int|
                        j <= l < NY ==> #[trigger] self.cell(i as int, l) == old(self).cell(
                            i as int,
                            l,
                        ),
                decreases NY - j,
            {
                let ghost before = *self;
                assert(T::fits(old(self)@[i as int][j as int], other@[i as int][j as int]));
                assert(self.cell(i as int, j as int) == old(self).cell(i as int, j as int));
                assert(other.cell(i as int, j as int) == other@[i as int][j as int]);
                let joined = self.columns[i].get(j).combine(other.columns[i].get(j));
                self.columns[i].set(j, joined);
                assert forall|k: int, l: int| 0 <= k < NX && 0 <= l < NY implies #[trigger] self.cell(
                    k,
                    l,
                ) == if k == i && l == j {
                    joined.value()
                } else {
                    before.cell(k, l)
                } by {}
                j += 1;
            }
            i += 1;
        }
        assert(self@ =~~= merged::<T>(old(self)@, other@));
        proof {
            if other@ == blank_grid::<T>(NX as int, NY as int) {
                merge_blank_is_identity::<T>(old(self)@, NX as int, NY as int);
            }
        }
    }
}

impl<const NX: usize, const NY: usize> Layer<Average, NX, NY> {
    /// Some cell of the layer has samples.
    pub open spec fn has_samples(self) -> bool {
        exists|i: int, j: int| 0 <= i < NX && 0 <= j < NY && (#[trigger] self.stored(i, j)).count > 0
    }

    /// `least` and `greatest` are cells of the layer with samples, and the
    /// mean of every cell with samples lies between their means.
    pub open spec fn spans(self, least: Average, greatest: Average) -> bool {
        &&& least.count > 0
        &&& greatest.count > 0
        &&& exists|i: int, j: int| 0 <= i < NX && 0 <= j < NY && #[trigger] self.stored(i, j) == least
        &&& exists|i: int, j: int|
            0 <= i < NX && 0 <= j < NY && #[trigger] self.stored(i, j) == greatest
        &&& forall|i: int, j: int|
            0 <= i < NX && 0 <= j < NY && (#[trigger] self.stored(i, j)).count > 0
                ==> least.mean_at_most(self.stored(i, j)) && self.stored(i, j).mean_at_most(
                greatest,
            )
    }

    /// The cells with the least and the greatest mean among the cells with
    /// samples, or `None` where no cell has samples.
    pub fn extremes(&self) -> (found: Option<(Average, Average)>)
        ensures
            found is None <==> !self.has_samples(),
            found matches Some((least, greatest)) ==> self.spans(least, greatest),
    {
        proof {
            use_type_invariant(self);
        }
        let mut found: Option<(Average, Average)> = None;
        let mut i: usize = 0;
        while i < NX
            invariant
                i <= NX,
                self.columns@.len() == NX,
                found is None ==> forall|k: int, l: int|
                    0 <= k < i && 0 <= l < NY ==> (#[trigger] self.stored(k, l)).count == 0,
                found matches Some((least, greatest)) ==> {
                    &&& least.count > 0
                    &&& greatest.count > 0
                    &&& exists|k: int, l: int|
                        0 <= k < NX && 0 <= l < NY && #[trigger] self.stored(k, l) == least
                    &&& exists|k: int, l: int|
                        0 <= k < NX && 0 <= l < NY && #[trigger] self.stored(k, l) == greatest
                    &&& forall|k: int, l: int|
                        0 <= k < i && 0 <= l < NY && (#[trigger] self.stored(k, l)).count > 0
                            ==> least.mean_at_most(self.stored(k, l)) && self.stored(
                            k,
                            l,
                        ).mean_at_most(greatest)
                },
            decreases NX - i,
        {
            let mut j: usize = 0;
            while j < NY
                invariant
                    i < NX,
                    j <= NY,
                    self.columns@.len() == NX,
                    found is None ==> forall|k: int, l: int|
                        0 <= k < i && 0 <= l < NY ==> (#[trigger] self.stored(k, l)).count == 0,
                    found is None ==> forall|l: int|
                        0 <= l < j ==> (#[trigger] self.stored(i as int, l)).count == 0,
                    found matches Some((least, greatest)) ==> {
                        &&& least.count > 0
                        &&& greatest.count > 0
                        &&& exists|k: int, l: int|
                            0 <= k < NX && 0 <= l < NY && #[trigger] self.stored(k, l) == least
                        &&& exists|k: int, l: int|
                            0 <= k < NX && 0 <= l < NY && #[trigger] self.stored(k, l) == greatest
                        &&& forall|k: int, l: int|
                            0 <= k < i && 0 <= l < NY && (#[trigger] self.stored(k, l)).count > 0
                                ==> least.mean_at_most(self.stored(k, l)) && self.stored(
                                k,
                                l,
                            ).mean_at_most(greatest)
                        &&& forall|l: int|
                            0 <= l < j && (#[trigger] self.stored(i as int, l)).count > 0
                                ==> least.mean_at_most(self.stored(i as int, l)) && self.stored(
                                i as int,
                                l,
                            ).mean_at_most(greatest)
                    },
                decreases NY - j,
            {
                let cell = self.columns[i].get(j);
                assert(cell == self.stored(i as int, j as int));
                if cell.count > 0 {
                    found = match found {
                        None => Some((cell, cell)),
                        Some((least, greatest)) => {
                            let below = !least.mean_le(&cell);
                            let above = !cell.mean_le(&greatest);
                            proof {
                                Average::mean_order(cell, least, greatest);
                                Average::mean_order(least, greatest, cell);
                                Average::mean_order(cell, cell, cell);
                                assert forall|k: int, l: int|
                                    0 <= k < NX && 0 <= l < NY && (#[trigger] self.stored(
                                        k,
                                        l,
                                    )).count > 0 implies (least.mean_at_most(self.stored(k, l))
                                    && below ==> cell.mean_at_most(self.stored(k, l))) && (
                                self.stored(k, l).mean_at_most(greatest) && above ==> self.stored(
                                    k,
                                    l,
                                ).mean_at_most(cell)) by {
                                    Average::mean_order(cell, least, self.stored(k, l));
                                    Average::mean_order(self.stored(k, l), greatest, cell);
                                }
                            }
                            Some(
                                (
                                    if below {
                                        cell
                                    } else {
                                        least
                                    },
                                    if above {
                                        cell
                                    } else {
                                        greatest
                                    },
                                ),
                            )
                        },
                    };
                }
                j += 1;
            }
            i += 1;
        }
        found
    }
}

impl<T: Cell, const NX: usize, const NY: usize> Clone for Layer<T, NX, NY> {
    fn clone(&self) -> (layer: Self)
        ensures
            layer@ == self@,
            layer.axis_x() == self.axis_x(),
            layer.axis_y() == self.axis_y(),
    {
        proof {
            use_type_invariant(self);
        }
        let mut columns: Vec<Column<T, NY>> = Vec::new();
        let mut i: usize = 0;
        while i < NX
            invariant
                i <= NX,
                self.columns@.len() == NX,
                columns@.len() == i,
                forall|k: int|
                    0 <= k < i ==> (#[trigger] columns@[k]).items() == self.columns@[k].items(),
            decreases NX - i,
        {
            columns.push(self.columns[i].duplicate());
            i += 1;
        }
        let layer = Layer { columns, range_x: self.range_x, range_y: self.range_y };
        assert(layer@ =~~= self@);
        layer
    }
}

/// A layer of flags, all unset.
pub fn boolean_layer<const NX: usize, const NY: usize>(
    range_x: (Scalar, Scalar),
    range_y: (Scalar, Scalar),
) -> (layer: Layer<bool, NX, NY>)
    ensures
        layer@ == blank_grid::<bool>(NX as int, NY as int),
        layer.axis_x() == range_x,
        layer.axis_y() == range_y,
{
    Layer::new(range_x, range_y)
}

/// A layer of counts, all zero.
pub fn count_layer<const NX: usize, const NY: usize>(
    range_x: (Scalar, Scalar),
    range_y: (Scalar, Scalar),
) -> (layer: Layer<i64, NX, NY>)
    ensures
        layer@ == blank_grid::<i64>(NX as int, NY as int),
        layer.axis_x() == range_x,
        layer.axis_y() == range_y,
{
    Layer::new(range_x, range_y)
}

/// A layer of running averages, all without samples.
pub fn average_layer<const NX: usize, const NY: usize>(
    range_x: (Scalar, Scalar),
    range_y: (Scalar, Scalar),
) -> (layer: Layer<Average, NX, NY>)
    ensures
        layer@ == blank_grid::<Average>(NX as int, NY as int),
        layer.axis_x() == range_x,
        layer.axis_y() == range_y,
{
    Layer::new(range_x, range_y)
}

/// Merging a blank grid into a grid leaves it as it was.
pub proof fn merge_blank_is_identity<T: Cell>(a: Grid<T::Value>, nx: int, ny: int)
    requires
        has_shape(a, nx, ny),
    ensures
        merged::<T>(a, blank_grid::<T>(nx, ny)) == a,
{
    let blank = blank_grid::<T>(nx, ny);
    assert forall|i: int, j: int| 0 <= i < nx && 0 <= j < ny implies T::joined(
        #[trigger] a[i][j],
        blank[i][j],
    ) == a[i][j] by {
        T::join_laws(a[i][j], a[i][j], a[i][j]);
    }
    assert(merged::<T>(a, blank) =~~= a);
}

/// A layer that nothing was written to can be merged into every layer of its
/// shape, and the merge changes no cell.
pub proof fn merge_fresh_layer_is_identity<T: Cell, const NX: usize, const NY: usize>(
    layer: Layer<T, NX, NY>,
    fresh: Layer<T, NX, NY>,
)
    requires
        fresh@ == blank_grid::<T>(NX as int, NY as int),
    ensures
        mergeable::<T>(layer@, fresh@),
        merged::<T>(layer@, fresh@) == layer@,
{
    assert forall|i: int, j: int| 0 <= i < NX && 0 <= j < NY implies T::fits(
        #[trigger] layer@[i][j],
        #[trigger] fresh@[i][j],
    ) by {
        T::blank_fits(layer.stored(i, j));
        assert(layer@[i][j] == layer.stored(i, j).value());
        assert(fresh@[i][j] == blank_grid::<T>(NX as int, NY as int)[i][j]);
    }
    merge_blank_is_identity::<T>(layer@, NX as int, NY as int);
}

/// The order of the two sides of a merge does not matter.
pub proof fn merge_is_commutative<T: Cell>(a: Grid<T::Value>, b: Grid<T::Value>, nx: int, ny: int)
    requires
        has_shape(a, nx, ny),
        has_shape(b, nx, ny),
    ensures
        merged::<T>(a, b) == merged::<T>(b, a),
{
    assert forall|i: int, j: int| 0 <= i < nx && 0 <= j < ny implies T::joined(
        #[trigger] a[i][j],
        #[trigger] b[i][j],
    ) == T::joined(b[i][j], a[i][j]) by {
        T::join_laws(a[i][j], b[i][j], a[i][j]);
    }
    assert(merged::<T>(a, b) =~~= merged::<T>(b, a));
}

/// Three grids of one shape merge to the same grid in every grouping and
/// order.
pub proof fn merge_is_associative<T: Cell>(
    a: Grid<T::Value>,
    b: Grid<T::Value>,
    c: Grid<T::Value>,
    nx: int,
    ny: int,
)
    requires
        has_shape(a, nx, ny),
        has_shape(b, nx, ny),
        has_shape(c, nx, ny),
    ensures
        merged::<T>(merged::<T>(a, b), c) == merged::<T>(a, merged::<T>(b, c)),
        merged::<T>(a, merged::<T>(b, c)) == merged::<T>(b, merged::<T>(a, c)),
{
    let left = merged::<T>(merged::<T>(a, b), c);
    let right = merged::<T>(a, merged::<T>(b, c));
    let swapped = merged::<T>(b, merged::<T>(a, c));
    assert forall|i: int, j: int| 0 <= i < nx && 0 <= j < ny implies #[trigger] left[i][j]
        == right[i][j] && right[i][j] == swapped[i][j] by {
        let x = a[i][j];
        let y = b[i][j];
        let z = c[i][j];
        T::join_laws(x, y, z);
        T::join_laws(y, x, z);
        assert(left[i][j] == T::joined(T::joined(x, y), z));
        assert(right[i][j] == T::joined(x, T::joined(y, z)));
        assert(swapped[i][j] == T::joined(y, T::joined(x, z)));
    }
    assert(left =~~= right);
    assert(right =~~= swapped);
}

/// A sample may be written before or after a merge: the merged grid is the
/// same.
pub proof fn write_commutes_with_merge<T: Cell>(
    a: Grid<T::Value>,
    b: Grid<T::Value>,
    nx: int,
    ny: int,
    i: int,
    j: int,
    v: T::Value,
)
    requires
        has_shape(a, nx, ny),
        has_shape(b, nx, ny),
        0 <= i < nx,
        0 <= j < ny,
    ensures
        merged::<T>(written::<T>(a, i, j, v), b) == written::<T>(merged::<T>(a, b), i, j, v),
        merged::<T>(a, written::<T>(b, i, j, v)) == written::<T>(merged::<T>(a, b), i, j, v),
{
    let target = written::<T>(merged::<T>(a, b), i, j, v);
    T::join_laws(a[i][j], v, b[i][j]);
    T::join_laws(v, b[i][j], v);
    T::join_laws(a[i][j], b[i][j], v);
    assert(merged::<T>(written::<T>(a, i, j, v), b) =~~= target);
    assert(merged::<T>(a, written::<T>(b, i, j, v)) =~~= target);
}

/// The colour of a pixel nothing was drawn on: white, as `0xRRGGBB`.
pub const BACKGROUND: u32 = 0xFFFFFF;

/// The error type of the `image` crate, carried through as an opaque value.
#[verifier::external_type_specification]
#[verifier::external_body]
pub struct ExImageError(image::ImageError);

/// Why an image could not be turned into a PNG file.
#[derive(Clone, Copy, Debug, PartialEq, Eq, Structural)]
pub enum PngError {
    /// A side of the image does not fit in 32 bits.
    TooLarge,
    /// The encoder refused the image: it has no pixels.
    Encoding,
}

/// The red, green, blue and alpha byte of a pixel given as `0xRRGGBB`; the
/// alpha byte is always 255.
pub open spec fn pixel_bytes(pixel: u32) -> Seq<u8> {
    seq![
        ((pixel >> 16) & 0xFF) as u8,
        ((pixel >> 8) & 0xFF) as u8,
        (pixel & 0xFF) as u8,
        255u8,
    ]
}

/// The bytes of the first `n` pixels of row `y`.
pub open spec fn row_bytes(grid: Grid<u32>, y: int, n: nat) -> Seq<u8>
    decreases n,
{
    if n == 0 {
        Seq::empty()
    } else {
        row_bytes(grid, y, (n - 1) as nat) + pixel_bytes(grid[n - 1][y])
    }
}

/// The bytes of the first `m` rows of a grid with `nx` columns, row by row.
pub open spec fn image_bytes(grid: Grid<u32>, nx: nat, m: nat) -> Seq<u8>
    decreases m,
{
    if m == 0 {
        Seq::empty()
    } else {
        image_bytes(grid, nx, (m - 1) as nat) + row_bytes(grid, m - 1, nx)
    }
}

/// A row of `n` pixels takes `4 n` bytes.
pub proof fn row_bytes_len(grid: Grid<u32>, y: int, n: nat)
    ensures
        row_bytes(grid, y, n).len() == 4 * n,
    decreases n,
{
    if n > 0 {
        row_bytes_len(grid, y, (n - 1) as nat);
    }
}

/// `m` rows of `nx` pixels take `4 nx m` bytes.
pub proof fn image_bytes_len(grid: Grid<u32>, nx: nat, m: nat)
    ensures
        image_bytes(grid, nx, m).len() == 4 * nx * m,
    decreases m,
{
    if m > 0 {
        image_bytes_len(grid, nx, (m - 1) as nat);
        row_bytes_len(grid, m - 1, nx);
        assert(4 * nx * (m - 1) + 4 * nx == 4 * nx * m) by (nonlinear_arith);
    } else {
        assert(4 * nx * m == 0) by (nonlinear_arith)
            requires
                m == 0,
        ;
    }
}

/// The PNG file that the `image` crate's encoder writes for an image of the
/// given width and height whose pixels are the given RGBA bytes, row by row.
pub uninterp spec fn png_encoding(width: u32, height: u32, rgba: Seq<u8>) -> Seq<u8>;

/// Calls `image::codecs::png::PngEncoder::write_image` on an encoder that
/// writes into memory, with the colour type `Rgba8`.
///
/// Claimed of it: it fails for an image without pixels, whose width or
/// height is zero, and for no other; where it succeeds, the bytes written
/// are a function of the width, the height and the pixel bytes alone. The
/// encoder stops the program on a buffer of another length than four bytes
/// per pixel, so that length is demanded.
#[verifier::external_body]
fn encode_png(width: u32, height: u32, rgba: &Vec<u8>) -> (result: Result<
    Vec<u8>,
    image::ImageError,
>)
    requires
        rgba@.len() == 4 * width * height,
    ensures
        result matches Ok(bytes) ==> bytes@ == png_encoding(width, height, rgba@),
        result is Ok ==> (width > 0 && height > 0),
        result is Err ==> (width == 0 || height == 0),
{
    let mut out: Vec<u8> = Vec::new();
    let encoder = image::codecs::png::PngEncoder::new(&mut out);
    match image::ImageEncoder::write_image(
        encoder,
        rgba.as_slice(),
        width,
        height,
        image::ExtendedColorType::Rgba8,
    ) {
        Ok(()) => Ok(out),
        Err(e) => Err(e),
    }
}

/// What [`Image::save_to_png`] hands back for what the encoder returned.
pub fn png_outcome(encoded: Result<Vec<u8>, image::ImageError>) -> (result: Result<
    Vec<u8>,
    PngError,
>)
    ensures
        encoded matches Ok(bytes) ==> result == Ok::<Vec<u8>, PngError>(bytes),
        encoded is Err ==> result == Err::<Vec<u8>, PngError>(PngError::Encoding),
{
    match encoded {
        Ok(bytes) => Ok(bytes),
        Err(_) => Err(PngError::Encoding),
    }
}

/// The colour of a pixel after a value was drawn on it: a negative value
/// leaves the pixel as it was, any other is the new colour.
pub open spec fn painted(before: u32, value: i32) -> u32 {
    if value < 0 {
        before
    } else {
        value as u32
    }
}

/// `after` is the pixel `before` with a value drawn on it that `transformer`
/// can give for `cell`.
pub open spec fn drawn<T, F: Fn(&T) -> i32>(transformer: F, cell: T, before: u32, after: u32)
    -> bool {
    exists|value: i32| call_ensures(transformer, (&cell,), value) && after == painted(before, value)
}

/// `after` is the pixel `before` with two counts drawn on it: left as it
/// was where both counts are zero, else a colour that `blend` can give for
/// the two counts.
pub open spec fn blended<F: Fn(i64, i64) -> u32>(
    blend: F,
    first: i64,
    second: i64,
    before: u32,
    after: u32,
) -> bool {
    if first == 0 && second == 0 {
        after == before
    } else {
        call_ensures(blend, (first, second), after)
    }
}

/// `after` is the pixel `before` with an average drawn on it: left as it
/// was where the average has no samples, else a colour that `shade` can
/// give for the average between the two extremes.
pub open spec fn shaded<F: Fn(Average, Average, Average) -> u32>(
    shade: F,
    cell: Average,
    extremes: Option<(Average, Average)>,
    before: u32,
    after: u32,
) -> bool {
    if cell.count == 0 {
        after == before
    } else {
        extremes matches Some((least, greatest)) && call_ensures(
            shade,
            (cell, least, greatest),
            after,
        )
    }
}

/// `picture` shows `layer` as a gradient on a white ground between the
/// given extremes: every pixel whose cell has samples in a colour that
/// `shade` can give for the cell, and the extremes are the cells with the
/// least and the greatest mean, or `None` where no cell has samples.
pub open spec fn gradient_between<
    F: Fn(Average, Average, Average) -> u32,
    const NX: usize,
    const NY: usize,
>(shade: F, layer: Layer<Average, NX, NY>, extremes: Option<(Average, Average)>, picture: Grid<u32>)
    -> bool {
    &&& extremes is None <==> !layer.has_samples()
    &&& extremes matches Some((least, greatest)) ==> layer.spans(least, greatest)
    &&& forall|k: int, l: int|
        0 <= k < NX && 0 <= l < NY ==> shaded(
            shade,
            #[trigger] layer.stored(k, l),
            extremes,
            BACKGROUND,
            picture[k][l],
        )
}

/// `picture` shows `layer` as a gradient on a white ground.
pub open spec fn gradient_of<F: Fn(Average, Average, Average) -> u32, const NX: usize, const NY: usize>(
    shade: F,
    layer: Layer<Average, NX, NY>,
    picture: Grid<u32>,
) -> bool {
    exists|extremes: Option<(Average, Average)>|
        gradient_between(shade, layer, extremes, picture)
}

/// A grid of `NX` by `NY` pixels, each a colour `0xRRGGBB`.
pub struct Image<const NX: usize, const NY: usize> {
    columns: Vec<Column<u32, NY>>,
}

impl<const NX: usize, const NY: usize> Image<NX, NY> {
    #[verifier::type_invariant]
    spec fn full(self) -> bool {
        self.columns@.len() == NX
    }

    /// The colour of the pixel at column `i`, row `j`.
    pub closed spec fn pixel(self, i: int, j: int) -> u32 {
        self.columns@[i].items()[j]
    }

    /// The pixels as a grid of `NX` columns and `NY` rows.
    pub open spec fn view(self) -> Grid<u32> {
        Seq::new(NX as nat, |i: int| Seq::new(NY as nat, |j: int| self.pixel(i, j)))
    }

    /// The pixel data as the encoder takes it: four bytes per pixel, row by row.
    pub open spec fn rgba(self) -> Seq<u8> {
        image_bytes(self@, NX as nat, NY as nat)
    }

    /// An image with every pixel white.
    pub fn new() -> (image: Self)
        ensures
            image@ == Seq::new(NX as nat, |i: int| Seq::new(NY as nat, |j: int| BACKGROUND)),
    {
        let mut columns: Vec<Column<u32, NY>> = Vec::new();
        let mut i: usize = 0;
        while i < NX
            invariant
                i <= NX,
                columns@.len() == i,
                forall|k: int|
                    0 <= k < i ==> (#[trigger] columns@[k]).items() == Seq::new(
                        NY as nat,
                        |j: int| BACKGROUND,
                    ),
            decreases NX - i,
        {
            columns.push(Column::new(BACKGROUND));
            i += 1;
        }
        let image = Image { columns };
        assert(image@ =~~= Seq::new(NX as nat, |i: int| Seq::new(NY as nat, |j: int| BACKGROUND)));
        image
    }

    /// The colour at `(i, j)`, or `None` outside the image.
    pub fn get(&self, i: usize, j: usize) -> (pixel: Option<u32>)
        ensures
            i < NX && j < NY ==> pixel == Some(self@[i as int][j as int]),
            !(i < NX && j < NY) ==> pixel.is_none(),
    {
        proof {
            use_type_invariant(self);
        }
        if i < NX && j < NY {
            Some(self.columns[i].get(j))
        } else {
            None
        }
    }

    /// Paints the pixel at `(i, j)`. Outside the image nothing is painted,
    /// and `false` comes back.
    pub fn set(&mut self, i: usize, j: usize, color: u32) -> (inside: bool)
        ensures
            inside == (i < NX && j < NY),
            inside ==> final(self)@ == old(self)@.update(
                i as int,
                old(self)@[i as int].update(j as int, color),
            ),
            !inside ==> final(self)@ == old(self)@,
    {
        proof {
            use_type_invariant(&*self);
        }
        if i < NX && j < NY {
            self.columns[i].set(j, color);
            assert(self@ =~~= old(self)@.update(
                i as int,
                old(self)@[i as int].update(j as int, color),
            ));
            true
        } else {
            assert(self@ =~~= old(self)@);
            false
        }
    }

    /// Draws on every pixel what `transformer` makes of the cell of `layer`
    /// at the same place: a colour, or a negative number to leave the pixel.
    pub fn draw_layer<T: Cell, F: Fn(&T) -> i32>(
        &mut self,
        layer: &Layer<T, NX, NY>,
        transformer: &F,
    )
        requires
            forall|cell: T| call_requires(*transformer, (&cell,)),
        ensures
            forall|i: int, j: int|
                0 <= i < NX && 0 <= j < NY ==> drawn(
                    *transformer,
                    layer.stored(i, j),
                    old(self)@[i][j],
                    #[trigger] final(self)@[i][j],
                ),
    {
        proof {
            use_type_invariant(&*self);
            use_type_invariant(layer);
        }
        let mut i: usize = 0;
        while i < NX
            invariant
                i <= NX,
                self.columns@.len() == NX,
                layer.columns@.len() == NX,
                forall|cell: T| call_requires(*transformer, (&cell,)),
                forall|k: int, l: int|
                    0 <= k < i && 0 <= l < NY ==> drawn(
                        *transformer,
                        layer.stored(k, l),
                        old(self).pixel(k, l),
                        #[trigger] self.pixel(k, l),
                    ),
                forall|k: int, l: int|
                    i <= k < NX && 0 <= l < NY ==> #[trigger] self.pixel(k, l) == old(self).pixel(
                        k,
                        l,
                    ),
            decreases NX - i,
        {
            let mut j: usize = 0;
            while j < NY
                invariant
                    i < NX,
                    j <= NY,
                    self.columns@.len() == NX,
                    layer.columns@.len() == NX,
                    forall|cell: T| call_requires(*transformer, (&cell,)),
                    forall|k: int, l: int|
                        0 <= k < i && 0 <= l < NY ==> drawn(
                            *transformer,
                            layer.stored(k, l),
                            old(self).pixel(k, l),
                            #[trigger] self.pixel(k, l),
                        ),
                    forall|k: int, l: int|
                        i < k < NX && 0 <= l < NY ==> #[trigger] self.pixel(k, l) == old(
                            self,
                        ).pixel(k, l),
                    forall|l: int|
                        0 <= l < j ==> drawn(
                            *transformer,
                            layer.stored(i as int, l),
                            old(self).pixel(i as int, l),
                            #[trigger] self.pixel(i as int, l),
                        ),
                    forall|l: int|
                        j <= l < NY ==> #[trigger] self.pixel(i as int, l) == old(self).pixel(
                            i as int,
                            l,
                        ),
                decreases NY - j,
            {
                let ghost before = *self;
                let cell = layer.columns[i].get(j);
                let transformed = transformer(&cell);
                if transformed >= 0 {
                    self.columns[i].set(j, transformed as u32);
                }
                assert forall|k: int, l: int| 0 <= k < NX && 0 <= l < NY implies #[trigger] self.pixel(
                    k,
                    l,
                ) == if k == i && l == j {
                    painted(before.pixel(k, l), transformed)
                } else {
                    before.pixel(k, l)
                } by {}
                j += 1;
            }
            i += 1;
        }
    }

    /// Draws two layers of counts as one picture: every pixel with a count
    /// in one of the layers gets the colour that `blend` makes of the two
    /// counts, and every other pixel stays as it is.
    pub fn draw_count_layers<F: Fn(i64, i64) -> u32>(
        &mut self,
        layer1: &Layer<i64, NX, NY>,
        layer2: &Layer<i64, NX, NY>,
        blend: &F,
    )
        requires
            forall|first: i64, second: i64| call_requires(*blend, (first, second)),
        ensures
            forall|i: int, j: int|
                0 <= i < NX && 0 <= j < NY ==> blended(
                    *blend,
                    layer1.stored(i, j),
                    layer2.stored(i, j),
                    old(self)@[i][j],
                    #[trigger] final(self)@[i][j],
                ),
    {
        proof {
            use_type_invariant(&*self);
            use_type_invariant(layer1);
            use_type_invariant(layer2);
        }
        let mut i: usize = 0;
        while i < NX
            invariant
                i <= NX,
                self.columns@.len() == NX,
                layer1.columns@.len() == NX,
                layer2.columns@.len() == NX,
                forall|first: i64, second: i64| call_requires(*blend, (first, second)),
                forall|k: int, l: int|
                    0 <= k < i && 0 <= l < NY ==> blended(
                        *blend,
                        layer1.stored(k, l),
                        layer2.stored(k, l),
                        old(self).pixel(k, l),
                        #[trigger] self.pixel(k, l),
                    ),
                forall|k: int, l: int|
                    i <= k < NX && 0 <= l < NY ==> #[trigger] self.pixel(k, l) == old(self).pixel(
                        k,
                        l,
                    ),
            decreases NX - i,
        {
            let mut j: usize = 0;
            while j < NY
                invariant
                    i < NX,
                    j <= NY,
                    self.columns@.len() == NX,
                    layer1.columns@.len() == NX,
                    layer2.columns@.len() == NX,
                    forall|first: i64, second: i64| call_requires(*blend, (first, second)),
                    forall|k: int, l: int|
                        0 <= k < i && 0 <= l < NY ==> blended(
                            *blend,
                            layer1.stored(k, l),
                            layer2.stored(k, l),
                            old(self).pixel(k, l),
                            #[trigger] self.pixel(k, l),
                        ),
                    forall|k: int, l: int|
                        i < k < NX && 0 <= l < NY ==> #[trigger] self.pixel(k, l) == old(
                            self,
                        ).pixel(k, l),
                    forall|l: int|
                        0 <= l < j ==> blended(
                            *blend,
                            layer1.stored(i as int, l),
                            layer2.stored(i as int, l),
                            old(self).pixel(i as int, l),
                            #[trigger] self.pixel(i as int, l),
                        ),
                    forall|l: int|
                        j <= l < NY ==> #[trigger] self.pixel(i as int, l) == old(self).pixel(
                            i as int,
                            l,
                        ),
                decreases NY - j,
            {
                let ghost before = *self;
                let count1 = layer1.columns[i].get(j);
                let count2 = layer2.columns[i].get(j);
                if count1 != 0 || count2 != 0 {
                    let color = blend(count1, count2);
                    self.columns[i].set(j, color);
                }
                assert forall|k: int, l: int| 0 <= k < NX && 0 <= l < NY && !(k == i && l == j)
                    implies #[trigger] self.pixel(k, l) == before.pixel(k, l) by {}
                j += 1;
            }
            i += 1;
        }
    }

    /// Draws a layer of averages as a gradient: every pixel whose cell has
    /// samples gets the colour that `shade` makes of the cell, given the
    /// cells with the least and the greatest mean of the layer; every other
    /// pixel stays as it is. Gives the two extremes, or `None` where no cell
    /// has samples.
    pub fn draw_gradient_layer<F: Fn(Average, Average, Average) -> u32>(
        &mut self,
        layer: &Layer<Average, NX, NY>,
        shade: &F,
    ) -> (extremes: Option<(Average, Average)>)
        requires
            forall|cell: Average, least: Average, greatest: Average|
                call_requires(*shade, (cell, least, greatest)),
        ensures
            extremes is None <==> !layer.has_samples(),
            extremes matches Some((least, greatest)) ==> layer.spans(least, greatest),
            forall|i: int, j: int|
                0 <= i < NX && 0 <= j < NY ==> shaded(
                    *shade,
                    layer.stored(i, j),
                    extremes,
                    old(self)@[i][j],
                    #[trigger] final(self)@[i][j],
                ),
    {
        proof {
            use_type_invariant(&*self);
            use_type_invariant(layer);
        }
        let extremes = layer.extremes();
        let (least, greatest) = match extremes {
            Some(extremes) => extremes,
            None => {
                assert forall|i: int, j: int| 0 <= i < NX && 0 <= j < NY implies shaded(
                    *shade,
                    layer.stored(i, j),
                    extremes,
                    old(self)@[i][j],
                    #[trigger] self@[i][j],
                ) by {
                    assert(layer.stored(i, j).count == 0);
                }
                return None;
            },
        };
        let mut i: usize = 0;
        while i < NX
            invariant
                i <= NX,
                self.columns@.len() == NX,
                layer.columns@.len() == NX,
                extremes == Some((least, greatest)),
                forall|cell: Average, least: Average, greatest: Average|
                    call_requires(*shade, (cell, least, greatest)),
                forall|k: int, l: int|
                    0 <= k < i && 0 <= l < NY ==> shaded(
                        *shade,
                        layer.stored(k, l),
                        extremes,
                        old(self).pixel(k, l),
                        #[trigger] self.pixel(k, l),
                    ),
                forall|k: int, l: int|
                    i <= k < NX && 0 <= l < NY ==> #[trigger] self.pixel(k, l) == old(self).pixel(
                        k,
                        l,
                    ),
            decreases NX - i,
        {
            let mut j: usize = 0;
            while j < NY
                invariant
                    i < NX,
                    j <= NY,
                    self.columns@.len() == NX,
                    layer.columns@.len() == NX,
                    extremes == Some((least, greatest)),
                    forall|cell: Average, least: Average, greatest: Average|
                        call_requires(*shade, (cell, least, greatest)),
                    forall|k: int, l: int|
                        0 <= k < i && 0 <= l < NY ==> shaded(
                            *shade,
                            layer.stored(k, l),
                            extremes,
                            old(self).pixel(k, l),
                            #[trigger] self.pixel(k, l),
                        ),
                    forall|k: int, l: int|
                        i < k < NX && 0 <= l < NY ==> #[trigger] self.pixel(k, l) == old(
                            self,
                        ).pixel(k, l),
                    forall|l: int|
                        0 <= l < j ==> shaded(
                            *shade,
                            layer.stored(i as int, l),
                            extremes,
                            old(self).pixel(i as int, l),
                            #[trigger] self.pixel(i as int, l),
                        ),
                    forall|l: int|
                        j <= l < NY ==> #[trigger] self.pixel(i as int, l) == old(self).pixel(
                            i as int,
                            l,
                        ),
                decreases NY - j,
            {
                let ghost before = *self;
                let cell = layer.columns[i].get(j);
                if cell.count > 0 {
                    let color = shade(cell, least, greatest);
                    self.columns[i].set(j, color);
                }
                assert forall|k: int, l: int| 0 <= k < NX && 0 <= l < NY && !(k == i && l == j)
                    implies #[trigger] self.pixel(k, l) == before.pixel(k, l) by {}
                j += 1;
            }
            i += 1;
        }
        extremes
    }

    /// Paints `color` on every pixel whose flag in `layer` is set.
    pub fn draw_boolean_layer(&mut self, layer: &Layer<bool, NX, NY>, color: u32)
        ensures
            final(self)@ == Seq::new(
                NX as nat,
                |i: int|
                    Seq::new(
                        NY as nat,
                        |j: int|
                            if layer@[i][j] {
                                color
                            } else {
                                old(self)@[i][j]
                            },
                    ),
            ),
    {
        proof {
            use_type_invariant(&*self);
            use_type_invariant(layer);
        }
        let mut i: usize = 0;
        while i < NX
            invariant
                i <= NX,
                self.columns@.len() == NX,
                layer.columns@.len() == NX,
                forall|k: int, l: int|
                    0 <= k < i && 0 <= l < NY ==> #[trigger] self.pixel(k, l) == if layer.stored(
                        k,
                        l,
                    ) {
                        color
                    } else {
                        old(self).pixel(k, l)
                    },
                forall|k: int, l: int|
                    i <= k < NX && 0 <= l < NY ==> #[trigger] self.pixel(k, l) == old(self).pixel(
                        k,
                        l,
                    ),
            decreases NX - i,
        {
            let mut j: usize = 0;
            while j < NY
                invariant
                    i < NX,
                    j <= NY,
                    self.columns@.len() == NX,
                    layer.columns@.len() == NX,
                    forall|k: int, l: int|
                        0 <= k < i && 0 <= l < NY ==> #[trigger] self.pixel(k, l)
                            == if layer.stored(k, l) {
                            color
                        } else {
                            old(self).pixel(k, l)
                        },
                    forall|k: int, l: int|
                        i < k < NX && 0 <= l < NY ==> #[trigger] self.pixel(k, l) == old(
                            self,
                        ).pixel(k, l),
                    forall|l: int|
                        0 <= l < j ==> #[trigger] self.pixel(i as int, l) == if layer.stored(
                            i as int,
                            l,
                        ) {
                            color
                        } else {
                            old(self).pixel(i as int, l)
                        },
                    forall|l: int|
                        j <= l < NY ==> #[trigger] self.pixel(i as int, l) == old(self).pixel(
                            i as int,
                            l,
                        ),
                decreases NY - j,
            {
                let ghost before = *self;
                if layer.columns[i].get(j) {
                    self.columns[i].set(j, color);
                }
                assert forall|k: int, l: int| 0 <= k < NX && 0 <= l < NY implies #[trigger] self.pixel(
                    k,
                    l,
                ) == if k == i && l == j && layer.stored(k, l) {
                    color
                } else {
                    before.pixel(k, l)
                } by {}
                j += 1;
            }
            i += 1;
        }
        assert(self@ =~~= Seq::new(
            NX as nat,
            |i: int|
                Seq::new(
                    NY as nat,
                    |j: int|
                        if layer@[i][j] {
                            color
                        } else {
                            old(self)@[i][j]
                        },
                ),
        ));
    }

    fn row_rgba(&self, y: usize, out: &mut Vec<u8>)
        requires
            y < NY,
        ensures
            final(out)@ == old(out)@ + row_bytes(self@, y as int, NX as nat),
    {
        proof {
            use_type_invariant(self);
        }
        let mut x: usize = 0;
        while x < NX
            invariant
                x <= NX,
                y < NY,
                self.columns@.len() == NX,
                out@ == old(out)@ + row_bytes(self@, y as int, x as nat),
            decreases NX - x,
        {
            let pixel = self.columns[x].get(y);
            let ghost before = out@;
            out.push(((pixel >> 16) & 0xFF) as u8);
            out.push(((pixel >> 8) & 0xFF) as u8);
            out.push((pixel & 0xFF) as u8);
            out.push(255u8);
            proof {
                assert(pixel == self@[x as int][y as int]);
                assert(out@ =~= before + pixel_bytes(pixel));
                assert(row_bytes(self@, y as int, (x + 1) as nat) == row_bytes(
                    self@,
                    y as int,
                    x as nat,
                ) + pixel_bytes(pixel));
                assert(out@ =~= old(out)@ + row_bytes(self@, y as int, (x + 1) as nat));
            }
            x += 1;
        }
    }

    /// The pixel data as the encoder takes it.
    pub fn to_rgba(&self) -> (bytes: Vec<u8>)
        ensures
            bytes@ == self.rgba(),
            bytes@.len() == 4 * NX * NY,
    {
        let mut bytes: Vec<u8> = Vec::new();
        let mut y: usize = 0;
        while y < NY
            invariant
                y <= NY,
                bytes@ == image_bytes(self@, NX as nat, y as nat),
            decreases NY - y,
        {
            self.row_rgba(y, &mut bytes);
            y += 1;
        }
        proof {
            image_bytes_len(self@, NX as nat, NY as nat);
        }
        bytes
    }

    /// The image as a PNG file: the bytes to write to disk.
    ///
    /// An image with a side beyond 32 bits is refused as too large, and the
    /// encoder refuses an image without pixels. Every other image gives the
    /// encoding of its width `NX`, its height `NY` and its pixel data.
    pub fn save_to_png(&self) -> (result: Result<Vec<u8>, PngError>)
        ensures
            !(NX <= u32::MAX && NY <= u32::MAX) ==> result == Err::<Vec<u8>, PngError>(
                PngError::TooLarge,
            ),
            NX <= u32::MAX && NY <= u32::MAX && (NX == 0 || NY == 0) ==> result == Err::<
                Vec<u8>,
                PngError,
            >(PngError::Encoding),
            0 < NX <= u32::MAX && 0 < NY <= u32::MAX ==> result is Ok && result.unwrap()@
                == png_encoding(NX as u32, NY as u32, self.rgba()),
    {
        if NX > u32::MAX as usize || NY > u32::MAX as usize {
            return Err(PngError::TooLarge);
        }
        let rgba = self.to_rgba();
        png_outcome(encode_png(NX as u32, NY as u32, &rgba))
    }
}

impl<const NX: usize, const NY: usize> Clone for Image<NX, NY> {
    fn clone(&self) -> (image: Self)
        ensures
            image@ == self@,
    {
        proof {
            use_type_invariant(self);
        }
        let mut columns: Vec<Column<u32, NY>> = Vec::new();
        let mut i: usize = 0;
        while i < NX
            invariant
                i <= NX,
                self.columns@.len() == NX,
                columns@.len() == i,
                forall|k: int|
                    0 <= k < i ==> (#[trigger] columns@[k]).items() == self.columns@[k].items(),
            decreases NX - i,
        {
            columns.push(self.columns[i].duplicate());
            i += 1;
        }
        let image = Image { columns };
        assert(image@ =~~= self@);
        image
    }
}

} // verus!
