//! Marks, for one pair of axes, where the vacuum broke, with one layer for
//! each kind of direction of a breaking into the allowed region and one for
//! the breakings into the disallowed region.

use vstd::prelude::*;
use crate::scanner::consumer::{CouplingRanges, GridPoint, ScanConsumer};
use crate::simulation::IntegrationResult;
use crate::util::image::{
    blank_grid, clamped, has_shape, merge_blank_is_identity, merge_is_associative,
    merge_is_commutative, merged, placed, write_commutes_with_merge, Grid, Image, Layer, BACKGROUND,
};
use crate::util::scalar::Scalar;
use crate::util::stability::{Direction, FinalStabilityResult, StabilityResult};

verus! {

/// The number of layers: one for each kind of direction, and one for the
/// disallowed region.
pub const SLOTS: usize = 6;

/// The slot of the layer for the breakings into the disallowed region.
pub const DISALLOWED_SLOT: usize = 5;

/// The slot of the layer for a kind of direction.
pub open spec fn slot_of(kind: Direction) -> int {
    match kind {
        Direction::FirstVanishes => 0,
        Direction::SecondVanishes => 1,
        Direction::ThirdVanishes => 2,
        Direction::LastTwoAgree => 3,
        Direction::Generic => 4,
    }
}

/// The colour that the layer in a slot is drawn in.
pub open spec fn slot_color(slot: int) -> u32 {
    if slot == 0 {
        0xFFFF00
    } else if slot == 1 {
        0x0000FF
    } else if slot == 2 {
        0x00FFFF
    } else if slot == 3 {
        0x000000
    } else if slot == 4 {
        0x00FF00
    } else {
        0xFF0000
    }
}

/// The slot that a result is marked in, or `None` where it is marked nowhere.
pub open spec fn target_slot(result: IntegrationResult) -> Option<int> {
    match result {
        IntegrationResult::Broken(_, FinalStabilityResult::UnstableAllowed(violation)) => {
            match violation.first_witness() {
                Some(witness) => Some(slot_of(witness.kind())),
                None => None,
            }
        },
        IntegrationResult::Broken(_, FinalStabilityResult::UnstableDisallowed(_)) => Some(
            DISALLOWED_SLOT as int,
        ),
        _ => None,
    }
}

/// The colour of a cell: that of the disallowed layer where it is marked
/// there, else that of the first slot in which the cell is marked, else the
/// background.
pub open spec fn multi_special_color(layers: Seq<Grid<bool>>, k: int, l: int) -> u32 {
    if layers[5][k][l] {
        slot_color(5)
    } else if layers[0][k][l] {
        slot_color(0)
    } else if layers[1][k][l] {
        slot_color(1)
    } else if layers[2][k][l] {
        slot_color(2)
    } else if layers[3][k][l] {
        slot_color(3)
    } else if layers[4][k][l] {
        slot_color(4)
    } else {
        BACKGROUND
    }
}

/// The picture of the layers.
pub open spec fn multi_special_picture(layers: Seq<Grid<bool>>, nx: int, ny: int) -> Grid<u32> {
    Seq::new(
        nx as nat,
        |k: int| Seq::new(ny as nat, |l: int| multi_special_color(layers, k, l)),
    )
}

/// Collects breakings over the plane of two chosen axes, by kind of direction.
pub struct MultiSpecialAllowedConsumer<const N: usize, const NX: usize, const NY: usize> {
    layers: Vec<Layer<bool, NX, NY>>,
    index_x: usize,
    index_y: usize,
}

impl<const N: usize, const NX: usize, const NY: usize> MultiSpecialAllowedConsumer<N, NX, NY> {
    #[verifier::type_invariant]
    spec fn complete(self) -> bool {
        &&& self.layers@.len() == SLOTS
        &&& self.index_x < N
        &&& self.index_y < N
    }

    /// The grids of the six layers, by slot.
    pub closed spec fn grids(self) -> Seq<Grid<bool>> {
        Seq::new(SLOTS as nat, |k: int| self.layers@[k]@)
    }

    /// The two axes of the plane: the one along `x` and the one along `y`.
    pub closed spec fn axes(self) -> (usize, usize) {
        (self.index_x, self.index_y)
    }

    /// The ranges that the layers cover, each as the range along `x` and the
    /// range along `y`, in the order of the layers.
    pub closed spec fn ranges_of(self) -> Seq<((Scalar, Scalar), (Scalar, Scalar))> {
        Seq::new(SLOTS as nat, |k: int| (self.layers@[k].axis_x(), self.layers@[k].axis_y()))
    }

    /// A consumer for the plane of the axes `index_x` and `index_y` that has
    /// seen no sample: every layer covers the range of axis `index_x` along
    /// `x` and that of axis `index_y` along `y`.
    pub fn new(ranges: CouplingRanges<N>, index_x: usize, index_y: usize) -> (consumer: Self)
        requires
            index_x < N,
            index_y < N,
        ensures
            consumer.grids() == Self::fresh(),
            consumer.axes() == (index_x, index_y),
            consumer.ranges_of() == Seq::new(
                SLOTS as nat,
                |k: int| (ranges[index_x as int], ranges[index_y as int]),
            ),
    {
        let mut layers: Vec<Layer<bool, NX, NY>> = Vec::new();
        let mut k: usize = 0;
        while k < SLOTS
            invariant
                k <= SLOTS,
                index_x < N,
                index_y < N,
                layers@.len() == k,
                forall|i: int|
                    0 <= i < k ==> (#[trigger] layers@[i])@ == blank_grid::<bool>(
                        NX as int,
                        NY as int,
                    ),
                forall|i: int|
                    0 <= i < k ==> (#[trigger] layers@[i]).axis_x() == ranges[index_x as int]
                        && layers@[i].axis_y() == ranges[index_y as int],
            decreases SLOTS - k,
        {
            layers.push(Layer::new(ranges[index_x], ranges[index_y]));
            k += 1;
        }
        let consumer = MultiSpecialAllowedConsumer { layers, index_x, index_y };
        assert(consumer.grids() =~= Self::fresh());
        assert(consumer.ranges_of() =~= Seq::new(
            SLOTS as nat,
            |k: int| (ranges[index_x as int], ranges[index_y as int]),
        ));
        consumer
    }

    /// The picture of the six layers.
    pub fn render(&self) -> (image: Image<NX, NY>)
        ensures
            image@ == multi_special_picture(self.grids(), NX as int, NY as int),
    {
        proof {
            use_type_invariant(self);
        }
        let mut image: Image<NX, NY> = Image::new();
        image.draw_boolean_layer(&self.layers[4], 0x00FF00);
        image.draw_boolean_layer(&self.layers[3], 0x000000);
        image.draw_boolean_layer(&self.layers[2], 0x00FFFF);
        image.draw_boolean_layer(&self.layers[1], 0x0000FF);
        image.draw_boolean_layer(&self.layers[0], 0xFFFF00);
        image.draw_boolean_layer(&self.layers[5], 0xFF0000);
        assert(image@ =~~= multi_special_picture(self.grids(), NX as int, NY as int));
        image
    }

    fn mark(&mut self, slot: usize, point: GridPoint<N>)
        requires
            slot < SLOTS,
        ensures
            final(self).axes() == old(self).axes(),
            final(self).ranges_of() == old(self).ranges_of(),
            final(self).grids() == old(self).grids().update(
                slot as int,
                placed::<bool>(
                    old(self).grids()[slot as int],
                    point.x[old(self).axes().0 as int] as int,
                    point.y[old(self).axes().1 as int] as int,
                    NX as int,
                    NY as int,
                    true,
                ),
            ),
    {
        proof {
            use_type_invariant(&*self);
        }
        let x = point.x[self.index_x];
        let y = point.y[self.index_y];
        self.layers[slot].write(x, y, true);
        assert(self.ranges_of() =~= old(self).ranges_of());
        assert(self.grids() =~= old(self).grids().update(
            slot as int,
            placed::<bool>(
                old(self).grids()[slot as int],
                x as int,
                y as int,
                NX as int,
                NY as int,
                true,
            ),
        ));
    }
}

impl<const N: usize, const NX: usize, const NY: usize> ScanConsumer<
    N,
> for MultiSpecialAllowedConsumer<N, NX, NY> {
    type State = Seq<Grid<bool>>;

    type Setup = (usize, usize);

    open spec fn state(&self) -> Seq<Grid<bool>> {
        self.grids()
    }

    open spec fn setup(&self) -> (usize, usize) {
        self.axes()
    }

    open spec fn fresh() -> Seq<Grid<bool>> {
        Seq::new(SLOTS as nat, |k: int| blank_grid::<bool>(NX as int, NY as int))
    }

    open spec fn valid(state: Seq<Grid<bool>>) -> bool {
        &&& state.len() == SLOTS
        &&& forall|k: int| 0 <= k < SLOTS ==> has_shape(#[trigger] state[k], NX as int, NY as int)
    }

    /// A breaking into the allowed region must come with a witness.
    open spec fn accepts(
        setup: (usize, usize),
        state: Seq<Grid<bool>>,
        point: GridPoint<N>,
        result: IntegrationResult,
    ) -> bool {
        !(result matches IntegrationResult::Broken(
            _,
            FinalStabilityResult::UnstableAllowed(StabilityResult::Stable),
        ))
    }

    /// A breaking marks the sample's cell in the plane of the two axes, in
    /// the layer of its slot.
    open spec fn consumed(
        setup: (usize, usize),
        state: Seq<Grid<bool>>,
        point: GridPoint<N>,
        result: IntegrationResult,
    ) -> Seq<Grid<bool>> {
        match target_slot(result) {
            Some(slot) => state.update(
                slot,
                placed::<bool>(
                    state[slot],
                    point.x[setup.0 as int] as int,
                    point.y[setup.1 as int] as int,
                    NX as int,
                    NY as int,
                    true,
                ),
            ),
            None => state,
        }
    }

    open spec fn takes(a: Seq<Grid<bool>>, b: Seq<Grid<bool>>) -> bool {
        true
    }

    open spec fn combined(a: Seq<Grid<bool>>, b: Seq<Grid<bool>>) -> Seq<Grid<bool>> {
        Seq::new(a.len(), |k: int| merged::<bool>(a[k], b[k]))
    }

    fn can_consume(&self, point: GridPoint<N>, result: IntegrationResult) -> (ok: bool) {
        match result {
            IntegrationResult::Broken(
                _,
                FinalStabilityResult::UnstableAllowed(StabilityResult::Stable),
            ) => false,
            _ => true,
        }
    }

    fn consume(&mut self, point: GridPoint<N>, result: IntegrationResult)
        ensures
            final(self).ranges_of() == old(self).ranges_of(),
    {
        match result {
            IntegrationResult::Broken(_, FinalStabilityResult::UnstableAllowed(violation)) => {
                match violation.witness() {
                    Some(witness) => {
                        let slot: usize = match witness.classify() {
                            Direction::FirstVanishes => 0,
                            Direction::SecondVanishes => 1,
                            Direction::ThirdVanishes => 2,
                            Direction::LastTwoAgree => 3,
                            Direction::Generic => 4,
                        };
                        self.mark(slot, point);
                    },
                    None => {},
                }
            },
            IntegrationResult::Broken(_, FinalStabilityResult::UnstableDisallowed(_)) => {
                self.mark(DISALLOWED_SLOT, point);
            },
            _ => {},
        }
    }

    fn can_merge(&self, other: &Self) -> (ok: bool) {
        true
    }

    fn duplicate(&self) -> (copy: Self) {
        self.clone()
    }

    fn merge(&mut self, other: Self)
        ensures
            final(self).ranges_of() == old(self).ranges_of(),
    {
        proof {
            use_type_invariant(&*self);
            use_type_invariant(&other);
        }
        let mut k: usize = 0;
        while k < SLOTS
            invariant
                k <= SLOTS,
                self.layers@.len() == SLOTS,
                other.layers@.len() == SLOTS,
                old(self).layers@.len() == SLOTS,
                self.index_x == old(self).index_x,
                self.index_y == old(self).index_y,
                self.index_x < N,
                self.index_y < N,
                forall|i: int|
                    0 <= i < k ==> (#[trigger] self.layers@[i])@ == merged::<bool>(
                        old(self).layers@[i]@,
                        other.layers@[i]@,
                    ),
                forall|i: int| k <= i < SLOTS ==> (#[trigger] self.layers@[i])@ == old(self).layers@[i]@,
                forall|i: int|
                    0 <= i < SLOTS ==> (#[trigger] self.layers@[i]).axis_x() == old(
                        self,
                    ).layers@[i].axis_x() && self.layers@[i].axis_y() == old(
                        self,
                    ).layers@[i].axis_y(),
            decreases SLOTS - k,
        {
            self.layers[k].merge(&other.layers[k]);
            k += 1;
        }
        assert(self.grids() =~= Self::combined(old(self).grids(), other.grids()));
        assert(self.ranges_of() =~= old(self).ranges_of());
    }

    proof fn fresh_is_valid() {
    }

    proof fn validity_is_kept(
        setup: (usize, usize),
        a: Seq<Grid<bool>>,
        b: Seq<Grid<bool>>,
        point: GridPoint<N>,
        result: IntegrationResult,
    ) {
        let next = Self::consumed(setup, a, point, result);
        assert forall|k: int| 0 <= k < SLOTS implies has_shape(
            #[trigger] next[k],
            NX as int,
            NY as int,
        ) by {
            assert(has_shape(a[k], NX as int, NY as int));
        }
        let both = Self::combined(a, b);
        assert forall|k: int| 0 <= k < SLOTS implies has_shape(
            #[trigger] both[k],
            NX as int,
            NY as int,
        ) by {
            assert(has_shape(a[k], NX as int, NY as int));
        }
    }

    proof fn merge_laws(a: Seq<Grid<bool>>, b: Seq<Grid<bool>>, c: Seq<Grid<bool>>) {
        let (nx, ny) = (NX as int, NY as int);
        assert forall|k: int| 0 <= k < SLOTS implies {
            &&& merged::<bool>(#[trigger] a[k], blank_grid::<bool>(nx, ny)) == a[k]
            &&& merged::<bool>(a[k], b[k]) == merged::<bool>(b[k], a[k])
            &&& merged::<bool>(merged::<bool>(a[k], b[k]), c[k]) == merged::<bool>(
                a[k],
                merged::<bool>(b[k], c[k]),
            )
            &&& merged::<bool>(a[k], merged::<bool>(b[k], c[k])) == merged::<bool>(
                b[k],
                merged::<bool>(a[k], c[k]),
            )
        } by {
            assert(has_shape(a[k], nx, ny));
            assert(has_shape(b[k], nx, ny));
            assert(has_shape(c[k], nx, ny));
            merge_blank_is_identity::<bool>(a[k], nx, ny);
            merge_is_commutative::<bool>(a[k], b[k], nx, ny);
            merge_is_associative::<bool>(a[k], b[k], c[k], nx, ny);
        }
        assert(Self::combined(a, Self::fresh()) =~= a);
        assert(Self::combined(a, b) =~= Self::combined(b, a));
        assert(Self::combined(Self::combined(a, b), c) =~= Self::combined(
            a,
            Self::combined(b, c),
        ));
        assert(Self::combined(a, Self::combined(b, c)) =~= Self::combined(
            b,
            Self::combined(a, c),
        ));
    }

    proof fn consume_commutes_with_merge(
        setup: (usize, usize),
        a: Seq<Grid<bool>>,
        b: Seq<Grid<bool>>,
        point: GridPoint<N>,
        result: IntegrationResult,
    ) {
        let (nx, ny) = (NX as int, NY as int);
        let target = Self::consumed(setup, Self::combined(a, b), point, result);
        match target_slot(result) {
            Some(slot) => {
                assert(0 <= slot < SLOTS);
                assert(has_shape(a[slot], nx, ny));
                assert(has_shape(b[slot], nx, ny));
                if nx > 0 && ny > 0 {
                    write_commutes_with_merge::<bool>(
                        a[slot],
                        b[slot],
                        nx,
                        ny,
                        clamped(point.x[setup.0 as int] as int, nx),
                        clamped(point.y[setup.1 as int] as int, ny),
                        true,
                    );
                }
            },
            None => {},
        }
        assert(Self::combined(Self::consumed(setup, a, point, result), b) =~= target);
        assert(Self::combined(a, Self::consumed(setup, b, point, result)) =~= target);
    }
}

impl<const N: usize, const NX: usize, const NY: usize> Clone for MultiSpecialAllowedConsumer<
    N,
    NX,
    NY,
> {
    fn clone(&self) -> (consumer: Self)
        ensures
            consumer.grids() == self.grids(),
            consumer.axes() == self.axes(),
            consumer.ranges_of() == self.ranges_of(),
    {
        proof {
            use_type_invariant(self);
        }
        let mut layers: Vec<Layer<bool, NX, NY>> = Vec::new();
        let mut k: usize = 0;
        while k < SLOTS
            invariant
                k <= SLOTS,
                self.layers@.len() == SLOTS,
                layers@.len() == k,
                forall|i: int| 0 <= i < k ==> (#[trigger] layers@[i])@ == self.layers@[i]@,
                forall|i: int|
                    0 <= i < k ==> (#[trigger] layers@[i]).axis_x() == self.layers@[i].axis_x()
                        && layers@[i].axis_y() == self.layers@[i].axis_y(),
            decreases SLOTS - k,
        {
            layers.push(self.layers[k].clone());
            k += 1;
        }
        let consumer = MultiSpecialAllowedConsumer {
            layers,
            index_x: self.index_x,
            index_y: self.index_y,
        };
        assert(consumer.grids() =~= self.grids());
        assert(consumer.ranges_of() =~= self.ranges_of());
        consumer
    }
}

} // verus!
