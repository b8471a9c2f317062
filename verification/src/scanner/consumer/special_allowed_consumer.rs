//! Marks, for one pair of axes, where the vacuum broke: into the allowed
//! region along a generic direction, into it along a special direction, or
//! into the disallowed region.

use vstd::prelude::*;
use crate::scanner::consumer::{CouplingRanges, GridPoint, ScanConsumer};
use crate::simulation::IntegrationResult;
use crate::util::image::{
    blank_grid, clamped, has_shape, merge_blank_is_identity, merge_is_associative,
    merge_is_commutative, merged, placed, write_commutes_with_merge, Grid, Image, Layer, BACKGROUND,
};
use crate::util::scalar::Scalar;
use crate::util::stability::{Direction, FinalStabilityResult, StabilityResult};

verus! {

/// Colour of a cell with a breaking into the allowed region along a generic
/// direction.
pub const ALLOWED_COLOR: u32 = 0x00FF00;

/// Colour of a cell with a breaking into the allowed region along a special
/// direction.
pub const SUPER_COLOR: u32 = 0x0000FF;

/// Colour of a cell with a breaking into the disallowed region.
pub const DISALLOWED_COLOR: u32 = 0xFF0000;

/// What a [`SpecialAllowedConsumer`] has collected: the cells with at least
/// one sample of each kind.
pub struct SpecialLayers {
    pub broken_allowed: Grid<bool>,
    pub broken_super: Grid<bool>,
    pub broken_disallowed: Grid<bool>,
}

/// The layer that a result is marked in.
pub enum SpecialTarget {
    Allowed,
    Super,
    Disallowed,
    Nowhere,
}

/// Where a result goes: a breaking into the allowed region by the kind of
/// its witness, one into the disallowed region as such, anything else
/// nowhere.
pub open spec fn special_target(result: IntegrationResult) -> SpecialTarget {
    match result {
        IntegrationResult::Broken(_, FinalStabilityResult::UnstableAllowed(violation)) => {
            match violation.first_witness() {
                Some(witness) => if witness.kind() == Direction::Generic {
                    SpecialTarget::Allowed
                } else {
                    SpecialTarget::Super
                },
                None => SpecialTarget::Nowhere,
            }
        },
        IntegrationResult::Broken(_, FinalStabilityResult::UnstableDisallowed(_)) => {
            SpecialTarget::Disallowed
        },
        _ => SpecialTarget::Nowhere,
    }
}

/// The picture of the layers: disallowed is drawn over special, and special
/// over generic.
pub open spec fn special_picture(layers: SpecialLayers, nx: int, ny: int) -> Grid<u32> {
    Seq::new(
        nx as nat,
        |k: int|
            Seq::new(
                ny as nat,
                |l: int|
                    if layers.broken_disallowed[k][l] {
                        DISALLOWED_COLOR
                    } else if layers.broken_super[k][l] {
                        SUPER_COLOR
                    } else if layers.broken_allowed[k][l] {
                        ALLOWED_COLOR
                    } else {
                        BACKGROUND
                    },
            ),
    )
}

/// Collects breakings over the plane of two chosen axes.
pub struct SpecialAllowedConsumer<const N: usize, const NX: usize, const NY: usize> {
    /// The layers for the generic, the special and the disallowed breakings,
    /// in this order.
    layers: Vec<Layer<bool, NX, NY>>,
    index_x: usize,
    index_y: usize,
}

impl<const N: usize, const NX: usize, const NY: usize> SpecialAllowedConsumer<N, NX, NY> {
    #[verifier::type_invariant]
    spec fn complete(self) -> bool {
        &&& self.layers@.len() == 3
        &&& self.index_x < N
        &&& self.index_y < N
    }

    pub closed spec fn layers(self) -> SpecialLayers {
        SpecialLayers {
            broken_allowed: self.layers@[0]@,
            broken_super: self.layers@[1]@,
            broken_disallowed: self.layers@[2]@,
        }
    }

    /// The two axes of the plane: the one along `x` and the one along `y`.
    pub closed spec fn axes(self) -> (usize, usize) {
        (self.index_x, self.index_y)
    }

    /// The ranges that the layers cover, each as the range along `x` and the
    /// range along `y`, in the order of the layers.
    pub closed spec fn ranges_of(self) -> Seq<((Scalar, Scalar), (Scalar, Scalar))> {
        Seq::new(3, |k: int| (self.layers@[k].axis_x(), self.layers@[k].axis_y()))
    }

    /// A consumer for the plane of the axes `index_x` and `index_y` that has
    /// seen no sample: every layer covers the range of axis `index_x` along
    /// `x` and that of axis `index_y` along `y`.
    pub fn new(ranges: CouplingRanges<N>, index_x: usize, index_y: usize) -> (consumer: Self)
        requires
            index_x < N,
            index_y < N,
        ensures
            consumer.layers() == Self::fresh(),
            consumer.axes() == (index_x, index_y),
            consumer.ranges_of() == Seq::new(
                3,
                |k: int| (ranges[index_x as int], ranges[index_y as int]),
            ),
    {
        let mut layers: Vec<Layer<bool, NX, NY>> = Vec::new();
        layers.push(Layer::new(ranges[index_x], ranges[index_y]));
        layers.push(Layer::new(ranges[index_x], ranges[index_y]));
        layers.push(Layer::new(ranges[index_x], ranges[index_y]));
        let consumer = SpecialAllowedConsumer { layers, index_x, index_y };
        assert(consumer.ranges_of() =~= Seq::new(
            3,
            |k: int| (ranges[index_x as int], ranges[index_y as int]),
        ));
        consumer
    }

    /// The picture of the three layers.
    pub fn render(&self) -> (image: Image<NX, NY>)
        ensures
            image@ == special_picture(self.layers(), NX as int, NY as int),
    {
        proof {
            use_type_invariant(self);
        }
        let mut image: Image<NX, NY> = Image::new();
        image.draw_boolean_layer(&self.layers[0], ALLOWED_COLOR);
        image.draw_boolean_layer(&self.layers[1], SUPER_COLOR);
        image.draw_boolean_layer(&self.layers[2], DISALLOWED_COLOR);
        assert(image@ =~~= special_picture(self.layers(), NX as int, NY as int));
        image
    }

    fn mark(&mut self, slot: usize, point: GridPoint<N>)
        requires
            slot < 3,
        ensures
            final(self).axes() == old(self).axes(),
            final(self).ranges_of() == old(self).ranges_of(),
            forall|k: int|
                0 <= k < 3 ==> (#[trigger] final(self).layers@[k])@ == if k == slot {
                    placed::<bool>(
                        old(self).layers@[k]@,
                        point.x[old(self).axes().0 as int] as int,
                        point.y[old(self).axes().1 as int] as int,
                        NX as int,
                        NY as int,
                        true,
                    )
                } else {
                    old(self).layers@[k]@
                },
    {
        proof {
            use_type_invariant(&*self);
        }
        let x = point.x[self.index_x];
        let y = point.y[self.index_y];
        self.layers[slot].write(x, y, true);
        assert(self.ranges_of() =~= old(self).ranges_of());
    }
}

impl<const N: usize, const NX: usize, const NY: usize> ScanConsumer<N> for SpecialAllowedConsumer<
    N,
    NX,
    NY,
> {
    type State = SpecialLayers;

    type Setup = (usize, usize);

    open spec fn state(&self) -> SpecialLayers {
        self.layers()
    }

    open spec fn setup(&self) -> (usize, usize) {
        self.axes()
    }

    open spec fn fresh() -> SpecialLayers {
        SpecialLayers {
            broken_allowed: blank_grid::<bool>(NX as int, NY as int),
            broken_super: blank_grid::<bool>(NX as int, NY as int),
            broken_disallowed: blank_grid::<bool>(NX as int, NY as int),
        }
    }

    open spec fn valid(state: SpecialLayers) -> bool {
        &&& has_shape(state.broken_allowed, NX as int, NY as int)
        &&& has_shape(state.broken_super, NX as int, NY as int)
        &&& has_shape(state.broken_disallowed, NX as int, NY as int)
    }

    /// A breaking into the allowed region must come with a witness.
    open spec fn accepts(
        setup: (usize, usize),
        state: SpecialLayers,
        point: GridPoint<N>,
        result: IntegrationResult,
    ) -> bool {
        !(result matches IntegrationResult::Broken(
            _,
            FinalStabilityResult::UnstableAllowed(StabilityResult::Stable),
        ))
    }

    /// A breaking marks the sample's cell in the plane of the two axes, in
    /// the layer of its kind.
    open spec fn consumed(
        setup: (usize, usize),
        state: SpecialLayers,
        point: GridPoint<N>,
        result: IntegrationResult,
    ) -> SpecialLayers {
        let x = point.x[setup.0 as int] as int;
        let y = point.y[setup.1 as int] as int;
        match special_target(result) {
            SpecialTarget::Allowed => SpecialLayers {
                broken_allowed: placed::<bool>(state.broken_allowed, x, y, NX as int, NY as int, true),
                ..state
            },
            SpecialTarget::Super => SpecialLayers {
                broken_super: placed::<bool>(state.broken_super, x, y, NX as int, NY as int, true),
                ..state
            },
            SpecialTarget::Disallowed => SpecialLayers {
                broken_disallowed: placed::<bool>(
                    state.broken_disallowed,
                    x,
                    y,
                    NX as int,
                    NY as int,
                    true,
                ),
                ..state
            },
            SpecialTarget::Nowhere => state,
        }
    }

    open spec fn takes(a: SpecialLayers, b: SpecialLayers) -> bool {
        true
    }

    open spec fn combined(a: SpecialLayers, b: SpecialLayers) -> SpecialLayers {
        SpecialLayers {
            broken_allowed: merged::<bool>(a.broken_allowed, b.broken_allowed),
            broken_super: merged::<bool>(a.broken_super, b.broken_super),
            broken_disallowed: merged::<bool>(a.broken_disallowed, b.broken_disallowed),
        }
    }

    fn can_consume(&self, point: GridPoint<N>, result: IntegrationResult) -> (ok: bool) {
        match result {
            IntegrationResult::Broken(
                _,
                FinalStabilityResult::UnstableAllowed(StabilityResult::Stable),
            ) => false,
            _ => true,
        }
    }

    fn consume(&mut self, point: GridPoint<N>, result: IntegrationResult)
        ensures
            final(self).ranges_of() == old(self).ranges_of(),
    {
        match result {
            IntegrationResult::Broken(_, FinalStabilityResult::UnstableAllowed(violation)) => {
                match violation.witness() {
                    Some(witness) => {
                        match witness.classify() {
                            Direction::Generic => self.mark(0, point),
                            _ => self.mark(1, point),
                        }
                    },
                    None => {},
                }
            },
            IntegrationResult::Broken(_, FinalStabilityResult::UnstableDisallowed(_)) => {
                self.mark(2, point);
            },
            _ => {},
        }
    }

    fn can_merge(&self, other: &Self) -> (ok: bool) {
        true
    }

    fn duplicate(&self) -> (copy: Self) {
        self.clone()
    }

    fn merge(&mut self, other: Self)
        ensures
            final(self).ranges_of() == old(self).ranges_of(),
    {
        proof {
            use_type_invariant(&*self);
            use_type_invariant(&other);
        }
        self.layers[0].merge(&other.layers[0]);
        self.layers[1].merge(&other.layers[1]);
        self.layers[2].merge(&other.layers[2]);
        assert(self.ranges_of() =~= old(self).ranges_of());
    }

    proof fn fresh_is_valid() {
    }

    proof fn validity_is_kept(
        setup: (usize, usize),
        a: SpecialLayers,
        b: SpecialLayers,
        point: GridPoint<N>,
        result: IntegrationResult,
    ) {
    }

    proof fn merge_laws(a: SpecialLayers, b: SpecialLayers, c: SpecialLayers) {
        let (nx, ny) = (NX as int, NY as int);
        merge_blank_is_identity::<bool>(a.broken_allowed, nx, ny);
        merge_blank_is_identity::<bool>(a.broken_super, nx, ny);
        merge_blank_is_identity::<bool>(a.broken_disallowed, nx, ny);
        merge_is_commutative::<bool>(a.broken_allowed, b.broken_allowed, nx, ny);
        merge_is_commutative::<bool>(a.broken_super, b.broken_super, nx, ny);
        merge_is_commutative::<bool>(a.broken_disallowed, b.broken_disallowed, nx, ny);
        merge_is_associative::<bool>(a.broken_allowed, b.broken_allowed, c.broken_allowed, nx, ny);
        merge_is_associative::<bool>(a.broken_super, b.broken_super, c.broken_super, nx, ny);
        merge_is_associative::<bool>(
            a.broken_disallowed,
            b.broken_disallowed,
            c.broken_disallowed,
            nx,
            ny,
        );
    }

    proof fn consume_commutes_with_merge(
        setup: (usize, usize),
        a: SpecialLayers,
        b: SpecialLayers,
        point: GridPoint<N>,
        result: IntegrationResult,
    ) {
        let (nx, ny) = (NX as int, NY as int);
        if nx > 0 && ny > 0 {
            let x = clamped(point.x[setup.0 as int] as int, nx);
            let y = clamped(point.y[setup.1 as int] as int, ny);
            write_commutes_with_merge::<bool>(a.broken_allowed, b.broken_allowed, nx, ny, x, y, true);
            write_commutes_with_merge::<bool>(a.broken_super, b.broken_super, nx, ny, x, y, true);
            write_commutes_with_merge::<bool>(
                a.broken_disallowed,
                b.broken_disallowed,
                nx,
                ny,
                x,
                y,
                true,
            );
        }
    }
}

impl<const N: usize, const NX: usize, const NY: usize> Clone for SpecialAllowedConsumer<
    N,
    NX,
    NY,
> {
    fn clone(&self) -> (consumer: Self)
        ensures
            consumer.layers() == self.layers(),
            consumer.axes() == self.axes(),
            consumer.ranges_of() == self.ranges_of(),
    {
        proof {
            use_type_invariant(self);
        }
        let mut layers: Vec<Layer<bool, NX, NY>> = Vec::new();
        layers.push(self.layers[0].clone());
        layers.push(self.layers[1].clone());
        layers.push(self.layers[2].clone());
        let consumer = SpecialAllowedConsumer {
            layers,
            index_x: self.index_x,
            index_y: self.index_y,
        };
        assert(consumer.ranges_of() =~= self.ranges_of());
        consumer
    }
}

} // verus!
