use rgscan::util::image::{average_layer, boolean_layer, count_layer, Average, Cell, Layer};
use rgscan::util::scalar::Scalar;

fn range(lo: f64, hi: f64) -> (Scalar, Scalar) {
    (Scalar::from_bits(lo.to_bits()), Scalar::from_bits(hi.to_bits()))
}

fn counts<const NX: usize, const NY: usize>(layer: &Layer<i64, NX, NY>) -> Vec<Vec<i64>> {
    (0..NX).map(|i| (0..NY).map(|j| layer.get(i, j).unwrap()).collect()).collect()
}

fn populated(seed: i64) -> Layer<i64, 3, 2> {
    let mut layer: Layer<i64, 3, 2> = count_layer(range(-2.0, 2.0), range(0.0, 1.0));
    for i in 0..3usize {
        for j in 0..2usize {
            layer.write(i, j, seed * (1 + i as i64) + j as i64);
        }
    }
    layer
}

#[test]
fn fresh_layers_are_blank_and_keep_their_ranges() {
    let flags: Layer<bool, 4, 3> = boolean_layer(range(-2.0, 2.0), range(0.0, 1.0));
    let numbers: Layer<i64, 4, 3> = count_layer(range(-2.0, 2.0), range(0.0, 1.0));
    let averages: Layer<Average, 4, 3> = average_layer(range(-2.0, 2.0), range(0.0, 1.0));
    for i in 0..4 {
        for j in 0..3 {
            assert_eq!(flags.get(i, j), Some(false));
            assert_eq!(numbers.get(i, j), Some(0));
            assert_eq!(averages.get(i, j), Some(Average { sum: 0, count: 0 }));
        }
    }
    assert_eq!(flags.range_x(), range(-2.0, 2.0));
    assert_eq!(flags.range_y(), range(0.0, 1.0));
    assert_eq!(flags.get(4, 0), None);
    assert_eq!(flags.get(0, 3), None);
}

#[test]
fn layers_over_the_same_ranges_have_the_same_axes() {
    let a: Layer<bool, 2, 2> = boolean_layer(range(-2.0, 2.0), range(0.0, 1.0));
    let b: Layer<bool, 2, 2> = boolean_layer(range(-2.0, 2.0), range(0.0, 1.0));
    let c: Layer<bool, 2, 2> = boolean_layer(range(-2.0, 2.0), range(0.0, 1.5));
    let d: Layer<bool, 2, 2> = boolean_layer(range(-2.5, 2.0), range(0.0, 1.0));
    assert!(a.same_axes(&b));
    assert!(a.same_axes(&a.clone()));
    assert!(!a.same_axes(&c));
    assert!(!a.same_axes(&d));
}

#[test]
fn write_combines_into_one_cell() {
    let mut layer: Layer<i64, 3, 2> = count_layer(range(0.0, 1.0), range(0.0, 1.0));
    layer.write(1, 0, 1);
    layer.write(1, 0, 1);
    layer.write(2, 1, 5);
    assert_eq!(counts(&layer), vec![vec![0, 0], vec![2, 0], vec![0, 5]]);
}

#[test]
fn write_beyond_an_axis_goes_to_the_last_cell() {
    let mut layer: Layer<i64, 3, 2> = count_layer(range(0.0, 1.0), range(0.0, 1.0));
    layer.write(3, 0, 1);
    layer.write(usize::MAX, 2, 1);
    layer.write(0, usize::MAX, 1);
    assert_eq!(counts(&layer), vec![vec![0, 1], vec![0, 0], vec![1, 1]]);
}

#[test]
fn layer_without_cells_takes_no_write() {
    let mut layer: Layer<i64, 0, 2> = count_layer(range(0.0, 1.0), range(0.0, 1.0));
    assert!(layer.can_write(0, 0, &1));
    layer.write(0, 0, 1);
    assert_eq!(layer.get(0, 0), None);
}

#[test]
fn flags_combine_by_or() {
    let mut layer: Layer<bool, 2, 2> = boolean_layer(range(0.0, 1.0), range(0.0, 1.0));
    layer.write(0, 1, true);
    layer.write(0, 1, false);
    layer.write(1, 0, false);
    assert_eq!(layer.get(0, 1), Some(true));
    assert_eq!(layer.get(1, 0), Some(false));
}

#[test]
fn averages_keep_sum_and_count() {
    let mut layer: Layer<Average, 2, 2> = average_layer(range(0.0, 1.0), range(0.0, 1.0));
    layer.write(1, 1, Average { sum: 10, count: 1 });
    layer.write(1, 1, Average { sum: 32, count: 1 });
    assert_eq!(layer.get(1, 1), Some(Average { sum: 42, count: 2 }));
}

#[test]
fn a_full_cell_cannot_be_written() {
    let mut layer: Layer<i64, 1, 1> = count_layer(range(0.0, 1.0), range(0.0, 1.0));
    layer.write(0, 0, i64::MAX);
    assert!(!layer.can_write(0, 0, &1));
    assert!(layer.can_write(0, 0, &0));
    assert!(layer.can_write(0, 0, &-1));
    let other = layer.clone();
    assert!(!layer.can_merge(&other));
    let mut averages: Layer<Average, 1, 1> = average_layer(range(0.0, 1.0), range(0.0, 1.0));
    averages.write(0, 0, Average { sum: u64::MAX, count: 1 });
    assert!(!averages.can_write(0, 0, &Average { sum: 1, count: 1 }));
    assert!(averages.can_write(0, 0, &Average { sum: 0, count: 1 }));
}

#[test]
fn merge_combines_cell_by_cell() {
    let mut a = populated(1);
    let b = populated(10);
    assert!(a.can_merge(&b));
    a.merge(&b);
    assert_eq!(counts(&a), vec![vec![11, 13], vec![22, 24], vec![33, 35]]);
    assert_eq!(a.range_x(), range(-2.0, 2.0));
}

#[test]
fn merging_a_fresh_layer_changes_nothing() {
    let mut layer = populated(7);
    let before = counts(&layer);
    let fresh: Layer<i64, 3, 2> = count_layer(range(-2.0, 2.0), range(0.0, 1.0));
    assert!(layer.can_merge(&fresh));
    layer.merge(&fresh);
    assert_eq!(counts(&layer), before);

    let mut flags: Layer<bool, 2, 2> = boolean_layer(range(0.0, 1.0), range(0.0, 1.0));
    flags.write(1, 1, true);
    flags.merge(&boolean_layer(range(0.0, 1.0), range(0.0, 1.0)));
    assert_eq!(flags.get(1, 1), Some(true));
    assert_eq!(flags.get(0, 0), Some(false));

    let mut averages: Layer<Average, 1, 1> = average_layer(range(0.0, 1.0), range(0.0, 1.0));
    averages.write(0, 0, Average { sum: 5, count: 2 });
    averages.merge(&average_layer(range(0.0, 1.0), range(0.0, 1.0)));
    assert_eq!(averages.get(0, 0), Some(Average { sum: 5, count: 2 }));
}

#[test]
fn merge_is_independent_of_order_and_grouping() {
    let (a, b, c) = (populated(1), populated(20), populated(300));
    let mut ab_c = a.clone();
    ab_c.merge(&b);
    ab_c.merge(&c);
    let mut bc = b.clone();
    bc.merge(&c);
    let mut a_bc = a.clone();
    a_bc.merge(&bc);
    let mut ac = a.clone();
    ac.merge(&c);
    let mut b_ac = b.clone();
    b_ac.merge(&ac);
    assert_eq!(counts(&ab_c), counts(&a_bc));
    assert_eq!(counts(&a_bc), counts(&b_ac));
    assert_eq!(counts(&ab_c)[2], vec![963, 966]);
}

#[test]
fn cells_combine_as_their_kind_says() {
    assert_eq!(true.combine(false), true);
    assert_eq!(false.combine(false), false);
    assert_eq!(40i64.combine(2), 42);
    assert!(!i64::MIN.can_combine(&-1));
    assert_eq!(<i64 as Cell>::empty(), 0);
    assert_eq!(<bool as Cell>::empty(), false);
    assert_eq!(
        Average { sum: 1, count: 2 }.combine(Average { sum: 3, count: 4 }),
        Average { sum: 4, count: 6 }
    );
    assert!(!Average { sum: 0, count: u64::MAX }.can_combine(&Average { sum: 0, count: 1 }));
}
