use phase_cloud::depth::draw_order;

fn bits(values: &[f64]) -> Vec<u64> {
    values.iter().map(|v| v.to_bits()).collect()
}

#[test]
fn draw_order_of_nothing_is_empty() {
    assert_eq!(draw_order(&vec![]), Vec::<usize>::new());
}

#[test]
fn draw_order_of_one_point() {
    assert_eq!(draw_order(&bits(&[4.0])), vec![0]);
}

#[test]
fn draw_order_sorts_depths_upward() {
    assert_eq!(draw_order(&bits(&[3.0, -1.0, 2.0, 0.5, -7.0])), vec![4, 1, 3, 2, 0]);
}

#[test]
fn draw_order_keeps_equal_depths_in_place_order() {
    assert_eq!(draw_order(&bits(&[1.0, 0.0, 1.0, 0.0, 1.0])), vec![1, 3, 0, 2, 4]);
}

#[test]
fn draw_order_of_sorted_input_is_the_identity() {
    let depth: Vec<f64> = (0..50).map(|k| k as f64 * 0.5 - 10.0).collect();
    assert_eq!(draw_order(&bits(&depth)), (0..50).collect::<Vec<usize>>());
}

#[test]
fn draw_order_of_reversed_input_is_reversed() {
    let depth: Vec<f64> = (0..33).map(|k| 100.0 - k as f64).collect();
    assert_eq!(draw_order(&bits(&depth)), (0..33).rev().collect::<Vec<usize>>());
}

#[test]
fn draw_order_depths_never_decrease() {
    let depth: Vec<f64> = (0..257).map(|k| ((k * 7919) % 263) as f64 - 131.5).collect();
    let order = draw_order(&bits(&depth));
    for w in order.windows(2) {
        assert!(depth[w[0]] <= depth[w[1]]);
    }
}

#[test]
fn draw_order_lists_each_position_once() {
    let depth: Vec<f64> = (0..257).map(|k| ((k * 7919) % 263) as f64 - 131.5).collect();
    let mut order = draw_order(&bits(&depth));
    assert_eq!(order.len(), depth.len());
    order.sort();
    assert_eq!(order, (0..depth.len()).collect::<Vec<usize>>());
}

#[test]
fn draw_order_agrees_with_a_stable_sort() {
    let depth: Vec<f64> = (0..300).map(|k| ((k * 31) % 17) as f64 - 8.0).collect();
    let mut expected: Vec<usize> = (0..depth.len()).collect();
    expected.sort_by(|a, b| depth[*a].total_cmp(&depth[*b]));
    assert_eq!(draw_order(&bits(&depth)), expected);
}

#[test]
fn draw_order_puts_infinities_at_the_ends() {
    assert_eq!(draw_order(&bits(&[f64::INFINITY, 0.0, f64::NEG_INFINITY])), vec![2, 1, 0]);
}

#[test]
fn draw_order_puts_negative_zero_before_positive_zero() {
    assert_eq!(draw_order(&bits(&[0.0, -0.0])), vec![1, 0]);
}

#[test]
fn draw_order_places_nan_by_its_sign() {
    assert_eq!(draw_order(&bits(&[f64::NAN, 1.0, -f64::NAN, -1.0])), vec![2, 3, 1, 0]);
}
