use phase_cloud::cloud::{build_point_cloud, InputError, Point, PointCloud};
use phase_cloud::extrema::Extrema;
use phase_cloud::grid::SampleGrid;

fn grid(rows: usize, cols: usize, values: &[f64]) -> SampleGrid {
    SampleGrid::from_shape_vec(rows, cols, values.iter().map(|v| v.to_bits()).collect()).unwrap()
}

fn point(x: usize, y: usize, z: f64, quality: f64) -> Point {
    Point { x, y, z: z.to_bits(), quality: quality.to_bits() }
}

#[test]
fn flat_field_keeps_all_sixteen_points() {
    let phase = grid(4, 4, &[2.0; 16]);
    let quality = grid(4, 4, &[1.0; 16]);
    let scan = build_point_cloud(&phase, &quality, 0.5f64.to_bits()).unwrap();
    assert_eq!(scan.cloud.len(), 16);
    for (k, p) in scan.cloud.points.iter().enumerate() {
        assert_eq!(*p, point(k % 4, k / 4, 2.0, 1.0));
    }
    assert_eq!(
        scan.phase_extrema,
        Some(Extrema { min: 2.0f64.to_bits(), max: 2.0f64.to_bits() })
    );
}

#[test]
fn shape_mismatch_is_refused() {
    let phase = grid(4, 4, &[2.0; 16]);
    let quality = grid(4, 5, &[1.0; 20]);
    let r = build_point_cloud(&phase, &quality, 0.5f64.to_bits());
    assert_eq!(
        r.unwrap_err(),
        InputError::ShapeMismatch { phase_rows: 4, phase_cols: 4, quality_rows: 4, quality_cols: 5 }
    );
}

#[test]
fn shape_mismatch_of_transposed_grids() {
    let phase = grid(2, 3, &[0.0; 6]);
    let quality = grid(3, 2, &[1.0; 6]);
    assert!(build_point_cloud(&phase, &quality, 0.0f64.to_bits()).is_err());
}

#[test]
fn shape_mismatch_of_empty_grids() {
    let phase = grid(0, 3, &[]);
    let quality = grid(0, 4, &[]);
    assert!(build_point_cloud(&phase, &quality, 0.0f64.to_bits()).is_err());
}

#[test]
fn only_cells_above_the_threshold_are_kept() {
    let phase = grid(2, 3, &[10.0, 11.0, 12.0, 20.0, 21.0, 22.0]);
    let quality = grid(2, 3, &[0.9, 0.1, 0.6, 0.5, 0.7, 0.0]);
    let scan = build_point_cloud(&phase, &quality, 0.5f64.to_bits()).unwrap();
    assert_eq!(
        scan.cloud.points,
        vec![point(0, 0, 10.0, 0.9), point(2, 0, 12.0, 0.6), point(1, 1, 21.0, 0.7)]
    );
    assert_eq!(
        scan.phase_extrema,
        Some(Extrema { min: 10.0f64.to_bits(), max: 21.0f64.to_bits() })
    );
}

#[test]
fn threshold_is_strict() {
    let phase = grid(1, 3, &[1.0, 2.0, 3.0]);
    let quality = grid(1, 3, &[0.5, 0.5000000000000001, 0.49999999999999994]);
    let scan = build_point_cloud(&phase, &quality, 0.5f64.to_bits()).unwrap();
    assert_eq!(scan.cloud.points, vec![point(1, 0, 2.0, 0.5000000000000001)]);
}

#[test]
fn default_threshold_drops_zero_and_negative_quality() {
    let phase = grid(1, 4, &[1.0, 2.0, 3.0, 4.0]);
    let quality = grid(1, 4, &[0.0, -0.0, -1.0, 1e-300]);
    let scan = build_point_cloud(&phase, &quality, 0.0f64.to_bits()).unwrap();
    assert_eq!(scan.cloud.points, vec![point(3, 0, 4.0, 1e-300)]);
}

#[test]
fn nan_quality_is_never_kept() {
    let phase = grid(1, 2, &[1.0, 2.0]);
    let quality = grid(1, 2, &[f64::NAN, 1.0]);
    let scan = build_point_cloud(&phase, &quality, f64::NEG_INFINITY.to_bits()).unwrap();
    assert_eq!(scan.cloud.len(), 1);
    assert_eq!(scan.cloud.points[0].x, 1);
}

#[test]
fn nan_threshold_keeps_nothing() {
    let phase = grid(1, 2, &[1.0, 2.0]);
    let quality = grid(1, 2, &[5.0, 1.0]);
    let scan = build_point_cloud(&phase, &quality, f64::NAN.to_bits()).unwrap();
    assert_eq!(scan.cloud.len(), 0);
    assert_eq!(scan.phase_extrema, None);
}

#[test]
fn nothing_kept_gives_an_empty_cloud_without_extrema() {
    let phase = grid(2, 2, &[1.0, 2.0, 3.0, 4.0]);
    let quality = grid(2, 2, &[0.1, 0.2, 0.3, 0.4]);
    let scan = build_point_cloud(&phase, &quality, 1.0f64.to_bits()).unwrap();
    assert!(scan.cloud.points.is_empty());
    assert_eq!(scan.phase_extrema, None);
}

#[test]
fn empty_grids_give_an_empty_cloud() {
    let phase = grid(0, 0, &[]);
    let quality = grid(0, 0, &[]);
    let scan = build_point_cloud(&phase, &quality, 0.0f64.to_bits()).unwrap();
    assert_eq!(scan.cloud.len(), 0);
}

#[test]
fn count_equals_the_number_of_qualifying_cells() {
    let rows = 7;
    let cols = 5;
    let mut phase = Vec::new();
    let mut quality = Vec::new();
    for k in 0..rows * cols {
        phase.push(k as f64 * 0.25 - 3.0);
        quality.push(((k * 37) % 11) as f64 / 10.0);
    }
    let threshold = 0.45;
    let expected: Vec<Point> = (0..rows * cols)
        .filter(|&k| quality[k] > threshold)
        .map(|k| point(k % cols, k / cols, phase[k], quality[k]))
        .collect();
    let scan =
        build_point_cloud(&grid(rows, cols, &phase), &grid(rows, cols, &quality), threshold.to_bits())
            .unwrap();
    assert_eq!(scan.cloud.len(), quality.iter().filter(|q| **q > threshold).count());
    assert_eq!(scan.cloud.points, expected);
}

#[test]
fn extrema_skip_nan_phases_of_kept_points() {
    let phase = grid(1, 3, &[f64::NAN, -4.0, 7.5]);
    let quality = grid(1, 3, &[1.0, 1.0, 1.0]);
    let scan = build_point_cloud(&phase, &quality, 0.0f64.to_bits()).unwrap();
    assert_eq!(scan.cloud.len(), 3);
    assert_eq!(
        scan.phase_extrema,
        Some(Extrema { min: (-4.0f64).to_bits(), max: 7.5f64.to_bits() })
    );
}

#[test]
fn depths_lists_the_phase_of_each_point() {
    let cloud = PointCloud { points: vec![point(0, 0, 1.5, 1.0), point(1, 0, -2.5, 1.0)] };
    assert_eq!(cloud.depths(), vec![1.5f64.to_bits(), (-2.5f64).to_bits()]);
}

#[test]
fn with_depths_replaces_only_the_depth() {
    let cloud = PointCloud { points: vec![point(3, 4, 1.5, 0.8), point(5, 6, -2.5, 0.9)] };
    let next = cloud.with_depths(&vec![0.25f64.to_bits(), 0.75f64.to_bits()]).unwrap();
    assert_eq!(next.points, vec![point(3, 4, 0.25, 0.8), point(5, 6, 0.75, 0.9)]);
}

#[test]
fn with_depths_needs_one_depth_for_each_point() {
    let cloud = PointCloud { points: vec![point(3, 4, 1.5, 0.8), point(5, 6, -2.5, 0.9)] };
    assert!(cloud.with_depths(&vec![0]).is_none());
    assert!(cloud.with_depths(&vec![0, 0, 0]).is_none());
}

#[test]
fn with_depths_on_an_empty_cloud_is_empty() {
    let cloud = PointCloud { points: vec![] };
    assert_eq!(cloud.with_depths(&vec![]).unwrap().len(), 0);
}

#[test]
fn reordered_picks_in_the_given_order() {
    let a = point(0, 0, 1.0, 1.0);
    let b = point(1, 0, 2.0, 1.0);
    let c = point(2, 0, 3.0, 1.0);
    let cloud = PointCloud { points: vec![a, b, c] };
    assert_eq!(cloud.reordered(&vec![2, 0, 1]).unwrap().points, vec![c, a, b]);
}

#[test]
fn reordered_refuses_a_position_outside_the_cloud() {
    let cloud = PointCloud { points: vec![point(0, 0, 1.0, 1.0)] };
    assert!(cloud.reordered(&vec![0, 1]).is_none());
}
