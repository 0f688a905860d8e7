use mhoverlap::{smallest_positive, Scalar, ToleranceError};
use parry3d::math::{Point, Real};

fn measures(values: &[f32]) -> Vec<Scalar> {
    values.iter().map(|v| Scalar(v.to_bits())).collect()
}

/// The squared length of the cross product of two edges of each triangle.
fn triangle_measures(vertices: &[[f32; 3]], triangles: &[[u32; 3]]) -> Vec<Scalar> {
    let points: Vec<Point<Real>> =
        vertices.iter().map(|v| Point::new(v[0], v[1], v[2])).collect();
    triangles
        .iter()
        .map(|t| {
            let v1 = points[t[1] as usize] - points[t[0] as usize];
            let v2 = points[t[2] as usize] - points[t[0] as usize];
            Scalar(v1.cross(&v2).norm_squared().to_bits())
        })
        .collect()
}

fn estimate(vertices: &[[f32; 3]], triangles: &[[u32; 3]]) -> Result<f32, ToleranceError> {
    let smallest = smallest_positive(&triangle_measures(vertices, triangles))?;
    let min_area = f32::from_bits(smallest.0).sqrt() / 2.;
    Ok(min_area.sqrt() / 10.)
}

#[test]
fn smallest_positive_picks_the_minimum() {
    let result = smallest_positive(&measures(&[16.0, 4.0, 9.0, 4.5]));
    assert_eq!(result.map(|s| s.0), Ok(4.0f32.to_bits()));
}

#[test]
fn smallest_positive_of_one_measure_is_that_measure() {
    let result = smallest_positive(&measures(&[16.0]));
    assert_eq!(result.map(|s| s.0), Ok(16.0f32.to_bits()));
}

#[test]
fn smallest_positive_passes_over_degenerate_triangles() {
    let result = smallest_positive(&measures(&[0.0, 3.0, -0.0, 2.0, f32::NAN, -1.0]));
    assert_eq!(result.map(|s| s.0), Ok(2.0f32.to_bits()));
}

#[test]
fn smallest_positive_tells_the_smallest_patterns_apart() {
    let tiny = f32::from_bits(1);
    let result = smallest_positive(&measures(&[f32::MIN_POSITIVE, tiny, 1.0]));
    assert_eq!(result.map(|s| s.0), Ok(1));
    let result = smallest_positive(&measures(&[f32::INFINITY, f32::MAX]));
    assert_eq!(result.map(|s| s.0), Ok(f32::MAX.to_bits()));
    let result = smallest_positive(&measures(&[f32::INFINITY]));
    assert_eq!(result.map(|s| s.0), Ok(f32::INFINITY.to_bits()));
}

#[test]
fn a_mesh_without_triangles_gives_no_tolerance() {
    assert_eq!(smallest_positive(&vec![]).map(|s| s.0), Err(ToleranceError::NoTriangles));
}

#[test]
fn a_mesh_of_degenerate_triangles_gives_no_tolerance() {
    let result = smallest_positive(&measures(&[0.0, -0.0, f32::NAN]));
    assert_eq!(result.map(|s| s.0), Err(ToleranceError::AllDegenerate));
    let result = smallest_positive(&measures(&[0.0]));
    assert_eq!(result.map(|s| s.0), Err(ToleranceError::AllDegenerate));
}

#[test]
fn tolerance_of_a_right_triangle_with_legs_of_two() {
    let vertices = [[0.0, 0.0, 0.0], [2.0, 0.0, 0.0], [0.0, 2.0, 0.0]];
    let triangles = [[0, 1, 2]];
    assert_eq!(triangle_measures(&vertices, &triangles)[0].0, 16.0f32.to_bits());
    let tolerance = estimate(&vertices, &triangles).unwrap();
    assert_eq!(tolerance, 2.0f32.sqrt() / 10.);
    assert!((tolerance - 0.1414).abs() < 1e-4);
}

#[test]
fn tolerance_follows_the_smallest_triangle() {
    let vertices = [
        [0.0, 0.0, 0.0],
        [2.0, 0.0, 0.0],
        [0.0, 2.0, 0.0],
        [8.0, 0.0, 0.0],
        [0.0, 8.0, 0.0],
    ];
    let tolerance = estimate(&vertices, &[[0, 3, 4], [0, 1, 2]]).unwrap();
    assert_eq!(tolerance, 2.0f32.sqrt() / 10.);
}

#[test]
fn tolerance_ignores_a_triangle_without_area() {
    let vertices = [[0.0, 0.0, 0.0], [2.0, 0.0, 0.0], [0.0, 2.0, 0.0], [4.0, 0.0, 0.0]];
    let tolerance = estimate(&vertices, &[[0, 1, 3], [0, 1, 2]]).unwrap();
    assert_eq!(tolerance, 2.0f32.sqrt() / 10.);
    assert_eq!(estimate(&vertices, &[[0, 1, 3]]), Err(ToleranceError::AllDegenerate));
    assert_eq!(estimate(&vertices, &[]), Err(ToleranceError::NoTriangles));
}
