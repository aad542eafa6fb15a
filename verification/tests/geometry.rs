//! Geometry kernel: containment against a reference winding test,
//! integer square root, and segment normals.

use snake_core::geometry::{isqrt, point_in_polygon, segment_normal_exec, Point};
use snake_core::point_list::PointList;

fn pt(x: i64, y: i64) -> Point {
    Point { x, y }
}

/// Reference containment: winding number computed with half-plane
/// (cross-product) tests in floating point.
fn winding_contains(px: f64, py: f64, poly: &[(f64, f64)]) -> bool {
    let mut winding: i32 = 0;
    for i in 0..poly.len() {
        let (x1, y1) = poly[i];
        let (x2, y2) = poly[(i + 1) % poly.len()];
        let cross = (x2 - x1) * (py - y1) - (y2 - y1) * (px - x1);
        if y1 <= py && y2 > py && cross > 0.0 {
            winding += 1;
        }
        if y2 <= py && y1 > py && cross < 0.0 {
            winding -= 1;
        }
    }
    winding != 0
}

fn to_polygon(poly: &[(f64, f64)]) -> Vec<Point> {
    poly.iter()
        .map(|&(x, y)| pt((x * 1000.0).round() as i64, (y * 1000.0).round() as i64))
        .collect()
}

/// Every polygon vertex sits on whole units; the sample grid sits on
/// half units, so no sample ever lies on an edge and the exact
/// even-odd test must agree with the floating-point winding test.
fn agree_on_grid(poly: &[(f64, f64)]) {
    let polygon = to_polygon(poly);
    for gx in -12..=12 {
        for gy in -12..=12 {
            let px = gx as f64 + 0.5;
            let py = gy as f64 + 0.5;
            let sample = pt((px * 1000.0) as i64, (py * 1000.0) as i64);
            assert_eq!(
                point_in_polygon(&sample, &polygon),
                winding_contains(px, py, poly),
                "disagreement at ({px}, {py})"
            );
        }
    }
}

#[test]
fn polygon_agrees_with_winding_on_square() {
    agree_on_grid(&[(-3.0, -3.0), (3.0, -3.0), (3.0, 3.0), (-3.0, 3.0)]);
}

#[test]
fn polygon_agrees_with_winding_on_triangle() {
    agree_on_grid(&[(-5.0, -2.0), (6.0, -1.0), (0.0, 7.0)]);
}

#[test]
fn polygon_agrees_with_winding_on_concave_polygon() {
    agree_on_grid(&[
        (-6.0, -6.0),
        (6.0, -6.0),
        (6.0, 6.0),
        (0.0, 0.0),
        (-6.0, 6.0),
    ]);
}

#[test]
fn polygon_far_outside_points() {
    let polygon = to_polygon(&[(-3.0, -3.0), (3.0, -3.0), (3.0, 3.0), (-3.0, 3.0)]);
    assert!(!point_in_polygon(&pt(1_000_000, 500), &polygon));
    assert!(!point_in_polygon(&pt(-1_000_000, 500), &polygon));
    assert!(!point_in_polygon(&pt(500, 900_000_000), &polygon));
}

#[test]
fn polygon_simple_containment() {
    let polygon = vec![pt(0, 0), pt(10000, 0), pt(10000, 10000), pt(0, 10000)];
    assert!(point_in_polygon(&pt(5000, 5000), &polygon));
    assert!(!point_in_polygon(&pt(15000, 5000), &polygon));
    assert!(!point_in_polygon(&pt(-1, 5000), &polygon));
}

#[test]
fn isqrt_exact_values() {
    assert_eq!(isqrt(0), 0);
    assert_eq!(isqrt(1), 1);
    assert_eq!(isqrt(3), 1);
    assert_eq!(isqrt(4), 2);
    assert_eq!(isqrt(99), 9);
    assert_eq!(isqrt(100), 10);
    assert_eq!(isqrt(2_000_000_000_000), 1_414_213);
    assert_eq!(isqrt(u64::MAX), 4_294_967_295);
}

#[test]
fn segment_normal_axis_aligned() {
    // a segment heading +x gets a normal heading +y, scaled to half
    // the ribbon thickness
    let n = segment_normal_exec(pt(2000, 0), 1500);
    assert_eq!(n, pt(0, 1500));
    // heading +y gets a normal heading -x
    let n = segment_normal_exec(pt(0, 2000), 1500);
    assert_eq!(n, pt(-1500, 0));
}

#[test]
fn segment_normal_diagonal() {
    // a diagonal segment: |d| = sqrt(2)*2000 = 2828..., each normal
    // coordinate 1500*2000/2828 = 1060 (rounded toward zero)
    let n = segment_normal_exec(pt(2000, 2000), 1500);
    assert_eq!(n, pt(-1060, 1060));
}

#[test]
fn point_list_push_and_truncate() {
    let mut chain = PointList::new();
    assert_eq!(chain.len(), 0);
    chain.push(pt(1, 2));
    chain.push(pt(3, 4));
    chain.push(pt(5, 6));
    assert_eq!(chain.len(), 3);
    chain.truncate(1);
    assert_eq!(chain.len(), 1);
    assert_eq!(chain.0[0], pt(1, 2));
}
