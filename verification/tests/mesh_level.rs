//! Mesh builders (ribbon and fan) and level validation.

use snake_core::consts::{DISTANCE_BETWEEN_POINTS, INITIAL_LENGTH, PI_MRAD};
use snake_core::geometry::Point;
use snake_core::level::Level;
use snake_core::obstacle::Obstacle;
use snake_core::point_list::PointList;
use snake_core::snake::Snake;

fn pt(x: i64, y: i64) -> Point {
    Point { x, y }
}

#[test]
fn snake_ribbon_vertices_follow_segment_normals() {
    // a horizontal chain: every segment's normal is (0, 1500), so the
    // ribbon edges sit 1.5 units above and below each point; the last
    // point borrows the previous segment's normal and so matches too
    let chain = PointList(vec![pt(0, 0), pt(2000, 0), pt(4000, 0)]);
    let (indices, vertices) = Snake::get_indices_and_vertices(&chain);
    assert_eq!(vertices.len(), 6);
    for i in 0..3 {
        let p = chain.0[i];
        assert_eq!(vertices[2 * i], pt(p.x, p.y - 1500));
        assert_eq!(vertices[2 * i + 1], pt(p.x, p.y + 1500));
    }
    // two strip segments of six indices each
    assert_eq!(indices, vec![0, 1, 2, 2, 1, 3, 2, 3, 4, 4, 3, 5]);
}

#[test]
fn snake_ribbon_last_point_borrows_previous_normal() {
    // an L-shaped chain: the corner uses its forward (vertical)
    // segment's normal, and the final point reuses that same normal
    let chain = PointList(vec![pt(0, 0), pt(2000, 0), pt(2000, 2000)]);
    let (_, vertices) = Snake::get_indices_and_vertices(&chain);
    // corner point: segment +y, normal (-1500, 0)
    assert_eq!(vertices[2], pt(2000 + 1500, 0));
    assert_eq!(vertices[3], pt(2000 - 1500, 0));
    // last point: borrows the +y segment's normal
    assert_eq!(vertices[4], pt(2000 + 1500, 2000));
    assert_eq!(vertices[5], pt(2000 - 1500, 2000));
}

#[test]
fn snake_default_components() {
    let (_, chain, direction) = Snake::get_default_entity_components();
    assert_eq!(chain.len(), INITIAL_LENGTH);
    for i in 0..INITIAL_LENGTH {
        assert_eq!(chain.0[i], pt(i as i64 * DISTANCE_BETWEEN_POINTS, 0));
    }
    assert_eq!(direction.0, PI_MRAD);
}

#[test]
fn obstacle_fan_from_polygon() {
    let square = PointList(vec![pt(0, 0), pt(4000, 0), pt(4000, 4000), pt(0, 4000)]);
    let (indices, vertices) = Obstacle::get_indices_and_vertices(&square);
    assert_eq!(vertices, square.0);
    assert_eq!(indices, vec![0, 1, 2, 0, 2, 3]);
}

#[test]
fn obstacle_mesh_empty_for_degenerate_list() {
    let two = PointList(vec![pt(0, 0), pt(4000, 0)]);
    let (indices, vertices) = Obstacle::get_indices_and_vertices(&two);
    assert!(indices.is_empty());
    assert!(vertices.is_empty());
}

#[test]
fn level_validation() {
    let good = Level {
        name: String::from("simple"),
        obstacles: vec![PointList(vec![pt(0, 0), pt(4000, 0), pt(2000, 4000)])],
    };
    assert!(good.validate());

    let too_few = Level {
        name: String::from("bad"),
        obstacles: vec![PointList(vec![pt(0, 0), pt(4000, 0)])],
    };
    assert!(!too_few.validate());

    let out_of_bounds = Level {
        name: String::from("far"),
        obstacles: vec![PointList(vec![
            pt(0, 0),
            pt(4000, 0),
            pt(2_000_000_000, 4000),
        ])],
    };
    assert!(!out_of_bounds.validate());

    let empty = Level {
        name: String::from("empty"),
        obstacles: vec![],
    };
    assert!(empty.validate());
}
