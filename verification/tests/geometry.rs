use termrender::geometry::{Geometry, GeometryError};

#[test]
fn valid_mesh_is_accepted() {
    // Three vertices (nine position floats), matching normals, one triangle.
    let g = Geometry::new(9, 9, vec![0, 1, 2]).unwrap();
    assert_eq!(g.vertex_count(), 3);
    assert_eq!(g.indices(), &vec![0, 1, 2]);
}

#[test]
fn empty_mesh_is_accepted() {
    let g = Geometry::new(0, 0, Vec::new()).unwrap();
    assert_eq!(g.vertex_count(), 0);
    assert!(g.indices().is_empty());
}

#[test]
fn positions_must_come_in_triples() {
    let r = Geometry::new(10, 10, Vec::new());
    assert_eq!(r.unwrap_err(), GeometryError::PositionsNotTriples);
}

#[test]
fn normals_must_pair_with_positions() {
    let r = Geometry::new(9, 6, Vec::new());
    assert_eq!(r.unwrap_err(), GeometryError::NormalsMismatch);
}

#[test]
fn indices_must_come_in_triangles() {
    let r = Geometry::new(9, 9, vec![0, 1]);
    assert_eq!(r.unwrap_err(), GeometryError::IndicesNotTriples);
}

#[test]
fn out_of_bounds_index_is_rejected() {
    // Vertex count is three, so index 3 reads past the last vertex.
    let r = Geometry::new(9, 9, vec![0, 1, 3]);
    assert_eq!(r.unwrap_err(), GeometryError::IndexOutOfBounds);
}

#[test]
fn largest_valid_index_is_accepted() {
    let g = Geometry::new(9, 9, vec![2, 2, 2]).unwrap();
    assert_eq!(g.vertex_count(), 3);
}
