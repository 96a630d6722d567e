use ellipsoid::mesh::quad_indices;

#[test]
fn a_two_by_two_grid_splits_each_quad_into_two_triangles() {
    let indices = quad_indices(3, 2, 2);
    assert_eq!(
        indices,
        vec![
            0, 3, 4, 0, 4, 1, //
            1, 4, 5, 1, 5, 2, //
            3, 6, 7, 3, 7, 4, //
            4, 7, 8, 4, 8, 5,
        ]
    );
}

#[test]
fn every_index_names_an_existing_vertex() {
    let (phi, theta) = (5usize, 7usize);
    let indices = quad_indices(theta + 1, phi, theta);
    assert_eq!(indices.len(), phi * theta * 6);
    let vertices = ((phi + 1) * (theta + 1)) as u32;
    assert!(indices.iter().all(|&i| i < vertices));
    for tri in indices.chunks(3) {
        assert!(tri[0] != tri[1] && tri[1] != tri[2] && tri[0] != tri[2]);
    }
}

#[test]
fn an_empty_grid_has_no_triangles() {
    assert!(quad_indices(1, 0, 0).is_empty());
    assert!(quad_indices(4, 3, 0).is_empty());
}
