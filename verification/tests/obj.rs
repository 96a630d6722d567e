use ellipsoid::obj::{flat_face_records, surface_face_records, vertex_records};
use ellipsoid::obj_read::parse_obj_faces;

fn surface_faces(phi: usize, theta: usize) -> Vec<Vec<usize>> {
    parse_obj_faces(&surface_face_records(phi, theta))
}

fn flat_faces(phi: usize, theta: usize) -> Vec<Vec<usize>> {
    parse_obj_faces(&flat_face_records(phi, theta))
}

#[test]
fn surface_mesh_has_one_face_per_grid_cell() {
    // The default pattern: 8 phi divisions, 19 theta rows after insertion.
    assert_eq!(surface_faces(8, 19).len(), 8 * 19);
}

#[test]
fn flat_mesh_has_one_face_per_panel_cell() {
    assert_eq!(flat_faces(8, 19).len(), 8 * 19);
}

#[test]
fn every_face_index_is_in_range() {
    for (faces, vertices) in [
        (surface_faces(8, 19), 9 * 20),
        (flat_faces(8, 19), 8 * 20 * 2),
    ] {
        for face in &faces {
            assert_eq!(face.len(), 4, "faces are quads");
            for &i in face {
                assert!(i >= 1 && i <= vertices, "index {i} outside 1..={vertices}");
            }
        }
    }
}

#[test]
fn faces_reference_four_distinct_vertices() {
    for face in surface_faces(8, 19) {
        let mut sorted = face.clone();
        sorted.sort_unstable();
        sorted.dedup();
        assert_eq!(sorted.len(), 4, "degenerate face {face:?}");
    }
}

#[test]
fn surface_face_records_are_written_exactly() {
    // Three phi bands, two theta bands: rows of three vertices.
    let text = surface_face_records(3, 2);
    assert_eq!(
        text,
        "f 1 4 5 2 \nf 2 5 6 3 \nf 4 7 8 5 \nf 5 8 9 6 \nf 7 10 11 8 \nf 8 11 12 9 \n"
    );
}

#[test]
fn flat_face_records_are_written_exactly() {
    // Two strips of two cells: each rung has its own pair of vertices.
    let text = flat_face_records(2, 2);
    assert_eq!(
        text,
        "f 1 2 4 3 \nf 3 4 6 5 \nf 7 8 10 9 \nf 9 10 12 11 \n"
    );
}

#[test]
fn reading_skips_vertices_decorations_and_junk() {
    let text = "v 1 2 3 \nv 4 5 6\r\nf 1/7/9 2//3 x +3 \r\n# comment\nf\nf x y\n  f 4\t5\nvt 1 2\nf 99999999999999999999999 6";
    assert_eq!(
        parse_obj_faces(text),
        vec![vec![1, 2, 3], vec![4, 5], vec![6]]
    );
}

#[test]
fn empty_text_has_no_faces() {
    assert!(parse_obj_faces("").is_empty());
    assert!(parse_obj_faces("\n\n").is_empty());
}

#[test]
fn zero_divisions_write_no_faces() {
    assert_eq!(surface_face_records(0, 5), "");
    assert_eq!(flat_face_records(4, 0), "");
}

#[test]
fn vertex_records_write_each_point_on_a_line() {
    let coords = vec![
        ("0".to_string(), "-1.5".to_string(), "2".to_string()),
        ("3".to_string(), "4".to_string(), "5e-7".to_string()),
    ];
    assert_eq!(vertex_records(&coords), "v 0 -1.5 2 \nv 3 4 5e-7 \n");
    assert_eq!(vertex_records(&vec![]), "");
}

#[test]
fn a_whole_document_reads_back_as_its_faces() {
    let coords: Vec<(String, String, String)> = (0..12)
        .map(|i| (format!("{}", i as f64 * 0.5), "-0.25".to_string(), "f".to_string()))
        .collect();
    let mut text = vertex_records(&coords);
    text.push_str(&surface_face_records(2, 3));
    assert_eq!(parse_obj_faces(&text), surface_faces(2, 3));
    assert_eq!(parse_obj_faces(&text).len(), 6);
}
