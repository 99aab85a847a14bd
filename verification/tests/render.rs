use aetheria::render::{count_header, mesh_draws, pack_indices, pad_to_vec4, MeshDraw, MeshIndices};

#[test]
fn indices_are_offset_by_the_vertices_before_them() {
    let meshes = [
        MeshIndices { id: 10, indices: vec![0, 1, 2], vertex_count: 3 },
        MeshIndices { id: 20, indices: vec![0, 2, 1, 3], vertex_count: 4 },
        MeshIndices { id: 30, indices: vec![1, 0], vertex_count: 2 },
    ];
    let packed = pack_indices(&meshes);
    assert_eq!(packed.indices, vec![0, 1, 2, 3, 5, 4, 6, 8, 7]);
    assert_eq!(packed.first_index, vec![0, 3, 7]);
}

#[test]
fn packing_nothing_gives_nothing() {
    let packed = pack_indices(&[]);
    assert!(packed.indices.is_empty());
    assert!(packed.first_index.is_empty());
}

#[test]
fn a_mesh_without_indices_still_has_a_start() {
    let meshes = [
        MeshIndices { id: 40, indices: vec![], vertex_count: 5 },
        MeshIndices { id: 50, indices: vec![0], vertex_count: 1 },
    ];
    let packed = pack_indices(&meshes);
    assert_eq!(packed.indices, vec![5]);
    assert_eq!(packed.first_index, vec![0, 0]);
}

#[test]
fn values_are_padded_to_four_lanes() {
    assert_eq!(pad_to_vec4(&[7, -2]), vec![7, 0, 0, 0, -2, 0, 0, 0]);
    assert!(pad_to_vec4(&[]).is_empty());
}

#[test]
fn header_holds_the_count() {
    assert_eq!(count_header(3), vec![3, 0, 0, 0]);
    assert_eq!(count_header(0), vec![0, 0, 0, 0]);
}

#[test]
fn each_drawn_mesh_gets_its_start_count_and_material() {
    let meshes = [
        MeshIndices { id: 60, indices: vec![0, 1, 2], vertex_count: 3 },
        MeshIndices { id: 70, indices: vec![0, 2, 1, 3, 1, 2], vertex_count: 4 },
    ];
    let packed = pack_indices(&meshes);
    let draws = mesh_draws(&meshes, &packed, &[70, 60, 70]);
    assert_eq!(
        draws,
        vec![
            MeshDraw { first_index: 3, num_indices: 6, material: 0 },
            MeshDraw { first_index: 0, num_indices: 3, material: 1 },
            MeshDraw { first_index: 3, num_indices: 6, material: 2 },
        ]
    );
    assert!(mesh_draws(&meshes, &packed, &[]).is_empty());
}

#[test]
fn a_later_mesh_of_the_same_identity_takes_the_place_of_an_earlier_one() {
    let meshes = [
        MeshIndices { id: 5, indices: vec![0, 1], vertex_count: 2 },
        MeshIndices { id: 9, indices: vec![0], vertex_count: 1 },
        MeshIndices { id: 5, indices: vec![0, 1, 2], vertex_count: 3 },
    ];
    let packed = pack_indices(&meshes);
    assert_eq!(
        mesh_draws(&meshes, &packed, &[5, 9]),
        vec![
            MeshDraw { first_index: 3, num_indices: 3, material: 0 },
            MeshDraw { first_index: 2, num_indices: 1, material: 1 },
        ]
    );
}
