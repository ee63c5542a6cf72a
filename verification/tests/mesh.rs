use learn_opengl::mesh::{assemble_vertices, ObjMesh};

fn triangle() -> ObjMesh<f32> {
    ObjMesh {
        positions: vec![0.0, 1.0, 2.0, 3.0, 4.0, 5.0, 6.0, 7.0, 8.0],
        normals: vec![0.0, 0.0, 1.0, 0.0, 1.0, 0.0, 1.0, 0.0, 0.0],
        texcoords: vec![0.0, 0.0, 1.0, 0.0, 0.5, 1.0],
        indices: vec![0, 1, 2],
        material_id: None,
    }
}

#[test]
fn vertices_from_flat_arrays() {
    let vertices = assemble_vertices(&triangle());
    assert_eq!(vertices.len(), 3);
    assert_eq!(vertices[0].position, (0.0, 1.0, 2.0));
    assert_eq!(vertices[1].position, (3.0, 4.0, 5.0));
    assert_eq!(vertices[2].position, (6.0, 7.0, 8.0));
    assert_eq!(vertices[0].normal, (0.0, 0.0, 1.0));
    assert_eq!(vertices[1].normal, (0.0, 1.0, 0.0));
    assert_eq!(vertices[2].normal, (1.0, 0.0, 0.0));
    assert_eq!(vertices[0].tex_coords, (0.0, 0.0));
    assert_eq!(vertices[1].tex_coords, (1.0, 0.0));
    assert_eq!(vertices[2].tex_coords, (0.5, 1.0));
}

#[test]
fn trailing_components_are_ignored() {
    let mut mesh = triangle();
    mesh.positions.push(9.0);
    mesh.positions.push(10.0);
    mesh.normals.push(1.0);
    mesh.texcoords.push(2.0);
    let vertices = assemble_vertices(&mesh);
    assert_eq!(vertices.len(), 3);
    assert_eq!(vertices[2].position, (6.0, 7.0, 8.0));
}

#[test]
fn empty_mesh_has_no_vertices() {
    let mesh: ObjMesh<f32> = ObjMesh {
        positions: vec![],
        normals: vec![],
        texcoords: vec![],
        indices: vec![],
        material_id: None,
    };
    assert!(assemble_vertices(&mesh).is_empty());
}

#[test]
fn integer_components_work_too() {
    let mesh: ObjMesh<i64> = ObjMesh {
        positions: vec![1, 2, 3],
        normals: vec![4, 5, 6],
        texcoords: vec![7, 8],
        indices: vec![0],
        material_id: Some(0),
    };
    let vertices = assemble_vertices(&mesh);
    assert_eq!(vertices.len(), 1);
    assert_eq!(vertices[0].position, (1, 2, 3));
    assert_eq!(vertices[0].normal, (4, 5, 6));
    assert_eq!(vertices[0].tex_coords, (7, 8));
}
