use vstd::prelude::*;

verus! {

/// One vertex of a mesh: position, normal and texture coordinates, in the
/// component type `T` of the loaded model (floats in the application).
#[derive(Debug)]
pub struct Vertex<T> {
    pub position: (T, T, T),
    pub normal: (T, T, T),
    pub tex_coords: (T, T),
}

/// One mesh of an OBJ model as the OBJ loader hands it over: flat arrays of
/// three position components, three normal components and two texture
/// coordinates per vertex, the triangle indices, and the index of the
/// material the mesh uses, if any.
pub struct ObjMesh<T> {
    pub positions: Vec<T>,
    pub normals: Vec<T>,
    pub texcoords: Vec<T>,
    pub indices: Vec<u32>,
    pub material_id: Option<usize>,
}

/// Number of vertices of an OBJ mesh: one per three position components.
pub open spec fn obj_vertex_count(positions_len: int) -> int {
    positions_len / 3
}

/// Vertex `i` of an OBJ mesh, read from its flat arrays.
pub open spec fn obj_vertex<T>(positions: Seq<T>, normals: Seq<T>, texcoords: Seq<T>, i: int) -> Vertex<T> {
    Vertex {
        position: (positions[3 * i], positions[3 * i + 1], positions[3 * i + 2]),
        normal: (normals[3 * i], normals[3 * i + 1], normals[3 * i + 2]),
        tex_coords: (texcoords[2 * i], texcoords[2 * i + 1]),
    }
}

/// The flat arrays hold enough normals and texture coordinates for every
/// vertex that the positions define.
pub open spec fn obj_arrays_complete<T>(positions: Seq<T>, normals: Seq<T>, texcoords: Seq<T>) -> bool {
    &&& 3 * obj_vertex_count(positions.len() as int) <= normals.len()
    &&& 2 * obj_vertex_count(positions.len() as int) <= texcoords.len()
}

/// The vertices of an OBJ mesh, in order: vertex `i` takes positions and
/// normals `3i..3i+3` and texture coordinates `2i..2i+2`. Trailing position
/// components that do not make up a whole vertex are ignored, and so are
/// any normals or texture coordinates beyond the last vertex.
pub fn assemble_vertices<T: Copy>(mesh: &ObjMesh<T>) -> (vertices: Vec<Vertex<T>>)
    requires
        obj_arrays_complete(mesh.positions@, mesh.normals@, mesh.texcoords@),
    ensures
        vertices@.len() == obj_vertex_count(mesh.positions@.len() as int),
        forall|i: int|
            0 <= i < vertices@.len() ==> vertices@[i] == obj_vertex(
                mesh.positions@,
                mesh.normals@,
                mesh.texcoords@,
                i,
            ),
{
    let count = mesh.positions.len() / 3;
    let p = &mesh.positions;
    let n = &mesh.normals;
    let t = &mesh.texcoords;
    let mut vertices: Vec<Vertex<T>> = Vec::with_capacity(count);
    let plen = p.len();
    let nlen = n.len();
    let tlen = t.len();
    let mut i: usize = 0;
    while i < count
        invariant
            plen == p@.len(),
            nlen == n@.len(),
            tlen == t@.len(),
            count == obj_vertex_count(p@.len() as int),
            obj_arrays_complete(p@, n@, t@),
            i <= count,
            vertices@.len() == i,
            forall|k: int| 0 <= k < i ==> vertices@[k] == obj_vertex(p@, n@, t@, k),
        decreases count - i,
    {
        assert(i * 3 + 2 < p@.len() && i * 3 + 2 < n@.len() && i * 2 + 1 < t@.len())
            by (nonlinear_arith)
            requires
                i < count,
                count == p@.len() / 3,
                3 * count <= n@.len(),
                2 * count <= t@.len(),
        ;
        let i3 = i * 3;
        let i2 = i * 2;
        vertices.push(
            Vertex {
                position: (p[i3], p[i3 + 1], p[i3 + 2]),
                normal: (n[i3], n[i3 + 1], n[i3 + 2]),
                tex_coords: (t[i2], t[i2 + 1]),
            },
        );
        i = i + 1;
    }
    vertices
}

} // verus!
