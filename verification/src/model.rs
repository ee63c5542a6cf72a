use vstd::prelude::*;

use crate::names::{decimal, push_decimal};
use crate::mesh::{assemble_vertices, obj_arrays_complete, obj_vertex, obj_vertex_count, ObjMesh, Vertex};

verus! {

/// The kind of map a texture provides to the shaders.
#[derive(Clone, Copy, Debug, PartialEq, Eq, Structural)]
pub enum TextureKind {
    Diffuse,
    Specular,
    Normal,
}

/// The sampler name prefix the shaders use for each kind of texture.
pub open spec fn texture_kind_name(kind: TextureKind) -> Seq<char> {
    match kind {
        TextureKind::Diffuse => "texture_diffuse"@,
        TextureKind::Specular => "texture_specular"@,
        TextureKind::Normal => "texture_normal"@,
    }
}

impl TextureKind {
    /// The type name stored with a texture of this kind.
    pub fn shader_name(&self) -> (name: String)
        ensures
            name@ == texture_kind_name(*self),
    {
        match self {
            TextureKind::Diffuse => "texture_diffuse".to_owned(),
            TextureKind::Specular => "texture_specular".to_owned(),
            TextureKind::Normal => "texture_normal".to_owned(),
        }
    }
}

/// A texture of a model: the name the GPU gave it, its type name (such as
/// `texture_diffuse`) and the file it was loaded from, relative to the
/// model's directory.
#[derive(Debug)]
pub struct Texture {
    pub id: u32,
    pub type_: String,
    pub path: String,
}

impl View for Texture {
    type V = (u32, Seq<char>, Seq<char>);

    open spec fn view(&self) -> (u32, Seq<char>, Seq<char>) {
        (self.id, self.type_@, self.path@)
    }
}

impl Texture {
    /// A copy of this texture.
    pub fn duplicate(&self) -> (copy: Texture)
        ensures
            copy@ == self@,
    {
        Texture { id: self.id, type_: self.type_.clone(), path: self.path.clone() }
    }
}

/// How many of the first `i` textures of `textures` have type name `kind`.
pub open spec fn count_type(textures: Seq<Texture>, i: int, kind: Seq<char>) -> nat
    decreases i,
{
    if i <= 0 {
        0
    } else {
        count_type(textures, i - 1, kind) + if textures[i - 1].type_@ == kind {
            1nat
        } else {
            0nat
        }
    }
}

/// The sampler uniform that texture `i` of a mesh is bound to: its type
/// name followed by its rank, from 1, among the mesh's textures of that
/// type.
pub open spec fn sampler_name(textures: Seq<Texture>, i: int) -> Seq<char> {
    textures[i].type_@ + decimal(count_type(textures, i, textures[i].type_@) + 1)
}

/// The sampler uniforms a mesh's textures are bound to, in order, such as
/// `texture_diffuse1`, `texture_specular1`, `texture_diffuse2` (see
/// `sampler_name`).
pub fn sampler_names(textures: &Vec<Texture>) -> (names: Vec<String>)
    ensures
        names@.len() == textures@.len(),
        forall|i: int| 0 <= i < textures@.len() ==> #[trigger] names@[i]@ == sampler_name(textures@, i),
{
    let mut names: Vec<String> = Vec::new();
    let mut i: usize = 0;
    while i < textures.len()
        invariant
            i <= textures@.len(),
            names@.len() == i,
            forall|k: int| 0 <= k < i ==> #[trigger] names@[k]@ == sampler_name(textures@, k),
        decreases textures@.len() - i,
    {
        let ghost kind = textures@[i as int].type_@;
        let mut count: u64 = 0;
        let mut j: usize = 0;
        while j < i
            invariant
                i < textures@.len(),
                j <= i,
                kind == textures@[i as int].type_@,
                count == count_type(textures@, j as int, kind),
                count <= j,
            decreases i - j,
        {
            if textures[j].type_ == textures[i].type_ {
                count = count + 1;
            }
            j = j + 1;
        }
        let mut name = textures[i].type_.clone();
        push_decimal(&mut name, count + 1);
        assert(name@ == sampler_name(textures@, i as int));
        names.push(name);
        i = i + 1;
    }
    names
}

/// The texture files a material names; an empty name means the material
/// has no map of that kind.
pub struct MaterialTextures {
    pub diffuse: String,
    pub specular: String,
    pub normal: String,
}

/// A texture a mesh needs: the file and the kind of map it provides.
pub struct TextureRequest {
    pub path: String,
    pub kind: TextureKind,
}

/// The textures a material asks for, in order: its diffuse map, its
/// specular map and its normal map, each only if the material names one.
pub open spec fn material_requests(material: MaterialTextures) -> Seq<(Seq<char>, TextureKind)> {
    (if material.diffuse@.len() > 0 {
        seq![(material.diffuse@, TextureKind::Diffuse)]
    } else {
        Seq::empty()
    }) + (if material.specular@.len() > 0 {
        seq![(material.specular@, TextureKind::Specular)]
    } else {
        Seq::empty()
    }) + (if material.normal@.len() > 0 {
        seq![(material.normal@, TextureKind::Normal)]
    } else {
        Seq::empty()
    })
}

/// The textures a mesh with the given material asks for: none without a
/// material.
pub open spec fn mesh_requests(material_id: Option<usize>, materials: Seq<MaterialTextures>) -> Seq<
    (Seq<char>, TextureKind),
> {
    match material_id {
        Some(m) => material_requests(materials[m as int]),
        None => Seq::empty(),
    }
}

/// The requests of a list in spec form.
pub open spec fn requests_view(requests: Seq<TextureRequest>) -> Seq<(Seq<char>, TextureKind)> {
    requests.map_values(|r: TextureRequest| (r.path@, r.kind))
}

fn push_request_if_named(requests: &mut Vec<TextureRequest>, path: &String, kind: TextureKind)
    ensures
        requests_view(final(requests)@) == requests_view(old(requests)@) + (if path@.len() > 0 {
            seq![(path@, kind)]
        } else {
            Seq::empty()
        }),
{
    if !path.as_str().is_empty() {
        requests.push(TextureRequest { path: path.clone(), kind });
    }
    assert(requests_view(requests@) =~= requests_view(old(requests)@) + (if path@.len() > 0 {
        seq![(path@, kind)]
    } else {
        Seq::empty()
    }));
}

/// The textures `material` asks for (see `material_requests`).
pub fn texture_requests(material: &MaterialTextures) -> (requests: Vec<TextureRequest>)
    ensures
        requests_view(requests@) == material_requests(*material),
{
    let mut requests: Vec<TextureRequest> = Vec::new();
    assert(requests_view(requests@) =~= Seq::empty());
    push_request_if_named(&mut requests, &material.diffuse, TextureKind::Diffuse);
    push_request_if_named(&mut requests, &material.specular, TextureKind::Specular);
    push_request_if_named(&mut requests, &material.normal, TextureKind::Normal);
    assert(requests_view(requests@) =~= material_requests(*material));
    requests
}

/// A mesh ready to be uploaded: its vertices, its triangle indices and the
/// textures it is drawn with.
pub struct MeshData<T> {
    pub vertices: Vec<Vertex<T>>,
    pub indices: Vec<u32>,
    pub textures: Vec<Texture>,
}

/// The CPU side of a loaded model: its meshes, every texture loaded for it
/// so far (so that no file is loaded twice) and the directory its files
/// are found in.
pub struct Model<T> {
    pub meshes: Vec<MeshData<T>>,
    pub textures_loaded: Vec<Texture>,
    pub directory: String,
}

/// `loaded` holds a texture with file `path`.
pub open spec fn has_texture_path(loaded: Seq<Texture>, path: Seq<char>) -> bool {
    exists|i: int| 0 <= i < loaded.len() && #[trigger] loaded[i].path@ == path
}

/// No two textures of `loaded` come from the same file.
pub open spec fn texture_paths_unique(loaded: Seq<Texture>) -> bool {
    forall|i: int, j: int|
        0 <= i < j < loaded.len() ==> #[trigger] loaded[i].path@ != #[trigger] loaded[j].path@
}

/// `t` is the first texture of `loaded` whose file is `path`.
pub open spec fn is_first_with_path(loaded: Seq<Texture>, path: Seq<char>, t: (u32, Seq<char>, Seq<char>)) -> bool {
    exists|i: int|
        0 <= i < loaded.len() && #[trigger] loaded[i]@ == t && loaded[i].path@ == path && forall|j: int|
            0 <= j < i ==> #[trigger] loaded[j].path@ != path
}

/// `mesh` is what loading `obj` with the given materials builds: the
/// vertices assembled from its flat arrays, its indices, and one texture per
/// texture its material asks for, from the requested file.
pub open spec fn mesh_built_from<T>(mesh: MeshData<T>, obj: ObjMesh<T>, materials: Seq<MaterialTextures>) -> bool {
    let requests = mesh_requests(obj.material_id, materials);
    &&& mesh.vertices@.len() == obj_vertex_count(obj.positions@.len() as int)
    &&& forall|i: int|
        0 <= i < mesh.vertices@.len() ==> #[trigger] mesh.vertices@[i] == obj_vertex(
            obj.positions@,
            obj.normals@,
            obj.texcoords@,
            i,
        )
    &&& mesh.indices@ == obj.indices@
    &&& mesh.textures@.len() == requests.len()
    &&& forall|j: int| 0 <= j < requests.len() ==> #[trigger] mesh.textures@[j].path@ == requests[j].0
}

/// `obj` can be loaded with `materials`: its arrays are complete and its
/// material, if any, is one of `materials`.
pub open spec fn obj_loadable<T>(obj: ObjMesh<T>, materials: Seq<MaterialTextures>) -> bool {
    &&& obj_arrays_complete(obj.positions@, obj.normals@, obj.texcoords@)
    &&& match obj.material_id {
        Some(m) => m < materials.len(),
        None => true,
    }
}

/// `before` is a prefix of `after`.
pub open spec fn is_prefix_of<A>(before: Seq<A>, after: Seq<A>) -> bool {
    before.len() <= after.len() && after.subrange(0, before.len() as int) == before
}

/// The textures of a list in spec form.
pub open spec fn textures_view(textures: Seq<Texture>) -> Seq<(u32, Seq<char>, Seq<char>)> {
    textures.map_values(|t: Texture| t@)
}

/// The textures the meshes `objs` ask for, mesh after mesh.
pub open spec fn objs_requests<T>(objs: Seq<ObjMesh<T>>, materials: Seq<MaterialTextures>) -> Seq<
    (Seq<char>, TextureKind),
>
    decreases objs.len(),
{
    if objs.len() == 0 {
        Seq::empty()
    } else {
        objs_requests(objs.drop_last(), materials) + mesh_requests(
            objs.last().material_id,
            materials,
        )
    }
}

/// Some request of `requests` is for file `path`.
pub open spec fn requested(requests: Seq<(Seq<char>, TextureKind)>, path: Seq<char>) -> bool {
    exists|k: int| 0 <= k < requests.len() && #[trigger] requests[k].0 == path
}

/// The uploads that serving `requests` in order makes when the cache holds
/// `loaded`: each request whose file neither `loaded` nor an earlier request
/// names, in the order of the requests. Every other request is served from
/// the cache.
pub open spec fn appended_loads(loaded: Seq<Texture>, requests: Seq<(Seq<char>, TextureKind)>) -> Seq<
    (Seq<char>, TextureKind),
>
    decreases requests.len(),
{
    if requests.len() == 0 {
        Seq::empty()
    } else {
        let earlier = requests.drop_last();
        let rest = appended_loads(loaded, earlier);
        if has_texture_path(loaded, requests.last().0) || requested(earlier, requests.last().0) {
            rest
        } else {
            rest.push(requests.last())
        }
    }
}

/// `after` is `before` followed by one texture per upload of `loads`, in
/// that order, each with the upload's file, the type name of its kind and
/// the GPU name that `ids` gives it.
pub open spec fn appended_part_is(
    before: Seq<Texture>,
    after: Seq<Texture>,
    loads: Seq<(Seq<char>, TextureKind)>,
    ids: Seq<u32>,
) -> bool {
    &&& ids.len() == loads.len()
    &&& after.len() == before.len() + loads.len()
    &&& forall|q: int|
        0 <= q < loads.len() ==> #[trigger] after[before.len() + q].path@ == loads[q].0
            && after[before.len() + q].type_@ == texture_kind_name(loads[q].1) && after[before.len()
            + q].id == ids[q]
}

/// `loads` uploads file `path`.
pub open spec fn uploads_file(loads: Seq<(Seq<char>, TextureKind)>, path: Seq<char>) -> bool {
    exists|q: int| 0 <= q < loads.len() && #[trigger] loads[q].0 == path
}

/// Every file that `appended_loads` uploads is named by a request.
pub proof fn lemma_appended_requested(loaded: Seq<Texture>, requests: Seq<(Seq<char>, TextureKind)>)
    ensures
        forall|q: int|
            0 <= q < appended_loads(loaded, requests).len() ==> requested(
                requests,
                #[trigger] appended_loads(loaded, requests)[q].0,
            ),
    decreases requests.len(),
{
    if requests.len() > 0 {
        let earlier = requests.drop_last();
        lemma_appended_requested(loaded, earlier);
        let a = appended_loads(loaded, requests);
        let rest = appended_loads(loaded, earlier);
        assert forall|q: int| 0 <= q < a.len() implies requested(requests, #[trigger] a[q].0) by {
            if q < rest.len() {
                assert(a[q] == rest[q]);
                assert(requested(earlier, rest[q].0));
                let k = choose|k: int| 0 <= k < earlier.len() && #[trigger] earlier[k].0 == rest[q].0;
                assert(requests[k] == earlier[k]);
            } else {
                assert(requests[requests.len() - 1] == requests.last());
            }
        }
    }
}

/// A requested file that is not cached is uploaded.
pub proof fn lemma_appended_covers(
    loaded: Seq<Texture>,
    requests: Seq<(Seq<char>, TextureKind)>,
    path: Seq<char>,
)
    requires
        requested(requests, path),
        !has_texture_path(loaded, path),
    ensures
        uploads_file(appended_loads(loaded, requests), path),
    decreases requests.len(),
{
    let earlier = requests.drop_last();
    let a = appended_loads(loaded, requests);
    let rest = appended_loads(loaded, earlier);
    if requested(earlier, path) {
        lemma_appended_covers(loaded, earlier, path);
        let q = choose|q: int| 0 <= q < rest.len() && #[trigger] rest[q].0 == path;
        assert(a[q] == rest[q]);
    } else {
        let k = choose|k: int| 0 <= k < requests.len() && #[trigger] requests[k].0 == path;
        if k < requests.len() - 1 {
            assert(earlier[k] == requests[k]);
        }
        assert(requests.last().0 == path);
        assert(a[rest.len() as int] == requests.last());
    }
}

/// Each file is uploaded at most once: no upload is for a file the cache
/// holds, and no two uploads are for the same file.
pub proof fn lemma_uploads_fresh_and_distinct(
    loaded: Seq<Texture>,
    requests: Seq<(Seq<char>, TextureKind)>,
)
    ensures
        forall|q: int|
            0 <= q < appended_loads(loaded, requests).len() ==> !has_texture_path(
                loaded,
                #[trigger] appended_loads(loaded, requests)[q].0,
            ),
        forall|q1: int, q2: int|
            0 <= q1 < q2 < appended_loads(loaded, requests).len() ==> #[trigger] appended_loads(
                loaded,
                requests,
            )[q1].0 != #[trigger] appended_loads(loaded, requests)[q2].0,
    decreases requests.len(),
{
    if requests.len() > 0 {
        let earlier = requests.drop_last();
        lemma_uploads_fresh_and_distinct(loaded, earlier);
        lemma_appended_requested(loaded, earlier);
        let a = appended_loads(loaded, requests);
        let rest = appended_loads(loaded, earlier);
        assert forall|q1: int, q2: int| 0 <= q1 < q2 < a.len() implies #[trigger] a[q1].0
            != #[trigger] a[q2].0 by {
            assert(a[q1] == rest[q1]);
            if q2 < rest.len() {
                assert(a[q2] == rest[q2]);
            } else {
                assert(requested(earlier, rest[q1].0));
            }
        }
        assert forall|q: int| 0 <= q < a.len() implies !has_texture_path(loaded, #[trigger] a[q].0) by {
            if q < rest.len() {
                assert(a[q] == rest[q]);
            }
        }
    }
}

/// Loading requests whose files are all cached uploads nothing.
pub proof fn lemma_reload_loads_nothing(loaded: Seq<Texture>, requests: Seq<(Seq<char>, TextureKind)>)
    requires
        forall|r: int| 0 <= r < requests.len() ==> has_texture_path(loaded, #[trigger] requests[r].0),
    ensures
        appended_loads(loaded, requests).len() == 0,
    decreases requests.len(),
{
    if requests.len() > 0 {
        let earlier = requests.drop_last();
        assert forall|r: int| 0 <= r < earlier.len() implies has_texture_path(
            loaded,
            #[trigger] earlier[r].0,
        ) by {
            assert(earlier[r] == requests[r]);
        }
        lemma_reload_loads_nothing(loaded, earlier);
        assert(has_texture_path(loaded, requests[requests.len() - 1].0));
    }
}

/// Once a texture is remembered for a file that was not cached, that file
/// is cached and that texture is the one a request for it is served with,
/// so the file is never uploaded again.
pub proof fn lemma_remembered_file_is_cached(
    before: Seq<Texture>,
    after: Seq<Texture>,
    t: Texture,
)
    requires
        !has_texture_path(before, t.path@),
        textures_view(after) == textures_view(before).push(t@),
    ensures
        has_texture_path(after, t.path@),
        is_first_with_path(after, t.path@, t@),
        forall|u: (u32, Seq<char>, Seq<char>)| #[trigger] is_first_with_path(after, t.path@, u) ==> u == t@,
{
    let va = textures_view(after);
    let vb = textures_view(before);
    let i = before.len() as int;
    assert(va.len() == after.len());
    assert(vb.len() == before.len());
    assert(after[i]@ == va[i]);
    assert forall|k: int| 0 <= k < i implies #[trigger] after[k].path@ != t.path@ by {
        assert(after[k]@ == va[k]);
        assert(before[k]@ == vb[k]);
    }
    assert(is_first_with_path(after, t.path@, t@));
    assert forall|u: (u32, Seq<char>, Seq<char>)| #[trigger] is_first_with_path(after, t.path@, u)
        implies u == t@ by {
        let m = choose|m: int|
            0 <= m < after.len() && #[trigger] after[m]@ == u && after[m].path@ == t.path@ && forall|
                n: int,
            |
                0 <= n < m ==> #[trigger] after[n].path@ != t.path@;
        if m < i {
            assert(after[m]@ == va[m]);
            assert(before[m]@ == vb[m]);
        }
    }
}

/// Uploads for a prefix of the requests are a prefix of the uploads for
/// all of them.
proof fn lemma_appended_prefix(
    loaded: Seq<Texture>,
    first: Seq<(Seq<char>, TextureKind)>,
    all: Seq<(Seq<char>, TextureKind)>,
)
    requires
        is_prefix_of(first, all),
    ensures
        is_prefix_of(appended_loads(loaded, first), appended_loads(loaded, all)),
    decreases all.len(),
{
    if first.len() == all.len() {
        assert(first =~= all);
        assert(appended_loads(loaded, all).subrange(0, appended_loads(loaded, all).len() as int)
            =~= appended_loads(loaded, all));
    } else {
        let earlier = all.drop_last();
        assert(earlier.subrange(0, first.len() as int) =~= first);
        lemma_appended_prefix(loaded, first, earlier);
        let a1 = appended_loads(loaded, first);
        let a2 = appended_loads(loaded, earlier);
        let a3 = appended_loads(loaded, all);
        assert(a3.subrange(0, a1.len() as int) =~= a2.subrange(0, a1.len() as int));
    }
}

/// The requests of the first `k` meshes are a prefix of those of all.
proof fn lemma_objs_requests_prefix<T>(objs: Seq<ObjMesh<T>>, materials: Seq<MaterialTextures>, k: int)
    requires
        0 <= k <= objs.len(),
    ensures
        is_prefix_of(objs_requests(objs.take(k), materials), objs_requests(objs, materials)),
    decreases objs.len(),
{
    let all = objs_requests(objs, materials);
    if k == objs.len() {
        assert(objs.take(k) =~= objs);
        assert(all.subrange(0, all.len() as int) =~= all);
    } else {
        let shorter = objs.drop_last();
        lemma_objs_requests_prefix(shorter, materials, k);
        assert(shorter.take(k) =~= objs.take(k));
        let p = objs_requests(objs.take(k), materials);
        let mid = objs_requests(shorter, materials);
        assert(all.subrange(0, p.len() as int) =~= mid.subrange(0, p.len() as int));
    }
}

/// Serving `first` and then `second` uploads what serving `first` uploads,
/// then what serving `second` uploads with a cache that holds the files of
/// `loaded` and of `first` (`between`).
proof fn lemma_appended_concat(
    loaded: Seq<Texture>,
    between: Seq<Texture>,
    first: Seq<(Seq<char>, TextureKind)>,
    second: Seq<(Seq<char>, TextureKind)>,
)
    requires
        forall|p: Seq<char>|
            #[trigger] has_texture_path(between, p) == (has_texture_path(loaded, p) || requested(
                first,
                p,
            )),
    ensures
        appended_loads(loaded, first + second) == appended_loads(loaded, first) + appended_loads(
            between,
            second,
        ),
    decreases second.len(),
{
    if second.len() == 0 {
        assert(first + second =~= first);
        assert(appended_loads(loaded, first) + appended_loads(between, second) =~= appended_loads(
            loaded,
            first,
        ));
    } else {
        let s2 = second.drop_last();
        lemma_appended_concat(loaded, between, first, s2);
        let all = first + second;
        assert(all.drop_last() =~= first + s2);
        assert(all.last() == second.last());
        let path = second.last().0;
        assert(requested(first + s2, path) == (requested(first, path) || requested(s2, path))) by {
            if requested(first + s2, path) {
                let k = choose|k: int| 0 <= k < (first + s2).len() && #[trigger] (first + s2)[k].0 == path;
                if k < first.len() {
                    assert((first + s2)[k] == first[k]);
                } else {
                    assert((first + s2)[k] == s2[k - first.len()]);
                }
            }
            if requested(first, path) {
                let k = choose|k: int| 0 <= k < first.len() && #[trigger] first[k].0 == path;
                assert((first + s2)[k] == first[k]);
            }
            if requested(s2, path) {
                let k = choose|k: int| 0 <= k < s2.len() && #[trigger] s2[k].0 == path;
                assert((first + s2)[first.len() + k] == s2[k]);
            }
        }
        assert(has_texture_path(between, path) == (has_texture_path(loaded, path) || requested(first, path)));
        let a = appended_loads(loaded, first);
        let b = appended_loads(between, s2);
        if has_texture_path(loaded, path) || requested(first + s2, path) {
        } else {
            assert(a + b.push(second.last()) =~= (a + b).push(second.last()));
        }
    }
}

/// The first texture with a given file stays the first one when textures
/// are only appended.
proof fn lemma_first_with_path_persists(
    before: Seq<Texture>,
    after: Seq<Texture>,
    path: Seq<char>,
    t: (u32, Seq<char>, Seq<char>),
)
    requires
        is_prefix_of(textures_view(before), textures_view(after)),
        is_first_with_path(before, path, t),
    ensures
        is_first_with_path(after, path, t),
{
    let vb = textures_view(before);
    let va = textures_view(after);
    let i = choose|i: int|
        0 <= i < before.len() && #[trigger] before[i]@ == t && before[i].path@ == path && forall|
            j: int,
        |
            0 <= j < i ==> #[trigger] before[j].path@ != path;
    assert(va.subrange(0, vb.len() as int)[i] == vb[i]);
    assert(after[i]@ == va[i]);
    assert forall|j: int| 0 <= j < i implies #[trigger] after[j].path@ != path by {
        assert(va.subrange(0, vb.len() as int)[j] == vb[j]);
        assert(after[j]@ == va[j]);
        assert(before[j]@ == vb[j]);
    }
    assert(after[i]@ == t);
}

/// Serving request `j` of a mesh: it is served from the cache exactly when
/// its file is cached, and it is an upload otherwise.
proof fn lemma_request_step(
    orig: Seq<Texture>,
    loaded: Seq<Texture>,
    textures: Seq<Texture>,
    wanted: Seq<(Seq<char>, TextureKind)>,
    j: int,
    ids: Seq<u32>,
)
    requires
        0 <= j < wanted.len(),
        textures.len() == j,
        forall|q: int| 0 <= q < j ==> #[trigger] textures[q].path@ == wanted[q].0,
        forall|q: int|
            0 <= q < j ==> is_first_with_path(loaded, textures[q].path@, #[trigger] textures[q]@),
        is_prefix_of(textures_view(orig), textures_view(loaded)),
        appended_part_is(orig, loaded, appended_loads(orig, wanted.take(j)), ids),
    ensures
        appended_loads(orig, wanted.take(j + 1)) == if has_texture_path(loaded, wanted[j].0) {
            appended_loads(orig, wanted.take(j))
        } else {
            appended_loads(orig, wanted.take(j)).push(wanted[j])
        },
{
    let vo = textures_view(orig);
    let vl = textures_view(loaded);
    let p = wanted[j].0;
    let w = wanted.take(j + 1);
    let prev = wanted.take(j);
    assert(w.drop_last() =~= prev);
    assert(w.last() == wanted[j]);
    let a = appended_loads(orig, prev);
    lemma_appended_requested(orig, prev);
    assert forall|i: int| 0 <= i < orig.len() implies #[trigger] loaded[i].path@ == orig[i].path@ by {
        assert(vl.subrange(0, vo.len() as int)[i] == vo[i]);
        assert(vl[i] == loaded[i]@);
        assert(vo[i] == orig[i]@);
    }
    if has_texture_path(loaded, p) {
        let i = choose|i: int| 0 <= i < loaded.len() && #[trigger] loaded[i].path@ == p;
        if i < orig.len() {
            assert(orig[i].path@ == p);
        } else {
            let q = i - orig.len();
            assert(loaded[orig.len() + q].path@ == a[q].0);
            assert(requested(prev, a[q].0));
        }
    } else {
        assert(!has_texture_path(orig, p)) by {
            if has_texture_path(orig, p) {
                let i = choose|i: int| 0 <= i < orig.len() && #[trigger] orig[i].path@ == p;
                assert(loaded[i].path@ == p);
            }
        }
        assert(!requested(prev, p)) by {
            if requested(prev, p) {
                let k = choose|k: int| 0 <= k < prev.len() && #[trigger] prev[k].0 == p;
                assert(textures[k].path@ == p);
                assert(is_first_with_path(loaded, textures[k].path@, textures[k]@));
                let i = choose|i: int|
                    0 <= i < loaded.len() && #[trigger] loaded[i]@ == textures[k]@
                        && loaded[i].path@ == textures[k].path@ && forall|m: int|
                        0 <= m < i ==> #[trigger] loaded[m].path@ != textures[k].path@;
                assert(loaded[i].path@ == p);
            }
        }
    }
}

/// After request `j` is served, with an upload whose texture `t` is
/// appended or from the cache, the mesh's textures so far are still the
/// first ones from their files and the cache holds what it held before the
/// mesh followed by the uploads so far.
proof fn lemma_cache_step(
    orig: Seq<Texture>,
    loaded_before: Seq<Texture>,
    loaded_after: Seq<Texture>,
    textures: Seq<Texture>,
    wanted: Seq<(Seq<char>, TextureKind)>,
    j: int,
    t: Texture,
    ids: Seq<u32>,
    used: int,
    uploaded: bool,
)
    requires
        0 <= j < wanted.len(),
        textures.len() == j,
        0 <= used <= ids.len(),
        forall|q: int|
            0 <= q < j ==> is_first_with_path(
                loaded_before,
                textures[q].path@,
                #[trigger] textures[q]@,
            ),
        is_prefix_of(textures_view(orig), textures_view(loaded_before)),
        appended_part_is(orig, loaded_before, appended_loads(orig, wanted.take(j)), ids.take(used)),
        t.path@ == wanted[j].0,
        uploaded == !has_texture_path(loaded_before, wanted[j].0),
        appended_loads(orig, wanted.take(j + 1)) == if uploaded {
            appended_loads(orig, wanted.take(j)).push(wanted[j])
        } else {
            appended_loads(orig, wanted.take(j))
        },
        uploaded ==> used < ids.len() && t@ == (ids[used], texture_kind_name(wanted[j].1), wanted[j].0)
            && textures_view(loaded_after) == textures_view(loaded_before).push(t@),
        !uploaded ==> is_first_with_path(loaded_before, wanted[j].0, t@) && loaded_after
            == loaded_before,
    ensures
        forall|q: int|
            0 <= q < j + 1 ==> is_first_with_path(
                loaded_after,
                textures.push(t)[q].path@,
                #[trigger] textures.push(t)[q]@,
            ),
        is_prefix_of(textures_view(loaded_before), textures_view(loaded_after)),
        is_prefix_of(textures_view(orig), textures_view(loaded_after)),
        appended_part_is(
            orig,
            loaded_after,
            appended_loads(orig, wanted.take(j + 1)),
            ids.take(if uploaded { used + 1 } else { used }),
        ),
{
    let vo = textures_view(orig);
    let vb = textures_view(loaded_before);
    let va = textures_view(loaded_after);
    let ts = textures.push(t);
    let a = appended_loads(orig, wanted.take(j));
    assert(va.len() == loaded_after.len());
    assert(vb.len() == loaded_before.len());
    assert(vo.len() == orig.len());
    assert(va.len() == vb.len() + (if uploaded { 1int } else { 0 }));
    assert(va.subrange(0, vb.len() as int) =~= vb);
    assert(va.subrange(0, vo.len() as int) =~= vb.subrange(0, vo.len() as int));
    if uploaded {
        lemma_remembered_file_is_cached(loaded_before, loaded_after, t);
    }
    assert forall|q: int| 0 <= q < j + 1 implies is_first_with_path(
        loaded_after,
        ts[q].path@,
        #[trigger] ts[q]@,
    ) by {
        if q < j {
            assert(ts[q] == textures[q]);
            lemma_first_with_path_persists(loaded_before, loaded_after, textures[q].path@, textures[q]@);
        } else {
            assert(ts[q] == t);
        }
    }
    let used2 = if uploaded { used + 1 } else { used };
    let a2 = appended_loads(orig, wanted.take(j + 1));
    let ids2 = ids.take(used2);
    assert forall|q: int| 0 <= q < a2.len() implies #[trigger] loaded_after[orig.len()
        + q].path@ == a2[q].0 && loaded_after[orig.len() + q].type_@ == texture_kind_name(a2[q].1)
        && loaded_after[orig.len() + q].id == ids2[q] by {
        let x = orig.len() + q;
        if q < a.len() {
            assert(a2[q] == a[q]);
            assert(ids2[q] == ids.take(used)[q]);
            assert(loaded_after[x]@ == va[x]);
            assert(loaded_before[x]@ == vb[x]);
            assert(va[x] == vb[x]);
            assert(loaded_before[orig.len() + q].path@ == a[q].0);
        } else {
            assert(loaded_after[x]@ == va[x]);
            assert(va[x] == t@);
        }
    }
}

/// The requests of mesh `k` are served after those of the meshes before it:
/// their uploads are those of the earlier meshes followed by those that
/// serving mesh `k` alone makes with the cache as it stands after them.
proof fn lemma_load_order_plan<T>(
    orig: Seq<Texture>,
    loaded: Seq<Texture>,
    objs: Seq<ObjMesh<T>>,
    k: int,
    materials: Seq<MaterialTextures>,
    ids: Seq<u32>,
)
    requires
        0 <= k < objs.len(),
        is_prefix_of(textures_view(orig), textures_view(loaded)),
        appended_part_is(orig, loaded, appended_loads(orig, objs_requests(objs.take(k), materials)), ids),
        forall|r: int|
            0 <= r < objs_requests(objs.take(k), materials).len() ==> has_texture_path(
                loaded,
                #[trigger] objs_requests(objs.take(k), materials)[r].0,
            ),
    ensures
        objs_requests(objs.take(k + 1), materials) == objs_requests(objs.take(k), materials)
            + mesh_requests(objs[k].material_id, materials),
        appended_loads(orig, objs_requests(objs.take(k + 1), materials)) == appended_loads(
            orig,
            objs_requests(objs.take(k), materials),
        ) + appended_loads(loaded, mesh_requests(objs[k].material_id, materials)),
{
    let vo = textures_view(orig);
    let vl = textures_view(loaded);
    let earlier = objs_requests(objs.take(k), materials);
    let requests = mesh_requests(objs[k].material_id, materials);
    assert(objs.take(k + 1).drop_last() =~= objs.take(k));
    assert(objs.take(k + 1).last() == objs[k]);
    assert(objs_requests(objs.take(k + 1), materials) == earlier + requests);
    let a = appended_loads(orig, earlier);
    lemma_appended_requested(orig, earlier);
    assert forall|i: int| 0 <= i < orig.len() implies #[trigger] loaded[i].path@ == orig[i].path@ by {
        assert(vl.subrange(0, vo.len() as int)[i] == vo[i]);
        assert(vl[i] == loaded[i]@);
        assert(vo[i] == orig[i]@);
    }
    assert forall|p: Seq<char>|
        #[trigger] has_texture_path(loaded, p) == (has_texture_path(orig, p) || requested(
            earlier,
            p,
        )) by {
        if has_texture_path(loaded, p) {
            let i = choose|i: int| 0 <= i < loaded.len() && #[trigger] loaded[i].path@ == p;
            if i < orig.len() {
                assert(orig[i].path@ == p);
            } else {
                let q = i - orig.len();
                assert(loaded[orig.len() + q].path@ == a[q].0);
                assert(requested(earlier, a[q].0));
            }
        }
        if has_texture_path(orig, p) {
            let i = choose|i: int| 0 <= i < orig.len() && #[trigger] orig[i].path@ == p;
            assert(loaded[i].path@ == p);
        }
        if requested(earlier, p) {
            let r = choose|r: int| 0 <= r < earlier.len() && #[trigger] earlier[r].0 == p;
            assert(has_texture_path(loaded, earlier[r].0));
        }
    }
    lemma_appended_concat(orig, loaded, earlier, requests);
}

/// After mesh `k` is built, the cache holds what it held before the meshes,
/// then the uploads of meshes `0..=k` with the GPU names `ids` gives them,
/// and every file those meshes ask for.
proof fn lemma_load_step<T>(
    orig: Seq<Texture>,
    loaded_before: Seq<Texture>,
    loaded_after: Seq<Texture>,
    objs: Seq<ObjMesh<T>>,
    k: int,
    materials: Seq<MaterialTextures>,
    mesh: MeshData<T>,
    ids: Seq<u32>,
    offset: int,
)
    requires
        0 <= k < objs.len(),
        is_prefix_of(textures_view(orig), textures_view(loaded_before)),
        is_prefix_of(textures_view(loaded_before), textures_view(loaded_after)),
        objs_requests(objs.take(k + 1), materials) == objs_requests(objs.take(k), materials)
            + mesh_requests(objs[k].material_id, materials),
        appended_loads(orig, objs_requests(objs.take(k + 1), materials)) == appended_loads(
            orig,
            objs_requests(objs.take(k), materials),
        ) + appended_loads(loaded_before, mesh_requests(objs[k].material_id, materials)),
        0 <= offset,
        offset + appended_loads(loaded_before, mesh_requests(objs[k].material_id, materials)).len()
            <= ids.len(),
        appended_part_is(
            orig,
            loaded_before,
            appended_loads(orig, objs_requests(objs.take(k), materials)),
            ids.take(offset),
        ),
        appended_part_is(
            loaded_before,
            loaded_after,
            appended_loads(loaded_before, mesh_requests(objs[k].material_id, materials)),
            ids.subrange(
                offset,
                offset + appended_loads(loaded_before, mesh_requests(objs[k].material_id, materials)).len(),
            ),
        ),
        forall|r: int|
            0 <= r < objs_requests(objs.take(k), materials).len() ==> has_texture_path(
                loaded_before,
                #[trigger] objs_requests(objs.take(k), materials)[r].0,
            ),
        mesh_built_from(mesh, objs[k], materials),
        forall|j: int|
            0 <= j < mesh.textures@.len() ==> is_first_with_path(
                loaded_after,
                mesh.textures@[j].path@,
                #[trigger] mesh.textures@[j]@,
            ),
    ensures
        is_prefix_of(textures_view(orig), textures_view(loaded_after)),
        appended_part_is(
            orig,
            loaded_after,
            appended_loads(orig, objs_requests(objs.take(k + 1), materials)),
            ids.take(
                offset + appended_loads(loaded_before, mesh_requests(objs[k].material_id, materials)).len(),
            ),
        ),
        forall|r: int|
            0 <= r < objs_requests(objs.take(k + 1), materials).len() ==> has_texture_path(
                loaded_after,
                #[trigger] objs_requests(objs.take(k + 1), materials)[r].0,
            ),
{
    let vo = textures_view(orig);
    let vb = textures_view(loaded_before);
    let va = textures_view(loaded_after);
    let earlier = objs_requests(objs.take(k), materials);
    let requests = mesh_requests(objs[k].material_id, materials);
    let all = earlier + requests;
    let a = appended_loads(orig, earlier);
    let b = appended_loads(loaded_before, requests);
    let ab = a + b;
    let n = offset + b.len();
    let ids2 = ids.take(n);
    let mesh_ids = ids.subrange(offset, n);
    assert forall|i: int| 0 <= i < vb.len() implies #[trigger] va[i] == vb[i] by {
        assert(va.subrange(0, vb.len() as int)[i] == vb[i]);
    }
    assert(va.subrange(0, vo.len() as int) =~= vo) by {
        assert forall|i: int| 0 <= i < vo.len() implies va[i] == vo[i] by {
            assert(vb.subrange(0, vo.len() as int)[i] == vo[i]);
        }
    }
    assert forall|q: int| 0 <= q < ab.len() implies #[trigger] loaded_after[orig.len()
        + q].path@ == ab[q].0 && loaded_after[orig.len() + q].type_@ == texture_kind_name(ab[q].1)
        && loaded_after[orig.len() + q].id == ids2[q] by {
        let x = orig.len() + q;
        if q < a.len() {
            assert(ab[q] == a[q]);
            assert(ids2[q] == ids.take(offset)[q]);
            assert(loaded_after[x]@ == va[x]);
            assert(loaded_before[x]@ == vb[x]);
            assert(loaded_before[orig.len() + q].path@ == a[q].0);
        } else {
            let q2 = q - a.len();
            assert(ab[q] == b[q2]);
            assert(ids2[q] == mesh_ids[q2]);
            assert(loaded_after[loaded_before.len() + q2].path@ == b[q2].0);
            assert(x == loaded_before.len() + q2);
        }
    }
    assert forall|r: int| 0 <= r < all.len() implies has_texture_path(loaded_after, #[trigger] all[r].0) by {
        if r < earlier.len() {
            assert(all[r] == earlier[r]);
            assert(has_texture_path(loaded_before, earlier[r].0));
            let i = choose|i: int| 0 <= i < loaded_before.len() && #[trigger] loaded_before[i].path@ == earlier[r].0;
            assert(vb[i] == loaded_before[i]@);
            assert(loaded_after[i]@ == va[i]);
            assert(loaded_after[i].path@ == earlier[r].0);
        } else {
            let j = r - earlier.len();
            assert(all[r] == requests[j]);
            assert(mesh.textures@[j].path@ == requests[j].0);
            assert(is_first_with_path(loaded_after, mesh.textures@[j].path@, mesh.textures@[j]@));
        }
    }
}

/// How a material's texture is served: from the model's cache, or by an
/// upload of its file that the caller makes.
#[derive(Debug)]
pub enum TextureStep {
    /// The first texture loaded before from the file; nothing is uploaded.
    Cached(Texture),
    /// The file has not been loaded for this model: upload it and hand its
    /// GPU name to `remember_upload`.
    Upload,
}

/// Whether `plan` holds a request for file `path`.
fn plans_file(plan: &Vec<TextureRequest>, path: &str) -> (found: bool)
    ensures
        found == uploads_file(requests_view(plan@), path@),
{
    let target = path.to_owned();
    let ghost pv = requests_view(plan@);
    let mut i: usize = 0;
    while i < plan.len()
        invariant
            target@ == path@,
            pv == requests_view(plan@),
            i <= plan@.len(),
            forall|k: int| 0 <= k < i ==> #[trigger] pv[k].0 != path@,
        decreases plan@.len() - i,
    {
        if plan[i].path == target {
            assert(pv[i as int].0 == path@);
            return true;
        }
        i = i + 1;
    }
    false
}

/// The textures the mesh `obj` asks for (see `mesh_requests`).
fn mesh_texture_requests<T>(obj: &ObjMesh<T>, materials: &Vec<MaterialTextures>) -> (requests: Vec<
    TextureRequest,
>)
    requires
        obj_loadable(*obj, materials@),
    ensures
        requests_view(requests@) == mesh_requests(obj.material_id, materials@),
{
    let requests = match obj.material_id {
        Some(m) => texture_requests(&materials[m]),
        None => Vec::new(),
    };
    assert(requests_view(requests@) =~= mesh_requests(obj.material_id, materials@));
    requests
}

/// The textures the meshes `objs` ask for, mesh after mesh (see
/// `objs_requests`).
pub fn model_texture_requests<T>(objs: &Vec<ObjMesh<T>>, materials: &Vec<MaterialTextures>) -> (requests:
    Vec<TextureRequest>)
    requires
        forall|k: int| 0 <= k < objs@.len() ==> obj_loadable(#[trigger] objs@[k], materials@),
    ensures
        requests_view(requests@) == objs_requests(objs@, materials@),
{
    let mut all: Vec<TextureRequest> = Vec::new();
    let mut k: usize = 0;
    assert(objs@.take(0) =~= Seq::<ObjMesh<T>>::empty());
    assert(requests_view(all@) =~= Seq::empty());
    while k < objs.len()
        invariant
            forall|k: int| 0 <= k < objs@.len() ==> obj_loadable(#[trigger] objs@[k], materials@),
            k <= objs@.len(),
            requests_view(all@) == objs_requests(objs@.take(k as int), materials@),
        decreases objs@.len() - k,
    {
        let mesh = mesh_texture_requests(&objs[k], materials);
        let ghost before = all@;
        let mut i: usize = 0;
        while i < mesh.len()
            invariant
                i <= mesh@.len(),
                all@ == before + mesh@.take(i as int),
            decreases mesh@.len() - i,
        {
            all.push(TextureRequest { path: mesh[i].path.clone(), kind: mesh[i].kind });
            assert(mesh@.take(i + 1) =~= mesh@.take(i as int).push(mesh@[i as int]));
            assert(all@ =~= before + mesh@.take(i + 1));
            i = i + 1;
        }
        assert(mesh@.take(mesh@.len() as int) =~= mesh@);
        assert(objs@.take(k + 1).drop_last() =~= objs@.take(k as int));
        assert(objs@.take(k + 1).last() == objs@[k as int]);
        assert(requests_view(before + mesh@) =~= requests_view(before) + requests_view(mesh@));
        k = k + 1;
    }
    assert(objs@.take(objs@.len() as int) =~= objs@);
    all
}

/// `ids[start..start + count]`.
fn id_range(ids: &Vec<u32>, start: usize, count: usize) -> (range: Vec<u32>)
    requires
        start + count <= ids@.len(),
    ensures
        range@ == ids@.subrange(start as int, start + count),
{
    let mut range: Vec<u32> = Vec::new();
    let n_ids = ids.len();
    let mut i: usize = 0;
    while i < count
        invariant
            n_ids == ids@.len(),
            start + count <= ids@.len(),
            i <= count,
            range@ == ids@.subrange(start as int, start + i),
        decreases count - i,
    {
        range.push(ids[start + i]);
        assert(range@ =~= ids@.subrange(start as int, start + i + 1));
        i = i + 1;
    }
    range
}

impl<T> Model<T> {
    /// A model with no meshes and no textures yet whose files live in
    /// `directory`.
    pub fn new(directory: String) -> (model: Model<T>)
        ensures
            model.meshes@.len() == 0,
            model.textures_loaded@.len() == 0,
            model.directory@ == directory@,
    {
        Model { meshes: Vec::new(), textures_loaded: Vec::new(), directory }
    }

    /// The first texture loaded so far from file `path`, if any.
    pub fn find_loaded_texture(&self, path: &str) -> (found: Option<Texture>)
        ensures
            match found {
                None => !has_texture_path(self.textures_loaded@, path@),
                Some(t) => is_first_with_path(self.textures_loaded@, path@, t@),
            },
    {
        let target = path.to_owned();
        let mut i: usize = 0;
        while i < self.textures_loaded.len()
            invariant
                target@ == path@,
                i <= self.textures_loaded@.len(),
                forall|j: int| 0 <= j < i ==> #[trigger] self.textures_loaded@[j].path@ != path@,
            decreases self.textures_loaded@.len() - i,
        {
            if self.textures_loaded[i].path == target {
                let t = self.textures_loaded[i].duplicate();
                assert(self.textures_loaded@[i as int]@ == t@);
                return Some(t);
            }
            i = i + 1;
        }
        None
    }

    /// How the texture of file `path` is served for a material: from the
    /// cache, with the first texture loaded before from that file (and the
    /// type it was loaded with), or by an upload when no texture comes from
    /// that file. Nothing is uploaded or changed here.
    pub fn load_material_texture(&self, path: &str) -> (step: TextureStep)
        ensures
            match step {
                TextureStep::Cached(t) => is_first_with_path(self.textures_loaded@, path@, t@),
                TextureStep::Upload => !has_texture_path(self.textures_loaded@, path@),
            },
    {
        match self.find_loaded_texture(path) {
            Some(t) => TextureStep::Cached(t),
            None => TextureStep::Upload,
        }
    }

    /// Remembers the texture of type `kind_name` that the GPU named `id`
    /// when file `path`, not loaded before, was uploaded: it is appended to
    /// the cache, so that the file is served from the cache from now on.
    pub fn remember_upload(&mut self, path: &str, kind_name: &str, id: u32) -> (texture: Texture)
        requires
            !has_texture_path(old(self).textures_loaded@, path@),
        ensures
            texture@ == (id, kind_name@, path@),
            textures_view(final(self).textures_loaded@) == textures_view(old(self).textures_loaded@).push(
                texture@,
            ),
            is_first_with_path(final(self).textures_loaded@, path@, texture@),
            final(self).meshes@ == old(self).meshes@,
            final(self).directory@ == old(self).directory@,
            texture_paths_unique(old(self).textures_loaded@) ==> texture_paths_unique(
                final(self).textures_loaded@,
            ),
    {
        let texture = Texture { id, type_: kind_name.to_owned(), path: path.to_owned() };
        let ghost before = self.textures_loaded@;
        self.textures_loaded.push(texture.duplicate());
        assert(textures_view(self.textures_loaded@) =~= textures_view(before).push(texture@));
        proof {
            lemma_remembered_file_is_cached(before, self.textures_loaded@, texture);
            if texture_paths_unique(before) {
                assert forall|i: int, j: int|
                    0 <= i < j < self.textures_loaded@.len() implies #[trigger] self.textures_loaded@[i].path@
                    != #[trigger] self.textures_loaded@[j].path@ by {
                    assert(self.textures_loaded@[i] == before[i]);
                    if j < before.len() {
                        assert(self.textures_loaded@[j] == before[j]);
                    }
                }
            }
        }
        texture
    }

    /// The uploads that serving `requests` in order needs (see
    /// `appended_loads`): each request whose file the cache does not hold
    /// and no earlier request names. Every file is in it at most once.
    pub fn uploads_for(&self, requests: &Vec<TextureRequest>) -> (plan: Vec<TextureRequest>)
        ensures
            requests_view(plan@) == appended_loads(self.textures_loaded@, requests_view(requests@)),
    {
        let ghost rv = requests_view(requests@);
        let ghost cache = self.textures_loaded@;
        let mut plan: Vec<TextureRequest> = Vec::new();
        let mut i: usize = 0;
        assert(requests_view(plan@) =~= Seq::empty());
        while i < requests.len()
            invariant
                rv == requests_view(requests@),
                cache == self.textures_loaded@,
                i <= requests@.len(),
                requests_view(plan@) == appended_loads(cache, rv.take(i as int)),
            decreases requests@.len() - i,
        {
            let ghost prev = rv.take(i as int);
            let ghost p = rv[i as int].0;
            assert(rv.take(i + 1).drop_last() =~= prev);
            assert(rv.take(i + 1).last() == rv[i as int]);
            let cached = self.find_loaded_texture(requests[i].path.as_str()).is_some();
            if !cached {
                let planned = plans_file(&plan, requests[i].path.as_str());
                proof {
                    lemma_appended_requested(cache, prev);
                    if requested(prev, p) {
                        lemma_appended_covers(cache, prev, p);
                    }
                    if uploads_file(appended_loads(cache, prev), p) {
                        let q = choose|q: int|
                            0 <= q < appended_loads(cache, prev).len() && #[trigger] appended_loads(
                                cache,
                                prev,
                            )[q].0 == p;
                        assert(requested(prev, appended_loads(cache, prev)[q].0));
                    }
                }
                if !planned {
                    let ghost before = plan@;
                    plan.push(TextureRequest { path: requests[i].path.clone(), kind: requests[i].kind });
                    assert(requests_view(plan@) =~= requests_view(before).push(rv[i as int]));
                }
            }
            i = i + 1;
        }
        assert(rv.take(rv.len() as int) =~= rv);
        plan
    }

    /// The uploads that loading the meshes `objs` needs, in the order they
    /// are made (see `appended_loads` and `objs_requests`). The caller
    /// uploads each and hands the GPU names, in that order, to
    /// `load_meshes`.
    pub fn plan_uploads(&self, objs: &Vec<ObjMesh<T>>, materials: &Vec<MaterialTextures>) -> (plan: Vec<
        TextureRequest,
    >)
        requires
            forall|k: int| 0 <= k < objs@.len() ==> obj_loadable(#[trigger] objs@[k], materials@),
        ensures
            requests_view(plan@) == appended_loads(self.textures_loaded@, objs_requests(objs@, materials@)),
    {
        let requests = model_texture_requests(objs, materials);
        self.uploads_for(&requests)
    }

    /// Builds the mesh of one OBJ mesh: assembles its vertices, copies its
    /// indices and serves each texture its material asks for, in the
    /// material's order. A texture whose file is cached is taken from the
    /// cache; the others are the uploads of `appended_loads`, whose GPU
    /// names `ids` gives in order, and are remembered. So each file is
    /// uploaded at most once, and each texture of the mesh is the first
    /// loaded texture from its file.
    pub fn process_mesh(
        &mut self,
        obj: &ObjMesh<T>,
        materials: &Vec<MaterialTextures>,
        ids: &Vec<u32>,
    ) -> (mesh: MeshData<T>) where T: Copy
        requires
            obj_loadable(*obj, materials@),
            ids@.len() == appended_loads(
                old(self).textures_loaded@,
                mesh_requests(obj.material_id, materials@),
            ).len(),
        ensures
            mesh_built_from(mesh, *obj, materials@),
            final(self).meshes@ == old(self).meshes@,
            final(self).directory@ == old(self).directory@,
            is_prefix_of(
                textures_view(old(self).textures_loaded@),
                textures_view(final(self).textures_loaded@),
            ),
            texture_paths_unique(old(self).textures_loaded@) ==> texture_paths_unique(
                final(self).textures_loaded@,
            ),
            forall|j: int|
                0 <= j < mesh.textures@.len() ==> is_first_with_path(
                    final(self).textures_loaded@,
                    mesh.textures@[j].path@,
                    #[trigger] mesh.textures@[j]@,
                ),
            appended_part_is(
                old(self).textures_loaded@,
                final(self).textures_loaded@,
                appended_loads(old(self).textures_loaded@, mesh_requests(obj.material_id, materials@)),
                ids@,
            ),
    {
        let vertices = assemble_vertices(obj);
        let indices = obj.indices.clone();
        assert(indices@ =~= obj.indices@);
        let requests = mesh_texture_requests(obj, materials);
        let ghost wanted = mesh_requests(obj.material_id, materials@);
        let ghost orig = self.textures_loaded@;
        let ghost was_unique = texture_paths_unique(self.textures_loaded@);
        let mut textures: Vec<Texture> = Vec::new();
        let n_ids = ids.len();
        let mut j: usize = 0;
        let mut used: usize = 0;
        assert(textures_view(orig).subrange(0, orig.len() as int) =~= textures_view(orig));
        assert(ids@.take(0) =~= Seq::<u32>::empty());
        while j < requests.len()
            invariant
                requests_view(requests@) == wanted,
                orig == old(self).textures_loaded@,
                j <= requests@.len(),
                textures@.len() == j,
                forall|q: int| 0 <= q < j ==> #[trigger] textures@[q].path@ == wanted[q].0,
                forall|q: int|
                    0 <= q < j ==> is_first_with_path(
                        self.textures_loaded@,
                        textures@[q].path@,
                        #[trigger] textures@[q]@,
                    ),
                is_prefix_of(textures_view(orig), textures_view(self.textures_loaded@)),
                ids@.len() == appended_loads(orig, wanted).len(),
                n_ids == ids@.len(),
                used == appended_loads(orig, wanted.take(j as int)).len(),
                used <= ids@.len(),
                appended_part_is(
                    orig,
                    self.textures_loaded@,
                    appended_loads(orig, wanted.take(j as int)),
                    ids@.take(used as int),
                ),
                was_unique ==> texture_paths_unique(self.textures_loaded@),
                self.meshes@ == old(self).meshes@,
                self.directory@ == old(self).directory@,
            decreases requests@.len() - j,
        {
            let ghost loaded_before = self.textures_loaded@;
            proof {
                lemma_request_step(orig, loaded_before, textures@, wanted, j as int, ids@.take(used as int));
                assert(wanted.subrange(0, j + 1) =~= wanted.take(j + 1));
                lemma_appended_prefix(orig, wanted.take(j + 1), wanted);
            }
            let t;
            let uploaded: bool;
            match self.load_material_texture(requests[j].path.as_str()) {
                TextureStep::Cached(cached) => {
                    uploaded = false;
                    t = cached;
                },
                TextureStep::Upload => {
                    uploaded = true;
                    let kind_name = requests[j].kind.shader_name();
                    t = self.remember_upload(requests[j].path.as_str(), kind_name.as_str(), ids[used]);
                },
            }
            proof {
                lemma_cache_step(
                    orig,
                    loaded_before,
                    self.textures_loaded@,
                    textures@,
                    wanted,
                    j as int,
                    t,
                    ids@,
                    used as int,
                    uploaded,
                );
            }
            if uploaded {
                used = used + 1;
            }
            textures.push(t);
            j = j + 1;
        }
        assert(wanted.take(wanted.len() as int) =~= wanted);
        assert(ids@.take(used as int) =~= ids@);
        MeshData { vertices, indices, textures }
    }

    /// Loads the meshes of an OBJ model into this model, in order: each is
    /// built by `process_mesh` and appended to `meshes`. The uploads are
    /// those `plan_uploads` gives, whose GPU names `ids` holds in that
    /// order; textures shared by several meshes, or loaded for this model
    /// before, are served from the cache. Each texture of a new mesh is the
    /// first loaded texture from its file, and every file the meshes ask for
    /// is loaded afterwards.
    pub fn load_meshes(
        &mut self,
        objs: &Vec<ObjMesh<T>>,
        materials: &Vec<MaterialTextures>,
        ids: &Vec<u32>,
    ) where T: Copy
        requires
            forall|k: int| 0 <= k < objs@.len() ==> obj_loadable(#[trigger] objs@[k], materials@),
            ids@.len() == appended_loads(old(self).textures_loaded@, objs_requests(objs@, materials@)).len(),
        ensures
            final(self).meshes@.len() == old(self).meshes@.len() + objs@.len(),
            forall|k: int|
                0 <= k < old(self).meshes@.len() ==> #[trigger] final(self).meshes@[k]
                    == old(self).meshes@[k],
            forall|k: int|
                0 <= k < objs@.len() ==> mesh_built_from(
                    #[trigger] final(self).meshes@[old(self).meshes@.len() + k],
                    objs@[k],
                    materials@,
                ),
            forall|k: int, j: int|
                old(self).meshes@.len() <= k < final(self).meshes@.len() && 0 <= j
                    < final(self).meshes@[k].textures@.len() ==> is_first_with_path(
                    final(self).textures_loaded@,
                    final(self).meshes@[k].textures@[j].path@,
                    #[trigger] final(self).meshes@[k].textures@[j]@,
                ),
            final(self).directory@ == old(self).directory@,
            is_prefix_of(
                textures_view(old(self).textures_loaded@),
                textures_view(final(self).textures_loaded@),
            ),
            texture_paths_unique(old(self).textures_loaded@) ==> texture_paths_unique(
                final(self).textures_loaded@,
            ),
            appended_part_is(
                old(self).textures_loaded@,
                final(self).textures_loaded@,
                appended_loads(old(self).textures_loaded@, objs_requests(objs@, materials@)),
                ids@,
            ),
            forall|r: int|
                0 <= r < objs_requests(objs@, materials@).len() ==> has_texture_path(
                    final(self).textures_loaded@,
                    #[trigger] objs_requests(objs@, materials@)[r].0,
                ),
    {
        let ghost first_new = self.meshes@.len();
        let ghost orig = self.textures_loaded@;
        let ghost was_unique = texture_paths_unique(self.textures_loaded@);
        assert(textures_view(orig).subrange(0, orig.len() as int) =~= textures_view(orig));
        assert(objs@.take(0) =~= Seq::<ObjMesh<T>>::empty());
        assert(ids@.take(0) =~= Seq::<u32>::empty());
        let n_ids = ids.len();
        let mut k: usize = 0;
        let mut offset: usize = 0;
        while k < objs.len()
            invariant
                forall|k: int| 0 <= k < objs@.len() ==> obj_loadable(#[trigger] objs@[k], materials@),
                ids@.len() == appended_loads(orig, objs_requests(objs@, materials@)).len(),
                n_ids == ids@.len(),
                orig == old(self).textures_loaded@,
                k <= objs@.len(),
                first_new == old(self).meshes@.len(),
                self.meshes@.len() == first_new + k,
                forall|q: int| 0 <= q < first_new ==> #[trigger] self.meshes@[q] == old(self).meshes@[q],
                forall|q: int|
                    0 <= q < k ==> mesh_built_from(
                        #[trigger] self.meshes@[first_new + q],
                        objs@[q],
                        materials@,
                    ),
                forall|q: int, j: int|
                    first_new <= q < self.meshes@.len() && 0 <= j < self.meshes@[q].textures@.len()
                        ==> is_first_with_path(
                        self.textures_loaded@,
                        self.meshes@[q].textures@[j].path@,
                        #[trigger] self.meshes@[q].textures@[j]@,
                    ),
                self.directory@ == old(self).directory@,
                is_prefix_of(textures_view(orig), textures_view(self.textures_loaded@)),
                was_unique ==> texture_paths_unique(self.textures_loaded@),
                offset == appended_loads(orig, objs_requests(objs@.take(k as int), materials@)).len(),
                appended_part_is(
                    orig,
                    self.textures_loaded@,
                    appended_loads(orig, objs_requests(objs@.take(k as int), materials@)),
                    ids@.take(offset as int),
                ),
                forall|r: int|
                    0 <= r < objs_requests(objs@.take(k as int), materials@).len() ==> has_texture_path(
                        self.textures_loaded@,
                        #[trigger] objs_requests(objs@.take(k as int), materials@)[r].0,
                    ),
            decreases objs@.len() - k,
        {
            let ghost loaded_before = self.textures_loaded@;
            let ghost meshes_before = self.meshes@;
            let requests = mesh_texture_requests(&objs[k], materials);
            let count = self.uploads_for(&requests).len();
            proof {
                lemma_load_order_plan(orig, loaded_before, objs@, k as int, materials@, ids@.take(offset as int));
                lemma_objs_requests_prefix(objs@, materials@, k + 1);
                lemma_appended_prefix(
                    orig,
                    objs_requests(objs@.take(k + 1), materials@),
                    objs_requests(objs@, materials@),
                );
            }
            let mesh_ids = id_range(ids, offset, count);
            let mesh = self.process_mesh(&objs[k], materials, &mesh_ids);
            proof {
                lemma_load_step(
                    orig,
                    loaded_before,
                    self.textures_loaded@,
                    objs@,
                    k as int,
                    materials@,
                    mesh,
                    ids@,
                    offset as int,
                );
                assert forall|q: int, j: int|
                    first_new <= q < meshes_before.len() && 0 <= j
                        < meshes_before[q].textures@.len() implies is_first_with_path(
                    self.textures_loaded@,
                    meshes_before[q].textures@[j].path@,
                    #[trigger] meshes_before[q].textures@[j]@,
                ) by {
                    lemma_first_with_path_persists(
                        loaded_before,
                        self.textures_loaded@,
                        meshes_before[q].textures@[j].path@,
                        meshes_before[q].textures@[j]@,
                    );
                }
            }
            self.meshes.push(mesh);
            k = k + 1;
            offset = offset + count;
        }
        assert(objs@.take(objs@.len() as int) =~= objs@);
        assert(ids@.take(offset as int) =~= ids@);
    }
}

/// The order in which a material's maps are asked for: diffuse, specular,
/// normal.
pub open spec fn kind_rank(kind: TextureKind) -> int {
    match kind {
        TextureKind::Diffuse => 0,
        TextureKind::Specular => 1,
        TextureKind::Normal => 2,
    }
}

/// The file a material names for maps of `kind`.
pub open spec fn material_file(material: MaterialTextures, kind: TextureKind) -> Seq<char> {
    match kind {
        TextureKind::Diffuse => material.diffuse@,
        TextureKind::Specular => material.specular@,
        TextureKind::Normal => material.normal@,
    }
}

/// A material asks for one texture per map it names, and for nothing else:
/// each request is for the file the material names for the request's kind,
/// that file is not empty, every kind with a named file is asked for, and
/// the requests come in the order diffuse, specular, normal, each kind at
/// most once.
pub proof fn lemma_material_requests_meaning(material: MaterialTextures, kind: TextureKind)
    ensures
        forall|j: int|
            0 <= j < material_requests(material).len() ==> (#[trigger] material_requests(material)[j]).0
                == material_file(material, material_requests(material)[j].1) && material_file(
                material,
                material_requests(material)[j].1,
            ).len() > 0,
        material_file(material, kind).len() > 0 <==> exists|j: int|
            0 <= j < material_requests(material).len() && (#[trigger] material_requests(material)[j]).1
                == kind,
        forall|i: int, j: int|
            0 <= i < j < material_requests(material).len() ==> kind_rank(
                (#[trigger] material_requests(material)[i]).1,
            ) < kind_rank((#[trigger] material_requests(material)[j]).1),
{
    let r = material_requests(material);
    let sd: Seq<(Seq<char>, TextureKind)> = if material.diffuse@.len() > 0 {
        seq![(material.diffuse@, TextureKind::Diffuse)]
    } else {
        Seq::empty()
    };
    let ss: Seq<(Seq<char>, TextureKind)> = if material.specular@.len() > 0 {
        seq![(material.specular@, TextureKind::Specular)]
    } else {
        Seq::empty()
    };
    let sn: Seq<(Seq<char>, TextureKind)> = if material.normal@.len() > 0 {
        seq![(material.normal@, TextureKind::Normal)]
    } else {
        Seq::empty()
    };
    let r1 = sd + ss;
    assert(r == r1 + sn);
    assert forall|k: int| 0 <= k < r.len() implies #[trigger] r[k] == (if k < sd.len() {
        (material.diffuse@, TextureKind::Diffuse)
    } else if k < r1.len() {
        (material.specular@, TextureKind::Specular)
    } else {
        (material.normal@, TextureKind::Normal)
    }) by {
        if k < r1.len() {
            assert(r[k] == r1[k]);
            if k < sd.len() {
                assert(r1[k] == sd[k]);
            } else {
                assert(r1[k] == ss[k - sd.len()]);
            }
        } else {
            assert(r[k] == sn[k - r1.len()]);
        }
    }
    if material_file(material, kind).len() > 0 {
        let j = match kind {
            TextureKind::Diffuse => 0,
            TextureKind::Specular => sd.len() as int,
            TextureKind::Normal => r1.len() as int,
        };
        assert(r[j].1 == kind);
    }
}

} // verus!
