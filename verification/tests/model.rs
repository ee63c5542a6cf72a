use learn_opengl::mesh::ObjMesh;
use learn_opengl::model::{
    model_texture_requests, sampler_names, texture_requests, MaterialTextures, Model, Texture, TextureKind,
    TextureStep,
};

fn material(diffuse: &str, specular: &str, normal: &str) -> MaterialTextures {
    MaterialTextures {
        diffuse: diffuse.to_string(),
        specular: specular.to_string(),
        normal: normal.to_string(),
    }
}

fn quad(material_id: Option<usize>) -> ObjMesh<f32> {
    ObjMesh {
        positions: vec![0.0; 12],
        normals: vec![0.0; 12],
        texcoords: vec![0.0; 8],
        indices: vec![0, 1, 2, 0, 2, 3],
        material_id,
    }
}

#[test]
fn kind_names() {
    assert_eq!(TextureKind::Diffuse.shader_name(), "texture_diffuse");
    assert_eq!(TextureKind::Specular.shader_name(), "texture_specular");
    assert_eq!(TextureKind::Normal.shader_name(), "texture_normal");
}

#[test]
fn requests_follow_material_order() {
    let requests = texture_requests(&material("d.png", "s.png", "n.png"));
    let seen: Vec<(String, TextureKind)> =
        requests.iter().map(|r| (r.path.clone(), r.kind)).collect();
    assert_eq!(
        seen,
        vec![
            ("d.png".to_string(), TextureKind::Diffuse),
            ("s.png".to_string(), TextureKind::Specular),
            ("n.png".to_string(), TextureKind::Normal),
        ]
    );
}

#[test]
fn requests_skip_unnamed_maps() {
    let requests = texture_requests(&material("", "s.png", ""));
    assert_eq!(requests.len(), 1);
    assert_eq!(requests[0].path, "s.png");
    assert_eq!(requests[0].kind, TextureKind::Specular);
    assert!(texture_requests(&material("", "", "")).is_empty());
}

#[test]
fn new_model_is_empty() {
    let model: Model<f32> = Model::new("resources/objects/rock".to_string());
    assert!(model.meshes.is_empty());
    assert!(model.textures_loaded.is_empty());
    assert_eq!(model.directory, "resources/objects/rock");
}

/// Plans the uploads of `objs`, makes them with `upload` and loads the
/// meshes; gives back the files uploaded, in order.
fn load(model: &mut Model<f32>, objs: &Vec<ObjMesh<f32>>, materials: &Vec<MaterialTextures>,
        upload: impl Fn(&str) -> u32) -> Vec<String> {
    let plan = model.plan_uploads(objs, materials);
    let ids: Vec<u32> = plan.iter().map(|r| upload(&r.path)).collect();
    model.load_meshes(objs, materials, &ids);
    plan.iter().map(|r| r.path.clone()).collect()
}

#[test]
fn texture_is_uploaded_once() {
    let mut model: Model<f32> = Model::new("dir".to_string());
    assert!(matches!(model.load_material_texture("rock.png"), TextureStep::Upload));
    let first = model.remember_upload("rock.png", "texture_diffuse", 41);
    assert_eq!(first.id, 41);
    assert_eq!(first.path, "rock.png");
    assert_eq!(first.type_, "texture_diffuse");
    match model.load_material_texture("rock.png") {
        TextureStep::Cached(again) => {
            assert_eq!(again.id, 41);
            assert_eq!(again.type_, "texture_diffuse");
        }
        TextureStep::Upload => panic!("a cached file is uploaded again"),
    }
    assert_eq!(model.textures_loaded.len(), 1);
    assert!(matches!(model.load_material_texture("moss.png"), TextureStep::Upload));
    let other = model.remember_upload("moss.png", "texture_normal", 42);
    assert_eq!(other.id, 42);
    assert_eq!(model.textures_loaded.len(), 2);
    assert_eq!(model.textures_loaded[1].path, "moss.png");
}

#[test]
fn find_returns_first_match() {
    let mut model: Model<f32> = Model::new("dir".to_string());
    model.textures_loaded.push(Texture { id: 1, type_: "a".to_string(), path: "x".to_string() });
    model.textures_loaded.push(Texture { id: 2, type_: "b".to_string(), path: "y".to_string() });
    model.textures_loaded.push(Texture { id: 3, type_: "c".to_string(), path: "x".to_string() });
    assert_eq!(model.find_loaded_texture("x").map(|t| t.id), Some(1));
    assert_eq!(model.find_loaded_texture("y").map(|t| t.id), Some(2));
    assert!(model.find_loaded_texture("z").is_none());
}

#[test]
fn meshes_share_textures() {
    let mut model: Model<f32> = Model::new("planet".to_string());
    let materials = vec![material("planet.png", "", ""), material("planet.png", "spec.png", "")];
    let objs = vec![quad(Some(0)), quad(Some(1)), quad(None)];
    let uploaded = load(&mut model, &objs, &materials, |file| if file == "planet.png" { 10 } else { 20 });
    assert_eq!(uploaded, vec!["planet.png", "spec.png"]);
    assert_eq!(model.meshes.len(), 3);
    assert_eq!(model.meshes[0].vertices.len(), 4);
    assert_eq!(model.meshes[0].indices, vec![0, 1, 2, 0, 2, 3]);
    let ids: Vec<Vec<u32>> =
        model.meshes.iter().map(|m| m.textures.iter().map(|t| t.id).collect()).collect();
    assert_eq!(ids, vec![vec![10], vec![10, 20], vec![]]);
    assert_eq!(model.textures_loaded.len(), 2);
    assert_eq!(model.textures_loaded[1].type_, "texture_specular");
}

#[test]
fn all_requests_of_a_model() {
    let materials = vec![material("a.png", "", "n.png"), material("", "s.png", "")];
    let requests = model_texture_requests(&vec![quad(Some(0)), quad(None), quad(Some(1))], &materials);
    let seen: Vec<(String, TextureKind)> = requests.iter().map(|r| (r.path.clone(), r.kind)).collect();
    assert_eq!(
        seen,
        vec![
            ("a.png".to_string(), TextureKind::Diffuse),
            ("n.png".to_string(), TextureKind::Normal),
            ("s.png".to_string(), TextureKind::Specular),
        ]
    );
}

#[test]
fn uploads_skip_cached_and_repeated_files() {
    let mut model: Model<f32> = Model::new("d".to_string());
    model.remember_upload("old.png", "texture_diffuse", 1);
    let materials = vec![material("a.png", "old.png", "a.png"), material("b.png", "a.png", "")];
    let plan = model.plan_uploads(&vec![quad(Some(0)), quad(Some(1))], &materials);
    let planned: Vec<(String, TextureKind)> = plan.iter().map(|r| (r.path.clone(), r.kind)).collect();
    assert_eq!(
        planned,
        vec![("a.png".to_string(), TextureKind::Diffuse), ("b.png".to_string(), TextureKind::Diffuse)]
    );
}

#[test]
fn process_mesh_leaves_meshes_alone() {
    let mut model: Model<f32> = Model::new("d".to_string());
    let materials = vec![material("a.png", "b.png", "c.png")];
    let mesh = model.process_mesh(&quad(Some(0)), &materials, &vec![5, 6, 7]);
    assert!(model.meshes.is_empty());
    let kinds: Vec<String> = mesh.textures.iter().map(|t| t.type_.clone()).collect();
    assert_eq!(kinds, vec!["texture_diffuse", "texture_specular", "texture_normal"]);
    let ids: Vec<u32> = mesh.textures.iter().map(|t| t.id).collect();
    assert_eq!(ids, vec![5, 6, 7]);
    assert_eq!(model.textures_loaded.len(), 3);
}

#[test]
fn reloading_meshes_uploads_nothing() {
    let mut model: Model<f32> = Model::new("rock".to_string());
    let materials = vec![material("rock.png", "rock_s.png", "")];
    let objs = vec![quad(Some(0))];
    let first = load(&mut model, &objs, &materials, |file| file.len() as u32);
    assert_eq!(first, vec!["rock.png", "rock_s.png"]);
    let second = load(&mut model, &objs, &materials, |file| file.len() as u32);
    assert!(second.is_empty());
    assert_eq!(model.textures_loaded.len(), 2);
    assert_eq!(model.meshes.len(), 2);
    let ids: Vec<Vec<u32>> =
        model.meshes.iter().map(|m| m.textures.iter().map(|t| t.id).collect()).collect();
    assert_eq!(ids, vec![vec![8, 10], vec![8, 10]]);
}

#[test]
fn shared_file_keeps_first_type() {
    let mut model: Model<f32> = Model::new("d".to_string());
    let materials = vec![material("", "same.png", ""), material("same.png", "", "")];
    let uploaded = load(&mut model, &vec![quad(Some(0)), quad(Some(1))], &materials, |_| 7);
    assert_eq!(uploaded, vec!["same.png"]);
    assert_eq!(model.textures_loaded.len(), 1);
    assert_eq!(model.textures_loaded[0].type_, "texture_specular");
    assert_eq!(model.meshes[1].textures[0].type_, "texture_specular");
}

fn texture(id: u32, type_: &str, path: &str) -> Texture {
    Texture { id, type_: type_.to_string(), path: path.to_string() }
}

#[test]
fn samplers_are_numbered_per_type() {
    let textures = vec![
        texture(1, "texture_diffuse", "a.png"),
        texture(2, "texture_specular", "b.png"),
        texture(3, "texture_diffuse", "c.png"),
        texture(4, "texture_normal", "d.png"),
        texture(5, "texture_diffuse", "e.png"),
    ];
    assert_eq!(
        sampler_names(&textures),
        vec!["texture_diffuse1", "texture_specular1", "texture_diffuse2", "texture_normal1", "texture_diffuse3"]
    );
    assert!(sampler_names(&vec![]).is_empty());
}

#[test]
fn new_textures_are_cached_in_first_request_order() {
    let mut model: Model<f32> = Model::new("rock".to_string());
    model.textures_loaded.push(texture(9, "texture_diffuse", "old.png"));
    let materials = vec![material("b.png", "old.png", "a.png"), material("a.png", "c.png", "b.png")];
    load(&mut model, &vec![quad(Some(0)), quad(Some(1))], &materials, |file| file.len() as u32);
    let cached: Vec<(String, String)> =
        model.textures_loaded.iter().map(|t| (t.path.clone(), t.type_.clone())).collect();
    assert_eq!(
        cached,
        vec![
            ("old.png".to_string(), "texture_diffuse".to_string()),
            ("b.png".to_string(), "texture_diffuse".to_string()),
            ("a.png".to_string(), "texture_normal".to_string()),
            ("c.png".to_string(), "texture_specular".to_string()),
        ]
    );
}
