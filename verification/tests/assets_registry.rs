use worldspace::assets::{
    default_color, Asset, AssetId, AssetStore, Color, Material, Mesh, Scene, SceneMaterial,
};

#[test]
fn register_mesh() {
    let mut store = AssetStore::new();
    let id = store.register_mesh(Mesh { name: "cube".into(), vertex_count: 24, index_count: 36 });
    assert!(store.get_mesh(id).is_some());
    assert_eq!(store.len(), 1);
}

#[test]
fn register_material() {
    let mut store = AssetStore::new();
    let id = store.register_material(Material::default());
    assert!(store.get_material(id).is_some());
}

#[test]
fn content_addressed_dedup() {
    let mut store = AssetStore::new();
    let id1 = store.register_mesh(Mesh { name: "cube".into(), vertex_count: 24, index_count: 36 });
    let id2 = store.register_mesh(Mesh { name: "cube".into(), vertex_count: 24, index_count: 36 });
    assert_eq!(id1, id2);
    assert_eq!(store.len(), 1);
}

#[test]
fn default_cube_and_material() {
    let mut store = AssetStore::new();
    let cube_id = store.register_default_cube();
    let mat_id = store.register_default_material();
    assert!(store.get_mesh(cube_id).is_some());
    assert!(store.get_material(mat_id).is_some());
    assert_eq!(store.len(), 2);
}

#[test]
fn asset_ids_are_the_first_digest_bytes_little_endian() {
    let mut store = AssetStore::new();
    assert!(store.is_empty());
    let cube = store.register_mesh(Mesh { name: "cube".into(), vertex_count: 24, index_count: 36 });
    assert_eq!(cube, AssetId(14814316959234450800));
    assert_eq!(store.register_default_cube(), AssetId(17232445515511536956));
    assert_eq!(store.register_default_material(), AssetId(4415463611854265918));
    assert!(!store.is_empty());
}

#[test]
fn default_material_is_light_grey() {
    let material = Material::default();
    assert_eq!(material.name, "default");
    let four_fifths = 0.8f32.to_bits();
    assert_eq!(
        material.base_color,
        Color { r: four_fifths, g: four_fifths, b: four_fifths, a: 1.0f32.to_bits() }
    );
    assert_eq!(default_color(), material.base_color);
}

#[test]
fn lookups_tell_meshes_from_materials() {
    let mut store = AssetStore::default();
    let cube = store.register_default_cube();
    let grey = store.register_default_material();
    assert!(store.get_material(cube).is_none());
    assert!(store.get_mesh(grey).is_none());
    assert!(matches!(store.get(cube), Some(Asset::Mesh(_))));
    assert!(matches!(store.get(grey), Some(Asset::Material(_))));
    assert!(store.get(AssetId(0)).is_none());
    assert_eq!(store.get_mesh(cube).unwrap().name, "unit_cube");
    assert_eq!(store.get_mesh(cube).unwrap().vertex_count, 24);
    assert_eq!(store.get_mesh(cube).unwrap().index_count, 36);
}

#[test]
fn scene_import_registers_placeholders() {
    let mut store = AssetStore::new();
    let scene = Scene {
        meshes: vec![Some("hull".to_string()), None],
        materials: vec![
            SceneMaterial {
                name: Some("paint".to_string()),
                base_color_factor: Some(vec![
                    Some(1.0f32.to_bits()),
                    None,
                    Some(0.25f32.to_bits()),
                    Some(0.5f32.to_bits()),
                    Some(9.0f32.to_bits()),
                ]),
            },
            SceneMaterial { name: None, base_color_factor: Some(vec![Some(0.0f32.to_bits())]) },
            SceneMaterial { name: None, base_color_factor: None },
        ],
    };
    let ids = store.import_gltf(&scene);
    assert_eq!(ids.len(), 5);
    assert_eq!(store.len(), 5);
    assert_eq!(store.get_mesh(ids[0]).unwrap().name, "hull_0");
    assert_eq!(store.get_mesh(ids[1]).unwrap().name, "unnamed_1");
    assert_eq!(store.get_mesh(ids[1]).unwrap().vertex_count, 0);
    let paint = store.get_material(ids[2]).unwrap();
    assert_eq!(paint.name, "paint_0");
    assert_eq!(
        paint.base_color,
        Color {
            r: 1.0f32.to_bits(),
            g: 0.8f32.to_bits(),
            b: 0.25f32.to_bits(),
            a: 0.5f32.to_bits()
        }
    );
    let second = store.get_material(ids[3]).unwrap();
    assert_eq!(second.name, "unnamed_1");
    assert_eq!(
        second.base_color,
        Color { r: 0.0f32.to_bits(), ..default_color() }
    );
    assert_eq!(store.get_material(ids[4]).unwrap().name, "unnamed_2");
    assert_eq!(store.get_material(ids[4]).unwrap().base_color, default_color());
}

#[test]
fn empty_scene_registers_one_default_mesh() {
    let mut store = AssetStore::new();
    let ids = store.import_gltf(&Scene { meshes: vec![], materials: vec![] });
    assert_eq!(ids.len(), 1);
    let mesh = store.get_mesh(ids[0]).unwrap();
    assert_eq!(mesh.name, "gltf_default");
    assert_eq!((mesh.vertex_count, mesh.index_count), (0, 0));
}
