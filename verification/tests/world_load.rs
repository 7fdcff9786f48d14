use localgpt::behaviors::BehaviorKind;
use localgpt::entity::{AudioDef, AudioKind, WorldEntity};
use localgpt::light::LightDef;
use localgpt::world_load::{
    choose_gltf_location, choose_world_dir, expand_home, manifest_format, scene_entities,
    GltfLocation, ManifestFormat, WorldDirChoice,
};

#[test]
fn paths_without_a_leading_tilde_stay() {
    assert_eq!(expand_home("/srv/worlds/castle"), "/srv/worlds/castle");
    assert_eq!(expand_home("castle"), "castle");
    assert_eq!(expand_home("~bob/castle"), "~bob/castle");
    let e = expand_home("~/worlds/castle");
    assert!(e.ends_with("/worlds/castle"));
}

#[test]
fn world_directory_choice() {
    assert!(matches!(choose_world_dir("castle", true, true), Ok(WorldDirChoice::AsGiven)));
    assert!(matches!(choose_world_dir("castle", false, true), Ok(WorldDirChoice::InSkills)));
    match choose_world_dir("~/castle", false, false) {
        Err(m) => assert_eq!(m, "World skill not found: ~/castle"),
        Ok(_) => panic!("expected an error"),
    }
    assert_eq!(manifest_format(true), ManifestFormat::Ron);
    assert_eq!(manifest_format(false), ManifestFormat::LegacyToml);
}

#[test]
fn gltf_location_order() {
    assert_eq!(choose_gltf_location(true, true, true), GltfLocation::AsGiven);
    assert_eq!(choose_gltf_location(false, true, true), GltfLocation::InWorkspace);
    assert_eq!(choose_gltf_location(false, false, true), GltfLocation::InExports);
    assert_eq!(choose_gltf_location(false, false, false), GltfLocation::SearchWorkspace);
}

#[test]
fn ambient_only_entities_leave_the_scene() {
    let ambient = AudioDef { kind: AudioKind::Ambient, volume: 0.5f32.to_bits(), radius: None };
    let placed = AudioDef { kind: AudioKind::Ambient, volume: 0.5f32.to_bits(), radius: Some(10.0f32.to_bits()) };
    let sfx = AudioDef { kind: AudioKind::Sfx, volume: 1.0f32.to_bits(), radius: None };
    let entities = vec![
        WorldEntity::new(1, "ambience_wind").with_audio(ambient),
        WorldEntity::new(2, "fountain").with_audio(placed).with_behavior(BehaviorKind::Bob),
        WorldEntity::new(3, "lamp").with_audio(ambient).with_light(LightDef::default()),
        WorldEntity::new(4, "bell").with_audio(sfx).with_behavior(BehaviorKind::Spin).with_behavior(BehaviorKind::Pulse),
        WorldEntity::new(5, "rock").with_audio(ambient).with_shape_triangles(12),
    ];
    let (scene, behaviors) = scene_entities(entities);
    let names: Vec<&str> = scene.iter().map(|e| e.name.as_str()).collect();
    assert_eq!(names, vec!["fountain", "lamp", "bell", "rock"]);
    assert_eq!(behaviors, 3);
}
