use localgpt::entity::WorldEntity;
use localgpt::world::{save_ids, VersionError, WorldManifest, MIN_SUPPORTED_VERSION, WORLD_SCHEMA_VERSION};

#[test]
fn manifest_new() {
    let m = WorldManifest::new("test_world");
    assert_eq!(m.meta.name, "test_world");
    assert_eq!(m.version, 1);
    assert_eq!(m.next_entity_id, 1);
    assert!(m.entities.is_empty());
}

#[test]
fn alloc_entity_id() {
    let mut m = WorldManifest::new("test");
    let id1 = m.alloc_entity_id();
    let id2 = m.alloc_entity_id();
    assert_eq!(id1.0, 1);
    assert_eq!(id2.0, 2);
    assert_eq!(m.next_entity_id, 3);
}

#[test]
fn triangle_estimate() {
    let mut m = WorldManifest::new("budget_test");
    m.entities.push(WorldEntity::new(1, "cube").with_shape_triangles(12));
    m.entities.push(WorldEntity::new(2, "sphere").with_shape_triangles(960));
    m.entities.push(WorldEntity::new(3, "light"));
    assert!(m.estimate_triangles() > 0);
    assert_eq!(m.estimate_triangles(), 972);
    assert_eq!(m.entity_count(), 3);
}

#[test]
fn version_check_current() {
    let m = WorldManifest::new("test");
    assert!(m.check_version().is_ok());
}

#[test]
fn version_check_too_old() {
    let mut m = WorldManifest::new("test");
    m.version = 0; // Below MIN_SUPPORTED_VERSION
    let err = m.check_version().unwrap_err();
    match err {
        VersionError::TooOld { found, min } => {
            assert_eq!(found, 0);
            assert_eq!(min, MIN_SUPPORTED_VERSION);
        }
        _ => panic!("Expected TooOld error"),
    }
}

#[test]
fn version_check_too_new() {
    let mut m = WorldManifest::new("test");
    m.version = 99; // Above WORLD_SCHEMA_VERSION
    let err = m.check_version().unwrap_err();
    match err {
        VersionError::TooNew { found, current } => {
            assert_eq!(found, 99);
            assert_eq!(current, WORLD_SCHEMA_VERSION);
        }
        _ => panic!("Expected TooNew error"),
    }
}

#[test]
fn version_error_messages() {
    assert_eq!(
        VersionError::TooOld { found: 0, min: 1 }.message(),
        "version 0 is too old (minimum supported: 1)"
    );
    assert_eq!(
        VersionError::TooNew { found: 1234, current: 1 }.message(),
        "version 1234 is from a newer localgpt-gen (current: 1)"
    );
}

#[test]
fn camera_defaults() {
    let c = localgpt::entity::CameraDef::default();
    assert_eq!(c.position.map(f32::from_bits), [5.0, 5.0, 5.0]);
    assert_eq!(c.look_at.map(f32::from_bits), [0.0, 0.0, 0.0]);
    assert_eq!(f32::from_bits(c.fov_degrees), 45.0);
}

#[test]
fn save_ids_follow_the_largest_entity_id() {
    let (amb, next) = save_ids(&vec![4, 9, 2], &vec!["wind".to_string(), "rain".to_string()]);
    assert_eq!(amb, vec![("ambience_wind".to_string(), 10), ("ambience_rain".to_string(), 11)]);
    assert_eq!(next, 12);
    let (amb, next) = save_ids(&vec![], &vec![]);
    assert!(amb.is_empty());
    assert_eq!(next, 1);
}
