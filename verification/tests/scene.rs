use localgpt::behaviors::{
    handle_add_behavior, handle_remove_behavior, BehaviorResponse, BehaviorState, EntityBehaviors,
};
use localgpt::entity::{CameraDef, EntityId, EntityPatch, EnvironmentDef, WorldEntity};
use localgpt::history::{EditHistory, EditOp};
use localgpt::scene::{
    apply_edit_op, clear_edit, clear_snapshot_positions, delete_edit, handle_clear_scene, handle_delete_entity, handle_redo,
    handle_spawn_primitive, handle_undo,
    modify_edit, spawn_world_entities, HistoryResponse, SceneRegistry, SceneResponse,
};

fn names(reg: &SceneRegistry) -> Vec<(String, u64)> {
    let mut out = Vec::new();
    for i in 0..reg.len() {
        let (n, id) = reg.entry(i);
        out.push((n.to_string(), id));
    }
    out
}

fn empty_patch() -> EntityPatch {
    EntityPatch {
        position: None,
        rotation_degrees: None,
        scale: None,
        visible: None,
        color: None,
        metallic: None,
        roughness: None,
        emissive: None,
    }
}

#[test]
fn spawn_registers_in_order_and_links_parents() {
    let mut reg = SceneRegistry::new();
    let mut next = 1u64;
    let entities = vec![
        WorldEntity::new(3, "table"),
        WorldEntity::new(4, "cup").with_parent(EntityId(3)),
        WorldEntity::new(9, "lamp").with_parent(EntityId(42)),
    ];
    let links = spawn_world_entities(&entities, &mut reg, &mut next);
    assert_eq!(
        names(&reg),
        vec![("table".to_string(), 3), ("cup".to_string(), 4), ("lamp".to_string(), 9)]
    );
    assert_eq!(next, 10);
    assert_eq!(links, vec![("cup".to_string(), "table".to_string())]);
}

#[test]
fn spawn_skips_taken_names_and_keeps_larger_next_id() {
    let mut reg = SceneRegistry::new();
    let mut next = 50u64;
    let entities = vec![WorldEntity::new(3, "box"), WorldEntity::new(7, "box")];
    let links = spawn_world_entities(&entities, &mut reg, &mut next);
    assert_eq!(names(&reg), vec![("box".to_string(), 3)]);
    assert_eq!(next, 50);
    assert!(links.is_empty());
    assert!(reg.contains_name("box"));
    assert!(!reg.contains_name("Box"));
}

#[test]
fn parent_link_uses_last_entity_with_the_id() {
    let mut reg = SceneRegistry::new();
    let mut next = 1u64;
    let entities = vec![
        WorldEntity::new(1, "a"),
        WorldEntity::new(1, "b"),
        WorldEntity::new(2, "c").with_parent(EntityId(1)),
    ];
    let links = spawn_world_entities(&entities, &mut reg, &mut next);
    assert_eq!(links, vec![("c".to_string(), "b".to_string())]);
    assert_eq!(next, 3);
}

#[test]
fn delete_reports_name_or_missing_id() {
    let mut reg = SceneRegistry::new();
    let mut next = 1u64;
    spawn_world_entities(&[WorldEntity::new(2, "cube")], &mut reg, &mut next);
    let d = apply_edit_op(&EditOp::delete(EntityId(9)), &mut reg, &mut next, &mut Vec::new());
    assert_eq!(d, "entity id 9 not found");
    assert_eq!(reg.len(), 1);
    let d = apply_edit_op(&EditOp::delete(EntityId(2)), &mut reg, &mut next, &mut Vec::new());
    assert_eq!(d, "deleted 'cube'");
    assert_eq!(reg.len(), 0);
    assert_eq!(reg.index_of_id(2), None);
}

#[test]
fn modify_respawns_at_the_end() {
    let mut reg = SceneRegistry::new();
    let mut next = 1u64;
    let entities = vec![WorldEntity::new(1, "a"), WorldEntity::new(2, "b")];
    spawn_world_entities(&entities, &mut reg, &mut next);
    let d = apply_edit_op(&EditOp::modify(EntityId(1), empty_patch()), &mut reg, &mut next, &mut Vec::new());
    assert_eq!(d, "modified 'a'");
    assert_eq!(names(&reg), vec![("b".to_string(), 2), ("a".to_string(), 1)]);
    let d = apply_edit_op(&EditOp::modify(EntityId(8), empty_patch()), &mut reg, &mut next, &mut Vec::new());
    assert_eq!(d, "entity id 8 not found for modify");
}

#[test]
fn environment_camera_and_batch() {
    let mut reg = SceneRegistry::new();
    let mut next = 1u64;
    let env = EditOp::SetEnvironment {
        env: EnvironmentDef {
            background_color: None,
            ambient_intensity: Some(0.5f32.to_bits()),
            ambient_color: None,
            fog_density: None,
            fog_color: None,
        },
    };
    assert_eq!(apply_edit_op(&env, &mut reg, &mut next, &mut Vec::new()), "restored environment");
    let camera = || EditOp::SetCamera {
        camera: CameraDef {
            position: [0, 0, 0],
            look_at: [0, 0, 0],
            fov_degrees: 45.0f32.to_bits(),
        },
    };
    assert_eq!(apply_edit_op(&camera(), &mut reg, &mut next, &mut Vec::new()), "main_camera not found");
    spawn_world_entities(&[WorldEntity::new(1, "main_camera")], &mut reg, &mut next);
    assert_eq!(apply_edit_op(&camera(), &mut reg, &mut next, &mut Vec::new()), "restored camera");

    let batch = EditOp::Batch {
        ops: vec![
            EditOp::spawn(WorldEntity::new(5, "lamp")),
            EditOp::delete(EntityId(1)),
            EditOp::delete(EntityId(77)),
        ],
    };
    let d = apply_edit_op(&batch, &mut reg, &mut next, &mut Vec::new());
    assert_eq!(d, "re-spawned 'lamp'; deleted 'main_camera'; entity id 77 not found");
    assert_eq!(names(&reg), vec![("lamp".to_string(), 5)]);
    assert_eq!(next, 6);
    assert_eq!(apply_edit_op(&EditOp::Batch { ops: vec![] }, &mut reg, &mut next, &mut Vec::new()), "");
}

#[test]
fn undo_and_redo_a_spawn() {
    let mut reg = SceneRegistry::new();
    let mut next = 1u64;
    let mut history = EditHistory::new();
    assert!(matches!(handle_undo(&mut history, &mut reg, &mut next, &mut Vec::new()), HistoryResponse::NothingToUndo));
    assert!(matches!(handle_redo(&mut history, &mut reg, &mut next, &mut Vec::new()), HistoryResponse::NothingToRedo));

    let entity = WorldEntity::new(4, "cube");
    let inverse = EditOp::compute_inverse_spawn(&entity);
    let op = EditOp::spawn(entity);
    apply_edit_op(&op, &mut reg, &mut next, &mut Vec::new());
    history.push(op, inverse, None);
    assert_eq!(reg.len(), 1);

    match handle_undo(&mut history, &mut reg, &mut next, &mut Vec::new()) {
        HistoryResponse::Undone { description } => assert_eq!(description, "deleted 'cube'"),
        _ => panic!("expected an undo"),
    }
    assert_eq!(reg.len(), 0);
    match handle_redo(&mut history, &mut reg, &mut next, &mut Vec::new()) {
        HistoryResponse::Redone { description } => assert_eq!(description, "re-spawned 'cube'"),
        _ => panic!("expected a redo"),
    }
    assert_eq!(names(&reg), vec![("cube".to_string(), 4)]);
    assert_eq!(next, 5);
    assert!(matches!(handle_redo(&mut history, &mut reg, &mut next, &mut Vec::new()), HistoryResponse::NothingToRedo));
}

#[test]
fn behaviors_attach_only_to_registered_entities() {
    let mut reg = SceneRegistry::new();
    let mut next = 1u64;
    spawn_world_entities(&[WorldEntity::new(1, "fan")], &mut reg, &mut next);
    let mut state = BehaviorState::default();
    let mut none: Option<EntityBehaviors<u32>> = None;

    match handle_add_behavior("ghost".to_string(), None, 7u32, &mut state, &reg, &mut none) {
        BehaviorResponse::Error { message } => assert_eq!(message, "Entity 'ghost' not found"),
        _ => panic!("expected an error"),
    }
    assert!(none.is_none());
    assert_eq!(state.next_id, 1);

    let mut fan: Option<EntityBehaviors<u32>> = None;
    match handle_add_behavior("fan".to_string(), None, 7u32, &mut state, &reg, &mut fan) {
        BehaviorResponse::BehaviorAdded { entity, behavior_id } => {
            assert_eq!(entity, "fan");
            assert_eq!(behavior_id, "b1");
        }
        _ => panic!("expected an addition"),
    }
    match handle_add_behavior("fan".to_string(), Some("spin".to_string()), 8u32, &mut state, &reg, &mut fan) {
        BehaviorResponse::BehaviorAdded { behavior_id, .. } => assert_eq!(behavior_id, "spin"),
        _ => panic!("expected an addition"),
    }
    assert_eq!(state.next_id, 2);
    assert_eq!(fan.as_ref().map(|b| b.behaviors.len()), Some(2));

    match handle_remove_behavior("fan", Some("spin"), &reg, &mut fan) {
        BehaviorResponse::BehaviorRemoved { entity, count } => {
            assert_eq!(entity, "fan");
            assert_eq!(count, 1);
        }
        _ => panic!("expected a removal"),
    }
    match handle_remove_behavior::<u32>("fan", None, &reg, &mut None) {
        BehaviorResponse::BehaviorRemoved { count, .. } => assert_eq!(count, 0),
        _ => panic!("expected a removal"),
    }
    match handle_remove_behavior("nobody", None, &reg, &mut fan) {
        BehaviorResponse::Error { message } => assert_eq!(message, "Entity 'nobody' not found"),
        _ => panic!("expected an error"),
    }
    match handle_remove_behavior("fan", None, &reg, &mut fan) {
        BehaviorResponse::BehaviorRemoved { count, .. } => assert_eq!(count, 1),
        _ => panic!("expected a removal"),
    }
}

fn abc() -> Vec<WorldEntity> {
    vec![WorldEntity::new(1, "a"), WorldEntity::new(2, "b"), WorldEntity::new(3, "c")]
}

#[test]
fn deleting_and_undoing_brings_the_entity_back_last() {
    let mut reg = SceneRegistry::new();
    let mut next = 1u64;
    spawn_world_entities(&abc(), &mut reg, &mut next);
    let (forward, inverse) = delete_edit(WorldEntity::new(1, "a"));
    assert_eq!(apply_edit_op(&forward, &mut reg, &mut next, &mut Vec::new()), "deleted 'a'");
    assert_eq!(apply_edit_op(&inverse, &mut reg, &mut next, &mut Vec::new()), "re-spawned 'a'");
    assert_eq!(
        names(&reg),
        vec![("b".to_string(), 2), ("c".to_string(), 3), ("a".to_string(), 1)]
    );
}

#[test]
fn modify_edit_replaces_and_restores() {
    let mut reg = SceneRegistry::new();
    let mut next = 1u64;
    spawn_world_entities(&abc(), &mut reg, &mut next);
    let (forward, inverse) =
        modify_edit(EntityId(2), WorldEntity::new(2, "b"), WorldEntity::new(2, "b2"));
    assert_eq!(apply_edit_op(&forward, &mut reg, &mut next, &mut Vec::new()), "deleted 'b'; re-spawned 'b2'");
    assert_eq!(
        names(&reg),
        vec![("a".to_string(), 1), ("c".to_string(), 3), ("b2".to_string(), 2)]
    );
    assert_eq!(apply_edit_op(&inverse, &mut reg, &mut next, &mut Vec::new()), "deleted 'b2'; re-spawned 'b'");
    assert_eq!(
        names(&reg),
        vec![("a".to_string(), 1), ("c".to_string(), 3), ("b".to_string(), 2)]
    );
}

#[test]
fn clearing_and_undoing_restores_the_scene_in_order() {
    let mut reg = SceneRegistry::new();
    let mut next = 1u64;
    spawn_world_entities(&abc(), &mut reg, &mut next);
    let before = names(&reg);
    let (forward, inverse) = clear_edit(abc());
    assert_eq!(
        apply_edit_op(&forward, &mut reg, &mut next, &mut Vec::new()),
        "deleted 'a'; deleted 'b'; deleted 'c'"
    );
    assert_eq!(reg.len(), 0);
    assert_eq!(
        apply_edit_op(&inverse, &mut reg, &mut next, &mut Vec::new()),
        "re-spawned 'a'; re-spawned 'b'; re-spawned 'c'"
    );
    assert_eq!(names(&reg), before);
    assert_eq!(next, 4);
}

#[test]
fn primitives_take_the_next_id_and_unique_names() {
    let mut reg = SceneRegistry::new();
    let mut next = 7u64;
    let (r, attach) = handle_spawn_primitive("base".to_string(), None, &mut reg, &mut next);
    assert!(matches!(r, SceneResponse::Spawned { ref name, entity_id: 7 } if name == "base"));
    assert!(!attach);
    assert_eq!(next, 8);
    let (r, attach) = handle_spawn_primitive("top".to_string(), Some("base"), &mut reg, &mut next);
    assert!(matches!(r, SceneResponse::Spawned { entity_id: 8, .. }));
    assert!(attach);
    let (r, attach) = handle_spawn_primitive("lid".to_string(), Some("lid"), &mut reg, &mut next);
    assert!(matches!(r, SceneResponse::Spawned { entity_id: 9, .. }));
    assert!(!attach);
    match handle_spawn_primitive("top".to_string(), None, &mut reg, &mut next) {
        (SceneResponse::Error { message }, false) => assert_eq!(message, "Entity 'top' already exists"),
        _ => panic!("expected an error"),
    }
    assert_eq!(next, 10);
    assert_eq!(
        names(&reg),
        vec![("base".to_string(), 7), ("top".to_string(), 8), ("lid".to_string(), 9)]
    );
}

#[test]
fn deleting_by_name() {
    let mut reg = SceneRegistry::new();
    let mut next = 1u64;
    spawn_world_entities(&abc(), &mut reg, &mut next);
    match handle_delete_entity("b", &mut reg) {
        SceneResponse::Deleted { name } => assert_eq!(name, "b"),
        _ => panic!("expected a deletion"),
    }
    assert_eq!(names(&reg), vec![("a".to_string(), 1), ("c".to_string(), 3)]);
    match handle_delete_entity("b", &mut reg) {
        SceneResponse::Error { message } => assert_eq!(message, "Entity 'b' not found"),
        _ => panic!("expected an error"),
    }
    assert_eq!(reg.index_of_name("c"), Some(1));
}

#[test]
fn clearing_keeps_cameras_and_lights_on_request() {
    let mut reg = SceneRegistry::new();
    let mut next = 1u64;
    let entities = vec![
        WorldEntity::new(1, "main_camera"),
        WorldEntity::new(2, "sun"),
        WorldEntity::new(3, "box"),
    ];
    spawn_world_entities(&entities, &mut reg, &mut next);
    let is_camera = vec![true, false, false];
    let is_light = vec![false, true, false];

    assert_eq!(clear_snapshot_positions(&reg, true, true, &is_light), vec![2]);
    assert_eq!(clear_snapshot_positions(&reg, false, false, &is_light), vec![0, 1, 2]);
    assert_eq!(clear_snapshot_positions(&reg, true, false, &is_light), vec![1, 2]);

    let mut state = BehaviorState::default();
    state.paused = true;
    state.elapsed = 2.5f64.to_bits();
    let removed = handle_clear_scene(true, true, &is_camera, &is_light, &mut reg, &mut state);
    assert_eq!(removed, 1);
    assert_eq!(names(&reg), vec![("main_camera".to_string(), 1), ("sun".to_string(), 2)]);
    assert!(!state.paused);
    assert_eq!(state.elapsed, 0);

    let removed = handle_clear_scene(false, false, &vec![true, false], &vec![false, true], &mut reg, &mut state);
    assert_eq!(removed, 2);
    assert_eq!(reg.len(), 0);
}

#[test]
fn history_clear_forgets_everything() {
    let mut history = EditHistory::new();
    history.push(EditOp::delete(EntityId(1)), EditOp::delete(EntityId(2)), None);
    history.clear();
    assert_eq!(history.undo_count(), 0);
    assert_eq!(history.redo_count(), 0);
    assert!(history.edits().is_empty());
}

#[test]
fn modify_respawns_the_patched_entity() {
    let mut reg = SceneRegistry::new();
    let mut next = 1u64;
    spawn_world_entities(&[WorldEntity::new(1, "a")], &mut reg, &mut next);
    let mut patch = empty_patch();
    patch.position = Some([1.0f32.to_bits(), 2.0f32.to_bits(), 3.0f32.to_bits()]);
    patch.roughness = Some(0.25f32.to_bits());
    let mut spawned = Vec::new();
    let d = apply_edit_op(&EditOp::modify(EntityId(1), patch), &mut reg, &mut next, &mut spawned);
    assert_eq!(d, "modified 'a'");
    assert_eq!(spawned.len(), 1);
    let e = &spawned[0];
    assert_eq!(e.name, "a");
    assert_eq!(e.id, EntityId(1));
    assert_eq!(e.transform.position.map(f32::from_bits), [1.0, 2.0, 3.0]);
    assert_eq!(e.transform.scale.map(f32::from_bits), [1.0, 1.0, 1.0]);
    let m = e.material.expect("a material");
    assert_eq!(f32::from_bits(m.roughness), 0.25);
    assert_eq!(m.color.map(f32::from_bits), [0.8, 0.8, 0.8, 1.0]);

    let batch = EditOp::Batch {
        ops: vec![EditOp::spawn(WorldEntity::new(2, "b")), EditOp::spawn(WorldEntity::new(3, "a"))],
    };
    let mut spawned = Vec::new();
    apply_edit_op(&batch, &mut reg, &mut next, &mut spawned);
    let names: Vec<&str> = spawned.iter().map(|e| e.name.as_str()).collect();
    assert_eq!(names, vec!["b"]);
}
