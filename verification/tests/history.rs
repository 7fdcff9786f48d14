use localgpt::entity::{EntityId, EntityPatch, WorldEntity};
use localgpt::history::{EditHistory, EditOp};

#[test]
fn undo_redo_basic() {
    let mut history = EditHistory::new();

    let entity = WorldEntity::new(1, "cube");
    let id = entity.id;
    let op = EditOp::spawn(entity);
    let inverse = EditOp::delete(id);

    history.push(op, inverse, None);
    assert_eq!(history.undo_count(), 1);
    assert_eq!(history.redo_count(), 0);

    // Undo
    let undo_op = history.undo().unwrap();
    assert!(matches!(undo_op, EditOp::DeleteEntity { .. }));
    assert_eq!(history.undo_count(), 0);
    assert_eq!(history.redo_count(), 1);

    // Redo
    let redo_op = history.redo().unwrap();
    assert!(matches!(redo_op, EditOp::SpawnEntity { .. }));
    assert_eq!(history.undo_count(), 1);
    assert_eq!(history.redo_count(), 0);
}

#[test]
fn new_edit_truncates_redo() {
    let mut history = EditHistory::new();

    // Push two edits
    for i in 0..2 {
        let entity = WorldEntity::new(i, &format!("e{i}"));
        let id = entity.id;
        history.push(EditOp::spawn(entity), EditOp::delete(id), None);
    }

    // Undo one
    history.undo();
    assert_eq!(history.redo_count(), 1);

    // Push a new edit — should truncate redo
    let entity = WorldEntity::new(99, "new");
    let id = entity.id;
    history.push(EditOp::spawn(entity), EditOp::delete(id), None);
    assert_eq!(history.redo_count(), 0);
    assert_eq!(history.undo_count(), 2); // first + new
}

#[test]
fn empty_history_has_nothing_to_undo_or_redo() {
    let mut history: EditHistory<EditOp> = EditHistory::new();
    assert!(history.undo().is_none());
    assert!(history.redo().is_none());
    assert_eq!(history.undo_count(), 0);
    assert_eq!(history.redo_count(), 0);
}

#[test]
fn undo_then_redo_returns_the_same_edit() {
    let mut history = EditHistory::new();
    for i in 0..3u64 {
        history.push(i * 10, i * 10 + 1, Some(format!("user{i}")));
    }
    assert_eq!(history.undo().copied(), Some(21));
    assert_eq!(history.undo().copied(), Some(11));
    assert_eq!(history.redo().copied(), Some(10));
    assert_eq!(history.redo().copied(), Some(20));
    assert_eq!(history.redo(), None);
    assert_eq!(history.undo_count(), 3);
}

#[test]
fn edits_are_numbered_by_position() {
    let mut history = EditHistory::new();
    history.push("a", "-a", None);
    history.push("b", "-b", None);
    history.undo();
    history.push("c", "-c", Some("llm".to_string()));
    let seqs: Vec<u64> = history.edits().iter().map(|e| e.seq).collect();
    assert_eq!(seqs, vec![0, 1]);
    assert_eq!(history.edits()[1].op, "c");
    assert_eq!(history.edits()[1].inverse, "-c");
    assert_eq!(history.edits()[1].author.as_deref(), Some("llm"));
    assert_eq!(history.edits()[1].timestamp_ms, 0);
}

#[test]
fn edit_op_builders() {
    let e = WorldEntity::new(7, "lamp").with_shape_triangles(12);
    assert_eq!(e.shape_triangles, Some(12));
    match EditOp::compute_inverse_spawn(&e) {
        EditOp::DeleteEntity { id } => assert_eq!(id, EntityId(7)),
        _ => panic!("expected a delete"),
    }
    assert!(EditOp::spawn(e).is_spawn());
    assert!(EditOp::delete(EntityId(3)).is_delete());
}

#[test]
fn patch_changes_only_named_properties() {
    let mut e = WorldEntity::new(3, "crate");
    let patch = EntityPatch {
        position: Some([1.0f32.to_bits(), 2.0f32.to_bits(), 3.0f32.to_bits()]),
        rotation_degrees: None,
        scale: None,
        visible: Some(false),
        color: None,
        metallic: None,
        roughness: None,
        emissive: None,
    };
    patch.apply(&mut e);
    assert_eq!(e.transform.position.map(f32::from_bits), [1.0, 2.0, 3.0]);
    assert_eq!(e.transform.scale.map(f32::from_bits), [1.0, 1.0, 1.0]);
    assert!(!e.transform.visible);
    assert!(e.material.is_none());
    assert_eq!(e.name, "crate");
    assert_eq!(e.id, EntityId(3));

    let tint = EntityPatch {
        position: None,
        rotation_degrees: None,
        scale: None,
        visible: None,
        color: Some([1.0f32.to_bits(), 0, 0, 1.0f32.to_bits()]),
        metallic: None,
        roughness: None,
        emissive: None,
    };
    tint.apply(&mut e);
    let m = e.material.expect("a material");
    assert_eq!(m.color.map(f32::from_bits), [1.0, 0.0, 0.0, 1.0]);
    assert_eq!(f32::from_bits(m.roughness), 0.5);
    assert_eq!(f32::from_bits(m.metallic), 0.0);
    assert_eq!(e.transform.position.map(f32::from_bits), [1.0, 2.0, 3.0]);
}

#[test]
fn new_entities_stand_at_the_origin() {
    let e = WorldEntity::new(1, "x");
    assert_eq!(e.transform.position, [0, 0, 0]);
    assert_eq!(e.transform.rotation_degrees, [0, 0, 0]);
    assert_eq!(e.transform.scale.map(f32::from_bits), [1.0, 1.0, 1.0]);
    assert!(e.transform.visible);
}
