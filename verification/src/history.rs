//! Undo/redo history: edit operations and their inverses.
use vstd::prelude::*;

use crate::entity::{CameraDef, EntityId, EntityPatch, EnvironmentDef, WorldEntity};

verus! {

/// An atomic edit operation on the world.
pub enum EditOp {
    /// Spawn a new entity.
    SpawnEntity { entity: WorldEntity },
    /// Delete an entity by ID.
    DeleteEntity { id: EntityId },
    /// Modify an entity with a patch.
    ModifyEntity { id: EntityId, patch: EntityPatch },
    /// Set environment (background color, ambient light, fog).
    SetEnvironment { env: EnvironmentDef },
    /// Set camera position, look-at target, and FOV.
    SetCamera { camera: CameraDef },
    /// A batch of atomic operations (all-or-nothing).
    Batch { ops: Vec<EditOp> },
}

impl EditOp {
    /// The inverse of spawning `entity`: deleting it by its ID.
    pub fn compute_inverse_spawn(entity: &WorldEntity) -> (r: EditOp)
        ensures
            r == (EditOp::DeleteEntity { id: entity.id }),
    {
        EditOp::DeleteEntity { id: entity.id }
    }

    /// Create a spawn operation for an entity.
    pub fn spawn(entity: WorldEntity) -> (r: EditOp)
        ensures
            r == (EditOp::SpawnEntity { entity }),
    {
        EditOp::SpawnEntity { entity }
    }

    /// Create a delete operation.
    pub fn delete(id: EntityId) -> (r: EditOp)
        ensures
            r == (EditOp::DeleteEntity { id }),
    {
        EditOp::DeleteEntity { id }
    }

    /// Create a modify operation.
    pub fn modify(id: EntityId, patch: EntityPatch) -> (r: EditOp)
        ensures
            r == (EditOp::ModifyEntity { id, patch }),
    {
        EditOp::ModifyEntity { id, patch }
    }

    /// True for a spawn operation.
    pub fn is_spawn(&self) -> (r: bool)
        ensures
            r == (self is SpawnEntity),
    {
        match self {
            EditOp::SpawnEntity { .. } => true,
            _ => false,
        }
    }

    /// True for a delete operation.
    pub fn is_delete(&self) -> (r: bool)
        ensures
            r == (self is DeleteEntity),
    {
        match self {
            EditOp::DeleteEntity { .. } => true,
            _ => false,
        }
    }
}

/// A recorded world edit with its inverse for undo support.
pub struct WorldEdit<Op> {
    /// Position of the edit in the log.
    pub seq: u64,
    /// The operation that was performed.
    pub op: Op,
    /// The inverse operation (for undo).
    pub inverse: Op,
    /// Timestamp in milliseconds since epoch.
    pub timestamp_ms: u64,
    /// Who performed the edit (e.g., "user", "llm", agent ID).
    pub author: Option<String>,
}

/// The abstract state of a history: the log of edits and the cursor, which
/// counts the edits that are currently applied (the next one to undo is
/// `edits[cursor - 1]`, the next one to redo is `edits[cursor]`).
pub ghost struct HistoryState<Op> {
    pub edits: Seq<WorldEdit<Op>>,
    pub cursor: nat,
}

impl<Op> HistoryState<Op> {
    /// Every edit carries its position as sequence number, and the cursor
    /// lies within the log.
    pub open spec fn wf(self) -> bool {
        &&& self.cursor <= self.edits.len() <= usize::MAX
        &&& forall|i: int| 0 <= i < self.edits.len() ==> #[trigger] self.edits[i].seq == i
    }

    /// Number of edits that can be undone.
    pub open spec fn undo_count(self) -> nat {
        self.cursor
    }

    /// Number of edits that can be redone.
    pub open spec fn redo_count(self) -> int {
        self.edits.len() - self.cursor
    }

    /// Recording an edit drops the redo tail and appends the new edit.
    pub open spec fn pushed(self, op: Op, inverse: Op, author: Option<String>) -> HistoryState<Op> {
        HistoryState {
            edits: self.edits.take(self.cursor as int).push(
                WorldEdit { seq: self.cursor as u64, op, inverse, timestamp_ms: 0, author },
            ),
            cursor: self.cursor + 1,
        }
    }

    /// The state after an undo step.
    pub open spec fn undone(self) -> HistoryState<Op> {
        if self.cursor == 0 {
            self
        } else {
            HistoryState { edits: self.edits, cursor: (self.cursor - 1) as nat }
        }
    }

    /// What an undo step hands back: the inverse of the last applied edit.
    pub open spec fn undo_result(self) -> Option<Op> {
        if self.cursor == 0 {
            None
        } else {
            Some(self.edits[self.cursor - 1].inverse)
        }
    }

    /// The state after a redo step.
    pub open spec fn redone(self) -> HistoryState<Op> {
        if self.cursor >= self.edits.len() {
            self
        } else {
            HistoryState { edits: self.edits, cursor: self.cursor + 1 }
        }
    }

    /// What a redo step hands back: the operation of the first undone edit.
    pub open spec fn redo_result(self) -> Option<Op> {
        if self.cursor >= self.edits.len() {
            None
        } else {
            Some(self.edits[self.cursor as int].op)
        }
    }
}

/// Relates an optional borrowed operation to an optional operation.
pub open spec fn same_op<Op>(r: Option<&Op>, expected: Option<Op>) -> bool {
    match r {
        Some(x) => expected == Some(*x),
        None => expected is None,
    }
}

/// Edit history: append-only log of world edits with an undo/redo cursor.
pub struct EditHistory<Op> {
    edits: Vec<WorldEdit<Op>>,
    cursor: usize,
}

impl<Op> View for EditHistory<Op> {
    type V = HistoryState<Op>;

    closed spec fn view(&self) -> HistoryState<Op> {
        HistoryState { edits: self.edits@, cursor: self.cursor as nat }
    }
}

impl<Op> EditHistory<Op> {
    /// A history is always well formed.
    #[verifier::type_invariant]
    spec fn inv(self) -> bool {
        self@.wf()
    }

    /// An empty history.
    pub fn new() -> (h: Self)
        ensures
            h@.wf(),
            h@.edits.len() == 0,
            h@.cursor == 0,
    {
        EditHistory { edits: Vec::new(), cursor: 0 }
    }

    /// Record a new edit. Truncates any redo history.
    pub fn push(&mut self, op: Op, inverse: Op, author: Option<String>)
        ensures
            final(self)@ == old(self)@.pushed(op, inverse, author),
            final(self)@.wf(),
    {
        proof {
            use_type_invariant(&*self);
        }
        let mut taken = EditHistory { edits: Vec::new(), cursor: 0 };
        std::mem::swap(self, &mut taken);
        let EditHistory { mut edits, cursor } = taken;
        edits.truncate(cursor);
        let seq = edits.len() as u64;
        edits.push(WorldEdit { seq, op, inverse, timestamp_ms: 0, author });
        let n = edits.len();
        proof {
            assert(edits@ =~= old(self)@.pushed(op, inverse, author).edits);
        }
        *self = EditHistory { edits, cursor: n };
    }

    /// Forget every edit, as when a scene is cleared or a world is loaded.
    pub fn clear(&mut self)
        ensures
            final(self)@.edits.len() == 0,
            final(self)@.cursor == 0,
            final(self)@.wf(),
    {
        *self = EditHistory::new();
    }

    /// Get the next operation to undo, if any.
    pub fn undo(&mut self) -> (r: Option<&Op>)
        ensures
            final(self)@ == old(self)@.undone(),
            same_op(r, old(self)@.undo_result()),
            final(self)@.wf(),
    {
        proof {
            use_type_invariant(&*self);
        }
        if self.cursor == 0 {
            return None;
        }
        self.cursor -= 1;
        Some(&self.edits[self.cursor].inverse)
    }

    /// Get the next operation to redo, if any.
    pub fn redo(&mut self) -> (r: Option<&Op>)
        ensures
            final(self)@ == old(self)@.redone(),
            same_op(r, old(self)@.redo_result()),
            final(self)@.wf(),
    {
        proof {
            use_type_invariant(&*self);
        }
        if self.cursor >= self.edits.len() {
            return None;
        }
        let i = self.cursor;
        self.cursor += 1;
        Some(&self.edits[i].op)
    }

    /// Number of operations that can be undone.
    pub fn undo_count(&self) -> (n: usize)
        ensures
            n == self@.undo_count(),
            self@.wf(),
    {
        proof {
            use_type_invariant(self);
        }
        self.cursor
    }

    /// Number of operations that can be redone.
    pub fn redo_count(&self) -> (n: usize)
        ensures
            n == self@.redo_count(),
            self@.wf(),
    {
        proof {
            use_type_invariant(self);
        }
        self.edits.len() - self.cursor
    }

    /// All edits in chronological order.
    pub fn edits(&self) -> (r: &Vec<WorldEdit<Op>>)
        ensures
            r@ == self@.edits,
    {
        &self.edits
    }
}

/// Undoing the last applied edit and then redoing restores the history, and
/// the redo hands back the operation whose inverse the undo handed back.
pub proof fn law_undo_then_redo<Op>(h: HistoryState<Op>)
    requires
        h.wf(),
        h.cursor > 0,
    ensures
        h.undone().redone() == h,
        h.undo_result() == Some(h.edits[h.cursor - 1].inverse),
        h.undone().redo_result() == Some(h.edits[h.cursor - 1].op),
{
}

/// Redoing an undone edit and then undoing restores the history, and the
/// undo hands back the inverse of the operation that the redo handed back.
pub proof fn law_redo_then_undo<Op>(h: HistoryState<Op>)
    requires
        h.wf(),
        h.cursor < h.edits.len(),
    ensures
        h.redone().undone() == h,
        h.redo_result() == Some(h.edits[h.cursor as int].op),
        h.redone().undo_result() == Some(h.edits[h.cursor as int].inverse),
{
}

/// After recording an edit, undo hands back its inverse and a following redo
/// hands back the operation itself; recording leaves nothing to redo and one
/// more edit to undo.
pub proof fn law_push_then_undo_redo<Op>(h: HistoryState<Op>, op: Op, inverse: Op, author: Option<String>)
    requires
        h.wf(),
    ensures
        h.pushed(op, inverse, author).undo_result() == Some(inverse),
        h.pushed(op, inverse, author).undone().redo_result() == Some(op),
        h.pushed(op, inverse, author).redo_count() == 0,
        h.pushed(op, inverse, author).undo_count() == h.undo_count() + 1,
{
}

/// Recording an edit keeps the applied edits and drops the redo tail.
pub proof fn law_push_keeps_applied<Op>(h: HistoryState<Op>, op: Op, inverse: Op, author: Option<String>)
    requires
        h.wf(),
    ensures
        h.pushed(op, inverse, author).edits.take(h.cursor as int) == h.edits.take(h.cursor as int),
        h.pushed(op, inverse, author).edits.len() == h.cursor + 1,
{
    assert(h.pushed(op, inverse, author).edits.take(h.cursor as int) =~= h.edits.take(h.cursor as int));
}

/// Undo with nothing applied, and redo with nothing undone, change nothing and
/// hand back nothing.
pub proof fn law_empty_steps<Op>(h: HistoryState<Op>)
    requires
        h.wf(),
    ensures
        h.cursor == 0 ==> h.undone() == h && h.undo_result() is None,
        h.cursor == h.edits.len() ==> h.redone() == h && h.redo_result() is None,
{
}

/// Every step keeps the history well formed, and the undo and redo counts
/// always add up to the number of recorded edits (a log fills at most the
/// address space).
pub proof fn law_steps_keep_wf<Op>(h: HistoryState<Op>, op: Op, inverse: Op, author: Option<String>)
    requires
        h.wf(),
        h.cursor < usize::MAX,
    ensures
        h.pushed(op, inverse, author).wf(),
        h.undone().wf(),
        h.redone().wf(),
        h.undo_count() + h.redo_count() == h.edits.len(),
{
    let p = h.pushed(op, inverse, author);
    assert forall|i: int| 0 <= i < p.edits.len() implies #[trigger] p.edits[i].seq == i by {
        if i < h.cursor {
            assert(p.edits[i] == h.edits[i]);
        }
    }
}

} // verus!
