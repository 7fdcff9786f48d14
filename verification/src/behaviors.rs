//! Behavior bookkeeping: behavior IDs, the behaviors attached to an entity
//! and their type names. Evaluating a behavior on a transform is numeric work
//! done by the caller.
use vstd::prelude::*;

use crate::scene::{has_name, SceneRegistry};
use crate::text::{decimal, owned, push_decimal, push_str};

verus! {

broadcast use vstd::string::group_string_axioms;

/// Global behavior state.
pub struct BehaviorState {
    /// Whether behaviors are paused.
    pub paused: bool,
    /// Elapsed behavior time in seconds, as the bits of an `f64`; pausing
    /// freezes it.
    pub elapsed: u64,
    /// Counter for generating unique behavior IDs.
    pub next_id: u64,
}

impl BehaviorState {
    /// The number the next generated behavior ID carries.
    pub open spec fn spec_next_id(&self) -> u64 {
        self.next_id
    }

    /// A fresh behavior ID, `b` followed by the counter, which advances.
    pub fn next_id(&mut self) -> (id: String)
        requires
            old(self).spec_next_id() < u64::MAX,
        ensures
            id@ == seq!['b'] + decimal(old(self).spec_next_id() as nat),
            final(self).spec_next_id() == old(self).spec_next_id() + 1,
            final(self).paused == old(self).paused,
            final(self).elapsed == old(self).elapsed,
    {
        let mut id = owned("b");
        proof {
            reveal_strlit("b");
            assert("b"@ =~= seq!['b']);
        }
        push_decimal(&mut id, self.next_id);
        self.next_id = self.next_id + 1;
        id
    }
}

impl Default for BehaviorState {
    /// Running, at time zero, with IDs starting at 1.
    fn default() -> (s: Self)
        ensures
            !s.paused,
            s.elapsed == 0,
            s.spec_next_id() == 1,
    {
        BehaviorState { paused: false, elapsed: 0, next_id: 1 }
    }
}

/// A single active behavior on an entity: its ID and its definition (which
/// includes what the behavior captured of the entity when it was added).
pub struct BehaviorInstance<D> {
    pub id: String,
    pub def: D,
}

/// All behaviors of an entity, in the order they were added.
pub struct EntityBehaviors<D> {
    pub behaviors: Vec<BehaviorInstance<D>>,
}

/// Adds a behavior under the given ID, or under a fresh one; returns the ID.
pub fn add_behavior<D>(
    state: &mut BehaviorState,
    entity: &mut EntityBehaviors<D>,
    behavior_id: Option<String>,
    def: D,
) -> (id: String)
    requires
        behavior_id is None ==> old(state).spec_next_id() < u64::MAX,
    ensures
        match behavior_id {
            Some(given) => id == given && *final(state) == *old(state),
            None => id@ == seq!['b'] + decimal(old(state).spec_next_id() as nat)
                && final(state).spec_next_id() == old(state).spec_next_id() + 1
                && final(state).paused == old(state).paused
                && final(state).elapsed == old(state).elapsed,
        },
        final(entity).behaviors@ == old(entity).behaviors@.push(BehaviorInstance { id, def }),
{
    let id = match behavior_id {
        Some(given) => given,
        None => state.next_id(),
    };
    let stored = id.clone();
    entity.behaviors.push(BehaviorInstance { id: stored, def });
    id
}

/// Whether a behavior has an ID other than `id`.
pub open spec fn other_id<D>(id: Seq<char>) -> spec_fn(BehaviorInstance<D>) -> bool {
    |b: BehaviorInstance<D>| b.id@ != id
}

/// Removes the behaviors with the given ID, or all of them when no ID is
/// given; returns how many were removed.
pub fn remove_behaviors<D>(entity: &mut EntityBehaviors<D>, behavior_id: Option<&str>) -> (removed: usize)
    ensures
        match behavior_id {
            Some(id) => final(entity).behaviors@ == old(entity).behaviors@.filter(other_id(id@)),
            None => final(entity).behaviors@.len() == 0,
        },
        removed == old(entity).behaviors@.len() - final(entity).behaviors@.len(),
{
    let before = entity.behaviors.len();
    match behavior_id {
        None => {
            entity.behaviors.clear();
        },
        Some(id) => {
            let ghost orig = entity.behaviors@;
            let ghost keep = other_id::<D>(id@);
            let mut old_list: Vec<BehaviorInstance<D>> = Vec::new();
            std::mem::swap(&mut old_list, &mut entity.behaviors);
            let mut kept: Vec<BehaviorInstance<D>> = Vec::new();
            let mut i: usize = 0;
            assert(orig.skip(0) =~= orig);
            assert(orig.take(0).filter(keep) =~= Seq::<BehaviorInstance<D>>::empty()) by {
                reveal_with_fuel(Seq::filter, 1);
            }
            while old_list.len() > 0
                invariant
                    i <= orig.len(),
                    orig.len() <= usize::MAX,
                    keep == other_id::<D>(id@),
                    old_list@ == orig.skip(i as int),
                    kept@ == orig.take(i as int).filter(keep),
                decreases old_list@.len(),
            {
                let b = old_list.remove(0);
                assert(b == orig[i as int]);
                assert(orig.skip(i + 1) =~= orig.skip(i as int).drop_first());
                assert(orig.take(i + 1).drop_last() =~= orig.take(i as int));
                assert(orig.take(i + 1).last() == b);
                reveal_with_fuel(Seq::filter, 1);
                let is_match = crate::strings::str_equal(b.id.as_str(), id);
                assert(is_match == (b.id@ == id@));
                assert(keep(b) == !is_match);

                assert(orig.take(i + 1).filter(keep) == if keep(b) {
                    orig.take(i as int).filter(keep).push(b)
                } else {
                    orig.take(i as int).filter(keep)
                });
                if !is_match {
                    kept.push(b);
                }
                i = i + 1;
            }
            assert(orig.take(i as int) =~= orig);
            entity.behaviors = kept;
        },
    }
    proof {
        if behavior_id is Some {
            old(entity).behaviors@.lemma_filter_len(other_id::<D>(behavior_id->0@));
        }
    }
    before - entity.behaviors.len()
}

/// The kinds of declarative behavior.
#[derive(Clone, Copy, PartialEq, Eq, Structural, Debug)]
pub enum BehaviorKind {
    Orbit,
    Spin,
    Bob,
    LookAt,
    Pulse,
    PathFollow,
    Bounce,
}

/// The type name under which a behavior kind is reported.
pub open spec fn kind_name(k: BehaviorKind) -> Seq<char> {
    match k {
        BehaviorKind::Orbit => "orbit"@,
        BehaviorKind::Spin => "spin"@,
        BehaviorKind::Bob => "bob"@,
        BehaviorKind::LookAt => "look_at"@,
        BehaviorKind::Pulse => "pulse"@,
        BehaviorKind::PathFollow => "path_follow"@,
        BehaviorKind::Bounce => "bounce"@,
    }
}

/// The type name under which a behavior of this kind is reported.
pub fn behavior_type_name(kind: BehaviorKind) -> (s: String)
    ensures
        s@ == kind_name(kind),
{
    match kind {
        BehaviorKind::Orbit => owned("orbit"),
        BehaviorKind::Spin => owned("spin"),
        BehaviorKind::Bob => owned("bob"),
        BehaviorKind::LookAt => owned("look_at"),
        BehaviorKind::Pulse => owned("pulse"),
        BehaviorKind::PathFollow => owned("path_follow"),
        BehaviorKind::Bounce => owned("bounce"),
    }
}

/// The reply to a request that adds or removes behaviors.
pub enum BehaviorResponse {
    /// The request names no registered entity.
    Error { message: String },
    /// A behavior was attached to the entity under this ID.
    BehaviorAdded { entity: String, behavior_id: String },
    /// This many behaviors were removed from the entity.
    BehaviorRemoved { entity: String, count: usize },
}

/// The report for a name that no registered entity carries.
pub open spec fn entity_not_found_text(name: Seq<char>) -> Seq<char> {
    "Entity '"@ + name + "' not found"@
}

fn entity_not_found(name: &str) -> (s: String)
    ensures
        s@ == entity_not_found_text(name@),
{
    let mut s = owned("Entity '");
    push_str(&mut s, name);
    push_str(&mut s, "' not found");
    s
}

/// Attach a behavior to the registered entity `entity`, whose behavior list
/// (if it has one yet) is `behaviors`: under the given ID, or under a fresh
/// one from `state`.
pub fn handle_add_behavior<D>(
    entity: String,
    behavior_id: Option<String>,
    def: D,
    state: &mut BehaviorState,
    registry: &SceneRegistry,
    behaviors: &mut Option<EntityBehaviors<D>>,
) -> (r: BehaviorResponse)
    requires
        behavior_id is None ==> old(state).spec_next_id() < u64::MAX,
    ensures
        !has_name(registry@, entity@) ==> {
            &&& r matches BehaviorResponse::Error { message } && message@ == entity_not_found_text(entity@)
            &&& *final(state) == *old(state)
            &&& *final(behaviors) == *old(behaviors)
        },
        has_name(registry@, entity@) ==> {
            &&& r matches BehaviorResponse::BehaviorAdded { entity: e, behavior_id: id } && {
                &&& e == entity
                &&& match behavior_id {
                    Some(given) => id == given && *final(state) == *old(state),
                    None => id@ == seq!['b'] + decimal(old(state).spec_next_id() as nat)
                        && final(state).spec_next_id() == old(state).spec_next_id() + 1
                        && final(state).paused == old(state).paused
                        && final(state).elapsed == old(state).elapsed,
                }
                &&& *final(behaviors) matches Some(list) && list.behaviors@ == match *old(behaviors) {
                    Some(before) => before.behaviors@,
                    None => Seq::empty(),
                }.push(BehaviorInstance { id, def })
            }
        },
{
    if !registry.contains_name(entity.as_str()) {
        return BehaviorResponse::Error { message: entity_not_found(entity.as_str()) };
    }
    let mut list = match behaviors.take() {
        Some(list) => list,
        None => EntityBehaviors { behaviors: Vec::new() },
    };
    let id = add_behavior(state, &mut list, behavior_id, def);
    *behaviors = Some(list);
    BehaviorResponse::BehaviorAdded { entity, behavior_id: id }
}

/// Remove from the registered entity `entity_name` the behaviors with the
/// given ID, or all of them; `behaviors` is its behavior list, if it has one.
pub fn handle_remove_behavior<D>(
    entity_name: &str,
    behavior_id: Option<&str>,
    registry: &SceneRegistry,
    behaviors: &mut Option<EntityBehaviors<D>>,
) -> (r: BehaviorResponse)
    ensures
        !has_name(registry@, entity_name@) ==> {
            &&& r matches BehaviorResponse::Error { message } && message@ == entity_not_found_text(entity_name@)
            &&& *final(behaviors) == *old(behaviors)
        },
        has_name(registry@, entity_name@) && *old(behaviors) is None ==> {
            &&& r matches BehaviorResponse::BehaviorRemoved { entity, count } && entity@ == entity_name@ && count == 0
            &&& *final(behaviors) is None
        },
        has_name(registry@, entity_name@) && *old(behaviors) is Some ==> {
            let before = (*old(behaviors))->0.behaviors@;
            &&& *final(behaviors) matches Some(list) && match behavior_id {
                Some(id) => list.behaviors@ == before.filter(other_id(id@)),
                None => list.behaviors@.len() == 0,
            }
            &&& r matches BehaviorResponse::BehaviorRemoved { entity, count } && entity@ == entity_name@
                && count == before.len() - (*final(behaviors))->0.behaviors@.len()
        },
{
    if !registry.contains_name(entity_name) {
        return BehaviorResponse::Error { message: entity_not_found(entity_name) };
    }
    match behaviors {
        None => BehaviorResponse::BehaviorRemoved { entity: owned(entity_name), count: 0 },
        Some(list) => {
            let count = remove_behaviors(list, behavior_id);
            BehaviorResponse::BehaviorRemoved { entity: owned(entity_name), count }
        },
    }
}

} // verus!
