//! The scene's name registry, and what spawning world entities and applying
//! edit operations (undo and redo) do to it.
//!
//! The registry holds, for every live entity, its name and its stable world
//! ID, in the order in which the entities were registered. Names are unique;
//! the renderer-side work (meshes, materials, lights, transforms) is done by
//! the caller from the registrations and links that these functions report.
use vstd::prelude::*;

use crate::entity::{fresh_entity, patched, EntityId, EntityPatch, EntityView, WorldEntity};
use crate::behaviors::BehaviorState;
use crate::history::{EditHistory, EditOp, HistoryState};
use crate::strings::str_equal;
use crate::text::{decimal, joined, owned, push_decimal, push_str};
use crate::gen_repl::join_from;
use crate::whitespace::views;

verus! {

/// Whether some entry of `s` carries the name `name`.
pub open spec fn has_name(s: Seq<(Seq<char>, u64)>, name: Seq<char>) -> bool {
    exists|i: int| 0 <= i < s.len() && (#[trigger] s[i]).0 == name
}

/// No two entries share a name, and every world ID is below `u64::MAX`, so
/// that one past it is a valid ID.
pub open spec fn registry_wf(s: Seq<(Seq<char>, u64)>) -> bool {
    &&& forall|i: int, j: int| 0 <= i < j < s.len() ==> (#[trigger] s[i]).0 != (#[trigger] s[j]).0
    &&& forall|i: int| 0 <= i < s.len() ==> (#[trigger] s[i]).1 < u64::MAX
}

/// The index of the first entry with world ID `id`, or -1 when there is none.
pub open spec fn id_index(s: Seq<(Seq<char>, u64)>, id: u64) -> int
    decreases s.len(),
{
    if s.len() == 0 {
        -1
    } else {
        let k = id_index(s.drop_last(), id);
        if k >= 0 {
            k
        } else if s.last().1 == id {
            s.len() - 1
        } else {
            -1
        }
    }
}

/// `id_index` finds the first entry with the ID, and -1 means that no entry
/// has it.
pub proof fn lemma_id_index(s: Seq<(Seq<char>, u64)>, id: u64)
    ensures
        -1 <= id_index(s, id) < s.len(),
        id_index(s, id) >= 0 ==> s[id_index(s, id)].1 == id,
        forall|j: int| 0 <= j < s.len() && (j < id_index(s, id) || id_index(s, id) < 0) ==> (#[trigger] s[j]).1 != id,
    decreases s.len(),
{
    if s.len() > 0 {
        lemma_id_index(s.drop_last(), id);
        assert forall|j: int| 0 <= j < s.len() && (j < id_index(s, id) || id_index(s, id) < 0) implies (#[trigger] s[j]).1 != id by {
            if j < s.len() - 1 {
                assert(s[j] == s.drop_last()[j]);
            }
        }
    }
}

/// The entities of a scene by name and world ID.
pub struct SceneRegistry {
    entries: Vec<(String, u64)>,
}

/// The plain view of a list of registry entries.
pub open spec fn entry_views(v: Seq<(String, u64)>) -> Seq<(Seq<char>, u64)> {
    v.map_values(|e: (String, u64)| (e.0@, e.1))
}

impl View for SceneRegistry {
    type V = Seq<(Seq<char>, u64)>;

    closed spec fn view(&self) -> Seq<(Seq<char>, u64)> {
        entry_views(self.entries@)
    }
}

impl SceneRegistry {
    /// An empty registry.
    pub fn new() -> (r: SceneRegistry)
        ensures
            r@ == Seq::<(Seq<char>, u64)>::empty(),
    {
        let r = SceneRegistry { entries: Vec::new() };
        assert(r@ =~= Seq::<(Seq<char>, u64)>::empty());
        r
    }

    /// The number of registered entities.
    pub fn len(&self) -> (n: usize)
        ensures
            n == self@.len(),
    {
        self.entries.len()
    }

    /// The name and world ID of the `i`-th registered entity.
    pub fn entry(&self, i: usize) -> (r: (&str, u64))
        requires
            i < self@.len(),
        ensures
            r.0@ == self@[i as int].0,
            r.1 == self@[i as int].1,
    {
        (self.entries[i].0.as_str(), self.entries[i].1)
    }

    /// Whether an entity with this name is registered.
    pub fn contains_name(&self, name: &str) -> (r: bool)
        ensures
            r == has_name(self@, name@),
    {
        let mut i: usize = 0;
        while i < self.entries.len()
            invariant
                i <= self.entries@.len(),
                self@ == entry_views(self.entries@),
                forall|j: int| 0 <= j < i ==> (#[trigger] self@[j]).0 != name@,
            decreases self.entries@.len() - i,
        {
            if str_equal(self.entries[i].0.as_str(), name) {
                assert(self@[i as int].0 == name@);
                return true;
            }
            i += 1;
        }
        false
    }

    /// The position of the first entity registered with world ID `id`.
    pub fn index_of_id(&self, id: u64) -> (r: Option<usize>)
        ensures
            match r {
                Some(k) => k == id_index(self@, id),
                None => id_index(self@, id) < 0,
            },
    {
        proof {
            lemma_id_index(self@, id);
        }
        let mut i: usize = 0;
        while i < self.entries.len()
            invariant
                i <= self.entries@.len(),
                self@ == entry_views(self.entries@),
                -1 <= id_index(self@, id) < self@.len(),
                id_index(self@, id) >= 0 ==> self@[id_index(self@, id)].1 == id,
                forall|j: int| 0 <= j < self@.len() && (j < id_index(self@, id) || id_index(self@, id) < 0) ==> (#[trigger] self@[j]).1 != id,
                forall|j: int| 0 <= j < i ==> (#[trigger] self@[j]).1 != id,
            decreases self.entries@.len() - i,
        {
            if self.entries[i].1 == id {
                assert(self@[i as int].1 == id);
                return Some(i);
            }
            i += 1;
        }
        None
    }

    /// The position of the entity registered under `name`.
    pub fn index_of_name(&self, name: &str) -> (r: Option<usize>)
        ensures
            match r {
                Some(k) => k < self@.len() && self@[k as int].0 == name@,
                None => !has_name(self@, name@),
            },
    {
        let mut i: usize = 0;
        while i < self.entries.len()
            invariant
                i <= self.entries@.len(),
                self@ == entry_views(self.entries@),
                forall|j: int| 0 <= j < i ==> (#[trigger] self@[j]).0 != name@,
            decreases self.entries@.len() - i,
        {
            if str_equal(self.entries[i].0.as_str(), name) {
                return Some(i);
            }
            i += 1;
        }
        None
    }

    /// Keep the entities whose flag in `keep` is set, in order, and remove
    /// the others; hands back how many were removed.
    pub fn retain_flagged(&mut self, keep: &Vec<bool>) -> (removed: usize)
        requires
            registry_wf(old(self)@),
            keep@.len() == old(self)@.len(),
        ensures
            registry_wf(final(self)@),
            final(self)@ == kept_entries(old(self)@, keep@, old(self)@.len() as int),
            removed == old(self)@.len() - final(self)@.len(),
    {
        let ghost reg = self@;
        let mut old_entries: Vec<(String, u64)> = Vec::new();
        std::mem::swap(&mut old_entries, &mut self.entries);
        assert(entry_views(old_entries@) == reg);
        let mut kept: Vec<(String, u64)> = Vec::new();
        let mut i: usize = 0;
        let n = old_entries.len();
        let mut rest = old_entries;
        assert(entry_views(rest@) =~= reg.skip(0));
        while i < n
            invariant
                i <= n,
                n == reg.len(),
                keep@.len() == n,
                registry_wf(reg),
                rest@.len() == n - i,
                entry_views(rest@) == reg.skip(i as int),
                entry_views(kept@) == kept_entries(reg, keep@, i as int),
                forall|k: int| 0 <= k < kept@.len() ==> exists|j: int| 0 <= j < i && (#[trigger] entry_views(kept@)[k]) == reg[j],
            decreases n - i,
        {
            let ghost before_rest = rest@;
            let e = rest.remove(0);
            assert(e.0@ == reg[i as int].0 && e.1 == reg[i as int].1) by {
                assert(entry_views(before_rest)[0] == reg.skip(i as int)[0]);
            }
            assert(entry_views(rest@) =~= reg.skip(i + 1)) by {
                assert forall|k: int| 0 <= k < rest@.len() implies entry_views(rest@)[k] == reg.skip(i + 1)[k] by {
                    assert(rest@[k] == before_rest[k + 1]);
                    assert(entry_views(before_rest)[k + 1] == reg.skip(i as int)[k + 1]);
                }
            }
            if keep[i] {
                let ghost before = kept@;
                kept.push(e);
                assert(entry_views(kept@) =~= entry_views(before).push(reg[i as int]));
                assert forall|k: int| 0 <= k < kept@.len() implies exists|j: int| 0 <= j < i + 1 && (#[trigger] entry_views(kept@)[k]) == reg[j] by {
                    if k < before.len() {
                        assert(entry_views(kept@)[k] == entry_views(before)[k]);
                    } else {
                        assert(entry_views(kept@)[k] == reg[i as int]);
                    }
                }
            }
            i += 1;
        }
        self.entries = kept;
        proof {
            lemma_kept_wf(reg, keep@, n as int);
            lemma_kept_len(reg, keep@, n as int);
        }
        n - self.entries.len()
    }

    /// Register an entity under `name` with world ID `id`.
    pub fn insert_with_id(&mut self, name: String, id: EntityId)
        requires
            registry_wf(old(self)@),
            !has_name(old(self)@, name@),
            id.0 < u64::MAX,
        ensures
            final(self)@ == old(self)@.push((name@, id.0)),
            registry_wf(final(self)@),
    {
        let ghost n = name@;
        self.entries.push((name, id.0));
        proof {
            assert(self@ =~= old(self)@.push((n, id.0)));
            assert forall|i: int, j: int| 0 <= i < j < self@.len() implies (#[trigger] self@[i]).0 != (#[trigger] self@[j]).0 by {
                if j == self@.len() - 1 {
                    assert(old(self)@[i] == self@[i]);
                } else {
                    assert(old(self)@[i] == self@[i]);
                    assert(old(self)@[j] == self@[j]);
                }
            }
            assert forall|i: int| 0 <= i < self@.len() implies (#[trigger] self@[i]).1 < u64::MAX by {
                if i < self@.len() - 1 {
                    assert(old(self)@[i] == self@[i]);
                }
            }
        }
    }

    /// Remove the `k`-th registered entity and hand back its name.
    fn remove_at(&mut self, k: usize) -> (name: String)
        requires
            registry_wf(old(self)@),
            k < old(self)@.len(),
        ensures
            final(self)@ == old(self)@.remove(k as int),
            name@ == old(self)@[k as int].0,
            registry_wf(final(self)@),
    {
        let (name, _id) = self.entries.remove(k);
        proof {
            assert(self@ =~= old(self)@.remove(k as int));
            assert forall|i: int, j: int| 0 <= i < j < self@.len() implies (#[trigger] self@[i]).0 != (#[trigger] self@[j]).0 by {
                let oi = if i < k { i } else { i + 1 };
                let oj = if j < k { j } else { j + 1 };
                assert(self@[i] == old(self)@[oi]);
                assert(self@[j] == old(self)@[oj]);
            }
            assert forall|i: int| 0 <= i < self@.len() implies (#[trigger] self@[i]).1 < u64::MAX by {
                let oi = if i < k { i } else { i + 1 };
                assert(self@[i] == old(self)@[oi]);
            }
        }
        name
    }
}

/// The next free world ID after registering an entity with ID `id`: one past
/// `id` where `next` does not already lie beyond it.
pub open spec fn bump(next: u64, id: u64) -> u64 {
    if id < next {
        next
    } else {
        (id + 1) as u64
    }
}

/// The name of the last entity of `es` with world ID `id`, if any.
pub open spec fn last_name_with_id(es: Seq<WorldEntity>, id: EntityId) -> Option<Seq<char>>
    decreases es.len(),
{
    if es.len() == 0 {
        None
    } else if es.last().id == id {
        Some(es.last().name@)
    } else {
        last_name_with_id(es.drop_last(), id)
    }
}

/// What registering a list of entities does: the registry, the next free
/// world ID, the (child, parent) name links to establish, and whether every
/// registered ID left room for its successor.
pub ghost struct SpawnOutcome {
    pub registry: Seq<(Seq<char>, u64)>,
    pub next_id: u64,
    pub links: Seq<(Seq<char>, Seq<char>)>,
    pub ok: bool,
}

/// The outcome after the first `n` entities of `all`: an entity whose name
/// is already registered is skipped; any other is registered, moves the next
/// free ID past its own, and, when its parent ID names an entity of `all`
/// (the last one with that ID), links to that entity's name.
pub open spec fn spawn_prefix(all: Seq<WorldEntity>, n: nat, reg: Seq<(Seq<char>, u64)>, next: u64) -> SpawnOutcome
    decreases n,
{
    if n == 0 {
        SpawnOutcome { registry: reg, next_id: next, links: Seq::empty(), ok: true }
    } else {
        let p = spawn_prefix(all, (n - 1) as nat, reg, next);
        let we = all[n - 1];
        if has_name(p.registry, we.name@) {
            p
        } else {
            SpawnOutcome {
                registry: p.registry.push((we.name@, we.id.0)),
                next_id: bump(p.next_id, we.id.0),
                links: match we.parent {
                    Some(pid) => match last_name_with_id(all, pid) {
                        Some(pn) => p.links.push((we.name@, pn)),
                        None => p.links,
                    },
                    None => p.links,
                },
                ok: p.ok && we.id.0 < u64::MAX,
            }
        }
    }
}

/// The outcome of registering all of `all`.
pub open spec fn spawn_outcome(all: Seq<WorldEntity>, reg: Seq<(Seq<char>, u64)>, next: u64) -> SpawnOutcome {
    spawn_prefix(all, all.len(), reg, next)
}

/// The plain view of a list of name links.
pub open spec fn link_views(v: Seq<(String, String)>) -> Seq<(Seq<char>, Seq<char>)> {
    v.map_values(|l: (String, String)| (l.0@, l.1@))
}

proof fn lemma_spawn_ok_prefix(all: Seq<WorldEntity>, k: nat, n: nat, reg: Seq<(Seq<char>, u64)>, next: u64)
    requires
        k <= n,
        spawn_prefix(all, n, reg, next).ok,
    ensures
        spawn_prefix(all, k, reg, next).ok,
    decreases n - k,
{
    if k < n {
        lemma_spawn_ok_prefix(all, k, (n - 1) as nat, reg, next);
    }
}

/// Names stay registered while entities are spawned, and after the first
/// `n` entities each of their names is registered.
proof fn lemma_spawn_registers(all: Seq<WorldEntity>, n: nat, reg: Seq<(Seq<char>, u64)>, next: u64)
    requires
        n <= all.len(),
    ensures
        forall|name: Seq<char>| has_name(reg, name) ==> has_name(spawn_prefix(all, n, reg, next).registry, name),
        forall|j: int| 0 <= j < n ==> has_name(spawn_prefix(all, n, reg, next).registry, (#[trigger] all[j]).name@),
        forall|i: int| 0 <= i < spawn_prefix(all, n, reg, next).links.len() ==> has_name(
            spawn_prefix(all, n, reg, next).registry,
            (#[trigger] spawn_prefix(all, n, reg, next).links[i]).0,
        ),
    decreases n,
{
    if n > 0 {
        let p = spawn_prefix(all, (n - 1) as nat, reg, next);
        let q = spawn_prefix(all, n, reg, next);
        lemma_spawn_registers(all, (n - 1) as nat, reg, next);
        let we = all[n - 1];
        if !has_name(p.registry, we.name@) {
            assert forall|name: Seq<char>| has_name(p.registry, name) implies has_name(q.registry, name) by {
                let i = choose|i: int| 0 <= i < p.registry.len() && (#[trigger] p.registry[i]).0 == name;
                assert(q.registry[i] == p.registry[i]);
            }
            assert(q.registry[p.registry.len() as int].0 == we.name@);
            assert forall|i: int| 0 <= i < q.links.len() implies has_name(q.registry, (#[trigger] q.links[i]).0) by {
                if i < p.links.len() {
                    assert(q.links[i] == p.links[i]);
                }
            }
        }
    }
}

/// A name that `last_name_with_id` finds is the name of an entity of the list.
proof fn lemma_last_name_in(es: Seq<WorldEntity>, id: EntityId)
    ensures
        last_name_with_id(es, id) matches Some(pn) ==> exists|j: int| 0 <= j < es.len() && (#[trigger] es[j]).name@ == pn,
    decreases es.len(),
{
    if es.len() > 0 && es.last().id != id {
        lemma_last_name_in(es.drop_last(), id);
        if let Some(pn) = last_name_with_id(es, id) {
            let j = choose|j: int| 0 <= j < es.drop_last().len() && (#[trigger] es.drop_last()[j]).name@ == pn;
            assert(es[j] == es.drop_last()[j]);
        }
    }
}

/// Every parent name in the links is the name of an entity of `all`.
proof fn lemma_links_parents(all: Seq<WorldEntity>, n: nat, reg: Seq<(Seq<char>, u64)>, next: u64)
    requires
        n <= all.len(),
    ensures
        forall|i: int| 0 <= i < spawn_prefix(all, n, reg, next).links.len() ==> exists|j: int|
            0 <= j < all.len() && (#[trigger] all[j]).name@ == (#[trigger] spawn_prefix(all, n, reg, next).links[i]).1,
    decreases n,
{
    if n > 0 {
        lemma_links_parents(all, (n - 1) as nat, reg, next);
        let p = spawn_prefix(all, (n - 1) as nat, reg, next);
        let q = spawn_prefix(all, n, reg, next);
        let we = all[n - 1];
        if !has_name(p.registry, we.name@) {
            if let Some(pid) = we.parent {
                lemma_last_name_in(all, pid);
            }
            assert forall|i: int| 0 <= i < q.links.len() implies exists|j: int|
                0 <= j < all.len() && (#[trigger] all[j]).name@ == (#[trigger] q.links[i]).1 by {
                if i < p.links.len() {
                    assert(q.links[i] == p.links[i]);
                }
            }
        }
    }
}

/// The name of the last entity of `es` with world ID `id`.
fn last_name_with_id_of(es: &[WorldEntity], id: EntityId) -> (r: Option<String>)
    ensures
        match r {
            Some(n) => last_name_with_id(es@, id) == Some(n@),
            None => last_name_with_id(es@, id) is None,
        },
{
    let mut i: usize = es.len();
    assert(es@.take(i as int) =~= es@);
    while i > 0
        invariant
            i <= es@.len(),
            last_name_with_id(es@, id) == last_name_with_id(es@.take(i as int), id),
        decreases i,
    {
        let ghost pre = es@.take(i as int);
        assert(pre.drop_last() =~= es@.take(i - 1));
        if es[i - 1].id == id {
            return Some(owned(es[i - 1].name.as_str()));
        }
        i -= 1;
    }
    None
}

/// Register the entities of `world_entities` in order, skipping any whose
/// name is already registered, and keep `next_entity_id` past every
/// registered ID. Hands back the (child, parent) name links to establish.
pub fn spawn_world_entities(
    world_entities: &[WorldEntity],
    registry: &mut SceneRegistry,
    next_entity_id: &mut u64,
) -> (links: Vec<(String, String)>)
    requires
        registry_wf(old(registry)@),
        spawn_outcome(world_entities@, old(registry)@, *old(next_entity_id)).ok,
    ensures
        registry_wf(final(registry)@),
        final(registry)@ == spawn_outcome(world_entities@, old(registry)@, *old(next_entity_id)).registry,
        *final(next_entity_id) == spawn_outcome(world_entities@, old(registry)@, *old(next_entity_id)).next_id,
        link_views(links@) == spawn_outcome(world_entities@, old(registry)@, *old(next_entity_id)).links,
        forall|i: int| 0 <= i < links@.len() ==> has_name(final(registry)@, (#[trigger] links@[i]).0@)
            && has_name(final(registry)@, links@[i].1@),
{
    let ghost all = world_entities@;
    let ghost reg0 = registry@;
    let ghost next0 = *next_entity_id;
    let mut links: Vec<(String, String)> = Vec::new();
    let mut i: usize = 0;
    while i < world_entities.len()
        invariant
            i <= all.len(),
            all == world_entities@,
            spawn_prefix(all, all.len(), reg0, next0).ok,
            registry_wf(registry@),
            registry@ == spawn_prefix(all, i as nat, reg0, next0).registry,
            *next_entity_id == spawn_prefix(all, i as nat, reg0, next0).next_id,
            link_views(links@) == spawn_prefix(all, i as nat, reg0, next0).links,
        decreases all.len() - i,
    {
        proof {
            lemma_spawn_ok_prefix(all, (i + 1) as nat, all.len(), reg0, next0);
        }
        let we = &world_entities[i];
        if !registry.contains_name(we.name.as_str()) {
            let id = we.id.0;
            if *next_entity_id <= id {
                *next_entity_id = id + 1;
            }
            registry.insert_with_id(owned(we.name.as_str()), we.id);
            match we.parent {
                Some(pid) => match last_name_with_id_of(world_entities, pid) {
                    Some(pn) => {
                        let ghost before = links@;
                        links.push((owned(we.name.as_str()), pn));
                        assert(link_views(links@) =~= link_views(before).push((we.name@, last_name_with_id(all, pid).unwrap())));
                    },
                    None => {},
                },
                None => {},
            }
        }
        i += 1;
    }
    proof {
        lemma_spawn_registers(all, all.len(), reg0, next0);
        lemma_links_parents(all, all.len(), reg0, next0);
        let fin = spawn_prefix(all, all.len(), reg0, next0);
        assert forall|i: int| 0 <= i < links@.len() implies has_name(registry@, (#[trigger] links@[i]).0@)
            && has_name(registry@, links@[i].1@) by {
            assert(link_views(links@)[i] == (links@[i].0@, links@[i].1@));
            let j = choose|j: int| 0 <= j < all.len() && (#[trigger] all[j]).name@ == fin.links[i].1;
            assert(has_name(fin.registry, all[j].name@));
        }
    }
    links
}

/// What applying an edit operation does: the registry, the next free world
/// ID, the description reported, and whether every registered ID left room
/// for its successor.
pub ghost struct EditEffect {
    pub registry: Seq<(Seq<char>, u64)>,
    pub next_id: u64,
    pub description: Seq<char>,
    pub spawned: Seq<EntityView>,
    pub ok: bool,
}

/// What applying a list of edit operations in order does, with the
/// description of each.
pub ghost struct BatchEffect {
    pub registry: Seq<(Seq<char>, u64)>,
    pub next_id: u64,
    pub descriptions: Seq<Seq<char>>,
    pub spawned: Seq<EntityView>,
    pub ok: bool,
}

/// The plain views of a list of entities.
pub open spec fn entity_views(v: Seq<WorldEntity>) -> Seq<EntityView> {
    v.map_values(|e: WorldEntity| e@)
}

/// The report for an ID that no registered entity carries.
pub open spec fn not_found_text(id: u64, suffix: Seq<char>) -> Seq<char> {
    "entity id "@ + decimal(id as nat) + " not found"@ + suffix
}

/// The effect of one edit operation on the registry:
/// - delete: the first entity with the ID leaves the registry;
/// - spawn: the entity is registered as `spawn_world_entities` does;
/// - modify: the first entity with the ID is registered anew under its name
///   and ID (it moves to the end of the registration order);
/// - environment and camera: the registry stays; the camera is restored
///   only where an entity named "main_camera" exists;
/// - batch: the operations in order, their descriptions joined by "; ".
/// The entities to spawn anew are the spawned entity (unless its name was
/// taken) and, for a modify, a fresh entity under the name and ID with the
/// patch applied; a batch spawns those of its operations in order.
pub open spec fn edit_effect(op: EditOp, reg: Seq<(Seq<char>, u64)>, next: u64) -> EditEffect
    decreases op,
{
    match op {
        EditOp::DeleteEntity { id } => {
            let k = id_index(reg, id.0);
            if k >= 0 {
                EditEffect {
                    registry: reg.remove(k),
                    next_id: next,
                    description: "deleted '"@ + reg[k].0 + "'"@,
                    spawned: Seq::empty(),
                    ok: true,
                }
            } else {
                EditEffect {
                    registry: reg,
                    next_id: next,
                    description: not_found_text(id.0, ""@),
                    spawned: Seq::empty(),
                    ok: true,
                }
            }
        },
        EditOp::SpawnEntity { entity } => {
            let s = spawn_outcome(seq![entity], reg, next);
            EditEffect {
                registry: s.registry,
                next_id: s.next_id,
                description: "re-spawned '"@ + entity.name@ + "'"@,
                spawned: if has_name(reg, entity.name@) {
                    Seq::empty()
                } else {
                    seq![entity@]
                },
                ok: s.ok,
            }
        },
        EditOp::ModifyEntity { id, patch } => {
            let k = id_index(reg, id.0);
            if k >= 0 {
                EditEffect {
                    registry: reg.remove(k).push((reg[k].0, id.0)),
                    next_id: bump(next, id.0),
                    description: "modified '"@ + reg[k].0 + "'"@,
                    spawned: seq![patched(patch, fresh_entity(id.0, reg[k].0))],
                    ok: true,
                }
            } else {
                EditEffect {
                    registry: reg,
                    next_id: next,
                    description: not_found_text(id.0, " for modify"@),
                    spawned: Seq::empty(),
                    ok: true,
                }
            }
        },
        EditOp::SetEnvironment { env } => {
            EditEffect {
                registry: reg,
                next_id: next,
                description: "restored environment"@,
                spawned: Seq::empty(),
                ok: true,
            }
        },
        EditOp::SetCamera { camera } => {
            EditEffect {
                registry: reg,
                next_id: next,
                description: if has_name(reg, "main_camera"@) {
                    "restored camera"@
                } else {
                    "main_camera not found"@
                },
                spawned: Seq::empty(),
                ok: true,
            }
        },
        EditOp::Batch { ops } => {
            let b = batch_effect(ops@, reg, next);
            EditEffect {
                registry: b.registry,
                next_id: b.next_id,
                description: joined(b.descriptions, "; "@),
                spawned: b.spawned,
                ok: b.ok,
            }
        },
    }
}

/// The effect of the operations of `ops` applied in order.
pub open spec fn batch_effect(ops: Seq<EditOp>, reg: Seq<(Seq<char>, u64)>, next: u64) -> BatchEffect
    decreases ops,
{
    if ops.len() == 0 {
        BatchEffect {
            registry: reg,
            next_id: next,
            descriptions: Seq::empty(),
            spawned: Seq::empty(),
            ok: true,
        }
    } else {
        let b = batch_effect(ops.drop_last(), reg, next);
        let e = edit_effect(ops.last(), b.registry, b.next_id);
        BatchEffect {
            registry: e.registry,
            next_id: e.next_id,
            descriptions: b.descriptions.push(e.description),
            spawned: b.spawned + e.spawned,
            ok: b.ok && e.ok,
        }
    }
}

proof fn lemma_batch_ok_prefix(ops: Seq<EditOp>, k: int, reg: Seq<(Seq<char>, u64)>, next: u64)
    requires
        0 <= k <= ops.len(),
        batch_effect(ops, reg, next).ok,
    ensures
        batch_effect(ops.take(k), reg, next).ok,
    decreases ops.len(),
{
    if k == ops.len() {
        assert(ops.take(k) =~= ops);
    } else {
        assert(ops.drop_last().take(k) =~= ops.take(k));
        lemma_batch_ok_prefix(ops.drop_last(), k, reg, next);
    }
}

/// `std::slice::from_ref`: a slice holding just the referenced entity.
#[verifier::external_body]
fn one_entity(e: &WorldEntity) -> (r: &[WorldEntity])
    ensures
        r@ == seq![*e],
{
    std::slice::from_ref(e)
}

/// A name freed by removing its entry is no longer registered.
proof fn lemma_removed_name_free(reg: Seq<(Seq<char>, u64)>, k: int)
    requires
        registry_wf(reg),
        0 <= k < reg.len(),
    ensures
        !has_name(reg.remove(k), reg[k].0),
{
    if has_name(reg.remove(k), reg[k].0) {
        let i = choose|i: int| 0 <= i < reg.remove(k).len() && (#[trigger] reg.remove(k)[i]).0 == reg[k].0;
        let oi = if i < k { i } else { i + 1 };
        assert(reg.remove(k)[i] == reg[oi]);
    }
}

/// Apply an edit operation to the registry, as undo and redo do, and
/// describe what was done (see `edit_effect`).
pub fn apply_edit_op(
    op: &EditOp,
    registry: &mut SceneRegistry,
    next_entity_id: &mut u64,
    spawned: &mut Vec<WorldEntity>,
) -> (description: String)
    requires
        registry_wf(old(registry)@),
        edit_effect(*op, old(registry)@, *old(next_entity_id)).ok,
    ensures
        registry_wf(final(registry)@),
        final(registry)@ == edit_effect(*op, old(registry)@, *old(next_entity_id)).registry,
        *final(next_entity_id) == edit_effect(*op, old(registry)@, *old(next_entity_id)).next_id,
        description@ == edit_effect(*op, old(registry)@, *old(next_entity_id)).description,
        entity_views(final(spawned)@) == entity_views(old(spawned)@) + edit_effect(
            *op,
            old(registry)@,
            *old(next_entity_id),
        ).spawned,
    decreases op,
{
    let ghost reg0 = registry@;
    let ghost next0 = *next_entity_id;
    let ghost sp0 = spawned@;
    proof {
        reveal_strlit("");
    }
    match op {
        EditOp::DeleteEntity { id } => {
            proof {
                lemma_id_index(reg0, id.0);
            }
            match registry.index_of_id(id.0) {
                Some(k) => {
                    let name = registry.remove_at(k);
                    let mut d = owned("deleted '");
                    push_str(&mut d, name.as_str());
                    push_str(&mut d, "'");
                    assert(entity_views(spawned@) =~= entity_views(sp0) + Seq::<EntityView>::empty());
                    d
                },
                None => {
                    let mut d = owned("entity id ");
                    push_decimal(&mut d, id.0);
                    push_str(&mut d, " not found");
                    assert(d@ =~= not_found_text(id.0, ""@));
                    assert(entity_views(spawned@) =~= entity_views(sp0) + Seq::<EntityView>::empty());
                    d
                },
            }
        },
        EditOp::SpawnEntity { entity } => {
            let taken = registry.contains_name(entity.name.as_str());
            proof {
                reveal_with_fuel(spawn_prefix, 2);
            }
            let _links = spawn_world_entities(one_entity(entity), registry, next_entity_id);
            if !taken {
                spawned.push(entity.clone());
                assert(entity_views(spawned@) =~= entity_views(sp0) + seq![entity@]);
            } else {
                assert(entity_views(spawned@) =~= entity_views(sp0) + Seq::<EntityView>::empty());
            }
            let mut d = owned("re-spawned '");
            push_str(&mut d, entity.name.as_str());
            push_str(&mut d, "'");
            d
        },
        EditOp::ModifyEntity { id, patch } => {
            proof {
                lemma_id_index(reg0, id.0);
            }
            match registry.index_of_id(id.0) {
                Some(k) => {
                    let name = registry.remove_at(k);
                    proof {
                        lemma_removed_name_free(reg0, k as int);
                    }
                    let mut we = WorldEntity::new(id.0, name.as_str());
                    patch.apply(&mut we);
                    proof {
                        reveal_with_fuel(spawn_prefix, 2);
                        assert(we.name@ == reg0[k as int].0);
                    }
                    let _links = spawn_world_entities(one_entity(&we), registry, next_entity_id);
                    spawned.push(we);
                    assert(entity_views(spawned@) =~= entity_views(sp0) + seq![
                        patched(*patch, fresh_entity(id.0, reg0[k as int].0)),
                    ]);
                    let mut d = owned("modified '");
                    push_str(&mut d, name.as_str());
                    push_str(&mut d, "'");
                    d
                },
                None => {
                    let mut d = owned("entity id ");
                    push_decimal(&mut d, id.0);
                    push_str(&mut d, " not found for modify");
                    assert(d@ =~= not_found_text(id.0, " for modify"@)) by {
                        reveal_strlit(" not found for modify");
                        reveal_strlit(" not found");
                        reveal_strlit(" for modify");
                    }
                    assert(entity_views(spawned@) =~= entity_views(sp0) + Seq::<EntityView>::empty());
                    d
                },
            }
        },
        EditOp::SetEnvironment { .. } => {
            assert(entity_views(spawned@) =~= entity_views(sp0) + Seq::<EntityView>::empty());
            owned("restored environment")
        },
        EditOp::SetCamera { .. } => {
            assert(entity_views(spawned@) =~= entity_views(sp0) + Seq::<EntityView>::empty());
            if registry.contains_name("main_camera") {
                owned("restored camera")
            } else {
                owned("main_camera not found")
            }
        },
        EditOp::Batch { ops } => {
            let mut descriptions: Vec<String> = Vec::new();
            let mut i: usize = 0;
            assert(ops@.take(0) =~= Seq::<EditOp>::empty());
            while i < ops.len()
                invariant
                    i <= ops@.len(),
                    *op == (EditOp::Batch { ops: *ops }),
                    batch_effect(ops@, reg0, next0).ok,
                    registry_wf(registry@),
                    registry@ == batch_effect(ops@.take(i as int), reg0, next0).registry,
                    *next_entity_id == batch_effect(ops@.take(i as int), reg0, next0).next_id,
                    views(descriptions@) == batch_effect(ops@.take(i as int), reg0, next0).descriptions,
                    entity_views(spawned@) == entity_views(sp0) + batch_effect(ops@.take(i as int), reg0, next0).spawned,
                decreases ops@.len() - i,
            {
                proof {
                    lemma_batch_ok_prefix(ops@, i + 1, reg0, next0);
                    assert(ops@.take(i + 1).drop_last() =~= ops@.take(i as int));
                    assert(ops@.take(i + 1).last() == ops@[i as int]);
                    assert(decreases_to!(*op => op->ops));
                    assert(decreases_to!(*ops => ops@));
                    assert(decreases_to!(ops@ => ops@[i as int]));
                }
                let ghost sp_before = spawned@;
                let d = apply_edit_op(&ops[i], registry, next_entity_id, spawned);
                proof {
                    let b = batch_effect(ops@.take(i as int), reg0, next0);
                    let e = edit_effect(ops@[i as int], b.registry, b.next_id);
                    assert(entity_views(sp0) + b.spawned + e.spawned =~= entity_views(sp0) + (b.spawned + e.spawned));
                }
                let ghost before = descriptions@;
                descriptions.push(d);
                assert(views(descriptions@) =~= views(before).push(d@));
                i += 1;
            }
            assert(ops@.take(i as int) =~= ops@);
            assert(batch_effect(Seq::<EditOp>::empty(), reg0, next0).spawned =~= Seq::<EntityView>::empty());
            assert(views(descriptions@).skip(0) =~= views(descriptions@));
            join_from(&descriptions, 0, "; ")
        },
    }
}

/// The reply to an undo or redo request.
pub enum HistoryResponse {
    /// Nothing was applied, so nothing could be undone.
    NothingToUndo,
    /// The inverse of the last applied edit was applied.
    Undone { description: String },
    /// Nothing was undone, so nothing could be redone.
    NothingToRedo,
    /// The first undone edit was applied again.
    Redone { description: String },
}

/// Undo the last applied edit: apply its inverse to the registry; the
/// entities it spawns anew are appended to `spawned`.
pub fn handle_undo(
    history: &mut EditHistory<EditOp>,
    registry: &mut SceneRegistry,
    next_entity_id: &mut u64,
    spawned: &mut Vec<WorldEntity>,
) -> (r: HistoryResponse)
    requires
        registry_wf(old(registry)@),
        old(history)@.undo_result() matches Some(op) ==> edit_effect(op, old(registry)@, *old(next_entity_id)).ok,
    ensures
        final(history)@ == old(history)@.undone(),
        final(history)@.wf(),
        registry_wf(final(registry)@),
        match old(history)@.undo_result() {
            None => {
                &&& r is NothingToUndo
                &&& final(registry)@ == old(registry)@
                &&& *final(next_entity_id) == *old(next_entity_id)
                &&& final(spawned)@ == old(spawned)@
            },
            Some(op) => {
                let e = edit_effect(op, old(registry)@, *old(next_entity_id));
                &&& r matches HistoryResponse::Undone { description } && description@ == e.description
                &&& final(registry)@ == e.registry
                &&& *final(next_entity_id) == e.next_id
                &&& entity_views(final(spawned)@) == entity_views(old(spawned)@) + e.spawned
            },
        },
{
    match history.undo() {
        None => HistoryResponse::NothingToUndo,
        Some(op) => {
            let description = apply_edit_op(op, registry, next_entity_id, spawned);
            HistoryResponse::Undone { description }
        },
    }
}

/// Redo the first undone edit: apply its operation to the registry again;
/// the entities it spawns anew are appended to `spawned`.
pub fn handle_redo(
    history: &mut EditHistory<EditOp>,
    registry: &mut SceneRegistry,
    next_entity_id: &mut u64,
    spawned: &mut Vec<WorldEntity>,
) -> (r: HistoryResponse)
    requires
        registry_wf(old(registry)@),
        old(history)@.redo_result() matches Some(op) ==> edit_effect(op, old(registry)@, *old(next_entity_id)).ok,
    ensures
        final(history)@ == old(history)@.redone(),
        final(history)@.wf(),
        registry_wf(final(registry)@),
        match old(history)@.redo_result() {
            None => {
                &&& r is NothingToRedo
                &&& final(registry)@ == old(registry)@
                &&& *final(next_entity_id) == *old(next_entity_id)
                &&& final(spawned)@ == old(spawned)@
            },
            Some(op) => {
                let e = edit_effect(op, old(registry)@, *old(next_entity_id));
                &&& r matches HistoryResponse::Redone { description } && description@ == e.description
                &&& final(registry)@ == e.registry
                &&& *final(next_entity_id) == e.next_id
                &&& entity_views(final(spawned)@) == entity_views(old(spawned)@) + e.spawned
            },
        },
{
    match history.redo() {
        None => HistoryResponse::NothingToRedo,
        Some(op) => {
            let description = apply_edit_op(op, registry, next_entity_id, spawned);
            HistoryResponse::Redone { description }
        },
    }
}

/// Spawning a new entity (its name and ID not registered yet) and then
/// applying the inverse of the spawn (deleting its ID) gives back the
/// registry as it was, and the deletion reports the entity's name.
pub proof fn law_spawn_then_inverse(reg: Seq<(Seq<char>, u64)>, next: u64, e: WorldEntity)
    requires
        registry_wf(reg),
        !has_name(reg, e.name@),
        id_index(reg, e.id.0) < 0,
        e.id.0 < u64::MAX,
    ensures
        edit_effect(EditOp::SpawnEntity { entity: e }, reg, next).ok,
        edit_effect(EditOp::SpawnEntity { entity: e }, reg, next).registry == reg.push((e.name@, e.id.0)),
        ({
            let s = edit_effect(EditOp::SpawnEntity { entity: e }, reg, next);
            let d = edit_effect(EditOp::DeleteEntity { id: e.id }, s.registry, s.next_id);
            &&& d.registry == reg
            &&& d.next_id == s.next_id
            &&& d.description == "deleted '"@ + e.name@ + "'"@
        }),
{
    reveal_with_fuel(spawn_prefix, 2);
    let pushed = reg.push((e.name@, e.id.0));
    assert(pushed.drop_last() =~= reg);
    assert(id_index(pushed, e.id.0) == reg.len());
    assert(pushed.remove(reg.len() as int) =~= reg);
}

/// Applying the inverse of a spawn and then the spawn again gives back the
/// registry and the next free ID that the first spawn left.
pub proof fn law_inverse_then_respawn(reg: Seq<(Seq<char>, u64)>, next: u64, e: WorldEntity)
    requires
        registry_wf(reg),
        !has_name(reg, e.name@),
        id_index(reg, e.id.0) < 0,
        e.id.0 < u64::MAX,
    ensures
        ({
            let s = edit_effect(EditOp::SpawnEntity { entity: e }, reg, next);
            let d = edit_effect(EditOp::DeleteEntity { id: e.id }, s.registry, s.next_id);
            let r = edit_effect(EditOp::SpawnEntity { entity: e }, d.registry, d.next_id);
            &&& r.ok
            &&& r.registry == s.registry
            &&& r.next_id == s.next_id
        }),
{
    law_spawn_then_inverse(reg, next, e);
    reveal_with_fuel(spawn_prefix, 2);
}

/// Undo after recording a spawn that was applied restores the registry, and
/// a redo after it brings the spawned entity back.
pub proof fn law_undo_redo_spawn(
    h: HistoryState<EditOp>,
    reg: Seq<(Seq<char>, u64)>,
    next: u64,
    e: WorldEntity,
    author: Option<String>,
)
    requires
        h.wf(),
        registry_wf(reg),
        !has_name(reg, e.name@),
        id_index(reg, e.id.0) < 0,
        e.id.0 < u64::MAX,
    ensures
        ({
            let s = edit_effect(EditOp::SpawnEntity { entity: e }, reg, next);
            let h1 = h.pushed(EditOp::SpawnEntity { entity: e }, EditOp::DeleteEntity { id: e.id }, author);
            let u = edit_effect(h1.undo_result().unwrap(), s.registry, s.next_id);
            let r = edit_effect(h1.undone().redo_result().unwrap(), u.registry, u.next_id);
            &&& h1.undo_result() is Some
            &&& u.registry == reg
            &&& h1.undone().redo_result() is Some
            &&& r.registry == s.registry
            &&& r.next_id == s.next_id
        }),
{
    crate::history::law_push_then_undo_redo(
        h,
        EditOp::SpawnEntity { entity: e },
        EditOp::DeleteEntity { id: e.id },
        author,
    );
    law_spawn_then_inverse(reg, next, e);
    law_inverse_then_respawn(reg, next, e);
}

/// Modifying a registered entity keeps the set of registered names and the
/// entity's ID, and deleting or modifying an ID that nothing carries changes
/// nothing.
pub proof fn law_modify_keeps_names(reg: Seq<(Seq<char>, u64)>, next: u64, id: EntityId, patch: EntityPatch, name: Seq<char>)
    requires
        registry_wf(reg),
    ensures
        has_name(edit_effect(EditOp::ModifyEntity { id, patch }, reg, next).registry, name) == has_name(reg, name),
        id_index(reg, id.0) < 0 ==> edit_effect(EditOp::ModifyEntity { id, patch }, reg, next).registry == reg,
        id_index(reg, id.0) < 0 ==> edit_effect(EditOp::DeleteEntity { id }, reg, next).registry == reg,
        id_index(reg, id.0) >= 0 ==> id_index(edit_effect(EditOp::ModifyEntity { id, patch }, reg, next).registry, id.0) >= 0,
{
    lemma_id_index(reg, id.0);
    let k = id_index(reg, id.0);
    if k >= 0 {
        let m = reg.remove(k).push((reg[k].0, id.0));
        assert(edit_effect(EditOp::ModifyEntity { id, patch }, reg, next).registry == m);
        if has_name(reg, name) {
            let i = choose|i: int| 0 <= i < reg.len() && (#[trigger] reg[i]).0 == name;
            if i < k {
                assert(m[i] == reg[i]);
            } else if i > k {
                assert(m[i - 1] == reg[i]);
            } else {
                assert(m[m.len() - 1].0 == name);
            }
        }
        if has_name(m, name) {
            let i = choose|i: int| 0 <= i < m.len() && (#[trigger] m[i]).0 == name;
            if i < k {
                assert(m[i] == reg[i]);
            } else if i < m.len() - 1 {
                assert(m[i] == reg[i + 1]);
            } else {
                assert(reg[k].0 == name);
            }
        }
        lemma_id_index(m, id.0);
        assert(m[m.len() - 1].1 == id.0);
    }
}

/// The edit recorded when the entity whose snapshot is `we` is deleted: the
/// deletion of its ID, undone by spawning the snapshot again.
pub fn delete_edit(we: WorldEntity) -> (r: (EditOp, EditOp))
    ensures
        r.0 == (EditOp::DeleteEntity { id: we.id }),
        r.1 == (EditOp::SpawnEntity { entity: we }),
{
    (EditOp::delete(we.id), EditOp::spawn(we))
}

/// The edit recorded when entity `id` is modified from the snapshot `old_we`
/// to `new_we`: replacing it by the new snapshot, undone by replacing it by
/// the old one.
pub fn modify_edit(id: EntityId, old_we: WorldEntity, new_we: WorldEntity) -> (r: (EditOp, EditOp))
    ensures
        r.0 matches EditOp::Batch { ops } && ops@ == seq![
            EditOp::DeleteEntity { id },
            EditOp::SpawnEntity { entity: new_we },
        ],
        r.1 matches EditOp::Batch { ops } && ops@ == seq![
            EditOp::DeleteEntity { id },
            EditOp::SpawnEntity { entity: old_we },
        ],
{
    let forward = vec![EditOp::delete(id), EditOp::spawn(new_we)];
    let inverse = vec![EditOp::delete(id), EditOp::spawn(old_we)];
    proof {
        assert(forward@ =~= seq![EditOp::DeleteEntity { id }, EditOp::SpawnEntity { entity: new_we }]);
        assert(inverse@ =~= seq![EditOp::DeleteEntity { id }, EditOp::SpawnEntity { entity: old_we }]);
    }
    (EditOp::Batch { ops: forward }, EditOp::Batch { ops: inverse })
}

/// Deleting each entity of a list, in order.
pub open spec fn deletes_of(s: Seq<WorldEntity>) -> Seq<EditOp> {
    s.map_values(|we: WorldEntity| EditOp::DeleteEntity { id: we.id })
}

/// Spawning each entity of a list, in order.
pub open spec fn spawns_of(s: Seq<WorldEntity>) -> Seq<EditOp> {
    s.map_values(|we: WorldEntity| EditOp::SpawnEntity { entity: we })
}

/// The edit recorded when the entities with these snapshots are cleared from
/// the scene: deleting each of them, undone by spawning each again.
pub fn clear_edit(snapshots: Vec<WorldEntity>) -> (r: (EditOp, EditOp))
    ensures
        r.0 matches EditOp::Batch { ops } && ops@ == deletes_of(snapshots@),
        r.1 matches EditOp::Batch { ops } && ops@ == spawns_of(snapshots@),
{
    let ghost all = snapshots@;
    let mut forward: Vec<EditOp> = Vec::new();
    let mut i: usize = 0;
    while i < snapshots.len()
        invariant
            i <= snapshots@.len(),
            snapshots@ == all,
            forward@ == deletes_of(all.take(i as int)),
        decreases snapshots@.len() - i,
    {
        forward.push(EditOp::delete(snapshots[i].id));
        proof {
            assert(all.take(i + 1) =~= all.take(i as int).push(all[i as int]));
            assert(forward@ =~= deletes_of(all.take(i + 1)));
        }
        i += 1;
    }
    assert(all.take(i as int) =~= all);
    let mut inverse: Vec<EditOp> = Vec::new();
    let n = snapshots.len();
    let mut rest = snapshots;
    let mut k: usize = 0;
    assert(all.skip(0) =~= all);
    while rest.len() > 0
        invariant
            k <= all.len(),
            all.len() == n,
            rest@ == all.skip(k as int),
            inverse@ == spawns_of(all.take(k as int)),
        decreases rest@.len(),
    {
        let ghost before = rest@;
        let we = rest.remove(0);
        proof {
            assert(we == all[k as int]);
            assert(rest@ =~= all.skip(k + 1));
            assert(all.take(k + 1) =~= all.take(k as int).push(all[k as int]));
        }
        inverse.push(EditOp::spawn(we));
        proof {
            assert(inverse@ =~= spawns_of(all.take(k + 1)));
        }
        k += 1;
    }
    assert(all.take(k as int) =~= all);
    (EditOp::Batch { ops: forward }, EditOp::Batch { ops: inverse })
}

/// The snapshots list exactly the registered entities, in registration
/// order, under distinct IDs.
pub open spec fn snapshots_of(snaps: Seq<WorldEntity>, reg: Seq<(Seq<char>, u64)>) -> bool {
    &&& snaps.len() == reg.len()
    &&& forall|i: int| 0 <= i < reg.len() ==> (#[trigger] snaps[i]).name@ == reg[i].0 && snaps[i].id.0 == reg[i].1
    &&& forall|i: int, j: int| 0 <= i < j < reg.len() ==> (#[trigger] reg[i]).1 != (#[trigger] reg[j]).1
}

/// The first entry of a registry is the first with its ID.
proof fn lemma_id_index_front(s: Seq<(Seq<char>, u64)>)
    requires
        s.len() > 0,
    ensures
        id_index(s, s[0].1) == 0,
{
    lemma_id_index(s, s[0].1);
}

/// Deleting the IDs of the snapshots one after the other removes the
/// registered entities from the front.
proof fn lemma_delete_all(snaps: Seq<WorldEntity>, reg: Seq<(Seq<char>, u64)>, next: u64, n: int)
    requires
        registry_wf(reg),
        snapshots_of(snaps, reg),
        0 <= n <= snaps.len(),
    ensures
        batch_effect(deletes_of(snaps).take(n), reg, next).registry == reg.skip(n),
        batch_effect(deletes_of(snaps).take(n), reg, next).next_id == next,
        batch_effect(deletes_of(snaps).take(n), reg, next).ok,
    decreases n,
{
    let ops = deletes_of(snaps).take(n);
    if n == 0 {
        assert(reg.skip(0) =~= reg);
    } else {
        lemma_delete_all(snaps, reg, next, n - 1);
        assert(ops.drop_last() =~= deletes_of(snaps).take(n - 1));
        let b = batch_effect(deletes_of(snaps).take(n - 1), reg, next);
        let rest = reg.skip(n - 1);
        assert(rest[0] == reg[n - 1]);
        lemma_id_index_front(rest);
        let op = EditOp::DeleteEntity { id: snaps[n - 1].id };
        assert(ops.last() == op);
        let e = edit_effect(op, rest, next);
        assert(e.registry == rest.remove(0) && e.next_id == next && e.ok);
        assert(batch_effect(ops, reg, next).registry == e.registry);
        assert(batch_effect(ops, reg, next).next_id == e.next_id);
        assert(rest.remove(0) =~= reg.skip(n));
    }
}

/// Spawning the snapshots one after the other into an empty registry
/// registers them again in order.
proof fn lemma_spawn_all(snaps: Seq<WorldEntity>, reg: Seq<(Seq<char>, u64)>, next: u64, n: int)
    requires
        registry_wf(reg),
        snapshots_of(snaps, reg),
        0 <= n <= snaps.len(),
    ensures
        batch_effect(spawns_of(snaps).take(n), Seq::empty(), next).registry == reg.take(n),
        batch_effect(spawns_of(snaps).take(n), Seq::empty(), next).ok,
    decreases n,
{
    let ops = spawns_of(snaps).take(n);
    if n == 0 {
        assert(reg.take(0) =~= Seq::<(Seq<char>, u64)>::empty());
    } else {
        lemma_spawn_all(snaps, reg, next, n - 1);
        assert(ops.drop_last() =~= spawns_of(snaps).take(n - 1));
        let prev = reg.take(n - 1);
        let we = snaps[n - 1];
        assert(ops.last() == EditOp::SpawnEntity { entity: we });
        assert(!has_name(prev, we.name@)) by {
            if has_name(prev, we.name@) {
                let i = choose|i: int| 0 <= i < prev.len() && (#[trigger] prev[i]).0 == we.name@;
                assert(prev[i] == reg[i]);
                assert(reg[i].0 != reg[n - 1].0);
            }
        }
        reveal_with_fuel(spawn_prefix, 2);
        assert(seq![we][0] == we);
        let b = batch_effect(spawns_of(snaps).take(n - 1), Seq::empty(), next);
        let op = EditOp::SpawnEntity { entity: we };
        let e = edit_effect(op, prev, b.next_id);
        assert(e.registry == prev.push((we.name@, we.id.0)) && e.ok);
        assert(batch_effect(ops, Seq::empty(), next).registry == e.registry);
        assert(prev.push((we.name@, we.id.0)) =~= reg.take(n));
    }
}

/// Clearing the registered entities (deleting the ID of each snapshot) and
/// then undoing it (spawning each snapshot again) gives back the registry,
/// in its order; the clear leaves the registry empty.
pub proof fn law_clear_then_inverse(snaps: Seq<WorldEntity>, reg: Seq<(Seq<char>, u64)>, next: u64)
    requires
        registry_wf(reg),
        snapshots_of(snaps, reg),
    ensures
        ({
            let f = batch_effect(deletes_of(snaps), reg, next);
            let u = batch_effect(spawns_of(snaps), f.registry, f.next_id);
            &&& f.ok
            &&& f.registry.len() == 0
            &&& u.ok
            &&& u.registry == reg
        }),
{
    lemma_delete_all(snaps, reg, next, snaps.len() as int);
    assert(deletes_of(snaps).take(snaps.len() as int) =~= deletes_of(snaps));
    assert(reg.skip(reg.len() as int) =~= Seq::<(Seq<char>, u64)>::empty());
    lemma_spawn_all(snaps, reg, next, snaps.len() as int);
    assert(spawns_of(snaps).take(snaps.len() as int) =~= spawns_of(snaps));
    assert(reg.take(reg.len() as int) =~= reg);
}

/// Deleting a registered entity and then undoing it (spawning its snapshot)
/// gives back the same entries: the entity returns under its name and ID, at
/// the end of the registration order.
pub proof fn law_delete_then_inverse(reg: Seq<(Seq<char>, u64)>, next: u64, we: WorldEntity)
    requires
        registry_wf(reg),
        id_index(reg, we.id.0) >= 0,
        reg[id_index(reg, we.id.0)].0 == we.name@,
    ensures
        ({
            let k = id_index(reg, we.id.0);
            let d = edit_effect(EditOp::DeleteEntity { id: we.id }, reg, next);
            let u = edit_effect(EditOp::SpawnEntity { entity: we }, d.registry, d.next_id);
            &&& u.ok
            &&& u.registry == reg.remove(k).push(reg[k])
            &&& u.registry.to_set() == reg.to_set()
            &&& u.registry.len() == reg.len()
        }),
{
    lemma_id_index(reg, we.id.0);
    let k = id_index(reg, we.id.0);
    lemma_removed_name_free(reg, k);
    reveal_with_fuel(spawn_prefix, 2);
    let u = reg.remove(k).push(reg[k]);
    assert(reg[k] == (we.name@, we.id.0));
    assert(u.to_set() =~= reg.to_set()) by {
        assert forall|x: (Seq<char>, u64)| u.to_set().contains(x) implies reg.to_set().contains(x) by {
            let i = choose|i: int| 0 <= i < u.len() && u[i] == x;
            if i < k {
                assert(reg[i] == x);
            } else if i < u.len() - 1 {
                assert(reg[i + 1] == x);
            } else {
                assert(reg[k] == x);
            }
        }
        assert forall|x: (Seq<char>, u64)| reg.to_set().contains(x) implies u.to_set().contains(x) by {
            let i = choose|i: int| 0 <= i < reg.len() && reg[i] == x;
            if i < k {
                assert(u[i] == x);
            } else if i > k {
                assert(u[i - 1] == x);
            } else {
                assert(u[u.len() - 1] == x);
            }
        }
    }
}

/// The effect of deleting `id` and then spawning `we`, as one batch.
proof fn lemma_replace(ops: Seq<EditOp>, reg: Seq<(Seq<char>, u64)>, next: u64, id: EntityId, we: WorldEntity)
    requires
        ops == seq![EditOp::DeleteEntity { id }, EditOp::SpawnEntity { entity: we }],
    ensures
        batch_effect(ops, reg, next).registry == edit_effect(
            EditOp::SpawnEntity { entity: we },
            edit_effect(EditOp::DeleteEntity { id }, reg, next).registry,
            next,
        ).registry,
        batch_effect(ops, reg, next).next_id == edit_effect(
            EditOp::SpawnEntity { entity: we },
            edit_effect(EditOp::DeleteEntity { id }, reg, next).registry,
            next,
        ).next_id,
        batch_effect(ops, reg, next).ok == edit_effect(
            EditOp::SpawnEntity { entity: we },
            edit_effect(EditOp::DeleteEntity { id }, reg, next).registry,
            next,
        ).ok,
{
    assert(ops.drop_last() =~= seq![EditOp::DeleteEntity { id }]);
    assert(ops.drop_last().drop_last() =~= Seq::<EditOp>::empty());
    let b0 = batch_effect(ops.drop_last().drop_last(), reg, next);
    assert(b0.registry == reg && b0.next_id == next && b0.ok);
    let d = edit_effect(EditOp::DeleteEntity { id }, reg, next);
    assert(d.next_id == next);
    let b1 = batch_effect(ops.drop_last(), reg, next);
    assert(b1.registry == d.registry && b1.next_id == next && b1.ok);
}

/// Modifying a registered entity (replacing it by its new snapshot, under a
/// name that no other entity carries, its ID carried by it alone) and then
/// undoing it (replacing it by its old snapshot) gives back the same entries:
/// the entity returns under its name and ID, at the end of the registration
/// order.
pub proof fn law_modify_then_inverse(
    reg: Seq<(Seq<char>, u64)>,
    next: u64,
    id: EntityId,
    old_we: WorldEntity,
    new_we: WorldEntity,
    forward: Vec<EditOp>,
    inverse: Vec<EditOp>,
)
    requires
        registry_wf(reg),
        id_index(reg, id.0) >= 0,
        reg[id_index(reg, id.0)].0 == old_we.name@,
        forall|j: int| 0 <= j < reg.len() && j != id_index(reg, id.0) ==> (#[trigger] reg[j]).1 != id.0,
        old_we.id == id,
        new_we.id == id,
        !has_name(reg.remove(id_index(reg, id.0)), new_we.name@),
        forward@ == seq![EditOp::DeleteEntity { id }, EditOp::SpawnEntity { entity: new_we }],
        inverse@ == seq![EditOp::DeleteEntity { id }, EditOp::SpawnEntity { entity: old_we }],
    ensures
        ({
            let k = id_index(reg, id.0);
            let f = edit_effect(EditOp::Batch { ops: forward }, reg, next);
            let u = edit_effect(EditOp::Batch { ops: inverse }, f.registry, f.next_id);
            &&& f.ok
            &&& f.registry == reg.remove(k).push((new_we.name@, id.0))
            &&& u.ok
            &&& u.registry == reg.remove(k).push(reg[k])
        }),
{
    lemma_id_index(reg, id.0);
    let k = id_index(reg, id.0);
    reveal_with_fuel(spawn_prefix, 2);
    lemma_replace(forward@, reg, next, id, new_we);
    let f = edit_effect(EditOp::Batch { ops: forward }, reg, next);
    let r1 = reg.remove(k).push((new_we.name@, id.0));
    assert(f.registry == r1);
    assert(r1.drop_last() =~= reg.remove(k));
    assert(id_index(r1.drop_last(), id.0) < 0) by {
        lemma_id_index(reg.remove(k), id.0);
        if id_index(reg.remove(k), id.0) >= 0 {
            let j = id_index(reg.remove(k), id.0);
            let oj = if j < k { j } else { j + 1 };
            assert(reg.remove(k)[j] == reg[oj]);
            assert(reg[oj].1 == id.0);
        }
    }
    assert(id_index(r1, id.0) == reg.remove(k).len());
    assert(r1.remove(reg.remove(k).len() as int) =~= reg.remove(k));
    lemma_replace(inverse@, r1, f.next_id, id, old_we);
    lemma_removed_name_free(reg, k);
    assert(reg[k] == (old_we.name@, id.0));
}

/// The reply to a request that spawns or deletes an entity.
pub enum SceneResponse {
    /// The request could not be carried out.
    Error { message: String },
    /// The entity was registered under this name and world ID.
    Spawned { name: String, entity_id: u64 },
    /// The entity with this name was removed.
    Deleted { name: String },
}

/// The report for a name that an entity already carries.
pub open spec fn already_exists_text(name: Seq<char>) -> Seq<char> {
    "Entity '"@ + name + "' already exists"@
}

/// Register a new primitive under `name` with the next free world ID, unless
/// the name is taken. The second result says whether the new entity is to be
/// attached to `parent`: only when a parent is named and registered already.
pub fn handle_spawn_primitive(
    name: String,
    parent: Option<&str>,
    registry: &mut SceneRegistry,
    next_entity_id: &mut u64,
) -> (r: (SceneResponse, bool))
    requires
        registry_wf(old(registry)@),
        !has_name(old(registry)@, name@) ==> *old(next_entity_id) < u64::MAX,
    ensures
        registry_wf(final(registry)@),
        has_name(old(registry)@, name@) ==> {
            &&& r.0 matches SceneResponse::Error { message } && message@ == already_exists_text(name@)
            &&& !r.1
            &&& final(registry)@ == old(registry)@
            &&& *final(next_entity_id) == *old(next_entity_id)
        },
        !has_name(old(registry)@, name@) ==> {
            &&& r.0 matches SceneResponse::Spawned { name: n, entity_id } && n == name && entity_id == *old(
                next_entity_id,
            )
            &&& r.1 == (parent matches Some(p) && has_name(old(registry)@, p@))
            &&& final(registry)@ == old(registry)@.push((name@, *old(next_entity_id)))
            &&& *final(next_entity_id) == *old(next_entity_id) + 1
        },
{
    if registry.contains_name(name.as_str()) {
        let mut message = owned("Entity '");
        push_str(&mut message, name.as_str());
        push_str(&mut message, "' already exists");
        return (SceneResponse::Error { message }, false);
    }
    let wid = *next_entity_id;
    *next_entity_id = wid + 1;
    let attach = match parent {
        Some(p) => registry.contains_name(p),
        None => false,
    };
    let stored = name.clone();
    registry.insert_with_id(stored, EntityId(wid));
    (SceneResponse::Spawned { name, entity_id: wid }, attach)
}

/// The report for a name that no registered entity carries.
pub open spec fn name_not_found_text(name: Seq<char>) -> Seq<char> {
    "Entity '"@ + name + "' not found"@
}

/// Remove the entity registered under `name`.
pub fn handle_delete_entity(name: &str, registry: &mut SceneRegistry) -> (r: SceneResponse)
    requires
        registry_wf(old(registry)@),
    ensures
        registry_wf(final(registry)@),
        !has_name(old(registry)@, name@) ==> {
            &&& r matches SceneResponse::Error { message } && message@ == name_not_found_text(name@)
            &&& final(registry)@ == old(registry)@
        },
        has_name(old(registry)@, name@) ==> {
            &&& r matches SceneResponse::Deleted { name: n } && n@ == name@
            &&& forall|k: int| 0 <= k < old(registry)@.len() && (#[trigger] old(registry)@[k]).0 == name@
                ==> final(registry)@ == old(registry)@.remove(k)
        },
{
    match registry.index_of_name(name) {
        None => {
            let mut message = owned("Entity '");
            push_str(&mut message, name);
            push_str(&mut message, "' not found");
            SceneResponse::Error { message }
        },
        Some(k) => {
            let ghost before = registry@;
            let _removed = registry.remove_at(k);
            assert forall|j: int| 0 <= j < before.len() && (#[trigger] before[j]).0 == name@
                implies registry@ == before.remove(j) by {
                if j != k {
                    assert(before[j].0 != before[k as int].0);
                }
            }
            SceneResponse::Deleted { name: owned(name) }
        },
    }
}

/// Spawning a primitive under a free name and then deleting that name gives
/// back the registry as it was: the only entry under the name is the new one.
pub proof fn law_spawn_then_delete_by_name(reg: Seq<(Seq<char>, u64)>, name: Seq<char>, id: u64)
    requires
        registry_wf(reg),
        !has_name(reg, name),
    ensures
        has_name(reg.push((name, id)), name),
        forall|k: int| 0 <= k < reg.len() + 1 && (#[trigger] reg.push((name, id))[k]).0 == name
            ==> reg.push((name, id)).remove(k) == reg,
{
    let p = reg.push((name, id));
    assert(p[reg.len() as int].0 == name);
    assert forall|k: int| 0 <= k < reg.len() + 1 && (#[trigger] p[k]).0 == name implies p.remove(k) == reg by {
        if k < reg.len() {
            assert(p[k] == reg[k]);
        }
        assert(p.remove(reg.len() as int) =~= reg);
    }
}

/// The entries among the first `n` of `reg` whose flag in `keep` is set, in
/// order.
pub open spec fn kept_entries(reg: Seq<(Seq<char>, u64)>, keep: Seq<bool>, n: int) -> Seq<(Seq<char>, u64)>
    decreases n,
{
    if n <= 0 {
        Seq::empty()
    } else if keep[n - 1] {
        kept_entries(reg, keep, n - 1).push(reg[n - 1])
    } else {
        kept_entries(reg, keep, n - 1)
    }
}

proof fn lemma_kept_wf(reg: Seq<(Seq<char>, u64)>, keep: Seq<bool>, n: int)
    requires
        registry_wf(reg),
        0 <= n <= reg.len(),
    ensures
        registry_wf(kept_entries(reg, keep, n)),
        kept_entries(reg, keep, n).len() <= n,
        forall|k: int| 0 <= k < kept_entries(reg, keep, n).len() ==> exists|j: int|
            0 <= j < n && (#[trigger] kept_entries(reg, keep, n)[k]) == reg[j],
    decreases n,
{
    if n > 0 {
        lemma_kept_wf(reg, keep, n - 1);
        let p = kept_entries(reg, keep, n - 1);
        let q = kept_entries(reg, keep, n);
        if keep[n - 1] {
            assert forall|k: int| 0 <= k < q.len() implies exists|j: int| 0 <= j < n && (#[trigger] q[k]) == reg[j] by {
                if k < p.len() {
                    assert(q[k] == p[k]);
                } else {
                    assert(q[k] == reg[n - 1]);
                }
            }
            assert forall|a: int, b: int| 0 <= a < b < q.len() implies (#[trigger] q[a]).0 != (#[trigger] q[b]).0 by {
                if b < p.len() {
                    assert(q[a] == p[a] && q[b] == p[b]);
                } else {
                    assert(q[a] == p[a]);
                    let j = choose|j: int| 0 <= j < n - 1 && (#[trigger] p[a]) == reg[j];
                    assert(reg[j].0 != reg[n - 1].0);
                }
            }
            assert forall|a: int| 0 <= a < q.len() implies (#[trigger] q[a]).1 < u64::MAX by {
                if a < p.len() {
                    assert(q[a] == p[a]);
                }
            }
        }
    }
}

proof fn lemma_kept_len(reg: Seq<(Seq<char>, u64)>, keep: Seq<bool>, n: int)
    requires
        0 <= n,
    ensures
        kept_entries(reg, keep, n).len() <= n,
    decreases n,
{
    if n > 0 {
        lemma_kept_len(reg, keep, n - 1);
    }
}

/// Whether clearing the scene keeps the entity: a camera when cameras are
/// kept, a light when lights are kept.
pub open spec fn kept_by_clear(is_camera: bool, is_light: bool, keep_camera: bool, keep_lights: bool) -> bool {
    (keep_camera && is_camera) || (keep_lights && is_light)
}

/// The keep flags of a clear: entity `i` is kept when `kept_by_clear` says so.
pub open spec fn clear_flags(is_camera: Seq<bool>, is_light: Seq<bool>, keep_camera: bool, keep_lights: bool) -> Seq<bool> {
    Seq::new(is_camera.len(), |i: int| kept_by_clear(is_camera[i], is_light[i], keep_camera, keep_lights))
}

/// Clear the scene: remove every registered entity except cameras (when
/// `keep_camera`) and lights (when `keep_lights`), given which entities are
/// cameras and which are lights; stop and rewind the behaviors. Hands back
/// how many entities were removed.
pub fn handle_clear_scene(
    keep_camera: bool,
    keep_lights: bool,
    is_camera: &Vec<bool>,
    is_light: &Vec<bool>,
    registry: &mut SceneRegistry,
    behavior_state: &mut BehaviorState,
) -> (removed_count: usize)
    requires
        registry_wf(old(registry)@),
        is_camera@.len() == old(registry)@.len(),
        is_light@.len() == old(registry)@.len(),
    ensures
        registry_wf(final(registry)@),
        final(registry)@ == kept_entries(
            old(registry)@,
            clear_flags(is_camera@, is_light@, keep_camera, keep_lights),
            old(registry)@.len() as int,
        ),
        removed_count == old(registry)@.len() - final(registry)@.len(),
        final(behavior_state).elapsed == 0,
        !final(behavior_state).paused,
        final(behavior_state).spec_next_id() == old(behavior_state).spec_next_id(),
{
    let mut keep: Vec<bool> = Vec::new();
    let mut i: usize = 0;
    while i < is_camera.len()
        invariant
            i <= is_camera@.len(),
            is_light@.len() == is_camera@.len(),
            keep@ == clear_flags(is_camera@, is_light@, keep_camera, keep_lights).take(i as int),
        decreases is_camera@.len() - i,
    {
        keep.push((keep_camera && is_camera[i]) || (keep_lights && is_light[i]));
        assert(keep@ =~= clear_flags(is_camera@, is_light@, keep_camera, keep_lights).take(i + 1));
        i += 1;
    }
    assert(keep@ =~= clear_flags(is_camera@, is_light@, keep_camera, keep_lights));
    let removed = registry.retain_flagged(&keep);
    behavior_state.elapsed = 0;
    behavior_state.paused = false;
    removed
}

/// Whether the entity is snapshotted for undo when the scene is cleared:
/// not the entity named "main_camera" when the camera is kept, and not a
/// light when lights are kept.
pub open spec fn snapshotted_by_clear(name: Seq<char>, has_light: bool, keep_camera: bool, keep_lights: bool) -> bool {
    !(keep_camera && name == "main_camera"@) && !(keep_lights && has_light)
}

/// The positions of the registered entities that a clear snapshots for
/// undo, among the first `n`, in order.
pub open spec fn snapshot_positions(
    reg: Seq<(Seq<char>, u64)>,
    has_light: Seq<bool>,
    keep_camera: bool,
    keep_lights: bool,
    n: int,
) -> Seq<usize>
    decreases n,
{
    if n <= 0 {
        Seq::empty()
    } else if snapshotted_by_clear(reg[n - 1].0, has_light[n - 1], keep_camera, keep_lights) {
        snapshot_positions(reg, has_light, keep_camera, keep_lights, n - 1).push((n - 1) as usize)
    } else {
        snapshot_positions(reg, has_light, keep_camera, keep_lights, n - 1)
    }
}

/// The positions of the registered entities to snapshot before a clear, so
/// that the clear can be undone.
pub fn clear_snapshot_positions(
    registry: &SceneRegistry,
    keep_camera: bool,
    keep_lights: bool,
    has_light: &Vec<bool>,
) -> (r: Vec<usize>)
    requires
        has_light@.len() == registry@.len(),
    ensures
        r@ == snapshot_positions(registry@, has_light@, keep_camera, keep_lights, registry@.len() as int),
{
    let mut r: Vec<usize> = Vec::new();
    let mut i: usize = 0;
    let n = registry.len();
    while i < n
        invariant
            i <= n,
            n == registry@.len(),
            has_light@.len() == n,
            r@ == snapshot_positions(registry@, has_light@, keep_camera, keep_lights, i as int),
        decreases n - i,
    {
        let (name, _id) = registry.entry(i);
        let is_main_camera = str_equal(name, "main_camera");
        if !(keep_camera && is_main_camera) && !(keep_lights && has_light[i]) {
            r.push(i);
        }
        i += 1;
    }
    r
}


/// An entry is among the kept ones exactly when some flagged entry among
/// the first `n` carries its name.
proof fn lemma_kept_names(reg: Seq<(Seq<char>, u64)>, keep: Seq<bool>, n: int, name: Seq<char>)
    requires
        0 <= n <= reg.len(),
        n <= keep.len(),
    ensures
        has_name(kept_entries(reg, keep, n), name) <==> exists|j: int|
            0 <= j < n && keep[j] && (#[trigger] reg[j]).0 == name,
    decreases n,
{
    if n > 0 {
        lemma_kept_names(reg, keep, n - 1, name);
        let p = kept_entries(reg, keep, n - 1);
        let q = kept_entries(reg, keep, n);
        if keep[n - 1] {
            if has_name(q, name) {
                let i = choose|i: int| 0 <= i < q.len() && (#[trigger] q[i]).0 == name;
                if i < p.len() {
                    assert(q[i] == p[i]);
                    assert(has_name(p, name));
                } else {
                    assert(reg[n - 1].0 == name);
                }
            }
            if exists|j: int| 0 <= j < n && keep[j] && (#[trigger] reg[j]).0 == name {
                let j = choose|j: int| 0 <= j < n && keep[j] && (#[trigger] reg[j]).0 == name;
                if j < n - 1 {
                    assert(has_name(p, name));
                    let i = choose|i: int| 0 <= i < p.len() && (#[trigger] p[i]).0 == name;
                    assert(q[i] == p[i]);
                } else {
                    assert(q[p.len() as int] == reg[n - 1]);
                }
            }
        } else {
            if exists|j: int| 0 <= j < n && keep[j] && (#[trigger] reg[j]).0 == name {
                let j = choose|j: int| 0 <= j < n && keep[j] && (#[trigger] reg[j]).0 == name;
                assert(j < n - 1);
            }
        }
    }
}

/// Clearing the scene keeps a registered entity exactly when cameras are
/// kept and it is a camera, or lights are kept and it is a light; every
/// other entity is removed, and the kept ones stay in their order.
pub proof fn law_clear_keeps_exactly(
    reg: Seq<(Seq<char>, u64)>,
    is_camera: Seq<bool>,
    is_light: Seq<bool>,
    keep_camera: bool,
    keep_lights: bool,
    i: int,
)
    requires
        registry_wf(reg),
        is_camera.len() == reg.len(),
        is_light.len() == reg.len(),
        0 <= i < reg.len(),
    ensures
        has_name(
            kept_entries(reg, clear_flags(is_camera, is_light, keep_camera, keep_lights), reg.len() as int),
            reg[i].0,
        ) <==> ((keep_camera && is_camera[i]) || (keep_lights && is_light[i])),
        !keep_camera && !keep_lights ==> kept_entries(
            reg,
            clear_flags(is_camera, is_light, keep_camera, keep_lights),
            reg.len() as int,
        ).len() == 0,
{
    let keep = clear_flags(is_camera, is_light, keep_camera, keep_lights);
    lemma_kept_names(reg, keep, reg.len() as int, reg[i].0);
    if exists|j: int| 0 <= j < reg.len() && keep[j] && (#[trigger] reg[j]).0 == reg[i].0 {
        let j = choose|j: int| 0 <= j < reg.len() && keep[j] && (#[trigger] reg[j]).0 == reg[i].0;
        if j != i {
            if j < i {
                assert(reg[j].0 != reg[i].0);
            } else {
                assert(reg[i].0 != reg[j].0);
            }
        }
    }
    if (keep_camera && is_camera[i]) || (keep_lights && is_light[i]) {
        assert(keep[i]);
    }
    if !keep_camera && !keep_lights {
        lemma_kept_none(reg, keep, reg.len() as int);
    }
}

proof fn lemma_kept_none(reg: Seq<(Seq<char>, u64)>, keep: Seq<bool>, n: int)
    requires
        0 <= n <= keep.len(),
        forall|j: int| 0 <= j < n ==> !#[trigger] keep[j],
    ensures
        kept_entries(reg, keep, n).len() == 0,
    decreases n,
{
    if n > 0 {
        lemma_kept_none(reg, keep, n - 1);
    }
}

} // verus!
