//! Finding and loading saved worlds and glTF files: home-directory
//! expansion of user paths, the choice among candidate locations (whose
//! existence the caller checks on disk), the choice of manifest format, and
//! the split of a manifest's entities into the scene to spawn.
use vstd::prelude::*;

use crate::entity::{AudioKind, EntityView, WorldEntity};
use crate::scene::entity_views;
use crate::text::{owned, push_str};

verus! {

/// Whether a path starts with a `~` that `shellexpand::tilde` replaces: a
/// lone `~`, or `~` followed by a separator.
pub open spec fn tilde_form(p: Seq<char>) -> bool {
    p.len() > 0 && p[0] == '~' && (p.len() == 1 || p[1] == '/' || p[1] == '\\')
}

/// What expanding a path gives: the path itself when it does not start with
/// a replaceable `~`; otherwise the path itself (no home directory is known)
/// or some directory followed by the path after its `~`.
pub open spec fn expansion_of(p: Seq<char>, r: Seq<char>) -> bool {
    if tilde_form(p) {
        r == p || (r.len() + 1 >= p.len() && r.skip(r.len() + 1 - p.len()) == p.skip(1))
    } else {
        r == p
    }
}

/// `shellexpand::tilde`: a leading `~` (alone, or before a separator) is
/// replaced by the home directory when one is known; any other path comes
/// back as it is. Which home directory that is depends on the environment,
/// so only what holds of every outcome is stated.
#[verifier::external_body]
fn tilde(path: &str) -> (r: String)
    ensures
        expansion_of(path@, r@),
{
    shellexpand::tilde(path).into_owned()
}

/// The path with a leading `~` expanded to the home directory.
pub fn expand_home(path: &str) -> (r: String)
    ensures
        expansion_of(path@, r@),
{
    tilde(path)
}

/// Where a world skill was found.
#[derive(Clone, Copy, PartialEq, Eq, Structural, Debug)]
pub enum WorldDirChoice {
    /// The expanded path itself.
    AsGiven,
    /// `<workspace>/skills/<expanded path>`.
    InSkills,
}

/// The report for a world that is found nowhere.
pub open spec fn world_not_found_text(path: Seq<char>) -> Seq<char> {
    "World skill not found: "@ + path
}

/// Choose the world directory: the expanded path when that directory holds
/// a world (`world.ron` or `world.toml`), else the skill of that name in the
/// workspace when it holds one, else the error naming the path as given.
pub fn choose_world_dir(path: &str, as_given_holds_world: bool, in_skills_holds_world: bool) -> (r: Result<
    WorldDirChoice,
    String,
>)
    ensures
        as_given_holds_world ==> r == Ok::<WorldDirChoice, String>(WorldDirChoice::AsGiven),
        !as_given_holds_world && in_skills_holds_world ==> r == Ok::<WorldDirChoice, String>(
            WorldDirChoice::InSkills,
        ),
        !as_given_holds_world && !in_skills_holds_world ==> (r matches Err(m) && m@ == world_not_found_text(
            path@,
        )),
{
    if as_given_holds_world {
        Ok(WorldDirChoice::AsGiven)
    } else if in_skills_holds_world {
        Ok(WorldDirChoice::InSkills)
    } else {
        let mut m = owned("World skill not found: ");
        push_str(&mut m, path);
        Err(m)
    }
}

/// The format a world directory is read in.
#[derive(Clone, Copy, PartialEq, Eq, Structural, Debug)]
pub enum ManifestFormat {
    /// `world.ron`.
    Ron,
    /// The older `world.toml` with its side files.
    LegacyToml,
}

/// `world.ron` when it exists, else the older `world.toml`.
pub fn manifest_format(ron_exists: bool) -> (r: ManifestFormat)
    ensures
        r == (if ron_exists {
            ManifestFormat::Ron
        } else {
            ManifestFormat::LegacyToml
        }),
{
    if ron_exists {
        ManifestFormat::Ron
    } else {
        ManifestFormat::LegacyToml
    }
}

/// Where a glTF file is looked for, in order.
#[derive(Clone, Copy, PartialEq, Eq, Structural, Debug)]
pub enum GltfLocation {
    /// The expanded path itself.
    AsGiven,
    /// `<workspace>/<expanded path>`.
    InWorkspace,
    /// `<workspace>/exports/<expanded path>`.
    InExports,
    /// A file of the same name anywhere under the workspace.
    SearchWorkspace,
}

/// The first of the candidate locations that exists, or a search of the
/// workspace when none does.
pub fn choose_gltf_location(as_given_exists: bool, in_workspace_exists: bool, in_exports_exists: bool) -> (r:
    GltfLocation)
    ensures
        r == (if as_given_exists {
            GltfLocation::AsGiven
        } else if in_workspace_exists {
            GltfLocation::InWorkspace
        } else if in_exports_exists {
            GltfLocation::InExports
        } else {
            GltfLocation::SearchWorkspace
        }),
{
    if as_given_exists {
        GltfLocation::AsGiven
    } else if in_workspace_exists {
        GltfLocation::InWorkspace
    } else if in_exports_exists {
        GltfLocation::InExports
    } else {
        GltfLocation::SearchWorkspace
    }
}

/// An entity that is only a background sound: ambient audio heard
/// everywhere (no radius), with no shape and no light.
pub open spec fn ambient_only(e: EntityView) -> bool {
    &&& e.audio matches Some(a) && a.kind == AudioKind::Ambient && a.radius is None
    &&& e.shape_triangles is None
    &&& e.light is None
}

/// The entities of a manifest that are spawned into the scene: all but the
/// ambient-only ones, in order.
pub open spec fn scene_part(s: Seq<EntityView>) -> Seq<EntityView>
    decreases s.len(),
{
    if s.len() == 0 {
        Seq::empty()
    } else if ambient_only(s.last()) {
        scene_part(s.drop_last())
    } else {
        scene_part(s.drop_last()).push(s.last())
    }
}

/// The number of behaviors of a list of entities.
pub open spec fn behavior_total(s: Seq<EntityView>) -> nat
    decreases s.len(),
{
    if s.len() == 0 {
        0
    } else {
        behavior_total(s.drop_last()) + s.last().behaviors.len()
    }
}

proof fn lemma_scene_part_total(s: Seq<EntityView>, k: int)
    requires
        0 <= k <= s.len(),
    ensures
        behavior_total(scene_part(s.take(k))) <= behavior_total(scene_part(s)),
    decreases s.len() - k,
{
    if k < s.len() {
        lemma_scene_part_total(s, k + 1);
        let t = s.take(k + 1);
        assert(t.drop_last() =~= s.take(k));
        let p = scene_part(s.take(k));
        if !ambient_only(t.last()) {
            assert(p.push(t.last()).drop_last() =~= p);
        }
    } else {
        assert(s.take(k) =~= s);
    }
}

/// The entities of a loaded manifest that go into the scene (all but the
/// ambient-only ones, in order) and their number of behaviors.
pub fn scene_entities(entities: Vec<WorldEntity>) -> (r: (Vec<WorldEntity>, usize))
    requires
        behavior_total(scene_part(entity_views(entities@))) <= usize::MAX,
    ensures
        entity_views(r.0@) == scene_part(entity_views(entities@)),
        r.1 == behavior_total(scene_part(entity_views(entities@))),
{
    let ghost all = entity_views(entities@);
    let n = entities.len();
    let mut rest = entities;
    let mut kept: Vec<WorldEntity> = Vec::new();
    let mut total: usize = 0;
    let mut k: usize = 0;
    assert(all.take(0) =~= Seq::<EntityView>::empty());
    while rest.len() > 0
        invariant
            k <= n,
            all.len() == n,
            entity_views(rest@) == all.skip(k as int),
            entity_views(kept@) == scene_part(all.take(k as int)),
            total == behavior_total(scene_part(all.take(k as int))),
            behavior_total(scene_part(all)) <= usize::MAX,
        decreases rest@.len(),
    {
        let ghost before = rest@;
        assert(entity_views(before).len() == before.len());
        assert(k < n);
        let e = rest.remove(0);
        proof {
            assert(before[0] == e);
            assert(entity_views(before)[0] == before[0]@);
            assert(entity_views(before)[0] == all.skip(k as int)[0]);
            assert(e@ == all[k as int]);
            assert(entity_views(rest@) =~= all.skip(k + 1)) by {
                assert forall|j: int| 0 <= j < rest@.len() implies entity_views(rest@)[j] == all.skip(k + 1)[j] by {
                    assert(rest@[j] == before[j + 1]);
                    assert(entity_views(rest@)[j] == rest@[j]@);
                    assert(entity_views(before)[j + 1] == before[j + 1]@);
                    assert(entity_views(before)[j + 1] == all.skip(k as int)[j + 1]);
                }
            }
            assert(all.take(k + 1).drop_last() =~= all.take(k as int));
            assert(all.take(k + 1).last() == all[k as int]);
            lemma_scene_part_total(all, k + 1);
        }
        let ambient = match &e.audio {
            Some(a) => match a.kind {
                AudioKind::Ambient => a.radius.is_none(),
                AudioKind::Sfx => false,
            },
            None => false,
        };
        if ambient && e.shape_triangles.is_none() && e.light.is_none() {
        } else {
            proof {
                let p = scene_part(all.take(k as int));
                assert(!ambient_only(all[k as int]));
                assert(scene_part(all.take(k + 1)) == p.push(all[k as int]));
                assert(p.push(all[k as int]).drop_last() =~= p);
                assert(behavior_total(p.push(all[k as int])) == behavior_total(p) + e.behaviors@.len());
            }
            total = total + e.behaviors.len();
            let ghost kb = kept@;
            kept.push(e);
            assert(entity_views(kept@) =~= entity_views(kb).push(all[k as int]));
            assert(scene_part(all.take(k as int)).push(all[k as int]).drop_last() =~= scene_part(all.take(k as int)));
        }
        k += 1;
    }
    assert(all.take(k as int) =~= all);
    (kept, total)
}

} // verus!
