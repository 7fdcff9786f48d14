//! World manifest: the top-level world definition, its schema version check
//! and entity ID allocation.
use vstd::prelude::*;

use crate::entity::{CameraDef, EntityId, EnvironmentDef, WorldEntity};
use crate::text::{decimal, owned, push_decimal, push_str};

verus! {

/// Current schema version. Increment when making breaking changes.
pub const WORLD_SCHEMA_VERSION: u32 = 1;

/// Minimum supported version for loading.
pub const MIN_SUPPORTED_VERSION: u32 = 1;

/// Version compatibility error.
pub enum VersionError {
    /// World file is too old to load.
    TooOld { found: u32, min: u32 },
    /// World file is from a newer version of the software.
    TooNew { found: u32, current: u32 },
}

/// The human-readable text of a version error.
pub open spec fn version_error_text(e: VersionError) -> Seq<char> {
    match e {
        VersionError::TooOld { found, min } => "version "@ + decimal(found as nat)
            + " is too old (minimum supported: "@ + decimal(min as nat) + ")"@,
        VersionError::TooNew { found, current } => "version "@ + decimal(found as nat)
            + " is from a newer localgpt-gen (current: "@ + decimal(current as nat) + ")"@,
    }
}

impl VersionError {
    /// The human-readable text of this error.
    pub fn message(&self) -> (s: String)
        ensures
            s@ == version_error_text(*self),
    {
        let mut s = owned("version ");
        match self {
            VersionError::TooOld { found, min } => {
                push_decimal(&mut s, *found as u64);
                push_str(&mut s, " is too old (minimum supported: ");
                push_decimal(&mut s, *min as u64);
            },
            VersionError::TooNew { found, current } => {
                push_decimal(&mut s, *found as u64);
                push_str(&mut s, " is from a newer localgpt-gen (current: ");
                push_decimal(&mut s, *current as u64);
            },
        }
        push_str(&mut s, ")");
        s
    }
}

/// World metadata.
pub struct WorldMeta {
    /// World name (used as skill name / directory name).
    pub name: String,
    /// Human-readable description.
    pub description: Option<String>,
    /// Biome hint for procedural generation.
    pub biome: Option<String>,
    /// Time of day (hours, as the bits of an `f32`).
    pub time_of_day: Option<u32>,
}

/// Top-level world manifest: everything needed to save and load a world.
pub struct WorldManifest {
    /// Schema version for forward/backward migration.
    pub version: u32,
    /// World metadata.
    pub meta: WorldMeta,
    /// Environment settings.
    pub environment: Option<EnvironmentDef>,
    /// Default camera.
    pub camera: Option<CameraDef>,
    /// Entities (inline for small worlds).
    pub entities: Vec<WorldEntity>,
    /// Next entity ID to allocate.
    pub next_entity_id: u64,
}

/// The schema version a manifest gets when its file names none.
pub fn default_version() -> (v: u32)
    ensures
        v == WORLD_SCHEMA_VERSION,
{
    WORLD_SCHEMA_VERSION
}

/// The next entity ID a manifest gets when its file names none.
pub fn default_next_id() -> (id: u64)
    ensures
        id == 1,
{
    1
}

/// Sum of the triangle estimates of the shaped entities.
pub open spec fn total_triangles(entities: Seq<WorldEntity>) -> nat
    decreases entities.len(),
{
    if entities.len() == 0 {
        0
    } else {
        total_triangles(entities.drop_last()) + match entities.last().shape_triangles {
            Some(t) => t as nat,
            None => 0,
        }
    }
}

/// What a version check answers for a given schema version.
pub open spec fn version_check(version: u32) -> Result<(), VersionError> {
    if version < MIN_SUPPORTED_VERSION {
        Err(VersionError::TooOld { found: version, min: MIN_SUPPORTED_VERSION })
    } else if version > WORLD_SCHEMA_VERSION {
        Err(VersionError::TooNew { found: version, current: WORLD_SCHEMA_VERSION })
    } else {
        Ok(())
    }
}

impl WorldManifest {
    /// Create a new empty world with a given name.
    pub fn new(name: &str) -> (m: WorldManifest)
        ensures
            m.version == WORLD_SCHEMA_VERSION,
            m.meta.name@ == name@,
            m.meta.description is None,
            m.meta.biome is None,
            m.meta.time_of_day is None,
            m.environment is None,
            m.camera is None,
            m.entities@.len() == 0,
            m.next_entity_id == 1,
    {
        WorldManifest {
            version: default_version(),
            meta: WorldMeta { name: owned(name), description: None, biome: None, time_of_day: None },
            environment: None,
            camera: None,
            entities: Vec::new(),
            next_entity_id: default_next_id(),
        }
    }

    /// Check if this manifest's version is compatible with current code.
    pub fn check_version(&self) -> (r: Result<(), VersionError>)
        ensures
            r == version_check(self.version),
    {
        if self.version < MIN_SUPPORTED_VERSION {
            Err(VersionError::TooOld { found: self.version, min: MIN_SUPPORTED_VERSION })
        } else if self.version > WORLD_SCHEMA_VERSION {
            Err(VersionError::TooNew { found: self.version, current: WORLD_SCHEMA_VERSION })
        } else {
            Ok(())
        }
    }

    /// Allocate and return the next entity ID, incrementing the counter.
    pub fn alloc_entity_id(&mut self) -> (id: EntityId)
        requires
            old(self).next_entity_id < u64::MAX,
        ensures
            id == EntityId(old(self).next_entity_id),
            final(self).next_entity_id == old(self).next_entity_id + 1,
            final(self).version == old(self).version,
            final(self).meta == old(self).meta,
            final(self).environment == old(self).environment,
            final(self).camera == old(self).camera,
            final(self).entities == old(self).entities,
    {
        let id = EntityId(self.next_entity_id);
        self.next_entity_id = self.next_entity_id + 1;
        id
    }

    /// Total entity count.
    pub fn entity_count(&self) -> (n: usize)
        ensures
            n == self.entities@.len(),
    {
        self.entities.len()
    }

    /// Total triangle budget estimate: the sum of the estimates of all
    /// entities that have a shape.
    pub fn estimate_triangles(&self) -> (n: usize)
        requires
            total_triangles(self.entities@) <= usize::MAX,
        ensures
            n == total_triangles(self.entities@),
    {
        let mut sum: usize = 0;
        let mut i: usize = 0;
        while i < self.entities.len()
            invariant
                i <= self.entities@.len(),
                sum == total_triangles(self.entities@.take(i as int)),
                total_triangles(self.entities@) <= usize::MAX,
            decreases self.entities@.len() - i,
        {
            proof {
                lemma_total_triangles_prefix(self.entities@, i as int + 1);
                assert(self.entities@.take(i as int + 1).drop_last() =~= self.entities@.take(i as int));
            }
            match self.entities[i].shape_triangles {
                Some(t) => {
                    sum = sum + t;
                },
                None => {},
            }
            i = i + 1;
        }
        assert(self.entities@.take(i as int) =~= self.entities@);
        sum
    }
}

/// A prefix never holds more triangles than the whole sequence.
proof fn lemma_total_triangles_prefix(s: Seq<WorldEntity>, k: int)
    requires
        0 <= k <= s.len(),
    ensures
        total_triangles(s.take(k)) <= total_triangles(s),
    decreases s.len() - k,
{
    if k < s.len() {
        lemma_total_triangles_prefix(s, k + 1);
        assert(s.take(k + 1).drop_last() =~= s.take(k));
    } else {
        assert(s.take(k) =~= s);
    }
}

/// The next free ID after the entities with IDs `ids` are saved: one past
/// the largest, and at least 1.
pub open spec fn next_after(ids: Seq<u64>) -> u64
    decreases ids.len(),
{
    if ids.len() == 0 {
        1
    } else {
        let n = next_after(ids.drop_last());
        if ids.last() >= n {
            (ids.last() + 1) as u64
        } else {
            n
        }
    }
}

/// The name under which an ambience layer is saved.
pub open spec fn ambience_name(layer: Seq<char>) -> Seq<char> {
    "ambience_"@ + layer
}

/// The ID bound is always past every ID (where none is the largest `u64`).
pub proof fn law_next_after_is_fresh(ids: Seq<u64>)
    requires
        forall|i: int| 0 <= i < ids.len() ==> #[trigger] ids[i] < u64::MAX,
    ensures
        next_after(ids) >= 1,
        forall|i: int| 0 <= i < ids.len() ==> #[trigger] ids[i] < next_after(ids),
    decreases ids.len(),
{
    if ids.len() > 0 {
        law_next_after_is_fresh(ids.drop_last());
        assert forall|i: int| 0 <= i < ids.len() implies #[trigger] ids[i] < next_after(ids) by {
            if i < ids.len() - 1 {
                assert(ids[i] == ids.drop_last()[i]);
            }
        }
    }
}

/// The IDs of a saved world: the saved entities keep theirs, and the
/// ambience layers become entities named `ambience_<layer>` with IDs
/// counting up from one past the largest entity ID. Hands back those
/// entities' names and IDs, and the manifest's next free ID.
pub fn save_ids(entity_ids: &Vec<u64>, layers: &Vec<String>) -> (r: (Vec<(String, u64)>, u64))
    requires
        forall|i: int| 0 <= i < entity_ids@.len() ==> #[trigger] entity_ids@[i] < u64::MAX,
        next_after(entity_ids@) + layers@.len() <= u64::MAX,
    ensures
        r.0@.len() == layers@.len(),
        forall|i: int| 0 <= i < layers@.len() ==> (#[trigger] r.0@[i]).0@ == ambience_name(layers@[i]@)
            && r.0@[i].1 == next_after(entity_ids@) + i,
        r.1 == next_after(entity_ids@) + layers@.len(),
{
    let mut next: u64 = 1;
    let mut i: usize = 0;
    while i < entity_ids.len()
        invariant
            i <= entity_ids@.len(),
            forall|k: int| 0 <= k < entity_ids@.len() ==> #[trigger] entity_ids@[k] < u64::MAX,
            next == next_after(entity_ids@.take(i as int)),
        decreases entity_ids@.len() - i,
    {
        proof {
            assert(entity_ids@.take(i + 1).drop_last() =~= entity_ids@.take(i as int));
        }
        if entity_ids[i] >= next {
            next = entity_ids[i] + 1;
        }
        i += 1;
    }
    assert(entity_ids@.take(i as int) =~= entity_ids@);
    let start = next;
    let mut out: Vec<(String, u64)> = Vec::new();
    let mut j: usize = 0;
    while j < layers.len()
        invariant
            j <= layers@.len(),
            start == next_after(entity_ids@),
            start + layers@.len() <= u64::MAX,
            next == start + j,
            out@.len() == j,
            forall|k: int| 0 <= k < j ==> (#[trigger] out@[k]).0@ == ambience_name(layers@[k]@)
                && out@[k].1 == start + k,
        decreases layers@.len() - j,
    {
        let mut name = owned("ambience_");
        push_str(&mut name, layers[j].as_str());
        out.push((name, next));
        next = next + 1;
        j += 1;
    }
    (out, next)
}

} // verus!
