//! Canonical schema and versioned snapshot ledger for virtual objects
//! extracted from heterogeneous sources (diagrams, telemetry span
//! graphs, markup sheets, schemas, code modules).
//!
//! The ledger keeps one append-only snapshot sequence per object
//! identity; versions form a contiguous chain starting at 1, and any
//! insert that does not extend the chain by exactly one is rejected.

use vstd::prelude::*;

use crate::trusted::fresh_id;
use crate::trusted::now_millis;

verus! {

/// Source modality a virtual object was extracted from.
#[derive(Clone, Copy, PartialEq, Eq, Structural, Debug)]
pub enum VirtualObjectKind {
    MermaidDiagram,
    OpenTelemetrySpanGraph,
    DomSheet,
    JsonSchema,
    AlnPlan,
    RustCrate,
    JsModule,
    LuaModule,
    AutomationJob,
}

/// How much operational trust an object has earned.
#[derive(Clone, Copy, PartialEq, Eq, Structural, Debug)]
pub enum TrustTier {
    Ephemeral,
    LabExperiment,
    StableInternal,
    ProductionCritical,
}

/// Whether an object needs human governance or multisig review before
/// auto-use.
#[derive(Clone, Copy, PartialEq, Eq, Structural, Debug)]
pub enum GovernanceRequirement {
    NoneRequired,
    RequiresGovernance,
    RequiresMultisig,
}

/// Identity of a virtual object: a 128-bit identifier.
#[derive(Clone, Copy, PartialEq, Eq, Structural, Debug)]
pub struct VirtualObjectId(pub u128);

/// Drift between the newest and the prior revision of an object,
/// computed by the external diff engine. Scores are scaled by
/// [`crate::safety_profile::SCORE_ONE`].
#[derive(PartialEq, Eq, Debug)]
pub struct DriftMetrics {
    pub drift_score: u32,
    pub structural_delta: u32,
    pub semantic_delta: u32,
    /// Optional previous-to-current migration note.
    pub note: Option<String>,
}

impl Clone for DriftMetrics {
    fn clone(&self) -> (r: Self)
        ensures
            r == *self,
    {
        DriftMetrics {
            drift_score: self.drift_score,
            structural_delta: self.structural_delta,
            semantic_delta: self.semantic_delta,
            note: match &self.note {
                Some(s) => Some(s.clone()),
                None => None,
            },
        }
    }
}

/// Rolling stability measures of an object across revisions.
#[derive(Clone, Copy, PartialEq, Eq, Structural, Debug)]
pub struct StabilityMetrics {
    pub stability: u32,
    pub novelty: u32,
    /// Number of prior revisions observed; one per recorded snapshot.
    pub revision_count: u64,
}

/// Reference to the evidence bundle backing an object.
#[derive(PartialEq, Eq, Debug)]
pub struct EvidenceBundle(pub String);

impl Clone for EvidenceBundle {
    fn clone(&self) -> (r: Self)
        ensures
            r == *self,
    {
        EvidenceBundle(self.0.clone())
    }
}

/// Canonical descriptor of one virtual object, updated in place on each
/// extraction pass and never deleted.
#[derive(PartialEq, Eq, Debug)]
pub struct VirtualObjectDescriptor {
    pub id: VirtualObjectId,
    pub kind: VirtualObjectKind,
    pub trust_tier: TrustTier,
    pub governance: GovernanceRequirement,
    pub name: String,
    pub origin_uri: String,
    pub created_at: u64,
    pub updated_at: u64,
    pub evidence: EvidenceBundle,
    pub stability: StabilityMetrics,
    pub drift: DriftMetrics,
    /// Local content checksum, hex-encoded.
    pub content_hash_hex: String,
    /// Optional pointer to an external anchor manifest.
    pub anchor_manifest_id: Option<u128>,
}

impl Clone for VirtualObjectDescriptor {
    fn clone(&self) -> (r: Self)
        ensures
            r == *self,
    {
        VirtualObjectDescriptor {
            id: self.id,
            kind: self.kind,
            trust_tier: self.trust_tier,
            governance: self.governance,
            name: self.name.clone(),
            origin_uri: self.origin_uri.clone(),
            created_at: self.created_at,
            updated_at: self.updated_at,
            evidence: self.evidence.clone(),
            stability: self.stability,
            drift: self.drift.clone(),
            content_hash_hex: self.content_hash_hex.clone(),
            anchor_manifest_id: self.anchor_manifest_id,
        }
    }
}

/// Shape statistics of a graph-like snapshot. `edge_density` is scaled
/// by [`crate::safety_profile::SCORE_ONE`].
#[derive(Clone, Copy, PartialEq, Eq, Structural, Debug)]
pub struct GraphTopologyStats {
    pub node_count: u32,
    pub edge_count: u32,
    pub max_depth: u32,
    pub max_fan_in: u32,
    pub max_fan_out: u32,
    pub edge_density: u32,
}

/// Graph-level safety envelope; `max_drift_for_auto_use` is the
/// configurable drift threshold for the auto-use flag, scaled by
/// [`crate::safety_profile::SCORE_ONE`].
#[derive(Clone, Copy, PartialEq, Eq, Structural, Debug)]
pub struct GraphSafetyProfile {
    pub max_nodes: u32,
    pub max_depth: u32,
    pub max_edge_density: u32,
    pub max_fan_in: u32,
    pub max_fan_out: u32,
    pub max_drift_for_auto_use: u32,
}

/// One immutable snapshot of an object at a version.
#[derive(PartialEq, Debug)]
pub struct AtlasSnapshotRecord {
    pub id: u128,
    pub virtual_object_id: VirtualObjectId,
    /// Strictly increasing per object; the first version is 1.
    pub version: u64,
    pub captured_at: u64,
    /// Opaque structured payload (diagram AST, markup tree, schema).
    pub snapshot_json: serde_json::Value,
    pub topology: Option<GraphTopologyStats>,
    pub stability: StabilityMetrics,
    pub drift: DriftMetrics,
    /// Whether this snapshot may be consumed unattended.
    pub auto_use_allowed: bool,
}

impl Clone for AtlasSnapshotRecord {
    fn clone(&self) -> (r: Self)
        ensures
            r == *self,
    {
        AtlasSnapshotRecord {
            id: self.id,
            virtual_object_id: self.virtual_object_id,
            version: self.version,
            captured_at: self.captured_at,
            snapshot_json: self.snapshot_json.clone(),
            topology: self.topology,
            stability: self.stability,
            drift: self.drift.clone(),
            auto_use_allowed: self.auto_use_allowed,
        }
    }
}

/// Append-only audit-history entry for one extraction pass.
#[derive(PartialEq, Eq, Debug)]
pub struct ExcavationMetricsRecord {
    pub id: u128,
    pub virtual_object_id: VirtualObjectId,
    pub captured_at: u64,
    pub stability: StabilityMetrics,
    pub drift: DriftMetrics,
    pub notes: Option<String>,
}

impl Clone for ExcavationMetricsRecord {
    fn clone(&self) -> (r: Self)
        ensures
            r == *self,
    {
        ExcavationMetricsRecord {
            id: self.id,
            virtual_object_id: self.virtual_object_id,
            captured_at: self.captured_at,
            stability: self.stability,
            drift: self.drift.clone(),
            notes: match &self.notes {
                Some(s) => Some(s.clone()),
                None => None,
            },
        }
    }
}

/// Structured failures of the ledger. A version conflict reports the
/// supplied version and the latest version recorded for the object.
#[derive(Clone, Copy, PartialEq, Eq, Structural, Debug)]
pub enum AtlasError {
    VersionConflict { supplied: u64, latest: u64 },
}

/// Canonical interface of a snapshot ledger keyed by object identity.
///
/// The abstract state is, per object: its registered descriptor, its
/// snapshot sequence, and its metrics history.
pub trait AutomationVirtualObjectKernel: Sized {
    spec fn wf(&self) -> bool;

    /// The configured drift ceiling for the auto-use flag.
    spec fn auto_use_drift_limit(&self) -> u32;

    spec fn snapshots_of(&self, obj: VirtualObjectId) -> Seq<AtlasSnapshotRecord>;

    spec fn metrics_of(&self, obj: VirtualObjectId) -> Seq<ExcavationMetricsRecord>;

    spec fn descriptor_of(&self, obj: VirtualObjectId) -> Option<VirtualObjectDescriptor>;

    /// In a well-formed ledger, the versions of each object's snapshots
    /// form the contiguous chain 1, 2, 3, ... with no gaps or
    /// duplicates.
    proof fn versions_are_contiguous(&self, obj: VirtualObjectId)
        requires
            self.wf(),
        ensures
            forall|i: int|
                0 <= i < self.snapshots_of(obj).len() ==> (#[trigger] self.snapshots_of(
                    obj,
                )[i]).version == i + 1 && self.snapshots_of(obj)[i].virtual_object_id == obj,
    ;

    /// Register or update a virtual object descriptor.
    fn upsert_virtual_object(&mut self, descriptor: VirtualObjectDescriptor) -> (r: Result<
        (),
        AtlasError,
    >)
        requires
            old(self).wf(),
        ensures
            final(self).wf(),
            r is Ok,
            final(self).descriptor_of(descriptor.id) == Some(descriptor),
            forall|o: VirtualObjectId|
                o != descriptor.id ==> final(self).descriptor_of(o) == old(self).descriptor_of(o),
            forall|o: VirtualObjectId| final(self).snapshots_of(o) == old(self).snapshots_of(o),
            forall|o: VirtualObjectId| final(self).metrics_of(o) == old(self).metrics_of(o),
            final(self).auto_use_drift_limit() == old(self).auto_use_drift_limit(),
    ;

    /// Insert a new snapshot, enforcing the version chain and deriving
    /// the auto-use flag from the drift score.
    fn insert_snapshot(
        &mut self,
        obj_id: &VirtualObjectId,
        version: u64,
        snapshot_json: serde_json::Value,
        topo: Option<GraphTopologyStats>,
        stability: StabilityMetrics,
        drift: DriftMetrics,
    ) -> (r: Result<AtlasSnapshotRecord, AtlasError>)
        requires
            old(self).wf(),
        ensures
            final(self).wf(),
            r is Ok <==> version == old(self).snapshots_of(*obj_id).len() + 1,
            r matches Ok(rec) ==> rec.version == version && rec.virtual_object_id == *obj_id
                && rec.snapshot_json == snapshot_json && rec.topology == topo && rec.stability
                == stability && rec.drift == drift && rec.auto_use_allowed == (drift.drift_score
                <= old(self).auto_use_drift_limit()) && final(self).snapshots_of(*obj_id) == old(
                self,
            ).snapshots_of(*obj_id).push(rec),
            r matches Err(e) ==> e == (AtlasError::VersionConflict {
                supplied: version,
                latest: old(self).snapshots_of(*obj_id).len() as u64,
            }) && final(self).snapshots_of(*obj_id) == old(self).snapshots_of(*obj_id),
            forall|o: VirtualObjectId|
                o != *obj_id ==> final(self).snapshots_of(o) == old(self).snapshots_of(o),
            forall|o: VirtualObjectId| final(self).metrics_of(o) == old(self).metrics_of(o),
            forall|o: VirtualObjectId| final(self).descriptor_of(o) == old(self).descriptor_of(o),
            final(self).auto_use_drift_limit() == old(self).auto_use_drift_limit(),
    ;

    /// Fetch the latest (highest-version) snapshot for an object.
    fn latest_snapshot(&self, obj_id: &VirtualObjectId) -> (r: Result<
        Option<AtlasSnapshotRecord>,
        AtlasError,
    >)
        requires
            self.wf(),
        ensures
            r is Ok,
            r matches Ok(Some(rec)) ==> self.snapshots_of(*obj_id).len() > 0 && rec
                == self.snapshots_of(*obj_id).last(),
            r matches Ok(opt) && opt is None ==> self.snapshots_of(*obj_id).len() == 0,
    ;

    /// Record an excavation metrics sample in the append-only history.
    fn record_excavation_metrics(
        &mut self,
        obj_id: &VirtualObjectId,
        metrics: ExcavationMetricsRecord,
    ) -> (r: Result<(), AtlasError>)
        requires
            old(self).wf(),
        ensures
            final(self).wf(),
            r is Ok,
            final(self).metrics_of(*obj_id) == old(self).metrics_of(*obj_id).push(metrics),
            forall|o: VirtualObjectId|
                o != *obj_id ==> final(self).metrics_of(o) == old(self).metrics_of(o),
            forall|o: VirtualObjectId| final(self).snapshots_of(o) == old(self).snapshots_of(o),
            forall|o: VirtualObjectId| final(self).descriptor_of(o) == old(self).descriptor_of(o),
            final(self).auto_use_drift_limit() == old(self).auto_use_drift_limit(),
    ;

    /// Whether the object may be consumed unattended given its
    /// governance tag and current drift.
    fn may_auto_use(&self, obj: &VirtualObjectDescriptor) -> (r: bool)
        requires
            self.wf(),
        ensures
            r == (obj.governance == GovernanceRequirement::NoneRequired || obj.drift.drift_score
                <= self.auto_use_drift_limit()),
    ;
}

/// Per-object state held by the in-memory kernel: the registered
/// descriptor, the snapshot chain, and the metrics history.
pub struct ObjectState {
    object_id: VirtualObjectId,
    descriptor: Option<VirtualObjectDescriptor>,
    snapshots: Vec<AtlasSnapshotRecord>,
    metrics: Vec<ExcavationMetricsRecord>,
}

/// Index of the first entry for `id`, or -1 if there is none.
spec fn entry_index(s: Seq<ObjectState>, id: VirtualObjectId) -> int
    decreases s.len(),
{
    if s.len() == 0 {
        -1
    } else if s[0].object_id == id {
        0
    } else {
        let r = entry_index(s.drop_first(), id);
        if r < 0 {
            -1
        } else {
            r + 1
        }
    }
}

proof fn lemma_entry_index_first(s: Seq<ObjectState>, id: VirtualObjectId, i: int)
    requires
        0 <= i < s.len(),
        s[i].object_id == id,
        forall|k: int| 0 <= k < i ==> (#[trigger] s[k]).object_id != id,
    ensures
        entry_index(s, id) == i,
    decreases s.len(),
{
    if i > 0 {
        lemma_entry_index_first(s.drop_first(), id, i - 1);
    }
}

proof fn lemma_entry_index_missing(s: Seq<ObjectState>, id: VirtualObjectId)
    requires
        forall|k: int| 0 <= k < s.len() ==> (#[trigger] s[k]).object_id != id,
    ensures
        entry_index(s, id) == -1,
    decreases s.len(),
{
    if s.len() > 0 {
        lemma_entry_index_missing(s.drop_first(), id);
    }
}

proof fn lemma_entry_index_found(s: Seq<ObjectState>, id: VirtualObjectId)
    requires
        entry_index(s, id) != -1,
    ensures
        0 <= entry_index(s, id) < s.len(),
        s[entry_index(s, id)].object_id == id,
    decreases s.len(),
{
    if s.len() > 0 && s[0].object_id != id {
        lemma_entry_index_found(s.drop_first(), id);
    }
}

/// Every successful lookup lands in bounds, on an entry carrying the
/// looked-up identity.
proof fn lemma_all_lookups_hit(s: Seq<ObjectState>)
    ensures
        forall|o: VirtualObjectId|
            (#[trigger] entry_index(s, o)) != -1 ==> 0 <= entry_index(s, o) < s.len() && s[
                entry_index(s, o)
            ].object_id == o,
{
    assert forall|o: VirtualObjectId| (#[trigger] entry_index(s, o)) != -1 implies 0 <= entry_index(
        s,
        o,
    ) < s.len() && s[entry_index(s, o)].object_id == o by {
        lemma_entry_index_found(s, o);
    }
}

/// Replacing an entry with one carrying the same identity moves no
/// lookup, for any identity.
proof fn lemma_entry_index_update(s: Seq<ObjectState>, i: int, st: ObjectState)
    requires
        0 <= i < s.len(),
        st.object_id == s[i].object_id,
    ensures
        forall|o: VirtualObjectId| entry_index(s.update(i, st), o) == entry_index(s, o),
    decreases s.len(),
{
    let t = s.update(i, st);
    assert forall|o: VirtualObjectId| entry_index(t, o) == entry_index(s, o) by {
        if i == 0 {
            assert(t[0] == st);
            assert(t.drop_first() =~= s.drop_first());
            assert(entry_index(t.drop_first(), o) == entry_index(s.drop_first(), o));
        } else {
            assert(s.drop_first()[i - 1] == s[i]);
            lemma_entry_index_update(s.drop_first(), i - 1, st);
            assert(t[0] == s[0]);
            assert(t.drop_first() =~= s.drop_first().update(i - 1, st));
            assert(entry_index(t.drop_first(), o) == entry_index(s.drop_first(), o));
        }
    }
}

proof fn lemma_entry_index_push(s: Seq<ObjectState>, st: ObjectState)
    ensures
        forall|o: VirtualObjectId|
            o != st.object_id ==> entry_index(s.push(st), o) == entry_index(s, o),
        entry_index(s, st.object_id) != -1 ==> entry_index(s.push(st), st.object_id)
            == entry_index(s, st.object_id),
        entry_index(s, st.object_id) == -1 ==> entry_index(s.push(st), st.object_id) == s.len(),
    decreases s.len(),
{
    let t = s.push(st);
    assert forall|o: VirtualObjectId|
        #![trigger entry_index(t, o)]
        (o != st.object_id ==> entry_index(t, o) == entry_index(s, o)) && (entry_index(
            s,
            st.object_id,
        ) != -1 ==> entry_index(t, st.object_id) == entry_index(s, st.object_id)) && (entry_index(
            s,
            st.object_id,
        ) == -1 ==> entry_index(t, st.object_id) == s.len()) by {
        if s.len() == 0 {
            assert(t[0] == st);
            assert(t.drop_first() =~= Seq::<ObjectState>::empty());
            assert(entry_index(t.drop_first(), o) == -1);
            assert(entry_index(t.drop_first(), st.object_id) == -1);
        } else {
            lemma_entry_index_push(s.drop_first(), st);
            assert(t[0] == s[0]);
            assert(t.drop_first() =~= s.drop_first().push(st));
            assert(entry_index(t.drop_first(), o) == entry_index(
                s.drop_first().push(st),
                o,
            ));
            assert(entry_index(t.drop_first(), st.object_id) == entry_index(
                s.drop_first().push(st),
                st.object_id,
            ));
            assert(o != st.object_id ==> entry_index(s.drop_first().push(st), o) == entry_index(
                s.drop_first(),
                o,
            ));
        }
    }
}

/// The snapshot chain of one entry is well-formed: the record at index
/// k carries version k + 1 and the owning identity.
spec fn entry_wf(st: ObjectState) -> bool {
    forall|k: int|
        0 <= k < st.snapshots@.len() ==> (#[trigger] st.snapshots@[k]).version == k + 1
            && st.snapshots@[k].virtual_object_id == st.object_id
}

/// The canonical kernel: an arena of per-object append-only histories,
/// standing in for the backing transactional store. The configured
/// `db_path` only names where a persistent deployment would keep the
/// catalog; this kernel enforces the version chain itself.
pub struct SqliteVirtualObjectKernel {
    pub db_path: String,
    pub graph_safety_profile: GraphSafetyProfile,
    pub entries: Vec<ObjectState>,
}

impl SqliteVirtualObjectKernel {
    pub fn new(db_path: &str, profile: GraphSafetyProfile) -> (r: Self)
        ensures
            r.wf(),
            r.db_path@ == db_path@,
            r.graph_safety_profile == profile,
            r.auto_use_drift_limit() == profile.max_drift_for_auto_use,
            forall|o: VirtualObjectId| r.snapshots_of(o) == Seq::<AtlasSnapshotRecord>::empty(),
            forall|o: VirtualObjectId| r.metrics_of(o) == Seq::<ExcavationMetricsRecord>::empty(),
            forall|o: VirtualObjectId| r.descriptor_of(o) is None,
    {
        let r = SqliteVirtualObjectKernel {
            db_path: db_path.to_owned(),
            graph_safety_profile: profile,
            entries: Vec::new(),
        };
        proof {
            assert forall|o: VirtualObjectId| entry_index(r.entries@, o) == -1 by {
                lemma_entry_index_missing(r.entries@, o);
            }
        }
        r
    }

    /// Index of the entry for `id`, if the arena holds one.
    fn find_entry(&self, id: VirtualObjectId) -> (r: Option<usize>)
        ensures
            match r {
                Some(i) => entry_index(self.entries@, id) == i && i < self.entries@.len()
                    && self.entries@[i as int].object_id == id,
                None => entry_index(self.entries@, id) == -1,
            },
    {
        let n = self.entries.len();
        let mut i: usize = 0;
        while i < n
            invariant
                i <= n,
                n == self.entries@.len(),
                forall|k: int| 0 <= k < i ==> (#[trigger] self.entries@[k]).object_id != id,
            decreases n - i,
        {
            if self.entries[i].object_id == id {
                proof {
                    lemma_entry_index_first(self.entries@, id, i as int);
                }
                return Some(i);
            }
            i += 1;
        }
        proof {
            lemma_entry_index_missing(self.entries@, id);
        }
        None
    }
}

impl AutomationVirtualObjectKernel for SqliteVirtualObjectKernel {
    closed spec fn wf(&self) -> bool {
        forall|i: int| 0 <= i < self.entries@.len() ==> entry_wf(#[trigger] self.entries@[i])
    }

    closed spec fn auto_use_drift_limit(&self) -> u32 {
        self.graph_safety_profile.max_drift_for_auto_use
    }

    closed spec fn snapshots_of(&self, obj: VirtualObjectId) -> Seq<AtlasSnapshotRecord> {
        let i = entry_index(self.entries@, obj);
        if i < 0 {
            Seq::empty()
        } else {
            self.entries@[i].snapshots@
        }
    }

    closed spec fn metrics_of(&self, obj: VirtualObjectId) -> Seq<ExcavationMetricsRecord> {
        let i = entry_index(self.entries@, obj);
        if i < 0 {
            Seq::empty()
        } else {
            self.entries@[i].metrics@
        }
    }

    closed spec fn descriptor_of(&self, obj: VirtualObjectId) -> Option<VirtualObjectDescriptor> {
        let i = entry_index(self.entries@, obj);
        if i < 0 {
            None
        } else {
            self.entries@[i].descriptor
        }
    }

    proof fn versions_are_contiguous(&self, obj: VirtualObjectId) {
        if entry_index(self.entries@, obj) != -1 {
            lemma_entry_index_found(self.entries@, obj);
        }
    }

    fn upsert_virtual_object(&mut self, descriptor: VirtualObjectDescriptor) -> (r: Result<
        (),
        AtlasError,
    >) {
        let id = descriptor.id;
        match self.find_entry(id) {
            Some(i) => {
                self.entries[i].descriptor = Some(descriptor);
                proof {
                    lemma_entry_index_update(old(self).entries@, i as int, self.entries@[i as int]);
                    lemma_all_lookups_hit(old(self).entries@);
                }
                Ok(())
            },
            None => {
                let st = ObjectState {
                    object_id: id,
                    descriptor: Some(descriptor),
                    snapshots: Vec::new(),
                    metrics: Vec::new(),
                };
                proof {
                    lemma_entry_index_push(self.entries@, st);
                    lemma_all_lookups_hit(self.entries@);
                }
                self.entries.push(st);
                Ok(())
            },
        }
    }

    fn insert_snapshot(
        &mut self,
        obj_id: &VirtualObjectId,
        version: u64,
        snapshot_json: serde_json::Value,
        topo: Option<GraphTopologyStats>,
        stability: StabilityMetrics,
        drift: DriftMetrics,
    ) -> (r: Result<AtlasSnapshotRecord, AtlasError>) {
        let id = *obj_id;
        match self.find_entry(id) {
            Some(i) => {
                let latest = self.entries[i].snapshots.len() as u64;
                if !(version >= 1 && version - 1 == latest) {
                    return Err(AtlasError::VersionConflict { supplied: version, latest });
                }
                let auto_use_allowed = drift.drift_score
                    <= self.graph_safety_profile.max_drift_for_auto_use;
                let rec = AtlasSnapshotRecord {
                    id: fresh_id(),
                    virtual_object_id: id,
                    version,
                    captured_at: now_millis(),
                    snapshot_json,
                    topology: topo,
                    stability,
                    drift,
                    auto_use_allowed,
                };
                let stored = rec.clone();
                self.entries[i].snapshots.push(stored);
                proof {
                    lemma_entry_index_update(old(self).entries@, i as int, self.entries@[i as int]);
                    lemma_all_lookups_hit(old(self).entries@);
                    assert(entry_wf(old(self).entries@[i as int]));
                    assert(entry_wf(self.entries@[i as int]));
                }
                Ok(rec)
            },
            None => {
                if version != 1 {
                    return Err(AtlasError::VersionConflict { supplied: version, latest: 0 });
                }
                let auto_use_allowed = drift.drift_score
                    <= self.graph_safety_profile.max_drift_for_auto_use;
                let rec = AtlasSnapshotRecord {
                    id: fresh_id(),
                    virtual_object_id: id,
                    version,
                    captured_at: now_millis(),
                    snapshot_json,
                    topology: topo,
                    stability,
                    drift,
                    auto_use_allowed,
                };
                let mut snapshots: Vec<AtlasSnapshotRecord> = Vec::new();
                snapshots.push(rec.clone());
                let st = ObjectState {
                    object_id: id,
                    descriptor: None,
                    snapshots,
                    metrics: Vec::new(),
                };
                proof {
                    lemma_entry_index_push(self.entries@, st);
                    lemma_all_lookups_hit(self.entries@);
                }
                self.entries.push(st);
                Ok(rec)
            },
        }
    }

    fn latest_snapshot(&self, obj_id: &VirtualObjectId) -> (r: Result<
        Option<AtlasSnapshotRecord>,
        AtlasError,
    >) {
        match self.find_entry(*obj_id) {
            Some(i) => {
                let n = self.entries[i].snapshots.len();
                if n == 0 {
                    Ok(None)
                } else {
                    Ok(Some(self.entries[i].snapshots[n - 1].clone()))
                }
            },
            None => Ok(None),
        }
    }

    fn record_excavation_metrics(
        &mut self,
        obj_id: &VirtualObjectId,
        metrics: ExcavationMetricsRecord,
    ) -> (r: Result<(), AtlasError>) {
        let id = *obj_id;
        match self.find_entry(id) {
            Some(i) => {
                self.entries[i].metrics.push(metrics);
                proof {
                    lemma_entry_index_update(old(self).entries@, i as int, self.entries@[i as int]);
                    lemma_all_lookups_hit(old(self).entries@);
                }
                Ok(())
            },
            None => {
                let mut ms: Vec<ExcavationMetricsRecord> = Vec::new();
                ms.push(metrics);
                let st = ObjectState {
                    object_id: id,
                    descriptor: None,
                    snapshots: Vec::new(),
                    metrics: ms,
                };
                proof {
                    lemma_entry_index_push(self.entries@, st);
                    lemma_all_lookups_hit(self.entries@);
                }
                self.entries.push(st);
                Ok(())
            },
        }
    }

    fn may_auto_use(&self, obj: &VirtualObjectDescriptor) -> (r: bool) {
        match obj.governance {
            GovernanceRequirement::NoneRequired => true,
            GovernanceRequirement::RequiresGovernance | GovernanceRequirement::RequiresMultisig => {
                obj.drift.drift_score <= self.graph_safety_profile.max_drift_for_auto_use
            },
        }
    }
}

/// Everything one extraction pass produced: the refreshed descriptor,
/// the newly recorded snapshot, and the metrics sample.
#[derive(Debug)]
pub struct ExcavationResult {
    pub object: VirtualObjectDescriptor,
    pub snapshot: AtlasSnapshotRecord,
    pub metrics_record: ExcavationMetricsRecord,
}

/// One full excavation pass against a kernel: refresh the descriptor,
/// record the next snapshot (version `revision_count + 1`), and append
/// a metrics sample. Succeeds exactly when the implied version extends
/// the object's chain by one.
pub fn apply_excavation_update<K: AutomationVirtualObjectKernel>(
    kernel: &mut K,
    descriptor: VirtualObjectDescriptor,
    snapshot_json: serde_json::Value,
    topo: Option<GraphTopologyStats>,
    stability: StabilityMetrics,
    drift: DriftMetrics,
) -> (r: Result<ExcavationResult, AtlasError>)
    requires
        old(kernel).wf(),
        descriptor.stability.revision_count < u64::MAX,
    ensures
        final(kernel).wf(),
        final(kernel).descriptor_of(descriptor.id) == Some(descriptor),
        final(kernel).auto_use_drift_limit() == old(kernel).auto_use_drift_limit(),
        r is Ok <==> descriptor.stability.revision_count == old(kernel).snapshots_of(
            descriptor.id,
        ).len(),
        r matches Ok(res) ==> res.object == descriptor && res.snapshot.version
            == descriptor.stability.revision_count + 1 && res.snapshot.virtual_object_id
            == descriptor.id && res.snapshot.snapshot_json == snapshot_json && res.snapshot.topology
            == topo && res.snapshot.stability == stability && res.snapshot.drift == drift
            && res.snapshot.auto_use_allowed == (drift.drift_score <= old(
            kernel,
        ).auto_use_drift_limit()) && final(kernel).snapshots_of(descriptor.id) == old(
            kernel,
        ).snapshots_of(descriptor.id).push(res.snapshot) && final(kernel).metrics_of(descriptor.id)
            == old(kernel).metrics_of(descriptor.id).push(res.metrics_record)
            && res.metrics_record.virtual_object_id == descriptor.id && res.metrics_record.stability
            == stability && res.metrics_record.drift == drift && res.metrics_record.captured_at
            == res.snapshot.captured_at && res.metrics_record.notes is None,
        r is Err ==> final(kernel).snapshots_of(descriptor.id) == old(kernel).snapshots_of(
            descriptor.id,
        ) && final(kernel).metrics_of(descriptor.id) == old(kernel).metrics_of(descriptor.id),
        r matches Err(e) ==> e == (AtlasError::VersionConflict {
            supplied: (descriptor.stability.revision_count + 1) as u64,
            latest: old(kernel).snapshots_of(descriptor.id).len() as u64,
        }),
{
    let obj_id = descriptor.id;
    let object = descriptor.clone();
    match kernel.upsert_virtual_object(descriptor) {
        Ok(()) => (),
        Err(e) => {
            return Err(e);
        },
    }
    let version = object.stability.revision_count + 1;
    let snap = match kernel.insert_snapshot(
        &obj_id,
        version,
        snapshot_json,
        topo,
        stability,
        drift.clone(),
    ) {
        Ok(snap) => snap,
        Err(e) => {
            return Err(e);
        },
    };
    let metrics = ExcavationMetricsRecord {
        id: fresh_id(),
        virtual_object_id: obj_id,
        captured_at: snap.captured_at,
        stability,
        drift,
        notes: None,
    };
    match kernel.record_excavation_metrics(&obj_id, metrics.clone()) {
        Ok(()) => (),
        Err(e) => {
            return Err(e);
        },
    }
    Ok(ExcavationResult { object, snapshot: snap, metrics_record: metrics })
}

/// Environment descriptor: whether this execution environment reports
/// itself safety-qualified for unattended consumption.
#[derive(Clone, Copy, PartialEq, Eq, Structural, Debug)]
pub struct CargoEnvDescriptor {
    pub bci_safety_qualified: bool,
}

impl CargoEnvDescriptor {
    pub fn is_bci_safety_qualified(&self) -> (r: bool)
        ensures
            r == self.bci_safety_qualified,
    {
        self.bci_safety_qualified
    }
}

/// Remaining host resources on the two tracked dimensions, in
/// milli-units; queried and decremented by the caller, read-only here.
#[derive(Clone, Copy, PartialEq, Eq, Structural, Debug)]
pub struct HostBudget {
    pub remaining_energy_joules: i64,
    pub remaining_protein_grams: i64,
}

/// Hard, non-configurable drift ceiling (0.30, scaled) applied to
/// governed objects by the final gate: a backstop that blocks unsafe
/// auto-use even under a misconfigured deployment profile.
pub const GOVERNED_DRIFT_CEILING: u32 = 3000;

/// What the combined gate decides: environment qualified, both host
/// resources strictly positive, and the governance-aware drift rule.
pub open spec fn auto_use_gate_spec(
    env: CargoEnvDescriptor,
    host: HostBudget,
    obj: VirtualObjectDescriptor,
) -> bool {
    &&& env.bci_safety_qualified
    &&& host.remaining_energy_joules > 0
    &&& host.remaining_protein_grams > 0
    &&& (obj.governance == GovernanceRequirement::NoneRequired || obj.drift.drift_score
        <= GOVERNED_DRIFT_CEILING)
}

/// Combined gate: environment qualification, host budget, and the
/// governance-aware drift backstop, checked in that order.
pub fn atlas_auto_use_gate(
    env: &CargoEnvDescriptor,
    host: &HostBudget,
    obj: &VirtualObjectDescriptor,
) -> (r: bool)
    ensures
        r == auto_use_gate_spec(*env, *host, *obj),
{
    if !env.is_bci_safety_qualified() {
        return false;
    }
    if host.remaining_energy_joules <= 0 {
        return false;
    }
    if host.remaining_protein_grams <= 0 {
        return false;
    }
    match obj.governance {
        GovernanceRequirement::NoneRequired => true,
        GovernanceRequirement::RequiresGovernance | GovernanceRequirement::RequiresMultisig => {
            obj.drift.drift_score <= GOVERNED_DRIFT_CEILING
        },
    }
}

/// Each early check of the combined gate decides on its own: a negative
/// qualification bit or an empty host dimension refuses by itself, and
/// an object without a governance tag never reaches the drift rule.
pub proof fn lemma_gate_ordering(env: CargoEnvDescriptor, host: HostBudget, obj: VirtualObjectDescriptor)
    ensures
        !env.bci_safety_qualified ==> !auto_use_gate_spec(env, host, obj),
        host.remaining_energy_joules <= 0 ==> !auto_use_gate_spec(env, host, obj),
        host.remaining_protein_grams <= 0 ==> !auto_use_gate_spec(env, host, obj),
        (env.bci_safety_qualified && host.remaining_energy_joules > 0
            && host.remaining_protein_grams > 0 && obj.governance
            == GovernanceRequirement::NoneRequired) ==> auto_use_gate_spec(env, host, obj),
{
}

} // verus!
