use virtual_object_atlas::atlas::atlas_auto_use_gate;
use virtual_object_atlas::atlas::apply_excavation_update;
use virtual_object_atlas::atlas::AtlasError;
use virtual_object_atlas::atlas::AutomationVirtualObjectKernel;
use virtual_object_atlas::atlas::CargoEnvDescriptor;
use virtual_object_atlas::atlas::DriftMetrics;
use virtual_object_atlas::atlas::EvidenceBundle;
use virtual_object_atlas::atlas::ExcavationMetricsRecord;
use virtual_object_atlas::atlas::GovernanceRequirement;
use virtual_object_atlas::atlas::GraphSafetyProfile;
use virtual_object_atlas::atlas::HostBudget;
use virtual_object_atlas::atlas::SqliteVirtualObjectKernel;
use virtual_object_atlas::atlas::StabilityMetrics;
use virtual_object_atlas::atlas::TrustTier;
use virtual_object_atlas::atlas::VirtualObjectDescriptor;
use virtual_object_atlas::atlas::VirtualObjectId;
use virtual_object_atlas::atlas::VirtualObjectKind;

fn profile() -> GraphSafetyProfile {
    GraphSafetyProfile {
        max_nodes: 5000,
        max_depth: 12,
        max_edge_density: 4000,
        max_fan_in: 32,
        max_fan_out: 32,
        max_drift_for_auto_use: 2000,
    }
}

fn drift(score: u32) -> DriftMetrics {
    DriftMetrics { drift_score: score, structural_delta: score, semantic_delta: score, note: None }
}

fn stability(revisions: u64) -> StabilityMetrics {
    StabilityMetrics { stability: 9000, novelty: 1000, revision_count: revisions }
}

fn descriptor(id: u128, governance: GovernanceRequirement, drift_score: u32, revisions: u64) -> VirtualObjectDescriptor {
    VirtualObjectDescriptor {
        id: VirtualObjectId(id),
        kind: VirtualObjectKind::MermaidDiagram,
        trust_tier: TrustTier::StableInternal,
        governance,
        name: "checkout-flow".to_string(),
        origin_uri: "git://repo/diagrams/checkout.mmd".to_string(),
        created_at: 1000,
        updated_at: 2000,
        evidence: EvidenceBundle("evidence-bundle-7".to_string()),
        stability: stability(revisions),
        drift: drift(drift_score),
        content_hash_hex: "00000000".to_string(),
        anchor_manifest_id: None,
    }
}

#[test]
fn first_version_is_one_and_duplicates_are_rejected() {
    let mut kernel = SqliteVirtualObjectKernel::new("atlas.db", profile());
    let id = VirtualObjectId(7);
    let rec = kernel
        .insert_snapshot(&id, 1, serde_json::Value::Null, None, stability(0), drift(100))
        .unwrap();
    assert_eq!(rec.version, 1);
    // Inserting version 1 twice for the same object must fail.
    let dup = kernel.insert_snapshot(&id, 1, serde_json::Value::Null, None, stability(0), drift(100));
    assert_eq!(dup.unwrap_err(), AtlasError::VersionConflict { supplied: 1, latest: 1 });
}

#[test]
fn versions_must_extend_the_chain_by_exactly_one() {
    let mut kernel = SqliteVirtualObjectKernel::new("atlas.db", profile());
    let id = VirtualObjectId(9);
    assert_eq!(
        kernel
            .insert_snapshot(&id, 2, serde_json::Value::Null, None, stability(0), drift(0))
            .unwrap_err(),
        AtlasError::VersionConflict { supplied: 2, latest: 0 }
    );
    kernel.insert_snapshot(&id, 1, serde_json::Value::Null, None, stability(0), drift(0)).unwrap();
    assert_eq!(
        kernel
            .insert_snapshot(&id, 3, serde_json::Value::Null, None, stability(1), drift(0))
            .unwrap_err(),
        AtlasError::VersionConflict { supplied: 3, latest: 1 }
    );
    let second = kernel
        .insert_snapshot(&id, 2, serde_json::Value::Null, None, stability(1), drift(0))
        .unwrap();
    assert_eq!(second.version, 2);
}

#[test]
fn latest_snapshot_returns_the_newest_record() {
    let mut kernel = SqliteVirtualObjectKernel::new("atlas.db", profile());
    let id = VirtualObjectId(11);
    assert!(kernel.latest_snapshot(&id).unwrap().is_none());
    let payload = serde_json::Value::String("graph TD; A-->B".to_string());
    kernel.insert_snapshot(&id, 1, payload.clone(), None, stability(0), drift(100)).unwrap();
    kernel
        .insert_snapshot(
            &id,
            2,
            serde_json::Value::String("graph TD; A-->C".to_string()),
            None,
            stability(1),
            drift(300),
        )
        .unwrap();
    let latest = kernel.latest_snapshot(&id).unwrap().unwrap();
    assert_eq!(latest.version, 2);
    assert_eq!(latest.virtual_object_id, id);
    assert_eq!(latest.snapshot_json, serde_json::Value::String("graph TD; A-->C".to_string()));
    // The first object's payload survives the round trip unchanged.
    let other = VirtualObjectId(12);
    kernel.insert_snapshot(&other, 1, payload.clone(), None, stability(0), drift(0)).unwrap();
    assert_eq!(kernel.latest_snapshot(&other).unwrap().unwrap().snapshot_json, payload);
}

#[test]
fn auto_use_flag_follows_the_profile_threshold() {
    let mut kernel = SqliteVirtualObjectKernel::new("atlas.db", profile());
    let id = VirtualObjectId(21);
    let ok = kernel
        .insert_snapshot(&id, 1, serde_json::Value::Null, None, stability(0), drift(2000))
        .unwrap();
    assert!(ok.auto_use_allowed);
    let over = kernel
        .insert_snapshot(&id, 2, serde_json::Value::Null, None, stability(1), drift(2001))
        .unwrap();
    assert!(!over.auto_use_allowed);
}

#[test]
fn may_auto_use_ignores_drift_without_governance() {
    let kernel = SqliteVirtualObjectKernel::new("atlas.db", profile());
    assert!(kernel.may_auto_use(&descriptor(1, GovernanceRequirement::NoneRequired, 9999, 0)));
    assert!(kernel.may_auto_use(&descriptor(2, GovernanceRequirement::RequiresGovernance, 2000, 0)));
    assert!(!kernel.may_auto_use(&descriptor(3, GovernanceRequirement::RequiresGovernance, 2001, 0)));
    assert!(!kernel.may_auto_use(&descriptor(4, GovernanceRequirement::RequiresMultisig, 2001, 0)));
}

#[test]
fn excavation_update_assigns_the_next_version() {
    let mut kernel = SqliteVirtualObjectKernel::new("atlas.db", profile());
    let first = apply_excavation_update(
        &mut kernel,
        descriptor(31, GovernanceRequirement::NoneRequired, 100, 0),
        serde_json::Value::Null,
        None,
        stability(0),
        drift(100),
    )
    .unwrap();
    assert_eq!(first.snapshot.version, 1);
    assert_eq!(first.metrics_record.virtual_object_id, VirtualObjectId(31));
    assert!(first.metrics_record.notes.is_none());
    let second = apply_excavation_update(
        &mut kernel,
        descriptor(31, GovernanceRequirement::NoneRequired, 150, 1),
        serde_json::Value::Null,
        None,
        stability(1),
        drift(150),
    )
    .unwrap();
    assert_eq!(second.snapshot.version, 2);
}

#[test]
fn excavation_update_rejects_a_stale_revision_count() {
    let mut kernel = SqliteVirtualObjectKernel::new("atlas.db", profile());
    apply_excavation_update(
        &mut kernel,
        descriptor(41, GovernanceRequirement::NoneRequired, 100, 0),
        serde_json::Value::Null,
        None,
        stability(0),
        drift(100),
    )
    .unwrap();
    // Re-running with the same revision count implies version 1 again.
    let stale = apply_excavation_update(
        &mut kernel,
        descriptor(41, GovernanceRequirement::NoneRequired, 100, 0),
        serde_json::Value::Null,
        None,
        stability(0),
        drift(100),
    );
    assert_eq!(stale.unwrap_err(), AtlasError::VersionConflict { supplied: 1, latest: 1 });
}

#[test]
fn gate_follows_the_ordered_checks() {
    let qualified = CargoEnvDescriptor { bci_safety_qualified: true };
    let unqualified = CargoEnvDescriptor { bci_safety_qualified: false };
    let healthy = HostBudget { remaining_energy_joules: 500, remaining_protein_grams: 40 };
    let ungoverned = descriptor(51, GovernanceRequirement::NoneRequired, 9000, 0);
    let governed = descriptor(52, GovernanceRequirement::RequiresGovernance, 3500, 0);

    // Governance none: drift is irrelevant once environment and host pass.
    assert!(atlas_auto_use_gate(&qualified, &healthy, &ungoverned));
    // 0.35 exceeds the fixed 0.30 backstop.
    assert!(!atlas_auto_use_gate(&qualified, &healthy, &governed));
    // At the backstop itself the governed object passes.
    let at_ceiling = descriptor(53, GovernanceRequirement::RequiresGovernance, 3000, 0);
    assert!(atlas_auto_use_gate(&qualified, &healthy, &at_ceiling));
    // An unqualified environment fails regardless of everything else.
    assert!(!atlas_auto_use_gate(&unqualified, &healthy, &ungoverned));
    // Both host dimensions must be strictly positive.
    let no_energy = HostBudget { remaining_energy_joules: 0, remaining_protein_grams: 40 };
    let no_protein = HostBudget { remaining_energy_joules: 500, remaining_protein_grams: 0 };
    assert!(!atlas_auto_use_gate(&qualified, &no_energy, &ungoverned));
    assert!(!atlas_auto_use_gate(&qualified, &no_protein, &ungoverned));
}

#[test]
fn metrics_can_be_recorded_before_any_snapshot() {
    let mut kernel = SqliteVirtualObjectKernel::new("atlas.db", profile());
    let id = VirtualObjectId(71);
    let sample = ExcavationMetricsRecord {
        id: 1,
        virtual_object_id: id,
        captured_at: 5000,
        stability: stability(0),
        drift: drift(100),
        notes: Some("first pass".to_string()),
    };
    assert!(kernel.record_excavation_metrics(&id, sample).is_ok());
    // Recording metrics creates no snapshot.
    assert!(kernel.latest_snapshot(&id).unwrap().is_none());
}

#[test]
fn descriptors_can_be_upserted_and_replaced() {
    let mut kernel = SqliteVirtualObjectKernel::new("atlas.db", profile());
    assert!(kernel.upsert_virtual_object(descriptor(61, GovernanceRequirement::NoneRequired, 100, 0)).is_ok());
    assert!(kernel
        .upsert_virtual_object(descriptor(61, GovernanceRequirement::RequiresGovernance, 200, 1))
        .is_ok());
    assert_eq!(kernel.db_path, "atlas.db");
}
