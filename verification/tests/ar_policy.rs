use virtual_object_atlas::ar_context::ARVirtualType;
use virtual_object_atlas::ar_context::CitizenSafetyMode;
use virtual_object_atlas::ar_context::CitizenXRProfile;
use virtual_object_atlas::ar_context::Geometry;
use virtual_object_atlas::ar_context::GlobalStateManifold;
use virtual_object_atlas::ar_context::IdentityShard;
use virtual_object_atlas::ar_context::RuntimeIntrospectionSeal;
use virtual_object_atlas::ar_context::RuntimePolicy;
use virtual_object_atlas::ar_context::RuntimePolicyRegistry;
use virtual_object_atlas::ar_context::SecureArContext;
use virtual_object_atlas::ar_context::TelemetryHookSet;

fn telemetry(sample_ms: u64, samples: u32) -> TelemetryHookSet {
    TelemetryHookSet {
        hook_document: true,
        hook_xhr: true,
        hook_fetch: true,
        hook_beacon: false,
        hook_css: false,
        hook_js: true,
        hook_image: false,
        hook_font: false,
        hook_media: false,
        sample_interval_ms: sample_ms,
        collect_interval_ms: 60000,
        min_profile_duration_ms: 5000,
        min_samples: samples,
    }
}

fn manifold(has_xr: bool) -> GlobalStateManifold {
    GlobalStateManifold {
        has_xr,
        has_pointer_events: true,
        has_device_orientation: false,
        has_scroll_events: true,
        has_gamepad: false,
        has_gpu: true,
        user_agent: "agent".to_string(),
        platform: "linux".to_string(),
        vendor: "none".to_string(),
        max_touch_points: 0,
    }
}

fn identity() -> IdentityShard {
    IdentityShard {
        browser_local_id: Some("local-1".to_string()),
        browser_global_id: None,
        cookie_summary: vec!["psr=1".to_string()],
        bostrom_address: None,
        evm_address: None,
    }
}

fn citizen(mode: CitizenSafetyMode) -> CitizenXRProfile {
    CitizenXRProfile {
        did: "did:example:42".to_string(),
        safety_mode: mode,
        allow_high_frequency_sensors: true,
        allow_cross_device_correlation: false,
        allow_ar_ads: false,
        governance_keys: vec![],
        audit_trail_refs: vec![],
    }
}

fn permissive_policy(domain: &str) -> RuntimePolicy {
    RuntimePolicy {
        domain: domain.to_string(),
        allow_telemetry: true,
        allow_cross_origin_introspection: true,
        allowed_sdks: vec!["datadog".to_string(), "otel".to_string()],
        citizen_mode: CitizenSafetyMode::Research,
    }
}

#[test]
fn telemetry_density_thresholds() {
    assert!(telemetry(10, 50).is_dense());
    assert!(!telemetry(11, 50).is_dense());
    assert!(!telemetry(10, 49).is_dense());
}

#[test]
fn mode_labels_are_stable() {
    assert_eq!(citizen(CitizenSafetyMode::Public).mode_label(), "CITIZEN_MODE_PUBLIC");
    assert_eq!(citizen(CitizenSafetyMode::Private).mode_label(), "CITIZEN_MODE_PRIVATE");
    assert_eq!(citizen(CitizenSafetyMode::Research).mode_label(), "CITIZEN_MODE_RESEARCH");
    assert!(citizen(CitizenSafetyMode::Public).can_use_high_freq());
}

#[test]
fn unregistered_domains_are_denied_by_default() {
    let registry = RuntimePolicyRegistry::default();
    let policy = registry.policy_for("example.org");
    assert_eq!(policy.domain, "example.org");
    assert!(!policy.allow_telemetry);
    assert!(!policy.allow_cross_origin_introspection);
    assert!(policy.allowed_sdks.is_empty());
    assert_eq!(policy.citizen_mode, CitizenSafetyMode::Private);
}

#[test]
fn registered_policies_are_returned_and_replaced() {
    let mut registry = RuntimePolicyRegistry::default();
    registry.set_policy("example.org", permissive_policy("example.org"));
    let policy = registry.policy_for("example.org");
    assert!(policy.allow_telemetry);
    assert_eq!(policy.allowed_sdks, vec!["datadog".to_string(), "otel".to_string()]);
    // Replacing narrows the policy; other domains stay deny-by-default.
    let mut narrowed = permissive_policy("example.org");
    narrowed.allow_telemetry = false;
    registry.set_policy("example.org", narrowed);
    assert!(!registry.policy_for("example.org").allow_telemetry);
    assert!(!registry.policy_for("other.org").allow_telemetry);
}

#[test]
fn cross_origin_denial_is_audited() {
    let mut seal = RuntimeIntrospectionSeal::new(RuntimePolicyRegistry::default().policy_for("x"));
    let r = seal.guard_cross_origin("read-top-window", "https://a.example", "https://b.example");
    assert_eq!(r.unwrap_err(), "Cross-origin introspection blocked by policy");
    assert_eq!(seal.trail.len(), 1);
    assert_eq!(seal.trail[0].kind, "cross-origin-block");
    assert_eq!(
        seal.trail[0].details,
        vec![
            ("operation".to_string(), "read-top-window".to_string()),
            ("source_origin".to_string(), "https://a.example".to_string()),
            ("target_origin".to_string(), "https://b.example".to_string()),
        ]
    );
}

#[test]
fn cross_origin_allowed_without_audit() {
    let mut seal = RuntimeIntrospectionSeal::new(permissive_policy("x"));
    assert!(seal.guard_cross_origin("read-top-window", "a", "b").is_ok());
    assert!(seal.trail.is_empty());
}

#[test]
fn telemetry_guard_audits_both_denial_paths() {
    // Telemetry disabled outright.
    let mut sealed = RuntimeIntrospectionSeal::new(RuntimePolicyRegistry::default().policy_for("x"));
    assert!(!sealed.guard_telemetry("datadog", "profile"));
    assert_eq!(sealed.trail.len(), 1);
    assert_eq!(sealed.trail[0].kind, "telemetry-block");
    assert_eq!(
        sealed.trail[0].details,
        vec![
            ("sdk".to_string(), "datadog".to_string()),
            ("action".to_string(), "profile".to_string()),
        ]
    );
    // Telemetry enabled but the SDK is off the allow-list.
    let mut open = RuntimeIntrospectionSeal::new(permissive_policy("x"));
    assert!(!open.guard_telemetry("ga", "collect"));
    assert_eq!(open.trail.len(), 1);
    assert_eq!(open.trail[0].kind, "telemetry-block");
    // Allow-listed SDK passes with no event.
    assert!(open.guard_telemetry("otel", "collect"));
    assert_eq!(open.trail.len(), 1);
}

fn context(mode: CitizenSafetyMode) -> SecureArContext {
    let registry = RuntimePolicyRegistry::default();
    SecureArContext::new(
        "shop.example",
        telemetry(10, 50),
        manifold(true),
        identity(),
        None,
        &registry,
        citizen(mode),
    )
}

#[test]
fn context_resolves_deny_by_default_policy() {
    let ctx = context(CitizenSafetyMode::Private);
    assert_eq!(ctx.domain, "shop.example");
    assert_eq!(ctx.policy.domain, "shop.example");
    assert!(!ctx.policy.allow_telemetry);
    assert!(ctx.seal.trail.is_empty());
    assert!(ctx.high_freq_allowed());
}

#[test]
fn public_mode_requires_safe_tags() {
    let mut ctx = context(CitizenSafetyMode::Public);
    let denied = ctx.create_ar_object(
        "obj-1".to_string(),
        "bostrom1owner".to_string(),
        ARVirtualType::Overlay,
        Geometry { x: 0, y: 0, z: 0, yaw: 0, pitch: 0, roll: 0, scale: 1000 },
        vec!["ads:targeted".to_string()],
    );
    assert_eq!(
        denied.unwrap_err(),
        "Citizen mode PUBLIC requires noninvasive/local-only policy tags"
    );
    // The refusal is audited: no denial is silent.
    assert_eq!(ctx.seal.trail.len(), 1);
    assert_eq!(ctx.seal.trail[0].kind, "ar-object-blocked");
    assert_eq!(
        ctx.seal.trail[0].details,
        vec![
            ("id".to_string(), "obj-1".to_string()),
            ("owner".to_string(), "bostrom1owner".to_string()),
            ("mode".to_string(), "CITIZEN_MODE_PUBLIC".to_string()),
        ]
    );

    let allowed = ctx
        .create_ar_object(
            "obj-2".to_string(),
            "bostrom1owner".to_string(),
            ARVirtualType::Overlay,
            Geometry { x: 1, y: 2, z: 3, yaw: 0, pitch: 0, roll: 0, scale: 1000 },
            vec!["privacy:local-only".to_string()],
        )
        .unwrap();
    assert_eq!(allowed.id, "obj-2");
    assert!(allowed.ledger_anchor.is_none());
    assert_eq!(ctx.seal.trail.len(), 2);
    assert_eq!(ctx.seal.trail[1].kind, "ar-object-created");
    assert_eq!(
        ctx.seal.trail[1].details,
        vec![
            ("id".to_string(), "obj-2".to_string()),
            ("owner".to_string(), "bostrom1owner".to_string()),
            ("mode".to_string(), "CITIZEN_MODE_PUBLIC".to_string()),
        ]
    );
}

#[test]
fn private_mode_creates_without_tags() {
    let mut ctx = context(CitizenSafetyMode::Private);
    let obj = ctx
        .create_ar_object(
            "obj-3".to_string(),
            "owner".to_string(),
            ARVirtualType::Marker,
            Geometry { x: -5, y: 0, z: 9, yaw: 0, pitch: 0, roll: 0, scale: 1000 },
            vec![],
        )
        .unwrap();
    assert_eq!(obj.owner, "owner");
    assert_eq!(ctx.seal.trail.len(), 1);
}

#[test]
fn anchors_carry_the_local_checksum() {
    let mut ctx = context(CitizenSafetyMode::Research);
    let mut obj = ctx
        .create_ar_object(
            "obj-4".to_string(),
            "owner".to_string(),
            ARVirtualType::Portal,
            Geometry { x: 10, y: -20, z: 30, yaw: 0, pitch: 0, roll: 0, scale: 1000 },
            vec![],
        )
        .unwrap();
    let expected = obj.local_proof();
    ctx.attach_anchor(&mut obj, "bostrom", "tx-123");
    let anchor = obj.ledger_anchor.as_ref().unwrap();
    assert_eq!(anchor.chain_id, "bostrom");
    assert_eq!(anchor.tx_id, "tx-123");
    assert_eq!(anchor.local_proof_hex, expected);
    // The checksum does not cover the anchor itself.
    assert_eq!(obj.local_proof(), expected);
}

#[test]
fn local_proof_is_hex_and_input_sensitive() {
    let mut ctx = context(CitizenSafetyMode::Research);
    let a = ctx
        .create_ar_object(
            "same".to_string(),
            "owner".to_string(),
            ARVirtualType::Marker,
            Geometry { x: 1, y: 2, z: 3, yaw: 0, pitch: 0, roll: 0, scale: 1000 },
            vec![],
        )
        .unwrap();
    let b = ctx
        .create_ar_object(
            "different".to_string(),
            "owner".to_string(),
            ARVirtualType::Marker,
            Geometry { x: 1, y: 2, z: 3, yaw: 0, pitch: 0, roll: 0, scale: 1000 },
            vec![],
        )
        .unwrap();
    let pa = a.local_proof();
    assert_eq!(pa.len(), 8);
    assert!(pa.chars().all(|c| c.is_ascii_hexdigit()));
    assert_ne!(pa, b.local_proof());
    assert_eq!(pa, a.local_proof());
}

#[test]
fn session_proofs_are_deterministic_and_state_sensitive() {
    let with_xr = context(CitizenSafetyMode::Private);
    let also_with_xr = context(CitizenSafetyMode::Private);
    assert_eq!(with_xr.session_proof_hex(), also_with_xr.session_proof_hex());
    assert_eq!(with_xr.session_proof_hex().len(), 8);

    let registry = RuntimePolicyRegistry::default();
    let without_xr = SecureArContext::new(
        "shop.example",
        telemetry(10, 50),
        manifold(false),
        identity(),
        None,
        &registry,
        citizen(CitizenSafetyMode::Private),
    );
    assert_ne!(with_xr.session_proof_hex(), without_xr.session_proof_hex());
}
