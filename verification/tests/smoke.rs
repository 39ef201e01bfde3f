use ed25519_dalek::{Signer, SigningKey};
use v_kernelx::dag::validate_dag;
use v_kernelx::developer::SimulationHarness;
use v_kernelx::engine::KernelEngine;
use v_kernelx::event::{OperationType, VectorEvent, VectorState};
use v_kernelx::hash::{canonical_event_hash, canonical_payload_hash};
use v_kernelx::origin::{find_valid_nonce, verify_origin};
use v_kernelx::reconstruction::SettlementOutcome;
use v_kernelx::region::{
    authorize_region_access, build_region_genesis_event, canonical_region_request_signature_bytes,
    debug_region_create_request_signature, find_region_by_lookup_key, list_regions_from_events,
    region_state_from_event, validate_region_create_request, RegionCreateRequest, RegionVisibility,
    REGION_CREATE_OPERATION_NAME,
};
use v_kernelx::strmap::StringMap;

fn sign_region_request(signing_key: &SigningKey, request: &RegionCreateRequest) -> (String, String) {
    let bytes = canonical_region_request_signature_bytes(request).expect("canonical request serialization");
    let signature = signing_key.sign(&bytes);
    (
        hex::encode(signing_key.verifying_key().to_bytes()),
        hex::encode(signature.to_bytes()),
    )
}

fn s(text: &str) -> String {
    text.to_string()
}

#[test]
fn smoke_flow_runs_end_to_end() {
    let mut harness = SimulationHarness::new();
    let report = harness.basic_flow().expect("simulation should complete");

    assert_eq!(report.vectors.len(), 2);
    assert!(report.records >= 6);

    let v_a = report.vectors.iter().find(|v| v.vector_id == "v-a").expect("v-a exists");
    let v_b = report.vectors.iter().find(|v| v.vector_id == "v-b").expect("v-b exists");

    assert_eq!(v_a.components.len(), 2);
    assert_eq!(v_b.components.len(), 2);
    assert!(v_a.certification.certified);
    assert!(v_b.certification.certified);
}

#[test]
fn origin_nonce_search_finds_valid_nonce() {
    let seed = "seed-for-test";
    let nonce = find_valid_nonce(seed, 1, 1_000_000).expect("nonce should exist");
    assert!(verify_origin(seed, nonce, 1));
}

#[test]
fn replay_is_deterministic_for_same_history() {
    let mut engine = KernelEngine::new();

    let seed_a = "seed-a";
    let nonce_a = find_valid_nonce(seed_a, 1, 1_000_000).expect("nonce for a");
    let seed_b = "seed-b";
    let nonce_b = find_valid_nonce(seed_b, 1, 1_000_000).expect("nonce for b");

    let _a = engine
        .origin_create(s("v-a"), s("pk-a"), s("space-main"), vec![100, 50], s(seed_a), nonce_a, 1)
        .expect("origin a");
    let _b = engine
        .origin_create(s("v-b"), s("pk-b"), s("space-main"), vec![25, 25], s(seed_b), nonce_b, 1)
        .expect("origin b");

    let _ = engine.transfer("v-a", "v-b", vec![10, 5]).expect("transfer should succeed");
    let _ = engine.drain("v-a", 100).expect("drain should succeed");
    let _ = engine.project("v-b", vec![5, 5], s("escrow-1")).expect("project should succeed");
    let _ = engine
        .reconstruct(
            "v-b",
            SettlementOutcome { outcome_tag: s("settled"), gains: vec![1, 2], losses: vec![0, 1] },
        )
        .expect("reconstruct should succeed");

    let replay_1 = engine.replay_canonical_history().expect("first replay should succeed");
    let replay_2 = engine.replay_canonical_history().expect("second replay should succeed");

    assert_eq!(format!("{:?}", replay_1), format!("{:?}", replay_2));
    assert_eq!(format!("{:?}", replay_1.state_root), format!("{:?}", replay_2.state_root));
    assert_eq!(replay_1.replay_hash, replay_2.replay_hash);
    assert_eq!(format!("{:?}", replay_1.final_state), format!("{:?}", replay_2.final_state));
}

#[test]
fn query_results_are_clone_safe_and_do_not_mutate_engine_state() {
    let mut engine = KernelEngine::new();

    let seed_a = "clone-safe-a";
    let nonce_a = find_valid_nonce(seed_a, 1, 1_000_000).expect("nonce a");
    let seed_b = "clone-safe-b";
    let nonce_b = find_valid_nonce(seed_b, 1, 1_000_000).expect("nonce b");

    let _ = engine
        .origin_create(s("v-a"), s("pk-a"), s("space-main"), vec![100, 50], s(seed_a), nonce_a, 1)
        .expect("origin a");
    let _ = engine
        .origin_create(s("v-b"), s("pk-b"), s("space-main"), vec![25, 25], s(seed_b), nonce_b, 1)
        .expect("origin b");

    let stored_vector = engine.query_vector("v-a").expect("query vector").expect("vector exists");

    let mut mutated_vector = stored_vector.clone();
    mutated_vector.components[0] = 999_999;
    mutated_vector.owner_pubkey = s("tampered");

    let fresh_vector = engine.query_vector("v-a").expect("query vector again").expect("vector exists again");

    assert_eq!(fresh_vector.components[0], 100);
    assert_eq!(fresh_vector.owner_pubkey, "pk-a");
    assert_ne!(format!("{:?}", mutated_vector), format!("{:?}", fresh_vector));

    let stored_events = engine.query_events().expect("query events");
    assert!(!stored_events.is_empty());

    let mut tampered_events = stored_events.clone();
    tampered_events[0].event_hash = s("tampered-hash");
    tampered_events[0].payload_hash = s("tampered-payload");

    let fresh_events = engine.query_events().expect("query events again");

    assert_eq!(format!("{:?}", stored_events), format!("{:?}", fresh_events));
    assert_ne!(format!("{:?}", tampered_events), format!("{:?}", fresh_events));
}

#[test]
fn region_create_request_rejects_invalid_section() {
    let req = RegionCreateRequest {
        region_name: s("SSP20"),
        region_prefix: Some(s("SSP")),
        suggested_title: Some(s("Spatial Service Protocol")),
        visibility: RegionVisibility::Public,
        section: 0,
        trigger_event_hash: s("trigger-hash-1"),
        creation_proof: s("proof-hash-1"),
        access_key: None,
        metadata: StringMap::new(),
        request_signature: s("signature-1"),
    };

    assert!(validate_region_create_request(&req).is_err());
}

#[test]
fn region_genesis_is_canonical_and_queryable() {
    let mut metadata = StringMap::new();
    metadata.insert(s("region_theme"), s("spatial"));

    let req = RegionCreateRequest {
        region_name: s("SSP20"),
        region_prefix: Some(s("SSP")),
        suggested_title: Some(s("Spatial Service Protocol")),
        visibility: RegionVisibility::Public,
        section: 23,
        trigger_event_hash: s("trigger-hash-1"),
        creation_proof: s("proof-hash-1"),
        access_key: None,
        metadata,
        request_signature: s("signature-1"),
    };

    validate_region_create_request(&req).expect("request should be valid");

    let event_a = build_region_genesis_event(&req, "pk-region", 7, 1_234, 1).expect("genesis event should build");
    let event_b = build_region_genesis_event(&req, "pk-region", 7, 1_234, 1)
        .expect("same input should build the same event");

    assert_eq!(event_a.payload_hash, event_b.payload_hash);
    assert_eq!(event_a.event_hash, event_b.event_hash);
    assert!(matches!(
        event_a.operation,
        OperationType::Other(ref name) if name == REGION_CREATE_OPERATION_NAME
    ));
    assert_eq!(event_a.vector_after.metadata.get("core_registry").map(|v| v.as_str()), Some("core"));
    assert_eq!(event_a.vector_after.metadata.get("default_auth_ratio").map(|v| v.as_str()), Some("1.0"));

    let derived = region_state_from_event(&event_a).expect("region should derive");
    assert_eq!(derived.region_name, "SSP20");
    assert_eq!(derived.normalized_name, "ssp20");
    assert_eq!(derived.section, 23);
    assert_eq!(derived.visibility.as_str(), "public");
    assert_eq!(derived.creator_public_key, "pk-region");

    let regions = list_regions_from_events(std::slice::from_ref(&event_a)).expect("regions should list");
    assert_eq!(regions.len(), 1);
    assert_eq!(format!("{:?}", regions[0]), format!("{:?}", derived));

    let found = find_region_by_lookup_key(std::slice::from_ref(&event_a), "SSP20", Some("SSP"))
        .expect("lookup should succeed")
        .expect("region should be found");
    assert_eq!(found.region_id, derived.region_id);

    assert!(authorize_region_access(&derived, None));
}

#[test]
fn private_region_authorization_uses_access_key() {
    let req = RegionCreateRequest {
        region_name: s("ARX57"),
        region_prefix: Some(s("ARX")),
        suggested_title: Some(s("Access Region")),
        visibility: RegionVisibility::Private,
        section: 57,
        trigger_event_hash: s("trigger-hash-2"),
        creation_proof: s("proof-hash-2"),
        access_key: Some(s("region-secret")),
        metadata: StringMap::new(),
        request_signature: s("signature-2"),
    };

    let event = build_region_genesis_event(&req, "pk-region-2", 9, 2_000, 1).expect("private region event should build");
    assert!(matches!(
        event.operation,
        OperationType::Other(ref name) if name == REGION_CREATE_OPERATION_NAME
    ));
    let derived = region_state_from_event(&event).expect("private region should derive");

    assert!(!authorize_region_access(&derived, None));
    assert!(!authorize_region_access(&derived, Some("wrong-secret")));
    assert!(authorize_region_access(&derived, Some("region-secret")));
}

#[test]
fn create_region_is_canonical_and_rejects_duplicates() {
    let mut engine = KernelEngine::new();

    let seed_core = "core-seed";
    let nonce_core = find_valid_nonce(seed_core, 1, 1_000_000).expect("core nonce");

    engine
        .origin_create(s("core"), s("core-pk"), s("core"), vec![1], s(seed_core), nonce_core, 1)
        .expect("core origin");

    let mut metadata = StringMap::new();
    metadata.insert(s("region_theme"), s("spatial"));

    let request = RegionCreateRequest {
        region_name: s("SSP20"),
        region_prefix: Some(s("SSP")),
        suggested_title: Some(s("Spatial Service Protocol")),
        visibility: RegionVisibility::Public,
        section: 23,
        trigger_event_hash: s("trigger-hash-3"),
        creation_proof: s("proof-hash-3"),
        access_key: None,
        metadata,
        request_signature: String::new(),
    };

    let signing_key = SigningKey::from_bytes(&[7u8; 32]);
    let (actor_public_key, request_signature) = sign_region_request(&signing_key, &request);

    let mut signed_request = request.clone();
    signed_request.request_signature = request_signature;

    let created_1 = engine
        .create_region(signed_request.clone(), actor_public_key.clone())
        .expect("region create should succeed");

    let created_2 = engine
        .query_region(&created_1.region_id)
        .expect("query by id should succeed")
        .expect("region should exist");

    assert_eq!(format!("{:?}", created_1), format!("{:?}", created_2));

    let by_name = engine
        .query_region_by_name("SSP20", Some("SSP"))
        .expect("query by name should succeed")
        .expect("region should exist");
    assert_eq!(by_name.region_id, created_1.region_id);

    let resolved = engine
        .resolve_region_id("SSP20", Some("SSP"))
        .expect("resolve should succeed")
        .expect("region id should exist");
    assert_eq!(resolved, created_1.region_id);

    assert!(engine.region_exists("SSP20", Some("SSP")).expect("exists check should succeed"));

    assert!(engine.authorize_region(&created_1.region_id, None).expect("authorization should succeed"));

    let report = debug_region_create_request_signature(&actor_public_key, &signed_request).expect("debug report");

    println!(
        "[test-region] lookup_key={} payload_len={} payload_hash={} sig_len={} verified={} preview={}",
        report.lookup_key,
        report.payload_len,
        report.payload_hash,
        report.signature_len,
        report.verified,
        report.canonical_preview_hex
    );

    assert!(report.verified, "local signature verification failed before engine call");

    let duplicate = engine.create_region(signed_request, actor_public_key);
    assert!(duplicate.is_err());

    let replay_1 = engine.replay_canonical_history().expect("replay should succeed");
    let replay_2 = engine.replay_canonical_history().expect("replay should remain deterministic");
    assert_eq!(format!("{:?}", replay_1), format!("{:?}", replay_2));
    assert_eq!(replay_1.replay_hash, replay_2.replay_hash);

    assert!(replay_1.final_state.get(&created_1.region_id).is_some());

    let region_state = replay_1.final_state.get(&created_1.region_id).expect("region state exists");

    assert_eq!(region_state.metadata.get("core_registry"), Some(&s("core")));
    assert_eq!(region_state.metadata.get("default_auth_ratio"), Some(&s("1.0")));
}

#[test]
fn region_public_and_private_rules_hold_via_event_derivation() {
    let public_req = RegionCreateRequest {
        region_name: s("PUBLIC23"),
        region_prefix: Some(s("PUB")),
        suggested_title: Some(s("Public Region")),
        visibility: RegionVisibility::Public,
        section: 23,
        trigger_event_hash: s("trigger-hash-4"),
        creation_proof: s("proof-hash-4"),
        access_key: None,
        metadata: StringMap::new(),
        request_signature: s("signature-4"),
    };

    let public_event =
        build_region_genesis_event(&public_req, "pk-public", 10, 3_000, 1).expect("public region event should build");
    assert!(matches!(
        public_event.operation,
        OperationType::Other(ref name) if name == REGION_CREATE_OPERATION_NAME
    ));
    let public_state = region_state_from_event(&public_event).expect("public region should derive");
    assert!(authorize_region_access(&public_state, None));

    let private_req = RegionCreateRequest {
        region_name: s("PRIVATE95"),
        region_prefix: Some(s("PRV")),
        suggested_title: Some(s("Private Region")),
        visibility: RegionVisibility::Private,
        section: 95,
        trigger_event_hash: s("trigger-hash-5"),
        creation_proof: s("proof-hash-5"),
        access_key: Some(s("private-key")),
        metadata: StringMap::new(),
        request_signature: s("signature-5"),
    };

    let private_event =
        build_region_genesis_event(&private_req, "pk-private", 11, 4_000, 1).expect("private region event should build");
    assert!(matches!(
        private_event.operation,
        OperationType::Other(ref name) if name == REGION_CREATE_OPERATION_NAME
    ));
    let private_state = region_state_from_event(&private_event).expect("private region should derive");

    assert!(!authorize_region_access(&private_state, None));
    assert!(authorize_region_access(&private_state, Some("private-key")));
    assert!(!authorize_region_access(&private_state, Some("wrong-key")));
}

#[test]
fn dag_validation_rejects_missing_parent() {
    let mut state_before = VectorState::zero(2, s("pk-a"), s("STANDARD"));
    state_before.components = vec![10, 20];

    let mut state_after = state_before.clone();
    state_after.components = vec![5, 15];

    let mut event = VectorEvent::new(
        s("event-1"),
        vec![s("missing-parent-hash")],
        s("space-main"),
        s("v-a"),
        OperationType::Transfer,
        state_before,
        state_after,
        1.0f64.to_bits(),
        true,
        s("pk-a"),
        1,
        1,
    );

    event.payload_hash = canonical_payload_hash(&event);
    event.event_hash = canonical_event_hash(&event);

    let result = validate_dag(&[event]);
    assert!(result.is_err());
}

#[test]
fn region_creation_is_fully_replayable_and_immutable() {
    let mut engine = KernelEngine::new();

    let seed_core = "core-seed";
    let nonce_core = find_valid_nonce(seed_core, 1, 1_000_000).expect("nonce");

    engine
        .origin_create(s("core"), s("core-pk"), s("core"), vec![1], s(seed_core), nonce_core, 1)
        .expect("core origin");

    let request = RegionCreateRequest {
        region_name: s("CORENET"),
        region_prefix: Some(s("COR")),
        suggested_title: Some(s("Core Network")),
        visibility: RegionVisibility::Public,
        section: 1,
        trigger_event_hash: s("core-trigger"),
        creation_proof: s("core-proof"),
        access_key: None,
        metadata: StringMap::new(),
        request_signature: String::new(),
    };

    let signing_key = SigningKey::from_bytes(&[9u8; 32]);

    let (actor_public_key, request_signature) = sign_region_request(&signing_key, &request);

    let mut signed_request = request.clone();
    signed_request.request_signature = request_signature;

    let region = engine.create_region(signed_request, actor_public_key).expect("region create");

    let replay_a = engine.replay_canonical_history().expect("replay a");
    let replay_b = engine.replay_canonical_history().expect("replay b");

    assert_eq!(format!("{:?}", replay_a), format!("{:?}", replay_b));

    assert!(replay_a.final_state.get(&region.region_id).is_some());

    let stored = replay_a.final_state.get(&region.region_id).unwrap();

    assert_eq!(stored.metadata.get("core_registry"), Some(&s("core")));
    assert_eq!(stored.metadata.get("default_auth_ratio"), Some(&s("1.0")));
}
