use ed25519_dalek::{Signer, SigningKey};
use v_kernelx::engine::KernelEngine;
use v_kernelx::error::KernelXError;
use v_kernelx::event::{OperationType, VectorEvent, VectorState};
use v_kernelx::hash::{canonical_event_hash, canonical_payload_hash};
use v_kernelx::interpreter::{execute_script, parse_script, Opcode, ScriptValue};
use v_kernelx::origin::find_valid_nonce;
use v_kernelx::ratio::ratio_to_bits;
use v_kernelx::region::{build_region_genesis_event, RegionCreateRequest, RegionVisibility};
use v_kernelx::sdk::VectorKernel;
use v_kernelx::serialization::canonical_event_payload_bytes;
use v_kernelx::session::{
    canonical_submit_request_bytes, collect_new_events, compute_heads, operation_name, replay_from_events,
    validate_event_internal, verify_record, verify_payload_signature, DrainRequest, KernelSession,
    OriginCreateRequest, SubmitEventRequest, SubmitPayload,
};
use v_kernelx::signature::{hex_decode, hex_encode, sign_event, signing_key_from_hex};
use v_kernelx::strmap::StringMap;
use v_kernelx::wallet::{verify_signature, WalletContext};

fn s(text: &str) -> String {
    text.to_string()
}

fn plain_event(id: &str, parents: Vec<String>, key: &SigningKey) -> VectorEvent {
    let before = VectorState::zero(2, s("pk"), s("STANDARD"));
    let mut after = before.clone();
    after.components = vec![3, 4];
    let mut event = VectorEvent::new(
        s(id),
        parents,
        s("space-main"),
        s(id),
        OperationType::OriginCreate,
        before,
        after,
        1.0f64.to_bits(),
        true,
        hex::encode(key.verifying_key().to_bytes()),
        1,
        10,
    );
    let payload = canonical_event_payload_bytes(&event);
    event.signature = hex::encode(key.sign(&payload).to_bytes());
    event.payload_hash = canonical_payload_hash(&event);
    event.event_hash = canonical_event_hash(&event);
    event
}

#[test]
fn hex_encoding_round_trips() {
    let bytes = vec![0u8, 1, 127, 128, 254, 255];
    let text = hex_encode(&bytes);
    assert_eq!(text, "00017f80feff");
    assert_eq!(hex_decode(&text).unwrap(), bytes);
    assert_eq!(hex_decode("0A").unwrap(), vec![10u8]);
    assert_eq!(hex_decode("abc").unwrap_err(), "hex string must have even length");
    assert_eq!(hex_decode("zz").unwrap_err(), "invalid hex character: z");
}

#[test]
fn signing_key_parsing_reports_each_error() {
    assert_eq!(signing_key_from_hex("abc").unwrap_err(), "hex string must have even length");
    assert_eq!(signing_key_from_hex("0g").unwrap_err(), "invalid hex character: g");
    assert_eq!(signing_key_from_hex("00").unwrap_err(), "ed25519 signing key must be 32 bytes");
    let key = signing_key_from_hex(&hex::encode([7u8; 32])).unwrap();
    assert_eq!(key.bytes, vec![7u8; 32]);
}

#[test]
fn sign_event_matches_ed25519() {
    let key = signing_key_from_hex(&hex::encode([7u8; 32])).unwrap();
    let expected = hex::encode(SigningKey::from_bytes(&[7u8; 32]).sign(b"payload").to_bytes());
    let got = sign_event(&key, b"payload");
    assert_eq!(got, expected);
    assert_eq!(got.len(), 128);
}

#[test]
fn wallet_signatures_verify_under_the_wallet_key() {
    let wallet = WalletContext::generate();
    let public_key = wallet.public_key_hex();
    assert_eq!(public_key.len(), 64);
    let signature = wallet.sign(b"message");
    assert!(verify_signature(&public_key, b"message", &signature).is_ok());
    assert!(matches!(verify_signature(&public_key, b"massage", &signature), Err(KernelXError::Signature)));
    assert!(matches!(verify_signature("zz", b"message", &signature), Err(KernelXError::Signature)));
    let identity = wallet.identity();
    assert_eq!(identity.public_key_hex, public_key);
    let other = WalletContext::generate();
    assert_ne!(other.public_key_hex(), public_key);
}

#[test]
fn transfer_conserves_total_magnitude() {
    let mut engine = KernelEngine::new();
    let na = find_valid_nonce("seed-a", 1, 1_000_000).unwrap();
    let nb = find_valid_nonce("seed-b", 1, 1_000_000).unwrap();
    let a = engine.origin_create(s("v-a"), s("pk-a"), s("space"), vec![100, 50], s("seed-a"), na, 1).unwrap();
    let b = engine.origin_create(s("v-b"), s("pk-b"), s("space"), vec![25, 25], s("seed-b"), nb, 1).unwrap();
    let before = a.magnitude() + b.magnitude();
    let (a2, b2) = engine.transfer("v-a", "v-b", vec![10, 5]).unwrap();
    assert_eq!(a2.components, vec![90, 45]);
    assert_eq!(b2.components, vec![35, 30]);
    assert_eq!(a2.magnitude() + b2.magnitude(), before);
    assert!(matches!(engine.transfer("v-a", "v-b", vec![1000, 0]), Err(KernelXError::InsufficientBalance)));
    assert!(matches!(engine.transfer("v-a", "v-b", vec![1]), Err(KernelXError::DimensionMismatch)));
    assert!(matches!(engine.transfer("v-a", "nope", vec![1, 1]), Err(KernelXError::VectorNotFound)));
}

#[test]
fn ratio_bits_match_binary64_division() {
    for n in 0u16..=1000 {
        assert_eq!(ratio_to_bits(n), (n as f64 / 1000.0).to_bits());
    }
}

#[test]
fn error_messages_match_their_display_text() {
    assert_eq!(KernelXError::Rejected(s("x")).message(), "operation rejected: x");
    assert_eq!(KernelXError::VectorNotFound.message(), "vector not found");
    assert_eq!(KernelXError::InvalidState(s("bad")).message(), "invalid vector state: bad");
    assert_eq!(KernelXError::OriginRejected.message(), "origin proof rejected");
}

#[test]
fn scripts_skip_comments_and_read_parameters() {
    let script = "# comment\n\n  drain {\"vector_id\":\"v\",\"basis_points\":7}\nQUERY\nORIGIN_CREATE {\"components\":[1,2,-3]}\n";
    let instructions = parse_script(script).unwrap();
    assert_eq!(instructions.len(), 3);
    assert_eq!(instructions[0].opcode, Opcode::Drain);
    assert_eq!(instructions[0].params.len(), 2);
    assert_eq!(instructions[0].params[0].0, "basis_points");
    assert!(matches!(instructions[0].params[0].1, ScriptValue::Number(Some(7))));
    assert_eq!(instructions[0].params[1].0, "vector_id");
    assert!(matches!(&instructions[0].params[1].1, ScriptValue::Text(t) if t == "v"));
    assert_eq!(instructions[1].opcode, Opcode::Query);
    assert!(instructions[1].params.is_empty());
    assert_eq!(instructions[2].opcode, Opcode::OriginCreate);
    assert!(matches!(&instructions[2].params[0].1, ScriptValue::List(items) if items == &vec![Some(1), Some(2), None]));
}

#[test]
fn scripts_upper_case_opcodes_with_unicode_rules() {
    let instructions = parse_script("tran\u{17f}fer {}").unwrap();
    assert_eq!(instructions[0].opcode, Opcode::Transfer);
}

#[test]
fn scripts_reject_unknown_opcodes_and_bad_json() {
    match parse_script("bogus {}") {
        Err(KernelXError::Rejected(m)) => assert_eq!(m, "unknown opcode: BOGUS"),
        other => panic!("unexpected {:?}", other),
    }
    match parse_script("DRAIN {oops\nbogus") {
        Err(KernelXError::Rejected(m)) => assert!(m.starts_with("invalid params json: ")),
        other => panic!("unexpected {:?}", other),
    }
}

#[test]
fn scripts_run_operations_in_order() {
    let na = find_valid_nonce("seed-a", 1, 1_000_000).unwrap();
    let nb = find_valid_nonce("seed-b", 1, 1_000_000).unwrap();
    let script = format!(
        "ORIGIN {{\"vector_id\":\"v-a\",\"owner_pubkey\":\"pk-a\",\"components\":[100,50],\"seed\":\"seed-a\",\"nonce\":{na}}}\n\
         origin_create {{\"vector_id\":\"v-b\",\"owner_pubkey\":\"pk-b\",\"components\":[25,25],\"seed\":\"seed-b\",\"nonce\":{nb}}}\n\
         TRANSFER {{\"from\":\"v-a\",\"to\":\"v-b\",\"amount\":[10,5]}}\n\
         DRAIN {{\"vector_id\":\"v-a\",\"basis_points\":100}}\n\
         CERTIFY {{\"vector_id\":\"v-b\"}}\n\
         QUERY {{\"vector_id\":\"missing\"}}\n"
    );
    let mut engine = KernelEngine::new();
    let out = execute_script(&mut engine, &script).unwrap();
    assert_eq!(out.len(), 6);
    assert_eq!(out[0], "origin:v-a");
    assert_eq!(out[1], "origin:v-b");
    assert_eq!(out[2], "transfer:v-a->v-b:135|65");
    assert_eq!(out[3], "drain:v-a");
    assert!(out[4].starts_with("certify:v-b:"));
    let ratio: u64 = out[4]["certify:v-b:".len()..].parse().unwrap();
    assert!(ratio <= 1000);
    assert_eq!(out[5], "null");

    let query = execute_script(&mut engine, "QUERY {\"vector_id\":\"v-a\"}").unwrap();
    assert!(query[0].starts_with("{\"schema\":\"v.kernelx/VectorStateV1\",\"vector_id\":\"v-a\""));

    let missing = execute_script(&mut engine, "DRAIN {\"vector_id\":\"nope\"}");
    assert!(matches!(missing, Err(KernelXError::VectorNotFound)));
}

#[test]
fn operation_names_are_trimmed_and_lower_cased() {
    assert_eq!(operation_name("  Transfer \n"), "transfer");
}

fn signed_request(key: &SigningKey, id: &str, operation: &str, params_json: &str) -> SubmitEventRequest {
    let mut request = SubmitEventRequest {
        request_id: s(id),
        operation: s(operation),
        actor_public_key: hex::encode(key.verifying_key().to_bytes()),
        signature: s("00"),
        params_json: s(params_json),
    };
    let bytes = canonical_submit_request_bytes(&request);
    request.signature = hex::encode(key.sign(&bytes).to_bytes());
    request
}

#[test]
fn submitted_requests_are_accepted_once_and_then_duplicates() {
    let key = SigningKey::from_bytes(&[5u8; 32]);
    let nonce = find_valid_nonce("seed-s", 1, 1_000_000).unwrap();
    let payload = SubmitPayload::OriginCreate(OriginCreateRequest {
        vector_id: s("v-s"),
        owner_pubkey: s("pk-s"),
        space_id: s("space"),
        components: vec![7, 8],
        seed: s("seed-s"),
        nonce,
        difficulty: 1,
    });
    let request = signed_request(&key, "r1", "origin", "{\"vector_id\":\"v-s\"}");
    let bytes = canonical_submit_request_bytes(&request);
    let text = String::from_utf8(bytes).unwrap();
    assert!(text.starts_with("{\"actor_public_key\":"));
    assert!(text.contains("\"params\":\"{\\\"vector_id\\\":\\\"v-s\\\"}\""));

    let mut session = KernelSession::new();
    let first = session.execute_submit_request(request.clone(), Ok(payload.clone()));
    let receipt = first.unwrap();
    assert_eq!(receipt.request_id, "r1");
    assert_eq!(receipt.operation, "origin");
    assert_eq!(receipt.collected.operation, "origin_create");
    assert_eq!(receipt.collected.records.len(), 1);
    assert_eq!(receipt.collected.event_count, 1);
    assert_eq!(session.seen_request_ids, vec![s("r1")]);
    assert_eq!(session.engine.query_vector("v-s").unwrap().unwrap().components, vec![7, 8]);
    assert!(session.last_error.is_none());
    assert_eq!(session.engine.query_events().unwrap().len(), 1);

    let second = session.execute_submit_request(request, Ok(payload));
    assert_eq!(second.unwrap_err(), "duplicate request_id: r1");
    assert_eq!(session.engine.query_events().unwrap().len(), 1);
}

#[test]
fn submitted_requests_report_each_validation_error() {
    let key = SigningKey::from_bytes(&[5u8; 32]);
    let mut session = KernelSession::new();
    let drain = || Ok(SubmitPayload::Drain(DrainRequest { vector_id: s("v"), basis_points: 1 }));

    let mut blank = signed_request(&key, "  ", "drain", "{}");
    assert_eq!(session.execute_submit_request(blank.clone(), drain()).unwrap_err(), "missing request_id");
    blank.request_id = s("r2");
    blank.signature = s(" ");
    assert_eq!(session.execute_submit_request(blank, drain()).unwrap_err(), "missing signature");

    let unsupported = signed_request(&key, "r3", "Explode", "{}");
    assert_eq!(session.execute_submit_request(unsupported, drain()).unwrap_err(), "unsupported operation: explode");

    let shape = signed_request(&key, "r4", "drain", "{}");
    assert_eq!(
        session.execute_submit_request(shape, Err(s("missing field `vector_id`"))).unwrap_err(),
        "drain params invalid: missing field `vector_id`"
    );

    let mut forged = signed_request(&key, "r5", "drain", "{}");
    forged.params_json = s("{\"changed\":true}");
    assert_eq!(session.execute_submit_request(forged, drain()).unwrap_err(), "request signature verification failed");

    let missing = signed_request(&key, "r6", "drain", "{}");
    assert_eq!(session.execute_submit_request(missing, drain()).unwrap_err(), "vector not found");
    assert!(session.seen_request_ids.is_empty());
}

#[test]
fn event_checks_report_hashes_signature_and_dag() {
    let key = SigningKey::from_bytes(&[3u8; 32]);
    let event = plain_event("e1", Vec::new(), &key);
    let check = validate_event_internal(&event);
    assert!(check.hashes_ok && check.payload_hash_ok && check.event_hash_ok);
    assert!(check.signature_ok);
    assert!(check.signature_error.is_none());
    assert!(check.dag_ok);
    assert!(verify_record(&event).is_ok());

    let mut tampered = event.clone();
    tampered.vector_after.components = vec![9, 9];
    assert!(!validate_event_internal(&tampered).payload_hash_ok);
    assert_eq!(verify_record(&tampered).unwrap_err(), "record verification failed");

    let request = RegionCreateRequest {
        region_name: s("SSP20"),
        region_prefix: Some(s("SSP")),
        suggested_title: None,
        visibility: RegionVisibility::Public,
        section: 23,
        trigger_event_hash: s("t"),
        creation_proof: s("p"),
        access_key: None,
        metadata: StringMap::new(),
        request_signature: s("signature-1"),
    };
    let genesis = build_region_genesis_event(&request, "pk-region", 7, 1_234, 1).unwrap();
    let report = validate_event_internal(&genesis);
    assert!(report.hashes_ok);
    assert!(!report.signature_ok);
    assert_eq!(report.signature_error, Some(s("hex string must have even length")));
}

#[test]
fn detached_signatures_verify_over_payload_bytes() {
    let key = SigningKey::from_bytes(&[4u8; 32]);
    let public_key = hex::encode(key.verifying_key().to_bytes());
    let signature = hex::encode(key.sign(b"hello").to_bytes());
    assert_eq!(verify_payload_signature(&public_key, b"hello", &signature), Ok(true));
    assert_eq!(verify_payload_signature(&public_key, b"hellp", &signature), Ok(false));
    assert_eq!(verify_payload_signature("00", b"hello", &signature), Err(s("ed25519 verifying key must be 32 bytes")));
}

#[test]
fn heads_and_new_events_follow_parent_links() {
    let key = SigningKey::from_bytes(&[3u8; 32]);
    let e1 = plain_event("e1", Vec::new(), &key);
    let e2 = plain_event("e2", vec![e1.event_hash.clone()], &key);
    let e3 = plain_event("e3", Vec::new(), &key);
    let heads = compute_heads(&[e1.clone(), e2.clone(), e3.clone()]);
    let mut expected = vec![e2.event_hash.clone(), e3.event_hash.clone()];
    expected.sort();
    assert_eq!(heads, expected);

    let fresh = collect_new_events(&vec![e1.clone()], &vec![e1.clone(), e2.clone()]);
    assert_eq!(fresh.len(), 1);
    assert_eq!(fresh[0].event_hash, e2.event_hash);
}

#[test]
fn replaying_no_events_gives_the_empty_summary() {
    let summary = replay_from_events(&Vec::new()).unwrap();
    assert!(summary.verified);
    assert_eq!(summary.event_count, 0);
    assert_eq!(summary.latest_clock, 0);
    assert_eq!(summary.replay_hash, "");
    assert!(summary.heads.is_empty());
    assert!(summary.applied_event_hashes.is_empty());
}

#[test]
fn sdk_kernel_runs_the_engine_operations() {
    let mut kernel = VectorKernel::new();
    let nonce = find_valid_nonce("seed-k", 1, 1_000_000).unwrap();
    let v = kernel.origin_create(s("v-k"), s("pk"), s("space"), vec![40, 60], s("seed-k"), nonce, 1).unwrap();
    assert_eq!(v.components, vec![40, 60]);
    assert!(v.certification.certified);
    let drained = kernel.drain("v-k", 100).unwrap();
    assert_eq!(drained.components, vec![40, 60]);
    assert!(matches!(kernel.drain("v-k", 10_001), Err(KernelXError::Rejected(_))));
    assert_eq!(kernel.query_vectors().unwrap().len(), 1);
    assert!(kernel.query("v-k").unwrap().is_some());
    assert_eq!(kernel.query_records().unwrap().len(), 2);
    let metrics = kernel.engine.metrics().unwrap();
    assert_eq!(metrics.vector_count, 1);
    assert_eq!(metrics.record_count, 2);
    assert_eq!(metrics.event_count, 2);
    assert!(metrics.healthy);
}

#[test]
fn public_keys_derive_from_secret_keys() {
    let key = signing_key_from_hex(&hex::encode([7u8; 32])).unwrap();
    let public = key.public_key();
    assert_eq!(public.bytes, SigningKey::from_bytes(&[7u8; 32]).verifying_key().to_bytes().to_vec());
    assert_ne!(public.bytes, key.bytes);
}

#[test]
fn public_keys_off_the_curve_are_refused() {
    let mut refused = 0;
    for b in 0u8..=255 {
        let text = hex::encode([b; 32]);
        match v_kernelx::signature::verifying_key_from_hex(&text) {
            Ok(k) => assert_eq!(k.bytes, vec![b; 32]),
            Err(e) => {
                assert_eq!(e, "public key parse error: signature error: Cannot decompress Edwards point");
                refused += 1;
            }
        }
    }
    assert!(refused > 0);
}

#[test]
fn detached_verification_accepts_upper_case_hex() {
    let key = SigningKey::from_bytes(&[6u8; 32]);
    let public_key = hex::encode_upper(key.verifying_key().to_bytes());
    let signature = hex::encode(key.sign(b"data").to_bytes());
    assert!(verify_signature(&public_key, b"data", &signature).is_ok());
    assert!(verify_signature(&public_key, b"data", &signature.to_uppercase()).is_ok());
    assert!(matches!(verify_signature(&public_key[1..], b"data", &signature), Err(KernelXError::Signature)));
}

fn two_vectors(engine: &mut KernelEngine) {
    let na = find_valid_nonce("seed-a", 1, 1_000_000).unwrap();
    let nb = find_valid_nonce("seed-b", 1, 1_000_000).unwrap();
    engine.origin_create(s("v-a"), s("pk-a"), s("space"), vec![100, 50], s("seed-a"), na, 1).unwrap();
    engine.origin_create(s("v-b"), s("pk-b"), s("space"), vec![25, 25], s("seed-b"), nb, 1).unwrap();
}

#[test]
fn neutral_settlement_restores_projected_components() {
    let mut engine = KernelEngine::new();
    two_vectors(&mut engine);
    let projected = engine.project("v-a", vec![10, 10], s("escrow")).unwrap();
    assert_eq!(projected.components, vec![90, 40]);
    let settled = engine.reconstruct("v-a", neutral_outcome()).unwrap();
    assert_eq!(settled.components, vec![100, 50]);
}

fn neutral_outcome() -> v_kernelx::reconstruction::SettlementOutcome {
    v_kernelx::reconstruction::SettlementOutcome { outcome_tag: s("settled"), gains: vec![0, 0], losses: vec![0, 0] }
}

#[test]
fn reverse_transfer_undoes_a_transfer() {
    let mut engine = KernelEngine::new();
    two_vectors(&mut engine);
    engine.transfer("v-a", "v-b", vec![10, 5]).unwrap();
    let (b, a) = engine.transfer("v-b", "v-a", vec![10, 5]).unwrap();
    assert_eq!(a.components, vec![100, 50]);
    assert_eq!(b.components, vec![25, 25]);
}

#[test]
fn transfer_to_the_same_vector_moves_nothing() {
    let mut engine = KernelEngine::new();
    two_vectors(&mut engine);
    let events = engine.query_events().unwrap().len();
    let (a, b) = engine.transfer("v-a", "v-a", vec![10, 5]).unwrap();
    assert_eq!(a.components, vec![90, 45]);
    assert_eq!(b.components, vec![110, 55]);
    assert_eq!(engine.query_vector("v-a").unwrap().unwrap().components, vec![100, 50]);
    assert_eq!(engine.query_events().unwrap().len(), events);
}

#[test]
fn accepted_transfers_move_exact_amounts() {
    let mut engine = KernelEngine::new();
    two_vectors(&mut engine);
    let (a, b) = engine.transfer("v-a", "v-b", vec![40, 50]).unwrap();
    assert_eq!(a.components, vec![60, 0]);
    assert_eq!(b.components, vec![65, 75]);
    assert_eq!(engine.query_events().unwrap().len(), 4);
}

#[test]
fn drains_never_raise_components() {
    let mut engine = KernelEngine::new();
    two_vectors(&mut engine);
    let before = engine.query_vector("v-a").unwrap().unwrap();
    let after = engine.drain("v-a", 10_000).unwrap();
    for (x, y) in after.components.iter().zip(before.components.iter()) {
        assert!(x <= y);
    }
    assert!(after.magnitude() <= before.magnitude());
    assert_eq!(after.components, vec![50, 25]);
}

#[test]
fn snapshots_of_a_replay_verify_against_it() {
    let mut engine = KernelEngine::new();
    two_vectors(&mut engine);
    let replay = engine.replay_canonical_history().unwrap();
    let snapshot = v_kernelx::snapshot::create_snapshot(&replay, vec![], 7);
    let checked = v_kernelx::snapshot::verify_snapshot(&snapshot, &replay.final_state, replay.replay_hash.as_str());
    assert_eq!(checked, Ok(true));
}

#[test]
fn basic_flow_succeeds_on_a_new_harness() {
    let mut harness = v_kernelx::developer::SimulationHarness::new();
    let report = harness.basic_flow().unwrap();
    assert_eq!(report.vectors.len(), 2);
    let v_b = harness.engine.query_vector("v-b").unwrap().unwrap();
    assert_eq!(v_b.components, vec![302, 326]);
}

#[test]
fn json_text_escapes_quotes_backslashes_and_controls() {
    let text = v_kernelx::json::json_str("a\"b\\\n\t\u{1}\u{7f}é");
    assert_eq!(text, "\"a\\\"b\\\\\\n\\t\\u0001\u{7f}é\"");
}

#[test]
fn state_roots_do_not_depend_on_the_order_of_states() {
    let mut engine = KernelEngine::new();
    two_vectors(&mut engine);
    let a = engine.query_vector("v-a").unwrap().unwrap();
    let b = engine.query_vector("v-b").unwrap().unwrap();
    let forward = v_kernelx::stateroot::compute_state_root(&[a.clone(), b.clone()], 9);
    let backward = v_kernelx::stateroot::compute_state_root(&[b, a], 9);
    assert_eq!(forward.root_hash, backward.root_hash);
    assert_eq!(forward.event_count, 2);
}

#[test]
fn topological_order_does_not_depend_on_input_order() {
    let key = SigningKey::from_bytes(&[5u8; 32]);
    let e1 = plain_event("e1", Vec::new(), &key);
    let e2 = plain_event("e2", vec![e1.event_hash.clone()], &key);
    let e3 = plain_event("e3", vec![e2.event_hash.clone()], &key);
    let forward = v_kernelx::dag::topological_order(&[e1.clone(), e2.clone(), e3.clone()]).unwrap();
    let backward = v_kernelx::dag::topological_order(&[e3.clone(), e1.clone(), e2.clone()]).unwrap();
    let hashes = |v: &Vec<VectorEvent>| v.iter().map(|e| e.event_hash.clone()).collect::<Vec<String>>();
    assert_eq!(hashes(&forward), hashes(&backward));
    assert_eq!(hashes(&forward), vec![e1.event_hash.clone(), e2.event_hash.clone(), e3.event_hash.clone()]);
}

#[test]
fn replay_does_not_depend_on_input_order() {
    let mut engine = KernelEngine::new();
    two_vectors(&mut engine);
    engine.transfer("v-a", "v-b", vec![10, 5]).unwrap();
    engine.drain("v-b", 100).unwrap();
    let events = engine.query_events().unwrap();
    let mut reversed = events.clone();
    reversed.reverse();
    let forward = v_kernelx::replay::replay_events(&events).unwrap();
    let backward = v_kernelx::replay::replay_events(&reversed).unwrap();
    assert_eq!(forward.replay_hash, backward.replay_hash);
    assert_eq!(forward.state_root.root_hash, backward.state_root.root_hash);
    assert_eq!(forward.applied_event_hashes, backward.applied_event_hashes);
}
