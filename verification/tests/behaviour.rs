use compute_commons_core::demo::{conclude_demo, run_demo};
use compute_commons_core::runtime::{check_no_imports, ExecutionOutcome};
use compute_commons_core::text::{decimal_string, hex_string, signed_decimal_string};
use compute_commons_core::{
    digest, AuditChain, CommonsError, Coordinator, CreditLedger, Job, JobState, LedgerKind, Node,
    PrivacyTier, Registry, ResourceLimits, SignedPackage, WasmRuntime, WorkloadManifest,
};
use ed25519_dalek::SigningKey;
use rand_core::OsRng;

const DOUBLE: &[u8] = br#"(module (func (export "double") (param i32) (result i32) local.get 0 i32.const 2 i32.mul))"#;

fn limits() -> ResourceLimits {
    ResourceLimits { cpu_threads: 1, memory_mib: 64, scratch_mib: 16, wall_time_seconds: 30 }
}

fn manifest(minimum_privacy: PrivacyTier) -> WorkloadManifest {
    WorkloadManifest {
        name: "double".into(),
        version: "1.0.0".into(),
        runtime: "wasm-component".into(),
        entrypoint: "double".into(),
        minimum_privacy,
        resources: limits(),
        network_deny_all: true,
        deterministic: true,
        verification: "EXACT".into(),
        reference_cost_ccu: 10,
    }
}

fn secret() -> [u8; 32] {
    SigningKey::generate(&mut OsRng).to_bytes()
}

fn node(id: &str, privacy: PrivacyTier) -> Node {
    Node { id: id.into(), maximum: limits(), privacy, paused: false, drained: false, revoked: false }
}

fn job_for(digest: &str, privacy: PrivacyTier) -> Job {
    Job {
        id: "task".into(),
        owner: "owner".into(),
        workload_digest: digest.into(),
        privacy,
        resources: limits(),
        max_reserved_ccu: 10,
        expected_output: 42,
        state: JobState::Leased,
    }
}

fn scheduler() -> (Registry, String, Coordinator) {
    let mut registry = Registry::default();
    let digest = registry
        .approve(SignedPackage::new(manifest(PrivacyTier::P0Public), DOUBLE.to_vec(), &secret()))
        .unwrap();
    let mut coordinator = Coordinator::default();
    coordinator.register_node(node("node", PrivacyTier::P1MinimizedShard));
    (registry, digest, coordinator)
}

fn queued_scheduler() -> (Registry, String, Coordinator) {
    let (registry, digest, mut coordinator) = scheduler();
    coordinator.submit(job_for(&digest, PrivacyTier::P0Public), &registry).unwrap();
    (registry, digest, coordinator)
}

#[test]
fn decimal_and_hex_renderings_are_exact() {
    assert_eq!(decimal_string(0), "0");
    assert_eq!(decimal_string(9), "9");
    assert_eq!(decimal_string(10), "10");
    assert_eq!(decimal_string(1234567890), "1234567890");
    assert_eq!(decimal_string(u64::MAX), "18446744073709551615");
    assert_eq!(signed_decimal_string(0), "0");
    assert_eq!(signed_decimal_string(-1), "-1");
    assert_eq!(signed_decimal_string(-10), "-10");
    assert_eq!(signed_decimal_string(i64::MAX), "9223372036854775807");
    assert_eq!(signed_decimal_string(i64::MIN), "-9223372036854775808");
    assert_eq!(hex_string(&[0x00, 0x0f, 0xab, 0xff]), "000fabff");
    assert_eq!(hex_string(&[]), "");
}

#[test]
fn digest_is_blake3_in_lowercase_hex() {
    assert_eq!(
        digest(b""),
        "blake3:af1349b9f5f9a1a6a0404dea36dcc9499bcb25c9adc112b7cc9a93cae41f3262"
    );
    assert_eq!(digest(b"abc"), format!("blake3:{}", blake3::hash(b"abc").to_hex()));
    assert_ne!(digest(b"abc"), digest(b"abd"));
}

#[test]
fn audit_records_are_numbered_and_hash_linked() {
    let mut audit = AuditChain::default();
    assert_eq!(audit.root(), "GENESIS");
    audit.record("LEASE_ISSUED", "coordinator", "MATCHED_POLICY");
    let first = audit.events[0].clone();
    assert_eq!(first.sequence, 1);
    assert_eq!(first.kind, "LEASE_ISSUED");
    assert_eq!(first.actor, "coordinator");
    assert_eq!(first.reason_code, "MATCHED_POLICY");
    assert_eq!(first.previous_hash, "GENESIS");
    assert_eq!(first.hash, digest(b"1|LEASE_ISSUED|coordinator|MATCHED_POLICY|GENESIS"));
    assert_eq!(audit.root(), first.hash);
    audit.record("RESULT_REJECTED", "verifier", "HASH_MISMATCH");
    let second = audit.events[1].clone();
    assert_eq!(second.sequence, 2);
    assert_eq!(second.previous_hash, first.hash);
    assert_eq!(
        second.hash,
        digest(format!("2|RESULT_REJECTED|verifier|HASH_MISMATCH|{}", first.hash).as_bytes())
    );
    assert_eq!(audit.root(), second.hash);
    assert_eq!(audit.events[0].hash, first.hash);
}

#[test]
fn root_signature_verifies_only_under_the_signers_key() {
    let key = SigningKey::generate(&mut OsRng);
    let other = SigningKey::generate(&mut OsRng);
    let mut audit = AuditChain::default();
    let genesis_signature = audit.sign_root(&key.to_bytes());
    assert!(audit.verify_root(&key.verifying_key().to_bytes(), &genesis_signature));
    audit.record("WORKLOAD_APPROVED", "local-community", "MVP_DEMO");
    let signature = audit.sign_root(&key.to_bytes());
    assert!(audit.verify_root(&key.verifying_key().to_bytes(), &signature));
    assert!(!audit.verify_root(&other.verifying_key().to_bytes(), &signature));
    assert!(!audit.verify_root(&key.verifying_key().to_bytes(), &genesis_signature));
}

#[test]
fn ledger_entries_are_hash_linked_and_settlement_moves_the_fixed_cost() {
    let mut ledger = CreditLedger::default();
    assert_eq!(ledger.balance("nobody"), 0);
    ledger.grant("owner", 100).unwrap();
    let grant = ledger.entries[0].clone();
    assert_eq!(grant.sequence, 1);
    assert_eq!(grant.kind, LedgerKind::BasicGrant);
    assert_eq!(grant.amount, 100);
    assert_eq!(grant.task_id, None);
    assert_eq!(grant.previous_hash, "GENESIS");
    assert_eq!(grant.hash, digest(b"1|owner|BasicGrant|100|None|GENESIS"));
    assert_eq!(ledger.settle_verified("task", "owner", "node", 10), Ok(true));
    let paid = ledger.entries[1].clone();
    let earned = ledger.entries[2].clone();
    assert_eq!(paid.kind, LedgerKind::ComputeConsumed);
    assert_eq!(paid.amount, -10);
    assert_eq!(paid.task_id.as_deref(), Some("task"));
    assert_eq!(paid.previous_hash, grant.hash);
    assert_eq!(
        paid.hash,
        digest(format!("2|owner|ComputeConsumed|-10|Some(\"task\")|{}", grant.hash).as_bytes())
    );
    assert_eq!(earned.member, "node");
    assert_eq!(earned.kind, LedgerKind::ComputeContributed);
    assert_eq!(earned.amount, 10);
    assert_eq!(
        earned.hash,
        digest(format!("3|node|ComputeContributed|10|Some(\"task\")|{}", paid.hash).as_bytes())
    );
    assert_eq!(ledger.balance("owner"), 90);
    assert_eq!(ledger.balance("node"), 10);
    assert_eq!(ledger.settle_verified("task", "someone", "else", 50), Ok(false));
    assert_eq!(ledger.entries.len(), 3);
    assert_eq!(ledger.balance("owner"), 90);
}

#[test]
fn ledger_refusals_change_nothing() {
    let mut ledger = CreditLedger::default();
    assert_eq!(ledger.grant("owner", u64::MAX), Err(CommonsError::CreditOverflow));
    assert_eq!(ledger.grant("owner", i64::MAX as u64 + 1), Err(CommonsError::CreditOverflow));
    assert!(ledger.entries.is_empty());
    ledger.grant("owner", 5).unwrap();
    assert_eq!(
        ledger.settle_verified("task", "owner", "node", 10),
        Err(CommonsError::InsufficientCredit)
    );
    assert_eq!(
        ledger.settle_verified("task", "owner", "node", i64::MAX as u64 + 1),
        Err(CommonsError::CreditOverflow)
    );
    assert_eq!(ledger.entries.len(), 1);
    assert_eq!(ledger.transfer("owner", "node", 1), Err(CommonsError::TransferForbidden));
    assert_eq!(ledger.balance("owner"), 5);
    assert_eq!(ledger.balance("node"), 0);
    ledger.grant("owner", 5).unwrap();
    assert_eq!(ledger.settle_verified("task", "owner", "node", 10), Ok(true));
    assert_eq!(ledger.balance("owner"), 0);
    assert_eq!(ledger.balance("node"), 10);
}

#[test]
fn credit_overflow_is_refused_and_changes_nothing() {
    let mut ledger = CreditLedger::default();
    ledger.grant("m", i64::MAX as u64).unwrap();
    assert_eq!(ledger.grant("m", i64::MAX as u64), Err(CommonsError::CreditOverflow));
    assert_eq!(ledger.grant("m", 1), Err(CommonsError::CreditOverflow));
    assert_eq!(ledger.entries.len(), 1);
    assert_eq!(ledger.balance("m"), i64::MAX);
    ledger.grant("owner", 10).unwrap();
    assert_eq!(ledger.settle_verified("task", "owner", "m", 10), Err(CommonsError::CreditOverflow));
    assert_eq!(ledger.entries.len(), 2);
    assert_eq!(ledger.balance("owner"), 10);
    assert_eq!(ledger.balance("m"), i64::MAX);
    assert_eq!(ledger.settle_verified("task", "m", "m", 10), Ok(true));
    assert_eq!(ledger.balance("m"), i64::MAX);
    assert_eq!(ledger.settle_verified("task", "owner", "node", 10), Ok(false));
    assert_eq!(ledger.settle_verified("other", "owner", "node", 10), Ok(true));
    assert_eq!(ledger.balance("node"), 10);
}

#[test]
fn settling_with_oneself_keeps_the_balance() {
    let mut ledger = CreditLedger::default();
    ledger.grant("both", 30).unwrap();
    assert_eq!(ledger.settle_verified("task", "both", "both", 30), Ok(true));
    assert_eq!(ledger.balance("both"), 30);
    assert_eq!(ledger.entries.len(), 3);
}

#[test]
fn package_digest_covers_the_manifest_json_and_the_module() {
    let key = SigningKey::generate(&mut OsRng);
    let package = SignedPackage::new(manifest(PrivacyTier::P0Public), DOUBLE.to_vec(), &key.to_bytes());
    let json = r#"{"name":"double","version":"1.0.0","runtime":"wasm-component","entrypoint":"double","minimum_privacy":"P0_PUBLIC","resources":{"cpu_threads":1,"memory_mib":64,"scratch_mib":16,"wall_time_seconds":30},"network_deny_all":true,"deterministic":true,"verification":"EXACT","reference_cost_ccu":10}"#;
    let mut payload = json.as_bytes().to_vec();
    payload.extend_from_slice(DOUBLE);
    assert_eq!(package.digest, digest(&payload));
    assert_eq!(package.maintainer, key.verifying_key().to_bytes());
    assert_eq!(package.verify(), Ok(()));

    let mut quoted = manifest(PrivacyTier::LocalOnly);
    quoted.name = "dou\"ble".into();
    quoted.network_deny_all = false;
    let package = SignedPackage::new(quoted, vec![1, 2], &key.to_bytes());
    let json = r#"{"name":"dou\"ble","version":"1.0.0","runtime":"wasm-component","entrypoint":"double","minimum_privacy":"LOCAL_ONLY","resources":{"cpu_threads":1,"memory_mib":64,"scratch_mib":16,"wall_time_seconds":30},"network_deny_all":false,"deterministic":true,"verification":"EXACT","reference_cost_ccu":10}"#;
    let mut payload = json.as_bytes().to_vec();
    payload.extend_from_slice(&[1, 2]);
    assert_eq!(package.digest, digest(&payload));
}

#[test]
fn manifest_strings_are_escaped_as_json() {
    let key = secret();
    let mut escaped = manifest(PrivacyTier::P0Public);
    escaped.name = "a\\b\u{8}\t\n\u{c}\r\u{1}\u{1f} \u{7f}é/".into();
    let package = SignedPackage::new(escaped, vec![9], &key);
    let name_json = "\"a\\\\b\\b\\t\\n\\f\\r\\u0001\\u001f \u{7f}é/\"";
    let rest = r#","version":"1.0.0","runtime":"wasm-component","entrypoint":"double","minimum_privacy":"P0_PUBLIC","resources":{"cpu_threads":1,"memory_mib":64,"scratch_mib":16,"wall_time_seconds":30},"network_deny_all":true,"deterministic":true,"verification":"EXACT","reference_cost_ccu":10}"#;
    let json = format!("{{\"name\":{name_json}{rest}");
    let mut payload = json.as_bytes().to_vec();
    payload.extend_from_slice(&[9]);
    assert_eq!(package.digest, digest(&payload));
}

#[test]
fn tampered_packages_fail_verification() {
    let package = SignedPackage::new(manifest(PrivacyTier::P0Public), DOUBLE.to_vec(), &secret());
    let mut wrong_digest = package.clone();
    wrong_digest.digest = digest(b"other");
    assert_eq!(wrong_digest.verify(), Err(CommonsError::InvalidPackage));
    let mut wrong_signature = package.clone();
    wrong_signature.signature[0] ^= 1;
    assert_eq!(wrong_signature.verify(), Err(CommonsError::InvalidPackage));
    let mut wrong_manifest = package.clone();
    wrong_manifest.manifest.reference_cost_ccu = 1;
    assert_eq!(wrong_manifest.verify(), Err(CommonsError::InvalidPackage));
    let mut wrong_maintainer = package.clone();
    wrong_maintainer.maintainer = SigningKey::generate(&mut OsRng).verifying_key().to_bytes();
    assert_eq!(wrong_maintainer.verify(), Err(CommonsError::InvalidPackage));
}

#[test]
fn approved_package_is_served_back() {
    let package = SignedPackage::new(manifest(PrivacyTier::P0Public), DOUBLE.to_vec(), &secret());
    let mut registry = Registry::default();
    let digest = registry.approve(package.clone()).unwrap();
    assert_eq!(digest, package.digest);
    let served = registry.get(&digest).unwrap();
    assert_eq!(served.module, package.module);
    assert_eq!(served.manifest, package.manifest);
    assert_eq!(served.signature, package.signature);
    assert_eq!(registry.get("blake3:other").unwrap_err(), CommonsError::UnapprovedPackage);
}

#[test]
fn submission_refusals() {
    let (registry, digest, mut coordinator) = scheduler();
    assert_eq!(
        coordinator.submit(job_for("blake3:unknown", PrivacyTier::P0Public), &registry),
        Err(CommonsError::UnapprovedPackage)
    );
    assert_eq!(
        coordinator.submit(job_for(&digest, PrivacyTier::LocalOnly), &registry),
        Err(CommonsError::PrivacyUnavailable)
    );
    let mut bigger = job_for(&digest, PrivacyTier::P0Public);
    bigger.resources.cpu_threads = 2;
    assert_eq!(coordinator.submit(bigger, &registry), Err(CommonsError::NodeUnavailable));
    let mut cheap = job_for(&digest, PrivacyTier::P0Public);
    cheap.max_reserved_ccu = 9;
    assert_eq!(coordinator.submit(cheap, &registry), Err(CommonsError::NodeUnavailable));
    assert!(coordinator.jobs.get("task").is_none());
    coordinator.submit(job_for(&digest, PrivacyTier::P1MinimizedShard), &registry).unwrap();
    assert_eq!(coordinator.jobs.get("task").unwrap().state, JobState::Queued);

    let mut strict = Registry::default();
    let strict_digest = strict
        .approve(SignedPackage::new(manifest(PrivacyTier::P1MinimizedShard), DOUBLE.to_vec(), &secret()))
        .unwrap();
    assert_eq!(
        coordinator.submit(job_for(&strict_digest, PrivacyTier::P0Public), &strict),
        Err(CommonsError::PrivacyUnavailable)
    );
}

#[test]
fn lease_refusals_and_identifiers() {
    let (_registry, _digest, mut coordinator) = queued_scheduler();
    assert_eq!(coordinator.lease("missing", "node", 0).unwrap_err(), CommonsError::InvalidLease);
    assert_eq!(coordinator.lease("task", "missing", 0).unwrap_err(), CommonsError::NodeUnavailable);
    let mut drained = node("node", PrivacyTier::P1MinimizedShard);
    drained.drained = true;
    coordinator.register_node(drained);
    assert_eq!(coordinator.lease("task", "node", 0).unwrap_err(), CommonsError::NodeUnavailable);
    let mut small = node("node", PrivacyTier::P1MinimizedShard);
    small.maximum.memory_mib = 63;
    coordinator.register_node(small);
    assert_eq!(coordinator.lease("task", "node", 0).unwrap_err(), CommonsError::NodeUnavailable);
    coordinator.register_node(node("node", PrivacyTier::P1MinimizedShard));
    let first = coordinator.lease("task", "node", 7).unwrap();
    assert_eq!(first.id, "lease-1");
    assert_eq!(first.job_id, "task");
    assert_eq!(first.node_id, "node");
    assert_eq!(first.expires_at, 307);
    assert_eq!(coordinator.jobs.get("task").unwrap().state, JobState::Leased);
    let second = coordinator.lease("task", "node", 8).unwrap();
    assert_eq!(second.id, "lease-2");
}

#[test]
fn weaker_node_never_gets_a_stronger_job() {
    let (registry, digest, mut coordinator) = scheduler();
    coordinator.submit(job_for(&digest, PrivacyTier::P1MinimizedShard), &registry).unwrap();
    coordinator.register_node(node("public-node", PrivacyTier::P0Public));
    assert_eq!(coordinator.lease("task", "public-node", 0).unwrap_err(), CommonsError::NodeUnavailable);
    assert!(coordinator.lease("task", "node", 0).is_ok());
}

#[test]
fn lease_expiry_rules() {
    let (_registry, _digest, mut coordinator) = queued_scheduler();
    let lease = coordinator.lease("task", "node", 0).unwrap();
    assert_eq!(coordinator.expire_lease(&lease.id, 299), Err(CommonsError::InvalidLease));
    assert_eq!(coordinator.jobs.get("task").unwrap().state, JobState::Leased);
    assert_eq!(coordinator.expire_lease(&lease.id, 300), Ok(()));
    assert_eq!(coordinator.jobs.get("task").unwrap().state, JobState::Queued);
    assert_eq!(coordinator.expire_lease(&lease.id, 300), Err(CommonsError::InvalidLease));
    assert_eq!(coordinator.verify_exact(&lease, 42), Err(CommonsError::InvalidLease));
    assert_eq!(coordinator.jobs.get("task").unwrap().state, JobState::Queued);
    let lease = coordinator.lease("task", "node", 1000).unwrap();
    assert_eq!(coordinator.expire_lease(&lease.id, 1300), Ok(()));
    assert_eq!(coordinator.jobs.get("task").unwrap().state, JobState::Queued);
    assert_eq!(coordinator.expire_lease("lease-99", 5000), Err(CommonsError::InvalidLease));
    let lease = coordinator.lease("task", "node", 2000).unwrap();
    coordinator.verify_exact(&lease, 42).unwrap();
    assert_eq!(coordinator.expire_lease(&lease.id, 9999), Ok(()));
    assert_eq!(coordinator.jobs.get("task").unwrap().state, JobState::Verified);
}

#[test]
fn early_expiry_leaves_the_lease_usable() {
    let (_registry, _digest, mut coordinator) = queued_scheduler();
    let lease = coordinator.lease("task", "node", 0).unwrap();
    assert_eq!(coordinator.expire_lease(&lease.id, 10), Err(CommonsError::InvalidLease));
    assert_eq!(coordinator.verify_exact(&lease, 41), Err(CommonsError::VerificationFailed));
    assert_eq!(coordinator.jobs.get("task").unwrap().state, JobState::Leased);
    assert_eq!(coordinator.verify_exact(&lease, 42), Ok(()));
    assert_eq!(coordinator.jobs.get("task").unwrap().state, JobState::Verified);
}

#[test]
fn lease_for_another_job_verifies_nothing() {
    let (registry, digest, mut coordinator) = queued_scheduler();
    let other = Job { id: "other".into(), expected_output: 7, ..job_for(&digest, PrivacyTier::P0Public) };
    coordinator.submit(other, &registry).unwrap();
    let mut forged = coordinator.lease("task", "node", 0).unwrap();
    forged.job_id = "other".into();
    assert_eq!(coordinator.verify_exact(&forged, 7), Err(CommonsError::InvalidLease));
    assert_eq!(coordinator.jobs.get("other").unwrap().state, JobState::Queued);
    assert_eq!(coordinator.jobs.get("task").unwrap().state, JobState::Leased);
}

#[test]
fn forged_lease_is_refused() {
    let (_registry, _digest, mut coordinator) = queued_scheduler();
    let mut lease = coordinator.lease("task", "node", 0).unwrap();
    lease.id = "lease-7".into();
    assert_eq!(coordinator.verify_exact(&lease, 42), Err(CommonsError::InvalidLease));
    lease.id = "lease-1".into();
    lease.job_id = "other".into();
    assert_eq!(coordinator.verify_exact(&lease, 42), Err(CommonsError::InvalidLease));
}

#[test]
fn request_window_rules() {
    let mut coordinator = Coordinator::default();
    assert_eq!(coordinator.accept_request("early", 151, 200, 150), Err(CommonsError::ReplayRejected));
    assert_eq!(coordinator.accept_request("late", 100, 149, 150), Err(CommonsError::ReplayRejected));
    assert_eq!(coordinator.accept_request("long", 100, 401, 150), Err(CommonsError::ReplayRejected));
    assert_eq!(coordinator.accept_request("long", 100, 400, 150), Ok(()));
    assert_eq!(coordinator.accept_request("edge", 150, 150, 150), Ok(()));
    assert_eq!(coordinator.accept_request("edge", 0, 10_000, 150), Err(CommonsError::ReplayRejected));
    assert_eq!(coordinator.accept_request("early", 100, 200, 150), Ok(()));
    assert_eq!(coordinator.accept_request("early", 100, 200, 150), Err(CommonsError::ReplayRejected));
}

#[test]
fn tier_names_and_disclosures() {
    assert_eq!(PrivacyTier::from_name("P0"), Some(PrivacyTier::P0Public));
    assert_eq!(PrivacyTier::from_name("p1"), Some(PrivacyTier::P1MinimizedShard));
    assert_eq!(PrivacyTier::from_name("p2"), Some(PrivacyTier::P2AttestedCpu));
    assert_eq!(PrivacyTier::from_name("P3"), Some(PrivacyTier::P3AttestedAccelerator));
    assert_eq!(PrivacyTier::from_name("p4"), Some(PrivacyTier::P4Cryptographic));
    assert_eq!(PrivacyTier::from_name("Local_Only"), Some(PrivacyTier::LocalOnly));
    assert_eq!(PrivacyTier::from_name("P5"), None);
    assert_eq!(PrivacyTier::from_name(""), None);
    assert_eq!(PrivacyTier::from_name("P0 "), None);
    assert!(PrivacyTier::P0Public.disclosure().contains("may read"));
    assert!(!PrivacyTier::P2AttestedCpu.disclosure().contains("may read"));
    assert_eq!(PrivacyTier::LocalOnly.disclosure(), "The job never leaves the requester's machine.");
    assert!(PrivacyTier::P0Public.remote_supported());
    assert!(PrivacyTier::P1MinimizedShard.remote_supported());
    assert!(!PrivacyTier::P3AttestedAccelerator.remote_supported());
    assert!(!PrivacyTier::LocalOnly.remote_supported());
    assert!(PrivacyTier::P0Public < PrivacyTier::P1MinimizedShard);
    assert_eq!(PrivacyTier::LocalOnly.rank(), 5);
}

#[test]
fn runtime_refuses_imports_and_reports_failures() {
    assert_eq!(check_no_imports(0), Ok(()));
    assert_eq!(check_no_imports(3), Err(CommonsError::Unsupported));
    let runtime = WasmRuntime::new().unwrap();
    assert!(matches!(runtime.execute(b"not wasm", "double", 1, 10_000), Err(CommonsError::Runtime(_))));
    assert!(matches!(runtime.execute(DOUBLE, "missing", 1, 10_000), Err(CommonsError::Runtime(_))));
    let spin = br#"(module (func (export "spin") (param i32) (result i32) (loop $l (br $l)) local.get 0))"#;
    assert!(matches!(runtime.execute(spin, "spin", 1, 1_000), Err(CommonsError::Runtime(_))));
    let outcome = runtime.execute(DOUBLE, "double", -4, 10_000).unwrap();
    assert_eq!(outcome.output, -8);
    assert_eq!(outcome.module_imports, 0);
}

#[test]
fn demo_runs_end_to_end() {
    let key = SigningKey::generate(&mut OsRng);
    let evidence = run_demo(&key.to_bytes()).unwrap();
    assert_eq!(evidence.output, 42);
    assert_eq!(evidence.requester_ccu, 3590);
    assert_eq!(evidence.node_ccu, 10);
    assert_eq!(evidence.lease_id, "lease-1");
    assert!(evidence.audit_root_signature_valid);
    assert_eq!(evidence.host_imports_exposed, 0);
    let package = SignedPackage::new(
        WorkloadManifest { name: "public-double".into(), ..manifest(PrivacyTier::P0Public) },
        DOUBLE.to_vec(),
        &key.to_bytes(),
    );
    assert_eq!(evidence.workload_digest, package.digest);
    let mut audit = AuditChain::default();
    audit.record("WORKLOAD_APPROVED", "local-community", "MVP_DEMO");
    audit.record("RESULT_APPROVED", "local-verifier", "EXACT_MATCH");
    assert_eq!(evidence.audit_root, audit.root());
}

#[test]
fn demo_conclusion_depends_on_the_output_alone() {
    let (_registry, digest, mut coordinator) = queued_scheduler();
    let lease = coordinator.lease("task", "node", 0).unwrap();
    let key = secret();
    let wrong = ExecutionOutcome { output: 41, module_imports: 0 };
    assert_eq!(
        conclude_demo(&mut coordinator, &lease, digest.clone(), 10, &key, wrong).unwrap_err(),
        CommonsError::VerificationFailed
    );
    assert_eq!(coordinator.jobs.get("task").unwrap().state, JobState::Leased);
    let right = ExecutionOutcome { output: 42, module_imports: 0 };
    assert_eq!(
        conclude_demo(&mut coordinator, &lease, digest.clone(), 3_601, &key, right.clone()).unwrap_err(),
        CommonsError::InsufficientCredit
    );
    assert_eq!(
        conclude_demo(&mut coordinator, &lease, digest.clone(), u64::MAX, &key, right.clone()).unwrap_err(),
        CommonsError::CreditOverflow
    );
    let evidence = conclude_demo(&mut coordinator, &lease, digest.clone(), 25, &key, right).unwrap();
    assert_eq!(coordinator.jobs.get("task").unwrap().state, JobState::Verified);
    assert_eq!(evidence.workload_digest, digest);
    assert_eq!(evidence.lease_id, "lease-1");
    assert_eq!(evidence.output, 42);
    assert_eq!(evidence.requester_ccu, 3575);
    assert_eq!(evidence.node_ccu, 25);
    assert!(evidence.audit_root_signature_valid);
    assert_eq!(evidence.host_imports_exposed, 0);
    let mut audit = AuditChain::default();
    audit.record("WORKLOAD_APPROVED", "local-community", "MVP_DEMO");
    audit.record("RESULT_APPROVED", "local-verifier", "EXACT_MATCH");
    assert_eq!(evidence.audit_root, audit.root());
}
