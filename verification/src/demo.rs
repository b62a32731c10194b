//! A complete local public-data job, end to end: a signed Wasm workload is
//! approved, leased to a local node, run without host capabilities, verified
//! exactly, settled at its fixed cost and recorded in a signed audit chain.
use vstd::prelude::*;
use vstd::string::*;
use vstd::utf8::encode_utf8;
use crate::CommonsError;
use crate::audit::{audit_hash, genesis, AuditChain};
use crate::coordinator::{lease_id_for, Coordinator, Job, JobState, Lease, Node, PrivacyTier, ResourceLimits};
use crate::crypto::{ed25519_public_key, spec_digest};
use crate::ledger::CreditLedger;
use crate::registry::{payload_of, ManifestView, Registry, SignedPackage, WorkloadManifest};
use crate::runtime::{wasm_import_count_of, wasm_outputs_of, ExecutionOutcome, WasmRuntime};

verus! {

/// The resources the demo workload declares and the demo node offers.
pub open spec fn demo_limits() -> ResourceLimits {
    ResourceLimits { cpu_threads: 1, memory_mib: 64, scratch_mib: 16, wall_time_seconds: 30 }
}

/// The demo workload: a Wasm text module exporting `double`.
pub open spec fn demo_module() -> Seq<u8> {
    encode_utf8(
        "(module (func (export \"double\") (param i32) (result i32) local.get 0 i32.const 2 i32.mul))"@,
    )
}

/// The demo workload's manifest.
pub open spec fn demo_manifest() -> ManifestView {
    ManifestView {
        name: "public-double"@,
        version: "1.0.0"@,
        runtime: "wasm-component"@,
        entrypoint: "double"@,
        minimum_privacy: PrivacyTier::P0Public,
        resources: demo_limits(),
        network_deny_all: true,
        deterministic: true,
        verification: "EXACT"@,
        reference_cost_ccu: 10,
    }
}

/// The audit root after the demo's two records.
pub open spec fn demo_audit_root() -> Seq<char> {
    audit_hash(
        2,
        "RESULT_APPROVED"@,
        "local-verifier"@,
        "EXACT_MATCH"@,
        audit_hash(1, "WORKLOAD_APPROVED"@, "local-community"@, "MVP_DEMO"@, genesis()),
    )
}

/// What the demo shows: the workload's digest, the lease, the verified
/// output, both credit balances, the audit root and whether its signature
/// verifies, and how many host imports the workload was given.
#[derive(Clone, Debug)]
pub struct DemoEvidence {
    pub workload_digest: String,
    pub lease_id: String,
    pub output: i32,
    pub requester_ccu: i64,
    pub node_ccu: i64,
    pub audit_root: String,
    pub audit_root_signature_valid: bool,
    pub host_imports_exposed: usize,
}

/// What follows the Wasm run of the demo job: the run's outcome is verified
/// exactly against the leased job (which expects 42); then the requester is
/// granted 3600 credits, the task is settled at `reference_cost` from the
/// requester to `node-local`, the approval and the result are recorded in a
/// fresh audit chain, and its root is signed with `secret` and checked.
/// An output other than 42 is `VerificationFailed` and changes nothing; a
/// cost beyond the signed 64-bit range is `CreditOverflow`, one beyond the
/// 3600 granted `InsufficientCredit`.
pub fn conclude_demo(
    coordinator: &mut Coordinator,
    lease: &Lease,
    workload_digest: String,
    reference_cost: u64,
    secret: &[u8; 32],
    outcome: ExecutionOutcome,
) -> (r: Result<DemoEvidence, CommonsError>)
    requires
        old(coordinator)@.leases.contains_key(lease.id@),
        old(coordinator)@.leases[lease.id@].job_id == lease.job_id@,
        old(coordinator)@.jobs.contains_key(lease.job_id@),
        old(coordinator)@.jobs[lease.job_id@].expected_output == 42,
    ensures
        outcome.output != 42 ==> r == Err::<DemoEvidence, CommonsError>(CommonsError::VerificationFailed)
            && final(coordinator)@ == old(coordinator)@,
        outcome.output == 42 ==> final(coordinator)@ == old(coordinator)@.verify_exact(lease@, 42).0,
        outcome.output == 42 && reference_cost > i64::MAX ==> r == Err::<DemoEvidence, CommonsError>(
            CommonsError::CreditOverflow,
        ),
        outcome.output == 42 && 3600 < reference_cost <= i64::MAX ==> r == Err::<DemoEvidence, CommonsError>(
            CommonsError::InsufficientCredit,
        ),
        outcome.output == 42 && reference_cost <= 3600 ==> match r {
            Ok(evidence) => {
                &&& evidence.workload_digest@ == workload_digest@
                &&& evidence.lease_id@ == lease.id@
                &&& evidence.output == 42
                &&& evidence.requester_ccu == 3600 - reference_cost
                &&& evidence.node_ccu == reference_cost
                &&& evidence.audit_root@ == demo_audit_root()
                &&& evidence.audit_root_signature_valid
                &&& evidence.host_imports_exposed == outcome.module_imports
            },
            Err(_) => false,
        },
{
    match coordinator.verify_exact(lease, outcome.output) {
        Ok(()) => {},
        Err(e) => return Err(e),
    }
    let mut ledger = CreditLedger::default();
    match ledger.grant("requester", 3_600) {
        Ok(()) => {},
        Err(e) => return Err(e),
    }
    proof {
        reveal_strlit("node-local");
        reveal_strlit("requester");
    }
    match ledger.settle_verified("task-demo", "requester", "node-local", reference_cost) {
        Ok(_) => {},
        Err(e) => return Err(e),
    }
    let mut audit = AuditChain::default();
    audit.record("WORKLOAD_APPROVED", "local-community", "MVP_DEMO");
    audit.record("RESULT_APPROVED", "local-verifier", "EXACT_MATCH");
    let signature = audit.sign_root(secret);
    let public = ed25519_public_key(secret);
    let audit_root_signature_valid = audit.verify_root(&public, &signature);
    Ok(
        DemoEvidence {
            workload_digest,
            lease_id: lease.id.clone(),
            output: outcome.output,
            requester_ccu: ledger.balance("requester"),
            node_ccu: ledger.balance("node-local"),
            audit_root: audit.root(),
            audit_root_signature_valid,
            host_imports_exposed: outcome.module_imports,
        },
    )
}

/// Runs the demo job with the maintainer's Ed25519 secret key. Every step
/// but the Wasm run is sure to succeed; the run can fail (`Runtime`, or
/// `Unsupported` for a module with imports) and a wrong output is refused
/// (`VerificationFailed`, only when Wasm semantics allows an output other
/// than 42 for `double` on 21 within 10 000 fuel). On success the output is 42, the requester holds
/// 3590 of its 3600 credits and the node 10, the lease is the first one
/// issued, no host import was exposed, and the signed audit root verifies.
pub fn run_demo(secret: &[u8; 32]) -> (r: Result<DemoEvidence, CommonsError>)
    ensures
        match r {
            Ok(evidence) => {
                &&& evidence.workload_digest@ == spec_digest(payload_of(demo_manifest(), demo_module()))
                &&& evidence.lease_id@ == lease_id_for(1)
                &&& evidence.output == 42
                &&& evidence.requester_ccu == 3590
                &&& evidence.node_ccu == 10
                &&& evidence.audit_root@ == demo_audit_root()
                &&& evidence.audit_root_signature_valid
                &&& evidence.host_imports_exposed == 0
                &&& wasm_import_count_of(demo_module()) == 0
                &&& wasm_outputs_of(demo_module(), "double"@, 21, 10_000).contains(42)
            },
            Err(e) => e is Runtime || (e is VerificationFailed && exists|o: i32|
                wasm_outputs_of(demo_module(), "double"@, 21, 10_000).contains(o) && o != 42) || (e is Unsupported
                && wasm_import_count_of(demo_module()) != 0),
        },
{
    let limits = ResourceLimits { cpu_threads: 1, memory_mib: 64, scratch_mib: 16, wall_time_seconds: 30 };
    let wat = "(module (func (export \"double\") (param i32) (result i32) local.get 0 i32.const 2 i32.mul))";
    let module = vstd::slice::slice_to_vec(wat.as_bytes());
    let manifest = WorkloadManifest {
        name: String::from_str("public-double"),
        version: String::from_str("1.0.0"),
        runtime: String::from_str("wasm-component"),
        entrypoint: String::from_str("double"),
        minimum_privacy: PrivacyTier::P0Public,
        resources: limits,
        network_deny_all: true,
        deterministic: true,
        verification: String::from_str("EXACT"),
        reference_cost_ccu: 10,
    };
    assert(manifest@ == demo_manifest());
    let package = SignedPackage::new(manifest, module, secret);
    let mut registry = Registry::default();
    let workload_digest = match registry.approve(package) {
        Ok(d) => d,
        Err(e) => return Err(e),
    };
    let mut coordinator = Coordinator::default();
    coordinator.register_node(
        Node {
            id: String::from_str("node-local"),
            maximum: limits,
            privacy: PrivacyTier::P1MinimizedShard,
            paused: false,
            drained: false,
            revoked: false,
        },
    );
    let job = Job {
        id: String::from_str("task-demo"),
        owner: String::from_str("requester"),
        workload_digest: workload_digest.clone(),
        privacy: PrivacyTier::P0Public,
        resources: limits,
        max_reserved_ccu: 10,
        expected_output: 42,
        state: JobState::Queued,
    };
    match coordinator.submit(job, &registry) {
        Ok(()) => {},
        Err(e) => return Err(e),
    }
    let lease = match coordinator.lease("task-demo", "node-local", 1_000) {
        Ok(l) => l,
        Err(e) => return Err(e),
    };
    let package = match registry.get(workload_digest.as_str()) {
        Ok(p) => p,
        Err(e) => return Err(e),
    };
    let runtime = match WasmRuntime::new() {
        Ok(rt) => rt,
        Err(e) => return Err(e),
    };
    let outcome = match runtime.execute(
        package.module.as_slice(),
        package.manifest.entrypoint.as_str(),
        21,
        10_000,
    ) {
        Ok(o) => o,
        Err(e) => return Err(e),
    };
    assert(wasm_outputs_of(demo_module(), "double"@, 21, 10_000).contains(outcome.output));
    conclude_demo(&mut coordinator, &lease, workload_digest, package.manifest.reference_cost_ccu, secret, outcome)
}

} // verus!
