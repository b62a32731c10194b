//! Safety-first domain core for a permissioned compute-sharing platform:
//! an approved-only workload registry, a fail-closed scheduler with leases,
//! a fixed-cost credit ledger, a hash-linked audit chain and a Wasm runtime
//! that exposes no host imports.
use vstd::prelude::*;

pub mod text;
pub mod crypto;
pub mod audit;
pub mod ledger;
pub mod coordinator;
pub mod registry;
pub mod runtime;
pub mod demo;

pub use audit::{AuditChain, AuditEvent};
pub use coordinator::{Coordinator, Job, JobState, Lease, Node, PrivacyTier, ResourceLimits};
pub use crypto::digest;
pub use ledger::{CreditLedger, LedgerEntry, LedgerKind};
pub use registry::{Registry, SignedPackage, WorkloadManifest};
pub use runtime::{ExecutionOutcome, WasmRuntime};

verus! {

/// Every way an operation of this library can be refused.
#[derive(Debug, Clone, PartialEq, Eq)]
pub enum CommonsError {
    UnapprovedPackage,
    InvalidPackage,
    PrivacyUnavailable,
    NodeUnavailable,
    ReplayRejected,
    InvalidLease,
    VerificationFailed,
    InsufficientCredit,
    TransferForbidden,
    CreditOverflow,
    Unsupported,
    Runtime(String),
}

} // verus!
