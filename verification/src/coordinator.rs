//! The fail-closed scheduler: privacy tiers, nodes, jobs, expiring leases,
//! replay rejection and exact result verification.
use vstd::prelude::*;
use vstd::string::*;
use vstd::hash_map::StringHashMap;
use vstd::hash_set::StringHashSet;
use crate::CommonsError;
use crate::text::{decimal, decimal_string, lemma_decimal_injective};
use crate::registry::{lookup, Registry, SignedPackage};

verus! {

/// How much a job's plaintext is protected from the node that runs it.
/// Tiers are ordered from least to most protection.
#[derive(Clone, Copy, Debug, PartialEq, Eq, PartialOrd, Ord)]
pub enum PrivacyTier {
    P0Public,
    P1MinimizedShard,
    P2AttestedCpu,
    P3AttestedAccelerator,
    P4Cryptographic,
    LocalOnly,
}

impl PrivacyTier {
    /// The tier's position in the declared order (the order of `Ord`).
    pub open spec fn spec_rank(self) -> nat {
        match self {
            PrivacyTier::P0Public => 0,
            PrivacyTier::P1MinimizedShard => 1,
            PrivacyTier::P2AttestedCpu => 2,
            PrivacyTier::P3AttestedAccelerator => 3,
            PrivacyTier::P4Cryptographic => 4,
            PrivacyTier::LocalOnly => 5,
        }
    }

    /// The tier's position in the declared order.
    pub fn rank(self) -> (r: u8)
        ensures
            r == self.spec_rank(),
    {
        match self {
            PrivacyTier::P0Public => 0,
            PrivacyTier::P1MinimizedShard => 1,
            PrivacyTier::P2AttestedCpu => 2,
            PrivacyTier::P3AttestedAccelerator => 3,
            PrivacyTier::P4Cryptographic => 4,
            PrivacyTier::LocalOnly => 5,
        }
    }

    /// Only the public and minimized-shard tiers can be run on a remote node.
    pub open spec fn spec_remote_supported(self) -> bool {
        self is P0Public || self is P1MinimizedShard
    }

    /// Whether this tier can be scheduled on a remote node.
    #[verifier::when_used_as_spec(spec_remote_supported)]
    pub fn remote_supported(self) -> (r: bool)
        ensures
            r == self.spec_remote_supported(),
    {
        match self {
            PrivacyTier::P0Public | PrivacyTier::P1MinimizedShard => true,
            _ => false,
        }
    }

    /// The disclosure shown before a job of this tier is submitted.
    pub open spec fn spec_disclosure(self) -> Seq<char> {
        match self {
            PrivacyTier::P0Public => "The node operator may read the plaintext input and model."@,
            PrivacyTier::P1MinimizedShard => "The node operator may read this minimized shard."@,
            PrivacyTier::P2AttestedCpu => "Plaintext requires an attested CPU environment (not in v0.1)."@,
            PrivacyTier::P3AttestedAccelerator =>
                "Plaintext requires attested CPU and accelerator environments (not in v0.1)."@,
            PrivacyTier::P4Cryptographic =>
                "Only an approved cryptographic plan may operate on ciphertext (not in v0.1)."@,
            PrivacyTier::LocalOnly => "The job never leaves the requester's machine."@,
        }
    }

    /// The disclosure shown before a job of this tier is submitted.
    pub fn disclosure(self) -> (s: &'static str)
        ensures
            s@ == self.spec_disclosure(),
    {
        match self {
            PrivacyTier::P0Public => "The node operator may read the plaintext input and model.",
            PrivacyTier::P1MinimizedShard => "The node operator may read this minimized shard.",
            PrivacyTier::P2AttestedCpu => "Plaintext requires an attested CPU environment (not in v0.1).",
            PrivacyTier::P3AttestedAccelerator =>
                "Plaintext requires attested CPU and accelerator environments (not in v0.1).",
            PrivacyTier::P4Cryptographic =>
                "Only an approved cryptographic plan may operate on ciphertext (not in v0.1).",
            PrivacyTier::LocalOnly => "The job never leaves the requester's machine.",
        }
    }
}

/// Resources a job declares or a node offers at most.
#[derive(Clone, Copy, Debug, PartialEq, Eq, Structural)]
pub struct ResourceLimits {
    pub cpu_threads: u16,
    pub memory_mib: u32,
    pub scratch_mib: u32,
    pub wall_time_seconds: u32,
}

/// `required` is within `maximum` in every dimension.
pub open spec fn spec_fits(required: ResourceLimits, maximum: ResourceLimits) -> bool {
    &&& required.cpu_threads <= maximum.cpu_threads
    &&& required.memory_mib <= maximum.memory_mib
    &&& required.scratch_mib <= maximum.scratch_mib
    &&& required.wall_time_seconds <= maximum.wall_time_seconds
}

fn fits(required: ResourceLimits, maximum: ResourceLimits) -> (r: bool)
    ensures
        r == spec_fits(required, maximum),
{
    required.cpu_threads <= maximum.cpu_threads && required.memory_mib <= maximum.memory_mib
        && required.scratch_mib <= maximum.scratch_mib && required.wall_time_seconds
        <= maximum.wall_time_seconds
}

} // verus!

verus! {

/// A worker node and the controls its operator holds over it.
#[derive(Clone, Debug)]
pub struct Node {
    pub id: String,
    pub maximum: ResourceLimits,
    pub privacy: PrivacyTier,
    pub paused: bool,
    pub drained: bool,
    pub revoked: bool,
}

/// Where a job stands.
#[derive(Clone, Copy, Debug, PartialEq, Eq, Structural)]
pub enum JobState {
    Queued,
    Leased,
    Verified,
}

/// A job submitted for remote execution, with the output it must reproduce.
#[derive(Clone, Debug)]
pub struct Job {
    pub id: String,
    pub owner: String,
    pub workload_digest: String,
    pub privacy: PrivacyTier,
    pub resources: ResourceLimits,
    pub max_reserved_ccu: u64,
    pub expected_output: i32,
    pub state: JobState,
}

/// A time-bound assignment of a job to a node.
#[derive(Clone, Debug)]
pub struct Lease {
    pub id: String,
    pub job_id: String,
    pub node_id: String,
    pub expires_at: u64,
}

/// A lease as plain values.
pub struct LeaseView {
    pub id: Seq<char>,
    pub job_id: Seq<char>,
    pub node_id: Seq<char>,
    pub expires_at: nat,
}

impl View for Lease {
    type V = LeaseView;

    open spec fn view(&self) -> LeaseView {
        LeaseView { id: self.id@, job_id: self.job_id@, node_id: self.node_id@, expires_at: self.expires_at as nat }
    }
}

/// A lease result as plain values.
pub open spec fn lease_result_view(r: Result<Lease, CommonsError>) -> Result<LeaseView, CommonsError> {
    match r {
        Ok(l) => Ok(l@),
        Err(e) => Err(e),
    }
}

/// How long a lease lasts, in the same unit as `now`.
pub open spec fn lease_duration() -> nat {
    300
}

/// The longest validity window a signed request may claim.
pub open spec fn request_window() -> nat {
    300
}

/// The identifier of the `n`-th lease issued: `lease-n`.
pub open spec fn lease_id_for(n: nat) -> Seq<char> {
    "lease-"@ + decimal(n)
}

/// The scheduler as plain values: jobs, nodes and live leases by
/// identifier, the request identifiers already seen, and the number of
/// leases issued so far.
#[verifier::ext_equal]
pub struct CoordinatorModel {
    pub jobs: Map<Seq<char>, Job>,
    pub nodes: Map<Seq<char>, Node>,
    pub leases: Map<Seq<char>, LeaseView>,
    pub seen: Set<Seq<char>>,
    pub sequence: nat,
}

impl CoordinatorModel {
    /// Registering a node files it under its identifier, replacing any node filed there.
    pub open spec fn register_node(self, node: Node) -> CoordinatorModel {
        CoordinatorModel { nodes: self.nodes.insert(node.id@, node), ..self }
    }

    /// Submitting a job: the package must be served by the registry; the
    /// job's tier must be remote-capable and no weaker than the package asks
    /// (`PrivacyUnavailable`, never a downgrade); its resources must be those
    /// of the package and its reservation must cover the package's cost
    /// (`NodeUnavailable`). An admitted job is filed as queued.
    pub open spec fn submit(self, job: Job, approved: Map<Seq<char>, SignedPackage>) -> (
        CoordinatorModel,
        Result<(), CommonsError>,
    ) {
        match lookup(approved, job.workload_digest@) {
            Err(e) => (self, Err(e)),
            Ok(package) => {
                if !job.privacy.spec_remote_supported() || job.privacy.spec_rank()
                    < package.manifest.minimum_privacy.spec_rank() {
                    (self, Err(CommonsError::PrivacyUnavailable))
                } else if job.resources != package.manifest.resources || job.max_reserved_ccu
                    < package.manifest.reference_cost_ccu {
                    (self, Err(CommonsError::NodeUnavailable))
                } else {
                    (
                        CoordinatorModel {
                            jobs: self.jobs.insert(job.id@, Job { state: JobState::Queued, ..job }),
                            ..self
                        },
                        Ok(()),
                    )
                }
            },
        }
    }

    /// The node may take the job: it is neither paused, drained nor revoked,
    /// its tier is no weaker than the job's, and the job's resources fit it.
    pub open spec fn node_accepts(node: Node, job: Job) -> bool {
        &&& !node.paused
        &&& !node.drained
        &&& !node.revoked
        &&& node.privacy.spec_rank() >= job.privacy.spec_rank()
        &&& spec_fits(job.resources, node.maximum)
    }

    /// A lease of this job to this node would be issued.
    pub open spec fn lease_would_issue(self, job_id: Seq<char>, node_id: Seq<char>) -> bool {
        &&& self.jobs.contains_key(job_id)
        &&& self.nodes.contains_key(node_id)
        &&& Self::node_accepts(self.nodes[node_id], self.jobs[job_id])
    }

    /// Leasing a job to a node: an unknown job is `InvalidLease`, an unknown
    /// or unsuitable node `NodeUnavailable`. Otherwise the next lease is
    /// issued, expiring `lease_duration()` after `now`, and the job is leased.
    pub open spec fn lease(self, job_id: Seq<char>, node_id: Seq<char>, now: nat) -> (
        CoordinatorModel,
        Result<LeaseView, CommonsError>,
    ) {
        if !self.jobs.contains_key(job_id) {
            (self, Err(CommonsError::InvalidLease))
        } else if !self.nodes.contains_key(node_id) {
            (self, Err(CommonsError::NodeUnavailable))
        } else if !Self::node_accepts(self.nodes[node_id], self.jobs[job_id]) {
            (self, Err(CommonsError::NodeUnavailable))
        } else {
            let n = self.sequence + 1;
            let lease = LeaseView {
                id: lease_id_for(n),
                job_id,
                node_id,
                expires_at: now + lease_duration(),
            };
            (
                CoordinatorModel {
                    jobs: self.jobs.insert(job_id, Job { state: JobState::Leased, ..self.jobs[job_id] }),
                    leases: self.leases.insert(lease.id, lease),
                    sequence: n,
                    ..self
                },
                Ok(lease),
            )
        }
    }

    /// Accepting a signed request: it is refused as a replay when it is not
    /// yet valid, already expired, claims a window longer than
    /// `request_window()`, or its identifier was seen before. An accepted
    /// identifier is remembered.
    pub open spec fn accept_request(self, request_id: Seq<char>, issued_at: nat, expires_at: nat, now: nat) -> (
        CoordinatorModel,
        Result<(), CommonsError>,
    ) {
        if issued_at > now || expires_at < now || (if expires_at >= issued_at {
            expires_at - issued_at
        } else {
            0
        }) > request_window() || self.seen.contains(request_id) {
            (self, Err(CommonsError::ReplayRejected))
        } else {
            (CoordinatorModel { seen: self.seen.insert(request_id), ..self }, Ok(()))
        }
    }

    /// Expiring a lease: an unknown lease, one that is not yet due, or one
    /// whose job is gone is `InvalidLease`, and nothing changes (a lease that
    /// is not yet due stays live). A due lease is withdrawn; a job that was
    /// not verified goes back to the queue, a verified job stays verified.
    pub open spec fn expire_lease(self, lease_id: Seq<char>, now: nat) -> (CoordinatorModel, Result<(), CommonsError>) {
        if !self.leases.contains_key(lease_id) {
            (self, Err(CommonsError::InvalidLease))
        } else {
            let lease = self.leases[lease_id];
            let withdrawn = CoordinatorModel { leases: self.leases.remove(lease_id), ..self };
            if lease.expires_at > now {
                (self, Err(CommonsError::InvalidLease))
            } else if !self.jobs.contains_key(lease.job_id) {
                (self, Err(CommonsError::InvalidLease))
            } else if self.jobs[lease.job_id].state != JobState::Verified {
                (
                    CoordinatorModel {
                        jobs: self.jobs.insert(
                            lease.job_id,
                            Job { state: JobState::Queued, ..self.jobs[lease.job_id] },
                        ),
                        ..withdrawn
                    },
                    Ok(()),
                )
            } else {
                (withdrawn, Ok(()))
            }
        }
    }

    /// Verifying a result exactly: the lease must be live and name the job it
    /// was issued for, and that job must be known (`InvalidLease`); the output
    /// must equal the job's expected output (`VerificationFailed`). A verified
    /// job is marked verified. A refused call changes nothing.
    pub open spec fn verify_exact(self, lease: LeaseView, output: i32) -> (CoordinatorModel, Result<(), CommonsError>) {
        if !self.leases.contains_key(lease.id) {
            (self, Err(CommonsError::InvalidLease))
        } else if self.leases[lease.id].job_id != lease.job_id {
            (self, Err(CommonsError::InvalidLease))
        } else if !self.jobs.contains_key(lease.job_id) {
            (self, Err(CommonsError::InvalidLease))
        } else if output != self.jobs[lease.job_id].expected_output {
            (self, Err(CommonsError::VerificationFailed))
        } else {
            (
                CoordinatorModel {
                    jobs: self.jobs.insert(lease.job_id, Job { state: JobState::Verified, ..self.jobs[lease.job_id] }),
                    ..self
                },
                Ok(()),
            )
        }
    }
}

/// The scheduler: jobs and nodes by identifier, live leases, the request
/// identifiers already seen, and a counter for lease identifiers.
pub struct Coordinator {
    pub jobs: StringHashMap<Job>,
    pub nodes: StringHashMap<Node>,
    leases: StringHashMap<Lease>,
    seen_requests: StringHashSet,
    sequence: u64,
}

impl View for Coordinator {
    type V = CoordinatorModel;

    closed spec fn view(&self) -> CoordinatorModel {
        CoordinatorModel {
            jobs: self.jobs@,
            nodes: self.nodes@,
            leases: self.leases@.map_values(|l: Lease| l@),
            seen: self.seen_requests@,
            sequence: self.sequence as nat,
        }
    }
}

impl Default for Coordinator {
    fn default() -> (c: Self)
        ensures
            c@.jobs.is_empty(),
            c@.nodes.is_empty(),
            c@.leases.is_empty(),
            c@.seen.is_empty(),
            c@.sequence == 0,
            leases_numbered(c@),
    {
        let c = Coordinator {
            jobs: StringHashMap::new(),
            nodes: StringHashMap::new(),
            leases: StringHashMap::new(),
            seen_requests: StringHashSet::new(),
            sequence: 0,
        };
        assert(c@.leases =~= Map::empty());
        c
    }
}

fn copy_job(job: &Job) -> (c: Job)
    ensures
        c == *job,
{
    Job {
        id: job.id.clone(),
        owner: job.owner.clone(),
        workload_digest: job.workload_digest.clone(),
        privacy: job.privacy,
        resources: job.resources,
        max_reserved_ccu: job.max_reserved_ccu,
        expected_output: job.expected_output,
        state: job.state,
    }
}

fn copy_lease(lease: &Lease) -> (c: Lease)
    ensures
        c == *lease,
{
    Lease {
        id: lease.id.clone(),
        job_id: lease.job_id.clone(),
        node_id: lease.node_id.clone(),
        expires_at: lease.expires_at,
    }
}

impl Coordinator {
    /// Files a node under its identifier, replacing any node filed there.
    pub fn register_node(&mut self, node: Node)
        ensures
            final(self)@ == old(self)@.register_node(node),
    {
        self.nodes.insert(node.id.clone(), node);
    }

    /// Leases a job to a node; see `CoordinatorModel::lease`.
    pub fn lease(&mut self, job_id: &str, node_id: &str, now: u64) -> (r: Result<Lease, CommonsError>)
        requires
            old(self)@.lease_would_issue(job_id@, node_id@) ==> old(self)@.sequence < u64::MAX && now
                + lease_duration() <= u64::MAX,
        ensures
            (final(self)@, lease_result_view(r)) == old(self)@.lease(job_id@, node_id@, now as nat),
            leases_numbered(old(self)@) ==> leases_numbered(final(self)@),
            leases_numbered(old(self)@) && r is Ok ==> !old(self)@.leases.contains_key(r->Ok_0.id@),
    {
        proof {
            if leases_numbered(self@) {
                lemma_lease_keeps_leases_numbered(self@, job_id@, node_id@, now as nat);
                lemma_next_lease_id_is_fresh(self@);
            }
        }
        let ghost before = self@;
        let job = match self.jobs.get(job_id) {
            Some(j) => copy_job(j),
            None => return Err(CommonsError::InvalidLease),
        };
        let node = match self.nodes.get(node_id) {
            Some(n) => n,
            None => return Err(CommonsError::NodeUnavailable),
        };
        if node.paused || node.drained || node.revoked || node.privacy.rank() < job.privacy.rank() || !fits(
            job.resources,
            node.maximum,
        ) {
            return Err(CommonsError::NodeUnavailable);
        }
        self.sequence = self.sequence + 1;
        let mut id = String::from_str("lease-");
        id.append(decimal_string(self.sequence).as_str());
        let lease = Lease {
            id,
            job_id: String::from_str(job_id),
            node_id: String::from_str(node_id),
            expires_at: now + 300,
        };
        let mut leased = job;
        leased.state = JobState::Leased;
        self.jobs.insert(String::from_str(job_id), leased);
        let ghost leases_before = self.leases@;
        self.leases.insert(lease.id.clone(), copy_lease(&lease));
        proof {
            assert(self.leases@.map_values(|l: Lease| l@) =~= leases_before.map_values(|l: Lease| l@).insert(
                lease.id@,
                lease@,
            ));
            assert(self@ =~= before.lease(job_id@, node_id@, now as nat).0);
        }
        Ok(lease)
    }

    /// Accepts a signed request once; see `CoordinatorModel::accept_request`.
    pub fn accept_request(&mut self, request_id: &str, issued_at: u64, expires_at: u64, now: u64) -> (r: Result<
        (),
        CommonsError,
    >)
        ensures
            (final(self)@, r) == old(self)@.accept_request(
                request_id@,
                issued_at as nat,
                expires_at as nat,
                now as nat,
            ),
    {
        if issued_at > now || expires_at < now || expires_at.saturating_sub(issued_at) > 300
            || !self.seen_requests.insert(String::from_str(request_id)) {
            return Err(CommonsError::ReplayRejected);
        }
        Ok(())
    }

    /// Expires a lease; see `CoordinatorModel::expire_lease`.
    pub fn expire_lease(&mut self, lease_id: &str, now: u64) -> (r: Result<(), CommonsError>)
        ensures
            (final(self)@, r) == old(self)@.expire_lease(lease_id@, now as nat),
            leases_numbered(old(self)@) ==> leases_numbered(final(self)@),
    {
        proof {
            if leases_numbered(self@) {
                lemma_expire_keeps_leases_numbered(self@, lease_id@, now as nat);
            }
        }
        let ghost before = self@;
        let lease = match self.leases.get(lease_id) {
            Some(l) => copy_lease(l),
            None => return Err(CommonsError::InvalidLease),
        };
        if lease.expires_at > now {
            return Err(CommonsError::InvalidLease);
        }
        let job = match self.jobs.get(lease.job_id.as_str()) {
            Some(j) => copy_job(j),
            None => return Err(CommonsError::InvalidLease),
        };
        let ghost leases_before = self.leases@;
        self.leases.remove(lease_id);
        proof {
            assert(self.leases@.map_values(|l: Lease| l@) =~= leases_before.map_values(|l: Lease| l@).remove(
                lease_id@,
            ));
        }
        if job.state != JobState::Verified {
            let mut queued = job;
            queued.state = JobState::Queued;
            self.jobs.insert(lease.job_id.clone(), queued);
        }
        proof {
            assert(self@ =~= before.expire_lease(lease_id@, now as nat).0);
        }
        Ok(())
    }

    /// Accepts a result only when it equals the job's expected output; see
    /// `CoordinatorModel::verify_exact`.
    pub fn verify_exact(&mut self, lease: &Lease, output: i32) -> (r: Result<(), CommonsError>)
        ensures
            (final(self)@, r) == old(self)@.verify_exact(lease@, output),
    {
        let issued_for_job = match self.leases.get(lease.id.as_str()) {
            Some(issued) => issued.job_id == lease.job_id,
            None => return Err(CommonsError::InvalidLease),
        };
        if !issued_for_job {
            return Err(CommonsError::InvalidLease);
        }
        let job = match self.jobs.get(lease.job_id.as_str()) {
            Some(j) => copy_job(j),
            None => return Err(CommonsError::InvalidLease),
        };
        if output != job.expected_output {
            return Err(CommonsError::VerificationFailed);
        }
        let mut verified = job;
        verified.state = JobState::Verified;
        self.jobs.insert(lease.job_id.clone(), verified);
        Ok(())
    }

    /// Admits a job whose package the registry serves; see `CoordinatorModel::submit`.
    pub fn submit(&mut self, job: Job, registry: &Registry) -> (r: Result<(), CommonsError>)
        ensures
            (final(self)@, r) == old(self)@.submit(job, registry@),
    {
        let package = match registry.get(job.workload_digest.as_str()) {
            Ok(p) => p,
            Err(e) => return Err(e),
        };
        if !job.privacy.remote_supported() || job.privacy.rank() < package.manifest.minimum_privacy.rank() {
            return Err(CommonsError::PrivacyUnavailable);
        }
        if job.resources != package.manifest.resources || job.max_reserved_ccu
            < package.manifest.reference_cost_ccu {
            return Err(CommonsError::NodeUnavailable);
        }
        let mut queued = job;
        queued.state = JobState::Queued;
        self.jobs.insert(queued.id.clone(), queued);
        Ok(())
    }
}

} // verus!

verus! {

/// Every live lease is filed under its own identifier, which is `lease-k`
/// for some `k` no greater than the number of leases issued.
pub open spec fn leases_numbered(m: CoordinatorModel) -> bool {
    forall|id: Seq<char>| #[trigger]
        m.leases.contains_key(id) ==> m.leases[id].id == id && exists|k: nat|
            1 <= k <= m.sequence && id == #[trigger] lease_id_for(k)
}

proof fn lemma_lease_id_injective(a: nat, b: nat)
    requires
        lease_id_for(a) == lease_id_for(b),
    ensures
        a == b,
{
    let p = "lease-"@;
    assert(decimal(a) =~= lease_id_for(a).subrange(p.len() as int, lease_id_for(a).len() as int));
    assert(decimal(b) =~= lease_id_for(b).subrange(p.len() as int, lease_id_for(b).len() as int));
    lemma_decimal_injective(a, b);
}

/// The identifier of the next lease is not that of any live lease, so
/// issuing it never overwrites a lease.
pub proof fn lemma_next_lease_id_is_fresh(m: CoordinatorModel)
    requires
        leases_numbered(m),
    ensures
        !m.leases.contains_key(lease_id_for(m.sequence + 1)),
{
    let id = lease_id_for(m.sequence + 1);
    if m.leases.contains_key(id) {
        let k = choose|k: nat| 1 <= k <= m.sequence && id == #[trigger] lease_id_for(k);
        lemma_lease_id_injective(k, (m.sequence + 1) as nat);
    }
}

proof fn lemma_lease_keeps_leases_numbered(m: CoordinatorModel, job_id: Seq<char>, node_id: Seq<char>, now: nat)
    requires
        leases_numbered(m),
    ensures
        leases_numbered(m.lease(job_id, node_id, now).0),
{
    let n = m.lease(job_id, node_id, now).0;
    if m.lease(job_id, node_id, now).1 is Ok {
        assert forall|x: Seq<char>| #[trigger] n.leases.contains_key(x) implies n.leases[x].id == x && exists|
            k: nat,
        | 1 <= k <= n.sequence && x == #[trigger] lease_id_for(k) by {
            if x == lease_id_for(n.sequence) {
                assert(1 <= n.sequence <= n.sequence);
            } else {
                assert(m.leases.contains_key(x));
                let k = choose|k: nat| 1 <= k <= m.sequence && x == #[trigger] lease_id_for(k);
                assert(1 <= k <= n.sequence);
            }
        }
    }
}

proof fn lemma_expire_keeps_leases_numbered(m: CoordinatorModel, lease_id: Seq<char>, now: nat)
    requires
        leases_numbered(m),
    ensures
        leases_numbered(m.expire_lease(lease_id, now).0),
{
    let e = m.expire_lease(lease_id, now).0;
    assert forall|x: Seq<char>| #[trigger] e.leases.contains_key(x) implies e.leases[x].id == x && exists|k: nat|
        1 <= k <= e.sequence && x == #[trigger] lease_id_for(k) by {
        assert(m.leases.contains_key(x));
    }
}

/// Every operation of the scheduler keeps leases numbered, filed under
/// their own identifiers.
pub proof fn lemma_operations_keep_leases_numbered(
    m: CoordinatorModel,
    job: Job,
    approved: Map<Seq<char>, SignedPackage>,
    node: Node,
    id: Seq<char>,
    other: Seq<char>,
    lease: LeaseView,
    a: nat,
    b: nat,
    now: nat,
    output: i32,
)
    requires
        leases_numbered(m),
    ensures
        leases_numbered(m.register_node(node)),
        leases_numbered(m.submit(job, approved).0),
        leases_numbered(m.lease(id, other, now).0),
        leases_numbered(m.accept_request(id, a, b, now).0),
        leases_numbered(m.expire_lease(id, now).0),
        leases_numbered(m.verify_exact(lease, output).0),
{
    lemma_lease_keeps_leases_numbered(m, id, other, now);
    lemma_expire_keeps_leases_numbered(m, id, now);
}

/// A request identifier, once accepted, is refused as a replay ever after:
/// every operation keeps the identifiers seen, and a seen identifier is
/// refused whatever window it claims.
pub proof fn lemma_accepted_request_is_never_accepted_again(
    m: CoordinatorModel,
    id: Seq<char>,
    issued_at: nat,
    expires_at: nat,
    now: nat,
    job: Job,
    approved: Map<Seq<char>, SignedPackage>,
    node: Node,
    job_id: Seq<char>,
    node_id: Seq<char>,
    lease_id: Seq<char>,
    lease: LeaseView,
    other: Seq<char>,
    issued2: nat,
    expires2: nat,
    later: nat,
    output: i32,
)
    requires
        m.accept_request(id, issued_at, expires_at, now).1 is Ok,
    ensures
        ({
            let s = m.accept_request(id, issued_at, expires_at, now).0;
            &&& s.accept_request(id, issued2, expires2, later) == (s, Err::<(), CommonsError>(CommonsError::ReplayRejected))
            &&& s.register_node(node).seen.contains(id)
            &&& s.submit(job, approved).0.seen.contains(id)
            &&& s.lease(job_id, node_id, later).0.seen.contains(id)
            &&& s.accept_request(other, issued2, expires2, later).0.seen.contains(id)
            &&& s.expire_lease(lease_id, later).0.seen.contains(id)
            &&& s.verify_exact(lease, output).0.seen.contains(id)
        }),
{
}

/// Privacy is never downgraded: a job is admitted only at a remote-capable
/// tier no weaker than its package requires, and a lease is issued only to a
/// node that is not paused, drained or revoked, whose tier is no weaker than
/// the job's, and whose resources fit the job.
pub proof fn lemma_privacy_is_never_downgraded(
    m: CoordinatorModel,
    job: Job,
    approved: Map<Seq<char>, SignedPackage>,
    job_id: Seq<char>,
    node_id: Seq<char>,
    now: nat,
)
    ensures
        m.submit(job, approved).1 is Ok ==> {
            &&& lookup(approved, job.workload_digest@) is Ok
            &&& job.privacy.spec_remote_supported()
            &&& job.privacy.spec_rank() >= approved[job.workload_digest@].manifest.minimum_privacy.spec_rank()
        },
        m.lease(job_id, node_id, now).1 is Ok ==> {
            let node = m.nodes[node_id];
            let job = m.jobs[job_id];
            &&& m.nodes.contains_key(node_id)
            &&& !node.paused && !node.drained && !node.revoked
            &&& node.privacy.spec_rank() >= job.privacy.spec_rank()
            &&& spec_fits(job.resources, node.maximum)
        },
{
}

/// A verified result survives: expiring any lease, registering (pausing,
/// draining or revoking) any node, or accepting a request never takes a
/// verified job out of the verified state.
pub proof fn lemma_verified_jobs_stay_verified(
    m: CoordinatorModel,
    job_id: Seq<char>,
    lease_id: Seq<char>,
    node: Node,
    request_id: Seq<char>,
    issued_at: nat,
    expires_at: nat,
    now: nat,
)
    requires
        m.jobs.contains_key(job_id),
        m.jobs[job_id].state == JobState::Verified,
    ensures
        m.expire_lease(lease_id, now).0.jobs[job_id].state == JobState::Verified,
        m.register_node(node).jobs[job_id].state == JobState::Verified,
        m.accept_request(request_id, issued_at, expires_at, now).0.jobs[job_id].state == JobState::Verified,
{
}

/// A lease that has expired returns a job that was not verified to the
/// queue, so it can be leased again.
pub proof fn lemma_expired_lease_requeues_job(m: CoordinatorModel, lease_id: Seq<char>, now: nat)
    requires
        m.expire_lease(lease_id, now).1 is Ok,
        m.jobs[m.leases[lease_id].job_id].state != JobState::Verified,
    ensures
        m.expire_lease(lease_id, now).0.jobs[m.leases[lease_id].job_id].state == JobState::Queued,
        !m.expire_lease(lease_id, now).0.leases.contains_key(lease_id),
{
}

/// Only a result equal to the job's expected output marks it verified.
pub proof fn lemma_only_exact_results_verify(m: CoordinatorModel, lease: LeaseView, output: i32)
    requires
        m.verify_exact(lease, output).1 is Ok,
    ensures
        m.leases.contains_key(lease.id),
        m.leases[lease.id].job_id == lease.job_id,
        m.jobs.contains_key(lease.job_id),
        output == m.jobs[lease.job_id].expected_output,
        m.verify_exact(lease, output).0.jobs[lease.job_id].state == JobState::Verified,
{
}

} // verus!

verus! {

/// The code point of `c`, with ASCII lowercase letters raised to uppercase.
pub open spec fn ascii_upper_code(c: char) -> u32 {
    if 97 <= (c as u32) && (c as u32) <= 122 {
        (c as u32 - 32) as u32
    } else {
        c as u32
    }
}

/// `value`, with ASCII letters raised to uppercase, is `name`.
pub open spec fn upper_equals(value: Seq<char>, name: Seq<char>) -> bool {
    &&& value.len() == name.len()
    &&& forall|i: int| 0 <= i < value.len() ==> ascii_upper_code(#[trigger] value[i]) == name[i] as u32
}

fn upper_equals_exec(value: &str, name: &str) -> (r: bool)
    ensures
        r == upper_equals(value@, name@),
{
    let n = value.unicode_len();
    if n != name.unicode_len() {
        return false;
    }
    for i in 0..n
        invariant
            n == value@.len(),
            n == name@.len(),
            forall|j: int| 0 <= j < i ==> ascii_upper_code(#[trigger] value@[j]) == name@[j] as u32,
    {
        let c = value.get_char(i) as u32;
        let upper: u32 = if 97 <= c && c <= 122 {
            c - 32
        } else {
            c
        };
        if upper != name.get_char(i) as u32 {
            return false;
        }
    }
    true
}

impl PrivacyTier {
    /// The tier a command-line name stands for, ignoring ASCII case:
    /// `P0`, `P1`, `P2`, `P3`, `P4` or `LOCAL_ONLY`.
    pub open spec fn spec_from_name(value: Seq<char>) -> Option<PrivacyTier> {
        if upper_equals(value, "P0"@) {
            Some(PrivacyTier::P0Public)
        } else if upper_equals(value, "P1"@) {
            Some(PrivacyTier::P1MinimizedShard)
        } else if upper_equals(value, "P2"@) {
            Some(PrivacyTier::P2AttestedCpu)
        } else if upper_equals(value, "P3"@) {
            Some(PrivacyTier::P3AttestedAccelerator)
        } else if upper_equals(value, "P4"@) {
            Some(PrivacyTier::P4Cryptographic)
        } else if upper_equals(value, "LOCAL_ONLY"@) {
            Some(PrivacyTier::LocalOnly)
        } else {
            None
        }
    }

    /// The tier a command-line name stands for, ignoring ASCII case; `None`
    /// for any other name.
    pub fn from_name(value: &str) -> (r: Option<PrivacyTier>)
        ensures
            r == Self::spec_from_name(value@),
    {
        if upper_equals_exec(value, "P0") {
            Some(PrivacyTier::P0Public)
        } else if upper_equals_exec(value, "P1") {
            Some(PrivacyTier::P1MinimizedShard)
        } else if upper_equals_exec(value, "P2") {
            Some(PrivacyTier::P2AttestedCpu)
        } else if upper_equals_exec(value, "P3") {
            Some(PrivacyTier::P3AttestedAccelerator)
        } else if upper_equals_exec(value, "P4") {
            Some(PrivacyTier::P4Cryptographic)
        } else if upper_equals_exec(value, "LOCAL_ONLY") {
            Some(PrivacyTier::LocalOnly)
        } else {
            None
        }
    }
}

} // verus!

verus! {

/// The tiers that can run remotely tell the requester, before submission,
/// that the node operator may read the data; every other tier is refused by
/// the scheduler, never downgraded.
pub proof fn lemma_remote_tiers_disclose_plaintext_access(
    t: PrivacyTier,
    m: CoordinatorModel,
    job: Job,
    approved: Map<Seq<char>, SignedPackage>,
)
    ensures
        t.spec_remote_supported() ==> t.spec_disclosure().take(26) == "The node operator may read"@,
        !job.privacy.spec_remote_supported() ==> m.submit(job, approved).0 == m && m.submit(job, approved).1 is Err,
{
    reveal_strlit("The node operator may read");
    reveal_strlit("The node operator may read the plaintext input and model.");
    reveal_strlit("The node operator may read this minimized shard.");
    if t.spec_remote_supported() {
        assert(t.spec_disclosure().take(26) =~= "The node operator may read"@);
    }
}

} // verus!


verus! {

/// `t` occurs in `s` as a contiguous piece.
pub open spec fn contains_text(s: Seq<char>, t: Seq<char>) -> bool {
    exists|i: int| 0 <= i && i + t.len() <= s.len() && #[trigger] s.subrange(i, i + t.len()) == t
}

proof fn lemma_may_read_absent(s: Seq<char>)
    requires
        s == "Plaintext requires an attested CPU environment (not in v0.1)."@ || s
            == "Plaintext requires attested CPU and accelerator environments (not in v0.1)."@ || s
            == "Only an approved cryptographic plan may operate on ciphertext (not in v0.1)."@ || s
            == "The job never leaves the requester's machine."@,
    ensures
        !contains_text(s, "may read"@),
{
    reveal_strlit("may read");
    reveal_strlit("Plaintext requires an attested CPU environment (not in v0.1).");
    reveal_strlit("Plaintext requires attested CPU and accelerator environments (not in v0.1).");
    reveal_strlit("Only an approved cryptographic plan may operate on ciphertext (not in v0.1).");
    reveal_strlit("The job never leaves the requester's machine.");
    let t = "may read"@;
    assert forall|i: int| 0 <= i && i + t.len() <= s.len() implies #[trigger] s.subrange(i, i + t.len()) != t by {
        if s.subrange(i, i + t.len()) == t {
            assert(s.subrange(i, i + t.len())[0] == t[0]);
            assert(s.subrange(i, i + t.len())[2] == t[2]);
            assert(s.subrange(i, i + t.len())[4] == t[4]);
        }
    }
}

/// Exactly the tiers that can run remotely warn that the node operator may
/// read the data; the attested and cryptographic tiers say they are not
/// available in this version.
pub proof fn lemma_disclosure_warns_exactly_remote_tiers(t: PrivacyTier)
    ensures
        contains_text(t.spec_disclosure(), "may read"@) <==> t.spec_remote_supported(),
        (t is P2AttestedCpu || t is P3AttestedAccelerator || t is P4Cryptographic) ==> contains_text(
            t.spec_disclosure(),
            "not in v0.1"@,
        ),
{
    reveal_strlit("may read");
    reveal_strlit("not in v0.1");
    reveal_strlit("The node operator may read the plaintext input and model.");
    reveal_strlit("The node operator may read this minimized shard.");
    reveal_strlit("Plaintext requires an attested CPU environment (not in v0.1).");
    reveal_strlit("Plaintext requires attested CPU and accelerator environments (not in v0.1).");
    reveal_strlit("Only an approved cryptographic plan may operate on ciphertext (not in v0.1).");
    let d = t.spec_disclosure();
    if t.spec_remote_supported() {
        assert(d.subrange(18, 18 + "may read"@.len() as int) =~= "may read"@);
    } else {
        lemma_may_read_absent(d);
    }
    match t {
        PrivacyTier::P2AttestedCpu => {
            assert(d.subrange(48, 48 + "not in v0.1"@.len() as int) =~= "not in v0.1"@);
        },
        PrivacyTier::P3AttestedAccelerator => {
            assert(d.subrange(62, 62 + "not in v0.1"@.len() as int) =~= "not in v0.1"@);
        },
        PrivacyTier::P4Cryptographic => {
            assert(d.subrange(63, 63 + "not in v0.1"@.len() as int) =~= "not in v0.1"@);
        },
        _ => {},
    }
}

} // verus!

verus! {

/// A refused call changes nothing: a submission, lease, request, expiry or
/// verification that answers an error leaves the scheduler as it was; in
/// particular a lease expired before it is due stays live.
pub proof fn lemma_refused_calls_change_nothing(
    m: CoordinatorModel,
    job: Job,
    approved: Map<Seq<char>, SignedPackage>,
    job_id: Seq<char>,
    node_id: Seq<char>,
    id: Seq<char>,
    lease: LeaseView,
    issued_at: nat,
    expires_at: nat,
    now: nat,
    output: i32,
)
    ensures
        m.submit(job, approved).1 is Err ==> m.submit(job, approved).0 == m,
        m.lease(job_id, node_id, now).1 is Err ==> m.lease(job_id, node_id, now).0 == m,
        m.accept_request(id, issued_at, expires_at, now).1 is Err ==> m.accept_request(
            id,
            issued_at,
            expires_at,
            now,
        ).0 == m,
        m.expire_lease(id, now).1 is Err ==> m.expire_lease(id, now).0 == m,
        m.verify_exact(lease, output).1 is Err ==> m.verify_exact(lease, output).0 == m,
        m.leases.contains_key(id) && m.leases[id].expires_at > now ==> m.expire_lease(id, now).0.leases.contains_key(id),
{
}

/// A request identifier that has been seen is refused in every later state:
/// a state that holds it refuses it whatever window is claimed, and every
/// operation keeps the identifiers seen.
pub proof fn lemma_seen_requests_stay_refused(
    m: CoordinatorModel,
    id: Seq<char>,
    issued_at: nat,
    expires_at: nat,
    now: nat,
    job: Job,
    approved: Map<Seq<char>, SignedPackage>,
    node: Node,
    job_id: Seq<char>,
    node_id: Seq<char>,
    other: Seq<char>,
    lease: LeaseView,
    output: i32,
)
    requires
        m.seen.contains(id),
    ensures
        m.accept_request(id, issued_at, expires_at, now) == (m, Err::<(), CommonsError>(CommonsError::ReplayRejected)),
        m.register_node(node).seen.contains(id),
        m.submit(job, approved).0.seen.contains(id),
        m.lease(job_id, node_id, now).0.seen.contains(id),
        m.accept_request(other, issued_at, expires_at, now).0.seen.contains(id),
        m.expire_lease(other, now).0.seen.contains(id),
        m.verify_exact(lease, output).0.seen.contains(id),
{
}


/// One call on the scheduler, as plain values.
pub enum CoordinatorOp {
    RegisterNode(Node),
    Submit(Job, Map<Seq<char>, SignedPackage>),
    LeaseJob(Seq<char>, Seq<char>, nat),
    AcceptRequest(Seq<char>, nat, nat, nat),
    ExpireLease(Seq<char>, nat),
    VerifyExact(LeaseView, i32),
}

impl CoordinatorModel {
    /// The scheduler after one call.
    pub open spec fn step(self, op: CoordinatorOp) -> CoordinatorModel {
        match op {
            CoordinatorOp::RegisterNode(node) => self.register_node(node),
            CoordinatorOp::Submit(job, approved) => self.submit(job, approved).0,
            CoordinatorOp::LeaseJob(job_id, node_id, now) => self.lease(job_id, node_id, now).0,
            CoordinatorOp::AcceptRequest(id, issued_at, expires_at, now) => self.accept_request(
                id,
                issued_at,
                expires_at,
                now,
            ).0,
            CoordinatorOp::ExpireLease(lease_id, now) => self.expire_lease(lease_id, now).0,
            CoordinatorOp::VerifyExact(lease, output) => self.verify_exact(lease, output).0,
        }
    }

    /// The scheduler after a sequence of calls, in order.
    pub open spec fn run(self, ops: Seq<CoordinatorOp>) -> CoordinatorModel
        decreases ops.len(),
    {
        if ops.len() == 0 {
            self
        } else {
            self.step(ops[0]).run(ops.drop_first())
        }
    }
}

proof fn lemma_run_keeps_seen(m: CoordinatorModel, ops: Seq<CoordinatorOp>, id: Seq<char>)
    requires
        m.seen.contains(id),
    ensures
        m.run(ops).seen.contains(id),
    decreases ops.len(),
{
    if ops.len() > 0 {
        lemma_run_keeps_seen(m.step(ops[0]), ops.drop_first(), id);
    }
}

/// A request identifier is accepted at most once in the scheduler's life:
/// once a request has been accepted, the same identifier is refused as a
/// replay after any sequence of later calls, whatever window it claims.
pub proof fn lemma_accepted_request_is_refused_ever_after(
    m: CoordinatorModel,
    id: Seq<char>,
    issued_at: nat,
    expires_at: nat,
    now: nat,
    ops: Seq<CoordinatorOp>,
    later_issued_at: nat,
    later_expires_at: nat,
    later_now: nat,
)
    requires
        m.accept_request(id, issued_at, expires_at, now).1 is Ok,
    ensures
        ({
            let later = m.accept_request(id, issued_at, expires_at, now).0.run(ops);
            later.accept_request(id, later_issued_at, later_expires_at, later_now) == (
                later,
                Err::<(), CommonsError>(CommonsError::ReplayRejected),
            )
        }),
{
    lemma_run_keeps_seen(m.accept_request(id, issued_at, expires_at, now).0, ops, id);
}


/// Leases are resource-bound: a lease is issued exactly when the job and the
/// node are known, the node is neither paused, drained nor revoked, its tier
/// ranks at least the job's, and in every dimension (CPU threads, memory,
/// scratch space and wall time) the job asks for at most what the node
/// offers. A job that asks for more than the node offers in any dimension is
/// refused with `NodeUnavailable` and nothing changes. An issued lease names
/// the job and the node, expires `lease_duration()` after `now`, and leaves
/// the job leased.
pub proof fn lemma_lease_is_issued_only_within_the_nodes_limits(
    m: CoordinatorModel,
    job_id: Seq<char>,
    node_id: Seq<char>,
    now: nat,
)
    ensures
        m.lease(job_id, node_id, now).1 is Ok <==> {
            &&& m.jobs.contains_key(job_id)
            &&& m.nodes.contains_key(node_id)
            &&& !m.nodes[node_id].paused
            &&& !m.nodes[node_id].drained
            &&& !m.nodes[node_id].revoked
            &&& m.nodes[node_id].privacy.spec_rank() >= m.jobs[job_id].privacy.spec_rank()
            &&& m.jobs[job_id].resources.cpu_threads <= m.nodes[node_id].maximum.cpu_threads
            &&& m.jobs[job_id].resources.memory_mib <= m.nodes[node_id].maximum.memory_mib
            &&& m.jobs[job_id].resources.scratch_mib <= m.nodes[node_id].maximum.scratch_mib
            &&& m.jobs[job_id].resources.wall_time_seconds <= m.nodes[node_id].maximum.wall_time_seconds
        },
        m.jobs.contains_key(job_id) && m.nodes.contains_key(node_id) && (m.jobs[job_id].resources.cpu_threads
            > m.nodes[node_id].maximum.cpu_threads || m.jobs[job_id].resources.memory_mib
            > m.nodes[node_id].maximum.memory_mib || m.jobs[job_id].resources.scratch_mib
            > m.nodes[node_id].maximum.scratch_mib || m.jobs[job_id].resources.wall_time_seconds
            > m.nodes[node_id].maximum.wall_time_seconds) ==> m.lease(job_id, node_id, now) == (
            m,
            Err::<LeaseView, CommonsError>(CommonsError::NodeUnavailable),
        ),
        m.lease(job_id, node_id, now).1 matches Ok(lease) ==> {
            &&& lease.job_id == job_id
            &&& lease.node_id == node_id
            &&& lease.expires_at == now + lease_duration()
            &&& m.lease(job_id, node_id, now).0.leases[lease.id] == lease
            &&& m.lease(job_id, node_id, now).0.jobs[job_id].state == JobState::Leased
        },
{
}

/// Submission admits every job it should: a job whose package the registry
/// holds and whose digest and signature check out, at a remote-capable tier
/// ranking at least the package's minimum, with exactly the package's
/// resources and a reservation of at least the package's reference cost, is
/// accepted and filed as queued under its identifier; and only such jobs are
/// accepted.
pub proof fn lemma_submit_admits_exactly_covered_jobs(
    m: CoordinatorModel,
    job: Job,
    approved: Map<Seq<char>, SignedPackage>,
)
    ensures
        m.submit(job, approved).1 is Ok <==> {
            &&& approved.contains_key(job.workload_digest@)
            &&& approved[job.workload_digest@].spec_valid()
            &&& (job.privacy is P0Public || job.privacy is P1MinimizedShard)
            &&& job.privacy.spec_rank() >= approved[job.workload_digest@].manifest.minimum_privacy.spec_rank()
            &&& job.resources == approved[job.workload_digest@].manifest.resources
            &&& job.max_reserved_ccu >= approved[job.workload_digest@].manifest.reference_cost_ccu
        },
        m.submit(job, approved).1 is Ok ==> {
            &&& m.submit(job, approved).0.jobs.contains_key(job.id@)
            &&& m.submit(job, approved).0.jobs[job.id@] == Job { state: JobState::Queued, ..job }
            &&& m.submit(job, approved).0.nodes == m.nodes
            &&& m.submit(job, approved).0.leases == m.leases
        },
{
}

/// Verification is exact: for a live lease that names the job it was issued
/// for, and a known job, the result is accepted exactly when it equals the
/// job's expected output, whatever that output is, and an accepted result
/// marks the job verified; any other output is `VerificationFailed` and
/// changes nothing.
pub proof fn lemma_verification_accepts_exactly_the_expected_output(
    m: CoordinatorModel,
    lease: LeaseView,
    output: i32,
)
    requires
        m.leases.contains_key(lease.id),
        m.leases[lease.id].job_id == lease.job_id,
        m.jobs.contains_key(lease.job_id),
    ensures
        m.verify_exact(lease, output).1 is Ok <==> output == m.jobs[lease.job_id].expected_output,
        output == m.jobs[lease.job_id].expected_output ==> m.verify_exact(lease, output).0.jobs[lease.job_id].state
            == JobState::Verified,
        output != m.jobs[lease.job_id].expected_output ==> m.verify_exact(lease, output) == (
            m,
            Err::<(), CommonsError>(CommonsError::VerificationFailed),
        ),
{
}


proof fn lemma_plaintext_input_absent(s: Seq<char>)
    requires
        s == "The node operator may read this minimized shard."@ || s
            == "Plaintext requires an attested CPU environment (not in v0.1)."@ || s
            == "Plaintext requires attested CPU and accelerator environments (not in v0.1)."@ || s
            == "Only an approved cryptographic plan may operate on ciphertext (not in v0.1)."@ || s
            == "The job never leaves the requester's machine."@,
    ensures
        !contains_text(s, "plaintext input and model"@),
{
    reveal_strlit("plaintext input and model");
    reveal_strlit("The node operator may read this minimized shard.");
    reveal_strlit("Plaintext requires an attested CPU environment (not in v0.1).");
    reveal_strlit("Plaintext requires attested CPU and accelerator environments (not in v0.1).");
    reveal_strlit("Only an approved cryptographic plan may operate on ciphertext (not in v0.1).");
    reveal_strlit("The job never leaves the requester's machine.");
    let t = "plaintext input and model"@;
    assert forall|i: int| 0 <= i && i + t.len() <= s.len() implies #[trigger] s.subrange(i, i + t.len()) != t by {
        if s.subrange(i, i + t.len()) == t {
            assert(s.subrange(i, i + t.len())[0] == t[0]);
            assert(s.subrange(i, i + t.len())[1] == t[1]);
            assert(s.subrange(i, i + t.len())[3] == t[3]);
        }
    }
}

/// Each tier has its own disclosure: distinct tiers never show the same
/// text, and exactly the public tier tells the requester that the node
/// operator may read the plaintext input and model.
pub proof fn lemma_each_tier_discloses_its_own_text(t: PrivacyTier, u: PrivacyTier)
    ensures
        t != u ==> t.spec_disclosure() != u.spec_disclosure(),
        contains_text(t.spec_disclosure(), "plaintext input and model"@) <==> t is P0Public,
{
    reveal_strlit("plaintext input and model");
    reveal_strlit("The node operator may read the plaintext input and model.");
    reveal_strlit("The node operator may read this minimized shard.");
    reveal_strlit("Plaintext requires an attested CPU environment (not in v0.1).");
    reveal_strlit("Plaintext requires attested CPU and accelerator environments (not in v0.1).");
    reveal_strlit("Only an approved cryptographic plan may operate on ciphertext (not in v0.1).");
    reveal_strlit("The job never leaves the requester's machine.");
    if t != u && t.spec_disclosure() == u.spec_disclosure() {
        assert(t.spec_disclosure().len() == u.spec_disclosure().len());
        assert(t.spec_disclosure()[0] == u.spec_disclosure()[0]);
        assert(t.spec_disclosure()[27] == u.spec_disclosure()[27]);
    }
    let d = t.spec_disclosure();
    if t is P0Public {
        assert(d.subrange(31, 31 + "plaintext input and model"@.len() as int) =~= "plaintext input and model"@);
    } else {
        lemma_plaintext_input_absent(d);
    }
}


/// The tiers are ranked in their declared order, from least to most
/// protection: each ranks strictly above the one before it.
pub proof fn lemma_tiers_rank_in_declared_order()
    ensures
        PrivacyTier::P0Public.spec_rank() < PrivacyTier::P1MinimizedShard.spec_rank(),
        PrivacyTier::P1MinimizedShard.spec_rank() < PrivacyTier::P2AttestedCpu.spec_rank(),
        PrivacyTier::P2AttestedCpu.spec_rank() < PrivacyTier::P3AttestedAccelerator.spec_rank(),
        PrivacyTier::P3AttestedAccelerator.spec_rank() < PrivacyTier::P4Cryptographic.spec_rank(),
        PrivacyTier::P4Cryptographic.spec_rank() < PrivacyTier::LocalOnly.spec_rank(),
{
}

/// A tier name is `P` (either case, code 80 or 112) and the digit of the tier's rank, or
/// `LOCAL_ONLY` in any ASCII case: every such name parses to its tier, and a
/// name that parses has that form.
pub proof fn lemma_tier_names_carry_their_rank(v: Seq<char>, t: PrivacyTier)
    ensures
        PrivacyTier::spec_from_name(v) == Some(t) && !(t is LocalOnly) ==> v.len() == 2 && (v[0] as u32 == 80
            || v[0] as u32 == 112) && v[1] as u32 == 48 + t.spec_rank(),
        PrivacyTier::spec_from_name(v) == Some(t) && t is LocalOnly ==> v.len() == 10,
        v.len() == 2 && (v[0] as u32 == 80 || v[0] as u32 == 112) && !(t is LocalOnly) && v[1] as u32 == 48
            + t.spec_rank() ==> PrivacyTier::spec_from_name(v) == Some(t),
{
    reveal_strlit("P0");
    reveal_strlit("P1");
    reveal_strlit("P2");
    reveal_strlit("P3");
    reveal_strlit("P4");
    reveal_strlit("LOCAL_ONLY");
    if v.len() == 2 {
        assert(ascii_upper_code(v[1]) == v[1] as u32 || (v[1] as u32) >= 97);
    }
}

/// Signed requests have a 300-second replay window: a request is accepted
/// exactly when it is already valid (`issued_at <= now`), not yet expired
/// (`now <= expires_at`), claims a window of at most 300 seconds, and its
/// identifier has not been seen; an accepted identifier is remembered.
pub proof fn lemma_requests_have_a_bounded_replay_window(
    m: CoordinatorModel,
    id: Seq<char>,
    issued_at: nat,
    expires_at: nat,
    now: nat,
)
    ensures
        m.accept_request(id, issued_at, expires_at, now).1 is Ok <==> {
            &&& issued_at <= now
            &&& now <= expires_at
            &&& expires_at - issued_at <= 300
            &&& !m.seen.contains(id)
        },
        m.accept_request(id, issued_at, expires_at, now).1 is Ok ==> m.accept_request(
            id,
            issued_at,
            expires_at,
            now,
        ).0.seen.contains(id),
{
}

/// A lease lasts 300 seconds: an issued lease expires exactly 300 after
/// `now`, and it cannot be expired before then.
pub proof fn lemma_leases_last_three_hundred_seconds(
    m: CoordinatorModel,
    job_id: Seq<char>,
    node_id: Seq<char>,
    now: nat,
    later: nat,
)
    ensures
        m.lease(job_id, node_id, now).1 matches Ok(lease) ==> lease.expires_at == now + 300 && (later < now + 300
            ==> m.lease(job_id, node_id, now).0.expire_lease(lease.id, later).1 is Err),
{
}

} // verus!
