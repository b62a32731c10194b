//! Immutable, Ed25519-signed workload packages addressed by their BLAKE3
//! digest, and the approved-only registry that serves them.
use vstd::prelude::*;
use vstd::string::*;
use vstd::hash_map::StringHashMap;
use vstd::slice::slice_to_vec;
use vstd::utf8::{encode_utf8, encode_utf8_decode_utf8};
use crate::CommonsError;
use crate::coordinator::{PrivacyTier, ResourceLimits};
use crate::crypto::{digest, ed25519_accepts, ed25519_public_key, ed25519_public_of, ed25519_sign, ed25519_signature_of, ed25519_verify, spec_digest};
use crate::text::{decimal, decimal_string, hex_char};

verus! {

/// What a workload package declares about itself.
#[derive(Clone, Debug, PartialEq, Eq)]
pub struct WorkloadManifest {
    pub name: String,
    pub version: String,
    pub runtime: String,
    pub entrypoint: String,
    pub minimum_privacy: PrivacyTier,
    pub resources: ResourceLimits,
    pub network_deny_all: bool,
    pub deterministic: bool,
    pub verification: String,
    pub reference_cost_ccu: u64,
}

/// A manifest as plain values.
pub struct ManifestView {
    pub name: Seq<char>,
    pub version: Seq<char>,
    pub runtime: Seq<char>,
    pub entrypoint: Seq<char>,
    pub minimum_privacy: PrivacyTier,
    pub resources: ResourceLimits,
    pub network_deny_all: bool,
    pub deterministic: bool,
    pub verification: Seq<char>,
    pub reference_cost_ccu: nat,
}

impl View for WorkloadManifest {
    type V = ManifestView;

    open spec fn view(&self) -> ManifestView {
        ManifestView {
            name: self.name@,
            version: self.version@,
            runtime: self.runtime@,
            entrypoint: self.entrypoint@,
            minimum_privacy: self.minimum_privacy,
            resources: self.resources,
            network_deny_all: self.network_deny_all,
            deterministic: self.deterministic,
            verification: self.verification@,
            reference_cost_ccu: self.reference_cost_ccu as nat,
        }
    }
}

/// How JSON writes one character inside a string: the quote, the backslash
/// and the control characters below U+0020 are escaped (the short forms for
/// backspace, tab, line feed, form feed and carriage return, `\u00` and two
/// lowercase hex digits for the rest); every other character is itself.
pub open spec fn json_escaped_char(c: char) -> Seq<char> {
    if c == '"' {
        seq!['\\', '"']
    } else if c == '\\' {
        seq!['\\', '\\']
    } else if c == '\u{8}' {
        seq!['\\', 'b']
    } else if c == '\t' {
        seq!['\\', 't']
    } else if c == '\n' {
        seq!['\\', 'n']
    } else if c == '\u{c}' {
        seq!['\\', 'f']
    } else if c == '\r' {
        seq!['\\', 'r']
    } else if (c as u32) < 0x20 {
        seq!['\\', 'u', '0', '0', hex_char(((c as u32) / 16) as nat), hex_char(((c as u32) % 16) as nat)]
    } else {
        seq![c]
    }
}

/// The characters of a string, each written as JSON writes it.
pub open spec fn json_escaped(s: Seq<char>) -> Seq<char>
    decreases s.len(),
{
    if s.len() == 0 {
        Seq::empty()
    } else {
        json_escaped(s.drop_last()) + json_escaped_char(s.last())
    }
}

/// The JSON text of a string: its escaped characters between quotes.
pub open spec fn json_string_of(s: Seq<char>) -> Seq<char> {
    seq!['"'] + json_escaped(s) + seq!['"']
}

/// Calls `serde_json::to_string` on a string slice, which writes the text
/// between quotes with the escapes of `json_escaped_char` (its `ESCAPE`
/// table and `write_char_escape`). `serde_json` fails only for types whose
/// serialization fails or for maps with non-string keys, so a string slice
/// never takes the error arm.
#[verifier::external_body]
fn json_string(s: &str) -> (json: String)
    ensures
        json@ == json_string_of(s@),
{
    match serde_json::to_string(s) {
        Ok(json) => json,
        Err(_) => String::new(),
    }
}

/// The JSON text of a privacy tier: its name in upper snake case, quoted.
pub open spec fn tier_json(t: PrivacyTier) -> Seq<char> {
    match t {
        PrivacyTier::P0Public => "\"P0_PUBLIC\""@,
        PrivacyTier::P1MinimizedShard => "\"P1_MINIMIZED_SHARD\""@,
        PrivacyTier::P2AttestedCpu => "\"P2_ATTESTED_CPU\""@,
        PrivacyTier::P3AttestedAccelerator => "\"P3_ATTESTED_ACCELERATOR\""@,
        PrivacyTier::P4Cryptographic => "\"P4_CRYPTOGRAPHIC\""@,
        PrivacyTier::LocalOnly => "\"LOCAL_ONLY\""@,
    }
}

fn tier_json_str(t: PrivacyTier) -> (s: &'static str)
    ensures
        s@ == tier_json(t),
{
    match t {
        PrivacyTier::P0Public => "\"P0_PUBLIC\"",
        PrivacyTier::P1MinimizedShard => "\"P1_MINIMIZED_SHARD\"",
        PrivacyTier::P2AttestedCpu => "\"P2_ATTESTED_CPU\"",
        PrivacyTier::P3AttestedAccelerator => "\"P3_ATTESTED_ACCELERATOR\"",
        PrivacyTier::P4Cryptographic => "\"P4_CRYPTOGRAPHIC\"",
        PrivacyTier::LocalOnly => "\"LOCAL_ONLY\"",
    }
}

/// The JSON text of a boolean.
pub open spec fn bool_json(b: bool) -> Seq<char> {
    if b {
        "true"@
    } else {
        "false"@
    }
}

fn bool_json_str(b: bool) -> (s: &'static str)
    ensures
        s@ == bool_json(b),
{
    if b {
        "true"
    } else {
        "false"
    }
}

/// The compact JSON object of resource limits, fields in declaration order.
pub open spec fn resources_json(r: ResourceLimits) -> Seq<char> {
    "{\"cpu_threads\":"@ + decimal(r.cpu_threads as nat) + ",\"memory_mib\":"@ + decimal(r.memory_mib as nat)
        + ",\"scratch_mib\":"@ + decimal(r.scratch_mib as nat) + ",\"wall_time_seconds\":"@ + decimal(
        r.wall_time_seconds as nat,
    ) + "}"@
}

/// The compact JSON object of a manifest, fields in declaration order: the
/// bytes that, followed by the module, are hashed and signed.
pub open spec fn manifest_json(m: ManifestView) -> Seq<char> {
    "{\"name\":"@ + json_string_of(m.name) + ",\"version\":"@ + json_string_of(m.version) + ",\"runtime\":"@
        + json_string_of(m.runtime) + ",\"entrypoint\":"@ + json_string_of(m.entrypoint)
        + ",\"minimum_privacy\":"@ + tier_json(m.minimum_privacy) + ",\"resources\":"@ + resources_json(
        m.resources,
    ) + ",\"network_deny_all\":"@ + bool_json(m.network_deny_all) + ",\"deterministic\":"@ + bool_json(
        m.deterministic,
    ) + ",\"verification\":"@ + json_string_of(m.verification) + ",\"reference_cost_ccu\":"@ + decimal(
        m.reference_cost_ccu,
    ) + "}"@
}

fn resources_json_string(r: ResourceLimits) -> (s: String)
    ensures
        s@ == resources_json(r),
{
    let mut s = String::from_str("{\"cpu_threads\":");
    s.append(decimal_string(r.cpu_threads as u64).as_str());
    s.append(",\"memory_mib\":");
    s.append(decimal_string(r.memory_mib as u64).as_str());
    s.append(",\"scratch_mib\":");
    s.append(decimal_string(r.scratch_mib as u64).as_str());
    s.append(",\"wall_time_seconds\":");
    s.append(decimal_string(r.wall_time_seconds as u64).as_str());
    s.append("}");
    s
}

fn manifest_json_string(m: &WorkloadManifest) -> (s: String)
    ensures
        s@ == manifest_json(m@),
{
    let mut s = String::from_str("{\"name\":");
    s.append(json_string(m.name.as_str()).as_str());
    s.append(",\"version\":");
    s.append(json_string(m.version.as_str()).as_str());
    s.append(",\"runtime\":");
    s.append(json_string(m.runtime.as_str()).as_str());
    s.append(",\"entrypoint\":");
    s.append(json_string(m.entrypoint.as_str()).as_str());
    s.append(",\"minimum_privacy\":");
    s.append(tier_json_str(m.minimum_privacy));
    s.append(",\"resources\":");
    s.append(resources_json_string(m.resources).as_str());
    s.append(",\"network_deny_all\":");
    s.append(bool_json_str(m.network_deny_all));
    s.append(",\"deterministic\":");
    s.append(bool_json_str(m.deterministic));
    s.append(",\"verification\":");
    s.append(json_string(m.verification.as_str()).as_str());
    s.append(",\"reference_cost_ccu\":");
    s.append(decimal_string(m.reference_cost_ccu).as_str());
    s.append("}");
    s
}

/// The bytes that are hashed and signed for a package: the manifest's
/// JSON in UTF-8, followed by the module.
pub open spec fn payload_of(manifest: ManifestView, module: Seq<u8>) -> Seq<u8> {
    encode_utf8(manifest_json(manifest)) + module
}

fn package_payload(manifest: &WorkloadManifest, module: &[u8]) -> (bytes: Vec<u8>)
    ensures
        bytes@ == payload_of(manifest@, module@),
{
    let json = manifest_json_string(manifest);
    let mut bytes = slice_to_vec(json.as_str().as_bytes());
    let ghost head = bytes@;
    let n = module.len();
    for i in 0..n
        invariant
            n == module@.len(),
            bytes@ == head + module@.take(i as int),
    {
        bytes.push(module[i]);
        assert(module@.take(i + 1) =~= module@.take(i as int).push(module@[i as int]));
    }
    assert(module@.take(n as int) =~= module@);
    bytes
}

/// A workload package: manifest and module, their digest, and the
/// maintainer's Ed25519 public key and signature over them.
#[derive(Clone, Debug)]
pub struct SignedPackage {
    pub manifest: WorkloadManifest,
    pub module: Vec<u8>,
    pub digest: String,
    pub maintainer: [u8; 32],
    pub signature: [u8; 64],
}

impl SignedPackage {
    /// The bytes that are hashed and signed for this package.
    pub open spec fn payload(self) -> Seq<u8> {
        payload_of(self.manifest@, self.module@)
    }

    /// The digest is that of the payload and the maintainer's signature over
    /// the payload verifies.
    pub open spec fn spec_valid(self) -> bool {
        &&& self.digest@ == spec_digest(self.payload())
        &&& ed25519_accepts(self.maintainer@, self.payload(), self.signature@)
    }

    /// Builds and signs a package with the maintainer's Ed25519 secret key.
    /// A package built this way is valid.
    pub fn new(manifest: WorkloadManifest, module: Vec<u8>, secret: &[u8; 32]) -> (package: Self)
        ensures
            package.manifest == manifest,
            package.module@ == module@,
            package.digest@ == spec_digest(payload_of(manifest@, module@)),
            package.maintainer@ == ed25519_public_of(secret@),
            package.signature@ == ed25519_signature_of(secret@, payload_of(manifest@, module@)),
            package.spec_valid(),
    {
        let payload = package_payload(&manifest, module.as_slice());
        let digest = digest(payload.as_slice());
        let maintainer = ed25519_public_key(secret);
        let signature = ed25519_sign(secret, payload.as_slice());
        SignedPackage { manifest, module, digest, maintainer, signature }
    }

    /// Checks the digest and the signature; a package that fails either is
    /// `InvalidPackage`.
    pub fn verify(&self) -> (r: Result<(), CommonsError>)
        ensures
            r is Ok <==> self.spec_valid(),
            r is Err ==> r == Err::<(), CommonsError>(CommonsError::InvalidPackage),
    {
        let payload = package_payload(&self.manifest, self.module.as_slice());
        let expected = digest(payload.as_slice());
        if self.digest != expected || !ed25519_verify(&self.maintainer, payload.as_slice(), &self.signature) {
            return Err(CommonsError::InvalidPackage);
        }
        Ok(())
    }
}

/// What a lookup in a registry holding `approved` answers for `digest`.
pub open spec fn lookup(approved: Map<Seq<char>, SignedPackage>, digest: Seq<char>) -> Result<
    SignedPackage,
    CommonsError,
> {
    if !approved.contains_key(digest) {
        Err(CommonsError::UnapprovedPackage)
    } else if !approved[digest].spec_valid() {
        Err(CommonsError::InvalidPackage)
    } else {
        Ok(approved[digest])
    }
}

/// Every approved package is valid and filed under its own digest.
pub open spec fn registry_sound(approved: Map<Seq<char>, SignedPackage>) -> bool {
    forall|d: Seq<char>| #[trigger] approved.contains_key(d) ==> approved[d].spec_valid() && approved[d].digest@ == d
}

/// The approved packages, by digest.
pub struct Registry {
    approved: StringHashMap<SignedPackage>,
}

impl View for Registry {
    type V = Map<Seq<char>, SignedPackage>;

    closed spec fn view(&self) -> Map<Seq<char>, SignedPackage> {
        self.approved@
    }
}

impl Default for Registry {
    fn default() -> (registry: Self)
        ensures
            registry@ == Map::<Seq<char>, SignedPackage>::empty(),
            registry_sound(registry@),
    {
        Registry { approved: StringHashMap::new() }
    }
}

impl Registry {
    /// Approves a package that verifies, filing it under its digest, and
    /// answers the digest; a package that does not verify is
    /// `InvalidPackage` and nothing changes.
    pub fn approve(&mut self, package: SignedPackage) -> (r: Result<String, CommonsError>)
        ensures
            package.spec_valid() ==> r is Ok && r->Ok_0@ == package.digest@ && final(self)@ == old(
                self,
            )@.insert(package.digest@, package),
            !package.spec_valid() ==> r == Err::<String, CommonsError>(CommonsError::InvalidPackage)
                && final(self)@ == old(self)@,
            registry_sound(old(self)@) ==> registry_sound(final(self)@),
    {
        match package.verify() {
            Err(e) => return Err(e),
            Ok(()) => {},
        }
        let digest = package.digest.clone();
        self.approved.insert(package.digest.clone(), package);
        Ok(digest)
    }

    /// The approved package with this digest, checked again before it is
    /// served: `UnapprovedPackage` when none is filed under it,
    /// `InvalidPackage` when it no longer verifies.
    pub fn get(&self, digest: &str) -> (r: Result<&SignedPackage, CommonsError>)
        ensures
            match r {
                Ok(p) => lookup(self@, digest@) == Ok::<SignedPackage, CommonsError>(*p),
                Err(e) => lookup(self@, digest@) == Err::<SignedPackage, CommonsError>(e),
            },
    {
        let package = match self.approved.get(digest) {
            Some(p) => p,
            None => return Err(CommonsError::UnapprovedPackage),
        };
        match package.verify() {
            Err(e) => return Err(e),
            Ok(()) => {},
        }
        Ok(package)
    }
}

/// Approving a valid package keeps the registry sound: only valid packages,
/// each under its own digest.
pub proof fn lemma_approve_keeps_registry_sound(approved: Map<Seq<char>, SignedPackage>, package: SignedPackage)
    requires
        registry_sound(approved),
        package.spec_valid(),
    ensures
        registry_sound(approved.insert(package.digest@, package)),
{
}

/// A package that was approved is served back, unchanged, under its digest.
pub proof fn lemma_approved_package_is_served(approved: Map<Seq<char>, SignedPackage>, package: SignedPackage)
    requires
        package.spec_valid(),
    ensures
        lookup(approved.insert(package.digest@, package), package.digest@) == Ok::<SignedPackage, CommonsError>(
            package,
        ),
{
}

/// A sound registry never answers `InvalidPackage`, and what it serves is
/// valid and filed under the digest that was asked for.
pub proof fn lemma_sound_registry_serves_valid_packages(approved: Map<Seq<char>, SignedPackage>, digest: Seq<char>)
    requires
        registry_sound(approved),
    ensures
        lookup(approved, digest) != Err::<SignedPackage, CommonsError>(CommonsError::InvalidPackage),
        lookup(approved, digest) matches Ok(p) ==> p.spec_valid() && p.digest@ == digest,
{
}


/// Each privacy tier is written as its own JSON text: distinct tiers never
/// share one.
pub proof fn lemma_tier_json_is_injective(t: PrivacyTier, u: PrivacyTier)
    ensures
        t != u ==> tier_json(t) != tier_json(u),
        t != u ==> tier_json(t).len() != tier_json(u).len(),
{
    reveal_strlit("\"P0_PUBLIC\"");
    reveal_strlit("\"P1_MINIMIZED_SHARD\"");
    reveal_strlit("\"P2_ATTESTED_CPU\"");
    reveal_strlit("\"P3_ATTESTED_ACCELERATOR\"");
    reveal_strlit("\"P4_CRYPTOGRAPHIC\"");
    reveal_strlit("\"LOCAL_ONLY\"");
}

/// The signed payload pins the privacy tier: two manifests that differ only
/// in their minimum tier give different payloads for the same module, so a
/// package whose tier is changed after signing no longer has the payload
/// its digest and signature were made over.
pub proof fn lemma_payload_pins_the_privacy_tier(m1: ManifestView, m2: ManifestView, module: Seq<u8>)
    requires
        m1.name == m2.name,
        m1.version == m2.version,
        m1.runtime == m2.runtime,
        m1.entrypoint == m2.entrypoint,
        m1.resources == m2.resources,
        m1.network_deny_all == m2.network_deny_all,
        m1.deterministic == m2.deterministic,
        m1.verification == m2.verification,
        m1.reference_cost_ccu == m2.reference_cost_ccu,
        m1.minimum_privacy != m2.minimum_privacy,
    ensures
        manifest_json(m1) != manifest_json(m2),
        payload_of(m1, module) != payload_of(m2, module),
{
    lemma_tier_json_is_injective(m1.minimum_privacy, m2.minimum_privacy);
    assert(manifest_json(m1).len() - manifest_json(m2).len() == tier_json(m1.minimum_privacy).len() - tier_json(
        m2.minimum_privacy,
    ).len());
    let j1 = manifest_json(m1);
    let j2 = manifest_json(m2);
    if payload_of(m1, module) == payload_of(m2, module) {
        let b1 = encode_utf8(j1);
        let b2 = encode_utf8(j2);
        assert((b1 + module).len() == (b2 + module).len());
        assert(b1 =~= (b1 + module).take(b1.len() as int));
        assert(b2 =~= (b2 + module).take(b2.len() as int));
        assert(b1 == b2);
        encode_utf8_decode_utf8(j1);
        encode_utf8_decode_utf8(j2);
    }
}

} // verus!
