//! Append-only, hash-linked audit records whose latest hash (the root) can
//! be signed and checked with Ed25519.
use vstd::prelude::*;
use vstd::string::*;
use vstd::utf8::encode_utf8;
use crate::crypto::{digest, ed25519_accepts, ed25519_public_of, ed25519_sign, ed25519_signature_of, ed25519_verify, spec_digest};
use crate::text::{decimal, decimal_string};

verus! {

/// One audit record: its position, what happened, who did it, why, and the
/// hashes that link it to the record before.
#[derive(Clone, Debug)]
pub struct AuditEvent {
    pub sequence: u64,
    pub kind: String,
    pub actor: String,
    pub reason_code: String,
    pub previous_hash: String,
    pub hash: String,
}

/// The hash that stands before the first record.
pub open spec fn genesis() -> Seq<char> {
    "GENESIS"@
}

/// The text that is hashed for a record: `sequence|kind|actor|reason_code|previous_hash`.
pub open spec fn audit_canonical(
    sequence: nat,
    kind: Seq<char>,
    actor: Seq<char>,
    reason_code: Seq<char>,
    previous_hash: Seq<char>,
) -> Seq<char> {
    decimal(sequence) + "|"@ + kind + "|"@ + actor + "|"@ + reason_code + "|"@ + previous_hash
}

/// The hash of a record with these fields.
pub open spec fn audit_hash(
    sequence: nat,
    kind: Seq<char>,
    actor: Seq<char>,
    reason_code: Seq<char>,
    previous_hash: Seq<char>,
) -> Seq<char> {
    spec_digest(encode_utf8(audit_canonical(sequence, kind, actor, reason_code, previous_hash)))
}

/// The root of a sequence of records: the hash of the last one, or the genesis value.
pub open spec fn root_of(events: Seq<AuditEvent>) -> Seq<char> {
    if events.len() == 0 {
        genesis()
    } else {
        events.last().hash@
    }
}

/// `e` is the record with these fields and the hash they determine.
pub open spec fn is_record(
    e: AuditEvent,
    sequence: nat,
    kind: Seq<char>,
    actor: Seq<char>,
    reason_code: Seq<char>,
    previous_hash: Seq<char>,
) -> bool {
    &&& e.sequence == sequence
    &&& e.kind@ == kind
    &&& e.actor@ == actor
    &&& e.reason_code@ == reason_code
    &&& e.previous_hash@ == previous_hash
    &&& e.hash@ == audit_hash(sequence, kind, actor, reason_code, previous_hash)
}

/// Record `i` is numbered `i + 1`, links to the root of the records before it,
/// and carries the hash of its own fields.
pub open spec fn linked_at(events: Seq<AuditEvent>, i: int) -> bool {
    let e = events[i];
    is_record(e, (i + 1) as nat, e.kind@, e.actor@, e.reason_code@, root_of(events.take(i)))
}

/// Every record is numbered in order and linked to the one before it.
pub open spec fn is_hash_linked(events: Seq<AuditEvent>) -> bool {
    forall|i: int| 0 <= i < events.len() ==> #[trigger] linked_at(events, i)
}

/// Record `i` is numbered `i + 1` and names the root of the records before it.
pub open spec fn sequenced_at(events: Seq<AuditEvent>, i: int) -> bool {
    events[i].sequence == i + 1 && events[i].previous_hash@ == root_of(events.take(i))
}

/// Every record is numbered in order and names the hash of the one before
/// it (the genesis value for the first).
pub open spec fn is_sequenced(events: Seq<AuditEvent>) -> bool {
    forall|i: int| 0 <= i < events.len() ==> #[trigger] sequenced_at(events, i)
}

/// An append-only chain of audit records.
pub struct AuditChain {
    pub events: Vec<AuditEvent>,
}

impl Default for AuditChain {
    fn default() -> (chain: Self)
        ensures
            chain.events@.len() == 0,
            is_sequenced(chain.events@),
            is_hash_linked(chain.events@),
    {
        AuditChain { events: Vec::new() }
    }
}

fn audit_canonical_string(
    sequence: u64,
    kind: &str,
    actor: &str,
    reason_code: &str,
    previous_hash: &str,
) -> (s: String)
    ensures
        s@ == audit_canonical(sequence as nat, kind@, actor@, reason_code@, previous_hash@),
{
    let mut s = decimal_string(sequence);
    s.append("|");
    s.append(kind);
    s.append("|");
    s.append(actor);
    s.append("|");
    s.append(reason_code);
    s.append("|");
    s.append(previous_hash);
    s
}

impl AuditChain {
    /// The current root: the hash of the last record, or `GENESIS`.
    pub open spec fn spec_root(self) -> Seq<char> {
        root_of(self.events@)
    }

    /// Appends a record that links to the current root. Earlier records are
    /// left as they are, and a hash-linked chain stays hash-linked.
    pub fn record(&mut self, kind: &str, actor: &str, reason_code: &str)
        requires
            old(self).events@.len() < u64::MAX,
        ensures
            final(self).events@.len() == old(self).events@.len() + 1,
            final(self).events@.drop_last() == old(self).events@,
            is_record(
                final(self).events@.last(),
                (old(self).events@.len() + 1) as nat,
                kind@,
                actor@,
                reason_code@,
                old(self).spec_root(),
            ),
            final(self).spec_root() == audit_hash(
                (old(self).events@.len() + 1) as nat,
                kind@,
                actor@,
                reason_code@,
                old(self).spec_root(),
            ),
            is_sequenced(old(self).events@) ==> is_sequenced(final(self).events@),
            is_hash_linked(old(self).events@) ==> is_hash_linked(final(self).events@),
    {
        let previous_hash = self.root();
        let sequence: u64 = self.events.len() as u64 + 1;
        let canonical = audit_canonical_string(sequence, kind, actor, reason_code, previous_hash.as_str());
        let hash = digest(canonical.as_str().as_bytes());
        let ghost old_events = self.events@;
        self.events.push(AuditEvent {
            sequence,
            kind: String::from_str(kind),
            actor: String::from_str(actor),
            reason_code: String::from_str(reason_code),
            previous_hash,
            hash,
        });
        proof {
            let events = self.events@;
            assert(events.drop_last() =~= old_events);
            assert(events.take(old_events.len() as int) =~= old_events);
            if is_sequenced(old_events) {
                assert forall|i: int| 0 <= i < events.len() implies #[trigger] sequenced_at(events, i) by {
                    if i < old_events.len() {
                        assert(events.take(i) =~= old_events.take(i));
                        assert(sequenced_at(old_events, i));
                    }
                }
            }
            if is_hash_linked(old_events) {
                assert forall|i: int| 0 <= i < events.len() implies #[trigger] linked_at(events, i) by {
                    if i < old_events.len() {
                        assert(events.take(i) =~= old_events.take(i));
                        assert(linked_at(old_events, i));
                    }
                }
            }
        }
    }

    /// The current root: the hash of the last record, or `GENESIS`.
    pub fn root(&self) -> (r: String)
        ensures
            r@ == self.spec_root(),
    {
        if self.events.len() == 0 {
            String::from_str("GENESIS")
        } else {
            self.events[self.events.len() - 1].hash.clone()
        }
    }

    /// Signs the UTF-8 bytes of the current root with an Ed25519 secret key.
    /// The signature verifies under that key's public key as long as the
    /// chain is unchanged.
    pub fn sign_root(&self, secret: &[u8; 32]) -> (signature: [u8; 64])
        ensures
            signature@ == ed25519_signature_of(secret@, encode_utf8(self.spec_root())),
            ed25519_accepts(ed25519_public_of(secret@), encode_utf8(self.spec_root()), signature@),
    {
        let root = self.root();
        ed25519_sign(secret, root.as_str().as_bytes())
    }

    /// Whether `signature` is an Ed25519 signature of the current root's
    /// UTF-8 bytes under `public`.
    pub fn verify_root(&self, public: &[u8; 32], signature: &[u8; 64]) -> (ok: bool)
        ensures
            ok == ed25519_accepts(public@, encode_utf8(self.spec_root()), signature@),
    {
        let root = self.root();
        ed25519_verify(public, root.as_str().as_bytes(), signature)
    }
}

} // verus!
