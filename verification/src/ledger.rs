//! Fixed-cost, non-transferable compute credit with idempotent task
//! settlement, kept as an append-only, hash-linked list of entries.
use vstd::prelude::*;
use vstd::string::*;
use vstd::hash_map::StringHashMap;
use vstd::hash_set::StringHashSet;
use vstd::utf8::encode_utf8;
use crate::CommonsError;
use crate::audit::genesis;
use crate::crypto::{digest, spec_digest};
use crate::text::{debug_quoted, debug_quoted_of, decimal, decimal_string, signed_decimal, signed_decimal_string};

verus! {

/// Why a ledger entry was written.
#[derive(Clone, Copy, Debug, PartialEq, Eq)]
pub enum LedgerKind {
    BasicGrant,
    CommunityGrant,
    ComputeContributed,
    ComputeConsumed,
    Expired,
    Reversal,
    AdminCorrection,
}

/// The name of a kind, as `Debug` renders it.
pub open spec fn kind_name(kind: LedgerKind) -> Seq<char> {
    match kind {
        LedgerKind::BasicGrant => "BasicGrant"@,
        LedgerKind::CommunityGrant => "CommunityGrant"@,
        LedgerKind::ComputeContributed => "ComputeContributed"@,
        LedgerKind::ComputeConsumed => "ComputeConsumed"@,
        LedgerKind::Expired => "Expired"@,
        LedgerKind::Reversal => "Reversal"@,
        LedgerKind::AdminCorrection => "AdminCorrection"@,
    }
}

fn kind_str(kind: LedgerKind) -> (s: &'static str)
    ensures
        s@ == kind_name(kind),
{
    match kind {
        LedgerKind::BasicGrant => "BasicGrant",
        LedgerKind::CommunityGrant => "CommunityGrant",
        LedgerKind::ComputeContributed => "ComputeContributed",
        LedgerKind::ComputeConsumed => "ComputeConsumed",
        LedgerKind::Expired => "Expired",
        LedgerKind::Reversal => "Reversal",
        LedgerKind::AdminCorrection => "AdminCorrection",
    }
}

/// One ledger entry.
#[derive(Clone, Debug)]
pub struct LedgerEntry {
    pub sequence: u64,
    pub member: String,
    pub kind: LedgerKind,
    pub amount: i64,
    pub task_id: Option<String>,
    pub previous_hash: String,
    pub hash: String,
}

/// A ledger entry as plain values.
pub struct EntryView {
    pub sequence: nat,
    pub member: Seq<char>,
    pub kind: LedgerKind,
    pub amount: int,
    pub task_id: Option<Seq<char>>,
    pub previous_hash: Seq<char>,
    pub hash: Seq<char>,
}

impl View for LedgerEntry {
    type V = EntryView;

    open spec fn view(&self) -> EntryView {
        EntryView {
            sequence: self.sequence as nat,
            member: self.member@,
            kind: self.kind,
            amount: self.amount as int,
            task_id: match self.task_id {
                Some(t) => Some(t@),
                None => None,
            },
            previous_hash: self.previous_hash@,
            hash: self.hash@,
        }
    }
}

/// The task reference as `Debug` renders an `Option<&str>`.
pub open spec fn task_text(task_id: Option<Seq<char>>) -> Seq<char> {
    match task_id {
        Some(t) => "Some("@ + debug_quoted_of(t) + ")"@,
        None => "None"@,
    }
}

/// The text that is hashed for an entry:
/// `sequence|member|kind|amount|task|previous_hash`.
pub open spec fn ledger_canonical(
    sequence: nat,
    member: Seq<char>,
    kind: LedgerKind,
    amount: int,
    task_id: Option<Seq<char>>,
    previous_hash: Seq<char>,
) -> Seq<char> {
    decimal(sequence) + "|"@ + member + "|"@ + kind_name(kind) + "|"@ + signed_decimal(amount) + "|"@
        + task_text(task_id) + "|"@ + previous_hash
}

/// The entry with these fields, hashed and linked to `previous_hash`.
pub open spec fn make_entry(
    sequence: nat,
    member: Seq<char>,
    kind: LedgerKind,
    amount: int,
    task_id: Option<Seq<char>>,
    previous_hash: Seq<char>,
) -> EntryView {
    EntryView {
        sequence,
        member,
        kind,
        amount,
        task_id,
        previous_hash,
        hash: spec_digest(encode_utf8(ledger_canonical(sequence, member, kind, amount, task_id, previous_hash))),
    }
}

/// A task reference as plain values.
pub open spec fn view_task(task_id: Option<&str>) -> Option<Seq<char>> {
    match task_id {
        Some(t) => Some(t@),
        None => None,
    }
}

/// The ledger as plain values: its entries, each member's balance, and the
/// tasks already settled.
#[verifier::ext_equal]
pub struct LedgerModel {
    pub entries: Seq<EntryView>,
    pub balances: Map<Seq<char>, int>,
    pub finalized: Set<Seq<char>>,
}

impl LedgerModel {
    /// A member's balance; members never credited hold 0.
    pub open spec fn balance(self, member: Seq<char>) -> int {
        if self.balances.contains_key(member) {
            self.balances[member]
        } else {
            0
        }
    }

    /// The hash of the last entry, or the genesis value.
    pub open spec fn last_hash(self) -> Seq<char> {
        last_hash_of(self.entries)
    }

    /// Appends one entry and moves the member's balance by `amount`.
    pub open spec fn append(
        self,
        member: Seq<char>,
        kind: LedgerKind,
        amount: int,
        task_id: Option<Seq<char>>,
    ) -> LedgerModel {
        LedgerModel {
            entries: self.entries.push(
                make_entry((self.entries.len() + 1) as nat, member, kind, amount, task_id, self.last_hash()),
            ),
            balances: self.balances.insert(member, self.balance(member) + amount),
            finalized: self.finalized,
        }
    }

    /// Granting credit: refused with nothing changed when the amount, or the
    /// member's balance after it, exceeds the signed 64-bit range.
    pub open spec fn grant(self, member: Seq<char>, amount: nat) -> (LedgerModel, Result<(), CommonsError>) {
        if amount > i64::MAX || !self.credit_fits(member, amount as int) {
            (self, Err(CommonsError::CreditOverflow))
        } else {
            (self.append(member, LedgerKind::BasicGrant, amount as int, None), Ok(()))
        }
    }

    /// Settling a verified task at a fixed cost: a task already settled is
    /// answered `false` with nothing changed; a cost beyond the signed 64-bit
    /// range, or a node balance that would leave it, is `CreditOverflow`; an
    /// owner who cannot pay is `InsufficientCredit`; refusals change nothing.
    /// Otherwise the owner pays the cost to the node and the task is marked
    /// settled.
    pub open spec fn settle(
        self,
        task_id: Seq<char>,
        owner: Seq<char>,
        node: Seq<char>,
        cost: nat,
    ) -> (LedgerModel, Result<bool, CommonsError>) {
        if self.finalized.contains(task_id) {
            (self, Ok(false))
        } else if cost > i64::MAX {
            (self, Err(CommonsError::CreditOverflow))
        } else if self.balance(owner) < cost {
            (self, Err(CommonsError::InsufficientCredit))
        } else {
            let paid = self.append(owner, LedgerKind::ComputeConsumed, -cost, Some(task_id));
            if !paid.credit_fits(node, cost as int) {
                (self, Err(CommonsError::CreditOverflow))
            } else {
                let earned = paid.append(node, LedgerKind::ComputeContributed, cost as int, Some(task_id));
                (LedgerModel { finalized: earned.finalized.insert(task_id), ..earned }, Ok(true))
            }
        }
    }

    /// Crediting `amount` to `member` keeps the balance within the signed 64-bit range.
    pub open spec fn credit_fits(self, member: Seq<char>, amount: int) -> bool {
        i64::MIN <= self.balance(member) + amount <= i64::MAX
    }

    /// Whether settling the task is more than a refusal: it is not yet
    /// settled, the cost is in range, and the owner can pay it.
    pub open spec fn settles(self, task_id: Seq<char>, owner: Seq<char>, cost: nat) -> bool {
        !self.finalized.contains(task_id) && cost <= i64::MAX && self.balance(owner) >= cost
    }
}

/// The credit ledger: entries, balances and settled tasks.
pub struct CreditLedger {
    pub entries: Vec<LedgerEntry>,
    balances: StringHashMap<i64>,
    finalized_tasks: StringHashSet,
}

impl View for CreditLedger {
    type V = LedgerModel;

    closed spec fn view(&self) -> LedgerModel {
        LedgerModel {
            entries: self.entries@.map_values(|e: LedgerEntry| e@),
            balances: self.balances@.map_values(|v: i64| v as int),
            finalized: self.finalized_tasks@,
        }
    }
}

impl Default for CreditLedger {
    fn default() -> (ledger: Self)
        ensures
            ledger@.entries.len() == 0,
            ledger@.balances.is_empty(),
            ledger@.finalized.is_empty(),
            ledger@.wf(),
    {
        let ledger = CreditLedger {
            entries: Vec::new(),
            balances: StringHashMap::new(),
            finalized_tasks: StringHashSet::new(),
        };
        assert(ledger@.balances =~= Map::empty());
        ledger
    }
}

fn ledger_canonical_string(
    sequence: u64,
    member: &str,
    kind: LedgerKind,
    amount: i64,
    task_id: Option<&str>,
    previous_hash: &str,
) -> (s: String)
    ensures
        s@ == ledger_canonical(sequence as nat, member@, kind, amount as int, view_task(task_id), previous_hash@),
{
    let mut s = decimal_string(sequence);
    s.append("|");
    s.append(member);
    s.append("|");
    s.append(kind_str(kind));
    s.append("|");
    let amount_text = signed_decimal_string(amount);
    s.append(amount_text.as_str());
    s.append("|");
    match task_id {
        Some(t) => {
            s.append("Some(");
            let quoted = debug_quoted(t);
            s.append(quoted.as_str());
            s.append(")");
        },
        None => {
            s.append("None");
        },
    }
    s.append("|");
    s.append(previous_hash);
    s
}

impl CreditLedger {
    /// Grants `amount` credit to `member`; an amount beyond the signed 64-bit
    /// range, or one that would carry the balance beyond it, is refused with
    /// `CreditOverflow` and nothing changes.
    pub fn grant(&mut self, member: &str, amount: u64) -> (r: Result<(), CommonsError>)
        requires
            amount <= i64::MAX ==> old(self)@.entries.len() < u64::MAX,
        ensures
            (final(self)@, r) == old(self)@.grant(member@, amount as nat),
            old(self)@.finalized.subset_of(final(self)@.finalized),
            old(self)@.entries.is_prefix_of(final(self)@.entries),
            entries_sequenced(old(self)@.entries) ==> entries_sequenced(final(self)@.entries),
            balances_match_entries(old(self)@) ==> balances_match_entries(final(self)@),
            balances_nonnegative(old(self)@) ==> balances_nonnegative(final(self)@),
            old(self)@.wf() ==> final(self)@.wf(),
    {
        proof {
            lemma_grant_keeps_ledger_laws(self@, member@, amount as nat);
        }
        if amount > i64::MAX as u64 {
            return Err(CommonsError::CreditOverflow);
        }
        let credit = amount as i64;
        if self.balance(member) > i64::MAX - credit {
            return Err(CommonsError::CreditOverflow);
        }
        self.append(member, LedgerKind::BasicGrant, credit, None);
        Ok(())
    }

    /// Settles a verified task: the owner pays `fixed_cost` to the node, once
    /// per task. A task already settled answers `Ok(false)` and changes
    /// nothing; a cost beyond the signed 64-bit range, or a node balance that
    /// would leave it, is `CreditOverflow`; an owner with too little credit
    /// is `InsufficientCredit`; a refusal changes nothing.
    pub fn settle_verified(&mut self, task_id: &str, owner: &str, node: &str, fixed_cost: u64) -> (r: Result<
        bool,
        CommonsError,
    >)
        requires
            old(self)@.settles(task_id@, owner@, fixed_cost as nat) ==> old(self)@.entries.len() + 2 <= u64::MAX,
        ensures
            (final(self)@, r) == old(self)@.settle(task_id@, owner@, node@, fixed_cost as nat),
            old(self)@.finalized.subset_of(final(self)@.finalized),
            old(self)@.entries.is_prefix_of(final(self)@.entries),
            entries_sequenced(old(self)@.entries) ==> entries_sequenced(final(self)@.entries),
            balances_match_entries(old(self)@) ==> balances_match_entries(final(self)@),
            balances_nonnegative(old(self)@) ==> balances_nonnegative(final(self)@),
            old(self)@.wf() ==> final(self)@.wf(),
    {
        proof {
            lemma_settle_keeps_ledger_laws(self@, task_id@, owner@, node@, fixed_cost as nat);
        }
        if self.finalized_tasks.contains(task_id) {
            return Ok(false);
        }
        if fixed_cost > i64::MAX as u64 {
            return Err(CommonsError::CreditOverflow);
        }
        let cost = fixed_cost as i64;
        let owner_balance = self.balance(owner);
        if owner_balance < cost {
            return Err(CommonsError::InsufficientCredit);
        }
        let node_balance = self.balance(node);
        let node_is_owner = String::from_str(node) == String::from_str(owner);
        let node_after_payment = if node_is_owner {
            node_balance - cost
        } else {
            node_balance
        };
        if node_after_payment > i64::MAX - cost {
            return Err(CommonsError::CreditOverflow);
        }
        self.append(owner, LedgerKind::ComputeConsumed, -cost, Some(task_id));
        self.append(node, LedgerKind::ComputeContributed, cost, Some(task_id));
        self.finalized_tasks.insert(String::from_str(task_id));
        Ok(true)
    }

    /// A member's balance; members never credited hold 0.
    pub fn balance(&self, member: &str) -> (b: i64)
        ensures
            b == self@.balance(member@),
    {
        match self.balances.get(member) {
            Some(v) => *v,
            None => 0,
        }
    }

    /// Credit cannot be transferred between members: always refused with
    /// `TransferForbidden`, and nothing changes.
    pub fn transfer(&mut self, from: &str, to: &str, amount: u64) -> (r: Result<(), CommonsError>)
        ensures
            final(self)@ == old(self)@,
            r == Err::<(), CommonsError>(CommonsError::TransferForbidden),
    {
        Err(CommonsError::TransferForbidden)
    }

    fn last_hash(&self) -> (h: String)
        ensures
            h@ == self@.last_hash(),
    {
        if self.entries.len() == 0 {
            String::from_str("GENESIS")
        } else {
            self.entries[self.entries.len() - 1].hash.clone()
        }
    }

    fn append(&mut self, member: &str, kind: LedgerKind, amount: i64, task_id: Option<&str>)
        requires
            old(self)@.entries.len() < u64::MAX,
            old(self)@.credit_fits(member@, amount as int),
        ensures
            final(self)@ == old(self)@.append(member@, kind, amount as int, view_task(task_id)),
    {
        let ghost before = self@;
        let previous_hash = self.last_hash();
        let sequence: u64 = self.entries.len() as u64 + 1;
        let canonical = ledger_canonical_string(sequence, member, kind, amount, task_id, previous_hash.as_str());
        let hash = digest(canonical.as_str().as_bytes());
        let owned_task = match task_id {
            Some(t) => Some(String::from_str(t)),
            None => None,
        };
        let entry = LedgerEntry {
            sequence,
            member: String::from_str(member),
            kind,
            amount,
            task_id: owned_task,
            previous_hash,
            hash,
        };
        let current = self.balance(member);
        self.balances.insert(String::from_str(member), current + amount);
        let ghost old_entries = self.entries@;
        self.entries.push(entry);
        proof {
            assert(self.entries@.map_values(|e: LedgerEntry| e@) =~= old_entries.map_values(
                |e: LedgerEntry| e@,
            ).push(entry@));
            assert(self@.balances =~= before.balances.insert(member@, before.balance(member@) + amount));
            assert(self@ =~= before.append(member@, kind, amount as int, view_task(task_id)));
        }
    }
}

} // verus!

verus! {

/// The hash of the last of `entries`, or the genesis value.
pub open spec fn last_hash_of(entries: Seq<EntryView>) -> Seq<char> {
    if entries.len() == 0 {
        genesis()
    } else {
        entries.last().hash
    }
}

/// The sum of the amounts of the entries written for `member`.
pub open spec fn member_total(entries: Seq<EntryView>, member: Seq<char>) -> int
    decreases entries.len(),
{
    if entries.len() == 0 {
        0
    } else {
        member_total(entries.drop_last(), member) + if entries.last().member == member {
            entries.last().amount
        } else {
            0
        }
    }
}

/// Entry `i` is numbered `i + 1`, links to the hash before it, and carries
/// the hash of its own fields.
pub open spec fn entry_linked_at(entries: Seq<EntryView>, i: int) -> bool {
    let e = entries[i];
    e == make_entry((i + 1) as nat, e.member, e.kind, e.amount, e.task_id, last_hash_of(entries.take(i)))
}

/// Every entry is numbered in order and linked to the one before it.
pub open spec fn entries_linked(entries: Seq<EntryView>) -> bool {
    forall|i: int| 0 <= i < entries.len() ==> #[trigger] entry_linked_at(entries, i)
}

impl LedgerModel {
    /// The ledger's invariant: entries are hash-linked, every balance is the
    /// sum of that member's entries, and no balance is negative.
    pub open spec fn wf(self) -> bool {
        &&& entries_linked(self.entries)
        &&& balances_match_entries(self)
        &&& balances_nonnegative(self)
    }
}

/// Entry `i` is numbered `i + 1` and names the hash of the entry before it
/// (the genesis value for the first).
pub open spec fn entry_sequenced_at(entries: Seq<EntryView>, i: int) -> bool {
    entries[i].sequence == i + 1 && entries[i].previous_hash == last_hash_of(entries.take(i))
}

/// Every entry is numbered in order and names the hash of the one before it.
pub open spec fn entries_sequenced(entries: Seq<EntryView>) -> bool {
    forall|i: int| 0 <= i < entries.len() ==> #[trigger] entry_sequenced_at(entries, i)
}

/// Every member's balance is the sum of the amounts of that member's entries.
pub open spec fn balances_match_entries(l: LedgerModel) -> bool {
    forall|m: Seq<char>| #[trigger] l.balance(m) == member_total(l.entries, m)
}

/// No member's balance is negative.
pub open spec fn balances_nonnegative(l: LedgerModel) -> bool {
    forall|m: Seq<char>| #[trigger] l.balance(m) >= 0
}

/// The sum of the amounts of all entries.
pub open spec fn entries_total(entries: Seq<EntryView>) -> int
    decreases entries.len(),
{
    if entries.len() == 0 {
        0
    } else {
        entries_total(entries.drop_last()) + entries.last().amount
    }
}

/// The sum of the balances of the members in a finite set.
pub open spec fn balance_sum(l: LedgerModel, members: Set<Seq<char>>) -> int
    decreases members.len(),
    when members.finite()
{
    if members.len() == 0 {
        0
    } else {
        let m = members.choose();
        l.balance(m) + balance_sum(l, members.remove(m))
    }
}

proof fn lemma_append_laws(l: LedgerModel, member: Seq<char>, kind: LedgerKind, amount: int, task_id: Option<Seq<char>>)
    ensures
        ({
            let n = l.append(member, kind, amount, task_id);
            &&& l.entries.is_prefix_of(n.entries)
            &&& entries_sequenced(l.entries) ==> entries_sequenced(n.entries)
            &&& entries_linked(l.entries) ==> entries_linked(n.entries)
            &&& balances_match_entries(l) ==> balances_match_entries(n)
            &&& forall|m: Seq<char>| #[trigger] n.balance(m) == l.balance(m) + if m == member {
                amount
            } else {
                0
            }
            &&& entries_total(n.entries) == entries_total(l.entries) + amount
            &&& n.finalized == l.finalized
        }),
{
    let n = l.append(member, kind, amount, task_id);
    assert(n.entries.drop_last() =~= l.entries);
    assert(n.entries.take(l.entries.len() as int) =~= l.entries);
    if entries_sequenced(l.entries) {
        assert forall|i: int| 0 <= i < n.entries.len() implies #[trigger] entry_sequenced_at(n.entries, i) by {
            if i < l.entries.len() {
                assert(n.entries.take(i) =~= l.entries.take(i));
                assert(entry_sequenced_at(l.entries, i));
            }
        }
    }
    if entries_linked(l.entries) {
        assert forall|i: int| 0 <= i < n.entries.len() implies #[trigger] entry_linked_at(n.entries, i) by {
            if i < l.entries.len() {
                assert(n.entries.take(i) =~= l.entries.take(i));
                assert(entry_linked_at(l.entries, i));
            }
        }
    }
    if balances_match_entries(l) {
        assert forall|m: Seq<char>| #[trigger] n.balance(m) == member_total(n.entries, m) by {
            assert(l.balance(m) == member_total(l.entries, m));
        }
    }
}

/// Granting credit keeps each ledger law on its own hypothesis: entries are
/// only appended; numbering and links to the previous hash, full hash links,
/// balances as sums of entries, and non-negative balances each stay as they
/// were.
pub proof fn lemma_grant_keeps_ledger_laws(l: LedgerModel, member: Seq<char>, amount: nat)
    ensures
        ({
            let n = l.grant(member, amount).0;
            &&& l.entries.is_prefix_of(n.entries)
            &&& entries_sequenced(l.entries) ==> entries_sequenced(n.entries)
            &&& entries_linked(l.entries) ==> entries_linked(n.entries)
            &&& balances_match_entries(l) ==> balances_match_entries(n)
            &&& balances_nonnegative(l) ==> balances_nonnegative(n)
            &&& l.wf() ==> n.wf()
        }),
{
    assert(l.entries.is_prefix_of(l.entries)) by {
        assert(l.entries.take(l.entries.len() as int) =~= l.entries);
    }
    if amount <= i64::MAX && l.credit_fits(member, amount as int) {
        lemma_append_laws(l, member, LedgerKind::BasicGrant, amount as int, None);
        let n = l.grant(member, amount).0;
        if balances_nonnegative(l) {
            assert forall|m: Seq<char>| #[trigger] n.balance(m) >= 0 by {
                assert(l.balance(m) >= 0);
            }
        }
    }
}

/// Settling a task keeps each ledger law on its own hypothesis: entries are
/// only appended; numbering and links to the previous hash, full hash links,
/// balances as sums of entries, and non-negative balances each stay as they
/// were.
pub proof fn lemma_settle_keeps_ledger_laws(
    l: LedgerModel,
    task_id: Seq<char>,
    owner: Seq<char>,
    node: Seq<char>,
    cost: nat,
)
    ensures
        ({
            let n = l.settle(task_id, owner, node, cost).0;
            &&& l.entries.is_prefix_of(n.entries)
            &&& entries_sequenced(l.entries) ==> entries_sequenced(n.entries)
            &&& entries_linked(l.entries) ==> entries_linked(n.entries)
            &&& balances_match_entries(l) ==> balances_match_entries(n)
            &&& balances_nonnegative(l) ==> balances_nonnegative(n)
            &&& l.wf() ==> n.wf()
        }),
{
    assert(l.entries.is_prefix_of(l.entries)) by {
        assert(l.entries.take(l.entries.len() as int) =~= l.entries);
    }
    if l.settle(task_id, owner, node, cost).1 == Ok::<bool, CommonsError>(true) {
        lemma_append_laws(l, owner, LedgerKind::ComputeConsumed, -cost, Some(task_id));
        let paid = l.append(owner, LedgerKind::ComputeConsumed, -cost, Some(task_id));
        lemma_append_laws(paid, node, LedgerKind::ComputeContributed, cost as int, Some(task_id));
        let earned = paid.append(node, LedgerKind::ComputeContributed, cost as int, Some(task_id));
        let n = l.settle(task_id, owner, node, cost).0;
        assert(n.entries == earned.entries);
        assert(l.entries.is_prefix_of(n.entries)) by {
            assert(n.entries.take(l.entries.len() as int) =~= l.entries);
        }
        if balances_nonnegative(l) {
            assert forall|m: Seq<char>| #[trigger] n.balance(m) >= 0 by {
                assert(l.balance(m) >= 0);
                assert(paid.balance(m) == l.balance(m) + if m == owner { -cost } else { 0 });
                assert(earned.balance(m) == paid.balance(m) + if m == node { cost as int } else { 0 });
            }
        }
        if balances_match_entries(l) {
            assert forall|m: Seq<char>| #[trigger] n.balance(m) == member_total(n.entries, m) by {
                assert(earned.balance(m) == member_total(earned.entries, m));
            }
        }
    }
}

/// Settlement is idempotent: once a task has been settled, settling it
/// again answers `Ok(false)` and changes nothing, whoever is named and
/// whatever the cost.
pub proof fn lemma_settlement_is_idempotent(
    l: LedgerModel,
    task_id: Seq<char>,
    owner: Seq<char>,
    node: Seq<char>,
    cost: nat,
    owner2: Seq<char>,
    node2: Seq<char>,
    cost2: nat,
)
    requires
        l.settle(task_id, owner, node, cost).1 == Ok::<bool, CommonsError>(true),
    ensures
        ({
            let settled = l.settle(task_id, owner, node, cost).0;
            settled.settle(task_id, owner2, node2, cost2) == (settled, Ok::<bool, CommonsError>(false))
        }),
{
}

/// A settled task stays settled: neither a grant nor a settlement ever
/// removes a task from the settled set, and a settlement that succeeds adds
/// its task to it.
pub proof fn lemma_settled_tasks_stay_settled(
    l: LedgerModel,
    member: Seq<char>,
    amount: nat,
    task_id: Seq<char>,
    owner: Seq<char>,
    node: Seq<char>,
    cost: nat,
)
    ensures
        l.finalized.subset_of(l.grant(member, amount).0.finalized),
        l.finalized.subset_of(l.settle(task_id, owner, node, cost).0.finalized),
        l.settle(task_id, owner, node, cost).1 == Ok::<bool, CommonsError>(true) ==> l.settle(
            task_id,
            owner,
            node,
            cost,
        ).0.finalized.contains(task_id),
{
}

/// A settled task never settles again: in any ledger whose settled set holds
/// the task (as every ledger reached after its settlement does), settling it
/// answers `Ok(false)` and changes nothing, whoever is named and whatever
/// the cost.
pub proof fn lemma_settled_task_never_settles_again(
    l: LedgerModel,
    task_id: Seq<char>,
    owner: Seq<char>,
    node: Seq<char>,
    cost: nat,
)
    requires
        l.finalized.contains(task_id),
    ensures
        l.settle(task_id, owner, node, cost) == (l, Ok::<bool, CommonsError>(false)),
{
}

/// A settlement moves exactly the fixed cost from the owner to the node
/// and leaves every other balance as it was; credit is neither created nor
/// destroyed.
pub proof fn lemma_settlement_moves_fixed_cost(
    l: LedgerModel,
    task_id: Seq<char>,
    owner: Seq<char>,
    node: Seq<char>,
    cost: nat,
    m: Seq<char>,
)
    requires
        l.settle(task_id, owner, node, cost).1 == Ok::<bool, CommonsError>(true),
    ensures
        l.settle(task_id, owner, node, cost).0.balance(m) == l.balance(m) - (if m == owner { cost as int } else { 0 })
            + (if m == node { cost as int } else { 0 }),
        l.settle(task_id, owner, node, cost).0.finalized.contains(task_id),
{
}

} // verus!


verus! {

proof fn lemma_balance_sum_agrees(a: LedgerModel, b: LedgerModel, members: Set<Seq<char>>)
    requires
        members.finite(),
        forall|m: Seq<char>| members.contains(m) ==> #[trigger] a.balance(m) == b.balance(m),
    ensures
        balance_sum(a, members) == balance_sum(b, members),
    decreases members.len(),
{
    if members.len() > 0 {
        let m = members.choose();
        lemma_balance_sum_agrees(a, b, members.remove(m));
    }
}

proof fn lemma_balance_sum_moves(a: LedgerModel, b: LedgerModel, members: Set<Seq<char>>, k: Seq<char>, delta: int)
    requires
        members.finite(),
        members.contains(k),
        b.balance(k) == a.balance(k) + delta,
        forall|m: Seq<char>| m != k ==> #[trigger] a.balance(m) == b.balance(m),
    ensures
        balance_sum(b, members) == balance_sum(a, members) + delta,
    decreases members.len(),
{
    let m = members.choose();
    if m == k {
        lemma_balance_sum_agrees(a, b, members.remove(m));
    } else {
        lemma_balance_sum_moves(a, b, members.remove(m), k, delta);
    }
}

/// Credit is conserved by settlement: over any finite set of members that
/// includes the owner and the node, the sum of balances is the same before
/// and after, and so is the sum of all entries' amounts.
pub proof fn lemma_settlement_conserves_credit(
    l: LedgerModel,
    task_id: Seq<char>,
    owner: Seq<char>,
    node: Seq<char>,
    cost: nat,
    members: Set<Seq<char>>,
)
    requires
        members.finite(),
        members.contains(owner),
        members.contains(node),
    ensures
        balance_sum(l.settle(task_id, owner, node, cost).0, members) == balance_sum(l, members),
        entries_total(l.settle(task_id, owner, node, cost).0.entries) == entries_total(l.entries),
{
    if l.settle(task_id, owner, node, cost).1 == Ok::<bool, CommonsError>(true) {
        lemma_append_laws(l, owner, LedgerKind::ComputeConsumed, -cost, Some(task_id));
        let paid = l.append(owner, LedgerKind::ComputeConsumed, -cost, Some(task_id));
        lemma_append_laws(paid, node, LedgerKind::ComputeContributed, cost as int, Some(task_id));
        let earned = paid.append(node, LedgerKind::ComputeContributed, cost as int, Some(task_id));
        let n = l.settle(task_id, owner, node, cost).0;
        lemma_balance_sum_moves(l, paid, members, owner, -cost);
        lemma_balance_sum_moves(paid, earned, members, node, cost as int);
        lemma_balance_sum_agrees(earned, n, members);
    }
}


/// One call on the ledger, as plain values.
pub enum LedgerOp {
    Grant(Seq<char>, nat),
    Settle(Seq<char>, Seq<char>, Seq<char>, nat),
    Transfer,
}

impl LedgerModel {
    /// The ledger after one call; a transfer is always refused and changes nothing.
    pub open spec fn step(self, op: LedgerOp) -> LedgerModel {
        match op {
            LedgerOp::Grant(member, amount) => self.grant(member, amount).0,
            LedgerOp::Settle(task_id, owner, node, cost) => self.settle(task_id, owner, node, cost).0,
            LedgerOp::Transfer => self,
        }
    }

    /// The ledger after a sequence of calls, in order.
    pub open spec fn run(self, ops: Seq<LedgerOp>) -> LedgerModel
        decreases ops.len(),
    {
        if ops.len() == 0 {
            self
        } else {
            self.step(ops[0]).run(ops.drop_first())
        }
    }
}

proof fn lemma_run_keeps_settled(l: LedgerModel, ops: Seq<LedgerOp>, task_id: Seq<char>)
    requires
        l.finalized.contains(task_id),
    ensures
        l.run(ops).finalized.contains(task_id),
    decreases ops.len(),
{
    if ops.len() > 0 {
        lemma_run_keeps_settled(l.step(ops[0]), ops.drop_first(), task_id);
    }
}

/// A task settles at most once in the ledger's life: once it has been
/// settled, settling it again after any sequence of later calls answers
/// `Ok(false)` and changes nothing, whoever is named and whatever the cost.
pub proof fn lemma_settled_task_is_refused_ever_after(
    l: LedgerModel,
    task_id: Seq<char>,
    owner: Seq<char>,
    node: Seq<char>,
    cost: nat,
    ops: Seq<LedgerOp>,
    later_owner: Seq<char>,
    later_node: Seq<char>,
    later_cost: nat,
)
    requires
        l.settle(task_id, owner, node, cost).1 == Ok::<bool, CommonsError>(true),
    ensures
        ({
            let later = l.settle(task_id, owner, node, cost).0.run(ops);
            later.settle(task_id, later_owner, later_node, later_cost) == (later, Ok::<bool, CommonsError>(false))
        }),
{
    lemma_run_keeps_settled(l.settle(task_id, owner, node, cost).0, ops, task_id);
}

/// The ledger's laws hold in every state it reaches: from a well-formed
/// ledger, any sequence of calls keeps the entries hash-linked and numbered,
/// every balance the sum of that member's entries and none negative, and
/// only ever appends entries.
pub proof fn lemma_every_later_ledger_keeps_the_laws(l: LedgerModel, ops: Seq<LedgerOp>)
    requires
        l.wf(),
    ensures
        l.run(ops).wf(),
        l.entries.is_prefix_of(l.run(ops).entries),
    decreases ops.len(),
{
    if ops.len() == 0 {
        assert(l.entries.take(l.entries.len() as int) =~= l.entries);
    } else {
        let next = l.step(ops[0]);
        match ops[0] {
            LedgerOp::Grant(member, amount) => lemma_grant_keeps_ledger_laws(l, member, amount),
            LedgerOp::Settle(task_id, owner, node, cost) => lemma_settle_keeps_ledger_laws(
                l,
                task_id,
                owner,
                node,
                cost,
            ),
            LedgerOp::Transfer => {
                assert(l.entries.take(l.entries.len() as int) =~= l.entries);
            },
        }
        lemma_every_later_ledger_keeps_the_laws(next, ops.drop_first());
        let last = next.run(ops.drop_first());
        assert(l.entries.is_prefix_of(last.entries)) by {
            assert(last.entries.take(next.entries.len() as int) =~= next.entries);
            assert(last.entries.take(l.entries.len() as int) =~= next.entries.take(l.entries.len() as int));
            assert(next.entries.take(l.entries.len() as int) =~= l.entries);
        }
    }
}

} // verus!
