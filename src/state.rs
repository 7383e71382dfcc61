//! Account state as the engine reads it, and caller-supplied overrides on top of it.
use vstd::prelude::*;
use crate::numeric::PermissiveUint;

verus! {

/// A 20-byte account address, split big-endian into 4 + 8 + 8 bytes.
#[derive(Debug, Clone, Copy, PartialEq, Eq, Structural)]
pub struct Address {
    pub hi: u32,
    pub mid: u64,
    pub lo: u64,
}

/// A storage image: slot and value pairs, where a later pair for a slot
/// shadows an earlier one.
#[derive(Debug, Clone)]
pub struct Storage {
    pub entries: Vec<(PermissiveUint, PermissiveUint)>,
}

/// The slot-to-value map that a list of pairs describes, later pairs winning.
pub open spec fn entries_map(s: Seq<(PermissiveUint, PermissiveUint)>) -> Map<PermissiveUint, PermissiveUint>
    decreases s.len(),
{
    if s.len() == 0 {
        Map::empty()
    } else {
        entries_map(s.drop_last()).insert(s.last().0, s.last().1)
    }
}

impl View for Storage {
    type V = Map<PermissiveUint, PermissiveUint>;

    open spec fn view(&self) -> Map<PermissiveUint, PermissiveUint> {
        entries_map(self.entries@)
    }
}

/// What a slot reads in a storage image: its value, or zero where it is absent.
pub open spec fn slot_read(m: Map<PermissiveUint, PermissiveUint>, slot: PermissiveUint) -> nat {
    if m.contains_key(slot) {
        m[slot].value()
    } else {
        0
    }
}

proof fn lemma_entries_prefix(s: Seq<(PermissiveUint, PermissiveUint)>, i: int, k: PermissiveUint)
    requires
        0 <= i <= s.len(),
        forall|j: int| i <= j < s.len() ==> (#[trigger] s[j]).0 != k,
    ensures
        entries_map(s).contains_key(k) == entries_map(s.subrange(0, i)).contains_key(k),
        entries_map(s).contains_key(k) ==> entries_map(s)[k] == entries_map(s.subrange(0, i))[k],
    decreases s.len(),
{
    if i == s.len() {
        assert(s.subrange(0, i) =~= s);
    } else {
        let t = s.drop_last();
        assert(s[s.len() - 1].0 != k);
        assert forall|j: int| i <= j < t.len() implies (#[trigger] t[j]).0 != k by {
            assert(t[j] == s[j]);
        }
        lemma_entries_prefix(t, i, k);
        assert(t.subrange(0, i) =~= s.subrange(0, i));
    }
}

proof fn lemma_entries_append(a: Seq<(PermissiveUint, PermissiveUint)>, b: Seq<(PermissiveUint, PermissiveUint)>)
    ensures
        entries_map(a + b) == entries_map(a).union_prefer_right(entries_map(b)),
    decreases b.len(),
{
    if b.len() == 0 {
        assert(a + b =~= a);
        assert(entries_map(a).union_prefer_right(entries_map(b)) =~= entries_map(a));
    } else {
        lemma_entries_append(a, b.drop_last());
        assert((a + b).drop_last() =~= a + b.drop_last());
        assert(entries_map(a + b) =~= entries_map(a).union_prefer_right(entries_map(b)));
    }
}

impl Storage {
    /// An image with no slot set.
    pub fn new() -> (r: Storage)
        ensures
            r@ == Map::<PermissiveUint, PermissiveUint>::empty(),
    {
        Storage { entries: Vec::new() }
    }

    /// Sets one slot, leaving every other slot as it was.
    pub fn set(&mut self, slot: PermissiveUint, value: PermissiveUint)
        ensures
            final(self)@ == old(self)@.insert(slot, value),
    {
        self.entries.push((slot, value));
        assert(self.entries@.drop_last() =~= old(self).entries@);
    }

    /// What a slot reads: its value, or zero where it is absent.
    pub fn read(&self, slot: PermissiveUint) -> (r: PermissiveUint)
        ensures
            r.value() == slot_read(self@, slot),
    {
        let mut i: usize = self.entries.len();
        while i > 0
            invariant
                i <= self.entries@.len(),
                forall|j: int| i <= j < self.entries@.len() ==> (#[trigger] self.entries@[j]).0 != slot,
            decreases i,
        {
            let e = self.entries[i - 1];
            if e.0 == slot {
                proof {
                    let s = self.entries@;
                    lemma_entries_prefix(s, i as int, slot);
                    let p = s.subrange(0, i as int);
                    assert(p.last() == e);
                }
                return e.1;
            }
            i -= 1;
        }
        proof {
            lemma_entries_prefix(self.entries@, 0, slot);
            assert(self.entries@.subrange(0, 0) =~= Seq::<(PermissiveUint, PermissiveUint)>::empty());
        }
        PermissiveUint::zero()
    }

    /// Lays `other` over this image: its slots win, the others stay.
    pub fn merge(&mut self, other: Storage)
        ensures
            final(self)@ == old(self)@.union_prefer_right(other@),
    {
        let mut o = other.entries;
        proof {
            lemma_entries_append(self.entries@, o@);
        }
        self.entries.append(&mut o);
    }
}

/// How an override treats an account's storage.
#[derive(Debug, Clone)]
pub enum State {
    /// A complete replacement image: a slot it leaves out reads zero.
    Full { state: Storage },
    /// Slots merged into the existing image: a slot it leaves out keeps its value.
    Diff { state_diff: Storage },
}

/// Caller-supplied replacements for one account, applied before a call runs.
#[derive(Debug, Clone)]
pub struct StateOverride {
    pub balance: Option<PermissiveUint>,
    pub nonce: Option<u64>,
    pub code: Option<Vec<u8>>,
    pub state: Option<State>,
}

/// One account as the engine sees it.
#[derive(Debug, Clone)]
pub struct AccountState {
    pub balance: PermissiveUint,
    pub nonce: u64,
    pub code: Vec<u8>,
    pub storage: Storage,
}

/// The storage image that results from a storage override on `base`.
pub open spec fn overridden_storage(
    base: Map<PermissiveUint, PermissiveUint>,
    state: Option<State>,
) -> Map<PermissiveUint, PermissiveUint> {
    match state {
        None => base,
        Some(State::Full { state }) => state@,
        Some(State::Diff { state_diff }) => base.union_prefer_right(state_diff@),
    }
}

/// The effective account: each field that the override gives replaces the
/// fetched one, and storage follows the full or diff rule.
pub open spec fn overridden_account(account: AccountState, ov: StateOverride, r: AccountState) -> bool {
    &&& r.balance == (match ov.balance { Some(b) => b, None => account.balance })
    &&& r.nonce == (match ov.nonce { Some(n) => n, None => account.nonce })
    &&& r.code@ == (match ov.code { Some(c) => c@, None => account.code@ })
    &&& r.storage@ == overridden_storage(account.storage@, ov.state)
}

/// Applies an override to an account fetched from the chain.
pub fn apply_override(account: AccountState, ov: StateOverride) -> (r: AccountState)
    ensures
        overridden_account(account, ov, r),
{
    let AccountState { balance, nonce, code, storage } = account;
    let StateOverride { balance: ob, nonce: on, code: oc, state: os } = ov;
    let balance = match ob {
        Some(b) => b,
        None => balance,
    };
    let nonce = match on {
        Some(n) => n,
        None => nonce,
    };
    let code = match oc {
        Some(c) => c,
        None => code,
    };
    let storage = match os {
        None => storage,
        Some(State::Full { state }) => state,
        Some(State::Diff { state_diff }) => {
            let mut s = storage;
            s.merge(state_diff);
            s
        },
    };
    AccountState { balance, nonce, code, storage }
}

/// Applies each override to the account fetched for its address, the `i`-th
/// fetched account being the one at the `i`-th override's address. Each
/// effective account depends on its own fetched state and override alone.
pub fn apply_overrides(
    fetched: Vec<AccountState>,
    overrides: Vec<(Address, StateOverride)>,
) -> (r: Vec<(Address, AccountState)>)
    requires
        fetched@.len() == overrides@.len(),
    ensures
        r@.len() == overrides@.len(),
        forall|i: int| 0 <= i < r@.len() ==> (#[trigger] r@[i]).0 == overrides@[i].0
            && overridden_account(fetched@[i], overrides@[i].1, r@[i].1),
{
    let ghost f0 = fetched@;
    let ghost o0 = overrides@;
    let mut fetched = fetched;
    let mut overrides = overrides;
    let mut r: Vec<(Address, AccountState)> = Vec::new();
    while overrides.len() > 0
        invariant
            f0.len() == o0.len(),
            r@.len() + overrides@.len() == o0.len(),
            fetched@.len() == overrides@.len(),
            overrides@ == o0.subrange(r@.len() as int, o0.len() as int),
            fetched@ == f0.subrange(r@.len() as int, f0.len() as int),
            forall|i: int| 0 <= i < r@.len() ==> (#[trigger] r@[i]).0 == o0[i].0
                && overridden_account(f0[i], o0[i].1, r@[i].1),
        decreases overrides@.len(),
    {
        let (address, ov) = overrides.remove(0);
        let account = fetched.remove(0);
        let ghost k = r@.len() as int;
        assert(o0[k] == (address, ov));
        assert(f0[k] == account);
        r.push((address, apply_override(account, ov)));
        assert(overrides@ =~= o0.subrange(r@.len() as int, o0.len() as int));
        assert(fetched@ =~= f0.subrange(r@.len() as int, f0.len() as int));
    }
    r
}

/// Under a full override, a slot that the replacement image leaves out reads
/// zero, and a slot that it lists reads the listed value.
pub proof fn lemma_full_override_clears(
    base: Map<PermissiveUint, PermissiveUint>,
    image: Storage,
    slot: PermissiveUint,
)
    ensures
        !image@.contains_key(slot) ==> slot_read(
            overridden_storage(base, Some(State::Full { state: image })),
            slot,
        ) == 0,
        image@.contains_key(slot) ==> slot_read(
            overridden_storage(base, Some(State::Full { state: image })),
            slot,
        ) == image@[slot].value(),
{
}

/// Under a diff override, a slot that the override leaves out reads what it
/// read before, and a slot that it lists reads the listed value.
pub proof fn lemma_diff_override_preserves(
    base: Map<PermissiveUint, PermissiveUint>,
    diff: Storage,
    slot: PermissiveUint,
)
    ensures
        !diff@.contains_key(slot) ==> slot_read(
            overridden_storage(base, Some(State::Diff { state_diff: diff })),
            slot,
        ) == slot_read(base, slot),
        diff@.contains_key(slot) ==> slot_read(
            overridden_storage(base, Some(State::Diff { state_diff: diff })),
            slot,
        ) == diff@[slot].value(),
{
}

} // verus!
