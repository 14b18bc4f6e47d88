//! The store of discovered wallets, keyed by the digest of their name.

use crate::codec::{blake3_digest, blake3_hash, lowercase, to_lowercase};
use crate::wallet::{Wallet, WalletView};
use vstd::prelude::*;

verus! {

/// The key under which a wallet of the given name is stored: the BLAKE3
/// digest of the UTF-8 bytes of the name in lowercase.
pub open spec fn fingerprint_of(name: Seq<char>) -> Seq<u8> {
    blake3_digest(vstd::utf8::encode_utf8(lowercase(name)))
}

/// Computes the key under which a wallet of the given name is stored.
pub fn fingerprint(name: &str) -> (digest: [u8; 32])
    ensures
        digest@ == fingerprint_of(name@),
{
    let lowered = to_lowercase(name);
    blake3_hash(lowered.as_str().as_bytes())
}

/// Whether two digests are the same.
pub fn same_digest(left: &[u8; 32], right: &[u8; 32]) -> (same: bool)
    ensures
        same == (left@ == right@),
{
    let mut i: usize = 0;
    while i < 32
        invariant
            i <= 32,
            forall|j: int| 0 <= j < i ==> left@[j] == right@[j],
        decreases 32 - i,
    {
        if left[i] != right[i] {
            return false;
        }
        i += 1;
    }
    assert(left@ =~= right@);
    true
}

/// A wallet with the key it is stored under.
#[derive(Debug)]
pub struct RegistryEntry {
    fingerprint: [u8; 32],
    wallet: Wallet,
}

/// The store of discovered wallets. No key occurs twice in it, and every
/// wallet is stored under the digest of its own name.
#[derive(Debug)]
pub struct Registry {
    entries: Vec<RegistryEntry>,
}

/// The mapping that the first `n` of `entries` make up.
pub closed spec fn entries_map(entries: Seq<RegistryEntry>, n: nat) -> Map<Seq<u8>, WalletView>
    decreases n,
{
    if n == 0 || n > entries.len() {
        Map::empty()
    } else {
        entries_map(entries, (n - 1) as nat).insert(
            entries[n - 1].fingerprint@,
            entries[n - 1].wallet@,
        )
    }
}

/// Whether no two of `entries` have the same key, and each has the key of
/// its wallet's name.
pub closed spec fn entries_valid(entries: Seq<RegistryEntry>) -> bool {
    &&& forall|i: int, j: int|
        0 <= i < j < entries.len() ==> (#[trigger] entries[i]).fingerprint@ != (
        #[trigger] entries[j]).fingerprint@
    &&& forall|i: int|
        0 <= i < entries.len() ==> (#[trigger] entries[i]).fingerprint@ == fingerprint_of(
            entries[i].wallet@.name,
        )
}

/// What `entries_map` holds: the keys of the entries, each with its wallet.
proof fn lemma_entries_map(entries: Seq<RegistryEntry>, n: nat)
    requires
        n <= entries.len(),
        entries_valid(entries),
    ensures
        entries_map(entries, n).dom().finite(),
        entries_map(entries, n).dom().len() == n,
        forall|key: Seq<u8>|
            entries_map(entries, n).dom().contains(key) <==> exists|i: int|
                0 <= i < n && (#[trigger] entries[i]).fingerprint@ == key,
        forall|i: int|
            0 <= i < n ==> entries_map(entries, n)[(#[trigger] entries[i]).fingerprint@]
                == entries[i].wallet@,
    decreases n,
{
    if n > 0 {
        lemma_entries_map(entries, (n - 1) as nat);
        let earlier = entries_map(entries, (n - 1) as nat);
        let last = entries[n - 1];
        assert(!earlier.dom().contains(last.fingerprint@)) by {
            if earlier.dom().contains(last.fingerprint@) {
                let i = choose|i: int|
                    0 <= i < n - 1 && (#[trigger] entries[i]).fingerprint@ == last.fingerprint@;
                assert(entries[i].fingerprint@ != entries[n - 1].fingerprint@);
            }
        }
        assert forall|key: Seq<u8>|
            entries_map(entries, n).dom().contains(key) <==> exists|i: int|
                0 <= i < n && (#[trigger] entries[i]).fingerprint@ == key by {
            if entries_map(entries, n).dom().contains(key) {
                if key == last.fingerprint@ {
                    assert(entries[n - 1].fingerprint@ == key);
                } else {
                    let i = choose|i: int|
                        0 <= i < n - 1 && (#[trigger] entries[i]).fingerprint@ == key;
                    assert(0 <= i < n && entries[i].fingerprint@ == key);
                }
            }
            if exists|i: int| 0 <= i < n && (#[trigger] entries[i]).fingerprint@ == key {
                let i = choose|i: int| 0 <= i < n && (#[trigger] entries[i]).fingerprint@ == key;
                if i < n - 1 {
                    assert(earlier.dom().contains(key));
                }
            }
        }
        assert forall|i: int| 0 <= i < n implies entries_map(entries, n)[(
        #[trigger] entries[i]).fingerprint@] == entries[i].wallet@ by {
            if i < n - 1 {
                assert(entries[i].fingerprint@ != entries[n - 1].fingerprint@);
            }
        }
    }
}

impl View for Registry {
    type V = Map<Seq<u8>, WalletView>;

    closed spec fn view(&self) -> Map<Seq<u8>, WalletView> {
        entries_map(self.entries@, self.entries@.len())
    }
}

impl Registry {
    #[verifier::type_invariant]
    spec fn well_formed(self) -> bool {
        entries_valid(self.entries@)
    }

    /// An empty store.
    pub fn new() -> (registry: Registry)
        ensures
            registry@ == Map::<Seq<u8>, WalletView>::empty(),
    {
        Registry { entries: Vec::new() }
    }

    /// The index of the entry with the key `fingerprint`, where there is
    /// one.
    fn index_of(&self, fingerprint: &[u8; 32]) -> (found: Option<usize>)
        ensures
            found is Some <==> self@.dom().contains(fingerprint@),
            found matches Some(at) ==> at < self.entries@.len() && self.entries@[at as int].fingerprint@
                == fingerprint@ && self.entries@[at as int].wallet@ == self@[fingerprint@],
            found is None ==> forall|i: int|
                0 <= i < self.entries@.len() ==> (#[trigger] self.entries@[i]).fingerprint@
                    != fingerprint@,
    {
        proof {
            use_type_invariant(self);
            lemma_entries_map(self.entries@, self.entries@.len());
        }
        let mut i: usize = 0;
        while i < self.entries.len()
            invariant
                i <= self.entries@.len(),
                forall|j: int|
                    0 <= j < i ==> (#[trigger] self.entries@[j]).fingerprint@ != fingerprint@,
            decreases self.entries.len() - i,
        {
            if same_digest(&self.entries[i].fingerprint, fingerprint) {
                proof {
                    use_type_invariant(self);
                    lemma_entries_map(self.entries@, self.entries@.len());
                }
                return Some(i);
            }
            i += 1;
        }
        None
    }

    /// Stores `wallet` under the digest of its lowercased name and returns
    /// that digest. A wallet stored under it before is replaced; every other
    /// entry stays as it is.
    pub fn insert(&mut self, wallet: Wallet) -> (key: [u8; 32])
        ensures
            key@ == fingerprint_of(wallet@.name),
            final(self)@ == old(self)@.insert(key@, wallet@),
    {
        proof {
            use_type_invariant(&*self);
            lemma_entries_map(self.entries@, self.entries@.len());
        }
        let key = fingerprint(wallet.name().as_str());
        let ghost before = self.entries@;
        let ghost stored = wallet@;
        let found = self.index_of(&key);
        let mut entries: Vec<RegistryEntry> = Vec::new();
        core::mem::swap(&mut self.entries, &mut entries);
        match found {
            Some(at) => {
                entries.set(at, RegistryEntry { fingerprint: key, wallet });
                proof {
                    let after = entries@;
                    assert(entries_valid(after)) by {
                        assert forall|i: int, j: int| 0 <= i < j < after.len() implies (
                        #[trigger] after[i]).fingerprint@ != (#[trigger] after[j]).fingerprint@ by {
                            assert(before[i].fingerprint@ != before[j].fingerprint@);
                        }
                        assert forall|i: int| 0 <= i < after.len() implies (
                        #[trigger] after[i]).fingerprint@ == fingerprint_of(
                            after[i].wallet@.name,
                        ) by {
                            if i != at {
                                assert(before[i].fingerprint@ == fingerprint_of(
                                    before[i].wallet@.name,
                                ));
                            }
                        }
                    }
                    lemma_entries_map(after, after.len());
                    lemma_same_map(before, after, at as int, key@, stored);
                }
            },
            None => {
                entries.push(RegistryEntry { fingerprint: key, wallet });
                proof {
                    let after = entries@;
                    assert(entries_valid(after)) by {
                        assert forall|i: int, j: int| 0 <= i < j < after.len() implies (
                        #[trigger] after[i]).fingerprint@ != (#[trigger] after[j]).fingerprint@ by {
                            if j < before.len() {
                                assert(before[i].fingerprint@ != before[j].fingerprint@);
                            } else {
                                assert(before[i].fingerprint@ != key@);
                            }
                        }
                        assert forall|i: int| 0 <= i < after.len() implies (
                        #[trigger] after[i]).fingerprint@ == fingerprint_of(
                            after[i].wallet@.name,
                        ) by {
                            if i < before.len() {
                                assert(before[i].fingerprint@ == fingerprint_of(
                                    before[i].wallet@.name,
                                ));
                            }
                        }
                    }
                    lemma_prefix_map(before, after, before.len());
                }
            },
        }
        core::mem::swap(&mut self.entries, &mut entries);
        key
    }

    /// The wallet stored under `fingerprint`, where there is one.
    pub fn lookup(&self, fingerprint: &[u8; 32]) -> (wallet: Option<&Wallet>)
        ensures
            wallet is Some <==> self@.dom().contains(fingerprint@),
            wallet matches Some(found) ==> found@ == self@[fingerprint@],
    {
        match self.index_of(fingerprint) {
            Some(at) => Some(&self.entries[at].wallet),
            None => None,
        }
    }

    /// Whether a wallet is stored under `fingerprint`.
    pub fn contains(&self, fingerprint: &[u8; 32]) -> (stored: bool)
        ensures
            stored == self@.dom().contains(fingerprint@),
    {
        self.index_of(fingerprint).is_some()
    }

    /// The number of wallets in the store.
    pub fn len(&self) -> (count: usize)
        ensures
            self@.dom().finite(),
            count == self@.dom().len(),
    {
        proof {
            use_type_invariant(self);
            lemma_entries_map(self.entries@, self.entries@.len());
        }
        self.entries.len()
    }

    /// Whether the store is empty.
    pub fn is_empty(&self) -> (empty: bool)
        ensures
            empty == (self@ == Map::<Seq<u8>, WalletView>::empty()),
    {
        proof {
            use_type_invariant(self);
            lemma_entries_map(self.entries@, self.entries@.len());
            if self.entries@.len() == 0 {
                assert(self@ =~= Map::<Seq<u8>, WalletView>::empty());
            } else {
                assert(self@.dom().contains(self.entries@[0].fingerprint@));
            }
        }
        self.entries.len() == 0
    }

    /// A snapshot of the store: a copy of every wallet in it, each once, in
    /// no order that callers may rely on.
    pub fn enumerate(&self) -> (snapshot: Vec<Wallet>)
        ensures
            self@.dom().finite(),
            snapshot@.len() == self@.dom().len(),
            forall|i: int|
                0 <= i < snapshot@.len() ==> self@.contains_pair(
                    fingerprint_of((#[trigger] snapshot@[i])@.name),
                    snapshot@[i]@,
                ),
            forall|i: int, j: int|
                0 <= i < j < snapshot@.len() ==> fingerprint_of((#[trigger] snapshot@[i])@.name)
                    != fingerprint_of((#[trigger] snapshot@[j])@.name),
    {
        proof {
            use_type_invariant(self);
            lemma_entries_map(self.entries@, self.entries@.len());
        }
        let mut snapshot: Vec<Wallet> = Vec::new();
        let mut i: usize = 0;
        while i < self.entries.len()
            invariant
                i <= self.entries@.len(),
                snapshot@.len() == i,
                forall|j: int| 0 <= j < i ==> (#[trigger] snapshot@[j])@ == self.entries@[j].wallet@,
            decreases self.entries.len() - i,
        {
            snapshot.push(self.entries[i].wallet.duplicate());
            i += 1;
        }
        proof {
            assert forall|i: int| 0 <= i < snapshot@.len() implies self@.contains_pair(
                fingerprint_of((#[trigger] snapshot@[i])@.name),
                snapshot@[i]@,
            ) by {
                assert(self.entries@[i].fingerprint@ == fingerprint_of(
                    self.entries@[i].wallet@.name,
                ));
            }
            assert forall|i: int, j: int| 0 <= i < j < snapshot@.len() implies fingerprint_of(
                (#[trigger] snapshot@[i])@.name,
            ) != fingerprint_of((#[trigger] snapshot@[j])@.name) by {
                assert(self.entries@[i].fingerprint@ != self.entries@[j].fingerprint@);
            }
        }
        snapshot
    }
}

/// Entries that agree up to `n` make up the same mapping up to `n`, and one
/// more entry adds its pair.
proof fn lemma_prefix_map(before: Seq<RegistryEntry>, after: Seq<RegistryEntry>, n: nat)
    requires
        n <= before.len(),
        after.len() == before.len() + 1,
        forall|i: int| 0 <= i < before.len() ==> before[i] == after[i],
    ensures
        entries_map(after, n) == entries_map(before, n),
        n == before.len() ==> entries_map(after, after.len()) == entries_map(before, n).insert(
            after[n as int].fingerprint@,
            after[n as int].wallet@,
        ),
    decreases n,
{
    if n > 0 {
        lemma_prefix_map(before, after, (n - 1) as nat);
        assert(entries_map(after, n) == entries_map(after, (n - 1) as nat).insert(
            after[n - 1].fingerprint@,
            after[n - 1].wallet@,
        ));
    }
    if n == before.len() {
        assert(entries_map(after, after.len()) == entries_map(after, n).insert(
            after[n as int].fingerprint@,
            after[n as int].wallet@,
        ));
    }
}

/// Replacing the wallet of the entry at `at`, and keeping its key, is
/// inserting under that key.
proof fn lemma_same_map(
    before: Seq<RegistryEntry>,
    after: Seq<RegistryEntry>,
    at: int,
    key: Seq<u8>,
    wallet: WalletView,
)
    requires
        0 <= at < before.len(),
        after.len() == before.len(),
        entries_valid(before),
        entries_valid(after),
        before[at].fingerprint@ == key,
        after[at].fingerprint@ == key,
        after[at].wallet@ == wallet,
        forall|i: int| 0 <= i < before.len() && i != at ==> before[i] == after[i],
    ensures
        entries_map(after, after.len()) == entries_map(before, before.len()).insert(key, wallet),
{
    lemma_entries_map(before, before.len());
    lemma_entries_map(after, after.len());
    let left = entries_map(after, after.len());
    let right = entries_map(before, before.len()).insert(key, wallet);
    assert forall|k: Seq<u8>| left.dom().contains(k) <==> right.dom().contains(k) by {
        if left.dom().contains(k) {
            let i = choose|i: int| 0 <= i < after.len() && (#[trigger] after[i]).fingerprint@ == k;
            if i != at {
                assert(before[i].fingerprint@ == k);
            }
        }
        if right.dom().contains(k) && k != key {
            let i = choose|i: int| 0 <= i < before.len() && (#[trigger] before[i]).fingerprint@ == k;
            assert(after[i].fingerprint@ == k);
        }
        if k == key {
            assert(after[at].fingerprint@ == k);
        }
    }
    assert forall|k: Seq<u8>| left.dom().contains(k) implies left[k] == right[k] by {
        let i = choose|i: int| 0 <= i < after.len() && (#[trigger] after[i]).fingerprint@ == k;
        if i != at {
            assert(before[i].fingerprint@ == k);
            assert(before[at].fingerprint@ != before[i].fingerprint@);
        }
    }
    assert(left =~= right);
}

/// The mapping that `store` becomes when `wallets` are registered in it
/// one after the other.
pub open spec fn after_registrations(
    store: Map<Seq<u8>, WalletView>,
    wallets: Seq<WalletView>,
) -> Map<Seq<u8>, WalletView>
    decreases wallets.len(),
{
    if wallets.len() == 0 {
        store
    } else {
        after_registrations(store, wallets.drop_last()).insert(
            fingerprint_of(wallets.last().name),
            wallets.last(),
        )
    }
}

/// Names that agree in lowercase have the same key, so that wallets which
/// differ only in the case of their name share one entry.
pub proof fn lemma_case_is_ignored(first: Seq<char>, second: Seq<char>)
    ensures
        lowercase(first) == lowercase(second) ==> fingerprint_of(first) == fingerprint_of(second),
{
}

/// Registering a wallet under a name that an earlier registration used, in
/// whatever case, leaves one entry where there was one: the store is what
/// it would be had only the later wallet been registered.
pub proof fn lemma_reregistration_overwrites(
    store: Map<Seq<u8>, WalletView>,
    first: WalletView,
    second: WalletView,
)
    ensures
        lowercase(first.name) == lowercase(second.name) ==> after_registrations(
            store,
            seq![first, second],
        ) == store.insert(fingerprint_of(second.name), second),
        lowercase(first.name) == lowercase(second.name) ==> after_registrations(
            store,
            seq![first, second],
        ).dom() == after_registrations(store, seq![first]).dom(),
{
    let both = seq![first, second];
    let one = seq![first];
    assert(both.drop_last() =~= one);
    assert(one.drop_last() =~= Seq::<WalletView>::empty());
    assert(both.last() == second);
    assert(one.last() == first);
    reveal_with_fuel(after_registrations, 3);
    if lowercase(first.name) == lowercase(second.name) {
        let key = fingerprint_of(second.name);
        assert(store.insert(key, first).insert(key, second) =~= store.insert(key, second));
        assert(store.insert(key, first).insert(key, second).dom() =~= store.insert(
            key,
            first,
        ).dom());
    }
}

/// After any sequence of registrations, the store holds under a wallet's
/// key the wallet that was registered last under that key, and every key of
/// the sequence is in it.
pub proof fn lemma_latest_registration_wins(
    store: Map<Seq<u8>, WalletView>,
    wallets: Seq<WalletView>,
    latest: int,
)
    requires
        0 <= latest < wallets.len(),
        forall|later: int|
            latest < later < wallets.len() ==> fingerprint_of((#[trigger] wallets[later]).name)
                != fingerprint_of(wallets[latest].name),
    ensures
        after_registrations(store, wallets).contains_pair(
            fingerprint_of(wallets[latest].name),
            wallets[latest],
        ),
    decreases wallets.len(),
{
    if latest < wallets.len() - 1 {
        let earlier = wallets.drop_last();
        assert(earlier[latest] == wallets[latest]);
        assert forall|later: int| latest < later < earlier.len() implies fingerprint_of(
            (#[trigger] earlier[later]).name,
        ) != fingerprint_of(earlier[latest].name) by {
            assert(earlier[later] == wallets[later]);
        }
        lemma_latest_registration_wins(store, earlier, latest);
        assert(wallets.last() == wallets[wallets.len() - 1]);
    }
}

/// Registrations never remove a key, and add no key but those of the
/// wallets registered.
pub proof fn lemma_registrations_keys(
    store: Map<Seq<u8>, WalletView>,
    wallets: Seq<WalletView>,
    key: Seq<u8>,
)
    ensures
        after_registrations(store, wallets).dom().contains(key) <==> store.dom().contains(key)
            || exists|i: int|
            0 <= i < wallets.len() && fingerprint_of((#[trigger] wallets[i]).name) == key,
    decreases wallets.len(),
{
    if wallets.len() > 0 {
        let earlier = wallets.drop_last();
        lemma_registrations_keys(store, earlier, key);
        if exists|i: int| 0 <= i < earlier.len() && fingerprint_of((#[trigger] earlier[i]).name) == key {
            let i = choose|i: int|
                0 <= i < earlier.len() && fingerprint_of((#[trigger] earlier[i]).name) == key;
            assert(wallets[i] == earlier[i]);
        }
        if exists|i: int| 0 <= i < wallets.len() && fingerprint_of((#[trigger] wallets[i]).name) == key {
            let i = choose|i: int|
                0 <= i < wallets.len() && fingerprint_of((#[trigger] wallets[i]).name) == key;
            if i < earlier.len() {
                assert(wallets[i] == earlier[i]);
            } else {
                assert(wallets[i] == wallets.last());
            }
        }
        if fingerprint_of(wallets.last().name) == key {
            assert(wallets[wallets.len() - 1] == wallets.last());
        }
    }
}

} // verus!
