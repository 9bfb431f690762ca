//! The size-limited, content-addressed object store and its account ledger.
//!
//! Bytes are keyed by their content identifier; each stored object gets a
//! zeroed account record the moment it is first stored. The store never
//! overwrites an existing key with different bytes: re-storing identical
//! bytes is a no-op, and distinct bytes that collide on an identifier are
//! rejected.

use vstd::prelude::*;

use crate::CoreError;
use crate::account::{AccountState, AccountView};
use crate::ids::{ContentId, bytes_eq, cid_text_of, sha256_of};

verus! {

/// A storage action a shell may hand in: store a payload, or fetch the
/// payload behind an identifier.
#[derive(Debug)]
pub enum MyIntent {
    /// Store these bytes.
    Upload(Vec<u8>),
    /// Fetch the bytes behind this identifier.
    Download(ContentId),
}

/// The ingestion gate: accepts a payload size iff it is at or below the
/// configured limit. The limit is fixed at construction time.
#[derive(Debug)]
pub struct NoopLimiter {
    limit: usize,
}

impl NoopLimiter {
    /// The configured limit.
    pub closed spec fn spec_limit(&self) -> usize {
        self.limit
    }

    /// Creates a gate with the given byte limit.
    pub fn new(limit: usize) -> (limiter: NoopLimiter)
        ensures
            limiter.spec_limit() == limit,
    {
        NoopLimiter { limit }
    }

    /// Accepts a size iff it does not exceed the limit.
    pub fn check_limit(&self, size: usize) -> (ok: bool)
        ensures
            ok == (size <= self.spec_limit()),
    {
        size <= self.limit
    }
}

/// One stored object: its identifier, its bytes, and its account record.
#[derive(Debug)]
struct StoreEntry {
    id: ContentId,
    bytes: Vec<u8>,
    account: AccountState,
}

/// The content-addressed object store with its account ledger.
#[derive(Debug)]
pub struct BlockStore {
    entries: Vec<StoreEntry>,
    limiter: NoopLimiter,
}

/// The mathematical value of a [`BlockStore`]: the objects and the accounts,
/// both keyed by the identifier's digest bytes, plus the size limit.
#[verifier::ext_equal]
pub struct StoreView {
    /// Stored payloads, keyed by identifier digest.
    pub objects: Map<Seq<u8>, Seq<u8>>,
    /// Account records, keyed by identifier digest.
    pub accounts: Map<Seq<u8>, AccountView>,
    /// The ingestion byte limit.
    pub limit: usize,
}

spec fn objects_of(s: Seq<StoreEntry>) -> Map<Seq<u8>, Seq<u8>>
    decreases s.len(),
{
    if s.len() == 0 {
        Map::empty()
    } else {
        objects_of(s.drop_last()).insert(s.last().id@, s.last().bytes@)
    }
}

spec fn accounts_of(s: Seq<StoreEntry>) -> Map<Seq<u8>, AccountView>
    decreases s.len(),
{
    if s.len() == 0 {
        Map::empty()
    } else {
        accounts_of(s.drop_last()).insert(s.last().id@, s.last().account@)
    }
}

impl View for BlockStore {
    type V = StoreView;

    closed spec fn view(&self) -> StoreView {
        StoreView {
            objects: objects_of(self.entries@),
            accounts: accounts_of(self.entries@),
            limit: self.limiter.spec_limit(),
        }
    }
}

/// Both maps contain exactly the identifiers of the entries.
proof fn lemma_entry_maps(s: Seq<StoreEntry>)
    ensures
        forall|k: Seq<u8>|
            #[trigger] objects_of(s).contains_key(k) <==> exists|i: int|
                0 <= i < s.len() && #[trigger] s[i].id@ == k,
        forall|k: Seq<u8>|
            #[trigger] accounts_of(s).contains_key(k) <==> exists|i: int|
                0 <= i < s.len() && #[trigger] s[i].id@ == k,
    decreases s.len(),
{
    if s.len() > 0 {
        lemma_entry_maps(s.drop_last());
        assert forall|k: Seq<u8>|
            #[trigger] objects_of(s).contains_key(k) <==> exists|i: int|
                0 <= i < s.len() && #[trigger] s[i].id@ == k by {
            if objects_of(s).contains_key(k) {
                if k == s.last().id@ {
                    assert(s[s.len() - 1].id@ == k);
                } else {
                    assert(objects_of(s.drop_last()).contains_key(k));
                    let i = choose|i: int|
                        0 <= i < s.drop_last().len() && #[trigger] s.drop_last()[i].id@ == k;
                    assert(s.drop_last()[i] == s[i]);
                    assert(s[i].id@ == k);
                }
            }
            if exists|i: int| 0 <= i < s.len() && #[trigger] s[i].id@ == k {
                let i = choose|i: int| 0 <= i < s.len() && #[trigger] s[i].id@ == k;
                if i < s.len() - 1 {
                    assert(s.drop_last()[i].id@ == k);
                    assert(objects_of(s.drop_last()).contains_key(k));
                } else {
                    assert(k == s.last().id@);
                }
                assert(objects_of(s).contains_key(k));
            }
        }
        assert forall|k: Seq<u8>|
            #[trigger] accounts_of(s).contains_key(k) <==> exists|i: int|
                0 <= i < s.len() && #[trigger] s[i].id@ == k by {
            if accounts_of(s).contains_key(k) {
                if k == s.last().id@ {
                    assert(s[s.len() - 1].id@ == k);
                } else {
                    assert(accounts_of(s.drop_last()).contains_key(k));
                    let i = choose|i: int|
                        0 <= i < s.drop_last().len() && #[trigger] s.drop_last()[i].id@ == k;
                    assert(s.drop_last()[i] == s[i]);
                    assert(s[i].id@ == k);
                }
            }
            if exists|i: int| 0 <= i < s.len() && #[trigger] s[i].id@ == k {
                let i = choose|i: int| 0 <= i < s.len() && #[trigger] s[i].id@ == k;
                if i < s.len() - 1 {
                    assert(s.drop_last()[i].id@ == k);
                    assert(accounts_of(s.drop_last()).contains_key(k));
                } else {
                    assert(k == s.last().id@);
                }
                assert(accounts_of(s).contains_key(k));
            }
        }
    }
}

/// With pairwise-distinct identifiers, each map sends an entry's identifier
/// to that entry's payload and account.
proof fn lemma_entry_lookup(s: Seq<StoreEntry>, i: int)
    requires
        0 <= i < s.len(),
        forall|p: int, q: int| 0 <= p < q < s.len() ==> (#[trigger] s[p]).id@ != (#[trigger] s[q]).id@,
    ensures
        objects_of(s).contains_key(s[i].id@),
        objects_of(s)[s[i].id@] == s[i].bytes@,
        accounts_of(s).contains_key(s[i].id@),
        accounts_of(s)[s[i].id@] == s[i].account@,
    decreases s.len(),
{
    if i == s.len() - 1 {
    } else {
        assert(s[i].id@ != s.last().id@);
        assert(s.drop_last()[i] == s[i]);
        lemma_entry_lookup(s.drop_last(), i);
    }
}

/// Replacing an entry's account, with identifier and bytes kept, leaves
/// the objects as they were and only rebinds that identifier's account.
proof fn lemma_maps_update(s: Seq<StoreEntry>, i: int, e: StoreEntry)
    requires
        0 <= i < s.len(),
        e.id@ == s[i].id@,
        e.bytes@ == s[i].bytes@,
        forall|p: int, q: int| 0 <= p < q < s.len() ==> (#[trigger] s[p]).id@ != (#[trigger] s[q]).id@,
    ensures
        objects_of(s.update(i, e)) == objects_of(s),
        accounts_of(s.update(i, e)) == accounts_of(s).insert(s[i].id@, e.account@),
    decreases s.len(),
{
    let s2 = s.update(i, e);
    if i == s.len() - 1 {
        assert(s2.drop_last() =~= s.drop_last());
        assert(s2.last() == e);
        assert(objects_of(s2) =~= objects_of(s));
        assert(accounts_of(s2) =~= accounts_of(s).insert(s[i].id@, e.account@));
    } else {
        assert(s.drop_last()[i] == s[i]);
        lemma_maps_update(s.drop_last(), i, e);
        assert(s2.drop_last() =~= s.drop_last().update(i, e));
        assert(s2.last() == s.last());
        assert(s[i].id@ != s.last().id@);
        assert(objects_of(s2) =~= objects_of(s));
        assert(accounts_of(s2) =~= accounts_of(s).insert(s[i].id@, e.account@));
    }
}

/// What storing a payload does: gate the size, then either record the new
/// object with a zeroed account, accept an identical re-store as a no-op,
/// or reject a colliding identifier.
pub open spec fn spec_store(s: StoreView, data: Seq<u8>) -> (StoreView, Result<
    Seq<u8>,
    CoreError,
>) {
    let id = sha256_of(data);
    if data.len() > s.limit {
        (s, Err(CoreError::PayloadTooLarge))
    } else if !s.objects.contains_key(id) {
        (
            StoreView {
                objects: s.objects.insert(id, data),
                accounts: s.accounts.insert(id, AccountView::zeroed()),
                limit: s.limit,
            },
            Ok(id),
        )
    } else if s.objects[id] == data {
        (s, Ok(id))
    } else {
        (s, Err(CoreError::IdentifierCollision))
    }
}

/// What retrieving an identifier returns.
pub open spec fn spec_retrieve(s: StoreView, id: Seq<u8>) -> Result<Seq<u8>, CoreError> {
    if s.objects.contains_key(id) {
        Ok(s.objects[id])
    } else {
        Err(CoreError::NotFound)
    }
}

/// The digest carried by an identifier result.
pub open spec fn id_result_view(r: Result<ContentId, CoreError>) -> Result<Seq<u8>, CoreError> {
    match r {
        Ok(id) => Ok(id@),
        Err(e) => Err(e),
    }
}

/// The bytes carried by a payload result.
pub open spec fn bytes_result_view(r: Result<Vec<u8>, CoreError>) -> Result<Seq<u8>, CoreError> {
    match r {
        Ok(bytes) => Ok(bytes@),
        Err(e) => Err(e),
    }
}

impl BlockStore {
    /// A well-formed store: every entry's identifier is the digest of its
    /// bytes, identifiers never repeat, and every account is well-formed.
    pub closed spec fn wf(&self) -> bool {
        &&& forall|i: int|
            0 <= i < self.entries@.len() ==> {
                &&& (#[trigger] self.entries@[i]).id.wf()
                &&& self.entries@[i].id@ == sha256_of(self.entries@[i].bytes@)
                &&& self.entries@[i].account@.wf()
            }
        &&& forall|p: int, q: int|
            0 <= p < q < self.entries@.len() ==> (#[trigger] self.entries@[p]).id@ != (
            #[trigger] self.entries@[q]).id@
    }

    /// Creates an empty store with the given ingestion limit.
    pub fn new(limit: usize) -> (store: BlockStore)
        ensures
            store.wf(),
            store@ == (StoreView {
                objects: Map::<Seq<u8>, Seq<u8>>::empty(),
                accounts: Map::<Seq<u8>, AccountView>::empty(),
                limit: limit,
            }),
    {
        let store = BlockStore { entries: Vec::new(), limiter: NoopLimiter::new(limit) };
        assert(store@ =~= StoreView {
            objects: Map::<Seq<u8>, Seq<u8>>::empty(),
            accounts: Map::<Seq<u8>, AccountView>::empty(),
            limit: limit,
        });
        store
    }

    /// The configured ingestion limit.
    pub fn limit(&self) -> (limit: usize)
        ensures
            limit == self@.limit,
    {
        self.limiter.limit
    }

    /// Finds the entry holding the given identifier.
    fn find_entry(&self, id: &ContentId) -> (found: Option<usize>)
        ensures
            match found {
                Some(i) => i < self.entries@.len() && self.entries@[i as int].id@ == id@,
                None => forall|j: int|
                    0 <= j < self.entries@.len() ==> (#[trigger] self.entries@[j]).id@ != id@,
            },
    {
        let mut i: usize = 0;
        while i < self.entries.len()
            invariant
                i <= self.entries@.len(),
                forall|j: int| 0 <= j < i ==> (#[trigger] self.entries@[j]).id@ != id@,
            decreases self.entries@.len() - i,
        {
            if self.entries[i].id.same_as(id) {
                return Some(i);
            }
            i += 1;
        }
        None
    }

    /// Stores a payload: gates its size, derives its identifier, records the
    /// bytes and a zeroed account when the identifier is new, accepts an
    /// identical re-store without touching anything, and rejects distinct
    /// bytes whose identifier is already taken.
    pub fn store(&mut self, data: Vec<u8>) -> (result: Result<ContentId, CoreError>)
        requires
            old(self).wf(),
        ensures
            final(self).wf(),
            final(self)@ == spec_store(old(self)@, data@).0,
            id_result_view(result) == spec_store(old(self)@, data@).1,
            result matches Ok(id) ==> id.wf(),
    {
        let ghost data_view = data@;
        if !self.limiter.check_limit(data.len()) {
            return Err(CoreError::PayloadTooLarge);
        }
        let id = ContentId::for_bytes(data.as_slice());
        proof {
            lemma_entry_maps(self.entries@);
        }
        match self.find_entry(&id) {
            Some(i) => {
                proof {
                    lemma_entry_lookup(self.entries@, i as int);
                    assert(self@.objects.contains_key(id@));
                    assert(self@.objects[id@] == self.entries@[i as int].bytes@);
                }
                if bytes_eq(&self.entries[i].bytes, &data) {
                    Ok(id)
                } else {
                    Err(CoreError::IdentifierCollision)
                }
            },
            None => {
                proof {
                    assert(!self@.objects.contains_key(id@));
                }
                let ghost old_entries = self.entries@;
                let entry = StoreEntry {
                    id: id.clone_id(),
                    bytes: data,
                    account: AccountState::new(),
                };
                self.entries.push(entry);
                proof {
                    assert(self.entries@.drop_last() =~= old_entries);
                    assert(objects_of(self.entries@) == objects_of(old_entries).insert(
                        id@,
                        data_view,
                    ));
                    assert(accounts_of(self.entries@) == accounts_of(old_entries).insert(
                        id@,
                        AccountView::zeroed(),
                    ));
                    assert(self@ =~= spec_store(old(self)@, data_view).0);
                    assert forall|p: int, q: int|
                        0 <= p < q < self.entries@.len() implies (#[trigger] self.entries@[p]).id@
                        != (#[trigger] self.entries@[q]).id@ by {
                        if q == self.entries@.len() - 1 {
                            assert(old_entries[p].id@ != id@);
                        }
                    }
                }
                Ok(id)
            },
        }
    }

    /// Returns the stored bytes for an identifier, or `NotFound`.
    pub fn retrieve(&self, id: &ContentId) -> (result: Result<Vec<u8>, CoreError>)
        requires
            self.wf(),
        ensures
            bytes_result_view(result) == spec_retrieve(self@, id@),
    {
        proof {
            lemma_entry_maps(self.entries@);
        }
        match self.find_entry(id) {
            Some(i) => {
                proof {
                    lemma_entry_lookup(self.entries@, i as int);
                }
                Ok(copy_bytes(&self.entries[i].bytes))
            },
            None => Err(CoreError::NotFound),
        }
    }

    /// Whether an object is stored under the identifier.
    pub fn has(&self, id: &ContentId) -> (present: bool)
        ensures
            present == self@.objects.contains_key(id@),
    {
        proof {
            lemma_entry_maps(self.entries@);
        }
        match self.find_entry(id) {
            Some(_) => true,
            None => false,
        }
    }

    /// Handles a storage intent and reports the identifier's canonical
    /// text: an upload stores the payload, a download checks the payload
    /// is there. Either way the text names the object in question.
    pub fn handle_intent(&mut self, intent: MyIntent) -> (result: Result<String, CoreError>)
        requires
            old(self).wf(),
        ensures
            final(self).wf(),
            match intent {
                MyIntent::Upload(data) => {
                    &&& final(self)@ == spec_store(old(self)@, data@).0
                    &&& match result {
                        Ok(text) => spec_store(old(self)@, data@).1 == Ok::<Seq<u8>, CoreError>(
                            sha256_of(data@),
                        ) && text@ == cid_text_of(sha256_of(data@)),
                        Err(e) => spec_store(old(self)@, data@).1 == Err::<Seq<u8>, CoreError>(e),
                    }
                },
                MyIntent::Download(id) => {
                    &&& final(self)@ == old(self)@
                    &&& match result {
                        Ok(text) => spec_retrieve(old(self)@, id@) is Ok && text@ == cid_text_of(
                            id@,
                        ),
                        Err(e) => spec_retrieve(old(self)@, id@) == Err::<Seq<u8>, CoreError>(e),
                    }
                },
            },
    {
        match intent {
            MyIntent::Upload(data) => {
                match self.store(data) {
                    Ok(id) => Ok(id.to_text()),
                    Err(e) => Err(e),
                }
            },
            MyIntent::Download(id) => {
                match self.retrieve(&id) {
                    Ok(_bytes) => {
                        proof {
                            lemma_entry_maps(self.entries@);
                            let i = choose|i: int|
                                0 <= i < self.entries@.len() && #[trigger] self.entries@[i].id@
                                    == id@;
                            assert(self.entries@[i].id.wf());
                        }
                        Ok(id.to_text())
                    },
                    Err(e) => Err(e),
                }
            },
        }
    }

    /// Posts an amount to the balance of the account attached to an
    /// identifier, as a settlement effect attributable to that object.
    /// Fails with `NotFound` when nothing is stored under the identifier.
    pub fn credit_account(&mut self, id: &ContentId, amount: u64) -> (result: Result<
        (),
        CoreError,
    >)
        requires
            old(self).wf(),
            old(self)@.accounts.contains_key(id@) ==> old(self)@.accounts[id@].balance + amount
                <= u64::MAX,
        ensures
            final(self).wf(),
            final(self)@.objects == old(self)@.objects,
            final(self)@.limit == old(self)@.limit,
            match result {
                Ok(posted) => old(self)@.accounts.contains_key(id@) && final(self)@.accounts
                    == old(self)@.accounts.insert(
                    id@,
                    AccountView {
                        balance: (old(self)@.accounts[id@].balance + amount) as u64,
                        subs: old(self)@.accounts[id@].subs,
                    },
                ),
                Err(e) => e == CoreError::NotFound && !old(self)@.accounts.contains_key(id@)
                    && final(self)@ == old(self)@,
            },
    {
        proof {
            lemma_entry_maps(self.entries@);
        }
        match self.find_entry(id) {
            None => Err(CoreError::NotFound),
            Some(i) => {
                proof {
                    lemma_entry_lookup(self.entries@, i as int);
                }
                self.entries[i].account.credit(amount);
                proof {
                    let old_entries = old(self).entries@;
                    lemma_maps_update(old_entries, i as int, self.entries@[i as int]);
                    assert(self.entries@ =~= old_entries.update(
                        i as int,
                        self.entries@[i as int],
                    ));
                    assert(self@.objects =~= old(self)@.objects);
                    assert(self@.accounts =~= old(self)@.accounts.insert(
                        id@,
                        AccountView {
                            balance: (old(self)@.accounts[id@].balance + amount) as u64,
                            subs: old(self)@.accounts[id@].subs,
                        },
                    ));
                }
                Ok(())
            },
        }
    }

    /// Reads the account record attached to an identifier.
    pub fn account(&self, id: &ContentId) -> (found: Option<&AccountState>)
        requires
            self.wf(),
        ensures
            match found {
                Some(account) => self@.accounts.contains_key(id@) && account@ == self@.accounts[id@],
                None => !self@.accounts.contains_key(id@),
            },
    {
        proof {
            lemma_entry_maps(self.entries@);
        }
        match self.find_entry(id) {
            Some(i) => {
                proof {
                    lemma_entry_lookup(self.entries@, i as int);
                }
                Some(&self.entries[i].account)
            },
            None => None,
        }
    }
}

/// Law: the identifier of a payload depends on the payload alone, so two
/// successful stores of the same bytes, in any two states, return the same
/// identifier.
pub proof fn lemma_store_deterministic(s1: StoreView, s2: StoreView, data: Seq<u8>)
    ensures
        spec_store(s1, data).1 is Ok && spec_store(s2, data).1 is Ok ==> spec_store(s1, data).1
            == spec_store(s2, data).1,
{
}

/// Law: a successful store returns the digest of the payload, retrieving
/// that identifier afterwards returns the payload itself, and storing the
/// same payload again is a no-op that returns the same identifier.
pub proof fn lemma_store_retrieve(s: StoreView, data: Seq<u8>)
    requires
        spec_store(s, data).1 is Ok,
    ensures
        spec_store(s, data).1 == Ok::<Seq<u8>, CoreError>(sha256_of(data)),
        spec_retrieve(spec_store(s, data).0, sha256_of(data)) == Ok::<Seq<u8>, CoreError>(data),
        spec_store(spec_store(s, data).0, data).0 == spec_store(s, data).0,
        spec_store(spec_store(s, data).0, data).1 == spec_store(s, data).1,
{
}

/// Law: an oversized payload is rejected before anything is derived or
/// written; the store, its objects and its accounts are untouched.
pub proof fn lemma_store_size_gate(s: StoreView, data: Seq<u8>)
    requires
        data.len() > s.limit,
    ensures
        spec_store(s, data).0 == s,
        spec_store(s, data).1 == Err::<Seq<u8>, CoreError>(CoreError::PayloadTooLarge),
{
}

/// Copies a byte vector.
fn copy_bytes(src: &Vec<u8>) -> (out: Vec<u8>)
    ensures
        out@ == src@,
{
    let mut out: Vec<u8> = Vec::new();
    let mut i: usize = 0;
    while i < src.len()
        invariant
            i <= src@.len(),
            out@ == src@.subrange(0, i as int),
        decreases src@.len() - i,
    {
        out.push(src[i]);
        assert(out@ =~= src@.subrange(0, i as int + 1));
        i += 1;
    }
    assert(src@.subrange(0, src@.len() as int) =~= src@);
    out
}

} // verus!
