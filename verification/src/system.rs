//! The assembled core: one object store with its account ledger and one
//! DAO state machine, kept consistent with each other.
//!
//! The invariant tied down here is the one neither half can state alone:
//! every recorded submission's content identifier has a stored object (and
//! therefore an account record) in the store. Submissions of identifiers
//! that were never stored are rejected with `NotFound` before the gateway
//! is ever involved.

use vstd::prelude::*;

use crate::CoreError;
use crate::account::AccountState;
use crate::dao::{
    DaoState, DaoView, DataRecord, DealTicket, PaymentOrder, find_deal, spec_add_member,
    spec_prepare_reward, spec_settle, spec_submit,
};
use crate::ids::ContentId;
use crate::ids::{cid_text_of, sha256_of};
use crate::store::{
    BlockStore, MyIntent, StoreView, bytes_result_view, id_result_view, spec_retrieve, spec_store,
};

verus! {

/// The mathematical value of a [`DataDao`]: the store's value and the DAO
/// state machine's value.
#[verifier::ext_equal]
pub struct DataDaoView {
    /// The object store and account ledger.
    pub store: StoreView,
    /// The DAO state machine.
    pub dao: DaoView,
}

/// Every recorded submission names an identifier the store holds.
pub open spec fn records_stored(v: DataDaoView) -> bool {
    forall|i: int|
        0 <= i < v.dao.records.len() ==> v.store.objects.contains_key(
            (#[trigger] v.dao.records[i]).id,
        )
}

/// The core assembled for a single DAO deployment: a size-limited
/// content-addressed store, its account ledger, and the record-keeping
/// state machine over it.
#[derive(Debug)]
pub struct DataDao {
    store: BlockStore,
    dao: DaoState,
}

impl View for DataDao {
    type V = DataDaoView;

    closed spec fn view(&self) -> DataDaoView {
        DataDaoView { store: self.store@, dao: self.dao@ }
    }
}

impl DataDao {
    /// Well-formed: both halves are, and every record's identifier is
    /// stored.
    pub closed spec fn wf(&self) -> bool {
        &&& self.store.wf()
        &&& self@.dao.wf()
        &&& records_stored(self@)
    }

    /// Constructs the core: an empty store under the given ingestion
    /// limit, and the DAO with the given admin over an empty state.
    pub fn new(admin: u64, size_limit: usize) -> (core: DataDao)
        ensures
            core.wf(),
            core@.store.objects == Map::<Seq<u8>, Seq<u8>>::empty(),
            core@.store.limit == size_limit,
            core@.dao.initialized,
            core@.dao.admin == admin,
            core@.dao.members == Seq::<u64>::empty(),
            core@.dao.records == Seq::<crate::dao::RecordView>::empty(),
            core@.dao.total_rewards == 0,
            core@.dao.total_settled == 0,
    {
        let store = BlockStore::new(size_limit);
        let mut dao = DaoState::new();
        let constructed = dao.init(admin);
        proof {
            assert(constructed == Ok::<(), CoreError>(()));
        }
        DataDao { store, dao }
    }

    /// Stores a payload in the object store; see [`BlockStore::store`].
    /// The DAO state is untouched.
    pub fn store(&mut self, data: Vec<u8>) -> (result: Result<ContentId, CoreError>)
        requires
            old(self).wf(),
        ensures
            final(self).wf(),
            final(self)@.store == spec_store(old(self)@.store, data@).0,
            id_result_view(result) == spec_store(old(self)@.store, data@).1,
            final(self)@.dao == old(self)@.dao,
            result matches Ok(id) ==> id.wf(),
    {
        self.store.store(data)
    }

    /// Returns the stored bytes for an identifier, or `NotFound`.
    pub fn retrieve(&self, id: &ContentId) -> (result: Result<Vec<u8>, CoreError>)
        requires
            self.wf(),
        ensures
            bytes_result_view(result) == spec_retrieve(self@.store, id@),
    {
        self.store.retrieve(id)
    }

    /// Whether an object is stored under the identifier.
    pub fn has(&self, id: &ContentId) -> (present: bool)
        ensures
            present == self@.store.objects.contains_key(id@),
    {
        self.store.has(id)
    }

    /// Reads the account record attached to an identifier.
    pub fn account(&self, id: &ContentId) -> (found: Option<&AccountState>)
        requires
            self.wf(),
        ensures
            match found {
                Some(account) => self@.store.accounts.contains_key(id@) && account@
                    == self@.store.accounts[id@],
                None => !self@.store.accounts.contains_key(id@),
            },
    {
        self.store.account(id)
    }

    /// Handles a storage intent; see [`BlockStore::handle_intent`]. The
    /// DAO state is untouched.
    pub fn process_intent(&mut self, intent: MyIntent) -> (result: Result<String, CoreError>)
        requires
            old(self).wf(),
        ensures
            final(self).wf(),
            final(self)@.dao == old(self)@.dao,
            match intent {
                MyIntent::Upload(data) => {
                    &&& final(self)@.store == spec_store(old(self)@.store, data@).0
                    &&& match result {
                        Ok(text) => spec_store(old(self)@.store, data@).1 == Ok::<
                            Seq<u8>,
                            CoreError,
                        >(sha256_of(data@)) && text@ == cid_text_of(sha256_of(data@)),
                        Err(e) => spec_store(old(self)@.store, data@).1 == Err::<
                            Seq<u8>,
                            CoreError,
                        >(e),
                    }
                },
                MyIntent::Download(id) => {
                    &&& final(self)@ == old(self)@
                    &&& match result {
                        Ok(text) => spec_retrieve(old(self)@.store, id@) is Ok && text@
                            == cid_text_of(id@),
                        Err(e) => spec_retrieve(old(self)@.store, id@) == Err::<
                            Seq<u8>,
                            CoreError,
                        >(e),
                    }
                },
            },
    {
        let result = self.store.handle_intent(intent);
        proof {
            assert forall|i: int| 0 <= i < self@.dao.records.len() implies self@.store.objects.contains_key(
                (#[trigger] self@.dao.records[i]).id,
            ) by {
                assert(old(self)@.store.objects.contains_key(old(self)@.dao.records[i].id));
            }
        }
        result
    }

    /// Adds a member; see [`DaoState::add_member`]. The store is untouched.
    pub fn add_member(&mut self, caller: u64, new_member: u64) -> (result: Result<(), CoreError>)
        requires
            old(self).wf(),
        ensures
            final(self).wf(),
            final(self)@.store == old(self)@.store,
            final(self)@.dao == spec_add_member(old(self)@.dao, caller, new_member).0,
            result == spec_add_member(old(self)@.dao, caller, new_member).1,
    {
        self.dao.add_member(caller, new_member)
    }

    /// Whether the caller may submit data.
    pub fn can_submit(&self, caller: u64) -> (allowed: bool)
        ensures
            allowed == crate::dao::may_submit(self@.dao, caller),
    {
        self.dao.can_submit(caller)
    }

    /// Records a data submission for a stored object, given the gateway's
    /// outcome for the deal initiation. An identifier the store does not
    /// hold is rejected with `NotFound` and nothing changes; otherwise see
    /// [`DaoState::submit_data`].
    pub fn submit_data(
        &mut self,
        caller: u64,
        id: &ContentId,
        reward_amount: u64,
        deal: Option<DealTicket>,
    ) -> (result: Result<u64, CoreError>)
        requires
            old(self).wf(),
            old(self)@.dao.total_rewards + reward_amount <= u64::MAX,
            deal matches Some(ticket) ==> !crate::dao::has_deal(
                old(self)@.dao.records,
                ticket.deal_id,
            ),
        ensures
            final(self).wf(),
            final(self)@.store == old(self)@.store,
            !old(self)@.store.objects.contains_key(id@) ==> final(self)@ == old(self)@ && result
                == Err::<u64, CoreError>(CoreError::NotFound),
            old(self)@.store.objects.contains_key(id@) ==> {
                &&& final(self)@.dao == spec_submit(
                    old(self)@.dao,
                    caller,
                    id@,
                    reward_amount,
                    deal,
                ).0
                &&& result == spec_submit(old(self)@.dao, caller, id@, reward_amount, deal).1
            },
    {
        if !self.store.has(id) {
            return Err(CoreError::NotFound);
        }
        let result = self.dao.submit_data(caller, id, reward_amount, deal);
        proof {
            assert forall|i: int| 0 <= i < self@.dao.records.len() implies self@.store.objects.contains_key(
                (#[trigger] self@.dao.records[i]).id,
            ) by {
                if i < old(self)@.dao.records.len() {
                    assert(self@.dao.records[i] == old(self)@.dao.records[i]);
                }
            }
        }
        result
    }

    /// Reads the record for a deal id. Pure, needs no authorization.
    pub fn get_record(&self, deal_id: u64) -> (found: Option<&DataRecord>)
        requires
            self.wf(),
        ensures
            match found {
                Some(record) => find_deal(self@.dao.records, deal_id) == Some(record@),
                None => find_deal(self@.dao.records, deal_id) is None,
            },
    {
        self.dao.get_record(deal_id)
    }

    /// Checks a settlement and returns the payment the gateway must
    /// perform; see [`DaoState::prepare_reward`].
    pub fn prepare_reward(&self, caller: u64, deal_id: u64) -> (result: Result<
        PaymentOrder,
        CoreError,
    >)
        requires
            self.wf(),
        ensures
            result == spec_prepare_reward(self@.dao, caller, deal_id),
    {
        self.dao.prepare_reward(caller, deal_id)
    }

    /// Settles a reward, given whether the gateway's fund transfer
    /// succeeded; see [`DaoState::reward_provider`]. The store is
    /// untouched.
    pub fn reward_provider(&mut self, caller: u64, deal_id: u64, transferred: bool) -> (result:
        Result<(), CoreError>)
        requires
            old(self).wf(),
        ensures
            final(self).wf(),
            final(self)@.store == old(self)@.store,
            final(self)@.dao == spec_settle(old(self)@.dao, caller, deal_id, transferred).0,
            result == spec_settle(old(self)@.dao, caller, deal_id, transferred).1,
    {
        let result = self.dao.reward_provider(caller, deal_id, transferred);
        proof {
            assert forall|i: int| 0 <= i < self@.dao.records.len() implies self@.store.objects.contains_key(
                (#[trigger] self@.dao.records[i]).id,
            ) by {
                assert(self@.dao.records[i].id == old(self)@.dao.records[i].id);
            }
        }
        result
    }

    /// The admin identity.
    pub fn admin(&self) -> (admin: u64)
        ensures
            admin == self@.dao.admin,
    {
        self.dao.admin()
    }

    /// The member identities in insertion order.
    pub fn members(&self) -> (members: &Vec<u64>)
        ensures
            members@ == self@.dao.members,
    {
        self.dao.members()
    }

    /// The total reward ever pledged at submission.
    pub fn total_rewards(&self) -> (total: u64)
        ensures
            total == self@.dao.total_rewards,
    {
        self.dao.total_rewards()
    }

    /// The total reward actually paid out at settlement.
    pub fn total_settled(&self) -> (total: u64)
        ensures
            total == self@.dao.total_settled,
    {
        self.dao.total_settled()
    }

    /// The number of recorded submissions.
    pub fn record_count(&self) -> (count: usize)
        ensures
            count == self@.dao.records.len(),
    {
        self.dao.record_count()
    }
}

} // verus!
