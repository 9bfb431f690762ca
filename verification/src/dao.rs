//! The DAO state machine: an admin, a member set, an ordered list of data
//! records tying stored objects to externally negotiated storage deals, and
//! running totals of rewards pledged and rewards actually paid out.
//!
//! The settlement gateway (deal initiation, fund transfer) is an external
//! collaborator. Every operation here takes the gateway's outcome as a
//! plain value and is verified for every possible outcome; the state is
//! only changed when the outcome was a success, so a gateway failure
//! leaves the state untouched.

use vstd::prelude::*;

use crate::CoreError;
use crate::ids::ContentId;

verus! {

/// What the settlement gateway returns for an accepted deal: the deal id it
/// assigned and the provider that will fulfil it.
#[derive(Debug, Clone, Copy, PartialEq, Eq, Structural)]
pub struct DealTicket {
    /// The externally assigned deal id.
    pub deal_id: u64,
    /// The provider responsible for the deal.
    pub provider: u64,
}

/// A fund transfer the gateway is asked to perform.
#[derive(Debug, Clone, Copy, PartialEq, Eq, Structural)]
pub struct PaymentOrder {
    /// The provider to pay.
    pub provider: u64,
    /// The amount to transfer.
    pub amount: u64,
}

/// One recorded data submission.
#[derive(Debug)]
pub struct DataRecord {
    cid: ContentId,
    deal_id: u64,
    provider: u64,
    reward_amount: u64,
    settled: bool,
}

/// The mathematical value of a [`DataRecord`].
#[verifier::ext_equal]
pub struct RecordView {
    /// The content identifier's digest bytes.
    pub id: Seq<u8>,
    /// The externally assigned deal id.
    pub deal_id: u64,
    /// The provider responsible for the deal.
    pub provider: u64,
    /// The reward pledged at submission.
    pub reward: u64,
    /// Whether the reward has been paid out.
    pub settled: bool,
}

impl View for DataRecord {
    type V = RecordView;

    closed spec fn view(&self) -> RecordView {
        RecordView {
            id: self.cid@,
            deal_id: self.deal_id,
            provider: self.provider,
            reward: self.reward_amount,
            settled: self.settled,
        }
    }
}

impl DataRecord {
    /// The content identifier the record is about.
    pub fn cid(&self) -> (id: &ContentId)
        ensures
            id@ == self@.id,
    {
        &self.cid
    }

    /// The externally assigned deal id.
    pub fn deal_id(&self) -> (deal_id: u64)
        ensures
            deal_id == self@.deal_id,
    {
        self.deal_id
    }

    /// The provider responsible for the deal.
    pub fn provider(&self) -> (provider: u64)
        ensures
            provider == self@.provider,
    {
        self.provider
    }

    /// The reward pledged at submission.
    pub fn reward_amount(&self) -> (reward: u64)
        ensures
            reward == self@.reward,
    {
        self.reward_amount
    }

    /// Whether the reward has been paid out.
    pub fn is_settled(&self) -> (settled: bool)
        ensures
            settled == self@.settled,
    {
        self.settled
    }
}

/// The sum of all pledged rewards.
pub open spec fn sum_rewards(rs: Seq<RecordView>) -> int
    decreases rs.len(),
{
    if rs.len() == 0 {
        0
    } else {
        sum_rewards(rs.drop_last()) + rs.last().reward
    }
}

/// The sum of the rewards of the settled records only.
pub open spec fn sum_settled(rs: Seq<RecordView>) -> int
    decreases rs.len(),
{
    if rs.len() == 0 {
        0
    } else {
        sum_settled(rs.drop_last()) + if rs.last().settled {
            rs.last().reward as int
        } else {
            0
        }
    }
}

/// Deal ids never repeat across records.
pub open spec fn records_unique(rs: Seq<RecordView>) -> bool {
    forall|p: int, q: int|
        0 <= p < q < rs.len() ==> (#[trigger] rs[p]).deal_id != (#[trigger] rs[q]).deal_id
}

/// Whether some record carries the deal id.
pub open spec fn has_deal(rs: Seq<RecordView>, deal_id: u64) -> bool {
    exists|i: int| 0 <= i < rs.len() && (#[trigger] rs[i]).deal_id == deal_id
}

/// The index of the record carrying the deal id, when one exists.
pub open spec fn deal_index(rs: Seq<RecordView>, deal_id: u64) -> int {
    choose|i: int| 0 <= i < rs.len() && (#[trigger] rs[i]).deal_id == deal_id
}

/// The record carrying the deal id, if any.
pub open spec fn find_deal(rs: Seq<RecordView>, deal_id: u64) -> Option<RecordView> {
    if has_deal(rs, deal_id) {
        Some(rs[deal_index(rs, deal_id)])
    } else {
        None
    }
}

/// The mathematical value of a [`DaoState`].
#[verifier::ext_equal]
pub struct DaoView {
    /// Whether the state has been constructed.
    pub initialized: bool,
    /// The admin identity.
    pub admin: u64,
    /// The member identities, in insertion order, without repeats.
    pub members: Seq<u64>,
    /// The data records, in submission order.
    pub records: Seq<RecordView>,
    /// The total reward ever pledged at submission.
    pub total_rewards: u64,
    /// The total reward actually paid out at settlement.
    pub total_settled: u64,
}

impl DaoView {
    /// The state before construction.
    pub open spec fn empty() -> DaoView {
        DaoView {
            initialized: false,
            admin: 0,
            members: Seq::empty(),
            records: Seq::empty(),
            total_rewards: 0,
            total_settled: 0,
        }
    }

    /// The state invariant: the totals are exactly the sums over the
    /// records, deal ids never repeat, and members never repeat.
    pub open spec fn wf(&self) -> bool {
        &&& self.total_rewards == sum_rewards(self.records)
        &&& self.total_settled == sum_settled(self.records)
        &&& records_unique(self.records)
        &&& self.members.no_duplicates()
    }
}

/// Whether the caller may submit data: the admin and every member may.
pub open spec fn may_submit(s: DaoView, caller: u64) -> bool {
    caller == s.admin || s.members.contains(caller)
}

/// What constructing the DAO does: it fails on an already-constructed
/// state, and otherwise installs the admin over an empty state.
pub open spec fn spec_init(s: DaoView, admin: u64) -> (DaoView, Result<(), CoreError>) {
    if s.initialized {
        (s, Err(CoreError::AlreadyInitialized))
    } else {
        (
            DaoView {
                initialized: true,
                admin: admin,
                members: Seq::empty(),
                records: Seq::empty(),
                total_rewards: 0,
                total_settled: 0,
            },
            Ok(()),
        )
    }
}

/// What adding a member does: only the admin may; adding a present member
/// is a no-op; otherwise the member is appended.
pub open spec fn spec_add_member(s: DaoView, caller: u64, new_member: u64) -> (DaoView, Result<
    (),
    CoreError,
>) {
    if caller != s.admin {
        (s, Err(CoreError::Unauthorized))
    } else if s.members.contains(new_member) {
        (s, Ok(()))
    } else {
        (DaoView { members: s.members.push(new_member), ..s }, Ok(()))
    }
}

/// What submitting data does: the admin or a member hands in an identifier
/// and a pledged reward together with the gateway's outcome for the deal
/// initiation. On a rejected deal nothing changes; on an accepted deal the
/// record is appended and the pledged total grows.
pub open spec fn spec_submit(
    s: DaoView,
    caller: u64,
    id: Seq<u8>,
    reward: u64,
    deal: Option<DealTicket>,
) -> (DaoView, Result<u64, CoreError>) {
    if !may_submit(s, caller) {
        (s, Err(CoreError::Unauthorized))
    } else {
        match deal {
            None => (s, Err(CoreError::DealRejected)),
            Some(ticket) => (
                DaoView {
                    records: s.records.push(
                        RecordView {
                            id: id,
                            deal_id: ticket.deal_id,
                            provider: ticket.provider,
                            reward: reward,
                            settled: false,
                        },
                    ),
                    total_rewards: (s.total_rewards + reward) as u64,
                    ..s
                },
                Ok(ticket.deal_id),
            ),
        }
    }
}

/// What preparing a reward does: only the admin may settle; the deal must
/// be recorded and not yet settled; the order names the recorded provider
/// and the recorded amount.
pub open spec fn spec_prepare_reward(s: DaoView, caller: u64, deal_id: u64) -> Result<
    PaymentOrder,
    CoreError,
> {
    if caller != s.admin {
        Err(CoreError::Unauthorized)
    } else {
        match find_deal(s.records, deal_id) {
            None => Err(CoreError::NotFound),
            Some(record) => if record.settled {
                Err(CoreError::AlreadySettled)
            } else {
                Ok(PaymentOrder { provider: record.provider, amount: record.reward })
            },
        }
    }
}

/// What settling a reward does, given whether the gateway's fund transfer
/// succeeded: the checks of [`spec_prepare_reward`] apply; a failed
/// transfer changes nothing; a successful one marks the record settled and
/// grows the paid total by exactly the recorded amount.
pub open spec fn spec_settle(s: DaoView, caller: u64, deal_id: u64, transferred: bool) -> (
    DaoView,
    Result<(), CoreError>,
) {
    if caller != s.admin {
        (s, Err(CoreError::Unauthorized))
    } else {
        match find_deal(s.records, deal_id) {
            None => (s, Err(CoreError::NotFound)),
            Some(record) => if record.settled {
                (s, Err(CoreError::AlreadySettled))
            } else if !transferred {
                (s, Err(CoreError::TransferFailed))
            } else {
                (
                    DaoView {
                        records: s.records.update(
                            deal_index(s.records, deal_id),
                            RecordView { settled: true, ..record },
                        ),
                        total_settled: (s.total_settled + record.reward) as u64,
                        ..s
                    },
                    Ok(()),
                )
            },
        }
    }
}

/// With pairwise-distinct deal ids, the record found for a deal id is the
/// record at any index carrying it.
pub proof fn lemma_find_deal_at(rs: Seq<RecordView>, deal_id: u64, i: int)
    requires
        records_unique(rs),
        0 <= i < rs.len(),
        rs[i].deal_id == deal_id,
    ensures
        has_deal(rs, deal_id),
        deal_index(rs, deal_id) == i,
        find_deal(rs, deal_id) == Some(rs[i]),
{
    assert(has_deal(rs, deal_id));
    let j = deal_index(rs, deal_id);
    assert(0 <= j < rs.len() && rs[j].deal_id == deal_id);
    if i < j {
        assert(rs[i].deal_id != rs[j].deal_id);
    }
    if j < i {
        assert(rs[j].deal_id != rs[i].deal_id);
    }
}

/// The settled sum never exceeds the pledged sum, and neither is negative.
pub proof fn lemma_sum_settled_le(rs: Seq<RecordView>)
    ensures
        0 <= sum_settled(rs),
        sum_settled(rs) <= sum_rewards(rs),
    decreases rs.len(),
{
    if rs.len() > 0 {
        lemma_sum_settled_le(rs.drop_last());
    }
}

/// An unsettled record's reward still fits between the settled sum and the
/// pledged sum.
pub proof fn lemma_sum_settled_bound(rs: Seq<RecordView>, i: int)
    requires
        0 <= i < rs.len(),
        !rs[i].settled,
    ensures
        sum_settled(rs) + rs[i].reward <= sum_rewards(rs),
    decreases rs.len(),
{
    if i == rs.len() - 1 {
        lemma_sum_settled_le(rs.drop_last());
    } else {
        assert(rs.drop_last()[i] == rs[i]);
        lemma_sum_settled_bound(rs.drop_last(), i);
    }
}

/// Marking one unsettled record settled keeps the pledged sum and grows
/// the settled sum by exactly that record's reward.
pub proof fn lemma_sum_update_settle(rs: Seq<RecordView>, i: int)
    requires
        0 <= i < rs.len(),
        !rs[i].settled,
    ensures
        sum_rewards(rs.update(i, RecordView { settled: true, ..rs[i] })) == sum_rewards(rs),
        sum_settled(rs.update(i, RecordView { settled: true, ..rs[i] })) == sum_settled(rs)
            + rs[i].reward,
    decreases rs.len(),
{
    let rs2 = rs.update(i, RecordView { settled: true, ..rs[i] });
    if i == rs.len() - 1 {
        assert(rs2.drop_last() =~= rs.drop_last());
        assert(rs2.last() == RecordView { settled: true, ..rs[i] });
    } else {
        assert(rs.drop_last()[i] == rs[i]);
        lemma_sum_update_settle(rs.drop_last(), i);
        assert(rs2.drop_last() =~= rs.drop_last().update(
            i,
            RecordView { settled: true, ..rs.drop_last()[i] },
        ));
        assert(rs2.last() == rs.last());
    }
}

/// The DAO state machine. One instance per deployed DAO, owned by its
/// caller; every mutation is gated by the caller's identity.
#[derive(Debug)]
pub struct DaoState {
    initialized: bool,
    admin: u64,
    members: Vec<u64>,
    records: Vec<DataRecord>,
    total_rewards: u64,
    total_settled: u64,
}

impl View for DaoState {
    type V = DaoView;

    closed spec fn view(&self) -> DaoView {
        DaoView {
            initialized: self.initialized,
            admin: self.admin,
            members: self.members@,
            records: self.records@.map_values(|r: DataRecord| r@),
            total_rewards: self.total_rewards,
            total_settled: self.total_settled,
        }
    }
}

impl DaoState {
    /// Creates the not-yet-constructed state.
    pub fn new() -> (dao: DaoState)
        ensures
            dao@ == DaoView::empty(),
            dao@.wf(),
    {
        let dao = DaoState {
            initialized: false,
            admin: 0,
            members: Vec::new(),
            records: Vec::new(),
            total_rewards: 0,
            total_settled: 0,
        };
        assert(dao@ =~= DaoView::empty());
        dao
    }

    /// Constructs the DAO: installs the admin over an empty state. Fails
    /// with `AlreadyInitialized` when called on a constructed state.
    pub fn init(&mut self, admin: u64) -> (result: Result<(), CoreError>)
        requires
            old(self)@.wf(),
        ensures
            final(self)@.wf(),
            final(self)@ == spec_init(old(self)@, admin).0,
            result == spec_init(old(self)@, admin).1,
    {
        if self.initialized {
            return Err(CoreError::AlreadyInitialized);
        }
        self.initialized = true;
        self.admin = admin;
        self.members = Vec::new();
        self.records = Vec::new();
        self.total_rewards = 0;
        self.total_settled = 0;
        assert(self@ =~= spec_init(old(self)@, admin).0);
        Ok(())
    }

    /// Whether the state has been constructed.
    pub fn is_initialized(&self) -> (initialized: bool)
        ensures
            initialized == self@.initialized,
    {
        self.initialized
    }

    /// The admin identity.
    pub fn admin(&self) -> (admin: u64)
        ensures
            admin == self@.admin,
    {
        self.admin
    }

    /// The member identities in insertion order.
    pub fn members(&self) -> (members: &Vec<u64>)
        ensures
            members@ == self@.members,
    {
        &self.members
    }

    /// The total reward ever pledged at submission.
    pub fn total_rewards(&self) -> (total: u64)
        ensures
            total == self@.total_rewards,
    {
        self.total_rewards
    }

    /// The total reward actually paid out at settlement.
    pub fn total_settled(&self) -> (total: u64)
        ensures
            total == self@.total_settled,
    {
        self.total_settled
    }

    /// The number of recorded submissions.
    pub fn record_count(&self) -> (count: usize)
        ensures
            count == self@.records.len(),
    {
        self.records.len()
    }

    /// Whether the identity is a recorded member.
    fn contains_member(&self, who: u64) -> (present: bool)
        ensures
            present == self@.members.contains(who),
    {
        let mut i: usize = 0;
        while i < self.members.len()
            invariant
                i <= self.members@.len(),
                forall|j: int| 0 <= j < i ==> self.members@[j] != who,
            decreases self.members@.len() - i,
        {
            if self.members[i] == who {
                return true;
            }
            i += 1;
        }
        false
    }

    /// Whether the caller may submit data.
    pub fn can_submit(&self, caller: u64) -> (allowed: bool)
        ensures
            allowed == may_submit(self@, caller),
    {
        caller == self.admin || self.contains_member(caller)
    }

    /// Adds a member. Only the admin may; adding a present member is a
    /// no-op; a non-admin caller gets `Unauthorized` and changes nothing.
    pub fn add_member(&mut self, caller: u64, new_member: u64) -> (result: Result<(), CoreError>)
        requires
            old(self)@.wf(),
        ensures
            final(self)@.wf(),
            final(self)@ == spec_add_member(old(self)@, caller, new_member).0,
            result == spec_add_member(old(self)@, caller, new_member).1,
    {
        if caller != self.admin {
            return Err(CoreError::Unauthorized);
        }
        if !self.contains_member(new_member) {
            self.members.push(new_member);
            assert(self@ =~= spec_add_member(old(self)@, caller, new_member).0);
        }
        Ok(())
    }

    /// Records a data submission, given the gateway's outcome for the deal
    /// initiation. `None` stands for a rejected deal: the call fails with
    /// `DealRejected` and the state is untouched. A non-admin non-member
    /// gets `Unauthorized` and changes nothing. On success the returned
    /// deal id is the ticket's, the record is appended unsettled, and the
    /// pledged total grows by the reward.
    pub fn submit_data(
        &mut self,
        caller: u64,
        id: &ContentId,
        reward_amount: u64,
        deal: Option<DealTicket>,
    ) -> (result: Result<u64, CoreError>)
        requires
            old(self)@.wf(),
            old(self)@.total_rewards + reward_amount <= u64::MAX,
            deal matches Some(ticket) ==> !has_deal(old(self)@.records, ticket.deal_id),
        ensures
            final(self)@.wf(),
            final(self)@ == spec_submit(old(self)@, caller, id@, reward_amount, deal).0,
            result == spec_submit(old(self)@, caller, id@, reward_amount, deal).1,
    {
        if !self.can_submit(caller) {
            return Err(CoreError::Unauthorized);
        }
        match deal {
            None => Err(CoreError::DealRejected),
            Some(ticket) => {
                let record = DataRecord {
                    cid: id.clone_id(),
                    deal_id: ticket.deal_id,
                    provider: ticket.provider,
                    reward_amount,
                    settled: false,
                };
                self.records.push(record);
                self.total_rewards = self.total_rewards + reward_amount;
                proof {
                    let old_records = old(self)@.records;
                    let new_records = self@.records;
                    assert(new_records.drop_last() =~= old_records);
                    assert(new_records.last() == RecordView {
                        id: id@,
                        deal_id: ticket.deal_id,
                        provider: ticket.provider,
                        reward: reward_amount,
                        settled: false,
                    });
                    assert(self@ =~= spec_submit(
                        old(self)@,
                        caller,
                        id@,
                        reward_amount,
                        deal,
                    ).0);
                    assert forall|p: int, q: int|
                        0 <= p < q < new_records.len() implies (#[trigger] new_records[p]).deal_id
                        != (#[trigger] new_records[q]).deal_id by {
                        if q == new_records.len() - 1 {
                            assert(old_records[p].deal_id != ticket.deal_id);
                        } else {
                            assert(old_records[p].deal_id != old_records[q].deal_id);
                        }
                    }
                }
                Ok(ticket.deal_id)
            },
        }
    }

    /// Finds the position of the record carrying the deal id.
    fn find_deal_index(&self, deal_id: u64) -> (found: Option<usize>)
        ensures
            match found {
                Some(i) => i < self@.records.len() && self@.records[i as int].deal_id == deal_id,
                None => forall|j: int|
                    0 <= j < self@.records.len() ==> (#[trigger] self@.records[j]).deal_id
                        != deal_id,
            },
    {
        let mut i: usize = 0;
        while i < self.records.len()
            invariant
                i <= self@.records.len(),
                forall|j: int| 0 <= j < i ==> (#[trigger] self@.records[j]).deal_id != deal_id,
            decreases self@.records.len() - i,
        {
            if self.records[i].deal_id == deal_id {
                return Some(i);
            }
            i += 1;
        }
        None
    }

    /// Reads the record for a deal id. Pure, needs no authorization.
    pub fn get_record(&self, deal_id: u64) -> (found: Option<&DataRecord>)
        requires
            self@.wf(),
        ensures
            match found {
                Some(record) => find_deal(self@.records, deal_id) == Some(record@),
                None => find_deal(self@.records, deal_id) is None,
            },
    {
        match self.find_deal_index(deal_id) {
            Some(i) => {
                proof {
                    lemma_find_deal_at(self@.records, deal_id, i as int);
                }
                Some(&self.records[i])
            },
            None => None,
        }
    }

    /// Checks a reward settlement and returns the payment the gateway must
    /// perform: the recorded provider and the recorded amount. Fails with
    /// `Unauthorized` for a non-admin, `NotFound` for an unknown deal id,
    /// and `AlreadySettled` for a deal already paid out.
    pub fn prepare_reward(&self, caller: u64, deal_id: u64) -> (result: Result<
        PaymentOrder,
        CoreError,
    >)
        requires
            self@.wf(),
        ensures
            result == spec_prepare_reward(self@, caller, deal_id),
    {
        if caller != self.admin {
            return Err(CoreError::Unauthorized);
        }
        match self.find_deal_index(deal_id) {
            None => Err(CoreError::NotFound),
            Some(i) => {
                proof {
                    lemma_find_deal_at(self@.records, deal_id, i as int);
                }
                if self.records[i].settled {
                    Err(CoreError::AlreadySettled)
                } else {
                    Ok(
                        PaymentOrder {
                            provider: self.records[i].provider,
                            amount: self.records[i].reward_amount,
                        },
                    )
                }
            },
        }
    }

    /// Settles a reward, given whether the gateway's fund transfer
    /// succeeded. The checks of [`Self::prepare_reward`] apply; a failed
    /// transfer leaves the state untouched and returns `TransferFailed`;
    /// a successful one marks the record settled and grows the paid total
    /// by exactly the recorded amount, so a second settlement of the same
    /// deal fails with `AlreadySettled`.
    pub fn reward_provider(&mut self, caller: u64, deal_id: u64, transferred: bool) -> (result:
        Result<(), CoreError>)
        requires
            old(self)@.wf(),
        ensures
            final(self)@.wf(),
            final(self)@ == spec_settle(old(self)@, caller, deal_id, transferred).0,
            result == spec_settle(old(self)@, caller, deal_id, transferred).1,
    {
        if caller != self.admin {
            return Err(CoreError::Unauthorized);
        }
        match self.find_deal_index(deal_id) {
            None => Err(CoreError::NotFound),
            Some(i) => {
                proof {
                    lemma_find_deal_at(self@.records, deal_id, i as int);
                }
                if self.records[i].settled {
                    Err(CoreError::AlreadySettled)
                } else if !transferred {
                    Err(CoreError::TransferFailed)
                } else {
                    proof {
                        lemma_sum_settled_bound(self@.records, i as int);
                    }
                    let amount = self.records[i].reward_amount;
                    let settled_record = DataRecord {
                        cid: self.records[i].cid.clone_id(),
                        deal_id: self.records[i].deal_id,
                        provider: self.records[i].provider,
                        reward_amount: amount,
                        settled: true,
                    };
                    self.records[i] = settled_record;
                    self.total_settled = self.total_settled + amount;
                    proof {
                        let old_records = old(self)@.records;
                        lemma_sum_update_settle(old_records, i as int);
                        assert(self@.records =~= old_records.update(
                            i as int,
                            RecordView { settled: true, ..old_records[i as int] },
                        ));
                        assert(self@ =~= spec_settle(old(self)@, caller, deal_id, transferred).0);
                        assert forall|p: int, q: int|
                            0 <= p < q < self@.records.len() implies (
                        #[trigger] self@.records[p]).deal_id != (
                        #[trigger] self@.records[q]).deal_id by {
                            assert((self@.records[p]).deal_id == (old_records[p]).deal_id);
                            assert((self@.records[q]).deal_id == (old_records[q]).deal_id);
                        }
                    }
                    Ok(())
                }
            },
        }
    }
}

/// Law: a non-admin caller cannot add a member or settle a reward; both
/// calls fail with `Unauthorized` and leave the whole state unchanged.
pub proof fn lemma_unauthorized_unchanged(
    s: DaoView,
    caller: u64,
    new_member: u64,
    deal_id: u64,
    transferred: bool,
)
    requires
        caller != s.admin,
    ensures
        spec_add_member(s, caller, new_member) == (s, Err::<(), CoreError>(CoreError::Unauthorized)),
        spec_settle(s, caller, deal_id, transferred) == (
            s,
            Err::<(), CoreError>(CoreError::Unauthorized),
        ),
{
}

/// Law: when the gateway rejects the deal, the submission fails and the
/// record list and both totals are exactly what they were: no partial
/// append is ever visible.
pub proof fn lemma_submit_atomic(s: DaoView, caller: u64, id: Seq<u8>, reward: u64)
    ensures
        spec_submit(s, caller, id, reward, None).0 == s,
        spec_submit(s, caller, id, reward, None).1 is Err,
        may_submit(s, caller) ==> spec_submit(s, caller, id, reward, None).1 == Err::<
            u64,
            CoreError,
        >(CoreError::DealRejected),
{
}

/// Law: a reward settles exactly once. After a successful settlement the
/// paid total has grown by exactly the recorded amount, and settling the
/// same deal id again fails with `AlreadySettled`, whatever the second
/// transfer outcome, leaving the state unchanged.
pub proof fn lemma_double_settlement(s: DaoView, caller: u64, deal_id: u64, transferred2: bool)
    requires
        s.wf(),
        spec_settle(s, caller, deal_id, true).1 is Ok,
    ensures
        spec_prepare_reward(s, caller, deal_id) matches Ok(order) ==> spec_settle(
            s,
            caller,
            deal_id,
            true,
        ).0.total_settled == s.total_settled + order.amount,
        spec_settle(spec_settle(s, caller, deal_id, true).0, caller, deal_id, transferred2).1
            == Err::<(), CoreError>(CoreError::AlreadySettled),
        spec_settle(spec_settle(s, caller, deal_id, true).0, caller, deal_id, transferred2).0
            == spec_settle(s, caller, deal_id, true).0,
{
    let i = deal_index(s.records, deal_id);
    assert(has_deal(s.records, deal_id));
    assert(0 <= i < s.records.len() && s.records[i].deal_id == deal_id);
    lemma_sum_settled_bound(s.records, i);
    assert(s.total_settled + s.records[i].reward <= u64::MAX);
    let s2 = spec_settle(s, caller, deal_id, true).0;
    assert(s2.records == s.records.update(i, RecordView { settled: true, ..s.records[i] }));
    assert forall|p: int, q: int|
        0 <= p < q < s2.records.len() implies (#[trigger] s2.records[p]).deal_id != (
    #[trigger] s2.records[q]).deal_id by {
        assert((s2.records[p]).deal_id == (s.records[p]).deal_id);
        assert((s2.records[q]).deal_id == (s.records[q]).deal_id);
    }
    lemma_find_deal_at(s2.records, deal_id, i);
    assert(s2.records[i].settled);
}

} // verus!
