//! Per-object economic state: a scalar balance plus named sub-account
//! balances. One record exists for every stored object; it is created
//! zeroed when the object is first stored and mutated only by explicit
//! postings.

use vstd::prelude::*;

verus! {

/// A named sub-account balance.
#[derive(Debug)]
pub struct SubAccount {
    name: String,
    amount: u64,
}

/// The economic state attached to one stored object.
#[derive(Debug)]
pub struct AccountState {
    balance: u64,
    subs: Vec<SubAccount>,
}

/// The mathematical value of an [`AccountState`]: the balance and the
/// sub-accounts as a sequence of (name, amount) pairs in insertion order.
#[verifier::ext_equal]
pub struct AccountView {
    /// The scalar balance.
    pub balance: u64,
    /// The named sub-account balances, in insertion order.
    pub subs: Seq<(Seq<char>, u64)>,
}

impl AccountView {
    /// The freshly created, zeroed state.
    pub open spec fn zeroed() -> AccountView {
        AccountView { balance: 0, subs: Seq::empty() }
    }

    /// Sub-account names never repeat.
    pub open spec fn wf(&self) -> bool {
        forall|i: int, j: int|
            0 <= i < j < self.subs.len() ==> (#[trigger] self.subs[i]).0 != (
            #[trigger] self.subs[j]).0
    }
}

impl View for AccountState {
    type V = AccountView;

    closed spec fn view(&self) -> AccountView {
        AccountView {
            balance: self.balance,
            subs: self.subs@.map_values(|s: SubAccount| (s.name@, s.amount)),
        }
    }
}

impl AccountState {
    /// Creates a zeroed account record.
    pub fn new() -> (account: AccountState)
        ensures
            account@ == AccountView::zeroed(),
            account@.wf(),
    {
        let account = AccountState { balance: 0, subs: Vec::new() };
        assert(account@ =~= AccountView::zeroed());
        account
    }

    /// The scalar balance.
    pub fn balance(&self) -> (balance: u64)
        ensures
            balance == self@.balance,
    {
        self.balance
    }

    /// Adds an amount to the scalar balance.
    pub fn credit(&mut self, amount: u64)
        requires
            old(self)@.balance + amount <= u64::MAX,
        ensures
            final(self)@.balance == old(self)@.balance + amount,
            final(self)@.subs == old(self)@.subs,
    {
        self.balance = self.balance + amount;
    }

    /// Looks up a sub-account balance by name.
    pub fn sub_balance(&self, name: &str) -> (found: Option<u64>)
        ensures
            match found {
                Some(amount) => exists|i: int|
                    0 <= i < self@.subs.len() && #[trigger] self@.subs[i] == (name@, amount),
                None => forall|i: int|
                    0 <= i < self@.subs.len() ==> (#[trigger] self@.subs[i]).0 != name@,
            },
    {
        let want: String = name.to_owned();
        let mut i: usize = 0;
        while i < self.subs.len()
            invariant
                i <= self@.subs.len(),
                want@ == name@,
                forall|j: int| 0 <= j < i ==> (#[trigger] self@.subs[j]).0 != name@,
            decreases self@.subs.len() - i,
        {
            if self.subs[i].name == want {
                assert(self@.subs[i as int] == (name@, self.subs@[i as int].amount));
                return Some(self.subs[i].amount);
            }
            i += 1;
        }
        None
    }

    /// Posts an amount to a named sub-account, creating it when absent.
    #[verifier::loop_isolation(false)]
    pub fn credit_sub(&mut self, name: &str, amount: u64)
        requires
            old(self)@.wf(),
            forall|i: int|
                0 <= i < old(self)@.subs.len() && (#[trigger] old(self)@.subs[i]).0 == name@
                    ==> old(self)@.subs[i].1 + amount <= u64::MAX,
        ensures
            final(self)@.wf(),
            final(self)@.balance == old(self)@.balance,
            (exists|i: int| 0 <= i < old(self)@.subs.len() && (#[trigger] old(self)@.subs[i]).0 == name@)
                ==> exists|i: int|
                {
                    &&& 0 <= i < old(self)@.subs.len()
                    &&& (#[trigger] old(self)@.subs[i]).0 == name@
                    &&& final(self)@.subs == old(self)@.subs.update(
                        i,
                        (name@, (old(self)@.subs[i].1 + amount) as u64),
                    )
                },
            (forall|i: int| 0 <= i < old(self)@.subs.len() ==> (#[trigger] old(self)@.subs[i]).0 != name@)
                ==> final(self)@.subs == old(self)@.subs.push((name@, amount)),
    {
        let want: String = name.to_owned();
        let mut i: usize = 0;
        while i < self.subs.len()
            invariant
                i <= self@.subs.len(),
                want@ == name@,
                self@ == old(self)@,
                forall|j: int| 0 <= j < i ==> (#[trigger] self@.subs[j]).0 != name@,
            decreases self@.subs.len() - i,
        {
            if self.subs[i].name == want {
                proof {
                    assert((old(self)@.subs[i as int]).0 == name@);
                    assert(old(self)@.subs[i as int].1 + amount <= u64::MAX);
                    assert(self.subs@[i as int].amount == old(self)@.subs[i as int].1);
                }
                let updated = self.subs[i].amount + amount;
                self.subs[i] = SubAccount { name: want, amount: updated };
                proof {
                    assert(self@.subs =~= old(self)@.subs.update(
                        i as int,
                        (name@, (old(self)@.subs[i as int].1 + amount) as u64),
                    ));
                    assert forall|p: int, q: int|
                        0 <= p < q < self@.subs.len() implies (#[trigger] self@.subs[p]).0 != (
                    #[trigger] self@.subs[q]).0 by {
                        assert((self@.subs[p]).0 == (old(self)@.subs[p]).0);
                        assert((self@.subs[q]).0 == (old(self)@.subs[q]).0);
                    }
                }
                return ;
            }
            i += 1;
        }
        self.subs.push(SubAccount { name: want, amount });
        proof {
            assert(self@.subs =~= old(self)@.subs.push((name@, amount)));
            assert forall|p: int, q: int|
                0 <= p < q < self@.subs.len() implies (#[trigger] self@.subs[p]).0 != (
            #[trigger] self@.subs[q]).0 by {
                if q < self@.subs.len() - 1 {
                    assert((self@.subs[p]).0 == (old(self)@.subs[p]).0);
                    assert((self@.subs[q]).0 == (old(self)@.subs[q]).0);
                } else {
                    assert((self@.subs[p]).0 == (old(self)@.subs[p]).0);
                    assert((self@.subs[q]).0 == name@);
                }
            }
        }
    }
}

} // verus!
