use vstd::prelude::*;

use crate::errors::{ApplicationError, ErrorView};
use crate::tx::{Tx, TxView};

verus! {

/// The balance of `k` in `m`; an account never deposited into counts as zero.
pub open spec fn balance_of(m: Map<Seq<char>, u64>, k: Seq<char>) -> int {
    if m.contains_key(k) {
        m[k] as int
    } else {
        0
    }
}

/// The ledger after `deposit(k, amount)` on `m`, and what the call returns.
/// The account is created on its first deposit; a deposit that would take the
/// balance past `u64::MAX` is refused and changes nothing.
pub open spec fn deposit_outcome(m: Map<Seq<char>, u64>, k: Seq<char>, amount: u64) -> (
    Map<Seq<char>, u64>,
    Result<TxView, ErrorView>,
) {
    if balance_of(m, k) + amount > u64::MAX {
        (m, Err(ErrorView::AccountOverFunded(k, amount)))
    } else {
        (
            m.insert(k, (balance_of(m, k) + amount) as u64),
            Ok(TxView::Deposit { account: k, amount }),
        )
    }
}

/// The ledger after `withdraw(k, amount)` on `m`, and what the call returns.
/// An unknown account and a balance below `amount` are refused and change nothing.
pub open spec fn withdraw_outcome(m: Map<Seq<char>, u64>, k: Seq<char>, amount: u64) -> (
    Map<Seq<char>, u64>,
    Result<TxView, ErrorView>,
) {
    if !m.contains_key(k) {
        (m, Err(ErrorView::AccountNotFound(k)))
    } else if amount > m[k] {
        (m, Err(ErrorView::AccountUnderFunded(k, amount)))
    } else {
        (m.insert(k, (m[k] - amount) as u64), Ok(TxView::Withdraw { account: k, amount }))
    }
}

/// The ledger after `send(a, b, amount)` on `m`, and what the call returns: a
/// withdrawal from `a` followed by a deposit into `b`, both or neither.
pub open spec fn send_outcome(m: Map<Seq<char>, u64>, a: Seq<char>, b: Seq<char>, amount: u64) -> (
    Map<Seq<char>, u64>,
    Result<(TxView, TxView), ErrorView>,
) {
    let (m1, w) = withdraw_outcome(m, a, amount);
    match w {
        Err(e) => (m, Err(e)),
        Ok(wt) => {
            let (m2, d) = deposit_outcome(m1, b, amount);
            match d {
                Err(e) => (m, Err(e)),
                Ok(dt) => (m2, Ok((wt, dt))),
            }
        },
    }
}

/// The sum of the balances of the accounts in `keys`.
pub open spec fn sum_over(m: Map<Seq<char>, u64>, keys: Set<Seq<char>>) -> int
    decreases keys.len(),
{
    if keys.finite() && keys.len() > 0 {
        let k = keys.choose();
        balance_of(m, k) + sum_over(m, keys.remove(k))
    } else {
        0
    }
}

/// The sum of all balances in the ledger `m`.
pub open spec fn total(m: Map<Seq<char>, u64>) -> int {
    sum_over(m, m.dom())
}

/// Any member of `keys` may be taken out of the sum first.
pub proof fn lemma_sum_remove(m: Map<Seq<char>, u64>, keys: Set<Seq<char>>, k: Seq<char>)
    requires
        keys.finite(),
        keys.contains(k),
    ensures
        sum_over(m, keys) == balance_of(m, k) + sum_over(m, keys.remove(k)),
    decreases keys.len(),
{
    let c = keys.choose();
    assert(keys.len() > 0);
    if c != k {
        lemma_sum_remove(m, keys.remove(c), k);
        lemma_sum_remove(m, keys.remove(k), c);
        assert(keys.remove(c).remove(k) =~= keys.remove(k).remove(c));
    }
}

/// Two ledgers that agree on the balances of `keys` have the same sum over them.
pub proof fn lemma_sum_agree(m1: Map<Seq<char>, u64>, m2: Map<Seq<char>, u64>, keys: Set<Seq<char>>)
    requires
        keys.finite(),
        forall|k: Seq<char>| keys.contains(k) ==> balance_of(m1, k) == balance_of(m2, k),
    ensures
        sum_over(m1, keys) == sum_over(m2, keys),
    decreases keys.len(),
{
    if keys.len() > 0 {
        let c = keys.choose();
        lemma_sum_agree(m1, m2, keys.remove(c));
    }
}

/// The mathematical value of a single-record result.
pub open spec fn outcome_of(r: Result<Tx, ApplicationError>) -> Result<TxView, ErrorView> {
    match r {
        Ok(t) => Ok(t@),
        Err(e) => Err(e@),
    }
}

/// The mathematical value of a two-record result.
pub open spec fn pair_outcome_of(r: Result<(Tx, Tx), ApplicationError>) -> Result<
    (TxView, TxView),
    ErrorView,
> {
    match r {
        Ok((t1, t2)) => Ok((t1@, t2@)),
        Err(e) => Err(e@),
    }
}

struct Entry {
    account: String,
    balance: u64,
}

/// An in-memory ledger of unsigned balances keyed by account name.
pub struct Accounts {
    entries: Vec<Entry>,
    balances: Ghost<Map<Seq<char>, u64>>,
}

impl View for Accounts {
    type V = Map<Seq<char>, u64>;

    closed spec fn view(&self) -> Map<Seq<char>, u64> {
        self.balances@
    }
}

impl Accounts {
    /// Every entry is in the map with its balance, every key of the map has an
    /// entry, and no account has two entries.
    pub closed spec fn wf(&self) -> bool {
        &&& forall|i: int|
            0 <= i < self.entries@.len() ==> self.balances@.contains_key(
                #[trigger] self.entries@[i].account@,
            ) && self.balances@[self.entries@[i].account@] == self.entries@[i].balance
        &&& forall|k: Seq<char>| #[trigger]
            self.balances@.contains_key(k) ==> exists|i: int|
                0 <= i < self.entries@.len() && #[trigger] self.entries@[i].account@ == k
        &&& forall|i: int, j: int|
            0 <= i < j < self.entries@.len() ==> #[trigger] self.entries@[i].account@
                != #[trigger] self.entries@[j].account@
    }

    pub fn new() -> (r: Self)
        ensures
            r.wf(),
            r@ == Map::<Seq<char>, u64>::empty(),
    {
        Accounts { entries: Vec::new(), balances: Ghost(Map::empty()) }
    }

    fn find(&self, key: &String) -> (r: Option<usize>)
        requires
            self.wf(),
        ensures
            match r {
                Some(i) => i < self.entries@.len() && self.entries@[i as int].account@ == key@,
                None => !self@.contains_key(key@),
            },
    {
        let mut i: usize = 0;
        while i < self.entries.len()
            invariant
                self.wf(),
                i <= self.entries@.len(),
                forall|j: int| 0 <= j < i ==> self.entries@[j].account@ != key@,
            decreases self.entries@.len() - i,
        {
            if self.entries[i].account == *key {
                return Some(i);
            }
            i += 1;
        }
        None
    }

    /// The balance of `account`, or `None` where it was never deposited into.
    pub fn balance(&self, account: &str) -> (r: Option<u64>)
        requires
            self.wf(),
        ensures
            r == (if self@.contains_key(account@) {
                Some(self@[account@])
            } else {
                None::<u64>
            }),
    {
        let key = account.to_owned();
        match self.find(&key) {
            Some(i) => Some(self.entries[i].balance),
            None => None,
        }
    }

    /// Every account with its balance, each account once.
    pub fn to_vec(&self) -> (r: Vec<(String, u64)>)
        requires
            self.wf(),
        ensures
            r@.len() == self@.len(),
            forall|i: int|
                0 <= i < r@.len() ==> self@.contains_key(#[trigger] r@[i].0@) && self@[r@[i].0@]
                    == r@[i].1,
            forall|i: int, j: int|
                0 <= i < j < r@.len() ==> #[trigger] r@[i].0@ != #[trigger] r@[j].0@,
    {
        proof {
            self.lemma_len();
        }
        let mut r: Vec<(String, u64)> = Vec::new();
        let mut i: usize = 0;
        while i < self.entries.len()
            invariant
                self.wf(),
                i <= self.entries@.len(),
                r@.len() == i,
                forall|j: int|
                    0 <= j < i ==> #[trigger] r@[j].0@ == self.entries@[j].account@ && r@[j].1
                        == self.entries@[j].balance,
            decreases self.entries@.len() - i,
        {
            r.push((self.entries[i].account.clone(), self.entries[i].balance));
            i += 1;
        }
        assert forall|a: int, b: int| 0 <= a < b < r@.len() implies #[trigger] r@[a].0@
            != #[trigger] r@[b].0@ by {
            assert(self.entries@[a].account@ != self.entries@[b].account@);
        }
        assert forall|a: int| 0 <= a < r@.len() implies self@.contains_key(#[trigger] r@[a].0@)
            && self@[r@[a].0@] == r@[a].1 by {
            assert(self.entries@[a].account@ == r@[a].0@);
        }
        r
    }

    /// The number of accounts in the ledger.
    pub fn len(&self) -> (r: usize)
        requires
            self.wf(),
        ensures
            r == self@.len(),
    {
        proof {
            self.lemma_len();
        }
        self.entries.len()
    }

    proof fn lemma_len(&self)
        requires
            self.wf(),
        ensures
            self@.dom().finite(),
            self@.len() == self.entries@.len(),
    {
        let keys = Seq::new(self.entries@.len(), |i: int| self.entries@[i].account@);
        assert(keys.no_duplicates());
        assert(keys.to_set() =~= self@.dom()) by {
            assert forall|k: Seq<char>| self@.dom().contains(k) implies keys.to_set().contains(k) by {
                let i = choose|i: int|
                    0 <= i < self.entries@.len() && #[trigger] self.entries@[i].account@ == k;
                assert(keys[i] == k);
            }
        }
        keys.unique_seq_to_set();
    }

    pub fn deposit(&mut self, signer: &str, amount: u64) -> (r: Result<Tx, ApplicationError>)
        requires
            old(self).wf(),
        ensures
            final(self).wf(),
            (final(self)@, outcome_of(r)) == deposit_outcome(old(self)@, signer@, amount),
    {
        let key = signer.to_owned();
        match self.find(&key) {
            Some(i) => {
                let cur = self.entries[i].balance;
                match cur.checked_add(amount) {
                    Some(nb) => {
                        let ghost pre = *self;
                        self.entries[i].balance = nb;
                        self.balances = Ghost(self.balances@.insert(key@, nb));
                        assert forall|k: Seq<char>| #[trigger]
                            self.balances@.contains_key(k) implies exists|j: int|
                                0 <= j < self.entries@.len() && #[trigger] self.entries@[j].account@
                                    == k by {
                            assert(pre.balances@.contains_key(k));
                            let j = choose|j: int|
                                0 <= j < pre.entries@.len() && #[trigger] pre.entries@[j].account@
                                    == k;
                            assert(self.entries@[j].account@ == k);
                        }
                        Ok(Tx::Deposit { account: key, amount })
                    },
                    None => Err(ApplicationError::AccountOverFunded(key, amount)),
                }
            },
            None => {
                let ghost pre = *self;
                self.entries.push(Entry { account: key.clone(), balance: amount });
                self.balances = Ghost(self.balances@.insert(key@, amount));
                assert forall|k: Seq<char>| #[trigger]
                    self.balances@.contains_key(k) implies exists|j: int|
                        0 <= j < self.entries@.len() && #[trigger] self.entries@[j].account@
                            == k by {
                    if k == key@ {
                        assert(self.entries@[pre.entries@.len() as int].account@ == k);
                    } else {
                        assert(pre.balances@.contains_key(k));
                        let j = choose|j: int|
                            0 <= j < pre.entries@.len() && #[trigger] pre.entries@[j].account@
                                == k;
                        assert(self.entries@[j].account@ == k);
                    }
                }
                Ok(Tx::Deposit { account: key, amount })
            },
        }
    }
    pub fn withdraw(&mut self, signer: &str, amount: u64) -> (r: Result<Tx, ApplicationError>)
        requires
            old(self).wf(),
        ensures
            final(self).wf(),
            (final(self)@, outcome_of(r)) == withdraw_outcome(old(self)@, signer@, amount),
    {
        let key = signer.to_owned();
        match self.find(&key) {
            Some(i) => {
                let cur = self.entries[i].balance;
                match cur.checked_sub(amount) {
                    Some(nb) => {
                        let ghost pre = *self;
                        self.entries[i].balance = nb;
                        self.balances = Ghost(self.balances@.insert(key@, nb));
                        assert forall|k: Seq<char>| #[trigger]
                            self.balances@.contains_key(k) implies exists|j: int|
                                0 <= j < self.entries@.len() && #[trigger] self.entries@[j].account@
                                    == k by {
                            assert(pre.balances@.contains_key(k));
                            let j = choose|j: int|
                                0 <= j < pre.entries@.len() && #[trigger] pre.entries@[j].account@
                                    == k;
                            assert(self.entries@[j].account@ == k);
                        }
                        Ok(Tx::Withdraw { account: key, amount })
                    },
                    None => Err(ApplicationError::AccountUnderFunded(key, amount)),
                }
            },
            None => Err(ApplicationError::AccountNotFound(key)),
        }
    }

    /// Moves `amount` from `sender` to `recipient`, creating the recipient on
    /// its first credit. A failed credit puts the withdrawn amount back, so a
    /// failed send leaves the ledger as it was.
    pub fn send(&mut self, sender: &str, recipient: &str, amount: u64) -> (r: Result<
        (Tx, Tx),
        ApplicationError,
    >)
        requires
            old(self).wf(),
        ensures
            final(self).wf(),
            (final(self)@, pair_outcome_of(r)) == send_outcome(
                old(self)@,
                sender@,
                recipient@,
                amount,
            ),
    {
        let ghost m0 = self@;
        let tx_withdraw = match self.withdraw(sender, amount) {
            Ok(t) => t,
            Err(e) => {
                return Err(e);
            },
        };
        match self.deposit(recipient, amount) {
            Ok(tx_deposit) => Ok((tx_withdraw, tx_deposit)),
            Err(e) => {
                let refund = self.deposit(sender, amount);
                assert(refund.is_ok());
                assert(self@ =~= m0);
                Err(e)
            },
        }
    }
}

} // verus!
