use vstd::prelude::*;

verus! {

/// One account's token balance.
#[derive(Clone, Copy, Debug, PartialEq, Eq, Structural)]
pub struct AccountBalance {
    pub id: u64,
    pub amount: u64,
}

/// Failure of a ledger transfer.
#[derive(Clone, Copy, Debug, PartialEq, Eq, Structural)]
pub enum TransferError {
    /// The payer holds fewer tokens than the transfer asks for.
    InsufficientBalance,
}

/// Exactly `amount` tokens moved from `payer` to `payee` between the two
/// ledger states, and no other balance changed.
pub open spec fn charged(pre: Ledger, post: Ledger, payer: u64, payee: u64, amount: u64) -> bool {
    forall|a: u64|
        post.balance_spec(a) == pre.balance_spec(a) - (
        if a == payer {
            amount as int
        } else {
            0
        }) + (
        if a == payee {
            amount as int
        } else {
            0
        })
}

/// The fungible token ledger funding every mutating post operation. An
/// account that never received tokens holds a zero balance.
#[derive(Debug)]
pub struct Ledger {
    pub accounts: Vec<AccountBalance>,
}

impl Ledger {
    /// Some entry of the ledger is for account `a`.
    pub open spec fn has_account(self, a: u64) -> bool {
        exists|i: int| 0 <= i < self.accounts@.len() && self.accounts@[i].id == a
    }

    /// The position of account `a`'s entry; meaningful under `wf`.
    pub open spec fn account_index(self, a: u64) -> int {
        choose|i: int| 0 <= i < self.accounts@.len() && self.accounts@[i].id == a
    }

    /// The balance of account `a`; absent accounts hold zero.
    pub open spec fn balance_spec(self, a: u64) -> int {
        if self.has_account(a) {
            self.accounts@[self.account_index(a)].amount as int
        } else {
            0
        }
    }

    /// Well-formedness: each account has at most one entry.
    pub open spec fn wf(self) -> bool {
        forall|i: int, j: int|
            0 <= i < j < self.accounts@.len() ==> self.accounts@[i].id != self.accounts@[j].id
    }

    /// Under `wf`, an entry for `a` at position `i` is the entry for `a`.
    proof fn lemma_index_unique(self, i: int, a: u64)
        requires
            self.wf(),
            0 <= i < self.accounts@.len(),
            self.accounts@[i].id == a,
        ensures
            self.has_account(a),
            self.account_index(a) == i,
    {
        assert(self.has_account(a));
        let j = self.account_index(a);
        assert(0 <= j < self.accounts@.len() && self.accounts@[j].id == a);
        if i < j {
            assert(self.accounts@[i].id != self.accounts@[j].id);
        } else if j < i {
            assert(self.accounts@[j].id != self.accounts@[i].id);
        }
    }

    /// Replacing the entry at `i` by one for the same account changes that
    /// account's balance alone.
    proof fn lemma_balance_update(pre: Ledger, post: Ledger, i: int, e: AccountBalance)
        requires
            pre.wf(),
            0 <= i < pre.accounts@.len(),
            post.accounts@ == pre.accounts@.update(i, e),
            e.id == pre.accounts@[i].id,
        ensures
            post.wf(),
            post.balance_spec(e.id) == e.amount,
            forall|b: u64| b != e.id ==> post.balance_spec(b) == pre.balance_spec(b),
    {
        assert forall|k: int| 0 <= k < post.accounts@.len() implies post.accounts@[k].id
            == pre.accounts@[k].id by {}
        assert(post.wf());
        post.lemma_index_unique(i, e.id);
        assert forall|b: u64| b != e.id implies post.balance_spec(b) == pre.balance_spec(b) by {
            if pre.has_account(b) {
                let j = pre.account_index(b);
                assert(0 <= j < pre.accounts@.len() && pre.accounts@[j].id == b);
                assert(j != i);
                post.lemma_index_unique(j, b);
            } else {
                assert(!post.has_account(b));
            }
        }
    }

    /// Appending an entry for a fresh account changes that account's balance
    /// alone.
    proof fn lemma_balance_push(pre: Ledger, post: Ledger, e: AccountBalance)
        requires
            pre.wf(),
            !pre.has_account(e.id),
            post.accounts@ == pre.accounts@.push(e),
        ensures
            post.wf(),
            post.balance_spec(e.id) == e.amount,
            forall|b: u64| b != e.id ==> post.balance_spec(b) == pre.balance_spec(b),
    {
        let n = pre.accounts@.len() as int;
        assert forall|k: int| 0 <= k < n implies post.accounts@[k] == pre.accounts@[k] by {}
        assert forall|k: int| 0 <= k < n implies post.accounts@[k].id != e.id by {
            assert(pre.accounts@[k].id != e.id);
        }
        assert(post.wf());
        post.lemma_index_unique(n, e.id);
        assert forall|b: u64| b != e.id implies post.balance_spec(b) == pre.balance_spec(b) by {
            if pre.has_account(b) {
                let j = pre.account_index(b);
                assert(0 <= j < n && pre.accounts@[j].id == b);
                post.lemma_index_unique(j, b);
            } else {
                assert(!post.has_account(b));
            }
        }
    }

    /// An empty ledger: every account holds zero.
    pub fn new() -> (r: Ledger)
        ensures
            r.wf(),
            r.accounts@.len() == 0,
            forall|a: u64| r.balance_spec(a) == 0,
    {
        Ledger { accounts: Vec::new() }
    }

    /// The position of account `a`'s entry, if it has one.
    fn find_account(&self, a: u64) -> (r: Option<usize>)
        ensures
            match r {
                Some(i) => i < self.accounts@.len() && self.accounts@[i as int].id == a,
                None => !self.has_account(a),
            },
    {
        let n = self.accounts.len();
        let mut i: usize = 0;
        while i < n
            invariant
                i <= n,
                n == self.accounts@.len(),
                forall|k: int| 0 <= k < i ==> self.accounts@[k].id != a,
            decreases n - i,
        {
            if self.accounts[i].id == a {
                return Some(i);
            }
            i = i + 1;
        }
        None
    }

    /// The balance of account `a`.
    pub fn balance_of(&self, a: u64) -> (r: u64)
        requires
            self.wf(),
        ensures
            r as int == self.balance_spec(a),
    {
        match self.find_account(a) {
            Some(i) => {
                proof {
                    self.lemma_index_unique(i as int, a);
                }
                self.accounts[i].amount
            },
            None => 0,
        }
    }

    /// Mint `amount` tokens onto account `a`.
    pub fn credit(&mut self, a: u64, amount: u64)
        requires
            old(self).wf(),
            old(self).balance_spec(a) + amount <= u64::MAX,
        ensures
            final(self).wf(),
            final(self).balance_spec(a) == old(self).balance_spec(a) + amount,
            forall|b: u64| b != a ==> final(self).balance_spec(b) == old(self).balance_spec(b),
    {
        let ghost pre = *self;
        match self.find_account(a) {
            Some(i) => {
                proof {
                    pre.lemma_index_unique(i as int, a);
                }
                let slot = &mut self.accounts[i];
                slot.amount = slot.amount + amount;
                proof {
                    Self::lemma_balance_update(
                        pre,
                        *self,
                        i as int,
                        (AccountBalance { id: a, amount: (pre.balance_spec(a) + amount) as u64 }),
                    );
                }
            },
            None => {
                self.accounts.push(AccountBalance { id: a, amount });
                proof {
                    Self::lemma_balance_push(pre, *self, (AccountBalance { id: a, amount }));
                }
            },
        }
    }

    /// Move `amount` tokens from `from` to `to`. Succeeds exactly when `from`
    /// holds at least `amount`; a declined transfer changes nothing.
    pub fn transfer(&mut self, from: u64, to: u64, amount: u64) -> (r: Result<(), TransferError>)
        requires
            old(self).wf(),
            from != to ==> old(self).balance_spec(to) + amount <= u64::MAX,
        ensures
            final(self).wf(),
            r is Err <==> old(self).balance_spec(from) < amount,
            r is Err ==> r == Err::<(), TransferError>(TransferError::InsufficientBalance)
                && *final(self) == *old(self),
            r is Ok ==> charged(*old(self), *final(self), from, to, amount),
    {
        let ghost pre = *self;
        let from_idx = match self.find_account(from) {
            Some(i) => i,
            None => {
                if amount > 0 {
                    return Err(TransferError::InsufficientBalance);
                }
                return Ok(());
            },
        };
        proof {
            pre.lemma_index_unique(from_idx as int, from);
        }
        let from_amount = self.accounts[from_idx].amount;
        if from_amount < amount {
            return Err(TransferError::InsufficientBalance);
        }
        if from == to {
            return Ok(());
        }
        let slot = &mut self.accounts[from_idx];
        slot.amount = slot.amount - amount;
        let ghost mid = *self;
        proof {
            Self::lemma_balance_update(
                pre,
                mid,
                from_idx as int,
                (AccountBalance { id: from, amount: (from_amount - amount) as u64 }),
            );
        }
        match self.find_account(to) {
            Some(j) => {
                proof {
                    mid.lemma_index_unique(j as int, to);
                }
                let dest = &mut self.accounts[j];
                dest.amount = dest.amount + amount;
                proof {
                    Self::lemma_balance_update(
                        mid,
                        *self,
                        j as int,
                        (AccountBalance { id: to, amount: (mid.balance_spec(to) + amount) as u64 }),
                    );
                }
            },
            None => {
                self.accounts.push(AccountBalance { id: to, amount });
                proof {
                    Self::lemma_balance_push(mid, *self, (AccountBalance { id: to, amount }));
                }
            },
        }
        Ok(())
    }
}

} // verus!
