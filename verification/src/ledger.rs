//! A model of the fungible-token and native-currency ledgers.
//!
//! The real mint, burn and transfer primitives live outside the state
//! machine; the machine tracks the balances they maintain so that its
//! economy operations can state exactly how every balance moves.  A
//! ledger maps each identity to a balance; an identity without an
//! account holds zero.

use crate::errors::AcademicChainError;
use crate::identity::Identity;
use vstd::prelude::*;

verus! {

/// One identity's balance.
pub struct TokenAccount {
    pub owner: Identity,
    pub amount: u64,
}

/// Balances per identity, each identity holding at most one account.
pub struct TokenLedger {
    pub accounts: Vec<TokenAccount>,
}

impl TokenLedger {
    /// At most one account per identity.
    pub open spec fn wf(self) -> bool {
        forall|i: int, j: int|
            0 <= i < self.accounts@.len() && 0 <= j < self.accounts@.len() && i != j
                ==> #[trigger] self.accounts@[i].owner != #[trigger] self.accounts@[j].owner
    }

    /// Whether an account exists for `id`.
    pub open spec fn holds(self, id: Identity) -> bool {
        exists|i: int|
            0 <= i < self.accounts@.len() && #[trigger] self.accounts@[i].owner == id
    }

    /// The index of the account owned by `id`, if one exists.
    pub open spec fn index_of(self, id: Identity) -> int {
        choose|i: int| 0 <= i < self.accounts@.len() && #[trigger] self.accounts@[i].owner == id
    }

    /// The balance of `id`; zero without an account.
    pub open spec fn balance_of(self, id: Identity) -> u64 {
        if self.holds(id) {
            self.accounts@[self.index_of(id)].amount
        } else {
            0
        }
    }

    /// In a well-formed ledger an account's index is determined by its owner.
    pub proof fn lemma_at_index(self, id: Identity, i: int)
        requires
            self.wf(),
            0 <= i < self.accounts@.len(),
            self.accounts@[i].owner == id,
        ensures
            self.holds(id),
            self.index_of(id) == i,
            self.balance_of(id) == self.accounts@[i].amount,
    {
        assert(self.holds(id)) by {
            assert(self.accounts@[i].owner == id);
        }
        let j = self.index_of(id);
        assert(0 <= j < self.accounts@.len() && self.accounts@[j].owner == id);
        assert(j == i);
    }

    /// An empty ledger.
    pub fn new() -> (r: TokenLedger)
        ensures
            r.wf(),
            forall|x: Identity| r.balance_of(x) == 0,
            r.accounts@.len() == 0,
    {
        TokenLedger { accounts: Vec::new() }
    }

    /// The index of the account owned by `id`, if one exists.
    fn find(&self, id: &Identity) -> (r: Option<usize>)
        ensures
            match r {
                Some(i) => i < self.accounts@.len() && self.accounts@[i as int].owner == *id,
                None => !self.holds(*id),
            },
    {
        let n = self.accounts.len();
        let mut k: usize = 0;
        while k < n
            invariant
                n == self.accounts@.len(),
                k <= n,
                forall|j: int| 0 <= j < k ==> #[trigger] self.accounts@[j].owner != *id,
            decreases n - k,
        {
            if self.accounts[k].owner == *id {
                return Some(k);
            }
            k += 1;
        }
        None
    }

    /// The balance of `id`.
    pub fn balance(&self, id: &Identity) -> (r: u64)
        requires
            self.wf(),
        ensures
            r == self.balance_of(*id),
    {
        match self.find(id) {
            Some(i) => {
                proof {
                    self.lemma_at_index(*id, i as int);
                }
                self.accounts[i].amount
            },
            None => 0,
        }
    }

    /// Credit `amount` to `id`, creating the account on first use; fails
    /// only when the balance would no longer fit.
    pub fn deposit(&mut self, id: &Identity, amount: u64) -> (r: Result<
        (),
        AcademicChainError,
    >)
        requires
            old(self).wf(),
        ensures
            final(self).wf(),
            match r {
                Ok(()) => {
                    &&& old(self).balance_of(*id) + amount <= u64::MAX
                    &&& forall|x: Identity|
                        final(self).balance_of(x) == if x == *id {
                            old(self).balance_of(*id) + amount
                        } else {
                            old(self).balance_of(x) as int
                        }
                },
                Err(e) => {
                    &&& e == AcademicChainError::ArithmeticOverflow
                    &&& old(self).balance_of(*id) + amount > u64::MAX
                    &&& *final(self) == *old(self)
                },
            },
    {
        match self.find(id) {
            Some(i) => {
                proof {
                    self.lemma_at_index(*id, i as int);
                }
                let current = self.accounts[i].amount;
                if amount > u64::MAX - current {
                    return Err(AcademicChainError::ArithmeticOverflow);
                }
                let updated = TokenAccount { owner: self.accounts[i].owner, amount: current + amount };
                self.accounts[i] = updated;
                proof {
                    assert(forall|k: int|
                        0 <= k < self.accounts@.len()
                            ==> #[trigger] self.accounts@[k].owner == old(self).accounts@[k].owner);
                    assert(self.wf());
                    assert forall|x: Identity|
                        self.balance_of(x) == if x == *id {
                            old(self).balance_of(*id) + amount
                        } else {
                            old(self).balance_of(x) as int
                        } by {
                        if x == *id {
                            self.lemma_at_index(x, i as int);
                        } else {
                            if old(self).holds(x) {
                                let j = old(self).index_of(x);
                                old(self).lemma_at_index(x, j);
                                assert(j != i as int);
                                self.lemma_at_index(x, j);
                            } else {
                                assert(!self.holds(x));
                            }
                        }
                    }
                }
                Ok(())
            },
            None => {
                let account = TokenAccount { owner: *id, amount };
                self.accounts.push(account);
                proof {
                    let n = old(self).accounts@.len() as int;
                    assert(self.accounts@ == old(self).accounts@.push(account));
                    assert(forall|k: int|
                        0 <= k < n ==> #[trigger] self.accounts@[k].owner != *id);
                    assert(self.wf());
                    assert forall|x: Identity|
                        self.balance_of(x) == if x == *id {
                            old(self).balance_of(*id) + amount
                        } else {
                            old(self).balance_of(x) as int
                        } by {
                        if x == *id {
                            self.lemma_at_index(x, n);
                        } else {
                            if old(self).holds(x) {
                                let j = old(self).index_of(x);
                                old(self).lemma_at_index(x, j);
                                self.lemma_at_index(x, j);
                            } else {
                                assert(!self.holds(x));
                            }
                        }
                    }
                }
                Ok(())
            },
        }
    }

    /// Whether moving `amount` from `from` to `to` can succeed: the
    /// source covers it and the destination can still hold it.
    pub open spec fn can_transfer(self, source: Identity, dest: Identity, amount: u64) -> bool {
        &&& self.balance_of(source) >= amount
        &&& (source == dest || self.balance_of(dest) + amount <= u64::MAX)
    }

    /// The balance of `x` after `amount` moved from `source` to `dest`.
    pub open spec fn balance_after_transfer(
        self,
        source: Identity,
        dest: Identity,
        amount: u64,
        x: Identity,
    ) -> u64 {
        if source == dest {
            self.balance_of(x)
        } else if x == source {
            (self.balance_of(source) - amount) as u64
        } else if x == dest {
            (self.balance_of(dest) + amount) as u64
        } else {
            self.balance_of(x)
        }
    }

    /// Move `amount` from `source` to `dest` atomically; fails without
    /// touching any balance when `source` cannot cover it or `dest` can
    /// no longer hold it.
    pub fn transfer(&mut self, source: &Identity, dest: &Identity, amount: u64) -> (r: Result<
        (),
        AcademicChainError,
    >)
        requires
            old(self).wf(),
        ensures
            final(self).wf(),
            match r {
                Ok(()) => {
                    &&& old(self).can_transfer(*source, *dest, amount)
                    &&& forall|x: Identity|
                        final(self).balance_of(x) == old(self).balance_after_transfer(
                            *source,
                            *dest,
                            amount,
                            x,
                        )
                },
                Err(e) => {
                    &&& !old(self).can_transfer(*source, *dest, amount)
                    &&& *final(self) == *old(self)
                    &&& e == (if old(self).balance_of(*source) < amount {
                        AcademicChainError::InsufficientFunds
                    } else {
                        AcademicChainError::ArithmeticOverflow
                    })
                },
            },
    {
        let source_balance = self.balance(source);
        if source_balance < amount {
            return Err(AcademicChainError::InsufficientFunds);
        }
        if *source == *dest {
            return Ok(());
        }
        let dest_balance = self.balance(dest);
        if amount > u64::MAX - dest_balance {
            return Err(AcademicChainError::ArithmeticOverflow);
        }
        self.withdraw(source, amount);
        let ghost mid = *self;
        match self.deposit(dest, amount) {
            Ok(()) => {
                proof {
                    assert forall|x: Identity|
                        self.balance_of(x) == old(self).balance_after_transfer(
                            *source,
                            *dest,
                            amount,
                            x,
                        ) by {
                        assert(mid.balance_of(x) == if x == *source {
                            (old(self).balance_of(*source) - amount) as u64
                        } else {
                            old(self).balance_of(x)
                        });
                    }
                }
                Ok(())
            },
            Err(e) => {
                proof {
                    assert(mid.balance_of(*dest) == old(self).balance_of(*dest));
                    assert(false);
                }
                Err(e)
            },
        }
    }

    /// Remove `amount` from `id`'s balance; the caller has already
    /// checked that the balance covers it.
    pub fn withdraw(&mut self, id: &Identity, amount: u64)
        requires
            old(self).wf(),
            old(self).balance_of(*id) >= amount,
        ensures
            final(self).wf(),
            forall|x: Identity|
                final(self).balance_of(x) == if x == *id {
                    (old(self).balance_of(*id) - amount) as u64
                } else {
                    old(self).balance_of(x)
                },
    {
        if amount == 0 {
            return ;
        }
        match self.find(id) {
            Some(i) => {
                proof {
                    self.lemma_at_index(*id, i as int);
                }
                let current = self.accounts[i].amount;
                let updated = TokenAccount { owner: self.accounts[i].owner, amount: current - amount };
                self.accounts[i] = updated;
                proof {
                    assert(forall|k: int|
                        0 <= k < self.accounts@.len()
                            ==> #[trigger] self.accounts@[k].owner == old(self).accounts@[k].owner);
                    assert(self.wf());
                    assert forall|x: Identity|
                        self.balance_of(x) == if x == *id {
                            (old(self).balance_of(*id) - amount) as u64
                        } else {
                            old(self).balance_of(x)
                        } by {
                        if x == *id {
                            self.lemma_at_index(x, i as int);
                        } else {
                            if old(self).holds(x) {
                                let j = old(self).index_of(x);
                                old(self).lemma_at_index(x, j);
                                assert(j != i as int);
                                self.lemma_at_index(x, j);
                            } else {
                                assert(!self.holds(x));
                            }
                        }
                    }
                }
            },
            None => {
                proof {
                    assert(old(self).balance_of(*id) == 0);
                    assert(false);
                }
            },
        }
    }
}

} // verus!
