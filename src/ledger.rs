use vstd::prelude::*;
use crate::types::{AccountId, Balance, BondId, Error};

verus! {

/// Where a bond stands: held from its owner, or settled one way or the other.
#[derive(Debug, Clone, Copy, PartialEq, Eq, Structural)]
pub enum BondStatus {
    Held,
    Released,
    Slashed,
}

/// A deposit reserved from an account.
#[derive(Debug, Clone, Copy, PartialEq, Eq, Structural)]
pub struct Bond {
    pub owner: AccountId,
    pub amount: Balance,
    pub status: BondStatus,
}

/// The balances the pool works with: the free balance of each account, the
/// bonds held from accounts, the pool's own free funds and the pool's
/// escrowed funds.
pub struct Ledger {
    pub free: Vec<Balance>,
    pub bonds: Vec<Bond>,
    pub pool: Balance,
    pub escrow: Balance,
}

pub open spec fn seq_sum(s: Seq<Balance>) -> nat
    decreases s.len(),
{
    if s.len() == 0 {
        0
    } else {
        seq_sum(s.drop_last()) + s.last() as nat
    }
}

pub open spec fn held_amount(b: Bond) -> nat {
    if b.status == BondStatus::Held {
        b.amount as nat
    } else {
        0
    }
}

/// What all held bonds in `s` hold together.
pub open spec fn held_sum(s: Seq<Bond>) -> nat
    decreases s.len(),
{
    if s.len() == 0 {
        0
    } else {
        held_sum(s.drop_last()) + held_amount(s.last())
    }
}

pub proof fn lemma_seq_sum_update(s: Seq<Balance>, i: int, v: Balance)
    requires
        0 <= i < s.len(),
    ensures
        seq_sum(s.update(i, v)) == seq_sum(s) - s[i] + v,
        s[i] <= seq_sum(s),
    decreases s.len(),
{
    let t = s.update(i, v);
    assert(t.drop_last() =~= if i == s.len() - 1 {
        s.drop_last()
    } else {
        s.drop_last().update(i, v)
    });
    if i < s.len() - 1 {
        lemma_seq_sum_update(s.drop_last(), i, v);
    }
}

pub proof fn lemma_held_sum_update(s: Seq<Bond>, i: int, b: Bond)
    requires
        0 <= i < s.len(),
    ensures
        held_sum(s.update(i, b)) == held_sum(s) - held_amount(s[i]) + held_amount(b),
        held_amount(s[i]) <= held_sum(s),
    decreases s.len(),
{
    let t = s.update(i, b);
    assert(t.drop_last() =~= if i == s.len() - 1 {
        s.drop_last()
    } else {
        s.drop_last().update(i, b)
    });
    if i < s.len() - 1 {
        lemma_held_sum_update(s.drop_last(), i, b);
    }
}

pub proof fn lemma_held_sum_push(s: Seq<Bond>, b: Bond)
    ensures
        held_sum(s.push(b)) == held_sum(s) + held_amount(b),
{
    assert(s.push(b).drop_last() =~= s);
}

impl Ledger {
    /// All funds the ledger accounts for.
    pub open spec fn total(&self) -> nat {
        seq_sum(self.free@) + held_sum(self.bonds@) + self.pool as nat + self.escrow as nat
    }

    pub open spec fn wf(&self) -> bool {
        &&& self.total() <= u64::MAX
        &&& forall|i: int| 0 <= i < self.bonds@.len() ==> #[trigger] self.bonds@[i].owner < self.free@.len()
    }

    /// The ledger with the given account balances, no bonds and `pool` in the
    /// pool's free funds.
    pub fn new(free: Vec<Balance>, pool: Balance) -> (r: Ledger)
        requires
            seq_sum(free@) + pool <= u64::MAX,
        ensures
            r.wf(),
            r.free@ == free@,
            r.bonds@.len() == 0,
            r.pool == pool,
            r.escrow == 0,
    {
        let r = Ledger { free, bonds: Vec::new(), pool, escrow: 0 };
        assert(held_sum(r.bonds@) == 0);
        r
    }

    pub fn free_balance(&self, account: AccountId) -> (r: Balance)
        ensures
            account < self.free@.len() ==> r == self.free@[account as int],
            account >= self.free@.len() ==> r == 0,
    {
        if account < self.free.len() {
            self.free[account]
        } else {
            0
        }
    }

    /// The amount bond `id` was made for.
    pub fn bond_amount(&self, id: BondId) -> (r: Balance)
        requires
            id < self.bonds@.len(),
        ensures
            r == self.bonds@[id as int].amount,
    {
        self.bonds[id].amount
    }

    /// Places a hold on `amount` of the free balance of `account`.
    pub fn reserve_bond(&mut self, account: AccountId, amount: Balance) -> (r: Result<BondId, Error>)
        requires
            old(self).wf(),
        ensures
            final(self).wf(),
            account >= old(self).free@.len() ==> r == Err::<BondId, Error>(Error::UnknownAccount),
            account < old(self).free@.len() && old(self).free@[account as int] < amount
                ==> r == Err::<BondId, Error>(Error::InsufficientBalance),
            r.is_err() ==> *final(self) == *old(self),
            account < old(self).free@.len() && amount <= old(self).free@[account as int] ==> {
                &&& r is Ok
                &&& r->Ok_0 == old(self).bonds@.len()
                &&& final(self).free@ == old(self).free@.update(
                    account as int,
                    (old(self).free@[account as int] - amount) as Balance,
                )
                &&& final(self).bonds@ == old(self).bonds@.push(
                    Bond { owner: account, amount, status: BondStatus::Held },
                )
                &&& final(self).pool == old(self).pool
                &&& final(self).escrow == old(self).escrow
            },
    {
        if account >= self.free.len() {
            return Err(Error::UnknownAccount);
        }
        let have = self.free[account];
        if have < amount {
            return Err(Error::InsufficientBalance);
        }
        let id = self.bonds.len();
        let bond = Bond { owner: account, amount, status: BondStatus::Held };
        proof {
            lemma_seq_sum_update(self.free@, account as int, (have - amount) as Balance);
            lemma_held_sum_push(self.bonds@, bond);
        }
        self.free.set(account, have - amount);
        self.bonds.push(bond);
        Ok(id)
    }

    /// Settles a held bond: its amount returns to its owner, or, when
    /// `slash` is set, is forfeited into the pool.
    fn settle_bond(&mut self, id: BondId, slash: bool) -> (r: Result<Balance, Error>)
        requires
            old(self).wf(),
        ensures
            final(self).wf(),
            r == old(self).settle_outcome(id),
            r.is_err() ==> *final(self) == *old(self),
            r.is_ok() ==> old(self).settled(*final(self), id, slash),
    {
        if id >= self.bonds.len() {
            return Err(Error::BondNotFound);
        }
        let bond = self.bonds[id];
        if bond.status != BondStatus::Held {
            return Err(Error::BondAlreadySettled);
        }
        let status = if slash { BondStatus::Slashed } else { BondStatus::Released };
        let new_bond = Bond { owner: bond.owner, amount: bond.amount, status };
        proof {
            lemma_held_sum_update(self.bonds@, id as int, new_bond);
        }
        self.bonds.set(id, new_bond);
        if slash {
            self.pool = self.pool + bond.amount;
        } else {
            let owner = bond.owner;
            proof {
                lemma_seq_sum_update(self.free@, owner as int, (self.free@[owner as int] + bond.amount) as Balance);
            }
            let have = self.free[owner];
            self.free.set(owner, have + bond.amount);
        }
        Ok(bond.amount)
    }

    /// What settling bond `id` returns: the bond's amount, or why it cannot be settled.
    pub open spec fn settle_outcome(&self, id: BondId) -> Result<Balance, Error> {
        if id >= self.bonds@.len() {
            Err(Error::BondNotFound)
        } else if self.bonds@[id as int].status != BondStatus::Held {
            Err(Error::BondAlreadySettled)
        } else {
            Ok(self.bonds@[id as int].amount)
        }
    }

    /// `after` is this ledger with held bond `id` released to its owner, or,
    /// when `slash` is set, slashed into the pool.
    pub open spec fn settled(&self, after: Ledger, id: BondId, slash: bool) -> bool {
        let b = self.bonds@[id as int];
        &&& after.bonds@ == self.bonds@.update(
            id as int,
            Bond { owner: b.owner, amount: b.amount, status: if slash { BondStatus::Slashed } else { BondStatus::Released } },
        )
        &&& after.escrow == self.escrow
        &&& if slash {
            after.free@ == self.free@ && after.pool == self.pool + b.amount
        } else {
            &&& after.pool == self.pool
            &&& after.free@ == self.free@.update(b.owner as int, (self.free@[b.owner as int] + b.amount) as Balance)
        }
    }

    /// Returns a held bond to its owner. A bond is settled at most once.
    pub fn release_bond(&mut self, id: BondId) -> (r: Result<Balance, Error>)
        requires
            old(self).wf(),
        ensures
            final(self).wf(),
            r == old(self).settle_outcome(id),
            r.is_err() ==> *final(self) == *old(self),
            r.is_ok() ==> old(self).settled(*final(self), id, false),
    {
        self.settle_bond(id, false)
    }

    /// Forfeits a held bond into the pool and returns the forfeited amount.
    /// A bond is settled at most once.
    pub fn slash_bond(&mut self, id: BondId) -> (r: Result<Balance, Error>)
        requires
            old(self).wf(),
        ensures
            final(self).wf(),
            r == old(self).settle_outcome(id),
            r.is_err() ==> *final(self) == *old(self),
            r.is_ok() ==> old(self).settled(*final(self), id, true),
    {
        self.settle_bond(id, true)
    }
    /// Moves `amount` of the pool's free funds into escrow.
    pub fn take_into_escrow(&mut self, amount: Balance) -> (r: Result<(), Error>)
        requires
            old(self).wf(),
        ensures
            final(self).wf(),
            r.is_ok() == (amount <= old(self).pool),
            r.is_err() ==> r == Err::<(), Error>(Error::InsufficientBalance) && *final(self) == *old(self),
            r.is_ok() ==> {
                &&& final(self).pool == old(self).pool - amount
                &&& final(self).escrow == old(self).escrow + amount
                &&& final(self).free@ == old(self).free@
                &&& final(self).bonds@ == old(self).bonds@
            },
    {
        if self.pool < amount {
            return Err(Error::InsufficientBalance);
        }
        self.pool = self.pool - amount;
        self.escrow = self.escrow + amount;
        Ok(())
    }

    /// Pays `amount` out of escrow to `account`.
    pub fn pay_from_escrow(&mut self, account: AccountId, amount: Balance) -> (r: Result<(), Error>)
        requires
            old(self).wf(),
            account < old(self).free@.len(),
        ensures
            final(self).wf(),
            r.is_ok() == (amount <= old(self).escrow),
            r.is_err() ==> r == Err::<(), Error>(Error::InsufficientEscrow) && *final(self) == *old(self),
            r.is_ok() ==> {
                &&& final(self).escrow == old(self).escrow - amount
                &&& final(self).free@ == old(self).free@.update(
                    account as int,
                    (old(self).free@[account as int] + amount) as Balance,
                )
                &&& final(self).pool == old(self).pool
                &&& final(self).bonds@ == old(self).bonds@
            },
    {
        if self.escrow < amount {
            return Err(Error::InsufficientEscrow);
        }
        proof {
            lemma_seq_sum_update(self.free@, account as int, (self.free@[account as int] + amount) as Balance);
        }
        let have = self.free[account];
        self.escrow = self.escrow - amount;
        self.free.set(account, have + amount);
        Ok(())
    }

    /// Returns `amount` of escrowed funds to the pool's free funds.
    pub fn return_escrow(&mut self, amount: Balance) -> (r: Result<(), Error>)
        requires
            old(self).wf(),
        ensures
            final(self).wf(),
            r.is_ok() == (amount <= old(self).escrow),
            r.is_err() ==> r == Err::<(), Error>(Error::InsufficientEscrow) && *final(self) == *old(self),
            r.is_ok() ==> {
                &&& final(self).escrow == old(self).escrow - amount
                &&& final(self).pool == old(self).pool + amount
                &&& final(self).free@ == old(self).free@
                &&& final(self).bonds@ == old(self).bonds@
            },
    {
        if self.escrow < amount {
            return Err(Error::InsufficientEscrow);
        }
        self.escrow = self.escrow - amount;
        self.pool = self.pool + amount;
        Ok(())
    }
}

} // verus!
