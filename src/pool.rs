use vstd::prelude::*;
use crate::ledger::{seq_sum, BondStatus, Ledger};
use crate::proposal::{
    all_paid, all_pending, bond_for, compute_bond, milestone_sum, milestones_ordered, paid_sum,
    Config, Milestone, MilestoneState, Proposal, ProposalState, Tally,
};
use crate::types::{AccountId, Authority, Balance, BlockNumber, Error, Origin, ProposalId};

verus! {

/// Who may perform each privileged operation.
#[derive(Debug, Clone, Copy, PartialEq, Eq, Structural)]
pub struct Authorities {
    pub approve: Authority,
    pub reject: Authority,
    pub committee: Authority,
    pub delete: Authority,
    /// Confirms that a submitted milestone is complete.
    pub verifier: Authority,
}

/// The non-fungible receipt minted for a paid milestone.
#[derive(Debug, Clone, Copy, PartialEq, Eq, Structural)]
pub struct Receipt {
    pub owner: AccountId,
    pub proposal: ProposalId,
    pub milestone: usize,
}

/// What a successful vote led to.
#[derive(Debug, Clone, Copy, PartialEq, Eq, Structural)]
pub enum VoteOutcome {
    /// The vote was counted and the proposal is still open.
    Recorded,
    Approved,
    Rejected,
}

/// The loan pool: its ledger, committee and proposals. Proposal ids index
/// `proposals`; a deleted proposal leaves `None` behind, so ids are never reused.
pub struct LoanPool {
    pub config: Config,
    pub authorities: Authorities,
    pub ledger: Ledger,
    pub committee: Vec<AccountId>,
    pub proposals: Vec<Option<Proposal>>,
    /// How many proposals are Submitted or Approved.
    pub ongoing: u32,
    /// The current block.
    pub block: BlockNumber,
    pub receipts: Vec<Receipt>,
}

pub open spec fn ongoing_weight(o: Option<Proposal>) -> nat {
    match o {
        Some(p) => if p.state.is_ongoing() { 1 } else { 0 },
        None => 0,
    }
}

/// How many proposals in `s` are in a non-terminal state.
pub open spec fn count_ongoing(s: Seq<Option<Proposal>>) -> nat
    decreases s.len(),
{
    if s.len() == 0 {
        0
    } else {
        count_ongoing(s.drop_last()) + ongoing_weight(s.last())
    }
}

pub proof fn lemma_count_update(s: Seq<Option<Proposal>>, i: int, v: Option<Proposal>)
    requires
        0 <= i < s.len(),
    ensures
        count_ongoing(s.update(i, v)) == count_ongoing(s) - ongoing_weight(s[i]) + ongoing_weight(v),
        ongoing_weight(s[i]) <= count_ongoing(s),
    decreases s.len(),
{
    let t = s.update(i, v);
    assert(t.drop_last() =~= if i == s.len() - 1 {
        s.drop_last()
    } else {
        s.drop_last().update(i, v)
    });
    if i < s.len() - 1 {
        lemma_count_update(s.drop_last(), i, v);
    }
}

pub proof fn lemma_count_push(s: Seq<Option<Proposal>>, v: Option<Proposal>)
    ensures
        count_ongoing(s.push(v)) == count_ongoing(s) + ongoing_weight(v),
{
    assert(s.push(v).drop_last() =~= s);
}

pub open spec fn escrow_weight(o: Option<Proposal>) -> nat {
    match o {
        Some(p) => if p.state == ProposalState::Approved { (p.amount - p.paid) as nat } else { 0 },
        None => 0,
    }
}

/// What the approved proposals in `s` still have to be paid.
pub open spec fn escrow_owed(s: Seq<Option<Proposal>>) -> nat
    decreases s.len(),
{
    if s.len() == 0 {
        0
    } else {
        escrow_owed(s.drop_last()) + escrow_weight(s.last())
    }
}

pub proof fn lemma_escrow_update(s: Seq<Option<Proposal>>, i: int, v: Option<Proposal>)
    requires
        0 <= i < s.len(),
    ensures
        escrow_owed(s.update(i, v)) == escrow_owed(s) - escrow_weight(s[i]) + escrow_weight(v),
        escrow_weight(s[i]) <= escrow_owed(s),
    decreases s.len(),
{
    let t = s.update(i, v);
    assert(t.drop_last() =~= if i == s.len() - 1 {
        s.drop_last()
    } else {
        s.drop_last().update(i, v)
    });
    if i < s.len() - 1 {
        lemma_escrow_update(s.drop_last(), i, v);
    }
}

pub proof fn lemma_escrow_push(s: Seq<Option<Proposal>>, v: Option<Proposal>)
    ensures
        escrow_owed(s.push(v)) == escrow_owed(s) + escrow_weight(v),
{
    assert(s.push(v).drop_last() =~= s);
}

pub proof fn lemma_prefix_sum_le(s: Seq<Balance>, i: int)
    requires
        0 <= i <= s.len(),
    ensures
        seq_sum(s.take(i)) <= seq_sum(s),
    decreases s.len(),
{
    if i == s.len() {
        assert(s.take(i) =~= s);
    } else {
        assert(s.take(i) =~= s.drop_last().take(i));
        lemma_prefix_sum_le(s.drop_last(), i);
    }
}

/// The last block of a voting window opened at `opened_at`.
pub open spec fn deadline_for(c: Config, opened_at: BlockNumber) -> BlockNumber {
    if opened_at as nat + c.voting_time as nat > u64::MAX as nat {
        u64::MAX
    } else {
        (opened_at + c.voting_time) as BlockNumber
    }
}

/// The milestones of a new proposal: one Pending milestone per amount.
pub open spec fn fresh_milestones(amounts: Seq<Balance>, ms: Seq<Milestone>) -> bool {
    &&& ms.len() == amounts.len()
    &&& forall|i: int| 0 <= i < ms.len() ==> #[trigger] ms[i] == (Milestone { amount: amounts[i], state: MilestoneState::Pending })
}

pub open spec fn tally_ok(t: Tally, c: Config, open: bool) -> bool {
    &&& t.ayes@.no_duplicates()
    &&& t.nays@.no_duplicates()
    &&& forall|x: AccountId| !(#[trigger] t.ayes@.contains(x) && t.nays@.contains(x))
    &&& t.deadline == deadline_for(c, t.opened_at)
    &&& open ==> t.ayes@.len() * 2 <= c.max_committee_members && t.nays@.len() * 2 <= c.max_committee_members
}

impl LoanPool {
    pub open spec fn live(&self, id: int) -> bool {
        0 <= id < self.proposals@.len() && self.proposals@[id] is Some
    }

    pub open spec fn prop(&self, id: int) -> Proposal {
        self.proposals@[id]->Some_0
    }

    /// What proposal `id` must satisfy while it is stored.
    pub open spec fn proposal_ok(&self, id: int) -> bool {
        let p = self.prop(id);
        let ms = p.milestones@;
        let b = self.ledger.bonds@[p.bond_id as int];
        &&& p.id == id
        &&& p.proposer < self.ledger.free@.len()
        &&& p.bond_id < self.ledger.bonds@.len()
        &&& b.owner == p.proposer
        &&& b.amount == p.bond
        &&& (p.state == ProposalState::Submitted) == (b.status == BondStatus::Held)
        &&& p.state == ProposalState::Rejected ==> b.status == BondStatus::Slashed
        &&& (p.state == ProposalState::Approved || p.state == ProposalState::Completed) ==> b.status == BondStatus::Released
        &&& 1 <= ms.len() <= self.config.max_milestones
        &&& forall|k: int| 0 <= k < ms.len() ==> #[trigger] ms[k].amount > 0
        &&& milestone_sum(ms) == p.amount
        &&& paid_sum(ms) == p.paid
        &&& milestones_ordered(ms)
        &&& (p.state == ProposalState::Submitted || p.state == ProposalState::Rejected) ==> all_pending(ms)
        &&& p.state == ProposalState::Completed ==> all_paid(ms)
        &&& p.votes.opened_at == p.created_at
        &&& tally_ok(p.votes, self.config, p.state == ProposalState::Submitted)
    }

    pub open spec fn wf(&self) -> bool {
        &&& self.config.wf()
        &&& self.ledger.wf()
        &&& self.committee@.no_duplicates()
        &&& self.committee@.len() <= self.config.max_committee_members
        &&& self.ongoing == count_ongoing(self.proposals@)
        &&& self.ongoing <= self.config.max_ongoing_loans
        &&& self.ledger.escrow == escrow_owed(self.proposals@)
        &&& forall|i: int| 0 <= i < self.proposals@.len() && (#[trigger] self.proposals@[i]) is Some
            ==> self.proposal_ok(i)
        &&& forall|i: int, j: int|
            0 <= i < self.proposals@.len() && 0 <= j < self.proposals@.len() && i != j
                && (#[trigger] self.proposals@[i]) is Some && (#[trigger] self.proposals@[j]) is Some
            ==> self.prop(i).bond_id != self.prop(j).bond_id
    }

    /// A step from `old` to `self` never revives a deleted proposal, never
    /// reopens a resolved vote, and leaves the committee and the clock alone.
    pub open spec fn keeps_history(&self, old: LoanPool) -> bool {
        &&& old.proposals@.len() <= self.proposals@.len()
        &&& forall|i: int| 0 <= i < old.proposals@.len() && !old.live(i) ==> !#[trigger] self.live(i)
        &&& forall|i: int| #[trigger] old.live(i) && self.live(i) && old.prop(i).state != ProposalState::Submitted
            ==> self.prop(i).state != ProposalState::Submitted
        &&& self.config == old.config
        &&& self.authorities == old.authorities
        &&& self.block == old.block
    }

    /// A pool with the given account balances and pool funds, an empty
    /// committee and no proposals, at block 0.
    pub fn new(config: Config, authorities: Authorities, balances: Vec<Balance>, pool_funds: Balance) -> (r: LoanPool)
        requires
            config.wf(),
            seq_sum(balances@) + pool_funds <= u64::MAX,
        ensures
            r.wf(),
            r.config == config,
            r.authorities == authorities,
            r.ledger.free@ == balances@,
            r.ledger.bonds@.len() == 0,
            r.ledger.pool == pool_funds,
            r.ledger.escrow == 0,
            r.committee@.len() == 0,
            r.proposals@.len() == 0,
            r.receipts@.len() == 0,
            r.block == 0,
    {
        let ledger = Ledger::new(balances, pool_funds);
        let r = LoanPool {
            config,
            authorities,
            ledger,
            committee: Vec::new(),
            proposals: Vec::new(),
            ongoing: 0,
            block: 0,
            receipts: Vec::new(),
        };
        assert(count_ongoing(r.proposals@) == 0);
        assert(escrow_owed(r.proposals@) == 0);
        r
    }

    /// Moves the clock forward to `now`; the clock never goes back.
    pub fn advance_to(&mut self, now: BlockNumber)
        requires
            old(self).wf(),
        ensures
            final(self).wf(),
            final(self).block == if now > old(self).block { now } else { old(self).block },
            final(self).config == old(self).config,
            final(self).authorities == old(self).authorities,
            final(self).ledger == old(self).ledger,
            final(self).committee == old(self).committee,
            final(self).proposals == old(self).proposals,
            final(self).ongoing == old(self).ongoing,
            final(self).receipts == old(self).receipts,
    {
        if now > self.block {
            self.block = now;
        }
    }

    /// Looks up a stored proposal.
    pub fn get(&self, id: ProposalId) -> (r: Option<&Proposal>)
        ensures
            r is Some == self.live(id as int),
            r is Some ==> *r->Some_0 == self.prop(id as int),
    {
        if id < self.proposals.len() {
            match &self.proposals[id] {
                Some(p) => Some(p),
                None => None,
            }
        } else {
            None
        }
    }

    /// Whether `submit` succeeds, and if not, why.
    pub open spec fn submit_outcome(&self, proposer: AccountId, amount: Balance, amounts: Seq<Balance>) -> Result<ProposalId, Error> {
        if self.ongoing >= self.config.max_ongoing_loans {
            Err(Error::TooManyOngoingLoans)
        } else if milestone_error(amount, amounts, self.config.max_milestones) is Some {
            Err(milestone_error(amount, amounts, self.config.max_milestones)->Some_0)
        } else if proposer >= self.ledger.free@.len() {
            Err(Error::UnknownAccount)
        } else if self.ledger.free@[proposer as int] < bond_for(self.config, amount) {
            Err(Error::InsufficientBalance)
        } else {
            Ok(self.proposals@.len() as ProposalId)
        }
    }

    /// Submits a loan request of `amount`, split into milestones of the given
    /// amounts. Reserves the bond from the proposer and opens the vote.
    pub fn submit(&mut self, proposer: AccountId, amount: Balance, milestones: Vec<Balance>) -> (r: Result<ProposalId, Error>)
        requires
            old(self).wf(),
        ensures
            final(self).wf(),
            r == old(self).submit_outcome(proposer, amount, milestones@),
            r.is_err() ==> *final(self) == *old(self),
            r.is_ok() ==> {
                let id = r->Ok_0 as int;
                let p = final(self).prop(id);
                let bond = bond_for(old(self).config, amount);
                &&& final(self).proposals@.len() == old(self).proposals@.len() + 1
                &&& forall|i: int| 0 <= i < old(self).proposals@.len() ==> #[trigger] final(self).proposals@[i] == old(self).proposals@[i]
                &&& final(self).live(id)
                &&& p.proposer == proposer
                &&& p.amount == amount
                &&& p.bond == bond
                &&& p.bond_id == old(self).ledger.bonds@.len()
                &&& p.state == ProposalState::Submitted
                &&& p.created_at == old(self).block
                &&& p.paid == 0
                &&& fresh_milestones(milestones@, p.milestones@)
                &&& p.votes.ayes@.len() == 0
                &&& p.votes.nays@.len() == 0
                &&& p.votes.deadline == deadline_for(old(self).config, old(self).block)
                &&& final(self).ledger.free@ == old(self).ledger.free@.update(
                    proposer as int,
                    (old(self).ledger.free@[proposer as int] - bond) as Balance,
                )
                &&& final(self).ledger.bonds@ == old(self).ledger.bonds@.push(
                    crate::ledger::Bond { owner: proposer, amount: bond, status: BondStatus::Held },
                )
                &&& final(self).ledger.pool == old(self).ledger.pool
                &&& final(self).ledger.escrow == old(self).ledger.escrow
                &&& final(self).ongoing == old(self).ongoing + 1
                &&& final(self).committee == old(self).committee
                &&& final(self).receipts == old(self).receipts
                &&& final(self).keeps_history(*old(self))
            },
    {
        if self.ongoing >= self.config.max_ongoing_loans {
            return Err(Error::TooManyOngoingLoans);
        }
        let ms = match make_milestones(amount, &milestones, self.config.max_milestones) {
            Ok(ms) => ms,
            Err(e) => {
                return Err(e);
            },
        };
        let bond = compute_bond(&self.config, amount);
        let bond_id = match self.ledger.reserve_bond(proposer, bond) {
            Ok(b) => b,
            Err(e) => {
                return Err(e);
            },
        };
        let id = self.proposals.len();
        let opened_at = self.block;
        let deadline = if opened_at > u64::MAX - self.config.voting_time {
            u64::MAX
        } else {
            opened_at + self.config.voting_time
        };
        let ghost ms_seq = ms@;
        proof {
            assert forall|k: int| 0 <= k < ms_seq.len() implies #[trigger] ms_seq[k].state != MilestoneState::Paid by {
                assert(ms_seq[k] == (Milestone { amount: milestones@[k], state: MilestoneState::Pending }));
            }
            crate::proposal::lemma_none_paid(ms_seq);
            lemma_milestones_from_amounts(milestones@, ms_seq);
        }
        let p = Proposal {
            id,
            proposer,
            amount,
            bond,
            bond_id,
            milestones: ms,
            state: ProposalState::Submitted,
            created_at: opened_at,
            votes: Tally { ayes: Vec::new(), nays: Vec::new(), opened_at, deadline },
            paid: 0,
        };
        proof {
            lemma_count_push(self.proposals@, Some(p));
            lemma_escrow_push(self.proposals@, Some(p));
        }
        self.proposals.push(Some(p));
        self.ongoing = self.ongoing + 1;
        proof {
            assert(self.proposal_ok(id as int));
        }
        Ok(id)
    }

    /// Every proposal but `id` is as it was in `old`.
    pub open spec fn others_unchanged(&self, old: LoanPool, id: int) -> bool {
        &&& self.proposals@.len() == old.proposals@.len()
        &&& forall|j: int| 0 <= j < old.proposals@.len() && j != id ==> #[trigger] self.proposals@[j] == old.proposals@[j]
    }

    /// Why proposal `id` may not be deleted, if it may not.
    pub open spec fn delete_error(&self, origin: Origin, id: ProposalId) -> Option<Error> {
        let p = self.prop(id as int);
        if !self.authorities.delete.permits_spec(origin) {
            Some(Error::BadOrigin)
        } else if !self.live(id as int) {
            Some(Error::ProposalNotFound)
        } else if p.state == ProposalState::Submitted && self.block <= p.votes.deadline {
            Some(Error::ProposalNotDeletable)
        } else if p.state == ProposalState::Approved && self.ledger.escrow < p.amount - p.paid {
            Some(Error::InsufficientEscrow)
        } else {
            None
        }
    }

    /// Deletes proposal `id`: one that is resolved, or whose vote ran past its
    /// deadline without a majority. A bond still held is slashed into the
    /// pool and escrow not yet paid out returns to the pool; the amount so
    /// forfeited is returned. The id is never used again.
    pub fn delete(&mut self, origin: Origin, id: ProposalId) -> (r: Result<Balance, Error>)
        requires
            old(self).wf(),
        ensures
            final(self).wf(),
            r.is_err() == old(self).delete_error(origin, id) is Some,
            r.is_err() ==> r->Err_0 == old(self).delete_error(origin, id)->Some_0 && *final(self) == *old(self),
            r.is_ok() ==> {
                let p = old(self).prop(id as int);
                &&& final(self).proposals@ == old(self).proposals@.update(id as int, None)
                &&& !final(self).live(id as int)
                &&& final(self).ongoing == old(self).ongoing - if p.state.is_ongoing() { 1int } else { 0int }
                &&& p.state == ProposalState::Submitted ==> {
                    &&& r->Ok_0 == p.bond
                    &&& old(self).ledger.settled(final(self).ledger, p.bond_id, true)
                }
                &&& p.state == ProposalState::Approved ==> {
                    &&& r->Ok_0 == p.amount - p.paid
                    &&& final(self).ledger.escrow == old(self).ledger.escrow - (p.amount - p.paid)
                    &&& final(self).ledger.pool == old(self).ledger.pool + (p.amount - p.paid)
                    &&& final(self).ledger.free@ == old(self).ledger.free@
                    &&& final(self).ledger.bonds@ == old(self).ledger.bonds@
                }
                &&& !p.state.is_ongoing() ==> r->Ok_0 == 0 && final(self).ledger == old(self).ledger
                &&& final(self).committee == old(self).committee
                &&& final(self).receipts == old(self).receipts
                &&& final(self).keeps_history(*old(self))
            },
    {
        if !self.authorities.delete.permits(origin) {
            return Err(Error::BadOrigin);
        }
        if id >= self.proposals.len() {
            return Err(Error::ProposalNotFound);
        }
        let (state, bond_id, unpaid) = match &self.proposals[id] {
            None => {
                return Err(Error::ProposalNotFound);
            },
            Some(p) => {
                if p.state == ProposalState::Submitted && self.block <= p.votes.deadline {
                    return Err(Error::ProposalNotDeletable);
                }
                proof {
                    crate::proposal::lemma_paid_le_total(p.milestones@);
                }
                let unpaid = p.amount - p.paid;
                if p.state == ProposalState::Approved && self.ledger.escrow < unpaid {
                    return Err(Error::InsufficientEscrow);
                }
                (p.state, p.bond_id, unpaid)
            },
        };
        proof {
            lemma_count_update(old(self).proposals@, id as int, None);
            lemma_escrow_update(old(self).proposals@, id as int, None);
        }
        self.proposals.set(id, None);
        match state {
            ProposalState::Submitted => {
                let forfeited = self.ledger.bond_amount(bond_id);
                let _ = self.ledger.slash_bond(bond_id);
                self.ongoing = self.ongoing - 1;
                Ok(forfeited)
            },
            ProposalState::Approved => {
                let _ = self.ledger.return_escrow(unpaid);
                self.ongoing = self.ongoing - 1;
                Ok(unpaid)
            },
            _ => Ok(0),
        }
    }
}

/// Why a request of `amount` split as `amounts` is malformed, if it is.
pub open spec fn milestone_error(amount: Balance, amounts: Seq<Balance>, max_milestones: u32) -> Option<Error> {
    if amounts.len() > max_milestones {
        Some(Error::TooManyMilestones)
    } else if amounts.len() == 0 || exists|k: int| 0 <= k < amounts.len() && #[trigger] amounts[k] == 0 {
        Some(Error::InvalidMilestones)
    } else if seq_sum(amounts) != amount {
        Some(Error::AmountMismatch)
    } else {
        None
    }
}

/// Checks a split of `amount` into milestone amounts and makes the Pending
/// milestones from it.
pub fn make_milestones(amount: Balance, amounts: &Vec<Balance>, max_milestones: u32) -> (r: Result<Vec<Milestone>, Error>)
    ensures
        r.is_err() == milestone_error(amount, amounts@, max_milestones) is Some,
        r.is_err() ==> r->Err_0 == milestone_error(amount, amounts@, max_milestones)->Some_0,
        r.is_ok() ==> fresh_milestones(amounts@, r->Ok_0@),
{
    if amounts.len() > max_milestones as usize {
        return Err(Error::TooManyMilestones);
    }
    if amounts.len() == 0 {
        return Err(Error::InvalidMilestones);
    }
    let mut ms: Vec<Milestone> = Vec::new();
    let mut i: usize = 0;
    while i < amounts.len()
        invariant
            i <= amounts@.len(),
            0 < amounts@.len() <= max_milestones,
            ms@.len() == i,
            forall|k: int| 0 <= k < i ==> #[trigger] ms@[k] == (Milestone { amount: amounts@[k], state: MilestoneState::Pending }),
            forall|k: int| 0 <= k < i ==> #[trigger] amounts@[k] != 0,
        decreases amounts@.len() - i,
    {
        if amounts[i] == 0 {
            assert(amounts@[i as int] == 0);
            return Err(Error::InvalidMilestones);
        }
        ms.push(Milestone { amount: amounts[i], state: MilestoneState::Pending });
        i = i + 1;
    }
    let mut acc: Balance = 0;
    let mut j: usize = 0;
    while j < amounts.len()
        invariant
            j <= amounts@.len(),
            amounts@.len() <= max_milestones,
            forall|k: int| 0 <= k < amounts@.len() ==> #[trigger] amounts@[k] != 0,
            acc == seq_sum(amounts@.take(j as int)),
            acc <= amount,
        decreases amounts@.len() - j,
    {
        assert(amounts@.take(j + 1).drop_last() =~= amounts@.take(j as int));
        if amounts[j] > amount - acc {
            proof {
                lemma_prefix_sum_le(amounts@, j + 1);
            }
            return Err(Error::AmountMismatch);
        }
        acc = acc + amounts[j];
        j = j + 1;
    }
    assert(amounts@.take(amounts@.len() as int) =~= amounts@);
    if acc != amount {
        return Err(Error::AmountMismatch);
    }
    Ok(ms)
}

/// Milestones made one per amount, all Pending, add up to what the amounts add up to.
pub proof fn lemma_milestones_from_amounts(amounts: Seq<Balance>, ms: Seq<Milestone>)
    requires
        fresh_milestones(amounts, ms),
    ensures
        milestone_sum(ms) == seq_sum(amounts),
    decreases amounts.len(),
{
    if amounts.len() > 0 {
        lemma_milestones_from_amounts(amounts.drop_last(), ms.drop_last());
    }
}

} // verus!
