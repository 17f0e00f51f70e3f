use vstd::prelude::*;
use crate::committee::{find_account, lemma_push_distinct, lemma_remove_distinct};
use crate::ledger::{Bond, BondStatus, Ledger};
use crate::pool::{lemma_count_update, lemma_escrow_update, LoanPool, VoteOutcome};
use crate::proposal::{lemma_none_paid, Proposal, ProposalState};
use crate::types::{AccountId, Balance, Error, Origin, ProposalId};

verus! {

impl LoanPool {
    /// The ledger effect of resolving the vote on `p`: on approval the bond
    /// goes back to the proposer and the requested amount moves from the pool
    /// into escrow; on rejection the bond is slashed into the pool.
    pub open spec fn resolution_effect(old: Ledger, new: Ledger, p: Proposal, approved: bool) -> bool {
        let b = old.bonds@[p.bond_id as int];
        &&& new.bonds@ == old.bonds@.update(
            p.bond_id as int,
            Bond { owner: b.owner, amount: b.amount, status: if approved { BondStatus::Released } else { BondStatus::Slashed } },
        )
        &&& if approved {
            &&& new.free@ == old.free@.update(p.proposer as int, (old.free@[p.proposer as int] + p.bond) as Balance)
            &&& new.pool == old.pool - p.amount
            &&& new.escrow == old.escrow + p.amount
        } else {
            &&& new.free@ == old.free@
            &&& new.pool == old.pool + p.bond
            &&& new.escrow == old.escrow
        }
    }

    /// Why a vote of `voter` on `id` is refused, if it is.
    pub open spec fn vote_error(&self, voter: AccountId, id: ProposalId, aye: bool) -> Option<Error> {
        let p = self.prop(id as int);
        if !self.live(id as int) {
            Some(Error::ProposalNotFound)
        } else if p.state != ProposalState::Submitted || self.block > p.votes.deadline {
            Some(Error::VotingClosed)
        } else if !self.committee@.contains(voter) {
            Some(Error::NotCommitteeMember)
        } else if (aye && p.votes.ayes@.contains(voter)) || (!aye && p.votes.nays@.contains(voter)) {
            Some(Error::DuplicateVote)
        } else if self.vote_approves(voter, id, aye) && self.ledger.pool < p.amount {
            Some(Error::InsufficientBalance)
        } else {
            None
        }
    }

    /// How many ayes (`side` set) or nays the tally of `id` holds once `voter` has voted `aye`.
    pub open spec fn count_after_vote(&self, voter: AccountId, id: ProposalId, aye: bool, side: bool) -> nat {
        let t = self.prop(id as int).votes;
        let mine = if side { t.ayes@ } else { t.nays@ };
        if aye == side {
            mine.len() + 1
        } else if mine.contains(voter) {
            (mine.len() - 1) as nat
        } else {
            mine.len()
        }
    }

    /// Whether a vote of `voter` on `id` gives the ayes a strict majority of
    /// the committee's capacity.
    pub open spec fn vote_approves(&self, voter: AccountId, id: ProposalId, aye: bool) -> bool {
        aye && self.count_after_vote(voter, id, aye, true) * 2 > self.config.max_committee_members
    }

    /// Whether a vote of `voter` on `id` gives the nays a strict majority of
    /// the committee's capacity.
    pub open spec fn vote_rejects(&self, voter: AccountId, id: ProposalId, aye: bool) -> bool {
        !aye && self.count_after_vote(voter, id, aye, false) * 2 > self.config.max_committee_members
    }

    /// Casts the vote of committee member `voter` on proposal `id`. A member
    /// who votes the other way replaces their earlier vote. The proposal is
    /// approved the moment its ayes exceed half the committee's capacity and
    /// rejected the moment its nays do.
    pub fn cast_vote(&mut self, voter: AccountId, id: ProposalId, aye: bool) -> (r: Result<VoteOutcome, Error>)
        requires
            old(self).wf(),
        ensures
            final(self).wf(),
            r.is_err() == old(self).vote_error(voter, id, aye) is Some,
            r.is_err() ==> r->Err_0 == old(self).vote_error(voter, id, aye)->Some_0 && *final(self) == *old(self),
            r.is_ok() ==> {
                let p = old(self).prop(id as int);
                let q = final(self).prop(id as int);
                let approves = old(self).vote_approves(voter, id, aye);
                let rejects = old(self).vote_rejects(voter, id, aye);
                &&& r->Ok_0 == if approves {
                    VoteOutcome::Approved
                } else if rejects {
                    VoteOutcome::Rejected
                } else {
                    VoteOutcome::Recorded
                }
                &&& final(self).live(id as int)
                &&& final(self).others_unchanged(*old(self), id as int)
                &&& q == (Proposal { votes: q.votes, state: q.state, ..p })
                &&& q.votes.opened_at == p.votes.opened_at
                &&& q.votes.deadline == p.votes.deadline
                &&& q.state == if approves {
                    ProposalState::Approved
                } else if rejects {
                    ProposalState::Rejected
                } else {
                    ProposalState::Submitted
                }
                &&& forall|x: AccountId| #[trigger] q.votes.ayes@.contains(x)
                    == if aye { p.votes.ayes@.contains(x) || x == voter } else { p.votes.ayes@.contains(x) && x != voter }
                &&& forall|x: AccountId| #[trigger] q.votes.nays@.contains(x)
                    == if aye { p.votes.nays@.contains(x) && x != voter } else { p.votes.nays@.contains(x) || x == voter }
                &&& q.votes.ayes@.len() == old(self).count_after_vote(voter, id, aye, true)
                &&& q.votes.nays@.len() == old(self).count_after_vote(voter, id, aye, false)
                &&& q.milestones@ == p.milestones@
                &&& q.amount == p.amount
                &&& q.bond == p.bond
                &&& q.proposer == p.proposer
                &&& (approves || rejects) ==> LoanPool::resolution_effect(old(self).ledger, final(self).ledger, p, approves)
                &&& !(approves || rejects) ==> final(self).ledger == old(self).ledger
                &&& final(self).ongoing == if rejects { old(self).ongoing - 1 } else { old(self).ongoing as int }
                &&& final(self).committee == old(self).committee
                &&& final(self).receipts == old(self).receipts
                &&& final(self).keeps_history(*old(self))
            },
    {
        if id >= self.proposals.len() {
            return Err(Error::ProposalNotFound);
        }
        let (in_ayes, in_nays, ayes_len, nays_len, amount, bond_id) = match &self.proposals[id] {
            None => {
                return Err(Error::ProposalNotFound);
            },
            Some(p) => {
                if p.state != ProposalState::Submitted || self.block > p.votes.deadline {
                    return Err(Error::VotingClosed);
                }
                if find_account(&self.committee, voter).is_none() {
                    return Err(Error::NotCommitteeMember);
                }
                let in_ayes = find_account(&p.votes.ayes, voter);
                let in_nays = find_account(&p.votes.nays, voter);
                if (aye && in_ayes.is_some()) || (!aye && in_nays.is_some()) {
                    return Err(Error::DuplicateVote);
                }
                (in_ayes, in_nays, p.votes.ayes.len(), p.votes.nays.len(), p.amount, p.bond_id)
            },
        };
        let new_ayes: usize = if aye {
            ayes_len + 1
        } else if in_ayes.is_some() {
            ayes_len - 1
        } else {
            ayes_len
        };
        let new_nays: usize = if !aye {
            nays_len + 1
        } else if in_nays.is_some() {
            nays_len - 1
        } else {
            nays_len
        };
        let max = self.config.max_committee_members as u64;
        let approves = aye && (new_ayes as u64) * 2 > max;
        let rejects = !aye && (new_nays as u64) * 2 > max;
        if approves && self.ledger.pool < amount {
            return Err(Error::InsufficientBalance);
        }
        let mut slot: Option<Proposal> = None;
        self.proposals.set_and_swap(id, &mut slot);
        let mut p = slot.unwrap();
        if aye {
            if let Some(k) = in_nays {
                proof {
                    lemma_remove_distinct(p.votes.nays@, k as int);
                }
                p.votes.nays.remove(k);
            }
            proof {
                lemma_push_distinct(p.votes.ayes@, voter);
            }
            p.votes.ayes.push(voter);
        } else {
            if let Some(k) = in_ayes {
                proof {
                    lemma_remove_distinct(p.votes.ayes@, k as int);
                }
                p.votes.ayes.remove(k);
            }
            proof {
                lemma_push_distinct(p.votes.nays@, voter);
            }
            p.votes.nays.push(voter);
        }
        proof {
            assert(old(self).proposals@[id as int] is Some);
            lemma_none_paid(p.milestones@);
        }
        if approves {
            p.state = ProposalState::Approved;
        } else if rejects {
            p.state = ProposalState::Rejected;
        }
        let ghost new_p = p;
        proof {
            lemma_count_update(old(self).proposals@, id as int, Some(p));
            lemma_escrow_update(old(self).proposals@, id as int, Some(p));
        }
        self.proposals.set(id, Some(p));
        assert(self.proposals@ =~= old(self).proposals@.update(id as int, Some(new_p)));
        if approves {
            let _ = self.ledger.take_into_escrow(amount);
            let _ = self.ledger.release_bond(bond_id);
            Ok(VoteOutcome::Approved)
        } else if rejects {
            let _ = self.ledger.slash_bond(bond_id);
            self.ongoing = self.ongoing - 1;
            Ok(VoteOutcome::Rejected)
        } else {
            Ok(VoteOutcome::Recorded)
        }
    }

    /// Why resolving proposal `id` by decree is refused, if it is.
    pub open spec fn resolve_error(&self, id: ProposalId, approved: bool) -> Option<Error> {
        if !self.live(id as int) {
            Some(Error::ProposalNotFound)
        } else if self.prop(id as int).state != ProposalState::Submitted {
            Some(Error::InvalidStateTransition)
        } else if approved && self.ledger.pool < self.prop(id as int).amount {
            Some(Error::InsufficientBalance)
        } else {
            None
        }
    }

    /// What resolving proposal `id` leaves behind.
    pub open spec fn resolved(&self, old: LoanPool, id: ProposalId, approved: bool) -> bool {
        let p = old.prop(id as int);
        let q = self.prop(id as int);
        &&& self.live(id as int)
        &&& self.others_unchanged(old, id as int)
        &&& q == (Proposal { state: if approved { ProposalState::Approved } else { ProposalState::Rejected }, ..p })
        &&& LoanPool::resolution_effect(old.ledger, self.ledger, p, approved)
        &&& self.ongoing == old.ongoing - if approved { 0int } else { 1int }
        &&& self.committee == old.committee
        &&& self.receipts == old.receipts
        &&& self.keeps_history(old)
    }

    fn resolve(&mut self, id: ProposalId, approved: bool) -> (r: Result<(), Error>)
        requires
            old(self).wf(),
        ensures
            final(self).wf(),
            r.is_err() == old(self).resolve_error(id, approved) is Some,
            r.is_err() ==> r->Err_0 == old(self).resolve_error(id, approved)->Some_0 && *final(self) == *old(self),
            r.is_ok() ==> final(self).resolved(*old(self), id, approved),
    {
        if id >= self.proposals.len() {
            return Err(Error::ProposalNotFound);
        }
        let (amount, bond_id) = match &self.proposals[id] {
            None => {
                return Err(Error::ProposalNotFound);
            },
            Some(p) => {
                if p.state != ProposalState::Submitted {
                    return Err(Error::InvalidStateTransition);
                }
                (p.amount, p.bond_id)
            },
        };
        if approved && self.ledger.pool < amount {
            return Err(Error::InsufficientBalance);
        }
        let mut slot: Option<Proposal> = None;
        self.proposals.set_and_swap(id, &mut slot);
        let mut p = slot.unwrap();
        proof {
            assert(old(self).proposals@[id as int] is Some);
            lemma_none_paid(p.milestones@);
        }
        p.state = if approved { ProposalState::Approved } else { ProposalState::Rejected };
        let ghost new_p = p;
        proof {
            lemma_count_update(old(self).proposals@, id as int, Some(p));
            lemma_escrow_update(old(self).proposals@, id as int, Some(p));
        }
        self.proposals.set(id, Some(p));
        assert(self.proposals@ =~= old(self).proposals@.update(id as int, Some(new_p)));
        if approved {
            let _ = self.ledger.take_into_escrow(amount);
            let _ = self.ledger.release_bond(bond_id);
        } else {
            let _ = self.ledger.slash_bond(bond_id);
            self.ongoing = self.ongoing - 1;
        }
        Ok(())
    }

    /// Approves proposal `id` by decree of the approving authority.
    pub fn approve(&mut self, origin: Origin, id: ProposalId) -> (r: Result<(), Error>)
        requires
            old(self).wf(),
        ensures
            final(self).wf(),
            !old(self).authorities.approve.permits_spec(origin) ==> r == Err::<(), Error>(Error::BadOrigin),
            old(self).authorities.approve.permits_spec(origin) ==> {
                &&& r.is_err() == old(self).resolve_error(id, true) is Some
                &&& r.is_err() ==> r->Err_0 == old(self).resolve_error(id, true)->Some_0
            },
            r.is_err() ==> *final(self) == *old(self),
            r.is_ok() ==> final(self).resolved(*old(self), id, true),
    {
        if !self.authorities.approve.permits(origin) {
            return Err(Error::BadOrigin);
        }
        self.resolve(id, true)
    }

    /// Rejects proposal `id` by decree of the rejecting authority.
    pub fn reject(&mut self, origin: Origin, id: ProposalId) -> (r: Result<(), Error>)
        requires
            old(self).wf(),
        ensures
            final(self).wf(),
            !old(self).authorities.reject.permits_spec(origin) ==> r == Err::<(), Error>(Error::BadOrigin),
            old(self).authorities.reject.permits_spec(origin) ==> {
                &&& r.is_err() == old(self).resolve_error(id, false) is Some
                &&& r.is_err() ==> r->Err_0 == old(self).resolve_error(id, false)->Some_0
            },
            r.is_err() ==> *final(self) == *old(self),
            r.is_ok() ==> final(self).resolved(*old(self), id, false),
    {
        if !self.authorities.reject.permits(origin) {
            return Err(Error::BadOrigin);
        }
        self.resolve(id, false)
    }

    /// Rejects proposal `id` once its voting window has passed without a
    /// majority either way. Anyone may call this.
    pub fn close_expired(&mut self, id: ProposalId) -> (r: Result<(), Error>)
        requires
            old(self).wf(),
        ensures
            final(self).wf(),
            !old(self).live(id as int) ==> r == Err::<(), Error>(Error::ProposalNotFound),
            old(self).live(id as int) && old(self).prop(id as int).state != ProposalState::Submitted
                ==> r == Err::<(), Error>(Error::InvalidStateTransition),
            old(self).live(id as int) && old(self).prop(id as int).state == ProposalState::Submitted
                && old(self).block <= old(self).prop(id as int).votes.deadline
                ==> r == Err::<(), Error>(Error::VotingOpen),
            r.is_ok() == (old(self).live(id as int) && old(self).prop(id as int).state == ProposalState::Submitted
                && old(self).block > old(self).prop(id as int).votes.deadline),
            r.is_err() ==> *final(self) == *old(self),
            r.is_ok() ==> final(self).resolved(*old(self), id, false),
    {
        if id < self.proposals.len() {
            match &self.proposals[id] {
                Some(p) => {
                    if p.state == ProposalState::Submitted && self.block <= p.votes.deadline {
                        return Err(Error::VotingOpen);
                    }
                },
                None => {},
            }
        }
        self.resolve(id, false)
    }
}

} // verus!
