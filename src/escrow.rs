use vstd::prelude::*;
use crate::pool::{lemma_count_update, lemma_escrow_update, LoanPool, Receipt};
use crate::proposal::{lemma_all_paid, lemma_milestone_update, lemma_paid_le_total, Milestone, MilestoneState, Proposal, ProposalState};
use crate::types::{AccountId, Balance, Error, Origin, ProposalId};

verus! {

impl LoanPool {
    /// Why `proposer` may not submit milestone `index` of proposal `id`, if they may not.
    pub open spec fn submit_milestone_error(&self, proposer: AccountId, id: ProposalId, index: usize) -> Option<Error> {
        let p = self.prop(id as int);
        let ms = p.milestones@;
        if !self.live(id as int) {
            Some(Error::ProposalNotFound)
        } else if proposer != p.proposer {
            Some(Error::BadOrigin)
        } else if p.state != ProposalState::Approved {
            Some(Error::InvalidStateTransition)
        } else if index >= ms.len() || ms[index as int].state != MilestoneState::Pending
            || (index > 0 && ms[index - 1].state == MilestoneState::Pending) {
            Some(Error::OutOfOrderMilestone)
        } else {
            None
        }
    }

    /// The proposer reports milestone `index` of proposal `id` as done. Only
    /// the first milestone still Pending may be submitted.
    pub fn submit_milestone(&mut self, proposer: AccountId, id: ProposalId, index: usize) -> (r: Result<(), Error>)
        requires
            old(self).wf(),
        ensures
            final(self).wf(),
            r.is_err() == old(self).submit_milestone_error(proposer, id, index) is Some,
            r.is_err() ==> r->Err_0 == old(self).submit_milestone_error(proposer, id, index)->Some_0
                && *final(self) == *old(self),
            r.is_ok() ==> {
                let p = old(self).prop(id as int);
                let m = p.milestones@[index as int];
                &&& final(self).live(id as int)
                &&& final(self).others_unchanged(*old(self), id as int)
                &&& final(self).prop(id as int) == (Proposal {
                    milestones: final(self).prop(id as int).milestones,
                    ..p
                })
                &&& final(self).prop(id as int).milestones@ == p.milestones@.update(
                    index as int,
                    Milestone { amount: m.amount, state: MilestoneState::Submitted },
                )
                &&& final(self).ledger == old(self).ledger
                &&& final(self).ongoing == old(self).ongoing
                &&& final(self).committee == old(self).committee
                &&& final(self).receipts == old(self).receipts
                &&& final(self).keeps_history(*old(self))
            },
    {
        if id >= self.proposals.len() {
            return Err(Error::ProposalNotFound);
        }
        match &self.proposals[id] {
            None => {
                return Err(Error::ProposalNotFound);
            },
            Some(p) => {
                if proposer != p.proposer {
                    return Err(Error::BadOrigin);
                }
                if p.state != ProposalState::Approved {
                    return Err(Error::InvalidStateTransition);
                }
                if index >= p.milestones.len() || p.milestones[index].state != MilestoneState::Pending
                    || (index > 0 && p.milestones[index - 1].state == MilestoneState::Pending) {
                    return Err(Error::OutOfOrderMilestone);
                }
            },
        }
        let mut slot: Option<Proposal> = None;
        self.proposals.set_and_swap(id, &mut slot);
        let mut p = slot.unwrap();
        let ghost old_ms = p.milestones@;
        let m = Milestone { amount: p.milestones[index].amount, state: MilestoneState::Submitted };
        proof {
            lemma_milestone_update(old_ms, index as int, m);
        }
        p.milestones.set(index, m);
        proof {
            let ms = p.milestones@;
            assert forall|i: int, j: int| 0 <= i < j < ms.len() && #[trigger] ms[j].state != MilestoneState::Pending
                implies #[trigger] ms[i].state != MilestoneState::Pending by {
                if j == index {
                    if i < index - 1 {
                        assert(old_ms[index - 1].state != MilestoneState::Pending);
                    }
                } else {
                    assert(old_ms[j].state != MilestoneState::Pending);
                }
            }
        }
        let ghost new_p = p;
        proof {
            lemma_count_update(old(self).proposals@, id as int, Some(p));
            lemma_escrow_update(old(self).proposals@, id as int, Some(p));
        }
        self.proposals.set(id, Some(p));
        assert(self.proposals@ =~= old(self).proposals@.update(id as int, Some(new_p)));
        Ok(())
    }

    /// Why the verifier may not pay milestone `index` of proposal `id`, if it may not.
    pub open spec fn pay_error(&self, origin: Origin, id: ProposalId, index: usize) -> Option<Error> {
        let p = self.prop(id as int);
        let ms = p.milestones@;
        if !self.authorities.verifier.permits_spec(origin) {
            Some(Error::BadOrigin)
        } else if !self.live(id as int) {
            Some(Error::ProposalNotFound)
        } else if p.state != ProposalState::Approved {
            Some(Error::InvalidStateTransition)
        } else if index >= ms.len() {
            Some(Error::MilestoneNotSubmitted)
        } else if index > 0 && ms[index - 1].state != MilestoneState::Paid {
            Some(Error::OutOfOrderMilestone)
        } else if ms[index as int].state != MilestoneState::Submitted {
            Some(Error::MilestoneNotSubmitted)
        } else if self.ledger.escrow < ms[index as int].amount {
            Some(Error::InsufficientEscrow)
        } else {
            None
        }
    }

    /// The verifier confirms milestone `index` of proposal `id`: its amount
    /// goes from escrow to the proposer and a receipt for it is minted. When
    /// the last milestone is paid the proposal is Completed. Milestones are
    /// paid strictly in order.
    pub fn verify_and_pay(&mut self, origin: Origin, id: ProposalId, index: usize) -> (r: Result<Balance, Error>)
        requires
            old(self).wf(),
        ensures
            final(self).wf(),
            r.is_err() == old(self).pay_error(origin, id, index) is Some,
            r.is_err() ==> r->Err_0 == old(self).pay_error(origin, id, index)->Some_0 && *final(self) == *old(self),
            r.is_ok() ==> index == 0 || old(self).prop(id as int).milestones@[index - 1].state == MilestoneState::Paid,
            r.is_ok() ==> {
                let p = old(self).prop(id as int);
                let q = final(self).prop(id as int);
                let m = p.milestones@[index as int];
                let last = index + 1 == p.milestones@.len();
                &&& r->Ok_0 == m.amount
                &&& final(self).live(id as int)
                &&& final(self).others_unchanged(*old(self), id as int)
                &&& q == (Proposal {
                    milestones: q.milestones,
                    state: if last { ProposalState::Completed } else { ProposalState::Approved },
                    paid: (p.paid + m.amount) as Balance,
                    ..p
                })
                &&& q.milestones@ == p.milestones@.update(index as int, Milestone { amount: m.amount, state: MilestoneState::Paid })
                &&& final(self).ledger.escrow == old(self).ledger.escrow - m.amount
                &&& final(self).ledger.free@ == old(self).ledger.free@.update(
                    p.proposer as int,
                    (old(self).ledger.free@[p.proposer as int] + m.amount) as Balance,
                )
                &&& final(self).ledger.pool == old(self).ledger.pool
                &&& final(self).ledger.bonds@ == old(self).ledger.bonds@
                &&& final(self).receipts@ == old(self).receipts@.push(Receipt { owner: p.proposer, proposal: id, milestone: index })
                &&& final(self).ongoing == old(self).ongoing - if last { 1int } else { 0int }
                &&& final(self).committee == old(self).committee
                &&& final(self).keeps_history(*old(self))
            },
    {
        if !self.authorities.verifier.permits(origin) {
            return Err(Error::BadOrigin);
        }
        if id >= self.proposals.len() {
            return Err(Error::ProposalNotFound);
        }
        let (proposer, amount, count) = match &self.proposals[id] {
            None => {
                return Err(Error::ProposalNotFound);
            },
            Some(p) => {
                if p.state != ProposalState::Approved {
                    return Err(Error::InvalidStateTransition);
                }
                if index >= p.milestones.len() {
                    return Err(Error::MilestoneNotSubmitted);
                }
                if index > 0 && p.milestones[index - 1].state != MilestoneState::Paid {
                    return Err(Error::OutOfOrderMilestone);
                }
                if p.milestones[index].state != MilestoneState::Submitted {
                    return Err(Error::MilestoneNotSubmitted);
                }
                (p.proposer, p.milestones[index].amount, p.milestones.len())
            },
        };
        if self.ledger.escrow < amount {
            return Err(Error::InsufficientEscrow);
        }
        let last = index + 1 == count;
        let mut slot: Option<Proposal> = None;
        self.proposals.set_and_swap(id, &mut slot);
        let mut p = slot.unwrap();
        let ghost old_ms = p.milestones@;
        let m = Milestone { amount, state: MilestoneState::Paid };
        proof {
            lemma_milestone_update(old_ms, index as int, m);
            lemma_paid_le_total(old_ms.update(index as int, m));
        }
        p.milestones.set(index, m);
        p.paid = p.paid + amount;
        if last {
            p.state = ProposalState::Completed;
        }
        proof {
            let ms = p.milestones@;
            assert forall|i: int, j: int| 0 <= i < j < ms.len() && #[trigger] ms[j].state == MilestoneState::Paid
                implies #[trigger] ms[i].state == MilestoneState::Paid by {
                if j == index {
                    if i < index - 1 {
                        assert(old_ms[index - 1].state == MilestoneState::Paid);
                    }
                } else if j > index {
                    assert(old_ms[j].state == MilestoneState::Paid);
                    assert(old_ms[index as int].state == MilestoneState::Paid);
                }
            }
            assert forall|i: int, j: int| 0 <= i < j < ms.len() && #[trigger] ms[j].state != MilestoneState::Pending
                implies #[trigger] ms[i].state != MilestoneState::Pending by {
                if j != index {
                    assert(old_ms[j].state != MilestoneState::Pending);
                } else if i < index - 1 {
                    assert(old_ms[index - 1].state == MilestoneState::Paid);
                }
            }
            if last {
                assert forall|i: int| 0 <= i < ms.len() implies #[trigger] ms[i].state == MilestoneState::Paid by {
                    if i < index - 1 {
                        assert(old_ms[index - 1].state == MilestoneState::Paid);
                    }
                }
                lemma_all_paid(ms);
            }
        }
        let ghost new_p = p;
        proof {
            lemma_count_update(old(self).proposals@, id as int, Some(p));
            lemma_escrow_update(old(self).proposals@, id as int, Some(p));
        }
        self.proposals.set(id, Some(p));
        assert(self.proposals@ =~= old(self).proposals@.update(id as int, Some(new_p)));
        let _ = self.ledger.pay_from_escrow(proposer, amount);
        self.receipts.push(Receipt { owner: proposer, proposal: id, milestone: index });
        if last {
            self.ongoing = self.ongoing - 1;
        }
        Ok(amount)
    }
}

} // verus!
