use vstd::prelude::*;
use crate::ledger::{BondStatus, Ledger};
use crate::pool::{count_ongoing, escrow_owed, lemma_escrow_update, LoanPool};
use crate::proposal::{lemma_all_paid, lemma_milestone_update, lemma_paid_le_total, milestone_sum, Milestone, MilestoneState, ProposalState};
use crate::types::{AccountId, BondId, Error, Origin, ProposalId};

verus! {

/// The milestones of every stored proposal add up to the amount it requested,
/// for as long as the proposal is stored.
pub proof fn lemma_milestones_cover_amount(pool: LoanPool, id: ProposalId)
    requires
        pool.wf(),
        pool.live(id as int),
    ensures
        milestone_sum(pool.prop(id as int).milestones@) == pool.prop(id as int).amount,
{
    assert(pool.proposals@[id as int] is Some);
}

/// A proposal's bond is held exactly while its vote is open; once the
/// proposal is resolved the bond has been settled exactly one way: released
/// if it was approved, slashed if it was rejected.
pub proof fn lemma_bond_settled_once(pool: LoanPool, id: ProposalId)
    requires
        pool.wf(),
        pool.live(id as int),
    ensures
        ({
            let p = pool.prop(id as int);
            let status = pool.ledger.bonds@[p.bond_id as int].status;
            &&& p.bond_id < pool.ledger.bonds@.len()
            &&& (status == BondStatus::Held) == (p.state == ProposalState::Submitted)
            &&& p.state == ProposalState::Rejected ==> status == BondStatus::Slashed
            &&& (p.state == ProposalState::Approved || p.state == ProposalState::Completed)
                ==> status == BondStatus::Released
        }),
{
    assert(pool.proposals@[id as int] is Some);
}

/// Once a bond has been released or slashed, releasing or slashing it again
/// is refused with `BondAlreadySettled`, and the refused call changes nothing.
pub proof fn lemma_bond_settles_once(before: Ledger, after: Ledger, id: BondId, slash: bool)
    requires
        before.wf(),
        before.settle_outcome(id) is Ok,
        before.settled(after, id, slash),
    ensures
        after.settle_outcome(id) == Err::<u64, Error>(Error::BondAlreadySettled),
{
}

/// Milestones are paid in index order: a paid milestone has only paid
/// milestones before it.
pub proof fn lemma_paid_in_order(pool: LoanPool, id: ProposalId, i: int, j: int)
    requires
        pool.wf(),
        pool.live(id as int),
        0 <= i < j < pool.prop(id as int).milestones@.len(),
        pool.prop(id as int).milestones@[j].state == MilestoneState::Paid,
    ensures
        pool.prop(id as int).milestones@[i].state == MilestoneState::Paid,
{
    assert(pool.proposals@[id as int] is Some);
}

/// While as many proposals are ongoing as the configuration allows, every
/// submission is refused with `TooManyOngoingLoans`.
pub proof fn lemma_submit_refused_when_full(pool: LoanPool, proposer: AccountId, amount: u64, amounts: Seq<u64>)
    requires
        pool.wf(),
        count_ongoing(pool.proposals@) >= pool.config.max_ongoing_loans,
    ensures
        pool.submit_outcome(proposer, amount, amounts) == Err::<ProposalId, Error>(Error::TooManyOngoingLoans),
{
}

/// The number of proposals in a non-terminal state never exceeds the
/// configured maximum of ongoing loans.
pub proof fn lemma_ongoing_bounded(pool: LoanPool)
    requires
        pool.wf(),
    ensures
        count_ongoing(pool.proposals@) <= pool.config.max_ongoing_loans,
{
}

/// A vote resolves once: after a proposal is resolved no vote, approval or
/// rejection can resolve it again, and no later operation reopens it.
pub proof fn lemma_resolved_once(pool: LoanPool, later: LoanPool, id: ProposalId, voter: AccountId, aye: bool)
    requires
        pool.wf(),
        pool.live(id as int),
        pool.prop(id as int).state != ProposalState::Submitted,
        later.keeps_history(pool),
        later.live(id as int),
    ensures
        pool.vote_error(voter, id, aye) == Some(Error::VotingClosed),
        pool.resolve_error(id, true) == Some(Error::InvalidStateTransition),
        pool.resolve_error(id, false) == Some(Error::InvalidStateTransition),
        later.prop(id as int).state != ProposalState::Submitted,
{
}

/// The pool's escrow holds exactly what approved proposals have yet to be
/// paid, so it covers the unpaid part of each approved proposal.
pub proof fn lemma_escrow_covers(pool: LoanPool, id: ProposalId)
    requires
        pool.wf(),
        pool.live(id as int),
        pool.prop(id as int).state == ProposalState::Approved,
    ensures
        pool.ledger.escrow == escrow_owed(pool.proposals@),
        pool.prop(id as int).paid <= pool.prop(id as int).amount,
        pool.prop(id as int).amount - pool.prop(id as int).paid <= pool.ledger.escrow,
{
    let p = pool.prop(id as int);
    assert(pool.proposals@[id as int] is Some);
    lemma_paid_le_total(p.milestones@);
    lemma_escrow_update(pool.proposals@, id as int, None);
}

/// Paying a milestone or deleting a proposal never finds the escrow short.
pub proof fn lemma_escrow_never_short(pool: LoanPool, origin: Origin, id: ProposalId, index: usize)
    requires
        pool.wf(),
    ensures
        pool.pay_error(origin, id, index) != Some(Error::InsufficientEscrow),
        pool.delete_error(origin, id) != Some(Error::InsufficientEscrow),
{
    if pool.live(id as int) && pool.prop(id as int).state == ProposalState::Approved {
        lemma_escrow_covers(pool, id);
        assert(pool.proposals@[id as int] is Some);
        let ms = pool.prop(id as int).milestones@;
        if index < ms.len() && ms[index as int].state != MilestoneState::Paid {
            let paid = ms.update(index as int, Milestone { amount: ms[index as int].amount, state: MilestoneState::Paid });
            lemma_milestone_update(ms, index as int, paid[index as int]);
            lemma_paid_le_total(paid);
        }
    }
}

/// A completed proposal has been paid its whole amount: nothing of it is
/// left in escrow.
pub proof fn lemma_completed_fully_paid(pool: LoanPool, id: ProposalId)
    requires
        pool.wf(),
        pool.live(id as int),
        pool.prop(id as int).state == ProposalState::Completed,
    ensures
        pool.prop(id as int).paid == pool.prop(id as int).amount,
{
    assert(pool.proposals@[id as int] is Some);
    lemma_all_paid(pool.prop(id as int).milestones@);
}

} // verus!
