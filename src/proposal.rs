use vstd::prelude::*;
use crate::types::{AccountId, Balance, BlockNumber, BondId, ProposalId, PERMILL_ONE};

verus! {

/// Deployment-time parameters of the pool.
#[derive(Debug, Clone, Copy, PartialEq, Eq, Structural)]
pub struct Config {
    /// The bond as parts per million of the requested amount.
    pub bond_permill: u32,
    pub bond_minimum: Balance,
    pub bond_maximum: Option<Balance>,
    pub max_ongoing_loans: u32,
    pub max_milestones: u32,
    pub max_committee_members: u32,
    /// Length of a voting window, in blocks.
    pub voting_time: BlockNumber,
}

impl Config {
    pub open spec fn wf(&self) -> bool {
        self.bond_permill <= PERMILL_ONE
    }
}

/// The bond owed for a request of `amount`: the configured share of it,
/// raised to the minimum and then capped by the maximum, if there is one.
pub open spec fn bond_for(c: Config, amount: Balance) -> Balance {
    let share = (amount as nat * c.bond_permill as nat / PERMILL_ONE as nat) as Balance;
    let raised = if share < c.bond_minimum { c.bond_minimum } else { share };
    match c.bond_maximum {
        Some(m) => if m < raised { m } else { raised },
        None => raised,
    }
}

pub fn compute_bond(c: &Config, amount: Balance) -> (r: Balance)
    requires
        c.wf(),
    ensures
        r == bond_for(*c, amount),
        r as nat == bond_for(*c, amount) as nat,
{
    proof {
        assert(amount as int * c.bond_permill as int <= u64::MAX as int * u32::MAX as int) by (nonlinear_arith)
            requires
                amount <= u64::MAX,
                c.bond_permill <= u32::MAX,
        ;
    }
    let product: u128 = (amount as u128) * (c.bond_permill as u128);
    let share_wide: u128 = product / (PERMILL_ONE as u128);
    proof {
        assert(share_wide <= amount) by (nonlinear_arith)
            requires
                product == amount as int * c.bond_permill as int,
                share_wide == product / 1_000_000,
                c.bond_permill <= 1_000_000,
        ;
    }
    let share = share_wide as Balance;
    let raised = if share < c.bond_minimum { c.bond_minimum } else { share };
    match c.bond_maximum {
        Some(m) => if m < raised { m } else { raised },
        None => raised,
    }
}

#[derive(Debug, Clone, Copy, PartialEq, Eq, Structural)]
pub enum MilestoneState {
    Pending,
    /// Reported done by the proposer, awaiting the verifier.
    Submitted,
    /// Confirmed by the verifier. Payment follows within the same call, so a
    /// stored milestone is never left in this state.
    Approved,
    Paid,
}

#[derive(Debug, Clone, Copy, PartialEq, Eq, Structural)]
pub struct Milestone {
    pub amount: Balance,
    pub state: MilestoneState,
}

#[derive(Debug, Clone, Copy, PartialEq, Eq, Structural)]
pub enum ProposalState {
    /// Voting is open.
    Submitted,
    /// Approved: the requested amount is in escrow and paid out milestone by milestone.
    Approved,
    Rejected,
    /// Every milestone is paid.
    Completed,
}

impl ProposalState {
    pub open spec fn is_ongoing(self) -> bool {
        self == ProposalState::Submitted || self == ProposalState::Approved
    }
}

/// The committee's votes on one proposal.
pub struct Tally {
    pub ayes: Vec<AccountId>,
    pub nays: Vec<AccountId>,
    pub opened_at: BlockNumber,
    pub deadline: BlockNumber,
}

pub struct Proposal {
    pub id: ProposalId,
    pub proposer: AccountId,
    pub amount: Balance,
    pub bond: Balance,
    pub bond_id: BondId,
    pub milestones: Vec<Milestone>,
    pub state: ProposalState,
    pub created_at: BlockNumber,
    pub votes: Tally,
    /// What has been paid out to the proposer so far.
    pub paid: Balance,
}

/// The sum of the amounts of all milestones in `s`.
pub open spec fn milestone_sum(s: Seq<Milestone>) -> nat
    decreases s.len(),
{
    if s.len() == 0 {
        0
    } else {
        milestone_sum(s.drop_last()) + s.last().amount as nat
    }
}

pub open spec fn paid_amount(m: Milestone) -> nat {
    if m.state == MilestoneState::Paid {
        m.amount as nat
    } else {
        0
    }
}

/// The sum of the amounts of the paid milestones in `s`.
pub open spec fn paid_sum(s: Seq<Milestone>) -> nat
    decreases s.len(),
{
    if s.len() == 0 {
        0
    } else {
        paid_sum(s.drop_last()) + paid_amount(s.last())
    }
}

pub proof fn lemma_milestone_update(s: Seq<Milestone>, i: int, m: Milestone)
    requires
        0 <= i < s.len(),
    ensures
        milestone_sum(s.update(i, m)) == milestone_sum(s) - s[i].amount + m.amount,
        paid_sum(s.update(i, m)) == paid_sum(s) - paid_amount(s[i]) + paid_amount(m),
    decreases s.len(),
{
    let t = s.update(i, m);
    assert(t.drop_last() =~= if i == s.len() - 1 {
        s.drop_last()
    } else {
        s.drop_last().update(i, m)
    });
    if i < s.len() - 1 {
        lemma_milestone_update(s.drop_last(), i, m);
    }
}

/// What has been paid never exceeds what the milestones add up to.
pub proof fn lemma_paid_le_total(s: Seq<Milestone>)
    ensures
        paid_sum(s) <= milestone_sum(s),
    decreases s.len(),
{
    if s.len() > 0 {
        lemma_paid_le_total(s.drop_last());
    }
}

pub proof fn lemma_all_paid(s: Seq<Milestone>)
    requires
        forall|i: int| 0 <= i < s.len() ==> #[trigger] s[i].state == MilestoneState::Paid,
    ensures
        paid_sum(s) == milestone_sum(s),
    decreases s.len(),
{
    if s.len() > 0 {
        lemma_all_paid(s.drop_last());
    }
}

pub proof fn lemma_none_paid(s: Seq<Milestone>)
    requires
        forall|i: int| 0 <= i < s.len() ==> #[trigger] s[i].state != MilestoneState::Paid,
    ensures
        paid_sum(s) == 0,
    decreases s.len(),
{
    if s.len() > 0 {
        lemma_none_paid(s.drop_last());
    }
}

/// Milestones are paid in index order, submitted in index order, and only
/// the states Pending, Submitted and Paid are ever stored.
pub open spec fn milestones_ordered(s: Seq<Milestone>) -> bool {
    &&& forall|i: int| 0 <= i < s.len() ==> {
        let st = #[trigger] s[i].state;
        st == MilestoneState::Pending || st == MilestoneState::Submitted || st == MilestoneState::Paid
    }
    &&& forall|i: int, j: int| 0 <= i < j < s.len() && #[trigger] s[j].state == MilestoneState::Paid
        ==> #[trigger] s[i].state == MilestoneState::Paid
    &&& forall|i: int, j: int| 0 <= i < j < s.len() && #[trigger] s[j].state != MilestoneState::Pending
        ==> #[trigger] s[i].state != MilestoneState::Pending
}

pub open spec fn all_pending(s: Seq<Milestone>) -> bool {
    forall|i: int| 0 <= i < s.len() ==> #[trigger] s[i].state == MilestoneState::Pending
}

pub open spec fn all_paid(s: Seq<Milestone>) -> bool {
    forall|i: int| 0 <= i < s.len() ==> #[trigger] s[i].state == MilestoneState::Paid
}

} // verus!
