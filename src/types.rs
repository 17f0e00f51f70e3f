use vstd::prelude::*;

verus! {

pub type AccountId = usize;

pub type Balance = u64;

pub type BlockNumber = u64;

pub type ProposalId = usize;

pub type BondId = usize;

/// Parts per million in which the proposal bond percentage is expressed.
pub const PERMILL_ONE: u32 = 1_000_000;

/// Every way an operation on the pool can fail. A failed operation leaves the
/// pool exactly as it was.
#[derive(Debug, Clone, Copy, PartialEq, Eq, Structural)]
pub enum Error {
    /// The milestone amounts do not add up to the requested amount.
    AmountMismatch,
    TooManyMilestones,
    TooManyOngoingLoans,
    /// No milestones, or a milestone of amount zero.
    InvalidMilestones,
    BadOrigin,
    NotCommitteeMember,
    AlreadyCommitteeMember,
    TooManyCommitteeMembers,
    ProposalNotFound,
    InvalidStateTransition,
    VotingClosed,
    /// The voting window has not passed yet.
    VotingOpen,
    DuplicateVote,
    OutOfOrderMilestone,
    MilestoneNotSubmitted,
    ProposalNotDeletable,
    BondNotFound,
    BondAlreadySettled,
    /// The ledger holds no such account.
    UnknownAccount,
    InsufficientBalance,
    /// Escrow cannot cover a payment; the pool's invariant rules this out.
    InsufficientEscrow,
}

/// The calling identity of a privileged operation.
#[derive(Debug, Clone, Copy, PartialEq, Eq, Structural)]
pub enum Origin {
    Root,
    Signed(AccountId),
}

/// Who may perform one kind of privileged operation.
#[derive(Debug, Clone, Copy, PartialEq, Eq, Structural)]
pub enum Authority {
    Root,
    Account(AccountId),
    Anyone,
    Nobody,
}

impl Authority {
    pub open spec fn permits_spec(self, origin: Origin) -> bool {
        match self {
            Authority::Root => origin == Origin::Root,
            Authority::Account(a) => origin == Origin::Signed(a),
            Authority::Anyone => true,
            Authority::Nobody => false,
        }
    }

    pub fn permits(&self, origin: Origin) -> (r: bool)
        ensures
            r == self.permits_spec(origin),
    {
        match *self {
            Authority::Root => match origin {
                Origin::Root => true,
                Origin::Signed(_) => false,
            },
            Authority::Account(a) => match origin {
                Origin::Root => false,
                Origin::Signed(b) => a == b,
            },
            Authority::Anyone => true,
            Authority::Nobody => false,
        }
    }
}

} // verus!
