use community_loan_pool::chain::Extensions;
use community_loan_pool::genesis::{merge_endowments, same_key};
use community_loan_pool::ledger::{BondStatus, Ledger};
use community_loan_pool::pool::{Authorities, LoanPool, Receipt, VoteOutcome};
use community_loan_pool::proposal::{compute_bond, Config, MilestoneState, ProposalState};
use community_loan_pool::types::{Authority, Error, Origin};

const POOL_FUNDS: u64 = 20_000_000;

fn config() -> Config {
    Config {
        bond_permill: 50_000,
        bond_minimum: 10_000,
        bond_maximum: None,
        max_ongoing_loans: 10_000,
        max_milestones: 10,
        max_committee_members: 10,
        voting_time: 10,
    }
}

fn root_authorities() -> Authorities {
    Authorities {
        approve: Authority::Root,
        reject: Authority::Root,
        committee: Authority::Root,
        delete: Authority::Root,
        verifier: Authority::Root,
    }
}

fn pool_with(config: Config) -> LoanPool {
    let mut pool = LoanPool::new(
        config,
        root_authorities(),
        vec![20_000_000, 15_000, 150_000, 5_000],
        POOL_FUNDS,
    );
    for member in 10..20 {
        pool.add_member(Origin::Root, member).unwrap();
    }
    pool
}

fn pool() -> LoanPool {
    pool_with(config())
}

fn approved_pool() -> (LoanPool, usize) {
    let mut pool = pool();
    let id = pool.submit(2, 1000, vec![400, 600]).unwrap();
    for voter in 10..16 {
        pool.cast_vote(voter, id, true).unwrap();
    }
    (pool, id)
}

#[test]
fn majority_of_ayes_approves_at_sixth_vote() {
    let mut pool = pool();
    let id = pool.submit(2, 1000, vec![400, 600]).unwrap();
    assert_eq!(id, 0);
    assert_eq!(pool.ledger.free[2], 140_000);
    for voter in 10..15 {
        assert_eq!(pool.cast_vote(voter, id, true), Ok(VoteOutcome::Recorded));
        assert_eq!(pool.get(id).unwrap().state, ProposalState::Submitted);
    }
    assert_eq!(pool.cast_vote(15, id, true), Ok(VoteOutcome::Approved));
    let p = pool.get(id).unwrap();
    assert_eq!(p.state, ProposalState::Approved);
    assert_eq!(pool.ledger.escrow, 1000);
    assert_eq!(pool.ledger.pool, POOL_FUNDS - 1000);
    assert_eq!(pool.ledger.free[2], 150_000);
    assert_eq!(pool.ledger.bonds[p.bond_id].status, BondStatus::Released);
}

#[test]
fn paying_second_milestone_first_is_out_of_order() {
    let (mut pool, id) = approved_pool();
    assert_eq!(pool.verify_and_pay(Origin::Root, id, 1), Err(Error::OutOfOrderMilestone));
    assert_eq!(pool.submit_milestone(2, id, 1), Err(Error::OutOfOrderMilestone));
    assert_eq!(pool.ledger.escrow, 1000);
    assert_eq!(pool.ledger.free[2], 150_000);
}

#[test]
fn six_nays_reject_and_slash_bond() {
    let mut pool = pool();
    let id = pool.submit(2, 1000, vec![400, 600]).unwrap();
    for voter in 10..15 {
        assert_eq!(pool.cast_vote(voter, id, false), Ok(VoteOutcome::Recorded));
    }
    assert_eq!(pool.cast_vote(15, id, false), Ok(VoteOutcome::Rejected));
    let p = pool.get(id).unwrap();
    assert_eq!(p.state, ProposalState::Rejected);
    assert_eq!(pool.ledger.bonds[p.bond_id].status, BondStatus::Slashed);
    assert_eq!(pool.ledger.escrow, 0);
    assert_eq!(pool.ledger.pool, POOL_FUNDS + 10_000);
    assert_eq!(pool.ledger.free[2], 140_000);
    assert_eq!(pool.ongoing, 0);
}

#[test]
fn delete_stalled_proposal_forfeits_bond_and_purges() {
    let mut pool = pool();
    let id = pool.submit(2, 1000, vec![400, 600]).unwrap();
    for voter in 10..13 {
        pool.cast_vote(voter, id, true).unwrap();
    }
    for voter in 13..15 {
        pool.cast_vote(voter, id, false).unwrap();
    }
    assert_eq!(pool.delete(Origin::Root, id), Err(Error::ProposalNotDeletable));
    pool.advance_to(11);
    assert_eq!(pool.cast_vote(15, id, true), Err(Error::VotingClosed));
    assert_eq!(pool.delete(Origin::Signed(0), id), Err(Error::BadOrigin));
    assert_eq!(pool.delete(Origin::Root, id), Ok(10_000));
    assert!(pool.get(id).is_none());
    assert_eq!(pool.ledger.pool, POOL_FUNDS + 10_000);
    assert_eq!(pool.ledger.free[2], 140_000);
    assert_eq!(pool.ongoing, 0);
    assert_eq!(pool.delete(Origin::Root, id), Err(Error::ProposalNotFound));
    assert_eq!(pool.submit(2, 1000, vec![1000]), Ok(1));
}

#[test]
fn release_bond_twice_is_refused() {
    let mut ledger = Ledger::new(vec![100, 50], 0);
    let bond = ledger.reserve_bond(0, 30).unwrap();
    assert_eq!(ledger.free[0], 70);
    assert_eq!(ledger.release_bond(bond), Ok(30));
    assert_eq!(ledger.free[0], 100);
    assert_eq!(ledger.release_bond(bond), Err(Error::BondAlreadySettled));
    assert_eq!(ledger.slash_bond(bond), Err(Error::BondAlreadySettled));
    assert_eq!(ledger.free[0], 100);
    assert_eq!(ledger.pool, 0);
}

#[test]
fn slash_bond_moves_funds_to_pool() {
    let mut ledger = Ledger::new(vec![100, 50], 7);
    let bond = ledger.reserve_bond(1, 50).unwrap();
    assert_eq!(ledger.slash_bond(bond), Ok(50));
    assert_eq!(ledger.pool, 57);
    assert_eq!(ledger.free[1], 0);
    assert_eq!(ledger.release_bond(bond), Err(Error::BondAlreadySettled));
    assert_eq!(ledger.release_bond(5), Err(Error::BondNotFound));
}

#[test]
fn reserve_bond_errors() {
    let mut ledger = Ledger::new(vec![100], 0);
    assert_eq!(ledger.reserve_bond(1, 1), Err(Error::UnknownAccount));
    assert_eq!(ledger.reserve_bond(0, 101), Err(Error::InsufficientBalance));
    assert_eq!(ledger.free[0], 100);
    assert_eq!(ledger.reserve_bond(0, 100), Ok(0));
    assert_eq!(ledger.free[0], 0);
}

#[test]
fn milestones_must_add_up() {
    let mut pool = pool();
    assert_eq!(pool.submit(2, 1000, vec![400, 500]), Err(Error::AmountMismatch));
    assert_eq!(pool.submit(2, 1000, vec![400, 700]), Err(Error::AmountMismatch));
    assert_eq!(pool.submit(2, 1000, vec![400, 0, 600]), Err(Error::InvalidMilestones));
    assert_eq!(pool.submit(2, 0, vec![]), Err(Error::InvalidMilestones));
    assert_eq!(pool.submit(2, 11, vec![1; 11]), Err(Error::TooManyMilestones));
    assert_eq!(pool.submit(2, u64::MAX, vec![u64::MAX, 1]), Err(Error::AmountMismatch));
    assert_eq!(pool.ledger.free[2], 150_000);
    let id = pool.submit(2, 10, vec![1; 10]).unwrap();
    let total: u64 = pool.get(id).unwrap().milestones.iter().map(|m| m.amount).sum();
    assert_eq!(total, 10);
}

#[test]
fn submit_checks_proposer_funds() {
    let mut pool = pool();
    assert_eq!(pool.submit(3, 1000, vec![1000]), Err(Error::InsufficientBalance));
    assert_eq!(pool.submit(9, 1000, vec![1000]), Err(Error::UnknownAccount));
    assert_eq!(pool.ledger.free[3], 5_000);
    assert!(pool.proposals.is_empty());
}

#[test]
fn milestones_paid_in_order_until_completed() {
    let (mut pool, id) = approved_pool();
    assert_eq!(pool.verify_and_pay(Origin::Root, id, 0), Err(Error::MilestoneNotSubmitted));
    assert_eq!(pool.submit_milestone(1, id, 0), Err(Error::BadOrigin));
    assert_eq!(pool.submit_milestone(2, id, 0), Ok(()));
    assert_eq!(pool.submit_milestone(2, id, 0), Err(Error::OutOfOrderMilestone));
    assert_eq!(pool.submit_milestone(2, id, 1), Ok(()));
    assert_eq!(pool.verify_and_pay(Origin::Signed(2), id, 0), Err(Error::BadOrigin));
    assert_eq!(pool.verify_and_pay(Origin::Root, id, 1), Err(Error::OutOfOrderMilestone));
    assert_eq!(pool.verify_and_pay(Origin::Root, id, 0), Ok(400));
    assert_eq!(pool.ledger.free[2], 150_400);
    assert_eq!(pool.ledger.escrow, 600);
    assert_eq!(pool.get(id).unwrap().milestones[0].state, MilestoneState::Paid);
    assert_eq!(pool.get(id).unwrap().state, ProposalState::Approved);
    assert_eq!(pool.verify_and_pay(Origin::Root, id, 1), Ok(600));
    let p = pool.get(id).unwrap();
    assert_eq!(p.state, ProposalState::Completed);
    assert_eq!(p.paid, 1000);
    assert_eq!(pool.ledger.escrow, 0);
    assert_eq!(pool.ledger.free[2], 151_000);
    assert_eq!(pool.ongoing, 0);
    assert_eq!(
        pool.receipts,
        vec![
            Receipt { owner: 2, proposal: id, milestone: 0 },
            Receipt { owner: 2, proposal: id, milestone: 1 },
        ]
    );
    assert_eq!(pool.verify_and_pay(Origin::Root, id, 2), Err(Error::InvalidStateTransition));
    assert_eq!(pool.delete(Origin::Root, id), Ok(0));
}

#[test]
fn ongoing_loans_are_capped() {
    let mut cfg = config();
    cfg.max_ongoing_loans = 1;
    let mut pool = pool_with(cfg);
    let id = pool.submit(2, 1000, vec![1000]).unwrap();
    assert_eq!(pool.submit(0, 1000, vec![1000]), Err(Error::TooManyOngoingLoans));
    assert_eq!(pool.ongoing, 1);
    pool.reject(Origin::Root, id).unwrap();
    assert_eq!(pool.submit(0, 1000, vec![1000]), Ok(1));
}

#[test]
fn resolved_vote_stays_resolved() {
    let (mut pool, id) = approved_pool();
    assert_eq!(pool.cast_vote(16, id, false), Err(Error::VotingClosed));
    assert_eq!(pool.approve(Origin::Root, id), Err(Error::InvalidStateTransition));
    assert_eq!(pool.reject(Origin::Root, id), Err(Error::InvalidStateTransition));
    assert_eq!(pool.close_expired(id), Err(Error::InvalidStateTransition));
    assert_eq!(pool.get(id).unwrap().state, ProposalState::Approved);
}

#[test]
fn changing_a_vote_replaces_it() {
    let mut pool = pool();
    let id = pool.submit(2, 1000, vec![1000]).unwrap();
    assert_eq!(pool.cast_vote(10, id, true), Ok(VoteOutcome::Recorded));
    assert_eq!(pool.cast_vote(10, id, true), Err(Error::DuplicateVote));
    assert_eq!(pool.cast_vote(10, id, false), Ok(VoteOutcome::Recorded));
    let p = pool.get(id).unwrap();
    assert!(p.votes.ayes.is_empty());
    assert_eq!(p.votes.nays, vec![10]);
    assert_eq!(pool.cast_vote(99, id, true), Err(Error::NotCommitteeMember));
    assert_eq!(pool.cast_vote(10, 7, true), Err(Error::ProposalNotFound));
}

#[test]
fn decrees_need_their_authority() {
    let mut pool = pool();
    let id = pool.submit(2, 1000, vec![1000]).unwrap();
    assert_eq!(pool.approve(Origin::Signed(2), id), Err(Error::BadOrigin));
    assert_eq!(pool.reject(Origin::Signed(2), id), Err(Error::BadOrigin));
    assert_eq!(pool.approve(Origin::Root, 5), Err(Error::ProposalNotFound));
    assert_eq!(pool.approve(Origin::Root, id), Ok(()));
    assert_eq!(pool.ledger.escrow, 1000);
}

#[test]
fn approval_needs_pool_funds() {
    let mut pool = LoanPool::new(config(), root_authorities(), vec![1_000_000], 500);
    let id = pool.submit(0, 1000, vec![1000]).unwrap();
    assert_eq!(pool.approve(Origin::Root, id), Err(Error::InsufficientBalance));
    assert_eq!(pool.get(id).unwrap().state, ProposalState::Submitted);
    assert_eq!(pool.ledger.pool, 500);
}

#[test]
fn expired_vote_closes_as_rejected() {
    let mut pool = pool();
    let id = pool.submit(2, 1000, vec![1000]).unwrap();
    pool.advance_to(10);
    assert_eq!(pool.close_expired(id), Err(Error::VotingOpen));
    pool.advance_to(11);
    pool.advance_to(3);
    assert_eq!(pool.block, 11);
    assert_eq!(pool.close_expired(id), Ok(()));
    assert_eq!(pool.get(id).unwrap().state, ProposalState::Rejected);
    assert_eq!(pool.ledger.pool, POOL_FUNDS + 10_000);
    assert_eq!(pool.close_expired(4), Err(Error::ProposalNotFound));
}

#[test]
fn delete_approved_returns_unpaid_escrow() {
    let (mut pool, id) = approved_pool();
    pool.submit_milestone(2, id, 0).unwrap();
    pool.verify_and_pay(Origin::Root, id, 0).unwrap();
    assert_eq!(pool.delete(Origin::Root, id), Ok(600));
    assert_eq!(pool.ledger.escrow, 0);
    assert_eq!(pool.ledger.pool, POOL_FUNDS - 400);
    assert!(pool.get(id).is_none());
}

#[test]
fn committee_membership() {
    let mut pool = pool();
    assert_eq!(pool.add_member(Origin::Root, 10), Err(Error::AlreadyCommitteeMember));
    assert_eq!(pool.add_member(Origin::Root, 30), Err(Error::TooManyCommitteeMembers));
    assert_eq!(pool.add_member(Origin::Signed(1), 30), Err(Error::BadOrigin));
    assert_eq!(pool.remove_member(Origin::Root, 30), Err(Error::NotCommitteeMember));
    assert_eq!(pool.remove_member(Origin::Root, 12), Ok(()));
    assert_eq!(pool.committee.len(), 9);
    assert_eq!(pool.add_member(Origin::Root, 30), Ok(()));
    let id = pool.submit(2, 1000, vec![1000]).unwrap();
    assert_eq!(pool.cast_vote(12, id, true), Err(Error::NotCommitteeMember));
    assert_eq!(pool.cast_vote(30, id, true), Ok(VoteOutcome::Recorded));
}

#[test]
fn bond_is_share_clamped_to_range() {
    let mut cfg = config();
    assert_eq!(compute_bond(&cfg, 1000), 10_000);
    assert_eq!(compute_bond(&cfg, 1_000_000), 50_000);
    assert_eq!(compute_bond(&cfg, 1_000_019), 50_000);
    cfg.bond_maximum = Some(20_000);
    assert_eq!(compute_bond(&cfg, 1_000_000), 20_000);
    cfg.bond_permill = 1_000_000;
    cfg.bond_minimum = 0;
    cfg.bond_maximum = None;
    assert_eq!(compute_bond(&cfg, u64::MAX), u64::MAX);
}

#[test]
fn authorities_check_origins() {
    assert!(Authority::Root.permits(Origin::Root));
    assert!(!Authority::Root.permits(Origin::Signed(0)));
    assert!(Authority::Account(4).permits(Origin::Signed(4)));
    assert!(!Authority::Account(4).permits(Origin::Signed(5)));
    assert!(Authority::Anyone.permits(Origin::Signed(5)));
    assert!(!Authority::Nobody.permits(Origin::Root));
}

#[test]
fn extensions_hold_relay_chain_and_para_id() {
    let e = Extensions { relay_chain: "rococo-local".to_string(), para_id: 3000 };
    assert_eq!(e.clone(), e);
    assert_eq!(e.para_id, 3000);
}

#[test]
fn free_balance_of_unknown_account_is_zero() {
    let ledger = Ledger::new(vec![5, 6], 0);
    assert_eq!(ledger.free_balance(1), 6);
    assert_eq!(ledger.free_balance(2), 0);
}

#[test]
fn escrow_holds_what_approved_loans_still_owe() {
    let mut pool = pool();
    let a = pool.submit(2, 1000, vec![400, 600]).unwrap();
    let b = pool.submit(0, 300, vec![100, 200]).unwrap();
    pool.approve(Origin::Root, a).unwrap();
    pool.approve(Origin::Root, b).unwrap();
    assert_eq!(pool.ledger.escrow, 1300);
    pool.submit_milestone(0, b, 0).unwrap();
    pool.verify_and_pay(Origin::Root, b, 0).unwrap();
    assert_eq!(pool.ledger.escrow, 1200);
    assert_eq!(pool.ledger.free[0], 20_000_000 + 100);
    pool.delete(Origin::Root, a).unwrap();
    assert_eq!(pool.ledger.escrow, 200);
    assert_eq!(pool.ledger.pool, POOL_FUNDS - 300);
}

#[test]
fn extra_endowments_win_over_defaults() {
    let k = |b: u8| [b; 32];
    let defaults = vec![(k(1), 10), (k(2), 10), (k(3), 10)];
    let extra = vec![(k(2), 5), (k(4), 7)];
    let merged = merge_endowments(&defaults, extra);
    assert_eq!(merged, vec![(k(2), 5), (k(4), 7), (k(1), 10), (k(3), 10)]);
    assert_eq!(merge_endowments(&defaults, vec![]), defaults);
    assert_eq!(merge_endowments(&vec![], vec![(k(9), 1)]), vec![(k(9), 1)]);
}

#[test]
fn keys_compare_bytewise() {
    let a = [7u8; 32];
    let mut b = a;
    assert!(same_key(&a, &b));
    b[31] = 8;
    assert!(!same_key(&a, &b));
}

#[test]
fn full_pool_refuses_any_submission() {
    let mut cfg = config();
    cfg.max_ongoing_loans = 1;
    let mut pool = pool_with(cfg);
    pool.submit(2, 1000, vec![1000]).unwrap();
    assert_eq!(pool.submit(0, 1000, vec![400]), Err(Error::TooManyOngoingLoans));
    assert_eq!(pool.submit(0, 1000, vec![]), Err(Error::TooManyOngoingLoans));
}

#[test]
fn resolved_vote_is_closed_to_everyone() {
    let (mut pool, id) = approved_pool();
    assert_eq!(pool.cast_vote(99, id, true), Err(Error::VotingClosed));
    assert_eq!(pool.ledger.escrow, 1000);
}
