use community_fund::errors::ErrorCode;
use community_fund::ledger::Ledger;
use community_fund::state::{Address, ProposalStatus};

const WEEK: i64 = 604_800;

fn addr(n: u8) -> Address {
    Address { bytes: [n; 32] }
}

fn ledger_with_proposal(owner: Address, amount: u64, now: i64) -> Ledger {
    let mut l = Ledger::new();
    l.initialize_admin(addr(1), addr(2), addr(3)).unwrap();
    l.initialize_vault().unwrap();
    l.initialize_user(owner).unwrap();
    l.create_proposal(owner, String::from("Roof"), String::from("Fix the roof"), amount, now)
        .unwrap();
    l
}

#[test]
fn new_ledger_is_empty() {
    let l = Ledger::new();
    assert!(l.config.is_none());
    assert!(l.vault.is_none());
    assert_eq!(l.vault_balance, 0);
    assert!(l.profiles.is_empty());
    assert!(l.proposals.is_empty());
    assert!(l.votes.is_empty());
}

#[test]
fn registry_and_vault_are_created_once() {
    let mut l = Ledger::new();
    l.initialize_admin(addr(1), addr(2), addr(3)).unwrap();
    assert_eq!(
        l.initialize_admin(addr(4), addr(5), addr(6)),
        Err(ErrorCode::AccountAlreadyExists)
    );
    assert!(l.config.unwrap().admins[0] == addr(1));
    l.initialize_vault().unwrap();
    assert_eq!(l.initialize_vault(), Err(ErrorCode::AccountAlreadyExists));
}

#[test]
fn profile_is_created_once() {
    let mut l = Ledger::new();
    l.initialize_user(addr(9)).unwrap();
    assert_eq!(l.initialize_user(addr(9)), Err(ErrorCode::AccountAlreadyExists));
    assert_eq!(l.profiles.len(), 1);
}

#[test]
fn create_without_profile_is_not_found() {
    let mut l = Ledger::new();
    let r = l.create_proposal(addr(9), String::from("a"), String::from("b"), 1, 0);
    assert_eq!(r, Err(ErrorCode::AccountNotFound));
    assert!(l.proposals.is_empty());
}

#[test]
fn proposals_of_one_owner_get_consecutive_ids() {
    let mut l = Ledger::new();
    l.initialize_user(addr(9)).unwrap();
    l.initialize_user(addr(8)).unwrap();
    l.create_proposal(addr(9), String::from("a"), String::new(), 1, 0).unwrap();
    l.create_proposal(addr(8), String::from("b"), String::new(), 1, 0).unwrap();
    l.create_proposal(addr(9), String::from("c"), String::new(), 1, 0).unwrap();
    assert_eq!(l.proposals[0].id, 0);
    assert_eq!(l.proposals[1].id, 0);
    assert_eq!(l.proposals[2].id, 1);
    assert_eq!(l.profiles[0].1.proposal_count, 2);
    assert_eq!(l.profiles[1].1.proposal_count, 1);
}

#[test]
fn tally_is_sum_of_distinct_voters() {
    let mut l = ledger_with_proposal(addr(9), 10, 0);
    l.vote_on_proposal(addr(20), 0, addr(9), 40, 10).unwrap();
    l.vote_on_proposal(addr(21), 0, addr(9), 25, 20).unwrap();
    l.vote_on_proposal(addr(9), 0, addr(9), 5, 30).unwrap();
    assert_eq!(l.proposals[0].vote_count, 70);
    assert_eq!(l.votes.len(), 3);
    let sum: u64 = l.votes.iter().map(|v| v.vote.token_weight).sum();
    assert_eq!(sum, 70);
}

#[test]
fn second_vote_by_same_voter_fails() {
    let mut l = ledger_with_proposal(addr(9), 10, 0);
    l.vote_on_proposal(addr(20), 0, addr(9), 40, 10).unwrap();
    let r = l.vote_on_proposal(addr(20), 0, addr(9), 1, 11);
    assert_eq!(r, Err(ErrorCode::AccountAlreadyExists));
    assert_eq!(l.proposals[0].vote_count, 40);
    assert_eq!(l.votes.len(), 1);
}

#[test]
fn vote_on_missing_proposal_is_not_found() {
    let mut l = ledger_with_proposal(addr(9), 10, 0);
    assert_eq!(l.vote_on_proposal(addr(20), 1, addr(9), 4, 1), Err(ErrorCode::AccountNotFound));
    assert_eq!(l.vote_on_proposal(addr(20), 0, addr(8), 4, 1), Err(ErrorCode::AccountNotFound));
    assert!(l.votes.is_empty());
}

#[test]
fn expired_vote_leaves_no_record() {
    let mut l = ledger_with_proposal(addr(9), 10, 100);
    let r = l.vote_on_proposal(addr(20), 0, addr(9), 4, 100 + WEEK);
    assert_eq!(r, Err(ErrorCode::VotingExpired));
    assert!(l.votes.is_empty());
    assert_eq!(l.proposals[0].vote_count, 0);
}

#[test]
fn update_finds_proposal_by_caller() {
    let mut l = ledger_with_proposal(addr(9), 10, 0);
    let r = l.update_proposal(addr(8), 0, String::from("x"), String::from("y"));
    assert_eq!(r, Err(ErrorCode::AccountNotFound));
    l.update_proposal(addr(9), 0, String::from("x"), String::from("y")).unwrap();
    assert_eq!(l.proposals[0].title, "x");
    assert_eq!(l.proposals[0].description, "y");
}

#[test]
fn reject_twice_through_ledger() {
    let mut l = ledger_with_proposal(addr(9), 10, 0);
    l.reject_proposal(addr(2), 0, addr(9)).unwrap();
    l.reject_proposal(addr(3), 0, addr(9)).unwrap();
    assert_eq!(l.proposals[0].status, ProposalStatus::Rejected);
}

#[test]
fn reject_without_registry_is_not_found() {
    let mut l = Ledger::new();
    l.initialize_user(addr(9)).unwrap();
    l.create_proposal(addr(9), String::new(), String::new(), 1, 0).unwrap();
    assert_eq!(l.reject_proposal(addr(1), 0, addr(9)), Err(ErrorCode::AccountNotFound));
    assert_eq!(l.proposals[0].status, ProposalStatus::Pending);
}

#[test]
fn approve_large_request_through_ledger() {
    let mut l = ledger_with_proposal(addr(9), 1_000_000_000_000, 0);
    l.approve_funding(addr(1), 0, addr(9)).unwrap();
    assert_eq!(l.proposals[0].status, ProposalStatus::Pending);
    assert_eq!(l.approve_funding(addr(1), 0, addr(9)), Err(ErrorCode::AlreadyApproved));
    l.approve_funding(addr(3), 0, addr(9)).unwrap();
    assert_eq!(l.proposals[0].status, ProposalStatus::Approved);
}

#[test]
fn transfer_admin_through_ledger() {
    let mut l = Ledger::new();
    assert_eq!(l.transfer_admin(addr(1), addr(1), addr(4)), Err(ErrorCode::AccountNotFound));
    l.initialize_admin(addr(1), addr(2), addr(3)).unwrap();
    assert_eq!(l.transfer_admin(addr(1), addr(5), addr(4)), Err(ErrorCode::Unauthorized));
    l.transfer_admin(addr(1), addr(2), addr(4)).unwrap();
    let admins = l.config.unwrap().admins;
    assert!(admins[0] == addr(1) && admins[1] == addr(4) && admins[2] == addr(3));
}

#[test]
fn full_lifecycle_pays_owner() {
    let mut l = ledger_with_proposal(addr(9), 300, 0);
    l.deposit_to_vault(1_000).unwrap();
    l.vote_on_proposal(addr(20), 0, addr(9), 100, 50).unwrap();
    assert_eq!(l.finalize_proposal(0, addr(9), WEEK - 1), Err(ErrorCode::VotingStillActive));
    l.finalize_proposal(0, addr(9), WEEK).unwrap();
    assert_eq!(l.proposals[0].status, ProposalStatus::Finalized);
    assert_eq!(l.finalize_proposal(0, addr(9), WEEK + 1), Err(ErrorCode::AlreadyFinalized));
    assert_eq!(l.claim_funds(addr(8), 0), Err(ErrorCode::AccountNotFound));
    l.claim_funds(addr(9), 0).unwrap();
    assert_eq!(l.proposals[0].status, ProposalStatus::Claimed);
    assert_eq!(l.vault_balance, 700);
    let v = l.vault.unwrap();
    assert_eq!(v.total_deposited, 1_000);
    assert_eq!(v.total_claimed, 300);
    assert_eq!(l.claim_funds(addr(9), 0), Err(ErrorCode::NotApproved));
}

#[test]
fn deposit_without_vault_is_not_found() {
    let mut l = Ledger::new();
    assert_eq!(l.deposit_to_vault(5), Err(ErrorCode::AccountNotFound));
    assert_eq!(l.vault_balance, 0);
}

#[test]
fn claim_more_than_vault_holds_fails() {
    let mut l = ledger_with_proposal(addr(9), 300, 0);
    l.deposit_to_vault(299).unwrap();
    l.vote_on_proposal(addr(20), 0, addr(9), 150, 50).unwrap();
    l.finalize_proposal(0, addr(9), WEEK).unwrap();
    assert_eq!(l.claim_funds(addr(9), 0), Err(ErrorCode::InsufficientVaultBalance));
    assert_eq!(l.vault_balance, 299);
    assert_eq!(l.proposals[0].status, ProposalStatus::Finalized);
}
