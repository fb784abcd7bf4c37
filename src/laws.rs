use vstd::prelude::*;

use crate::admin::transfer_admin_outcome;
use crate::errors::ErrorCode;
use crate::ledger::{tally, LedgerView};
use crate::proposal::{approve_outcome, vote_outcome};
use crate::state::{
    is_admin, voting_open, Address, Config, ProposalStatus, ProposalView, Vault, MULTISIG_THRESHOLD,
    VOTING_PERIOD,
};
use crate::vault::{claim_outcome, finalize_outcome};

verus! {

/// In a well-formed ledger the tally of every proposal is the sum of the weights of exactly the
/// vote records that name it, and no voter has two records on one proposal.
pub proof fn lemma_vote_count_is_tally(s: LedgerView)
    requires
        s.wf(),
    ensures
        forall|i: int|
            0 <= i < s.proposals.len() ==> #[trigger] s.proposals[i].vote_count == tally(
                s.votes,
                s.proposals[i].owner,
                s.proposals[i].id,
            ),
        forall|j1: int, j2: int|
            0 <= j1 < s.votes.len() && 0 <= j2 < s.votes.len() && j1 != j2 ==> (
            #[trigger] s.votes[j1].voter != #[trigger] s.votes[j2].voter || s.votes[j1].owner
                != s.votes[j2].owner || s.votes[j1].proposal_id != s.votes[j2].proposal_id),
{
}

/// The counter of a profile is always past the numbers of its owner's proposals, so the
/// address that the owner's next proposal takes is never in use.
pub proof fn lemma_create_never_collides(s: LedgerView, user: Address)
    requires
        s.wf(),
        s.has_profile(user),
    ensures
        !s.has_proposal(user, s.profiles[s.profile_index(user)].1.proposal_count),
{
    let k = s.profile_index(user);
    assert(s.profiles[k].0 == user);
    if s.has_proposal(user, s.profiles[k].1.proposal_count) {
        let i = s.proposal_index(user, s.profiles[k].1.proposal_count);
        assert(s.proposals[i].id < s.profiles[k].1.proposal_count);
    }
}

/// Once a voter's vote on a proposal has gone through, every further vote of that voter on that
/// proposal fails because the vote record exists, whatever its weight and time.
pub proof fn lemma_second_vote_fails(
    s: LedgerView,
    voter: Address,
    proposal_id: u64,
    owner: Address,
    weight1: u64,
    now1: i64,
    weight2: u64,
    now2: i64,
)
    requires
        s.wf(),
        s.vote(voter, proposal_id, owner, weight1, now1) is Ok,
    ensures
        s.vote(voter, proposal_id, owner, weight1, now1)->Ok_0.vote(
            voter,
            proposal_id,
            owner,
            weight2,
            now2,
        ) == Err::<LedgerView, ErrorCode>(ErrorCode::AccountAlreadyExists),
{
    let t = s.vote(voter, proposal_id, owner, weight1, now1)->Ok_0;
    let i = s.proposal_index(owner, proposal_id);
    assert(s.proposals[i].owner == owner && s.proposals[i].id == proposal_id);
    assert(t.proposals[i].owner == owner && t.proposals[i].id == proposal_id);
    let last = t.votes.len() - 1;
    assert(t.votes[last].voter == voter && t.votes[last].owner == owner
        && t.votes[last].proposal_id == proposal_id);
}

/// A vote is refused as expired exactly when at least the voting period has passed since the
/// proposal was created; inside the window it goes through unless the tally would overflow.
pub proof fn lemma_vote_window(p: ProposalView, token_weight: u64, now: i64)
    ensures
        (vote_outcome(p, token_weight, now) == Err::<ProposalView, ErrorCode>(
            ErrorCode::VotingExpired,
        )) <==> now - p.created_at >= VOTING_PERIOD,
        voting_open(p.created_at, now) && p.vote_count + token_weight <= u64::MAX ==> vote_outcome(
            p,
            token_weight,
            now,
        ) is Ok,
{
}

/// Below the threshold one admin's approval approves a proposal. From the threshold on, a first
/// approval leaves the status as it was, the same admin cannot approve again, and a second,
/// distinct admin approves the proposal.
pub proof fn lemma_approval_quorum(p: ProposalView, config: Config, a1: Address, a2: Address)
    requires
        is_admin(config, a1),
        is_admin(config, a2),
        a1 != a2,
        p.funding_approvals.len() == 0,
    ensures
        p.amount_requested < MULTISIG_THRESHOLD ==> approve_outcome(p, config, a1)->Ok_0.status
            == ProposalStatus::Approved,
        p.amount_requested >= MULTISIG_THRESHOLD ==> {
            let first = approve_outcome(p, config, a1)->Ok_0;
            &&& approve_outcome(p, config, a1) is Ok
            &&& first.status == p.status
            &&& approve_outcome(first, config, a1) == Err::<ProposalView, ErrorCode>(
                ErrorCode::AlreadyApproved,
            )
            &&& approve_outcome(first, config, a2) is Ok
            &&& approve_outcome(first, config, a2)->Ok_0.status == ProposalStatus::Approved
        },
{
    let first = approve_outcome(p, config, a1)->Ok_0;
    if p.amount_requested >= MULTISIG_THRESHOLD {
        assert(first.funding_approvals =~= seq![a1]);
        assert(first.funding_approvals[0] == a1);
        assert(first.funding_approvals.contains(a1));
        assert(!first.funding_approvals.contains(a2));
    }
}

/// Finalizing before the voting period has passed fails, and so leaves the proposal as it was.
pub proof fn lemma_finalize_early(p: ProposalView, now: i64)
    requires
        now < p.created_at + VOTING_PERIOD,
    ensures
        finalize_outcome(p, now) == Err::<ProposalView, ErrorCode>(ErrorCode::VotingStillActive),
{
}

/// Funds cannot be claimed on a proposal approved by the admins: claiming asks for a proposal
/// finalized by the vote.
pub proof fn lemma_claim_needs_finalized(
    p: ProposalView,
    vault: Vault,
    balance: u64,
    caller: Address,
)
    requires
        caller == p.owner,
        p.status == ProposalStatus::Approved,
    ensures
        claim_outcome(p, vault, balance, caller) == Err::<(ProposalView, Vault, u64), ErrorCode>(
            ErrorCode::NotApproved,
        ),
{
}

/// Rejecting a proposal a second time leaves the ledger as the first rejection left it.
pub proof fn lemma_reject_twice(s: LedgerView, admin: Address, proposal_id: u64, owner: Address)
    requires
        s.wf(),
        s.reject(admin, proposal_id, owner) is Ok,
    ensures
        s.reject(admin, proposal_id, owner)->Ok_0.reject(admin, proposal_id, owner) == s.reject(
            admin,
            proposal_id,
            owner,
        ),
{
    let t = s.reject(admin, proposal_id, owner)->Ok_0;
    let i = s.proposal_index(owner, proposal_id);
    assert(s.proposals[i].owner == owner && s.proposals[i].id == proposal_id);
    crate::ledger::lemma_with_proposal_wf(s, i, t.proposals[i]);
    crate::ledger::lemma_proposal_index(t, i);
    assert(t.with_proposal(i, t.proposals[i]).proposals =~= t.proposals);
}

/// Handing over a slot that no admin holds fails as unauthorized, so the registry stays as it
/// was.
pub proof fn lemma_transfer_unknown_admin(
    config: Config,
    caller: Address,
    old_admin: Address,
    new_admin: Address,
)
    requires
        !is_admin(config, old_admin),
    ensures
        transfer_admin_outcome(config, caller, old_admin, new_admin) == Err::<
            Seq<Address>,
            ErrorCode,
        >(ErrorCode::Unauthorized),
{
}

} // verus!
