use vstd::prelude::*;

use crate::errors::ErrorCode;
use crate::state::{
    Address, Proposal, ProposalStatus, ProposalView, Vault, MIN_VOTES, VOTING_PERIOD,
};

verus! {

/// What `finalize_proposal` makes of a proposal, or the error.
pub open spec fn finalize_outcome(p: ProposalView, now: i64) -> Result<ProposalView, ErrorCode> {
    if now < p.created_at + VOTING_PERIOD {
        Err(ErrorCode::VotingStillActive)
    } else if p.status != ProposalStatus::Pending {
        Err(ErrorCode::AlreadyFinalized)
    } else {
        Ok(
            ProposalView {
                status: if p.vote_count >= MIN_VOTES {
                    ProposalStatus::Finalized
                } else {
                    ProposalStatus::Rejected
                },
                finalized_at: now,
                ..p
            },
        )
    }
}

/// What `deposit_to_vault` makes of the vault and of the balance it holds, or the error.
pub open spec fn deposit_outcome(vault: Vault, balance: u64, amount: u64) -> Result<
    (Vault, u64),
    ErrorCode,
> {
    if vault.total_deposited + amount > u64::MAX || balance + amount > u64::MAX {
        Err(ErrorCode::ArithmeticOverflow)
    } else {
        Ok(
            (
                Vault { total_deposited: (vault.total_deposited + amount) as u64, ..vault },
                (balance + amount) as u64,
            ),
        )
    }
}

/// What `claim_funds` makes of the proposal, the vault and the balance it holds, or the error.
pub open spec fn claim_outcome(
    p: ProposalView,
    vault: Vault,
    balance: u64,
    caller: Address,
) -> Result<(ProposalView, Vault, u64), ErrorCode> {
    if caller != p.owner {
        Err(ErrorCode::Unauthorized)
    } else if p.status != ProposalStatus::Finalized {
        Err(ErrorCode::NotApproved)
    } else if balance < p.amount_requested {
        Err(ErrorCode::InsufficientVaultBalance)
    } else if vault.total_claimed + p.amount_requested > u64::MAX {
        Err(ErrorCode::ArithmeticOverflow)
    } else {
        Ok(
            (
                ProposalView { status: ProposalStatus::Claimed, ..p },
                Vault { total_claimed: (vault.total_claimed + p.amount_requested) as u64, ..vault },
                (balance - p.amount_requested) as u64,
            ),
        )
    }
}

/// Creates the vault with both counters at zero.
pub fn initialize_vault() -> (vault: Vault)
    ensures
        vault.total_deposited == 0,
        vault.total_claimed == 0,
{
    Vault { total_deposited: 0, total_claimed: 0 }
}

/// Closes the vote once the window has passed: a tally of at least the minimum finalizes the
/// proposal, a smaller one rejects it. Anyone may call it.
pub fn finalize_proposal(proposal: &mut Proposal, now: i64) -> (r: Result<(), ErrorCode>)
    ensures
        match finalize_outcome(old(proposal)@, now) {
            Ok(p) => r is Ok && final(proposal)@ == p,
            Err(e) => r == Err::<(), ErrorCode>(e) && *final(proposal) == *old(proposal),
        },
{
    if (now as i128) < (proposal.created_at as i128) + (VOTING_PERIOD as i128) {
        return Err(ErrorCode::VotingStillActive);
    }
    if proposal.status != ProposalStatus::Pending {
        return Err(ErrorCode::AlreadyFinalized);
    }
    if proposal.vote_count >= MIN_VOTES {
        proposal.status = ProposalStatus::Finalized;
    } else {
        proposal.status = ProposalStatus::Rejected;
    }
    proposal.finalized_at = now;
    Ok(())
}

/// Takes `amount` into custody: the held balance and the deposit counter both grow by it.
pub fn deposit_to_vault(vault: &mut Vault, vault_balance: &mut u64, amount: u64) -> (r: Result<
    (),
    ErrorCode,
>)
    ensures
        match deposit_outcome(*old(vault), *old(vault_balance), amount) {
            Ok((v, b)) => r is Ok && *final(vault) == v && *final(vault_balance) == b,
            Err(e) => r == Err::<(), ErrorCode>(e) && *final(vault) == *old(vault)
                && *final(vault_balance) == *old(vault_balance),
        },
{
    if amount > u64::MAX - vault.total_deposited || amount > u64::MAX - *vault_balance {
        return Err(ErrorCode::ArithmeticOverflow);
    }
    *vault_balance = *vault_balance + amount;
    vault.total_deposited = vault.total_deposited + amount;
    Ok(())
}

/// Pays the requested amount of a finalized proposal to its owner out of the vault's balance,
/// and marks the proposal claimed.
pub fn claim_funds(
    proposal: &mut Proposal,
    vault: &mut Vault,
    vault_balance: &mut u64,
    caller: Address,
) -> (r: Result<(), ErrorCode>)
    ensures
        match claim_outcome(old(proposal)@, *old(vault), *old(vault_balance), caller) {
            Ok((p, v, b)) => r is Ok && final(proposal)@ == p && *final(vault) == v
                && *final(vault_balance) == b,
            Err(e) => r == Err::<(), ErrorCode>(e) && *final(proposal) == *old(proposal)
                && *final(vault) == *old(vault) && *final(vault_balance) == *old(vault_balance),
        },
{
    if caller != proposal.owner {
        return Err(ErrorCode::Unauthorized);
    }
    if proposal.status != ProposalStatus::Finalized {
        return Err(ErrorCode::NotApproved);
    }
    if *vault_balance < proposal.amount_requested {
        return Err(ErrorCode::InsufficientVaultBalance);
    }
    if proposal.amount_requested > u64::MAX - vault.total_claimed {
        return Err(ErrorCode::ArithmeticOverflow);
    }
    *vault_balance = *vault_balance - proposal.amount_requested;
    vault.total_claimed = vault.total_claimed + proposal.amount_requested;
    proposal.status = ProposalStatus::Claimed;
    Ok(())
}

} // verus!
