use vstd::prelude::*;

use crate::errors::ErrorCode;
use crate::state::{
    contains_address, is_admin, text_len, voting_open, Address, Config, Proposal, ProposalStatus,
    ProposalView, UserProfile, VoteAccount, MAX_APPROVALS, MAX_DESCRIPTION_LEN, MAX_TITLE_LEN,
    MULTISIG_THRESHOLD, REQUIRED_APPROVALS, VOTING_PERIOD,
};

verus! {

/// Which error, if any, refuses a title and a description.
pub open spec fn text_error(title: Seq<char>, description: Seq<char>) -> Option<ErrorCode> {
    if text_len(title) > MAX_TITLE_LEN {
        Some(ErrorCode::TitleTooLong)
    } else if text_len(description) > MAX_DESCRIPTION_LEN {
        Some(ErrorCode::DescriptionTooLong)
    } else {
        None
    }
}

/// The proposal that `create_proposal` makes, or the error.
pub open spec fn create_proposal_outcome(
    profile: UserProfile,
    user: Address,
    title: Seq<char>,
    description: Seq<char>,
    amount_requested: u64,
    now: i64,
) -> Result<ProposalView, ErrorCode> {
    if let Some(e) = text_error(title, description) {
        Err(e)
    } else if profile.proposal_count == u64::MAX {
        Err(ErrorCode::ArithmeticOverflow)
    } else {
        Ok(
            ProposalView {
                id: profile.proposal_count,
                owner: user,
                title,
                description,
                amount_requested,
                status: ProposalStatus::Pending,
                created_at: now,
                vote_count: 0,
                funding_approvals: Seq::empty(),
                finalized_at: 0,
            },
        )
    }
}

/// What `update_proposal` makes of a proposal, or the error.
pub open spec fn update_proposal_outcome(
    p: ProposalView,
    caller: Address,
    new_title: Seq<char>,
    new_description: Seq<char>,
) -> Result<ProposalView, ErrorCode> {
    if caller != p.owner {
        Err(ErrorCode::Unauthorized)
    } else if let Some(e) = text_error(new_title, new_description) {
        Err(e)
    } else {
        Ok(ProposalView { title: new_title, description: new_description, ..p })
    }
}

/// What `vote_on_proposal` makes of a proposal, or the error.
pub open spec fn vote_outcome(p: ProposalView, token_weight: u64, now: i64) -> Result<
    ProposalView,
    ErrorCode,
> {
    if !voting_open(p.created_at, now) {
        Err(ErrorCode::VotingExpired)
    } else if p.vote_count + token_weight > u64::MAX {
        Err(ErrorCode::ArithmeticOverflow)
    } else {
        Ok(ProposalView { vote_count: (p.vote_count + token_weight) as u64, ..p })
    }
}

/// What `reject_proposal` makes of a proposal, or the error.
pub open spec fn reject_outcome(
    p: ProposalView,
    config: Config,
    admin: Address,
    owner: Address,
) -> Result<ProposalView, ErrorCode> {
    if owner != p.owner || !is_admin(config, admin) {
        Err(ErrorCode::Unauthorized)
    } else {
        Ok(ProposalView { status: ProposalStatus::Rejected, ..p })
    }
}

/// What `approve_funding` makes of a proposal, or the error.
pub open spec fn approve_outcome(p: ProposalView, config: Config, admin: Address) -> Result<
    ProposalView,
    ErrorCode,
> {
    if !is_admin(config, admin) {
        Err(ErrorCode::Unauthorized)
    } else if p.amount_requested < MULTISIG_THRESHOLD {
        Ok(ProposalView { status: ProposalStatus::Approved, ..p })
    } else if p.funding_approvals.contains(admin) {
        Err(ErrorCode::AlreadyApproved)
    } else if p.funding_approvals.len() >= MAX_APPROVALS {
        Err(ErrorCode::TooManyApprovals)
    } else {
        let approvals = p.funding_approvals.push(admin);
        Ok(
            ProposalView {
                funding_approvals: approvals,
                status: if approvals.len() >= REQUIRED_APPROVALS {
                    ProposalStatus::Approved
                } else {
                    p.status
                },
                ..p
            },
        )
    }
}

/// Creates the profile of a new identity, with no proposals yet.
pub fn initialize_user() -> (profile: UserProfile)
    ensures
        profile.proposal_count == 0,
{
    UserProfile { proposal_count: 0 }
}

fn check_text(title: &String, description: &String) -> (r: Result<(), ErrorCode>)
    ensures
        match text_error(title@, description@) {
            Some(e) => r == Err::<(), ErrorCode>(e),
            None => r is Ok,
        },
{
    if title.as_str().as_bytes().len() > MAX_TITLE_LEN {
        return Err(ErrorCode::TitleTooLong);
    }
    if description.as_str().as_bytes().len() > MAX_DESCRIPTION_LEN {
        return Err(ErrorCode::DescriptionTooLong);
    }
    Ok(())
}

/// Creates a pending proposal of `user`, numbered by the profile's counter, which goes up by one.
pub fn create_proposal(
    profile: &mut UserProfile,
    user: Address,
    title: String,
    description: String,
    amount_requested: u64,
    now: i64,
) -> (r: Result<Proposal, ErrorCode>)
    ensures
        match create_proposal_outcome(
            *old(profile),
            user,
            title@,
            description@,
            amount_requested,
            now,
        ) {
            Ok(p) => r is Ok && r->Ok_0@ == p && final(profile).proposal_count
                == old(profile).proposal_count + 1,
            Err(e) => r == Err::<Proposal, ErrorCode>(e) && *final(profile) == *old(profile),
        },
{
    check_text(&title, &description)?;
    if profile.proposal_count == u64::MAX {
        return Err(ErrorCode::ArithmeticOverflow);
    }
    let proposal = Proposal {
        id: profile.proposal_count,
        owner: user,
        title,
        description,
        amount_requested,
        status: ProposalStatus::Pending,
        created_at: now,
        vote_count: 0,
        funding_approvals: Vec::new(),
        finalized_at: 0,
    };
    profile.proposal_count = profile.proposal_count + 1;
    proof {
        assert(proposal@.funding_approvals =~= Seq::<Address>::empty());
    }
    Ok(proposal)
}

/// Overwrites the title and the description. Only the owner may do so, in any state.
pub fn update_proposal(
    proposal: &mut Proposal,
    caller: Address,
    new_title: String,
    new_description: String,
) -> (r: Result<(), ErrorCode>)
    ensures
        match update_proposal_outcome(old(proposal)@, caller, new_title@, new_description@) {
            Ok(p) => r is Ok && final(proposal)@ == p,
            Err(e) => r == Err::<(), ErrorCode>(e) && *final(proposal) == *old(proposal),
        },
{
    if caller != proposal.owner {
        return Err(ErrorCode::Unauthorized);
    }
    check_text(&new_title, &new_description)?;
    proposal.title = new_title;
    proposal.description = new_description;
    Ok(())
}

/// Adds `token_weight` to the tally while the voting window is open, and returns the vote cast.
pub fn vote_on_proposal(proposal: &mut Proposal, token_weight: u64, now: i64) -> (r: Result<
    VoteAccount,
    ErrorCode,
>)
    ensures
        match vote_outcome(old(proposal)@, token_weight, now) {
            Ok(p) => r == Ok::<VoteAccount, ErrorCode>(
                VoteAccount { timestamp: now, token_weight },
            ) && final(proposal)@ == p,
            Err(e) => r == Err::<VoteAccount, ErrorCode>(e) && *final(proposal) == *old(proposal),
        },
{
    if (now as i128) - (proposal.created_at as i128) >= VOTING_PERIOD as i128 {
        return Err(ErrorCode::VotingExpired);
    }
    if token_weight > u64::MAX - proposal.vote_count {
        return Err(ErrorCode::ArithmeticOverflow);
    }
    proposal.vote_count = proposal.vote_count + token_weight;
    Ok(VoteAccount { timestamp: now, token_weight })
}

/// Marks the proposal rejected, whatever its state. The caller must be an admin, and `owner`
/// must be the proposal's owner.
pub fn reject_proposal(
    proposal: &mut Proposal,
    config: &Config,
    admin: Address,
    owner: Address,
) -> (r: Result<(), ErrorCode>)
    ensures
        match reject_outcome(old(proposal)@, *config, admin, owner) {
            Ok(p) => r is Ok && final(proposal)@ == p,
            Err(e) => r == Err::<(), ErrorCode>(e) && *final(proposal) == *old(proposal),
        },
{
    if owner != proposal.owner {
        return Err(ErrorCode::Unauthorized);
    }
    if !contains_address(config.admins.as_slice(), admin) {
        return Err(ErrorCode::Unauthorized);
    }
    proposal.status = ProposalStatus::Rejected;
    Ok(())
}

/// Records an admin's approval. Below the threshold one approval approves the proposal; from the
/// threshold on, two distinct admins must approve.
pub fn approve_funding(proposal: &mut Proposal, config: &Config, admin: Address) -> (r: Result<
    (),
    ErrorCode,
>)
    ensures
        match approve_outcome(old(proposal)@, *config, admin) {
            Ok(p) => r is Ok && final(proposal)@ == p,
            Err(e) => r == Err::<(), ErrorCode>(e) && *final(proposal) == *old(proposal),
        },
{
    if !contains_address(config.admins.as_slice(), admin) {
        return Err(ErrorCode::Unauthorized);
    }
    if proposal.amount_requested < MULTISIG_THRESHOLD {
        proposal.status = ProposalStatus::Approved;
        return Ok(());
    }
    if contains_address(proposal.funding_approvals.as_slice(), admin) {
        return Err(ErrorCode::AlreadyApproved);
    }
    if proposal.funding_approvals.len() >= MAX_APPROVALS {
        return Err(ErrorCode::TooManyApprovals);
    }
    proposal.funding_approvals.push(admin);
    if proposal.funding_approvals.len() >= REQUIRED_APPROVALS {
        proposal.status = ProposalStatus::Approved;
    }
    Ok(())
}

} // verus!
