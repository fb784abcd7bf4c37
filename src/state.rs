use vstd::prelude::*;

verus! {

/// Length of the voting window of a proposal, in seconds (seven days).
pub const VOTING_PERIOD: i64 = 604800;

/// Smallest requested amount, in fund units, that needs two admin approvals.
pub const MULTISIG_THRESHOLD: u64 = 1_000_000_000_000;

/// Number of admin approvals that carry a large request.
pub const REQUIRED_APPROVALS: usize = 2;

/// Most admin approvals a proposal record can hold.
pub const MAX_APPROVALS: usize = 3;

/// Smallest tally with which a proposal passes its vote.
pub const MIN_VOTES: u64 = 100;

/// Most bytes a proposal title may take.
pub const MAX_TITLE_LEN: usize = 50;

/// Most bytes a proposal description may take.
pub const MAX_DESCRIPTION_LEN: usize = 200;

/// A 32-byte identity: the key of a caller or of a record owner.
#[derive(Clone, Copy, Debug)]
pub struct Address {
    pub bytes: [u8; 32],
}

impl PartialEq for Address {
    fn eq(&self, other: &Address) -> (r: bool) {
        let mut i: usize = 0;
        while i < 32
            invariant
                0 <= i <= 32,
                forall|j: int| 0 <= j < i ==> self.bytes@[j] == other.bytes@[j],
            decreases 32 - i,
        {
            if self.bytes[i] != other.bytes[i] {
                return false;
            }
            i = i + 1;
        }
        proof {
            broadcast use vstd::array::group_array_axioms;

            assert(self.bytes@ =~= other.bytes@);
            assert(self.bytes == other.bytes);
        }
        true
    }
}

impl vstd::std_specs::cmp::PartialEqSpecImpl for Address {
    open spec fn obeys_eq_spec() -> bool {
        true
    }

    open spec fn eq_spec(&self, other: &Address) -> bool {
        self == other
    }
}

impl Eq for Address {}

/// The administrator registry: exactly three slots.
#[derive(Clone, Copy, Debug)]
pub struct Config {
    pub admins: [Address; 3],
}

/// Lifecycle state of a proposal.
#[derive(Clone, Copy, Debug, PartialEq, Eq, Structural)]
pub enum ProposalStatus {
    Pending,
    Finalized,
    Approved,
    Rejected,
    Claimed,
}

/// A funding proposal.
#[derive(Clone, Debug)]
pub struct Proposal {
    /// The owner's proposal counter when the proposal was created.
    pub id: u64,
    pub owner: Address,
    pub title: String,
    pub description: String,
    pub amount_requested: u64,
    pub status: ProposalStatus,
    pub created_at: i64,
    /// Sum of the weights of the votes cast on this proposal.
    pub vote_count: u64,
    /// Admins who approved a large request, each at most once.
    pub funding_approvals: Vec<Address>,
    /// Time of finalization; zero until then.
    pub finalized_at: i64,
}

/// The mathematical value of a proposal.
pub struct ProposalView {
    pub id: u64,
    pub owner: Address,
    pub title: Seq<char>,
    pub description: Seq<char>,
    pub amount_requested: u64,
    pub status: ProposalStatus,
    pub created_at: i64,
    pub vote_count: u64,
    pub funding_approvals: Seq<Address>,
    pub finalized_at: i64,
}

impl View for Proposal {
    type V = ProposalView;

    open spec fn view(&self) -> ProposalView {
        ProposalView {
            id: self.id,
            owner: self.owner,
            title: self.title@,
            description: self.description@,
            amount_requested: self.amount_requested,
            status: self.status,
            created_at: self.created_at,
            vote_count: self.vote_count,
            funding_approvals: self.funding_approvals@,
            finalized_at: self.finalized_at,
        }
    }
}

/// Per-identity bookkeeping: how many proposals the identity has created.
#[derive(Clone, Copy, Debug)]
pub struct UserProfile {
    pub proposal_count: u64,
}

/// One cast vote: when it was cast and with what weight.
#[derive(Clone, Copy, Debug)]
pub struct VoteAccount {
    pub timestamp: i64,
    pub token_weight: u64,
}

/// Aggregate accounting of the pooled funds.
#[derive(Clone, Copy, Debug)]
pub struct Vault {
    pub total_deposited: u64,
    pub total_claimed: u64,
}

/// Number of bytes that a text takes when stored.
pub open spec fn text_len(s: Seq<char>) -> nat {
    vstd::utf8::encode_utf8(s).len()
}

/// Whether `a` holds one of the admin slots of `config`.
pub open spec fn is_admin(config: Config, a: Address) -> bool {
    config.admins@.contains(a)
}

/// Whether a vote cast at `now` on a proposal created at `created_at` falls in the window.
pub open spec fn voting_open(created_at: i64, now: i64) -> bool {
    now - created_at < VOTING_PERIOD
}

/// Whether `x` occurs in `s`.
pub fn contains_address(s: &[Address], x: Address) -> (r: bool)
    ensures
        r == s@.contains(x),
{
    let mut i: usize = 0;
    while i < s.len()
        invariant
            0 <= i <= s@.len(),
            forall|j: int| 0 <= j < i ==> s@[j] != x,
        decreases s@.len() - i,
    {
        if s[i] == x {
            return true;
        }
        i = i + 1;
    }
    false
}

} // verus!
