use vstd::prelude::*;

use crate::admin::{initialize_admin, transfer_admin, transfer_admin_outcome};
use crate::errors::ErrorCode;
use crate::proposal::{
    approve_funding, approve_outcome, create_proposal, create_proposal_outcome, initialize_user,
    reject_outcome, reject_proposal, update_proposal, update_proposal_outcome, vote_on_proposal,
    vote_outcome,
};
use crate::state::{Address, Config, Proposal, ProposalView, UserProfile, Vault, VoteAccount};
use crate::vault::{
    claim_funds, claim_outcome, deposit_outcome, deposit_to_vault, finalize_outcome,
    finalize_proposal, initialize_vault,
};

verus! {

/// A cast vote together with the seeds of its address: the voter and the proposal voted on.
#[derive(Clone, Copy, Debug)]
pub struct VoteRecord {
    pub voter: Address,
    pub owner: Address,
    pub proposal_id: u64,
    pub vote: VoteAccount,
}

/// Every record of the fund, each at the address its seeds derive. At most one record exists
/// for each seed tuple: the registry and the vault are singletons, a profile is keyed by its
/// owner, a proposal by its owner and number, a vote by its voter and the proposal's key.
/// Its operations keep it well formed (`wf` of its view), and ask for that on entry.
pub struct Ledger {
    pub config: Option<Config>,
    pub vault: Option<Vault>,
    /// Funds the vault holds.
    pub vault_balance: u64,
    pub profiles: Vec<(Address, UserProfile)>,
    pub proposals: Vec<Proposal>,
    pub votes: Vec<VoteRecord>,
}

/// The mathematical value of a ledger.
pub struct LedgerView {
    pub config: Option<Config>,
    pub vault: Option<Vault>,
    pub vault_balance: u64,
    pub profiles: Seq<(Address, UserProfile)>,
    pub proposals: Seq<ProposalView>,
    pub votes: Seq<VoteRecord>,
}

impl View for Ledger {
    type V = LedgerView;

    open spec fn view(&self) -> LedgerView {
        LedgerView {
            config: self.config,
            vault: self.vault,
            vault_balance: self.vault_balance,
            profiles: self.profiles@,
            proposals: self.proposals@.map_values(|p: Proposal| p@),
            votes: self.votes@,
        }
    }
}

/// Sum of the weights of the votes in `votes` cast on the proposal `(owner, id)`.
pub open spec fn tally(votes: Seq<VoteRecord>, owner: Address, id: u64) -> int
    decreases votes.len(),
{
    if votes.len() == 0 {
        0
    } else {
        let v = votes.last();
        tally(votes.drop_last(), owner, id) + if v.owner == owner && v.proposal_id == id {
            v.vote.token_weight as int
        } else {
            0
        }
    }
}

impl LedgerView {
    /// Whether a profile of `user` exists.
    pub open spec fn has_profile(self, user: Address) -> bool {
        exists|k: int| 0 <= k < self.profiles.len() && self.profiles[k].0 == user
    }

    /// Position of the profile of `user`, where there is one.
    pub open spec fn profile_index(self, user: Address) -> int {
        choose|k: int| 0 <= k < self.profiles.len() && self.profiles[k].0 == user
    }

    /// Whether the proposal `(owner, id)` exists.
    pub open spec fn has_proposal(self, owner: Address, id: u64) -> bool {
        exists|i: int|
            0 <= i < self.proposals.len() && self.proposals[i].owner == owner
                && self.proposals[i].id == id
    }

    /// Position of the proposal `(owner, id)`, where there is one.
    pub open spec fn proposal_index(self, owner: Address, id: u64) -> int {
        choose|i: int|
            0 <= i < self.proposals.len() && self.proposals[i].owner == owner
                && self.proposals[i].id == id
    }

    /// Whether `voter` has a vote record on the proposal `(owner, id)`.
    pub open spec fn has_vote(self, voter: Address, owner: Address, id: u64) -> bool {
        exists|j: int|
            0 <= j < self.votes.len() && self.votes[j].voter == voter && self.votes[j].owner
                == owner && self.votes[j].proposal_id == id
    }

    /// At most one record per seed tuple; every proposal has an owner with a profile whose
    /// counter is past the proposal's number; every vote names an existing proposal; each tally
    /// is the sum of the votes on it; the vault holds exactly what was deposited and not claimed.
    pub open spec fn wf(self) -> bool {
        &&& forall|k1: int, k2: int|
            0 <= k1 < self.profiles.len() && 0 <= k2 < self.profiles.len() && k1 != k2
                ==> #[trigger] self.profiles[k1].0 != #[trigger] self.profiles[k2].0
        &&& forall|i1: int, i2: int|
            0 <= i1 < self.proposals.len() && 0 <= i2 < self.proposals.len() && i1 != i2 ==> (
            #[trigger] self.proposals[i1].owner != #[trigger] self.proposals[i2].owner
                || self.proposals[i1].id != self.proposals[i2].id)
        &&& forall|j1: int, j2: int|
            0 <= j1 < self.votes.len() && 0 <= j2 < self.votes.len() && j1 != j2 ==> (
            #[trigger] self.votes[j1].voter != #[trigger] self.votes[j2].voter
                || self.votes[j1].owner != self.votes[j2].owner || self.votes[j1].proposal_id
                != self.votes[j2].proposal_id)
        &&& forall|i: int|
            0 <= i < self.proposals.len() ==> self.has_profile(#[trigger] self.proposals[i].owner)
        &&& forall|i: int, k: int|
            #![trigger self.proposals[i], self.profiles[k]]
            0 <= i < self.proposals.len() && 0 <= k < self.profiles.len()
                && self.profiles[k].0 == self.proposals[i].owner ==> self.proposals[i].id
                < self.profiles[k].1.proposal_count
        &&& forall|j: int|
            0 <= j < self.votes.len() ==> self.has_proposal(
                #[trigger] self.votes[j].owner,
                self.votes[j].proposal_id,
            )
        &&& forall|i: int|
            0 <= i < self.proposals.len() ==> #[trigger] self.proposals[i].vote_count == tally(
                self.votes,
                self.proposals[i].owner,
                self.proposals[i].id,
            )
        &&& self.vault_ok()
    }

    /// The vault holds exactly what was deposited and not claimed.
    pub open spec fn vault_ok(self) -> bool {
        match self.vault {
            None => self.vault_balance == 0,
            Some(v) => v.total_claimed <= v.total_deposited && self.vault_balance
                == v.total_deposited - v.total_claimed,
        }
    }
}

impl LedgerView {
    /// The ledger after a vote of `voter` with `token_weight` at `now` on the proposal
    /// `(owner, proposal_id)`, or the error.
    pub open spec fn vote(
        self,
        voter: Address,
        proposal_id: u64,
        owner: Address,
        token_weight: u64,
        now: i64,
    ) -> Result<LedgerView, ErrorCode> {
        if !self.has_proposal(owner, proposal_id) {
            Err(ErrorCode::AccountNotFound)
        } else if self.has_vote(voter, owner, proposal_id) {
            Err(ErrorCode::AccountAlreadyExists)
        } else {
            let i = self.proposal_index(owner, proposal_id);
            match vote_outcome(self.proposals[i], token_weight, now) {
                Ok(p) => Ok(
                    LedgerView {
                        proposals: self.proposals.update(i, p),
                        votes: self.votes.push(
                            VoteRecord {
                                voter,
                                owner,
                                proposal_id,
                                vote: VoteAccount { timestamp: now, token_weight },
                            },
                        ),
                        ..self
                    },
                ),
                Err(e) => Err(e),
            }
        }
    }

    /// This ledger with the proposal at position `i` replaced by `p`.
    pub open spec fn with_proposal(self, i: int, p: ProposalView) -> LedgerView {
        LedgerView { proposals: self.proposals.update(i, p), ..self }
    }

    /// The ledger after an operation on the proposal at position `i` ends in `outcome`.
    pub open spec fn apply(self, i: int, outcome: Result<ProposalView, ErrorCode>) -> Result<
        LedgerView,
        ErrorCode,
    > {
        match outcome {
            Ok(p) => Ok(self.with_proposal(i, p)),
            Err(e) => Err(e),
        }
    }

    /// The ledger after `user` opens a profile, or the error.
    pub open spec fn open_profile(self, user: Address) -> Result<LedgerView, ErrorCode> {
        if self.has_profile(user) {
            Err(ErrorCode::AccountAlreadyExists)
        } else {
            Ok(
                LedgerView {
                    profiles: self.profiles.push((user, UserProfile { proposal_count: 0 })),
                    ..self
                },
            )
        }
    }

    /// The ledger after `user` creates a proposal, or the error.
    pub open spec fn create(
        self,
        user: Address,
        title: Seq<char>,
        description: Seq<char>,
        amount_requested: u64,
        now: i64,
    ) -> Result<LedgerView, ErrorCode> {
        if !self.has_profile(user) {
            Err(ErrorCode::AccountNotFound)
        } else {
            let k = self.profile_index(user);
            let profile = self.profiles[k].1;
            if self.has_proposal(user, profile.proposal_count) {
                Err(ErrorCode::AccountAlreadyExists)
            } else {
                match create_proposal_outcome(
                    profile,
                    user,
                    title,
                    description,
                    amount_requested,
                    now,
                ) {
                    Ok(p) => Ok(
                        LedgerView {
                            profiles: self.profiles.update(
                                k,
                                (
                                    user,
                                    UserProfile {
                                        proposal_count: (profile.proposal_count + 1) as u64,
                                    },
                                ),
                            ),
                            proposals: self.proposals.push(p),
                            ..self
                        },
                    ),
                    Err(e) => Err(e),
                }
            }
        }
    }

    /// The ledger after the owner `caller` edits the proposal `(caller, proposal_id)`, or the
    /// error.
    pub open spec fn update(
        self,
        caller: Address,
        proposal_id: u64,
        new_title: Seq<char>,
        new_description: Seq<char>,
    ) -> Result<LedgerView, ErrorCode> {
        if !self.has_proposal(caller, proposal_id) {
            Err(ErrorCode::AccountNotFound)
        } else {
            let i = self.proposal_index(caller, proposal_id);
            self.apply(
                i,
                update_proposal_outcome(self.proposals[i], caller, new_title, new_description),
            )
        }
    }

    /// The ledger after `admin` rejects the proposal `(owner, proposal_id)`, or the error.
    pub open spec fn reject(self, admin: Address, proposal_id: u64, owner: Address) -> Result<
        LedgerView,
        ErrorCode,
    > {
        if self.config is None || !self.has_proposal(owner, proposal_id) {
            Err(ErrorCode::AccountNotFound)
        } else {
            let i = self.proposal_index(owner, proposal_id);
            self.apply(i, reject_outcome(self.proposals[i], self.config->Some_0, admin, owner))
        }
    }

    /// The ledger after `admin` approves the funding of the proposal `(owner, proposal_id)`, or
    /// the error.
    pub open spec fn approve(self, admin: Address, proposal_id: u64, owner: Address) -> Result<
        LedgerView,
        ErrorCode,
    > {
        if self.config is None || !self.has_proposal(owner, proposal_id) {
            Err(ErrorCode::AccountNotFound)
        } else {
            let i = self.proposal_index(owner, proposal_id);
            self.apply(i, approve_outcome(self.proposals[i], self.config->Some_0, admin))
        }
    }

    /// The ledger after the proposal `(owner, proposal_id)` is finalized at `now`, or the error.
    pub open spec fn finalize(self, proposal_id: u64, owner: Address, now: i64) -> Result<
        LedgerView,
        ErrorCode,
    > {
        if !self.has_proposal(owner, proposal_id) {
            Err(ErrorCode::AccountNotFound)
        } else {
            let i = self.proposal_index(owner, proposal_id);
            self.apply(i, finalize_outcome(self.proposals[i], now))
        }
    }

    /// The ledger after the vault is opened, or the error.
    pub open spec fn open_vault(self) -> Result<LedgerView, ErrorCode> {
        if self.vault is Some {
            Err(ErrorCode::AccountAlreadyExists)
        } else {
            Ok(LedgerView { vault: Some(Vault { total_deposited: 0, total_claimed: 0 }), ..self })
        }
    }

    /// The ledger after `amount` is deposited, or the error.
    pub open spec fn deposit(self, amount: u64) -> Result<LedgerView, ErrorCode> {
        match self.vault {
            None => Err(ErrorCode::AccountNotFound),
            Some(v) => match deposit_outcome(v, self.vault_balance, amount) {
                Ok((v2, b2)) => Ok(LedgerView { vault: Some(v2), vault_balance: b2, ..self }),
                Err(e) => Err(e),
            },
        }
    }

    /// The ledger after the owner `caller` claims the funds of the proposal
    /// `(caller, proposal_id)`, or the error.
    pub open spec fn claim(self, caller: Address, proposal_id: u64) -> Result<
        LedgerView,
        ErrorCode,
    > {
        if !self.has_proposal(caller, proposal_id) || self.vault is None {
            Err(ErrorCode::AccountNotFound)
        } else {
            let i = self.proposal_index(caller, proposal_id);
            match claim_outcome(self.proposals[i], self.vault->Some_0, self.vault_balance, caller) {
                Ok((p, v2, b2)) => Ok(
                    LedgerView {
                        vault: Some(v2),
                        vault_balance: b2,
                        ..self.with_proposal(i, p)
                    },
                ),
                Err(e) => Err(e),
            }
        }
    }
}

/// Where `t` keeps the profiles of `s`, and every proposal key in place, the profile part of the
/// well-formedness of `s` carries over to `t`.
proof fn lemma_profiles_kept(s: LedgerView, t: LedgerView)
    requires
        s.wf(),
        t.profiles == s.profiles,
        t.proposals.len() == s.proposals.len(),
        forall|i: int|
            #![trigger t.proposals[i]]
            0 <= i < s.proposals.len() ==> t.proposals[i].owner == s.proposals[i].owner
                && t.proposals[i].id == s.proposals[i].id,
    ensures
        forall|i: int|
            0 <= i < t.proposals.len() ==> t.has_profile(#[trigger] t.proposals[i].owner),
        forall|i: int, k: int|
            #![trigger t.proposals[i], t.profiles[k]]
            0 <= i < t.proposals.len() && 0 <= k < t.profiles.len() && t.profiles[k].0
                == t.proposals[i].owner ==> t.proposals[i].id < t.profiles[k].1.proposal_count,
{
    assert forall|i: int| 0 <= i < t.proposals.len() implies t.has_profile(
        #[trigger] t.proposals[i].owner,
    ) by {
        assert(s.has_profile(s.proposals[i].owner));
        let k = s.profile_index(s.proposals[i].owner);
        assert(t.profiles[k].0 == t.proposals[i].owner);
    }
    assert forall|i: int, k: int|
        #![trigger t.proposals[i], t.profiles[k]]
        0 <= i < t.proposals.len() && 0 <= k < t.profiles.len() && t.profiles[k].0
            == t.proposals[i].owner implies t.proposals[i].id < t.profiles[k].1.proposal_count by {
        assert(s.proposals[i].id < s.profiles[k].1.proposal_count);
    }
}

/// Changing the registry alone keeps the ledger well formed.
proof fn lemma_config_wf(s: LedgerView, t: LedgerView)
    requires
        s.wf(),
        t == (LedgerView { config: t.config, ..s }),
    ensures
        t.wf(),
{
    lemma_profiles_kept(s, t);
    lemma_keys_kept(s, t);
    assert forall|j: int| 0 <= j < t.votes.len() implies t.has_proposal(
        #[trigger] t.votes[j].owner,
        t.votes[j].proposal_id,
    ) by {
        assert(s.has_proposal(s.votes[j].owner, s.votes[j].proposal_id));
    }
}

/// Adding a vote raises the tally of the proposal it names by its weight, and no other.
pub proof fn lemma_tally_push(votes: Seq<VoteRecord>, v: VoteRecord, owner: Address, id: u64)
    ensures
        tally(votes.push(v), owner, id) == tally(votes, owner, id) + if v.owner == owner
            && v.proposal_id == id {
            v.vote.token_weight as int
        } else {
            0
        },
{
    assert(votes.push(v).drop_last() =~= votes);
}

/// In a well-formed ledger the proposal at position `i` is the one found under its own key.
pub proof fn lemma_proposal_index(s: LedgerView, i: int)
    requires
        s.wf(),
        0 <= i < s.proposals.len(),
    ensures
        s.has_proposal(s.proposals[i].owner, s.proposals[i].id),
        s.proposal_index(s.proposals[i].owner, s.proposals[i].id) == i,
{
    let owner = s.proposals[i].owner;
    let id = s.proposals[i].id;
    assert(s.has_proposal(owner, id));
    let c = s.proposal_index(owner, id);
    assert(s.proposals[c].owner == owner && s.proposals[c].id == id);
}

/// A vote keeps the ledger well formed.
proof fn lemma_vote_wf(
    s: LedgerView,
    voter: Address,
    proposal_id: u64,
    owner: Address,
    token_weight: u64,
    now: i64,
)
    requires
        s.wf(),
        s.vote(voter, proposal_id, owner, token_weight, now) is Ok,
    ensures
        s.vote(voter, proposal_id, owner, token_weight, now)->Ok_0.wf(),
{
    let t = s.vote(voter, proposal_id, owner, token_weight, now)->Ok_0;
    let i = s.proposal_index(owner, proposal_id);
    let v = t.votes.last();
    assert(t.votes == s.votes.push(v));
    lemma_keys_kept(s, t);
    lemma_profiles_kept(s, t);
    assert(t.has_proposal(owner, proposal_id)) by {
        assert(t.proposals[i].owner == owner && t.proposals[i].id == proposal_id);
    }
    assert forall|j: int| 0 <= j < t.votes.len() implies t.has_proposal(
        #[trigger] t.votes[j].owner,
        t.votes[j].proposal_id,
    ) by {
        if j < s.votes.len() {
            assert(s.has_proposal(s.votes[j].owner, s.votes[j].proposal_id));
        }
    }
    assert forall|i2: int| 0 <= i2 < t.proposals.len() implies #[trigger] t.proposals[i2].vote_count
        == tally(t.votes, t.proposals[i2].owner, t.proposals[i2].id) by {
        lemma_tally_push(s.votes, v, t.proposals[i2].owner, t.proposals[i2].id);
    }
    assert forall|j1: int, j2: int|
        0 <= j1 < t.votes.len() && 0 <= j2 < t.votes.len() && j1 != j2 implies (
        #[trigger] t.votes[j1].voter != #[trigger] t.votes[j2].voter || t.votes[j1].owner
            != t.votes[j2].owner || t.votes[j1].proposal_id != t.votes[j2].proposal_id) by {
        if j1 == s.votes.len() {
            assert(!(s.votes[j2].voter == voter && s.votes[j2].owner == owner
                && s.votes[j2].proposal_id == proposal_id));
        } else if j2 == s.votes.len() {
            assert(!(s.votes[j1].voter == voter && s.votes[j1].owner == owner
                && s.votes[j1].proposal_id == proposal_id));
        }
    }
}

/// Where `t` keeps every proposal key of `s` in place, every proposal of `s` is still found.
proof fn lemma_keys_kept(s: LedgerView, t: LedgerView)
    requires
        s.proposals.len() <= t.proposals.len(),
        forall|i: int|
            #![trigger t.proposals[i]]
            0 <= i < s.proposals.len() ==> t.proposals[i].owner == s.proposals[i].owner
                && t.proposals[i].id == s.proposals[i].id,
    ensures
        forall|owner: Address, id: u64| s.has_proposal(owner, id) ==> t.has_proposal(owner, id),
{
    assert forall|owner: Address, id: u64| s.has_proposal(owner, id) implies t.has_proposal(
        owner,
        id,
    ) by {
        let i = s.proposal_index(owner, id);
        assert(s.proposals[i].owner == owner && s.proposals[i].id == id);
        assert(t.proposals[i].owner == owner && t.proposals[i].id == id);
    }
}

/// A proposal that no vote names has a tally of zero.
proof fn lemma_tally_zero(votes: Seq<VoteRecord>, owner: Address, id: u64)
    requires
        forall|j: int|
            0 <= j < votes.len() ==> !(#[trigger] votes[j].owner == owner && votes[j].proposal_id
                == id),
    ensures
        tally(votes, owner, id) == 0,
    decreases votes.len(),
{
    if votes.len() > 0 {
        let rest = votes.drop_last();
        assert forall|j: int|
            0 <= j < rest.len() implies !(#[trigger] rest[j].owner == owner && rest[j].proposal_id
            == id) by {
            assert(rest[j] == votes[j]);
        }
        lemma_tally_zero(rest, owner, id);
        assert(votes[votes.len() - 1] == votes.last());
    }
}

/// Opening a profile keeps the ledger well formed.
proof fn lemma_open_profile_wf(s: LedgerView, user: Address)
    requires
        s.wf(),
        s.open_profile(user) is Ok,
    ensures
        s.open_profile(user)->Ok_0.wf(),
{
    let t = s.open_profile(user)->Ok_0;
    let n = s.profiles.len() as int;
    lemma_keys_kept(s, t);
    assert forall|k1: int, k2: int|
        0 <= k1 < t.profiles.len() && 0 <= k2 < t.profiles.len() && k1 != k2
            implies #[trigger] t.profiles[k1].0 != #[trigger] t.profiles[k2].0 by {
        if k1 == n {
            assert(s.profiles[k2].0 != user);
        } else if k2 == n {
            assert(s.profiles[k1].0 != user);
        }
    }
    assert forall|i: int| 0 <= i < t.proposals.len() implies t.has_profile(
        #[trigger] t.proposals[i].owner,
    ) by {
        assert(s.has_profile(s.proposals[i].owner));
        let k = s.profile_index(s.proposals[i].owner);
        assert(t.profiles[k].0 == t.proposals[i].owner);
    }
    assert forall|i: int, k: int|
        #![trigger t.proposals[i], t.profiles[k]]
        0 <= i < t.proposals.len() && 0 <= k < t.profiles.len() && t.profiles[k].0
            == t.proposals[i].owner implies t.proposals[i].id < t.profiles[k].1.proposal_count by {
        if k == n {
            assert(s.has_profile(s.proposals[i].owner));
            let k2 = s.profile_index(s.proposals[i].owner);
            assert(s.profiles[k2].0 == user);
        } else {
            assert(s.proposals[i].id < s.profiles[k].1.proposal_count);
        }
    }
    assert forall|j: int| 0 <= j < t.votes.len() implies t.has_proposal(
        #[trigger] t.votes[j].owner,
        t.votes[j].proposal_id,
    ) by {
        assert(s.has_proposal(s.votes[j].owner, s.votes[j].proposal_id));
    }
}

/// Creating a proposal keeps the ledger well formed.
proof fn lemma_create_wf(
    s: LedgerView,
    user: Address,
    title: Seq<char>,
    description: Seq<char>,
    amount_requested: u64,
    now: i64,
)
    requires
        s.wf(),
        s.create(user, title, description, amount_requested, now) is Ok,
    ensures
        s.create(user, title, description, amount_requested, now)->Ok_0.wf(),
{
    let t = s.create(user, title, description, amount_requested, now)->Ok_0;
    let n = s.proposals.len() as int;
    let kk = s.profile_index(user);
    assert(s.profiles[kk].0 == user);
    lemma_keys_kept(s, t);
    assert forall|j: int| 0 <= j < t.votes.len() implies t.has_proposal(
        #[trigger] t.votes[j].owner,
        t.votes[j].proposal_id,
    ) by {
        assert(s.has_proposal(s.votes[j].owner, s.votes[j].proposal_id));
    }
    assert forall|j: int|
        0 <= j < s.votes.len() implies !(#[trigger] s.votes[j].owner == user
        && s.votes[j].proposal_id == t.proposals[n].id) by {
        assert(s.has_proposal(s.votes[j].owner, s.votes[j].proposal_id));
    }
    lemma_tally_zero(s.votes, user, t.proposals[n].id);
    assert forall|i1: int, i2: int|
        0 <= i1 < t.proposals.len() && 0 <= i2 < t.proposals.len() && i1 != i2 implies (
        #[trigger] t.proposals[i1].owner != #[trigger] t.proposals[i2].owner
            || t.proposals[i1].id != t.proposals[i2].id) by {
        if i1 == n {
            assert(!(s.proposals[i2].owner == user && s.proposals[i2].id == t.proposals[n].id));
        } else if i2 == n {
            assert(!(s.proposals[i1].owner == user && s.proposals[i1].id == t.proposals[n].id));
        }
    }
    assert forall|k1: int, k2: int|
        0 <= k1 < t.profiles.len() && 0 <= k2 < t.profiles.len() && k1 != k2
            implies #[trigger] t.profiles[k1].0 != #[trigger] t.profiles[k2].0 by {
        assert(s.profiles[k1].0 != s.profiles[k2].0);
    }
    assert forall|i: int| 0 <= i < t.proposals.len() implies t.has_profile(
        #[trigger] t.proposals[i].owner,
    ) by {
        if i == n {
            assert(t.profiles[kk].0 == user);
        } else {
            assert(s.has_profile(s.proposals[i].owner));
            let k = s.profile_index(s.proposals[i].owner);
            assert(t.profiles[k].0 == t.proposals[i].owner);
        }
    }
    assert forall|i: int, k: int|
        #![trigger t.proposals[i], t.profiles[k]]
        0 <= i < t.proposals.len() && 0 <= k < t.profiles.len() && t.profiles[k].0
            == t.proposals[i].owner implies t.proposals[i].id < t.profiles[k].1.proposal_count by {
        if i == n {
            if k != kk {
                assert(s.profiles[k].0 != s.profiles[kk].0);
            }
        } else {
            assert(s.proposals[i].id < s.profiles[k].1.proposal_count);
        }
    }
}

/// Changing the vault alone, in step with its balance, keeps the ledger well formed.
proof fn lemma_vault_wf(s: LedgerView, t: LedgerView)
    requires
        s.wf(),
        t == (LedgerView { vault: t.vault, vault_balance: t.vault_balance, ..s }),
        t.vault_ok(),
    ensures
        t.wf(),
{
    lemma_profiles_kept(s, t);
    lemma_keys_kept(s, t);
    assert forall|j: int| 0 <= j < t.votes.len() implies t.has_proposal(
        #[trigger] t.votes[j].owner,
        t.votes[j].proposal_id,
    ) by {
        assert(s.has_proposal(s.votes[j].owner, s.votes[j].proposal_id));
    }
}

/// Replacing a proposal by one with the same key and tally keeps the ledger well formed.
pub proof fn lemma_with_proposal_wf(s: LedgerView, i: int, p: ProposalView)
    requires
        s.wf(),
        0 <= i < s.proposals.len(),
        p.owner == s.proposals[i].owner,
        p.id == s.proposals[i].id,
        p.vote_count == s.proposals[i].vote_count,
    ensures
        s.with_proposal(i, p).wf(),
{
    let t = s.with_proposal(i, p);
    lemma_keys_kept(s, t);
    lemma_profiles_kept(s, t);
    assert forall|j: int| 0 <= j < t.votes.len() implies t.has_proposal(
        #[trigger] t.votes[j].owner,
        t.votes[j].proposal_id,
    ) by {
        assert(s.has_proposal(s.votes[j].owner, s.votes[j].proposal_id));
    }
}

impl Ledger {
    /// A ledger that holds no record.
    pub fn new() -> (l: Ledger)
        ensures
            l@.wf(),
            l@.config is None,
            l@.vault is None,
            l@.vault_balance == 0,
            l@.profiles.len() == 0,
            l@.proposals.len() == 0,
            l@.votes.len() == 0,
    {
        let l = Ledger {
            config: None,
            vault: None,
            vault_balance: 0,
            profiles: Vec::new(),
            proposals: Vec::new(),
            votes: Vec::new(),
        };
        proof {
            assert(l@.proposals.len() == 0);
        }
        l
    }

    fn find_profile(&self, user: Address) -> (r: Option<usize>)
        ensures
            match r {
                Some(k) => k < self.profiles@.len() && self.profiles@[k as int].0 == user,
                None => !self@.has_profile(user),
            },
    {
        let mut k: usize = 0;
        while k < self.profiles.len()
            invariant
                0 <= k <= self.profiles@.len(),
                forall|m: int| 0 <= m < k ==> self.profiles@[m].0 != user,
            decreases self.profiles@.len() - k,
        {
            if self.profiles[k].0 == user {
                return Some(k);
            }
            k = k + 1;
        }
        None
    }

    fn find_proposal(&self, owner: Address, id: u64) -> (r: Option<usize>)
        ensures
            match r {
                Some(i) => i < self.proposals@.len() && self.proposals@[i as int].owner == owner
                    && self.proposals@[i as int].id == id,
                None => !self@.has_proposal(owner, id),
            },
    {
        let mut i: usize = 0;
        while i < self.proposals.len()
            invariant
                0 <= i <= self.proposals@.len(),
                forall|m: int|
                    0 <= m < i ==> self.proposals@[m].owner != owner || self.proposals@[m].id
                        != id,
            decreases self.proposals@.len() - i,
        {
            if self.proposals[i].owner == owner && self.proposals[i].id == id {
                return Some(i);
            }
            i = i + 1;
        }
        None
    }

    fn has_vote(&self, voter: Address, owner: Address, id: u64) -> (r: bool)
        ensures
            r == self@.has_vote(voter, owner, id),
    {
        let mut j: usize = 0;
        while j < self.votes.len()
            invariant
                0 <= j <= self.votes@.len(),
                forall|m: int|
                    0 <= m < j ==> self.votes@[m].voter != voter || self.votes@[m].owner != owner
                        || self.votes@[m].proposal_id != id,
            decreases self.votes@.len() - j,
        {
            let v = &self.votes[j];
            if v.voter == voter && v.owner == owner && v.proposal_id == id {
                proof {
                    assert(self@.votes[j as int] == self.votes@[j as int]);
                }
                return true;
            }
            j = j + 1;
        }
        false
    }
    /// Creates the admin registry; it can be created once.
    pub fn initialize_admin(&mut self, user: Address, admin2: Address, admin3: Address) -> (r:
        Result<(), ErrorCode>)
        requires
            old(self)@.wf(),
        ensures
            final(self)@.wf(),
            old(self)@.config is Some ==> r == Err::<(), ErrorCode>(ErrorCode::AccountAlreadyExists)
                && final(self)@ == old(self)@,
            old(self)@.config is None ==> r is Ok && final(self)@ == (LedgerView {
                config: final(self)@.config,
                ..old(self)@
            }) && final(self)@.config is Some && final(self)@.config->Some_0.admins@ == seq![
                user,
                admin2,
                admin3,
            ],
    {
        if self.config.is_some() {
            return Err(ErrorCode::AccountAlreadyExists);
        }
        let ghost old_view = self@;
        self.config = Some(initialize_admin(user, admin2, admin3));
        proof {
            lemma_config_wf(old_view, self@);
        }
        Ok(())
    }

    /// Replaces `old_admin` by `new_admin` in the registry, on behalf of the admin `caller`.
    pub fn transfer_admin(&mut self, caller: Address, old_admin: Address, new_admin: Address) -> (r:
        Result<(), ErrorCode>)
        requires
            old(self)@.wf(),
        ensures
            final(self)@.wf(),
            match old(self)@.config {
                None => r == Err::<(), ErrorCode>(ErrorCode::AccountNotFound) && final(self)@
                    == old(self)@,
                Some(c) => match transfer_admin_outcome(c, caller, old_admin, new_admin) {
                    Ok(admins) => r is Ok && final(self)@ == (LedgerView {
                        config: final(self)@.config,
                        ..old(self)@
                    }) && final(self)@.config is Some && final(self)@.config->Some_0.admins@
                        == admins,
                    Err(e) => r == Err::<(), ErrorCode>(e) && final(self)@ == old(self)@,
                },
            },
    {
        let mut config = match self.config {
            Some(c) => c,
            None => return Err(ErrorCode::AccountNotFound),
        };
        transfer_admin(&mut config, caller, old_admin, new_admin)?;
        let ghost old_view = self@;
        self.config = Some(config);
        proof {
            lemma_config_wf(old_view, self@);
        }
        Ok(())
    }

    /// Opens the profile of `user`; each identity has at most one.
    pub fn initialize_user(&mut self, user: Address) -> (r: Result<(), ErrorCode>)
        requires
            old(self)@.wf(),
        ensures
            final(self)@.wf(),
            match old(self)@.open_profile(user) {
                Ok(s) => r is Ok && final(self)@ == s,
                Err(e) => r == Err::<(), ErrorCode>(e) && final(self)@ == old(self)@,
            },
    {
        if self.find_profile(user).is_some() {
            return Err(ErrorCode::AccountAlreadyExists);
        }
        let ghost old_view = self@;
        self.profiles.push((user, initialize_user()));
        proof {
            let t = old_view.open_profile(user)->Ok_0;
            assert(self@.profiles =~= t.profiles);
            assert(self@.proposals =~= t.proposals);
            lemma_open_profile_wf(old_view, user);
        }
        Ok(())
    }

    /// Creates a proposal of `user` at the address numbered by the user's counter.
    pub fn create_proposal(
        &mut self,
        user: Address,
        title: String,
        description: String,
        amount_requested: u64,
        now: i64,
    ) -> (r: Result<(), ErrorCode>)
        requires
            old(self)@.wf(),
        ensures
            final(self)@.wf(),
            match old(self)@.create(user, title@, description@, amount_requested, now) {
                Ok(s) => r is Ok && final(self)@ == s,
                Err(e) => r == Err::<(), ErrorCode>(e) && final(self)@ == old(self)@,
            },
    {
        let k = match self.find_profile(user) {
            Some(k) => k,
            None => return Err(ErrorCode::AccountNotFound),
        };
        let ghost old_view = self@;
        proof {
            assert(old_view.has_profile(user));
            let c = old_view.profile_index(user);
            assert(old_view.profiles[c].0 == user);
            assert(c == k);
        }
        let mut profile = self.profiles[k].1;
        if let Some(i) = self.find_proposal(user, profile.proposal_count) {
            proof {
                assert(old_view.proposals[i as int] == self.proposals@[i as int]@);
            }
            return Err(ErrorCode::AccountAlreadyExists);
        }
        let proposal = create_proposal(
            &mut profile,
            user,
            title,
            description,
            amount_requested,
            now,
        )?;
        self.profiles.set(k, (user, profile));
        self.proposals.push(proposal);
        proof {
            let t = old_view.create(user, title@, description@, amount_requested, now)->Ok_0;
            assert(self@.profiles =~= t.profiles);
            assert(self@.proposals =~= t.proposals);
            lemma_create_wf(old_view, user, title@, description@, amount_requested, now);
        }
        Ok(())
    }

    /// Overwrites the title and the description of the proposal `(caller, proposal_id)`.
    pub fn update_proposal(
        &mut self,
        caller: Address,
        proposal_id: u64,
        new_title: String,
        new_description: String,
    ) -> (r: Result<(), ErrorCode>)
        requires
            old(self)@.wf(),
        ensures
            final(self)@.wf(),
            match old(self)@.update(caller, proposal_id, new_title@, new_description@) {
                Ok(s) => r is Ok && final(self)@ == s,
                Err(e) => r == Err::<(), ErrorCode>(e) && final(self)@ == old(self)@,
            },
    {
        let i = match self.find_proposal(caller, proposal_id) {
            Some(i) => i,
            None => return Err(ErrorCode::AccountNotFound),
        };
        proof {
            lemma_proposal_index(self@, i as int);
        }
        let ghost old_view = self@;
        let mut p = self.proposals.remove(i);
        let r = update_proposal(&mut p, caller, new_title, new_description);
        self.proposals.insert(i, p);
        proof {
            if r is Ok {
                assert(self@.proposals =~= old_view.with_proposal(i as int, p@).proposals);
                lemma_with_proposal_wf(old_view, i as int, p@);
            } else {
                assert(self@.proposals =~= old_view.proposals);
            }
        }
        r
    }

    /// Rejects the proposal `(owner, proposal_id)` on behalf of the admin `admin`.
    pub fn reject_proposal(
        &mut self,
        admin: Address,
        proposal_id: u64,
        owner: Address,
    ) -> (r: Result<(), ErrorCode>)
        requires
            old(self)@.wf(),
        ensures
            final(self)@.wf(),
            match old(self)@.reject(admin, proposal_id, owner) {
                Ok(s) => r is Ok && final(self)@ == s,
                Err(e) => r == Err::<(), ErrorCode>(e) && final(self)@ == old(self)@,
            },
    {
        let config = match self.config {
            Some(c) => c,
            None => return Err(ErrorCode::AccountNotFound),
        };
        let i = match self.find_proposal(owner, proposal_id) {
            Some(i) => i,
            None => return Err(ErrorCode::AccountNotFound),
        };
        proof {
            lemma_proposal_index(self@, i as int);
        }
        let ghost old_view = self@;
        let mut p = self.proposals.remove(i);
        let r = reject_proposal(&mut p, &config, admin, owner);
        self.proposals.insert(i, p);
        proof {
            if r is Ok {
                assert(self@.proposals =~= old_view.with_proposal(i as int, p@).proposals);
                lemma_with_proposal_wf(old_view, i as int, p@);
            } else {
                assert(self@.proposals =~= old_view.proposals);
            }
        }
        r
    }

    /// Records the approval of the admin `admin` for the proposal `(owner, proposal_id)`.
    pub fn approve_funding(
        &mut self,
        admin: Address,
        proposal_id: u64,
        owner: Address,
    ) -> (r: Result<(), ErrorCode>)
        requires
            old(self)@.wf(),
        ensures
            final(self)@.wf(),
            match old(self)@.approve(admin, proposal_id, owner) {
                Ok(s) => r is Ok && final(self)@ == s,
                Err(e) => r == Err::<(), ErrorCode>(e) && final(self)@ == old(self)@,
            },
    {
        let config = match self.config {
            Some(c) => c,
            None => return Err(ErrorCode::AccountNotFound),
        };
        let i = match self.find_proposal(owner, proposal_id) {
            Some(i) => i,
            None => return Err(ErrorCode::AccountNotFound),
        };
        proof {
            lemma_proposal_index(self@, i as int);
        }
        let ghost old_view = self@;
        let mut p = self.proposals.remove(i);
        let r = approve_funding(&mut p, &config, admin);
        self.proposals.insert(i, p);
        proof {
            if r is Ok {
                assert(self@.proposals =~= old_view.with_proposal(i as int, p@).proposals);
                lemma_with_proposal_wf(old_view, i as int, p@);
            } else {
                assert(self@.proposals =~= old_view.proposals);
            }
        }
        r
    }

    /// Closes the vote on the proposal `(owner, proposal_id)`; anyone may call it.
    pub fn finalize_proposal(
        &mut self,
        proposal_id: u64,
        owner: Address,
        now: i64,
    ) -> (r: Result<(), ErrorCode>)
        requires
            old(self)@.wf(),
        ensures
            final(self)@.wf(),
            match old(self)@.finalize(proposal_id, owner, now) {
                Ok(s) => r is Ok && final(self)@ == s,
                Err(e) => r == Err::<(), ErrorCode>(e) && final(self)@ == old(self)@,
            },
    {
        let i = match self.find_proposal(owner, proposal_id) {
            Some(i) => i,
            None => return Err(ErrorCode::AccountNotFound),
        };
        proof {
            lemma_proposal_index(self@, i as int);
        }
        let ghost old_view = self@;
        let mut p = self.proposals.remove(i);
        let r = finalize_proposal(&mut p, now);
        self.proposals.insert(i, p);
        proof {
            if r is Ok {
                assert(self@.proposals =~= old_view.with_proposal(i as int, p@).proposals);
                lemma_with_proposal_wf(old_view, i as int, p@);
            } else {
                assert(self@.proposals =~= old_view.proposals);
            }
        }
        r
    }

    /// Opens the vault; it can be opened once.
    pub fn initialize_vault(&mut self) -> (r: Result<(), ErrorCode>)
        requires
            old(self)@.wf(),
        ensures
            final(self)@.wf(),
            match old(self)@.open_vault() {
                Ok(s) => r is Ok && final(self)@ == s,
                Err(e) => r == Err::<(), ErrorCode>(e) && final(self)@ == old(self)@,
            },
    {
        if self.vault.is_some() {
            return Err(ErrorCode::AccountAlreadyExists);
        }
        let ghost old_view = self@;
        self.vault = Some(initialize_vault());
        proof {
            lemma_vault_wf(old_view, self@);
        }
        Ok(())
    }

    /// Takes `amount` into the vault's custody.
    pub fn deposit_to_vault(&mut self, amount: u64) -> (r: Result<(), ErrorCode>)
        requires
            old(self)@.wf(),
        ensures
            final(self)@.wf(),
            match old(self)@.deposit(amount) {
                Ok(s) => r is Ok && final(self)@ == s,
                Err(e) => r == Err::<(), ErrorCode>(e) && final(self)@ == old(self)@,
            },
    {
        let mut vault = match self.vault {
            Some(v) => v,
            None => return Err(ErrorCode::AccountNotFound),
        };
        let mut balance = self.vault_balance;
        deposit_to_vault(&mut vault, &mut balance, amount)?;
        let ghost old_view = self@;
        self.vault = Some(vault);
        self.vault_balance = balance;
        proof {
            lemma_vault_wf(old_view, self@);
        }
        Ok(())
    }

    /// Pays out the proposal `(caller, proposal_id)` of the owner `caller` from the vault.
    pub fn claim_funds(&mut self, caller: Address, proposal_id: u64) -> (r: Result<(), ErrorCode>)
        requires
            old(self)@.wf(),
        ensures
            final(self)@.wf(),
            match old(self)@.claim(caller, proposal_id) {
                Ok(s) => r is Ok && final(self)@ == s,
                Err(e) => r == Err::<(), ErrorCode>(e) && final(self)@ == old(self)@,
            },
    {
        let i = match self.find_proposal(caller, proposal_id) {
            Some(i) => i,
            None => return Err(ErrorCode::AccountNotFound),
        };
        let mut vault = match self.vault {
            Some(v) => v,
            None => return Err(ErrorCode::AccountNotFound),
        };
        proof {
            lemma_proposal_index(self@, i as int);
        }
        let ghost old_view = self@;
        let mut balance = self.vault_balance;
        let mut p = self.proposals.remove(i);
        let r = claim_funds(&mut p, &mut vault, &mut balance, caller);
        self.proposals.insert(i, p);
        if r.is_ok() {
            proof {
                assert(self@.proposals =~= old_view.with_proposal(i as int, p@).proposals);
                lemma_with_proposal_wf(old_view, i as int, p@);
            }
            let ghost mid = self@;
            self.vault = Some(vault);
            self.vault_balance = balance;
            proof {
                lemma_vault_wf(mid, self@);
            }
        } else {
            proof {
                assert(self@.proposals =~= old_view.proposals);
            }
        }
        r
    }

    /// Casts the vote of `voter` on the proposal `(owner, proposal_id)`. The vote record is
    /// created at an address derived from the voter and the proposal, so a second vote of the
    /// same voter on the same proposal finds it taken and fails.
    pub fn vote_on_proposal(
        &mut self,
        voter: Address,
        proposal_id: u64,
        owner: Address,
        token_weight: u64,
        now: i64,
    ) -> (r: Result<(), ErrorCode>)
        requires
            old(self)@.wf(),
        ensures
            final(self)@.wf(),
            match old(self)@.vote(voter, proposal_id, owner, token_weight, now) {
                Ok(s) => r is Ok && final(self)@ == s,
                Err(e) => r == Err::<(), ErrorCode>(e) && final(self)@ == old(self)@,
            },
    {
        let i = match self.find_proposal(owner, proposal_id) {
            Some(i) => i,
            None => return Err(ErrorCode::AccountNotFound),
        };
        if self.has_vote(voter, owner, proposal_id) {
            return Err(ErrorCode::AccountAlreadyExists);
        }
        proof {
            lemma_proposal_index(self@, i as int);
        }
        let ghost old_view = self@;
        let mut p = self.proposals.remove(i);
        let r = vote_on_proposal(&mut p, token_weight, now);
        self.proposals.insert(i, p);
        match r {
            Ok(vote) => {
                self.votes.push(VoteRecord { voter, owner, proposal_id, vote });
                proof {
                    let t = old_view.vote(voter, proposal_id, owner, token_weight, now)->Ok_0;
                    assert(self@.proposals =~= t.proposals);
                    assert(self@.votes =~= t.votes);
                    lemma_vote_wf(old_view, voter, proposal_id, owner, token_weight, now);
                }
                Ok(())
            },
            Err(e) => {
                proof {
                    assert(self@.proposals =~= old_view.proposals);
                }
                Err(e)
            },
        }
    }
}

} // verus!
