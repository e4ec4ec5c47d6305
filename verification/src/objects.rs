//! Plain data carried through the ceremony: tasks, storage locators, and the
//! request/response bodies that the pipeline validates.

use vstd::prelude::*;

verus! {

/// A unit of verification work: (round, chunk, contribution index).
///
/// This deployment uses one chunk per round and one contributor slot per
/// round, so the chunk is always 0 and the contribution index is 0 for the
/// round's verified starting point and 1 for the contributor's output. The
/// triple is kept for forward compatibility.
#[derive(Clone, Copy, PartialEq, Eq, Structural, Debug)]
pub struct Task {
    pub round_height: u64,
    pub chunk_id: u64,
    pub contribution_id: u64,
}

impl Task {
    pub fn new(round_height: u64, chunk_id: u64, contribution_id: u64) -> (r: Task)
        ensures
            r.round_height == round_height,
            r.chunk_id == chunk_id,
            r.contribution_id == contribution_id,
    {
        Task { round_height, chunk_id, contribution_id }
    }
}

/// The address of a contribution blob within the coordinator's storage layer.
#[derive(Clone, Copy, PartialEq, Eq, Structural, Debug)]
pub struct ContributionLocator {
    pub round_height: u64,
    pub chunk_id: u64,
    pub contribution_id: u64,
    pub is_verified: bool,
}

impl ContributionLocator {
    pub fn new(round_height: u64, chunk_id: u64, contribution_id: u64, is_verified: bool) -> (r:
        ContributionLocator)
        ensures
            r == (ContributionLocator { round_height, chunk_id, contribution_id, is_verified }),
    {
        ContributionLocator { round_height, chunk_id, contribution_id, is_verified }
    }
}

/// The address of a contribution's detached signature within the storage
/// layer.
#[derive(Clone, Copy, PartialEq, Eq, Structural, Debug)]
pub struct ContributionSignatureLocator {
    pub round_height: u64,
    pub chunk_id: u64,
    pub contribution_id: u64,
    pub is_verified: bool,
}

impl ContributionSignatureLocator {
    pub fn new(round_height: u64, chunk_id: u64, contribution_id: u64, is_verified: bool) -> (r:
        ContributionSignatureLocator)
        ensures
            r == (ContributionSignatureLocator {
                round_height,
                chunk_id,
                contribution_id,
                is_verified,
            }),
    {
        ContributionSignatureLocator { round_height, chunk_id, contribution_id, is_verified }
    }
}

/// The pair of addresses handed to the current contributor when it locks the
/// round's chunk: where the previous verified artifact lives and where the
/// new contribution and its signature are expected.
#[derive(Clone, Copy, PartialEq, Eq, Structural, Debug)]
pub struct LockedLocators {
    pub previous_contribution: ContributionLocator,
    pub next_contribution: ContributionLocator,
    pub next_contribution_signature: ContributionSignatureLocator,
}

/// The locators for the single chunk of `round`: the verified starting point
/// at contribution 0 and the contributor's output at contribution 1.
pub open spec fn spec_locked_locators(round: u64) -> LockedLocators {
    LockedLocators {
        previous_contribution: ContributionLocator {
            round_height: round,
            chunk_id: 0u64,
            contribution_id: 0u64,
            is_verified: true,
        },
        next_contribution: ContributionLocator {
            round_height: round,
            chunk_id: 0u64,
            contribution_id: 1u64,
            is_verified: false,
        },
        next_contribution_signature: ContributionSignatureLocator {
            round_height: round,
            chunk_id: 0u64,
            contribution_id: 1u64,
            is_verified: false,
        },
    }
}

impl LockedLocators {
    /// The locators for the single chunk of `round`.
    pub fn for_round(round: u64) -> (r: LockedLocators)
        ensures
            r == spec_locked_locators(round),
    {
        LockedLocators {
            previous_contribution: ContributionLocator::new(round, 0, 0, true),
            next_contribution: ContributionLocator::new(round, 0, 1, false),
            next_contribution_signature: ContributionSignatureLocator::new(round, 0, 1, false),
        }
    }
}

/// Request to register a finished and uploaded contribution.
#[derive(Clone, Copy, PartialEq, Eq, Structural, Debug)]
pub struct PostChunkRequest {
    pub round_height: u64,
    pub contribution_locator: ContributionLocator,
    pub contribution_signature_locator: ContributionSignatureLocator,
}

impl PostChunkRequest {
    pub fn new(
        round_height: u64,
        contribution_locator: ContributionLocator,
        contribution_signature_locator: ContributionSignatureLocator,
    ) -> (r: PostChunkRequest)
        ensures
            r == (PostChunkRequest {
                round_height,
                contribution_locator,
                contribution_signature_locator,
            }),
    {
        PostChunkRequest { round_height, contribution_locator, contribution_signature_locator }
    }
}

/// Contributor-supplied metadata about its contribution; the pipeline checks
/// the public key against the authenticated participant and the round height
/// against the current round.
#[derive(Debug)]
pub struct ContributionInfo {
    pub public_key: String,
    pub ceremony_round: u64,
}

impl Clone for ContributionInfo {
    fn clone(&self) -> (r: Self)
        ensures
            r.public_key@ == self.public_key@,
            r.ceremony_round == self.ceremony_round,
    {
        ContributionInfo {
            public_key: self.public_key.clone(),
            ceremony_round: self.ceremony_round,
        }
    }
}

/// The status of a contributor with respect to the current round.
#[derive(Clone, Copy, PartialEq, Eq, Structural, Debug)]
pub enum ContributorStatus {
    /// (position in queue, queue size)
    Queue(u64, u64),
    Round,
    Finished,
    Banned,
    Other,
}

/// Address and private key with which an operator confirms control of a
/// contribution.
#[derive(Debug)]
pub struct ConfirmationKey {
    pub address: String,
    pub private_key: String,
}

} // verus!
