//! The typed failures of the game engine.

use vstd::prelude::*;

verus! {

/// Every way an operation of the engine can be refused.
#[derive(Clone, Copy, Debug, PartialEq, Eq, Structural)]
pub enum Error {
    GameNotFound,
    NotPlayer,
    GameAlreadyEnded,
    InvalidBoardCommitmentLength,
    BoardAlreadyCommitted,
    BoardsNotReady,
    NotYourTurn,
    InvalidCoordinate,
    AlreadyAttacked,
    PendingAttackResolution,
    NoPendingAttack,
    NotPendingDefender,
    InvalidCellReveal,
    InvalidShipCount,
    InvalidProofHash,
    MissingProofSignature,
    InvalidStakeAmount,
    BetTokenNotConfigured,
    AlreadyDeposited,
    StakesNotFunded,
    InvalidFeeBps,
    ZkVerifierNotConfigured,
    ZkVerificationFailed,
    ZkProofRequired,
    InvalidSession,
    SessionExpired,
    InvalidSessionConfig,
}

impl Error {
    /// The number under which the error is reported on the wire.
    pub open spec fn spec_code(self) -> u32 {
        match self {
            Error::GameNotFound => 1,
            Error::NotPlayer => 2,
            Error::GameAlreadyEnded => 3,
            Error::InvalidBoardCommitmentLength => 4,
            Error::BoardAlreadyCommitted => 5,
            Error::BoardsNotReady => 6,
            Error::NotYourTurn => 7,
            Error::InvalidCoordinate => 8,
            Error::AlreadyAttacked => 9,
            Error::PendingAttackResolution => 10,
            Error::NoPendingAttack => 11,
            Error::NotPendingDefender => 12,
            Error::InvalidCellReveal => 13,
            Error::InvalidShipCount => 14,
            Error::InvalidProofHash => 15,
            Error::MissingProofSignature => 16,
            Error::InvalidStakeAmount => 17,
            Error::BetTokenNotConfigured => 18,
            Error::AlreadyDeposited => 19,
            Error::StakesNotFunded => 20,
            Error::InvalidFeeBps => 21,
            Error::ZkVerifierNotConfigured => 22,
            Error::ZkVerificationFailed => 23,
            Error::ZkProofRequired => 24,
            Error::InvalidSession => 25,
            Error::SessionExpired => 26,
            Error::InvalidSessionConfig => 27,
        }
    }

    /// The number under which the error is reported on the wire.
    #[verifier::when_used_as_spec(spec_code)]
    pub fn code(self) -> (n: u32)
        ensures
            n == self.spec_code(),
            1 <= n <= 27,
    {
        match self {
            Error::GameNotFound => 1,
            Error::NotPlayer => 2,
            Error::GameAlreadyEnded => 3,
            Error::InvalidBoardCommitmentLength => 4,
            Error::BoardAlreadyCommitted => 5,
            Error::BoardsNotReady => 6,
            Error::NotYourTurn => 7,
            Error::InvalidCoordinate => 8,
            Error::AlreadyAttacked => 9,
            Error::PendingAttackResolution => 10,
            Error::NoPendingAttack => 11,
            Error::NotPendingDefender => 12,
            Error::InvalidCellReveal => 13,
            Error::InvalidShipCount => 14,
            Error::InvalidProofHash => 15,
            Error::MissingProofSignature => 16,
            Error::InvalidStakeAmount => 17,
            Error::BetTokenNotConfigured => 18,
            Error::AlreadyDeposited => 19,
            Error::StakesNotFunded => 20,
            Error::InvalidFeeBps => 21,
            Error::ZkVerifierNotConfigured => 22,
            Error::ZkVerificationFailed => 23,
            Error::ZkProofRequired => 24,
            Error::InvalidSession => 25,
            Error::SessionExpired => 26,
            Error::InvalidSessionConfig => 27,
        }
    }
}

} // verus!
