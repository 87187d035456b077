//! Error taxonomy of the node's core.

use vstd::prelude::*;

verus! {

/// Every failure the core can report: game creation, move validation,
/// transaction checks, block validation, leader lookup, quorum certificates,
/// and the surrounding service plumbing.
#[derive(Debug, Clone)]
pub enum AppError {
    StartGameError(String),
    InternalGameError(String),
    InvalidTransactionError(String),
    BlockValidationError(String),
    NoLeaderError,
    InvalidQcError,
    GrpcServerError(String),
    PeerError(String),
    SwarmError(String),
    UnknownError,
}

impl AppError {
    /// A human-readable description of the error, one line per variant.
    pub fn message(&self) -> (r: String)
        ensures
            match self {
                AppError::StartGameError(s) => r@ == "Failed to start the game: "@ + s@,
                AppError::InternalGameError(s) => r@ == "Internal game error: "@ + s@,
                AppError::InvalidTransactionError(s) => r@ == "Invalid transaction: "@ + s@,
                AppError::BlockValidationError(s) => r@ == "Block validation failed: "@ + s@,
                AppError::NoLeaderError => r@ == "No leader found"@,
                AppError::InvalidQcError => r@ == "Quorum certificate invalid"@,
                AppError::GrpcServerError(s) => r@ == "gRPC server error: "@ + s@,
                AppError::PeerError(s) => r@ == "Peer error: "@ + s@,
                AppError::SwarmError(s) => r@ == "Swarm error: "@ + s@,
                AppError::UnknownError => r@ == "Unknown error"@,
            },
    {
        match self {
            AppError::StartGameError(s) => String::from_str("Failed to start the game: ").concat(s.as_str()),
            AppError::InternalGameError(s) => String::from_str("Internal game error: ").concat(s.as_str()),
            AppError::InvalidTransactionError(s) => String::from_str("Invalid transaction: ").concat(s.as_str()),
            AppError::BlockValidationError(s) => String::from_str("Block validation failed: ").concat(s.as_str()),
            AppError::NoLeaderError => String::from_str("No leader found"),
            AppError::InvalidQcError => String::from_str("Quorum certificate invalid"),
            AppError::GrpcServerError(s) => String::from_str("gRPC server error: ").concat(s.as_str()),
            AppError::PeerError(s) => String::from_str("Peer error: ").concat(s.as_str()),
            AppError::SwarmError(s) => String::from_str("Swarm error: ").concat(s.as_str()),
            AppError::UnknownError => String::from_str("Unknown error"),
        }
    }
}

} // verus!
