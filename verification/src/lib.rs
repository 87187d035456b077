//! Core of a replicated chess ledger: a deterministic chess-move validator,
//! an in-memory game database, canonical block encoding and hashing, and the
//! leader-based three-phase consensus engine that orders signed moves into a
//! single linear chain of blocks.

pub mod chess;
pub mod crypto;
pub mod db;
pub mod encoding;
pub mod engine;
pub mod errors;
pub mod laws;
pub mod types;
pub mod votes;
