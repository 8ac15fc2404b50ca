//! What the engine asks of the world around it. No operation of the engine
//! reaches outside: each returns, as plain values and in order, the
//! interactions that its caller has to carry out. Every one of them either
//! succeeds or aborts the whole operation.

use vstd::prelude::*;
use crate::address::Address;
use crate::config::{ConfigKey, DataKey};
use crate::codec::{
    attack_proof_message, board_proof_message, build_attack_proof_message,
    build_board_proof_message,
};

verus! {

/// A message that a trusted prover signs, before it is laid out in bytes.
#[derive(Clone, Copy, Debug, PartialEq, Eq)]
pub enum ProofMessage {
    /// Vouches for a whole board.
    Board { session_id: u32, ship_cells: u32, commitment_root: [u8; 32], proof_hash: [u8; 32] },
    /// Vouches for the outcome of one attack.
    Attack { session_id: u32, x: u32, y: u32, is_ship: bool, proof_hash: [u8; 32] },
}

impl ProofMessage {
    /// The exact bytes that are signed.
    pub open spec fn bytes(self) -> Seq<u8> {
        match self {
            ProofMessage::Board { session_id, ship_cells, commitment_root, proof_hash } => {
                board_proof_message(session_id, ship_cells, commitment_root, proof_hash)
            },
            ProofMessage::Attack { session_id, x, y, is_ship, proof_hash } => {
                attack_proof_message(session_id, x, y, is_ship, proof_hash)
            },
        }
    }

    /// Lays the message out in the bytes that are signed.
    pub fn to_bytes(&self) -> (bytes: Vec<u8>)
        ensures
            bytes@ == self.bytes(),
    {
        match self {
            ProofMessage::Board { session_id, ship_cells, commitment_root, proof_hash } => {
                build_board_proof_message(*session_id, *ship_cells, commitment_root, proof_hash)
            },
            ProofMessage::Attack { session_id, x, y, is_ship, proof_hash } => {
                build_attack_proof_message(*session_id, *x, *y, *is_ship, proof_hash)
            },
        }
    }
}

/// One interaction with an outside collaborator.
#[derive(Clone, Copy, Debug, PartialEq, Eq)]
pub enum Effect {
    /// `address` must have authorized this very call.
    RequireAuth { address: Address },
    /// `address` must have authorized a call with exactly these arguments.
    RequireAuthForArgs { address: Address, session_id: u32, points: i128 },
    /// `signature` must be a valid Ed25519 signature by `public_key` over
    /// the bytes of `message`.
    VerifySignature { public_key: [u8; 32], message: ProofMessage, signature: [u8; 64] },
    /// The match registry at `hub` is told that a session has begun.
    NotifyGameStarted {
        hub: Address,
        session_id: u32,
        player1: Address,
        player2: Address,
        player1_points: i128,
        player2_points: i128,
    },
    /// The match registry at `hub` is told how a session ended.
    NotifyGameEnded { hub: Address, session_id: u32, player1_won: bool },
    /// `amount` of `token` moves from `from` into escrow.
    Deposit { token: Address, from: Address, amount: i128 },
    /// `amount` of `token` moves out of escrow to `to`.
    Payout { token: Address, to: Address, amount: i128 },
    /// The running code is replaced by the code with this hash.
    UpgradeCode { wasm_hash: [u8; 32] },
    /// What the engine now holds under `key` is written to durable storage.
    Write { key: DataKey },
    /// The value that the engine now holds for `setting` is written to
    /// durable storage.
    WriteConfig { setting: ConfigKey },
    /// Whatever durable storage holds under `key` is deleted.
    Erase { key: DataKey },
    /// Whatever durable storage holds for `setting` is deleted.
    EraseConfig { setting: ConfigKey },
    /// The record under `key` is kept alive for `ledgers` more ticks of
    /// the ledger clock.
    ExtendTtl { key: DataKey, ledgers: u32 },
}

/// Moves every effect of `more` to the end of `effects`.
pub fn append_effects(effects: &mut Vec<Effect>, more: Vec<Effect>)
    ensures
        final(effects)@ == old(effects)@ + more@,
{
    let mut more = more;
    effects.append(&mut more);
}

} // verus!
