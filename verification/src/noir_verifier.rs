//! A proof-verifier service that answers on the word of one trusted key:
//! it frames the message that the key must have signed and leaves the
//! check of the signature to its caller.

use vstd::prelude::*;
use crate::address::Address;
use crate::codec::{append_bytes32, append_u32_be, be32, flag_byte, ship_flag};
use crate::config::DataKey;
use crate::effect::Effect;

verus! {

/// Why the service does not vouch for a proof.
#[derive(Clone, Copy, Debug, PartialEq, Eq, Structural)]
pub enum Error {
    NotAdmin,
    VerifierNotConfigured,
    InvalidProofLength,
    InvalidHitFlag,
}

/// What the trusted key signs, before it is laid out in bytes.
#[derive(Clone, Copy, Debug, PartialEq, Eq)]
pub enum VerifierMessage {
    /// Vouches for a board.
    Board { session_id: u32, ship_cells: u32, commitment_root: [u8; 32] },
    /// Vouches for what the cell behind a commitment holds.
    Attack { session_id: u32, x: u32, y: u32, expected_commitment: [u8; 32], is_ship: bool },
}

/// An answer that holds if a signature is valid.
#[derive(Clone, Copy, Debug, PartialEq, Eq)]
pub struct SignedAnswer {
    pub public_key: [u8; 32],
    pub message: VerifierMessage,
    pub signature: [u8; 64],
    /// What the service answers once `signature` is found to be a valid
    /// signature by `public_key` over the bytes of `message`.
    pub answer: bool,
}

/// The service: who administers it and whose signatures it trusts.
#[derive(Clone, Copy, Debug, PartialEq, Eq)]
pub struct NoirVerifierContract {
    pub admin: Address,
    pub verifier_key: Option<[u8; 32]>,
}

impl VerifierMessage {
    /// The exact bytes that are signed: for a board the tag 1, the session
    /// and the ship count big-endian, and the commitment root; for an
    /// attack the tag 2, the session and both coordinates big-endian, the
    /// commitment, and the ship flag.
    pub open spec fn bytes(self) -> Seq<u8> {
        match self {
            VerifierMessage::Board { session_id, ship_cells, commitment_root } => seq![1u8]
                + be32(session_id) + be32(ship_cells) + commitment_root@,
            VerifierMessage::Attack { session_id, x, y, expected_commitment, is_ship } => seq![2u8]
                + be32(session_id) + be32(x) + be32(y) + expected_commitment@ + seq![
                flag_byte(is_ship),
            ],
        }
    }

    /// Lays the message out in the bytes that are signed.
    pub fn to_bytes(&self) -> (bytes: Vec<u8>)
        ensures
            bytes@ == self.bytes(),
    {
        let mut message: Vec<u8> = Vec::new();
        match self {
            VerifierMessage::Board { session_id, ship_cells, commitment_root } => {
                message.push(1u8);
                append_u32_be(&mut message, *session_id);
                append_u32_be(&mut message, *ship_cells);
                append_bytes32(&mut message, commitment_root);
                assert(message@ =~= self.bytes());
            },
            VerifierMessage::Attack { session_id, x, y, expected_commitment, is_ship } => {
                message.push(2u8);
                append_u32_be(&mut message, *session_id);
                append_u32_be(&mut message, *x);
                append_u32_be(&mut message, *y);
                append_bytes32(&mut message, expected_commitment);
                message.push(ship_flag(*is_ship));
                assert(message@ =~= self.bytes());
            },
        }
        message
    }
}

/// The 64 bytes of `bytes` from `start` on as a signature.
fn signature_at(bytes: &Vec<u8>, start: usize) -> (signature: [u8; 64])
    requires
        start + 64 <= bytes@.len(),
    ensures
        signature@ == bytes@.subrange(start as int, start + 64),
{
    let mut raw = [0u8; 64];
    let mut i: usize = 0;
    while i < 64
        invariant
            i <= 64,
            start + 64 <= bytes.len(),
            forall|j: int| 0 <= j < i ==> raw@[j] == bytes@[start + j],
        decreases 64 - i,
    {
        raw[i] = bytes[start + i];
        i += 1;
    }
    assert(raw@ =~= bytes@.subrange(start as int, start + 64));
    raw
}

/// Reads `bytes` as a signature: exactly 64 bytes.
pub fn bytes_to_sig64(bytes: &Vec<u8>) -> (signature: Option<[u8; 64]>)
    ensures
        signature is Some <==> bytes@.len() == 64,
        signature matches Some(s) ==> s@ == bytes@,
{
    if bytes.len() != 64 {
        return None;
    }
    let signature = signature_at(bytes, 0);
    assert(bytes@.subrange(0, 64) =~= bytes@);
    Some(signature)
}

/// Reads the signature that follows the first byte of `bytes`: exactly 65
/// bytes in all.
pub fn proof_tail_to_sig64(bytes: &Vec<u8>) -> (signature: Option<[u8; 64]>)
    ensures
        signature is Some <==> bytes@.len() == 65,
        signature matches Some(s) ==> s@ == bytes@.subrange(1, 65),
{
    if bytes.len() != 65 {
        return None;
    }
    Some(signature_at(bytes, 1))
}

/// What the service says of a board proof.
pub open spec fn spec_verify_board(
    service: NoirVerifierContract,
    session_id: u32,
    ship_cells: u32,
    commitment_root: [u8; 32],
    proof: Seq<u8>,
) -> Result<(VerifierMessage, Seq<u8>, bool), Error> {
    if service.verifier_key is None {
        Err(Error::VerifierNotConfigured)
    } else if proof.len() != 64 {
        Err(Error::InvalidProofLength)
    } else {
        Ok((VerifierMessage::Board { session_id, ship_cells, commitment_root }, proof, true))
    }
}

/// What the service says of an attack proof: its first byte claims what
/// the cell holds, the other 64 are the signature.
pub open spec fn spec_verify_attack(
    service: NoirVerifierContract,
    session_id: u32,
    x: u32,
    y: u32,
    expected_commitment: [u8; 32],
    proof: Seq<u8>,
) -> Result<(VerifierMessage, Seq<u8>, bool), Error> {
    if service.verifier_key is None {
        Err(Error::VerifierNotConfigured)
    } else if proof.len() != 65 {
        Err(Error::InvalidProofLength)
    } else if proof[0] > 1 {
        Err(Error::InvalidHitFlag)
    } else {
        Ok(
            (
                VerifierMessage::Attack {
                    session_id,
                    x,
                    y,
                    expected_commitment,
                    is_ship: proof[0] == 1,
                },
                proof.subrange(1, 65),
                proof[0] == 1,
            ),
        )
    }
}

impl NoirVerifierContract {
    /// A service administered by `admin` that trusts no key yet.
    pub fn new(admin: Address) -> (service: NoirVerifierContract)
        ensures
            service == (NoirVerifierContract { admin, verifier_key: None }),
    {
        NoirVerifierContract { admin, verifier_key: None }
    }

    /// The key that the service trusts, if any.
    pub fn get_verifier(&self) -> (key: Option<[u8; 32]>)
        ensures
            key == self.verifier_key,
    {
        self.verifier_key
    }

    /// Makes the service trust `verifier_pub_key`; the administrator must
    /// have authorized the call.
    pub fn set_verifier(&mut self, verifier_pub_key: [u8; 32]) -> (asked: Vec<Effect>)
        ensures
            *final(self) == (NoirVerifierContract {
                admin: old(self).admin,
                verifier_key: Some(verifier_pub_key),
            }),
            asked@ == seq![
                Effect::RequireAuth { address: old(self).admin },
                Effect::Write { key: DataKey::VerifierPubKey },
            ],
    {
        let mut asked: Vec<Effect> = Vec::new();
        asked.push(Effect::RequireAuth { address: self.admin });
        asked.push(Effect::Write { key: DataKey::VerifierPubKey });
        self.verifier_key = Some(verifier_pub_key);
        assert(asked@ =~= seq![
            Effect::RequireAuth { address: old(self).admin },
            Effect::Write { key: DataKey::VerifierPubKey },
        ]);
        asked
    }

    /// Makes the service trust no key; the administrator must have
    /// authorized the call.
    pub fn clear_verifier(&mut self) -> (asked: Vec<Effect>)
        ensures
            *final(self) == (NoirVerifierContract { admin: old(self).admin, verifier_key: None }),
            asked@ == seq![
                Effect::RequireAuth { address: old(self).admin },
                Effect::Erase { key: DataKey::VerifierPubKey },
            ],
    {
        let mut asked: Vec<Effect> = Vec::new();
        asked.push(Effect::RequireAuth { address: self.admin });
        asked.push(Effect::Erase { key: DataKey::VerifierPubKey });
        self.verifier_key = None;
        assert(asked@ =~= seq![
            Effect::RequireAuth { address: old(self).admin },
            Effect::Erase { key: DataKey::VerifierPubKey },
        ]);
        asked
    }

    /// Judges a board proof, which is a bare signature of 64 bytes: the
    /// answer is yes if the trusted key signed the board message. Without
    /// a trusted key, or with a proof of another length, the service does
    /// not vouch.
    pub fn verify_board(
        &self,
        session_id: u32,
        ship_cells: u32,
        commitment_root: [u8; 32],
        proof: &Vec<u8>,
    ) -> (out: Result<SignedAnswer, Error>)
        ensures
            match out {
                Ok(signed) => spec_verify_board(
                    *self,
                    session_id,
                    ship_cells,
                    commitment_root,
                    proof@,
                ) == Ok::<_, Error>((signed.message, signed.signature@, signed.answer))
                    && self.verifier_key == Some(signed.public_key),
                Err(e) => spec_verify_board(*self, session_id, ship_cells, commitment_root, proof@)
                    == Err::<(VerifierMessage, Seq<u8>, bool), _>(e),
            },
    {
        let public_key = match self.verifier_key {
            Some(key) => key,
            None => {
                return Err(Error::VerifierNotConfigured);
            },
        };
        let signature = match bytes_to_sig64(proof) {
            Some(signature) => signature,
            None => {
                return Err(Error::InvalidProofLength);
            },
        };
        Ok(
            SignedAnswer {
                public_key,
                message: VerifierMessage::Board { session_id, ship_cells, commitment_root },
                signature,
                answer: true,
            },
        )
    }

    /// Judges an attack proof of 65 bytes, the claimed ship flag and a
    /// signature: the answer is the claim if the trusted key signed the
    /// attack message that carries it. Without a trusted key, with a proof
    /// of another length or a flag other than 0 and 1, the service does not
    /// vouch.
    pub fn verify_attack(
        &self,
        session_id: u32,
        x: u32,
        y: u32,
        expected_commitment: [u8; 32],
        proof: &Vec<u8>,
    ) -> (out: Result<SignedAnswer, Error>)
        ensures
            match out {
                Ok(signed) => spec_verify_attack(
                    *self,
                    session_id,
                    x,
                    y,
                    expected_commitment,
                    proof@,
                ) == Ok::<_, Error>((signed.message, signed.signature@, signed.answer))
                    && self.verifier_key == Some(signed.public_key),
                Err(e) => spec_verify_attack(*self, session_id, x, y, expected_commitment, proof@)
                    == Err::<(VerifierMessage, Seq<u8>, bool), _>(e),
            },
    {
        let public_key = match self.verifier_key {
            Some(key) => key,
            None => {
                return Err(Error::VerifierNotConfigured);
            },
        };
        if proof.len() != 65 {
            return Err(Error::InvalidProofLength);
        }
        let flag = proof[0];
        if flag > 1 {
            return Err(Error::InvalidHitFlag);
        }
        let signature = match proof_tail_to_sig64(proof) {
            Some(signature) => signature,
            None => {
                return Err(Error::InvalidProofLength);
            },
        };
        let is_ship = flag == 1;
        Ok(
            SignedAnswer {
                public_key,
                message: VerifierMessage::Attack { session_id, x, y, expected_commitment, is_ship },
                signature,
                answer: is_ship,
            },
        )
    }
}

} // verus!
