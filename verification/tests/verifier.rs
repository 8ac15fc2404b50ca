use battleship::address::{Address, AddressKind};
use battleship::config::DataKey;
use battleship::effect::Effect;
use battleship::noir_verifier::{
    bytes_to_sig64, proof_tail_to_sig64, Error, NoirVerifierContract, SignedAnswer,
    VerifierMessage,
};

fn admin() -> Address {
    Address::new(AddressKind::Account, [0xad; 32])
}

fn signature_bytes() -> Vec<u8> {
    (0..64u8).collect()
}

fn signature() -> [u8; 64] {
    let mut s = [0u8; 64];
    for (i, b) in s.iter_mut().enumerate() {
        *b = i as u8;
    }
    s
}

fn trusting() -> NoirVerifierContract {
    let mut service = NoirVerifierContract::new(admin());
    service.set_verifier([5u8; 32]);
    service
}

#[test]
fn signature_is_read_from_exactly_64_bytes() {
    assert_eq!(bytes_to_sig64(&signature_bytes()), Some(signature()));
    assert_eq!(bytes_to_sig64(&signature_bytes()[..63].to_vec()), None);
    let mut longer = signature_bytes();
    longer.push(0);
    assert_eq!(bytes_to_sig64(&longer), None);
    assert_eq!(bytes_to_sig64(&Vec::new()), None);
}

#[test]
fn signature_follows_the_flag_in_65_bytes() {
    let mut proof = vec![1u8];
    proof.extend(signature_bytes());
    assert_eq!(proof_tail_to_sig64(&proof), Some(signature()));
    assert_eq!(proof_tail_to_sig64(&signature_bytes()), None);
    proof.push(0);
    assert_eq!(proof_tail_to_sig64(&proof), None);
}

#[test]
fn administrator_installs_and_removes_the_key() {
    let mut service = NoirVerifierContract::new(admin());
    assert_eq!(service.get_verifier(), None);
    assert_eq!(
        service.set_verifier([5u8; 32]),
        vec![
            Effect::RequireAuth { address: admin() },
            Effect::Write { key: DataKey::VerifierPubKey }
        ]
    );
    assert_eq!(service.get_verifier(), Some([5u8; 32]));
    assert_eq!(
        service.clear_verifier(),
        vec![
            Effect::RequireAuth { address: admin() },
            Effect::Erase { key: DataKey::VerifierPubKey }
        ]
    );
    assert_eq!(service.get_verifier(), None);
    assert_eq!(service.admin, admin());
}

#[test]
fn board_proof_is_a_bare_signature() {
    let root = [0xaau8; 32];
    let service = NoirVerifierContract::new(admin());
    assert_eq!(
        service.verify_board(7, 17, root, &signature_bytes()),
        Err(Error::VerifierNotConfigured)
    );
    let service = trusting();
    assert_eq!(service.verify_board(7, 17, root, &vec![0u8; 63]), Err(Error::InvalidProofLength));
    assert_eq!(service.verify_board(7, 17, root, &vec![0u8; 65]), Err(Error::InvalidProofLength));
    let message = VerifierMessage::Board { session_id: 7, ship_cells: 17, commitment_root: root };
    assert_eq!(
        service.verify_board(7, 17, root, &signature_bytes()),
        Ok(SignedAnswer {
            public_key: [5u8; 32],
            message,
            signature: signature(),
            answer: true,
        })
    );
    let bytes = message.to_bytes();
    assert_eq!(bytes.len(), 41);
    assert_eq!(&bytes[..9], &[1, 0, 0, 0, 7, 0, 0, 0, 17]);
    assert_eq!(&bytes[9..], &root);
}

#[test]
fn attack_proof_carries_the_claim_and_a_signature() {
    let commitment = [0xccu8; 32];
    let mut proof = vec![1u8];
    proof.extend(signature_bytes());
    let service = NoirVerifierContract::new(admin());
    assert_eq!(
        service.verify_attack(7, 3, 9, commitment, &proof),
        Err(Error::VerifierNotConfigured)
    );
    let service = trusting();
    assert_eq!(
        service.verify_attack(7, 3, 9, commitment, &signature_bytes()),
        Err(Error::InvalidProofLength)
    );
    let mut bad = proof.clone();
    bad[0] = 2;
    assert_eq!(service.verify_attack(7, 3, 9, commitment, &bad), Err(Error::InvalidHitFlag));
    bad[0] = 255;
    assert_eq!(service.verify_attack(7, 3, 9, commitment, &bad), Err(Error::InvalidHitFlag));
    let hit = service.verify_attack(7, 3, 9, commitment, &proof).unwrap();
    assert!(hit.answer);
    assert_eq!(hit.signature, signature());
    assert_eq!(hit.public_key, [5u8; 32]);
    assert_eq!(
        hit.message,
        VerifierMessage::Attack {
            session_id: 7,
            x: 3,
            y: 9,
            expected_commitment: commitment,
            is_ship: true
        }
    );
    let bytes = hit.message.to_bytes();
    assert_eq!(bytes.len(), 46);
    assert_eq!(&bytes[..13], &[2, 0, 0, 0, 7, 0, 0, 0, 3, 0, 0, 0, 9]);
    assert_eq!(&bytes[13..45], &commitment);
    assert_eq!(bytes[45], 1);
    proof[0] = 0;
    let miss = service.verify_attack(7, 3, 9, commitment, &proof).unwrap();
    assert!(!miss.answer);
    assert_eq!(miss.message.to_bytes()[45], 0);
}
