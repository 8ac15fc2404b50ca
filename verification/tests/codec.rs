use battleship::codec::{
    append_u32_be, attack_proof_hash, build_attack_proof_message, build_board_proof_message,
    cell_reveal_hash, compute_commitment_root,
};

fn hex(bytes: &[u8]) -> String {
    let mut out = String::new();
    for b in bytes {
        out.push_str(&format!("{:02x}", b));
    }
    out
}

#[test]
fn root_of_no_commitments_is_the_hash_of_nothing() {
    let root = compute_commitment_root(&Vec::new());
    assert_eq!(
        hex(&root),
        "c5d2460186f7233c927e7db2dcc703c0e500b653ca82273b7bfad8045d85a470"
    );
}

#[test]
fn reveal_hash_of_empty_salt_is_the_hash_of_the_flag_byte() {
    assert_eq!(
        hex(&cell_reveal_hash(false, &Vec::new())),
        "bc36789e7a1e281436464229828f817d6612f7b477d66591ff96a9e064bcc98a"
    );
    assert_eq!(
        hex(&cell_reveal_hash(true, &Vec::new())),
        "5fe7f977e71dba2ea1a68e21057beebb9be2ac30c6410aa38d4f3fbe41dcffd2"
    );
}

#[test]
fn big_endian_bytes_of_a_number() {
    let mut bytes = vec![9u8];
    append_u32_be(&mut bytes, 0x0102_0304);
    assert_eq!(bytes, vec![9, 1, 2, 3, 4]);
    let mut bytes = Vec::new();
    append_u32_be(&mut bytes, u32::MAX);
    append_u32_be(&mut bytes, 0);
    append_u32_be(&mut bytes, 77);
    assert_eq!(bytes, vec![255, 255, 255, 255, 0, 0, 0, 0, 0, 0, 0, 77]);
}

#[test]
fn board_message_layout() {
    let root = [0xaau8; 32];
    let proof = [0xbbu8; 32];
    let msg = build_board_proof_message(77, 17, &root, &proof);
    assert_eq!(msg.len(), 73);
    assert_eq!(&msg[..9], &[1, 0, 0, 0, 77, 0, 0, 0, 17]);
    assert_eq!(&msg[9..41], &root);
    assert_eq!(&msg[41..], &proof);
}

#[test]
fn attack_message_layout() {
    let proof = [0xccu8; 32];
    let msg = build_attack_proof_message(258, 3, 9, true, &proof);
    assert_eq!(msg.len(), 46);
    assert_eq!(&msg[..14], &[2, 0, 0, 1, 2, 0, 0, 0, 3, 0, 0, 0, 9, 1]);
    assert_eq!(&msg[14..], &proof);
    let msg = build_attack_proof_message(258, 3, 9, false, &proof);
    assert_eq!(msg[13], 0);
}

#[test]
fn attack_proof_hash_depends_on_the_cell() {
    let salt = vec![9u8; 32];
    let a = attack_proof_hash(true, &salt, 0, 0);
    let b = attack_proof_hash(true, &salt, 1, 0);
    let c = attack_proof_hash(true, &salt, 0, 1);
    assert_ne!(a, b);
    assert_ne!(a, c);
    assert_ne!(b, c);
    assert_eq!(a, attack_proof_hash(true, &salt, 0, 0));
}

#[test]
fn longest_inputs_are_hashed() {
    let salt = vec![0xabu8; battleship::codec::MAX_SALT_LEN];
    let a = cell_reveal_hash(true, &salt);
    let b = attack_proof_hash(true, &salt, 1, 2);
    assert_ne!(a, b);
    assert_eq!(a, cell_reveal_hash(true, &salt));
    let cells = vec![[7u8; 32]; battleship::codec::MAX_ROOT_CELLS];
    let root = compute_commitment_root(&cells);
    assert_eq!(root, compute_commitment_root(&cells));
    assert_ne!(root, compute_commitment_root(&cells[..2047].to_vec()));
}
