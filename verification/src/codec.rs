//! The byte-exact messages that boards and attacks are hashed and signed
//! over. Other services reproduce these layouts byte for byte, so each
//! builder is specified by the sequence it returns.

use vstd::prelude::*;

verus! {

/// The domain tag that opens a board proof message.
pub const BOARD_MESSAGE_TAG: u8 = 1;

/// The domain tag that opens an attack proof message.
pub const ATTACK_MESSAGE_TAG: u8 = 2;

/// The longest input that is handed to the hash function in one call.
pub const MAX_HASH_INPUT_LEN: usize = 65536;

/// The longest salt that a cell reveal may carry.
pub const MAX_SALT_LEN: usize = 65527;

/// The most cell commitments whose root is computed in one call.
pub const MAX_ROOT_CELLS: usize = 2048;

/// The four bytes of `value`, most significant first.
pub open spec fn be32(value: u32) -> Seq<u8> {
    seq![
        (value / 0x100_0000) as u8,
        ((value / 0x1_0000) % 0x100) as u8,
        ((value / 0x100) % 0x100) as u8,
        (value % 0x100) as u8,
    ]
}

/// The number that four big-endian bytes stand for.
pub open spec fn be32_value(bytes: Seq<u8>) -> int {
    bytes[0] * 0x100_0000 + bytes[1] * 0x1_0000 + bytes[2] * 0x100 + bytes[3]
}

/// The byte that stands for a ship (1) or for water (0).
pub open spec fn flag_byte(is_ship: bool) -> u8 {
    if is_ship {
        1
    } else {
        0
    }
}

/// All commitments laid end to end in row-major order.
pub open spec fn packed_commitments(commitments: Seq<[u8; 32]>) -> Seq<u8>
    decreases commitments.len(),
{
    if commitments.len() == 0 {
        Seq::empty()
    } else {
        packed_commitments(commitments.drop_last()) + commitments.last()@
    }
}

/// What is hashed to open one cell: the ship flag, then the salt.
pub open spec fn cell_reveal_payload(is_ship: bool, salt: Seq<u8>) -> Seq<u8> {
    seq![flag_byte(is_ship)] + salt
}

/// What is hashed to bind a reveal to its cell: the ship flag, the salt,
/// then both coordinates big-endian.
pub open spec fn attack_proof_payload(is_ship: bool, salt: Seq<u8>, x: u32, y: u32) -> Seq<u8> {
    seq![flag_byte(is_ship)] + salt + be32(x) + be32(y)
}

/// The signed message that vouches for a board.
pub open spec fn board_proof_message(
    session_id: u32,
    ship_cells: u32,
    commitment_root: [u8; 32],
    proof_hash: [u8; 32],
) -> Seq<u8> {
    seq![BOARD_MESSAGE_TAG] + be32(session_id) + be32(ship_cells) + commitment_root@
        + proof_hash@
}

/// The signed message that vouches for the outcome of one attack.
pub open spec fn attack_proof_message(
    session_id: u32,
    x: u32,
    y: u32,
    is_ship: bool,
    proof_hash: [u8; 32],
) -> Seq<u8> {
    seq![ATTACK_MESSAGE_TAG] + be32(session_id) + be32(x) + be32(y) + seq![flag_byte(is_ship)]
        + proof_hash@
}

/// The Keccak-256 digest of `data`, as `soroban_sdk` computes it. The
/// digest is taken on trust: nothing here says what it is for given bytes,
/// nor that different bytes have different digests.
pub uninterp spec fn keccak256_hash(data: Seq<u8>) -> [u8; 32];

/// The root that summarises a whole board.
pub open spec fn commitment_root(commitments: Seq<[u8; 32]>) -> [u8; 32] {
    keccak256_hash(packed_commitments(commitments))
}

/// Big-endian encoding loses nothing: the four bytes give the number back.
pub proof fn law_be32_is_lossless(value: u32)
    ensures
        be32(value).len() == 4,
        be32_value(be32(value)) == value,
{
    let b = be32(value);
    assert(b[0] == (value / 0x100_0000) as u8);
    assert(b[1] == ((value / 0x1_0000) % 0x100) as u8);
    assert(b[2] == ((value / 0x100) % 0x100) as u8);
    assert(b[3] == (value % 0x100) as u8);
}

/// Distinct numbers have distinct big-endian encodings.
pub proof fn law_be32_is_injective(a: u32, b: u32)
    requires
        be32(a) == be32(b),
    ensures
        a == b,
{
    law_be32_is_lossless(a);
    law_be32_is_lossless(b);
}

/// Packing `n` commitments gives `32 * n` bytes.
pub proof fn lemma_packed_len(commitments: Seq<[u8; 32]>)
    ensures
        packed_commitments(commitments).len() == 32 * commitments.len(),
    decreases commitments.len(),
{
    if commitments.len() > 0 {
        lemma_packed_len(commitments.drop_last());
    }
}

/// Appends the four bytes of `value`, most significant first.
pub fn append_u32_be(bytes: &mut Vec<u8>, value: u32)
    ensures
        final(bytes)@ == old(bytes)@ + be32(value),
{
    let b0 = ((value >> 24) & 0xff) as u8;
    let b1 = ((value >> 16) & 0xff) as u8;
    let b2 = ((value >> 8) & 0xff) as u8;
    let b3 = (value & 0xff) as u8;
    assert(((value >> 24) & 0xff) == value / 0x100_0000) by (bit_vector);
    assert(((value >> 16) & 0xff) == (value / 0x1_0000) % 0x100) by (bit_vector);
    assert(((value >> 8) & 0xff) == (value / 0x100) % 0x100) by (bit_vector);
    assert((value & 0xff) == value % 0x100) by (bit_vector);
    bytes.push(b0);
    bytes.push(b1);
    bytes.push(b2);
    bytes.push(b3);
    assert(bytes@ =~= old(bytes)@ + be32(value));
}

/// Appends the 32 bytes of `word`.
pub fn append_bytes32(bytes: &mut Vec<u8>, word: &[u8; 32])
    ensures
        final(bytes)@ == old(bytes)@ + word@,
{
    let mut i: usize = 0;
    while i < 32
        invariant
            i <= 32,
            bytes@ == old(bytes)@ + word@.take(i as int),
        decreases 32 - i,
    {
        bytes.push(word[i]);
        assert(word@.take(i + 1) =~= word@.take(i as int).push(word@[i as int]));
        i += 1;
    }
    assert(word@.take(32) =~= word@);
}

/// Appends every byte of `tail`.
pub fn append_all(bytes: &mut Vec<u8>, tail: &Vec<u8>)
    ensures
        final(bytes)@ == old(bytes)@ + tail@,
{
    let mut i: usize = 0;
    while i < tail.len()
        invariant
            i <= tail.len(),
            bytes@ == old(bytes)@ + tail@.take(i as int),
        decreases tail.len() - i,
    {
        bytes.push(tail[i]);
        assert(tail@.take(i + 1) =~= tail@.take(i as int).push(tail@[i as int]));
        i += 1;
    }
    assert(tail@.take(tail@.len() as int) =~= tail@);
}

/// The byte that stands for a ship (1) or for water (0).
pub fn ship_flag(is_ship: bool) -> (flag: u8)
    ensures
        flag == flag_byte(is_ship),
{
    if is_ship {
        1
    } else {
        0
    }
}

/// Lays all commitments end to end in row-major order.
pub fn pack_commitments(commitments: &Vec<[u8; 32]>) -> (packed: Vec<u8>)
    ensures
        packed@ == packed_commitments(commitments@),
        packed@.len() == 32 * commitments@.len(),
{
    let mut packed: Vec<u8> = Vec::new();
    let mut index: usize = 0;
    while index < commitments.len()
        invariant
            index <= commitments.len(),
            packed@ == packed_commitments(commitments@.take(index as int)),
        decreases commitments.len() - index,
    {
        append_bytes32(&mut packed, &commitments[index]);
        assert(commitments@.take(index + 1).drop_last() =~= commitments@.take(index as int));
        index += 1;
    }
    assert(commitments@.take(commitments@.len() as int) =~= commitments@);
    proof {
        lemma_packed_len(commitments@);
    }
    packed
}

/// Builds the signed message that vouches for a board: the tag 1, the
/// session and the ship count big-endian, the commitment root, the proof
/// hash.
pub fn build_board_proof_message(
    session_id: u32,
    ship_cells: u32,
    commitment_root: &[u8; 32],
    proof_hash: &[u8; 32],
) -> (msg: Vec<u8>)
    ensures
        msg@ == board_proof_message(session_id, ship_cells, *commitment_root, *proof_hash),
        msg@.len() == 73,
{
    let mut msg: Vec<u8> = Vec::new();
    msg.push(BOARD_MESSAGE_TAG);
    append_u32_be(&mut msg, session_id);
    append_u32_be(&mut msg, ship_cells);
    append_bytes32(&mut msg, commitment_root);
    append_bytes32(&mut msg, proof_hash);
    assert(msg@ =~= board_proof_message(session_id, ship_cells, *commitment_root, *proof_hash));
    msg
}

/// Builds the signed message that vouches for the outcome of one attack:
/// the tag 2, the session and both coordinates big-endian, the ship flag,
/// the proof hash.
pub fn build_attack_proof_message(
    session_id: u32,
    x: u32,
    y: u32,
    is_ship: bool,
    proof_hash: &[u8; 32],
) -> (msg: Vec<u8>)
    ensures
        msg@ == attack_proof_message(session_id, x, y, is_ship, *proof_hash),
        msg@.len() == 46,
{
    let mut msg: Vec<u8> = Vec::new();
    msg.push(ATTACK_MESSAGE_TAG);
    append_u32_be(&mut msg, session_id);
    append_u32_be(&mut msg, x);
    append_u32_be(&mut msg, y);
    msg.push(ship_flag(is_ship));
    append_bytes32(&mut msg, proof_hash);
    assert(msg@ =~= attack_proof_message(session_id, x, y, is_ship, *proof_hash));
    msg
}

/// Builds what is hashed to open one cell.
pub fn build_cell_reveal_payload(is_ship: bool, salt: &Vec<u8>) -> (payload: Vec<u8>)
    ensures
        payload@ == cell_reveal_payload(is_ship, salt@),
        payload@.len() == salt@.len() + 1,
{
    let mut payload: Vec<u8> = Vec::new();
    payload.push(ship_flag(is_ship));
    append_all(&mut payload, salt);
    assert(payload@ =~= cell_reveal_payload(is_ship, salt@));
    payload
}

/// Builds what is hashed to bind a reveal to its cell.
pub fn build_attack_proof_payload(is_ship: bool, salt: &Vec<u8>, x: u32, y: u32) -> (payload: Vec<
    u8,
>)
    ensures
        payload@ == attack_proof_payload(is_ship, salt@, x, y),
        payload@.len() == salt@.len() + 9,
{
    let mut payload: Vec<u8> = Vec::new();
    payload.push(ship_flag(is_ship));
    append_all(&mut payload, salt);
    append_u32_be(&mut payload, x);
    append_u32_be(&mut payload, y);
    assert(payload@ =~= attack_proof_payload(is_ship, salt@, x, y));
    payload
}

/// Calls `soroban_sdk::crypto::Crypto::keccak256` on a copy of `data` in a
/// fresh environment. Claimed of it, and not proved: the 32 bytes that come
/// back are the Keccak-256 digest of the bytes handed in and depend on
/// nothing else. The environment meters its work and aborts when a budget
/// is spent; the bound on the length keeps one call far below it.
#[verifier::external_body]
pub(crate) fn keccak256(data: &Vec<u8>) -> (digest: [u8; 32])
    requires
        data@.len() <= MAX_HASH_INPUT_LEN,
    ensures
        digest == keccak256_hash(data@),
{
    let env = soroban_sdk::Env::default();
    let bytes = soroban_sdk::Bytes::from_slice(&env, data.as_slice());
    env.crypto().keccak256(&bytes).to_array()
}

/// Computes the root that summarises a board: the hash of all its
/// commitments laid end to end.
pub fn compute_commitment_root(commitments: &Vec<[u8; 32]>) -> (root: [u8; 32])
    requires
        commitments@.len() <= MAX_ROOT_CELLS,
    ensures
        root == commitment_root(commitments@),
{
    let packed = pack_commitments(commitments);
    keccak256(&packed)
}

/// Computes the hash that a cell commitment must equal for the reveal
/// `(is_ship, salt)` to open it.
pub fn cell_reveal_hash(is_ship: bool, salt: &Vec<u8>) -> (digest: [u8; 32])
    requires
        salt@.len() <= MAX_SALT_LEN,
    ensures
        digest == keccak256_hash(cell_reveal_payload(is_ship, salt@)),
{
    let payload = build_cell_reveal_payload(is_ship, salt);
    keccak256(&payload)
}

/// Computes the hash that binds the reveal `(is_ship, salt)` to the cell
/// `(x, y)`.
pub fn attack_proof_hash(is_ship: bool, salt: &Vec<u8>, x: u32, y: u32) -> (digest: [u8; 32])
    requires
        salt@.len() <= MAX_SALT_LEN,
    ensures
        digest == keccak256_hash(attack_proof_payload(is_ship, salt@, x, y)),
{
    let payload = build_attack_proof_payload(is_ship, salt, x, y);
    keccak256(&payload)
}

} // verus!
