use battleship::address::{Address, AddressKind};
use battleship::contract::BattleshipContract;
use battleship::error::Error;
use soroban_sdk::{Bytes, Env};

const LEDGER: u32 = 100;

fn account(tag: u8) -> Address {
    Address::new(AddressKind::Account, [tag; 32])
}

fn contract_address(tag: u8) -> Address {
    Address::new(AddressKind::Contract, [tag; 32])
}

fn setup_test() -> (BattleshipContract, Address, Address, Address) {
    let hub_addr = contract_address(0xb0);
    let admin = account(0xad);
    let mut contract = BattleshipContract::new(admin, hub_addr);
    assert_eq!(contract.set_bet_token(contract_address(0x70)).result, Ok(()));
    let player1 = account(1);
    let player2 = account(2);
    (contract, player1, player2, hub_addr)
}

fn fund(contract: &mut BattleshipContract, session_id: u32, player1: Address, player2: Address) {
    assert_eq!(contract.deposit_stake(session_id, player1).result, Ok(()));
    assert_eq!(contract.deposit_stake(session_id, player2).result, Ok(()));
}

fn commit_for(env: &Env, is_ship: bool) -> [u8; 32] {
    let mut payload = Bytes::new(env);
    payload.push_back(if is_ship { 1 } else { 0 });
    payload.append(&Bytes::from_array(env, &[9u8; 32]));
    env.crypto().keccak256(&payload).to_array()
}

fn build_board(env: &Env, board_size: u32, ship_indexes: &[u32]) -> Vec<[u8; 32]> {
    let mut board = Vec::new();
    let total = board_size * board_size;
    let hit = commit_for(env, true);
    let miss = commit_for(env, false);

    for i in 0..total {
        let mut is_ship = false;
        let mut idx = 0usize;
        while idx < ship_indexes.len() {
            if ship_indexes[idx] == i {
                is_ship = true;
                break;
            }
            idx += 1;
        }
        if is_ship {
            board.push(hit);
        } else {
            board.push(miss);
        }
    }

    board
}

fn proof_hash_for(env: &Env, is_ship: bool, x: u32, y: u32) -> [u8; 32] {
    let mut payload = Bytes::new(env);
    payload.push_back(if is_ship { 1 } else { 0 });
    payload.append(&Bytes::from_array(env, &[9u8; 32]));
    payload.push_back(((x >> 24) & 0xff) as u8);
    payload.push_back(((x >> 16) & 0xff) as u8);
    payload.push_back(((x >> 8) & 0xff) as u8);
    payload.push_back((x & 0xff) as u8);
    payload.push_back(((y >> 24) & 0xff) as u8);
    payload.push_back(((y >> 16) & 0xff) as u8);
    payload.push_back(((y >> 8) & 0xff) as u8);
    payload.push_back((y & 0xff) as u8);
    env.crypto().keccak256(&payload).to_array()
}

fn assert_contract_error(result: &Result<(), Error>, expected_error: Error) {
    match result {
        Err(actual_error) => {
            assert_eq!(*actual_error, expected_error);
        }
        _ => panic!("Expected {:?}", expected_error),
    }
}

#[test]
fn test_start_commit_attack_resolve() {
    let env = Env::default();
    let (mut client, player1, player2, _hub_addr) = setup_test();

    let session_id = 77u32;
    let points = 100_0000000i128;

    assert_eq!(client.start_game(session_id, player1, player2, points, points).result, Ok(()));
    fund(&mut client, session_id, player1, player2);

    let board_size = 10;
    let first_board = build_board(&env, board_size, &[0, 1, 2]);
    let second_board = build_board(&env, board_size, &[0, 5, 10]);

    assert_eq!(client.commit_board(session_id, player1, first_board, 3, None, None).result, Ok(()));
    assert_eq!(client.commit_board(session_id, player2, second_board, 3, None, None).result, Ok(()));

    let game = client.get_game(session_id).unwrap();
    assert!(game.turn.is_some());
    assert_eq!(game.turn.unwrap(), player1);

    assert_eq!(client.attack(LEDGER, player1, session_id, player1, 0, 0).result, Ok(()));

    let salt = vec![9u8; 32];
    assert_eq!(
        client
            .resolve_attack(
                LEDGER,
                player2,
                session_id,
                player2,
                true,
                &salt,
                proof_hash_for(&env, true, 0, 0),
                None,
            )
            .result,
        Ok(())
    );

    let updated = client.get_game(session_id).unwrap();
    assert_eq!(updated.player1_hits, 1);
    assert!(updated.pending_attacker.is_none());
    assert_eq!(updated.turn.unwrap(), player2);
}

#[test]
fn test_reject_duplicate_attack() {
    let env = Env::default();
    let (mut client, player1, player2, _hub_addr) = setup_test();

    let session_id = 88u32;
    let points = 100_0000000i128;

    assert_eq!(client.start_game(session_id, player1, player2, points, points).result, Ok(()));
    fund(&mut client, session_id, player1, player2);

    let board_size = 10;
    let first_board = build_board(&env, board_size, &[0, 1, 2]);
    let second_board = build_board(&env, board_size, &[0, 5, 10]);

    assert_eq!(client.commit_board(session_id, player1, first_board, 3, None, None).result, Ok(()));
    assert_eq!(client.commit_board(session_id, player2, second_board, 3, None, None).result, Ok(()));

    let salt = vec![9u8; 32];

    assert_eq!(client.attack(LEDGER, player1, session_id, player1, 0, 0).result, Ok(()));
    assert_eq!(
        client
            .resolve_attack(
                LEDGER,
                player2,
                session_id,
                player2,
                true,
                &salt,
                proof_hash_for(&env, true, 0, 0),
                None,
            )
            .result,
        Ok(())
    );

    assert_eq!(client.attack(LEDGER, player2, session_id, player2, 0, 0).result, Ok(()));
    assert_eq!(
        client
            .resolve_attack(
                LEDGER,
                player1,
                session_id,
                player1,
                true,
                &salt,
                proof_hash_for(&env, true, 0, 0),
                None,
            )
            .result,
        Ok(())
    );

    let err = client.attack(LEDGER, player1, session_id, player1, 0, 0).result;
    assert_contract_error(&err, Error::AlreadyAttacked);
}

#[test]
fn test_invalid_reveal_fails() {
    let env = Env::default();
    let (mut client, player1, player2, _hub_addr) = setup_test();

    let session_id = 99u32;
    let points = 100_0000000i128;

    assert_eq!(client.start_game(session_id, player1, player2, points, points).result, Ok(()));
    fund(&mut client, session_id, player1, player2);

    let board_size = 10;
    let first_board = build_board(&env, board_size, &[0, 1, 2]);
    let second_board = build_board(&env, board_size, &[0, 5, 10]);

    assert_eq!(client.commit_board(session_id, player1, first_board, 3, None, None).result, Ok(()));
    assert_eq!(client.commit_board(session_id, player2, second_board, 3, None, None).result, Ok(()));

    assert_eq!(client.attack(LEDGER, player1, session_id, player1, 0, 0).result, Ok(()));

    let bad_salt = vec![7u8; 32];
    let err = client
        .resolve_attack(
            LEDGER,
            player2,
            session_id,
            player2,
            true,
            &bad_salt,
            proof_hash_for(&env, true, 0, 0),
            None,
        )
        .result;
    assert_contract_error(&err, Error::InvalidCellReveal);
}

#[test]
fn test_invalid_proof_hash_fails() {
    let env = Env::default();
    let (mut client, player1, player2, _hub_addr) = setup_test();

    let session_id = 101u32;
    let points = 100_0000000i128;

    assert_eq!(client.start_game(session_id, player1, player2, points, points).result, Ok(()));
    fund(&mut client, session_id, player1, player2);

    let board_size = 10;
    let first_board = build_board(&env, board_size, &[0, 1, 2]);
    let second_board = build_board(&env, board_size, &[0, 5, 10]);

    assert_eq!(client.commit_board(session_id, player1, first_board, 3, None, None).result, Ok(()));
    assert_eq!(client.commit_board(session_id, player2, second_board, 3, None, None).result, Ok(()));

    assert_eq!(client.attack(LEDGER, player1, session_id, player1, 0, 0).result, Ok(()));

    let salt = vec![9u8; 32];
    let err = client
        .resolve_attack(LEDGER, player2, session_id, player2, true, &salt, [9u8; 32], None)
        .result;
    assert_contract_error(&err, Error::InvalidProofHash);
}

#[test]
fn test_zk_verifier_admin_config() {
    let (mut client, _player1, _player2, _hub_addr) = setup_test();

    assert!(client.get_zk_verifier().is_none());

    let zk_contract = contract_address(0x2c);
    client.set_zk_verifier(zk_contract);
    assert_eq!(client.get_zk_verifier().unwrap(), zk_contract);

    client.clear_zk_verifier();
    assert!(client.get_zk_verifier().is_none());
}
