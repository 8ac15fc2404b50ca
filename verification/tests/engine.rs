use battleship::address::{Address, AddressKind};
use battleship::codec::{attack_proof_hash, cell_reveal_hash, compute_commitment_root};
use battleship::config::{Config, ConfigKey, DataKey};
use battleship::contract::{BattleshipContract, Outcome};
use battleship::step::{AttackVerification, BoardVerification};
use battleship::effect::{Effect, ProofMessage};
use battleship::error::Error;
use battleship::game::Phase;
use battleship::session::{GrantKey, SessionGrant};

const NOW: u32 = 100;
const SESSION: u32 = 7;
const SALT: [u8; 32] = [9u8; 32];

fn account(tag: u8) -> Address {
    Address::new(AddressKind::Account, [tag; 32])
}

fn service(tag: u8) -> Address {
    Address::new(AddressKind::Contract, [tag; 32])
}

fn admin() -> Address {
    account(0xad)
}

fn hub() -> Address {
    service(0xb0)
}

fn token() -> Address {
    service(0x70)
}

fn anna() -> Address {
    account(1)
}

fn bert() -> Address {
    account(2)
}

fn board(ships: &[u32]) -> Vec<[u8; 32]> {
    let hit = cell_reveal_hash(true, &SALT.to_vec());
    let miss = cell_reveal_hash(false, &SALT.to_vec());
    (0..100u32).map(|i| if ships.contains(&i) { hit } else { miss }).collect()
}

fn fleet() -> Vec<u32> {
    (0..17u32).collect()
}

fn save(session_id: u32) -> Vec<Effect> {
    vec![
        Effect::Write { key: DataKey::Game(session_id) },
        Effect::ExtendTtl { key: DataKey::Game(session_id), ledgers: 518_400 },
    ]
}

fn auth(address: Address) -> Effect {
    Effect::RequireAuth { address }
}

fn ok(out: Outcome) -> Vec<Effect> {
    assert_eq!(out.result, Ok(()));
    out.effects
}

fn engine() -> BattleshipContract {
    BattleshipContract::new(admin(), hub())
}

fn started(points1: i128, points2: i128) -> BattleshipContract {
    let mut c = engine();
    ok(c.set_bet_token(token()));
    ok(c.start_game(SESSION, anna(), bert(), points1, points2));
    c
}

fn active(points: i128, ships1: &[u32], ships2: &[u32]) -> BattleshipContract {
    let mut c = started(points, points);
    if points > 0 {
        ok(c.deposit_stake(SESSION, anna()));
        ok(c.deposit_stake(SESSION, bert()));
    }
    ok(c.commit_board(SESSION, anna(), board(ships1), ships1.len().max(1) as u32, None, None));
    ok(c.commit_board(SESSION, bert(), board(ships2), ships2.len().max(1) as u32, None, None));
    c
}

fn open_cell(
    c: &mut BattleshipContract,
    defender: Address,
    is_ship: bool,
    x: u32,
    y: u32,
) -> Outcome {
    let salt = SALT.to_vec();
    let proof = attack_proof_hash(is_ship, &salt, x, y);
    c.resolve_attack(NOW, defender, SESSION, defender, is_ship, &salt, proof, None)
}

fn round(c: &mut BattleshipContract, attacker: Address, defender: Address, x: u32, y: u32, is_ship: bool) -> Vec<Effect> {
    ok(c.attack(NOW, attacker, SESSION, attacker, x, y));
    ok(open_cell(c, defender, is_ship, x, y))
}

#[test]
fn error_codes_run_from_1_to_27() {
    let all = [
        Error::GameNotFound,
        Error::NotPlayer,
        Error::GameAlreadyEnded,
        Error::InvalidBoardCommitmentLength,
        Error::BoardAlreadyCommitted,
        Error::BoardsNotReady,
        Error::NotYourTurn,
        Error::InvalidCoordinate,
        Error::AlreadyAttacked,
        Error::PendingAttackResolution,
        Error::NoPendingAttack,
        Error::NotPendingDefender,
        Error::InvalidCellReveal,
        Error::InvalidShipCount,
        Error::InvalidProofHash,
        Error::MissingProofSignature,
        Error::InvalidStakeAmount,
        Error::BetTokenNotConfigured,
        Error::AlreadyDeposited,
        Error::StakesNotFunded,
        Error::InvalidFeeBps,
        Error::ZkVerifierNotConfigured,
        Error::ZkVerificationFailed,
        Error::ZkProofRequired,
        Error::InvalidSession,
        Error::SessionExpired,
        Error::InvalidSessionConfig,
    ];
    for (i, e) in all.iter().enumerate() {
        assert_eq!(e.code(), i as u32 + 1);
    }
}

#[test]
fn fresh_engine_has_default_settings() {
    let c = engine();
    assert_eq!(
        c.config(),
        Config {
            admin: admin(),
            game_hub: hub(),
            bet_token: None,
            fee_recipient: admin(),
            fee_bps: 500,
            verifier_key: None,
            zk_verifier: None,
        }
    );
    assert_eq!(c.get_admin(), admin());
    assert_eq!(c.get_hub(), hub());
    assert_eq!(c.get_fee_bps(), 500);
    assert_eq!(c.get_fee_recipient(), admin());
    assert_eq!(c.get_bet_token(), None);
    assert_eq!(c.get_verifier(), None);
    assert_eq!(c.get_zk_verifier(), None);
    assert!(c.has(&DataKey::Admin));
    assert!(c.has(&DataKey::GameHubAddress));
    assert!(!c.has(&DataKey::VerifierPubKey));
    assert!(!c.has(&DataKey::ZkVerifierContract));
    assert!(!c.has(&DataKey::Game(SESSION)));
    assert!(!c.has(&DataKey::Session(anna(), bert(), SESSION)));
    assert!(!c.config().has(ConfigKey::BetToken));
    assert!(c.config().has(ConfigKey::FeeBps));
    assert!(c.config().has(ConfigKey::FeeRecipient));
    assert_eq!(c.get_game(SESSION), Err(Error::GameNotFound));
}

#[test]
fn administrator_changes_settings() {
    let mut c = engine();
    let next = account(0xae);
    assert_eq!(
        ok(c.set_fee_bps(2000)),
        vec![auth(admin()), Effect::WriteConfig { setting: ConfigKey::FeeBps }]
    );
    assert_eq!(c.get_fee_bps(), 2000);
    assert_eq!(
        ok(c.set_fee_recipient(account(0xfe))),
        vec![auth(admin()), Effect::WriteConfig { setting: ConfigKey::FeeRecipient }]
    );
    assert_eq!(c.get_fee_recipient(), account(0xfe));
    assert_eq!(
        ok(c.set_bet_token(token())),
        vec![auth(admin()), Effect::WriteConfig { setting: ConfigKey::BetToken }]
    );
    assert_eq!(c.get_bet_token(), Some(token()));
    assert_eq!(
        ok(c.clear_bet_token()),
        vec![auth(admin()), Effect::EraseConfig { setting: ConfigKey::BetToken }]
    );
    assert_eq!(c.get_bet_token(), None);
    assert_eq!(
        ok(c.set_verifier([5u8; 32])),
        vec![auth(admin()), Effect::Write { key: DataKey::VerifierPubKey }]
    );
    assert_eq!(c.get_verifier(), Some([5u8; 32]));
    assert!(c.has(&DataKey::VerifierPubKey));
    assert_eq!(
        ok(c.clear_verifier()),
        vec![auth(admin()), Effect::Erase { key: DataKey::VerifierPubKey }]
    );
    assert_eq!(c.get_verifier(), None);
    assert_eq!(
        ok(c.set_zk_verifier(service(0x2c))),
        vec![auth(admin()), Effect::Write { key: DataKey::ZkVerifierContract }]
    );
    assert_eq!(
        ok(c.clear_zk_verifier()),
        vec![auth(admin()), Effect::Erase { key: DataKey::ZkVerifierContract }]
    );
    assert_eq!(
        ok(c.set_hub(service(0xb1))),
        vec![auth(admin()), Effect::Write { key: DataKey::GameHubAddress }]
    );
    assert_eq!(c.get_hub(), service(0xb1));
    assert_eq!(
        ok(c.upgrade([3u8; 32])),
        vec![auth(admin()), Effect::UpgradeCode { wasm_hash: [3u8; 32] }]
    );
    assert_eq!(ok(c.set_admin(next)), vec![auth(admin()), Effect::Write { key: DataKey::Admin }]);
    assert_eq!(c.get_admin(), next);
    assert_eq!(ok(c.set_fee_bps(0)), vec![auth(next), Effect::WriteConfig { setting: ConfigKey::FeeBps }]);
}

#[test]
fn fee_above_the_cap_is_refused() {
    let mut c = engine();
    let out = c.set_fee_bps(2001);
    assert_eq!(out.result, Err(Error::InvalidFeeBps));
    assert_eq!(out.effects, vec![auth(admin())]);
    assert_eq!(c.get_fee_bps(), 500);
}

#[test]
fn start_game_checks_players_and_stakes() {
    let mut c = engine();
    let out = c.start_game(SESSION, anna(), anna(), 0, 0);
    assert_eq!(out, Outcome { effects: vec![], result: Err(Error::NotPlayer) });
    let out = c.start_game(SESSION, anna(), bert(), -1, 0);
    assert_eq!(out, Outcome { effects: vec![], result: Err(Error::InvalidStakeAmount) });
    let out = c.start_game(SESSION, anna(), bert(), 0, -1);
    assert_eq!(out.result, Err(Error::InvalidStakeAmount));
    assert!(!c.has_game(SESSION));
}

#[test]
fn start_game_asks_both_players_then_the_registry_then_saves() {
    let mut c = engine();
    let effects = ok(c.start_game(SESSION, anna(), bert(), 30, 40));
    let mut expected = vec![
        Effect::RequireAuthForArgs { address: anna(), session_id: SESSION, points: 30 },
        Effect::RequireAuthForArgs { address: bert(), session_id: SESSION, points: 40 },
        Effect::NotifyGameStarted {
            hub: hub(),
            session_id: SESSION,
            player1: anna(),
            player2: bert(),
            player1_points: 30,
            player2_points: 40,
        },
    ];
    expected.extend(save(SESSION));
    assert_eq!(effects, expected);
    let g = c.get_game(SESSION).unwrap();
    assert_eq!(g.board_size, 10);
    assert_eq!(g.phase(), Phase::Setup);
    assert!(!g.player1_deposited && !g.player2_deposited && !g.payout_processed);
    assert_eq!((g.player1_hits, g.player2_hits), (0, 0));
    assert!(g.player1_board.is_none() && g.turn.is_none() && g.winner.is_none());
    assert!(c.has(&DataKey::Game(SESSION)));
}

#[test]
fn match_without_stakes_starts_settled_and_moves_no_tokens() {
    let mut c = engine();
    ok(c.start_game(SESSION, anna(), bert(), 0, 0));
    {
        let g = c.get_game(SESSION).unwrap();
        assert!(g.player1_deposited && g.player2_deposited && g.payout_processed);
    }
    assert_eq!(ok(c.deposit_stake(SESSION, anna())), vec![auth(anna())]);
    assert_eq!(ok(c.deposit_stake(SESSION, account(9))), vec![auth(account(9))]);
    let ships: Vec<u32> = vec![0];
    ok(c.commit_board(SESSION, anna(), board(&ships), 1, None, None));
    ok(c.commit_board(SESSION, bert(), board(&ships), 1, None, None));
    let mut effects = round(&mut c, anna(), bert(), 0, 0, true);
    let g = c.get_game(SESSION).unwrap();
    assert_eq!(g.winner, Some(anna()));
    assert!(g.payout_processed);
    let ending = effects.split_off(1);
    assert_eq!(effects, vec![auth(bert())]);
    let mut expected =
        vec![Effect::NotifyGameEnded { hub: hub(), session_id: SESSION, player1_won: true }];
    expected.extend(save(SESSION));
    assert_eq!(ending, expected);
}

#[test]
fn one_sided_stake_counts_the_empty_side_as_deposited() {
    let mut c = started(50, 0);
    {
        let g = c.get_game(SESSION).unwrap();
        assert!(!g.player1_deposited && g.player2_deposited && !g.payout_processed);
    }
    assert_eq!(c.deposit_stake(SESSION, bert()).result, Err(Error::AlreadyDeposited));
    let mut expected =
        vec![auth(anna()), Effect::Deposit { token: token(), from: anna(), amount: 50 }];
    expected.extend(save(SESSION));
    assert_eq!(ok(c.deposit_stake(SESSION, anna())), expected);
    assert!(c.get_game(SESSION).unwrap().player1_deposited);
}

#[test]
fn deposit_refusals() {
    let mut c = engine();
    assert_eq!(
        c.deposit_stake(SESSION, anna()),
        Outcome { effects: vec![auth(anna())], result: Err(Error::GameNotFound) }
    );
    ok(c.start_game(SESSION, anna(), bert(), 10, 10));
    assert_eq!(c.deposit_stake(SESSION, anna()).result, Err(Error::BetTokenNotConfigured));
    assert_eq!(c.deposit_stake(SESSION, account(9)).result, Err(Error::NotPlayer));
    ok(c.set_bet_token(token()));
    ok(c.deposit_stake(SESSION, anna()));
    assert_eq!(c.deposit_stake(SESSION, anna()).result, Err(Error::AlreadyDeposited));
    ok(c.deposit_stake(SESSION, bert()));
    assert_eq!(c.deposit_stake(SESSION, bert()).result, Err(Error::AlreadyDeposited));
}

#[test]
fn deposit_after_the_end_is_refused() {
    let mut c = active(0, &[0], &[0]);
    round(&mut c, anna(), bert(), 0, 0, true);
    assert_eq!(c.deposit_stake(SESSION, anna()).result, Err(Error::GameAlreadyEnded));
}

#[test]
fn commit_board_refusals() {
    let mut c = engine();
    assert_eq!(
        c.commit_board(SESSION, anna(), board(&[0]), 1, None, None),
        Outcome { effects: vec![auth(anna())], result: Err(Error::GameNotFound) }
    );
    ok(c.set_bet_token(token()));
    ok(c.start_game(SESSION, anna(), bert(), 10, 10));
    let mut short = board(&[0]);
    short.pop();
    assert_eq!(
        c.commit_board(SESSION, anna(), short, 1, None, None).result,
        Err(Error::InvalidBoardCommitmentLength)
    );
    let mut long = board(&[0]);
    long.push([0u8; 32]);
    assert_eq!(
        c.commit_board(SESSION, anna(), long, 1, None, None).result,
        Err(Error::InvalidBoardCommitmentLength)
    );
    assert_eq!(
        c.commit_board(SESSION, anna(), board(&[0]), 0, None, None).result,
        Err(Error::InvalidShipCount)
    );
    assert_eq!(
        c.commit_board(SESSION, anna(), board(&[0]), 101, None, None).result,
        Err(Error::InvalidShipCount)
    );
    assert_eq!(
        c.commit_board(SESSION, anna(), board(&[0]), 1, None, None).result,
        Err(Error::StakesNotFunded)
    );
    ok(c.deposit_stake(SESSION, anna()));
    assert_eq!(
        c.commit_board(SESSION, anna(), board(&[0]), 1, None, None).result,
        Err(Error::StakesNotFunded)
    );
    ok(c.deposit_stake(SESSION, bert()));
    assert_eq!(
        c.commit_board(SESSION, account(9), board(&[0]), 1, None, None).result,
        Err(Error::NotPlayer)
    );
    ok(c.set_zk_verifier(service(0x2c)));
    assert_eq!(
        c.commit_board(SESSION, anna(), board(&[0]), 1, None, None).result,
        Err(Error::ZkProofRequired)
    );
    ok(c.clear_zk_verifier());
    ok(c.commit_board(SESSION, anna(), board(&[0]), 100, None, None));
    assert_eq!(c.get_game(SESSION).unwrap().player1_ship_cells, Some(100));
}

#[test]
fn second_commit_by_the_same_player_is_refused() {
    let mut c = started(0, 0);
    let mut expected = vec![auth(bert())];
    expected.extend(save(SESSION));
    assert_eq!(ok(c.commit_board(SESSION, bert(), board(&[3]), 1, None, None)), expected);
    {
        let g = c.get_game(SESSION).unwrap();
        assert_eq!(g.phase(), Phase::Setup);
        assert!(g.turn.is_none());
        assert_eq!(g.player2_board, Some(board(&[3])));
        assert_eq!(g.player2_ship_cells, Some(1));
        assert_eq!(g.player1_ship_cells, None);
    }
    let again = c.commit_board(SESSION, bert(), board(&[4, 5]), 2, None, None);
    assert_eq!(
        again,
        Outcome { effects: vec![auth(bert())], result: Err(Error::BoardAlreadyCommitted) }
    );
    assert_eq!(c.get_game(SESSION).unwrap().player2_board, Some(board(&[3])));
}

#[test]
fn player_one_moves_first_whoever_commits_last() {
    let mut c = started(0, 0);
    ok(c.commit_board(SESSION, bert(), board(&[3]), 1, None, None));
    ok(c.commit_board(SESSION, anna(), board(&[4]), 1, None, None));
    let g = c.get_game(SESSION).unwrap();
    assert_eq!(g.turn, Some(anna()));
    assert_eq!(g.phase(), Phase::Active);
    assert_eq!(g.player1_board, Some(board(&[4])));
    let c = active(0, &[1], &[2]);
    assert_eq!(c.get_game(SESSION).unwrap().turn, Some(anna()));
}

#[test]
fn signed_board_needs_hash_and_signature() {
    let mut c = started(0, 0);
    ok(c.set_verifier([5u8; 32]));
    let cells = board(&[0, 1, 2]);
    assert_eq!(
        c.commit_board(SESSION, anna(), cells.clone(), 3, None, Some([6u8; 64])).result,
        Err(Error::MissingProofSignature)
    );
    assert_eq!(
        c.commit_board(SESSION, anna(), cells.clone(), 3, Some([7u8; 32]), None).result,
        Err(Error::MissingProofSignature)
    );
    let effects = ok(c.commit_board(SESSION, anna(), cells.clone(), 3, Some([7u8; 32]), Some([6u8; 64])));
    let message = ProofMessage::Board {
        session_id: SESSION,
        ship_cells: 3,
        commitment_root: compute_commitment_root(&cells),
        proof_hash: [7u8; 32],
    };
    let mut expected = vec![
        auth(anna()),
        Effect::VerifySignature { public_key: [5u8; 32], message, signature: [6u8; 64] },
    ];
    expected.extend(save(SESSION));
    assert_eq!(effects, expected);
    let bytes = message.to_bytes();
    assert_eq!(bytes.len(), 73);
    assert_eq!(&bytes[..9], &[1, 0, 0, 0, 7, 0, 0, 0, 3]);
    assert_eq!(&bytes[9..41], &compute_commitment_root(&cells));
    assert_eq!(&bytes[41..], &[7u8; 32]);
    let again = c.commit_board(SESSION, anna(), cells, 3, Some([7u8; 32]), Some([6u8; 64]));
    assert_eq!(again.result, Err(Error::BoardAlreadyCommitted));
    assert_eq!(again.effects.len(), 2);
}

#[test]
fn board_on_the_word_of_the_service() {
    let mut c = started(0, 0);
    let cells = board(&[0, 1, 2]);
    assert_eq!(
        c.board_verification(SESSION, &cells, 3),
        Err(Error::ZkVerifierNotConfigured)
    );
    assert_eq!(
        c.commit_board_zk(SESSION, anna(), cells.clone(), 3, true).result,
        Err(Error::ZkVerifierNotConfigured)
    );
    ok(c.set_zk_verifier(service(0x2c)));
    assert_eq!(c.board_verification(8, &cells, 3), Err(Error::GameNotFound));
    assert_eq!(c.board_verification(SESSION, &cells, 0), Err(Error::InvalidShipCount));
    assert_eq!(
        c.board_verification(SESSION, &cells, 3),
        Ok(BoardVerification {
            verifier: service(0x2c),
            session_id: SESSION,
            ship_cells: 3,
            commitment_root: compute_commitment_root(&cells),
        })
    );
    assert_eq!(
        c.commit_board_zk(SESSION, anna(), cells.clone(), 3, false),
        Outcome { effects: vec![auth(anna())], result: Err(Error::ZkVerificationFailed) }
    );
    assert!(c.get_game(SESSION).unwrap().player1_board.is_none());
    let mut expected = vec![auth(anna())];
    expected.extend(save(SESSION));
    assert_eq!(ok(c.commit_board_zk(SESSION, anna(), cells.clone(), 3, true)), expected);
    assert_eq!(
        c.commit_board_zk(SESSION, anna(), cells.clone(), 3, true).result,
        Err(Error::BoardAlreadyCommitted)
    );
    assert_eq!(
        c.commit_board_zk(SESSION, account(9), cells.clone(), 3, true).result,
        Err(Error::NotPlayer)
    );
    ok(c.commit_board_zk(SESSION, bert(), cells, 3, true));
    assert_eq!(c.get_game(SESSION).unwrap().turn, Some(anna()));
}

#[test]
fn attack_refusals() {
    let mut c = engine();
    assert_eq!(
        c.attack(NOW, anna(), SESSION, anna(), 0, 0),
        Outcome { effects: vec![auth(anna())], result: Err(Error::GameNotFound) }
    );
    ok(c.set_bet_token(token()));
    ok(c.start_game(SESSION, anna(), bert(), 10, 10));
    assert_eq!(c.attack(NOW, anna(), SESSION, anna(), 0, 0).result, Err(Error::StakesNotFunded));
    ok(c.deposit_stake(SESSION, anna()));
    ok(c.deposit_stake(SESSION, bert()));
    assert_eq!(c.attack(NOW, anna(), SESSION, anna(), 10, 0).result, Err(Error::InvalidCoordinate));
    assert_eq!(c.attack(NOW, anna(), SESSION, anna(), 0, 10).result, Err(Error::InvalidCoordinate));
    assert_eq!(c.attack(NOW, anna(), SESSION, anna(), 0, 0).result, Err(Error::BoardsNotReady));
    ok(c.commit_board(SESSION, anna(), board(&[0]), 1, None, None));
    assert_eq!(c.attack(NOW, anna(), SESSION, anna(), 0, 0).result, Err(Error::BoardsNotReady));
    ok(c.commit_board(SESSION, bert(), board(&[0]), 1, None, None));
    assert_eq!(c.attack(NOW, bert(), SESSION, bert(), 0, 0).result, Err(Error::NotYourTurn));
    assert_eq!(
        c.attack(NOW, account(9), SESSION, account(9), 0, 0).result,
        Err(Error::NotYourTurn)
    );
    let mut expected = vec![auth(anna())];
    expected.extend(save(SESSION));
    assert_eq!(ok(c.attack(NOW, anna(), SESSION, anna(), 9, 9)), expected);
    let g = c.get_game(SESSION).unwrap();
    assert_eq!(g.phase(), Phase::AttackPending);
    assert_eq!(g.pending_attacker, Some(anna()));
    assert_eq!(g.pending_defender, Some(bert()));
    assert_eq!((g.pending_x, g.pending_y), (Some(9), Some(9)));
    assert_eq!(g.turn, Some(anna()));
    assert!(g.player1_attacks.is_empty());
}

#[test]
fn attack_while_one_is_pending_is_refused() {
    let mut c = active(0, &[0], &[0]);
    ok(c.attack(NOW, anna(), SESSION, anna(), 3, 4));
    for (x, y) in [(3, 4), (0, 0), (9, 9)] {
        assert_eq!(
            c.attack(NOW, anna(), SESSION, anna(), x, y).result,
            Err(Error::PendingAttackResolution)
        );
        assert_eq!(
            c.attack(NOW, bert(), SESSION, bert(), x, y).result,
            Err(Error::PendingAttackResolution)
        );
    }
    let g = c.get_game(SESSION).unwrap();
    assert_eq!((g.pending_x, g.pending_y), (Some(3), Some(4)));
}

#[test]
fn resolve_without_attack_is_refused() {
    let mut c = active(0, &[0], &[0]);
    assert_eq!(open_cell(&mut c, bert(), true, 0, 0).result, Err(Error::NoPendingAttack));
    assert_eq!(open_cell(&mut c, anna(), false, 0, 0).result, Err(Error::NoPendingAttack));
    ok(c.set_zk_verifier(service(0x2c)));
    assert_eq!(
        c.resolve_attack_zk(NOW, bert(), SESSION, bert(), true).result,
        Err(Error::NoPendingAttack)
    );
    let mut c = started(0, 0);
    assert_eq!(open_cell(&mut c, bert(), true, 0, 0).result, Err(Error::NoPendingAttack));
    assert_eq!(open_cell(&mut c, bert(), true, 0, 0).effects, vec![auth(bert())]);
    let mut c = engine();
    assert_eq!(open_cell(&mut c, bert(), true, 0, 0).result, Err(Error::GameNotFound));
}

#[test]
fn same_cell_twice_is_refused_in_every_rotation() {
    let size = 10u32;
    for (x, y) in [(2u32, 7u32), (0, 0), (9, 0), (4, 4)] {
        let corners = [(x, y), (size - 1 - y, x), (size - 1 - x, size - 1 - y), (y, size - 1 - x)];
        let mut c = active(0, &[], &[]);
        let mut seen: Vec<(u32, u32)> = Vec::new();
        for (cx, cy) in corners {
            if seen.contains(&(cx, cy)) {
                continue;
            }
            seen.push((cx, cy));
            round(&mut c, anna(), bert(), cx, cy, false);
            round(&mut c, bert(), anna(), cx, cy, false);
        }
        for (cx, cy) in seen.iter().copied() {
            assert_eq!(
                c.attack(NOW, anna(), SESSION, anna(), cx, cy).result,
                Err(Error::AlreadyAttacked)
            );
        }
        let g = c.get_game(SESSION).unwrap();
        let indexes: Vec<u32> = seen.iter().map(|(cx, cy)| cy * size + cx).collect();
        assert_eq!(g.player1_attacks, indexes);
        assert_eq!(g.player2_attacks, indexes);
        assert!(g.player1_hit_attacks.is_empty());
    }
}

#[test]
fn a_miss_passes_the_turn_and_counts_no_hit() {
    let mut c = active(0, &[0], &[5]);
    let mut expected = vec![auth(bert())];
    expected.extend(save(SESSION));
    assert_eq!(round(&mut c, anna(), bert(), 3, 2, false), expected);
    let g = c.get_game(SESSION).unwrap();
    assert_eq!(g.player1_attacks, vec![23]);
    assert!(g.player1_hit_attacks.is_empty());
    assert_eq!(g.player1_hits, 0);
    assert_eq!(g.turn, Some(bert()));
    assert_eq!(g.phase(), Phase::Active);
    assert!(g.pending_attacker.is_none() && g.pending_defender.is_none());
    assert!(g.pending_x.is_none() && g.pending_y.is_none());
}

#[test]
fn a_lie_about_the_cell_is_refused() {
    let mut c = active(0, &[0, 50], &[5, 55]);
    ok(c.attack(NOW, anna(), SESSION, anna(), 5, 0));
    assert_eq!(open_cell(&mut c, bert(), false, 5, 0).result, Err(Error::InvalidCellReveal));
    ok(open_cell(&mut c, bert(), true, 5, 0));
    ok(c.attack(NOW, bert(), SESSION, bert(), 1, 0));
    assert_eq!(open_cell(&mut c, anna(), true, 1, 0).result, Err(Error::InvalidCellReveal));
    ok(open_cell(&mut c, anna(), false, 1, 0));
}

#[test]
fn every_changed_salt_byte_spoils_the_reveal() {
    let mut c = active(0, &[0], &[0]);
    ok(c.attack(NOW, anna(), SESSION, anna(), 0, 0));
    for i in 0..32 {
        let mut salt = SALT.to_vec();
        salt[i] ^= 1;
        let proof = attack_proof_hash(true, &salt, 0, 0);
        let out = c.resolve_attack(NOW, bert(), SESSION, bert(), true, &salt, proof, None);
        assert_eq!(out, Outcome { effects: vec![auth(bert())], result: Err(Error::InvalidCellReveal) });
    }
    let mut longer = SALT.to_vec();
    longer.push(9);
    let proof = attack_proof_hash(true, &longer, 0, 0);
    assert_eq!(
        c.resolve_attack(NOW, bert(), SESSION, bert(), true, &longer, proof, None).result,
        Err(Error::InvalidCellReveal)
    );
    assert_eq!(c.get_game(SESSION).unwrap().phase(), Phase::AttackPending);
    ok(open_cell(&mut c, bert(), true, 0, 0));
}

#[test]
fn proof_hash_must_bind_the_reveal_to_the_cell() {
    let mut c = active(0, &[0], &[0]);
    ok(c.attack(NOW, anna(), SESSION, anna(), 0, 0));
    let salt = SALT.to_vec();
    let good = attack_proof_hash(true, &salt, 0, 0);
    for i in 0..32 {
        let mut bad = good;
        bad[i] ^= 0x80;
        assert_eq!(
            c.resolve_attack(NOW, bert(), SESSION, bert(), true, &salt, bad, None).result,
            Err(Error::InvalidProofHash)
        );
    }
    for other in [attack_proof_hash(true, &salt, 1, 0), attack_proof_hash(true, &salt, 0, 1)] {
        assert_eq!(
            c.resolve_attack(NOW, bert(), SESSION, bert(), true, &salt, other, None).result,
            Err(Error::InvalidProofHash)
        );
    }
    ok(c.resolve_attack(NOW, bert(), SESSION, bert(), true, &salt, good, None));
}

#[test]
fn hashes_given_by_the_caller_are_what_is_checked() {
    let mut c = active(0, &[0], &[0]);
    ok(c.attack(NOW, anna(), SESSION, anna(), 0, 0));
    let hit = cell_reveal_hash(true, &SALT.to_vec());
    let out = c.resolve_attack_with_digests(NOW, bert(), SESSION, bert(), true, [0u8; 32], [1u8; 32], [1u8; 32], None);
    assert_eq!(out.result, Err(Error::InvalidCellReveal));
    let out = c.resolve_attack_with_digests(NOW, bert(), SESSION, bert(), true, hit, [1u8; 32], [2u8; 32], None);
    assert_eq!(out.result, Err(Error::InvalidProofHash));
    let out = c.resolve_attack_with_digests(NOW, bert(), SESSION, bert(), true, hit, [1u8; 32], [1u8; 32], None);
    assert_eq!(out.result, Ok(()));
    assert_eq!(c.get_game(SESSION).unwrap().player1_hits, 1);
}

#[test]
fn only_the_pending_defender_resolves() {
    let mut c = active(0, &[0], &[0]);
    ok(c.attack(NOW, anna(), SESSION, anna(), 0, 0));
    assert_eq!(open_cell(&mut c, anna(), true, 0, 0).result, Err(Error::NotPendingDefender));
    assert_eq!(open_cell(&mut c, account(9), true, 0, 0).result, Err(Error::NotPendingDefender));
    ok(c.set_zk_verifier(service(0x2c)));
    assert_eq!(open_cell(&mut c, bert(), true, 0, 0).result, Err(Error::ZkProofRequired));
    ok(c.clear_zk_verifier());
    ok(c.set_verifier([5u8; 32]));
    assert_eq!(open_cell(&mut c, bert(), true, 0, 0).result, Err(Error::MissingProofSignature));
    let salt = SALT.to_vec();
    let proof = attack_proof_hash(true, &salt, 0, 0);
    let out = c.resolve_attack(NOW, bert(), SESSION, bert(), true, &salt, proof, Some([6u8; 64]));
    let message =
        ProofMessage::Attack { session_id: SESSION, x: 0, y: 0, is_ship: true, proof_hash: proof };
    assert_eq!(
        out.effects[..2],
        [
            auth(bert()),
            Effect::VerifySignature { public_key: [5u8; 32], message, signature: [6u8; 64] }
        ]
    );
    assert_eq!(out.result, Ok(()));
    let bytes = message.to_bytes();
    assert_eq!(bytes.len(), 46);
    assert_eq!(&bytes[..14], &[2, 0, 0, 0, 7, 0, 0, 0, 0, 0, 0, 0, 0, 1]);
    assert_eq!(&bytes[14..], &proof);
}

#[test]
fn resolution_on_the_word_of_the_service() {
    let mut c = active(0, &[0], &[4]);
    ok(c.attack(NOW, anna(), SESSION, anna(), 4, 0));
    assert_eq!(
        c.attack_verification(NOW, bert(), SESSION, bert()),
        Err(Error::ZkVerifierNotConfigured)
    );
    assert_eq!(
        c.resolve_attack_zk(NOW, bert(), SESSION, bert(), true).result,
        Err(Error::ZkVerifierNotConfigured)
    );
    ok(c.set_zk_verifier(service(0x2c)));
    assert_eq!(c.attack_verification(NOW, anna(), SESSION, anna()), Err(Error::NotPendingDefender));
    assert_eq!(c.attack_verification(NOW, bert(), 8, bert()), Err(Error::GameNotFound));
    assert_eq!(c.attack_verification(NOW, account(9), SESSION, bert()), Err(Error::InvalidSession));
    assert_eq!(
        c.attack_verification(NOW, bert(), SESSION, bert()),
        Ok(AttackVerification {
            verifier: service(0x2c),
            session_id: SESSION,
            x: 4,
            y: 0,
            expected_commitment: cell_reveal_hash(true, &SALT.to_vec()),
        })
    );
    let mut expected = vec![
        auth(bert()),
        Effect::NotifyGameEnded { hub: hub(), session_id: SESSION, player1_won: true },
    ];
    expected.extend(save(SESSION));
    assert_eq!(ok(c.resolve_attack_zk(NOW, bert(), SESSION, bert(), true)), expected);
    let g = c.get_game(SESSION).unwrap();
    assert_eq!(g.winner, Some(anna()));
    assert_eq!(g.player1_hit_attacks, vec![4]);
    assert_eq!(
        c.resolve_attack_zk(NOW, bert(), SESSION, bert(), true).result,
        Err(Error::GameAlreadyEnded)
    );
    assert_eq!(c.attack_verification(NOW, bert(), SESSION, bert()), Err(Error::GameAlreadyEnded));
}

#[test]
fn seventeen_hits_win_and_settle_the_pot() {
    let stake = 1_000_000_000i128;
    let ships = fleet();
    let mut c = active(stake, &ships, &ships);
    ok(c.set_fee_recipient(account(0xfe)));
    for n in 0..17u32 {
        let (x, y) = (n % 10, n / 10);
        let effects = round(&mut c, anna(), bert(), x, y, true);
        if n < 16 {
            let mut expected = vec![auth(bert())];
            expected.extend(save(SESSION));
            assert_eq!(effects, expected);
            let g = c.get_game(SESSION).unwrap();
            assert_eq!(g.player1_hits, n + 1);
            assert!(g.winner.is_none() && !g.payout_processed);
            round(&mut c, bert(), anna(), 9 - x, 9 - y, false);
        } else {
            let mut expected = vec![
                auth(bert()),
                Effect::Payout { token: token(), to: anna(), amount: 1_900_000_000 },
                Effect::Payout { token: token(), to: account(0xfe), amount: 100_000_000 },
                Effect::NotifyGameEnded { hub: hub(), session_id: SESSION, player1_won: true },
            ];
            expected.extend(save(SESSION));
            assert_eq!(effects, expected);
        }
    }
    let g = c.get_game(SESSION).unwrap();
    assert_eq!(g.winner, Some(anna()));
    assert!(g.payout_processed);
    assert_eq!(g.phase(), Phase::Ended);
    assert_eq!(g.player1_hits, 17);
    assert_eq!(g.player1_hit_attacks, ships);
    assert_eq!(g.player2_hits, 0);
    assert_eq!(g.player2_attacks.len(), 16);
    assert_eq!(c.attack(NOW, bert(), SESSION, bert(), 5, 5).result, Err(Error::GameAlreadyEnded));
    assert_eq!(open_cell(&mut c, anna(), true, 0, 0).result, Err(Error::GameAlreadyEnded));
    assert_eq!(
        c.commit_board(SESSION, anna(), board(&ships), 17, None, None).result,
        Err(Error::GameAlreadyEnded)
    );
}

#[test]
fn player_two_can_win_too() {
    let mut c = active(40, &[7], &[8, 9]);
    ok(c.set_fee_bps(2000));
    round(&mut c, anna(), bert(), 0, 0, false);
    let effects = round(&mut c, bert(), anna(), 7, 0, true);
    let mut expected = vec![
        auth(anna()),
        Effect::Payout { token: token(), to: bert(), amount: 64 },
        Effect::Payout { token: token(), to: admin(), amount: 16 },
        Effect::NotifyGameEnded { hub: hub(), session_id: SESSION, player1_won: false },
    ];
    expected.extend(save(SESSION));
    assert_eq!(effects, expected);
    assert_eq!(c.get_game(SESSION).unwrap().winner, Some(bert()));
}

#[test]
fn a_win_without_token_changes_nothing() {
    let mut c = active(40, &[7], &[8]);
    ok(c.clear_bet_token());
    ok(c.attack(NOW, anna(), SESSION, anna(), 8, 0));
    let out = open_cell(&mut c, bert(), true, 8, 0);
    assert_eq!(out, Outcome { effects: vec![auth(bert())], result: Err(Error::BetTokenNotConfigured) });
    let g = c.get_game(SESSION).unwrap();
    assert_eq!(g.phase(), Phase::AttackPending);
    assert_eq!(g.player1_hits, 0);
    assert!(g.player1_attacks.is_empty());
    ok(c.set_bet_token(token()));
    ok(open_cell(&mut c, bert(), true, 8, 0));
    assert_eq!(c.get_game(SESSION).unwrap().winner, Some(anna()));
}

#[test]
fn grants_are_checked_when_given() {
    let mut c = started(0, 0);
    let d = account(0xd0);
    for (delegate, ttl) in [(anna(), 10u32), (d, 0), (d, 172_801)] {
        assert_eq!(
            c.authorize_session(NOW, SESSION, anna(), delegate, ttl, 1),
            Outcome { effects: vec![auth(anna())], result: Err(Error::InvalidSessionConfig) }
        );
    }
    assert_eq!(c.authorize_session(NOW, 8, anna(), d, 10, 1).result, Err(Error::GameNotFound));
    assert_eq!(
        c.authorize_session(NOW, SESSION, account(9), d, 10, 1).result,
        Err(Error::NotPlayer)
    );
    assert_eq!(c.get_session(SESSION, anna(), d), None);
    let key = DataKey::Session(anna(), d, SESSION);
    assert_eq!(
        ok(c.authorize_session(NOW, SESSION, anna(), d, 172_800, 3)),
        vec![
            auth(anna()),
            Effect::Write { key },
            Effect::ExtendTtl { key, ledgers: 172_800 }
        ]
    );
    assert_eq!(
        c.get_session(SESSION, anna(), d),
        Some(SessionGrant { expires_ledger: 172_900, uses_left: 3 })
    );
    assert!(c.has(&key));
    ok(c.authorize_session(u32::MAX - 5, SESSION, anna(), d, 10, 0));
    assert_eq!(
        c.get_session(SESSION, anna(), d),
        Some(SessionGrant { expires_ledger: u32::MAX, uses_left: 0 })
    );
    assert_eq!(c.get_session(SESSION, bert(), d), None);
    assert_eq!(c.get_session(SESSION, d, anna()), None);
    assert_eq!(c.get_session(8, anna(), d), None);
}

#[test]
fn revoking_deletes_the_grant() {
    let mut c = started(0, 0);
    let d = account(0xd0);
    assert_eq!(
        c.revoke_session(SESSION, anna(), d),
        Outcome { effects: vec![auth(anna())], result: Err(Error::InvalidSession) }
    );
    ok(c.authorize_session(NOW, SESSION, anna(), d, 10, 0));
    ok(c.authorize_session(NOW, SESSION, bert(), d, 10, 0));
    assert_eq!(
        ok(c.revoke_session(SESSION, anna(), d)),
        vec![auth(anna()), Effect::Erase { key: DataKey::Session(anna(), d, SESSION) }]
    );
    assert_eq!(c.get_session(SESSION, anna(), d), None);
    assert!(c.get_session(SESSION, bert(), d).is_some());
    assert_eq!(c.revoke_session(SESSION, anna(), d).result, Err(Error::InvalidSession));
}

#[test]
fn grant_for_one_use_permits_exactly_one_move() {
    let mut c = active(0, &[0], &[0]);
    let d = account(0xd0);
    let key = DataKey::Session(anna(), d, SESSION);
    assert_eq!(c.attack(NOW, d, SESSION, anna(), 1, 1).result, Err(Error::InvalidSession));
    assert_eq!(c.attack(NOW, d, SESSION, anna(), 1, 1).effects, vec![auth(d)]);
    ok(c.authorize_session(NOW, SESSION, anna(), d, 50, 1));
    let mut expected = vec![auth(d), Effect::Erase { key }];
    expected.extend(save(SESSION));
    assert_eq!(ok(c.attack(NOW + 50, d, SESSION, anna(), 1, 1)), expected);
    assert_eq!(c.get_session(SESSION, anna(), d), None);
    ok(open_cell(&mut c, bert(), false, 1, 1));
    round(&mut c, bert(), anna(), 1, 1, false);
    assert_eq!(
        c.attack(NOW + 50, d, SESSION, anna(), 2, 2),
        Outcome { effects: vec![auth(d)], result: Err(Error::InvalidSession) }
    );
    ok(c.attack(NOW, anna(), SESSION, anna(), 2, 2));
}

#[test]
fn delegate_resolves_for_the_defender() {
    let mut c = active(0, &[0], &[0]);
    let d = account(0xd0);
    let key = DataKey::Session(bert(), d, SESSION);
    ok(c.authorize_session(NOW, SESSION, bert(), d, 50, 3));
    ok(c.attack(NOW, anna(), SESSION, anna(), 5, 5));
    let salt = SALT.to_vec();
    let proof = attack_proof_hash(false, &salt, 5, 5);
    let out = c.resolve_attack(NOW + 1, d, SESSION, bert(), false, &salt, proof, None);
    let mut expected =
        vec![auth(d), Effect::Write { key }, Effect::ExtendTtl { key, ledgers: 172_800 }];
    expected.extend(save(SESSION));
    assert_eq!(out, Outcome { effects: expected, result: Ok(()) });
    assert_eq!(
        c.get_session(SESSION, bert(), d),
        Some(SessionGrant { expires_ledger: NOW + 50, uses_left: 2 })
    );
    let mut expected = vec![auth(d), Effect::Write { key }, Effect::ExtendTtl { key, ledgers: 172_800 }];
    expected.extend(save(SESSION));
    assert_eq!(ok(c.attack(NOW + 2, d, SESSION, bert(), 0, 9)), expected);
    assert_eq!(c.get_session(SESSION, bert(), d).unwrap().uses_left, 1);
}

#[test]
fn a_refused_move_leaves_the_grant_as_it_is() {
    let mut c = active(0, &[0, 50], &[0, 50]);
    let d = account(0xd0);
    ok(c.authorize_session(NOW, SESSION, bert(), d, 50, 2));
    let before = c.get_game(SESSION).unwrap().clone();
    for _ in 0..3 {
        assert_eq!(
            c.attack(NOW, d, SESSION, bert(), 0, 0),
            Outcome { effects: vec![auth(d)], result: Err(Error::NotYourTurn) }
        );
        assert_eq!(
            c.get_session(SESSION, bert(), d),
            Some(SessionGrant { expires_ledger: NOW + 50, uses_left: 2 })
        );
    }
    assert_eq!(
        c.attack(NOW, d, 8, bert(), 0, 0),
        Outcome { effects: vec![auth(d)], result: Err(Error::InvalidSession) }
    );
    assert_eq!(
        c.attack(NOW, bert(), 8, bert(), 0, 0),
        Outcome { effects: vec![auth(bert())], result: Err(Error::GameNotFound) }
    );
    let salt = SALT.to_vec();
    let proof = attack_proof_hash(true, &salt, 0, 0);
    assert_eq!(
        c.resolve_attack(NOW, d, SESSION, bert(), true, &salt, proof, None),
        Outcome { effects: vec![auth(d)], result: Err(Error::NoPendingAttack) }
    );
    ok(c.set_zk_verifier(service(0x2c)));
    assert_eq!(
        c.resolve_attack_zk(NOW, d, SESSION, bert(), true),
        Outcome { effects: vec![auth(d)], result: Err(Error::NoPendingAttack) }
    );
    ok(c.clear_zk_verifier());
    assert_eq!(c.get_session(SESSION, bert(), d).unwrap().uses_left, 2);
    assert_eq!(c.get_game(SESSION), Ok(&before));
    ok(c.attack(NOW, anna(), SESSION, anna(), 0, 0));
    assert_eq!(
        c.resolve_attack(NOW, d, SESSION, bert(), false, &salt, proof, None).result,
        Err(Error::InvalidCellReveal)
    );
    assert_eq!(c.get_session(SESSION, bert(), d).unwrap().uses_left, 2);
    ok(c.resolve_attack(NOW, d, SESSION, bert(), true, &salt, proof, None));
    assert_eq!(c.get_session(SESSION, bert(), d).unwrap().uses_left, 1);
    ok(c.attack(NOW, d, SESSION, bert(), 0, 0));
    assert_eq!(c.get_session(SESSION, bert(), d), None);
}

#[test]
fn a_session_is_created_once() {
    let mut c = started(0, 0);
    ok(c.commit_board(SESSION, anna(), board(&[3]), 1, None, None));
    let before = c.get_game(SESSION).unwrap().clone();
    assert_eq!(
        c.start_game(SESSION, anna(), bert(), 0, 0),
        Outcome { effects: vec![], result: Err(Error::InvalidSession) }
    );
    assert_eq!(
        c.start_game(SESSION, bert(), account(3), 10, 10),
        Outcome { effects: vec![], result: Err(Error::InvalidSession) }
    );
    assert_eq!(c.start_game(SESSION, anna(), anna(), 0, 0).result, Err(Error::NotPlayer));
    assert_eq!(c.start_game(SESSION, anna(), bert(), -1, 0).result, Err(Error::InvalidStakeAmount));
    assert_eq!(c.get_game(SESSION), Ok(&before));
    ok(c.start_game(8, anna(), bert(), 0, 0));
    assert_eq!(c.get_game(SESSION), Ok(&before));
}

#[test]
fn a_board_of_any_wrong_length_is_refused_for_its_length() {
    let mut c = started(0, 0);
    ok(c.set_verifier([5u8; 32]));
    for cells in [0usize, 1, 99, 101, 2048, 2049, 5000] {
        assert_eq!(
            c.commit_board(SESSION, anna(), vec![[1u8; 32]; cells], 1, Some([7u8; 32]), Some([6u8; 64])),
            Outcome { effects: vec![auth(anna())], result: Err(Error::InvalidBoardCommitmentLength) }
        );
        assert!(!c.root_is_signed(SESSION, cells, 1, &Some([7u8; 32]), &Some([6u8; 64])));
        assert!(!c.root_is_asked(SESSION, cells, 1));
    }
    assert!(c.root_is_signed(SESSION, 100, 1, &Some([7u8; 32]), &Some([6u8; 64])));
    assert!(!c.root_is_signed(SESSION, 100, 1, &None, &Some([6u8; 64])));
    assert!(!c.root_is_signed(SESSION, 100, 0, &Some([7u8; 32]), &Some([6u8; 64])));
    assert!(!c.root_is_signed(8, 100, 1, &Some([7u8; 32]), &Some([6u8; 64])));
    ok(c.clear_verifier());
    assert!(!c.root_is_signed(SESSION, 100, 1, &Some([7u8; 32]), &Some([6u8; 64])));
    ok(c.set_zk_verifier(service(0x2c)));
    assert!(c.root_is_asked(SESSION, 100, 1));
    assert!(!c.root_is_asked(SESSION, 100, 101));
    assert_eq!(
        c.board_verification(SESSION, &vec![[1u8; 32]; 5000], 1),
        Err(Error::InvalidBoardCommitmentLength)
    );
    assert_eq!(
        c.commit_board_zk(SESSION, anna(), vec![[1u8; 32]; 5000], 1, true).result,
        Err(Error::InvalidBoardCommitmentLength)
    );
}

#[test]
fn a_salt_of_any_length_is_refused_where_nothing_is_to_resolve() {
    let long = vec![9u8; 70_000];
    let mut c = engine();
    assert!(!c.reveal_is_judged(NOW, bert(), SESSION, bert()));
    assert_eq!(
        c.resolve_attack(NOW, bert(), SESSION, bert(), true, &long, [0u8; 32], None).result,
        Err(Error::GameNotFound)
    );
    let mut c = active(0, &[0], &[0]);
    assert_eq!(
        c.resolve_attack(NOW, bert(), SESSION, bert(), true, &long, [0u8; 32], None),
        Outcome { effects: vec![auth(bert())], result: Err(Error::NoPendingAttack) }
    );
    assert_eq!(
        c.resolve_attack(NOW, account(9), SESSION, bert(), true, &long, [0u8; 32], None).result,
        Err(Error::InvalidSession)
    );
    ok(c.attack(NOW, anna(), SESSION, anna(), 0, 0));
    assert!(c.reveal_is_judged(NOW, bert(), SESSION, bert()));
    assert!(!c.reveal_is_judged(NOW, anna(), SESSION, anna()));
    assert!(!c.reveal_is_judged(NOW, account(9), SESSION, bert()));
    assert_eq!(
        c.resolve_attack(NOW, anna(), SESSION, anna(), true, &long, [0u8; 32], None).result,
        Err(Error::NotPendingDefender)
    );
    ok(c.set_zk_verifier(service(0x2c)));
    assert!(!c.reveal_is_judged(NOW, bert(), SESSION, bert()));
    assert_eq!(
        c.resolve_attack(NOW, bert(), SESSION, bert(), true, &long, [0u8; 32], None).result,
        Err(Error::ZkProofRequired)
    );
    assert_eq!(c.get_game(SESSION).unwrap().phase(), Phase::AttackPending);
}

#[test]
fn unlimited_grant_is_not_counted() {
    let mut c = active(0, &[], &[]);
    let d = account(0xd0);
    let key = DataKey::Session(anna(), d, SESSION);
    ok(c.authorize_session(NOW, SESSION, anna(), d, 50, 0));
    for n in 0..5u32 {
        let mut expected = vec![auth(d), Effect::ExtendTtl { key, ledgers: 172_800 }];
        expected.extend(save(SESSION));
        assert_eq!(ok(c.attack(NOW + n, d, SESSION, anna(), n, 0)), expected);
        ok(open_cell(&mut c, bert(), false, n, 0));
        round(&mut c, bert(), anna(), n, 0, false);
    }
    assert_eq!(
        c.get_session(SESSION, anna(), d),
        Some(SessionGrant { expires_ledger: NOW + 50, uses_left: 0 })
    );
}

#[test]
fn expired_grant_is_deleted_on_use() {
    let mut c = active(0, &[0], &[0]);
    let d = account(0xd0);
    let key = DataKey::Session(anna(), d, SESSION);
    ok(c.authorize_session(NOW, SESSION, anna(), d, 50, 0));
    assert_eq!(
        c.attack(NOW + 51, d, SESSION, anna(), 0, 0),
        Outcome { effects: vec![auth(d), Effect::Erase { key }], result: Err(Error::SessionExpired) }
    );
    assert_eq!(c.get_session(SESSION, anna(), d), None);
    assert_eq!(c.attack(NOW + 51, d, SESSION, anna(), 0, 0).result, Err(Error::InvalidSession));
    assert_eq!(c.attack(NOW, d, SESSION, anna(), 0, 0).result, Err(Error::InvalidSession));
    ok(c.attack(NOW, anna(), SESSION, anna(), 0, 0));
    ok(c.authorize_session(NOW, SESSION, bert(), d, 1, 5));
    let salt = SALT.to_vec();
    let proof = attack_proof_hash(true, &salt, 0, 0);
    assert_eq!(
        c.resolve_attack(NOW + 2, d, SESSION, bert(), true, &salt, proof, None).result,
        Err(Error::SessionExpired)
    );
    assert_eq!(c.get_session(SESSION, bert(), d), None);
    ok(c.set_zk_verifier(service(0x2c)));
    ok(c.authorize_session(NOW, SESSION, bert(), d, 1, 5));
    assert_eq!(c.attack_verification(NOW + 2, d, SESSION, bert()), Err(Error::SessionExpired));
    assert!(c.get_session(SESSION, bert(), d).is_some());
    assert_eq!(
        c.resolve_attack_zk(NOW + 2, d, SESSION, bert(), true).result,
        Err(Error::SessionExpired)
    );
    assert_eq!(c.get_session(SESSION, bert(), d), None);
}

#[test]
fn a_kept_state_can_be_brought_back() {
    let mut c = active(0, &[0], &[5]);
    let d = account(0xd0);
    ok(c.authorize_session(NOW, SESSION, anna(), d, 50, 2));
    ok(c.attack(NOW, anna(), SESSION, anna(), 5, 0));
    let game = c.get_game(SESSION).unwrap().clone();
    let grant = c.get_session(SESSION, anna(), d).unwrap();
    let mut back = BattleshipContract::restore(c.config());
    assert!(!back.has_game(SESSION));
    back.restore_game(SESSION, game.clone());
    back.restore_session(GrantKey { grantor: anna(), delegate: d, session_id: SESSION }, grant);
    assert_eq!(back.get_game(SESSION), Ok(&game));
    assert_eq!(back.get_session(SESSION, anna(), d), Some(grant));
    assert_eq!(back.config(), c.config());
    assert_eq!(open_cell(&mut back, bert(), true, 5, 0), open_cell(&mut c, bert(), true, 5, 0));
    assert_eq!(back.get_game(SESSION), c.get_game(SESSION));
}

#[test]
fn sessions_do_not_touch_each_other() {
    let mut c = active(0, &[0], &[0]);
    ok(c.start_game(8, bert(), account(3), 0, 0));
    let before = c.get_game(8).unwrap().clone();
    round(&mut c, anna(), bert(), 0, 0, true);
    assert_eq!(c.get_game(8), Ok(&before));
    assert_eq!(c.attack(NOW, bert(), 8, bert(), 0, 0).result, Err(Error::BoardsNotReady));
    assert_eq!(c.get_game(SESSION).unwrap().winner, Some(anna()));
    assert_eq!(c.get_game(8).unwrap().player1, bert());
}

#[test]
fn installing_writes_the_first_settings() {
    let (c, effects) = BattleshipContract::install(admin(), hub());
    assert_eq!(
        effects,
        vec![
            Effect::Write { key: DataKey::Admin },
            Effect::Write { key: DataKey::GameHubAddress },
            Effect::WriteConfig { setting: ConfigKey::FeeRecipient },
            Effect::WriteConfig { setting: ConfigKey::FeeBps },
        ]
    );
    assert_eq!(c.config(), engine().config());
    assert!(!c.has_game(SESSION));
}
