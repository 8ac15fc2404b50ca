//! The operations of the engine as functions: from the state before, and
//! what the caller brings, to the state after, what is asked of the outside
//! in order, and the result.

use vstd::prelude::*;
use crate::address::Address;
use crate::arith::clamp_u32;
use crate::board::{spec_apply_board_commit, spec_check_board_commit};
use crate::codec::commitment_root;
use crate::combat::{
    spec_apply_attack, spec_apply_resolved_attack, spec_check_reveal, spec_pending_commitment,
};
use crate::config::{Config, ConfigKey, MAX_FEE_BPS};
use crate::effect::{Effect, ProofMessage};
use crate::error::Error;
use crate::escrow::spec_deposit_stake;
use crate::game::GameView;
use crate::session::{
    spec_session_auth, GrantKey, SessionGrant, MAX_SESSION_TTL_LEDGERS,
    SESSION_GRANT_TTL_LEDGERS,
};
use crate::store::save_effects;

verus! {

/// The engine as a mathematical value.
pub struct ContractView {
    pub config: Config,
    pub games: Map<u32, GameView>,
    pub grants: Map<GrantKey, SessionGrant>,
}

/// What an operation does: the state it leaves, what it asks of the
/// outside in order, and whether it succeeded.
pub struct Step {
    pub state: ContractView,
    pub effects: Seq<Effect>,
    pub result: Result<(), Error>,
}

impl ContractView {
    /// The invariant of the engine: the fee is within its cap, and the
    /// record of every session satisfies the invariant of a match.
    pub open spec fn wf(self) -> bool {
        &&& self.config.fee_bps <= MAX_FEE_BPS
        &&& forall|id: u32| self.games.contains_key(id) ==> (#[trigger] self.games[id]).wf()
    }

    /// The state with the record of session `id` replaced by `g`.
    pub open spec fn with_game(self, id: u32, g: GameView) -> ContractView {
        ContractView { games: self.games.insert(id, g), ..self }
    }

    /// The state with other settings.
    pub open spec fn with_config(self, config: Config) -> ContractView {
        ContractView { config, ..self }
    }

    /// The state with other grants.
    pub open spec fn with_grants(self, grants: Map<GrantKey, SessionGrant>) -> ContractView {
        ContractView { grants, ..self }
    }
}

/// The step that refuses: nothing changes, and `e` is the result once
/// `effects` have been carried out.
pub open spec fn refused(state: ContractView, effects: Seq<Effect>, e: Error) -> Step {
    Step { state, effects, result: Err(e) }
}

/// The step that succeeds without a record being written.
pub open spec fn done(state: ContractView, effects: Seq<Effect>) -> Step {
    Step { state, effects, result: Ok(()) }
}

/// The step that ends by saving the record `g` of session `id`: after
/// `effects`, the record is written and its life is renewed.
pub open spec fn saved(state: ContractView, id: u32, g: GameView, effects: Seq<Effect>) -> Step {
    Step { state: state.with_game(id, g), effects: effects + save_effects(id), result: Ok(()) }
}

/// The step of an administrator who changes the settings: the
/// administrator must have authorized the call, then `change` is written
/// through.
pub open spec fn administered(state: ContractView, config: Config, change: Effect) -> Step {
    Step {
        state: state.with_config(config),
        effects: seq![Effect::RequireAuth { address: state.config.admin }, change],
        result: Ok(()),
    }
}

/// Setting the fee as a function of the state.
pub open spec fn spec_set_fee_bps(state: ContractView, fee_bps: u32) -> Step {
    if fee_bps > MAX_FEE_BPS {
        refused(
            state,
            seq![Effect::RequireAuth { address: state.config.admin }],
            Error::InvalidFeeBps,
        )
    } else {
        administered(
            state,
            Config { fee_bps, ..state.config },
            Effect::WriteConfig { setting: ConfigKey::FeeBps },
        )
    }
}

/// Starting a session as a function of the state. A session is created
/// once: an identifier that is already in use is refused as
/// `InvalidSession`, before anything is asked of the outside, and its
/// record stays as it is. Otherwise both players must have authorized their
/// own stake, and the match registry hears of the session before its record
/// is saved.
pub open spec fn spec_start_game(
    state: ContractView,
    session_id: u32,
    player1: Address,
    player2: Address,
    player1_points: i128,
    player2_points: i128,
) -> Step {
    if player1 == player2 {
        refused(state, Seq::empty(), Error::NotPlayer)
    } else if player1_points < 0 || player2_points < 0 {
        refused(state, Seq::empty(), Error::InvalidStakeAmount)
    } else if state.games.contains_key(session_id) {
        refused(state, Seq::empty(), Error::InvalidSession)
    } else {
        saved(
            state,
            session_id,
            GameView::fresh(player1, player2, player1_points, player2_points),
            seq![
                Effect::RequireAuthForArgs {
                    address: player1,
                    session_id,
                    points: player1_points,
                },
                Effect::RequireAuthForArgs {
                    address: player2,
                    session_id,
                    points: player2_points,
                },
                Effect::NotifyGameStarted {
                    hub: state.config.game_hub,
                    session_id,
                    player1,
                    player2,
                    player1_points,
                    player2_points,
                },
            ],
        )
    }
}

/// What is asked of the outside before a board is stored on the word of a
/// signature: nothing more where no key is installed, else the check of
/// the signature over the board proof message; or the refusal where proof
/// hash or signature are missing.
pub open spec fn spec_board_signature(
    config: Config,
    session_id: u32,
    root: [u8; 32],
    ship_cells: u32,
    proof_hash: Option<[u8; 32]>,
    signature: Option<[u8; 64]>,
) -> Result<Seq<Effect>, Error> {
    match config.verifier_key {
        None => Ok(Seq::empty()),
        Some(public_key) => if proof_hash is None || signature is None {
            Err(Error::MissingProofSignature)
        } else {
            Ok(
                seq![
                    Effect::VerifySignature {
                        public_key,
                        message: ProofMessage::Board {
                            session_id,
                            ship_cells,
                            commitment_root: root,
                            proof_hash: proof_hash->0,
                        },
                        signature: signature->0,
                    },
                ],
            )
        },
    }
}

/// Whether committing this board comes to the point where its root is
/// signed for: the session exists, the board passes its checks, no service
/// adjudicates, a key is installed, and proof hash and signature are there.
pub open spec fn spec_root_is_signed(
    state: ContractView,
    session_id: u32,
    cells: nat,
    ship_cells: u32,
    proof_hash: Option<[u8; 32]>,
    signature: Option<[u8; 64]>,
) -> bool {
    &&& state.games.contains_key(session_id)
    &&& spec_check_board_commit(state.games[session_id], cells, ship_cells) is Ok
    &&& state.config.zk_verifier is None
    &&& state.config.verifier_key is Some
    &&& proof_hash is Some
    &&& signature is Some
}

/// Whether committing this board comes to the point where the
/// proof-verifier service is asked about its root: the session exists, the
/// board passes its checks, and a service is configured.
pub open spec fn spec_root_is_asked(
    state: ContractView,
    session_id: u32,
    cells: nat,
    ship_cells: u32,
) -> bool {
    &&& state.games.contains_key(session_id)
    &&& spec_check_board_commit(state.games[session_id], cells, ship_cells) is Ok
    &&& state.config.zk_verifier is Some
}

/// Committing a board on the word of a signature, as a function of the
/// state and of the root `root` of the board.
pub open spec fn spec_commit_board_with_root(
    state: ContractView,
    session_id: u32,
    player: Address,
    commitments: Seq<[u8; 32]>,
    ship_cells: u32,
    root: [u8; 32],
    proof_hash: Option<[u8; 32]>,
    signature: Option<[u8; 64]>,
) -> Step {
    let asked = seq![Effect::RequireAuth { address: player }];
    if !state.games.contains_key(session_id) {
        refused(state, asked, Error::GameNotFound)
    } else {
        let g = state.games[session_id];
        match spec_check_board_commit(g, commitments.len(), ship_cells) {
            Err(e) => refused(state, asked, e),
            Ok(()) => if state.config.zk_verifier is Some {
                refused(state, asked, Error::ZkProofRequired)
            } else {
                match spec_board_signature(
                    state.config,
                    session_id,
                    root,
                    ship_cells,
                    proof_hash,
                    signature,
                ) {
                    Err(e) => refused(state, asked, e),
                    Ok(check) => match spec_apply_board_commit(
                        g,
                        player,
                        commitments,
                        ship_cells,
                    ) {
                        Err(e) => refused(state, asked + check, e),
                        Ok(after) => saved(state, session_id, after, asked + check),
                    },
                }
            },
        }
    }
}

/// Committing a board on the word of a signature, as a function of the
/// state: the signed message carries the root of the committed board.
pub open spec fn spec_commit_board(
    state: ContractView,
    session_id: u32,
    player: Address,
    commitments: Seq<[u8; 32]>,
    ship_cells: u32,
    proof_hash: Option<[u8; 32]>,
    signature: Option<[u8; 64]>,
) -> Step {
    spec_commit_board_with_root(
        state,
        session_id,
        player,
        commitments,
        ship_cells,
        commitment_root(commitments),
        proof_hash,
        signature,
    )
}

/// What a proof-verifier service is asked about a board.
#[derive(Clone, Copy, Debug, PartialEq, Eq)]
pub struct BoardVerification {
    /// The service to ask.
    pub verifier: Address,
    pub session_id: u32,
    pub ship_cells: u32,
    pub commitment_root: [u8; 32],
}

/// What a proof-verifier service is asked about the pending attack.
#[derive(Clone, Copy, Debug, PartialEq, Eq)]
pub struct AttackVerification {
    /// The service to ask.
    pub verifier: Address,
    pub session_id: u32,
    pub x: u32,
    pub y: u32,
    /// The commitment that the defender stored for the cell.
    pub expected_commitment: [u8; 32],
}

/// The question that has to be put to the proof-verifier service before a
/// board can be committed on its word, or the reason why the commit fails
/// before the service is asked.
pub open spec fn spec_board_verification(
    state: ContractView,
    session_id: u32,
    commitments: Seq<[u8; 32]>,
    ship_cells: u32,
) -> Result<BoardVerification, Error> {
    if !state.games.contains_key(session_id) {
        Err(Error::GameNotFound)
    } else {
        match spec_check_board_commit(state.games[session_id], commitments.len(), ship_cells) {
            Err(e) => Err(e),
            Ok(()) => match state.config.zk_verifier {
                None => Err(Error::ZkVerifierNotConfigured),
                Some(verifier) => Ok(
                    BoardVerification {
                        verifier,
                        session_id,
                        ship_cells,
                        commitment_root: commitment_root(commitments),
                    },
                ),
            },
        }
    }
}

/// Committing a board on the word of the proof-verifier service, as a
/// function of the state and of the service's answer `board_ok`.
pub open spec fn spec_commit_board_zk(
    state: ContractView,
    session_id: u32,
    player: Address,
    commitments: Seq<[u8; 32]>,
    ship_cells: u32,
    board_ok: bool,
) -> Step {
    let asked = seq![Effect::RequireAuth { address: player }];
    match spec_board_verification(state, session_id, commitments, ship_cells) {
        Err(e) => refused(state, asked, e),
        Ok(_) => if !board_ok {
            refused(state, asked, Error::ZkVerificationFailed)
        } else {
            match spec_apply_board_commit(
                state.games[session_id],
                player,
                commitments,
                ship_cells,
            ) {
                Err(e) => refused(state, asked, e),
                Ok(after) => saved(state, session_id, after, asked),
            }
        },
    }
}

/// What a move does to the record of its session: what it asks of the
/// outside besides the authorization, and the record that it leaves or the
/// reason why it is refused.
pub struct Play {
    pub effects: Seq<Effect>,
    pub result: Result<GameView, Error>,
}

/// A move that `invoker` makes for `player`, as a function of the state,
/// the ledger clock `now` and what the move does to the record. The
/// invoker must have authorized the call and may act for the player only in
/// person or on a grant: without a grant the move is refused and nothing
/// changes; on an expired grant it is refused and the grant is deleted. A
/// move that is refused for any other reason changes nothing at all, and
/// the grant is not used. A move that is accepted uses the grant, then
/// saves the record.
pub open spec fn spec_move(
    state: ContractView,
    now: u32,
    invoker: Address,
    session_id: u32,
    player: Address,
    play: Play,
) -> Step {
    let auth = spec_session_auth(state.grants, now, invoker, session_id, player);
    match auth.result {
        Err(e) => Step {
            state: state.with_grants(auth.grants),
            effects: auth.effects,
            result: Err(e),
        },
        Ok(()) => match play.result {
            Err(e) => refused(
                state,
                seq![Effect::RequireAuth { address: invoker }] + play.effects,
                e,
            ),
            Ok(after) => saved(
                state.with_grants(auth.grants),
                session_id,
                after,
                auth.effects + play.effects,
            ),
        },
    }
}

/// What an attack does to the record of its session.
pub open spec fn spec_attack_play(
    state: ContractView,
    session_id: u32,
    attacker: Address,
    x: u32,
    y: u32,
) -> Play {
    if !state.games.contains_key(session_id) {
        Play { effects: Seq::empty(), result: Err(Error::GameNotFound) }
    } else {
        Play {
            effects: Seq::empty(),
            result: spec_apply_attack(state.games[session_id], attacker, x, y),
        }
    }
}

/// An attack as a function of the state, the ledger clock `now` and the
/// caller `invoker`.
pub open spec fn spec_attack(
    state: ContractView,
    now: u32,
    invoker: Address,
    session_id: u32,
    attacker: Address,
    x: u32,
    y: u32,
) -> Step {
    spec_move(
        state,
        now,
        invoker,
        session_id,
        attacker,
        spec_attack_play(state, session_id, attacker, x, y),
    )
}

/// The cell that `defender` has to resolve in a session and the commitment
/// stored for it, or the reason why there is nothing to resolve.
pub open spec fn spec_session_commitment(
    state: ContractView,
    session_id: u32,
    defender: Address,
    with_service: bool,
) -> Result<(u32, u32, u32, [u8; 32]), Error> {
    if !state.games.contains_key(session_id) {
        Err(Error::GameNotFound)
    } else {
        spec_pending_commitment(state.config, state.games[session_id], defender, with_service)
    }
}

/// What is asked of the outside before a reveal is entered on the word of
/// a signature: nothing more where no key is installed, else the check of
/// the signature over the attack proof message; or the refusal where the
/// signature is missing.
pub open spec fn spec_attack_signature(
    config: Config,
    session_id: u32,
    x: u32,
    y: u32,
    is_ship: bool,
    proof_hash: [u8; 32],
    signature: Option<[u8; 64]>,
) -> Result<Seq<Effect>, Error> {
    match config.verifier_key {
        None => Ok(Seq::empty()),
        Some(public_key) => match signature {
            None => Err(Error::MissingProofSignature),
            Some(signature) => Ok(
                seq![
                    Effect::VerifySignature {
                        public_key,
                        message: ProofMessage::Attack { session_id, x, y, is_ship, proof_hash },
                        signature,
                    },
                ],
            ),
        },
    }
}

/// What a reveal does to the record of its session, given the two hashes
/// of the reveal: `reveal_digest` of the ship flag and the salt,
/// `proof_digest` of these and the coordinates.
pub open spec fn spec_reveal_play(
    state: ContractView,
    session_id: u32,
    defender: Address,
    is_ship: bool,
    reveal_digest: [u8; 32],
    proof_digest: [u8; 32],
    proof_hash: [u8; 32],
    signature: Option<[u8; 64]>,
) -> Play {
    match spec_session_commitment(state, session_id, defender, false) {
        Err(e) => Play { effects: Seq::empty(), result: Err(e) },
        Ok((x, y, index, expected)) => match spec_check_reveal(
            expected,
            reveal_digest,
            proof_hash,
            proof_digest,
        ) {
            Err(e) => Play { effects: Seq::empty(), result: Err(e) },
            Ok(()) => match spec_attack_signature(
                state.config,
                session_id,
                x,
                y,
                is_ship,
                proof_hash,
                signature,
            ) {
                Err(e) => Play { effects: Seq::empty(), result: Err(e) },
                Ok(check) => match spec_apply_resolved_attack(
                    state.config,
                    session_id,
                    state.games[session_id],
                    index,
                    is_ship,
                ) {
                    Err(e) => Play { effects: check, result: Err(e) },
                    Ok((after, owed)) => Play { effects: check + owed, result: Ok(after) },
                },
            },
        },
    }
}

/// Whether a reveal by `invoker` for `defender` comes to the point where
/// it is judged by its hashes: the invoker may act for the defender, and an
/// attack is pending for the defender on a cell of a committed board, with
/// no service to adjudicate.
pub open spec fn spec_reveal_is_judged(
    state: ContractView,
    now: u32,
    invoker: Address,
    session_id: u32,
    defender: Address,
) -> bool {
    &&& spec_session_auth(state.grants, now, invoker, session_id, defender).result is Ok
    &&& spec_session_commitment(state, session_id, defender, false) is Ok
}

/// Resolving the pending attack by a reveal, as a function of the state
/// and of the two hashes of the reveal: `reveal_digest` of the ship flag
/// and the salt, `proof_digest` of these and the coordinates.
pub open spec fn spec_resolve_attack(
    state: ContractView,
    now: u32,
    invoker: Address,
    session_id: u32,
    defender: Address,
    is_ship: bool,
    reveal_digest: [u8; 32],
    proof_digest: [u8; 32],
    proof_hash: [u8; 32],
    signature: Option<[u8; 64]>,
) -> Step {
    spec_move(
        state,
        now,
        invoker,
        session_id,
        defender,
        spec_reveal_play(
            state,
            session_id,
            defender,
            is_ship,
            reveal_digest,
            proof_digest,
            proof_hash,
            signature,
        ),
    )
}

/// The question that has to be put to the proof-verifier service before
/// the pending attack can be resolved on its word, or the reason why the
/// resolution fails before the service is asked. Nothing is used up by
/// asking.
pub open spec fn spec_attack_verification(
    state: ContractView,
    now: u32,
    invoker: Address,
    session_id: u32,
    defender: Address,
) -> Result<AttackVerification, Error> {
    let auth = spec_session_auth(state.grants, now, invoker, session_id, defender);
    match auth.result {
        Err(e) => Err(e),
        Ok(()) => match spec_session_commitment(state, session_id, defender, true) {
            Err(e) => Err(e),
            Ok((x, y, index, expected)) => Ok(
                AttackVerification {
                    verifier: state.config.zk_verifier->0,
                    session_id,
                    x,
                    y,
                    expected_commitment: expected,
                },
            ),
        },
    }
}

/// What a resolution on the word of the proof-verifier service does to
/// the record of its session, given the service's answer `is_ship`.
pub open spec fn spec_service_play(
    state: ContractView,
    session_id: u32,
    defender: Address,
    is_ship: bool,
) -> Play {
    match spec_session_commitment(state, session_id, defender, true) {
        Err(e) => Play { effects: Seq::empty(), result: Err(e) },
        Ok((x, y, index, expected)) => match spec_apply_resolved_attack(
            state.config,
            session_id,
            state.games[session_id],
            index,
            is_ship,
        ) {
            Err(e) => Play { effects: Seq::empty(), result: Err(e) },
            Ok((after, owed)) => Play { effects: owed, result: Ok(after) },
        },
    }
}

/// Resolving the pending attack on the word of the proof-verifier
/// service, as a function of the state and of the service's answer
/// `is_ship`.
pub open spec fn spec_resolve_attack_zk(
    state: ContractView,
    now: u32,
    invoker: Address,
    session_id: u32,
    defender: Address,
    is_ship: bool,
) -> Step {
    spec_move(
        state,
        now,
        invoker,
        session_id,
        defender,
        spec_service_play(state, session_id, defender, is_ship),
    )
}

/// Granting a session as a function of the state and the ledger clock.
pub open spec fn spec_authorize_session(
    state: ContractView,
    now: u32,
    session_id: u32,
    player: Address,
    delegate: Address,
    ttl_ledgers: u32,
    uses_left: u32,
) -> Step {
    let asked = seq![Effect::RequireAuth { address: player }];
    let key = GrantKey { grantor: player, delegate, session_id };
    if delegate == player || ttl_ledgers == 0 || ttl_ledgers > MAX_SESSION_TTL_LEDGERS {
        refused(state, asked, Error::InvalidSessionConfig)
    } else if !state.games.contains_key(session_id) {
        refused(state, asked, Error::GameNotFound)
    } else if !state.games[session_id].is_player(player) {
        refused(state, asked, Error::NotPlayer)
    } else {
        done(
            state.with_grants(
                state.grants.insert(
                    key,
                    SessionGrant { expires_ledger: clamp_u32(now + ttl_ledgers), uses_left },
                ),
            ),
            asked.push(Effect::Write { key: key.data_key() }).push(
                Effect::ExtendTtl { key: key.data_key(), ledgers: SESSION_GRANT_TTL_LEDGERS },
            ),
        )
    }
}

/// Revoking a grant as a function of the state.
pub open spec fn spec_revoke_session(
    state: ContractView,
    session_id: u32,
    player: Address,
    delegate: Address,
) -> Step {
    let asked = seq![Effect::RequireAuth { address: player }];
    let key = GrantKey { grantor: player, delegate, session_id };
    if !state.grants.contains_key(key) {
        refused(state, asked, Error::InvalidSession)
    } else {
        done(
            state.with_grants(state.grants.remove(key)),
            asked.push(Effect::Erase { key: key.data_key() }),
        )
    }
}

/// Depositing a stake as a function of the state. In a match without
/// stakes nothing is written.
pub open spec fn spec_deposit(state: ContractView, session_id: u32, player: Address) -> Step {
    let asked = seq![Effect::RequireAuth { address: player }];
    if !state.games.contains_key(session_id) {
        refused(state, asked, Error::GameNotFound)
    } else {
        let g = state.games[session_id];
        match spec_deposit_stake(state.config, g, player) {
            Err(e) => refused(state, asked, e),
            Ok((after, owed)) => if g.is_wager() {
                saved(state, session_id, after, asked + owed)
            } else {
                done(state, asked)
            },
        }
    }
}

/// The column of the pending attack of a session, or 0 where there is
/// none.
pub open spec fn pending_x_of(state: ContractView, session_id: u32) -> u32 {
    if state.games.contains_key(session_id) && state.games[session_id].pending_x is Some {
        state.games[session_id].pending_x->0
    } else {
        0
    }
}

/// The row of the pending attack of a session, or 0 where there is none.
pub open spec fn pending_y_of(state: ContractView, session_id: u32) -> u32 {
    if state.games.contains_key(session_id) && state.games[session_id].pending_y is Some {
        state.games[session_id].pending_y->0
    } else {
        0
    }
}

} // verus!
