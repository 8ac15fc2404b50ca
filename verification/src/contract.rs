//! The engine as a whole: its settings, every session and every grant, and
//! one operation per entry point. An operation changes the engine and
//! returns, in order, what it asks of the world outside; it is specified by
//! a function from the state before to the state after.

use vstd::prelude::*;
use crate::address::Address;
use crate::board::{apply_board_commit, check_board_commit};
use crate::codec::{
    attack_proof_hash, attack_proof_payload, cell_reveal_hash, cell_reveal_payload,
    compute_commitment_root, keccak256_hash, MAX_ROOT_CELLS, MAX_SALT_LEN,
};
use crate::combat::{apply_attack, apply_resolved_attack, check_reveal, pending_commitment};
use crate::config::{Config, ConfigKey, DataKey, MAX_FEE_BPS};
use crate::effect::{append_effects, Effect, ProofMessage};
use crate::error::Error;
use crate::escrow::apply_deposit;
use crate::game::{is_wager_game, Game};
use crate::session::{
    check_session_auth, no_storage_effects, require_player_or_session_auth, spec_session_auth,
    GrantKey, GrantStore, SessionGrant, MAX_SESSION_TTL_LEDGERS, SESSION_GRANT_TTL_LEDGERS,
};
use crate::step::{
    administered, pending_x_of, pending_y_of, refused, saved, spec_attack, spec_attack_play,
    spec_attack_signature, spec_attack_verification, spec_authorize_session,
    spec_board_signature, spec_board_verification, spec_commit_board,
    spec_commit_board_with_root, spec_commit_board_zk, spec_deposit, spec_move,
    spec_resolve_attack, spec_resolve_attack_zk, spec_reveal_is_judged, spec_reveal_play,
    spec_revoke_session, spec_root_is_asked, spec_root_is_signed, spec_service_play,
    spec_set_fee_bps, spec_start_game, AttackVerification, BoardVerification, ContractView, Play,
    Step,
};
use crate::store::GameStore;

verus! {

/// The engine: settings, sessions by identifier, grants by key.
#[derive(Debug)]
pub struct BattleshipContract {
    config: Config,
    games: GameStore,
    grants: GrantStore,
}

/// What an operation hands back: the interactions that the caller has to
/// carry out, in order, and the result that stands if none of them aborts.
/// If one aborts, the operation has failed as a whole, and what it changed
/// in the engine is to be discarded with it. Where the result is an error
/// the engine is as it was before the operation, with one exception: a
/// move that is refused as `SessionExpired` has deleted the expired grant.
#[derive(Debug, PartialEq, Eq)]
pub struct Outcome {
    pub effects: Vec<Effect>,
    pub result: Result<(), Error>,
}

impl Outcome {
    /// Whether this is what `step` prescribes.
    pub open spec fn is_of(self, step: Step) -> bool {
        self.effects@ == step.effects && self.result == step.result
    }
}

impl View for BattleshipContract {
    type V = ContractView;

    closed spec fn view(&self) -> ContractView {
        ContractView {
            config: self.config,
            games: self.games@,
            grants: self.grants@,
        }
    }
}

impl BattleshipContract {
    /// A fresh engine: the settings of a fresh installation, no session, no
    /// grant.
    pub fn new(admin: Address, game_hub: Address) -> (contract: BattleshipContract)
        ensures
            contract@ == (ContractView {
                config: Config::initial(admin, game_hub),
                games: Map::empty(),
                grants: Map::empty(),
            }),
            contract@.wf(),
    {
        BattleshipContract {
            config: Config::new(admin, game_hub),
            games: GameStore::new(),
            grants: GrantStore::new(),
        }
    }

    /// Installs a fresh engine: besides the engine itself, this gives what
    /// has to be written through, the administrator, the match registry,
    /// the fee recipient and the fee.
    pub fn install(admin: Address, game_hub: Address) -> (out: (BattleshipContract, Vec<Effect>))
        ensures
            out.0@ == (ContractView {
                config: Config::initial(admin, game_hub),
                games: Map::empty(),
                grants: Map::empty(),
            }),
            out.0@.wf(),
            out.1@ == seq![
                Effect::Write { key: DataKey::Admin },
                Effect::Write { key: DataKey::GameHubAddress },
                Effect::WriteConfig { setting: ConfigKey::FeeRecipient },
                Effect::WriteConfig { setting: ConfigKey::FeeBps },
            ],
    {
        let mut effects: Vec<Effect> = Vec::new();
        effects.push(Effect::Write { key: DataKey::Admin });
        effects.push(Effect::Write { key: DataKey::GameHubAddress });
        effects.push(Effect::WriteConfig { setting: ConfigKey::FeeRecipient });
        effects.push(Effect::WriteConfig { setting: ConfigKey::FeeBps });
        (BattleshipContract::new(admin, game_hub), effects)
    }

    /// An engine with the given settings, no session and no grant: the
    /// start for bringing back a state that was kept elsewhere.
    pub fn restore(config: Config) -> (contract: BattleshipContract)
        ensures
            contract@ == (ContractView { config, games: Map::empty(), grants: Map::empty() }),
    {
        BattleshipContract { config, games: GameStore::new(), grants: GrantStore::new() }
    }

    /// Puts the record of a session back as it was kept elsewhere, in place
    /// of any record of that session.
    pub fn restore_game(&mut self, session_id: u32, game: Game)
        ensures
            final(self)@ == old(self)@.with_game(session_id, game@),
            old(self)@.wf() && game@.wf() ==> final(self)@.wf(),
    {
        self.games.put(session_id, game);
    }

    /// Puts a grant back as it was kept elsewhere, in place of any grant
    /// under that key.
    pub fn restore_session(&mut self, key: GrantKey, grant: SessionGrant)
        ensures
            final(self)@ == old(self)@.with_grants(old(self)@.grants.insert(key, grant)),
            old(self)@.wf() ==> final(self)@.wf(),
    {
        self.grants.set(key, grant);
    }

    /// The settings.
    pub fn config(&self) -> (config: Config)
        ensures
            config == self@.config,
    {
        self.config
    }

    /// Whether a value is kept under `key`.
    pub fn has(&self, key: &DataKey) -> (present: bool)
        ensures
            present == match *key {
                DataKey::Game(id) => self@.games.contains_key(id),
                DataKey::GameHubAddress => true,
                DataKey::Admin => true,
                DataKey::VerifierPubKey => self@.config.verifier_key is Some,
                DataKey::ZkVerifierContract => self@.config.zk_verifier is Some,
                DataKey::Session(grantor, delegate, session_id) => self@.grants.contains_key(
                    GrantKey { grantor, delegate, session_id },
                ),
            },
    {
        match key {
            DataKey::Game(id) => self.games.contains(*id),
            DataKey::GameHubAddress => true,
            DataKey::Admin => true,
            DataKey::VerifierPubKey => self.config.verifier_key.is_some(),
            DataKey::ZkVerifierContract => self.config.zk_verifier.is_some(),
            DataKey::Session(grantor, delegate, session_id) => self.grants.has(
                &GrantKey { grantor: *grantor, delegate: *delegate, session_id: *session_id },
            ),
        }
    }

    /// The record of a session, or `GameNotFound`.
    pub fn get_game(&self, session_id: u32) -> (out: Result<&Game, Error>)
        ensures
            match out {
                Ok(game) => self@.games.contains_key(session_id) && game@
                    == self@.games[session_id],
                Err(e) => e == Error::GameNotFound && !self@.games.contains_key(session_id),
            },
    {
        self.games.load(session_id)
    }

    /// The grant that `player` gave to `delegate` for a session, if there
    /// is one; whether it has expired is not looked at.
    pub fn get_session(&self, session_id: u32, player: Address, delegate: Address) -> (grant:
        Option<SessionGrant>)
        ensures
            grant == if self@.grants.contains_key(
                GrantKey { grantor: player, delegate, session_id },
            ) {
                Some(self@.grants[GrantKey { grantor: player, delegate, session_id }])
            } else {
                None
            },
    {
        self.grants.get(&GrantKey { grantor: player, delegate, session_id })
    }

    /// Who administers the engine.
    pub fn get_admin(&self) -> (admin: Address)
        ensures
            admin == self@.config.admin,
    {
        self.config.admin
    }

    /// The match registry.
    pub fn get_hub(&self) -> (hub: Address)
        ensures
            hub == self@.config.game_hub,
    {
        self.config.game_hub
    }

    /// The token in which stakes are held, if one is chosen.
    pub fn get_bet_token(&self) -> (token: Option<Address>)
        ensures
            token == self@.config.bet_token,
    {
        self.config.bet_token
    }

    /// The fee in basis points.
    pub fn get_fee_bps(&self) -> (fee_bps: u32)
        ensures
            fee_bps == self@.config.fee_bps,
    {
        self.config.fee_bps
    }

    /// Who receives the fees.
    pub fn get_fee_recipient(&self) -> (recipient: Address)
        ensures
            recipient == self@.config.fee_recipient,
    {
        self.config.fee_recipient
    }

    /// The key whose signatures vouch for boards and attacks, if any.
    pub fn get_verifier(&self) -> (key: Option<[u8; 32]>)
        ensures
            key == self@.config.verifier_key,
    {
        self.config.verifier_key
    }

    /// The proof-verifier service, if any.
    pub fn get_zk_verifier(&self) -> (verifier: Option<Address>)
        ensures
            verifier == self@.config.zk_verifier,
    {
        self.config.zk_verifier
    }

    /// Carries out a change of the settings by the administrator.
    fn administer(&mut self, config: Config, change: Effect) -> (out: Outcome)
        ensures
            final(self)@ == administered(old(self)@, config, change).state,
            out.is_of(administered(old(self)@, config, change)),
    {
        let mut effects: Vec<Effect> = Vec::new();
        effects.push(Effect::RequireAuth { address: self.config.admin });
        effects.push(change);
        self.config = config;
        assert(effects@ =~= seq![Effect::RequireAuth { address: old(self)@.config.admin }, change]);
        Outcome { effects, result: Ok(()) }
    }

    /// Hands the administration to `new_admin`.
    pub fn set_admin(&mut self, new_admin: Address) -> (out: Outcome)
        ensures
            final(self)@ == administered(
                old(self)@,
                Config { admin: new_admin, ..old(self)@.config },
                Effect::Write { key: DataKey::Admin },
            ).state,
            out.is_of(
                administered(
                    old(self)@,
                    Config { admin: new_admin, ..old(self)@.config },
                    Effect::Write { key: DataKey::Admin },
                ),
            ),
            old(self)@.wf() ==> final(self)@.wf(),
    {
        let config = Config { admin: new_admin, ..self.config };
        self.administer(config, Effect::Write { key: DataKey::Admin })
    }

    /// Names another match registry.
    pub fn set_hub(&mut self, new_hub: Address) -> (out: Outcome)
        ensures
            final(self)@ == administered(
                old(self)@,
                Config { game_hub: new_hub, ..old(self)@.config },
                Effect::Write { key: DataKey::GameHubAddress },
            ).state,
            out.is_of(
                administered(
                    old(self)@,
                    Config { game_hub: new_hub, ..old(self)@.config },
                    Effect::Write { key: DataKey::GameHubAddress },
                ),
            ),
            old(self)@.wf() ==> final(self)@.wf(),
    {
        let config = Config { game_hub: new_hub, ..self.config };
        self.administer(config, Effect::Write { key: DataKey::GameHubAddress })
    }

    /// Chooses the token in which stakes are held.
    pub fn set_bet_token(&mut self, token_contract: Address) -> (out: Outcome)
        ensures
            final(self)@ == administered(
                old(self)@,
                Config { bet_token: Some(token_contract), ..old(self)@.config },
                Effect::WriteConfig { setting: ConfigKey::BetToken },
            ).state,
            out.is_of(
                administered(
                    old(self)@,
                    Config { bet_token: Some(token_contract), ..old(self)@.config },
                    Effect::WriteConfig { setting: ConfigKey::BetToken },
                ),
            ),
            old(self)@.wf() ==> final(self)@.wf(),
    {
        let config = Config { bet_token: Some(token_contract), ..self.config };
        self.administer(config, Effect::WriteConfig { setting: ConfigKey::BetToken })
    }

    /// Leaves the engine without a token for stakes.
    pub fn clear_bet_token(&mut self) -> (out: Outcome)
        ensures
            final(self)@ == administered(
                old(self)@,
                Config { bet_token: None, ..old(self)@.config },
                Effect::EraseConfig { setting: ConfigKey::BetToken },
            ).state,
            out.is_of(
                administered(
                    old(self)@,
                    Config { bet_token: None, ..old(self)@.config },
                    Effect::EraseConfig { setting: ConfigKey::BetToken },
                ),
            ),
            old(self)@.wf() ==> final(self)@.wf(),
    {
        let config = Config { bet_token: None, ..self.config };
        self.administer(config, Effect::EraseConfig { setting: ConfigKey::BetToken })
    }

    /// Names who receives the fees.
    pub fn set_fee_recipient(&mut self, recipient: Address) -> (out: Outcome)
        ensures
            final(self)@ == administered(
                old(self)@,
                Config { fee_recipient: recipient, ..old(self)@.config },
                Effect::WriteConfig { setting: ConfigKey::FeeRecipient },
            ).state,
            out.is_of(
                administered(
                    old(self)@,
                    Config { fee_recipient: recipient, ..old(self)@.config },
                    Effect::WriteConfig { setting: ConfigKey::FeeRecipient },
                ),
            ),
            old(self)@.wf() ==> final(self)@.wf(),
    {
        let config = Config { fee_recipient: recipient, ..self.config };
        self.administer(config, Effect::WriteConfig { setting: ConfigKey::FeeRecipient })
    }

    /// Installs the key whose signatures vouch for boards and attacks.
    pub fn set_verifier(&mut self, verifier_pub_key: [u8; 32]) -> (out: Outcome)
        ensures
            final(self)@ == administered(
                old(self)@,
                Config { verifier_key: Some(verifier_pub_key), ..old(self)@.config },
                Effect::Write { key: DataKey::VerifierPubKey },
            ).state,
            out.is_of(
                administered(
                    old(self)@,
                    Config { verifier_key: Some(verifier_pub_key), ..old(self)@.config },
                    Effect::Write { key: DataKey::VerifierPubKey },
                ),
            ),
            old(self)@.wf() ==> final(self)@.wf(),
    {
        let config = Config { verifier_key: Some(verifier_pub_key), ..self.config };
        self.administer(config, Effect::Write { key: DataKey::VerifierPubKey })
    }

    /// Removes the key whose signatures vouch for boards and attacks.
    pub fn clear_verifier(&mut self) -> (out: Outcome)
        ensures
            final(self)@ == administered(
                old(self)@,
                Config { verifier_key: None, ..old(self)@.config },
                Effect::Erase { key: DataKey::VerifierPubKey },
            ).state,
            out.is_of(
                administered(
                    old(self)@,
                    Config { verifier_key: None, ..old(self)@.config },
                    Effect::Erase { key: DataKey::VerifierPubKey },
                ),
            ),
            old(self)@.wf() ==> final(self)@.wf(),
    {
        let config = Config { verifier_key: None, ..self.config };
        self.administer(config, Effect::Erase { key: DataKey::VerifierPubKey })
    }

    /// Names the proof-verifier service that adjudicates from now on.
    pub fn set_zk_verifier(&mut self, verifier_contract: Address) -> (out: Outcome)
        ensures
            final(self)@ == administered(
                old(self)@,
                Config { zk_verifier: Some(verifier_contract), ..old(self)@.config },
                Effect::Write { key: DataKey::ZkVerifierContract },
            ).state,
            out.is_of(
                administered(
                    old(self)@,
                    Config { zk_verifier: Some(verifier_contract), ..old(self)@.config },
                    Effect::Write { key: DataKey::ZkVerifierContract },
                ),
            ),
            old(self)@.wf() ==> final(self)@.wf(),
    {
        let config = Config { zk_verifier: Some(verifier_contract), ..self.config };
        self.administer(config, Effect::Write { key: DataKey::ZkVerifierContract })
    }

    /// Goes back to adjudicating without a proof-verifier service.
    pub fn clear_zk_verifier(&mut self) -> (out: Outcome)
        ensures
            final(self)@ == administered(
                old(self)@,
                Config { zk_verifier: None, ..old(self)@.config },
                Effect::Erase { key: DataKey::ZkVerifierContract },
            ).state,
            out.is_of(
                administered(
                    old(self)@,
                    Config { zk_verifier: None, ..old(self)@.config },
                    Effect::Erase { key: DataKey::ZkVerifierContract },
                ),
            ),
            old(self)@.wf() ==> final(self)@.wf(),
    {
        let config = Config { zk_verifier: None, ..self.config };
        self.administer(config, Effect::Erase { key: DataKey::ZkVerifierContract })
    }

    /// Replaces the running code; the engine's state stays as it is.
    pub fn upgrade(&mut self, new_wasm_hash: [u8; 32]) -> (out: Outcome)
        ensures
            final(self)@ == old(self)@,
            out.is_of(
                administered(
                    old(self)@,
                    old(self)@.config,
                    Effect::UpgradeCode { wasm_hash: new_wasm_hash },
                ),
            ),
            old(self)@.wf() ==> final(self)@.wf(),
    {
        let config = self.config;
        self.administer(config, Effect::UpgradeCode { wasm_hash: new_wasm_hash })
    }

    /// Sets the fee, which may be at most 2000 basis points; a larger one
    /// is refused as `InvalidFeeBps` and changes nothing. Either way the
    /// administrator must have authorized the call.
    pub fn set_fee_bps(&mut self, fee_bps: u32) -> (out: Outcome)
        ensures
            final(self)@ == spec_set_fee_bps(old(self)@, fee_bps).state,
            out.is_of(spec_set_fee_bps(old(self)@, fee_bps)),
            old(self)@.wf() ==> final(self)@.wf(),
    {
        if fee_bps > MAX_FEE_BPS {
            let mut effects: Vec<Effect> = Vec::new();
            effects.push(Effect::RequireAuth { address: self.config.admin });
            assert(effects@ =~= seq![Effect::RequireAuth { address: self@.config.admin }]);
            return Outcome { effects, result: Err(Error::InvalidFeeBps) };
        }
        let config = Config { fee_bps, ..self.config };
        self.administer(config, Effect::WriteConfig { setting: ConfigKey::FeeBps })
    }
}

impl BattleshipContract {
    /// Ends an operation on the record of a session that was taken out of
    /// the table: the record goes back, and where the operation succeeded
    /// it is written through and its life renewed.
    fn conclude(
        &mut self,
        session_id: u32,
        game: Game,
        effects: Vec<Effect>,
        result: Result<(), Error>,
        Ghost(before): Ghost<ContractView>,
    ) -> (out: Outcome)
        requires
            before.games.contains_key(session_id),
            old(self)@ == (ContractView { games: before.games.remove(session_id), ..before }),
            result is Err ==> game@ == before.games[session_id],
        ensures
            match result {
                Ok(()) => final(self)@ == saved(before, session_id, game@, effects@).state
                    && out.is_of(saved(before, session_id, game@, effects@)),
                Err(e) => final(self)@ == before && out.is_of(refused(before, effects@, e)),
            },
    {
        let mut all = effects;
        let ghost shown = game@;
        assert(before.games.remove(session_id).insert(session_id, shown) =~= before.games.insert(
            session_id,
            shown,
        ));
        match result {
            Ok(()) => {
                self.games.save(session_id, game, &mut all);
                Outcome { effects: all, result: Ok(()) }
            },
            Err(e) => {
                self.games.put(session_id, game);
                assert(before.games.insert(session_id, shown) =~= before.games);
                Outcome { effects: all, result: Err(e) }
            },
        }
    }

    /// Whether the engine holds a record of the session.
    pub fn has_game(&self, session_id: u32) -> (present: bool)
        ensures
            present == self@.games.contains_key(session_id),
    {
        self.games.contains(session_id)
    }

    /// Starts a session between two different players with stakes that are
    /// not negative. A session is created once: where the engine already
    /// holds a record for `session_id` the call is refused as
    /// `InvalidSession`, nothing is asked of the outside, and the record
    /// stays as it is.
    pub fn start_game(
        &mut self,
        session_id: u32,
        player1: Address,
        player2: Address,
        player1_points: i128,
        player2_points: i128,
    ) -> (out: Outcome)
        ensures
            final(self)@ == spec_start_game(
                old(self)@,
                session_id,
                player1,
                player2,
                player1_points,
                player2_points,
            ).state,
            out.is_of(
                spec_start_game(
                    old(self)@,
                    session_id,
                    player1,
                    player2,
                    player1_points,
                    player2_points,
                ),
            ),
            out.result is Ok ==> final(self)@.games[session_id].wf(),
            old(self)@.wf() ==> final(self)@.wf(),
    {
        let mut effects: Vec<Effect> = Vec::new();
        if player1.same(&player2) {
            return Outcome { effects, result: Err(Error::NotPlayer) };
        }
        if player1_points < 0 || player2_points < 0 {
            return Outcome { effects, result: Err(Error::InvalidStakeAmount) };
        }
        effects.push(
            Effect::RequireAuthForArgs { address: player1, session_id, points: player1_points },
        );
        effects.push(
            Effect::RequireAuthForArgs { address: player2, session_id, points: player2_points },
        );
        effects.push(
            Effect::NotifyGameStarted {
                hub: self.config.game_hub,
                session_id,
                player1,
                player2,
                player1_points,
                player2_points,
            },
        );
        let game = Game::new(player1, player2, player1_points, player2_points);
        match self.games.create(session_id, game, &mut effects) {
            Ok(()) => {
                assert(effects@ =~= spec_start_game(
                    old(self)@,
                    session_id,
                    player1,
                    player2,
                    player1_points,
                    player2_points,
                ).effects);
                Outcome { effects, result: Ok(()) }
            },
            Err(_) => Outcome { effects: Vec::new(), result: Err(Error::InvalidSession) },
        }
    }

    /// Commits the board of `player` to a session on the word of a
    /// signature, where a key is installed; `commitment_root` is the root
    /// of the board. The signature is checked by the caller: the check
    /// stands among the effects, before the result.
    pub fn commit_board_with_root(
        &mut self,
        session_id: u32,
        player: Address,
        cell_commitments: Vec<[u8; 32]>,
        ship_cells: u32,
        commitment_root: [u8; 32],
        board_proof_hash: Option<[u8; 32]>,
        board_proof_signature: Option<[u8; 64]>,
    ) -> (out: Outcome)
        ensures
            final(self)@ == spec_commit_board_with_root(
                old(self)@,
                session_id,
                player,
                cell_commitments@,
                ship_cells,
                commitment_root,
                board_proof_hash,
                board_proof_signature,
            ).state,
            out.is_of(
                spec_commit_board_with_root(
                    old(self)@,
                    session_id,
                    player,
                    cell_commitments@,
                    ship_cells,
                    commitment_root,
                    board_proof_hash,
                    board_proof_signature,
                ),
            ),
            out.result is Ok && old(self)@.games[session_id].wf()
                ==> final(self)@.games[session_id].wf(),
            old(self)@.wf() ==> final(self)@.wf(),
    {
        let ghost before = self@;
        let mut effects: Vec<Effect> = Vec::new();
        effects.push(Effect::RequireAuth { address: player });
        let ghost asked = effects@;
        assert(asked =~= seq![Effect::RequireAuth { address: player }]);
        let mut game = match self.games.take(session_id) {
            Ok(g) => g,
            Err(e) => {
                return Outcome { effects, result: Err(e) };
            },
        };
        let mut result = check_board_commit(&game, cell_commitments.len(), ship_cells);
        if result.is_ok() && self.config.zk_verifier.is_some() {
            result = Err(Error::ZkProofRequired);
        }
        if result.is_ok() {
            match self.config.verifier_key {
                None => {},
                Some(public_key) => match (board_proof_hash, board_proof_signature) {
                    (Some(proof_hash), Some(signature)) => {
                        effects.push(
                            Effect::VerifySignature {
                                public_key,
                                message: ProofMessage::Board {
                                    session_id,
                                    ship_cells,
                                    commitment_root,
                                    proof_hash,
                                },
                                signature,
                            },
                        );
                    },
                    _ => {
                        result = Err(Error::MissingProofSignature);
                    },
                },
            }
        }
        if result.is_ok() {
            let ghost check = spec_board_signature(
                before.config,
                session_id,
                commitment_root,
                ship_cells,
                board_proof_hash,
                board_proof_signature,
            )->Ok_0;
            assert(effects@ =~= asked + check);
            result = apply_board_commit(&mut game, player, cell_commitments, ship_cells);
        }
        self.conclude(session_id, game, effects, result, Ghost(before))
    }

    /// Tells whether committing this board comes to the point where its
    /// root is signed for, which is where the root has to be computed.
    pub fn root_is_signed(
        &self,
        session_id: u32,
        cells: usize,
        ship_cells: u32,
        board_proof_hash: &Option<[u8; 32]>,
        board_proof_signature: &Option<[u8; 64]>,
    ) -> (signed: bool)
        ensures
            signed == spec_root_is_signed(
                self@,
                session_id,
                cells as nat,
                ship_cells,
                *board_proof_hash,
                *board_proof_signature,
            ),
    {
        match self.games.load(session_id) {
            Err(_) => false,
            Ok(game) => check_board_commit(game, cells, ship_cells).is_ok()
                && self.config.zk_verifier.is_none() && self.config.verifier_key.is_some()
                && board_proof_hash.is_some() && board_proof_signature.is_some(),
        }
    }

    /// Tells whether committing this board comes to the point where the
    /// proof-verifier service is asked about its root, which is where the
    /// root has to be computed.
    pub fn root_is_asked(&self, session_id: u32, cells: usize, ship_cells: u32) -> (asked: bool)
        ensures
            asked == spec_root_is_asked(self@, session_id, cells as nat, ship_cells),
    {
        match self.games.load(session_id) {
            Err(_) => false,
            Ok(game) => check_board_commit(game, cells, ship_cells).is_ok()
                && self.config.zk_verifier.is_some(),
        }
    }

    /// Commits the board of `player` to a session on the word of a
    /// signature, where a key is installed: the signed message carries the
    /// root of the board. The signature is checked by the caller: the check
    /// stands among the effects, before the result. The root is computed
    /// only where it is signed for, and only there the board must be small
    /// enough to be hashed; a board of the default size always is.
    pub fn commit_board(
        &mut self,
        session_id: u32,
        player: Address,
        cell_commitments: Vec<[u8; 32]>,
        ship_cells: u32,
        board_proof_hash: Option<[u8; 32]>,
        board_proof_signature: Option<[u8; 64]>,
    ) -> (out: Outcome)
        requires
            spec_root_is_signed(
                old(self)@,
                session_id,
                cell_commitments@.len(),
                ship_cells,
                board_proof_hash,
                board_proof_signature,
            ) ==> cell_commitments@.len() <= MAX_ROOT_CELLS,
        ensures
            final(self)@ == spec_commit_board(
                old(self)@,
                session_id,
                player,
                cell_commitments@,
                ship_cells,
                board_proof_hash,
                board_proof_signature,
            ).state,
            out.is_of(
                spec_commit_board(
                    old(self)@,
                    session_id,
                    player,
                    cell_commitments@,
                    ship_cells,
                    board_proof_hash,
                    board_proof_signature,
                ),
            ),
            out.result is Ok && old(self)@.games[session_id].wf()
                ==> final(self)@.games[session_id].wf(),
            old(self)@.wf() ==> final(self)@.wf(),
    {
        let signed = self.root_is_signed(
            session_id,
            cell_commitments.len(),
            ship_cells,
            &board_proof_hash,
            &board_proof_signature,
        );
        let commitment_root = if signed {
            compute_commitment_root(&cell_commitments)
        } else {
            [0u8; 32]
        };
        self.commit_board_with_root(
            session_id,
            player,
            cell_commitments,
            ship_cells,
            commitment_root,
            board_proof_hash,
            board_proof_signature,
        )
    }

    /// Finds what the proof-verifier service has to be asked before the
    /// board can be committed on its word. Nothing changes. The root is
    /// computed only where the service is asked, and only there the board
    /// must be small enough to be hashed; a board of the default size
    /// always is.
    pub fn board_verification(
        &self,
        session_id: u32,
        cell_commitments: &Vec<[u8; 32]>,
        ship_cells: u32,
    ) -> (out: Result<BoardVerification, Error>)
        requires
            spec_root_is_asked(self@, session_id, cell_commitments@.len(), ship_cells)
                ==> cell_commitments@.len() <= MAX_ROOT_CELLS,
        ensures
            out == spec_board_verification(self@, session_id, cell_commitments@, ship_cells),
            out is Ok <==> spec_root_is_asked(
                self@,
                session_id,
                cell_commitments@.len(),
                ship_cells,
            ),
    {
        let game = match self.games.load(session_id) {
            Ok(g) => g,
            Err(e) => {
                return Err(e);
            },
        };
        match check_board_commit(game, cell_commitments.len(), ship_cells) {
            Err(e) => {
                return Err(e);
            },
            Ok(()) => {},
        }
        match self.config.zk_verifier {
            None => Err(Error::ZkVerifierNotConfigured),
            Some(verifier) => Ok(
                BoardVerification {
                    verifier,
                    session_id,
                    ship_cells,
                    commitment_root: compute_commitment_root(cell_commitments),
                },
            ),
        }
    }

    /// Commits the board of `player` to a session on the word of the
    /// proof-verifier service, whose answer to the question of
    /// `board_verification` is `board_ok`. The answer only matters where
    /// that question could be put.
    pub fn commit_board_zk(
        &mut self,
        session_id: u32,
        player: Address,
        cell_commitments: Vec<[u8; 32]>,
        ship_cells: u32,
        board_ok: bool,
    ) -> (out: Outcome)
        ensures
            final(self)@ == spec_commit_board_zk(
                old(self)@,
                session_id,
                player,
                cell_commitments@,
                ship_cells,
                board_ok,
            ).state,
            out.is_of(
                spec_commit_board_zk(
                    old(self)@,
                    session_id,
                    player,
                    cell_commitments@,
                    ship_cells,
                    board_ok,
                ),
            ),
            out.result is Ok && old(self)@.games[session_id].wf()
                ==> final(self)@.games[session_id].wf(),
            old(self)@.wf() ==> final(self)@.wf(),
    {
        let ghost before = self@;
        let mut effects: Vec<Effect> = Vec::new();
        effects.push(Effect::RequireAuth { address: player });
        assert(effects@ =~= seq![Effect::RequireAuth { address: player }]);
        let mut game = match self.games.take(session_id) {
            Ok(g) => g,
            Err(e) => {
                return Outcome { effects, result: Err(e) };
            },
        };
        let mut result = check_board_commit(&game, cell_commitments.len(), ship_cells);
        if result.is_ok() && self.config.zk_verifier.is_none() {
            result = Err(Error::ZkVerifierNotConfigured);
        }
        if result.is_ok() && !board_ok {
            result = Err(Error::ZkVerificationFailed);
        }
        if result.is_ok() {
            result = apply_board_commit(&mut game, player, cell_commitments, ship_cells);
        }
        self.conclude(session_id, game, effects, result, Ghost(before))
    }

    /// Ends a move at once where `invoker` may not act for `player`:
    /// without a grant nothing changes, and an expired grant is deleted.
    fn turned_away(
        &mut self,
        now: u32,
        invoker: &Address,
        session_id: u32,
        player: &Address,
        Ghost(play): Ghost<Play>,
    ) -> (out: Option<Outcome>)
        ensures
            match out {
                Some(refusal) => {
                    &&& spec_session_auth(
                        old(self)@.grants,
                        now,
                        *invoker,
                        session_id,
                        *player,
                    ).result is Err
                    &&& final(self)@ == spec_move(
                        old(self)@,
                        now,
                        *invoker,
                        session_id,
                        *player,
                        play,
                    ).state
                    &&& refusal.is_of(
                        spec_move(old(self)@, now, *invoker, session_id, *player, play),
                    )
                },
                None => {
                    &&& spec_session_auth(
                        old(self)@.grants,
                        now,
                        *invoker,
                        session_id,
                        *player,
                    ).result is Ok
                    &&& final(self)@ == old(self)@
                },
            },
    {
        if check_session_auth(&self.grants, now, invoker, session_id, player).is_ok() {
            return None;
        }
        let mut effects: Vec<Effect> = Vec::new();
        let result = require_player_or_session_auth(
            &mut self.grants,
            &mut effects,
            now,
            invoker,
            session_id,
            player,
        );
        assert(effects@ =~= spec_session_auth(
            old(self)@.grants,
            now,
            *invoker,
            session_id,
            *player,
        ).effects);
        Some(Outcome { effects, result })
    }

    /// Ends a move on the record of a session that was taken out of the
    /// store. A refused move puts the record back and leaves the grant as
    /// it is; an accepted move uses the grant and saves the record.
    fn conclude_move(
        &mut self,
        now: u32,
        invoker: &Address,
        session_id: u32,
        player: &Address,
        game: Game,
        asked: Vec<Effect>,
        result: Result<(), Error>,
        Ghost(before): Ghost<ContractView>,
    ) -> (out: Outcome)
        requires
            before.games.contains_key(session_id),
            old(self)@ == (ContractView { games: before.games.remove(session_id), ..before }),
            spec_session_auth(before.grants, now, *invoker, session_id, *player).result is Ok,
            result is Err ==> game@ == before.games[session_id],
        ensures
            ({
                let play = Play {
                    effects: asked@,
                    result: match result {
                        Ok(()) => Ok(game@),
                        Err(e) => Err(e),
                    },
                };
                let step = spec_move(before, now, *invoker, session_id, *player, play);
                final(self)@ == step.state && out.is_of(step)
            }),
    {
        let ghost shown = game@;
        let ghost auth = spec_session_auth(before.grants, now, *invoker, session_id, *player);
        assert(before.games.remove(session_id).insert(session_id, shown) =~= before.games.insert(
            session_id,
            shown,
        ));
        let mut effects: Vec<Effect> = Vec::new();
        match result {
            Ok(()) => {
                let granted = require_player_or_session_auth(
                    &mut self.grants,
                    &mut effects,
                    now,
                    invoker,
                    session_id,
                    player,
                );
                assert(effects@ =~= auth.effects);
                append_effects(&mut effects, asked);
                self.games.save(session_id, game, &mut effects);
                Outcome { effects, result: Ok(()) }
            },
            Err(e) => {
                effects.push(Effect::RequireAuth { address: *invoker });
                append_effects(&mut effects, asked);
                assert(effects@ =~= seq![Effect::RequireAuth { address: *invoker }] + asked@);
                self.games.put(session_id, game);
                assert(before.games.insert(session_id, shown) =~= before.games);
                Outcome { effects, result: Err(e) }
            },
        }
    }

    /// The refusal of a move for a session of which no record is held.
    fn no_such_game(invoker: &Address) -> (out: Outcome)
        ensures
            out.effects@ == seq![Effect::RequireAuth { address: *invoker }] + Seq::<Effect>::empty(),
            out.result == Err::<(), _>(Error::GameNotFound),
    {
        let mut effects: Vec<Effect> = Vec::new();
        effects.push(Effect::RequireAuth { address: *invoker });
        assert(effects@ =~= seq![Effect::RequireAuth { address: *invoker }] + Seq::<
            Effect,
        >::empty());
        Outcome { effects, result: Err(Error::GameNotFound) }
    }

    /// Locks the attack of `attacker` on the cell `(x, y)` of a session.
    /// `invoker` is who makes the call, the attacker or a delegate, and
    /// `now` is the ledger clock. A refused attack changes nothing and
    /// uses no grant; only a grant found expired is deleted.
    pub fn attack(
        &mut self,
        now: u32,
        invoker: Address,
        session_id: u32,
        attacker: Address,
        x: u32,
        y: u32,
    ) -> (out: Outcome)
        ensures
            final(self)@ == spec_attack(old(self)@, now, invoker, session_id, attacker, x, y).state,
            out.is_of(spec_attack(old(self)@, now, invoker, session_id, attacker, x, y)),
            out.result is Err && out.result != Err::<(), _>(Error::SessionExpired) ==> final(self)@
                == old(self)@ && no_storage_effects(out.effects@),
            out.result is Ok && old(self)@.games[session_id].wf()
                ==> final(self)@.games[session_id].wf(),
            old(self)@.wf() ==> final(self)@.wf(),
    {
        let ghost before = self@;
        let ghost play = spec_attack_play(before, session_id, attacker, x, y);
        match self.turned_away(now, &invoker, session_id, &attacker, Ghost(play)) {
            Some(refusal) => {
                return refusal;
            },
            None => {},
        }
        let mut game = match self.games.take(session_id) {
            Ok(g) => g,
            Err(_) => {
                return Self::no_such_game(&invoker);
            },
        };
        let asked: Vec<Effect> = Vec::new();
        let result = apply_attack(&mut game, attacker, x, y);
        assert(play == (Play {
            effects: asked@,
            result: match result {
                Ok(()) => Ok(game@),
                Err(e) => Err(e),
            },
        }));
        self.conclude_move(now, &invoker, session_id, &attacker, game, asked, result, Ghost(before))
    }

    /// Resolves the pending attack of a session by a reveal whose two
    /// hashes are given: `reveal_digest` of the ship flag and the salt,
    /// `proof_digest` of these and the coordinates of the cell. A refused
    /// reveal changes nothing and uses no grant; only a grant found expired
    /// is deleted.
    pub fn resolve_attack_with_digests(
        &mut self,
        now: u32,
        invoker: Address,
        session_id: u32,
        defender: Address,
        is_ship: bool,
        reveal_digest: [u8; 32],
        proof_digest: [u8; 32],
        zk_proof_hash: [u8; 32],
        zk_proof_signature: Option<[u8; 64]>,
    ) -> (out: Outcome)
        ensures
            final(self)@ == spec_resolve_attack(
                old(self)@,
                now,
                invoker,
                session_id,
                defender,
                is_ship,
                reveal_digest,
                proof_digest,
                zk_proof_hash,
                zk_proof_signature,
            ).state,
            out.is_of(
                spec_resolve_attack(
                    old(self)@,
                    now,
                    invoker,
                    session_id,
                    defender,
                    is_ship,
                    reveal_digest,
                    proof_digest,
                    zk_proof_hash,
                    zk_proof_signature,
                ),
            ),
            out.result is Err && out.result != Err::<(), _>(Error::SessionExpired) ==> final(self)@
                == old(self)@ && no_storage_effects(out.effects@),
            out.result is Ok && old(self)@.games[session_id].wf()
                ==> final(self)@.games[session_id].wf(),
            old(self)@.wf() ==> final(self)@.wf(),
    {
        let ghost before = self@;
        let ghost play = spec_reveal_play(
            before,
            session_id,
            defender,
            is_ship,
            reveal_digest,
            proof_digest,
            zk_proof_hash,
            zk_proof_signature,
        );
        match self.turned_away(now, &invoker, session_id, &defender, Ghost(play)) {
            Some(refusal) => {
                return refusal;
            },
            None => {},
        }
        let mut game = match self.games.take(session_id) {
            Ok(g) => g,
            Err(_) => {
                return Self::no_such_game(&invoker);
            },
        };
        let mut asked: Vec<Effect> = Vec::new();
        let mut result: Result<(), Error> = Ok(());
        match pending_commitment(&self.config, &game, &defender, false) {
            Err(e) => {
                result = Err(e);
            },
            Ok((x, y, index, expected)) => {
                match check_reveal(&expected, &reveal_digest, &zk_proof_hash, &proof_digest) {
                    Err(e) => {
                        result = Err(e);
                    },
                    Ok(()) => {
                        match (self.config.verifier_key, zk_proof_signature) {
                            (None, _) => {},
                            (Some(_), None) => {
                                result = Err(Error::MissingProofSignature);
                            },
                            (Some(public_key), Some(signature)) => {
                                asked.push(
                                    Effect::VerifySignature {
                                        public_key,
                                        message: ProofMessage::Attack {
                                            session_id,
                                            x,
                                            y,
                                            is_ship,
                                            proof_hash: zk_proof_hash,
                                        },
                                        signature,
                                    },
                                );
                            },
                        }
                        if result.is_ok() {
                            let ghost check = spec_attack_signature(
                                before.config,
                                session_id,
                                x,
                                y,
                                is_ship,
                                zk_proof_hash,
                                zk_proof_signature,
                            )->Ok_0;
                            assert(asked@ =~= check);
                            match apply_resolved_attack(
                                &self.config,
                                session_id,
                                &mut game,
                                index,
                                is_ship,
                            ) {
                                Err(e) => {
                                    result = Err(e);
                                },
                                Ok(owed) => {
                                    append_effects(&mut asked, owed);
                                },
                            }
                        }
                    },
                }
            },
        }
        assert(play == (Play {
            effects: asked@,
            result: match result {
                Ok(()) => Ok(game@),
                Err(e) => Err(e),
            },
        }));
        self.conclude_move(now, &invoker, session_id, &defender, game, asked, result, Ghost(before))
    }

    /// The cell of the pending attack, where a reveal by `invoker` for
    /// `defender` comes to the point where it is judged by its hashes.
    fn judged_cell(&self, now: u32, invoker: &Address, session_id: u32, defender: &Address) -> (cell:
        Option<(u32, u32)>)
        ensures
            cell is Some <==> spec_reveal_is_judged(self@, now, *invoker, session_id, *defender),
            cell matches Some((x, y)) ==> x == pending_x_of(self@, session_id) && y == pending_y_of(
                self@,
                session_id,
            ),
    {
        if check_session_auth(&self.grants, now, invoker, session_id, defender).is_err() {
            return None;
        }
        match self.games.load(session_id) {
            Err(_) => None,
            Ok(game) => match pending_commitment(&self.config, game, defender, false) {
                Err(_) => None,
                Ok((x, y, _, _)) => Some((x, y)),
            },
        }
    }

    /// Tells whether a reveal by `invoker` for `defender` comes to the
    /// point where it is judged by its hashes, which is where the hashes
    /// have to be computed.
    pub fn reveal_is_judged(
        &self,
        now: u32,
        invoker: Address,
        session_id: u32,
        defender: Address,
    ) -> (judged: bool)
        ensures
            judged == spec_reveal_is_judged(self@, now, invoker, session_id, defender),
    {
        self.judged_cell(now, &invoker, session_id, &defender).is_some()
    }

    /// Resolves the pending attack of a session by the reveal
    /// `(is_ship, salt)`: the hash of the reveal must equal the commitment
    /// of the cell, and `zk_proof_hash` the hash that binds the reveal to
    /// the cell. Where a key is installed, the check of the signature
    /// stands among the effects. The hashes are computed only where the
    /// reveal is judged by them, and only there the salt must be short
    /// enough to be hashed. A refused reveal changes nothing and uses no
    /// grant; only a grant found expired is deleted.
    pub fn resolve_attack(
        &mut self,
        now: u32,
        invoker: Address,
        session_id: u32,
        defender: Address,
        is_ship: bool,
        salt: &Vec<u8>,
        zk_proof_hash: [u8; 32],
        zk_proof_signature: Option<[u8; 64]>,
    ) -> (out: Outcome)
        requires
            spec_reveal_is_judged(old(self)@, now, invoker, session_id, defender) ==> salt@.len()
                <= MAX_SALT_LEN,
        ensures
            final(self)@ == spec_resolve_attack(
                old(self)@,
                now,
                invoker,
                session_id,
                defender,
                is_ship,
                keccak256_hash(cell_reveal_payload(is_ship, salt@)),
                keccak256_hash(
                    attack_proof_payload(
                        is_ship,
                        salt@,
                        pending_x_of(old(self)@, session_id),
                        pending_y_of(old(self)@, session_id),
                    ),
                ),
                zk_proof_hash,
                zk_proof_signature,
            ).state,
            out.is_of(
                spec_resolve_attack(
                    old(self)@,
                    now,
                    invoker,
                    session_id,
                    defender,
                    is_ship,
                    keccak256_hash(cell_reveal_payload(is_ship, salt@)),
                    keccak256_hash(
                        attack_proof_payload(
                            is_ship,
                            salt@,
                            pending_x_of(old(self)@, session_id),
                            pending_y_of(old(self)@, session_id),
                        ),
                    ),
                    zk_proof_hash,
                    zk_proof_signature,
                ),
            ),
            out.result is Err && out.result != Err::<(), _>(Error::SessionExpired) ==> final(self)@
                == old(self)@ && no_storage_effects(out.effects@),
            out.result is Ok && old(self)@.games[session_id].wf()
                ==> final(self)@.games[session_id].wf(),
            old(self)@.wf() ==> final(self)@.wf(),
    {
        let (reveal_digest, proof_digest) = match self.judged_cell(
            now,
            &invoker,
            session_id,
            &defender,
        ) {
            Some((x, y)) => (
                cell_reveal_hash(is_ship, salt),
                attack_proof_hash(is_ship, salt, x, y),
            ),
            None => ([0u8; 32], [0u8; 32]),
        };
        self.resolve_attack_with_digests(
            now,
            invoker,
            session_id,
            defender,
            is_ship,
            reveal_digest,
            proof_digest,
            zk_proof_hash,
            zk_proof_signature,
        )
    }

    /// Finds what the proof-verifier service has to be asked before the
    /// pending attack can be resolved on its word: the cell and the
    /// commitment stored for it. Nothing changes and no grant is used.
    pub fn attack_verification(
        &self,
        now: u32,
        invoker: Address,
        session_id: u32,
        defender: Address,
    ) -> (out: Result<AttackVerification, Error>)
        ensures
            out == spec_attack_verification(self@, now, invoker, session_id, defender),
    {
        match check_session_auth(&self.grants, now, &invoker, session_id, &defender) {
            Err(e) => {
                return Err(e);
            },
            Ok(()) => {},
        }
        let game = match self.games.load(session_id) {
            Ok(g) => g,
            Err(e) => {
                return Err(e);
            },
        };
        match (pending_commitment(&self.config, game, &defender, true), self.config.zk_verifier) {
            (Ok((x, y, _, expected_commitment)), Some(verifier)) => Ok(
                AttackVerification { verifier, session_id, x, y, expected_commitment },
            ),
            (Ok(_), None) => Err(Error::ZkVerifierNotConfigured),
            (Err(e), _) => Err(e),
        }
    }

    /// Resolves the pending attack of a session on the word of the
    /// proof-verifier service, whose answer to the question of
    /// `attack_verification` is `is_ship`. The answer only matters where
    /// that question could be put. A refused resolution changes nothing and
    /// uses no grant; only a grant found expired is deleted.
    pub fn resolve_attack_zk(
        &mut self,
        now: u32,
        invoker: Address,
        session_id: u32,
        defender: Address,
        is_ship: bool,
    ) -> (out: Outcome)
        ensures
            final(self)@ == spec_resolve_attack_zk(
                old(self)@,
                now,
                invoker,
                session_id,
                defender,
                is_ship,
            ).state,
            out.is_of(
                spec_resolve_attack_zk(old(self)@, now, invoker, session_id, defender, is_ship),
            ),
            out.result is Err && out.result != Err::<(), _>(Error::SessionExpired) ==> final(self)@
                == old(self)@ && no_storage_effects(out.effects@),
            out.result is Ok && old(self)@.games[session_id].wf()
                ==> final(self)@.games[session_id].wf(),
            old(self)@.wf() ==> final(self)@.wf(),
    {
        let ghost before = self@;
        let ghost play = spec_service_play(before, session_id, defender, is_ship);
        match self.turned_away(now, &invoker, session_id, &defender, Ghost(play)) {
            Some(refusal) => {
                return refusal;
            },
            None => {},
        }
        let mut game = match self.games.take(session_id) {
            Ok(g) => g,
            Err(_) => {
                return Self::no_such_game(&invoker);
            },
        };
        let mut asked: Vec<Effect> = Vec::new();
        let result = match pending_commitment(&self.config, &game, &defender, true) {
            Err(e) => Err(e),
            Ok((_, _, index, _)) => {
                match apply_resolved_attack(&self.config, session_id, &mut game, index, is_ship) {
                    Err(e) => Err(e),
                    Ok(owed) => {
                        asked = owed;
                        Ok(())
                    },
                }
            },
        };
        assert(play == (Play {
            effects: asked@,
            result: match result {
                Ok(()) => Ok(game@),
                Err(e) => Err(e),
            },
        }));
        self.conclude_move(now, &invoker, session_id, &defender, game, asked, result, Ghost(before))
    }

    /// Lets `delegate` act for `player` in a session for `ttl_ledgers`
    /// ticks of the ledger clock from `now`, `uses_left` times or, with 0,
    /// any number of times. The delegate must be someone else, the time
    /// between 1 and the maximum, and the player one of the two players of
    /// the session. A grant under the same key is replaced.
    pub fn authorize_session(
        &mut self,
        now: u32,
        session_id: u32,
        player: Address,
        delegate: Address,
        ttl_ledgers: u32,
        uses_left: u32,
    ) -> (out: Outcome)
        ensures
            final(self)@ == spec_authorize_session(
                old(self)@,
                now,
                session_id,
                player,
                delegate,
                ttl_ledgers,
                uses_left,
            ).state,
            out.is_of(
                spec_authorize_session(
                    old(self)@,
                    now,
                    session_id,
                    player,
                    delegate,
                    ttl_ledgers,
                    uses_left,
                ),
            ),
            old(self)@.wf() ==> final(self)@.wf(),
    {
        let mut effects: Vec<Effect> = Vec::new();
        effects.push(Effect::RequireAuth { address: player });
        assert(effects@ =~= seq![Effect::RequireAuth { address: player }]);
        if delegate.same(&player) || ttl_ledgers == 0 || ttl_ledgers > MAX_SESSION_TTL_LEDGERS {
            return Outcome { effects, result: Err(Error::InvalidSessionConfig) };
        }
        let known = match self.games.load(session_id) {
            Ok(game) => player.same(&game.player1) || player.same(&game.player2),
            Err(e) => {
                return Outcome { effects, result: Err(e) };
            },
        };
        if !known {
            return Outcome { effects, result: Err(Error::NotPlayer) };
        }
        let key = GrantKey { grantor: player, delegate, session_id };
        let expires_ledger = now.saturating_add(ttl_ledgers);
        self.grants.set(key, SessionGrant { expires_ledger, uses_left });
        effects.push(Effect::Write { key: key.to_data_key() });
        effects.push(
            Effect::ExtendTtl { key: key.to_data_key(), ledgers: SESSION_GRANT_TTL_LEDGERS },
        );
        Outcome { effects, result: Ok(()) }
    }

    /// Takes back the grant that `player` gave to `delegate` for a session;
    /// `InvalidSession` where there is none.
    pub fn revoke_session(&mut self, session_id: u32, player: Address, delegate: Address) -> (out:
        Outcome)
        ensures
            final(self)@ == spec_revoke_session(old(self)@, session_id, player, delegate).state,
            out.is_of(spec_revoke_session(old(self)@, session_id, player, delegate)),
            old(self)@.wf() ==> final(self)@.wf(),
    {
        let mut effects: Vec<Effect> = Vec::new();
        effects.push(Effect::RequireAuth { address: player });
        assert(effects@ =~= seq![Effect::RequireAuth { address: player }]);
        let key = GrantKey { grantor: player, delegate, session_id };
        if !self.grants.remove(&key) {
            assert(self@.grants =~= old(self)@.grants);
            return Outcome { effects, result: Err(Error::InvalidSession) };
        }
        effects.push(Effect::Erase { key: key.to_data_key() });
        Outcome { effects, result: Ok(()) }
    }

    /// Records that `player` deposits the stake of a session. The transfer
    /// into escrow stands among the effects. Nothing happens, and nothing
    /// is written, in a match without stakes.
    pub fn deposit_stake(&mut self, session_id: u32, player: Address) -> (out: Outcome)
        ensures
            final(self)@ == spec_deposit(old(self)@, session_id, player).state,
            out.is_of(spec_deposit(old(self)@, session_id, player)),
            out.result is Ok && old(self)@.games[session_id].wf()
                ==> final(self)@.games[session_id].wf(),
            old(self)@.wf() ==> final(self)@.wf(),
    {
        let ghost before = self@;
        let mut effects: Vec<Effect> = Vec::new();
        effects.push(Effect::RequireAuth { address: player });
        assert(effects@ =~= seq![Effect::RequireAuth { address: player }]);
        let mut game = match self.games.take(session_id) {
            Ok(g) => g,
            Err(e) => {
                return Outcome { effects, result: Err(e) };
            },
        };
        let wager = is_wager_game(&game);
        match apply_deposit(&self.config, &mut game, &player) {
            Err(e) => self.conclude(session_id, game, effects, Err(e), Ghost(before)),
            Ok(owed) => {
                if wager {
                    append_effects(&mut effects, owed);
                    self.conclude(session_id, game, effects, Ok(()), Ghost(before))
                } else {
                    self.games.put(session_id, game);
                    assert(self@.games =~= before.games);
                    Outcome { effects, result: Ok(()) }
                }
            },
        }
    }
}

} // verus!
