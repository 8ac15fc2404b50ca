//! What holds of the engine across operations, proved from the functions
//! that specify them.

use vstd::prelude::*;
use crate::address::Address;
use crate::board::{spec_apply_board_commit, spec_check_board_commit};
use crate::codec::commitment_root;
use crate::combat::{
    lemma_resolve_keeps_wf, spec_apply_attack, spec_apply_resolved_attack,
    spec_pending_commitment, struck, victor,
};
use crate::config::Config;
use crate::effect::Effect;
use crate::error::Error;
use crate::escrow::{payouts, spec_deposit_stake, spec_settle_wager};
use crate::game::{GameView, Phase};
use crate::session::{no_storage_effects, spec_session_auth, GrantKey, SessionGrant};
use crate::step::{
    spec_attack, spec_attack_signature, spec_board_signature, spec_commit_board,
    spec_commit_board_zk, spec_deposit, spec_resolve_attack, spec_resolve_attack_zk,
    spec_session_commitment, spec_start_game, ContractView, Step,
};
use crate::store::save_effects;

verus! {

/// Whether an effect moves tokens.
pub open spec fn is_transfer(effect: Effect) -> bool {
    effect is Deposit || effect is Payout
}

/// Whether no effect of the list moves tokens.
pub open spec fn no_transfers(effects: Seq<Effect>) -> bool {
    forall|i: int| 0 <= i < effects.len() ==> !is_transfer(#[trigger] effects[i])
}

/// A player who has committed a board cannot commit another: once
/// `commit_board` has succeeded for `player`, every further board of that
/// player which is well-formed, and comes with what the installed key asks
/// for, is refused as `BoardAlreadyCommitted`, and nothing changes.
pub proof fn law_second_commit_is_refused(
    state: ContractView,
    session_id: u32,
    player: Address,
    first: Seq<[u8; 32]>,
    first_ships: u32,
    first_hash: Option<[u8; 32]>,
    first_signature: Option<[u8; 64]>,
    second: Seq<[u8; 32]>,
    second_ships: u32,
    second_hash: Option<[u8; 32]>,
    second_signature: Option<[u8; 64]>,
)
    requires
        spec_commit_board(
            state,
            session_id,
            player,
            first,
            first_ships,
            first_hash,
            first_signature,
        ).result is Ok,
        second.len() == state.games[session_id].board_cells(),
        1 <= second_ships <= state.games[session_id].board_cells(),
        spec_board_signature(
            state.config,
            session_id,
            commitment_root(second),
            second_ships,
            second_hash,
            second_signature,
        ) is Ok,
    ensures
        ({
            let after = spec_commit_board(
                state,
                session_id,
                player,
                first,
                first_ships,
                first_hash,
                first_signature,
            ).state;
            let again = spec_commit_board(
                after,
                session_id,
                player,
                second,
                second_ships,
                second_hash,
                second_signature,
            );
            again.result == Err::<(), _>(Error::BoardAlreadyCommitted) && again.state == after
        }),
{
}

/// Two boards make a match: in a session where nobody has committed yet,
/// once one player's `commit_board` has succeeded, a well-formed board of
/// the other player, with what the installed key asks for, is accepted, and
/// then player 1 is to move and both boards stand as committed.
pub proof fn law_both_commits_activate(
    state: ContractView,
    session_id: u32,
    first_player: Address,
    first: Seq<[u8; 32]>,
    first_ships: u32,
    first_hash: Option<[u8; 32]>,
    first_signature: Option<[u8; 64]>,
    second_player: Address,
    second: Seq<[u8; 32]>,
    second_ships: u32,
    second_hash: Option<[u8; 32]>,
    second_signature: Option<[u8; 64]>,
)
    requires
        state.games.contains_key(session_id),
        state.games[session_id].player1_board is None,
        state.games[session_id].player2_board is None,
        state.games[session_id].turn is None,
        state.games[session_id].is_player(second_player),
        first_player != second_player,
        spec_commit_board(
            state,
            session_id,
            first_player,
            first,
            first_ships,
            first_hash,
            first_signature,
        ).result is Ok,
        second.len() == state.games[session_id].board_cells(),
        1 <= second_ships <= state.games[session_id].board_cells(),
        spec_board_signature(
            state.config,
            session_id,
            commitment_root(second),
            second_ships,
            second_hash,
            second_signature,
        ) is Ok,
    ensures
        ({
            let before = state.games[session_id];
            let after = spec_commit_board(
                state,
                session_id,
                first_player,
                first,
                first_ships,
                first_hash,
                first_signature,
            ).state;
            let both = spec_commit_board(
                after,
                session_id,
                second_player,
                second,
                second_ships,
                second_hash,
                second_signature,
            );
            let g = both.state.games[session_id];
            &&& both.result is Ok
            &&& g.turn == Some(before.player1)
            &&& g.player1_board == Some(
                if first_player == before.player1 {
                    first
                } else {
                    second
                },
            )
            &&& g.player2_board == Some(
                if first_player == before.player1 {
                    second
                } else {
                    first
                },
            )
        }),
{
}

/// While an attack is pending no other can be made: in a session whose
/// record satisfies the invariant and holds a lock, an attack on any cell
/// of the board by a caller who may act for the attacker is refused as
/// `PendingAttackResolution`, and the record stays as it is.
pub proof fn law_attack_while_pending_is_refused(
    state: ContractView,
    now: u32,
    invoker: Address,
    session_id: u32,
    attacker: Address,
    x: u32,
    y: u32,
)
    requires
        state.games.contains_key(session_id),
        state.games[session_id].wf(),
        state.games[session_id].pending_attacker is Some,
        x < state.games[session_id].board_size,
        y < state.games[session_id].board_size,
        spec_session_auth(state.grants, now, invoker, session_id, attacker).result is Ok,
    ensures
        spec_attack(state, now, invoker, session_id, attacker, x, y).result == Err::<(), _>(
            Error::PendingAttackResolution,
        ),
        spec_attack(state, now, invoker, session_id, attacker, x, y).state.games == state.games,
{
}

/// Without an attack there is nothing to resolve: in a session that is not
/// over, whose record satisfies the invariant and holds no lock, every
/// reveal by a caller who may act for the defender is refused as
/// `NoPendingAttack`, whatever it reveals.
pub proof fn law_resolve_without_attack_is_refused(
    state: ContractView,
    now: u32,
    invoker: Address,
    session_id: u32,
    defender: Address,
    is_ship: bool,
    reveal_digest: [u8; 32],
    proof_digest: [u8; 32],
    proof_hash: [u8; 32],
    signature: Option<[u8; 64]>,
)
    requires
        state.games.contains_key(session_id),
        state.games[session_id].wf(),
        state.games[session_id].winner is None,
        state.games[session_id].pending_attacker is None,
        spec_session_auth(state.grants, now, invoker, session_id, defender).result is Ok,
    ensures
        spec_resolve_attack(
            state,
            now,
            invoker,
            session_id,
            defender,
            is_ship,
            reveal_digest,
            proof_digest,
            proof_hash,
            signature,
        ).result == Err::<(), _>(Error::NoPendingAttack),
        spec_resolve_attack_zk(state, now, invoker, session_id, defender, is_ship).result == Err::<
            (),
            _,
        >(Error::NoPendingAttack),
{
}

/// A resolved attack is remembered: the cell stands in the attacker's
/// history afterwards.
pub proof fn law_resolved_cell_is_remembered(
    config: Config,
    session_id: u32,
    g: GameView,
    index: u32,
    is_ship: bool,
)
    requires
        spec_apply_resolved_attack(config, session_id, g, index, is_ship) is Ok,
    ensures
        ({
            let after = spec_apply_resolved_attack(config, session_id, g, index, is_ship)->Ok_0.0;
            after.attacks_of(g.pending_attacker->0).contains(index)
        }),
{
    let attacker = g.pending_attacker->0;
    let hit = struck(g, attacker, index, is_ship);
    let after = spec_apply_resolved_attack(config, session_id, g, index, is_ship)->Ok_0.0;
    assert(hit.attacks_of(attacker) == g.attacks_of(attacker).push(index));
    assert(hit.attacks_of(attacker)[g.attacks_of(attacker).len() as int] == index);
    assert(after.attacks_of(attacker) == hit.attacks_of(attacker));
}

/// No operation on a match forgets an attack: whatever a board commit, an
/// attack, a resolution or a deposit leaves behind, the cells that a player
/// had attacked before are still in that player's history.
pub proof fn law_history_only_grows(
    config: Config,
    session_id: u32,
    g: GameView,
    who: Address,
    cell: u32,
    player: Address,
    commitments: Seq<[u8; 32]>,
    ship_cells: u32,
    x: u32,
    y: u32,
    index: u32,
    is_ship: bool,
)
    requires
        g.attacks_of(who).contains(cell),
    ensures
        spec_apply_board_commit(g, player, commitments, ship_cells) matches Ok(after)
            ==> after.attacks_of(who).contains(cell),
        spec_apply_attack(g, player, x, y) matches Ok(after) ==> after.attacks_of(who).contains(
            cell,
        ),
        spec_apply_resolved_attack(config, session_id, g, index, is_ship) matches Ok(after)
            ==> after.0.attacks_of(who).contains(cell),
        spec_deposit_stake(config, g, player) matches Ok(after) ==> after.0.attacks_of(
            who,
        ).contains(cell),
{
    let at = choose|i: int| 0 <= i < g.attacks_of(who).len() && g.attacks_of(who)[i] == cell;
    if spec_apply_resolved_attack(config, session_id, g, index, is_ship) is Ok {
        let attacker = g.pending_attacker->0;
        let hit = struck(g, attacker, index, is_ship);
        let after = spec_apply_resolved_attack(config, session_id, g, index, is_ship)->Ok_0.0;
        assert(after.attacks_of(who) == hit.attacks_of(who));
        assert(hit.attacks_of(who)[at] == cell);
    }
}

/// The same cell cannot be attacked twice by the same attacker: where the
/// cell `(x, y)` stands in the attacker's history, an attack on it is
/// refused, and it is refused as `AlreadyAttacked` whenever the match is
/// active with nothing pending and the attacker is to move.
pub proof fn law_repeated_attack_is_refused(g: GameView, attacker: Address, x: u32, y: u32)
    requires
        g.attacks_of(attacker).contains(g.target_index(x, y)),
    ensures
        spec_apply_attack(g, attacker, x, y) is Err,
        g.wf() && g.winner is None && g.pending_attacker is None && g.turn == Some(attacker) && x
            < g.board_size && y < g.board_size ==> spec_apply_attack(g, attacker, x, y) == Err::<
            GameView,
            _,
        >(Error::AlreadyAttacked),
{
}

/// A reveal is judged by its two hashes and by nothing else. Where an
/// attack is pending for the defender and the caller may act for the
/// defender: a reveal whose hash differs from the commitment of the cell
/// is refused as `InvalidCellReveal`; one that opens the commitment but
/// comes with another proof hash than the hash of the reveal and the
/// coordinates, as `InvalidProofHash`; and one that passes both, with the
/// signature where a key is installed, is entered exactly as
/// `spec_apply_resolved_attack` says.
pub proof fn law_reveal_is_judged_by_its_hashes(
    state: ContractView,
    now: u32,
    invoker: Address,
    session_id: u32,
    defender: Address,
    is_ship: bool,
    reveal_digest: [u8; 32],
    proof_digest: [u8; 32],
    proof_hash: [u8; 32],
    signature: Option<[u8; 64]>,
)
    requires
        spec_session_auth(state.grants, now, invoker, session_id, defender).result is Ok,
        spec_session_commitment(state, session_id, defender, false) is Ok,
    ensures
        ({
            let step = spec_resolve_attack(
                state,
                now,
                invoker,
                session_id,
                defender,
                is_ship,
                reveal_digest,
                proof_digest,
                proof_hash,
                signature,
            );
            let (x, y, index, expected) = spec_session_commitment(
                state,
                session_id,
                defender,
                false,
            )->Ok_0;
            let entered = spec_apply_resolved_attack(
                state.config,
                session_id,
                state.games[session_id],
                index,
                is_ship,
            );
            &&& expected != reveal_digest ==> step.result == Err::<(), _>(Error::InvalidCellReveal)
            &&& expected == reveal_digest && proof_hash != proof_digest ==> step.result == Err::<
                (),
                _,
            >(Error::InvalidProofHash)
            &&& expected == reveal_digest && proof_hash == proof_digest && spec_attack_signature(
                state.config,
                session_id,
                x,
                y,
                is_ship,
                proof_hash,
                signature,
            ) is Ok ==> {
                &&& step.result is Ok <==> entered is Ok
                &&& entered matches Ok(after) ==> step.state.games[session_id] == after.0
                &&& entered matches Err(e) ==> step.result == Err::<(), _>(e)
            }
            &&& step.result is Err ==> step.state.games == state.games
        }),
{
    let auth = spec_session_auth(state.grants, now, invoker, session_id, defender);
    let inner = state.with_grants(auth.grants);
    assert(spec_session_commitment(inner, session_id, defender, false)
        == spec_session_commitment(state, session_id, defender, false));
}

/// Settlement happens once: after a pot has been settled, settling the
/// same match again, under whatever settings, owes nothing and changes
/// nothing.
pub proof fn law_settlement_happens_once(config: Config, later: Config, g: GameView)
    requires
        spec_settle_wager(config, g) is Ok,
    ensures
        ({
            let (settled, _) = spec_settle_wager(config, g)->Ok_0;
            spec_settle_wager(later, settled) == Ok::<_, Error>(
                (settled, Seq::<Effect>::empty()),
            )
        }),
{
}

/// What a settled pot pays: with stakes that are not negative, however
/// large, and a fee of at most the whole, the winner is owed the pot less
/// `floor(pot * fee_bps / 10000)` and the fee recipient that fee, each only
/// where it is positive, and nothing else is owed.
pub proof fn law_settlement_divides_the_pot(config: Config, g: GameView)
    requires
        g.is_wager(),
        !g.payout_processed,
        g.funded(),
        g.winner is Some,
        config.bet_token is Some,
        g.player1_points >= 0,
        g.player2_points >= 0,
        g.player1_points + g.player2_points <= i128::MAX,
        config.fee_bps <= 10000,
    ensures
        ({
            let pot = g.player1_points + g.player2_points;
            let fee = (pot * config.fee_bps) / 10000;
            &&& spec_settle_wager(config, g) is Ok
            &&& spec_settle_wager(config, g)->Ok_0.0 == (GameView { payout_processed: true, ..g })
            &&& spec_settle_wager(config, g)->Ok_0.1 == payouts(
                config.bet_token->0,
                g.winner->0,
                config.fee_recipient,
                (pot - fee) as i128,
                fee as i128,
            )
            &&& 0 <= fee <= pot
        }),
{
    crate::escrow::lemma_pot_is_divided(g, config.fee_bps);
}

/// A grant for one use permits exactly one: when someone else than the
/// player acts on a grant with one use left that has not expired, the act
/// is permitted and the grant is deleted, and the next act of the same
/// delegate for the same player and session is refused as
/// `InvalidSession`, whenever it comes.
pub proof fn law_single_use_grant_is_spent(
    grants: Map<GrantKey, SessionGrant>,
    now: u32,
    later: u32,
    invoker: Address,
    session_id: u32,
    player: Address,
)
    requires
        invoker != player,
        grants.contains_key(GrantKey { grantor: player, delegate: invoker, session_id }),
        grants[GrantKey { grantor: player, delegate: invoker, session_id }].uses_left == 1,
        now <= grants[GrantKey { grantor: player, delegate: invoker, session_id }].expires_ledger,
    ensures
        ({
            let key = GrantKey { grantor: player, delegate: invoker, session_id };
            let first = spec_session_auth(grants, now, invoker, session_id, player);
            let second = spec_session_auth(first.grants, later, invoker, session_id, player);
            &&& first.result is Ok
            &&& first.grants == grants.remove(key)
            &&& second.result == Err::<(), _>(Error::InvalidSession)
            &&& second.grants == first.grants
        }),
{
}

/// A counted grant permits as many acts as it counts: each act before the
/// expiry lowers the count by one, and the grant is deleted with the last.
pub proof fn law_counted_grant_counts_down(
    grants: Map<GrantKey, SessionGrant>,
    now: u32,
    invoker: Address,
    session_id: u32,
    player: Address,
)
    requires
        invoker != player,
        grants.contains_key(GrantKey { grantor: player, delegate: invoker, session_id }),
        grants[GrantKey { grantor: player, delegate: invoker, session_id }].uses_left > 0,
        now <= grants[GrantKey { grantor: player, delegate: invoker, session_id }].expires_ledger,
    ensures
        ({
            let key = GrantKey { grantor: player, delegate: invoker, session_id };
            let step = spec_session_auth(grants, now, invoker, session_id, player);
            &&& step.result is Ok
            &&& grants[key].uses_left == 1 ==> !step.grants.contains_key(key)
            &&& grants[key].uses_left > 1 ==> step.grants.contains_key(key)
                && step.grants[key].uses_left == grants[key].uses_left - 1
                && step.grants[key].expires_ledger == grants[key].expires_ledger
            &&& forall|other: GrantKey|
                other != key ==> (step.grants.contains_key(other) <==> grants.contains_key(other))
                    && step.grants[other] == grants[other]
        }),
{
}

/// An expired grant is deleted on use: when someone else than the player
/// acts on a grant whose expiry has passed, the act is refused as
/// `SessionExpired` and the grant is gone.
pub proof fn law_expired_grant_is_deleted(
    grants: Map<GrantKey, SessionGrant>,
    now: u32,
    invoker: Address,
    session_id: u32,
    player: Address,
)
    requires
        invoker != player,
        grants.contains_key(GrantKey { grantor: player, delegate: invoker, session_id }),
        now > grants[GrantKey { grantor: player, delegate: invoker, session_id }].expires_ledger,
    ensures
        ({
            let key = GrantKey { grantor: player, delegate: invoker, session_id };
            let step = spec_session_auth(grants, now, invoker, session_id, player);
            &&& step.result == Err::<(), _>(Error::SessionExpired)
            &&& step.grants == grants.remove(key)
        }),
{
}

/// A refused move changes nothing: whenever an attack or a resolution is
/// refused for another reason than an expired grant, the engine is exactly
/// as before, no grant has lost a use, and nothing is written, deleted or
/// renewed.
pub proof fn law_refused_move_changes_nothing(
    state: ContractView,
    now: u32,
    invoker: Address,
    session_id: u32,
    player: Address,
    x: u32,
    y: u32,
    is_ship: bool,
    reveal_digest: [u8; 32],
    proof_digest: [u8; 32],
    proof_hash: [u8; 32],
    signature: Option<[u8; 64]>,
)
    ensures
        is_unchanged_refusal(state, spec_attack(state, now, invoker, session_id, player, x, y)),
        is_unchanged_refusal(
            state,
            spec_resolve_attack(
                state,
                now,
                invoker,
                session_id,
                player,
                is_ship,
                reveal_digest,
                proof_digest,
                proof_hash,
                signature,
            ),
        ),
        is_unchanged_refusal(
            state,
            spec_resolve_attack_zk(state, now, invoker, session_id, player, is_ship),
        ),
{
}

/// Whether `step`, taken from `state`, is accepted, or refused for an
/// expired grant, or else leaves the state as it was and asks for nothing
/// to be written, deleted or renewed.
pub open spec fn is_unchanged_refusal(state: ContractView, step: Step) -> bool {
    step.result is Err && step.result != Err::<(), _>(Error::SessionExpired) ==> step.state
        == state && no_storage_effects(step.effects)
}

/// A move on an expired grant deletes it: a delegate's attack or
/// resolution after the expiry of the grant is refused as
/// `SessionExpired`, the grant is gone afterwards, and nothing else has
/// changed.
pub proof fn law_moves_delete_expired_grants(
    state: ContractView,
    now: u32,
    invoker: Address,
    session_id: u32,
    player: Address,
    x: u32,
    y: u32,
    is_ship: bool,
    reveal_digest: [u8; 32],
    proof_digest: [u8; 32],
    proof_hash: [u8; 32],
    signature: Option<[u8; 64]>,
)
    requires
        invoker != player,
        state.grants.contains_key(GrantKey { grantor: player, delegate: invoker, session_id }),
        now > state.grants[GrantKey {
            grantor: player,
            delegate: invoker,
            session_id,
        }].expires_ledger,
    ensures
        ({
            let key = GrantKey { grantor: player, delegate: invoker, session_id };
            let after = state.with_grants(state.grants.remove(key));
            let attack = spec_attack(state, now, invoker, session_id, player, x, y);
            let by_reveal = spec_resolve_attack(
                state,
                now,
                invoker,
                session_id,
                player,
                is_ship,
                reveal_digest,
                proof_digest,
                proof_hash,
                signature,
            );
            let by_service = spec_resolve_attack_zk(
                state,
                now,
                invoker,
                session_id,
                player,
                is_ship,
            );
            &&& attack.result == Err::<(), _>(Error::SessionExpired) && attack.state == after
            &&& by_reveal.result == Err::<(), _>(Error::SessionExpired) && by_reveal.state
                == after
            &&& by_service.result == Err::<(), _>(Error::SessionExpired) && by_service.state
                == after
        }),
{
}

/// An accepted move uses the grant it is made on: after a delegate's
/// attack or resolution that is accepted, a grant with one use left is
/// gone, a grant with more uses has one less, and a grant without a count
/// is as it was.
pub proof fn law_accepted_move_uses_the_grant(
    state: ContractView,
    now: u32,
    invoker: Address,
    session_id: u32,
    player: Address,
    x: u32,
    y: u32,
    is_ship: bool,
    reveal_digest: [u8; 32],
    proof_digest: [u8; 32],
    proof_hash: [u8; 32],
    signature: Option<[u8; 64]>,
)
    requires
        invoker != player,
    ensures
        uses_grant(
            state,
            invoker,
            session_id,
            player,
            spec_attack(state, now, invoker, session_id, player, x, y),
        ),
        uses_grant(
            state,
            invoker,
            session_id,
            player,
            spec_resolve_attack(
                state,
                now,
                invoker,
                session_id,
                player,
                is_ship,
                reveal_digest,
                proof_digest,
                proof_hash,
                signature,
            ),
        ),
        uses_grant(
            state,
            invoker,
            session_id,
            player,
            spec_resolve_attack_zk(state, now, invoker, session_id, player, is_ship),
        ),
{
}

/// Whether `step`, where it is accepted, has used the grant of `player`
/// to `invoker` for the session once.
pub open spec fn uses_grant(
    state: ContractView,
    invoker: Address,
    session_id: u32,
    player: Address,
    step: Step,
) -> bool {
    let key = GrantKey { grantor: player, delegate: invoker, session_id };
    step.result is Ok ==> {
        &&& state.grants.contains_key(key)
        &&& state.grants[key].uses_left == 1 ==> step.state.grants == state.grants.remove(key)
        &&& state.grants[key].uses_left > 1 ==> step.state.grants == state.grants.insert(
            key,
            SessionGrant {
                expires_ledger: state.grants[key].expires_ledger,
                uses_left: (state.grants[key].uses_left - 1) as u32,
            },
        )
        &&& state.grants[key].uses_left == 0 ==> step.state.grants == state.grants
    }
}

/// After the one move that a grant for one use permits, the delegate can
/// make no other: once an attack or a reveal on that grant has been
/// accepted, the delegate's next attack or reveal for the same player in
/// the same session is refused as `InvalidSession`, whenever it comes and
/// whatever it says.
pub proof fn law_delegate_moves_once_on_a_single_use_grant(
    state: ContractView,
    now: u32,
    later: u32,
    invoker: Address,
    session_id: u32,
    player: Address,
    first_by_attack: bool,
    x: u32,
    y: u32,
    is_ship: bool,
    reveal_digest: [u8; 32],
    proof_digest: [u8; 32],
    proof_hash: [u8; 32],
    signature: Option<[u8; 64]>,
    next_x: u32,
    next_y: u32,
    next_is_ship: bool,
    next_reveal_digest: [u8; 32],
    next_proof_digest: [u8; 32],
    next_proof_hash: [u8; 32],
    next_signature: Option<[u8; 64]>,
)
    requires
        invoker != player,
        state.grants.contains_key(GrantKey { grantor: player, delegate: invoker, session_id }),
        state.grants[GrantKey { grantor: player, delegate: invoker, session_id }].uses_left == 1,
        now <= state.grants[GrantKey {
            grantor: player,
            delegate: invoker,
            session_id,
        }].expires_ledger,
        if first_by_attack {
            spec_attack(state, now, invoker, session_id, player, x, y).result is Ok
        } else {
            spec_resolve_attack(
                state,
                now,
                invoker,
                session_id,
                player,
                is_ship,
                reveal_digest,
                proof_digest,
                proof_hash,
                signature,
            ).result is Ok
        },
    ensures
        ({
            let after = if first_by_attack {
                spec_attack(state, now, invoker, session_id, player, x, y).state
            } else {
                spec_resolve_attack(
                    state,
                    now,
                    invoker,
                    session_id,
                    player,
                    is_ship,
                    reveal_digest,
                    proof_digest,
                    proof_hash,
                    signature,
                ).state
            };
            let attack = spec_attack(after, later, invoker, session_id, player, next_x, next_y);
            let by_reveal = spec_resolve_attack(
                after,
                later,
                invoker,
                session_id,
                player,
                next_is_ship,
                next_reveal_digest,
                next_proof_digest,
                next_proof_hash,
                next_signature,
            );
            &&& attack.result == Err::<(), _>(Error::InvalidSession)
            &&& attack.state == after
            &&& by_reveal.result == Err::<(), _>(Error::InvalidSession)
            &&& by_reveal.state == after
        }),
{
    let key = GrantKey { grantor: player, delegate: invoker, session_id };
    let first = spec_session_auth(state.grants, now, invoker, session_id, player);
    assert(first.grants == state.grants.remove(key));
    assert(!first.grants.contains_key(key));
}

/// A match without stakes begins settled: both deposits count as made and
/// the payout as processed, and the record satisfies the invariant.
pub proof fn law_match_without_stakes_begins_settled(player1: Address, player2: Address)
    requires
        player1 != player2,
    ensures
        ({
            let g = GameView::fresh(player1, player2, 0, 0);
            &&& !g.is_wager()
            &&& g.player1_deposited
            &&& g.player2_deposited
            &&& g.payout_processed
            &&& g.wf()
        }),
{
}

/// In a match without stakes that counts as settled, resolving an attack
/// owes no transfer and leaves the match without stakes and settled.
pub proof fn law_resolution_without_stakes_owes_nothing(
    config: Config,
    session_id: u32,
    g: GameView,
    index: u32,
    is_ship: bool,
)
    requires
        !g.is_wager(),
        g.payout_processed,
        spec_apply_resolved_attack(config, session_id, g, index, is_ship) is Ok,
    ensures
        ({
            let (after, owed) = spec_apply_resolved_attack(
                config,
                session_id,
                g,
                index,
                is_ship,
            )->Ok_0;
            no_transfers(owed) && !after.is_wager() && after.payout_processed
        }),
{
    let hit = struck(g, g.pending_attacker->0, index, is_ship);
    if victor(hit) is Some {
        let ended = GameView { winner: victor(hit), ..hit };
        assert(spec_settle_wager(config, ended) == Ok::<_, Error>(
            (ended, Seq::<Effect>::empty()),
        ));
    }
}

/// A match without stakes moves no tokens when stakes are deposited or
/// boards committed: in a session whose stakes are both zero and that
/// counts as settled, neither asks for a deposit or a payout, and the
/// session stays that way.
pub proof fn law_no_transfers_without_stakes_in_setup(
    state: ContractView,
    session_id: u32,
    player: Address,
    commitments: Seq<[u8; 32]>,
    ship_cells: u32,
    hash: Option<[u8; 32]>,
    signature: Option<[u8; 64]>,
    board_ok: bool,
)
    requires
        settled_without_stakes(state, session_id),
    ensures
        ({
            let deposit = spec_deposit(state, session_id, player);
            let commit = spec_commit_board(
                state,
                session_id,
                player,
                commitments,
                ship_cells,
                hash,
                signature,
            );
            let commit_by_service = spec_commit_board_zk(
                state,
                session_id,
                player,
                commitments,
                ship_cells,
                board_ok,
            );
            &&& no_transfers(deposit.effects) && settled_without_stakes(deposit.state, session_id)
            &&& no_transfers(commit.effects) && settled_without_stakes(commit.state, session_id)
            &&& no_transfers(commit_by_service.effects) && settled_without_stakes(
                commit_by_service.state,
                session_id,
            )
        }),
{
}

/// A match without stakes moves no tokens when it is played: in a session
/// whose stakes are both zero and that counts as settled, no attack and no
/// resolution, won or not, asks for a deposit or a payout, and the session
/// stays that way.
pub proof fn law_no_transfers_without_stakes_in_play(
    state: ContractView,
    now: u32,
    invoker: Address,
    session_id: u32,
    player: Address,
    x: u32,
    y: u32,
    is_ship: bool,
    reveal_digest: [u8; 32],
    proof_digest: [u8; 32],
    proof_hash: [u8; 32],
    signature: Option<[u8; 64]>,
)
    requires
        settled_without_stakes(state, session_id),
    ensures
        ({
            let attack = spec_attack(state, now, invoker, session_id, player, x, y);
            let by_reveal = spec_resolve_attack(
                state,
                now,
                invoker,
                session_id,
                player,
                is_ship,
                reveal_digest,
                proof_digest,
                proof_hash,
                signature,
            );
            let by_service = spec_resolve_attack_zk(
                state,
                now,
                invoker,
                session_id,
                player,
                is_ship,
            );
            &&& no_transfers(attack.effects) && settled_without_stakes(attack.state, session_id)
            &&& no_transfers(by_reveal.effects) && settled_without_stakes(
                by_reveal.state,
                session_id,
            )
            &&& no_transfers(by_service.effects) && settled_without_stakes(
                by_service.state,
                session_id,
            )
        }),
{
    let g = state.games[session_id];
    let auth = spec_session_auth(state.grants, now, invoker, session_id, player);
    assert(no_transfers(auth.effects));
    assert forall|index: u32| #[trigger]
        spec_apply_resolved_attack(state.config, session_id, g, index, is_ship) is Ok implies ({
        let entered = spec_apply_resolved_attack(state.config, session_id, g, index, is_ship)->Ok_0;
        no_transfers(entered.1) && !entered.0.is_wager() && entered.0.payout_processed
    }) by {
        law_resolution_without_stakes_owes_nothing(state.config, session_id, g, index, is_ship);
    }
}

/// Whether the session is one without stakes that counts as settled.
pub open spec fn settled_without_stakes(state: ContractView, session_id: u32) -> bool {
    &&& state.games.contains_key(session_id)
    &&& !state.games[session_id].is_wager()
    &&& state.games[session_id].payout_processed
}

/// A session is created once: starting a session between two different
/// players with stakes that are not negative succeeds exactly where the
/// identifier is fresh; where a record is held for the identifier the start
/// is refused as `InvalidSession`, nothing is asked of the outside, and the
/// engine, that record included, is as before. So a second start on the
/// same identifier never replaces the first.
pub proof fn law_session_is_created_once(
    state: ContractView,
    session_id: u32,
    player1: Address,
    player2: Address,
    player1_points: i128,
    player2_points: i128,
    next_player1: Address,
    next_player2: Address,
    next_player1_points: i128,
    next_player2_points: i128,
)
    requires
        player1 != player2,
        player1_points >= 0,
        player2_points >= 0,
    ensures
        ({
            let step = spec_start_game(
                state,
                session_id,
                player1,
                player2,
                player1_points,
                player2_points,
            );
            let again = spec_start_game(
                step.state,
                session_id,
                next_player1,
                next_player2,
                next_player1_points,
                next_player2_points,
            );
            &&& step.result is Ok <==> !state.games.contains_key(session_id)
            &&& state.games.contains_key(session_id) ==> step.result == Err::<(), _>(
                Error::InvalidSession,
            ) && step.state == state && step.effects.len() == 0
            &&& step.state.games.contains_key(session_id)
            &&& again.result is Err
            &&& again.state == step.state
            &&& again.effects.len() == 0
        }),
{
}

/// Starting a session without stakes asks for no transfer and leaves a
/// session that counts as settled.
pub proof fn law_start_without_stakes(
    state: ContractView,
    session_id: u32,
    player1: Address,
    player2: Address,
)
    requires
        player1 != player2,
        !state.games.contains_key(session_id),
    ensures
        ({
            let step = spec_start_game(state, session_id, player1, player2, 0, 0);
            &&& step.result is Ok
            &&& no_transfers(step.effects)
            &&& settled_without_stakes(step.state, session_id)
            &&& step.state.games[session_id].player1_deposited
            &&& step.state.games[session_id].player2_deposited
        }),
{
}

/// An ended match is closed: once a winner is set, no board is accepted,
/// no attack, no resolution and no deposit; each is refused as
/// `GameAlreadyEnded`.
pub proof fn law_ended_match_is_closed(
    config: Config,
    g: GameView,
    who: Address,
    cells: nat,
    ship_cells: u32,
    x: u32,
    y: u32,
    with_service: bool,
)
    requires
        g.winner is Some,
    ensures
        spec_check_board_commit(g, cells, ship_cells) == Err::<(), _>(Error::GameAlreadyEnded),
        spec_apply_attack(g, who, x, y) == Err::<GameView, _>(Error::GameAlreadyEnded),
        spec_pending_commitment(config, g, who, with_service) == Err::<(u32, u32, u32, [u8; 32]), _>(
            Error::GameAlreadyEnded,
        ),
        spec_deposit_stake(config, g, who) == Err::<(GameView, Seq<Effect>), _>(
            Error::GameAlreadyEnded,
        ),
{
}

/// A match moves through its phases in order. A board is only stored
/// during setup, and setup ends exactly when both boards stand. An attack
/// is only locked in an active match and leaves it pending. A resolution
/// is only entered in a pending match and leaves it active, with the
/// defender to move, or ended, with a winner.
pub proof fn law_phases_follow_the_protocol(
    config: Config,
    session_id: u32,
    g: GameView,
    who: Address,
    commitments: Seq<[u8; 32]>,
    ship_cells: u32,
    x: u32,
    y: u32,
    is_ship: bool,
)
    requires
        g.wf(),
    ensures
        spec_check_board_commit(g, commitments.len(), ship_cells) is Ok && spec_apply_board_commit(
            g,
            who,
            commitments,
            ship_cells,
        ) is Ok ==> {
            let after = spec_apply_board_commit(g, who, commitments, ship_cells)->Ok_0;
            &&& g.phase() == Phase::Setup
            &&& after.phase() == if after.player1_board is Some && after.player2_board is Some {
                Phase::Active
            } else {
                Phase::Setup
            }
        },
        spec_apply_attack(g, who, x, y) matches Ok(after) ==> g.phase() == Phase::Active
            && after.phase() == Phase::AttackPending,
        g.pending_attacker is Some ==> g.phase() == Phase::AttackPending,
        g.pending_attacker is Some && spec_apply_resolved_attack(
            config,
            session_id,
            g,
            g.target_index(g.pending_x->0, g.pending_y->0),
            is_ship,
        ) is Ok ==> {
            let after = spec_apply_resolved_attack(
                config,
                session_id,
                g,
                g.target_index(g.pending_x->0, g.pending_y->0),
                is_ship,
            )->Ok_0.0;
            &&& after.turn == g.pending_defender
            &&& after.phase() == if after.winner is Some {
                Phase::Ended
            } else {
                Phase::Active
            }
            &&& after.winner is Some ==> after.winner == g.pending_attacker && is_ship
        },
{
    if g.pending_attacker is Some {
        let index = g.target_index(g.pending_x->0, g.pending_y->0);
        if spec_apply_resolved_attack(config, session_id, g, index, is_ship) is Ok {
            lemma_resolve_keeps_wf(config, session_id, g, index, is_ship);
        }
    }
}

/// Hits are never lost: whatever a board commit, an attack, a resolution
/// or a deposit leaves behind, no player has fewer hits than before, and a
/// resolution adds exactly one hit to the attacker where the cell held a
/// ship and the record satisfied the invariant.
pub proof fn law_hits_only_grow(
    config: Config,
    session_id: u32,
    g: GameView,
    who: Address,
    commitments: Seq<[u8; 32]>,
    ship_cells: u32,
    x: u32,
    y: u32,
    index: u32,
    is_ship: bool,
)
    ensures
        spec_apply_board_commit(g, who, commitments, ship_cells) matches Ok(after)
            ==> after.player1_hits == g.player1_hits && after.player2_hits == g.player2_hits,
        spec_apply_attack(g, who, x, y) matches Ok(after) ==> after.player1_hits == g.player1_hits
            && after.player2_hits == g.player2_hits,
        spec_deposit_stake(config, g, who) matches Ok(after) ==> after.0.player1_hits
            == g.player1_hits && after.0.player2_hits == g.player2_hits,
        spec_apply_resolved_attack(config, session_id, g, index, is_ship) matches Ok(after)
            ==> after.0.player1_hits >= g.player1_hits && after.0.player2_hits >= g.player2_hits,
        g.wf() && g.pending_attacker is Some && index == g.target_index(
            g.pending_x->0,
            g.pending_y->0,
        ) ==> (spec_apply_resolved_attack(config, session_id, g, index, is_ship) matches Ok(after)
            ==> after.0.player1_hits + after.0.player2_hits == g.player1_hits + g.player2_hits
            + if is_ship {
            1int
        } else {
            0int
        }),
{
    if g.wf() && g.pending_attacker is Some && index == g.target_index(
        g.pending_x->0,
        g.pending_y->0,
    ) && spec_apply_resolved_attack(config, session_id, g, index, is_ship) is Ok {
        lemma_resolve_keeps_wf(config, session_id, g, index, is_ship);
        let after = spec_apply_resolved_attack(config, session_id, g, index, is_ship)->Ok_0.0;
        let hit = struck(g, g.pending_attacker->0, index, is_ship);
        assert(after.player1_hit_attacks == hit.player1_hit_attacks);
        assert(after.player2_hit_attacks == hit.player2_hit_attacks);
    }
}

/// Whether `effects` ends by saving the record of session `session_id`.
pub open spec fn ends_with_save(effects: Seq<Effect>, session_id: u32) -> bool {
    effects.len() >= 2 && effects.subrange(effects.len() - 2, effects.len() as int)
        == save_effects(session_id)
}

/// Whether `step`, taken from `state` on session `session_id`, keeps to
/// the rules of the store: it touches the record of no other session and
/// no setting; where it is refused it changes no record at all; and where
/// it changes the record of its session, saving that record is the last
/// thing it asks for.
pub open spec fn keeps_store_rules(state: ContractView, session_id: u32, step: Step) -> bool {
    &&& step.state.config == state.config
    &&& forall|other: u32|
        other != session_id ==> (step.state.games.contains_key(other)
            <==> #[trigger] state.games.contains_key(other))
    &&& forall|other: u32|
        other != session_id && state.games.contains_key(other) ==> #[trigger] step.state.games[other]
            == state.games[other]
    &&& step.result is Err ==> step.state.games == state.games
    &&& step.result is Ok && step.state.games != state.games ==> ends_with_save(
        step.effects,
        session_id,
    ) && step.state.games.contains_key(session_id)
}

/// Starting a session and committing a board keep to the rules of the
/// store.
pub proof fn law_setup_keeps_store_rules(
    state: ContractView,
    session_id: u32,
    player: Address,
    other_player: Address,
    player_points: i128,
    other_points: i128,
    commitments: Seq<[u8; 32]>,
    ship_cells: u32,
    hash: Option<[u8; 32]>,
    signature: Option<[u8; 64]>,
    board_ok: bool,
)
    ensures
        keeps_store_rules(
            state,
            session_id,
            spec_start_game(state, session_id, player, other_player, player_points, other_points),
        ),
        keeps_store_rules(
            state,
            session_id,
            spec_commit_board(
                state,
                session_id,
                player,
                commitments,
                ship_cells,
                hash,
                signature,
            ),
        ),
        keeps_store_rules(
            state,
            session_id,
            spec_commit_board_zk(state, session_id, player, commitments, ship_cells, board_ok),
        ),
        keeps_store_rules(state, session_id, spec_deposit(state, session_id, player)),
{
    lemma_save_comes_last();
    let deposit = spec_deposit(state, session_id, player);
    if deposit.result is Ok && deposit.state.games != state.games {
        assert(state.games[session_id].is_wager());
    }
}

/// An attack and its resolution keep to the rules of the store.
pub proof fn law_play_keeps_store_rules(
    state: ContractView,
    now: u32,
    invoker: Address,
    session_id: u32,
    player: Address,
    x: u32,
    y: u32,
    is_ship: bool,
    reveal_digest: [u8; 32],
    proof_digest: [u8; 32],
    proof_hash: [u8; 32],
    signature: Option<[u8; 64]>,
)
    ensures
        keeps_store_rules(
            state,
            session_id,
            spec_attack(state, now, invoker, session_id, player, x, y),
        ),
        keeps_store_rules(
            state,
            session_id,
            spec_resolve_attack(
                state,
                now,
                invoker,
                session_id,
                player,
                is_ship,
                reveal_digest,
                proof_digest,
                proof_hash,
                signature,
            ),
        ),
        keeps_store_rules(
            state,
            session_id,
            spec_resolve_attack_zk(state, now, invoker, session_id, player, is_ship),
        ),
{
    lemma_save_comes_last();
}

/// Whatever comes before, effects that are followed by the saving of a
/// record end with it.
pub proof fn lemma_save_comes_last()
    ensures
        forall|effects: Seq<Effect>, id: u32| #[trigger]
            ends_with_save(effects + save_effects(id), id),
{
    assert forall|effects: Seq<Effect>, id: u32| #[trigger]
        ends_with_save(effects + save_effects(id), id) by {
        let all = effects + save_effects(id);
        assert(all.subrange(all.len() - 2, all.len() as int) =~= save_effects(id));
    }
}

} // verus!
