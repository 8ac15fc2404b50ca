//! The turn protocol: an attack locks a cell, the defender's reveal
//! resolves it, the turn passes, and the match ends when a fleet is sunk.

use vstd::prelude::*;
use crate::address::{bytes32_eq, Address};
use crate::arith::clamp_u32;
use crate::config::Config;
use crate::effect::Effect;
use crate::error::Error;
use crate::escrow::{settle_wager, spec_settle_wager};
use crate::game::{contains_u32, is_wager_game, Game, GameView, DEFAULT_SHIP_CELLS};

verus! {

/// Locking an attack as a function: the record with the lock set, or the
/// reason why the attack is refused.
pub open spec fn spec_apply_attack(g: GameView, attacker: Address, x: u32, y: u32) -> Result<
    GameView,
    Error,
> {
    if g.winner is Some {
        Err(Error::GameAlreadyEnded)
    } else if g.is_wager() && !g.funded() {
        Err(Error::StakesNotFunded)
    } else if x >= g.board_size || y >= g.board_size {
        Err(Error::InvalidCoordinate)
    } else if g.player1_board is None || g.player2_board is None {
        Err(Error::BoardsNotReady)
    } else if g.pending_attacker is Some {
        Err(Error::PendingAttackResolution)
    } else if g.turn is None {
        Err(Error::BoardsNotReady)
    } else if g.turn != Some(attacker) {
        Err(Error::NotYourTurn)
    } else if !g.is_player(attacker) {
        Err(Error::NotPlayer)
    } else if g.attacks_of(attacker).contains(g.target_index(x, y)) {
        Err(Error::AlreadyAttacked)
    } else {
        Ok(
            GameView {
                pending_attacker: Some(attacker),
                pending_defender: Some(g.opponent(attacker)),
                pending_x: Some(x),
                pending_y: Some(y),
                ..g
            },
        )
    }
}

/// The cell that `defender` has to resolve, or the reason why there is
/// nothing for that defender to resolve.
pub open spec fn spec_pending_cell(g: GameView, defender: Address) -> Result<(u32, u32), Error> {
    if g.winner is Some {
        Err(Error::GameAlreadyEnded)
    } else if g.pending_defender is None || g.pending_x is None || g.pending_y is None {
        Err(Error::NoPendingAttack)
    } else if g.pending_defender != Some(defender) {
        Err(Error::NotPendingDefender)
    } else {
        Ok((g.pending_x->0, g.pending_y->0))
    }
}

/// The commitment that `defender` stored for the cell at `index`.
pub open spec fn spec_committed_cell(g: GameView, defender: Address, index: u32) -> Result<
    [u8; 32],
    Error,
> {
    if !g.is_player(defender) {
        Err(Error::NotPlayer)
    } else {
        let board = if defender == g.player1 {
            g.player1_board
        } else {
            g.player2_board
        };
        match board {
            None => Err(Error::BoardsNotReady),
            Some(cells) => if index < cells.len() {
                Ok(cells[index as int])
            } else {
                Err(Error::InvalidCoordinate)
            },
        }
    }
}

/// The cell that `defender` has to resolve, its row-major index and the
/// commitment stored there, or the reason why there is nothing to resolve.
/// `with_service` tells whether a proof-verifier service is to adjudicate:
/// that is refused where it is not the configured way.
pub open spec fn spec_pending_commitment(
    config: Config,
    g: GameView,
    defender: Address,
    with_service: bool,
) -> Result<(u32, u32, u32, [u8; 32]), Error> {
    match spec_pending_cell(g, defender) {
        Err(e) => Err(e),
        Ok((x, y)) => if !with_service && config.zk_verifier is Some {
            Err(Error::ZkProofRequired)
        } else if with_service && config.zk_verifier is None {
            Err(Error::ZkVerifierNotConfigured)
        } else {
            match spec_committed_cell(g, defender, g.target_index(x, y)) {
                Err(e) => Err(e),
                Ok(expected) => Ok((x, y, g.target_index(x, y), expected)),
            }
        },
    }
}

/// Whether a reveal opens the commitment and is bound to its cell:
/// `reveal_digest` is the hash of the reveal, `proof_digest` the hash of
/// the reveal together with the coordinates.
pub open spec fn spec_check_reveal(
    expected: [u8; 32],
    reveal_digest: [u8; 32],
    proof_hash: [u8; 32],
    proof_digest: [u8; 32],
) -> Result<(), Error> {
    if expected != reveal_digest {
        Err(Error::InvalidCellReveal)
    } else if proof_hash != proof_digest {
        Err(Error::InvalidProofHash)
    } else {
        Ok(())
    }
}

/// The record once the pending attack of `attacker` on the cell at `index`
/// is entered: the cell joins the attacker's history, and the hits where
/// it held a ship; the lock is cleared and the opponent is to move.
pub open spec fn struck(g: GameView, attacker: Address, index: u32, is_ship: bool) -> GameView {
    if attacker == g.player1 {
        GameView {
            player1_attacks: g.player1_attacks.push(index),
            player1_hits: if is_ship {
                clamp_u32(g.player1_hits + 1)
            } else {
                g.player1_hits
            },
            player1_hit_attacks: if is_ship {
                g.player1_hit_attacks.push(index)
            } else {
                g.player1_hit_attacks
            },
            turn: Some(g.player2),
            pending_attacker: None,
            pending_defender: None,
            pending_x: None,
            pending_y: None,
            ..g
        }
    } else {
        GameView {
            player2_attacks: g.player2_attacks.push(index),
            player2_hits: if is_ship {
                clamp_u32(g.player2_hits + 1)
            } else {
                g.player2_hits
            },
            player2_hit_attacks: if is_ship {
                g.player2_hit_attacks.push(index)
            } else {
                g.player2_hit_attacks
            },
            turn: Some(g.player1),
            pending_attacker: None,
            pending_defender: None,
            pending_x: None,
            pending_y: None,
            ..g
        }
    }
}

/// Who has won in `g`, if anyone: player 1 where player 1 has sunk the
/// fleet of player 2, else player 2 where player 2 has sunk that of
/// player 1.
pub open spec fn victor(g: GameView) -> Option<Address> {
    if g.player1_hits >= g.player2_fleet() {
        Some(g.player1)
    } else if g.player2_hits >= g.player1_fleet() {
        Some(g.player2)
    } else {
        None
    }
}

/// Resolving the pending attack as a function: the record afterwards and
/// what is owed to the outside, or the reason why nothing changes. A match
/// that is won is settled, and the match registry hears of it last.
pub open spec fn spec_apply_resolved_attack(
    config: Config,
    session_id: u32,
    g: GameView,
    index: u32,
    is_ship: bool,
) -> Result<(GameView, Seq<Effect>), Error> {
    match g.pending_attacker {
        None => Err(Error::NoPendingAttack),
        Some(attacker) => {
            let after = struck(g, attacker, index, is_ship);
            match victor(after) {
                None => Ok((after, Seq::empty())),
                Some(winner) => match spec_settle_wager(
                    config,
                    GameView { winner: Some(winner), ..after },
                ) {
                    Err(e) => Err(e),
                    Ok((settled, transfers)) => Ok(
                        (
                            settled,
                            transfers.push(
                                Effect::NotifyGameEnded {
                                    hub: config.game_hub,
                                    session_id,
                                    player1_won: winner == g.player1,
                                },
                            ),
                        ),
                    ),
                },
            }
        },
    }
}

/// A list without repetitions whose values all lie below `bound` has at
/// most `bound` values.
pub proof fn lemma_distinct_values_are_few(list: Seq<u32>, bound: nat)
    requires
        list.no_duplicates(),
        forall|i: int| 0 <= i < list.len() ==> list[i] < bound,
    ensures
        list.len() <= bound,
    decreases bound,
{
    if list.len() == 0 {
    } else if bound == 0 {
        assert(list[0] < bound);
    } else {
        let top = (bound - 1) as nat;
        if exists|k: int| 0 <= k < list.len() && list[k] == top {
            let k = choose|k: int| 0 <= k < list.len() && list[k] == top;
            let rest = list.remove(k);
            assert forall|i: int| 0 <= i < rest.len() implies rest[i] < top by {
                if i < k {
                    assert(rest[i] == list[i]);
                } else {
                    assert(rest[i] == list[i + 1]);
                }
            }
            assert(rest.no_duplicates()) by {
                assert forall|i: int, j: int|
                    0 <= i < rest.len() && 0 <= j < rest.len() && i != j implies rest[i]
                    != rest[j] by {
                    let a = if i < k {
                        i
                    } else {
                        i + 1
                    };
                    let b = if j < k {
                        j
                    } else {
                        j + 1
                    };
                    assert(rest[i] == list[a] && rest[j] == list[b]);
                }
            }
            lemma_distinct_values_are_few(rest, top);
        } else {
            assert forall|i: int| 0 <= i < list.len() implies list[i] < top by {
                assert(list[i] < bound);
            }
            lemma_distinct_values_are_few(list, top);
        }
    }
}

/// A lock that is granted keeps the invariant of the match.
pub proof fn lemma_attack_keeps_wf(g: GameView, attacker: Address, x: u32, y: u32)
    requires
        g.wf(),
        spec_apply_attack(g, attacker, x, y) is Ok,
    ensures
        spec_apply_attack(g, attacker, x, y)->Ok_0.wf(),
{
    let after = spec_apply_attack(g, attacker, x, y)->Ok_0;
    assert(after.attacks_of(attacker) == g.attacks_of(attacker));
    assert(after.target_index(x, y) == g.target_index(x, y));
    assert(after.pending_wf());
}

/// Inside a board no index saturates: the cell `(x, y)` has the index
/// `y * board_size + x`, which lies below the number of cells.
pub proof fn lemma_target_in_board(g: GameView, x: u32, y: u32)
    requires
        g.board_size * g.board_size <= u32::MAX,
        x < g.board_size,
        y < g.board_size,
    ensures
        g.target_index(x, y) == y * g.board_size + x,
        g.target_index(x, y) < g.board_cells(),
{
    let (n, a, b) = (g.board_size as int, x as int, y as int);
    assert(b * n + a < n * n && b * n >= 0) by (nonlinear_arith)
        requires
            0 <= a < n,
            0 <= b < n,
    ;
}

/// Resolving the pending attack at its own cell keeps the invariant of the
/// match.
pub proof fn lemma_resolve_keeps_wf(
    config: Config,
    session_id: u32,
    g: GameView,
    index: u32,
    is_ship: bool,
)
    requires
        g.wf(),
        g.pending_attacker is Some,
        index == g.target_index(g.pending_x->0, g.pending_y->0),
        spec_apply_resolved_attack(config, session_id, g, index, is_ship) is Ok,
    ensures
        spec_apply_resolved_attack(config, session_id, g, index, is_ship)->Ok_0.0.wf(),
{
    let attacker = g.pending_attacker->0;
    let after = struck(g, attacker, index, is_ship);
    let cells = g.board_cells();
    lemma_target_in_board(g, g.pending_x->0, g.pending_y->0);
    assert(!g.attacks_of(attacker).contains(index));
    if attacker == g.player1 {
        lemma_push_keeps_history(
            g.player1_attacks,
            g.player1_hit_attacks,
            index,
            cells as nat,
        );
    } else {
        lemma_push_keeps_history(
            g.player2_attacks,
            g.player2_hit_attacks,
            index,
            cells as nat,
        );
    }
    assert(after.history_wf());
    assert(after.boards_wf());
    assert(after.pending_wf());
    let end = spec_apply_resolved_attack(config, session_id, g, index, is_ship)->Ok_0.0;
    assert(end.history_wf());
    assert(end.boards_wf());
    assert(end.pending_wf());
    assert(end.winner_wf());
    assert(end.escrow_wf());
}

/// Entering a fresh cell below `cells` into a history, and into its hits,
/// keeps both free of repetitions, keeps the hits among the attacks, and
/// leaves room for one more hit to be counted.
pub proof fn lemma_push_keeps_history(attacks: Seq<u32>, hits: Seq<u32>, index: u32, cells: nat)
    requires
        attacks.no_duplicates(),
        hits.no_duplicates(),
        forall|i: int| 0 <= i < hits.len() ==> attacks.contains(#[trigger] hits[i]),
        forall|i: int| 0 <= i < attacks.len() ==> #[trigger] attacks[i] < cells,
        !attacks.contains(index),
        index < cells,
    ensures
        attacks.push(index).no_duplicates(),
        hits.push(index).no_duplicates(),
        forall|i: int|
            0 <= i < hits.len() ==> attacks.push(index).contains(#[trigger] hits[i]),
        forall|i: int|
            0 <= i < hits.push(index).len() ==> attacks.push(index).contains(
                #[trigger] hits.push(index)[i],
            ),
        forall|i: int|
            0 <= i < attacks.push(index).len() ==> #[trigger] attacks.push(index)[i] < cells,
        hits.len() + 1 <= cells,
{
    let more = attacks.push(index);
    let more_hits = hits.push(index);
    assert forall|i: int, j: int|
        0 <= i < more.len() && 0 <= j < more.len() && i != j implies more[i] != more[j] by {
        if i < attacks.len() {
            assert(attacks.contains(attacks[i]));
        }
        if j < attacks.len() {
            assert(attacks.contains(attacks[j]));
        }
    }
    assert forall|i: int| 0 <= i < hits.len() implies more.contains(#[trigger] hits[i]) by {
        let k = choose|k: int| 0 <= k < attacks.len() && attacks[k] == hits[i];
        assert(more[k] == hits[i]);
    }
    assert forall|i: int, j: int|
        0 <= i < more_hits.len() && 0 <= j < more_hits.len() && i != j implies more_hits[i]
        != more_hits[j] by {
        if i < hits.len() {
            assert(attacks.contains(hits[i]));
        }
        if j < hits.len() {
            assert(attacks.contains(hits[j]));
        }
    }
    assert forall|i: int| 0 <= i < more_hits.len() implies more.contains(
        #[trigger] more_hits[i],
    ) by {
        if i < hits.len() {
            assert(more_hits[i] == hits[i]);
        } else {
            assert(more[attacks.len() as int] == index);
        }
    }
    assert forall|i: int| 0 <= i < more_hits.len() implies more_hits[i] < cells by {
        if i < hits.len() {
            let k = choose|k: int| 0 <= k < attacks.len() && attacks[k] == hits[i];
            assert(attacks[k] < cells);
        }
    }
    lemma_distinct_values_are_few(more_hits, cells);
}

/// Locks the attack of `attacker` on the cell `(x, y)`. The match must be
/// active with nothing pending, the stakes in escrow, the attacker to
/// move, the cell on the board and not attacked by this attacker before.
/// Nothing of the defender's board is revealed by this.
pub fn apply_attack(game: &mut Game, attacker: Address, x: u32, y: u32) -> (out: Result<(), Error>)
    ensures
        match out {
            Ok(()) => spec_apply_attack(old(game)@, attacker, x, y) == Ok::<_, Error>(
                final(game)@,
            ),
            Err(e) => spec_apply_attack(old(game)@, attacker, x, y) == Err::<GameView, _>(e)
                && *final(game) == *old(game),
        },
        out is Ok && old(game)@.wf() ==> final(game)@.wf(),
{
    if game.winner.is_some() {
        return Err(Error::GameAlreadyEnded);
    }
    if !game.stakes_ready() {
        return Err(Error::StakesNotFunded);
    }
    if x >= game.board_size || y >= game.board_size {
        return Err(Error::InvalidCoordinate);
    }
    if game.player1_board.is_none() || game.player2_board.is_none() {
        return Err(Error::BoardsNotReady);
    }
    if game.pending_attacker.is_some() {
        return Err(Error::PendingAttackResolution);
    }
    if game.turn.is_none() {
        return Err(Error::BoardsNotReady);
    }
    if !attacker.is_in(&game.turn) {
        return Err(Error::NotYourTurn);
    }
    let target_index = game.target_index(x, y);
    let first = attacker.same(&game.player1);
    let attacked = if first {
        contains_u32(&game.player1_attacks, target_index)
    } else if attacker.same(&game.player2) {
        contains_u32(&game.player2_attacks, target_index)
    } else {
        return Err(Error::NotPlayer);
    };
    if attacked {
        return Err(Error::AlreadyAttacked);
    }
    let defender = if first {
        game.player2
    } else {
        game.player1
    };
    game.pending_attacker = Some(attacker);
    game.pending_defender = Some(defender);
    game.pending_x = Some(x);
    game.pending_y = Some(y);
    proof {
        if old(game)@.wf() {
            lemma_attack_keeps_wf(old(game)@, attacker, x, y);
        }
    }
    Ok(())
}

/// Finds the cell that `defender` has to resolve: the match must not be
/// over, an attack must be pending, and `defender` must be the one it
/// names.
pub fn pending_cell(game: &Game, defender: &Address) -> (out: Result<(u32, u32), Error>)
    ensures
        out == spec_pending_cell(game@, *defender),
{
    if game.winner.is_some() {
        return Err(Error::GameAlreadyEnded);
    }
    if game.pending_defender.is_none() {
        return Err(Error::NoPendingAttack);
    }
    let x = match game.pending_x {
        Some(x) => x,
        None => {
            return Err(Error::NoPendingAttack);
        },
    };
    let y = match game.pending_y {
        Some(y) => y,
        None => {
            return Err(Error::NoPendingAttack);
        },
    };
    if !defender.is_in(&game.pending_defender) {
        return Err(Error::NotPendingDefender);
    }
    Ok((x, y))
}

/// Looks up the commitment that `defender` stored for the cell at `index`.
pub fn committed_cell(game: &Game, defender: &Address, index: u32) -> (out: Result<
    [u8; 32],
    Error,
>)
    ensures
        out == spec_committed_cell(game@, *defender, index),
{
    let board = if defender.same(&game.player1) {
        &game.player1_board
    } else if defender.same(&game.player2) {
        &game.player2_board
    } else {
        return Err(Error::NotPlayer);
    };
    match board {
        None => Err(Error::BoardsNotReady),
        Some(cells) => {
            if (index as u64) < (cells.len() as u64) {
                Ok(cells[index as usize])
            } else {
                Err(Error::InvalidCoordinate)
            }
        },
    }
}

/// Finds the cell that `defender` has to resolve, its row-major index and
/// the commitment stored there. `with_service` tells whether a
/// proof-verifier service is to adjudicate: that is refused as
/// `ZkVerifierNotConfigured` where none is configured, and adjudicating
/// without one as `ZkProofRequired` where one is.
pub fn pending_commitment(
    config: &Config,
    game: &Game,
    defender: &Address,
    with_service: bool,
) -> (out: Result<(u32, u32, u32, [u8; 32]), Error>)
    ensures
        out == spec_pending_commitment(*config, game@, *defender, with_service),
{
    let (x, y) = match pending_cell(game, defender) {
        Ok(cell) => cell,
        Err(e) => {
            return Err(e);
        },
    };
    if !with_service && config.zk_verifier.is_some() {
        return Err(Error::ZkProofRequired);
    }
    if with_service && config.zk_verifier.is_none() {
        return Err(Error::ZkVerifierNotConfigured);
    }
    let index = game.target_index(x, y);
    match committed_cell(game, defender, index) {
        Ok(expected) => Ok((x, y, index, expected)),
        Err(e) => Err(e),
    }
}

/// Checks a reveal against the commitment it claims to open, given the
/// two hashes computed from it: the commitment must equal the hash of the
/// reveal, and the claimed proof hash the hash that binds the reveal to
/// its cell.
pub fn check_reveal(
    expected: &[u8; 32],
    reveal_digest: &[u8; 32],
    proof_hash: &[u8; 32],
    proof_digest: &[u8; 32],
) -> (out: Result<(), Error>)
    ensures
        out == spec_check_reveal(*expected, *reveal_digest, *proof_hash, *proof_digest),
{
    if !bytes32_eq(expected, reveal_digest) {
        return Err(Error::InvalidCellReveal);
    }
    if !bytes32_eq(proof_hash, proof_digest) {
        return Err(Error::InvalidProofHash);
    }
    Ok(())
}

/// Whether a player with `hits` hits, one more if `scores`, has sunk a
/// fleet of `fleet` ship cells.
fn sinks(hits: u32, scores: bool, fleet: u32) -> (sunk: bool)
    ensures
        sunk == (if scores {
            clamp_u32(hits + 1)
        } else {
            hits
        } >= fleet),
{
    let after = if scores {
        hits.saturating_add(1)
    } else {
        hits
    };
    after >= fleet
}

/// Enters the outcome of the pending attack: the cell at `target_index`
/// joins the attacker's history, a ship counts as a hit, the lock is
/// cleared and the turn passes to the defender. Where this sinks a fleet
/// the winner is set, the pot is settled and the match registry is told;
/// where the pot cannot be settled nothing changes at all.
pub fn apply_resolved_attack(
    config: &Config,
    session_id: u32,
    game: &mut Game,
    target_index: u32,
    is_ship: bool,
) -> (out: Result<Vec<Effect>, Error>)
    ensures
        match out {
            Ok(effects) => spec_apply_resolved_attack(
                *config,
                session_id,
                old(game)@,
                target_index,
                is_ship,
            ) == Ok::<_, Error>((final(game)@, effects@)),
            Err(e) => spec_apply_resolved_attack(
                *config,
                session_id,
                old(game)@,
                target_index,
                is_ship,
            ) == Err::<(GameView, Seq<Effect>), _>(e) && *final(game) == *old(game),
        },
        out is Ok && old(game)@.wf() && target_index == old(game)@.target_index(
            old(game)@.pending_x->0,
            old(game)@.pending_y->0,
        ) ==> final(game)@.wf(),
{
    let attacker = match game.pending_attacker {
        Some(a) => a,
        None => {
            return Err(Error::NoPendingAttack);
        },
    };
    let first = attacker.same(&game.player1);
    let fleet1 = match game.player1_ship_cells {
        Some(n) => n,
        None => DEFAULT_SHIP_CELLS,
    };
    let fleet2 = match game.player2_ship_cells {
        Some(n) => n,
        None => DEFAULT_SHIP_CELLS,
    };
    let winner = if sinks(game.player1_hits, first && is_ship, fleet2) {
        Some(game.player1)
    } else if sinks(game.player2_hits, !first && is_ship, fleet1) {
        Some(game.player2)
    } else {
        None
    };
    let ghost after = struck(old(game)@, attacker, target_index, is_ship);
    assert(winner == victor(after));
    if winner.is_some() && !game.payout_processed && is_wager_game(game) {
        if !game.player1_deposited || !game.player2_deposited {
            return Err(Error::StakesNotFunded);
        }
        if config.bet_token.is_none() {
            return Err(Error::BetTokenNotConfigured);
        }
    }
    if first {
        game.player1_attacks.push(target_index);
        if is_ship {
            game.player1_hits = game.player1_hits.saturating_add(1);
            game.player1_hit_attacks.push(target_index);
        }
        game.turn = Some(game.player2);
    } else {
        game.player2_attacks.push(target_index);
        if is_ship {
            game.player2_hits = game.player2_hits.saturating_add(1);
            game.player2_hit_attacks.push(target_index);
        }
        game.turn = Some(game.player1);
    }
    game.pending_attacker = None;
    game.pending_defender = None;
    game.pending_x = None;
    game.pending_y = None;
    assert(game@ == after);
    let mut effects: Vec<Effect> = Vec::new();
    match winner {
        None => {},
        Some(w) => {
            game.winner = Some(w);
            let player1_won = w.same(&game.player1);
            if let Ok(transfers) = settle_wager(config, game) {
                effects = transfers;
            }
            effects.push(
                Effect::NotifyGameEnded { hub: config.game_hub, session_id, player1_won },
            );
        },
    }
    proof {
        if old(game)@.wf() && target_index == old(game)@.target_index(
            old(game)@.pending_x->0,
            old(game)@.pending_y->0,
        ) {
            lemma_resolve_keeps_wf(*config, session_id, old(game)@, target_index, is_ship);
        }
    }
    Ok(effects)
}

} // verus!
