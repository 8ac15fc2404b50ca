//! Stakes and their settlement: who still owes a deposit, how a pot is
//! divided between the winner and the fee recipient, and that it is divided
//! once.

use vstd::prelude::*;
use crate::address::Address;
use vstd::arithmetic::div_mod::lemma_hoist_over_denominator;
use crate::arith::{clamp_i128, sat_add_i128, sat_sub_i128};
use crate::config::{Config, BPS_DENOMINATOR};
use crate::effect::Effect;
use crate::error::Error;
use crate::game::{is_wager_game, Game, GameView};

verus! {

/// Both stakes together.
pub open spec fn total_pot(g: GameView) -> i128 {
    clamp_i128(g.player1_points + g.player2_points)
}

/// The fee on a pot: `floor(pot * fee_bps / 10000)`. A pot that is not
/// positive bears no fee, and a fee too large for an amount is the largest
/// amount; with a fee of at most the whole neither occurs.
pub open spec fn fee_on(pot: i128, fee_bps: u32) -> i128 {
    if pot <= 0 {
        0
    } else {
        clamp_i128((pot * fee_bps) / (BPS_DENOMINATOR as int))
    }
}

/// The share of the pot that goes to the fee recipient:
/// `floor(pot * fee_bps / 10000)`.
pub open spec fn fee_amount(g: GameView, fee_bps: u32) -> i128 {
    fee_on(total_pot(g), fee_bps)
}

/// The share of the pot that goes to the winner: the pot less the fee.
pub open spec fn winner_amount(g: GameView, fee_bps: u32) -> i128 {
    clamp_i128(total_pot(g) - fee_amount(g, fee_bps))
}

/// The transfers that divide a pot: the winner's share, then the fee, each
/// only where it is positive.
pub open spec fn payouts(
    token: Address,
    winner: Address,
    fee_recipient: Address,
    to_winner: i128,
    fee: i128,
) -> Seq<Effect> {
    let first = if to_winner > 0 {
        seq![Effect::Payout { token, to: winner, amount: to_winner }]
    } else {
        Seq::empty()
    };
    let second = if fee > 0 {
        seq![Effect::Payout { token, to: fee_recipient, amount: fee }]
    } else {
        Seq::empty()
    };
    first + second
}

/// Settlement as a function: the record afterwards and the transfers owed,
/// or the reason why the pot cannot be divided.
pub open spec fn spec_settle_wager(config: Config, g: GameView) -> Result<
    (GameView, Seq<Effect>),
    Error,
> {
    if g.payout_processed {
        Ok((g, Seq::empty()))
    } else if !g.is_wager() {
        Ok((GameView { payout_processed: true, ..g }, Seq::empty()))
    } else if !g.funded() {
        Err(Error::StakesNotFunded)
    } else if g.winner is None {
        Err(Error::GameAlreadyEnded)
    } else if config.bet_token is None {
        Err(Error::BetTokenNotConfigured)
    } else {
        Ok(
            (
                GameView { payout_processed: true, ..g },
                payouts(
                    config.bet_token->0,
                    g.winner->0,
                    config.fee_recipient,
                    winner_amount(g, config.fee_bps),
                    fee_amount(g, config.fee_bps),
                ),
            ),
        )
    }
}

/// A deposit as a function: the record afterwards and the transfer owed,
/// or the reason why nothing is deposited.
pub open spec fn spec_deposit_stake(config: Config, g: GameView, player: Address) -> Result<
    (GameView, Seq<Effect>),
    Error,
> {
    if g.winner is Some {
        Err(Error::GameAlreadyEnded)
    } else if !g.is_wager() {
        Ok((g, Seq::empty()))
    } else if player == g.player1 {
        if g.player1_deposited {
            Err(Error::AlreadyDeposited)
        } else if g.player1_points <= 0 {
            Ok((GameView { player1_deposited: true, ..g }, Seq::empty()))
        } else if config.bet_token is None {
            Err(Error::BetTokenNotConfigured)
        } else {
            Ok(
                (
                    GameView { player1_deposited: true, ..g },
                    seq![
                        Effect::Deposit {
                            token: config.bet_token->0,
                            from: player,
                            amount: g.player1_points,
                        },
                    ],
                ),
            )
        }
    } else if player == g.player2 {
        if g.player2_deposited {
            Err(Error::AlreadyDeposited)
        } else if g.player2_points <= 0 {
            Ok((GameView { player2_deposited: true, ..g }, Seq::empty()))
        } else if config.bet_token is None {
            Err(Error::BetTokenNotConfigured)
        } else {
            Ok(
                (
                    GameView { player2_deposited: true, ..g },
                    seq![
                        Effect::Deposit {
                            token: config.bet_token->0,
                            from: player,
                            amount: g.player2_points,
                        },
                    ],
                ),
            )
        }
    } else {
        Err(Error::NotPlayer)
    }
}

/// With a fee of at most the whole, the fee on a pot that is not negative
/// is exactly `floor(pot * fee_bps / 10000)`, however large the pot, and
/// lies between nothing and the pot.
pub proof fn lemma_fee_is_the_floor(pot: i128, fee_bps: u32)
    requires
        pot >= 0,
        fee_bps <= BPS_DENOMINATOR,
    ensures
        fee_on(pot, fee_bps) == (pot * fee_bps) / (BPS_DENOMINATOR as int),
        0 <= fee_on(pot, fee_bps) <= pot,
{
    let (p, bps) = (pot as int, fee_bps as int);
    assert(0 <= p * bps <= p * 10000) by (nonlinear_arith)
        requires
            0 <= p,
            0 <= bps <= 10000,
    ;
    assert((p * bps) / 10000 <= p) by (nonlinear_arith)
        requires
            0 <= p * bps <= p * 10000,
    ;
    assert(0 <= (p * bps) / 10000) by (nonlinear_arith)
        requires
            0 <= p * bps,
    ;
}

/// Where the stakes are not negative and their sum is an amount, and the
/// fee is at most the whole, the pot is divided exactly: the fee is the
/// floor of `pot * fee_bps / 10000`, and the winner's share and the fee
/// make up the pot.
pub proof fn lemma_pot_is_divided(g: GameView, fee_bps: u32)
    requires
        g.player1_points >= 0,
        g.player2_points >= 0,
        g.player1_points + g.player2_points <= i128::MAX,
        fee_bps <= BPS_DENOMINATOR,
    ensures
        total_pot(g) == g.player1_points + g.player2_points,
        fee_amount(g, fee_bps) == (total_pot(g) * fee_bps) / (BPS_DENOMINATOR as int),
        0 <= fee_amount(g, fee_bps) <= total_pot(g),
        winner_amount(g, fee_bps) + fee_amount(g, fee_bps) == total_pot(g),
{
    lemma_fee_is_the_floor(total_pot(g), fee_bps);
}

/// Computes the fee on a pot, `floor(pot * fee_bps / 10000)`, from the
/// quotient and the remainder of the pot by 10000, so that no product
/// leaves the range of amounts before the fee itself does.
pub fn compute_fee(pot: i128, fee_bps: u32) -> (fee: i128)
    ensures
        fee == fee_on(pot, fee_bps),
{
    if pot <= 0 {
        return 0;
    }
    let bps = fee_bps as i128;
    let whole = pot / BPS_DENOMINATOR;
    let rest = pot % BPS_DENOMINATOR;
    assert(0 <= rest * bps < 0x10000_0000_0000) by (nonlinear_arith)
        requires
            0 <= rest < 10000,
            0 <= bps < 0x1_0000_0000,
    ;
    let of_rest = (rest * bps) / BPS_DENOMINATOR;
    proof {
        let (p, q, r, b) = (pot as int, whole as int, rest as int, bps as int);
        assert(p * b == r * b + (q * b) * 10000) by (nonlinear_arith)
            requires
                p == 10000 * q + r,
        ;
        lemma_hoist_over_denominator(r * b, q * b, 10000);
        assert((p * b) / 10000 == q * b + (r * b) / 10000);
        assert(0 <= q * b) by (nonlinear_arith)
            requires
                0 <= q,
                0 <= b,
        ;
        assert(0 <= (r * b) / 10000) by (nonlinear_arith)
            requires
                0 <= r * b,
        ;
    }
    match whole.checked_mul(bps) {
        None => i128::MAX,
        Some(of_whole) => match of_whole.checked_add(of_rest) {
            None => i128::MAX,
            Some(fee) => fee,
        },
    }
}

/// Divides the pot of an ended match, once. A record that is already
/// settled is left as it is and owes nothing; a match without stakes is
/// only marked settled. Otherwise both stakes must be in escrow, a winner
/// and a token must be set, and the winner's share and the fee are owed,
/// each only where it is positive.
pub fn settle_wager(config: &Config, game: &mut Game) -> (out: Result<Vec<Effect>, Error>)
    ensures
        match out {
            Ok(effects) => spec_settle_wager(*config, old(game)@) == Ok::<_, Error>(
                (final(game)@, effects@),
            ),
            Err(e) => spec_settle_wager(*config, old(game)@) == Err::<(GameView, Seq<Effect>), _>(e)
                && *final(game) == *old(game),
        },
{
    let mut effects: Vec<Effect> = Vec::new();
    if game.payout_processed {
        return Ok(effects);
    }
    if !is_wager_game(game) {
        game.payout_processed = true;
        return Ok(effects);
    }
    if !game.player1_deposited || !game.player2_deposited {
        return Err(Error::StakesNotFunded);
    }
    let winner = match game.winner {
        Some(w) => w,
        None => {
            return Err(Error::GameAlreadyEnded);
        },
    };
    let token = match config.bet_token {
        Some(t) => t,
        None => {
            return Err(Error::BetTokenNotConfigured);
        },
    };
    let total_pot = sat_add_i128(game.player1_points, game.player2_points);
    let fee_amount = compute_fee(total_pot, config.fee_bps);
    let winner_amount = sat_sub_i128(total_pot, fee_amount);
    if winner_amount > 0 {
        effects.push(Effect::Payout { token, to: winner, amount: winner_amount });
    }
    if fee_amount > 0 {
        effects.push(Effect::Payout { token, to: config.fee_recipient, amount: fee_amount });
    }
    game.payout_processed = true;
    assert(effects@ =~= payouts(
        token,
        winner,
        config.fee_recipient,
        winner_amount,
        fee_amount,
    ));
    Ok(effects)
}

/// Records the deposit of `player`'s stake. Nothing happens in a match
/// without stakes. Otherwise the player must be one of the two and must not
/// have deposited yet; the stake is owed to escrow in the configured token.
pub fn apply_deposit(config: &Config, game: &mut Game, player: &Address) -> (out: Result<
    Vec<Effect>,
    Error,
>)
    ensures
        match out {
            Ok(effects) => spec_deposit_stake(*config, old(game)@, *player) == Ok::<_, Error>(
                (final(game)@, effects@),
            ),
            Err(e) => spec_deposit_stake(*config, old(game)@, *player) == Err::<
                (GameView, Seq<Effect>),
                _,
            >(e) && *final(game) == *old(game),
        },
        out is Ok && old(game)@.wf() ==> final(game)@.wf(),
{
    let mut effects: Vec<Effect> = Vec::new();
    if game.winner.is_some() {
        return Err(Error::GameAlreadyEnded);
    }
    if !is_wager_game(game) {
        return Ok(effects);
    }
    let first = player.same(&game.player1);
    let amount = if first {
        if game.player1_deposited {
            return Err(Error::AlreadyDeposited);
        }
        game.player1_points
    } else if player.same(&game.player2) {
        if game.player2_deposited {
            return Err(Error::AlreadyDeposited);
        }
        game.player2_points
    } else {
        return Err(Error::NotPlayer);
    };
    if amount > 0 {
        match config.bet_token {
            Some(token) => {
                effects.push(Effect::Deposit { token, from: *player, amount });
            },
            None => {
                return Err(Error::BetTokenNotConfigured);
            },
        }
    }
    if first {
        game.player1_deposited = true;
    } else {
        game.player2_deposited = true;
    }
    assert(amount > 0 ==> effects@ =~= seq![
        Effect::Deposit { token: config.bet_token->0, from: *player, amount },
    ]);
    Ok(effects)
}

} // verus!
