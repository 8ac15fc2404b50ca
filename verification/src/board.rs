//! Board commitment: each player fixes a board once, as one commitment per
//! cell and a declared number of ship cells. When the second board arrives
//! the match becomes active and player 1 is to move.

use vstd::prelude::*;
use crate::address::Address;
use crate::error::Error;
use crate::game::{Game, GameView, DEFAULT_SHIP_CELLS};

verus! {

/// Whether a board of `cells` commitments with `ship_cells` ships may be
/// committed to the match at all, whoever commits it.
pub open spec fn spec_check_board_commit(g: GameView, cells: nat, ship_cells: u32) -> Result<
    (),
    Error,
> {
    if g.winner is Some {
        Err(Error::GameAlreadyEnded)
    } else if cells != g.board_cells() {
        Err(Error::InvalidBoardCommitmentLength)
    } else if ship_cells == 0 || ship_cells > g.board_cells() {
        Err(Error::InvalidShipCount)
    } else if g.is_wager() && !g.funded() {
        Err(Error::StakesNotFunded)
    } else {
        Ok(())
    }
}

/// The record once a board has been stored: where both boards are set and
/// nobody is to move yet, player 1 is to move and a fleet that was not
/// declared counts the classic number of ship cells.
pub open spec fn activated(g: GameView) -> GameView {
    if g.player1_board is Some && g.player2_board is Some && g.turn is None {
        GameView {
            turn: Some(g.player1),
            player1_ship_cells: Some(g.player1_fleet()),
            player2_ship_cells: Some(g.player2_fleet()),
            ..g
        }
    } else {
        g
    }
}

/// Committing a board as a function: the record afterwards, or the reason
/// why the board is refused.
pub open spec fn spec_apply_board_commit(
    g: GameView,
    player: Address,
    commitments: Seq<[u8; 32]>,
    ship_cells: u32,
) -> Result<GameView, Error> {
    if player == g.player1 {
        if g.player1_board is Some {
            Err(Error::BoardAlreadyCommitted)
        } else {
            Ok(
                activated(
                    GameView {
                        player1_board: Some(commitments),
                        player1_ship_cells: Some(ship_cells),
                        ..g
                    },
                ),
            )
        }
    } else if player == g.player2 {
        if g.player2_board is Some {
            Err(Error::BoardAlreadyCommitted)
        } else {
            Ok(
                activated(
                    GameView {
                        player2_board: Some(commitments),
                        player2_ship_cells: Some(ship_cells),
                        ..g
                    },
                ),
            )
        }
    } else {
        Err(Error::NotPlayer)
    }
}

/// A board that passes the check and is stored keeps the invariant of the
/// match.
pub proof fn lemma_board_commit_keeps_wf(
    g: GameView,
    player: Address,
    commitments: Seq<[u8; 32]>,
    ship_cells: u32,
)
    requires
        g.wf(),
        spec_check_board_commit(g, commitments.len(), ship_cells) is Ok,
        spec_apply_board_commit(g, player, commitments, ship_cells) is Ok,
    ensures
        spec_apply_board_commit(g, player, commitments, ship_cells)->Ok_0.wf(),
{
    let after = spec_apply_board_commit(g, player, commitments, ship_cells)->Ok_0;
    assert(g.turn is None);
    assert(g.player1_hit_attacks.len() == 0) by {
        if g.player1_hit_attacks.len() > 0 {
            assert(g.player1_attacks.contains(g.player1_hit_attacks[0]));
        }
    }
    assert(g.player2_hit_attacks.len() == 0) by {
        if g.player2_hit_attacks.len() > 0 {
            assert(g.player2_attacks.contains(g.player2_hit_attacks[0]));
        }
    }
    assert(after.escrow_wf());
    assert(after.boards_wf());
    assert(after.history_wf());
    assert(after.pending_wf());
    assert(after.winner_wf());
}

/// Checks what must hold before a board of `cells` commitments with
/// `ship_cells` ships is looked at more closely: the match is not over, the
/// board has one commitment per cell, the ship count lies between 1 and the
/// number of cells, and the stakes, if any, are both in escrow.
pub fn check_board_commit(game: &Game, cells: usize, ship_cells: u32) -> (out: Result<(), Error>)
    ensures
        out == spec_check_board_commit(game@, cells as nat, ship_cells),
{
    if game.winner.is_some() {
        return Err(Error::GameAlreadyEnded);
    }
    let board_cells = game.board_cells();
    if cells as u64 != board_cells as u64 {
        return Err(Error::InvalidBoardCommitmentLength);
    }
    if ship_cells == 0 || ship_cells > board_cells {
        return Err(Error::InvalidShipCount);
    }
    if !game.stakes_ready() {
        return Err(Error::StakesNotFunded);
    }
    Ok(())
}

/// Stores the board of `player`, who must be one of the two players and
/// must not have committed before. With the second board the match becomes
/// active: player 1 is to move.
pub fn apply_board_commit(
    game: &mut Game,
    player: Address,
    cell_commitments: Vec<[u8; 32]>,
    ship_cells: u32,
) -> (out: Result<(), Error>)
    ensures
        match out {
            Ok(()) => spec_apply_board_commit(old(game)@, player, cell_commitments@, ship_cells)
                == Ok::<_, Error>(final(game)@),
            Err(e) => spec_apply_board_commit(old(game)@, player, cell_commitments@, ship_cells)
                == Err::<GameView, _>(e) && *final(game) == *old(game),
        },
        out is Ok && old(game)@.wf() && spec_check_board_commit(
            old(game)@,
            cell_commitments@.len(),
            ship_cells,
        ) is Ok ==> final(game)@.wf(),
{
    if player.same(&game.player1) {
        if game.player1_board.is_some() {
            return Err(Error::BoardAlreadyCommitted);
        }
        game.player1_board = Some(cell_commitments);
        game.player1_ship_cells = Some(ship_cells);
    } else if player.same(&game.player2) {
        if game.player2_board.is_some() {
            return Err(Error::BoardAlreadyCommitted);
        }
        game.player2_board = Some(cell_commitments);
        game.player2_ship_cells = Some(ship_cells);
    } else {
        return Err(Error::NotPlayer);
    }
    if game.player1_board.is_some() && game.player2_board.is_some() && game.turn.is_none() {
        game.turn = Some(game.player1);
        if game.player1_ship_cells.is_none() {
            game.player1_ship_cells = Some(DEFAULT_SHIP_CELLS);
        }
        if game.player2_ship_cells.is_none() {
            game.player2_ship_cells = Some(DEFAULT_SHIP_CELLS);
        }
    }
    proof {
        if old(game)@.wf() && spec_check_board_commit(
            old(game)@,
            cell_commitments@.len(),
            ship_cells,
        ) is Ok {
            lemma_board_commit_keeps_wf(old(game)@, player, cell_commitments@, ship_cells);
        }
    }
    Ok(())
}

} // verus!
