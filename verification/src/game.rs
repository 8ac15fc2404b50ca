//! One match: its record, the mathematical view that contracts speak of,
//! and the invariant that every reachable record satisfies.

use vstd::prelude::*;
use crate::address::Address;
use crate::arith::{clamp_u32, sat_mul_u32};

verus! {

/// The side length of every new board.
pub const DEFAULT_BOARD_SIZE: u32 = 10;

/// The ship cells of the classic fleet, used where a player declared none.
pub const DEFAULT_SHIP_CELLS: u32 = 17;

/// The full record of one match.
#[derive(Clone, Debug, PartialEq, Eq)]
pub struct Game {
    pub player1: Address,
    pub player2: Address,
    pub player1_points: i128,
    pub player2_points: i128,
    pub board_size: u32,
    pub player1_board: Option<Vec<[u8; 32]>>,
    pub player2_board: Option<Vec<[u8; 32]>>,
    pub player1_ship_cells: Option<u32>,
    pub player2_ship_cells: Option<u32>,
    pub player1_hits: u32,
    pub player2_hits: u32,
    pub player1_attacks: Vec<u32>,
    pub player2_attacks: Vec<u32>,
    pub player1_hit_attacks: Vec<u32>,
    pub player2_hit_attacks: Vec<u32>,
    pub turn: Option<Address>,
    pub pending_attacker: Option<Address>,
    pub pending_defender: Option<Address>,
    pub pending_x: Option<u32>,
    pub pending_y: Option<u32>,
    pub winner: Option<Address>,
    pub player1_deposited: bool,
    pub player2_deposited: bool,
    pub payout_processed: bool,
}

/// A match as a mathematical value: the record with every list as a
/// sequence.
pub struct GameView {
    pub player1: Address,
    pub player2: Address,
    pub player1_points: i128,
    pub player2_points: i128,
    pub board_size: u32,
    pub player1_board: Option<Seq<[u8; 32]>>,
    pub player2_board: Option<Seq<[u8; 32]>>,
    pub player1_ship_cells: Option<u32>,
    pub player2_ship_cells: Option<u32>,
    pub player1_hits: u32,
    pub player2_hits: u32,
    pub player1_attacks: Seq<u32>,
    pub player2_attacks: Seq<u32>,
    pub player1_hit_attacks: Seq<u32>,
    pub player2_hit_attacks: Seq<u32>,
    pub turn: Option<Address>,
    pub pending_attacker: Option<Address>,
    pub pending_defender: Option<Address>,
    pub pending_x: Option<u32>,
    pub pending_y: Option<u32>,
    pub winner: Option<Address>,
    pub player1_deposited: bool,
    pub player2_deposited: bool,
    pub payout_processed: bool,
}

/// The phase of a match.
#[derive(Clone, Copy, Debug, PartialEq, Eq, Structural)]
pub enum Phase {
    /// At least one board is still missing.
    Setup,
    /// Both boards are set and the player to move may attack.
    Active,
    /// An attack is locked in and awaits the defender's reveal.
    AttackPending,
    /// A winner is set; nothing more is played.
    Ended,
}

/// A committed board as a sequence, if there is one.
pub open spec fn board_view(board: Option<Vec<[u8; 32]>>) -> Option<Seq<[u8; 32]>> {
    match board {
        Some(cells) => Some(cells@),
        None => None,
    }
}

impl View for Game {
    type V = GameView;

    open spec fn view(&self) -> GameView {
        GameView {
            player1: self.player1,
            player2: self.player2,
            player1_points: self.player1_points,
            player2_points: self.player2_points,
            board_size: self.board_size,
            player1_board: board_view(self.player1_board),
            player2_board: board_view(self.player2_board),
            player1_ship_cells: self.player1_ship_cells,
            player2_ship_cells: self.player2_ship_cells,
            player1_hits: self.player1_hits,
            player2_hits: self.player2_hits,
            player1_attacks: self.player1_attacks@,
            player2_attacks: self.player2_attacks@,
            player1_hit_attacks: self.player1_hit_attacks@,
            player2_hit_attacks: self.player2_hit_attacks@,
            turn: self.turn,
            pending_attacker: self.pending_attacker,
            pending_defender: self.pending_defender,
            pending_x: self.pending_x,
            pending_y: self.pending_y,
            winner: self.winner,
            player1_deposited: self.player1_deposited,
            player2_deposited: self.player2_deposited,
            payout_processed: self.payout_processed,
        }
    }
}

/// Whether every value of `part` occurs in `whole`.
pub open spec fn each_in(part: Seq<u32>, whole: Seq<u32>) -> bool {
    forall|i: int| 0 <= i < part.len() ==> whole.contains(#[trigger] part[i])
}

impl GameView {
    /// Whether anything is at stake.
    pub open spec fn is_wager(self) -> bool {
        self.player1_points > 0 || self.player2_points > 0
    }

    /// Whether both stakes are in escrow.
    pub open spec fn funded(self) -> bool {
        self.player1_deposited && self.player2_deposited
    }

    /// The number of cells of a board.
    pub open spec fn board_cells(self) -> u32 {
        clamp_u32(self.board_size * self.board_size)
    }

    /// The row-major index of the cell `(x, y)`.
    pub open spec fn target_index(self, x: u32, y: u32) -> u32 {
        clamp_u32(clamp_u32(y * self.board_size) + x)
    }

    /// Whether `who` is one of the two players.
    pub open spec fn is_player(self, who: Address) -> bool {
        who == self.player1 || who == self.player2
    }

    /// The opponent of player `who`.
    pub open spec fn opponent(self, who: Address) -> Address {
        if who == self.player1 {
            self.player2
        } else {
            self.player1
        }
    }

    /// The hits that sink the fleet of player 1.
    pub open spec fn player1_fleet(self) -> u32 {
        match self.player1_ship_cells {
            Some(n) => n,
            None => DEFAULT_SHIP_CELLS,
        }
    }

    /// The hits that sink the fleet of player 2.
    pub open spec fn player2_fleet(self) -> u32 {
        match self.player2_ship_cells {
            Some(n) => n,
            None => DEFAULT_SHIP_CELLS,
        }
    }

    /// The cells that `who` has attacked so far: those of player 1 for
    /// player 1, those of player 2 for anyone else.
    pub open spec fn attacks_of(self, who: Address) -> Seq<u32> {
        if who == self.player1 {
            self.player1_attacks
        } else {
            self.player2_attacks
        }
    }

    /// The phase that the record is in.
    pub open spec fn phase(self) -> Phase {
        if self.winner is Some {
            Phase::Ended
        } else if self.pending_attacker is Some {
            Phase::AttackPending
        } else if self.turn is Some {
            Phase::Active
        } else {
            Phase::Setup
        }
    }

    /// What holds of the stakes and their escrow in every reachable record.
    pub open spec fn escrow_wf(self) -> bool {
        &&& self.player1_points >= 0
        &&& self.player2_points >= 0
        &&& !self.player1_deposited ==> self.player1_points > 0
        &&& !self.player2_deposited ==> self.player2_points > 0
        &&& !self.is_wager() ==> self.payout_processed
        &&& self.is_wager() ==> (self.payout_processed <==> self.winner is Some)
        &&& (self.player1_board is Some || self.player2_board is Some) ==> self.funded()
    }

    /// What holds of the boards in every reachable record.
    pub open spec fn boards_wf(self) -> bool {
        &&& 0 < self.board_size
        &&& self.board_size * self.board_size <= u32::MAX
        &&& self.player1_board is Some <==> self.player1_ship_cells is Some
        &&& self.player2_board is Some <==> self.player2_ship_cells is Some
        &&& self.player1_board matches Some(b) ==> b.len() == self.board_cells()
        &&& self.player2_board matches Some(b) ==> b.len() == self.board_cells()
        &&& 1 <= self.player1_fleet() <= self.board_cells() || self.player1_ship_cells is None
        &&& 1 <= self.player2_fleet() <= self.board_cells() || self.player2_ship_cells is None
        &&& self.turn is Some <==> (self.player1_board is Some && self.player2_board is Some)
        &&& self.turn matches Some(t) ==> self.is_player(t)
    }

    /// What holds of the attack histories in every reachable record.
    pub open spec fn history_wf(self) -> bool {
        &&& self.player1_attacks.no_duplicates()
        &&& self.player2_attacks.no_duplicates()
        &&& self.player1_hit_attacks.no_duplicates()
        &&& self.player2_hit_attacks.no_duplicates()
        &&& each_in(self.player1_hit_attacks, self.player1_attacks)
        &&& each_in(self.player2_hit_attacks, self.player2_attacks)
        &&& forall|i: int|
            0 <= i < self.player1_attacks.len() ==> #[trigger] self.player1_attacks[i]
                < self.board_cells()
        &&& forall|i: int|
            0 <= i < self.player2_attacks.len() ==> #[trigger] self.player2_attacks[i]
                < self.board_cells()
        &&& self.player1_hits == self.player1_hit_attacks.len()
        &&& self.player2_hits == self.player2_hit_attacks.len()
        &&& self.turn is None ==> self.player1_attacks.len() == 0 && self.player2_attacks.len()
            == 0
    }

    /// What holds of the attack lock in every reachable record: it is set
    /// as a whole or not at all, and where it is set it names the player to
    /// move, the opponent, and a fresh cell of the board.
    pub open spec fn pending_wf(self) -> bool {
        &&& self.pending_attacker is Some <==> self.pending_defender is Some
        &&& self.pending_attacker is Some <==> self.pending_x is Some
        &&& self.pending_attacker is Some <==> self.pending_y is Some
        &&& self.pending_attacker matches Some(a) ==> {
            &&& self.winner is None
            &&& self.turn == Some(a)
            &&& self.pending_defender == Some(self.opponent(a))
            &&& self.pending_x->0 < self.board_size
            &&& self.pending_y->0 < self.board_size
            &&& !self.attacks_of(a).contains(
                self.target_index(self.pending_x->0, self.pending_y->0),
            )
        }
    }

    /// What holds of the winner in every reachable record: there is one
    /// exactly when a fleet is sunk.
    pub open spec fn winner_wf(self) -> bool {
        &&& self.winner matches Some(w) ==> self.is_player(w) && self.turn is Some
        &&& self.winner == Some(self.player1) ==> self.player1_hits >= self.player2_fleet()
        &&& self.winner == Some(self.player2) ==> self.player2_hits >= self.player1_fleet()
        &&& self.winner is None ==> self.player1_hits < self.player2_fleet()
            && self.player2_hits < self.player1_fleet()
    }

    /// The invariant of a match: everything that a fresh record satisfies
    /// and that every operation preserves.
    pub open spec fn wf(self) -> bool {
        &&& self.player1 != self.player2
        &&& self.escrow_wf()
        &&& self.boards_wf()
        &&& self.history_wf()
        &&& self.pending_wf()
        &&& self.winner_wf()
    }

    /// The record of a match that has just begun.
    pub open spec fn fresh(
        player1: Address,
        player2: Address,
        player1_points: i128,
        player2_points: i128,
    ) -> GameView {
        let is_wager = player1_points > 0 || player2_points > 0;
        GameView {
            player1,
            player2,
            player1_points,
            player2_points,
            board_size: DEFAULT_BOARD_SIZE,
            player1_board: None,
            player2_board: None,
            player1_ship_cells: None,
            player2_ship_cells: None,
            player1_hits: 0,
            player2_hits: 0,
            player1_attacks: Seq::empty(),
            player2_attacks: Seq::empty(),
            player1_hit_attacks: Seq::empty(),
            player2_hit_attacks: Seq::empty(),
            turn: None,
            pending_attacker: None,
            pending_defender: None,
            pending_x: None,
            pending_y: None,
            winner: None,
            player1_deposited: !is_wager || player1_points == 0,
            player2_deposited: !is_wager || player2_points == 0,
            payout_processed: !is_wager,
        }
    }
}

/// Whether anything is at stake in `game`.
pub fn is_wager_game(game: &Game) -> (wager: bool)
    ensures
        wager == game@.is_wager(),
{
    game.player1_points > 0 || game.player2_points > 0
}

/// Whether `value` occurs in `list`.
pub fn contains_u32(list: &Vec<u32>, value: u32) -> (found: bool)
    ensures
        found == list@.contains(value),
{
    let mut index: usize = 0;
    while index < list.len()
        invariant
            index <= list.len(),
            forall|j: int| 0 <= j < index ==> list@[j] != value,
        decreases list.len() - index,
    {
        if list[index] == value {
            return true;
        }
        index += 1;
    }
    false
}

impl Game {
    /// The record of a match between two players that has just begun: a
    /// board of the default size, nothing committed, nobody to move. Stakes
    /// of zero count as deposited, and a match without stakes as settled.
    pub fn new(
        player1: Address,
        player2: Address,
        player1_points: i128,
        player2_points: i128,
    ) -> (game: Game)
        ensures
            game@ == GameView::fresh(player1, player2, player1_points, player2_points),
            player1 != player2 && player1_points >= 0 && player2_points >= 0 ==> game@.wf(),
    {
        let is_wager = player1_points > 0 || player2_points > 0;
        Game {
            player1,
            player2,
            player1_points,
            player2_points,
            board_size: DEFAULT_BOARD_SIZE,
            player1_board: None,
            player2_board: None,
            player1_ship_cells: None,
            player2_ship_cells: None,
            player1_hits: 0,
            player2_hits: 0,
            player1_attacks: Vec::new(),
            player2_attacks: Vec::new(),
            player1_hit_attacks: Vec::new(),
            player2_hit_attacks: Vec::new(),
            turn: None,
            pending_attacker: None,
            pending_defender: None,
            pending_x: None,
            pending_y: None,
            winner: None,
            player1_deposited: !is_wager || player1_points == 0,
            player2_deposited: !is_wager || player2_points == 0,
            payout_processed: !is_wager,
        }
    }

    /// The number of cells of a board.
    pub fn board_cells(&self) -> (cells: u32)
        ensures
            cells == self@.board_cells(),
    {
        sat_mul_u32(self.board_size, self.board_size)
    }

    /// The row-major index of the cell `(x, y)`.
    pub fn target_index(&self, x: u32, y: u32) -> (index: u32)
        ensures
            index == self@.target_index(x, y),
    {
        sat_mul_u32(y, self.board_size).saturating_add(x)
    }

    /// Whether both stakes are in escrow, or nothing is at stake.
    pub fn stakes_ready(&self) -> (ready: bool)
        ensures
            ready == (!self@.is_wager() || self@.funded()),
    {
        !is_wager_game(self) || (self.player1_deposited && self.player2_deposited)
    }

    /// The phase that the match is in.
    pub fn phase(&self) -> (phase: Phase)
        ensures
            phase == self@.phase(),
    {
        if self.winner.is_some() {
            Phase::Ended
        } else if self.pending_attacker.is_some() {
            Phase::AttackPending
        } else if self.turn.is_some() {
            Phase::Active
        } else {
            Phase::Setup
        }
    }
}

} // verus!
