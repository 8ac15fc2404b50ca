//! The session store: one record per session identifier. A record is
//! created once, found by its identifier, and saved after every change,
//! which renews its life.

use std::collections::HashMap;
use vstd::prelude::*;
use crate::config::DataKey;
use crate::effect::Effect;
use crate::error::Error;
use crate::game::{Game, GameView};

verus! {

broadcast use vstd::std_specs::hash::group_hash_axioms;

/// How long the record of a session is kept alive after each change.
pub const GAME_TTL_LEDGERS: u32 = 518400;

/// The records of all sessions, by identifier.
#[derive(Debug)]
pub struct GameStore {
    games: HashMap<u32, Game>,
}

/// What saving the record of session `session_id` asks of the outside: the
/// record is written, then its life is renewed.
pub open spec fn save_effects(session_id: u32) -> Seq<Effect> {
    seq![
        Effect::Write { key: DataKey::Game(session_id) },
        Effect::ExtendTtl { key: DataKey::Game(session_id), ledgers: GAME_TTL_LEDGERS },
    ]
}

impl View for GameStore {
    type V = Map<u32, GameView>;

    closed spec fn view(&self) -> Map<u32, GameView> {
        Map::new(|id: u32| self.games@.contains_key(id), |id: u32| self.games@[id]@)
    }
}

impl GameStore {
    /// A store without sessions.
    pub fn new() -> (store: GameStore)
        ensures
            store@ == Map::<u32, GameView>::empty(),
    {
        let store = GameStore { games: HashMap::new() };
        assert(store@ =~= Map::<u32, GameView>::empty());
        store
    }

    /// Whether a record is held for the session.
    pub fn contains(&self, session_id: u32) -> (present: bool)
        ensures
            present == self@.contains_key(session_id),
    {
        self.games.contains_key(&session_id)
    }

    /// Creates and saves the record of a new session. This fails, and
    /// hands the record back unchanged, where the identifier is already in
    /// use: then nothing is stored and nothing is asked of the outside.
    pub fn create(&mut self, session_id: u32, game: Game, effects: &mut Vec<Effect>) -> (out:
        Result<(), Game>)
        ensures
            match out {
                Ok(()) => {
                    &&& !old(self)@.contains_key(session_id)
                    &&& final(self)@ == old(self)@.insert(session_id, game@)
                    &&& final(effects)@ == old(effects)@ + save_effects(session_id)
                },
                Err(back) => {
                    &&& old(self)@.contains_key(session_id)
                    &&& final(self)@ == old(self)@
                    &&& final(effects)@ == old(effects)@
                    &&& back == game
                },
            },
    {
        if self.games.contains_key(&session_id) {
            return Err(game);
        }
        self.save(session_id, game, effects);
        Ok(())
    }

    /// Finds the record of a session; `GameNotFound` where there is none.
    pub fn load(&self, session_id: u32) -> (out: Result<&Game, Error>)
        ensures
            match out {
                Ok(game) => self@.contains_key(session_id) && game@ == self@[session_id],
                Err(e) => e == Error::GameNotFound && !self@.contains_key(session_id),
            },
    {
        match self.games.get(&session_id) {
            Some(game) => Ok(game),
            None => Err(Error::GameNotFound),
        }
    }

    /// Takes the record of a session out of the store, to be changed and
    /// put back; `GameNotFound` where there is none.
    pub fn take(&mut self, session_id: u32) -> (out: Result<Game, Error>)
        ensures
            match out {
                Ok(game) => old(self)@.contains_key(session_id) && game@ == old(
                    self)@[session_id] && final(self)@ == old(self)@.remove(session_id),
                Err(e) => e == Error::GameNotFound && !old(self)@.contains_key(session_id)
                    && final(self)@ == old(self)@,
            },
    {
        match self.games.remove(&session_id) {
            Some(game) => {
                assert(self@ =~= old(self)@.remove(session_id));
                Ok(game)
            },
            None => {
                assert(self@ =~= old(self)@);
                Err(Error::GameNotFound)
            },
        }
    }

    /// Puts a record into the store as it is, in place of any record of
    /// that session, without asking anything of the outside.
    pub fn put(&mut self, session_id: u32, game: Game)
        ensures
            final(self)@ == old(self)@.insert(session_id, game@),
    {
        self.games.insert(session_id, game);
        assert(self@ =~= old(self)@.insert(session_id, game@));
    }

    /// Saves the record of a session in place of any earlier one: the
    /// record is to be written through and its life renewed, which is
    /// added to `effects`.
    pub fn save(&mut self, session_id: u32, game: Game, effects: &mut Vec<Effect>)
        ensures
            final(self)@ == old(self)@.insert(session_id, game@),
            final(effects)@ == old(effects)@ + save_effects(session_id),
    {
        self.put(session_id, game);
        effects.push(Effect::Write { key: DataKey::Game(session_id) });
        effects.push(
            Effect::ExtendTtl { key: DataKey::Game(session_id), ledgers: GAME_TTL_LEDGERS },
        );
        assert(effects@ =~= old(effects)@ + save_effects(session_id));
    }
}

} // verus!
