//! Delegated sessions: a player lets someone else act in a session, for a
//! bounded time and, if wished, a bounded number of times.

use vstd::prelude::*;
use crate::address::Address;
use crate::config::DataKey;
use crate::effect::Effect;
use crate::error::Error;

verus! {

/// The longest time, in ticks of the ledger clock, that a grant may last.
pub const MAX_SESSION_TTL_LEDGERS: u32 = 172800;

/// How long the record of a grant is kept alive after each use.
pub const SESSION_GRANT_TTL_LEDGERS: u32 = 172800;

/// What a delegate is allowed: to act until the ledger clock has passed
/// `expires_ledger`, and `uses_left` more times, where 0 means any number.
#[derive(Clone, Copy, Debug, PartialEq, Eq, Structural)]
pub struct SessionGrant {
    pub expires_ledger: u32,
    pub uses_left: u32,
}

/// Who granted what to whom: a grant is found by its grantor, its delegate
/// and the session.
#[derive(Clone, Copy, Debug, PartialEq, Eq)]
pub struct GrantKey {
    pub grantor: Address,
    pub delegate: Address,
    pub session_id: u32,
}

impl GrantKey {
    /// The name under which the grant is kept in durable storage.
    pub open spec fn data_key(self) -> DataKey {
        DataKey::Session(self.grantor, self.delegate, self.session_id)
    }

    /// The name under which the grant is kept in durable storage.
    pub fn to_data_key(&self) -> (key: DataKey)
        ensures
            key == self.data_key(),
    {
        DataKey::Session(self.grantor, self.delegate, self.session_id)
    }

    /// Whether both keys name the same grant.
    pub fn same(&self, other: &GrantKey) -> (same: bool)
        ensures
            same == (*self == *other),
    {
        self.session_id == other.session_id && self.grantor.same(&other.grantor)
            && self.delegate.same(&other.delegate)
    }
}

/// The grants found in a list of entries whose keys are all different.
pub open spec fn grants_of(entries: Seq<(GrantKey, SessionGrant)>) -> Map<GrantKey, SessionGrant> {
    Map::new(
        |key: GrantKey| exists|i: int| 0 <= i < entries.len() && entries[i].0 == key,
        |key: GrantKey|
            entries[choose|i: int| 0 <= i < entries.len() && entries[i].0 == key].1,
    )
}

/// Whether no two entries have the same key.
pub open spec fn distinct_keys(entries: Seq<(GrantKey, SessionGrant)>) -> bool {
    forall|i: int, j: int| 0 <= i < j < entries.len() ==> entries[i].0 != entries[j].0
}

/// In a list with distinct keys each entry is the grant of its key.
pub proof fn lemma_entry_is_grant(entries: Seq<(GrantKey, SessionGrant)>, at: int)
    requires
        distinct_keys(entries),
        0 <= at < entries.len(),
    ensures
        grants_of(entries).contains_key(entries[at].0),
        grants_of(entries)[entries[at].0] == entries[at].1,
{
    let key = entries[at].0;
    let found = choose|i: int| 0 <= i < entries.len() && entries[i].0 == key;
    assert(found == at);
}

/// A copy of `entries` without the entry at `skip`, or a plain copy where
/// `skip` is no position of it.
fn copy_without(entries: &Vec<(GrantKey, SessionGrant)>, skip: Option<usize>) -> (copy: Vec<
    (GrantKey, SessionGrant),
>)
    ensures
        copy@ == match skip {
            Some(at) if at < entries@.len() => entries@.remove(at as int),
            _ => entries@,
        },
{
    let mut copy: Vec<(GrantKey, SessionGrant)> = Vec::new();
    let mut index: usize = 0;
    let ghost at: int = match skip {
        Some(at) if at < entries@.len() => at as int,
        _ => entries@.len() as int,
    };
    while index < entries.len()
        invariant
            index <= entries.len(),
            at == match skip {
                Some(at) if at < entries@.len() => at as int,
                _ => entries@.len() as int,
            },
            copy@.len() == if index <= at {
                index as int
            } else {
                index - 1
            },
            forall|i: int|
                0 <= i < copy@.len() ==> copy@[i] == if i < at {
                    entries@[i]
                } else {
                    entries@[i + 1]
                },
        decreases entries.len() - index,
    {
        let keep = match skip {
            Some(at) => at != index,
            None => true,
        };
        if keep {
            copy.push(entries[index]);
        }
        index += 1;
    }
    proof {
        if at < entries@.len() {
            assert(copy@ =~= entries@.remove(at));
        } else {
            assert(copy@ =~= entries@);
        }
    }
    copy
}

/// The grants that players have given, each found by its key.
#[derive(Debug)]
pub struct GrantStore {
    entries: Vec<(GrantKey, SessionGrant)>,
}

impl View for GrantStore {
    type V = Map<GrantKey, SessionGrant>;

    closed spec fn view(&self) -> Map<GrantKey, SessionGrant> {
        grants_of(self.entries@)
    }
}

impl GrantStore {
    #[verifier::type_invariant]
    spec fn keys_are_distinct(&self) -> bool {
        distinct_keys(self.entries@)
    }

    /// A store without grants.
    pub fn new() -> (store: GrantStore)
        ensures
            store@ == Map::<GrantKey, SessionGrant>::empty(),
    {
        let store = GrantStore { entries: Vec::new() };
        assert(store@ =~= Map::<GrantKey, SessionGrant>::empty());
        store
    }

    /// Where the entry of `key` stands, if there is one.
    fn position(&self, key: &GrantKey) -> (found: Option<usize>)
        ensures
            match found {
                Some(at) => at < self.entries@.len() && self.entries@[at as int].0 == *key,
                None => forall|i: int| 0 <= i < self.entries@.len() ==> self.entries@[i].0 != *key,
            },
    {
        let mut index: usize = 0;
        while index < self.entries.len()
            invariant
                index <= self.entries.len(),
                forall|i: int| 0 <= i < index ==> self.entries@[i].0 != *key,
            decreases self.entries.len() - index,
        {
            if self.entries[index].0.same(key) {
                return Some(index);
            }
            index += 1;
        }
        None
    }

    /// The grant stored under `key`, if there is one.
    pub fn get(&self, key: &GrantKey) -> (grant: Option<SessionGrant>)
        ensures
            grant == if self@.contains_key(*key) {
                Some(self@[*key])
            } else {
                None
            },
    {
        proof {
            use_type_invariant(self);
        }
        match self.position(key) {
            Some(at) => {
                proof {
                    lemma_entry_is_grant(self.entries@, at as int);
                }
                Some(self.entries[at].1)
            },
            None => None,
        }
    }

    /// Whether a grant is stored under `key`.
    pub fn has(&self, key: &GrantKey) -> (present: bool)
        ensures
            present == self@.contains_key(*key),
    {
        self.get(key).is_some()
    }

    /// Deletes the grant stored under `key`; tells whether there was one.
    pub fn remove(&mut self, key: &GrantKey) -> (removed: bool)
        ensures
            removed == old(self)@.contains_key(*key),
            final(self)@ == old(self)@.remove(*key),
    {
        proof {
            use_type_invariant(&*self);
        }
        match self.position(key) {
            Some(at) => {
                let ghost before = self.entries@;
                let rest = copy_without(&self.entries, Some(at));
                let ghost after = rest@;
                proof {
                    lemma_entry_is_grant(before, at as int);
                    assert(after == before.remove(at as int));
                    assert(distinct_keys(after)) by {
                        assert forall|i: int, j: int| 0 <= i < j < after.len() implies after[i].0
                            != after[j].0 by {
                            let a = if i < at {
                                i
                            } else {
                                i + 1
                            };
                            let b = if j < at {
                                j
                            } else {
                                j + 1
                            };
                            assert(after[i] == before[a] && after[j] == before[b]);
                        }
                    }
                    assert forall|k: GrantKey|
                        grants_of(after).contains_key(k) <==> #[trigger] grants_of(
                            before,
                        ).remove(*key).contains_key(k) by {
                        if grants_of(after).contains_key(k) {
                            let i = choose|i: int| 0 <= i < after.len() && after[i].0 == k;
                            let a = if i < at {
                                i
                            } else {
                                i + 1
                            };
                            assert(before[a].0 == k);
                        }
                        if grants_of(before).remove(*key).contains_key(k) {
                            let a = choose|a: int| 0 <= a < before.len() && before[a].0 == k;
                            let i = if a < at {
                                a
                            } else {
                                a - 1
                            };
                            assert(after[i].0 == k);
                        }
                    }
                    assert forall|k: GrantKey| grants_of(after).contains_key(k) implies grants_of(
                        after,
                    )[k] == grants_of(before).remove(*key)[k] by {
                        let i = choose|i: int| 0 <= i < after.len() && after[i].0 == k;
                        let a = if i < at {
                            i
                        } else {
                            i + 1
                        };
                        assert(after[i] == before[a]);
                        lemma_entry_is_grant(after, i);
                        lemma_entry_is_grant(before, a);
                    }
                    assert(grants_of(after) =~= grants_of(before).remove(*key));
                }
                self.entries = rest;
                true
            },
            None => {
                assert(self@ =~= self@.remove(*key));
                false
            },
        }
    }

    /// Stores `grant` under `key`, in place of what was stored there.
    pub fn set(&mut self, key: GrantKey, grant: SessionGrant)
        ensures
            final(self)@ == old(self)@.insert(key, grant),
    {
        self.remove(&key);
        proof {
            use_type_invariant(&*self);
        }
        let ghost before = self.entries@;
        assert(!grants_of(before).contains_key(key));
        let mut more = copy_without(&self.entries, None);
        more.push((key, grant));
        let ghost after = more@;
        proof {
            assert(distinct_keys(after)) by {
                assert forall|i: int, j: int| 0 <= i < j < after.len() implies after[i].0
                    != after[j].0 by {
                    if j == before.len() {
                        assert(before[i].0 != key);
                    }
                }
            }
            assert forall|k: GrantKey|
                grants_of(after).contains_key(k) <==> #[trigger] grants_of(before).insert(
                    key,
                    grant,
                ).contains_key(k) by {
                if grants_of(after).contains_key(k) {
                    let i = choose|i: int| 0 <= i < after.len() && after[i].0 == k;
                    if i < before.len() {
                        assert(before[i].0 == k);
                    }
                }
                if grants_of(before).insert(key, grant).contains_key(k) {
                    if k == key {
                        assert(after[before.len() as int].0 == k);
                    } else {
                        let i = choose|i: int| 0 <= i < before.len() && before[i].0 == k;
                        assert(after[i].0 == k);
                    }
                }
            }
            assert forall|k: GrantKey| grants_of(after).contains_key(k) implies grants_of(
                after,
            )[k] == grants_of(before).insert(key, grant)[k] by {
                let i = choose|i: int| 0 <= i < after.len() && after[i].0 == k;
                lemma_entry_is_grant(after, i);
                if i < before.len() {
                    assert(after[i] == before[i]);
                    lemma_entry_is_grant(before, i);
                }
            }
            assert(grants_of(after) =~= grants_of(before).insert(key, grant));
            assert(old(self)@.remove(key).insert(key, grant) =~= old(self)@.insert(key, grant));
        }
        self.entries = more;
    }
}

/// What becomes of the grants when someone acts for a player.
pub struct AuthStep {
    /// The grants afterwards.
    pub grants: Map<GrantKey, SessionGrant>,
    /// What is asked of the outside, in order.
    pub effects: Seq<Effect>,
    /// Whether the caller may act for the player.
    pub result: Result<(), Error>,
}

/// Acting for a player as a function. The invoker must have authorized the
/// call. The player may always act in person. Anyone else needs a grant of
/// the player for this session: past its expiry the grant is deleted and
/// refused; a counted grant loses one use, and is deleted with its last.
pub open spec fn spec_session_auth(
    grants: Map<GrantKey, SessionGrant>,
    now: u32,
    invoker: Address,
    session_id: u32,
    player: Address,
) -> AuthStep {
    let key = GrantKey { grantor: player, delegate: invoker, session_id };
    let asked = seq![Effect::RequireAuth { address: invoker }];
    if invoker == player {
        AuthStep { grants, effects: asked, result: Ok(()) }
    } else if !grants.contains_key(key) {
        AuthStep { grants, effects: asked, result: Err(Error::InvalidSession) }
    } else if now > grants[key].expires_ledger {
        AuthStep {
            grants: grants.remove(key),
            effects: asked.push(Effect::Erase { key: key.data_key() }),
            result: Err(Error::SessionExpired),
        }
    } else if grants[key].uses_left == 1 {
        AuthStep {
            grants: grants.remove(key),
            effects: asked.push(Effect::Erase { key: key.data_key() }),
            result: Ok(()),
        }
    } else if grants[key].uses_left > 1 {
        AuthStep {
            grants: grants.insert(
                key,
                SessionGrant {
                    expires_ledger: grants[key].expires_ledger,
                    uses_left: (grants[key].uses_left - 1) as u32,
                },
            ),
            effects: asked.push(Effect::Write { key: key.data_key() }).push(
                Effect::ExtendTtl { key: key.data_key(), ledgers: SESSION_GRANT_TTL_LEDGERS },
            ),
            result: Ok(()),
        }
    } else {
        AuthStep {
            grants,
            effects: asked.push(
                Effect::ExtendTtl { key: key.data_key(), ledgers: SESSION_GRANT_TTL_LEDGERS },
            ),
            result: Ok(()),
        }
    }
}

/// Whether an effect writes, deletes or renews a stored record.
pub open spec fn is_storage_effect(effect: Effect) -> bool {
    effect is Write || effect is WriteConfig || effect is Erase || effect is EraseConfig
        || effect is ExtendTtl
}

/// Whether no effect of the list writes, deletes or renews a stored
/// record.
pub open spec fn no_storage_effects(effects: Seq<Effect>) -> bool {
    forall|i: int| 0 <= i < effects.len() ==> !is_storage_effect(#[trigger] effects[i])
}

/// Tells whether `invoker` may act for `player` in the session, without
/// using the grant: the player in person always may, anyone else with a
/// grant that has not expired.
pub fn check_session_auth(
    grants: &GrantStore,
    now: u32,
    invoker: &Address,
    session_id: u32,
    player: &Address,
) -> (out: Result<(), Error>)
    ensures
        out == spec_session_auth(grants@, now, *invoker, session_id, *player).result,
{
    if invoker.same(player) {
        return Ok(());
    }
    match grants.get(&GrantKey { grantor: *player, delegate: *invoker, session_id }) {
        None => Err(Error::InvalidSession),
        Some(grant) => if now > grant.expires_ledger {
            Err(Error::SessionExpired)
        } else {
            Ok(())
        },
    }
}

/// Decides whether `invoker` may act for `player` in the session, and uses
/// up the grant as far as it is counted. What is asked of the outside is
/// added to `effects`.
pub fn require_player_or_session_auth(
    grants: &mut GrantStore,
    effects: &mut Vec<Effect>,
    now: u32,
    invoker: &Address,
    session_id: u32,
    player: &Address,
) -> (out: Result<(), Error>)
    ensures
        final(grants)@ == spec_session_auth(
            old(grants)@,
            now,
            *invoker,
            session_id,
            *player,
        ).grants,
        final(effects)@ == old(effects)@ + spec_session_auth(
            old(grants)@,
            now,
            *invoker,
            session_id,
            *player,
        ).effects,
        out == spec_session_auth(old(grants)@, now, *invoker, session_id, *player).result,
{
    effects.push(Effect::RequireAuth { address: *invoker });
    if invoker.same(player) {
        assert(effects@ =~= old(effects)@ + seq![Effect::RequireAuth { address: *invoker }]);
        return Ok(());
    }
    let key = GrantKey { grantor: *player, delegate: *invoker, session_id };
    let grant = match grants.get(&key) {
        Some(g) => g,
        None => {
            assert(effects@ =~= old(effects)@ + seq![Effect::RequireAuth { address: *invoker }]);
            return Err(Error::InvalidSession);
        },
    };
    let out = if now > grant.expires_ledger {
        grants.remove(&key);
        effects.push(Effect::Erase { key: key.to_data_key() });
        Err(Error::SessionExpired)
    } else if grant.uses_left > 0 {
        let uses_left = grant.uses_left - 1;
        if uses_left == 0 {
            grants.remove(&key);
            effects.push(Effect::Erase { key: key.to_data_key() });
        } else {
            grants.set(key, SessionGrant { expires_ledger: grant.expires_ledger, uses_left });
            effects.push(Effect::Write { key: key.to_data_key() });
            effects.push(
                Effect::ExtendTtl { key: key.to_data_key(), ledgers: SESSION_GRANT_TTL_LEDGERS },
            );
        }
        Ok(())
    } else {
        effects.push(
            Effect::ExtendTtl { key: key.to_data_key(), ledgers: SESSION_GRANT_TTL_LEDGERS },
        );
        Ok(())
    };
    assert(effects@ =~= old(effects)@ + spec_session_auth(
        old(grants)@,
        now,
        *invoker,
        session_id,
        *player,
    ).effects);
    out
}

} // verus!
