//! Installation-wide settings: who administers the engine, which
//! collaborators it talks to, and the fee taken from each settled pot.

use vstd::prelude::*;
use crate::address::Address;

verus! {

/// The fee, in basis points, of a fresh installation.
pub const DEFAULT_FEE_BPS: u32 = 500;

/// The largest fee, in basis points, that can be configured.
pub const MAX_FEE_BPS: u32 = 2000;

/// How many basis points make the whole.
pub const BPS_DENOMINATOR: i128 = 10000;

/// The settings that every session shares.
#[derive(Clone, Copy, Debug, PartialEq, Eq)]
pub struct Config {
    /// Who may change these settings.
    pub admin: Address,
    /// The match registry that hears of every start and end.
    pub game_hub: Address,
    /// The token in which stakes are held, once one is chosen.
    pub bet_token: Option<Address>,
    /// Who receives the fee of each settled pot.
    pub fee_recipient: Address,
    /// The fee in basis points.
    pub fee_bps: u32,
    /// The key whose signatures vouch for boards and attacks, if any.
    pub verifier_key: Option<[u8; 32]>,
    /// The proof-verifier service that adjudicates instead, if any.
    pub zk_verifier: Option<Address>,
}

/// The names under which the settings that concern wagers are kept.
#[derive(Clone, Copy, Debug, PartialEq, Eq, Structural)]
pub enum ConfigKey {
    BetToken,
    FeeRecipient,
    FeeBps,
}

/// The names under which everything else is kept: the other settings, one
/// record per session, and one grant per grantor, delegate and session.
#[derive(Clone, Copy, Debug, PartialEq, Eq)]
pub enum DataKey {
    Game(u32),
    GameHubAddress,
    Admin,
    VerifierPubKey,
    ZkVerifierContract,
    Session(Address, Address, u32),
}

/// Where a record is kept, which decides how long it lives.
#[derive(Clone, Copy, Debug, PartialEq, Eq, Structural)]
pub enum StorageTier {
    /// With the engine itself, for as long as the engine lives.
    Instance,
    /// For a time that every change renews, and lost when it runs out.
    Temporary,
    /// Until deleted, kept alive by use.
    Persistent,
}

impl DataKey {
    /// Where the record under this key is kept: sessions are temporary,
    /// grants persistent, settings with the engine.
    pub open spec fn spec_tier(&self) -> StorageTier {
        match *self {
            DataKey::Game(_) => StorageTier::Temporary,
            DataKey::Session(_, _, _) => StorageTier::Persistent,
            _ => StorageTier::Instance,
        }
    }

    /// Where the record under this key is kept.
    #[verifier::when_used_as_spec(spec_tier)]
    pub fn tier(&self) -> (tier: StorageTier)
        ensures
            tier == self.spec_tier(),
    {
        match self {
            DataKey::Game(_) => StorageTier::Temporary,
            DataKey::Session(_, _, _) => StorageTier::Persistent,
            DataKey::GameHubAddress => StorageTier::Instance,
            DataKey::Admin => StorageTier::Instance,
            DataKey::VerifierPubKey => StorageTier::Instance,
            DataKey::ZkVerifierContract => StorageTier::Instance,
        }
    }
}

impl Config {
    /// The settings of a fresh installation: the administrator also
    /// receives the fees, the fee is the default, nothing else is set.
    pub open spec fn initial(admin: Address, game_hub: Address) -> Config {
        Config {
            admin,
            game_hub,
            bet_token: None,
            fee_recipient: admin,
            fee_bps: DEFAULT_FEE_BPS,
            verifier_key: None,
            zk_verifier: None,
        }
    }

    /// The settings of a fresh installation.
    pub fn new(admin: Address, game_hub: Address) -> (config: Config)
        ensures
            config == Config::initial(admin, game_hub),
    {
        Config {
            admin,
            game_hub,
            bet_token: None,
            fee_recipient: admin,
            fee_bps: DEFAULT_FEE_BPS,
            verifier_key: None,
            zk_verifier: None,
        }
    }

    /// Whether a value is stored under `key`. The recipient and the fee
    /// always are; the token only once it has been chosen.
    pub fn has(&self, key: ConfigKey) -> (present: bool)
        ensures
            present == match key {
                ConfigKey::BetToken => self.bet_token is Some,
                ConfigKey::FeeRecipient => true,
                ConfigKey::FeeBps => true,
            },
    {
        match key {
            ConfigKey::BetToken => self.bet_token.is_some(),
            ConfigKey::FeeRecipient => true,
            ConfigKey::FeeBps => true,
        }
    }
}

} // verus!
