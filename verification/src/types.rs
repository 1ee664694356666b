use vstd::prelude::*;

verus! {

/// An account or contract identifier.
///
/// The host environment that invokes the registry authenticates callers and
/// hands every operation an already-authenticated identifier; the registry
/// itself only ever compares identifiers for equality.
#[derive(Clone, Copy, Debug, PartialEq, Eq, Structural)]
pub struct Address(pub u64);

/// Factory state containing administrative configuration: the admin and
/// treasury addresses, the fee structure, and the pause flag.
#[derive(Clone, Copy, Debug, PartialEq, Eq, Structural)]
pub struct FactoryState {
    pub admin: Address,
    pub treasury: Address,
    pub base_fee: i128,
    pub metadata_fee: i128,
    pub paused: bool,
}

/// Descriptive information identifying the factory itself: a name, a short
/// description, the author, the license, and a version string.
#[derive(Clone, Debug, PartialEq, Eq)]
pub struct ContractMetadata {
    pub name: String,
    pub description: String,
    pub author: String,
    pub license: String,
    pub version: String,
}

/// Complete record of a token issued through the factory.
///
/// `total_supply` starts at `initial_supply` and decreases only through
/// burns; `total_burned` and `burn_count` start at zero and never decrease.
#[derive(Clone, Debug, PartialEq, Eq)]
pub struct TokenInfo {
    pub address: Address,
    pub creator: Address,
    pub name: String,
    pub symbol: String,
    pub decimals: u32,
    pub total_supply: i128,
    pub initial_supply: i128,
    pub total_burned: i128,
    pub burn_count: u32,
    pub metadata_uri: Option<String>,
    pub created_at: u64,
    pub clawback_enabled: bool,
}

/// Supply conservation for a single token record: circulating supply plus
/// the cumulative burned amount always equals the originally issued amount,
/// and neither side is negative.
pub open spec fn token_wf(t: TokenInfo) -> bool {
    &&& 0 <= t.total_supply
    &&& 0 <= t.total_burned
    &&& t.total_supply + t.total_burned == t.initial_supply
}

/// One tracked balance: the amount a holder has of a token, keyed by the
/// token's sequential index and the holder's address. A pair that has no
/// entry is treated as holding zero.
#[derive(Clone, Copy, Debug, PartialEq, Eq, Structural)]
pub struct BalanceEntry {
    pub token_index: u32,
    pub holder: Address,
    pub amount: i128,
}

/// A pair of optional fee changes, for updating both fees in one call.
#[derive(Clone, Copy, Debug, PartialEq, Eq, Structural)]
pub struct FeeUpdate {
    pub base_fee: Option<i128>,
    pub metadata_fee: Option<i128>,
}

/// A structured notification record, appended to the factory's event log
/// after each successful state change. The log is append-only and is
/// consumed by an external observer; it is not read back by any operation.
#[derive(Clone, Copy, Debug, PartialEq, Eq, Structural)]
pub enum Event {
    Initialized { admin: Address, treasury: Address, base_fee: i128, metadata_fee: i128 },
    TokenRegistered { token_address: Address, creator: Address },
    AdminTransfer { old_admin: Address, new_admin: Address },
    Paused { admin: Address },
    Unpaused { admin: Address },
    FeesUpdated { base_fee: i128, metadata_fee: i128 },
    ClawbackToggled { token_address: Address, admin: Address, enabled: bool },
    Burn { token_index: u32, caller: Address, amount: i128, new_supply: i128 },
    AdminBurn { token_index: u32, admin: Address, holder: Address, amount: i128, new_supply: i128 },
    BatchBurn { token_index: u32, admin: Address, count: u32, total_burned: i128, new_supply: i128 },
}

/// Contract error codes, returned as values; no operation panics on a bad
/// input. Only the named kinds are the contract, not any numbering.
#[derive(Clone, Copy, Debug, PartialEq, Eq, Structural)]
pub enum Error {
    InsufficientFee,
    Unauthorized,
    InvalidParameters,
    TokenNotFound,
    MetadataAlreadySet,
    AlreadyInitialized,
    InsufficientBalance,
    ArithmeticError,
    BatchTooLarge,
    InvalidAmount,
    ClawbackDisabled,
    InvalidBurnAmount,
    BurnAmountExceedsBalance,
    ContractPaused,
    MissingAdmin,
    MissingTreasury,
    InvalidBaseFee,
    InvalidMetadataFee,
    InconsistentTokenCount,
}

} // verus!
