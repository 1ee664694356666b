//! State-management core of a token-issuance registry.
//!
//! A single authoritative ledger tracks an administrative configuration
//! (admin, treasury, fees, pause flag) and a set of issued-token records,
//! each with its own supply, per-holder balances, and destructive burn
//! operations. Every operation is a synchronous function from the current
//! state and its inputs to the new state and a result; on any failure the
//! state is guaranteed unchanged.
//!
//! The host environment that invokes these operations is responsible for
//! persistence, for serializing calls, and for authenticating the caller
//! whose address each operation receives; the registry checks that the
//! authenticated caller is also authorized.

use vstd::prelude::*;

pub mod burn;
pub mod events;
pub mod storage;
pub mod types;
pub mod validation;

use crate::storage::balances_unique;
use crate::types::{Address, BalanceEntry, ContractMetadata, Error, Event, FactoryState, TokenInfo, token_wf};
use vstd::string::StringExecFns;

verus! {

/// The token factory: the registry configuration, the issued-token records,
/// the tracked balances, and the append-only notification log.
///
/// The configuration fields are absent until `initialize` runs, then present
/// for the registry's lifetime.
pub struct TokenFactory {
    pub admin: Option<Address>,
    pub treasury: Option<Address>,
    pub base_fee: Option<i128>,
    pub metadata_fee: Option<i128>,
    pub paused: bool,
    pub token_count: u32,
    pub tokens: Vec<TokenInfo>,
    pub balances: Vec<BalanceEntry>,
    pub events: Vec<Event>,
}

impl TokenFactory {
    /// The global well-formedness invariant: every stored token record
    /// conserves supply, and balances are keyed uniquely. Every operation
    /// preserves it.
    pub open spec fn wf(self) -> bool {
        &&& forall|i: int| 0 <= i < self.tokens@.len() ==> token_wf(#[trigger] self.tokens@[i])
        &&& balances_unique(self.balances@)
    }

    /// Whether `initialize` has completed: the whole configuration is
    /// present. Admin-gated and token operations demand it.
    pub open spec fn is_initialized(self) -> bool {
        &&& self.admin is Some
        &&& self.treasury is Some
        &&& self.base_fee is Some
        &&& self.metadata_fee is Some
    }

    /// The configuration invariant: initialized, with both fees
    /// non-negative. `initialize` establishes it and every operation
    /// preserves it.
    pub open spec fn config_wf(self) -> bool {
        &&& self.is_initialized()
        &&& self.base_fee.unwrap() >= 0
        &&& self.metadata_fee.unwrap() >= 0
    }

    /// The balance consistency invariant for one token: the tracked
    /// balances of the token sum to its circulating supply.
    pub open spec fn balances_consistent(self, token_index: u32) -> bool {
        token_index < self.tokens@.len() ==> storage::sum_for(self.balances@, token_index)
            == self.tokens@[token_index as int].total_supply
    }

    /// An empty, uninitialized factory.
    pub fn new() -> (f: TokenFactory)
        ensures
            f.admin is None,
            f.treasury is None,
            f.base_fee is None,
            f.metadata_fee is None,
            !f.paused,
            f.token_count == 0,
            f.tokens@ =~= Seq::<TokenInfo>::empty(),
            f.balances@ =~= Seq::<BalanceEntry>::empty(),
            f.events@ =~= Seq::<Event>::empty(),
            f.wf(),
            !f.is_initialized(),
    {
        TokenFactory {
            admin: None,
            treasury: None,
            base_fee: None,
            metadata_fee: None,
            paused: false,
            token_count: 0,
            tokens: Vec::new(),
            balances: Vec::new(),
            events: Vec::new(),
        }
    }
}

impl TokenFactory {
    /// Initialize the factory with its administrative addresses and fee
    /// structure. Succeeds exactly once: a second call fails with
    /// `AlreadyInitialized` and leaves the first configuration untouched.
    pub fn initialize(
        &mut self,
        admin: Address,
        treasury: Address,
        base_fee: i128,
        metadata_fee: i128,
    ) -> (r: Result<(), Error>)
        requires
            old(self).wf(),
        ensures
            final(self).wf(),
            counters_monotone(old(self).tokens@, final(self).tokens@),
            r == if old(self).admin is Some {
                Err::<(), Error>(Error::AlreadyInitialized)
            } else if base_fee < 0 || metadata_fee < 0 {
                Err::<(), Error>(Error::InvalidParameters)
            } else {
                Ok::<(), Error>(())
            },
            r is Err ==> same_factory(*old(self), *final(self)),
            r is Ok ==> {
                &&& final(self).admin == Some(admin)
                &&& final(self).treasury == Some(treasury)
                &&& final(self).base_fee == Some(base_fee)
                &&& final(self).metadata_fee == Some(metadata_fee)
                &&& !final(self).paused
                &&& final(self).is_initialized()
                &&& same_tokens(*old(self), *final(self))
                &&& same_balances(*old(self), *final(self))
                &&& final(self).events@ == old(self).events@.push(
                    Event::Initialized { admin, treasury, base_fee, metadata_fee },
                )
            },
    {
        if storage::has_admin(self) {
            return Err(Error::AlreadyInitialized);
        }
        if base_fee < 0 || metadata_fee < 0 {
            return Err(Error::InvalidParameters);
        }
        storage::set_admin(self, admin);
        storage::set_treasury(self, treasury);
        storage::set_base_fee(self, base_fee);
        storage::set_metadata_fee(self, metadata_fee);
        storage::set_paused(self, false);
        events::emit_initialized(self, admin, treasury, base_fee, metadata_fee);
        Ok(())
    }

    /// A read-only snapshot of the configuration; no authorization, no side
    /// effects.
    pub fn get_state(&self) -> (r: FactoryState)
        requires
            self.is_initialized(),
        ensures
            self.admin == Some(r.admin),
            self.treasury == Some(r.treasury),
            self.base_fee == Some(r.base_fee),
            self.metadata_fee == Some(r.metadata_fee),
            r.paused == self.paused,
    {
        storage::get_factory_state(self)
    }

    /// The base fee charged for a token deployment.
    pub fn get_base_fee(&self) -> (r: i128)
        requires
            self.base_fee is Some,
        ensures
            self.base_fee == Some(r),
    {
        storage::get_base_fee(self)
    }

    /// The additional fee charged for deploying with metadata.
    pub fn get_metadata_fee(&self) -> (r: i128)
        requires
            self.metadata_fee is Some,
        ensures
            self.metadata_fee == Some(r),
    {
        storage::get_metadata_fee(self)
    }

    /// Transfer admin rights to a new address. Only the stored admin may
    /// call this, and the new admin must differ from the caller.
    pub fn transfer_admin(&mut self, current_admin: Address, new_admin: Address) -> (r: Result<
        (),
        Error,
    >)
        requires
            old(self).wf(),
            old(self).config_wf(),
        ensures
            final(self).wf(),
            final(self).config_wf(),
            counters_monotone(old(self).tokens@, final(self).tokens@),
            r == if old(self).admin != Some(current_admin) {
                Err::<(), Error>(Error::Unauthorized)
            } else if new_admin == current_admin {
                Err::<(), Error>(Error::InvalidParameters)
            } else {
                Ok::<(), Error>(())
            },
            r is Err ==> same_factory(*old(self), *final(self)),
            r is Ok ==> {
                &&& final(self).admin == Some(new_admin)
                &&& final(self).treasury == old(self).treasury
                &&& final(self).base_fee == old(self).base_fee
                &&& final(self).metadata_fee == old(self).metadata_fee
                &&& final(self).paused == old(self).paused
                &&& same_tokens(*old(self), *final(self))
                &&& same_balances(*old(self), *final(self))
                &&& final(self).events@ == old(self).events@.push(
                    Event::AdminTransfer { old_admin: current_admin, new_admin },
                )
            },
    {
        let stored_admin = storage::get_admin(self);
        if current_admin != stored_admin {
            return Err(Error::Unauthorized);
        }
        if new_admin == current_admin {
            return Err(Error::InvalidParameters);
        }
        storage::set_admin(self, new_admin);
        validation::validate_admin(self)?;
        events::emit_admin_transfer(self, current_admin, new_admin);
        Ok(())
    }

    /// Pause the registry. Admin only; administrative operations remain
    /// callable while paused — pausing gates creator-facing configuration,
    /// not administration.
    pub fn pause(&mut self, admin: Address) -> (r: Result<(), Error>)
        requires
            old(self).wf(),
            old(self).config_wf(),
        ensures
            final(self).wf(),
            final(self).config_wf(),
            counters_monotone(old(self).tokens@, final(self).tokens@),
            r == if old(self).admin != Some(admin) {
                Err::<(), Error>(Error::Unauthorized)
            } else {
                Ok::<(), Error>(())
            },
            r is Err ==> same_factory(*old(self), *final(self)),
            r is Ok ==> {
                &&& final(self).paused
                &&& final(self).admin == old(self).admin
                &&& final(self).treasury == old(self).treasury
                &&& final(self).base_fee == old(self).base_fee
                &&& final(self).metadata_fee == old(self).metadata_fee
                &&& same_tokens(*old(self), *final(self))
                &&& same_balances(*old(self), *final(self))
                &&& final(self).events@ == old(self).events@.push(Event::Paused { admin })
            },
    {
        let current_admin = storage::get_admin(self);
        if admin != current_admin {
            return Err(Error::Unauthorized);
        }
        storage::set_paused(self, true);
        events::emit_pause(self, admin);
        Ok(())
    }

    /// Resume normal operation after a pause. Admin only.
    pub fn unpause(&mut self, admin: Address) -> (r: Result<(), Error>)
        requires
            old(self).wf(),
            old(self).config_wf(),
        ensures
            final(self).wf(),
            final(self).config_wf(),
            counters_monotone(old(self).tokens@, final(self).tokens@),
            r == if old(self).admin != Some(admin) {
                Err::<(), Error>(Error::Unauthorized)
            } else {
                Ok::<(), Error>(())
            },
            r is Err ==> same_factory(*old(self), *final(self)),
            r is Ok ==> {
                &&& !final(self).paused
                &&& final(self).admin == old(self).admin
                &&& final(self).treasury == old(self).treasury
                &&& final(self).base_fee == old(self).base_fee
                &&& final(self).metadata_fee == old(self).metadata_fee
                &&& same_tokens(*old(self), *final(self))
                &&& same_balances(*old(self), *final(self))
                &&& final(self).events@ == old(self).events@.push(Event::Unpaused { admin })
            },
    {
        let current_admin = storage::get_admin(self);
        if admin != current_admin {
            return Err(Error::Unauthorized);
        }
        storage::set_paused(self, false);
        events::emit_unpause(self, admin);
        Ok(())
    }

    /// Whether the registry is currently paused.
    pub fn is_paused(&self) -> (r: bool)
        ensures
            r == self.paused,
    {
        storage::is_paused(self)
    }

    /// Update either or both deployment fees. Admin only; at least one fee
    /// must be supplied and every supplied fee must be non-negative. All
    /// inputs are validated before anything is written.
    pub fn update_fees(
        &mut self,
        admin: Address,
        base_fee: Option<i128>,
        metadata_fee: Option<i128>,
    ) -> (r: Result<(), Error>)
        requires
            old(self).wf(),
            old(self).config_wf(),
        ensures
            final(self).wf(),
            final(self).config_wf(),
            counters_monotone(old(self).tokens@, final(self).tokens@),
            r == if old(self).admin != Some(admin) {
                Err::<(), Error>(Error::Unauthorized)
            } else if (base_fee is None && metadata_fee is None) || (base_fee is Some
                && base_fee.unwrap() < 0) || (metadata_fee is Some && metadata_fee.unwrap() < 0) {
                Err::<(), Error>(Error::InvalidParameters)
            } else {
                Ok::<(), Error>(())
            },
            r is Err ==> same_factory(*old(self), *final(self)),
            r is Ok ==> {
                &&& final(self).base_fee == if base_fee is Some {
                    base_fee
                } else {
                    old(self).base_fee
                }
                &&& final(self).metadata_fee == if metadata_fee is Some {
                    metadata_fee
                } else {
                    old(self).metadata_fee
                }
                &&& final(self).admin == old(self).admin
                &&& final(self).treasury == old(self).treasury
                &&& final(self).paused == old(self).paused
                &&& same_tokens(*old(self), *final(self))
                &&& same_balances(*old(self), *final(self))
                &&& final(self).events@ == old(self).events@.push(
                    Event::FeesUpdated {
                        base_fee: final(self).base_fee.unwrap(),
                        metadata_fee: final(self).metadata_fee.unwrap(),
                    },
                )
            },
    {
        let current_admin = storage::get_admin(self);
        if admin != current_admin {
            return Err(Error::Unauthorized);
        }
        if base_fee.is_none() && metadata_fee.is_none() {
            return Err(Error::InvalidParameters);
        }
        if let Some(fee) = base_fee {
            if fee < 0 {
                return Err(Error::InvalidParameters);
            }
        }
        if let Some(fee) = metadata_fee {
            if fee < 0 {
                return Err(Error::InvalidParameters);
            }
        }
        storage::batch_update_fees(self, base_fee, metadata_fee);
        validation::validate_fees(self)?;
        let new_base_fee = storage::get_base_fee(self);
        let new_metadata_fee = storage::get_metadata_fee(self);
        events::emit_fees_updated(self, new_base_fee, new_metadata_fee);
        Ok(())
    }

    /// Commit any combination of fee and pause changes in one pass. Admin
    /// only; at least one field must be supplied, and all supplied fields
    /// are validated before anything is written.
    pub fn batch_update_admin(
        &mut self,
        admin: Address,
        base_fee: Option<i128>,
        metadata_fee: Option<i128>,
        paused: Option<bool>,
    ) -> (r: Result<(), Error>)
        requires
            old(self).wf(),
            old(self).config_wf(),
        ensures
            final(self).wf(),
            final(self).config_wf(),
            counters_monotone(old(self).tokens@, final(self).tokens@),
            r == if old(self).admin != Some(admin) {
                Err::<(), Error>(Error::Unauthorized)
            } else if (base_fee is None && metadata_fee is None && paused is None) || (base_fee
                is Some && base_fee.unwrap() < 0) || (metadata_fee is Some
                && metadata_fee.unwrap() < 0) {
                Err::<(), Error>(Error::InvalidParameters)
            } else {
                Ok::<(), Error>(())
            },
            r is Err ==> same_factory(*old(self), *final(self)),
            r is Ok ==> {
                &&& final(self).base_fee == if base_fee is Some {
                    base_fee
                } else {
                    old(self).base_fee
                }
                &&& final(self).metadata_fee == if metadata_fee is Some {
                    metadata_fee
                } else {
                    old(self).metadata_fee
                }
                &&& final(self).paused == if paused is Some {
                    paused.unwrap()
                } else {
                    old(self).paused
                }
                &&& final(self).admin == old(self).admin
                &&& final(self).treasury == old(self).treasury
                &&& same_tokens(*old(self), *final(self))
                &&& same_balances(*old(self), *final(self))
                &&& final(self).events@ == old(self).events@.push(
                    Event::FeesUpdated {
                        base_fee: final(self).base_fee.unwrap(),
                        metadata_fee: final(self).metadata_fee.unwrap(),
                    },
                )
            },
    {
        let current_admin = storage::get_admin(self);
        if admin != current_admin {
            return Err(Error::Unauthorized);
        }
        if base_fee.is_none() && metadata_fee.is_none() && paused.is_none() {
            return Err(Error::InvalidParameters);
        }
        if let Some(fee) = base_fee {
            if fee < 0 {
                return Err(Error::InvalidParameters);
            }
        }
        if let Some(fee) = metadata_fee {
            if fee < 0 {
                return Err(Error::InvalidParameters);
            }
        }
        storage::batch_update_fees(self, base_fee, metadata_fee);
        if let Some(pause_state) = paused {
            storage::set_paused(self, pause_state);
        }
        validation::validate_fees(self)?;
        let final_base_fee = storage::get_base_fee(self);
        let final_metadata_fee = storage::get_metadata_fee(self);
        events::emit_fees_updated(self, final_base_fee, final_metadata_fee);
        Ok(())
    }

    /// The number of tokens registered through the factory.
    pub fn get_token_count(&self) -> (r: u32)
        ensures
            r == self.token_count,
    {
        storage::get_token_count(self)
    }

    /// Token information by sequential index.
    pub fn get_token_info(&self, index: u32) -> (r: Result<TokenInfo, Error>)
        ensures
            r == if index < self.tokens@.len() {
                Ok::<TokenInfo, Error>(self.tokens@[index as int])
            } else {
                Err::<TokenInfo, Error>(Error::TokenNotFound)
            },
    {
        match storage::get_token_info(self, index) {
            Some(info) => Ok(info),
            None => Err(Error::TokenNotFound),
        }
    }

    /// Token information by the token's own address.
    pub fn get_token_info_by_address(&self, token_address: Address) -> (r: Result<
        TokenInfo,
        Error,
    >)
        ensures
            r == if storage::has_token_addr(self.tokens@, token_address) {
                Ok::<TokenInfo, Error>(
                    self.tokens@[storage::token_addr_index(self.tokens@, token_address)],
                )
            } else {
                Err::<TokenInfo, Error>(Error::TokenNotFound)
            },
    {
        match storage::find_token_by_address(self, token_address) {
            Some(i) => Ok(storage::copy_info(&self.tokens[i])),
            None => Err(Error::TokenNotFound),
        }
    }

    /// Enable or disable clawback for a token. Creator only, and refused
    /// while the registry is paused; the setting can be toggled without
    /// limit.
    pub fn set_clawback(&mut self, token_address: Address, admin: Address, enabled: bool) -> (r:
        Result<(), Error>)
        requires
            old(self).wf(),
            old(self).config_wf(),
        ensures
            final(self).wf(),
            final(self).config_wf(),
            counters_monotone(old(self).tokens@, final(self).tokens@),
            r == if old(self).paused {
                Err::<(), Error>(Error::ContractPaused)
            } else if !storage::has_token_addr(old(self).tokens@, token_address) {
                Err::<(), Error>(Error::TokenNotFound)
            } else if old(self).tokens@[storage::token_addr_index(
                old(self).tokens@,
                token_address,
            )].creator != admin {
                Err::<(), Error>(Error::Unauthorized)
            } else {
                Ok::<(), Error>(())
            },
            r is Err ==> same_factory(*old(self), *final(self)),
            r is Ok ==> {
                let i = storage::token_addr_index(old(self).tokens@, token_address);
                &&& final(self).tokens@ == old(self).tokens@.update(
                    i,
                    TokenInfo { clawback_enabled: enabled, ..old(self).tokens@[i] },
                )
                &&& final(self).token_count == old(self).token_count
                &&& same_config(*old(self), *final(self))
                &&& same_balances(*old(self), *final(self))
                &&& final(self).events@ == old(self).events@.push(
                    Event::ClawbackToggled { token_address, admin, enabled },
                )
            },
    {
        if storage::is_paused(self) {
            return Err(Error::ContractPaused);
        }
        let i = match storage::find_token_by_address(self, token_address) {
            Some(i) => i,
            None => {
                return Err(Error::TokenNotFound);
            },
        };
        if self.tokens[i].creator != admin {
            return Err(Error::Unauthorized);
        }
        self.tokens[i].clawback_enabled = enabled;
        proof {
            assert(self.tokens@ =~= old(self).tokens@.update(
                i as int,
                TokenInfo { clawback_enabled: enabled, ..old(self).tokens@[i as int] },
            ));
        }
        events::emit_clawback_toggled(self, token_address, admin, enabled);
        Ok(())
    }

    /// Burn tokens from the caller's own balance; see [`burn::burn`].
    pub fn burn(&mut self, caller: Address, token_index: u32, amount: i128) -> (r: Result<
        (),
        Error,
    >)
        requires
            old(self).wf(),
            old(self).is_initialized(),
        ensures
            final(self).wf(),
            final(self).is_initialized(),
            counters_monotone(old(self).tokens@, final(self).tokens@),
            r == burn::burn_result(*old(self), caller, token_index, amount),
            r is Err ==> same_factory(*old(self), *final(self)),
            r is Ok ==> burn::burn_applied(
                *old(self),
                *final(self),
                caller,
                token_index,
                amount,
                Event::Burn {
                    token_index,
                    caller,
                    amount,
                    new_supply: (old(self).tokens@[token_index as int].total_supply
                        - amount) as i128,
                },
            ),
            r is Ok && old(self).balances_consistent(token_index)
                ==> final(self).balances_consistent(token_index),
    {
        burn::burn(self, caller, token_index, amount)
    }

    /// Creator-initiated clawback burn; see [`burn::admin_burn`].
    pub fn admin_burn(
        &mut self,
        caller: Address,
        token_index: u32,
        holder: Address,
        amount: i128,
    ) -> (r: Result<(), Error>)
        requires
            old(self).wf(),
            old(self).is_initialized(),
        ensures
            final(self).wf(),
            final(self).is_initialized(),
            counters_monotone(old(self).tokens@, final(self).tokens@),
            r == burn::admin_burn_result(*old(self), caller, token_index, holder, amount),
            r is Err ==> same_factory(*old(self), *final(self)),
            r is Ok ==> burn::burn_applied(
                *old(self),
                *final(self),
                holder,
                token_index,
                amount,
                Event::AdminBurn {
                    token_index,
                    admin: caller,
                    holder,
                    amount,
                    new_supply: (old(self).tokens@[token_index as int].total_supply
                        - amount) as i128,
                },
            ),
            r is Ok && old(self).balances_consistent(token_index)
                ==> final(self).balances_consistent(token_index),
    {
        burn::admin_burn(self, caller, token_index, holder, amount)
    }

    /// All-or-nothing burn from multiple holders; see [`burn::batch_burn`].
    pub fn batch_burn(
        &mut self,
        admin: Address,
        token_index: u32,
        burns: Vec<(Address, i128)>,
    ) -> (r: Result<(), Error>)
        requires
            old(self).wf(),
            old(self).is_initialized(),
        ensures
            final(self).wf(),
            final(self).is_initialized(),
            counters_monotone(old(self).tokens@, final(self).tokens@),
            r == burn::batch_burn_result(*old(self), admin, token_index, burns@),
            r is Err ==> same_factory(*old(self), *final(self)),
            r is Ok ==> ({
                let total = burn::batch_total(burns@);
                let t = old(self).tokens@[token_index as int];
                &&& final(self).tokens@ == old(self).tokens@.update(
                    token_index as int,
                    TokenInfo {
                        total_supply: (t.total_supply - total) as i128,
                        total_burned: (t.total_burned + total) as i128,
                        burn_count: (t.burn_count + 1) as u32,
                        ..t
                    },
                )
                &&& final(self).token_count == old(self).token_count
                &&& same_config(*old(self), *final(self))
                &&& forall|h: Address|
                    #[trigger] storage::balance_of(final(self).balances@, token_index, h)
                        == storage::balance_of(old(self).balances@, token_index, h)
                        - burn::burned_for(burns@, h)
                &&& forall|t2: u32, h2: Address|
                    t2 != token_index ==> #[trigger] storage::balance_of(
                        final(self).balances@,
                        t2,
                        h2,
                    ) == storage::balance_of(old(self).balances@, t2, h2)
                &&& forall|tok: u32|
                    #[trigger] storage::sum_for(final(self).balances@, tok) == storage::sum_for(
                        old(self).balances@,
                        tok,
                    ) - if tok == token_index {
                        total
                    } else {
                        0
                    }
                &&& final(self).events@ == old(self).events@.push(
                    Event::BatchBurn {
                        token_index,
                        admin,
                        count: burns@.len() as u32,
                        total_burned: total as i128,
                        new_supply: (t.total_supply - total) as i128,
                    },
                )
            }),
            r is Ok && old(self).balances_consistent(token_index)
                ==> final(self).balances_consistent(token_index),
    {
        burn::batch_burn(self, admin, token_index, burns)
    }

    /// The total number of burn operations recorded for a token.
    pub fn get_burn_count(&self, token_index: u32) -> (r: u32)
        ensures
            r == if token_index < self.tokens@.len() {
                self.tokens@[token_index as int].burn_count
            } else {
                0
            },
    {
        burn::get_burn_count(self, token_index)
    }

    /// A holder's current balance for a token.
    pub fn get_balance(&self, token_index: u32, holder: Address) -> (r: i128)
        ensures
            r == storage::balance_of(self.balances@, token_index, holder),
    {
        burn::get_balance(self, token_index, holder)
    }

    /// The factory's own descriptive metadata. Available before
    /// initialization and independent of any state.
    pub fn get_metadata(&self) -> (r: ContractMetadata)
        ensures
            r.name@ == "Nova Launch Token Factory"@,
            r.description@ == "No-code token deployment on Stellar"@,
            r.author@ == "Nova Launch Team"@,
            r.license@ == "MIT"@,
            r.version@ == "1.0.0"@,
    {
        ContractMetadata {
            name: String::from_str("Nova Launch Token Factory"),
            description: String::from_str("No-code token deployment on Stellar"),
            author: String::from_str("Nova Launch Team"),
            license: String::from_str("MIT"),
            version: String::from_str("1.0.0"),
        }
    }
}

/// Two factory states agree on the whole configuration.
pub open spec fn same_config(a: TokenFactory, b: TokenFactory) -> bool {
    &&& a.admin == b.admin
    &&& a.treasury == b.treasury
    &&& a.base_fee == b.base_fee
    &&& a.metadata_fee == b.metadata_fee
    &&& a.paused == b.paused
}

/// Two factory states agree on the token records and their count.
pub open spec fn same_tokens(a: TokenFactory, b: TokenFactory) -> bool {
    &&& a.token_count == b.token_count
    &&& a.tokens@ == b.tokens@
}

/// Two factory states agree on the tracked balances.
pub open spec fn same_balances(a: TokenFactory, b: TokenFactory) -> bool {
    a.balances@ == b.balances@
}

/// Two factory states agree on the event log.
pub open spec fn same_events(a: TokenFactory, b: TokenFactory) -> bool {
    a.events@ == b.events@
}

/// Two factory states agree on everything: configuration, records, balances
/// and the event log. An operation that fails leaves the state in this
/// relation to the state it started from.
pub open spec fn same_factory(a: TokenFactory, b: TokenFactory) -> bool {
    &&& same_config(a, b)
    &&& same_tokens(a, b)
    &&& same_balances(a, b)
    &&& same_events(a, b)
}

/// The per-token burn counters never decrease, and records are never
/// deleted, going from the records `a` to the records `b`.
pub open spec fn counters_monotone(a: Seq<TokenInfo>, b: Seq<TokenInfo>) -> bool {
    &&& a.len() <= b.len()
    &&& forall|i: int|
        0 <= i < a.len() ==> #[trigger] b[i].total_burned >= a[i].total_burned && b[i].burn_count
            >= a[i].burn_count
}

/// Monotonicity composes: across any sequence of operations, each of which
/// moves the records monotonically, the burn counters never decrease from
/// the first state to the last.
pub proof fn lemma_counters_monotone_trans(a: Seq<TokenInfo>, b: Seq<TokenInfo>, c: Seq<TokenInfo>)
    requires
        counters_monotone(a, b),
        counters_monotone(b, c),
    ensures
        counters_monotone(a, c),
{
}

/// Supply conservation, read off the invariant: in any well-formed state,
/// every token's circulating supply plus its cumulative burned amount
/// equals its originally issued amount.
pub proof fn lemma_supply_conservation(f: TokenFactory, i: int)
    requires
        f.wf(),
        0 <= i < f.tokens@.len(),
    ensures
        f.tokens@[i].total_supply + f.tokens@[i].total_burned == f.tokens@[i].initial_supply,
{
}

} // verus!
