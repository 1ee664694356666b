//! Notification records.
//!
//! Each successful mutating operation appends exactly one structured record
//! to the factory's append-only event log; read-only operations append
//! none. The log stands in for an external notification sink: it is written
//! here and consumed out of process, and no operation reads it back.

use vstd::prelude::*;

use crate::TokenFactory;
use crate::same_balances;
use crate::same_config;
use crate::same_tokens;
use crate::types::{Address, Event};

verus! {

/// Append one record to the log, leaving all other state untouched.
fn emit(f: &mut TokenFactory, event: Event)
    ensures
        same_config(*old(f), *final(f)),
        same_tokens(*old(f), *final(f)),
        same_balances(*old(f), *final(f)),
        final(f).events@ == old(f).events@.push(event),
{
    f.events.push(event);
}

/// Emitted when the factory is first initialized.
pub fn emit_initialized(
    f: &mut TokenFactory,
    admin: Address,
    treasury: Address,
    base_fee: i128,
    metadata_fee: i128,
)
    ensures
        same_config(*old(f), *final(f)),
        same_tokens(*old(f), *final(f)),
        same_balances(*old(f), *final(f)),
        final(f).events@ == old(f).events@.push(
            Event::Initialized { admin, treasury, base_fee, metadata_fee },
        ),
{
    emit(f, Event::Initialized { admin, treasury, base_fee, metadata_fee });
}

/// Emitted when a new token is registered.
pub fn emit_token_registered(f: &mut TokenFactory, token_address: Address, creator: Address)
    ensures
        same_config(*old(f), *final(f)),
        same_tokens(*old(f), *final(f)),
        same_balances(*old(f), *final(f)),
        final(f).events@ == old(f).events@.push(Event::TokenRegistered { token_address, creator }),
{
    emit(f, Event::TokenRegistered { token_address, creator });
}

/// Emitted when admin rights move to a new address.
pub fn emit_admin_transfer(f: &mut TokenFactory, old_admin: Address, new_admin: Address)
    ensures
        same_config(*old(f), *final(f)),
        same_tokens(*old(f), *final(f)),
        same_balances(*old(f), *final(f)),
        final(f).events@ == old(f).events@.push(Event::AdminTransfer { old_admin, new_admin }),
{
    emit(f, Event::AdminTransfer { old_admin, new_admin });
}

/// Emitted when the contract is paused.
pub fn emit_pause(f: &mut TokenFactory, admin: Address)
    ensures
        same_config(*old(f), *final(f)),
        same_tokens(*old(f), *final(f)),
        same_balances(*old(f), *final(f)),
        final(f).events@ == old(f).events@.push(Event::Paused { admin }),
{
    emit(f, Event::Paused { admin });
}

/// Emitted when the contract is unpaused.
pub fn emit_unpause(f: &mut TokenFactory, admin: Address)
    ensures
        same_config(*old(f), *final(f)),
        same_tokens(*old(f), *final(f)),
        same_balances(*old(f), *final(f)),
        final(f).events@ == old(f).events@.push(Event::Unpaused { admin }),
{
    emit(f, Event::Unpaused { admin });
}

/// Emitted with the resulting fee pair after a fee update.
pub fn emit_fees_updated(f: &mut TokenFactory, base_fee: i128, metadata_fee: i128)
    ensures
        same_config(*old(f), *final(f)),
        same_tokens(*old(f), *final(f)),
        same_balances(*old(f), *final(f)),
        final(f).events@ == old(f).events@.push(Event::FeesUpdated { base_fee, metadata_fee }),
{
    emit(f, Event::FeesUpdated { base_fee, metadata_fee });
}

/// Emitted when a token's creator toggles its clawback capability.
pub fn emit_clawback_toggled(
    f: &mut TokenFactory,
    token_address: Address,
    admin: Address,
    enabled: bool,
)
    ensures
        same_config(*old(f), *final(f)),
        same_tokens(*old(f), *final(f)),
        same_balances(*old(f), *final(f)),
        final(f).events@ == old(f).events@.push(
            Event::ClawbackToggled { token_address, admin, enabled },
        ),
{
    emit(f, Event::ClawbackToggled { token_address, admin, enabled });
}

} // verus!
