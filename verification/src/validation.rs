//! State validation.
//!
//! Pure invariant checkers over the store, used at initialization and
//! update boundaries and available for full-state auditing: admin presence,
//! treasury presence, fee non-negativity, and token-count consistency, plus
//! a composite that runs all four in increasing cost order so the cheapest
//! failure is reported first.

use vstd::prelude::*;

use crate::TokenFactory;
use crate::storage;
use crate::types::Error;

verus! {

/// The result the composite validation owes: the first failure in check
/// order, or success.
pub open spec fn state_validation_result(f: TokenFactory) -> Result<(), Error> {
    if f.admin is None {
        Err(Error::MissingAdmin)
    } else if f.treasury is None {
        Err(Error::MissingTreasury)
    } else if f.base_fee.unwrap() < 0 {
        Err(Error::InvalidBaseFee)
    } else if f.metadata_fee.unwrap() < 0 {
        Err(Error::InvalidMetadataFee)
    } else if f.token_count > f.tokens@.len() {
        Err(Error::InconsistentTokenCount)
    } else {
        Ok(())
    }
}

/// Validates that the admin address is set.
pub fn validate_admin(f: &TokenFactory) -> (r: Result<(), Error>)
    ensures
        r == if f.admin is None {
            Err::<(), Error>(Error::MissingAdmin)
        } else {
            Ok::<(), Error>(())
        },
{
    if !storage::has_admin(f) {
        return Err(Error::MissingAdmin);
    }
    Ok(())
}

/// Validates that the treasury address is set.
pub fn validate_treasury(f: &TokenFactory) -> (r: Result<(), Error>)
    ensures
        r == if f.treasury is None {
            Err::<(), Error>(Error::MissingTreasury)
        } else {
            Ok::<(), Error>(())
        },
{
    if f.treasury.is_none() {
        return Err(Error::MissingTreasury);
    }
    Ok(())
}

/// Validates that both fees are non-negative, the base fee checked first.
pub fn validate_fees(f: &TokenFactory) -> (r: Result<(), Error>)
    requires
        f.base_fee is Some,
        f.metadata_fee is Some,
    ensures
        r == if f.base_fee.unwrap() < 0 {
            Err::<(), Error>(Error::InvalidBaseFee)
        } else if f.metadata_fee.unwrap() < 0 {
            Err::<(), Error>(Error::InvalidMetadataFee)
        } else {
            Ok::<(), Error>(())
        },
{
    let base_fee = storage::get_base_fee(f);
    if base_fee < 0 {
        return Err(Error::InvalidBaseFee);
    }
    let metadata_fee = storage::get_metadata_fee(f);
    if metadata_fee < 0 {
        return Err(Error::InvalidMetadataFee);
    }
    Ok(())
}

/// Validates that the stored token count is consistent with the records
/// actually stored: every index below the count must hold a record.
pub fn validate_token_count(f: &TokenFactory) -> (r: Result<(), Error>)
    ensures
        r == if f.token_count <= f.tokens@.len() {
            Ok::<(), Error>(())
        } else {
            Err::<(), Error>(Error::InconsistentTokenCount)
        },
{
    let token_count = storage::get_token_count(f);
    let mut actual_count: u32 = 0;
    let mut i: u32 = 0;
    while i < token_count
        invariant
            i <= token_count,
            token_count == f.token_count,
            actual_count == if i as int <= f.tokens@.len() {
                i as int
            } else {
                f.tokens@.len() as int
            },
        decreases token_count - i,
    {
        if storage::get_token_info(f, i).is_some() {
            actual_count += 1;
        }
        i += 1;
    }
    if actual_count != token_count {
        return Err(Error::InconsistentTokenCount);
    }
    Ok(())
}

/// Comprehensive validation of all state invariants, in order of
/// increasing cost: admin, treasury, fees, token count. The first failure
/// is returned.
pub fn validate_state(f: &TokenFactory) -> (r: Result<(), Error>)
    requires
        (f.admin is Some && f.treasury is Some) ==> (f.base_fee is Some
            && f.metadata_fee is Some),
    ensures
        r == state_validation_result(*f),
{
    validate_admin(f)?;
    validate_treasury(f)?;
    validate_fees(f)?;
    validate_token_count(f)?;
    Ok(())
}

} // verus!
