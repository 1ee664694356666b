//! The burn engine: self-service burns, creator-initiated clawback burns,
//! and all-or-nothing batch burns.
//!
//! Every entry point runs as one unit — authorize, validate, compute the
//! whole new state with checked arithmetic, then commit and notify — and on
//! any failure commits nothing. A burn moves a holder's balance and the
//! token's circulating supply down by the same amount, books the amount as
//! burned, and counts one more burn operation.

use vstd::prelude::*;

use crate::TokenFactory;
use crate::counters_monotone;
use crate::same_balances;
use crate::same_config;
use crate::same_events;
use crate::same_factory;
use crate::same_tokens;
use crate::storage;
use crate::storage::{balance_of, sum_for};
use crate::types::{Address, BalanceEntry, Error, Event, TokenInfo};

verus! {

/// Maximum number of entries a single batch burn accepts.
pub const MAX_BATCH_BURN: u32 = 100;

/// What `burn` owes: the first failing check in order, or success.
pub open spec fn burn_result(
    f: TokenFactory,
    caller: Address,
    token_index: u32,
    amount: i128,
) -> Result<(), Error> {
    if amount <= 0 {
        Err(Error::InvalidParameters)
    } else if f.tokens@.len() <= token_index {
        Err(Error::TokenNotFound)
    } else if balance_of(f.balances@, token_index, caller) < amount {
        Err(Error::InsufficientBalance)
    } else if f.tokens@[token_index as int].total_supply < amount || f.tokens@[token_index as int].burn_count
        == u32::MAX {
        Err(Error::ArithmeticError)
    } else {
        Ok(())
    }
}

/// What `admin_burn` owes: the token is loaded first, the caller must be
/// its creator, clawback must be enabled, and the amount and the holder's
/// balance are then validated exactly as in `burn`.
pub open spec fn admin_burn_result(
    f: TokenFactory,
    caller: Address,
    token_index: u32,
    holder: Address,
    amount: i128,
) -> Result<(), Error> {
    if f.tokens@.len() <= token_index {
        Err(Error::TokenNotFound)
    } else if f.tokens@[token_index as int].creator != caller {
        Err(Error::Unauthorized)
    } else if !f.tokens@[token_index as int].clawback_enabled {
        Err(Error::ClawbackDisabled)
    } else if amount <= 0 {
        Err(Error::InvalidParameters)
    } else if balance_of(f.balances@, token_index, holder) < amount {
        Err(Error::InsufficientBalance)
    } else if f.tokens@[token_index as int].total_supply < amount || f.tokens@[token_index as int].burn_count
        == u32::MAX {
        Err(Error::ArithmeticError)
    } else {
        Ok(())
    }
}

/// The committed effect every successful single burn has: the holder's
/// balance and the token's supply move down by `amount`, the amount is
/// booked as burned, one more burn operation is counted, every other
/// balance and every other token are untouched, and `event` is the one
/// record appended to the log.
pub open spec fn burn_applied(
    a: TokenFactory,
    b: TokenFactory,
    holder: Address,
    token_index: u32,
    amount: i128,
    event: Event,
) -> bool {
    let t = a.tokens@[token_index as int];
    &&& b.tokens@ == a.tokens@.update(
        token_index as int,
        TokenInfo {
            total_supply: (t.total_supply - amount) as i128,
            total_burned: (t.total_burned + amount) as i128,
            burn_count: (t.burn_count + 1) as u32,
            ..t
        },
    )
    &&& b.token_count == a.token_count
    &&& same_config(a, b)
    &&& balance_of(b.balances@, token_index, holder) == balance_of(
        a.balances@,
        token_index,
        holder,
    ) - amount
    &&& forall|t2: u32, h2: Address|
        !(t2 == token_index && h2 == holder) ==> #[trigger] balance_of(b.balances@, t2, h2)
            == balance_of(a.balances@, t2, h2)
    &&& forall|tok: u32|
        #[trigger] sum_for(b.balances@, tok) == sum_for(a.balances@, tok) - if tok == token_index {
            amount as int
        } else {
            0
        }
    &&& b.events@ == a.events@.push(event)
}

/// The sum of all amounts in a batch.
pub open spec fn batch_total(entries: Seq<(Address, i128)>) -> int
    decreases entries.len(),
{
    if entries.len() == 0 {
        0
    } else {
        entries[0].1 + batch_total(entries.skip(1))
    }
}

/// The part of a batch that one holder carries: the sum of the amounts of
/// that holder's entries.
pub open spec fn burned_for(entries: Seq<(Address, i128)>, holder: Address) -> int
    decreases entries.len(),
{
    if entries.len() == 0 {
        0
    } else {
        (if entries[0].0 == holder {
            entries[0].1 as int
        } else {
            0
        }) + burned_for(entries.skip(1), holder)
    }
}

/// The batch validation pass, entry by entry against the pre-state
/// balances, accumulating the total with overflow-checked addition: the
/// first failure, or the accumulated total.
pub open spec fn batch_check(
    entries: Seq<(Address, i128)>,
    bals: Seq<BalanceEntry>,
    token: u32,
    acc: int,
) -> Result<int, Error>
    decreases entries.len(),
{
    if entries.len() == 0 {
        Ok(acc)
    } else if entries[0].1 <= 0 {
        Err(Error::InvalidParameters)
    } else if balance_of(bals, token, entries[0].0) < entries[0].1 {
        Err(Error::InsufficientBalance)
    } else if acc + entries[0].1 > i128::MAX {
        Err(Error::ArithmeticError)
    } else {
        batch_check(entries.skip(1), bals, token, acc + entries[0].1)
    }
}

/// What `batch_burn` owes: the first failing check in order, or success.
pub open spec fn batch_burn_result(
    f: TokenFactory,
    admin: Address,
    token_index: u32,
    burns: Seq<(Address, i128)>,
) -> Result<(), Error> {
    if f.admin != Some(admin) {
        Err(Error::Unauthorized)
    } else if burns.len() > MAX_BATCH_BURN as int {
        Err(Error::BatchTooLarge)
    } else if burns.len() == 0 {
        Err(Error::InvalidParameters)
    } else if f.tokens@.len() <= token_index {
        Err(Error::TokenNotFound)
    } else {
        match batch_check(burns, f.balances@, token_index, 0) {
            Err(e) => Err(e),
            Ok(total) => if f.tokens@[token_index as int].total_supply < total {
                Err(Error::InsufficientBalance)
            } else if f.tokens@[token_index as int].burn_count == u32::MAX {
                Err(Error::ArithmeticError)
            } else {
                Ok(())
            },
        }
    }
}

proof fn lemma_batch_total_push(s: Seq<(Address, i128)>, e: (Address, i128))
    ensures
        batch_total(s.push(e)) == batch_total(s) + e.1,
    decreases s.len(),
{
    let u = s.push(e);
    if s.len() == 0 {
        assert(u[0] == e);
        assert(u.skip(1) =~= Seq::<(Address, i128)>::empty());
        assert(batch_total(u.skip(1)) == 0);
        assert(batch_total(u) == e.1 + batch_total(u.skip(1)));
        assert(batch_total(s) == 0);
    } else {
        assert(u[0] == s[0]);
        assert(u.skip(1) =~= s.skip(1).push(e));
        lemma_batch_total_push(s.skip(1), e);
        assert(batch_total(u) == u[0].1 + batch_total(u.skip(1)));
        assert(batch_total(s) == s[0].1 + batch_total(s.skip(1)));
    }
}

proof fn lemma_burned_for_push(s: Seq<(Address, i128)>, e: (Address, i128), holder: Address)
    ensures
        burned_for(s.push(e), holder) == burned_for(s, holder) + if e.0 == holder {
            e.1 as int
        } else {
            0
        },
    decreases s.len(),
{
    let u = s.push(e);
    if s.len() == 0 {
        assert(u[0] == e);
        assert(u.skip(1) =~= Seq::<(Address, i128)>::empty());
        assert(burned_for(u.skip(1), holder) == 0);
        assert(burned_for(u, holder) == (if e.0 == holder {
            e.1 as int
        } else {
            0
        }) + burned_for(u.skip(1), holder));
        assert(burned_for(s, holder) == 0);
    } else {
        assert(u[0] == s[0]);
        assert(u.skip(1) =~= s.skip(1).push(e));
        lemma_burned_for_push(s.skip(1), e, holder);
        assert(burned_for(u, holder) == (if u[0].0 == holder {
            u[0].1 as int
        } else {
            0
        }) + burned_for(u.skip(1), holder));
        assert(burned_for(s, holder) == (if s[0].0 == holder {
            s[0].1 as int
        } else {
            0
        }) + burned_for(s.skip(1), holder));
    }
}

/// With every amount positive, what one holder carries lies between zero
/// and the batch total.
pub proof fn lemma_burned_for_bounds(s: Seq<(Address, i128)>, holder: Address)
    requires
        forall|i: int| 0 <= i < s.len() ==> (#[trigger] s[i]).1 > 0,
    ensures
        0 <= burned_for(s, holder) <= batch_total(s),
    decreases s.len(),
{
    if s.len() > 0 {
        assert forall|i: int| 0 <= i < s.skip(1).len() implies (#[trigger] s.skip(1)[i]).1 > 0 by {
            assert(s.skip(1)[i] == s[i + 1]);
        }
        lemma_burned_for_bounds(s.skip(1), holder);
        assert(s[0].1 > 0);
    }
}

proof fn lemma_batch_total_nonneg(s: Seq<(Address, i128)>)
    requires
        forall|i: int| 0 <= i < s.len() ==> (#[trigger] s[i]).1 > 0,
    ensures
        0 <= batch_total(s),
    decreases s.len(),
{
    if s.len() > 0 {
        assert forall|i: int| 0 <= i < s.skip(1).len() implies (#[trigger] s.skip(1)[i]).1 > 0 by {
            assert(s.skip(1)[i] == s[i + 1]);
        }
        lemma_batch_total_nonneg(s.skip(1));
        assert(s[0].1 > 0);
    }
}

proof fn lemma_batch_total_take_le(s: Seq<(Address, i128)>, k: int)
    requires
        0 <= k <= s.len(),
        forall|i: int| 0 <= i < s.len() ==> (#[trigger] s[i]).1 > 0,
    ensures
        0 <= batch_total(s.take(k)) <= batch_total(s),
    decreases s.len() - k,
{
    assert forall|i: int| 0 <= i < s.take(k).len() implies (#[trigger] s.take(k)[i]).1 > 0 by {
        assert(s.take(k)[i] == s[i]);
    }
    lemma_batch_total_nonneg(s.take(k));
    if k == s.len() {
        assert(s.take(k) =~= s);
    } else {
        assert(s.take(k + 1) =~= s.take(k).push(s[k]));
        lemma_batch_total_push(s.take(k), s[k]);
        lemma_batch_total_take_le(s, k + 1);
    }
}

/// A validation pass that succeeds pins its result to the accumulated
/// total, bounds it by the largest representable amount, and certifies
/// every entry positive and funded against the pre-state balances.
pub proof fn lemma_batch_check_ok(
    entries: Seq<(Address, i128)>,
    bals: Seq<BalanceEntry>,
    token: u32,
    acc: int,
)
    requires
        0 <= acc <= i128::MAX,
        batch_check(entries, bals, token, acc) is Ok,
    ensures
        batch_check(entries, bals, token, acc) == Ok::<int, Error>(acc + batch_total(entries)),
        0 <= batch_total(entries),
        acc + batch_total(entries) <= i128::MAX,
        forall|i: int|
            0 <= i < entries.len() ==> (#[trigger] entries[i]).1 > 0 && balance_of(
                bals,
                token,
                entries[i].0,
            ) >= entries[i].1,
    decreases entries.len(),
{
    if entries.len() == 0 {
        assert(batch_total(entries) == 0);
        assert(batch_check(entries, bals, token, acc) == Ok::<int, Error>(acc));
    } else {
        assert(batch_check(entries, bals, token, acc) == batch_check(
            entries.skip(1),
            bals,
            token,
            acc + entries[0].1,
        ));
        lemma_batch_check_ok(entries.skip(1), bals, token, acc + entries[0].1);
        assert(batch_total(entries) == entries[0].1 + batch_total(entries.skip(1)));
        assert forall|i: int|
            0 <= i < entries.len() implies (#[trigger] entries[i]).1 > 0 && balance_of(
            bals,
            token,
            entries[i].0,
        ) >= entries[i].1 by {
            if i > 0 {
                assert(entries.skip(1)[i - 1] == entries[i]);
            }
        }
    }
}

/// Validates that a burn amount is strictly positive.
pub fn validate_amount(amount: i128) -> (r: Result<(), Error>)
    ensures
        r == if amount <= 0 {
            Err::<(), Error>(Error::InvalidParameters)
        } else {
            Ok::<(), Error>(())
        },
{
    if amount <= 0 {
        return Err(Error::InvalidParameters);
    }
    Ok(())
}

/// Burn tokens from the caller's own balance. The host has authenticated
/// `caller`; this is a self-service burn, so no further authorization
/// applies. Burns remain available while the registry is paused.
///
/// A burn that would drive the supply negative can only arise from
/// balances seeded out of step with the supply; it is refused as a failed
/// checked subtraction.
pub fn burn(f: &mut TokenFactory, caller: Address, token_index: u32, amount: i128) -> (r: Result<
    (),
    Error,
>)
    requires
        old(f).wf(),
        old(f).is_initialized(),
    ensures
        final(f).wf(),
        final(f).is_initialized(),
        counters_monotone(old(f).tokens@, final(f).tokens@),
        r == burn_result(*old(f), caller, token_index, amount),
        r is Err ==> same_factory(*old(f), *final(f)),
        r is Ok ==> burn_applied(
            *old(f),
            *final(f),
            caller,
            token_index,
            amount,
            Event::Burn {
                token_index,
                caller,
                amount,
                new_supply: (old(f).tokens@[token_index as int].total_supply - amount) as i128,
            },
        ),
        r is Ok && old(f).balances_consistent(token_index) ==> final(f).balances_consistent(
            token_index,
        ),
{
    validate_amount(amount)?;
    if !((token_index as usize) < f.tokens.len()) {
        return Err(Error::TokenNotFound);
    }
    let balance = storage::get_balance(f, token_index, caller);
    if balance < amount {
        return Err(Error::InsufficientBalance);
    }
    commit_burn(f, caller, token_index, amount, balance)?;
    let new_supply = f.tokens[token_index as usize].total_supply;
    emit_burn_event(f, token_index, caller, amount, new_supply);
    Ok(())
}

/// Creator-initiated clawback burn from any holder's balance. The host has
/// authenticated `caller`; the caller must be the token's creator and the
/// token must have clawback enabled. Available while paused: pausing gates
/// creator-facing configuration, not burns.
pub fn admin_burn(
    f: &mut TokenFactory,
    caller: Address,
    token_index: u32,
    holder: Address,
    amount: i128,
) -> (r: Result<(), Error>)
    requires
        old(f).wf(),
        old(f).is_initialized(),
    ensures
        final(f).wf(),
        final(f).is_initialized(),
        counters_monotone(old(f).tokens@, final(f).tokens@),
        r == admin_burn_result(*old(f), caller, token_index, holder, amount),
        r is Err ==> same_factory(*old(f), *final(f)),
        r is Ok ==> burn_applied(
            *old(f),
            *final(f),
            holder,
            token_index,
            amount,
            Event::AdminBurn {
                token_index,
                admin: caller,
                holder,
                amount,
                new_supply: (old(f).tokens@[token_index as int].total_supply - amount) as i128,
            },
        ),
        r is Ok && old(f).balances_consistent(token_index) ==> final(f).balances_consistent(
            token_index,
        ),
{
    if !((token_index as usize) < f.tokens.len()) {
        return Err(Error::TokenNotFound);
    }
    if f.tokens[token_index as usize].creator != caller {
        return Err(Error::Unauthorized);
    }
    if !f.tokens[token_index as usize].clawback_enabled {
        return Err(Error::ClawbackDisabled);
    }
    validate_amount(amount)?;
    let balance = storage::get_balance(f, token_index, holder);
    if balance < amount {
        return Err(Error::InsufficientBalance);
    }
    commit_burn(f, holder, token_index, amount, balance)?;
    let new_supply = f.tokens[token_index as usize].total_supply;
    emit_admin_burn_event(f, token_index, caller, holder, amount, new_supply);
    Ok(())
}

/// The shared compute-and-commit tail of a single burn: every new value is
/// computed with checked arithmetic before anything is written.
fn commit_burn(
    f: &mut TokenFactory,
    holder: Address,
    token_index: u32,
    amount: i128,
    balance: i128,
) -> (r: Result<(), Error>)
    requires
        old(f).wf(),
        0 < amount,
        (token_index as int) < old(f).tokens@.len(),
        balance == balance_of(old(f).balances@, token_index, holder),
        amount <= balance,
    ensures
        final(f).wf(),
        counters_monotone(old(f).tokens@, final(f).tokens@),
        same_config(*old(f), *final(f)),
        final(f).is_initialized() == old(f).is_initialized(),
        r == if old(f).tokens@[token_index as int].total_supply < amount || old(
            f,
        ).tokens@[token_index as int].burn_count == u32::MAX {
            Err::<(), Error>(Error::ArithmeticError)
        } else {
            Ok::<(), Error>(())
        },
        r is Err ==> same_factory(*old(f), *final(f)),
        r is Ok ==> ({
            let t = old(f).tokens@[token_index as int];
            &&& final(f).tokens@ == old(f).tokens@.update(
                token_index as int,
                TokenInfo {
                    total_supply: (t.total_supply - amount) as i128,
                    total_burned: (t.total_burned + amount) as i128,
                    burn_count: (t.burn_count + 1) as u32,
                    ..t
                },
            )
            &&& final(f).token_count == old(f).token_count
            &&& balance_of(final(f).balances@, token_index, holder) == balance - amount
            &&& forall|t2: u32, h2: Address|
                !(t2 == token_index && h2 == holder) ==> #[trigger] balance_of(
                    final(f).balances@,
                    t2,
                    h2,
                ) == balance_of(old(f).balances@, t2, h2)
            &&& forall|tok: u32|
                #[trigger] sum_for(final(f).balances@, tok) == sum_for(old(f).balances@, tok)
                    - if tok == token_index {
                    amount as int
                } else {
                    0
                }
            &&& same_events(*old(f), *final(f))
        }),
{
    let i = token_index as usize;
    let total_supply = f.tokens[i].total_supply;
    let total_burned = f.tokens[i].total_burned;
    let burn_count = f.tokens[i].burn_count;
    let new_balance = match balance.checked_sub(amount) {
        Some(b) => b,
        None => {
            return Err(Error::ArithmeticError);
        },
    };
    let new_supply = match total_supply.checked_sub(amount) {
        Some(s) => s,
        None => {
            return Err(Error::ArithmeticError);
        },
    };
    if new_supply < 0 {
        return Err(Error::ArithmeticError);
    }
    let new_burned = match total_burned.checked_add(amount) {
        Some(b) => b,
        None => {
            return Err(Error::ArithmeticError);
        },
    };
    let new_count = match burn_count.checked_add(1) {
        Some(c) => c,
        None => {
            return Err(Error::ArithmeticError);
        },
    };
    storage::set_balance(f, token_index, holder, new_balance);
    f.tokens[i].total_supply = new_supply;
    f.tokens[i].total_burned = new_burned;
    f.tokens[i].burn_count = new_count;
    proof {
        let t = old(f).tokens@[token_index as int];
        assert(f.tokens@ =~= old(f).tokens@.update(
            token_index as int,
            TokenInfo {
                total_supply: (t.total_supply - amount) as i128,
                total_burned: (t.total_burned + amount) as i128,
                burn_count: (t.burn_count + 1) as u32,
                ..t
            },
        ));
    }
    Ok(())
}

/// Burn tokens from multiple holders of one token in a single call,
/// succeeding or failing as a unit. Admin only. The host has authenticated
/// `admin`; the caller must also equal the stored admin.
///
/// A validation pass checks every entry — amount positive, holder funded —
/// against the pre-call balances and accumulates the batch total with
/// overflow-checked addition; the aggregate total is then checked against
/// the token's supply. Nothing is written until every check has passed, so
/// a failure anywhere leaves every balance and the supply untouched. A
/// holder named twice is validated each time against its pre-call balance
/// and debited cumulatively.
#[verifier::loop_isolation(false)]
pub fn batch_burn(
    f: &mut TokenFactory,
    admin: Address,
    token_index: u32,
    burns: Vec<(Address, i128)>,
) -> (r: Result<(), Error>)
    requires
        old(f).wf(),
        old(f).is_initialized(),
    ensures
        final(f).wf(),
        final(f).is_initialized(),
        counters_monotone(old(f).tokens@, final(f).tokens@),
        r == batch_burn_result(*old(f), admin, token_index, burns@),
        r is Err ==> same_factory(*old(f), *final(f)),
        r is Ok ==> ({
            let total = batch_total(burns@);
            let t = old(f).tokens@[token_index as int];
            &&& final(f).tokens@ == old(f).tokens@.update(
                token_index as int,
                TokenInfo {
                    total_supply: (t.total_supply - total) as i128,
                    total_burned: (t.total_burned + total) as i128,
                    burn_count: (t.burn_count + 1) as u32,
                    ..t
                },
            )
            &&& final(f).token_count == old(f).token_count
            &&& same_config(*old(f), *final(f))
            &&& forall|h: Address|
                #[trigger] balance_of(final(f).balances@, token_index, h) == balance_of(
                    old(f).balances@,
                    token_index,
                    h,
                ) - burned_for(burns@, h)
            &&& forall|t2: u32, h2: Address|
                t2 != token_index ==> #[trigger] balance_of(final(f).balances@, t2, h2)
                    == balance_of(old(f).balances@, t2, h2)
            &&& forall|tok: u32|
                #[trigger] sum_for(final(f).balances@, tok) == sum_for(old(f).balances@, tok)
                    - if tok == token_index {
                    total
                } else {
                    0
                }
            &&& final(f).events@ == old(f).events@.push(
                Event::BatchBurn {
                    token_index,
                    admin,
                    count: burns@.len() as u32,
                    total_burned: total as i128,
                    new_supply: (t.total_supply - total) as i128,
                },
            )
        }),
        r is Ok && old(f).balances_consistent(token_index) ==> final(f).balances_consistent(
            token_index,
        ),
{
    let stored_admin = storage::get_admin(f);
    if admin != stored_admin {
        return Err(Error::Unauthorized);
    }
    if burns.len() > MAX_BATCH_BURN as usize {
        return Err(Error::BatchTooLarge);
    }
    if burns.len() == 0 {
        return Err(Error::InvalidParameters);
    }
    if !((token_index as usize) < f.tokens.len()) {
        return Err(Error::TokenNotFound);
    }
    let n = burns.len();
    // validation pass: check every entry against the pre-call state before
    // mutating any of it
    let mut total_burn: i128 = 0;
    let mut k: usize = 0;
    proof {
        assert(burns@.skip(0) =~= burns@);
    }
    while k < n
        invariant
            k <= n,
            0 <= total_burn,
            batch_check(burns@, old(f).balances@, token_index, 0) == batch_check(
                burns@.skip(k as int),
                old(f).balances@,
                token_index,
                total_burn as int,
            ),
        decreases n - k,
    {
        proof {
            assert(burns@.skip(k as int)[0] == burns@[k as int]);
            assert(burns@.skip(k as int).skip(1) =~= burns@.skip(k as int + 1));
        }
        let entry = burns[k];
        if entry.1 <= 0 {
            return Err(Error::InvalidParameters);
        }
        let bal = storage::get_balance(f, token_index, entry.0);
        if bal < entry.1 {
            return Err(Error::InsufficientBalance);
        }
        total_burn = match total_burn.checked_add(entry.1) {
            Some(t) => t,
            None => {
                return Err(Error::ArithmeticError);
            },
        };
        k += 1;
    }
    proof {
        assert(burns@.skip(n as int) =~= Seq::<(Address, i128)>::empty());
        assert(batch_check(burns@, old(f).balances@, token_index, 0) == Ok::<int, Error>(
            total_burn as int,
        ));
        lemma_batch_check_ok(burns@, old(f).balances@, token_index, 0);
    }
    // aggregate checks on the supply and the burn counter, still before any
    // write
    let i = token_index as usize;
    if f.tokens[i].total_supply < total_burn {
        return Err(Error::InsufficientBalance);
    }
    if f.tokens[i].burn_count == u32::MAX {
        return Err(Error::ArithmeticError);
    }
    let total_supply = f.tokens[i].total_supply;
    let total_burned = f.tokens[i].total_burned;
    let burn_count = f.tokens[i].burn_count;
    // mutation pass: every entry has passed, apply all balance decrements
    proof {
        assert(burns@.take(0) =~= Seq::<(Address, i128)>::empty());
        assert forall|h: Address| burned_for(burns@.take(0), h) == 0 by {}
        assert(batch_total(burns@.take(0)) == 0);
    }
    let mut k: usize = 0;
    while k < n
        invariant
            k <= n,
            f.wf(),
            same_config(*old(f), *f),
            same_events(*old(f), *f),
            f.tokens@ == old(f).tokens@,
            f.token_count == old(f).token_count,
            forall|h: Address|
                #[trigger] balance_of(f.balances@, token_index, h) == balance_of(
                    old(f).balances@,
                    token_index,
                    h,
                ) - burned_for(burns@.take(k as int), h),
            forall|t2: u32, h2: Address|
                t2 != token_index ==> #[trigger] balance_of(f.balances@, t2, h2) == balance_of(
                    old(f).balances@,
                    t2,
                    h2,
                ),
            forall|tok: u32|
                #[trigger] sum_for(f.balances@, tok) == sum_for(old(f).balances@, tok) - if tok
                    == token_index {
                    batch_total(burns@.take(k as int))
                } else {
                    0
                },
        decreases n - k,
    {
        let entry = burns[k];
        let bal = storage::get_balance(f, token_index, entry.0);
        proof {
            assert(burns@.take(k as int + 1) =~= burns@.take(k as int).push(burns@[k as int]));
            assert forall|h: Address|
                burned_for(burns@.take(k as int + 1), h) == burned_for(burns@.take(k as int), h)
                    + if entry.0 == h {
                    entry.1 as int
                } else {
                    0
                } by {
                lemma_burned_for_push(burns@.take(k as int), burns@[k as int], h);
            }
            lemma_batch_total_push(burns@.take(k as int), burns@[k as int]);
            assert forall|j: int|
                0 <= j < burns@.take(k as int).len() implies (#[trigger] burns@.take(
                k as int,
            )[j]).1 > 0 by {
                assert(burns@.take(k as int)[j] == burns@[j]);
            }
            lemma_burned_for_bounds(burns@.take(k as int), entry.0);
            lemma_batch_total_take_le(burns@, k as int + 1);
            assert(balance_of(old(f).balances@, token_index, entry.0) >= entry.1);
            assert(batch_total(burns@) <= i128::MAX);
        }
        let new_balance = bal - entry.1;
        storage::set_balance(f, token_index, entry.0, new_balance);
        k += 1;
    }
    proof {
        assert(burns@.take(n as int) =~= burns@);
    }
    // commit the aggregate supply, burned-amount and counter updates
    let new_supply = total_supply - total_burn;
    let new_burned = total_burned + total_burn;
    let new_count = burn_count + 1;
    f.tokens[i].total_supply = new_supply;
    f.tokens[i].total_burned = new_burned;
    f.tokens[i].burn_count = new_count;
    proof {
        let t = old(f).tokens@[token_index as int];
        assert(f.tokens@ =~= old(f).tokens@.update(
            token_index as int,
            TokenInfo {
                total_supply: (t.total_supply - batch_total(burns@)) as i128,
                total_burned: (t.total_burned + batch_total(burns@)) as i128,
                burn_count: (t.burn_count + 1) as u32,
                ..t
            },
        ));
    }
    emit_batch_burn_event(f, token_index, admin, n as u32, total_burn, new_supply);
    Ok(())
}

fn emit_batch_burn_event(
    f: &mut TokenFactory,
    token_index: u32,
    admin: Address,
    count: u32,
    total_burned: i128,
    new_supply: i128,
)
    ensures
        same_config(*old(f), *final(f)),
        same_tokens(*old(f), *final(f)),
        same_balances(*old(f), *final(f)),
        final(f).events@ == old(f).events@.push(
            Event::BatchBurn { token_index, admin, count, total_burned, new_supply },
        ),
{
    f.events.push(Event::BatchBurn { token_index, admin, count, total_burned, new_supply });
}

/// The total number of burn operations recorded for a token.
pub fn get_burn_count(f: &TokenFactory, token_index: u32) -> (r: u32)
    ensures
        r == if token_index < f.tokens@.len() {
            f.tokens@[token_index as int].burn_count
        } else {
            0
        },
{
    storage::get_burn_count(f, token_index)
}

/// A holder's current balance for a token.
pub fn get_balance(f: &TokenFactory, token_index: u32, holder: Address) -> (r: i128)
    ensures
        r == balance_of(f.balances@, token_index, holder),
{
    storage::get_balance(f, token_index, holder)
}

fn emit_burn_event(
    f: &mut TokenFactory,
    token_index: u32,
    caller: Address,
    amount: i128,
    new_supply: i128,
)
    ensures
        same_config(*old(f), *final(f)),
        same_tokens(*old(f), *final(f)),
        same_balances(*old(f), *final(f)),
        final(f).events@ == old(f).events@.push(
            Event::Burn { token_index, caller, amount, new_supply },
        ),
{
    f.events.push(Event::Burn { token_index, caller, amount, new_supply });
}

fn emit_admin_burn_event(
    f: &mut TokenFactory,
    token_index: u32,
    admin: Address,
    holder: Address,
    amount: i128,
    new_supply: i128,
)
    ensures
        same_config(*old(f), *final(f)),
        same_tokens(*old(f), *final(f)),
        same_balances(*old(f), *final(f)),
        final(f).events@ == old(f).events@.push(
            Event::AdminBurn { token_index, admin, holder, amount, new_supply },
        ),
{
    f.events.push(Event::AdminBurn { token_index, admin, holder, amount, new_supply });
}

} // verus!
