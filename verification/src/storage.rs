use vstd::prelude::*;

use crate::TokenFactory;
use crate::counters_monotone;
use crate::same_balances;
use crate::same_config;
use crate::same_events;
use crate::same_tokens;
use crate::types::{Address, BalanceEntry, Event, FactoryState, TokenInfo, token_wf};

verus! {

/// The tracked balance of `holder` for the token at `token`: the amount of
/// the first matching entry, or zero when no entry exists for the pair.
pub open spec fn balance_of(entries: Seq<BalanceEntry>, token: u32, holder: Address) -> int
    decreases entries.len(),
{
    if entries.len() == 0 {
        0
    } else if entries[0].token_index == token && entries[0].holder == holder {
        entries[0].amount as int
    } else {
        balance_of(entries.skip(1), token, holder)
    }
}

/// Whether some entry is stored for the pair (`token`, `holder`).
pub open spec fn has_balance(entries: Seq<BalanceEntry>, token: u32, holder: Address) -> bool {
    exists|i: int|
        0 <= i < entries.len() && entries[i].token_index == token && entries[i].holder == holder
}

/// The sum of all tracked balances of the token at `token`.
pub open spec fn sum_for(entries: Seq<BalanceEntry>, token: u32) -> int
    decreases entries.len(),
{
    if entries.len() == 0 {
        0
    } else {
        (if entries[0].token_index == token {
            entries[0].amount as int
        } else {
            0
        }) + sum_for(entries.skip(1), token)
    }
}

/// No two entries share the same (token, holder) key.
pub open spec fn balances_unique(entries: Seq<BalanceEntry>) -> bool {
    forall|i: int, j: int|
        0 <= i < j < entries.len() ==> !(#[trigger] entries[i].token_index
            == #[trigger] entries[j].token_index && entries[i].holder == entries[j].holder)
}

proof fn lemma_unique_skip(entries: Seq<BalanceEntry>)
    requires
        entries.len() > 0,
        balances_unique(entries),
    ensures
        balances_unique(entries.skip(1)),
{
    assert forall|i: int, j: int|
        0 <= i < j < entries.skip(1).len() implies !(#[trigger] entries.skip(1)[i].token_index
        == #[trigger] entries.skip(1)[j].token_index && entries.skip(1)[i].holder == entries.skip(
        1,
    )[j].holder) by {
        assert(entries.skip(1)[i] == entries[i + 1]);
        assert(entries.skip(1)[j] == entries[j + 1]);
    }
}

/// When the first match for a pair sits at index `i`, the pair's balance is
/// that entry's amount.
pub proof fn lemma_balance_of_indexed(entries: Seq<BalanceEntry>, i: int, token: u32, holder: Address)
    requires
        0 <= i < entries.len(),
        entries[i].token_index == token,
        entries[i].holder == holder,
        forall|j: int|
            0 <= j < i ==> !(#[trigger] entries[j].token_index == token && entries[j].holder
                == holder),
    ensures
        balance_of(entries, token, holder) == entries[i].amount,
    decreases i,
{
    if i == 0 {
    } else {
        assert(entries.skip(1)[i - 1] == entries[i]);
        assert forall|j: int|
            0 <= j < i - 1 implies !(#[trigger] entries.skip(1)[j].token_index == token
            && entries.skip(1)[j].holder == holder) by {
            assert(entries.skip(1)[j] == entries[j + 1]);
        }
        lemma_balance_of_indexed(entries.skip(1), i - 1, token, holder);
    }
}

/// A pair with no entry holds zero.
pub proof fn lemma_balance_of_absent(entries: Seq<BalanceEntry>, token: u32, holder: Address)
    requires
        !has_balance(entries, token, holder),
    ensures
        balance_of(entries, token, holder) == 0,
    decreases entries.len(),
{
    if entries.len() > 0 {
        assert(!(entries[0].token_index == token && entries[0].holder == holder));
        assert forall|i: int|
            !(0 <= i < entries.skip(1).len() && entries.skip(1)[i].token_index == token
                && entries.skip(1)[i].holder == holder) by {
            if 0 <= i < entries.skip(1).len() {
                assert(entries.skip(1)[i] == entries[i + 1]);
            }
        }
        lemma_balance_of_absent(entries.skip(1), token, holder);
    }
}

/// Replacing the amount of the entry at `i` moves exactly that pair's
/// balance, moves exactly that token's sum by the difference, and keeps the
/// key set and its uniqueness.
pub proof fn lemma_update_balance(entries: Seq<BalanceEntry>, i: int, v: i128)
    requires
        balances_unique(entries),
        0 <= i < entries.len(),
    ensures
        ({
            let t = entries[i].token_index;
            let h = entries[i].holder;
            let u = entries.update(i, BalanceEntry { token_index: t, holder: h, amount: v });
            &&& balances_unique(u)
            &&& balance_of(u, t, h) == v
            &&& forall|t2: u32, h2: Address|
                !(t2 == t && h2 == h) ==> #[trigger] balance_of(u, t2, h2) == balance_of(
                    entries,
                    t2,
                    h2,
                )
            &&& forall|tok: u32|
                #[trigger] sum_for(u, tok) == sum_for(entries, tok) + if tok == t {
                    v - entries[i].amount
                } else {
                    0
                }
            &&& forall|t2: u32, h2: Address|
                #[trigger] has_balance(u, t2, h2) == has_balance(entries, t2, h2)
        }),
    decreases i,
{
    let t = entries[i].token_index;
    let h = entries[i].holder;
    let e2 = BalanceEntry { token_index: t, holder: h, amount: v };
    let u = entries.update(i, e2);
    assert(u.len() == entries.len());
    assert forall|t2: u32, h2: Address|
        #[trigger] has_balance(u, t2, h2) == has_balance(entries, t2, h2) by {
        if has_balance(entries, t2, h2) {
            let j = choose|j: int|
                0 <= j < entries.len() && entries[j].token_index == t2 && entries[j].holder == h2;
            assert(u[j].token_index == t2 && u[j].holder == h2);
        }
        if has_balance(u, t2, h2) {
            let j = choose|j: int|
                0 <= j < u.len() && u[j].token_index == t2 && u[j].holder == h2;
            assert(entries[j].token_index == t2 && entries[j].holder == h2);
        }
    }
    assert(balances_unique(u));
    if i == 0 {
        assert(u.skip(1) =~= entries.skip(1));
        assert(balance_of(u, t, h) == v);
        assert forall|t2: u32, h2: Address|
            !(t2 == t && h2 == h) implies #[trigger] balance_of(u, t2, h2) == balance_of(
            entries,
            t2,
            h2,
        ) by {
            if entries[0].token_index == t2 && entries[0].holder == h2 {
                assert(false);
            }
        }
        assert forall|tok: u32|
            #[trigger] sum_for(u, tok) == sum_for(entries, tok) + (if tok == t {
                v - entries[i].amount
            } else {
                0
            }) by {}
    } else {
        lemma_unique_skip(entries);
        assert(entries.skip(1)[i - 1] == entries[i]);
        lemma_update_balance(entries.skip(1), i - 1, v);
        assert(u.skip(1) =~= entries.skip(1).update(i - 1, e2));
        assert(u[0] == entries[0]);
        // uniqueness puts the updated key nowhere before index i
        assert(!(entries[0].token_index == t && entries[0].holder == h));
        assert(balance_of(u, t, h) == balance_of(u.skip(1), t, h));
        assert forall|t2: u32, h2: Address|
            !(t2 == t && h2 == h) implies #[trigger] balance_of(u, t2, h2) == balance_of(
            entries,
            t2,
            h2,
        ) by {
            if u[0].token_index == t2 && u[0].holder == h2 {
            } else {
                assert(balance_of(u, t2, h2) == balance_of(u.skip(1), t2, h2));
                assert(balance_of(entries, t2, h2) == balance_of(entries.skip(1), t2, h2));
            }
        }
        assert forall|tok: u32|
            #[trigger] sum_for(u, tok) == sum_for(entries, tok) + (if tok == t {
                v - entries[i].amount
            } else {
                0
            }) by {
            assert(sum_for(u, tok) == (if u[0].token_index == tok {
                u[0].amount as int
            } else {
                0
            }) + sum_for(u.skip(1), tok));
        }
    }
}

/// Appending an entry for a pair that has none introduces exactly that
/// pair's balance and adds its amount to exactly that token's sum.
pub proof fn lemma_push_balance(entries: Seq<BalanceEntry>, e: BalanceEntry)
    requires
        balances_unique(entries),
        !has_balance(entries, e.token_index, e.holder),
    ensures
        ({
            let u = entries.push(e);
            &&& balances_unique(u)
            &&& balance_of(u, e.token_index, e.holder) == e.amount
            &&& forall|t2: u32, h2: Address|
                !(t2 == e.token_index && h2 == e.holder) ==> #[trigger] balance_of(u, t2, h2)
                    == balance_of(entries, t2, h2)
            &&& forall|tok: u32|
                #[trigger] sum_for(u, tok) == sum_for(entries, tok) + if tok == e.token_index {
                    e.amount as int
                } else {
                    0
                }
            &&& forall|t2: u32, h2: Address|
                #[trigger] has_balance(u, t2, h2) == (has_balance(entries, t2, h2) || (t2
                    == e.token_index && h2 == e.holder))
        }),
    decreases entries.len(),
{
    let u = entries.push(e);
    assert forall|t2: u32, h2: Address|
        #[trigger] has_balance(u, t2, h2) == (has_balance(entries, t2, h2) || (t2 == e.token_index
            && h2 == e.holder)) by {
        if has_balance(entries, t2, h2) {
            let j = choose|j: int|
                0 <= j < entries.len() && entries[j].token_index == t2 && entries[j].holder == h2;
            assert(u[j].token_index == t2 && u[j].holder == h2);
        }
        if t2 == e.token_index && h2 == e.holder {
            assert(u[entries.len() as int].token_index == t2 && u[entries.len() as int].holder
                == h2);
        }
        if has_balance(u, t2, h2) {
            let j = choose|j: int|
                0 <= j < u.len() && u[j].token_index == t2 && u[j].holder == h2;
            if j < entries.len() {
                assert(entries[j].token_index == t2 && entries[j].holder == h2);
            }
        }
    }
    assert(balances_unique(u)) by {
        assert forall|i: int, j: int|
            0 <= i < j < u.len() implies !(#[trigger] u[i].token_index
            == #[trigger] u[j].token_index && u[i].holder == u[j].holder) by {
            if j == entries.len() {
                if u[i].token_index == e.token_index && u[i].holder == e.holder {
                    assert(entries[i].token_index == e.token_index && entries[i].holder
                        == e.holder);
                    assert(has_balance(entries, e.token_index, e.holder));
                }
            }
        }
    }
    if entries.len() == 0 {
        assert(u.skip(1) =~= Seq::<BalanceEntry>::empty());
        assert(u[0] == e);
        assert(balance_of(u, e.token_index, e.holder) == e.amount);
        assert forall|t2: u32, h2: Address|
            !(t2 == e.token_index && h2 == e.holder) implies #[trigger] balance_of(u, t2, h2)
            == balance_of(entries, t2, h2) by {
            assert(balance_of(u, t2, h2) == balance_of(u.skip(1), t2, h2));
        }
        assert forall|tok: u32|
            #[trigger] sum_for(u, tok) == sum_for(entries, tok) + (if tok == e.token_index {
                e.amount as int
            } else {
                0
            }) by {
            assert(sum_for(u, tok) == (if u[0].token_index == tok {
                u[0].amount as int
            } else {
                0
            }) + sum_for(u.skip(1), tok));
        }
    } else {
        assert(u[0] == entries[0]);
        assert(u.skip(1) =~= entries.skip(1).push(e));
        assert forall|i: int|
            !(0 <= i < entries.skip(1).len() && entries.skip(1)[i].token_index == e.token_index
                && entries.skip(1)[i].holder == e.holder) by {
            if 0 <= i < entries.skip(1).len() {
                assert(entries.skip(1)[i] == entries[i + 1]);
            }
        }
        lemma_unique_skip(entries);
        lemma_push_balance(entries.skip(1), e);
        assert(!(entries[0].token_index == e.token_index && entries[0].holder == e.holder));
        assert forall|t2: u32, h2: Address|
            !(t2 == e.token_index && h2 == e.holder) implies #[trigger] balance_of(u, t2, h2)
            == balance_of(entries, t2, h2) by {
            if u[0].token_index == t2 && u[0].holder == h2 {
            } else {
                assert(balance_of(u, t2, h2) == balance_of(u.skip(1), t2, h2));
                assert(balance_of(entries, t2, h2) == balance_of(entries.skip(1), t2, h2));
            }
        }
        assert(balance_of(u, e.token_index, e.holder) == balance_of(
            u.skip(1),
            e.token_index,
            e.holder,
        ));
        assert forall|tok: u32|
            #[trigger] sum_for(u, tok) == sum_for(entries, tok) + (if tok == e.token_index {
                e.amount as int
            } else {
                0
            }) by {
            assert(sum_for(u, tok) == (if u[0].token_index == tok {
                u[0].amount as int
            } else {
                0
            }) + sum_for(u.skip(1), tok));
        }
    }
}

/// Whether some record carries the given token address.
pub open spec fn has_token_addr(tokens: Seq<TokenInfo>, addr: Address) -> bool {
    exists|i: int| 0 <= i < tokens.len() && tokens[i].address == addr
}

/// The index of the first record carrying the given token address;
/// meaningful only when such a record exists.
pub open spec fn token_addr_index(tokens: Seq<TokenInfo>, addr: Address) -> int
    decreases tokens.len(),
{
    if tokens.len() == 0 {
        0
    } else if tokens[0].address == addr {
        0
    } else {
        1 + token_addr_index(tokens.skip(1), addr)
    }
}

/// A first match at index `i` pins `token_addr_index` down to `i`.
pub proof fn lemma_token_addr_index(tokens: Seq<TokenInfo>, i: int, addr: Address)
    requires
        0 <= i < tokens.len(),
        tokens[i].address == addr,
        forall|j: int| 0 <= j < i ==> #[trigger] tokens[j].address != addr,
    ensures
        token_addr_index(tokens, addr) == i,
    decreases i,
{
    if i == 0 {
    } else {
        assert(tokens.skip(1)[i - 1] == tokens[i]);
        assert forall|j: int| 0 <= j < i - 1 implies #[trigger] tokens.skip(1)[j].address
            != addr by {
            assert(tokens.skip(1)[j] == tokens[j + 1]);
        }
        lemma_token_addr_index(tokens.skip(1), i - 1, addr);
    }
}

// ── Admin management ───────────────────────────────────────

pub fn get_admin(f: &TokenFactory) -> (r: Address)
    requires
        f.admin is Some,
    ensures
        f.admin == Some(r),
{
    f.admin.unwrap()
}

pub fn set_admin(f: &mut TokenFactory, admin: Address)
    ensures
        final(f).admin == Some(admin),
        final(f).treasury == old(f).treasury,
        final(f).base_fee == old(f).base_fee,
        final(f).metadata_fee == old(f).metadata_fee,
        final(f).paused == old(f).paused,
        same_tokens(*old(f), *final(f)),
        same_balances(*old(f), *final(f)),
        same_events(*old(f), *final(f)),
{
    f.admin = Some(admin);
}

pub fn has_admin(f: &TokenFactory) -> (r: bool)
    ensures
        r == (f.admin is Some),
{
    f.admin.is_some()
}

// ── Treasury management ────────────────────────────────────

pub fn get_treasury(f: &TokenFactory) -> (r: Address)
    requires
        f.treasury is Some,
    ensures
        f.treasury == Some(r),
{
    f.treasury.unwrap()
}

pub fn set_treasury(f: &mut TokenFactory, treasury: Address)
    ensures
        final(f).treasury == Some(treasury),
        final(f).admin == old(f).admin,
        final(f).base_fee == old(f).base_fee,
        final(f).metadata_fee == old(f).metadata_fee,
        final(f).paused == old(f).paused,
        same_tokens(*old(f), *final(f)),
        same_balances(*old(f), *final(f)),
        same_events(*old(f), *final(f)),
{
    f.treasury = Some(treasury);
}

// ── Fee management ─────────────────────────────────────────

pub fn get_base_fee(f: &TokenFactory) -> (r: i128)
    requires
        f.base_fee is Some,
    ensures
        f.base_fee == Some(r),
{
    f.base_fee.unwrap()
}

pub fn set_base_fee(f: &mut TokenFactory, fee: i128)
    ensures
        final(f).base_fee == Some(fee),
        final(f).admin == old(f).admin,
        final(f).treasury == old(f).treasury,
        final(f).metadata_fee == old(f).metadata_fee,
        final(f).paused == old(f).paused,
        same_tokens(*old(f), *final(f)),
        same_balances(*old(f), *final(f)),
        same_events(*old(f), *final(f)),
{
    f.base_fee = Some(fee);
}

pub fn get_metadata_fee(f: &TokenFactory) -> (r: i128)
    requires
        f.metadata_fee is Some,
    ensures
        f.metadata_fee == Some(r),
{
    f.metadata_fee.unwrap()
}

pub fn set_metadata_fee(f: &mut TokenFactory, fee: i128)
    ensures
        final(f).metadata_fee == Some(fee),
        final(f).admin == old(f).admin,
        final(f).treasury == old(f).treasury,
        final(f).base_fee == old(f).base_fee,
        final(f).paused == old(f).paused,
        same_tokens(*old(f), *final(f)),
        same_balances(*old(f), *final(f)),
        same_events(*old(f), *final(f)),
{
    f.metadata_fee = Some(fee);
}

/// Apply any combination of fee changes in one pass; an absent argument
/// leaves its fee untouched.
pub fn batch_update_fees(f: &mut TokenFactory, base_fee: Option<i128>, metadata_fee: Option<i128>)
    ensures
        final(f).base_fee == if base_fee is Some {
            base_fee
        } else {
            old(f).base_fee
        },
        final(f).metadata_fee == if metadata_fee is Some {
            metadata_fee
        } else {
            old(f).metadata_fee
        },
        final(f).admin == old(f).admin,
        final(f).treasury == old(f).treasury,
        final(f).paused == old(f).paused,
        same_tokens(*old(f), *final(f)),
        same_balances(*old(f), *final(f)),
        same_events(*old(f), *final(f)),
{
    if let Some(fee) = base_fee {
        set_base_fee(f, fee);
    }
    if let Some(fee) = metadata_fee {
        set_metadata_fee(f, fee);
    }
}

// ── Pause management ───────────────────────────────────────

pub fn is_paused(f: &TokenFactory) -> (r: bool)
    ensures
        r == f.paused,
{
    f.paused
}

pub fn set_paused(f: &mut TokenFactory, paused: bool)
    ensures
        final(f).paused == paused,
        final(f).admin == old(f).admin,
        final(f).treasury == old(f).treasury,
        final(f).base_fee == old(f).base_fee,
        final(f).metadata_fee == old(f).metadata_fee,
        same_tokens(*old(f), *final(f)),
        same_balances(*old(f), *final(f)),
        same_events(*old(f), *final(f)),
{
    f.paused = paused;
}

// ── Token registry ─────────────────────────────────────────

pub fn get_token_count(f: &TokenFactory) -> (r: u32)
    ensures
        r == f.token_count,
{
    f.token_count
}

pub fn increment_token_count(f: &mut TokenFactory) -> (r: u32)
    requires
        old(f).token_count < u32::MAX,
    ensures
        final(f).token_count == old(f).token_count + 1,
        r == final(f).token_count,
        same_config(*old(f), *final(f)),
        final(f).tokens@ == old(f).tokens@,
        same_balances(*old(f), *final(f)),
        same_events(*old(f), *final(f)),
{
    let count = f.token_count + 1;
    f.token_count = count;
    count
}

/// An owned copy of a token record, equal to the original.
pub(crate) fn copy_info(t: &TokenInfo) -> (r: TokenInfo)
    ensures
        r == *t,
{
    TokenInfo {
        address: t.address,
        creator: t.creator,
        name: t.name.clone(),
        symbol: t.symbol.clone(),
        decimals: t.decimals,
        total_supply: t.total_supply,
        initial_supply: t.initial_supply,
        total_burned: t.total_burned,
        burn_count: t.burn_count,
        metadata_uri: match &t.metadata_uri {
            Some(uri) => Some(uri.clone()),
            None => None,
        },
        created_at: t.created_at,
        clawback_enabled: t.clawback_enabled,
    }
}

pub fn get_token_info(f: &TokenFactory, index: u32) -> (r: Option<TokenInfo>)
    ensures
        r == if index < f.tokens@.len() {
            Some(f.tokens@[index as int])
        } else {
            None::<TokenInfo>
        },
{
    if (index as usize) < f.tokens.len() {
        Some(copy_info(&f.tokens[index as usize]))
    } else {
        None
    }
}

/// Store a token record at an index. Registering at the next free index
/// appends a fresh record; an existing index is overwritten. A registration
/// notification is appended to the event log.
pub fn set_token_info(f: &mut TokenFactory, index: u32, info: TokenInfo)
    requires
        index <= old(f).tokens@.len(),
        token_wf(info),
        old(f).wf(),
    ensures
        final(f).wf(),
        final(f).tokens@ == if index < old(f).tokens@.len() {
            old(f).tokens@.update(index as int, info)
        } else {
            old(f).tokens@.push(info)
        },
        final(f).token_count == old(f).token_count,
        same_config(*old(f), *final(f)),
        same_balances(*old(f), *final(f)),
        final(f).events@ == old(f).events@.push(
            Event::TokenRegistered { token_address: info.address, creator: info.creator },
        ),
{
    let token_address = info.address;
    let creator = info.creator;
    if (index as usize) < f.tokens.len() {
        f.tokens[index as usize] = info;
    } else {
        f.tokens.push(info);
    }
    crate::events::emit_token_registered(f, token_address, creator);
}

/// The index of the first record carrying the given token address.
pub fn find_token_by_address(f: &TokenFactory, token_address: Address) -> (r: Option<usize>)
    ensures
        match r {
            Some(i) => 0 <= i < f.tokens@.len() && f.tokens@[i as int].address == token_address
                && i == token_addr_index(f.tokens@, token_address) && forall|j: int|
                0 <= j < i ==> #[trigger] f.tokens@[j].address != token_address,
            None => !has_token_addr(f.tokens@, token_address),
        },
{
    let n = f.tokens.len();
    let mut i: usize = 0;
    while i < n
        invariant
            n == f.tokens@.len(),
            i <= n,
            forall|j: int| 0 <= j < i ==> #[trigger] f.tokens@[j].address != token_address,
        decreases n - i,
    {
        if f.tokens[i].address == token_address {
            proof {
                lemma_token_addr_index(f.tokens@, i as int, token_address);
            }
            return Some(i);
        }
        i += 1;
    }
    None
}

pub fn get_token_info_by_address(f: &TokenFactory, token_address: Address) -> (r: Option<
    TokenInfo,
>)
    ensures
        match r {
            Some(info) => exists|i: int|
                0 <= i < f.tokens@.len() && f.tokens@[i].address == token_address && info
                    == f.tokens@[i],
            None => !has_token_addr(f.tokens@, token_address),
        },
{
    match find_token_by_address(f, token_address) {
        Some(i) => Some(copy_info(&f.tokens[i])),
        None => None,
    }
}

/// Overwrite the first record carrying the given token address.
pub fn set_token_info_by_address(f: &mut TokenFactory, token_address: Address, info: TokenInfo)
    requires
        has_token_addr(old(f).tokens@, token_address),
        token_wf(info),
        old(f).wf(),
    ensures
        final(f).wf(),
        exists|i: int|
            0 <= i < old(f).tokens@.len() && old(f).tokens@[i].address == token_address
                && final(f).tokens@ == old(f).tokens@.update(i, info),
        final(f).token_count == old(f).token_count,
        same_config(*old(f), *final(f)),
        same_balances(*old(f), *final(f)),
        same_events(*old(f), *final(f)),
{
    let i = find_token_by_address(f, token_address).unwrap();
    f.tokens[i] = info;
}

// ── Balance storage ────────────────────────────────────────

/// The index of the entry for (`token`, `holder`), searching from the front.
fn find_balance(entries: &Vec<BalanceEntry>, token: u32, holder: Address) -> (r: Option<usize>)
    ensures
        match r {
            Some(i) => 0 <= i < entries@.len() && entries@[i as int].token_index == token
                && entries@[i as int].holder == holder && forall|j: int|
                0 <= j < i ==> !(#[trigger] entries@[j].token_index == token && entries@[j].holder
                    == holder),
            None => !has_balance(entries@, token, holder),
        },
{
    let n = entries.len();
    let mut i: usize = 0;
    while i < n
        invariant
            n == entries@.len(),
            i <= n,
            forall|j: int|
                0 <= j < i ==> !(#[trigger] entries@[j].token_index == token && entries@[j].holder
                    == holder),
        decreases n - i,
    {
        let e = &entries[i];
        if e.token_index == token && e.holder == holder {
            return Some(i);
        }
        i += 1;
    }
    None
}

/// A holder's current balance for a token; pairs without an entry hold zero.
pub fn get_balance(f: &TokenFactory, token_index: u32, holder: Address) -> (r: i128)
    ensures
        r == balance_of(f.balances@, token_index, holder),
{
    match find_balance(&f.balances, token_index, holder) {
        Some(i) => {
            proof {
                lemma_balance_of_indexed(f.balances@, i as int, token_index, holder);
            }
            f.balances[i].amount
        },
        None => {
            proof {
                lemma_balance_of_absent(f.balances@, token_index, holder);
            }
            0
        },
    }
}

/// Set a holder's balance for a token, leaving every other pair's balance
/// and every other token's balance sum untouched.
pub fn set_balance(f: &mut TokenFactory, token_index: u32, holder: Address, balance: i128)
    requires
        old(f).wf(),
    ensures
        final(f).wf(),
        same_config(*old(f), *final(f)),
        same_tokens(*old(f), *final(f)),
        same_events(*old(f), *final(f)),
        balance_of(final(f).balances@, token_index, holder) == balance,
        forall|t2: u32, h2: Address|
            !(t2 == token_index && h2 == holder) ==> #[trigger] balance_of(final(f).balances@, t2, h2)
                == balance_of(old(f).balances@, t2, h2),
        forall|tok: u32|
            #[trigger] sum_for(final(f).balances@, tok) == sum_for(old(f).balances@, tok) + if tok
                == token_index {
                balance - balance_of(old(f).balances@, token_index, holder)
            } else {
                0
            },
        forall|t2: u32, h2: Address|
            #[trigger] has_balance(final(f).balances@, t2, h2) == (has_balance(old(f).balances@, t2, h2)
                || (t2 == token_index && h2 == holder)),
{
    match find_balance(&f.balances, token_index, holder) {
        Some(i) => {
            proof {
                lemma_balance_of_indexed(f.balances@, i as int, token_index, holder);
                lemma_update_balance(f.balances@, i as int, balance);
            }
            f.balances[i] = BalanceEntry { token_index, holder, amount: balance };
        },
        None => {
            proof {
                lemma_balance_of_absent(f.balances@, token_index, holder);
                lemma_push_balance(
                    f.balances@,
                    BalanceEntry { token_index, holder, amount: balance },
                );
            }
            f.balances.push(BalanceEntry { token_index, holder, amount: balance });
        },
    }
}

// ── Burn bookkeeping ───────────────────────────────────────

/// The number of burn operations recorded for a token; zero for an index
/// with no record.
pub fn get_burn_count(f: &TokenFactory, token_index: u32) -> (r: u32)
    ensures
        r == if token_index < f.tokens@.len() {
            f.tokens@[token_index as int].burn_count
        } else {
            0
        },
{
    if (token_index as usize) < f.tokens.len() {
        f.tokens[token_index as usize].burn_count
    } else {
        0
    }
}

/// Record one more burn operation on the token.
pub fn increment_burn_count(f: &mut TokenFactory, token_index: u32)
    requires
        token_index < old(f).tokens@.len(),
        old(f).tokens@[token_index as int].burn_count < u32::MAX,
        old(f).wf(),
    ensures
        final(f).wf(),
        final(f).tokens@ == old(f).tokens@.update(
            token_index as int,
            TokenInfo {
                burn_count: (old(f).tokens@[token_index as int].burn_count + 1) as u32,
                ..old(f).tokens@[token_index as int]
            },
        ),
        final(f).token_count == old(f).token_count,
        same_config(*old(f), *final(f)),
        same_balances(*old(f), *final(f)),
        same_events(*old(f), *final(f)),
{
    let i = token_index as usize;
    let count = f.tokens[i].burn_count + 1;
    f.tokens[i].burn_count = count;
}

// ── Composite state ────────────────────────────────────────

/// A snapshot of the whole configuration.
pub fn get_factory_state(f: &TokenFactory) -> (r: FactoryState)
    requires
        f.is_initialized(),
    ensures
        f.admin == Some(r.admin),
        f.treasury == Some(r.treasury),
        f.base_fee == Some(r.base_fee),
        f.metadata_fee == Some(r.metadata_fee),
        r.paused == f.paused,
{
    FactoryState {
        admin: get_admin(f),
        treasury: get_treasury(f),
        base_fee: get_base_fee(f),
        metadata_fee: get_metadata_fee(f),
        paused: is_paused(f),
    }
}

/// The admin address together with the pause flag, read in one call.
pub fn get_admin_state(f: &TokenFactory) -> (r: (Address, bool))
    requires
        f.admin is Some,
    ensures
        f.admin == Some(r.0),
        r.1 == f.paused,
{
    let admin = get_admin(f);
    let paused = is_paused(f);
    (admin, paused)
}

/// Apply a burn's change to the record carrying the given token address:
/// the supply moves by `amount_change`, and a negative change is booked as
/// that much burned and one more burn operation. Nothing is written unless
/// every check passes.
pub fn update_token_supply(f: &mut TokenFactory, token_address: Address, amount_change: i128) -> (r:
    Option<()>)
    requires
        amount_change <= 0,
        old(f).wf(),
    ensures
        final(f).wf(),
        final(f).token_count == old(f).token_count,
        same_config(*old(f), *final(f)),
        same_balances(*old(f), *final(f)),
        same_events(*old(f), *final(f)),
        r is None ==> final(f).tokens@ == old(f).tokens@,
        r is Some ==> exists|i: int|
            {
                let t = #[trigger] old(f).tokens@[i];
                &&& 0 <= i < old(f).tokens@.len()
                &&& t.address == token_address
                &&& final(f).tokens@ == old(f).tokens@.update(
                    i,
                    TokenInfo {
                        total_supply: (t.total_supply + amount_change) as i128,
                        total_burned: (t.total_burned - amount_change) as i128,
                        burn_count: if amount_change < 0 {
                            (t.burn_count + 1) as u32
                        } else {
                            t.burn_count
                        },
                        ..t
                    },
                )
            },
        counters_monotone(old(f).tokens@, final(f).tokens@),
{
    let found = find_token_by_address(f, token_address);
    let i = match found {
        Some(i) => i,
        None => {
            return None;
        },
    };
    let ghost t0 = f.tokens@[i as int];
    let old_supply = f.tokens[i].total_supply;
    let new_supply = match old_supply.checked_add(amount_change) {
        Some(s) => s,
        None => {
            return None;
        },
    };
    if new_supply < 0 {
        return None;
    }
    let mut new_burned = f.tokens[i].total_burned;
    let mut new_count = f.tokens[i].burn_count;
    if amount_change < 0 {
        new_burned = match new_burned.checked_sub(amount_change) {
            Some(b) => b,
            None => {
                return None;
            },
        };
        new_count = match new_count.checked_add(1) {
            Some(c) => c,
            None => {
                return None;
            },
        };
    }
    f.tokens[i].total_supply = new_supply;
    f.tokens[i].total_burned = new_burned;
    f.tokens[i].burn_count = new_count;
    proof {
        assert(f.tokens@ =~= old(f).tokens@.update(
            i as int,
            TokenInfo {
                total_supply: (t0.total_supply + amount_change) as i128,
                total_burned: (t0.total_burned - amount_change) as i128,
                burn_count: if amount_change < 0 {
                    (t0.burn_count + 1) as u32
                } else {
                    t0.burn_count
                },
                ..t0
            },
        ));
    }
    Some(())
}

} // verus!
