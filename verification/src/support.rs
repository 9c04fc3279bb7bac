//! What the pallets take from the runtime: accounts, origins and dispatch errors.
use vstd::prelude::*;

verus! {

/// Accounts are identified by a 64-bit number.
pub type AccountId = u64;

/// Token amounts.
pub type Balance = u128;

/// Token identifiers.
pub type CurrencyId = u32;

/// Block heights.
pub type BlockNumber = u64;

/// Who dispatched a call.
#[derive(Clone, Copy, Debug, PartialEq, Eq, Structural)]
pub enum Origin {
    /// A transaction signed by this account.
    Signed(AccountId),
    /// An unsigned transaction (submitted by an off-chain worker).
    Unsigned,
    /// The runtime itself.
    Root,
}

/// Why a call was refused.
#[derive(Clone, Copy, Debug, PartialEq, Eq, Structural)]
pub enum DispatchError<E> {
    /// The origin is not the kind that the call demands.
    BadOrigin,
    /// The pallet refused the call.
    Module(E),
    /// Another pallet (a token ledger, an exchange) refused the call; the code is its own.
    Other(u32),
}

/// The signer of `origin`, or `BadOrigin`.
pub fn ensure_signed<E>(origin: Origin) -> (r: Result<AccountId, DispatchError<E>>)
    ensures
        r == (match origin {
            Origin::Signed(who) => Ok::<AccountId, DispatchError<E>>(who),
            _ => Err(DispatchError::BadOrigin),
        }),
{
    match origin {
        Origin::Signed(who) => Ok(who),
        _ => Err(DispatchError::BadOrigin),
    }
}

/// Succeeds only for an unsigned origin.
pub fn ensure_none<E>(origin: Origin) -> (r: Result<(), DispatchError<E>>)
    ensures
        r == (match origin {
            Origin::Unsigned => Ok::<(), DispatchError<E>>(()),
            _ => Err(DispatchError::BadOrigin),
        }),
{
    match origin {
        Origin::Unsigned => Ok(()),
        _ => Err(DispatchError::BadOrigin),
    }
}

/// The identifier that a counter hands out next: the stored value, or 0 when none is stored.
pub open spec fn current_id(counter: Option<u64>) -> u64 {
    match counter {
        Some(id) => id,
        None => 0,
    }
}

/// The counter after handing out `id`: `id + 1`, saturating at `u64::MAX`.
pub open spec fn after_id(id: u64) -> Option<u64> {
    Some(if id < u64::MAX { (id + 1) as u64 } else { u64::MAX })
}

/// Hands out the next identifier of `counter` and advances it, as the pallets
/// do with `get().unwrap_or_default()` and `put(id.saturating_add(1))`.
pub fn take_id(counter: &mut Option<u64>) -> (id: u64)
    ensures
        id == current_id(*old(counter)),
        *final(counter) == after_id(id),
{
    let id = match *counter {
        Some(id) => id,
        None => 0,
    };
    *counter = Some(id.saturating_add(1));
    id
}

} // verus!
