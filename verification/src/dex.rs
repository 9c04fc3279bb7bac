//! The exchange that the `BuyToken` calls go through.
use vstd::prelude::*;

use crate::support::{AccountId, Balance, CurrencyId};

verus! {

/// How much may be paid or must be received in a swap.
#[derive(Clone, Copy, Debug, PartialEq, Eq, Structural)]
pub enum SwapLimit {
    /// `(supply amount, minimum target amount)`.
    ExactSupply(Balance, Balance),
    /// `(maximum supply amount, target amount)`.
    ExactTarget(Balance, Balance),
}

/// A path of currencies, as a mathematical sequence.
pub type CurrencyPath = Seq<CurrencyId>;

/// The purchases an exchange has been asked for, oldest first: buyer, path and both amounts.
pub type BuyLog = Seq<(AccountId, CurrencyPath, Balance, Balance)>;

/// The swaps an exchange has been asked for, oldest first: who, path and limit.
pub type SwapLog = Seq<(AccountId, CurrencyPath, SwapLimit)>;

/// An exchange that swaps tokens along a path of currencies, supplied by the
/// runtime; a refusal comes back as the exchange's own error code. Its state is
/// described by the purchases and swaps it has been asked for; what it answers
/// depends on its state and the request alone.
pub trait BuyTokenInterface {
    /// The purchases asked for so far, oldest first: buyer, path and both amounts.
    spec fn buy_requests(&self) -> BuyLog;

    /// The swaps asked for so far, oldest first: who, path and limit.
    spec fn swap_requests(&self) -> SwapLog;

    /// What the exchange answers to a purchase.
    spec fn buy_answer(&self, who: AccountId, path: CurrencyPath, token_a: Balance, token_b: Balance) -> Result<Balance, u32>;

    /// What the exchange answers to a swap.
    spec fn swap_answer(&self, who: AccountId, path: CurrencyPath, limit: SwapLimit) -> Result<Balance, u32>;

    /// Buys along `path`, spending `token_a` for `token_b`.
    fn buy_token(
        &mut self,
        who: AccountId,
        path: &[CurrencyId],
        token_a: Balance,
        token_b: Balance,
    ) -> (r: Result<Balance, u32>)
        ensures
            r == old(self).buy_answer(who, path@, token_a, token_b),
            final(self).buy_requests() == old(self).buy_requests().push((who, path@, token_a, token_b)),
            final(self).swap_requests() == old(self).swap_requests(),
    ;

    /// Swaps along `path` within `limit`.
    fn swap_token(&mut self, who: AccountId, path: &[CurrencyId], limit: SwapLimit) -> (r: Result<Balance, u32>)
        ensures
            r == old(self).swap_answer(who, path@, limit),
            final(self).swap_requests() == old(self).swap_requests().push((who, path@, limit)),
            final(self).buy_requests() == old(self).buy_requests(),
    ;
}

} // verus!
