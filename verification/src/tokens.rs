//! The token ledger that orders reserve and settle through.
use vstd::prelude::*;

use crate::support::{AccountId, Balance, CurrencyId};

verus! {

/// Where repatriated funds end up at the beneficiary.
#[derive(Clone, Copy, Debug, PartialEq, Eq, Structural)]
pub enum BalanceStatus {
    Free,
    Reserved,
}

/// A transfer the ledger is asked for: `amount` of `currency_id` from `from` to `to`.
#[derive(Clone, Copy, Debug, PartialEq, Eq, Structural)]
pub struct TransferCall {
    pub currency_id: CurrencyId,
    pub from: AccountId,
    pub to: AccountId,
    pub amount: Balance,
}

/// A reservation the ledger is asked for: `amount` of `currency_id` of `who`.
#[derive(Clone, Copy, Debug, PartialEq, Eq, Structural)]
pub struct ReserveCall {
    pub currency_id: CurrencyId,
    pub who: AccountId,
    pub amount: Balance,
}

/// A repatriation the ledger is asked for: up to `amount` of `currency_id`
/// reserved by `slashed`, moved to `beneficiary` as `status`.
#[derive(Clone, Copy, Debug, PartialEq, Eq, Structural)]
pub struct RepatriateCall {
    pub currency_id: CurrencyId,
    pub slashed: AccountId,
    pub beneficiary: AccountId,
    pub amount: Balance,
    pub status: BalanceStatus,
}

/// A request made of the ledger.
#[derive(Clone, Copy, Debug, PartialEq, Eq, Structural)]
pub enum LedgerRequest {
    Transfer(TransferCall),
    Reserve(ReserveCall),
    Repatriate(RepatriateCall),
}

/// The requests a ledger has received, oldest first.
pub type LedgerLog = Seq<LedgerRequest>;

/// A multi-currency ledger with reservations, supplied by the runtime; a refusal
/// comes back as the ledger's own error code. Its state is described by the
/// requests it has received; what it answers to a request, and the state it is
/// left in, depend on its state and the request alone.
pub trait MultiReservableCurrency: Sized {
    /// The requests received so far, oldest first.
    spec fn requests(&self) -> LedgerLog;

    /// The state after granting or refusing `request`.
    spec fn after(&self, request: LedgerRequest) -> Self;

    /// What the ledger answers to a transfer.
    spec fn transfer_answer(&self, call: TransferCall) -> Result<(), u32>;

    /// What the ledger answers to a reservation.
    spec fn reserve_answer(&self, call: ReserveCall) -> Result<(), u32>;

    /// What the ledger answers to a repatriation.
    spec fn repatriate_answer(&self, call: RepatriateCall) -> Result<Balance, u32>;

    /// Moves `amount` of `currency_id` from the free balance of `from` to that of `to`.
    fn transfer(&mut self, currency_id: CurrencyId, from: AccountId, to: AccountId, amount: Balance) -> (r: Result<
        (),
        u32,
    >)
        ensures
            ({
                let call = TransferCall { currency_id, from, to, amount };
                &&& r == old(self).transfer_answer(call)
                &&& *final(self) == old(self).after(LedgerRequest::Transfer(call))
                &&& final(self).requests() == old(self).requests().push(LedgerRequest::Transfer(call))
            }),
    ;

    /// Moves `amount` of `currency_id` of `who` from free to reserved.
    fn reserve(&mut self, currency_id: CurrencyId, who: AccountId, amount: Balance) -> (r: Result<(), u32>)
        ensures
            ({
                let call = ReserveCall { currency_id, who, amount };
                &&& r == old(self).reserve_answer(call)
                &&& *final(self) == old(self).after(LedgerRequest::Reserve(call))
                &&& final(self).requests() == old(self).requests().push(LedgerRequest::Reserve(call))
            }),
    ;

    /// Moves up to `amount` reserved by `slashed` to `beneficiary`; returns the part that could not be moved.
    fn repatriate_reserved(
        &mut self,
        currency_id: CurrencyId,
        slashed: AccountId,
        beneficiary: AccountId,
        amount: Balance,
        status: BalanceStatus,
    ) -> (r: Result<Balance, u32>)
        ensures
            ({
                let call = RepatriateCall { currency_id, slashed, beneficiary, amount, status };
                &&& r == old(self).repatriate_answer(call)
                &&& *final(self) == old(self).after(LedgerRequest::Repatriate(call))
                &&& final(self).requests() == old(self).requests().push(LedgerRequest::Repatriate(call))
            }),
    ;
}

} // verus!
