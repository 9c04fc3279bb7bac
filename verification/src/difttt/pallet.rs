//! The pallet's storage and the calls that change it.
use std::collections::{BTreeMap, BTreeSet};
use vstd::prelude::*;

use crate::bounded::BoundedBytes;
use super::{
    fresh_recipe, Action, ActionView, Error, Event, Order, Recipe, RecipeView, TransferProtectInterface, Triger,
};
use crate::dex::{BuyTokenInterface, SwapLimit};
use crate::tokens::{BalanceStatus, LedgerRequest, MultiReservableCurrency, RepatriateCall, ReserveCall, TransferCall};
use crate::support::{
    after_id, current_id, ensure_none, ensure_signed, take_id, AccountId, Balance,
    BlockNumber, CurrencyId, DispatchError, Origin,
};

verus! {

/// The pallet's storage.
pub struct Pallet {
    /// `(owner, triger id)` pairs.
    pub triger_owner: BTreeSet<(AccountId, u64)>,
    /// `(owner, action id)` pairs.
    pub action_owner: BTreeSet<(AccountId, u64)>,
    /// `(owner, recipe id)` pairs.
    pub recipe_owner: BTreeSet<(AccountId, u64)>,
    pub map_triger: BTreeMap<u64, Triger>,
    pub map_action: BTreeMap<u64, Action>,
    pub map_recipe: BTreeMap<u64, Recipe>,
    pub next_triger_id: Option<u64>,
    pub next_action_id: Option<u64>,
    pub next_recipe_id: Option<u64>,
    pub orders: BTreeMap<u64, Order>,
    pub next_order_id: Option<u64>,
    pub next_take_order_id: Option<u64>,
    pub amount_limit: Option<Balance>,
    pub tx_block_limit: Option<u64>,
}

/// The pallet's storage as mathematical maps and sets.
#[verifier::ext_equal]
pub struct PalletView {
    pub triger_owner: Set<(AccountId, u64)>,
    pub action_owner: Set<(AccountId, u64)>,
    pub recipe_owner: Set<(AccountId, u64)>,
    pub trigers: Map<u64, Triger>,
    pub actions: Map<u64, ActionView>,
    pub recipes: Map<u64, RecipeView>,
    pub next_triger_id: Option<u64>,
    pub next_action_id: Option<u64>,
    pub next_recipe_id: Option<u64>,
    pub orders: Map<u64, Order>,
    pub next_order_id: Option<u64>,
    pub next_take_order_id: Option<u64>,
    pub amount_limit: Option<Balance>,
    pub tx_block_limit: Option<u64>,
}

impl View for Pallet {
    type V = PalletView;

    open spec fn view(&self) -> PalletView {
        PalletView {
            triger_owner: self.triger_owner@,
            action_owner: self.action_owner@,
            recipe_owner: self.recipe_owner@,
            trigers: self.map_triger@,
            actions: self.map_action@.map_values(|a: Action| a@),
            recipes: self.map_recipe@.map_values(|r: Recipe| r@),
            next_triger_id: self.next_triger_id,
            next_action_id: self.next_action_id,
            next_recipe_id: self.next_recipe_id,
            orders: self.orders@,
            next_order_id: self.next_order_id,
            next_take_order_id: self.next_take_order_id,
            amount_limit: self.amount_limit,
            tx_block_limit: self.tx_block_limit,
        }
    }
}

/// The storage after `who` creates `triger`: it is stored under the next
/// triger id, owned by `who`, and a transfer-protection triger also sets the limits.
pub open spec fn spec_create_triger(s: PalletView, who: AccountId, triger: Triger) -> PalletView {
    let id = current_id(s.next_triger_id);
    let s1 = PalletView {
        trigers: s.trigers.insert(id, triger),
        triger_owner: s.triger_owner.insert((who, id)),
        next_triger_id: after_id(id),
        ..s
    };
    match triger {
        Triger::TransferProtect(_, amount, blocks) => PalletView {
            amount_limit: Some(amount),
            tx_block_limit: Some(blocks),
            ..s1
        },
        _ => s1,
    }
}

impl Pallet {
    /// Empty storage.
    pub fn new() -> (r: Pallet)
        ensures
            r@ == (PalletView {
                triger_owner: Set::empty(),
                action_owner: Set::empty(),
                recipe_owner: Set::empty(),
                trigers: Map::empty(),
                actions: Map::empty(),
                recipes: Map::empty(),
                next_triger_id: None,
                next_action_id: None,
                next_recipe_id: None,
                orders: Map::empty(),
                next_order_id: None,
                next_take_order_id: None,
                amount_limit: None,
                tx_block_limit: None,
            }),
    {
        let r = Pallet {
            triger_owner: BTreeSet::new(),
            action_owner: BTreeSet::new(),
            recipe_owner: BTreeSet::new(),
            map_triger: BTreeMap::new(),
            map_action: BTreeMap::new(),
            map_recipe: BTreeMap::new(),
            next_triger_id: None,
            next_action_id: None,
            next_recipe_id: None,
            orders: BTreeMap::new(),
            next_order_id: None,
            next_take_order_id: None,
            amount_limit: None,
            tx_block_limit: None,
        };
        assert(r@.actions =~= Map::empty());
        assert(r@.recipes =~= Map::empty());
        r
    }

    /// Stores `triger` under the next triger id, owned by the signer.
    pub fn create_triger(&mut self, origin: Origin, triger: Triger) -> (r: Result<
        Event,
        DispatchError<Error>,
    >)
        ensures
            match origin {
                Origin::Signed(who) => {
                    &&& final(self)@ == spec_create_triger(old(self)@, who, triger)
                    &&& r matches Ok(Event::TrigerCreated(id, t)) && id == current_id(
                        old(self).next_triger_id,
                    ) && t == triger
                },
                _ => final(self)@ == old(self)@ && r == Err::<Event, DispatchError<Error>>(
                    DispatchError::BadOrigin,
                ),
            },
    {
        let user = match ensure_signed(origin) {
            Ok(who) => who,
            Err(e) => return Err(e),
        };
        let triger_id = take_id(&mut self.next_triger_id);
        self.map_triger.insert(triger_id, triger);
        self.triger_owner.insert((user, triger_id));
        match triger {
            Triger::TransferProtect(_, amount_limit, blocks_amount) => {
                self.amount_limit = Some(amount_limit);
                self.tx_block_limit = Some(blocks_amount);
            },
            _ => {},
        }
        Ok(Event::TrigerCreated(triger_id, triger))
    }

    /// Stores `action` under the next action id, owned by the signer.
    pub fn create_action(&mut self, origin: Origin, action: Action) -> (r: Result<
        Event,
        DispatchError<Error>,
    >)
        ensures
            match origin {
                Origin::Signed(who) => {
                    &&& final(self)@ == spec_create_action(old(self)@, who, action@)
                    &&& r matches Ok(Event::ActionCreated(id, a)) && id == current_id(
                        old(self).next_action_id,
                    ) && a@ == action@
                },
                _ => final(self)@ == old(self)@ && r is Err && r->Err_0 == DispatchError::<
                    Error,
                >::BadOrigin,
            },
    {
        let user = match ensure_signed(origin) {
            Ok(who) => who,
            Err(e) => return Err(e),
        };
        let action_id = take_id(&mut self.next_action_id);
        let event_action = action.duplicate();
        let ghost pre_actions = self.map_action@;
        self.map_action.insert(action_id, action);
        self.action_owner.insert((user, action_id));
        proof {
            lemma_insert_map_values(pre_actions, action_id, self.map_action@[action_id]);
        }
        Ok(Event::ActionCreated(action_id, event_action))
    }

    /// Joins an existing triger and an existing action in a new recipe owned by the signer.
    pub fn create_recipe(&mut self, origin: Origin, triger_id: u64, action_id: u64) -> (r: Result<
        Event,
        DispatchError<Error>,
    >)
        ensures
            match origin {
                Origin::Signed(who) => if !old(self)@.trigers.contains_key(triger_id) {
                    final(self)@ == old(self)@ && r is Err && r->Err_0 == DispatchError::Module(
                        Error::TrigerIdNotExist,
                    )
                } else if !old(self)@.actions.contains_key(action_id) {
                    final(self)@ == old(self)@ && r is Err && r->Err_0 == DispatchError::Module(
                        Error::ActionIdNotExist,
                    )
                } else {
                    &&& final(self)@ == spec_create_recipe(old(self)@, who, triger_id, action_id)
                    &&& r matches Ok(Event::RecipeCreated(id, rec)) && id == current_id(
                        old(self).next_recipe_id,
                    ) && rec@ == fresh_recipe(triger_id, action_id)
                },
                _ => final(self)@ == old(self)@ && r is Err && r->Err_0 == DispatchError::<
                    Error,
                >::BadOrigin,
            },
    {
        let user = match ensure_signed(origin) {
            Ok(who) => who,
            Err(e) => return Err(e),
        };
        if !self.map_triger.contains_key(&triger_id) {
            return Err(DispatchError::Module(Error::TrigerIdNotExist));
        }
        if !self.map_action.contains_key(&action_id) {
            return Err(DispatchError::Module(Error::ActionIdNotExist));
        }
        let recipe_id = take_id(&mut self.next_recipe_id);
        let recipe = Recipe::fresh(triger_id, action_id);
        let event_recipe = recipe.duplicate();
        let ghost pre_recipes = self.map_recipe@;
        self.map_recipe.insert(recipe_id, recipe);
        self.recipe_owner.insert((user, recipe_id));
        proof {
            lemma_insert_map_values(pre_recipes, recipe_id, self.map_recipe@[recipe_id]);
        }
        Ok(Event::RecipeCreated(recipe_id, event_recipe))
    }

    /// Checks that `recipe_id` names a stored recipe owned by `who`.
    fn ensure_recipe_owner(&self, who: AccountId, recipe_id: u64) -> (r: Result<
        (),
        DispatchError<Error>,
    >)
        ensures
            r == spec_check_recipe_owner(self@, who, recipe_id),
    {
        if !self.map_recipe.contains_key(&recipe_id) {
            return Err(DispatchError::Module(Error::RecipeIdNotExist));
        }
        if !self.recipe_owner.contains(&(who, recipe_id)) {
            return Err(DispatchError::Module(Error::NotOwner));
        }
        Ok(())
    }

    /// Deletes a recipe of the signer.
    pub fn del_recipe(&mut self, origin: Origin, recipe_id: u64) -> (r: Result<
        Event,
        DispatchError<Error>,
    >)
        ensures
            match origin {
                Origin::Signed(who) => match spec_check_recipe_owner(old(self)@, who, recipe_id) {
                    Err(e) => final(self)@ == old(self)@ && r is Err && r->Err_0 == e,
                    Ok(_) => final(self)@ == (PalletView {
                        recipe_owner: old(self)@.recipe_owner.remove((who, recipe_id)),
                        recipes: old(self)@.recipes.remove(recipe_id),
                        ..old(self)@
                    }) && (r matches Ok(Event::RecipeRemoved(id)) && id == recipe_id),
                },
                _ => final(self)@ == old(self)@ && r is Err && r->Err_0 == DispatchError::<
                    Error,
                >::BadOrigin,
            },
    {
        let user = match ensure_signed(origin) {
            Ok(who) => who,
            Err(e) => return Err(e),
        };
        match self.ensure_recipe_owner(user, recipe_id) {
            Ok(()) => {},
            Err(e) => return Err(e),
        }
        let ghost pre_recipes = self.map_recipe@;
        self.recipe_owner.remove(&(user, recipe_id));
        self.map_recipe.remove(&recipe_id);
        proof {
            assert(self.map_recipe@.map_values(|r: Recipe| r@) =~= pre_recipes.map_values(
                |r: Recipe| r@,
            ).remove(recipe_id));
        }
        Ok(Event::RecipeRemoved(recipe_id))
    }

    /// Replaces the stored recipe `recipe_id` by `recipe`.
    fn put_recipe(&mut self, recipe_id: u64, recipe: Recipe)
        ensures
            final(self)@ == (PalletView {
                recipes: old(self)@.recipes.insert(recipe_id, recipe@),
                ..old(self)@
            }),
    {
        let ghost pre_recipes = self.map_recipe@;
        self.map_recipe.insert(recipe_id, recipe);
        proof {
            lemma_insert_map_values(pre_recipes, recipe_id, self.map_recipe@[recipe_id]);
        }
    }

    /// A copy of the stored recipe `recipe_id`.
    fn stored_recipe(&self, recipe_id: u64) -> (r: Recipe)
        requires
            self@.recipes.contains_key(recipe_id),
        ensures
            r@ == self@.recipes[recipe_id],
    {
        let stored = self.map_recipe.get(&recipe_id);
        match stored {
            Some(rec) => rec.duplicate(),
            None => {
                assert(false);
                Recipe::fresh(0, 0)
            },
        }
    }

    /// Enables a recipe of the signer.
    pub fn turn_on_recipe(&mut self, origin: Origin, recipe_id: u64) -> (r: Result<
        Event,
        DispatchError<Error>,
    >)
        ensures
            match origin {
                Origin::Signed(who) => match spec_check_recipe_owner(old(self)@, who, recipe_id) {
                    Err(e) => final(self)@ == old(self)@ && r is Err && r->Err_0 == e,
                    Ok(_) => final(self)@ == spec_set_enable(old(self)@, recipe_id, true)
                        && (r matches Ok(Event::RecipeTurnOned(id)) && id == recipe_id),
                },
                _ => final(self)@ == old(self)@ && r is Err && r->Err_0 == DispatchError::<
                    Error,
                >::BadOrigin,
            },
    {
        let user = match ensure_signed(origin) {
            Ok(who) => who,
            Err(e) => return Err(e),
        };
        match self.ensure_recipe_owner(user, recipe_id) {
            Ok(()) => {},
            Err(e) => return Err(e),
        }
        let mut recipe = self.stored_recipe(recipe_id);
        recipe.enable = true;
        self.put_recipe(recipe_id, recipe);
        Ok(Event::RecipeTurnOned(recipe_id))
    }

    /// Disables a recipe of the signer.
    pub fn turn_off_recipe(&mut self, origin: Origin, recipe_id: u64) -> (r: Result<
        Event,
        DispatchError<Error>,
    >)
        ensures
            match origin {
                Origin::Signed(who) => match spec_check_recipe_owner(old(self)@, who, recipe_id) {
                    Err(e) => final(self)@ == old(self)@ && r is Err && r->Err_0 == e,
                    Ok(_) => final(self)@ == spec_set_enable(old(self)@, recipe_id, false)
                        && (r matches Ok(Event::RecipeTurnOffed(id)) && id == recipe_id),
                },
                _ => final(self)@ == old(self)@ && r is Err && r->Err_0 == DispatchError::<
                    Error,
                >::BadOrigin,
            },
    {
        let user = match ensure_signed(origin) {
            Ok(who) => who,
            Err(e) => return Err(e),
        };
        match self.ensure_recipe_owner(user, recipe_id) {
            Ok(()) => {},
            Err(e) => return Err(e),
        }
        let mut recipe = self.stored_recipe(recipe_id);
        recipe.enable = false;
        self.put_recipe(recipe_id, recipe);
        Ok(Event::RecipeTurnOffed(recipe_id))
    }
}

/// The storage after `who` creates an action.
pub open spec fn spec_create_action(s: PalletView, who: AccountId, action: ActionView) -> PalletView {
    let id = current_id(s.next_action_id);
    PalletView {
        actions: s.actions.insert(id, action),
        action_owner: s.action_owner.insert((who, id)),
        next_action_id: after_id(id),
        ..s
    }
}

/// The storage after `who` creates a recipe joining `triger_id` and `action_id`.
pub open spec fn spec_create_recipe(s: PalletView, who: AccountId, triger_id: u64, action_id: u64) -> PalletView {
    let id = current_id(s.next_recipe_id);
    PalletView {
        recipes: s.recipes.insert(id, fresh_recipe(triger_id, action_id)),
        recipe_owner: s.recipe_owner.insert((who, id)),
        next_recipe_id: after_id(id),
        ..s
    }
}

/// Whether `who` may change recipe `recipe_id`: it must exist and be owned by `who`.
pub open spec fn spec_check_recipe_owner(s: PalletView, who: AccountId, recipe_id: u64) -> Result<
    (),
    DispatchError<Error>,
> {
    if !s.recipes.contains_key(recipe_id) {
        Err(DispatchError::Module(Error::RecipeIdNotExist))
    } else if !s.recipe_owner.contains((who, recipe_id)) {
        Err(DispatchError::Module(Error::NotOwner))
    } else {
        Ok(())
    }
}

/// The storage with the `enable` flag of recipe `recipe_id` set to `on`.
pub open spec fn spec_set_enable(s: PalletView, recipe_id: u64, on: bool) -> PalletView {
    PalletView {
        recipes: s.recipes.insert(recipe_id, RecipeView { enable: on, ..s.recipes[recipe_id] }),
        ..s
    }
}

proof fn lemma_insert_map_values<V: View>(m: Map<u64, V>, k: u64, v: V)
    ensures
        m.insert(k, v).map_values(|x: V| x@) =~= m.map_values(|x: V| x@).insert(k, v@),
{
}

/// The storage with recipe `recipe_id` replaced by `recipe`.
pub open spec fn spec_with_recipe(s: PalletView, recipe_id: u64, recipe: RecipeView) -> PalletView {
    PalletView { recipes: s.recipes.insert(recipe_id, recipe), ..s }
}

/// The storage after recipe `recipe_id` is marked done.
pub open spec fn spec_mark_done(s: PalletView, recipe_id: u64) -> PalletView {
    spec_with_recipe(s, recipe_id, RecipeView { done: true, ..s.recipes[recipe_id] })
}

/// The storage after the time recipe `recipe_id` last looked at its triger is set to `timestamp`.
pub open spec fn spec_stamp(s: PalletView, recipe_id: u64, timestamp: u64) -> PalletView {
    spec_with_recipe(s, recipe_id, RecipeView { last_triger_timestamp: timestamp, ..s.recipes[recipe_id] })
}

/// The storage after the OAK hash of recipe `recipe_id` is set to the first 128 bytes of `hash`.
pub open spec fn spec_keep_oak_hash(s: PalletView, recipe_id: u64, hash: Seq<u8>) -> PalletView {
    spec_with_recipe(s, recipe_id, RecipeView {
        oak_hash: hash.take(if hash.len() <= 128 { hash.len() as int } else { 128 }),
        ..s.recipes[recipe_id]
    })
}

/// The order that `take_order` settles: it is stored under `order_id`.
pub open spec fn spec_order_exists(s: PalletView, order_id: u64) -> Result<Order, DispatchError<Error>> {
    if s.orders.contains_key(order_id) {
        Ok(s.orders[order_id])
    } else {
        Err(DispatchError::Module(Error::InvalidOrderId))
    }
}

/// How a settlement ends, given what the ledger answered to the transfer of the
/// target amount and to the repatriation of the reserved base amount (the latter
/// is only asked for when the transfer went through).
pub open spec fn spec_settlement(transfer: Result<(), u32>, repatriate: Result<Balance, u32>) -> Result<
    (),
    DispatchError<Error>,
> {
    match transfer {
        Err(code) => Err(DispatchError::Other(code)),
        Ok(()) => match repatriate {
            Err(code) => Err(DispatchError::Other(code)),
            Ok(left) => if left == 0 {
                Ok(())
            } else {
                Err(DispatchError::Module(Error::InsufficientBalance))
            },
        },
    }
}

/// The order that `buy_token_unsigned` settles: the one created last.
pub open spec fn spec_last_order_id(s: PalletView) -> u64 {
    let id = current_id(s.next_order_id);
    if id > 0 { (id - 1) as u64 } else { id }
}

/// The storage after an order is placed.
pub open spec fn spec_place_order(s: PalletView, order: Order) -> PalletView {
    let id = current_id(s.next_order_id);
    PalletView { orders: s.orders.insert(id, order), next_order_id: after_id(id), ..s }
}

/// How placing `order` ends, from storage `s` to storage `t` with result `r`,
/// given the ledger's answer to the reservation: a refusal is passed on and
/// nothing is stored, otherwise the order is stored under the next order id.
pub open spec fn placed(
    s: PalletView,
    t: PalletView,
    r: Result<Event, DispatchError<Error>>,
    order: Order,
    reserved: Result<(), u32>,
) -> bool {
    match reserved {
        Err(code) => t == s && r is Err && r->Err_0 == DispatchError::<Error>::Other(code),
        Ok(()) => t == spec_place_order(s, order) && (r matches Ok(Event::OrderCreated(id, o)) && id == current_id(
            s.next_order_id,
        ) && o == order),
    }
}

/// The reservation that placing an order asks of the ledger: the base amount
/// in the base currency, of the order's owner.
pub open spec fn spec_reserve_call(who: AccountId, base_currency_id: CurrencyId, base_amount: Balance) -> ReserveCall {
    ReserveCall { currency_id: base_currency_id, who, amount: base_amount }
}

/// The two requests that settling `order` for `taker` makes of the ledger: the
/// taker pays the target amount to the owner, then the owner's reserved base
/// amount is moved to the taker's free balance.
pub open spec fn spec_settlement_calls(order: Order, taker: AccountId) -> (TransferCall, RepatriateCall) {
    (
        TransferCall { currency_id: order.target_currency_id, from: taker, to: order.owner, amount: order.target_amount },
        RepatriateCall {
            currency_id: order.base_currency_id,
            slashed: order.owner,
            beneficiary: taker,
            amount: order.base_amount,
            status: BalanceStatus::Free,
        },
    )
}

/// The order that a settlement of `order_id` hands over, or why it failed,
/// given the ledger's answers.
pub open spec fn spec_settled_order(
    s: PalletView,
    order_id: u64,
    transferred: Result<(), u32>,
    repatriated: Result<Balance, u32>,
) -> Result<Order, DispatchError<Error>> {
    match spec_order_exists(s, order_id) {
        Err(e) => Err(e),
        Ok(order) => match spec_settlement(transferred, repatriated) {
            Ok(()) => Ok(order),
            Err(e) => Err(e),
        },
    }
}

/// The storage after a settlement of `order_id`, given the ledger's answers:
/// the order is gone when the settlement succeeded, and nothing changed otherwise.
pub open spec fn spec_after_settlement(
    s: PalletView,
    order_id: u64,
    transferred: Result<(), u32>,
    repatriated: Result<Balance, u32>,
) -> PalletView {
    if spec_settled_order(s, order_id, transferred, repatriated) is Ok {
        PalletView { orders: s.orders.remove(order_id), ..s }
    } else {
        s
    }
}

/// A settlement of `order_id` for `taker` against `ledger`: the storage and the
/// ledger afterwards, and the order handed over or why it failed. The ledger is
/// asked for the transfer of [`spec_settlement_calls`] and, once it granted it,
/// for the repatriation; a transfer granted before a refused repatriation stays
/// done in the ledger.
pub open spec fn spec_settle_run<C: MultiReservableCurrency>(
    s: PalletView,
    ledger: C,
    order_id: u64,
    taker: AccountId,
) -> (PalletView, C, Result<Order, DispatchError<Error>>) {
    match spec_order_exists(s, order_id) {
        Err(e) => (s, ledger, Err(e)),
        Ok(order) => {
            let (transfer, repatriate) = spec_settlement_calls(order, taker);
            let transferred = ledger.transfer_answer(transfer);
            let paid = ledger.after(LedgerRequest::Transfer(transfer));
            match transferred {
                Err(code) => (s, paid, Err(DispatchError::Other(code))),
                Ok(()) => {
                    let repatriated = paid.repatriate_answer(repatriate);
                    (
                        spec_after_settlement(s, order_id, transferred, repatriated),
                        paid.after(LedgerRequest::Repatriate(repatriate)),
                        spec_settled_order(s, order_id, transferred, repatriated),
                    )
                },
            }
        },
    }
}

/// The requests that a settlement of `order_id` for `taker` makes of `ledger`:
/// none for a missing order, else the transfer, then the repatriation when the
/// transfer was granted.
pub open spec fn spec_settlement_requests<C: MultiReservableCurrency>(
    s: PalletView,
    ledger: C,
    order_id: u64,
    taker: AccountId,
) -> Seq<LedgerRequest> {
    match spec_order_exists(s, order_id) {
        Err(_) => Seq::empty(),
        Ok(order) => {
            let (transfer, repatriate) = spec_settlement_calls(order, taker);
            if ledger.transfer_answer(transfer) is Ok {
                seq![LedgerRequest::Transfer(transfer), LedgerRequest::Repatriate(repatriate)]
            } else {
                seq![LedgerRequest::Transfer(transfer)]
            }
        },
    }
}

/// What an unsigned purchase by `buyer` against `ledger` amounts to: the
/// storage and the ledger afterwards, and either the order taken (its id and
/// contents) with the purchase's token names and amount, or the error.
pub open spec fn spec_purchase<C: MultiReservableCurrency>(
    s: PalletView,
    ledger: C,
    buyer: AccountId,
    sell_token_name: Seq<u8>,
    sell_amount: u64,
    buy_token_name: Seq<u8>,
) -> (PalletView, C, Result<(u64, Order, Seq<u8>, u64, Seq<u8>), DispatchError<Error>>) {
    let order_id = spec_last_order_id(s);
    let (after, after_ledger, settled) = spec_settle_run(s, ledger, order_id, buyer);
    (
        after,
        after_ledger,
        match settled {
            Ok(order) => Ok((order_id, order, sell_token_name, sell_amount, buy_token_name)),
            Err(e) => Err(e),
        },
    )
}

/// The result of a purchase on the exchange that answered `answer`: the
/// exchange's refusal is passed on, otherwise the purchase is reported.
pub open spec fn bought(
    r: Result<Event, DispatchError<Error>>,
    who: AccountId,
    path: Seq<CurrencyId>,
    token_a: Balance,
    token_b: Balance,
    answer: Result<Balance, u32>,
) -> bool {
    match answer {
        Ok(_) => r matches Ok(Event::BuyToken(w, p, a, b)) && w == who && p@ == path && a == token_a && b == token_b,
        Err(code) => r is Err && r->Err_0 == DispatchError::<Error>::Other(code),
    }
}

/// The result of a swap on the exchange that answered `answer`.
pub open spec fn swapped(
    r: Result<Event, DispatchError<Error>>,
    who: AccountId,
    path: Seq<CurrencyId>,
    limit: SwapLimit,
    answer: Result<Balance, u32>,
) -> bool {
    match answer {
        Ok(_) => r matches Ok(Event::SwapToken(w, p, l)) && w == who && p@ == path && l == limit,
        Err(code) => r is Err && r->Err_0 == DispatchError::<Error>::Other(code),
    }
}

impl Pallet {
    /// Marks recipe `recipe_id` as done (sent by the off-chain worker, unsigned).
    pub fn set_recipe_done_unsigned(&mut self, origin: Origin, _block_number: BlockNumber, recipe_id: u64) -> (r: Result<
        Event,
        DispatchError<Error>,
    >)
        ensures
            if origin != Origin::Unsigned {
                final(self)@ == old(self)@ && r is Err && r->Err_0 == DispatchError::<Error>::BadOrigin
            } else if !old(self)@.recipes.contains_key(recipe_id) {
                final(self)@ == old(self)@ && r is Err && r->Err_0 == DispatchError::Module(Error::RecipeIdNotExist)
            } else {
                &&& final(self)@ == spec_mark_done(old(self)@, recipe_id)
                &&& r matches Ok(Event::RecipeDone(id)) && id == recipe_id
            },
    {
        match ensure_none(origin) {
            Ok(()) => {},
            Err(e) => return Err(e),
        }
        if !self.map_recipe.contains_key(&recipe_id) {
            return Err(DispatchError::Module(Error::RecipeIdNotExist));
        }
        let mut recipe = self.stored_recipe(recipe_id);
        recipe.done = true;
        self.put_recipe(recipe_id, recipe);
        Ok(Event::RecipeDone(recipe_id))
    }

    /// Records when recipe `recipe_id` last looked at its triger (sent by the off-chain worker, unsigned).
    pub fn update_recipe_triger_time_unsigned(
        &mut self,
        origin: Origin,
        _block_number: BlockNumber,
        recipe_id: u64,
        timestamp: u64,
    ) -> (r: Result<Event, DispatchError<Error>>)
        ensures
            if origin != Origin::Unsigned {
                final(self)@ == old(self)@ && r is Err && r->Err_0 == DispatchError::<Error>::BadOrigin
            } else if !old(self)@.recipes.contains_key(recipe_id) {
                final(self)@ == old(self)@ && r is Err && r->Err_0 == DispatchError::Module(Error::RecipeIdNotExist)
            } else {
                &&& final(self)@ == spec_stamp(old(self)@, recipe_id, timestamp)
                &&& r matches Ok(Event::RecipeTrigerTimeUpdated(id, t)) && id == recipe_id && t == timestamp
            },
    {
        match ensure_none(origin) {
            Ok(()) => {},
            Err(e) => return Err(e),
        }
        if !self.map_recipe.contains_key(&recipe_id) {
            return Err(DispatchError::Module(Error::RecipeIdNotExist));
        }
        let mut recipe = self.stored_recipe(recipe_id);
        recipe.last_triger_timestamp = timestamp;
        self.put_recipe(recipe_id, recipe);
        Ok(Event::RecipeTrigerTimeUpdated(recipe_id, timestamp))
    }

    /// Records the hash of the OAK task behind recipe `recipe_id` (sent by the
    /// off-chain worker, unsigned). Only the first 128 bytes of `hash` are kept.
    pub fn update_recipe_oak_hash_unsigned(
        &mut self,
        origin: Origin,
        _block_number: BlockNumber,
        recipe_id: u64,
        hash: Vec<u8>,
    ) -> (r: Result<Event, DispatchError<Error>>)
        ensures
            if origin != Origin::Unsigned {
                final(self)@ == old(self)@ && r is Err && r->Err_0 == DispatchError::<Error>::BadOrigin
            } else if !old(self)@.recipes.contains_key(recipe_id) {
                final(self)@ == old(self)@ && r is Err && r->Err_0 == DispatchError::Module(Error::RecipeIdNotExist)
            } else {
                &&& final(self)@ == spec_keep_oak_hash(old(self)@, recipe_id, hash@)
                &&& r matches Ok(Event::RecipeOakHashUpdated(id, h)) && id == recipe_id && h@ == hash@
            },
    {
        match ensure_none(origin) {
            Ok(()) => {},
            Err(e) => return Err(e),
        }
        if !self.map_recipe.contains_key(&recipe_id) {
            return Err(DispatchError::Module(Error::RecipeIdNotExist));
        }
        let mut recipe = self.stored_recipe(recipe_id);
        let mut oak_hash: BoundedBytes<128> = BoundedBytes::new();
        oak_hash.try_extend(hash.as_slice());
        assert(oak_hash@ =~= hash@.take(if hash@.len() <= 128 { hash@.len() as int } else { 128 }));
        recipe.oak_hash = oak_hash;
        self.put_recipe(recipe_id, recipe);
        Ok(Event::RecipeOakHashUpdated(recipe_id, hash))
    }

    /// The reservation that placing an order asks of the ledger.
    pub fn reserve_call(who: AccountId, base_currency_id: CurrencyId, base_amount: Balance) -> (c: ReserveCall)
        ensures
            c == spec_reserve_call(who, base_currency_id, base_amount),
    {
        ReserveCall { currency_id: base_currency_id, who, amount: base_amount }
    }

    /// Places an order for the signer: asks `currency` for the reservation of
    /// [`Self::reserve_call`] and, once it is granted, stores the order under
    /// the next order id.
    pub fn submit_order<C: MultiReservableCurrency>(
        &mut self,
        currency: &mut C,
        origin: Origin,
        base_currency_id: CurrencyId,
        base_amount: Balance,
        target_currency_id: CurrencyId,
        target_amount: Balance,
    ) -> (r: Result<Event, DispatchError<Error>>)
        ensures
            match origin {
                Origin::Signed(who) => {
                    let call = spec_reserve_call(who, base_currency_id, base_amount);
                    &&& placed(
                        old(self)@,
                        final(self)@,
                        r,
                        Order { base_currency_id, base_amount, target_currency_id, target_amount, owner: who },
                        old(currency).reserve_answer(call),
                    )
                    &&& *final(currency) == old(currency).after(LedgerRequest::Reserve(call))
                    &&& final(currency).requests() == old(currency).requests().push(LedgerRequest::Reserve(call))
                },
                _ => {
                    &&& final(self)@ == old(self)@ && *final(currency) == *old(currency)
                    &&& r is Err && r->Err_0 == DispatchError::<Error>::BadOrigin
                },
            },
    {
        let who = match ensure_signed(origin) {
            Ok(who) => who,
            Err(e) => return Err(e),
        };
        let call = Self::reserve_call(who, base_currency_id, base_amount);
        let reserved = currency.reserve(call.currency_id, call.who, call.amount);
        self.place_order(who, base_currency_id, base_amount, target_currency_id, target_amount, reserved)
    }

    /// Finishes placing an order once the ledger has answered the reservation:
    /// a refusal is passed on, otherwise the order is stored under the next order id.
    pub fn place_order(
        &mut self,
        who: AccountId,
        base_currency_id: CurrencyId,
        base_amount: Balance,
        target_currency_id: CurrencyId,
        target_amount: Balance,
        reserved: Result<(), u32>,
    ) -> (r: Result<Event, DispatchError<Error>>)
        ensures
            placed(
                old(self)@,
                final(self)@,
                r,
                Order { base_currency_id, base_amount, target_currency_id, target_amount, owner: who },
                reserved,
            ),
    {
        match reserved {
            Err(code) => return Err(DispatchError::Other(code)),
            Ok(()) => {},
        }
        let order_id = match self.next_order_id {
            Some(id) => id,
            None => 0,
        };
        let order = Order { base_currency_id, base_amount, target_currency_id, target_amount, owner: who };
        self.orders.insert(order_id, order);
        self.next_order_id = Some(order_id.saturating_add(1));
        Ok(Event::OrderCreated(order_id, order))
    }

    /// The requests that settling `order` for `taker` makes of the ledger.
    pub fn settlement_calls(order: &Order, taker: AccountId) -> (c: (TransferCall, RepatriateCall))
        ensures
            c == spec_settlement_calls(*order, taker),
    {
        (
            TransferCall { currency_id: order.target_currency_id, from: taker, to: order.owner, amount: order.target_amount },
            RepatriateCall {
                currency_id: order.base_currency_id,
                slashed: order.owner,
                beneficiary: taker,
                amount: order.base_amount,
                status: BalanceStatus::Free,
            },
        )
    }

    /// Removes order `order_id` once the ledger has answered: the transfer of the
    /// target amount from the taker to the owner, then the repatriation of the
    /// reserved base amount from the owner to the taker, must both succeed and
    /// the repatriation must leave nothing behind; otherwise the storage is unchanged.
    pub fn settle_order(
        &mut self,
        order_id: u64,
        transferred: Result<(), u32>,
        repatriated: Result<Balance, u32>,
    ) -> (r: Result<(), DispatchError<Error>>)
        ensures
            r == spec_settlement(transferred, repatriated),
            final(self)@ == (if r is Ok { PalletView { orders: old(self)@.orders.remove(order_id), ..old(self)@ } } else { old(self)@ }),
    {
        match transferred {
            Err(code) => return Err(DispatchError::Other(code)),
            Ok(()) => {},
        }
        let left = match repatriated {
            Err(code) => return Err(DispatchError::Other(code)),
            Ok(left) => left,
        };
        if left != 0 {
            return Err(DispatchError::Module(Error::InsufficientBalance));
        }
        self.orders.remove(&order_id);
        Ok(())
    }

    /// Settles order `order_id` between its owner and `taker` (see [`spec_settle_run`]):
    /// asks `currency` for the requests of [`Self::settlement_calls`] (the
    /// repatriation only once the transfer went through) and settles with
    /// [`Self::settle_order`].
    fn settle_through<C: MultiReservableCurrency>(&mut self, currency: &mut C, taker: AccountId, order_id: u64) -> (r: Result<
        Order,
        DispatchError<Error>,
    >)
        ensures
            (final(self)@, *final(currency), r) == spec_settle_run(old(self)@, *old(currency), order_id, taker),
            final(currency).requests() == old(currency).requests() + spec_settlement_requests(
                old(self)@,
                *old(currency),
                order_id,
                taker,
            ),
    {
        let order = match self.orders.get(&order_id) {
            Some(o) => *o,
            None => {
                assert(old(currency).requests() + Seq::<LedgerRequest>::empty() =~= old(currency).requests());
                return Err(DispatchError::Module(Error::InvalidOrderId));
            },
        };
        let (transfer, repatriate) = Self::settlement_calls(&order, taker);
        let transferred = currency.transfer(transfer.currency_id, transfer.from, transfer.to, transfer.amount);
        let repatriated = match transferred {
            Ok(()) => currency.repatriate_reserved(
                repatriate.currency_id,
                repatriate.slashed,
                repatriate.beneficiary,
                repatriate.amount,
                repatriate.status,
            ),
            Err(code) => Err(code),
        };
        proof {
            let start = old(currency).requests();
            if transferred is Ok {
                assert(currency.requests() =~= start + seq![
                    LedgerRequest::Transfer(transfer),
                    LedgerRequest::Repatriate(repatriate),
                ]);
            } else {
                assert(currency.requests() =~= start + seq![LedgerRequest::Transfer(transfer)]);
            }
        }
        match self.settle_order(order_id, transferred, repatriated) {
            Ok(()) => Ok(order),
            Err(e) => Err(e),
        }
    }

    /// The signer takes order `order_id`: pays its target amount to the owner and
    /// receives the reserved base amount (see [`spec_settle_run`]).
    pub fn take_order<C: MultiReservableCurrency>(&mut self, currency: &mut C, origin: Origin, order_id: u64) -> (r: Result<
        Event,
        DispatchError<Error>,
    >)
        ensures
            match origin {
                Origin::Signed(who) => {
                    let (after, ledger, settled) = spec_settle_run(old(self)@, *old(currency), order_id, who);
                    &&& final(self)@ == after && *final(currency) == ledger
                    &&& final(currency).requests() == old(currency).requests() + spec_settlement_requests(
                        old(self)@,
                        *old(currency),
                        order_id,
                        who,
                    )
                    &&& match settled {
                        Ok(order) => r matches Ok(Event::OrderTaken(taker, id, o)) && taker == who && id == order_id
                            && o == order,
                        Err(e) => r is Err && r->Err_0 == e,
                    }
                },
                _ => {
                    &&& final(self)@ == old(self)@ && *final(currency) == *old(currency)
                    &&& r is Err && r->Err_0 == DispatchError::<Error>::BadOrigin
                },
            },
    {
        let who = match ensure_signed(origin) {
            Ok(who) => who,
            Err(e) => return Err(e),
        };
        match self.settle_through(currency, who, order_id) {
            Ok(order) => Ok(Event::OrderTaken(who, order_id, order)),
            Err(e) => Err(e),
        }
    }

    /// The off-chain worker's purchase for a `BuyToken` recipe (unsigned): `buyer`
    /// takes the order created last (see [`spec_purchase`]).
    pub fn buy_token_unsigned<C: MultiReservableCurrency>(
        &mut self,
        currency: &mut C,
        origin: Origin,
        _block_number: BlockNumber,
        buyer: AccountId,
        sell_token_name: Vec<u8>,
        sell_amount: u64,
        buy_token_name: Vec<u8>,
    ) -> (r: Result<(Event, Event), DispatchError<Error>>)
        ensures
            origin != Origin::Unsigned ==> {
                &&& final(self)@ == old(self)@ && *final(currency) == *old(currency)
                &&& r is Err && r->Err_0 == DispatchError::<Error>::BadOrigin
            },
            origin == Origin::Unsigned ==> {
                let (after, ledger, outcome) = spec_purchase(
                    old(self)@,
                    *old(currency),
                    buyer,
                    sell_token_name@,
                    sell_amount,
                    buy_token_name@,
                );
                &&& final(self)@ == after && *final(currency) == ledger
                &&& final(currency).requests() == old(currency).requests() + spec_settlement_requests(
                    old(self)@,
                    *old(currency),
                    spec_last_order_id(old(self)@),
                    buyer,
                )
                &&& match outcome {
                    Ok((order_id, order, sell, amount, buy)) => r matches Ok((
                        Event::OrderTaken(taker, id, o),
                        Event::TokenBought(b, s, a, t),
                    )) && taker == buyer && id == order_id && o == order && b == buyer && s@ == sell && a == amount
                        && t@ == buy,
                    Err(e) => r is Err && r->Err_0 == e,
                }
            },
    {
        match ensure_none(origin) {
            Ok(()) => {},
            Err(e) => return Err(e),
        }
        let mut order_id = match self.next_order_id {
            Some(id) => id,
            None => 0,
        };
        if order_id > 0 {
            order_id = order_id - 1;
        }
        match self.settle_through(currency, buyer, order_id) {
            Ok(order) => Ok((
                Event::OrderTaken(buyer, order_id, order),
                Event::TokenBought(buyer, sell_token_name, sell_amount, buy_token_name),
            )),
            Err(e) => Err(e),
        }
    }

    /// The result of a purchase once the exchange has answered.
    pub fn buy_outcome(
        who: AccountId,
        path: Vec<CurrencyId>,
        token_a: Balance,
        token_b: Balance,
        answer: Result<Balance, u32>,
    ) -> (r: Result<Event, DispatchError<Error>>)
        ensures
            bought(r, who, path@, token_a, token_b, answer),
    {
        match answer {
            Ok(_) => Ok(Event::BuyToken(who, path, token_a, token_b)),
            Err(code) => Err(DispatchError::Other(code)),
        }
    }

    /// The result of a swap once the exchange has answered.
    pub fn swap_outcome(who: AccountId, path: Vec<CurrencyId>, limit: SwapLimit, answer: Result<Balance, u32>) -> (r: Result<
        Event,
        DispatchError<Error>,
    >)
        ensures
            swapped(r, who, path@, limit, answer),
    {
        match answer {
            Ok(_) => Ok(Event::SwapToken(who, path, limit)),
            Err(code) => Err(DispatchError::Other(code)),
        }
    }

    /// Buys `token_b` of the last currency of `path` for `token_a` of the first:
    /// asks `exchange` once, with the signer, `path` and both amounts as given,
    /// and reports its answer with [`Self::buy_outcome`].
    pub fn buy_token_in_difttt<B: BuyTokenInterface>(
        &self,
        exchange: &mut B,
        origin: Origin,
        path: Vec<CurrencyId>,
        token_a: Balance,
        token_b: Balance,
    ) -> (r: Result<Event, DispatchError<Error>>)
        ensures
            match origin {
                Origin::Signed(who) => {
                    &&& bought(r, who, path@, token_a, token_b, old(exchange).buy_answer(who, path@, token_a, token_b))
                    &&& final(exchange).buy_requests() == old(exchange).buy_requests().push((who, path@, token_a, token_b))
                    &&& final(exchange).swap_requests() == old(exchange).swap_requests()
                },
                _ => *final(exchange) == *old(exchange) && r is Err && r->Err_0 == DispatchError::<Error>::BadOrigin,
            },
    {
        let who = match ensure_signed(origin) {
            Ok(who) => who,
            Err(e) => return Err(e),
        };
        let answer = exchange.buy_token(who, path.as_slice(), token_a, token_b);
        Self::buy_outcome(who, path, token_a, token_b, answer)
    }

    /// Swaps along `path` within `limit`: asks `exchange` once, with the signer,
    /// `path` and `limit` as given, and reports its answer with [`Self::swap_outcome`].
    pub fn swap_token_in_difttt<B: BuyTokenInterface>(
        &self,
        exchange: &mut B,
        origin: Origin,
        path: Vec<CurrencyId>,
        limit: SwapLimit,
    ) -> (r: Result<Event, DispatchError<Error>>)
        ensures
            match origin {
                Origin::Signed(who) => {
                    &&& swapped(r, who, path@, limit, old(exchange).swap_answer(who, path@, limit))
                    &&& final(exchange).swap_requests() == old(exchange).swap_requests().push((who, path@, limit))
                    &&& final(exchange).buy_requests() == old(exchange).buy_requests()
                },
                _ => *final(exchange) == *old(exchange) && r is Err && r->Err_0 == DispatchError::<Error>::BadOrigin,
            },
    {
        let who = match ensure_signed(origin) {
            Ok(who) => who,
            Err(e) => return Err(e),
        };
        let answer = exchange.swap_token(who, path.as_slice(), limit);
        Self::swap_outcome(who, path, limit, answer)
    }
}

impl TransferProtectInterface for Pallet {
    /// The amount limit per transfer set by the last transfer-protection triger, or 0.
    fn get_amout_limit(&self) -> (r: Balance)
        ensures
            r == (match self@.amount_limit { Some(a) => a, None => 0 }),
    {
        match self.amount_limit {
            Some(a) => a,
            None => 0,
        }
    }

    /// The transfer count limit per block window set by the last transfer-protection triger, or 3.
    fn get_tx_block_limit(&self) -> (r: u64)
        ensures
            r == (match self@.tx_block_limit { Some(b) => b, None => 3 }),
    {
        match self.tx_block_limit {
            Some(b) => b,
            None => 3,
        }
    }
}

} // verus!
