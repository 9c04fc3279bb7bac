use std::collections::BTreeMap;

use difttt::bounded::BoundedBytes;
use difttt::dex::{BuyLog, BuyTokenInterface, CurrencyPath, SwapLimit, SwapLog};
use difttt::difttt::pallet::Pallet;
use difttt::difttt::unsigned::{validate_unsigned, InvalidTransaction};
use difttt::difttt::{Action, Call, Error, Event, Order, TransferProtectInterface, Triger};
use difttt::support::{AccountId, Balance, CurrencyId, DispatchError, Origin};
use difttt::tokens::{
    BalanceStatus, LedgerLog, LedgerRequest, MultiReservableCurrency, RepatriateCall, ReserveCall, TransferCall,
};

fn bytes<const N: usize>(v: &[u8]) -> BoundedBytes<N> {
    BoundedBytes::<N>::try_from_vec(v.to_vec()).unwrap()
}

fn slack() -> Action {
    Action::Slack(bytes(b"https://hooks.example/abc"), bytes(b"hello"))
}

/// A ledger that keeps free and reserved balances per account and currency.
#[derive(Default)]
struct Ledger {
    free: BTreeMap<(AccountId, CurrencyId), Balance>,
    reserved: BTreeMap<(AccountId, CurrencyId), Balance>,
    refuse_transfers: bool,
}

impl Ledger {
    fn free(&self, who: AccountId, c: CurrencyId) -> Balance {
        *self.free.get(&(who, c)).unwrap_or(&0)
    }
    fn reserved(&self, who: AccountId, c: CurrencyId) -> Balance {
        *self.reserved.get(&(who, c)).unwrap_or(&0)
    }
}

impl MultiReservableCurrency for Ledger {
    // The ledger's mathematical description exists for verification only.
    fn requests(&self) -> LedgerLog {
        unreachable!()
    }
    fn after(&self, _request: LedgerRequest) -> Self {
        unreachable!()
    }
    fn transfer_answer(&self, _call: TransferCall) -> Result<(), u32> {
        unreachable!()
    }
    fn reserve_answer(&self, _call: ReserveCall) -> Result<(), u32> {
        unreachable!()
    }
    fn repatriate_answer(&self, _call: RepatriateCall) -> Result<Balance, u32> {
        unreachable!()
    }
    fn transfer(&mut self, c: CurrencyId, from: AccountId, to: AccountId, amount: Balance) -> Result<(), u32> {
        if self.refuse_transfers || self.free(from, c) < amount {
            return Err(7);
        }
        self.free.insert((from, c), self.free(from, c) - amount);
        self.free.insert((to, c), self.free(to, c) + amount);
        Ok(())
    }
    fn reserve(&mut self, c: CurrencyId, who: AccountId, amount: Balance) -> Result<(), u32> {
        if self.free(who, c) < amount {
            return Err(3);
        }
        self.free.insert((who, c), self.free(who, c) - amount);
        self.reserved.insert((who, c), self.reserved(who, c) + amount);
        Ok(())
    }
    fn repatriate_reserved(
        &mut self,
        c: CurrencyId,
        slashed: AccountId,
        beneficiary: AccountId,
        amount: Balance,
        _status: BalanceStatus,
    ) -> Result<Balance, u32> {
        let moved = amount.min(self.reserved(slashed, c));
        self.reserved.insert((slashed, c), self.reserved(slashed, c) - moved);
        self.free.insert((beneficiary, c), self.free(beneficiary, c) + moved);
        Ok(amount - moved)
    }
}

struct Exchange {
    answer: Result<Balance, u32>,
}

impl BuyTokenInterface for Exchange {
    // The exchange's mathematical description exists for verification only.
    fn buy_requests(&self) -> BuyLog {
        unreachable!()
    }
    fn swap_requests(&self) -> SwapLog {
        unreachable!()
    }
    fn buy_answer(&self, _who: AccountId, _path: CurrencyPath, _a: Balance, _b: Balance) -> Result<Balance, u32> {
        unreachable!()
    }
    fn swap_answer(&self, _who: AccountId, _path: CurrencyPath, _limit: SwapLimit) -> Result<Balance, u32> {
        unreachable!()
    }
    fn buy_token(&mut self, _who: AccountId, _path: &[CurrencyId], _a: Balance, _b: Balance) -> Result<Balance, u32> {
        self.answer
    }
    fn swap_token(&mut self, _who: AccountId, _path: &[CurrencyId], _limit: SwapLimit) -> Result<Balance, u32> {
        self.answer
    }
}

#[test]
fn transfer_protect_triger_sets_the_limits() {
    let mut pallet = Pallet::new();
    assert_eq!(pallet.get_amout_limit(), 0);
    assert_eq!(pallet.get_tx_block_limit(), 3);
    assert!(matches!(
        pallet.create_triger(Origin::Signed(5), Triger::TransferProtect(1, 1000, 9)),
        Ok(Event::TrigerCreated(0, Triger::TransferProtect(1, 1000, 9)))
    ));
    assert_eq!(pallet.get_amout_limit(), 1000);
    assert_eq!(pallet.get_tx_block_limit(), 9);
    pallet.create_triger(Origin::Signed(5), Triger::Timer(1, 2)).unwrap();
    assert_eq!(pallet.get_amout_limit(), 1000);
    assert!(pallet.triger_owner.contains(&(5, 1)));
}

#[test]
fn triger_counter_saturates() {
    let mut pallet = Pallet::new();
    pallet.next_triger_id = Some(u64::MAX);
    assert!(matches!(pallet.create_triger(Origin::Signed(1), Triger::Timer(1, 1)), Ok(Event::TrigerCreated(u64::MAX, _))));
    assert_eq!(pallet.next_triger_id, Some(u64::MAX));
    assert!(matches!(pallet.create_triger(Origin::Signed(1), Triger::Timer(2, 2)), Ok(Event::TrigerCreated(u64::MAX, _))));
    assert_eq!(pallet.map_triger.get(&u64::MAX), Some(&Triger::Timer(2, 2)));
}

#[test]
fn action_round_trip() {
    let mut pallet = Pallet::new();
    let created = pallet.create_action(Origin::Signed(2), slack());
    match created {
        Ok(Event::ActionCreated(0, Action::Slack(url, message))) => {
            assert_eq!(url.as_slice(), b"https://hooks.example/abc");
            assert_eq!(message.as_slice(), b"hello");
        },
        _ => panic!("unexpected outcome"),
    }
    assert!(pallet.action_owner.contains(&(2, 0)));
    assert!(matches!(pallet.create_action(Origin::Root, slack()), Err(DispatchError::BadOrigin)));
}

fn with_recipe() -> Pallet {
    let mut pallet = Pallet::new();
    pallet.create_triger(Origin::Signed(1), Triger::Schedule(0, 10)).unwrap();
    pallet.create_action(Origin::Signed(1), slack()).unwrap();
    pallet.create_recipe(Origin::Signed(1), 0, 0).unwrap();
    pallet
}

#[test]
fn recipe_life_cycle() {
    let mut pallet = Pallet::new();
    assert!(matches!(pallet.create_recipe(Origin::Signed(1), 0, 0), Err(DispatchError::Module(Error::TrigerIdNotExist))));
    pallet.create_triger(Origin::Signed(1), Triger::Schedule(0, 10)).unwrap();
    assert!(matches!(pallet.create_recipe(Origin::Signed(1), 0, 0), Err(DispatchError::Module(Error::ActionIdNotExist))));
    pallet.create_action(Origin::Signed(1), slack()).unwrap();
    match pallet.create_recipe(Origin::Signed(1), 0, 0) {
        Ok(Event::RecipeCreated(0, r)) => {
            assert!(r.enable && !r.done && r.times == 0 && r.max_times == 0 && r.last_triger_timestamp == 0);
            assert_eq!(r.oak_hash.len(), 0);
        },
        _ => panic!("unexpected outcome"),
    }
    assert!(matches!(pallet.turn_off_recipe(Origin::Signed(1), 0), Ok(Event::RecipeTurnOffed(0))));
    assert!(!pallet.map_recipe.get(&0).unwrap().enable);
    assert!(matches!(pallet.turn_on_recipe(Origin::Signed(1), 0), Ok(Event::RecipeTurnOned(0))));
    assert!(pallet.map_recipe.get(&0).unwrap().enable);
    assert!(matches!(pallet.turn_on_recipe(Origin::Signed(9), 0), Err(DispatchError::Module(Error::NotOwner))));
    assert!(matches!(pallet.del_recipe(Origin::Signed(9), 0), Err(DispatchError::Module(Error::NotOwner))));
    assert!(matches!(pallet.del_recipe(Origin::Signed(1), 0), Ok(Event::RecipeRemoved(0))));
    assert!(matches!(pallet.del_recipe(Origin::Signed(1), 0), Err(DispatchError::Module(Error::RecipeIdNotExist))));
    assert!(matches!(pallet.turn_off_recipe(Origin::Unsigned, 0), Err(DispatchError::BadOrigin)));
}

#[test]
fn unsigned_recipe_updates() {
    let mut pallet = with_recipe();
    assert!(matches!(pallet.set_recipe_done_unsigned(Origin::Signed(1), 3, 0), Err(DispatchError::BadOrigin)));
    assert!(matches!(pallet.set_recipe_done_unsigned(Origin::Unsigned, 3, 4), Err(DispatchError::Module(Error::RecipeIdNotExist))));
    assert!(matches!(pallet.set_recipe_done_unsigned(Origin::Unsigned, 3, 0), Ok(Event::RecipeDone(0))));
    assert!(pallet.map_recipe.get(&0).unwrap().done);
    assert!(matches!(
        pallet.update_recipe_triger_time_unsigned(Origin::Unsigned, 3, 0, 1234),
        Ok(Event::RecipeTrigerTimeUpdated(0, 1234))
    ));
    assert_eq!(pallet.map_recipe.get(&0).unwrap().last_triger_timestamp, 1234);
    let long_hash: Vec<u8> = (0..200u32).map(|i| (i % 251) as u8).collect();
    match pallet.update_recipe_oak_hash_unsigned(Origin::Unsigned, 3, 0, long_hash.clone()) {
        Ok(Event::RecipeOakHashUpdated(0, h)) => assert_eq!(h, long_hash),
        _ => panic!("unexpected outcome"),
    }
    assert_eq!(pallet.map_recipe.get(&0).unwrap().oak_hash.as_slice(), &long_hash[..128]);
    pallet.update_recipe_oak_hash_unsigned(Origin::Unsigned, 3, 0, b"0xabc".to_vec()).unwrap();
    assert_eq!(pallet.map_recipe.get(&0).unwrap().oak_hash.as_slice(), b"0xabc");
    assert!(matches!(
        pallet.update_recipe_oak_hash_unsigned(Origin::Signed(1), 3, 0, vec![1]),
        Err(DispatchError::BadOrigin)
    ));
}

#[test]
fn orders_are_placed_and_taken() {
    let mut pallet = Pallet::new();
    let mut ledger = Ledger::default();
    ledger.free.insert((1, 10), 100);
    ledger.free.insert((2, 20), 50);
    assert!(matches!(pallet.submit_order(&mut ledger, Origin::Signed(1), 10, 500, 20, 40), Err(DispatchError::Other(3))));
    assert!(pallet.orders.is_empty());
    let placed = pallet.submit_order(&mut ledger, Origin::Signed(1), 10, 60, 20, 40);
    let order = Order { base_currency_id: 10, base_amount: 60, target_currency_id: 20, target_amount: 40, owner: 1 };
    assert!(matches!(placed, Ok(Event::OrderCreated(0, o)) if o == order));
    assert_eq!(ledger.reserved(1, 10), 60);
    assert_eq!(pallet.next_order_id, Some(1));
    assert!(matches!(pallet.take_order(&mut ledger, Origin::Signed(2), 5), Err(DispatchError::Module(Error::InvalidOrderId))));
    let taken = pallet.take_order(&mut ledger, Origin::Signed(2), 0);
    assert!(matches!(taken, Ok(Event::OrderTaken(2, 0, o)) if o == order));
    assert!(pallet.orders.is_empty());
    assert_eq!(ledger.free(2, 10), 60);
    assert_eq!(ledger.free(1, 20), 40);
    assert!(matches!(pallet.take_order(&mut ledger, Origin::Signed(2), 0), Err(DispatchError::Module(Error::InvalidOrderId))));
}

#[test]
fn failed_settlement_keeps_the_order() {
    let mut pallet = Pallet::new();
    let mut ledger = Ledger::default();
    ledger.free.insert((1, 10), 100);
    pallet.submit_order(&mut ledger, Origin::Signed(1), 10, 60, 20, 40).unwrap();
    // The taker has nothing to pay with.
    assert!(matches!(pallet.take_order(&mut ledger, Origin::Signed(2), 0), Err(DispatchError::Other(7))));
    assert_eq!(pallet.orders.len(), 1);
    // The reservation is gone: the repatriation leaves everything behind.
    ledger.reserved.insert((1, 10), 0);
    ledger.free.insert((2, 20), 40);
    assert!(matches!(
        pallet.take_order(&mut ledger, Origin::Signed(2), 0),
        Err(DispatchError::Module(Error::InsufficientBalance))
    ));
    assert_eq!(pallet.orders.len(), 1);
}

#[test]
fn settle_order_outcomes() {
    let mut pallet = Pallet::new();
    pallet.place_order(1, 10, 60, 20, 40, Ok(())).unwrap();
    assert!(matches!(pallet.place_order(1, 10, 60, 20, 40, Err(9)), Err(DispatchError::Other(9))));
    assert!(matches!(pallet.settle_order(0, Err(4), Ok(0)), Err(DispatchError::Other(4))));
    assert!(matches!(pallet.settle_order(0, Ok(()), Err(5)), Err(DispatchError::Other(5))));
    assert!(matches!(pallet.settle_order(0, Ok(()), Ok(1)), Err(DispatchError::Module(Error::InsufficientBalance))));
    assert_eq!(pallet.orders.len(), 1);
    assert!(pallet.settle_order(0, Ok(()), Ok(0)).is_ok());
    assert!(pallet.orders.is_empty());
}

#[test]
fn buy_token_unsigned_takes_the_last_order() {
    let mut pallet = Pallet::new();
    let mut ledger = Ledger::default();
    ledger.free.insert((1, 10), 100);
    ledger.free.insert((2, 20), 100);
    pallet.submit_order(&mut ledger, Origin::Signed(1), 10, 10, 20, 5).unwrap();
    pallet.submit_order(&mut ledger, Origin::Signed(1), 10, 20, 20, 6).unwrap();
    assert!(matches!(
        pallet.buy_token_unsigned(&mut ledger, Origin::Signed(2), 1, 2, b"DOT".to_vec(), 3, b"KSM".to_vec()),
        Err(DispatchError::BadOrigin)
    ));
    match pallet.buy_token_unsigned(&mut ledger, Origin::Unsigned, 1, 2, b"DOT".to_vec(), 3, b"KSM".to_vec()) {
        Ok((Event::OrderTaken(2, 1, o), Event::TokenBought(2, sell, 3, buy))) => {
            assert_eq!(o.base_amount, 20);
            assert_eq!(sell, b"DOT".to_vec());
            assert_eq!(buy, b"KSM".to_vec());
        },
        _ => panic!("unexpected outcome"),
    }
    assert_eq!(pallet.orders.len(), 1);
    // The counter still points past order 1, which is gone now.
    assert!(matches!(
        pallet.buy_token_unsigned(&mut ledger, Origin::Unsigned, 1, 2, vec![], 0, vec![]),
        Err(DispatchError::Module(Error::InvalidOrderId))
    ));
    // With no order ever placed, order 0 is looked up.
    let mut empty = Pallet::new();
    assert!(matches!(
        empty.buy_token_unsigned(&mut ledger, Origin::Unsigned, 1, 2, vec![], 0, vec![]),
        Err(DispatchError::Module(Error::InvalidOrderId))
    ));
}

#[test]
fn exchange_calls() {
    let pallet = Pallet::new();
    let mut ok = Exchange { answer: Ok(5) };
    let mut refused = Exchange { answer: Err(11) };
    match pallet.buy_token_in_difttt(&mut ok, Origin::Signed(4), vec![1, 2], 10, 20) {
        Ok(Event::BuyToken(4, path, 10, 20)) => assert_eq!(path, vec![1, 2]),
        _ => panic!("unexpected outcome"),
    }
    assert!(matches!(pallet.buy_token_in_difttt(&mut refused, Origin::Signed(4), vec![1], 1, 1), Err(DispatchError::Other(11))));
    assert!(matches!(pallet.buy_token_in_difttt(&mut ok, Origin::Unsigned, vec![1], 1, 1), Err(DispatchError::BadOrigin)));
    let limit = SwapLimit::ExactSupply(3, 1);
    assert!(matches!(pallet.swap_token_in_difttt(&mut ok, Origin::Signed(4), vec![1, 2], limit), Ok(Event::SwapToken(4, _, l)) if l == limit));
    assert!(matches!(pallet.swap_token_in_difttt(&mut refused, Origin::Signed(4), vec![1, 2], limit), Err(DispatchError::Other(11))));
}

#[test]
fn unsigned_calls_are_validated() {
    let call = Call::SetRecipeDoneUnsigned { block_number: 1, recipe_id: 2 };
    let valid = validate_unsigned(&call, 77).unwrap();
    assert_eq!(valid.priority, 77);
    assert_eq!(valid.longevity, 3);
    assert!(valid.propagate);
    assert!(valid.requires.is_empty());
    let mut tag = vec![40u8];
    tag.extend_from_slice(b"ocw-difttt");
    tag.push(4 * 24);
    tag.extend_from_slice(b"set_recipe_done_unsigned");
    assert_eq!(valid.provides, vec![tag]);
    let buy = Call::BuyTokenUnsigned { block_number: 1, buyer: 2, sell_token_name: vec![], sell_amount: 0, buy_token_name: vec![] };
    let valid = validate_unsigned(&buy, 1).unwrap();
    assert_eq!(&valid.provides[0][12..], b"buy_token_unsigned");
    assert_eq!(valid.provides[0][11], 72);
    assert!(validate_unsigned(&Call::UpdateRecipeTrigerTimeUnsigned { block_number: 0, recipe_id: 0, timestamp: 0 }, 1).is_ok());
    assert!(validate_unsigned(&Call::UpdateRecipeOakHashUnsigned { block_number: 0, recipe_id: 0, hash: vec![] }, 1).is_ok());
    assert_eq!(validate_unsigned(&Call::TakeOrder { order_id: 0 }, 1).unwrap_err(), InvalidTransaction::Call);
    assert_eq!(validate_unsigned(&Call::DelRecipe { recipe_id: 0 }, 1).unwrap_err(), InvalidTransaction::Call);
}

#[test]
fn the_ledger_is_asked_for_the_order_s_amounts() {
    let order = Order { base_currency_id: 10, base_amount: 60, target_currency_id: 20, target_amount: 40, owner: 1 };
    let (transfer, repatriate) = Pallet::settlement_calls(&order, 2);
    assert_eq!(transfer, TransferCall { currency_id: 20, from: 2, to: 1, amount: 40 });
    assert_eq!(
        repatriate,
        RepatriateCall { currency_id: 10, slashed: 1, beneficiary: 2, amount: 60, status: BalanceStatus::Free }
    );
    assert_eq!(Pallet::reserve_call(1, 10, 60), ReserveCall { currency_id: 10, who: 1, amount: 60 });
}

#[test]
fn exchange_outcomes() {
    match Pallet::buy_outcome(4, vec![1, 2], 10, 20, Ok(3)) {
        Ok(Event::BuyToken(4, path, 10, 20)) => assert_eq!(path, vec![1, 2]),
        _ => panic!("unexpected outcome"),
    }
    assert!(matches!(Pallet::buy_outcome(4, vec![1, 2], 10, 20, Err(8)), Err(DispatchError::Other(8))));
    let limit = SwapLimit::ExactTarget(9, 2);
    assert!(matches!(Pallet::swap_outcome(4, vec![1], limit, Ok(0)), Ok(Event::SwapToken(4, _, l)) if l == limit));
    assert!(matches!(Pallet::swap_outcome(4, vec![1], limit, Err(5)), Err(DispatchError::Other(5))));
}

/// An exchange that remembers what it was asked.
struct Recorder {
    bought: Vec<(AccountId, Vec<CurrencyId>, Balance, Balance)>,
}

impl BuyTokenInterface for Recorder {
    // The exchange's mathematical description exists for verification only.
    fn buy_requests(&self) -> BuyLog {
        unreachable!()
    }
    fn swap_requests(&self) -> SwapLog {
        unreachable!()
    }
    fn buy_answer(&self, _who: AccountId, _path: CurrencyPath, _a: Balance, _b: Balance) -> Result<Balance, u32> {
        unreachable!()
    }
    fn swap_answer(&self, _who: AccountId, _path: CurrencyPath, _limit: SwapLimit) -> Result<Balance, u32> {
        unreachable!()
    }
    fn buy_token(&mut self, who: AccountId, path: &[CurrencyId], a: Balance, b: Balance) -> Result<Balance, u32> {
        self.bought.push((who, path.to_vec(), a, b));
        Ok(b)
    }
    fn swap_token(&mut self, _who: AccountId, _path: &[CurrencyId], _limit: SwapLimit) -> Result<Balance, u32> {
        Ok(0)
    }
}

#[test]
fn the_exchange_gets_the_amounts_as_given() {
    let pallet = Pallet::new();
    let mut exchange = Recorder { bought: Vec::new() };
    pallet.buy_token_in_difttt(&mut exchange, Origin::Signed(4), vec![1, 2], 10, 20).unwrap();
    assert_eq!(exchange.bought, vec![(4, vec![1, 2], 10, 20)]);
}

#[test]
fn purchases_ignore_the_token_names() {
    let run = |sell: &[u8], amount: u64, buy: &[u8]| {
        let mut pallet = Pallet::new();
        let mut ledger = Ledger::default();
        ledger.free.insert((1, 10), 100);
        ledger.free.insert((2, 20), 100);
        pallet.submit_order(&mut ledger, Origin::Signed(1), 10, 30, 20, 7).unwrap();
        let outcome = pallet.buy_token_unsigned(&mut ledger, Origin::Unsigned, 1, 2, sell.to_vec(), amount, buy.to_vec());
        let taken = match outcome {
            Ok((Event::OrderTaken(2, id, o), _)) => Some((id, o)),
            _ => None,
        };
        (taken, pallet.orders.len(), ledger.free(2, 10), ledger.free(1, 20))
    };
    assert_eq!(run(b"DOT", 1, b"KSM"), run(b"", 999, b"ACA"));
    assert_eq!(run(b"DOT", 1, b"KSM").2, 30);
}
