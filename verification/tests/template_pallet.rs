use std::collections::BTreeMap;

use difttt::bounded::BoundedBytes;
use difttt::support::{DispatchError, Origin};
use difttt::template::{Action, Error, Event, Pallet, Recipe, Triger};

fn bytes<const N: usize>(v: Vec<u8>) -> BoundedBytes<N> {
    BoundedBytes::<N>::try_from_vec(v).unwrap()
}

fn mail() -> Action {
    Action::MailWithToken(
        bytes(vec![1, 2, 3]),
        bytes(vec![4, 5, 6]),
        bytes(vec![1, 2, 3]),
        bytes(vec![1, 2, 3]),
        bytes(vec![4, 5, 6]),
    )
}

#[test]
fn create_trigger_should_work() {
    let mut pallet = Pallet::new();
    let timer = Triger::Timer(1, 1);
    let schedule = Triger::Schedule(2, 2);
    let price_gt = Triger::PriceGT(3, 3);
    let price_lt = Triger::PriceLT(4, 4);
    assert!(pallet.create_triger(Origin::Signed(1), timer).is_ok());
    assert!(pallet.create_triger(Origin::Signed(1), schedule).is_ok());
    assert!(pallet.create_triger(Origin::Signed(1), price_gt).is_ok());
    assert!(pallet.create_triger(Origin::Signed(1), price_lt).is_ok());
}

#[test]
fn create_action_should_work() {
    let mut pallet = Pallet::new();
    let a_u8_const128: BoundedBytes<128> = bytes(vec![1, 2, 3]);
    let b_u8_const256: BoundedBytes<256> = bytes(vec![4, 5, 6]);
    let c_u8_const128: BoundedBytes<128> = bytes(vec![1, 2, 3]);
    let d_u8_const128: BoundedBytes<128> = bytes(vec![1, 2, 3]);
    let e_u8_const256: BoundedBytes<256> = bytes(vec![4, 5, 6]);
    let mail_with_token =
        Action::MailWithToken(a_u8_const128, b_u8_const256, c_u8_const128, d_u8_const128, e_u8_const256);
    let a_u8_const32: BoundedBytes<32> = bytes(vec![1, 2, 3]);
    let b_u8_const128: BoundedBytes<128> = bytes(vec![4, 5, 6]);
    let oracle = Action::Oracle(a_u8_const32, b_u8_const128);
    assert!(pallet.create_action(Origin::Signed(1), mail_with_token).is_ok());
    assert!(pallet.create_action(Origin::Signed(1), oracle).is_ok());
}

#[test]
fn template_ids_are_handed_out_in_order() {
    let mut pallet = Pallet::new();
    assert!(matches!(pallet.create_triger(Origin::Signed(7), Triger::Timer(1, 1)), Ok(Event::TrigerCreated(0, _))));
    assert!(matches!(pallet.create_triger(Origin::Signed(7), Triger::Timer(1, 1)), Ok(Event::TrigerCreated(1, _))));
    assert_eq!(pallet.next_triger_id, Some(2));
    assert!(pallet.triger_owner.contains(&(7, 0)));
    assert!(pallet.triger_owner.contains(&(7, 1)));
}

#[test]
fn template_create_triger_needs_a_signer() {
    let mut pallet = Pallet::new();
    assert!(matches!(pallet.create_triger(Origin::Unsigned, Triger::Timer(1, 1)), Err(DispatchError::BadOrigin)));
    assert!(pallet.map_triger.is_empty());
    assert_eq!(pallet.next_triger_id, None);
}

#[test]
fn template_create_recipe_requires_triger_and_action() {
    let mut pallet = Pallet::new();
    pallet.action_owner.insert((1, 1));
    pallet.triger_owner.insert((1, 1));
    assert!(matches!(
        pallet.create_recipe(Origin::Signed(1), 1, 1),
        Err(DispatchError::Module(Error::TrigerIdNotExist))
    ));
    pallet.create_triger(Origin::Signed(1), Triger::Timer(1, 1)).unwrap();
    assert!(matches!(
        pallet.create_recipe(Origin::Signed(1), 0, 0),
        Err(DispatchError::Module(Error::ActionIdNotExist))
    ));
    pallet.create_action(Origin::Signed(1), mail()).unwrap();
    let created = pallet.create_recipe(Origin::Signed(1), 0, 0);
    assert!(matches!(created, Ok(Event::RecipeCreated(0, r)) if r == Recipe { triger_id: 0, action_id: 0, enable: true, times: 0, done: false }));
    assert!(pallet.recipe_owner.contains(&(1, 0)));
}

fn pallet_with_recipe() -> Pallet {
    let mut pallet = Pallet::new();
    pallet.create_triger(Origin::Signed(1), Triger::Timer(1, 1)).unwrap();
    pallet.create_action(Origin::Signed(1), mail()).unwrap();
    pallet.create_recipe(Origin::Signed(1), 0, 0).unwrap();
    pallet
}

#[test]
fn template_turning_recipes_on_and_off() {
    let mut pallet = pallet_with_recipe();
    assert!(matches!(pallet.turn_off_recipe(Origin::Signed(1), 0), Ok(Event::RecipeTurnOffed(0))));
    assert!(!pallet.map_recipe.get(&0).unwrap().enable);
    assert!(matches!(pallet.turn_on_recipe(Origin::Signed(1), 0), Ok(Event::RecipeTurnOned(0))));
    assert!(pallet.map_recipe.get(&0).unwrap().enable);
    assert!(matches!(pallet.turn_on_recipe(Origin::Signed(2), 0), Err(DispatchError::Module(Error::NotOwner))));
    assert!(matches!(pallet.turn_off_recipe(Origin::Signed(1), 5), Err(DispatchError::Module(Error::RecipeIdNotExist))));
}

#[test]
fn template_owner_alone_is_not_enough() {
    let mut pallet = Pallet::new();
    pallet.recipe_owner.insert((1, 1));
    assert!(matches!(pallet.turn_on_recipe(Origin::Signed(1), 1), Err(DispatchError::Module(Error::RecipeIdNotExist))));
    pallet.recipe_owner.insert((2, 2));
    assert!(matches!(pallet.del_recipe(Origin::Signed(1), 2), Err(DispatchError::Module(Error::RecipeIdNotExist))));
}

#[test]
fn template_delete_recipe() {
    let mut pallet = pallet_with_recipe();
    assert!(matches!(pallet.del_recipe(Origin::Signed(2), 0), Err(DispatchError::Module(Error::NotOwner))));
    assert!(matches!(pallet.del_recipe(Origin::Signed(1), 0), Ok(Event::RecipeRemoved(0))));
    assert!(pallet.map_recipe.is_empty());
    assert!(!pallet.recipe_owner.contains(&(1, 0)));
    assert!(matches!(pallet.del_recipe(Origin::Signed(1), 0), Err(DispatchError::Module(Error::RecipeIdNotExist))));
}

#[test]
fn template_offchain_worker_fires_trigers() {
    let mut pallet = Pallet::new();
    pallet.create_action(Origin::Signed(1), mail()).unwrap();
    // triger 0: timer due at 100 + times * 10; triger 1: schedule at 500; triger 2: price.
    pallet.create_triger(Origin::Signed(1), Triger::Timer(100, 10)).unwrap();
    pallet.create_triger(Origin::Signed(1), Triger::Schedule(0, 500)).unwrap();
    pallet.create_triger(Origin::Signed(1), Triger::PriceGT(0, 5)).unwrap();
    for t in 0..3u64 {
        pallet.create_recipe(Origin::Signed(1), t, 0).unwrap();
    }
    pallet.create_recipe(Origin::Signed(1), 0, 0).unwrap();
    pallet.turn_off_recipe(Origin::Signed(1), 3).unwrap();

    let mut tasks: BTreeMap<u64, Recipe> = BTreeMap::new();
    assert!(pallet.can_run_offchain_worker(&tasks, 60));
    let running = pallet.offchain_worker(&mut tasks, 60);
    // recipe 3 is off and is not tracked; the others all fire at 60.
    assert_eq!(tasks.len(), 3);
    assert_eq!(running.len(), 3);
    assert_eq!(tasks[&0], Recipe { triger_id: 0, action_id: 0, enable: true, times: 1, done: false });
    assert_eq!(tasks[&1], Recipe { triger_id: 1, action_id: 0, enable: true, times: 1, done: true });
    assert_eq!(tasks[&2], Recipe { triger_id: 2, action_id: 0, enable: true, times: 1, done: true });
    assert_eq!(running[&1], tasks[&1]);

    // At 200 the timer's next due time (110) lies behind; the schedule (500) and the price fire again.
    let running = pallet.offchain_worker(&mut tasks, 200);
    assert_eq!(running.len(), 2);
    assert_eq!(running[&1].times, 2);
    assert_eq!(running[&2].times, 2);
    assert_eq!(tasks[&0].times, 1);
}

#[test]
fn template_offchain_worker_overflow_is_detected() {
    let mut pallet = Pallet::new();
    pallet.create_action(Origin::Signed(1), mail()).unwrap();
    pallet.create_triger(Origin::Signed(1), Triger::Timer(u64::MAX, 1)).unwrap();
    pallet.create_recipe(Origin::Signed(1), 0, 0).unwrap();
    let mut tasks: BTreeMap<u64, Recipe> = BTreeMap::new();
    tasks.insert(0, Recipe { triger_id: 0, action_id: 0, enable: true, times: 1, done: false });
    assert!(!pallet.can_run_offchain_worker(&tasks, 5));
    tasks.insert(0, Recipe { triger_id: 0, action_id: 0, enable: true, times: 0, done: false });
    assert!(pallet.can_run_offchain_worker(&tasks, 5));
}

/// Stores `n` trigers, `n` actions and `n` recipes joining them, all of account 1.
fn pallet_with_recipes(n: u64) -> Pallet {
    let mut pallet = Pallet::new();
    for i in 0..n {
        pallet.create_triger(Origin::Signed(1), Triger::Timer(i, 1)).unwrap();
        pallet.create_action(Origin::Signed(1), mail()).unwrap();
    }
    for i in 0..n {
        pallet.create_recipe(Origin::Signed(1), i, i).unwrap();
    }
    pallet
}

#[test]
fn create_recipe_should_work() {
    // Triger 1 and action 1 have to be stored, not only owned.
    let mut pallet = pallet_with_recipes(0);
    for i in 0..2u64 {
        pallet.create_triger(Origin::Signed(1), Triger::Timer(i, 1)).unwrap();
        pallet.create_action(Origin::Signed(1), mail()).unwrap();
    }
    pallet.action_owner.insert((1, 1));
    pallet.triger_owner.insert((1, 1));
    assert!(pallet.create_recipe(Origin::Signed(1), 1, 1).is_ok());
}

#[test]
fn turn_on_recipe_should_work() {
    let mut pallet = pallet_with_recipes(2);
    pallet.recipe_owner.insert((1, 1));
    assert!(pallet.turn_on_recipe(Origin::Signed(1), 1).is_ok());
}

#[test]
fn turn_off_recipe_should_work() {
    let mut pallet = pallet_with_recipes(1);
    pallet.recipe_owner.insert((0, 0));
    assert!(pallet.turn_off_recipe(Origin::Signed(1), 0).is_ok());
}

#[test]
fn del_recipe_should_work() {
    let mut pallet = pallet_with_recipes(3);
    pallet.recipe_owner.insert((2, 2));
    assert!(pallet.turn_off_recipe(Origin::Signed(1), 2).is_ok());
}

#[test]
fn create_recipe_with_owners_only_is_refused() {
    let mut pallet = Pallet::new();
    pallet.action_owner.insert((1, 1));
    pallet.triger_owner.insert((1, 1));
    assert!(matches!(pallet.create_recipe(Origin::Signed(1), 1, 1), Err(DispatchError::Module(Error::TrigerIdNotExist))));
}

#[test]
fn turn_on_recipe_with_an_owner_only_is_refused() {
    let mut pallet = Pallet::new();
    pallet.recipe_owner.insert((1, 1));
    assert!(matches!(pallet.turn_on_recipe(Origin::Signed(1), 1), Err(DispatchError::Module(Error::RecipeIdNotExist))));
}

#[test]
fn turn_off_recipe_with_an_owner_only_is_refused() {
    let mut pallet = Pallet::new();
    pallet.recipe_owner.insert((0, 0));
    assert!(matches!(pallet.turn_off_recipe(Origin::Signed(1), 0), Err(DispatchError::Module(Error::RecipeIdNotExist))));
}

#[test]
fn del_recipe_with_an_owner_only_is_refused() {
    let mut pallet = Pallet::new();
    pallet.recipe_owner.insert((2, 2));
    assert!(matches!(pallet.turn_off_recipe(Origin::Signed(1), 2), Err(DispatchError::Module(Error::RecipeIdNotExist))));
}
