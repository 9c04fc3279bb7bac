//! The DIFTTT pallet: triggers, actions, recipes, orders and the off-chain worker's decisions.
use vstd::prelude::*;

use crate::bounded::BoundedBytes;
use crate::dex::SwapLimit;
use crate::support::{AccountId, Balance, CurrencyId};

pub mod feeds;
pub mod laws;
pub mod offchain;
pub mod pallet;
pub mod unsigned;
pub mod worker;
pub mod behaviour;

verus! {

/// What other pallets read of the transfer protection that a `TransferProtect`
/// triger sets.
pub trait TransferProtectInterface {
    /// The largest amount allowed per transfer.
    fn get_amout_limit(&self) -> Balance;

    /// How many transfers are allowed per window of blocks.
    fn get_tx_block_limit(&self) -> u64;
}

/// What makes a recipe fire.
#[derive(Clone, Copy, Debug, PartialEq, Eq, Structural)]
pub enum Triger {
    /// `(insert_time, timer_seconds)`: fires every `timer_seconds` after `insert_time`.
    Timer(u64, u64),
    /// `(insert_time, timestamp)`: fires once after `timestamp`.
    Schedule(u64, u64),
    /// `(insert_time, price)`: fires once when the fetched price exceeds `price`.
    PriceGT(u64, u64),
    /// `(insert_time, price)`: fires once when the fetched price is below `price`.
    PriceLT(u64, u64),
    /// `(insert_time, indicator, seconds)`: fires when the fetched ARH999 indicator is
    /// below `indicator`, looking at most once every `seconds`.
    Arh999LT(u64, u64, u64),
    /// `(insert_time, amount limit per transfer, blocks)`: sets the transfer-protection limits.
    TransferProtect(u64, Balance, u64),
    /// `(insert_time, cycle_seconds, repeat times)`: fires on events of an OAK automation task.
    OakTimer(u64, u64, u64),
}

/// What a fired recipe does.
#[derive(Debug)]
pub enum Action {
    /// `(url, access token, receiver, title, body)`: sends a mail through a task runner.
    MailWithToken(BoundedBytes<128>, BoundedBytes<256>, BoundedBytes<128>, BoundedBytes<128>, BoundedBytes<256>),
    /// `(token name, source url)`: publishes a price oracle task.
    Oracle(BoundedBytes<32>, BoundedBytes<128>),
    /// `(account, sell token name, sell amount, buy token name, receiver of the notice)`.
    BuyToken(AccountId, BoundedBytes<32>, u64, BoundedBytes<32>, BoundedBytes<128>),
    /// `(receiver, title, body)`: mail sent by a local server (nothing is published for it).
    MailByLocalServer(BoundedBytes<128>, BoundedBytes<128>, BoundedBytes<256>),
    /// `(hook url, message)`: posts to a Slack hook.
    Slack(BoundedBytes<256>, BoundedBytes<256>),
}

/// The contents of an [`Action`], as byte sequences.
pub enum ActionView {
    MailWithToken(Seq<u8>, Seq<u8>, Seq<u8>, Seq<u8>, Seq<u8>),
    Oracle(Seq<u8>, Seq<u8>),
    BuyToken(AccountId, Seq<u8>, u64, Seq<u8>, Seq<u8>),
    MailByLocalServer(Seq<u8>, Seq<u8>, Seq<u8>),
    Slack(Seq<u8>, Seq<u8>),
}

impl View for Action {
    type V = ActionView;

    open spec fn view(&self) -> ActionView {
        match self {
            Action::MailWithToken(a, b, c, d, e) => ActionView::MailWithToken(a@, b@, c@, d@, e@),
            Action::Oracle(a, b) => ActionView::Oracle(a@, b@),
            Action::BuyToken(w, a, n, b, c) => ActionView::BuyToken(*w, a@, *n, b@, c@),
            Action::MailByLocalServer(a, b, c) => ActionView::MailByLocalServer(a@, b@, c@),
            Action::Slack(a, b) => ActionView::Slack(a@, b@),
        }
    }
}

impl Action {
    /// A second action with the same contents.
    pub fn duplicate(&self) -> (r: Action)
        ensures
            r@ == self@,
    {
        match self {
            Action::MailWithToken(a, b, c, d, e) => Action::MailWithToken(
                a.duplicate(),
                b.duplicate(),
                c.duplicate(),
                d.duplicate(),
                e.duplicate(),
            ),
            Action::Oracle(a, b) => Action::Oracle(a.duplicate(), b.duplicate()),
            Action::BuyToken(w, a, n, b, c) => Action::BuyToken(
                *w,
                a.duplicate(),
                *n,
                b.duplicate(),
                c.duplicate(),
            ),
            Action::MailByLocalServer(a, b, c) => Action::MailByLocalServer(
                a.duplicate(),
                b.duplicate(),
                c.duplicate(),
            ),
            Action::Slack(a, b) => Action::Slack(a.duplicate(), b.duplicate()),
        }
    }
}

/// A trigger joined to an action, with the progress of its runs.
#[derive(Debug)]
pub struct Recipe {
    pub triger_id: u64,
    pub action_id: u64,
    pub enable: bool,
    pub times: u64,
    pub max_times: u64,
    pub done: bool,
    pub last_triger_timestamp: u64,
    pub oak_hash: BoundedBytes<128>,
}

/// The contents of a [`Recipe`].
pub struct RecipeView {
    pub triger_id: u64,
    pub action_id: u64,
    pub enable: bool,
    pub times: u64,
    pub max_times: u64,
    pub done: bool,
    pub last_triger_timestamp: u64,
    pub oak_hash: Seq<u8>,
}

impl View for Recipe {
    type V = RecipeView;

    open spec fn view(&self) -> RecipeView {
        RecipeView {
            triger_id: self.triger_id,
            action_id: self.action_id,
            enable: self.enable,
            times: self.times,
            max_times: self.max_times,
            done: self.done,
            last_triger_timestamp: self.last_triger_timestamp,
            oak_hash: self.oak_hash@,
        }
    }
}

/// A recipe as it is first stored: enabled, never run, no OAK task yet.
pub open spec fn fresh_recipe(triger_id: u64, action_id: u64) -> RecipeView {
    RecipeView {
        triger_id,
        action_id,
        enable: true,
        times: 0,
        max_times: 0,
        done: false,
        last_triger_timestamp: 0,
        oak_hash: Seq::empty(),
    }
}

impl Recipe {
    /// A recipe as it is first stored for `triger_id` and `action_id`.
    pub fn fresh(triger_id: u64, action_id: u64) -> (r: Recipe)
        ensures
            r@ == fresh_recipe(triger_id, action_id),
    {
        Recipe {
            triger_id,
            action_id,
            enable: true,
            times: 0,
            max_times: 0,
            done: false,
            last_triger_timestamp: 0,
            oak_hash: BoundedBytes::new(),
        }
    }

    /// A second recipe with the same contents.
    pub fn duplicate(&self) -> (r: Recipe)
        ensures
            r@ == self@,
    {
        Recipe {
            triger_id: self.triger_id,
            action_id: self.action_id,
            enable: self.enable,
            times: self.times,
            max_times: self.max_times,
            done: self.done,
            last_triger_timestamp: self.last_triger_timestamp,
            oak_hash: self.oak_hash.duplicate(),
        }
    }
}

/// An offer to sell `base_amount` of one token for `target_amount` of another.
#[derive(Clone, Copy, Debug, PartialEq, Eq, Structural)]
pub struct Order {
    pub base_currency_id: CurrencyId,
    pub base_amount: Balance,
    pub target_currency_id: CurrencyId,
    pub target_amount: Balance,
    pub owner: AccountId,
}

/// What the pallet refuses.
#[derive(Clone, Copy, Debug, PartialEq, Eq, Structural)]
pub enum Error {
    NoneValue,
    StorageOverflow,
    TrigerIdNotExist,
    ActionIdNotExist,
    RecipeIdNotExist,
    NotOwner,
    OffchainUnsignedTxError,
    OrderIdOverflow,
    InvalidOrderId,
    InsufficientBalance,
}

/// What the pallet reports.
#[derive(Debug)]
pub enum Event {
    SomethingStored(u32, AccountId),
    TrigerCreated(u64, Triger),
    ActionCreated(u64, Action),
    RecipeCreated(u64, Recipe),
    RecipeRemoved(u64),
    RecipeTurnOned(u64),
    RecipeTurnOffed(u64),
    RecipeDone(u64),
    RecipeTrigerTimeUpdated(u64, u64),
    RecipeOakHashUpdated(u64, Vec<u8>),
    TokenBought(AccountId, Vec<u8>, u64, Vec<u8>),
    OrderCreated(u64, Order),
    OrderTaken(AccountId, u64, Order),
    OrderCancelled(u64),
    BuyToken(AccountId, Vec<CurrencyId>, Balance, Balance),
    SwapToken(AccountId, Vec<CurrencyId>, SwapLimit),
}

/// The calls of the pallet, as the runtime dispatches them.
#[derive(Debug)]
pub enum Call {
    CreateTriger { triger: Triger },
    CreateAction { action: Action },
    CreateRecipe { triger_id: u64, action_id: u64 },
    DelRecipe { recipe_id: u64 },
    TurnOnRecipe { recipe_id: u64 },
    TurnOffRecipe { recipe_id: u64 },
    SetRecipeDoneUnsigned { block_number: u64, recipe_id: u64 },
    BuyTokenInDifttt { path: Vec<CurrencyId>, token_a: Balance, token_b: Balance },
    SwapTokenInDifttt { path: Vec<CurrencyId>, limit: SwapLimit },
    UpdateRecipeTrigerTimeUnsigned { block_number: u64, recipe_id: u64, timestamp: u64 },
    UpdateRecipeOakHashUnsigned { block_number: u64, recipe_id: u64, hash: Vec<u8> },
    BuyTokenUnsigned {
        block_number: u64,
        buyer: AccountId,
        sell_token_name: Vec<u8>,
        sell_amount: u64,
        buy_token_name: Vec<u8>,
    },
    SubmitOrder { base_currency_id: CurrencyId, base_amount: Balance, target_currency_id: CurrencyId, target_amount: Balance },
    TakeOrder { order_id: u64 },
}

} // verus!
