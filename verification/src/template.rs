//! The template pallet: the first, smaller version of DIFTTT, with timers,
//! schedules and price trigers, mail and oracle actions, and an off-chain
//! worker that only decides which recipes fire.
use std::collections::{BTreeMap, BTreeSet};
use vstd::prelude::*;

use crate::bounded::BoundedBytes;
use crate::support::{after_id, current_id, ensure_signed, take_id, AccountId, DispatchError, Origin};

verus! {

/// What makes a recipe fire.
#[derive(Clone, Copy, Debug, PartialEq, Eq, Structural)]
pub enum Triger {
    /// `(insert_time, timer_seconds)`.
    Timer(u64, u64),
    /// `(insert_time, timestamp)`.
    Schedule(u64, u64),
    /// `(insert_time, price)`.
    PriceGT(u64, u64),
    /// `(insert_time, price)`.
    PriceLT(u64, u64),
}

/// What a fired recipe does.
#[derive(Debug)]
pub enum Action {
    /// `(url, access token, receiver, title, body)`.
    MailWithToken(BoundedBytes<128>, BoundedBytes<256>, BoundedBytes<128>, BoundedBytes<128>, BoundedBytes<256>),
    /// `(token name, source url)`.
    Oracle(BoundedBytes<32>, BoundedBytes<128>),
}

/// The contents of an [`Action`].
pub enum ActionView {
    MailWithToken(Seq<u8>, Seq<u8>, Seq<u8>, Seq<u8>, Seq<u8>),
    Oracle(Seq<u8>, Seq<u8>),
}

impl View for Action {
    type V = ActionView;

    open spec fn view(&self) -> ActionView {
        match self {
            Action::MailWithToken(a, b, c, d, e) => ActionView::MailWithToken(a@, b@, c@, d@, e@),
            Action::Oracle(a, b) => ActionView::Oracle(a@, b@),
        }
    }
}

impl Action {
    /// A second action with the same contents.
    pub fn duplicate(&self) -> (r: Action)
        ensures
            r@ == self@,
    {
        match self {
            Action::MailWithToken(a, b, c, d, e) => Action::MailWithToken(
                a.duplicate(),
                b.duplicate(),
                c.duplicate(),
                d.duplicate(),
                e.duplicate(),
            ),
            Action::Oracle(a, b) => Action::Oracle(a.duplicate(), b.duplicate()),
        }
    }
}

/// A trigger joined to an action, with the progress of its runs.
#[derive(Clone, Copy, Debug, PartialEq, Eq, Structural)]
pub struct Recipe {
    pub triger_id: u64,
    pub action_id: u64,
    pub enable: bool,
    pub times: u64,
    pub done: bool,
}

/// What the pallet refuses.
#[derive(Clone, Copy, Debug, PartialEq, Eq, Structural)]
pub enum Error {
    NoneValue,
    StorageOverflow,
    TrigerIdNotExist,
    ActionIdNotExist,
    RecipeIdNotExist,
    NotOwner,
}

/// What the pallet reports.
#[derive(Debug)]
pub enum Event {
    SomethingStored(u32, AccountId),
    TrigerCreated(u64, Triger),
    ActionCreated(u64, Action),
    RecipeCreated(u64, Recipe),
    RecipeRemoved(u64),
    RecipeTurnOned(u64),
    RecipeTurnOffed(u64),
}

/// The pallet's storage.
pub struct Pallet {
    pub triger_owner: BTreeSet<(AccountId, u64)>,
    pub action_owner: BTreeSet<(AccountId, u64)>,
    pub recipe_owner: BTreeSet<(AccountId, u64)>,
    pub map_triger: BTreeMap<u64, Triger>,
    pub map_action: BTreeMap<u64, Action>,
    pub map_recipe: BTreeMap<u64, Recipe>,
    pub next_triger_id: Option<u64>,
    pub next_action_id: Option<u64>,
    pub next_recipe_id: Option<u64>,
}

/// The pallet's storage as mathematical maps and sets.
#[verifier::ext_equal]
pub struct PalletView {
    pub triger_owner: Set<(AccountId, u64)>,
    pub action_owner: Set<(AccountId, u64)>,
    pub recipe_owner: Set<(AccountId, u64)>,
    pub trigers: Map<u64, Triger>,
    pub actions: Map<u64, ActionView>,
    pub recipes: Map<u64, Recipe>,
    pub next_triger_id: Option<u64>,
    pub next_action_id: Option<u64>,
    pub next_recipe_id: Option<u64>,
}

impl View for Pallet {
    type V = PalletView;

    open spec fn view(&self) -> PalletView {
        PalletView {
            triger_owner: self.triger_owner@,
            action_owner: self.action_owner@,
            recipe_owner: self.recipe_owner@,
            trigers: self.map_triger@,
            actions: self.map_action@.map_values(|a: Action| a@),
            recipes: self.map_recipe@,
            next_triger_id: self.next_triger_id,
            next_action_id: self.next_action_id,
            next_recipe_id: self.next_recipe_id,
        }
    }
}

/// A recipe as it is first stored: enabled and never run.
pub open spec fn fresh_recipe(triger_id: u64, action_id: u64) -> Recipe {
    Recipe { triger_id, action_id, enable: true, times: 0, done: false }
}

/// The storage after `who` creates `triger`.
pub open spec fn spec_create_triger(s: PalletView, who: AccountId, triger: Triger) -> PalletView {
    let id = current_id(s.next_triger_id);
    PalletView {
        trigers: s.trigers.insert(id, triger),
        triger_owner: s.triger_owner.insert((who, id)),
        next_triger_id: after_id(id),
        ..s
    }
}

/// The storage after `who` creates an action.
pub open spec fn spec_create_action(s: PalletView, who: AccountId, action: ActionView) -> PalletView {
    let id = current_id(s.next_action_id);
    PalletView {
        actions: s.actions.insert(id, action),
        action_owner: s.action_owner.insert((who, id)),
        next_action_id: after_id(id),
        ..s
    }
}

/// The storage after `who` creates a recipe joining `triger_id` and `action_id`.
pub open spec fn spec_create_recipe(s: PalletView, who: AccountId, triger_id: u64, action_id: u64) -> PalletView {
    let id = current_id(s.next_recipe_id);
    PalletView {
        recipes: s.recipes.insert(id, fresh_recipe(triger_id, action_id)),
        recipe_owner: s.recipe_owner.insert((who, id)),
        next_recipe_id: after_id(id),
        ..s
    }
}

/// Whether `who` may change recipe `recipe_id`: it must exist and be owned by `who`.
pub open spec fn spec_check_recipe_owner(s: PalletView, who: AccountId, recipe_id: u64) -> Result<
    (),
    DispatchError<Error>,
> {
    if !s.recipes.contains_key(recipe_id) {
        Err(DispatchError::Module(Error::RecipeIdNotExist))
    } else if !s.recipe_owner.contains((who, recipe_id)) {
        Err(DispatchError::Module(Error::NotOwner))
    } else {
        Ok(())
    }
}

/// The storage with the `enable` flag of recipe `recipe_id` set to `on`.
pub open spec fn spec_set_enable(s: PalletView, recipe_id: u64, on: bool) -> PalletView {
    PalletView { recipes: s.recipes.insert(recipe_id, Recipe { enable: on, ..s.recipes[recipe_id] }), ..s }
}

impl Pallet {
    /// Empty storage.
    pub fn new() -> (r: Pallet)
        ensures
            r@ == (PalletView {
                triger_owner: Set::empty(),
                action_owner: Set::empty(),
                recipe_owner: Set::empty(),
                trigers: Map::empty(),
                actions: Map::empty(),
                recipes: Map::empty(),
                next_triger_id: None,
                next_action_id: None,
                next_recipe_id: None,
            }),
    {
        let r = Pallet {
            triger_owner: BTreeSet::new(),
            action_owner: BTreeSet::new(),
            recipe_owner: BTreeSet::new(),
            map_triger: BTreeMap::new(),
            map_action: BTreeMap::new(),
            map_recipe: BTreeMap::new(),
            next_triger_id: None,
            next_action_id: None,
            next_recipe_id: None,
        };
        assert(r@.actions =~= Map::empty());
        r
    }

    /// Stores `triger` under the next triger id, owned by the signer.
    pub fn create_triger(&mut self, origin: Origin, triger: Triger) -> (r: Result<Event, DispatchError<Error>>)
        ensures
            match origin {
                Origin::Signed(who) => {
                    &&& final(self)@ == spec_create_triger(old(self)@, who, triger)
                    &&& r matches Ok(Event::TrigerCreated(id, t)) && id == current_id(old(self).next_triger_id) && t == triger
                },
                _ => final(self)@ == old(self)@ && r is Err && r->Err_0 == DispatchError::<Error>::BadOrigin,
            },
    {
        let user = match ensure_signed(origin) {
            Ok(who) => who,
            Err(e) => return Err(e),
        };
        let triger_id = take_id(&mut self.next_triger_id);
        self.map_triger.insert(triger_id, triger);
        self.triger_owner.insert((user, triger_id));
        Ok(Event::TrigerCreated(triger_id, triger))
    }

    /// Stores `action` under the next action id, owned by the signer.
    pub fn create_action(&mut self, origin: Origin, action: Action) -> (r: Result<Event, DispatchError<Error>>)
        ensures
            match origin {
                Origin::Signed(who) => {
                    &&& final(self)@ == spec_create_action(old(self)@, who, action@)
                    &&& r matches Ok(Event::ActionCreated(id, a)) && id == current_id(old(self).next_action_id) && a@ == action@
                },
                _ => final(self)@ == old(self)@ && r is Err && r->Err_0 == DispatchError::<Error>::BadOrigin,
            },
    {
        let user = match ensure_signed(origin) {
            Ok(who) => who,
            Err(e) => return Err(e),
        };
        let action_id = take_id(&mut self.next_action_id);
        let event_action = action.duplicate();
        let ghost pre_actions = self.map_action@;
        self.map_action.insert(action_id, action);
        self.action_owner.insert((user, action_id));
        assert(self.map_action@.map_values(|a: Action| a@) =~= pre_actions.map_values(|a: Action| a@).insert(
            action_id,
            event_action@,
        ));
        Ok(Event::ActionCreated(action_id, event_action))
    }

    /// Joins an existing triger and an existing action in a new recipe owned by the signer.
    pub fn create_recipe(&mut self, origin: Origin, triger_id: u64, action_id: u64) -> (r: Result<Event, DispatchError<Error>>)
        ensures
            match origin {
                Origin::Signed(who) => if !old(self)@.trigers.contains_key(triger_id) {
                    final(self)@ == old(self)@ && r is Err && r->Err_0 == DispatchError::Module(Error::TrigerIdNotExist)
                } else if !old(self)@.actions.contains_key(action_id) {
                    final(self)@ == old(self)@ && r is Err && r->Err_0 == DispatchError::Module(Error::ActionIdNotExist)
                } else {
                    &&& final(self)@ == spec_create_recipe(old(self)@, who, triger_id, action_id)
                    &&& r matches Ok(Event::RecipeCreated(id, rec)) && id == current_id(old(self).next_recipe_id)
                        && rec == fresh_recipe(triger_id, action_id)
                },
                _ => final(self)@ == old(self)@ && r is Err && r->Err_0 == DispatchError::<Error>::BadOrigin,
            },
    {
        let user = match ensure_signed(origin) {
            Ok(who) => who,
            Err(e) => return Err(e),
        };
        if !self.map_triger.contains_key(&triger_id) {
            return Err(DispatchError::Module(Error::TrigerIdNotExist));
        }
        if !self.map_action.contains_key(&action_id) {
            return Err(DispatchError::Module(Error::ActionIdNotExist));
        }
        let recipe_id = take_id(&mut self.next_recipe_id);
        let recipe = Recipe { triger_id, action_id, enable: true, times: 0, done: false };
        self.map_recipe.insert(recipe_id, recipe);
        self.recipe_owner.insert((user, recipe_id));
        Ok(Event::RecipeCreated(recipe_id, recipe))
    }

    /// Checks that `recipe_id` names a stored recipe owned by `who`.
    fn ensure_recipe_owner(&self, who: AccountId, recipe_id: u64) -> (r: Result<(), DispatchError<Error>>)
        ensures
            r == spec_check_recipe_owner(self@, who, recipe_id),
    {
        if !self.map_recipe.contains_key(&recipe_id) {
            return Err(DispatchError::Module(Error::RecipeIdNotExist));
        }
        if !self.recipe_owner.contains(&(who, recipe_id)) {
            return Err(DispatchError::Module(Error::NotOwner));
        }
        Ok(())
    }

    /// Deletes a recipe of the signer.
    pub fn del_recipe(&mut self, origin: Origin, recipe_id: u64) -> (r: Result<Event, DispatchError<Error>>)
        ensures
            match origin {
                Origin::Signed(who) => match spec_check_recipe_owner(old(self)@, who, recipe_id) {
                    Err(e) => final(self)@ == old(self)@ && r is Err && r->Err_0 == e,
                    Ok(_) => final(self)@ == (PalletView {
                        recipe_owner: old(self)@.recipe_owner.remove((who, recipe_id)),
                        recipes: old(self)@.recipes.remove(recipe_id),
                        ..old(self)@
                    }) && (r matches Ok(Event::RecipeRemoved(id)) && id == recipe_id),
                },
                _ => final(self)@ == old(self)@ && r is Err && r->Err_0 == DispatchError::<Error>::BadOrigin,
            },
    {
        let user = match ensure_signed(origin) {
            Ok(who) => who,
            Err(e) => return Err(e),
        };
        match self.ensure_recipe_owner(user, recipe_id) {
            Ok(()) => {},
            Err(e) => return Err(e),
        }
        self.recipe_owner.remove(&(user, recipe_id));
        self.map_recipe.remove(&recipe_id);
        Ok(Event::RecipeRemoved(recipe_id))
    }

    /// Sets the `enable` flag of a recipe of `who`.
    fn set_enable(&mut self, who: AccountId, recipe_id: u64, on: bool) -> (r: Result<(), DispatchError<Error>>)
        ensures
            match spec_check_recipe_owner(old(self)@, who, recipe_id) {
                Err(e) => final(self)@ == old(self)@ && r is Err && r->Err_0 == e,
                Ok(_) => final(self)@ == spec_set_enable(old(self)@, recipe_id, on) && r is Ok,
            },
    {
        match self.ensure_recipe_owner(who, recipe_id) {
            Ok(()) => {},
            Err(e) => return Err(e),
        }
        let mut recipe = match self.map_recipe.get(&recipe_id) {
            Some(rec) => *rec,
            None => {
                assert(false);
                return Err(DispatchError::Module(Error::RecipeIdNotExist));
            },
        };
        recipe.enable = on;
        self.map_recipe.insert(recipe_id, recipe);
        Ok(())
    }

    /// Enables a recipe of the signer.
    pub fn turn_on_recipe(&mut self, origin: Origin, recipe_id: u64) -> (r: Result<Event, DispatchError<Error>>)
        ensures
            match origin {
                Origin::Signed(who) => match spec_check_recipe_owner(old(self)@, who, recipe_id) {
                    Err(e) => final(self)@ == old(self)@ && r is Err && r->Err_0 == e,
                    Ok(_) => final(self)@ == spec_set_enable(old(self)@, recipe_id, true)
                        && (r matches Ok(Event::RecipeTurnOned(id)) && id == recipe_id),
                },
                _ => final(self)@ == old(self)@ && r is Err && r->Err_0 == DispatchError::<Error>::BadOrigin,
            },
    {
        let user = match ensure_signed(origin) {
            Ok(who) => who,
            Err(e) => return Err(e),
        };
        match self.set_enable(user, recipe_id, true) {
            Ok(()) => Ok(Event::RecipeTurnOned(recipe_id)),
            Err(e) => Err(e),
        }
    }

    /// Disables a recipe of the signer.
    pub fn turn_off_recipe(&mut self, origin: Origin, recipe_id: u64) -> (r: Result<Event, DispatchError<Error>>)
        ensures
            match origin {
                Origin::Signed(who) => match spec_check_recipe_owner(old(self)@, who, recipe_id) {
                    Err(e) => final(self)@ == old(self)@ && r is Err && r->Err_0 == e,
                    Ok(_) => final(self)@ == spec_set_enable(old(self)@, recipe_id, false)
                        && (r matches Ok(Event::RecipeTurnOffed(id)) && id == recipe_id),
                },
                _ => final(self)@ == old(self)@ && r is Err && r->Err_0 == DispatchError::<Error>::BadOrigin,
            },
    {
        let user = match ensure_signed(origin) {
            Ok(who) => who,
            Err(e) => return Err(e),
        };
        match self.set_enable(user, recipe_id, false) {
            Ok(()) => Ok(Event::RecipeTurnOffed(recipe_id)),
            Err(e) => Err(e),
        }
    }
}

/// A recipe that the worker keeps checking: enabled and not yet done.
pub open spec fn is_active(r: Recipe) -> bool {
    r.enable && !r.done
}

/// The tracked recipes after comparing them with the stored ones: an active
/// stored recipe that is not tracked yet starts being tracked afresh, an
/// inactive one stops being tracked, and the others keep their progress.
pub open spec fn spec_synced(tasks: Map<u64, Recipe>, stored: Map<u64, Recipe>) -> Map<u64, Recipe> {
    Map::new(
        |k: u64| if stored.contains_key(k) { is_active(stored[k]) } else { tasks.contains_key(k) },
        |k: u64| if tasks.contains_key(k) { tasks[k] } else { fresh_recipe(stored[k].triger_id, stored[k].action_id) },
    )
}

/// The arithmetic of checking recipe `r` stays within 64 bits (otherwise it would panic).
pub open spec fn step_defined(r: Recipe, triger: Option<Triger>, now: u64) -> bool {
    match triger {
        Some(Triger::Timer(insert_time, timer_seconds)) => {
            &&& insert_time + r.times * timer_seconds <= u64::MAX
            &&& insert_time + r.times * timer_seconds > now ==> r.times < u64::MAX
        },
        Some(Triger::Schedule(_, timestamp)) => timestamp > now ==> r.times < u64::MAX,
        Some(_) => r.times < u64::MAX,
        None => true,
    }
}

/// Checking recipe `r` at time `now`: the recipe afterwards and whether it fired.
/// A timer fires while its next due time lies ahead, a schedule while its time
/// lies ahead, and price trigers fire at once (their prices are not fetched yet);
/// a recipe that fires counts one more run, and all but timers are then done.
pub open spec fn spec_step(r: Recipe, triger: Option<Triger>, now: u64) -> (Recipe, bool) {
    match triger {
        Some(Triger::Timer(insert_time, timer_seconds)) => if insert_time + r.times * timer_seconds > now {
            (Recipe { times: (r.times + 1) as u64, ..r }, true)
        } else {
            (r, false)
        },
        Some(Triger::Schedule(_, timestamp)) => if timestamp > now {
            (Recipe { times: (r.times + 1) as u64, done: true, ..r }, true)
        } else {
            (r, false)
        },
        Some(_) => (Recipe { times: (r.times + 1) as u64, done: true, ..r }, true),
        None => (r, false),
    }
}

/// Every tracked recipe can be checked without overflow.
pub open spec fn all_steps_defined(tasks: Map<u64, Recipe>, trigers: Map<u64, Triger>, now: u64) -> bool {
    forall|k: u64| #[trigger] tasks.contains_key(k) ==> step_defined(tasks[k], trigers.get(tasks[k].triger_id), now)
}

/// The tracked recipes after all of them have been checked.
pub open spec fn spec_stepped(tasks: Map<u64, Recipe>, trigers: Map<u64, Triger>, now: u64) -> Map<u64, Recipe> {
    Map::new(|k: u64| tasks.contains_key(k), |k: u64| spec_step(tasks[k], trigers.get(tasks[k].triger_id), now).0)
}

/// The recipes that fired, as they stand after their check.
pub open spec fn spec_fired(tasks: Map<u64, Recipe>, trigers: Map<u64, Triger>, now: u64) -> Map<u64, Recipe> {
    Map::new(
        |k: u64| tasks.contains_key(k) && spec_step(tasks[k], trigers.get(tasks[k].triger_id), now).1,
        |k: u64| spec_step(tasks[k], trigers.get(tasks[k].triger_id), now).0,
    )
}

/// A created recipe is stored under the id it was given, enabled and never
/// run, and its creator may change it.
pub proof fn law_created_recipe_reads_back(s: PalletView, who: AccountId, triger_id: u64, action_id: u64)
    ensures
        ({
            let t = spec_create_recipe(s, who, triger_id, action_id);
            let id = current_id(s.next_recipe_id);
            &&& t.recipes[id] == fresh_recipe(triger_id, action_id)
            &&& spec_check_recipe_owner(t, who, id) is Ok
        }),
{
}

/// Only the owner of an existing recipe may change it.
pub proof fn law_only_owner_changes_recipe(s: PalletView, who: AccountId, recipe_id: u64)
    requires
        !s.recipe_owner.contains((who, recipe_id)),
    ensures
        spec_check_recipe_owner(s, who, recipe_id) is Err,
{
}

/// Switching a recipe twice the same way is switching it once, and the last
/// switch decides the flag.
pub proof fn law_switching_recipes(s: PalletView, recipe_id: u64, a: bool, b: bool)
    requires
        s.recipes.contains_key(recipe_id),
    ensures
        spec_set_enable(spec_set_enable(s, recipe_id, a), recipe_id, a) == spec_set_enable(s, recipe_id, a),
        spec_set_enable(spec_set_enable(s, recipe_id, a), recipe_id, b) == spec_set_enable(s, recipe_id, b),
        spec_set_enable(s, recipe_id, a).recipes[recipe_id].enable == a,
{
    let once = spec_set_enable(s, recipe_id, a);
    assert(spec_set_enable(once, recipe_id, b).recipes =~= spec_set_enable(s, recipe_id, b).recipes);
    assert(spec_set_enable(once, recipe_id, a).recipes =~= once.recipes);
}

/// Deleting a recipe right after creating it leaves the recipes and their
/// owners as they were, when the id was free.
pub proof fn law_delete_undoes_create(s: PalletView, who: AccountId, triger_id: u64, action_id: u64)
    requires
        !s.recipes.contains_key(current_id(s.next_recipe_id)),
        !s.recipe_owner.contains((who, current_id(s.next_recipe_id))),
    ensures
        ({
            let id = current_id(s.next_recipe_id);
            let t = spec_create_recipe(s, who, triger_id, action_id);
            &&& t.recipes.remove(id) == s.recipes
            &&& t.recipe_owner.remove((who, id)) == s.recipe_owner
        }),
{
    let id = current_id(s.next_recipe_id);
    let t = spec_create_recipe(s, who, triger_id, action_id);
    assert(t.recipes.remove(id) =~= s.recipes);
    assert(t.recipe_owner.remove((who, id)) =~= s.recipe_owner);
}

/// How the template worker treats each triger: a price triger, above or below,
/// fires at once (its price is not fetched), counting one run more and marking
/// the recipe done; a schedule fires while its time lies after `now`, and is
/// then done; a timer fires while `insert_time + times * timer_seconds` lies
/// after `now`, counting one run more; a missing triger never fires. A recipe
/// that does not fire is left as it was, and a fired one keeps its triger,
/// action and enable flag.
pub proof fn law_template_step(r: Recipe, triger: Option<Triger>, now: u64)
    requires
        r.times < u64::MAX,
        triger matches Some(Triger::Timer(i, s)) ==> i + r.times * s <= u64::MAX,
    ensures
        ({
            let (after, fired) = spec_step(r, triger, now);
            let fires = match triger {
                Some(Triger::PriceGT(_, _)) => true,
                Some(Triger::PriceLT(_, _)) => true,
                Some(Triger::Schedule(_, timestamp)) => timestamp > now,
                Some(Triger::Timer(insert_time, timer_seconds)) => insert_time + r.times * timer_seconds > now,
                None => false,
            };
            let done_on_fire = triger matches Some(t) && !(t is Timer);
            &&& fired == fires
            &&& fires ==> after.times == r.times + 1 && after.done == (done_on_fire || r.done)
                && after.triger_id == r.triger_id && after.action_id == r.action_id && after.enable == r.enable
            &&& !fires ==> after == r
        }),
{
}

/// A new template recipe is enabled, never run and not done; the worker starts
/// tracking an active stored recipe as such a new recipe, and a recipe that
/// stays tracked keeps its progress.
pub proof fn law_template_new_and_tracked(triger_id: u64, action_id: u64, tasks: Map<u64, Recipe>, stored: Map<u64, Recipe>, k: u64)
    ensures
        ({
            let r = fresh_recipe(triger_id, action_id);
            r.triger_id == triger_id && r.action_id == action_id && r.enable && !r.done && r.times == 0
        }),
        stored.contains_key(k) && stored[k].enable && !stored[k].done && !tasks.contains_key(k) ==> spec_synced(
            tasks,
            stored,
        ).contains_key(k) && spec_synced(tasks, stored)[k] == fresh_recipe(stored[k].triger_id, stored[k].action_id),
        tasks.contains_key(k) && spec_synced(tasks, stored).contains_key(k) ==> spec_synced(tasks, stored)[k]
            == tasks[k],
{
}

/// Turning a template recipe on or off changes its enable flag and nothing else.
pub proof fn law_template_switch_changes_only_the_flag(s: PalletView, recipe_id: u64, on: bool)
    requires
        s.recipes.contains_key(recipe_id),
    ensures
        ({
            let t = spec_set_enable(s, recipe_id, on);
            let before = s.recipes[recipe_id];
            let after = t.recipes[recipe_id];
            &&& after.enable == on
            &&& after.triger_id == before.triger_id && after.action_id == before.action_id
            &&& after.times == before.times && after.done == before.done
            &&& t.recipes.dom() == s.recipes.dom()
            &&& forall|k: u64| #[trigger] s.recipes.contains_key(k) && k != recipe_id ==> t.recipes[k] == s.recipes[k]
            &&& t.trigers == s.trigers && t.actions == s.actions && t.recipe_owner == s.recipe_owner
        }),
{
    assert(spec_set_enable(s, recipe_id, on).recipes.dom() =~= s.recipes.dom());
}

/// A check keeps tracking every recipe it was given, and each recipe that fires
/// is handed on exactly as it is then tracked, with one more run counted.
pub proof fn law_fired_recipes_stay_tracked(tasks: Map<u64, Recipe>, trigers: Map<u64, Triger>, now: u64)
    requires
        all_steps_defined(tasks, trigers, now),
    ensures
        spec_stepped(tasks, trigers, now).dom() == tasks.dom(),
        forall|k: u64| #[trigger] spec_fired(tasks, trigers, now).contains_key(k) ==> {
            &&& spec_stepped(tasks, trigers, now)[k] == spec_fired(tasks, trigers, now)[k]
            &&& spec_fired(tasks, trigers, now)[k].times == tasks[k].times + 1
        },
{
    assert(spec_stepped(tasks, trigers, now).dom() =~= tasks.dom());
    assert forall|k: u64| #[trigger] spec_fired(tasks, trigers, now).contains_key(k) implies
        spec_fired(tasks, trigers, now)[k].times == tasks[k].times + 1 by {
        assert(tasks.contains_key(k));
    }
}

/// After the tracked recipes are compared with the stored ones, every active
/// stored recipe is tracked and no inactive one is.
pub proof fn law_sync_tracks_active_recipes(tasks: Map<u64, Recipe>, stored: Map<u64, Recipe>)
    ensures
        forall|k: u64| #[trigger] stored.contains_key(k) ==> (spec_synced(tasks, stored).contains_key(k) == is_active(stored[k])),
        spec_synced(spec_synced(tasks, stored), stored) == spec_synced(tasks, stored),
{
    assert(spec_synced(spec_synced(tasks, stored), stored) =~= spec_synced(tasks, stored));
}

impl Pallet {
    /// Checks one recipe at time `now`.
    fn step_recipe(&self, r: Recipe, now: u64) -> (out: (Recipe, bool))
        requires
            step_defined(r, self@.trigers.get(r.triger_id), now),
        ensures
            out == spec_step(r, self@.trigers.get(r.triger_id), now),
    {
        let triger = match self.map_triger.get(&r.triger_id) {
            Some(t) => Some(*t),
            None => None,
        };
        match triger {
            Some(Triger::Timer(insert_time, timer_seconds)) => {
                if insert_time + r.times * timer_seconds > now {
                    (Recipe { times: r.times + 1, ..r }, true)
                } else {
                    (r, false)
                }
            },
            Some(Triger::Schedule(_, timestamp)) => {
                if timestamp > now {
                    (Recipe { times: r.times + 1, done: true, ..r }, true)
                } else {
                    (r, false)
                }
            },
            Some(_) => (Recipe { times: r.times + 1, done: true, ..r }, true),
            None => (r, false),
        }
    }

    /// Brings the tracked recipes in line with the stored ones (see [`spec_synced`]).
    pub fn sync_recipe_tasks(&self, tasks: &mut BTreeMap<u64, Recipe>)
        ensures
            final(tasks)@ == spec_synced(old(tasks)@, self@.recipes),
    {
        let ghost start = tasks@;
        let ghost stored = self@.recipes;
        let ghost mut done: Set<u64> = Set::empty();
        assert(spec_synced(start, stored.restrict(done)) =~= start);
        for entry in it: self.map_recipe.iter()
            invariant
                tasks@ == spec_synced(start, stored.restrict(done)),
                stored == self@.recipes,
                it.seq().no_duplicates(),
                forall|j: int| 0 <= j < it.seq().len() ==> stored.contains_key(*#[trigger] it.seq()[j].0)
                    && stored[*it.seq()[j].0] == *it.seq()[j].1,
                forall|k: u64| #[trigger] stored.contains_key(k) ==> exists|j: int| 0 <= j < it.seq().len() && *it.seq()[j].0 == k,
                forall|j: int| 0 <= j < it.index() ==> done.contains(*#[trigger] it.seq()[j].0),
                forall|k: u64| #[trigger] done.contains(k) ==> exists|j: int| 0 <= j < it.index() && *it.seq()[j].0 == k,
        {
            let (id, recipe) = entry;
            let ghost k = *id;
            assert(entry == it.seq()[it.index() as int]);
            proof {
                if done.contains(k) {
                    let j = choose|j: int| 0 <= j < it.index() && *it.seq()[j].0 == k;
                    assert(it.seq()[j] == it.seq()[it.index() as int]);
                }
            }
            assert(!done.contains(k));
            let ghost pre = tasks@;
            if recipe.enable && !recipe.done {
                if !tasks.contains_key(id) {
                    tasks.insert(*id, Recipe { triger_id: recipe.triger_id, action_id: recipe.action_id, enable: true, times: 0, done: false });
                }
            } else {
                tasks.remove(id);
            }
            proof {
                let old_done = done;
                done = done.insert(k);
                let post = spec_synced(start, stored.restrict(done));
                assert forall|x: u64| #[trigger] post.contains_key(x) == tasks@.contains_key(x)
                    && (post.contains_key(x) ==> post[x] == tasks@[x]) by {
                    if x != k {
                        assert(stored.restrict(done).contains_key(x) == stored.restrict(old_done).contains_key(x));
                    }
                }
                assert(tasks@ =~= post);
            }
        }
        assert forall|k: u64| stored.contains_key(k) implies done.contains(k) by {
            assert(stored.contains_key(k));
        }
        assert(stored.restrict(done) =~= stored);
    }

    /// Checks every tracked recipe at time `now`: `tasks` ends up holding the
    /// recipes as they stand afterwards, and the recipes that fired are returned.
    pub fn check_trigers(&self, tasks: &mut BTreeMap<u64, Recipe>, now: u64) -> (running: BTreeMap<u64, Recipe>)
        requires
            all_steps_defined(old(tasks)@, self@.trigers, now),
        ensures
            final(tasks)@ == spec_stepped(old(tasks)@, self@.trigers, now),
            running@ == spec_fired(old(tasks)@, self@.trigers, now),
    {
        let ghost start = tasks@;
        let ghost trigers = self@.trigers;
        let ghost mut done: Set<u64> = Set::empty();
        let mut stepped: BTreeMap<u64, Recipe> = BTreeMap::new();
        let mut running: BTreeMap<u64, Recipe> = BTreeMap::new();
        assert(stepped@ =~= spec_stepped(start, trigers, now).restrict(done));
        assert(running@ =~= spec_fired(start, trigers, now).restrict(done));
        for entry in it: tasks.iter()
            invariant
                start == old(tasks)@,
                trigers == self@.trigers,
                all_steps_defined(start, trigers, now),
                stepped@ == spec_stepped(start, trigers, now).restrict(done),
                running@ == spec_fired(start, trigers, now).restrict(done),
                it.seq().no_duplicates(),
                forall|j: int| 0 <= j < it.seq().len() ==> start.contains_key(*#[trigger] it.seq()[j].0)
                    && start[*it.seq()[j].0] == *it.seq()[j].1,
                forall|k: u64| #[trigger] start.contains_key(k) ==> exists|j: int| 0 <= j < it.seq().len() && *it.seq()[j].0 == k,
                forall|j: int| 0 <= j < it.index() ==> done.contains(*#[trigger] it.seq()[j].0),
                forall|k: u64| #[trigger] done.contains(k) ==> exists|j: int| 0 <= j < it.index() && *it.seq()[j].0 == k,
        {
            let (id, recipe) = entry;
            let ghost k = *id;
            assert(entry == it.seq()[it.index() as int]);
            proof {
                if done.contains(k) {
                    let j = choose|j: int| 0 <= j < it.index() && *it.seq()[j].0 == k;
                    assert(it.seq()[j] == it.seq()[it.index() as int]);
                }
            }
            assert(start.contains_key(k));
            let (after, fired) = self.step_recipe(*recipe, now);
            stepped.insert(*id, after);
            if fired {
                running.insert(*id, after);
            }
            proof {
                done = done.insert(k);
                assert(stepped@ =~= spec_stepped(start, trigers, now).restrict(done));
                assert(running@ =~= spec_fired(start, trigers, now).restrict(done));
            }
        }
        assert forall|k: u64| start.contains_key(k) implies done.contains(k) by {
            assert(start.contains_key(k));
        }
        assert(stepped@ =~= spec_stepped(start, trigers, now));
        assert(running@ =~= spec_fired(start, trigers, now));
        *tasks = stepped;
        running
    }

    /// Whether checking recipe `r` at time `now` stays within 64 bits.
    fn step_is_defined(&self, r: Recipe, now: u64) -> (ok: bool)
        ensures
            ok == step_defined(r, self@.trigers.get(r.triger_id), now),
    {
        match self.map_triger.get(&r.triger_id) {
            Some(Triger::Timer(insert_time, timer_seconds)) => match r.times.checked_mul(*timer_seconds) {
                None => {
                    assert(r.times * *timer_seconds > u64::MAX);
                    false
                },
                Some(product) => match insert_time.checked_add(product) {
                    None => false,
                    Some(due) => !(due > now) || r.times < u64::MAX,
                },
            },
            Some(Triger::Schedule(_, timestamp)) => !(*timestamp > now) || r.times < u64::MAX,
            Some(_) => r.times < u64::MAX,
            None => true,
        }
    }

    /// Whether every recipe of `tasks` can be checked at time `now` within 64 bits.
    pub fn can_check_trigers(&self, tasks: &BTreeMap<u64, Recipe>, now: u64) -> (ok: bool)
        ensures
            ok == all_steps_defined(tasks@, self@.trigers, now),
    {
        let ghost m = tasks@;
        for entry in it: tasks.iter()
            invariant
                m == tasks@,
                forall|j: int| 0 <= j < it.seq().len() ==> m.contains_key(*#[trigger] it.seq()[j].0)
                    && m[*it.seq()[j].0] == *it.seq()[j].1,
                forall|k: u64| #[trigger] m.contains_key(k) ==> exists|j: int| 0 <= j < it.seq().len() && *it.seq()[j].0 == k,
                forall|j: int| 0 <= j < it.index() ==> step_defined(*it.seq()[j].1, self@.trigers.get((*#[trigger] it.seq()[j].1).triger_id), now),
        {
            let (id, recipe) = entry;
            assert(entry == it.seq()[it.index() as int]);
            if !self.step_is_defined(*recipe, now) {
                assert(m.contains_key(*id));
                return false;
            }
        }
        assert forall|k: u64| #[trigger] m.contains_key(k) implies step_defined(m[k], self@.trigers.get(m[k].triger_id), now) by {
            assert(m.contains_key(k));
        }
        true
    }

    /// One run of the off-chain worker at time `now`: the tracked recipes are
    /// brought in line with the stored ones and then checked; the recipes that
    /// fired are returned (their actions are not run yet).
    pub fn offchain_worker(&self, tasks: &mut BTreeMap<u64, Recipe>, now: u64) -> (running: BTreeMap<u64, Recipe>)
        requires
            all_steps_defined(spec_synced(old(tasks)@, self@.recipes), self@.trigers, now),
        ensures
            final(tasks)@ == spec_stepped(spec_synced(old(tasks)@, self@.recipes), self@.trigers, now),
            running@ == spec_fired(spec_synced(old(tasks)@, self@.recipes), self@.trigers, now),
    {
        self.sync_recipe_tasks(tasks);
        self.check_trigers(tasks, now)
    }

    /// Whether [`Self::offchain_worker`] can run on `tasks` at time `now` within 64 bits.
    pub fn can_run_offchain_worker(&self, tasks: &BTreeMap<u64, Recipe>, now: u64) -> (ok: bool)
        ensures
            ok == all_steps_defined(spec_synced(tasks@, self@.recipes), self@.trigers, now),
    {
        let mut synced = tasks.clone();
        self.sync_recipe_tasks(&mut synced);
        self.can_check_trigers(&synced, now)
    }
}

} // verus!
