//! Properties that hold across the pallet's calls.
use vstd::prelude::*;

use super::offchain::{is_active, spec_resume, spec_start, spec_synced, CheckStage, CheckView, ReplyView};
use super::ActionView;
use super::pallet::{
    spec_check_recipe_owner, spec_create_action, spec_create_recipe, spec_create_triger, spec_last_order_id,
    spec_place_order, spec_purchase, spec_set_enable, PalletView,
};
use super::offchain::{resume_defined, start_defined};
use super::{fresh_recipe, RecipeView, Triger};
use crate::support::{after_id, current_id, AccountId};
use crate::tokens::MultiReservableCurrency;

verus! {

/// Every stored id was handed out by its counter: it lies below the counter's
/// next id, or the counter has reached its last value.
pub open spec fn ids_handed_out(s: PalletView) -> bool {
    &&& forall|k: u64| #[trigger] s.trigers.contains_key(k) ==> k < current_id(s.next_triger_id) || current_id(s.next_triger_id) == u64::MAX
    &&& forall|k: u64| #[trigger] s.actions.contains_key(k) ==> k < current_id(s.next_action_id) || current_id(s.next_action_id) == u64::MAX
    &&& forall|k: u64| #[trigger] s.recipes.contains_key(k) ==> k < current_id(s.next_recipe_id) || current_id(s.next_recipe_id) == u64::MAX
}

/// Creating a triger, an action or a recipe keeps every stored id handed out
/// by its counter.
pub proof fn law_creation_keeps_ids_handed_out(s: PalletView, who: AccountId, triger: Triger, action: super::ActionView, triger_id: u64, action_id: u64)
    requires
        ids_handed_out(s),
    ensures
        ids_handed_out(spec_create_triger(s, who, triger)),
        ids_handed_out(spec_create_action(s, who, action)),
        ids_handed_out(spec_create_recipe(s, who, triger_id, action_id)),
{
}

/// While its counter has not reached its last value, a newly created recipe
/// never replaces a stored one.
pub proof fn law_new_recipe_is_fresh(s: PalletView, who: AccountId, triger_id: u64, action_id: u64)
    requires
        ids_handed_out(s),
        current_id(s.next_recipe_id) < u64::MAX,
    ensures
        !s.recipes.contains_key(current_id(s.next_recipe_id)),
        spec_create_recipe(s, who, triger_id, action_id).recipes.remove(current_id(s.next_recipe_id)) == s.recipes,
{
    let id = current_id(s.next_recipe_id);
    assert(s.recipes.insert(id, fresh_recipe(triger_id, action_id)).remove(id) =~= s.recipes);
}

/// Two creations in a row hand out consecutive ids.
pub proof fn law_consecutive_ids(s: PalletView, who1: AccountId, who2: AccountId, t1: Triger, t2: Triger)
    requires
        current_id(s.next_triger_id) < u64::MAX,
    ensures
        current_id(spec_create_triger(s, who1, t1).next_triger_id) == current_id(s.next_triger_id) + 1,
        spec_create_triger(spec_create_triger(s, who1, t1), who2, t2).trigers[current_id(s.next_triger_id)] == t1,
        spec_create_triger(spec_create_triger(s, who1, t1), who2, t2).trigers[(current_id(s.next_triger_id) + 1) as u64] == t2,
{
}

/// A created recipe is stored under the id it was given, enabled and never
/// run, and owned by its creator.
pub proof fn law_created_recipe_reads_back(s: PalletView, who: AccountId, triger_id: u64, action_id: u64)
    ensures
        ({
            let t = spec_create_recipe(s, who, triger_id, action_id);
            let id = current_id(s.next_recipe_id);
            &&& t.recipes[id] == fresh_recipe(triger_id, action_id)
            &&& t.recipe_owner.contains((who, id))
            &&& spec_check_recipe_owner(t, who, id) == Ok::<(), crate::support::DispatchError<super::Error>>(())
        }),
{
}

/// Only the owner of an existing recipe may change it: for anyone else the
/// check fails, and the calls that depend on it leave the storage unchanged.
pub proof fn law_only_owner_changes_recipe(s: PalletView, who: AccountId, recipe_id: u64)
    requires
        !s.recipe_owner.contains((who, recipe_id)),
    ensures
        spec_check_recipe_owner(s, who, recipe_id) is Err,
{
}

/// Turning a recipe on (or off) twice is the same as doing it once, and the
/// last of a series of switches decides the flag.
pub proof fn law_switching_recipes(s: PalletView, recipe_id: u64, a: bool, b: bool)
    requires
        s.recipes.contains_key(recipe_id),
    ensures
        spec_set_enable(spec_set_enable(s, recipe_id, a), recipe_id, a) == spec_set_enable(s, recipe_id, a),
        spec_set_enable(spec_set_enable(s, recipe_id, a), recipe_id, b) == spec_set_enable(s, recipe_id, b),
        spec_set_enable(s, recipe_id, a).recipes[recipe_id].enable == a,
{
    let once = spec_set_enable(s, recipe_id, a);
    assert(spec_set_enable(once, recipe_id, b).recipes =~= spec_set_enable(s, recipe_id, b).recipes);
    assert(spec_set_enable(once, recipe_id, a).recipes =~= once.recipes);
}

/// Deleting a recipe right after creating it leaves the recipes and their
/// owners as they were (only the counter has moved on), when the id was free.
pub proof fn law_delete_undoes_create(s: PalletView, who: AccountId, triger_id: u64, action_id: u64)
    requires
        !s.recipes.contains_key(current_id(s.next_recipe_id)),
        !s.recipe_owner.contains((who, current_id(s.next_recipe_id))),
    ensures
        ({
            let id = current_id(s.next_recipe_id);
            let t = spec_create_recipe(s, who, triger_id, action_id);
            &&& spec_check_recipe_owner(t, who, id) is Ok
            &&& t.recipes.remove(id) == s.recipes
            &&& t.recipe_owner.remove((who, id)) == s.recipe_owner
            &&& t.next_recipe_id == after_id(id)
        }),
{
    let id = current_id(s.next_recipe_id);
    let t = spec_create_recipe(s, who, triger_id, action_id);
    assert(t.recipes.remove(id) =~= s.recipes);
    assert(t.recipe_owner.remove((who, id)) =~= s.recipe_owner);
}

/// After the worker compares its tracked recipes with the stored ones, it
/// tracks every active stored recipe and no inactive one, and comparing again
/// changes nothing.
pub proof fn law_sync_tracks_active_recipes(tasks: Map<u64, RecipeView>, stored: Map<u64, RecipeView>)
    ensures
        forall|k: u64| #[trigger] stored.contains_key(k) ==> (spec_synced(tasks, stored).contains_key(k) == is_active(stored[k])),
        spec_synced(spec_synced(tasks, stored), stored) == spec_synced(tasks, stored),
{
    assert(spec_synced(spec_synced(tasks, stored), stored) =~= spec_synced(tasks, stored));
}

/// Placing an order and then settling it successfully leaves the order book
/// as it was, when the order's id was free.
pub proof fn law_settled_order_leaves_book(s: PalletView, order: super::Order)
    requires
        !s.orders.contains_key(current_id(s.next_order_id)),
    ensures
        spec_place_order(s, order).orders.remove(current_id(s.next_order_id)) == s.orders,
        spec_place_order(s, order).orders[current_id(s.next_order_id)] == order,
{
    assert(spec_place_order(s, order).orders.remove(current_id(s.next_order_id)) =~= s.orders);
}

/// How far a check is from its end, in replies still to come at most.
pub open spec fn stage_rank(stage: CheckStage) -> nat {
    match stage {
        CheckStage::Finished => 0,
        CheckStage::AwaitPrice { .. } => 1,
        CheckStage::AwaitTimeSubmitted => 1,
        CheckStage::AwaitLock => 1,
        CheckStage::AwaitArh999 { .. } => 2,
        CheckStage::AwaitLastEvent => 2,
        CheckStage::AwaitOakHashSubmitted => 3,
        CheckStage::AwaitOakTask { .. } => 4,
    }
}

/// A check that starts asks for outside work exactly when it is not finished,
/// and it is a check of the recipe it was started for.
pub proof fn law_started_check_asks_while_unfinished(
    recipe_id: u64,
    r: RecipeView,
    triger: Option<Triger>,
    action: Option<ActionView>,
    now: u64,
)
    ensures
        ({
            let (c, request) = spec_start(recipe_id, r, triger, action, now);
            &&& request is Some <==> c.stage != CheckStage::Finished
            &&& c.recipe_id == recipe_id
            &&& c.stage != CheckStage::Finished ==> c.fired is None
        }),
{
}

/// Every reply brings a check closer to its end, so a check ends after at most
/// four replies: an unfinished check moves to a stage of lower rank, a
/// finished one stays as it is, more outside work is asked for exactly when
/// the check is not finished, and the check stays one of the same recipe.
pub proof fn law_checks_come_to_an_end(c: CheckView, reply: ReplyView, now: u64, last_event: Seq<u8>)
    ensures
        ({
            let (next, request) = spec_resume(c, reply, now, last_event);
            &&& c.stage != CheckStage::Finished ==> stage_rank(next.stage) < stage_rank(c.stage)
            &&& c.stage == CheckStage::Finished ==> next == c && request is None
            &&& request is Some <==> next.stage != CheckStage::Finished
            &&& next.recipe_id == c.recipe_id
        }),
{
}

/// An unsigned purchase does not depend on the token names or the amount it
/// names: two purchases from the same storage and the same ledger by the same
/// buyer make the same requests of the ledger, take the same order (the one
/// created last), leave the same storage and ledger, and fail alike; only the
/// names and amount they report differ.
pub proof fn law_purchase_ignores_token_names<C: MultiReservableCurrency>(
    s: PalletView,
    ledger: C,
    buyer: AccountId,
    sell1: Seq<u8>,
    amount1: u64,
    buy1: Seq<u8>,
    sell2: Seq<u8>,
    amount2: u64,
    buy2: Seq<u8>,
)
    ensures
        ({
            let (after1, ledger1, out1) = spec_purchase(s, ledger, buyer, sell1, amount1, buy1);
            let (after2, ledger2, out2) = spec_purchase(s, ledger, buyer, sell2, amount2, buy2);
            &&& after1 == after2
            &&& ledger1 == ledger2
            &&& out1 is Ok <==> out2 is Ok
            &&& out1 is Ok ==> out1->Ok_0.0 == out2->Ok_0.0 && out1->Ok_0.1 == out2->Ok_0.1
                && out1->Ok_0.0 == spec_last_order_id(s)
            &&& out1 is Err ==> out1 == out2
        }),
{
}

/// What a check of a tracked recipe keeps of the recipe `r0` it started from:
/// the triger, the action and the enable flag stay; the run count is raised by
/// one exactly when the check fired (and then the check is over or only waits
/// for a submission or a lock), and stays otherwise.
pub open spec fn round_keeps(c: CheckView, r0: RecipeView) -> bool {
    &&& c.recipe.triger_id == r0.triger_id
    &&& c.recipe.action_id == r0.action_id
    &&& c.recipe.enable == r0.enable
    &&& c.fired is Some ==> c.recipe.times == r0.times + 1
    &&& c.fired is None ==> c.recipe.times == r0.times
    &&& c.fired is Some ==> (c.stage == CheckStage::Finished || c.stage == CheckStage::AwaitTimeSubmitted
        || c.stage == CheckStage::AwaitLock)
}

/// A check starts keeping its recipe (see [`round_keeps`]).
pub proof fn law_start_keeps_the_recipe(
    recipe_id: u64,
    r0: RecipeView,
    triger: Option<Triger>,
    action: Option<ActionView>,
    now: u64,
)
    requires
        start_defined(r0, triger, now),
    ensures
        round_keeps(spec_start(recipe_id, r0, triger, action, now).0, r0),
{
}

/// Every reply keeps a check keeping its recipe (see [`round_keeps`]): over a
/// whole round, a recipe keeps its triger, action and enable flag, and its run
/// count goes up by at most one, by one exactly when its action is to run.
pub proof fn law_resume_keeps_the_recipe(c: CheckView, r0: RecipeView, reply: ReplyView, now: u64, last_event: Seq<u8>)
    requires
        round_keeps(c, r0),
        resume_defined(c, reply, now, last_event),
    ensures
        round_keeps(spec_resume(c, reply, now, last_event).0, r0),
{
}

/// Recording a check that kept its recipe `r0` (the recipe tracked under its id):
/// the tracked recipe keeps its triger, action and enable flag, its run count
/// goes up by at most one, and its action is to run exactly when the count went up.
pub proof fn law_round_outcome(
    tasks: Map<u64, RecipeView>,
    running: Map<u64, RecipeView>,
    c: CheckView,
)
    requires
        tasks.contains_key(c.recipe_id),
        !running.contains_key(c.recipe_id),
        round_keeps(c, tasks[c.recipe_id]),
    ensures
        ({
            let id = c.recipe_id;
            let after = tasks.insert(id, c.recipe);
            let ran = match c.fired {
                Some(f) => running.insert(id, f),
                None => running,
            };
            &&& after[id].triger_id == tasks[id].triger_id
            &&& after[id].action_id == tasks[id].action_id
            &&& after[id].enable == tasks[id].enable
            &&& (after[id].times == tasks[id].times || after[id].times == tasks[id].times + 1)
            &&& ran.contains_key(id) <==> after[id].times == tasks[id].times + 1
        }),
{
}

} // verus!
