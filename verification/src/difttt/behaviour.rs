//! What each step of the worker and each recipe switch does, stated directly
//! in terms of its inputs.
use vstd::prelude::*;
use vstd::utf8::valid_utf8;

use super::offchain::{spec_plan, spec_resume, spec_start, CheckStage, CheckView, PlanView, ReplyView, RequestView};
use super::feeds::{price_cents, JsonNumber};
use super::offchain::spec_synced;
use super::pallet::{
    spec_keep_oak_hash, spec_mark_done, spec_reserve_call, spec_set_enable, spec_settlement_calls, spec_stamp,
    PalletView,
};
use super::{fresh_recipe, ActionView, Order, RecipeView, Triger};
use crate::support::AccountId;
use crate::text::ascii_bytes;
use crate::tokens::BalanceStatus;

verus! {

/// A price check fires exactly when the fetched price lies on the set side of
/// the set price (above it for `PriceGT`, below it for `PriceLT`); a fired
/// recipe has run once more and is done, and the fired copy is the recipe as it
/// now stands. A price that could not be fetched fires nothing. Either way the
/// check is over and asks for nothing more.
pub proof fn law_price_check(c: CheckView, above: bool, price: u64, fetched: Result<u64, super::feeds::HttpError>, now: u64, last_event: Seq<u8>)
    requires
        c.stage == (CheckStage::AwaitPrice { above, price }),
        c.fired is None,
        c.recipe.times < u64::MAX,
    ensures
        ({
            let (next, request) = spec_resume(c, ReplyView::Price(fetched), now, last_event);
            let fires = fetched matches Ok(p) && (if above { p > price } else { p < price });
            &&& request is None
            &&& next.stage == CheckStage::Finished
            &&& next.recipe_id == c.recipe_id
            &&& (next.fired is Some <==> fires)
            &&& fires ==> next.recipe.times == c.recipe.times + 1 && next.recipe.done && next.fired == Some(next.recipe)
                && next.recipe.triger_id == c.recipe.triger_id && next.recipe.action_id == c.recipe.action_id
            &&& !fires ==> next.recipe == c.recipe
        }),
{
}

/// An ARH999 check looks at the indicator only once its interval has passed
/// since it last looked. When it looks, it records the time `now` on the recipe
/// being checked, asks for `update_recipe_triger_time_unsigned` for that recipe
/// and that time, and fires exactly when the indicator is below the threshold
/// (one run more; the recipe is not done). Within the interval, or without an
/// indicator, nothing changes and nothing more is asked.
pub proof fn law_arh999_check(
    c: CheckView,
    indicator: u64,
    interval: u64,
    fetched: Result<u64, super::feeds::HttpError>,
    now: u64,
    last_event: Seq<u8>,
)
    requires
        c.stage == (CheckStage::AwaitArh999 { indicator, interval }),
        c.fired is None,
        c.recipe.times < u64::MAX,
        c.recipe.last_triger_timestamp <= now,
    ensures
        ({
            let (next, request) = spec_resume(c, ReplyView::Arh999(fetched), now, last_event);
            let looks = fetched is Ok && now - c.recipe.last_triger_timestamp > interval;
            &&& next.recipe_id == c.recipe_id
            &&& looks ==> {
                &&& request == Some(RequestView::SubmitTrigerTime { recipe_id: c.recipe_id, timestamp: now })
                &&& next.recipe.last_triger_timestamp == now
                &&& next.stage == CheckStage::AwaitTimeSubmitted
                &&& (next.fired is Some <==> fetched->Ok_0 < indicator)
                &&& next.recipe.times == (if fetched->Ok_0 < indicator { c.recipe.times + 1 } else { c.recipe.times as int })
                &&& next.recipe.done == c.recipe.done
                &&& next.fired is Some ==> next.fired == Some(next.recipe)
            }
            &&& !looks ==> request is None && next.recipe == c.recipe && next.fired is None
                && next.stage == CheckStage::Finished
        }),
{
}

/// A timer fires once its next due time, `insert_time + times * timer_seconds`,
/// lies before `now`; a schedule fires once its time lies before `now` and is
/// then done. Either way the check is decided at once and asks for nothing, a
/// fired recipe has run once more and is handed on as it now stands, and a
/// recipe that does not fire is left as it was.
pub proof fn law_timer_and_schedule_start(
    recipe_id: u64,
    r: RecipeView,
    insert_time: u64,
    seconds_or_time: u64,
    schedule: bool,
    action: Option<ActionView>,
    now: u64,
)
    requires
        r.times < u64::MAX,
        insert_time + r.times * seconds_or_time <= u64::MAX,
    ensures
        ({
            let triger = if schedule { Triger::Schedule(insert_time, seconds_or_time) } else { Triger::Timer(insert_time, seconds_or_time) };
            let (c, request) = spec_start(recipe_id, r, Some(triger), action, now);
            let due = if schedule { seconds_or_time < now } else { insert_time + r.times * seconds_or_time < now };
            &&& request is None
            &&& c.recipe_id == recipe_id
            &&& (c.fired is Some <==> due)
            &&& due ==> c.recipe.times == r.times + 1 && c.fired == Some(c.recipe) && c.recipe.done == (schedule || r.done)
                && c.recipe.triger_id == r.triger_id && c.recipe.action_id == r.action_id && c.recipe.enable == r.enable
            &&& !due ==> c.recipe == r
        }),
{
}

/// An OAK timer without a task yet asks the OAK service for a task that repeats
/// the action's text: the message of a Slack action, the body (fifth field) of
/// a mail, nothing for other actions; the task repeats as many times as the
/// triger says and its cycle is 1. With a task hash already kept, it submits
/// that hash for the recipe being checked instead.
pub proof fn law_oak_timer_start(
    recipe_id: u64,
    r: RecipeView,
    insert_time: u64,
    cycle_seconds: u64,
    repeat_times: u64,
    action: Option<ActionView>,
    now: u64,
)
    ensures
        ({
            let (c, request) = spec_start(recipe_id, r, Some(Triger::OakTimer(insert_time, cycle_seconds, repeat_times)), action, now);
            &&& c.recipe == r && c.fired is None && c.recipe_id == recipe_id
            &&& forall|url: Seq<u8>, token: Seq<u8>, revicer: Seq<u8>, title: Seq<u8>, body: Seq<u8>|
                action == Some(ActionView::MailWithToken(url, token, revicer, title, body)) && valid_utf8(body)
                    && r.oak_hash.len() == 0 ==> request == Some(
                    RequestView::CreateOakTask { cycle_seconds: 1, repeat_times, message: body },
                )
            &&& forall|url: Seq<u8>, message: Seq<u8>|
                action == Some(ActionView::Slack(url, message)) && valid_utf8(message) && r.oak_hash.len() == 0
                    ==> request == Some(RequestView::CreateOakTask { cycle_seconds: 1, repeat_times, message })
            &&& (action is None || action matches Some(ActionView::Oracle(_, _))) && r.oak_hash.len() == 0 ==> request
                == Some(RequestView::CreateOakTask { cycle_seconds: 1, repeat_times, message: Seq::<u8>::empty() })
            &&& r.oak_hash.len() > 0 && request is Some ==> request == Some(
                RequestView::SubmitOakHash { recipe_id, hash: r.oak_hash },
            )
        }),
{
    assert(valid_utf8(Seq::<u8>::empty())) by {
        assert(vstd::utf8::valid_utf8(Seq::<u8>::empty()));
    }
}

/// Once the OAK task's hash has been submitted, the check fires exactly when the
/// service's last event differs from the remembered one; the copy handed to the
/// action is the recipe before this run is counted, and the recipe counts one
/// run more. A new event is then locked before it is remembered.
pub proof fn law_oak_event(c: CheckView, event: Seq<u8>, now: u64, last_event: Seq<u8>)
    requires
        c.stage == CheckStage::AwaitLastEvent,
        c.fired is None,
        c.recipe.times < u64::MAX,
    ensures
        ({
            let (next, request) = spec_resume(c, ReplyView::LastEvent(Ok(event)), now, last_event);
            &&& (next.fired is Some <==> event != last_event)
            &&& event != last_event ==> {
                &&& next.fired == Some(c.recipe)
                &&& next.recipe.times == c.recipe.times + 1
                &&& next.seen_event == Some(event)
                &&& request == Some(RequestView::LockLastEvent)
            }
            &&& event == last_event ==> request is None && next.recipe == c.recipe
        }),
{
}

/// The remembered event is replaced by the one seen exactly when the lock is taken.
pub proof fn law_oak_lock(c: CheckView, taken: bool, now: u64, last_event: Seq<u8>)
    requires
        c.stage == CheckStage::AwaitLock,
    ensures
        spec_resume(c, ReplyView::Locked(taken), now, last_event).0.adopt_event == taken,
        spec_resume(c, ReplyView::Locked(taken), now, last_event).1 is None,
{
}

/// A Slack action publishes its message three times at most and marks the
/// recipe done once it has run at least `max_times` times; in particular a
/// recipe without an OAK repeat count (`max_times == 0`) is marked done on its
/// first run.
pub proof fn law_slack_plan_marks_done(recipe_id: u64, r: RecipeView, url: Seq<u8>, message: Seq<u8>)
    requires
        valid_utf8(url),
        valid_utf8(message),
    ensures
        ({
            let plan = spec_plan(recipe_id, r, Some(ActionView::Slack(url, message)));
            &&& plan is Publish
            &&& plan->max_run_num == 3
            &&& (plan->mark_done is Some <==> r.times >= r.max_times)
            &&& plan->mark_done is Some ==> plan->mark_done == Some(recipe_id)
            &&& r.max_times == 0 ==> plan->mark_done == Some(recipe_id)
        }),
{
}

/// Mail and oracle actions, once published, always mark the recipe done; a mail
/// sent by a local server publishes nothing.
pub proof fn law_other_plans_mark_done(recipe_id: u64, r: RecipeView, action: ActionView)
    ensures
        (action is MailWithToken || action is Oracle) && spec_plan(recipe_id, r, Some(action)) is Publish
            ==> spec_plan(recipe_id, r, Some(action))->mark_done == Some(recipe_id),
        action is MailByLocalServer ==> spec_plan(recipe_id, r, Some(action)) is Nothing,
{
}

/// Turning a recipe on or off changes its enable flag and nothing else: the
/// recipe keeps its triger, action, run count, done flag, last triger time and
/// OAK hash, and the rest of the storage is unchanged.
pub proof fn law_switch_changes_only_the_flag(s: PalletView, recipe_id: u64, on: bool)
    requires
        s.recipes.contains_key(recipe_id),
    ensures
        ({
            let t = spec_set_enable(s, recipe_id, on);
            let before = s.recipes[recipe_id];
            let after = t.recipes[recipe_id];
            &&& after.enable == on
            &&& after.triger_id == before.triger_id && after.action_id == before.action_id
            &&& after.times == before.times && after.max_times == before.max_times
            &&& after.done == before.done
            &&& after.last_triger_timestamp == before.last_triger_timestamp
            &&& after.oak_hash == before.oak_hash
            &&& t.recipes.dom() == s.recipes.dom()
            &&& forall|k: u64| #[trigger] s.recipes.contains_key(k) && k != recipe_id ==> t.recipes[k] == s.recipes[k]
            &&& t.trigers == s.trigers && t.actions == s.actions && t.recipe_owner == s.recipe_owner
            &&& t.orders == s.orders && t.next_recipe_id == s.next_recipe_id
        }),
{
    assert(spec_set_enable(s, recipe_id, on).recipes.dom() =~= s.recipes.dom());
}

/// Once the OAK service has created a task, the recipe keeps the task's hash
/// (after any it held, up to 128 bytes) and the triger's repeat count as its
/// `max_times`, and the check submits that hash for the recipe being checked.
/// Without a task the check ends and nothing changes.
pub proof fn law_oak_task_created(
    c: CheckView,
    repeat_times: u64,
    created: Result<Seq<u8>, super::feeds::HttpError>,
    now: u64,
    last_event: Seq<u8>,
)
    requires
        c.stage == (CheckStage::AwaitOakTask { repeat_times }),
    ensures
        ({
            let (next, request) = spec_resume(c, ReplyView::OakTask(created), now, last_event);
            &&& (created is Ok && c.recipe.oak_hash.len() == 0 && created->Ok_0.len() <= 128) ==> {
                &&& next.recipe.oak_hash == created->Ok_0
                &&& request == Some(RequestView::SubmitOakHash { recipe_id: c.recipe_id, hash: created->Ok_0 })
            }
            &&& created is Ok ==> {
                &&& next.recipe.max_times == repeat_times
                &&& next.recipe.times == c.recipe.times && next.recipe.done == c.recipe.done
                &&& next.recipe.triger_id == c.recipe.triger_id && next.recipe.action_id == c.recipe.action_id
                &&& next.fired == c.fired
                &&& request == Some(RequestView::SubmitOakHash { recipe_id: c.recipe_id, hash: next.recipe.oak_hash })
            }
            &&& created is Err ==> request is None && next.recipe == c.recipe
        }),
{
    if created is Ok {
        let hash = created->Ok_0;
        if c.recipe.oak_hash.len() == 0 && hash.len() <= 128 {
            assert(c.recipe.oak_hash + hash.take(hash.len() as int) =~= hash);
        }
    }
}

/// After a submission the check goes on only where an OAK hash was submitted
/// successfully (it then asks for the service's last event); a recorded triger
/// time ends the check whatever the answer.
pub proof fn law_submissions(c: CheckView, ok: bool, now: u64, last_event: Seq<u8>)
    ensures
        c.stage == CheckStage::AwaitOakHashSubmitted ==> ({
            let (next, request) = spec_resume(c, ReplyView::Submitted(ok), now, last_event);
            &&& next.recipe == c.recipe
            &&& (ok ==> request == Some(RequestView::GetLastEvent) && next.stage == CheckStage::AwaitLastEvent)
            &&& (!ok ==> request is None && next.stage == CheckStage::Finished)
        }),
        c.stage == CheckStage::AwaitTimeSubmitted ==> ({
            let (next, request) = spec_resume(c, ReplyView::Submitted(ok), now, last_event);
            &&& next.recipe == c.recipe && next.fired == c.fired && request is None
        }),
{
}

/// A mail action publishes the mail image with options naming, in order, the
/// url, token, receiver, title and body; an oracle action publishes the oracle
/// image with the token name and source url; a Slack action publishes the Slack
/// image with the hook url and the message. Each is published at most three times.
pub proof fn law_published_tasks(recipe_id: u64, r: RecipeView, a: Seq<u8>, b: Seq<u8>, c: Seq<u8>, d: Seq<u8>, e: Seq<u8>)
    requires
        valid_utf8(a) && valid_utf8(b) && valid_utf8(c) && valid_utf8(d) && valid_utf8(e),
    ensures
        spec_plan(recipe_id, r, Some(ActionView::MailWithToken(a, b, c, d, e))) == (PlanView::Publish {
            dockr_url: ascii_bytes("registry.cn-shenzhen.aliyuncs.com/difttt/email:latest"@),
            options: ascii_bytes("/email --url="@) + a + ascii_bytes(" --token="@) + b + ascii_bytes(" --revicer="@) + c
                + ascii_bytes(" --title="@) + d + ascii_bytes(" --body="@) + e,
            max_run_num: 3,
            mark_done: Some(recipe_id),
        }),
        spec_plan(recipe_id, r, Some(ActionView::Oracle(a, b))) == (PlanView::Publish {
            dockr_url: ascii_bytes("registry.cn-shenzhen.aliyuncs.com/difttt/oracle_price:latest"@),
            options: ascii_bytes("oracle_price --token_name="@) + a + ascii_bytes(" --source_url="@) + b
                + ascii_bytes(" --delay=45"@),
            max_run_num: 3,
            mark_done: Some(recipe_id),
        }),
        spec_plan(recipe_id, r, Some(ActionView::Slack(a, b)))->dockr_url
            == ascii_bytes("registry.cn-shenzhen.aliyuncs.com/difttt/slack-notify:latest"@),
        spec_plan(recipe_id, r, Some(ActionView::Slack(a, b)))->options
            == ascii_bytes("node index.js --url="@) + a + ascii_bytes(" --message="@) + b,
{
}

/// A token purchase action asks for an unsigned purchase by the action's
/// account, of the action's amount of the sell token, for the buy token.
pub proof fn law_purchase_plan(recipe_id: u64, r: RecipeView, buyer: AccountId, sell: Seq<u8>, amount: u64, buy: Seq<u8>, notice: Seq<u8>)
    requires
        valid_utf8(sell) && valid_utf8(buy),
    ensures
        spec_plan(recipe_id, r, Some(ActionView::BuyToken(buyer, sell, amount, buy, notice))) == (PlanView::BuyToken {
            recipe_id,
            buyer,
            sell_token_name: sell,
            sell_amount: amount,
            buy_token_name: buy,
        }),
{
}

/// The unsigned updates each change one field of one recipe: marking done sets
/// `done`, stamping sets the last triger time, and keeping an OAK hash stores
/// its first 128 bytes; the recipe's other fields and every other recipe stay.
pub proof fn law_unsigned_updates(s: PalletView, recipe_id: u64, timestamp: u64, hash: Seq<u8>)
    requires
        s.recipes.contains_key(recipe_id),
    ensures
        ({
            let r = s.recipes[recipe_id];
            let done = spec_mark_done(s, recipe_id).recipes;
            let stamped = spec_stamp(s, recipe_id, timestamp).recipes;
            let hashed = spec_keep_oak_hash(s, recipe_id, hash).recipes;
            &&& done.dom() == s.recipes.dom() && stamped.dom() == s.recipes.dom() && hashed.dom() == s.recipes.dom()
            &&& done[recipe_id].done && RecipeView { done: r.done, ..done[recipe_id] } == r
            &&& stamped[recipe_id].last_triger_timestamp == timestamp
            &&& RecipeView { last_triger_timestamp: r.last_triger_timestamp, ..stamped[recipe_id] } == r
            &&& (hash.len() <= 128 ==> hashed[recipe_id].oak_hash == hash)
            &&& (hash.len() > 128 ==> hashed[recipe_id].oak_hash == hash.subrange(0, 128))
            &&& RecipeView { oak_hash: r.oak_hash, ..hashed[recipe_id] } == r
            &&& forall|k: u64| #[trigger] s.recipes.contains_key(k) && k != recipe_id ==> done[k] == s.recipes[k]
                && stamped[k] == s.recipes[k] && hashed[k] == s.recipes[k]
            &&& spec_mark_done(s, recipe_id).orders == s.orders && spec_mark_done(s, recipe_id).trigers == s.trigers
        }),
{
    assert(spec_mark_done(s, recipe_id).recipes.dom() =~= s.recipes.dom());
    assert(spec_stamp(s, recipe_id, timestamp).recipes.dom() =~= s.recipes.dom());
    assert(spec_keep_oak_hash(s, recipe_id, hash).recipes.dom() =~= s.recipes.dom());
    if hash.len() <= 128 {
        assert(hash.take(hash.len() as int) =~= hash);
    }
}

/// A new recipe is enabled, never run, not done, never looked at its triger and
/// has no OAK task.
pub proof fn law_new_recipe(triger_id: u64, action_id: u64)
    ensures
        ({
            let r = fresh_recipe(triger_id, action_id);
            &&& r.triger_id == triger_id && r.action_id == action_id
            &&& r.enable && !r.done
            &&& r.times == 0 && r.max_times == 0 && r.last_triger_timestamp == 0
            &&& r.oak_hash.len() == 0
        }),
{
}

/// Comparing the tracked recipes with the stored ones: a stored recipe that is
/// active and not yet tracked starts being tracked as a new recipe of the same
/// triger and action; a tracked recipe that stays tracked keeps its progress.
pub proof fn law_sync_entries(tasks: Map<u64, RecipeView>, stored: Map<u64, RecipeView>, k: u64)
    ensures
        stored.contains_key(k) && stored[k].enable && !stored[k].done && !tasks.contains_key(k) ==> spec_synced(
            tasks,
            stored,
        ).contains_key(k) && spec_synced(tasks, stored)[k] == fresh_recipe(stored[k].triger_id, stored[k].action_id),
        tasks.contains_key(k) && spec_synced(tasks, stored).contains_key(k) ==> spec_synced(tasks, stored)[k]
            == tasks[k],
        stored.contains_key(k) && (!stored[k].enable || stored[k].done) ==> !spec_synced(tasks, stored).contains_key(k),
{
}

/// Settling an order asks the ledger for a transfer of the order's target
/// amount of its target currency from the taker to the owner, and for the
/// repatriation of its base amount of its base currency reserved by the owner to
/// the taker's free balance. Placing an order reserves its base amount of its
/// base currency of its owner.
pub proof fn law_ledger_requests(order: Order, taker: AccountId)
    ensures
        ({
            let (transfer, repatriate) = spec_settlement_calls(order, taker);
            &&& transfer.from == taker && transfer.to == order.owner
            &&& transfer.currency_id == order.target_currency_id && transfer.amount == order.target_amount
            &&& repatriate.slashed == order.owner && repatriate.beneficiary == taker
            &&& repatriate.currency_id == order.base_currency_id && repatriate.amount == order.base_amount
            &&& repatriate.status == BalanceStatus::Free
        }),
        ({
            let reserve = spec_reserve_call(order.owner, order.base_currency_id, order.base_amount);
            &&& reserve.who == order.owner && reserve.currency_id == order.base_currency_id
            &&& reserve.amount == order.base_amount
        }),
{
}

/// A price in cents: the integer part counts hundreds of cents; a fraction
/// written with one digit counts tens of cents, one with two digits counts
/// cents, and of a longer fraction only the first two digits count.
pub proof fn law_price_cents(n: JsonNumber)
    ensures
        n.fraction_length == 0 && n.fraction == 0 ==> price_cents(n) == n.integer * 100,
        n.fraction_length == 1 ==> price_cents(n) == n.integer * 100 + n.fraction * 10,
        n.fraction_length == 2 ==> price_cents(n) == n.integer * 100 + n.fraction,
        n.fraction_length == 3 ==> price_cents(n) == n.integer * 100 + n.fraction / 10,
        n.fraction_length == 4 ==> price_cents(n) == n.integer * 100 + n.fraction / 100,
{
    reveal_with_fuel(super::feeds::pow10, 3);
    assert(super::feeds::pow10(0) == 1);
    assert(super::feeds::pow10(1) == 10);
    assert(super::feeds::pow10(2) == 100);
    if n.fraction_length == 2 {
        assert(super::feeds::price_exponent(n) == 0);
        assert(n.fraction as int / 1 == n.fraction);
    }
}

} // verus!
