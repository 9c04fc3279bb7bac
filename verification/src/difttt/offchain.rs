//! The off-chain worker's decisions: which recipes it tracks, when their
//! triggers fire, and what a fired recipe's action publishes.
use std::collections::BTreeMap;
use vstd::prelude::*;

use super::feeds::HttpError;
use super::pallet::Pallet;
use super::{fresh_recipe, Action, ActionView, Recipe, RecipeView, Triger};
use crate::bounded::BoundedBytes;
use vstd::utf8::valid_utf8;

use crate::text::{append_ascii, append_bytes, ascii_bytes, ascii_vec, bytes_eq, is_utf8};

verus! {

/// A recipe that the worker keeps checking: enabled and not yet done.
pub open spec fn is_active(r: RecipeView) -> bool {
    r.enable && !r.done
}

/// The tracked recipes after comparing them with the stored ones: an active
/// stored recipe that is not tracked yet starts being tracked afresh, an
/// inactive one stops being tracked, and the others keep their progress.
/// (A tracked recipe that is no longer stored at all stays tracked.)
pub open spec fn spec_synced(tasks: Map<u64, RecipeView>, stored: Map<u64, RecipeView>) -> Map<u64, RecipeView> {
    Map::new(
        |k: u64| if stored.contains_key(k) { is_active(stored[k]) } else { tasks.contains_key(k) },
        |k: u64| if tasks.contains_key(k) { tasks[k] } else { fresh_recipe(stored[k].triger_id, stored[k].action_id) },
    )
}

/// The tracked recipes as mathematical values.
pub open spec fn tasks_view(tasks: BTreeMap<u64, Recipe>) -> Map<u64, RecipeView> {
    tasks@.map_values(|r: Recipe| r@)
}

impl Pallet {
    /// Brings the tracked recipes in line with the stored ones (see [`spec_synced`]).
    pub fn sync_recipe_tasks(&self, tasks: &mut BTreeMap<u64, Recipe>)
        ensures
            tasks_view(*final(tasks)) == spec_synced(tasks_view(*old(tasks)), self@.recipes),
    {
        let ghost start = tasks_view(*tasks);
        let ghost stored = self@.recipes;
        let ghost mut done: Set<u64> = Set::empty();
        assert(spec_synced(start, stored.restrict(done)) =~= start);
        for entry in it: self.map_recipe.iter()
            invariant
                tasks_view(*tasks) == spec_synced(start, stored.restrict(done)),
                stored == self@.recipes,
                it.seq().no_duplicates(),
                forall|j: int| 0 <= j < it.seq().len() ==> self.map_recipe@.contains_key(*#[trigger] it.seq()[j].0)
                    && self.map_recipe@[*it.seq()[j].0] == *it.seq()[j].1,
                forall|k: u64| #[trigger] self.map_recipe@.contains_key(k) ==> exists|j: int| 0 <= j < it.seq().len() && *it.seq()[j].0 == k,
                forall|j: int| 0 <= j < it.index() ==> done.contains(*#[trigger] it.seq()[j].0),
                forall|k: u64| #[trigger] done.contains(k) ==> exists|j: int| 0 <= j < it.index() && *it.seq()[j].0 == k,
        {
            let (id, recipe) = entry;
            let ghost k = *id;
            assert(entry == it.seq()[it.index() as int]);
            proof {
                if done.contains(k) {
                    let j = choose|j: int| 0 <= j < it.index() && *it.seq()[j].0 == k;
                    assert(it.seq()[j] == it.seq()[it.index() as int]);
                }
            }
            assert(stored[k] == recipe@);
            assert(!done.contains(k));

            let ghost pre = tasks_view(*tasks);
            let ghost pre_tasks = tasks@;
            assert(pre.contains_key(k) == start.contains_key(k));
            assert(pre.contains_key(k) ==> pre[k] == start[k]);
            if recipe.enable && !recipe.done {
                if !tasks.contains_key(id) {
                    tasks.insert(*id, Recipe::fresh(recipe.triger_id, recipe.action_id));
                    proof {
                        assert(tasks_view(*tasks) =~= pre.insert(k, fresh_recipe(recipe.triger_id, recipe.action_id)));
                    }
                }
            } else {
                tasks.remove(id);
                proof {
                    assert(tasks_view(*tasks) =~= pre.remove(k));
                }
            }
            proof {
                let old_done = done;
                done = done.insert(k);
                let post = spec_synced(start, stored.restrict(done));
                assert forall|x: u64| #[trigger] post.contains_key(x) == tasks_view(*tasks).contains_key(x)
                    && (post.contains_key(x) ==> post[x] == tasks_view(*tasks)[x]) by {
                    if x != k {
                        assert(stored.restrict(done).contains_key(x) == stored.restrict(old_done).contains_key(x));
                    }
                }
                assert(tasks_view(*tasks) =~= post);
            }
        }
        assert forall|k: u64| stored.contains_key(k) implies done.contains(k) by {
            assert(self.map_recipe@.contains_key(k));
        }
        assert(stored.restrict(done) =~= stored);
    }
}

/// The outside work that checking a triger needs next.
#[derive(Debug)]
pub enum CheckRequest {
    /// Fetch the BTC price in cents.
    FetchPrice,
    /// Fetch the ARH999 indicator in hundredths.
    FetchArh999,
    /// Submit `update_recipe_triger_time_unsigned` for the recipe (its outcome does not matter).
    SubmitTrigerTime { recipe_id: u64, timestamp: u64 },
    /// Ask the OAK service for a task that repeats `message`.
    CreateOakTask { cycle_seconds: u64, repeat_times: u64, message: Vec<u8> },
    /// Submit `update_recipe_oak_hash_unsigned` for the recipe.
    SubmitOakHash { recipe_id: u64, hash: Vec<u8> },
    /// Fetch the last event of the OAK automation service.
    GetLastEvent,
    /// Try to take the lock that guards the remembered last event.
    LockLastEvent,
}

/// The contents of a [`CheckRequest`].
pub enum RequestView {
    FetchPrice,
    FetchArh999,
    SubmitTrigerTime { recipe_id: u64, timestamp: u64 },
    CreateOakTask { cycle_seconds: u64, repeat_times: u64, message: Seq<u8> },
    SubmitOakHash { recipe_id: u64, hash: Seq<u8> },
    GetLastEvent,
    LockLastEvent,
}

impl View for CheckRequest {
    type V = RequestView;

    open spec fn view(&self) -> RequestView {
        match self {
            CheckRequest::FetchPrice => RequestView::FetchPrice,
            CheckRequest::FetchArh999 => RequestView::FetchArh999,
            CheckRequest::SubmitTrigerTime { recipe_id, timestamp } => RequestView::SubmitTrigerTime {
                recipe_id: *recipe_id,
                timestamp: *timestamp,
            },
            CheckRequest::CreateOakTask { cycle_seconds, repeat_times, message } => RequestView::CreateOakTask {
                cycle_seconds: *cycle_seconds,
                repeat_times: *repeat_times,
                message: message@,
            },
            CheckRequest::SubmitOakHash { recipe_id, hash } => RequestView::SubmitOakHash {
                recipe_id: *recipe_id,
                hash: hash@,
            },
            CheckRequest::GetLastEvent => RequestView::GetLastEvent,
            CheckRequest::LockLastEvent => RequestView::LockLastEvent,
        }
    }
}

/// What came back from the outside work.
#[derive(Debug)]
pub enum CheckReply {
    Price(Result<u64, HttpError>),
    Arh999(Result<u64, HttpError>),
    /// Whether the submission went through.
    Submitted(bool),
    /// The hash of the created OAK task.
    OakTask(Result<Vec<u8>, HttpError>),
    /// The id of the last OAK event.
    LastEvent(Result<Vec<u8>, HttpError>),
    /// Whether the lock was taken.
    Locked(bool),
}

/// The contents of a [`CheckReply`].
pub enum ReplyView {
    Price(Result<u64, HttpError>),
    Arh999(Result<u64, HttpError>),
    Submitted(bool),
    OakTask(Result<Seq<u8>, HttpError>),
    LastEvent(Result<Seq<u8>, HttpError>),
    Locked(bool),
}

impl View for CheckReply {
    type V = ReplyView;

    open spec fn view(&self) -> ReplyView {
        match self {
            CheckReply::Price(r) => ReplyView::Price(*r),
            CheckReply::Arh999(r) => ReplyView::Arh999(*r),
            CheckReply::Submitted(b) => ReplyView::Submitted(*b),
            CheckReply::OakTask(r) => ReplyView::OakTask(match r {
                Ok(h) => Ok(h@),
                Err(e) => Err(*e),
            }),
            CheckReply::LastEvent(r) => ReplyView::LastEvent(match r {
                Ok(h) => Ok(h@),
                Err(e) => Err(*e),
            }),
            CheckReply::Locked(b) => ReplyView::Locked(*b),
        }
    }
}

/// Where a triger check stands.
#[derive(Clone, Copy, Debug, PartialEq, Eq, Structural)]
pub enum CheckStage {
    /// Waiting for the price; fires when it is above (or below) `price`.
    AwaitPrice { above: bool, price: u64 },
    /// Waiting for the ARH999 indicator.
    AwaitArh999 { indicator: u64, interval: u64 },
    /// Waiting for the trigger-time submission to be done.
    AwaitTimeSubmitted,
    /// Waiting for the OAK service to create a task.
    AwaitOakTask { repeat_times: u64 },
    /// Waiting for the OAK hash submission.
    AwaitOakHashSubmitted,
    /// Waiting for the last OAK event.
    AwaitLastEvent,
    /// Waiting for the lock on the remembered last event.
    AwaitLock,
    /// Nothing more to do.
    Finished,
}

/// The check of one tracked recipe's triger during a run of the worker.
pub struct TrigerCheck {
    recipe_id: u64,
    recipe: Recipe,
    fired: Option<Recipe>,
    seen_event: Option<Vec<u8>>,
    adopt_event: bool,
    stage: CheckStage,
}

/// The contents of a [`TrigerCheck`]: the recipe as it now stands, the copy of
/// it handed to the action phase if it fired, the OAK event seen, whether that
/// event becomes the remembered one, and the stage.
pub struct CheckView {
    pub recipe_id: u64,
    pub recipe: RecipeView,
    pub fired: Option<RecipeView>,
    pub seen_event: Option<Seq<u8>>,
    pub adopt_event: bool,
    pub stage: CheckStage,
}

impl View for TrigerCheck {
    type V = CheckView;

    closed spec fn view(&self) -> CheckView {
        CheckView {
            recipe_id: self.recipe_id,
            recipe: self.recipe@,
            fired: match self.fired {
                Some(f) => Some(f@),
                None => None,
            },
            seen_event: match self.seen_event {
                Some(e) => Some(e@),
                None => None,
            },
            adopt_event: self.adopt_event,
            stage: self.stage,
        }
    }
}

/// One more run of the recipe.
pub open spec fn spec_bump(r: RecipeView) -> RecipeView {
    RecipeView { times: (r.times + 1) as u64, ..r }
}

/// One more run, and the recipe is done.
pub open spec fn spec_bump_done(r: RecipeView) -> RecipeView {
    RecipeView { times: (r.times + 1) as u64, done: true, ..r }
}

/// The text that an OAK task repeats: a Slack message or a mail body.
pub open spec fn oak_message(action: Option<ActionView>) -> Seq<u8> {
    match action {
        Some(ActionView::Slack(_, m)) => m,
        Some(ActionView::MailWithToken(_, _, _, _, body)) => body,
        _ => Seq::empty(),
    }
}

/// A check that has nothing more to do.
pub open spec fn spec_finished(recipe_id: u64, r: RecipeView, fired: Option<RecipeView>) -> CheckView {
    CheckView { recipe_id, recipe: r, fired, seen_event: None, adopt_event: false, stage: CheckStage::Finished }
}

/// A check waiting at `stage`.
pub open spec fn spec_waiting(recipe_id: u64, r: RecipeView, stage: CheckStage) -> CheckView {
    CheckView { recipe_id, recipe: r, fired: None, seen_event: None, adopt_event: false, stage }
}

/// The arithmetic of starting a check stays within 64 bits (otherwise it would panic).
pub open spec fn start_defined(r: RecipeView, triger: Option<Triger>, now: u64) -> bool {
    match triger {
        Some(Triger::Timer(insert_time, timer_seconds)) => {
            &&& insert_time + r.times * timer_seconds <= u64::MAX
            &&& insert_time + r.times * timer_seconds < now ==> r.times < u64::MAX
        },
        Some(Triger::Schedule(_, timestamp)) => timestamp < now ==> r.times < u64::MAX,
        _ => true,
    }
}

/// How a check starts for recipe `r` under `triger`, with `action` its action:
/// timers and schedules are decided at once; price, ARH999 and OAK trigers ask
/// for outside data first.
pub open spec fn spec_start(
    recipe_id: u64,
    r: RecipeView,
    triger: Option<Triger>,
    action: Option<ActionView>,
    now: u64,
) -> (CheckView, Option<RequestView>) {
    match triger {
        Some(Triger::Timer(insert_time, timer_seconds)) => if insert_time + r.times * timer_seconds < now {
            (spec_finished(recipe_id, spec_bump(r), Some(spec_bump(r))), None)
        } else {
            (spec_finished(recipe_id, r, None), None)
        },
        Some(Triger::Schedule(_, timestamp)) => if timestamp < now {
            (spec_finished(recipe_id, spec_bump_done(r), Some(spec_bump_done(r))), None)
        } else {
            (spec_finished(recipe_id, r, None), None)
        },
        Some(Triger::PriceGT(_, price)) => (
            spec_waiting(recipe_id, r, CheckStage::AwaitPrice { above: true, price }),
            Some(RequestView::FetchPrice),
        ),
        Some(Triger::PriceLT(_, price)) => (
            spec_waiting(recipe_id, r, CheckStage::AwaitPrice { above: false, price }),
            Some(RequestView::FetchPrice),
        ),
        Some(Triger::Arh999LT(_, indicator, interval)) => (
            spec_waiting(recipe_id, r, CheckStage::AwaitArh999 { indicator, interval }),
            Some(RequestView::FetchArh999),
        ),
        Some(Triger::OakTimer(_, _, repeat_times)) => if !valid_utf8(oak_message(action)) {
            (spec_finished(recipe_id, r, None), None)
        } else if r.oak_hash.len() < 1 {
            (
                spec_waiting(recipe_id, r, CheckStage::AwaitOakTask { repeat_times }),
                Some(RequestView::CreateOakTask { cycle_seconds: 1, repeat_times, message: oak_message(action) }),
            )
        } else {
            (
                spec_waiting(recipe_id, r, CheckStage::AwaitOakHashSubmitted),
                Some(RequestView::SubmitOakHash { recipe_id, hash: r.oak_hash }),
            )
        },
        _ => (spec_finished(recipe_id, r, None), None),
    }
}

/// Whether a fetched price fires a price triger.
pub open spec fn price_fires(above: bool, price: u64, fetched: u64) -> bool {
    if above { price < fetched } else { price > fetched }
}

/// The arithmetic of resuming a check stays within 64 bits (otherwise it would panic).
pub open spec fn resume_defined(c: CheckView, reply: ReplyView, now: u64, last_event: Seq<u8>) -> bool {
    match (c.stage, reply) {
        (CheckStage::AwaitPrice { above, price }, ReplyView::Price(Ok(fetched))) =>
            price_fires(above, price, fetched) ==> c.recipe.times < u64::MAX,
        (CheckStage::AwaitArh999 { indicator, interval }, ReplyView::Arh999(Ok(fetched))) => {
            &&& c.recipe.last_triger_timestamp <= now
            &&& (now - c.recipe.last_triger_timestamp > interval && indicator > fetched) ==> c.recipe.times < u64::MAX
        },
        (CheckStage::AwaitLastEvent, ReplyView::LastEvent(Ok(id))) => id != last_event ==> c.recipe.times < u64::MAX,
        _ => true,
    }
}

/// How a check goes on when `reply` comes back. A reply of the wrong kind ends
/// the check where it stands.
pub open spec fn spec_resume(c: CheckView, reply: ReplyView, now: u64, last_event: Seq<u8>) -> (CheckView, Option<RequestView>) {
    let id = c.recipe_id;
    let r = c.recipe;
    let end = CheckView { stage: CheckStage::Finished, ..c };
    match (c.stage, reply) {
        (CheckStage::AwaitPrice { above, price }, ReplyView::Price(fetched)) => match fetched {
            Ok(p) => if price_fires(above, price, p) {
                (CheckView { recipe: spec_bump_done(r), fired: Some(spec_bump_done(r)), ..end }, None)
            } else {
                (end, None)
            },
            Err(_) => (end, None),
        },
        (CheckStage::AwaitArh999 { indicator, interval }, ReplyView::Arh999(fetched)) => match fetched {
            Ok(a) => if now - r.last_triger_timestamp > interval {
                let stamped = RecipeView { last_triger_timestamp: now, ..r };
                if indicator > a {
                    (
                        CheckView { recipe: spec_bump(stamped), fired: Some(spec_bump(stamped)), stage: CheckStage::AwaitTimeSubmitted, ..c },
                        Some(RequestView::SubmitTrigerTime { recipe_id: id, timestamp: now }),
                    )
                } else {
                    (
                        CheckView { recipe: stamped, stage: CheckStage::AwaitTimeSubmitted, ..c },
                        Some(RequestView::SubmitTrigerTime { recipe_id: id, timestamp: now }),
                    )
                }
            } else {
                (end, None)
            },
            Err(_) => (end, None),
        },
        (CheckStage::AwaitOakTask { repeat_times }, ReplyView::OakTask(created)) => match created {
            Ok(hash) => {
                let filled = RecipeView {
                    max_times: repeat_times,
                    oak_hash: r.oak_hash + hash.take(crate::bounded::spec_room::<128>(r.oak_hash.len(), hash.len())),
                    ..r
                };
                (
                    CheckView { recipe: filled, stage: CheckStage::AwaitOakHashSubmitted, ..c },
                    Some(RequestView::SubmitOakHash { recipe_id: id, hash: filled.oak_hash }),
                )
            },
            Err(_) => (end, None),
        },
        (CheckStage::AwaitOakHashSubmitted, ReplyView::Submitted(ok)) => if ok {
            (CheckView { stage: CheckStage::AwaitLastEvent, ..c }, Some(RequestView::GetLastEvent))
        } else {
            (end, None)
        },
        (CheckStage::AwaitLastEvent, ReplyView::LastEvent(fetched)) => match fetched {
            Ok(event) => if event != last_event {
                (
                    CheckView { recipe: spec_bump(r), fired: Some(r), seen_event: Some(event), stage: CheckStage::AwaitLock, ..c },
                    Some(RequestView::LockLastEvent),
                )
            } else {
                (end, None)
            },
            Err(_) => (end, None),
        },
        (CheckStage::AwaitLock, ReplyView::Locked(taken)) => (CheckView { adopt_event: taken, ..end }, None),
        _ => (end, None),
    }
}

/// The request, as its contents.
pub open spec fn request_view(r: Option<CheckRequest>) -> Option<RequestView> {
    match r {
        Some(q) => Some(q@),
        None => None,
    }
}

/// A recipe with one more run.
fn bumped(r: &Recipe) -> (out: Recipe)
    requires
        r.times < u64::MAX,
    ensures
        out@ == spec_bump(r@),
{
    let mut out = r.duplicate();
    out.times = r.times + 1;
    out
}

/// The text that an OAK task repeats for `action`.
fn oak_message_of(action: Option<&Action>) -> (m: Vec<u8>)
    ensures
        m@ == oak_message(match action {
            Some(a) => Some(a@),
            None => None,
        }),
{
    match action {
        Some(Action::Slack(_, message)) => message.to_vec(),
        Some(Action::MailWithToken(_, _, _, _, body)) => body.to_vec(),
        _ => Vec::new(),
    }
}

impl Pallet {
    /// Starts checking the triger of tracked recipe `recipe_id` at time `now`.
    pub fn start_triger_check(&self, tasks: &BTreeMap<u64, Recipe>, recipe_id: u64, now: u64) -> (r: (
        TrigerCheck,
        Option<CheckRequest>,
    ))
        requires
            tasks@.contains_key(recipe_id),
            start_defined(
                tasks@[recipe_id]@,
                self@.trigers.get(tasks@[recipe_id].triger_id),
                now,
            ),
        ensures
            (r.0@, request_view(r.1)) == spec_start(
                recipe_id,
                tasks@[recipe_id]@,
                self@.trigers.get(tasks@[recipe_id].triger_id),
                self@.actions.get(tasks@[recipe_id].action_id),
                now,
            ),
    {
        let recipe = match tasks.get(&recipe_id) {
            Some(rec) => rec.duplicate(),
            None => {
                assert(false);
                Recipe::fresh(0, 0)
            },
        };
        let triger = match self.map_triger.get(&recipe.triger_id) {
            Some(t) => Some(*t),
            None => None,
        };
        let action = self.map_action.get(&recipe.action_id);
        proof {
            assert(match action { Some(a) => Some(a@), None => None::<ActionView> } == self@.actions.get(recipe.action_id));
        }
        let finished = |rec: Recipe, fired: Option<Recipe>| -> (c: TrigerCheck)
            ensures
                c@ == spec_finished(recipe_id, rec@, match fired { Some(f) => Some(f@), None => None }),
        {
            TrigerCheck { recipe_id, recipe: rec, fired, seen_event: None, adopt_event: false, stage: CheckStage::Finished }
        };
        match triger {
            Some(Triger::Timer(insert_time, timer_seconds)) => {
                if insert_time + recipe.times * timer_seconds < now {
                    let after = bumped(&recipe);
                    let fired = after.duplicate();
                    (finished(after, Some(fired)), None)
                } else {
                    (finished(recipe, None), None)
                }
            },
            Some(Triger::Schedule(_, timestamp)) => {
                if timestamp < now {
                    let mut after = bumped(&recipe);
                    after.done = true;
                    let fired = after.duplicate();
                    (finished(after, Some(fired)), None)
                } else {
                    (finished(recipe, None), None)
                }
            },
            Some(Triger::PriceGT(_, price)) => (
                TrigerCheck { recipe_id, recipe, fired: None, seen_event: None, adopt_event: false, stage: CheckStage::AwaitPrice { above: true, price } },
                Some(CheckRequest::FetchPrice),
            ),
            Some(Triger::PriceLT(_, price)) => (
                TrigerCheck { recipe_id, recipe, fired: None, seen_event: None, adopt_event: false, stage: CheckStage::AwaitPrice { above: false, price } },
                Some(CheckRequest::FetchPrice),
            ),
            Some(Triger::Arh999LT(_, indicator, interval)) => (
                TrigerCheck { recipe_id, recipe, fired: None, seen_event: None, adopt_event: false, stage: CheckStage::AwaitArh999 { indicator, interval } },
                Some(CheckRequest::FetchArh999),
            ),
            Some(Triger::OakTimer(_, _, repeat_times)) => {
                let message = oak_message_of(action);
                if !is_utf8(message.as_slice()) {
                    (finished(recipe, None), None)
                } else if recipe.oak_hash.len() < 1 {
                    (
                        TrigerCheck { recipe_id, recipe, fired: None, seen_event: None, adopt_event: false, stage: CheckStage::AwaitOakTask { repeat_times } },
                        Some(CheckRequest::CreateOakTask { cycle_seconds: 1, repeat_times, message }),
                    )
                } else {
                    let hash = recipe.oak_hash.to_vec();
                    (
                        TrigerCheck { recipe_id, recipe, fired: None, seen_event: None, adopt_event: false, stage: CheckStage::AwaitOakHashSubmitted },
                        Some(CheckRequest::SubmitOakHash { recipe_id, hash }),
                    )
                }
            },
            _ => (finished(recipe, None), None),
        }
    }
}

impl TrigerCheck {
    /// Goes on with the check once `reply` has come back; `last_event_id` is the
    /// OAK event remembered from earlier runs.
    pub fn resume(&mut self, reply: CheckReply, now: u64, last_event_id: &[u8]) -> (next: Option<CheckRequest>)
        requires
            resume_defined(old(self)@, reply@, now, last_event_id@),
        ensures
            (final(self)@, request_view(next)) == spec_resume(old(self)@, reply@, now, last_event_id@),
    {
        let id = self.recipe_id;
        match (self.stage, reply) {
            (CheckStage::AwaitPrice { above, price }, CheckReply::Price(fetched)) => {
                self.stage = CheckStage::Finished;
                match fetched {
                    Ok(p) => {
                        if (above && price < p) || (!above && price > p) {
                            let mut after = bumped(&self.recipe);
                            after.done = true;
                            self.fired = Some(after.duplicate());
                            self.recipe = after;
                        }
                    },
                    Err(_) => {},
                }
                None
            },
            (CheckStage::AwaitArh999 { indicator, interval }, CheckReply::Arh999(fetched)) => {
                match fetched {
                    Ok(a) => {
                        if now - self.recipe.last_triger_timestamp > interval {
                            self.recipe.last_triger_timestamp = now;
                            if indicator > a {
                                let after = bumped(&self.recipe);
                                self.fired = Some(after.duplicate());
                                self.recipe = after;
                            }
                            self.stage = CheckStage::AwaitTimeSubmitted;
                            Some(CheckRequest::SubmitTrigerTime { recipe_id: id, timestamp: now })
                        } else {
                            self.stage = CheckStage::Finished;
                            None
                        }
                    },
                    Err(_) => {
                        self.stage = CheckStage::Finished;
                        None
                    },
                }
            },
            (CheckStage::AwaitTimeSubmitted, CheckReply::Submitted(_)) => {
                self.stage = CheckStage::Finished;
                None
            },
            (CheckStage::AwaitOakTask { repeat_times }, CheckReply::OakTask(created)) => {
                match created {
                    Ok(hash) => {
                        self.recipe.max_times = repeat_times;
                        self.recipe.oak_hash.try_extend(hash.as_slice());
                        self.stage = CheckStage::AwaitOakHashSubmitted;
                        Some(CheckRequest::SubmitOakHash { recipe_id: id, hash: self.recipe.oak_hash.to_vec() })
                    },
                    Err(_) => {
                        self.stage = CheckStage::Finished;
                        None
                    },
                }
            },
            (CheckStage::AwaitOakHashSubmitted, CheckReply::Submitted(ok)) => {
                if ok {
                    self.stage = CheckStage::AwaitLastEvent;
                    Some(CheckRequest::GetLastEvent)
                } else {
                    self.stage = CheckStage::Finished;
                    None
                }
            },
            (CheckStage::AwaitLastEvent, CheckReply::LastEvent(fetched)) => {
                match fetched {
                    Ok(event) => {
                        if !bytes_eq(event.as_slice(), last_event_id) {
                            self.fired = Some(self.recipe.duplicate());
                            self.recipe = bumped(&self.recipe);
                            self.seen_event = Some(event);
                            self.stage = CheckStage::AwaitLock;
                            Some(CheckRequest::LockLastEvent)
                        } else {
                            self.stage = CheckStage::Finished;
                            None
                        }
                    },
                    Err(_) => {
                        self.stage = CheckStage::Finished;
                        None
                    },
                }
            },
            (CheckStage::AwaitLock, CheckReply::Locked(taken)) => {
                self.adopt_event = taken;
                self.stage = CheckStage::Finished;
                None
            },
            _ => {
                self.stage = CheckStage::Finished;
                None
            },
        }
    }

    /// Whether the arithmetic of [`Self::resume`] with `reply` stays within 64 bits.
    pub fn can_resume(&self, reply: &CheckReply, now: u64, last_event_id: &[u8]) -> (r: bool)
        ensures
            r == resume_defined(self@, reply@, now, last_event_id@),
    {
        match (self.stage, reply) {
            (CheckStage::AwaitPrice { above, price }, CheckReply::Price(Ok(p))) => {
                !((above && price < *p) || (!above && price > *p)) || self.recipe.times < u64::MAX
            },
            (CheckStage::AwaitArh999 { indicator, interval }, CheckReply::Arh999(Ok(a))) => {
                self.recipe.last_triger_timestamp <= now && (!(now - self.recipe.last_triger_timestamp > interval
                    && indicator > *a) || self.recipe.times < u64::MAX)
            },
            (CheckStage::AwaitLastEvent, CheckReply::LastEvent(Ok(event))) => {
                bytes_eq(event.as_slice(), last_event_id) || self.recipe.times < u64::MAX
            },
            _ => true,
        }
    }

    /// Records the outcome of a check: the recipe's new state among the tracked
    /// ones, the fired copy among those whose actions run, and the OAK event
    /// remembered from now on when it was adopted.
    pub fn settle(
        self,
        tasks: &mut BTreeMap<u64, Recipe>,
        running: &mut BTreeMap<u64, Recipe>,
        last_event_id: &mut Vec<u8>,
    )
        ensures
            tasks_view(*final(tasks)) == tasks_view(*old(tasks)).insert(self@.recipe_id, self@.recipe),
            tasks_view(*final(running)) == (match self@.fired {
                Some(f) => tasks_view(*old(running)).insert(self@.recipe_id, f),
                None => tasks_view(*old(running)),
            }),
            final(last_event_id)@ == (if self@.adopt_event && self@.seen_event is Some {
                self@.seen_event.unwrap()
            } else {
                old(last_event_id)@
            }),
    {
        let ghost pre_tasks = tasks@;
        let ghost pre_running = running@;
        let ghost v = self@;
        let TrigerCheck { recipe_id, recipe, fired, seen_event, adopt_event, stage: _ } = self;
        tasks.insert(recipe_id, recipe);
        assert(tasks_view(*tasks) =~= pre_tasks.map_values(|r: Recipe| r@).insert(recipe_id, v.recipe));
        match fired {
            Some(f) => {
                running.insert(recipe_id, f);
                assert(tasks_view(*running) =~= pre_running.map_values(|r: Recipe| r@).insert(recipe_id, v.fired.unwrap()));
            },
            None => {},
        }
        if adopt_event {
            match seen_event {
                Some(e) => {
                    *last_event_id = e;
                },
                None => {},
            }
        }
    }
}

/// Whether the arithmetic of starting a check of recipe `recipe_id` stays within 64 bits.
pub fn can_start_triger_check(pallet: &Pallet, tasks: &BTreeMap<u64, Recipe>, recipe_id: u64, now: u64) -> (r: bool)
    requires
        tasks@.contains_key(recipe_id),
    ensures
        r == start_defined(tasks@[recipe_id]@, pallet@.trigers.get(tasks@[recipe_id].triger_id), now),
{
    let recipe = match tasks.get(&recipe_id) {
        Some(rec) => rec,
        None => {
            assert(false);
            return false;
        },
    };
    match pallet.map_triger.get(&recipe.triger_id) {
        Some(Triger::Timer(insert_time, timer_seconds)) => {
            match recipe.times.checked_mul(*timer_seconds) {
                None => {
                    assert(recipe.times * *timer_seconds > u64::MAX);
                    false
                },
                Some(product) => match insert_time.checked_add(product) {
                    None => false,
                    Some(due) => !(due < now) || recipe.times < u64::MAX,
                },
            }
        },
        Some(Triger::Schedule(_, timestamp)) => !(*timestamp < now) || recipe.times < u64::MAX,
        _ => true,
    }
}

/// The recipe to mark done once the task runner has answered a publication:
/// the plan's `mark_done` when the runner accepted it, none otherwise.
pub fn recipe_to_mark_done(mark_done: Option<u64>, published: Result<u64, HttpError>) -> (r: Option<u64>)
    ensures
        r == (if published is Ok { mark_done } else { None::<u64> }),
{
    match published {
        Ok(_) => mark_done,
        Err(_) => None,
    }
}

/// What running a fired recipe's action amounts to.
#[derive(Debug)]
pub enum ActionPlan {
    /// Nothing to do.
    Nothing,
    /// Publish `options` for the image `dockr_url` to the task runner, to be run
    /// at most `max_run_num` times; once the runner accepts, submit
    /// `set_recipe_done_unsigned` for `mark_done` when it names a recipe.
    Publish { dockr_url: Vec<u8>, options: Vec<u8>, max_run_num: u64, mark_done: Option<u64> },
    /// Submit `buy_token_unsigned` on behalf of `buyer`.
    BuyToken { recipe_id: u64, buyer: u64, sell_token_name: Vec<u8>, sell_amount: u64, buy_token_name: Vec<u8> },
}

/// The contents of an [`ActionPlan`].
pub enum PlanView {
    Nothing,
    Publish { dockr_url: Seq<u8>, options: Seq<u8>, max_run_num: u64, mark_done: Option<u64> },
    BuyToken { recipe_id: u64, buyer: u64, sell_token_name: Seq<u8>, sell_amount: u64, buy_token_name: Seq<u8> },
}

impl View for ActionPlan {
    type V = PlanView;

    open spec fn view(&self) -> PlanView {
        match self {
            ActionPlan::Nothing => PlanView::Nothing,
            ActionPlan::Publish { dockr_url, options, max_run_num, mark_done } => PlanView::Publish {
                dockr_url: dockr_url@,
                options: options@,
                max_run_num: *max_run_num,
                mark_done: *mark_done,
            },
            ActionPlan::BuyToken { recipe_id, buyer, sell_token_name, sell_amount, buy_token_name } => PlanView::BuyToken {
                recipe_id: *recipe_id,
                buyer: *buyer,
                sell_token_name: sell_token_name@,
                sell_amount: *sell_amount,
                buy_token_name: buy_token_name@,
            },
        }
    }
}

/// The options of a mail task.
pub open spec fn mail_options(url: Seq<u8>, token: Seq<u8>, revicer: Seq<u8>, title: Seq<u8>, body: Seq<u8>) -> Seq<u8> {
    ascii_bytes("/email --url="@) + url + ascii_bytes(" --token="@) + token + ascii_bytes(" --revicer="@) + revicer
        + ascii_bytes(" --title="@) + title + ascii_bytes(" --body="@) + body
}

/// The options of an oracle task.
pub open spec fn oracle_options(token_name: Seq<u8>, source_url: Seq<u8>) -> Seq<u8> {
    ascii_bytes("oracle_price --token_name="@) + token_name + ascii_bytes(" --source_url="@) + source_url
        + ascii_bytes(" --delay=45"@)
}

/// The options of a Slack task.
pub open spec fn slack_options(url: Seq<u8>, message: Seq<u8>) -> Seq<u8> {
    ascii_bytes("node index.js --url="@) + url + ascii_bytes(" --message="@) + message
}

/// What running the action of fired recipe `recipe_id` (in state `r`) amounts
/// to. An action whose texts are not all UTF-8 is skipped.
pub open spec fn spec_plan(recipe_id: u64, r: RecipeView, action: Option<ActionView>) -> PlanView {
    match action {
        Some(ActionView::MailWithToken(url, token, revicer, title, body)) =>
            if valid_utf8(url) && valid_utf8(token) && valid_utf8(revicer) && valid_utf8(title) && valid_utf8(body) {
                PlanView::Publish {
                    dockr_url: ascii_bytes("registry.cn-shenzhen.aliyuncs.com/difttt/email:latest"@),
                    options: mail_options(url, token, revicer, title, body),
                    max_run_num: 3,
                    mark_done: Some(recipe_id),
                }
            } else {
                PlanView::Nothing
            },
        Some(ActionView::Oracle(token_name, source_url)) => if valid_utf8(token_name) && valid_utf8(source_url) {
            PlanView::Publish {
                dockr_url: ascii_bytes("registry.cn-shenzhen.aliyuncs.com/difttt/oracle_price:latest"@),
                options: oracle_options(token_name, source_url),
                max_run_num: 3,
                mark_done: Some(recipe_id),
            }
        } else {
            PlanView::Nothing
        },
        Some(ActionView::BuyToken(buyer, sell, amount, buy, _)) => if valid_utf8(sell) && valid_utf8(buy) {
            PlanView::BuyToken { recipe_id, buyer, sell_token_name: sell, sell_amount: amount, buy_token_name: buy }
        } else {
            PlanView::Nothing
        },
        Some(ActionView::Slack(url, message)) => if valid_utf8(url) && valid_utf8(message) {
            PlanView::Publish {
                dockr_url: ascii_bytes("registry.cn-shenzhen.aliyuncs.com/difttt/slack-notify:latest"@),
                options: slack_options(url, message),
                max_run_num: 3,
                mark_done: if r.times >= r.max_times { Some(recipe_id) } else { None },
            }
        } else {
            PlanView::Nothing
        },
        _ => PlanView::Nothing,
    }
}

impl Pallet {
    /// What running the action of fired recipe `recipe_id` amounts to.
    pub fn plan_action(&self, recipe_id: u64, recipe: &Recipe) -> (plan: ActionPlan)
        ensures
            plan@ == spec_plan(recipe_id, recipe@, self@.actions.get(recipe.action_id)),
            plan@ matches PlanView::Publish { dockr_url, options, .. } ==> dockr_url.len() <= 1024 && options.len() <= 2048,
    {
        let action = self.map_action.get(&recipe.action_id);
        proof {
            assert(match action { Some(a) => Some(a@), None => None::<ActionView> } == self@.actions.get(recipe.action_id));
        }
        match action {
            Some(Action::MailWithToken(url, token, revicer, title, body)) => {
                if !(is_utf8(url.as_slice()) && is_utf8(token.as_slice()) && is_utf8(revicer.as_slice())
                    && is_utf8(title.as_slice()) && is_utf8(body.as_slice())) {
                    return ActionPlan::Nothing;
                }
                proof {
                    reveal_strlit("registry.cn-shenzhen.aliyuncs.com/difttt/email:latest");
                    reveal_strlit("/email --url=");
                    reveal_strlit(" --token=");
                    reveal_strlit(" --revicer=");
                    reveal_strlit(" --title=");
                    reveal_strlit(" --body=");
                    use_type_invariant(url);
                    use_type_invariant(token);
                    use_type_invariant(revicer);
                    use_type_invariant(title);
                    use_type_invariant(body);
                }
                let mut options: Vec<u8> = Vec::new();
                append_ascii(&mut options, "/email --url=");
                append_bytes(&mut options, url.as_slice());
                append_ascii(&mut options, " --token=");
                append_bytes(&mut options, token.as_slice());
                append_ascii(&mut options, " --revicer=");
                append_bytes(&mut options, revicer.as_slice());
                append_ascii(&mut options, " --title=");
                append_bytes(&mut options, title.as_slice());
                append_ascii(&mut options, " --body=");
                append_bytes(&mut options, body.as_slice());
                assert(options@ =~= mail_options(url@, token@, revicer@, title@, body@));
                ActionPlan::Publish {
                    dockr_url: ascii_vec("registry.cn-shenzhen.aliyuncs.com/difttt/email:latest"),
                    options,
                    max_run_num: 3,
                    mark_done: Some(recipe_id),
                }
            },
            Some(Action::Oracle(token_name, source_url)) => {
                if !(is_utf8(token_name.as_slice()) && is_utf8(source_url.as_slice())) {
                    return ActionPlan::Nothing;
                }
                proof {
                    reveal_strlit("registry.cn-shenzhen.aliyuncs.com/difttt/oracle_price:latest");
                    reveal_strlit("oracle_price --token_name=");
                    reveal_strlit(" --source_url=");
                    reveal_strlit(" --delay=45");
                    use_type_invariant(token_name);
                    use_type_invariant(source_url);
                }
                let mut options: Vec<u8> = Vec::new();
                append_ascii(&mut options, "oracle_price --token_name=");
                append_bytes(&mut options, token_name.as_slice());
                append_ascii(&mut options, " --source_url=");
                append_bytes(&mut options, source_url.as_slice());
                append_ascii(&mut options, " --delay=45");
                assert(options@ =~= oracle_options(token_name@, source_url@));
                ActionPlan::Publish {
                    dockr_url: ascii_vec("registry.cn-shenzhen.aliyuncs.com/difttt/oracle_price:latest"),
                    options,
                    max_run_num: 3,
                    mark_done: Some(recipe_id),
                }
            },
            Some(Action::BuyToken(buyer, sell, amount, buy, _)) => {
                if !(is_utf8(sell.as_slice()) && is_utf8(buy.as_slice())) {
                    return ActionPlan::Nothing;
                }
                ActionPlan::BuyToken {
                    recipe_id,
                    buyer: *buyer,
                    sell_token_name: sell.to_vec(),
                    sell_amount: *amount,
                    buy_token_name: buy.to_vec(),
                }
            },
            Some(Action::Slack(url, message)) => {
                if !(is_utf8(url.as_slice()) && is_utf8(message.as_slice())) {
                    return ActionPlan::Nothing;
                }
                proof {
                    reveal_strlit("registry.cn-shenzhen.aliyuncs.com/difttt/slack-notify:latest");
                    reveal_strlit("node index.js --url=");
                    reveal_strlit(" --message=");
                    use_type_invariant(url);
                    use_type_invariant(message);
                }
                let mut options: Vec<u8> = Vec::new();
                append_ascii(&mut options, "node index.js --url=");
                append_bytes(&mut options, url.as_slice());
                append_ascii(&mut options, " --message=");
                append_bytes(&mut options, message.as_slice());
                assert(options@ =~= slack_options(url@, message@));
                ActionPlan::Publish {
                    dockr_url: ascii_vec("registry.cn-shenzhen.aliyuncs.com/difttt/slack-notify:latest"),
                    options,
                    max_run_num: 3,
                    mark_done: if recipe.times >= recipe.max_times { Some(recipe_id) } else { None },
                }
            },
            _ => ActionPlan::Nothing,
        }
    }
}

} // verus!
