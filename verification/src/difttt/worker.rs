//! A whole run of the off-chain worker's triger checks, with the outside work
//! handed to a host.
use std::collections::BTreeMap;
use vstd::prelude::*;

use super::laws::{
    law_checks_come_to_an_end, law_resume_keeps_the_recipe, law_start_keeps_the_recipe,
    law_started_check_asks_while_unfinished, round_keeps, stage_rank,
};
use super::offchain::{
    can_start_triger_check, request_view, resume_defined, spec_resume, spec_start, spec_synced, start_defined,
    tasks_view, CheckReply, CheckRequest, CheckStage, CheckView, ReplyView, RequestView,
};
use super::pallet::{Pallet, PalletView};
use super::{Recipe, RecipeView};

verus! {

/// The requests a host has performed, oldest first.
pub type CheckLog = Seq<RequestView>;

/// What the worker needs of the outside world while it checks trigers: it
/// performs a request (a fetch, a submission, a lock) and hands back the reply.
/// The host is described by the requests it has performed; what it replies,
/// and the state it is left in, depend on its state and the request alone (its
/// state stands for everything outside that the replies depend on).
pub trait CheckHost: Sized {
    /// The requests performed so far, oldest first.
    spec fn requests(&self) -> CheckLog;

    /// The reply to `request`.
    spec fn answer(&self, request: RequestView) -> ReplyView;

    /// The state after performing `request`.
    spec fn after(&self, request: RequestView) -> Self;

    fn perform(&mut self, request: CheckRequest) -> (reply: CheckReply)
        ensures
            reply@ == old(self).answer(request@),
            *final(self) == old(self).after(request@),
            final(self).requests() == old(self).requests().push(request@),
    ;
}

/// What a run may do to a tracked recipe: its triger, action and enable flag
/// stay, and its run count goes up by at most one.
pub open spec fn keeps_recipe(before: RecipeView, after: RecipeView) -> bool {
    &&& after.triger_id == before.triger_id
    &&& after.action_id == before.action_id
    &&& after.enable == before.enable
    &&& (after.times == before.times || after.times == before.times + 1)
}

/// A check that waits for `request`, carried on against `host` until it ends:
/// the check as it ends, the host afterwards, and whether every step stayed
/// within 64 bits (the check stops at the first reply that would overflow).
pub open spec fn spec_check_to_end<H: CheckHost>(
    c: CheckView,
    request: Option<RequestView>,
    host: H,
    now: u64,
    last_event: Seq<u8>,
) -> (CheckView, H, bool)
    decreases stage_rank(c.stage),
{
    match request {
        None => (c, host, true),
        Some(q) => if c.stage == CheckStage::Finished {
            (c, host, true)
        } else {
            let reply = host.answer(q);
            let next_host = host.after(q);
            if !resume_defined(c, reply, now, last_event) {
                (c, next_host, false)
            } else {
                let (next, next_request) = spec_resume(c, reply, now, last_event);
                proof {
                    law_checks_come_to_an_end(c, reply, now, last_event);
                }
                spec_check_to_end(next, next_request, next_host, now, last_event)
            }
        },
    }
}

/// Where a run of the checks stands: the tracked recipes, those whose actions
/// are to run, the remembered OAK event, the host, and the recipe at which the
/// run stopped because its check would overflow, if it did.
pub struct RunState<H> {
    pub tasks: Map<u64, RecipeView>,
    pub running: Map<u64, RecipeView>,
    pub last_event: Seq<u8>,
    pub host: H,
    pub stopped: Option<u64>,
}

/// The run after checking tracked recipe `id`: the check starts (see
/// [`spec_start`]), goes on with the host's replies until it ends, and is
/// recorded; a check whose arithmetic would overflow stops the run.
pub open spec fn spec_run_recipe<H: CheckHost>(p: PalletView, st: RunState<H>, id: u64, now: u64) -> RunState<H> {
    let r = st.tasks[id];
    let triger = p.trigers.get(r.triger_id);
    let action = p.actions.get(r.action_id);
    if !start_defined(r, triger, now) {
        RunState { stopped: Some(id), ..st }
    } else {
        let (c0, q0) = spec_start(id, r, triger, action, now);
        let (c, host, defined) = spec_check_to_end(c0, q0, st.host, now, st.last_event);
        if !defined {
            RunState { host, stopped: Some(id), ..st }
        } else {
            RunState {
                tasks: st.tasks.insert(id, c.recipe),
                running: match c.fired {
                    Some(f) => st.running.insert(id, f),
                    None => st.running,
                },
                last_event: if c.adopt_event && c.seen_event is Some {
                    c.seen_event.unwrap()
                } else {
                    st.last_event
                },
                host,
                stopped: None,
            }
        }
    }
}

/// The run after checking the tracked recipes `ids` in turn, until one stops it.
pub open spec fn spec_run_all<H: CheckHost>(p: PalletView, ids: Seq<u64>, st: RunState<H>, now: u64) -> RunState<H>
    decreases ids.len(),
{
    if ids.len() == 0 || st.stopped is Some {
        st
    } else {
        spec_run_all(p, ids.drop_first(), spec_run_recipe(p, st, ids[0], now), now)
    }
}

/// `ids` lists the keys of `tasks` in increasing order.
pub open spec fn ascending_keys(ids: Seq<u64>, tasks: Map<u64, RecipeView>) -> bool {
    &&& forall|i: int, j: int| 0 <= i < j < ids.len() ==> ids[i] < ids[j]
    &&& forall|k: u64| tasks.contains_key(k) <==> ids.contains(k)
}

/// The start of a run over `tasks`.
pub open spec fn run_start<H: CheckHost>(tasks: Map<u64, RecipeView>, last_event: Seq<u8>, host: H) -> RunState<H> {
    RunState { tasks, running: Map::empty(), last_event, host, stopped: None }
}

/// How the check of tracked recipe `k` of `tasks` starts.
pub open spec fn started(p: PalletView, tasks: Map<u64, RecipeView>, k: u64, now: u64) -> CheckView {
    spec_start(k, tasks[k], p.trigers.get(tasks[k].triger_id), p.actions.get(tasks[k].action_id), now).0
}

/// Every check of a tracked recipe is decided at its start (timers, schedules,
/// trigers that are missing or do nothing) and stays within 64 bits.
pub open spec fn decided_at_start(p: PalletView, tasks: Map<u64, RecipeView>, now: u64) -> bool {
    forall|k: u64| #[trigger] tasks.contains_key(k) ==> {
        let triger = p.trigers.get(tasks[k].triger_id);
        &&& start_defined(tasks[k], triger, now)
        &&& spec_start(k, tasks[k], triger, p.actions.get(tasks[k].action_id), now).1 is None
    }
}

proof fn lemma_run_without_requests<H: CheckHost>(
    p: PalletView,
    ids: Seq<u64>,
    tasks: Map<u64, RecipeView>,
    st: RunState<H>,
    now: u64,
)
    requires
        st.stopped is None,
        decided_at_start(p, tasks, now),
        ids.no_duplicates(),
        forall|j: int| 0 <= j < ids.len() ==> tasks.contains_key(#[trigger] ids[j]),
        forall|j: int| 0 <= j < ids.len() ==> st.tasks.contains_key(#[trigger] ids[j]) && st.tasks[ids[j]]
            == tasks[ids[j]] && !st.running.contains_key(ids[j]),
    ensures
        ({
            let end = spec_run_all(p, ids, st, now);
            &&& end.stopped is None
            &&& end.host == st.host
            &&& end.last_event == st.last_event
            &&& end.tasks.dom() == st.tasks.dom()
            &&& forall|k: u64| #[trigger] end.tasks.contains_key(k) ==> end.tasks[k] == (if ids.contains(k) {
                started(p, tasks, k, now).recipe
            } else {
                st.tasks[k]
            })
            &&& forall|k: u64| #[trigger] end.running.contains_key(k) == (if ids.contains(k) {
                started(p, tasks, k, now).fired is Some
            } else {
                st.running.contains_key(k)
            })
            &&& forall|k: u64| #[trigger] end.running.contains_key(k) ==> end.running[k] == (if ids.contains(k) {
                started(p, tasks, k, now).fired.unwrap()
            } else {
                st.running[k]
            })
        }),
    decreases ids.len(),
{
    if ids.len() > 0 {
        let id = ids[0];
        assert(tasks.contains_key(id));
        let c = started(p, tasks, id, now);
        let next = spec_run_recipe(p, st, id, now);
        assert(next.tasks == st.tasks.insert(id, c.recipe));
        let rest = ids.drop_first();
        assert forall|j: int| 0 <= j < rest.len() implies next.tasks.contains_key(#[trigger] rest[j]) && next.tasks[rest[j]]
            == tasks[rest[j]] && !next.running.contains_key(rest[j]) by {
            assert(rest[j] == ids[j + 1]);
            assert(ids[j + 1] != ids[0]);
        }
        assert forall|j: int| 0 <= j < rest.len() implies tasks.contains_key(#[trigger] rest[j]) by {
            assert(rest[j] == ids[j + 1]);
        }
        lemma_run_without_requests(p, rest, tasks, next, now);
        assert forall|k: u64| ids.contains(k) == (k == id || rest.contains(k)) by {
            if ids.contains(k) && k != id {
                let j = choose|j: int| 0 <= j < ids.len() && ids[j] == k;
                assert(rest[j - 1] == k);
            }
            if rest.contains(k) {
                let j = choose|j: int| 0 <= j < rest.len() && rest[j] == k;
                assert(ids[j + 1] == k);
            }
        }
        assert(!rest.contains(id)) by {
            if rest.contains(id) {
                let j = choose|j: int| 0 <= j < rest.len() && rest[j] == id;
                assert(ids[j + 1] == ids[0]);
            }
        }
    }
}

/// When every check of a run is decided at its start, the run asks nothing of
/// the host and succeeds: each tracked recipe ends as its check started, and its
/// action is to run exactly when that check fired.
pub proof fn law_run_without_requests<H: CheckHost>(
    p: PalletView,
    ids: Seq<u64>,
    tasks: Map<u64, RecipeView>,
    last_event: Seq<u8>,
    host: H,
    now: u64,
)
    requires
        ascending_keys(ids, tasks),
        decided_at_start(p, tasks, now),
    ensures
        ({
            let end = spec_run_all(p, ids, run_start(tasks, last_event, host), now);
            &&& end.stopped is None
            &&& end.host == host
            &&& end.last_event == last_event
            &&& end.tasks == Map::new(|k: u64| tasks.contains_key(k), |k: u64| started(p, tasks, k, now).recipe)
            &&& end.running.dom() == Set::new(|k: u64| tasks.contains_key(k) && started(p, tasks, k, now).fired is Some)
            &&& forall|k: u64| #[trigger] end.running.contains_key(k) ==> end.running[k] == started(p, tasks, k, now).fired.unwrap()
        }),
{
    let st = run_start(tasks, last_event, host);
    assert(ids.no_duplicates()) by {
        assert forall|i: int, j: int| 0 <= i < ids.len() && 0 <= j < ids.len() && i != j implies ids[i] != ids[j] by {
            if i < j {
                assert(ids[i] < ids[j]);
            } else {
                assert(ids[j] < ids[i]);
            }
        }
    }
    assert forall|j: int| 0 <= j < ids.len() implies tasks.contains_key(#[trigger] ids[j]) by {
        assert(ids.contains(ids[j]));
    }
    lemma_run_without_requests(p, ids, tasks, st, now);
    let end = spec_run_all(p, ids, st, now);
    assert(end.tasks =~= Map::new(|k: u64| tasks.contains_key(k), |k: u64| started(p, tasks, k, now).recipe));
    assert(end.running.dom() =~= Set::new(|k: u64| tasks.contains_key(k) && started(p, tasks, k, now).fired is Some));
}

proof fn lemma_ascending(s: Seq<u64>)
    requires
        vstd::std_specs::btree::increasing_seq(s),
    ensures
        forall|i: int, j: int| 0 <= i < j < s.len() ==> s[i] < s[j],
{
    broadcast use vstd::std_specs::btree::axiom_increasing_seq_meaning;

    assert forall|i: int, j: int| 0 <= i < j < s.len() implies s[i] < s[j] by {
        assert(vstd::std_specs::cmp::OrdSpec::cmp_spec(&s[i], &s[j]) is Less);
    }
}

impl Pallet {
    /// Checks the tracked recipes `ids` in turn (see [`spec_run_all`]).
    #[verifier::loop_isolation(false)]
    fn check_in_order<H: CheckHost>(
        &self,
        host: &mut H,
        tasks: &mut BTreeMap<u64, Recipe>,
        last_event_id: &mut Vec<u8>,
        now: u64,
        ids: &Vec<u64>,
    ) -> (r: Result<BTreeMap<u64, Recipe>, u64>)
        requires
            forall|a: int, b: int| 0 <= a < b < ids@.len() ==> ids@[a] != ids@[b],
            forall|j: int| 0 <= j < ids@.len() ==> tasks_view(*old(tasks)).contains_key(#[trigger] ids@[j]),
        ensures
            ({
                let end = spec_run_all(self@, ids@, run_start(tasks_view(*old(tasks)), old(last_event_id)@, *old(host)), now);
                &&& tasks_view(*final(tasks)) == end.tasks
                &&& final(last_event_id)@ == end.last_event
                &&& *final(host) == end.host
                &&& match end.stopped {
                    None => r matches Ok(running) && tasks_view(running) == end.running,
                    Some(id) => r == Err::<BTreeMap<u64, Recipe>, u64>(id),
                }
            }),
            tasks_view(*final(tasks)).dom() == tasks_view(*old(tasks)).dom(),
            forall|k: u64| #[trigger] tasks_view(*old(tasks)).contains_key(k) ==> keeps_recipe(
                tasks_view(*old(tasks))[k],
                tasks_view(*final(tasks))[k],
            ),
            r matches Ok(running) ==> {
                &&& forall|k: u64| #[trigger] tasks_view(running).contains_key(k) ==> tasks_view(*old(tasks)).contains_key(k)
                &&& forall|k: u64| #[trigger] tasks_view(*old(tasks)).contains_key(k) ==> (tasks_view(running).contains_key(k)
                    <==> tasks_view(*final(tasks))[k].times == tasks_view(*old(tasks))[k].times + 1)
            },
    {
        let ghost start = tasks_view(*tasks);
        let ghost p = self@;
        let ghost init = run_start(start, last_event_id@, *host);
        let mut running: BTreeMap<u64, Recipe> = BTreeMap::new();
        let mut i: usize = 0;
        assert(ids@.skip(0) =~= ids@);
        assert(tasks_view(running) =~= Map::<u64, RecipeView>::empty());
        while i < ids.len()
            invariant
                i <= ids@.len(),
                p == self@,
                forall|a: int, b: int| 0 <= a < b < ids@.len() ==> ids@[a] != ids@[b],
                forall|j: int| 0 <= j < ids@.len() ==> start.contains_key(#[trigger] ids@[j]),
                spec_run_all(p, ids@, init, now) == spec_run_all(p, ids@.skip(i as int), RunState {
                    tasks: tasks_view(*tasks),
                    running: tasks_view(running),
                    last_event: last_event_id@,
                    host: *host,
                    stopped: None,
                }, now),
                tasks_view(*tasks).dom() == start.dom(),
                forall|k: u64| #[trigger] start.contains_key(k) ==> keeps_recipe(start[k], tasks_view(*tasks)[k]),
                forall|k: u64| #[trigger] start.contains_key(k) ==> (tasks_view(running).contains_key(k)
                    <==> tasks_view(*tasks)[k].times == start[k].times + 1),
                forall|k: u64| #[trigger] tasks_view(running).contains_key(k) ==> start.contains_key(k),
                forall|j: int| i <= j < ids@.len() ==> tasks_view(*tasks)[#[trigger] ids@[j]] == start[ids@[j]]
                    && !tasks_view(running).contains_key(ids@[j]),
            decreases ids@.len() - i,
        {
            let id = ids[i];
            let ghost r0 = start[id];
            let ghost cur = RunState {
                tasks: tasks_view(*tasks),
                running: tasks_view(running),
                last_event: last_event_id@,
                host: *host,
                stopped: None,
            };
            proof {
                assert(ids@.skip(i as int)[0] == id);
                assert(ids@.skip(i as int).drop_first() =~= ids@.skip(i + 1));
                assert(spec_run_all(p, ids@.skip(i as int), cur, now) == spec_run_all(
                    p,
                    ids@.skip(i + 1),
                    spec_run_recipe(p, cur, id, now),
                    now,
                ));
            }
            assert(tasks_view(*tasks).contains_key(id));
            assert(tasks@.contains_key(id));
            if !can_start_triger_check(self, tasks, id, now) {
                return Err(id);
            }
            let (mut check, mut request) = self.start_triger_check(tasks, id, now);
            let ghost c0 = check@;
            let ghost q0 = request_view(request);
            let ghost h0 = *host;
            proof {
                let r = tasks@[id]@;
                assert(r == r0);
                let triger = self@.trigers.get(tasks@[id].triger_id);
                let action = self@.actions.get(tasks@[id].action_id);
                law_start_keeps_the_recipe(id, r, triger, action, now);
                law_started_check_asks_while_unfinished(id, r, triger, action, now);
            }
            loop
                invariant
                    round_keeps(check@, r0),
                    check@.recipe_id == id,
                    request is Some <==> check@.stage != CheckStage::Finished,
                    spec_check_to_end(c0, q0, h0, now, last_event_id@) == spec_check_to_end(
                        check@,
                        request_view(request),
                        *host,
                        now,
                        last_event_id@,
                    ),
                decreases stage_rank(check@.stage),
            {
                let next = match request {
                    Some(q) => q,
                    None => break,
                };
                let ghost h = *host;
                let ghost before = check@;
                let ghost q = next@;
                let reply = host.perform(next);
                if !check.can_resume(&reply, now, last_event_id.as_slice()) {
                    return Err(id);
                }
                let ghost reply_view = reply@;
                request = check.resume(reply, now, last_event_id.as_slice());
                proof {
                    law_resume_keeps_the_recipe(before, r0, reply_view, now, last_event_id@);
                    law_checks_come_to_an_end(before, reply_view, now, last_event_id@);
                }
            }
            let ghost done = check@;
            let ghost pre_tasks = tasks_view(*tasks);
            let ghost pre_running = tasks_view(running);
            check.settle(tasks, &mut running, last_event_id);
            proof {
                assert(tasks_view(*tasks) == pre_tasks.insert(id, done.recipe));
                assert(!pre_running.contains_key(id));
                if done.fired is Some {
                    assert(tasks_view(running) == pre_running.insert(id, done.fired.unwrap()));
                } else {
                    assert(tasks_view(running) == pre_running);
                }
                assert forall|k: u64| #[trigger] start.contains_key(k) implies (tasks_view(running).contains_key(k)
                    <==> tasks_view(*tasks)[k].times == start[k].times + 1) by {
                    if k != id {
                        assert(tasks_view(*tasks)[k] == pre_tasks[k]);
                    }
                }
                assert forall|j: int| i + 1 <= j < ids@.len() implies tasks_view(*tasks)[#[trigger] ids@[j]]
                    == start[ids@[j]] && !tasks_view(running).contains_key(ids@[j]) by {
                    assert(ids@[j] != ids@[i as int]);
                }
            }
            i = i + 1;
        }
        assert(ids@.skip(i as int).len() == 0);
        Ok(running)
    }

    /// Checks the triger of every tracked recipe at time `now`, in increasing
    /// order of recipe id, performing the requests of each check through `host`,
    /// and records each outcome; gives the recipes whose actions are to run (see
    /// [`spec_run_all`]). Stops with `Err(recipe_id)` at a check whose arithmetic
    /// would overflow; the recipes checked before it stay recorded.
    pub fn run_checks<H: CheckHost>(
        &self,
        host: &mut H,
        tasks: &mut BTreeMap<u64, Recipe>,
        last_event_id: &mut Vec<u8>,
        now: u64,
    ) -> (r: Result<BTreeMap<u64, Recipe>, u64>)
        ensures
            exists|ids: Seq<u64>| #[trigger] ascending_keys(ids, tasks_view(*old(tasks))) && {
                let end = spec_run_all(
                    self@,
                    ids,
                    run_start(tasks_view(*old(tasks)), old(last_event_id)@, *old(host)),
                    now,
                );
                &&& tasks_view(*final(tasks)) == end.tasks
                &&& final(last_event_id)@ == end.last_event
                &&& *final(host) == end.host
                &&& match end.stopped {
                    None => r matches Ok(running) && tasks_view(running) == end.running,
                    Some(id) => r == Err::<BTreeMap<u64, Recipe>, u64>(id),
                }
            },
            tasks_view(*final(tasks)).dom() == tasks_view(*old(tasks)).dom(),
            forall|k: u64| #[trigger] tasks_view(*old(tasks)).contains_key(k) ==> keeps_recipe(
                tasks_view(*old(tasks))[k],
                tasks_view(*final(tasks))[k],
            ),
            r matches Ok(running) ==> {
                &&& forall|k: u64| #[trigger] tasks_view(running).contains_key(k) ==> tasks_view(*old(tasks)).contains_key(k)
                &&& forall|k: u64| #[trigger] tasks_view(*old(tasks)).contains_key(k) ==> (tasks_view(running).contains_key(k)
                    <==> tasks_view(*final(tasks))[k].times == tasks_view(*old(tasks))[k].times + 1)
            },
            decided_at_start(self@, tasks_view(*old(tasks)), now) ==> {
                &&& *final(host) == *old(host)
                &&& final(last_event_id)@ == old(last_event_id)@
                &&& tasks_view(*final(tasks)) == Map::new(
                    |k: u64| tasks_view(*old(tasks)).contains_key(k),
                    |k: u64| started(self@, tasks_view(*old(tasks)), k, now).recipe,
                )
                &&& r matches Ok(running) && tasks_view(running).dom() == Set::new(
                    |k: u64| tasks_view(*old(tasks)).contains_key(k) && started(self@, tasks_view(*old(tasks)), k, now).fired is Some,
                )
            },
    {
        let ghost start = tasks_view(*tasks);
        let mut ids: Vec<u64> = Vec::new();
        for entry in it: tasks.iter()
            invariant
                ids@.len() == it.index(),
                forall|j: int| 0 <= j < it.index() ==> ids@[j] == *it.seq()[j].0,
                forall|a: int, b: int| 0 <= a < b < ids@.len() ==> ids@[a] != ids@[b],
                forall|j: int| 0 <= j < ids@.len() ==> start.contains_key(#[trigger] ids@[j]),
                start == tasks_view(*tasks),
                it.seq().no_duplicates(),
                vstd::std_specs::btree::increasing_seq(it.seq().map_values(|kv: (&u64, &Recipe)| *kv.0)),
                forall|j: int| 0 <= j < it.seq().len() ==> tasks@.contains_key(*#[trigger] it.seq()[j].0)
                    && tasks@[*it.seq()[j].0] == *it.seq()[j].1,
                forall|k: u64| #[trigger] tasks@.contains_key(k) ==> exists|j: int| 0 <= j < it.seq().len() && *it.seq()[j].0 == k,
                forall|a: int, b: int| 0 <= a < b < ids@.len() ==> ids@[a] < ids@[b],
                forall|k: u64| #[trigger] tasks@.contains_key(k) ==> (ids@.contains(k) || exists|j: int| it.index() <= j < it.seq().len() && *it.seq()[j].0 == k),
        {
            let ghost n = it.index() as int;
            assert(entry == it.seq()[n]);
            assert forall|a: int| 0 <= a < n implies ids@[a] != *entry.0 by {
                if ids@[a] == *entry.0 {
                    assert(it.seq()[a] == it.seq()[n]);
                }
            }
            proof {
                let keys = it.seq().map_values(|kv: (&u64, &Recipe)| *kv.0);
                lemma_ascending(keys);
                assert forall|a: int| 0 <= a < n implies ids@[a] < *entry.0 by {
                    assert(keys[a] < keys[n]);
                }
            }
            let ghost old_ids = ids@;
            ids.push(*entry.0);
            proof {
                assert forall|k: u64| #[trigger] tasks@.contains_key(k) implies (ids@.contains(k) || exists|j: int|
                    n + 1 <= j < it.seq().len() && *it.seq()[j].0 == k) by {
                    if old_ids.contains(k) {
                        let a = choose|a: int| 0 <= a < old_ids.len() && old_ids[a] == k;
                        assert(ids@[a] == k);
                    } else {
                        let j = choose|j: int| n <= j < it.seq().len() && *it.seq()[j].0 == k;
                        if j == n {
                            assert(ids@[n] == k);
                        }
                    }
                }
            }
        }
        proof {
            assert forall|k: u64| start.contains_key(k) <==> ids@.contains(k) by {
                if ids@.contains(k) {
                    let j = choose|j: int| 0 <= j < ids@.len() && ids@[j] == k;
                }
            }
            assert(ascending_keys(ids@, start));
        }
        let ghost host0 = *host;
        let ghost last0 = last_event_id@;
        let r = self.check_in_order(host, tasks, last_event_id, now, &ids);
        proof {
            if decided_at_start(self@, start, now) {
                law_run_without_requests(self@, ids@, start, last0, host0, now);
            }
        }
        r
    }

    /// One run of the worker's checks at time `now`: the tracked recipes are
    /// brought in line with the stored ones, then checked with [`Self::run_checks`].
    /// Every recipe tracked before and after the run keeps its triger, action and
    /// enable flag, its run count goes up by at most one, and its action is to
    /// run exactly when the count went up.
    pub fn run_worker<H: CheckHost>(
        &self,
        host: &mut H,
        tasks: &mut BTreeMap<u64, Recipe>,
        last_event_id: &mut Vec<u8>,
        now: u64,
    ) -> (r: Result<BTreeMap<u64, Recipe>, u64>)
        ensures
            exists|ids: Seq<u64>| #[trigger] ascending_keys(ids, spec_synced(tasks_view(*old(tasks)), self@.recipes)) && {
                let end = spec_run_all(
                    self@,
                    ids,
                    run_start(spec_synced(tasks_view(*old(tasks)), self@.recipes), old(last_event_id)@, *old(host)),
                    now,
                );
                &&& tasks_view(*final(tasks)) == end.tasks
                &&& final(last_event_id)@ == end.last_event
                &&& *final(host) == end.host
                &&& match end.stopped {
                    None => r matches Ok(running) && tasks_view(running) == end.running,
                    Some(id) => r == Err::<BTreeMap<u64, Recipe>, u64>(id),
                }
            },
            decided_at_start(self@, spec_synced(tasks_view(*old(tasks)), self@.recipes), now) ==> {
                &&& *final(host) == *old(host)
                &&& final(last_event_id)@ == old(last_event_id)@
                &&& tasks_view(*final(tasks)) == Map::new(
                    |k: u64| spec_synced(tasks_view(*old(tasks)), self@.recipes).contains_key(k),
                    |k: u64| started(self@, spec_synced(tasks_view(*old(tasks)), self@.recipes), k, now).recipe,
                )
                &&& r matches Ok(running) && tasks_view(running).dom() == Set::new(
                    |k: u64| spec_synced(tasks_view(*old(tasks)), self@.recipes).contains_key(k) && started(self@, spec_synced(tasks_view(*old(tasks)), self@.recipes), k, now).fired is Some,
                )
            },
            tasks_view(*final(tasks)).dom() == spec_synced(tasks_view(*old(tasks)), self@.recipes).dom(),
            forall|k: u64| tasks_view(*old(tasks)).contains_key(k) && #[trigger] tasks_view(*final(tasks)).contains_key(k)
                ==> keeps_recipe(tasks_view(*old(tasks))[k], tasks_view(*final(tasks))[k]),
            r matches Ok(running) ==> forall|k: u64| tasks_view(*old(tasks)).contains_key(k)
                && #[trigger] tasks_view(*final(tasks)).contains_key(k) ==> (tasks_view(running).contains_key(k)
                <==> tasks_view(*final(tasks))[k].times == tasks_view(*old(tasks))[k].times + 1),
    {
        let ghost before = tasks_view(*tasks);
        self.sync_recipe_tasks(tasks);
        let ghost synced = tasks_view(*tasks);
        let r = self.run_checks(host, tasks, last_event_id, now);
        assert forall|k: u64| before.contains_key(k) && #[trigger] synced.contains_key(k) implies synced[k] == before[k] by {}
        r
    }
}

} // verus!
