use std::collections::BTreeMap;

use difttt::bounded::BoundedBytes;
use difttt::difttt::feeds::HttpError;
use difttt::difttt::offchain::{
    can_start_triger_check, recipe_to_mark_done, ActionPlan, CheckReply, CheckRequest, ReplyView, RequestView,
};
use difttt::difttt::pallet::Pallet;
use difttt::difttt::worker::{CheckHost, CheckLog};
use difttt::difttt::{Action, Recipe, Triger};
use difttt::support::Origin;

fn bytes<const N: usize>(v: &[u8]) -> BoundedBytes<N> {
    BoundedBytes::<N>::try_from_vec(v.to_vec()).unwrap()
}

/// A pallet holding one recipe (id 0) of `triger` and `action`, owned by account 1.
fn one_recipe(triger: Triger, action: Action) -> Pallet {
    let mut pallet = Pallet::new();
    pallet.create_triger(Origin::Signed(1), triger).unwrap();
    pallet.create_action(Origin::Signed(1), action).unwrap();
    pallet.create_recipe(Origin::Signed(1), 0, 0).unwrap();
    pallet
}

fn slack(message: &[u8]) -> Action {
    Action::Slack(bytes(b"https://hooks.example/x"), bytes(message))
}

fn watched(pallet: &Pallet) -> BTreeMap<u64, Recipe> {
    let mut tasks = BTreeMap::new();
    pallet.sync_recipe_tasks(&mut tasks);
    tasks
}

#[test]
fn tracking_follows_the_stored_recipes() {
    let mut pallet = one_recipe(Triger::Timer(0, 10), slack(b"m"));
    pallet.create_recipe(Origin::Signed(1), 0, 0).unwrap();
    let mut tasks = watched(&pallet);
    assert_eq!(tasks.len(), 2);
    assert_eq!(tasks[&1].times, 0);
    tasks.get_mut(&1).unwrap().times = 4;
    pallet.turn_off_recipe(Origin::Signed(1), 0).unwrap();
    pallet.sync_recipe_tasks(&mut tasks);
    assert_eq!(tasks.len(), 1);
    // Progress of a recipe that stays tracked is kept.
    assert_eq!(tasks[&1].times, 4);
    pallet.set_recipe_done_unsigned(Origin::Unsigned, 1, 1).unwrap();
    pallet.sync_recipe_tasks(&mut tasks);
    assert!(tasks.is_empty());
}

#[test]
fn timer_fires_once_its_due_time_has_passed() {
    let pallet = one_recipe(Triger::Timer(100, 10), slack(b"m"));
    let mut tasks = watched(&pallet);
    let mut running = BTreeMap::new();
    let mut last = Vec::new();

    let (check, request) = pallet.start_triger_check(&tasks, 0, 100);
    assert!(request.is_none());
    check.settle(&mut tasks, &mut running, &mut last);
    assert!(running.is_empty());
    assert_eq!(tasks[&0].times, 0);

    let (check, request) = pallet.start_triger_check(&tasks, 0, 101);
    assert!(request.is_none());
    check.settle(&mut tasks, &mut running, &mut last);
    assert_eq!(tasks[&0].times, 1);
    assert_eq!(running[&0].times, 1);
    assert!(!tasks[&0].done);
    // The next due time is 110.
    let (check, _) = pallet.start_triger_check(&tasks, 0, 110);
    let mut later = BTreeMap::new();
    check.settle(&mut tasks, &mut later, &mut last);
    assert!(later.is_empty());
}

#[test]
fn schedule_fires_and_is_done() {
    let pallet = one_recipe(Triger::Schedule(0, 500), slack(b"m"));
    let mut tasks = watched(&pallet);
    let mut running = BTreeMap::new();
    let mut last = Vec::new();
    let (check, request) = pallet.start_triger_check(&tasks, 0, 501);
    assert!(request.is_none());
    check.settle(&mut tasks, &mut running, &mut last);
    assert!(tasks[&0].done);
    assert_eq!(tasks[&0].times, 1);
    assert!(running[&0].done);
}

#[test]
fn price_trigers_wait_for_the_price() {
    let pallet = one_recipe(Triger::PriceGT(0, 1_000), slack(b"m"));
    let mut tasks = watched(&pallet);
    let mut running = BTreeMap::new();
    let mut last = Vec::new();
    let (mut check, request) = pallet.start_triger_check(&tasks, 0, 7);
    assert!(matches!(request, Some(CheckRequest::FetchPrice)));
    assert!(check.can_resume(&CheckReply::Price(Ok(1_000)), 7, &last));
    assert!(check.resume(CheckReply::Price(Ok(1_000)), 7, &last).is_none());
    check.settle(&mut tasks, &mut running, &mut last);
    assert!(running.is_empty());

    let (mut check, _) = pallet.start_triger_check(&tasks, 0, 7);
    assert!(check.resume(CheckReply::Price(Ok(1_001)), 7, &last).is_none());
    check.settle(&mut tasks, &mut running, &mut last);
    assert!(running[&0].done);
    assert_eq!(tasks[&0].times, 1);

    let pallet = one_recipe(Triger::PriceLT(0, 1_000), slack(b"m"));
    let mut tasks = watched(&pallet);
    let mut running = BTreeMap::new();
    let (mut check, _) = pallet.start_triger_check(&tasks, 0, 7);
    assert!(check.resume(CheckReply::Price(Err(HttpError::DeadlineReached)), 7, &last).is_none());
    check.settle(&mut tasks, &mut running, &mut last);
    assert!(running.is_empty());
    let (mut check, _) = pallet.start_triger_check(&tasks, 0, 7);
    check.resume(CheckReply::Price(Ok(999)), 7, &last);
    check.settle(&mut tasks, &mut running, &mut last);
    assert_eq!(running.len(), 1);
}

#[test]
fn arh999_triger_records_the_time_it_looked() {
    let pallet = one_recipe(Triger::Arh999LT(0, 50, 60), slack(b"m"));
    let mut tasks = watched(&pallet);
    let mut running = BTreeMap::new();
    let mut last = Vec::new();
    let (mut check, request) = pallet.start_triger_check(&tasks, 0, 100);
    assert!(matches!(request, Some(CheckRequest::FetchArh999)));
    let next = check.resume(CheckReply::Arh999(Ok(31)), 100, &last);
    assert!(matches!(next, Some(CheckRequest::SubmitTrigerTime { recipe_id: 0, timestamp: 100 })));
    assert!(check.resume(CheckReply::Submitted(false), 100, &last).is_none());
    check.settle(&mut tasks, &mut running, &mut last);
    assert_eq!(tasks[&0].last_triger_timestamp, 100);
    assert_eq!(tasks[&0].times, 1);
    assert!(!tasks[&0].done);
    assert_eq!(running[&0].times, 1);

    // Within the interval nothing is looked at.
    let (mut check, _) = pallet.start_triger_check(&tasks, 0, 150);
    let mut later = BTreeMap::new();
    assert!(check.resume(CheckReply::Arh999(Ok(1)), 150, &last).is_none());
    check.settle(&mut tasks, &mut later, &mut last);
    assert!(later.is_empty());
    assert_eq!(tasks[&0].last_triger_timestamp, 100);

    // After it, a high indicator stamps the time without firing.
    let (mut check, _) = pallet.start_triger_check(&tasks, 0, 200);
    assert!(check.resume(CheckReply::Arh999(Ok(80)), 200, &last).is_some());
    check.resume(CheckReply::Submitted(true), 200, &last);
    check.settle(&mut tasks, &mut later, &mut last);
    assert!(later.is_empty());
    assert_eq!(tasks[&0].last_triger_timestamp, 200);
    assert_eq!(tasks[&0].times, 1);

    // A clock behind the last look cannot be checked.
    let (check, _) = pallet.start_triger_check(&tasks, 0, 150);
    assert!(!check.can_resume(&CheckReply::Arh999(Ok(1)), 150, &last));
}

#[test]
fn oak_timer_goes_through_the_automation_service() {
    let pallet = one_recipe(Triger::OakTimer(0, 60, 4), slack(b"ping"));
    let mut tasks = watched(&pallet);
    let mut running = BTreeMap::new();
    let mut last = b"e0".to_vec();
    let (mut check, request) = pallet.start_triger_check(&tasks, 0, 10);
    match request {
        Some(CheckRequest::CreateOakTask { cycle_seconds: 1, repeat_times: 4, message }) => {
            assert_eq!(message, b"ping".to_vec())
        },
        other => panic!("unexpected request {:?}", other),
    }
    match check.resume(CheckReply::OakTask(Ok(b"0xfeed".to_vec())), 10, &last) {
        Some(CheckRequest::SubmitOakHash { recipe_id: 0, hash }) => assert_eq!(hash, b"0xfeed".to_vec()),
        other => panic!("unexpected request {:?}", other),
    }
    assert!(matches!(check.resume(CheckReply::Submitted(true), 10, &last), Some(CheckRequest::GetLastEvent)));
    assert!(matches!(
        check.resume(CheckReply::LastEvent(Ok(b"e1".to_vec())), 10, &last),
        Some(CheckRequest::LockLastEvent)
    ));
    assert!(check.resume(CheckReply::Locked(true), 10, &last).is_none());
    check.settle(&mut tasks, &mut running, &mut last);
    assert_eq!(last, b"e1".to_vec());
    assert_eq!(tasks[&0].times, 1);
    assert_eq!(tasks[&0].max_times, 4);
    assert_eq!(tasks[&0].oak_hash.as_slice(), b"0xfeed");
    // The copy that runs the action is taken before the run is counted.
    assert_eq!(running[&0].times, 0);

    // With a hash already kept, the hash is submitted again; the same event does not fire.
    let (mut check, request) = pallet.start_triger_check(&tasks, 0, 20);
    assert!(matches!(request, Some(CheckRequest::SubmitOakHash { recipe_id: 0, .. })));
    check.resume(CheckReply::Submitted(true), 20, &last);
    assert!(check.resume(CheckReply::LastEvent(Ok(b"e1".to_vec())), 20, &last).is_none());
    let mut later = BTreeMap::new();
    check.settle(&mut tasks, &mut later, &mut last);
    assert!(later.is_empty());

    // An event seen without taking the lock is not remembered.
    let (mut check, _) = pallet.start_triger_check(&tasks, 0, 30);
    check.resume(CheckReply::Submitted(true), 30, &last);
    check.resume(CheckReply::LastEvent(Ok(b"e2".to_vec())), 30, &last);
    check.resume(CheckReply::Locked(false), 30, &last);
    check.settle(&mut tasks, &mut later, &mut last);
    assert_eq!(last, b"e1".to_vec());
    assert_eq!(later.len(), 1);
}

#[test]
fn oak_timer_with_a_failed_submission_stops() {
    let pallet = one_recipe(Triger::OakTimer(0, 60, 4), slack(b"ping"));
    let mut tasks = watched(&pallet);
    let mut running = BTreeMap::new();
    let mut last = Vec::new();
    let (mut check, _) = pallet.start_triger_check(&tasks, 0, 10);
    assert!(check.resume(CheckReply::OakTask(Err(HttpError::IoError)), 10, &last).is_none());
    check.settle(&mut tasks, &mut running, &mut last);
    assert!(running.is_empty());
    assert_eq!(tasks[&0].oak_hash.len(), 0);
    // A reply of the wrong kind ends the check.
    let (mut check, _) = pallet.start_triger_check(&tasks, 0, 10);
    assert!(check.resume(CheckReply::Locked(true), 10, &last).is_none());
}

#[test]
fn oak_timer_with_a_message_that_is_not_text_is_skipped() {
    let pallet = one_recipe(Triger::OakTimer(0, 60, 4), slack(&[0xff, 0xfe]));
    let tasks = watched(&pallet);
    let (_, request) = pallet.start_triger_check(&tasks, 0, 10);
    assert!(request.is_none());
}

#[test]
fn overflowing_timers_are_detected() {
    let pallet = one_recipe(Triger::Timer(u64::MAX, 1), slack(b"m"));
    let mut tasks = watched(&pallet);
    assert!(can_start_triger_check(&pallet, &tasks, 0, 5));
    tasks.get_mut(&0).unwrap().times = 1;
    assert!(!can_start_triger_check(&pallet, &tasks, 0, 5));
}

#[test]
fn plans_for_each_action() {
    let mut pallet = Pallet::new();
    pallet.create_action(Origin::Signed(1), slack(b"hi")).unwrap();
    pallet
        .create_action(
            Origin::Signed(1),
            Action::MailWithToken(bytes(b"u"), bytes(b"t"), bytes(b"r"), bytes(b"s"), bytes(b"b")),
        )
        .unwrap();
    pallet.create_action(Origin::Signed(1), Action::Oracle(bytes(b"DOT"), bytes(b"src"))).unwrap();
    pallet
        .create_action(Origin::Signed(1), Action::BuyToken(9, bytes(b"DOT"), 5, bytes(b"KSM"), bytes(b"x")))
        .unwrap();
    pallet
        .create_action(Origin::Signed(1), Action::MailByLocalServer(bytes(b"r"), bytes(b"t"), bytes(b"b")))
        .unwrap();
    pallet.create_action(Origin::Signed(1), slack(&[0xff])).unwrap();

    let mut recipe = Recipe::fresh(0, 0);
    recipe.times = 1;
    recipe.max_times = 3;
    match pallet.plan_action(7, &recipe) {
        ActionPlan::Publish { dockr_url, options, max_run_num: 3, mark_done: None } => {
            assert_eq!(dockr_url, b"registry.cn-shenzhen.aliyuncs.com/difttt/slack-notify:latest".to_vec());
            assert_eq!(options, b"node index.js --url=https://hooks.example/x --message=hi".to_vec());
        },
        other => panic!("unexpected plan {:?}", other),
    }
    recipe.times = 3;
    assert!(matches!(pallet.plan_action(7, &recipe), ActionPlan::Publish { mark_done: Some(7), .. }));

    match pallet.plan_action(8, &Recipe::fresh(0, 1)) {
        ActionPlan::Publish { dockr_url, options, max_run_num: 3, mark_done: Some(8) } => {
            assert_eq!(dockr_url, b"registry.cn-shenzhen.aliyuncs.com/difttt/email:latest".to_vec());
            assert_eq!(options, b"/email --url=u --token=t --revicer=r --title=s --body=b".to_vec());
        },
        other => panic!("unexpected plan {:?}", other),
    }
    match pallet.plan_action(9, &Recipe::fresh(0, 2)) {
        ActionPlan::Publish { dockr_url, options, mark_done: Some(9), .. } => {
            assert_eq!(dockr_url, b"registry.cn-shenzhen.aliyuncs.com/difttt/oracle_price:latest".to_vec());
            assert_eq!(options, b"oracle_price --token_name=DOT --source_url=src --delay=45".to_vec());
        },
        other => panic!("unexpected plan {:?}", other),
    }
    match pallet.plan_action(4, &Recipe::fresh(0, 3)) {
        ActionPlan::BuyToken { recipe_id: 4, buyer: 9, sell_token_name, sell_amount: 5, buy_token_name } => {
            assert_eq!(sell_token_name, b"DOT".to_vec());
            assert_eq!(buy_token_name, b"KSM".to_vec());
        },
        other => panic!("unexpected plan {:?}", other),
    }
    assert!(matches!(pallet.plan_action(4, &Recipe::fresh(0, 4)), ActionPlan::Nothing));
    assert!(matches!(pallet.plan_action(4, &Recipe::fresh(0, 5)), ActionPlan::Nothing));
    assert!(matches!(pallet.plan_action(4, &Recipe::fresh(0, 77)), ActionPlan::Nothing));
}

#[test]
fn recipes_are_marked_done_only_after_publication() {
    assert_eq!(recipe_to_mark_done(Some(3), Ok(0)), Some(3));
    assert_eq!(recipe_to_mark_done(Some(3), Err(HttpError::Unknown)), None);
    assert_eq!(recipe_to_mark_done(None, Ok(0)), None);
}

/// A host that answers every request from a fixed script and counts the requests.
struct Scripted {
    price: u64,
    asked: usize,
}

impl CheckHost for Scripted {
    // The host's mathematical description exists for verification only.
    fn requests(&self) -> CheckLog {
        unreachable!()
    }
    fn answer(&self, _request: RequestView) -> ReplyView {
        unreachable!()
    }
    fn after(&self, _request: RequestView) -> Self {
        unreachable!()
    }
    fn perform(&mut self, request: CheckRequest) -> CheckReply {
        self.asked += 1;
        match request {
            CheckRequest::FetchPrice => CheckReply::Price(Ok(self.price)),
            CheckRequest::FetchArh999 => CheckReply::Arh999(Ok(10)),
            CheckRequest::LockLastEvent => CheckReply::Locked(true),
            CheckRequest::GetLastEvent => CheckReply::LastEvent(Ok(b"e9".to_vec())),
            CheckRequest::CreateOakTask { .. } => CheckReply::OakTask(Ok(b"0xab".to_vec())),
            _ => CheckReply::Submitted(true),
        }
    }
}

#[test]
fn a_worker_run_checks_every_tracked_recipe() {
    let mut pallet = one_recipe(Triger::PriceGT(0, 1_000), slack(b"m"));
    pallet.create_triger(Origin::Signed(1), Triger::Timer(0, 100)).unwrap();
    pallet.create_triger(Origin::Signed(1), Triger::OakTimer(0, 60, 2)).unwrap();
    pallet.create_recipe(Origin::Signed(1), 1, 0).unwrap();
    pallet.create_recipe(Origin::Signed(1), 2, 0).unwrap();
    let mut tasks = BTreeMap::new();
    let mut last = b"e0".to_vec();
    let mut host = Scripted { price: 2_000, asked: 0 };
    let running = pallet.run_worker(&mut host, &mut tasks, &mut last, 50).unwrap();
    assert_eq!(tasks.len(), 3);
    assert_eq!(running.len(), 3);
    assert!(tasks.values().all(|r| r.times == 1));
    // One price fetch, then four requests for the OAK triger.
    assert_eq!(host.asked, 5);
    assert_eq!(last, b"e9".to_vec());
    // A second run: the timer is not due yet (100 > 60), the others have nothing new.
    let mut host = Scripted { price: 10, asked: 0 };
    let running = pallet.run_worker(&mut host, &mut tasks, &mut last, 60).unwrap();
    assert!(running.is_empty());
    assert!(tasks.values().all(|r| r.times == 1));
}

#[test]
fn a_worker_run_stops_where_a_check_would_overflow() {
    let pallet = one_recipe(Triger::Timer(u64::MAX, 1), slack(b"m"));
    let mut tasks = BTreeMap::new();
    pallet.sync_recipe_tasks(&mut tasks);
    tasks.get_mut(&0).unwrap().times = 1;
    let mut host = Scripted { price: 0, asked: 0 };
    let mut last = Vec::new();
    assert_eq!(pallet.run_worker(&mut host, &mut tasks, &mut last, 5).unwrap_err(), 0);
}

#[test]
fn a_due_timer_fires_once_without_asking_the_host() {
    let pallet = one_recipe(
        Triger::Timer(100, 60),
        Action::MailByLocalServer(BoundedBytes::new(), BoundedBytes::new(), BoundedBytes::new()),
    );
    let mut tasks = BTreeMap::new();
    let mut last = Vec::new();
    let mut host = Scripted { price: 0, asked: 0 };
    let running = pallet.run_worker(&mut host, &mut tasks, &mut last, 130).unwrap();
    assert_eq!(host.asked, 0);
    assert_eq!(tasks.len(), 1);
    let r = &tasks[&0];
    assert_eq!((r.triger_id, r.action_id, r.enable, r.times, r.max_times, r.done, r.last_triger_timestamp), (0, 0, true, 1, 0, false, 0));
    assert_eq!(r.oak_hash.len(), 0);
    assert_eq!(running.len(), 1);
    // Not due yet: 100 + 1 * 60 is not before 160.
    let running = pallet.run_worker(&mut host, &mut tasks, &mut last, 160).unwrap();
    assert!(running.is_empty());
    assert_eq!(tasks[&0].times, 1);
}

#[test]
fn a_schedule_fires_once_it_is_past() {
    let pallet = one_recipe(Triger::Schedule(0, 500), slack(b"m"));
    let mut tasks = BTreeMap::new();
    let mut last = Vec::new();
    let mut host = Scripted { price: 0, asked: 0 };
    assert!(pallet.run_worker(&mut host, &mut tasks, &mut last, 500).unwrap().is_empty());
    assert_eq!(tasks[&0].times, 0);
    let running = pallet.run_worker(&mut host, &mut tasks, &mut last, 501).unwrap();
    assert!(running[&0].done);
    assert!(tasks[&0].done && tasks[&0].times == 1);
}
