use stratflow::{
    stake_of, DataKey, Env, Error, ExecStatus, Execution, Principal, RewardStream, Strategy,
    StratFlowContract,
    DISPUTE_WINDOW, MIN_CONFIDENCE, STREAM_DURATION,
};

fn principal(name: &str) -> Principal {
    Principal::new(String::from(name))
}

fn both_signed(creator: &Principal, executor: &Principal, timestamp: u64) -> Env {
    Env::new(timestamp, vec![creator.duplicate(), executor.duplicate()])
}

/// An engine with one strategy of `reward` and one execution against it,
/// approved at time `approved_at`.
fn approved(reward: i128, approved_at: u64) -> (StratFlowContract, Principal, Principal) {
    let creator = principal("creator");
    let executor = principal("executor");
    let env = both_signed(&creator, &executor, approved_at);
    let mut c = StratFlowContract::new();
    let sid = c.create_strategy(&env, &creator, reward).unwrap();
    let eid = c.submit_execution(&env, &executor, sid).unwrap();
    assert_eq!(c.verify_execution(&env, eid, true), Ok(true));
    (c, creator, executor)
}

#[test]
fn stake_is_floor_of_ten_percent() {
    assert_eq!(stake_of(1000), 100);
    assert_eq!(stake_of(1005), 100);
    assert_eq!(stake_of(1009), 100);
    assert_eq!(stake_of(9), 0);
    assert_eq!(stake_of(1), 0);
    assert_eq!(stake_of(i128::MAX), i128::MAX / 10);
}

#[test]
fn stake_survives_the_whole_lifecycle() {
    let (mut c, creator, executor) = approved(1234, 10);
    let env = both_signed(&creator, &executor, 10 + DISPUTE_WINDOW + 1);
    assert_eq!(c.get_execution(1).unwrap().stake_amount, 123);
    c.finalize_execution(&env, 1).unwrap();
    c.set_confidence(1, 90).unwrap();
    assert_eq!(c.get_execution(1).unwrap().stake_amount, 123);
}

#[test]
fn dispute_at_last_instant_of_window_succeeds() {
    let (mut c, creator, executor) = approved(1000, 100);
    let env = both_signed(&creator, &executor, 100 + DISPUTE_WINDOW);
    assert_eq!(c.raise_dispute(&env, &creator, 1, 3), Ok(1));
    let d = c.get_dispute(1).unwrap();
    assert_eq!(d.execution_id, 1);
    assert_eq!(d.reason_code, 3);
    assert_eq!(d.created_at, 160);
    assert_eq!(d.resolved, false);
    assert_eq!(c.get_exec_dispute(1), Ok(1));
}

#[test]
fn dispute_one_second_after_window_fails() {
    let (mut c, creator, executor) = approved(1000, 100);
    let env = both_signed(&creator, &executor, 100 + DISPUTE_WINDOW + 1);
    assert_eq!(c.raise_dispute(&env, &creator, 1, 1), Err(Error::WindowExpired));
    assert_eq!(c.get_execution(1).unwrap().status, ExecStatus::Approved);
}

#[test]
fn finalize_at_last_instant_of_window_fails() {
    let (mut c, creator, executor) = approved(1000, 100);
    let env = both_signed(&creator, &executor, 100 + DISPUTE_WINDOW);
    assert_eq!(c.finalize_execution(&env, 1), Err(Error::WindowNotExpired));
    assert_eq!(c.get_stream(1), Err(Error::NotFound));
}

#[test]
fn finalize_one_second_after_window_succeeds() {
    let (mut c, creator, executor) = approved(1000, 100);
    let env = both_signed(&creator, &executor, 100 + DISPUTE_WINDOW + 1);
    assert_eq!(c.finalize_execution(&env, 1), Ok(true));
    let s = c.get_stream(1).unwrap();
    assert_eq!(s.total_amount, 1000);
    assert_eq!(s.start_time, 161);
    assert_eq!(s.end_time, 161 + STREAM_DURATION);
    assert_eq!(s.withdrawn, 0);
    assert_eq!(c.get_strategy(1).unwrap().active, false);
}

#[test]
fn second_verification_fails_either_way() {
    let (mut c, creator, executor) = approved(1000, 0);
    let env = both_signed(&creator, &executor, 5);
    assert_eq!(c.verify_execution(&env, 1, true), Err(Error::InvalidState));
    assert_eq!(c.verify_execution(&env, 1, false), Err(Error::InvalidState));

    let env = both_signed(&creator, &executor, 0);
    let mut c = StratFlowContract::new();
    c.create_strategy(&env, &creator, 50).unwrap();
    c.submit_execution(&env, &executor, 1).unwrap();
    assert_eq!(c.verify_execution(&env, 1, false), Ok(false));
    assert_eq!(c.verify_execution(&env, 1, true), Err(Error::InvalidState));
    assert_eq!(c.verify_execution(&env, 1, false), Err(Error::InvalidState));
}

#[test]
fn happy_path_pays_out_exactly_the_reward() {
    let (mut c, creator, executor) = approved(1000, 0);
    let mut env = both_signed(&creator, &executor, 61);
    assert_eq!(c.finalize_execution(&env, 1), Ok(true));
    env.timestamp += 150;
    assert_eq!(c.get_earned(&env, 1), Ok(500));
    assert_eq!(c.withdraw_reward(&env, &executor, 1, 400), Ok(400));
    env.timestamp = 61 + STREAM_DURATION;
    assert_eq!(c.withdraw_reward(&env, &executor, 1, 600), Ok(600));
    assert_eq!(c.withdraw_reward(&env, &executor, 1, 1), Err(Error::InsufficientAvailable));
    assert_eq!(c.get_stream(1).unwrap().withdrawn, 1000);
    assert_eq!(c.get_earned(&env, 1), Ok(1000));
}

#[test]
fn slashed_execution_has_no_stream() {
    let (mut c, creator, executor) = approved(1000, 0);
    let env = both_signed(&creator, &executor, 1);
    c.raise_dispute(&env, &creator, 1, 1).unwrap();
    assert_eq!(c.resolve_dispute(&env, 1, true), Ok(true));
    let e = c.get_execution(1).unwrap();
    assert_eq!(e.status, ExecStatus::Slashed);
    assert_eq!(e.verified, false);
    assert_eq!(c.get_strategy(1).unwrap().active, true);
    assert_eq!(c.get_stream(1), Err(Error::NotFound));
    let d = c.get_dispute(1).unwrap();
    assert_eq!(d.resolved, true);
    assert_eq!(d.upheld, true);
    assert_eq!(c.withdraw_reward(&env, &executor, 1, 1), Err(Error::NotReleasable));
}

#[test]
fn dismissed_dispute_pays_full_amount_once() {
    let (mut c, creator, executor) = approved(1000, 0);
    let mut env = both_signed(&creator, &executor, 1);
    c.raise_dispute(&env, &creator, 1, 2).unwrap();
    assert_eq!(c.resolve_dispute(&env, 1, false), Ok(false));
    let e = c.get_execution(1).unwrap();
    assert_eq!(e.status, ExecStatus::Cleared);
    assert_eq!(e.verified, true);
    assert_eq!(c.get_stream(1).unwrap().total_amount, 1000);
    assert_eq!(c.get_strategy(1).unwrap().active, false);
    let d = c.get_dispute(1).unwrap();
    assert_eq!(d.resolved, true);
    assert_eq!(d.upheld, false);
    env.timestamp += STREAM_DURATION;
    assert_eq!(c.withdraw_reward(&env, &executor, 1, 1000), Ok(1000));
    assert_eq!(c.withdraw_reward(&env, &executor, 1, 1000), Err(Error::InsufficientAvailable));
    assert_eq!(c.resolve_dispute(&env, 1, true), Err(Error::InvalidState));
}

#[test]
fn rejected_execution_never_releases() {
    let creator = principal("creator");
    let executor = principal("executor");
    let mut env = both_signed(&creator, &executor, 0);
    let mut c = StratFlowContract::new();
    c.create_strategy(&env, &creator, 1000).unwrap();
    c.submit_execution(&env, &executor, 1).unwrap();
    assert_eq!(c.verify_execution(&env, 1, false), Ok(false));
    assert_eq!(c.get_strategy(1).unwrap().active, true);
    assert_eq!(c.get_execution(1).unwrap().status, ExecStatus::Rejected);
    env.timestamp = 10_000;
    assert_eq!(c.withdraw_reward(&env, &executor, 1, 1), Err(Error::NotReleasable));
    assert_eq!(c.finalize_execution(&env, 1), Err(Error::InvalidState));
}

#[test]
fn earned_is_floor_of_linear_share() {
    let s = RewardStream { total_amount: 1000, start_time: 100, end_time: 400, withdrawn: 0 };
    assert_eq!(s.earned(0), 0);
    assert_eq!(s.earned(100), 0);
    assert_eq!(s.earned(101), 3);
    assert_eq!(s.earned(250), 500);
    assert_eq!(s.earned(399), 996);
    assert_eq!(s.earned(400), 1000);
    assert_eq!(s.earned(u64::MAX), 1000);
    let paid = RewardStream { withdrawn: 400, ..s };
    assert_eq!(paid.available(250), 100);
    assert_eq!(paid.available(101), -397);
}

#[test]
fn earned_does_not_overflow_on_largest_reward() {
    let s = RewardStream { total_amount: i128::MAX, start_time: 0, end_time: 300, withdrawn: 0 };
    assert_eq!(s.earned(150), 85070591730234615865843651857942052863);
    assert_eq!(s.earned(300), i128::MAX);
    let wide = RewardStream { total_amount: i128::MAX, start_time: 0, end_time: u64::MAX, withdrawn: 0 };
    assert_eq!(wide.earned(u64::MAX - 1), i128::MAX - i128::MAX / (u64::MAX as i128) - 1);
}

#[test]
fn start_builds_a_stream_of_fixed_length() {
    let s = RewardStream::start(700, 5);
    assert_eq!(s, RewardStream { total_amount: 700, start_time: 5, end_time: 305, withdrawn: 0 });
}

#[test]
fn non_positive_reward_is_refused() {
    let creator = principal("creator");
    let env = Env::new(0, vec![creator.duplicate()]);
    let mut c = StratFlowContract::new();
    assert_eq!(c.create_strategy(&env, &creator, 0), Err(Error::InvalidAmount));
    assert_eq!(c.create_strategy(&env, &creator, -5), Err(Error::InvalidAmount));
    assert_eq!(c.get_strategy(1).err(), Some(Error::NotFound));
    assert_eq!(c.contains_key(DataKey::StrategyCount), false);
}

#[test]
fn unsigned_caller_is_unauthenticated() {
    let creator = principal("creator");
    let executor = principal("executor");
    let nobody = Env::new(0, vec![]);
    let mut c = StratFlowContract::new();
    assert_eq!(c.create_strategy(&nobody, &creator, 0), Err(Error::Unauthenticated));
    assert_eq!(c.create_strategy(&nobody, &creator, 10), Err(Error::Unauthenticated));
    let env = Env::new(0, vec![creator.duplicate()]);
    c.create_strategy(&env, &creator, 10).unwrap();
    assert_eq!(c.submit_execution(&env, &executor, 1), Err(Error::Unauthenticated));
    assert_eq!(c.submit_execution(&nobody, &executor, 7), Err(Error::Unauthenticated));
}

#[test]
fn unknown_records_are_not_found() {
    let (mut c, creator, executor) = approved(1000, 0);
    let env = both_signed(&creator, &executor, 0);
    assert_eq!(c.submit_execution(&env, &executor, 9), Err(Error::NotFound));
    assert_eq!(c.submit_execution(&env, &executor, 0), Err(Error::NotFound));
    assert_eq!(c.verify_execution(&env, 2, true), Err(Error::NotFound));
    assert_eq!(c.set_confidence(2, 50), Err(Error::NotFound));
    assert_eq!(c.raise_dispute(&env, &creator, 2, 1), Err(Error::NotFound));
    assert_eq!(c.resolve_dispute(&env, 2, true), Err(Error::NotFound));
    assert_eq!(c.finalize_execution(&env, 2), Err(Error::NotFound));
    assert_eq!(c.withdraw_reward(&env, &executor, 2, 1), Err(Error::NotFound));
    assert_eq!(c.get_execution(2).err(), Some(Error::NotFound));
    assert_eq!(c.get_dispute(1).err(), Some(Error::NotFound));
    assert_eq!(c.get_exec_dispute(1), Err(Error::NotFound));
    assert_eq!(c.get_earned(&env, 1), Err(Error::NotFound));
}

#[test]
fn inactive_strategy_takes_no_execution() {
    let (mut c, creator, executor) = approved(1000, 0);
    let env = both_signed(&creator, &executor, 61);
    c.finalize_execution(&env, 1).unwrap();
    assert_eq!(c.submit_execution(&env, &executor, 1), Err(Error::StrategyInactive));
}

#[test]
fn several_executions_may_back_one_active_strategy() {
    let (mut c, creator, executor) = approved(1000, 0);
    let env = both_signed(&creator, &executor, 0);
    assert_eq!(c.submit_execution(&env, &executor, 1), Ok(2));
    assert_eq!(c.get_execution(2).unwrap().status, ExecStatus::Pending);
    assert_eq!(c.get_execution(2).unwrap().strategy_id, 1);
}

#[test]
fn confidence_is_bounded_but_ungated() {
    let (mut c, creator, executor) = approved(1000, 0);
    assert_eq!(c.set_confidence(1, 101), Err(Error::InvalidRange));
    assert_eq!(c.get_execution(1).unwrap().confidence, 0);
    assert_eq!(c.set_confidence(1, 100), Ok(()));
    assert_eq!(c.get_execution(1).unwrap().confidence, 100);
    let env = both_signed(&creator, &executor, 61);
    c.finalize_execution(&env, 1).unwrap();
    assert_eq!(c.set_confidence(1, 42), Ok(()));
    assert_eq!(c.get_execution(1).unwrap().confidence, 42);
}

#[test]
fn only_the_executor_withdraws() {
    let (mut c, creator, executor) = approved(1000, 0);
    let env = both_signed(&creator, &executor, 400);
    c.finalize_execution(&env, 1).unwrap();
    assert_eq!(c.withdraw_reward(&env, &creator, 1, 1), Err(Error::Unauthorized));
    assert_eq!(c.withdraw_reward(&env, &executor, 1, 0), Err(Error::InvalidAmount));
    assert_eq!(c.withdraw_reward(&env, &executor, 1, -3), Err(Error::InvalidAmount));
}

#[test]
fn dispute_needs_approved_status() {
    let creator = principal("creator");
    let executor = principal("executor");
    let env = both_signed(&creator, &executor, 0);
    let mut c = StratFlowContract::new();
    c.create_strategy(&env, &creator, 1000).unwrap();
    c.submit_execution(&env, &executor, 1).unwrap();
    assert_eq!(c.raise_dispute(&env, &creator, 1, 1), Err(Error::InvalidState));
    assert_eq!(c.resolve_dispute(&env, 1, false), Err(Error::InvalidState));
    assert_eq!(c.finalize_execution(&env, 1), Err(Error::InvalidState));
}

#[test]
fn keys_report_what_the_ledger_holds() {
    let (mut c, creator, executor) = approved(1000, 0);
    assert!(c.contains_key(DataKey::StrategyCount));
    assert!(c.contains_key(DataKey::ExecutionCount));
    assert!(!c.contains_key(DataKey::DisputeCount));
    assert!(c.contains_key(DataKey::Strategy(1)));
    assert!(!c.contains_key(DataKey::Strategy(2)));
    assert!(c.contains_key(DataKey::Execution(1)));
    assert!(!c.contains_key(DataKey::ExecDispute(1)));
    assert!(!c.contains_key(DataKey::Stream(1)));
    let env = both_signed(&creator, &executor, 3);
    c.raise_dispute(&env, &creator, 1, 1).unwrap();
    c.resolve_dispute(&env, 1, false).unwrap();
    assert!(c.contains_key(DataKey::DisputeCount));
    assert!(c.contains_key(DataKey::Dispute(1)));
    assert!(c.contains_key(DataKey::ExecDispute(1)));
    assert!(c.contains_key(DataKey::Stream(1)));
}

#[test]
fn published_constants() {
    assert_eq!(StratFlowContract::get_dispute_window(), 60);
    assert_eq!(StratFlowContract::get_min_confidence(), 85);
    assert_eq!(DISPUTE_WINDOW, 60);
    assert_eq!(MIN_CONFIDENCE, 85);
}

#[test]
fn principals_compare_by_address() {
    let a = principal("GA1");
    let b = principal("GA1");
    let c = principal("GB2");
    assert!(a.same_as(&b));
    assert!(!a.same_as(&c));
    assert!(a.duplicate().same_as(&a));
}

#[test]
fn records_round_trip_through_from_records() {
    let (mut c, creator, executor) = approved(1000, 0);
    let env = both_signed(&creator, &executor, 61);
    c.finalize_execution(&env, 1).unwrap();
    assert_eq!(c.strategy_count(), 1);
    assert_eq!(c.execution_count(), 1);
    assert_eq!(c.dispute_count(), 0);

    let strategies = vec![Strategy { creator: creator.duplicate(), reward_amount: 1000, active: false }];
    let executions = vec![Execution {
        executor: executor.duplicate(),
        strategy_id: 1,
        verified: true,
        status: ExecStatus::Finalized,
        stake_amount: 100,
        approved_at: 0,
        confidence: 0,
    }];
    let stream = c.get_stream(1).unwrap();
    let restored = StratFlowContract::from_records(strategies, executions, vec![], vec![None], vec![Some(stream)]);
    let mut restored = restored.expect("consistent records");
    let env = both_signed(&creator, &executor, 61 + STREAM_DURATION);
    assert_eq!(restored.withdraw_reward(&env, &executor, 1, 1000), Ok(1000));
}

#[test]
fn inconsistent_records_are_refused() {
    let creator = principal("creator");
    let executor = principal("executor");
    let wrong_stake = vec![Execution {
        executor: executor.duplicate(),
        strategy_id: 1,
        verified: false,
        status: ExecStatus::Pending,
        stake_amount: 999,
        approved_at: 0,
        confidence: 0,
    }];
    let strategies = vec![Strategy { creator: creator.duplicate(), reward_amount: 1000, active: true }];
    assert!(StratFlowContract::from_records(strategies, wrong_stake, vec![], vec![None], vec![None]).is_none());

    let zero_reward = vec![Strategy { creator: creator.duplicate(), reward_amount: 0, active: true }];
    assert!(StratFlowContract::from_records(zero_reward, vec![], vec![], vec![], vec![]).is_none());

    let strategies = vec![Strategy { creator: creator.duplicate(), reward_amount: 1000, active: false }];
    let released_without_stream = vec![Execution {
        executor: executor.duplicate(),
        strategy_id: 1,
        verified: true,
        status: ExecStatus::Finalized,
        stake_amount: 100,
        approved_at: 0,
        confidence: 0,
    }];
    assert!(StratFlowContract::from_records(strategies, released_without_stream, vec![], vec![None], vec![None]).is_none());

    assert!(StratFlowContract::from_records(vec![], vec![], vec![], vec![None], vec![]).is_none());
    assert!(StratFlowContract::from_records(vec![], vec![], vec![], vec![], vec![]).is_some());
}
