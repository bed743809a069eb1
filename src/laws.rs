use vstd::prelude::*;
use vstd::arithmetic::div_mod::lemma_div_is_ordered;
use vstd::arithmetic::mul::lemma_mul_inequality;
use crate::env::Env;
use crate::ledger::{Ledger, stake_for};
use crate::stream::lemma_share_bounded;
use crate::types::{Error, Principal, RewardStream, DISPUTE_WINDOW, STREAM_DURATION};

verus! {

/// Evolution composes: what stays fixed from one state to the next stays
/// fixed along any run of operations.
pub proof fn lemma_evolution_transitive(a: Ledger, b: Ledger, c: Ledger)
    requires
        a.evolves_to(b),
        b.evolves_to(c),
    ensures
        a.evolves_to(c),
{
    assert forall|i: int| 0 <= i < a.streams.len() && a.streams[i] is Some implies {
        &&& #[trigger] c.streams[i] matches Some(n)
        &&& n.total_amount == a.streams[i]->0.total_amount
        &&& n.start_time == a.streams[i]->0.start_time
        &&& n.end_time == a.streams[i]->0.end_time
        &&& n.withdrawn >= a.streams[i]->0.withdrawn
    } by {
        assert(b.streams[i] is Some);
    }
}

/// A successful submission fixes the stake at the reward times the stake
/// percentage over a hundred, rounded down, and no later operation changes it.
pub proof fn lemma_stake_fixed_at_submission(l: Ledger, env: Env, executor: Principal, strategy_id: u64, later: Ledger)
    requires
        l.wf(),
        l.executions.len() < u64::MAX,
        l.step_submit_execution(env, executor, strategy_id).1 is Ok,
        l.step_submit_execution(env, executor, strategy_id).0.evolves_to(later),
    ensures
        ({
            let id = l.step_submit_execution(env, executor, strategy_id).1->Ok_0;
            &&& later.has_execution(id)
            &&& later.execution(id).stake_amount == l.strategy(strategy_id).reward_amount * 10 / 100
            &&& later.execution(id).stake_amount == stake_for(l.strategy(strategy_id).reward_amount as int)
        }),
{
    let next = l.step_submit_execution(env, executor, strategy_id).0;
    let id = l.step_submit_execution(env, executor, strategy_id).1->Ok_0;
    let reward = l.strategy(strategy_id).reward_amount as int;
    assert(l.strategies[strategy_id - 1].reward_amount > 0);
    assert(0 <= reward * 10 / 100 <= reward) by (nonlinear_arith)
        requires
            reward > 0,
    ;
    assert(id == l.executions.len() + 1);
    assert(next.executions[id - 1].stake_amount == stake_for(reward));
    assert(later.executions[id - 1].stake_amount == next.executions[id - 1].stake_amount);
}

/// What a stream has unlocked never falls as time passes, and never exceeds
/// its total.
pub proof fn lemma_earned_monotone(s: RewardStream, t1: u64, t2: u64)
    requires
        s.wf(),
        t1 <= t2,
    ensures
        0 <= s.earned_at(t1) <= s.earned_at(t2) <= s.total_amount,
{
    lemma_share_bounded(s.total_amount as int, s.elapsed_at(t1), s.duration());
    lemma_share_bounded(s.total_amount as int, s.elapsed_at(t2), s.duration());
    lemma_mul_inequality(s.elapsed_at(t1), s.elapsed_at(t2), s.total_amount as int);
    assert(s.elapsed_at(t1) * s.total_amount == s.total_amount * s.elapsed_at(t1)) by (nonlinear_arith);
    assert(s.elapsed_at(t2) * s.total_amount == s.total_amount * s.elapsed_at(t2)) by (nonlinear_arith);
    lemma_div_is_ordered(
        s.total_amount * s.elapsed_at(t1),
        s.total_amount * s.elapsed_at(t2),
        s.duration(),
    );
}

/// Once paid out no further than it had unlocked, a stream stays within what
/// it has unlocked, and within its total, at every later time.
pub proof fn lemma_payout_stays_within_earned(s: RewardStream, t1: u64, t2: u64)
    requires
        s.wf(),
        s.withdrawn <= s.earned_at(t1),
        t1 <= t2,
    ensures
        s.withdrawn <= s.earned_at(t2) <= s.total_amount,
{
    lemma_earned_monotone(s, t1, t2);
}

/// A ledger whose streams have paid out within what they had unlocked at
/// one time still has them within what they have unlocked at any later time.
/// With each operation keeping this at the time of its call, and a fresh
/// ledger holding no stream, every state reached under a clock that never
/// goes back has paid out no more than has been unlocked, which never exceeds
/// the total.
pub proof fn lemma_payouts_covered_later(l: Ledger, t0: u64, t1: u64)
    requires
        l.wf(),
        l.payouts_covered(t0),
        t0 <= t1,
    ensures
        l.payouts_covered(t1),
        forall|i: int|
            0 <= i < l.streams.len() && (#[trigger] l.streams[i]) is Some
                ==> l.streams[i]->0.earned_at(t1) <= l.streams[i]->0.total_amount,
{
    assert forall|i: int| 0 <= i < l.streams.len() && (#[trigger] l.streams[i]) is Some implies {
        &&& l.streams[i]->0.withdrawn <= l.streams[i]->0.earned_at(t1)
        &&& l.streams[i]->0.earned_at(t1) <= l.streams[i]->0.total_amount
    } by {
        assert(l.execution_wf(i));
        lemma_payout_stays_within_earned(l.streams[i]->0, t0, t1);
    }
}

/// A fresh ledger holds no stream, so it has paid out nothing unlocked.
pub proof fn lemma_empty_payouts_covered(now: u64)
    ensures
        Ledger::empty().wf(),
        Ledger::empty().payouts_covered(now),
{
}

/// A successful withdrawal raises what was withdrawn by the amount, and
/// leaves it within what the stream has unlocked at that time and ever after.
pub proof fn lemma_withdrawal_within_earned(l: Ledger, env: Env, executor: Principal, execution_id: u64, amount: i128, later: u64)
    requires
        l.wf(),
        l.step_withdraw_reward(env, executor, execution_id, amount).1 is Ok,
        env.timestamp <= later,
    ensures
        ({
            let before = l.stream(execution_id)->0;
            let after = l.step_withdraw_reward(env, executor, execution_id, amount).0.stream(execution_id)->0;
            &&& after.withdrawn == before.withdrawn + amount
            &&& before.withdrawn < after.withdrawn
            &&& after.withdrawn <= after.earned_at(env.timestamp)
            &&& after.withdrawn <= after.earned_at(later) <= after.total_amount
        }),
{
    let before = l.stream(execution_id)->0;
    assert(l.execution_wf(execution_id - 1));
    let after = RewardStream { withdrawn: (before.withdrawn + amount) as i128, ..before };
    lemma_earned_monotone(before, env.timestamp, later);
    assert(after.earned_at(env.timestamp) == before.earned_at(env.timestamp));
    assert(after.earned_at(later) == before.earned_at(later));
}

/// The dispute window and the finalization gate meet exactly: at the last
/// instant of the window the creator may still dispute and finalization is
/// refused; one second later the dispute is refused and finalization goes
/// through.
pub proof fn lemma_dispute_window_boundary(l: Ledger, env: Env, creator: Principal, execution_id: u64, reason_code: u32)
    requires
        l.wf(),
        l.has_execution(execution_id),
        l.execution(execution_id).status is Approved,
        l.strategy(l.execution(execution_id).strategy_id).creator.key@ == creator.key@,
        env.authorizes(creator),
        l.execution(execution_id).approved_at + DISPUTE_WINDOW + 1 <= u64::MAX,
    ensures
        ({
            let last = (l.execution(execution_id).approved_at + DISPUTE_WINDOW) as u64;
            let at_last = Env { timestamp: last, ..env };
            let past = Env { timestamp: (last + 1) as u64, ..env };
            &&& l.step_raise_dispute(at_last, creator, execution_id, reason_code).1 is Ok
            &&& l.step_raise_dispute(past, creator, execution_id, reason_code).1 == Err::<u64, Error>(Error::WindowExpired)
            &&& l.step_finalize_execution(at_last, execution_id).1 == Err::<bool, Error>(Error::WindowNotExpired)
            &&& l.step_finalize_execution(past, execution_id).1 == Ok::<bool, Error>(true)
        }),
{
    assert(l.execution_wf(execution_id - 1));
    let last = (l.execution(execution_id).approved_at + DISPUTE_WINDOW) as u64;
    let at_last = Env { timestamp: last, ..env };
    let past = Env { timestamp: (last + 1) as u64, ..env };
    assert(at_last.signers == env.signers);
    assert(past.signers == env.signers);
}

/// The oracle judges an execution once: after a successful verification any
/// further one fails with `InvalidState`, whatever its decision.
pub proof fn lemma_verify_once(l: Ledger, env1: Env, env2: Env, execution_id: u64, first: bool, second: bool)
    requires
        l.wf(),
        l.step_verify_execution(env1, execution_id, first).1 is Ok,
    ensures
        l.step_verify_execution(env1, execution_id, first).0.step_verify_execution(env2, execution_id, second).1
            == Err::<bool, Error>(Error::InvalidState),
{
    let next = l.step_verify_execution(env1, execution_id, first).0;
    assert(next.executions[execution_id - 1] == next.execution(execution_id));
}

/// A rejected execution never releases anything: its executor's withdrawal
/// fails with `NotReleasable`.
pub proof fn lemma_rejected_never_releases(l: Ledger, env: Env, executor: Principal, execution_id: u64, amount: i128)
    requires
        l.wf(),
        l.has_execution(execution_id),
        l.execution(execution_id).status is Rejected,
        l.execution(execution_id).executor.key@ == executor.key@,
        env.authorizes(executor),
    ensures
        l.step_withdraw_reward(env, executor, execution_id, amount).1 == Err::<i128, Error>(Error::NotReleasable),
{
}

/// A stream starts with nothing paid, which is within what it has unlocked at
/// any time.
pub proof fn lemma_fresh_stream_within_earned(total_amount: i128, start: u64, now: u64)
    requires
        total_amount > 0,
        start + STREAM_DURATION <= u64::MAX,
    ensures
        RewardStream::starting(total_amount, start).wf(),
        RewardStream::starting(total_amount, start).withdrawn <= RewardStream::starting(total_amount, start).earned_at(now),
{
    let s = RewardStream::starting(total_amount, start);
    lemma_share_bounded(s.total_amount as int, s.elapsed_at(now), s.duration());
}

} // verus!
