use vstd::prelude::*;
use crate::env::Env;
use crate::ledger::{Ledger, stake_for};
use crate::types::{
    DataKey, Dispute, Error, ExecStatus, Execution, Principal, RewardStream, Strategy,
    DISPUTE_WINDOW, MIN_CONFIDENCE, STREAM_DURATION,
};

verus! {

/// The escrow engine: strategies, executions, disputes and reward streams,
/// with the rules that move them through their lifecycle.
pub struct StratFlowContract {
    strategies: Vec<Strategy>,
    executions: Vec<Execution>,
    disputes: Vec<Dispute>,
    exec_disputes: Vec<Option<u64>>,
    streams: Vec<Option<RewardStream>>,
}

impl View for StratFlowContract {
    type V = Ledger;

    closed spec fn view(&self) -> Ledger {
        Ledger {
            strategies: self.strategies@,
            executions: self.executions@,
            disputes: self.disputes@,
            exec_disputes: self.exec_disputes@,
            streams: self.streams@,
        }
    }
}

impl StratFlowContract {
    pub open spec fn wf(&self) -> bool {
        self@.wf()
    }

    /// An engine with no records.
    pub fn new() -> (r: StratFlowContract)
        ensures
            r@ == Ledger::empty(),
            r.wf(),
    {
        let r = StratFlowContract {
            strategies: Vec::new(),
            executions: Vec::new(),
            disputes: Vec::new(),
            exec_disputes: Vec::new(),
            streams: Vec::new(),
        };
        proof {
            assert(r@.strategies =~= Seq::empty());
            assert(r@.executions =~= Seq::empty());
            assert(r@.disputes =~= Seq::empty());
            assert(r@.exec_disputes =~= Seq::empty());
            assert(r@.streams =~= Seq::empty());
        }
        r
    }

    fn strategy_index(&self, id: u64) -> (r: Option<usize>)
        ensures
            r is Some <==> self@.has_strategy(id),
            r matches Some(i) ==> i == id - 1,
    {
        if 1 <= id && id <= self.strategies.len() as u64 {
            Some((id - 1) as usize)
        } else {
            None
        }
    }

    fn execution_index(&self, id: u64) -> (r: Option<usize>)
        ensures
            r is Some <==> self@.has_execution(id),
            r matches Some(i) ==> i == id - 1,
    {
        if 1 <= id && id <= self.executions.len() as u64 {
            Some((id - 1) as usize)
        } else {
            None
        }
    }

    fn dispute_index(&self, id: u64) -> (r: Option<usize>)
        ensures
            r is Some <==> self@.has_dispute(id),
            r matches Some(i) ==> i == id - 1,
    {
        if 1 <= id && id <= self.disputes.len() as u64 {
            Some((id - 1) as usize)
        } else {
            None
        }
    }

    /// Number of strategies listed so far; the last one has this identifier.
    pub fn strategy_count(&self) -> (r: u64)
        ensures
            r == self@.strategies.len(),
    {
        self.strategies.len() as u64
    }

    /// Number of executions submitted so far; the last one has this identifier.
    pub fn execution_count(&self) -> (r: u64)
        ensures
            r == self@.executions.len(),
    {
        self.executions.len() as u64
    }

    /// Number of disputes raised so far; the last one has this identifier.
    pub fn dispute_count(&self) -> (r: u64)
        ensures
            r == self@.disputes.len(),
    {
        self.disputes.len() as u64
    }

    /// Whether the execution at position `i` meets the ledger's invariant.
    fn execution_ok(&self, i: usize) -> (r: bool)
        requires
            i < self@.executions.len(),
            self@.exec_disputes.len() == self@.executions.len(),
            self@.streams.len() == self@.executions.len(),
            forall|k: int| 0 <= k < self@.strategies.len() ==> #[trigger] self@.strategies[k].reward_amount > 0,
        ensures
            r == self@.execution_wf(i as int),
    {
        let e = &self.executions[i];
        let si = match self.strategy_index(e.strategy_id) {
            Some(si) => si,
            None => return false,
        };
        proof {
            assert(self@.strategies[si as int].reward_amount > 0);
        }
        if e.stake_amount != stake_of(self.strategies[si].reward_amount) || e.confidence > 100 {
            return false;
        }
        let releasable = e.status == ExecStatus::Finalized || e.status == ExecStatus::Cleared;
        let disputed = e.status == ExecStatus::Disputed || e.status == ExecStatus::Slashed
            || e.status == ExecStatus::Cleared;
        if e.verified != releasable {
            return false;
        }
        if disputed {
            match self.exec_disputes[i] {
                Some(d) => {
                    if self.dispute_index(d).is_none() {
                        return false;
                    }
                },
                None => return false,
            }
        }
        match self.streams[i] {
            Some(s) => releasable && s.start_time < s.end_time && s.total_amount > 0 && 0 <= s.withdrawn
                && s.withdrawn <= s.total_amount,
            None => !releasable,
        }
    }

    /// An engine over records read back from storage, provided they meet the
    /// ledger's invariant; `None` when they do not.
    pub fn from_records(
        strategies: Vec<Strategy>,
        executions: Vec<Execution>,
        disputes: Vec<Dispute>,
        exec_disputes: Vec<Option<u64>>,
        streams: Vec<Option<RewardStream>>,
    ) -> (r: Option<StratFlowContract>)
        ensures
            r is Some <==> Ledger::of(strategies@, executions@, disputes@, exec_disputes@, streams@).wf(),
            r matches Some(c) ==> c.wf() && c@ == Ledger::of(strategies@, executions@, disputes@, exec_disputes@, streams@),
    {
        let ghost l = Ledger::of(strategies@, executions@, disputes@, exec_disputes@, streams@);
        let c = StratFlowContract { strategies, executions, disputes, exec_disputes, streams };
        assert(c@ == l);
        if c.exec_disputes.len() != c.executions.len() || c.streams.len() != c.executions.len() {
            return None;
        }
        let mut k: usize = 0;
        while k < c.strategies.len()
            invariant
                c@ == l,
                l == Ledger::of(strategies@, executions@, disputes@, exec_disputes@, streams@),
                0 <= k <= c@.strategies.len(),
                forall|j: int| 0 <= j < k ==> #[trigger] c@.strategies[j].reward_amount > 0,
            decreases c@.strategies.len() - k,
        {
            if c.strategies[k].reward_amount <= 0 {
                proof {
                    assert(!(c@.strategies[k as int].reward_amount > 0));
                }
                return None;
            }
            k = k + 1;
        }
        let mut i: usize = 0;
        while i < c.executions.len()
            invariant
                c@ == l,
                l == Ledger::of(strategies@, executions@, disputes@, exec_disputes@, streams@),
                0 <= i <= c@.executions.len(),
                c@.exec_disputes.len() == c@.executions.len(),
                c@.streams.len() == c@.executions.len(),
                forall|j: int| 0 <= j < c@.strategies.len() ==> #[trigger] c@.strategies[j].reward_amount > 0,
                forall|j: int| 0 <= j < i ==> #[trigger] c@.execution_wf(j),
            decreases c@.executions.len() - i,
        {
            if !c.execution_ok(i) {
                proof {
                    assert(!c@.execution_wf(i as int));
                }
                return None;
            }
            i = i + 1;
        }
        Some(c)
    }

    /// Lists a strategy of `reward_amount` by `creator`; returns its
    /// identifier.
    pub fn create_strategy(&mut self, env: &Env, creator: &Principal, reward_amount: i128) -> (r: Result<u64, Error>)
        requires
            old(self).wf(),
            old(self)@.strategies.len() < u64::MAX,
        ensures
            final(self).wf(),
            (final(self)@, r) == old(self)@.step_create_strategy(*env, *creator, reward_amount),
            old(self)@.evolves_to(final(self)@),
            old(self)@.payouts_covered(env.timestamp) ==> final(self)@.payouts_covered(env.timestamp),
    {
        if let Err(e) = env.authenticate(creator) {
            return Err(e);
        }
        if reward_amount <= 0 {
            return Err(Error::InvalidAmount);
        }
        let id = self.strategies.len() as u64 + 1;
        let s = Strategy { creator: creator.duplicate(), reward_amount, active: true };
        self.strategies.push(s);
        proof {
            let l = self@;
            let o = old(self)@;
            assert(l.strategies =~= o.strategies.push(s));
            assert forall|i: int| 0 <= i < l.executions.len() implies #[trigger] l.execution_wf(i) by {
                assert(o.execution_wf(i));
                assert(l.strategies[l.executions[i].strategy_id - 1] == o.strategies[l.executions[i].strategy_id - 1]);
            }
            assert forall|i: int| 0 <= i < l.strategies.len() implies #[trigger] l.strategies[i].reward_amount > 0 by {
                if i < o.strategies.len() {
                    assert(o.strategies[i].reward_amount > 0);
                }
            }
        }
        Ok(id)
    }

    /// Records `executor`'s claim of work against an active strategy, with a
    /// stake of the strategy's reward share; returns its identifier.
    pub fn submit_execution(&mut self, env: &Env, executor: &Principal, strategy_id: u64) -> (r: Result<u64, Error>)
        requires
            old(self).wf(),
            old(self)@.executions.len() < u64::MAX,
        ensures
            final(self).wf(),
            (final(self)@, r) == old(self)@.step_submit_execution(*env, *executor, strategy_id),
            old(self)@.evolves_to(final(self)@),
            old(self)@.payouts_covered(env.timestamp) ==> final(self)@.payouts_covered(env.timestamp),
    {
        if let Err(e) = env.authenticate(executor) {
            return Err(e);
        }
        let si = match self.strategy_index(strategy_id) {
            Some(i) => i,
            None => return Err(Error::NotFound),
        };
        if !self.strategies[si].active {
            return Err(Error::StrategyInactive);
        }
        proof {
            assert(old(self)@.strategies[si as int].reward_amount > 0);
        }
        let stake = stake_of(self.strategies[si].reward_amount);
        let id = self.executions.len() as u64 + 1;
        let e = Execution {
            executor: executor.duplicate(),
            strategy_id,
            verified: false,
            status: ExecStatus::Pending,
            stake_amount: stake,
            approved_at: 0,
            confidence: 0,
        };
        self.executions.push(e);
        self.exec_disputes.push(None);
        self.streams.push(None);
        proof {
            let l = self@;
            let o = old(self)@;
            assert(l.executions =~= o.executions.push(e));
            assert(l.exec_disputes =~= o.exec_disputes.push(None));
            assert(l.streams =~= o.streams.push(None));
            assert forall|i: int| 0 <= i < l.executions.len() implies #[trigger] l.execution_wf(i) by {
                if i < o.executions.len() {
                    assert(o.execution_wf(i));
                }
            }
        }
        Ok(id)
    }

    /// Applies the oracle's judgment to a pending execution. A rejection
    /// re-arms the strategy and returns `false`; an approval stamps the time,
    /// opens the dispute window and returns `true`.
    pub fn verify_execution(&mut self, env: &Env, execution_id: u64, approved: bool) -> (r: Result<bool, Error>)
        requires
            old(self).wf(),
        ensures
            final(self).wf(),
            (final(self)@, r) == old(self)@.step_verify_execution(*env, execution_id, approved),
            old(self)@.evolves_to(final(self)@),
            old(self)@.payouts_covered(env.timestamp) ==> final(self)@.payouts_covered(env.timestamp),
    {
        let ei = match self.execution_index(execution_id) {
            Some(i) => i,
            None => return Err(Error::NotFound),
        };
        if self.executions[ei].status != ExecStatus::Pending {
            return Err(Error::InvalidState);
        }
        proof {
            assert(old(self)@.execution_wf(ei as int));
        }
        if !approved {
            let si = match self.strategy_index(self.executions[ei].strategy_id) {
                Some(i) => i,
                None => return Err(Error::NotFound),
            };
            self.executions[ei].status = ExecStatus::Rejected;
            self.executions[ei].verified = false;
            self.strategies[si].active = true;
            proof {
                let l = self@;
                let o = old(self)@;
                let e = o.execution(execution_id);
                assert(l.executions =~= o.executions.update(ei as int, Execution { status: ExecStatus::Rejected, verified: false, ..e }));
                assert(l.strategies =~= o.strategies.update(si as int, Strategy { active: true, ..o.strategies[si as int] }));
                assert forall|i: int| 0 <= i < l.executions.len() implies #[trigger] l.execution_wf(i) by {
                    assert(o.execution_wf(i));
                }
                assert forall|i: int| 0 <= i < l.strategies.len() implies #[trigger] l.strategies[i].reward_amount > 0 by {
                    assert(o.strategies[i].reward_amount > 0);
                }
            }
            return Ok(false);
        }
        self.executions[ei].status = ExecStatus::Approved;
        self.executions[ei].approved_at = env.timestamp;
        proof {
            let l = self@;
            let o = old(self)@;
            let e = o.execution(execution_id);
            assert(l.executions =~= o.executions.update(ei as int, Execution { status: ExecStatus::Approved, approved_at: env.timestamp, ..e }));
            assert forall|i: int| 0 <= i < l.executions.len() implies #[trigger] l.execution_wf(i) by {
                assert(o.execution_wf(i));
            }
        }
        Ok(true)
    }

    /// Records the oracle's confidence score, in percent, on an execution in
    /// any status.
    pub fn set_confidence(&mut self, execution_id: u64, confidence: u32) -> (r: Result<(), Error>)
        requires
            old(self).wf(),
        ensures
            final(self).wf(),
            (final(self)@, r) == old(self)@.step_set_confidence(execution_id, confidence),
            old(self)@.evolves_to(final(self)@),
            forall|t: u64| old(self)@.payouts_covered(t) ==> final(self)@.payouts_covered(t),
    {
        let ei = match self.execution_index(execution_id) {
            Some(i) => i,
            None => return Err(Error::NotFound),
        };
        if confidence > 100 {
            return Err(Error::InvalidRange);
        }
        self.executions[ei].confidence = confidence;
        proof {
            let l = self@;
            let o = old(self)@;
            let e = o.execution(execution_id);
            assert(l.executions =~= o.executions.update(ei as int, Execution { confidence, ..e }));
            assert(l.strategies == o.strategies);
            assert forall|i: int| 0 <= i < l.executions.len() implies #[trigger] l.execution_wf(i) by {
                assert(o.execution_wf(i));
            }
        }
        Ok(())
    }

    /// Lets the creator of the backing strategy challenge an approved
    /// execution while the dispute window is open; returns the dispute's
    /// identifier.
    pub fn raise_dispute(&mut self, env: &Env, challenger: &Principal, execution_id: u64, reason_code: u32) -> (r: Result<u64, Error>)
        requires
            old(self).wf(),
            old(self)@.disputes.len() < u64::MAX,
        ensures
            final(self).wf(),
            (final(self)@, r) == old(self)@.step_raise_dispute(*env, *challenger, execution_id, reason_code),
            old(self)@.evolves_to(final(self)@),
            old(self)@.payouts_covered(env.timestamp) ==> final(self)@.payouts_covered(env.timestamp),
    {
        if let Err(e) = env.authenticate(challenger) {
            return Err(e);
        }
        let ei = match self.execution_index(execution_id) {
            Some(i) => i,
            None => return Err(Error::NotFound),
        };
        let si = match self.strategy_index(self.executions[ei].strategy_id) {
            Some(i) => i,
            None => return Err(Error::NotFound),
        };
        if !self.strategies[si].creator.same_as(challenger) {
            return Err(Error::Unauthorized);
        }
        if self.executions[ei].status != ExecStatus::Approved {
            return Err(Error::InvalidState);
        }
        let now = env.timestamp;
        let approved_at = self.executions[ei].approved_at;
        if approved_at <= u64::MAX - DISPUTE_WINDOW && now > approved_at + DISPUTE_WINDOW {
            return Err(Error::WindowExpired);
        }
        let dispute_id = self.disputes.len() as u64 + 1;
        let d = Dispute {
            challenger: challenger.duplicate(),
            execution_id,
            reason_code,
            created_at: now,
            resolved: false,
            upheld: false,
        };
        self.disputes.push(d);
        self.exec_disputes.set(ei, Some(dispute_id));
        self.executions[ei].status = ExecStatus::Disputed;
        proof {
            let l = self@;
            let o = old(self)@;
            let e = o.execution(execution_id);
            assert(l.executions =~= o.executions.update(ei as int, Execution { status: ExecStatus::Disputed, ..e }));
            assert(l.disputes =~= o.disputes.push(d));
            assert(l.exec_disputes =~= o.exec_disputes.update(ei as int, Some(dispute_id)));
            assert forall|i: int| 0 <= i < l.executions.len() implies #[trigger] l.execution_wf(i) by {
                assert(o.execution_wf(i));
            }
        }
        Ok(dispute_id)
    }

    /// Settles the dispute of a disputed execution. Upheld, the executor is
    /// slashed and the strategy re-armed; dismissed, the execution is cleared,
    /// its reward starts streaming and the strategy is closed. Returns
    /// `upheld`.
    pub fn resolve_dispute(&mut self, env: &Env, execution_id: u64, upheld: bool) -> (r: Result<bool, Error>)
        requires
            old(self).wf(),
            env.timestamp <= u64::MAX - STREAM_DURATION,
        ensures
            final(self).wf(),
            (final(self)@, r) == old(self)@.step_resolve_dispute(*env, execution_id, upheld),
            old(self)@.evolves_to(final(self)@),
            old(self)@.payouts_covered(env.timestamp) ==> final(self)@.payouts_covered(env.timestamp),
    {
        let ei = match self.execution_index(execution_id) {
            Some(i) => i,
            None => return Err(Error::NotFound),
        };
        if self.executions[ei].status != ExecStatus::Disputed {
            return Err(Error::InvalidState);
        }
        let dispute_id = match self.exec_disputes[ei] {
            Some(d) => d,
            None => return Err(Error::NotFound),
        };
        let di = match self.dispute_index(dispute_id) {
            Some(i) => i,
            None => return Err(Error::NotFound),
        };
        let si = match self.strategy_index(self.executions[ei].strategy_id) {
            Some(i) => i,
            None => return Err(Error::NotFound),
        };
        proof {
            assert(old(self)@.execution_wf(ei as int));
            assert(old(self)@.strategies[si as int].reward_amount > 0);
        }
        self.disputes[di].resolved = true;
        self.disputes[di].upheld = upheld;
        if upheld {
            self.executions[ei].status = ExecStatus::Slashed;
            self.executions[ei].verified = false;
            self.strategies[si].active = true;
            proof {
                let l = self@;
                let o = old(self)@;
                let e = o.execution(execution_id);
                assert(l.executions =~= o.executions.update(ei as int, Execution { status: ExecStatus::Slashed, verified: false, ..e }));
                assert(l.strategies =~= o.strategies.update(si as int, Strategy { active: true, ..o.strategies[si as int] }));
                assert(l.disputes =~= o.disputes.update(di as int, Dispute { resolved: true, upheld, ..o.disputes[di as int] }));
                assert forall|i: int| 0 <= i < l.executions.len() implies #[trigger] l.execution_wf(i) by {
                    assert(o.execution_wf(i));
                }
                assert forall|i: int| 0 <= i < l.strategies.len() implies #[trigger] l.strategies[i].reward_amount > 0 by {
                    assert(o.strategies[i].reward_amount > 0);
                }
            }
            return Ok(true);
        }
        let stream = RewardStream::start(self.strategies[si].reward_amount, env.timestamp);
        self.executions[ei].status = ExecStatus::Cleared;
        self.executions[ei].verified = true;
        self.streams.set(ei, Some(stream));
        self.strategies[si].active = false;
        proof {
            let l = self@;
            let o = old(self)@;
            let e = o.execution(execution_id);
            assert(l.executions =~= o.executions.update(ei as int, Execution { status: ExecStatus::Cleared, verified: true, ..e }));
            assert(l.strategies =~= o.strategies.update(si as int, Strategy { active: false, ..o.strategies[si as int] }));
            assert(l.disputes =~= o.disputes.update(di as int, Dispute { resolved: true, upheld, ..o.disputes[di as int] }));
            assert(l.streams =~= o.streams.update(ei as int, Some(stream)));
            assert forall|i: int| 0 <= i < l.executions.len() implies #[trigger] l.execution_wf(i) by {
                assert(o.execution_wf(i));
            }
            assert forall|i: int| 0 <= i < l.strategies.len() implies #[trigger] l.strategies[i].reward_amount > 0 by {
                assert(o.strategies[i].reward_amount > 0);
            }
        }
        Ok(false)
    }

    /// Once the dispute window of an approved execution has passed, releases
    /// it: the reward starts streaming and the strategy is closed. Anyone may
    /// call this. Returns `true`.
    pub fn finalize_execution(&mut self, env: &Env, execution_id: u64) -> (r: Result<bool, Error>)
        requires
            old(self).wf(),
            env.timestamp <= u64::MAX - STREAM_DURATION,
        ensures
            final(self).wf(),
            (final(self)@, r) == old(self)@.step_finalize_execution(*env, execution_id),
            old(self)@.evolves_to(final(self)@),
            old(self)@.payouts_covered(env.timestamp) ==> final(self)@.payouts_covered(env.timestamp),
    {
        let ei = match self.execution_index(execution_id) {
            Some(i) => i,
            None => return Err(Error::NotFound),
        };
        if self.executions[ei].status != ExecStatus::Approved {
            return Err(Error::InvalidState);
        }
        let now = env.timestamp;
        let approved_at = self.executions[ei].approved_at;
        if approved_at > u64::MAX - DISPUTE_WINDOW || now <= approved_at + DISPUTE_WINDOW {
            return Err(Error::WindowNotExpired);
        }
        let si = match self.strategy_index(self.executions[ei].strategy_id) {
            Some(i) => i,
            None => return Err(Error::NotFound),
        };
        proof {
            assert(old(self)@.execution_wf(ei as int));
            assert(old(self)@.strategies[si as int].reward_amount > 0);
        }
        let stream = RewardStream::start(self.strategies[si].reward_amount, now);
        self.executions[ei].status = ExecStatus::Finalized;
        self.executions[ei].verified = true;
        self.streams.set(ei, Some(stream));
        self.strategies[si].active = false;
        proof {
            let l = self@;
            let o = old(self)@;
            let e = o.execution(execution_id);
            assert(l.executions =~= o.executions.update(ei as int, Execution { status: ExecStatus::Finalized, verified: true, ..e }));
            assert(l.strategies =~= o.strategies.update(si as int, Strategy { active: false, ..o.strategies[si as int] }));
            assert(l.streams =~= o.streams.update(ei as int, Some(stream)));
            assert forall|i: int| 0 <= i < l.executions.len() implies #[trigger] l.execution_wf(i) by {
                assert(o.execution_wf(i));
            }
            assert forall|i: int| 0 <= i < l.strategies.len() implies #[trigger] l.strategies[i].reward_amount > 0 by {
                assert(o.strategies[i].reward_amount > 0);
            }
        }
        Ok(true)
    }

    /// Pays `amount` to the executor of a released execution out of what its
    /// stream has unlocked by now and not yet paid; returns the amount.
    pub fn withdraw_reward(&mut self, env: &Env, executor: &Principal, execution_id: u64, amount: i128) -> (r: Result<i128, Error>)
        requires
            old(self).wf(),
        ensures
            final(self).wf(),
            (final(self)@, r) == old(self)@.step_withdraw_reward(*env, *executor, execution_id, amount),
            old(self)@.evolves_to(final(self)@),
            old(self)@.payouts_covered(env.timestamp) ==> final(self)@.payouts_covered(env.timestamp),
            r is Ok ==> final(self)@.stream(execution_id)->0.withdrawn <= final(self)@.stream(execution_id)->0.earned_at(env.timestamp),
    {
        if let Err(e) = env.authenticate(executor) {
            return Err(e);
        }
        let ei = match self.execution_index(execution_id) {
            Some(i) => i,
            None => return Err(Error::NotFound),
        };
        if !self.executions[ei].executor.same_as(executor) {
            return Err(Error::Unauthorized);
        }
        let status = self.executions[ei].status;
        if status != ExecStatus::Finalized && status != ExecStatus::Cleared {
            return Err(Error::NotReleasable);
        }
        if !self.executions[ei].verified {
            return Err(Error::NotReleasable);
        }
        let stream = match self.streams[ei] {
            Some(s) => s,
            None => return Err(Error::NotFound),
        };
        proof {
            assert(old(self)@.execution_wf(ei as int));
        }
        let available = stream.available(env.timestamp);
        if amount <= 0 {
            return Err(Error::InvalidAmount);
        }
        if amount > available {
            return Err(Error::InsufficientAvailable);
        }
        let paid = RewardStream { withdrawn: stream.withdrawn + amount, ..stream };
        self.streams.set(ei, Some(paid));
        proof {
            let l = self@;
            let o = old(self)@;
            assert(l.streams =~= o.streams.update(ei as int, Some(paid)));
            assert forall|i: int| 0 <= i < l.executions.len() implies #[trigger] l.execution_wf(i) by {
                assert(o.execution_wf(i));
            }
        }
        Ok(amount)
    }

    /// The strategy with identifier `strategy_id`.
    pub fn get_strategy(&self, strategy_id: u64) -> (r: Result<&Strategy, Error>)
        ensures
            match r {
                Ok(s) => self@.has_strategy(strategy_id) && *s == self@.strategy(strategy_id),
                Err(e) => !self@.has_strategy(strategy_id) && e == Error::NotFound,
            },
    {
        match self.strategy_index(strategy_id) {
            Some(i) => Ok(&self.strategies[i]),
            None => Err(Error::NotFound),
        }
    }

    /// The execution with identifier `execution_id`.
    pub fn get_execution(&self, execution_id: u64) -> (r: Result<&Execution, Error>)
        ensures
            match r {
                Ok(e) => self@.has_execution(execution_id) && *e == self@.execution(execution_id),
                Err(e) => !self@.has_execution(execution_id) && e == Error::NotFound,
            },
    {
        match self.execution_index(execution_id) {
            Some(i) => Ok(&self.executions[i]),
            None => Err(Error::NotFound),
        }
    }

    /// The reward stream of execution `execution_id`.
    pub fn get_stream(&self, execution_id: u64) -> (r: Result<RewardStream, Error>)
        requires
            self.wf(),
        ensures
            match self@.stream(execution_id) {
                Some(s) => r == Ok::<RewardStream, Error>(s),
                None => r == Err::<RewardStream, Error>(Error::NotFound),
            },
    {
        match self.execution_index(execution_id) {
            Some(i) => match self.streams[i] {
                Some(s) => Ok(s),
                None => Err(Error::NotFound),
            },
            None => Err(Error::NotFound),
        }
    }

    /// The dispute with identifier `dispute_id`.
    pub fn get_dispute(&self, dispute_id: u64) -> (r: Result<&Dispute, Error>)
        ensures
            match r {
                Ok(d) => self@.has_dispute(dispute_id) && *d == self@.dispute(dispute_id),
                Err(e) => !self@.has_dispute(dispute_id) && e == Error::NotFound,
            },
    {
        match self.dispute_index(dispute_id) {
            Some(i) => Ok(&self.disputes[i]),
            None => Err(Error::NotFound),
        }
    }

    /// The identifier of the dispute raised against execution `execution_id`.
    pub fn get_exec_dispute(&self, execution_id: u64) -> (r: Result<u64, Error>)
        requires
            self.wf(),
        ensures
            match self@.exec_dispute(execution_id) {
                Some(d) => r == Ok::<u64, Error>(d),
                None => r == Err::<u64, Error>(Error::NotFound),
            },
    {
        match self.execution_index(execution_id) {
            Some(i) => match self.exec_disputes[i] {
                Some(d) => Ok(d),
                None => Err(Error::NotFound),
            },
            None => Err(Error::NotFound),
        }
    }

    /// The length of the dispute window, in seconds.
    pub fn get_dispute_window() -> (r: u64)
        ensures
            r == DISPUTE_WINDOW,
    {
        DISPUTE_WINDOW
    }

    /// The advisory confidence threshold, in percent.
    pub fn get_min_confidence() -> (r: u32)
        ensures
            r == MIN_CONFIDENCE,
    {
        MIN_CONFIDENCE
    }

    /// What the stream of execution `execution_id` has unlocked by now,
    /// whatever has been withdrawn.
    pub fn get_earned(&self, env: &Env, execution_id: u64) -> (r: Result<i128, Error>)
        requires
            self.wf(),
        ensures
            match self@.stream(execution_id) {
                Some(s) => r == Ok::<i128, Error>(s.earned_at(env.timestamp) as i128),
                None => r == Err::<i128, Error>(Error::NotFound),
            },
    {
        match self.execution_index(execution_id) {
            Some(i) => match self.streams[i] {
                Some(s) => {
                    proof {
                        assert(self@.execution_wf(i as int));
                    }
                    Ok(s.earned(env.timestamp))
                },
                None => Err(Error::NotFound),
            },
            None => Err(Error::NotFound),
        }
    }

    /// Whether the ledger holds a record, or a counter past zero, under `key`.
    pub fn contains_key(&self, key: DataKey) -> (r: bool)
        requires
            self.wf(),
        ensures
            r == self@.contains(key),
    {
        match key {
            DataKey::StrategyCount => self.strategies.len() > 0,
            DataKey::ExecutionCount => self.executions.len() > 0,
            DataKey::DisputeCount => self.disputes.len() > 0,
            DataKey::Strategy(id) => self.strategy_index(id).is_some(),
            DataKey::Execution(id) => self.execution_index(id).is_some(),
            DataKey::Dispute(id) => self.dispute_index(id).is_some(),
            DataKey::ExecDispute(id) => self.get_exec_dispute(id).is_ok(),
            DataKey::Stream(id) => self.get_stream(id).is_ok(),
        }
    }
}

/// The stake put up against `reward_amount`.
pub fn stake_of(reward_amount: i128) -> (r: i128)
    requires
        reward_amount >= 0,
    ensures
        r == stake_for(reward_amount as int),
{
    // The share is a tenth, so dividing by ten gives the same floor without
    // a product that could overflow.
    let r = reward_amount / 10;
    proof {
        assert(reward_amount as int * 10 / 100 == reward_amount as int / 10) by (nonlinear_arith);
    }
    r
}

} // verus!
