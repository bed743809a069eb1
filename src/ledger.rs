use vstd::prelude::*;
use crate::env::Env;
use crate::types::{
    DataKey, Dispute, Error, ExecStatus, Execution, Principal, RewardStream, Strategy,
    DISPUTE_WINDOW, STAKE_PERCENT,
};

verus! {

/// The engine's records as the ledger holds them. Identifiers are dense and
/// start at 1: the record with identifier `id` sits at position `id - 1`.
/// `exec_disputes` and `streams` run parallel to `executions`.
pub struct Ledger {
    pub strategies: Seq<Strategy>,
    pub executions: Seq<Execution>,
    pub disputes: Seq<Dispute>,
    pub exec_disputes: Seq<Option<u64>>,
    pub streams: Seq<Option<RewardStream>>,
}

/// The stake an executor puts up against a reward: its share, rounded down.
pub open spec fn stake_for(reward_amount: int) -> int {
    reward_amount * STAKE_PERCENT / 100
}

/// Whether an execution approved at `approved_at` may still be disputed at
/// `now`. The last instant of the window is still inside it.
pub open spec fn within_dispute_window(approved_at: u64, now: u64) -> bool {
    now <= approved_at + DISPUTE_WINDOW
}

/// Whether the status is one from which the reward streams out.
pub open spec fn is_releasable(status: ExecStatus) -> bool {
    status is Finalized || status is Cleared
}

/// Whether the status is one that a dispute has been raised in or led to.
pub open spec fn is_disputed(status: ExecStatus) -> bool {
    status is Disputed || status is Slashed || status is Cleared
}

impl Ledger {
    pub open spec fn empty() -> Ledger {
        Ledger {
            strategies: Seq::empty(),
            executions: Seq::empty(),
            disputes: Seq::empty(),
            exec_disputes: Seq::empty(),
            streams: Seq::empty(),
        }
    }

    pub open spec fn of(
        strategies: Seq<Strategy>,
        executions: Seq<Execution>,
        disputes: Seq<Dispute>,
        exec_disputes: Seq<Option<u64>>,
        streams: Seq<Option<RewardStream>>,
    ) -> Ledger {
        Ledger { strategies, executions, disputes, exec_disputes, streams }
    }

    pub open spec fn has_strategy(self, id: u64) -> bool {
        1 <= id <= self.strategies.len()
    }

    pub open spec fn strategy(self, id: u64) -> Strategy {
        self.strategies[id - 1]
    }

    pub open spec fn has_execution(self, id: u64) -> bool {
        1 <= id <= self.executions.len()
    }

    pub open spec fn execution(self, id: u64) -> Execution {
        self.executions[id - 1]
    }

    pub open spec fn has_dispute(self, id: u64) -> bool {
        1 <= id <= self.disputes.len()
    }

    pub open spec fn dispute(self, id: u64) -> Dispute {
        self.disputes[id - 1]
    }

    /// The dispute raised against an execution, if any.
    pub open spec fn exec_dispute(self, execution_id: u64) -> Option<u64> {
        if self.has_execution(execution_id) {
            self.exec_disputes[execution_id - 1]
        } else {
            None
        }
    }

    /// The reward stream of an execution, if one was started.
    pub open spec fn stream(self, execution_id: u64) -> Option<RewardStream> {
        if self.has_execution(execution_id) {
            self.streams[execution_id - 1]
        } else {
            None
        }
    }

    /// Whether the ledger holds a record, or a counter past zero, under `key`.
    pub open spec fn contains(self, key: DataKey) -> bool {
        match key {
            DataKey::StrategyCount => self.strategies.len() > 0,
            DataKey::ExecutionCount => self.executions.len() > 0,
            DataKey::DisputeCount => self.disputes.len() > 0,
            DataKey::Strategy(id) => self.has_strategy(id),
            DataKey::Execution(id) => self.has_execution(id),
            DataKey::Dispute(id) => self.has_dispute(id),
            DataKey::ExecDispute(id) => self.exec_dispute(id) is Some,
            DataKey::Stream(id) => self.stream(id) is Some,
        }
    }

    pub open spec fn execution_wf(self, i: int) -> bool {
        let e = self.executions[i];
        &&& self.has_strategy(e.strategy_id)
        &&& e.stake_amount == stake_for(self.strategy(e.strategy_id).reward_amount as int)
        &&& e.confidence <= 100
        &&& e.verified <==> is_releasable(e.status)
        &&& is_disputed(e.status) ==> (self.exec_disputes[i] matches Some(d) && self.has_dispute(d))
        &&& (self.streams[i] is Some <==> is_releasable(e.status))
        &&& (self.streams[i] matches Some(s) ==> s.wf())
    }

    /// The ledger's invariant: every reward is positive, every execution backs
    /// onto a strategy and carries the stake of its reward, a dispute record
    /// stands behind each disputed execution, and exactly the released
    /// executions, which alone are verified, have a well-formed stream.
    pub open spec fn wf(self) -> bool {
        &&& self.exec_disputes.len() == self.executions.len()
        &&& self.streams.len() == self.executions.len()
        &&& forall|i: int| 0 <= i < self.strategies.len() ==> #[trigger] self.strategies[i].reward_amount > 0
        &&& forall|i: int| 0 <= i < self.executions.len() ==> #[trigger] self.execution_wf(i)
    }

    /// Every stream has paid out no more than it had unlocked by `now`.
    pub open spec fn payouts_covered(self, now: u64) -> bool {
        forall|i: int|
            0 <= i < self.streams.len() && (#[trigger] self.streams[i]) is Some
                ==> self.streams[i]->0.withdrawn <= self.streams[i]->0.earned_at(now)
    }

    /// How records may change from one state to a later one: nothing is
    /// removed, what was fixed at creation stays, and no stream pays back.
    pub open spec fn evolves_to(self, next: Ledger) -> bool {
        &&& self.strategies.len() <= next.strategies.len()
        &&& self.executions.len() <= next.executions.len()
        &&& self.disputes.len() <= next.disputes.len()
        &&& self.streams.len() <= next.streams.len()
        &&& forall|i: int| 0 <= i < self.strategies.len() ==> {
            &&& (#[trigger] next.strategies[i]).creator == self.strategies[i].creator
            &&& next.strategies[i].reward_amount == self.strategies[i].reward_amount
        }
        &&& forall|i: int| 0 <= i < self.executions.len() ==> {
            &&& (#[trigger] next.executions[i]).executor == self.executions[i].executor
            &&& next.executions[i].strategy_id == self.executions[i].strategy_id
            &&& next.executions[i].stake_amount == self.executions[i].stake_amount
        }
        &&& forall|i: int| 0 <= i < self.streams.len() && self.streams[i] is Some ==> {
            &&& #[trigger] next.streams[i] matches Some(n)
            &&& n.total_amount == self.streams[i]->0.total_amount
            &&& n.start_time == self.streams[i]->0.start_time
            &&& n.end_time == self.streams[i]->0.end_time
            &&& n.withdrawn >= self.streams[i]->0.withdrawn
        }
    }

    /// `create_strategy`: an authenticated creator lists a positive reward.
    pub open spec fn step_create_strategy(self, env: Env, creator: Principal, reward_amount: i128) -> (Ledger, Result<u64, Error>) {
        if !env.authorizes(creator) {
            (self, Err(Error::Unauthenticated))
        } else if reward_amount <= 0 {
            (self, Err(Error::InvalidAmount))
        } else {
            let s = Strategy { creator, reward_amount, active: true };
            (
                Ledger { strategies: self.strategies.push(s), ..self },
                Ok((self.strategies.len() + 1) as u64),
            )
        }
    }

    /// `submit_execution`: an authenticated executor claims work against an
    /// active strategy, with the stake of its reward.
    pub open spec fn step_submit_execution(self, env: Env, executor: Principal, strategy_id: u64) -> (Ledger, Result<u64, Error>) {
        if !env.authorizes(executor) {
            (self, Err(Error::Unauthenticated))
        } else if !self.has_strategy(strategy_id) {
            (self, Err(Error::NotFound))
        } else if !self.strategy(strategy_id).active {
            (self, Err(Error::StrategyInactive))
        } else {
            let e = Execution {
                executor,
                strategy_id,
                verified: false,
                status: ExecStatus::Pending,
                stake_amount: stake_for(self.strategy(strategy_id).reward_amount as int) as i128,
                approved_at: 0,
                confidence: 0,
            };
            (
                Ledger {
                    executions: self.executions.push(e),
                    exec_disputes: self.exec_disputes.push(None),
                    streams: self.streams.push(None),
                    ..self
                },
                Ok((self.executions.len() + 1) as u64),
            )
        }
    }

    /// `verify_execution`: the oracle's judgment on a pending execution. A
    /// rejection re-arms the strategy; an approval opens the dispute window.
    pub open spec fn step_verify_execution(self, env: Env, execution_id: u64, approved: bool) -> (Ledger, Result<bool, Error>) {
        if !self.has_execution(execution_id) {
            (self, Err(Error::NotFound))
        } else {
            let e = self.execution(execution_id);
            let sid = e.strategy_id;
            if !(e.status is Pending) {
                (self, Err(Error::InvalidState))
            } else if !approved {
                if !self.has_strategy(sid) {
                    (self, Err(Error::NotFound))
                } else {
                    let e2 = Execution { status: ExecStatus::Rejected, verified: false, ..e };
                    let s2 = Strategy { active: true, ..self.strategy(sid) };
                    (
                        Ledger {
                            executions: self.executions.update(execution_id - 1, e2),
                            strategies: self.strategies.update(sid - 1, s2),
                            ..self
                        },
                        Ok(false),
                    )
                }
            } else {
                let e2 = Execution { status: ExecStatus::Approved, approved_at: env.timestamp, ..e };
                (Ledger { executions: self.executions.update(execution_id - 1, e2), ..self }, Ok(true))
            }
        }
    }

    /// `set_confidence`: records the oracle's score, whatever the status.
    pub open spec fn step_set_confidence(self, execution_id: u64, confidence: u32) -> (Ledger, Result<(), Error>) {
        if !self.has_execution(execution_id) {
            (self, Err(Error::NotFound))
        } else if confidence > 100 {
            (self, Err(Error::InvalidRange))
        } else {
            let e2 = Execution { confidence, ..self.execution(execution_id) };
            (Ledger { executions: self.executions.update(execution_id - 1, e2), ..self }, Ok(()))
        }
    }

    /// `raise_dispute`: the strategy's creator challenges an approved
    /// execution within the window.
    pub open spec fn step_raise_dispute(self, env: Env, challenger: Principal, execution_id: u64, reason_code: u32) -> (Ledger, Result<u64, Error>) {
        if !env.authorizes(challenger) {
            (self, Err(Error::Unauthenticated))
        } else if !self.has_execution(execution_id) {
            (self, Err(Error::NotFound))
        } else {
            let e = self.execution(execution_id);
            if !self.has_strategy(e.strategy_id) {
                (self, Err(Error::NotFound))
            } else if self.strategy(e.strategy_id).creator.key@ != challenger.key@ {
                (self, Err(Error::Unauthorized))
            } else if !(e.status is Approved) {
                (self, Err(Error::InvalidState))
            } else if !within_dispute_window(e.approved_at, env.timestamp) {
                (self, Err(Error::WindowExpired))
            } else {
                let dispute_id = (self.disputes.len() + 1) as u64;
                let d = Dispute {
                    challenger,
                    execution_id,
                    reason_code,
                    created_at: env.timestamp,
                    resolved: false,
                    upheld: false,
                };
                let e2 = Execution { status: ExecStatus::Disputed, ..e };
                (
                    Ledger {
                        executions: self.executions.update(execution_id - 1, e2),
                        disputes: self.disputes.push(d),
                        exec_disputes: self.exec_disputes.update(execution_id - 1, Some(dispute_id)),
                        ..self
                    },
                    Ok(dispute_id),
                )
            }
        }
    }

    /// `resolve_dispute`: settles a disputed execution. Upheld, the executor
    /// is slashed and the strategy re-armed; dismissed, the reward streams out.
    pub open spec fn step_resolve_dispute(self, env: Env, execution_id: u64, upheld: bool) -> (Ledger, Result<bool, Error>) {
        if !self.has_execution(execution_id) {
            (self, Err(Error::NotFound))
        } else {
            let e = self.execution(execution_id);
            let sid = e.strategy_id;
            if !(e.status is Disputed) {
                (self, Err(Error::InvalidState))
            } else {
                match self.exec_dispute(execution_id) {
                    Some(dispute_id) if self.has_dispute(dispute_id) && self.has_strategy(sid) => {
                        let d2 = Dispute { resolved: true, upheld, ..self.dispute(dispute_id) };
                        let s = self.strategy(sid);
                        let disputes = self.disputes.update(dispute_id - 1, d2);
                        if upheld {
                            let e2 = Execution { status: ExecStatus::Slashed, verified: false, ..e };
                            (
                                Ledger {
                                    executions: self.executions.update(execution_id - 1, e2),
                                    strategies: self.strategies.update(sid - 1, Strategy { active: true, ..s }),
                                    disputes,
                                    ..self
                                },
                                Ok(true),
                            )
                        } else {
                            let e2 = Execution { status: ExecStatus::Cleared, verified: true, ..e };
                            (
                                Ledger {
                                    executions: self.executions.update(execution_id - 1, e2),
                                    strategies: self.strategies.update(sid - 1, Strategy { active: false, ..s }),
                                    disputes,
                                    streams: self.streams.update(
                                        execution_id - 1,
                                        Some(RewardStream::starting(s.reward_amount, env.timestamp)),
                                    ),
                                    ..self
                                },
                                Ok(false),
                            )
                        }
                    },
                    _ => (self, Err(Error::NotFound)),
                }
            }
        }
    }

    /// `finalize_execution`: once the window has passed without dispute, the
    /// reward streams out.
    pub open spec fn step_finalize_execution(self, env: Env, execution_id: u64) -> (Ledger, Result<bool, Error>) {
        if !self.has_execution(execution_id) {
            (self, Err(Error::NotFound))
        } else {
            let e = self.execution(execution_id);
            let sid = e.strategy_id;
            if !(e.status is Approved) {
                (self, Err(Error::InvalidState))
            } else if within_dispute_window(e.approved_at, env.timestamp) {
                (self, Err(Error::WindowNotExpired))
            } else if !self.has_strategy(sid) {
                (self, Err(Error::NotFound))
            } else {
                let s = self.strategy(sid);
                let e2 = Execution { status: ExecStatus::Finalized, verified: true, ..e };
                (
                    Ledger {
                        executions: self.executions.update(execution_id - 1, e2),
                        strategies: self.strategies.update(sid - 1, Strategy { active: false, ..s }),
                        streams: self.streams.update(
                            execution_id - 1,
                            Some(RewardStream::starting(s.reward_amount, env.timestamp)),
                        ),
                        ..self
                    },
                    Ok(true),
                )
            }
        }
    }

    /// `withdraw_reward`: the executor of a released execution takes a
    /// positive amount out of what the stream has unlocked and not yet paid.
    pub open spec fn step_withdraw_reward(self, env: Env, executor: Principal, execution_id: u64, amount: i128) -> (Ledger, Result<i128, Error>) {
        if !env.authorizes(executor) {
            (self, Err(Error::Unauthenticated))
        } else if !self.has_execution(execution_id) {
            (self, Err(Error::NotFound))
        } else {
            let e = self.execution(execution_id);
            if e.executor.key@ != executor.key@ {
                (self, Err(Error::Unauthorized))
            } else if !is_releasable(e.status) || !e.verified {
                (self, Err(Error::NotReleasable))
            } else {
                match self.stream(execution_id) {
                    None => (self, Err(Error::NotFound)),
                    Some(s) => if amount <= 0 {
                        (self, Err(Error::InvalidAmount))
                    } else if amount > s.available_at(env.timestamp) {
                        (self, Err(Error::InsufficientAvailable))
                    } else {
                        let s2 = RewardStream { withdrawn: (s.withdrawn + amount) as i128, ..s };
                        (
                            Ledger { streams: self.streams.update(execution_id - 1, Some(s2)), ..self },
                            Ok(amount),
                        )
                    },
                }
            }
        }
    }
}

} // verus!
