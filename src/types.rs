use vstd::prelude::*;

verus! {

/// How long, in seconds after approval, the strategy's creator may dispute.
pub const DISPUTE_WINDOW: u64 = 60;

/// Advisory confidence threshold, in percent, published for front ends.
pub const MIN_CONFIDENCE: u32 = 85;

/// Share of the reward, in percent, that an executor puts at stake.
pub const STAKE_PERCENT: i128 = 10;

/// Length, in seconds, of every reward stream.
pub const STREAM_DURATION: u64 = 300;

/// An account identity, written as its textual address.
#[derive(Debug)]
pub struct Principal {
    pub key: String,
}

impl Principal {
    pub fn new(key: String) -> (r: Principal)
        ensures
            r.key == key,
    {
        Principal { key }
    }

    /// A copy of this identity.
    pub fn duplicate(&self) -> (r: Principal)
        ensures
            r == *self,
    {
        Principal { key: self.key.clone() }
    }

    /// Whether both values name the same account.
    pub fn same_as(&self, other: &Principal) -> (r: bool)
        ensures
            r == (self.key@ == other.key@),
    {
        self.key == other.key
    }
}

/// Lifecycle status of an execution.
#[derive(Clone, Copy, Debug, PartialEq, Eq, Structural)]
pub enum ExecStatus {
    /// Submitted, awaiting the oracle's judgment.
    Pending,
    /// Approved by the oracle; the dispute window is open.
    Approved,
    /// The creator raised a dispute within the window.
    Disputed,
    /// Dispute dismissed: the claim was legitimate and the stream runs.
    Cleared,
    /// Dispute upheld: the claim was illegitimate and the stake is forfeit.
    Slashed,
    /// The window passed without dispute and the stream runs.
    Finalized,
    /// The oracle rejected the claim.
    Rejected,
}

/// A reward-bearing listing.
#[derive(Debug)]
pub struct Strategy {
    pub creator: Principal,
    pub reward_amount: i128,
    pub active: bool,
}

/// An executor's claim of work against a strategy.
#[derive(Debug)]
pub struct Execution {
    pub executor: Principal,
    pub strategy_id: u64,
    pub verified: bool,
    pub status: ExecStatus,
    pub stake_amount: i128,
    pub approved_at: u64,
    pub confidence: u32,
}

/// A time-linear payout of a reward.
#[derive(Clone, Copy, Debug, PartialEq, Eq, Structural)]
pub struct RewardStream {
    pub total_amount: i128,
    pub start_time: u64,
    pub end_time: u64,
    pub withdrawn: i128,
}

/// A challenge raised by a strategy's creator against an approved execution.
#[derive(Debug)]
pub struct Dispute {
    pub challenger: Principal,
    pub execution_id: u64,
    pub reason_code: u32,
    pub created_at: u64,
    pub resolved: bool,
    pub upheld: bool,
}

/// The keys under which the ledger keeps its records and counters.
#[derive(Clone, Copy, Debug, PartialEq, Eq, Structural)]
pub enum DataKey {
    StrategyCount,
    ExecutionCount,
    DisputeCount,
    Strategy(u64),
    Execution(u64),
    Dispute(u64),
    ExecDispute(u64),
    Stream(u64),
}

/// Why an operation was refused. A refused operation changes nothing.
#[derive(Clone, Copy, Debug, PartialEq, Eq, Structural)]
pub enum Error {
    NotFound,
    InvalidAmount,
    InvalidRange,
    Unauthenticated,
    Unauthorized,
    InvalidState,
    WindowExpired,
    WindowNotExpired,
    StrategyInactive,
    NotReleasable,
    InsufficientAvailable,
}

} // verus!
