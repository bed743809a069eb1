mod contract;
mod env;
mod laws;
mod ledger;
mod stream;
mod types;

pub use contract::{stake_of, StratFlowContract};
pub use env::Env;
pub use laws::{
    lemma_dispute_window_boundary, lemma_earned_monotone, lemma_empty_payouts_covered,
    lemma_payouts_covered_later, lemma_evolution_transitive,
    lemma_fresh_stream_within_earned, lemma_payout_stays_within_earned, lemma_rejected_never_releases,
    lemma_stake_fixed_at_submission, lemma_verify_once, lemma_withdrawal_within_earned,
};
pub use ledger::{is_disputed, is_releasable, stake_for, within_dispute_window, Ledger};
pub use stream::lemma_share_bounded;
pub use types::{
    DataKey, Dispute, Error, ExecStatus, Execution, Principal, RewardStream, Strategy,
    DISPUTE_WINDOW, MIN_CONFIDENCE, STAKE_PERCENT, STREAM_DURATION,
};
