use vstd::prelude::*;
use vstd::arithmetic::div_mod::{
    lemma_div_is_ordered, lemma_div_multiples_vanish, lemma_fundamental_div_mod,
    lemma_hoist_over_denominator, lemma_mod_bound, lemma_div_pos_is_pos,
};
use vstd::arithmetic::mul::{lemma_mul_inequality, lemma_mul_nonnegative};
use crate::types::{RewardStream, STREAM_DURATION};

verus! {

impl RewardStream {
    /// A stream is well formed when it has a positive length, a positive
    /// total, and has paid out no more than its total.
    pub open spec fn wf(self) -> bool {
        &&& self.start_time < self.end_time
        &&& self.total_amount > 0
        &&& 0 <= self.withdrawn <= self.total_amount
    }

    pub open spec fn duration(self) -> int {
        self.end_time - self.start_time
    }

    /// Seconds of the stream that have run by `now`, clamped to its length.
    pub open spec fn elapsed_at(self, now: u64) -> int {
        if now >= self.end_time {
            self.duration()
        } else if now <= self.start_time {
            0
        } else {
            now - self.start_time
        }
    }

    /// Amount unlocked by `now`: the total in proportion to the time elapsed,
    /// rounded down.
    pub open spec fn earned_at(self, now: u64) -> int {
        self.total_amount * self.elapsed_at(now) / self.duration()
    }

    /// Amount unlocked by `now` and not yet withdrawn.
    pub open spec fn available_at(self, now: u64) -> int {
        self.earned_at(now) - self.withdrawn
    }

    /// The fresh stream of a reward that starts paying out at `now`.
    pub open spec fn starting(total_amount: i128, now: u64) -> RewardStream {
        RewardStream {
            total_amount,
            start_time: now,
            end_time: (now + STREAM_DURATION) as u64,
            withdrawn: 0,
        }
    }

    /// Starts a stream of `total_amount` at `now`.
    pub fn start(total_amount: i128, now: u64) -> (r: RewardStream)
        requires
            total_amount > 0,
            now <= u64::MAX - STREAM_DURATION,
        ensures
            r == RewardStream::starting(total_amount, now),
            r.wf(),
    {
        RewardStream { total_amount, start_time: now, end_time: now + STREAM_DURATION, withdrawn: 0 }
    }

    /// Amount unlocked by `now`.
    pub fn earned(&self, now: u64) -> (r: i128)
        requires
            self.wf(),
        ensures
            r == self.earned_at(now),
            0 <= r <= self.total_amount,
    {
        let duration: u64 = self.end_time - self.start_time;
        let elapsed: u64 = if now >= self.end_time {
            duration
        } else if now <= self.start_time {
            0
        } else {
            now - self.start_time
        };
        // Split the total as whole multiples of the duration plus a remainder,
        // so that no intermediate product exceeds its type.
        let whole: i128 = self.total_amount / (duration as i128);
        let rest: i128 = self.total_amount % (duration as i128);
        proof {
            lemma_split_share(self.total_amount as int, elapsed as int, duration as int);
            lemma_share_bounded(self.total_amount as int, elapsed as int, duration as int);
            lemma_mod_bound(self.total_amount as int, duration as int);
            lemma_mul_inequality(rest as int, duration as int, elapsed as int);
            lemma_mul_inequality(elapsed as int, duration as int, duration as int);
            lemma_mul_nonnegative(whole as int, elapsed as int);
            lemma_div_pos_is_pos(self.total_amount as int, duration as int);
            assert(duration as int * duration as int <= u64::MAX as int * u64::MAX as int) by (nonlinear_arith)
                requires duration as int <= u64::MAX;
        }
        let part: u128 = (rest as u128) * (elapsed as u128) / (duration as u128);
        proof {
            lemma_div_is_ordered(
                rest as int * elapsed as int,
                duration as int * duration as int,
                duration as int,
            );
            lemma_div_multiples_vanish(duration as int, duration as int);
        }
        whole * (elapsed as i128) + part as i128
    }

    /// Amount unlocked by `now` and not yet withdrawn.
    pub fn available(&self, now: u64) -> (r: i128)
        requires
            self.wf(),
        ensures
            r == self.available_at(now),
            r <= self.total_amount - self.withdrawn,
    {
        self.earned(now) - self.withdrawn
    }
}

/// Floor division of `total * elapsed` by `duration`, split over the quotient
/// and remainder of `total`.
proof fn lemma_split_share(total: int, elapsed: int, duration: int)
    requires
        total >= 0,
        0 <= elapsed <= duration,
        duration > 0,
    ensures
        total * elapsed / duration == (total / duration) * elapsed + (total % duration) * elapsed
            / duration,
{
    let q = total / duration;
    let m = total % duration;
    lemma_fundamental_div_mod(total, duration);
    lemma_hoist_over_denominator(m * elapsed, q * elapsed, duration as nat);
    assert(m * elapsed + q * elapsed * duration == total * elapsed) by (nonlinear_arith)
        requires
            total == duration * q + m,
    ;
}

/// The unlocked share lies between nothing and the whole.
pub proof fn lemma_share_bounded(total: int, elapsed: int, duration: int)
    requires
        total >= 0,
        0 <= elapsed <= duration,
        duration > 0,
    ensures
        0 <= total * elapsed / duration <= total,
{
    lemma_mul_inequality(elapsed, duration, total);
    lemma_mul_nonnegative(total, elapsed);
    lemma_div_is_ordered(total * elapsed, total * duration, duration);
    lemma_div_multiples_vanish(total, duration);
    lemma_div_pos_is_pos(total * elapsed, duration);
    assert(elapsed * total == total * elapsed) by (nonlinear_arith);
    assert(duration * total == total * duration) by (nonlinear_arith);
}

} // verus!
