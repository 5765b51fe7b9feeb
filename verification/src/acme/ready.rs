//! Waiting for an order to become ready after its challenges were answered.
use vstd::prelude::*;
use vstd::arithmetic::power2::{lemma2_to64, lemma_pow2_unfold, pow2};

use super::{AcmeError, OrderStatus};

verus! {

/// The order is polled at most this many times.
pub open spec fn max_polls() -> nat {
    9
}

/// The polling schedule: wait `delay_secs`, refresh the order, and repeat with the delay
/// doubled until the order is ready or invalid, or `tries` reaches ten.
pub struct ReadyPoll {
    /// Number of the next refresh, from one.
    pub tries: u8,
    /// Seconds to wait before the next refresh.
    pub delay_secs: u64,
}

/// What to do after a refresh of the order.
#[derive(Clone, Copy, Debug, PartialEq, Eq, Structural)]
pub enum ReadyStep {
    /// The order is ready.
    Ready,
    /// Stop with this error.
    Fail(AcmeError),
    /// Wait this many seconds, then refresh again.
    Wait { secs: u64 },
}

/// The schedule before the first refresh.
pub open spec fn ready_poll_start() -> ReadyPoll {
    ReadyPoll { tries: 1, delay_secs: 1 }
}

/// The schedule after a refresh that found the order in `status`, and the step taken.
pub open spec fn ready_poll_next(s: ReadyPoll, status: OrderStatus) -> (ReadyPoll, ReadyStep) {
    if status == OrderStatus::Ready {
        (s, ReadyStep::Ready)
    } else if status == OrderStatus::Invalid {
        (s, ReadyStep::Fail(AcmeError::OrderInvalid))
    } else {
        let n = ReadyPoll { tries: (s.tries + 1) as u8, delay_secs: (s.delay_secs * 2) as u64 };
        if n.tries < 10 {
            (n, ReadyStep::Wait { secs: n.delay_secs })
        } else {
            (n, ReadyStep::Fail(AcmeError::OrderNotReady))
        }
    }
}

/// The schedule after `k` refreshes that found the order neither ready nor invalid.
pub open spec fn ready_poll_after_waits(k: nat) -> ReadyPoll
    decreases k,
{
    if k == 0 {
        ready_poll_start()
    } else {
        ready_poll_next(ready_poll_after_waits((k - 1) as nat), OrderStatus::Pending).0
    }
}

impl ReadyPoll {
    /// The number of the next refresh is between one and the maximum, and the delay is
    /// two to the power of the refreshes already made.
    pub open spec fn wf(&self) -> bool {
        &&& 1 <= self.tries <= max_polls()
        &&& self.delay_secs == pow2((self.tries - 1) as nat)
    }

    /// The schedule of the first refresh, after one second.
    pub fn new() -> (r: ReadyPoll)
        ensures
            r == ready_poll_start(),
            r.wf(),
    {
        proof {
            lemma2_to64();
        }
        ReadyPoll { tries: 1, delay_secs: 1 }
    }

    /// Takes the status a refresh found.
    pub fn observe(&mut self, status: OrderStatus) -> (step: ReadyStep)
        requires
            old(self).wf(),
        ensures
            (*final(self), step) == ready_poll_next(*old(self), status),
            step is Wait ==> final(self).wf(),
    {
        match status {
            OrderStatus::Ready => ReadyStep::Ready,
            OrderStatus::Invalid => ReadyStep::Fail(AcmeError::OrderInvalid),
            _ => {
                proof {
                    lemma2_to64();
                    lemma_pow2_unfold(self.tries as nat);
                }
                self.delay_secs = self.delay_secs * 2;
                self.tries = self.tries + 1;
                if self.tries < 10 {
                    ReadyStep::Wait { secs: self.delay_secs }
                } else {
                    ReadyStep::Fail(AcmeError::OrderNotReady)
                }
            },
        }
    }
}

/// Waiting for readiness refreshes the order at most nine times: after `k < 9` refreshes
/// that found it neither ready nor invalid, the next wait is `2^k` seconds before refresh
/// `k + 1`; the ninth such refresh ends the wait with [`AcmeError::OrderNotReady`].
pub proof fn lemma_ready_poll_schedule(k: nat)
    requires
        k < max_polls(),
    ensures
        ready_poll_after_waits(k) == (ReadyPoll { tries: (k + 1) as u8, delay_secs: pow2(k) as u64 }),
        ready_poll_after_waits(k).wf(),
        k + 1 < max_polls() ==> ready_poll_next(ready_poll_after_waits(k), OrderStatus::Pending).1
            == (ReadyStep::Wait { secs: pow2(k + 1) as u64 }),
        k + 1 == max_polls() ==> ready_poll_next(ready_poll_after_waits(k), OrderStatus::Pending).1
            == ReadyStep::Fail(AcmeError::OrderNotReady),
    decreases k,
{
    lemma2_to64();
    if k > 0 {
        lemma_ready_poll_schedule((k - 1) as nat);
        lemma_pow2_unfold(k);
    }
    lemma_pow2_unfold(k + 1);
}

/// Any status other than ready or invalid is waited out the same way.
pub proof fn lemma_ready_poll_other_status(s: ReadyPoll, status: OrderStatus)
    requires
        status != OrderStatus::Ready,
        status != OrderStatus::Invalid,
    ensures
        ready_poll_next(s, status) == ready_poll_next(s, OrderStatus::Pending),
{
}

/// A refresh that finds the order ready ends the wait with success, and one that finds
/// it invalid ends it with [`AcmeError::OrderInvalid`], whatever the schedule.
pub proof fn lemma_ready_poll_final_status(s: ReadyPoll)
    ensures
        ready_poll_next(s, OrderStatus::Ready) == (s, ReadyStep::Ready),
        ready_poll_next(s, OrderStatus::Invalid) == (s, ReadyStep::Fail(AcmeError::OrderInvalid)),
{
}

} // verus!
