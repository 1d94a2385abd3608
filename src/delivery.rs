use vstd::prelude::*;

verus! {

/// The wait, in seconds, after a rate-limited answer that names none.
pub const DEFAULT_RETRY_AFTER: u64 = 5;

/// The status of an accepted batch.
pub const STATUS_OK: u16 = 200;

/// The status of a rate-limited request.
pub const STATUS_TOO_MANY_REQUESTS: u16 = 429;

/// The wait that a rate-limited answer asks for: its `retry_after`, or the
/// default where it is absent or negative.
pub open spec fn retry_delay_spec(retry_after: Option<i64>) -> int {
    match retry_after {
        Some(n) => if n >= 0 {
            n as int
        } else {
            DEFAULT_RETRY_AFTER as int
        },
        None => DEFAULT_RETRY_AFTER as int,
    }
}

/// The seconds to wait before sending again after a rate-limited answer.
pub fn retry_delay(retry_after: Option<i64>) -> (r: u64)
    ensures
        r as int == retry_delay_spec(retry_after),
{
    match retry_after {
        Some(n) => if n >= 0 {
            n as u64
        } else {
            DEFAULT_RETRY_AFTER
        },
        None => DEFAULT_RETRY_AFTER,
    }
}

/// What the sender does after an answer of the destination.
pub enum DeliveryAction {
    /// The batch was accepted; the cursor may move to this timestamp.
    Delivered(i32),
    /// Rate limited: wait this many seconds, then send the same batch again.
    Wait(u64),
    /// The destination refused the batch with this status.
    Failed(u16),
    /// Rate limited once more after the last allowed retry.
    GaveUp,
}

/// The delivery of one message: its timestamp, how many times it was sent
/// again after a rate limit, and the most retries allowed (none: no limit).
pub struct Delivery {
    pub date: i32,
    pub retries: u64,
    pub max_retries: Option<u64>,
}

/// Another retry is allowed after `retries` of them.
pub open spec fn may_retry(retries: u64, max_retries: Option<u64>) -> bool {
    match max_retries {
        Some(m) => retries < m,
        None => true,
    }
}

impl Delivery {
    /// A delivery of the message with timestamp `date` that has not been sent yet.
    pub fn new(date: i32, max_retries: Option<u64>) -> (r: Delivery)
        ensures
            r.date == date,
            r.retries == 0,
            r.max_retries == max_retries,
    {
        Delivery { date, retries: 0, max_retries }
    }

    /// Decides on the destination's answer: its status, and the `retry_after`
    /// that a rate-limited answer carries.
    pub fn on_response(&mut self, status: u16, retry_after: Option<i64>) -> (r: DeliveryAction)
        ensures
            final(self).date == old(self).date,
            final(self).max_retries == old(self).max_retries,
            status == STATUS_OK ==> r == DeliveryAction::Delivered(old(self).date)
                && final(self).retries == old(self).retries,
            status == STATUS_TOO_MANY_REQUESTS && may_retry(old(self).retries, old(self).max_retries)
                ==> r == DeliveryAction::Wait(retry_delay_spec(retry_after) as u64)
                && final(self).retries == (if old(self).max_retries is Some {
                old(self).retries + 1
            } else {
                old(self).retries as int
            }),
            status == STATUS_TOO_MANY_REQUESTS && !may_retry(old(self).retries, old(self).max_retries)
                ==> r == DeliveryAction::GaveUp && final(self).retries == old(self).retries,
            status != STATUS_OK && status != STATUS_TOO_MANY_REQUESTS ==> r
                == DeliveryAction::Failed(status) && final(self).retries == old(self).retries,
    {
        if status == STATUS_OK {
            DeliveryAction::Delivered(self.date)
        } else if status == STATUS_TOO_MANY_REQUESTS {
            match self.max_retries {
                Some(m) => {
                    if self.retries < m {
                        self.retries = self.retries + 1;
                        DeliveryAction::Wait(retry_delay(retry_after))
                    } else {
                        DeliveryAction::GaveUp
                    }
                },
                None => DeliveryAction::Wait(retry_delay(retry_after)),
            }
        } else {
            DeliveryAction::Failed(status)
        }
    }
}

} // verus!
