//! When a failed upstream call is tried again.

use vstd::prelude::*;

verus! {

/// Half-seconds of waiting are counted in milliseconds.
pub const RETRY_STEP_MS: u64 = 500;

/// The state of a call that may be tried again.
#[derive(Debug)]
pub struct RetryContext {
    /// Number of failed attempts so far.
    pub attempt: u32,
    /// Number of attempts that may be repeated.
    pub max_retry: u32,
    /// The status codes after which a call is tried again.
    pub retry_codes: Vec<u16>,
}

impl RetryContext {
    /// Whether a call that failed with the given status is tried again.
    pub open spec fn spec_should_retry(&self, status: u16) -> bool {
        self.attempt < self.max_retry && self.retry_codes@.contains(status)
    }

    /// The time to wait before attempt number `attempt` is repeated, in
    /// milliseconds: half a second for each attempt so far and one more.
    pub open spec fn spec_delay_ms(attempt: u32) -> int {
        RETRY_STEP_MS * (attempt + 1)
    }

    /// A context without failed attempts.
    pub fn with_limits(max_retry: u32, retry_codes: Vec<u16>) -> (r: Self)
        ensures
            r.attempt == 0,
            r.max_retry == max_retry,
            r.retry_codes == retry_codes,
    {
        RetryContext { attempt: 0, max_retry, retry_codes }
    }

    /// Whether a call that failed with the given status is tried again.
    pub fn should_retry(&self, status: u16) -> (r: bool)
        ensures
            r == self.spec_should_retry(status),
    {
        if self.attempt >= self.max_retry {
            return false;
        }
        let mut i: usize = 0;
        while i < self.retry_codes.len()
            invariant
                i <= self.retry_codes.len(),
                self.attempt < self.max_retry,
                forall|j: int| 0 <= j < i ==> self.retry_codes[j] != status,
            decreases self.retry_codes.len() - i,
        {
            if self.retry_codes[i] == status {
                assert(self.retry_codes@[i as int] == status);
                return true;
            }
            i += 1;
        }
        false
    }

    /// Counts a failed attempt and says how long to wait, in milliseconds,
    /// before the call is repeated; nothing if the call is not repeated.
    /// A failure without a status is never repeated and is not counted.
    pub fn on_failure(&mut self, status: Option<u16>) -> (delay: Option<u64>)
        requires
            status is Some ==> old(self).attempt < u32::MAX,
        ensures
            final(self).max_retry == old(self).max_retry,
            final(self).retry_codes == old(self).retry_codes,
            final(self).attempt == if status is Some {
                old(self).attempt + 1
            } else {
                old(self).attempt as int
            },
            delay is Some <==> (status is Some && final(self).spec_should_retry(status->0)),
            delay matches Some(ms) ==> ms == RetryContext::spec_delay_ms(final(self).attempt),
    {
        match status {
            Some(code) => {
                self.attempt = self.attempt + 1;
                if self.should_retry(code) {
                    Some(RETRY_STEP_MS * (self.attempt as u64 + 1))
                } else {
                    None
                }
            },
            None => None,
        }
    }
}

} // verus!
