//! What to do after an attempt to send a message.

use crate::status::Status;
use vstd::prelude::*;

verus! {

/// How often a failed send is tried again, and how long to wait in between.
///
/// The wait grows with every failure: after the `n`-th failed attempt it is
/// `n` times the base delay, and never more than the longest delay.
#[derive(Clone, Copy, Debug, PartialEq, Eq, Structural)]
pub struct RetryPolicy {
    pub max_retries: u32,
    pub base_delay_ms: u64,
    pub max_delay_ms: u64,
}

/// What follows an attempt to send.
#[derive(Debug)]
pub enum SendStep {
    /// The message is sent. Nothing is left to do.
    Delivered,
    /// The attempt failed. Wait for `delay_ms` milliseconds and send again.
    RetryAfter { delay_ms: u64 },
    /// The last allowed attempt failed. The message is dropped, and the
    /// failure of that attempt is to be reported.
    GiveUp { attempts: u32, failure: Status },
}

impl RetryPolicy {
    /// The wait after the `attempt`-th failed attempt, in milliseconds.
    pub open spec fn spec_delay_ms(self, attempt: u32) -> u64 {
        if self.base_delay_ms * attempt <= self.max_delay_ms {
            (self.base_delay_ms * attempt) as u64
        } else {
            self.max_delay_ms
        }
    }

    #[verifier::when_used_as_spec(spec_delay_ms)]
    pub fn delay_ms(self, attempt: u32) -> (r: u64)
        ensures
            r == self.spec_delay_ms(attempt),
            r <= self.max_delay_ms,
    {
        let times: u64 = attempt as u64;
        match self.base_delay_ms.checked_mul(times) {
            Some(delay) => if delay <= self.max_delay_ms {
                delay
            } else {
                self.max_delay_ms
            },
            None => self.max_delay_ms,
        }
    }

    /// What follows the `attempt`-th attempt to send one message, which ended
    /// as `outcome` says. Attempts are counted from 1.
    ///
    /// A failure is followed by another attempt as long as fewer than
    /// `max_retries` retries were made; after that the message is given up,
    /// and the failure is handed back for the report.
    pub fn after_attempt(&self, attempt: u32, outcome: Result<(), Status>) -> (r: SendStep)
        ensures
            match outcome {
                Ok(_) => r is Delivered,
                Err(failure) => if attempt <= self.max_retries {
                    r == (SendStep::RetryAfter { delay_ms: self.spec_delay_ms(attempt) })
                } else {
                    r == (SendStep::GiveUp { attempts: attempt, failure })
                },
            },
    {
        match outcome {
            Ok(_) => SendStep::Delivered,
            Err(failure) => {
                if attempt <= self.max_retries {
                    SendStep::RetryAfter { delay_ms: self.delay_ms(attempt) }
                } else {
                    SendStep::GiveUp { attempts: attempt, failure }
                }
            },
        }
    }
}

} // verus!
