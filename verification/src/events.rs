//! What the engine reports of itself: one event for each thing worth
//! knowing, each with a level, none of them formatted text.

use crate::cache::RefreshReport;
use crate::retry::SendStep;
use crate::router::{Dispatch, DropReason, RuleHandle};
use crate::status::{Code, Status};
use vstd::prelude::*;

verus! {

/// How loudly an event is reported.
#[derive(Clone, Copy, Debug, PartialEq, Eq, Structural)]
pub enum Level {
    Debug,
    Info,
    Warn,
    Error,
}

/// Something that happened in the engine.
#[derive(Clone, Copy, Debug, PartialEq, Eq, Structural)]
pub enum Event {
    /// A forwarding rule was added.
    RuleAdded(RuleHandle),
    /// A forwarding rule was asked for that is already active.
    RuleRefused,
    /// A forwarding rule was removed.
    RuleRemoved(RuleHandle),
    /// A message was forwarded on the transport with this number.
    MessageForwarded(u64),
    /// A message was not forwarded.
    MessageDropped(DropReason),
    /// A message arrived while the queue of its rule was full, and was
    /// turned away.
    Backpressure,
    /// The attempt with this number to send a message failed; it is tried
    /// again.
    SendFailed(u32),
    /// A message was given up after this many attempts to send it.
    SendAbandoned(u32),
    /// The cache was refreshed.
    CacheRefreshed(RefreshReport),
    /// The cache could not be refreshed, and is as it was.
    CacheRefreshFailed(Code),
}

impl Event {
    /// Whether the event tells of something that went wrong. A publication
    /// that nobody subscribed to, a message kept from looping back and a
    /// message for a removed rule are dropped in the normal course of
    /// things.
    pub open spec fn spec_is_failure(self) -> bool {
        match self {
            Event::RuleRefused => true,
            Event::Backpressure => true,
            Event::SendFailed(_) => true,
            Event::SendAbandoned(_) => true,
            Event::CacheRefreshFailed(_) => true,
            Event::CacheRefreshed(report) => report.skipped > 0,
            _ => false,
        }
    }

    #[verifier::when_used_as_spec(spec_is_failure)]
    pub fn is_failure(self) -> (r: bool)
        ensures
            r == self.spec_is_failure(),
    {
        match self {
            Event::RuleRefused => true,
            Event::Backpressure => true,
            Event::SendFailed(_) => true,
            Event::SendAbandoned(_) => true,
            Event::CacheRefreshFailed(_) => true,
            Event::CacheRefreshed(report) => report.skipped > 0,
            _ => false,
        }
    }

    /// The level of the event: `Error` for a message that was given up and
    /// a refresh that failed, `Warn` for every other failure, `Debug` for
    /// what happens to single messages in the normal course of things, and
    /// `Info` for the rest.
    pub open spec fn spec_level(self) -> Level {
        match self {
            Event::SendAbandoned(_) => Level::Error,
            Event::CacheRefreshFailed(_) => Level::Error,
            Event::MessageForwarded(_) => Level::Debug,
            Event::MessageDropped(_) => Level::Debug,
            _ => if self.spec_is_failure() {
                Level::Warn
            } else {
                Level::Info
            },
        }
    }

    #[verifier::when_used_as_spec(spec_level)]
    pub fn level(self) -> (r: Level)
        ensures
            r == self.spec_level(),
    {
        match self {
            Event::SendAbandoned(_) => Level::Error,
            Event::CacheRefreshFailed(_) => Level::Error,
            Event::MessageForwarded(_) => Level::Debug,
            Event::MessageDropped(_) => Level::Debug,
            _ => if self.is_failure() {
                Level::Warn
            } else {
                Level::Info
            },
        }
    }

    /// The event that tells of an attempt to add a rule.
    pub fn of_add(outcome: &Result<RuleHandle, Status>) -> (r: Event)
        ensures
            r == match *outcome {
                Ok(handle) => Event::RuleAdded(handle),
                Err(_) => Event::RuleRefused,
            },
    {
        match outcome {
            Ok(handle) => Event::RuleAdded(*handle),
            Err(_) => Event::RuleRefused,
        }
    }

    /// The event that tells what became of a message.
    pub fn of_dispatch(dispatch: &Dispatch) -> (r: Event)
        ensures
            r == match *dispatch {
                Dispatch::Forward { transport, .. } => Event::MessageForwarded(transport),
                Dispatch::Dropped(reason) => Event::MessageDropped(reason),
            },
    {
        match dispatch {
            Dispatch::Forward { transport, .. } => Event::MessageForwarded(*transport),
            Dispatch::Dropped(reason) => Event::MessageDropped(*reason),
        }
    }

    /// The event that tells of the `attempt`-th attempt to send a message,
    /// if there is anything to tell: a delivery is told of when the message
    /// is dispatched.
    pub fn of_send_step(attempt: u32, step: &SendStep) -> (r: Option<Event>)
        ensures
            r == match *step {
                SendStep::Delivered => None,
                SendStep::RetryAfter { .. } => Some(Event::SendFailed(attempt)),
                SendStep::GiveUp { attempts, .. } => Some(Event::SendAbandoned(attempts)),
            },
    {
        match step {
            SendStep::Delivered => None,
            SendStep::RetryAfter { .. } => Some(Event::SendFailed(attempt)),
            SendStep::GiveUp { attempts, .. } => Some(Event::SendAbandoned(*attempts)),
        }
    }

    /// The event that tells of a refresh of the cache.
    pub fn of_refresh(outcome: &Result<RefreshReport, Status>) -> (r: Event)
        ensures
            r == match *outcome {
                Ok(report) => Event::CacheRefreshed(report),
                Err(status) => Event::CacheRefreshFailed(status.code),
            },
    {
        match outcome {
            Ok(report) => Event::CacheRefreshed(*report),
            Err(status) => Event::CacheRefreshFailed(status.code),
        }
    }
}

} // verus!
