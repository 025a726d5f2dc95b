//! The poll-loop state machine: it owns the pagination cursor, decides what
//! the host does next (fetch, publish, sleep, stop), and advances the cursor
//! only from a successfully fetched, non-empty page.
//!
//! The host performs the I/O (the HTTP fetch, the broker sends, the timer
//! wait) and hands the outcome back as an [`Event`]; cancellation is an
//! event checked like any other, so the loop can be embedded and stopped
//! cooperatively.

use vstd::prelude::*;

use crate::listing::{FetchError, ListingItem, ListingPage};
use crate::RedditPost;

verus! {

/// Where the loop stands: one iteration runs strictly
/// `Idle -> Fetching -> Publishing -> Sleeping -> Fetching -> ...`,
/// skipping `Publishing` when there is nothing to publish, until cancelled.
#[derive(Clone, Copy, PartialEq, Eq, Structural)]
pub enum Phase {
    Idle,
    Fetching,
    Publishing,
    Sleeping,
    Stopped,
}

/// What the host reports to the loop.
pub enum Event {
    /// The timer fired (or the loop just started).
    Tick,
    /// The fetch the loop asked for settled, with the whole page or the error.
    FetchDone(Result<ListingPage, FetchError>),
    /// Every publish of the batch settled, success or failure per record.
    PublishDone,
    /// The host asks the loop to stop.
    Cancel,
}

/// What the loop asks the host to do next.
pub enum Action {
    /// Fetch one listing page with these parameters; `after` is the cursor,
    /// absent on the first iteration and after a restart.
    Fetch { source_id: String, limit: u32, after: Option<String> },
    /// Publish one record per item, in this order.
    Publish(Vec<ListingItem>),
    /// Sleep this many seconds, then report a `Tick`.
    Sleep { seconds: u64 },
    /// Wind down: the loop is finished.
    Stop,
    /// The event did not belong to the current phase; do nothing.
    Nothing,
}

/// The mathematical value of a cursor: the identifier of the last item seen,
/// or absent.
pub open spec fn cursor_view(c: Option<String>) -> Option<Seq<char>> {
    match c {
        Some(s) => Some(s@),
        None => None,
    }
}

/// The poll-loop orchestrator: the cursor and the iteration parameters.
/// `max_consecutive_failures` of 0 keeps the default unbounded
/// retry-with-delay policy; any other value stops the loop once that many
/// fetches in a row have failed.
pub struct Orchestrator {
    pub phase: Phase,
    pub cursor: Option<String>,
    pub source_id: String,
    pub limit: u32,
    pub interval_secs: u64,
    pub consecutive_failures: u32,
    pub max_consecutive_failures: u32,
}

/// The fields that no event may change.
pub open spec fn spec_config_unchanged(a: Orchestrator, b: Orchestrator) -> bool {
    a.source_id == b.source_id && a.limit == b.limit && a.interval_secs == b.interval_secs
        && a.max_consecutive_failures == b.max_consecutive_failures
}

/// The failure count after one more failed fetch.
pub open spec fn spec_bumped_failures(n: u32) -> u32 {
    if n < u32::MAX {
        (n + 1) as u32
    } else {
        n
    }
}

impl Orchestrator {
    /// A fresh loop: idle, with an absent cursor (start from the newest
    /// item; the cursor is never persisted across restarts).
    pub fn new(source_id: String, limit: u32, interval_secs: u64, max_consecutive_failures: u32)
        -> (r: Orchestrator)
        ensures
            r.phase is Idle,
            r.cursor is None,
            r.source_id == source_id,
            r.limit == limit,
            r.interval_secs == interval_secs,
            r.consecutive_failures == 0,
            r.max_consecutive_failures == max_consecutive_failures,
    {
        Orchestrator {
            phase: Phase::Idle,
            cursor: None,
            source_id,
            limit,
            interval_secs,
            consecutive_failures: 0,
            max_consecutive_failures,
        }
    }

    /// One transition of the loop.
    ///
    /// The cursor advances exactly on a successful fetch of a non-empty
    /// page, and then to the identifier of that page's last item; an empty
    /// or failed fetch leaves it unchanged, so the next tick retries with
    /// the same `after` value. Publish outcomes never touch the cursor: it
    /// already advanced at fetch time (at-least-once, best-effort delivery).
    pub fn step(&mut self, event: Event) -> (action: Action)
        ensures
            spec_config_unchanged(*old(self), *final(self)),
            // a cancelled loop stops, whatever it was doing
            (event is Cancel) ==> final(self).phase is Stopped && action is Stop
                && final(self).cursor == old(self).cursor
                && final(self).consecutive_failures == old(self).consecutive_failures,
            // a tick starts the next iteration's fetch with the current cursor
            (event is Tick && (old(self).phase is Idle || old(self).phase is Sleeping))
                ==> final(self).phase is Fetching && final(self).cursor == old(self).cursor
                && final(self).consecutive_failures == old(self).consecutive_failures
                && (action matches Action::Fetch { source_id, limit, after }
                    && source_id == old(self).source_id && limit == old(self).limit
                    && after == old(self).cursor),
            (event is Tick && !(old(self).phase is Idle || old(self).phase is Sleeping))
                ==> *final(self) == *old(self) && action is Nothing,
            // a successful fetch of a non-empty page advances the cursor to the
            // last item's identifier and hands the items over for publishing
            old(self).phase is Fetching ==> (event matches Event::FetchDone(Ok(page)) ==> ((
            page.items@.len() > 0) ==> (final(self).phase is Publishing && cursor_view(
                final(self).cursor) == Some(page.items@.last()@.2) && final(
                self).consecutive_failures == 0 && (action matches
            Action::Publish(items) && items == page.items)))),
            // a successful fetch of an empty page leaves the cursor unchanged
            old(self).phase is Fetching ==> (event matches Event::FetchDone(Ok(page)) ==> ((
            page.items@.len() == 0) ==> (final(self).phase is Sleeping && final(self).cursor
                == old(self).cursor && final(self).consecutive_failures == 0 && (action matches
            Action::Sleep { seconds } && seconds == old(self).interval_secs)))),
            // a failed fetch leaves the cursor unchanged; the next tick retries,
            // unless the configured failure bound has just been reached
            (old(self).phase is Fetching && event matches Event::FetchDone(Err(e)))
                ==> final(self).cursor == old(self).cursor && final(self).consecutive_failures
                == spec_bumped_failures(old(self).consecutive_failures)
                && (if old(self).max_consecutive_failures > 0 && spec_bumped_failures(
                    old(self).consecutive_failures,
                ) >= old(self).max_consecutive_failures {
                    final(self).phase is Stopped && action is Stop
                } else {
                    final(self).phase is Sleeping && (action matches Action::Sleep { seconds }
                        && seconds == old(self).interval_secs)
                }),
            (!(old(self).phase is Fetching) && event matches Event::FetchDone(o))
                ==> *final(self) == *old(self) && action is Nothing,
            // publish outcomes only move the loop on to its sleep
            (event is PublishDone && old(self).phase is Publishing)
                ==> final(self).phase is Sleeping && final(self).cursor == old(self).cursor
                && final(self).consecutive_failures == old(self).consecutive_failures
                && (action matches Action::Sleep { seconds } && seconds == old(self).interval_secs),
            (event is PublishDone && !(old(self).phase is Publishing))
                ==> *final(self) == *old(self) && action is Nothing,
    {
        match event {
            Event::Cancel => {
                self.phase = Phase::Stopped;
                Action::Stop
            },
            Event::Tick => {
                if matches!(self.phase, Phase::Idle) || matches!(self.phase, Phase::Sleeping) {
                    self.phase = Phase::Fetching;
                    let after = match &self.cursor {
                        Some(s) => Some(s.clone()),
                        None => None,
                    };
                    Action::Fetch {
                        source_id: self.source_id.clone(),
                        limit: self.limit,
                        after,
                    }
                } else {
                    Action::Nothing
                }
            },
            Event::FetchDone(outcome) => {
                if !matches!(self.phase, Phase::Fetching) {
                    return Action::Nothing;
                }
                match outcome {
                    Ok(page) => {
                        self.consecutive_failures = 0;
                        let n = page.items.len();
                        if n > 0 {
                            self.cursor = Some(page.items[n - 1].item_id.clone());
                            self.phase = Phase::Publishing;
                            Action::Publish(page.items)
                        } else {
                            self.phase = Phase::Sleeping;
                            Action::Sleep { seconds: self.interval_secs }
                        }
                    },
                    Err(_) => {
                        if self.consecutive_failures < u32::MAX {
                            self.consecutive_failures = self.consecutive_failures + 1;
                        }
                        if self.max_consecutive_failures > 0 && self.consecutive_failures
                            >= self.max_consecutive_failures {
                            self.phase = Phase::Stopped;
                            Action::Stop
                        } else {
                            self.phase = Phase::Sleeping;
                            Action::Sleep { seconds: self.interval_secs }
                        }
                    },
                }
            },
            Event::PublishDone => {
                if matches!(self.phase, Phase::Publishing) {
                    self.phase = Phase::Sleeping;
                    Action::Sleep { seconds: self.interval_secs }
                } else {
                    Action::Nothing
                }
            },
        }
    }
}

/// Relies on `chrono::Utc::now().timestamp()`: the wall-clock time as whole
/// seconds since the Unix epoch. The result depends on the clock, so nothing
/// is promised of it.
#[verifier::external_body]
fn now_unix_seconds() -> i64 {
    chrono::Utc::now().timestamp()
}

/// Builds the canonical record for one fetched item, stamped with the
/// wall-clock time at the moment it is about to be published. Title and
/// content carry over unchanged; the timestamp is whatever the clock read.
pub fn make_record(item: &ListingItem) -> (r: RedditPost)
    ensures
        r.title@ == item@.0,
        r.content@ == item@.1,
{
    RedditPost {
        title: item.title.clone(),
        content: item.content.clone(),
        timestamp: now_unix_seconds(),
    }
}

} // verus!
