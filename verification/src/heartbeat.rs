//! Liveness of one worker session, judged from the heartbeats it sends.

use crate::clock::{elapsed, Moment};
use vstd::prelude::*;

verus! {

/// What one poll of the monitor concludes.
#[derive(Debug, Clone, Copy, PartialEq, Eq, Structural)]
pub enum HeartbeatCheck {
    /// Polled too soon after the last signal to conclude anything.
    Healthy,
    /// An interval went by in silence; the count of such intervals in a row.
    Missed(u8),
    /// As many intervals in a row went by in silence as the monitor allows.
    Unhealthy,
}

/// The mathematical state of a [`HeartbeatMonitor`].
pub struct HeartbeatView {
    pub interval: u64,
    pub max_misses: u8,
    pub misses: u8,
    pub last_heartbeat: Option<i64>,
    pub last_signal: Option<u64>,
}

impl HeartbeatView {
    /// A monitor that has seen nothing yet.
    pub open spec fn fresh(interval: u64, max_misses: u8) -> HeartbeatView {
        HeartbeatView { interval, max_misses, misses: 0, last_heartbeat: None, last_signal: None }
    }

    /// The state after a reset at `now`.
    pub open spec fn reset(self, now: u64) -> HeartbeatView {
        HeartbeatView { misses: 0, last_heartbeat: None, last_signal: Some(now), ..self }
    }

    /// The state after a heartbeat at `now`.
    pub open spec fn beat(self, now: Moment) -> HeartbeatView {
        HeartbeatView {
            misses: 0,
            last_heartbeat: Some(now.wall),
            last_signal: Some(now.monotonic),
            ..self
        }
    }

    /// A poll at `now` comes before a whole interval has gone by since the
    /// last signal.
    pub open spec fn too_soon(self, now: u64) -> bool {
        self.last_signal is Some && elapsed(self.last_signal->0, now) < self.interval
    }

    /// The count of silent intervals once one more is added; it stops at 255.
    pub open spec fn next_misses(self) -> u8 {
        if self.misses == u8::MAX {
            u8::MAX
        } else {
            (self.misses + 1) as u8
        }
    }

    /// What a poll at `now` concludes.
    pub open spec fn verdict(self, now: u64) -> HeartbeatCheck {
        if self.too_soon(now) {
            HeartbeatCheck::Healthy
        } else if self.next_misses() >= self.max_misses {
            HeartbeatCheck::Unhealthy
        } else {
            HeartbeatCheck::Missed(self.next_misses())
        }
    }

    /// The state after a poll at `now`. Every poll starts the next interval
    /// at `now`; one that does not come too soon counts one more silent
    /// interval as well.
    pub open spec fn polled(self, now: u64) -> HeartbeatView {
        if self.too_soon(now) {
            HeartbeatView { last_signal: Some(now), ..self }
        } else {
            HeartbeatView { misses: self.next_misses(), last_signal: Some(now), ..self }
        }
    }
}

/// Counts the intervals that go by without a heartbeat.
#[derive(Debug, Clone, Copy)]
pub struct HeartbeatMonitor {
    interval: u64,
    max_misses: u8,
    consecutive_misses: u8,
    last_heartbeat_at: Option<i64>,
    last_signal_at: Option<u64>,
}

impl View for HeartbeatMonitor {
    type V = HeartbeatView;

    closed spec fn view(&self) -> HeartbeatView {
        HeartbeatView {
            interval: self.interval,
            max_misses: self.max_misses,
            misses: self.consecutive_misses,
            last_heartbeat: self.last_heartbeat_at,
            last_signal: self.last_signal_at,
        }
    }
}

impl HeartbeatMonitor {
    /// A monitor that expects a heartbeat every `interval` nanoseconds and
    /// gives up after `max_misses` silent intervals in a row.
    pub fn new(interval: u64, max_misses: u8) -> (monitor: HeartbeatMonitor)
        ensures
            monitor@ == HeartbeatView::fresh(interval, max_misses),
    {
        HeartbeatMonitor {
            interval,
            max_misses,
            consecutive_misses: 0,
            last_heartbeat_at: None,
            last_signal_at: None,
        }
    }

    /// The interval in nanoseconds.
    pub fn interval(&self) -> (interval: u64)
        ensures
            interval == self@.interval,
    {
        self.interval
    }

    /// Forgets misses and the last heartbeat; the first interval starts at
    /// `now` on the monotonic clock.
    pub fn reset(&mut self, now: u64)
        ensures
            final(self)@ == old(self)@.reset(now),
    {
        self.consecutive_misses = 0;
        self.last_heartbeat_at = None;
        self.last_signal_at = Some(now);
    }

    /// Records a heartbeat that arrived at `now`.
    pub fn mark_heartbeat(&mut self, now: Moment)
        ensures
            final(self)@ == old(self)@.beat(now),
    {
        self.consecutive_misses = 0;
        self.last_heartbeat_at = Some(now.wall);
        self.last_signal_at = Some(now.monotonic);
    }

    /// The wall-clock time of the last heartbeat since the last reset.
    pub fn last_heartbeat(&self) -> (at: Option<i64>)
        ensures
            at == self@.last_heartbeat,
    {
        self.last_heartbeat_at
    }

    /// Polls the monitor at `now` on the monotonic clock.
    pub fn check(&mut self, now: u64) -> (verdict: HeartbeatCheck)
        ensures
            verdict == old(self)@.verdict(now),
            final(self)@ == old(self)@.polled(now),
    {
        let too_soon = match self.last_signal_at {
            Some(last_signal) => now.saturating_sub(last_signal) < self.interval,
            None => false,
        };
        self.last_signal_at = Some(now);
        if too_soon {
            return HeartbeatCheck::Healthy;
        }
        self.consecutive_misses = self.consecutive_misses.saturating_add(1);
        if self.consecutive_misses >= self.max_misses {
            HeartbeatCheck::Unhealthy
        } else {
            HeartbeatCheck::Missed(self.consecutive_misses)
        }
    }
}

} // verus!
