//! Change-listener state machine.
//!
//! The listener task holds a dedicated session against the external
//! notification channel and forwards every received payload, unchanged,
//! into the hub. The surrounding task performs the awaiting and the
//! reconnecting; every decision is made here: a received notification is
//! published and the task keeps listening, a lost or unreachable session
//! is answered with a reconnect attempt after an exponentially growing,
//! capped delay, and only an explicit shutdown signal stops the task.
//! Connectivity loss alone never does.

use crate::hub::BroadcastHub;
use crate::hub::publish_step;
use vstd::prelude::*;

verus! {

/// What the listener task just observed.
#[derive(Debug)]
pub enum ListenerEvent {
    /// A session to the notification channel was (re)established.
    SessionEstablished,
    /// The session delivered one notification payload.
    Notification(String),
    /// The session failed: establishment failed or the stream broke.
    SessionLost,
    /// The process-wide shutdown signal.
    Shutdown,
}

/// What the listener task must do next.
#[derive(Clone, Copy, Debug, PartialEq, Eq, Structural)]
pub enum ListenerAction {
    /// Keep the session and await the next event.
    AwaitNext,
    /// Sleep this many milliseconds, then attempt to reconnect.
    Reconnect { delay_ms: u64 },
    /// Close the session and end the task.
    Stop,
}

/// The delay for the attempt after one that failed: doubled, capped.
pub open spec fn next_delay(delay_ms: u64, max_delay_ms: u64) -> u64 {
    if 2 * delay_ms > max_delay_ms {
        max_delay_ms
    } else {
        (2 * delay_ms) as u64
    }
}

/// Saturating increment of an attempt count.
pub open spec fn sat_inc_attempts(a: u64) -> u64 {
    if a == u64::MAX {
        u64::MAX
    } else {
        (a + 1) as u64
    }
}

/// State of the listener task between events.
pub struct ChangeListener {
    /// Delay before the first reconnect attempt, in milliseconds.
    pub base_delay_ms: u64,
    /// Largest delay the backoff may reach, in milliseconds.
    pub max_delay_ms: u64,
    /// Delay the next reconnect attempt will use.
    pub delay_ms: u64,
    /// Consecutive failed attempts since the last established session.
    pub attempts: u64,
    /// Cleared only by the shutdown signal.
    pub running: bool,
}

impl ChangeListener {
    /// Sound backoff configuration and a delay inside its bounds.
    pub open spec fn wf(&self) -> bool {
        &&& 1 <= self.base_delay_ms <= self.max_delay_ms
        &&& self.base_delay_ms <= self.delay_ms <= self.max_delay_ms
    }

    /// A fresh listener that has not yet observed any event.
    pub fn new(base_delay_ms: u64, max_delay_ms: u64) -> (l: ChangeListener)
        requires
            1 <= base_delay_ms <= max_delay_ms,
        ensures
            l.wf(),
            l.base_delay_ms == base_delay_ms,
            l.max_delay_ms == max_delay_ms,
            l.delay_ms == base_delay_ms,
            l.attempts == 0,
            l.running,
    {
        ChangeListener {
            base_delay_ms,
            max_delay_ms,
            delay_ms: base_delay_ms,
            attempts: 0,
            running: true,
        }
    }

    /// Advances the state machine by one observed event.
    ///
    /// A notification is forwarded verbatim into the hub. A lost session
    /// asks for a reconnect after the current delay and doubles it, up to
    /// the cap; an established session resets the backoff. The returned
    /// action is `Stop`, and the task stops running, exactly on the
    /// shutdown signal: no connectivity failure terminates the listener.
    pub fn on_event(&mut self, hub: &mut BroadcastHub, ev: ListenerEvent) -> (a: ListenerAction)
        requires
            old(hub).wf(),
            old(self).wf(),
            old(self).running,
        ensures
            final(hub).wf(),
            final(self).wf(),
            final(self).base_delay_ms == old(self).base_delay_ms,
            final(self).max_delay_ms == old(self).max_delay_ms,
            match ev {
                ListenerEvent::SessionEstablished => {
                    &&& *final(hub) == *old(hub)
                    &&& a == ListenerAction::AwaitNext
                    &&& final(self).delay_ms == old(self).base_delay_ms
                    &&& final(self).attempts == 0
                    &&& final(self).running
                },
                ListenerEvent::Notification(m) => {
                    &&& publish_step(*old(hub), *final(hub), m@)
                    &&& a == ListenerAction::AwaitNext
                    &&& final(self).delay_ms == old(self).delay_ms
                    &&& final(self).attempts == old(self).attempts
                    &&& final(self).running
                },
                ListenerEvent::SessionLost => {
                    &&& *final(hub) == *old(hub)
                    &&& a == (ListenerAction::Reconnect { delay_ms: old(self).delay_ms })
                    &&& final(self).delay_ms == next_delay(
                        old(self).delay_ms,
                        old(self).max_delay_ms,
                    )
                    &&& final(self).attempts == sat_inc_attempts(old(self).attempts)
                    &&& final(self).running
                },
                ListenerEvent::Shutdown => {
                    &&& *final(hub) == *old(hub)
                    &&& a == ListenerAction::Stop
                    &&& !final(self).running
                },
            },
            a == ListenerAction::Stop <==> ev is Shutdown,
            final(self).running <==> !(ev is Shutdown),
    {
        match ev {
            ListenerEvent::SessionEstablished => {
                self.delay_ms = self.base_delay_ms;
                self.attempts = 0;
                ListenerAction::AwaitNext
            },
            ListenerEvent::Notification(m) => {
                hub.publish(m.as_str());
                ListenerAction::AwaitNext
            },
            ListenerEvent::SessionLost => {
                let used = self.delay_ms;
                self.delay_ms = if self.delay_ms > self.max_delay_ms / 2 {
                    self.max_delay_ms
                } else {
                    2 * self.delay_ms
                };
                if self.attempts < u64::MAX {
                    self.attempts = self.attempts + 1;
                }
                ListenerAction::Reconnect { delay_ms: used }
            },
            ListenerEvent::Shutdown => {
                self.running = false;
                ListenerAction::Stop
            },
        }
    }
}

} // verus!
