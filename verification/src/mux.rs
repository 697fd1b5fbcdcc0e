//! Per-connection multiplexer policy.
//!
//! One multiplexer owns one client session. Its inbound duty is decided
//! here: parse the frame as an envelope, silently discard it when the
//! claimed producer identity is not on the trusted allow-list, and
//! otherwise strip the envelope and republish the bare update through the
//! hub. A frame that does not parse is tolerated twice; the third
//! consecutive malformed frame closes the connection. The outbound duty
//! needs no policy of its own: hub messages are already serialized frames
//! and are written verbatim, in subscription order.

use crate::frame::parse_envelope;
use crate::frame::render_update;
use crate::frame::spec_parse_envelope;
use crate::frame::spec_render_update;
use crate::hub::BroadcastHub;
use crate::hub::msgs_view;
use crate::hub::publish_step;
use vstd::prelude::*;

verus! {

/// Consecutive malformed frames a connection survives.
pub const MAX_STRIKES: u8 = 3;

/// The identity is on the trusted allow-list (exact, case-sensitive).
pub open spec fn allowed_spec(allow: Seq<Seq<char>>, id: Seq<char>) -> bool {
    allow.contains(id)
}

/// Saturating increment of a 64-bit metric.
pub open spec fn sat_inc64(a: u64) -> u64 {
    if a == u64::MAX {
        u64::MAX
    } else {
        (a + 1) as u64
    }
}

/// What handling one inbound frame decided.
#[derive(Clone, Copy, Debug, PartialEq, Eq, Structural)]
pub enum FrameOutcome {
    /// Trusted envelope: the bare update was republished to every subscriber.
    Published,
    /// Untrusted identity: silently discarded, the connection stays open.
    Unauthorized,
    /// Malformed frame: tolerated, the connection stays open.
    Malformed,
    /// Third consecutive malformed frame: the connection must close.
    CloseConnection,
}

/// Inbound-side state of one client connection.
pub struct ConnectionMultiplexer {
    /// Trusted producer identities.
    pub allow: Vec<String>,
    /// Consecutive malformed frames seen so far.
    pub strikes: u8,
    /// Rate-limited count of silently discarded unauthorized frames.
    pub rejected: u64,
}

impl ConnectionMultiplexer {
    /// The allow-list as a sequence of identities.
    pub open spec fn allow_view(&self) -> Seq<Seq<char>> {
        msgs_view(self.allow@)
    }

    /// The connection has not yet exhausted its malformed-frame tolerance.
    pub open spec fn open_state(&self) -> bool {
        self.strikes < MAX_STRIKES
    }

    /// A fresh multiplexer for a newly accepted connection.
    pub fn new(allow: Vec<String>) -> (m: ConnectionMultiplexer)
        ensures
            m.allow@ == allow@,
            m.strikes == 0,
            m.rejected == 0,
            m.open_state(),
    {
        ConnectionMultiplexer { allow, strikes: 0, rejected: 0 }
    }

    /// The identity is on the allow-list.
    pub fn is_trusted(&self, id: &String) -> (r: bool)
        ensures
            r == allowed_spec(self.allow_view(), id@),
    {
        let mut k: usize = 0;
        while k < self.allow.len()
            invariant
                k <= self.allow@.len(),
                forall|t: int| 0 <= t < k ==> #[trigger] self.allow@[t]@ != id@,
            decreases self.allow@.len() - k,
        {
            if self.allow[k].eq(id) {
                proof {
                    assert(self.allow_view()[k as int] == id@);
                }
                return true;
            }
            k = k + 1;
        }
        proof {
            assert forall|t: int| 0 <= t < self.allow_view().len() implies self.allow_view()[t]
                != id@ by {
                assert(self.allow@[t]@ != id@);
            }
        }
        false
    }

    /// Handles one inbound client frame.
    ///
    /// A well-formed envelope resets the malformed-frame count; when its
    /// identity is trusted, the bare update is rendered canonically and
    /// published to every subscriber, and otherwise the frame is discarded
    /// with the hub left exactly as it was, so no subscriber can ever
    /// observe it. A malformed frame leaves the hub untouched and counts a
    /// strike; the outcome demands closing the connection exactly when the
    /// strike limit is reached.
    pub fn on_client_frame(&mut self, hub: &mut BroadcastHub, text: &str) -> (o: FrameOutcome)
        requires
            old(hub).wf(),
            old(self).open_state(),
        ensures
            final(hub).wf(),
            final(self).allow@ == old(self).allow@,
            match spec_parse_envelope(text@) {
                Some(env) => {
                    &&& final(self).strikes == 0
                    &&& if allowed_spec(old(self).allow_view(), env.client_id) {
                        &&& o == FrameOutcome::Published
                        &&& publish_step(
                            *old(hub),
                            *final(hub),
                            spec_render_update(env.instrument),
                        )
                        &&& final(self).rejected == old(self).rejected
                    } else {
                        &&& o == FrameOutcome::Unauthorized
                        &&& *final(hub) == *old(hub)
                        &&& final(self).rejected == sat_inc64(old(self).rejected)
                    }
                },
                None => {
                    &&& *final(hub) == *old(hub)
                    &&& final(self).rejected == old(self).rejected
                    &&& final(self).strikes == old(self).strikes + 1
                    &&& o == if old(self).strikes + 1 >= MAX_STRIKES {
                        FrameOutcome::CloseConnection
                    } else {
                        FrameOutcome::Malformed
                    }
                },
            },
            o == FrameOutcome::CloseConnection <==> !final(self).open_state(),
    {
        match parse_envelope(text) {
            Some(p) => {
                self.strikes = 0;
                if self.is_trusted(&p.client_id) {
                    let frame = render_update(&p.instrument);
                    hub.publish(frame.as_str());
                    FrameOutcome::Published
                } else {
                    if self.rejected < u64::MAX {
                        self.rejected = self.rejected + 1;
                    }
                    FrameOutcome::Unauthorized
                }
            },
            None => {
                self.strikes = self.strikes + 1;
                if self.strikes >= MAX_STRIKES {
                    FrameOutcome::CloseConnection
                } else {
                    FrameOutcome::Malformed
                }
            },
        }
    }
}

} // verus!
