//! Acceptor policy.
//!
//! The acceptor task binds one listening endpoint and loops accepting
//! connections; for each accepted one it performs the handshake, takes a
//! fresh subscription from the shared hub, and spawns an independent
//! multiplexer. The policy decided here: only a startup bind failure is
//! fatal; a transient accept or handshake error is reported and the loop
//! continues; the shutdown signal stops accepting.

use vstd::prelude::*;

verus! {

/// What the accept loop just observed.
#[derive(Clone, Copy, Debug)]
pub enum AcceptEvent {
    /// The listening endpoint could not be bound at startup.
    BindFailed,
    /// A connection was accepted and its handshake completed.
    Accepted,
    /// Accepting or handshaking one connection failed.
    AcceptError,
    /// The process-wide shutdown signal.
    ShutdownRequested,
}

/// What the accept loop must do next.
#[derive(Clone, Copy, Debug, PartialEq, Eq, Structural)]
pub enum AcceptDecision {
    /// Report the bind failure to the caller; the service must not proceed.
    FailStartup,
    /// Subscribe the connection to the hub and spawn its multiplexer.
    SpawnConnection,
    /// Report the transient error and keep accepting.
    ContinueListening,
    /// Stop accepting new connections.
    StopAccepting,
}

/// Decides the accept loop's next step. Exactly the startup bind failure is
/// fatal; every transient accept error keeps the loop alive.
pub fn accept_decision(ev: &AcceptEvent) -> (d: AcceptDecision)
    ensures
        d == AcceptDecision::FailStartup <==> ev is BindFailed,
        d == AcceptDecision::SpawnConnection <==> ev is Accepted,
        d == AcceptDecision::ContinueListening <==> ev is AcceptError,
        d == AcceptDecision::StopAccepting <==> ev is ShutdownRequested,
{
    match ev {
        AcceptEvent::BindFailed => AcceptDecision::FailStartup,
        AcceptEvent::Accepted => AcceptDecision::SpawnConnection,
        AcceptEvent::AcceptError => AcceptDecision::ContinueListening,
        AcceptEvent::ShutdownRequested => AcceptDecision::StopAccepting,
    }
}

} // verus!
