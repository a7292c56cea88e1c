use vstd::prelude::*;

verus! {

/// Whether the server prepares to shut down.
#[derive(Debug)]
pub enum ShutdownState {
    /// Announce the shutdown, with a reason where one is given.
    On { reason: String },
    /// Take the announcement back.
    Off,
}

/// What a copy copies.
#[derive(Clone, Copy, Debug, PartialEq, Eq, Structural)]
pub enum CopyItem {
    Job,
    View,
}

/// The state to put a node in.
#[derive(Debug)]
pub enum NodeState {
    /// Cut the connection, with a reason where one is given.
    Disconnect { reason: String },
    /// Start the node's agent.
    Connect,
    /// Take the node out of service, with a reason where one is given.
    Offline { reason: String },
    /// Put the node back in service.
    Online,
}

} // verus!
