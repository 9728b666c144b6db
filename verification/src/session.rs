//! The life of one connection, as a state machine: the caller performs each
//! action and reports what happened next.

use vstd::prelude::*;

verus! {

/// Where a connection stands.
#[derive(Clone, Copy, Debug, PartialEq, Eq, Structural)]
pub enum Connection {
    /// The transport is not up yet.
    Connecting,
    /// The transport is up and the world has been asked to admit a player.
    Joined,
    /// Both duties run: snapshots go out, messages come in.
    Active(u128),
    /// One duty has ended and the other is being stopped.
    Closing(u128),
    /// Nothing is left of the connection.
    Closed,
}

/// What the caller reports.
#[derive(Clone, Copy, Debug, PartialEq, Eq, Structural)]
pub enum Signal {
    /// The transport is up.
    Upgraded,
    /// The world admitted a player under this id.
    Admitted(u128),
    /// The world refused the join.
    Refused,
    /// The subscription delivered a snapshot.
    Snapshot,
    /// The client sent a text message.
    Message,
    /// The sending duty ended: a send failed or the subscription closed.
    SendEnded,
    /// The receiving duty ended: the stream ended or failed.
    ReceiveEnded,
    /// The duty that was told to stop has stopped.
    Stopped,
}

/// What the caller is to do next.
#[derive(Clone, Copy, Debug, PartialEq, Eq, Structural)]
pub enum Action {
    /// Ask the world to admit a player.
    Join,
    /// Subscribe to the snapshots and start both duties.
    Subscribe,
    /// Send the snapshot to the client.
    Forward,
    /// Hand the message to the world as input of this player.
    ApplyInput(u128),
    /// Cancel the receiving duty.
    StopReceiving,
    /// Cancel the sending duty.
    StopSending,
    /// Remove this player from the world, then release subscription and transport.
    Leave(u128),
    /// Release the transport; no player was ever created.
    Close,
    /// Nothing to do.
    Ignore,
}

impl Connection {
    /// The state and action that follow `signal`. A signal that the state
    /// does not expect leaves the state as it is and asks for nothing.
    pub open spec fn spec_advance(self, signal: Signal) -> (Connection, Action) {
        match (self, signal) {
            (Connection::Connecting, Signal::Upgraded) => (Connection::Joined, Action::Join),
            (Connection::Joined, Signal::Admitted(id)) => (Connection::Active(id), Action::Subscribe),
            (Connection::Joined, Signal::Refused) => (Connection::Closed, Action::Close),
            (Connection::Active(id), Signal::Snapshot) => (Connection::Active(id), Action::Forward),
            (Connection::Active(id), Signal::Message) => (
                Connection::Active(id),
                Action::ApplyInput(id),
            ),
            (Connection::Active(id), Signal::SendEnded) => (
                Connection::Closing(id),
                Action::StopReceiving,
            ),
            (Connection::Active(id), Signal::ReceiveEnded) => (
                Connection::Closing(id),
                Action::StopSending,
            ),
            (Connection::Closing(id), Signal::Stopped) => (Connection::Closed, Action::Leave(id)),
            _ => (self, Action::Ignore),
        }
    }

    /// How far the connection has come: 0 for `Connecting` up to 4 for `Closed`.
    pub open spec fn spec_rank(self) -> nat {
        match self {
            Connection::Connecting => 0,
            Connection::Joined => 1,
            Connection::Active(_) => 2,
            Connection::Closing(_) => 3,
            Connection::Closed => 4,
        }
    }

    /// The state after the signals of `trace`, first to last.
    pub open spec fn spec_after(self, trace: Seq<Signal>) -> Connection
        decreases trace.len(),
    {
        if trace.len() == 0 {
            self
        } else {
            self.spec_advance(trace[0]).0.spec_after(trace.drop_first())
        }
    }

    /// How many times `trace` asks for `Leave(id)`.
    pub open spec fn spec_leaves(self, trace: Seq<Signal>, id: u128) -> nat
        decreases trace.len(),
    {
        if trace.len() == 0 {
            0
        } else {
            let (next, action) = self.spec_advance(trace[0]);
            next.spec_leaves(trace.drop_first(), id) + if action == Action::Leave(id) {
                1nat
            } else {
                0nat
            }
        }
    }

    /// A connection that has not met a signal yet.
    pub fn new() -> (state: Connection)
        ensures
            state == Connection::Connecting,
    {
        Connection::Connecting
    }

    /// Takes one signal: the next state, and what the caller is to do.
    pub fn advance(self, signal: Signal) -> (next: (Connection, Action))
        ensures
            next == self.spec_advance(signal),
    {
        match self {
            Connection::Connecting => match signal {
                Signal::Upgraded => (Connection::Joined, Action::Join),
                _ => (self, Action::Ignore),
            },
            Connection::Joined => match signal {
                Signal::Admitted(id) => (Connection::Active(id), Action::Subscribe),
                Signal::Refused => (Connection::Closed, Action::Close),
                _ => (self, Action::Ignore),
            },
            Connection::Active(id) => match signal {
                Signal::Snapshot => (Connection::Active(id), Action::Forward),
                Signal::Message => (Connection::Active(id), Action::ApplyInput(id)),
                Signal::SendEnded => (Connection::Closing(id), Action::StopReceiving),
                Signal::ReceiveEnded => (Connection::Closing(id), Action::StopSending),
                _ => (self, Action::Ignore),
            },
            Connection::Closing(id) => match signal {
                Signal::Stopped => (Connection::Closed, Action::Leave(id)),
                _ => (self, Action::Ignore),
            },
            Connection::Closed => (self, Action::Ignore),
        }
    }

    /// Whether nothing is left to do for the connection.
    pub fn is_closed(&self) -> (closed: bool)
        ensures
            closed == (*self == Connection::Closed),
    {
        match self {
            Connection::Closed => true,
            _ => false,
        }
    }
}

/// A connection never goes back, and advances by one state at a time except
/// for a refused join, which closes it at once; it asks for a player's
/// removal exactly when it passes from `Closing` to `Closed`, and for the
/// player it was bound to.
pub proof fn lemma_advance(state: Connection, signal: Signal)
    ensures
        state.spec_rank() <= state.spec_advance(signal).0.spec_rank(),
        state.spec_advance(signal).1 is Leave <==> state is Closing && state.spec_advance(
            signal,
        ).0 == Connection::Closed,
        state matches Connection::Closing(id) ==> state.spec_advance(signal).1 is Leave
            ==> state.spec_advance(signal).1 == Action::Leave(id),
        state.spec_advance(signal).0 is Active ==> state is Active || (state == Connection::Joined
            && signal is Admitted),
        state.spec_advance(signal).1 is ApplyInput || state.spec_advance(signal).1 is Forward
            ==> state is Active,
        state == Connection::Closed ==> state.spec_advance(signal) == (state, Action::Ignore),
{
}

/// Whatever is reported, a player's removal is asked for at most once, and
/// never before the connection is bound to that player.
pub proof fn lemma_leave_at_most_once(state: Connection, trace: Seq<Signal>, id: u128)
    ensures
        state.spec_leaves(trace, id) <= 1,
        state == Connection::Closed ==> state.spec_leaves(trace, id) == 0,
        (state matches Connection::Active(other) && other != id) ==> state.spec_leaves(trace, id)
            == 0,
        (state matches Connection::Closing(other) && other != id) ==> state.spec_leaves(trace, id)
            == 0,
    decreases trace.len(),
{
    if trace.len() > 0 {
        let next = state.spec_advance(trace[0]).0;
        lemma_advance(state, trace[0]);
        lemma_leave_at_most_once(next, trace.drop_first(), id);
    }
}

/// A connection bound to a player that ends up closed has asked for that
/// player's removal exactly once: no player is left behind.
pub proof fn lemma_leave_is_owed(state: Connection, trace: Seq<Signal>, id: u128)
    requires
        state == Connection::Active(id) || state == Connection::Closing(id),
        state.spec_after(trace) == Connection::Closed,
    ensures
        state.spec_leaves(trace, id) == 1,
    decreases trace.len(),
{
    if trace.len() > 0 {
        let next = state.spec_advance(trace[0]).0;
        lemma_advance(state, trace[0]);
        if next == Connection::Closed {
            lemma_leave_at_most_once(next, trace.drop_first(), id);
        } else {
            lemma_leave_is_owed(next, trace.drop_first(), id);
        }
    }
}

} // verus!
