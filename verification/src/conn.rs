//! Connection life cycle as an explicit state machine.
//!
//! The transport itself (a non-blocking socket) lives in the embedding
//! application; this module owns the decisions.  The application performs
//! one I/O attempt per tick only when `is_connected` says so, and reports
//! the outcome back through `record_connect`, `on_send` and `on_poll`.
//! Every would-block outcome is a no-op, every closed-or-failed outcome
//! drops the connection, and nothing here ever retries: a disconnected
//! connection stays disconnected until the caller connects again.

use vstd::prelude::*;
use crate::codec::{decode_server, spec_encode_server, wf_server};
use crate::msg::{ServerMessage, ServerMsgView};

verus! {

/// The two connection states.  Disconnected is both the initial state and
/// the stable state after any failure.
#[derive(Clone, Copy, PartialEq, Eq, Structural, Debug)]
pub enum Status {
    Disconnected,
    Connected,
}

/// What one non-blocking send attempt reported.
#[derive(Clone, Copy, PartialEq, Eq, Structural, Debug)]
pub enum SendOutcome {
    /// The frame was written.
    Delivered,
    /// The transport would block; the frame is dropped, not queued.
    WouldBlock,
    /// The transport is closed or failed.
    ChannelDown,
}

/// What one non-blocking read attempt reported.  The transport boundary
/// may hand inbound data in either of two forms: `Frame` carries raw bytes
/// in this crate's own framing, decoded here with the verified codec;
/// `Message` carries a message the boundary already decoded from whatever
/// schema-stable encoding its peer speaks (the bundled application's
/// server speaks tagged JSON, which these binary frames are not).
#[derive(Debug)]
pub enum PollOutcome {
    /// One complete inbound frame in this crate's own framing.
    Frame(Vec<u8>),
    /// One inbound message, decoded at the transport boundary.
    Message(ServerMessage),
    /// An inbound frame arrived but could not be decoded at the boundary;
    /// it is discarded without touching the connection.
    Malformed,
    /// Nothing to read (would block), or an ignorable non-data frame.
    NoData,
    /// The transport is closed or failed.
    ChannelDown,
}

/// Connection state, driven by reported I/O outcomes.
pub struct Connection {
    pub status: Status,
}

/// The state after a send attempt: would-block is harmless, a down
/// channel disconnects, and a disconnected connection never changes.
pub open spec fn spec_status_after_send(st: Status, outcome: SendOutcome) -> Status {
    if st is Disconnected {
        Status::Disconnected
    } else {
        match outcome {
            SendOutcome::Delivered => Status::Connected,
            SendOutcome::WouldBlock => Status::Connected,
            SendOutcome::ChannelDown => Status::Disconnected,
        }
    }
}

/// The state after a poll attempt, by the same rules.
pub open spec fn spec_status_after_poll(st: Status, outcome: PollOutcome) -> Status {
    if st is Disconnected {
        Status::Disconnected
    } else {
        match outcome {
            PollOutcome::Frame(_) => Status::Connected,
            PollOutcome::Message(_) => Status::Connected,
            PollOutcome::Malformed => Status::Connected,
            PollOutcome::NoData => Status::Connected,
            PollOutcome::ChannelDown => Status::Disconnected,
        }
    }
}

impl Connection {
    /// A new connection starts disconnected.
    pub fn new() -> (c: Connection)
        ensures
            c.status is Disconnected,
    {
        Connection { status: Status::Disconnected }
    }

    /// Whether an I/O attempt should be made at all this tick.
    pub fn is_connected(&self) -> (r: bool)
        ensures
            r == (self.status is Connected),
    {
        match self.status {
            Status::Connected => true,
            Status::Disconnected => false,
        }
    }

    /// Records the outcome of a connect attempt.  Success makes the
    /// connection usable; failure is swallowed and changes nothing.
    pub fn record_connect(&mut self, established: bool)
        ensures
            final(self).status == if established {
                Status::Connected
            } else {
                old(self).status
            },
    {
        if established {
            self.status = Status::Connected;
        }
    }

    /// Records the outcome of one send attempt.  When disconnected this is
    /// a no-op whatever the caller reports.
    pub fn on_send(&mut self, outcome: SendOutcome)
        ensures
            final(self).status == spec_status_after_send(old(self).status, outcome),
    {
        match self.status {
            Status::Disconnected => {},
            Status::Connected => {
                match outcome {
                    SendOutcome::Delivered => {},
                    SendOutcome::WouldBlock => {},
                    SendOutcome::ChannelDown => {
                        self.status = Status::Disconnected;
                    },
                }
            },
        }
    }

    /// Records the outcome of one poll attempt and yields at most one
    /// inbound message from it.  When disconnected, or when nothing was
    /// read, this returns no message and changes nothing; a malformed or
    /// undecodable frame is discarded without touching the connection; a
    /// boundary-decoded message is passed through unchanged.
    pub fn on_poll(&mut self, outcome: PollOutcome) -> (r: Option<ServerMessage>)
        ensures
            final(self).status == spec_status_after_poll(old(self).status, outcome),
            old(self).status is Disconnected ==> r is None,
            match r {
                Some(m) => {
                    &&& old(self).status is Connected
                    &&& match outcome {
                        PollOutcome::Frame(bytes) => wf_server(m@) && spec_encode_server(m@)
                            == bytes@,
                        PollOutcome::Message(inbound) => m == inbound,
                        _ => false,
                    }
                },
                None => match outcome {
                    PollOutcome::Frame(bytes) => old(self).status is Connected
                        ==> forall|mv: ServerMsgView| wf_server(mv) ==> spec_encode_server(mv)
                        != bytes@,
                    PollOutcome::Message(_) => old(self).status is Disconnected,
                    _ => true,
                },
            },
    {
        match self.status {
            Status::Disconnected => None,
            Status::Connected => {
                match outcome {
                    PollOutcome::Frame(bytes) => decode_server(&bytes),
                    PollOutcome::Message(inbound) => Some(inbound),
                    PollOutcome::Malformed => None,
                    PollOutcome::NoData => None,
                    PollOutcome::ChannelDown => {
                        self.status = Status::Disconnected;
                        None
                    },
                }
            },
        }
    }
}

} // verus!
