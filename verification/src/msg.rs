//! Wire vocabulary: the messages exchanged with the server and the plain
//! data they carry.

use vstd::prelude::*;

verus! {

/// Identifier the server assigns to each connected actor.  A client starts
/// with the sentinel value 0 until a `Welcome` message assigns its real id.
pub type ActorId = u32;

/// A 2-D position and a rotation, each component carried as the raw bit
/// pattern of a 32-bit IEEE float.  The synchronization layer never does
/// arithmetic on a pose: it moves poses between the wire and the actor set
/// unchanged, so each component is treated as an opaque 32-bit word.  All
/// kinematics happens in the embedding application, which converts with
/// `f32::to_bits` / `f32::from_bits` at the boundary.
#[derive(Clone, Copy, PartialEq, Eq, Structural, Debug)]
pub struct Pose {
    pub x_bits: u32,
    pub y_bits: u32,
    pub rot_bits: u32,
}

/// Identity and pose of one actor as mirrored from the server.
#[derive(Clone, Copy, PartialEq, Eq, Structural, Debug)]
pub struct RemoteState {
    pub id: ActorId,
    pub pose: Pose,
}

/// An IPv4 address as four octets.
#[derive(Clone, Copy, PartialEq, Eq, Structural, Debug)]
pub struct Ipv4 {
    pub a: u8,
    pub b: u8,
    pub c: u8,
    pub d: u8,
}

/// Client-to-server messages.
#[derive(Clone, Copy, PartialEq, Eq, Structural, Debug)]
pub enum ClientMessage {
    /// Announces the client's local network address, once at startup.
    Register { ip: Ipv4 },
    /// The client's full current pose, sent every tick (never a delta).
    State { pose: Pose },
}

/// Server-to-client messages.
#[derive(Clone, Debug)]
pub enum ServerMessage {
    /// Assigns the receiving client's identity.
    Welcome(ActorId),
    /// Signals departure of a remote actor.
    GoodBye(ActorId),
    /// A full snapshot of the remote actors' poses; it supersedes every
    /// previously known remote actor rather than being merged.
    Update(Vec<RemoteState>),
}

/// Ghost view of a `ServerMessage`, with the update list as a sequence.
pub enum ServerMsgView {
    Welcome(ActorId),
    GoodBye(ActorId),
    Update(Seq<RemoteState>),
}

impl View for ServerMessage {
    type V = ServerMsgView;

    open spec fn view(&self) -> ServerMsgView {
        match self {
            ServerMessage::Welcome(id) => ServerMsgView::Welcome(*id),
            ServerMessage::GoodBye(id) => ServerMsgView::GoodBye(*id),
            ServerMessage::Update(list) => ServerMsgView::Update(list@),
        }
    }
}

} // verus!
