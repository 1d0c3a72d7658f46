//! The per-tick interface: connection state and reconciler together.
//!
//! Each tick the embedding application calls `submit` for the outbound
//! state frame, attempts its non-blocking I/O, and hands every inbound
//! outcome to `drain`, which decodes at most one message and applies it.

use vstd::prelude::*;
use crate::codec::{
    encode_client, lemma_encode_server_injective, spec_encode_client, spec_encode_server,
    wf_server,
};
use crate::conn::{Connection, PollOutcome, SendOutcome, spec_status_after_poll,
    spec_status_after_send};
use crate::game::{Game, spec_apply};
use crate::msg::{ClientMessage, Pose, ServerMsgView};

verus! {

/// A synchronization client: the connection life cycle plus the local
/// mirror of the simulation state.
pub struct Client {
    pub conn: Connection,
    pub game: Game,
}

impl Client {
    /// A fresh client: disconnected, unassigned identity, no remote
    /// actors.
    pub fn new(initial: Pose) -> (c: Client)
        ensures
            c.conn.status is Disconnected,
            c.game.player_state.id == 0,
            c.game.player_state.pose == initial,
            c.game.remote_states@ == Seq::<crate::msg::RemoteState>::empty(),
    {
        Client { conn: Connection::new(), game: Game::new(initial) }
    }

    /// The outbound frame for this tick: the client's full current pose,
    /// never a delta.  The caller sends it best-effort; a dropped frame is
    /// harmless because the next tick resends the full state.
    pub fn submit(&self) -> (frame: Vec<u8>)
        ensures
            frame@ == spec_encode_client(
                ClientMessage::State { pose: self.game.player_state.pose },
            ),
    {
        encode_client(&ClientMessage::State { pose: self.game.player_state.pose })
    }

    /// Records the outcome of this tick's send attempt.  The game state is
    /// never touched; when disconnected nothing changes at all.
    pub fn sent(&mut self, outcome: SendOutcome)
        ensures
            final(self).conn.status == spec_status_after_send(old(self).conn.status, outcome),
            final(self).game == old(self).game,
    {
        self.conn.on_send(outcome);
    }

    /// Drains this tick's inbound outcome: yields at most one message and
    /// applies it to the game state.  When disconnected, when nothing was
    /// read, or when the frame is malformed, the game state is unchanged;
    /// a well-formed frame, or a message the transport boundary already
    /// decoded, is applied exactly as `spec_apply` says.
    pub fn drain(&mut self, outcome: PollOutcome)
        ensures
            final(self).conn.status == spec_status_after_poll(old(self).conn.status, outcome),
            old(self).conn.status is Disconnected ==> final(self).game == old(self).game,
            match outcome {
                PollOutcome::Frame(bytes) => {
                    &&& (forall|mv: ServerMsgView| wf_server(mv) ==> spec_encode_server(mv)
                        != bytes@) ==> final(self).game == old(self).game
                    &&& forall|mv: ServerMsgView|
                        wf_server(mv) && spec_encode_server(mv) == bytes@
                            && old(self).conn.status is Connected
                            ==> final(self).game@ == spec_apply(old(self).game@, mv)
                },
                PollOutcome::Message(inbound) => old(self).conn.status is Connected
                    ==> final(self).game@ == spec_apply(old(self).game@, inbound@),
                _ => final(self).game == old(self).game,
            },
    {
        let msg = self.conn.on_poll(outcome);
        match msg {
            Some(m) => {
                proof {
                    if wf_server(m@) {
                        assert forall|mv: ServerMsgView|
                            wf_server(mv) && spec_encode_server(mv) == spec_encode_server(m@)
                                implies mv == m@ by {
                            lemma_encode_server_injective(mv, m@);
                        }
                    }
                }
                self.game.handle_message(m);
            },
            None => {},
        }
    }

    /// The local actor's current pose.
    pub fn local_pose(&self) -> (r: Pose)
        ensures
            r == self.game.player_state.pose,
    {
        self.game.local_pose()
    }

    /// The message to announce this tick: the client's full current pose.
    /// The transport boundary serialises it in whatever encoding its peer
    /// speaks; `submit` is the same message already framed by this crate's
    /// own codec.
    pub fn outbound_state(&self) -> (m: ClientMessage)
        ensures
            m == (ClientMessage::State { pose: self.game.player_state.pose }),
    {
        ClientMessage::State { pose: self.game.player_state.pose }
    }

    /// The local actor's current identity (0 while unassigned).
    pub fn local_id(&self) -> (r: crate::msg::ActorId)
        ensures
            r == self.game.player_state.id,
    {
        self.game.local_id()
    }

    /// Read-only view of the remote actors for the presentation layer.
    pub fn remote_actors(&self) -> (r: &Vec<crate::msg::RemoteState>)
        ensures
            r@ == self.game.remote_states@,
    {
        self.game.remote_actors()
    }

    /// Overwrites the local actor's pose with the tick's locally predicted
    /// one, before the next `submit`.
    pub fn set_local_pose(&mut self, pose: Pose)
        ensures
            final(self).game.player_state.pose == pose,
            final(self).game.player_state.id == old(self).game.player_state.id,
            final(self).game.remote_states == old(self).game.remote_states,
            final(self).conn == old(self).conn,
    {
        self.game.player_state.pose = pose;
    }
}

} // verus!
