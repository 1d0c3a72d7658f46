//! Reconciliation of inbound server messages into the local game state.
//!
//! The server is the sole source of truth for which remote actors exist:
//! an `Update` snapshot replaces the whole remote set, a `GoodBye` removes
//! one actor (and is a no-op when the actor is already gone), and a
//! `Welcome` overwrites the local actor's identity unconditionally.

use vstd::prelude::*;
use crate::msg::{ActorId, Pose, RemoteState, ServerMessage, ServerMsgView};

verus! {

/// The local actor together with the mirror of every known remote actor.
pub struct Game {
    /// The process's own actor; its id is 0 until the server assigns one.
    pub player_state: RemoteState,
    /// The authoritative mirror of all non-local actors.
    pub remote_states: Vec<RemoteState>,
}

/// Ghost view of a `Game`: the player and the remote set as a sequence.
#[verifier::ext_equal]
pub struct GameView {
    pub player: RemoteState,
    pub remotes: Seq<RemoteState>,
}

impl View for Game {
    type V = GameView;

    open spec fn view(&self) -> GameView {
        GameView { player: self.player_state, remotes: self.remote_states@ }
    }
}

/// The remote set with every actor of the given id removed.
pub open spec fn remove_id(s: Seq<RemoteState>, id: ActorId) -> Seq<RemoteState> {
    s.filter(|x: RemoteState| x.id != id)
}

/// What one inbound message does to the game state.
pub open spec fn spec_apply(g: GameView, m: ServerMsgView) -> GameView {
    match m {
        ServerMsgView::Welcome(id) => GameView {
            player: RemoteState { id, pose: g.player.pose },
            remotes: g.remotes,
        },
        ServerMsgView::GoodBye(id) => GameView {
            player: g.player,
            remotes: remove_id(g.remotes, id),
        },
        ServerMsgView::Update(list) => GameView { player: g.player, remotes: list },
    }
}

impl Game {
    /// A fresh game: unassigned local identity, the given starting pose,
    /// and no known remote actors.
    pub fn new(initial: Pose) -> (g: Game)
        ensures
            g.player_state.id == 0,
            g.player_state.pose == initial,
            g.remote_states@ == Seq::<RemoteState>::empty(),
    {
        let g = Game {
            player_state: RemoteState { id: 0, pose: initial },
            remote_states: Vec::new(),
        };
        proof {
            assert(g.remote_states@ =~= Seq::<RemoteState>::empty());
        }
        g
    }

    /// Applies one inbound server message, in arrival order.
    pub fn handle_message(&mut self, msg: ServerMessage)
        ensures
            final(self)@ == spec_apply(old(self)@, msg@),
    {
        match msg {
            ServerMessage::Welcome(id) => {
                self.player_state.id = id;
                proof {
                    assert(self@ =~= spec_apply(old(self)@, msg@));
                }
            },
            ServerMessage::GoodBye(id) => {
                let mut kept: Vec<RemoteState> = Vec::new();
                let n = self.remote_states.len();
                for i in 0..n
                    invariant
                        n == self.remote_states@.len(),
                        self == old(self),
                        kept@ == self.remote_states@.take(i as int).filter(
                            |s: RemoteState| s.id != id,
                        ),
                {
                    let ghost prefix = self.remote_states@.take(i as int);
                    let s = self.remote_states[i];
                    if s.id != id {
                        kept.push(s);
                    }
                    proof {
                        let pred = |s: RemoteState| s.id != id;
                        let stepped = self.remote_states@.take(i as int + 1);
                        assert(stepped =~= prefix.push(s));
                        assert(stepped.drop_last() =~= prefix);
                        assert(stepped.last() == s);
                        assert(stepped.filter(pred) == if pred(s) {
                            prefix.filter(pred).push(s)
                        } else {
                            prefix.filter(pred)
                        }) by {
                            reveal_with_fuel(Seq::filter, 2);
                        }
                        assert(kept@ == stepped.filter(pred));
                    }
                }
                proof {
                    assert(self.remote_states@.take(n as int) =~= self.remote_states@);
                }
                self.remote_states = kept;
                proof {
                    assert(self@ =~= spec_apply(old(self)@, msg@));
                }
            },
            ServerMessage::Update(list) => {
                self.remote_states = list;
                proof {
                    assert(self@ =~= spec_apply(old(self)@, msg@));
                }
            },
        }
    }

    /// The local actor's current pose.
    pub fn local_pose(&self) -> (r: Pose)
        ensures
            r == self.player_state.pose,
    {
        self.player_state.pose
    }

    /// The local actor's current identity (0 while unassigned).
    pub fn local_id(&self) -> (r: ActorId)
        ensures
            r == self.player_state.id,
    {
        self.player_state.id
    }

    /// Read-only view of the remote actors for the presentation layer.
    pub fn remote_actors(&self) -> (r: &Vec<RemoteState>)
        ensures
            r@ == self.remote_states@,
    {
        &self.remote_states
    }

    /// Overwrites every remote actor's pose with the tick's locally
    /// predicted one, in order.  A local tick never creates or destroys a
    /// remote actor: the ids, their order and the count are untouched, and
    /// the next `Update` snapshot overwrites the prediction anyway.
    pub fn set_remote_poses(&mut self, poses: &Vec<Pose>)
        requires
            poses@.len() == old(self).remote_states@.len(),
        ensures
            final(self).player_state == old(self).player_state,
            final(self).remote_states@.len() == old(self).remote_states@.len(),
            forall|i: int| 0 <= i < poses@.len() ==> {
                &&& (#[trigger] final(self).remote_states@[i]).id
                    == old(self).remote_states@[i].id
                &&& final(self).remote_states@[i].pose == poses@[i]
            },
    {
        let n = self.remote_states.len();
        for i in 0..n
            invariant
                n == self.remote_states@.len(),
                n == poses@.len(),
                self.player_state == old(self).player_state,
                forall|j: int| i <= j < n ==> #[trigger] self.remote_states@[j]
                    == old(self).remote_states@[j],
                forall|j: int| 0 <= j < i ==> {
                    &&& (#[trigger] self.remote_states@[j]).id
                        == old(self).remote_states@[j].id
                    &&& self.remote_states@[j].pose == poses@[j]
                },
        {
            let id = self.remote_states[i].id;
            self.remote_states[i] = RemoteState { id, pose: poses[i] };
        }
    }
}

/// Removing an actor id that is not present leaves the remote set
/// unchanged: `GoodBye` is idempotent.
pub proof fn lemma_goodbye_absent(g: GameView, id: ActorId)
    requires
        forall|i: int| 0 <= i < g.remotes.len() ==> g.remotes[i].id != id,
    ensures
        spec_apply(g, ServerMsgView::GoodBye(id)) == g,
{
    lemma_filter_all_kept(g.remotes, id);
    assert(spec_apply(g, ServerMsgView::GoodBye(id)) =~= g);
}

/// Filtering out an id that no element carries keeps every element.
proof fn lemma_filter_all_kept(s: Seq<RemoteState>, id: ActorId)
    requires
        forall|i: int| 0 <= i < s.len() ==> s[i].id != id,
    ensures
        s.filter(|x: RemoteState| x.id != id) == s,
    decreases s.len(),
{
    reveal(Seq::filter);
    if s.len() == 0 {
        assert(s.filter(|x: RemoteState| x.id != id) =~= s);
    } else {
        assert(forall|i: int| 0 <= i < s.drop_last().len() ==> s.drop_last()[i].id != id);
        lemma_filter_all_kept(s.drop_last(), id);
        assert(s.last().id != id);
        assert(s.filter(|x: RemoteState| x.id != id) =~= s.drop_last().push(s.last()));
        assert(s.drop_last().push(s.last()) =~= s);
    }
}

/// At most one remote actor per id.
pub open spec fn ids_unique(s: Seq<RemoteState>) -> bool {
    forall|i: int, j: int| 0 <= i < j < s.len() ==> s[i].id != s[j].id
}

/// The remote set's invariant is preserved by every message: as long as
/// the server's snapshots name each actor at most once, the mirror never
/// holds two actors with the same id.
pub proof fn lemma_apply_preserves_unique(g: GameView, m: ServerMsgView)
    requires
        ids_unique(g.remotes),
        m matches ServerMsgView::Update(list) ==> ids_unique(list),
    ensures
        ids_unique(spec_apply(g, m).remotes),
{
    match m {
        ServerMsgView::GoodBye(id) => {
            lemma_filter_unique(g.remotes, id);
        },
        _ => {},
    }
}

/// Filtering a duplicate-free remote list keeps it duplicate-free, and
/// every kept element comes from the list.
proof fn lemma_filter_unique(s: Seq<RemoteState>, id: ActorId)
    requires
        ids_unique(s),
    ensures
        ids_unique(remove_id(s, id)),
        forall|i: int| 0 <= i < remove_id(s, id).len() ==> s.contains(
            #[trigger] remove_id(s, id)[i],
        ),
    decreases s.len(),
{
    reveal(Seq::filter);
    let pred = |x: RemoteState| x.id != id;
    if s.len() > 0 {
        let prefix = s.drop_last();
        assert(ids_unique(prefix)) by {
            assert(forall|i: int, j: int| 0 <= i < j < prefix.len() ==> s[i] == prefix[i]
                && s[j] == prefix[j]);
        }
        lemma_filter_unique(prefix, id);
        let kept = prefix.filter(pred);
        assert forall|i: int| 0 <= i < kept.len() implies s.contains(#[trigger] kept[i]) by {
            assert(prefix.contains(kept[i]));
            let w = choose|w: int| 0 <= w < prefix.len() && prefix[w] == kept[i];
            assert(s[w] == kept[i]);
        }
        if pred(s.last()) {
            let out = kept.push(s.last());
            assert(s.filter(pred) == out);
            assert(s.contains(s.last())) by {
                assert(s[s.len() - 1] == s.last());
            }
            assert forall|i: int, j: int| 0 <= i < j < out.len() implies out[i].id
                != out[j].id by {
                if j < kept.len() {
                    assert(kept[i].id != kept[j].id);
                } else {
                    assert(out[i] == kept[i]);
                    assert(s.contains(kept[i]));
                    let w = choose|w: int| 0 <= w < s.len() && s[w] == kept[i];
                    assert(prefix.contains(kept[i]));
                    let v = choose|v: int| 0 <= v < prefix.len() && prefix[v] == kept[i];
                    assert(s[v] == kept[i]);
                    assert(s[v].id != s[s.len() - 1].id);
                    assert(out[j] == s.last() && s.last() == s[s.len() - 1]);
                }
            }
        } else {
            assert(s.filter(pred) == kept);
        }
    }
}

/// An `Update` snapshot replaces the remote set wholesale: afterwards the
/// set holds exactly the actors the snapshot names, and the local actor is
/// untouched.
pub proof fn lemma_update_replaces(g: GameView, list: Seq<RemoteState>)
    ensures
        spec_apply(g, ServerMsgView::Update(list)).remotes == list,
        spec_apply(g, ServerMsgView::Update(list)).player == g.player,
{
}

/// `Welcome` overwrites the identity unconditionally, so the last one wins
/// and repeating one is idempotent; poses and remote actors are untouched.
pub proof fn lemma_welcome_last_wins(g: GameView, first: ActorId, second: ActorId)
    ensures
        spec_apply(spec_apply(g, ServerMsgView::Welcome(first)), ServerMsgView::Welcome(second))
            == spec_apply(g, ServerMsgView::Welcome(second)),
        spec_apply(g, ServerMsgView::Welcome(second)).player.id == second,
        spec_apply(g, ServerMsgView::Welcome(second)).player.pose == g.player.pose,
        spec_apply(g, ServerMsgView::Welcome(second)).remotes == g.remotes,
{
    assert(spec_apply(spec_apply(g, ServerMsgView::Welcome(first)), ServerMsgView::Welcome(second))
        =~= spec_apply(g, ServerMsgView::Welcome(second)));
}

} // verus!
