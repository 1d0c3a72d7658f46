use sync_client::game::Game;
use sync_client::msg::{Pose, RemoteState, ServerMessage};

fn pose(x: f32, y: f32, rot: f32) -> Pose {
    Pose { x_bits: x.to_bits(), y_bits: y.to_bits(), rot_bits: rot.to_bits() }
}

fn actor(id: u32, x: f32) -> RemoteState {
    RemoteState { id, pose: pose(x, 0.0, 0.0) }
}

fn game_with(ids: &[u32]) -> Game {
    let mut g = Game::new(pose(100.0, 100.0, 0.0));
    let list: Vec<RemoteState> = ids.iter().map(|&id| actor(id, id as f32)).collect();
    g.handle_message(ServerMessage::Update(list));
    g
}

#[test]
fn goodbye_removes_named_actor() {
    let mut g = game_with(&[1, 2, 3]);
    g.handle_message(ServerMessage::GoodBye(2));
    let ids: Vec<u32> = g.remote_actors().iter().map(|s| s.id).collect();
    assert_eq!(ids, vec![1, 3]);
}

#[test]
fn goodbye_absent_is_noop() {
    let mut g = game_with(&[1, 2, 3]);
    let before = g.remote_actors().clone();
    g.handle_message(ServerMessage::GoodBye(9));
    assert_eq!(g.remote_actors(), &before);
}

#[test]
fn full_snapshot_replace() {
    let mut g = game_with(&[1, 2, 3]);
    let snapshot = vec![actor(2, 20.0), actor(4, 40.0)];
    g.handle_message(ServerMessage::Update(snapshot.clone()));
    // 1 and 3 are dropped, 4 is added, and 2's pose is the snapshot's.
    assert_eq!(g.remote_actors(), &snapshot);
    assert_eq!(g.remote_actors()[0].pose, pose(20.0, 0.0, 0.0));
}

#[test]
fn welcome_idempotence() {
    let mut g = Game::new(pose(0.0, 0.0, 0.0));
    g.handle_message(ServerMessage::Welcome(7));
    g.handle_message(ServerMessage::Welcome(7));
    assert_eq!(g.local_id(), 7);
}

#[test]
fn welcome_last_wins() {
    let mut g = Game::new(pose(0.0, 0.0, 0.0));
    g.handle_message(ServerMessage::Welcome(5));
    g.handle_message(ServerMessage::Welcome(9));
    assert_eq!(g.local_id(), 9);
}

#[test]
fn welcome_leaves_remotes_and_pose() {
    let mut g = game_with(&[1, 2]);
    let before = g.remote_actors().clone();
    g.handle_message(ServerMessage::Welcome(3));
    assert_eq!(g.remote_actors(), &before);
    assert_eq!(g.local_pose(), pose(100.0, 100.0, 0.0));
}

#[test]
fn set_remote_poses_keeps_identities() {
    let mut g = game_with(&[1, 2, 3]);
    let predicted = vec![pose(10.0, 1.0, 0.1), pose(20.0, 2.0, 0.2), pose(30.0, 3.0, 0.3)];
    g.set_remote_poses(&predicted);
    let ids: Vec<u32> = g.remote_actors().iter().map(|s| s.id).collect();
    assert_eq!(ids, vec![1, 2, 3]);
    let poses: Vec<Pose> = g.remote_actors().iter().map(|s| s.pose).collect();
    assert_eq!(poses, predicted);
    assert_eq!(g.local_pose(), pose(100.0, 100.0, 0.0));
}

#[test]
fn new_game_starts_unassigned_and_empty() {
    let g = Game::new(pose(100.0, 100.0, 0.0));
    assert_eq!(g.local_id(), 0);
    assert!(g.remote_actors().is_empty());
}
