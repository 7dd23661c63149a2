use game_udp::registry::validate_move;
use game_udp::Position;
use game_udp::ServerState;
use game_udp::ServerStateSend;
use game_udp::PlayerStateSend;

#[test]
fn upsert_registers_and_is_idempotent() {
    let mut state = ServerState::new((80, 24));
    let a = "10.0.0.1:4000".to_string();
    let idx = state.upsert(&a, Position::new(0, 0, 0), 5);
    assert_eq!(idx, 0);
    assert_eq!(state.players.len(), 1);
    assert_eq!(state.players[0].id, a);
    assert_eq!(state.players[0].state.player_number, 0);
    assert_eq!(state.players[0].state.last_heartbeat, 5);
    assert_eq!(state.next_player_number, 1);

    let again = state.upsert(&a, Position::new(9, 9, 9), 8);
    assert_eq!(again, 0);
    assert_eq!(state.players.len(), 1);
    assert_eq!(state.players[0].state.position.x, 0);
    assert_eq!(state.players[0].state.last_heartbeat, 5);
    assert_eq!(state.next_player_number, 1);
}

#[test]
fn player_numbers_increase_and_survive_removal() {
    let mut state = ServerState::new((80, 24));
    let a = "a".to_string();
    let b = "b".to_string();
    let c = "c".to_string();
    state.upsert(&a, Position::new(0, 0, 0), 0);
    state.upsert(&b, Position::new(0, 0, 0), 0);
    assert_eq!(state.players[0].state.player_number, 0);
    assert_eq!(state.players[1].state.player_number, 1);

    assert!(state.remove(&a).is_some());
    assert!(state.remove(&a).is_none());
    state.upsert(&c, Position::new(0, 0, 0), 0);
    let reconnect = state.upsert(&a, Position::new(0, 0, 0), 0);
    assert_eq!(state.players[reconnect].state.player_number, 3);
}

#[test]
fn get_update_and_touch_by_identity() {
    let mut state = ServerState::new((80, 24));
    let a = "a".to_string();
    let b = "b".to_string();
    state.upsert(&a, Position::new(1, 2, 3), 0);
    state.upsert(&b, Position::new(0, 0, 0), 0);

    state.update_position(&a, Position::new(4, 5, 6));
    state.touch_heartbeat(&a, 42);
    let got = state.get(&a).unwrap();
    assert_eq!(got.position.x, 4);
    assert_eq!(got.position.y, 5);
    assert_eq!(got.position.z, 6);
    assert_eq!(got.last_heartbeat, 42);
    let other = state.get(&b).unwrap();
    assert_eq!(other.position.x, 0);
    assert_eq!(other.last_heartbeat, 0);

    let missing = "nobody".to_string();
    assert!(state.get(&missing).is_none());
    state.update_position(&missing, Position::new(9, 9, 9));
    state.touch_heartbeat(&missing, 9);
    assert_eq!(state.players.len(), 2);
}

#[test]
fn snapshot_copies_every_session() {
    let mut state = ServerState::new((80, 24));
    let a = "a".to_string();
    let b = "b".to_string();
    state.upsert(&a, Position::new(1, 0, 0), 0);
    state.upsert(&b, Position::new(0, 2, 0), 0);
    let snap = state.snapshot();
    assert_eq!(snap.board_size, (80, 24));
    assert_eq!(snap.players.len(), 2);
    assert_eq!(snap.players[0].0, "a");
    assert_eq!(snap.players[0].1.position.x, 1);
    assert_eq!(snap.players[1].0, "b");
    assert_eq!(snap.players[1].1.position.y, 2);
}

#[test]
fn snapshot_serializes_to_expected_json() {
    let mut state = ServerState::new((80, 24));
    let a = "a".to_string();
    state.upsert(&a, Position::new(1, -2, 0), 0);
    let bytes = state.serialize();
    assert_eq!(
        bytes,
        b"{\"board_size\":[80,24],\"players\":{\"a\":{\"position\":{\"x\":1,\"y\":-2,\"z\":0}}}}"
            .to_vec()
    );
    let v: serde_json::Value = serde_json::from_slice(&bytes).unwrap();
    assert_eq!(v["board_size"][0], 80);
    assert_eq!(v["players"]["a"]["position"]["y"], -2);
}

#[test]
fn validator_bounds_for_80_by_24() {
    let board = (80u32, 24u32);
    assert!(validate_move(&Position::new(-40, 0, 0), board));
    assert!(!validate_move(&Position::new(40, 0, 0), board));
    assert!(validate_move(&Position::new(39, 0, 0), board));
    assert!(!validate_move(&Position::new(-41, 0, 0), board));
    assert!(validate_move(&Position::new(0, -10, 0), board));
    assert!(!validate_move(&Position::new(0, -11, 0), board));
    assert!(!validate_move(&Position::new(0, -12, 0), board));
    assert!(validate_move(&Position::new(0, 11, 0), board));
    assert!(!validate_move(&Position::new(0, 12, 0), board));
}

#[test]
fn validator_bounds_for_odd_sizes() {
    let board = (81u32, 25u32);
    assert!(validate_move(&Position::new(-40, 0, 0), board));
    assert!(!validate_move(&Position::new(-41, 0, 0), board));
    assert!(validate_move(&Position::new(39, 0, 0), board));
    assert!(!validate_move(&Position::new(40, 0, 0), board));
    assert!(validate_move(&Position::new(0, -10, 0), board));
    assert!(!validate_move(&Position::new(0, -11, 0), board));
    assert!(validate_move(&Position::new(0, 11, 0), board));
    assert!(!validate_move(&Position::new(0, 12, 0), board));
}

#[test]
fn empty_snapshot_defaults() {
    let snap = ServerStateSend::new();
    assert!(snap.players.is_empty());
    assert_eq!(snap.board_size, (254, 254));
    let entry = PlayerStateSend::new();
    assert_eq!(entry.position.x, 0);
    assert_eq!(entry.position.y, 0);
    assert_eq!(entry.position.z, 0);
}
