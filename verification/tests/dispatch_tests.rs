use game_udp::dispatch::dispatch;
use game_udp::dispatch::handle_chat;
use game_udp::dispatch::handle_heartbeat;
use game_udp::dispatch::handle_position_update;
use game_udp::dispatch::heartbeat_pings;
use game_udp::dispatch::reap;
use game_udp::Chat;
use game_udp::GamePacket;
use game_udp::MessageType;
use game_udp::PlayerUpdate;
use game_udp::Position;
use game_udp::ServerState;

fn server_with_abc() -> (ServerState, String, String, String) {
    let mut state = ServerState::new((80, 24));
    let a = "10.0.0.1:1".to_string();
    let b = "10.0.0.2:2".to_string();
    let c = "10.0.0.3:3".to_string();
    state.upsert(&a, Position::new(0, 0, 0), 0);
    state.upsert(&b, Position::new(0, 0, 0), 0);
    state.upsert(&c, Position::new(0, 0, 0), 0);
    (state, a, b, c)
}

#[test]
fn accepted_move_is_broadcast_to_others_and_confirmed_to_sender_only() {
    let (mut state, a, b, c) = server_with_abc();
    let payload = Position::new(5, -3, 0).serialize();
    let out = handle_position_update(&mut state, &a, 9, &payload, 4);

    assert_eq!(out.len(), 3);
    let mut confirms = 0;
    for o in &out {
        let packet = GamePacket::deserialize(&o.data).unwrap();
        assert_eq!(packet.seq_num, 9);
        if o.recipient == a {
            confirms += 1;
            assert!(matches!(packet.msg_type, MessageType::ConfirmPlayerMovement));
            let p = Position::deserialize(&packet.payload).unwrap();
            assert_eq!((p.x, p.y, p.z), (5, -3, 0));
        } else {
            assert!(o.recipient == b || o.recipient == c);
            assert!(matches!(packet.msg_type, MessageType::PositionUpdate));
            let u = PlayerUpdate::deserialize(&packet.payload).unwrap();
            assert_eq!(u.player, a);
            assert_eq!((u.position.x, u.position.y, u.position.z), (5, -3, 0));
        }
    }
    assert_eq!(confirms, 1);
    let session = state.get(&a).unwrap();
    assert_eq!(session.position.x, 5);
    assert_eq!(session.last_heartbeat, 4);
}

#[test]
fn rejected_move_answers_sender_with_current_position_and_no_broadcast() {
    let (mut state, a, _b, _c) = server_with_abc();
    state.update_position(&a, Position::new(7, 2, 1));
    let payload = Position::new(40, 0, 0).serialize();
    let out = handle_position_update(&mut state, &a, 3, &payload, 6);

    assert_eq!(out.len(), 1);
    assert_eq!(out[0].recipient, a);
    let packet = GamePacket::deserialize(&out[0].data).unwrap();
    assert!(matches!(packet.msg_type, MessageType::ConfirmPlayerMovement));
    assert_eq!(packet.seq_num, 3);
    let p = Position::deserialize(&packet.payload).unwrap();
    assert_eq!((p.x, p.y, p.z), (7, 2, 1));
    let session = state.get(&a).unwrap();
    assert_eq!(session.position.x, 7);
    assert_eq!(session.last_heartbeat, 0);
}

#[test]
fn unknown_sender_is_implicitly_registered_before_validation() {
    let mut state = ServerState::new((80, 24));
    let stranger = "203.0.113.9:9".to_string();
    let payload = Position::new(100, 0, 0).serialize();
    let out = handle_position_update(&mut state, &stranger, 1, &payload, 2);

    assert_eq!(state.players.len(), 1);
    let session = state.get(&stranger).unwrap();
    assert_eq!((session.position.x, session.position.y, session.position.z), (0, 0, 0));
    assert_eq!(session.player_number, 0);
    assert_eq!(out.len(), 1);
    let packet = GamePacket::deserialize(&out[0].data).unwrap();
    let p = Position::deserialize(&packet.payload).unwrap();
    assert_eq!((p.x, p.y, p.z), (0, 0, 0));
}

#[test]
fn malformed_position_payload_is_dropped() {
    let (mut state, a, _b, _c) = server_with_abc();
    let out = handle_position_update(&mut state, &a, 1, &b"oops".to_vec(), 2);
    assert!(out.is_empty());
    assert_eq!(state.players.len(), 3);
    assert_eq!(state.get(&a).unwrap().last_heartbeat, 0);
}

#[test]
fn chat_is_broadcast_to_everyone_including_sender() {
    let (state, a, b, c) = server_with_abc();
    let payload = Chat { text: "hi all".to_string() }.serialize();
    let out = handle_chat(&state, 21, &payload);

    assert_eq!(out.len(), 3);
    let recipients: Vec<&String> = out.iter().map(|o| &o.recipient).collect();
    assert!(recipients.contains(&&a));
    assert!(recipients.contains(&&b));
    assert!(recipients.contains(&&c));
    for o in &out {
        let packet = GamePacket::deserialize(&o.data).unwrap();
        assert!(matches!(packet.msg_type, MessageType::ChatMessage));
        assert_eq!(packet.seq_num, 21);
        assert_eq!(Chat::deserialize(&packet.payload).unwrap().text, "hi all");
    }
}

#[test]
fn chat_does_not_refresh_heartbeat_and_bad_chat_is_dropped() {
    let (state, a, _b, _c) = server_with_abc();
    assert!(handle_chat(&state, 1, &b"{\"txt\":1}".to_vec()).is_empty());
    assert_eq!(state.get(&a).unwrap().last_heartbeat, 0);
}

#[test]
fn heartbeat_refreshes_known_sender_and_ignores_strangers() {
    let (mut state, a, b, _c) = server_with_abc();
    handle_heartbeat(&mut state, &a, 99);
    assert_eq!(state.get(&a).unwrap().last_heartbeat, 99);
    assert_eq!(state.get(&b).unwrap().last_heartbeat, 0);

    let stranger = "198.51.100.7:7".to_string();
    handle_heartbeat(&mut state, &stranger, 99);
    assert_eq!(state.players.len(), 3);
    assert!(state.get(&stranger).is_none());
}

#[test]
fn pings_go_to_every_session_with_sequence_zero() {
    let (state, a, b, c) = server_with_abc();
    let out = heartbeat_pings(&state);
    assert_eq!(out.len(), 3);
    let expected = [a, b, c];
    for (o, id) in out.iter().zip(expected.iter()) {
        assert_eq!(&o.recipient, id);
        let packet = GamePacket::deserialize(&o.data).unwrap();
        assert!(matches!(packet.msg_type, MessageType::Heartbeat));
        assert_eq!(packet.seq_num, 0);
        assert!(packet.payload.is_empty());
    }
}

#[test]
fn reap_removes_exactly_the_idle_session_and_tells_only_the_others() {
    let (mut state, a, b, c) = server_with_abc();
    state.touch_heartbeat(&b, 8);
    state.touch_heartbeat(&c, 8);
    let out = reap(&mut state, 11);

    assert_eq!(state.players.len(), 2);
    assert!(state.get(&a).is_none());
    assert!(state.get(&b).is_some());
    assert!(state.get(&c).is_some());

    assert_eq!(out.len(), 2);
    let mut told = vec![];
    for o in &out {
        assert_ne!(o.recipient, a);
        let packet = GamePacket::deserialize(&o.data).unwrap();
        assert!(matches!(packet.msg_type, MessageType::PlayerLeft));
        assert_eq!(packet.seq_num, 0);
        assert_eq!(packet.payload, a.as_bytes().to_vec());
        told.push(o.recipient.clone());
    }
    told.sort();
    assert_eq!(told, vec![b, c]);
}

#[test]
fn reap_at_the_timeout_boundary_keeps_the_session() {
    let (mut state, a, b, c) = server_with_abc();
    state.touch_heartbeat(&a, 1);
    state.touch_heartbeat(&b, 5);
    state.touch_heartbeat(&c, 5);
    let out = reap(&mut state, 11);
    assert!(state.get(&a).is_some());
    assert!(out.is_empty());
    let out = reap(&mut state, 12);
    assert!(state.get(&a).is_none());
    assert_eq!(out.len(), 2);
}

#[test]
fn successive_connections_get_increasing_unique_player_numbers() {
    let mut state = ServerState::new((80, 24));
    let a = "10.1.1.1:1".to_string();
    let b = "10.2.2.2:2".to_string();
    let init = GamePacket::new(MessageType::ConnectionInit, 1, vec![]).serialize();
    dispatch(&mut state, &a, &init, 0);
    dispatch(&mut state, &b, &init, 0);
    let na = state.get(&a).unwrap().player_number;
    let nb = state.get(&b).unwrap().player_number;
    assert_eq!(na, 0);
    assert_eq!(nb, 1);
    assert!(nb > na);
}

#[test]
fn connection_init_end_to_end() {
    let mut state = ServerState::new((80, 24));
    let first = "10.1.1.1:1".to_string();
    let second = "10.2.2.2:2".to_string();

    let init = GamePacket::new(MessageType::ConnectionInit, 1, vec![]).serialize();
    let out = dispatch(&mut state, &first, &init, 0);

    assert_eq!(out.len(), 2);
    assert_eq!(out[0].recipient, first);
    let reply = GamePacket::deserialize(&out[0].data).unwrap();
    assert!(matches!(reply.msg_type, MessageType::ConnectionInit));
    assert_eq!(reply.seq_num, 1);
    let snap: serde_json::Value = serde_json::from_slice(&reply.payload).unwrap();
    let players = snap["players"].as_object().unwrap();
    assert_eq!(players.len(), 1);
    let me = &players[first.as_str()];
    assert_eq!(me["position"]["x"], 0);
    assert_eq!(me["position"]["y"], 0);
    assert_eq!(me["position"]["z"], 0);
    assert_eq!(snap["board_size"][0], 80);
    assert_eq!(snap["board_size"][1], 24);

    assert_eq!(out[1].recipient, first);
    let welcome = GamePacket::deserialize(&out[1].data).unwrap();
    assert!(matches!(welcome.msg_type, MessageType::ChatMessage));
    assert_eq!(Chat::deserialize(&welcome.payload).unwrap().text, "Welcome to the server!");

    let out = dispatch(&mut state, &second, &init, 0);
    assert_eq!(out.len(), 3);
    let join_to_first: Vec<_> = out.iter().filter(|o| o.recipient == first).collect();
    assert_eq!(join_to_first.len(), 1);
    let join = GamePacket::deserialize(&join_to_first[0].data).unwrap();
    assert!(matches!(join.msg_type, MessageType::PlayerJoin));
    assert_eq!(join.payload, second.as_bytes().to_vec());
}

#[test]
fn inbound_server_only_types_and_garbage_are_ignored() {
    let (mut state, a, _b, _c) = server_with_abc();
    for t in [
        MessageType::PlayerJoin,
        MessageType::ConfirmPlayerMovement,
        MessageType::PlayerLeft,
    ] {
        let bytes = GamePacket::new(t, 1, vec![1, 2, 3]).serialize();
        assert!(dispatch(&mut state, &a, &bytes, 0).is_empty());
    }
    assert!(dispatch(&mut state, &a, &[0xFF, 1, 0, 0, 0, 1], 0).is_empty());
    assert!(dispatch(&mut state, &a, &[0x01, 1, 0], 0).is_empty());
    assert_eq!(state.players.len(), 3);
}
