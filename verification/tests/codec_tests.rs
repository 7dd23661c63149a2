use game_udp::GamePacket;
use game_udp::MessageType;

fn round_trip(msg_type: MessageType, seq_num: u32, payload: Vec<u8>) -> GamePacket {
    let packet = GamePacket::new(msg_type, seq_num, payload);
    let bytes = packet.serialize();
    GamePacket::deserialize(&bytes).expect("encoded packet must decode")
}

#[test]
fn encode_layout_is_tag_version_seq_payload() {
    let packet = GamePacket::new(MessageType::PositionUpdate, 0x01020304, vec![0xAA, 0xBB]);
    let bytes = packet.serialize();
    assert_eq!(bytes, vec![0x01, 0x01, 0x01, 0x02, 0x03, 0x04, 0xAA, 0xBB]);
}

#[test]
fn round_trip_reproduces_all_fields() {
    let decoded = round_trip(MessageType::ChatMessage, 7, vec![1, 2, 3, 4, 5]);
    assert!(matches!(decoded.msg_type, MessageType::ChatMessage));
    assert_eq!(decoded.version, 1);
    assert_eq!(decoded.seq_num, 7);
    assert_eq!(decoded.payload, vec![1, 2, 3, 4, 5]);
}

#[test]
fn round_trip_empty_payload() {
    let decoded = round_trip(MessageType::Heartbeat, 0, vec![]);
    assert!(matches!(decoded.msg_type, MessageType::Heartbeat));
    assert_eq!(decoded.seq_num, 0);
    assert!(decoded.payload.is_empty());
}

#[test]
fn round_trip_extreme_sequence_numbers() {
    for seq in [0u32, 1, 0xFF, 0x100, 0xFFFF_FFFF, 0x8000_0000] {
        let decoded = round_trip(MessageType::ConnectionInit, seq, vec![9]);
        assert_eq!(decoded.seq_num, seq);
    }
}

#[test]
fn round_trip_every_message_type() {
    let all = [
        MessageType::PositionUpdate,
        MessageType::ChatMessage,
        MessageType::Heartbeat,
        MessageType::ConnectionInit,
        MessageType::PlayerJoin,
        MessageType::ConfirmPlayerMovement,
        MessageType::PlayerLeft,
    ];
    for (k, t) in all.iter().enumerate() {
        let decoded = round_trip(*t, k as u32, vec![k as u8]);
        assert_eq!(decoded.msg_type.to_byte(), t.to_byte());
        assert_eq!(decoded.msg_type.to_byte(), (k + 1) as u8);
    }
}

#[test]
fn decode_fails_on_inputs_shorter_than_header() {
    let full = [0x01u8, 0x01, 0x00, 0x00, 0x00, 0x07];
    for len in 0..6 {
        assert!(GamePacket::deserialize(&full[..len]).is_none());
    }
    assert!(GamePacket::deserialize(&full).is_some());
}

#[test]
fn decode_fails_on_unknown_tag() {
    for tag in [0x00u8, 0x08, 0x7F, 0xFF] {
        let bytes = [tag, 0x01, 0, 0, 0, 1, 0xAB];
        assert!(GamePacket::deserialize(&bytes).is_none());
    }
}

#[test]
fn decode_keeps_version_and_trailing_bytes() {
    let bytes = [0x03u8, 0x02, 0, 0, 0, 5, 10, 20, 30];
    let decoded = GamePacket::deserialize(&bytes).unwrap();
    assert!(matches!(decoded.msg_type, MessageType::Heartbeat));
    assert_eq!(decoded.version, 2);
    assert_eq!(decoded.seq_num, 5);
    assert_eq!(decoded.payload, vec![10, 20, 30]);
}

#[test]
fn from_byte_matches_tag_table() {
    assert!(matches!(MessageType::from_byte(0x01), Some(MessageType::PositionUpdate)));
    assert!(matches!(MessageType::from_byte(0x02), Some(MessageType::ChatMessage)));
    assert!(matches!(MessageType::from_byte(0x03), Some(MessageType::Heartbeat)));
    assert!(matches!(MessageType::from_byte(0x04), Some(MessageType::ConnectionInit)));
    assert!(matches!(MessageType::from_byte(0x05), Some(MessageType::PlayerJoin)));
    assert!(matches!(MessageType::from_byte(0x06), Some(MessageType::ConfirmPlayerMovement)));
    assert!(matches!(MessageType::from_byte(0x07), Some(MessageType::PlayerLeft)));
    assert!(MessageType::from_byte(0x00).is_none());
    assert!(MessageType::from_byte(0x08).is_none());
}
