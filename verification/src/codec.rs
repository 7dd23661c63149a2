//! Binary packet codec.
//!
//! Every datagram carries one packet: a one-byte message-type tag, a one-byte
//! protocol version, a four-byte big-endian sequence number, and the payload
//! as the remaining bytes with no length prefix.  The codec never interprets
//! payload contents; payload schemas are handled per message type elsewhere.

use vstd::prelude::*;

verus! {

/// The message-type tag that opens every packet on the wire.
#[derive(Clone, Copy, Debug, PartialEq, Eq, Structural)]
pub enum MessageType {
    PositionUpdate,
    ChatMessage,
    Heartbeat,
    ConnectionInit,
    PlayerJoin,
    ConfirmPlayerMovement,
    PlayerLeft,
}

/// The wire byte of each message type.
pub open spec fn tag_byte(t: MessageType) -> u8 {
    match t {
        MessageType::PositionUpdate => 0x01,
        MessageType::ChatMessage => 0x02,
        MessageType::Heartbeat => 0x03,
        MessageType::ConnectionInit => 0x04,
        MessageType::PlayerJoin => 0x05,
        MessageType::ConfirmPlayerMovement => 0x06,
        MessageType::PlayerLeft => 0x07,
    }
}

/// The message type a wire byte stands for, if any.
pub open spec fn tag_of_byte(b: u8) -> Option<MessageType> {
    if b == 0x01 {
        Some(MessageType::PositionUpdate)
    } else if b == 0x02 {
        Some(MessageType::ChatMessage)
    } else if b == 0x03 {
        Some(MessageType::Heartbeat)
    } else if b == 0x04 {
        Some(MessageType::ConnectionInit)
    } else if b == 0x05 {
        Some(MessageType::PlayerJoin)
    } else if b == 0x06 {
        Some(MessageType::ConfirmPlayerMovement)
    } else if b == 0x07 {
        Some(MessageType::PlayerLeft)
    } else {
        None
    }
}

/// Reading a tag back from its wire byte yields the tag itself.
pub proof fn lemma_tag_byte_round_trip(t: MessageType)
    ensures
        tag_of_byte(tag_byte(t)) == Some(t),
{
}

impl MessageType {
    /// Decode a wire byte into a message type; unknown bytes are refused.
    pub fn from_byte(b: u8) -> (r: Option<MessageType>)
        ensures
            r == tag_of_byte(b),
    {
        match b {
            0x01 => Some(MessageType::PositionUpdate),
            0x02 => Some(MessageType::ChatMessage),
            0x03 => Some(MessageType::Heartbeat),
            0x04 => Some(MessageType::ConnectionInit),
            0x05 => Some(MessageType::PlayerJoin),
            0x06 => Some(MessageType::ConfirmPlayerMovement),
            0x07 => Some(MessageType::PlayerLeft),
            _ => None,
        }
    }

    /// The wire byte of this message type.
    pub fn to_byte(&self) -> (r: u8)
        ensures
            r == tag_byte(*self),
    {
        match self {
            MessageType::PositionUpdate => 0x01,
            MessageType::ChatMessage => 0x02,
            MessageType::Heartbeat => 0x03,
            MessageType::ConnectionInit => 0x04,
            MessageType::PlayerJoin => 0x05,
            MessageType::ConfirmPlayerMovement => 0x06,
            MessageType::PlayerLeft => 0x07,
        }
    }
}

/// The four bytes of a sequence number in big-endian order.
pub open spec fn u32_be_bytes(n: u32) -> Seq<u8> {
    seq![
        ((n >> 24) & 0xff) as u8,
        ((n >> 16) & 0xff) as u8,
        ((n >> 8) & 0xff) as u8,
        (n & 0xff) as u8,
    ]
}

/// The sequence number read from four big-endian bytes.
pub open spec fn u32_from_be(b0: u8, b1: u8, b2: u8, b3: u8) -> u32 {
    ((b0 as u32) << 24) | ((b1 as u32) << 16) | ((b2 as u32) << 8) | (b3 as u32)
}

/// Big-endian decoding inverts big-endian encoding.
pub proof fn lemma_u32_be_round_trip(n: u32)
    ensures
        u32_from_be(
            u32_be_bytes(n)[0],
            u32_be_bytes(n)[1],
            u32_be_bytes(n)[2],
            u32_be_bytes(n)[3],
        ) == n,
{
    assert((((((n >> 24) & 0xff) as u8) as u32) << 24 | ((((n >> 16) & 0xff) as u8) as u32)
        << 16 | ((((n >> 8) & 0xff) as u8) as u32) << 8 | (((n & 0xff) as u8) as u32)) == n)
        by (bit_vector);
}

/// The exact bytes a packet with the given fields puts on the wire.
pub open spec fn packet_bytes(
    t: MessageType,
    version: u8,
    seq_num: u32,
    payload: Seq<u8>,
) -> Seq<u8> {
    seq![tag_byte(t), version] + u32_be_bytes(seq_num) + payload
}

/// What decoding a datagram yields: the packet fields, or nothing when the
/// datagram is shorter than the six-byte header or opens with an unknown tag.
pub open spec fn parse_packet(data: Seq<u8>) -> Option<(MessageType, u8, u32, Seq<u8>)> {
    if data.len() < 6 {
        None
    } else {
        match tag_of_byte(data[0]) {
            Some(t) => Some(
                (
                    t,
                    data[1],
                    u32_from_be(data[2], data[3], data[4], data[5]),
                    data.subrange(6, data.len() as int),
                ),
            ),
            None => None,
        }
    }
}

/// Decoding the encoding of any packet reproduces the message type, version,
/// sequence number and payload exactly.
pub proof fn lemma_packet_round_trip(t: MessageType, version: u8, seq_num: u32, payload: Seq<u8>)
    ensures
        parse_packet(packet_bytes(t, version, seq_num, payload)) == Some(
            (t, version, seq_num, payload),
        ),
{
    let bytes = packet_bytes(t, version, seq_num, payload);
    assert(bytes.len() == 6 + payload.len());
    lemma_tag_byte_round_trip(t);
    lemma_u32_be_round_trip(seq_num);
    assert(bytes.subrange(6, bytes.len() as int) =~= payload);
}

/// One packet as sent or received: the unit of every datagram.  The payload
/// is kept as raw bytes; its schema depends on the message type.
#[derive(Debug)]
pub struct GamePacket {
    pub msg_type: MessageType,
    pub version: u8,
    pub seq_num: u32,
    pub payload: Vec<u8>,
}

impl GamePacket {
    /// Build a packet at the current protocol version.
    pub fn new(msg_type: MessageType, seq_num: u32, payload: Vec<u8>) -> (r: GamePacket)
        ensures
            r.msg_type == msg_type,
            r.version == 1,
            r.seq_num == seq_num,
            r.payload@ == payload@,
    {
        GamePacket { msg_type, version: 1, seq_num, payload }
    }

    /// Encode the packet for the wire: tag, version, big-endian sequence
    /// number, then the payload bytes.
    pub fn serialize(&self) -> (r: Vec<u8>)
        ensures
            r@ == packet_bytes(self.msg_type, self.version, self.seq_num, self.payload@),
    {
        let n = self.seq_num;
        proof {
            assert((n >> 24) & 0xff < 256 && (n >> 16) & 0xff < 256 && (n >> 8) & 0xff < 256 && n
                & 0xff < 256) by (bit_vector);
        }
        let mut buf: Vec<u8> = Vec::new();
        buf.push(self.msg_type.to_byte());
        buf.push(self.version);
        buf.push(((n >> 24) & 0xff) as u8);
        buf.push(((n >> 16) & 0xff) as u8);
        buf.push(((n >> 8) & 0xff) as u8);
        buf.push((n & 0xff) as u8);
        let header = Ghost(buf@);
        proof {
            assert(header@ =~= seq![tag_byte(self.msg_type), self.version] + u32_be_bytes(n));
        }
        let mut i: usize = 0;
        while i < self.payload.len()
            invariant
                i <= self.payload.len(),
                buf@ == header@ + self.payload@.subrange(0, i as int),
            decreases self.payload.len() - i,
        {
            buf.push(self.payload[i]);
            i = i + 1;
            proof {
                assert(self.payload@.subrange(0, i as int) =~= self.payload@.subrange(
                    0,
                    i - 1,
                ).push(self.payload@[i - 1]));
            }
        }
        proof {
            assert(self.payload@.subrange(0, self.payload@.len() as int) =~= self.payload@);
        }
        buf
    }

    /// Decode a datagram.  Fails on fewer than six bytes or an unknown tag;
    /// otherwise every byte after the header becomes the payload, unexamined.
    pub fn deserialize(data: &[u8]) -> (r: Option<GamePacket>)
        ensures
            match parse_packet(data@) {
                Some((t, v, s, pl)) => match r {
                    Some(p) => p.msg_type == t && p.version == v && p.seq_num == s && p.payload@
                        == pl,
                    None => false,
                },
                None => r is None,
            },
            data@.len() < 6 ==> r is None,
            data@.len() >= 6 && tag_of_byte(data@[0]) is None ==> r is None,
    {
        if data.len() < 6 {
            return None;
        }
        let msg_type = match MessageType::from_byte(data[0]) {
            Some(t) => t,
            None => { return None; },
        };
        let version = data[1];
        let (b0, b1, b2, b3) = (data[2] as u32, data[3] as u32, data[4] as u32, data[5] as u32);
        proof {
            let (c0, c1, c2, c3) = (data@[2], data@[3], data@[4], data@[5]);
            assert((c0 as u32) << 24 <= 0xff000000 && (c1 as u32) << 16 <= 0xff0000 && (c2 as u32)
                << 8 <= 0xff00) by (bit_vector);
        }
        let seq_num = (b0 << 24) | (b1 << 16) | (b2 << 8) | b3;
        let mut payload: Vec<u8> = Vec::new();
        let mut i: usize = 6;
        while i < data.len()
            invariant
                6 <= i <= data@.len(),
                payload@ == data@.subrange(6, i as int),
            decreases data@.len() - i,
        {
            payload.push(data[i]);
            i = i + 1;
            proof {
                assert(data@.subrange(6, i as int) =~= data@.subrange(6, i - 1).push(
                    data@[i - 1],
                ));
            }
        }
        Some(GamePacket { msg_type, version, seq_num, payload })
    }
}

} // verus!
