//! Command dispatcher, broadcast fan-out, and the periodic liveness actions.
//!
//! Every function here is pure protocol logic: it takes the registry, the
//! sender's identity, the datagram bytes and the current time-unit, mutates
//! the registry, and returns the datagrams to send as a list of
//! recipient/bytes pairs.  The caller owns the socket and the timers: it
//! performs each send (ignoring per-recipient failures) and supplies the
//! clock, so the whole per-datagram decision is checked here without any
//! I/O.

use vstd::prelude::*;

use vstd::string::StrSliceExecFns;
use vstd::utf8::encode_utf8;

use crate::codec::packet_bytes;
use crate::codec::parse_packet;
use crate::codec::GamePacket;
use crate::codec::MessageType;
use crate::payload::chat_json_of;
use crate::payload::parse_chat_json;
use crate::payload::parse_pos_json;
use crate::payload::player_update_json_of;
use crate::payload::pos_json_of;
use crate::payload::Chat;
use crate::payload::PlayerUpdate;
use crate::payload::Position;
use crate::registry::has_id;
use crate::registry::id_index;
use crate::registry::is_stale;
use crate::registry::move_allowed;
use crate::registry::players_model;
use crate::registry::snapshot_json_of;
use crate::registry::validate_move;
use crate::registry::PlayerState;
use crate::registry::ServerState;
use crate::registry::SessionEntry;
use crate::registry::HEARTBEAT_TIMEOUT;

verus! {

/// One datagram to send: the recipient's identity and the encoded packet.
#[derive(Debug)]
pub struct Outbound {
    pub recipient: String,
    pub data: Vec<u8>,
}

/// The bytes of a packet at the current protocol version.
pub open spec fn wire(t: MessageType, seq_num: u32, payload: Seq<u8>) -> Seq<u8> {
    packet_bytes(t, 1, seq_num, payload)
}

/// The default position of a newly registered session.
pub open spec fn origin() -> Position {
    Position { x: 0, y: 0, z: 0 }
}

/// Whether the registry holds a session for this identity.
pub open spec fn session_known(pre: ServerState, sender: Seq<char>) -> bool {
    has_id(pre.players@, sender)
}

/// The index the sender's session has, or gets, after an implicit or
/// explicit registration: its current slot when known, the appended slot
/// when new.
pub open spec fn sender_slot(pre: ServerState, sender: Seq<char>) -> int {
    if session_known(pre, sender) {
        id_index(pre.players@, sender)
    } else {
        pre.players@.len() as int
    }
}

/// The registry after traffic from `sender`: every other session is exactly
/// as it was, and the sender's entry holds the given position, heartbeat and
/// player number, with the counter at `snext`.
pub open spec fn registry_after_update(
    pre: ServerState,
    post: ServerState,
    sender: Seq<char>,
    spos: Position,
    shb: u64,
    snum: u32,
    snext: u32,
) -> bool {
    let k = sender_slot(pre, sender);
    &&& post.board_size == pre.board_size
    &&& post.next_player_number == snext
    &&& post.players@.len() == (if session_known(pre, sender) {
        pre.players@.len() as int
    } else {
        pre.players@.len() as int + 1
    })
    &&& forall|i: int|
        0 <= i < pre.players@.len() && (#[trigger] pre.players@[i]).id@ != sender ==> post.players@[i]
            == pre.players@[i]
    &&& post.players@[k].id@ == sender
    &&& post.players@[k].state.position == spos
    &&& post.players@[k].state.last_heartbeat == shb
    &&& post.players@[k].state.player_number == snum
}

/// A byte-for-byte copy of an encoded packet, for fanning the same bytes out
/// to several recipients.
fn copy_bytes(data: &Vec<u8>) -> (r: Vec<u8>)
    ensures
        r@ == data@,
{
    let mut r: Vec<u8> = Vec::new();
    let mut i: usize = 0;
    while i < data.len()
        invariant
            i <= data@.len(),
            r@ == data@.subrange(0, i as int),
        decreases data@.len() - i,
    {
        r.push(data[i]);
        i = i + 1;
        proof {
            assert(data@.subrange(0, i as int) =~= data@.subrange(0, i - 1).push(data@[i - 1]));
        }
    }
    proof {
        assert(data@.subrange(0, data@.len() as int) =~= data@);
    }
    r
}

/// What the periodic ping sends: an empty `Heartbeat` packet to every
/// current session.
pub fn heartbeat_pings(state: &ServerState) -> (out: Vec<Outbound>)
    ensures
        out@.len() == state.players@.len(),
        forall|i: int|
            0 <= i < out@.len() ==> (#[trigger] out@[i]).recipient@ == state.players@[i].id@
                && out@[i].data@ == wire(MessageType::Heartbeat, 0, Seq::<u8>::empty()),
{
    let empty: Vec<u8> = Vec::new();
    proof {
        assert(empty@ =~= Seq::<u8>::empty());
    }
    let ping = GamePacket::new(MessageType::Heartbeat, 0, empty).serialize();
    let mut out: Vec<Outbound> = Vec::new();
    let mut i: usize = 0;
    while i < state.players.len()
        invariant
            i <= state.players@.len(),
            out@.len() == i,
            ping@ == wire(MessageType::Heartbeat, 0, Seq::<u8>::empty()),
            forall|j: int|
                0 <= j < i ==> (#[trigger] out@[j]).recipient@ == state.players@[j].id@
                    && out@[j].data@ == wire(MessageType::Heartbeat, 0, Seq::<u8>::empty()),
        decreases state.players@.len() - i,
    {
        out.push(Outbound { recipient: state.players[i].id.clone(), data: copy_bytes(&ping) });
        i = i + 1;
    }
    out
}

/// What handling an inbound `ChatMessage` does: a well-formed chat payload
/// is re-encoded and fanned out, with the inbound sequence number unchanged,
/// to every current session, the sender included; a malformed payload is
/// dropped.  The registry is never touched, so chat traffic does not refresh
/// a session's heartbeat.
pub open spec fn chat_post(
    state: ServerState,
    out: Seq<Outbound>,
    seq_num: u32,
    payload: Seq<u8>,
) -> bool {
    match parse_chat_json(payload) {
        Some(text) => {
            &&& out.len() == state.players@.len()
            &&& forall|i: int|
                0 <= i < out.len() ==> (#[trigger] out[i]).recipient@ == state.players@[i].id@
                    && out[i].data@ == wire(MessageType::ChatMessage, seq_num, chat_json_of(text))
        },
        None => out.len() == 0,
    }
}

/// Handle an inbound `ChatMessage` datagram's payload.
pub fn handle_chat(state: &ServerState, seq_num: u32, payload: &Vec<u8>) -> (out: Vec<Outbound>)
    ensures
        chat_post(*state, out@, seq_num, payload@),
{
    let chat = match Chat::deserialize(payload.as_slice()) {
        Some(c) => c,
        None => { return Vec::new(); },
    };
    let data = GamePacket::new(MessageType::ChatMessage, seq_num, chat.serialize()).serialize();
    let mut out: Vec<Outbound> = Vec::new();
    let mut i: usize = 0;
    while i < state.players.len()
        invariant
            i <= state.players@.len(),
            out@.len() == i,
            data@ == wire(MessageType::ChatMessage, seq_num, chat_json_of(chat.text@)),
            parse_chat_json(payload@) == Some(chat.text@),
            forall|j: int|
                0 <= j < i ==> (#[trigger] out@[j]).recipient@ == state.players@[j].id@
                    && out@[j].data@ == wire(
                    MessageType::ChatMessage,
                    seq_num,
                    chat_json_of(chat.text@),
                ),
        decreases state.players@.len() - i,
    {
        out.push(Outbound { recipient: state.players[i].id.clone(), data: copy_bytes(&data) });
        i = i + 1;
    }
    out
}

/// The text of the chat line greeting a newly initialized connection.
pub open spec fn welcome_text() -> Seq<char> {
    "Welcome to the server!"@
}

/// What handling an inbound `ConnectionInit` does.  The sender is registered
/// if it is new — receiving the next player number, which is strictly above
/// every number ever handed out before and never reused — and left as it
/// stands if already known, with its heartbeat refreshed either way.  The
/// sender is answered with the full post-registration snapshot, every other
/// session is told `PlayerJoin` naming the sender, and the sender is greeted
/// with a welcome chat line.
pub open spec fn connection_init_post(
    pre: ServerState,
    post: ServerState,
    out: Seq<Outbound>,
    sender: Seq<char>,
    seq_num: u32,
    now: u64,
) -> bool {
    let known = session_known(pre, sender);
    let k = sender_slot(pre, sender);
    let num = if known {
        pre.players@[k].state.player_number
    } else {
        pre.next_player_number
    };
    let nxt = if known {
        pre.next_player_number
    } else {
        (pre.next_player_number + 1) as u32
    };
    let pos = if known {
        pre.players@[k].state.position
    } else {
        origin()
    };
    &&& registry_after_update(pre, post, sender, pos, now, num, nxt)
    &&& !known ==> forall|i: int|
        0 <= i < pre.players@.len() ==> (#[trigger] pre.players@[i]).state.player_number < num
    &&& out.len() == post.players@.len() + 1
    &&& out[0].recipient@ == sender
    &&& out[0].data@ == wire(
        MessageType::ConnectionInit,
        seq_num,
        snapshot_json_of(
            players_model(post.players@),
            pre.board_size.0 as int,
            pre.board_size.1 as int,
        ),
    )
    &&& out[out.len() - 1].recipient@ == sender
    &&& out[out.len() - 1].data@ == wire(MessageType::ChatMessage, seq_num, chat_json_of(welcome_text()))
    &&& forall|j: int|
        1 <= j < out.len() - 1 ==> (#[trigger] out[j]).recipient@ != sender && has_id(
            post.players@,
            out[j].recipient@,
        ) && out[j].data@ == wire(MessageType::PlayerJoin, seq_num, encode_utf8(sender))
    &&& forall|i: int|
        0 <= i < post.players@.len() && (#[trigger] post.players@[i]).id@ != sender ==> exists|j: int|
            1 <= j < out.len() - 1 && (#[trigger] out[j]).recipient@ == post.players@[i].id@
}

/// Handle an inbound `ConnectionInit` datagram.
pub fn handle_connection_init(
    state: &mut ServerState,
    sender: &String,
    seq_num: u32,
    now: u64,
) -> (out: Vec<Outbound>)
    requires
        old(state).wf(),
        old(state).next_player_number < u32::MAX,
    ensures
        final(state).wf(),
        connection_init_post(*old(state), *final(state), out@, sender@, seq_num, now),
{
    let ghost pre = *state;
    let idx = state.upsert(sender, Position::new(0, 0, 0), now);
    state.touch_heartbeat(sender, now);
    let snap = state.serialize();
    let mut out: Vec<Outbound> = Vec::new();
    out.push(
        Outbound {
            recipient: sender.clone(),
            data: GamePacket::new(MessageType::ConnectionInit, seq_num, snap).serialize(),
        },
    );
    let join_bytes = GamePacket::new(
        MessageType::PlayerJoin,
        seq_num,
        sender.as_str().as_bytes_vec(),
    ).serialize();
    let mut i: usize = 0;
    while i < state.players.len()
        invariant
            state.wf(),
            idx < state.players@.len(),
            state.players@[idx as int].id@ == sender@,
            i <= state.players@.len(),
            join_bytes@ == wire(MessageType::PlayerJoin, seq_num, encode_utf8(sender@)),
            out@.len() == (if (idx as int) < (i as int) {
                i as int
            } else {
                i as int + 1
            }),
            out@[0].recipient@ == sender@,
            out@[0].data@ == wire(
                MessageType::ConnectionInit,
                seq_num,
                snapshot_json_of(
                    players_model(state.players@),
                    pre.board_size.0 as int,
                    pre.board_size.1 as int,
                ),
            ),
            forall|j: int|
                1 <= j < out@.len() ==> (#[trigger] out@[j]).recipient@ != sender@ && has_id(
                    state.players@,
                    out@[j].recipient@,
                ) && out@[j].data@ == join_bytes@,
            forall|i2: int|
                0 <= i2 < i && (#[trigger] state.players@[i2]).id@ != sender@ ==> exists|j: int|
                    1 <= j < out@.len() && (#[trigger] out@[j]).recipient@
                        == state.players@[i2].id@,
        decreases state.players@.len() - i,
    {
        let ghost out0 = out@;
        if i != idx {
            proof {
                assert(state.players@[i as int].id@ != sender@);
            }
            out.push(
                Outbound { recipient: state.players[i].id.clone(), data: copy_bytes(&join_bytes) },
            );
        }
        i = i + 1;
        proof {
            assert forall|i2: int|
                0 <= i2 < i && (#[trigger] state.players@[i2]).id@ != sender@ implies exists|j: int|
                1 <= j < out@.len() && (#[trigger] out@[j]).recipient@
                    == state.players@[i2].id@ by {
                if i2 == i - 1 {
                    assert(out@[out@.len() - 1].recipient@ == state.players@[i2].id@);
                } else {
                    let j0 = choose|j: int|
                        1 <= j < out0.len() && (#[trigger] out0[j]).recipient@
                            == state.players@[i2].id@;
                    assert(out@[j0].recipient@ == state.players@[i2].id@);
                }
            }
        }
    }
    let ghost out1 = out@;
    let welcome = Chat { text: "Welcome to the server!".to_owned() };
    out.push(
        Outbound {
            recipient: sender.clone(),
            data: GamePacket::new(MessageType::ChatMessage, seq_num, welcome.serialize()).serialize(),
        },
    );
    proof {
        assert forall|i2: int|
            0 <= i2 < state.players@.len() && (#[trigger] state.players@[i2]).id@ != sender@
            implies exists|j: int|
            1 <= j < out@.len() - 1 && (#[trigger] out@[j]).recipient@
                == state.players@[i2].id@ by {
            let j0 = choose|j: int|
                1 <= j < out1.len() && (#[trigger] out1[j]).recipient@ == state.players@[i2].id@;
            assert(out@[j0].recipient@ == state.players@[i2].id@);
        }
    }
    out
}

/// What handling an inbound `Heartbeat` does: a known sender's heartbeat is
/// refreshed to `now`; an unknown sender is ignored, never implicitly
/// registered.  Nothing is sent back.
pub open spec fn heartbeat_post(
    pre: ServerState,
    post: ServerState,
    sender: Seq<char>,
    now: u64,
) -> bool {
    &&& post.board_size == pre.board_size
    &&& post.next_player_number == pre.next_player_number
    &&& post.players@.len() == pre.players@.len()
    &&& forall|i: int|
        0 <= i < pre.players@.len() && (#[trigger] pre.players@[i]).id@ != sender ==> post.players@[i]
            == pre.players@[i]
    &&& forall|i: int|
        0 <= i < pre.players@.len() && (#[trigger] pre.players@[i]).id@ == sender ==> {
            &&& post.players@[i].id@ == sender
            &&& post.players@[i].state.position == pre.players@[i].state.position
            &&& post.players@[i].state.last_heartbeat == now
            &&& post.players@[i].state.player_number == pre.players@[i].state.player_number
        }
}

/// What handling an inbound `PositionUpdate` does.  A malformed payload is
/// dropped.  Otherwise an unknown sender is first implicitly registered at
/// the origin.  A candidate position out of bounds changes nothing and is
/// answered with a single `ConfirmPlayerMovement` carrying the session's
/// current position; an accepted one is stored with a fresh heartbeat,
/// broadcast as a `PositionUpdate` naming the sender to every other session,
/// and confirmed to the sender alone, which never hears a `PositionUpdate`
/// about itself.
pub open spec fn position_update_post(
    pre: ServerState,
    post: ServerState,
    out: Seq<Outbound>,
    sender: Seq<char>,
    seq_num: u32,
    payload: Seq<u8>,
    now: u64,
) -> bool {
    match parse_pos_json(payload) {
        None => post == pre && out.len() == 0,
        Some(t) => {
            let p = Position { x: t.0, y: t.1, z: t.2 };
            let known = session_known(pre, sender);
            let k = sender_slot(pre, sender);
            let num = if known {
                pre.players@[k].state.player_number
            } else {
                pre.next_player_number
            };
            let nxt = if known {
                pre.next_player_number
            } else {
                (pre.next_player_number + 1) as u32
            };
            if move_allowed(p, pre.board_size.0, pre.board_size.1) {
                &&& registry_after_update(pre, post, sender, p, now, num, nxt)
                &&& out.len() == post.players@.len()
                &&& forall|i: int|
                    0 <= i < out.len() && i != k ==> (#[trigger] out[i]).recipient@
                        == post.players@[i].id@ && out[i].recipient@ != sender && out[i].data@
                        == wire(
                        MessageType::PositionUpdate,
                        seq_num,
                        player_update_json_of(sender, p.x as int, p.y as int, p.z as int),
                    )
                &&& out[k].recipient@ == sender
                &&& out[k].data@ == wire(
                    MessageType::ConfirmPlayerMovement,
                    seq_num,
                    pos_json_of(p.x as int, p.y as int, p.z as int),
                )
            } else {
                let cur = if known {
                    pre.players@[k].state.position
                } else {
                    origin()
                };
                let chb = if known {
                    pre.players@[k].state.last_heartbeat
                } else {
                    now
                };
                &&& registry_after_update(pre, post, sender, cur, chb, num, nxt)
                &&& out.len() == 1
                &&& out[0].recipient@ == sender
                &&& out[0].data@ == wire(
                    MessageType::ConfirmPlayerMovement,
                    seq_num,
                    pos_json_of(cur.x as int, cur.y as int, cur.z as int),
                )
            }
        },
    }
}

/// Handle an inbound `PositionUpdate` datagram's payload.
pub fn handle_position_update(
    state: &mut ServerState,
    sender: &String,
    seq_num: u32,
    payload: &Vec<u8>,
    now: u64,
) -> (out: Vec<Outbound>)
    requires
        old(state).wf(),
        old(state).next_player_number < u32::MAX,
    ensures
        final(state).wf(),
        position_update_post(*old(state), *final(state), out@, sender@, seq_num, payload@, now),
{
    let ghost pre = *state;
    let p = match Position::deserialize(payload.as_slice()) {
        Some(p) => p,
        None => { return Vec::new(); },
    };
    let idx = state.upsert(sender, Position::new(0, 0, 0), now);
    proof {
        assert(idx as int == sender_slot(pre, sender@));
    }
    if !validate_move(&p, state.board_size) {
        let cur = state.players[idx].state.position;
        let packet = GamePacket::new(MessageType::ConfirmPlayerMovement, seq_num, cur.serialize());
        let mut out: Vec<Outbound> = Vec::new();
        out.push(Outbound { recipient: sender.clone(), data: packet.serialize() });
        return out;
    }
    state.update_position(sender, p);
    state.touch_heartbeat(sender, now);
    let update = PlayerUpdate { player: sender.clone(), position: p };
    let update_bytes = GamePacket::new(
        MessageType::PositionUpdate,
        seq_num,
        update.serialize(),
    ).serialize();
    let confirm_bytes = GamePacket::new(
        MessageType::ConfirmPlayerMovement,
        seq_num,
        p.serialize(),
    ).serialize();
    let mut out: Vec<Outbound> = Vec::new();
    let mut i: usize = 0;
    while i < state.players.len()
        invariant
            state.wf(),
            i <= state.players@.len(),
            idx < state.players@.len(),
            state.players@[idx as int].id@ == sender@,
            update_bytes@ == wire(
                MessageType::PositionUpdate,
                seq_num,
                player_update_json_of(sender@, p.x as int, p.y as int, p.z as int),
            ),
            confirm_bytes@ == wire(
                MessageType::ConfirmPlayerMovement,
                seq_num,
                pos_json_of(p.x as int, p.y as int, p.z as int),
            ),
            out@.len() == i,
            forall|j: int|
                0 <= j < i && j != idx as int ==> (#[trigger] out@[j]).recipient@
                    == state.players@[j].id@ && out@[j].recipient@ != sender@ && out@[j].data@
                    == update_bytes@,
            i > idx ==> out@[idx as int].recipient@ == sender@ && out@[idx as int].data@
                == confirm_bytes@,
        decreases state.players@.len() - i,
    {
        if i == idx {
            out.push(Outbound { recipient: sender.clone(), data: copy_bytes(&confirm_bytes) });
        } else {
            out.push(
                Outbound { recipient: state.players[i].id.clone(), data: copy_bytes(&update_bytes) },
            );
        }
        i = i + 1;
    }
    out
}

/// Handle an inbound `Heartbeat` datagram.
pub fn handle_heartbeat(state: &mut ServerState, sender: &String, now: u64)
    requires
        old(state).wf(),
    ensures
        final(state).wf(),
        heartbeat_post(*old(state), *final(state), sender@, now),
{
    state.touch_heartbeat(sender, now);
}

/// The sessions that survive a reap at time `now`: those not idle past the
/// timeout, in their registry order.
pub open spec fn live_sessions(players: Seq<SessionEntry>, now: u64) -> Seq<SessionEntry> {
    players.filter(|e: SessionEntry| !is_stale(e.state.last_heartbeat, now))
}

/// Whether a session whose last heartbeat was at `hb` is idle past the
/// timeout at time `now`.
fn stale_at(hb: u64, now: u64) -> (r: bool)
    ensures
        r == is_stale(hb, now),
{
    now > HEARTBEAT_TIMEOUT && hb < now - HEARTBEAT_TIMEOUT
}

/// Two sessions connecting by `ConnectionInit` in immediate succession
/// receive strictly increasing, distinct player numbers: the second newcomer
/// is numbered above the first, and the first keeps its number.
pub proof fn lemma_successive_connections(
    s0: ServerState,
    s1: ServerState,
    s2: ServerState,
    out1: Seq<Outbound>,
    out2: Seq<Outbound>,
    a: Seq<char>,
    b: Seq<char>,
    q1: u32,
    q2: u32,
    t1: u64,
    t2: u64,
)
    requires
        !session_known(s0, a),
        connection_init_post(s0, s1, out1, a, q1, t1),
        !session_known(s1, b),
        connection_init_post(s1, s2, out2, b, q2, t2),
    ensures
        ({
            let ka = sender_slot(s0, a);
            let kb = sender_slot(s1, b);
            &&& s2.players@[ka].id@ == a
            &&& s2.players@[kb].id@ == b
            &&& s2.players@[ka].state.player_number == s1.players@[ka].state.player_number
            &&& s2.players@[kb].state.player_number > s2.players@[ka].state.player_number
        }),
{
    let ka = sender_slot(s0, a);
    let kb = sender_slot(s1, b);
    assert(s1.players@[ka].id@ == a);
    assert(s1.players@[ka].state.player_number == s0.next_player_number);
    assert(s1.next_player_number == s0.next_player_number + 1);
    assert(a != b) by {
        if a == b {
            assert(has_id(s1.players@, b));
        }
    }
    assert(s2.players@[ka] == s1.players@[ka]);
    assert(s2.players@[kb].state.player_number == s1.next_player_number);
}

/// One `PlayerLeft` send a reap at time `now` may make: some session
/// registered before the reap, told that some other, stale session left.
pub open spec fn left_notice(pre: ServerState, o: Outbound, now: u64) -> bool {
    exists|s: int, i: int|
        #![trigger pre.players@[s], pre.players@[i]]
        0 <= s < pre.players@.len() && 0 <= i < pre.players@.len() && is_stale(
            pre.players@[s].state.last_heartbeat,
            now,
        ) && pre.players@[i].id@ != pre.players@[s].id@ && o.recipient@ == pre.players@[i].id@
            && o.data@ == wire(MessageType::PlayerLeft, 0, encode_utf8(pre.players@[s].id@))
}

/// Whether `out` holds a send of exactly these bytes to this recipient.
pub open spec fn notified(out: Seq<Outbound>, recipient: Seq<char>, data: Seq<u8>) -> bool {
    exists|j: int|
        0 <= j < out.len() && (#[trigger] out[j]).recipient@ == recipient && out[j].data@ == data
}

/// Appending a send leaves every earlier send in place.
proof fn lemma_notified_push(out: Seq<Outbound>, x: Outbound, recipient: Seq<char>, data: Seq<u8>)
    requires
        notified(out, recipient, data),
    ensures
        notified(out.push(x), recipient, data),
{
    let j = choose|j: int|
        0 <= j < out.len() && (#[trigger] out[j]).recipient@ == recipient && out[j].data@ == data;
    assert(out.push(x)[j].recipient@ == recipient);
}

/// How many sessions a reap at time `now` evicts.
pub open spec fn stale_count(players: Seq<SessionEntry>, now: u64) -> int {
    players.len() - live_sessions(players, now).len()
}

/// What a reap at time `now` does.  Exactly the sessions idle past the
/// timeout are removed; the rest keep their records and order.  For each
/// removed session, every other session registered just before the removal —
/// and only such a session — is sent one `PlayerLeft` packet naming it; the
/// removed session itself is told nothing about its own removal.  The send
/// count is exact: one per removed session and surviving-or-removed other.
pub open spec fn reap_post(
    pre: ServerState,
    post: ServerState,
    out: Seq<Outbound>,
    now: u64,
) -> bool {
    &&& post.board_size == pre.board_size
    &&& post.next_player_number == pre.next_player_number
    &&& post.players@ == live_sessions(pre.players@, now)
    &&& out.len() == stale_count(pre.players@, now) * (pre.players@.len() - 1)
    &&& forall|j: int| 0 <= j < out.len() ==> left_notice(pre, #[trigger] out[j], now)
    &&& forall|s: int, i: int|
        0 <= s < pre.players@.len() && 0 <= i < pre.players@.len() && is_stale(
            (#[trigger] pre.players@[s]).state.last_heartbeat,
            now,
        ) && (#[trigger] pre.players@[i]).id@ != pre.players@[s].id@ ==> notified(
            out,
            pre.players@[i].id@,
            wire(MessageType::PlayerLeft, 0, encode_utf8(pre.players@[s].id@)),
        )
}

/// The periodic reap: evict every session idle past the timeout, telling all
/// the other sessions, and never the evicted one, that it left.
pub fn reap(state: &mut ServerState, now: u64) -> (out: Vec<Outbound>)
    requires
        old(state).wf(),
    ensures
        final(state).wf(),
        reap_post(*old(state), *final(state), out@, now),
{
    let ghost pre = *state;
    let mut out: Vec<Outbound> = Vec::new();
    let mut s: usize = 0;
    while s < state.players.len()
        invariant
            *state == pre,
            state.wf(),
            s <= state.players@.len(),
            out@.len() == stale_count(pre.players@.subrange(0, s as int), now) * (
            pre.players@.len() - 1),
            forall|j: int| 0 <= j < out@.len() ==> left_notice(pre, #[trigger] out@[j], now),
            forall|s2: int, i2: int|
                0 <= s2 < s && 0 <= i2 < pre.players@.len() && is_stale(
                    (#[trigger] pre.players@[s2]).state.last_heartbeat,
                    now,
                ) && (#[trigger] pre.players@[i2]).id@ != pre.players@[s2].id@ ==> notified(
                    out@,
                    pre.players@[i2].id@,
                    wire(MessageType::PlayerLeft, 0, encode_utf8(pre.players@[s2].id@)),
                ),
        decreases state.players@.len() - s,
    {
        if stale_at(state.players[s].state.last_heartbeat, now) {
            let left_bytes = GamePacket::new(
                MessageType::PlayerLeft,
                0,
                state.players[s].id.as_str().as_bytes_vec(),
            ).serialize();
            let ghost base = out@.len() as int;
            let mut i: usize = 0;
            while i < state.players.len()
                invariant
                    *state == pre,
                    state.wf(),
                    s < state.players@.len(),
                    i <= state.players@.len(),
                    base == stale_count(pre.players@.subrange(0, s as int), now) * (
                    pre.players@.len() - 1),
                    out@.len() == base + i - (if (s as int) < (i as int) {
                        1int
                    } else {
                        0int
                    }),
                    is_stale(pre.players@[s as int].state.last_heartbeat, now),
                    left_bytes@ == wire(
                        MessageType::PlayerLeft,
                        0,
                        encode_utf8(pre.players@[s as int].id@),
                    ),
                    forall|j: int| 0 <= j < out@.len() ==> left_notice(pre, #[trigger] out@[j], now),
                    forall|s2: int, i2: int|
                        0 <= s2 < s && 0 <= i2 < pre.players@.len() && is_stale(
                            (#[trigger] pre.players@[s2]).state.last_heartbeat,
                            now,
                        ) && (#[trigger] pre.players@[i2]).id@ != pre.players@[s2].id@ ==> notified(
                            out@,
                            pre.players@[i2].id@,
                            wire(MessageType::PlayerLeft, 0, encode_utf8(pre.players@[s2].id@)),
                        ),
                    forall|i2: int|
                        0 <= i2 < i && (#[trigger] pre.players@[i2]).id@ != pre.players@[s as int].id@
                            ==> notified(out@, pre.players@[i2].id@, left_bytes@),
                decreases state.players@.len() - i,
            {
                let ghost out0 = out@;
                if i != s {
                    proof {
                        assert(pre.players@[i as int].id@ != pre.players@[s as int].id@);
                    }
                    let o = Outbound {
                        recipient: state.players[i].id.clone(),
                        data: copy_bytes(&left_bytes),
                    };
                    proof {
                        assert(left_notice(pre, o, now)) by {
                            assert(0 <= (s as int) < pre.players@.len() && 0 <= (
                            i as int) < pre.players@.len() && is_stale(
                                pre.players@[s as int].state.last_heartbeat,
                                now,
                            ) && pre.players@[i as int].id@ != pre.players@[s as int].id@
                                && o.recipient@ == pre.players@[i as int].id@ && o.data@ == wire(
                                MessageType::PlayerLeft,
                                0,
                                encode_utf8(pre.players@[s as int].id@),
                            ));
                        }
                    }
                    out.push(o);
                    proof {
                        assert forall|s2: int, i2: int|
                            0 <= s2 < s && 0 <= i2 < pre.players@.len() && is_stale(
                                (#[trigger] pre.players@[s2]).state.last_heartbeat,
                                now,
                            ) && (#[trigger] pre.players@[i2]).id@ != pre.players@[s2].id@ implies notified(
                            out@,
                            pre.players@[i2].id@,
                            wire(MessageType::PlayerLeft, 0, encode_utf8(pre.players@[s2].id@)),
                        ) by {
                            lemma_notified_push(
                                out0,
                                out@[out@.len() - 1],
                                pre.players@[i2].id@,
                                wire(MessageType::PlayerLeft, 0, encode_utf8(pre.players@[s2].id@)),
                            );
                            assert(out@ =~= out0.push(out@[out@.len() - 1]));
                        }
                        assert forall|i2: int|
                            0 <= i2 < i + 1 && (#[trigger] pre.players@[i2]).id@
                                != pre.players@[s as int].id@ implies notified(
                            out@,
                            pre.players@[i2].id@,
                            left_bytes@,
                        ) by {
                            if i2 == i as int {
                                assert(out@[out@.len() - 1].recipient@ == pre.players@[i2].id@);
                            } else {
                                lemma_notified_push(
                                    out0,
                                    out@[out@.len() - 1],
                                    pre.players@[i2].id@,
                                    left_bytes@,
                                );
                                assert(out@ =~= out0.push(out@[out@.len() - 1]));
                            }
                        }
                    }
                }
                i = i + 1;
            }
        }
        s = s + 1;
        proof {
            reveal(Seq::filter);
            let sub1 = pre.players@.subrange(0, s as int);
            let sub0 = pre.players@.subrange(0, s - 1);
            assert(sub1.drop_last() =~= sub0);
            assert(sub1.last() == pre.players@[s - 1]);
            let c0 = stale_count(sub0, now);
            let n1 = pre.players@.len() - 1;
            assert((c0 + 1) * n1 == c0 * n1 + n1) by (nonlinear_arith);
        }
    }
    proof {
        assert(pre.players@.subrange(0, pre.players@.len() as int) =~= pre.players@);
    }
    let mut kept: Vec<SessionEntry> = Vec::new();
    let mut i: usize = 0;
    while i < state.players.len()
        invariant
            *state == pre,
            state.wf(),
            i <= state.players@.len(),
            kept@ == live_sessions(pre.players@.subrange(0, i as int), now),
            forall|a: int|
                0 <= a < kept@.len() ==> exists|o: int|
                    0 <= o < i && #[trigger] kept@[a] == pre.players@[o],
            forall|a: int, b: int|
                #![trigger kept@[a], kept@[b]]
                0 <= a < b < kept@.len() ==> exists|o1: int, o2: int|
                    #![trigger pre.players@[o1], pre.players@[o2]]
                    0 <= o1 < o2 < i && kept@[a] == pre.players@[o1] && kept@[b]
                        == pre.players@[o2],
        decreases state.players@.len() - i,
    {
        let ghost kept0 = kept@;
        let e = &state.players[i];
        if !stale_at(e.state.last_heartbeat, now) {
            kept.push(
                SessionEntry {
                    id: e.id.clone(),
                    state: PlayerState {
                        position: e.state.position,
                        last_heartbeat: e.state.last_heartbeat,
                        player_number: e.state.player_number,
                    },
                },
            );
            proof {
                assert(kept@[kept@.len() - 1] == pre.players@[i as int]);
                assert forall|a: int|
                    0 <= a < kept@.len() implies exists|o: int|
                    0 <= o < i + 1 && #[trigger] kept@[a] == pre.players@[o] by {
                    if a == kept@.len() - 1 {
                        assert(kept@[a] == pre.players@[i as int]);
                    } else {
                        let o = choose|o: int| 0 <= o < i && #[trigger] kept0[a] == pre.players@[o];
                        assert(kept@[a] == pre.players@[o]);
                    }
                }
                assert forall|a: int, b: int|
                    #![trigger kept@[a], kept@[b]]
                    0 <= a < b < kept@.len() implies exists|o1: int, o2: int|
                    #![trigger pre.players@[o1], pre.players@[o2]]
                    0 <= o1 < o2 < i + 1 && kept@[a] == pre.players@[o1] && kept@[b]
                        == pre.players@[o2] by {
                    if b == kept@.len() - 1 {
                        let o1 = choose|o: int| 0 <= o < i && #[trigger] kept0[a] == pre.players@[o];
                        assert(kept@[a] == pre.players@[o1] && kept@[b] == pre.players@[i as int]);
                    } else {
                        let (o1, o2) = choose|o1: int, o2: int|
                            #![trigger pre.players@[o1], pre.players@[o2]]
                            0 <= o1 < o2 < i && kept0[a] == pre.players@[o1] && kept0[b]
                                == pre.players@[o2];
                        assert(kept@[a] == pre.players@[o1] && kept@[b] == pre.players@[o2]);
                    }
                }
            }
        }
        i = i + 1;
        proof {
            reveal(Seq::filter);
            let sub1 = pre.players@.subrange(0, i as int);
            assert(sub1.drop_last() =~= pre.players@.subrange(0, i - 1));
            assert(sub1.last() == pre.players@[i - 1]);
            assert(kept@ == live_sessions(sub1, now));
        }
    }
    proof {
        assert(pre.players@.subrange(0, pre.players@.len() as int) =~= pre.players@);
    }
    state.players = kept;
    proof {
        assert forall|a: int, b: int|
            #![trigger state.players@[a], state.players@[b]]
            0 <= a < b < state.players@.len() implies state.players@[a].id@
            != state.players@[b].id@ && state.players@[a].state.player_number
            != state.players@[b].state.player_number by {
            let (o1, o2) = choose|o1: int, o2: int|
                #![trigger pre.players@[o1], pre.players@[o2]]
                0 <= o1 < o2 < pre.players@.len() && state.players@[a] == pre.players@[o1]
                    && state.players@[b] == pre.players@[o2];
            assert(pre.players@[o1].id@ != pre.players@[o2].id@);
        }
        assert forall|a: int|
            0 <= a < state.players@.len() implies (#[trigger] state.players@[a]).state.player_number
            < state.next_player_number by {
            let o = choose|o: int|
                0 <= o < pre.players@.len() && #[trigger] state.players@[a] == pre.players@[o];
        }
    }
    out
}


/// A run of sessions in which none is stale survives a reap whole.
proof fn lemma_filter_keeps_all_live(players: Seq<SessionEntry>, now: u64)
    requires
        forall|i: int|
            0 <= i < players.len() ==> !is_stale(
                (#[trigger] players[i]).state.last_heartbeat,
                now,
            ),
    ensures
        live_sessions(players, now) == players,
    decreases players.len(),
{
    reveal(Seq::filter);
    if players.len() > 0 {
        lemma_filter_keeps_all_live(players.drop_last(), now);
        assert(live_sessions(players, now) =~= players);
    } else {
        assert(live_sessions(players, now) =~= players);
    }
}

/// When exactly one session is stale, a reap's survivors are the original
/// list with exactly that session taken out.
proof fn lemma_filter_drops_only(players: Seq<SessionEntry>, now: u64, s: int)
    requires
        0 <= s < players.len(),
        is_stale(players[s].state.last_heartbeat, now),
        forall|i: int|
            0 <= i < players.len() && i != s ==> !is_stale(
                (#[trigger] players[i]).state.last_heartbeat,
                now,
            ),
    ensures
        live_sessions(players, now) == players.remove(s),
    decreases players.len(),
{
    reveal(Seq::filter);
    if s == players.len() - 1 {
        lemma_filter_keeps_all_live(players.drop_last(), now);
        assert(live_sessions(players, now) =~= players.remove(s));
    } else {
        lemma_filter_drops_only(players.drop_last(), now, s);
        assert(live_sessions(players, now) =~= players.drop_last().remove(s).push(
            players.last(),
        ));
        assert(players.drop_last().remove(s).push(players.last()) =~= players.remove(s));
    }
}

/// When exactly one session is idle past the timeout, a reap removes that
/// session alone, sends every other session one `PlayerLeft` naming it, and
/// sends the removed session nothing at all.
pub proof fn lemma_reap_single_stale(
    pre: ServerState,
    post: ServerState,
    out: Seq<Outbound>,
    now: u64,
    s: int,
)
    requires
        pre.wf(),
        reap_post(pre, post, out, now),
        0 <= s < pre.players@.len(),
        is_stale(pre.players@[s].state.last_heartbeat, now),
        forall|i: int|
            0 <= i < pre.players@.len() && i != s ==> !is_stale(
                (#[trigger] pre.players@[i]).state.last_heartbeat,
                now,
            ),
    ensures
        post.players@ == pre.players@.remove(s),
        out.len() == pre.players@.len() - 1,
        forall|i: int|
            0 <= i < pre.players@.len() && i != s ==> notified(
                out,
                (#[trigger] pre.players@[i]).id@,
                wire(MessageType::PlayerLeft, 0, encode_utf8(pre.players@[s].id@)),
            ),
        forall|j: int| 0 <= j < out.len() ==> (#[trigger] out[j]).recipient@ != pre.players@[s].id@,
{
    lemma_filter_drops_only(pre.players@, now, s);
    assert(stale_count(pre.players@, now) == 1);
    assert forall|i: int| 0 <= i < pre.players@.len() && i != s implies notified(
        out,
        (#[trigger] pre.players@[i]).id@,
        wire(MessageType::PlayerLeft, 0, encode_utf8(pre.players@[s].id@)),
    ) by {
        assert(pre.players@[i].id@ != pre.players@[s].id@);
    }
    assert forall|j: int| 0 <= j < out.len() implies (#[trigger] out[j]).recipient@
        != pre.players@[s].id@ by {
        let (s2, i2) = choose|s2: int, i2: int|
            #![trigger pre.players@[s2], pre.players@[i2]]
            0 <= s2 < pre.players@.len() && 0 <= i2 < pre.players@.len() && is_stale(
                pre.players@[s2].state.last_heartbeat,
                now,
            ) && pre.players@[i2].id@ != pre.players@[s2].id@ && out[j].recipient@
                == pre.players@[i2].id@ && out[j].data@ == wire(
                MessageType::PlayerLeft,
                0,
                encode_utf8(pre.players@[s2].id@),
            );
        assert(s2 == s);
    }
}

/// Route one inbound datagram from `sender` at time `now`: decode it, apply
/// the per-message handling, and return what is to be sent.  A datagram that
/// fails to decode, and any inbound packet of a server-to-client-only type,
/// is dropped silently.
pub fn dispatch(state: &mut ServerState, sender: &String, datagram: &[u8], now: u64) -> (out: Vec<
    Outbound,
>)
    requires
        old(state).wf(),
        old(state).next_player_number < u32::MAX,
    ensures
        final(state).wf(),
        match parse_packet(datagram@) {
            None => *final(state) == *old(state) && out@.len() == 0,
            Some((t, v, sq, pl)) => match t {
                MessageType::PositionUpdate => position_update_post(
                    *old(state),
                    *final(state),
                    out@,
                    sender@,
                    sq,
                    pl,
                    now,
                ),
                MessageType::ChatMessage => *final(state) == *old(state) && chat_post(
                    *old(state),
                    out@,
                    sq,
                    pl,
                ),
                MessageType::Heartbeat => heartbeat_post(*old(state), *final(state), sender@, now)
                    && out@.len() == 0,
                MessageType::ConnectionInit => connection_init_post(
                    *old(state),
                    *final(state),
                    out@,
                    sender@,
                    sq,
                    now,
                ),
                _ => *final(state) == *old(state) && out@.len() == 0,
            },
        },
{
    let packet = match GamePacket::deserialize(datagram) {
        Some(p) => p,
        None => { return Vec::new(); },
    };
    match packet.msg_type {
        MessageType::PositionUpdate => handle_position_update(
            state,
            sender,
            packet.seq_num,
            &packet.payload,
            now,
        ),
        MessageType::ChatMessage => handle_chat(state, packet.seq_num, &packet.payload),
        MessageType::Heartbeat => {
            handle_heartbeat(state, sender, now);
            Vec::new()
        },
        MessageType::ConnectionInit => handle_connection_init(state, sender, packet.seq_num, now),
        MessageType::PlayerJoin => Vec::new(),
        MessageType::ConfirmPlayerMovement => Vec::new(),
        MessageType::PlayerLeft => Vec::new(),
    }
}

} // verus!
