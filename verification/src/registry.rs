//! Session registry and movement validator.
//!
//! The registry is the single authoritative mapping from session identity (a
//! transport address, kept as text) to player state.  Identities are unique;
//! player numbers are assigned once from a monotonically increasing counter
//! and never reused, even when an identity later reconnects.  Time is a plain
//! count of time-units supplied by the caller, so the liveness policy can be
//! stated and checked without a clock.

use vstd::prelude::*;

use crate::payload::Position;

verus! {

/// A session is evicted once its last heartbeat is more than this many
/// time-units in the past.
pub const HEARTBEAT_TIMEOUT: u64 = 10;

/// One connected client's record: its position, the time-unit of its last
/// accepted traffic, and its once-assigned player number.
#[derive(Clone, Debug)]
pub struct PlayerState {
    pub position: Position,
    pub last_heartbeat: u64,
    pub player_number: u32,
}

/// One registry entry: a session identity with its record.
#[derive(Clone, Debug)]
pub struct SessionEntry {
    pub id: String,
    pub state: PlayerState,
}

/// A point-in-time copy of one session's public state, as sent to clients in
/// a full-state snapshot.
#[derive(Clone, Debug)]
pub struct PlayerStateSend {
    pub position: Position,
}

/// A full-state snapshot: every session's identity and position, with the
/// world bounds.
#[derive(Debug)]
pub struct ServerStateSend {
    pub players: Vec<(String, PlayerStateSend)>,
    pub board_size: (u32, u32),
}

/// The authoritative server state: all sessions, the fixed world bounds, and
/// the counter from which player numbers are drawn.
#[derive(Debug)]
pub struct ServerState {
    pub players: Vec<SessionEntry>,
    pub board_size: (u32, u32),
    pub next_player_number: u32,
}

/// Whether some entry carries this identity.
pub open spec fn has_id(players: Seq<SessionEntry>, id: Seq<char>) -> bool {
    exists|i: int| 0 <= i < players.len() && players[i].id@ == id
}

/// The index of the entry carrying this identity (unambiguous when
/// identities are unique).
pub open spec fn id_index(players: Seq<SessionEntry>, id: Seq<char>) -> int {
    choose|i: int| 0 <= i < players.len() && players[i].id@ == id
}

/// No two entries carry the same identity.
pub open spec fn unique_ids(players: Seq<SessionEntry>) -> bool {
    forall|i: int, j: int|
        0 <= i < j < players.len() ==> players[i].id@ != players[j].id@
}

/// Whether a session whose last heartbeat was at `hb` is idle past the
/// timeout at time `now`.
pub open spec fn is_stale(hb: u64, now: u64) -> bool {
    now - hb > HEARTBEAT_TIMEOUT
}

/// Accept a candidate position iff it lies within the world bounds; the
/// lower bound on y is offset by two, an inherited quirk kept exactly.
pub open spec fn move_allowed(p: Position, w: u32, h: u32) -> bool {
    &&& -((w as int) / 2) <= p.x < (w as int) / 2
    &&& -((h as int) / 2) + 2 <= p.y < (h as int) / 2
}

/// The movement validator: a pure bounds check of a candidate position
/// against the world bounds.  It never touches the registry.
pub fn validate_move(candidate: &Position, board_size: (u32, u32)) -> (r: bool)
    ensures
        r == move_allowed(*candidate, board_size.0, board_size.1),
{
    let w2 = (board_size.0 / 2) as i64;
    let h2 = (board_size.1 / 2) as i64;
    let x = candidate.x as i64;
    let y = candidate.y as i64;
    -w2 <= x && x < w2 && -h2 + 2 <= y && y < h2
}

/// The identities and coordinates of a player list, as the snapshot payload
/// carries them.
pub open spec fn players_model(players: Seq<SessionEntry>) -> Seq<(Seq<char>, (int, int, int))> {
    players.map_values(
        |e: SessionEntry|
            (e.id@, (e.state.position.x as int, e.state.position.y as int, e.state.position.z as int)),
    )
}

/// The JSON bytes serde_json produces for a snapshot of these sessions and
/// bounds.
pub uninterp spec fn snapshot_json_of(
    players: Seq<(Seq<char>, (int, int, int))>,
    w: int,
    h: int,
) -> Seq<u8>;

impl ServerState {
    /// The registry's invariant: identities are unique, and player numbers
    /// are pairwise distinct and all below the counter.
    pub open spec fn wf(&self) -> bool {
        &&& unique_ids(self.players@)
        &&& forall|i: int|
            0 <= i < self.players@.len() ==> #[trigger] self.players@[i].state.player_number
                < self.next_player_number
        &&& forall|i: int, j: int|
            0 <= i < j < self.players@.len() ==> self.players@[i].state.player_number
                != self.players@[j].state.player_number
    }

    /// An empty registry with the given world bounds.
    pub fn new(board_size: (u32, u32)) -> (r: ServerState)
        ensures
            r.players@.len() == 0,
            r.board_size == board_size,
            r.next_player_number == 0,
            r.wf(),
    {
        ServerState { players: Vec::new(), board_size, next_player_number: 0 }
    }

    /// The index of the session with this identity, if one is registered.
    pub fn find_index(&self, id: &String) -> (r: Option<usize>)
        requires
            self.wf(),
        ensures
            match r {
                Some(i) => i < self.players@.len() && self.players@[i as int].id@ == id@ && i
                    == id_index(self.players@, id@),
                None => !has_id(self.players@, id@),
            },
    {
        let mut i: usize = 0;
        while i < self.players.len()
            invariant
                self.wf(),
                i <= self.players@.len(),
                forall|j: int| 0 <= j < i ==> self.players@[j].id@ != id@,
            decreases self.players@.len() - i,
        {
            if self.players[i].id.eq(id) {
                proof {
                    assert(has_id(self.players@, id@));
                    let w = id_index(self.players@, id@);
                    assert(self.players@[w].id@ == id@);
                }
                return Some(i);
            }
            i = i + 1;
        }
        None
    }

    /// Look up a session by identity.
    pub fn get(&self, id: &String) -> (r: Option<&PlayerState>)
        requires
            self.wf(),
        ensures
            match r {
                Some(p) => has_id(self.players@, id@) && *p == self.players@[id_index(
                    self.players@,
                    id@,
                )].state,
                None => !has_id(self.players@, id@),
            },
    {
        match self.find_index(id) {
            Some(i) => Some(&self.players[i].state),
            None => None,
        }
    }

    /// Register an identity if it is new, assigning the next player number
    /// and the given default position; an already registered identity is
    /// returned as it stands.  Returns the session's index.
    pub fn upsert(&mut self, id: &String, default_position: Position, now: u64) -> (idx: usize)
        requires
            old(self).wf(),
            old(self).next_player_number < u32::MAX,
        ensures
            final(self).wf(),
            final(self).board_size == old(self).board_size,
            idx < final(self).players@.len(),
            final(self).players@[idx as int].id@ == id@,
            idx as int == id_index(final(self).players@, id@),
            has_id(old(self).players@, id@) ==> *final(self) == *old(self) && idx as int
                == id_index(old(self).players@, id@),
            !has_id(old(self).players@, id@) ==> {
                &&& final(self).players@.len() == old(self).players@.len() + 1
                &&& idx == old(self).players@.len()
                &&& forall|i: int|
                    0 <= i < old(self).players@.len() ==> final(self).players@[i]
                        == old(self).players@[i]
                &&& final(self).players@[idx as int].state.position == default_position
                &&& final(self).players@[idx as int].state.last_heartbeat == now
                &&& final(self).players@[idx as int].state.player_number == old(self).next_player_number
                &&& final(self).next_player_number == old(self).next_player_number + 1
                &&& forall|i: int|
                    0 <= i < old(self).players@.len() ==> #[trigger] old(self).players@[i].state.player_number < final(self).players@[idx as int].state.player_number
            },
    {
        match self.find_index(id) {
            Some(i) => i,
            None => {
                let idx = self.players.len();
                let entry = SessionEntry {
                    id: id.clone(),
                    state: PlayerState {
                        position: default_position,
                        last_heartbeat: now,
                        player_number: self.next_player_number,
                    },
                };
                self.players.push(entry);
                self.next_player_number = self.next_player_number + 1;
                proof {
                    assert(self.players@[idx as int].id@ == id@);
                    assert(has_id(self.players@, id@));
                    let w = id_index(self.players@, id@);
                    assert(self.players@[w].id@ == id@);
                }
                idx
            },
        }
    }

    /// Set the position of the session with this identity; other sessions,
    /// and an unregistered identity, are left untouched.
    pub fn update_position(&mut self, id: &String, new_position: Position)
        requires
            old(self).wf(),
        ensures
            final(self).wf(),
            final(self).board_size == old(self).board_size,
            final(self).next_player_number == old(self).next_player_number,
            final(self).players@.len() == old(self).players@.len(),
            forall|i: int|
                0 <= i < old(self).players@.len() && old(self).players@[i].id@ != id@
                    ==> final(self).players@[i] == old(self).players@[i],
            forall|i: int|
                0 <= i < old(self).players@.len() && old(self).players@[i].id@ == id@ ==> {
                    &&& (#[trigger] final(self).players@[i]).id@ == id@
                    &&& final(self).players@[i].state.position == new_position
                    &&& final(self).players@[i].state.last_heartbeat == old(self).players@[i].state.last_heartbeat
                    &&& final(self).players@[i].state.player_number == old(self).players@[i].state.player_number
                },
    {
        match self.find_index(id) {
            Some(i) => {
                self.players[i].state.position = new_position;
            },
            None => {},
        }
    }

    /// Refresh the heartbeat of the session with this identity to `now`;
    /// other sessions, and an unregistered identity, are left untouched.
    pub fn touch_heartbeat(&mut self, id: &String, now: u64)
        requires
            old(self).wf(),
        ensures
            final(self).wf(),
            final(self).board_size == old(self).board_size,
            final(self).next_player_number == old(self).next_player_number,
            final(self).players@.len() == old(self).players@.len(),
            forall|i: int|
                0 <= i < old(self).players@.len() && old(self).players@[i].id@ != id@
                    ==> final(self).players@[i] == old(self).players@[i],
            forall|i: int|
                0 <= i < old(self).players@.len() && old(self).players@[i].id@ == id@ ==> {
                    &&& (#[trigger] final(self).players@[i]).id@ == id@
                    &&& final(self).players@[i].state.position == old(self).players@[i].state.position
                    &&& final(self).players@[i].state.last_heartbeat == now
                    &&& final(self).players@[i].state.player_number == old(self).players@[i].state.player_number
                },
    {
        match self.find_index(id) {
            Some(i) => {
                self.players[i].state.last_heartbeat = now;
            },
            None => {},
        }
    }

    /// Remove the session with this identity, returning its record; an
    /// unregistered identity leaves the registry as it stands.
    pub fn remove(&mut self, id: &String) -> (r: Option<PlayerState>)
        requires
            old(self).wf(),
        ensures
            final(self).wf(),
            final(self).board_size == old(self).board_size,
            final(self).next_player_number == old(self).next_player_number,
            match r {
                Some(p) => has_id(old(self).players@, id@) && p == old(self).players@[id_index(
                    old(self).players@,
                    id@,
                )].state && final(self).players@ == old(self).players@.remove(
                    id_index(old(self).players@, id@),
                ),
                None => !has_id(old(self).players@, id@) && *final(self) == *old(self),
            },
    {
        match self.find_index(id) {
            Some(i) => {
                let entry = self.players.remove(i);
                Some(entry.state)
            },
            None => None,
        }
    }

    /// An immutable copy of every session's identity and position, with the
    /// world bounds: the full-state snapshot.
    pub fn snapshot(&self) -> (r: ServerStateSend)
        ensures
            r.board_size == self.board_size,
            r.players@.len() == self.players@.len(),
            forall|i: int|
                0 <= i < self.players@.len() ==> (#[trigger] r.players@[i]).0@
                    == self.players@[i].id@ && r.players@[i].1.position
                    == self.players@[i].state.position,
    {
        let mut players: Vec<(String, PlayerStateSend)> = Vec::new();
        let mut i: usize = 0;
        while i < self.players.len()
            invariant
                i <= self.players@.len(),
                players@.len() == i,
                forall|j: int|
                    0 <= j < i ==> (#[trigger] players@[j]).0@ == self.players@[j].id@
                        && players@[j].1.position == self.players@[j].state.position,
            decreases self.players@.len() - i,
        {
            let entry = &self.players[i];
            players.push((entry.id.clone(), PlayerStateSend { position: entry.state.position }));
            i = i + 1;
        }
        ServerStateSend { players, board_size: self.board_size }
    }

    /// Encode the full-state snapshot of this registry as its JSON payload.
    ///
    /// Relies on serde_json::to_vec on an object built from the sessions'
    /// identities, their positions and the world bounds: the bytes depend on
    /// those values alone (the object map is ordered).
    #[verifier::external_body]
    pub fn serialize(&self) -> (r: Vec<u8>)
        ensures
            r@ == snapshot_json_of(
                players_model(self.players@),
                self.board_size.0 as int,
                self.board_size.1 as int,
            ),
    {
        let mut players = serde_json::Map::new();
        for e in self.players.iter() {
            let p = &e.state.position;
            let pos = format!("{{\"position\":{{\"x\":{},\"y\":{},\"z\":{}}}}}", p.x, p.y, p.z);
            players.insert(e.id.clone(), serde_json::from_str(&pos).expect("fixed shape"));
        }
        let (w, h) = (self.board_size.0, self.board_size.1);
        let board = vec![serde_json::Value::from(w), serde_json::Value::from(h)];
        let mut top = serde_json::Map::new();
        top.insert("players".to_string(), serde_json::Value::Object(players));
        top.insert("board_size".to_string(), serde_json::Value::from(board));
        serde_json::to_vec(&serde_json::Value::Object(top)).expect("a snapshot always encodes")
    }
}

impl ServerStateSend {
    /// An empty snapshot with the default world bounds.
    pub fn new() -> (r: ServerStateSend)
        ensures
            r.players@.len() == 0,
            r.board_size == (254u32, 254u32),
    {
        ServerStateSend { players: Vec::new(), board_size: (254, 254) }
    }
}

impl PlayerStateSend {
    /// A snapshot record at the origin.
    pub fn new() -> (r: PlayerStateSend)
        ensures
            r.position == (Position { x: 0, y: 0, z: 0 }),
    {
        PlayerStateSend { position: Position { x: 0, y: 0, z: 0 } }
    }
}

} // verus!
