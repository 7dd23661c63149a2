//! Domain payload schemas.
//!
//! Each message type carries its own JSON payload: a position, a chat text,
//! or a player update naming the sender and its new position.  The JSON
//! encoding and parsing are done by serde_json; each conversion stands behind
//! a trusted wrapper whose result is pinned by an uninterpreted name, with the
//! round trip between the two directions stated where the caller needs it.

use vstd::prelude::*;

verus! {

/// A point in the world.  Owned by exactly one session at a time and copied,
/// never aliased, into outgoing payloads.
#[derive(Clone, Copy, Debug, PartialEq, Eq, Structural)]
pub struct Position {
    pub x: i32,
    pub y: i32,
    pub z: i32,
}

/// A chat line as carried by a `ChatMessage` payload.
#[derive(Clone, Debug)]
pub struct Chat {
    pub text: String,
}

/// A broadcast position change: the moving session's identity and its newly
/// accepted position.
#[derive(Clone, Debug)]
pub struct PlayerUpdate {
    pub player: String,
    pub position: Position,
}

/// The JSON bytes serde_json produces for a position with these coordinates.
pub uninterp spec fn pos_json_of(x: int, y: int, z: int) -> Seq<u8>;

/// The position serde_json reads back from these bytes, if they hold one.
pub uninterp spec fn parse_pos_json(data: Seq<u8>) -> Option<(i32, i32, i32)>;

/// The JSON bytes serde_json produces for a chat line with this text.
pub uninterp spec fn chat_json_of(text: Seq<char>) -> Seq<u8>;

/// The chat text serde_json reads back from these bytes, if they hold one.
pub uninterp spec fn parse_chat_json(data: Seq<u8>) -> Option<Seq<char>>;

/// The JSON bytes serde_json produces for a player update with this identity
/// and position.
pub uninterp spec fn player_update_json_of(player: Seq<char>, x: int, y: int, z: int) -> Seq<u8>;

/// The player update serde_json reads back from these bytes, if they hold one.
pub uninterp spec fn parse_player_update_json(data: Seq<u8>) -> Option<(Seq<char>, i32, i32, i32)>;

impl Position {
    /// Build a position from its coordinates.
    pub fn new(x: i32, y: i32, z: i32) -> (r: Position)
        ensures
            r.x == x,
            r.y == y,
            r.z == z,
    {
        Position { x, y, z }
    }

    /// Encode this position as its JSON payload.
    ///
    /// Relies on serde_json::to_vec on an object built from the coordinates:
    /// the bytes depend on the coordinates alone (the object map is ordered),
    /// and serde_json::from_slice reads the same coordinates back.
    #[verifier::external_body]
    pub fn serialize(&self) -> (r: Vec<u8>)
        ensures
            r@ == pos_json_of(self.x as int, self.y as int, self.z as int),
            parse_pos_json(r@) == Some((self.x, self.y, self.z)),
    {
        let mut m = serde_json::Map::new();
        m.insert("x".to_string(), serde_json::Value::from(self.x));
        m.insert("y".to_string(), serde_json::Value::from(self.y));
        m.insert("z".to_string(), serde_json::Value::from(self.z));
        serde_json::to_vec(&serde_json::Value::Object(m)).expect("a position value always encodes")
    }

    /// Decode a JSON position payload; malformed bytes yield nothing.
    ///
    /// Relies on serde_json::from_slice and the Value accessors get and
    /// as_i64: the result depends on the bytes alone.
    #[verifier::external_body]
    pub fn deserialize(data: &[u8]) -> (r: Option<Position>)
        ensures
            match parse_pos_json(data@) {
                Some(t) => r == Some((Position { x: t.0, y: t.1, z: t.2 })),
                None => r is None,
            },
    {
        let v: serde_json::Value = serde_json::from_slice(data).ok()?;
        let x = i32::try_from(v.get("x")?.as_i64()?).ok()?;
        let y = i32::try_from(v.get("y")?.as_i64()?).ok()?;
        let z = i32::try_from(v.get("z")?.as_i64()?).ok()?;
        Some(Position { x, y, z })
    }
}

impl Chat {
    /// Encode this chat line as its JSON payload.
    ///
    /// Relies on serde_json::to_vec on an object holding the text: the bytes
    /// depend on the text alone, and serde_json::from_slice reads the same
    /// text back.
    #[verifier::external_body]
    pub fn serialize(&self) -> (r: Vec<u8>)
        ensures
            r@ == chat_json_of(self.text@),
            parse_chat_json(r@) == Some(self.text@),
    {
        let mut m = serde_json::Map::new();
        m.insert("text".to_string(), serde_json::Value::String(self.text.clone()));
        serde_json::to_vec(&serde_json::Value::Object(m)).expect("a chat value always encodes")
    }

    /// Decode a JSON chat payload; malformed bytes yield nothing.
    ///
    /// Relies on serde_json::from_slice and the Value accessors get and
    /// as_str: the result depends on the bytes alone.
    #[verifier::external_body]
    pub fn deserialize(data: &[u8]) -> (r: Option<Chat>)
        ensures
            match parse_chat_json(data@) {
                Some(t) => match r {
                    Some(c) => c.text@ == t,
                    None => false,
                },
                None => r is None,
            },
    {
        let v: serde_json::Value = serde_json::from_slice(data).ok()?;
        let text = v.get("text")?.as_str()?.to_string();
        Some(Chat { text })
    }
}

impl PlayerUpdate {
    /// Encode this player update as its JSON payload.
    ///
    /// Relies on serde_json::to_vec on an object built from the identity and
    /// the coordinates: the bytes depend on those alone, and
    /// serde_json::from_slice reads the same values back.
    #[verifier::external_body]
    pub fn serialize(&self) -> (r: Vec<u8>)
        ensures
            r@ == player_update_json_of(
                self.player@,
                self.position.x as int,
                self.position.y as int,
                self.position.z as int,
            ),
            parse_player_update_json(r@) == Some(
                (self.player@, self.position.x, self.position.y, self.position.z),
            ),
    {
        let mut pos = serde_json::Map::new();
        pos.insert("x".to_string(), serde_json::Value::from(self.position.x));
        pos.insert("y".to_string(), serde_json::Value::from(self.position.y));
        pos.insert("z".to_string(), serde_json::Value::from(self.position.z));
        let mut m = serde_json::Map::new();
        m.insert("player".to_string(), serde_json::Value::String(self.player.clone()));
        m.insert("position".to_string(), serde_json::Value::Object(pos));
        serde_json::to_vec(&serde_json::Value::Object(m)).expect("a player update always encodes")
    }

    /// Decode a JSON player-update payload; malformed bytes yield nothing.
    ///
    /// Relies on serde_json::from_slice and the Value accessors get, as_str
    /// and as_i64: the result depends on the bytes alone.
    #[verifier::external_body]
    pub fn deserialize(data: &[u8]) -> (r: Option<PlayerUpdate>)
        ensures
            match parse_player_update_json(data@) {
                Some(t) => match r {
                    Some(u) => u.player@ == t.0 && u.position == (Position {
                        x: t.1,
                        y: t.2,
                        z: t.3,
                    }),
                    None => false,
                },
                None => r is None,
            },
    {
        let v: serde_json::Value = serde_json::from_slice(data).ok()?;
        let player = v.get("player")?.as_str()?.to_string();
        let p = v.get("position")?;
        let x = i32::try_from(p.get("x")?.as_i64()?).ok()?;
        let y = i32::try_from(p.get("y")?.as_i64()?).ok()?;
        let z = i32::try_from(p.get("z")?.as_i64()?).ok()?;
        Some(PlayerUpdate { player, position: Position { x, y, z } })
    }
}

} // verus!
