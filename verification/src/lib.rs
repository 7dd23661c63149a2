//! Server-side protocol engine for a small real-time multiplayer
//! state-synchronization service.
//!
//! Clients send position and chat updates as datagrams; the server keeps the
//! canonical world state, validates movement against the world bounds, and
//! fans state changes out to the other connected sessions.  This crate holds
//! the verified core: the binary packet codec, the JSON payload schemas, the
//! session registry with its liveness policy, the movement validator, and the
//! per-datagram dispatcher.  Socket I/O, timers and terminal rendering live
//! outside the library and drive it with plain values.

pub mod codec;
pub mod dispatch;
pub mod payload;
pub mod registry;

pub use codec::GamePacket;
pub use codec::MessageType;
pub use dispatch::Outbound;
pub use payload::Chat;
pub use payload::PlayerUpdate;
pub use payload::Position;
pub use registry::PlayerState;
pub use registry::PlayerStateSend;
pub use registry::ServerState;
pub use registry::ServerStateSend;
