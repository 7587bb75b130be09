//! Connection layer of a multiplayer server: wire framing, the per-connection
//! duplex pump state machine, the connection registry and the server's
//! accept / reap / drain decisions, with the small world model that the
//! application drives through it.

pub mod buffer;
pub mod decoder;
pub mod frame;
pub mod handle;
pub mod player;
pub mod pump;
pub mod registry;
pub mod server;
pub mod snapshot;
pub mod tile_map;
pub mod world;
